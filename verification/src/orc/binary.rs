use vstd::prelude::*;
use vstd::string::StringSliceAdditionalSpecFns;
use vstd::utf8::*;

verus! {

broadcast use vstd::utf8::encode_utf8_decode_utf8;

/// Byte-wise lexicographic order, the order of `str`.
pub open spec fn lex_lt(a: Seq<u8>, b: Seq<u8>) -> bool
    decreases a.len(),
{
    if a.len() == 0 {
        b.len() > 0
    } else if b.len() == 0 {
        false
    } else if a[0] != b[0] {
        a[0] < b[0]
    } else {
        lex_lt(a.drop_first(), b.drop_first())
    }
}

/// No byte string comes before itself.
pub proof fn lemma_lex_irreflexive(a: Seq<u8>)
    ensures
        !lex_lt(a, a),
    decreases a.len(),
{
    if a.len() > 0 {
        lemma_lex_irreflexive(a.drop_first());
    }
}

/// The order is transitive.
pub proof fn lemma_lex_transitive(a: Seq<u8>, b: Seq<u8>, c: Seq<u8>)
    requires
        lex_lt(a, b),
        lex_lt(b, c),
    ensures
        lex_lt(a, c),
    decreases a.len(),
{
    if a.len() > 0 && b.len() > 0 && c.len() > 0 && a[0] == b[0] && b[0] == c[0] {
        lemma_lex_transitive(a.drop_first(), b.drop_first(), c.drop_first());
    }
}

/// Of two different byte strings, one comes before the other.
pub proof fn lemma_lex_total(a: Seq<u8>, b: Seq<u8>)
    requires
        a != b,
    ensures
        lex_lt(a, b) || lex_lt(b, a),
    decreases a.len(),
{
    if a.len() == 0 {
        assert(b.len() > 0) by {
            if b.len() == 0 {
                assert(a =~= b);
            }
        }
    } else if b.len() > 0 && a[0] == b[0] {
        if a.drop_first() == b.drop_first() {
            assert(a =~= seq![a[0]] + a.drop_first());
            assert(b =~= seq![b[0]] + b.drop_first());
        }
        lemma_lex_total(a.drop_first(), b.drop_first());
    }
}

/// Whether `a` comes before `b` in byte-wise lexicographic order.
pub fn lex_less(a: &[u8], b: &[u8]) -> (r: bool)
    ensures
        r == lex_lt(a@, b@),
{
    let mut i: usize = 0;
    assert(a@.skip(0) =~= a@);
    assert(b@.skip(0) =~= b@);
    while i < a.len() && i < b.len()
        invariant
            i <= a@.len(),
            i <= b@.len(),
            lex_lt(a@, b@) == lex_lt(a@.skip(i as int), b@.skip(i as int)),
        decreases a.len() - i,
    {
        if a[i] != b[i] {
            return a[i] < b[i];
        }
        assert(a@.skip(i as int).drop_first() =~= a@.skip(i + 1));
        assert(b@.skip(i as int).drop_first() =~= b@.skip(i + 1));
        i = i + 1;
    }
    i == a.len() && i < b.len()
}

/// The texts of a sequence of strings.
pub open spec fn texts(v: Seq<String>) -> Seq<Seq<char>> {
    v.map_values(|s: String| s@)
}

/// Strictly increasing in the order of their UTF-8 bytes.
pub open spec fn strictly_sorted(names: Seq<Seq<char>>) -> bool {
    forall|i: int, j: int|
        0 <= i < j < names.len() ==> lex_lt(
            #[trigger] encode_utf8(names[i]),
            #[trigger] encode_utf8(names[j]),
        )
}

/// In a strictly sorted list, only the first name can equal the first.
proof fn lemma_first_unique(a: Seq<Seq<char>>, i: int)
    requires
        strictly_sorted(a),
        0 < i < a.len(),
    ensures
        a[i] != a[0],
{
    if a[i] == a[0] {
        assert(lex_lt(encode_utf8(a[0]), encode_utf8(a[i])));
        lemma_lex_irreflexive(encode_utf8(a[0]));
    }
}

/// Sorting is canonical: two strictly sorted lists of the same names are
/// the same list. The imports a binary lists therefore depend only on which
/// names it imports, not on their order or repetitions.
pub proof fn lemma_strictly_sorted_canonical(a: Seq<Seq<char>>, b: Seq<Seq<char>>)
    requires
        strictly_sorted(a),
        strictly_sorted(b),
        forall|x: Seq<char>| a.contains(x) <==> b.contains(x),
    ensures
        a == b,
    decreases a.len(),
{
    if a.len() == 0 {
        if b.len() > 0 {
            assert(b.contains(b[0]));
        }
        assert(a =~= b);
    } else {
        assert(a.contains(a[0]));
        assert(b.len() > 0);
        assert(b.contains(b[0]));
        if a[0] != b[0] {
            let j = choose|j: int| 0 <= j < a.len() && a[j] == b[0];
            let k = choose|k: int| 0 <= k < b.len() && b[k] == a[0];
            assert(j > 0);
            assert(k > 0);
            assert(lex_lt(encode_utf8(a[0]), encode_utf8(a[j])));
            assert(lex_lt(encode_utf8(b[0]), encode_utf8(b[k])));
            lemma_lex_transitive(encode_utf8(a[0]), encode_utf8(b[0]), encode_utf8(a[0]));
            lemma_lex_irreflexive(encode_utf8(a[0]));
        }
        let ra = a.drop_first();
        let rb = b.drop_first();
        assert forall|i: int, j: int| 0 <= i < j < ra.len() implies lex_lt(
            #[trigger] encode_utf8(ra[i]),
            #[trigger] encode_utf8(ra[j]),
        ) by {
            assert(ra[i] == a[i + 1] && ra[j] == a[j + 1]);
        }
        assert forall|i: int, j: int| 0 <= i < j < rb.len() implies lex_lt(
            #[trigger] encode_utf8(rb[i]),
            #[trigger] encode_utf8(rb[j]),
        ) by {
            assert(rb[i] == b[i + 1] && rb[j] == b[j + 1]);
        }
        assert forall|x: Seq<char>| ra.contains(x) <==> rb.contains(x) by {
            if ra.contains(x) {
                let i = choose|i: int| 0 <= i < ra.len() && ra[i] == x;
                lemma_first_unique(a, i + 1);
                assert(a.contains(x));
                let k = choose|k: int| 0 <= k < b.len() && b[k] == x;
                assert(k != 0);
                assert(rb[k - 1] == x);
            }
            if rb.contains(x) {
                let i = choose|i: int| 0 <= i < rb.len() && rb[i] == x;
                lemma_first_unique(b, i + 1);
                assert(b.contains(x));
                let k = choose|k: int| 0 <= k < a.len() && a[k] == x;
                assert(k != 0);
                assert(ra[k - 1] == x);
            }
        }
        lemma_strictly_sorted_canonical(ra, rb);
        assert(a =~= seq![a[0]] + ra);
        assert(b =~= seq![b[0]] + rb);
    }
}

/// Inserts `s` into a strictly sorted list unless it is already there.
fn insert_sorted_unique(out: &mut Vec<String>, s: String)
    requires
        strictly_sorted(texts(old(out)@)),
    ensures
        strictly_sorted(texts(final(out)@)),
        forall|x: Seq<char>|
            texts(final(out)@).contains(x) <==> (texts(old(out)@).contains(x) || x == s@),
{
    let ghost before = texts(out@);
    let mut i: usize = 0;
    let mut found = false;
    while i < out.len() && !found
        invariant
            i <= out@.len(),
            texts(out@) == before,
            strictly_sorted(before),
            forall|k: int| 0 <= k < i ==> lex_lt(encode_utf8(#[trigger] before[k]), encode_utf8(s@)),
            found ==> i < before.len() && !lex_lt(encode_utf8(before[i as int]), encode_utf8(s@)),
        decreases out.len() - i, if found { 0int } else { 1int },
    {
        if lex_less(out[i].as_str().as_bytes(), s.as_str().as_bytes()) {
            i = i + 1;
        } else {
            found = true;
        }
    }
    if i < out.len() && out[i] == s {
        assert(before[i as int] == s@);
        return;
    }
    proof {
        if i < before.len() {
            assert(before[i as int] != s@);
            if encode_utf8(before[i as int]) == encode_utf8(s@) {
                encode_utf8_decode_utf8(before[i as int]);
                encode_utf8_decode_utf8(s@);
            }
            lemma_lex_total(encode_utf8(before[i as int]), encode_utf8(s@));
        }
        assert forall|k: int| i < k < before.len() implies lex_lt(
            encode_utf8(s@),
            encode_utf8(#[trigger] before[k]),
        ) by {
            lemma_lex_transitive(
                encode_utf8(s@),
                encode_utf8(before[i as int]),
                encode_utf8(before[k]),
            );
        }
    }
    out.insert(i, s);
    proof {
        let after = texts(out@);
        assert(after =~= before.insert(i as int, s@));
        assert forall|a: int, b: int| 0 <= a < b < after.len() implies lex_lt(
            #[trigger] encode_utf8(after[a]),
            #[trigger] encode_utf8(after[b]),
        ) by {
            if b < i {
            } else if a < i && b == i {
            } else if a < i && b > i {
                lemma_lex_transitive(
                    encode_utf8(before[a]),
                    encode_utf8(s@),
                    encode_utf8(before[b - 1]),
                );
            } else if a == i {
            } else {
            }
        }
        assert forall|x: Seq<char>| after.contains(x) <==> (before.contains(x) || x == s@) by {
            if after.contains(x) {
                let k = choose|k: int| 0 <= k < after.len() && after[k] == x;
                if k < i {
                    assert(before[k] == x);
                } else if k > i {
                    assert(before[k - 1] == x);
                }
            }
            if before.contains(x) {
                let k = choose|k: int| 0 <= k < before.len() && before[k] == x;
                if k < i {
                    assert(after[k] == x);
                } else {
                    assert(after[k + 1] == x);
                }
            }
            if x == s@ {
                assert(after[i as int] == x);
            }
        }
    }
}

/// The distinct names of `names`, in the order of their bytes: what
/// sorting and then removing consecutive duplicates gives.
pub fn sorted_unique(names: &Vec<String>) -> (r: Vec<String>)
    ensures
        strictly_sorted(texts(r@)),
        forall|x: Seq<char>| texts(r@).contains(x) <==> texts(names@).contains(x),
{
    let mut out: Vec<String> = Vec::new();
    let mut i: usize = 0;
    while i < names.len()
        invariant
            i <= names@.len(),
            strictly_sorted(texts(out@)),
            forall|x: Seq<char>|
                texts(out@).contains(x) <==> texts(names@.subrange(0, i as int)).contains(x),
        decreases names.len() - i,
    {
        let ghost prev = texts(out@);
        let s = names[i].clone();
        insert_sorted_unique(&mut out, s);
        proof {
            let old_part = texts(names@.subrange(0, i as int));
            let new_part = texts(names@.subrange(0, i + 1));
            assert(new_part =~= old_part.push(names@[i as int]@));
            assert forall|x: Seq<char>| texts(out@).contains(x) <==> new_part.contains(x) by {
                if old_part.contains(x) {
                    let k = choose|k: int| 0 <= k < old_part.len() && old_part[k] == x;
                    assert(new_part[k] == x);
                }
                if new_part.contains(x) {
                    let k = choose|k: int| 0 <= k < new_part.len() && new_part[k] == x;
                    if k < i {
                        assert(old_part[k] == x);
                    }
                }
                if x == names@[i as int]@ {
                    assert(new_part[i as int] == x);
                }
            }
        }
        i = i + 1;
    }
    assert(names@.subrange(0, names@.len() as int) =~= names@);
    out
}


/// What a binary says about the libraries it needs.
#[derive(Debug)]
pub struct BinaryInfo {
    /// The imported library names.
    pub imports: Vec<String>,
    /// The library search paths recorded as `DT_RPATH`.
    pub rpaths: Vec<String>,
    /// The library search paths recorded as `DT_RUNPATH`.
    pub runpaths: Vec<String>,
}

/// The imported libraries, `DT_RPATH` and `DT_RUNPATH` entries that
/// `goblin::elf::Elf::parse` finds in an ELF image, in the order it lists
/// them; none when it cannot parse the image.
pub uninterp spec fn elf_dependencies(image: Seq<u8>) -> Option<
    (Seq<Seq<char>>, Seq<Seq<char>>, Seq<Seq<char>>),
>;

/// The view of what [`parse_elf`] gives.
pub open spec fn info_view(info: Option<BinaryInfo>) -> Option<
    (Seq<Seq<char>>, Seq<Seq<char>>, Seq<Seq<char>>),
> {
    match info {
        Some(i) => Some((texts(i.imports@), texts(i.rpaths@), texts(i.runpaths@))),
        None => None,
    }
}

/// Parses an ELF image with `goblin::elf::Elf::parse` and copies out its
/// `libraries`, `rpaths` and `runpaths`. Claims: the copies are what
/// [`elf_dependencies`] names for the image, a function of its bytes.
#[verifier::external_body]
fn parse_elf(image: &[u8]) -> (r: Option<BinaryInfo>)
    ensures
        info_view(r) == elf_dependencies(image@),
{
    match goblin::elf::Elf::parse(image) {
        Ok(elf) => Some(BinaryInfo {
            imports: elf.libraries.iter().map(|s| s.to_string()).collect(),
            rpaths: elf.rpaths.iter().map(|s| s.to_string()).collect(),
            runpaths: elf.runpaths.iter().map(|s| s.to_string()).collect(),
        }),
        Err(_) => None,
    }
}

/// Parses an ELF image into the libraries it imports (sorted by their
/// bytes, each once) and its library search paths; none when the image
/// cannot be parsed.
pub fn parse_binary_buf(image: &[u8]) -> (r: Option<BinaryInfo>)
    ensures
        r is None <==> elf_dependencies(image@) is None,
        r matches Some(info) ==> ({
            let (libs, rpaths, runpaths) = elf_dependencies(image@).unwrap();
            &&& strictly_sorted(texts(info.imports@))
            &&& forall|x: Seq<char>| texts(info.imports@).contains(x) <==> libs.contains(x)
            &&& texts(info.rpaths@) == rpaths
            &&& texts(info.runpaths@) == runpaths
        }),
{
    match parse_elf(image) {
        None => None,
        Some(raw) => {
            let imports = sorted_unique(&raw.imports);
            Some(BinaryInfo { imports, rpaths: raw.rpaths, runpaths: raw.runpaths })
        },
    }
}

/// The DLL names of the import entries that `goblin::pe::PE::parse` finds
/// in a PE image, one per imported function and in the order it lists
/// them; none when it cannot parse the image.
pub uninterp spec fn pe_imports(image: Seq<u8>) -> Option<Seq<Seq<char>>>;

/// Parses a PE image with `goblin::pe::PE::parse` and copies out the `dll`
/// of each import entry. Claims: the copies are what [`pe_imports`] names
/// for the image, a function of its bytes.
#[verifier::external_body]
fn parse_pe(image: &[u8]) -> (r: Option<Vec<String>>)
    ensures
        r is None <==> pe_imports(image@) is None,
        r matches Some(v) ==> pe_imports(image@) == Some(texts(v@)),
{
    match goblin::pe::PE::parse(image) {
        Ok(pe) => Some(pe.imports.iter().map(|i| i.dll.to_string()).collect()),
        Err(_) => None,
    }
}

/// The DLL names a PE image imports, one per import entry, in the order
/// the image lists them; none when the image cannot be parsed.
pub fn pe_import_names(image: &[u8]) -> (r: Option<Vec<String>>)
    ensures
        r is None <==> pe_imports(image@) is None,
        r matches Some(v) ==> pe_imports(image@) == Some(texts(v@)),
{
    parse_pe(image)
}

/// Parses a PE image into the DLLs it imports (sorted by their bytes, each
/// once); a PE image records no library search paths. None when the image
/// cannot be parsed.
pub fn parse_pe_buf(image: &[u8]) -> (r: Option<BinaryInfo>)
    ensures
        r is None <==> pe_imports(image@) is None,
        r matches Some(info) ==> {
            &&& strictly_sorted(texts(info.imports@))
            &&& forall|x: Seq<char>|
                texts(info.imports@).contains(x) <==> pe_imports(image@).unwrap().contains(x)
            &&& info.rpaths@.len() == 0
            &&& info.runpaths@.len() == 0
        },
{
    match parse_pe(image) {
        None => None,
        Some(dlls) => {
            let imports = sorted_unique(&dlls);
            Some(BinaryInfo { imports, rpaths: Vec::new(), runpaths: Vec::new() })
        },
    }
}

/// The search paths that apply: `DT_RUNPATH` entries take priority over
/// `DT_RPATH` entries whenever there are any.
pub fn search_paths(info: &BinaryInfo) -> (r: &Vec<String>)
    ensures
        r@ == (if info.runpaths@.len() > 0 { info.runpaths@ } else { info.rpaths@ }),
{
    if info.runpaths.len() > 0 {
        &info.runpaths
    } else {
        &info.rpaths
    }
}

} // verus!
