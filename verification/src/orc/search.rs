use vstd::prelude::*;

use crate::orc::binary::texts;

verus! {

/// The processor architecture of the machine, as far as the library
/// search cares: it adds the multiarch directories of the architecture.
#[derive(Debug, Clone, Copy, PartialEq, Eq, Structural)]
pub enum TargetArch {
    X86_64,
    Aarch64,
    Other,
}

/// The system library directories, in search order.
pub open spec fn system_lib_dirs_spec(arch: TargetArch) -> Seq<Seq<char>> {
    seq![
        "/lib"@,
        "/lib64"@,
        "/usr/lib"@,
        "/usr/lib64"@,
        "/usr/local/lib"@,
        "/usr/local/lib64"@,
    ] + match arch {
        TargetArch::X86_64 => seq!["/lib/x86_64-linux-gnu"@, "/usr/lib/x86_64-linux-gnu"@],
        TargetArch::Aarch64 => seq!["/lib/aarch64-linux-gnu"@, "/usr/lib/aarch64-linux-gnu"@],
        TargetArch::Other => Seq::empty(),
    }
}

/// Appends copies of `items` to `out`.
fn append_all(out: &mut Vec<String>, items: &Vec<String>)
    ensures
        texts(final(out)@) == texts(old(out)@) + texts(items@),
{
    let ghost start = texts(out@);
    let mut i: usize = 0;
    while i < items.len()
        invariant
            i <= items@.len(),
            texts(out@) == start + texts(items@.subrange(0, i as int)),
        decreases items.len() - i,
    {
        let ghost prev = out@;
        out.push(items[i].clone());
        assert(texts(out@) =~= texts(prev).push(items@[i as int]@));
        assert(texts(items@.subrange(0, i + 1)) =~= texts(items@.subrange(0, i as int)).push(
            items@[i as int]@,
        ));
        i = i + 1;
    }
    assert(items@.subrange(0, items@.len() as int) =~= items@);
}

/// Appends `s` to `out`.
fn push_text(out: &mut Vec<String>, s: &str)
    ensures
        texts(final(out)@) == texts(old(out)@).push(s@),
{
    out.push(s.to_owned());
    assert(texts(out@) =~= texts(old(out)@).push(s@));
}

/// The system library directories, in search order: the classic
/// directories, then the multiarch directories of the architecture.
pub fn system_lib_dirs(arch: TargetArch) -> (r: Vec<String>)
    ensures
        texts(r@) == system_lib_dirs_spec(arch),
{
    let mut out: Vec<String> = Vec::new();
    push_text(&mut out, "/lib");
    push_text(&mut out, "/lib64");
    push_text(&mut out, "/usr/lib");
    push_text(&mut out, "/usr/lib64");
    push_text(&mut out, "/usr/local/lib");
    push_text(&mut out, "/usr/local/lib64");
    match arch {
        TargetArch::X86_64 => {
            push_text(&mut out, "/lib/x86_64-linux-gnu");
            push_text(&mut out, "/usr/lib/x86_64-linux-gnu");
        },
        TargetArch::Aarch64 => {
            push_text(&mut out, "/lib/aarch64-linux-gnu");
            push_text(&mut out, "/usr/lib/aarch64-linux-gnu");
        },
        TargetArch::Other => {},
    }
    assert(texts(out@) =~= system_lib_dirs_spec(arch));
    out
}

/// The directories an ELF import is looked for in, in order: the directory
/// of the importing binary, the `LD_LIBRARY_PATH` entries, the `DT_RUNPATH`
/// entries (or, when there are none, the `DT_RPATH` entries) and, unless
/// left out, the system directories.
pub open spec fn linux_search_dirs_spec(
    base: Seq<char>,
    ld_library_path: Seq<Seq<char>>,
    rpaths: Seq<Seq<char>>,
    runpaths: Seq<Seq<char>>,
    include_system: bool,
    arch: TargetArch,
) -> Seq<Seq<char>> {
    seq![base] + ld_library_path + (if runpaths.len() > 0 {
        runpaths
    } else {
        rpaths
    }) + (if include_system {
        system_lib_dirs_spec(arch)
    } else {
        Seq::empty()
    })
}

/// The search order: first the directory of the importing binary, then the
/// `LD_LIBRARY_PATH` entries, then the `DT_RUNPATH` entries when there are
/// any (the `DT_RPATH` entries are then not searched) or else the
/// `DT_RPATH` entries, and only after all of these the system directories.
pub proof fn lemma_linux_search_order(
    base: Seq<char>,
    ld_library_path: Seq<Seq<char>>,
    rpaths: Seq<Seq<char>>,
    runpaths: Seq<Seq<char>>,
    arch: TargetArch,
)
    ensures
        ({
            let r = linux_search_dirs_spec(base, ld_library_path, rpaths, runpaths, true, arch);
            let l = ld_library_path.len() as int;
            let own = if runpaths.len() > 0 { runpaths } else { rpaths };
            let sys = system_lib_dirs_spec(arch);
            &&& r.len() == 1 + l + own.len() + sys.len()
            &&& r[0] == base
            &&& forall|j: int| 0 <= j < l ==> r[1 + j] == ld_library_path[j]
            &&& runpaths.len() > 0 ==> forall|i: int|
                0 <= i < runpaths.len() ==> r[1 + l + i] == runpaths[i]
            &&& runpaths.len() == 0 ==> forall|i: int|
                0 <= i < rpaths.len() ==> r[1 + l + i] == rpaths[i]
            &&& forall|k: int| 0 <= k < sys.len() ==> r[1 + l + own.len() + k] == sys[k]
        }),
        linux_search_dirs_spec(base, ld_library_path, rpaths, runpaths, false, arch).len() == 1
            + ld_library_path.len() + (if runpaths.len() > 0 {
            runpaths.len()
        } else {
            rpaths.len()
        }),
{
}

/// The directories an ELF import is looked for in, in order; the import is
/// found in the first of them that holds a file of its name.
pub fn linux_search_dirs(
    base: &str,
    ld_library_path: &Vec<String>,
    rpaths: &Vec<String>,
    runpaths: &Vec<String>,
    include_system: bool,
    arch: TargetArch,
) -> (r: Vec<String>)
    ensures
        texts(r@) == linux_search_dirs_spec(
            base@,
            texts(ld_library_path@),
            texts(rpaths@),
            texts(runpaths@),
            include_system,
            arch,
        ),
{
    let mut out: Vec<String> = Vec::new();
    push_text(&mut out, base);
    append_all(&mut out, ld_library_path);
    if runpaths.len() > 0 {
        append_all(&mut out, runpaths);
    } else {
        append_all(&mut out, rpaths);
    }
    if include_system {
        let system = system_lib_dirs(arch);
        append_all(&mut out, &system);
    }
    assert(texts(out@) =~= linux_search_dirs_spec(
        base@,
        texts(ld_library_path@),
        texts(rpaths@),
        texts(runpaths@),
        include_system,
        arch,
    ));
    out
}

/// The directories a DLL is looked for in, in order: the directory of the
/// importing binary, then the `PATH` entries.
pub fn windows_search_dirs(base: &str, path_entries: &Vec<String>) -> (r: Vec<String>)
    ensures
        texts(r@) == seq![base@] + texts(path_entries@),
{
    let mut out: Vec<String> = Vec::new();
    push_text(&mut out, base);
    append_all(&mut out, path_entries);
    out
}

/// The names of `s` without repetitions: each at its first occurrence, in
/// order.
pub open spec fn first_occurrences_spec(s: Seq<Seq<char>>) -> Seq<Seq<char>>
    decreases s.len(),
{
    if s.len() == 0 {
        Seq::empty()
    } else {
        let prefix = first_occurrences_spec(s.drop_last());
        if prefix.contains(s.last()) {
            prefix
        } else {
            prefix.push(s.last())
        }
    }
}

/// Whether `name` is one of `names`.
pub fn contains_text(names: &Vec<String>, name: &str) -> (r: bool)
    ensures
        r == texts(names@).contains(name@),
{
    let wanted = name.to_owned();
    let mut i: usize = 0;
    while i < names.len()
        invariant
            i <= names@.len(),
            wanted@ == name@,
            forall|j: int| 0 <= j < i ==> #[trigger] names@[j]@ != name@,
        decreases names.len() - i,
    {
        if names[i] == wanted {
            assert(texts(names@)[i as int] == name@);
            return true;
        }
        i = i + 1;
    }
    assert(!texts(names@).contains(name@)) by {
        if texts(names@).contains(name@) {
            let k = choose|k: int| 0 <= k < texts(names@).len() && texts(names@)[k] == name@;
            assert(names@[k]@ == name@);
        }
    }
    false
}

/// The imports of a binary, each once, in the order of their first
/// occurrence.
pub fn first_occurrences(names: &Vec<String>) -> (r: Vec<String>)
    ensures
        texts(r@) == first_occurrences_spec(texts(names@)),
{
    let mut out: Vec<String> = Vec::new();
    let mut i: usize = 0;
    while i < names.len()
        invariant
            i <= names@.len(),
            texts(out@) == first_occurrences_spec(texts(names@.subrange(0, i as int))),
        decreases names.len() - i,
    {
        let ghost part = texts(names@.subrange(0, i + 1));
        assert(part.drop_last() =~= texts(names@.subrange(0, i as int)));
        assert(part.last() == names@[i as int]@);
        if !contains_text(&out, names[i].as_str()) {
            out.push(names[i].clone());
            assert(texts(out@) =~= first_occurrences_spec(part));
        }
        i = i + 1;
    }
    assert(names@.subrange(0, names@.len() as int) =~= names@);
    out
}

/// Keeping first occurrences keeps every name, and each only once.
pub proof fn lemma_first_occurrences(s: Seq<Seq<char>>)
    ensures
        forall|x: Seq<char>| first_occurrences_spec(s).contains(x) <==> s.contains(x),
        first_occurrences_spec(s).no_duplicates(),
    decreases s.len(),
{
    if s.len() > 0 {
        let init = s.drop_last();
        lemma_first_occurrences(init);
        let p = first_occurrences_spec(init);
        assert forall|x: Seq<char>| first_occurrences_spec(s).contains(x) <==> s.contains(x) by {
            if init.contains(x) {
                let k = choose|k: int| 0 <= k < init.len() && init[k] == x;
                assert(s[k] == x);
            }
            if s.contains(x) {
                let k = choose|k: int| 0 <= k < s.len() && s[k] == x;
                if k < s.len() - 1 {
                    assert(init[k] == x);
                }
            }
            if !p.contains(s.last()) {
                if p.push(s.last()).contains(x) {
                    let k = choose|k: int| 0 <= k < p.push(s.last()).len() && p.push(s.last())[k] == x;
                    if k < p.len() {
                        assert(p[k] == x);
                    }
                }
                if p.contains(x) {
                    let k = choose|k: int| 0 <= k < p.len() && p[k] == x;
                    assert(p.push(s.last())[k] == x);
                }
                assert(p.push(s.last())[p.len() as int] == s.last());
            }
        }
    }
}

} // verus!
