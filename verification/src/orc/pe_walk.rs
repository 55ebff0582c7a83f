use vstd::prelude::*;

use crate::orc::binary::texts;
use crate::orc::search::contains_text;

verus! {

/// `c` with the ASCII letters `A` to `Z` mapped to `a` to `z`.
pub open spec fn ascii_lower_char(c: char) -> char {
    if 'A' <= c <= 'Z' {
        ((c as int) + 32) as char
    } else {
        c
    }
}

/// `s` with every ASCII upper-case letter made lower-case; other characters
/// are left as they are.
pub open spec fn ascii_lower(s: Seq<char>) -> Seq<char> {
    s.map_values(|c: char| ascii_lower_char(c))
}

/// The lower-case ASCII letters, in order.
pub open spec fn lower_letters() -> Seq<char> {
    seq![
        'a', 'b', 'c', 'd', 'e', 'f', 'g', 'h', 'i', 'j', 'k', 'l', 'm', 'n', 'o', 'p', 'q',
        'r', 's', 't', 'u', 'v', 'w', 'x', 'y', 'z',
    ]
}

/// Letter `k` of the alphabet is the character `97 + k`.
proof fn lemma_lower_letters()
    ensures
        lower_letters().len() == 26,
        forall|k: int| 0 <= k < 26 ==> #[trigger] lower_letters()[k] == ((k + 97) as char),
{
}

/// A copy of `s` in which `A` to `Z` become `a` to `z` and every other
/// character stays.
fn to_ascii_lowercase(s: &str) -> (r: String)
    ensures
        r@ == ascii_lower(s@),
{
    proof {
        reveal_strlit("abcdefghijklmnopqrstuvwxyz");
        lemma_lower_letters();
    }
    let letters = "abcdefghijklmnopqrstuvwxyz";
    assert(letters@ =~= lower_letters());
    let n = s.unicode_len();
    let mut out = String::new();
    let mut i: usize = 0;
    while i < n
        invariant
            n == s@.len(),
            i <= n,
            letters@ == lower_letters(),
            forall|k: int| 0 <= k < 26 ==> #[trigger] lower_letters()[k] == ((k + 97) as char),
            out@ == ascii_lower(s@.subrange(0, i as int)),
        decreases n - i,
    {
        let c = s.get_char(i);
        let ghost before = out@;
        if 'A' <= c && c <= 'Z' {
            let k = (c as u32 - 65) as usize;
            assert(letters@[k as int] == ascii_lower_char(c));
            out.append(letters.substring_char(k, k + 1));
        } else {
            out.append(s.substring_char(i, i + 1));
        }
        assert(ascii_lower(s@.subrange(0, i + 1)) =~= ascii_lower(s@.subrange(0, i as int)).push(
            ascii_lower_char(c),
        ));
        assert(out@ =~= before.push(ascii_lower_char(c)));
        i = i + 1;
    }
    assert(s@.subrange(0, n as int) =~= s@);
    out
}

/// Records the import `dll` of a PE image, compared without regard to ASCII
/// case: returns its lower-case name when it was not seen before (and marks
/// it seen), none when it was.
pub fn visit_import(dll: &str, visited: &mut Vec<String>) -> (r: Option<String>)
    ensures
        r is None <==> texts(old(visited)@).contains(ascii_lower(dll@)),
        r is None ==> final(visited)@ == old(visited)@,
        r matches Some(l) ==> l@ == ascii_lower(dll@) && texts(final(visited)@) == texts(
            old(visited)@,
        ).push(l@),
{
    let lower = to_ascii_lowercase(dll);
    if contains_text(visited, lower.as_str()) {
        None
    } else {
        let ghost before = visited@;
        visited.push(lower.clone());
        assert(texts(visited@) =~= texts(before).push(lower@));
        Some(lower)
    }
}

/// The line shown for an import `indent` levels deep: two spaces per
/// level, then the name.
pub fn tree_line(indent: usize, name: &str) -> (r: String)
    ensures
        r@ == Seq::new(2 * indent as nat, |i: int| ' ') + name@,
{
    let mut line = String::new();
    let mut i: usize = 0;
    while i < indent
        invariant
            i <= indent,
            line@ == Seq::new(2 * i as nat, |k: int| ' '),
        decreases indent - i,
    {
        proof {
            reveal_strlit("  ");
        }
        line.append("  ");
        assert(line@ =~= Seq::new(2 * (i + 1) as nat, |k: int| ' '));
        i = i + 1;
    }
    line.append(name);
    line
}

/// The view of a binary being walked: the directory it lies in, the DLL
/// names it imports, and the position of the next import to look at.
pub type FrameView = (Seq<char>, Seq<Seq<char>>, nat);

/// A binary being walked.
pub struct WalkFrame {
    /// The directory the binary lies in; its imports are looked for there.
    pub dir: String,
    /// The DLL names the binary imports, in the order the image lists them.
    pub imports: Vec<String>,
    /// The position of the next import to look at.
    pub next: usize,
}

/// The view of a frame.
pub open spec fn frame_view(f: WalkFrame) -> FrameView {
    (f.dir@, texts(f.imports@), f.next as nat)
}

/// What the walk shows next: the lower-case name of a DLL not shown
/// before, how deep it lies and the directory of the binary importing it.
pub type StepView = (nat, Seq<char>, Seq<char>);

/// The imports left in the innermost binary being walked.
pub open spec fn remaining(frames: Seq<FrameView>) -> nat {
    if frames.len() == 0 {
        0
    } else {
        let top = frames.last();
        if top.2 < top.1.len() {
            (top.1.len() - top.2) as nat
        } else {
            0
        }
    }
}

/// One step of a depth-first walk: in the innermost binary, skip imports
/// already shown (ignoring ASCII case); show the next new one, as deep as
/// that binary is below the first; leave a binary whose imports are all
/// looked at. Gives the names shown so far, the binaries still being
/// walked and what is shown, none when the walk is over.
pub open spec fn walk_step(visited: Seq<Seq<char>>, frames: Seq<FrameView>) -> (
    Seq<Seq<char>>,
    Seq<FrameView>,
    Option<StepView>,
)
    decreases frames.len(), remaining(frames),
{
    if frames.len() == 0 {
        (visited, frames, None)
    } else {
        let top = frames.last();
        if top.2 >= top.1.len() {
            walk_step(visited, frames.drop_last())
        } else {
            let name = ascii_lower(top.1[top.2 as int]);
            let advanced = frames.drop_last().push((top.0, top.1, top.2 + 1));
            if visited.contains(name) {
                walk_step(visited, advanced)
            } else {
                (
                    visited.push(name),
                    advanced,
                    Some(((frames.len() - 1) as nat, name, top.0)),
                )
            }
        }
    }
}

/// The walk never shows a DLL twice: a step shows only a name not shown
/// before and adds just that name to the names shown; a step that shows
/// nothing adds none.
pub proof fn lemma_walk_shows_each_dll_once(visited: Seq<Seq<char>>, frames: Seq<FrameView>)
    ensures
        ({
            let (v, f, out) = walk_step(visited, frames);
            match out {
                Some((depth, name, dir)) => !visited.contains(name) && v == visited.push(name),
                None => v == visited && f.len() == 0,
            }
        }),
    decreases frames.len(), remaining(frames),
{
    if frames.len() > 0 {
        let top = frames.last();
        if top.2 >= top.1.len() {
            lemma_walk_shows_each_dll_once(visited, frames.drop_last());
        } else {
            let name = ascii_lower(top.1[top.2 as int]);
            let advanced = frames.drop_last().push((top.0, top.1, top.2 + 1));
            if visited.contains(name) {
                assert(advanced.len() == frames.len());
                assert(advanced.last() == (top.0, top.1, top.2 + 1));
                lemma_walk_shows_each_dll_once(visited, advanced);
            }
        }
    }
}

/// A line the walk shows: an imported DLL, how deep it lies, the directory
/// to look for its file in and the text of the line.
pub struct WalkStep {
    pub depth: usize,
    pub dll: String,
    pub dir: String,
    pub line: String,
}

/// The state of a depth-first walk over the imports of a PE binary and of
/// the DLLs it finds: the names shown so far and the binaries being walked,
/// innermost last.
pub struct PeWalk {
    pub visited: Vec<String>,
    pub frames: Vec<WalkFrame>,
}

impl PeWalk {
    /// The view of the binaries being walked.
    pub open spec fn frames_view(&self) -> Seq<FrameView> {
        self.frames@.map_values(|f: WalkFrame| frame_view(f))
    }

    /// A walk that has shown nothing and walks nothing.
    pub fn new() -> (r: Self)
        ensures
            r.visited@.len() == 0,
            r.frames@.len() == 0,
    {
        PeWalk { visited: Vec::new(), frames: Vec::new() }
    }

    /// Starts walking a binary in `dir` whose image lists `imports`; a
    /// binary that could not be read or parsed (none) is not walked.
    pub fn enter(&mut self, dir: String, imports: Option<Vec<String>>)
        ensures
            final(self).visited@ == old(self).visited@,
            final(self).frames_view() == (match imports {
                Some(v) => old(self).frames_view().push((dir@, texts(v@), 0)),
                None => old(self).frames_view(),
            }),
    {
        match imports {
            Some(v) => {
                let ghost before = self.frames_view();
                let ghost f = (dir@, texts(v@), 0nat);
                self.frames.push(WalkFrame { dir, imports: v, next: 0 });
                assert(self.frames_view() =~= before.push(f));
            },
            None => {},
        }
    }

    /// Takes the next step of the walk (see [`walk_step`]) and gives the
    /// line to show for it: two spaces per level, then the name.
    pub fn next_step(&mut self) -> (r: Option<WalkStep>)
        ensures
            ({
                let (v, f, out) = walk_step(texts(old(self).visited@), old(self).frames_view());
                &&& texts(final(self).visited@) == v
                &&& final(self).frames_view() == f
                &&& match out {
                    None => r is None,
                    Some((depth, dll, dir)) => r matches Some(step) && step.depth == depth
                        && step.dll@ == dll && step.dir@ == dir && step.line@ == Seq::new(
                        2 * depth,
                        |i: int| ' ',
                    ) + dll,
                }
            }),
    {
        let ghost target = walk_step(texts(self.visited@), self.frames_view());
        loop
            invariant
                target == walk_step(texts(old(self).visited@), old(self).frames_view()),
                walk_step(texts(self.visited@), self.frames_view()) == target,
            decreases self.frames_view().len(), remaining(self.frames_view()),
        {
            let n = self.frames.len();
            if n == 0 {
                return None;
            }
            let ghost fv = self.frames_view();
            let mut top = self.frames.pop().unwrap();
            proof {
                assert(self.frames_view() =~= fv.drop_last());
                assert(fv.last() == frame_view(top));
            }
            if top.next >= top.imports.len() {
                continue;
            }
            let idx = top.next;
            top.next = idx + 1;
            let ghost vbefore = texts(self.visited@);
            let seen = visit_import(top.imports[idx].as_str(), &mut self.visited);
            let dir = top.dir.clone();
            let ghost tv = frame_view(top);
            self.frames.push(top);
            proof {
                assert(fv.last().1[idx as int] == top.imports@[idx as int]@);
                assert(self.frames_view() =~= fv.drop_last().push(tv));
            }
            match seen {
                None => {},
                Some(dll) => {
                    let depth = n - 1;
                    let line = tree_line(depth, dll.as_str());
                    return Some(WalkStep { depth, dll, dir, line });
                },
            }
        }
    }
}

} // verus!
