use vstd::prelude::*;

use crate::orc::colors::{bold, bold_spec, green, green_spec, red, red_spec, yellow, yellow_spec};
use crate::orc::text::{has_prefix, join_path, path_join, starts_with};

verus! {

/// The name prefix of the virtual API-set libraries that Windows resolves
/// without a file.
pub open spec fn api_set_prefix() -> Seq<char> {
    seq!['a', 'p', 'i', '-', 'm', 's', '-', 'w', 'i', 'n']
}

/// A node of a PE dependency tree: a DLL `name`, the directory it was
/// found in (none when it could not be found) and its depth below the
/// scanned binary. Paths are held in slash form.
#[derive(Debug, Clone)]
pub struct DepTree {
    pub name: String,
    pub base: Option<String>,
    pub depth: usize,
}

/// The line shown for a DLL when every dependency is shown: the root by
/// name; a found DLL with its path, all in green; an API-set DLL marked as a
/// virtual import; any other missing DLL in red.
pub open spec fn content_all_spec(name: Seq<char>, depth: nat, base: Option<Seq<char>>) -> Seq<
    char,
> {
    if depth == 0 {
        name
    } else {
        match base {
            Some(p) => green_spec(
                name + seq![' ', '-', '>', ' '] + path_join(p, name),
            ),
            None => if has_prefix(name, api_set_prefix()) {
                green_spec(name) + seq![' '] + green_spec(seq!['-', '>']) + seq![' '] + bold_spec(
                    yellow_spec(
                        seq!['V', 'i', 'r', 't', 'u', 'a', 'l', 'I', 'm', 'p', 'o', 'r', 't'],
                    ),
                )
            } else {
                red_spec(name)
            },
        }
    }
}

/// In the full view the scanned binary is shown by name alone; a DLL that
/// was not found is marked as a virtual import when it is an API-set DLL
/// and shown in red otherwise. In the missing-only view only a DLL that was
/// not found, below the root, is coloured, in red.
pub proof fn lemma_pe_lines(name: Seq<char>, depth: nat, base: Option<Seq<char>>)
    ensures
        content_all_spec(name, 0, base) == name,
        depth > 0 && has_prefix(name, api_set_prefix()) ==> content_all_spec(name, depth, None)
            == green_spec(name) + seq![' '] + green_spec(seq!['-', '>']) + seq![' '] + bold_spec(
            yellow_spec(seq!['V', 'i', 'r', 't', 'u', 'a', 'l', 'I', 'm', 'p', 'o', 'r', 't']),
        ),
        depth > 0 && !has_prefix(name, api_set_prefix()) ==> content_all_spec(name, depth, None)
            == red_spec(name),
        depth == 0 || base is Some ==> content_missing_spec(name, depth, base) == name,
        depth > 0 && base is None ==> content_missing_spec(name, depth, base) == red_spec(name),
{
}

/// In the full view a found DLL is shown with the path it was found at,
/// all in green, whatever its name: only a DLL that was not found can be
/// marked as a virtual import.
pub proof fn lemma_found_dll_shows_its_path(name: Seq<char>, depth: nat, p: Seq<char>)
    requires
        depth > 0,
    ensures
        content_all_spec(name, depth, Some(p)) == green_spec(
            name + seq![' ', '-', '>', ' '] + path_join(p, name),
        ),
{
}

/// The line shown for a DLL when only missing ones are shown: the name,
/// red when the DLL is missing.
pub open spec fn content_missing_spec(name: Seq<char>, depth: nat, base: Option<Seq<char>>) -> Seq<
    char,
> {
    if depth == 0 || base is Some {
        name
    } else {
        red_spec(name)
    }
}

impl DepTree {
    /// The line [`DepTree::content_all`] shows for this node.
    pub open spec fn all_spec(&self) -> Seq<char> {
        content_all_spec(self.name@, self.depth as nat, crate::orc::dep_tree::opt_view(self.base))
    }

    /// The line [`DepTree::content_missing`] shows for this node.
    pub open spec fn missing_spec(&self) -> Seq<char> {
        content_missing_spec(
            self.name@,
            self.depth as nat,
            crate::orc::dep_tree::opt_view(self.base),
        )
    }

    /// A node for the DLL `name`.
    pub fn new(name: String, base: Option<String>, depth: usize) -> (r: Self)
        ensures
            r.name == name,
            r.base == base,
            r.depth == depth,
    {
        DepTree { name, base, depth }
    }

    /// The line shown for this node when every dependency is shown.
    pub fn content_all(&self) -> (r: String)
        ensures
            r@ == self.all_spec(),
    {
        proof {
            reveal_strlit(" -> ");
            reveal_strlit(" ");
            reveal_strlit("->");
            reveal_strlit("VirtualImport");
            reveal_strlit("api-ms-win");
        }
        assert("api-ms-win"@ =~= api_set_prefix());
        if self.depth == 0 {
            return self.name.clone();
        }
        match &self.base {
            Some(p) => {
                let mut line = self.name.clone();
                line.append(" -> ");
                let joined = join_path(p.as_str(), self.name.as_str());
                line.append(joined.as_str());
                assert(line@ =~= self.name@ + seq![' ', '-', '>', ' '] + path_join(p@, self.name@));
                green(line.as_str())
            },
            None => if starts_with(self.name.as_str(), "api-ms-win") {
                assert("VirtualImport"@ =~= seq![
                    'V', 'i', 'r', 't', 'u', 'a', 'l', 'I', 'm', 'p', 'o', 'r', 't',
                ]);
                assert("->"@ =~= seq!['-', '>']);
                assert(" "@ =~= seq![' ']);
                let mut line = green(self.name.as_str());
                line.append(" ");
                line.append(green("->").as_str());
                line.append(" ");
                let marker = yellow("VirtualImport");
                line.append(bold(marker.as_str()).as_str());
                assert(line@ =~= self.all_spec());
                line
            } else {
                red(self.name.as_str())
            },
        }
    }

    /// The line shown for this node when only missing DLLs are shown.
    pub fn content_missing(&self) -> (r: String)
        ensures
            r@ == self.missing_spec(),
    {
        if self.depth == 0 || self.base.is_some() {
            self.name.clone()
        } else {
            red(self.name.as_str())
        }
    }

    /// Whether the imports of this DLL are listed: it must have been found
    /// and lie above the depth limit (a limit of zero means none).
    pub open spec fn lists_children(&self, limit: nat) -> bool {
        &&& self.base is Some
        &&& !(limit > 0 && self.depth + 1 > limit)
    }

    /// Executable form of [`DepTree::lists_children`].
    pub fn scans_imports(&self, limit: usize) -> (r: bool)
        requires
            self.depth < usize::MAX,
        ensures
            r == self.lists_children(limit as nat),
    {
        self.base.is_some() && !(limit > 0 && self.depth + 1 > limit)
    }

    /// The children of this DLL for its imports, each given with the
    /// directory it was found in: one node per import, in order, one level
    /// deeper. None when there is no import.
    pub fn leaves_from(&self, resolved: &Vec<(String, Option<String>)>) -> (r: Option<Vec<DepTree>>)
        requires
            self.depth < usize::MAX,
        ensures
            r is None <==> resolved@.len() == 0,
            r matches Some(v) ==> v@.len() == resolved@.len() && forall|i: int|
                0 <= i < v@.len() ==> (#[trigger] v@[i]).name@ == resolved@[i].0@
                    && crate::orc::dep_tree::opt_view(v@[i].base) == crate::orc::dep_tree::opt_view(
                    resolved@[i].1,
                ) && v@[i].depth == self.depth + 1,
    {
        let mut out: Vec<DepTree> = Vec::new();
        let mut i: usize = 0;
        while i < resolved.len()
            invariant
                self.depth < usize::MAX,
                i <= resolved@.len(),
                out@.len() == i,
                forall|k: int|
                    0 <= k < i ==> (#[trigger] out@[k]).name@ == resolved@[k].0@
                        && crate::orc::dep_tree::opt_view(out@[k].base)
                        == crate::orc::dep_tree::opt_view(resolved@[k].1) && out@[k].depth
                        == self.depth + 1,
            decreases resolved.len() - i,
        {
            let (name, base) = &resolved[i];
            out.push(DepTree::new(name.clone(), base.clone(), self.depth + 1));
            i = i + 1;
        }
        if out.len() == 0 {
            None
        } else {
            Some(out)
        }
    }
}

} // verus!
