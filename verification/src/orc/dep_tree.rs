use vstd::prelude::*;

use crate::orc::colors::{blue, blue_spec, green, green_spec, red, red_spec};
use crate::orc::text::{has_prefix, join_path, path_join, starts_with};
use crate::orc::win::api_set_prefix;
use crate::orc::{Platform, ShowOption};

verus! {

/// A node of the dependency tree: a library `name`, the directory it was
/// found in (`base`, none when it could not be found), its depth below the
/// scanned binary and, when the library is a symbolic link, the file it
/// points to (`target`). Paths are held in slash form.
#[derive(Debug, Clone)]
pub struct DepTree {
    pub name: String,
    pub base: Option<String>,
    pub depth: usize,
    pub target: Option<String>,
}

/// The view of an optional path.
pub open spec fn opt_view(p: Option<String>) -> Option<Seq<char>> {
    match p {
        Some(s) => Some(s@),
        None => None,
    }
}

/// The text ` -> `.
pub open spec fn arrow() -> Seq<char> {
    seq![' ', '-', '>', ' ']
}

/// The line shown for a dependency when every dependency is shown: the root
/// by name; a found library with the path it was found at (green); a
/// missing library in red, except that on Windows a missing API-set DLL is
/// marked as a virtual import (in blue); a link with its target, green
/// unless the link itself is missing.
pub open spec fn content_all_spec(
    name: Seq<char>,
    depth: nat,
    base: Option<Seq<char>>,
    target: Option<Seq<char>>,
    platform: Platform,
) -> Seq<char> {
    match target {
        None => if depth == 0 {
            name
        } else {
            match base {
                Some(p) => name + seq![' ', '['] + green_spec(path_join(p, name)) + seq![']'],
                None => if is_virtual_import(name, platform) {
                    name + seq![' ', '['] + blue_spec(virtual_import_text()) + seq![']']
                } else {
                    red_spec(name)
                },
            }
        },
        Some(t) => if depth == 0 || base is Some {
            name + arrow() + green_spec(t)
        } else {
            name + arrow() + red_spec(t)
        },
    }
}

/// The marker text of a virtual import.
pub open spec fn virtual_import_text() -> Seq<char> {
    seq!['V', 'i', 'r', 't', 'u', 'a', 'l', 'I', 'm', 'p', 'o', 'r', 't']
}

/// Whether a DLL name is one of the API-set DLLs that Windows resolves
/// without a file.
pub open spec fn is_virtual_import(name: Seq<char>, platform: Platform) -> bool {
    platform == Platform::Windows && has_prefix(name, api_set_prefix())
}

/// In the full view the scanned binary is shown by name alone, and a link
/// with the file it points to: in green unless the link itself is a
/// missing library below the root, in red then.
pub proof fn lemma_full_view_roots_and_links(
    name: Seq<char>,
    depth: nat,
    base: Option<Seq<char>>,
    t: Seq<char>,
    platform: Platform,
)
    ensures
        content_all_spec(name, 0, base, None, platform) == name,
        depth == 0 || base is Some ==> content_all_spec(name, depth, base, Some(t), platform)
            == name + seq![' ', '-', '>', ' '] + green_spec(t),
        depth > 0 && base is None ==> content_all_spec(name, depth, base, Some(t), platform)
            == name + seq![' ', '-', '>', ' '] + red_spec(t),
{
}

/// In the missing-only view a line carries no colour unless it shows a
/// missing library below the root: then the name, or the link's target,
/// is red.
pub proof fn lemma_missing_view_lines(
    name: Seq<char>,
    depth: nat,
    base: Option<Seq<char>>,
    t: Seq<char>,
)
    ensures
        depth == 0 || base is Some ==> content_missing_spec(name, depth, base, None) == name,
        depth > 0 && base is None ==> content_missing_spec(name, depth, base, None) == red_spec(
            name,
        ),
        depth == 0 || base is Some ==> content_missing_spec(name, depth, base, Some(t)) == name
            + seq![' ', '-', '>', ' '] + t,
        depth > 0 && base is None ==> content_missing_spec(name, depth, base, Some(t)) == name
            + seq![' ', '-', '>', ' '] + red_spec(t),
{
}

/// In the full view a found library that is not a link is shown with the
/// path it was found at, in green, whatever its name and the platform.
pub proof fn lemma_found_library_shows_its_path(
    name: Seq<char>,
    depth: nat,
    p: Seq<char>,
    platform: Platform,
)
    requires
        depth > 0,
    ensures
        content_all_spec(name, depth, Some(p), None, platform) == name + seq![' ', '[']
            + green_spec(path_join(p, name)) + seq![']'],
{
}

/// In the full view a missing library that is not a link is shown in red,
/// unless it is an API-set DLL on Windows, which is marked as a virtual
/// import instead.
pub proof fn lemma_missing_library_shows_red_or_virtual(
    name: Seq<char>,
    depth: nat,
    platform: Platform,
)
    requires
        depth > 0,
    ensures
        platform == Platform::Linux ==> content_all_spec(name, depth, None, None, platform)
            == red_spec(name),
        platform == Platform::Windows && has_prefix(name, api_set_prefix()) ==> content_all_spec(
            name,
            depth,
            None,
            None,
            platform,
        ) == name + seq![' ', '['] + blue_spec(virtual_import_text()) + seq![']'],
        platform == Platform::Windows && !has_prefix(name, api_set_prefix()) ==> content_all_spec(
            name,
            depth,
            None,
            None,
            platform,
        ) == red_spec(name),
{
}

/// The line shown for a dependency when only missing ones are shown: the
/// name, red when the library is missing, and a link's target, red when the
/// link itself is missing.
pub open spec fn content_missing_spec(
    name: Seq<char>,
    depth: nat,
    base: Option<Seq<char>>,
    target: Option<Seq<char>>,
) -> Seq<char> {
    match target {
        None => if depth == 0 || base is Some {
            name
        } else {
            red_spec(name)
        },
        Some(t) => if depth == 0 || base is Some {
            name + arrow() + t
        } else {
            name + arrow() + red_spec(t)
        },
    }
}

impl DepTree {
    /// The line [`DepTree::content_all`] shows for this node.
    pub open spec fn all_spec(&self, platform: Platform) -> Seq<char> {
        content_all_spec(
            self.name@,
            self.depth as nat,
            opt_view(self.base),
            opt_view(self.target),
            platform,
        )
    }

    /// The line [`DepTree::content_missing`] shows for this node.
    pub open spec fn missing_spec(&self) -> Seq<char> {
        content_missing_spec(
            self.name@,
            self.depth as nat,
            opt_view(self.base),
            opt_view(self.target),
        )
    }

    /// A node for the library `name`.
    pub fn new(name: &str, base: Option<String>, depth: usize, target: Option<String>) -> (r: Self)
        ensures
            r.name@ == name@,
            r.base == base,
            r.depth == depth,
            r.target == target,
    {
        DepTree { name: name.to_owned(), base, depth, target }
    }

    /// Whether looking `extra` levels below this node goes past the depth
    /// limit `limit`, where a limit of zero means no limit.
    pub fn exceeds_limit(&self, limit: usize, extra: usize) -> (r: bool)
        requires
            self.depth + extra <= usize::MAX,
        ensures
            r == (limit > 0 && self.depth + extra > limit),
    {
        limit > 0 && self.depth + extra > limit
    }

    /// The line shown for this node when every dependency is shown, for
    /// binaries of `platform`.
    pub fn content_all(&self, platform: Platform) -> (r: String)
        ensures
            r@ == self.all_spec(platform),
    {
        proof {
            reveal_strlit(" [");
            reveal_strlit("]");
            reveal_strlit(" -> ");
            reveal_strlit("api-ms-win");
            reveal_strlit("VirtualImport");
        }
        assert("api-ms-win"@ =~= api_set_prefix());
        assert("VirtualImport"@ =~= virtual_import_text());
        match (&self.base, &self.target) {
            (_, None) if self.depth == 0 => self.name.clone(),
            (Some(p), None) => {
                let mut out = self.name.clone();
                out.append(" [");
                let joined = join_path(p.as_str(), self.name.as_str());
                out.append(green(joined.as_str()).as_str());
                out.append("]");
                out
            },
            (None, None) => if platform == Platform::Windows && starts_with(
                self.name.as_str(),
                "api-ms-win",
            ) {
                let mut out = self.name.clone();
                out.append(" [");
                out.append(blue("VirtualImport").as_str());
                out.append("]");
                out
            } else {
                red(self.name.as_str())
            },
            (base, Some(t)) => {
                let mut out = self.name.clone();
                out.append(" -> ");
                if self.depth == 0 || base.is_some() {
                    out.append(green(t.as_str()).as_str());
                } else {
                    out.append(red(t.as_str()).as_str());
                }
                out
            },
        }
    }

    /// The line shown for this node when only missing dependencies are
    /// shown.
    pub fn content_missing(&self) -> (r: String)
        ensures
            r@ == self.missing_spec(),
    {
        proof {
            reveal_strlit(" -> ");
        }
        match (&self.base, &self.target) {
            (base, None) => if self.depth == 0 || base.is_some() {
                self.name.clone()
            } else {
                red(self.name.as_str())
            },
            (base, Some(t)) => {
                let mut out = self.name.clone();
                out.append(" -> ");
                if self.depth == 0 || base.is_some() {
                    out.append(t.as_str());
                } else {
                    out.append(red(t.as_str()).as_str());
                }
                out
            },
        }
    }

    /// The line shown for this node under the chosen option, for binaries
    /// of `platform`.
    pub fn content(&self, option: ShowOption, platform: Platform) -> (r: String)
        ensures
            r@ == (match option {
                ShowOption::All => self.all_spec(platform),
                ShowOption::Missing => self.missing_spec(),
            }),
    {
        match option {
            ShowOption::All => self.content_all(platform),
            ShowOption::Missing => self.content_missing(),
        }
    }
}


/// What probing a found library's own imports showed.
#[derive(Debug, Clone, Copy, PartialEq, Eq, Structural)]
pub enum DependencyProbe {
    /// The library's file could not be read.
    Unreadable,
    /// The library's file is not a binary that parses.
    Unparsable,
    /// The library imports `count` libraries; `any_missing` tells whether
    /// one of them cannot be found.
    Imports { count: usize, any_missing: bool },
}

/// Where an import of a node was found, and what probing it showed.
#[derive(Debug, Clone)]
pub struct ImportResolution {
    /// The imported library.
    pub name: String,
    /// The directory it was found in; none when it was not found.
    pub base: Option<String>,
    /// The file it links to, when it is a symbolic link.
    pub target: Option<String>,
    /// What probing its own imports showed; only read for found imports
    /// within the depth limit.
    pub probe: DependencyProbe,
}

/// The child node an import becomes.
pub open spec fn child_spec(parent_depth: nat, name: Seq<char>, base: Option<Seq<char>>, target: Option<Seq<char>>) -> (Seq<char>, nat, Option<Seq<char>>, Option<Seq<char>>) {
    (name, parent_depth + 1, base, target)
}

/// Every import becomes a child one level below its parent, under the
/// import's name, found where the resolution found it and linking where
/// the resolution says.
pub proof fn lemma_child_one_level_down(
    parent_depth: nat,
    name: Seq<char>,
    base: Option<Seq<char>>,
    target: Option<Seq<char>>,
)
    ensures
        child_spec(parent_depth, name, base, target).0 == name,
        child_spec(parent_depth, name, base, target).1 == parent_depth + 1,
        child_spec(parent_depth, name, base, target).2 == base,
        child_spec(parent_depth, name, base, target).3 == target,
{
}

/// The view of a node.
pub open spec fn node_view(t: DepTree) -> (Seq<char>, nat, Option<Seq<char>>, Option<Seq<char>>) {
    (t.name@, t.depth as nat, opt_view(t.base), opt_view(t.target))
}

/// Whether an import is shown when only missing dependencies are shown,
/// and as which node: never a virtual import (Windows API-set DLLs, which
/// need no file); otherwise a missing import always; a found one (within two
/// levels of the limit) when its file cannot be read, shown as missing, or
/// when one of its own imports is missing.
pub open spec fn missing_leaf(
    parent_depth: nat,
    limit: nat,
    platform: Platform,
    r: ImportResolution,
) -> Option<(Seq<char>, nat, Option<Seq<char>>, Option<Seq<char>>)> {
    let target = opt_view(r.target);
    if is_virtual_import(r.name@, platform) {
        None
    } else {
        match r.base {
            None => Some(child_spec(parent_depth, r.name@, None, target)),
            Some(b) => if limit > 0 && parent_depth + 2 > limit {
                None
            } else {
                match r.probe {
                    DependencyProbe::Unreadable => Some(child_spec(parent_depth, r.name@, None, target)),
                    DependencyProbe::Unparsable => None,
                    DependencyProbe::Imports { count, any_missing } => if count > 0 && any_missing {
                        Some(child_spec(parent_depth, r.name@, Some(b@), target))
                    } else {
                        None
                    },
                }
            },
        }
    }
}

/// The shown leaves, in import order, of a filter over resolutions.
pub open spec fn missing_leaves(
    parent_depth: nat,
    limit: nat,
    platform: Platform,
    rs: Seq<ImportResolution>,
) -> Seq<(Seq<char>, nat, Option<Seq<char>>, Option<Seq<char>>)>
    decreases rs.len(),
{
    if rs.len() == 0 {
        Seq::empty()
    } else {
        let prefix = missing_leaves(parent_depth, limit, platform, rs.drop_last());
        match missing_leaf(parent_depth, limit, platform, rs.last()) {
            Some(n) => prefix.push(n),
            None => prefix,
        }
    }
}

/// What the missing-only view makes of each import, in import order: a
/// virtual import (Windows API-set DLL) is never shown; an import that was
/// not found is always shown as missing; a found import is left out when
/// the depth limit leaves no room to probe it, shown as missing when its
/// file cannot be read, and shown where it was found when one of its own
/// imports is missing; otherwise it is left out.
pub proof fn lemma_missing_view_per_import(
    parent_depth: nat,
    limit: nat,
    platform: Platform,
    rs: Seq<ImportResolution>,
    r: ImportResolution,
)
    ensures
        ({
            let before = missing_leaves(parent_depth, limit, platform, rs);
            let after = missing_leaves(parent_depth, limit, platform, rs.push(r));
            let missing_node = (r.name@, parent_depth + 1, None::<Seq<char>>, opt_view(r.target));
            let room = limit == 0 || parent_depth + 2 <= limit;
            &&& is_virtual_import(r.name@, platform) ==> after == before
            &&& !is_virtual_import(r.name@, platform) && r.base is None ==> after == before.push(
                missing_node,
            )
            &&& !is_virtual_import(r.name@, platform) && r.base is Some && !room ==> after == before
            &&& !is_virtual_import(r.name@, platform) && r.base is Some && room
                && r.probe == DependencyProbe::Unreadable ==> after == before.push(missing_node)
            &&& !is_virtual_import(r.name@, platform) && r.base is Some && room
                && r.probe == DependencyProbe::Unparsable ==> after == before
            &&& r.base is Some && (r.probe matches DependencyProbe::Imports { count, any_missing }
                && (count == 0 || !any_missing)) ==> after == before
        }),
{
    assert(rs.push(r).drop_last() =~= rs);
}

/// A found import whose own imports include a missing one is shown by the
/// missing-only view exactly when the depth limit leaves room to probe it:
/// there is no limit, or the parent lies at least two levels above it. It
/// is then shown one level below the parent, where it was found, after the
/// leaves of the imports before it.
pub proof fn lemma_found_import_missing_a_dependency(
    parent_depth: nat,
    limit: nat,
    platform: Platform,
    rs: Seq<ImportResolution>,
    r: ImportResolution,
    count: usize,
)
    requires
        r.base is Some,
        r.probe == (DependencyProbe::Imports { count, any_missing: true }),
        count > 0,
        !is_virtual_import(r.name@, platform),
    ensures
        missing_leaves(parent_depth, limit, platform, rs.push(r)) == (if limit == 0
            || parent_depth + 2 <= limit {
            missing_leaves(parent_depth, limit, platform, rs).push(
                (r.name@, parent_depth + 1, Some(r.base->Some_0@), opt_view(r.target)),
            )
        } else {
            missing_leaves(parent_depth, limit, platform, rs)
        }),
{
    assert(rs.push(r).drop_last() =~= rs);
}

/// The missing-only view shows only imports, one level deeper, and always
/// shows every import that could not be found, virtual imports aside.
pub proof fn lemma_missing_view_shows_missing_imports(
    parent_depth: nat,
    limit: nat,
    platform: Platform,
    rs: Seq<ImportResolution>,
)
    ensures
        forall|k: int|
            0 <= k < missing_leaves(parent_depth, limit, platform, rs).len() ==> exists|i: int|
                0 <= i < rs.len() && (#[trigger] missing_leaves(parent_depth, limit, platform, rs)[k]).0
                    == rs[i].name@ && missing_leaves(parent_depth, limit, platform, rs)[k].1 == parent_depth
                    + 1,
        forall|i: int|
            0 <= i < rs.len() && (#[trigger] rs[i]).base is None && !is_virtual_import(
                rs[i].name@,
                platform,
            ) ==> exists|k: int|
                0 <= k < missing_leaves(parent_depth, limit, platform, rs).len() && missing_leaves(
                    parent_depth,
                    limit,
                    platform,
                    rs,
                )[k] == child_spec(parent_depth, rs[i].name@, None, opt_view(rs[i].target)),
    decreases rs.len(),
{
    if rs.len() > 0 {
        let init = rs.drop_last();
        lemma_missing_view_shows_missing_imports(parent_depth, limit, platform, init);
        let prev = missing_leaves(parent_depth, limit, platform, init);
        let cur = missing_leaves(parent_depth, limit, platform, rs);
        let last = rs.len() - 1;
        assert forall|k: int| 0 <= k < cur.len() implies exists|i: int|
            0 <= i < rs.len() && (#[trigger] cur[k]).0 == rs[i].name@ && cur[k].1 == parent_depth
                + 1 by {
            if k < prev.len() {
                assert(cur[k] == prev[k]);
                let i = choose|i: int|
                    0 <= i < init.len() && (#[trigger] prev[k]).0 == init[i].name@ && prev[k].1
                        == parent_depth + 1;
                assert(rs[i] == init[i]);
            } else {
                assert(rs[last] == rs.last());
            }
        }
        assert forall|i: int|
            0 <= i < rs.len() && (#[trigger] rs[i]).base is None && !is_virtual_import(
                rs[i].name@,
                platform,
            ) implies exists|
            k: int,
        |
            0 <= k < cur.len() && cur[k] == child_spec(
                parent_depth,
                rs[i].name@,
                None,
                opt_view(rs[i].target),
            ) by {
            if i < last {
                assert(init[i] == rs[i]);
                let k = choose|k: int|
                    0 <= k < prev.len() && prev[k] == child_spec(
                        parent_depth,
                        init[i].name@,
                        None,
                        opt_view(init[i].target),
                    );
                assert(cur[k] == prev[k]);
            } else {
                assert(cur[prev.len() as int] == child_spec(
                    parent_depth,
                    rs[i].name@,
                    None,
                    opt_view(rs[i].target),
                ));
            }
        }
    }
}

impl DepTree {
    /// Whether the children of this node are listed at all: the node must
    /// have been found and lie above the depth limit.
    pub open spec fn lists_children(&self, limit: nat) -> bool {
        &&& self.base is Some
        &&& !(limit > 0 && self.depth + 1 > limit)
    }

    /// The child node for an import of this node.
    fn child(&self, name: &String, base: Option<String>, target: Option<String>) -> (r: DepTree)
        requires
            self.depth < usize::MAX,
        ensures
            node_view(r) == child_spec(self.depth as nat, name@, opt_view(base), opt_view(target)),
    {
        DepTree { name: name.clone(), base, depth: self.depth + 1, target }
    }

    /// The children of this node when every dependency is shown: one node
    /// per import, one level deeper, found where the resolution says. None
    /// when this node was not found or lies at the depth limit.
    pub fn leaves_all_from(&self, limit: usize, resolutions: &Vec<ImportResolution>) -> (r: Vec<
        DepTree,
    >)
        requires
            self.depth + 2 <= usize::MAX,
        ensures
            !self.lists_children(limit as nat) ==> r@.len() == 0,
            self.lists_children(limit as nat) ==> r@.len() == resolutions@.len() && forall|i: int|
                0 <= i < r@.len() ==> node_view(#[trigger] r@[i]) == child_spec(
                    self.depth as nat,
                    resolutions@[i].name@,
                    opt_view(resolutions@[i].base),
                    opt_view(resolutions@[i].target),
                ),
    {
        let mut out: Vec<DepTree> = Vec::new();
        if self.exceeds_limit(limit, 1) || self.base.is_none() {
            return out;
        }
        let mut i: usize = 0;
        while i < resolutions.len()
            invariant
                self.depth + 2 <= usize::MAX,
                i <= resolutions@.len(),
                out@.len() == i,
                forall|k: int|
                    0 <= k < i ==> node_view(#[trigger] out@[k]) == child_spec(
                        self.depth as nat,
                        resolutions@[k].name@,
                        opt_view(resolutions@[k].base),
                        opt_view(resolutions@[k].target),
                    ),
            decreases resolutions.len() - i,
        {
            let r = &resolutions[i];
            out.push(self.child(&r.name, r.base.clone(), r.target.clone()));
            i = i + 1;
        }
        out
    }

    /// The children of this node when only missing dependencies are shown,
    /// for binaries of `platform`, in import order (see [`missing_leaf`]).
    /// None when this node was not found or lies at the depth limit.
    pub fn leaves_missing_from(
        &self,
        limit: usize,
        platform: Platform,
        resolutions: &Vec<ImportResolution>,
    ) -> (r: Vec<DepTree>)
        requires
            self.depth + 2 <= usize::MAX,
        ensures
            !self.lists_children(limit as nat) ==> r@.len() == 0,
            self.lists_children(limit as nat) ==> r@.map_values(|t: DepTree| node_view(t))
                == missing_leaves(self.depth as nat, limit as nat, platform, resolutions@),
    {
        let mut out: Vec<DepTree> = Vec::new();
        if self.exceeds_limit(limit, 1) || self.base.is_none() {
            return out;
        }
        let mut i: usize = 0;
        while i < resolutions.len()
            invariant
                self.depth + 2 <= usize::MAX,
                i <= resolutions@.len(),
                out@.map_values(|t: DepTree| node_view(t)) == missing_leaves(
                    self.depth as nat,
                    limit as nat,
                    platform,
                    resolutions@.subrange(0, i as int),
                ),
            decreases resolutions.len() - i,
        {
            let r = &resolutions[i];
            let ghost before = out@.map_values(|t: DepTree| node_view(t));
            proof {
                reveal_strlit("api-ms-win");
            }
            assert("api-ms-win"@ =~= api_set_prefix());
            let virtual_import = platform == Platform::Windows && starts_with(
                r.name.as_str(),
                "api-ms-win",
            );
            let leaf: Option<DepTree> = if virtual_import {
                None
            } else {
                match &r.base {
                    None => Some(self.child(&r.name, None, r.target.clone())),
                    Some(b) => if self.exceeds_limit(limit, 2) {
                        None
                    } else {
                        match r.probe {
                            DependencyProbe::Unreadable => Some(self.child(&r.name, None, r.target.clone())),
                            DependencyProbe::Unparsable => None,
                            DependencyProbe::Imports { count, any_missing } => if count > 0 && any_missing {
                                Some(self.child(&r.name, Some(b.clone()), r.target.clone()))
                            } else {
                                None
                            },
                        }
                    },
                }
            };
            proof {
                let rs = resolutions@.subrange(0, i + 1);
                assert(rs.drop_last() =~= resolutions@.subrange(0, i as int));
                assert(rs.last() == resolutions@[i as int]);
            }
            match leaf {
                Some(t) => {
                    out.push(t);
                    proof {
                        assert(out@.map_values(|t: DepTree| node_view(t)) =~= before.push(node_view(t)));
                    }
                },
                None => {},
            }
            i = i + 1;
        }
        assert(resolutions@.subrange(0, resolutions@.len() as int) =~= resolutions@);
        out
    }
}

} // verus!
