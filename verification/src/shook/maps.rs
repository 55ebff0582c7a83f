use vstd::prelude::*;

use crate::shook::config::RawRunnerConfigInner;

verus! {

/// A map whose contents can be emptied and merged.
pub trait EntryMap: Sized {
    type Key;

    type Value;

    /// The entries of the map.
    spec fn contents(&self) -> Map<Self::Key, Self::Value>;

    /// The empty map.
    fn empty() -> (r: Self)
        ensures
            r.contents() == Map::<Self::Key, Self::Value>::empty(),
    ;

    /// Adds every entry of `other`, replacing the values of keys both
    /// maps have.
    fn merge_from(&mut self, other: &Self)
        ensures
            final(self).contents() == old(self).contents().union_prefer_right(other.contents()),
    ;
}

/// How a runner's own map combines with the map set for all runners.
#[derive(Debug, Clone, Copy, PartialEq, Eq, Structural)]
pub enum ResolveStrategy {
    /// The runner's map only.
    Replace,
    /// Both maps; the runner's entries win.
    Merge,
    /// The map set for all runners only.
    Ignore,
}

impl ResolveStrategy {
    /// The strategy used when none is given.
    pub fn default_strategy() -> (r: Self)
        ensures
            r == ResolveStrategy::Merge,
    {
        ResolveStrategy::Merge
    }
}

/// The contents of an optional map, empty when absent.
pub open spec fn contents_or_empty<M: EntryMap>(m: Option<M>) -> Map<M::Key, M::Value> {
    match m {
        Some(m) => m.contents(),
        None => Map::empty(),
    }
}

/// The map a runner ends up with.
pub open spec fn resolved_contents<M: EntryMap>(
    global: Option<M>,
    local: Option<M>,
    strategy: ResolveStrategy,
) -> Map<M::Key, M::Value> {
    match strategy {
        ResolveStrategy::Replace => contents_or_empty(local),
        ResolveStrategy::Merge => contents_or_empty(global).union_prefer_right(
            contents_or_empty(local),
        ),
        ResolveStrategy::Ignore => contents_or_empty(global),
    }
}

/// Combines the map set for all runners with a runner's own map.
pub fn resolve_map<M: EntryMap>(global: Option<M>, local: Option<M>, strategy: ResolveStrategy) -> (r: M)
    ensures
        r.contents() == resolved_contents(global, local, strategy),
{
    match strategy {
        ResolveStrategy::Replace => match local {
            Some(m) => m,
            None => M::empty(),
        },
        ResolveStrategy::Merge => {
            let mut base = match global {
                Some(m) => m,
                None => M::empty(),
            };
            match local {
                Some(l) => {
                    base.merge_from(&l);
                },
                None => {
                    assert(base.contents().union_prefer_right(Map::empty()) =~= base.contents());
                },
            }
            base
        },
        ResolveStrategy::Ignore => match global {
            Some(m) => m,
            None => M::empty(),
        },
    }
}

/// Under the Ignore strategy a runner gets the map set for all runners,
/// empty when there is none: its own map plays no part.
pub proof fn lemma_ignore_keeps_shared_map<M: EntryMap>(
    global: Option<M>,
    local: Option<M>,
    other_local: Option<M>,
)
    ensures
        resolved_contents(global, local, ResolveStrategy::Ignore) == (match global {
            Some(g) => g.contents(),
            None => Map::<M::Key, M::Value>::empty(),
        }),
        resolved_contents(global, local, ResolveStrategy::Ignore) == resolved_contents(
            global,
            other_local,
            ResolveStrategy::Ignore,
        ),
{
}

/// Under the Replace strategy a runner keeps only its own map, empty when it
/// has none: the map set for all runners plays no part.
pub proof fn lemma_replace_ignores_shared_map<M: EntryMap>(
    global: Option<M>,
    other_global: Option<M>,
    local: Option<M>,
)
    ensures
        resolved_contents(global, local, ResolveStrategy::Replace) == (match local {
            Some(l) => l.contents(),
            None => Map::<M::Key, M::Value>::empty(),
        }),
        resolved_contents(global, local, ResolveStrategy::Replace) == resolved_contents(
            other_global,
            local,
            ResolveStrategy::Replace,
        ),
{
}

/// The map set for all runners is merged into every runner's map in the
/// default strategy; the runner's own values win.
pub proof fn lemma_merge_prefers_runner<M: EntryMap>(global: M, local: M, k: M::Key)
    ensures
        local.contents().contains_key(k) ==> resolved_contents(
            Some(global),
            Some(local),
            ResolveStrategy::Merge,
        )[k] == local.contents()[k],
        !local.contents().contains_key(k) && global.contents().contains_key(k) ==> resolved_contents(
            Some(global),
            Some(local),
            ResolveStrategy::Merge,
        )[k] == global.contents()[k],
        resolved_contents(Some(global), Some(local), ResolveStrategy::Merge).dom() == global.contents().dom().union(
            local.contents().dom(),
        ),
{
    assert(resolved_contents(Some(global), Some(local), ResolveStrategy::Merge).dom() =~= global.contents().dom().union(
        local.contents().dom(),
    ));
}

/// The entries a map lists: each is in the map, every key of the map is
/// listed, and no key is listed twice.
pub open spec fn lists_entries<K, V>(m: Map<K, V>, entries: Seq<(K, V)>) -> bool {
    &&& forall|i: int|
        0 <= i < entries.len() ==> m.contains_key(#[trigger] entries[i].0) && m[entries[i].0]
            == entries[i].1
    &&& forall|k: K| m.contains_key(k) ==> exists|i: int| 0 <= i < entries.len() && #[trigger] entries[i].0 == k
    &&& forall|i: int, j: int|
        0 <= i < j < entries.len() ==> #[trigger] entries[i].0 != #[trigger] entries[j].0
}

/// Port forwards of a sandbox: host port to guest port.
#[verifier::external_body]
pub struct PortMap {
    inner: hashbrown::HashMap<u16, u16>,
}

/// The forwards a port map holds.
pub uninterp spec fn port_entries(m: PortMap) -> Map<u16, u16>;

impl View for PortMap {
    type V = Map<u16, u16>;

    open spec fn view(&self) -> Map<u16, u16> {
        port_entries(*self)
    }
}

/// The map without any forward.
pub open spec fn no_forwards() -> Map<u16, u16> {
    Map::empty()
}

/// An empty `hashbrown::HashMap`. Claims: it holds no entry.
#[verifier::external_body]
fn port_map_new() -> (r: PortMap)
    ensures
        port_entries(r) == no_forwards(),
{
    PortMap { inner: hashbrown::HashMap::new() }
}

/// `hashbrown::HashMap::insert`. Claims: the entry is added, replacing the
/// value of an equal key.
#[verifier::external_body]
fn port_map_insert(m: &mut PortMap, k: u16, v: u16)
    ensures
        final(m)@ == old(m)@.insert(k, v),
{
    m.inner.insert(k, v);
}

/// The entries of a `hashbrown::HashMap`, copied out of `HashMap::iter` in
/// the order it yields them. Claims: each entry once; the order is left
/// open.
#[verifier::external_body]
fn port_map_entries(m: &PortMap) -> (r: Vec<(u16, u16)>)
    ensures
        lists_entries(m@, r@),
{
    m.inner.iter().map(|(k, v)| (*k, *v)).collect()
}

impl PortMap {
    /// The forwards, each once, in no particular order.
    pub fn entries(&self) -> (r: Vec<(u16, u16)>)
        ensures
            lists_entries(port_entries(*self), r@),
    {
        port_map_entries(self)
    }

    /// Adds a forward, replacing the guest port of an equal host port.
    pub fn insert(&mut self, host: u16, guest: u16)
        ensures
            port_entries(*final(self)) == port_entries(*old(self)).insert(host, guest),
    {
        port_map_insert(self, host, guest)
    }
}

impl EntryMap for PortMap {
    type Key = u16;

    type Value = u16;

    open spec fn contents(&self) -> Map<u16, u16> {
        port_entries(*self)
    }

    fn empty() -> (r: Self) {
        port_map_new()
    }

    fn merge_from(&mut self, other: &Self) {
        let entries = port_map_entries(other);
        let ghost start = port_entries(*self);
        let ghost src = port_entries(*other);
        let mut i: usize = 0;
        while i < entries.len()
            invariant
                i <= entries@.len(),
                lists_entries(src, entries@),
                port_entries(*self) == start.union_prefer_right(
                    src.restrict(Set::new(|k: u16| exists|j: int| 0 <= j < i && entries@[j].0 == k)),
                ),
            decreases entries.len() - i,
        {
            let (k, v) = entries[i];
            port_map_insert(self, k, v);
            proof {
                let before = Set::new(|k2: u16| exists|j: int| 0 <= j < i && entries@[j].0 == k2);
                let after = Set::new(|k2: u16| exists|j: int| 0 <= j < i + 1 && entries@[j].0 == k2);
                assert(after =~= before.insert(k)) by {
                    assert forall|k2: u16| after.contains(k2) implies before.insert(k).contains(k2) by {
                        let j = choose|j: int| 0 <= j < i + 1 && entries@[j].0 == k2;
                        if j < i {
                            assert(before.contains(k2));
                        }
                    }
                    assert(after.contains(k)) by {
                        assert(entries@[i as int].0 == k);
                    }
                }
                assert(port_entries(*self) =~= start.union_prefer_right(src.restrict(after)));
            }
            i = i + 1;
        }
        proof {
            let all = Set::new(|k2: u16| exists|j: int| 0 <= j < entries@.len() && entries@[j].0 == k2);
            assert(src.restrict(all) =~= src);
        }
    }
}


/// The texts of pairs of strings.
pub open spec fn text_pairs(v: Seq<(String, String)>) -> Seq<(Seq<char>, Seq<char>)> {
    v.map_values(|p: (String, String)| (p.0@, p.1@))
}

/// The texts of secret entries.
pub open spec fn secret_pairs(v: Seq<(String, (String, String))>) -> Seq<
    (Seq<char>, (Seq<char>, Seq<char>)),
> {
    v.map_values(|p: (String, (String, String))| (p.0@, (p.1.0@, p.1.1@)))
}

/// Named text values: environment variables, or volume mounts from host
/// path to guest path (in slash form).
#[verifier::external_body]
pub struct TextMap {
    inner: hashbrown::HashMap<String, String>,
}

/// The entries a text map holds.
pub uninterp spec fn text_entries(m: TextMap) -> Map<Seq<char>, Seq<char>>;

impl View for TextMap {
    type V = Map<Seq<char>, Seq<char>>;

    open spec fn view(&self) -> Map<Seq<char>, Seq<char>> {
        text_entries(*self)
    }
}

/// The text map without any entry.
pub open spec fn no_texts() -> Map<Seq<char>, Seq<char>> {
    Map::empty()
}

/// An empty `hashbrown::HashMap`. Claims: it holds no entry.
#[verifier::external_body]
fn text_map_new() -> (r: TextMap)
    ensures
        text_entries(r) == no_texts(),
{
    TextMap { inner: hashbrown::HashMap::new() }
}

/// `hashbrown::HashMap::insert`. Claims: the entry is added, replacing the
/// value of an equal key (strings are equal when their texts are).
#[verifier::external_body]
fn text_map_insert(m: &mut TextMap, k: String, v: String)
    ensures
        final(m)@ == old(m)@.insert(k@, v@),
{
    m.inner.insert(k, v);
}

/// The entries of a `hashbrown::HashMap`, cloned out of `HashMap::iter` in
/// the order it yields them. Claims: each entry once; the order is left
/// open.
#[verifier::external_body]
fn text_map_entries(m: &TextMap) -> (r: Vec<(String, String)>)
    ensures
        lists_entries(m@, text_pairs(r@)),
{
    m.inner.iter().map(|(k, v)| (k.clone(), v.clone())).collect()
}

impl TextMap {
    /// The entries, each once, in no particular order.
    pub fn entries(&self) -> (r: Vec<(String, String)>)
        ensures
            lists_entries(self@, text_pairs(r@)),
    {
        text_map_entries(self)
    }

    /// Adds an entry, replacing the value of an equal key.
    pub fn insert(&mut self, key: String, value: String)
        ensures
            final(self)@ == old(self)@.insert(key@, value@),
    {
        text_map_insert(self, key, value)
    }
}

impl EntryMap for TextMap {
    type Key = Seq<char>;

    type Value = Seq<char>;

    open spec fn contents(&self) -> Map<Seq<char>, Seq<char>> {
        self@
    }

    fn empty() -> (r: Self) {
        text_map_new()
    }

    fn merge_from(&mut self, other: &Self) {
        let entries = text_map_entries(other);
        let ghost start = self@;
        let ghost src = other@;
        let ghost es = text_pairs(entries@);
        let mut i: usize = 0;
        while i < entries.len()
            invariant
                i <= entries@.len(),
                es == text_pairs(entries@),
                lists_entries(src, es),
                self@ == start.union_prefer_right(
                    src.restrict(Set::new(|k: Seq<char>| exists|j: int| 0 <= j < i && es[j].0 == k)),
                ),
            decreases entries.len() - i,
        {
            let k = entries[i].0.clone();
            let v = entries[i].1.clone();
            text_map_insert(self, k, v);
            proof {
                let before = Set::new(|k2: Seq<char>| exists|j: int| 0 <= j < i && es[j].0 == k2);
                let after = Set::new(|k2: Seq<char>| exists|j: int| 0 <= j < i + 1 && es[j].0 == k2);
                assert(es[i as int].0 == k@);
                assert(after =~= before.insert(k@)) by {
                    assert forall|k2: Seq<char>| after.contains(k2) implies before.insert(k@).contains(k2) by {
                        let j = choose|j: int| 0 <= j < i + 1 && es[j].0 == k2;
                        if j < i {
                            assert(before.contains(k2));
                        }
                    }
                }
                assert(self@ =~= start.union_prefer_right(src.restrict(after)));
            }
            i = i + 1;
        }
        proof {
            let all = Set::new(|k2: Seq<char>| exists|j: int| 0 <= j < es.len() && es[j].0 == k2);
            assert(src.restrict(all) =~= src);
        }
    }
}

/// Secrets of a sandbox: a name bound to a value and the host the value
/// may be sent to.
#[verifier::external_body]
pub struct SecretMap {
    inner: hashbrown::HashMap<String, (String, String)>,
}

/// The entries a secret map holds.
pub uninterp spec fn secret_entries(m: SecretMap) -> Map<Seq<char>, (Seq<char>, Seq<char>)>;

impl View for SecretMap {
    type V = Map<Seq<char>, (Seq<char>, Seq<char>)>;

    open spec fn view(&self) -> Map<Seq<char>, (Seq<char>, Seq<char>)> {
        secret_entries(*self)
    }
}

/// The secret map without any entry.
pub open spec fn no_secrets() -> Map<Seq<char>, (Seq<char>, Seq<char>)> {
    Map::empty()
}

/// An empty `hashbrown::HashMap`. Claims: it holds no entry.
#[verifier::external_body]
fn secret_map_new() -> (r: SecretMap)
    ensures
        secret_entries(r) == no_secrets(),
{
    SecretMap { inner: hashbrown::HashMap::new() }
}

/// `hashbrown::HashMap::insert`. Claims: the entry is added, replacing the
/// value of an equal key.
#[verifier::external_body]
fn secret_map_insert(m: &mut SecretMap, k: String, v: (String, String))
    ensures
        final(m)@ == old(m)@.insert(k@, (v.0@, v.1@)),
{
    m.inner.insert(k, v);
}

/// The entries of a `hashbrown::HashMap`, cloned out of `HashMap::iter` in
/// the order it yields them. Claims: each entry once; the order is left
/// open.
#[verifier::external_body]
fn secret_map_entries(m: &SecretMap) -> (r: Vec<(String, (String, String))>)
    ensures
        lists_entries(m@, secret_pairs(r@)),
{
    m.inner.iter().map(|(k, v)| (k.clone(), v.clone())).collect()
}

impl SecretMap {
    /// The entries, each once, in no particular order.
    pub fn entries(&self) -> (r: Vec<(String, (String, String))>)
        ensures
            lists_entries(self@, secret_pairs(r@)),
    {
        secret_map_entries(self)
    }

    /// Adds a secret, replacing the value of an equal name.
    pub fn insert(&mut self, name: String, value: String, host: String)
        ensures
            final(self)@ == old(self)@.insert(name@, (value@, host@)),
    {
        secret_map_insert(self, name, (value, host))
    }
}

impl EntryMap for SecretMap {
    type Key = Seq<char>;

    type Value = (Seq<char>, Seq<char>);

    open spec fn contents(&self) -> Map<Seq<char>, (Seq<char>, Seq<char>)> {
        self@
    }

    fn empty() -> (r: Self) {
        secret_map_new()
    }

    fn merge_from(&mut self, other: &Self) {
        let entries = secret_map_entries(other);
        let ghost start = self@;
        let ghost src = other@;
        let ghost es = secret_pairs(entries@);
        let mut i: usize = 0;
        while i < entries.len()
            invariant
                i <= entries@.len(),
                es == secret_pairs(entries@),
                lists_entries(src, es),
                self@ == start.union_prefer_right(
                    src.restrict(Set::new(|k: Seq<char>| exists|j: int| 0 <= j < i && es[j].0 == k)),
                ),
            decreases entries.len() - i,
        {
            let k = entries[i].0.clone();
            let v0 = entries[i].1.0.clone();
            let v1 = entries[i].1.1.clone();
            secret_map_insert(self, k, (v0, v1));
            proof {
                let before = Set::new(|k2: Seq<char>| exists|j: int| 0 <= j < i && es[j].0 == k2);
                let after = Set::new(|k2: Seq<char>| exists|j: int| 0 <= j < i + 1 && es[j].0 == k2);
                assert(es[i as int].0 == k@);
                assert(after =~= before.insert(k@)) by {
                    assert forall|k2: Seq<char>| after.contains(k2) implies before.insert(k@).contains(k2) by {
                        let j = choose|j: int| 0 <= j < i + 1 && es[j].0 == k2;
                        if j < i {
                            assert(before.contains(k2));
                        }
                    }
                }
                assert(self@ =~= start.union_prefer_right(src.restrict(after)));
            }
            i = i + 1;
        }
        proof {
            let all = Set::new(|k2: Seq<char>| exists|j: int| 0 <= j < es.len() && es[j].0 == k2);
            assert(src.restrict(all) =~= src);
        }
    }
}

/// The runners as written, by name.
#[verifier::external_body]
pub struct RunnerMap {
    inner: hashbrown::HashMap<String, RawRunnerConfigInner>,
}

/// The runners a runner map holds, by name.
pub uninterp spec fn runner_entries(m: RunnerMap) -> Map<Seq<char>, RawRunnerConfigInner>;

impl View for RunnerMap {
    type V = Map<Seq<char>, RawRunnerConfigInner>;

    open spec fn view(&self) -> Map<Seq<char>, RawRunnerConfigInner> {
        runner_entries(*self)
    }
}

/// The view of named runners taken out of a map.
pub open spec fn runner_pairs(v: Seq<(String, RawRunnerConfigInner)>) -> Seq<
    (Seq<char>, RawRunnerConfigInner),
> {
    v.map_values(|p: (String, RawRunnerConfigInner)| (p.0@, p.1))
}

/// The view of named runners borrowed from a map.
pub open spec fn runner_refs(v: Seq<(&String, &RawRunnerConfigInner)>) -> Seq<
    (Seq<char>, RawRunnerConfigInner),
> {
    v.map_values(|p: (&String, &RawRunnerConfigInner)| (p.0@, *p.1))
}

/// The runner map without any runner.
pub open spec fn no_runners() -> Map<Seq<char>, RawRunnerConfigInner> {
    Map::empty()
}

/// An empty `hashbrown::HashMap`. Claims: it holds no entry.
#[verifier::external_body]
fn runner_map_new() -> (r: RunnerMap)
    ensures
        runner_entries(r) == no_runners(),
{
    RunnerMap { inner: hashbrown::HashMap::new() }
}

/// `hashbrown::HashMap::insert`. Claims: the entry is added, replacing the
/// value of an equal key.
#[verifier::external_body]
fn runner_map_insert(m: &mut RunnerMap, k: String, v: RawRunnerConfigInner)
    ensures
        final(m)@ == old(m)@.insert(k@, v),
{
    m.inner.insert(k, v);
}

/// The entries of a `hashbrown::HashMap`, borrowed through `HashMap::iter`
/// in the order it yields them. Claims: each entry once; the order is left
/// open.
#[verifier::external_body]
fn runner_map_iter<'a>(m: &'a RunnerMap) -> (r: Vec<(&'a String, &'a RawRunnerConfigInner)>)
    ensures
        lists_entries(m@, runner_refs(r@)),
{
    m.inner.iter().collect()
}

/// The entries of a `hashbrown::HashMap`, moved out through
/// `HashMap::into_iter` in the order it yields them. Claims: each entry
/// once; the order is left open.
#[verifier::external_body]
fn runner_map_into_entries(m: RunnerMap) -> (r: Vec<(String, RawRunnerConfigInner)>)
    ensures
        lists_entries(m@, runner_pairs(r@)),
{
    m.inner.into_iter().collect()
}

impl RunnerMap {
    /// A map without any runner.
    pub fn new() -> (r: Self)
        ensures
            r@ == no_runners(),
    {
        runner_map_new()
    }

    /// Adds the runner `name`, replacing a runner of the same name.
    pub fn insert(&mut self, name: String, runner: RawRunnerConfigInner)
        ensures
            final(self)@ == old(self)@.insert(name@, runner),
    {
        runner_map_insert(self, name, runner)
    }

    /// The runners, each once, in no particular order.
    pub fn iter(&self) -> (r: Vec<(&String, &RawRunnerConfigInner)>)
        ensures
            lists_entries(self@, runner_refs(r@)),
    {
        runner_map_iter(self)
    }

    /// The runners, each once, in no particular order, moved out.
    pub fn into_entries(self) -> (r: Vec<(String, RawRunnerConfigInner)>)
        ensures
            lists_entries(self@, runner_pairs(r@)),
    {
        runner_map_into_entries(self)
    }
}

} // verus!
