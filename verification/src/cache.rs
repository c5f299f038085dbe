//! What was resolved once is kept for the session: the identifiers of the
//! ports of the graph, and the number of the card.
//!
//! A cache is a value that its user owns. Where several threads share
//! one, they put it behind a lock and hold the lock for one call of a
//! function of this file at a time.

use crate::command::{launch_views, text_step, Launch, LaunchView, Step, StepView};
use crate::name_map::NameMap;
use crate::pipewire::general::{get_pipewire_info, graph_dump, node_id_by_port_name, node_id_from};
use vstd::prelude::*;

verus! {

/// The identifiers that port names were resolved to. An entry stays until
/// the cache is cleared.
pub struct IdentifierCache {
    entries: NameMap<String>,
}

impl View for IdentifierCache {
    type V = Map<Seq<char>, Seq<char>>;

    closed spec fn view(&self) -> Map<Seq<char>, Seq<char>> {
        self.entries@.map_values(|id: String| id@)
    }
}

/// What `IdentifierCache::resolve` answers for a name that the cache does
/// not hold: what the resolution of the node of the port answers.
pub open spec fn uncached_step(name: Seq<char>, outcomes: Seq<LaunchView>) -> StepView<Seq<char>> {
    if outcomes.len() == 0 {
        StepView::Run(graph_dump())
    } else {
        StepView::Done(node_id_by_port_name(name, outcomes[0]))
    }
}

/// What `IdentifierCache::resolve` answers: the identifier that the cache
/// holds for the name, without a command; else as `uncached_step`.
pub open spec fn cached_step(
    cache: Map<Seq<char>, Seq<char>>,
    name: Seq<char>,
    outcomes: Seq<LaunchView>,
) -> StepView<Seq<char>> {
    if cache.contains_key(name) {
        StepView::Done(Ok(cache[name]))
    } else {
        uncached_step(name, outcomes)
    }
}

/// What the cache holds after `IdentifierCache::resolve`: one entry more
/// where a name that it did not hold was resolved, else what it held.
pub open spec fn cache_after(
    cache: Map<Seq<char>, Seq<char>>,
    name: Seq<char>,
    outcomes: Seq<LaunchView>,
) -> Map<Seq<char>, Seq<char>> {
    if cache.contains_key(name) {
        cache
    } else {
        match uncached_step(name, outcomes) {
            StepView::Done(Ok(id)) => cache.insert(name, id),
            _ => cache,
        }
    }
}

impl IdentifierCache {
    /// The cache that holds nothing.
    pub fn new() -> (cache: IdentifierCache)
        ensures
            cache@ == Map::<Seq<char>, Seq<char>>::empty(),
    {
        let cache = IdentifierCache { entries: NameMap::new() };
        assert(cache@ =~= Map::<Seq<char>, Seq<char>>::empty());
        cache
    }

    /// The identifier that the cache holds for `name`.
    pub fn lookup(&self, name: &str) -> (r: Option<String>)
        ensures
            match r {
                Some(id) => self@.contains_key(name@) && self@[name@] == id@,
                None => !self@.contains_key(name@),
            },
    {
        match self.entries.get(name) {
            Some(id) => Some(id.clone()),
            None => None,
        }
    }

    /// Keeps `id` for `name`, in place of what was kept for it.
    pub fn remember(&mut self, name: &str, id: String)
        ensures
            final(self)@ == old(self)@.insert(name@, id@),
    {
        self.entries.insert(name.to_string(), id);
        assert(final(self)@ =~= old(self)@.insert(name@, id@));
    }

    /// Forgets everything.
    pub fn clear(&mut self)
        ensures
            final(self)@ == Map::<Seq<char>, Seq<char>>::empty(),
    {
        self.entries = NameMap::new();
        assert(final(self)@ =~= Map::<Seq<char>, Seq<char>>::empty());
    }

    /// How many names the cache holds.
    pub fn len(&self) -> (n: usize)
        ensures
            self@.dom().finite(),
            n == self@.dom().len(),
    {
        let n = self.entries.len();
        assert(self@.dom() =~= self.entries@.dom());
        n
    }

    /// The node identifier of the port `name`: from the cache where it
    /// holds the name; else resolved from a dump of the graph, and kept
    /// where that went well.
    pub fn resolve(&mut self, name: &str, outcomes: &[Launch]) -> (r: Step<String>)
        ensures
            text_step(r) == cached_step(old(self)@, name@, launch_views(outcomes@)),
            final(self)@ == cache_after(old(self)@, name@, launch_views(outcomes@)),
    {
        if let Some(id) = self.lookup(name) {
            return Step::Done(Ok(id));
        }
        if outcomes.len() == 0 {
            return Step::Run(get_pipewire_info());
        }
        match node_id_from(name, &outcomes[0]) {
            Ok(id) => {
                self.remember(name, id.clone());
                Step::Done(Ok(id))
            },
            Err(e) => Step::Done(Err(e)),
        }
    }
}

/// Two callers that resolve the same name, before the cache holds it and
/// one after the other as the lock lets them in, leave the cache with one
/// entry for the name, and that entry holds what was written last. A
/// cache that held other names keeps them as they were.
pub proof fn lemma_same_name_twice(
    before: Map<Seq<char>, Seq<char>>,
    name: Seq<char>,
    first: Seq<char>,
    second: Seq<char>,
)
    ensures
        before.insert(name, first).insert(name, second) == before.insert(name, second),
        before.insert(name, first).insert(name, second)[name] == second,
        Map::<Seq<char>, Seq<char>>::empty().insert(name, first).insert(name, second).dom()
            == set![name],
        Map::<Seq<char>, Seq<char>>::empty().insert(name, first).insert(name, second).dom().len()
            == 1,
{
    assert(before.insert(name, first).insert(name, second) =~= before.insert(name, second));
    assert(Map::<Seq<char>, Seq<char>>::empty().insert(name, first).insert(name, second).dom()
        =~= set![name]);
}

/// Two callers that resolve the same name through an empty cache, each
/// with what came of its own commands, leave the cache with at most one
/// entry, and that entry is for the name. It holds what the first
/// resolution gave where that went well, and else what the second gave.
pub proof fn lemma_two_resolutions(name: Seq<char>, first: Seq<LaunchView>, second: Seq<LaunchView>)
    ensures
        ({
            let empty = Map::<Seq<char>, Seq<char>>::empty();
            let between = cache_after(empty, name, first);
            let after = cache_after(between, name, second);
            &&& after.dom().finite()
            &&& after.dom().len() <= 1
            &&& after.dom().subset_of(set![name])
            &&& uncached_step(name, first) matches StepView::Done(Ok(id)) ==> after
                == empty.insert(name, id)
            &&& !(uncached_step(name, first) matches StepView::Done(Ok(_))) ==> after
                == cache_after(empty, name, second)
        }),
{
    let empty = Map::<Seq<char>, Seq<char>>::empty();
    let between = cache_after(empty, name, first);
    let after = cache_after(between, name, second);
    if after.contains_key(name) {
        assert(after.dom() =~= set![name]);
    } else {
        assert(after.dom() =~= Set::<Seq<char>>::empty());
    }
}

/// Once the cache holds a name, resolving it asks for no command and
/// changes nothing, whatever has been run.
pub proof fn lemma_cached_name_runs_nothing(
    cache: Map<Seq<char>, Seq<char>>,
    name: Seq<char>,
    outcomes: Seq<LaunchView>,
)
    requires
        cache.contains_key(name),
    ensures
        cached_step(cache, name, outcomes) == StepView::Done(Ok::<Seq<char>, crate::error::Failure>(cache[name])),
        cache_after(cache, name, outcomes) == cache,
{
}

/// The number of the card of the session: unknown until it is resolved,
/// and from then on what every operation on the card goes by.
#[derive(Debug, Clone, Copy, PartialEq, Eq)]
pub struct CardCache {
    pub number: Option<u32>,
}

impl CardCache {
    /// The cache of a session whose card is not resolved yet.
    pub fn new() -> (cache: CardCache)
        ensures
            cache.number is None,
    {
        CardCache { number: None }
    }

    /// Keeps `number` as the number of the card.
    pub fn initialize(&mut self, number: u32)
        ensures
            final(self).number == Some(number),
    {
        self.number = Some(number);
    }
}

} // verus!
