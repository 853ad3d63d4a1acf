//! The provider that builds its chain once and serves from it afterwards:
//! the slot that holds the chain, and what one request does next.

use rusoto_core::Region;
use vstd::prelude::*;

verus! {

/// What happens to a provider.
#[derive(Debug, PartialEq, Eq)]
pub enum Event<C, E> {
    /// A caller asks for credentials.
    Requested,
    /// A chain was built.
    Built(C),
    /// Building a chain failed.
    BuildFailed(E),
}

/// What to do after an event.
#[derive(Debug, PartialEq, Eq)]
pub enum Action<E> {
    /// Ask the chain in the slot for credentials.
    Delegate,
    /// Build a chain.
    Build,
    /// Report the failure to the caller.
    Fail(E),
}

/// The slot after `event`. A chain that was built takes the slot, whatever
/// was in it; nothing else changes it, and nothing empties it.
pub open spec fn slot_after<C, E>(slot: Option<C>, event: Event<C, E>) -> Option<C> {
    match event {
        Event::Built(chain) => Some(chain),
        _ => slot,
    }
}

/// What to do after `event`, with `slot` as it was before. A request is
/// served from the chain in the slot, and one is built only where there is
/// none.
pub open spec fn action_after<C, E>(slot: Option<C>, event: Event<C, E>) -> Action<E> {
    match event {
        Event::Requested => if slot is Some {
            Action::Delegate
        } else {
            Action::Build
        },
        Event::Built(_) => Action::Delegate,
        Event::BuildFailed(error) => Action::Fail(error),
    }
}

/// The slot after `events`, one after the other.
pub open spec fn slot_after_all<C, E>(slot: Option<C>, events: Seq<Event<C, E>>) -> Option<C>
    decreases events.len(),
{
    if events.len() == 0 {
        slot
    } else {
        slot_after(slot_after_all(slot, events.drop_last()), events.last())
    }
}

/// Once a chain is in the slot, one stays there whatever happens, and every
/// request is served from the slot without building.
pub proof fn lemma_initialized_stays<C, E>(slot: Option<C>, events: Seq<Event<C, E>>)
    requires
        slot is Some,
    ensures
        slot_after_all(slot, events) is Some,
        action_after(slot_after_all(slot, events), Event::<C, E>::Requested) == Action::<
            E,
        >::Delegate,
    decreases events.len(),
{
    if events.len() > 0 {
        lemma_initialized_stays(slot, events.drop_last());
    }
}

/// After a chain was stored, whatever else happened before or since, the
/// slot holds a chain and a request is served from it without building.
pub proof fn lemma_served_after_a_store<C, E>(
    slot: Option<C>,
    events: Seq<Event<C, E>>,
    stored: int,
)
    requires
        0 <= stored < events.len(),
        events[stored] is Built,
    ensures
        slot_after_all(slot, events) is Some,
        action_after(slot_after_all(slot, events), Event::<C, E>::Requested) == Action::<
            E,
        >::Delegate,
    decreases events.len(),
{
    if stored < events.len() - 1 {
        lemma_served_after_a_store(slot, events.drop_last(), stored);
    }
}

/// The slot holds the chain that was stored last: of several that were
/// built, one is kept.
pub proof fn lemma_last_store_wins<C, E>(slot: Option<C>, events: Seq<Event<C, E>>, last: int)
    requires
        0 <= last < events.len(),
        events[last] is Built,
        forall|later: int| last < later < events.len() ==> !(#[trigger] events[later] is Built),
    ensures
        slot_after_all(slot, events) == Some(events[last]->Built_0),
    decreases events.len(),
{
    if last < events.len() - 1 {
        assert(!(events[events.len() - 1] is Built));
        lemma_last_store_wins(slot, events.drop_last(), last);
    }
}

/// Where nothing was stored, the slot is as it was: requests and failed
/// builds leave it alone.
pub proof fn lemma_slot_kept_without_store<C, E>(slot: Option<C>, events: Seq<Event<C, E>>)
    requires
        forall|at: int| 0 <= at < events.len() ==> !(#[trigger] events[at] is Built),
    ensures
        slot_after_all(slot, events) == slot,
    decreases events.len(),
{
    if events.len() > 0 {
        assert(!(events[events.len() - 1] is Built));
        lemma_slot_kept_without_store(slot, events.drop_last());
    }
}

/// A failed build leaves the slot as it was and is reported to the caller:
/// nothing is kept of it, and the next request to an empty slot builds
/// again.
pub proof fn lemma_failure_is_not_kept<C, E>(slot: Option<C>, error: E)
    ensures
        slot_after(slot, Event::<C, E>::BuildFailed(error)) == slot,
        action_after(slot, Event::<C, E>::BuildFailed(error)) == Action::Fail(error),
        slot is None ==> action_after(
            slot_after(slot, Event::<C, E>::BuildFailed(error)),
            Event::<C, E>::Requested,
        ) == Action::<E>::Build,
{
}

/// Two callers that both find the slot empty both build. Each is served
/// from the chain it stored; afterwards the slot holds one chain, that of
/// the caller who stored last, and a third caller is served from it
/// without building.
pub proof fn lemma_two_first_requests<C, E>(first: C, second: C)
    ensures
        ({
            let empty = None::<C>;
            let once = slot_after(empty, Event::<C, E>::Built(first));
            let twice = slot_after(once, Event::<C, E>::Built(second));
            &&& action_after(empty, Event::<C, E>::Requested) == Action::<E>::Build
            &&& slot_after(empty, Event::<C, E>::Requested) == empty
            &&& action_after(empty, Event::<C, E>::Built(first)) == Action::<E>::Delegate
            &&& once == Some(first)
            &&& action_after(once, Event::<C, E>::Built(second)) == Action::<E>::Delegate
            &&& twice == Some(second)
            &&& action_after(twice, Event::<C, E>::Requested) == Action::<E>::Delegate
            &&& slot_after(twice, Event::<C, E>::Requested) == twice
        }),
{
}

/// A provider of assumed-role credentials that keeps the chain it built.
/// `C` is the chain.
pub struct ConfigAssumeRoleProvider<C> {
    default_region: Region,
    session_name: String,
    sts_assume_role_provider: Option<C>,
}

impl<C> ConfigAssumeRoleProvider<C> {
    /// The region to ask in where the source profile names none.
    pub closed spec fn region(&self) -> Region {
        self.default_region
    }

    /// The name of the sessions.
    pub closed spec fn session(&self) -> String {
        self.session_name
    }

    /// The chain that was built, if one was.
    pub closed spec fn slot(&self) -> Option<C> {
        self.sts_assume_role_provider
    }

    /// A provider without a chain.
    pub fn new(default_region: Region, session_name: String) -> (provider: Self)
        ensures
            provider.region() == default_region,
            provider.session() == session_name,
            provider.slot() is None,
    {
        ConfigAssumeRoleProvider { default_region, session_name, sts_assume_role_provider: None }
    }

    /// The region to ask in where the source profile names none.
    pub fn default_region(&self) -> (region: &Region)
        ensures
            *region == self.region(),
    {
        &self.default_region
    }

    /// The name of the sessions.
    pub fn session_name(&self) -> (name: &String)
        ensures
            *name == self.session(),
    {
        &self.session_name
    }

    /// The chain to serve from, if one was built.
    pub fn chain(&self) -> (chain: Option<&C>)
        ensures
            match chain {
                Some(held) => self.slot() == Some(*held),
                None => self.slot() is None,
            },
    {
        self.sts_assume_role_provider.as_ref()
    }

    /// Takes `event` and says what to do next.
    pub fn step<E>(&mut self, event: Event<C, E>) -> (action: Action<E>)
        ensures
            final(self).slot() == slot_after(old(self).slot(), event),
            action == action_after(old(self).slot(), event),
            final(self).region() == old(self).region(),
            final(self).session() == old(self).session(),
    {
        match event {
            Event::Requested => {
                if self.sts_assume_role_provider.is_some() {
                    Action::Delegate
                } else {
                    Action::Build
                }
            },
            Event::Built(chain) => {
                self.sts_assume_role_provider = Some(chain);
                Action::Delegate
            },
            Event::BuildFailed(error) => Action::Fail(error),
        }
    }
}

/// The name of the sessions of a provider that was given none: the
/// package's name, a hyphen, and its version.
pub fn default_session_name(package: &str, version: &str) -> (name: String)
    ensures
        name@ == package@ + "-"@ + version@,
{
    let mut name = package.to_owned();
    name.append("-");
    name.append(version);
    name
}

} // verus!
