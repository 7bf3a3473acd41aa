//! Projections of the state that follow its topics.
//!
//! A [`StateSelector`] names the topics that can affect a projection, and a
//! [`ReplaySelection`] keeps its latest value and works it out again only for a
//! commit that touched one of them.

use vstd::prelude::*;
use vstd::std_specs::cmp::PartialEqSpec;

use crate::changes::{add_new_topics, lemma_with_new, topic_among, with_new, ChangeSet, StateTopic};
use crate::domain::AppState;

verus! {

/// Why a selector cannot be made.
#[derive(Clone, Copy, Debug, PartialEq, Eq, Structural)]
pub enum StateSelectorError {
    /// A selector names at least one topic.
    EmptyTopics,
}

impl StateSelectorError {
    /// What went wrong.
    pub fn message(&self) -> (r: &'static str)
        ensures
            r@ == "state selector must observe at least one topic"@,
    {
        "state selector must observe at least one topic"
    }
}

/// A projection of the state and the topics that can affect it.
#[derive(Clone, Debug)]
pub struct StateSelector<F> {
    topics: Vec<StateTopic>,
    projection: F,
}

/// Whether a commit touched one of the topics.
pub open spec fn touches(topics: Seq<StateTopic>, change: ChangeSet) -> bool {
    &&& change.action_count != 0
    &&& exists|i: int|
        0 <= i < change.changed_topics@.len() && topics.contains(
            #[trigger] change.changed_topics@[i],
        )
}

impl<F> StateSelector<F> {
    /// The topics, in the order in which they were first named.
    pub closed spec fn observed(&self) -> Seq<StateTopic> {
        self.topics@
    }

    /// The projection.
    pub closed spec fn projects(&self) -> F {
        self.projection
    }

    /// A selector for the topics, each once.
    pub fn new(topics: &Vec<StateTopic>, projection: F) -> (r: Result<
        StateSelector<F>,
        StateSelectorError,
    >)
        ensures
            match r {
                Ok(selector) => {
                    &&& topics@.len() > 0
                    &&& selector.observed() == with_new(Seq::empty(), topics@)
                    &&& selector.observed().no_duplicates()
                    &&& forall|t: StateTopic| #[trigger]
                        selector.observed().contains(t) <==> topics@.contains(t)
                    &&& selector.projects() == projection
                },
                Err(error) => topics@.len() == 0 && error == StateSelectorError::EmptyTopics,
            },
    {
        if topics.len() == 0 {
            return Err(StateSelectorError::EmptyTopics);
        }
        let mut unique: Vec<StateTopic> = Vec::new();
        add_new_topics(&mut unique, topics);
        proof {
            assert(Seq::<StateTopic>::empty().no_duplicates());
            lemma_with_new(Seq::empty(), topics@);
        }
        Ok(StateSelector { topics: unique, projection })
    }

    /// The topics, in the order in which they were first named.
    pub fn topics(&self) -> (r: &Vec<StateTopic>)
        ensures
            r@ == self.observed(),
    {
        &self.topics
    }

    /// Whether a commit touched one of the topics.
    pub fn matches(&self, change_set: &ChangeSet) -> (r: bool)
        ensures
            r == touches(self.observed(), *change_set),
    {
        if change_set.is_noop() {
            return false;
        }
        let mut i: usize = 0;
        while i < change_set.changed_topics.len()
            invariant
                i <= change_set.changed_topics@.len(),
                change_set.action_count != 0,
                forall|k: int|
                    0 <= k < i ==> !self.observed().contains(
                        #[trigger] change_set.changed_topics@[k],
                    ),
            decreases change_set.changed_topics@.len() - i,
        {
            if topic_among(&self.topics, change_set.changed_topics[i]) {
                return true;
            }
            i = i + 1;
        }
        false
    }
}

/// The latest value of a projection.
#[derive(Clone, Debug)]
pub struct ReplaySelection<T, F> {
    selector: StateSelector<F>,
    current: T,
}

impl<T: PartialEq, F: Fn(&AppState) -> T> ReplaySelection<T, F> {
    /// The selector.
    pub closed spec fn selects(&self) -> StateSelector<F> {
        self.selector
    }

    /// The latest value.
    pub closed spec fn latest(&self) -> T {
        self.current
    }

    /// A selection that starts from the state as it is.
    pub fn new(selector: StateSelector<F>, state: &AppState) -> (r: ReplaySelection<T, F>)
        requires
            call_requires(selector.projects(), (state,)),
        ensures
            r.selects() == selector,
            call_ensures(selector.projects(), (state,), r.latest()),
    {
        let current = (selector.projection)(state);
        ReplaySelection { selector, current }
    }

    /// The latest value.
    pub fn current(&self) -> (r: &T)
        ensures
            *r == self.latest(),
    {
        &self.current
    }

    /// The topics, in the order in which they were first named.
    pub fn topics(&self) -> (r: &Vec<StateTopic>)
        ensures
            r@ == self.selects().observed(),
    {
        self.selector.topics()
    }

    /// Whether a commit touched one of the topics.
    pub fn matches(&self, change_set: &ChangeSet) -> (r: bool)
        ensures
            r == touches(self.selects().observed(), *change_set),
    {
        self.selector.matches(change_set)
    }

    /// Works the projection out again where a commit touched one of the topics.
    /// Returns whether the value changed. A commit that touched none, and one that
    /// leaves the value equal, change nothing.
    pub fn publish(&mut self, change_set: &ChangeSet, state: &AppState) -> (r: bool)
        requires
            call_requires(old(self).selects().projects(), (state,)),
        ensures
            final(self).selects() == old(self).selects(),
            !touches(old(self).selects().observed(), *change_set) ==> !r,
            !r ==> final(self).latest() == old(self).latest(),
            touches(old(self).selects().observed(), *change_set) ==> exists|next: T|
                {
                    &&& #[trigger] call_ensures(old(self).selects().projects(), (state,), next)
                    &&& r ==> final(self).latest() == next
                    &&& T::obeys_eq_spec() ==> r == !old(self).latest().eq_spec(&next)
                },
    {
        if !self.selector.matches(change_set) {
            return false;
        }
        let next = (self.selector.projection)(state);
        if self.current == next {
            return false;
        }
        self.current = next;
        true
    }
}

} // verus!
