//! The controllers of several threads.

use vstd::prelude::*;

use crate::controller::{
    BridgeController, ControllerEvent, QueuedMessage, ReleaseDecision, ReleaseReason,
};
use crate::controller;
use crate::controller_model::ControllerView;
use crate::text;

verus! {

/// Identifies a thread, by its canonical text.
#[derive(Debug, PartialEq, Eq)]
pub struct ThreadId {
    text: String,
}

impl View for ThreadId {
    type V = Seq<char>;

    closed spec fn view(&self) -> Seq<char> {
        self.text@
    }
}

impl Clone for ThreadId {
    fn clone(&self) -> (copy: Self)
        ensures
            copy == *self,
    {
        ThreadId { text: self.text.clone() }
    }
}

impl ThreadId {
    /// The thread with this canonical text.
    pub fn from_canonical(text: &str) -> (thread_id: Self)
        ensures
            thread_id@ == text@,
    {
        ThreadId { text: text.to_owned() }
    }

    /// The canonical text.
    pub fn as_str(&self) -> (text: &str)
        ensures
            text@ == self@,
    {
        self.text.as_str()
    }

    /// The canonical text.
    pub fn to_string(&self) -> (text: String)
        ensures
            text@ == self@,
    {
        self.text.clone()
    }
}

/// A thread and its controller.
#[derive(Clone, Debug, PartialEq, Eq)]
struct ThreadEntry {
    thread_id: ThreadId,
    controller: BridgeController,
}

/// The controllers of several threads, at most one per thread.
#[derive(Clone, Debug, PartialEq, Eq)]
pub struct ThreadControllers {
    entries: Vec<ThreadEntry>,
}

/// The place of a thread among some entries.
spec fn place_of(entries: Seq<ThreadEntry>, thread_id: Seq<char>) -> int {
    choose|i: int| 0 <= i < entries.len() && (#[trigger] entries[i]).thread_id@ == thread_id
}

/// Whether a thread is among some entries.
spec fn has_thread(entries: Seq<ThreadEntry>, thread_id: Seq<char>) -> bool {
    exists|i: int| 0 <= i < entries.len() && (#[trigger] entries[i]).thread_id@ == thread_id
}

/// Whether no thread stands twice.
spec fn distinct(entries: Seq<ThreadEntry>) -> bool {
    forall|i: int, j: int|
        0 <= i < j < entries.len() ==> (#[trigger] entries[i]).thread_id@ != (
        #[trigger] entries[j]).thread_id@
}

impl View for ThreadControllers {
    type V = Map<Seq<char>, ControllerView>;

    closed spec fn view(&self) -> Map<Seq<char>, ControllerView> {
        Map::new(
            |thread_id: Seq<char>| has_thread(self.entries@, thread_id),
            |thread_id: Seq<char>|
                self.entries@[place_of(self.entries@, thread_id)].controller@,
        )
    }
}

impl ThreadControllers {
    /// Whether each thread has at most one controller.
    pub closed spec fn wf(&self) -> bool {
        distinct(self.entries@)
    }

    proof fn lemma_place(&self, place: int)
        requires
            self.wf(),
            0 <= place < self.entries@.len(),
        ensures
            self@.contains_key(self.entries@[place].thread_id@),
            self@[self.entries@[place].thread_id@] == self.entries@[place].controller@,
    {
        let thread_id = self.entries@[place].thread_id@;
        assert(has_thread(self.entries@, thread_id));
        let found = place_of(self.entries@, thread_id);
        assert(found == place);
    }

    /// No controllers.
    pub fn new() -> (controllers: Self)
        ensures
            controllers.wf(),
            controllers@ == Map::<Seq<char>, ControllerView>::empty(),
    {
        let controllers = ThreadControllers { entries: Vec::new() };
        assert(controllers@ =~= Map::<Seq<char>, ControllerView>::empty());
        controllers
    }

    fn find(&self, thread_id: &ThreadId) -> (place: Option<usize>)
        ensures
            match place {
                Some(place) => place < self.entries@.len() && self.entries@[place as int].thread_id@
                    == thread_id@,
                None => !self@.contains_key(thread_id@),
            },
    {
        let mut i: usize = 0;
        while i < self.entries.len()
            invariant
                i <= self.entries@.len(),
                forall|j: int|
                    0 <= j < i ==> (#[trigger] self.entries@[j]).thread_id@ != thread_id@,
            decreases self.entries@.len() - i,
        {
            if text::text_eq(self.entries[i].thread_id.as_str(), thread_id.as_str()) {
                return Some(i);
            }
            i += 1;
        }
        None
    }

    /// The controller of a thread.
    pub fn get(&self, thread_id: &ThreadId) -> (controller: Option<&BridgeController>)
        requires
            self.wf(),
        ensures
            match controller {
                Some(controller) => self@.contains_key(thread_id@) && controller@
                    == self@[thread_id@],
                None => !self@.contains_key(thread_id@),
            },
    {
        match self.find(thread_id) {
            Some(place) => {
                proof {
                    self.lemma_place(place as int);
                }
                Some(&self.entries[place].controller)
            },
            None => None,
        }
    }

    /// Makes sure that a thread has a controller; a new one is fresh.
    pub fn ensure(&mut self, thread_id: &ThreadId)
        requires
            old(self).wf(),
        ensures
            final(self).wf(),
            final(self)@ == if old(self)@.contains_key(thread_id@) {
                old(self)@
            } else {
                old(self)@.insert(thread_id@, ControllerView::fresh(thread_id@))
            },
    {
        if self.find(thread_id).is_some() {
            proof {
                let place = choose|i: int|
                    0 <= i < self.entries@.len() && (#[trigger] self.entries@[i]).thread_id@
                        == thread_id@;
                self.lemma_place(place);
            }
            return;
        }
        let ghost before = *self;
        let entry = ThreadEntry {
            thread_id: thread_id.clone(),
            controller: BridgeController::new(thread_id.as_str()),
        };
        self.entries.push(entry);
        proof {
            assert(!has_thread(before.entries@, thread_id@));
            assert(self.entries@.last() == entry);
            assert forall|i: int| 0 <= i < before.entries@.len() implies (
            #[trigger] self.entries@[i]) == before.entries@[i] by {}
            assert(self.wf());
            self.lemma_place(before.entries@.len() as int);
            assert forall|key: Seq<char>| #[trigger] self@.contains_key(key) <==> before@.insert(
                thread_id@,
                ControllerView::fresh(thread_id@),
            ).contains_key(key) by {
                if before@.contains_key(key) {
                    let place = place_of(before.entries@, key);
                    assert(self.entries@[place] == before.entries@[place]);
                }
                if self@.contains_key(key) {
                    let place = place_of(self.entries@, key);
                    if place < before.entries@.len() {
                        assert(before.entries@[place].thread_id@ == key);
                    }
                }
            }
            assert forall|key: Seq<char>| #[trigger] self@.contains_key(key) implies self@[key]
                == before@.insert(thread_id@, ControllerView::fresh(thread_id@))[key] by {
                let place = place_of(self.entries@, key);
                self.lemma_place(place);
                if place < before.entries@.len() {
                    before.lemma_place(place);
                }
            }
            assert(self@ =~= before@.insert(thread_id@, ControllerView::fresh(thread_id@)));
        }
    }

    /// Replaces the controller at a place.
    proof fn lemma_updated(before: Self, after: Self, place: int)
        requires
            before.wf(),
            0 <= place < before.entries@.len(),
            after.entries@.len() == before.entries@.len(),
            after.entries@[place].thread_id == before.entries@[place].thread_id,
            forall|i: int|
                0 <= i < before.entries@.len() && i != place ==> (#[trigger] after.entries@[i])
                    == before.entries@[i],
        ensures
            after.wf(),
            after@ == before@.insert(
                before.entries@[place].thread_id@,
                after.entries@[place].controller@,
            ),
    {
        assert forall|i: int| 0 <= i < before.entries@.len() implies (
        #[trigger] after.entries@[i]).thread_id@ == before.entries@[i].thread_id@ by {}
        assert forall|i: int, j: int| 0 <= i < j < after.entries@.len() implies (
        #[trigger] after.entries@[i]).thread_id@ != (#[trigger] after.entries@[j]).thread_id@ by {
            assert(before.entries@[i].thread_id@ != before.entries@[j].thread_id@);
        }
        let key = before.entries@[place].thread_id@;
        let expected = before@.insert(key, after.entries@[place].controller@);
        before.lemma_place(place);
        after.lemma_place(place);
        assert forall|k: Seq<char>| #[trigger] after@.contains_key(k) <==> expected.contains_key(
            k,
        ) by {
            if before@.contains_key(k) {
                let p = place_of(before.entries@, k);
                assert(after.entries@[p].thread_id@ == k);
            }
            if after@.contains_key(k) {
                let p = place_of(after.entries@, k);
                assert(before.entries@[p].thread_id@ == k);
            }
        }
        assert forall|k: Seq<char>| #[trigger] after@.contains_key(k) implies after@[k]
            == expected[k] by {
            let p = place_of(after.entries@, k);
            after.lemma_place(p);
            before.lemma_place(p);
        }
        assert(after@ =~= expected);
    }

    /// Lets the controller of a thread take in an event, and hands out the
    /// violation that the event left behind. A thread without a controller is
    /// left alone.
    pub fn on_event(&mut self, thread_id: &ThreadId, event: ControllerEvent) -> (outcome: Option<
        (Option<ReleaseDecision>, Option<String>),
    >)
        requires
            old(self).wf(),
        ensures
            final(self).wf(),
            match outcome {
                None => !old(self)@.contains_key(thread_id@) && final(self)@ == old(self)@,
                Some((decision, violation)) => {
                    &&& old(self)@.contains_key(thread_id@)
                    &&& controller::released(decision) == old(self)@[thread_id@].step(event@).1
                    &&& text::opt_text(violation) == old(self)@[thread_id@].step(
                        event@,
                    ).0.validation_error
                    &&& final(self)@ == old(self)@.insert(
                        thread_id@,
                        ControllerView {
                            validation_error: None,
                            ..old(self)@[thread_id@].step(event@).0
                        },
                    )
                },
            },
    {
        let place = match self.find(thread_id) {
            Some(place) => place,
            None => return None,
        };
        let ghost before = *self;
        proof {
            before.lemma_place(place as int);
        }
        let decision = self.entries[place].controller.on_event(event);
        let violation = self.entries[place].controller.take_validation_error();
        proof {
            Self::lemma_updated(before, *self, place as int);
        }
        Some((decision, violation))
    }

    /// Lets the controller of a thread start a turn with a message whose steer
    /// found no turn, and hands out a violation as `on_event` does.
    pub fn recover(&mut self, thread_id: &ThreadId, message: QueuedMessage, reason: ReleaseReason) -> (
    outcome: Option<(Option<ReleaseDecision>, Option<String>)>)
        requires
            old(self).wf(),
        ensures
            final(self).wf(),
            match outcome {
                None => !old(self)@.contains_key(thread_id@) && final(self)@ == old(self)@,
                Some((decision, violation)) => {
                    &&& old(self)@.contains_key(thread_id@)
                    &&& controller::released(decision) == old(self)@[thread_id@].start(
                        message@,
                        reason,
                    ).1
                    &&& text::opt_text(violation) == old(self)@[thread_id@].start(
                        message@,
                        reason,
                    ).0.validation_error
                    &&& final(self)@ == old(self)@.insert(
                        thread_id@,
                        ControllerView {
                            validation_error: None,
                            ..old(self)@[thread_id@].start(message@, reason).0
                        },
                    )
                },
            },
    {
        let place = match self.find(thread_id) {
            Some(place) => place,
            None => return None,
        };
        let ghost before = *self;
        proof {
            before.lemma_place(place as int);
        }
        let decision = self.entries[place].controller.recover_missing_active_turn(message, reason);
        let violation = self.entries[place].controller.take_validation_error();
        proof {
            Self::lemma_updated(before, *self, place as int);
        }
        Some((decision, violation))
    }

    /// Lets the controller of a thread take in an event, and leaves a violation
    /// with the controller.
    pub fn push_event(&mut self, thread_id: &ThreadId, event: ControllerEvent) -> (decision: Option<
        ReleaseDecision,
    >)
        requires
            old(self).wf(),
            old(self)@.contains_key(thread_id@),
        ensures
            final(self).wf(),
            controller::released(decision) == old(self)@[thread_id@].step(event@).1,
            final(self)@ == old(self)@.insert(
                thread_id@,
                old(self)@[thread_id@].step(event@).0,
            ),
    {
        let place = match self.find(thread_id) {
            Some(place) => place,
            None => return None,
        };
        let ghost before = *self;
        proof {
            before.lemma_place(place as int);
        }
        let decision = self.entries[place].controller.on_event(event);
        proof {
            Self::lemma_updated(before, *self, place as int);
        }
        decision
    }

    /// Takes the controller of a thread out.
    pub fn remove(&mut self, thread_id: &ThreadId) -> (controller: Option<BridgeController>)
        requires
            old(self).wf(),
        ensures
            final(self).wf(),
            final(self)@ == old(self)@.remove(thread_id@),
            match controller {
                Some(controller) => old(self)@.contains_key(thread_id@) && controller@
                    == old(self)@[thread_id@],
                None => !old(self)@.contains_key(thread_id@),
            },
    {
        let place = match self.find(thread_id) {
            Some(place) => place,
            None => {
                assert(self@.remove(thread_id@) =~= self@);
                return None;
            },
        };
        let ghost before = *self;
        proof {
            before.lemma_place(place as int);
        }
        let entry = self.entries.remove(place);
        proof {
            assert forall|i: int| 0 <= i < self.entries@.len() implies (#[trigger] self.entries@[i])
                == before.entries@[if i < place {
                i
            } else {
                i + 1
            }] by {}
            assert forall|i: int, j: int| 0 <= i < j < self.entries@.len() implies (
            #[trigger] self.entries@[i]).thread_id@ != (#[trigger] self.entries@[j]).thread_id@ by {
                let p = if i < place {
                    i
                } else {
                    i + 1
                };
                let q = if j < place {
                    j
                } else {
                    j + 1
                };
                assert(before.entries@[p].thread_id@ != before.entries@[q].thread_id@);
            }
            assert forall|k: Seq<char>| #[trigger] self@.contains_key(k) <==> before@.remove(
                thread_id@,
            ).contains_key(k) by {
                if before@.contains_key(k) && k != thread_id@ {
                    let p = place_of(before.entries@, k);
                    let i = if p < place {
                        p
                    } else {
                        p - 1
                    };
                    assert(self.entries@[i] == before.entries@[p]);
                }
                if self@.contains_key(k) {
                    let i = place_of(self.entries@, k);
                    let p = if i < place {
                        i
                    } else {
                        i + 1
                    };
                    assert(self.entries@[i] == before.entries@[p]);
                    assert(before.entries@[p].thread_id@ == k);
                    assert(before.entries@[place as int].thread_id@
                        != before.entries@[p].thread_id@);
                }
            }
            assert forall|k: Seq<char>| #[trigger] self@.contains_key(k) implies self@[k]
                == before@.remove(thread_id@)[k] by {
                let i = place_of(self.entries@, k);
                let p = if i < place {
                    i
                } else {
                    i + 1
                };
                self.lemma_place(i);
                before.lemma_place(p);
                assert(self.entries@[i] == before.entries@[p]);
            }
            assert(self@ =~= before@.remove(thread_id@));
        }
        Some(entry.controller)
    }
}

} // verus!
