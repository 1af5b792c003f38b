//! The registry of events: which callback handles the logs of which topic.

use vstd::prelude::*;
use crate::primitives::TopicHash;
use crate::contract_setup::ContractInformation;

verus! {

/// An event that is indexed, with the contract it belongs to and the callback
/// that takes its logs.
#[derive(Clone, Debug, PartialEq, Eq)]
pub struct EventInformation {
    pub indexer_name: String,
    pub topic_id: TopicHash,
    pub event_name: String,
    pub contract: ContractInformation,
    /// The handle under which the caller keeps the callback.
    pub callback: usize,
}

/// The events that are indexed, in the order of their registration. Events
/// are registered at startup; a completed registry takes no more.
#[derive(Clone, Debug, PartialEq, Eq)]
pub struct EventCallbackRegistry {
    pub events: Vec<EventInformation>,
    pub completed: bool,
}

/// Why an event was not registered.
#[derive(Clone, Copy, Debug, PartialEq, Eq, Structural)]
pub enum RegisterEventError {
    /// The registry was completed before.
    RegistryCompleted,
    /// The topic has a callback already.
    TopicAlreadyRegistered,
}

/// Whether `k` is the first event of `events` with the topic `topic`.
pub open spec fn is_first_with_topic(events: Seq<EventInformation>, topic: Seq<u8>, k: int) -> bool {
    &&& 0 <= k < events.len()
    &&& events[k].topic_id@ == topic
    &&& forall|j: int| 0 <= j < k ==> (#[trigger] events[j]).topic_id@ != topic
}

/// Whether some event of `events` has the topic `topic`.
pub open spec fn has_topic(events: Seq<EventInformation>, topic: Seq<u8>) -> bool {
    exists|k: int| 0 <= k < events.len() && (#[trigger] events[k]).topic_id@ == topic
}

/// The position of the event that a batch for `topic` goes to: the first one
/// registered under the topic.
pub open spec fn first_with_topic(events: Seq<EventInformation>, topic: Seq<u8>) -> int {
    choose|k: int| is_first_with_topic(events, topic, k)
}

/// The handle of the callback that a batch for `topic` goes to, if an event is
/// registered under the topic.
pub open spec fn handler_of(events: Seq<EventInformation>, topic: Seq<u8>) -> Option<usize> {
    if has_topic(events, topic) {
        Some(events[first_with_topic(events, topic)].callback)
    } else {
        None
    }
}

/// Only one event is the first with a topic.
pub proof fn lemma_first_with_topic_is_unique(
    events: Seq<EventInformation>,
    topic: Seq<u8>,
    k: int,
)
    requires
        is_first_with_topic(events, topic, k),
    ensures
        has_topic(events, topic),
        first_with_topic(events, topic) == k,
{
    let chosen = first_with_topic(events, topic);
    assert(is_first_with_topic(events, topic, chosen));
    if chosen < k {
        assert(events[chosen].topic_id@ != topic);
    } else if k < chosen {
        assert(events[k].topic_id@ != topic);
    }
}

/// A batch on its way to a callback.
#[derive(Debug, PartialEq, Eq)]
pub struct Delivery<E> {
    /// The position of the event in the registry.
    pub event: usize,
    /// The handle of the callback that takes the batch.
    pub callback: usize,
    /// The batch, whole and in the order in which it came.
    pub data: Vec<E>,
}

impl EventCallbackRegistry {
    /// A registry without events.
    pub fn new() -> (registry: EventCallbackRegistry)
        ensures
            registry.events@.len() == 0,
            !registry.completed,
    {
        EventCallbackRegistry { events: Vec::new(), completed: false }
    }

    /// The position of the event registered under `topic_id`.
    pub fn find_event(&self, topic_id: &TopicHash) -> (r: Option<usize>)
        ensures
            r matches Some(k) ==> is_first_with_topic(self.events@, topic_id@, k as int),
            r is None ==> !has_topic(self.events@, topic_id@),
    {
        let mut k: usize = 0;
        while k < self.events.len()
            invariant
                k <= self.events@.len(),
                forall|j: int| 0 <= j < k ==> (#[trigger] self.events@[j]).topic_id@ != topic_id@,
            decreases self.events@.len() - k,
        {
            if self.events[k].topic_id.same(topic_id) {
                return Some(k);
            }
            k += 1;
        }
        None
    }

    /// Registers an event after those registered before. A completed registry
    /// refuses it, and so does one that holds the topic already; the registry
    /// is then left as it was.
    pub fn register_event(&mut self, event: EventInformation) -> (r: Result<
        (),
        RegisterEventError,
    >)
        ensures
            final(self).completed == old(self).completed,
            match r {
                Ok(_) => {
                    &&& !old(self).completed
                    &&& !has_topic(old(self).events@, event.topic_id@)
                    &&& final(self).events@ == old(self).events@.push(event)
                },
                Err(RegisterEventError::RegistryCompleted) => {
                    &&& old(self).completed
                    &&& final(self).events@ == old(self).events@
                },
                Err(RegisterEventError::TopicAlreadyRegistered) => {
                    &&& !old(self).completed
                    &&& has_topic(old(self).events@, event.topic_id@)
                    &&& final(self).events@ == old(self).events@
                },
            },
    {
        if self.completed {
            return Err(RegisterEventError::RegistryCompleted);
        }
        match self.find_event(&event.topic_id) {
            Some(_) => Err(RegisterEventError::TopicAlreadyRegistered),
            None => {
                self.events.push(event);
                Ok(())
            },
        }
    }

    /// Completes the registry: it takes no more events.
    pub fn complete(self) -> (registry: EventCallbackRegistry)
        ensures
            registry.completed,
            registry.events@ == self.events@,
    {
        EventCallbackRegistry { events: self.events, completed: true }
    }

    /// Routes a batch to the callback registered under `topic_id`. The batch
    /// is handed on whole and in its order. `None` where no event is
    /// registered under the topic.
    pub fn trigger_event<E>(&self, topic_id: &TopicHash, data: Vec<E>) -> (r: Option<Delivery<E>>)
        ensures
            r is Some <==> has_topic(self.events@, topic_id@),
            r matches Some(delivery) ==> {
                &&& delivery.event == first_with_topic(self.events@, topic_id@)
                &&& Some(delivery.callback) == handler_of(self.events@, topic_id@)
                &&& delivery.data == data
            },
    {
        match self.find_event(topic_id) {
            Some(k) => {
                proof {
                    lemma_first_with_topic_is_unique(self.events@, topic_id@, k as int);
                }
                Some(Delivery { event: k, callback: self.events[k].callback, data })
            },
            None => None,
        }
    }
}

} // verus!
