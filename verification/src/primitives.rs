//! Addresses, topic hashes and block ranges.

use vstd::prelude::*;

verus! {

/// A 20-byte account address.
#[derive(Clone, Copy, Debug, PartialEq, Eq, Hash)]
pub struct Address {
    pub bytes: [u8; 20],
}

impl View for Address {
    type V = Seq<u8>;

    open spec fn view(&self) -> Seq<u8> {
        self.bytes@
    }
}

/// The 32-byte digest of an event signature, or the value of an indexed topic.
#[derive(Clone, Copy, Debug, PartialEq, Eq, Hash)]
pub struct TopicHash {
    pub bytes: [u8; 32],
}

impl View for TopicHash {
    type V = Seq<u8>;

    open spec fn view(&self) -> Seq<u8> {
        self.bytes@
    }
}

impl TopicHash {
    /// Whether two hashes hold the same bytes.
    pub fn same(&self, other: &TopicHash) -> (r: bool)
        ensures
            r == (self@ == other@),
    {
        let mut i: usize = 0;
        while i < 32
            invariant
                i <= 32,
                forall|j: int| 0 <= j < i ==> self.bytes@[j] == other.bytes@[j],
            decreases 32 - i,
        {
            if self.bytes[i] != other.bytes[i] {
                return false;
            }
            i += 1;
        }
        assert(self.bytes@ =~= other.bytes@);
        true
    }
}

/// The view of a list of topic hashes.
pub open spec fn topics_view(topics: Seq<TopicHash>) -> Seq<Seq<u8>> {
    Seq::new(topics.len(), |i: int| topics[i]@)
}

/// The view of an optional list of topic hashes.
pub open spec fn topic_choice_view(choice: Option<Vec<TopicHash>>) -> Option<Seq<Seq<u8>>> {
    match choice {
        Some(list) => Some(topics_view(list@)),
        None => None,
    }
}

/// A copy of an optional list of topic hashes.
pub fn copy_topic_choice(choice: &Option<Vec<TopicHash>>) -> (r: Option<Vec<TopicHash>>)
    ensures
        topic_choice_view(r) == topic_choice_view(*choice),
        r is Some ==> r->0@ == choice->0@,
        r is Some <==> *choice is Some,
{
    match choice {
        None => None,
        Some(list) => {
            let mut out: Vec<TopicHash> = Vec::new();
            let mut i: usize = 0;
            while i < list.len()
                invariant
                    i <= list.len(),
                    out@ == list@.take(i as int),
                decreases list.len() - i,
            {
                out.push(list[i]);
                assert(list@.take(i as int + 1) == list@.take(i as int).push(list@[i as int]));
                i += 1;
            }
            assert(list@.take(list@.len() as int) == list@);
            Some(out)
        },
    }
}

/// A closed interval of block numbers.
#[derive(Clone, Copy, Debug, PartialEq, Eq, Structural)]
pub struct BlockRange {
    pub from: u64,
    pub to: u64,
}

} // verus!
