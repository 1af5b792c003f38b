//! The progress of each event on each network: the last block known to be
//! synced, the statements that read and write it, and the view of it that is
//! kept in memory.

use vstd::prelude::*;
use vstd::string::StringExecFns;
use vstd::string::StrSliceExecFns;
use crate::contract_setup::NetworkContract;
use crate::callback_registry::EventInformation;

verus! {

/// `String::push` appends one character, as its documentation says.
pub assume_specification[ String::push ](text: &mut String, ch: char)
    ensures
        final(text)@ == old(text)@.push(ch),
;

/// Whether `c` is a capital letter of the ASCII alphabet.
pub open spec fn is_capital(c: char) -> bool {
    'A' <= c <= 'Z'
}

/// The small letter of an ASCII capital.
pub open spec fn small_of(c: char) -> char {
    ((c as u8) + 32) as char
}

/// A name in snake case: every ASCII capital becomes its small letter, and
/// gets an underscore before it unless it is the first character.
pub open spec fn snake_of(name: Seq<char>) -> Seq<char>
    decreases name.len(),
{
    if name.len() == 0 {
        Seq::empty()
    } else {
        let before = snake_of(name.drop_last());
        let c = name.last();
        if !is_capital(c) {
            before.push(c)
        } else if name.len() == 1 {
            before.push(small_of(c))
        } else {
            before.push('_').push(small_of(c))
        }
    }
}

/// Turns a name in camel case into snake case.
pub fn camel_to_snake(name: &str) -> (r: String)
    ensures
        r@ == snake_of(name@),
{
    let mut out = String::new();
    let len = name.unicode_len();
    let mut i: usize = 0;
    while i < len
        invariant
            i <= len,
            len == name@.len(),
            out@ == snake_of(name@.take(i as int)),
        decreases len - i,
    {
        let c = name.get_char(i);
        proof {
            assert(name@.take(i as int + 1).drop_last() == name@.take(i as int));
            assert(name@.take(i as int + 1).last() == c);
        }
        if 'A' <= c && c <= 'Z' {
            if i > 0 {
                out.push('_');
            }
            out.push(((c as u8) + 32) as char);
        } else {
            out.push(c);
        }
        i += 1;
    }
    proof {
        assert(name@.take(len as int) == name@);
    }
    out
}

/// The table that holds the progress of one event of one contract of one
/// indexer: the three names in snake case, joined by underscores, in the
/// indexer's internal schema.
pub open spec fn table_of(indexer: Seq<char>, contract: Seq<char>, event: Seq<char>) -> Seq<char> {
    "rindexer_internal."@ + snake_of(indexer) + "_"@ + snake_of(contract) + "_"@ + snake_of(event)
}

/// The name of the progress table of an event.
pub fn progress_table(indexer_name: &str, contract_name: &str, event_name: &str) -> (r: String)
    ensures
        r@ == table_of(indexer_name@, contract_name@, event_name@),
{
    let mut table = String::from_str("rindexer_internal.");
    table.append(camel_to_snake(indexer_name).as_str());
    table.append("_");
    table.append(camel_to_snake(contract_name).as_str());
    table.append("_");
    table.append(camel_to_snake(event_name).as_str());
    table
}

/// The query that reads the last synced block of an event; its one parameter
/// is the network.
pub fn last_synced_block_query(indexer_name: &str, contract_name: &str, event_name: &str) -> (r:
    String)
    ensures
        r@ == "SELECT last_synced_block FROM "@ + table_of(
            indexer_name@,
            contract_name@,
            event_name@,
        ) + " WHERE network = $1"@,
{
    let mut query = String::from_str("SELECT last_synced_block FROM ");
    query.append(progress_table(indexer_name, contract_name, event_name).as_str());
    query.append(" WHERE network = $1");
    query
}

/// The statement that writes the last synced block of an event; its
/// parameters are the block and the network. It leaves a row alone whose
/// block is not below the one given.
pub fn update_last_synced_block_statement(
    indexer_name: &str,
    contract_name: &str,
    event_name: &str,
) -> (r: String)
    ensures
        r@ == "UPDATE "@ + table_of(indexer_name@, contract_name@, event_name@)
            + " SET last_synced_block = $1 WHERE network = $2 AND $1 > last_synced_block"@,
{
    let mut statement = String::from_str("UPDATE ");
    statement.append(progress_table(indexer_name, contract_name, event_name).as_str());
    statement.append(" SET last_synced_block = $1 WHERE network = $2 AND $1 > last_synced_block");
    statement
}

/// Whether `c` is a decimal digit.
pub open spec fn is_digit(c: char) -> bool {
    '0' <= c <= '9'
}

/// The number that a text of decimal digits writes.
pub open spec fn decimal_value(text: Seq<char>) -> nat
    decreases text.len(),
{
    if text.len() == 0 {
        0
    } else {
        10 * decimal_value(text.drop_last()) + (text.last() as nat - '0' as nat) as nat
    }
}

/// The block number that a text writes: the text holds decimal digits alone
/// and the number fits in 64 bits. The empty text writes zero.
pub open spec fn block_of_text(text: Seq<char>) -> Option<u64> {
    if (forall|i: int| 0 <= i < text.len() ==> is_digit(#[trigger] text[i])) && decimal_value(text)
        <= u64::MAX {
        Some(decimal_value(text) as u64)
    } else {
        None
    }
}

/// Parses a block number with `ethers::types::U64::from_dec_str`.
///
/// Trusted: that function returns a number exactly for a text of ASCII
/// decimal digits (the empty text included) whose value fits in 64 bits, and
/// then returns that value; every error is read as `None`.
#[verifier::external_body]
fn parse_block(text: &str) -> (r: Option<u64>)
    ensures
        r == block_of_text(text@),
{
    match ethers::types::U64::from_dec_str(text) {
        Ok(block) => Some(block.low_u64()),
        Err(_) => None,
    }
}

/// The block number that `text` writes, if it writes one.
pub fn block_from_text(text: &str) -> (r: Option<u64>)
    ensures
        r == block_of_text(text@),
{
    parse_block(text)
}

/// The greatest mantissa of a stored numeric value: 96 bits.
pub open spec fn max_mantissa() -> int {
    0xFFFF_FFFF_FFFF_FFFF_FFFF_FFFF
}

/// Whether a mantissa and a scale make a numeric value that the store can
/// hold: a mantissa of at most 96 bits and at most 28 decimal places.
pub open spec fn is_numeric(mantissa: i128, scale: u32) -> bool {
    scale <= 28 && -max_mantissa() <= mantissa <= max_mantissa()
}

/// The text that `rust_decimal::Decimal` writes for the value with this
/// mantissa and this number of decimal places.
pub uninterp spec fn decimal_text_of(mantissa: int, scale: nat) -> Seq<char>;

/// Writes a numeric value as `rust_decimal::Decimal` displays it.
///
/// Trusted: `Decimal::try_from_i128_with_scale` accepts exactly a scale of at
/// most 28 with a mantissa of at most 96 bits, and the text is the one that
/// `Decimal`'s `to_string` gives for the value made.
#[verifier::external_body]
fn decimal_text(mantissa: i128, scale: u32) -> (r: Option<String>)
    ensures
        r is Some <==> is_numeric(mantissa, scale),
        r matches Some(text) ==> text@ == decimal_text_of(mantissa as int, scale as nat),
{
    match rust_decimal::Decimal::try_from_i128_with_scale(mantissa, scale) {
        Ok(value) => Some(value.to_string()),
        Err(_) => None,
    }
}

/// The last synced block that a stored value stands for.
pub open spec fn last_synced_of(stored: Option<(i128, u32)>) -> Option<u64> {
    match stored {
        Some((mantissa, scale)) => if is_numeric(mantissa, scale) {
            block_of_text(decimal_text_of(mantissa as int, scale as nat))
        } else {
            None
        },
        None => None,
    }
}

/// Reads the last synced block from what the store returned: the mantissa and
/// the scale of the numeric value of the row, or `None` where the store had
/// no row or failed. A value that is no block number counts as no progress.
pub fn get_last_synced_block_number(stored: Option<(i128, u32)>) -> (r: Option<u64>)
    ensures
        r == last_synced_of(stored),
{
    match stored {
        None => None,
        Some((mantissa, scale)) => match decimal_text(mantissa, scale) {
            Some(text) => block_from_text(text.as_str()),
            None => None,
        },
    }
}

/// The block that a progress record holds after a write of `block`: a write
/// that is not above the stored block changes nothing.
pub open spec fn stored_after(stored: u64, block: u64) -> u64 {
    if block > stored {
        block
    } else {
        stored
    }
}

/// The block that a progress record holds after the writes of `writes`, in
/// their order.
pub open spec fn stored_after_all(stored: u64, writes: Seq<u64>) -> u64
    decreases writes.len(),
{
    if writes.len() == 0 {
        stored
    } else {
        stored_after(stored_after_all(stored, writes.drop_last()), writes.last())
    }
}

/// Monotonic progress: whatever is written to a progress record, and in
/// whatever order, the block it holds never falls.
pub proof fn law_progress_never_falls(stored: u64, writes: Seq<u64>, earlier: int)
    requires
        0 <= earlier <= writes.len(),
    ensures
        stored_after_all(stored, writes.take(earlier)) <= stored_after_all(stored, writes),
    decreases writes.len(),
{
    if earlier == writes.len() {
        assert(writes.take(earlier) == writes);
    } else {
        law_progress_never_falls(stored, writes.drop_last(), earlier);
        assert(writes.drop_last().take(earlier) == writes.take(earlier));
    }
}

/// A later write makes up for a lost one: where a write did not reach the
/// record, the next write, which is not below it, leaves the record as if
/// both had reached it.
pub proof fn law_later_write_covers_lost_one(stored: u64, lost: u64, later: u64)
    requires
        lost <= later,
    ensures
        stored_after(stored, later) == stored_after(stored_after(stored, lost), later),
{
}

/// The progress of one event on one network, as kept in memory.
#[derive(Clone, Debug, PartialEq, Eq)]
pub struct IndexingEventProgress {
    /// The id of the network contract.
    pub id: String,
    pub event_name: String,
    pub last_synced_block: u64,
}

/// The progress of every event on every network, as kept in memory. The
/// store is the record that counts; this is a view of it for observers.
#[derive(Clone, Debug, PartialEq, Eq)]
pub struct IndexingEventsProgressState {
    pub events: Vec<IndexingEventProgress>,
}

/// The mathematical content of [`IndexingEventProgress`].
pub struct ProgressView {
    pub id: Seq<char>,
    pub event_name: Seq<char>,
    pub last_synced_block: u64,
}

impl View for IndexingEventProgress {
    type V = ProgressView;

    open spec fn view(&self) -> ProgressView {
        ProgressView {
            id: self.id@,
            event_name: self.event_name@,
            last_synced_block: self.last_synced_block,
        }
    }
}

/// The view of a list of entries.
pub open spec fn progress_view(entries: Seq<IndexingEventProgress>) -> Seq<ProgressView> {
    Seq::new(entries.len(), |i: int| entries[i]@)
}

/// The entries of one event before anything is synced: one for each network
/// contract, at the contract's start block, or at zero where it has none.
pub open spec fn progress_of_event(event: EventInformation) -> Seq<ProgressView> {
    Seq::new(
        event.contract.details@.len(),
        |c: int|
            ProgressView {
                id: event.contract.details@[c].id@,
                event_name: event.event_name@,
                last_synced_block: match event.contract.details@[c].start_block {
                    Some(block) => block,
                    None => 0,
                },
            },
    )
}

/// The entries of the events of `events` before anything is synced, event
/// after event.
pub open spec fn progress_of(events: Seq<EventInformation>) -> Seq<ProgressView>
    decreases events.len(),
{
    if events.len() == 0 {
        Seq::empty()
    } else {
        progress_of(events.drop_last()) + progress_of_event(events.last())
    }
}

impl IndexingEventsProgressState {
    /// The progress of the events of `events` before anything is synced.
    pub fn monitor(events: &Vec<EventInformation>) -> (state: IndexingEventsProgressState)
        ensures
            progress_view(state.events@) == progress_of(events@),
    {
        let mut entries: Vec<IndexingEventProgress> = Vec::new();
        let mut e: usize = 0;
        assert(progress_view(entries@) =~= progress_of(events@.take(0)));
        while e < events.len()
            invariant
                e <= events@.len(),
                progress_view(entries@) == progress_of(events@.take(e as int)),
            decreases events@.len() - e,
        {
            let event = &events[e];
            let ghost before = progress_view(entries@);
            let ghost all = progress_of_event(*event);
            let mut c: usize = 0;
            while c < event.contract.details.len()
                invariant
                    c <= event.contract.details@.len(),
                    all == progress_of_event(*event),
                    progress_view(entries@) == before + all.take(c as int),
                decreases event.contract.details@.len() - c,
            {
                let contract = &event.contract.details[c];
                let entry = IndexingEventProgress {
                    id: contract.id.clone(),
                    event_name: event.event_name.clone(),
                    last_synced_block: match contract.start_block {
                        Some(block) => block,
                        None => 0,
                    },
                };
                let ghost earlier = entries@;
                proof {
                    assert(all[c as int] == entry@);
                    assert(all.take(c as int + 1) =~= all.take(c as int).push(entry@));
                }
                entries.push(entry);
                proof {
                    assert(progress_view(entries@) =~= progress_view(earlier).push(entry@));
                    assert(progress_view(entries@) =~= before + all.take(c as int + 1));
                }
                c += 1;
            }
            proof {
                assert(all.take(all.len() as int) == all);
                assert(events@.take(e as int + 1).drop_last() == events@.take(e as int));
                assert(events@.take(e as int + 1).last() == *event);
            }
            e += 1;
        }
        assert(events@.take(events@.len() as int) == events@);
        IndexingEventsProgressState { events: entries }
    }

    /// Records that the contract `network_contract_id` is synced up to
    /// `block`: every entry of that contract takes the block unless it holds a
    /// higher one. The other entries stay as they are.
    pub fn update_last_synced_block(&mut self, network_contract_id: &String, block: u64)
        ensures
            final(self).events@.len() == old(self).events@.len(),
            forall|i: int|
                0 <= i < old(self).events@.len() ==> {
                    let before = #[trigger] old(self).events@[i];
                    let after = final(self).events@[i];
                    &&& after.id@ == before.id@
                    &&& after.event_name@ == before.event_name@
                    &&& after.last_synced_block == if before.id@ == network_contract_id@ {
                        stored_after(before.last_synced_block, block)
                    } else {
                        before.last_synced_block
                    }
                },
    {
        let mut i: usize = 0;
        while i < self.events.len()
            invariant
                i <= self.events@.len(),
                self.events@.len() == old(self).events@.len(),
                forall|j: int|
                    0 <= j < old(self).events@.len() ==> {
                        let before = #[trigger] old(self).events@[j];
                        let after = self.events@[j];
                        &&& after.id@ == before.id@
                        &&& after.event_name@ == before.event_name@
                        &&& after.last_synced_block == if j < i && before.id@
                            == network_contract_id@ {
                            stored_after(before.last_synced_block, block)
                        } else {
                            before.last_synced_block
                        }
                    },
            decreases self.events@.len() - i,
        {
            let same = self.events[i].id == *network_contract_id;
            if same && block > self.events[i].last_synced_block {
                self.events[i].last_synced_block = block;
            }
            i += 1;
        }
    }

    /// The last synced block of the first entry of the contract
    /// `network_contract_id`.
    pub fn last_synced_block(&self, network_contract_id: &String) -> (r: Option<u64>)
        ensures
            match r {
                Some(block) => exists|i: int|
                    {
                        &&& 0 <= i < self.events@.len()
                        &&& (#[trigger] self.events@[i]).id@ == network_contract_id@
                        &&& self.events@[i].last_synced_block == block
                        &&& forall|j: int|
                            0 <= j < i ==> (#[trigger] self.events@[j]).id@ != network_contract_id@
                    },
                None => forall|i: int|
                    0 <= i < self.events@.len() ==> (#[trigger] self.events@[i]).id@
                        != network_contract_id@,
            },
    {
        let mut i: usize = 0;
        while i < self.events.len()
            invariant
                i <= self.events@.len(),
                forall|j: int|
                    0 <= j < i ==> (#[trigger] self.events@[j]).id@ != network_contract_id@,
            decreases self.events@.len() - i,
        {
            if self.events[i].id == *network_contract_id {
                return Some(self.events[i].last_synced_block);
            }
            i += 1;
        }
        None
    }
}

/// A write to the progress store: the statement, and its parameters.
#[derive(Clone, Debug, PartialEq, Eq)]
pub struct ProgressWrite {
    pub statement: String,
    pub block: u64,
    pub network: String,
}

/// Records in memory that a contract is synced up to `to_block`, and gives
/// the write that records it in the store.
pub fn update_progress_and_db(
    indexer_name: &str,
    contract_name: &str,
    event_name: &str,
    progress: &mut IndexingEventsProgressState,
    network_contract: &NetworkContract,
    to_block: u64,
) -> (write: ProgressWrite)
    ensures
        write.block == to_block,
        write.network@ == network_contract.network@,
        write.statement@ == "UPDATE "@ + table_of(indexer_name@, contract_name@, event_name@)
            + " SET last_synced_block = $1 WHERE network = $2 AND $1 > last_synced_block"@,
        final(progress).events@.len() == old(progress).events@.len(),
        forall|i: int|
            0 <= i < old(progress).events@.len() ==> {
                let before = #[trigger] old(progress).events@[i];
                let after = final(progress).events@[i];
                &&& after.id@ == before.id@
                &&& after.event_name@ == before.event_name@
                &&& after.last_synced_block == if before.id@ == network_contract.id@ {
                    stored_after(before.last_synced_block, to_block)
                } else {
                    before.last_synced_block
                }
            },
{
    progress.update_last_synced_block(&network_contract.id, to_block);
    ProgressWrite {
        statement: update_last_synced_block_statement(indexer_name, contract_name, event_name),
        block: to_block,
        network: network_contract.network.clone(),
    }
}

} // verus!
