//! The log filter handed to a provider for one window.

use vstd::prelude::*;
use crate::primitives::{copy_topic_choice, topic_choice_view, Address, TopicHash};
use crate::contract_setup::{AddressesView, ContractAddresses, IndexingContractSetup, SetupView};

verus! {

/// What `eth_getLogs` is asked for: an address constraint, the event's topic,
/// constraints on the indexed topics, and an inclusive block range.
#[derive(Clone, Debug, PartialEq, Eq)]
pub struct LogFilter {
    pub address: Option<ContractAddresses>,
    pub topic0: TopicHash,
    pub topic1: Option<Vec<TopicHash>>,
    pub topic2: Option<Vec<TopicHash>>,
    pub topic3: Option<Vec<TopicHash>>,
    pub from_block: u64,
    pub to_block: u64,
}

/// The mathematical content of [`LogFilter`].
pub struct LogFilterView {
    pub address: Option<AddressesView>,
    pub topic0: Seq<u8>,
    pub topic1: Option<Seq<Seq<u8>>>,
    pub topic2: Option<Seq<Seq<u8>>>,
    pub topic3: Option<Seq<Seq<u8>>>,
    pub from_block: u64,
    pub to_block: u64,
}

impl View for LogFilter {
    type V = LogFilterView;

    open spec fn view(&self) -> LogFilterView {
        LogFilterView {
            address: match self.address {
                Some(a) => Some(a@),
                None => None,
            },
            topic0: self.topic0@,
            topic1: topic_choice_view(self.topic1),
            topic2: topic_choice_view(self.topic2),
            topic3: topic_choice_view(self.topic3),
            from_block: self.from_block,
            to_block: self.to_block,
        }
    }
}

/// The address that the text of a factory address stands for: the bytes that
/// `ethers::types::Address` parses from it, `None` where it rejects the text.
pub uninterp spec fn address_of_text(text: Seq<char>) -> Option<Seq<u8>>;

/// Parses an address with `<ethers::types::Address as FromStr>::from_str`.
///
/// Trusted: the result is what that function returns for `text`, an error
/// read as `None`. Nothing more is claimed of it.
#[verifier::external_body]
fn parse_address(text: &str) -> (r: Option<Address>)
    ensures
        match r {
            Some(a) => address_of_text(text@) == Some(a@),
            None => address_of_text(text@) is None,
        },
{
    match text.parse::<ethers::types::Address>() {
        Ok(a) => Some(Address { bytes: a.0 }),
        Err(_) => None,
    }
}

/// A setup is usable when the text of a factory address parses.
pub open spec fn setup_usable(setup: SetupView) -> bool {
    setup matches SetupView::Factory(d) ==> address_of_text(d.address) is Some
}

/// The filter that selects the logs of `topic` under `setup` in the blocks
/// `from_block ..= to_block`.
///
/// Address mode constrains the filter to the contract's addresses. Filter mode
/// leaves the address open and adds the indexed-topic constraints. Factory
/// mode constrains the filter to the factory's address.
pub open spec fn filter_for(topic: Seq<u8>, setup: SetupView, from_block: u64, to_block: u64)
    -> LogFilterView {
    match setup {
        SetupView::Address(d) => LogFilterView {
            address: Some(d.address),
            topic0: topic,
            topic1: None,
            topic2: None,
            topic3: None,
            from_block,
            to_block,
        },
        SetupView::Filter(d) => LogFilterView {
            address: None,
            topic0: topic,
            topic1: match d.indexed_filters {
                Some(f) => f.indexed_1,
                None => None,
            },
            topic2: match d.indexed_filters {
                Some(f) => f.indexed_2,
                None => None,
            },
            topic3: match d.indexed_filters {
                Some(f) => f.indexed_3,
                None => None,
            },
            from_block,
            to_block,
        },
        SetupView::Factory(d) => LogFilterView {
            address: Some(AddressesView::Single(address_of_text(d.address).unwrap())),
            topic0: topic,
            topic1: None,
            topic2: None,
            topic3: None,
            from_block,
            to_block,
        },
    }
}

/// Builds the provider filter for one window of one event.
pub fn build_filter(
    topic_id: &TopicHash,
    indexing_contract_setup: &IndexingContractSetup,
    current_block: u64,
    next_block: u64,
) -> (filter: LogFilter)
    requires
        setup_usable(indexing_contract_setup@),
    ensures
        filter@ == filter_for(topic_id@, indexing_contract_setup@, current_block, next_block),
{
    match indexing_contract_setup {
        IndexingContractSetup::Address(details) => LogFilter {
            address: Some(details.address.copy()),
            topic0: *topic_id,
            topic1: None,
            topic2: None,
            topic3: None,
            from_block: current_block,
            to_block: next_block,
        },
        IndexingContractSetup::Filter(details) => {
            let (topic1, topic2, topic3) = match &details.indexed_filters {
                Some(f) => (
                    copy_topic_choice(&f.indexed_1),
                    copy_topic_choice(&f.indexed_2),
                    copy_topic_choice(&f.indexed_3),
                ),
                None => (None, None, None),
            };
            LogFilter {
                address: None,
                topic0: *topic_id,
                topic1,
                topic2,
                topic3,
                from_block: current_block,
                to_block: next_block,
            }
        },
        IndexingContractSetup::Factory(factory) => {
            let parsed = parse_address(factory.address.as_str());
            let address = parsed.unwrap();
            LogFilter {
                address: Some(ContractAddresses::Single(address)),
                topic0: *topic_id,
                topic1: None,
                topic2: None,
                topic3: None,
                from_block: current_block,
                to_block: next_block,
            }
        },
    }
}

/// Builds the provider filter where the setup is usable, and `None` where the
/// text of a factory address does not parse.
pub fn try_build_filter(
    topic_id: &TopicHash,
    indexing_contract_setup: &IndexingContractSetup,
    current_block: u64,
    next_block: u64,
) -> (r: Option<LogFilter>)
    ensures
        r is Some <==> setup_usable(indexing_contract_setup@),
        r matches Some(filter) ==> filter@ == filter_for(
            topic_id@,
            indexing_contract_setup@,
            current_block,
            next_block,
        ),
{
    let usable = match indexing_contract_setup {
        IndexingContractSetup::Factory(factory) => parse_address(
            factory.address.as_str(),
        ).is_some(),
        _ => true,
    };
    if usable {
        Some(build_filter(topic_id, indexing_contract_setup, current_block, next_block))
    } else {
        None
    }
}

} // verus!
