//! How a contract is bound to the networks it is indexed on.

use vstd::prelude::*;
use vstd::string::StringExecFns;
use crate::primitives::{copy_topic_choice, topic_choice_view, Address, TopicHash};

verus! {

/// One address or a list of addresses that a log filter is constrained to.
#[derive(Clone, Debug, PartialEq, Eq)]
pub enum ContractAddresses {
    Single(Address),
    Many(Vec<Address>),
}

/// The mathematical content of [`ContractAddresses`].
pub enum AddressesView {
    Single(Seq<u8>),
    Many(Seq<Seq<u8>>),
}

/// The view of a list of addresses.
pub open spec fn addresses_view(list: Seq<Address>) -> Seq<Seq<u8>> {
    Seq::new(list.len(), |i: int| list[i]@)
}

impl View for ContractAddresses {
    type V = AddressesView;

    open spec fn view(&self) -> AddressesView {
        match self {
            ContractAddresses::Single(a) => AddressesView::Single(a@),
            ContractAddresses::Many(list) => AddressesView::Many(addresses_view(list@)),
        }
    }
}

impl ContractAddresses {
    /// A copy with the same content.
    pub fn copy(&self) -> (r: ContractAddresses)
        ensures
            r@ == self@,
    {
        match self {
            ContractAddresses::Single(a) => ContractAddresses::Single(*a),
            ContractAddresses::Many(list) => {
                let mut out: Vec<Address> = Vec::new();
                let mut i: usize = 0;
                while i < list.len()
                    invariant
                        i <= list.len(),
                        out@ == list@.take(i as int),
                    decreases list.len() - i,
                {
                    out.push(list[i]);
                    assert(list@.take(i as int + 1) == list@.take(i as int).push(list@[i as int]));
                    i += 1;
                }
                assert(list@.take(list@.len() as int) == list@);
                ContractAddresses::Many(out)
            },
        }
    }
}

/// Constraints on the indexed topics of one event.
#[derive(Clone, Debug, PartialEq, Eq)]
pub struct EventInputIndexedFilters {
    pub event_name: String,
    pub indexed_1: Option<Vec<TopicHash>>,
    pub indexed_2: Option<Vec<TopicHash>>,
    pub indexed_3: Option<Vec<TopicHash>>,
}

/// The mathematical content of [`EventInputIndexedFilters`].
pub struct IndexedFiltersView {
    pub event_name: Seq<char>,
    pub indexed_1: Option<Seq<Seq<u8>>>,
    pub indexed_2: Option<Seq<Seq<u8>>>,
    pub indexed_3: Option<Seq<Seq<u8>>>,
}

impl View for EventInputIndexedFilters {
    type V = IndexedFiltersView;

    open spec fn view(&self) -> IndexedFiltersView {
        IndexedFiltersView {
            event_name: self.event_name@,
            indexed_1: topic_choice_view(self.indexed_1),
            indexed_2: topic_choice_view(self.indexed_2),
            indexed_3: topic_choice_view(self.indexed_3),
        }
    }
}

impl EventInputIndexedFilters {
    /// A copy with the same content.
    pub fn copy(&self) -> (r: EventInputIndexedFilters)
        ensures
            r@ == self@,
    {
        EventInputIndexedFilters {
            event_name: self.event_name.clone(),
            indexed_1: copy_topic_choice(&self.indexed_1),
            indexed_2: copy_topic_choice(&self.indexed_2),
            indexed_3: copy_topic_choice(&self.indexed_3),
        }
    }
}

/// The view of a list of indexed-topic constraints.
pub open spec fn filters_view(list: Seq<EventInputIndexedFilters>) -> Seq<IndexedFiltersView> {
    Seq::new(list.len(), |i: int| list[i]@)
}

/// The view of an optional list of indexed-topic constraints.
pub open spec fn filter_list_view(choice: Option<Vec<EventInputIndexedFilters>>) -> Option<
    Seq<IndexedFiltersView>,
> {
    match choice {
        Some(list) => Some(filters_view(list@)),
        None => None,
    }
}

/// The view of one optional indexed-topic constraint.
pub open spec fn filter_choice_view(choice: Option<EventInputIndexedFilters>) -> Option<
    IndexedFiltersView,
> {
    match choice {
        Some(f) => Some(f@),
        None => None,
    }
}

/// A contract indexed by its address, or by a set of addresses.
#[derive(Clone, Debug, PartialEq, Eq)]
pub struct AddressDetails {
    pub address: ContractAddresses,
    pub indexed_filters: Option<Vec<EventInputIndexedFilters>>,
}

/// The mathematical content of [`AddressDetails`].
pub struct AddressDetailsView {
    pub address: AddressesView,
    pub indexed_filters: Option<Seq<IndexedFiltersView>>,
}

impl View for AddressDetails {
    type V = AddressDetailsView;

    open spec fn view(&self) -> AddressDetailsView {
        AddressDetailsView {
            address: self.address@,
            indexed_filters: filter_list_view(self.indexed_filters),
        }
    }
}

impl AddressDetails {
    /// A copy with the same content.
    pub fn copy(&self) -> (r: AddressDetails)
        ensures
            r@ == self@,
    {
        let indexed_filters = match &self.indexed_filters {
            None => None,
            Some(list) => {
                let mut out: Vec<EventInputIndexedFilters> = Vec::new();
                let mut i: usize = 0;
                while i < list.len()
                    invariant
                        i <= list.len(),
                        out@.len() == i,
                        forall|j: int| 0 <= j < i ==> (#[trigger] out@[j])@ == list@[j]@,
                    decreases list.len() - i,
                {
                    out.push(list[i].copy());
                    i += 1;
                }
                assert(filters_view(out@) =~= filters_view(list@));
                Some(out)
            },
        };
        AddressDetails { address: self.address.copy(), indexed_filters }
    }
}

/// A contract whose children are announced by a factory contract.
#[derive(Clone, Debug, PartialEq, Eq)]
pub struct FactoryDetails {
    pub address: String,
    pub event_name: String,
    pub parameter_name: String,
    pub abi: String,
}

/// The mathematical content of [`FactoryDetails`].
pub struct FactoryDetailsView {
    pub address: Seq<char>,
    pub event_name: Seq<char>,
    pub parameter_name: Seq<char>,
    pub abi: Seq<char>,
}

impl View for FactoryDetails {
    type V = FactoryDetailsView;

    open spec fn view(&self) -> FactoryDetailsView {
        FactoryDetailsView {
            address: self.address@,
            event_name: self.event_name@,
            parameter_name: self.parameter_name@,
            abi: self.abi@,
        }
    }
}

impl FactoryDetails {
    /// A copy with the same content.
    pub fn copy(&self) -> (r: FactoryDetails)
        ensures
            r@ == self@,
    {
        FactoryDetails {
            address: self.address.clone(),
            event_name: self.event_name.clone(),
            parameter_name: self.parameter_name.clone(),
            abi: self.abi.clone(),
        }
    }
}

/// An event indexed on every address, constrained by topics alone.
#[derive(Clone, Debug, PartialEq, Eq)]
pub struct FilterDetails {
    pub event_name: String,
    pub indexed_filters: Option<EventInputIndexedFilters>,
}

/// The mathematical content of [`FilterDetails`].
pub struct FilterDetailsView {
    pub event_name: Seq<char>,
    pub indexed_filters: Option<IndexedFiltersView>,
}

impl View for FilterDetails {
    type V = FilterDetailsView;

    open spec fn view(&self) -> FilterDetailsView {
        FilterDetailsView {
            event_name: self.event_name@,
            indexed_filters: filter_choice_view(self.indexed_filters),
        }
    }
}

impl FilterDetails {
    /// A copy with the same content.
    pub fn copy(&self) -> (r: FilterDetails)
        ensures
            r@ == self@,
    {
        let indexed_filters = match &self.indexed_filters {
            None => None,
            Some(f) => Some(f.copy()),
        };
        FilterDetails { event_name: self.event_name.clone(), indexed_filters }
    }
}

/// The way the logs of a contract are selected.
#[derive(Clone, Debug, PartialEq, Eq)]
pub enum IndexingContractSetup {
    Address(AddressDetails),
    Filter(FilterDetails),
    Factory(FactoryDetails),
}

/// The mathematical content of [`IndexingContractSetup`].
pub enum SetupView {
    Address(AddressDetailsView),
    Filter(FilterDetailsView),
    Factory(FactoryDetailsView),
}

impl View for IndexingContractSetup {
    type V = SetupView;

    open spec fn view(&self) -> SetupView {
        match self {
            IndexingContractSetup::Address(d) => SetupView::Address(d@),
            IndexingContractSetup::Filter(d) => SetupView::Filter(d@),
            IndexingContractSetup::Factory(d) => SetupView::Factory(d@),
        }
    }
}

impl IndexingContractSetup {
    /// Whether logs are selected by topics alone.
    pub fn is_filter(&self) -> (r: bool)
        ensures
            r == (self@ is Filter),
    {
        match self {
            IndexingContractSetup::Filter(_) => true,
            _ => false,
        }
    }

    /// A copy with the same content.
    pub fn copy(&self) -> (r: IndexingContractSetup)
        ensures
            r@ == self@,
    {
        match self {
            IndexingContractSetup::Address(d) => IndexingContractSetup::Address(d.copy()),
            IndexingContractSetup::Filter(d) => IndexingContractSetup::Filter(d.copy()),
            IndexingContractSetup::Factory(d) => IndexingContractSetup::Factory(d.copy()),
        }
    }
}

/// A contract as indexed on one network.
#[derive(Clone, Debug, PartialEq, Eq)]
pub struct NetworkContract {
    /// An opaque id, unique among the contracts of a run.
    pub id: String,
    pub network: String,
    pub indexing_contract_setup: IndexingContractSetup,
    /// The handle of the provider that serves `network`.
    pub cached_provider: usize,
    /// The handle of the decoder of the contract's logs.
    pub decoder: usize,
    pub start_block: Option<u64>,
    /// The last block to index; `None` keeps the contract indexed live.
    pub end_block: Option<u64>,
}

/// The mathematical content of [`NetworkContract`].
pub struct NetworkContractView {
    pub id: Seq<char>,
    pub network: Seq<char>,
    pub indexing_contract_setup: SetupView,
    pub cached_provider: usize,
    pub decoder: usize,
    pub start_block: Option<u64>,
    pub end_block: Option<u64>,
}

impl View for NetworkContract {
    type V = NetworkContractView;

    open spec fn view(&self) -> NetworkContractView {
        NetworkContractView {
            id: self.id@,
            network: self.network@,
            indexing_contract_setup: self.indexing_contract_setup@,
            cached_provider: self.cached_provider,
            decoder: self.decoder,
            start_block: self.start_block,
            end_block: self.end_block,
        }
    }
}

impl NetworkContract {
    /// A copy with the same content.
    pub fn copy(&self) -> (r: NetworkContract)
        ensures
            r@ == self@,
    {
        NetworkContract {
            id: self.id.clone(),
            network: self.network.clone(),
            indexing_contract_setup: self.indexing_contract_setup.copy(),
            cached_provider: self.cached_provider,
            decoder: self.decoder,
            start_block: self.start_block,
            end_block: self.end_block,
        }
    }
}

/// A contract with its bindings to networks.
#[derive(Clone, Debug, PartialEq, Eq)]
pub struct ContractInformation {
    pub name: String,
    pub details: Vec<NetworkContract>,
    pub abi: String,
    /// Whether the contract is indexed a safe distance behind the head.
    pub reorg_safe_distance: bool,
}

/// Why the bindings of a contract could not be made.
#[derive(Clone, Debug, PartialEq, Eq)]
pub enum CreateContractInformationError {
    CanNotFindNetworkFromProviders(String),
}

impl CreateContractInformationError {
    /// The error as a sentence.
    pub fn message(&self) -> (r: String)
        ensures
            r@ == "Can not find network "@ + self->0@ + " from providers"@,
    {
        match self {
            CreateContractInformationError::CanNotFindNetworkFromProviders(network) => {
                let mut text = String::from_str("Can not find network ");
                text.append(network.as_str());
                text.append(" from providers");
                text
            },
        }
    }
}

/// Names an event of a contract.
#[derive(Clone, Debug, PartialEq, Eq, Hash)]
pub struct ContractEventMapping {
    pub contract_name: String,
    pub event_name: String,
}

/// One network entry of a contract declaration.
#[derive(Clone, Debug, PartialEq, Eq)]
pub struct ContractDetails {
    pub network: String,
    pub indexing_contract_setup: IndexingContractSetup,
    pub start_block: Option<u64>,
    pub end_block: Option<u64>,
}

/// A contract as declared: its name, its network entries and its options.
#[derive(Clone, Debug, PartialEq, Eq)]
pub struct Contract {
    pub name: String,
    pub details: Vec<ContractDetails>,
    pub abi: String,
    pub reorg_safe_distance: Option<bool>,
}

/// A provider and the name of the network it serves.
#[derive(Clone, Debug, PartialEq, Eq)]
pub struct CreateNetworkProvider {
    pub network_name: String,
    /// The handle under which the caller keeps the provider's client.
    pub client: usize,
}

/// Whether some provider serves `network`.
pub open spec fn has_provider(providers: Seq<CreateNetworkProvider>, network: Seq<char>) -> bool {
    exists|k: int| 0 <= k < providers.len() && (#[trigger] providers[k]).network_name@ == network
}

/// Whether `k` is the first provider that serves `network`.
pub open spec fn is_first_provider(
    providers: Seq<CreateNetworkProvider>,
    network: Seq<char>,
    k: int,
) -> bool {
    &&& 0 <= k < providers.len()
    &&& providers[k].network_name@ == network
    &&& forall|j: int| 0 <= j < k ==> (#[trigger] providers[j]).network_name@ != network
}

/// The first provider that serves `network`.
pub fn find_provider(providers: &Vec<CreateNetworkProvider>, network: &String) -> (r: Option<usize>)
    ensures
        r matches Some(k) ==> is_first_provider(providers@, network@, k as int),
        r is None ==> !has_provider(providers@, network@),
{
    let mut k: usize = 0;
    while k < providers.len()
        invariant
            k <= providers.len(),
            forall|j: int| 0 <= j < k ==> (#[trigger] providers@[j]).network_name@ != network@,
        decreases providers.len() - k,
    {
        if providers[k].network_name == *network {
            return Some(k);
        }
        k += 1;
    }
    None
}

/// Whether `bound` is the binding of `declared` made with the id `id`, the
/// decoder `decoder` and the first provider of the entry's network.
pub open spec fn is_binding_of(
    bound: NetworkContractView,
    declared: ContractDetails,
    providers: Seq<CreateNetworkProvider>,
    decoder: usize,
    id: Seq<char>,
) -> bool {
    &&& bound.id == id
    &&& bound.network == declared.network@
    &&& bound.indexing_contract_setup == declared.indexing_contract_setup@
    &&& bound.decoder == decoder
    &&& bound.start_block == declared.start_block
    &&& bound.end_block == declared.end_block
    &&& exists|k: int| #[trigger]
        is_first_provider(providers, declared.network@, k) && bound.cached_provider
            == providers[k].client
}

impl ContractInformation {
    /// Binds each network entry of `contract` to the first provider that
    /// serves its network.
    ///
    /// `ids` gives the ids of the bindings in the order of the entries. The
    /// first entry whose network no provider serves fails the whole binding.
    pub fn create(
        contract: &Contract,
        network_providers: &Vec<CreateNetworkProvider>,
        decoder: usize,
        ids: &Vec<String>,
    ) -> (r: Result<ContractInformation, CreateContractInformationError>)
        requires
            ids@.len() == contract.details@.len(),
        ensures
            r is Ok <==> forall|i: int|
                0 <= i < contract.details@.len() ==> has_provider(
                    network_providers@,
                    (#[trigger] contract.details@[i]).network@,
                ),
            r matches Ok(info) ==> {
                &&& info.name@ == contract.name@
                &&& info.abi@ == contract.abi@
                &&& info.reorg_safe_distance == (contract.reorg_safe_distance == Some(true))
                &&& info.details@.len() == contract.details@.len()
                &&& forall|i: int|
                    0 <= i < contract.details@.len() ==> is_binding_of(
                        (#[trigger] info.details@[i])@,
                        contract.details@[i],
                        network_providers@,
                        decoder,
                        ids@[i]@,
                    )
            },
            r matches Err(CreateContractInformationError::CanNotFindNetworkFromProviders(network))
                ==> exists|i: int|
                {
                    &&& 0 <= i < contract.details@.len()
                    &&& network@ == (#[trigger] contract.details@[i]).network@
                    &&& !has_provider(network_providers@, network@)
                    &&& forall|j: int|
                        0 <= j < i ==> has_provider(
                            network_providers@,
                            (#[trigger] contract.details@[j]).network@,
                        )
                },
    {
        let mut details: Vec<NetworkContract> = Vec::new();
        let mut i: usize = 0;
        while i < contract.details.len()
            invariant
                i <= contract.details@.len(),
                ids@.len() == contract.details@.len(),
                details@.len() == i,
                forall|j: int|
                    0 <= j < i ==> has_provider(
                        network_providers@,
                        (#[trigger] contract.details@[j]).network@,
                    ),
                forall|j: int|
                    0 <= j < i ==> is_binding_of(
                        (#[trigger] details@[j])@,
                        contract.details@[j],
                        network_providers@,
                        decoder,
                        ids@[j]@,
                    ),
            decreases contract.details@.len() - i,
        {
            let c = &contract.details[i];
            match find_provider(network_providers, &c.network) {
                None => {
                    return Err(
                        CreateContractInformationError::CanNotFindNetworkFromProviders(
                            c.network.clone(),
                        ),
                    );
                },
                Some(k) => {
                    let bound = NetworkContract {
                        id: ids[i].clone(),
                        network: c.network.clone(),
                        indexing_contract_setup: c.indexing_contract_setup.copy(),
                        cached_provider: network_providers[k].client,
                        decoder,
                        start_block: c.start_block,
                        end_block: c.end_block,
                    };
                    assert(is_first_provider(network_providers@, c.network@, k as int));
                    assert(is_binding_of(bound@, *c, network_providers@, decoder, ids@[i as int]@));
                    details.push(bound);
                },
            }
            i += 1;
        }
        let reorg_safe_distance = match contract.reorg_safe_distance {
            Some(flag) => flag,
            None => false,
        };
        Ok(
            ContractInformation {
                name: contract.name.clone(),
                details,
                abi: contract.abi.clone(),
                reorg_safe_distance,
            },
        )
    }
}

} // verus!
