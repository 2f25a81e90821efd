//! How an IP address came to be allocated.

use crate::address_selection_strategy::{AddressSelectionStrategy, IpAddress};
use crate::text;
use vstd::prelude::*;

verus! {

/// Distinguishes how an IP address was allocated to a machine interface,
/// and is generally derived from the [`AddressSelectionStrategy`] used.
///
/// - `Dhcp`: These addresses are allocated and managed by carbide-dhcp,
///   or a DHCP service that integrates directly with carbide-api.
/// - `Static`: These addresses are assigned and managed explicitly by
///   an operator or operator-provided configuration.
#[derive(Debug, Clone, Copy, PartialEq, Eq, Structural)]
pub enum AllocationType {
    Dhcp,
    Static,
}

impl AllocationType {
    /// The name under which the type is stored and sent.
    pub open spec fn name(&self) -> Seq<char> {
        match self {
            AllocationType::Dhcp => "dhcp"@,
            AllocationType::Static => "static"@,
        }
    }

    /// The name under which the type is stored and sent.
    pub fn as_str(&self) -> (name: &'static str)
        ensures
            name@ == self.name(),
            self is Dhcp ==> name@ == "dhcp"@,
            self is Static ==> name@ == "static"@,
    {
        match self {
            AllocationType::Dhcp => "dhcp",
            AllocationType::Static => "static",
        }
    }

    /// The type that is stored and sent under `name`.
    pub fn from_name(name: &str) -> (allocation: Option<AllocationType>)
        ensures
            forall|a: AllocationType|
                allocation == Some(a) <==> #[trigger] a.name() == name@,
            allocation == Some(AllocationType::Dhcp) <==> name@ == "dhcp"@,
            allocation == Some(AllocationType::Static) <==> name@ == "static"@,
    {
        proof {
            names_differ(AllocationType::Dhcp, AllocationType::Static);
        }
        if text::same_text(name, "dhcp") {
            Some(AllocationType::Dhcp)
        } else if text::same_text(name, "static") {
            Some(AllocationType::Static)
        } else {
            None
        }
    }
}

/// A name stands for one type only, so what is stored or sent is read back as it was.
pub proof fn names_differ(a: AllocationType, b: AllocationType)
    ensures
        a.name() == b.name() ==> a == b,
{
    reveal_strlit("dhcp");
    reveal_strlit("static");
    assert("dhcp"@.len() != "static"@.len());
}

/// Only an address that an operator gave is static.
pub open spec fn allocation_of(strategy: AddressSelectionStrategy) -> AllocationType {
    if strategy is StaticAddress {
        AllocationType::Static
    } else {
        AllocationType::Dhcp
    }
}

impl vstd::std_specs::convert::FromSpecImpl<AddressSelectionStrategy> for AllocationType {
    open spec fn obeys_from_spec() -> bool {
        true
    }

    open spec fn from_spec(strategy: AddressSelectionStrategy) -> AllocationType {
        allocation_of(strategy)
    }
}

impl From<AddressSelectionStrategy> for AllocationType {
    fn from(strategy: AddressSelectionStrategy) -> (allocation: AllocationType)
        ensures
            match strategy {
                AddressSelectionStrategy::StaticAddress(_) => allocation is Static,
                AddressSelectionStrategy::NextAvailableIp => allocation is Dhcp,
                AddressSelectionStrategy::Automatic => allocation is Dhcp,
                AddressSelectionStrategy::NextAvailablePrefix(_) => allocation is Dhcp,
            },
    {
        match strategy {
            AddressSelectionStrategy::NextAvailableIp => AllocationType::Dhcp,
            AddressSelectionStrategy::Automatic => AllocationType::Dhcp,
            AddressSelectionStrategy::NextAvailablePrefix(_) => AllocationType::Dhcp,
            AddressSelectionStrategy::StaticAddress(_) => AllocationType::Static,
        }
    }
}

/// Every address that an operator gave, of either family, is static.
pub proof fn given_address_is_static(address: IpAddress)
    ensures
        <AllocationType as vstd::std_specs::convert::FromSpec<
            AddressSelectionStrategy,
        >>::from_spec(AddressSelectionStrategy::StaticAddress(address)) is Static,
{
}

/// What was not given by an operator is managed by DHCP: the next free address, an
/// automatic choice, and the next free prefix of any length.
pub proof fn chosen_address_is_dhcp(prefix_length: u8)
    ensures
        <AllocationType as vstd::std_specs::convert::FromSpec<
            AddressSelectionStrategy,
        >>::from_spec(AddressSelectionStrategy::NextAvailableIp) is Dhcp,
        <AllocationType as vstd::std_specs::convert::FromSpec<
            AddressSelectionStrategy,
        >>::from_spec(AddressSelectionStrategy::Automatic) is Dhcp,
        <AllocationType as vstd::std_specs::convert::FromSpec<
            AddressSelectionStrategy,
        >>::from_spec(AddressSelectionStrategy::NextAvailablePrefix(prefix_length)) is Dhcp,
{
}

/// What [`AllocationType::from`] makes of a strategy is static if and only if an operator gave
/// the address, whatever the address is.
pub proof fn only_a_given_address_is_static(
    strategy: AddressSelectionStrategy,
    allocation: AllocationType,
)
    requires
        call_ensures(
            <AllocationType as From<AddressSelectionStrategy>>::from,
            (strategy,),
            allocation,
        ),
    ensures
        allocation is Static <==> exists|address: IpAddress|
            strategy == AddressSelectionStrategy::StaticAddress(address),
        allocation is Dhcp <==> strategy == AddressSelectionStrategy::NextAvailableIp || strategy
            == AddressSelectionStrategy::Automatic || exists|prefix_length: u8|
            strategy == AddressSelectionStrategy::NextAvailablePrefix(prefix_length),
{
    match strategy {
        AddressSelectionStrategy::StaticAddress(address) => {
            assert(strategy == AddressSelectionStrategy::StaticAddress(address));
        },
        AddressSelectionStrategy::NextAvailablePrefix(prefix_length) => {
            assert(strategy == AddressSelectionStrategy::NextAvailablePrefix(prefix_length));
        },
        _ => {},
    }
}

/// What was stored or sent under the name of a type is read back as that type, and no other
/// name is read as one.
pub proof fn names_are_read_back(
    allocation: AllocationType,
    name: &'static str,
    text: &str,
    read: Option<AllocationType>,
)
    requires
        call_ensures(AllocationType::as_str, (&allocation,), name),
        call_ensures(AllocationType::from_name, (text,), read),
    ensures
        read == Some(allocation) <==> text@ == name@,
        name@ == if allocation is Dhcp {
            "dhcp"@
        } else {
            "static"@
        },
        read is None <==> text@ != "dhcp"@ && text@ != "static"@,
{
    assert(read is Some ==> read == Some(AllocationType::Dhcp) || read == Some(
        AllocationType::Static,
    ));
}

} // verus!
