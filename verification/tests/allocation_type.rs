use nico_api::address_selection_strategy::{AddressSelectionStrategy, IpAddress};
use nico_api::allocation_type::AllocationType;

#[test]
fn next_available_ip_is_dhcp() {
    assert_eq!(
        AllocationType::from(AddressSelectionStrategy::NextAvailableIp),
        AllocationType::Dhcp,
    );
}

#[test]
fn automatic_is_dhcp() {
    assert_eq!(
        AllocationType::from(AddressSelectionStrategy::Automatic),
        AllocationType::Dhcp,
    );
}

#[test]
fn next_available_prefix_is_dhcp() {
    assert_eq!(
        AllocationType::from(AddressSelectionStrategy::NextAvailablePrefix(30)),
        AllocationType::Dhcp,
    );
}

#[test]
fn static_address_is_static() {
    assert_eq!(
        AllocationType::from(AddressSelectionStrategy::StaticAddress(IpAddress::V4(10, 0, 0, 1))),
        AllocationType::Static,
    );
}

#[test]
fn static_ipv6_address_is_static() {
    assert_eq!(
        AllocationType::from(AddressSelectionStrategy::StaticAddress(IpAddress::V6(1))),
        AllocationType::Static,
    );
}

#[test]
fn serde_roundtrip() {
    let name: String = serde_json::from_str(r#""dhcp""#).unwrap();
    let dhcp = AllocationType::from_name(&name).unwrap();
    assert_eq!(dhcp, AllocationType::Dhcp);

    let name: String = serde_json::from_str(r#""static""#).unwrap();
    let static_ = AllocationType::from_name(&name).unwrap();
    assert_eq!(static_, AllocationType::Static);

    assert_eq!(
        serde_json::to_string(AllocationType::Dhcp.as_str()).unwrap(),
        r#""dhcp""#
    );
    assert_eq!(
        serde_json::to_string(AllocationType::Static.as_str()).unwrap(),
        r#""static""#
    );
}

#[test]
fn names_read_back_and_others_do_not() {
    for allocation in [AllocationType::Dhcp, AllocationType::Static] {
        assert_eq!(AllocationType::from_name(allocation.as_str()), Some(allocation));
    }
    for other in ["", "Dhcp", "dhcp ", "dhc", "STATIC", "statics"] {
        assert_eq!(AllocationType::from_name(other), None);
    }
}
