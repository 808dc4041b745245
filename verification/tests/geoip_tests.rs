use bitbridge::geoip::{detect_continent, relay_region};
use bitbridge::netaddr::IpAddress;
use bitbridge::turn_select::Continent;

#[test]
fn addresses_that_are_not_routable_have_no_region() {
    assert_eq!(relay_region(b"not a database", IpAddress::V4(10, 0, 0, 1)), None);
    assert_eq!(relay_region(b"not a database", IpAddress::V4(127, 0, 0, 1)), None);
}

#[test]
fn a_database_that_cannot_be_read_gives_no_region() {
    assert_eq!(relay_region(b"not a database", IpAddress::V4(8, 8, 8, 8)), None);
    assert_eq!(relay_region(&[], IpAddress::V6(0x2001, 0x4860, 0, 0, 0, 0, 0, 0x8888)), None);
}

#[test]
fn without_a_usable_database_the_continent_is_unknown() {
    assert_eq!(detect_continent("8.8.8.8", None), Continent::Unknown);
    assert_eq!(detect_continent("8.8.8.8", Some(b"not a database")), Continent::Unknown);
    assert_eq!(detect_continent("not an address", Some(b"not a database")), Continent::Unknown);
}
