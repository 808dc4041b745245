//! GeoIP lookups in a MaxMind database held in memory: the region a relay
//! serves, from the country of its public address, and the continent of a
//! signalling client, from the country and state of its address.

use vstd::prelude::*;

use maxminddb::geoip2::{City, Country};
use maxminddb::Reader;

use crate::ipparse::{parse_ip, parse_ip_spec};
use crate::netaddr::{is_routable_global, is_routable_global_spec, IpAddress};
use crate::region::{region_for_lookup, region_of_country, region_view};
use crate::text::chars_of;
use crate::turn_select::{continent_for, continent_for_spec, Continent};

verus! {

/// The ISO country code the MaxMind database `db` gives for `ip` (as a
/// `geoip2::Country` record), if it has one.
pub uninterp spec fn geoip_country_code(db: Seq<u8>, ip: IpAddress) -> Option<Seq<char>>;

/// The ISO country code and the ISO code of the first (largest) subdivision
/// the MaxMind database `db` gives for `ip` (as a `geoip2::City` record).
pub uninterp spec fn geoip_city_codes(db: Seq<u8>, ip: IpAddress) -> (Option<Seq<char>>, Option<Seq<char>>);

/// `Reader::from_source`, `Reader::lookup` and `LookupResult::decode` into a
/// `geoip2::Country` of `maxminddb`, giving the country's ISO code. Claims
/// that the code is a function of the database bytes and the address.
#[verifier::external_body]
fn geoip_country(db: &[u8], ip: IpAddress) -> (r: Option<String>)
    ensures
        geoip_country_code(db@, ip) == match r {
            Some(c) => Some(c@),
            None => None,
        },
{
    let addr = match ip {
        IpAddress::V4(a, b, c, d) => [a, b, c, d].into(),
        IpAddress::V6(s0, s1, s2, s3, s4, s5, s6, s7) => [s0, s1, s2, s3, s4, s5, s6, s7].into(),
    };
    let reader = Reader::from_source(db).ok()?;
    let country: Country = reader.lookup(addr).ok()?.decode().ok()??;
    country.country.iso_code.map(str::to_string)
}

/// `Reader::from_source`, `Reader::lookup` and `LookupResult::decode` into a
/// `geoip2::City` of `maxminddb`, giving the country's ISO code and that of
/// the first subdivision; neither where the lookup fails. Claims that the
/// codes are a function of the database bytes and the address.
#[verifier::external_body]
fn geoip_city(db: &[u8], ip: IpAddress) -> (r: (Option<String>, Option<String>))
    ensures
        geoip_city_codes(db@, ip) == (
            match r.0 {
                Some(c) => Some(c@),
                None => None,
            },
            match r.1 {
                Some(s) => Some(s@),
                None => None,
            },
        ),
{
    let addr = match ip {
        IpAddress::V4(a, b, c, d) => [a, b, c, d].into(),
        IpAddress::V6(s0, s1, s2, s3, s4, s5, s6, s7) => [s0, s1, s2, s3, s4, s5, s6, s7].into(),
    };
    let Ok(reader) = Reader::from_source(db) else { return (None, None) };
    let Ok(found) = reader.lookup(addr) else { return (None, None) };
    let Ok(Some(city)) = found.decode::<City>() else { return (None, None) };
    let sub = match city.subdivisions.first() {
        Some(s) => s.iso_code,
        None => None,
    };
    (city.country.iso_code.map(str::to_string), sub.map(str::to_string))
}

/// The region of a relay whose public address is `addr`, by the GeoIP
/// database `db`: none for an address that is not globally routable (it is
/// not looked up), else the region of the country the database gives.
pub fn relay_region(db: &[u8], addr: IpAddress) -> (r: Option<&'static str>)
    ensures
        region_view(r) == (if !is_routable_global_spec(addr) {
            None
        } else {
            match geoip_country_code(db@, addr) {
                Some(code) => region_of_country(code),
                None => None,
            }
        }),
{
    if !is_routable_global(addr) {
        return None;
    }
    match geoip_country(db, addr) {
        Some(code) => region_for_lookup(addr, Some(code.as_str())),
        None => None,
    }
}

/// The continent of a client connecting from `ip`, by the GeoIP database
/// `db`: `Unknown` without a database or where `ip` is no IP address, else
/// the continent of the country and state the database gives (see
/// `continent_for`).
pub fn detect_continent(ip: &str, db: Option<&[u8]>) -> (r: Continent)
    ensures
        r == match db {
            None => Continent::Unknown,
            Some(d) => match parse_ip_spec(ip@) {
                None => Continent::Unknown,
                Some(a) => continent_for_spec(geoip_city_codes(d@, a).0, geoip_city_codes(d@, a).1),
            },
        },
{
    let d = match db {
        Some(d) => d,
        None => return Continent::Unknown,
    };
    let addr = match parse_ip(&chars_of(ip)) {
        Some(a) => a,
        None => return Continent::Unknown,
    };
    let (country, subdivision) = geoip_city(d, addr);
    let c: Option<&str> = match &country {
        Some(c) => Some(c.as_str()),
        None => None,
    };
    let s: Option<&str> = match &subdivision {
        Some(s) => Some(s.as_str()),
        None => None,
    };
    continent_for(c, s)
}

} // verus!
