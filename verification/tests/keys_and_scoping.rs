//! The key scheme: exact key strings, and the trailing separator that
//! keeps one parent's scan from straying into a sibling whose name it
//! prefixes.

use hub_directory::hub::{hub_key, hub_prefix};
use hub_directory::realm::realm_key;
use hub_directory::routing_chain::{routing_chain_key, routing_chain_prefix};
use hub_directory::service::{service_key, service_prefix};
use hub_directory::subdomain::{subdomain_key, subdomain_prefix};
use hub_directory::virtual_host::{virtual_host_key, virtual_host_prefix};
use hub_directory::zone::{zone_key, zone_prefix};

#[test]
fn keys_follow_the_documented_layout() {
    assert_eq!(realm_key("acme"), "/realms/acme");
    assert_eq!(zone_key("acme", "example.com"), "/realms/acme/zones/example.com");
    assert_eq!(
        subdomain_key("acme", "example.com", "www"),
        "/realms/acme/zones/example.com/subdomains/www"
    );
    assert_eq!(virtual_host_key("acme", "shop"), "/realms/acme/virtual-hosts/shop");
    assert_eq!(routing_chain_key("acme", "main"), "/realms/acme/routing-chains/main");
    assert_eq!(hub_key("acme", "h1"), "/realms/acme/hubs/h1");
    assert_eq!(service_key("acme", "h1", "svc"), "/realms/acme/hubs/h1/services/svc");
}

#[test]
fn prefixes_keep_their_trailing_separator() {
    assert_eq!(zone_prefix("acme"), "/realms/acme/zones/");
    assert_eq!(subdomain_prefix("acme", "example.com"), "/realms/acme/zones/example.com/subdomains/");
    assert_eq!(virtual_host_prefix("acme"), "/realms/acme/virtual-hosts/");
    assert_eq!(routing_chain_prefix("acme"), "/realms/acme/routing-chains/");
    assert_eq!(hub_prefix("acme"), "/realms/acme/hubs/");
    assert_eq!(service_prefix("acme", "h1"), "/realms/acme/hubs/h1/services/");
}

#[test]
fn a_scan_under_one_realm_misses_a_sibling_it_prefixes() {
    // realm "foo" is a string prefix of realm "foobar": without the
    // trailing separator the scan under "foo" would cover "foobar"'s keys
    let scan = zone_prefix("foo");
    let sibling_key = zone_key("foobar", "example.com");
    assert!(!sibling_key.starts_with(scan.as_str()));
    let own_key = zone_key("foo", "example.com");
    assert!(own_key.starts_with(scan.as_str()));
}

#[test]
fn a_scan_under_one_hub_misses_a_sibling_it_prefixes() {
    let scan = service_prefix("acme", "h1");
    assert!(!service_key("acme", "h10", "svc").starts_with(scan.as_str()));
    assert!(!service_key("acmex", "h1", "svc").starts_with(scan.as_str()));
    assert!(service_key("acme", "h1", "svc").starts_with(scan.as_str()));
}

#[test]
fn hub_and_routing_chain_scans_respect_realm_boundaries() {
    assert!(!hub_key("foobar", "h1").starts_with(hub_prefix("foo").as_str()));
    assert!(!routing_chain_key("foobar", "main").starts_with(routing_chain_prefix("foo").as_str()));
    assert!(!virtual_host_key("foobar", "shop").starts_with(virtual_host_prefix("foo").as_str()));
    assert!(
        !subdomain_key("acme", "exam", "www")
            .starts_with(subdomain_prefix("acme", "ex").as_str())
    );
}
