//! The create/get/update/delete/list decisions, with their exact messages
//! and derivations.

use hub_directory::error::ApiError;
use hub_directory::hub::{add_hub, decode_hub, delete_hub, get_hub, list_hubs, update_hub, Hub};
use hub_directory::json::Json;
use hub_directory::realm::{add_realm, delete_realm, get_realm, list_realms, Realm};
use hub_directory::routing_chain::{
    add_routing_chain, default_max_value_length, is_false, update_routing_chain, RoutingChain,
};
use hub_directory::service::{add_service, update_service, Service};
use hub_directory::subdomain::{add_subdomain, update_subdomain, Subdomain};
use hub_directory::virtual_host::{add_virtual_host, update_virtual_host, VirtualHost};
use hub_directory::zone::{add_zone, delete_zone, get_zone, update_zone, Zone};

fn s(x: &str) -> String {
    x.to_string()
}

fn sample_hub() -> Hub {
    Hub {
        name: s("h1"),
        realm: None,
        urn: None,
        title: s("Hub One"),
        description: None,
        fqdn: s("h1.acme.example"),
        server_port: None,
        server_cert: s("CERT"),
        server_cert_key: s("KEY"),
    }
}

#[test]
fn creating_a_hub_derives_realm_and_urn() {
    let stored = add_hub("acme", sample_hub(), false).unwrap();
    assert_eq!(stored.realm, Some(s("acme")));
    assert_eq!(stored.urn, Some(s("urn:chip-in:hub:acme:h1")));
    assert_eq!(stored.title, s("Hub One"));
    assert_eq!(stored.fqdn, s("h1.acme.example"));
}

#[test]
fn creating_a_hub_twice_conflicts_with_the_documented_message() {
    // the second call sees the key bound by the first
    let first = add_hub("acme", sample_hub(), false);
    assert!(first.is_ok());
    let second = add_hub("acme", sample_hub(), true);
    match second {
        Err(e @ ApiError::Conflict(_)) => {
            assert_eq!(e.status_code(), 409);
            match &e {
                ApiError::Conflict(m) => {
                    assert_eq!(m, "Hub 'h1' already exists in realm 'acme'.")
                }
                _ => unreachable!(),
            }
        }
        other => panic!("expected a conflict, got {:?}", other),
    }
}

#[test]
fn create_then_get_returns_the_stored_hub() {
    let stored = add_hub("acme", sample_hub(), false).unwrap();
    let doc = stored.to_json();
    let read = get_hub("acme", "h1", Some(&doc)).unwrap();
    assert_eq!(read, decode_hub(&doc).unwrap());
    assert_eq!(read.realm, Some(s("acme")));
    assert_eq!(read.urn, Some(s("urn:chip-in:hub:acme:h1")));
}

#[test]
fn getting_a_missing_hub_is_not_found() {
    match get_hub("acme", "h9", None) {
        Err(e @ ApiError::NotFound(_)) => {
            assert_eq!(e.status_code(), 404);
            match &e {
                ApiError::NotFound(m) => assert_eq!(m, "Hub 'h9' not found in realm 'acme'"),
                _ => unreachable!(),
            }
        }
        other => panic!("expected not-found, got {:?}", other),
    }
}

#[test]
fn deleting_a_hub_returns_the_value_last_written() {
    let written = update_hub("acme", sample_hub());
    let doc = written.to_json();
    let previous = delete_hub("acme", "h1", Some(&doc)).unwrap();
    assert_eq!(previous, written);
}

#[test]
fn deleting_a_missing_hub_is_not_found() {
    match delete_hub("acme", "h1", None) {
        Err(ApiError::NotFound(m)) => assert_eq!(m, "Hub 'h1' not found in realm 'acme'"),
        other => panic!("expected not-found, got {:?}", other),
    }
}

#[test]
fn listing_drops_malformed_documents_and_keeps_order() {
    let first = update_hub("acme", sample_hub());
    let mut second_src = sample_hub();
    second_src.name = s("h2");
    let second = update_hub("acme", second_src);
    let values = vec![
        first.to_json(),
        Json::Str(s("not a hub")),
        Json::Obj(vec![(s("name"), Json::Str(s("incomplete")))]),
        second.to_json(),
    ];
    let listed = list_hubs(&values);
    assert_eq!(listed, vec![first, second]);
}

#[test]
fn realm_listing_tolerates_documents_of_other_entities() {
    // a zone document sits under the realm listing's scan prefix; the
    // strict realm schema drops it instead of failing the listing
    let zone = add_zone("acme", sample_zone(), false).unwrap();
    let realm = Realm {
        name: s("acme"),
        title: s("Acme"),
        description: None,
        cacert: s("CA"),
        signing_key: s("KEY"),
        session_timeout: None,
        administrators: vec![],
        expired_at: None,
        disabled: false,
    };
    let stored_realm = add_realm(realm, false).unwrap();
    let values = vec![stored_realm.to_json(), zone.to_json()];
    let listed = list_realms(&values);
    assert_eq!(listed.len(), 1);
    assert_eq!(listed[0], stored_realm);
}

fn sample_zone() -> Zone {
    Zone {
        zone: s("example.com"),
        title: s("Example"),
        description: None,
        realm: None,
        dns_provider: None,
        acme_certificate_provider: None,
    }
}

#[test]
fn creating_a_realm_stores_it_as_submitted() {
    let realm = Realm {
        name: s("acme"),
        title: s("Acme"),
        description: None,
        cacert: s("CA"),
        signing_key: s("KEY"),
        session_timeout: None,
        administrators: vec![],
        expired_at: None,
        disabled: false,
    };
    let stored = add_realm(realm, false).unwrap();
    assert_eq!(stored.name, s("acme"));
    let conflict = add_realm(stored, true);
    match conflict {
        Err(ApiError::Conflict(m)) => assert_eq!(m, "Realm 'acme' already exists."),
        other => panic!("expected a conflict, got {:?}", other),
    }
}

#[test]
fn missing_realm_reads_and_deletes_are_not_found() {
    match get_realm("nowhere", None) {
        Err(ApiError::NotFound(m)) => assert_eq!(m, "Realm 'nowhere' not found."),
        other => panic!("expected not-found, got {:?}", other),
    }
    match delete_realm("nowhere", None) {
        Err(ApiError::NotFound(m)) => assert_eq!(m, "Realm 'nowhere' not found."),
        other => panic!("expected not-found, got {:?}", other),
    }
}

#[test]
fn creating_a_zone_derives_the_realm_urn() {
    let stored = add_zone("acme", sample_zone(), false).unwrap();
    assert_eq!(stored.realm, Some(s("urn:chip-in:realm:acme")));
    assert_eq!(stored.zone, s("example.com"));
}

#[test]
fn zone_conflict_names_zone_and_realm() {
    match add_zone("acme", sample_zone(), true) {
        Err(ApiError::Conflict(m)) => {
            assert_eq!(m, "Zone 'example.com' in realm 'acme' already exists.")
        }
        other => panic!("expected a conflict, got {:?}", other),
    }
}

#[test]
fn zone_update_requires_the_body_to_name_the_path_zone() {
    match update_zone("acme", "other.com", sample_zone()) {
        Err(ApiError::BadRequest(m)) => assert_eq!(
            m,
            "Zone name in path ('other.com') does not match name in body ('example.com')"
        ),
        other => panic!("expected a bad request, got {:?}", other),
    }
    let updated = update_zone("acme", "example.com", sample_zone()).unwrap();
    assert_eq!(updated.realm, Some(s("urn:chip-in:realm:acme")));
}

#[test]
fn missing_zone_reads_are_not_found() {
    match get_zone("acme", "nope.com", None) {
        Err(ApiError::NotFound(m)) => {
            assert_eq!(m, "Zone 'nope.com' not found in realm 'acme'")
        }
        other => panic!("expected not-found, got {:?}", other),
    }
    match delete_zone("acme", "nope.com", None) {
        Err(ApiError::NotFound(m)) => {
            assert_eq!(m, "Zone 'nope.com' not found in realm 'acme'")
        }
        other => panic!("expected not-found, got {:?}", other),
    }
}

#[test]
fn creating_a_subdomain_derives_zone_urn_and_fqdn() {
    let sub = Subdomain {
        name: s("www"),
        title: s("Web"),
        fqdn: Some(s("client-supplied-and-ignored")),
        zone: None,
        description: None,
        destination_realm: None,
        share_cookie: false,
    };
    let stored = add_subdomain("acme", "example.com", sub, false).unwrap();
    assert_eq!(stored.zone, Some(s("urn:chip-in:zone:acme:example.com")));
    assert_eq!(stored.fqdn, Some(s("www.example.com")));
}

#[test]
fn apex_subdomain_derives_the_zone_as_fqdn() {
    let sub = Subdomain {
        name: s("@"),
        title: s("Apex"),
        fqdn: None,
        zone: None,
        description: None,
        destination_realm: None,
        share_cookie: false,
    };
    let stored = update_subdomain("acme", "example.com", sub);
    assert_eq!(stored.fqdn, Some(s("example.com")));
}

#[test]
fn subdomain_conflict_names_subdomain_and_zone() {
    let sub = Subdomain {
        name: s("www"),
        title: s("Web"),
        fqdn: None,
        zone: None,
        description: None,
        destination_realm: None,
        share_cookie: false,
    };
    match add_subdomain("acme", "example.com", sub, true) {
        Err(ApiError::Conflict(m)) => {
            assert_eq!(m, "Subdomain 'www' already exists in zone 'example.com'.")
        }
        other => panic!("expected a conflict, got {:?}", other),
    }
}

#[test]
fn creating_a_virtual_host_resets_the_certificate_list() {
    let host = VirtualHost {
        name: s("shop"),
        title: s("Shop"),
        description: None,
        realm: None,
        subdomain: s("www"),
        routing_chain: s("main"),
        certificate: vec![s("smuggled")],
        key: None,
        disabled: false,
    };
    let stored = add_virtual_host("acme", host, false).unwrap();
    assert_eq!(stored.realm, Some(s("acme")));
    assert_eq!(stored.certificate, Vec::<String>::new());
}

#[test]
fn updating_a_virtual_host_keeps_the_certificate_list() {
    let host = VirtualHost {
        name: s("shop"),
        title: s("Shop"),
        description: None,
        realm: None,
        subdomain: s("www"),
        routing_chain: s("main"),
        certificate: vec![s("cert-1")],
        key: None,
        disabled: false,
    };
    let updated = update_virtual_host("acme", host);
    assert_eq!(updated.realm, Some(s("acme")));
    assert_eq!(updated.certificate, vec![s("cert-1")]);
}

#[test]
fn virtual_host_conflict_names_host_and_realm() {
    let host = VirtualHost {
        name: s("shop"),
        title: s("Shop"),
        description: None,
        realm: None,
        subdomain: s("www"),
        routing_chain: s("main"),
        certificate: vec![],
        key: None,
        disabled: false,
    };
    match add_virtual_host("acme", host, true) {
        Err(ApiError::Conflict(m)) => {
            assert_eq!(m, "VirtualHost 'shop' already exists in realm 'acme'.")
        }
        other => panic!("expected a conflict, got {:?}", other),
    }
}

#[test]
fn creating_a_routing_chain_derives_realm_and_urn() {
    let chain = RoutingChain {
        name: s("main"),
        realm: None,
        urn: None,
        title: s("Main"),
        description: None,
        rules: vec![],
    };
    let stored = add_routing_chain("acme", chain, false).unwrap();
    assert_eq!(stored.realm, Some(s("acme")));
    assert_eq!(stored.urn, Some(s("urn:chip-in:routing-chain:acme:main")));
    let again = update_routing_chain("other", stored);
    assert_eq!(again.realm, Some(s("other")));
    assert_eq!(again.urn, Some(s("urn:chip-in:routing-chain:other:main")));
}

#[test]
fn routing_chain_conflict_names_chain_and_realm() {
    let chain = RoutingChain {
        name: s("main"),
        realm: None,
        urn: None,
        title: s("Main"),
        description: None,
        rules: vec![],
    };
    match add_routing_chain("acme", chain, true) {
        Err(ApiError::Conflict(m)) => {
            assert_eq!(m, "RoutingChain 'main' already exists in realm 'acme'.")
        }
        other => panic!("expected a conflict, got {:?}", other),
    }
}

fn sample_service() -> Service {
    Service {
        name: s("svc"),
        hub: None,
        urn: None,
        title: s("Service"),
        description: None,
        realm: s("client-supplied"),
        hub_name: s("client-supplied"),
        availability_management: None,
        providers: vec![],
        consumers: vec![],
    }
}

#[test]
fn creating_a_service_derives_all_four_owned_fields() {
    let stored = add_service("acme", "h1", sample_service(), false).unwrap();
    assert_eq!(stored.realm, s("acme"));
    assert_eq!(stored.hub_name, s("h1"));
    assert_eq!(stored.hub, Some(s("urn:chip-in:hub:acme:h1")));
    assert_eq!(stored.urn, Some(s("urn:chip-in:service:acme:h1:svc")));
    let updated = update_service("acme", "h1", stored);
    assert_eq!(updated.urn, Some(s("urn:chip-in:service:acme:h1:svc")));
}

#[test]
fn service_conflict_names_service_and_hub() {
    match add_service("acme", "h1", sample_service(), true) {
        Err(ApiError::Conflict(m)) => {
            assert_eq!(m, "Service 'svc' already exists in hub 'h1'.")
        }
        other => panic!("expected a conflict, got {:?}", other),
    }
}

#[test]
fn malformed_stored_documents_surface_as_internal_errors() {
    let junk = Json::Str(s("rot"));
    match get_hub("acme", "h1", Some(&junk)) {
        Err(e @ ApiError::Internal(_)) => assert_eq!(e.status_code(), 500),
        other => panic!("expected an internal error, got {:?}", other),
    }
}

#[test]
fn error_envelope_carries_code_and_message() {
    let err = ApiError::Conflict(s("Hub 'h1' already exists in realm 'acme'."));
    match err.response_body() {
        Json::Obj(fields) => {
            assert_eq!(fields.len(), 2);
            assert_eq!(fields[0].0, s("code"));
            assert_eq!(fields[0].1, Json::Str(s("409")));
            assert_eq!(fields[1].0, s("message"));
            assert_eq!(
                fields[1].1,
                Json::Str(s("Hub 'h1' already exists in realm 'acme'."))
            );
        }
        _ => panic!("expected an object"),
    }
}

#[test]
fn internal_detail_is_masked_in_the_envelope() {
    let err = ApiError::Internal(s("backend exploded at 03:14"));
    match err.response_body() {
        Json::Obj(fields) => {
            assert_eq!(fields[0].1, Json::Str(s("500")));
            assert_eq!(fields[1].1, Json::Str(s("Internal server error")));
        }
        _ => panic!("expected an object"),
    }
}

#[test]
fn serialization_helpers_report_their_defaults() {
    assert!(is_false(&false));
    assert!(!is_false(&true));
    assert_eq!(default_max_value_length(), 512);
}
