//! Writing an entity as a document and reading it back yields the entity.

use hub_directory::hub::{decode_hub, Hub};
use hub_directory::json::Json;
use hub_directory::realm::{decode_realm, Realm};
use hub_directory::routing_chain::{
    decode_routing_chain, AccessLogAction, Action, JumpAction, ProxyAction, RedirectAction,
    RoutingChain, Rule, SetHeadersAction, SetVariablesAction,
};
use hub_directory::service::{decode_service, AvailabilityManagement, Service};
use hub_directory::subdomain::{decode_subdomain, Subdomain};
use hub_directory::virtual_host::{decode_virtual_host, VirtualHost};
use hub_directory::zone::{decode_zone, Zone};

fn s(x: &str) -> String {
    x.to_string()
}

#[test]
fn realm_round_trips_with_all_fields() {
    let realm = Realm {
        name: s("acme"),
        title: s("Acme"),
        description: Some(s("the acme realm")),
        cacert: s("CA"),
        signing_key: s("KEY"),
        session_timeout: Some(3600),
        administrators: vec![s("alice"), s("bob")],
        expired_at: Some(s("2030-01-01")),
        disabled: false,
    };
    let doc = realm.to_json();
    assert_eq!(decode_realm(&doc).unwrap(), realm);
}

#[test]
fn realm_round_trips_with_minimal_fields() {
    let realm = Realm {
        name: s("acme"),
        title: s("Acme"),
        description: None,
        cacert: s("CA"),
        signing_key: s("KEY"),
        session_timeout: None,
        administrators: vec![],
        expired_at: None,
        disabled: true,
    };
    let doc = realm.to_json();
    assert_eq!(decode_realm(&doc).unwrap(), realm);
}

#[test]
fn zone_round_trips() {
    let zone = Zone {
        zone: s("example.com"),
        title: s("Example"),
        description: None,
        realm: Some(s("urn:chip-in:realm:acme")),
        dns_provider: Some(s("route53")),
        acme_certificate_provider: None,
    };
    let doc = zone.to_json();
    assert_eq!(decode_zone(&doc).unwrap(), zone);
}

#[test]
fn subdomain_round_trips() {
    let sub = Subdomain {
        name: s("www"),
        title: s("Web"),
        fqdn: Some(s("www.example.com")),
        zone: Some(s("urn:chip-in:zone:acme:example.com")),
        description: None,
        destination_realm: None,
        share_cookie: true,
    };
    let doc = sub.to_json();
    assert_eq!(decode_subdomain(&doc).unwrap(), sub);
}

#[test]
fn virtual_host_round_trips() {
    let host = VirtualHost {
        name: s("shop"),
        title: s("Shop"),
        description: None,
        realm: Some(s("acme")),
        subdomain: s("www"),
        routing_chain: s("main"),
        certificate: vec![s("cert-1"), s("cert-2")],
        key: Some(s("key-1")),
        disabled: false,
    };
    let doc = host.to_json();
    assert_eq!(decode_virtual_host(&doc).unwrap(), host);
}

#[test]
fn hub_round_trips() {
    let hub = Hub {
        name: s("h1"),
        realm: Some(s("acme")),
        urn: Some(s("urn:chip-in:hub:acme:h1")),
        title: s("Hub One"),
        description: None,
        fqdn: s("h1.acme.example"),
        server_port: Some(8443),
        server_cert: s("CERT"),
        server_cert_key: s("CERTKEY"),
    };
    let doc = hub.to_json();
    assert_eq!(decode_hub(&doc).unwrap(), hub);
}

#[test]
fn service_round_trips_without_availability() {
    let service = Service {
        name: s("svc"),
        hub: None,
        urn: None,
        title: s("Service"),
        description: None,
        realm: s("acme"),
        hub_name: s("h1"),
        availability_management: None,
        providers: vec![s("p1")],
        consumers: vec![],
    };
    let doc = service.to_json();
    assert_eq!(decode_service(&doc).unwrap(), service);
}

#[test]
fn service_round_trips_with_availability() {
    let service = Service {
        name: s("svc"),
        hub: Some(s("urn:chip-in:hub:acme:h1")),
        urn: Some(s("urn:chip-in:service:acme:h1:svc")),
        title: s("Service"),
        description: Some(s("a service")),
        realm: s("acme"),
        hub_name: s("h1"),
        availability_management: Some(AvailabilityManagement {
            cluster_manager_urn: s("urn:cm:1"),
            service_id: s("svc-id"),
            start_at: Some(s("08:00")),
            stop_at: None,
            ondemand_start: true,
            idel_timeout: Some(300),
        }),
        providers: vec![s("p1"), s("p2")],
        consumers: vec![s("c1")],
    };
    let doc = service.to_json();
    assert_eq!(decode_service(&doc).unwrap(), service);
}

#[test]
fn routing_chain_round_trips_with_every_action_kind() {
    let chain = RoutingChain {
        name: s("main"),
        realm: Some(s("acme")),
        urn: Some(s("urn:chip-in:routing-chain:acme:main")),
        title: s("Main"),
        description: None,
        rules: vec![
            Rule {
                match_expr: s("/api/*"),
                action: Action::Proxy(ProxyAction { target: s("backend"), no_body: true }),
            },
            Rule {
                match_expr: s("/old/*"),
                action: Action::Redirect(RedirectAction { target: s("/new") }),
            },
            Rule {
                match_expr: s("/alt/*"),
                action: Action::Jump(JumpAction { target: s("other-chain") }),
            },
            Rule {
                match_expr: s("/*"),
                action: Action::SetVariables(SetVariablesAction {
                    variables: vec![(s("env"), s("prod"))],
                }),
            },
            Rule {
                match_expr: s("/hdr/*"),
                action: Action::SetHeaders(SetHeadersAction {
                    target: s("backend"),
                    headers: vec![(s("x-forwarded"), s("yes"))],
                }),
            },
            Rule {
                match_expr: s("/log/*"),
                action: Action::AccessLog(AccessLogAction {
                    target: s("logsink"),
                    max_value_length: 256,
                    format: vec![(s("path"), s("$path"))],
                }),
            },
        ],
    };
    let doc = chain.to_json();
    assert_eq!(decode_routing_chain(&doc).unwrap(), chain);
}

#[test]
fn routing_chain_with_no_rules_leaves_the_member_out() {
    let chain = RoutingChain {
        name: s("empty"),
        realm: None,
        urn: None,
        title: s("Empty"),
        description: None,
        rules: vec![],
    };
    let doc = chain.to_json();
    match &doc {
        Json::Obj(fields) => {
            assert!(fields.iter().all(|(k, _)| k != "rules"));
        }
        _ => panic!("expected an object"),
    }
    assert_eq!(decode_routing_chain(&doc).unwrap(), chain);
}

#[test]
fn proxy_unset_no_body_is_left_out() {
    let action = Action::Proxy(ProxyAction { target: s("backend"), no_body: false });
    let doc = action.to_json();
    match &doc {
        Json::Obj(fields) => {
            assert!(fields.iter().all(|(k, _)| k != "noBody"));
        }
        _ => panic!("expected an object"),
    }
}

#[test]
fn absent_optional_members_are_left_out() {
    let realm = Realm {
        name: s("acme"),
        title: s("Acme"),
        description: None,
        cacert: s("CA"),
        signing_key: s("KEY"),
        session_timeout: None,
        administrators: vec![],
        expired_at: None,
        disabled: false,
    };
    match realm.to_json() {
        Json::Obj(fields) => {
            let keys: Vec<&str> = fields.iter().map(|(k, _)| k.as_str()).collect();
            assert_eq!(
                keys,
                vec!["name", "title", "cacert", "signingKey", "administrators", "disabled"]
            );
        }
        _ => panic!("expected an object"),
    }
}
