//! The schemas are closed: an undeclared member, an unknown action tag, a
//! missing required member or a wrong shape all reject the document before
//! anything could be written.

use hub_directory::hub::decode_hub;
use hub_directory::json::Json;
use hub_directory::realm::decode_realm;
use hub_directory::routing_chain::{decode_action, decode_routing_chain, decode_rule, Action};
use hub_directory::service::{decode_avail, decode_service};
use hub_directory::subdomain::decode_subdomain;
use hub_directory::virtual_host::decode_virtual_host;
use hub_directory::zone::decode_zone;

fn s(x: &str) -> String {
    x.to_string()
}

fn obj(pairs: Vec<(&str, Json)>) -> Json {
    Json::Obj(pairs.into_iter().map(|(k, v)| (k.to_string(), v)).collect())
}

fn minimal_hub_pairs() -> Vec<(&'static str, Json)> {
    vec![
        ("name", Json::Str(s("h1"))),
        ("title", Json::Str(s("Hub One"))),
        ("fqdn", Json::Str(s("h1.acme.example"))),
        ("serverCert", Json::Str(s("CERT"))),
        ("serverCertKey", Json::Str(s("KEY"))),
    ]
}

#[test]
fn hub_with_undeclared_member_is_rejected() {
    let mut pairs = minimal_hub_pairs();
    pairs.push(("color", Json::Str(s("blue"))));
    assert!(decode_hub(&obj(pairs)).is_err());
}

#[test]
fn hub_without_required_member_is_rejected() {
    let mut pairs = minimal_hub_pairs();
    pairs.retain(|(k, _)| *k != "serverCert");
    assert!(decode_hub(&obj(pairs)).is_err());
}

#[test]
fn hub_with_wrong_member_shape_is_rejected() {
    let mut pairs = minimal_hub_pairs();
    pairs.push(("serverPort", Json::Str(s("8443"))));
    assert!(decode_hub(&obj(pairs)).is_err());
}

#[test]
fn hub_server_port_outside_32_bits_is_rejected() {
    let mut pairs = minimal_hub_pairs();
    pairs.push(("serverPort", Json::Int(5_000_000_000)));
    assert!(decode_hub(&obj(pairs)).is_err());
}

#[test]
fn realm_with_undeclared_member_is_rejected() {
    let doc = obj(vec![
        ("name", Json::Str(s("acme"))),
        ("title", Json::Str(s("Acme"))),
        ("cacert", Json::Str(s("CA"))),
        ("signingKey", Json::Str(s("KEY"))),
        ("disabled", Json::Bool(false)),
        ("unexpected", Json::Null),
    ]);
    assert!(decode_realm(&doc).is_err());
}

#[test]
fn zone_with_undeclared_member_is_rejected() {
    let doc = obj(vec![
        ("zone", Json::Str(s("example.com"))),
        ("title", Json::Str(s("Example"))),
        ("nameServer", Json::Str(s("ns1"))),
    ]);
    assert!(decode_zone(&doc).is_err());
}

#[test]
fn subdomain_with_undeclared_member_is_rejected() {
    let doc = obj(vec![
        ("name", Json::Str(s("www"))),
        ("title", Json::Str(s("Web"))),
        ("ttl", Json::Int(300)),
    ]);
    assert!(decode_subdomain(&doc).is_err());
}

#[test]
fn virtual_host_with_undeclared_member_is_rejected() {
    let doc = obj(vec![
        ("name", Json::Str(s("shop"))),
        ("title", Json::Str(s("Shop"))),
        ("subdomain", Json::Str(s("www"))),
        ("routingChain", Json::Str(s("main"))),
        ("port", Json::Int(80)),
    ]);
    assert!(decode_virtual_host(&doc).is_err());
}

#[test]
fn service_with_undeclared_member_is_rejected() {
    let doc = obj(vec![
        ("name", Json::Str(s("svc"))),
        ("title", Json::Str(s("Service"))),
        ("realm", Json::Str(s("acme"))),
        ("hubName", Json::Str(s("h1"))),
        ("providers", Json::Arr(vec![])),
        ("consumers", Json::Arr(vec![])),
        ("weight", Json::Int(1)),
    ]);
    assert!(decode_service(&doc).is_err());
}

#[test]
fn availability_with_undeclared_member_is_rejected() {
    let doc = obj(vec![
        ("clusterManagerUrn", Json::Str(s("urn:cm:1"))),
        ("serviceId", Json::Str(s("svc-id"))),
        ("retries", Json::Int(3)),
    ]);
    assert!(decode_avail(&doc).is_err());
}

#[test]
fn routing_chain_with_undeclared_member_is_rejected() {
    let doc = obj(vec![
        ("name", Json::Str(s("main"))),
        ("title", Json::Str(s("Main"))),
        ("priority", Json::Int(1)),
    ]);
    assert!(decode_routing_chain(&doc).is_err());
}

#[test]
fn action_with_unknown_tag_is_rejected() {
    let doc = obj(vec![
        ("type", Json::Str(s("teleport"))),
        ("target", Json::Str(s("elsewhere"))),
    ]);
    assert!(decode_action(&doc).is_err());
}

#[test]
fn action_without_tag_is_rejected() {
    let doc = obj(vec![("target", Json::Str(s("backend")))]);
    assert!(decode_action(&doc).is_err());
}

#[test]
fn proxy_action_with_undeclared_member_is_rejected() {
    let doc = obj(vec![
        ("type", Json::Str(s("proxy"))),
        ("target", Json::Str(s("backend"))),
        ("timeout", Json::Int(5)),
    ]);
    assert!(decode_action(&doc).is_err());
}

#[test]
fn access_log_max_value_length_defaults_to_512() {
    let doc = obj(vec![
        ("type", Json::Str(s("accessLog"))),
        ("target", Json::Str(s("logsink"))),
        ("format", Json::Obj(vec![])),
    ]);
    match decode_action(&doc).unwrap() {
        Action::AccessLog(a) => assert_eq!(a.max_value_length, 512),
        other => panic!("expected an access-log action, got {:?}", other),
    }
}

#[test]
fn set_variables_with_non_string_value_is_rejected() {
    let doc = obj(vec![
        ("type", Json::Str(s("setVariables"))),
        ("variables", Json::Obj(vec![(s("n"), Json::Int(1))])),
    ]);
    assert!(decode_action(&doc).is_err());
}

#[test]
fn rule_with_undeclared_member_is_rejected() {
    let doc = obj(vec![
        ("match", Json::Str(s("/*"))),
        (
            "action",
            obj(vec![("type", Json::Str(s("redirect"))), ("target", Json::Str(s("/new")))]),
        ),
        ("priority", Json::Int(1)),
    ]);
    assert!(decode_rule(&doc).is_err());
}

#[test]
fn rule_with_bad_action_rejects_the_chain() {
    let doc = obj(vec![
        ("name", Json::Str(s("main"))),
        ("title", Json::Str(s("Main"))),
        (
            "rules",
            Json::Arr(vec![obj(vec![
                ("match", Json::Str(s("/*"))),
                ("action", obj(vec![("type", Json::Str(s("teleport")))])),
            ])]),
        ),
    ]);
    assert!(decode_routing_chain(&doc).is_err());
}

#[test]
fn non_object_documents_are_rejected() {
    assert!(decode_realm(&Json::Null).is_err());
    assert!(decode_zone(&Json::Str(s("zone"))).is_err());
    assert!(decode_hub(&Json::Arr(vec![])).is_err());
    assert!(decode_action(&Json::Int(1)).is_err());
}

#[test]
fn optional_member_accepts_null_as_absent() {
    let doc = obj(vec![
        ("name", Json::Str(s("acme"))),
        ("title", Json::Str(s("Acme"))),
        ("description", Json::Null),
        ("cacert", Json::Str(s("CA"))),
        ("signingKey", Json::Str(s("KEY"))),
        ("disabled", Json::Bool(false)),
    ]);
    let realm = decode_realm(&doc).unwrap();
    assert_eq!(realm.description, None);
    assert_eq!(realm.administrators, Vec::<String>::new());
}

#[test]
fn required_bool_rejects_null() {
    let doc = obj(vec![
        ("name", Json::Str(s("acme"))),
        ("title", Json::Str(s("Acme"))),
        ("cacert", Json::Str(s("CA"))),
        ("signingKey", Json::Str(s("KEY"))),
        ("disabled", Json::Null),
    ]);
    assert!(decode_realm(&doc).is_err());
}
