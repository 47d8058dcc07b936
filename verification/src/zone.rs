//! DNS zones, stored per realm.
//!
//! A zone lives under `/realms/{realm}/zones/{zone}`. The server owns the
//! `realm` back-reference: whatever the caller submits there is overwritten
//! with the owning realm's URN before the document is written.

use crate::error::{ApiError, ApiErrorV};
use crate::json::{
    field, fields_closed, fields_view, items_view, keys_within, lookup, opt_str_field,
    spec_opt_str, spec_req_str, opt_str, req_str, str_eq, DecodeError, Json, JsonV,
};
use crate::store::{kv_create, kv_get, kv_prefix_keys, lemma_two_level_scoped, no_slash};
use vstd::prelude::*;

verus! {

broadcast use {
    vstd::std_specs::vec::group_vec_axioms,
    crate::json::group_json_view,
    crate::json::group_json_fields,
};

/// A zone document.
#[derive(Debug, PartialEq)]
pub struct Zone {
    pub zone: String,
    pub title: String,
    pub description: Option<String>,
    /// Server-derived: the URN of the owning realm.
    pub realm: Option<String>,
    pub dns_provider: Option<String>,
    pub acme_certificate_provider: Option<String>,
}

/// The mathematical shape of a [`Zone`].
pub struct ZoneV {
    pub zone: Seq<char>,
    pub title: Seq<char>,
    pub description: Option<Seq<char>>,
    pub realm: Option<Seq<char>>,
    pub dns_provider: Option<Seq<char>>,
    pub acme_certificate_provider: Option<Seq<char>>,
}

impl View for Zone {
    type V = ZoneV;

    open spec fn view(&self) -> ZoneV {
        ZoneV {
            zone: self.zone@,
            title: self.title@,
            description: self.description.deep_view(),
            realm: self.realm.deep_view(),
            dns_provider: self.dns_provider.deep_view(),
            acme_certificate_provider: self.acme_certificate_provider.deep_view(),
        }
    }
}

impl DeepView for Zone {
    type V = ZoneV;

    open spec fn deep_view(&self) -> ZoneV {
        self.view()
    }
}

/// The key a zone is stored under.
pub open spec fn spec_zone_key(realm: Seq<char>, zone: Seq<char>) -> Seq<char> {
    "/realms/"@ + realm + "/zones/"@ + zone
}

/// The prefix that covers every zone of a realm.
pub open spec fn spec_zone_prefix(realm: Seq<char>) -> Seq<char> {
    "/realms/"@ + realm + "/zones/"@
}

/// Builds the key a zone is stored under.
pub fn zone_key(realm: &str, zone: &str) -> (r: String)
    ensures
        r@ == spec_zone_key(realm@, zone@),
{
    let mut k = String::from_str("/realms/");
    k.append(realm);
    k.append("/zones/");
    k.append(zone);
    k
}

/// Builds the prefix that covers every zone of a realm.
pub fn zone_prefix(realm: &str) -> (r: String)
    ensures
        r@ == spec_zone_prefix(realm@),
{
    let mut k = String::from_str("/realms/");
    k.append(realm);
    k.append("/zones/");
    k
}

/// The member names a zone document may carry.
pub open spec fn zone_field_names() -> Seq<Seq<char>> {
    seq![
        "zone"@,
        "title"@,
        "description"@,
        "realm"@,
        "dnsProvider"@,
        "acmeCertificateProvider"@,
    ]
}

fn zone_allowed() -> (r: Vec<&'static str>)
    ensures
        r.deep_view() == zone_field_names(),
{
    let mut v: Vec<&'static str> = Vec::new();
    v.push("zone");
    v.push("title");
    v.push("description");
    v.push("realm");
    v.push("dnsProvider");
    v.push("acmeCertificateProvider");
    proof {
        assert(v.deep_view() =~= zone_field_names());
    }
    v
}

/// Which documents are accepted as a zone: the field set is closed, `zone`
/// and `title` are required, the rest are optional.
pub open spec fn spec_decode_zone(j: JsonV) -> Result<ZoneV, ()> {
    match j {
        JsonV::Obj(fs) => if !keys_within(fs, zone_field_names()) {
            Err(())
        } else if spec_req_str(fs, "zone"@) is Err || spec_req_str(fs, "title"@) is Err
            || spec_opt_str(fs, "description"@) is Err || spec_opt_str(fs, "realm"@) is Err
            || spec_opt_str(fs, "dnsProvider"@) is Err || spec_opt_str(
            fs,
            "acmeCertificateProvider"@,
        ) is Err {
            Err(())
        } else {
            Ok(
                ZoneV {
                    zone: spec_req_str(fs, "zone"@)->Ok_0,
                    title: spec_req_str(fs, "title"@)->Ok_0,
                    description: spec_opt_str(fs, "description"@)->Ok_0,
                    realm: spec_opt_str(fs, "realm"@)->Ok_0,
                    dns_provider: spec_opt_str(fs, "dnsProvider"@)->Ok_0,
                    acme_certificate_provider: spec_opt_str(fs, "acmeCertificateProvider"@)->Ok_0,
                },
            )
        },
        _ => Err(()),
    }
}

/// Reads a zone out of a document, enforcing the closed schema.
pub fn decode_zone(j: &Json) -> (r: Result<Zone, DecodeError>)
    ensures
        match r {
            Ok(v) => spec_decode_zone(j@) == Ok::<ZoneV, ()>(v@),
            Err(_) => spec_decode_zone(j@) is Err,
        },
{
    let fields = match j {
        Json::Obj(fields) => fields,
        _ => {
            return Err(DecodeError);
        },
    };
    let allowed = zone_allowed();
    if !fields_closed(fields, &allowed) {
        return Err(DecodeError);
    }
    let zone = match req_str(fields, "zone") {
        Ok(v) => v,
        Err(e) => {
            return Err(e);
        },
    };
    let title = match req_str(fields, "title") {
        Ok(v) => v,
        Err(e) => {
            return Err(e);
        },
    };
    let description = match opt_str(fields, "description") {
        Ok(v) => v,
        Err(e) => {
            return Err(e);
        },
    };
    let realm = match opt_str(fields, "realm") {
        Ok(v) => v,
        Err(e) => {
            return Err(e);
        },
    };
    let dns_provider = match opt_str(fields, "dnsProvider") {
        Ok(v) => v,
        Err(e) => {
            return Err(e);
        },
    };
    let acme_certificate_provider = match opt_str(fields, "acmeCertificateProvider") {
        Ok(v) => v,
        Err(e) => {
            return Err(e);
        },
    };
    Ok(Zone { zone, title, description, realm, dns_provider, acme_certificate_provider })
}

/// How a zone is written: members in declaration order, optional members
/// left out when absent.
pub open spec fn spec_encode_zone(v: ZoneV) -> JsonV {
    JsonV::Obj(
        field("zone"@, JsonV::Str(v.zone)) + field("title"@, JsonV::Str(v.title)) + opt_str_field(
            "description"@,
            v.description,
        ) + opt_str_field("realm"@, v.realm) + opt_str_field("dnsProvider"@, v.dns_provider)
            + opt_str_field("acmeCertificateProvider"@, v.acme_certificate_provider),
    )
}

impl Zone {
    /// Writes the zone as a document.
    pub fn to_json(&self) -> (r: Json)
        ensures
            r@ == spec_encode_zone(self@),
    {
        let mut fields: Vec<(String, Json)> = Vec::new();
        fields.push((String::from_str("zone"), Json::Str(self.zone.clone())));
        fields.push((String::from_str("title"), Json::Str(self.title.clone())));
        match &self.description {
            Some(d) => fields.push((String::from_str("description"), Json::Str(d.clone()))),
            None => (),
        }
        match &self.realm {
            Some(d) => fields.push((String::from_str("realm"), Json::Str(d.clone()))),
            None => (),
        }
        match &self.dns_provider {
            Some(d) => fields.push((String::from_str("dnsProvider"), Json::Str(d.clone()))),
            None => (),
        }
        match &self.acme_certificate_provider {
            Some(d) => fields.push(
                (String::from_str("acmeCertificateProvider"), Json::Str(d.clone())),
            ),
            None => (),
        }
        proof {
            assert(fields_view(fields@) =~= spec_encode_zone(self@)->Obj_0);
        }
        Json::Obj(fields)
    }
}

/// Reading a zone's encoding back yields the zone.
#[verifier::rlimit(50)]
pub proof fn lemma_zone_round_trip(v: ZoneV)
    ensures
        spec_decode_zone(spec_encode_zone(v)) == Ok::<ZoneV, ()>(v),
{
    reveal_strlit("zone");
    reveal_strlit("title");
    reveal_strlit("description");
    reveal_strlit("realm");
    reveal_strlit("dnsProvider");
    reveal_strlit("acmeCertificateProvider");
    let fs = spec_encode_zone(v)->Obj_0;
    let names = zone_field_names();
    assert(names[0] == "zone"@ && names[1] == "title"@ && names[2] == "description"@ && names[3]
        == "realm"@ && names[4] == "dnsProvider"@ && names[5] == "acmeCertificateProvider"@);
    assert(keys_within(fs, names));
    // name pairs of one length are told apart by a differing character
    assert(("title"@)[0] == 't' && ("realm"@)[0] == 'r');
    assert(("description"@)[1] == 'e' && ("dnsProvider"@)[1] == 'n');
    assert(lookup(fs, "zone"@) == Some(JsonV::Str(v.zone)));
    assert(lookup(fs, "title"@) == Some(JsonV::Str(v.title)));
    assert(lookup(fs, "description"@) == match v.description {
        Some(d) => Some(JsonV::Str(d)),
        None => None::<JsonV>,
    });
    assert(lookup(fs, "realm"@) == match v.realm {
        Some(d) => Some(JsonV::Str(d)),
        None => None::<JsonV>,
    });
    assert(lookup(fs, "dnsProvider"@) == match v.dns_provider {
        Some(d) => Some(JsonV::Str(d)),
        None => None::<JsonV>,
    });
    let z1 = field("zone"@, JsonV::Str(v.zone));
    let z2 = field("title"@, JsonV::Str(v.title));
    let z3 = opt_str_field("description"@, v.description);
    let z4 = opt_str_field("realm"@, v.realm);
    let z5 = opt_str_field("dnsProvider"@, v.dns_provider);
    let z6 = opt_str_field("acmeCertificateProvider"@, v.acme_certificate_provider);
    assert(fs == z1 + z2 + z3 + z4 + z5 + z6);
    assert(lookup(z6, "acmeCertificateProvider"@) == match v.acme_certificate_provider {
        Some(d) => Some(JsonV::Str(d)),
        None => None::<JsonV>,
    });
    assert(lookup(z1, "acmeCertificateProvider"@) is None);
    assert(lookup(z1 + z2, "acmeCertificateProvider"@) is None);
    assert(lookup(z1 + z2 + z3, "acmeCertificateProvider"@) is None);
    assert(lookup(z1 + z2 + z3 + z4, "acmeCertificateProvider"@) is None);
    assert(lookup(z1 + z2 + z3 + z4 + z5, "acmeCertificateProvider"@) is None);
    assert(lookup(fs, "acmeCertificateProvider"@) == match v.acme_certificate_provider {
        Some(d) => Some(JsonV::Str(d)),
        None => None::<JsonV>,
    });
}

/// A document with a member outside the declared field set is never
/// accepted as a zone.
pub proof fn lemma_zone_rejects_unknown_field(fs: Seq<(Seq<char>, JsonV)>, i: int)
    requires
        0 <= i < fs.len(),
        !zone_field_names().contains(fs[i].0),
    ensures
        spec_decode_zone(JsonV::Obj(fs)) is Err,
{
    assert(!keys_within(fs, zone_field_names()));
}

/// The URN of a realm, as written into the documents it owns.
pub open spec fn spec_realm_urn(realm: Seq<char>) -> Seq<char> {
    "urn:chip-in:realm:"@ + realm
}

/// The server-derived form of a zone: the `realm` back-reference is
/// overwritten with the owning realm's URN, everything else is kept.
pub open spec fn spec_derive_zone(realm: Seq<char>, v: ZoneV) -> ZoneV {
    ZoneV { realm: Some(spec_realm_urn(realm)), ..v }
}

fn realm_urn(realm: &str) -> (r: String)
    ensures
        r@ == spec_realm_urn(realm@),
{
    let mut u = String::from_str("urn:chip-in:realm:");
    u.append(realm);
    u
}

/// The conflict message for an already-existing zone.
pub open spec fn spec_zone_exists_msg(zone: Seq<char>, realm: Seq<char>) -> Seq<char> {
    "Zone '"@ + zone + "' in realm '"@ + realm + "' already exists."@
}

/// The message for a missing zone.
pub open spec fn spec_zone_not_found_msg(zone: Seq<char>, realm: Seq<char>) -> Seq<char> {
    "Zone '"@ + zone + "' not found in realm '"@ + realm + "'"@
}

/// The message for a body whose zone name contradicts the request path.
pub open spec fn spec_zone_mismatch_msg(path: Seq<char>, body: Seq<char>) -> Seq<char> {
    "Zone name in path ('"@ + path + "') does not match name in body ('"@ + body + "')"@
}

/// Decides a zone creation once the existence check has been made: refused
/// with a conflict when the key is already bound, otherwise stored with the
/// server-derived realm back-reference.
pub fn add_zone(realm: &str, zone: Zone, exists: bool) -> (r: Result<Zone, ApiError>)
    ensures
        exists ==> (r matches Err(e) && e@ == ApiErrorV::Conflict(
            spec_zone_exists_msg(zone@.zone, realm@),
        )),
        !exists ==> (r matches Ok(z) && z@ == spec_derive_zone(realm@, zone@)),
{
    if exists {
        let mut m = String::from_str("Zone '");
        m.append(zone.zone.as_str());
        m.append("' in realm '");
        m.append(realm);
        m.append("' already exists.");
        Err(ApiError::Conflict(m))
    } else {
        let derived = Zone { realm: Some(realm_urn(realm)), ..zone };
        Ok(derived)
    }
}

/// Decides a zone update: the body must name the zone the path names, and
/// the realm back-reference is overwritten before the unconditional write.
pub fn update_zone(realm: &str, zone_name: &str, zone: Zone) -> (r: Result<Zone, ApiError>)
    ensures
        zone@.zone != zone_name@ ==> (r matches Err(e) && e@ == ApiErrorV::BadRequest(
            spec_zone_mismatch_msg(zone_name@, zone@.zone),
        )),
        zone@.zone == zone_name@ ==> (r matches Ok(z) && z@ == spec_derive_zone(realm@, zone@)),
{
    if !str_eq(zone.zone.as_str(), zone_name) {
        let mut m = String::from_str("Zone name in path ('");
        m.append(zone_name);
        m.append("') does not match name in body ('");
        m.append(zone.zone.as_str());
        m.append("')");
        Err(ApiError::BadRequest(m))
    } else {
        let derived = Zone { realm: Some(realm_urn(realm)), ..zone };
        Ok(derived)
    }
}

/// Decides what a point read of a zone returns.
pub fn get_zone(realm: &str, zone_name: &str, found: Option<&Json>) -> (r: Result<Zone, ApiError>)
    ensures
        found is None ==> (r matches Err(e) && e@ == ApiErrorV::NotFound(
            spec_zone_not_found_msg(zone_name@, realm@),
        )),
        found matches Some(j) ==> match spec_decode_zone(j@) {
            Ok(v) => r matches Ok(out) && out@ == v,
            Err(_) => r matches Err(e) && e@ == ApiErrorV::Internal(
                crate::error::spec_malformed_stored_msg(),
            ),
        },
{
    match found {
        Some(j) => match decode_zone(j) {
            Ok(v) => Ok(v),
            Err(_) => Err(ApiError::Internal(crate::error::malformed_stored_msg())),
        },
        None => {
            let mut m = String::from_str("Zone '");
            m.append(zone_name);
            m.append("' not found in realm '");
            m.append(realm);
            m.append("'");
            Err(ApiError::NotFound(m))
        },
    }
}

/// Decides what a zone delete returns, given the document the backend
/// reported as bound to the key just before the delete.
pub fn delete_zone(realm: &str, zone_name: &str, prev: Option<&Json>) -> (r: Result<
    Zone,
    ApiError,
>)
    ensures
        prev is None ==> (r matches Err(e) && e@ == ApiErrorV::NotFound(
            spec_zone_not_found_msg(zone_name@, realm@),
        )),
        prev matches Some(j) ==> match spec_decode_zone(j@) {
            Ok(v) => r matches Ok(out) && out@ == v,
            Err(_) => r matches Err(e) && e@ == ApiErrorV::Internal(
                crate::error::spec_malformed_stored_msg(),
            ),
        },
{
    get_zone(realm, zone_name, prev)
}

/// What a zone listing returns, raw value by raw value.
pub open spec fn spec_list_zones(vs: Seq<JsonV>) -> Seq<ZoneV>
    decreases vs.len(),
{
    if vs.len() == 0 {
        Seq::empty()
    } else {
        let rest = spec_list_zones(vs.drop_last());
        match spec_decode_zone(vs.last()) {
            Ok(v) => rest.push(v),
            Err(_) => rest,
        }
    }
}

/// Reads a listing's raw values leniently: a value that does not decode as
/// a zone is dropped, the rest keep their order.
pub fn list_zones(values: &Vec<Json>) -> (r: Vec<Zone>)
    ensures
        r.deep_view() == spec_list_zones(items_view(values@)),
{
    let ghost iv = items_view(values@);
    let mut out: Vec<Zone> = Vec::new();
    let mut i: usize = 0;
    proof {
        assert(iv.take(0) =~= Seq::<JsonV>::empty());
        assert(out.deep_view() =~= Seq::<ZoneV>::empty());
    }
    while i < values.len()
        invariant
            i <= values.len(),
            iv == items_view(values@),
            out.deep_view() == spec_list_zones(iv.take(i as int)),
        decreases values.len() - i,
    {
        let ghost prev = out.deep_view();
        match decode_zone(&values[i]) {
            Ok(v) => {
                let ghost vv = v@;
                out.push(v);
                proof {
                    assert(out.deep_view() =~= prev.push(vv));
                }
            },
            Err(_) => (),
        }
        proof {
            assert(iv.take(i + 1).drop_last() =~= iv.take(i as int));
            assert(iv.take(i + 1).last() == iv[i as int]);
            assert(iv[i as int] == values@[i as int]@);
        }
        i += 1;
    }
    proof {
        assert(iv.take(values.len() as int) =~= iv);
    }
    out
}

/// Creating a zone under a free key and reading the same key back yields
/// exactly the derived zone that was stored.
pub proof fn lemma_zone_create_then_get(m: Map<Seq<char>, JsonV>, realm: Seq<char>, v: ZoneV)
    requires
        kv_get(m, spec_zone_key(realm, v.zone)) is None,
    ensures
        ({
            let stored = spec_encode_zone(spec_derive_zone(realm, v));
            let (m1, ok) = kv_create(m, spec_zone_key(realm, v.zone), stored);
            ok && kv_get(m1, spec_zone_key(realm, v.zone)) == Some(stored) && spec_decode_zone(
                kv_get(m1, spec_zone_key(realm, v.zone))->Some_0,
            ) == Ok::<ZoneV, ()>(spec_derive_zone(realm, v))
        }),
{
    let stored = spec_encode_zone(spec_derive_zone(realm, v));
    crate::store::lemma_create_then_get(m, spec_zone_key(realm, v.zone), stored);
    lemma_zone_round_trip(spec_derive_zone(realm, v));
}

/// A scan of realm A's zones never covers a key under another realm B —
/// also when one realm's name is a prefix of the other's.
pub proof fn lemma_zone_list_scoped(
    m: Map<Seq<char>, JsonV>,
    realm_a: Seq<char>,
    realm_b: Seq<char>,
    zone: Seq<char>,
)
    requires
        no_slash(realm_a),
        no_slash(realm_b),
        realm_a != realm_b,
    ensures
        !kv_prefix_keys(m, spec_zone_prefix(realm_a)).contains(spec_zone_key(realm_b, zone)),
{
    reveal_strlit("/zones/");
    lemma_two_level_scoped("/realms/"@, realm_a, "/zones/"@, realm_b, zone);
    crate::store::lemma_scan_excludes(m, spec_zone_prefix(realm_a), spec_zone_key(realm_b, zone));
}

} // verus!
