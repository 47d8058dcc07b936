//! Hubs, stored per realm.
//!
//! A hub lives under `/realms/{realm}/hubs/{name}`. The server owns the
//! `realm` back-reference and the hub's `urn`: both are recomputed from the
//! request path before the document is written.

use crate::error::{ApiError, ApiErrorV};
use crate::json::{
    field, fields_closed, fields_view, items_view, keys_within, lookup, opt_i32_field,
    opt_str_field, spec_opt_i32, spec_opt_str, spec_req_str, opt_i32, opt_str, req_str,
    DecodeError, Json, JsonV,
};
use crate::store::{kv_create, kv_get, kv_prefix_keys, lemma_two_level_scoped, no_slash};
use vstd::prelude::*;

verus! {

broadcast use {
    vstd::std_specs::vec::group_vec_axioms,
    crate::json::group_json_view,
    crate::json::group_json_fields,
};

/// A hub document.
#[derive(Debug, PartialEq)]
pub struct Hub {
    pub name: String,
    /// Server-derived: the name of the owning realm.
    pub realm: Option<String>,
    /// Server-derived: `urn:chip-in:hub:{realm}:{name}`.
    pub urn: Option<String>,
    pub title: String,
    pub description: Option<String>,
    pub fqdn: String,
    pub server_port: Option<i32>,
    pub server_cert: String,
    pub server_cert_key: String,
}

/// The mathematical shape of a [`Hub`].
pub struct HubV {
    pub name: Seq<char>,
    pub realm: Option<Seq<char>>,
    pub urn: Option<Seq<char>>,
    pub title: Seq<char>,
    pub description: Option<Seq<char>>,
    pub fqdn: Seq<char>,
    pub server_port: Option<i32>,
    pub server_cert: Seq<char>,
    pub server_cert_key: Seq<char>,
}

impl View for Hub {
    type V = HubV;

    open spec fn view(&self) -> HubV {
        HubV {
            name: self.name@,
            realm: self.realm.deep_view(),
            urn: self.urn.deep_view(),
            title: self.title@,
            description: self.description.deep_view(),
            fqdn: self.fqdn@,
            server_port: self.server_port,
            server_cert: self.server_cert@,
            server_cert_key: self.server_cert_key@,
        }
    }
}

impl DeepView for Hub {
    type V = HubV;

    open spec fn deep_view(&self) -> HubV {
        self.view()
    }
}

/// The key a hub is stored under.
pub open spec fn spec_hub_key(realm: Seq<char>, name: Seq<char>) -> Seq<char> {
    "/realms/"@ + realm + "/hubs/"@ + name
}

/// The prefix that covers every hub of a realm.
pub open spec fn spec_hub_prefix(realm: Seq<char>) -> Seq<char> {
    "/realms/"@ + realm + "/hubs/"@
}

/// Builds the key a hub is stored under.
pub fn hub_key(realm: &str, name: &str) -> (r: String)
    ensures
        r@ == spec_hub_key(realm@, name@),
{
    let mut k = String::from_str("/realms/");
    k.append(realm);
    k.append("/hubs/");
    k.append(name);
    k
}

/// Builds the prefix that covers every hub of a realm.
pub fn hub_prefix(realm: &str) -> (r: String)
    ensures
        r@ == spec_hub_prefix(realm@),
{
    let mut k = String::from_str("/realms/");
    k.append(realm);
    k.append("/hubs/");
    k
}

/// The member names a hub document may carry.
pub open spec fn hub_field_names() -> Seq<Seq<char>> {
    seq![
        "name"@,
        "realm"@,
        "urn"@,
        "title"@,
        "description"@,
        "fqdn"@,
        "serverPort"@,
        "serverCert"@,
        "serverCertKey"@,
    ]
}

fn hub_allowed() -> (r: Vec<&'static str>)
    ensures
        r.deep_view() == hub_field_names(),
{
    let mut v: Vec<&'static str> = Vec::new();
    v.push("name");
    v.push("realm");
    v.push("urn");
    v.push("title");
    v.push("description");
    v.push("fqdn");
    v.push("serverPort");
    v.push("serverCert");
    v.push("serverCertKey");
    proof {
        assert(v.deep_view() =~= hub_field_names());
    }
    v
}

/// Which documents are accepted as a hub: the field set is closed; `name`,
/// `title`, `fqdn`, `serverCert` and `serverCertKey` are required, the rest
/// are optional.
pub open spec fn spec_decode_hub(j: JsonV) -> Result<HubV, ()> {
    match j {
        JsonV::Obj(fs) => if !keys_within(fs, hub_field_names()) {
            Err(())
        } else if spec_req_str(fs, "name"@) is Err || spec_opt_str(fs, "realm"@) is Err
            || spec_opt_str(fs, "urn"@) is Err || spec_req_str(fs, "title"@) is Err
            || spec_opt_str(fs, "description"@) is Err || spec_req_str(fs, "fqdn"@) is Err
            || spec_opt_i32(fs, "serverPort"@) is Err || spec_req_str(fs, "serverCert"@) is Err
            || spec_req_str(fs, "serverCertKey"@) is Err {
            Err(())
        } else {
            Ok(
                HubV {
                    name: spec_req_str(fs, "name"@)->Ok_0,
                    realm: spec_opt_str(fs, "realm"@)->Ok_0,
                    urn: spec_opt_str(fs, "urn"@)->Ok_0,
                    title: spec_req_str(fs, "title"@)->Ok_0,
                    description: spec_opt_str(fs, "description"@)->Ok_0,
                    fqdn: spec_req_str(fs, "fqdn"@)->Ok_0,
                    server_port: spec_opt_i32(fs, "serverPort"@)->Ok_0,
                    server_cert: spec_req_str(fs, "serverCert"@)->Ok_0,
                    server_cert_key: spec_req_str(fs, "serverCertKey"@)->Ok_0,
                },
            )
        },
        _ => Err(()),
    }
}

/// Reads a hub out of a document, enforcing the closed schema.
pub fn decode_hub(j: &Json) -> (r: Result<Hub, DecodeError>)
    ensures
        match r {
            Ok(v) => spec_decode_hub(j@) == Ok::<HubV, ()>(v@),
            Err(_) => spec_decode_hub(j@) is Err,
        },
{
    let fields = match j {
        Json::Obj(fields) => fields,
        _ => {
            return Err(DecodeError);
        },
    };
    let allowed = hub_allowed();
    if !fields_closed(fields, &allowed) {
        return Err(DecodeError);
    }
    let name = match req_str(fields, "name") {
        Ok(v) => v,
        Err(e) => {
            return Err(e);
        },
    };
    let realm = match opt_str(fields, "realm") {
        Ok(v) => v,
        Err(e) => {
            return Err(e);
        },
    };
    let urn = match opt_str(fields, "urn") {
        Ok(v) => v,
        Err(e) => {
            return Err(e);
        },
    };
    let title = match req_str(fields, "title") {
        Ok(v) => v,
        Err(e) => {
            return Err(e);
        },
    };
    let description = match opt_str(fields, "description") {
        Ok(v) => v,
        Err(e) => {
            return Err(e);
        },
    };
    let fqdn = match req_str(fields, "fqdn") {
        Ok(v) => v,
        Err(e) => {
            return Err(e);
        },
    };
    let server_port = match opt_i32(fields, "serverPort") {
        Ok(v) => v,
        Err(e) => {
            return Err(e);
        },
    };
    let server_cert = match req_str(fields, "serverCert") {
        Ok(v) => v,
        Err(e) => {
            return Err(e);
        },
    };
    let server_cert_key = match req_str(fields, "serverCertKey") {
        Ok(v) => v,
        Err(e) => {
            return Err(e);
        },
    };
    Ok(
        Hub {
            name,
            realm,
            urn,
            title,
            description,
            fqdn,
            server_port,
            server_cert,
            server_cert_key,
        },
    )
}

/// How a hub is written: members in declaration order, optional members
/// left out when absent.
pub open spec fn spec_encode_hub(v: HubV) -> JsonV {
    JsonV::Obj(
        field("name"@, JsonV::Str(v.name)) + opt_str_field("realm"@, v.realm) + opt_str_field(
            "urn"@,
            v.urn,
        ) + field("title"@, JsonV::Str(v.title)) + opt_str_field("description"@, v.description)
            + field("fqdn"@, JsonV::Str(v.fqdn)) + opt_i32_field("serverPort"@, v.server_port)
            + field("serverCert"@, JsonV::Str(v.server_cert)) + field(
            "serverCertKey"@,
            JsonV::Str(v.server_cert_key),
        ),
    )
}

impl Hub {
    /// Writes the hub as a document.
    pub fn to_json(&self) -> (r: Json)
        ensures
            r@ == spec_encode_hub(self@),
    {
        let mut fields: Vec<(String, Json)> = Vec::new();
        fields.push((String::from_str("name"), Json::Str(self.name.clone())));
        match &self.realm {
            Some(d) => fields.push((String::from_str("realm"), Json::Str(d.clone()))),
            None => (),
        }
        match &self.urn {
            Some(d) => fields.push((String::from_str("urn"), Json::Str(d.clone()))),
            None => (),
        }
        fields.push((String::from_str("title"), Json::Str(self.title.clone())));
        match &self.description {
            Some(d) => fields.push((String::from_str("description"), Json::Str(d.clone()))),
            None => (),
        }
        fields.push((String::from_str("fqdn"), Json::Str(self.fqdn.clone())));
        match &self.server_port {
            Some(p) => fields.push((String::from_str("serverPort"), Json::Int(*p as i64))),
            None => (),
        }
        fields.push((String::from_str("serverCert"), Json::Str(self.server_cert.clone())));
        fields.push((String::from_str("serverCertKey"), Json::Str(self.server_cert_key.clone())));
        proof {
            assert(fields_view(fields@) =~= spec_encode_hub(self@)->Obj_0);
        }
        Json::Obj(fields)
    }
}

/// Reading a hub's encoding back yields the hub.
#[verifier::rlimit(50)]
pub proof fn lemma_hub_round_trip(v: HubV)
    ensures
        spec_decode_hub(spec_encode_hub(v)) == Ok::<HubV, ()>(v),
{
    reveal_strlit("name");
    reveal_strlit("realm");
    reveal_strlit("urn");
    reveal_strlit("title");
    reveal_strlit("description");
    reveal_strlit("fqdn");
    reveal_strlit("serverPort");
    reveal_strlit("serverCert");
    reveal_strlit("serverCertKey");
    let fs = spec_encode_hub(v)->Obj_0;
    let names = hub_field_names();
    assert(names[0] == "name"@ && names[1] == "realm"@ && names[2] == "urn"@ && names[3]
        == "title"@ && names[4] == "description"@ && names[5] == "fqdn"@ && names[6]
        == "serverPort"@ && names[7] == "serverCert"@ && names[8] == "serverCertKey"@);
    assert(keys_within(fs, names));
    // name pairs of one length are told apart by a differing character
    assert(("name"@)[0] == 'n' && ("fqdn"@)[0] == 'f');
    assert(("realm"@)[0] == 'r' && ("title"@)[0] == 't');
    assert(("serverPort"@)[6] == 'P' && ("serverCert"@)[6] == 'C');
    let h1 = field("name"@, JsonV::Str(v.name));
    let h2 = opt_str_field("realm"@, v.realm);
    let h3 = opt_str_field("urn"@, v.urn);
    let h4 = field("title"@, JsonV::Str(v.title));
    let h5 = opt_str_field("description"@, v.description);
    let h6 = field("fqdn"@, JsonV::Str(v.fqdn));
    let h7 = opt_i32_field("serverPort"@, v.server_port);
    let h8 = field("serverCert"@, JsonV::Str(v.server_cert));
    let h9 = field("serverCertKey"@, JsonV::Str(v.server_cert_key));
    assert(fs == h1 + h2 + h3 + h4 + h5 + h6 + h7 + h8 + h9);
    assert(lookup(fs, "name"@) == Some(JsonV::Str(v.name)));
    assert(lookup(fs, "realm"@) == match v.realm {
        Some(d) => Some(JsonV::Str(d)),
        None => None::<JsonV>,
    });
    assert(lookup(fs, "urn"@) == match v.urn {
        Some(d) => Some(JsonV::Str(d)),
        None => None::<JsonV>,
    });
    assert(lookup(fs, "title"@) == Some(JsonV::Str(v.title)));
    assert(lookup(fs, "description"@) == match v.description {
        Some(d) => Some(JsonV::Str(d)),
        None => None::<JsonV>,
    });
    assert(lookup(fs, "fqdn"@) == Some(JsonV::Str(v.fqdn)));
    assert(lookup(h1 + h2 + h3 + h4 + h5 + h6, "serverPort"@) is None);
    assert(lookup(fs, "serverPort"@) == match v.server_port {
        Some(p) => Some(JsonV::Int(p as i64)),
        None => None::<JsonV>,
    });
    assert(lookup(h1 + h2 + h3 + h4 + h5 + h6 + h7, "serverCert"@) is None);
    assert(lookup(fs, "serverCert"@) == Some(JsonV::Str(v.server_cert)));
    assert(lookup(h1 + h2 + h3 + h4 + h5 + h6 + h7 + h8, "serverCertKey"@) is None);
    assert(lookup(fs, "serverCertKey"@) == Some(JsonV::Str(v.server_cert_key)));
}

/// A document with a member outside the declared field set is never
/// accepted as a hub.
pub proof fn lemma_hub_rejects_unknown_field(fs: Seq<(Seq<char>, JsonV)>, i: int)
    requires
        0 <= i < fs.len(),
        !hub_field_names().contains(fs[i].0),
    ensures
        spec_decode_hub(JsonV::Obj(fs)) is Err,
{
    assert(!keys_within(fs, hub_field_names()));
}

/// The URN of a hub.
pub open spec fn spec_hub_urn(realm: Seq<char>, name: Seq<char>) -> Seq<char> {
    "urn:chip-in:hub:"@ + realm + ":"@ + name
}

/// The server-derived form of a hub: `realm` and `urn` are overwritten
/// from the request path, everything else is kept.
pub open spec fn spec_derive_hub(realm: Seq<char>, v: HubV) -> HubV {
    HubV { realm: Some(realm), urn: Some(spec_hub_urn(realm, v.name)), ..v }
}

/// Builds the URN of a hub.
pub fn hub_urn(realm: &str, name: &str) -> (r: String)
    ensures
        r@ == spec_hub_urn(realm@, name@),
{
    let mut u = String::from_str("urn:chip-in:hub:");
    u.append(realm);
    u.append(":");
    u.append(name);
    u
}

/// The conflict message for an already-existing hub.
pub open spec fn spec_hub_exists_msg(name: Seq<char>, realm: Seq<char>) -> Seq<char> {
    "Hub '"@ + name + "' already exists in realm '"@ + realm + "'."@
}

/// The message for a missing hub.
pub open spec fn spec_hub_not_found_msg(name: Seq<char>, realm: Seq<char>) -> Seq<char> {
    "Hub '"@ + name + "' not found in realm '"@ + realm + "'"@
}

/// Decides a hub creation once the existence check has been made: refused
/// with a conflict when the key is already bound, otherwise stored with
/// the server-derived `realm` and `urn`.
pub fn add_hub(realm: &str, hub: Hub, exists: bool) -> (r: Result<Hub, ApiError>)
    ensures
        exists ==> (r matches Err(e) && e@ == ApiErrorV::Conflict(
            spec_hub_exists_msg(hub@.name, realm@),
        )),
        !exists ==> (r matches Ok(h) && h@ == spec_derive_hub(realm@, hub@)),
{
    if exists {
        let mut m = String::from_str("Hub '");
        m.append(hub.name.as_str());
        m.append("' already exists in realm '");
        m.append(realm);
        m.append("'.");
        Err(ApiError::Conflict(m))
    } else {
        let urn = hub_urn(realm, hub.name.as_str());
        let derived = Hub { realm: Some(realm.to_owned()), urn: Some(urn), ..hub };
        Ok(derived)
    }
}

/// Decides a hub update: the server-derived fields are overwritten and the
/// write is unconditional.
pub fn update_hub(realm: &str, hub: Hub) -> (r: Hub)
    ensures
        r@ == spec_derive_hub(realm@, hub@),
{
    let urn = hub_urn(realm, hub.name.as_str());
    Hub { realm: Some(realm.to_owned()), urn: Some(urn), ..hub }
}

/// Decides what a point read of a hub returns.
pub fn get_hub(realm: &str, name: &str, found: Option<&Json>) -> (r: Result<Hub, ApiError>)
    ensures
        found is None ==> (r matches Err(e) && e@ == ApiErrorV::NotFound(
            spec_hub_not_found_msg(name@, realm@),
        )),
        found matches Some(j) ==> match spec_decode_hub(j@) {
            Ok(v) => r matches Ok(out) && out@ == v,
            Err(_) => r matches Err(e) && e@ == ApiErrorV::Internal(
                crate::error::spec_malformed_stored_msg(),
            ),
        },
{
    match found {
        Some(j) => match decode_hub(j) {
            Ok(v) => Ok(v),
            Err(_) => Err(ApiError::Internal(crate::error::malformed_stored_msg())),
        },
        None => {
            let mut m = String::from_str("Hub '");
            m.append(name);
            m.append("' not found in realm '");
            m.append(realm);
            m.append("'");
            Err(ApiError::NotFound(m))
        },
    }
}

/// Decides what a hub delete returns, given the document the backend
/// reported as bound to the key just before the delete.
pub fn delete_hub(realm: &str, name: &str, prev: Option<&Json>) -> (r: Result<Hub, ApiError>)
    ensures
        prev is None ==> (r matches Err(e) && e@ == ApiErrorV::NotFound(
            spec_hub_not_found_msg(name@, realm@),
        )),
        prev matches Some(j) ==> match spec_decode_hub(j@) {
            Ok(v) => r matches Ok(out) && out@ == v,
            Err(_) => r matches Err(e) && e@ == ApiErrorV::Internal(
                crate::error::spec_malformed_stored_msg(),
            ),
        },
{
    get_hub(realm, name, prev)
}

/// What a hub listing returns, raw value by raw value.
pub open spec fn spec_list_hubs(vs: Seq<JsonV>) -> Seq<HubV>
    decreases vs.len(),
{
    if vs.len() == 0 {
        Seq::empty()
    } else {
        let rest = spec_list_hubs(vs.drop_last());
        match spec_decode_hub(vs.last()) {
            Ok(v) => rest.push(v),
            Err(_) => rest,
        }
    }
}

/// Reads a listing's raw values leniently: a value that does not decode as
/// a hub is dropped, the rest keep their order.
pub fn list_hubs(values: &Vec<Json>) -> (r: Vec<Hub>)
    ensures
        r.deep_view() == spec_list_hubs(items_view(values@)),
{
    let ghost iv = items_view(values@);
    let mut out: Vec<Hub> = Vec::new();
    let mut i: usize = 0;
    proof {
        assert(iv.take(0) =~= Seq::<JsonV>::empty());
        assert(out.deep_view() =~= Seq::<HubV>::empty());
    }
    while i < values.len()
        invariant
            i <= values.len(),
            iv == items_view(values@),
            out.deep_view() == spec_list_hubs(iv.take(i as int)),
        decreases values.len() - i,
    {
        let ghost prev = out.deep_view();
        match decode_hub(&values[i]) {
            Ok(v) => {
                let ghost vv = v@;
                out.push(v);
                proof {
                    assert(out.deep_view() =~= prev.push(vv));
                }
            },
            Err(_) => (),
        }
        proof {
            assert(iv.take(i + 1).drop_last() =~= iv.take(i as int));
            assert(iv.take(i + 1).last() == iv[i as int]);
            assert(iv[i as int] == values@[i as int]@);
        }
        i += 1;
    }
    proof {
        assert(iv.take(values.len() as int) =~= iv);
    }
    out
}

/// Creating a hub under a free key and reading the same key back yields
/// exactly the derived hub that was stored.
pub proof fn lemma_hub_create_then_get(m: Map<Seq<char>, JsonV>, realm: Seq<char>, v: HubV)
    requires
        kv_get(m, spec_hub_key(realm, v.name)) is None,
    ensures
        ({
            let stored = spec_encode_hub(spec_derive_hub(realm, v));
            let (m1, ok) = kv_create(m, spec_hub_key(realm, v.name), stored);
            ok && kv_get(m1, spec_hub_key(realm, v.name)) == Some(stored) && spec_decode_hub(
                kv_get(m1, spec_hub_key(realm, v.name))->Some_0,
            ) == Ok::<HubV, ()>(spec_derive_hub(realm, v))
        }),
{
    let stored = spec_encode_hub(spec_derive_hub(realm, v));
    crate::store::lemma_create_then_get(m, spec_hub_key(realm, v.name), stored);
    lemma_hub_round_trip(spec_derive_hub(realm, v));
}


/// Creating the same hub name twice succeeds once and is refused the
/// second time, whatever the second request carried: the store keeps
/// exactly the first creation's derived hub.
pub proof fn lemma_hub_second_create_conflicts(
    m: Map<Seq<char>, JsonV>,
    realm: Seq<char>,
    first: HubV,
    second: HubV,
)
    requires
        kv_get(m, spec_hub_key(realm, first.name)) is None,
        second.name == first.name,
    ensures
        ({
            let stored = spec_encode_hub(spec_derive_hub(realm, first));
            let (m1, ok1) = kv_create(m, spec_hub_key(realm, first.name), stored);
            let (m2, ok2) = kv_create(
                m1,
                spec_hub_key(realm, second.name),
                spec_encode_hub(spec_derive_hub(realm, second)),
            );
            ok1 && !ok2 && m2 == m1 && spec_decode_hub(
                kv_get(m2, spec_hub_key(realm, first.name))->Some_0,
            ) == Ok::<HubV, ()>(spec_derive_hub(realm, first))
        }),
{
    let stored = spec_encode_hub(spec_derive_hub(realm, first));
    crate::store::lemma_second_create_is_refused(
        m,
        spec_hub_key(realm, first.name),
        stored,
        spec_encode_hub(spec_derive_hub(realm, second)),
    );
    lemma_hub_round_trip(spec_derive_hub(realm, first));
}


/// Deleting a hub right after a write hands back exactly the hub that the
/// write stored; deleting an unbound key reports nothing and changes
/// nothing.
pub proof fn lemma_hub_delete_returns_previous(
    m: Map<Seq<char>, JsonV>,
    realm: Seq<char>,
    v: HubV,
)
    ensures
        ({
            let stored = spec_encode_hub(spec_derive_hub(realm, v));
            let written = crate::store::kv_put(m, spec_hub_key(realm, v.name), stored);
            let (m1, prev) = crate::store::kv_delete(written, spec_hub_key(realm, v.name));
            prev == Some(stored) && m1 == m.remove(spec_hub_key(realm, v.name))
                && spec_decode_hub(prev->Some_0) == Ok::<HubV, ()>(spec_derive_hub(realm, v))
        }),
{
    let stored = spec_encode_hub(spec_derive_hub(realm, v));
    crate::store::lemma_delete_returns_previous(m, spec_hub_key(realm, v.name), stored);
    lemma_hub_round_trip(spec_derive_hub(realm, v));
}

/// A scan of realm A's hubs never covers a key under another realm B —
/// also when one realm's name is a prefix of the other's.
pub proof fn lemma_hub_list_scoped(
    m: Map<Seq<char>, JsonV>,
    realm_a: Seq<char>,
    realm_b: Seq<char>,
    name: Seq<char>,
)
    requires
        no_slash(realm_a),
        no_slash(realm_b),
        realm_a != realm_b,
    ensures
        !kv_prefix_keys(m, spec_hub_prefix(realm_a)).contains(spec_hub_key(realm_b, name)),
{
    reveal_strlit("/hubs/");
    lemma_two_level_scoped("/realms/"@, realm_a, "/hubs/"@, realm_b, name);
    crate::store::lemma_scan_excludes(m, spec_hub_prefix(realm_a), spec_hub_key(realm_b, name));
}

} // verus!
