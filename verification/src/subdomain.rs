//! Subdomains, stored per zone.
//!
//! A subdomain lives under
//! `/realms/{realm}/zones/{zone}/subdomains/{name}`. The server owns the
//! `zone` back-reference and the `fqdn`: the name `@` stands for the zone
//! apex, so its fqdn is the zone itself, and any other name is prefixed
//! onto the zone.

use crate::error::{ApiError, ApiErrorV};
use crate::json::{
    field, fields_closed, fields_view, items_view, keys_within, lookup, opt_str_field,
    spec_bool_or_false, spec_opt_str, spec_req_str, bool_or_false, opt_str, req_str, str_eq,
    DecodeError, Json, JsonV,
};
use crate::store::{kv_create, kv_get, kv_prefix_keys, lemma_three_level_scoped, no_slash};
use vstd::prelude::*;

verus! {

broadcast use {
    vstd::std_specs::vec::group_vec_axioms,
    crate::json::group_json_view,
    crate::json::group_json_fields,
};

/// A subdomain document.
#[derive(Debug, PartialEq)]
pub struct Subdomain {
    pub name: String,
    pub title: String,
    /// Server-derived: `{name}.{zone}`, or the zone itself for `@`.
    pub fqdn: Option<String>,
    /// Server-derived: the URN of the owning zone.
    pub zone: Option<String>,
    pub description: Option<String>,
    pub destination_realm: Option<String>,
    pub share_cookie: bool,
}

/// The mathematical shape of a [`Subdomain`].
pub struct SubdomainV {
    pub name: Seq<char>,
    pub title: Seq<char>,
    pub fqdn: Option<Seq<char>>,
    pub zone: Option<Seq<char>>,
    pub description: Option<Seq<char>>,
    pub destination_realm: Option<Seq<char>>,
    pub share_cookie: bool,
}

impl View for Subdomain {
    type V = SubdomainV;

    open spec fn view(&self) -> SubdomainV {
        SubdomainV {
            name: self.name@,
            title: self.title@,
            fqdn: self.fqdn.deep_view(),
            zone: self.zone.deep_view(),
            description: self.description.deep_view(),
            destination_realm: self.destination_realm.deep_view(),
            share_cookie: self.share_cookie,
        }
    }
}

impl DeepView for Subdomain {
    type V = SubdomainV;

    open spec fn deep_view(&self) -> SubdomainV {
        self.view()
    }
}

/// The key a subdomain is stored under.
pub open spec fn spec_subdomain_key(realm: Seq<char>, zone: Seq<char>, name: Seq<char>) -> Seq<
    char,
> {
    "/realms/"@ + realm + "/zones/"@ + zone + "/subdomains/"@ + name
}

/// The prefix that covers every subdomain of a zone.
pub open spec fn spec_subdomain_prefix(realm: Seq<char>, zone: Seq<char>) -> Seq<char> {
    "/realms/"@ + realm + "/zones/"@ + zone + "/subdomains/"@
}

/// Builds the key a subdomain is stored under.
pub fn subdomain_key(realm: &str, zone: &str, name: &str) -> (r: String)
    ensures
        r@ == spec_subdomain_key(realm@, zone@, name@),
{
    let mut k = String::from_str("/realms/");
    k.append(realm);
    k.append("/zones/");
    k.append(zone);
    k.append("/subdomains/");
    k.append(name);
    k
}

/// Builds the prefix that covers every subdomain of a zone.
pub fn subdomain_prefix(realm: &str, zone: &str) -> (r: String)
    ensures
        r@ == spec_subdomain_prefix(realm@, zone@),
{
    let mut k = String::from_str("/realms/");
    k.append(realm);
    k.append("/zones/");
    k.append(zone);
    k.append("/subdomains/");
    k
}

/// The member names a subdomain document may carry.
pub open spec fn subdomain_field_names() -> Seq<Seq<char>> {
    seq![
        "name"@,
        "title"@,
        "fqdn"@,
        "zone"@,
        "description"@,
        "destinationRealm"@,
        "shareCookie"@,
    ]
}

fn subdomain_allowed() -> (r: Vec<&'static str>)
    ensures
        r.deep_view() == subdomain_field_names(),
{
    let mut v: Vec<&'static str> = Vec::new();
    v.push("name");
    v.push("title");
    v.push("fqdn");
    v.push("zone");
    v.push("description");
    v.push("destinationRealm");
    v.push("shareCookie");
    proof {
        assert(v.deep_view() =~= subdomain_field_names());
    }
    v
}

/// Which documents are accepted as a subdomain: the field set is closed;
/// `name` and `title` are required, `shareCookie` defaults to false, the
/// rest are optional.
pub open spec fn spec_decode_subdomain(j: JsonV) -> Result<SubdomainV, ()> {
    match j {
        JsonV::Obj(fs) => if !keys_within(fs, subdomain_field_names()) {
            Err(())
        } else if spec_req_str(fs, "name"@) is Err || spec_req_str(fs, "title"@) is Err
            || spec_opt_str(fs, "fqdn"@) is Err || spec_opt_str(fs, "zone"@) is Err
            || spec_opt_str(fs, "description"@) is Err || spec_opt_str(fs, "destinationRealm"@) is Err
            || spec_bool_or_false(fs, "shareCookie"@) is Err {
            Err(())
        } else {
            Ok(
                SubdomainV {
                    name: spec_req_str(fs, "name"@)->Ok_0,
                    title: spec_req_str(fs, "title"@)->Ok_0,
                    fqdn: spec_opt_str(fs, "fqdn"@)->Ok_0,
                    zone: spec_opt_str(fs, "zone"@)->Ok_0,
                    description: spec_opt_str(fs, "description"@)->Ok_0,
                    destination_realm: spec_opt_str(fs, "destinationRealm"@)->Ok_0,
                    share_cookie: spec_bool_or_false(fs, "shareCookie"@)->Ok_0,
                },
            )
        },
        _ => Err(()),
    }
}

/// Reads a subdomain out of a document, enforcing the closed schema.
pub fn decode_subdomain(j: &Json) -> (r: Result<Subdomain, DecodeError>)
    ensures
        match r {
            Ok(v) => spec_decode_subdomain(j@) == Ok::<SubdomainV, ()>(v@),
            Err(_) => spec_decode_subdomain(j@) is Err,
        },
{
    let fields = match j {
        Json::Obj(fields) => fields,
        _ => {
            return Err(DecodeError);
        },
    };
    let allowed = subdomain_allowed();
    if !fields_closed(fields, &allowed) {
        return Err(DecodeError);
    }
    let name = match req_str(fields, "name") {
        Ok(v) => v,
        Err(e) => {
            return Err(e);
        },
    };
    let title = match req_str(fields, "title") {
        Ok(v) => v,
        Err(e) => {
            return Err(e);
        },
    };
    let fqdn = match opt_str(fields, "fqdn") {
        Ok(v) => v,
        Err(e) => {
            return Err(e);
        },
    };
    let zone = match opt_str(fields, "zone") {
        Ok(v) => v,
        Err(e) => {
            return Err(e);
        },
    };
    let description = match opt_str(fields, "description") {
        Ok(v) => v,
        Err(e) => {
            return Err(e);
        },
    };
    let destination_realm = match opt_str(fields, "destinationRealm") {
        Ok(v) => v,
        Err(e) => {
            return Err(e);
        },
    };
    let share_cookie = match bool_or_false(fields, "shareCookie") {
        Ok(v) => v,
        Err(e) => {
            return Err(e);
        },
    };
    Ok(Subdomain { name, title, fqdn, zone, description, destination_realm, share_cookie })
}

/// How a subdomain is written: members in declaration order, optional
/// members left out when absent.
pub open spec fn spec_encode_subdomain(v: SubdomainV) -> JsonV {
    JsonV::Obj(
        field("name"@, JsonV::Str(v.name)) + field("title"@, JsonV::Str(v.title)) + opt_str_field(
            "fqdn"@,
            v.fqdn,
        ) + opt_str_field("zone"@, v.zone) + opt_str_field("description"@, v.description)
            + opt_str_field("destinationRealm"@, v.destination_realm) + field(
            "shareCookie"@,
            JsonV::Bool(v.share_cookie),
        ),
    )
}

impl Subdomain {
    /// Writes the subdomain as a document.
    pub fn to_json(&self) -> (r: Json)
        ensures
            r@ == spec_encode_subdomain(self@),
    {
        let mut fields: Vec<(String, Json)> = Vec::new();
        fields.push((String::from_str("name"), Json::Str(self.name.clone())));
        fields.push((String::from_str("title"), Json::Str(self.title.clone())));
        match &self.fqdn {
            Some(d) => fields.push((String::from_str("fqdn"), Json::Str(d.clone()))),
            None => (),
        }
        match &self.zone {
            Some(d) => fields.push((String::from_str("zone"), Json::Str(d.clone()))),
            None => (),
        }
        match &self.description {
            Some(d) => fields.push((String::from_str("description"), Json::Str(d.clone()))),
            None => (),
        }
        match &self.destination_realm {
            Some(d) => fields.push((String::from_str("destinationRealm"), Json::Str(d.clone()))),
            None => (),
        }
        fields.push((String::from_str("shareCookie"), Json::Bool(self.share_cookie)));
        proof {
            assert(fields_view(fields@) =~= spec_encode_subdomain(self@)->Obj_0);
        }
        Json::Obj(fields)
    }
}

/// Reading a subdomain's encoding back yields the subdomain.
#[verifier::rlimit(50)]
pub proof fn lemma_subdomain_round_trip(v: SubdomainV)
    ensures
        spec_decode_subdomain(spec_encode_subdomain(v)) == Ok::<SubdomainV, ()>(v),
{
    reveal_strlit("name");
    reveal_strlit("title");
    reveal_strlit("fqdn");
    reveal_strlit("zone");
    reveal_strlit("description");
    reveal_strlit("destinationRealm");
    reveal_strlit("shareCookie");
    let fs = spec_encode_subdomain(v)->Obj_0;
    let names = subdomain_field_names();
    assert(names[0] == "name"@ && names[1] == "title"@ && names[2] == "fqdn"@ && names[3]
        == "zone"@ && names[4] == "description"@ && names[5] == "destinationRealm"@ && names[6]
        == "shareCookie"@);
    assert(keys_within(fs, names));
    // name pairs of one length are told apart by a differing character
    assert(("name"@)[0] == 'n' && ("fqdn"@)[0] == 'f' && ("zone"@)[0] == 'z');
    assert(("description"@)[0] == 'd' && ("shareCookie"@)[0] == 's');
    let s1 = field("name"@, JsonV::Str(v.name));
    let s2 = field("title"@, JsonV::Str(v.title));
    let s3 = opt_str_field("fqdn"@, v.fqdn);
    let s4 = opt_str_field("zone"@, v.zone);
    let s5 = opt_str_field("description"@, v.description);
    let s6 = opt_str_field("destinationRealm"@, v.destination_realm);
    let s7 = field("shareCookie"@, JsonV::Bool(v.share_cookie));
    assert(fs == s1 + s2 + s3 + s4 + s5 + s6 + s7);
    assert(lookup(fs, "name"@) == Some(JsonV::Str(v.name)));
    assert(lookup(fs, "title"@) == Some(JsonV::Str(v.title)));
    assert(lookup(fs, "fqdn"@) == match v.fqdn {
        Some(d) => Some(JsonV::Str(d)),
        None => None::<JsonV>,
    });
    assert(lookup(fs, "zone"@) == match v.zone {
        Some(d) => Some(JsonV::Str(d)),
        None => None::<JsonV>,
    });
    assert(lookup(fs, "description"@) == match v.description {
        Some(d) => Some(JsonV::Str(d)),
        None => None::<JsonV>,
    });
    assert(lookup(s1 + s2 + s3 + s4 + s5, "destinationRealm"@) is None);
    assert(lookup(fs, "destinationRealm"@) == match v.destination_realm {
        Some(d) => Some(JsonV::Str(d)),
        None => None::<JsonV>,
    });
    assert(lookup(s1 + s2 + s3 + s4 + s5 + s6, "shareCookie"@) is None);
    assert(lookup(fs, "shareCookie"@) == Some(JsonV::Bool(v.share_cookie)));
}

/// A document with a member outside the declared field set is never
/// accepted as a subdomain.
pub proof fn lemma_subdomain_rejects_unknown_field(fs: Seq<(Seq<char>, JsonV)>, i: int)
    requires
        0 <= i < fs.len(),
        !subdomain_field_names().contains(fs[i].0),
    ensures
        spec_decode_subdomain(JsonV::Obj(fs)) is Err,
{
    assert(!keys_within(fs, subdomain_field_names()));
}

/// The URN of a zone, as written into the documents it owns.
pub open spec fn spec_zone_urn(realm: Seq<char>, zone: Seq<char>) -> Seq<char> {
    "urn:chip-in:zone:"@ + realm + ":"@ + zone
}

/// The fqdn a subdomain derives: the zone apex for `@`, otherwise the name
/// prefixed onto the zone.
pub open spec fn spec_subdomain_fqdn(name: Seq<char>, zone: Seq<char>) -> Seq<char> {
    if name == "@"@ {
        zone
    } else {
        name + "."@ + zone
    }
}

/// The server-derived form of a subdomain: the `zone` back-reference and
/// the `fqdn` are overwritten from the request path.
pub open spec fn spec_derive_subdomain(realm: Seq<char>, zone: Seq<char>, v: SubdomainV) -> SubdomainV {
    SubdomainV {
        zone: Some(spec_zone_urn(realm, zone)),
        fqdn: Some(spec_subdomain_fqdn(v.name, zone)),
        ..v
    }
}

fn zone_urn(realm: &str, zone: &str) -> (r: String)
    ensures
        r@ == spec_zone_urn(realm@, zone@),
{
    let mut u = String::from_str("urn:chip-in:zone:");
    u.append(realm);
    u.append(":");
    u.append(zone);
    u
}

fn subdomain_fqdn(name: &str, zone: &str) -> (r: String)
    ensures
        r@ == spec_subdomain_fqdn(name@, zone@),
{
    if str_eq(name, "@") {
        zone.to_owned()
    } else {
        let mut f = name.to_owned();
        f.append(".");
        f.append(zone);
        f
    }
}

/// The conflict message for an already-existing subdomain.
pub open spec fn spec_subdomain_exists_msg(name: Seq<char>, zone: Seq<char>) -> Seq<char> {
    "Subdomain '"@ + name + "' already exists in zone '"@ + zone + "'."@
}

/// The message for a missing subdomain.
pub open spec fn spec_subdomain_not_found_msg(name: Seq<char>, zone: Seq<char>) -> Seq<char> {
    "Subdomain '"@ + name + "' not found in zone '"@ + zone + "'"@
}

/// Decides a subdomain creation once the existence check has been made:
/// refused with a conflict when the key is already bound, otherwise stored
/// with the derived zone back-reference and fqdn.
pub fn add_subdomain(realm: &str, zone_name: &str, subdomain: Subdomain, exists: bool) -> (r:
    Result<Subdomain, ApiError>)
    ensures
        exists ==> (r matches Err(e) && e@ == ApiErrorV::Conflict(
            spec_subdomain_exists_msg(subdomain@.name, zone_name@),
        )),
        !exists ==> (r matches Ok(s) && s@ == spec_derive_subdomain(realm@, zone_name@, subdomain@)),
{
    if exists {
        let mut m = String::from_str("Subdomain '");
        m.append(subdomain.name.as_str());
        m.append("' already exists in zone '");
        m.append(zone_name);
        m.append("'.");
        Err(ApiError::Conflict(m))
    } else {
        let fqdn = subdomain_fqdn(subdomain.name.as_str(), zone_name);
        let derived = Subdomain {
            zone: Some(zone_urn(realm, zone_name)),
            fqdn: Some(fqdn),
            ..subdomain
        };
        Ok(derived)
    }
}

/// Decides a subdomain update: the server-derived fields are overwritten
/// and the write is unconditional.
pub fn update_subdomain(realm: &str, zone_name: &str, subdomain: Subdomain) -> (r: Subdomain)
    ensures
        r@ == spec_derive_subdomain(realm@, zone_name@, subdomain@),
{
    let fqdn = subdomain_fqdn(subdomain.name.as_str(), zone_name);
    Subdomain { zone: Some(zone_urn(realm, zone_name)), fqdn: Some(fqdn), ..subdomain }
}

/// Decides what a point read of a subdomain returns.
pub fn get_subdomain(zone_name: &str, name: &str, found: Option<&Json>) -> (r: Result<
    Subdomain,
    ApiError,
>)
    ensures
        found is None ==> (r matches Err(e) && e@ == ApiErrorV::NotFound(
            spec_subdomain_not_found_msg(name@, zone_name@),
        )),
        found matches Some(j) ==> match spec_decode_subdomain(j@) {
            Ok(v) => r matches Ok(out) && out@ == v,
            Err(_) => r matches Err(e) && e@ == ApiErrorV::Internal(
                crate::error::spec_malformed_stored_msg(),
            ),
        },
{
    match found {
        Some(j) => match decode_subdomain(j) {
            Ok(v) => Ok(v),
            Err(_) => Err(ApiError::Internal(crate::error::malformed_stored_msg())),
        },
        None => {
            let mut m = String::from_str("Subdomain '");
            m.append(name);
            m.append("' not found in zone '");
            m.append(zone_name);
            m.append("'");
            Err(ApiError::NotFound(m))
        },
    }
}

/// Decides what a subdomain delete returns, given the document the
/// backend reported as bound to the key just before the delete.
pub fn delete_subdomain(zone_name: &str, name: &str, prev: Option<&Json>) -> (r: Result<
    Subdomain,
    ApiError,
>)
    ensures
        prev is None ==> (r matches Err(e) && e@ == ApiErrorV::NotFound(
            spec_subdomain_not_found_msg(name@, zone_name@),
        )),
        prev matches Some(j) ==> match spec_decode_subdomain(j@) {
            Ok(v) => r matches Ok(out) && out@ == v,
            Err(_) => r matches Err(e) && e@ == ApiErrorV::Internal(
                crate::error::spec_malformed_stored_msg(),
            ),
        },
{
    get_subdomain(zone_name, name, prev)
}

/// What a subdomain listing returns, raw value by raw value.
pub open spec fn spec_list_subdomains(vs: Seq<JsonV>) -> Seq<SubdomainV>
    decreases vs.len(),
{
    if vs.len() == 0 {
        Seq::empty()
    } else {
        let rest = spec_list_subdomains(vs.drop_last());
        match spec_decode_subdomain(vs.last()) {
            Ok(v) => rest.push(v),
            Err(_) => rest,
        }
    }
}

/// Reads a listing's raw values leniently: a value that does not decode as
/// a subdomain is dropped, the rest keep their order.
pub fn list_subdomains(values: &Vec<Json>) -> (r: Vec<Subdomain>)
    ensures
        r.deep_view() == spec_list_subdomains(items_view(values@)),
{
    let ghost iv = items_view(values@);
    let mut out: Vec<Subdomain> = Vec::new();
    let mut i: usize = 0;
    proof {
        assert(iv.take(0) =~= Seq::<JsonV>::empty());
        assert(out.deep_view() =~= Seq::<SubdomainV>::empty());
    }
    while i < values.len()
        invariant
            i <= values.len(),
            iv == items_view(values@),
            out.deep_view() == spec_list_subdomains(iv.take(i as int)),
        decreases values.len() - i,
    {
        let ghost prev = out.deep_view();
        match decode_subdomain(&values[i]) {
            Ok(v) => {
                let ghost vv = v@;
                out.push(v);
                proof {
                    assert(out.deep_view() =~= prev.push(vv));
                }
            },
            Err(_) => (),
        }
        proof {
            assert(iv.take(i + 1).drop_last() =~= iv.take(i as int));
            assert(iv.take(i + 1).last() == iv[i as int]);
            assert(iv[i as int] == values@[i as int]@);
        }
        i += 1;
    }
    proof {
        assert(iv.take(values.len() as int) =~= iv);
    }
    out
}

/// Creating a subdomain under a free key and reading the same key back
/// yields exactly the derived subdomain that was stored.
pub proof fn lemma_subdomain_create_then_get(
    m: Map<Seq<char>, JsonV>,
    realm: Seq<char>,
    zone: Seq<char>,
    v: SubdomainV,
)
    requires
        kv_get(m, spec_subdomain_key(realm, zone, v.name)) is None,
    ensures
        ({
            let stored = spec_encode_subdomain(spec_derive_subdomain(realm, zone, v));
            let (m1, ok) = kv_create(m, spec_subdomain_key(realm, zone, v.name), stored);
            ok && kv_get(m1, spec_subdomain_key(realm, zone, v.name)) == Some(stored)
                && spec_decode_subdomain(
                kv_get(m1, spec_subdomain_key(realm, zone, v.name))->Some_0,
            ) == Ok::<SubdomainV, ()>(spec_derive_subdomain(realm, zone, v))
        }),
{
    let stored = spec_encode_subdomain(spec_derive_subdomain(realm, zone, v));
    crate::store::lemma_create_then_get(m, spec_subdomain_key(realm, zone, v.name), stored);
    lemma_subdomain_round_trip(spec_derive_subdomain(realm, zone, v));
}

/// A scan of one zone's subdomains never covers a key under another zone
/// or another realm — also when one parent's name is a prefix of the
/// other's.
pub proof fn lemma_subdomain_list_scoped(
    m: Map<Seq<char>, JsonV>,
    realm_a: Seq<char>,
    zone_a: Seq<char>,
    realm_b: Seq<char>,
    zone_b: Seq<char>,
    name: Seq<char>,
)
    requires
        no_slash(realm_a),
        no_slash(realm_b),
        no_slash(zone_a),
        no_slash(zone_b),
        realm_a != realm_b || zone_a != zone_b,
    ensures
        !kv_prefix_keys(m, spec_subdomain_prefix(realm_a, zone_a)).contains(
            spec_subdomain_key(realm_b, zone_b, name),
        ),
{
    reveal_strlit("/zones/");
    reveal_strlit("/subdomains/");
    lemma_three_level_scoped(
        "/realms/"@,
        realm_a,
        "/zones/"@,
        zone_a,
        "/subdomains/"@,
        realm_b,
        zone_b,
        name,
    );
    crate::store::lemma_scan_excludes(
        m,
        spec_subdomain_prefix(realm_a, zone_a),
        spec_subdomain_key(realm_b, zone_b, name),
    );
}

} // verus!
