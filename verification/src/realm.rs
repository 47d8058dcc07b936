//! Realms: the root collection of the directory.
//!
//! A realm is stored under `/realms/{name}`. It has no server-derived
//! fields: what the caller submits is what is stored.

use crate::error::{ApiError, ApiErrorV};
use crate::json::{
    field, fields_closed, fields_view, items_view, keys_within, lookup, opt_i64_field,
    opt_str_field, spec_opt_i64, spec_opt_str, spec_req_bool, spec_req_str,
    spec_str_list_or_empty, str_seq_items, opt_i64, opt_str, req_bool, req_str,
    str_list_or_empty, strs_to_json, lemma_str_items_round_trip, DecodeError, Json, JsonV,
};
use crate::store::{kv_create, kv_get};
use vstd::prelude::*;

verus! {

broadcast use {
    vstd::std_specs::vec::group_vec_axioms,
    crate::json::group_json_view,
    crate::json::group_json_fields,
};

/// A realm document.
#[derive(Debug, PartialEq)]
pub struct Realm {
    pub name: String,
    pub title: String,
    pub description: Option<String>,
    pub cacert: String,
    pub signing_key: String,
    pub session_timeout: Option<i64>,
    pub administrators: Vec<String>,
    pub expired_at: Option<String>,
    pub disabled: bool,
}

/// The mathematical shape of a [`Realm`].
pub struct RealmV {
    pub name: Seq<char>,
    pub title: Seq<char>,
    pub description: Option<Seq<char>>,
    pub cacert: Seq<char>,
    pub signing_key: Seq<char>,
    pub session_timeout: Option<i64>,
    pub administrators: Seq<Seq<char>>,
    pub expired_at: Option<Seq<char>>,
    pub disabled: bool,
}

impl View for Realm {
    type V = RealmV;

    open spec fn view(&self) -> RealmV {
        RealmV {
            name: self.name@,
            title: self.title@,
            description: self.description.deep_view(),
            cacert: self.cacert@,
            signing_key: self.signing_key@,
            session_timeout: self.session_timeout,
            administrators: self.administrators.deep_view(),
            expired_at: self.expired_at.deep_view(),
            disabled: self.disabled,
        }
    }
}

impl DeepView for Realm {
    type V = RealmV;

    open spec fn deep_view(&self) -> RealmV {
        self.view()
    }
}

/// The key a realm is stored under.
pub open spec fn spec_realm_key(name: Seq<char>) -> Seq<char> {
    "/realms/"@ + name
}

/// Builds the key a realm is stored under.
pub fn realm_key(name: &str) -> (r: String)
    ensures
        r@ == spec_realm_key(name@),
{
    let mut k = String::from_str("/realms/");
    k.append(name);
    k
}

/// The member names a realm document may carry.
pub open spec fn realm_field_names() -> Seq<Seq<char>> {
    seq![
        "name"@,
        "title"@,
        "description"@,
        "cacert"@,
        "signingKey"@,
        "sessionTimeout"@,
        "administrators"@,
        "expiredAt"@,
        "disabled"@,
    ]
}

fn realm_allowed() -> (r: Vec<&'static str>)
    ensures
        r.deep_view() == realm_field_names(),
{
    let mut v: Vec<&'static str> = Vec::new();
    v.push("name");
    v.push("title");
    v.push("description");
    v.push("cacert");
    v.push("signingKey");
    v.push("sessionTimeout");
    v.push("administrators");
    v.push("expiredAt");
    v.push("disabled");
    proof {
        assert(v.deep_view() =~= realm_field_names());
    }
    v
}

/// Which documents are accepted as a realm, and what they carry: the field
/// set is closed, `name`, `title`, `cacert`, `signingKey` and `disabled`
/// are required, `administrators` defaults to the empty list, and the rest
/// are optional.
pub open spec fn spec_decode_realm(j: JsonV) -> Result<RealmV, ()> {
    match j {
        JsonV::Obj(fs) => if !keys_within(fs, realm_field_names()) {
            Err(())
        } else if spec_req_str(fs, "name"@) is Err || spec_req_str(fs, "title"@) is Err
            || spec_opt_str(fs, "description"@) is Err || spec_req_str(fs, "cacert"@) is Err
            || spec_req_str(fs, "signingKey"@) is Err || spec_opt_i64(fs, "sessionTimeout"@) is Err
            || spec_str_list_or_empty(fs, "administrators"@) is Err || spec_opt_str(
            fs,
            "expiredAt"@,
        ) is Err || spec_req_bool(fs, "disabled"@) is Err {
            Err(())
        } else {
            Ok(
                RealmV {
                    name: spec_req_str(fs, "name"@)->Ok_0,
                    title: spec_req_str(fs, "title"@)->Ok_0,
                    description: spec_opt_str(fs, "description"@)->Ok_0,
                    cacert: spec_req_str(fs, "cacert"@)->Ok_0,
                    signing_key: spec_req_str(fs, "signingKey"@)->Ok_0,
                    session_timeout: spec_opt_i64(fs, "sessionTimeout"@)->Ok_0,
                    administrators: spec_str_list_or_empty(fs, "administrators"@)->Ok_0,
                    expired_at: spec_opt_str(fs, "expiredAt"@)->Ok_0,
                    disabled: spec_req_bool(fs, "disabled"@)->Ok_0,
                },
            )
        },
        _ => Err(()),
    }
}

/// Reads a realm out of a document, enforcing the closed schema.
pub fn decode_realm(j: &Json) -> (r: Result<Realm, DecodeError>)
    ensures
        match r {
            Ok(v) => spec_decode_realm(j@) == Ok::<RealmV, ()>(v@),
            Err(_) => spec_decode_realm(j@) is Err,
        },
{
    let fields = match j {
        Json::Obj(fields) => fields,
        _ => {
            return Err(DecodeError);
        },
    };
    let allowed = realm_allowed();
    if !fields_closed(fields, &allowed) {
        return Err(DecodeError);
    }
    let name = match req_str(fields, "name") {
        Ok(v) => v,
        Err(e) => {
            return Err(e);
        },
    };
    let title = match req_str(fields, "title") {
        Ok(v) => v,
        Err(e) => {
            return Err(e);
        },
    };
    let description = match opt_str(fields, "description") {
        Ok(v) => v,
        Err(e) => {
            return Err(e);
        },
    };
    let cacert = match req_str(fields, "cacert") {
        Ok(v) => v,
        Err(e) => {
            return Err(e);
        },
    };
    let signing_key = match req_str(fields, "signingKey") {
        Ok(v) => v,
        Err(e) => {
            return Err(e);
        },
    };
    let session_timeout = match opt_i64(fields, "sessionTimeout") {
        Ok(v) => v,
        Err(e) => {
            return Err(e);
        },
    };
    let administrators = match str_list_or_empty(fields, "administrators") {
        Ok(v) => v,
        Err(e) => {
            return Err(e);
        },
    };
    let expired_at = match opt_str(fields, "expiredAt") {
        Ok(v) => v,
        Err(e) => {
            return Err(e);
        },
    };
    let disabled = match req_bool(fields, "disabled") {
        Ok(v) => v,
        Err(e) => {
            return Err(e);
        },
    };
    Ok(
        Realm {
            name,
            title,
            description,
            cacert,
            signing_key,
            session_timeout,
            administrators,
            expired_at,
            disabled,
        },
    )
}

/// How a realm is written: members in declaration order, optional members
/// left out when absent.
pub open spec fn spec_encode_realm(v: RealmV) -> JsonV {
    JsonV::Obj(
        field("name"@, JsonV::Str(v.name)) + field("title"@, JsonV::Str(v.title)) + opt_str_field(
            "description"@,
            v.description,
        ) + field("cacert"@, JsonV::Str(v.cacert)) + field("signingKey"@, JsonV::Str(v.signing_key))
            + opt_i64_field("sessionTimeout"@, v.session_timeout) + field(
            "administrators"@,
            JsonV::Arr(str_seq_items(v.administrators)),
        ) + opt_str_field("expiredAt"@, v.expired_at) + field("disabled"@, JsonV::Bool(v.disabled)),
    )
}

impl Realm {
    /// Writes the realm as a document.
    pub fn to_json(&self) -> (r: Json)
        ensures
            r@ == spec_encode_realm(self@),
    {
        let mut fields: Vec<(String, Json)> = Vec::new();
        fields.push((String::from_str("name"), Json::Str(self.name.clone())));
        fields.push((String::from_str("title"), Json::Str(self.title.clone())));
        match &self.description {
            Some(d) => fields.push((String::from_str("description"), Json::Str(d.clone()))),
            None => (),
        }
        fields.push((String::from_str("cacert"), Json::Str(self.cacert.clone())));
        fields.push((String::from_str("signingKey"), Json::Str(self.signing_key.clone())));
        match &self.session_timeout {
            Some(t) => fields.push((String::from_str("sessionTimeout"), Json::Int(*t))),
            None => (),
        }
        fields.push((String::from_str("administrators"), Json::Arr(strs_to_json(&self.administrators))));
        match &self.expired_at {
            Some(d) => fields.push((String::from_str("expiredAt"), Json::Str(d.clone()))),
            None => (),
        }
        fields.push((String::from_str("disabled"), Json::Bool(self.disabled)));
        proof {
            assert(fields_view(fields@) =~= spec_encode_realm(self@)->Obj_0);
        }
        Json::Obj(fields)
    }
}

/// Reading a realm's encoding back yields the realm: nothing is lost or
/// invented by a write followed by a read.
#[verifier::rlimit(50)]
pub proof fn lemma_realm_round_trip(v: RealmV)
    ensures
        spec_decode_realm(spec_encode_realm(v)) == Ok::<RealmV, ()>(v),
{
    reveal_strlit("name");
    reveal_strlit("title");
    reveal_strlit("description");
    reveal_strlit("cacert");
    reveal_strlit("signingKey");
    reveal_strlit("sessionTimeout");
    reveal_strlit("administrators");
    reveal_strlit("expiredAt");
    reveal_strlit("disabled");
    let fs = spec_encode_realm(v)->Obj_0;
    let names = realm_field_names();
    assert(names[0] == "name"@ && names[1] == "title"@ && names[2] == "description"@ && names[3]
        == "cacert"@ && names[4] == "signingKey"@ && names[5] == "sessionTimeout"@ && names[6]
        == "administrators"@ && names[7] == "expiredAt"@ && names[8] == "disabled"@);
    assert(keys_within(fs, names));
    // two member names share a length; a differing character tells them apart
    assert(("sessionTimeout"@)[0] == 's' && ("administrators"@)[0] == 'a');
    assert(lookup(fs, "name"@) == Some(JsonV::Str(v.name)));
    assert(lookup(fs, "title"@) == Some(JsonV::Str(v.title)));
    assert(lookup(fs, "description"@) == match v.description {
        Some(d) => Some(JsonV::Str(d)),
        None => None::<JsonV>,
    });
    assert(lookup(fs, "cacert"@) == Some(JsonV::Str(v.cacert)));
    assert(lookup(fs, "signingKey"@) == Some(JsonV::Str(v.signing_key)));
    assert(lookup(fs, "sessionTimeout"@) == match v.session_timeout {
        Some(t) => Some(JsonV::Int(t)),
        None => None::<JsonV>,
    });
    assert(lookup(fs, "administrators"@) == Some(JsonV::Arr(str_seq_items(v.administrators))));
    lemma_str_items_round_trip(v.administrators);
    assert(lookup(fs, "expiredAt"@) == match v.expired_at {
        Some(d) => Some(JsonV::Str(d)),
        None => None::<JsonV>,
    });
    assert(lookup(fs, "disabled"@) == Some(JsonV::Bool(v.disabled)));
}

/// A document with a member outside the declared field set is never
/// accepted as a realm.
pub proof fn lemma_realm_rejects_unknown_field(fs: Seq<(Seq<char>, JsonV)>, i: int)
    requires
        0 <= i < fs.len(),
        !realm_field_names().contains(fs[i].0),
    ensures
        spec_decode_realm(JsonV::Obj(fs)) is Err,
{
    assert(!keys_within(fs, realm_field_names()));
}

/// The conflict message for an already-existing realm.
pub open spec fn spec_realm_exists_msg(name: Seq<char>) -> Seq<char> {
    "Realm '"@ + name + "' already exists."@
}

/// The message for a missing realm.
pub open spec fn spec_realm_not_found_msg(name: Seq<char>) -> Seq<char> {
    "Realm '"@ + name + "' not found."@
}

/// Decides a realm creation once the existence check has been made:
/// refused with a conflict when the key is already bound, stored as
/// submitted otherwise.
pub fn add_realm(realm: Realm, exists: bool) -> (r: Result<Realm, ApiError>)
    ensures
        exists ==> (r matches Err(e) && e@ == ApiErrorV::Conflict(
            spec_realm_exists_msg(realm@.name),
        )),
        !exists ==> r == Ok::<Realm, ApiError>(realm),
{
    if exists {
        let mut m = String::from_str("Realm '");
        m.append(realm.name.as_str());
        m.append("' already exists.");
        Err(ApiError::Conflict(m))
    } else {
        Ok(realm)
    }
}

/// Decides what a point read of a realm returns: the stored document when
/// it is present and well-formed, not-found when the key is unbound, and an
/// internal error when the stored document no longer fits the schema.
pub fn get_realm(name: &str, found: Option<&Json>) -> (r: Result<Realm, ApiError>)
    ensures
        found is None ==> (r matches Err(e) && e@ == ApiErrorV::NotFound(
            spec_realm_not_found_msg(name@),
        )),
        found matches Some(j) ==> match spec_decode_realm(j@) {
            Ok(v) => r matches Ok(out) && out@ == v,
            Err(_) => r matches Err(e) && e@ == ApiErrorV::Internal(
                crate::error::spec_malformed_stored_msg(),
            ),
        },
{
    match found {
        Some(j) => match decode_realm(j) {
            Ok(v) => Ok(v),
            Err(_) => Err(ApiError::Internal(crate::error::malformed_stored_msg())),
        },
        None => {
            let mut m = String::from_str("Realm '");
            m.append(name);
            m.append("' not found.");
            Err(ApiError::NotFound(m))
        },
    }
}

/// Decides what a delete returns, given the document the backend reported
/// as bound to the key just before the delete.
pub fn delete_realm(name: &str, prev: Option<&Json>) -> (r: Result<Realm, ApiError>)
    ensures
        prev is None ==> (r matches Err(e) && e@ == ApiErrorV::NotFound(
            spec_realm_not_found_msg(name@),
        )),
        prev matches Some(j) ==> match spec_decode_realm(j@) {
            Ok(v) => r matches Ok(out) && out@ == v,
            Err(_) => r matches Err(e) && e@ == ApiErrorV::Internal(
                crate::error::spec_malformed_stored_msg(),
            ),
        },
{
    get_realm(name, prev)
}

/// What a realm listing returns, raw value by raw value: well-formed
/// documents in order, anything else silently dropped.
pub open spec fn spec_list_realms(vs: Seq<JsonV>) -> Seq<RealmV>
    decreases vs.len(),
{
    if vs.len() == 0 {
        Seq::empty()
    } else {
        let rest = spec_list_realms(vs.drop_last());
        match spec_decode_realm(vs.last()) {
            Ok(v) => rest.push(v),
            Err(_) => rest,
        }
    }
}

/// Reads a listing's raw values leniently: a value that does not decode as
/// a realm is dropped, the rest keep their order.
pub fn list_realms(values: &Vec<Json>) -> (r: Vec<Realm>)
    ensures
        r.deep_view() == spec_list_realms(items_view(values@)),
{
    let ghost iv = items_view(values@);
    let mut out: Vec<Realm> = Vec::new();
    let mut i: usize = 0;
    proof {
        assert(iv.take(0) =~= Seq::<JsonV>::empty());
        assert(out.deep_view() =~= Seq::<RealmV>::empty());
    }
    while i < values.len()
        invariant
            i <= values.len(),
            iv == items_view(values@),
            out.deep_view() == spec_list_realms(iv.take(i as int)),
        decreases values.len() - i,
    {
        let ghost prev = out.deep_view();
        match decode_realm(&values[i]) {
            Ok(v) => {
                let ghost vv = v@;
                out.push(v);
                proof {
                    assert(out.deep_view() =~= prev.push(vv));
                }
            },
            Err(_) => (),
        }
        proof {
            assert(iv.take(i + 1).drop_last() =~= iv.take(i as int));
            assert(iv.take(i + 1).last() == iv[i as int]);
            assert(iv[i as int] == values@[i as int]@);
        }
        i += 1;
    }
    proof {
        assert(iv.take(values.len() as int) =~= iv);
    }
    out
}

/// Creating a realm under a free name and reading the same key back yields
/// exactly the stored realm.
pub proof fn lemma_realm_create_then_get(m: Map<Seq<char>, JsonV>, v: RealmV)
    requires
        kv_get(m, spec_realm_key(v.name)) is None,
    ensures
        ({
            let (m1, ok) = kv_create(m, spec_realm_key(v.name), spec_encode_realm(v));
            ok && kv_get(m1, spec_realm_key(v.name)) == Some(spec_encode_realm(v))
                && spec_decode_realm(kv_get(m1, spec_realm_key(v.name))->Some_0) == Ok::<
                RealmV,
                (),
            >(v)
        }),
{
    crate::store::lemma_create_then_get(m, spec_realm_key(v.name), spec_encode_realm(v));
    lemma_realm_round_trip(v);
}

} // verus!
