//! Virtual hosts, stored per realm.
//!
//! A virtual host lives under `/realms/{realm}/virtual-hosts/{name}`. The
//! server owns the `realm` back-reference, and a creation always starts
//! with an empty certificate list, whatever the caller submitted.

use crate::error::{ApiError, ApiErrorV};
use crate::json::{
    field, fields_closed, fields_view, items_view, keys_within, lookup, opt_str_field,
    spec_bool_or_false, spec_opt_str, spec_req_str, spec_str_list_or_empty, str_seq_items,
    bool_or_false, opt_str, req_str, str_list_or_empty, strs_to_json, lemma_str_items_round_trip,
    DecodeError, Json, JsonV,
};
use crate::store::{kv_create, kv_get, kv_prefix_keys, lemma_two_level_scoped, no_slash};
use vstd::prelude::*;

verus! {

broadcast use {
    vstd::std_specs::vec::group_vec_axioms,
    crate::json::group_json_view,
    crate::json::group_json_fields,
};

/// A virtual-host document.
#[derive(Debug, PartialEq)]
pub struct VirtualHost {
    pub name: String,
    pub title: String,
    pub description: Option<String>,
    /// Server-derived: the name of the owning realm.
    pub realm: Option<String>,
    pub subdomain: String,
    pub routing_chain: String,
    /// Reset to the empty list on creation.
    pub certificate: Vec<String>,
    pub key: Option<String>,
    pub disabled: bool,
}

/// The mathematical shape of a [`VirtualHost`].
pub struct VirtualHostV {
    pub name: Seq<char>,
    pub title: Seq<char>,
    pub description: Option<Seq<char>>,
    pub realm: Option<Seq<char>>,
    pub subdomain: Seq<char>,
    pub routing_chain: Seq<char>,
    pub certificate: Seq<Seq<char>>,
    pub key: Option<Seq<char>>,
    pub disabled: bool,
}

impl View for VirtualHost {
    type V = VirtualHostV;

    open spec fn view(&self) -> VirtualHostV {
        VirtualHostV {
            name: self.name@,
            title: self.title@,
            description: self.description.deep_view(),
            realm: self.realm.deep_view(),
            subdomain: self.subdomain@,
            routing_chain: self.routing_chain@,
            certificate: self.certificate.deep_view(),
            key: self.key.deep_view(),
            disabled: self.disabled,
        }
    }
}

impl DeepView for VirtualHost {
    type V = VirtualHostV;

    open spec fn deep_view(&self) -> VirtualHostV {
        self.view()
    }
}

/// The key a virtual host is stored under.
pub open spec fn spec_virtual_host_key(realm: Seq<char>, name: Seq<char>) -> Seq<char> {
    "/realms/"@ + realm + "/virtual-hosts/"@ + name
}

/// The prefix that covers every virtual host of a realm.
pub open spec fn spec_virtual_host_prefix(realm: Seq<char>) -> Seq<char> {
    "/realms/"@ + realm + "/virtual-hosts/"@
}

/// Builds the key a virtual host is stored under.
pub fn virtual_host_key(realm: &str, name: &str) -> (r: String)
    ensures
        r@ == spec_virtual_host_key(realm@, name@),
{
    let mut k = String::from_str("/realms/");
    k.append(realm);
    k.append("/virtual-hosts/");
    k.append(name);
    k
}

/// Builds the prefix that covers every virtual host of a realm.
pub fn virtual_host_prefix(realm: &str) -> (r: String)
    ensures
        r@ == spec_virtual_host_prefix(realm@),
{
    let mut k = String::from_str("/realms/");
    k.append(realm);
    k.append("/virtual-hosts/");
    k
}

/// The member names a virtual-host document may carry.
pub open spec fn virtual_host_field_names() -> Seq<Seq<char>> {
    seq![
        "name"@,
        "title"@,
        "description"@,
        "realm"@,
        "subdomain"@,
        "routingChain"@,
        "certificate"@,
        "key"@,
        "disabled"@,
    ]
}

fn virtual_host_allowed() -> (r: Vec<&'static str>)
    ensures
        r.deep_view() == virtual_host_field_names(),
{
    let mut v: Vec<&'static str> = Vec::new();
    v.push("name");
    v.push("title");
    v.push("description");
    v.push("realm");
    v.push("subdomain");
    v.push("routingChain");
    v.push("certificate");
    v.push("key");
    v.push("disabled");
    proof {
        assert(v.deep_view() =~= virtual_host_field_names());
    }
    v
}

/// Which documents are accepted as a virtual host: the field set is
/// closed; `name`, `title`, `subdomain` and `routingChain` are required,
/// `certificate` defaults to the empty list, `disabled` to false.
pub open spec fn spec_decode_virtual_host(j: JsonV) -> Result<VirtualHostV, ()> {
    match j {
        JsonV::Obj(fs) => if !keys_within(fs, virtual_host_field_names()) {
            Err(())
        } else if spec_req_str(fs, "name"@) is Err || spec_req_str(fs, "title"@) is Err
            || spec_opt_str(fs, "description"@) is Err || spec_opt_str(fs, "realm"@) is Err
            || spec_req_str(fs, "subdomain"@) is Err || spec_req_str(fs, "routingChain"@) is Err
            || spec_str_list_or_empty(fs, "certificate"@) is Err || spec_opt_str(fs, "key"@) is Err
            || spec_bool_or_false(fs, "disabled"@) is Err {
            Err(())
        } else {
            Ok(
                VirtualHostV {
                    name: spec_req_str(fs, "name"@)->Ok_0,
                    title: spec_req_str(fs, "title"@)->Ok_0,
                    description: spec_opt_str(fs, "description"@)->Ok_0,
                    realm: spec_opt_str(fs, "realm"@)->Ok_0,
                    subdomain: spec_req_str(fs, "subdomain"@)->Ok_0,
                    routing_chain: spec_req_str(fs, "routingChain"@)->Ok_0,
                    certificate: spec_str_list_or_empty(fs, "certificate"@)->Ok_0,
                    key: spec_opt_str(fs, "key"@)->Ok_0,
                    disabled: spec_bool_or_false(fs, "disabled"@)->Ok_0,
                },
            )
        },
        _ => Err(()),
    }
}

/// Reads a virtual host out of a document, enforcing the closed schema.
pub fn decode_virtual_host(j: &Json) -> (r: Result<VirtualHost, DecodeError>)
    ensures
        match r {
            Ok(v) => spec_decode_virtual_host(j@) == Ok::<VirtualHostV, ()>(v@),
            Err(_) => spec_decode_virtual_host(j@) is Err,
        },
{
    let fields = match j {
        Json::Obj(fields) => fields,
        _ => {
            return Err(DecodeError);
        },
    };
    let allowed = virtual_host_allowed();
    if !fields_closed(fields, &allowed) {
        return Err(DecodeError);
    }
    let name = match req_str(fields, "name") {
        Ok(v) => v,
        Err(e) => {
            return Err(e);
        },
    };
    let title = match req_str(fields, "title") {
        Ok(v) => v,
        Err(e) => {
            return Err(e);
        },
    };
    let description = match opt_str(fields, "description") {
        Ok(v) => v,
        Err(e) => {
            return Err(e);
        },
    };
    let realm = match opt_str(fields, "realm") {
        Ok(v) => v,
        Err(e) => {
            return Err(e);
        },
    };
    let subdomain = match req_str(fields, "subdomain") {
        Ok(v) => v,
        Err(e) => {
            return Err(e);
        },
    };
    let routing_chain = match req_str(fields, "routingChain") {
        Ok(v) => v,
        Err(e) => {
            return Err(e);
        },
    };
    let certificate = match str_list_or_empty(fields, "certificate") {
        Ok(v) => v,
        Err(e) => {
            return Err(e);
        },
    };
    let key = match opt_str(fields, "key") {
        Ok(v) => v,
        Err(e) => {
            return Err(e);
        },
    };
    let disabled = match bool_or_false(fields, "disabled") {
        Ok(v) => v,
        Err(e) => {
            return Err(e);
        },
    };
    Ok(
        VirtualHost {
            name,
            title,
            description,
            realm,
            subdomain,
            routing_chain,
            certificate,
            key,
            disabled,
        },
    )
}

/// How a virtual host is written: members in declaration order, optional
/// members left out when absent.
pub open spec fn spec_encode_virtual_host(v: VirtualHostV) -> JsonV {
    JsonV::Obj(
        field("name"@, JsonV::Str(v.name)) + field("title"@, JsonV::Str(v.title)) + opt_str_field(
            "description"@,
            v.description,
        ) + opt_str_field("realm"@, v.realm) + field("subdomain"@, JsonV::Str(v.subdomain))
            + field("routingChain"@, JsonV::Str(v.routing_chain)) + field(
            "certificate"@,
            JsonV::Arr(str_seq_items(v.certificate)),
        ) + opt_str_field("key"@, v.key) + field("disabled"@, JsonV::Bool(v.disabled)),
    )
}

impl VirtualHost {
    /// Writes the virtual host as a document.
    pub fn to_json(&self) -> (r: Json)
        ensures
            r@ == spec_encode_virtual_host(self@),
    {
        let mut fields: Vec<(String, Json)> = Vec::new();
        fields.push((String::from_str("name"), Json::Str(self.name.clone())));
        fields.push((String::from_str("title"), Json::Str(self.title.clone())));
        match &self.description {
            Some(d) => fields.push((String::from_str("description"), Json::Str(d.clone()))),
            None => (),
        }
        match &self.realm {
            Some(d) => fields.push((String::from_str("realm"), Json::Str(d.clone()))),
            None => (),
        }
        fields.push((String::from_str("subdomain"), Json::Str(self.subdomain.clone())));
        fields.push((String::from_str("routingChain"), Json::Str(self.routing_chain.clone())));
        fields.push((String::from_str("certificate"), Json::Arr(strs_to_json(&self.certificate))));
        match &self.key {
            Some(d) => fields.push((String::from_str("key"), Json::Str(d.clone()))),
            None => (),
        }
        fields.push((String::from_str("disabled"), Json::Bool(self.disabled)));
        proof {
            assert(fields_view(fields@) =~= spec_encode_virtual_host(self@)->Obj_0);
        }
        Json::Obj(fields)
    }
}

/// Reading a virtual host's encoding back yields the virtual host.
#[verifier::rlimit(50)]
pub proof fn lemma_virtual_host_round_trip(v: VirtualHostV)
    ensures
        spec_decode_virtual_host(spec_encode_virtual_host(v)) == Ok::<VirtualHostV, ()>(v),
{
    reveal_strlit("name");
    reveal_strlit("title");
    reveal_strlit("description");
    reveal_strlit("realm");
    reveal_strlit("subdomain");
    reveal_strlit("routingChain");
    reveal_strlit("certificate");
    reveal_strlit("key");
    reveal_strlit("disabled");
    let fs = spec_encode_virtual_host(v)->Obj_0;
    let names = virtual_host_field_names();
    assert(names[0] == "name"@ && names[1] == "title"@ && names[2] == "description"@ && names[3]
        == "realm"@ && names[4] == "subdomain"@ && names[5] == "routingChain"@ && names[6]
        == "certificate"@ && names[7] == "key"@ && names[8] == "disabled"@);
    assert(keys_within(fs, names));
    // name pairs of one length are told apart by a differing character
    assert(("title"@)[0] == 't' && ("realm"@)[0] == 'r');
    assert(("description"@)[0] == 'd' && ("certificate"@)[0] == 'c');
    let s1 = field("name"@, JsonV::Str(v.name));
    let s2 = field("title"@, JsonV::Str(v.title));
    let s3 = opt_str_field("description"@, v.description);
    let s4 = opt_str_field("realm"@, v.realm);
    let s5 = field("subdomain"@, JsonV::Str(v.subdomain));
    let s6 = field("routingChain"@, JsonV::Str(v.routing_chain));
    let s7 = field("certificate"@, JsonV::Arr(str_seq_items(v.certificate)));
    let s8 = opt_str_field("key"@, v.key);
    let s9 = field("disabled"@, JsonV::Bool(v.disabled));
    assert(fs == s1 + s2 + s3 + s4 + s5 + s6 + s7 + s8 + s9);
    assert(lookup(fs, "name"@) == Some(JsonV::Str(v.name)));
    assert(lookup(fs, "title"@) == Some(JsonV::Str(v.title)));
    assert(lookup(fs, "description"@) == match v.description {
        Some(d) => Some(JsonV::Str(d)),
        None => None::<JsonV>,
    });
    assert(lookup(fs, "realm"@) == match v.realm {
        Some(d) => Some(JsonV::Str(d)),
        None => None::<JsonV>,
    });
    assert(lookup(s1 + s2 + s3 + s4, "subdomain"@) is None);
    assert(lookup(fs, "subdomain"@) == Some(JsonV::Str(v.subdomain)));
    assert(lookup(s1 + s2 + s3 + s4 + s5, "routingChain"@) is None);
    assert(lookup(fs, "routingChain"@) == Some(JsonV::Str(v.routing_chain)));
    assert(lookup(s1 + s2 + s3 + s4 + s5 + s6, "certificate"@) is None);
    assert(lookup(fs, "certificate"@) == Some(JsonV::Arr(str_seq_items(v.certificate))));
    lemma_str_items_round_trip(v.certificate);
    assert(lookup(s1 + s2 + s3 + s4 + s5 + s6 + s7, "key"@) is None);
    assert(lookup(fs, "key"@) == match v.key {
        Some(d) => Some(JsonV::Str(d)),
        None => None::<JsonV>,
    });
    assert(lookup(s1 + s2 + s3 + s4 + s5 + s6 + s7 + s8, "disabled"@) is None);
    assert(lookup(fs, "disabled"@) == Some(JsonV::Bool(v.disabled)));
}

/// A document with a member outside the declared field set is never
/// accepted as a virtual host.
pub proof fn lemma_virtual_host_rejects_unknown_field(fs: Seq<(Seq<char>, JsonV)>, i: int)
    requires
        0 <= i < fs.len(),
        !virtual_host_field_names().contains(fs[i].0),
    ensures
        spec_decode_virtual_host(JsonV::Obj(fs)) is Err,
{
    assert(!keys_within(fs, virtual_host_field_names()));
}

/// The server-derived form of a freshly created virtual host: the `realm`
/// back-reference is the realm's name and the certificate list starts
/// empty, whatever the caller submitted.
pub open spec fn spec_derive_virtual_host_create(realm: Seq<char>, v: VirtualHostV) -> VirtualHostV {
    VirtualHostV { realm: Some(realm), certificate: Seq::empty(), ..v }
}

/// The server-derived form of an updated virtual host: only the `realm`
/// back-reference is overwritten; the certificate list is kept.
pub open spec fn spec_derive_virtual_host_update(realm: Seq<char>, v: VirtualHostV) -> VirtualHostV {
    VirtualHostV { realm: Some(realm), ..v }
}

/// The conflict message for an already-existing virtual host.
pub open spec fn spec_virtual_host_exists_msg(name: Seq<char>, realm: Seq<char>) -> Seq<char> {
    "VirtualHost '"@ + name + "' already exists in realm '"@ + realm + "'."@
}

/// The message for a missing virtual host.
pub open spec fn spec_virtual_host_not_found_msg(name: Seq<char>, realm: Seq<char>) -> Seq<char> {
    "VirtualHost '"@ + name + "' not found in realm '"@ + realm + "'"@
}

/// Decides a virtual-host creation once the existence check has been
/// made: refused with a conflict when the key is already bound, otherwise
/// stored with the derived realm and an empty certificate list.
pub fn add_virtual_host(realm: &str, host: VirtualHost, exists: bool) -> (r: Result<
    VirtualHost,
    ApiError,
>)
    ensures
        exists ==> (r matches Err(e) && e@ == ApiErrorV::Conflict(
            spec_virtual_host_exists_msg(host@.name, realm@),
        )),
        !exists ==> (r matches Ok(h) && h@ == spec_derive_virtual_host_create(realm@, host@)),
{
    if exists {
        let mut m = String::from_str("VirtualHost '");
        m.append(host.name.as_str());
        m.append("' already exists in realm '");
        m.append(realm);
        m.append("'.");
        Err(ApiError::Conflict(m))
    } else {
        let empty: Vec<String> = Vec::new();
        let derived = VirtualHost { realm: Some(realm.to_owned()), certificate: empty, ..host };
        proof {
            assert(derived@.certificate =~= Seq::<Seq<char>>::empty());
        }
        Ok(derived)
    }
}

/// Decides a virtual-host update: the realm back-reference is overwritten
/// and the write is unconditional.
pub fn update_virtual_host(realm: &str, host: VirtualHost) -> (r: VirtualHost)
    ensures
        r@ == spec_derive_virtual_host_update(realm@, host@),
{
    VirtualHost { realm: Some(realm.to_owned()), ..host }
}

/// Decides what a point read of a virtual host returns.
pub fn get_virtual_host(realm: &str, name: &str, found: Option<&Json>) -> (r: Result<
    VirtualHost,
    ApiError,
>)
    ensures
        found is None ==> (r matches Err(e) && e@ == ApiErrorV::NotFound(
            spec_virtual_host_not_found_msg(name@, realm@),
        )),
        found matches Some(j) ==> match spec_decode_virtual_host(j@) {
            Ok(v) => r matches Ok(out) && out@ == v,
            Err(_) => r matches Err(e) && e@ == ApiErrorV::Internal(
                crate::error::spec_malformed_stored_msg(),
            ),
        },
{
    match found {
        Some(j) => match decode_virtual_host(j) {
            Ok(v) => Ok(v),
            Err(_) => Err(ApiError::Internal(crate::error::malformed_stored_msg())),
        },
        None => {
            let mut m = String::from_str("VirtualHost '");
            m.append(name);
            m.append("' not found in realm '");
            m.append(realm);
            m.append("'");
            Err(ApiError::NotFound(m))
        },
    }
}

/// Decides what a virtual-host delete returns, given the document the
/// backend reported as bound to the key just before the delete.
pub fn delete_virtual_host(realm: &str, name: &str, prev: Option<&Json>) -> (r: Result<
    VirtualHost,
    ApiError,
>)
    ensures
        prev is None ==> (r matches Err(e) && e@ == ApiErrorV::NotFound(
            spec_virtual_host_not_found_msg(name@, realm@),
        )),
        prev matches Some(j) ==> match spec_decode_virtual_host(j@) {
            Ok(v) => r matches Ok(out) && out@ == v,
            Err(_) => r matches Err(e) && e@ == ApiErrorV::Internal(
                crate::error::spec_malformed_stored_msg(),
            ),
        },
{
    get_virtual_host(realm, name, prev)
}

/// What a virtual-host listing returns, raw value by raw value.
pub open spec fn spec_list_virtual_hosts(vs: Seq<JsonV>) -> Seq<VirtualHostV>
    decreases vs.len(),
{
    if vs.len() == 0 {
        Seq::empty()
    } else {
        let rest = spec_list_virtual_hosts(vs.drop_last());
        match spec_decode_virtual_host(vs.last()) {
            Ok(v) => rest.push(v),
            Err(_) => rest,
        }
    }
}

/// Reads a listing's raw values leniently: a value that does not decode as
/// a virtual host is dropped, the rest keep their order.
pub fn list_virtual_hosts(values: &Vec<Json>) -> (r: Vec<VirtualHost>)
    ensures
        r.deep_view() == spec_list_virtual_hosts(items_view(values@)),
{
    let ghost iv = items_view(values@);
    let mut out: Vec<VirtualHost> = Vec::new();
    let mut i: usize = 0;
    proof {
        assert(iv.take(0) =~= Seq::<JsonV>::empty());
        assert(out.deep_view() =~= Seq::<VirtualHostV>::empty());
    }
    while i < values.len()
        invariant
            i <= values.len(),
            iv == items_view(values@),
            out.deep_view() == spec_list_virtual_hosts(iv.take(i as int)),
        decreases values.len() - i,
    {
        let ghost prev = out.deep_view();
        match decode_virtual_host(&values[i]) {
            Ok(v) => {
                let ghost vv = v@;
                out.push(v);
                proof {
                    assert(out.deep_view() =~= prev.push(vv));
                }
            },
            Err(_) => (),
        }
        proof {
            assert(iv.take(i + 1).drop_last() =~= iv.take(i as int));
            assert(iv.take(i + 1).last() == iv[i as int]);
            assert(iv[i as int] == values@[i as int]@);
        }
        i += 1;
    }
    proof {
        assert(iv.take(values.len() as int) =~= iv);
    }
    out
}

/// Creating a virtual host under a free key and reading the same key back
/// yields exactly the derived virtual host that was stored.
pub proof fn lemma_virtual_host_create_then_get(
    m: Map<Seq<char>, JsonV>,
    realm: Seq<char>,
    v: VirtualHostV,
)
    requires
        kv_get(m, spec_virtual_host_key(realm, v.name)) is None,
    ensures
        ({
            let stored = spec_encode_virtual_host(spec_derive_virtual_host_create(realm, v));
            let (m1, ok) = kv_create(m, spec_virtual_host_key(realm, v.name), stored);
            ok && kv_get(m1, spec_virtual_host_key(realm, v.name)) == Some(stored)
                && spec_decode_virtual_host(kv_get(m1, spec_virtual_host_key(realm, v.name))->Some_0)
                == Ok::<VirtualHostV, ()>(spec_derive_virtual_host_create(realm, v))
        }),
{
    let stored = spec_encode_virtual_host(spec_derive_virtual_host_create(realm, v));
    crate::store::lemma_create_then_get(m, spec_virtual_host_key(realm, v.name), stored);
    lemma_virtual_host_round_trip(spec_derive_virtual_host_create(realm, v));
}

/// A scan of realm A's virtual hosts never covers a key under another
/// realm B — also when one realm's name is a prefix of the other's.
pub proof fn lemma_virtual_host_list_scoped(
    m: Map<Seq<char>, JsonV>,
    realm_a: Seq<char>,
    realm_b: Seq<char>,
    name: Seq<char>,
)
    requires
        no_slash(realm_a),
        no_slash(realm_b),
        realm_a != realm_b,
    ensures
        !kv_prefix_keys(m, spec_virtual_host_prefix(realm_a)).contains(
            spec_virtual_host_key(realm_b, name),
        ),
{
    reveal_strlit("/virtual-hosts/");
    lemma_two_level_scoped("/realms/"@, realm_a, "/virtual-hosts/"@, realm_b, name);
    crate::store::lemma_scan_excludes(
        m,
        spec_virtual_host_prefix(realm_a),
        spec_virtual_host_key(realm_b, name),
    );
}

} // verus!
