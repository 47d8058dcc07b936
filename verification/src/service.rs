//! Services, stored per hub.
//!
//! A service lives under `/realms/{realm}/hubs/{hub}/services/{name}`. The
//! server owns four fields: `realm` and `hubName` are set from the request
//! path, `hub` becomes the owning hub's URN, and `urn` names the service
//! itself.

use crate::error::{ApiError, ApiErrorV};
use crate::hub::spec_hub_urn;
use crate::json::{
    field, fields_closed, fields_view, items_view, keys_within, lookup, opt_i32_field,
    opt_str_field, spec_bool_or_false, spec_opt_i32, spec_opt_str, spec_req_str,
    spec_req_str_list, str_seq_items, bool_or_false, opt_i32, opt_str, req_str, req_str_list,
    strs_to_json, lemma_str_items_round_trip, DecodeError, Json, JsonV,
};
use crate::store::{kv_create, kv_get, kv_prefix_keys, lemma_three_level_scoped, no_slash};
use vstd::prelude::*;

verus! {

broadcast use {
    vstd::std_specs::vec::group_vec_axioms,
    crate::json::group_json_view,
    crate::json::group_json_fields,
};

/// How a service's availability is managed by an external cluster manager.
#[derive(Debug, PartialEq)]
pub struct AvailabilityManagement {
    pub cluster_manager_urn: String,
    pub service_id: String,
    pub start_at: Option<String>,
    pub stop_at: Option<String>,
    pub ondemand_start: bool,
    pub idel_timeout: Option<i32>,
}

/// The mathematical shape of an [`AvailabilityManagement`].
pub struct AvailabilityManagementV {
    pub cluster_manager_urn: Seq<char>,
    pub service_id: Seq<char>,
    pub start_at: Option<Seq<char>>,
    pub stop_at: Option<Seq<char>>,
    pub ondemand_start: bool,
    pub idel_timeout: Option<i32>,
}

impl View for AvailabilityManagement {
    type V = AvailabilityManagementV;

    open spec fn view(&self) -> AvailabilityManagementV {
        AvailabilityManagementV {
            cluster_manager_urn: self.cluster_manager_urn@,
            service_id: self.service_id@,
            start_at: self.start_at.deep_view(),
            stop_at: self.stop_at.deep_view(),
            ondemand_start: self.ondemand_start,
            idel_timeout: self.idel_timeout,
        }
    }
}

impl DeepView for AvailabilityManagement {
    type V = AvailabilityManagementV;

    open spec fn deep_view(&self) -> AvailabilityManagementV {
        self.view()
    }
}

/// A service document.
#[derive(Debug, PartialEq)]
pub struct Service {
    pub name: String,
    /// Server-derived: the URN of the owning hub.
    pub hub: Option<String>,
    /// Server-derived: `urn:chip-in:service:{realm}:{hub}:{name}`.
    pub urn: Option<String>,
    pub title: String,
    pub description: Option<String>,
    /// Server-derived: the name of the owning realm.
    pub realm: String,
    /// Server-derived: the name of the owning hub.
    pub hub_name: String,
    pub availability_management: Option<AvailabilityManagement>,
    pub providers: Vec<String>,
    pub consumers: Vec<String>,
}

/// The mathematical shape of a [`Service`].
pub struct ServiceV {
    pub name: Seq<char>,
    pub hub: Option<Seq<char>>,
    pub urn: Option<Seq<char>>,
    pub title: Seq<char>,
    pub description: Option<Seq<char>>,
    pub realm: Seq<char>,
    pub hub_name: Seq<char>,
    pub availability_management: Option<AvailabilityManagementV>,
    pub providers: Seq<Seq<char>>,
    pub consumers: Seq<Seq<char>>,
}

impl View for Service {
    type V = ServiceV;

    open spec fn view(&self) -> ServiceV {
        ServiceV {
            name: self.name@,
            hub: self.hub.deep_view(),
            urn: self.urn.deep_view(),
            title: self.title@,
            description: self.description.deep_view(),
            realm: self.realm@,
            hub_name: self.hub_name@,
            availability_management: self.availability_management.deep_view(),
            providers: self.providers.deep_view(),
            consumers: self.consumers.deep_view(),
        }
    }
}

impl DeepView for Service {
    type V = ServiceV;

    open spec fn deep_view(&self) -> ServiceV {
        self.view()
    }
}

/// The key a service is stored under.
pub open spec fn spec_service_key(realm: Seq<char>, hub: Seq<char>, name: Seq<char>) -> Seq<char> {
    "/realms/"@ + realm + "/hubs/"@ + hub + "/services/"@ + name
}

/// The prefix that covers every service of a hub.
pub open spec fn spec_service_prefix(realm: Seq<char>, hub: Seq<char>) -> Seq<char> {
    "/realms/"@ + realm + "/hubs/"@ + hub + "/services/"@
}

/// Builds the key a service is stored under.
pub fn service_key(realm: &str, hub: &str, name: &str) -> (r: String)
    ensures
        r@ == spec_service_key(realm@, hub@, name@),
{
    let mut k = String::from_str("/realms/");
    k.append(realm);
    k.append("/hubs/");
    k.append(hub);
    k.append("/services/");
    k.append(name);
    k
}

/// Builds the prefix that covers every service of a hub.
pub fn service_prefix(realm: &str, hub: &str) -> (r: String)
    ensures
        r@ == spec_service_prefix(realm@, hub@),
{
    let mut k = String::from_str("/realms/");
    k.append(realm);
    k.append("/hubs/");
    k.append(hub);
    k.append("/services/");
    k
}

/// The member names an availability-management object may carry.
pub open spec fn avail_field_names() -> Seq<Seq<char>> {
    seq![
        "clusterManagerUrn"@,
        "serviceId"@,
        "startAt"@,
        "stopAt"@,
        "ondemandStart"@,
        "idelTimeout"@,
    ]
}

fn avail_allowed() -> (r: Vec<&'static str>)
    ensures
        r.deep_view() == avail_field_names(),
{
    let mut v: Vec<&'static str> = Vec::new();
    v.push("clusterManagerUrn");
    v.push("serviceId");
    v.push("startAt");
    v.push("stopAt");
    v.push("ondemandStart");
    v.push("idelTimeout");
    proof {
        assert(v.deep_view() =~= avail_field_names());
    }
    v
}

/// Which documents are accepted as an availability-management object:
/// the field set is closed; `clusterManagerUrn` and `serviceId` are
/// required, `ondemandStart` defaults to false, the rest are optional.
pub open spec fn spec_decode_avail(j: JsonV) -> Result<AvailabilityManagementV, ()> {
    match j {
        JsonV::Obj(fs) => if !keys_within(fs, avail_field_names()) {
            Err(())
        } else if spec_req_str(fs, "clusterManagerUrn"@) is Err || spec_req_str(
            fs,
            "serviceId"@,
        ) is Err || spec_opt_str(fs, "startAt"@) is Err || spec_opt_str(fs, "stopAt"@) is Err
            || spec_bool_or_false(fs, "ondemandStart"@) is Err || spec_opt_i32(
            fs,
            "idelTimeout"@,
        ) is Err {
            Err(())
        } else {
            Ok(
                AvailabilityManagementV {
                    cluster_manager_urn: spec_req_str(fs, "clusterManagerUrn"@)->Ok_0,
                    service_id: spec_req_str(fs, "serviceId"@)->Ok_0,
                    start_at: spec_opt_str(fs, "startAt"@)->Ok_0,
                    stop_at: spec_opt_str(fs, "stopAt"@)->Ok_0,
                    ondemand_start: spec_bool_or_false(fs, "ondemandStart"@)->Ok_0,
                    idel_timeout: spec_opt_i32(fs, "idelTimeout"@)->Ok_0,
                },
            )
        },
        _ => Err(()),
    }
}

/// Reads an availability-management object, enforcing the closed schema.
pub fn decode_avail(j: &Json) -> (r: Result<AvailabilityManagement, DecodeError>)
    ensures
        match r {
            Ok(v) => spec_decode_avail(j@) == Ok::<AvailabilityManagementV, ()>(v@),
            Err(_) => spec_decode_avail(j@) is Err,
        },
{
    let fields = match j {
        Json::Obj(fields) => fields,
        _ => {
            return Err(DecodeError);
        },
    };
    let allowed = avail_allowed();
    if !fields_closed(fields, &allowed) {
        return Err(DecodeError);
    }
    let cluster_manager_urn = match req_str(fields, "clusterManagerUrn") {
        Ok(v) => v,
        Err(e) => {
            return Err(e);
        },
    };
    let service_id = match req_str(fields, "serviceId") {
        Ok(v) => v,
        Err(e) => {
            return Err(e);
        },
    };
    let start_at = match opt_str(fields, "startAt") {
        Ok(v) => v,
        Err(e) => {
            return Err(e);
        },
    };
    let stop_at = match opt_str(fields, "stopAt") {
        Ok(v) => v,
        Err(e) => {
            return Err(e);
        },
    };
    let ondemand_start = match bool_or_false(fields, "ondemandStart") {
        Ok(v) => v,
        Err(e) => {
            return Err(e);
        },
    };
    let idel_timeout = match opt_i32(fields, "idelTimeout") {
        Ok(v) => v,
        Err(e) => {
            return Err(e);
        },
    };
    Ok(
        AvailabilityManagement {
            cluster_manager_urn,
            service_id,
            start_at,
            stop_at,
            ondemand_start,
            idel_timeout,
        },
    )
}

/// How an availability-management object is written.
pub open spec fn spec_encode_avail(v: AvailabilityManagementV) -> JsonV {
    JsonV::Obj(
        field("clusterManagerUrn"@, JsonV::Str(v.cluster_manager_urn)) + field(
            "serviceId"@,
            JsonV::Str(v.service_id),
        ) + opt_str_field("startAt"@, v.start_at) + opt_str_field("stopAt"@, v.stop_at) + field(
            "ondemandStart"@,
            JsonV::Bool(v.ondemand_start),
        ) + opt_i32_field("idelTimeout"@, v.idel_timeout),
    )
}

impl AvailabilityManagement {
    /// Writes the availability-management object as a document.
    pub fn to_json(&self) -> (r: Json)
        ensures
            r@ == spec_encode_avail(self@),
    {
        let mut fields: Vec<(String, Json)> = Vec::new();
        fields.push(
            (String::from_str("clusterManagerUrn"), Json::Str(self.cluster_manager_urn.clone())),
        );
        fields.push((String::from_str("serviceId"), Json::Str(self.service_id.clone())));
        match &self.start_at {
            Some(d) => fields.push((String::from_str("startAt"), Json::Str(d.clone()))),
            None => (),
        }
        match &self.stop_at {
            Some(d) => fields.push((String::from_str("stopAt"), Json::Str(d.clone()))),
            None => (),
        }
        fields.push((String::from_str("ondemandStart"), Json::Bool(self.ondemand_start)));
        match &self.idel_timeout {
            Some(t) => fields.push((String::from_str("idelTimeout"), Json::Int(*t as i64))),
            None => (),
        }
        proof {
            assert(fields_view(fields@) =~= spec_encode_avail(self@)->Obj_0);
        }
        Json::Obj(fields)
    }
}

/// Reading an availability-management object's encoding back yields the
/// object.
#[verifier::rlimit(50)]
pub proof fn lemma_avail_round_trip(v: AvailabilityManagementV)
    ensures
        spec_decode_avail(spec_encode_avail(v)) == Ok::<AvailabilityManagementV, ()>(v),
{
    reveal_strlit("clusterManagerUrn");
    reveal_strlit("serviceId");
    reveal_strlit("startAt");
    reveal_strlit("stopAt");
    reveal_strlit("ondemandStart");
    reveal_strlit("idelTimeout");
    let fs = spec_encode_avail(v)->Obj_0;
    let names = avail_field_names();
    assert(names[0] == "clusterManagerUrn"@ && names[1] == "serviceId"@ && names[2] == "startAt"@
        && names[3] == "stopAt"@ && names[4] == "ondemandStart"@ && names[5] == "idelTimeout"@);
    assert(keys_within(fs, names));
    let s1 = field("clusterManagerUrn"@, JsonV::Str(v.cluster_manager_urn));
    let s2 = field("serviceId"@, JsonV::Str(v.service_id));
    let s3 = opt_str_field("startAt"@, v.start_at);
    let s4 = opt_str_field("stopAt"@, v.stop_at);
    let s5 = field("ondemandStart"@, JsonV::Bool(v.ondemand_start));
    let s6 = opt_i32_field("idelTimeout"@, v.idel_timeout);
    assert(fs == s1 + s2 + s3 + s4 + s5 + s6);
    assert(lookup(fs, "clusterManagerUrn"@) == Some(JsonV::Str(v.cluster_manager_urn)));
    crate::json::lemma_lookup_field("clusterManagerUrn"@, JsonV::Str(v.cluster_manager_urn), "serviceId"@);
    assert(("clusterManagerUrn"@).len() == 17);
    assert(("serviceId"@).len() == 9);
    assert(lookup(s1, "serviceId"@) is None);
    assert(lookup(s1 + s2, "serviceId"@) == Some(JsonV::Str(v.service_id)));
    assert(lookup(fs, "serviceId"@) == Some(JsonV::Str(v.service_id)));
    assert(lookup(s1 + s2, "startAt"@) is None);
    assert(lookup(fs, "startAt"@) == match v.start_at {
        Some(d) => Some(JsonV::Str(d)),
        None => None::<JsonV>,
    });
    assert(lookup(s1 + s2 + s3, "stopAt"@) is None);
    assert(lookup(fs, "stopAt"@) == match v.stop_at {
        Some(d) => Some(JsonV::Str(d)),
        None => None::<JsonV>,
    });
    assert(lookup(s1 + s2 + s3 + s4, "ondemandStart"@) is None);
    assert(lookup(fs, "ondemandStart"@) == Some(JsonV::Bool(v.ondemand_start)));
    assert(lookup(s1 + s2 + s3 + s4 + s5, "idelTimeout"@) is None);
    assert(lookup(fs, "idelTimeout"@) == match v.idel_timeout {
        Some(t) => Some(JsonV::Int(t as i64)),
        None => None::<JsonV>,
    });
}

/// The member names a service document may carry.
pub open spec fn service_field_names() -> Seq<Seq<char>> {
    seq![
        "name"@,
        "hub"@,
        "urn"@,
        "title"@,
        "description"@,
        "realm"@,
        "hubName"@,
        "availabilityManagement"@,
        "providers"@,
        "consumers"@,
    ]
}

fn service_allowed() -> (r: Vec<&'static str>)
    ensures
        r.deep_view() == service_field_names(),
{
    let mut v: Vec<&'static str> = Vec::new();
    v.push("name");
    v.push("hub");
    v.push("urn");
    v.push("title");
    v.push("description");
    v.push("realm");
    v.push("hubName");
    v.push("availabilityManagement");
    v.push("providers");
    v.push("consumers");
    proof {
        assert(v.deep_view() =~= service_field_names());
    }
    v
}

/// What the `availabilityManagement` member of a service reads as:
/// absence and null read as `None`, an object must fit the nested schema,
/// anything else is rejected.
pub open spec fn spec_opt_avail(fs: Seq<(Seq<char>, JsonV)>) -> Result<
    Option<AvailabilityManagementV>,
    (),
> {
    match lookup(fs, "availabilityManagement"@) {
        None => Ok(None),
        Some(JsonV::Null) => Ok(None),
        Some(j) => match spec_decode_avail(j) {
            Ok(a) => Ok(Some(a)),
            Err(_) => Err(()),
        },
    }
}

/// Which documents are accepted as a service: the field set is closed;
/// `name`, `title`, `realm`, `hubName`, `providers` and `consumers` are
/// required, the rest are optional.
pub open spec fn spec_decode_service(j: JsonV) -> Result<ServiceV, ()> {
    match j {
        JsonV::Obj(fs) => if !keys_within(fs, service_field_names()) {
            Err(())
        } else if spec_req_str(fs, "name"@) is Err || spec_opt_str(fs, "hub"@) is Err
            || spec_opt_str(fs, "urn"@) is Err || spec_req_str(fs, "title"@) is Err
            || spec_opt_str(fs, "description"@) is Err || spec_req_str(fs, "realm"@) is Err
            || spec_req_str(fs, "hubName"@) is Err || spec_opt_avail(fs) is Err
            || spec_req_str_list(fs, "providers"@) is Err || spec_req_str_list(
            fs,
            "consumers"@,
        ) is Err {
            Err(())
        } else {
            Ok(
                ServiceV {
                    name: spec_req_str(fs, "name"@)->Ok_0,
                    hub: spec_opt_str(fs, "hub"@)->Ok_0,
                    urn: spec_opt_str(fs, "urn"@)->Ok_0,
                    title: spec_req_str(fs, "title"@)->Ok_0,
                    description: spec_opt_str(fs, "description"@)->Ok_0,
                    realm: spec_req_str(fs, "realm"@)->Ok_0,
                    hub_name: spec_req_str(fs, "hubName"@)->Ok_0,
                    availability_management: spec_opt_avail(fs)->Ok_0,
                    providers: spec_req_str_list(fs, "providers"@)->Ok_0,
                    consumers: spec_req_str_list(fs, "consumers"@)->Ok_0,
                },
            )
        },
        _ => Err(()),
    }
}

/// Reads a service out of a document, enforcing the closed schema.
pub fn decode_service(j: &Json) -> (r: Result<Service, DecodeError>)
    ensures
        match r {
            Ok(v) => spec_decode_service(j@) == Ok::<ServiceV, ()>(v@),
            Err(_) => spec_decode_service(j@) is Err,
        },
{
    let fields = match j {
        Json::Obj(fields) => fields,
        _ => {
            return Err(DecodeError);
        },
    };
    let allowed = service_allowed();
    if !fields_closed(fields, &allowed) {
        return Err(DecodeError);
    }
    let name = match req_str(fields, "name") {
        Ok(v) => v,
        Err(e) => {
            return Err(e);
        },
    };
    let hub = match opt_str(fields, "hub") {
        Ok(v) => v,
        Err(e) => {
            return Err(e);
        },
    };
    let urn = match opt_str(fields, "urn") {
        Ok(v) => v,
        Err(e) => {
            return Err(e);
        },
    };
    let title = match req_str(fields, "title") {
        Ok(v) => v,
        Err(e) => {
            return Err(e);
        },
    };
    let description = match opt_str(fields, "description") {
        Ok(v) => v,
        Err(e) => {
            return Err(e);
        },
    };
    let realm = match req_str(fields, "realm") {
        Ok(v) => v,
        Err(e) => {
            return Err(e);
        },
    };
    let hub_name = match req_str(fields, "hubName") {
        Ok(v) => v,
        Err(e) => {
            return Err(e);
        },
    };
    let availability_management = match crate::json::obj_get(fields, "availabilityManagement") {
        None => None,
        Some(Json::Null) => None,
        Some(sub) => match decode_avail(sub) {
            Ok(a) => Some(a),
            Err(e) => {
                return Err(e);
            },
        },
    };
    let providers = match req_str_list(fields, "providers") {
        Ok(v) => v,
        Err(e) => {
            return Err(e);
        },
    };
    let consumers = match req_str_list(fields, "consumers") {
        Ok(v) => v,
        Err(e) => {
            return Err(e);
        },
    };
    Ok(
        Service {
            name,
            hub,
            urn,
            title,
            description,
            realm,
            hub_name,
            availability_management,
            providers,
            consumers,
        },
    )
}

/// How a service is written: members in declaration order, optional
/// members left out when absent.
pub open spec fn spec_encode_service(v: ServiceV) -> JsonV {
    JsonV::Obj(
        field("name"@, JsonV::Str(v.name)) + opt_str_field("hub"@, v.hub) + opt_str_field(
            "urn"@,
            v.urn,
        ) + field("title"@, JsonV::Str(v.title)) + opt_str_field("description"@, v.description)
            + field("realm"@, JsonV::Str(v.realm)) + field("hubName"@, JsonV::Str(v.hub_name)) + (
        match v.availability_management {
            Some(a) => field("availabilityManagement"@, spec_encode_avail(a)),
            None => Seq::empty(),
        }) + field("providers"@, JsonV::Arr(str_seq_items(v.providers))) + field(
            "consumers"@,
            JsonV::Arr(str_seq_items(v.consumers)),
        ),
    )
}

impl Service {
    /// Writes the service as a document.
    pub fn to_json(&self) -> (r: Json)
        ensures
            r@ == spec_encode_service(self@),
    {
        let mut fields: Vec<(String, Json)> = Vec::new();
        fields.push((String::from_str("name"), Json::Str(self.name.clone())));
        match &self.hub {
            Some(d) => fields.push((String::from_str("hub"), Json::Str(d.clone()))),
            None => (),
        }
        match &self.urn {
            Some(d) => fields.push((String::from_str("urn"), Json::Str(d.clone()))),
            None => (),
        }
        fields.push((String::from_str("title"), Json::Str(self.title.clone())));
        match &self.description {
            Some(d) => fields.push((String::from_str("description"), Json::Str(d.clone()))),
            None => (),
        }
        fields.push((String::from_str("realm"), Json::Str(self.realm.clone())));
        fields.push((String::from_str("hubName"), Json::Str(self.hub_name.clone())));
        match &self.availability_management {
            Some(a) => fields.push((String::from_str("availabilityManagement"), a.to_json())),
            None => (),
        }
        fields.push((String::from_str("providers"), Json::Arr(strs_to_json(&self.providers))));
        fields.push((String::from_str("consumers"), Json::Arr(strs_to_json(&self.consumers))));
        proof {
            assert(fields_view(fields@) =~= spec_encode_service(self@)->Obj_0);
        }
        Json::Obj(fields)
    }
}

/// Reading a service's encoding back yields the service.
#[verifier::rlimit(100)]
pub proof fn lemma_service_round_trip(v: ServiceV)
    ensures
        spec_decode_service(spec_encode_service(v)) == Ok::<ServiceV, ()>(v),
{
    reveal_strlit("name");
    reveal_strlit("hub");
    reveal_strlit("urn");
    reveal_strlit("title");
    reveal_strlit("description");
    reveal_strlit("realm");
    reveal_strlit("hubName");
    reveal_strlit("availabilityManagement");
    reveal_strlit("providers");
    reveal_strlit("consumers");
    let fs = spec_encode_service(v)->Obj_0;
    let names = service_field_names();
    assert(names[0] == "name"@ && names[1] == "hub"@ && names[2] == "urn"@ && names[3] == "title"@
        && names[4] == "description"@ && names[5] == "realm"@ && names[6] == "hubName"@ && names[7]
        == "availabilityManagement"@ && names[8] == "providers"@ && names[9] == "consumers"@);
    // name pairs of one length are told apart by a differing character
    assert(("hub"@)[0] == 'h' && ("urn"@)[0] == 'u');
    assert(("title"@)[0] == 't' && ("realm"@)[0] == 'r');
    assert(("providers"@)[0] == 'p' && ("consumers"@)[0] == 'c');
    let s1 = field("name"@, JsonV::Str(v.name));
    let s2 = opt_str_field("hub"@, v.hub);
    let s3 = opt_str_field("urn"@, v.urn);
    let s4 = field("title"@, JsonV::Str(v.title));
    let s5 = opt_str_field("description"@, v.description);
    let s6 = field("realm"@, JsonV::Str(v.realm));
    let s7 = field("hubName"@, JsonV::Str(v.hub_name));
    let s8 = match v.availability_management {
        Some(a) => field("availabilityManagement"@, spec_encode_avail(a)),
        None => Seq::<(Seq<char>, JsonV)>::empty(),
    };
    let s9 = field("providers"@, JsonV::Arr(str_seq_items(v.providers)));
    let s10 = field("consumers"@, JsonV::Arr(str_seq_items(v.consumers)));
    assert(fs == s1 + s2 + s3 + s4 + s5 + s6 + s7 + s8 + s9 + s10);
    match v.availability_management {
        Some(a) => {
            assert(keys_within(s8, names));
        },
        None => {
            assert(keys_within(s8, names));
        },
    }
    assert(keys_within(fs, names));
    assert(lookup(fs, "name"@) == Some(JsonV::Str(v.name)));
    assert(lookup(fs, "hub"@) == match v.hub {
        Some(d) => Some(JsonV::Str(d)),
        None => None::<JsonV>,
    });
    assert(lookup(fs, "urn"@) == match v.urn {
        Some(d) => Some(JsonV::Str(d)),
        None => None::<JsonV>,
    });
    assert(lookup(fs, "title"@) == Some(JsonV::Str(v.title)));
    assert(lookup(fs, "description"@) == match v.description {
        Some(d) => Some(JsonV::Str(d)),
        None => None::<JsonV>,
    });
    assert(lookup(s1 + s2 + s3 + s4 + s5, "realm"@) is None);
    assert(lookup(fs, "realm"@) == Some(JsonV::Str(v.realm)));
    assert(lookup(s1 + s2 + s3 + s4 + s5 + s6, "hubName"@) is None);
    assert(lookup(fs, "hubName"@) == Some(JsonV::Str(v.hub_name)));
    assert(lookup(s1 + s2 + s3 + s4 + s5 + s6 + s7, "availabilityManagement"@) is None);
    match v.availability_management {
        Some(a) => {
            assert(lookup(s8, "availabilityManagement"@) == Some(spec_encode_avail(a)));
            assert(lookup(fs, "availabilityManagement"@) == Some(spec_encode_avail(a)));
            lemma_avail_round_trip(a);
            assert(spec_encode_avail(a) is Obj);
            assert(spec_opt_avail(fs) == Ok::<Option<AvailabilityManagementV>, ()>(Some(a)));
        },
        None => {
            assert(lookup(s8, "availabilityManagement"@) is None);
            assert(lookup(fs, "availabilityManagement"@) is None);
            assert(spec_opt_avail(fs) == Ok::<Option<AvailabilityManagementV>, ()>(None));
        },
    }
    assert(lookup(s1 + s2 + s3 + s4 + s5 + s6 + s7 + s8, "providers"@) is None);
    assert(lookup(fs, "providers"@) == Some(JsonV::Arr(str_seq_items(v.providers))));
    lemma_str_items_round_trip(v.providers);
    assert(lookup(s1 + s2 + s3 + s4 + s5 + s6 + s7 + s8 + s9, "consumers"@) is None);
    assert(lookup(fs, "consumers"@) == Some(JsonV::Arr(str_seq_items(v.consumers))));
    lemma_str_items_round_trip(v.consumers);
}

/// A document with a member outside the declared field set is never
/// accepted as a service.
pub proof fn lemma_service_rejects_unknown_field(fs: Seq<(Seq<char>, JsonV)>, i: int)
    requires
        0 <= i < fs.len(),
        !service_field_names().contains(fs[i].0),
    ensures
        spec_decode_service(JsonV::Obj(fs)) is Err,
{
    assert(!keys_within(fs, service_field_names()));
}

/// The URN of a service.
pub open spec fn spec_service_urn(realm: Seq<char>, hub: Seq<char>, name: Seq<char>) -> Seq<char> {
    "urn:chip-in:service:"@ + realm + ":"@ + hub + ":"@ + name
}

/// The server-derived form of a service: `realm`, `hubName`, `hub` and
/// `urn` are overwritten from the request path, everything else is kept.
pub open spec fn spec_derive_service(realm: Seq<char>, hub: Seq<char>, v: ServiceV) -> ServiceV {
    ServiceV {
        realm: realm,
        hub_name: hub,
        hub: Some(spec_hub_urn(realm, hub)),
        urn: Some(spec_service_urn(realm, hub, v.name)),
        ..v
    }
}

fn service_urn(realm: &str, hub: &str, name: &str) -> (r: String)
    ensures
        r@ == spec_service_urn(realm@, hub@, name@),
{
    let mut u = String::from_str("urn:chip-in:service:");
    u.append(realm);
    u.append(":");
    u.append(hub);
    u.append(":");
    u.append(name);
    u
}

fn owning_hub_urn(realm: &str, hub: &str) -> (r: String)
    ensures
        r@ == spec_hub_urn(realm@, hub@),
{
    let mut u = String::from_str("urn:chip-in:hub:");
    u.append(realm);
    u.append(":");
    u.append(hub);
    u
}

/// The conflict message for an already-existing service.
pub open spec fn spec_service_exists_msg(name: Seq<char>, hub: Seq<char>) -> Seq<char> {
    "Service '"@ + name + "' already exists in hub '"@ + hub + "'."@
}

/// The message for a missing service.
pub open spec fn spec_service_not_found_msg(name: Seq<char>, hub: Seq<char>) -> Seq<char> {
    "Service '"@ + name + "' not found in hub '"@ + hub + "'"@
}

/// Decides a service creation once the existence check has been made:
/// refused with a conflict when the key is already bound, otherwise stored
/// with the four server-derived fields overwritten.
pub fn add_service(realm: &str, hub_name: &str, service: Service, exists: bool) -> (r: Result<
    Service,
    ApiError,
>)
    ensures
        exists ==> (r matches Err(e) && e@ == ApiErrorV::Conflict(
            spec_service_exists_msg(service@.name, hub_name@),
        )),
        !exists ==> (r matches Ok(s) && s@ == spec_derive_service(realm@, hub_name@, service@)),
{
    if exists {
        let mut m = String::from_str("Service '");
        m.append(service.name.as_str());
        m.append("' already exists in hub '");
        m.append(hub_name);
        m.append("'.");
        Err(ApiError::Conflict(m))
    } else {
        let urn = service_urn(realm, hub_name, service.name.as_str());
        let derived = Service {
            realm: realm.to_owned(),
            hub_name: hub_name.to_owned(),
            hub: Some(owning_hub_urn(realm, hub_name)),
            urn: Some(urn),
            ..service
        };
        Ok(derived)
    }
}

/// Decides a service update: the server-derived fields are overwritten and
/// the write is unconditional.
pub fn update_service(realm: &str, hub_name: &str, service: Service) -> (r: Service)
    ensures
        r@ == spec_derive_service(realm@, hub_name@, service@),
{
    let urn = service_urn(realm, hub_name, service.name.as_str());
    Service {
        realm: realm.to_owned(),
        hub_name: hub_name.to_owned(),
        hub: Some(owning_hub_urn(realm, hub_name)),
        urn: Some(urn),
        ..service
    }
}

/// Decides what a point read of a service returns.
pub fn get_service(hub_name: &str, name: &str, found: Option<&Json>) -> (r: Result<
    Service,
    ApiError,
>)
    ensures
        found is None ==> (r matches Err(e) && e@ == ApiErrorV::NotFound(
            spec_service_not_found_msg(name@, hub_name@),
        )),
        found matches Some(j) ==> match spec_decode_service(j@) {
            Ok(v) => r matches Ok(out) && out@ == v,
            Err(_) => r matches Err(e) && e@ == ApiErrorV::Internal(
                crate::error::spec_malformed_stored_msg(),
            ),
        },
{
    match found {
        Some(j) => match decode_service(j) {
            Ok(v) => Ok(v),
            Err(_) => Err(ApiError::Internal(crate::error::malformed_stored_msg())),
        },
        None => {
            let mut m = String::from_str("Service '");
            m.append(name);
            m.append("' not found in hub '");
            m.append(hub_name);
            m.append("'");
            Err(ApiError::NotFound(m))
        },
    }
}

/// Decides what a service delete returns, given the document the backend
/// reported as bound to the key just before the delete.
pub fn delete_service(hub_name: &str, name: &str, prev: Option<&Json>) -> (r: Result<
    Service,
    ApiError,
>)
    ensures
        prev is None ==> (r matches Err(e) && e@ == ApiErrorV::NotFound(
            spec_service_not_found_msg(name@, hub_name@),
        )),
        prev matches Some(j) ==> match spec_decode_service(j@) {
            Ok(v) => r matches Ok(out) && out@ == v,
            Err(_) => r matches Err(e) && e@ == ApiErrorV::Internal(
                crate::error::spec_malformed_stored_msg(),
            ),
        },
{
    get_service(hub_name, name, prev)
}

/// What a service listing returns, raw value by raw value.
pub open spec fn spec_list_services(vs: Seq<JsonV>) -> Seq<ServiceV>
    decreases vs.len(),
{
    if vs.len() == 0 {
        Seq::empty()
    } else {
        let rest = spec_list_services(vs.drop_last());
        match spec_decode_service(vs.last()) {
            Ok(v) => rest.push(v),
            Err(_) => rest,
        }
    }
}

/// Reads a listing's raw values leniently: a value that does not decode as
/// a service is dropped, the rest keep their order.
pub fn list_services(values: &Vec<Json>) -> (r: Vec<Service>)
    ensures
        r.deep_view() == spec_list_services(items_view(values@)),
{
    let ghost iv = items_view(values@);
    let mut out: Vec<Service> = Vec::new();
    let mut i: usize = 0;
    proof {
        assert(iv.take(0) =~= Seq::<JsonV>::empty());
        assert(out.deep_view() =~= Seq::<ServiceV>::empty());
    }
    while i < values.len()
        invariant
            i <= values.len(),
            iv == items_view(values@),
            out.deep_view() == spec_list_services(iv.take(i as int)),
        decreases values.len() - i,
    {
        let ghost prev = out.deep_view();
        match decode_service(&values[i]) {
            Ok(v) => {
                let ghost vv = v@;
                out.push(v);
                proof {
                    assert(out.deep_view() =~= prev.push(vv));
                }
            },
            Err(_) => (),
        }
        proof {
            assert(iv.take(i + 1).drop_last() =~= iv.take(i as int));
            assert(iv.take(i + 1).last() == iv[i as int]);
            assert(iv[i as int] == values@[i as int]@);
        }
        i += 1;
    }
    proof {
        assert(iv.take(values.len() as int) =~= iv);
    }
    out
}

/// Creating a service under a free key and reading the same key back
/// yields exactly the derived service that was stored.
pub proof fn lemma_service_create_then_get(
    m: Map<Seq<char>, JsonV>,
    realm: Seq<char>,
    hub: Seq<char>,
    v: ServiceV,
)
    requires
        kv_get(m, spec_service_key(realm, hub, v.name)) is None,
    ensures
        ({
            let stored = spec_encode_service(spec_derive_service(realm, hub, v));
            let (m1, ok) = kv_create(m, spec_service_key(realm, hub, v.name), stored);
            ok && kv_get(m1, spec_service_key(realm, hub, v.name)) == Some(stored)
                && spec_decode_service(kv_get(m1, spec_service_key(realm, hub, v.name))->Some_0)
                == Ok::<ServiceV, ()>(spec_derive_service(realm, hub, v))
        }),
{
    let stored = spec_encode_service(spec_derive_service(realm, hub, v));
    crate::store::lemma_create_then_get(m, spec_service_key(realm, hub, v.name), stored);
    lemma_service_round_trip(spec_derive_service(realm, hub, v));
}

/// A scan of one hub's services never covers a key under another hub or
/// another realm — also when one parent's name is a prefix of the other's.
pub proof fn lemma_service_list_scoped(
    m: Map<Seq<char>, JsonV>,
    realm_a: Seq<char>,
    hub_a: Seq<char>,
    realm_b: Seq<char>,
    hub_b: Seq<char>,
    name: Seq<char>,
)
    requires
        no_slash(realm_a),
        no_slash(realm_b),
        no_slash(hub_a),
        no_slash(hub_b),
        realm_a != realm_b || hub_a != hub_b,
    ensures
        !kv_prefix_keys(m, spec_service_prefix(realm_a, hub_a)).contains(
            spec_service_key(realm_b, hub_b, name),
        ),
{
    reveal_strlit("/hubs/");
    reveal_strlit("/services/");
    lemma_three_level_scoped(
        "/realms/"@,
        realm_a,
        "/hubs/"@,
        hub_a,
        "/services/"@,
        realm_b,
        hub_b,
        name,
    );
    crate::store::lemma_scan_excludes(
        m,
        spec_service_prefix(realm_a, hub_a),
        spec_service_key(realm_b, hub_b, name),
    );
}

} // verus!
