//! Routing chains, stored per realm.
//!
//! A routing chain lives under `/realms/{realm}/routing-chains/{name}` and
//! carries an ordered list of rules. Each rule pairs a match pattern with
//! exactly one action out of a closed, tag-discriminated set of six. The
//! chain is configuration only: it is validated and stored here and
//! consumed by an external router.

use crate::error::{ApiError, ApiErrorV};
use crate::json::{
    bool_true_field, entries_to_json, field, fields_closed, fields_view, items_view, keys_within,
    lookup, obj_get, opt_str_field, spec_bool_or_false, spec_i32_or, spec_opt_str, spec_req_str,
    spec_req_str_map, str_entries_obj, bool_or_false, i32_or, opt_str, req_str, req_str_map,
    str_eq, lemma_str_entries_round_trip, DecodeError, Json, JsonV,
};
use crate::store::{kv_create, kv_get, kv_prefix_keys, lemma_two_level_scoped, no_slash};
use vstd::prelude::*;

verus! {

broadcast use {
    vstd::std_specs::vec::group_vec_axioms,
    crate::json::group_json_view,
    crate::json::group_json_fields,
};

/// Whether a flag is unset. An unset flag is left out of the document
/// entirely when an action is written.
pub fn is_false(b: &bool) -> (r: bool)
    ensures
        r == !*b,
{
    !*b
}

/// The value `maxValueLength` takes when an access-log action leaves it
/// out.
pub fn default_max_value_length() -> (r: i32)
    ensures
        r == 512,
{
    512
}

/// Forward a request to a target.
#[derive(Debug, PartialEq)]
pub struct ProxyAction {
    pub target: String,
    pub no_body: bool,
}

/// Answer with a redirect to a target.
#[derive(Debug, PartialEq)]
pub struct RedirectAction {
    pub target: String,
}

/// Continue in another chain.
#[derive(Debug, PartialEq)]
pub struct JumpAction {
    pub target: String,
}

/// Bind variables for the rest of the chain.
#[derive(Debug, PartialEq)]
pub struct SetVariablesAction {
    pub variables: Vec<(String, String)>,
}

/// Set headers on what flows to a target.
#[derive(Debug, PartialEq)]
pub struct SetHeadersAction {
    pub target: String,
    pub headers: Vec<(String, String)>,
}

/// Write an access log to a target.
#[derive(Debug, PartialEq)]
pub struct AccessLogAction {
    pub target: String,
    pub max_value_length: i32,
    pub format: Vec<(String, String)>,
}

/// One action of a rule: exactly one of the six kinds.
#[derive(Debug, PartialEq)]
pub enum Action {
    Proxy(ProxyAction),
    Redirect(RedirectAction),
    Jump(JumpAction),
    SetVariables(SetVariablesAction),
    SetHeaders(SetHeadersAction),
    AccessLog(AccessLogAction),
}

/// One rule of a chain: a match pattern and its action. Order among rules
/// is significant and kept.
#[derive(Debug, PartialEq)]
pub struct Rule {
    pub match_expr: String,
    pub action: Action,
}

/// The mathematical shapes of the six actions.
pub struct ProxyActionV {
    pub target: Seq<char>,
    pub no_body: bool,
}

pub struct RedirectActionV {
    pub target: Seq<char>,
}

pub struct JumpActionV {
    pub target: Seq<char>,
}

pub struct SetVariablesActionV {
    pub variables: Seq<(Seq<char>, Seq<char>)>,
}

pub struct SetHeadersActionV {
    pub target: Seq<char>,
    pub headers: Seq<(Seq<char>, Seq<char>)>,
}

pub struct AccessLogActionV {
    pub target: Seq<char>,
    pub max_value_length: i32,
    pub format: Seq<(Seq<char>, Seq<char>)>,
}

pub enum ActionV {
    Proxy(ProxyActionV),
    Redirect(RedirectActionV),
    Jump(JumpActionV),
    SetVariables(SetVariablesActionV),
    SetHeaders(SetHeadersActionV),
    AccessLog(AccessLogActionV),
}

pub struct RuleV {
    pub match_expr: Seq<char>,
    pub action: ActionV,
}

impl View for Action {
    type V = ActionV;

    open spec fn view(&self) -> ActionV {
        match self {
            Action::Proxy(a) => ActionV::Proxy(
                ProxyActionV { target: a.target@, no_body: a.no_body },
            ),
            Action::Redirect(a) => ActionV::Redirect(RedirectActionV { target: a.target@ }),
            Action::Jump(a) => ActionV::Jump(JumpActionV { target: a.target@ }),
            Action::SetVariables(a) => ActionV::SetVariables(
                SetVariablesActionV { variables: a.variables.deep_view() },
            ),
            Action::SetHeaders(a) => ActionV::SetHeaders(
                SetHeadersActionV { target: a.target@, headers: a.headers.deep_view() },
            ),
            Action::AccessLog(a) => ActionV::AccessLog(
                AccessLogActionV {
                    target: a.target@,
                    max_value_length: a.max_value_length,
                    format: a.format.deep_view(),
                },
            ),
        }
    }
}

impl DeepView for Action {
    type V = ActionV;

    open spec fn deep_view(&self) -> ActionV {
        self.view()
    }
}

impl View for Rule {
    type V = RuleV;

    open spec fn view(&self) -> RuleV {
        RuleV { match_expr: self.match_expr@, action: self.action@ }
    }
}

impl DeepView for Rule {
    type V = RuleV;

    open spec fn deep_view(&self) -> RuleV {
        self.view()
    }
}

// --- the action schema ----------------------------------------------------

pub open spec fn proxy_field_names() -> Seq<Seq<char>> {
    seq!["type"@, "target"@, "noBody"@]
}

pub open spec fn redirect_field_names() -> Seq<Seq<char>> {
    seq!["type"@, "target"@]
}

pub open spec fn set_variables_field_names() -> Seq<Seq<char>> {
    seq!["type"@, "variables"@]
}

pub open spec fn set_headers_field_names() -> Seq<Seq<char>> {
    seq!["type"@, "target"@, "headers"@]
}

pub open spec fn access_log_field_names() -> Seq<Seq<char>> {
    seq!["type"@, "target"@, "maxValueLength"@, "format"@]
}

pub open spec fn spec_decode_proxy(fs: Seq<(Seq<char>, JsonV)>) -> Result<ActionV, ()> {
    if !keys_within(fs, proxy_field_names()) {
        Err(())
    } else if spec_req_str(fs, "target"@) is Err || spec_bool_or_false(fs, "noBody"@) is Err {
        Err(())
    } else {
        Ok(
            ActionV::Proxy(
                ProxyActionV {
                    target: spec_req_str(fs, "target"@)->Ok_0,
                    no_body: spec_bool_or_false(fs, "noBody"@)->Ok_0,
                },
            ),
        )
    }
}

pub open spec fn spec_decode_redirect(fs: Seq<(Seq<char>, JsonV)>) -> Result<ActionV, ()> {
    if !keys_within(fs, redirect_field_names()) {
        Err(())
    } else if spec_req_str(fs, "target"@) is Err {
        Err(())
    } else {
        Ok(ActionV::Redirect(RedirectActionV { target: spec_req_str(fs, "target"@)->Ok_0 }))
    }
}

pub open spec fn spec_decode_jump(fs: Seq<(Seq<char>, JsonV)>) -> Result<ActionV, ()> {
    if !keys_within(fs, redirect_field_names()) {
        Err(())
    } else if spec_req_str(fs, "target"@) is Err {
        Err(())
    } else {
        Ok(ActionV::Jump(JumpActionV { target: spec_req_str(fs, "target"@)->Ok_0 }))
    }
}

pub open spec fn spec_decode_set_variables(fs: Seq<(Seq<char>, JsonV)>) -> Result<ActionV, ()> {
    if !keys_within(fs, set_variables_field_names()) {
        Err(())
    } else if spec_req_str_map(fs, "variables"@) is Err {
        Err(())
    } else {
        Ok(
            ActionV::SetVariables(
                SetVariablesActionV { variables: spec_req_str_map(fs, "variables"@)->Ok_0 },
            ),
        )
    }
}

pub open spec fn spec_decode_set_headers(fs: Seq<(Seq<char>, JsonV)>) -> Result<ActionV, ()> {
    if !keys_within(fs, set_headers_field_names()) {
        Err(())
    } else if spec_req_str(fs, "target"@) is Err || spec_req_str_map(fs, "headers"@) is Err {
        Err(())
    } else {
        Ok(
            ActionV::SetHeaders(
                SetHeadersActionV {
                    target: spec_req_str(fs, "target"@)->Ok_0,
                    headers: spec_req_str_map(fs, "headers"@)->Ok_0,
                },
            ),
        )
    }
}

pub open spec fn spec_decode_access_log(fs: Seq<(Seq<char>, JsonV)>) -> Result<ActionV, ()> {
    if !keys_within(fs, access_log_field_names()) {
        Err(())
    } else if spec_req_str(fs, "target"@) is Err || spec_i32_or(fs, "maxValueLength"@, 512) is Err
        || spec_req_str_map(fs, "format"@) is Err {
        Err(())
    } else {
        Ok(
            ActionV::AccessLog(
                AccessLogActionV {
                    target: spec_req_str(fs, "target"@)->Ok_0,
                    max_value_length: spec_i32_or(fs, "maxValueLength"@, 512)->Ok_0,
                    format: spec_req_str_map(fs, "format"@)->Ok_0,
                },
            ),
        )
    }
}

/// Which documents are accepted as an action: an object whose `type`
/// member names one of the six kinds, whose other members fit that kind's
/// closed schema. An unknown tag, like an unknown member, is rejected.
pub open spec fn spec_decode_action(j: JsonV) -> Result<ActionV, ()> {
    match j {
        JsonV::Obj(fs) => match lookup(fs, "type"@) {
            Some(JsonV::Str(tag)) => if tag == "proxy"@ {
                spec_decode_proxy(fs)
            } else if tag == "redirect"@ {
                spec_decode_redirect(fs)
            } else if tag == "jump"@ {
                spec_decode_jump(fs)
            } else if tag == "setVariables"@ {
                spec_decode_set_variables(fs)
            } else if tag == "setHeaders"@ {
                spec_decode_set_headers(fs)
            } else if tag == "accessLog"@ {
                spec_decode_access_log(fs)
            } else {
                Err(())
            },
            _ => Err(()),
        },
        _ => Err(()),
    }
}

fn proxy_allowed() -> (r: Vec<&'static str>)
    ensures
        r.deep_view() == proxy_field_names(),
{
    let mut v: Vec<&'static str> = Vec::new();
    v.push("type");
    v.push("target");
    v.push("noBody");
    proof {
        assert(v.deep_view() =~= proxy_field_names());
    }
    v
}

fn redirect_allowed() -> (r: Vec<&'static str>)
    ensures
        r.deep_view() == redirect_field_names(),
{
    let mut v: Vec<&'static str> = Vec::new();
    v.push("type");
    v.push("target");
    proof {
        assert(v.deep_view() =~= redirect_field_names());
    }
    v
}

fn set_variables_allowed() -> (r: Vec<&'static str>)
    ensures
        r.deep_view() == set_variables_field_names(),
{
    let mut v: Vec<&'static str> = Vec::new();
    v.push("type");
    v.push("variables");
    proof {
        assert(v.deep_view() =~= set_variables_field_names());
    }
    v
}

fn set_headers_allowed() -> (r: Vec<&'static str>)
    ensures
        r.deep_view() == set_headers_field_names(),
{
    let mut v: Vec<&'static str> = Vec::new();
    v.push("type");
    v.push("target");
    v.push("headers");
    proof {
        assert(v.deep_view() =~= set_headers_field_names());
    }
    v
}

fn access_log_allowed() -> (r: Vec<&'static str>)
    ensures
        r.deep_view() == access_log_field_names(),
{
    let mut v: Vec<&'static str> = Vec::new();
    v.push("type");
    v.push("target");
    v.push("maxValueLength");
    v.push("format");
    proof {
        assert(v.deep_view() =~= access_log_field_names());
    }
    v
}

/// Reads an action out of a document, enforcing the tag and the tagged
/// kind's closed schema.
pub fn decode_action(j: &Json) -> (r: Result<Action, DecodeError>)
    ensures
        match r {
            Ok(v) => spec_decode_action(j@) == Ok::<ActionV, ()>(v@),
            Err(_) => spec_decode_action(j@) is Err,
        },
{
    let fields = match j {
        Json::Obj(fields) => fields,
        _ => {
            return Err(DecodeError);
        },
    };
    let tag = match obj_get(fields, "type") {
        Some(Json::Str(tag)) => tag,
        _ => {
            return Err(DecodeError);
        },
    };
    if str_eq(tag.as_str(), "proxy") {
        let allowed = proxy_allowed();
        if !fields_closed(fields, &allowed) {
            return Err(DecodeError);
        }
        let target = match req_str(fields, "target") {
            Ok(v) => v,
            Err(e) => {
                return Err(e);
            },
        };
        let no_body = match bool_or_false(fields, "noBody") {
            Ok(v) => v,
            Err(e) => {
                return Err(e);
            },
        };
        Ok(Action::Proxy(ProxyAction { target, no_body }))
    } else if str_eq(tag.as_str(), "redirect") {
        let allowed = redirect_allowed();
        if !fields_closed(fields, &allowed) {
            return Err(DecodeError);
        }
        let target = match req_str(fields, "target") {
            Ok(v) => v,
            Err(e) => {
                return Err(e);
            },
        };
        Ok(Action::Redirect(RedirectAction { target }))
    } else if str_eq(tag.as_str(), "jump") {
        let allowed = redirect_allowed();
        if !fields_closed(fields, &allowed) {
            return Err(DecodeError);
        }
        let target = match req_str(fields, "target") {
            Ok(v) => v,
            Err(e) => {
                return Err(e);
            },
        };
        Ok(Action::Jump(JumpAction { target }))
    } else if str_eq(tag.as_str(), "setVariables") {
        let allowed = set_variables_allowed();
        if !fields_closed(fields, &allowed) {
            return Err(DecodeError);
        }
        let variables = match req_str_map(fields, "variables") {
            Ok(v) => v,
            Err(e) => {
                return Err(e);
            },
        };
        Ok(Action::SetVariables(SetVariablesAction { variables }))
    } else if str_eq(tag.as_str(), "setHeaders") {
        let allowed = set_headers_allowed();
        if !fields_closed(fields, &allowed) {
            return Err(DecodeError);
        }
        let target = match req_str(fields, "target") {
            Ok(v) => v,
            Err(e) => {
                return Err(e);
            },
        };
        let headers = match req_str_map(fields, "headers") {
            Ok(v) => v,
            Err(e) => {
                return Err(e);
            },
        };
        Ok(Action::SetHeaders(SetHeadersAction { target, headers }))
    } else if str_eq(tag.as_str(), "accessLog") {
        let allowed = access_log_allowed();
        if !fields_closed(fields, &allowed) {
            return Err(DecodeError);
        }
        let target = match req_str(fields, "target") {
            Ok(v) => v,
            Err(e) => {
                return Err(e);
            },
        };
        let max_value_length = match i32_or(fields, "maxValueLength", default_max_value_length()) {
            Ok(v) => v,
            Err(e) => {
                return Err(e);
            },
        };
        let format = match req_str_map(fields, "format") {
            Ok(v) => v,
            Err(e) => {
                return Err(e);
            },
        };
        Ok(Action::AccessLog(AccessLogAction { target, max_value_length, format }))
    } else {
        Err(DecodeError)
    }
}

/// How an action is written: the `type` tag first, then the kind's own
/// members; a proxy's unset `noBody` flag is left out.
pub open spec fn spec_encode_action(a: ActionV) -> JsonV {
    match a {
        ActionV::Proxy(p) => JsonV::Obj(
            field("type"@, JsonV::Str("proxy"@)) + field("target"@, JsonV::Str(p.target))
                + bool_true_field("noBody"@, p.no_body),
        ),
        ActionV::Redirect(p) => JsonV::Obj(
            field("type"@, JsonV::Str("redirect"@)) + field("target"@, JsonV::Str(p.target)),
        ),
        ActionV::Jump(p) => JsonV::Obj(
            field("type"@, JsonV::Str("jump"@)) + field("target"@, JsonV::Str(p.target)),
        ),
        ActionV::SetVariables(p) => JsonV::Obj(
            field("type"@, JsonV::Str("setVariables"@)) + field(
                "variables"@,
                JsonV::Obj(str_entries_obj(p.variables)),
            ),
        ),
        ActionV::SetHeaders(p) => JsonV::Obj(
            field("type"@, JsonV::Str("setHeaders"@)) + field("target"@, JsonV::Str(p.target))
                + field("headers"@, JsonV::Obj(str_entries_obj(p.headers))),
        ),
        ActionV::AccessLog(p) => JsonV::Obj(
            field("type"@, JsonV::Str("accessLog"@)) + field("target"@, JsonV::Str(p.target))
                + field("maxValueLength"@, JsonV::Int(p.max_value_length as i64)) + field(
                "format"@,
                JsonV::Obj(str_entries_obj(p.format)),
            ),
        ),
    }
}

impl Action {
    /// Writes the action as a document.
    pub fn to_json(&self) -> (r: Json)
        ensures
            r@ == spec_encode_action(self@),
    {
        match self {
            Action::Proxy(p) => {
                let mut fields: Vec<(String, Json)> = Vec::new();
                fields.push((String::from_str("type"), Json::Str(String::from_str("proxy"))));
                fields.push((String::from_str("target"), Json::Str(p.target.clone())));
                if p.no_body {
                    fields.push((String::from_str("noBody"), Json::Bool(true)));
                }
                proof {
                    assert(fields_view(fields@) =~= spec_encode_action(self@)->Obj_0);
                }
                Json::Obj(fields)
            },
            Action::Redirect(p) => {
                let mut fields: Vec<(String, Json)> = Vec::new();
                fields.push((String::from_str("type"), Json::Str(String::from_str("redirect"))));
                fields.push((String::from_str("target"), Json::Str(p.target.clone())));
                proof {
                    assert(fields_view(fields@) =~= spec_encode_action(self@)->Obj_0);
                }
                Json::Obj(fields)
            },
            Action::Jump(p) => {
                let mut fields: Vec<(String, Json)> = Vec::new();
                fields.push((String::from_str("type"), Json::Str(String::from_str("jump"))));
                fields.push((String::from_str("target"), Json::Str(p.target.clone())));
                proof {
                    assert(fields_view(fields@) =~= spec_encode_action(self@)->Obj_0);
                }
                Json::Obj(fields)
            },
            Action::SetVariables(p) => {
                let mut fields: Vec<(String, Json)> = Vec::new();
                fields.push(
                    (String::from_str("type"), Json::Str(String::from_str("setVariables"))),
                );
                fields.push(
                    (String::from_str("variables"), Json::Obj(entries_to_json(&p.variables))),
                );
                proof {
                    assert(fields_view(fields@) =~= spec_encode_action(self@)->Obj_0);
                }
                Json::Obj(fields)
            },
            Action::SetHeaders(p) => {
                let mut fields: Vec<(String, Json)> = Vec::new();
                fields.push((String::from_str("type"), Json::Str(String::from_str("setHeaders"))));
                fields.push((String::from_str("target"), Json::Str(p.target.clone())));
                fields.push((String::from_str("headers"), Json::Obj(entries_to_json(&p.headers))));
                proof {
                    assert(fields_view(fields@) =~= spec_encode_action(self@)->Obj_0);
                }
                Json::Obj(fields)
            },
            Action::AccessLog(p) => {
                let mut fields: Vec<(String, Json)> = Vec::new();
                fields.push((String::from_str("type"), Json::Str(String::from_str("accessLog"))));
                fields.push((String::from_str("target"), Json::Str(p.target.clone())));
                fields.push(
                    (String::from_str("maxValueLength"), Json::Int(p.max_value_length as i64)),
                );
                fields.push((String::from_str("format"), Json::Obj(entries_to_json(&p.format))));
                proof {
                    assert(fields_view(fields@) =~= spec_encode_action(self@)->Obj_0);
                }
                Json::Obj(fields)
            },
        }
    }
}

/// Reading an action's encoding back yields the action.
#[verifier::rlimit(100)]
pub proof fn lemma_action_round_trip(a: ActionV)
    ensures
        spec_decode_action(spec_encode_action(a)) == Ok::<ActionV, ()>(a),
{
    reveal_strlit("type");
    reveal_strlit("target");
    reveal_strlit("noBody");
    reveal_strlit("variables");
    reveal_strlit("headers");
    reveal_strlit("maxValueLength");
    reveal_strlit("format");
    reveal_strlit("proxy");
    reveal_strlit("redirect");
    reveal_strlit("jump");
    reveal_strlit("setVariables");
    reveal_strlit("setHeaders");
    reveal_strlit("accessLog");
    // members of one length are told apart by a differing character
    assert(("type"@).len() == 4 && ("target"@).len() == 6 && ("noBody"@).len() == 6 && (
    "variables"@).len() == 9 && ("headers"@).len() == 7 && ("maxValueLength"@).len() == 14 && (
    "format"@).len() == 6);
    assert(("target"@)[0] == 't' && ("noBody"@)[0] == 'n' && ("format"@)[0] == 'f');
    // the six tags are pairwise distinct
    assert(("proxy"@).len() == 5 && ("redirect"@).len() == 8 && ("jump"@).len() == 4 && (
    "setVariables"@).len() == 12 && ("setHeaders"@).len() == 10 && ("accessLog"@).len() == 9);
    match a {
        ActionV::Proxy(p) => {
            let fs = spec_encode_action(a)->Obj_0;
            let s1 = field("type"@, JsonV::Str("proxy"@));
            let s2 = field("target"@, JsonV::Str(p.target));
            let s3 = bool_true_field("noBody"@, p.no_body);
            assert(fs == s1 + s2 + s3);
            assert(lookup(fs, "type"@) == Some(JsonV::Str("proxy"@)));
            assert(proxy_field_names()[0] == "type"@ && proxy_field_names()[1] == "target"@
                && proxy_field_names()[2] == "noBody"@);
            assert(keys_within(fs, proxy_field_names()));
            assert(lookup(s1, "target"@) is None);
            assert(lookup(fs, "target"@) == Some(JsonV::Str(p.target)));
            assert(lookup(s1 + s2, "noBody"@) is None);
            assert(lookup(fs, "noBody"@) == if p.no_body {
                Some(JsonV::Bool(true))
            } else {
                None::<JsonV>
            });
        },
        ActionV::Redirect(p) => {
            let fs = spec_encode_action(a)->Obj_0;
            let s1 = field("type"@, JsonV::Str("redirect"@));
            let s2 = field("target"@, JsonV::Str(p.target));
            assert(fs == s1 + s2);
            assert(lookup(fs, "type"@) == Some(JsonV::Str("redirect"@)));
            assert(("proxy"@)[0] == 'p' && ("redirect"@)[0] == 'r');
            assert(redirect_field_names()[0] == "type"@ && redirect_field_names()[1] == "target"@);
            assert(keys_within(fs, redirect_field_names()));
            assert(lookup(s1, "target"@) is None);
            assert(lookup(fs, "target"@) == Some(JsonV::Str(p.target)));
        },
        ActionV::Jump(p) => {
            let fs = spec_encode_action(a)->Obj_0;
            let s1 = field("type"@, JsonV::Str("jump"@));
            let s2 = field("target"@, JsonV::Str(p.target));
            assert(fs == s1 + s2);
            assert(lookup(fs, "type"@) == Some(JsonV::Str("jump"@)));
            assert(redirect_field_names()[0] == "type"@ && redirect_field_names()[1] == "target"@);
            assert(keys_within(fs, redirect_field_names()));
            assert(lookup(s1, "target"@) is None);
            assert(lookup(fs, "target"@) == Some(JsonV::Str(p.target)));
        },
        ActionV::SetVariables(p) => {
            let fs = spec_encode_action(a)->Obj_0;
            let s1 = field("type"@, JsonV::Str("setVariables"@));
            let s2 = field("variables"@, JsonV::Obj(str_entries_obj(p.variables)));
            assert(fs == s1 + s2);
            assert(lookup(fs, "type"@) == Some(JsonV::Str("setVariables"@)));
            assert(("proxy"@)[0] == 'p' && ("setVariables"@)[0] == 's');
            assert(set_variables_field_names()[0] == "type"@ && set_variables_field_names()[1]
                == "variables"@);
            assert(keys_within(fs, set_variables_field_names()));
            assert(lookup(s1, "variables"@) is None);
            assert(lookup(fs, "variables"@) == Some(JsonV::Obj(str_entries_obj(p.variables))));
            lemma_str_entries_round_trip(p.variables);
        },
        ActionV::SetHeaders(p) => {
            let fs = spec_encode_action(a)->Obj_0;
            let s1 = field("type"@, JsonV::Str("setHeaders"@));
            let s2 = field("target"@, JsonV::Str(p.target));
            let s3 = field("headers"@, JsonV::Obj(str_entries_obj(p.headers)));
            assert(fs == s1 + s2 + s3);
            assert(lookup(fs, "type"@) == Some(JsonV::Str("setHeaders"@)));
            assert(("proxy"@)[0] == 'p' && ("setHeaders"@)[0] == 's');
            assert(("setVariables"@)[3] == 'V' && ("setHeaders"@)[3] == 'H');
            assert(set_headers_field_names()[0] == "type"@ && set_headers_field_names()[1]
                == "target"@ && set_headers_field_names()[2] == "headers"@);
            assert(keys_within(fs, set_headers_field_names()));
            assert(lookup(s1, "target"@) is None);
            assert(lookup(fs, "target"@) == Some(JsonV::Str(p.target)));
            assert(lookup(s1 + s2, "headers"@) is None);
            assert(lookup(fs, "headers"@) == Some(JsonV::Obj(str_entries_obj(p.headers))));
            lemma_str_entries_round_trip(p.headers);
        },
        ActionV::AccessLog(p) => {
            let fs = spec_encode_action(a)->Obj_0;
            let s1 = field("type"@, JsonV::Str("accessLog"@));
            let s2 = field("target"@, JsonV::Str(p.target));
            let s3 = field("maxValueLength"@, JsonV::Int(p.max_value_length as i64));
            let s4 = field("format"@, JsonV::Obj(str_entries_obj(p.format)));
            assert(fs == s1 + s2 + s3 + s4);
            assert(lookup(fs, "type"@) == Some(JsonV::Str("accessLog"@)));
            assert(("proxy"@)[0] == 'p' && ("accessLog"@)[0] == 'a');
            assert(access_log_field_names()[0] == "type"@ && access_log_field_names()[1]
                == "target"@ && access_log_field_names()[2] == "maxValueLength"@
                && access_log_field_names()[3] == "format"@);
            assert(keys_within(fs, access_log_field_names()));
            assert(lookup(s1, "target"@) is None);
            assert(lookup(fs, "target"@) == Some(JsonV::Str(p.target)));
            assert(lookup(s1 + s2, "maxValueLength"@) is None);
            assert(lookup(fs, "maxValueLength"@) == Some(JsonV::Int(p.max_value_length as i64)));
            assert(lookup(s1 + s2 + s3, "format"@) is None);
            assert(lookup(fs, "format"@) == Some(JsonV::Obj(str_entries_obj(p.format))));
            lemma_str_entries_round_trip(p.format);
        },
    }
}

/// An action document whose `type` tag is none of the six kinds is never
/// accepted.
pub proof fn lemma_action_rejects_unknown_tag(fs: Seq<(Seq<char>, JsonV)>, tag: Seq<char>)
    requires
        lookup(fs, "type"@) == Some(JsonV::Str(tag)),
        tag != "proxy"@,
        tag != "redirect"@,
        tag != "jump"@,
        tag != "setVariables"@,
        tag != "setHeaders"@,
        tag != "accessLog"@,
    ensures
        spec_decode_action(JsonV::Obj(fs)) is Err,
{
}


// --- rules ----------------------------------------------------------------

/// The member names a rule may carry.
pub open spec fn rule_field_names() -> Seq<Seq<char>> {
    seq!["match"@, "action"@]
}

fn rule_allowed() -> (r: Vec<&'static str>)
    ensures
        r.deep_view() == rule_field_names(),
{
    let mut v: Vec<&'static str> = Vec::new();
    v.push("match");
    v.push("action");
    proof {
        assert(v.deep_view() =~= rule_field_names());
    }
    v
}

/// Which documents are accepted as a rule: exactly a `match` pattern and
/// an `action`.
pub open spec fn spec_decode_rule(j: JsonV) -> Result<RuleV, ()> {
    match j {
        JsonV::Obj(fs) => if !keys_within(fs, rule_field_names()) {
            Err(())
        } else if spec_req_str(fs, "match"@) is Err {
            Err(())
        } else {
            match lookup(fs, "action"@) {
                Some(aj) => match spec_decode_action(aj) {
                    Ok(a) => Ok(RuleV { match_expr: spec_req_str(fs, "match"@)->Ok_0, action: a }),
                    Err(_) => Err(()),
                },
                None => Err(()),
            }
        },
        _ => Err(()),
    }
}

/// Reads a rule out of a document.
pub fn decode_rule(j: &Json) -> (r: Result<Rule, DecodeError>)
    ensures
        match r {
            Ok(v) => spec_decode_rule(j@) == Ok::<RuleV, ()>(v@),
            Err(_) => spec_decode_rule(j@) is Err,
        },
{
    let fields = match j {
        Json::Obj(fields) => fields,
        _ => {
            return Err(DecodeError);
        },
    };
    let allowed = rule_allowed();
    if !fields_closed(fields, &allowed) {
        return Err(DecodeError);
    }
    let match_expr = match req_str(fields, "match") {
        Ok(v) => v,
        Err(e) => {
            return Err(e);
        },
    };
    let action = match obj_get(fields, "action") {
        Some(aj) => match decode_action(aj) {
            Ok(a) => a,
            Err(e) => {
                return Err(e);
            },
        },
        None => {
            return Err(DecodeError);
        },
    };
    Ok(Rule { match_expr, action })
}

/// How a rule is written.
pub open spec fn spec_encode_rule(v: RuleV) -> JsonV {
    JsonV::Obj(
        field("match"@, JsonV::Str(v.match_expr)) + field("action"@, spec_encode_action(v.action)),
    )
}

impl Rule {
    /// Writes the rule as a document.
    pub fn to_json(&self) -> (r: Json)
        ensures
            r@ == spec_encode_rule(self@),
    {
        let mut fields: Vec<(String, Json)> = Vec::new();
        fields.push((String::from_str("match"), Json::Str(self.match_expr.clone())));
        fields.push((String::from_str("action"), self.action.to_json()));
        proof {
            assert(fields_view(fields@) =~= spec_encode_rule(self@)->Obj_0);
        }
        Json::Obj(fields)
    }
}

/// Reading a rule's encoding back yields the rule.
pub proof fn lemma_rule_round_trip(v: RuleV)
    ensures
        spec_decode_rule(spec_encode_rule(v)) == Ok::<RuleV, ()>(v),
{
    reveal_strlit("match");
    reveal_strlit("action");
    let fs = spec_encode_rule(v)->Obj_0;
    let s1 = field("match"@, JsonV::Str(v.match_expr));
    let s2 = field("action"@, spec_encode_action(v.action));
    assert(fs == s1 + s2);
    assert(("match"@).len() == 5 && ("action"@).len() == 6);
    assert(rule_field_names()[0] == "match"@ && rule_field_names()[1] == "action"@);
    assert(keys_within(fs, rule_field_names()));
    assert(lookup(fs, "match"@) == Some(JsonV::Str(v.match_expr)));
    assert(lookup(s1, "action"@) is None);
    assert(lookup(fs, "action"@) == Some(spec_encode_action(v.action)));
    lemma_action_round_trip(v.action);
}

/// An ordered rule list, element for element.
pub open spec fn rules_items(rs: Seq<RuleV>) -> Seq<JsonV> {
    Seq::new(rs.len(), |i: int| spec_encode_rule(rs[i]))
}

/// Which arrays are accepted as a rule list: every element must be a
/// rule, and order is kept.
pub open spec fn spec_decode_rules(items: Seq<JsonV>) -> Result<Seq<RuleV>, ()>
    decreases items.len(),
{
    if items.len() == 0 {
        Ok(Seq::empty())
    } else {
        match spec_decode_rules(items.drop_last()) {
            Ok(rest) => match spec_decode_rule(items.last()) {
                Ok(r) => Ok(rest.push(r)),
                Err(_) => Err(()),
            },
            Err(e) => Err(e),
        }
    }
}

proof fn lemma_decode_rules_err(items: Seq<JsonV>, i: int)
    requires
        0 <= i < items.len(),
        spec_decode_rule(items[i]) is Err,
    ensures
        spec_decode_rules(items) is Err,
    decreases items.len(),
{
    if i == items.len() - 1 {
    } else {
        lemma_decode_rules_err(items.drop_last(), i);
    }
}

/// Reads a rule list strictly: one bad rule rejects the whole list.
pub fn decode_rules(items: &Vec<Json>) -> (r: Result<Vec<Rule>, DecodeError>)
    ensures
        match r {
            Ok(v) => spec_decode_rules(items_view(items@)) == Ok::<Seq<RuleV>, ()>(v.deep_view()),
            Err(_) => spec_decode_rules(items_view(items@)) is Err,
        },
{
    let ghost iv = items_view(items@);
    let mut out: Vec<Rule> = Vec::new();
    let mut i: usize = 0;
    proof {
        assert(iv.take(0) =~= Seq::<JsonV>::empty());
        assert(out.deep_view() =~= Seq::<RuleV>::empty());
    }
    while i < items.len()
        invariant
            i <= items.len(),
            iv == items_view(items@),
            spec_decode_rules(iv.take(i as int)) == Ok::<Seq<RuleV>, ()>(out.deep_view()),
        decreases items.len() - i,
    {
        let ghost prev = out.deep_view();
        match decode_rule(&items[i]) {
            Ok(v) => {
                let ghost vv = v@;
                out.push(v);
                proof {
                    assert(out.deep_view() =~= prev.push(vv));
                }
            },
            Err(e) => {
                proof {
                    assert(iv[i as int] == items@[i as int]@);
                    lemma_decode_rules_err(iv, i as int);
                }
                return Err(e);
            },
        }
        proof {
            assert(iv.take(i + 1).drop_last() =~= iv.take(i as int));
            assert(iv.take(i + 1).last() == iv[i as int]);
            assert(iv[i as int] == items@[i as int]@);
        }
        i += 1;
    }
    proof {
        assert(iv.take(items.len() as int) =~= iv);
    }
    Ok(out)
}

/// Writes a rule list as a JSON array.
pub fn rules_to_json(rules: &Vec<Rule>) -> (r: Vec<Json>)
    ensures
        items_view(r@) == rules_items(rules.deep_view()),
{
    let mut out: Vec<Json> = Vec::new();
    let mut i: usize = 0;
    while i < rules.len()
        invariant
            i <= rules.len(),
            out@.len() == i as int,
            forall|k: int| 0 <= k < i ==> (#[trigger] out@[k])@ == spec_encode_rule(
                rules.deep_view()[k],
            ),
        decreases rules.len() - i,
    {
        out.push(rules[i].to_json());
        i += 1;
    }
    proof {
        assert(items_view(out@) =~= rules_items(rules.deep_view()));
    }
    out
}

/// Reading a rule list's encoding back yields the same rules in the same
/// order.
pub proof fn lemma_rules_round_trip(rs: Seq<RuleV>)
    ensures
        spec_decode_rules(rules_items(rs)) == Ok::<Seq<RuleV>, ()>(rs),
    decreases rs.len(),
{
    if rs.len() == 0 {
        assert(rules_items(rs) =~= Seq::empty());
        assert(rs =~= Seq::<RuleV>::empty());
    } else {
        lemma_rules_round_trip(rs.drop_last());
        let enc = rules_items(rs);
        assert(enc.len() == rs.len());
        assert(enc.drop_last() =~= rules_items(rs.drop_last()));
        assert(spec_decode_rules(enc.drop_last()) == Ok::<Seq<RuleV>, ()>(rs.drop_last()));
        assert(enc.last() == spec_encode_rule(rs.last()));
        lemma_rule_round_trip(rs.last());
        assert(spec_decode_rules(enc) == Ok::<Seq<RuleV>, ()>(rs.drop_last().push(rs.last())));
        assert(rs.drop_last().push(rs.last()) =~= rs);
    }
}

// --- the chain ------------------------------------------------------------

/// A routing-chain document.
#[derive(Debug, PartialEq)]
pub struct RoutingChain {
    pub name: String,
    /// Server-derived: the name of the owning realm.
    pub realm: Option<String>,
    /// Server-derived: `urn:chip-in:routing-chain:{realm}:{name}`.
    pub urn: Option<String>,
    pub title: String,
    pub description: Option<String>,
    pub rules: Vec<Rule>,
}

/// The mathematical shape of a [`RoutingChain`].
pub struct RoutingChainV {
    pub name: Seq<char>,
    pub realm: Option<Seq<char>>,
    pub urn: Option<Seq<char>>,
    pub title: Seq<char>,
    pub description: Option<Seq<char>>,
    pub rules: Seq<RuleV>,
}

impl View for RoutingChain {
    type V = RoutingChainV;

    open spec fn view(&self) -> RoutingChainV {
        RoutingChainV {
            name: self.name@,
            realm: self.realm.deep_view(),
            urn: self.urn.deep_view(),
            title: self.title@,
            description: self.description.deep_view(),
            rules: self.rules.deep_view(),
        }
    }
}

impl DeepView for RoutingChain {
    type V = RoutingChainV;

    open spec fn deep_view(&self) -> RoutingChainV {
        self.view()
    }
}

/// The key a routing chain is stored under.
pub open spec fn spec_routing_chain_key(realm: Seq<char>, name: Seq<char>) -> Seq<char> {
    "/realms/"@ + realm + "/routing-chains/"@ + name
}

/// The prefix that covers every routing chain of a realm.
pub open spec fn spec_routing_chain_prefix(realm: Seq<char>) -> Seq<char> {
    "/realms/"@ + realm + "/routing-chains/"@
}

/// Builds the key a routing chain is stored under.
pub fn routing_chain_key(realm: &str, name: &str) -> (r: String)
    ensures
        r@ == spec_routing_chain_key(realm@, name@),
{
    let mut k = String::from_str("/realms/");
    k.append(realm);
    k.append("/routing-chains/");
    k.append(name);
    k
}

/// Builds the prefix that covers every routing chain of a realm.
pub fn routing_chain_prefix(realm: &str) -> (r: String)
    ensures
        r@ == spec_routing_chain_prefix(realm@),
{
    let mut k = String::from_str("/realms/");
    k.append(realm);
    k.append("/routing-chains/");
    k
}

/// The member names a routing-chain document may carry.
pub open spec fn routing_chain_field_names() -> Seq<Seq<char>> {
    seq!["name"@, "realm"@, "urn"@, "title"@, "description"@, "rules"@]
}

fn routing_chain_allowed() -> (r: Vec<&'static str>)
    ensures
        r.deep_view() == routing_chain_field_names(),
{
    let mut v: Vec<&'static str> = Vec::new();
    v.push("name");
    v.push("realm");
    v.push("urn");
    v.push("title");
    v.push("description");
    v.push("rules");
    proof {
        assert(v.deep_view() =~= routing_chain_field_names());
    }
    v
}

/// What the `rules` member reads as: absence is the empty list, an array
/// must hold rules only, anything else is rejected.
pub open spec fn spec_rules_member(fs: Seq<(Seq<char>, JsonV)>) -> Result<Seq<RuleV>, ()> {
    match lookup(fs, "rules"@) {
        None => Ok(Seq::empty()),
        Some(JsonV::Arr(items)) => spec_decode_rules(items),
        Some(_) => Err(()),
    }
}

/// Which documents are accepted as a routing chain: the field set is
/// closed; `name` and `title` are required, `rules` defaults to the empty
/// list, the rest are optional.
pub open spec fn spec_decode_routing_chain(j: JsonV) -> Result<RoutingChainV, ()> {
    match j {
        JsonV::Obj(fs) => if !keys_within(fs, routing_chain_field_names()) {
            Err(())
        } else if spec_req_str(fs, "name"@) is Err || spec_opt_str(fs, "realm"@) is Err
            || spec_opt_str(fs, "urn"@) is Err || spec_req_str(fs, "title"@) is Err
            || spec_opt_str(fs, "description"@) is Err || spec_rules_member(fs) is Err {
            Err(())
        } else {
            Ok(
                RoutingChainV {
                    name: spec_req_str(fs, "name"@)->Ok_0,
                    realm: spec_opt_str(fs, "realm"@)->Ok_0,
                    urn: spec_opt_str(fs, "urn"@)->Ok_0,
                    title: spec_req_str(fs, "title"@)->Ok_0,
                    description: spec_opt_str(fs, "description"@)->Ok_0,
                    rules: spec_rules_member(fs)->Ok_0,
                },
            )
        },
        _ => Err(()),
    }
}

/// Reads a routing chain out of a document, enforcing the closed schema.
pub fn decode_routing_chain(j: &Json) -> (r: Result<RoutingChain, DecodeError>)
    ensures
        match r {
            Ok(v) => spec_decode_routing_chain(j@) == Ok::<RoutingChainV, ()>(v@),
            Err(_) => spec_decode_routing_chain(j@) is Err,
        },
{
    let fields = match j {
        Json::Obj(fields) => fields,
        _ => {
            return Err(DecodeError);
        },
    };
    let allowed = routing_chain_allowed();
    if !fields_closed(fields, &allowed) {
        return Err(DecodeError);
    }
    let name = match req_str(fields, "name") {
        Ok(v) => v,
        Err(e) => {
            return Err(e);
        },
    };
    let realm = match opt_str(fields, "realm") {
        Ok(v) => v,
        Err(e) => {
            return Err(e);
        },
    };
    let urn = match opt_str(fields, "urn") {
        Ok(v) => v,
        Err(e) => {
            return Err(e);
        },
    };
    let title = match req_str(fields, "title") {
        Ok(v) => v,
        Err(e) => {
            return Err(e);
        },
    };
    let description = match opt_str(fields, "description") {
        Ok(v) => v,
        Err(e) => {
            return Err(e);
        },
    };
    let rules = match obj_get(fields, "rules") {
        None => {
            let empty: Vec<Rule> = Vec::new();
            proof {
                assert(empty.deep_view() =~= Seq::<RuleV>::empty());
            }
            empty
        },
        Some(Json::Arr(items)) => match decode_rules(items) {
            Ok(v) => v,
            Err(e) => {
                return Err(e);
            },
        },
        Some(_) => {
            return Err(DecodeError);
        },
    };
    Ok(RoutingChain { name, realm, urn, title, description, rules })
}

/// How a routing chain is written: members in declaration order, optional
/// members left out when absent, an empty rule list left out entirely.
pub open spec fn spec_encode_routing_chain(v: RoutingChainV) -> JsonV {
    JsonV::Obj(
        field("name"@, JsonV::Str(v.name)) + opt_str_field("realm"@, v.realm) + opt_str_field(
            "urn"@,
            v.urn,
        ) + field("title"@, JsonV::Str(v.title)) + opt_str_field("description"@, v.description) + (
        if v.rules.len() == 0 {
            Seq::empty()
        } else {
            field("rules"@, JsonV::Arr(rules_items(v.rules)))
        }),
    )
}

impl RoutingChain {
    /// Writes the routing chain as a document.
    pub fn to_json(&self) -> (r: Json)
        ensures
            r@ == spec_encode_routing_chain(self@),
    {
        let mut fields: Vec<(String, Json)> = Vec::new();
        fields.push((String::from_str("name"), Json::Str(self.name.clone())));
        match &self.realm {
            Some(d) => fields.push((String::from_str("realm"), Json::Str(d.clone()))),
            None => (),
        }
        match &self.urn {
            Some(d) => fields.push((String::from_str("urn"), Json::Str(d.clone()))),
            None => (),
        }
        fields.push((String::from_str("title"), Json::Str(self.title.clone())));
        match &self.description {
            Some(d) => fields.push((String::from_str("description"), Json::Str(d.clone()))),
            None => (),
        }
        if self.rules.len() > 0 {
            fields.push((String::from_str("rules"), Json::Arr(rules_to_json(&self.rules))));
        }
        proof {
            assert(fields_view(fields@) =~= spec_encode_routing_chain(self@)->Obj_0);
        }
        Json::Obj(fields)
    }
}

/// Reading a routing chain's encoding back yields the chain, rules in
/// order.
#[verifier::rlimit(100)]
pub proof fn lemma_routing_chain_round_trip(v: RoutingChainV)
    ensures
        spec_decode_routing_chain(spec_encode_routing_chain(v)) == Ok::<RoutingChainV, ()>(v),
{
    reveal_strlit("name");
    reveal_strlit("realm");
    reveal_strlit("urn");
    reveal_strlit("title");
    reveal_strlit("description");
    reveal_strlit("rules");
    let fs = spec_encode_routing_chain(v)->Obj_0;
    let names = routing_chain_field_names();
    assert(names[0] == "name"@ && names[1] == "realm"@ && names[2] == "urn"@ && names[3]
        == "title"@ && names[4] == "description"@ && names[5] == "rules"@);
    // name pairs of one length are told apart by a differing character
    assert(("name"@).len() == 4 && ("realm"@).len() == 5 && ("urn"@).len() == 3 && (
    "title"@).len() == 5 && ("description"@).len() == 11 && ("rules"@).len() == 5);
    assert(("realm"@)[0] == 'r' && ("title"@)[0] == 't' && ("rules"@)[0] == 'r');
    assert(("realm"@)[1] == 'e' && ("rules"@)[1] == 'u');
    let s1 = field("name"@, JsonV::Str(v.name));
    let s2 = opt_str_field("realm"@, v.realm);
    let s3 = opt_str_field("urn"@, v.urn);
    let s4 = field("title"@, JsonV::Str(v.title));
    let s5 = opt_str_field("description"@, v.description);
    let s6 = if v.rules.len() == 0 {
        Seq::<(Seq<char>, JsonV)>::empty()
    } else {
        field("rules"@, JsonV::Arr(rules_items(v.rules)))
    };
    assert(fs == s1 + s2 + s3 + s4 + s5 + s6);
    if v.rules.len() == 0 {
        assert(keys_within(s6, names));
    } else {
        assert(keys_within(s6, names));
    }
    assert(keys_within(fs, names));
    assert(lookup(fs, "name"@) == Some(JsonV::Str(v.name)));
    assert(lookup(fs, "realm"@) == match v.realm {
        Some(d) => Some(JsonV::Str(d)),
        None => None::<JsonV>,
    });
    assert(lookup(fs, "urn"@) == match v.urn {
        Some(d) => Some(JsonV::Str(d)),
        None => None::<JsonV>,
    });
    assert(lookup(fs, "title"@) == Some(JsonV::Str(v.title)));
    assert(lookup(fs, "description"@) == match v.description {
        Some(d) => Some(JsonV::Str(d)),
        None => None::<JsonV>,
    });
    assert(lookup(s1 + s2 + s3 + s4 + s5, "rules"@) is None);
    if v.rules.len() == 0 {
        assert(lookup(s6, "rules"@) is None);
        assert(lookup(fs, "rules"@) is None);
        assert(spec_rules_member(fs) == Ok::<Seq<RuleV>, ()>(Seq::empty()));
        assert(v.rules =~= Seq::<RuleV>::empty());
    } else {
        assert(lookup(s6, "rules"@) == Some(JsonV::Arr(rules_items(v.rules))));
        assert(lookup(fs, "rules"@) == Some(JsonV::Arr(rules_items(v.rules))));
        lemma_rules_round_trip(v.rules);
        assert(spec_rules_member(fs) == Ok::<Seq<RuleV>, ()>(v.rules));
    }
}

/// A document with a member outside the declared field set is never
/// accepted as a routing chain.
pub proof fn lemma_routing_chain_rejects_unknown_field(fs: Seq<(Seq<char>, JsonV)>, i: int)
    requires
        0 <= i < fs.len(),
        !routing_chain_field_names().contains(fs[i].0),
    ensures
        spec_decode_routing_chain(JsonV::Obj(fs)) is Err,
{
    assert(!keys_within(fs, routing_chain_field_names()));
}

/// The URN of a routing chain.
pub open spec fn spec_routing_chain_urn(realm: Seq<char>, name: Seq<char>) -> Seq<char> {
    "urn:chip-in:routing-chain:"@ + realm + ":"@ + name
}

/// The server-derived form of a routing chain: `realm` and `urn` are
/// overwritten from the request path, everything else is kept.
pub open spec fn spec_derive_routing_chain(realm: Seq<char>, v: RoutingChainV) -> RoutingChainV {
    RoutingChainV { realm: Some(realm), urn: Some(spec_routing_chain_urn(realm, v.name)), ..v }
}

fn routing_chain_urn(realm: &str, name: &str) -> (r: String)
    ensures
        r@ == spec_routing_chain_urn(realm@, name@),
{
    let mut u = String::from_str("urn:chip-in:routing-chain:");
    u.append(realm);
    u.append(":");
    u.append(name);
    u
}

/// The conflict message for an already-existing routing chain.
pub open spec fn spec_routing_chain_exists_msg(name: Seq<char>, realm: Seq<char>) -> Seq<char> {
    "RoutingChain '"@ + name + "' already exists in realm '"@ + realm + "'."@
}

/// The message for a missing routing chain.
pub open spec fn spec_routing_chain_not_found_msg(name: Seq<char>, realm: Seq<char>) -> Seq<char> {
    "RoutingChain '"@ + name + "' not found in realm '"@ + realm + "'"@
}

/// Decides a routing-chain creation once the existence check has been
/// made: refused with a conflict when the key is already bound, otherwise
/// stored with the server-derived `realm` and `urn`.
pub fn add_routing_chain(realm: &str, chain: RoutingChain, exists: bool) -> (r: Result<
    RoutingChain,
    ApiError,
>)
    ensures
        exists ==> (r matches Err(e) && e@ == ApiErrorV::Conflict(
            spec_routing_chain_exists_msg(chain@.name, realm@),
        )),
        !exists ==> (r matches Ok(c) && c@ == spec_derive_routing_chain(realm@, chain@)),
{
    if exists {
        let mut m = String::from_str("RoutingChain '");
        m.append(chain.name.as_str());
        m.append("' already exists in realm '");
        m.append(realm);
        m.append("'.");
        Err(ApiError::Conflict(m))
    } else {
        let urn = routing_chain_urn(realm, chain.name.as_str());
        let derived = RoutingChain { realm: Some(realm.to_owned()), urn: Some(urn), ..chain };
        Ok(derived)
    }
}

/// Decides a routing-chain update: the server-derived fields are
/// overwritten and the write is unconditional.
pub fn update_routing_chain(realm: &str, chain: RoutingChain) -> (r: RoutingChain)
    ensures
        r@ == spec_derive_routing_chain(realm@, chain@),
{
    let urn = routing_chain_urn(realm, chain.name.as_str());
    RoutingChain { realm: Some(realm.to_owned()), urn: Some(urn), ..chain }
}

/// Decides what a point read of a routing chain returns.
pub fn get_routing_chain(realm: &str, name: &str, found: Option<&Json>) -> (r: Result<
    RoutingChain,
    ApiError,
>)
    ensures
        found is None ==> (r matches Err(e) && e@ == ApiErrorV::NotFound(
            spec_routing_chain_not_found_msg(name@, realm@),
        )),
        found matches Some(j) ==> match spec_decode_routing_chain(j@) {
            Ok(v) => r matches Ok(out) && out@ == v,
            Err(_) => r matches Err(e) && e@ == ApiErrorV::Internal(
                crate::error::spec_malformed_stored_msg(),
            ),
        },
{
    match found {
        Some(j) => match decode_routing_chain(j) {
            Ok(v) => Ok(v),
            Err(_) => Err(ApiError::Internal(crate::error::malformed_stored_msg())),
        },
        None => {
            let mut m = String::from_str("RoutingChain '");
            m.append(name);
            m.append("' not found in realm '");
            m.append(realm);
            m.append("'");
            Err(ApiError::NotFound(m))
        },
    }
}

/// Decides what a routing-chain delete returns, given the document the
/// backend reported as bound to the key just before the delete.
pub fn delete_routing_chain(realm: &str, name: &str, prev: Option<&Json>) -> (r: Result<
    RoutingChain,
    ApiError,
>)
    ensures
        prev is None ==> (r matches Err(e) && e@ == ApiErrorV::NotFound(
            spec_routing_chain_not_found_msg(name@, realm@),
        )),
        prev matches Some(j) ==> match spec_decode_routing_chain(j@) {
            Ok(v) => r matches Ok(out) && out@ == v,
            Err(_) => r matches Err(e) && e@ == ApiErrorV::Internal(
                crate::error::spec_malformed_stored_msg(),
            ),
        },
{
    get_routing_chain(realm, name, prev)
}

/// What a routing-chain listing returns, raw value by raw value.
pub open spec fn spec_list_routing_chains(vs: Seq<JsonV>) -> Seq<RoutingChainV>
    decreases vs.len(),
{
    if vs.len() == 0 {
        Seq::empty()
    } else {
        let rest = spec_list_routing_chains(vs.drop_last());
        match spec_decode_routing_chain(vs.last()) {
            Ok(v) => rest.push(v),
            Err(_) => rest,
        }
    }
}

/// Reads a listing's raw values leniently: a value that does not decode as
/// a routing chain is dropped, the rest keep their order.
pub fn list_routing_chains(values: &Vec<Json>) -> (r: Vec<RoutingChain>)
    ensures
        r.deep_view() == spec_list_routing_chains(items_view(values@)),
{
    let ghost iv = items_view(values@);
    let mut out: Vec<RoutingChain> = Vec::new();
    let mut i: usize = 0;
    proof {
        assert(iv.take(0) =~= Seq::<JsonV>::empty());
        assert(out.deep_view() =~= Seq::<RoutingChainV>::empty());
    }
    while i < values.len()
        invariant
            i <= values.len(),
            iv == items_view(values@),
            out.deep_view() == spec_list_routing_chains(iv.take(i as int)),
        decreases values.len() - i,
    {
        let ghost prev = out.deep_view();
        match decode_routing_chain(&values[i]) {
            Ok(v) => {
                let ghost vv = v@;
                out.push(v);
                proof {
                    assert(out.deep_view() =~= prev.push(vv));
                }
            },
            Err(_) => (),
        }
        proof {
            assert(iv.take(i + 1).drop_last() =~= iv.take(i as int));
            assert(iv.take(i + 1).last() == iv[i as int]);
            assert(iv[i as int] == values@[i as int]@);
        }
        i += 1;
    }
    proof {
        assert(iv.take(values.len() as int) =~= iv);
    }
    out
}

/// Creating a routing chain under a free key and reading the same key
/// back yields exactly the derived chain that was stored.
pub proof fn lemma_routing_chain_create_then_get(
    m: Map<Seq<char>, JsonV>,
    realm: Seq<char>,
    v: RoutingChainV,
)
    requires
        kv_get(m, spec_routing_chain_key(realm, v.name)) is None,
    ensures
        ({
            let stored = spec_encode_routing_chain(spec_derive_routing_chain(realm, v));
            let (m1, ok) = kv_create(m, spec_routing_chain_key(realm, v.name), stored);
            ok && kv_get(m1, spec_routing_chain_key(realm, v.name)) == Some(stored)
                && spec_decode_routing_chain(
                kv_get(m1, spec_routing_chain_key(realm, v.name))->Some_0,
            ) == Ok::<RoutingChainV, ()>(spec_derive_routing_chain(realm, v))
        }),
{
    let stored = spec_encode_routing_chain(spec_derive_routing_chain(realm, v));
    crate::store::lemma_create_then_get(m, spec_routing_chain_key(realm, v.name), stored);
    lemma_routing_chain_round_trip(spec_derive_routing_chain(realm, v));
}

/// A scan of realm A's routing chains never covers a key under another
/// realm B — also when one realm's name is a prefix of the other's.
pub proof fn lemma_routing_chain_list_scoped(
    m: Map<Seq<char>, JsonV>,
    realm_a: Seq<char>,
    realm_b: Seq<char>,
    name: Seq<char>,
)
    requires
        no_slash(realm_a),
        no_slash(realm_b),
        realm_a != realm_b,
    ensures
        !kv_prefix_keys(m, spec_routing_chain_prefix(realm_a)).contains(
            spec_routing_chain_key(realm_b, name),
        ),
{
    reveal_strlit("/routing-chains/");
    lemma_two_level_scoped("/realms/"@, realm_a, "/routing-chains/"@, realm_b, name);
    crate::store::lemma_scan_excludes(
        m,
        spec_routing_chain_prefix(realm_a),
        spec_routing_chain_key(realm_b, name),
    );
}

} // verus!
