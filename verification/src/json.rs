//! A document model for the JSON values the directory stores and serves.
//!
//! The directory's schemas only ever contain null, booleans, integers,
//! strings, arrays and objects, so a value of this type stands for a whole
//! request or response body. An object keeps its members in order as a list
//! of pairs; the schema readers below look a member up by name and enforce
//! the closed field sets.

use vstd::prelude::*;

verus! {

broadcast use vstd::std_specs::vec::group_vec_axioms;



/// A JSON document value.
#[derive(Debug, PartialEq)]
pub enum Json {
    Null,
    Bool(bool),
    Int(i64),
    Str(String),
    Arr(Vec<Json>),
    Obj(Vec<(String, Json)>),
}

/// The mathematical shape of a [`Json`] value: strings become sequences of
/// characters, arrays and objects become sequences.
pub enum JsonV {
    Null,
    Bool(bool),
    Int(i64),
    Str(Seq<char>),
    Arr(Seq<JsonV>),
    Obj(Seq<(Seq<char>, JsonV)>),
}

impl View for Json {
    type V = JsonV;

    open spec fn view(&self) -> JsonV
        decreases self,
    {
        match self {
            Json::Null => JsonV::Null,
            Json::Bool(b) => JsonV::Bool(*b),
            Json::Int(i) => JsonV::Int(*i),
            Json::Str(s) => JsonV::Str(s@),
            Json::Arr(items) => JsonV::Arr(items_view(items@)),
            Json::Obj(fields) => JsonV::Obj(fields_view(fields@)),
        }
    }
}

/// The elements of an executable array, as the sequence that
/// [`JsonV::Arr`] carries.
pub open spec fn items_view(items: Seq<Json>) -> Seq<JsonV>
    decreases items,
{
    Seq::new(
        items.len(),
        |i: int|
            if 0 <= i < items.len() {
                items[i]@
            } else {
                JsonV::Null
            },
    )
}

/// The members of an executable object, as the sequence of pairs that
/// [`JsonV::Obj`] carries.
pub open spec fn fields_view(fields: Seq<(String, Json)>) -> Seq<(Seq<char>, JsonV)>
    decreases fields,
{
    Seq::new(
        fields.len(),
        |i: int|
            if 0 <= i < fields.len() {
                (fields[i].0@, fields[i].1@)
            } else {
                (Seq::empty(), JsonV::Null)
            },
    )
}

pub broadcast proof fn lemma_items_view_len(items: Seq<Json>)
    ensures
        #[trigger] items_view(items).len() == items.len(),
{
}

pub broadcast proof fn lemma_items_view_index(items: Seq<Json>, i: int)
    requires
        0 <= i < items.len(),
    ensures
        #[trigger] items_view(items)[i] == items[i]@,
{
}

pub broadcast proof fn lemma_fields_view_len(fields: Seq<(String, Json)>)
    ensures
        #[trigger] fields_view(fields).len() == fields.len(),
{
}

pub broadcast proof fn lemma_fields_view_index(fields: Seq<(String, Json)>, i: int)
    requires
        0 <= i < fields.len(),
    ensures
        #[trigger] fields_view(fields)[i] == (fields[i].0@, fields[i].1@),
{
}

pub broadcast group group_json_view {
    lemma_items_view_len,
    lemma_items_view_index,
    lemma_fields_view_len,
    lemma_fields_view_index,
}

/// Rejection of a document that does not fit the schema it was read
/// against: a wrong shape, a missing required member, or a member outside
/// the closed field set.
#[derive(Debug, Clone, PartialEq, Eq)]
pub struct DecodeError;

/// The value of the first member named `name`, if the object has one.
pub open spec fn lookup(fs: Seq<(Seq<char>, JsonV)>, name: Seq<char>) -> Option<JsonV>
    decreases fs.len(),
{
    if fs.len() == 0 {
        None
    } else if fs[0].0 == name {
        Some(fs[0].1)
    } else {
        lookup(fs.drop_first(), name)
    }
}

proof fn lemma_lookup_skip(fs: Seq<(Seq<char>, JsonV)>, name: Seq<char>, i: int)
    requires
        0 <= i <= fs.len(),
        forall|j: int| 0 <= j < i ==> fs[j].0 != name,
    ensures
        lookup(fs, name) == lookup(fs.skip(i), name),
    decreases i,
{
    if i > 0 {
        lemma_lookup_skip(fs, name, i - 1);
        assert(fs.skip(i - 1)[0] == fs[i - 1]);
        assert(fs.skip(i - 1).drop_first() =~= fs.skip(i));
    } else {
        assert(fs.skip(0) =~= fs);
    }
}

/// Compares two string slices by their character content.
pub fn str_eq(a: &str, b: &str) -> (r: bool)
    ensures
        r == (a@ == b@),
{
    let owned_a = a.to_owned();
    let owned_b = b.to_owned();
    owned_a == owned_b
}

/// Finds the first member named `name` in an object's member list.
pub fn obj_get<'a>(fields: &'a Vec<(String, Json)>, name: &str) -> (r: Option<&'a Json>)
    ensures
        match r {
            Some(j) => lookup(fields_view(fields@), name@) == Some(j@),
            None => lookup(fields_view(fields@), name@) is None,
        },
{
    let ghost fv = fields_view(fields@);
    let mut i: usize = 0;
    while i < fields.len()
        invariant
            i <= fields.len(),
            fv == fields_view(fields@),
            forall|j: int| 0 <= j < i ==> fv[j].0 != name@,
        decreases fields.len() - i,
    {
        if str_eq(fields[i].0.as_str(), name) {
            proof {
                lemma_lookup_skip(fv, name@, i as int);
                assert(fv.skip(i as int)[0] == fv[i as int]);
            }
            return Some(&fields[i].1);
        }
        i += 1;
    }
    proof {
        lemma_lookup_skip(fv, name@, i as int);
    }
    None
}

/// Whether every member name of `fs` occurs in `allowed`: the schema is
/// closed, so a document with any other member is rejected.
pub open spec fn keys_within(fs: Seq<(Seq<char>, JsonV)>, allowed: Seq<Seq<char>>) -> bool {
    forall|i: int| 0 <= i < fs.len() ==> allowed.contains(#[trigger] fs[i].0)
}

/// Whether `s` occurs in `allowed`.
pub fn contains_str(allowed: &Vec<&str>, s: &str) -> (r: bool)
    ensures
        r == allowed.deep_view().contains(s@),
{
    let mut i: usize = 0;
    while i < allowed.len()
        invariant
            i <= allowed.len(),
            forall|j: int| 0 <= j < i ==> allowed.deep_view()[j] != s@,
        decreases allowed.len() - i,
    {
        if str_eq(allowed[i], s) {
            assert(allowed.deep_view()[i as int] == s@);
            return true;
        }
        i += 1;
    }
    assert(forall|j: int| 0 <= j < allowed.deep_view().len() ==> allowed.deep_view()[j] != s@);
    false
}

/// Checks the closed field set: every member of `fields` must be named by
/// one of `allowed`.
pub fn fields_closed(fields: &Vec<(String, Json)>, allowed: &Vec<&str>) -> (r: bool)
    ensures
        r == keys_within(fields_view(fields@), allowed.deep_view()),
{
    let ghost fv = fields_view(fields@);
    let mut i: usize = 0;
    while i < fields.len()
        invariant
            i <= fields.len(),
            fv == fields_view(fields@),
            forall|j: int| 0 <= j < i ==> allowed.deep_view().contains(#[trigger] fv[j].0),
        decreases fields.len() - i,
    {
        if !contains_str(allowed, fields[i].0.as_str()) {
            assert(fv[i as int].0 == fields@[i as int].0@);
            return false;
        }
        i += 1;
    }
    true
}

// --- schema readers -------------------------------------------------------
//
// Each reader takes the member list of an object and a member name; the
// `spec_` twin says exactly which documents it accepts and what it reads
// off them. A member that is absent counts as absent, not as null: the
// optional readers treat null like absence (as the serialization of an
// absent optional value), while the defaulting readers require the declared
// shape whenever the member is present at all.

pub open spec fn spec_req_str(fs: Seq<(Seq<char>, JsonV)>, name: Seq<char>) -> Result<
    Seq<char>,
    (),
> {
    match lookup(fs, name) {
        Some(JsonV::Str(s)) => Ok(s),
        _ => Err(()),
    }
}

/// Reads a required string member.
pub fn req_str(fields: &Vec<(String, Json)>, name: &str) -> (r: Result<String, DecodeError>)
    ensures
        match r {
            Ok(v) => spec_req_str(fields_view(fields@), name@) == Ok::<Seq<char>, ()>(v@),
            Err(_) => spec_req_str(fields_view(fields@), name@) is Err,
        },
{
    match obj_get(fields, name) {
        Some(Json::Str(s)) => Ok(s.clone()),
        _ => Err(DecodeError),
    }
}

pub open spec fn spec_opt_str(fs: Seq<(Seq<char>, JsonV)>, name: Seq<char>) -> Result<
    Option<Seq<char>>,
    (),
> {
    match lookup(fs, name) {
        Some(JsonV::Str(s)) => Ok(Some(s)),
        Some(JsonV::Null) => Ok(None),
        Some(_) => Err(()),
        None => Ok(None),
    }
}

/// Reads an optional string member; absence and null both read as `None`.
pub fn opt_str(fields: &Vec<(String, Json)>, name: &str) -> (r: Result<
    Option<String>,
    DecodeError,
>)
    ensures
        match r {
            Ok(v) => spec_opt_str(fields_view(fields@), name@) == Ok::<Option<Seq<char>>, ()>(
                v.deep_view(),
            ),
            Err(_) => spec_opt_str(fields_view(fields@), name@) is Err,
        },
{
    match obj_get(fields, name) {
        Some(Json::Str(s)) => Ok(Some(s.clone())),
        Some(Json::Null) => Ok(None),
        Some(_) => Err(DecodeError),
        None => Ok(None),
    }
}

pub open spec fn spec_req_bool(fs: Seq<(Seq<char>, JsonV)>, name: Seq<char>) -> Result<bool, ()> {
    match lookup(fs, name) {
        Some(JsonV::Bool(b)) => Ok(b),
        _ => Err(()),
    }
}

/// Reads a required boolean member.
pub fn req_bool(fields: &Vec<(String, Json)>, name: &str) -> (r: Result<bool, DecodeError>)
    ensures
        match r {
            Ok(v) => spec_req_bool(fields_view(fields@), name@) == Ok::<bool, ()>(v),
            Err(_) => spec_req_bool(fields_view(fields@), name@) is Err,
        },
{
    match obj_get(fields, name) {
        Some(Json::Bool(b)) => Ok(*b),
        _ => Err(DecodeError),
    }
}

pub open spec fn spec_bool_or_false(fs: Seq<(Seq<char>, JsonV)>, name: Seq<char>) -> Result<
    bool,
    (),
> {
    match lookup(fs, name) {
        Some(JsonV::Bool(b)) => Ok(b),
        Some(_) => Err(()),
        None => Ok(false),
    }
}

/// Reads a boolean member that defaults to `false` when absent.
pub fn bool_or_false(fields: &Vec<(String, Json)>, name: &str) -> (r: Result<bool, DecodeError>)
    ensures
        match r {
            Ok(v) => spec_bool_or_false(fields_view(fields@), name@) == Ok::<bool, ()>(v),
            Err(_) => spec_bool_or_false(fields_view(fields@), name@) is Err,
        },
{
    match obj_get(fields, name) {
        Some(Json::Bool(b)) => Ok(*b),
        Some(_) => Err(DecodeError),
        None => Ok(false),
    }
}

pub open spec fn spec_opt_i64(fs: Seq<(Seq<char>, JsonV)>, name: Seq<char>) -> Result<
    Option<i64>,
    (),
> {
    match lookup(fs, name) {
        Some(JsonV::Int(v)) => Ok(Some(v)),
        Some(JsonV::Null) => Ok(None),
        Some(_) => Err(()),
        None => Ok(None),
    }
}

/// Reads an optional integer member; absence and null both read as `None`.
pub fn opt_i64(fields: &Vec<(String, Json)>, name: &str) -> (r: Result<Option<i64>, DecodeError>)
    ensures
        match r {
            Ok(v) => spec_opt_i64(fields_view(fields@), name@) == Ok::<Option<i64>, ()>(v),
            Err(_) => spec_opt_i64(fields_view(fields@), name@) is Err,
        },
{
    match obj_get(fields, name) {
        Some(Json::Int(v)) => Ok(Some(*v)),
        Some(Json::Null) => Ok(None),
        Some(_) => Err(DecodeError),
        None => Ok(None),
    }
}

pub open spec fn in_i32_range(v: i64) -> bool {
    -2147483648 <= v && v <= 2147483647
}

pub open spec fn spec_opt_i32(fs: Seq<(Seq<char>, JsonV)>, name: Seq<char>) -> Result<
    Option<i32>,
    (),
> {
    match lookup(fs, name) {
        Some(JsonV::Int(v)) => if in_i32_range(v) {
            Ok(Some(v as i32))
        } else {
            Err(())
        },
        Some(JsonV::Null) => Ok(None),
        Some(_) => Err(()),
        None => Ok(None),
    }
}

/// Reads an optional 32-bit integer member; a value outside the 32-bit
/// range is rejected.
pub fn opt_i32(fields: &Vec<(String, Json)>, name: &str) -> (r: Result<Option<i32>, DecodeError>)
    ensures
        match r {
            Ok(v) => spec_opt_i32(fields_view(fields@), name@) == Ok::<Option<i32>, ()>(v),
            Err(_) => spec_opt_i32(fields_view(fields@), name@) is Err,
        },
{
    match obj_get(fields, name) {
        Some(Json::Int(v)) => {
            if -2147483648 <= *v && *v <= 2147483647 {
                Ok(Some(*v as i32))
            } else {
                Err(DecodeError)
            }
        },
        Some(Json::Null) => Ok(None),
        Some(_) => Err(DecodeError),
        None => Ok(None),
    }
}

pub open spec fn spec_i32_or(fs: Seq<(Seq<char>, JsonV)>, name: Seq<char>, dflt: i32) -> Result<
    i32,
    (),
> {
    match lookup(fs, name) {
        Some(JsonV::Int(v)) => if in_i32_range(v) {
            Ok(v as i32)
        } else {
            Err(())
        },
        Some(_) => Err(()),
        None => Ok(dflt),
    }
}

/// Reads a 32-bit integer member that takes `dflt` when absent.
pub fn i32_or(fields: &Vec<(String, Json)>, name: &str, dflt: i32) -> (r: Result<
    i32,
    DecodeError,
>)
    ensures
        match r {
            Ok(v) => spec_i32_or(fields_view(fields@), name@, dflt) == Ok::<i32, ()>(v),
            Err(_) => spec_i32_or(fields_view(fields@), name@, dflt) is Err,
        },
{
    match obj_get(fields, name) {
        Some(Json::Int(v)) => {
            if -2147483648 <= *v && *v <= 2147483647 {
                Ok(*v as i32)
            } else {
                Err(DecodeError)
            }
        },
        Some(_) => Err(DecodeError),
        None => Ok(dflt),
    }
}

/// The contents of an array all of whose elements are strings; any other
/// element rejects the array.
pub open spec fn spec_str_items(items: Seq<JsonV>) -> Result<Seq<Seq<char>>, ()>
    decreases items.len(),
{
    if items.len() == 0 {
        Ok(Seq::empty())
    } else {
        match spec_str_items(items.drop_last()) {
            Ok(rest) => match items.last() {
                JsonV::Str(s) => Ok(rest.push(s)),
                _ => Err(()),
            },
            Err(e) => Err(e),
        }
    }
}

/// Copies the elements of a string array.
pub fn str_items(items: &Vec<Json>) -> (r: Result<Vec<String>, DecodeError>)
    ensures
        match r {
            Ok(v) => spec_str_items(items_view(items@)) == Ok::<Seq<Seq<char>>, ()>(v.deep_view()),
            Err(_) => spec_str_items(items_view(items@)) is Err,
        },
{
    let ghost iv = items_view(items@);
    let mut out: Vec<String> = Vec::new();
    let mut i: usize = 0;
    proof {
        assert(iv.take(0) =~= Seq::<JsonV>::empty());
        assert(out.deep_view() =~= Seq::<Seq<char>>::empty());
    }
    while i < items.len()
        invariant
            i <= items.len(),
            iv == items_view(items@),
            spec_str_items(iv.take(i as int)) == Ok::<Seq<Seq<char>>, ()>(out.deep_view()),
        decreases items.len() - i,
    {
        match &items[i] {
            Json::Str(s) => {
                let ghost prev = out.deep_view();
                out.push(s.clone());
                proof {
                    assert(out.deep_view() =~= prev.push(s@));
                    assert(iv.take(i + 1).drop_last() =~= iv.take(i as int));
                    assert(iv.take(i + 1).last() == iv[i as int]);
                }
            },
            _ => {
                proof {
                    lemma_str_items_err(iv, i as int);
                }
                return Err(DecodeError);
            },
        }
        i += 1;
    }
    proof {
        assert(iv.take(i as int) =~= iv);
    }
    Ok(out)
}

proof fn lemma_str_items_err(items: Seq<JsonV>, i: int)
    requires
        0 <= i < items.len(),
        !(items[i] is Str),
    ensures
        spec_str_items(items) is Err,
    decreases items.len(),
{
    if i == items.len() - 1 {
    } else {
        lemma_str_items_err(items.drop_last(), i);
    }
}

pub open spec fn spec_req_str_list(fs: Seq<(Seq<char>, JsonV)>, name: Seq<char>) -> Result<
    Seq<Seq<char>>,
    (),
> {
    match lookup(fs, name) {
        Some(JsonV::Arr(items)) => spec_str_items(items),
        _ => Err(()),
    }
}

/// Reads a required array-of-strings member.
pub fn req_str_list(fields: &Vec<(String, Json)>, name: &str) -> (r: Result<
    Vec<String>,
    DecodeError,
>)
    ensures
        match r {
            Ok(v) => spec_req_str_list(fields_view(fields@), name@) == Ok::<Seq<Seq<char>>, ()>(
                v.deep_view(),
            ),
            Err(_) => spec_req_str_list(fields_view(fields@), name@) is Err,
        },
{
    match obj_get(fields, name) {
        Some(Json::Arr(items)) => {
            str_items(items)
        },
        _ => Err(DecodeError),
    }
}

pub open spec fn spec_str_list_or_empty(fs: Seq<(Seq<char>, JsonV)>, name: Seq<char>) -> Result<
    Seq<Seq<char>>,
    (),
> {
    match lookup(fs, name) {
        Some(JsonV::Arr(items)) => spec_str_items(items),
        Some(_) => Err(()),
        None => Ok(Seq::empty()),
    }
}

/// Reads an array-of-strings member that defaults to the empty list when
/// absent.
pub fn str_list_or_empty(fields: &Vec<(String, Json)>, name: &str) -> (r: Result<
    Vec<String>,
    DecodeError,
>)
    ensures
        match r {
            Ok(v) => spec_str_list_or_empty(fields_view(fields@), name@) == Ok::<
                Seq<Seq<char>>,
                (),
            >(v.deep_view()),
            Err(_) => spec_str_list_or_empty(fields_view(fields@), name@) is Err,
        },
{
    match obj_get(fields, name) {
        Some(Json::Arr(items)) => {
            str_items(items)
        },
        Some(_) => Err(DecodeError),
        None => {
            let v: Vec<String> = Vec::new();
            assert(v.deep_view() =~= Seq::<Seq<char>>::empty());
            Ok(v)
        },
    }
}

/// The pairs of an object all of whose member values are strings; any
/// other value rejects the object.
pub open spec fn spec_str_entries(fs: Seq<(Seq<char>, JsonV)>) -> Result<
    Seq<(Seq<char>, Seq<char>)>,
    (),
>
    decreases fs.len(),
{
    if fs.len() == 0 {
        Ok(Seq::empty())
    } else {
        match spec_str_entries(fs.drop_last()) {
            Ok(rest) => match fs.last().1 {
                JsonV::Str(s) => Ok(rest.push((fs.last().0, s))),
                _ => Err(()),
            },
            Err(e) => Err(e),
        }
    }
}

/// Copies the pairs of an all-string object.
pub fn str_entries(fields: &Vec<(String, Json)>) -> (r: Result<
    Vec<(String, String)>,
    DecodeError,
>)
    ensures
        match r {
            Ok(v) => spec_str_entries(fields_view(fields@)) == Ok::<
                Seq<(Seq<char>, Seq<char>)>,
                (),
            >(v.deep_view()),
            Err(_) => spec_str_entries(fields_view(fields@)) is Err,
        },
{
    let ghost fv = fields_view(fields@);
    let mut out: Vec<(String, String)> = Vec::new();
    let mut i: usize = 0;
    proof {
        assert(fv.take(0) =~= Seq::<(Seq<char>, JsonV)>::empty());
        assert(out.deep_view() =~= Seq::<(Seq<char>, Seq<char>)>::empty());
    }
    while i < fields.len()
        invariant
            i <= fields.len(),
            fv == fields_view(fields@),
            spec_str_entries(fv.take(i as int)) == Ok::<Seq<(Seq<char>, Seq<char>)>, ()>(
                out.deep_view(),
            ),
        decreases fields.len() - i,
    {
        match &fields[i].1 {
            Json::Str(s) => {
                let ghost prev = out.deep_view();
                out.push((fields[i].0.clone(), s.clone()));
                proof {
                    assert(out.deep_view() =~= prev.push((fields@[i as int].0@, s@)));
                    assert(fv.take(i + 1).drop_last() =~= fv.take(i as int));
                    assert(fv.take(i + 1).last() == fv[i as int]);
                }
            },
            _ => {
                proof {
                    lemma_str_entries_err(fv, i as int);
                }
                return Err(DecodeError);
            },
        }
        i += 1;
    }
    proof {
        assert(fv.take(i as int) =~= fv);
    }
    Ok(out)
}

proof fn lemma_str_entries_err(fs: Seq<(Seq<char>, JsonV)>, i: int)
    requires
        0 <= i < fs.len(),
        !(fs[i].1 is Str),
    ensures
        spec_str_entries(fs) is Err,
    decreases fs.len(),
{
    if i == fs.len() - 1 {
    } else {
        lemma_str_entries_err(fs.drop_last(), i);
    }
}

pub open spec fn spec_req_str_map(fs: Seq<(Seq<char>, JsonV)>, name: Seq<char>) -> Result<
    Seq<(Seq<char>, Seq<char>)>,
    (),
> {
    match lookup(fs, name) {
        Some(JsonV::Obj(entries)) => spec_str_entries(entries),
        _ => Err(()),
    }
}

/// Reads a required string-to-string object member, keeping its pairs in
/// order.
pub fn req_str_map(fields: &Vec<(String, Json)>, name: &str) -> (r: Result<
    Vec<(String, String)>,
    DecodeError,
>)
    ensures
        match r {
            Ok(v) => spec_req_str_map(fields_view(fields@), name@) == Ok::<
                Seq<(Seq<char>, Seq<char>)>,
                (),
            >(v.deep_view()),
            Err(_) => spec_req_str_map(fields_view(fields@), name@) is Err,
        },
{
    match obj_get(fields, name) {
        Some(Json::Obj(entries)) => {
            str_entries(entries)
        },
        _ => Err(DecodeError),
    }
}


// --- encoder helpers ------------------------------------------------------
//
// An encoder builds an object as a concatenation of per-member segments: a
// present member contributes a one-pair segment, an absent optional member
// contributes nothing. The broadcast lemmas below let a reader's result on
// such a concatenation be computed segment by segment.

/// A one-member segment.
pub open spec fn field(name: Seq<char>, v: JsonV) -> Seq<(Seq<char>, JsonV)> {
    seq![(name, v)]
}

/// The segment of an optional string member: present members are written,
/// absent ones are left out entirely.
pub open spec fn opt_str_field(name: Seq<char>, v: Option<Seq<char>>) -> Seq<(Seq<char>, JsonV)> {
    match v {
        Some(s) => field(name, JsonV::Str(s)),
        None => Seq::empty(),
    }
}

/// The segment of an optional integer member.
pub open spec fn opt_i64_field(name: Seq<char>, v: Option<i64>) -> Seq<(Seq<char>, JsonV)> {
    match v {
        Some(n) => field(name, JsonV::Int(n)),
        None => Seq::empty(),
    }
}

/// The segment of an optional 32-bit integer member.
pub open spec fn opt_i32_field(name: Seq<char>, v: Option<i32>) -> Seq<(Seq<char>, JsonV)> {
    match v {
        Some(n) => field(name, JsonV::Int(n as i64)),
        None => Seq::empty(),
    }
}

/// A string array, element for element.
pub open spec fn str_seq_items(items: Seq<Seq<char>>) -> Seq<JsonV> {
    Seq::new(items.len(), |i: int| JsonV::Str(items[i]))
}

/// A string-to-string object, pair for pair.
pub open spec fn str_entries_obj(entries: Seq<(Seq<char>, Seq<char>)>) -> Seq<(Seq<char>, JsonV)> {
    Seq::new(entries.len(), |i: int| (entries[i].0, JsonV::Str(entries[i].1)))
}

pub broadcast proof fn lemma_lookup_append(
    s1: Seq<(Seq<char>, JsonV)>,
    s2: Seq<(Seq<char>, JsonV)>,
    name: Seq<char>,
)
    ensures
        #[trigger] lookup(s1 + s2, name) == if lookup(s1, name) is Some {
            lookup(s1, name)
        } else {
            lookup(s2, name)
        },
    decreases s1.len(),
{
    if s1.len() == 0 {
        assert(s1 + s2 =~= s2);
    } else {
        lemma_lookup_append(s1.drop_first(), s2, name);
        assert((s1 + s2).drop_first() =~= s1.drop_first() + s2);
        assert((s1 + s2)[0] == s1[0]);
    }
}

pub broadcast proof fn lemma_lookup_field(name: Seq<char>, v: JsonV, key: Seq<char>)
    ensures
        #[trigger] lookup(field(name, v), key) == if name == key {
            Some(v)
        } else {
            None::<JsonV>
        },
{
    reveal_with_fuel(lookup, 2);
    assert(field(name, v)[0] == (name, v));
    assert(field(name, v).drop_first() =~= Seq::<(Seq<char>, JsonV)>::empty());
}

pub broadcast proof fn lemma_lookup_empty(key: Seq<char>)
    ensures
        #[trigger] lookup(Seq::empty(), key) is None,
{
}

pub broadcast proof fn lemma_keys_within_append(
    s1: Seq<(Seq<char>, JsonV)>,
    s2: Seq<(Seq<char>, JsonV)>,
    allowed: Seq<Seq<char>>,
)
    ensures
        #[trigger] keys_within(s1 + s2, allowed) == (keys_within(s1, allowed) && keys_within(
            s2,
            allowed,
        )),
{
    if keys_within(s1, allowed) && keys_within(s2, allowed) {
        assert forall|i: int| 0 <= i < (s1 + s2).len() implies allowed.contains(
            #[trigger] (s1 + s2)[i].0,
        ) by {
            if i < s1.len() {
                assert((s1 + s2)[i] == s1[i]);
            } else {
                assert((s1 + s2)[i] == s2[i - s1.len()]);
            }
        }
    }
    if keys_within(s1 + s2, allowed) {
        assert forall|i: int| 0 <= i < s1.len() implies allowed.contains(#[trigger] s1[i].0) by {
            assert((s1 + s2)[i] == s1[i]);
        }
        assert forall|i: int| 0 <= i < s2.len() implies allowed.contains(#[trigger] s2[i].0) by {
            assert((s1 + s2)[s1.len() + i] == s2[i]);
        }
    }
}

pub broadcast proof fn lemma_keys_within_field(
    name: Seq<char>,
    v: JsonV,
    allowed: Seq<Seq<char>>,
)
    ensures
        #[trigger] keys_within(field(name, v), allowed) == allowed.contains(name),
{
    if allowed.contains(name) {
        assert forall|i: int| 0 <= i < field(name, v).len() implies allowed.contains(
            #[trigger] field(name, v)[i].0,
        ) by {
            assert(field(name, v)[i] == (name, v));
        }
    }
    if keys_within(field(name, v), allowed) {
        assert(field(name, v)[0].0 == name);
    }
}

pub broadcast proof fn lemma_keys_within_empty(allowed: Seq<Seq<char>>)
    ensures
        #[trigger] keys_within(Seq::empty(), allowed),
{
}


pub broadcast proof fn lemma_lookup_opt_str_field(
    name: Seq<char>,
    v: Option<Seq<char>>,
    key: Seq<char>,
)
    ensures
        #[trigger] lookup(opt_str_field(name, v), key) == if name == key {
            match v {
                Some(s) => Some(JsonV::Str(s)),
                None => None::<JsonV>,
            }
        } else {
            None::<JsonV>
        },
{
    lemma_lookup_empty(key);
    match v {
        Some(s) => lemma_lookup_field(name, JsonV::Str(s), key),
        None => (),
    }
}

pub broadcast proof fn lemma_lookup_opt_i64_field(
    name: Seq<char>,
    v: Option<i64>,
    key: Seq<char>,
)
    ensures
        #[trigger] lookup(opt_i64_field(name, v), key) == if name == key {
            match v {
                Some(n) => Some(JsonV::Int(n)),
                None => None::<JsonV>,
            }
        } else {
            None::<JsonV>
        },
{
    lemma_lookup_empty(key);
    match v {
        Some(n) => lemma_lookup_field(name, JsonV::Int(n), key),
        None => (),
    }
}

pub broadcast proof fn lemma_lookup_opt_i32_field(
    name: Seq<char>,
    v: Option<i32>,
    key: Seq<char>,
)
    ensures
        #[trigger] lookup(opt_i32_field(name, v), key) == if name == key {
            match v {
                Some(n) => Some(JsonV::Int(n as i64)),
                None => None::<JsonV>,
            }
        } else {
            None::<JsonV>
        },
{
    lemma_lookup_empty(key);
    match v {
        Some(n) => lemma_lookup_field(name, JsonV::Int(n as i64), key),
        None => (),
    }
}

pub broadcast proof fn lemma_keys_within_opt_str_field(
    name: Seq<char>,
    v: Option<Seq<char>>,
    allowed: Seq<Seq<char>>,
)
    requires
        allowed.contains(name),
    ensures
        #[trigger] keys_within(opt_str_field(name, v), allowed),
{
    match v {
        Some(s) => lemma_keys_within_field(name, JsonV::Str(s), allowed),
        None => lemma_keys_within_empty(allowed),
    }
}

pub broadcast proof fn lemma_keys_within_opt_i64_field(
    name: Seq<char>,
    v: Option<i64>,
    allowed: Seq<Seq<char>>,
)
    requires
        allowed.contains(name),
    ensures
        #[trigger] keys_within(opt_i64_field(name, v), allowed),
{
    match v {
        Some(n) => lemma_keys_within_field(name, JsonV::Int(n), allowed),
        None => lemma_keys_within_empty(allowed),
    }
}

pub broadcast proof fn lemma_keys_within_opt_i32_field(
    name: Seq<char>,
    v: Option<i32>,
    allowed: Seq<Seq<char>>,
)
    requires
        allowed.contains(name),
    ensures
        #[trigger] keys_within(opt_i32_field(name, v), allowed),
{
    match v {
        Some(n) => lemma_keys_within_field(name, JsonV::Int(n as i64), allowed),
        None => lemma_keys_within_empty(allowed),
    }
}


/// The segment of a boolean member that is written only when set.
pub open spec fn bool_true_field(name: Seq<char>, b: bool) -> Seq<(Seq<char>, JsonV)> {
    if b {
        field(name, JsonV::Bool(true))
    } else {
        Seq::empty()
    }
}

pub broadcast proof fn lemma_lookup_bool_true_field(name: Seq<char>, b: bool, key: Seq<char>)
    ensures
        #[trigger] lookup(bool_true_field(name, b), key) == if name == key && b {
            Some(JsonV::Bool(true))
        } else {
            None::<JsonV>
        },
{
    lemma_lookup_empty(key);
    if b {
        lemma_lookup_field(name, JsonV::Bool(true), key);
    }
}

pub broadcast proof fn lemma_keys_within_bool_true_field(
    name: Seq<char>,
    b: bool,
    allowed: Seq<Seq<char>>,
)
    requires
        allowed.contains(name),
    ensures
        #[trigger] keys_within(bool_true_field(name, b), allowed),
{
    if b {
        lemma_keys_within_field(name, JsonV::Bool(true), allowed);
    } else {
        lemma_keys_within_empty(allowed);
    }
}

pub broadcast group group_json_fields {
    lemma_lookup_append,
    lemma_lookup_field,
    lemma_lookup_empty,
    lemma_lookup_opt_str_field,
    lemma_lookup_opt_i64_field,
    lemma_lookup_opt_i32_field,
    lemma_keys_within_append,
    lemma_keys_within_field,
    lemma_keys_within_empty,
    lemma_keys_within_opt_str_field,
    lemma_keys_within_opt_i64_field,
    lemma_keys_within_opt_i32_field,
    lemma_lookup_bool_true_field,
    lemma_keys_within_bool_true_field,
}

/// Reading a string array back out of its encoding yields the original
/// elements.
pub proof fn lemma_str_items_round_trip(items: Seq<Seq<char>>)
    ensures
        spec_str_items(str_seq_items(items)) == Ok::<Seq<Seq<char>>, ()>(items),
    decreases items.len(),
{
    if items.len() == 0 {
        assert(str_seq_items(items) =~= Seq::empty());
        assert(items =~= Seq::<Seq<char>>::empty());
    } else {
        lemma_str_items_round_trip(items.drop_last());
        let enc = str_seq_items(items);
        assert(enc.len() == items.len());
        assert(enc.drop_last() =~= str_seq_items(items.drop_last()));
        assert(spec_str_items(enc.drop_last()) == Ok::<Seq<Seq<char>>, ()>(items.drop_last()));
        assert(enc.last() == JsonV::Str(items.last()));
        assert(spec_str_items(enc) == Ok::<Seq<Seq<char>>, ()>(
            items.drop_last().push(items.last()),
        ));
        assert(items.drop_last().push(items.last()) =~= items);
    }
}

/// Reading a string-to-string object back out of its encoding yields the
/// original pairs.
pub proof fn lemma_str_entries_round_trip(entries: Seq<(Seq<char>, Seq<char>)>)
    ensures
        spec_str_entries(str_entries_obj(entries)) == Ok::<Seq<(Seq<char>, Seq<char>)>, ()>(
            entries,
        ),
    decreases entries.len(),
{
    if entries.len() == 0 {
        assert(str_entries_obj(entries) =~= Seq::empty());
        assert(entries =~= Seq::<(Seq<char>, Seq<char>)>::empty());
    } else {
        lemma_str_entries_round_trip(entries.drop_last());
        let enc = str_entries_obj(entries);
        assert(enc.len() == entries.len());
        assert(enc.drop_last() =~= str_entries_obj(entries.drop_last()));
        assert(spec_str_entries(enc.drop_last()) == Ok::<Seq<(Seq<char>, Seq<char>)>, ()>(
            entries.drop_last(),
        ));
        assert(enc.last() == (entries.last().0, JsonV::Str(entries.last().1)));
        assert(spec_str_entries(enc) == Ok::<Seq<(Seq<char>, Seq<char>)>, ()>(
            entries.drop_last().push((entries.last().0, entries.last().1)),
        ));
        assert(entries.drop_last().push((entries.last().0, entries.last().1)) =~= entries);
    }
}

/// Writes a list of strings as a JSON array.
pub fn strs_to_json(items: &Vec<String>) -> (r: Vec<Json>)
    ensures
        items_view(r@) == str_seq_items(items.deep_view()),
{
    let mut out: Vec<Json> = Vec::new();
    let mut i: usize = 0;
    while i < items.len()
        invariant
            i <= items.len(),
            out@.len() == i as int,
            forall|k: int| 0 <= k < i ==> (#[trigger] out@[k])@ == JsonV::Str(
                items.deep_view()[k],
            ),
        decreases items.len() - i,
    {
        out.push(Json::Str(items[i].clone()));
        i += 1;
    }
    proof {
        assert(items_view(out@) =~= str_seq_items(items.deep_view()));
    }
    out
}

/// Writes string pairs as a JSON object.
pub fn entries_to_json(entries: &Vec<(String, String)>) -> (r: Vec<(String, Json)>)
    ensures
        fields_view(r@) == str_entries_obj(entries.deep_view()),
{
    let mut out: Vec<(String, Json)> = Vec::new();
    let mut i: usize = 0;
    while i < entries.len()
        invariant
            i <= entries.len(),
            out@.len() == i as int,
            forall|k: int| 0 <= k < i ==> (#[trigger] out@[k]).0@ == entries.deep_view()[k].0
                && out@[k].1@ == JsonV::Str(entries.deep_view()[k].1),
        decreases entries.len() - i,
    {
        out.push((entries[i].0.clone(), Json::Str(entries[i].1.clone())));
        i += 1;
    }
    proof {
        assert(fields_view(out@) =~= str_entries_obj(entries.deep_view()));
    }
    out
}


} // verus!
