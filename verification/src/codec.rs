//! Mapping between the vault data model and JSON trees.
//!
//! Decoding is field-name driven: every field of the wire format is looked
//! up under its canonical lowercase name and under the capitalized alias
//! the remote service emits; unknown members are ignored; member order does
//! not matter.  Absent and `null` are both taken as "no value" for optional
//! fields.  Encoding always emits the canonical names, every field, with
//! `null` for an absent optional value.

use vstd::prelude::*;

use crate::json::{Json, JsonV, json_view, arr_views, obj_views, lemma_arr_views, lemma_obj_views,
    no_raw, lemma_no_raw_list_all, lemma_no_raw_obj_all};
use crate::model::{AuthData, AuthDataV, Profile, ProfileV, Folder, FolderV, CipherEntryFields,
    CipherEntryFieldsV, CipherEntryHistory, CipherEntryHistoryV, CipherEntryUriMatch,
    CipherEntryUriMatchV, CipherEntryData, CipherEntryDataV, CipherEntry, CipherEntryV, VaultData,
    VaultDataV, CipherString, CipherSuite};
use crate::text::{str_to_chars, chars_to_string, chars_eq_str};

verus! {

// ---------------------------------------------------------------------------
// Field access
// ---------------------------------------------------------------------------

/// The value of the first member named `name` or `alias`.
pub open spec fn lookup(o: Seq<(Seq<char>, JsonV)>, name: Seq<char>, alias: Seq<char>) -> Option<
    JsonV,
>
    decreases o.len(),
{
    if o.len() == 0 {
        None
    } else if o[0].0 == name || o[0].0 == alias {
        Some(o[0].1)
    } else {
        lookup(o.drop_first(), name, alias)
    }
}

/// A required string field.
pub open spec fn req_str(o: Seq<(Seq<char>, JsonV)>, name: Seq<char>, alias: Seq<char>) -> Option<
    Seq<char>,
> {
    match lookup(o, name, alias) {
        Some(JsonV::Str(s)) => Some(s),
        _ => None,
    }
}

/// A required unsigned number field.
pub open spec fn req_num(o: Seq<(Seq<char>, JsonV)>, name: Seq<char>, alias: Seq<char>) -> Option<
    u64,
> {
    match lookup(o, name, alias) {
        Some(JsonV::Num(n)) => Some(n),
        _ => None,
    }
}

/// A required boolean field.
pub open spec fn req_bool(o: Seq<(Seq<char>, JsonV)>, name: Seq<char>, alias: Seq<char>) -> Option<
    bool,
> {
    match lookup(o, name, alias) {
        Some(JsonV::Bool(b)) => Some(b),
        _ => None,
    }
}

/// A required array field.
pub open spec fn req_arr(o: Seq<(Seq<char>, JsonV)>, name: Seq<char>, alias: Seq<char>) -> Option<
    Seq<JsonV>,
> {
    match lookup(o, name, alias) {
        Some(JsonV::Arr(a)) => Some(a),
        _ => None,
    }
}

/// An optional string field: absent and `null` both mean "no value"; any
/// other non-string value is an error (outer `None`).
pub open spec fn opt_str(o: Seq<(Seq<char>, JsonV)>, name: Seq<char>, alias: Seq<char>) -> Option<
    Option<Seq<char>>,
> {
    match lookup(o, name, alias) {
        None => Some(None),
        Some(JsonV::Null) => Some(None),
        Some(JsonV::Str(s)) => Some(Some(s)),
        _ => None,
    }
}

/// An optional unsigned number field.
pub open spec fn opt_num(o: Seq<(Seq<char>, JsonV)>, name: Seq<char>, alias: Seq<char>) -> Option<
    Option<u64>,
> {
    match lookup(o, name, alias) {
        None => Some(None),
        Some(JsonV::Null) => Some(None),
        Some(JsonV::Num(n)) => Some(Some(n)),
        _ => None,
    }
}

/// An optional array field.
pub open spec fn opt_arr(o: Seq<(Seq<char>, JsonV)>, name: Seq<char>, alias: Seq<char>) -> Option<
    Option<Seq<JsonV>>,
> {
    match lookup(o, name, alias) {
        None => Some(None),
        Some(JsonV::Null) => Some(None),
        Some(JsonV::Arr(a)) => Some(Some(a)),
        _ => None,
    }
}

/// The first member of `o` named `name` or `alias`, if any.
pub fn obj_get<'a>(o: &'a Vec<(Vec<char>, Json)>, name: &str, alias: &str) -> (r: Option<&'a Json>)
    ensures
        match r {
            Some(j) => lookup(obj_views(o@), name@, alias@) == Some(json_view(*j)),
            None => lookup(obj_views(o@), name@, alias@) is None,
        },
{
    let n = o.len();
    let mut i: usize = 0;
    proof {
        lemma_obj_views(o@);
        assert(obj_views(o@).skip(0) =~= obj_views(o@));
    }
    while i < n
        invariant
            0 <= i <= n,
            n == o@.len(),
            obj_views(o@).len() == n,
            forall|m: int|
                0 <= m < n ==> obj_views(o@)[m] == (o@[m].0@, json_view(o@[m].1)),
            lookup(obj_views(o@), name@, alias@) == lookup(
                obj_views(o@).skip(i as int),
                name@,
                alias@,
            ),
        decreases n - i,
    {
        if chars_eq_str(&o[i].0, name) || chars_eq_str(&o[i].0, alias) {
            proof {
                assert(obj_views(o@).skip(i as int)[0] == obj_views(o@)[i as int]);
            }
            return Some(&o[i].1);
        }
        proof {
            assert(obj_views(o@).skip(i as int)[0] == obj_views(o@)[i as int]);
            assert(obj_views(o@).skip(i as int).drop_first() =~= obj_views(o@).skip(i as int + 1));
        }
        i = i + 1;
    }
    proof {
        assert(obj_views(o@).skip(i as int).len() == 0);
    }
    None
}

/// A required string field, as `req_str` says.
pub fn get_req_str(o: &Vec<(Vec<char>, Json)>, name: &str, alias: &str) -> (r: Option<String>)
    ensures
        (r is Some <==> req_str(obj_views(o@), name@, alias@) is Some),
        r matches Some(s) ==> req_str(obj_views(o@), name@, alias@) == Some(s@),
{
    match obj_get(o, name, alias) {
        Some(Json::Str(cs)) => Some(chars_to_string(cs)),
        _ => None,
    }
}

/// A required number field, as `req_num` says.
pub fn get_req_num(o: &Vec<(Vec<char>, Json)>, name: &str, alias: &str) -> (r: Option<u64>)
    ensures
        r == req_num(obj_views(o@), name@, alias@),
{
    match obj_get(o, name, alias) {
        Some(Json::Num(n)) => Some(*n),
        _ => None,
    }
}

/// A required boolean field, as `req_bool` says.
pub fn get_req_bool(o: &Vec<(Vec<char>, Json)>, name: &str, alias: &str) -> (r: Option<bool>)
    ensures
        r == req_bool(obj_views(o@), name@, alias@),
{
    match obj_get(o, name, alias) {
        Some(Json::Bool(b)) => Some(*b),
        _ => None,
    }
}

/// A required array field, as `req_arr` says.
pub fn get_req_arr<'a>(o: &'a Vec<(Vec<char>, Json)>, name: &str, alias: &str) -> (r: Option<
    &'a Vec<Json>,
>)
    ensures
        (r is Some <==> req_arr(obj_views(o@), name@, alias@) is Some),
        r matches Some(a) ==> req_arr(obj_views(o@), name@, alias@) == Some(arr_views(a@)),
{
    match obj_get(o, name, alias) {
        Some(Json::Arr(a)) => Some(a),
        _ => None,
    }
}

/// An optional string field, as `opt_str` says.
pub fn get_opt_str(o: &Vec<(Vec<char>, Json)>, name: &str, alias: &str) -> (r: Option<
    Option<String>,
>)
    ensures
        (r is Some <==> opt_str(obj_views(o@), name@, alias@) is Some),
        r matches Some(s) ==> opt_str(obj_views(o@), name@, alias@) == Some(
            match s {
                Some(t) => Some(t@),
                None => None,
            },
        ),
{
    match obj_get(o, name, alias) {
        None => Some(None),
        Some(Json::Null) => Some(None),
        Some(Json::Str(cs)) => Some(Some(chars_to_string(cs))),
        _ => None,
    }
}

/// An optional number field, as `opt_num` says.
pub fn get_opt_num(o: &Vec<(Vec<char>, Json)>, name: &str, alias: &str) -> (r: Option<Option<u64>>)
    ensures
        r == opt_num(obj_views(o@), name@, alias@),
{
    match obj_get(o, name, alias) {
        None => Some(None),
        Some(Json::Null) => Some(None),
        Some(Json::Num(n)) => Some(Some(*n)),
        _ => None,
    }
}

/// An optional array field, as `opt_arr` says.
pub fn get_opt_arr<'a>(o: &'a Vec<(Vec<char>, Json)>, name: &str, alias: &str) -> (r: Option<
    Option<&'a Vec<Json>>,
>)
    ensures
        (r is Some <==> opt_arr(obj_views(o@), name@, alias@) is Some),
        r matches Some(a) ==> opt_arr(obj_views(o@), name@, alias@) == Some(
            match a {
                Some(v) => Some(arr_views(v@)),
                None => None,
            },
        ),
{
    match obj_get(o, name, alias) {
        None => Some(None),
        Some(Json::Null) => Some(None),
        Some(Json::Arr(a)) => Some(Some(a)),
        _ => None,
    }
}

// ---------------------------------------------------------------------------
// Optional values as JSON
// ---------------------------------------------------------------------------

/// An optional string value: `null` when absent.
pub open spec fn j_opt_str(s: Option<Seq<char>>) -> JsonV {
    match s {
        Some(t) => JsonV::Str(t),
        None => JsonV::Null,
    }
}

/// An optional number value: `null` when absent.
pub open spec fn j_opt_num(n: Option<u64>) -> JsonV {
    match n {
        Some(x) => JsonV::Num(x),
        None => JsonV::Null,
    }
}

/// An optional string value, built in place.
pub fn exec_j_opt_str(s: &Option<String>) -> (r: Json)
    ensures
        json_view(r) == j_opt_str(
            match s {
                Some(t) => Some(t@),
                None => None,
            },
        ),
{
    match s {
        Some(t) => Json::Str(str_to_chars(t.as_str())),
        None => Json::Null,
    }
}

/// An optional number value, built in place.
pub fn exec_j_opt_num(n: &Option<u64>) -> (r: Json)
    ensures
        json_view(r) == j_opt_num(*n),
{
    match n {
        Some(x) => Json::Num(*x),
        None => Json::Null,
    }
}


// ---------------------------------------------------------------------------
// Generic list views
// ---------------------------------------------------------------------------

/// Appending an element appends its view.
pub proof fn lemma_arr_views_push(a: Seq<Json>, j: Json)
    ensures
        arr_views(a.push(j)) == arr_views(a).push(json_view(j)),
    decreases a.len(),
{
    if a.len() == 0 {
        assert(a.push(j)[0] == j);
        assert(a.push(j).drop_first() =~= Seq::<Json>::empty());
        assert(arr_views(a.push(j).drop_first()) == Seq::<JsonV>::empty());
        assert(arr_views(a.push(j)) =~= arr_views(a).push(json_view(j)));
    } else {
        lemma_arr_views_push(a.drop_first(), j);
        assert(a.push(j).drop_first() =~= a.drop_first().push(j));
        assert(a.push(j)[0] == a[0]);
        assert(arr_views(a.push(j)) == seq![json_view(a[0])] + (arr_views(a.drop_first()).push(
            json_view(j),
        )));
        assert(arr_views(a.push(j)) =~= arr_views(a).push(json_view(j)));
    }
}

/// The views of a vector of strings.
pub open spec fn str_views(ss: Seq<String>) -> Seq<Seq<char>> {
    Seq::new(ss.len(), |i: int| ss[i]@)
}

/// A list of strings as JSON values.
pub open spec fn enc_str_list(ss: Seq<Seq<char>>) -> Seq<JsonV> {
    Seq::new(ss.len(), |i: int| JsonV::Str(ss[i]))
}

/// A list of JSON values as strings; `None` if any is not a string.
pub open spec fn dec_str_list(items: Seq<JsonV>) -> Option<Seq<Seq<char>>> {
    if forall|i: int| 0 <= i < items.len() ==> (#[trigger] items[i]) is Str {
        Some(Seq::new(items.len(), |i: int| items[i]->Str_0))
    } else {
        None
    }
}

/// Encodes a vector of strings, as `enc_str_list` says.
pub fn encode_str_vec(ss: &Vec<String>) -> (r: Vec<Json>)
    ensures
        arr_views(r@) == enc_str_list(str_views(ss@)),
{
    let mut out: Vec<Json> = Vec::new();
    proof {
        assert(arr_views(out@) =~= enc_str_list(str_views(ss@).take(0)));
    }
    let n = ss.len();
    let mut i: usize = 0;
    while i < n
        invariant
            0 <= i <= n,
            n == ss@.len(),
            arr_views(out@) == enc_str_list(str_views(ss@).take(i as int)),
        decreases n - i,
    {
        let j = Json::Str(str_to_chars(ss[i].as_str()));
        proof {
            lemma_arr_views_push(out@, j);
            assert(enc_str_list(str_views(ss@).take(i as int)).push(json_view(j))
                =~= enc_str_list(str_views(ss@).take(i as int + 1)));
        }
        out.push(j);
        i = i + 1;
    }
    proof {
        assert(str_views(ss@).take(n as int) =~= str_views(ss@));
    }
    out
}

/// Decodes a vector of JSON values as strings, as `dec_str_list` says.
pub fn decode_str_vec(items: &Vec<Json>) -> (r: Option<Vec<String>>)
    ensures
        (r is Some <==> dec_str_list(arr_views(items@)) is Some),
        r matches Some(ss) ==> dec_str_list(arr_views(items@)) == Some(str_views(ss@)),
{
    proof {
        lemma_arr_views(items@);
    }
    let ghost views = arr_views(items@);
    let n = items.len();
    let mut out: Vec<String> = Vec::new();
    let mut i: usize = 0;
    while i < n
        invariant
            0 <= i <= n,
            n == items@.len(),
            views == arr_views(items@),
            views.len() == n,
            forall|m: int| 0 <= m < n ==> views[m] == json_view(items@[m]),
            out@.len() == i,
            forall|m: int| 0 <= m < i ==> (#[trigger] views[m]) is Str,
            forall|m: int| 0 <= m < i ==> out@[m]@ == views[m]->Str_0,
        decreases n - i,
    {
        match &items[i] {
            Json::Str(cs) => {
                out.push(chars_to_string(cs));
            },
            _ => {
                proof {
                    assert(!(views[i as int] is Str));
                }
                return None;
            },
        }
        i = i + 1;
    }
    proof {
        assert(str_views(out@) =~= Seq::new(views.len(), |m: int| views[m]->Str_0));
    }
    Some(out)
}

// ---------------------------------------------------------------------------
// Folder
// ---------------------------------------------------------------------------

/// The key a member is written under: canonical or capitalized alias.
pub open spec fn key(caps: bool, low: Seq<char>, cap: Seq<char>) -> Seq<char> {
    if caps {
        cap
    } else {
        low
    }
}

pub open spec fn enc_folder(f: FolderV, caps: bool) -> JsonV {
    JsonV::Obj(
        seq![
            (key(caps, "object"@, "Object"@), JsonV::Str(f.object)),
            (key(caps, "uuid"@, "Id"@), JsonV::Str(f.uuid)),
            (key(caps, "name"@, "Name"@), JsonV::Str(f.name)),
            (key(caps, "last_changed"@, "RevisionDate"@), JsonV::Str(f.last_changed)),
        ],
    )
}

pub open spec fn dec_folder(v: JsonV) -> Option<FolderV> {
    match v {
        JsonV::Obj(o) => {
            let object = req_str(o, "object"@, "Object"@);
            let uuid = req_str(o, "uuid"@, "Id"@);
            let name = req_str(o, "name"@, "Name"@);
            let last_changed = req_str(o, "last_changed"@, "RevisionDate"@);
            if object is Some && uuid is Some && name is Some && last_changed is Some {
                Some(
                    FolderV {
                        object: object.unwrap(),
                        uuid: uuid.unwrap(),
                        name: name.unwrap(),
                        last_changed: last_changed.unwrap(),
                    },
                )
            } else {
                None
            }
        },
        _ => None,
    }
}

/// Encodes a folder under canonical member names, as `enc_folder` says.
pub fn encode_folder(f: &Folder) -> (r: Json)
    ensures
        json_view(r) == enc_folder(f@, false),
{
    let mut o: Vec<(Vec<char>, Json)> = Vec::new();
    o.push((str_to_chars("object"), Json::Str(str_to_chars(f.object.as_str()))));
    o.push((str_to_chars("uuid"), Json::Str(str_to_chars(f.uuid.as_str()))));
    o.push((str_to_chars("name"), Json::Str(str_to_chars(f.name.text.as_str()))));
    o.push((str_to_chars("last_changed"), Json::Str(str_to_chars(f.last_changed.as_str()))));
    proof {
        lemma_obj_views(o@);
        assert(obj_views(o@) =~= enc_folder(f@, false)->Obj_0);
    }
    Json::Obj(o)
}

/// Decodes a folder, as `dec_folder` says.
pub fn decode_folder(j: &Json) -> (r: Option<Folder>)
    ensures
        (r is Some <==> dec_folder(json_view(*j)) is Some),
        r matches Some(f) ==> dec_folder(json_view(*j)) == Some(f@),
{
    match j {
        Json::Obj(o) => {
            let object = get_req_str(o, "object", "Object");
            let uuid = get_req_str(o, "uuid", "Id");
            let name = get_req_str(o, "name", "Name");
            let last_changed = get_req_str(o, "last_changed", "RevisionDate");
            match (object, uuid, name, last_changed) {
                (Some(object), Some(uuid), Some(name), Some(last_changed)) => Some(
                    Folder { object, uuid, name: CipherString { text: name }, last_changed },
                ),
                _ => None,
            }
        },
        _ => None,
    }
}

pub open spec fn enc_fields(x: CipherEntryFieldsV, caps: bool) -> JsonV {
    JsonV::Obj(
        seq![
            (key(caps, "type_"@, "Type"@), JsonV::Num(x.type_)),
            (key(caps, "name"@, "Name"@), JsonV::Str(x.name)),
            (key(caps, "value"@, "Value"@), JsonV::Str(x.value)),
        ],
    )
}

pub open spec fn dec_fields(v: JsonV) -> Option<CipherEntryFieldsV> {
    match v {
        JsonV::Obj(o) => {
            let type_ = req_num(o, "type_"@, "Type"@);
            let name = req_str(o, "name"@, "Name"@);
            let value = req_str(o, "value"@, "Value"@);
            if type_ is Some && name is Some && value is Some {
                Some(
                    CipherEntryFieldsV {
                        type_: type_.unwrap(),
                        name: name.unwrap(),
                        value: value.unwrap(),
                    },
                )
            } else {
                None
            }
        },
        _ => None,
    }
}

/// Encodes under canonical member names, as `enc_fields` says.
pub fn encode_fields(x: &CipherEntryFields) -> (r: Json)
    ensures
        json_view(r) == enc_fields(x@, false),
{
    let mut o: Vec<(Vec<char>, Json)> = Vec::new();
    let v_type_ = Json::Num(x.type_);
    o.push((str_to_chars("type_"), v_type_));
    let v_name = Json::Str(str_to_chars(x.name.text.as_str()));
    o.push((str_to_chars("name"), v_name));
    let v_value = Json::Str(str_to_chars(x.value.text.as_str()));
    o.push((str_to_chars("value"), v_value));
    proof {
        lemma_obj_views(o@);
        assert(obj_views(o@) =~= enc_fields(x@, false)->Obj_0);
    }
    Json::Obj(o)
}

/// Decodes, as `dec_fields` says.
pub fn decode_fields(j: &Json) -> (r: Option<CipherEntryFields>)
    ensures
        (r is Some <==> dec_fields(json_view(*j)) is Some),
        r matches Some(x) ==> dec_fields(json_view(*j)) == Some(x@),
{
    match j {
        Json::Obj(o) => {
            let type_ = match get_req_num(o, "type_", "Type") {
                Some(v) => v,
                None => {
                    return None;
                },
            };
            let name = match get_req_str(o, "name", "Name") {
                Some(v) => CipherString { text: v },
                None => {
                    return None;
                },
            };
            let value = match get_req_str(o, "value", "Value") {
                Some(v) => CipherString { text: v },
                None => {
                    return None;
                },
            };
            Some(CipherEntryFields {
                type_,
                name,
                value,
            })
        },
        _ => None,
    }
}

pub open spec fn fields_views(xs: Seq<CipherEntryFields>) -> Seq<CipherEntryFieldsV> {
    Seq::new(xs.len(), |i: int| xs[i]@)
}

pub open spec fn enc_fields_list(xs: Seq<CipherEntryFieldsV>, caps: bool) -> Seq<JsonV> {
    Seq::new(xs.len(), |i: int| enc_fields(xs[i], caps))
}

pub open spec fn dec_fields_list(items: Seq<JsonV>) -> Option<Seq<CipherEntryFieldsV>> {
    if forall|i: int| 0 <= i < items.len() ==> dec_fields(#[trigger] items[i]) is Some {
        Some(Seq::new(items.len(), |i: int| dec_fields(items[i]).unwrap()))
    } else {
        None
    }
}

/// Encodes each element, as `enc_fields_list` says.
pub fn encode_fields_vec(xs: &Vec<CipherEntryFields>) -> (r: Vec<Json>)
    ensures
        arr_views(r@) == enc_fields_list(fields_views(xs@), false),
{
    let mut r: Vec<Json> = Vec::new();
    proof {
        assert(arr_views(r@) =~= enc_fields_list(fields_views(xs@).take(0), false));
    }
    let n = xs.len();
    let mut i: usize = 0;
    while i < n
        invariant
            0 <= i <= n,
            n == xs@.len(),
            arr_views(r@) == enc_fields_list(fields_views(xs@).take(i as int), false),
        decreases n - i,
    {
        let j = encode_fields(&xs[i]);
        proof {
            lemma_arr_views_push(r@, j);
            assert(enc_fields_list(fields_views(xs@).take(i as int), false).push(json_view(j))
                =~= enc_fields_list(fields_views(xs@).take(i as int + 1), false));
        }
        r.push(j);
        i = i + 1;
    }
    proof {
        assert(fields_views(xs@).take(n as int) =~= fields_views(xs@));
    }
    r
}

/// Decodes each element, as `dec_fields_list` says.
pub fn decode_fields_vec(items: &Vec<Json>) -> (r: Option<Vec<CipherEntryFields>>)
    ensures
        (r is Some <==> dec_fields_list(arr_views(items@)) is Some),
        r matches Some(xs) ==> dec_fields_list(arr_views(items@)) == Some(fields_views(xs@)),
{
    proof {
        lemma_arr_views(items@);
    }
    let ghost views = arr_views(items@);
    let n = items.len();
    let mut out: Vec<CipherEntryFields> = Vec::new();
    let mut i: usize = 0;
    while i < n
        invariant
            0 <= i <= n,
            n == items@.len(),
            views == arr_views(items@),
            views.len() == n,
            forall|m: int| 0 <= m < n ==> views[m] == json_view(items@[m]),
            out@.len() == i,
            forall|m: int| 0 <= m < i ==> dec_fields(#[trigger] views[m]) is Some,
            forall|m: int| 0 <= m < i ==> out@[m]@ == dec_fields(#[trigger] views[m]).unwrap(),
        decreases n - i,
    {
        match decode_fields(&items[i]) {
            Some(x) => {
                out.push(x);
            },
            None => {
                proof {
                    assert(dec_fields(views[i as int]) is None);
                }
                return None;
            },
        }
        i = i + 1;
    }
    proof {
        assert(fields_views(out@) =~= Seq::new(views.len(), |m: int| dec_fields(views[m]).unwrap()));
    }
    Some(out)
}

pub open spec fn enc_history(x: CipherEntryHistoryV, caps: bool) -> JsonV {
    JsonV::Obj(
        seq![
            (key(caps, "password"@, "Password"@), JsonV::Str(x.password)),
            (key(caps, "last_used_date"@, "LastUsedDate"@), JsonV::Str(x.last_used_date)),
        ],
    )
}

pub open spec fn dec_history(v: JsonV) -> Option<CipherEntryHistoryV> {
    match v {
        JsonV::Obj(o) => {
            let password = req_str(o, "password"@, "Password"@);
            let last_used_date = req_str(o, "last_used_date"@, "LastUsedDate"@);
            if password is Some && last_used_date is Some {
                Some(
                    CipherEntryHistoryV {
                        password: password.unwrap(),
                        last_used_date: last_used_date.unwrap(),
                    },
                )
            } else {
                None
            }
        },
        _ => None,
    }
}

/// Encodes under canonical member names, as `enc_history` says.
pub fn encode_history(x: &CipherEntryHistory) -> (r: Json)
    ensures
        json_view(r) == enc_history(x@, false),
{
    let mut o: Vec<(Vec<char>, Json)> = Vec::new();
    let v_password = Json::Str(str_to_chars(x.password.as_str()));
    o.push((str_to_chars("password"), v_password));
    let v_last_used_date = Json::Str(str_to_chars(x.last_used_date.as_str()));
    o.push((str_to_chars("last_used_date"), v_last_used_date));
    proof {
        lemma_obj_views(o@);
        assert(obj_views(o@) =~= enc_history(x@, false)->Obj_0);
    }
    Json::Obj(o)
}

/// Decodes, as `dec_history` says.
pub fn decode_history(j: &Json) -> (r: Option<CipherEntryHistory>)
    ensures
        (r is Some <==> dec_history(json_view(*j)) is Some),
        r matches Some(x) ==> dec_history(json_view(*j)) == Some(x@),
{
    match j {
        Json::Obj(o) => {
            let password = match get_req_str(o, "password", "Password") {
                Some(v) => v,
                None => {
                    return None;
                },
            };
            let last_used_date = match get_req_str(o, "last_used_date", "LastUsedDate") {
                Some(v) => v,
                None => {
                    return None;
                },
            };
            Some(CipherEntryHistory {
                password,
                last_used_date,
            })
        },
        _ => None,
    }
}

pub open spec fn history_views(xs: Seq<CipherEntryHistory>) -> Seq<CipherEntryHistoryV> {
    Seq::new(xs.len(), |i: int| xs[i]@)
}

pub open spec fn enc_history_list(xs: Seq<CipherEntryHistoryV>, caps: bool) -> Seq<JsonV> {
    Seq::new(xs.len(), |i: int| enc_history(xs[i], caps))
}

pub open spec fn dec_history_list(items: Seq<JsonV>) -> Option<Seq<CipherEntryHistoryV>> {
    if forall|i: int| 0 <= i < items.len() ==> dec_history(#[trigger] items[i]) is Some {
        Some(Seq::new(items.len(), |i: int| dec_history(items[i]).unwrap()))
    } else {
        None
    }
}

/// Encodes each element, as `enc_history_list` says.
pub fn encode_history_vec(xs: &Vec<CipherEntryHistory>) -> (r: Vec<Json>)
    ensures
        arr_views(r@) == enc_history_list(history_views(xs@), false),
{
    let mut r: Vec<Json> = Vec::new();
    proof {
        assert(arr_views(r@) =~= enc_history_list(history_views(xs@).take(0), false));
    }
    let n = xs.len();
    let mut i: usize = 0;
    while i < n
        invariant
            0 <= i <= n,
            n == xs@.len(),
            arr_views(r@) == enc_history_list(history_views(xs@).take(i as int), false),
        decreases n - i,
    {
        let j = encode_history(&xs[i]);
        proof {
            lemma_arr_views_push(r@, j);
            assert(enc_history_list(history_views(xs@).take(i as int), false).push(json_view(j))
                =~= enc_history_list(history_views(xs@).take(i as int + 1), false));
        }
        r.push(j);
        i = i + 1;
    }
    proof {
        assert(history_views(xs@).take(n as int) =~= history_views(xs@));
    }
    r
}

/// Decodes each element, as `dec_history_list` says.
pub fn decode_history_vec(items: &Vec<Json>) -> (r: Option<Vec<CipherEntryHistory>>)
    ensures
        (r is Some <==> dec_history_list(arr_views(items@)) is Some),
        r matches Some(xs) ==> dec_history_list(arr_views(items@)) == Some(history_views(xs@)),
{
    proof {
        lemma_arr_views(items@);
    }
    let ghost views = arr_views(items@);
    let n = items.len();
    let mut out: Vec<CipherEntryHistory> = Vec::new();
    let mut i: usize = 0;
    while i < n
        invariant
            0 <= i <= n,
            n == items@.len(),
            views == arr_views(items@),
            views.len() == n,
            forall|m: int| 0 <= m < n ==> views[m] == json_view(items@[m]),
            out@.len() == i,
            forall|m: int| 0 <= m < i ==> dec_history(#[trigger] views[m]) is Some,
            forall|m: int| 0 <= m < i ==> out@[m]@ == dec_history(#[trigger] views[m]).unwrap(),
        decreases n - i,
    {
        match decode_history(&items[i]) {
            Some(x) => {
                out.push(x);
            },
            None => {
                proof {
                    assert(dec_history(views[i as int]) is None);
                }
                return None;
            },
        }
        i = i + 1;
    }
    proof {
        assert(history_views(out@) =~= Seq::new(views.len(), |m: int| dec_history(views[m]).unwrap()));
    }
    Some(out)
}

pub open spec fn enc_uri(x: CipherEntryUriMatchV, caps: bool) -> JsonV {
    JsonV::Obj(
        seq![
            (key(caps, "uri"@, "Uri"@), JsonV::Str(x.uri)),
            (key(caps, "match_"@, "Match"@), j_opt_num(x.match_)),
        ],
    )
}

pub open spec fn dec_uri(v: JsonV) -> Option<CipherEntryUriMatchV> {
    match v {
        JsonV::Obj(o) => {
            let uri = req_str(o, "uri"@, "Uri"@);
            let match_ = opt_num(o, "match_"@, "Match"@);
            if uri is Some && match_ is Some {
                Some(
                    CipherEntryUriMatchV {
                        uri: uri.unwrap(),
                        match_: match_.unwrap(),
                    },
                )
            } else {
                None
            }
        },
        _ => None,
    }
}

/// Encodes under canonical member names, as `enc_uri` says.
pub fn encode_uri(x: &CipherEntryUriMatch) -> (r: Json)
    ensures
        json_view(r) == enc_uri(x@, false),
{
    let mut o: Vec<(Vec<char>, Json)> = Vec::new();
    let v_uri = Json::Str(str_to_chars(x.uri.text.as_str()));
    o.push((str_to_chars("uri"), v_uri));
    let v_match_ = exec_j_opt_num(&x.match_);
    o.push((str_to_chars("match_"), v_match_));
    proof {
        lemma_obj_views(o@);
        assert(obj_views(o@) =~= enc_uri(x@, false)->Obj_0);
    }
    Json::Obj(o)
}

/// Decodes, as `dec_uri` says.
pub fn decode_uri(j: &Json) -> (r: Option<CipherEntryUriMatch>)
    ensures
        (r is Some <==> dec_uri(json_view(*j)) is Some),
        r matches Some(x) ==> dec_uri(json_view(*j)) == Some(x@),
{
    match j {
        Json::Obj(o) => {
            let uri = match get_req_str(o, "uri", "Uri") {
                Some(v) => CipherString { text: v },
                None => {
                    return None;
                },
            };
            let match_ = match get_opt_num(o, "match_", "Match") {
                Some(v) => v,
                None => {
                    return None;
                },
            };
            Some(CipherEntryUriMatch {
                uri,
                match_,
            })
        },
        _ => None,
    }
}

pub open spec fn uri_views(xs: Seq<CipherEntryUriMatch>) -> Seq<CipherEntryUriMatchV> {
    Seq::new(xs.len(), |i: int| xs[i]@)
}

pub open spec fn enc_uri_list(xs: Seq<CipherEntryUriMatchV>, caps: bool) -> Seq<JsonV> {
    Seq::new(xs.len(), |i: int| enc_uri(xs[i], caps))
}

pub open spec fn dec_uri_list(items: Seq<JsonV>) -> Option<Seq<CipherEntryUriMatchV>> {
    if forall|i: int| 0 <= i < items.len() ==> dec_uri(#[trigger] items[i]) is Some {
        Some(Seq::new(items.len(), |i: int| dec_uri(items[i]).unwrap()))
    } else {
        None
    }
}

/// Encodes each element, as `enc_uri_list` says.
pub fn encode_uri_vec(xs: &Vec<CipherEntryUriMatch>) -> (r: Vec<Json>)
    ensures
        arr_views(r@) == enc_uri_list(uri_views(xs@), false),
{
    let mut r: Vec<Json> = Vec::new();
    proof {
        assert(arr_views(r@) =~= enc_uri_list(uri_views(xs@).take(0), false));
    }
    let n = xs.len();
    let mut i: usize = 0;
    while i < n
        invariant
            0 <= i <= n,
            n == xs@.len(),
            arr_views(r@) == enc_uri_list(uri_views(xs@).take(i as int), false),
        decreases n - i,
    {
        let j = encode_uri(&xs[i]);
        proof {
            lemma_arr_views_push(r@, j);
            assert(enc_uri_list(uri_views(xs@).take(i as int), false).push(json_view(j))
                =~= enc_uri_list(uri_views(xs@).take(i as int + 1), false));
        }
        r.push(j);
        i = i + 1;
    }
    proof {
        assert(uri_views(xs@).take(n as int) =~= uri_views(xs@));
    }
    r
}

/// Decodes each element, as `dec_uri_list` says.
pub fn decode_uri_vec(items: &Vec<Json>) -> (r: Option<Vec<CipherEntryUriMatch>>)
    ensures
        (r is Some <==> dec_uri_list(arr_views(items@)) is Some),
        r matches Some(xs) ==> dec_uri_list(arr_views(items@)) == Some(uri_views(xs@)),
{
    proof {
        lemma_arr_views(items@);
    }
    let ghost views = arr_views(items@);
    let n = items.len();
    let mut out: Vec<CipherEntryUriMatch> = Vec::new();
    let mut i: usize = 0;
    while i < n
        invariant
            0 <= i <= n,
            n == items@.len(),
            views == arr_views(items@),
            views.len() == n,
            forall|m: int| 0 <= m < n ==> views[m] == json_view(items@[m]),
            out@.len() == i,
            forall|m: int| 0 <= m < i ==> dec_uri(#[trigger] views[m]) is Some,
            forall|m: int| 0 <= m < i ==> out@[m]@ == dec_uri(#[trigger] views[m]).unwrap(),
        decreases n - i,
    {
        match decode_uri(&items[i]) {
            Some(x) => {
                out.push(x);
            },
            None => {
                proof {
                    assert(dec_uri(views[i as int]) is None);
                }
                return None;
            },
        }
        i = i + 1;
    }
    proof {
        assert(uri_views(out@) =~= Seq::new(views.len(), |m: int| dec_uri(views[m]).unwrap()));
    }
    Some(out)
}

pub open spec fn enc_profile(x: ProfileV, caps: bool) -> JsonV {
    JsonV::Obj(
        seq![
            (key(caps, "object"@, "Object"@), JsonV::Str(x.object)),
            (key(caps, "uuid"@, "Id"@), JsonV::Str(x.uuid)),
            (key(caps, "name"@, "Name"@), JsonV::Str(x.name)),
            (key(caps, "email"@, "Email"@), JsonV::Str(x.email)),
            (key(caps, "email_verified"@, "EmailVerified"@), JsonV::Bool(x.email_verified)),
            (key(caps, "premium"@, "Premium"@), JsonV::Bool(x.premium)),
            (key(caps, "master_password_hint"@, "MasterPasswordHint"@), j_opt_str(x.master_password_hint)),
            (key(caps, "language"@, "Culture"@), JsonV::Str(x.language)),
            (key(caps, "tfa_enabled"@, "TwoFactorEnabled"@), JsonV::Bool(x.tfa_enabled)),
            (key(caps, "key"@, "Key"@), JsonV::Str(x.key)),
            (key(caps, "private_key"@, "PrivateKey"@), JsonV::Str(x.private_key)),
            (key(caps, "security_stamp"@, "SecurityStamp"@), JsonV::Str(x.security_stamp)),
            (key(caps, "organizations"@, "Organizations"@), JsonV::Arr(enc_str_list(x.organizations))),
        ],
    )
}

pub open spec fn dec_profile(v: JsonV) -> Option<ProfileV> {
    match v {
        JsonV::Obj(o) => {
            let object = req_str(o, "object"@, "Object"@);
            let uuid = req_str(o, "uuid"@, "Id"@);
            let name = req_str(o, "name"@, "Name"@);
            let email = req_str(o, "email"@, "Email"@);
            let email_verified = req_bool(o, "email_verified"@, "EmailVerified"@);
            let premium = req_bool(o, "premium"@, "Premium"@);
            let master_password_hint = opt_str(o, "master_password_hint"@, "MasterPasswordHint"@);
            let language = req_str(o, "language"@, "Culture"@);
            let tfa_enabled = req_bool(o, "tfa_enabled"@, "TwoFactorEnabled"@);
            let key = req_str(o, "key"@, "Key"@);
            let private_key = req_str(o, "private_key"@, "PrivateKey"@);
            let security_stamp = req_str(o, "security_stamp"@, "SecurityStamp"@);
            let organizations = match req_arr(o, "organizations"@, "Organizations"@) {
                Some(items) => dec_str_list(items),
                None => None,
            };
            if object is Some && uuid is Some && name is Some && email is Some && email_verified is Some && premium is Some && master_password_hint is Some && language is Some && tfa_enabled is Some && key is Some && private_key is Some && security_stamp is Some && organizations is Some {
                Some(
                    ProfileV {
                        object: object.unwrap(),
                        uuid: uuid.unwrap(),
                        name: name.unwrap(),
                        email: email.unwrap(),
                        email_verified: email_verified.unwrap(),
                        premium: premium.unwrap(),
                        master_password_hint: master_password_hint.unwrap(),
                        language: language.unwrap(),
                        tfa_enabled: tfa_enabled.unwrap(),
                        key: key.unwrap(),
                        private_key: private_key.unwrap(),
                        security_stamp: security_stamp.unwrap(),
                        organizations: organizations.unwrap(),
                    },
                )
            } else {
                None
            }
        },
        _ => None,
    }
}

/// Encodes under canonical member names, as `enc_profile` says.
pub fn encode_profile(x: &Profile) -> (r: Json)
    ensures
        json_view(r) == enc_profile(x@, false),
{
    let mut o: Vec<(Vec<char>, Json)> = Vec::new();
    let v_object = Json::Str(str_to_chars(x.object.as_str()));
    o.push((str_to_chars("object"), v_object));
    let v_uuid = Json::Str(str_to_chars(x.uuid.as_str()));
    o.push((str_to_chars("uuid"), v_uuid));
    let v_name = Json::Str(str_to_chars(x.name.as_str()));
    o.push((str_to_chars("name"), v_name));
    let v_email = Json::Str(str_to_chars(x.email.as_str()));
    o.push((str_to_chars("email"), v_email));
    let v_email_verified = Json::Bool(x.email_verified);
    o.push((str_to_chars("email_verified"), v_email_verified));
    let v_premium = Json::Bool(x.premium);
    o.push((str_to_chars("premium"), v_premium));
    let v_master_password_hint = exec_j_opt_str(&x.master_password_hint);
    o.push((str_to_chars("master_password_hint"), v_master_password_hint));
    let v_language = Json::Str(str_to_chars(x.language.as_str()));
    o.push((str_to_chars("language"), v_language));
    let v_tfa_enabled = Json::Bool(x.tfa_enabled);
    o.push((str_to_chars("tfa_enabled"), v_tfa_enabled));
    let v_key = Json::Str(str_to_chars(x.key.text.as_str()));
    o.push((str_to_chars("key"), v_key));
    let v_private_key = Json::Str(str_to_chars(x.private_key.text.as_str()));
    o.push((str_to_chars("private_key"), v_private_key));
    let v_security_stamp = Json::Str(str_to_chars(x.security_stamp.as_str()));
    o.push((str_to_chars("security_stamp"), v_security_stamp));
    let v_organizations = Json::Arr(encode_str_vec(&x.organizations));
    o.push((str_to_chars("organizations"), v_organizations));
    proof {
        lemma_obj_views(o@);
        assert(obj_views(o@) =~= enc_profile(x@, false)->Obj_0);
    }
    Json::Obj(o)
}

/// Decodes, as `dec_profile` says.
pub fn decode_profile(j: &Json) -> (r: Option<Profile>)
    ensures
        (r is Some <==> dec_profile(json_view(*j)) is Some),
        r matches Some(x) ==> dec_profile(json_view(*j)) == Some(x@),
{
    match j {
        Json::Obj(o) => {
            let object = match get_req_str(o, "object", "Object") {
                Some(v) => v,
                None => {
                    return None;
                },
            };
            let uuid = match get_req_str(o, "uuid", "Id") {
                Some(v) => v,
                None => {
                    return None;
                },
            };
            let name = match get_req_str(o, "name", "Name") {
                Some(v) => v,
                None => {
                    return None;
                },
            };
            let email = match get_req_str(o, "email", "Email") {
                Some(v) => v,
                None => {
                    return None;
                },
            };
            let email_verified = match get_req_bool(o, "email_verified", "EmailVerified") {
                Some(v) => v,
                None => {
                    return None;
                },
            };
            let premium = match get_req_bool(o, "premium", "Premium") {
                Some(v) => v,
                None => {
                    return None;
                },
            };
            let master_password_hint = match get_opt_str(o, "master_password_hint", "MasterPasswordHint") {
                Some(v) => v,
                None => {
                    return None;
                },
            };
            let language = match get_req_str(o, "language", "Culture") {
                Some(v) => v,
                None => {
                    return None;
                },
            };
            let tfa_enabled = match get_req_bool(o, "tfa_enabled", "TwoFactorEnabled") {
                Some(v) => v,
                None => {
                    return None;
                },
            };
            let key = match get_req_str(o, "key", "Key") {
                Some(v) => CipherString { text: v },
                None => {
                    return None;
                },
            };
            let private_key = match get_req_str(o, "private_key", "PrivateKey") {
                Some(v) => CipherString { text: v },
                None => {
                    return None;
                },
            };
            let security_stamp = match get_req_str(o, "security_stamp", "SecurityStamp") {
                Some(v) => v,
                None => {
                    return None;
                },
            };
            let organizations = match get_req_arr(o, "organizations", "Organizations") {
                Some(items) => match decode_str_vec(items) {
                    Some(v) => v,
                    None => {
                        return None;
                    },
                },
                None => {
                    return None;
                },
            };
            Some(Profile {
                object,
                uuid,
                name,
                email,
                email_verified,
                premium,
                master_password_hint,
                language,
                tfa_enabled,
                key,
                private_key,
                security_stamp,
                organizations,
            })
        },
        _ => None,
    }
}

pub open spec fn enc_entry_data(x: CipherEntryDataV, caps: bool) -> JsonV {
    JsonV::Obj(
        seq![
            (key(caps, "uri"@, "Uri"@), j_opt_str(x.uri)),
            (key(caps, "uris"@, "Uris"@), match x.uris {
                Some(l) => JsonV::Arr(enc_uri_list(l, caps)),
                None => JsonV::Null,
            }),
            (key(caps, "username"@, "Username"@), JsonV::Str(x.username)),
            (key(caps, "password"@, "Password"@), JsonV::Str(x.password)),
            (key(caps, "password_last_changed"@, "PasswordRevisionDate"@), j_opt_str(x.password_last_changed)),
            (key(caps, "totp"@, "Totp"@), j_opt_str(x.totp)),
            (key(caps, "name"@, "Name"@), JsonV::Str(x.name)),
            (key(caps, "notes"@, "Notes"@), j_opt_str(x.notes)),
            (key(caps, "fields"@, "Fields"@), match x.fields {
                Some(l) => JsonV::Arr(enc_fields_list(l, caps)),
                None => JsonV::Null,
            }),
            (key(caps, "password_history"@, "PasswordHistory"@), match x.password_history {
                Some(l) => JsonV::Arr(enc_history_list(l, caps)),
                None => JsonV::Null,
            }),
        ],
    )
}

pub open spec fn dec_entry_data(v: JsonV) -> Option<CipherEntryDataV> {
    match v {
        JsonV::Obj(o) => {
            let uri = opt_str(o, "uri"@, "Uri"@);
            let uris = match opt_arr(o, "uris"@, "Uris"@) {
                None => None,
                Some(None) => Some(None),
                Some(Some(items)) => match dec_uri_list(items) {
                    Some(l) => Some(Some(l)),
                    None => None,
                },
            };
            let username = req_str(o, "username"@, "Username"@);
            let password = req_str(o, "password"@, "Password"@);
            let password_last_changed = opt_str(o, "password_last_changed"@, "PasswordRevisionDate"@);
            let totp = opt_str(o, "totp"@, "Totp"@);
            let name = req_str(o, "name"@, "Name"@);
            let notes = opt_str(o, "notes"@, "Notes"@);
            let fields = match opt_arr(o, "fields"@, "Fields"@) {
                None => None,
                Some(None) => Some(None),
                Some(Some(items)) => match dec_fields_list(items) {
                    Some(l) => Some(Some(l)),
                    None => None,
                },
            };
            let password_history = match opt_arr(o, "password_history"@, "PasswordHistory"@) {
                None => None,
                Some(None) => Some(None),
                Some(Some(items)) => match dec_history_list(items) {
                    Some(l) => Some(Some(l)),
                    None => None,
                },
            };
            if uri is Some && uris is Some && username is Some && password is Some && password_last_changed is Some && totp is Some && name is Some && notes is Some && fields is Some && password_history is Some {
                Some(
                    CipherEntryDataV {
                        uri: uri.unwrap(),
                        uris: uris.unwrap(),
                        username: username.unwrap(),
                        password: password.unwrap(),
                        password_last_changed: password_last_changed.unwrap(),
                        totp: totp.unwrap(),
                        name: name.unwrap(),
                        notes: notes.unwrap(),
                        fields: fields.unwrap(),
                        password_history: password_history.unwrap(),
                    },
                )
            } else {
                None
            }
        },
        _ => None,
    }
}

/// Encodes under canonical member names, as `enc_entry_data` says.
pub fn encode_entry_data(x: &CipherEntryData) -> (r: Json)
    ensures
        json_view(r) == enc_entry_data(x@, false),
{
    let mut o: Vec<(Vec<char>, Json)> = Vec::new();
    let v_uri = match &x.uri {
        Some(c) => Json::Str(str_to_chars(c.text.as_str())),
        None => Json::Null,
    };
    o.push((str_to_chars("uri"), v_uri));
    let v_uris = match &x.uris {
        Some(l) => Json::Arr(encode_uri_vec(l)),
        None => Json::Null,
    };
    o.push((str_to_chars("uris"), v_uris));
    let v_username = Json::Str(str_to_chars(x.username.text.as_str()));
    o.push((str_to_chars("username"), v_username));
    let v_password = Json::Str(str_to_chars(x.password.text.as_str()));
    o.push((str_to_chars("password"), v_password));
    let v_password_last_changed = exec_j_opt_str(&x.password_last_changed);
    o.push((str_to_chars("password_last_changed"), v_password_last_changed));
    let v_totp = exec_j_opt_str(&x.totp);
    o.push((str_to_chars("totp"), v_totp));
    let v_name = Json::Str(str_to_chars(x.name.text.as_str()));
    o.push((str_to_chars("name"), v_name));
    let v_notes = exec_j_opt_str(&x.notes);
    o.push((str_to_chars("notes"), v_notes));
    let v_fields = match &x.fields {
        Some(l) => Json::Arr(encode_fields_vec(l)),
        None => Json::Null,
    };
    o.push((str_to_chars("fields"), v_fields));
    let v_password_history = match &x.password_history {
        Some(l) => Json::Arr(encode_history_vec(l)),
        None => Json::Null,
    };
    o.push((str_to_chars("password_history"), v_password_history));
    proof {
        lemma_obj_views(o@);
        assert(obj_views(o@) =~= enc_entry_data(x@, false)->Obj_0);
    }
    Json::Obj(o)
}

/// Decodes, as `dec_entry_data` says.
pub fn decode_entry_data(j: &Json) -> (r: Option<CipherEntryData>)
    ensures
        (r is Some <==> dec_entry_data(json_view(*j)) is Some),
        r matches Some(x) ==> dec_entry_data(json_view(*j)) == Some(x@),
{
    match j {
        Json::Obj(o) => {
            let uri = match get_opt_str(o, "uri", "Uri") {
                Some(Some(v)) => Some(CipherString { text: v }),
                Some(None) => None,
                None => {
                    return None;
                },
            };
            let uris = match get_opt_arr(o, "uris", "Uris") {
                Some(Some(items)) => match decode_uri_vec(items) {
                    Some(v) => Some(v),
                    None => {
                        return None;
                    },
                },
                Some(None) => None,
                None => {
                    return None;
                },
            };
            let username = match get_req_str(o, "username", "Username") {
                Some(v) => CipherString { text: v },
                None => {
                    return None;
                },
            };
            let password = match get_req_str(o, "password", "Password") {
                Some(v) => CipherString { text: v },
                None => {
                    return None;
                },
            };
            let password_last_changed = match get_opt_str(o, "password_last_changed", "PasswordRevisionDate") {
                Some(v) => v,
                None => {
                    return None;
                },
            };
            let totp = match get_opt_str(o, "totp", "Totp") {
                Some(v) => v,
                None => {
                    return None;
                },
            };
            let name = match get_req_str(o, "name", "Name") {
                Some(v) => CipherString { text: v },
                None => {
                    return None;
                },
            };
            let notes = match get_opt_str(o, "notes", "Notes") {
                Some(v) => v,
                None => {
                    return None;
                },
            };
            let fields = match get_opt_arr(o, "fields", "Fields") {
                Some(Some(items)) => match decode_fields_vec(items) {
                    Some(v) => Some(v),
                    None => {
                        return None;
                    },
                },
                Some(None) => None,
                None => {
                    return None;
                },
            };
            let password_history = match get_opt_arr(o, "password_history", "PasswordHistory") {
                Some(Some(items)) => match decode_history_vec(items) {
                    Some(v) => Some(v),
                    None => {
                        return None;
                    },
                },
                Some(None) => None,
                None => {
                    return None;
                },
            };
            Some(CipherEntryData {
                uri,
                uris,
                username,
                password,
                password_last_changed,
                totp,
                name,
                notes,
                fields,
                password_history,
            })
        },
        _ => None,
    }
}

pub open spec fn folder_views(xs: Seq<Folder>) -> Seq<FolderV> {
    Seq::new(xs.len(), |i: int| xs[i]@)
}

pub open spec fn enc_folder_list(xs: Seq<FolderV>, caps: bool) -> Seq<JsonV> {
    Seq::new(xs.len(), |i: int| enc_folder(xs[i], caps))
}

pub open spec fn dec_folder_list(items: Seq<JsonV>) -> Option<Seq<FolderV>> {
    if forall|i: int| 0 <= i < items.len() ==> dec_folder(#[trigger] items[i]) is Some {
        Some(Seq::new(items.len(), |i: int| dec_folder(items[i]).unwrap()))
    } else {
        None
    }
}

/// Encodes each element, as `enc_folder_list` says.
pub fn encode_folder_vec(xs: &Vec<Folder>) -> (r: Vec<Json>)
    ensures
        arr_views(r@) == enc_folder_list(folder_views(xs@), false),
{
    let mut r: Vec<Json> = Vec::new();
    proof {
        assert(arr_views(r@) =~= enc_folder_list(folder_views(xs@).take(0), false));
    }
    let n = xs.len();
    let mut i: usize = 0;
    while i < n
        invariant
            0 <= i <= n,
            n == xs@.len(),
            arr_views(r@) == enc_folder_list(folder_views(xs@).take(i as int), false),
        decreases n - i,
    {
        let j = encode_folder(&xs[i]);
        proof {
            lemma_arr_views_push(r@, j);
            assert(enc_folder_list(folder_views(xs@).take(i as int), false).push(json_view(j))
                =~= enc_folder_list(folder_views(xs@).take(i as int + 1), false));
        }
        r.push(j);
        i = i + 1;
    }
    proof {
        assert(folder_views(xs@).take(n as int) =~= folder_views(xs@));
    }
    r
}

/// Decodes each element, as `dec_folder_list` says.
pub fn decode_folder_vec(items: &Vec<Json>) -> (r: Option<Vec<Folder>>)
    ensures
        (r is Some <==> dec_folder_list(arr_views(items@)) is Some),
        r matches Some(xs) ==> dec_folder_list(arr_views(items@)) == Some(folder_views(xs@)),
{
    proof {
        lemma_arr_views(items@);
    }
    let ghost views = arr_views(items@);
    let n = items.len();
    let mut out: Vec<Folder> = Vec::new();
    let mut i: usize = 0;
    while i < n
        invariant
            0 <= i <= n,
            n == items@.len(),
            views == arr_views(items@),
            views.len() == n,
            forall|m: int| 0 <= m < n ==> views[m] == json_view(items@[m]),
            out@.len() == i,
            forall|m: int| 0 <= m < i ==> dec_folder(#[trigger] views[m]) is Some,
            forall|m: int| 0 <= m < i ==> out@[m]@ == dec_folder(#[trigger] views[m]).unwrap(),
        decreases n - i,
    {
        match decode_folder(&items[i]) {
            Some(x) => {
                out.push(x);
            },
            None => {
                proof {
                    assert(dec_folder(views[i as int]) is None);
                }
                return None;
            },
        }
        i = i + 1;
    }
    proof {
        assert(folder_views(out@) =~= Seq::new(views.len(), |m: int| dec_folder(views[m]).unwrap()));
    }
    Some(out)
}

pub open spec fn enc_entry(x: CipherEntryV, caps: bool) -> JsonV {
    JsonV::Obj(
        seq![
            (key(caps, "object"@, "Object"@), JsonV::Str(x.object)),
            (key(caps, "collection_ids"@, "CollectionIds"@), JsonV::Arr(enc_str_list(x.collection_ids))),
            (key(caps, "folder_id"@, "FolderId"@), j_opt_str(x.folder_id)),
            (key(caps, "favorite"@, "Favorite"@), JsonV::Bool(x.favorite)),
            (key(caps, "edit"@, "Edit"@), JsonV::Bool(x.edit)),
            (key(caps, "uuid"@, "Id"@), JsonV::Str(x.uuid)),
            (key(caps, "organization_id"@, "OrganizationId"@), j_opt_str(x.organization_id)),
            (key(caps, "type_"@, "Type"@), JsonV::Num(x.type_)),
            (key(caps, "data"@, "Data"@), enc_entry_data(x.data, caps)),
            (key(caps, "name"@, "Name"@), JsonV::Str(x.name)),
            (key(caps, "notes"@, "Notes"@), j_opt_str(x.notes)),
            (key(caps, "card"@, "Card"@), j_opt_str(x.card)),
            (key(caps, "identity"@, "Identity"@), j_opt_str(x.identity)),
            (key(caps, "secure_note"@, "SecureNote"@), j_opt_str(x.secure_note)),
            (
                key(caps, "fields"@, "Fields"@),
                match x.fields {
                    Some(l) => JsonV::Arr(enc_fields_list(l, caps)),
                    None => JsonV::Null,
                },
            ),
            (
                key(caps, "password_history"@, "PasswordHistory"@),
                match x.password_history {
                    Some(l) => JsonV::Arr(enc_history_list(l, caps)),
                    None => JsonV::Null,
                },
            ),
            (key(caps, "attachments"@, "Attachments"@), j_opt_str(x.attachments)),
            (key(caps, "organization_tfa"@, "OrganizationUseTotp"@), JsonV::Bool(x.organization_tfa)),
            (key(caps, "last_changed"@, "RevisionDate"@), JsonV::Str(x.last_changed)),
        ],
    )
}

pub open spec fn dec_entry(v: JsonV) -> Option<CipherEntryV> {
    match v {
        JsonV::Obj(o) => {
            let object = req_str(o, "object"@, "Object"@);
            let collection_ids = match req_arr(o, "collection_ids"@, "CollectionIds"@) {
                Some(items) => dec_str_list(items),
                None => None,
            };
            let folder_id = opt_str(o, "folder_id"@, "FolderId"@);
            let favorite = req_bool(o, "favorite"@, "Favorite"@);
            let edit = req_bool(o, "edit"@, "Edit"@);
            let uuid = req_str(o, "uuid"@, "Id"@);
            let organization_id = opt_str(o, "organization_id"@, "OrganizationId"@);
            let type_ = req_num(o, "type_"@, "Type"@);
            let data = match lookup(o, "data"@, "Data"@) {
                Some(dv) => dec_entry_data(dv),
                None => None,
            };
            let name = req_str(o, "name"@, "Name"@);
            let notes = opt_str(o, "notes"@, "Notes"@);
            let card = opt_str(o, "card"@, "Card"@);
            let identity = opt_str(o, "identity"@, "Identity"@);
            let secure_note = opt_str(o, "secure_note"@, "SecureNote"@);
            let fields = match opt_arr(o, "fields"@, "Fields"@) {
                None => None,
                Some(None) => Some(None),
                Some(Some(items)) => match dec_fields_list(items) {
                    Some(l) => Some(Some(l)),
                    None => None,
                },
            };
            let password_history = match opt_arr(o, "password_history"@, "PasswordHistory"@) {
                None => None,
                Some(None) => Some(None),
                Some(Some(items)) => match dec_history_list(items) {
                    Some(l) => Some(Some(l)),
                    None => None,
                },
            };
            let attachments = opt_str(o, "attachments"@, "Attachments"@);
            let organization_tfa = req_bool(o, "organization_tfa"@, "OrganizationUseTotp"@);
            let last_changed = req_str(o, "last_changed"@, "RevisionDate"@);
            if object is Some && collection_ids is Some && folder_id is Some && favorite is Some
                && edit is Some && uuid is Some && organization_id is Some && type_ is Some
                && data is Some && name is Some && notes is Some && card is Some
                && identity is Some && secure_note is Some && fields is Some
                && password_history is Some && attachments is Some && organization_tfa is Some
                && last_changed is Some {
                Some(
                    CipherEntryV {
                        object: object.unwrap(),
                        collection_ids: collection_ids.unwrap(),
                        folder_id: folder_id.unwrap(),
                        favorite: favorite.unwrap(),
                        edit: edit.unwrap(),
                        uuid: uuid.unwrap(),
                        organization_id: organization_id.unwrap(),
                        type_: type_.unwrap(),
                        data: data.unwrap(),
                        name: name.unwrap(),
                        notes: notes.unwrap(),
                        login: None,
                        card: card.unwrap(),
                        identity: identity.unwrap(),
                        secure_note: secure_note.unwrap(),
                        fields: fields.unwrap(),
                        password_history: password_history.unwrap(),
                        attachments: attachments.unwrap(),
                        organization_tfa: organization_tfa.unwrap(),
                        last_changed: last_changed.unwrap(),
                    },
                )
            } else {
                None
            }
        },
        _ => None,
    }
}

/// Encodes an entry under canonical member names, as `enc_entry` says; the
/// in-memory `login` payload is not written.
pub fn encode_entry(x: &CipherEntry) -> (r: Json)
    ensures
        json_view(r) == enc_entry(x@.persisted(), false),
{
    let mut o: Vec<(Vec<char>, Json)> = Vec::new();
    let v_object = Json::Str(str_to_chars(x.object.as_str()));
    o.push((str_to_chars("object"), v_object));
    let v_cids = Json::Arr(encode_str_vec(&x.collection_ids));
    o.push((str_to_chars("collection_ids"), v_cids));
    let v_folder_id = exec_j_opt_str(&x.folder_id);
    o.push((str_to_chars("folder_id"), v_folder_id));
    o.push((str_to_chars("favorite"), Json::Bool(x.favorite)));
    o.push((str_to_chars("edit"), Json::Bool(x.edit)));
    o.push((str_to_chars("uuid"), Json::Str(str_to_chars(x.uuid.as_str()))));
    let v_org = exec_j_opt_str(&x.organization_id);
    o.push((str_to_chars("organization_id"), v_org));
    o.push((str_to_chars("type_"), Json::Num(x.type_)));
    let v_data = encode_entry_data(&x.data);
    o.push((str_to_chars("data"), v_data));
    o.push((str_to_chars("name"), Json::Str(str_to_chars(x.name.text.as_str()))));
    let v_notes = exec_j_opt_str(&x.notes);
    o.push((str_to_chars("notes"), v_notes));
    let v_card = exec_j_opt_str(&x.card);
    o.push((str_to_chars("card"), v_card));
    let v_identity = exec_j_opt_str(&x.identity);
    o.push((str_to_chars("identity"), v_identity));
    let v_secure_note = exec_j_opt_str(&x.secure_note);
    o.push((str_to_chars("secure_note"), v_secure_note));
    let v_fields = match &x.fields {
        Some(l) => Json::Arr(encode_fields_vec(l)),
        None => Json::Null,
    };
    o.push((str_to_chars("fields"), v_fields));
    let v_hist = match &x.password_history {
        Some(l) => Json::Arr(encode_history_vec(l)),
        None => Json::Null,
    };
    o.push((str_to_chars("password_history"), v_hist));
    let v_att = exec_j_opt_str(&x.attachments);
    o.push((str_to_chars("attachments"), v_att));
    o.push((str_to_chars("organization_tfa"), Json::Bool(x.organization_tfa)));
    o.push((str_to_chars("last_changed"), Json::Str(str_to_chars(x.last_changed.as_str()))));
    proof {
        lemma_obj_views(o@);
        assert(obj_views(o@) =~= enc_entry(x@.persisted(), false)->Obj_0);
    }
    Json::Obj(o)
}

/// Decodes an entry, as `dec_entry` says; the decoded entry carries no
/// in-memory `login` payload.
pub fn decode_entry(j: &Json) -> (r: Option<CipherEntry>)
    ensures
        (r is Some <==> dec_entry(json_view(*j)) is Some),
        r matches Some(x) ==> dec_entry(json_view(*j)) == Some(x@),
{
    match j {
        Json::Obj(o) => {
            let object = match get_req_str(o, "object", "Object") {
                Some(v) => v,
                None => {
                    return None;
                },
            };
            let collection_ids = match get_req_arr(o, "collection_ids", "CollectionIds") {
                Some(items) => match decode_str_vec(items) {
                    Some(v) => v,
                    None => {
                        return None;
                    },
                },
                None => {
                    return None;
                },
            };
            let folder_id = match get_opt_str(o, "folder_id", "FolderId") {
                Some(v) => v,
                None => {
                    return None;
                },
            };
            let favorite = match get_req_bool(o, "favorite", "Favorite") {
                Some(v) => v,
                None => {
                    return None;
                },
            };
            let edit = match get_req_bool(o, "edit", "Edit") {
                Some(v) => v,
                None => {
                    return None;
                },
            };
            let uuid = match get_req_str(o, "uuid", "Id") {
                Some(v) => v,
                None => {
                    return None;
                },
            };
            let organization_id = match get_opt_str(o, "organization_id", "OrganizationId") {
                Some(v) => v,
                None => {
                    return None;
                },
            };
            let type_ = match get_req_num(o, "type_", "Type") {
                Some(v) => v,
                None => {
                    return None;
                },
            };
            let data = match obj_get(o, "data", "Data") {
                Some(dv) => match decode_entry_data(dv) {
                    Some(v) => v,
                    None => {
                        return None;
                    },
                },
                None => {
                    return None;
                },
            };
            let name = match get_req_str(o, "name", "Name") {
                Some(v) => CipherString { text: v },
                None => {
                    return None;
                },
            };
            let notes = match get_opt_str(o, "notes", "Notes") {
                Some(v) => v,
                None => {
                    return None;
                },
            };
            let card = match get_opt_str(o, "card", "Card") {
                Some(v) => v,
                None => {
                    return None;
                },
            };
            let identity = match get_opt_str(o, "identity", "Identity") {
                Some(v) => v,
                None => {
                    return None;
                },
            };
            let secure_note = match get_opt_str(o, "secure_note", "SecureNote") {
                Some(v) => v,
                None => {
                    return None;
                },
            };
            let fields = match get_opt_arr(o, "fields", "Fields") {
                Some(Some(items)) => match decode_fields_vec(items) {
                    Some(v) => Some(v),
                    None => {
                        return None;
                    },
                },
                Some(None) => None,
                None => {
                    return None;
                },
            };
            let password_history = match get_opt_arr(o, "password_history", "PasswordHistory") {
                Some(Some(items)) => match decode_history_vec(items) {
                    Some(v) => Some(v),
                    None => {
                        return None;
                    },
                },
                Some(None) => None,
                None => {
                    return None;
                },
            };
            let attachments = match get_opt_str(o, "attachments", "Attachments") {
                Some(v) => v,
                None => {
                    return None;
                },
            };
            let organization_tfa = match get_req_bool(o, "organization_tfa", "OrganizationUseTotp") {
                Some(v) => v,
                None => {
                    return None;
                },
            };
            let last_changed = match get_req_str(o, "last_changed", "RevisionDate") {
                Some(v) => v,
                None => {
                    return None;
                },
            };
            Some(CipherEntry {
                object,
                collection_ids,
                folder_id,
                favorite,
                edit,
                uuid,
                organization_id,
                type_,
                data,
                name,
                notes,
                login: None,
                card,
                identity,
                secure_note,
                fields,
                password_history,
                attachments,
                organization_tfa,
                last_changed,
            })
        },
        _ => None,
    }
}

pub open spec fn entry_views(xs: Seq<CipherEntry>) -> Seq<CipherEntryV> {
    Seq::new(xs.len(), |i: int| xs[i]@)
}

pub open spec fn enc_entry_list(xs: Seq<CipherEntryV>, caps: bool) -> Seq<JsonV> {
    Seq::new(xs.len(), |i: int| enc_entry(xs[i], caps))
}

pub open spec fn dec_entry_list(items: Seq<JsonV>) -> Option<Seq<CipherEntryV>> {
    if forall|i: int| 0 <= i < items.len() ==> dec_entry(#[trigger] items[i]) is Some {
        Some(Seq::new(items.len(), |i: int| dec_entry(items[i]).unwrap()))
    } else {
        None
    }
}

/// Encodes each element, as `enc_entry_list` says.
pub fn encode_entry_vec(xs: &Vec<CipherEntry>) -> (r: Vec<Json>)
    ensures
        arr_views(r@) == enc_entry_list(entry_views(xs@), false),
{
    let mut r: Vec<Json> = Vec::new();
    proof {
        assert(arr_views(r@) =~= enc_entry_list(entry_views(xs@).take(0), false));
    }
    let n = xs.len();
    let mut i: usize = 0;
    while i < n
        invariant
            0 <= i <= n,
            n == xs@.len(),
            arr_views(r@) == enc_entry_list(entry_views(xs@).take(i as int), false),
        decreases n - i,
    {
        let j = encode_entry(&xs[i]);
        proof {
            lemma_arr_views_push(r@, j);
            assert(enc_entry_list(entry_views(xs@).take(i as int), false).push(json_view(j))
                =~= enc_entry_list(entry_views(xs@).take(i as int + 1), false));
        }
        r.push(j);
        i = i + 1;
    }
    proof {
        assert(entry_views(xs@).take(n as int) =~= entry_views(xs@));
    }
    r
}

/// Decodes each element, as `dec_entry_list` says.
pub fn decode_entry_vec(items: &Vec<Json>) -> (r: Option<Vec<CipherEntry>>)
    ensures
        (r is Some <==> dec_entry_list(arr_views(items@)) is Some),
        r matches Some(xs) ==> dec_entry_list(arr_views(items@)) == Some(entry_views(xs@)),
{
    proof {
        lemma_arr_views(items@);
    }
    let ghost views = arr_views(items@);
    let n = items.len();
    let mut out: Vec<CipherEntry> = Vec::new();
    let mut i: usize = 0;
    while i < n
        invariant
            0 <= i <= n,
            n == items@.len(),
            views == arr_views(items@),
            views.len() == n,
            forall|m: int| 0 <= m < n ==> views[m] == json_view(items@[m]),
            out@.len() == i,
            forall|m: int| 0 <= m < i ==> dec_entry(#[trigger] views[m]) is Some,
            forall|m: int| 0 <= m < i ==> out@[m]@ == dec_entry(#[trigger] views[m]).unwrap(),
        decreases n - i,
    {
        match decode_entry(&items[i]) {
            Some(x) => {
                out.push(x);
            },
            None => {
                proof {
                    assert(dec_entry(views[i as int]) is None);
                }
                return None;
            },
        }
        i = i + 1;
    }
    proof {
        assert(entry_views(out@) =~= Seq::new(views.len(), |m: int| dec_entry(views[m]).unwrap()));
    }
    Some(out)
}


// ---------------------------------------------------------------------------
// Vault snapshot and session
// ---------------------------------------------------------------------------

pub open spec fn enc_vault(x: VaultDataV, caps: bool) -> JsonV {
    JsonV::Obj(
        seq![
            (key(caps, "object"@, "Object"@), JsonV::Str(x.object)),
            (key(caps, "profile"@, "Profile"@), enc_profile(x.profile, caps)),
            (key(caps, "folders"@, "Folders"@), JsonV::Arr(enc_folder_list(x.folders, caps))),
            (key(caps, "collections"@, "Collections"@), JsonV::Arr(enc_str_list(x.collections))),
            (key(caps, "ciphers"@, "Ciphers"@), JsonV::Arr(enc_entry_list(x.ciphers, caps))),
        ],
    )
}

pub open spec fn dec_vault(v: JsonV) -> Option<VaultDataV> {
    match v {
        JsonV::Obj(o) => {
            let object = req_str(o, "object"@, "Object"@);
            let profile = match lookup(o, "profile"@, "Profile"@) {
                Some(pv) => dec_profile(pv),
                None => None,
            };
            let folders = match req_arr(o, "folders"@, "Folders"@) {
                Some(items) => dec_folder_list(items),
                None => None,
            };
            let collections = match req_arr(o, "collections"@, "Collections"@) {
                Some(items) => dec_str_list(items),
                None => None,
            };
            let ciphers = match req_arr(o, "ciphers"@, "Ciphers"@) {
                Some(items) => dec_entry_list(items),
                None => None,
            };
            if object is Some && profile is Some && folders is Some && collections is Some
                && ciphers is Some {
                Some(
                    VaultDataV {
                        object: object.unwrap(),
                        profile: profile.unwrap(),
                        folders: folders.unwrap(),
                        collections: collections.unwrap(),
                        ciphers: ciphers.unwrap(),
                        domains: false,
                    },
                )
            } else {
                None
            }
        },
        _ => None,
    }
}

/// Encodes a vault snapshot under canonical member names, as `enc_vault`
/// says; the domains record is not written.
pub fn encode_vault(x: &VaultData) -> (r: Json)
    ensures
        json_view(r) == enc_vault(x@, false),
{
    let mut o: Vec<(Vec<char>, Json)> = Vec::new();
    o.push((str_to_chars("object"), Json::Str(str_to_chars(x.object.as_str()))));
    let v_profile = encode_profile(&x.profile);
    o.push((str_to_chars("profile"), v_profile));
    let v_folders = Json::Arr(encode_folder_vec(&x.folders));
    o.push((str_to_chars("folders"), v_folders));
    let v_collections = Json::Arr(encode_str_vec(&x.collections));
    o.push((str_to_chars("collections"), v_collections));
    let v_ciphers = Json::Arr(encode_entry_vec(&x.ciphers));
    o.push((str_to_chars("ciphers"), v_ciphers));
    proof {
        lemma_obj_views(o@);
        assert(obj_views(o@) =~= enc_vault(x@, false)->Obj_0);
    }
    Json::Obj(o)
}

/// Decodes a vault snapshot, as `dec_vault` says; the decoded snapshot
/// carries no domains record.
pub fn decode_vault(j: &Json) -> (r: Option<VaultData>)
    ensures
        (r is Some <==> dec_vault(json_view(*j)) is Some),
        r matches Some(x) ==> dec_vault(json_view(*j)) == Some(x@),
{
    match j {
        Json::Obj(o) => {
            let object = match get_req_str(o, "object", "Object") {
                Some(v) => v,
                None => {
                    return None;
                },
            };
            let profile = match obj_get(o, "profile", "Profile") {
                Some(pv) => match decode_profile(pv) {
                    Some(v) => v,
                    None => {
                        return None;
                    },
                },
                None => {
                    return None;
                },
            };
            let folders = match get_req_arr(o, "folders", "Folders") {
                Some(items) => match decode_folder_vec(items) {
                    Some(v) => v,
                    None => {
                        return None;
                    },
                },
                None => {
                    return None;
                },
            };
            let collections = match get_req_arr(o, "collections", "Collections") {
                Some(items) => match decode_str_vec(items) {
                    Some(v) => v,
                    None => {
                        return None;
                    },
                },
                None => {
                    return None;
                },
            };
            let ciphers = match get_req_arr(o, "ciphers", "Ciphers") {
                Some(items) => match decode_entry_vec(items) {
                    Some(v) => v,
                    None => {
                        return None;
                    },
                },
                None => {
                    return None;
                },
            };
            Some(VaultData { object, profile, folders, collections, ciphers, domains: None })
        },
        _ => None,
    }
}

pub open spec fn enc_auth(a: AuthDataV) -> JsonV {
    JsonV::Obj(
        seq![
            ("access_token"@, JsonV::Str(a.access_token)),
            ("expires_in"@, JsonV::Num(a.expires_in)),
            ("token_type"@, JsonV::Str(a.token_type)),
            ("kdf"@, JsonV::Num(a.kdf)),
            ("kdf_iterations"@, JsonV::Num(a.kdf_iterations)),
        ],
    )
}

pub open spec fn dec_auth(v: JsonV) -> Option<AuthDataV> {
    match v {
        JsonV::Obj(o) => {
            let access_token = req_str(o, "access_token"@, "access_token"@);
            let expires_in = req_num(o, "expires_in"@, "expires_in"@);
            let token_type = req_str(o, "token_type"@, "token_type"@);
            let kdf = req_num(o, "kdf"@, "kdf"@);
            let kdf_iterations = req_num(o, "kdf_iterations"@, "kdf_iterations"@);
            if access_token is Some && expires_in is Some && token_type is Some && kdf is Some
                && kdf_iterations is Some {
                Some(
                    AuthDataV {
                        access_token: access_token.unwrap(),
                        expires_in: expires_in.unwrap(),
                        token_type: token_type.unwrap(),
                        kdf: kdf.unwrap(),
                        kdf_iterations: kdf_iterations.unwrap(),
                        cipher: None,
                    },
                )
            } else {
                None
            }
        },
        _ => None,
    }
}

/// Encodes a session for the cache file, as `enc_auth` says; the cipher
/// suite is never written.
pub fn encode_auth(a: &AuthData) -> (r: Json)
    ensures
        json_view(r) == enc_auth(a@.persisted()),
{
    let mut o: Vec<(Vec<char>, Json)> = Vec::new();
    o.push((str_to_chars("access_token"), Json::Str(str_to_chars(a.access_token.as_str()))));
    o.push((str_to_chars("expires_in"), Json::Num(a.expires_in)));
    o.push((str_to_chars("token_type"), Json::Str(str_to_chars(a.token_type.as_str()))));
    o.push((str_to_chars("kdf"), Json::Num(a.kdf)));
    o.push((str_to_chars("kdf_iterations"), Json::Num(a.kdf_iterations)));
    proof {
        lemma_obj_views(o@);
        assert(obj_views(o@) =~= enc_auth(a@.persisted())->Obj_0);
    }
    Json::Obj(o)
}

/// Decodes a session from the cache file, as `dec_auth` says; the decoded
/// session carries no cipher suite and one must be re-derived from a fresh
/// password entry before the session is usable against the service.
pub fn decode_auth(j: &Json) -> (r: Option<AuthData>)
    ensures
        (r is Some <==> dec_auth(json_view(*j)) is Some),
        r matches Some(a) ==> dec_auth(json_view(*j)) == Some(a@),
{
    match j {
        Json::Obj(o) => {
            let access_token = match get_req_str(o, "access_token", "access_token") {
                Some(v) => v,
                None => {
                    return None;
                },
            };
            let expires_in = match get_req_num(o, "expires_in", "expires_in") {
                Some(v) => v,
                None => {
                    return None;
                },
            };
            let token_type = match get_req_str(o, "token_type", "token_type") {
                Some(v) => v,
                None => {
                    return None;
                },
            };
            let kdf = match get_req_num(o, "kdf", "kdf") {
                Some(v) => v,
                None => {
                    return None;
                },
            };
            let kdf_iterations = match get_req_num(o, "kdf_iterations", "kdf_iterations") {
                Some(v) => v,
                None => {
                    return None;
                },
            };
            Some(AuthData { access_token, expires_in, token_type, kdf, kdf_iterations, cipher: None })
        },
        _ => None,
    }
}

/// Encoding then decoding a list of strings gives it back.
pub proof fn lemma_rt_str_list(ss: Seq<Seq<char>>)
    ensures
        dec_str_list(enc_str_list(ss)) == Some(ss),
{
    let items = enc_str_list(ss);
    assert forall|i: int| 0 <= i < items.len() implies (#[trigger] items[i]) is Str by {
        assert(items[i] == JsonV::Str(ss[i]));
    }
    assert(Seq::new(items.len(), |i: int| items[i]->Str_0) =~= ss);
}

/// Encoding then decoding gives the value back, under either naming.
pub proof fn lemma_rt_folder(f: FolderV, caps: bool)
    ensures
        dec_folder(enc_folder(f, caps)) == Some(f),
{
    let o = enc_folder(f, caps)->Obj_0;
    reveal_strlit("object");
    reveal_strlit("Object");
    assert(("object"@).len() == 6 && ("object"@)[0] == 'o');
    assert(("Object"@).len() == 6 && ("Object"@)[0] == 'O');
    reveal_strlit("uuid");
    reveal_strlit("Id");
    assert(("uuid"@).len() == 4 && ("uuid"@)[0] == 'u');
    assert(("Id"@).len() == 2 && ("Id"@)[0] == 'I');
    reveal_strlit("name");
    reveal_strlit("Name");
    assert(("name"@).len() == 4 && ("name"@)[0] == 'n');
    assert(("Name"@).len() == 4 && ("Name"@)[0] == 'N');
    reveal_strlit("last_changed");
    reveal_strlit("RevisionDate");
    assert(("last_changed"@).len() == 12 && ("last_changed"@)[0] == 'l');
    assert(("RevisionDate"@).len() == 12 && ("RevisionDate"@)[0] == 'R');

    assert(lookup(o, "object"@, "Object"@) == Some(JsonV::Str(f.object))) by {
        reveal_with_fuel(lookup, 5);
    }
    assert(lookup(o, "uuid"@, "Id"@) == Some(JsonV::Str(f.uuid))) by {
        reveal_with_fuel(lookup, 5);
    }
    assert(lookup(o, "name"@, "Name"@) == Some(JsonV::Str(f.name))) by {
        reveal_with_fuel(lookup, 5);
    }
    assert(lookup(o, "last_changed"@, "RevisionDate"@) == Some(JsonV::Str(f.last_changed))) by {
        reveal_with_fuel(lookup, 5);
    }
}

/// Element-wise round trip for lists.
pub proof fn lemma_rt_folder_list(xs: Seq<FolderV>, caps: bool)
    ensures
        dec_folder_list(enc_folder_list(xs, caps)) == Some(xs),
{
    let items = enc_folder_list(xs, caps);
    assert forall|i: int| 0 <= i < items.len() implies dec_folder(#[trigger] items[i]) == Some(
        xs[i],
    ) by {
        lemma_rt_folder(xs[i], caps);
    }
    assert(Seq::new(items.len(), |i: int| dec_folder(items[i]).unwrap()) =~= xs);
}

/// Encoding then decoding gives the value back, under either naming.
pub proof fn lemma_rt_fields(f: CipherEntryFieldsV, caps: bool)
    ensures
        dec_fields(enc_fields(f, caps)) == Some(f),
{
    let o = enc_fields(f, caps)->Obj_0;
    reveal_strlit("type_");
    reveal_strlit("Type");
    assert(("type_"@).len() == 5 && ("type_"@)[0] == 't');
    assert(("Type"@).len() == 4 && ("Type"@)[0] == 'T');
    reveal_strlit("name");
    reveal_strlit("Name");
    assert(("name"@).len() == 4 && ("name"@)[0] == 'n');
    assert(("Name"@).len() == 4 && ("Name"@)[0] == 'N');
    reveal_strlit("value");
    reveal_strlit("Value");
    assert(("value"@).len() == 5 && ("value"@)[0] == 'v');
    assert(("Value"@).len() == 5 && ("Value"@)[0] == 'V');

    assert(lookup(o, "type_"@, "Type"@) == Some(JsonV::Num(f.type_))) by {
        reveal_with_fuel(lookup, 4);
    }
    assert(lookup(o, "name"@, "Name"@) == Some(JsonV::Str(f.name))) by {
        reveal_with_fuel(lookup, 4);
    }
    assert(lookup(o, "value"@, "Value"@) == Some(JsonV::Str(f.value))) by {
        reveal_with_fuel(lookup, 4);
    }
}

/// Element-wise round trip for lists.
pub proof fn lemma_rt_fields_list(xs: Seq<CipherEntryFieldsV>, caps: bool)
    ensures
        dec_fields_list(enc_fields_list(xs, caps)) == Some(xs),
{
    let items = enc_fields_list(xs, caps);
    assert forall|i: int| 0 <= i < items.len() implies dec_fields(#[trigger] items[i]) == Some(
        xs[i],
    ) by {
        lemma_rt_fields(xs[i], caps);
    }
    assert(Seq::new(items.len(), |i: int| dec_fields(items[i]).unwrap()) =~= xs);
}

/// Encoding then decoding gives the value back, under either naming.
pub proof fn lemma_rt_history(f: CipherEntryHistoryV, caps: bool)
    ensures
        dec_history(enc_history(f, caps)) == Some(f),
{
    let o = enc_history(f, caps)->Obj_0;
    reveal_strlit("password");
    reveal_strlit("Password");
    assert(("password"@).len() == 8 && ("password"@)[0] == 'p');
    assert(("Password"@).len() == 8 && ("Password"@)[0] == 'P');
    reveal_strlit("last_used_date");
    reveal_strlit("LastUsedDate");
    assert(("last_used_date"@).len() == 14 && ("last_used_date"@)[0] == 'l');
    assert(("LastUsedDate"@).len() == 12 && ("LastUsedDate"@)[0] == 'L');

    assert(lookup(o, "password"@, "Password"@) == Some(JsonV::Str(f.password))) by {
        reveal_with_fuel(lookup, 3);
    }
    assert(lookup(o, "last_used_date"@, "LastUsedDate"@) == Some(JsonV::Str(f.last_used_date))) by {
        reveal_with_fuel(lookup, 3);
    }
}

/// Element-wise round trip for lists.
pub proof fn lemma_rt_history_list(xs: Seq<CipherEntryHistoryV>, caps: bool)
    ensures
        dec_history_list(enc_history_list(xs, caps)) == Some(xs),
{
    let items = enc_history_list(xs, caps);
    assert forall|i: int| 0 <= i < items.len() implies dec_history(#[trigger] items[i]) == Some(
        xs[i],
    ) by {
        lemma_rt_history(xs[i], caps);
    }
    assert(Seq::new(items.len(), |i: int| dec_history(items[i]).unwrap()) =~= xs);
}

/// Encoding then decoding gives the value back, under either naming.
pub proof fn lemma_rt_uri(f: CipherEntryUriMatchV, caps: bool)
    ensures
        dec_uri(enc_uri(f, caps)) == Some(f),
{
    let o = enc_uri(f, caps)->Obj_0;
    reveal_strlit("uri");
    reveal_strlit("Uri");
    assert(("uri"@).len() == 3 && ("uri"@)[0] == 'u');
    assert(("Uri"@).len() == 3 && ("Uri"@)[0] == 'U');
    reveal_strlit("match_");
    reveal_strlit("Match");
    assert(("match_"@).len() == 6 && ("match_"@)[0] == 'm');
    assert(("Match"@).len() == 5 && ("Match"@)[0] == 'M');

    assert(lookup(o, "uri"@, "Uri"@) == Some(JsonV::Str(f.uri))) by {
        reveal_with_fuel(lookup, 3);
    }
    assert(lookup(o, "match_"@, "Match"@) == Some(j_opt_num(f.match_))) by {
        reveal_with_fuel(lookup, 3);
    }
}

/// Element-wise round trip for lists.
pub proof fn lemma_rt_uri_list(xs: Seq<CipherEntryUriMatchV>, caps: bool)
    ensures
        dec_uri_list(enc_uri_list(xs, caps)) == Some(xs),
{
    let items = enc_uri_list(xs, caps);
    assert forall|i: int| 0 <= i < items.len() implies dec_uri(#[trigger] items[i]) == Some(
        xs[i],
    ) by {
        lemma_rt_uri(xs[i], caps);
    }
    assert(Seq::new(items.len(), |i: int| dec_uri(items[i]).unwrap()) =~= xs);
}

/// Encoding then decoding gives the value back, under either naming.
pub proof fn lemma_rt_profile(f: ProfileV, caps: bool)
    ensures
        dec_profile(enc_profile(f, caps)) == Some(f),
{
    let o = enc_profile(f, caps)->Obj_0;
    reveal_strlit("object");
    reveal_strlit("Object");
    assert(("object"@).len() == 6 && ("object"@)[0] == 'o');
    assert(("Object"@).len() == 6 && ("Object"@)[0] == 'O');
    reveal_strlit("uuid");
    reveal_strlit("Id");
    assert(("uuid"@).len() == 4 && ("uuid"@)[0] == 'u');
    assert(("Id"@).len() == 2 && ("Id"@)[0] == 'I');
    reveal_strlit("name");
    reveal_strlit("Name");
    assert(("name"@).len() == 4 && ("name"@)[0] == 'n');
    assert(("Name"@).len() == 4 && ("Name"@)[0] == 'N');
    reveal_strlit("email");
    reveal_strlit("Email");
    assert(("email"@).len() == 5 && ("email"@)[0] == 'e');
    assert(("Email"@).len() == 5 && ("Email"@)[0] == 'E');
    reveal_strlit("email_verified");
    reveal_strlit("EmailVerified");
    assert(("email_verified"@).len() == 14 && ("email_verified"@)[0] == 'e');
    assert(("EmailVerified"@).len() == 13 && ("EmailVerified"@)[0] == 'E');
    reveal_strlit("premium");
    reveal_strlit("Premium");
    assert(("premium"@).len() == 7 && ("premium"@)[0] == 'p');
    assert(("Premium"@).len() == 7 && ("Premium"@)[0] == 'P');
    reveal_strlit("master_password_hint");
    reveal_strlit("MasterPasswordHint");
    assert(("master_password_hint"@).len() == 20 && ("master_password_hint"@)[0] == 'm');
    assert(("MasterPasswordHint"@).len() == 18 && ("MasterPasswordHint"@)[0] == 'M');
    reveal_strlit("language");
    reveal_strlit("Culture");
    assert(("language"@).len() == 8 && ("language"@)[0] == 'l');
    assert(("Culture"@).len() == 7 && ("Culture"@)[0] == 'C');
    reveal_strlit("tfa_enabled");
    reveal_strlit("TwoFactorEnabled");
    assert(("tfa_enabled"@).len() == 11 && ("tfa_enabled"@)[0] == 't');
    assert(("TwoFactorEnabled"@).len() == 16 && ("TwoFactorEnabled"@)[0] == 'T');
    reveal_strlit("key");
    reveal_strlit("Key");
    assert(("key"@).len() == 3 && ("key"@)[0] == 'k');
    assert(("Key"@).len() == 3 && ("Key"@)[0] == 'K');
    reveal_strlit("private_key");
    reveal_strlit("PrivateKey");
    assert(("private_key"@).len() == 11 && ("private_key"@)[0] == 'p');
    assert(("PrivateKey"@).len() == 10 && ("PrivateKey"@)[0] == 'P');
    reveal_strlit("security_stamp");
    reveal_strlit("SecurityStamp");
    assert(("security_stamp"@).len() == 14 && ("security_stamp"@)[0] == 's');
    assert(("SecurityStamp"@).len() == 13 && ("SecurityStamp"@)[0] == 'S');
    reveal_strlit("organizations");
    reveal_strlit("Organizations");
    assert(("organizations"@).len() == 13 && ("organizations"@)[0] == 'o');
    assert(("Organizations"@).len() == 13 && ("Organizations"@)[0] == 'O');
    lemma_rt_str_list(f.organizations);
    assert(lookup(o, "object"@, "Object"@) == Some(JsonV::Str(f.object))) by {
        reveal_with_fuel(lookup, 14);
    }
    assert(lookup(o, "uuid"@, "Id"@) == Some(JsonV::Str(f.uuid))) by {
        reveal_with_fuel(lookup, 14);
    }
    assert(lookup(o, "name"@, "Name"@) == Some(JsonV::Str(f.name))) by {
        reveal_with_fuel(lookup, 14);
    }
    assert(lookup(o, "email"@, "Email"@) == Some(JsonV::Str(f.email))) by {
        reveal_with_fuel(lookup, 14);
    }
    assert(lookup(o, "email_verified"@, "EmailVerified"@) == Some(JsonV::Bool(f.email_verified))) by {
        reveal_with_fuel(lookup, 14);
    }
    assert(lookup(o, "premium"@, "Premium"@) == Some(JsonV::Bool(f.premium))) by {
        reveal_with_fuel(lookup, 14);
    }
    assert(lookup(o, "master_password_hint"@, "MasterPasswordHint"@) == Some(j_opt_str(f.master_password_hint))) by {
        reveal_with_fuel(lookup, 14);
    }
    assert(lookup(o, "language"@, "Culture"@) == Some(JsonV::Str(f.language))) by {
        reveal_with_fuel(lookup, 14);
    }
    assert(lookup(o, "tfa_enabled"@, "TwoFactorEnabled"@) == Some(JsonV::Bool(f.tfa_enabled))) by {
        reveal_with_fuel(lookup, 14);
    }
    assert(lookup(o, "key"@, "Key"@) == Some(JsonV::Str(f.key))) by {
        reveal_with_fuel(lookup, 14);
    }
    assert(lookup(o, "private_key"@, "PrivateKey"@) == Some(JsonV::Str(f.private_key))) by {
        reveal_with_fuel(lookup, 14);
    }
    assert(lookup(o, "security_stamp"@, "SecurityStamp"@) == Some(JsonV::Str(f.security_stamp))) by {
        reveal_with_fuel(lookup, 14);
    }
    assert(lookup(o, "organizations"@, "Organizations"@) == Some(JsonV::Arr(enc_str_list(f.organizations)))) by {
        reveal_with_fuel(lookup, 14);
    }
}

/// Encoding then decoding gives the value back, under either naming.
pub proof fn lemma_rt_entry_data(f: CipherEntryDataV, caps: bool)
    ensures
        dec_entry_data(enc_entry_data(f, caps)) == Some(f),
{
    let o = enc_entry_data(f, caps)->Obj_0;
    reveal_strlit("uri");
    reveal_strlit("Uri");
    assert(("uri"@).len() == 3 && ("uri"@)[0] == 'u');
    assert(("Uri"@).len() == 3 && ("Uri"@)[0] == 'U');
    reveal_strlit("uris");
    reveal_strlit("Uris");
    assert(("uris"@).len() == 4 && ("uris"@)[0] == 'u');
    assert(("Uris"@).len() == 4 && ("Uris"@)[0] == 'U');
    reveal_strlit("username");
    reveal_strlit("Username");
    assert(("username"@).len() == 8 && ("username"@)[0] == 'u');
    assert(("Username"@).len() == 8 && ("Username"@)[0] == 'U');
    reveal_strlit("password");
    reveal_strlit("Password");
    assert(("password"@).len() == 8 && ("password"@)[0] == 'p');
    assert(("Password"@).len() == 8 && ("Password"@)[0] == 'P');
    reveal_strlit("password_last_changed");
    reveal_strlit("PasswordRevisionDate");
    assert(("password_last_changed"@).len() == 21 && ("password_last_changed"@)[0] == 'p');
    assert(("PasswordRevisionDate"@).len() == 20 && ("PasswordRevisionDate"@)[0] == 'P');
    reveal_strlit("totp");
    reveal_strlit("Totp");
    assert(("totp"@).len() == 4 && ("totp"@)[0] == 't');
    assert(("Totp"@).len() == 4 && ("Totp"@)[0] == 'T');
    reveal_strlit("name");
    reveal_strlit("Name");
    assert(("name"@).len() == 4 && ("name"@)[0] == 'n');
    assert(("Name"@).len() == 4 && ("Name"@)[0] == 'N');
    reveal_strlit("notes");
    reveal_strlit("Notes");
    assert(("notes"@).len() == 5 && ("notes"@)[0] == 'n');
    assert(("Notes"@).len() == 5 && ("Notes"@)[0] == 'N');
    reveal_strlit("fields");
    reveal_strlit("Fields");
    assert(("fields"@).len() == 6 && ("fields"@)[0] == 'f');
    assert(("Fields"@).len() == 6 && ("Fields"@)[0] == 'F');
    reveal_strlit("password_history");
    reveal_strlit("PasswordHistory");
    assert(("password_history"@).len() == 16 && ("password_history"@)[0] == 'p');
    assert(("PasswordHistory"@).len() == 15 && ("PasswordHistory"@)[0] == 'P');
    if f.uris is Some {
        lemma_rt_uri_list(f.uris.unwrap(), caps);
    }
    if f.fields is Some {
        lemma_rt_fields_list(f.fields.unwrap(), caps);
    }
    if f.password_history is Some {
        lemma_rt_history_list(f.password_history.unwrap(), caps);
    }
    assert(lookup(o, "uri"@, "Uri"@) == Some(j_opt_str(f.uri))) by {
        reveal_with_fuel(lookup, 11);
    }
    assert(lookup(o, "uris"@, "Uris"@) == Some(match f.uris {
        Some(l) => JsonV::Arr(enc_uri_list(l, caps)),
        None => JsonV::Null,
    })) by {
        reveal_with_fuel(lookup, 11);
    }
    assert(lookup(o, "username"@, "Username"@) == Some(JsonV::Str(f.username))) by {
        reveal_with_fuel(lookup, 11);
    }
    assert(lookup(o, "password"@, "Password"@) == Some(JsonV::Str(f.password))) by {
        reveal_with_fuel(lookup, 11);
    }
    assert(lookup(o, "password_last_changed"@, "PasswordRevisionDate"@) == Some(j_opt_str(f.password_last_changed))) by {
        reveal_with_fuel(lookup, 11);
    }
    assert(lookup(o, "totp"@, "Totp"@) == Some(j_opt_str(f.totp))) by {
        reveal_with_fuel(lookup, 11);
    }
    assert(lookup(o, "name"@, "Name"@) == Some(JsonV::Str(f.name))) by {
        reveal_with_fuel(lookup, 11);
    }
    assert(lookup(o, "notes"@, "Notes"@) == Some(j_opt_str(f.notes))) by {
        reveal_with_fuel(lookup, 11);
    }
    assert(lookup(o, "fields"@, "Fields"@) == Some(match f.fields {
        Some(l) => JsonV::Arr(enc_fields_list(l, caps)),
        None => JsonV::Null,
    })) by {
        reveal_with_fuel(lookup, 11);
    }
    assert(lookup(o, "password_history"@, "PasswordHistory"@) == Some(match f.password_history {
        Some(l) => JsonV::Arr(enc_history_list(l, caps)),
        None => JsonV::Null,
    })) by {
        reveal_with_fuel(lookup, 11);
    }
}

/// Encoding then decoding gives the value back, under either naming.
#[verifier::rlimit(100)]
#[verifier::spinoff_prover]
pub proof fn lemma_rt_entry(f: CipherEntryV, caps: bool)
    ensures
        dec_entry(enc_entry(f, caps)) == Some(f.persisted()),
{
    let o = enc_entry(f, caps)->Obj_0;
    reveal_strlit("object");
    reveal_strlit("Object");
    assert(("object"@).len() == 6 && ("object"@)[0] == 'o');
    assert(("Object"@).len() == 6 && ("Object"@)[0] == 'O');
    reveal_strlit("collection_ids");
    reveal_strlit("CollectionIds");
    assert(("collection_ids"@).len() == 14 && ("collection_ids"@)[0] == 'c');
    assert(("CollectionIds"@).len() == 13 && ("CollectionIds"@)[0] == 'C');
    reveal_strlit("folder_id");
    reveal_strlit("FolderId");
    assert(("folder_id"@).len() == 9 && ("folder_id"@)[0] == 'f');
    assert(("FolderId"@).len() == 8 && ("FolderId"@)[0] == 'F');
    reveal_strlit("favorite");
    reveal_strlit("Favorite");
    assert(("favorite"@).len() == 8 && ("favorite"@)[0] == 'f');
    assert(("Favorite"@).len() == 8 && ("Favorite"@)[0] == 'F');
    assert(("FolderId"@)[1] == 'o');
    assert(("Favorite"@)[1] == 'a');
    reveal_strlit("edit");
    reveal_strlit("Edit");
    assert(("edit"@).len() == 4 && ("edit"@)[0] == 'e');
    assert(("Edit"@).len() == 4 && ("Edit"@)[0] == 'E');
    reveal_strlit("uuid");
    reveal_strlit("Id");
    assert(("uuid"@).len() == 4 && ("uuid"@)[0] == 'u');
    assert(("Id"@).len() == 2 && ("Id"@)[0] == 'I');
    reveal_strlit("organization_id");
    reveal_strlit("OrganizationId");
    assert(("organization_id"@).len() == 15 && ("organization_id"@)[0] == 'o');
    assert(("OrganizationId"@).len() == 14 && ("OrganizationId"@)[0] == 'O');
    reveal_strlit("type_");
    reveal_strlit("Type");
    assert(("type_"@).len() == 5 && ("type_"@)[0] == 't');
    assert(("Type"@).len() == 4 && ("Type"@)[0] == 'T');
    reveal_strlit("data");
    reveal_strlit("Data");
    assert(("data"@).len() == 4 && ("data"@)[0] == 'd');
    assert(("Data"@).len() == 4 && ("Data"@)[0] == 'D');
    reveal_strlit("name");
    reveal_strlit("Name");
    assert(("name"@).len() == 4 && ("name"@)[0] == 'n');
    assert(("Name"@).len() == 4 && ("Name"@)[0] == 'N');
    reveal_strlit("notes");
    reveal_strlit("Notes");
    assert(("notes"@).len() == 5 && ("notes"@)[0] == 'n');
    assert(("Notes"@).len() == 5 && ("Notes"@)[0] == 'N');
    reveal_strlit("card");
    reveal_strlit("Card");
    assert(("card"@).len() == 4 && ("card"@)[0] == 'c');
    assert(("Card"@).len() == 4 && ("Card"@)[0] == 'C');
    reveal_strlit("identity");
    reveal_strlit("Identity");
    assert(("identity"@).len() == 8 && ("identity"@)[0] == 'i');
    assert(("Identity"@).len() == 8 && ("Identity"@)[0] == 'I');
    reveal_strlit("secure_note");
    reveal_strlit("SecureNote");
    assert(("secure_note"@).len() == 11 && ("secure_note"@)[0] == 's');
    assert(("SecureNote"@).len() == 10 && ("SecureNote"@)[0] == 'S');
    reveal_strlit("fields");
    reveal_strlit("Fields");
    assert(("fields"@).len() == 6 && ("fields"@)[0] == 'f');
    assert(("Fields"@).len() == 6 && ("Fields"@)[0] == 'F');
    reveal_strlit("password_history");
    reveal_strlit("PasswordHistory");
    assert(("password_history"@).len() == 16 && ("password_history"@)[0] == 'p');
    assert(("PasswordHistory"@).len() == 15 && ("PasswordHistory"@)[0] == 'P');
    reveal_strlit("attachments");
    reveal_strlit("Attachments");
    assert(("attachments"@).len() == 11 && ("attachments"@)[0] == 'a');
    assert(("Attachments"@).len() == 11 && ("Attachments"@)[0] == 'A');
    reveal_strlit("organization_tfa");
    reveal_strlit("OrganizationUseTotp");
    assert(("organization_tfa"@).len() == 16 && ("organization_tfa"@)[0] == 'o');
    assert(("OrganizationUseTotp"@).len() == 19 && ("OrganizationUseTotp"@)[0] == 'O');
    reveal_strlit("last_changed");
    reveal_strlit("RevisionDate");
    assert(("last_changed"@).len() == 12 && ("last_changed"@)[0] == 'l');
    assert(("RevisionDate"@).len() == 12 && ("RevisionDate"@)[0] == 'R');
    lemma_rt_str_list(f.collection_ids);
    lemma_rt_entry_data(f.data, caps);
    if f.fields is Some {
        lemma_rt_fields_list(f.fields.unwrap(), caps);
    }
    if f.password_history is Some {
        lemma_rt_history_list(f.password_history.unwrap(), caps);
    }
    assert(lookup(o, "object"@, "Object"@) == Some(JsonV::Str(f.object))) by {
        reveal_with_fuel(lookup, 20);
    }
    assert(lookup(o, "collection_ids"@, "CollectionIds"@) == Some(JsonV::Arr(enc_str_list(f.collection_ids)))) by {
        reveal_with_fuel(lookup, 20);
    }
    assert(lookup(o, "folder_id"@, "FolderId"@) == Some(j_opt_str(f.folder_id))) by {
        reveal_with_fuel(lookup, 20);
    }
    assert(lookup(o, "favorite"@, "Favorite"@) == Some(JsonV::Bool(f.favorite))) by {
        reveal_with_fuel(lookup, 20);
    }
    assert(lookup(o, "edit"@, "Edit"@) == Some(JsonV::Bool(f.edit))) by {
        reveal_with_fuel(lookup, 20);
    }
    assert(lookup(o, "uuid"@, "Id"@) == Some(JsonV::Str(f.uuid))) by {
        reveal_with_fuel(lookup, 20);
    }
    assert(lookup(o, "organization_id"@, "OrganizationId"@) == Some(j_opt_str(f.organization_id))) by {
        reveal_with_fuel(lookup, 20);
    }
    assert(lookup(o, "type_"@, "Type"@) == Some(JsonV::Num(f.type_))) by {
        reveal_with_fuel(lookup, 20);
    }
    assert(lookup(o, "data"@, "Data"@) == Some(enc_entry_data(f.data, caps))) by {
        reveal_with_fuel(lookup, 20);
    }
    assert(lookup(o, "name"@, "Name"@) == Some(JsonV::Str(f.name))) by {
        reveal_with_fuel(lookup, 20);
    }
    assert(lookup(o, "notes"@, "Notes"@) == Some(j_opt_str(f.notes))) by {
        reveal_with_fuel(lookup, 20);
    }
    assert(lookup(o, "card"@, "Card"@) == Some(j_opt_str(f.card))) by {
        reveal_with_fuel(lookup, 20);
    }
    assert(lookup(o, "identity"@, "Identity"@) == Some(j_opt_str(f.identity))) by {
        reveal_with_fuel(lookup, 20);
    }
    assert(lookup(o, "secure_note"@, "SecureNote"@) == Some(j_opt_str(f.secure_note))) by {
        reveal_with_fuel(lookup, 20);
    }
    assert(lookup(o, "fields"@, "Fields"@) == Some(match f.fields {
        Some(l) => JsonV::Arr(enc_fields_list(l, caps)),
        None => JsonV::Null,
    })) by {
        reveal_with_fuel(lookup, 20);
    }
    assert(lookup(o, "password_history"@, "PasswordHistory"@) == Some(match f.password_history {
        Some(l) => JsonV::Arr(enc_history_list(l, caps)),
        None => JsonV::Null,
    })) by {
        reveal_with_fuel(lookup, 20);
    }
    assert(lookup(o, "attachments"@, "Attachments"@) == Some(j_opt_str(f.attachments))) by {
        reveal_with_fuel(lookup, 20);
    }
    assert(lookup(o, "organization_tfa"@, "OrganizationUseTotp"@) == Some(JsonV::Bool(f.organization_tfa))) by {
        reveal_with_fuel(lookup, 20);
    }
    assert(lookup(o, "last_changed"@, "RevisionDate"@) == Some(JsonV::Str(f.last_changed))) by {
        reveal_with_fuel(lookup, 20);
    }
}

/// Element-wise round trip for lists.
pub proof fn lemma_rt_entry_list(xs: Seq<CipherEntryV>, caps: bool)
    ensures
        dec_entry_list(enc_entry_list(xs, caps)) == Some(Seq::new(xs.len(), |i: int| xs[i].persisted())),
{
    let items = enc_entry_list(xs, caps);
    assert forall|i: int| 0 <= i < items.len() implies dec_entry(#[trigger] items[i]) == Some(
        xs[i].persisted(),
    ) by {
        lemma_rt_entry(xs[i], caps);
    }
    assert(Seq::new(items.len(), |i: int| dec_entry(items[i]).unwrap()) =~= Seq::new(xs.len(), |i: int| xs[i].persisted()));
}

/// Encoding then decoding gives the value back, under either naming.
pub proof fn lemma_rt_vault(f: VaultDataV, caps: bool)
    ensures
        dec_vault(enc_vault(f, caps)) == Some(f.persisted()),
{
    let o = enc_vault(f, caps)->Obj_0;
    reveal_strlit("object");
    reveal_strlit("Object");
    assert(("object"@).len() == 6 && ("object"@)[0] == 'o');
    assert(("Object"@).len() == 6 && ("Object"@)[0] == 'O');
    reveal_strlit("profile");
    reveal_strlit("Profile");
    assert(("profile"@).len() == 7 && ("profile"@)[0] == 'p');
    assert(("Profile"@).len() == 7 && ("Profile"@)[0] == 'P');
    reveal_strlit("folders");
    reveal_strlit("Folders");
    assert(("folders"@).len() == 7 && ("folders"@)[0] == 'f');
    assert(("Folders"@).len() == 7 && ("Folders"@)[0] == 'F');
    reveal_strlit("collections");
    reveal_strlit("Collections");
    assert(("collections"@).len() == 11 && ("collections"@)[0] == 'c');
    assert(("Collections"@).len() == 11 && ("Collections"@)[0] == 'C');
    reveal_strlit("ciphers");
    reveal_strlit("Ciphers");
    assert(("ciphers"@).len() == 7 && ("ciphers"@)[0] == 'c');
    assert(("Ciphers"@).len() == 7 && ("Ciphers"@)[0] == 'C');
    lemma_rt_profile(f.profile, caps);
    lemma_rt_folder_list(f.folders, caps);
    lemma_rt_str_list(f.collections);
    lemma_rt_entry_list(f.ciphers, caps);
    assert(lookup(o, "object"@, "Object"@) == Some(JsonV::Str(f.object))) by {
        reveal_with_fuel(lookup, 6);
    }
    assert(lookup(o, "profile"@, "Profile"@) == Some(enc_profile(f.profile, caps))) by {
        reveal_with_fuel(lookup, 6);
    }
    assert(lookup(o, "folders"@, "Folders"@) == Some(JsonV::Arr(enc_folder_list(f.folders, caps)))) by {
        reveal_with_fuel(lookup, 6);
    }
    assert(lookup(o, "collections"@, "Collections"@) == Some(JsonV::Arr(enc_str_list(f.collections)))) by {
        reveal_with_fuel(lookup, 6);
    }
    assert(lookup(o, "ciphers"@, "Ciphers"@) == Some(JsonV::Arr(enc_entry_list(f.ciphers, caps)))) by {
        reveal_with_fuel(lookup, 6);
    }
}

/// Encoding then decoding a session gives it back without the cipher
/// suite.
pub proof fn lemma_rt_auth(a: AuthDataV)
    ensures
        dec_auth(enc_auth(a)) == Some(a.persisted()),
{
    let o = enc_auth(a)->Obj_0;
    reveal_strlit("access_token");
    reveal_strlit("expires_in");
    reveal_strlit("token_type");
    reveal_strlit("kdf");
    reveal_strlit("kdf_iterations");
    assert(("access_token"@).len() == 12 && ("access_token"@)[0] == 'a');
    assert(("expires_in"@).len() == 10 && ("expires_in"@)[0] == 'e');
    assert(("token_type"@).len() == 10 && ("token_type"@)[0] == 't');
    assert(("kdf"@).len() == 3 && ("kdf"@)[0] == 'k');
    assert(("kdf_iterations"@).len() == 14 && ("kdf_iterations"@)[0] == 'k');
    assert(("kdf_iterations"@)[3] == '_');
    assert(("kdf"@).len() != ("kdf_iterations"@).len());
    assert(lookup(o, "access_token"@, "access_token"@) == Some(JsonV::Str(a.access_token))) by {
        reveal_with_fuel(lookup, 6);
    }
    assert(lookup(o, "expires_in"@, "expires_in"@) == Some(JsonV::Num(a.expires_in))) by {
        reveal_with_fuel(lookup, 6);
    }
    assert(lookup(o, "token_type"@, "token_type"@) == Some(JsonV::Str(a.token_type))) by {
        reveal_with_fuel(lookup, 6);
    }
    assert(lookup(o, "kdf"@, "kdf"@) == Some(JsonV::Num(a.kdf))) by {
        reveal_with_fuel(lookup, 6);
    }
    assert(lookup(o, "kdf_iterations"@, "kdf_iterations"@) == Some(JsonV::Num(a.kdf_iterations)))
        by {
        reveal_with_fuel(lookup, 6);
    }
}

/// The encoder never emits an opaque number node.
pub proof fn lemma_no_raw_fields(x: CipherEntryFieldsV, caps: bool)
    ensures
        no_raw(enc_fields(x, caps)),
{
    let o = enc_fields(x, caps)->Obj_0;

    assert forall|i: int| 0 <= i < o.len() implies no_raw(#[trigger] o[i].1) by {
    }
    lemma_no_raw_obj_all(o);
}

/// The encoder never emits an opaque number node.
pub proof fn lemma_no_raw_history(x: CipherEntryHistoryV, caps: bool)
    ensures
        no_raw(enc_history(x, caps)),
{
    let o = enc_history(x, caps)->Obj_0;

    assert forall|i: int| 0 <= i < o.len() implies no_raw(#[trigger] o[i].1) by {
    }
    lemma_no_raw_obj_all(o);
}

/// The encoder never emits an opaque number node.
pub proof fn lemma_no_raw_uri(x: CipherEntryUriMatchV, caps: bool)
    ensures
        no_raw(enc_uri(x, caps)),
{
    let o = enc_uri(x, caps)->Obj_0;

    assert forall|i: int| 0 <= i < o.len() implies no_raw(#[trigger] o[i].1) by {
    }
    lemma_no_raw_obj_all(o);
}

/// The encoder never emits an opaque number node.
pub proof fn lemma_no_raw_folder(x: FolderV, caps: bool)
    ensures
        no_raw(enc_folder(x, caps)),
{
    let o = enc_folder(x, caps)->Obj_0;

    assert forall|i: int| 0 <= i < o.len() implies no_raw(#[trigger] o[i].1) by {
    }
    lemma_no_raw_obj_all(o);
}

/// The encoder never emits an opaque number node.
pub proof fn lemma_no_raw_profile(x: ProfileV, caps: bool)
    ensures
        no_raw(enc_profile(x, caps)),
{
    let o = enc_profile(x, caps)->Obj_0;
    assert forall|i: int| 0 <= i < enc_str_list(x.organizations).len() implies no_raw(
        #[trigger] enc_str_list(x.organizations)[i],
    ) by {
        assert(enc_str_list(x.organizations)[i] == JsonV::Str(x.organizations[i]));
    }
    lemma_no_raw_list_all(enc_str_list(x.organizations));
    assert forall|i: int| 0 <= i < o.len() implies no_raw(#[trigger] o[i].1) by {
    }
    lemma_no_raw_obj_all(o);
}

/// The encoder never emits an opaque number node.
pub proof fn lemma_no_raw_entry_data(x: CipherEntryDataV, caps: bool)
    ensures
        no_raw(enc_entry_data(x, caps)),
{
    let o = enc_entry_data(x, caps)->Obj_0;
    if x.uris is Some {
    assert forall|i: int| 0 <= i < enc_uri_list(x.uris.unwrap(), caps).len() implies no_raw(
        #[trigger] enc_uri_list(x.uris.unwrap(), caps)[i],
    ) by {
        assert(enc_uri_list(x.uris.unwrap(), caps)[i] == enc_uri(x.uris.unwrap()[i], caps));
        lemma_no_raw_uri(x.uris.unwrap()[i], caps);
    }
    lemma_no_raw_list_all(enc_uri_list(x.uris.unwrap(), caps));
    }
    if x.fields is Some {
    assert forall|i: int| 0 <= i < enc_fields_list(x.fields.unwrap(), caps).len() implies no_raw(
        #[trigger] enc_fields_list(x.fields.unwrap(), caps)[i],
    ) by {
        assert(enc_fields_list(x.fields.unwrap(), caps)[i] == enc_fields(x.fields.unwrap()[i], caps));
        lemma_no_raw_fields(x.fields.unwrap()[i], caps);
    }
    lemma_no_raw_list_all(enc_fields_list(x.fields.unwrap(), caps));
    }
    if x.password_history is Some {
    assert forall|i: int| 0 <= i < enc_history_list(x.password_history.unwrap(), caps).len() implies no_raw(
        #[trigger] enc_history_list(x.password_history.unwrap(), caps)[i],
    ) by {
        assert(enc_history_list(x.password_history.unwrap(), caps)[i] == enc_history(x.password_history.unwrap()[i], caps));
        lemma_no_raw_history(x.password_history.unwrap()[i], caps);
    }
    lemma_no_raw_list_all(enc_history_list(x.password_history.unwrap(), caps));
    }
    assert forall|i: int| 0 <= i < o.len() implies no_raw(#[trigger] o[i].1) by {
    }
    lemma_no_raw_obj_all(o);
}

/// The encoder never emits an opaque number node.
pub proof fn lemma_no_raw_entry(x: CipherEntryV, caps: bool)
    ensures
        no_raw(enc_entry(x, caps)),
{
    let o = enc_entry(x, caps)->Obj_0;
    assert forall|i: int| 0 <= i < enc_str_list(x.collection_ids).len() implies no_raw(
        #[trigger] enc_str_list(x.collection_ids)[i],
    ) by {
        assert(enc_str_list(x.collection_ids)[i] == JsonV::Str(x.collection_ids[i]));
    }
    lemma_no_raw_list_all(enc_str_list(x.collection_ids));
    lemma_no_raw_entry_data(x.data, caps);
    if x.fields is Some {
    assert forall|i: int| 0 <= i < enc_fields_list(x.fields.unwrap(), caps).len() implies no_raw(
        #[trigger] enc_fields_list(x.fields.unwrap(), caps)[i],
    ) by {
        assert(enc_fields_list(x.fields.unwrap(), caps)[i] == enc_fields(x.fields.unwrap()[i], caps));
        lemma_no_raw_fields(x.fields.unwrap()[i], caps);
    }
    lemma_no_raw_list_all(enc_fields_list(x.fields.unwrap(), caps));
    }
    if x.password_history is Some {
    assert forall|i: int| 0 <= i < enc_history_list(x.password_history.unwrap(), caps).len() implies no_raw(
        #[trigger] enc_history_list(x.password_history.unwrap(), caps)[i],
    ) by {
        assert(enc_history_list(x.password_history.unwrap(), caps)[i] == enc_history(x.password_history.unwrap()[i], caps));
        lemma_no_raw_history(x.password_history.unwrap()[i], caps);
    }
    lemma_no_raw_list_all(enc_history_list(x.password_history.unwrap(), caps));
    }
    assert forall|i: int| 0 <= i < o.len() implies no_raw(#[trigger] o[i].1) by {
    }
    lemma_no_raw_obj_all(o);
}

/// The encoder never emits an opaque number node.
pub proof fn lemma_no_raw_vault(x: VaultDataV, caps: bool)
    ensures
        no_raw(enc_vault(x, caps)),
{
    let o = enc_vault(x, caps)->Obj_0;
    lemma_no_raw_profile(x.profile, caps);
    assert forall|i: int| 0 <= i < enc_folder_list(x.folders, caps).len() implies no_raw(
        #[trigger] enc_folder_list(x.folders, caps)[i],
    ) by {
        assert(enc_folder_list(x.folders, caps)[i] == enc_folder(x.folders[i], caps));
        lemma_no_raw_folder(x.folders[i], caps);
    }
    lemma_no_raw_list_all(enc_folder_list(x.folders, caps));
    assert forall|i: int| 0 <= i < enc_str_list(x.collections).len() implies no_raw(
        #[trigger] enc_str_list(x.collections)[i],
    ) by {
        assert(enc_str_list(x.collections)[i] == JsonV::Str(x.collections[i]));
    }
    lemma_no_raw_list_all(enc_str_list(x.collections));
    assert forall|i: int| 0 <= i < enc_entry_list(x.ciphers, caps).len() implies no_raw(
        #[trigger] enc_entry_list(x.ciphers, caps)[i],
    ) by {
        assert(enc_entry_list(x.ciphers, caps)[i] == enc_entry(x.ciphers[i], caps));
        lemma_no_raw_entry(x.ciphers[i], caps);
    }
    lemma_no_raw_list_all(enc_entry_list(x.ciphers, caps));
    assert forall|i: int| 0 <= i < o.len() implies no_raw(#[trigger] o[i].1) by {
    }
    lemma_no_raw_obj_all(o);
}

/// The session encoder never emits an opaque number node.
pub proof fn lemma_no_raw_auth(a: AuthDataV)
    ensures
        no_raw(enc_auth(a)),
{
    let o = enc_auth(a)->Obj_0;
    assert forall|i: int| 0 <= i < o.len() implies no_raw(#[trigger] o[i].1) by {
    }
    lemma_no_raw_obj_all(o);
}

} // verus!
