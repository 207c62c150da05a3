//! The JSON boundary: a contents model for `serde_json` values, trusted
//! accessors specified against it, the decoder from a wire line to a
//! [`RemoteEnvelope`], and the outbound-payload rules of the viewer side
//! (token injection, origin tagging).

use vstd::prelude::*;
use vstd::string::StringExecFns;
use crate::filter::ScanFilters;
use crate::options::{ScanOptions, ScanPriorityMode, ScanThrottleLevel};
use crate::protocol::{RemoteEnvelope, RemoteRequest, spec_request_id};
use crate::text::str_eq;

verus! {

#[verifier::external_type_specification]
#[verifier::external_body]
pub struct ExValue(serde_json::Value);

/// What a JSON value holds, as a tree of plain values. A number is carried as
/// the decimal text it renders to, which pins it exactly; an object is the
/// map from member names to members (names are unique in a parsed object).
pub enum JsonData {
    Null,
    Bool(bool),
    Num(Seq<char>),
    Str(Seq<char>),
    Arr(Seq<JsonData>),
    Obj(Map<Seq<char>, JsonData>),
}

/// The contents of a `serde_json::Value`.
pub uninterp spec fn json_model(v: serde_json::Value) -> JsonData;

/// Whether `serde_json::from_str::<Value>` accepts this text: a function of
/// the text alone.
pub uninterp spec fn json_ok(s: Seq<char>) -> bool;

/// The contents that parsing this (well-formed) text yields: a function of
/// the text alone (a repeated member name keeps the last value).
pub uninterp spec fn parsed_json(s: Seq<char>) -> JsonData;

/// The one-line text `serde_json` renders these contents to: object members
/// in sorted name order, numbers by their carried text, so a function of the
/// contents alone.
pub uninterp spec fn rendered_json(d: JsonData) -> Seq<char>;

/// What `serde_json::Number::as_u64` yields for the number with this rendered
/// text: a function of the text alone.
pub uninterp spec fn num_u64(t: Seq<char>) -> Option<u64>;

/// Relies on serde_json::from_str::<Value>: parses exactly the well-formed
/// JSON texts, deterministically in the text alone.
#[verifier::external_body]
pub fn json_parse(s: &str) -> (r: Option<serde_json::Value>)
    ensures
        r is Some <==> json_ok(s@),
        r is Some ==> json_model(r->0) == parsed_json(s@),
{
    match serde_json::from_str::<serde_json::Value>(s) {
        Ok(v) => Some(v),
        Err(_) => None,
    }
}

/// Relies on serde_json::Value::get: the member of an object under this key,
/// `None` on an absent member or a non-object.
#[verifier::external_body]
pub fn json_get<'a>(v: &'a serde_json::Value, key: &str) -> (r: Option<&'a serde_json::Value>)
    ensures
        match json_model(*v) {
            JsonData::Obj(m) => {
                &&& (r is Some <==> m.contains_key(key@))
                &&& (r is Some ==> json_model(*r->0) == m[key@])
            },
            _ => r is None,
        },
{
    v.get(key)
}

/// Relies on serde_json::Value::as_str: the value's text exactly when it is a
/// string.
#[verifier::external_body]
pub fn json_str(v: &serde_json::Value) -> (r: Option<String>)
    ensures
        r is Some <==> json_model(*v) is Str,
        r is Some ==> r->0@ == json_model(*v)->Str_0,
{
    match v.as_str() {
        Some(s) => Some(s.to_owned()),
        None => None,
    }
}

/// Relies on serde_json::Value::as_u64: the number as an unsigned integer
/// when it is a non-negative integer in range — a function of the number, and
/// so of its rendered text — and `None` on any other value.
#[verifier::external_body]
pub fn json_u64(v: &serde_json::Value) -> (r: Option<u64>)
    ensures
        r == (match json_model(*v) {
            JsonData::Num(t) => num_u64(t),
            _ => None::<u64>,
        }),
{
    v.as_u64()
}

/// Relies on serde_json::Value::as_array and Value::clone: the value's
/// elements exactly when it is an array (a clone has equal contents).
#[verifier::external_body]
pub fn json_array(v: &serde_json::Value) -> (r: Option<Vec<serde_json::Value>>)
    ensures
        match json_model(*v) {
            JsonData::Arr(items) => r is Some && r->0@.len() == items.len() && (forall|i: int|
                0 <= i < items.len() ==> json_model(#[trigger] r->0@[i]) == items[i]),
            _ => r is None,
        },
{
    match v.as_array() {
        Some(a) => Some(a.clone()),
        None => None,
    }
}

/// Relies on serde_json::Value::is_object.
#[verifier::external_body]
pub fn json_is_object(v: &serde_json::Value) -> (r: bool)
    ensures
        r == (json_model(*v) is Obj),
{
    v.is_object()
}

/// Relies on serde_json::Value::is_null.
#[verifier::external_body]
pub fn json_is_null(v: &serde_json::Value) -> (r: bool)
    ensures
        r == (json_model(*v) is Null),
{
    v.is_null()
}

/// Relies on serde_json::Value::as_object_mut and Map::insert: sets this
/// member of an object to a string; a non-object is left unchanged.
#[verifier::external_body]
pub fn json_insert_string(v: &mut serde_json::Value, key: &str, val: &str)
    ensures
        match json_model(*old(v)) {
            JsonData::Obj(m) => json_model(*final(v)) == JsonData::Obj(
                m.insert(key@, JsonData::Str(val@)),
            ),
            _ => json_model(*final(v)) == json_model(*old(v)),
        },
{
    if let Some(map) = v.as_object_mut() {
        map.insert(key.to_owned(), serde_json::Value::String(val.to_owned()));
    }
}

/// Relies on serde_json::Value's Display: the value rendered as one-line JSON
/// text, a function of the contents (member names come out in sorted order).
#[verifier::external_body]
pub fn json_render(v: &serde_json::Value) -> (r: String)
    ensures
        r@ == rendered_json(json_model(*v)),
{
    format!("{}", v)
}

/// The member under `key`, an absent member reading as JSON null.
pub open spec fn member_or_null(m: Map<Seq<char>, JsonData>, key: Seq<char>) -> JsonData {
    if m.contains_key(key) {
        m[key]
    } else {
        JsonData::Null
    }
}

/// A required string member: its text, or `None` when absent or not a string.
pub open spec fn spec_req_str(m: Map<Seq<char>, JsonData>, key: Seq<char>) -> Option<Seq<char>> {
    match member_or_null(m, key) {
        JsonData::Str(t) => Some(t),
        _ => None,
    }
}

/// An optional string member: absent or null decodes to nothing, a string to
/// its text, anything else is a decode error (the outer `None`).
pub open spec fn spec_opt_str(m: Map<Seq<char>, JsonData>, key: Seq<char>) -> Option<
    Option<Seq<char>>,
> {
    match member_or_null(m, key) {
        JsonData::Null => Some(None),
        JsonData::Str(t) => Some(Some(t)),
        _ => None,
    }
}

/// An optional unsigned member, as [`spec_opt_str`]; a number that is not a
/// non-negative integer in range is a decode error.
pub open spec fn spec_opt_u64(m: Map<Seq<char>, JsonData>, key: Seq<char>) -> Option<Option<u64>> {
    match member_or_null(m, key) {
        JsonData::Null => Some(None),
        JsonData::Num(t) => match num_u64(t) {
            Some(u) => Some(Some(u)),
            None => None,
        },
        _ => None,
    }
}

/// The texts of a string array; `None` when any element is not a string.
pub open spec fn spec_str_items(items: Seq<JsonData>) -> Option<Seq<Seq<char>>>
    decreases items.len(),
{
    if items.len() == 0 {
        Some(Seq::empty())
    } else {
        match (spec_str_items(items.drop_last()), items.last()) {
            (Some(pre), JsonData::Str(t)) => Some(pre.push(t)),
            _ => None,
        }
    }
}

proof fn lemma_str_items_all(items: Seq<JsonData>)
    ensures
        spec_str_items(items) is Some ==> forall|i: int|
            0 <= i < items.len() ==> (#[trigger] items[i]) is Str,
    decreases items.len(),
{
    if items.len() > 0 {
        lemma_str_items_all(items.drop_last());
        if spec_str_items(items) is Some {
            assert(forall|i: int| 0 <= i < items.len() - 1 ==> items[i] == items.drop_last()[i]);
        }
    }
}

/// A required array-of-strings member.
pub open spec fn spec_str_list(m: Map<Seq<char>, JsonData>, key: Seq<char>) -> Option<
    Seq<Seq<char>>,
> {
    match member_or_null(m, key) {
        JsonData::Arr(items) => spec_str_items(items),
        _ => None,
    }
}

/// `o`'s view is exactly the decoded optional text.
pub open spec fn opt_str_matches(o: Option<String>, t: Option<Seq<char>>) -> bool {
    match o {
        Some(s) => t is Some && s@ == t->0,
        None => t is None,
    }
}

/// An object member as an owned string, when present and a string.
fn get_str(v: &serde_json::Value, key: &str) -> (r: Option<String>)
    ensures
        match json_model(*v) {
            JsonData::Obj(m) => {
                &&& (r is Some <==> spec_req_str(m, key@) is Some)
                &&& (r is Some ==> r->0@ == spec_req_str(m, key@)->0)
            },
            _ => r is None,
        },
{
    match json_get(v, key) {
        Some(member) => json_str(member),
        None => None,
    }
}

/// An optional string member (see [`spec_opt_str`]).
fn get_opt_str(v: &serde_json::Value, key: &str) -> (r: Option<Option<String>>)
    ensures
        match json_model(*v) {
            JsonData::Obj(m) => {
                &&& (r is Some <==> spec_opt_str(m, key@) is Some)
                &&& (r is Some ==> opt_str_matches(r->0, spec_opt_str(m, key@)->0))
            },
            _ => r is None,
        },
{
    match json_get(v, key) {
        None => {
            if json_is_object(v) {
                Some(None)
            } else {
                None
            }
        },
        Some(member) => {
            if json_is_null(member) {
                Some(None)
            } else {
                match json_str(member) {
                    Some(s) => Some(Some(s)),
                    None => None,
                }
            }
        },
    }
}

/// An optional unsigned member (see [`spec_opt_u64`]).
fn get_opt_u64(v: &serde_json::Value, key: &str) -> (r: Option<Option<u64>>)
    ensures
        match json_model(*v) {
            JsonData::Obj(m) => r == spec_opt_u64(m, key@),
            _ => r is None,
        },
{
    match json_get(v, key) {
        None => {
            if json_is_object(v) {
                Some(None)
            } else {
                None
            }
        },
        Some(member) => {
            if json_is_null(member) {
                Some(None)
            } else {
                match json_u64(member) {
                    Some(u) => Some(Some(u)),
                    None => None,
                }
            }
        },
    }
}

/// A required array-of-strings member (see [`spec_str_list`]); any non-string
/// element is a decode error.
#[verifier::loop_isolation(false)]
fn get_str_list(v: &serde_json::Value, key: &str) -> (r: Option<Vec<String>>)
    ensures
        match json_model(*v) {
            JsonData::Obj(m) => {
                &&& (r is Some <==> spec_str_list(m, key@) is Some)
                &&& (r is Some ==> crate::filter::views(r->0@) == spec_str_list(m, key@)->0)
            },
            _ => r is None,
        },
{
    let member = match json_get(v, key) {
        Some(member) => member,
        None => {
            return None;
        },
    };
    let arr = match json_array(member) {
        Some(a) => a,
        None => {
            return None;
        },
    };
    let ghost items = json_model(*member)->Arr_0;
    let mut out: Vec<String> = Vec::new();
    proof {
        assert(items.take(0) =~= Seq::<JsonData>::empty());
        assert(spec_str_items(items.take(0)) == Some(Seq::<Seq<char>>::empty()));
        assert(crate::filter::views(out@) =~= Seq::<Seq<char>>::empty());
    }
    let mut i: usize = 0;
    while i < arr.len()
        invariant
            arr@.len() == items.len(),
            forall|k: int| 0 <= k < items.len() ==> json_model(#[trigger] arr@[k]) == items[k],
            i <= items.len(),
            spec_str_items(items.take(i as int)) is Some,
            crate::filter::views(out@) == spec_str_items(items.take(i as int))->0,
        decreases arr@.len() - i,
    {
        proof {
            assert(items.take(i + 1).drop_last() =~= items.take(i as int));
            assert(items.take(i + 1).last() == items[i as int]);
        }
        match json_str(&arr[i]) {
            Some(s) => {
                let ghost old_out = out@;
                out.push(s);
                proof {
                    assert(crate::filter::views(out@) =~= crate::filter::views(old_out).push(
                        items[i as int]->Str_0,
                    ));
                }
            },
            None => {
                proof {
                    lemma_str_items_all(items);
                    if spec_str_items(items) is Some {
                        assert(items[i as int] is Str);
                    }
                }
                return None;
            },
        }
        i = i + 1;
    }
    proof {
        assert(items.take(items.len() as int) =~= items);
    }
    Some(out)
}

/// The priority mode a mode token names.
pub open spec fn spec_priority(t: Seq<char>) -> Option<ScanPriorityMode> {
    if t == "performance"@ {
        Some(ScanPriorityMode::Performance)
    } else if t == "balanced"@ {
        Some(ScanPriorityMode::Balanced)
    } else if t == "low"@ {
        Some(ScanPriorityMode::Low)
    } else {
        None
    }
}

/// The throttle level a level token names.
pub open spec fn spec_throttle(t: Seq<char>) -> Option<ScanThrottleLevel> {
    if t == "off"@ {
        Some(ScanThrottleLevel::Off)
    } else if t == "low"@ {
        Some(ScanThrottleLevel::Low)
    } else if t == "medium"@ {
        Some(ScanThrottleLevel::Medium)
    } else if t == "high"@ {
        Some(ScanThrottleLevel::High)
    } else {
        None
    }
}

fn decode_priority(s: &str) -> (r: Option<ScanPriorityMode>)
    ensures
        r == spec_priority(s@),
{
    if str_eq(s, "performance") {
        Some(ScanPriorityMode::Performance)
    } else if str_eq(s, "balanced") {
        Some(ScanPriorityMode::Balanced)
    } else if str_eq(s, "low") {
        Some(ScanPriorityMode::Low)
    } else {
        None
    }
}

fn decode_throttle(s: &str) -> (r: Option<ScanThrottleLevel>)
    ensures
        r == spec_throttle(s@),
{
    if str_eq(s, "off") {
        Some(ScanThrottleLevel::Off)
    } else if str_eq(s, "low") {
        Some(ScanThrottleLevel::Low)
    } else if str_eq(s, "medium") {
        Some(ScanThrottleLevel::Medium)
    } else if str_eq(s, "high") {
        Some(ScanThrottleLevel::High)
    } else {
        None
    }
}

/// The `options` object decodes: the mode and level tokens name known values,
/// the `filters` member is an object whose six lists are string arrays and
/// whose bounds and patterns, when present, are well-typed.
pub open spec fn options_decodable(m: Map<Seq<char>, JsonData>) -> bool {
    &&& spec_req_str(m, "priorityMode"@) is Some
    &&& spec_priority(spec_req_str(m, "priorityMode"@)->0) is Some
    &&& spec_req_str(m, "throttleLevel"@) is Some
    &&& spec_throttle(spec_req_str(m, "throttleLevel"@)->0) is Some
    &&& member_or_null(m, "filters"@) is Obj
    &&& {
        let fm = member_or_null(m, "filters"@)->Obj_0;
        &&& spec_str_list(fm, "includeExtensions"@) is Some
        &&& spec_str_list(fm, "excludeExtensions"@) is Some
        &&& spec_str_list(fm, "includeNames"@) is Some
        &&& spec_str_list(fm, "excludeNames"@) is Some
        &&& spec_str_list(fm, "includePaths"@) is Some
        &&& spec_str_list(fm, "excludePaths"@) is Some
        &&& spec_opt_u64(fm, "minSizeBytes"@) is Some
        &&& spec_opt_u64(fm, "maxSizeBytes"@) is Some
        &&& spec_opt_str(fm, "includeRegex"@) is Some
        &&& spec_opt_str(fm, "excludeRegex"@) is Some
    }
}

/// `o` is exactly what the `options` object decodes to.
pub open spec fn options_match(m: Map<Seq<char>, JsonData>, o: ScanOptions) -> bool {
    &&& options_decodable(m)
    &&& Some(o.priority_mode) == spec_priority(spec_req_str(m, "priorityMode"@)->0)
    &&& Some(o.throttle_level) == spec_throttle(spec_req_str(m, "throttleLevel"@)->0)
    &&& {
        let fm = member_or_null(m, "filters"@)->Obj_0;
        let f = o.filters;
        &&& crate::filter::views(f.include_extensions@) == spec_str_list(
            fm,
            "includeExtensions"@,
        )->0
        &&& crate::filter::views(f.exclude_extensions@) == spec_str_list(
            fm,
            "excludeExtensions"@,
        )->0
        &&& crate::filter::views(f.include_names@) == spec_str_list(fm, "includeNames"@)->0
        &&& crate::filter::views(f.exclude_names@) == spec_str_list(fm, "excludeNames"@)->0
        &&& crate::filter::views(f.include_paths@) == spec_str_list(fm, "includePaths"@)->0
        &&& crate::filter::views(f.exclude_paths@) == spec_str_list(fm, "excludePaths"@)->0
        &&& f.min_size_bytes == spec_opt_u64(fm, "minSizeBytes"@)->0
        &&& f.max_size_bytes == spec_opt_u64(fm, "maxSizeBytes"@)->0
        &&& opt_str_matches(f.include_regex, spec_opt_str(fm, "includeRegex"@)->0)
        &&& opt_str_matches(f.exclude_regex, spec_opt_str(fm, "excludeRegex"@)->0)
    }
}

/// Decode the `options` object of a `scan` request: the priority mode, the
/// throttle level and the filter criteria are all required, the individual
/// bounds and patterns optional.
pub fn decode_options(v: &serde_json::Value) -> (r: Option<ScanOptions>)
    ensures
        match json_model(*v) {
            JsonData::Obj(m) => {
                &&& (r is Some <==> options_decodable(m))
                &&& (r is Some ==> options_match(m, r->0))
            },
            _ => r is None,
        },
{
    let priority_mode = match get_str(v, "priorityMode") {
        Some(s) => match decode_priority(s.as_str()) {
            Some(m) => m,
            None => {
                return None;
            },
        },
        None => {
            return None;
        },
    };
    let throttle_level = match get_str(v, "throttleLevel") {
        Some(s) => match decode_throttle(s.as_str()) {
            Some(l) => l,
            None => {
                return None;
            },
        },
        None => {
            return None;
        },
    };
    let fv = match json_get(v, "filters") {
        Some(f) => {
            if !json_is_object(f) {
                return None;
            }
            f
        },
        None => {
            return None;
        },
    };
    let include_extensions = match get_str_list(fv, "includeExtensions") {
        Some(l) => l,
        None => {
            return None;
        },
    };
    let exclude_extensions = match get_str_list(fv, "excludeExtensions") {
        Some(l) => l,
        None => {
            return None;
        },
    };
    let include_names = match get_str_list(fv, "includeNames") {
        Some(l) => l,
        None => {
            return None;
        },
    };
    let exclude_names = match get_str_list(fv, "excludeNames") {
        Some(l) => l,
        None => {
            return None;
        },
    };
    let include_paths = match get_str_list(fv, "includePaths") {
        Some(l) => l,
        None => {
            return None;
        },
    };
    let exclude_paths = match get_str_list(fv, "excludePaths") {
        Some(l) => l,
        None => {
            return None;
        },
    };
    let min_size_bytes = match get_opt_u64(fv, "minSizeBytes") {
        Some(o) => o,
        None => {
            return None;
        },
    };
    let max_size_bytes = match get_opt_u64(fv, "maxSizeBytes") {
        Some(o) => o,
        None => {
            return None;
        },
    };
    let include_regex = match get_opt_str(fv, "includeRegex") {
        Some(o) => o,
        None => {
            return None;
        },
    };
    let exclude_regex = match get_opt_str(fv, "excludeRegex") {
        Some(o) => o,
        None => {
            return None;
        },
    };
    Some(
        ScanOptions {
            priority_mode,
            throttle_level,
            filters: ScanFilters {
                include_extensions,
                exclude_extensions,
                include_names,
                exclude_names,
                min_size_bytes,
                max_size_bytes,
                include_regex,
                exclude_regex,
                include_paths,
                exclude_paths,
            },
        },
    )
}

/// A request object decodes: known `action`, a string `path` where the action
/// requires one, well-typed optional members, and decodable `options` on a
/// `scan`.
pub open spec fn request_decodable(m: Map<Seq<char>, JsonData>) -> bool {
    &&& spec_opt_str(m, "token"@) is Some
    &&& spec_opt_str(m, "id"@) is Some
    &&& spec_req_str(m, "action"@) is Some
    &&& {
        let a = spec_req_str(m, "action"@)->0;
        if a == "ping"@ {
            true
        } else if a == "list"@ {
            spec_opt_str(m, "path"@) is Some
        } else if a == "disk"@ {
            spec_req_str(m, "path"@) is Some
        } else if a == "read"@ {
            spec_req_str(m, "path"@) is Some
        } else if a == "scan"@ {
            &&& spec_req_str(m, "path"@) is Some
            &&& match member_or_null(m, "options"@) {
                JsonData::Null => true,
                JsonData::Obj(om) => options_decodable(om),
                _ => false,
            }
        } else if a == "cancel"@ {
            true
        } else if a == "shutdown"@ {
            true
        } else {
            false
        }
    }
}

/// `env` is exactly what the request object decodes to.
pub open spec fn envelope_match(m: Map<Seq<char>, JsonData>, env: RemoteEnvelope) -> bool {
    &&& request_decodable(m)
    &&& opt_str_matches(env.token, spec_opt_str(m, "token"@)->0)
    &&& opt_str_matches(spec_request_id(&env.request), spec_opt_str(m, "id"@)->0)
    &&& {
        let a = spec_req_str(m, "action"@)->0;
        match env.request {
            RemoteRequest::Ping { .. } => a == "ping"@,
            RemoteRequest::List { path, .. } => a == "list"@ && opt_str_matches(
                path,
                spec_opt_str(m, "path"@)->0,
            ),
            RemoteRequest::Disk { path, .. } => a == "disk"@ && path@ == spec_req_str(
                m,
                "path"@,
            )->0,
            RemoteRequest::Read { path, .. } => a == "read"@ && path@ == spec_req_str(
                m,
                "path"@,
            )->0,
            RemoteRequest::Scan { path, options, .. } => a == "scan"@ && path@ == spec_req_str(
                m,
                "path"@,
            )->0 && (match member_or_null(m, "options"@) {
                JsonData::Null => options is None,
                JsonData::Obj(om) => options is Some && options_match(om, options->0),
                _ => false,
            }),
            RemoteRequest::Cancel { .. } => a == "cancel"@,
            RemoteRequest::Shutdown { .. } => a == "shutdown"@,
        }
    }
}

/// Decode one wire line into an envelope. `None` is the protocol error
/// `invalid_json`: the line is not well-formed JSON, not an object, or not a
/// known request shape; `Some` is exactly the decoded envelope.
pub fn decode_request(line: &str) -> (r: Option<RemoteEnvelope>)
    ensures
        !json_ok(line@) ==> r is None,
        json_ok(line@) ==> ({
            let d = parsed_json(line@);
            match r {
                Some(env) => d is Obj && envelope_match(d->Obj_0, env),
                None => !(d is Obj) || !request_decodable(d->Obj_0),
            }
        }),
{
    let v = match json_parse(line) {
        Some(v) => v,
        None => {
            return None;
        },
    };
    if !json_is_object(&v) {
        return None;
    }
    let ghost m = json_model(v)->Obj_0;
    let token = match get_opt_str(&v, "token") {
        Some(t) => t,
        None => {
            return None;
        },
    };
    let id = match get_opt_str(&v, "id") {
        Some(i) => i,
        None => {
            return None;
        },
    };
    let action = match get_str(&v, "action") {
        Some(a) => a,
        None => {
            return None;
        },
    };
    let request = if str_eq(action.as_str(), "ping") {
        RemoteRequest::Ping { id }
    } else if str_eq(action.as_str(), "list") {
        let path = match get_opt_str(&v, "path") {
            Some(p) => p,
            None => {
                return None;
            },
        };
        RemoteRequest::List { id, path }
    } else if str_eq(action.as_str(), "disk") {
        match get_str(&v, "path") {
            Some(path) => RemoteRequest::Disk { id, path },
            None => {
                return None;
            },
        }
    } else if str_eq(action.as_str(), "read") {
        match get_str(&v, "path") {
            Some(path) => RemoteRequest::Read { id, path },
            None => {
                return None;
            },
        }
    } else if str_eq(action.as_str(), "scan") {
        let path = match get_str(&v, "path") {
            Some(p) => p,
            None => {
                return None;
            },
        };
        let options = match json_get(&v, "options") {
            None => None,
            Some(o) => {
                if json_is_null(o) {
                    None
                } else {
                    match decode_options(o) {
                        Some(x) => Some(x),
                        None => {
                            return None;
                        },
                    }
                }
            },
        };
        RemoteRequest::Scan { id, path, options }
    } else if str_eq(action.as_str(), "cancel") {
        RemoteRequest::Cancel { id }
    } else if str_eq(action.as_str(), "shutdown") {
        RemoteRequest::Shutdown { id }
    } else {
        return None;
    };
    Some(RemoteEnvelope { token, request })
}

/// Build one outbound line for the viewer side: a non-object payload is
/// refused; otherwise the stored token is injected unless a `token` member is
/// already present, and the result is the rendered object with the line
/// terminator.
pub fn build_remote_payload(payload: serde_json::Value, token: &Option<String>) -> (r: Option<
    String,
>)
    ensures
        r is Some <==> json_model(payload) is Obj,
        json_model(payload) is Obj ==> ({
            let m = json_model(payload)->Obj_0;
            let injected = match token {
                Some(secret) => if m.contains_key("token"@) {
                    m
                } else {
                    m.insert("token"@, JsonData::Str(secret@))
                },
                None => m,
            };
            r->0@ == rendered_json(JsonData::Obj(injected)) + "\n"@
        }),
{
    let mut value = payload;
    if !json_is_object(&value) {
        return None;
    }
    if let Some(secret) = token {
        let has_token = match json_get(&value, "token") {
            Some(_) => true,
            None => false,
        };
        if !has_token {
            json_insert_string(&mut value, "token", secret.as_str());
        }
    }
    let mut line = json_render(&value);
    line.append("\n");
    Some(line)
}

/// Tag one inbound line from a remote hub with the address it came from, for
/// the local event sink: an object gains an `_address` member, any other
/// well-formed value passes through; an unparseable line is dropped.
pub fn tag_inbound_line(line: &str, address: &str) -> (r: Option<String>)
    ensures
        r is Some <==> json_ok(line@),
        json_ok(line@) ==> r->0@ == rendered_json(
            match parsed_json(line@) {
                JsonData::Obj(m) => JsonData::Obj(m.insert("_address"@, JsonData::Str(address@))),
                d => d,
            },
        ),
{
    let mut v = match json_parse(line) {
        Some(v) => v,
        None => {
            return None;
        },
    };
    json_insert_string(&mut v, "_address", address);
    Some(json_render(&v))
}

} // verus!
