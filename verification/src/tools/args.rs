//! Tool outcomes, message building, and reading tool arguments.

use vstd::prelude::*;
use crate::json::{Json, JsonValue, json_of_seq, lemma_json_of_seq};
use crate::reals::Real;
use crate::text::{dec_int, dec_nat, push_i64, push_str, push_usize, string_of};

verus! {

/// What a tool call produced: a summary, a JSON document, or a tool-level
/// error message.
pub enum ToolOutcome {
    Text(String),
    Json(JsonValue),
    Error(String),
}

impl ToolOutcome {
    /// `Some(true)` for an error, `None` otherwise (the `isError` field).
    pub fn is_error(&self) -> (r: Option<bool>)
        ensures
            r == if *self is Error { Some(true) } else { None::<bool> },
    {
        match self {
            ToolOutcome::Error(_) => Some(true),
            _ => None,
        }
    }

    /// The message of a summary or an error.
    pub fn message(&self) -> (r: Option<&String>)
        ensures
            r is Some <==> !(*self is Json),
            *self matches ToolOutcome::Text(t) ==> r == Some(&t),
            *self matches ToolOutcome::Error(t) ==> r == Some(&t),
    {
        match self {
            ToolOutcome::Text(t) => Some(t),
            ToolOutcome::Error(t) => Some(t),
            ToolOutcome::Json(_) => None,
        }
    }

    /// The JSON document of a query result.
    pub fn json(&self) -> (r: Option<&JsonValue>)
        ensures
            r is Some <==> *self is Json,
            *self matches ToolOutcome::Json(v) ==> r == Some(&v),
    {
        match self {
            ToolOutcome::Json(v) => Some(v),
            _ => None,
        }
    }
}

/// A tool-level error.
pub fn err(message: String) -> (r: ToolOutcome)
    ensures
        r matches ToolOutcome::Error(m) && m@ == message@,
{
    ToolOutcome::Error(message)
}

/// A summary result.
pub fn ok(summary: String) -> (r: ToolOutcome)
    ensures
        r matches ToolOutcome::Text(m) && m@ == summary@,
{
    ToolOutcome::Text(summary)
}

/// A JSON result.
pub fn ok_json(value: JsonValue) -> (r: ToolOutcome)
    ensures
        r matches ToolOutcome::Json(v) && v@ == value@,
{
    ToolOutcome::Json(value)
}

pub fn cat2(a: &str, b: &str) -> (r: String)
    ensures
        r@ == a@ + b@,
{
    let mut s = string_of(a);
    push_str(&mut s, b);
    s
}

pub fn cat3(a: &str, b: &str, c: &str) -> (r: String)
    ensures
        r@ == a@ + b@ + c@,
{
    let mut s = string_of(a);
    push_str(&mut s, b);
    push_str(&mut s, c);
    s
}

/// `a` followed by the decimal `n` and `b`.
pub fn cat_int(a: &str, n: i64, b: &str) -> (r: String)
    ensures
        r@ == a@ + dec_int(n as int) + b@,
{
    let mut s = string_of(a);
    push_i64(&mut s, n);
    push_str(&mut s, b);
    s
}

/// `a` followed by the decimal `n` and `b`.
pub fn cat_usize(a: &str, n: usize, b: &str) -> (r: String)
    ensures
        r@ == a@ + dec_nat(n as nat) + b@,
{
    let mut s = string_of(a);
    push_usize(&mut s, n);
    push_str(&mut s, b);
    s
}

/// `path: detail` for a per-entry error.
pub fn entry_error(path: &str, detail: &str) -> (r: String)
    ensures
        r@ == path@ + ": "@ + detail@,
{
    cat3(path, ": ", detail)
}

/// `name[i]` for an argument path.
pub fn indexed(name: &str, i: usize) -> (r: String)
    ensures
        r@ == name@ + "["@ + dec_nat(i as nat) + "]"@,
{
    let mut s = string_of(name);
    push_str(&mut s, "[");
    push_usize(&mut s, i);
    push_str(&mut s, "]");
    s
}

// ---------------------------------------------------------------------------
// Argument readers
// ---------------------------------------------------------------------------

/// The string member `key` of `args`.
pub open spec fn spec_arg_str(args: Json, key: Seq<char>) -> Option<Seq<char>> {
    match args.get(key) {
        Some(v) => v.as_str(),
        None => None,
    }
}

/// The integer reading of member `key` (floats truncated toward zero).
pub open spec fn spec_arg_int(args: Json, key: Seq<char>) -> Option<i64> {
    match args.get(key) {
        Some(v) => v.as_int(),
        None => None,
    }
}

/// The float reading of member `key` (integers converted).
pub open spec fn spec_arg_f64(args: Json, key: Seq<char>) -> Option<Real> {
    match args.get(key) {
        Some(v) => v.as_f64(),
        None => None,
    }
}

/// The array member `key`.
pub open spec fn spec_arg_array(args: Json, key: Seq<char>) -> Option<Seq<Json>> {
    match args.get(key) {
        Some(v) => v.as_array(),
        None => None,
    }
}

/// `Missing or invalid '<key>' (expected string)`.
pub open spec fn missing_string(key: Seq<char>) -> Seq<char> {
    "Missing or invalid '"@ + key + "' (expected string)"@
}

/// `Missing or invalid '<key>' (expected integer)`.
pub open spec fn missing_integer(key: Seq<char>) -> Seq<char> {
    "Missing or invalid '"@ + key + "' (expected integer)"@
}

/// `Missing or invalid '<key>' (expected array)`.
pub open spec fn missing_array(key: Seq<char>) -> Seq<char> {
    "Missing or invalid '"@ + key + "' (expected array)"@
}

pub fn arg_str<'a>(args: &'a JsonValue, key: &str) -> (r: Result<&'a String, String>)
    ensures
        r matches Ok(s) ==> spec_arg_str(args@, key@) == Some(s@),
        r is Err <==> spec_arg_str(args@, key@) is None,
        r matches Err(m) ==> m@ == missing_string(key@),
{
    match args.get(key) {
        Some(v) => match v.as_str() {
            Some(s) => Ok(s),
            None => Err(cat3("Missing or invalid '", key, "' (expected string)")),
        },
        None => Err(cat3("Missing or invalid '", key, "' (expected string)")),
    }
}

pub fn arg_opt_str<'a>(args: &'a JsonValue, key: &str) -> (r: Option<&'a String>)
    ensures
        r matches Some(s) ==> spec_arg_str(args@, key@) == Some(s@),
        r is None <==> spec_arg_str(args@, key@) is None,
{
    match args.get(key) {
        Some(v) => v.as_str(),
        None => None,
    }
}

pub fn arg_i64(args: &JsonValue, key: &str) -> (r: Result<i64, String>)
    ensures
        r matches Ok(n) ==> spec_arg_int(args@, key@) == Some(n),
        r is Err <==> spec_arg_int(args@, key@) is None,
        r matches Err(m) ==> m@ == missing_integer(key@),
{
    match args.get(key) {
        Some(v) => match v.as_int() {
            Some(n) => Ok(n),
            None => Err(cat3("Missing or invalid '", key, "' (expected integer)")),
        },
        None => Err(cat3("Missing or invalid '", key, "' (expected integer)")),
    }
}

pub fn arg_opt_i64(args: &JsonValue, key: &str) -> (r: Option<i64>)
    ensures
        r == spec_arg_int(args@, key@),
{
    match args.get(key) {
        Some(v) => v.as_int(),
        None => None,
    }
}

pub fn arg_opt_f64(args: &JsonValue, key: &str) -> (r: Option<Real>)
    ensures
        r == spec_arg_f64(args@, key@),
{
    match args.get(key) {
        Some(v) => v.as_f64(),
        None => None,
    }
}

pub fn arg_array<'a>(args: &'a JsonValue, key: &str) -> (r: Option<&'a Vec<JsonValue>>)
    ensures
        r is Some <==> spec_arg_array(args@, key@) is Some,
        r matches Some(v) ==> json_of_seq(v@) == spec_arg_array(args@, key@)->0,
{
    match args.get(key) {
        Some(v) => v.as_array(),
        None => None,
    }
}

/// Index of the first item that is not a string.
pub open spec fn first_non_string(items: Seq<Json>) -> Option<int> {
    if exists|i: int| 0 <= i < items.len() && items[i].as_str() is None {
        Some(choose|i: int| 0 <= i < items.len() && items[i].as_str() is None
            && forall|j: int| 0 <= j < i ==> items[j].as_str() is Some)
    } else {
        None
    }
}

/// The message `arg_str_array` gives when member `key` is not an array of
/// strings.
pub open spec fn str_array_error(args: Json, key: Seq<char>) -> Seq<char> {
    match spec_arg_array(args, key) {
        None => missing_array(key),
        Some(items) => key + "["@ + dec_nat(first_non_string(items)->0 as nat) + "]"@ + ": expected string"@,
    }
}

/// Index of the first id that `bad` holds of.
pub open spec fn first_where(ids: Seq<Seq<char>>, bad: spec_fn(Seq<char>) -> bool) -> Option<int> {
    if exists|i: int| 0 <= i < ids.len() && bad(ids[i]) {
        Some(choose|i: int| 0 <= i < ids.len() && bad(ids[i]) && forall|j: int| 0 <= j < i ==> !bad(ids[j]))
    } else {
        None
    }
}

/// The first id `bad` holds of is the one a left-to-right scan stops at.
pub proof fn lemma_first_where(ids: Seq<Seq<char>>, bad: spec_fn(Seq<char>) -> bool, i: int)
    requires
        0 <= i < ids.len(),
        bad(ids[i]),
        forall|j: int| 0 <= j < i ==> !bad(ids[j]),
    ensures
        first_where(ids, bad) == Some(i),
{
    let c = choose|c: int| 0 <= c < ids.len() && bad(ids[c]) && forall|j: int| 0 <= j < c ==> !bad(ids[j]);
    assert(0 <= c < ids.len() && bad(ids[c]) && forall|j: int| 0 <= j < c ==> !bad(ids[j]));
    if c < i {
        assert(!bad(ids[c]));
    } else if c > i {
        assert(!bad(ids[i]));
    }
}

/// The strings of member `key`, when it is an array of strings.
pub open spec fn spec_arg_str_array(args: Json, key: Seq<char>) -> Option<Seq<Seq<char>>> {
    match spec_arg_array(args, key) {
        Some(items) => if first_non_string(items) is None {
            Some(items.map_values(|x: Json| x.as_str()->0))
        } else {
            None
        },
        None => None,
    }
}

proof fn lemma_first_non_string(items: Seq<Json>, i: int)
    requires
        0 <= i < items.len(),
        items[i].as_str() is None,
        forall|j: int| 0 <= j < i ==> items[j].as_str() is Some,
    ensures
        first_non_string(items) == Some(i),
{
    let w = choose|k: int| 0 <= k < items.len() && items[k].as_str() is None
        && forall|j: int| 0 <= j < k ==> items[j].as_str() is Some;
    if w < i {
        assert(items[w].as_str() is Some);
    }
    if w > i {
        assert(items[i].as_str() is Some);
    }
}

proof fn lemma_no_non_string(items: Seq<Json>)
    requires
        forall|j: int| 0 <= j < items.len() ==> items[j].as_str() is Some,
    ensures
        first_non_string(items) is None,
{
}

pub fn arg_str_array(args: &JsonValue, key: &str) -> (r: Result<Vec<String>, String>)
    ensures
        r matches Ok(v) ==> spec_arg_str_array(args@, key@) == Some(v@.map_values(|s: String| s@)),
        r is Err <==> spec_arg_str_array(args@, key@) is None,
        r matches Err(m) ==> match spec_arg_array(args@, key@) {
            None => m@ == missing_array(key@),
            Some(items) => m@ == key@ + "["@ + dec_nat(first_non_string(items)->0 as nat) + "]"@ + ": expected string"@,
        },
{
    let arr = match arg_array(args, key) {
        Some(a) => a,
        None => return Err(cat3("Missing or invalid '", key, "' (expected array)")),
    };
    let ghost items = json_of_seq(arr@);
    proof { lemma_json_of_seq(arr@); }
    let mut out: Vec<String> = Vec::new();
    let mut i: usize = 0;
    while i < arr.len()
        invariant
            0 <= i <= arr@.len(),
            items == json_of_seq(arr@),
            spec_arg_array(args@, key@) == Some(items),
            items.len() == arr@.len(),
            forall|j: int| 0 <= j < arr@.len() ==> #[trigger] items[j] == arr@[j]@,
            out@.len() == i,
            forall|j: int| 0 <= j < i ==> items[j].as_str() == Some(#[trigger] out@[j]@),
            forall|j: int| 0 <= j < i ==> (#[trigger] items[j]).as_str() is Some,
        decreases arr.len() - i,
    {
        assert(items[i as int] == arr@[i as int]@);
        match arr[i].as_str() {
            Some(s) => {
                out.push(s.clone());
            },
            None => {
                proof {
                    lemma_first_non_string(items, i as int);
                }
                let p = indexed(key, i);
                return Err(cat2(p.as_str(), ": expected string"));
            },
        }
        i = i + 1;
    }
    proof {
        lemma_no_non_string(items);
        assert(out@.map_values(|s: String| s@) =~= items.map_values(|x: Json| x.as_str()->0));
    }
    Ok(out)
}

} // verus!
