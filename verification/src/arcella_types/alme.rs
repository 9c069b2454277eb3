//! ALME (Arcella Local Management Extensions) protocol definitions: the
//! requests a client sends and the responses the daemon returns.
use vstd::prelude::*;

verus! {

/// A high-level, type-safe ALME command.
#[derive(Debug, Clone, PartialEq, Eq)]
pub enum AlmeCommand {
    /// Ping the server.
    Ping,
    /// Tail the last `n` log lines.
    LogTail { n: usize },
    /// Status of one deployment, or of all of them.
    Status { deployment_id: Option<String> },
    /// List all deployments.
    ModuleList,
    /// Install a module from a path.
    ModuleInstall { path: String },
    /// Deploy from a deployment file.
    ModuleDeploy { file: String },
    /// Start a deployment by ID.
    ModuleStart { deployment_id: String },
    /// Stop a deployment by ID.
    ModuleStop { deployment_id: String },
}

/// An ALME request sent by a client.
#[derive(Debug, Clone, PartialEq, Eq)]
pub struct AlmeRequest {
    pub command: AlmeCommand,
}

/// A JSON document as carried in the `data` field of a response. Numbers
/// keep their decimal text.
#[derive(Debug)]
pub enum JsonValue {
    Null,
    Bool(bool),
    Number(String),
    Text(String),
    Array(Vec<JsonValue>),
    Object(Vec<(String, JsonValue)>),
}

/// An ALME response returned by the server.
#[derive(Debug)]
pub struct AlmeResponse {
    /// Whether the command succeeded.
    pub success: bool,
    /// Human-readable message (e.g. "pong").
    pub message: String,
    /// Optional structured data (status details, log lines, module list).
    pub data: Option<JsonValue>,
}

impl AlmeResponse {
    /// A successful response with `message` and `data`.
    pub fn success(message: &str, data: Option<JsonValue>) -> (r: AlmeResponse)
        ensures
            r.success,
            r.message@ == message@,
            r.data == data,
    {
        AlmeResponse { success: true, message: message.to_string(), data }
    }

    /// A failed response with `message` and no data.
    pub fn error(message: &str) -> (r: AlmeResponse)
        ensures
            !r.success,
            r.message@ == message@,
            r.data is None,
    {
        AlmeResponse { success: false, message: message.to_string(), data: None }
    }
}

/// The value under `key` in a JSON object (its first occurrence); `None`
/// for any other kind of value, or when the key is absent.
pub open spec fn json_field(v: JsonValue, key: Seq<char>) -> Option<JsonValue> {
    match v {
        JsonValue::Object(entries) => first_field(entries@, key),
        _ => None,
    }
}

/// The value of the first entry of `entries` whose key is `key`.
pub open spec fn first_field(entries: Seq<(String, JsonValue)>, key: Seq<char>) -> Option<JsonValue>
    decreases entries.len(),
{
    if entries.len() == 0 {
        None
    } else if entries[0].0@ == key {
        Some(entries[0].1)
    } else {
        first_field(entries.drop_first(), key)
    }
}

/// The strings among `items`, in order (other items are skipped).
pub open spec fn text_items(items: Seq<JsonValue>) -> Seq<Seq<char>>
    decreases items.len(),
{
    if items.len() == 0 {
        Seq::empty()
    } else {
        let rest = text_items(items.drop_last());
        match items.last() {
            JsonValue::Text(s) => rest.push(s@),
            _ => rest,
        }
    }
}

/// The log lines carried by a `log:tail` reply: the strings of the array
/// under `"lines"`; none when there is no such array.
pub open spec fn log_lines_of(data: Option<JsonValue>) -> Seq<Seq<char>> {
    match data {
        Some(d) => match json_field(d, "lines"@) {
            Some(JsonValue::Array(items)) => text_items(items@),
            _ => Seq::empty(),
        },
        None => Seq::empty(),
    }
}

/// The views of a vector of strings.
pub open spec fn texts_view(v: Seq<String>) -> Seq<Seq<char>> {
    v.map_values(|s: String| s@)
}

/// Looks up `key` in a JSON object; see [`json_field`].
pub fn json_get<'a>(v: &'a JsonValue, key: &str) -> (r: Option<&'a JsonValue>)
    ensures
        match r {
            Some(x) => json_field(*v, key@) == Some(*x),
            None => json_field(*v, key@) is None,
        },
{
    match v {
        JsonValue::Object(entries) => {
            let mut i: usize = 0;
            assert(entries@.skip(0) =~= entries@);
            while i < entries.len()
                invariant
                    0 <= i <= entries.len(),
                    json_field(*v, key@) == first_field(entries@, key@),
                    first_field(entries@, key@) == first_field(entries@.skip(i as int), key@),
                decreases entries.len() - i,
            {
                assert(entries@.skip(i as int).drop_first() =~= entries@.skip(i + 1));
                assert(entries@.skip(i as int)[0] == entries@[i as int]);
                if crate::text::same_text(entries[i].0.as_str(), key) {
                    return Some(&entries[i].1);
                }
                i += 1;
            }
            None
        },
        _ => None,
    }
}

/// The strings of a JSON array, in order; see [`text_items`].
pub fn array_texts(items: &Vec<JsonValue>) -> (r: Vec<String>)
    ensures
        texts_view(r@) == text_items(items@),
{
    let mut r: Vec<String> = Vec::new();
    let mut i: usize = 0;
    while i < items.len()
        invariant
            0 <= i <= items.len(),
            texts_view(r@) == text_items(items@.take(i as int)),
        decreases items.len() - i,
    {
        assert(items@.take(i + 1).drop_last() =~= items@.take(i as int));
        match &items[i] {
            JsonValue::Text(s) => {
                r.push(s.clone());
                assert(texts_view(r@) =~= texts_view(r@.drop_last()).push(s@));
            },
            _ => {},
        }
        i += 1;
    }
    assert(items@.take(items.len() as int) =~= items@);
    r
}

/// The log lines carried by a `log:tail` reply; see [`log_lines_of`].
pub fn log_lines(data: &Option<JsonValue>) -> (r: Vec<String>)
    ensures
        texts_view(r@) == log_lines_of(*data),
{
    match data {
        Some(d) => match json_get(d, "lines") {
            Some(JsonValue::Array(items)) => array_texts(items),
            _ => {
                let r: Vec<String> = Vec::new();
                assert(texts_view(r@) =~= Seq::empty());
                r
            },
        },
        None => {
            let r: Vec<String> = Vec::new();
            assert(texts_view(r@) =~= Seq::empty());
            r
        },
    }
}

} // verus!
