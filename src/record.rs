use vstd::prelude::*;
use vstd::utf8::encode_utf8;
use crate::timestamp::{chrono_formatted, chrono_parsed, deserialize, serialize, ts_shape, Timestamp};
use crate::tree::{entries_view, find_key, first_key, has_key, lemma_entries_view, lemma_first_key, value_of, Json, JsonV};

verus! {

/// One log line of schema version 2.
#[derive(Debug)]
pub struct LogLine {
    pub log_version: i64,
    pub line_type: String,
    pub code: String,
    pub ts: Timestamp,
    pub pid: i64,
    pub msg: String,
    pub level: String,
    pub invocation_id: String,
    pub thread_name: String,
    pub data: Json,
}

/// What the value under a key of an object is, if the key is there.
pub open spec fn field(t: JsonV, name: Seq<char>) -> Option<JsonV> {
    match t {
        JsonV::Object(x) => if has_key(x, name) {
            Some(value_of(x, name))
        } else {
            None
        },
        _ => None,
    }
}

/// The integer a number holds, where it fits in an `i64`.
pub open spec fn int_of(v: Option<JsonV>) -> Option<i64> {
    match v {
        Some(JsonV::UInt(u)) => if u <= i64::MAX {
            Some(u as i64)
        } else {
            None
        },
        Some(JsonV::Int(i)) => Some(i),
        _ => None,
    }
}

/// The text a string holds.
pub open spec fn str_of(v: Option<JsonV>) -> Option<Seq<char>> {
    match v {
        Some(JsonV::Str(s)) => Some(s),
        _ => None,
    }
}

/// The timestamp a text denotes: exact shape, and a date and time chrono accepts.
pub open spec fn ts_of(s: Seq<char>) -> Option<Timestamp> {
    if ts_shape(encode_utf8(s)) {
        chrono_parsed(s)
    } else {
        None
    }
}

/// The tree has every field of a log line, each of the right kind.
pub open spec fn decodable(t: JsonV) -> bool {
    &&& int_of(field(t, "log_version"@)) is Some
    &&& str_of(field(t, "type"@)) is Some
    &&& str_of(field(t, "code"@)) is Some
    &&& str_of(field(t, "ts"@)) is Some
    &&& ts_of(str_of(field(t, "ts"@))->0) is Some
    &&& int_of(field(t, "pid"@)) is Some
    &&& str_of(field(t, "msg"@)) is Some
    &&& str_of(field(t, "level"@)) is Some
    &&& str_of(field(t, "invocation_id"@)) is Some
    &&& str_of(field(t, "thread_name"@)) is Some
    &&& field(t, "data"@) is Some
}

/// The log line holds exactly the fields of the tree.
pub open spec fn decodes_to(t: JsonV, l: LogLine) -> bool {
    &&& int_of(field(t, "log_version"@)) == Some(l.log_version)
    &&& str_of(field(t, "type"@)) == Some(l.line_type@)
    &&& str_of(field(t, "code"@)) == Some(l.code@)
    &&& ts_of(str_of(field(t, "ts"@))->0) == Some(l.ts)
    &&& int_of(field(t, "pid"@)) == Some(l.pid)
    &&& str_of(field(t, "msg"@)) == Some(l.msg@)
    &&& str_of(field(t, "level"@)) == Some(l.level@)
    &&& str_of(field(t, "invocation_id"@)) == Some(l.invocation_id@)
    &&& str_of(field(t, "thread_name"@)) == Some(l.thread_name@)
    &&& field(t, "data"@) == Some(l.data@)
}

/// The tree of a log line, whose timestamp is written as `ts`.
pub open spec fn line_tree(l: LogLine, ts: Seq<char>) -> JsonV {
    JsonV::Object(
        seq![
            ("log_version"@, JsonV::Int(l.log_version)),
            ("type"@, JsonV::Str(l.line_type@)),
            ("code"@, JsonV::Str(l.code@)),
            ("ts"@, JsonV::Str(ts)),
            ("pid"@, JsonV::Int(l.pid)),
            ("msg"@, JsonV::Str(l.msg@)),
            ("level"@, JsonV::Str(l.level@)),
            ("invocation_id"@, JsonV::Str(l.invocation_id@)),
            ("thread_name"@, JsonV::Str(l.thread_name@)),
            ("data"@, l.data@),
        ],
    )
}

/// The fields whose values the schema fixes hold them.
pub open spec fn values_ok(l: LogLine) -> bool {
    l.log_version == 2 && l.line_type@ == "log_line"@ && allowed_level(l.level@)
}

proof fn lemma_line_tree_field(l: LogLine, f: Seq<char>, p: int)
    requires
        0 <= p < 10,
    ensures
        field(line_tree(l, f), line_tree(l, f)->Object_0[p].0) == Some(
            line_tree(l, f)->Object_0[p].1,
        ),
{
    reveal_strlit("log_version");
    reveal_strlit("type");
    reveal_strlit("code");
    reveal_strlit("ts");
    reveal_strlit("pid");
    reveal_strlit("msg");
    reveal_strlit("level");
    reveal_strlit("invocation_id");
    reveal_strlit("thread_name");
    reveal_strlit("data");
    let x = line_tree(l, f)->Object_0;
    let k = x[p].0;
    assert forall|m: int| 0 <= m < p implies #[trigger] x[m].0 != k by {
        assert(x[m].0.len() != k.len() || x[m].0[0] != k[0] || x[m].0[1] != k[1]);
    }
    assert(first_key(x, k, p));
    lemma_first_key(x, k, p);
}

/// Decoding the tree of a log line gives back its fields, where its timestamp text
/// reads back as its timestamp.
pub proof fn lemma_line_tree_decodes(l: LogLine, f: Seq<char>)
    requires
        ts_of(f) == Some(l.ts),
    ensures
        decodable(line_tree(l, f)),
        decodes_to(line_tree(l, f), l),
{
    reveal_strlit("log_version");
    reveal_strlit("type");
    reveal_strlit("code");
    reveal_strlit("ts");
    reveal_strlit("pid");
    reveal_strlit("msg");
    reveal_strlit("level");
    reveal_strlit("invocation_id");
    reveal_strlit("thread_name");
    reveal_strlit("data");
    let x = line_tree(l, f)->Object_0;
    lemma_line_tree_field(l, f, 0);
    lemma_line_tree_field(l, f, 1);
    lemma_line_tree_field(l, f, 2);
    lemma_line_tree_field(l, f, 3);
    lemma_line_tree_field(l, f, 4);
    lemma_line_tree_field(l, f, 5);
    lemma_line_tree_field(l, f, 6);
    lemma_line_tree_field(l, f, 7);
    lemma_line_tree_field(l, f, 8);
    lemma_line_tree_field(l, f, 9);
    assert(x[0].0 == "log_version"@);
    assert(x[1].0 == "type"@);
    assert(x[2].0 == "code"@);
    assert(x[3].0 == "ts"@);
    assert(x[4].0 == "pid"@);
    assert(x[5].0 == "msg"@);
    assert(x[6].0 == "level"@);
    assert(x[7].0 == "invocation_id"@);
    assert(x[8].0 == "thread_name"@);
    assert(x[9].0 == "data"@);
}

/// Why a tree is not a log line.
#[derive(Clone, Debug, PartialEq, Eq)]
pub enum DecodeError {
    /// The tree is not an object.
    NotAnObject,
    /// The named field is absent.
    Missing(String),
    /// The named field holds a value of the wrong kind.
    WrongKind(String),
}

/// The value under `name` in the entries `x`.
fn lookup<'a>(x: &'a Vec<(String, Json)>, name: &str) -> (r: Option<&'a Json>)
    ensures
        match r {
            Some(v) => field(JsonV::Object(entries_view(x@)), name@) == Some(v@),
            None => field(JsonV::Object(entries_view(x@)), name@) is None,
        },
{
    proof {
        lemma_entries_view(x@);
    }
    let k = name.to_owned();
    match find_key(x, &k) {
        Some(j) => {
            proof {
                lemma_first_key(entries_view(x@), k@, j as int);
            }
            Some(&x[j].1)
        },
        None => None,
    }
}

fn int_field(x: &Vec<(String, Json)>, name: &str) -> (r: Result<i64, DecodeError>)
    ensures
        match r {
            Ok(n) => int_of(field(JsonV::Object(entries_view(x@)), name@)) == Some(n),
            Err(_) => int_of(field(JsonV::Object(entries_view(x@)), name@)) is None,
        },
{
    match lookup(x, name) {
        Some(Json::UInt(u)) => if *u <= i64::MAX as u64 {
            Ok(*u as i64)
        } else {
            Err(DecodeError::WrongKind(name.to_owned()))
        },
        Some(Json::Int(i)) => Ok(*i),
        Some(_) => Err(DecodeError::WrongKind(name.to_owned())),
        None => Err(DecodeError::Missing(name.to_owned())),
    }
}

fn str_field(x: &Vec<(String, Json)>, name: &str) -> (r: Result<String, DecodeError>)
    ensures
        match r {
            Ok(s) => str_of(field(JsonV::Object(entries_view(x@)), name@)) == Some(s@),
            Err(_) => str_of(field(JsonV::Object(entries_view(x@)), name@)) is None,
        },
{
    match lookup(x, name) {
        Some(Json::Str(s)) => Ok(s.clone()),
        Some(_) => Err(DecodeError::WrongKind(name.to_owned())),
        None => Err(DecodeError::Missing(name.to_owned())),
    }
}

/// A log level of the schema.
pub open spec fn allowed_level(s: Seq<char>) -> bool {
    s == "debug"@ || s == "info"@ || s == "warn"@ || s == "error"@
}

/// A field that holds a value other than the schema fixes; the value is carried.
#[derive(Clone, Debug, PartialEq, Eq)]
pub enum FieldError {
    /// `log_version` is not 2.
    LogVersion(i64),
    /// `type` is not `log_line`.
    Type(String),
    /// `level` is none of `debug`, `info`, `warn`, `error`.
    Level(String),
}

impl FieldError {
    /// The name of the offending field.
    pub fn field_name(&self) -> (r: String)
        ensures
            r@ == match self {
                FieldError::LogVersion(_) => "log_version"@,
                FieldError::Type(_) => "type"@,
                FieldError::Level(_) => "level"@,
            },
    {
        proof {
            reveal_strlit("log_version");
            reveal_strlit("type");
            reveal_strlit("level");
        }
        match self {
            FieldError::LogVersion(_) => "log_version".to_owned(),
            FieldError::Type(_) => "type".to_owned(),
            FieldError::Level(_) => "level".to_owned(),
        }
    }
}

impl LogLine {
    /// `e` is the error that `value_test` reports for this log line.
    pub open spec fn value_test_error(&self, e: FieldError) -> bool {
        match e {
            FieldError::LogVersion(v) => v == self.log_version && v != 2,
            FieldError::Type(s) => self.log_version == 2 && s@ == self.line_type@ && s@
                != "log_line"@,
            FieldError::Level(s) => self.log_version == 2 && self.line_type@ == "log_line"@ && s@
                == self.level@ && !allowed_level(s@),
        }
    }

    /// Checks the fields whose values the schema fixes: `log_version`, then `type`,
    /// then `level`; the first that fails is reported.
    pub fn value_test(&self) -> (r: Result<(), FieldError>)
        ensures
            r is Ok <==> values_ok(*self),
            r matches Err(e) ==> self.value_test_error(e),
    {
        if self.log_version != 2 {
            return Err(FieldError::LogVersion(self.log_version));
        }
        let expected = "log_line".to_owned();
        proof {
            reveal_strlit("log_line");
        }
        if self.line_type != expected {
            return Err(FieldError::Type(self.line_type.clone()));
        }
        let debug = "debug".to_owned();
        let info = "info".to_owned();
        let warn = "warn".to_owned();
        let error = "error".to_owned();
        proof {
            reveal_strlit("debug");
            reveal_strlit("info");
            reveal_strlit("warn");
            reveal_strlit("error");
        }
        if self.level == debug || self.level == info || self.level == warn || self.level == error {
            Ok(())
        } else {
            Err(FieldError::Level(self.level.clone()))
        }
    }

    /// The tree of this log line, with the timestamp written by `serialize`; `None`
    /// where the timestamp cannot be written.
    pub fn to_tree(&self) -> (r: Option<Json>)
        ensures
            match r {
                Some(t) => chrono_formatted(self.ts) is Some && t@ == line_tree(
                    *self,
                    chrono_formatted(self.ts)->0,
                ),
                None => chrono_formatted(self.ts) is None,
            },
    {
        let ts = match serialize(&self.ts) {
            Some(ts) => ts,
            None => {
                return None;
            },
        };
        let mut v: Vec<(String, Json)> = Vec::new();
        v.push(("log_version".to_owned(), Json::Int(self.log_version)));
        v.push(("type".to_owned(), Json::Str(self.line_type.clone())));
        v.push(("code".to_owned(), Json::Str(self.code.clone())));
        v.push(("ts".to_owned(), Json::Str(ts)));
        v.push(("pid".to_owned(), Json::Int(self.pid)));
        v.push(("msg".to_owned(), Json::Str(self.msg.clone())));
        v.push(("level".to_owned(), Json::Str(self.level.clone())));
        v.push(("invocation_id".to_owned(), Json::Str(self.invocation_id.clone())));
        v.push(("thread_name".to_owned(), Json::Str(self.thread_name.clone())));
        v.push(("data".to_owned(), self.data.deep_copy()));
        proof {
            lemma_entries_view(v@);
            assert(entries_view(v@) =~= line_tree(*self, chrono_formatted(self.ts)->0)->Object_0);
        }
        Some(Json::Object(v))
    }

    /// Reads a log line from a tree; keys that are not fields of a log line are ignored.
    pub fn from_tree(t: &Json) -> (r: Result<LogLine, DecodeError>)
        ensures
            r is Ok <==> decodable(t@),
            r matches Ok(l) ==> decodes_to(t@, l),
    {
        let x = match t {
            Json::Object(x) => x,
            _ => {
                return Err(DecodeError::NotAnObject);
            },
        };
        proof {
            reveal_strlit("log_version");
            reveal_strlit("type");
            reveal_strlit("code");
            reveal_strlit("ts");
            reveal_strlit("pid");
            reveal_strlit("msg");
            reveal_strlit("level");
            reveal_strlit("invocation_id");
            reveal_strlit("thread_name");
            reveal_strlit("data");
        }
        let log_version = int_field(x, "log_version")?;
        let line_type = str_field(x, "type")?;
        let code = str_field(x, "code")?;
        let ts_text = str_field(x, "ts")?;
        let ts = match deserialize(ts_text.as_str()) {
            Ok(ts) => ts,
            Err(_) => {
                return Err(DecodeError::WrongKind("ts".to_owned()));
            },
        };
        let pid = int_field(x, "pid")?;
        let msg = str_field(x, "msg")?;
        let level = str_field(x, "level")?;
        let invocation_id = str_field(x, "invocation_id")?;
        let thread_name = str_field(x, "thread_name")?;
        let data = match lookup(x, "data") {
            Some(d) => d.deep_copy(),
            None => {
                return Err(DecodeError::Missing("data".to_owned()));
            },
        };
        Ok(LogLine { log_version, line_type, code, ts, pid, msg, level, invocation_id, thread_name, data })
    }
}

/// Checks the fixed fields of every log line, in order; stops at the first that fails.
pub fn check_values(lines: &Vec<LogLine>) -> (r: Result<(), FieldError>)
    ensures
        r is Ok <==> forall|i: int| 0 <= i < lines@.len() ==> values_ok(#[trigger] lines@[i]),
        r matches Err(e) ==> exists|i: int|
            0 <= i < lines@.len() && !values_ok(lines@[i]) && (forall|j: int|
                0 <= j < i ==> values_ok(#[trigger] lines@[j])) && lines@[i].value_test_error(e),
{
    let mut i: usize = 0;
    while i < lines.len()
        invariant
            i <= lines.len(),
            forall|j: int| 0 <= j < i ==> values_ok(#[trigger] lines@[j]),
        decreases lines.len() - i,
    {
        match lines[i].value_test() {
            Ok(()) => {},
            Err(e) => {
                return Err(e);
            },
        }
        i = i + 1;
    }
    Ok(())
}

} // verus!
