use vstd::prelude::*;
use crate::codec::{encode_tree, encoded_tree, parse_tree, parsed_text};
use crate::diff::{diff, fragment};
use crate::record::{decodable, decodes_to, line_tree, str_of, field, ts_of, DecodeError, LogLine};
use crate::timestamp::chrono_formatted;
use crate::tree::{tree_eq, Json, JsonV};

verus! {

/// The trees of the lines that are JSON, in order.
pub open spec fn json_lines(ls: Seq<String>) -> Seq<JsonV>
    decreases ls.len(),
{
    if ls.len() == 0 {
        Seq::empty()
    } else {
        let p = json_lines(ls.drop_last());
        match parsed_text(ls.last()@) {
            Some(t) => p.push(t),
            None => p,
        }
    }
}

/// The trees of the lines that are JSON and have the shape of a log line, in order.
pub open spec fn record_lines(ls: Seq<String>) -> Seq<JsonV>
    decreases ls.len(),
{
    if ls.len() == 0 {
        Seq::empty()
    } else {
        let p = record_lines(ls.drop_last());
        match parsed_text(ls.last()@) {
            Some(t) => if decodable(t) {
                p.push(t)
            } else {
                p
            },
            None => p,
        }
    }
}

/// The text that the timestamp of a decodable tree is written back as.
pub open spec fn ts_text(t: JsonV) -> Option<Seq<char>> {
    chrono_formatted(ts_of(str_of(field(t, "ts"@))->0)->0)
}

/// A line is left out of the checks: it is not JSON, or not of the shape of a log line.
pub open spec fn excluded(line: Seq<char>) -> bool {
    match parsed_text(line) {
        None => true,
        Some(t) => !decodable(t),
    }
}

/// The tree read back from the text of the log line that a tree decodes to.
pub open spec fn reread(t: JsonV, l: LogLine) -> Option<JsonV> {
    parsed_text(encoded_tree(line_tree(l, ts_text(t)->0)))
}

/// Why a line gave no pair of trees to compare.
#[derive(Clone, Debug, PartialEq, Eq)]
pub enum TwiceError {
    /// The line is not JSON.
    NotJson,
    /// The line is JSON but not a log line.
    NotRecord(DecodeError),
    /// The log line could not be written back and read again.
    Unencodable,
}

/// Keeps the lines that are JSON, as trees, in order.
pub fn well_formed(lines: &Vec<String>) -> (r: Vec<Json>)
    ensures
        r@.len() == json_lines(lines@).len(),
        forall|k: int| 0 <= k < r@.len() ==> #[trigger] r@[k]@ == json_lines(lines@)[k],
{
    let mut out: Vec<Json> = Vec::new();
    let mut i: usize = 0;
    while i < lines.len()
        invariant
            i <= lines.len(),
            out@.len() == json_lines(lines@.subrange(0, i as int)).len(),
            forall|k: int|
                0 <= k < out@.len() ==> #[trigger] out@[k]@ == json_lines(
                    lines@.subrange(0, i as int),
                )[k],
        decreases lines.len() - i,
    {
        let ghost before = lines@.subrange(0, i as int);
        let ghost after = lines@.subrange(0, i + 1);
        assert(after.drop_last() =~= before);
        match parse_tree(lines[i].as_str()) {
            Some(t) => {
                out.push(t);
            },
            None => {},
        }
        i = i + 1;
    }
    assert(lines@.subrange(0, lines@.len() as int) =~= lines@);
    out
}

/// Decodes the lines that are JSON and of the shape of a log line, in order; the
/// others are left out.
pub fn deserialized_input(lines: &Vec<String>) -> (r: Vec<LogLine>)
    ensures
        r@.len() == record_lines(lines@).len(),
        forall|k: int| 0 <= k < r@.len() ==> decodes_to(record_lines(lines@)[k], #[trigger] r@[k]),
{
    let mut out: Vec<LogLine> = Vec::new();
    let mut i: usize = 0;
    while i < lines.len()
        invariant
            i <= lines.len(),
            out@.len() == record_lines(lines@.subrange(0, i as int)).len(),
            forall|k: int|
                0 <= k < out@.len() ==> decodes_to(
                    record_lines(lines@.subrange(0, i as int))[k],
                    #[trigger] out@[k],
                ),
        decreases lines.len() - i,
    {
        let ghost before = lines@.subrange(0, i as int);
        let ghost after = lines@.subrange(0, i + 1);
        assert(after.drop_last() =~= before);
        match parse_tree(lines[i].as_str()) {
            Some(t) => match LogLine::from_tree(&t) {
                Ok(l) => {
                    out.push(l);
                },
                Err(_) => {},
            },
            None => {},
        }
        i = i + 1;
    }
    assert(lines@.subrange(0, lines@.len() as int) =~= lines@);
    out
}

/// Reads a line as a tree, and as a log line that is written back as text and read
/// again as a tree; returns the two trees.
pub fn deserialize_twice(line: &str) -> (r: Result<(Json, Json), TwiceError>)
    ensures
        (r matches Err(TwiceError::NotJson)) <==> parsed_text(line@) is None,
        (r matches Err(TwiceError::NotRecord(_))) <==> (parsed_text(line@) is Some && !decodable(
            parsed_text(line@)->0,
        )),
        r matches Ok((x, y)) ==> {
            &&& parsed_text(line@) == Some(x@)
            &&& decodable(x@)
            &&& ts_text(x@) is Some
            &&& exists|l: LogLine| decodes_to(x@, l) && reread(x@, l) == Some(y@)
        },
        r matches Err(TwiceError::Unencodable) ==> {
            &&& parsed_text(line@) matches Some(t)
            &&& decodable(t)
            &&& (ts_text(t) is None || exists|l: LogLine| decodes_to(t, l) && reread(t, l) is None)
        },
{
    let x = match parse_tree(line) {
        Some(x) => x,
        None => {
            return Err(TwiceError::NotJson);
        },
    };
    let l = match LogLine::from_tree(&x) {
        Ok(l) => l,
        Err(e) => {
            return Err(TwiceError::NotRecord(e));
        },
    };
    let t = match l.to_tree() {
        Some(t) => t,
        None => {
            return Err(TwiceError::Unencodable);
        },
    };
    let text = encode_tree(&t);
    match parse_tree(text.as_str()) {
        Some(y) => {
            assert(decodes_to(x@, l) && reread(x@, l) == Some(y@));
            Ok((x, y))
        },
        None => {
            assert(decodes_to(x@, l) && reread(x@, l) is None);
            Err(TwiceError::Unencodable)
        },
    }
}

/// The line is left out, or its log line reads back as a tree equal to the line's.
pub open spec fn round_trips(line: Seq<char>) -> bool {
    excluded(line) || {
        let t = parsed_text(line)->0;
        &&& ts_text(t) is Some
        &&& forall|l: LogLine| #[trigger]
            decodes_to(t, l) ==> reread(t, l) is Some && tree_eq(t, reread(t, l)->0)
    }
}

/// A line that is JSON but not of the shape of a log line is left out of the checks,
/// and never fails the round trip.
pub proof fn lemma_mismatch_excluded(line: Seq<char>)
    requires
        parsed_text(line) is Some,
        !decodable(parsed_text(line)->0),
    ensures
        excluded(line),
        round_trips(line),
{
}

/// Two log lines that a tree decodes to give the same tree back.
pub proof fn lemma_line_tree_determined(t: JsonV, l1: LogLine, l2: LogLine, f: Seq<char>)
    requires
        decodes_to(t, l1),
        decodes_to(t, l2),
    ensures
        line_tree(l1, f) == line_tree(l2, f),
{
    assert(line_tree(l1, f)->Object_0 =~= line_tree(l2, f)->Object_0);
}

/// A line whose log line lost or changed information on the way back.
#[derive(Debug)]
pub struct RoundTripFailure {
    /// The line as read.
    pub line: String,
    /// The fragment where the two trees differ; `None` where the log line could not be
    /// written back and read again.
    pub fragment: Option<Json>,
}

/// Checks every line that is a log line: read back from its own text, it must give a
/// tree equal to the line's. Other lines are left out. Reports the first line that
/// fails.
pub fn test_deserialize_serialize_is_unchanged(lines: &Vec<String>) -> (r: Result<
    (),
    RoundTripFailure,
>)
    ensures
        r is Ok <==> forall|i: int| 0 <= i < lines@.len() ==> round_trips(#[trigger] lines@[i]@),
        r matches Err(e) ==> exists|i: int|
            0 <= i < lines@.len() && e.line@ == lines@[i]@ && !round_trips(lines@[i]@) && forall|
                j: int,
            | 0 <= j < i ==> round_trips(#[trigger] lines@[j]@),
        r matches Err(e) ==> (e.fragment is Some ==> exists|l: LogLine|
            #[trigger] decodes_to(parsed_text(e.line@)->0, l) && reread(parsed_text(e.line@)->0, l)
                is Some && e.fragment->0@ == fragment(
                parsed_text(e.line@)->0,
                reread(parsed_text(e.line@)->0, l)->0,
            )),
{
    let mut i: usize = 0;
    while i < lines.len()
        invariant
            i <= lines.len(),
            forall|j: int| 0 <= j < i ==> round_trips(#[trigger] lines@[j]@),
        decreases lines.len() - i,
    {
        let line = lines[i].as_str();
        match deserialize_twice(line) {
            Err(TwiceError::NotJson) => {},
            Err(TwiceError::NotRecord(_)) => {},
            Err(TwiceError::Unencodable) => {
                proof {
                    let t = parsed_text(line@)->0;
                    if ts_text(t) is Some {
                        let l = choose|l: LogLine| decodes_to(t, l) && reread(t, l) is None;
                        assert(decodes_to(t, l));
                    }
                }
                return Err(RoundTripFailure { line: lines[i].clone(), fragment: None });
            },
            Ok((x, y)) => {
                let ghost t = x@;
                let ghost l = choose|l: LogLine| decodes_to(t, l) && reread(t, l) == Some(y@);
                match diff(&x, &y) {
                    Ok(()) => {
                        proof {
                            assert forall|l2: LogLine| #[trigger] decodes_to(t, l2) implies reread(
                                t,
                                l2,
                            ) is Some && tree_eq(t, reread(t, l2)->0) by {
                                lemma_line_tree_determined(t, l, l2, ts_text(t)->0);
                            }
                        }
                    },
                    Err(f) => {
                        proof {
                            assert(decodes_to(t, l));
                        }
                        return Err(RoundTripFailure { line: lines[i].clone(), fragment: Some(f) });
                    },
                }
            },
        }
        i = i + 1;
    }
    Ok(())
}

} // verus!
