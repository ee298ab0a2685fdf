//! The update pipeline: what one drain cycle does with the entries taken
//! off the submission queue.

use vstd::prelude::*;
use vstd::string::StringExecFns;

use crate::matcher::builds;
use crate::reply::{ACStrategy, MatcherError, ReplyType, ReplyTable, update_pairs};

verus! {

/// A learned (pattern, reply) pair on its way to the pattern store.
#[derive(Clone, Debug)]
pub struct EntryUpdate {
    pub pattern: String,
    pub reply: String,
}

impl EntryUpdate {
    /// A copy of this entry.
    pub fn duplicate(&self) -> (r: EntryUpdate)
        ensures
            r == *self,
    {
        EntryUpdate { pattern: self.pattern.clone(), reply: self.reply.clone() }
    }
}

/// The JSON escape of one character, as serde_json writes it: quote and
/// backslash are escaped, backspace, tab, newline, form feed and carriage
/// return get their short escapes, the other controls below 0x20 become
/// `\u00XX` with lower-case hex digits, and every other character is copied.
pub open spec fn json_escape_char(c: char) -> Seq<char> {
    if c == '"' {
        seq!['\\', '"']
    } else if c == '\\' {
        seq!['\\', '\\']
    } else if c == '\u{8}' {
        seq!['\\', 'b']
    } else if c == '\t' {
        seq!['\\', 't']
    } else if c == '\n' {
        seq!['\\', 'n']
    } else if c == '\u{c}' {
        seq!['\\', 'f']
    } else if c == '\r' {
        seq!['\\', 'r']
    } else if (c as u32) < 0x20 {
        let hex = seq!['0', '1', '2', '3', '4', '5', '6', '7', '8', '9', 'a', 'b', 'c', 'd', 'e', 'f'];
        seq!['\\', 'u', '0', '0', hex[(c as u32 / 16) as int], hex[(c as u32 % 16) as int]]
    } else {
        seq![c]
    }
}

/// The escaped contents of a JSON string.
pub open spec fn json_escaped(s: Seq<char>) -> Seq<char>
    decreases s.len(),
{
    if s.len() == 0 {
        seq![]
    } else {
        json_escaped(s.drop_last()) + json_escape_char(s.last())
    }
}

/// `s` as a JSON string literal.
pub open spec fn json_quoted(s: Seq<char>) -> Seq<char> {
    seq!['"'] + json_escaped(s) + seq!['"']
}

/// One log record: `{"pattern":<pattern>,"reply":<reply>}` on one line.
pub open spec fn log_record(pattern: Seq<char>, reply: Seq<char>) -> Seq<char> {
    seq!['{', '"', 'p', 'a', 't', 't', 'e', 'r', 'n', '"', ':'] + json_quoted(pattern) + seq![
        ',',
        '"',
        'r',
        'e',
        'p',
        'l',
        'y',
        '"',
        ':',
    ] + json_quoted(reply) + seq!['}']
}

/// Relies on `serde_json::to_string` on a `str`: the string as a JSON
/// string literal, escaped as `format_escaped_str` does. It fails only on a
/// failing `Serialize` impl or a map with non-string keys, and a `str` has
/// neither.
#[verifier::external_body]
fn encode_str(s: &str) -> (r: Result<String, serde_json::Error>)
    ensures
        r is Ok,
        r matches Ok(t) ==> t@ == json_quoted(s@),
{
    serde_json::to_string(s)
}

#[verifier::external_type_specification]
#[verifier::external_body]
pub struct ExJsonError(serde_json::Error);

/// A string as a JSON string literal.
fn quoted(s: &str) -> (r: String)
    ensures
        r@ == json_quoted(s@),
{
    match encode_str(s) {
        Ok(t) => t,
        Err(_) => String::new(),
    }
}

/// The log line of one accepted entry.
pub fn log_line(entry: &EntryUpdate) -> (r: String)
    ensures
        r@ == log_record(entry.pattern@, entry.reply@),
{
    let p = quoted(entry.pattern.as_str());
    let q = quoted(entry.reply.as_str());
    let mut s = String::from_str("{\"pattern\":");
    s.append(p.as_str());
    s.append(",\"reply\":");
    s.append(q.as_str());
    s.append("}");
    proof {
        reveal_strlit("{\"pattern\":");
        reveal_strlit(",\"reply\":");
        reveal_strlit("}");
    }
    assert(s@ =~= log_record(entry.pattern@, entry.reply@));
    s
}

/// What one drain cycle asks its runner to do: append `records` to the log,
/// in order, and then publish `generation` if there is one.
pub struct DrainPlan {
    pub records: Vec<String>,
    pub generation: Option<Result<ACStrategy, MatcherError>>,
}

/// Plans a drain cycle over the entries dequeued since the last one.
/// With no entries nothing is written and nothing is rebuilt. Otherwise, when
/// `persist` is set, there is one log record per entry, in arrival order, and
/// exactly one new generation is built: the current table with all entries
/// merged in arrival order.
pub fn plan_drain(current: &ACStrategy, drained: &Vec<EntryUpdate>, persist: bool) -> (r: DrainPlan)
    ensures
        drained.len() == 0 ==> r.records.len() == 0 && r.generation is None,
        drained.len() > 0 ==> r.generation is Some,
        r.records.len() == if persist { drained.len() } else { 0 },
        forall|k: int|
            0 <= k < r.records.len() ==> (#[trigger] r.records[k])@ == log_record(
                drained[k].pattern@,
                drained[k].reply@,
            ),
        r.generation matches Some(g) ==> (g is Ok == builds(current.table().add_all(update_pairs(drained@)).patterns)),
        r.generation matches Some(Ok(s)) ==> s.table().wf() && s.matcher_patterns() == s.table().patterns,
        r.generation matches Some(Ok(s)) ==> s.wf() && s.table() == current.table().add_all(update_pairs(drained@)),
{
    let mut records: Vec<String> = Vec::new();
    if persist {
        let mut k: usize = 0;
        while k < drained.len()
            invariant
                0 <= k <= drained.len(),
                records.len() == k,
                forall|m: int|
                    0 <= m < k ==> (#[trigger] records[m])@ == log_record(
                        drained[m].pattern@,
                        drained[m].reply@,
                    ),
            decreases drained.len() - k,
        {
            records.push(log_line(&drained[k]));
            k = k + 1;
        }
    }
    if drained.len() == 0 {
        DrainPlan { records, generation: None }
    } else {
        DrainPlan { records, generation: Some(current.merged(drained)) }
    }
}

} // verus!
