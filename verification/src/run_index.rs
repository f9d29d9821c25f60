//! The run index: how it is resolved, advanced, kept, and used to name log
//! files.

use crate::decimal::{
    decimal_text, decimal_value, lemma_text_is_digits, lemma_text_round_trip, parse_decimal,
    render_decimal,
};
use vstd::prelude::*;
use vstd::slice::slice_to_vec;
use vstd::string::*;

verus! {

/// Name of the counter file, relative to the working directory.
pub const INDEX: &'static str = "log_index";

/// Name of the environment variable that overrides the counter file.
pub const FILE_LOG_INDEX_ENV_VAR: &'static str = "FILE_LOG_INDEX";

/// Stands in for a value of the environment variable that is set but is no
/// text. It is no number, so such a variable counts as set and as zero.
pub const UNREADABLE: &'static str = "";

/// The counter that tells the runs of a program apart.
#[derive(Debug)]
pub struct Index(usize);

impl View for Index {
    type V = nat;

    closed spec fn view(&self) -> nat {
        self.0 as nat
    }
}

/// What a run has to do once its index is settled.
#[derive(Debug)]
pub struct Startup {
    /// The index of this run.
    pub index: Index,
    /// The text to overwrite the counter file with, if it is to be written.
    pub persist: Option<String>,
}

/// One record to append to one log file. Carrying it out turns a file that
/// held `before` into one that holds `appended(before, bytes@)`.
#[derive(Debug)]
pub struct Append {
    /// The file to open, created if missing, in append mode.
    pub path: String,
    /// The bytes to write at its end.
    pub bytes: Vec<u8>,
}

/// The characters of a text that may be absent.
pub open spec fn text_of(t: Option<&str>) -> Option<Seq<char>> {
    match t {
        Some(s) => Some(s@),
        None => None,
    }
}

/// The characters of an owned text that may be absent.
pub open spec fn text_of_owned(t: Option<String>) -> Option<Seq<char>> {
    match t {
        Some(s) => Some(s@),
        None => None,
    }
}

/// The number a text stands for, and zero for a text that stands for none.
pub open spec fn parsed_or_zero(s: Seq<char>) -> nat {
    match decimal_value(s) {
        Some(v) => v as nat,
        None => 0,
    }
}

/// The index that a run starts from: the environment's value where the
/// variable is set, else the counter file's, else zero. A text that is no
/// number counts as zero, and a set variable hides the counter file even then.
pub open spec fn resolved(env: Option<Seq<char>>, stored: Option<Seq<char>>) -> nat {
    match env {
        Some(e) => parsed_or_zero(e),
        None => match stored {
            Some(t) => parsed_or_zero(t),
            None => 0,
        },
    }
}

/// The index of a run: one more than the index it starts from.
pub open spec fn started(env: Option<Seq<char>>, stored: Option<Seq<char>>) -> nat {
    resolved(env, stored) + 1
}

/// The text that a run leaves in the counter file: none where the
/// environment supplied the index, else the decimal text of `run`.
pub open spec fn persisted(env: Option<Seq<char>>, run: nat) -> Option<Seq<char>> {
    match env {
        Some(_) => None,
        None => Some(decimal_text(run)),
    }
}

/// The name of the file that holds the records of `log` with `extension`
/// for the run `run`.
pub open spec fn log_path(log: Seq<char>, run: nat, extension: Seq<char>) -> Seq<char> {
    log + seq!['_'] + decimal_text(run) + seq!['.'] + extension
}

/// A record as it stands in a log file: the payload and one line feed.
pub open spec fn record(data: Seq<u8>) -> Seq<u8> {
    data.push(10u8)
}

/// What a log file holds after `bytes` were appended to it; `before` is
/// `None` for a file that did not exist.
pub open spec fn appended(before: Option<Seq<u8>>, bytes: Seq<u8>) -> Seq<u8> {
    match before {
        Some(content) => content + bytes,
        None => bytes,
    }
}

impl Append {
    /// What a write does with its record once the run index is settled.
    /// Where the counter file could not be saved and nobody has been told
    /// yet, `unsaved` holds that failure: the write reports it and appends
    /// nothing. Otherwise the record is to be appended.
    pub fn or_report<E>(self, unsaved: Option<E>) -> (r: Result<Append, E>)
        ensures
            r == match unsaved {
                Some(failure) => Err::<Append, E>(failure),
                None => Ok::<Append, E>(self),
            },
    {
        match unsaved {
            Some(failure) => Err(failure),
            None => Ok(self),
        }
    }
}

/// Reads a number, taking zero for a text that is none.
fn parse_or_zero(s: &str) -> (r: usize)
    ensures
        r == parsed_or_zero(s@),
{
    match parse_decimal(s) {
        Some(v) => v,
        None => 0,
    }
}

impl Index {
    /// Advances the index by one.
    pub fn next(&mut self)
        requires
            old(self)@ < usize::MAX,
        ensures
            final(self)@ == old(self)@ + 1,
    {
        self.0 = self.0 + 1;
    }

    /// The index that a run starts from, given the value of the environment
    /// variable and the content of the counter file, each `None` where it is
    /// absent.
    pub fn get(env: Option<&str>, stored: Option<&str>) -> (r: Index)
        ensures
            r@ == resolved(text_of(env), text_of(stored)),
    {
        match env {
            Some(e) => Index(parse_or_zero(e)),
            None => match stored {
                Some(t) => Index(parse_or_zero(t)),
                None => Index(0),
            },
        }
    }

    /// The content to save in the counter file: the decimal text of the
    /// index.
    pub fn save(&self) -> (r: String)
        ensures
            r@ == decimal_text(self@),
    {
        render_decimal(self.0)
    }

    /// The value of the index.
    pub fn index(&self) -> (r: usize)
        ensures
            r == self@,
    {
        self.0
    }

    /// Settles the index of a run: resolves it, advances it by one, and
    /// says what to write to the counter file. Nothing is to be written
    /// where the environment supplied the index.
    pub fn start(env: Option<&str>, stored: Option<&str>) -> (r: Startup)
        requires
            started(text_of(env), text_of(stored)) <= usize::MAX,
        ensures
            r.index@ == started(text_of(env), text_of(stored)),
            text_of_owned(r.persist) == persisted(text_of(env), r.index@),
    {
        let mut index = Index::get(env, stored);
        index.next();
        let persist = if env.is_none() {
            Some(index.save())
        } else {
            None
        };
        Startup { index, persist }
    }

    /// The record that logging `data` under `log` with `extension` appends,
    /// and the file it goes to.
    pub fn write_log(&self, log: &str, extension: &str, data: &[u8]) -> (r: Append)
        ensures
            r.path@ == log_path(log@, self@, extension@),
            r.bytes@ == record(data@),
    {
        let mut path = log.to_owned();
        path.append("_");
        let run = render_decimal(self.0);
        path.append(run.as_str());
        path.append(".");
        path.append(extension);
        let mut bytes = slice_to_vec(data);
        bytes.push(10u8);
        proof {
            reveal_strlit("_");
            reveal_strlit(".");
            assert("_"@ =~= seq!['_']);
            assert("."@ =~= seq!['.']);
        }
        Append { path, bytes }
    }
}

/// The index of a run is one more than the number that its source holds,
/// and one where the source holds no number or is absent. The source is the
/// environment variable where it is set, else the counter file.
pub proof fn lemma_run_is_one_more(env: Option<Seq<char>>, stored: Option<Seq<char>>)
    ensures
        ({
            let source = if env is Some { env } else { stored };
            match source {
                Some(t) => match decimal_value(t) {
                    Some(v) => started(env, stored) == v + 1,
                    None => started(env, stored) == 1,
                },
                None => started(env, stored) == 1,
            }
        }),
{
}

/// Where the environment variable is set, the counter file plays no part:
/// whatever it holds, the run starts from the variable's number, and nothing
/// is written back.
pub proof fn lemma_environment_wins(
    e: Seq<char>,
    stored: Option<Seq<char>>,
    other: Option<Seq<char>>,
)
    ensures
        started(Some(e), stored) == started(Some(e), other),
        started(Some(e), stored) == parsed_or_zero(e) + 1,
        persisted(Some(e), started(Some(e), stored)) is None,
{
}

/// A variable that is set but is no text counts as set and as zero: the run
/// has index one, whatever the counter file holds, and nothing is written
/// back.
pub proof fn lemma_unreadable_is_zero(stored: Option<Seq<char>>)
    ensures
        decimal_value(UNREADABLE@) is None,
        started(Some(UNREADABLE@), stored) == 1,
        persisted(Some(UNREADABLE@), started(Some(UNREADABLE@), stored)) is None,
{
    reveal_strlit("");
}

/// What a run leaves in the counter file is where the next run starts: with
/// the environment variable unset in both, the next run's index is one more
/// than this run's.
pub proof fn lemma_runs_follow_on(stored: Option<Seq<char>>)
    requires
        started(None, stored) <= usize::MAX,
    ensures
        persisted(None, started(None, stored)) is Some,
        resolved(None, persisted(None, started(None, stored))) == started(None, stored),
        started(None, persisted(None, started(None, stored))) == started(None, stored) + 1,
{
    lemma_text_round_trip(started(None, stored) as usize);
}

/// Two records appended one after the other stand in the file in that order,
/// each ended by its line feed, after what the file held before.
pub proof fn lemma_records_in_call_order(before: Option<Seq<u8>>, first: Seq<u8>, second: Seq<u8>)
    ensures
        appended(Some(appended(before, record(first))), record(second)) == appended(
            before,
            first + seq![10u8] + second + seq![10u8],
        ),
{
    let held = match before {
        Some(content) => content,
        None => Seq::<u8>::empty(),
    };
    assert(record(first) =~= first + seq![10u8]);
    assert(record(second) =~= second + seq![10u8]);
    assert(appended(before, record(first)) =~= held + first + seq![10u8]);
    assert(appended(Some(appended(before, record(first))), record(second)) =~= held + first
        + seq![10u8] + second + seq![10u8]);
    assert(appended(before, first + seq![10u8] + second + seq![10u8]) =~= held + first
        + seq![10u8] + second + seq![10u8]);
}

/// Two runs never share a log file: under one log name and one extension,
/// different run indices give different paths.
pub proof fn lemma_runs_have_own_files(log: Seq<char>, extension: Seq<char>, run: nat, other: nat)
    requires
        run != other,
    ensures
        log_path(log, run, extension) != log_path(log, other, extension),
{
    let a = decimal_text(run);
    let b = decimal_text(other);
    lemma_text_is_digits(run);
    lemma_text_is_digits(other);
    let p = log_path(log, run, extension);
    let q = log_path(log, other, extension);
    if p == q {
        assert(p.len() == log.len() + 1 + a.len() + 1 + extension.len());
        assert(q.len() == log.len() + 1 + b.len() + 1 + extension.len());
        assert(a.len() == b.len());
        let from: int = log.len() as int + 1;
        assert(a =~= p.subrange(from, from + a.len() as int));
        assert(b =~= q.subrange(from, from + b.len() as int));
        assert(a == b);
    }
}

} // verus!
