//! Durable conversation state.
//!
//! A checkpoint is just the message history: there is no execution-engine state
//! to snapshot. The runtime saves after every append (assistant message, tool
//! results), so a process crash mid-run loses at most the model call in flight;
//! resuming a session picks up with all completed tool work intact.

use std::path::PathBuf;

use vstd::hash_map::StringHashMap;
use vstd::prelude::*;
use vstd::utf8::encode_utf8;

use super::event::{CheckpointError, CheckpointErrorView};
use crate::codec::{
    json_parse_bytes, json_pretty, parse_bytes, render_pretty, storable, MAX_NESTING,
};
use crate::duplicate::copy_all;
use crate::history::{
    decode_history, encode_history, history_json, history_of, history_storable,
    law_histories_are_storable, law_histories_come_back,
};
use crate::json::{Json, JsonView};
use crate::message::{ContentView, Message, MessageView};
use crate::text::concat;

verus! {

/// What the bytes of a checkpoint stand for.
pub open spec fn read_back(bytes: Seq<u8>) -> Result<Seq<MessageView>, CheckpointErrorView> {
    document_read(json_parse_bytes(bytes))
}

/// The history in a checkpoint, of which this is what JSON parsing gave.
pub open spec fn document_read(parsed: Result<JsonView, Seq<char>>) -> Result<
    Seq<MessageView>,
    CheckpointErrorView,
> {
    match parsed {
        Err(words) => Err(CheckpointErrorView::Serde(words)),
        Ok(json) => match history_of(json) {
            Some(messages) => Ok(messages),
            None => Err(CheckpointErrorView::Serde("not a message history"@)),
        },
    }
}

/// A history as the text of a checkpoint. Reading its bytes gives the history
/// back, where all its tool inputs are storable.
pub fn write_checkpoint(messages: &Vec<Message>) -> (r: String)
    ensures
        r@ == json_pretty(history_json(messages.deep_view())),
        history_storable(messages.deep_view(), MAX_NESTING as int) ==> read_back(encode_utf8(r@))
            == Ok::<Seq<MessageView>, CheckpointErrorView>(messages.deep_view()),
{
    let json = encode_history(messages, messages.len());
    proof {
        let all = messages.deep_view();
        assert(all.take(all.len() as int) == all);
        if history_storable(all, MAX_NESTING as int) {
            law_histories_are_storable(all, MAX_NESTING as int);
        }
        law_histories_come_back(all);
    }
    render_pretty(&json)
}

/// The history in the bytes of a checkpoint.
pub fn read_checkpoint(bytes: &[u8]) -> (r: Result<Vec<Message>, CheckpointError>)
    ensures
        match r {
            Ok(messages) => read_back(bytes@) == Ok::<Seq<MessageView>, CheckpointErrorView>(
                messages.deep_view(),
            ),
            Err(error) => read_back(bytes@) == Err::<Seq<MessageView>, CheckpointErrorView>(error@),
        },
{
    read_document(parse_bytes(bytes))
}

/// The history in a checkpoint, of which this is what JSON parsing gave.
pub fn read_document(parsed: Result<Json, String>) -> (r: Result<Vec<Message>, CheckpointError>)
    ensures
        ({
            let parsed = match parsed {
                Ok(json) => Ok::<JsonView, Seq<char>>(json@),
                Err(words) => Err::<JsonView, Seq<char>>(words@),
            };
            match r {
                Ok(messages) => document_read(parsed) == Ok::<
                    Seq<MessageView>,
                    CheckpointErrorView,
                >(messages.deep_view()),
                Err(error) => document_read(parsed) == Err::<
                    Seq<MessageView>,
                    CheckpointErrorView,
                >(error@),
            }
        }),
{
    match parsed {
        Err(words) => Err(CheckpointError::Serde(words)),
        Ok(json) => match decode_history(&json) {
            Some(messages) => Ok(messages),
            None => Err(CheckpointError::Serde("not a message history".to_owned())),
        },
    }
}

/// The sessions of a store, each with its history.
pub type Sessions = Map<Seq<char>, Seq<MessageView>>;

/// In-memory checkpointer: survives across runs within a process. Useful for
/// tests and for multi-turn sessions in a long-lived service.
pub struct MemoryCheckpointer {
    sessions: StringHashMap<Vec<Message>>,
}

impl View for MemoryCheckpointer {
    type V = Sessions;

    closed spec fn view(&self) -> Sessions {
        self.sessions@.map_values(|messages: Vec<Message>| messages.deep_view())
    }
}

impl Default for MemoryCheckpointer {
    fn default() -> (r: MemoryCheckpointer)
        ensures
            r@ == Sessions::empty(),
    {
        let r = MemoryCheckpointer { sessions: StringHashMap::new() };
        assert(r@ == Sessions::empty());
        r
    }
}

impl MemoryCheckpointer {
    /// A store of no sessions.
    pub fn new() -> (r: MemoryCheckpointer)
        ensures
            r@ == Sessions::empty(),
    {
        MemoryCheckpointer::default()
    }

    /// Keeps this history for the session, in place of any other.
    pub fn save(&mut self, session: &str, messages: &Vec<Message>)
        ensures
            final(self)@ == old(self)@.insert(session@, messages.deep_view()),
            final(self)@ == saved(old(self)@, session@, messages.deep_view()),
    {
        self.sessions.insert(session.to_owned(), copy_all(messages));
        assert(self@ == old(self)@.insert(session@, messages.deep_view()));
    }

    /// The history of the session, where there is one.
    pub fn load(&self, session: &str) -> (r: Option<Vec<Message>>)
        ensures
            r.deep_view() == (if self@.contains_key(session@) {
                Some(self@[session@])
            } else {
                None
            }),
            r.deep_view() == loaded(self@, session@),
    {
        match self.sessions.get(session) {
            Some(messages) => Some(copy_all(messages)),
            None => None,
        }
    }

    /// Forgets the session.
    pub fn delete(&mut self, session: &str)
        ensures
            final(self)@ == old(self)@.remove(session@),
            final(self)@ == forgotten(old(self)@, session@),
    {
        self.sessions.remove(session);
        assert(self@ == old(self)@.remove(session@));
    }
}

/// A store that keeps this history for a session, in place of any other.
pub open spec fn saved(
    store: Sessions,
    session: Seq<char>,
    messages: Seq<MessageView>,
) -> Sessions {
    store.insert(session, messages)
}

/// A store that has forgotten a session.
pub open spec fn forgotten(store: Sessions, session: Seq<char>) -> Sessions {
    store.remove(session)
}

/// What a store gives for a session.
pub open spec fn loaded(store: Sessions, session: Seq<char>) -> Option<Seq<MessageView>> {
    if store.contains_key(session) {
        Some(store[session])
    } else {
        None
    }
}

/// A session gives back what was saved last, and nothing once it is deleted;
/// other sessions are not touched.
pub proof fn law_sessions_are_kept_apart(
    store: Sessions,
    session: Seq<char>,
    messages: Seq<MessageView>,
    other: Seq<char>,
)
    requires
        other != session,
    ensures
        loaded(store.insert(session, messages), session) == Some(messages),
        loaded(store.remove(session), session) is None,
        loaded(store.insert(session, messages), other) == loaded(store, other),
        loaded(store.remove(session), other) == loaded(store, other),
{
}

/// The components of a path as `Path::components` gives them, each by its text.
pub uninterp spec fn path_components(path: PathBuf) -> Seq<Seq<char>>;

/// The characters that a file name made here is of.
pub open spec fn is_plain(c: char) -> bool {
    is_safe(c) || c == '%' || c == '.'
}

/// A file name that is one normal component on every platform: letters,
/// digits, dashes, underscores, percent signs and dots, and not just dots.
pub open spec fn plain_name(name: Seq<char>) -> bool {
    &&& forall|i: int| 0 <= i < name.len() ==> is_plain(#[trigger] name[i])
    &&& exists|i: int| 0 <= i < name.len() && #[trigger] name[i] != '.'
}

/// The place of the last dot in a name, or -1.
pub open spec fn last_dot(name: Seq<char>) -> int
    decreases name.len(),
{
    if name.len() == 0 {
        -1
    } else if name.last() == '.' {
        name.len() - 1
    } else {
        last_dot(name.drop_last())
    }
}

/// A name without its extension. A dot at the very start begins none.
pub open spec fn stem(name: Seq<char>) -> Seq<char> {
    if last_dot(name) > 0 {
        name.take(last_dot(name))
    } else {
        name
    }
}

/// `Path::join` with a name of one normal component: the components of the
/// path, and the name.
#[verifier::external_body]
fn join(dir: &PathBuf, name: &str) -> (r: PathBuf)
    requires
        plain_name(name@),
    ensures
        path_components(r) == path_components(*dir).push(name@),
{
    dir.join(name)
}

/// `Path::with_extension` on a path that ends in a file name, which is more than
/// dots without its extension too: the extension of the name is replaced, and a
/// name without one gets it.
#[verifier::external_body]
fn with_extension(path: &PathBuf, extension: &str) -> (r: PathBuf)
    requires
        path_components(*path).len() > 0,
        plain_name(path_components(*path).last()),
        plain_name(stem(path_components(*path).last())),
        plain_name(extension@),
    ensures
        path_components(r) == path_components(*path).drop_last().push(
            stem(path_components(*path).last()) + seq!['.'] + extension@,
        ),
{
    path.with_extension(extension)
}

/// The characters of a session id that go into its file name as they are.
pub open spec fn is_safe(c: char) -> bool {
    ||| 'a' <= c <= 'z'
    ||| 'A' <= c <= 'Z'
    ||| '0' <= c <= '9'
    ||| c == '-'
    ||| c == '_'
}

/// The hexadecimal digit that stands for `d`.
pub open spec fn hex_digit(d: int) -> char {
    if d < 10 {
        ('0' as int + d) as char
    } else {
        ('a' as int + d - 10) as char
    }
}

/// A character as it goes into a file name: itself where it is safe, else a
/// percent sign and its code in six hexadecimal digits.
pub open spec fn escaped(c: char) -> Seq<char> {
    let code = c as int;
    if is_safe(c) {
        seq![c]
    } else {
        seq![
            '%',
            hex_digit(code / 0x100000),
            hex_digit(code / 0x10000 % 16),
            hex_digit(code / 0x1000 % 16),
            hex_digit(code / 0x100 % 16),
            hex_digit(code / 0x10 % 16),
            hex_digit(code % 16),
        ]
    }
}

/// A session id with its unsafe characters escaped.
pub open spec fn safe_id(session: Seq<char>) -> Seq<char>
    decreases session.len(),
{
    if session.len() == 0 {
        Seq::empty()
    } else {
        escaped(session[0]) + safe_id(session.drop_first())
    }
}

/// The file name of a session's checkpoint.
pub open spec fn file_name(session: Seq<char>) -> Seq<char> {
    safe_id(session) + ".json"@
}

fn push_hex(out: &mut String, d: u32)
    requires
        d < 16,
    ensures
        final(out)@ == old(out)@.push(hex_digit(d as int)),
{
    if d < 10 {
        out.push((48 + d as u8) as char);
    } else {
        out.push((87 + d as u8) as char);
    }
}

fn push_escaped(out: &mut String, c: char)
    ensures
        final(out)@ == old(out)@ + escaped(c),
{
    let ghost before = out@;
    if (c >= 'a' && c <= 'z') || (c >= 'A' && c <= 'Z') || (c >= '0' && c <= '9') || c == '-' || c
        == '_' {
        out.push(c);
    } else {
        let code: u32 = c as u32;
        out.push('%');
        push_hex(out, code / 0x100000);
        push_hex(out, code / 0x10000 % 16);
        push_hex(out, code / 0x1000 % 16);
        push_hex(out, code / 0x100 % 16);
        push_hex(out, code / 0x10 % 16);
        push_hex(out, code % 16);
    }
    assert(out@ == before + escaped(c));
}

fn make_safe(session: &str) -> (r: String)
    ensures
        r@ == safe_id(session@),
{
    let mut out = String::new();
    assert(out@ + safe_id(session@.skip(0)) == safe_id(session@)) by {
        assert(session@.skip(0) == session@);
    }
    for c in it: session.chars()
        invariant
            it.seq() == session@,
            out@ + safe_id(session@.skip(it.index())) == safe_id(session@),
    {
        let ghost rest = session@.skip(it.index());
        let ghost before = out@;
        push_escaped(&mut out, c);
        assert(rest[0] == c);
        assert(rest.drop_first() == session@.skip(it.index() + 1));
        assert(before + (escaped(c) + safe_id(rest.drop_first())) == out@ + safe_id(
            rest.drop_first(),
        ));
    }
    assert(session@.skip(session@.len() as int) == Seq::<char>::empty());
    assert(out@ + Seq::<char>::empty() == out@);
    out
}

/// Hexadecimal digits are safe, and differ from each other.
proof fn lemma_hex_digit(d: int, e: int)
    requires
        0 <= d < 16,
        0 <= e < 16,
    ensures
        is_safe(hex_digit(d)),
        hex_digit(d) == hex_digit(e) ==> d == e,
{
}

/// A number below 16 to the sixth is the sum of its six digits.
proof fn lemma_six_digits(n: int)
    requires
        0 <= n < 0x1000000,
    ensures
        0 <= n / 0x100000 < 16,
        n == 0x100000 * (n / 0x100000) + 0x10000 * (n / 0x10000 % 16) + 0x1000 * (n / 0x1000 % 16)
            + 0x100 * (n / 0x100 % 16) + 0x10 * (n / 0x10 % 16) + n % 16,
{
    assert(n / 0x100000 == n / 0x10000 / 16);
    assert(n / 0x10000 == n / 0x1000 / 16);
    assert(n / 0x1000 == n / 0x100 / 16);
    assert(n / 0x100 == n / 0x10 / 16);
}

/// What a character is escaped to is of safe characters and percent signs.
proof fn lemma_escaped(c: char)
    ensures
        escaped(c).len() > 0,
        forall|i: int|
            0 <= i < escaped(c).len() ==> is_safe(#[trigger] escaped(c)[i]) || escaped(c)[i] == '%',
{
    if !is_safe(c) {
        let code = c as int;
        lemma_six_digits(code);
        lemma_hex_digit(code / 0x100000, 0);
        lemma_hex_digit(code / 0x10000 % 16, 0);
        lemma_hex_digit(code / 0x1000 % 16, 0);
        lemma_hex_digit(code / 0x100 % 16, 0);
        lemma_hex_digit(code / 0x10 % 16, 0);
        lemma_hex_digit(code % 16, 0);
    }
}

/// Escaped ids are of safe characters and percent signs, and only the empty one
/// is empty.
proof fn lemma_safe_id(session: Seq<char>)
    ensures
        forall|i: int|
            0 <= i < safe_id(session).len() ==> is_safe(#[trigger] safe_id(session)[i]) || safe_id(
                session,
            )[i] == '%',
        safe_id(session).len() == 0 <==> session.len() == 0,
    decreases session.len(),
{
    if session.len() > 0 {
        lemma_escaped(session[0]);
        lemma_safe_id(session.drop_first());
    }
}

/// The six digits say which character was escaped.
proof fn lemma_escapes_differ(a: char, b: char)
    requires
        !is_safe(a),
        !is_safe(b),
        escaped(a) == escaped(b),
    ensures
        a == b,
{
    let x = escaped(a);
    let y = escaped(b);
    let m = a as int;
    let n = b as int;
    lemma_six_digits(m);
    lemma_six_digits(n);
    assert(x[1] == y[1] && x[2] == y[2] && x[3] == y[3] && x[4] == y[4] && x[5] == y[5] && x[6]
        == y[6]);
    lemma_hex_digit(m / 0x100000, n / 0x100000);
    lemma_hex_digit(m / 0x10000 % 16, n / 0x10000 % 16);
    lemma_hex_digit(m / 0x1000 % 16, n / 0x1000 % 16);
    lemma_hex_digit(m / 0x100 % 16, n / 0x100 % 16);
    lemma_hex_digit(m / 0x10 % 16, n / 0x10 % 16);
    lemma_hex_digit(m % 16, n % 16);
}

/// Different ids stay different when they are escaped.
proof fn lemma_safe_ids_differ(a: Seq<char>, b: Seq<char>)
    requires
        safe_id(a) == safe_id(b),
    ensures
        a == b,
    decreases a.len(),
{
    lemma_safe_id(a);
    lemma_safe_id(b);
    if a.len() > 0 {
        let x = escaped(a[0]);
        let y = escaped(b[0]);
        let s = safe_id(a);
        let t = safe_id(b);
        assert(s[0] == x[0] && t[0] == y[0]);
        assert(s.take(x.len() as int) == x);
        assert(t.take(y.len() as int) == y);
        assert(is_safe(a[0]) == is_safe(b[0]));
        if !is_safe(a[0]) {
            lemma_escapes_differ(a[0], b[0]);
        }
        assert(s.skip(x.len() as int) == safe_id(a.drop_first()));
        assert(t.skip(y.len() as int) == safe_id(b.drop_first()));
        lemma_safe_ids_differ(a.drop_first(), b.drop_first());
        assert(a == seq![a[0]] + a.drop_first());
        assert(b == seq![b[0]] + b.drop_first());
    } else {
        assert(a == b);
    }
}

proof fn lemma_file_name(session: Seq<char>)
    ensures
        plain_name(file_name(session)),
        last_dot(file_name(session)) == safe_id(session).len(),
        plain_name(stem(file_name(session))),
        plain_name("json.tmp"@),
{
    reveal_strlit(".json");
    reveal_strlit("json.tmp");
    let name = file_name(session);
    let n = safe_id(session).len() as int;
    lemma_safe_id(session);
    assert(".json"@.len() == 5);
    assert(".json"@[0] == '.' && ".json"@[1] == 'j' && ".json"@[2] == 's' && ".json"@[3] == 'o'
        && ".json"@[4] == 'n');
    assert(name.len() == n + 5);
    assert(name[n] == '.' && name[n + 1] == 'j' && name[n + 2] == 's' && name[n + 3] == 'o' && name[
        n + 4] == 'n');
    assert forall|i: int| 0 <= i < name.len() implies is_plain(#[trigger] name[i]) by {
        if i < n {
            assert(name[i] == safe_id(session)[i]);
        } else {
            assert(name[i] == ".json"@[i - n]);
        }
    }
    reveal_with_fuel(last_dot, 6);
    let a = name.drop_last();
    let b = a.drop_last();
    let c = b.drop_last();
    let d = c.drop_last();
    assert(name.last() == 'n' && a.last() == 'o' && b.last() == 's' && c.last() == 'j' && d.last()
        == '.');
    assert(last_dot(name) == n);
    assert(plain_name(stem(name))) by {
        if n > 0 {
            assert(stem(name) == safe_id(session));
            assert(stem(name)[0] != '.');
        } else {
            assert(stem(name) == name);
        }
    }
    let tmp = "json.tmp"@;
    assert(tmp.len() == 8);
    assert(tmp[0] == 'j' && tmp[1] == 's' && tmp[2] == 'o' && tmp[3] == 'n' && tmp[4] == '.'
        && tmp[5] == 't' && tmp[6] == 'm' && tmp[7] == 'p');
}

/// The file name of what is written before it becomes a checkpoint.
pub open spec fn temp_name(session: Seq<char>) -> Seq<char> {
    stem(file_name(session)) + seq!['.'] + "json.tmp"@
}

/// File-based checkpointer: one JSON file per session in a directory.
/// Writes go to a temp file first and are renamed into place, so a crash
/// mid-write never corrupts the previous checkpoint.
pub struct FileCheckpointer {
    dir: PathBuf,
}

impl FileCheckpointer {
    /// The components of the directory.
    pub closed spec fn dir_components(self) -> Seq<Seq<char>> {
        path_components(self.dir)
    }

    /// A store in this directory.
    pub fn new(dir: PathBuf) -> (r: FileCheckpointer)
        ensures
            r.dir_components() == path_components(dir),
    {
        FileCheckpointer { dir }
    }

    /// The directory.
    pub fn dir(&self) -> (r: &PathBuf)
        ensures
            path_components(*r) == self.dir_components(),
    {
        &self.dir
    }

    /// The file of a session. Session ids become file names; anything
    /// path-hostile is escaped, so that every session has a file of its own.
    pub fn path(&self, session: &str) -> (r: PathBuf)
        ensures
            path_components(r) == self.dir_components().push(file_name(session@)),
    {
        proof {
            lemma_file_name(session@);
        }
        join(&self.dir, concat(make_safe(session).as_str(), ".json").as_str())
    }

    /// The file that is written first, and then renamed to
    /// [`FileCheckpointer::path`].
    pub fn temp_path(&self, session: &str) -> (r: PathBuf)
        ensures
            path_components(r) == self.dir_components().push(temp_name(session@)),
    {
        let path = self.path(session);
        proof {
            lemma_file_name(session@);
            assert(path_components(path).drop_last() == self.dir_components());
        }
        with_extension(&path, "json.tmp")
    }
}

/// How to store a history so that a crash never tears it: make the directory,
/// write the data to the temp file, rename that to the path.
#[derive(Debug)]
pub struct SavePlan {
    pub dir: PathBuf,
    pub temp: PathBuf,
    pub path: PathBuf,
    pub data: String,
}

/// What such a plan says.
#[verifier::ext_equal]
pub struct SavePlanView {
    pub dir: Seq<Seq<char>>,
    pub temp: Seq<Seq<char>>,
    pub path: Seq<Seq<char>>,
    pub data: Seq<char>,
}

impl View for SavePlan {
    type V = SavePlanView;

    open spec fn view(&self) -> SavePlanView {
        SavePlanView {
            dir: path_components(self.dir),
            temp: path_components(self.temp),
            path: path_components(self.path),
            data: self.data@,
        }
    }
}

impl SavePlanView {
    /// The plan for a session in a directory.
    pub open spec fn of(dir: Seq<Seq<char>>, session: Seq<char>, messages: Seq<MessageView>) -> SavePlanView {
        SavePlanView {
            dir,
            temp: dir.push(temp_name(session)),
            path: dir.push(file_name(session)),
            data: json_pretty(history_json(messages)),
        }
    }
}

/// Why a file could not be read or removed.
#[derive(Debug)]
pub enum FileFailure {
    NotFound,
    Other(String),
}

/// What such a failure says.
#[verifier::ext_equal]
pub enum FileFailureView {
    NotFound,
    Other(Seq<char>),
}

impl View for FileFailure {
    type V = FileFailureView;

    open spec fn view(&self) -> FileFailureView {
        match *self {
            FileFailure::NotFound => FileFailureView::NotFound,
            FileFailure::Other(words) => FileFailureView::Other(words@),
        }
    }
}

/// What reading a session's file comes to. No file is no history, and no error.
pub open spec fn file_read(outcome: Result<Seq<u8>, FileFailureView>) -> Result<
    Option<Seq<MessageView>>,
    CheckpointErrorView,
> {
    match outcome {
        Ok(bytes) => match read_back(bytes) {
            Ok(messages) => Ok(Some(messages)),
            Err(error) => Err(error),
        },
        Err(FileFailureView::NotFound) => Ok(None),
        Err(FileFailureView::Other(words)) => Err(CheckpointErrorView::Io(words)),
    }
}

/// What the failure to remove a session's file comes to: to delete what is not
/// there is no error.
pub open spec fn removal_failed(failure: Option<FileFailureView>) -> Option<CheckpointErrorView> {
    match failure {
        Some(FileFailureView::Other(words)) => Some(CheckpointErrorView::Io(words)),
        _ => None,
    }
}

impl FileCheckpointer {
    /// How to store the history of a session.
    pub fn save(&self, session: &str, messages: &Vec<Message>) -> (r: SavePlan)
        ensures
            r@ == SavePlanView::of(self.dir_components(), session@, messages.deep_view()),
            history_storable(messages.deep_view(), MAX_NESTING as int) ==> read_back(
                encode_utf8(r@.data),
            ) == Ok::<Seq<MessageView>, CheckpointErrorView>(messages.deep_view()),
    {
        SavePlan {
            dir: self.dir.clone(),
            temp: self.temp_path(session),
            path: self.path(session),
            data: write_checkpoint(messages),
        }
    }

    /// What reading the file of a session comes to.
    pub fn load(outcome: Result<Vec<u8>, FileFailure>) -> (r: Result<
        Option<Vec<Message>>,
        CheckpointError,
    >)
        ensures
            ({
                let read = file_read(
                    match outcome {
                        Ok(bytes) => Ok::<Seq<u8>, FileFailureView>(bytes@),
                        Err(failure) => Err::<Seq<u8>, FileFailureView>(failure@),
                    },
                );
                match r {
                    Ok(history) => read == Ok::<Option<Seq<MessageView>>, CheckpointErrorView>(
                        history.deep_view(),
                    ),
                    Err(error) => read == Err::<Option<Seq<MessageView>>, CheckpointErrorView>(
                        error@,
                    ),
                }
            }),
    {
        match outcome {
            Ok(bytes) => match read_checkpoint(bytes.as_slice()) {
                Ok(messages) => Ok(Some(messages)),
                Err(error) => Err(error),
            },
            Err(FileFailure::NotFound) => Ok(None),
            Err(FileFailure::Other(words)) => Err(CheckpointError::Io(words)),
        }
    }

    /// What removing the file of a session comes to: to delete what is not
    /// there is no error.
    pub fn delete(outcome: Result<(), FileFailure>) -> (r: Result<(), CheckpointError>)
        ensures
            r is Err <==> (outcome matches Err(failure) && failure is Other),
            removal_failed(
                match outcome {
                    Ok(()) => None,
                    Err(failure) => Some(failure@),
                },
            ) == (match r {
                Ok(()) => None,
                Err(error) => Some(error@),
            }),
            r matches Err(error) ==> (outcome matches Err(FileFailure::Other(words)) && error@
                == CheckpointErrorView::Io(words@)),
    {
        match outcome {
            Err(FileFailure::Other(words)) => Err(CheckpointError::Io(words)),
            _ => Ok(()),
        }
    }
}

/// The files of a disk, each with its text.
pub type Files = Map<Seq<Seq<char>>, Seq<char>>;

/// How far a plan has been carried out when the process stops.
pub enum Progress {
    /// No file has been touched.
    Untouched,
    /// This much stands in the temp file: any text, where the write was torn.
    Written(Seq<char>),
    /// The temp file has been renamed.
    Renamed,
}

/// The files when a plan has been carried out so far. A rename puts the new file
/// in place of the old one in one step.
pub open spec fn files_at(files: Files, plan: SavePlanView, progress: Progress) -> Files {
    match progress {
        Progress::Untouched => files,
        Progress::Written(text) => files.insert(plan.temp, text),
        Progress::Renamed => files.remove(plan.temp).insert(plan.path, plan.data),
    }
}

/// A crash never corrupts a checkpoint: wherever the saving of a session stops,
/// its own checkpoint is the previous one as it was or the new one whole, and
/// that of every other session is as it was.
pub proof fn law_crash_never_corrupts_a_checkpoint(
    files: Files,
    dir: Seq<Seq<char>>,
    session: Seq<char>,
    messages: Seq<MessageView>,
    progress: Progress,
    other: Seq<char>,
)
    ensures
        ({
            let plan = SavePlanView::of(dir, session, messages);
            let after = files_at(files, plan, progress);
            let path = dir.push(file_name(other));
            ||| after.contains_key(path) == files.contains_key(path) && after[path] == files[path]
            ||| other == session && progress is Renamed && after.contains_key(path) && after[path]
                == plan.data
        }),
{
    law_checkpoints_stay_in_their_directory(session, other);
    let plan = SavePlanView::of(dir, session, messages);
    let path = dir.push(file_name(other));
    assert(plan.temp.last() == temp_name(session));
    assert(path.last() == file_name(other));
    assert(plan.temp != path);
    if path == plan.path {
        assert(plan.path.last() == file_name(session));
        law_sessions_have_their_own_files(session, other);
    }
}

/// Whatever a session is called, its checkpoint lies in the directory itself
/// under one plain file name, and what is written on the way has another name
/// there, which is no session's checkpoint.
pub proof fn law_checkpoints_stay_in_their_directory(session: Seq<char>, other: Seq<char>)
    ensures
        plain_name(file_name(session)),
        temp_name(session) != file_name(other),
        temp_name(session) == (if session.len() == 0 {
            file_name(session) + ".json.tmp"@
        } else {
            safe_id(session) + ".json.tmp"@
        }),
{
    lemma_file_name(session);
    lemma_file_name(other);
    reveal_strlit(".json");
    reveal_strlit("json.tmp");
    reveal_strlit(".json.tmp");
    assert(".json"@.len() == 5 && ".json"@[4] == 'n');
    assert("json.tmp"@.len() == 8 && "json.tmp"@[7] == 'p');
    assert(seq!['.'] + "json.tmp"@ == ".json.tmp"@);
    assert(temp_name(session).last() == 'p');
    assert(file_name(other).last() == 'n');
    let base = stem(file_name(session));
    lemma_safe_id(session);
    if session.len() > 0 {
        assert(base == safe_id(session));
    } else {
        assert(base == file_name(session));
    }
    assert(base + seq!['.'] + "json.tmp"@ == base + (seq!['.'] + "json.tmp"@));
}

/// No two sessions share a file, whatever they are called, nor what is written
/// on the way to one.
pub proof fn law_sessions_have_their_own_files(a: Seq<char>, b: Seq<char>)
    requires
        file_name(a) == file_name(b) || temp_name(a) == temp_name(b),
    ensures
        a == b,
{
    if file_name(a) == file_name(b) {
        let n = ".json"@.len() as int;
        assert(file_name(a).take(file_name(a).len() - n) == safe_id(a));
        assert(file_name(b).take(file_name(b).len() - n) == safe_id(b));
        lemma_safe_ids_differ(a, b);
    } else {
        law_checkpoints_stay_in_their_directory(a, b);
        law_checkpoints_stay_in_their_directory(b, a);
        lemma_safe_id(a);
        lemma_safe_id(b);
        reveal_strlit(".json");
        let n = ".json.tmp"@.len() as int;
        let x = temp_name(a).take(temp_name(a).len() - n);
        let y = temp_name(b).take(temp_name(b).len() - n);
        assert(x == if a.len() == 0 {
            file_name(a)
        } else {
            safe_id(a)
        });
        assert(y == if b.len() == 0 {
            file_name(b)
        } else {
            safe_id(b)
        });
        assert(a.len() == 0 ==> x[0] == '.');
        assert(b.len() == 0 ==> y[0] == '.');
        if a.len() > 0 && b.len() > 0 {
            lemma_safe_ids_differ(a, b);
        } else {
            assert(a == b);
        }
    }
}

/// Reading a stored session gives the history in its bytes; no file is no history
/// and no error; other failures are told as they are.
pub proof fn law_files_are_read_as_they_are(
    bytes: Seq<u8>,
    messages: Seq<MessageView>,
    words: Seq<char>,
)
    ensures
        json_parse_bytes(bytes) == Ok::<JsonView, Seq<char>>(history_json(messages)) ==> file_read(
            Ok(bytes),
        ) == Ok::<Option<Seq<MessageView>>, CheckpointErrorView>(Some(messages)),
        json_parse_bytes(bytes) == Err::<JsonView, Seq<char>>(words) ==> file_read(Ok(bytes))
            == Err::<Option<Seq<MessageView>>, CheckpointErrorView>(
            CheckpointErrorView::Serde(words),
        ),
        json_parse_bytes(bytes) matches Ok(json) ==> (history_of(json) is None ==> (file_read(
            Ok(bytes),
        ) matches Err(error) && error is Serde)),
        file_read(Err(FileFailureView::NotFound)) == Ok::<
            Option<Seq<MessageView>>,
            CheckpointErrorView,
        >(None),
        file_read(Err(FileFailureView::Other(words))) == Err::<
            Option<Seq<MessageView>>,
            CheckpointErrorView,
        >(CheckpointErrorView::Io(words)),
{
    law_histories_come_back(messages);
}

/// A plan stores the whole history: its text is that of JSON from which the
/// history is read back, and it goes to a file in the directory by way of another
/// file there.
pub proof fn law_plans_store_the_whole_history(
    dir: Seq<Seq<char>>,
    session: Seq<char>,
    messages: Seq<MessageView>,
)
    ensures
        ({
            let plan = SavePlanView::of(dir, session, messages);
            &&& plan.dir == dir
            &&& plan.path.drop_last() == dir
            &&& plan.temp.drop_last() == dir
            &&& plan.path != plan.temp
            &&& plan.path.last() == file_name(session)
            &&& exists|json: JsonView|
                plan.data == #[trigger] json_pretty(json) && history_of(json) == Some(messages)
        }),
{
    let plan = SavePlanView::of(dir, session, messages);
    law_checkpoints_stay_in_their_directory(session, session);
    law_histories_come_back(messages);
    assert(plan.path.drop_last() == dir);
    assert(plan.temp.drop_last() == dir);
    assert(plan.path.last() == file_name(session));
    assert(plan.temp.last() == temp_name(session));
    assert(plan.data == json_pretty(history_json(messages)));
}

/// Letters, digits, dashes and underscores go into the file name as they are, so
/// that a session of these alone has a file of its own name.
pub proof fn law_plain_ids_are_their_file_names(session: Seq<char>)
    requires
        forall|i: int|
            0 <= i < session.len() ==> {
                let c = #[trigger] session[i];
                'a' <= c <= 'z' || 'A' <= c <= 'Z' || '0' <= c <= '9' || c == '-' || c == '_'
            },
    ensures
        file_name(session) == session + ".json"@,
{
    lemma_plain_id(session);
}

proof fn lemma_plain_id(session: Seq<char>)
    requires
        forall|i: int| 0 <= i < session.len() ==> is_safe(#[trigger] session[i]),
    ensures
        safe_id(session) == session,
    decreases session.len(),
{
    if session.len() > 0 {
        let rest = session.drop_first();
        assert forall|i: int| 0 <= i < rest.len() implies is_safe(#[trigger] rest[i]) by {
            assert(rest[i] == session[i + 1]);
        }
        lemma_plain_id(rest);
        assert(seq![session[0]] + rest == session);
    }
}

/// No file name holds a separator, a drive mark, a blank or a control character.
pub proof fn law_file_names_hold_nothing_hostile(session: Seq<char>, i: int)
    requires
        0 <= i < file_name(session).len(),
    ensures
        ({
            let c = file_name(session)[i];
            &&& c != '/' && c != '\\' && c != ':' && c != ' '
            &&& ' ' < c && (c as int) < 127
        }),
{
    lemma_file_name(session);
    assert(is_plain(file_name(session)[i]));
}

/// A store gives back what was saved last for a session, whole, and nothing once
/// the session is forgotten or where nothing was saved; other sessions are left
/// alone.
pub proof fn law_stores_give_back_what_was_saved_last(
    store: Sessions,
    session: Seq<char>,
    first: Seq<MessageView>,
    last: Seq<MessageView>,
    other: Seq<char>,
)
    ensures
        loaded(saved(store, session, last), session) == Some(last),
        loaded(saved(saved(store, session, first), session, last), session) == Some(last),
        loaded(forgotten(saved(store, session, last), session), session) is None,
        loaded(forgotten(store, session), session) is None,
        other != session ==> loaded(saved(store, session, last), other) == loaded(store, other),
        other != session ==> loaded(forgotten(store, session), other) == loaded(store, other),
        loaded(Sessions::empty(), session) is None,
{
}

/// To delete what is not there is no error, and any other failure is told.
pub proof fn law_deleting_what_is_not_there_is_no_error(words: Seq<char>)
    ensures
        removal_failed(None) is None,
        removal_failed(Some(FileFailureView::NotFound)) is None,
        removal_failed(Some(FileFailureView::Other(words))) == Some(CheckpointErrorView::Io(words)),
{
}

/// The number that a hexadecimal digit stands for.
pub open spec fn hex_value(c: char) -> int {
    if '0' <= c <= '9' {
        c as int - '0' as int
    } else {
        c as int - 'a' as int + 10
    }
}

/// A character that is escaped stands in the file name as a mark and its code,
/// in six hexadecimal digits.
pub proof fn law_escapes_tell_the_character(c: char)
    requires
        !('a' <= c <= 'z' || 'A' <= c <= 'Z' || '0' <= c <= '9' || c == '-' || c == '_'),
    ensures
        escaped(c).len() == 7,
        escaped(c)[0] == '%',
        forall|i: int|
            1 <= i < 7 ==> '0' <= #[trigger] escaped(c)[i] <= '9' || 'a' <= escaped(c)[i] <= 'f',
        c as int == hex_value(escaped(c)[6]) + 16 * (hex_value(escaped(c)[5]) + 16 * (hex_value(
            escaped(c)[4],
        ) + 16 * (hex_value(escaped(c)[3]) + 16 * (hex_value(escaped(c)[2]) + 16 * hex_value(
            escaped(c)[1],
        ))))),
{
    let code = c as int;
    let tail = code / 0x10;
    assert(code / 0x100 == tail / 0x10);
    assert(code / 0x1000 == tail / 0x10 / 0x10);
    assert(code / 0x10000 == tail / 0x10 / 0x10 / 0x10);
    assert(code / 0x100000 == tail / 0x10 / 0x10 / 0x10 / 0x10);
    lemma_digit_value(code / 0x100000);
    lemma_digit_value(code / 0x10000 % 16);
    lemma_digit_value(code / 0x1000 % 16);
    lemma_digit_value(code / 0x100 % 16);
    lemma_digit_value(code / 0x10 % 16);
    lemma_digit_value(code % 16);
    let e = escaped(c);
    assert(e.len() == 7);
    assert forall|i: int| 1 <= i < 7 implies '0' <= #[trigger] e[i] <= '9' || 'a' <= e[i] <= 'f' by {
        assert(i == 1 || i == 2 || i == 3 || i == 4 || i == 5 || i == 6);
    }
    assert(hex_value(e[1]) == code / 0x100000);
    assert(hex_value(e[2]) == code / 0x10000 % 16);
    assert(hex_value(e[3]) == code / 0x1000 % 16);
    assert(hex_value(e[4]) == code / 0x100 % 16);
    assert(hex_value(e[5]) == code / 0x10 % 16);
    assert(hex_value(e[6]) == code % 16);
}

proof fn lemma_digit_value(d: int)
    requires
        0 <= d < 16,
    ensures
        hex_value(hex_digit(d)) == d,
        '0' <= hex_digit(d) <= '9' || 'a' <= hex_digit(d) <= 'f',
{
}

/// A history comes back from its file whatever was said in it, and whatever the
/// tools were given, unless that holds fractions or is nested too deeply.
pub proof fn law_ordinary_histories_can_be_stored(messages: Seq<MessageView>)
    requires
        forall|i: int, k: int|
            0 <= i < messages.len() && 0 <= k < messages[i].content.len() ==> (
            #[trigger] messages[i].content[k] matches ContentView::ToolUse { input, .. }
                ==> storable(input, 123)),
    ensures
        history_storable(messages, MAX_NESTING as int),
{
}

}
