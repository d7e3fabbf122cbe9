//! The reconciliation of one session with the remote timesheet service.
//!
//! A [`SessionTask`] is a state machine: it is handed [`Event`]s (the start, and
//! the result of each action it asked for) and answers each with the next
//! [`Action`]: a remote fetch or create, a write-back of the remote identifier to
//! the local tracker, a prompt to the operator, or the end of the session's work
//! with the console line to print and the outcome.
use crate::error::ReportError;
use crate::tags::{
    classify_tags, is_parse_error_of, is_prefix, last_value, malformed, record_tag, views, ParsedIdentifiers,
    TagClasses, TagRole,
};
use crate::text::{decimal, decimal_string};
use vstd::prelude::*;

verus! {

broadcast use vstd::string::group_string_axioms;

/// One interval recorded by the local tracker. Times are seconds since the epoch;
/// a session that has not ended has no end.
#[derive(Clone, Debug, PartialEq, Eq)]
pub struct Session {
    pub id: usize,
    pub start: i64,
    pub end: Option<i64>,
    pub annotation: Option<String>,
    pub tags: Vec<String>,
}

/// A record of the remote timesheet service.
#[derive(Clone, Debug, PartialEq, Eq)]
pub struct RemoteRecord {
    pub id: usize,
    pub project: Option<usize>,
    pub activity: Option<usize>,
    pub start: i64,
    pub end: Option<i64>,
    pub annotation: Option<String>,
    pub tags: Vec<String>,
}

/// What a remote create is asked to store. `existing` is zero: no record exists yet.
#[derive(Clone, Debug, PartialEq, Eq)]
pub struct CreateRequest {
    pub existing: usize,
    pub project: usize,
    pub activity: usize,
    pub start: i64,
    pub end: Option<i64>,
    pub annotation: Option<String>,
    pub tags: Vec<String>,
}

/// The operator's answer to a conflict.
#[derive(Clone, Copy, PartialEq, Eq, Structural, Debug)]
pub enum ConflictChoice {
    Local,
    Remote,
    Skip,
    Unknown,
}

/// How a session's reconciliation ended.
#[derive(Clone, Copy, PartialEq, Eq, Structural, Debug)]
pub enum Outcome {
    /// The remote record with this identifier equals the session.
    AlreadySynced(usize),
    /// The remote record differs; the operator answered as given. Nothing is changed.
    Conflict(ConflictChoice),
    /// A remote record with this identifier was created and its identifier written back.
    Created(usize),
    /// The session lacks a project or an activity identifier.
    Unresolvable,
}

/// What happened since the last action.
#[derive(Clone, Debug, PartialEq, Eq)]
pub enum Event {
    /// The reconciliation starts.
    Begin,
    /// The remote fetch returned this record.
    Fetched(RemoteRecord),
    /// The remote create returned a record with this identifier.
    Created(usize),
    /// The identifier tag was written back to the local tracker.
    WrittenBack,
    /// The operator answered the prompt with this line.
    Answered(String),
    /// The action failed with this error.
    Failed(ReportError),
}

/// What the task asks to be done next.
#[derive(Debug, PartialEq, Eq)]
pub enum Action {
    /// Fetch the remote record with this identifier.
    Fetch(usize),
    /// Create a remote record.
    Create(CreateRequest),
    /// Add `tag` to local session `session`.
    WriteBack { session: usize, tag: String },
    /// Print this line and read one line of the operator's answer.
    Prompt(String),
    /// The task is over: print `line`, if any, and report `result`.
    Finish { line: Option<String>, result: Result<Outcome, ReportError> },
}

/// Where a task stands.
#[derive(Clone, Copy, PartialEq, Eq, Structural, Debug)]
pub enum Phase {
    Ready,
    Fetching(usize),
    Creating,
    WritingBack(usize),
    Answering,
    Done,
}

/// The reconciliation of one session.
#[derive(Clone, Debug, PartialEq, Eq)]
pub struct SessionTask {
    pub classes: TagClasses,
    pub session: Session,
    pub ids: ParsedIdentifiers,
    pub phase: Phase,
}

pub open spec fn opt_view(o: Option<String>) -> Option<Seq<char>> {
    match o {
        Some(s) => Some(s@),
        None => None,
    }
}

pub open spec fn has_tag(tags: Seq<Seq<char>>, t: Seq<char>) -> bool {
    exists|j: int| 0 <= j < tags.len() && tags[j] == t
}

/// Every tag of `a` is among the tags of `b`.
pub open spec fn tags_among(a: Seq<Seq<char>>, b: Seq<Seq<char>>) -> bool {
    forall|i: int| 0 <= i < a.len() ==> has_tag(b, #[trigger] a[i])
}

/// Two tag lists that hold the same set of tags.
pub open spec fn same_tags(a: Seq<Seq<char>>, b: Seq<Seq<char>>) -> bool {
    tags_among(a, b) && tags_among(b, a)
}

/// A remote record matches a session when project, activity, start, end and
/// annotation are equal and it holds the same set of tags as the residual tags.
pub open spec fn record_matches(ids: ParsedIdentifiers, s: Session, rec: RemoteRecord) -> bool {
    &&& rec.project == ids.project
    &&& rec.activity == ids.activity
    &&& rec.start == s.start
    &&& rec.end == s.end
    &&& opt_view(rec.annotation) == opt_view(s.annotation)
    &&& same_tags(views(ids.residual@), views(rec.tags@))
}

/// A console line about session `id`: `@<id><msg>`.
pub open spec fn session_line(id: usize, msg: Seq<char>) -> Seq<char> {
    "@"@ + decimal(id as nat) + msg
}

pub open spec fn unresolvable_line(id: usize) -> Seq<char> {
    session_line(id, ": required IDs not found!"@)
}

pub open spec fn synced_line(id: usize, record: usize) -> Seq<char> {
    session_line(id, ": already got logged with ID "@ + decimal(record as nat))
}

pub open spec fn conflict_line(id: usize) -> Seq<char> {
    session_line(id, ": something is different! [(l)ocal|(r)emote|(s)kip]"@)
}

pub open spec fn logged_line(id: usize) -> Seq<char> {
    session_line(id, ": logged to Kimai"@)
}

/// A white-space character: those that `char::is_whitespace` accepts.
pub open spec fn is_blank(c: char) -> bool {
    ('\u{9}' <= c && c <= '\u{d}') || c == ' ' || c == '\u{85}' || c == '\u{a0}' || c
        == '\u{1680}' || ('\u{2000}' <= c && c <= '\u{200a}') || c == '\u{2028}' || c
        == '\u{2029}' || c == '\u{202f}' || c == '\u{205f}' || c == '\u{3000}'
}

pub open spec fn trim_start(s: Seq<char>) -> Seq<char>
    decreases s.len(),
{
    if s.len() > 0 && is_blank(s[0]) {
        trim_start(s.drop_first())
    } else {
        s
    }
}

pub open spec fn trim_end(s: Seq<char>) -> Seq<char>
    decreases s.len(),
{
    if s.len() > 0 && is_blank(s.last()) {
        trim_end(s.drop_last())
    } else {
        s
    }
}

/// The operator's choice in an answer: `l`, `r` or `s`, with white space around it.
pub open spec fn choice_of(answer: Seq<char>) -> ConflictChoice {
    let m = trim_end(trim_start(answer));
    if m == seq!['l'] {
        ConflictChoice::Local
    } else if m == seq!['r'] {
        ConflictChoice::Remote
    } else if m == seq!['s'] {
        ConflictChoice::Skip
    } else {
        ConflictChoice::Unknown
    }
}

/// A final action with this line and this outcome.
pub open spec fn finishes(a: Action, line: Option<Seq<char>>, outcome: Outcome) -> bool {
    match a {
        Action::Finish { line: l, result: Ok(o) } => opt_view(l) == line && o == outcome,
        _ => false,
    }
}

/// A final action without a line that reports an error of kind `Other`.
pub open spec fn fails_out_of_turn(a: Action) -> bool {
    match a {
        Action::Finish { line: None, result: Err(ReportError::Other(_)) } => true,
        _ => false,
    }
}

/// The create request that a session with these identifiers asks for.
pub open spec fn requests(r: CreateRequest, ids: ParsedIdentifiers, s: Session) -> bool {
    &&& r.existing == 0
    &&& Some(r.project) == ids.project
    &&& Some(r.activity) == ids.activity
    &&& r.start == s.start
    &&& r.end == s.end
    &&& opt_view(r.annotation) == opt_view(s.annotation)
    &&& views(r.tags@) == views(ids.residual@)
}

/// What the start does: classify the tags, then fetch where a record identifier
/// is present, create where project and activity are, and give up otherwise.
pub open spec fn begin_post(t: SessionTask, t2: SessionTask, a: Action) -> bool {
    let c = t.classes;
    let tags = t.session.tags@;
    if exists|i: int| 0 <= i < tags.len() && malformed(c, #[trigger] tags[i]@) {
        &&& t2.phase == Phase::Done
        &&& match a {
            Action::Finish { line: None, result: Err(e) } => exists|i: int|
                0 <= i < tags.len() && malformed(c, #[trigger] tags[i]@) && (forall|j: int|
                    0 <= j < i ==> !malformed(c, #[trigger] tags[j]@)) && is_parse_error_of(
                    e,
                    tags[i]@,
                ),
            _ => false,
        }
    } else {
        &&& t2.ids.classifies(c, tags)
        &&& match t2.ids.record {
            Some(id) => t2.phase == Phase::Fetching(id) && a == Action::Fetch(id),
            None => if t2.ids.project is Some && t2.ids.activity is Some {
                &&& t2.phase == Phase::Creating
                &&& match a {
                    Action::Create(r) => requests(r, t2.ids, t.session),
                    _ => false,
                }
            } else {
                &&& t2.phase == Phase::Done
                &&& finishes(a, Some(unresolvable_line(t.session.id)), Outcome::Unresolvable)
            },
        }
    }
}

/// What one step does, by phase and event.
pub open spec fn step_post(t: SessionTask, ev: Event, t2: SessionTask, a: Action) -> bool {
    &&& t2.classes == t.classes
    &&& t2.session == t.session
    &&& match ev {
        Event::Failed(e) => t2.phase == Phase::Done && a == Action::Finish {
            line: None,
            result: Err(e),
        },
        Event::Begin => if t.phase == Phase::Ready {
            begin_post(t, t2, a)
        } else {
            t2.phase == Phase::Done && fails_out_of_turn(a)
        },
        Event::Fetched(rec) => match t.phase {
            Phase::Fetching(id) => if record_matches(t.ids, t.session, rec) {
                &&& t2.phase == Phase::Done
                &&& finishes(a, Some(synced_line(t.session.id, id)), Outcome::AlreadySynced(id))
            } else {
                &&& t2.phase == Phase::Answering
                &&& match a {
                    Action::Prompt(l) => l@ == conflict_line(t.session.id),
                    _ => false,
                }
            },
            _ => t2.phase == Phase::Done && fails_out_of_turn(a),
        },
        Event::Created(id) => if t.phase == Phase::Creating {
            &&& t2.phase == Phase::WritingBack(id)
            &&& match a {
                Action::WriteBack { session, tag } => session == t.session.id && tag@
                    == record_tag(t.classes, id),
                _ => false,
            }
        } else {
            t2.phase == Phase::Done && fails_out_of_turn(a)
        },
        Event::WrittenBack => match t.phase {
            Phase::WritingBack(id) => t2.phase == Phase::Done && finishes(
                a,
                Some(logged_line(t.session.id)),
                Outcome::Created(id),
            ),
            _ => t2.phase == Phase::Done && fails_out_of_turn(a),
        },
        Event::Answered(s) => if t.phase == Phase::Answering {
            t2.phase == Phase::Done && finishes(a, None, Outcome::Conflict(choice_of(s@)))
        } else {
            t2.phase == Phase::Done && fails_out_of_turn(a)
        },
    }
}

fn line_for(id: usize, msg: &str) -> (r: String)
    ensures
        r@ == session_line(id, msg@),
{
    let mut r = String::from_str("@");
    r.append(decimal_string(id).as_str());
    r.append(msg);
    r
}

fn copy_text(o: &Option<String>) -> (r: Option<String>)
    ensures
        r == *o,
{
    match o {
        Some(s) => Some(s.clone()),
        None => None,
    }
}

fn copy_tags(v: &Vec<String>) -> (r: Vec<String>)
    ensures
        r@ == v@,
{
    let mut r: Vec<String> = Vec::new();
    let mut i: usize = 0;
    while i < v.len()
        invariant
            i <= v@.len(),
            r@ == v@.subrange(0, i as int),
        decreases v@.len() - i,
    {
        r.push(v[i].clone());
        i = i + 1;
        assert(r@ =~= v@.subrange(0, i as int));
    }
    assert(v@.subrange(0, i as int) =~= v@);
    r
}

fn same_text(a: &Option<String>, b: &Option<String>) -> (r: bool)
    ensures
        r == (opt_view(*a) == opt_view(*b)),
{
    match (a, b) {
        (Some(x), Some(y)) => *x == *y,
        (None, None) => true,
        _ => false,
    }
}

/// Whether every tag of `a` is among the tags of `b`.
fn tags_within(a: &Vec<String>, b: &Vec<String>) -> (r: bool)
    ensures
        r == tags_among(views(a@), views(b@)),
{
    let ghost va = views(a@);
    let ghost vb = views(b@);
    assert(va.len() == a@.len() && vb.len() == b@.len());
    let mut i: usize = 0;
    while i < a.len()
        invariant
            i <= a@.len(),
            va == views(a@),
            vb == views(b@),
            va.len() == a@.len(),
            vb.len() == b@.len(),
            forall|k: int| 0 <= k < i ==> has_tag(vb, #[trigger] va[k]),
        decreases a@.len() - i,
    {
        let mut j: usize = 0;
        let mut found = false;
        while j < b.len() && !found
            invariant
                j <= b@.len(),
                i < a@.len(),
                va == views(a@),
                vb == views(b@),
                va.len() == a@.len(),
                vb.len() == b@.len(),
                found ==> has_tag(vb, va[i as int]),
                !found ==> forall|m: int| 0 <= m < j ==> #[trigger] vb[m] != va[i as int],
            decreases b@.len() - j,
        {
            proof {
                assert(va[i as int] == a@[i as int]@);
                assert(vb[j as int] == b@[j as int]@);
            }
            if a[i] == b[j] {
                found = true;
            }
            j = j + 1;
        }
        if !found {
            assert(!has_tag(vb, va[i as int]));
            return false;
        }
        i = i + 1;
    }
    true
}

/// Whether the two lists hold the same set of tags.
fn same_tag_set(a: &Vec<String>, b: &Vec<String>) -> (r: bool)
    ensures
        r == same_tags(views(a@), views(b@)),
{
    tags_within(a, b) && tags_within(b, a)
}

/// Whether remote record `rec` equals the session with identifiers `ids`.
pub fn matches_record(ids: &ParsedIdentifiers, s: &Session, rec: &RemoteRecord) -> (r: bool)
    ensures
        r == record_matches(*ids, *s, *rec),
{
    rec.project == ids.project && rec.activity == ids.activity && rec.start == s.start && rec.end
        == s.end && same_text(&rec.annotation, &s.annotation) && same_tag_set(
        &ids.residual,
        &rec.tags,
    )
}

fn is_blank_char(c: char) -> (r: bool)
    ensures
        r == is_blank(c),
{
    ('\u{9}' <= c && c <= '\u{d}') || c == ' ' || c == '\u{85}' || c == '\u{a0}' || c
        == '\u{1680}' || ('\u{2000}' <= c && c <= '\u{200a}') || c == '\u{2028}' || c
        == '\u{2029}' || c == '\u{202f}' || c == '\u{205f}' || c == '\u{3000}'
}

/// The operator's choice in a line of answer: `l`, `r` or `s`, white space around
/// it ignored; anything else is `Unknown`.
pub fn choice_from_answer(answer: &str) -> (r: ConflictChoice)
    ensures
        r == choice_of(answer@),
{
    let len = answer.unicode_len();
    let mut a: usize = 0;
    assert(answer@.subrange(0, len as int) =~= answer@);
    while a < len && is_blank_char(answer.get_char(a))
        invariant
            a <= len,
            len == answer@.len(),
            trim_start(answer@) == trim_start(answer@.subrange(a as int, len as int)),
        decreases len - a,
    {
        assert(answer@.subrange(a as int, len as int).drop_first() =~= answer@.subrange(
            a + 1,
            len as int,
        ));
        a = a + 1;
    }
    let ghost u = answer@.subrange(a as int, len as int);
    assert(trim_start(u) == u);
    let mut b: usize = len;
    assert(answer@.subrange(a as int, b as int) == u);
    while b > a && is_blank_char(answer.get_char(b - 1))
        invariant
            a <= b <= len,
            len == answer@.len(),
            trim_end(u) == trim_end(answer@.subrange(a as int, b as int)),
        decreases b,
    {
        assert(answer@.subrange(a as int, b as int).drop_last() =~= answer@.subrange(
            a as int,
            b - 1,
        ));
        b = b - 1;
    }
    let ghost m = answer@.subrange(a as int, b as int);
    assert(trim_end(m) == m);
    if b - a == 1 {
        let c = answer.get_char(a);
        assert(m =~= seq![c]);
        if c == 'l' {
            ConflictChoice::Local
        } else if c == 'r' {
            ConflictChoice::Remote
        } else if c == 's' {
            ConflictChoice::Skip
        } else {
            ConflictChoice::Unknown
        }
    } else {
        assert(m.len() != 1);
        ConflictChoice::Unknown
    }
}

impl SessionTask {
    /// A task that has not started on `session`.
    pub fn new(classes: TagClasses, session: Session) -> (r: SessionTask)
        ensures
            r.classes == classes,
            r.session == session,
            r.phase == Phase::Ready,
    {
        SessionTask {
            classes,
            session,
            ids: ParsedIdentifiers {
                project: None,
                activity: None,
                record: None,
                residual: Vec::new(),
            },
            phase: Phase::Ready,
        }
    }

    fn out_of_turn(&mut self) -> (a: Action)
        ensures
            final(self).phase == Phase::Done,
            final(self).classes == old(self).classes,
            final(self).session == old(self).session,
            final(self).ids == old(self).ids,
            fails_out_of_turn(a),
    {
        self.phase = Phase::Done;
        Action::Finish {
            line: None,
            result: Err(ReportError::Other(String::from_str("event out of turn"))),
        }
    }

    fn begin(&mut self) -> (a: Action)
        requires
            old(self).phase == Phase::Ready,
        ensures
            begin_post(*old(self), *final(self), a),
            final(self).classes == old(self).classes,
            final(self).session == old(self).session,
    {
        match classify_tags(&self.classes, &self.session.tags) {
            Err(e) => {
                self.phase = Phase::Done;
                Action::Finish { line: None, result: Err(e) }
            },
            Ok(ids) => {
                self.ids = ids;
                match self.ids.record {
                    Some(id) => {
                        self.phase = Phase::Fetching(id);
                        Action::Fetch(id)
                    },
                    None => match (self.ids.project, self.ids.activity) {
                        (Some(project), Some(activity)) => {
                            self.phase = Phase::Creating;
                            Action::Create(
                                CreateRequest {
                                    existing: 0,
                                    project,
                                    activity,
                                    start: self.session.start,
                                    end: self.session.end,
                                    annotation: copy_text(&self.session.annotation),
                                    tags: copy_tags(&self.ids.residual),
                                },
                            )
                        },
                        _ => {
                            self.phase = Phase::Done;
                            Action::Finish {
                                line: Some(line_for(self.session.id, ": required IDs not found!")),
                                result: Ok(Outcome::Unresolvable),
                            }
                        },
                    },
                }
            },
        }
    }

    /// Takes the next event and answers with the next action.
    pub fn step(&mut self, ev: Event) -> (a: Action)
        ensures
            step_post(*old(self), ev, *final(self), a),
    {
        match ev {
            Event::Failed(e) => {
                self.phase = Phase::Done;
                Action::Finish { line: None, result: Err(e) }
            },
            Event::Begin => {
                if self.phase == Phase::Ready {
                    self.begin()
                } else {
                    self.out_of_turn()
                }
            },
            Event::Fetched(rec) => match self.phase {
                Phase::Fetching(id) => {
                    if matches_record(&self.ids, &self.session, &rec) {
                        self.phase = Phase::Done;
                        let mut line = line_for(self.session.id, ": already got logged with ID ");
                        line.append(decimal_string(id).as_str());
                        assert(line@ =~= synced_line(self.session.id, id));
                        Action::Finish { line: Some(line), result: Ok(Outcome::AlreadySynced(id)) }
                    } else {
                        self.phase = Phase::Answering;
                        Action::Prompt(
                            line_for(
                                self.session.id,
                                ": something is different! [(l)ocal|(r)emote|(s)kip]",
                            ),
                        )
                    }
                },
                _ => self.out_of_turn(),
            },
            Event::Created(id) => {
                if self.phase == Phase::Creating {
                    self.phase = Phase::WritingBack(id);
                    let mut tag = self.classes.record.clone();
                    tag.append(":");
                    tag.append(decimal_string(id).as_str());
                    Action::WriteBack { session: self.session.id, tag }
                } else {
                    self.out_of_turn()
                }
            },
            Event::WrittenBack => match self.phase {
                Phase::WritingBack(id) => {
                    self.phase = Phase::Done;
                    Action::Finish {
                        line: Some(line_for(self.session.id, ": logged to Kimai")),
                        result: Ok(Outcome::Created(id)),
                    }
                },
                _ => self.out_of_turn(),
            },
            Event::Answered(s) => {
                if self.phase == Phase::Answering {
                    self.phase = Phase::Done;
                    Action::Finish {
                        line: None,
                        result: Ok(Outcome::Conflict(choice_from_answer(s.as_str()))),
                    }
                } else {
                    self.out_of_turn()
                }
            },
        }
    }
}

/// Tags of a session none of which is a malformed identifier tag.
pub open spec fn well_formed_tags(c: TagClasses, tags: Seq<String>) -> bool {
    forall|i: int| 0 <= i < tags.len() ==> !malformed(c, #[trigger] tags[i]@)
}

/// No step returns to `Ready`. Only the step on `Begin` in `Ready` asks for a
/// remote fetch or create, so each task makes at most one remote call. A
/// write-back comes only as the answer to a created record, and writes that
/// record's tag onto the task's own session.
pub proof fn lemma_step_effects(t: SessionTask, ev: Event, t2: SessionTask, a: Action)
    requires
        step_post(t, ev, t2, a),
    ensures
        t2.phase != Phase::Ready,
        a is Fetch || a is Create ==> t.phase == Phase::Ready && ev is Begin,
        match a {
            Action::WriteBack { session, tag } => {
                &&& t.phase == Phase::Creating
                &&& ev is Created
                &&& session == t.session.id
                &&& tag@ == record_tag(t.classes, ev->Created_0)
            },
            _ => true,
        },
        t.phase == Phase::Done ==> a is Finish,
{
}

/// The console line that a step asks to print, if any.
pub open spec fn printed_line(a: Action) -> Option<Seq<char>> {
    match a {
        Action::Prompt(l) => Some(l@),
        Action::Finish { line: Some(l), .. } => Some(l@),
        _ => None,
    }
}

proof fn lemma_line_prefix(id: usize, msg: Seq<char>)
    requires
        msg.len() >= 2,
        msg[0] == ':',
        msg[1] == ' ',
    ensures
        is_prefix(session_line(id, ": "@), session_line(id, msg)),
{
    reveal_strlit(": ");
    let p = session_line(id, ": "@);
    let l = session_line(id, msg);
    assert(l.subrange(0, p.len() as int) =~= p);
}

/// Every console line that a step asks to print is one whole line about the
/// task's own session: it begins with `@<session>: `.
pub proof fn lemma_lines_name_their_session(t: SessionTask, ev: Event, t2: SessionTask, a: Action)
    requires
        step_post(t, ev, t2, a),
    ensures
        printed_line(a) is Some ==> is_prefix(
            session_line(t.session.id, ": "@),
            printed_line(a)->Some_0,
        ),
{
    let id = t.session.id;
    reveal_strlit(": required IDs not found!");
    reveal_strlit(": already got logged with ID ");
    reveal_strlit(": something is different! [(l)ocal|(r)emote|(s)kip]");
    reveal_strlit(": logged to Kimai");
    lemma_line_prefix(id, ": required IDs not found!"@);
    lemma_line_prefix(id, ": something is different! [(l)ocal|(r)emote|(s)kip]"@);
    lemma_line_prefix(id, ": logged to Kimai"@);
    if let Phase::Fetching(rid) = t.phase {
        let m = ": already got logged with ID "@ + decimal(rid as nat);
        assert(m[0] == ':' && m[1] == ' ');
        lemma_line_prefix(id, m);
    }
}

/// A session with project and activity identifiers and no record identifier
/// asks for one remote create from its identifiers, times, annotation and
/// residual tags. Once the create returns identifier `id`, it asks for one
/// write-back of the record tag of `id`, and once that is done it ends with the
/// line `@<session>: logged to Kimai`.
pub proof fn lemma_create_path(
    t0: SessionTask,
    t1: SessionTask,
    t2: SessionTask,
    t3: SessionTask,
    a1: Action,
    a2: Action,
    a3: Action,
    id: usize,
)
    requires
        t0.phase == Phase::Ready,
        well_formed_tags(t0.classes, t0.session.tags@),
        last_value(t0.classes, t0.session.tags@, TagRole::Record) is None,
        last_value(t0.classes, t0.session.tags@, TagRole::Project) is Some,
        last_value(t0.classes, t0.session.tags@, TagRole::Activity) is Some,
        step_post(t0, Event::Begin, t1, a1),
        step_post(t1, Event::Created(id), t2, a2),
        step_post(t2, Event::WrittenBack, t3, a3),
    ensures
        t1.ids.classifies(t0.classes, t0.session.tags@),
        match a1 {
            Action::Create(r) => requests(r, t1.ids, t0.session),
            _ => false,
        },
        match a2 {
            Action::WriteBack { session, tag } => session == t0.session.id && tag@ == record_tag(
                t0.classes,
                id,
            ),
            _ => false,
        },
        finishes(a3, Some(logged_line(t0.session.id)), Outcome::Created(id)),
        t3.phase == Phase::Done,
{
}

/// A session without a record identifier that lacks a project or an activity
/// identifier makes no remote call: its first step ends it as unresolvable with
/// the line `@<session>: required IDs not found!`.
pub proof fn lemma_unresolvable_path(t0: SessionTask, t1: SessionTask, a1: Action)
    requires
        t0.phase == Phase::Ready,
        well_formed_tags(t0.classes, t0.session.tags@),
        last_value(t0.classes, t0.session.tags@, TagRole::Record) is None,
        last_value(t0.classes, t0.session.tags@, TagRole::Project) is None || last_value(
            t0.classes,
            t0.session.tags@,
            TagRole::Activity,
        ) is None,
        step_post(t0, Event::Begin, t1, a1),
    ensures
        t1.phase == Phase::Done,
        finishes(a1, Some(unresolvable_line(t0.session.id)), Outcome::Unresolvable),
{
}

/// A session with record identifier `id` asks first for the fetch of record
/// `id`, never for a create. A fetched record that matches the session ends it
/// as already synced with the line `@<session>: already got logged with ID <id>`,
/// with no write-back; one that differs prompts the operator.
pub proof fn lemma_fetch_path(
    t0: SessionTask,
    t1: SessionTask,
    t2: SessionTask,
    a1: Action,
    a2: Action,
    id: usize,
    rec: RemoteRecord,
)
    requires
        t0.phase == Phase::Ready,
        well_formed_tags(t0.classes, t0.session.tags@),
        last_value(t0.classes, t0.session.tags@, TagRole::Record) == Some(id),
        step_post(t0, Event::Begin, t1, a1),
        step_post(t1, Event::Fetched(rec), t2, a2),
    ensures
        a1 == Action::Fetch(id),
        t1.phase == Phase::Fetching(id),
        record_matches(t1.ids, t0.session, rec) ==> t2.phase == Phase::Done && finishes(
            a2,
            Some(synced_line(t0.session.id, id)),
            Outcome::AlreadySynced(id),
        ),
        !record_matches(t1.ids, t0.session, rec) ==> t2.phase == Phase::Answering && match a2 {
            Action::Prompt(l) => l@ == conflict_line(t0.session.id),
            _ => false,
        },
{
}

} // verus!
