use kimai_report::{
    choice_from_answer, matches_record, Action, ConflictChoice, CreateRequest, Event, Outcome,
    Phase, RemoteRecord, ReportError, Session, SessionTask, TagClasses,
};

fn strings(v: &[&str]) -> Vec<String> {
    v.iter().map(|s| s.to_string()).collect()
}

fn session(id: usize, tags: &[&str]) -> Session {
    Session {
        id,
        start: 36000,
        end: Some(39600),
        annotation: Some("design review".to_string()),
        tags: strings(tags),
    }
}

fn task(id: usize, tags: &[&str]) -> SessionTask {
    SessionTask::new(TagClasses::kimai(), session(id, tags))
}

fn record_like(s: &Session, id: usize, project: Option<usize>, activity: Option<usize>, tags: &[&str]) -> RemoteRecord {
    RemoteRecord {
        id,
        project,
        activity,
        start: s.start,
        end: s.end,
        annotation: s.annotation.clone(),
        tags: strings(tags),
    }
}

#[test]
fn create_path_example() {
    let mut t = task(12, &["kimai_project:3", "kimai_activity:7", "urgent"]);
    let a = t.step(Event::Begin);
    assert_eq!(
        a,
        Action::Create(CreateRequest {
            existing: 0,
            project: 3,
            activity: 7,
            start: 36000,
            end: Some(39600),
            annotation: Some("design review".to_string()),
            tags: strings(&["urgent"]),
        })
    );
    let a = t.step(Event::Created(42));
    assert_eq!(a, Action::WriteBack { session: 12, tag: "kimai_id:42".to_string() });
    let a = t.step(Event::WrittenBack);
    assert_eq!(
        a,
        Action::Finish {
            line: Some("@12: logged to Kimai".to_string()),
            result: Ok(Outcome::Created(42)),
        }
    );
    assert_eq!(t.phase, Phase::Done);
}

#[test]
fn fetch_path_identical_record() {
    let mut t = task(5, &["kimai_id:9"]);
    assert_eq!(t.step(Event::Begin), Action::Fetch(9));
    let rec = record_like(&t.session, 9, None, None, &[]);
    let a = t.step(Event::Fetched(rec));
    assert_eq!(
        a,
        Action::Finish {
            line: Some("@5: already got logged with ID 9".to_string()),
            result: Ok(Outcome::AlreadySynced(9)),
        }
    );
}

#[test]
fn fetch_path_ignores_other_identifiers_and_never_creates() {
    let mut t = task(8, &["kimai_project:3", "kimai_activity:7", "kimai_id:11", "b", "a"]);
    assert_eq!(t.step(Event::Begin), Action::Fetch(11));
    let rec = record_like(&t.session, 11, Some(3), Some(7), &["a", "b"]);
    let a = t.step(Event::Fetched(rec));
    assert_eq!(
        a,
        Action::Finish {
            line: Some("@8: already got logged with ID 11".to_string()),
            result: Ok(Outcome::AlreadySynced(11)),
        }
    );
}

#[test]
fn fetch_path_conflict_prompts_and_records_choice() {
    let mut t = task(8, &["kimai_project:3", "kimai_activity:7", "kimai_id:11"]);
    assert_eq!(t.step(Event::Begin), Action::Fetch(11));
    let rec = record_like(&t.session, 11, Some(4), Some(7), &[]);
    let a = t.step(Event::Fetched(rec));
    assert_eq!(
        a,
        Action::Prompt("@8: something is different! [(l)ocal|(r)emote|(s)kip]".to_string())
    );
    let a = t.step(Event::Answered(" r\n".to_string()));
    assert_eq!(
        a,
        Action::Finish { line: None, result: Ok(Outcome::Conflict(ConflictChoice::Remote)) }
    );
}

#[test]
fn unresolvable_without_activity() {
    let mut t = task(3, &["kimai_project:3", "urgent"]);
    let a = t.step(Event::Begin);
    assert_eq!(
        a,
        Action::Finish {
            line: Some("@3: required IDs not found!".to_string()),
            result: Ok(Outcome::Unresolvable),
        }
    );
    assert_eq!(t.phase, Phase::Done);
}

#[test]
fn unresolvable_without_any_tag() {
    let mut t = task(4, &[]);
    let a = t.step(Event::Begin);
    assert_eq!(
        a,
        Action::Finish {
            line: Some("@4: required IDs not found!".to_string()),
            result: Ok(Outcome::Unresolvable),
        }
    );
}

#[test]
fn malformed_tag_fails_the_session() {
    let mut t = task(6, &["kimai_project:three", "kimai_activity:7"]);
    let a = t.step(Event::Begin);
    assert_eq!(
        a,
        Action::Finish {
            line: None,
            result: Err(ReportError::ParseInt("kimai_project:three".to_string())),
        }
    );
}

#[test]
fn failed_action_ends_the_session() {
    let mut t = task(12, &["kimai_project:3", "kimai_activity:7"]);
    let _ = t.step(Event::Begin);
    let a = t.step(Event::Failed(ReportError::Kimai("unreachable".to_string())));
    assert_eq!(
        a,
        Action::Finish { line: None, result: Err(ReportError::Kimai("unreachable".to_string())) }
    );
    assert_eq!(t.phase, Phase::Done);
}

#[test]
fn event_out_of_turn_is_an_error() {
    let mut t = task(12, &["kimai_project:3", "kimai_activity:7"]);
    let a = t.step(Event::WrittenBack);
    assert!(matches!(a, Action::Finish { line: None, result: Err(ReportError::Other(_)) }));
    let a = t.step(Event::Begin);
    assert!(matches!(a, Action::Finish { line: None, result: Err(ReportError::Other(_)) }));
}

#[test]
fn record_comparison_fields() {
    let s = session(1, &["kimai_project:3", "kimai_activity:7", "x", "y"]);
    let ids = kimai_report::classify_tags(&TagClasses::kimai(), &s.tags).unwrap();
    let same = record_like(&s, 2, Some(3), Some(7), &["y", "x", "x"]);
    assert!(matches_record(&ids, &s, &same));
    let mut other = same.clone();
    other.end = None;
    assert!(!matches_record(&ids, &s, &other));
    let mut other = same.clone();
    other.annotation = None;
    assert!(!matches_record(&ids, &s, &other));
    let mut other = same.clone();
    other.tags = strings(&["x"]);
    assert!(!matches_record(&ids, &s, &other));
    let mut other = same.clone();
    other.start = 1;
    assert!(!matches_record(&ids, &s, &other));
}

#[test]
fn answers_to_a_conflict() {
    assert_eq!(choice_from_answer("l"), ConflictChoice::Local);
    assert_eq!(choice_from_answer("  r \t"), ConflictChoice::Remote);
    assert_eq!(choice_from_answer("s\r\n"), ConflictChoice::Skip);
    assert_eq!(choice_from_answer("\u{b}\u{a0}l\u{3000}\u{c}"), ConflictChoice::Local);
    assert_eq!(choice_from_answer("\u{2028}s\u{85}"), ConflictChoice::Skip);
    assert_eq!(choice_from_answer(""), ConflictChoice::Unknown);
    assert_eq!(choice_from_answer("ls"), ConflictChoice::Unknown);
    assert_eq!(choice_from_answer("x"), ConflictChoice::Unknown);
}
