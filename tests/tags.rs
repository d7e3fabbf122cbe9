use kimai_report::{
    classify_tags, decimal_string, parse_kimai_id, parse_usize_text, ReportError, TagClasses,
};

fn strings(v: &[&str]) -> Vec<String> {
    v.iter().map(|s| s.to_string()).collect()
}

#[test]
fn parse_id_of_matching_class() {
    assert_eq!(parse_kimai_id("kimai_project:3", "kimai_project"), Ok(Some(3)));
    assert_eq!(parse_kimai_id("kimai_id:+7", "kimai_id"), Ok(Some(7)));
}

#[test]
fn parse_id_of_other_class_is_none() {
    assert_eq!(parse_kimai_id("urgent", "kimai_project"), Ok(None));
    assert_eq!(parse_kimai_id("kimai_id:9", "kimai_project"), Ok(None));
}

#[test]
fn parse_id_malformed_is_parse_error() {
    assert_eq!(
        parse_kimai_id("kimai_project:x", "kimai_project"),
        Err(ReportError::ParseInt("kimai_project:x".to_string()))
    );
    assert_eq!(
        parse_kimai_id("kimai_project", "kimai_project"),
        Err(ReportError::ParseInt("kimai_project".to_string()))
    );
    assert_eq!(
        parse_kimai_id("kimai_id:12:extra", "kimai_id"),
        Err(ReportError::ParseInt("kimai_id:12:extra".to_string()))
    );
    assert_eq!(
        parse_kimai_id("kimai_project:3:4", "kimai_project"),
        Err(ReportError::ParseInt("kimai_project:3:4".to_string()))
    );
    assert_eq!(
        parse_kimai_id("kimai_id:", "kimai_id"),
        Err(ReportError::ParseInt("kimai_id:".to_string()))
    );
    assert_eq!(
        parse_kimai_id("kimai_id:18446744073709551616", "kimai_id"),
        Err(ReportError::ParseInt("kimai_id:18446744073709551616".to_string()))
    );
}

#[test]
fn parse_usize_text_cases() {
    assert_eq!(parse_usize_text("0"), Some(0));
    assert_eq!(parse_usize_text("+42"), Some(42));
    assert_eq!(parse_usize_text("18446744073709551615"), Some(usize::MAX));
    assert_eq!(parse_usize_text("18446744073709551616"), None);
    assert_eq!(parse_usize_text(""), None);
    assert_eq!(parse_usize_text("+"), None);
    assert_eq!(parse_usize_text("-1"), None);
    assert_eq!(parse_usize_text("4a"), None);
}

#[test]
fn decimal_string_cases() {
    assert_eq!(decimal_string(0), "0");
    assert_eq!(decimal_string(42), "42");
    assert_eq!(decimal_string(1234567890), "1234567890");
    assert_eq!(decimal_string(usize::MAX), usize::MAX.to_string());
}

#[test]
fn classify_example_session() {
    let c = TagClasses::kimai();
    let ids = classify_tags(&c, &strings(&["kimai_project:3", "kimai_activity:7", "urgent"])).unwrap();
    assert_eq!(ids.project, Some(3));
    assert_eq!(ids.activity, Some(7));
    assert_eq!(ids.record, None);
    assert_eq!(ids.residual, strings(&["urgent"]));
}

#[test]
fn classify_last_duplicate_wins_and_order_kept() {
    let c = TagClasses::kimai();
    let ids = classify_tags(
        &c,
        &strings(&["b", "kimai_id:1", "a", "kimai_id:2", "kimai_project:5", "c"]),
    )
    .unwrap();
    assert_eq!(ids.record, Some(2));
    assert_eq!(ids.project, Some(5));
    assert_eq!(ids.activity, None);
    assert_eq!(ids.residual, strings(&["b", "a", "c"]));
}

#[test]
fn classify_empty_tags() {
    let c = TagClasses::kimai();
    let ids = classify_tags(&c, &Vec::new()).unwrap();
    assert_eq!((ids.project, ids.activity, ids.record), (None, None, None));
    assert!(ids.residual.is_empty());
}

#[test]
fn classify_reports_first_malformed_tag() {
    let c = TagClasses::kimai();
    let r = classify_tags(&c, &strings(&["x", "kimai_activity:q", "kimai_id:z"]));
    assert_eq!(r, Err(ReportError::ParseInt("kimai_activity:q".to_string())));
}

#[test]
fn classify_with_configured_class_names() {
    let c = TagClasses {
        project: "proj".to_string(),
        activity: "act".to_string(),
        record: "rec".to_string(),
    };
    let ids = classify_tags(&c, &strings(&["proj:1", "act:2", "rec:3", "kimai_id:4"])).unwrap();
    assert_eq!((ids.project, ids.activity, ids.record), (Some(1), Some(2), Some(3)));
    assert_eq!(ids.residual, strings(&["kimai_id:4"]));
}

#[test]
fn reclassifying_residual_tags_is_stable() {
    let c = TagClasses::kimai();
    let first = classify_tags(
        &c,
        &strings(&["kimai_project:3", "home", "kimai_activity:7", "urgent", "kimai_id:1"]),
    )
    .unwrap();
    let second = classify_tags(&c, &first.residual).unwrap();
    assert_eq!((second.project, second.activity, second.record), (None, None, None));
    assert_eq!(second.residual, first.residual);
}

#[test]
fn written_back_tag_is_found_on_next_run() {
    let c = TagClasses::kimai();
    let mut tags = strings(&["kimai_project:3", "kimai_activity:7", "urgent"]);
    tags.push(format!("kimai_id:{}", 42));
    let ids = classify_tags(&c, &tags).unwrap();
    assert_eq!(ids.record, Some(42));
    assert_eq!((ids.project, ids.activity), (Some(3), Some(7)));
    assert_eq!(ids.residual, strings(&["urgent"]));
}

#[test]
fn error_messages() {
    assert_eq!(ReportError::Kimai("down".to_string()).message(), "Kimai Error: down");
    assert_eq!(ReportError::Timewarrior("t".to_string()).message(), "Timewarrior Error: t");
    assert_eq!(ReportError::ParseInt("p".to_string()).message(), "Parse Int Error: p");
    assert_eq!(ReportError::IO("i".to_string()).message(), "IO Error: i");
    assert_eq!(ReportError::Join("j".to_string()).message(), "Join Error: j");
    assert_eq!(ReportError::Other("o".to_string()).message(), "Other Error: o");
}
