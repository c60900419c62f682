use taskr::domain::model::{Filter, Priority, Status, Task, TaskPatch};

fn task(title: &str, status: Status, priority: Priority) -> Task {
    Task {
        id: "t-1".into(),
        title: title.into(),
        description: None,
        status,
        priority,
        assignee: None,
        labels: vec![],
        parent: None,
    }
}

#[test]
fn priority_num_roundtrip() {
    for p in [Priority::P0, Priority::P1, Priority::P2, Priority::P3, Priority::P4] {
        assert_eq!(Priority::from_num(p.as_num()), p);
    }
    assert_eq!(Priority::from_num(9), Priority::P4);
}

#[test]
fn priority_ord_high_first() {
    assert!(Priority::P0 < Priority::P2);
}

#[test]
fn empty_filter_matches_everything() {
    let f = Filter::default();
    assert!(f.is_empty());
    assert!(f.matches(&task("anything", Status::Open, Priority::P2)));
}

#[test]
fn filter_by_status_and_text() {
    let f = Filter { status: Some(Status::Open), text: Some("API".into()), ..Default::default() };
    assert!(f.matches(&task("Fix API bug", Status::Open, Priority::P1)));
    assert!(!f.matches(&task("Fix API bug", Status::Done, Priority::P1)));
    assert!(!f.matches(&task("unrelated", Status::Open, Priority::P1)));
}

#[test]
fn filter_text_ignores_case_and_searches_description() {
    let f = Filter { text: Some("api".into()), ..Default::default() };
    assert!(f.matches(&task("Fix API bug", Status::Open, Priority::P1)));
    let mut t = task("unrelated", Status::Open, Priority::P1);
    t.description = Some("the Api client".into());
    assert!(f.matches(&t));
    t.description = None;
    assert!(!f.matches(&t));
}

#[test]
fn filter_by_priority_and_labels() {
    let f = Filter {
        priority: Some(Priority::P1),
        labels: vec!["bug".into(), "backend".into()],
        ..Default::default()
    };
    let mut t = task("x", Status::Open, Priority::P1);
    t.labels = vec!["backend".into(), "bug".into(), "ui".into()];
    assert!(f.matches(&t));
    t.labels = vec!["bug".into()];
    assert!(!f.matches(&t));
    t.labels = vec!["backend".into(), "bug".into()];
    t.priority = Priority::P2;
    assert!(!f.matches(&t));
    assert!(!f.is_empty());
}

#[test]
fn status_labels_symbols_and_order() {
    assert_eq!(Status::InProgress.label(), "In Progress");
    assert_eq!(Status::Done.symbol(), "●");
    assert_eq!(Status::Open.symbol(), "○");
    assert_eq!(Status::InProgress.order(), 0);
    assert_eq!(Status::Open.order(), 1);
    assert_eq!(Status::Done.order(), 4);
    assert_eq!(Priority::P3.label(), "P3");
    assert_eq!(Priority::default(), Priority::P2);
    assert_eq!(Status::ALL.len(), 5);
}

#[test]
fn patch_is_empty_only_without_fields() {
    assert!(TaskPatch::default().is_empty());
    let p = TaskPatch { status: Some(Status::Done), ..Default::default() };
    assert!(!p.is_empty());
    let p = TaskPatch { labels: Some(vec![]), ..Default::default() };
    assert!(!p.is_empty());
}

#[test]
fn priority_order_follows_numbers() {
    let all = [Priority::P0, Priority::P1, Priority::P2, Priority::P3, Priority::P4];
    for p in all {
        for q in all {
            assert_eq!(p < q, p.as_num() < q.as_num());
            assert_eq!(p == q, p.as_num() == q.as_num());
            assert_eq!(p.cmp(&q), p.as_num().cmp(&q.as_num()));
        }
    }
}

#[test]
fn tasks_clone_and_compare() {
    let t = task("a", Status::Open, Priority::P1);
    let u = t.clone();
    assert_eq!(t, u);
}
