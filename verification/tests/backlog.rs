use taskr::adapters::backlog::{
    is_section_header, parse_list_item, parse_view, priority_from_backlog, priority_to_backlog, status_from_backlog,
    status_to_backlog, BacklogMdRepository,
};
use taskr::config::BacklogConfig;
use taskr::domain::model::{Filter, NewTask, Priority, Status, TaskPatch};
use taskr::error::Error;

const LIST_FIXTURE: &str = "To Do:\n  [HIGH] TASK-1 - 첫 작업\n  [LOW] TASK-2 - 둘째 작업\nIn Progress:\n  TASK-3 - 진행 중 작업\nDone:\n  [MEDIUM] TASK-4 - 완료 작업\n";

const VIEW_FIXTURE: &str = "File: /x/backlog/tasks/task-1.md\n\nTask TASK-1 - 첫 작업\n==================================================\n\nStatus: ○ To Do\nPriority: High\nCreated: 2026-05-31 05:00\n\nDescription:\n--------------------------------------------------\n설명입니다\n둘째 줄\n\nAcceptance Criteria:\n--------------------------------------------------\nNo acceptance criteria defined\n";

#[test]
fn parses_list_groups_and_items() {
    let tasks = BacklogMdRepository::parse_list(LIST_FIXTURE);
    assert_eq!(tasks.len(), 4);
    assert_eq!(tasks[0].id, "TASK-1");
    assert_eq!(tasks[0].status, Status::Open);
    assert_eq!(tasks[0].priority, Priority::P1);
    assert_eq!(tasks[1].priority, Priority::P3);
    assert_eq!(tasks[2].status, Status::InProgress);
    assert_eq!(tasks[2].priority, Priority::P2);
    assert_eq!(tasks[3].status, Status::Done);
    assert_eq!(tasks[3].title, "완료 작업");
}

#[test]
fn parses_view_with_description() {
    let t = parse_view("TASK-1", VIEW_FIXTURE);
    assert_eq!(t.title, "첫 작업");
    assert_eq!(t.status, Status::Open);
    assert_eq!(t.priority, Priority::P1);
    assert_eq!(t.description.as_deref(), Some("설명입니다\n둘째 줄"));
}

#[test]
fn status_priority_mapping() {
    assert_eq!(status_to_backlog(Status::InProgress), "In Progress");
    assert_eq!(status_to_backlog(Status::Blocked), "To Do");
    assert_eq!(priority_to_backlog(Priority::P0), "high");
    assert_eq!(priority_from_backlog("LOW"), Priority::P3);
}

#[test]
fn backlog_status_roundtrip_for_known_statuses() {
    for s in [Status::Open, Status::InProgress, Status::Done] {
        assert_eq!(status_from_backlog(status_to_backlog(s)), s);
    }
    assert_eq!(status_from_backlog("● Done"), Status::Done);
    assert_eq!(status_from_backlog("Deferred"), Status::Open);
    for p in [Priority::P1, Priority::P2, Priority::P3] {
        assert_eq!(priority_from_backlog(priority_to_backlog(p)), p);
    }
    assert_eq!(priority_from_backlog(" \tHigh \u{3000}"), Priority::P1);
    assert_eq!(priority_from_backlog("urgent"), Priority::P2);
}

#[test]
fn list_item_edge_cases() {
    assert!(parse_list_item("no separator here", Status::Open).is_none());
    assert!(parse_list_item(" - title only", Status::Open).is_none());
    let t = parse_list_item("[HIGH]TASK-9 - x - y", Status::Done).unwrap();
    assert_eq!(t.id, "TASK-9");
    assert_eq!(t.title, "x - y");
    assert_eq!(t.priority, Priority::P1);
    assert_eq!(t.status, Status::Done);
    let t = parse_list_item("[oops TASK-9 - x", Status::Open).unwrap();
    assert_eq!(t.id, "[oops TASK-9");
    assert_eq!(t.priority, Priority::P2);
}

#[test]
fn list_with_crlf_and_unknown_groups() {
    let text = "In Progress:\r\n  [low] A-1 - one\r\n\r\nArchived:\r\n  A-2 - two\r\n";
    let tasks = BacklogMdRepository::parse_list(text);
    assert_eq!(tasks.len(), 2);
    assert_eq!(tasks[0].status, Status::InProgress);
    assert_eq!(tasks[0].priority, Priority::P3);
    assert_eq!(tasks[1].status, Status::Open);
    assert_eq!(tasks[1].title, "two");
}

#[test]
fn view_without_description_or_title() {
    let t = parse_view("X-1", "Status: In Progress\nPriority: low\nDescription:\nNo description provided\n");
    assert_eq!(t.title, "X-1");
    assert_eq!(t.status, Status::InProgress);
    assert_eq!(t.priority, Priority::P3);
    assert!(t.description.is_none());
    let t = parse_view("X-2", "Description:\nline one\nNotes:\nline two\n");
    assert_eq!(t.description.as_deref(), Some("line one"));
}

#[test]
fn list_from_output_filters_only_when_needed() {
    let all = BacklogMdRepository::list_from_output(LIST_FIXTURE, &Filter::default());
    assert_eq!(all.len(), 4);
    let f = Filter { status: Some(Status::Done), ..Default::default() };
    let done = BacklogMdRepository::list_from_output(LIST_FIXTURE, &f);
    assert_eq!(done.len(), 1);
    assert_eq!(done[0].id, "TASK-4");
}

#[test]
fn backlog_command_arguments() {
    assert_eq!(BacklogMdRepository::list_args(), vec!["task", "list", "--plain"]);
    assert_eq!(BacklogMdRepository::get_args("T-1"), vec!["task", "T-1", "--plain"]);
    assert_eq!(BacklogMdRepository::delete_args("T-1"), vec!["task", "archive", "T-1"]);
    assert_eq!(
        BacklogMdRepository::set_status_args("T-1", Status::Deferred),
        vec!["task", "edit", "T-1", "-s", "To Do"]
    );
    let args = BacklogMdRepository::create_args(&NewTask {
        title: "t".into(),
        description: Some("d".into()),
        priority: Priority::P4,
        labels: vec!["a".into(), "b".into()],
        parent: None,
    });
    assert_eq!(args, vec!["task", "create", "t", "-d", "d", "--priority", "low", "-l", "a,b"]);
    let args = BacklogMdRepository::create_args(&NewTask {
        title: "t".into(),
        description: Some("".into()),
        ..Default::default()
    });
    assert_eq!(args, vec!["task", "create", "t", "--priority", "medium"]);
    assert!(BacklogMdRepository::update_args("T-1", &TaskPatch::default()).is_none());
    assert!(BacklogMdRepository::update_args(
        "T-1",
        &TaskPatch { assignee: Some("me".into()), ..Default::default() }
    )
    .is_none());
    let args = BacklogMdRepository::update_args(
        "T-1",
        &TaskPatch {
            title: Some("n".into()),
            status: Some(Status::Done),
            labels: Some(vec![]),
            ..Default::default()
        },
    )
    .unwrap();
    assert_eq!(args, vec!["task", "edit", "T-1", "-t", "n", "-s", "Done", "-l", ""]);
}

#[test]
fn backlog_created_id() {
    let id = BacklogMdRepository::created_id("Some banner\n  Created task TASK-7  \nmore\n").unwrap();
    assert_eq!(id, "TASK-7");
    match BacklogMdRepository::created_id("nothing useful") {
        Err(Error::Backend(m)) => assert_eq!(m, "생성된 작업 ID를 파싱하지 못했습니다"),
        _ => panic!("expected a backend error"),
    }
}

#[test]
fn backlog_repository_settings() {
    let repo = BacklogMdRepository::new(&BacklogConfig { project_path: Some("/p".into()) });
    assert_eq!(repo.project_path().as_deref(), Some("/p"));
    assert_eq!(repo.name(), "backlog.md");
}

#[test]
fn section_headers_need_colon_and_upper_case() {
    assert!(is_section_header("Acceptance Criteria:", true));
    assert!(!is_section_header("Acceptance Criteria:", false));
    assert!(!is_section_header("Notes", true));
    let t = parse_view("X", "Description:\nkeep\nnotes:\nalso kept\n");
    assert_eq!(t.description.as_deref(), Some("keep\nnotes:\nalso kept"));
}
