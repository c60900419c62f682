use taskr::adapters::beads::{status_from_beads, status_to_beads, BeadIssue, BeadsRepository};
use taskr::config::BeadsConfig;
use taskr::domain::model::{Filter, NewTask, Priority, Status, Task, TaskPatch};
use taskr::error::Error;

const FIXTURE: &str = r#"[
  { "id": "p-xec", "title": "API 인증 버그 수정", "description": "토큰 만료 처리",
    "status": "open", "priority": 1, "issue_type": "task",
    "owner": "me@example.com", "labels": ["backend", "bug"] },
  { "id": "p-v2a.1", "title": "자식작업", "status": "closed", "priority": 2,
    "issue_type": "task", "parent": "p-v2a" }
]"#;

fn opt_str(v: &serde_json::Value, key: &str) -> Option<String> {
    v.get(key).and_then(|x| x.as_str()).map(|s| s.to_string())
}

fn issue_of(v: &serde_json::Value) -> BeadIssue {
    BeadIssue {
        id: opt_str(v, "id").unwrap(),
        title: opt_str(v, "title").unwrap(),
        description: opt_str(v, "description"),
        status: opt_str(v, "status").unwrap(),
        priority: v.get("priority").and_then(|x| x.as_u64()).unwrap() as u8,
        assignee: opt_str(v, "assignee"),
        labels: v
            .get("labels")
            .and_then(|x| x.as_array())
            .map(|a| a.iter().map(|l| l.as_str().unwrap().to_string()).collect())
            .unwrap_or_default(),
        parent: opt_str(v, "parent"),
    }
}

fn parse_issues(json: &str) -> Vec<Task> {
    let value: serde_json::Value = serde_json::from_str(json).unwrap();
    let issues: Vec<BeadIssue> = value.as_array().unwrap().iter().map(issue_of).collect();
    BeadsRepository::list_from_issues(issues)
}

#[test]
fn parses_fixture_into_tasks() {
    let tasks = parse_issues(FIXTURE);
    assert_eq!(tasks.len(), 2);

    let t0 = &tasks[0];
    assert_eq!(t0.id, "p-xec");
    assert_eq!(t0.status, Status::Open);
    assert_eq!(t0.priority, Priority::P1);
    assert_eq!(t0.labels, vec!["backend", "bug"]);
    assert_eq!(t0.description.as_deref(), Some("토큰 만료 처리"));

    let t1 = &tasks[1];
    assert_eq!(t1.status, Status::Done);
    assert_eq!(t1.parent.as_deref(), Some("p-v2a"));
    assert!(t1.description.is_none());
}

#[test]
fn status_mapping_roundtrip() {
    for s in Status::ALL {
        assert_eq!(status_from_beads(status_to_beads(s)), s);
    }
    assert_eq!(status_from_beads("unknown"), Status::Open);
}

fn issue(id: &str, status: &str, priority: u8) -> BeadIssue {
    BeadIssue {
        id: id.into(),
        title: "t".into(),
        description: Some("".into()),
        status: status.into(),
        priority,
        assignee: Some("".into()),
        labels: vec![],
        parent: None,
    }
}

#[test]
fn issue_conversion_drops_empty_texts_and_clamps_priority() {
    let t = Task::from(issue("a", "deferred", 9));
    assert!(t.description.is_none());
    assert!(t.assignee.is_none());
    assert_eq!(t.priority, Priority::P4);
    assert_eq!(t.status, Status::Deferred);
}

#[test]
fn shown_task_takes_the_first_issue() {
    let t = BeadsRepository::shown_task("a", vec![issue("a", "blocked", 0), issue("b", "open", 1)]).unwrap();
    assert_eq!(t.id, "a");
    assert_eq!(t.status, Status::Blocked);
    assert_eq!(t.priority, Priority::P0);
    assert!(matches!(BeadsRepository::shown_task("zz", vec![]), Err(Error::NotFound(m)) if m == "zz"));
}

#[test]
fn beads_command_arguments() {
    let f = Filter {
        status: Some(Status::InProgress),
        priority: Some(Priority::P3),
        labels: vec!["a".into(), "b".into()],
        text: Some("ignored".into()),
    };
    assert_eq!(
        BeadsRepository::list_args(&f),
        vec![
            "list", "--all", "--json", "--no-pager", "--status", "in_progress", "--priority", "3",
            "--label", "a", "--label", "b"
        ]
    );
    assert_eq!(BeadsRepository::list_args(&Filter::default()), vec!["list", "--all", "--json", "--no-pager"]);
    assert_eq!(BeadsRepository::get_args("x"), vec!["show", "x", "--json"]);
    assert_eq!(BeadsRepository::delete_args("x"), vec!["delete", "x", "--force"]);
    assert_eq!(BeadsRepository::set_status_args("x", Status::Done), vec!["close", "x"]);
    assert_eq!(
        BeadsRepository::set_status_args("x", Status::Open),
        vec!["update", "x", "--status", "open"]
    );
    let args = BeadsRepository::create_args(&NewTask {
        title: "t".into(),
        description: Some("d".into()),
        priority: Priority::P1,
        labels: vec!["x".into(), "y".into()],
        parent: Some("p".into()),
    });
    assert_eq!(args, vec!["create", "t", "--silent", "-d", "d", "-p", "1", "-l", "x,y", "--parent", "p"]);
    let args = BeadsRepository::create_args(&NewTask { title: "t".into(), ..Default::default() });
    assert_eq!(args, vec!["create", "t", "--silent", "-p", "2"]);
}

#[test]
fn beads_update_plan() {
    assert!(BeadsRepository::update_plan("x", &TaskPatch::default()).is_empty());
    let plan = BeadsRepository::update_plan(
        "x",
        &TaskPatch { status: Some(Status::Done), ..Default::default() },
    );
    assert_eq!(plan, vec![vec!["close", "x"]]);
    let plan = BeadsRepository::update_plan(
        "x",
        &TaskPatch {
            title: Some("n".into()),
            assignee: Some("me".into()),
            labels: Some(vec!["a".into(), "b".into()]),
            status: Some(Status::Blocked),
            ..Default::default()
        },
    );
    assert_eq!(
        plan,
        vec![
            vec!["update", "x", "--title", "n", "-a", "me", "--set-labels", "a,b"],
            vec!["update", "x", "--status", "blocked"],
        ]
    );
}

#[test]
fn beads_created_id_is_last_nonblank_line() {
    assert_eq!(BeadsRepository::created_id("warning: x\n  p-42  \n\n").unwrap(), "p-42");
    match BeadsRepository::created_id(" \n\n") {
        Err(Error::Backend(m)) => assert_eq!(m, "생성된 이슈 ID를 파싱하지 못했습니다"),
        _ => panic!("expected a backend error"),
    }
}

#[test]
fn beads_repository_settings() {
    let repo = BeadsRepository::new(&BeadsConfig { dir: Some("/d".into()) });
    assert_eq!(repo.dir().as_deref(), Some("/d"));
    assert_eq!(repo.name(), "beads");
}
