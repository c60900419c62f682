use taskr::adapters::memory::MemoryRepository;
use taskr::domain::model::{Filter, NewTask, Priority, Status, Task, TaskPatch};
use taskr::domain::service::{arrange, sort_tasks, TaskService};
use taskr::error::Error;
use taskr::ports::TaskApi;

fn service() -> TaskService<MemoryRepository> {
    TaskService::new(MemoryRepository::new())
}

fn task(id: &str, title: &str, status: Status, priority: Priority) -> Task {
    Task {
        id: id.into(),
        title: title.into(),
        description: None,
        status,
        priority,
        assignee: None,
        labels: vec![],
        parent: None,
    }
}

#[test]
fn create_rejects_empty_title() {
    let mut svc = service();
    let err = svc.create(&NewTask { title: "   ".into(), ..Default::default() });
    assert!(matches!(err, Err(Error::Invalid(_))));
}

#[test]
fn create_then_list_and_get() {
    let mut svc = service();
    let id = svc
        .create(&NewTask { title: "첫 작업".into(), priority: Priority::P1, ..Default::default() })
        .unwrap();

    let all = svc.list(&Filter::default()).unwrap();
    assert_eq!(all.len(), 1);

    let got = svc.get(&id).unwrap();
    assert_eq!(got.title, "첫 작업");
    assert_eq!(got.priority, Priority::P1);
}

#[test]
fn list_is_sorted_in_progress_before_open() {
    let mut svc = service();
    svc.create(&NewTask { title: "열린 작업".into(), ..Default::default() }).unwrap();
    let id2 = svc.create(&NewTask { title: "진행 작업".into(), ..Default::default() }).unwrap();
    svc.set_status(&id2, Status::InProgress).unwrap();

    let all = svc.list(&Filter::default()).unwrap();
    assert_eq!(all[0].status, Status::InProgress);
}

#[test]
fn update_empty_patch_is_noop() {
    let mut svc = service();
    let id = svc.create(&NewTask { title: "x".into(), ..Default::default() }).unwrap();
    assert!(svc.update(&id, &TaskPatch::default()).is_ok());
}

#[test]
fn delete_then_get_is_not_found() {
    let mut svc = service();
    let id = svc.create(&NewTask { title: "지울 작업".into(), ..Default::default() }).unwrap();
    svc.delete(&id).unwrap();
    assert!(matches!(svc.get(&id), Err(Error::NotFound(_))));
}

#[test]
fn update_rejects_blank_title_and_keeps_task() {
    let mut svc = service();
    let id = svc.create(&NewTask { title: "x".into(), ..Default::default() }).unwrap();
    let r = svc.update(&id, &TaskPatch { title: Some(" \t".into()), ..Default::default() });
    match r {
        Err(Error::Invalid(m)) => assert_eq!(m, "제목은 비워 둘 수 없습니다"),
        _ => panic!("expected Invalid"),
    }
    assert_eq!(svc.get(&id).unwrap().title, "x");
}

#[test]
fn update_empty_patch_on_missing_id_is_ok() {
    let mut svc = service();
    assert!(svc.update("nope", &TaskPatch::default()).is_ok());
    let r = svc.update("nope", &TaskPatch { priority: Some(Priority::P0), ..Default::default() });
    assert!(matches!(r, Err(Error::NotFound(_))));
}

#[test]
fn sort_orders_by_status_priority_title_and_is_stable() {
    let tasks = vec![
        task("a", "b", Status::Done, Priority::P0),
        task("b", "z", Status::Open, Priority::P2),
        task("c", "a", Status::Open, Priority::P2),
        task("d", "q", Status::Open, Priority::P0),
        task("e", "a", Status::Open, Priority::P2),
        task("f", "m", Status::InProgress, Priority::P4),
        task("g", "x", Status::Blocked, Priority::P1),
    ];
    let sorted = sort_tasks(tasks);
    let ids: Vec<&str> = sorted.iter().map(|t| t.id.as_str()).collect();
    assert_eq!(ids, vec!["f", "d", "c", "e", "b", "g", "a"]);
}

#[test]
fn title_order_is_code_point_order() {
    let tasks = vec![
        task("1", "가", Status::Open, Priority::P2),
        task("2", "Z", Status::Open, Priority::P2),
        task("3", "a", Status::Open, Priority::P2),
        task("4", "ab", Status::Open, Priority::P2),
        task("5", "", Status::Open, Priority::P2),
    ];
    let sorted = sort_tasks(tasks);
    let ids: Vec<&str> = sorted.iter().map(|t| t.id.as_str()).collect();
    assert_eq!(ids, vec!["5", "2", "3", "4", "1"]);
}

#[test]
fn arrange_reapplies_text_filter_only() {
    let tasks = vec![
        task("1", "Fix API", Status::Open, Priority::P2),
        task("2", "docs", Status::Done, Priority::P2),
        task("3", "api docs", Status::InProgress, Priority::P2),
    ];
    let f = Filter { text: Some("API".into()), ..Default::default() };
    let out = arrange(tasks, &f);
    let ids: Vec<&str> = out.iter().map(|t| t.id.as_str()).collect();
    assert_eq!(ids, vec!["3", "1"]);

    let tasks = vec![
        task("1", "x", Status::Open, Priority::P2),
        task("2", "y", Status::Done, Priority::P2),
    ];
    let f = Filter { status: Some(Status::Open), ..Default::default() };
    let out = arrange(tasks, &f);
    assert_eq!(out.len(), 2);
}

#[test]
fn backend_name_comes_from_store() {
    let svc = service();
    assert_eq!(svc.backend_name(), "memory");
}
