use taskr::adapters::memory::MemoryRepository;
use taskr::domain::model::{Filter, NewTask, Priority, Status, TaskPatch};
use taskr::error::Error;
use taskr::ports::TaskRepository;

#[test]
fn create_assigns_open_status_and_id() {
    let mut repo = MemoryRepository::new();
    let id = repo.create(&NewTask { title: "a".into(), ..Default::default() }).unwrap();
    assert_eq!(id, "mem-1");
    assert_eq!(repo.get(&id).unwrap().status, Status::Open);
}

#[test]
fn update_changes_fields() {
    let mut repo = MemoryRepository::new();
    let id = repo.create(&NewTask { title: "a".into(), ..Default::default() }).unwrap();
    repo.update(&id, &TaskPatch { title: Some("b".into()), ..Default::default() }).unwrap();
    assert_eq!(repo.get(&id).unwrap().title, "b");
}

#[test]
fn missing_id_is_not_found() {
    let repo = MemoryRepository::new();
    assert!(matches!(repo.get("nope"), Err(Error::NotFound(_))));
}

#[test]
fn ids_count_up_and_survive_deletes() {
    let mut repo = MemoryRepository::new();
    let mut ids = Vec::new();
    for i in 0..12 {
        ids.push(repo.create(&NewTask { title: format!("t{i}"), ..Default::default() }).unwrap());
    }
    assert_eq!(ids[9], "mem-10");
    assert_eq!(ids[11], "mem-12");
    repo.delete("mem-11").unwrap();
    let id = repo.create(&NewTask { title: "new".into(), ..Default::default() }).unwrap();
    assert_eq!(id, "mem-13");
    assert!(matches!(repo.get("mem-11"), Err(Error::NotFound(m)) if m == "mem-11"));
    assert_eq!(repo.get("mem-12").unwrap().title, "t11");
}

#[test]
fn update_applies_every_named_field() {
    let mut repo = MemoryRepository::new();
    let id = repo
        .create(&NewTask {
            title: "a".into(),
            description: Some("d".into()),
            priority: Priority::P3,
            labels: vec!["x".into()],
            parent: Some("p".into()),
        })
        .unwrap();
    repo.update(
        &id,
        &TaskPatch {
            description: Some("e".into()),
            priority: Some(Priority::P0),
            status: Some(Status::Blocked),
            assignee: Some("me".into()),
            labels: Some(vec!["y".into(), "z".into()]),
            ..Default::default()
        },
    )
    .unwrap();
    let t = repo.get(&id).unwrap();
    assert_eq!(t.title, "a");
    assert_eq!(t.description.as_deref(), Some("e"));
    assert_eq!(t.priority, Priority::P0);
    assert_eq!(t.status, Status::Blocked);
    assert_eq!(t.assignee.as_deref(), Some("me"));
    assert_eq!(t.labels, vec!["y".to_string(), "z".to_string()]);
    assert_eq!(t.parent.as_deref(), Some("p"));
}

#[test]
fn set_status_and_delete_report_missing_ids() {
    let mut repo = MemoryRepository::new();
    assert!(matches!(repo.set_status("mem-1", Status::Done), Err(Error::NotFound(_))));
    assert!(matches!(repo.delete("mem-1"), Err(Error::NotFound(_))));
    assert!(matches!(repo.update("mem-1", &TaskPatch::default()), Err(Error::NotFound(_))));
    let id = repo.create(&NewTask { title: "a".into(), ..Default::default() }).unwrap();
    repo.set_status(&id, Status::Done).unwrap();
    assert_eq!(repo.get(&id).unwrap().status, Status::Done);
}

#[test]
fn list_applies_the_filter_in_creation_order() {
    let mut repo = MemoryRepository::new();
    repo.create(&NewTask { title: "b".into(), priority: Priority::P1, ..Default::default() }).unwrap();
    repo.create(&NewTask { title: "a".into(), priority: Priority::P2, ..Default::default() }).unwrap();
    repo.create(&NewTask { title: "c".into(), priority: Priority::P1, ..Default::default() }).unwrap();
    let all = repo.list(&Filter::default()).unwrap();
    let titles: Vec<&str> = all.iter().map(|t| t.title.as_str()).collect();
    assert_eq!(titles, vec!["b", "a", "c"]);
    let p1 = repo.list(&Filter { priority: Some(Priority::P1), ..Default::default() }).unwrap();
    let titles: Vec<&str> = p1.iter().map(|t| t.title.as_str()).collect();
    assert_eq!(titles, vec!["b", "c"]);
    assert_eq!(repo.name(), "memory");
}
