use taskr::adapters::memory::MemoryRepository;
use taskr::adapters::tui::{display_width, App, Key};
use taskr::config::ViewMode;
use taskr::domain::model::{NewTask, Status};
use taskr::domain::service::TaskService;
use taskr::error::Error;
use taskr::ports::TaskApi;

fn app_with(n: usize) -> App<TaskService<MemoryRepository>> {
    let mut svc = TaskService::new(MemoryRepository::new());
    for i in 0..n {
        svc.create(&NewTask { title: format!("t{i}"), ..Default::default() }).unwrap();
    }
    let mut app = App::new(svc, "/c.json".into(), ViewMode::List);
    app.refresh();
    app
}

#[test]
fn refresh_loads_and_selects_first() {
    let app = app_with(3);
    assert_eq!(app.tasks.len(), 3);
    assert_eq!(app.selected, Some(0));
    assert_eq!(app.status, "3개 작업");
    assert_eq!(app.backend_name(), "memory");
}

#[test]
fn navigation_stays_in_bounds() {
    let mut app = app_with(3);
    app.handle_key(Key::Char('j'));
    app.handle_key(Key::Down);
    app.handle_key(Key::Down);
    assert_eq!(app.selected, Some(2));
    app.handle_key(Key::Up);
    assert_eq!(app.selected, Some(1));
    app.handle_key(Key::Char('g'));
    assert_eq!(app.selected, Some(0));
    app.handle_key(Key::Char('k'));
    assert_eq!(app.selected, Some(0));
    app.handle_key(Key::End);
    assert_eq!(app.selected, Some(2));
    assert_eq!(app.selected().unwrap().title, "t2");
    app.handle_key(Key::Other);
    assert_eq!(app.selected, Some(2));
    assert!(!app.should_quit);
    app.handle_key(Key::Char('q'));
    assert!(app.should_quit);
}

#[test]
fn empty_list_has_no_selection() {
    let mut app = app_with(0);
    assert_eq!(app.selected, None);
    app.handle_key(Key::Down);
    app.handle_key(Key::Home);
    assert_eq!(app.selected, None);
    assert!(app.selected().is_none());
    assert_eq!(app.status, "0개 작업");
}

#[test]
fn refresh_clamps_selection_and_reports_errors() {
    let mut app = app_with(3);
    app.handle_key(Key::End);
    app.api.delete("mem-3").unwrap();
    app.api.set_status("mem-1", Status::InProgress).unwrap();
    app.handle_key(Key::Char('r'));
    assert_eq!(app.tasks.len(), 2);
    assert_eq!(app.selected, Some(1));
    assert_eq!(app.tasks[0].title, "t0");
    app.apply_refresh(Err(Error::Backend("down".into())));
    assert_eq!(app.status, "오류: 백엔드 오류: down");
    assert_eq!(app.tasks.len(), 2);
    app.apply_refresh(Ok(vec![]));
    assert_eq!(app.selected, None);
}

#[test]
fn display_width_counts_wide_characters_twice() {
    assert_eq!(display_width("abc"), 3);
    assert_eq!(display_width("n 새작업"), 8);
    assert_eq!(display_width(""), 0);
}

#[test]
fn board_columns_and_detail_rows() {
    let mut app = app_with(3);
    app.api.set_status("mem-2", Status::Done).unwrap();
    app.refresh();
    assert_eq!(app.indices_in_status(Status::Open), vec![0, 1]);
    assert_eq!(app.indices_in_status(Status::Done), vec![2]);
    assert!(app.indices_in_status(Status::Blocked).is_empty());

    let mut t = app.tasks[0].clone();
    assert!(taskr::adapters::tui::detail_rows(&t).is_empty());
    assert_eq!(taskr::adapters::tui::description_text(&t), "(없음)");
    t.assignee = Some("me".into());
    t.labels = vec!["a".into(), "b".into()];
    t.parent = Some("p-1".into());
    t.description = Some("d".into());
    assert_eq!(
        taskr::adapters::tui::detail_rows(&t),
        vec![
            ("담당".to_string(), "me".to_string()),
            ("라벨".to_string(), "a, b".to_string()),
            ("상위".to_string(), "p-1".to_string()),
        ]
    );
    assert_eq!(taskr::adapters::tui::description_text(&t), "d");
}
