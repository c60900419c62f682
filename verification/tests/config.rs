use taskr::adapters::cli::{command_failure, launch_failure, plan_step, PlanStep};
use taskr::adapters::config_file::{default_config_path, FileConfigStore};
use taskr::config::{Backend, Config, ViewMode};
use taskr::error::Error;

#[test]
fn default_backend_is_beads() {
    assert_eq!(Config::default().backend, Backend::Beads);
}

#[test]
fn config_defaults_and_names() {
    let c = Config::default();
    assert_eq!(c.ui.default_view, ViewMode::List);
    assert!(c.beads.dir.is_none());
    assert!(c.backlog.project_path.is_none());
    assert_eq!(Backend::Backlog.as_str(), "backlog");
    assert_eq!(Backend::Memory.as_str(), "memory");
}

#[test]
fn config_path_resolution() {
    let p = default_config_path(Some("/env/c.json".into()), Ok("/xdg/taskr/config.json".into()));
    assert_eq!(p.unwrap(), "/env/c.json");
    let p = default_config_path(Some("".into()), Ok("/xdg/taskr/config.json".into()));
    assert_eq!(p.unwrap(), "/xdg/taskr/config.json");
    match default_config_path(None, Err("no home".into())) {
        Err(Error::Config(m)) => assert_eq!(m, "홈 디렉터리 해석 실패: no home"),
        _ => panic!("expected a config error"),
    }
    let s = FileConfigStore::new(Some("/given".into()), None, Err("x".into())).unwrap();
    assert_eq!(s.path(), "/given");
    let s = FileConfigStore::new(None, None, Ok("/xdg".into())).unwrap();
    assert_eq!(s.path(), "/xdg");
}

#[test]
fn error_messages() {
    assert_eq!(Error::NotFound("x".into()).message(), "작업을 찾을 수 없습니다: x");
    assert_eq!(Error::Io("disk".into()).message(), "disk");
    assert_eq!(Error::Json("bad".into()).message(), "JSON 처리 오류: bad");
    let e = command_failure("bd", &vec!["show".into(), "x".into()], "  boom\n");
    match e {
        Error::Backend(m) => assert_eq!(m, "`bd show x` 실패: boom"),
        _ => panic!("expected a backend error"),
    }
    match launch_failure("bd", "not found") {
        Error::Backend(m) => assert_eq!(m, "bd 실행 실패(설치/경로 확인): not found"),
        _ => panic!("expected a backend error"),
    }
}

#[test]
fn plan_steps_stop_at_first_failure() {
    let none: Vec<Result<(), Error>> = vec![];
    assert_eq!(plan_step(2, &none), PlanStep::Run(0));
    assert_eq!(plan_step(0, &none), PlanStep::Finish);
    let one_ok: Vec<Result<(), Error>> = vec![Ok(())];
    assert_eq!(plan_step(2, &one_ok), PlanStep::Run(1));
    let failed: Vec<Result<(), Error>> = vec![Err(Error::Backend("x".into()))];
    assert_eq!(plan_step(2, &failed), PlanStep::Fail(0));
    let both: Vec<Result<(), Error>> = vec![Ok(()), Ok(())];
    assert_eq!(plan_step(2, &both), PlanStep::Finish);
    let later: Vec<Result<(), Error>> = vec![Ok(()), Err(Error::Backend("y".into()))];
    assert_eq!(plan_step(3, &later), PlanStep::Fail(1));
}
