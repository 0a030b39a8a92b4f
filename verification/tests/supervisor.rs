use bot_runner::bot_manager::{
    check_notificator_done, clear_finished_thread, delivery_of, BotManager, BotThread, Delivery,
    DispatchPlan, InstanceState, NotificatorThread, ThreadExit, WorkerHealth,
};
use bot_runner::config::result::ConfigError;
use bot_runner::db::bots::{restart_all, BotInstance};
use bot_runner::db::DbCollection;

fn healthy() -> WorkerHealth {
    WorkerHealth { dispatch: None, notificator: None }
}

fn instance(name: &str, script: &str) -> BotInstance {
    BotInstance::new(name.to_string(), "token".to_string(), script.to_string())
}

#[test]
fn new_instance_is_started_from_nothing() {
    let mut manager = BotManager::with();
    assert_eq!(manager.len(), 0);
    let plan = manager.dispatch(&instance("x", "script one"), healthy());
    assert_eq!(
        plan,
        DispatchPlan {
            found: InstanceState::Absent,
            teardown: false,
            create: true,
            dispatch_exit: None,
            spawn_dispatch: true,
            notificator_exit: None,
            spawn_notificator: true,
        }
    );
    let runner = manager.get("x").unwrap();
    assert_eq!(runner.info.name, "x");
    assert_eq!(runner.script, "script one");
    assert_eq!(runner.thread, Some(BotThread {}));
    assert_eq!(runner.notificator, NotificatorThread::Running(Some(BotThread {})));
}

#[test]
fn running_instance_is_left_alone() {
    let mut manager = BotManager::with();
    let bi = instance("x", "script");
    manager.dispatch(&bi, healthy());
    let plan = manager.dispatch(&bi, healthy());
    assert_eq!(
        plan,
        DispatchPlan {
            found: InstanceState::Running,
            teardown: false,
            create: false,
            dispatch_exit: None,
            spawn_dispatch: false,
            notificator_exit: None,
            spawn_notificator: false,
        }
    );
    assert_eq!(manager.len(), 1);
}

#[test]
fn crashed_dispatch_thread_is_replaced_without_touching_others() {
    let mut manager = BotManager::with();
    let x = instance("X", "script x");
    let y = instance("Y", "script y");
    manager.dispatch(&x, healthy());
    manager.dispatch(&y, healthy());

    let crashed = WorkerHealth { dispatch: Some(ThreadExit::Panicked), notificator: None };
    let plan = manager.dispatch(&x, crashed);
    assert_eq!(plan.found, InstanceState::CrashedRestart);
    assert_eq!(plan.dispatch_exit, Some(ThreadExit::Panicked));
    assert!(plan.spawn_dispatch);
    assert!(!plan.teardown);
    assert!(!plan.create);
    assert!(!plan.spawn_notificator);

    let other = manager.get("Y").unwrap();
    assert_eq!(other.script, "script y");
    assert_eq!(other.thread, Some(BotThread {}));
    assert_eq!(other.notificator, NotificatorThread::Running(Some(BotThread {})));
    assert_eq!(manager.get("X").unwrap().thread, Some(BotThread {}));
    assert_eq!(manager.len(), 2);
}

#[test]
fn restart_flag_recreates_the_worker_with_the_new_script() {
    let mut manager = BotManager::with();
    let mut bi = instance("x", "old script");
    manager.dispatch(&bi, healthy());
    assert_eq!(manager.get("x").unwrap().script, "old script");

    bi.update_script("new script".to_string());
    assert!(bi.restart_flag);
    let plan = manager.dispatch(&bi, healthy());
    assert_eq!(plan.found, InstanceState::ReloadRestart);
    assert!(plan.teardown);
    assert!(plan.create);
    assert!(plan.spawn_dispatch);
    assert!(plan.spawn_notificator);
    assert_eq!(manager.get("x").unwrap().script, "new script");
    assert_eq!(manager.len(), 1);
}

#[test]
fn restart_flag_restarts_a_worker_whose_notifications_were_done() {
    let mut manager = BotManager::with();
    let mut bi = instance("x", "s");
    manager.dispatch(&bi, healthy());
    let done = WorkerHealth { dispatch: None, notificator: Some(ThreadExit::Completed) };
    manager.dispatch(&bi, done);
    assert_eq!(manager.get("x").unwrap().notificator, NotificatorThread::Done);

    bi.restart_one(true);
    let plan = manager.dispatch(&bi, healthy());
    assert!(plan.teardown && plan.create && plan.spawn_notificator);
    assert_eq!(
        manager.get("x").unwrap().notificator,
        NotificatorThread::Running(Some(BotThread {}))
    );
}

#[test]
fn notificator_that_completed_is_never_started_again() {
    let mut manager = BotManager::with();
    let bi = instance("x", "s");
    manager.dispatch(&bi, healthy());
    let done = WorkerHealth { dispatch: None, notificator: Some(ThreadExit::Completed) };
    let plan = manager.dispatch(&bi, done);
    assert_eq!(plan.notificator_exit, Some(ThreadExit::Completed));
    assert!(!plan.spawn_notificator);
    assert_eq!(manager.get("x").unwrap().notificator, NotificatorThread::Done);

    let later = manager.dispatch(&bi, done);
    assert_eq!(later.notificator_exit, None);
    assert!(!later.spawn_notificator);
    assert_eq!(manager.get("x").unwrap().notificator, NotificatorThread::Done);
}

#[test]
fn notificator_that_failed_or_panicked_is_started_again() {
    for exit in [ThreadExit::Failed, ThreadExit::Panicked] {
        let mut manager = BotManager::with();
        let bi = instance("x", "s");
        manager.dispatch(&bi, healthy());
        let health = WorkerHealth { dispatch: None, notificator: Some(exit) };
        let plan = manager.dispatch(&bi, health);
        assert_eq!(plan.notificator_exit, Some(exit));
        assert!(plan.spawn_notificator);
        assert!(!plan.spawn_dispatch);
        assert_eq!(
            manager.get("x").unwrap().notificator,
            NotificatorThread::Running(Some(BotThread {}))
        );
    }
}

#[test]
fn failures_of_the_host_are_retried_on_the_next_tick() {
    let mut manager = BotManager::with();
    let x = instance("x", "s");
    let y = instance("y", "t");
    manager.dispatch(&x, healthy());
    manager.dispatch(&y, healthy());

    manager.creation_failed("x");
    assert!(manager.get("x").is_none());
    assert!(manager.get("y").is_some());
    let plan = manager.dispatch(&x, healthy());
    assert_eq!(plan.found, InstanceState::Absent);
    assert!(plan.create);

    manager.dispatch_not_started("x");
    assert_eq!(manager.get("x").unwrap().thread, None);
    let plan = manager.dispatch(&x, healthy());
    assert_eq!(plan.found, InstanceState::Starting);
    assert!(plan.spawn_dispatch && !plan.create && !plan.spawn_notificator);

    manager.notificator_not_started("x");
    assert_eq!(manager.get("x").unwrap().notificator, NotificatorThread::Running(None));
    let plan = manager.dispatch(&x, healthy());
    assert!(plan.spawn_notificator && !plan.spawn_dispatch);
    assert_eq!(manager.get("y").unwrap().script, "t");

    manager.creation_failed("nobody");
    manager.dispatch_not_started("nobody");
    manager.notificator_not_started("nobody");
    assert_eq!(manager.len(), 2);
}

#[test]
fn health_checks_of_the_slots() {
    let t = Some(BotThread {});
    assert_eq!(clear_finished_thread(t, None), t);
    assert_eq!(clear_finished_thread(t, Some(ThreadExit::Completed)), None);
    assert_eq!(clear_finished_thread(t, Some(ThreadExit::Panicked)), None);
    assert_eq!(clear_finished_thread(None, Some(ThreadExit::Failed)), None);

    let running = NotificatorThread::Running(t);
    assert_eq!(check_notificator_done(running, None), running);
    assert_eq!(
        check_notificator_done(running, Some(ThreadExit::Completed)),
        NotificatorThread::Done
    );
    assert_eq!(
        check_notificator_done(running, Some(ThreadExit::Failed)),
        NotificatorThread::Running(None)
    );
    assert_eq!(
        check_notificator_done(running, Some(ThreadExit::Panicked)),
        NotificatorThread::Running(None)
    );
    assert_eq!(
        check_notificator_done(NotificatorThread::Done, Some(ThreadExit::Failed)),
        NotificatorThread::Done
    );
    assert_eq!(
        check_notificator_done(NotificatorThread::Running(None), Some(ThreadExit::Completed)),
        NotificatorThread::Running(None)
    );
}

#[test]
fn delivery_skips_a_recipient_without_message() {
    assert!(matches!(delivery_of(Ok(Some("hi".to_string()))), Delivery::Send(t) if t == "hi"));
    assert!(matches!(delivery_of(Ok(None)), Delivery::Skip));
    assert!(matches!(
        delivery_of(Err(ConfigError::Other("x".to_string()))),
        Delivery::Report(ConfigError::Other(t)) if t == "x"
    ));
}

#[test]
fn bot_instance_records() {
    let mut bi = instance("n", "s");
    assert_eq!(bi.name, "n");
    assert_eq!(bi.token, "token");
    assert_eq!(bi.script, "s");
    assert!(!bi.restart_flag);
    assert!(bi.created_at.secs > 1_600_000_000);
    bi.restart_one(true);
    assert!(bi.restart_flag);
    bi.restart_one(false);
    assert!(!bi.restart_flag);
    assert_eq!(BotInstance::COLLECTION, "bots");

    let mut all = vec![instance("a", "1"), instance("b", "2")];
    all[0].restart_one(true);
    restart_all(&mut all, false);
    assert!(all.iter().all(|r| !r.restart_flag));
    restart_all(&mut all, true);
    assert!(all.iter().all(|r| r.restart_flag));
    assert_eq!(all[1].script, "2");
}
