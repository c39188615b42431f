use mux_core::spawn::{
    join_handle_result, set_schedulers, spawn, spawn_into_main_thread,
    spawn_into_main_thread_with_low_priority, spawn_with_low_priority, JoinError, Priority,
    Scheduler, SpawnError,
};

#[test]
fn unconfigured_scheduler_refuses_every_spawn() {
    let mut s: Scheduler<u32> = Scheduler::new();
    assert!(!s.is_configured());
    assert_eq!(spawn(&mut s, 1), Err(SpawnError::NoSchedulerConfigured));
    assert_eq!(spawn_with_low_priority(&mut s, 2), Err(SpawnError::NoSchedulerConfigured));
    assert_eq!(spawn_into_main_thread(&mut s, 3), Err(SpawnError::NoSchedulerConfigured));
    assert_eq!(
        spawn_into_main_thread_with_low_priority(&mut s, 4),
        Err(SpawnError::NoSchedulerConfigured)
    );
    assert_eq!(s.schedule(Priority::Normal, 5), Err(SpawnError::NoSchedulerConfigured));
    assert_eq!(s.queued(Priority::Normal), 0);
    assert_eq!(s.queued(Priority::Low), 0);
    assert_eq!(s.next_task(), None);
}

#[test]
fn configured_scheduler_queues() {
    let mut s: Scheduler<u32> = Scheduler::new();
    set_schedulers(&mut s);
    assert!(s.is_configured());
    assert_eq!(spawn(&mut s, 1), Ok(()));
    assert_eq!(spawn_with_low_priority(&mut s, 2), Ok(()));
    assert_eq!(spawn_into_main_thread(&mut s, 3), Ok(()));
    assert_eq!(spawn_into_main_thread_with_low_priority(&mut s, 4), Ok(()));
    assert_eq!(s.queued(Priority::Normal), 2);
    assert_eq!(s.queued(Priority::Low), 2);
}

#[test]
fn normal_lane_is_drained_before_low() {
    let mut s: Scheduler<&str> = Scheduler::new();
    set_schedulers(&mut s);
    spawn_with_low_priority(&mut s, "low-1").unwrap();
    spawn(&mut s, "normal-1").unwrap();
    spawn_into_main_thread_with_low_priority(&mut s, "low-2").unwrap();
    spawn_into_main_thread(&mut s, "normal-2").unwrap();
    assert_eq!(s.next_task(), Some((Priority::Normal, "normal-1")));
    assert_eq!(s.next_task(), Some((Priority::Normal, "normal-2")));
    assert_eq!(s.next_task(), Some((Priority::Low, "low-1")));
    spawn(&mut s, "normal-3").unwrap();
    assert_eq!(s.next_task(), Some((Priority::Normal, "normal-3")));
    assert_eq!(s.next_task(), Some((Priority::Low, "low-2")));
    assert_eq!(s.next_task(), None);
}

#[test]
fn configuring_twice_keeps_what_is_queued() {
    let mut s: Scheduler<u32> = Scheduler::new();
    set_schedulers(&mut s);
    spawn(&mut s, 1).unwrap();
    set_schedulers(&mut s);
    assert!(s.is_configured());
    assert_eq!(s.queued(Priority::Normal), 1);
    assert_eq!(s.next_task(), Some((Priority::Normal, 1)));
}

#[test]
fn join_result_of_finished_task() {
    let ok: Option<Result<u32, &str>> = Some(Ok(3));
    assert_eq!(join_handle_result(ok), Ok(3));
}

#[test]
fn join_result_of_failed_task() {
    let failed: Option<Result<u32, &str>> = Some(Err("boom"));
    assert_eq!(join_handle_result(failed), Err(JoinError::Failed("boom")));
}

#[test]
fn join_result_of_cancelled_task() {
    let cancelled: Option<Result<u32, &str>> = None;
    assert_eq!(join_handle_result(cancelled), Err(JoinError::Cancelled));
}
