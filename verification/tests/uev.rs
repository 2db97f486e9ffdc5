use finit::uev::{
    has_data, uev_act_t, uev_ctx, uev_event, uev_event_t, uev_init, uev_io_init, uev_io_start,
    uev_io_t, uev_phase_t, uev_run, uev_run_dispatched, uev_run_waited, uev_type_t,
    UEV_MAX_EVENTS, UEV_NONBLOCK, UEV_ONCE,
};

#[test]
fn default_context_is_empty() {
    let ctx = uev_ctx::<4>::default();
    assert!(!ctx.running);
    assert_eq!(ctx.fd, 0);
    assert_eq!(ctx.maxevents, 0);
    assert_eq!(ctx.workaround, 0);
    for w in ctx.watchers.iter() {
        assert_eq!(w.type_, uev_type_t::UEV_EVENT_TYPE);
        assert_eq!(w.fd, 0);
        assert_eq!(w.events, 0);
        assert!(!w.active);
    }
}

#[test]
fn init_installs_descriptor() {
    let mut ctx = uev_ctx::<4>::default();
    assert_eq!(uev_init(&mut ctx, 7), 0);
    assert_eq!(ctx.fd, 7);
    assert_eq!(ctx.maxevents, UEV_MAX_EVENTS);
    assert_eq!(ctx.maxevents, 10);
    assert!(!ctx.running);
}

#[test]
fn init_failed_creation() {
    let mut ctx = uev_ctx::<4>::default();
    ctx.fd = 3;
    assert_eq!(uev_init(&mut ctx, -1), -1);
    assert_eq!(ctx.fd, 3);
    assert_eq!(ctx.maxevents, 10);
}

#[test]
fn io_init_rejects_negative_fd() {
    let ctx = uev_ctx::<4>::default();
    assert!(matches!(uev_io_init(&ctx, -1, libc::EPOLLIN), uev_io_t::Done(-1)));
}

#[test]
fn io_init_then_start_then_again() {
    let mut ctx = uev_ctx::<4>::default();
    let plan = uev_io_init(&ctx, 5, libc::EPOLLIN);
    match plan {
        uev_io_t::Ctl { slot, mask, data } => {
            assert_eq!(slot, 0);
            assert_eq!(mask, (libc::EPOLLIN | libc::EPOLLRDHUP) as u32);
            assert_eq!(data, 1);
            assert_eq!(uev_io_start(&mut ctx, slot, 5, libc::EPOLLIN, 0, 0), 0);
        }
        _ => panic!("expected a registration"),
    }
    assert_eq!(ctx.watchers[0].type_, uev_type_t::UEV_IO_TYPE);
    assert_eq!(ctx.watchers[0].fd, 5);
    assert!(ctx.watchers[0].active);
    assert_eq!(ctx.watchers[0].events, libc::EPOLLIN);
    assert!(matches!(uev_io_init(&ctx, 5, libc::EPOLLOUT), uev_io_t::Done(0)));
    match uev_io_init(&ctx, 6, libc::EPOLLIN) {
        uev_io_t::Ctl { slot, data, .. } => {
            assert_eq!(slot, 1);
            assert_eq!(data, 2);
        }
        _ => panic!("expected a registration"),
    }
}

#[test]
fn io_init_full() {
    let mut ctx = uev_ctx::<1>::default();
    assert_eq!(uev_io_start(&mut ctx, 0, 5, libc::EPOLLIN, 0, 0), 0);
    assert!(matches!(uev_io_init(&ctx, 6, libc::EPOLLIN), uev_io_t::Done(-1)));
}

#[test]
fn io_start_refused() {
    let mut ctx = uev_ctx::<2>::default();
    assert_eq!(uev_io_start(&mut ctx, 0, 5, libc::EPOLLIN, -1, libc::EBADF), -1);
    assert_eq!(ctx.watchers[0].type_, uev_type_t::UEV_EVENT_TYPE);
    assert_eq!(ctx.workaround, 0);
    // EPERM, but not stdin
    assert_eq!(uev_io_start(&mut ctx, 0, 5, libc::EPOLLIN, -1, libc::EPERM), -1);
    // EPERM on stdin, but not a plain read watcher
    assert_eq!(uev_io_start(&mut ctx, 0, 0, libc::EPOLLOUT, -1, libc::EPERM), -1);
    assert_eq!(ctx.workaround, 0);
}

#[test]
fn io_start_stdin_workaround() {
    let mut ctx = uev_ctx::<2>::default();
    assert_eq!(uev_io_start(&mut ctx, 1, libc::STDIN_FILENO, libc::EPOLLIN, -1, libc::EPERM), 0);
    assert_eq!(ctx.workaround, 1);
    assert_eq!(ctx.watchers[1].type_, uev_type_t::UEV_IO_TYPE);
    assert_eq!(ctx.watchers[1].fd, 0);
    assert!(!ctx.watchers[1].active);
    // an inactive watcher does not count as watching
    assert!(matches!(uev_io_init(&ctx, 0, libc::EPOLLIN), uev_io_t::Ctl { slot: 0, .. }));
}

#[test]
fn run_blocking_waits_forever() {
    let mut ctx = uev_ctx::<4>::default();
    uev_init(&mut ctx, 9);
    ctx.workaround = 1;
    let (mut run, act) = uev_run(&mut ctx, 0);
    assert!(ctx.running);
    assert_eq!(ctx.workaround, 0);
    assert_eq!(run.timeout, -1);
    assert_eq!(run.phase, uev_phase_t::Waiting);
    assert_eq!(act, uev_act_t::Wait { fd: 9, maxevents: 10, timeout: -1 });
    // interrupted: same wait again
    let again = uev_run_waited(&mut ctx, &mut run, -1, libc::EINTR);
    assert_eq!(again, act);
    assert_eq!(run.phase, uev_phase_t::Waiting);
    // two events
    let d = uev_run_waited(&mut ctx, &mut run, 2, 0);
    assert_eq!(d, uev_act_t::Dispatch(2));
    assert_eq!(run.phase, uev_phase_t::Dispatching);
    ctx.workaround = 1;
    let back = uev_run_dispatched(&mut ctx, &mut run);
    assert_eq!(back, act);
    assert_eq!(ctx.workaround, 0);
    assert_eq!(run.phase, uev_phase_t::Waiting);
}

#[test]
fn run_nonblocking_timeout() {
    let mut ctx = uev_ctx::<4>::default();
    uev_init(&mut ctx, 9);
    let (run, act) = uev_run(&mut ctx, UEV_NONBLOCK);
    assert_eq!(run.timeout, 0);
    assert_eq!(act, uev_act_t::Wait { fd: 9, maxevents: 10, timeout: 0 });
}

#[test]
fn run_fails_on_error() {
    let mut ctx = uev_ctx::<4>::default();
    uev_init(&mut ctx, 9);
    let (mut run, _) = uev_run(&mut ctx, 0);
    let e = uev_run_waited(&mut ctx, &mut run, -1, libc::EBADF);
    assert_eq!(e, uev_act_t::Exit(-2));
    assert_eq!(run.phase, uev_phase_t::Finished);
    // a blocking wait that returns nothing without an error is a failure too
    let (mut run, _) = uev_run(&mut ctx, 0);
    assert_eq!(uev_run_waited(&mut ctx, &mut run, 0, 0), uev_act_t::Exit(-2));
}

#[test]
fn run_nonblocking_ends_without_event() {
    let mut ctx = uev_ctx::<4>::default();
    uev_init(&mut ctx, 9);
    let (mut run, _) = uev_run(&mut ctx, UEV_NONBLOCK);
    assert!(run.nonblock);
    assert!(!run.once);
    // even with a stale EINTR in errno
    assert_eq!(uev_run_waited(&mut ctx, &mut run, 0, libc::EINTR), uev_act_t::Exit(-1));
    assert_eq!(run.phase, uev_phase_t::Finished);
    let (mut run, _) = uev_run(&mut ctx, UEV_NONBLOCK);
    assert_eq!(uev_run_waited(&mut ctx, &mut run, 0, 0), uev_act_t::Exit(-1));
    // an interrupted non-blocking wait that failed is tried again
    let (mut run, act) = uev_run(&mut ctx, UEV_NONBLOCK);
    assert_eq!(uev_run_waited(&mut ctx, &mut run, -1, libc::EINTR), act);
    // events are still handed out, and the run goes on
    assert_eq!(uev_run_waited(&mut ctx, &mut run, 1, 0), uev_act_t::Dispatch(1));
    assert_eq!(uev_run_dispatched(&mut ctx, &mut run), act);
}

#[test]
fn run_once_handles_one_batch() {
    let mut ctx = uev_ctx::<4>::default();
    uev_init(&mut ctx, 9);
    let (mut run, act) = uev_run(&mut ctx, UEV_ONCE);
    assert!(run.once);
    assert_eq!(act, uev_act_t::Wait { fd: 9, maxevents: 10, timeout: -1 });
    assert_eq!(uev_run_waited(&mut ctx, &mut run, -1, libc::EINTR), act);
    assert_eq!(uev_run_waited(&mut ctx, &mut run, 3, 0), uev_act_t::Dispatch(3));
    assert_eq!(uev_run_dispatched(&mut ctx, &mut run), uev_act_t::Exit(-1));
    assert_eq!(run.phase, uev_phase_t::Finished);
    // both flags
    let (mut run, act) = uev_run(&mut ctx, UEV_ONCE | UEV_NONBLOCK);
    assert_eq!(act, uev_act_t::Wait { fd: 9, maxevents: 10, timeout: 0 });
    assert_eq!(uev_run_waited(&mut ctx, &mut run, 0, 0), uev_act_t::Exit(-1));
}

#[test]
fn run_stops_when_not_running() {
    let mut ctx = uev_ctx::<4>::default();
    uev_init(&mut ctx, 9);
    let (mut run, _) = uev_run(&mut ctx, 0);
    ctx.running = false;
    assert_eq!(uev_run_waited(&mut ctx, &mut run, -1, libc::EBADF), uev_act_t::Dispatch(0));
    assert_eq!(uev_run_dispatched(&mut ctx, &mut run), uev_act_t::Exit(-1));
    assert_eq!(run.phase, uev_phase_t::Finished);
}

#[test]
fn event_dispatch() {
    let mut ctx = uev_ctx::<4>::default();
    assert_eq!(uev_io_start(&mut ctx, 2, 5, libc::EPOLLIN, 0, 0), 0);
    assert_eq!(uev_event(&ctx, 0, libc::EPOLLHUP as u32), uev_event_t::Ignore);
    assert_eq!(uev_event(&ctx, 5, libc::EPOLLHUP as u32), uev_event_t::Ignore);
    assert_eq!(uev_event(&ctx, 3, libc::EPOLLIN as u32), uev_event_t::Idle);
    assert_eq!(uev_event(&ctx, 3, libc::EPOLLHUP as u32), uev_event_t::IoStop(2));
    assert_eq!(
        uev_event(&ctx, 3, (libc::EPOLLERR | libc::EPOLLIN) as u32),
        uev_event_t::IoStop(2)
    );
    assert_eq!(
        uev_event(&ctx, 1, libc::EPOLLIN as u32),
        uev_event_t::Unsupported(uev_type_t::UEV_EVENT_TYPE)
    );
}

#[test]
fn has_data_cases() {
    assert!(has_data(1, 0, 3));
    assert!(!has_data(0, 0, 3));
    assert!(!has_data(1, -1, 3));
    assert!(!has_data(1, 0, 0));
    assert!(!has_data(-1, 0, 3));
}
