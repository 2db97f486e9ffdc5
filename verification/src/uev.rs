//! The `uev` event-loop context: its watchers, its initialisation, and the
//! decisions of its event loop.  The epoll calls themselves are made by the
//! caller, which hands their results to the functions here.
use vstd::prelude::*;
use crate::sys::{eintr, eperm, epollerr, epollhup, epollrdhup, epollin, stdin_fileno};

verus! {

/// Max. number of simultaneous events.
pub const UEV_MAX_EVENTS: usize = 10;

/// Run flag: run the loop once.
pub const UEV_ONCE: i32 = 1;

/// Run flag: exit if no event is pending.
pub const UEV_NONBLOCK: i32 = 2;

/// I/O, timer, or signal watcher.
#[derive(Clone, Copy, Debug, PartialEq, Eq, Structural)]
pub enum uev_type_t {
    UEV_IO_TYPE,
    UEV_SIGNAL_TYPE,
    UEV_TIMER_TYPE,
    UEV_CRON_TYPE,
    UEV_EVENT_TYPE,
}

/// A watcher.  A slot of the context that holds `UEV_EVENT_TYPE` is free.
#[derive(Clone, Copy, Debug)]
pub struct uev {
    pub type_: uev_type_t,
    pub fd: i32,
    pub events: i32,
    pub active: bool,
}

pub type uev_t = uev;

impl uev {
    /// Whether the watcher is registered with epoll.
    pub open spec fn spec_active(&self) -> bool {
        self.active
    }

    /// An I/O watcher on `fd` for `events`, registered with epoll or not.
    pub open spec fn spec_io(fd: i32, events: i32, active: bool) -> uev {
        uev { type_: uev_type_t::UEV_IO_TYPE, fd, events, active }
    }

    /// The empty watcher that fills a free slot.
    pub open spec fn spec_default() -> uev {
        uev { type_: uev_type_t::UEV_EVENT_TYPE, fd: 0, events: 0, active: false }
    }
}

impl Default for uev {
    fn default() -> (r: Self)
        ensures
            r == uev::spec_default(),
    {
        uev { type_: uev_type_t::UEV_EVENT_TYPE, fd: 0, events: 0, active: false }
    }
}

/// Event loop context, one per process and thread.
pub struct uev_ctx<const N: usize> {
    pub running: bool,
    pub fd: i32,
    pub maxevents: usize,
    pub watchers: [uev; N],
    pub workaround: u32,
}

pub type uev_ctx_t<const N: usize> = uev_ctx<N>;

impl<const N: usize> Default for uev_ctx<N> {
    fn default() -> (r: Self)
        ensures
            !r.running,
            r.fd == 0,
            r.maxevents == 0,
            r.workaround == 0,
            r.watchers@.len() == N,
            forall|i: int| 0 <= i < N ==> r.watchers@[i] == uev::spec_default(),
    {
        uev_ctx {
            running: false,
            fd: 0i32,
            maxevents: 0usize,
            watchers: [uev { type_: uev_type_t::UEV_EVENT_TYPE, fd: 0, events: 0, active: false }; N],
            workaround: 0u32,
        }
    }
}

/// Installs a freshly created epoll descriptor `fd` in `ctx`.  When it is
/// negative the creation failed: -1, `ctx` unchanged.  Otherwise 0, and
/// `Some` of the old descriptor when `close_old` asks that it be closed.
fn _init<const N: usize>(ctx: &mut uev_ctx_t<N>, close_old: i32, fd: i32) -> (r: (i32, Option<i32>))
    ensures
        fd < 0 ==> r == (-1i32, None::<i32>) && *final(ctx) == *old(ctx),
        fd >= 0 ==> {
            &&& r.0 == 0
            &&& r.1 == if close_old != 0 { Some(old(ctx).fd) } else { None }
            &&& *final(ctx) == (uev_ctx { fd, ..*old(ctx) })
        },
{
    if fd < 0 {
        return (-1, None);
    }
    let to_close = if close_old != 0 { Some(ctx.fd) } else { None };
    ctx.fd = fd;
    (0, to_close)
}


/// The first step of initialising `ctx`: checks and sets the number of
/// events a wait may return.  -1 when `maxevents` is 0: `ctx` is unchanged
/// and no epoll descriptor is to be created.  Otherwise 0, with `maxevents`
/// set: the caller then creates the epoll descriptor with `epoll_create1`
/// and installs it with `_init`.
fn uev_init1<const N: usize>(ctx: &mut uev_ctx_t<N>, maxevents: usize) -> (r: i32)
    ensures
        maxevents < 1 ==> r == -1 && *final(ctx) == *old(ctx),
        maxevents >= 1 ==> r == 0 && *final(ctx) == (uev_ctx { maxevents, ..*old(ctx) }),
{
    if maxevents < 1 {
        return -1;
    }
    ctx.maxevents = maxevents;
    0
}

/// Initialises the event loop context with room for `UEV_MAX_EVENTS`
/// events per wait and the epoll descriptor `epoll_fd`, which the caller
/// obtained from `epoll_create1(EPOLL_CLOEXEC)` (a descriptor is always
/// wanted, since `UEV_MAX_EVENTS` passes `uev_init1`).  Returns 0 on success and
/// -1 when `epoll_fd` is negative (the creation failed); `maxevents` is set
/// either way and nothing else changes.
pub fn uev_init<const N: usize>(ctx: &mut uev_ctx_t<N>, epoll_fd: i32) -> (r: i32)
    ensures
        r == (if epoll_fd < 0 { -1i32 } else { 0i32 }),
        final(ctx).maxevents == UEV_MAX_EVENTS,
        final(ctx).fd == (if epoll_fd < 0 { old(ctx).fd } else { epoll_fd }),
        final(ctx).running == old(ctx).running,
        final(ctx).workaround == old(ctx).workaround,
        final(ctx).watchers == old(ctx).watchers,
{
    let rc = uev_init1(ctx, UEV_MAX_EVENTS);
    if rc != 0 {
        return rc;
    }
    let (rc, _) = _init(ctx, 0, epoll_fd);
    rc
}


/// Whether a slot holds no watcher.
pub open spec fn uev_slot_free(w: uev) -> bool {
    w.type_ == uev_type_t::UEV_EVENT_TYPE
}

/// Whether an active I/O watcher on `fd` is among `ws`.
pub open spec fn uev_io_watching(ws: Seq<uev>, fd: i32) -> bool {
    exists|i: int|
        0 <= i < ws.len() && ws[i].type_ == uev_type_t::UEV_IO_TYPE && ws[i].fd == fd
            && #[trigger] ws[i].spec_active()
}

/// Whether `i` is the first free slot of `ws`.
pub open spec fn uev_first_free(ws: Seq<uev>, i: int) -> bool {
    &&& 0 <= i < ws.len()
    &&& uev_slot_free(ws[i])
    &&& forall|j: int| 0 <= j < i ==> !uev_slot_free(#[trigger] ws[j])
}

/// What `uev_io_init` decides before the descriptor is handed to epoll.
pub enum uev_io_t {
    /// Nothing is registered; the value is the result of the call.
    Done(i32),
    /// Add `fd` to the epoll set (`EPOLL_CTL_ADD`) for `mask`, with `data`
    /// as the event's data, then report the outcome to `uev_io_start` with
    /// `slot`.
    Ctl { slot: usize, mask: u32, data: u64 },
}

/// The epoll event mask of an I/O watcher for `events`.
pub open spec fn uev_io_mask(events: i32) -> u32 {
    (events | crate::sys::spec_epollrdhup()) as u32
}

/// The decision of `uev_io_init` on the watchers `ws`.
pub open spec fn spec_uev_io_init(ws: Seq<uev>, fd: i32, events: i32) -> uev_io_t {
    if fd < 0 {
        uev_io_t::Done(-1i32)
    } else if uev_io_watching(ws, fd) {
        uev_io_t::Done(0i32)
    } else if exists|i: int| uev_first_free(ws, i) {
        let i = choose|i: int| uev_first_free(ws, i);
        uev_io_t::Ctl { slot: i as usize, mask: uev_io_mask(events), data: (i + 1) as u64 }
    } else {
        uev_io_t::Done(-1i32)
    }
}

proof fn lemma_first_free_unique(ws: Seq<uev>, i: int, k: int)
    requires
        uev_first_free(ws, i),
        uev_first_free(ws, k),
    ensures
        i == k,
{
    if i < k {
        assert(!uev_slot_free(ws[i]));
    } else if k < i {
        assert(!uev_slot_free(ws[k]));
    }
}

/// Starts watching `fd` for the epoll `events`: -1 when `fd` is negative or
/// no slot is free, 0 when an active I/O watcher on `fd` exists already,
/// and otherwise the registration the caller is to make with epoll.
pub fn uev_io_init<const N: usize>(ctx: &uev_ctx_t<N>, fd: i32, events: i32) -> (r: uev_io_t)
    ensures
        r == spec_uev_io_init(ctx.watchers@, fd, events),
{
    if fd < 0 {
        return uev_io_t::Done(-1);
    }
    let mut free: Option<usize> = None;
    let mut i: usize = 0;
    while i < N
        invariant
            0 <= i <= N,
            fd >= 0,
            ctx.watchers@.len() == N,
            forall|j: int|
                0 <= j < i ==> !(ctx.watchers@[j].type_ == uev_type_t::UEV_IO_TYPE
                    && ctx.watchers@[j].fd == fd && #[trigger] ctx.watchers@[j].spec_active()),
            match free {
                Some(k) => k < i && uev_first_free(ctx.watchers@, k as int),
                None => forall|j: int| 0 <= j < i ==> !uev_slot_free(#[trigger] ctx.watchers@[j]),
            },
        decreases N - i,
    {
        let w = ctx.watchers[i];
        if w.type_ == uev_type_t::UEV_IO_TYPE && w.fd == fd && w.active {
            assert(ctx.watchers@[i as int].spec_active());
            assert(uev_io_watching(ctx.watchers@, fd));
            return uev_io_t::Done(0);
        }
        if free.is_none() && w.type_ == uev_type_t::UEV_EVENT_TYPE {
            free = Some(i);
        }
        i = i + 1;
    }
    assert(!uev_io_watching(ctx.watchers@, fd));
    match free {
        Some(k) => {
            proof {
                let c = choose|c: int| uev_first_free(ctx.watchers@, c);
                lemma_first_free_unique(ctx.watchers@, c, k as int);
            }
            let mask = #[verifier::truncate] ((events | epollrdhup()) as u32);
            uev_io_t::Ctl { slot: k, mask, data: (k + 1) as u64 }
        },
        None => {
            assert(!exists|c: int| uev_first_free(ctx.watchers@, c));
            uev_io_t::Done(-1i32)
        },
    }
}

/// Records the I/O watcher on `fd` for `events` in `slot` once the caller
/// has asked epoll to add it: `ctl_rc` is what `epoll_ctl` returned and
/// `errno` the error it left.  When epoll accepted, the watcher is active.
/// When it refused with `EPERM` a plain read watcher on stdin (a regular
/// file, as in `application < file.txt`) is still recorded, inactive, and
/// the context's `workaround` is set.  Any other refusal gives -1 and
/// leaves the context unchanged; otherwise 0.
pub fn uev_io_start<const N: usize>(
    ctx: &mut uev_ctx_t<N>,
    slot: usize,
    fd: i32,
    events: i32,
    ctl_rc: i32,
    errno: i32,
) -> (r: i32)
    requires
        slot < N,
    ensures
        ctl_rc >= 0 ==> r == 0 && *final(ctx) == (uev_ctx {
            watchers: final(ctx).watchers,
            ..*old(ctx)
        }) && final(ctx).watchers@ == old(ctx).watchers@.update(
            slot as int,
            uev::spec_io(fd, events, true),
        ),
        ctl_rc < 0 && (errno != crate::sys::spec_eperm() || events != crate::sys::spec_epollin()
            || fd != crate::sys::spec_stdin_fileno()) ==> r
            == -1 && *final(ctx) == *old(ctx),
        ctl_rc < 0 && errno == crate::sys::spec_eperm() && events == crate::sys::spec_epollin()
            && fd == crate::sys::spec_stdin_fileno() ==> r == 0
            && *final(ctx) == (uev_ctx {
            watchers: final(ctx).watchers,
            workaround: 1,
            ..*old(ctx)
        }) && final(ctx).watchers@ == old(ctx).watchers@.update(
            slot as int,
            uev::spec_io(fd, events, false),
        ),
{
    let mut w = uev { type_: uev_type_t::UEV_IO_TYPE, fd, events, active: true };
    if ctl_rc < 0 {
        if errno != eperm() {
            return -1;
        }
        /* Handle special case: `application < file.txt` */
        if w.events != epollin() {
            return -1;
        }
        /* Only allow this special handling for stdin */
        if w.fd != stdin_fileno() {
            return -1;
        }
        ctx.workaround = 1;
        w.active = false;
    }
    ctx.watchers[slot] = w;
    0
}


/// Where the event loop stands between two calls.
#[derive(Clone, Copy, Debug, PartialEq, Eq, Structural)]
pub enum uev_phase_t {
    /// Waiting on epoll: the next call is `uev_run_waited`.
    Waiting,
    /// Handing out the events of a wait: the next call is `uev_run_dispatched`.
    Dispatching,
    /// The loop has returned.
    Finished,
}

/// The state of one run of the event loop.
#[derive(Clone, Copy, Debug, PartialEq, Eq, Structural)]
pub struct uev_run_t {
    /// The epoll timeout in ms that the run flags chose.
    pub timeout: i32,
    /// `UEV_ONCE`: the run ends after one batch of events.
    pub once: bool,
    /// `UEV_NONBLOCK`: the run ends when a wait finds no event.
    pub nonblock: bool,
    pub phase: uev_phase_t,
}

/// What the caller of the event loop is to do next.
#[derive(Clone, Copy, Debug, PartialEq, Eq, Structural)]
pub enum uev_act_t {
    /// Call `epoll_wait(fd, events, maxevents, timeout)` and report the
    /// result and `errno` to `uev_run_waited`.
    Wait { fd: i32, maxevents: i32, timeout: i32 },
    /// Handle the first `count` events of the wait (see `uev_event`), then
    /// call `uev_run_dispatched`.
    Dispatch(usize),
    /// Leave the loop with this value; for -2 after calling `uev_exit`.
    Exit(i32),
}

/// The epoll timeout for the run `flags`: 0 with `UEV_NONBLOCK`, else -1.
pub open spec fn uev_timeout(flags: i32) -> i32 {
    if flags & UEV_NONBLOCK != 0 {
        0i32
    } else {
        -1i32
    }
}

/// The state of a run started with `flags`, in `phase`.
pub open spec fn uev_run_state(flags: i32, phase: uev_phase_t) -> uev_run_t {
    uev_run_t {
        timeout: uev_timeout(flags),
        once: flags & UEV_ONCE != 0,
        nonblock: flags & UEV_NONBLOCK != 0,
        phase,
    }
}

/// The wait that the loop asks for on `ctx` with `timeout`.
pub open spec fn uev_wait_act<const N: usize>(ctx: uev_ctx<N>, timeout: i32) -> uev_act_t {
    uev_act_t::Wait { fd: ctx.fd, maxevents: ctx.maxevents as i32, timeout }
}

/// The head of the loop, `while ctx.running { ctx.workaround = 0; wait }`,
/// and the return of -1 once the context stops running.
pub open spec fn uev_loop_head<const N: usize>(ctx: uev_ctx<N>, run: uev_run_t) -> (
    uev_ctx<N>,
    uev_run_t,
    uev_act_t,
) {
    if ctx.running {
        let c = uev_ctx { workaround: 0, ..ctx };
        (c, uev_run_t { phase: uev_phase_t::Waiting, ..run }, uev_wait_act(c, run.timeout))
    } else {
        (ctx, uev_run_t { phase: uev_phase_t::Finished, ..run }, uev_act_t::Exit(-1i32))
    }
}

/// Starting the loop: the context runs, then the loop head.
pub open spec fn spec_uev_run<const N: usize>(ctx: uev_ctx<N>, flags: i32) -> (
    uev_ctx<N>,
    uev_run_t,
    uev_act_t,
) {
    uev_loop_head(uev_ctx { running: true, ..ctx }, uev_run_state(flags, uev_phase_t::Waiting))
}

/// After a wait that returned `nfds` and left `errno`: hand out the `nfds`
/// events when there are some, or none when the context stopped running;
/// end the run with -1 when a non-blocking wait found no event; wait again
/// when a signal interrupted the wait; and end with -2 on any other error.
pub open spec fn spec_uev_run_waited<const N: usize>(
    ctx: uev_ctx<N>,
    run: uev_run_t,
    nfds: i32,
    errno: i32,
) -> (uev_ctx<N>, uev_run_t, uev_act_t) {
    if nfds > 0 || !ctx.running {
        (
            ctx,
            uev_run_t { phase: uev_phase_t::Dispatching, ..run },
            uev_act_t::Dispatch(if nfds > 0 { nfds as usize } else { 0 }),
        )
    } else if nfds == 0 && run.nonblock {
        (ctx, uev_run_t { phase: uev_phase_t::Finished, ..run }, uev_act_t::Exit(-1i32))
    } else if errno == crate::sys::spec_eintr() {
        (ctx, run, uev_wait_act(ctx, run.timeout))
    } else {
        (ctx, uev_run_t { phase: uev_phase_t::Finished, ..run }, uev_act_t::Exit(-2i32))
    }
}

/// After the events of a wait were handled: the end of a `UEV_ONCE` run
/// with -1, else back to the loop head.
pub open spec fn spec_uev_run_dispatched<const N: usize>(ctx: uev_ctx<N>, run: uev_run_t) -> (
    uev_ctx<N>,
    uev_run_t,
    uev_act_t,
) {
    if run.once {
        (ctx, uev_run_t { phase: uev_phase_t::Finished, ..run }, uev_act_t::Exit(-1i32))
    } else {
        uev_loop_head(ctx, run)
    }
}

fn uev_loop_head_exec<const N: usize>(ctx: &mut uev_ctx_t<N>, run: &mut uev_run_t) -> (act:
    uev_act_t)
    ensures
        (*final(ctx), *final(run), act) == uev_loop_head(*old(ctx), *old(run)),
{
    if ctx.running {
        ctx.workaround = 0;
        run.phase = uev_phase_t::Waiting;
        uev_act_t::Wait {
            fd: ctx.fd,
            maxevents: #[verifier::truncate] (ctx.maxevents as i32),
            timeout: run.timeout,
        }
    } else {
        run.phase = uev_phase_t::Finished;
        uev_act_t::Exit(-1)
    }
}

/// Starts the event loop with the run `flags` (`UEV_ONCE`,
/// `UEV_NONBLOCK`): the context runs, and the first action is the first
/// wait, with timeout 0 for a non-blocking run and -1 otherwise.
pub fn uev_run<const N: usize>(ctx: &mut uev_ctx_t<N>, flags: i32) -> (r: (uev_run_t, uev_act_t))
    ensures
        (*final(ctx), r.0, r.1) == spec_uev_run(*old(ctx), flags),
{
    let nonblock = (flags & UEV_NONBLOCK) != 0;
    let timeout = if nonblock {
        0
    } else {
        -1
    };
    let mut run = uev_run_t {
        timeout,
        once: (flags & UEV_ONCE) != 0,
        nonblock,
        phase: uev_phase_t::Waiting,
    };
    /* Start the event loop */
    ctx.running = true;
    let act = uev_loop_head_exec(ctx, &mut run);
    (run, act)
}

/// Reports a wait that returned `nfds` and left `errno`.
///
/// The count to dispatch is the `nfds` that this wait returned: every
/// event of the wait is handed out, none is dropped.
pub fn uev_run_waited<const N: usize>(
    ctx: &mut uev_ctx_t<N>,
    run: &mut uev_run_t,
    nfds: i32,
    errno: i32,
) -> (act: uev_act_t)
    requires
        old(run).phase == uev_phase_t::Waiting,
    ensures
        (*final(ctx), *final(run), act) == spec_uev_run_waited(*old(ctx), *old(run), nfds, errno),
{
    if nfds > 0 || !ctx.running {
        run.phase = uev_phase_t::Dispatching;
        let count: usize = if nfds > 0 {
            nfds as usize
        } else {
            0
        };
        return uev_act_t::Dispatch(count);
    }
    if nfds == 0 && run.nonblock {
        /* No event pending: a non-blocking run ends */
        run.phase = uev_phase_t::Finished;
        return uev_act_t::Exit(-1);
    }
    if errno == eintr() {
        /* Signalled, try again */
        return uev_act_t::Wait {
            fd: ctx.fd,
            maxevents: #[verifier::truncate] (ctx.maxevents as i32),
            timeout: run.timeout,
        };
    }
    /* Unrecoverable error, cleanup and exit with error. */
    run.phase = uev_phase_t::Finished;
    uev_act_t::Exit(-2)
}

/// Reports that the events of the last wait were handled.
pub fn uev_run_dispatched<const N: usize>(ctx: &mut uev_ctx_t<N>, run: &mut uev_run_t) -> (act:
    uev_act_t)
    requires
        old(run).phase == uev_phase_t::Dispatching,
    ensures
        (*final(ctx), *final(run), act) == spec_uev_run_dispatched(*old(ctx), *old(run)),
{
    if run.once {
        /* UEV_ONCE: one batch of events only */
        run.phase = uev_phase_t::Finished;
        return uev_act_t::Exit(-1);
    }
    uev_loop_head_exec(ctx, run)
}

/// What to do with one event of a wait.
#[derive(Clone, Copy, Debug, PartialEq, Eq, Structural)]
pub enum uev_event_t {
    /// The event names no watcher.
    Ignore,
    /// Nothing to do for this I/O watcher.
    Idle,
    /// Stop the I/O watcher in this slot: its descriptor hung up or failed.
    IoStop(usize),
    /// A watcher of a type that the loop does not handle.
    Unsupported(uev_type_t),
}

/// The decision for an event with epoll `data` and `events` on the
/// watchers `ws`; `data` is one more than the watcher's slot, 0 for none.
pub open spec fn spec_uev_event(ws: Seq<uev>, data: u64, events: u32) -> uev_event_t {
    if data == 0 || data > ws.len() {
        uev_event_t::Ignore
    } else {
        let w = ws[data - 1];
        match w.type_ {
            uev_type_t::UEV_IO_TYPE => if (events as i32) & (crate::sys::spec_epollhup()
                | crate::sys::spec_epollerr()) != 0 {
                uev_event_t::IoStop((data - 1) as usize)
            } else {
                uev_event_t::Idle
            },
            t => uev_event_t::Unsupported(t),
        }
    }
}

/// Decides what to do with one event that a wait returned.
pub fn uev_event<const N: usize>(ctx: &uev_ctx_t<N>, data: u64, events: u32) -> (r: uev_event_t)
    ensures
        r == spec_uev_event(ctx.watchers@, data, events),
{
    if data == 0 || data > N as u64 {
        return uev_event_t::Ignore;
    }
    let slot = (data - 1) as usize;
    let w = ctx.watchers[slot];
    match w.type_ {
        uev_type_t::UEV_IO_TYPE => {
            if (#[verifier::truncate] (events as i32) & (epollhup() | epollerr())) != 0 {
                uev_event_t::IoStop(slot)
            } else {
                uev_event_t::Idle
            }
        },
        t => uev_event_t::Unsupported(t),
    }
}

/// Whether input is pending: `select_rc` is what a zero-timeout `select`
/// on the descriptor returned, and, when it was positive, `ioctl_rc` and
/// `pending` are the result and count of `ioctl(FIONREAD)`.
pub fn has_data(select_rc: i32, ioctl_rc: i32, pending: i32) -> (r: bool)
    ensures
        r == (select_rc > 0 && ioctl_rc == 0 && pending > 0),
{
    if select_rc > 0 {
        return ioctl_rc == 0 && pending > 0;
    }
    false
}


/// Law: once epoll accepted an I/O watcher on `fd`, starting to watch
/// `fd` again registers nothing and answers 0.
pub proof fn lemma_uev_io_init_twice(ws: Seq<uev>, fd: i32, events: i32, events2: i32)
    requires
        ws.len() <= usize::MAX,
        spec_uev_io_init(ws, fd, events) is Ctl,
    ensures
        spec_uev_io_init(
            ws.update(spec_uev_io_init(ws, fd, events)->slot as int, uev::spec_io(fd, events, true)),
            fd,
            events2,
        ) == uev_io_t::Done(0i32),
{
    let i = choose|i: int| uev_first_free(ws, i);
    assert(spec_uev_io_init(ws, fd, events)->slot as int == i);
    let ws2 = ws.update(i, uev::spec_io(fd, events, true));
    assert(ws2[i].type_ == uev_type_t::UEV_IO_TYPE && ws2[i].fd == fd);
    assert(ws2[i].spec_active());
    assert(uev_io_watching(ws2, fd));
}

/// Law: an event whose data is the one `uev_io_init` chose for a watcher
/// recorded by `uev_io_start` reaches that watcher: a hang-up or an error
/// stops it, anything else leaves it idle.
pub proof fn lemma_uev_event_reaches_io(
    ws: Seq<uev>,
    fd: i32,
    events: i32,
    active: bool,
    events2: i32,
    revents: u32,
)
    requires
        ws.len() <= usize::MAX,
        spec_uev_io_init(ws, fd, events) is Ctl,
    ensures
        ({
            let c = spec_uev_io_init(ws, fd, events);
            spec_uev_event(ws.update(c->slot as int, uev::spec_io(fd, events2, active)), c->data, revents)
                == if (#[verifier::truncate] (revents as i32)) & (crate::sys::spec_epollhup() | crate::sys::spec_epollerr())
                != 0 {
                uev_event_t::IoStop(c->slot)
            } else {
                uev_event_t::Idle
            }
        }),
{
    let i = choose|i: int| uev_first_free(ws, i);
    let c = spec_uev_io_init(ws, fd, events);
    assert(c->slot as int == i && c->data == i + 1);
    let ws2 = ws.update(i, uev::spec_io(fd, events2, active));
    assert(ws2[c->data - 1].type_ == uev_type_t::UEV_IO_TYPE);
}

/// Law: the steps of the event loop change neither the context's epoll
/// descriptor, its `maxevents` nor its watchers, nor the run's timeout and
/// flags.
pub proof fn lemma_uev_run_keeps_context<const N: usize>(
    ctx: uev_ctx<N>,
    run: uev_run_t,
    flags: i32,
    nfds: i32,
    errno: i32,
)
    ensures
        ({
            let (c, r, a) = spec_uev_run(ctx, flags);
            c.fd == ctx.fd && c.maxevents == ctx.maxevents && c.watchers == ctx.watchers
        }),
        ({
            let (c, r, a) = spec_uev_run_waited(ctx, run, nfds, errno);
            c == ctx && r == (uev_run_t { phase: r.phase, ..run })
        }),
        ({
            let (c, r, a) = spec_uev_run_dispatched(ctx, run);
            &&& c.fd == ctx.fd
            &&& c.maxevents == ctx.maxevents
            &&& c.watchers == ctx.watchers
            &&& c.running == ctx.running
            &&& r == (uev_run_t { phase: r.phase, ..run })
        }),
{
}

/// Law: one round of the loop.  After the start, a wait that a signal
/// interrupted (and that is not a non-blocking wait which found nothing)
/// asks for the same wait again, unchanged; a wait that returned events
/// leads, once they are handled, back to the state and the wait of the
/// start, or, for `UEV_ONCE`, to the end of the run with -1; a
/// non-blocking wait that found no event ends the run with -1; any other
/// outcome ends it with -2.
pub proof fn lemma_uev_round<const N: usize>(ctx: uev_ctx<N>, flags: i32, nfds: i32, errno: i32)
    ensures
        ({
            let (c1, r1, a1) = spec_uev_run(ctx, flags);
            let (c2, r2, a2) = spec_uev_run_waited(c1, r1, nfds, errno);
            &&& a1 == uev_wait_act(c1, uev_timeout(flags))
            &&& r1 == uev_run_state(flags, uev_phase_t::Waiting)
            &&& c1.running && c1.workaround == 0
            &&& (a2 is Wait ==> (c2, r2, a2) == (c1, r1, a1))
            &&& (a2 is Dispatch && flags & UEV_ONCE == 0 ==> spec_uev_run_dispatched(c2, r2) == (
                c1,
                r1,
                a1,
            ))
            &&& (a2 is Dispatch && flags & UEV_ONCE != 0 ==> spec_uev_run_dispatched(c2, r2).2
                == uev_act_t::Exit(-1i32))
            &&& (a2 is Exit ==> (a2 == uev_act_t::Exit(-1i32) && nfds == 0 && flags & UEV_NONBLOCK
                != 0) || (a2 == uev_act_t::Exit(-2i32) && nfds <= 0 && errno
                != crate::sys::spec_eintr()))
        }),
{
}

/// Law: a non-blocking run never waits twice without an event: when its
/// wait finds none, the run ends with -1, whatever `errno` holds.
pub proof fn lemma_uev_nonblock_ends<const N: usize>(
    ctx: uev_ctx<N>,
    flags: i32,
    errno: i32,
)
    requires
        flags & UEV_NONBLOCK != 0,
    ensures
        ({
            let (c1, r1, a1) = spec_uev_run(ctx, flags);
            let (c2, r2, a2) = spec_uev_run_waited(c1, r1, 0, errno);
            &&& a1 == uev_wait_act(c1, 0)
            &&& a2 == uev_act_t::Exit(-1i32)
            &&& r2.phase == uev_phase_t::Finished
        }),
{
}

/// Whether `act` is what the loop asks for in the phase of `run`: a wait
/// while waiting, a dispatch while dispatching, an exit once finished.
pub open spec fn uev_act_fits(run: uev_run_t, act: uev_act_t) -> bool {
    match act {
        uev_act_t::Wait { .. } => run.phase == uev_phase_t::Waiting,
        uev_act_t::Dispatch(_) => run.phase == uev_phase_t::Dispatching,
        uev_act_t::Exit(_) => run.phase == uev_phase_t::Finished,
    }
}

/// Law: every step of the loop leaves the run in the phase that the action
/// it asks for belongs to, so that following the actions always meets the
/// requirements of the next step.
pub proof fn lemma_uev_act_fits<const N: usize>(
    ctx: uev_ctx<N>,
    run: uev_run_t,
    flags: i32,
    nfds: i32,
    errno: i32,
)
    ensures
        ({
            let (c, r, a) = spec_uev_run(ctx, flags);
            uev_act_fits(r, a)
        }),
        ({
            let (c, r, a) = spec_uev_run_waited(ctx, run, nfds, errno);
            run.phase == uev_phase_t::Waiting ==> uev_act_fits(r, a)
        }),
        ({
            let (c, r, a) = spec_uev_run_dispatched(ctx, run);
            uev_act_fits(r, a)
        }),
{
}

/// Law: a wait of a running loop that returned `nfds > 0` events hands out
/// exactly `nfds` events, all of them, and changes nothing else.
pub proof fn lemma_uev_dispatch_all<const N: usize>(
    ctx: uev_ctx<N>,
    run: uev_run_t,
    nfds: i32,
    errno: i32,
)
    requires
        ctx.running,
        nfds > 0,
    ensures
        spec_uev_run_waited(ctx, run, nfds, errno).2 == uev_act_t::Dispatch(nfds as usize),
        spec_uev_run_waited(ctx, run, nfds, errno).0 == ctx,
        spec_uev_run_waited(ctx, run, nfds, errno).1 == (uev_run_t {
            phase: uev_phase_t::Dispatching,
            ..run
        }),
        nfds as usize == nfds,
{
}

/// Law: starting the loop with `flags` sets the context running, clears
/// `workaround`, and asks for a wait on the context's descriptor for its
/// `maxevents` events, with timeout 0 when `flags` holds `UEV_NONBLOCK`
/// (bit 2) and -1 (block) otherwise; the run remembers `UEV_ONCE` (bit 1)
/// and `UEV_NONBLOCK`.
pub proof fn lemma_uev_run_start<const N: usize>(ctx: uev_ctx<N>, flags: i32)
    ensures
        ({
            let (c, r, a) = spec_uev_run(ctx, flags);
            &&& c == (uev_ctx { running: true, workaround: 0, ..ctx })
            &&& a == (uev_act_t::Wait {
                fd: ctx.fd,
                maxevents: ctx.maxevents as i32,
                timeout: if flags & 2 != 0 { 0i32 } else { -1i32 },
            })
            &&& r.once == (flags & 1 != 0)
            &&& r.nonblock == (flags & 2 != 0)
            &&& r.phase == uev_phase_t::Waiting
        }),
{
}

/// Law: when starting to watch `fd` for `events` asks for a registration,
/// `fd` is not negative, no active I/O watcher on `fd` exists, the slot is
/// the first free one (no watcher of type `UEV_EVENT_TYPE` before it), the
/// event data is the slot plus one, and the epoll mask holds exactly the
/// requested event bits and `EPOLLRDHUP` (0x2000).
pub proof fn lemma_uev_io_init_request(ws: Seq<uev>, fd: i32, events: i32)
    requires
        ws.len() <= usize::MAX,
        spec_uev_io_init(ws, fd, events) is Ctl,
    ensures
        ({
            let c = spec_uev_io_init(ws, fd, events);
            &&& fd >= 0
            &&& forall|j: int|
                0 <= j < ws.len() ==> !(ws[j].type_ == uev_type_t::UEV_IO_TYPE && ws[j].fd == fd
                    && ws[j].active)
            &&& c->slot < ws.len()
            &&& ws[c->slot as int].type_ == uev_type_t::UEV_EVENT_TYPE
            &&& forall|j: int| 0 <= j < c->slot ==> ws[j].type_ != uev_type_t::UEV_EVENT_TYPE
            &&& c->data == c->slot + 1
            &&& c->mask == (events as u32) | 0x2000u32
            &&& c->mask & (events as u32) == events as u32
            &&& c->mask & 0x2000u32 == 0x2000u32
        }),
{
    let i = choose|i: int| uev_first_free(ws, i);
    let c = spec_uev_io_init(ws, fd, events);
    assert(c->slot as int == i);
    assert forall|j: int|
        0 <= j < ws.len() implies !(ws[j].type_ == uev_type_t::UEV_IO_TYPE && ws[j].fd == fd
        && ws[j].active) by {
        if ws[j].type_ == uev_type_t::UEV_IO_TYPE && ws[j].fd == fd && ws[j].active {
            assert(ws[j].spec_active());
            assert(uev_io_watching(ws, fd));
        }
    }
    let m: u32 = c->mask;
    assert(m == (events | 0x2000i32) as u32);
    assert(((events | 0x2000i32) as u32) == (events as u32) | 0x2000u32) by (bit_vector);
    assert(m & (events as u32) == events as u32 && m & 0x2000u32 == 0x2000u32) by (bit_vector)
        requires
            m == (events as u32) | 0x2000u32,
    ;
}

/// Law: an event whose data is 0 or beyond the last slot names no watcher
/// and is ignored; one that names a watcher of a type other than I/O is
/// not handled; one that names an I/O watcher stops it when the event
/// holds `EPOLLHUP` (0x10) or `EPOLLERR` (0x8), and leaves it idle
/// otherwise.
pub proof fn lemma_uev_event_cases(ws: Seq<uev>, data: u64, revents: u32)
    ensures
        data == 0 || data > ws.len() ==> spec_uev_event(ws, data, revents) == uev_event_t::Ignore,
        1 <= data <= ws.len() && ws[data - 1].type_ != uev_type_t::UEV_IO_TYPE ==> spec_uev_event(
            ws,
            data,
            revents,
        ) == uev_event_t::Unsupported(ws[data - 1].type_),
        1 <= data <= ws.len() && ws[data - 1].type_ == uev_type_t::UEV_IO_TYPE ==> spec_uev_event(
            ws,
            data,
            revents,
        ) == if revents & 0x18u32 != 0 {
            uev_event_t::IoStop((data - 1) as usize)
        } else {
            uev_event_t::Idle
        },
{
    let x: i32 = #[verifier::truncate] (revents as i32);
    assert((x & (0x10i32 | 0x8i32) != 0) == (revents & 0x18u32 != 0)) by (bit_vector)
        requires
            x == #[verifier::truncate] (revents as i32),
    ;
}

/// Law: once epoll accepted the watcher, `uev_io_start` records in `slot`
/// an active I/O watcher on `fd` for exactly `events`; with the stdin
/// workaround the same watcher is recorded inactive.
pub proof fn lemma_uev_io_start_records(fd: i32, events: i32, active: bool)
    ensures
        uev::spec_io(fd, events, active).type_ == uev_type_t::UEV_IO_TYPE,
        uev::spec_io(fd, events, active).fd == fd,
        uev::spec_io(fd, events, active).events == events,
        uev::spec_io(fd, events, active).active == active,
{
}

} // verus!
