//! Decisions around running a command to completion: the outcome of
//! `waitpid` and the exit code derived from the child's status.  The
//! caller forks, execs and waits.
use vstd::prelude::*;
use crate::sys::{echild, eintr, wexitstatus, wifexited, wifsignaled};

verus! {

/// How waiting for a child ended.
#[derive(Clone, Copy, Debug, PartialEq, Eq, Structural)]
pub enum complete_t {
    /// `waitpid` was interrupted by an unblocked signal: abort.
    Interrupted,
    /// `waitpid` caught SIGCHLD (no such child): abort.
    NoChild,
    /// `waitpid` failed otherwise: report it; the wait yields -1.
    Failed,
    /// The child's status as `waitpid` stored it.
    Status(i32),
}

/// Judges a `waitpid` that returned `rc`, left `errno`, and stored
/// `status`.
pub fn complete(rc: i32, errno: i32, status: i32) -> (r: complete_t)
    ensures
        rc != -1 ==> r == complete_t::Status(status),
        rc == -1 && errno == crate::sys::spec_eintr() ==> r == complete_t::Interrupted,
        rc == -1 && errno == crate::sys::spec_echild() ==> r == complete_t::NoChild,
        rc == -1 && errno != crate::sys::spec_eintr() && errno != crate::sys::spec_echild() ==> r
            == complete_t::Failed,
{
    if rc == -1 {
        if errno == eintr() {
            return complete_t::Interrupted;
        } else if errno == echild() {
            return complete_t::NoChild;
        } else {
            return complete_t::Failed;
        }
    }
    complete_t::Status(status)
}

/// The exit status of a wait status (`WEXITSTATUS`).
pub open spec fn exit_status(status: i32) -> i32 {
    (status >> 8u32) & 0xff
}

/// Whether the child exited normally (`WIFEXITED`).
pub open spec fn exited(status: i32) -> bool {
    (status & 0x7f) == 0
}

/// Whether a signal terminated the child (`WIFSIGNALED`).
pub open spec fn signaled(status: i32) -> bool {
    (status & 0x7f) != 0 && (status & 0x7f) != 0x7f
}

/// What `run` returns for a fork that returned `pid` and a wait that
/// yielded `status`.
pub open spec fn spec_run(pid: i32, status: i32) -> i32 {
    if pid == -1 {
        -1i32
    } else if status == -1 {
        1i32
    } else if !exited(status) && signaled(status) && exit_status(status) == 0 {
        1i32
    } else {
        exit_status(status)
    }
}

/// The result of running a command: `pid` is what `fork` returned to the
/// parent and `status` what waiting for the child yielded (-1 when the
/// wait failed).  -1 when the fork failed, 1 when the wait failed,
/// otherwise the child's exit status, except that a child terminated by a
/// signal, which leaves an exit status of 0, gives 1: a command killed by a
/// signal did not succeed.
pub fn run(pid: i32, status: i32) -> (r: i32)
    ensures
        r == spec_run(pid, status),
{
    if -1 == pid {
        return -1;
    }
    if -1 == status {
        return 1;
    }
    let mut result = wexitstatus(status);
    if wifexited(status) {
    } else if wifsignaled(status) {
        if result == 0 {
            /* Must alert callee that the command did not complete
             * successfully.  This is necessary since not all programs trap
             * signals and change their return code accordingly. */
            result = 1;
        }
    }
    result
}

/// Law: a command's result is -1 (no fork) or an exit code from 0 to 255.
pub proof fn lemma_run_range(pid: i32, status: i32)
    ensures
        spec_run(pid, status) == -1 || 0 <= spec_run(pid, status) <= 255,
{
    assert(0 <= ((status >> 8u32) & 0xff) <= 255) by (bit_vector);
}

/// Law: a child that exited with `code` makes the command's result `code`.
pub proof fn lemma_run_exit_code(pid: i32, code: i32)
    requires
        pid != -1,
        0 <= code <= 255,
    ensures
        spec_run(pid, (code * 256) as i32) == code,
{
    let s: i32 = (code * 256) as i32;
    assert(s != -1 && (s & 0x7f) == 0 && ((s >> 8u32) & 0xff) == code) by (bit_vector)
        requires
            0 <= code <= 255,
            s == code * 256,
    ;
}

/// Law: a child killed by the signal `sig` (with or without a core dump)
/// makes the command's result 1, a failure.
pub proof fn lemma_run_killed(pid: i32, sig: i32, core: bool)
    requires
        pid != -1,
        1 <= sig <= 126,
    ensures
        spec_run(pid, if core { sig | 0x80 } else { sig }) == 1,
{
    let s: i32 = if core { sig | 0x80 } else { sig };
    assert(s != -1 && (s & 0x7f) == sig && ((s >> 8u32) & 0xff) == 0) by (bit_vector)
        requires
            1 <= sig <= 126,
            s == sig || s == sig | 0x80,
    ;
}

/// Law: a failed fork makes the command's result -1, whatever the status;
/// a failed wait after a fork makes it 1.
pub proof fn lemma_run_failures(pid: i32, status: i32)
    ensures
        spec_run(-1i32, status) == -1,
        pid != -1 ==> spec_run(pid, -1i32) == 1,
{
}

} // verus!
