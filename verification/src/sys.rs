//! Values and status decoders taken from `libc` (Linux).
//!
//! Each executable item here is a trusted binding: it reads a `libc`
//! constant or calls one of `libc`'s safe status macros, and its contract
//! states the value or formula that `libc` gives on Linux.
use vstd::prelude::*;

verus! {

/// `EPERM` on Linux.
pub open spec fn spec_eperm() -> i32 {
    1
}

/// `EINTR` on Linux.
pub open spec fn spec_eintr() -> i32 {
    4
}

/// `ECHILD` on Linux.
pub open spec fn spec_echild() -> i32 {
    10
}

/// `EBUSY` on Linux.
pub open spec fn spec_ebusy() -> i32 {
    16
}

/// `STDIN_FILENO`.
pub open spec fn spec_stdin_fileno() -> i32 {
    0
}

/// `EPOLLIN` on Linux.
pub open spec fn spec_epollin() -> i32 {
    0x1
}

/// `EPOLLERR` on Linux.
pub open spec fn spec_epollerr() -> i32 {
    0x8
}

/// `EPOLLHUP` on Linux.
pub open spec fn spec_epollhup() -> i32 {
    0x10
}

/// `EPOLLRDHUP` on Linux.
pub open spec fn spec_epollrdhup() -> i32 {
    0x2000
}

/// Reads `libc::EPERM`; claims it is 1, its value on Linux.
#[verifier::external_body]
pub(crate) fn eperm() -> (r: i32)
    ensures
        r == spec_eperm(),
{
    libc::EPERM
}

/// Reads `libc::EINTR`; claims it is 4, its value on Linux.
#[verifier::external_body]
pub(crate) fn eintr() -> (r: i32)
    ensures
        r == spec_eintr(),
{
    libc::EINTR
}

/// Reads `libc::ECHILD`; claims it is 10, its value on Linux.
#[verifier::external_body]
pub(crate) fn echild() -> (r: i32)
    ensures
        r == spec_echild(),
{
    libc::ECHILD
}

/// Reads `libc::EBUSY`; claims it is 16, its value on Linux.
#[verifier::external_body]
pub(crate) fn ebusy() -> (r: i32)
    ensures
        r == spec_ebusy(),
{
    libc::EBUSY
}

/// Reads `libc::STDIN_FILENO`; claims it is 0.
#[verifier::external_body]
pub(crate) fn stdin_fileno() -> (r: i32)
    ensures
        r == spec_stdin_fileno(),
{
    libc::STDIN_FILENO
}

/// Reads `libc::EPOLLIN`; claims it is 0x1, its value on Linux.
#[verifier::external_body]
pub(crate) fn epollin() -> (r: i32)
    ensures
        r == spec_epollin(),
{
    libc::EPOLLIN
}

/// Reads `libc::EPOLLERR`; claims it is 0x8, its value on Linux.
#[verifier::external_body]
pub(crate) fn epollerr() -> (r: i32)
    ensures
        r == spec_epollerr(),
{
    libc::EPOLLERR
}

/// Reads `libc::EPOLLHUP`; claims it is 0x10, its value on Linux.
#[verifier::external_body]
pub(crate) fn epollhup() -> (r: i32)
    ensures
        r == spec_epollhup(),
{
    libc::EPOLLHUP
}

/// Reads `libc::EPOLLRDHUP`; claims it is 0x2000, its value on Linux.
#[verifier::external_body]
pub(crate) fn epollrdhup() -> (r: i32)
    ensures
        r == spec_epollrdhup(),
{
    libc::EPOLLRDHUP
}

/// Calls `libc::WEXITSTATUS`, which on Linux is `(status >> 8) & 0xff`.
#[verifier::external_body]
pub(crate) fn wexitstatus(status: i32) -> (r: i32)
    ensures
        r == (status >> 8u32) & 0xff,
{
    libc::WEXITSTATUS(status)
}

/// Calls `libc::WIFEXITED`, which on Linux is `(status & 0x7f) == 0`.
#[verifier::external_body]
pub(crate) fn wifexited(status: i32) -> (r: bool)
    ensures
        r == ((status & 0x7f) == 0),
{
    libc::WIFEXITED(status)
}

/// Calls `libc::WIFSIGNALED`, which on Linux is
/// `((status & 0x7f) + 1) as i8 >= 2`, that is: the low seven bits are
/// neither 0 (exited) nor 0x7f (stopped).
#[verifier::external_body]
pub(crate) fn wifsignaled(status: i32) -> (r: bool)
    ensures
        r == ((status & 0x7f) != 0 && (status & 0x7f) != 0x7f),
{
    libc::WIFSIGNALED(status)
}

} // verus!
