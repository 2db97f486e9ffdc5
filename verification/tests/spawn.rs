use finit::spawn::{complete, complete_t, run};

#[test]
fn complete_outcomes() {
    assert_eq!(complete(42, 0, 0x0100), complete_t::Status(0x0100));
    assert_eq!(complete(-1, libc::EINTR, 0), complete_t::Interrupted);
    assert_eq!(complete(-1, libc::ECHILD, 0), complete_t::NoChild);
    assert_eq!(complete(-1, libc::EINVAL, 0), complete_t::Failed);
}

#[test]
fn run_results() {
    assert_eq!(run(-1, 0), -1);
    assert_eq!(run(10, -1), 1);
    assert_eq!(run(10, 0), 0);
    assert_eq!(run(10, 3 << 8), 3);
    assert_eq!(run(10, 255 << 8), 255);
    // killed by SIGKILL: a failure
    assert_eq!(run(10, 9), 1);
    // killed by SIGSEGV with a core dump: a failure
    assert_eq!(run(10, 0x80 | 11), 1);
    // signalled with a non-zero high byte: that byte
    assert_eq!(run(10, (2 << 8) | 15), 2);
    // stopped by SIGSTOP: neither exited nor signalled
    assert_eq!(run(10, (19 << 8) | 0x7f), 19);
}

#[test]
fn status_decoding_matches_libc() {
    for status in [0, 3 << 8, 9, 0x80 | 11, (2 << 8) | 15, (19 << 8) | 0x7f, -1, i32::MIN] {
        let expected = if libc::WIFSIGNALED(status) && !libc::WIFEXITED(status)
            && libc::WEXITSTATUS(status) == 0 && status != -1
        {
            1
        } else if status == -1 {
            1
        } else {
            libc::WEXITSTATUS(status)
        };
        assert_eq!(run(10, status), expected);
    }
}

#[test]
fn libc_values_as_stated() {
    assert_eq!(libc::EPERM, 1);
    assert_eq!(libc::EINTR, 4);
    assert_eq!(libc::ECHILD, 10);
    assert_eq!(libc::EBUSY, 16);
    assert_eq!(libc::STDIN_FILENO, 0);
    assert_eq!(libc::EPOLLIN, 0x1);
    assert_eq!(libc::EPOLLERR, 0x8);
    assert_eq!(libc::EPOLLHUP, 0x10);
    assert_eq!(libc::EPOLLRDHUP, 0x2000);
}
