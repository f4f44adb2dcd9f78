//! Single-writer locking per job: reading a lock file's holder, the
//! decision after each attempt to take the lock, and when to release it.

use vstd::prelude::*;
use crate::error::TimevaultError;
use crate::names::{decimal, decimal_text};
use crate::text::{concat_str, ends_with, starts_with, str_eq, trim, trimmed};
use crate::types::RunMode;

verus! {

/// How many times taking a lock is attempted.
pub const LOCK_ATTEMPTS: u32 = 3;

/// The value of a decimal digit character.
pub open spec fn digit_value(c: char) -> nat {
    (c as u32 - '0' as u32) as nat
}

/// Every character of `s` is an ASCII digit.
pub open spec fn all_digits(s: Seq<char>) -> bool {
    forall|i: int| 0 <= i < s.len() ==> '0' <= #[trigger] s[i] && s[i] <= '9'
}

/// The number that the digits `s` write.
pub open spec fn digits_value(s: Seq<char>) -> nat
    decreases s.len(),
{
    if s.len() == 0 {
        0
    } else {
        digits_value(s.drop_last()) * 10 + digit_value(s.last())
    }
}

/// What `str::parse::<u32>` makes of `s`: an optional `+`, then one or more
/// digits whose value fits in 32 bits.
pub open spec fn u32_text_value(s: Seq<char>) -> Option<u32> {
    let t = if s.len() > 0 && s[0] == '+' {
        s.drop_first()
    } else {
        s
    };
    if t.len() > 0 && all_digits(t) && digits_value(t) <= u32::MAX {
        Some(digits_value(t) as u32)
    } else {
        None
    }
}

/// The process id that a lock file holds: its text, trimmed, read as a
/// 32-bit decimal number.
pub fn lock_holder_pid(text: &str) -> (r: Option<u32>)
    ensures
        r == u32_text_value(trimmed(text@)),
{
    let t = trim(text);
    let n = t.unicode_len();
    let start: usize = if n > 0 && t.get_char(0) == '+' {
        1
    } else {
        0
    };
    let ghost d = if n > 0 && t@[0] == '+' {
        t@.drop_first()
    } else {
        t@
    };
    assert(d =~= t@.subrange(start as int, n as int));
    if start >= n {
        return None;
    }
    let cap: u64 = 0x1_0000_0000;
    let mut acc: u64 = 0;
    let mut i: usize = start;
    while i < n
        invariant
            n == t@.len(),
            start <= i <= n,
            t@ == trimmed(text@),
            d == t@.subrange(start as int, n as int),
            d == if n > 0 && t@[0] == '+' {
                t@.drop_first()
            } else {
                t@
            },
            cap == u32::MAX + 1,
            all_digits(t@.subrange(start as int, i as int)),
            acc == if digits_value(t@.subrange(start as int, i as int)) < cap {
                digits_value(t@.subrange(start as int, i as int))
            } else {
                cap as nat
            },
        decreases n - i,
    {
        let c = t.get_char(i);
        if c < '0' || c > '9' {
            assert(!all_digits(d)) by {
                assert(d[i - start] == c);
                assert(!('0' <= d[i - start] && d[i - start] <= '9'));
            }
            return None;
        }
        let dg: u64 = (c as u32 - '0' as u32) as u64;
        let ghost prev = t@.subrange(start as int, i as int);
        let ghost next = t@.subrange(start as int, i + 1);
        assert(next.drop_last() =~= prev);
        assert(next.last() == c);
        assert(digits_value(next) == digits_value(prev) * 10 + dg);
        if acc >= cap {
            assert(digits_value(next) >= cap) by (nonlinear_arith)
                requires
                    digits_value(next) == digits_value(prev) * 10 + dg,
                    digits_value(prev) >= cap,
            ;
        } else {
            let v = acc * 10 + dg;
            acc = if v < cap {
                v
            } else {
                cap
            };
        }
        assert(all_digits(next)) by {
            assert forall|k: int| 0 <= k < next.len() implies '0' <= #[trigger] next[k] && next[k]
                <= '9' by {
                if k < prev.len() {
                    assert(next[k] == prev[k]);
                }
            }
        }
        i = i + 1;
    }
    if acc >= cap {
        return None;
    }
    Some(acc as u32)
}

/// What one attempt to take a lock found.
#[derive(Debug, Clone, Copy, PartialEq, Eq, Structural)]
pub enum LockObservation {
    /// The lock file was created and holds our process id.
    Created,
    /// The lock file exists and names a live process.
    HeldByLive,
    /// The lock file named no live process and was removed.
    StaleRemoved,
    /// The lock file vanished between the attempt and its reading.
    Vanished,
    /// The filesystem refused an operation.
    Failed,
}

/// What follows an attempt to take a lock.
#[derive(Debug, Clone, Copy, PartialEq, Eq, Structural)]
pub enum LockDecision {
    Acquired,
    /// Another live process holds the lock: it is never stolen.
    Held,
    Retry,
    /// The attempts are used up without the lock.
    GiveUp,
    Fail,
}

/// The decision after attempt number `attempt` (from 1) found `obs`.
pub open spec fn lock_decision_of(attempt: u32, obs: LockObservation) -> LockDecision {
    match obs {
        LockObservation::Created => LockDecision::Acquired,
        LockObservation::HeldByLive => LockDecision::Held,
        LockObservation::Failed => LockDecision::Fail,
        _ => if attempt < LOCK_ATTEMPTS {
            LockDecision::Retry
        } else {
            LockDecision::GiveUp
        },
    }
}

/// Decides what follows attempt number `attempt` to take a lock: a stale
/// or vanished lock file is retried, up to three attempts in all.
pub fn lock_decision(attempt: u32, obs: LockObservation) -> (r: LockDecision)
    ensures
        r == lock_decision_of(attempt, obs),
{
    match obs {
        LockObservation::Created => LockDecision::Acquired,
        LockObservation::HeldByLive => LockDecision::Held,
        LockObservation::Failed => LockDecision::Fail,
        _ => if attempt < LOCK_ATTEMPTS {
            LockDecision::Retry
        } else {
            LockDecision::GiveUp
        },
    }
}

/// Whether a lock file's holder is this process, so that the file may be
/// removed on release: its trimmed text is our process id, and we are alive.
pub fn should_release_lock(text: &str, own_pid: u32, own_pid_alive: bool) -> (r: bool)
    ensures
        r == (trimmed(text@).len() > 0 && trimmed(text@) == decimal(own_pid as nat) && own_pid_alive),
{
    let t = trim(text);
    let own = decimal_text(own_pid as u64);
    t.unicode_len() > 0 && str_eq(t, own.as_str()) && own_pid_alive
}

/// A dry run takes no locks.
pub fn lock_needed(mode: RunMode) -> (r: bool)
    ensures
        r == crate::types::performs_effects(mode),
{
    !mode.dry_run
}

/// The error of a job whose lock another live process holds.
pub fn lock_held_error(job_name: &str) -> (r: TimevaultError)
    ensures
        r matches TimevaultError::Message(m) && m@ == "job "@ + job_name@ + " is already running"@,
{
    let mut m = concat_str("job ", job_name);
    m.append(" is already running");
    TimevaultError::Message(m)
}

/// The error of a lock that could not be taken.
pub fn lock_failed_error(path: &str, detail: &str) -> (r: TimevaultError)
    ensures
        r matches TimevaultError::Message(m) && m@ == "failed to lock "@ + path@ + ": "@ + detail@,
{
    let mut m = concat_str("failed to lock ", path);
    m.append(": ");
    m.append(detail);
    TimevaultError::Message(m)
}

/// The exit code and message of a failed backup run: 3 when a job was
/// already running, 2 when its lock could not be taken, 1 otherwise.
pub open spec fn backup_failure_of(msg: Seq<char>) -> (i32, Seq<char>) {
    let held_prefix = "job "@;
    let held_suffix = " is already running"@;
    let lock_prefix = "failed to lock "@;
    if msg.len() >= held_prefix.len() && msg.take(held_prefix.len() as int) == held_prefix
        && msg.len() >= held_suffix.len() && msg.skip(msg.len() - held_suffix.len()) == held_suffix {
        (3, msg)
    } else if msg.len() >= lock_prefix.len() && msg.take(lock_prefix.len() as int) == lock_prefix {
        (2, msg + " (need write permission; try sudo or adjust permissions)"@)
    } else {
        (1, "backup failed: "@ + msg)
    }
}

/// The exit code and message with which a run ends after a job failed
/// with the message `message`.
pub fn backup_failure(message: &str) -> (r: (i32, String))
    ensures
        r.0 == backup_failure_of(message@).0,
        r.1@ == backup_failure_of(message@).1,
{
    if starts_with(message, "job ") && ends_with(message, " is already running") {
        return (3, String::from_str(message));
    }
    if starts_with(message, "failed to lock ") {
        let mut m = String::from_str(message);
        m.append(" (need write permission; try sudo or adjust permissions)");
        return (2, m);
    }
    (1, concat_str("backup failed: ", message))
}

} // verus!
