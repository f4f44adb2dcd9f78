//! Safe names and the paths derived from them.

use vstd::prelude::*;
use crate::error::TimevaultError;
use crate::text::concat_str;

verus! {

/// A character admitted in a safe name: ASCII letter or digit, `.`, `-`, `_`.
pub open spec fn is_safe_char(c: char) -> bool {
    ('a' <= c && c <= 'z') || ('A' <= c && c <= 'Z') || ('0' <= c && c <= '9') || c == '.' || c
        == '-' || c == '_'
}

/// A name that may become a path segment: not empty, not `.` or `..`, and
/// made of safe characters only.
pub open spec fn safe_name(s: Seq<char>) -> bool {
    &&& s.len() > 0
    &&& s != seq!['.']
    &&& s != seq!['.', '.']
    &&& forall|i: int| 0 <= i < s.len() ==> is_safe_char(#[trigger] s[i])
}

/// The file name of a job's lock file.
pub open spec fn lock_file_name(name: Seq<char>) -> Seq<char> {
    "timevault."@ + name + ".pid"@
}

/// The directory that holds the lock files.
pub open spec fn lock_dir() -> Seq<char> {
    "/var/run/"@
}

/// The full path of a job's lock file.
pub open spec fn lock_path_of(name: Seq<char>) -> Seq<char> {
    lock_dir() + lock_file_name(name)
}

/// The text of the error for a job name that is not safe.
pub open spec fn unsafe_job_name_text(name: Seq<char>) -> Seq<char> {
    "job "@ + name + " name must use only letters, digits, '.', '-', '_'"@
}

/// `base` joined with `seg` as `Path::join` does: an absolute `seg`
/// replaces `base`; otherwise a `/` is put between them unless `base` is
/// empty or already ends with one.
pub open spec fn join_path(base: Seq<char>, seg: Seq<char>) -> Seq<char> {
    if seg.len() > 0 && seg[0] == '/' {
        seg
    } else if base.len() == 0 || base.last() == '/' {
        base + seg
    } else {
        base + seq!['/'] + seg
    }
}

/// Whether `c` may stand in a safe name.
pub fn is_safe_char_exec(c: char) -> (r: bool)
    ensures
        r == is_safe_char(c),
{
    ('a' <= c && c <= 'z') || ('A' <= c && c <= 'Z') || ('0' <= c && c <= '9') || c == '.' || c
        == '-' || c == '_'
}

/// Whether `name` is safe to use as a path segment.
pub fn is_safe_name(name: &str) -> (r: bool)
    ensures
        r == safe_name(name@),
{
    let n = name.unicode_len();
    if n == 0 {
        return false;
    }
    if n <= 2 && name.get_char(0) == '.' && name.get_char(n - 1) == '.' {
        assert(name@ =~= seq!['.'] || name@ =~= seq!['.', '.']);
        return false;
    }
    let mut i: usize = 0;
    while i < n
        invariant
            n == name@.len(),
            i <= n,
            forall|j: int| 0 <= j < i ==> is_safe_char(#[trigger] name@[j]),
        decreases n - i,
    {
        if !is_safe_char_exec(name.get_char(i)) {
            return false;
        }
        i = i + 1;
    }
    proof {
        if n == 1 {
            assert(name@ != seq!['.']) by {
                if name@ == seq!['.'] {
                    assert(name@[0] == '.');
                }
            }
        }
        if name@ == seq!['.', '.'] {
            assert(name@[0] == '.' && name@[1] == '.');
        }
    }
    true
}

/// `base` joined with `seg` as a path.
pub fn join_path_exec(base: &str, seg: &str) -> (r: String)
    ensures
        r@ == join_path(base@, seg@),
{
    if seg.unicode_len() > 0 && seg.get_char(0) == '/' {
        return String::from_str(seg);
    }
    let n = base.unicode_len();
    if n == 0 || base.get_char(n - 1) == '/' {
        concat_str(base, seg)
    } else {
        let mut s = concat_str(base, "/");
        proof {
            reveal_strlit("/");
        }
        s.append(seg);
        assert(s@ =~= base@ + seq!['/'] + seg@);
        s
    }
}

/// The lock file of the job `name`: `/var/run/timevault.<name>.pid`, for a
/// safe name only.
pub fn job_lock_path(name: &str) -> (r: Result<String, TimevaultError>)
    ensures
        safe_name(name@) <==> r is Ok,
        r matches Ok(p) ==> p@ == lock_path_of(name@),
        r matches Err(e) ==> e == TimevaultError::Message(e->Message_0) && e->Message_0@
            == unsafe_job_name_text(name@),
{
    if !is_safe_name(name) {
        let mut msg = concat_str("job ", name);
        msg.append(" name must use only letters, digits, '.', '-', '_'");
        return Err(TimevaultError::message(msg));
    }
    let mut p = String::from_str("/var/run/");
    p.append("timevault.");
    p.append(name);
    p.append(".pid");
    assert(p@ =~= lock_path_of(name@));
    Ok(p)
}

/// Every safe name has a lock file directly inside `/var/run/`: the path is
/// that directory followed by `timevault.<name>.pid`, a segment without `/`.
pub proof fn lemma_lock_path_is_child(name: Seq<char>)
    requires
        safe_name(name),
    ensures
        lock_path_of(name) == "/var/run/"@ + ("timevault."@ + name + ".pid"@),
        !lock_file_name(name).contains('/'),
{
    reveal_strlit("timevault.");
    reveal_strlit(".pid");
    let f = lock_file_name(name);
    assert forall|i: int| 0 <= i < f.len() implies f[i] != '/' by {
        if i >= 10 && i < 10 + name.len() {
            assert(f[i] == name[i - 10]);
            assert(is_safe_char(name[i - 10]));
        }
    }
}

/// The character of a decimal digit.
pub open spec fn digit_char(d: nat) -> char {
    if d == 0 {
        '0'
    } else if d == 1 {
        '1'
    } else if d == 2 {
        '2'
    } else if d == 3 {
        '3'
    } else if d == 4 {
        '4'
    } else if d == 5 {
        '5'
    } else if d == 6 {
        '6'
    } else if d == 7 {
        '7'
    } else if d == 8 {
        '8'
    } else {
        '9'
    }
}

/// The decimal notation of `n`, without leading zeros.
pub open spec fn decimal(n: nat) -> Seq<char>
    decreases n,
{
    if n < 10 {
        seq![digit_char(n)]
    } else {
        decimal(n / 10).push(digit_char(n % 10))
    }
}

/// The one-character text of a decimal digit.
pub fn digit_text(d: u64) -> (r: &'static str)
    requires
        d < 10,
    ensures
        r@ == seq![digit_char(d as nat)],
{
    proof {
        reveal_strlit("0");
        reveal_strlit("1");
        reveal_strlit("2");
        reveal_strlit("3");
        reveal_strlit("4");
        reveal_strlit("5");
        reveal_strlit("6");
        reveal_strlit("7");
        reveal_strlit("8");
        reveal_strlit("9");
    }
    let r = if d == 0 {
        "0"
    } else if d == 1 {
        "1"
    } else if d == 2 {
        "2"
    } else if d == 3 {
        "3"
    } else if d == 4 {
        "4"
    } else if d == 5 {
        "5"
    } else if d == 6 {
        "6"
    } else if d == 7 {
        "7"
    } else if d == 8 {
        "8"
    } else {
        "9"
    };
    assert(r@ =~= seq![digit_char(d as nat)]);
    r
}

/// The decimal notation of `n`.
pub fn decimal_text(n: u64) -> (r: String)
    ensures
        r@ == decimal(n as nat),
    decreases n,
{
    if n < 10 {
        String::from_str(digit_text(n))
    } else {
        let mut s = decimal_text(n / 10);
        s.append(digit_text(n % 10));
        assert(s@ =~= decimal(n as nat));
        s
    }
}

} // verus!
