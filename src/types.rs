//! Small value types: disk ids, filesystem UUIDs, run policies, run modes.

use vstd::prelude::*;
use crate::names::{safe_name, is_safe_name};
use crate::text::{concat_str, trim, trimmed};

verus! {

/// A disk id: a safe name chosen by the operator (`parse` admits no other).
#[derive(Debug, Clone, PartialEq, Eq, Hash)]
pub struct DiskId(String);

impl View for DiskId {
    type V = Seq<char>;

    closed spec fn view(&self) -> Seq<char> {
        self.0@
    }
}

impl DiskId {
    /// The id as text.
    pub fn as_str(&self) -> (r: &str)
        ensures
            r@ == self@,
    {
        self.0.as_str()
    }

    /// The id `s`, when it is a safe name.
    pub fn parse(s: &str) -> (r: Result<DiskId, String>)
        ensures
            safe_name(s@) <==> r is Ok,
            r matches Ok(d) ==> d@ == s@,
    {
        if s.unicode_len() == 0 || !is_safe_name(s) {
            if s.unicode_len() == 0 || crate::text::str_eq(s, ".") || crate::text::str_eq(s, "..") {
                return Err(String::from_str("disk-id is empty"));
            }
            return Err(String::from_str("disk-id must use only letters, digits, '.', '-', '_'"));
        }
        Ok(DiskId(String::from_str(s)))
    }
}

impl std::str::FromStr for DiskId {
    type Err = String;

    fn from_str(s: &str) -> Result<Self, Self::Err> {
        DiskId::parse(s)
    }
}

/// A filesystem UUID, which keys a physical volume (`parse` admits no blank one).
#[derive(Debug, Clone, PartialEq, Eq, Hash)]
pub struct FsUuid(String);

impl View for FsUuid {
    type V = Seq<char>;

    closed spec fn view(&self) -> Seq<char> {
        self.0@
    }
}

impl FsUuid {
    /// The UUID as text.
    pub fn as_str(&self) -> (r: &str)
        ensures
            r@ == self@,
    {
        self.0.as_str()
    }

    /// The UUID `s`, unless it is blank.
    pub fn parse(s: &str) -> (r: Result<FsUuid, String>)
        ensures
            trimmed(s@).len() > 0 <==> r is Ok,
            r matches Ok(u) ==> u@ == s@,
    {
        if trim(s).unicode_len() == 0 {
            return Err(String::from_str("fs-uuid is empty"));
        }
        Ok(FsUuid(String::from_str(s)))
    }
}

impl std::str::FromStr for FsUuid {
    type Err = String;

    fn from_str(s: &str) -> Result<Self, Self::Err> {
        FsUuid::parse(s)
    }
}

/// When a job runs: on every plain backup, only on request, or never.
#[derive(Debug, Clone, Copy, PartialEq, Eq, Structural)]
pub enum RunPolicy {
    Auto,
    Demand,
    Off,
}

/// How a command runs: without effects, without deletions, with echo.
#[derive(Debug, Clone, Copy, PartialEq, Eq, Structural)]
pub struct RunMode {
    pub dry_run: bool,
    pub safe_mode: bool,
    pub verbose: bool,
}

/// Whether a run changes anything outside the process: every step that
/// writes, mounts, locks or spawns a process is skipped in a dry run.
pub open spec fn performs_effects(mode: RunMode) -> bool {
    !mode.dry_run
}

/// The code of `c` with ASCII upper-case letters taken to lower case.
pub open spec fn lower_code(c: char) -> u32 {
    if 'A' <= c && c <= 'Z' {
        (c as u32 + 32) as u32
    } else {
        c as u32
    }
}

/// Whether `s` equals the lower-case word `w` without regard to ASCII case.
pub open spec fn same_ignoring_case(s: Seq<char>, w: Seq<char>) -> bool {
    s.len() == w.len() && forall|i: int| 0 <= i < s.len() ==> lower_code(#[trigger] s[i]) == w[i] as u32
}

/// The run policy that a configured value names, compared trimmed and
/// without regard to ASCII case.
pub open spec fn policy_named(v: Seq<char>) -> Option<RunPolicy> {
    let k = trimmed(v);
    if same_ignoring_case(k, "auto"@) {
        Some(RunPolicy::Auto)
    } else if same_ignoring_case(k, "demand"@) {
        Some(RunPolicy::Demand)
    } else if same_ignoring_case(k, "off"@) {
        Some(RunPolicy::Off)
    } else {
        None
    }
}

/// The canonical word of a policy.
pub open spec fn policy_word(p: RunPolicy) -> Seq<char> {
    match p {
        RunPolicy::Auto => "auto"@,
        RunPolicy::Demand => "demand"@,
        RunPolicy::Off => "off"@,
    }
}

/// `c` with an ASCII upper-case letter taken to lower case.
pub open spec fn lower_char(c: char) -> char {
    if 'A' <= c && c <= 'Z' {
        ((c as u32) + 32) as char
    } else {
        c
    }
}

/// `s` with its ASCII upper-case letters taken to lower case.
pub open spec fn ascii_lower(s: Seq<char>) -> Seq<char> {
    s.map_values(|c: char| lower_char(c))
}

/// The lower-case ASCII letters, in order.
pub const LOWER_LETTERS: &'static str = "abcdefghijklmnopqrstuvwxyz";

/// The lower-case form of an upper-case ASCII letter, as a one-letter text.
fn lower_letter(c: char) -> (r: &'static str)
    requires
        'A' <= c && c <= 'Z',
    ensures
        r@ == seq![lower_char(c)],
{
    proof {
        reveal_strlit("abcdefghijklmnopqrstuvwxyz");
    }
    let k = (c as u32 - 'A' as u32) as usize;
    let r = LOWER_LETTERS.substring_char(k, k + 1);
    assert(LOWER_LETTERS@[k as int] as u32 == 97 + k);
    assert(r@ =~= seq![lower_char(c)]);
    r
}

/// `s` with ASCII letters `A` to `Z` taken to `a` to `z`, every other
/// character kept.
pub fn to_ascii_lower(s: &str) -> (r: String)
    ensures
        r@ == ascii_lower(s@),
{
    let n = s.unicode_len();
    let mut out = String::new();
    let mut i: usize = 0;
    while i < n
        invariant
            n == s@.len(),
            i <= n,
            out@ == ascii_lower(s@.take(i as int)),
        decreases n - i,
    {
        let c = s.get_char(i);
        if 'A' <= c && c <= 'Z' {
            out.append(lower_letter(c));
        } else {
            let one = s.substring_char(i, i + 1);
            assert(one@ =~= seq![c]);
            out.append(one);
        }
        assert(ascii_lower(s@.take(i + 1)) =~= ascii_lower(s@.take(i as int)).push(lower_char(c)));
        i = i + 1;
    }
    assert(s@.take(n as int) =~= s@);
    out
}

/// Whether `s` equals the lower-case word `w` without regard to ASCII case.
pub fn eq_ignoring_case(s: &str, w: &str) -> (r: bool)
    ensures
        r == same_ignoring_case(s@, w@),
{
    let n = s.unicode_len();
    if n != w.unicode_len() {
        return false;
    }
    let mut i: usize = 0;
    while i < n
        invariant
            n == s@.len(),
            n == w@.len(),
            i <= n,
            forall|j: int| 0 <= j < i ==> lower_code(#[trigger] s@[j]) == w@[j] as u32,
        decreases n - i,
    {
        let c = s.get_char(i);
        let code: u32 = if 'A' <= c && c <= 'Z' {
            c as u32 + 32
        } else {
            c as u32
        };
        if code != w.get_char(i) as u32 {
            return false;
        }
        i = i + 1;
    }
    true
}

impl RunPolicy {
    /// The policy named by `value` (trimmed, any ASCII case): `auto`,
    /// `demand` or `off`.
    pub fn parse(value: &str) -> (r: Result<RunPolicy, String>)
        ensures
            policy_named(value@) matches Some(p) ==> r == Ok::<RunPolicy, String>(p),
            policy_named(value@) is None ==> (r matches Err(m) && m@ == "invalid run policy "@
                + value@ + "; expected auto, demand, or off"@),
    {
        let k = trim(value);
        if eq_ignoring_case(k, "auto") {
            Ok(RunPolicy::Auto)
        } else if eq_ignoring_case(k, "demand") {
            Ok(RunPolicy::Demand)
        } else if eq_ignoring_case(k, "off") {
            Ok(RunPolicy::Off)
        } else {
            let mut m = concat_str("invalid run policy ", value);
            m.append("; expected auto, demand, or off");
            Err(m)
        }
    }

    /// The canonical word of the policy.
    pub fn as_str(&self) -> (r: &'static str)
        ensures
            r@ == policy_word(*self),
    {
        match self {
            RunPolicy::Auto => "auto",
            RunPolicy::Demand => "demand",
            RunPolicy::Off => "off",
        }
    }
}

} // verus!
