//! Command-line preprocessing: legacy flags rewritten into subcommands, and
//! the synchronizer's pass-through arguments split off.

use vstd::prelude::*;
use crate::text::{str_eq, strs_view};

verus! {

/// The words an argument stands for: the legacy flags become subcommands,
/// `--backup` (the default command) disappears.
pub open spec fn expand_arg(a: Seq<char>) -> Seq<Seq<char>> {
    if a == "--disk-enroll"@ {
        seq!["disk"@, "enroll"@]
    } else if a == "--disk-discover"@ {
        seq!["disk"@, "discover"@]
    } else if a == "--backup"@ {
        seq![]
    } else {
        seq![a]
    }
}

/// The arguments `args`, each expanded.
pub open spec fn expand_args(args: Seq<Seq<char>>) -> Seq<Seq<char>>
    decreases args.len(),
{
    if args.len() == 0 {
        seq![]
    } else {
        expand_args(args.drop_last()) + expand_arg(args.last())
    }
}

/// The program name kept, then every other argument expanded.
pub open spec fn preprocessed(raw: Seq<Seq<char>>) -> Seq<Seq<char>> {
    if raw.len() == 0 {
        seq![]
    } else {
        seq![raw[0]] + expand_args(raw.skip(1))
    }
}

/// Appends a copy of `s` to `v`.
fn push_text(v: &mut Vec<String>, s: &str)
    ensures
        strs_view(final(v)@) == strs_view(old(v)@).push(s@),
{
    let ghost before = v@;
    v.push(String::from_str(s));
    assert(strs_view(v@) =~= strs_view(before).push(s@));
}

/// Rewrites the legacy flags `--disk-enroll` and `--disk-discover` into the
/// `disk` subcommands and drops `--backup`; the program name stays first.
pub fn preprocess_args(raw: Vec<String>) -> (r: Vec<String>)
    ensures
        strs_view(r@) == preprocessed(strs_view(raw@)),
{
    let ghost w = strs_view(raw@);
    let mut out: Vec<String> = Vec::new();
    assert(strs_view(out@) =~= Seq::<Seq<char>>::empty());
    if raw.len() == 0 {
        return out;
    }
    push_text(&mut out, raw[0].as_str());
    let mut i: usize = 1;
    assert(w.skip(1).take(0) =~= Seq::<Seq<char>>::empty());
    assert(strs_view(out@) =~= seq![w[0]] + expand_args(w.skip(1).take(0)));
    while i < raw.len()
        invariant
            1 <= i <= raw.len(),
            w == strs_view(raw@),
            strs_view(out@) == seq![w[0]] + expand_args(w.skip(1).take(i - 1)),
        decreases raw.len() - i,
    {
        let a = raw[i].as_str();
        let ghost before = strs_view(out@);
        assert(w.skip(1).take(i as int).drop_last() =~= w.skip(1).take(i - 1));
        assert(w.skip(1).take(i as int).last() == a@);
        if str_eq(a, "--disk-enroll") {
            push_text(&mut out, "disk");
            push_text(&mut out, "enroll");
            assert(strs_view(out@) =~= before + seq!["disk"@, "enroll"@]);
        } else if str_eq(a, "--disk-discover") {
            push_text(&mut out, "disk");
            push_text(&mut out, "discover");
            assert(strs_view(out@) =~= before + seq!["disk"@, "discover"@]);
        } else if str_eq(a, "--backup") {
            assert(strs_view(out@) =~= before + Seq::<Seq<char>>::empty());
        } else {
            push_text(&mut out, a);
            assert(strs_view(out@) =~= before + seq![a@]);
        }
        i = i + 1;
    }
    assert(w.skip(1).take(raw.len() - 1) =~= w.skip(1));
    out
}

/// The position of the first `x` in `s`, or its length.
pub open spec fn position_of(s: Seq<Seq<char>>, x: Seq<char>) -> nat
    decreases s.len(),
{
    if s.len() == 0 || s[0] == x {
        0
    } else {
        1 + position_of(s.drop_first(), x)
    }
}

proof fn lemma_position_bound(s: Seq<Seq<char>>, x: Seq<char>)
    ensures
        position_of(s, x) <= s.len(),
        forall|i: int| 0 <= i < position_of(s, x) ==> #[trigger] s[i] != x,
        position_of(s, x) < s.len() ==> s[position_of(s, x) as int] == x,
    decreases s.len(),
{
    if s.len() > 0 && s[0] != x {
        lemma_position_bound(s.drop_first(), x);
        assert forall|i: int| 0 <= i < position_of(s, x) implies #[trigger] s[i] != x by {
            if i > 0 {
                assert(s[i] == s.drop_first()[i - 1]);
            }
        }
    }
}

/// The arguments for the program (its name, then what precedes the first
/// `--rsync`) and those for the synchronizer (all that follows it).
pub open spec fn rsync_split(raw: Seq<Seq<char>>) -> (Seq<Seq<char>>, Seq<Seq<char>>) {
    if raw.len() == 0 {
        (seq![], seq![])
    } else {
        let rest = raw.skip(1);
        let k = position_of(rest, "--rsync"@) as int;
        (seq![raw[0]] + rest.take(k), if k < rest.len() {
            rest.skip(k + 1)
        } else {
            seq![]
        })
    }
}

/// Splits off the arguments that follow `--rsync`, which are handed to the
/// synchronizer untouched.
pub fn split_rsync_args(raw: Vec<String>) -> (r: (Vec<String>, Vec<String>))
    ensures
        strs_view(r.0@) == rsync_split(strs_view(raw@)).0,
        strs_view(r.1@) == rsync_split(strs_view(raw@)).1,
{
    let ghost w = strs_view(raw@);
    let mut args: Vec<String> = Vec::new();
    let mut extra: Vec<String> = Vec::new();
    assert(strs_view(args@) =~= Seq::<Seq<char>>::empty());
    assert(strs_view(extra@) =~= Seq::<Seq<char>>::empty());
    if raw.len() == 0 {
        return (args, extra);
    }
    push_text(&mut args, raw[0].as_str());
    let ghost rest = w.skip(1);
    proof {
        lemma_position_bound(rest, "--rsync"@);
    }
    let ghost k = position_of(rest, "--rsync"@) as int;
    let mut in_rsync = false;
    let mut i: usize = 1;
    assert(rest.take(0) =~= Seq::<Seq<char>>::empty());
    while i < raw.len()
        invariant
            1 <= i <= raw.len(),
            w == strs_view(raw@),
            rest == w.skip(1),
            k == position_of(rest, "--rsync"@),
            0 <= k <= rest.len(),
            forall|j: int| 0 <= j < k ==> #[trigger] rest[j] != "--rsync"@,
            k < rest.len() ==> rest[k] == "--rsync"@,
            in_rsync <==> k < i - 1,
            !in_rsync ==> strs_view(args@) == seq![w[0]] + rest.take(i - 1) && strs_view(extra@)
                == Seq::<Seq<char>>::empty(),
            in_rsync ==> strs_view(args@) == seq![w[0]] + rest.take(k) && strs_view(extra@)
                == rest.subrange(k + 1, i - 1),
        decreases raw.len() - i,
    {
        let a = raw[i].as_str();
        assert(rest[i - 1] == a@);
        let ghost ba = strs_view(args@);
        let ghost be = strs_view(extra@);
        if in_rsync {
            push_text(&mut extra, a);
            assert(strs_view(extra@) =~= rest.subrange(k + 1, i as int));
        } else if str_eq(a, "--rsync") {
            in_rsync = true;
            assert(rest.subrange(k + 1, i as int) =~= Seq::<Seq<char>>::empty());
        } else {
            push_text(&mut args, a);
            assert(strs_view(args@) =~= seq![w[0]] + rest.take(i as int));
        }
        i = i + 1;
    }
    proof {
        if in_rsync {
            assert(rest.subrange(k + 1, rest.len() as int) =~= rest.skip(k + 1));
        } else {
            assert(rest.take(rest.len() as int) =~= rest.take(k));
        }
    }
    (args, extra)
}

} // verus!
