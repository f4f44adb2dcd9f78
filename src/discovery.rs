//! Discovery of candidate backup devices: the rules that exclude swap and
//! RAID members, the reasons a device is listed, and duplicate-id detection.

use vstd::prelude::*;
use crate::config::{BackupDiskConfig, RuntimeConfig};
use crate::fs_type::{FsType, fs_allowed, fs_rejected};
use crate::identity::DiskIdentity;
use crate::text::{
    pieces, sort_texts, sorted_texts, split_on, split_words, starts_with, str_eq, strip_both,
    strip_char, strs_view, trim, trimmed, words,
};

verus! {

/// A device that may serve as a backup disk.
#[derive(Debug, Clone)]
pub struct DiskCandidate {
    pub uuid: String,
    pub device: String,
    pub mounted_at: Option<String>,
    pub capacity_bytes: Option<u64>,
    pub empty: Option<bool>,
    pub removable: Option<bool>,
    pub reasons: Vec<String>,
    pub identity: Option<DiskIdentity>,
    pub enrolled: bool,
    pub fs_type: Option<FsType>,
}

/// The last component of a path: what follows its last `/` once slashes
/// at both ends are removed; none when that is empty or `..`.
pub open spec fn file_name_of(p: Seq<char>) -> Option<Seq<char>> {
    let seg = pieces(strip_both(p, '/'), '/').last();
    if seg.len() == 0 || seg == ".."@ {
        None
    } else {
        Some(seg)
    }
}

/// The position of the last `c` in `s`, or -1.
pub open spec fn last_pos(s: Seq<char>, c: char) -> int
    decreases s.len(),
{
    if s.len() == 0 {
        -1
    } else if s.last() == c {
        s.len() - 1
    } else {
        last_pos(s.drop_last(), c)
    }
}

/// `s` without its trailing ASCII digits.
pub open spec fn trim_digits_end(s: Seq<char>) -> Seq<char>
    decreases s.len(),
{
    if s.len() > 0 && '0' <= s.last() && s.last() <= '9' {
        trim_digits_end(s.drop_last())
    } else {
        s
    }
}

/// `s` begins with `p`.
pub open spec fn has_prefix(s: Seq<char>, p: Seq<char>) -> bool {
    p.len() <= s.len() && s.take(p.len() as int) == p
}

/// The block device that holds partition `name`: `nvme…pN` and
/// `mmcblk…pN` lose the `pN` suffix, other names their trailing digits.
pub open spec fn base_device_of(name: Seq<char>) -> Option<Seq<char>> {
    let k = last_pos(name, 'p');
    if (has_prefix(name, "nvme"@) || has_prefix(name, "mmcblk"@)) && 0 <= k && k + 1 < name.len()
        && forall|i: int| k < i < name.len() ==> '0' <= #[trigger] name[i] && name[i] <= '9' {
        Some(name.take(k))
    } else if trim_digits_end(name).len() == 0 {
        None
    } else {
        Some(trim_digits_end(name))
    }
}

proof fn lemma_last_pos(s: Seq<char>, c: char)
    ensures
        -1 <= last_pos(s, c) < s.len(),
        last_pos(s, c) >= 0 ==> s[last_pos(s, c)] == c,
        forall|i: int| last_pos(s, c) < i < s.len() ==> #[trigger] s[i] != c,
    decreases s.len(),
{
    if s.len() > 0 && s.last() != c {
        lemma_last_pos(s.drop_last(), c);
        assert forall|i: int| last_pos(s, c) < i < s.len() implies #[trigger] s[i] != c by {
            if i < s.len() - 1 {
                assert(s[i] == s.drop_last()[i]);
            }
        }
    }
}

/// The base device of the device name `seg`.
fn base_of_name(seg: &str) -> (r: Option<String>)
    ensures
        opt_view(r) == base_device_of(seg@),
{
    let n = seg.unicode_len();
    let mut k: usize = n;
    assert(seg@.take(n as int) =~= seg@);
    while k > 0 && seg.get_char(k - 1) != 'p'
        invariant
            n == seg@.len(),
            k <= n,
            last_pos(seg@, 'p') == last_pos(seg@.take(k as int), 'p'),
        decreases k,
    {
        assert(seg@.take(k as int).drop_last() =~= seg@.take(k - 1));
        k = k - 1;
    }
    let ghost kp = last_pos(seg@, 'p');
    assert(k == 0 ==> seg@.take(0) =~= Seq::<char>::empty());
    assert(k > 0 ==> seg@.take(k as int).last() == seg@[k - 1]);
    assert(k == 0 ==> kp == -1);
    assert(k > 0 ==> kp == k - 1);
    proof {
        reveal_strlit("nvme");
        reveal_strlit("mmcblk");
    }
    let prefixed = starts_with(seg, "nvme") || starts_with(seg, "mmcblk");
    if prefixed && k > 0 && k < n {
        let mut all = true;
        let mut i: usize = k;
        while i < n
            invariant
                k <= i <= n,
                n == seg@.len(),
                all <==> forall|x: int| k <= x < i ==> '0' <= #[trigger] seg@[x] && seg@[x] <= '9',
            decreases n - i,
        {
            let c = seg.get_char(i);
            if c < '0' || c > '9' {
                all = false;
            }
            i = i + 1;
        }
        if all {
            let base = seg.substring_char(0, k - 1);
            assert(base@ =~= seg@.take(kp));
            return Some(String::from_str(base));
        }
    }
    let mut j: usize = n;
    while j > 0 && '0' <= seg.get_char(j - 1) && seg.get_char(j - 1) <= '9'
        invariant
            n == seg@.len(),
            j <= n,
            trim_digits_end(seg@) == trim_digits_end(seg@.take(j as int)),
        decreases j,
    {
        assert(seg@.take(j as int).drop_last() =~= seg@.take(j - 1));
        j = j - 1;
    }
    if j == 0 {
        assert(seg@.take(0) =~= Seq::<char>::empty());
        return None;
    }
    let t = seg.substring_char(0, j);
    assert(t@ =~= seg@.take(j as int));
    Some(String::from_str(t))
}

/// The name of the whole block device of a partition device path.
pub fn base_block_device_name(dev: &str) -> (r: Option<String>)
    ensures
        match file_name_of(dev@) {
            Some(n) => opt_view(r) == base_device_of(n),
            None => r is None,
        },
{
    let stripped = strip_char(dev, '/');
    let parts = split_on(stripped, '/');
    proof {
        lemma_pieces_nonempty(stripped@, '/');
    }
    let seg = parts[parts.len() - 1].as_str();
    assert(seg@ == pieces(strip_both(dev@, '/'), '/').last());
    proof {
        reveal_strlit("..");
    }
    if seg.unicode_len() == 0 || str_eq(seg, "..") {
        return None;
    }
    base_of_name(seg)
}

/// There is always at least one piece.
proof fn lemma_pieces_nonempty(s: Seq<char>, sep: char)
    ensures
        pieces(s, sep).len() > 0,
    decreases s.len(),
{
    let k = crate::text::piece_len(s, sep);
    if k < s.len() {
        lemma_pieces_nonempty(s.skip((k + 1) as int), sep);
    }
}

/// The view of an optional string.
pub open spec fn opt_view(o: Option<String>) -> Option<Seq<char>> {
    match o {
        Some(s) => Some(s@),
        None => None,
    }
}

/// What the kernel's `removable` flag says: `1` yes, `0` no, else unknown.
pub fn removable_flag(text: &str) -> (r: Option<bool>)
    ensures
        trimmed(text@) == "1"@ ==> r == Some(true),
        trimmed(text@) == "0"@ ==> r == Some(false),
        trimmed(text@) != "1"@ && trimmed(text@) != "0"@ ==> r is None,
{
    let t = trim(text);
    proof {
        reveal_strlit("1");
        reveal_strlit("0");
        assert("0"@[0] != "1"@[0]);
    }
    if str_eq(t, "1") {
        Some(true)
    } else if str_eq(t, "0") {
        Some(false)
    } else {
        None
    }
}

/// The devices that `/proc/swaps` lists: the first word of every line but
/// the header.
pub open spec fn swap_devices_of(ls: Seq<Seq<char>>) -> Seq<Seq<char>>
    decreases ls.len(),
{
    if ls.len() <= 1 {
        seq![]
    } else {
        let r = swap_devices_of(ls.drop_last());
        let w = words(ls.last());
        if w.len() > 0 {
            r.push(w[0])
        } else {
            r
        }
    }
}

/// The swap devices listed in the text of `/proc/swaps`.
pub fn parse_swaps(contents: &str) -> (r: Vec<String>)
    ensures
        strs_view(r@) == swap_devices_of(pieces(contents@, '\n')),
{
    let lines = split_on(contents, '\n');
    let ghost ls = strs_view(lines@);
    let mut out: Vec<String> = Vec::new();
    assert(strs_view(out@) =~= Seq::<Seq<char>>::empty());
    if lines.len() == 0 {
        return out;
    }
    let mut i: usize = 1;
    assert(swap_devices_of(ls.take(1)) =~= Seq::<Seq<char>>::empty());
    while i < lines.len()
        invariant
            1 <= i <= lines.len(),
            ls == strs_view(lines@),
            strs_view(out@) == swap_devices_of(ls.take(i as int)),
        decreases lines.len() - i,
    {
        assert(ls.take(i + 1).drop_last() =~= ls.take(i as int));
        assert(ls.take(i + 1).last() == lines@[i as int]@);
        let w = split_words(lines[i].as_str());
        if w.len() > 0 {
            let ghost before = out@;
            assert(strs_view(w@)[0] == w@[0]@);
            out.push(w[0].clone());
            assert(strs_view(out@) =~= strs_view(before).push(w@[0]@));
        }
        i = i + 1;
    }
    assert(ls.take(lines.len() as int) =~= ls);
    out
}

/// Whether a device directory of `/sys/block` is a RAID array.
pub fn is_md_device(name: &str) -> (r: bool)
    ensures
        r == (name@.len() >= 2 && name@.take(2) == "md"@),
{
    proof {
        reveal_strlit("md");
    }
    starts_with(name, "md")
}

/// Whether a device, by its own name or its base device's, is among the
/// members of a RAID array.
pub fn is_raid_member_of(name: &str, base: &str, members: &Vec<String>) -> (r: bool)
    ensures
        r == (strs_view(members@).contains(name@) || strs_view(members@).contains(base@)),
{
    let mut i: usize = 0;
    while i < members.len()
        invariant
            i <= members.len(),
            forall|k: int| 0 <= k < i ==> #[trigger] members@[k]@ != name@ && members@[k]@ != base@,
        decreases members.len() - i,
    {
        if str_eq(members[i].as_str(), name) || str_eq(members[i].as_str(), base) {
            assert(strs_view(members@)[i as int] == members@[i as int]@);
            return true;
        }
        i = i + 1;
    }
    proof {
        if strs_view(members@).contains(name@) {
            let k = choose|k: int| 0 <= k < strs_view(members@).len() && strs_view(members@)[k] == name@;
            assert(members@[k]@ == name@);
        }
        if strs_view(members@).contains(base@) {
            let k = choose|k: int| 0 <= k < strs_view(members@).len() && strs_view(members@)[k] == base@;
            assert(members@[k]@ == base@);
        }
    }
    false
}

/// A probed filesystem type that keeps a device out of the listing.
pub open spec fn fs_type_excluded(t: Option<FsType>) -> bool {
    t matches Some(x) && (fs_rejected(x) || !fs_allowed(x))
}

/// Whether the detected type keeps the device out: rejected or not admitted.
pub fn excluded_by_fs_type(t: &Option<FsType>) -> (r: bool)
    ensures
        r == fs_type_excluded(*t),
{
    match t {
        Some(x) => x.is_rejected() || !x.is_allowed(),
        None => false,
    }
}

/// The reasons a probed device is listed, in this order: removable, mounted
/// and empty, carrying an identity, enrolled.
pub open spec fn reasons_of(removable: Option<bool>, empty: Option<bool>, has_identity: bool, enrolled: bool) -> Seq<Seq<char>> {
    (if removable == Some(true) { seq!["removable"@] } else { seq![] })
        + (if empty == Some(true) { seq!["mounted-empty"@] } else { seq![] })
        + (if has_identity { seq!["timevault-identity"@] } else { seq![] })
        + (if enrolled { seq!["enrolled"@] } else { seq![] })
}

/// The reasons a device is listed; none means it is left out.
pub fn candidate_reasons(removable: Option<bool>, empty: Option<bool>, has_identity: bool, enrolled: bool) -> (r: Vec<String>)
    ensures
        strs_view(r@) == reasons_of(removable, empty, has_identity, enrolled),
{
    let mut v: Vec<String> = Vec::new();
    let ghost e = Seq::<Seq<char>>::empty();
    assert(strs_view(v@) =~= e);
    if removable == Some(true) {
        v.push(String::from_str("removable"));
    }
    let ghost a = strs_view(v@);
    assert(a =~= (if removable == Some(true) { seq!["removable"@] } else { e }));
    if empty == Some(true) {
        v.push(String::from_str("mounted-empty"));
    }
    let ghost b = strs_view(v@);
    assert(b =~= a + (if empty == Some(true) { seq!["mounted-empty"@] } else { e }));
    if has_identity {
        v.push(String::from_str("timevault-identity"));
    }
    let ghost c = strs_view(v@);
    assert(c =~= b + (if has_identity { seq!["timevault-identity"@] } else { e }));
    if enrolled {
        v.push(String::from_str("enrolled"));
    }
    assert(strs_view(v@) =~= c + (if enrolled { seq!["enrolled"@] } else { e }));
    v
}

/// The reasons a device that could not be probe-mounted is listed: only a
/// removable one is, as removable with a failed probe.
pub fn probe_failed_reasons(removable: Option<bool>) -> (r: Vec<String>)
    ensures
        removable == Some(true) ==> strs_view(r@) == seq!["removable"@, "probe-failed"@],
        removable != Some(true) ==> r@.len() == 0,
{
    let mut v: Vec<String> = Vec::new();
    if removable == Some(true) {
        v.push(String::from_str("removable"));
        v.push(String::from_str("probe-failed"));
        assert(strs_view(v@) =~= seq!["removable"@, "probe-failed"@]);
    }
    v
}

/// A disk id and the UUID it was seen with.
pub struct IdSighting {
    pub id: Seq<char>,
    pub uuid: Seq<char>,
}

/// The ids seen with the UUIDs of the catalog, then with those of the
/// identities found on devices.
pub open spec fn sightings(disks: Seq<BackupDiskConfig>, cands: Seq<DiskCandidate>) -> Seq<IdSighting> {
    disks.map_values(|d: BackupDiskConfig| IdSighting { id: d.disk_id@, uuid: d.fs_uuid@ })
        + cands.filter(|c: DiskCandidate| c.identity is Some).map_values(
        |c: DiskCandidate| IdSighting { id: c.identity->Some_0.disk_id@, uuid: c.identity->Some_0.fs_uuid@ },
    )
}

/// The id is seen with two different UUIDs.
pub open spec fn id_conflicted(s: Seq<IdSighting>, id: Seq<char>) -> bool {
    exists|a: int, b: int|
        0 <= a < s.len() && 0 <= b < s.len() && #[trigger] s[a].id == id && #[trigger] s[b].id == id
            && s[a].uuid != s[b].uuid
}

/// Whether the id at `a` is also listed with another UUID.
fn has_conflict(ids: &Vec<String>, uuids: &Vec<String>, a: usize) -> (r: bool)
    requires
        a < ids@.len(),
        ids@.len() == uuids@.len(),
    ensures
        r == exists|b: int| 0 <= b < ids@.len() && #[trigger] ids@[b]@ == ids@[a as int]@ && uuids@[b]@ != uuids@[a as int]@,
{
    let mut b: usize = 0;
    while b < ids.len()
        invariant
            a < ids@.len(),
            ids@.len() == uuids@.len(),
            b <= ids@.len(),
            forall|k: int| 0 <= k < b ==> !(#[trigger] ids@[k]@ == ids@[a as int]@ && uuids@[k]@ != uuids@[a as int]@),
        decreases ids@.len() - b,
    {
        if str_eq(ids[b].as_str(), ids[a].as_str()) && !str_eq(uuids[b].as_str(), uuids[a].as_str()) {
            return true;
        }
        b = b + 1;
    }
    false
}

/// Whether `id` is among `v`.
fn contains_text(v: &Vec<String>, id: &str) -> (r: bool)
    ensures
        r == strs_view(v@).contains(id@),
{
    let mut i: usize = 0;
    while i < v.len()
        invariant
            i <= v.len(),
            forall|k: int| 0 <= k < i ==> #[trigger] v@[k]@ != id@,
        decreases v.len() - i,
    {
        if str_eq(v[i].as_str(), id) {
            assert(strs_view(v@)[i as int] == id@);
            return true;
        }
        i = i + 1;
    }
    proof {
        if strs_view(v@).contains(id@) {
            let k = choose|k: int| 0 <= k < strs_view(v@).len() && strs_view(v@)[k] == id@;
            assert(v@[k]@ == id@);
        }
    }
    false
}

/// The disk ids that the catalog and the identities found on devices bind
/// to more than one filesystem UUID, each once, in ascending order.
pub fn find_duplicate_disk_ids(cfg: &RuntimeConfig, candidates: &[DiskCandidate]) -> (r: Vec<String>)
    ensures
        forall|x: Seq<char>| #[trigger] strs_view(r@).contains(x) <==> id_conflicted(
            sightings(cfg.backup_disks@, candidates@),
            x,
        ),
        sorted_texts(r@),
        forall|i: int, j: int| 0 <= i < j < r@.len() ==> #[trigger] r@[i]@ != #[trigger] r@[j]@,
{
    let mut ids: Vec<String> = Vec::new();
    let mut uuids: Vec<String> = Vec::new();
    let mut i: usize = 0;
    let ghost dm = cfg.backup_disks@.map_values(|d: BackupDiskConfig| IdSighting { id: d.disk_id@, uuid: d.fs_uuid@ });
    let ghost pred = |c: DiskCandidate| c.identity is Some;
    let ghost cm = |c: DiskCandidate| IdSighting { id: c.identity->Some_0.disk_id@, uuid: c.identity->Some_0.fs_uuid@ };
    while i < cfg.backup_disks.len()
        invariant
            i <= cfg.backup_disks.len(),
            ids@.len() == uuids@.len(),
            dm == cfg.backup_disks@.map_values(|d: BackupDiskConfig| IdSighting { id: d.disk_id@, uuid: d.fs_uuid@ }),
            ids@.len() == i,
            forall|k: int| 0 <= k < i ==> #[trigger] ids@[k]@ == dm[k].id && uuids@[k]@ == dm[k].uuid,
        decreases cfg.backup_disks.len() - i,
    {
        ids.push(cfg.backup_disks[i].disk_id.clone());
        uuids.push(cfg.backup_disks[i].fs_uuid.clone());
        i = i + 1;
    }
    let mut c: usize = 0;
    while c < candidates.len()
        invariant
            c <= candidates@.len(),
            ids@.len() == uuids@.len(),
            dm.len() == cfg.backup_disks@.len(),
            dm == cfg.backup_disks@.map_values(|d: BackupDiskConfig| IdSighting { id: d.disk_id@, uuid: d.fs_uuid@ }),
            pred == (|c: DiskCandidate| c.identity is Some),
            cm == (|c: DiskCandidate| IdSighting { id: c.identity->Some_0.disk_id@, uuid: c.identity->Some_0.fs_uuid@ }),
            ids@.len() == dm.len() + candidates@.take(c as int).filter(pred).len(),
            forall|k: int| 0 <= k < ids@.len() ==> #[trigger] ids@[k]@ == (dm + candidates@.take(c as int).filter(pred).map_values(cm))[k].id
                && uuids@[k]@ == (dm + candidates@.take(c as int).filter(pred).map_values(cm))[k].uuid,
        decreases candidates@.len() - c,
    {
        proof {
            candidates@.take(c as int).lemma_filter_push(candidates@[c as int], pred);
            assert(candidates@.take(c + 1) =~= candidates@.take(c as int).push(candidates@[c as int]));
        }
        let ghost before = dm + candidates@.take(c as int).filter(pred).map_values(cm);
        match &candidates[c].identity {
            Some(idn) => {
                let ghost oi = ids@;
                let ghost ou = uuids@;
                ids.push(idn.disk_id.clone());
                uuids.push(idn.fs_uuid.clone());
                let ghost after = dm + candidates@.take(c + 1).filter(pred).map_values(cm);
                assert(after =~= before.push(cm(candidates@[c as int])));
                assert forall|k: int| 0 <= k < ids@.len() implies #[trigger] ids@[k]@ == after[k].id
                    && uuids@[k]@ == after[k].uuid by {
                    if k < oi.len() {
                        assert(ids@[k] == oi[k]);
                        assert(uuids@[k] == ou[k]);
                        assert(after[k] == before[k]);
                    }
                }
            },
            None => {
                assert(dm + candidates@.take(c + 1).filter(pred).map_values(cm) =~= before);
            },
        }
        c = c + 1;
    }
    assert(candidates@.take(candidates@.len() as int) =~= candidates@);
    let ghost s = sightings(cfg.backup_disks@, candidates@);
    assert(s =~= dm + candidates@.filter(pred).map_values(cm));
    proof {
        let full = dm + candidates@.take(candidates@.len() as int).filter(pred).map_values(cm);
        assert(full =~= s);
        assert forall|k: int| 0 <= k < ids@.len() implies #[trigger] ids@[k]@ == s[k].id && uuids@[k]@ == s[k].uuid by {
            assert(ids@[k]@ == full[k].id);
        }
    }
    let mut out: Vec<String> = Vec::new();
    let mut a: usize = 0;
    while a < ids.len()
        invariant
            a <= ids@.len(),
            ids@.len() == uuids@.len(),
            ids@.len() == s.len(),
            forall|k: int| 0 <= k < ids@.len() ==> #[trigger] ids@[k]@ == s[k].id && uuids@[k]@ == s[k].uuid,
            forall|x: Seq<char>| #[trigger] strs_view(out@).contains(x) ==> id_conflicted(s, x),
            forall|k: int| 0 <= k < a && id_conflicted(s, ids@[k]@) ==> #[trigger] strs_view(out@).contains(ids@[k]@),
            forall|p: int, q: int| 0 <= p < q < out@.len() ==> #[trigger] out@[p]@ != #[trigger] out@[q]@,
        decreases ids@.len() - a,
    {
        let conflict = has_conflict(&ids, &uuids, a);
        proof {
            if conflict {
                let b = choose|b: int| 0 <= b < ids@.len() && #[trigger] ids@[b]@ == ids@[a as int]@ && uuids@[b]@ != uuids@[a as int]@;
                assert(s[a as int].id == ids@[a as int]@ && s[b].id == ids@[a as int]@);
            } else if id_conflicted(s, ids@[a as int]@) {
                let (x, y) = choose|x: int, y: int|
                    0 <= x < s.len() && 0 <= y < s.len() && #[trigger] s[x].id == ids@[a as int]@
                        && #[trigger] s[y].id == ids@[a as int]@ && s[x].uuid != s[y].uuid;
                assert(ids@[x]@ == ids@[a as int]@);
                assert(ids@[y]@ == ids@[a as int]@);
            }
        }
        if conflict && !contains_text(&out, ids[a].as_str()) {
            let ghost before = out@;
            out.push(ids[a].clone());
            let ghost bv = strs_view(before);
            assert(strs_view(out@) =~= bv.push(ids@[a as int]@));
            assert forall|p: int, q: int| 0 <= p < q < out@.len() implies #[trigger] out@[p]@ != #[trigger] out@[q]@ by {
                if q == before.len() {
                    assert(bv[p] == out@[p]@);
                    if out@[p]@ == ids@[a as int]@ {
                        assert(bv.contains(ids@[a as int]@));
                    }
                } else {
                    assert(out@[p] == before[p] && out@[q] == before[q]);
                }
            }
            assert forall|x: Seq<char>| #[trigger] strs_view(out@).contains(x) implies id_conflicted(s, x) by {
                if x != ids@[a as int]@ {
                    let k = choose|k: int| 0 <= k < strs_view(out@).len() && strs_view(out@)[k] == x;
                    assert(k < bv.len());
                    assert(bv[k] == x);
                    assert(bv.contains(x));
                }
            }
            assert forall|k: int| 0 <= k < a + 1 && id_conflicted(s, ids@[k]@) implies #[trigger] strs_view(out@).contains(ids@[k]@) by {
                if k < a {
                    assert(bv.contains(ids@[k]@));
                    let m = choose|m: int| 0 <= m < bv.len() && bv[m] == ids@[k]@;
                    assert(strs_view(out@)[m] == ids@[k]@);
                } else {
                    assert(strs_view(out@)[bv.len() as int] == ids@[a as int]@);
                }
            }
        }
        a = a + 1;
    }
    proof {
        assert forall|x: Seq<char>| id_conflicted(s, x) implies #[trigger] strs_view(out@).contains(x) by {
            let (p, q) = choose|p: int, q: int|
                0 <= p < s.len() && 0 <= q < s.len() && #[trigger] s[p].id == x && #[trigger] s[q].id == x
                    && s[p].uuid != s[q].uuid;
            assert(ids@[p]@ == x);
        }
    }
    let ghost unsorted = out@;
    sort_texts(&mut out);
    proof {
        unsorted.to_multiset_ensures();
        out@.to_multiset_ensures();
        assert(unsorted.no_duplicates()) by {
            assert forall|i: int, j: int| 0 <= i < unsorted.len() && 0 <= j < unsorted.len() && i != j
                implies unsorted[i] != unsorted[j] by {
                if i < j {
                    assert(unsorted[i]@ != unsorted[j]@);
                } else {
                    assert(unsorted[j]@ != unsorted[i]@);
                }
            }
        }
        unsorted.lemma_multiset_has_no_duplicates();
        out@.lemma_multiset_has_no_duplicates_conv();
        assert forall|i: int, j: int| 0 <= i < j < out@.len() implies #[trigger] out@[i]@ != #[trigger] out@[j]@ by {
            assert(out@.contains(out@[i]) && out@.contains(out@[j]));
            assert(unsorted.to_multiset().count(out@[i]) > 0);
            assert(unsorted.to_multiset().count(out@[j]) > 0);
            let m1 = choose|m: int| 0 <= m < unsorted.len() && unsorted[m] == out@[i];
            let m2 = choose|m: int| 0 <= m < unsorted.len() && unsorted[m] == out@[j];
            if m1 < m2 {
                assert(unsorted[m1]@ != unsorted[m2]@);
            } else if m2 < m1 {
                assert(unsorted[m2]@ != unsorted[m1]@);
            } else {
                assert(out@[i] != out@[j]);
            }
        }
        assert forall|x: Seq<char>| #[trigger] strs_view(out@).contains(x) <==> strs_view(unsorted).contains(x) by {
            if strs_view(out@).contains(x) {
                let k = choose|k: int| 0 <= k < strs_view(out@).len() && strs_view(out@)[k] == x;
                assert(out@.contains(out@[k]));
                assert(unsorted.to_multiset().count(out@[k]) > 0);
                let m = choose|m: int| 0 <= m < unsorted.len() && unsorted[m] == out@[k];
                assert(strs_view(unsorted)[m] == x);
            }
            if strs_view(unsorted).contains(x) {
                let k = choose|k: int| 0 <= k < strs_view(unsorted).len() && strs_view(unsorted)[k] == x;
                assert(unsorted.contains(unsorted[k]));
                assert(out@.to_multiset().count(unsorted[k]) > 0);
                let m = choose|m: int| 0 <= m < out@.len() && out@[m] == unsorted[k];
                assert(strs_view(out@)[m] == x);
            }
        }
    }
    out
}

/// Entries that may sit on a disk that counts as empty.
pub open spec fn allowed_on_empty_disk(n: Seq<char>) -> bool {
    n == "lost+found"@
}

/// Whether a disk root with the entries `entries` counts as empty: nothing
/// but `lost+found`.
pub fn is_disk_empty(entries: &Vec<String>) -> (r: bool)
    ensures
        r == forall|k: int| 0 <= k < entries@.len() ==> allowed_on_empty_disk(#[trigger] entries@[k]@),
{
    let mut i: usize = 0;
    while i < entries.len()
        invariant
            i <= entries.len(),
            forall|k: int| 0 <= k < i ==> allowed_on_empty_disk(#[trigger] entries@[k]@),
        decreases entries.len() - i,
    {
        if !str_eq(entries[i].as_str(), "lost+found") {
            return false;
        }
        i = i + 1;
    }
    true
}

/// The entries of a disk root that keep it from counting as empty.
pub fn list_unexpected_entries(entries: &Vec<String>) -> (r: Vec<String>)
    ensures
        r@ == entries@.filter(|e: String| !allowed_on_empty_disk(e@)),
{
    let ghost pred = |e: String| !allowed_on_empty_disk(e@);
    let mut out: Vec<String> = Vec::new();
    let mut i: usize = 0;
    while i < entries.len()
        invariant
            i <= entries.len(),
            pred == (|e: String| !allowed_on_empty_disk(e@)),
            out@ == entries@.take(i as int).filter(pred),
        decreases entries.len() - i,
    {
        proof {
            entries@.take(i as int).lemma_filter_push(entries@[i as int], pred);
            assert(entries@.take(i + 1) =~= entries@.take(i as int).push(entries@[i as int]));
        }
        if !str_eq(entries[i].as_str(), "lost+found") {
            out.push(entries[i].clone());
        }
        i = i + 1;
    }
    assert(entries@.take(entries.len() as int) =~= entries@);
    out
}

} // verus!

verus! {

/// `yes`, `no` or `unknown`.
pub open spec fn tri_word(v: Option<bool>) -> Seq<char> {
    match v {
        Some(true) => "yes"@,
        Some(false) => "no"@,
        None => "unknown"@,
    }
}

/// The first lines that describe a candidate: uuid, device, mountpoint,
/// capacity and enrollment.
pub open spec fn head_lines(c: DiskCandidate, capacity: Option<Seq<char>>) -> Seq<Seq<char>> {
    seq![
        "uuid: "@ + c.uuid@,
        "  device: "@ + c.device@,
        "  mounted: "@ + match c.mounted_at { Some(m) => m@, None => "no"@ },
        "  capacity: "@ + match capacity { Some(x) => x, None => "unknown"@ },
        "  enrolled: "@ + if c.enrolled { "yes"@ } else { "no"@ },
    ]
}

/// The lines of the identity found on a candidate, if any.
pub open spec fn identity_lines(id: Option<DiskIdentity>) -> Seq<Seq<char>> {
    match id {
        Some(i) => seq!["  identity.diskId: "@ + i.disk_id@, "  identity.fsUuid: "@ + i.fs_uuid@]
            + match i.fs_type {
            Some(t) => seq!["  identity.fsType: "@ + crate::fs_type::fs_word(t)],
            None => seq![],
        } + seq!["  identity.created: "@ + i.created@],
        None => seq![],
    }
}

/// The line of the probed filesystem type, if any.
pub open spec fn type_lines(t: Option<FsType>) -> Seq<Seq<char>> {
    match t {
        Some(t) => seq!["  fsType: "@ + crate::fs_type::fs_word(t)],
        None => seq![],
    }
}

/// The last lines: emptiness, removability and the reasons.
pub open spec fn tail_lines(c: DiskCandidate) -> Seq<Seq<char>> {
    seq![
        "  empty: "@ + tri_word(c.empty),
        "  removable: "@ + tri_word(c.removable),
        "  reason: "@ + crate::text::joined(strs_view(c.reasons@), ", "@),
    ]
}

/// The lines that describe a candidate, in the stable order tools read.
pub open spec fn candidate_lines(c: DiskCandidate, capacity: Option<Seq<char>>) -> Seq<Seq<char>> {
    head_lines(c, capacity) + identity_lines(c.identity) + type_lines(c.fs_type) + tail_lines(c)
}

/// `yes`, `no` or `unknown`.
fn tri_text(v: Option<bool>) -> (r: &'static str)
    ensures
        r@ == tri_word(v),
{
    match v {
        Some(true) => "yes",
        Some(false) => "no",
        None => "unknown",
    }
}

/// Appends `head` followed by `tail` as one line.
fn push_line(v: &mut Vec<String>, head: &str, tail: &str)
    ensures
        strs_view(final(v)@) == strs_view(old(v)@).push(head@ + tail@),
{
    let ghost before = v@;
    v.push(crate::text::concat_str(head, tail));
    assert(strs_view(v@) =~= strs_view(before).push(head@ + tail@));
}

/// Appends the first lines of a candidate.
fn push_head(v: &mut Vec<String>, c: &DiskCandidate, capacity: &Option<String>)
    ensures
        strs_view(final(v)@) == strs_view(old(v)@) + head_lines(*c, match *capacity {
            Some(x) => Some(x@),
            None => None,
        }),
{
    let ghost start = strs_view(v@);
    push_line(v, "uuid: ", c.uuid.as_str());
    push_line(v, "  device: ", c.device.as_str());
    match &c.mounted_at {
        Some(m) => push_line(v, "  mounted: ", m.as_str()),
        None => push_line(v, "  mounted: ", "no"),
    }
    match capacity {
        Some(x) => push_line(v, "  capacity: ", x.as_str()),
        None => push_line(v, "  capacity: ", "unknown"),
    }
    push_line(v, "  enrolled: ", if c.enrolled { "yes" } else { "no" });
    assert(strs_view(v@) =~= start + head_lines(*c, match *capacity {
        Some(x) => Some(x@),
        None => None,
    }));
}

/// Appends the lines of a candidate's identity.
fn push_identity(v: &mut Vec<String>, id: &Option<DiskIdentity>)
    ensures
        strs_view(final(v)@) == strs_view(old(v)@) + identity_lines(*id),
{
    let ghost start = strs_view(v@);
    match id {
        Some(i) => {
            push_line(v, "  identity.diskId: ", i.disk_id.as_str());
            push_line(v, "  identity.fsUuid: ", i.fs_uuid.as_str());
            match &i.fs_type {
                Some(t) => push_line(v, "  identity.fsType: ", t.as_str()),
                None => {},
            }
            push_line(v, "  identity.created: ", i.created.as_str());
            assert(strs_view(v@) =~= start + identity_lines(*id));
        },
        None => {
            assert(strs_view(v@) =~= start + identity_lines(*id));
        },
    }
}

/// Appends the line of a candidate's filesystem type.
fn push_type(v: &mut Vec<String>, t: &Option<FsType>)
    ensures
        strs_view(final(v)@) == strs_view(old(v)@) + type_lines(*t),
{
    let ghost start = strs_view(v@);
    match t {
        Some(x) => push_line(v, "  fsType: ", x.as_str()),
        None => {},
    }
    assert(strs_view(v@) =~= start + type_lines(*t));
}

/// Appends the last lines of a candidate.
fn push_tail(v: &mut Vec<String>, c: &DiskCandidate)
    ensures
        strs_view(final(v)@) == strs_view(old(v)@) + tail_lines(*c),
{
    let ghost start = strs_view(v@);
    push_line(v, "  empty: ", tri_text(c.empty));
    push_line(v, "  removable: ", tri_text(c.removable));
    let reasons = crate::text::join_texts(&c.reasons, ", ");
    push_line(v, "  reason: ", reasons.as_str());
    assert(strs_view(v@) =~= start + tail_lines(*c));
}

/// The lines that describe a candidate; `capacity` is its size as text.
pub fn render_candidate(c: &DiskCandidate, capacity: Option<String>) -> (r: Vec<String>)
    ensures
        strs_view(r@) == candidate_lines(
            *c,
            match capacity {
                Some(x) => Some(x@),
                None => None,
            },
        ),
{
    let mut v: Vec<String> = Vec::new();
    assert(strs_view(v@) =~= Seq::<Seq<char>>::empty());
    push_head(&mut v, c, &capacity);
    push_identity(&mut v, &c.identity);
    push_type(&mut v, &c.fs_type);
    push_tail(&mut v, c);
    assert(strs_view(v@) =~= candidate_lines(
        *c,
        match capacity {
            Some(x) => Some(x@),
            None => None,
        },
    ));
    v
}

} // verus!
