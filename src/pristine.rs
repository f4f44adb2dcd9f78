//! The pristine-file cache: which package-owned files still hold the
//! content they had when first seen, so that backups can leave them out.

use vstd::prelude::*;
use sha2::Digest;
use crate::text::{concat_str, find_char, text_le, piece_len, pieces, sort_texts, sorted_texts, split_on, split_words, str_eq, strip_both, strip_char, strs_view, trim, trimmed, words};

verus! {

/// The operating system family.
#[derive(Debug, Clone, PartialEq, Eq)]
pub enum OsFamily {
    Linux,
    Macos,
    Windows,
    Other(String),
}

/// What `/etc/os-release` says of the system.
#[derive(Debug, Clone, PartialEq, Eq)]
pub struct OsInfo {
    pub family: OsFamily,
    pub id: Option<String>,
    pub id_like: Vec<String>,
    pub name: Option<String>,
    pub version_id: Option<String>,
}

/// The package managers whose files can be recognised.
#[derive(Debug, Clone, Copy, PartialEq, Eq, Structural)]
pub enum PackageManager {
    Dpkg,
    Rpm,
    Pacman,
}

/// The fields of `OsInfo` that os-release sets, as character sequences.
pub struct OsFields {
    pub id: Option<Seq<char>>,
    pub id_like: Seq<Seq<char>>,
    pub name: Option<Seq<char>>,
    pub version_id: Option<Seq<char>>,
}

/// The view of an optional string.
pub open spec fn opt_str_view(o: Option<String>) -> Option<Seq<char>> {
    match o {
        Some(s) => Some(s@),
        None => None,
    }
}

/// The fields of an `OsInfo`.
pub open spec fn os_fields(os: OsInfo) -> OsFields {
    OsFields {
        id: opt_str_view(os.id),
        id_like: strs_view(os.id_like@),
        name: opt_str_view(os.name),
        version_id: opt_str_view(os.version_id),
    }
}

/// The key of an os-release line (trimmed): what stands before the first `=`.
pub open spec fn line_key(l: Seq<char>) -> Seq<char> {
    trimmed(l.take(piece_len(l, '=') as int))
}

/// The value of an os-release line (trimmed): what stands after the first
/// `=`, trimmed, without surrounding double quotes and then single quotes.
pub open spec fn line_value(l: Seq<char>) -> Seq<char> {
    let k = piece_len(l, '=');
    let raw = if k < l.len() {
        trimmed(l.skip((k + 1) as int))
    } else {
        seq![]
    };
    strip_both(strip_both(raw, '"'), '\'')
}

/// The fields after reading one line of os-release: blank lines, comments
/// and lines without a key change nothing; `ID`, `ID_LIKE` (split into
/// words), `NAME` and `VERSION_ID` are recorded, the last one read winning.
pub open spec fn apply_os_line(f: OsFields, piece: Seq<char>) -> OsFields {
    let l = trimmed(piece);
    if l.len() == 0 || l[0] == '#' || line_key(l).len() == 0 {
        f
    } else {
        let k = line_key(l);
        let v = line_value(l);
        if k == "ID"@ {
            OsFields { id: Some(v), ..f }
        } else if k == "ID_LIKE"@ {
            OsFields { id_like: words(v), ..f }
        } else if k == "NAME"@ {
            OsFields { name: Some(v), ..f }
        } else if k == "VERSION_ID"@ {
            OsFields { version_id: Some(v), ..f }
        } else {
            f
        }
    }
}

/// The fields that the lines `ls` of os-release set.
pub open spec fn os_release_fields(ls: Seq<Seq<char>>) -> OsFields
    decreases ls.len(),
{
    if ls.len() == 0 {
        OsFields { id: None, id_like: seq![], name: None, version_id: None }
    } else {
        apply_os_line(os_release_fields(ls.drop_last()), ls.last())
    }
}

impl OsInfo {
    /// A Linux system of which nothing more is known.
    pub fn linux() -> (r: OsInfo)
        ensures
            r.family == OsFamily::Linux,
            r.id is None && r.name is None && r.version_id is None,
            r.id_like@.len() == 0,
    {
        OsInfo { family: OsFamily::Linux, id: None, id_like: Vec::new(), name: None, version_id: None }
    }
}

/// Reads one line of os-release into `info`.
fn apply_line_exec(info: &mut OsInfo, piece: &str)
    ensures
        os_fields(*final(info)) == apply_os_line(os_fields(*old(info)), piece@),
        final(info).family == old(info).family,
{
    let l = trim(piece);
    let n = l.unicode_len();
    if n == 0 || l.get_char(0) == '#' {
        return;
    }
    let k = find_char(l, '=');
    let key = trim(l.substring_char(0, k));
    if key.unicode_len() == 0 {
        return;
    }
    let raw = if k < n {
        trim(l.substring_char(k + 1, n))
    } else {
        ""
    };
    proof {
        reveal_strlit("");
        assert(l@.take(k as int) =~= l@.subrange(0, k as int));
        if k < n {
            assert(l@.skip(k + 1) =~= l@.subrange(k + 1, n as int));
        }
    }
    let value = strip_char(strip_char(raw, '"'), '\'');
    assert(line_key(l@) == key@);
    assert(line_value(l@) == value@);
    let ghost before = os_fields(*info);
    if str_eq(key, "ID") {
        info.id = Some(String::from_str(value));
    } else if str_eq(key, "ID_LIKE") {
        info.id_like = split_words(value);
    } else if str_eq(key, "NAME") {
        info.name = Some(String::from_str(value));
    } else if str_eq(key, "VERSION_ID") {
        info.version_id = Some(String::from_str(value));
    }
    assert(os_fields(*info) == apply_os_line(before, piece@));
}

/// Reads the text of `/etc/os-release`: `KEY=value` lines, values possibly
/// quoted, comments starting with `#`.
pub fn parse_os_release(content: &str) -> (r: OsInfo)
    ensures
        r.family == OsFamily::Linux,
        os_fields(r) == os_release_fields(pieces(content@, '\n')),
{
    let mut info = OsInfo::linux();
    let lines = split_on(content, '\n');
    let ghost ls = strs_view(lines@);
    assert(ls.take(0) =~= Seq::<Seq<char>>::empty());
    assert(strs_view(info.id_like@) =~= Seq::<Seq<char>>::empty());
    assert(os_fields(info) == os_release_fields(ls.take(0)));
    let mut i: usize = 0;
    while i < lines.len()
        invariant
            i <= lines.len(),
            ls == strs_view(lines@),
            info.family == OsFamily::Linux,
            os_fields(info) == os_release_fields(ls.take(i as int)),
        decreases lines.len() - i,
    {
        apply_line_exec(&mut info, lines[i].as_str());
        assert(ls.take(i + 1).drop_last() =~= ls.take(i as int));
        i = i + 1;
    }
    assert(ls.take(lines.len() as int) =~= ls);
    info
}

/// The system's id or one of its ID_LIKE ids is among `ids`.
pub open spec fn id_matches(f: OsFields, ids: Seq<Seq<char>>) -> bool {
    exists|k: int|
        0 <= k < ids.len() && (f.id == Some(#[trigger] ids[k]) || f.id_like.contains(ids[k]))
}

/// The views of a list of string slices.
pub open spec fn strs_ref_view(v: Seq<&str>) -> Seq<Seq<char>> {
    v.map_values(|x: &str| x@)
}

/// Whether the string `s` is in `v`.
fn listed(v: &Vec<String>, s: &str) -> (r: bool)
    ensures
        r == strs_view(v@).contains(s@),
{
    let mut i: usize = 0;
    while i < v.len()
        invariant
            i <= v.len(),
            forall|k: int| 0 <= k < i ==> #[trigger] v@[k]@ != s@,
        decreases v.len() - i,
    {
        if str_eq(v[i].as_str(), s) {
            assert(strs_view(v@)[i as int] == s@);
            return true;
        }
        i = i + 1;
    }
    proof {
        if strs_view(v@).contains(s@) {
            let k = choose|k: int| 0 <= k < strs_view(v@).len() && strs_view(v@)[k] == s@;
            assert(v@[k]@ == s@);
        }
    }
    false
}

/// Whether the system's id, or one it is like, is among `ids`.
pub fn matches_id(os: &OsInfo, ids: &[&str]) -> (r: bool)
    ensures
        r == id_matches(os_fields(*os), strs_ref_view(ids@)),
{
    let ghost f = os_fields(*os);
    let ghost w = strs_ref_view(ids@);
    let mut k: usize = 0;
    while k < ids.len()
        invariant
            k <= ids@.len(),
            f == os_fields(*os),
            w == strs_ref_view(ids@),
            forall|j: int| 0 <= j < k ==> !(f.id == Some(#[trigger] w[j]) || f.id_like.contains(w[j])),
        decreases ids.len() - k,
    {
        let needle: &str = ids[k];
        assert(w[k as int] == needle@);
        let by_id = match &os.id {
            Some(id) => str_eq(id.as_str(), needle),
            None => false,
        };
        if by_id || listed(&os.id_like, needle) {
            return true;
        }
        k = k + 1;
    }
    false
}

/// The package manager of a system, from its id and the ids it is like.
pub open spec fn package_manager_of(os: OsInfo) -> Option<PackageManager> {
    let f = os_fields(os);
    if !(os.family is Linux) {
        None
    } else if id_matches(f, seq!["debian"@, "ubuntu"@, "linuxmint"@]) {
        Some(PackageManager::Dpkg)
    } else if id_matches(f, seq!["rhel"@, "fedora"@, "centos"@, "rocky"@, "almalinux"@, "amzn"@]) {
        Some(PackageManager::Rpm)
    } else if id_matches(f, seq!["arch"@, "manjaro"@, "endeavouros"@]) {
        Some(PackageManager::Pacman)
    } else {
        None
    }
}

/// The package manager that owns the system's files: dpkg on Debian-like
/// systems, rpm on Red Hat-like ones, pacman on Arch-like ones.
pub fn detect_package_manager(os: &OsInfo) -> (r: Option<PackageManager>)
    ensures
        r == package_manager_of(*os),
{
    if !matches!(os.family, OsFamily::Linux) {
        return None;
    }
    let deb: [&str; 3] = ["debian", "ubuntu", "linuxmint"];
    assert(strs_ref_view(deb@) =~= seq!["debian"@, "ubuntu"@, "linuxmint"@]);
    if matches_id(os, &deb) {
        return Some(PackageManager::Dpkg);
    }
    let rh: [&str; 6] = ["rhel", "fedora", "centos", "rocky", "almalinux", "amzn"];
    assert(strs_ref_view(rh@) =~= seq!["rhel"@, "fedora"@, "centos"@, "rocky"@, "almalinux"@, "amzn"@]);
    if matches_id(os, &rh) {
        return Some(PackageManager::Rpm);
    }
    let arch: [&str; 3] = ["arch", "manjaro", "endeavouros"];
    assert(strs_ref_view(arch@) =~= seq!["arch"@, "manjaro"@, "endeavouros"@]);
    if matches_id(os, &arch) {
        return Some(PackageManager::Pacman);
    }
    None
}

/// The name of a package manager.
pub fn format_package_manager(manager: PackageManager) -> (r: &'static str)
    ensures
        r@ == match manager {
            PackageManager::Dpkg => "dpkg"@,
            PackageManager::Rpm => "rpm"@,
            PackageManager::Pacman => "pacman"@,
        },
{
    match manager {
        PackageManager::Dpkg => "dpkg",
        PackageManager::Rpm => "rpm",
        PackageManager::Pacman => "pacman",
    }
}

} // verus!

verus! {

/// A file's entry in the pristine cache.
#[derive(Debug, Clone)]
pub struct CacheEntry {
    /// Modification time, in seconds since the Unix epoch.
    pub mtime: u64,
    /// The digest of the content first seen, in lower-case hex.
    pub hash: String,
    /// The content differs from the content first seen.
    pub dirty: bool,
}

/// A cached file and its entry.
#[derive(Debug, Clone)]
pub struct CachedFile {
    pub path: String,
    pub entry: CacheEntry,
}

/// What the cache says of a file before it is read.
#[derive(Debug, Clone)]
pub enum CacheLookup {
    /// Unchanged since last seen: the entry stands as it is.
    Reuse(CacheEntry),
    /// New or changed: its content must be hashed.
    Hash,
}

/// A field-by-field copy of an entry.
pub fn copy_entry(e: &CacheEntry) -> (r: CacheEntry)
    ensures
        r == *e,
{
    CacheEntry { mtime: e.mtime, hash: e.hash.clone(), dirty: e.dirty }
}

/// Whether a file with modification time `mtime` must be hashed: unless
/// the cache holds it with that very time.
pub fn cache_lookup(cached: Option<&CacheEntry>, mtime: u64) -> (r: CacheLookup)
    ensures
        match cached {
            Some(e) => if e.mtime == mtime {
                r matches CacheLookup::Reuse(x) && x == *e
            } else {
                r is Hash
            },
            None => r is Hash,
        },
{
    match cached {
        Some(e) => if e.mtime == mtime {
            CacheLookup::Reuse(copy_entry(e))
        } else {
            CacheLookup::Hash
        },
        None => CacheLookup::Hash,
    }
}

/// The entry of a file hashed to `hash`: a file seen before keeps the hash
/// first recorded and is dirty exactly when its content hash now differs; a
/// file seen for the first time is recorded as pristine.
pub open spec fn entry_after(cached: Option<CacheEntry>, mtime: u64, hash: Seq<char>, r: CacheEntry) -> bool {
    &&& r.mtime == mtime
    &&& match cached {
        Some(e) => r.hash@ == e.hash@ && r.dirty == (hash != e.hash@),
        None => r.hash@ == hash && !r.dirty,
    }
}

/// The refreshed entry of a file whose content hashed to `hash`.
pub fn entry_after_hash(cached: Option<&CacheEntry>, mtime: u64, hash: String) -> (r: CacheEntry)
    ensures
        entry_after(
            match cached {
                Some(e) => Some(*e),
                None => None,
            },
            mtime,
            hash@,
            r,
        ),
{
    match cached {
        Some(e) => {
            let dirty = !str_eq(hash.as_str(), e.hash.as_str());
            CacheEntry { mtime, hash: e.hash.clone(), dirty }
        },
        None => CacheEntry { mtime, hash, dirty: false },
    }
}

/// The SHA-256 digest of `data` in lower-case hex.
pub uninterp spec fn sha256_hex(data: Seq<u8>) -> Seq<char>;

/// Relies on sha2's `Sha256::digest` and the `LowerHex` rendering of its
/// 32-byte output, two lower-case hex digits per byte: the digest of
/// `data`, which depends on `data` alone.
#[verifier::external_body]
fn sha256_hex_of(data: &[u8]) -> (r: String)
    ensures
        r@ == sha256_hex(data@),
        r@.len() == 64,
{
    format!("{:x}", sha2::Sha256::digest(data))
}

/// The content hash recorded in the cache for a file holding `data`.
pub fn content_hash(data: &[u8]) -> (r: String)
    ensures
        r@ == sha256_hex(data@),
        r@.len() == 64,
{
    sha256_hex_of(data)
}

/// The refreshed entry of a file that must be hashed and holds `data`.
pub fn refresh_entry(cached: Option<&CacheEntry>, mtime: u64, data: &[u8]) -> (r: CacheEntry)
    ensures
        entry_after(
            match cached {
                Some(e) => Some(*e),
                None => None,
            },
            mtime,
            sha256_hex(data@),
            r,
        ),
{
    let h = content_hash(data);
    entry_after_hash(cached, mtime, h)
}

/// A file seen pristine, then changed, then changed back, is marked dirty
/// and then pristine again, and the hash recorded never changes.
pub proof fn lemma_restored_file_is_pristine_again(
    h0: Seq<char>,
    h1: Seq<char>,
    m0: u64,
    m1: u64,
    m2: u64,
    e0: CacheEntry,
    e1: CacheEntry,
    e2: CacheEntry,
)
    requires
        h1 != h0,
        entry_after(None, m0, h0, e0),
        entry_after(Some(e0), m1, h1, e1),
        entry_after(Some(e1), m2, h0, e2),
    ensures
        !e0.dirty && e1.dirty && !e2.dirty,
        e0.hash@ == h0 && e1.hash@ == h0 && e2.hash@ == h0,
{
}

/// The paths of the cache whose content is pristine.
pub open spec fn pristine_paths(files: Seq<CachedFile>) -> Seq<String> {
    files.filter(|f: CachedFile| !f.entry.dirty).map_values(|f: CachedFile| f.path)
}

/// The files to leave out of the backup: the paths of the pristine ones,
/// each once, in strictly ascending order.
pub fn pristine_excludes(files: &Vec<CachedFile>) -> (r: Vec<String>)
    ensures
        forall|x: Seq<char>| #[trigger] strs_view(r@).contains(x) <==> strs_view(
            pristine_paths(files@),
        ).contains(x),
        sorted_texts(r@),
        forall|i: int, j: int| 0 <= i < j < r@.len() ==> #[trigger] r@[i]@ != #[trigger] r@[j]@,
{
    let ghost pred = |f: CachedFile| !f.entry.dirty;
    let mut out: Vec<String> = Vec::new();
    let mut i: usize = 0;
    while i < files.len()
        invariant
            i <= files.len(),
            pred == (|f: CachedFile| !f.entry.dirty),
            out@ == files@.take(i as int).filter(pred).map_values(|f: CachedFile| f.path),
        decreases files.len() - i,
    {
        proof {
            files@.take(i as int).lemma_filter_push(files@[i as int], pred);
            assert(files@.take(i + 1) =~= files@.take(i as int).push(files@[i as int]));
        }
        if !files[i].entry.dirty {
            out.push(files[i].path.clone());
            assert(out@ =~= files@.take(i + 1).filter(pred).map_values(|f: CachedFile| f.path));
        } else {
            assert(out@ =~= files@.take(i + 1).filter(pred).map_values(|f: CachedFile| f.path));
        }
        i = i + 1;
    }
    assert(files@.take(files.len() as int) =~= files@);
    let ghost unsorted = out@;
    sort_texts(&mut out);
    proof {
        unsorted.to_multiset_ensures();
        out@.to_multiset_ensures();
        assert forall|x: Seq<char>| #[trigger] strs_view(out@).contains(x) <==> strs_view(unsorted).contains(x) by {
            if strs_view(out@).contains(x) {
                let k = choose|k: int| 0 <= k < strs_view(out@).len() && strs_view(out@)[k] == x;
                assert(out@.contains(out@[k]));
                assert(unsorted.to_multiset().count(out@[k]) > 0);
                let m = choose|m: int| 0 <= m < unsorted.len() && unsorted[m] == out@[k];
                assert(strs_view(unsorted)[m] == x);
            }
            if strs_view(unsorted).contains(x) {
                let k = choose|k: int| 0 <= k < strs_view(unsorted).len() && strs_view(unsorted)[k] == x;
                assert(unsorted.contains(unsorted[k]));
                assert(out@.to_multiset().count(unsorted[k]) > 0);
                let m = choose|m: int| 0 <= m < out@.len() && out@[m] == unsorted[k];
                assert(strs_view(out@)[m] == x);
            }
        }
    }
    let mut res: Vec<String> = Vec::new();
    let mut k: usize = 0;
    while k < out.len()
        invariant
            k <= out@.len(),
            sorted_texts(out@),
            k == 0 ==> res@.len() == 0,
            k > 0 ==> res@.len() > 0 && res@.last()@ == out@[k - 1]@,
            sorted_texts(res@),
            forall|p: int, q: int| 0 <= p < q < res@.len() ==> #[trigger] res@[p]@ != #[trigger] res@[q]@,
            forall|x: Seq<char>| #[trigger] strs_view(res@).contains(x) <==> exists|m: int|
                0 <= m < k && #[trigger] out@[m]@ == x,
        decreases out@.len() - k,
    {
        let ghost before = res@;
        let fresh = k == 0 || !crate::text::str_eq(res[res.len() - 1].as_str(), out[k].as_str());
        if fresh {
            proof {
                if k > 0 {
                    assert(text_le(out@[k - 1]@, out@[k as int]@));
                    assert forall|p: int| 0 <= p < before.len() implies text_le(before[p]@, out@[k as int]@)
                        && before[p]@ != out@[k as int]@ by {
                        if p < before.len() - 1 {
                            assert(text_le(before[p]@, before[before.len() - 1]@));
                            crate::text::lemma_text_le_trans(before[p]@, before.last()@, out@[k as int]@);
                            if before[p]@ == out@[k as int]@ {
                                crate::text::lemma_text_le_antisym(before[p]@, before.last()@);
                            }
                        }
                    }
                }
            }
            res.push(out[k].clone());
            proof {
                assert forall|p: int, q: int| 0 <= p < q < res@.len() implies text_le(#[trigger] res@[p]@, #[trigger] res@[q]@) by {
                    if q < before.len() {
                        assert(res@[p] == before[p] && res@[q] == before[q]);
                    }
                }
                assert forall|p: int, q: int| 0 <= p < q < res@.len() implies #[trigger] res@[p]@ != #[trigger] res@[q]@ by {
                    if q < before.len() {
                        assert(res@[p] == before[p] && res@[q] == before[q]);
                    }
                }
                assert(strs_view(res@) =~= strs_view(before).push(out@[k as int]@));
                assert forall|x: Seq<char>| #[trigger] strs_view(res@).contains(x) <==> exists|m: int|
                    0 <= m < k + 1 && #[trigger] out@[m]@ == x by {
                    if strs_view(res@).contains(x) && x != out@[k as int]@ {
                        let t = choose|t: int| 0 <= t < strs_view(res@).len() && strs_view(res@)[t] == x;
                        assert(strs_view(before)[t] == x);
                        assert(strs_view(before).contains(x));
                    }
                    if exists|m: int| 0 <= m < k + 1 && #[trigger] out@[m]@ == x {
                        let m = choose|m: int| 0 <= m < k + 1 && #[trigger] out@[m]@ == x;
                        if m < k {
                            assert(strs_view(before).contains(x));
                            let t = choose|t: int| 0 <= t < strs_view(before).len() && strs_view(before)[t] == x;
                            assert(strs_view(res@)[t] == x);
                        } else {
                            assert(strs_view(res@)[before.len() as int] == x);
                        }
                    }
                }
            }
        } else {
            proof {
                assert forall|x: Seq<char>| #[trigger] strs_view(res@).contains(x) <==> exists|m: int|
                    0 <= m < k + 1 && #[trigger] out@[m]@ == x by {
                    if exists|m: int| 0 <= m < k + 1 && #[trigger] out@[m]@ == x {
                        let m = choose|m: int| 0 <= m < k + 1 && #[trigger] out@[m]@ == x;
                        if m == k {
                            assert(strs_view(res@)[res@.len() - 1] == x);
                        } else {
                            assert(out@[m]@ == x);
                        }
                    }
                }
            }
        }
        k = k + 1;
    }
    proof {
        assert forall|x: Seq<char>| #[trigger] strs_view(res@).contains(x) <==> strs_view(
            pristine_paths(files@),
        ).contains(x) by {
            assert(unsorted == pristine_paths(files@));
            if exists|m: int| 0 <= m < out@.len() && #[trigger] out@[m]@ == x {
                let m = choose|m: int| 0 <= m < out@.len() && #[trigger] out@[m]@ == x;
                assert(strs_view(out@)[m] == x);
            }
            if strs_view(out@).contains(x) {
                let m = choose|m: int| 0 <= m < strs_view(out@).len() && strs_view(out@)[m] == x;
                assert(out@[m]@ == x);
            }
        }
    }
    res
}

/// The absolute paths that a package manager lists: trimmed lines that
/// begin with `/`.
pub open spec fn listed_paths(ls: Seq<Seq<char>>) -> Seq<Seq<char>> {
    ls.map_values(|l: Seq<char>| trimmed(l)).filter(|l: Seq<char>| l.len() > 0 && l[0] == '/')
}

/// The absolute paths in a package manager's listing, in order.
pub fn parse_package_list(output: &str) -> (r: Vec<String>)
    ensures
        strs_view(r@) == listed_paths(pieces(output@, '\n')),
{
    let lines = split_on(output, '\n');
    let ghost ls = strs_view(lines@);
    let ghost pred = |l: Seq<char>| l.len() > 0 && l[0] == '/';
    let mut out: Vec<String> = Vec::new();
    let mut i: usize = 0;
    assert(strs_view(out@) =~= Seq::<Seq<char>>::empty());
    assert(ls.take(0).map_values(|l: Seq<char>| trimmed(l)) =~= Seq::<Seq<char>>::empty());
    while i < lines.len()
        invariant
            i <= lines.len(),
            ls == strs_view(lines@),
            pred == (|l: Seq<char>| l.len() > 0 && l[0] == '/'),
            strs_view(out@) == ls.take(i as int).map_values(|l: Seq<char>| trimmed(l)).filter(pred),
        decreases lines.len() - i,
    {
        let t = trim(lines[i].as_str());
        let ghost m = ls.take(i as int).map_values(|l: Seq<char>| trimmed(l));
        proof {
            assert(ls.take(i + 1).map_values(|l: Seq<char>| trimmed(l)) =~= m.push(t@));
            m.lemma_filter_push(t@, pred);
        }
        let ghost before = out@;
        if t.unicode_len() > 0 && t.get_char(0) == '/' {
            out.push(String::from_str(t));
            assert(strs_view(out@) =~= strs_view(before).push(t@));
        }
        i = i + 1;
    }
    assert(ls.take(lines.len() as int) =~= ls);
    out
}

} // verus!

verus! {

/// The family word of the system.
pub open spec fn family_word(f: OsFamily) -> Seq<char> {
    match f {
        OsFamily::Linux => "linux"@,
        OsFamily::Macos => "macos"@,
        OsFamily::Windows => "windows"@,
        OsFamily::Other(n) => n@,
    }
}

/// The parts of the one-line description of a system.
pub open spec fn os_info_parts(os: OsInfo) -> Seq<Seq<char>> {
    seq![family_word(os.family)] + (match os.id {
        Some(i) => seq!["id="@ + i@],
        None => seq![],
    }) + (if os.id_like@.len() > 0 {
        seq!["id_like="@ + crate::text::joined(strs_view(os.id_like@), ","@)]
    } else {
        seq![]
    }) + (match os.version_id {
        Some(v) => seq!["version_id="@ + v@],
        None => seq![],
    })
}

/// A one-line description of a system: its family, then `id=`,
/// `id_like=` and `version_id=` for what is known, space-separated.
pub fn format_os_info(os: &OsInfo) -> (r: String)
    ensures
        r@ == crate::text::joined(os_info_parts(*os), " "@),
{
    let mut parts: Vec<String> = Vec::new();
    let fam = match &os.family {
        OsFamily::Linux => String::from_str("linux"),
        OsFamily::Macos => String::from_str("macos"),
        OsFamily::Windows => String::from_str("windows"),
        OsFamily::Other(n) => n.clone(),
    };
    parts.push(fam);
    let ghost p0 = strs_view(parts@);
    assert(p0 =~= seq![family_word(os.family)]);
    match &os.id {
        Some(i) => {
            parts.push(concat_str("id=", i.as_str()));
        },
        None => {},
    }
    let ghost p1 = strs_view(parts@);
    assert(p1 =~= p0 + match os.id {
        Some(i) => seq!["id="@ + i@],
        None => Seq::<Seq<char>>::empty(),
    });
    if os.id_like.len() > 0 {
        let like = crate::text::join_texts(&os.id_like, ",");
        parts.push(concat_str("id_like=", like.as_str()));
    }
    let ghost p2 = strs_view(parts@);
    assert(p2 =~= p1 + if os.id_like@.len() > 0 {
        seq!["id_like="@ + crate::text::joined(strs_view(os.id_like@), ","@)]
    } else {
        Seq::<Seq<char>>::empty()
    });
    match &os.version_id {
        Some(v) => {
            parts.push(concat_str("version_id=", v.as_str()));
        },
        None => {},
    }
    assert(strs_view(parts@) =~= os_info_parts(*os));
    crate::text::join_texts(&parts, " ")
}

} // verus!
