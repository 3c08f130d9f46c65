//! On-disk audio cache: where an entry lives, when it counts as complete,
//! which files a size limit evicts, and the progress of a download that is
//! being streamed into the cache while it plays.
//!
//! The file-system work itself (probing, writing, deleting, listing) is done
//! by the caller; the functions here decide what that work is and what its
//! results mean.

use std::path::PathBuf;
use sha2::Digest;
use vstd::prelude::*;

use crate::text::push_char;

verus! {

broadcast use {vstd::string::group_string_axioms, vstd::slice::group_slice_axioms};

/// The SHA-256 digest of a byte sequence.
pub uninterp spec fn sha256(data: Seq<u8>) -> Seq<u8>;

/// `sha2::Sha256::digest`: the digest of `data`, which is always 32 bytes
/// long (the output size of SHA-256). The compression function itself is
/// left unstated beyond the name `sha256`.
#[verifier::external_body]
fn sha256_digest(data: &[u8]) -> (d: Vec<u8>)
    ensures
        d@ == sha256(data@),
        d@.len() == 32,
{
    sha2::Sha256::digest(data).to_vec()
}

/// The path `base` with `name` adjoined.
pub uninterp spec fn path_joined(base: PathBuf, name: Seq<char>) -> PathBuf;

/// `Path::join`: the path `base` with the relative component `name`
/// adjoined. What the joined path looks like is left to the name.
#[verifier::external_body]
fn join_path(base: &PathBuf, name: &str) -> (p: PathBuf)
    ensures
        p == path_joined(*base, name@),
{
    base.join(name)
}

/// A lower-case hexadecimal digit for `d` in `0..16`.
pub open spec fn hex_digit(d: int) -> char {
    if d < 10 {
        (d + 48) as char
    } else {
        (d + 87) as char
    }
}

/// Bytes written as two lower-case hexadecimal digits each, the way
/// `{:x}` prints a digest.
pub open spec fn lower_hex(bytes: Seq<u8>) -> Seq<char>
    decreases bytes.len(),
{
    if bytes.len() == 0 {
        Seq::empty()
    } else {
        let b = bytes.last();
        lower_hex(bytes.drop_last()) + seq![hex_digit(b as int / 16), hex_digit(b as int % 16)]
    }
}

fn hex_char(d: u8) -> (c: char)
    requires
        d < 16,
    ensures
        c == hex_digit(d as int),
{
    if d < 10 {
        (d + 48) as char
    } else {
        (d + 87) as char
    }
}

/// The file name under which the cache stores `key`: the lower-case hex
/// SHA-256 of the key's UTF-8 bytes.
pub open spec fn cache_name(key: Seq<char>) -> Seq<char> {
    lower_hex(sha256(vstd::utf8::encode_utf8(key)))
}

/// The name of the marker file that flags an entry as still being written.
pub open spec fn marker_name(key: Seq<char>) -> Seq<char> {
    cache_name(key) + ".part"@
}

/// The cache file name for `key`.
pub fn cache_file_name(key: &str) -> (name: String)
    ensures
        name@ == cache_name(key@),
        cache_name(key@).len() == 64,
{
    let bytes = key.as_bytes();
    proof {
        assert(bytes@ == vstd::utf8::encode_utf8(key@));
    }
    let digest = sha256_digest(bytes);
    let mut out = String::new();
    let mut i: usize = 0;
    while i < digest.len()
        invariant
            i <= digest@.len(),
            out@ == lower_hex(digest@.take(i as int)),
        decreases digest@.len() - i,
    {
        let b = digest[i];
        push_char(&mut out, hex_char(b / 16));
        push_char(&mut out, hex_char(b % 16));
        proof {
            assert(digest@.take(i + 1).drop_last() =~= digest@.take(i as int));
            assert(digest@.take(i + 1).last() == b);
        }
        i = i + 1;
    }
    assert(digest@.take(digest@.len() as int) =~= digest@);
    proof {
        lemma_lower_hex_shape(digest@);
    }
    out
}

/// A character `lower_hex` writes: a digit or a letter from `a` to `f`.
pub open spec fn is_lower_hex_char(c: char) -> bool {
    ('0' <= c && c <= '9') || ('a' <= c && c <= 'f')
}

proof fn lemma_hex_digit(d: int)
    requires
        0 <= d < 16,
    ensures
        is_lower_hex_char(hex_digit(d)),
        d < 10 ==> hex_digit(d) as int == d + 48,
        d >= 10 ==> hex_digit(d) as int == d + 87,
{
}

proof fn lemma_lower_hex_shape(bytes: Seq<u8>)
    ensures
        lower_hex(bytes).len() == 2 * bytes.len(),
        forall|i: int| 0 <= i < lower_hex(bytes).len() ==> is_lower_hex_char(#[trigger] lower_hex(bytes)[i]),
    decreases bytes.len(),
{
    if bytes.len() > 0 {
        let b = bytes.last();
        lemma_lower_hex_shape(bytes.drop_last());
        lemma_hex_digit(b as int / 16);
        lemma_hex_digit(b as int % 16);
        let pre = lower_hex(bytes.drop_last());
        let two = seq![hex_digit(b as int / 16), hex_digit(b as int % 16)];
        assert forall|i: int| 0 <= i < lower_hex(bytes).len() implies is_lower_hex_char(
            #[trigger] lower_hex(bytes)[i],
        ) by {
            if i < pre.len() {
                assert(lower_hex(bytes)[i] == pre[i]);
            } else {
                assert(lower_hex(bytes)[i] == two[i - pre.len()]);
            }
        }
    }
}

proof fn lemma_lower_hex_injective(x: Seq<u8>, y: Seq<u8>)
    requires
        lower_hex(x) == lower_hex(y),
    ensures
        x == y,
    decreases x.len(),
{
    lemma_lower_hex_shape(x);
    lemma_lower_hex_shape(y);
    if x.len() > 0 {
        let (a, b) = (x.last(), y.last());
        let (hx, hy) = (lower_hex(x), lower_hex(y));
        let n = hx.len();
        assert(hx[n - 2] == hex_digit(a as int / 16) && hx[n - 1] == hex_digit(a as int % 16));
        assert(hy[n - 2] == hex_digit(b as int / 16) && hy[n - 1] == hex_digit(b as int % 16));
        lemma_hex_digit(a as int / 16);
        lemma_hex_digit(a as int % 16);
        lemma_hex_digit(b as int / 16);
        lemma_hex_digit(b as int % 16);
        assert(a == b);
        assert(lower_hex(x.drop_last()) =~= hx.take(n - 2));
        assert(lower_hex(y.drop_last()) =~= hy.take(n - 2));
        lemma_lower_hex_injective(x.drop_last(), y.drop_last());
        assert(x =~= x.drop_last().push(a));
        assert(y =~= y.drop_last().push(b));
    } else {
        assert(x =~= y);
    }
}

/// Law: the cache names two keys the same only when their digests agree:
/// a name is the digest written out, and nothing else.
pub proof fn law_cache_name_determines_digest(a: Seq<char>, b: Seq<char>)
    ensures
        cache_name(a) == cache_name(b) <==> sha256(vstd::utf8::encode_utf8(a)) == sha256(
            vstd::utf8::encode_utf8(b),
        ),
{
    if cache_name(a) == cache_name(b) {
        lemma_lower_hex_injective(sha256(vstd::utf8::encode_utf8(a)), sha256(vstd::utf8::encode_utf8(b)));
    }
}

/// Law: an entry's file is never another entry's marker: entry names are
/// hexadecimal digits only, while every marker name holds a dot.
pub proof fn law_entry_never_marker(a: Seq<char>, b: Seq<char>)
    ensures
        cache_name(a) != marker_name(b),
{
    let digest_a = sha256(vstd::utf8::encode_utf8(a));
    let digest_b = sha256(vstd::utf8::encode_utf8(b));
    lemma_lower_hex_shape(digest_a);
    lemma_lower_hex_shape(digest_b);
    let m = marker_name(b);
    let k = cache_name(b).len() as int;
    reveal_strlit(".part");
    assert(m[k] == '.');
    if cache_name(a) == m {
        assert(is_lower_hex_char(cache_name(a)[k]));
    }
}

/// Law: a key's marker sits beside its entry: both are named in the same
/// cache directory, and the marker's name is the entry's name with `.part`
/// appended, so the two names differ.
pub proof fn law_marker_beside_entry(key: Seq<char>)
    ensures
        marker_name(key) == cache_name(key) + ".part"@,
        marker_name(key).take(cache_name(key).len() as int) == cache_name(key),
        marker_name(key) != cache_name(key),
{
    reveal_strlit(".part");
    assert(marker_name(key).take(cache_name(key).len() as int) =~= cache_name(key));
    assert(marker_name(key).len() == cache_name(key).len() + 5);
}

/// Law: removing one key touches no file of another key: the entry and
/// marker names of two keys whose digests differ are all distinct, so the
/// files that removing the first lists are never the second's.
pub proof fn law_removal_spares_other_keys(a: Seq<char>, b: Seq<char>)
    requires
        sha256(vstd::utf8::encode_utf8(a)) != sha256(vstd::utf8::encode_utf8(b)),
    ensures
        cache_name(a) != cache_name(b),
        cache_name(a) != marker_name(b),
        marker_name(a) != cache_name(b),
        marker_name(a) != marker_name(b),
{
    law_cache_name_determines_digest(a, b);
    law_entry_never_marker(a, b);
    law_entry_never_marker(b, a);
    if marker_name(a) == marker_name(b) {
        law_marker_beside_entry(a);
        law_marker_beside_entry(b);
        let da = sha256(vstd::utf8::encode_utf8(a));
        let db = sha256(vstd::utf8::encode_utf8(b));
        lemma_lower_hex_shape(da);
        lemma_lower_hex_shape(db);
        reveal_strlit(".part");
        assert(cache_name(a).len() == cache_name(b).len());
        assert(cache_name(a) =~= marker_name(a).take(cache_name(a).len() as int));
        assert(cache_name(b) =~= marker_name(b).take(cache_name(b).len() as int));
    }
}

} // verus!

verus! {

/// The path named by a string (`PathBuf::from`).
pub uninterp spec fn path_of(text: Seq<char>) -> PathBuf;

/// `PathBuf::from` on a string slice.
#[verifier::external_body]
fn path_from(text: &str) -> (p: PathBuf)
    ensures
        p == path_of(text@),
{
    PathBuf::from(text)
}

/// `dirs::config_dir`: the user's configuration directory, if the platform
/// has one. It depends on the environment, so nothing is stated of it.
#[verifier::external_body]
fn config_dir() -> Option<PathBuf> {
    dirs::config_dir()
}

/// Size limit of a fresh cache: one gibibyte.
pub const DEFAULT_MAX_CACHE_SIZE: u64 = 1073741824;

/// The cache: a directory of files named by the hash of their key, and a
/// size limit that `cleanup` enforces.
#[derive(Debug)]
pub struct CacheManager {
    pub cache_dir: PathBuf,
    pub max_size: u64,
}

/// What the caller found on disk for one key: whether the entry's file and
/// its "still being written" marker exist.
#[derive(Debug, Clone, Copy, PartialEq, Eq, Structural)]
pub struct EntryProbe {
    pub file_exists: bool,
    pub marker_exists: bool,
}

/// An entry is usable when its file exists and no download is still
/// writing it.
pub open spec fn entry_complete(probe: EntryProbe) -> bool {
    probe.file_exists && !probe.marker_exists
}

/// Where `put` writes an entry, and the marker it clears afterwards.
#[derive(Debug)]
pub struct CacheWrite {
    pub file_path: PathBuf,
    pub marker_path: PathBuf,
}

/// Totals of the files found in the cache directory.
#[derive(Debug, Clone, Copy, PartialEq, Eq, Structural)]
pub struct CacheInfo {
    pub total_size: u64,
    pub file_count: u64,
    pub max_size: u64,
}

/// The sum of a sequence of sizes.
pub open spec fn total_of(sizes: Seq<u64>) -> int
    decreases sizes.len(),
{
    if sizes.len() == 0 {
        0
    } else {
        total_of(sizes.drop_last()) + sizes.last()
    }
}

impl CacheManager {
    /// A cache in `musictui2/cache` under the user's configuration directory
    /// (or under the current directory where there is none), with the
    /// default size limit. The directory is created when the first entry is
    /// written.
    pub fn new() -> (c: Self)
        ensures
            c.max_size == DEFAULT_MAX_CACHE_SIZE,
            exists|base: PathBuf|
                c.cache_dir == path_joined(path_joined(base, "musictui2"@), "cache"@),
    {
        let base = match config_dir() {
            Some(dir) => dir,
            None => path_from("."),
        };
        let app_dir = join_path(&base, "musictui2");
        let dir = join_path(&app_dir, "cache");
        CacheManager::from_dir(dir)
    }

    /// A cache kept in `cache_dir`, with the default size limit.
    pub fn from_dir(cache_dir: PathBuf) -> (c: Self)
        ensures
            c.cache_dir == cache_dir,
            c.max_size == DEFAULT_MAX_CACHE_SIZE,
    {
        CacheManager { cache_dir, max_size: DEFAULT_MAX_CACHE_SIZE }
    }

    pub fn get_cache_dir(&self) -> (d: &PathBuf)
        ensures
            *d == self.cache_dir,
    {
        &self.cache_dir
    }

    pub fn get_cache_dir_path(&self) -> (d: &PathBuf)
        ensures
            *d == self.cache_dir,
    {
        &self.cache_dir
    }

    /// The file that holds the entry for `key`.
    pub fn path_for_key(&self, key: &str) -> (p: PathBuf)
        ensures
            p == path_joined(self.cache_dir, cache_name(key@)),
            cache_name(key@).len() == 64,
    {
        let name = cache_file_name(key);
        join_path(&self.cache_dir, name.as_str())
    }

    /// The marker file whose presence means the entry for `key` is still
    /// being written: the entry's file name with `.part` appended.
    pub fn incomplete_marker_path_for_key(&self, key: &str) -> (p: PathBuf)
        ensures
            p == path_joined(self.cache_dir, marker_name(key@)),
    {
        let mut name = cache_file_name(key);
        name.append(".part");
        proof {
            reveal_strlit(".part");
        }
        join_path(&self.cache_dir, name.as_str())
    }

    /// The entry for `key`, if it is complete on disk.
    pub fn get(&self, key: &str, probe: EntryProbe) -> (r: Option<PathBuf>)
        ensures
            r == (if entry_complete(probe) {
                Some(path_joined(self.cache_dir, cache_name(key@)))
            } else {
                None
            }),
    {
        if probe.file_exists && !probe.marker_exists {
            Some(self.path_for_key(key))
        } else {
            None
        }
    }

    /// Whether the entry probed is complete.
    pub fn entry_exists(&self, probe: EntryProbe) -> (b: bool)
        ensures
            b == entry_complete(probe),
    {
        probe.file_exists && !probe.marker_exists
    }

    /// Where to write the entry for `key`; once written, its marker is
    /// removed if present.
    pub fn put(&self, key: &str) -> (w: CacheWrite)
        ensures
            w.file_path == path_joined(self.cache_dir, cache_name(key@)),
            w.marker_path == path_joined(self.cache_dir, marker_name(key@)),
    {
        CacheWrite {
            file_path: self.path_for_key(key),
            marker_path: self.incomplete_marker_path_for_key(key),
        }
    }

    /// The files to delete to remove the entry for `key`: its file, then its
    /// marker, each only where it exists.
    pub fn remove(&self, key: &str, probe: EntryProbe) -> (paths: Vec<PathBuf>)
        ensures
            paths@ == (if probe.file_exists {
                seq![path_joined(self.cache_dir, cache_name(key@))]
            } else {
                Seq::<PathBuf>::empty()
            }) + (if probe.marker_exists {
                seq![path_joined(self.cache_dir, marker_name(key@))]
            } else {
                Seq::<PathBuf>::empty()
            }),
    {
        let mut paths: Vec<PathBuf> = Vec::new();
        if probe.file_exists {
            paths.push(self.path_for_key(key));
        }
        if probe.marker_exists {
            paths.push(self.incomplete_marker_path_for_key(key));
        }
        assert(paths@ =~= (if probe.file_exists {
            seq![path_joined(self.cache_dir, cache_name(key@))]
        } else {
            Seq::<PathBuf>::empty()
        }) + (if probe.marker_exists {
            seq![path_joined(self.cache_dir, marker_name(key@))]
        } else {
            Seq::<PathBuf>::empty()
        }));
        paths
    }

    pub fn set_max_size(&mut self, size: u64)
        ensures
            final(self).max_size == size,
            final(self).cache_dir == old(self).cache_dir,
    {
        self.max_size = size;
    }

    pub fn get_max_size(&self) -> (m: u64)
        ensures
            m == self.max_size,
    {
        self.max_size
    }

    /// Totals over the sizes of the regular files in the cache directory.
    pub fn get_cache_info(&self, file_sizes: &[u64]) -> (info: CacheInfo)
        requires
            total_of(file_sizes@) <= u64::MAX,
        ensures
            info.total_size == total_of(file_sizes@),
            info.file_count == file_sizes@.len(),
            info.max_size == self.max_size,
    {
        let mut total: u64 = 0;
        let mut i: usize = 0;
        while i < file_sizes.len()
            invariant
                i <= file_sizes@.len(),
                total == total_of(file_sizes@.take(i as int)),
                total_of(file_sizes@) <= u64::MAX,
            decreases file_sizes@.len() - i,
        {
            proof {
                lemma_total_prefix_bounded(file_sizes@, i as int + 1);
                assert(file_sizes@.take(i + 1).drop_last() =~= file_sizes@.take(i as int));
            }
            total = total + file_sizes[i];
            i = i + 1;
        }
        assert(file_sizes@.take(file_sizes@.len() as int) =~= file_sizes@);
        CacheInfo { total_size: total, file_count: file_sizes.len() as u64, max_size: self.max_size }
    }
}

/// A prefix of the sizes sums to no more than all of them.
pub proof fn lemma_total_prefix_bounded(sizes: Seq<u64>, k: int)
    requires
        0 <= k <= sizes.len(),
    ensures
        total_of(sizes.take(k)) <= total_of(sizes),
    decreases sizes.len() - k,
{
    if k < sizes.len() {
        lemma_total_prefix_bounded(sizes, k + 1);
        assert(sizes.take(k + 1).drop_last() =~= sizes.take(k));
    } else {
        assert(sizes.take(k) =~= sizes);
    }
}

} // verus!

verus! {

/// File `x` is visited before file `y` when cleaning up: the more recently
/// modified first, and among files modified at the same time, the one
/// listed first.
pub open spec fn visited_before(modified: Seq<u64>, x: int, y: int) -> bool {
    modified[x] > modified[y] || (modified[x] == modified[y] && x < y)
}

/// `order` lists every index of `modified` once, most recently modified
/// first, keeping the listing order among equal times (a stable sort by
/// modification time, newest first).
pub open spec fn is_age_order(modified: Seq<u64>, order: Seq<usize>) -> bool {
    &&& order.len() == modified.len()
    &&& forall|a: int| 0 <= a < order.len() ==> #[trigger] order[a] < modified.len()
    &&& forall|a: int, b: int|
        0 <= a < b < order.len() ==> visited_before(modified, #[trigger] order[a] as int, #[trigger] order[b] as int)
    &&& forall|j: int| 0 <= j < modified.len() ==> #[trigger] order.contains(j as usize)
}

/// The visiting order of the files: the one stable sort of the files by
/// modification time, newest first.
pub open spec fn age_order(modified: Seq<u64>) -> Seq<usize> {
    choose|order: Seq<usize>| is_age_order(modified, order)
}

/// After visiting the first `k` files of `order` with limit `max`: the
/// bytes kept, and whether some file has already failed to fit. Files are
/// kept while each still fits; from the first that does not, every file is
/// evicted.
pub open spec fn scan_state(sizes: Seq<u64>, order: Seq<usize>, k: int, max: u64) -> (int, bool)
    decreases k,
{
    if k <= 0 {
        (0, false)
    } else {
        let prev = scan_state(sizes, order, k - 1, max);
        let size = sizes[order[k - 1] as int];
        if prev.1 || prev.0 + size > max {
            (prev.0, true)
        } else {
            (prev.0 + size, false)
        }
    }
}

/// Bytes kept after visiting the first `k` files of `order` with limit `max`.
pub open spec fn kept_after(sizes: Seq<u64>, order: Seq<usize>, k: int, max: u64) -> int {
    scan_state(sizes, order, k, max).0
}

/// Whether the `k`-th visited file is evicted: an earlier one did not fit,
/// or keeping it would exceed the limit.
pub open spec fn evicts_at(sizes: Seq<u64>, order: Seq<usize>, k: int, max: u64) -> bool {
    scan_state(sizes, order, k, max).1 || kept_after(sizes, order, k, max) + sizes[order[k] as int] > max
}

/// The files evicted among the first `k` visited, in visiting order.
pub open spec fn evicted_after(sizes: Seq<u64>, order: Seq<usize>, k: int, max: u64) -> Seq<usize>
    decreases k,
{
    if k <= 0 {
        Seq::empty()
    } else if evicts_at(sizes, order, k - 1, max) {
        evicted_after(sizes, order, k - 1, max).push(order[k - 1])
    } else {
        evicted_after(sizes, order, k - 1, max)
    }
}

/// Bytes evicted among the first `k` visited files.
pub open spec fn evicted_bytes_after(sizes: Seq<u64>, order: Seq<usize>, k: int, max: u64) -> int
    decreases k,
{
    if k <= 0 {
        0
    } else if evicts_at(sizes, order, k - 1, max) {
        evicted_bytes_after(sizes, order, k - 1, max) + sizes[order[k - 1] as int]
    } else {
        evicted_bytes_after(sizes, order, k - 1, max)
    }
}

/// The sum of the sizes whose mask bit is set.
pub open spec fn masked_total(sizes: Seq<u64>, mask: Seq<bool>) -> int
    decreases sizes.len(),
{
    if sizes.len() == 0 || mask.len() == 0 {
        0
    } else {
        masked_total(sizes.drop_last(), mask.drop_last()) + (if mask.last() {
            sizes.last() as int
        } else {
            0
        })
    }
}

proof fn lemma_masked_total_set(sizes: Seq<u64>, mask: Seq<bool>, j: int)
    requires
        mask.len() == sizes.len(),
        0 <= j < sizes.len(),
        !mask[j],
    ensures
        masked_total(sizes, mask.update(j, true)) == masked_total(sizes, mask) + sizes[j],
    decreases sizes.len(),
{
    let n = sizes.len() - 1;
    if j == n {
        assert(mask.update(j, true).drop_last() =~= mask.drop_last());
    } else {
        assert(mask.update(j, true).drop_last() =~= mask.drop_last().update(j, true));
        lemma_masked_total_set(sizes.drop_last(), mask.drop_last(), j);
    }
}

proof fn lemma_masked_total_bounded(sizes: Seq<u64>, mask: Seq<bool>)
    requires
        mask.len() == sizes.len(),
    ensures
        0 <= masked_total(sizes, mask) <= total_of(sizes),
        (forall|j: int| 0 <= j < mask.len() ==> #[trigger] mask[j]) ==> masked_total(sizes, mask)
            == total_of(sizes),
        (forall|j: int| 0 <= j < mask.len() ==> !#[trigger] mask[j]) ==> masked_total(sizes, mask)
            == 0,
    decreases sizes.len(),
{
    if sizes.len() > 0 {
        lemma_masked_total_bounded(sizes.drop_last(), mask.drop_last());
        if forall|j: int| 0 <= j < mask.len() ==> !#[trigger] mask[j] {
            assert forall|j: int| 0 <= j < mask.drop_last().len() implies !#[trigger] mask.drop_last()[j] by {
                assert(!mask[j]);
            }
            assert(!mask[mask.len() - 1]);
        }
        if forall|j: int| 0 <= j < mask.len() ==> #[trigger] mask[j] {
            assert forall|j: int| 0 <= j < mask.drop_last().len() implies #[trigger] mask.drop_last()[j] by {
                assert(mask[j]);
            }
            assert(mask[mask.len() - 1]);
        }
    }
}

/// Two stable age orders of the same times agree at every position.
proof fn lemma_age_order_agrees_at(modified: Seq<u64>, o1: Seq<usize>, o2: Seq<usize>, i: int)
    requires
        is_age_order(modified, o1),
        is_age_order(modified, o2),
        0 <= i < o1.len(),
        forall|a: int| 0 <= a < i ==> o1[a] == o2[a],
    ensures
        o1[i] == o2[i],
{
    if o1[i] != o2[i] {
        let x = o1[i] as int;
        let y = o2[i] as int;
        if visited_before(modified, x, y) {
            assert(o1[i] < modified.len());
            assert(o2.contains(x as usize));
            let j = choose|j: int| 0 <= j < o2.len() && o2[j] == o1[i];
            if j < i {
                assert(o1[j] == o2[j]);
                assert(visited_before(modified, o1[j] as int, o1[i] as int));
            } else {
                assert(j > i);
                assert(visited_before(modified, o2[i] as int, o2[j] as int));
            }
        } else {
            assert(visited_before(modified, y, x));
            assert(o2[i] < modified.len());
            assert(o1.contains(y as usize));
            let j = choose|j: int| 0 <= j < o1.len() && o1[j] == o2[i];
            if j < i {
                assert(o2[j] == o1[j]);
                assert(visited_before(modified, o2[j] as int, o2[i] as int));
            } else {
                assert(j > i);
                assert(visited_before(modified, o1[i] as int, o1[j] as int));
            }
        }
    }
}

proof fn lemma_age_orders_agree_from(modified: Seq<u64>, o1: Seq<usize>, o2: Seq<usize>, i: int)
    requires
        is_age_order(modified, o1),
        is_age_order(modified, o2),
        0 <= i <= o1.len(),
        forall|a: int| 0 <= a < i ==> o1[a] == o2[a],
    ensures
        forall|a: int| 0 <= a < o1.len() ==> o1[a] == o2[a],
    decreases o1.len() - i,
{
    if i < o1.len() {
        lemma_age_order_agrees_at(modified, o1, o2, i);
        lemma_age_orders_agree_from(modified, o1, o2, i + 1);
    }
}

/// Law: a list of modification times has exactly one stable age order, so
/// the files a cleanup visits, and in what order, depend on the times alone.
pub proof fn law_age_order_unique(modified: Seq<u64>, o1: Seq<usize>, o2: Seq<usize>)
    requires
        is_age_order(modified, o1),
        is_age_order(modified, o2),
    ensures
        o1 == o2,
{
    lemma_age_orders_agree_from(modified, o1, o2, 0);
    assert(o1 =~= o2);
}

/// The indices of `modified`, most recently modified first, equal times in
/// listing order (what a stable sort of the files by age visits).
pub fn age_order_of(modified: &[u64]) -> (order: Vec<usize>)
    ensures
        is_age_order(modified@, order@),
        order@ == age_order(modified@),
{
    let mut order: Vec<usize> = Vec::new();
    let mut i: usize = 0;
    while i < modified.len()
        invariant
            i <= modified@.len(),
            order@.len() == i,
            forall|a: int| 0 <= a < order@.len() ==> #[trigger] order@[a] < i,
            forall|a: int, b: int|
                0 <= a < b < order@.len() ==> visited_before(
                    modified@,
                    #[trigger] order@[a] as int,
                    #[trigger] order@[b] as int,
                ),
            forall|j: int| 0 <= j < i ==> #[trigger] order@.contains(j as usize),
        decreases modified@.len() - i,
    {
        let mut p: usize = 0;
        while p < order.len() && modified[order[p]] >= modified[i]
            invariant
                p <= order@.len(),
                order@.len() == i,
                i < modified@.len(),
                forall|a: int| 0 <= a < order@.len() ==> #[trigger] order@[a] < i,
                forall|a: int| 0 <= a < p ==> modified@[#[trigger] order@[a] as int] >= modified@[i as int],
            decreases order@.len() - p,
        {
            p = p + 1;
        }
        let ghost old_order = order@;
        proof {
            if p < old_order.len() {
                assert(modified@[old_order[p as int] as int] < modified@[i as int]);
                assert forall|b: int| p <= b < old_order.len() implies modified@[old_order[b] as int]
                    < modified@[i as int] by {
                    if b > p {
                        assert(visited_before(modified@, old_order[p as int] as int, old_order[b] as int));
                    }
                }
            }
        }
        order.insert(p, i);
        proof {
            assert(order@ == old_order.insert(p as int, i));
            assert forall|a: int, b: int| 0 <= a < b < order@.len() implies visited_before(
                modified@,
                #[trigger] order@[a] as int,
                #[trigger] order@[b] as int,
            ) by {
                if a < p && b == p {
                    assert(order@[a] == old_order[a]);
                } else if a == p {
                    assert(order@[b] == old_order[b - 1]);
                } else if a < p && b > p {
                    assert(order@[a] == old_order[a]);
                    assert(order@[b] == old_order[b - 1]);
                } else if b < p {
                    assert(order@[a] == old_order[a]);
                    assert(order@[b] == old_order[b]);
                } else {
                    assert(order@[a] == old_order[a - 1]);
                    assert(order@[b] == old_order[b - 1]);
                }
            }
            assert forall|j: int| 0 <= j < i + 1 implies #[trigger] order@.contains(j as usize) by {
                if j == i {
                    assert(order@[p as int] == i);
                } else {
                    assert(old_order.contains(j as usize));
                    let a = choose|a: int| 0 <= a < old_order.len() && old_order[a] == j as usize;
                    if a < p {
                        assert(order@[a] == j as usize);
                    } else {
                        assert(order@[a + 1] == j as usize);
                    }
                }
            }
            assert forall|a: int| 0 <= a < order@.len() implies #[trigger] order@[a] < i + 1 by {
                if a < p {
                    assert(order@[a] == old_order[a]);
                } else if a > p {
                    assert(order@[a] == old_order[a - 1]);
                }
            }
        }
        i = i + 1;
    }
    proof {
        assert(is_age_order(modified@, order@));
        law_age_order_unique(modified@, order@, age_order(modified@));
    }
    order
}

} // verus!

verus! {

/// What a cleanup does: the files to delete, by their index in the listing
/// and in the order visited, and how many bytes that frees.
#[derive(Debug)]
pub struct CleanupPlan {
    pub evicted: Vec<usize>,
    pub removed_size: u64,
}

impl CacheManager {
    /// Plans the eviction of cached files so that what stays fits in the
    /// size limit, least recently modified first. Files are visited newest
    /// first (equal times in listing order) and kept while each still fits
    /// in the limit; from the first that does not, it and every older file
    /// are evicted. `file_sizes` and `modified` are the sizes and
    /// modification times of the regular files found in the cache
    /// directory, in listing order.
    pub fn cleanup(&self, file_sizes: &[u64], modified: &[u64]) -> (plan: CleanupPlan)
        requires
            total_of(file_sizes@) <= u64::MAX,
            modified@.len() == file_sizes@.len(),
        ensures
            plan.evicted@ == evicted_after(
                file_sizes@,
                age_order(modified@),
                file_sizes@.len() as int,
                self.max_size,
            ),
            plan.removed_size == evicted_bytes_after(
                file_sizes@,
                age_order(modified@),
                file_sizes@.len() as int,
                self.max_size,
            ),
            kept_after(file_sizes@, age_order(modified@), file_sizes@.len() as int, self.max_size)
                <= self.max_size,
            total_of(file_sizes@) - plan.removed_size == kept_after(
                file_sizes@,
                age_order(modified@),
                file_sizes@.len() as int,
                self.max_size,
            ),
    {
        let order = age_order_of(modified);
        let ghost sizes = file_sizes@;
        let ghost n = sizes.len() as int;
        let max = self.max_size;
        let mut kept: u64 = 0;
        let mut removed: u64 = 0;
        let mut evicted: Vec<usize> = Vec::new();
        let mut stopped = false;
        let ghost mut seen: Seq<bool> = Seq::new(sizes.len(), |j: int| false);
        proof {
            lemma_masked_total_bounded(sizes, seen);
        }
        let mut k: usize = 0;
        while k < order.len()
            invariant
                is_age_order(modified@, order@),
                modified@.len() == n,
                sizes == file_sizes@,
                n == sizes.len(),
                order@.len() == n,
                k <= n,
                max == self.max_size,
                total_of(sizes) <= u64::MAX,
                kept == kept_after(sizes, order@, k as int, max),
                stopped == scan_state(sizes, order@, k as int, max).1,
                kept <= max,
                removed == evicted_bytes_after(sizes, order@, k as int, max),
                evicted@ == evicted_after(sizes, order@, k as int, max),
                seen.len() == n,
                masked_total(sizes, seen) == kept + removed,
                forall|j: int| 0 <= j < n ==> (#[trigger] seen[j] <==> exists|a: int|
                    0 <= a < k && order@[a] == j),
            decreases n - k,
        {
            let idx = order[k];
            let size = file_sizes[idx];
            proof {
                assert(idx < n);
                if seen[idx as int] {
                    let a = choose|a: int| 0 <= a < k && order@[a] == idx as int;
                    assert(visited_before(modified@, order@[a] as int, order@[k as int] as int));
                }
                lemma_masked_total_set(sizes, seen, idx as int);
                lemma_masked_total_bounded(sizes, seen.update(idx as int, true));
            }
            if stopped || (kept as u128) + (size as u128) > (max as u128) {
                stopped = true;
                evicted.push(idx);
                removed = removed + size;
            } else {
                kept = kept + size;
            }
            proof {
                let old_seen = seen;
                seen = seen.update(idx as int, true);
                assert forall|j: int| 0 <= j < n implies (#[trigger] seen[j] <==> exists|a: int|
                    0 <= a < k + 1 && order@[a] == j) by {
                    if j == idx as int {
                        assert(order@[k as int] == j);
                    } else {
                        assert(seen[j] == old_seen[j]);
                        if old_seen[j] {
                            let a = choose|a: int| 0 <= a < k && order@[a] == j;
                            assert(0 <= a < k + 1 && order@[a] == j);
                        }
                        if exists|a: int| 0 <= a < k + 1 && order@[a] == j {
                            let a = choose|a: int| 0 <= a < k + 1 && order@[a] == j;
                            assert(a != k);
                        }
                    }
                }
            }
            k = k + 1;
        }
        proof {
            assert forall|j: int| 0 <= j < seen.len() implies #[trigger] seen[j] by {
                assert(order@.contains(j as usize));
                let a = choose|a: int| 0 <= a < order@.len() && order@[a] == j as usize;
                assert(0 <= a < k && order@[a] == j);
            }
            lemma_masked_total_bounded(sizes, seen);
        }
        CleanupPlan { evicted, removed_size: removed }
    }
}

} // verus!

verus! {

/// I/O errors, carried through unchanged.
#[verifier::external_type_specification]
#[verifier::external_body]
pub struct ExIoError(std::io::Error);

/// Progress of a download that is streamed into the cache while it plays:
/// how many bytes are on disk, whether the download has finished, and the
/// error that stopped it, if any. Readers wait on it; the download updates
/// it.
#[derive(Debug, Clone)]
pub struct StreamingCacheState {
    pub downloaded_bytes: u64,
    pub complete: bool,
    pub error: Option<String>,
}

/// What a reader waiting on a streaming download learns from the current
/// progress: it may go on with a value, must give up with an error, or has
/// to wait for the next change.
#[derive(Debug, Clone, PartialEq, Eq)]
pub enum WaitStep<T> {
    Done(T),
    Failed(String),
    Pending,
}

/// The error text of a progress record, as a sequence.
pub open spec fn error_view(e: Option<String>) -> Option<Seq<char>> {
    match e {
        Some(s) => Some(s@),
        None => None,
    }
}

impl StreamingCacheState {
    /// No bytes yet, not finished, no error.
    pub fn new() -> (s: Self)
        ensures
            s.downloaded_bytes == 0,
            !s.complete,
            s.error is None,
    {
        StreamingCacheState { downloaded_bytes: 0, complete: false, error: None }
    }

    pub fn downloaded_bytes(&self) -> (n: u64)
        ensures
            n == self.downloaded_bytes,
    {
        self.downloaded_bytes
    }

    pub fn is_complete(&self) -> (b: bool)
        ensures
            b == self.complete,
    {
        self.complete
    }

    /// Back to the state of a download that has not started.
    pub fn reset(&mut self)
        ensures
            final(self).downloaded_bytes == 0,
            !final(self).complete,
            final(self).error is None,
    {
        self.downloaded_bytes = 0;
        self.complete = false;
        self.error = None;
    }

    /// Records how many bytes are on disk now.
    pub fn mark_progress(&mut self, downloaded_bytes: u64)
        ensures
            final(self).downloaded_bytes == downloaded_bytes,
            final(self).complete == old(self).complete,
            error_view(final(self).error) == error_view(old(self).error),
    {
        self.downloaded_bytes = downloaded_bytes;
    }

    /// Records that the download finished with `downloaded_bytes` bytes; any
    /// earlier error is cleared.
    pub fn mark_complete(&mut self, downloaded_bytes: u64)
        ensures
            final(self).downloaded_bytes == downloaded_bytes,
            final(self).complete,
            final(self).error is None,
    {
        self.downloaded_bytes = downloaded_bytes;
        self.complete = true;
        self.error = None;
    }

    /// Records the error that stopped the download.
    pub fn mark_error(&mut self, error: String)
        ensures
            final(self).downloaded_bytes == old(self).downloaded_bytes,
            final(self).complete == old(self).complete,
            error_view(final(self).error) == Some(error@),
    {
        self.error = Some(error);
    }

    /// Whether a reader that needs `min_bytes` bytes on disk can go on: an
    /// error ends the wait first; then enough bytes, or a finished download,
    /// let it go on.
    pub fn wait_for_bytes(&self, min_bytes: u64) -> (step: WaitStep<()>)
        ensures
            match self.error {
                Some(e) => step matches WaitStep::Failed(f) && f@ == e@,
                None => if self.downloaded_bytes >= min_bytes || self.complete {
                    step == WaitStep::<()>::Done(())
                } else {
                    step == WaitStep::<()>::Pending
                },
            },
    {
        match &self.error {
            Some(e) => WaitStep::Failed(e.clone()),
            None => if self.downloaded_bytes >= min_bytes || self.complete {
                WaitStep::Done(())
            } else {
                WaitStep::Pending
            },
        }
    }

    /// What a reader at byte `position` can do: read up to the bytes on
    /// disk (`Done(Some(downloaded))`), stop at the end of a finished
    /// download (`Done(None)`), give up on an error, or wait.
    pub fn wait_for_readable_position(&self, position: u64) -> (step: WaitStep<Option<u64>>)
        ensures
            match self.error {
                Some(e) => step matches WaitStep::Failed(f) && f@ == e@,
                None => if position < self.downloaded_bytes {
                    step == WaitStep::Done(Some(self.downloaded_bytes))
                } else if self.complete {
                    step == WaitStep::<Option<u64>>::Done(None)
                } else {
                    step == WaitStep::<Option<u64>>::Pending
                },
            },
    {
        match &self.error {
            Some(e) => WaitStep::Failed(e.clone()),
            None => if position < self.downloaded_bytes {
                WaitStep::Done(Some(self.downloaded_bytes))
            } else if self.complete {
                WaitStep::Done(None)
            } else {
                WaitStep::Pending
            },
        }
    }

    /// Whether the download has ended: with its size once finished, or with
    /// its error.
    pub fn wait_until_complete(&self) -> (step: WaitStep<u64>)
        ensures
            match self.error {
                Some(e) => step matches WaitStep::Failed(f) && f@ == e@,
                None => if self.complete {
                    step == WaitStep::Done(self.downloaded_bytes)
                } else {
                    step == WaitStep::<u64>::Pending
                },
            },
    {
        match &self.error {
            Some(e) => WaitStep::Failed(e.clone()),
            None => if self.complete {
                WaitStep::Done(self.downloaded_bytes)
            } else {
                WaitStep::Pending
            },
        }
    }
}

impl Default for StreamingCacheState {
    fn default() -> (s: Self)
        ensures
            s.downloaded_bytes == 0,
            !s.complete,
            s.error is None,
    {
        StreamingCacheState::new()
    }
}

/// How many bytes a read at `position` may take: what is on disk past the
/// position, but no more than the buffer holds.
pub fn readable_len(downloaded_bytes: u64, position: u64, buffer_len: usize) -> (n: usize)
    requires
        position < downloaded_bytes,
    ensures
        n == (if downloaded_bytes - position < buffer_len {
            downloaded_bytes - position
        } else {
            buffer_len as int
        }),
{
    let available = downloaded_bytes - position;
    if available < buffer_len as u64 {
        available as usize
    } else {
        buffer_len
    }
}

/// `std::io::Error::new` of kind `InvalidInput` with the message
/// "Invalid seek position". Nothing is stated of the error value.
#[verifier::external_body]
fn invalid_seek_position() -> std::io::Error {
    std::io::Error::new(std::io::ErrorKind::InvalidInput, "Invalid seek position")
}

/// `base` moved by `offset`, or an invalid-input error where that would
/// leave the range of `u64`.
pub fn checked_seek_position(base: u64, offset: i64) -> (r: Result<u64, std::io::Error>)
    ensures
        r is Ok <==> 0 <= base + offset <= u64::MAX,
        r matches Ok(p) ==> p == base + offset,
{
    if offset >= 0 {
        let delta = offset as u64;
        if delta <= u64::MAX - base {
            Ok(base + delta)
        } else {
            Err(invalid_seek_position())
        }
    } else {
        let delta: u64 = if offset == i64::MIN {
            9223372036854775808u64
        } else {
            (-offset) as u64
        };
        if delta <= base {
            Ok(base - delta)
        } else {
            Err(invalid_seek_position())
        }
    }
}

} // verus!

verus! {

/// Where the audio of a queued track comes from.
#[derive(Debug)]
pub enum StreamSource {
    /// The complete cached entry.
    Cached(PathBuf),
    /// A fresh download into the cache: the entry's file, and the marker
    /// that flags it as incomplete while it is written.
    IntoCache { file_path: PathBuf, marker_path: PathBuf },
    /// A fresh download into a temporary file that the caller creates,
    /// with a `.part` marker beside it.
    IntoTemporaryFile,
}

impl CacheManager {
    /// Decides where the audio of the track at `key` comes from: a complete
    /// cache entry where caching is on and one exists, else a download into
    /// the cache, or into a temporary file where caching is off.
    pub fn stream_source(&self, key: &str, cache_enabled: bool, probe: EntryProbe) -> (s: StreamSource)
        ensures
            cache_enabled && entry_complete(probe) ==> s == StreamSource::Cached(
                path_joined(self.cache_dir, cache_name(key@)),
            ),
            cache_enabled && !entry_complete(probe) ==> s == (StreamSource::IntoCache {
                file_path: path_joined(self.cache_dir, cache_name(key@)),
                marker_path: path_joined(self.cache_dir, marker_name(key@)),
            }),
            !cache_enabled ==> s == StreamSource::IntoTemporaryFile,
    {
        if !cache_enabled {
            return StreamSource::IntoTemporaryFile;
        }
        match self.get(key, probe) {
            Some(path) => StreamSource::Cached(path),
            None => {
                let write = self.put(key);
                StreamSource::IntoCache { file_path: write.file_path, marker_path: write.marker_path }
            },
        }
    }
}

} // verus!

verus! {

proof fn lemma_stays_stopped(sizes: Seq<u64>, order: Seq<usize>, i: int, k: int, max: u64)
    requires
        0 <= i < k,
        evicts_at(sizes, order, i, max),
    ensures
        scan_state(sizes, order, k, max).1,
    decreases k - i,
{
    if k > i + 1 {
        lemma_stays_stopped(sizes, order, i, k - 1, max);
    }
}

/// Law: a cleanup evicts the least recently modified files: whatever the
/// sizes and the limit, no evicted file was modified more recently than a
/// file that is kept.
pub proof fn law_cleanup_evicts_oldest(
    modified: Seq<u64>,
    sizes: Seq<u64>,
    order: Seq<usize>,
    max: u64,
    i: int,
    j: int,
)
    requires
        is_age_order(modified, order),
        0 <= i < order.len(),
        0 <= j < order.len(),
        evicts_at(sizes, order, i, max),
        !evicts_at(sizes, order, j, max),
    ensures
        modified[order[j] as int] >= modified[order[i] as int],
{
    if j > i {
        lemma_stays_stopped(sizes, order, i, j, max);
    }
    assert(j != i);
    if j < i {
        assert(visited_before(modified, order[j] as int, order[i] as int));
    }
}

/// Law: whatever the sizes and the order they are visited in, a cleanup
/// never keeps more bytes than the limit.
pub proof fn law_cleanup_keeps_within_limit(sizes: Seq<u64>, order: Seq<usize>, k: int, max: u64)
    ensures
        0 <= kept_after(sizes, order, k, max) <= max,
    decreases k,
{
    if k > 0 {
        law_cleanup_keeps_within_limit(sizes, order, k - 1, max);
    }
}

} // verus!
