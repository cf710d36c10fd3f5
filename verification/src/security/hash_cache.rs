//! A file-reputation cache keyed by the SHA-256 of file contents, with a
//! secondary index from executable path to content hash.
//!
//! The cache itself never touches the disk: the caller reads the file, hands
//! its bytes to [`content_hash`] and passes the digest in; persisting the
//! entries is likewise left to the caller (see [`HashReputation::flush`]).
use vstd::prelude::*;
use crate::assoc::{
    akeys, assoc, lemma_assoc_at, lemma_assoc_empty, lemma_assoc_key, lemma_assoc_len,
    lemma_assoc_push, lemma_assoc_remove, lemma_assoc_update, unique_keys,
};
use crate::security::score::{factor, fspec, FactorSpec, RiskCategory, RiskFactor};
use crate::security::behavior::opt_factor_view;
use crate::security::signature::SignatureStatus;
use crate::text::{ascii_lower, ascii_lower_char, lower_ascii_char, lower_chars, starts, starts_with, str_eq, unicode_lower, views, push_char};

verus! {

broadcast use vstd::seq_lib::group_seq_properties;

/// Most entries the cache keeps; the oldest are evicted beyond it.
pub const MAX_ENTRIES: usize = 2000;

/// Only this many leading bytes of a file take part in its hash.
pub const MAX_HASH_BYTES: usize = 64 * 1024 * 1024;

// ---------------------------------------------------------------------------
// Content hashing
// ---------------------------------------------------------------------------
/// The SHA-256 digest of a byte sequence.
pub uninterp spec fn sha256(data: Seq<u8>) -> Seq<u8>;

/// Calls `sha2::Sha256::digest`.  Claims that the result is the SHA-256
/// digest of `data`, a function of the bytes alone, and that it is 32 bytes
/// long, the output size of SHA-256.
#[verifier::external_body]
fn sha256_digest(data: &[u8]) -> (d: Vec<u8>)
    ensures
        d@ == sha256(data@),
        d@.len() == 32,
{
    <sha2::Sha256 as sha2::Digest>::digest(data).to_vec()
}

/// The lower-case hexadecimal digit of a nibble.
pub open spec fn hex_digit(n: int) -> char {
    if n < 10 {
        (48 + n) as char
    } else {
        (87 + n) as char
    }
}

/// Two lower-case hexadecimal digits per byte, most significant first.
pub open spec fn hex_of(b: Seq<u8>) -> Seq<char>
    decreases b.len(),
{
    if b.len() == 0 {
        Seq::empty()
    } else {
        hex_of(b.drop_last()) + seq![hex_digit((b.last() / 16) as int), hex_digit((b.last() % 16) as int)]
    }
}

proof fn lemma_hex_len(b: Seq<u8>)
    ensures
        hex_of(b).len() == 2 * b.len(),
    decreases b.len(),
{
    if b.len() > 0 {
        lemma_hex_len(b.drop_last());
    }
}

fn hex_digit_exec(n: u8) -> (c: char)
    requires
        n < 16,
    ensures
        c == hex_digit(n as int),
{
    if n < 10 {
        (48 + n) as char
    } else {
        (87 + n) as char
    }
}

/// The lower-case hexadecimal text of `bytes`.
pub fn hex_string(bytes: &[u8]) -> (s: String)
    ensures
        s@ == hex_of(bytes@),
{
    let mut s = String::new();
    let mut i: usize = 0;
    while i < bytes.len()
        invariant
            i <= bytes.len(),
            s@ == hex_of(bytes@.take(i as int)),
        decreases bytes.len() - i,
    {
        let b = bytes[i];
        push_char(&mut s, hex_digit_exec(b / 16));
        push_char(&mut s, hex_digit_exec(b % 16));
        let ghost t = bytes@.take(i + 1);
        assert(t.drop_last() =~= bytes@.take(i as int));
        assert(t.last() == b);
        i += 1;
    }
    assert(bytes@.take(i as int) =~= bytes@);
    s
}

/// The bytes of a file that take part in its hash: at most the first
/// [`MAX_HASH_BYTES`].
pub open spec fn hash_input(data: Seq<u8>) -> Seq<u8> {
    if data.len() <= MAX_HASH_BYTES {
        data
    } else {
        data.take(MAX_HASH_BYTES as int)
    }
}

/// The content hash of a file with the given bytes: the lower-case hex text
/// of the SHA-256 of its first [`MAX_HASH_BYTES`] bytes.
pub fn content_hash(data: &[u8]) -> (h: String)
    ensures
        h@ == hex_of(sha256(hash_input(data@))),
        h@.len() == 64,
{
    let n: usize = if data.len() <= MAX_HASH_BYTES { data.len() } else { MAX_HASH_BYTES };
    let part = &data[0..n];
    assert(part@ =~= hash_input(data@));
    let d = sha256_digest(part);
    proof {
        lemma_hex_len(d@);
    }
    hex_string(d.as_slice())
}

// ---------------------------------------------------------------------------
// Entries
// ---------------------------------------------------------------------------
/// A cached verdict on one file content.
#[derive(Debug, Clone)]
pub struct HashEntry {
    pub sig_status: Option<SignatureStatus>,
    pub first_seen_epoch: u64,
    /// Hex SHA-256 of the content.
    pub content_hash: String,
    /// Paths seen with this content.
    pub paths: Vec<String>,
}

/// The mathematical value of a [`HashEntry`] (its key aside).
pub ghost struct EntryView {
    pub sig: Option<SignatureStatus>,
    pub first_seen: u64,
    pub paths: Seq<Seq<char>>,
}

impl View for HashEntry {
    type V = EntryView;

    open spec fn view(&self) -> EntryView {
        EntryView { sig: self.sig_status, first_seen: self.first_seen_epoch, paths: views(self.paths@) }
    }
}

/// The cache seen as two maps: content hash to entry, and path to content
/// hash; plus whether it changed since the last flush.
pub ghost struct RepView {
    pub verified: Map<Seq<char>, EntryView>,
    pub index: Map<Seq<char>, Seq<char>>,
    pub dirty: bool,
}

pub open spec fn entry_pairs(s: Seq<HashEntry>) -> Seq<(Seq<char>, EntryView)> {
    s.map_values(|e: HashEntry| (e.content_hash@, e@))
}

pub open spec fn index_pairs(s: Seq<(String, String)>) -> Seq<(Seq<char>, Seq<char>)> {
    s.map_values(|p: (String, String)| (p.0@, p.1@))
}

/// The content-hash cache.
pub struct HashReputation {
    verified: Vec<HashEntry>,
    path_index: Vec<(String, String)>,
    dirty: bool,
}

impl View for HashReputation {
    type V = RepView;

    closed spec fn view(&self) -> RepView {
        RepView {
            verified: assoc(entry_pairs(self.verified@)),
            index: assoc(index_pairs(self.path_index@)),
            dirty: self.dirty,
        }
    }
}

/// Whether a path lies in one of the system directories that are never
/// examined.
pub open spec fn is_system_path_spec(exe: Seq<char>) -> bool {
    let l = unicode_lower(exe);
    starts_with(l, "c:\\windows\\system32\\"@) || starts_with(l, "c:\\windows\\syswow64\\"@)
        || starts_with(l, "c:\\windows\\winsxs\\"@)
}

pub open spec fn known_unsigned_factor() -> FactorSpec {
    fspec(RiskCategory::Signature, "hash_known_unsigned"@, 15, "已知无签名程序"@)
}

/// What [`HashReputation::check_hash`] reports for `exe`.
pub open spec fn hash_check(v: RepView, exe: Seq<char>) -> Option<FactorSpec> {
    if !is_system_path_spec(exe) && v.index.contains_key(exe) && v.verified.contains_key(v.index[exe])
        && v.verified[v.index[exe]].sig == Some(SignatureStatus::Unsigned) {
        Some(known_unsigned_factor())
    } else {
        None
    }
}

/// Two paths are equal up to ASCII case.
pub open spec fn same_path(a: Seq<char>, b: Seq<char>) -> bool {
    ascii_lower(a) == ascii_lower(b)
}

/// Some path of `paths` equals `exe` up to ASCII case.
pub open spec fn has_path(paths: Seq<Seq<char>>, exe: Seq<char>) -> bool {
    exists|i: int| 0 <= i < paths.len() && same_path(#[trigger] paths[i], exe)
}

/// The cache after noting that `exe` has content `h` with verdict `sig`,
/// before any eviction.
pub open spec fn inserted(v: RepView, exe: Seq<char>, sig: SignatureStatus, h: Seq<char>, now: u64) -> RepView {
    let verified = if v.verified.contains_key(h) {
        let e = v.verified[h];
        let paths = if has_path(e.paths, exe) { e.paths } else { e.paths.push(exe) };
        v.verified.insert(h, EntryView { sig: Some(sig), first_seen: e.first_seen, paths })
    } else {
        v.verified.insert(h, EntryView { sig: Some(sig), first_seen: now, paths: seq![exe] })
    };
    RepView { verified, index: v.index.insert(exe, h), dirty: true }
}

/// The paths listed by the entries that `post` no longer holds.
pub open spec fn evicted_paths(mid: RepView, post: RepView) -> Set<Seq<char>> {
    Set::new(
        |p: Seq<char>|
            exists|k: Seq<char>|
                mid.verified.contains_key(k) && !post.verified.contains_key(k) && #[trigger] mid.verified[k].paths.contains(p),
    )
}

/// `post` is `mid` with its oldest entries evicted down to [`MAX_ENTRIES`]:
/// it keeps a part of the entries unchanged, as many as the limit allows,
/// no evicted entry is younger than a kept one, and the paths that an
/// evicted entry lists leave the index.  Which of two entries of the same
/// age goes is left open.
pub open spec fn evicted(mid: RepView, post: RepView) -> bool {
    &&& post.dirty == mid.dirty
    &&& post.verified.submap_of(mid.verified)
    &&& post.verified.dom().len() == if mid.verified.dom().len() > MAX_ENTRIES {
        MAX_ENTRIES as nat
    } else {
        mid.verified.dom().len()
    }
    &&& forall|a: Seq<char>, b: Seq<char>|
        mid.verified.contains_key(a) && !post.verified.contains_key(a) && #[trigger] post.verified.contains_key(b)
            ==> #[trigger] mid.verified[a].first_seen <= mid.verified[b].first_seen
    &&& post.index == mid.index.remove_keys(evicted_paths(mid, post))
}

/// What [`HashReputation::record`] does: nothing without a content hash,
/// otherwise the insertion followed by the eviction.
pub open spec fn recorded(pre: RepView, post: RepView, exe: Seq<char>, sig: SignatureStatus, hash: Option<Seq<char>>, now: u64) -> bool {
    match hash {
        None => post == pre,
        Some(h) => evicted(inserted(pre, exe, sig, h, now), post),
    }
}

/// The cache after `exe`'s link to content `old_hash` is dropped.
pub open spec fn invalidated(v: RepView, exe: Seq<char>, old_hash: Seq<char>) -> RepView {
    let verified = if v.verified.contains_key(old_hash) {
        let e = v.verified[old_hash];
        let kept = without_path(e.paths, exe);
        if kept.len() == 0 {
            v.verified.remove(old_hash)
        } else {
            v.verified.insert(old_hash, EntryView { sig: e.sig, first_seen: e.first_seen, paths: kept })
        }
    } else {
        v.verified
    };
    RepView { verified, index: v.index.remove(exe), dirty: true }
}

/// The verdict [`HashReputation::get_cached_sig`] returns.
pub open spec fn cached_sig(v: RepView, exe: Seq<char>, current: Option<Seq<char>>) -> Option<SignatureStatus> {
    match current {
        Some(h) => if v.index.contains_key(exe) && v.index[exe] == h && v.verified.contains_key(h) {
            v.verified[h].sig
        } else {
            None
        },
        None => None,
    }
}

/// The cache after [`HashReputation::get_cached_sig`].
pub open spec fn after_cached_sig(v: RepView, exe: Seq<char>, current: Option<Seq<char>>) -> RepView {
    match current {
        Some(h) => if v.index.contains_key(exe) && v.index[exe] != h {
            invalidated(v, exe, v.index[exe])
        } else {
            v
        },
        None => v,
    }
}

/// The characters of an optional string.
pub open spec fn opt_chars(o: Option<&str>) -> Option<Seq<char>> {
    match o {
        Some(t) => Some(t@),
        None => None,
    }
}

/// `paths` without those equal to `exe` up to ASCII case.
pub open spec fn without_path(paths: Seq<Seq<char>>, exe: Seq<char>) -> Seq<Seq<char>>
    decreases paths.len(),
{
    if paths.len() == 0 {
        paths
    } else {
        let r = without_path(paths.drop_last(), exe);
        if same_path(paths.last(), exe) {
            r
        } else {
            r.push(paths.last())
        }
    }
}

/// `index` with every path of `paths` pointing at `h`.
pub open spec fn index_with(index: Map<Seq<char>, Seq<char>>, paths: Seq<Seq<char>>, h: Seq<char>) -> Map<Seq<char>, Seq<char>>
    decreases paths.len(),
{
    if paths.len() == 0 {
        index
    } else {
        index_with(index, paths.drop_last(), h).insert(paths.last(), h)
    }
}

/// The cache rebuilt from saved entries, one after the other: each entry is
/// stored under its content hash (a later one replaces an earlier one with
/// the same hash) and each of its paths is indexed to that hash.
pub open spec fn loaded(s: Seq<HashEntry>) -> RepView
    decreases s.len(),
{
    if s.len() == 0 {
        RepView { verified: Map::empty(), index: Map::empty(), dirty: false }
    } else {
        let r = loaded(s.drop_last());
        let e = s.last();
        RepView {
            verified: r.verified.insert(e.content_hash@, e@),
            index: index_with(r.index, e@.paths, e.content_hash@),
            dirty: false,
        }
    }
}

/// Whether `exe` lies in a system directory.
pub fn is_system_path(exe_path: &str) -> (b: bool)
    ensures
        b == is_system_path_spec(exe_path@),
{
    let l = lower_chars(exe_path);
    starts(&l, "c:\\windows\\system32\\") || starts(&l, "c:\\windows\\syswow64\\") || starts(&l, "c:\\windows\\winsxs\\")
}

/// Whether two paths are equal up to ASCII case.
pub fn same_path_exec(a: &str, b: &str) -> (r: bool)
    ensures
        r == same_path(a@, b@),
{
    let ghost la = ascii_lower(a@);
    let ghost lb = ascii_lower(b@);
    let av = crate::text::chars_of(a);
    let bv = crate::text::chars_of(b);
    if av.len() != bv.len() {
        assert(la.len() != lb.len());
        return false;
    }
    let mut i: usize = 0;
    while i < av.len()
        invariant
            av@ == a@,
            bv@ == b@,
            av.len() == bv.len(),
            la == ascii_lower(a@),
            lb == ascii_lower(b@),
            i <= av.len(),
            forall|j: int| 0 <= j < i ==> ascii_lower_char(av@[j]) == ascii_lower_char(bv@[j]),
        decreases av.len() - i,
    {
        if lower_ascii_char(av[i]) != lower_ascii_char(bv[i]) {
            assert(la[i as int] != lb[i as int]);
            return false;
        }
        i += 1;
    }
    assert(la =~= lb);
    true
}

fn find_entry(v: &Vec<HashEntry>, h: &str) -> (r: Option<usize>)
    ensures
        match r {
            Some(i) => i < v.len() && v@[i as int].content_hash@ == h@,
            None => !akeys(entry_pairs(v@)).contains(h@),
        },
{
    let mut i: usize = 0;
    while i < v.len()
        invariant
            i <= v.len(),
            forall|j: int| 0 <= j < i ==> v@[j].content_hash@ != h@,
        decreases v.len() - i,
    {
        if str_eq(v[i].content_hash.as_str(), h) {
            return Some(i);
        }
        i += 1;
    }
    assert forall|j: int| 0 <= j < v.len() implies akeys(entry_pairs(v@))[j] != h@ by {
        assert(akeys(entry_pairs(v@))[j] == v@[j].content_hash@);
    }
    None
}

fn find_path(v: &Vec<(String, String)>, p: &str) -> (r: Option<usize>)
    ensures
        match r {
            Some(i) => i < v.len() && v@[i as int].0@ == p@,
            None => !akeys(index_pairs(v@)).contains(p@),
        },
{
    let mut i: usize = 0;
    while i < v.len()
        invariant
            i <= v.len(),
            forall|j: int| 0 <= j < i ==> v@[j].0@ != p@,
        decreases v.len() - i,
    {
        if str_eq(v[i].0.as_str(), p) {
            return Some(i);
        }
        i += 1;
    }
    assert forall|j: int| 0 <= j < v.len() implies akeys(index_pairs(v@))[j] != p@ by {
        assert(akeys(index_pairs(v@))[j] == v@[j].0@);
    }
    None
}

fn index_insert(v: &mut Vec<(String, String)>, p: &str, h: &str)
    requires
        unique_keys(index_pairs(old(v)@)),
    ensures
        unique_keys(index_pairs(final(v)@)),
        assoc(index_pairs(final(v)@)) == assoc(index_pairs(old(v)@)).insert(p@, h@),
{
    let ghost s0 = index_pairs(v@);
    match find_path(v, p) {
        Some(i) => {
            v.set(i, (String::from_str(p), String::from_str(h)));
            proof {
                assert(s0[i as int].0 == p@);
                assert(index_pairs(v@) =~= s0.update(i as int, (s0[i as int].0, h@)));
                lemma_assoc_update(s0, i as int, h@);
            }
        },
        None => {
            v.push((String::from_str(p), String::from_str(h)));
            proof {
                assert(index_pairs(v@) =~= s0.push((p@, h@)));
                lemma_assoc_push(s0, p@, h@);
            }
        },
    }
}

fn index_remove(v: &mut Vec<(String, String)>, p: &str)
    requires
        unique_keys(index_pairs(old(v)@)),
    ensures
        unique_keys(index_pairs(final(v)@)),
        assoc(index_pairs(final(v)@)) == assoc(index_pairs(old(v)@)).remove(p@),
{
    let ghost s0 = index_pairs(v@);
    match find_path(v, p) {
        Some(i) => {
            v.remove(i);
            proof {
                assert(index_pairs(v@) =~= s0.remove(i as int));
                lemma_assoc_remove(s0, i as int);
            }
        },
        None => {
            assert(assoc(s0).remove(p@) =~= assoc(s0));
        },
    }
}

/// Whether some path of `paths` equals `exe` up to ASCII case.
fn paths_have(paths: &Vec<String>, exe: &str) -> (b: bool)
    ensures
        b == has_path(views(paths@), exe@),
{
    let mut i: usize = 0;
    while i < paths.len()
        invariant
            i <= paths.len(),
            forall|j: int| 0 <= j < i ==> !same_path(#[trigger] views(paths@)[j], exe@),
        decreases paths.len() - i,
    {
        if same_path_exec(paths[i].as_str(), exe) {
            assert(views(paths@)[i as int] == paths@[i as int]@);
            return true;
        }
        i += 1;
    }
    false
}

/// `paths` without those equal to `exe` up to ASCII case.
fn paths_without(paths: &Vec<String>, exe: &str) -> (r: Vec<String>)
    ensures
        views(r@) == without_path(views(paths@), exe@),
{
    let mut r: Vec<String> = Vec::new();
    let mut i: usize = 0;
    while i < paths.len()
        invariant
            i <= paths.len(),
            views(r@) == without_path(views(paths@).take(i as int), exe@),
        decreases paths.len() - i,
    {
        let ghost t = views(paths@).take(i + 1);
        assert(t.drop_last() =~= views(paths@).take(i as int));
        assert(t.last() == paths@[i as int]@);
        if !same_path_exec(paths[i].as_str(), exe) {
            r.push(String::from_str(paths[i].as_str()));
            assert(views(r@) =~= without_path(views(paths@).take(i as int), exe@).push(paths@[i as int]@));
        }
        i += 1;
    }
    assert(views(paths@).take(i as int) =~= views(paths@));
    r
}

/// The position of an entry with the smallest `first_seen_epoch` (the first
/// such position).
fn oldest_entry(v: &Vec<HashEntry>) -> (m: usize)
    requires
        v.len() > 0,
    ensures
        m < v.len(),
        forall|j: int| 0 <= j < v.len() ==> v@[m as int].first_seen_epoch <= #[trigger] v@[j].first_seen_epoch,
{
    let mut m: usize = 0;
    let mut i: usize = 1;
    while i < v.len()
        invariant
            0 < v.len(),
            m < i <= v.len(),
            forall|j: int| 0 <= j < i ==> v@[m as int].first_seen_epoch <= #[trigger] v@[j].first_seen_epoch,
        decreases v.len() - i,
    {
        if v[i].first_seen_epoch < v[m].first_seen_epoch {
            m = i;
        }
        i += 1;
    }
    m
}

/// A copy of an entry.
fn copy_entry(e: &HashEntry) -> (r: HashEntry)
    ensures
        r@ == e@,
        r.content_hash@ == e.content_hash@,
{
    let mut paths: Vec<String> = Vec::new();
    let mut i: usize = 0;
    while i < e.paths.len()
        invariant
            i <= e.paths.len(),
            paths.len() == i,
            views(paths@) == views(e.paths@).take(i as int),
        decreases e.paths.len() - i,
    {
        let ghost before = paths@;
        paths.push(String::from_str(e.paths[i].as_str()));
        assert(paths@ == before.push(paths@[i as int]));
        assert(views(paths@) =~= views(before).push(e.paths@[i as int]@));
        assert(views(e.paths@).take(i + 1) =~= views(e.paths@).take(i as int).push(e.paths@[i as int]@));
        i += 1;
    }
    assert(views(e.paths@).take(i as int) =~= views(e.paths@));
    HashEntry {
        sig_status: e.sig_status,
        first_seen_epoch: e.first_seen_epoch,
        content_hash: String::from_str(e.content_hash.as_str()),
        paths,
    }
}

impl HashReputation {
    /// The representation invariant: no content hash and no path occurs twice.
    pub closed spec fn wf(&self) -> bool {
        unique_keys(entry_pairs(self.verified@)) && unique_keys(index_pairs(self.path_index@))
    }

    /// An empty cache.
    pub fn new() -> (r: HashReputation)
        ensures
            r.wf(),
            r@.verified == Map::<Seq<char>, EntryView>::empty(),
            r@.index == Map::<Seq<char>, Seq<char>>::empty(),
            !r@.dirty,
    {
        let r = HashReputation { verified: Vec::new(), path_index: Vec::new(), dirty: false };
        proof {
            assert(entry_pairs(r.verified@) =~= Seq::empty());
            assert(index_pairs(r.path_index@) =~= Seq::empty());
            lemma_assoc_empty::<Seq<char>, EntryView>();
            lemma_assoc_empty::<Seq<char>, Seq<char>>();
        }
        r
    }

    /// Whether `exe_path` is whitelisted, that is, lies in a system directory.
    pub fn is_whitelisted(exe_path: &str) -> (b: bool)
        ensures
            b == is_system_path_spec(exe_path@),
    {
        is_system_path(exe_path)
    }

    fn note_content(&mut self, exe_path: &str, sig_status: SignatureStatus, h: &str, now: u64)
        requires
            old(self).wf(),
        ensures
            final(self).wf(),
            final(self)@ == inserted(old(self)@, exe_path@, sig_status, h@, now),
    {
        let ghost pre = self@;
        let ghost s0 = entry_pairs(self.verified@);
        match find_entry(&self.verified, h) {
            Some(i) => {
                proof {
                    lemma_assoc_at(s0, i as int);
                }
                let mut e = self.verified.remove(i);
                let ghost old_paths = e@.paths;
                if !paths_have(&e.paths, exe_path) {
                    e.paths.push(String::from_str(exe_path));
                    assert(views(e.paths@) =~= old_paths.push(exe_path@));
                }
                e.sig_status = Some(sig_status);
                let ghost ev = e@;
                self.verified.insert(i, e);
                proof {
                    assert(entry_pairs(self.verified@) =~= s0.update(i as int, (s0[i as int].0, ev)));
                    lemma_assoc_update(s0, i as int, ev);
                    assert(assoc(entry_pairs(self.verified@)) =~= inserted(pre, exe_path@, sig_status, h@, now).verified);
                }
            },
            None => {
                let e = HashEntry {
                    sig_status: Some(sig_status),
                    first_seen_epoch: now,
                    content_hash: String::from_str(h),
                    paths: vec![String::from_str(exe_path)],
                };
                assert(views(e.paths@) =~= seq![exe_path@]);
                let ghost ev = e@;
                self.verified.push(e);
                proof {
                    assert(entry_pairs(self.verified@) =~= s0.push((h@, ev)));
                    lemma_assoc_push(s0, h@, ev);
                }
            },
        }
        index_insert(&mut self.path_index, exe_path, h);
        self.dirty = true;
    }

    fn evict_oldest(&mut self)
        requires
            old(self).wf(),
        ensures
            final(self).wf(),
            evicted(old(self)@, final(self)@),
    {
        let ghost mid = self@;
        proof {
            lemma_assoc_len(entry_pairs(self.verified@));
            assert(mid.index.remove_keys(evicted_paths(mid, self@)) =~= mid.index);
        }
        while self.verified.len() > MAX_ENTRIES
            invariant
                self.wf(),
                self@.dirty == mid.dirty,
                self@.verified.submap_of(mid.verified),
                self@.verified.dom().len() == self.verified.len(),
                mid.verified.dom().len() > MAX_ENTRIES ==> self.verified.len() >= MAX_ENTRIES,
                mid.verified.dom().len() <= MAX_ENTRIES ==> self.verified.len() == mid.verified.dom().len(),
                forall|a: Seq<char>, b: Seq<char>|
                    mid.verified.contains_key(a) && !self@.verified.contains_key(a) && #[trigger] self@.verified.contains_key(b)
                        ==> #[trigger] mid.verified[a].first_seen <= mid.verified[b].first_seen,
                self@.index == mid.index.remove_keys(evicted_paths(mid, self@)),
            decreases self.verified.len(),
        {
            let m = oldest_entry(&self.verified);
            let ghost before = self@;
            let ghost v0 = self.verified@;
            let ghost s0 = entry_pairs(v0);
            proof {
                lemma_assoc_at(s0, m as int);
            }
            let e = self.verified.remove(m);
            let ghost km = e.content_hash@;
            proof {
                assert(entry_pairs(self.verified@) =~= s0.remove(m as int));
                lemma_assoc_remove(s0, m as int);
                lemma_assoc_len(entry_pairs(self.verified@));
            }
            let ghost idx0 = self@.index;
            let ghost vrest = self.verified@;
            let mut j: usize = 0;
            while j < e.paths.len()
                invariant
                    j <= e.paths.len(),
                    self.verified@ == vrest,
                    self.dirty == before.dirty,
                    unique_keys(index_pairs(self.path_index@)),
                    assoc(index_pairs(self.path_index@)) == idx0.remove_keys(views(e.paths@).take(j as int).to_set()),
                decreases e.paths.len() - j,
            {
                let ghost cur = assoc(index_pairs(self.path_index@));
                index_remove(&mut self.path_index, e.paths[j].as_str());
                proof {
                    let t = views(e.paths@).take(j + 1);
                    assert(t.to_set() =~= views(e.paths@).take(j as int).to_set().insert(e.paths@[j as int]@)) by {
                        assert(t =~= views(e.paths@).take(j as int).push(e.paths@[j as int]@));
                    }
                    assert(assoc(index_pairs(self.path_index@)) =~= idx0.remove_keys(t.to_set()));
                }
                j += 1;
            }
            proof {
                assert(views(e.paths@).take(j as int) =~= views(e.paths@));
                let pset = views(e.paths@).to_set();
                assert(s0[m as int] == (km, e@));
                assert(before.verified.contains_key(km));
                assert(before.verified[km] == e@);
                assert forall|k: Seq<char>| #[trigger] before.verified.contains_key(k)
                    implies mid.verified.contains_key(k) && mid.verified[k] == before.verified[k] by {
                    assert(mid.verified.dom().contains(k) || !mid.verified.dom().contains(k));
                }
                assert(mid.verified[km] == e@);
                assert(self@.verified == before.verified.remove(km));
                assert forall|p: Seq<char>| #[trigger] evicted_paths(mid, self@).contains(p)
                    == (evicted_paths(mid, before).contains(p) || pset.contains(p)) by {
                    if evicted_paths(mid, self@).contains(p) {
                        let k = choose|k: Seq<char>|
                            mid.verified.contains_key(k) && !self@.verified.contains_key(k) && #[trigger] mid.verified[k].paths.contains(p);
                        if k != km {
                            assert(!before.verified.contains_key(k));
                        }
                    }
                    if evicted_paths(mid, before).contains(p) {
                        let k = choose|k: Seq<char>|
                            mid.verified.contains_key(k) && !before.verified.contains_key(k) && #[trigger] mid.verified[k].paths.contains(p);
                        assert(!self@.verified.contains_key(k));
                    }
                    if pset.contains(p) {
                        assert(mid.verified[km].paths.contains(p));
                        assert(!self@.verified.contains_key(km));
                    }
                }
                assert(self@.index =~= mid.index.remove_keys(evicted_paths(mid, self@)));
                assert forall|a: Seq<char>, b: Seq<char>|
                    mid.verified.contains_key(a) && !self@.verified.contains_key(a) && #[trigger] self@.verified.contains_key(b)
                        implies #[trigger] mid.verified[a].first_seen <= mid.verified[b].first_seen by {
                    assert(before.verified.contains_key(b));
                    if a == km {
                        let jb = lemma_assoc_key(s0, b);
                        lemma_assoc_at(s0, jb);
                        assert(v0[jb].first_seen_epoch >= v0[m as int].first_seen_epoch);
                        assert(mid.verified[b] == v0[jb]@);
                    } else {
                        assert(!before.verified.contains_key(a));
                    }
                }
            }
        }
    }

    /// Notes that `exe_path` has contents with hash `content_hash` and verdict
    /// `sig_status`, then evicts the oldest entries beyond [`MAX_ENTRIES`].
    /// Without a hash (the file could not be read) nothing changes.
    pub fn record(&mut self, exe_path: &str, sig_status: SignatureStatus, content_hash: Option<&str>, now: u64)
        requires
            old(self).wf(),
        ensures
            final(self).wf(),
            recorded(old(self)@, final(self)@, exe_path@, sig_status, opt_chars(content_hash), now),
    {
        let h = match content_hash {
            Some(h) => h,
            None => return,
        };
        self.note_content(exe_path, sig_status, h, now);
        self.evict_oldest();
    }

    fn invalidate_path(&mut self, exe_path: &str, old_hash: &str)
        requires
            old(self).wf(),
        ensures
            final(self).wf(),
            final(self)@ == invalidated(old(self)@, exe_path@, old_hash@),
    {
        let ghost pre = self@;
        let ghost s0 = entry_pairs(self.verified@);
        match find_entry(&self.verified, old_hash) {
            Some(i) => {
                proof {
                    lemma_assoc_at(s0, i as int);
                }
                let mut e = self.verified.remove(i);
                proof {
                    assert(entry_pairs(self.verified@) =~= s0.remove(i as int));
                    lemma_assoc_remove(s0, i as int);
                }
                let kept = paths_without(&e.paths, exe_path);
                if kept.len() == 0 {
                    assert(assoc(entry_pairs(self.verified@)) == invalidated(pre, exe_path@, old_hash@).verified);
                } else {
                    e.paths = kept;
                    let ghost ev = e@;
                    self.verified.insert(i, e);
                    proof {
                        assert(entry_pairs(self.verified@) =~= s0.update(i as int, (s0[i as int].0, ev)));
                        lemma_assoc_update(s0, i as int, ev);
                    }
                }
            },
            None => {},
        }
        index_remove(&mut self.path_index, exe_path);
        self.dirty = true;
    }

    /// The cached verdict for `exe_path` when its current content hash
    /// `current_hash` is still the one recorded for it.  When the content
    /// changed, the path's link to the old content is dropped and `None`
    /// returned; without a current hash (the file could not be read), or for
    /// a path never recorded, nothing changes and `None` is returned.
    pub fn get_cached_sig(&mut self, exe_path: &str, current_hash: Option<&str>) -> (r: Option<SignatureStatus>)
        requires
            old(self).wf(),
        ensures
            final(self).wf(),
            r == cached_sig(old(self)@, exe_path@, opt_chars(current_hash)),
            final(self)@ == after_cached_sig(old(self)@, exe_path@, opt_chars(current_hash)),
    {
        let pi = match find_path(&self.path_index, exe_path) {
            Some(i) => i,
            None => return None,
        };
        proof {
            lemma_assoc_at(index_pairs(self.path_index@), pi as int);
        }
        let cur = match current_hash {
            Some(h) => h,
            None => return None,
        };
        if !str_eq(cur, self.path_index[pi].1.as_str()) {
            let old_hash = String::from_str(self.path_index[pi].1.as_str());
            self.invalidate_path(exe_path, old_hash.as_str());
            return None;
        }
        match find_entry(&self.verified, cur) {
            Some(i) => {
                proof {
                    lemma_assoc_at(entry_pairs(self.verified@), i as int);
                }
                self.verified[i].sig_status
            },
            None => None,
        }
    }

    /// Clears the changed flag and says whether the entries should be saved.
    pub fn flush(&mut self) -> (save: bool)
        requires
            old(self).wf(),
        ensures
            final(self).wf(),
            save == old(self)@.dirty,
            final(self)@ == (RepView { dirty: false, ..old(self)@ }),
    {
        let save = self.dirty;
        self.dirty = false;
        save
    }

    /// The entries, to be saved.
    pub fn entries(&self) -> (r: &Vec<HashEntry>)
        ensures
            assoc(entry_pairs(r@)) == self@.verified,
    {
        &self.verified
    }

    /// The cache rebuilt from saved entries.
    pub fn from_entries(entries: &[HashEntry]) -> (r: HashReputation)
        ensures
            r.wf(),
            r@ == loaded(entries@),
    {
        let mut r = HashReputation::new();
        let ghost all = entries@;
        let mut n: usize = 0;
        while n < entries.len()
            invariant
                r.wf(),
                n <= all.len(),
                all == entries@,
                r@ == loaded(all.take(n as int)),
            decreases entries.len() - n,
        {
            let ghost before = r@;
            let e = copy_entry(&entries[n]);
            let ghost s0 = entry_pairs(r.verified@);
            let ghost ev = e@;
            let ghost key = e.content_hash@;
            let ghost vv = r.verified@;
            let mut j: usize = 0;
            while j < e.paths.len()
                invariant
                    j <= e.paths.len(),
                    unique_keys(index_pairs(r.path_index@)),
                    r.verified@ == vv,
                    r.dirty == before.dirty,
                    key == e.content_hash@,
                    assoc(index_pairs(r.path_index@)) == index_with(before.index, views(e.paths@).take(j as int), key),
                decreases e.paths.len() - j,
            {
                index_insert(&mut r.path_index, e.paths[j].as_str(), e.content_hash.as_str());
                proof {
                    let t = views(e.paths@).take(j + 1);
                    assert(t.drop_last() =~= views(e.paths@).take(j as int));
                    assert(t.last() == e.paths@[j as int]@);
                    assert(key == e.content_hash@);
                }
                j += 1;
            }
            assert(views(e.paths@).take(j as int) =~= views(e.paths@));
            match find_entry(&r.verified, e.content_hash.as_str()) {
                Some(i) => {
                    r.verified.set(i, e);
                    proof {
                        assert(s0[i as int].0 == key);
                        assert(entry_pairs(r.verified@) =~= s0.update(i as int, (s0[i as int].0, ev)));
                        lemma_assoc_update(s0, i as int, ev);
                    }
                },
                None => {
                    r.verified.push(e);
                    proof {
                        assert(entry_pairs(r.verified@) =~= s0.push((key, ev)));
                        lemma_assoc_push(s0, key, ev);
                    }
                },
            }
            proof {
                let t = all.take(n + 1);
                assert(t.drop_last() =~= all.take(n as int));
                assert(t.last() == all[n as int]);
            }
            n += 1;
        }
        assert(all.take(n as int) =~= all);
        r
    }

    /// A risk factor when the content last recorded for `exe_path` is known
    /// to be unsigned.  Paths in system directories are never reported.
    pub fn check_hash(&mut self, exe_path: &str) -> (r: Option<RiskFactor>)
        requires
            old(self).wf(),
        ensures
            *final(self) == *old(self),
            opt_factor_view(r) == hash_check(old(self)@, exe_path@),
    {
        if is_system_path(exe_path) {
            return None;
        }
        let pi = match find_path(&self.path_index, exe_path) {
            Some(i) => i,
            None => {
                proof {
                    assert(!self@.index.contains_key(exe_path@));
                }
                return None;
            },
        };
        proof {
            lemma_assoc_at(index_pairs(self.path_index@), pi as int);
        }
        let ei = match find_entry(&self.verified, self.path_index[pi].1.as_str()) {
            Some(i) => i,
            None => {
                proof {
                    assert(!self@.verified.contains_key(self@.index[exe_path@]));
                }
                return None;
            },
        };
        proof {
            lemma_assoc_at(entry_pairs(self.verified@), ei as int);
        }
        match self.verified[ei].sig_status {
            Some(SignatureStatus::Unsigned) => Some(factor(RiskCategory::Signature, "hash_known_unsigned", 15, "已知无签名程序")),
            _ => None,
        }
    }
}


// ---------------------------------------------------------------------------
// Laws
// ---------------------------------------------------------------------------
/// While the cache has room, a verdict recorded for a path is given back by
/// the lookup of that path with the same content hash.
pub proof fn law_recorded_verdict_read_back(
    pre: RepView,
    post: RepView,
    exe: Seq<char>,
    sig: SignatureStatus,
    h: Seq<char>,
    now: u64,
)
    requires
        pre.verified.dom().finite(),
        pre.verified.dom().len() < MAX_ENTRIES,
        recorded(pre, post, exe, sig, Some(h), now),
    ensures
        post.index.contains_key(exe),
        post.index[exe] == h,
        cached_sig(post, exe, Some(h)) == Some(sig),
{
    let mid = inserted(pre, exe, sig, h, now);
    assert(mid.verified.dom() == pre.verified.dom().insert(h));
    assert(mid.verified.dom().len() <= MAX_ENTRIES);
    vstd::set_lib::lemma_len_subset(post.verified.dom(), mid.verified.dom());
    if !post.verified.contains_key(h) {
        vstd::set_lib::lemma_len_subset(post.verified.dom(), mid.verified.dom().remove(h));
        assert(false);
    }
    assert(evicted_paths(mid, post) =~= Set::<Seq<char>>::empty()) by {
        assert forall|p: Seq<char>| !#[trigger] evicted_paths(mid, post).contains(p) by {
            if evicted_paths(mid, post).contains(p) {
                let k = choose|k: Seq<char>|
                    mid.verified.contains_key(k) && !post.verified.contains_key(k) && #[trigger] mid.verified[k].paths.contains(p);
                vstd::set_lib::lemma_len_subset(post.verified.dom(), mid.verified.dom().remove(k));
            }
        }
    }
    assert(post.index =~= mid.index);
    assert(mid.verified.dom().contains(h));
    assert(post.verified.dom().contains(h));
    assert(post.verified[h] == mid.verified[h]);
}

/// Recording never leaves more than [`MAX_ENTRIES`] entries in a cache that
/// held at most that many.
pub proof fn law_record_bounded(
    pre: RepView,
    post: RepView,
    exe: Seq<char>,
    sig: SignatureStatus,
    hash: Option<Seq<char>>,
    now: u64,
)
    requires
        pre.verified.dom().finite(),
        pre.verified.dom().len() <= MAX_ENTRIES,
        recorded(pre, post, exe, sig, hash, now),
    ensures
        post.verified.dom().len() <= MAX_ENTRIES,
{
}

/// A lookup with a content hash other than the recorded one answers `None`,
/// and afterwards the path is no longer indexed.
pub proof fn law_changed_content_forgotten(v: RepView, exe: Seq<char>, h: Seq<char>)
    requires
        v.index.contains_key(exe),
        v.index[exe] != h,
    ensures
        cached_sig(v, exe, Some(h)) == None::<SignatureStatus>,
        !after_cached_sig(v, exe, Some(h)).index.contains_key(exe),
        cached_sig(after_cached_sig(v, exe, Some(h)), exe, Some(v.index[exe])) == None::<SignatureStatus>,
{
}

} // verus!
