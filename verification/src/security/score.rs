//! Risk factors, security scores and the score cache.
use vstd::prelude::*;
use crate::assoc::{akeys, keep, lemma_keep_len, lemma_keep_unique, unique_keys};
use crate::security::path_rules::{find_char_exec, find_char_from, lemma_find_char_from_bounds};
use crate::security::signature::{signature_factor, signature_risk_factor, verify_signature, SignatureStatus};
use crate::security::behavior::{
    check_child_explosion, check_name_path_mismatch, check_name_spoofing, check_privilege_escalation,
    check_resource_anomaly, check_svchost_integrity, child_explosion, name_path_mismatch, name_spoofing,
    opt_factor_view, privilege_escalation, resource_anomaly, svchost_integrity,
};
use crate::security::command_line::{check_command_line, command_line_factors, law_command_line_factors};
use crate::security::flow::{check_flow_risk, flow_risk, ProcessFlow, SniWhitelist};
use crate::security::hash_cache::{
    after_cached_sig, cached_sig, hash_check, is_system_path_spec, opt_chars, recorded, HashReputation, RepView,
};
use crate::security::lineage::{
    detect_suspicious_chain, lineage_factors, pattern_description, pattern_risk_name, pattern_weight, suspicious_chain,
    LineageRule,
};
use crate::security::parent_chain::{analyze_parent_chain, parent_chain_factors};
use crate::security::path_check::path_factors;
use crate::security::path_rules::{
    is_in_suspicious_path, kind_description, kind_risk_name, kind_weight, suspicious_kind, suspicious_path_factors,
    PathRule, UserDirs,
};
use crate::process::{opt_view, ProcessInfo};
use crate::text::{decimal, starts_with, unicode_lower, views};

verus! {

broadcast use vstd::seq_lib::group_seq_properties;

/// What a risk factor is about.
#[derive(Debug, Clone, Copy, PartialEq, Eq, Structural)]
pub enum RiskCategory {
    Signature,
    ParentChain,
    FilePath,
    CommandLine,
    NetworkBehavior,
    Privilege,
}

pub open spec fn category_label(c: RiskCategory) -> &'static str {
    match c {
        RiskCategory::Signature => "签名",
        RiskCategory::ParentChain => "父子链",
        RiskCategory::FilePath => "文件路径",
        RiskCategory::CommandLine => "命令行",
        RiskCategory::NetworkBehavior => "网络行为",
        RiskCategory::Privilege => "权限",
    }
}

impl RiskCategory {
    /// The display label of the category.
    pub fn label(&self) -> (s: &'static str)
        ensures
            s == category_label(*self),
    {
        match self {
            RiskCategory::Signature => "签名",
            RiskCategory::ParentChain => "父子链",
            RiskCategory::FilePath => "文件路径",
            RiskCategory::CommandLine => "命令行",
            RiskCategory::NetworkBehavior => "网络行为",
            RiskCategory::Privilege => "权限",
        }
    }
}

/// One reason that lowers a process's security score.
#[derive(Debug, Clone)]
pub struct RiskFactor {
    pub category: RiskCategory,
    pub name: String,
    pub weight: u32,
    pub description: String,
}

/// The mathematical value of a [`RiskFactor`].
pub ghost struct FactorSpec {
    pub category: RiskCategory,
    pub name: Seq<char>,
    pub weight: u32,
    pub description: Seq<char>,
}

pub open spec fn fspec(category: RiskCategory, name: Seq<char>, weight: u32, description: Seq<char>) -> FactorSpec {
    FactorSpec { category, name, weight, description }
}

impl View for RiskFactor {
    type V = FactorSpec;

    open spec fn view(&self) -> FactorSpec {
        fspec(self.category, self.name@, self.weight, self.description@)
    }
}

/// The views of a vector of factors.
pub open spec fn factor_views(v: Seq<RiskFactor>) -> Seq<FactorSpec> {
    v.map_values(|f: RiskFactor| f@)
}

/// `seq![f]` when `cond` holds, the empty sequence otherwise.
pub open spec fn opt_factor(cond: bool, f: FactorSpec) -> Seq<FactorSpec> {
    if cond {
        seq![f]
    } else {
        Seq::empty()
    }
}

/// A factor whose name and description are the given texts.
pub fn factor(category: RiskCategory, name: &str, weight: u32, description: &str) -> (r: RiskFactor)
    ensures
        r@ == fspec(category, name@, weight, description@),
{
    RiskFactor {
        category,
        name: String::from_str(name),
        weight,
        description: String::from_str(description),
    }
}

/// A factor with an owned description.
pub fn factor_owned(category: RiskCategory, name: &str, weight: u32, description: String) -> (r: RiskFactor)
    ensures
        r@ == fspec(category, name@, weight, description@),
{
    RiskFactor { category, name: String::from_str(name), weight, description }
}

/// Appends `f` to `v` when `cond` holds.
pub fn push_when(v: &mut Vec<RiskFactor>, cond: bool, f: RiskFactor)
    ensures
        factor_views(final(v)@) == factor_views(old(v)@) + opt_factor(cond, f@),
{
    let ghost before = v@;
    if cond {
        v.push(f);
        assert(factor_views(v@) =~= factor_views(before) + seq![f@]);
    } else {
        assert(factor_views(v@) =~= factor_views(before) + Seq::<FactorSpec>::empty());
    }
}


/// The security score of one process: 100 less the weights of its risk
/// factors, at least 0.
#[derive(Debug, Clone)]
pub struct SecurityScore {
    pub score: u32,
    pub factors: Vec<RiskFactor>,
    pub signature: SignatureStatus,
}

/// The mathematical value of a [`SecurityScore`].
pub ghost struct ScoreView {
    pub score: u32,
    pub factors: Seq<FactorSpec>,
    pub signature: SignatureStatus,
}

impl View for SecurityScore {
    type V = ScoreView;

    open spec fn view(&self) -> ScoreView {
        ScoreView { score: self.score, factors: factor_views(self.factors@), signature: self.signature }
    }
}

/// A copy of a factor.
pub fn copy_factor(f: &RiskFactor) -> (r: RiskFactor)
    ensures
        r@ == f@,
{
    RiskFactor {
        category: f.category,
        name: String::from_str(f.name.as_str()),
        weight: f.weight,
        description: String::from_str(f.description.as_str()),
    }
}

/// A copy of a score.
pub fn copy_score(s: &SecurityScore) -> (r: SecurityScore)
    ensures
        r@ == s@,
{
    let mut fs: Vec<RiskFactor> = Vec::new();
    let mut i: usize = 0;
    while i < s.factors.len()
        invariant
            i <= s.factors.len(),
            factor_views(fs@) == factor_views(s.factors@).take(i as int),
        decreases s.factors.len() - i,
    {
        let ghost before = fs@;
        let f = copy_factor(&s.factors[i]);
        fs.push(f);
        assert(factor_views(fs@) =~= factor_views(before).push(s.factors@[i as int]@));
        assert(factor_views(s.factors@).take(i + 1) =~= factor_views(s.factors@).take(i as int).push(s.factors@[i as int]@));
        i += 1;
    }
    assert(factor_views(s.factors@).take(i as int) =~= factor_views(s.factors@));
    SecurityScore { score: s.score, factors: fs, signature: s.signature }
}

// ---------------------------------------------------------------------------
// Score cache
// ---------------------------------------------------------------------------
/// Most entries the score cache keeps.
pub const SCORE_CACHE_MAX_ENTRIES: usize = 500;

struct CacheEntry {
    score: SecurityScore,
    created_at: u64,
    signature_cached: bool,
}

/// The mathematical value of a cached score: the score, when it was stored
/// (milliseconds on a monotonic clock) and whether its signature verdict is
/// final.
pub ghost struct CacheEntryView {
    pub score: ScoreView,
    pub created_at: u64,
    pub signature_cached: bool,
}

impl View for CacheEntry {
    type V = CacheEntryView;

    closed spec fn view(&self) -> CacheEntryView {
        CacheEntryView { score: self.score@, created_at: self.created_at, signature_cached: self.signature_cached }
    }
}

spec fn cache_pairs(s: Seq<(String, CacheEntry)>) -> Seq<(Seq<char>, CacheEntryView)> {
    s.map_values(|p: (String, CacheEntry)| (p.0@, p.1@))
}

/// A least-recently-used cache of scores.  Its value is the list of its
/// entries, least recently used first.
pub struct CachedScore {
    entries: Vec<(String, CacheEntry)>,
    max_entries: usize,
}

impl View for CachedScore {
    type V = Seq<(Seq<char>, CacheEntryView)>;

    closed spec fn view(&self) -> Seq<(Seq<char>, CacheEntryView)> {
        cache_pairs(self.entries@)
    }
}

/// The cached score for `key`, if any.
pub open spec fn cache_lookup(s: Seq<(Seq<char>, CacheEntryView)>, key: Seq<char>) -> Option<ScoreView> {
    if akeys(s).contains(key) {
        Some(s[akeys(s).index_of(key)].1.score)
    } else {
        None
    }
}

/// The cache after a lookup of `key`: a present entry becomes the most
/// recently used.
pub open spec fn cache_touched(s: Seq<(Seq<char>, CacheEntryView)>, key: Seq<char>) -> Seq<(Seq<char>, CacheEntryView)> {
    if akeys(s).contains(key) {
        let i = akeys(s).index_of(key);
        s.remove(i).push(s[i])
    } else {
        s
    }
}

/// The cache after storing `e` under `key`: a present entry is replaced in
/// place; otherwise, when the cache is full, the least recently used entry
/// goes, and the new entry becomes the most recently used.
pub open spec fn cache_inserted(s: Seq<(Seq<char>, CacheEntryView)>, key: Seq<char>, e: CacheEntryView) -> Seq<(Seq<char>, CacheEntryView)> {
    if akeys(s).contains(key) {
        s.update(akeys(s).index_of(key), (key, e))
    } else if s.len() >= SCORE_CACHE_MAX_ENTRIES {
        s.drop_first().push((key, e))
    } else {
        s.push((key, e))
    }
}

/// An entry has expired at `now` when its signature verdict is not final
/// and it is older than `max_age` (an entry from the future has age 0).
pub open spec fn expired(e: CacheEntryView, now: u64, max_age: u64) -> bool {
    !e.signature_cached && now > e.created_at && now - e.created_at > max_age
}

pub open spec fn fresh_at(now: u64, max_age: u64) -> spec_fn((Seq<char>, CacheEntryView)) -> bool {
    |p: (Seq<char>, CacheEntryView)| !expired(p.1, now, max_age)
}

fn find_key(v: &Vec<(String, CacheEntry)>, key: &str) -> (r: Option<usize>)
    ensures
        match r {
            Some(i) => i < v.len() && v@[i as int].0@ == key@,
            None => !akeys(cache_pairs(v@)).contains(key@),
        },
{
    let mut i: usize = 0;
    while i < v.len()
        invariant
            i <= v.len(),
            forall|j: int| 0 <= j < i ==> v@[j].0@ != key@,
        decreases v.len() - i,
    {
        if crate::text::str_eq(v[i].0.as_str(), key) {
            return Some(i);
        }
        i += 1;
    }
    assert forall|j: int| 0 <= j < v.len() implies akeys(cache_pairs(v@))[j] != key@ by {
        assert(akeys(cache_pairs(v@))[j] == v@[j].0@);
    }
    None
}

proof fn lemma_index_of_unique<K, V>(s: Seq<(K, V)>, i: int)
    requires
        unique_keys(s),
        0 <= i < s.len(),
    ensures
        akeys(s).contains(s[i].0),
        akeys(s).index_of(s[i].0) == i,
{
    assert(akeys(s)[i] == s[i].0);
    let j = akeys(s).index_of(s[i].0);
    assert(akeys(s)[j] == s[i].0);
}

impl CachedScore {
    /// The representation invariant: keys are distinct, the limit is
    /// [`SCORE_CACHE_MAX_ENTRIES`] and the cache holds no more entries.
    pub closed spec fn wf(&self) -> bool {
        &&& unique_keys(cache_pairs(self.entries@))
        &&& self.max_entries == SCORE_CACHE_MAX_ENTRIES
        &&& cache_pairs(self.entries@).len() <= SCORE_CACHE_MAX_ENTRIES
    }

    /// A well-formed cache has no key twice and at most
    /// [`SCORE_CACHE_MAX_ENTRIES`] entries.
    pub proof fn lemma_wf_unique(&self)
        requires
            self.wf(),
        ensures
            unique_keys(self@),
            self@.len() <= SCORE_CACHE_MAX_ENTRIES,
    {
    }

    /// An empty cache.
    pub fn new() -> (c: CachedScore)
        ensures
            c.wf(),
            c@ == Seq::<(Seq<char>, CacheEntryView)>::empty(),
    {
        let c = CachedScore { entries: Vec::new(), max_entries: SCORE_CACHE_MAX_ENTRIES };
        assert(c@ =~= Seq::<(Seq<char>, CacheEntryView)>::empty());
        c
    }

    /// The score cached under `key`, which becomes the most recently used.
    pub fn get(&mut self, key: &str) -> (r: Option<&SecurityScore>)
        requires
            old(self).wf(),
        ensures
            final(self).wf(),
            final(self)@ == cache_touched(old(self)@, key@),
            match r {
                Some(s) => cache_lookup(old(self)@, key@) == Some(s@),
                None => cache_lookup(old(self)@, key@).is_none(),
            },
    {
        let ghost s0 = self@;
        match find_key(&self.entries, key) {
            Some(i) => {
                proof {
                    lemma_index_of_unique(s0, i as int);
                }
                let e = self.entries.remove(i);
                self.entries.push(e);
                proof {
                    assert(self@ =~= s0.remove(i as int).push(s0[i as int]));
                    assert(akeys(self@) =~= akeys(s0).remove(i as int).push(s0[i as int].0));
                }
                let last = self.entries.len() - 1;
                Some(&self.entries[last].1.score)
            },
            None => None,
        }
    }

    /// Whether a score is cached under `key`; the order of use is left as it is.
    pub fn contains(&self, key: &str) -> (b: bool)
        ensures
            b == cache_lookup(self@, key@).is_some(),
    {
        match find_key(&self.entries, key) {
            Some(i) => {
                assert(akeys(self@)[i as int] == key@);
                true
            },
            None => false,
        }
    }

    /// Stores `score` under `key` at time `now` (milliseconds, monotonic).
    pub fn insert(&mut self, key: String, score: SecurityScore, signature_cached: bool, now: u64)
        requires
            old(self).wf(),
        ensures
            final(self).wf(),
            final(self)@ == cache_inserted(old(self)@, key@, CacheEntryView { score: score@, created_at: now, signature_cached }),
    {
        let ghost s0 = self@;
        let ghost ev = CacheEntryView { score: score@, created_at: now, signature_cached };
        let entry = CacheEntry { score, created_at: now, signature_cached };
        match find_key(&self.entries, key.as_str()) {
            Some(i) => {
                proof {
                    lemma_index_of_unique(s0, i as int);
                }
                self.entries.set(i, (key, entry));
                proof {
                    assert(self@ =~= s0.update(i as int, (key@, ev)));
                    assert(akeys(self@) =~= akeys(s0));
                }
            },
            None => {
                if self.entries.len() >= self.max_entries && self.entries.len() > 0 {
                    self.entries.remove(0);
                    proof {
                        assert(self@ =~= s0.drop_first());
                        assert(akeys(self@) =~= akeys(s0).drop_first());
                    }
                }
                let ghost s1 = self@;
                self.entries.push((key, entry));
                proof {
                    assert(akeys(self@) =~= akeys(s1).push(key@));
                    assert(!akeys(s1).contains(key@)) by {
                        if akeys(s1).contains(key@) {
                            let j = akeys(s1).index_of(key@);
                            assert(akeys(s0)[j + 1] == key@);
                        }
                    }
                }
            },
        }
    }

    /// Empties the cache.
    pub fn clear(&mut self)
        requires
            old(self).wf(),
        ensures
            final(self).wf(),
            final(self)@ == Seq::<(Seq<char>, CacheEntryView)>::empty(),
    {
        self.entries.clear();
        assert(self@ =~= Seq::<(Seq<char>, CacheEntryView)>::empty());
    }

    /// Drops the entries that have expired at `now`.
    pub fn evict_expired(&mut self, now: u64, max_age: u64)
        requires
            old(self).wf(),
        ensures
            final(self).wf(),
            final(self)@ == keep(old(self)@, fresh_at(now, max_age)),
    {
        let ghost s0 = self@;
        let mut kept: Vec<(String, CacheEntry)> = Vec::new();
        let mut all: Vec<(String, CacheEntry)> = Vec::new();
        std::mem::swap(&mut all, &mut self.entries);
        let ghost a0 = all@;
        assert(a0.len() == all.len());
        let mut n: usize = 0;
        while all.len() > 0
            invariant
                n + all.len() == a0.len(),
                a0.len() <= usize::MAX,
                all@ == a0.subrange(n as int, a0.len() as int),
                cache_pairs(kept@) == keep(cache_pairs(a0.take(n as int)), fresh_at(now, max_age)),
            decreases all.len(),
        {
            let p = all.remove(0);
            assert(p == a0[n as int]);
            let ghost t = cache_pairs(a0.take(n + 1));
            assert(t.drop_last() =~= cache_pairs(a0.take(n as int)));
            assert(t.last() == (p.0@, p.1@));
            let exp = !p.1.signature_cached && now > p.1.created_at && now - p.1.created_at > max_age;
            if !exp {
                let ghost before = kept@;
                kept.push(p);
                assert(cache_pairs(kept@) =~= cache_pairs(before).push((p.0@, p.1@)));
            }
            n += 1;
            assert(all@ =~= a0.subrange(n as int, a0.len() as int));
        }
        assert(a0.take(n as int) =~= a0);
        self.entries = kept;
        proof {
            lemma_keep_unique(s0, fresh_at(now, max_age));
            lemma_keep_len(s0, fresh_at(now, max_age));
        }
    }
}


// ---------------------------------------------------------------------------
// Cache keys
// ---------------------------------------------------------------------------
pub open spec fn is_digit(c: char) -> bool {
    '0' <= c && c <= '9'
}

/// The value of a run of decimal digits.
pub open spec fn digits_value(s: Seq<char>) -> nat
    decreases s.len(),
{
    if s.len() == 0 {
        0
    } else {
        digits_value(s.drop_last()) * 10 + ((s.last() as nat) - 48) as nat
    }
}

/// What `str::parse` gives for an unsigned integer type whose largest value
/// is `max`: an optional `+`, then one or more decimal digits whose value is
/// at most `max`.
pub open spec fn parse_unsigned(s: Seq<char>, max: nat) -> Option<nat> {
    let d = unsigned_digits(s);
    if d.len() > 0 && all_digits(d) && digits_value(d) <= max {
        Some(digits_value(d))
    } else {
        None
    }
}

/// `s` without a leading `+`.
pub open spec fn unsigned_digits(s: Seq<char>) -> Seq<char> {
    if s.len() > 0 && s[0] == '+' {
        s.drop_first()
    } else {
        s
    }
}

/// Every character of `d` is a decimal digit.
pub open spec fn all_digits(d: Seq<char>) -> bool {
    forall|i: int| 0 <= i < d.len() ==> is_digit(#[trigger] d[i])
}

/// The process identity `(pid, start_time)` read from a cache key
/// `{pid}:{start_time}:{exe}`: the texts before the first `:` and between
/// the first and the second `:` (or the end), both parsed.
pub open spec fn alive_key(key: Seq<char>) -> Option<(u32, u64)> {
    match find_char_from(key, 0, ':') {
        None => None,
        Some(i) => {
            let rest = key.subrange(i + 1, key.len() as int);
            let second = match find_char_from(rest, 0, ':') {
                Some(j) => rest.take(j),
                None => rest,
            };
            match (parse_unsigned(key.take(i), u32::MAX as nat), parse_unsigned(second, u64::MAX as nat)) {
                (Some(a), Some(b)) => Some((a as u32, b as u64)),
                _ => None,
            }
        },
    }
}

proof fn lemma_digits_value_prefix(s: Seq<char>, k: int)
    requires
        0 <= k <= s.len(),
    ensures
        digits_value(s.take(k)) <= digits_value(s),
    decreases s.len(),
{
    if k < s.len() {
        assert(s.drop_last().take(k) =~= s.take(k));
        lemma_digits_value_prefix(s.drop_last(), k);
    } else {
        assert(s.take(k) =~= s);
    }
}

/// Parses `v[from..to]` as an unsigned integer no greater than `max`.
pub fn parse_unsigned_exec(v: &Vec<char>, from: usize, to: usize, max: u64) -> (r: Option<u64>)
    requires
        from <= to <= v.len(),
    ensures
        match r {
            Some(x) => parse_unsigned(v@.subrange(from as int, to as int), max as nat) == Some(x as nat),
            None => parse_unsigned(v@.subrange(from as int, to as int), max as nat).is_none(),
        },
{
    let ghost s = v@.subrange(from as int, to as int);
    let start = if from < to && v[from] == '+' { from + 1 } else { from };
    let ghost d = v@.subrange(start as int, to as int);
    assert(d =~= unsigned_digits(s));
    if start == to {
        return None;
    }
    let mut acc: u64 = 0;
    let mut i = start;
    while i < to
        invariant
            from <= start <= i <= to <= v.len(),
            start < to,
            s == v@.subrange(from as int, to as int),
            d == v@.subrange(start as int, to as int),
            d == unsigned_digits(s),
            forall|j: int| 0 <= j < i - start ==> is_digit(#[trigger] d[j]),
            acc as nat == digits_value(d.take(i - start)),
            acc <= max,
        decreases to - i,
    {
        let c = v[i];
        let ghost k = i - start;
        assert(d[k] == c);
        if !('0' <= c && c <= '9') {
            assert(!is_digit(d[k]));
            return None;
        }
        let dig = (c as u32 - 48) as u64;
        assert(d.take(k + 1).drop_last() =~= d.take(k));
        assert(d.take(k + 1).last() == c);
        assert(((c as nat) - 48) as nat == dig as nat);
        assert(digits_value(d.take(k + 1)) == acc * 10 + dig);
        if dig > max {
            proof {
                lemma_digits_value_prefix(d, k + 1);
            }
            return None;
        }
        if acc > (max - dig) / 10 {
            proof {
                assert(acc * 10 + dig > max) by (nonlinear_arith)
                    requires
                        acc > (max - dig) / 10,
                        dig <= max,
                ;
                lemma_digits_value_prefix(d, k + 1);
            }
            return None;
        }
        assert(acc * 10 + dig <= max) by (nonlinear_arith)
            requires
                acc <= (max - dig) / 10,
                dig <= max,
        ;
        acc = acc * 10 + dig;
        i += 1;
    }
    assert(d.take(i - start) =~= d);
    Some(acc)
}


proof fn lemma_find_shift(s: Seq<char>, a: int, m: int, c: char)
    requires
        0 <= a <= s.len(),
        0 <= m,
    ensures
        find_char_from(s.subrange(a, s.len() as int), m, c) == match find_char_from(s, a + m, c) {
            Some(x) => Some(x - a),
            None => None::<int>,
        },
    decreases s.len() - a - m,
{
    let t = s.subrange(a, s.len() as int);
    if m < t.len() {
        assert(t[m] == s[a + m]);
        if s[a + m] != c {
            lemma_find_shift(s, a, m + 1, c);
        }
    }
}

/// The process identity `(pid, start_time)` of a score-cache key, when its
/// first two fields parse.
pub fn parse_alive_key(key: &str) -> (r: Option<(u32, u64)>)
    ensures
        r == alive_key(key@),
{
    let v = crate::text::chars_of(key);
    let i = match find_char_exec(&v, 0, ':') {
        Some(i) => i,
        None => return None,
    };
    proof {
        lemma_find_char_from_bounds(v@, 0, ':');
        lemma_find_shift(v@, i + 1, 0, ':');
        lemma_find_char_from_bounds(v@, i + 1, ':');
    }
    let end = match find_char_exec(&v, i + 1, ':') {
        Some(j) => j,
        None => v.len(),
    };
    let ghost rest = v@.subrange(i + 1, v@.len() as int);
    assert(v@.subrange(i + 1, end as int) =~= match find_char_from(rest, 0, ':') {
        Some(j) => rest.take(j),
        None => rest,
    });
    assert(v@.subrange(0, i as int) =~= v@.take(i as int));
    let pid = parse_unsigned_exec(&v, 0, i, 4294967295u64);
    let st = parse_unsigned_exec(&v, i + 1, end, 18446744073709551615u64);
    match (pid, st) {
        (Some(a), Some(b)) => Some((a as u32, b)),
        _ => None,
    }
}

/// Keeps an entry whose key names a process of `alive`, or whose key does
/// not parse.
pub open spec fn names_alive(alive: Seq<(u32, u64)>) -> spec_fn((Seq<char>, CacheEntryView)) -> bool {
    |p: (Seq<char>, CacheEntryView)| match alive_key(p.0) {
        Some(k) => alive.contains(k),
        None => true,
    }
}

fn alive_contains(alive: &[(u32, u64)], k: (u32, u64)) -> (b: bool)
    ensures
        b == alive@.contains(k),
{
    let mut i: usize = 0;
    while i < alive.len()
        invariant
            i <= alive.len(),
            forall|j: int| 0 <= j < i ==> alive@[j] != k,
        decreases alive.len() - i,
    {
        if alive[i].0 == k.0 && alive[i].1 == k.1 {
            assert(alive@[i as int] == k);
            return true;
        }
        i += 1;
    }
    false
}

impl CachedScore {
    /// Drops the entries of processes that are no longer alive (entries whose
    /// key does not parse stay).
    pub fn retain_alive(&mut self, alive: &[(u32, u64)])
        requires
            old(self).wf(),
        ensures
            final(self).wf(),
            final(self)@ == keep(old(self)@, names_alive(alive@)),
    {
        let ghost s0 = self@;
        let mut kept: Vec<(String, CacheEntry)> = Vec::new();
        let mut all: Vec<(String, CacheEntry)> = Vec::new();
        std::mem::swap(&mut all, &mut self.entries);
        let ghost a0 = all@;
        assert(a0.len() == all.len());
        let mut n: usize = 0;
        while all.len() > 0
            invariant
                n + all.len() == a0.len(),
                a0.len() <= usize::MAX,
                all@ == a0.subrange(n as int, a0.len() as int),
                cache_pairs(kept@) == keep(cache_pairs(a0.take(n as int)), names_alive(alive@)),
            decreases all.len(),
        {
            let p = all.remove(0);
            assert(p == a0[n as int]);
            let ghost t = cache_pairs(a0.take(n + 1));
            assert(t.drop_last() =~= cache_pairs(a0.take(n as int)));
            assert(t.last() == (p.0@, p.1@));
            let keep_it = match parse_alive_key(p.0.as_str()) {
                Some(k) => alive_contains(alive, k),
                None => true,
            };
            if keep_it {
                let ghost before = kept@;
                kept.push(p);
                assert(cache_pairs(kept@) =~= cache_pairs(before).push((p.0@, p.1@)));
            }
            n += 1;
            assert(all@ =~= a0.subrange(n as int, a0.len() as int));
        }
        assert(a0.take(n as int) =~= a0);
        self.entries = kept;
        proof {
            lemma_keep_unique(s0, names_alive(alive@));
            lemma_keep_len(s0, names_alive(alive@));
        }
    }
}


// ---------------------------------------------------------------------------
// Network behaviour
// ---------------------------------------------------------------------------
/// One socket of a process, as the port table lists it.
#[derive(Debug, Clone)]
pub struct PortEntry {
    pub pid: u32,
    pub local_port: u16,
    /// The TCP state, such as `LISTEN`; `None` for UDP.
    pub state: Option<String>,
}

/// Ports that malware commonly listens on.
pub open spec fn known_c2_port(port: u16) -> bool {
    port == 4444 || port == 5555 || port == 31337 || port == 6666 || port == 6667 || port == 9999
}

pub open spec fn is_listening(state: Option<String>) -> bool {
    match state {
        Some(s) => s@ == "LISTEN"@ || s@ == "LISTENING"@,
        None => false,
    }
}

/// `pid` has a listening socket.
pub open spec fn listens(pid: u32, ports: Seq<PortEntry>) -> bool {
    exists|i: int| 0 <= i < ports.len() && (#[trigger] ports[i]).pid == pid && is_listening(ports[i].state)
}

/// `pid` listens on a known malicious port.
pub open spec fn listens_on_c2(pid: u32, ports: Seq<PortEntry>) -> bool {
    exists|i: int|
        0 <= i < ports.len() && (#[trigger] ports[i]).pid == pid && is_listening(ports[i].state) && known_c2_port(ports[i].local_port)
}

/// The factors of the network rule: a listener on a known malicious port,
/// and a listener whose signature is missing or unverified.
pub open spec fn network_factors(pid: u32, sig: SignatureStatus, ports: Seq<PortEntry>) -> Seq<FactorSpec> {
    opt_factor(listens_on_c2(pid, ports), fspec(RiskCategory::NetworkBehavior, "c2_port"@, 30, "监听已知恶意端口"@))
        + opt_factor(listens(pid, ports) && sig == SignatureStatus::Unsigned,
            fspec(RiskCategory::NetworkBehavior, "unsigned_listen"@, 15, "无签名进程监听端口"@))
        + opt_factor(listens(pid, ports) && sig == SignatureStatus::Unknown,
            fspec(RiskCategory::NetworkBehavior, "unverified_listen"@, 8, "未验证签名进程监听端口"@))
}

fn is_listening_exec(state: &Option<String>) -> (b: bool)
    ensures
        b == is_listening(*state),
{
    match state {
        Some(s) => crate::text::str_eq(s.as_str(), "LISTEN") || crate::text::str_eq(s.as_str(), "LISTENING"),
        None => false,
    }
}

/// Scores the listening sockets of `pid`.
pub fn check_network_behavior(pid: u32, sig_status: &SignatureStatus, port_entries: &[PortEntry]) -> (r: Vec<RiskFactor>)
    ensures
        factor_views(r@) == network_factors(pid, *sig_status, port_entries@),
{
    let mut has_listen = false;
    let mut has_c2_port = false;
    let mut i: usize = 0;
    while i < port_entries.len()
        invariant
            i <= port_entries.len(),
            has_listen == exists|j: int| 0 <= j < i && (#[trigger] port_entries@[j]).pid == pid && is_listening(port_entries@[j].state),
            has_c2_port == exists|j: int|
                0 <= j < i && (#[trigger] port_entries@[j]).pid == pid && is_listening(port_entries@[j].state)
                    && known_c2_port(port_entries@[j].local_port),
        decreases port_entries.len() - i,
    {
        let e = &port_entries[i];
        if e.pid == pid && is_listening_exec(&e.state) {
            has_listen = true;
            let p = e.local_port;
            if p == 4444 || p == 5555 || p == 31337 || p == 6666 || p == 6667 || p == 9999 {
                has_c2_port = true;
            }
        }
        i += 1;
    }
    let mut factors: Vec<RiskFactor> = Vec::new();
    assert(factor_views(factors@) =~= Seq::<FactorSpec>::empty());
    push_when(&mut factors, has_c2_port, factor(RiskCategory::NetworkBehavior, "c2_port", 30, "监听已知恶意端口"));
    push_when(&mut factors, has_listen && *sig_status == SignatureStatus::Unsigned,
        factor(RiskCategory::NetworkBehavior, "unsigned_listen", 15, "无签名进程监听端口"));
    push_when(&mut factors, has_listen && *sig_status == SignatureStatus::Unknown,
        factor(RiskCategory::NetworkBehavior, "unverified_listen", 8, "未验证签名进程监听端口"));
    factors
}

/// The extra factor when an unsigned or revoked executable also runs from a
/// suspicious directory.
pub open spec fn cooperation_factor(sig: SignatureStatus, path_hit: bool) -> Option<FactorSpec> {
    if path_hit && (sig == SignatureStatus::Unsigned || sig == SignatureStatus::Revoked) {
        Some(fspec(RiskCategory::FilePath, "unsigned_in_suspicious_path"@, 10, "未签名 + 可疑路径协同命中（双重特征强信号）"@))
    } else {
        None
    }
}

/// The factor for an unsigned or revoked executable in a suspicious
/// directory, if `r18_matched` says the directory rule hit.
pub fn r18_cooperation_factor(sig_status: SignatureStatus, r18_matched: bool) -> (r: Option<RiskFactor>)
    ensures
        crate::security::behavior::opt_factor_view(r) == cooperation_factor(sig_status, r18_matched),
{
    if r18_matched && (sig_status == SignatureStatus::Unsigned || sig_status == SignatureStatus::Revoked) {
        Some(factor(RiskCategory::FilePath, "unsigned_in_suspicious_path", 10, "未签名 + 可疑路径协同命中（双重特征强信号）"))
    } else {
        None
    }
}


// ---------------------------------------------------------------------------
// The scorer
// ---------------------------------------------------------------------------
/// Signature verifications allowed per scoring pass.
pub const VERIFY_BUDGET_PER_PASS: usize = 50;

/// DLL checks allowed per scoring pass.
pub const DLL_CHECK_BUDGET_PER_PASS: usize = 20;

/// Age (milliseconds) past which a cached score without a final signature
/// verdict expires.
pub const CACHE_MAX_AGE_MS: u64 = 30000;

/// An optional factor as a sequence of zero or one factors.
pub open spec fn opt_seq(o: Option<FactorSpec>) -> Seq<FactorSpec> {
    match o {
        Some(f) => seq![f],
        None => Seq::empty(),
    }
}

/// The executable path of a process, if known.
pub open spec fn exe_opt(p: ProcessInfo) -> Option<Seq<char>> {
    match p.exe {
        Some(e) => Some(e@),
        None => None,
    }
}

/// The factors of the rules that read the process table alone, in the order
/// the scorer applies them: signature, parent chain, file path, command
/// line, network, name spoofing, resource use, child count, privilege
/// escalation, svchost integrity and name/path mismatch.
pub open spec fn base_factors(p: ProcessInfo, all: Seq<ProcessInfo>, ports: Seq<PortEntry>, sig: SignatureStatus) -> Seq<FactorSpec> {
    opt_seq(signature_factor(sig)) + parent_chain_factors(p, all) + path_factors(exe_opt(p))
        + command_line_factors(views(p.cmd@)) + network_factors(p.pid, sig, ports) + opt_seq(name_spoofing(p.name@))
        + opt_seq(resource_anomaly(p)) + opt_seq(child_explosion(p, all)) + opt_seq(privilege_escalation(p))
        + opt_seq(svchost_integrity(p, all)) + opt_seq(name_path_mismatch(p))
}

/// The flows of the process instance `(pid, start)`.
pub open spec fn flows_of(flows: Seq<ProcessFlow>, pid: u32, start: u64) -> Seq<ProcessFlow> {
    keep(flows, |f: ProcessFlow| f.pid == pid && f.start_time == start)
}

/// The factors of the outbound-connection, lineage and launch-directory
/// rules, with the extra factor for an unsigned executable in a suspicious
/// directory.
pub open spec fn tail_factors(
    p: ProcessInfo,
    flows: Seq<ProcessFlow>,
    whitelist: Option<SniWhitelist>,
    now_nanos: u64,
    lineage: Seq<LineageRule>,
    dirs: UserDirs,
    rules: Seq<PathRule>,
    sig: SignatureStatus,
) -> Seq<FactorSpec> {
    let hits = suspicious_path_factors(seq![p], dirs, rules);
    opt_seq(flow_risk(flows_of(flows, p.pid, p.start_time), whitelist, now_nanos)) + lineage_factors(seq![p], lineage) + hits
        + opt_seq(cooperation_factor(sig, hits.len() > 0))
}

/// The sum of the weights.
pub open spec fn total_weight(fs: Seq<FactorSpec>) -> nat
    decreases fs.len(),
{
    if fs.len() == 0 {
        0
    } else {
        (total_weight(fs.drop_last()) + fs.last().weight) as nat
    }
}

/// 100 less the weights, at least 0.
pub open spec fn score_value(fs: Seq<FactorSpec>) -> u32 {
    if total_weight(fs) >= 100 {
        0
    } else {
        (100 - total_weight(fs)) as u32
    }
}

/// The cache key of a process: `{pid}:{start_time}:{lowered exe}`.
pub open spec fn cache_key_of(p: ProcessInfo) -> Seq<char> {
    decimal(p.pid as nat) + ":"@ + decimal(p.start_time as nat) + ":"@ + unicode_lower(opt_view(p.exe))
}

/// The signature verdict the scorer uses: trusted in a system directory,
/// otherwise the cached verdict, otherwise unknown (no verification
/// service is available to the library).
pub open spec fn signature_choice(rep: RepView, exe: Seq<char>, hash: Option<Seq<char>>) -> SignatureStatus {
    if is_system_path_spec(exe) {
        SignatureStatus::Trusted
    } else if exe.len() > 0 {
        match cached_sig(rep, exe, hash) {
            Some(c) => c,
            None => SignatureStatus::Unknown,
        }
    } else {
        SignatureStatus::Unknown
    }
}

/// The reputation cache after the scorer's lookup.
pub open spec fn looked_up(rep: RepView, exe: Seq<char>, hash: Option<Seq<char>>) -> RepView {
    if exe.len() > 0 && !is_system_path_spec(exe) {
        after_cached_sig(rep, exe, hash)
    } else {
        rep
    }
}

/// The scorer asks for a signature verification (and spends budget on it).
pub open spec fn wants_verification(rep: RepView, exe: Seq<char>, hash: Option<Seq<char>>) -> bool {
    !is_system_path_spec(exe) && (exe.len() == 0 || cached_sig(rep, exe, hash).is_none())
}

/// Verdicts that the reputation cache records.
pub open spec fn records_verdict(sig: SignatureStatus) -> bool {
    sig == SignatureStatus::Trusted || sig == SignatureStatus::Signed || sig == SignatureStatus::Unsigned
}

/// Verdicts final enough to keep the score cached without expiry.
pub open spec fn verdict_final(sig: SignatureStatus) -> bool {
    records_verdict(sig) || sig == SignatureStatus::Revoked
}

/// How a scoring changes the reputation cache: the lookup, then, for a
/// verdict worth recording, the record.
pub open spec fn reputation_step(pre: RepView, post: RepView, exe: Seq<char>, sig: SignatureStatus, hash: Option<Seq<char>>, now_secs: u64) -> bool {
    let mid = looked_up(pre, exe, hash);
    if exe.len() > 0 && records_verdict(sig) {
        recorded(mid, post, exe, sig, hash, now_secs)
    } else {
        post == mid
    }
}

/// The scorer's state.
pub ghost struct ScorerView {
    pub cache: Seq<(Seq<char>, CacheEntryView)>,
    pub verify_budget: usize,
    pub dll_check_budget: usize,
    pub reputation: RepView,
}

/// Scores processes, caching the results.
pub struct SecurityScorer {
    cache: CachedScore,
    verify_budget: usize,
    dll_check_budget: usize,
    hash_reputation: HashReputation,
    sni_whitelist: Option<SniWhitelist>,
    lineage_rules: Vec<LineageRule>,
    path_rules: Vec<PathRule>,
    user_dirs: UserDirs,
}

impl View for SecurityScorer {
    type V = ScorerView;

    closed spec fn view(&self) -> ScorerView {
        ScorerView {
            cache: self.cache@,
            verify_budget: self.verify_budget,
            dll_check_budget: self.dll_check_budget,
            reputation: self.hash_reputation@,
        }
    }
}

impl SecurityScorer {
    /// The SNI whitelist in use.
    pub closed spec fn whitelist(&self) -> Option<SniWhitelist> {
        self.sni_whitelist
    }

    /// The user lineage rules in use.
    pub closed spec fn lineage_rules_spec(&self) -> Seq<LineageRule> {
        self.lineage_rules@
    }

    /// The user path rules in use.
    pub closed spec fn path_rules_spec(&self) -> Seq<PathRule> {
        self.path_rules@
    }

    /// The user directories in use.
    pub closed spec fn user_dirs_spec(&self) -> UserDirs {
        self.user_dirs
    }

    /// `self` uses the same configuration as `other`.
    pub open spec fn same_config(&self, other: &SecurityScorer) -> bool {
        &&& self.whitelist() == other.whitelist()
        &&& self.lineage_rules_spec() == other.lineage_rules_spec()
        &&& self.path_rules_spec() == other.path_rules_spec()
        &&& self.user_dirs_spec() == other.user_dirs_spec()
    }

    /// The representation invariant.
    pub closed spec fn wf(&self) -> bool {
        self.cache.wf() && self.hash_reputation.wf() && cache_entries_ok(self.cache@)
    }

    /// A well-formed scorer's cache has no key twice, and every cached score
    /// satisfies [`cached_entry_ok`].
    pub proof fn lemma_wf_cache(&self)
        requires
            self.wf(),
        ensures
            unique_keys(self@.cache),
            cache_entries_ok(self@.cache),
    {
        self.cache.lemma_wf_unique();
    }
}

/// The factors of a fresh scoring, given the reputation cache it ends with.
pub open spec fn fresh_factors(
    s: SecurityScorer,
    p: ProcessInfo,
    all: Seq<ProcessInfo>,
    ports: Seq<PortEntry>,
    flows: Seq<ProcessFlow>,
    dll: Seq<FactorSpec>,
    privilege: Option<FactorSpec>,
    hash: Option<Seq<char>>,
    now_nanos: u64,
    rep_after: RepView,
) -> Seq<FactorSpec> {
    let exe = opt_view(p.exe);
    let sig = signature_choice(s@.reputation, exe, hash);
    base_factors(p, all, ports, sig) + (if s@.dll_check_budget > 0 { dll } else { Seq::empty() }) + opt_seq(privilege)
        + (if exe.len() > 0 { opt_seq(hash_check(rep_after, exe)) } else { Seq::empty() })
        + tail_factors(p, flows, s.whitelist(), now_nanos, s.lineage_rules_spec(), s.user_dirs_spec(), s.path_rules_spec(), sig)
}

/// What a scoring that missed the cache returns and leaves behind.
pub open spec fn fresh_scoring(
    pre: SecurityScorer,
    post: SecurityScorer,
    p: ProcessInfo,
    all: Seq<ProcessInfo>,
    ports: Seq<PortEntry>,
    flows: Seq<ProcessFlow>,
    dll: Seq<FactorSpec>,
    privilege: Option<FactorSpec>,
    hash: Option<Seq<char>>,
    now_nanos: u64,
    now_ms: u64,
    r: ScoreView,
) -> bool {
    let exe = opt_view(p.exe);
    let sig = signature_choice(pre@.reputation, exe, hash);
    &&& r.signature == sig
    &&& reputation_step(pre@.reputation, post@.reputation, exe, sig, hash, now_nanos / 1_000_000_000)
    &&& r.factors == fresh_factors(pre, p, all, ports, flows, dll, privilege, hash, now_nanos, post@.reputation)
    &&& r.score == score_value(r.factors)
    &&& post@.verify_budget == if wants_verification(pre@.reputation, exe, hash) && pre@.verify_budget > 0 {
        (pre@.verify_budget - 1) as usize
    } else {
        pre@.verify_budget
    }
    &&& post@.dll_check_budget == if pre@.dll_check_budget > 0 {
        (pre@.dll_check_budget - 1) as usize
    } else {
        0
    }
    &&& post@.cache == if verdict_final(sig) {
        cache_inserted(pre@.cache, cache_key_of(p), CacheEntryView { score: r, created_at: now_ms, signature_cached: true })
    } else {
        pre@.cache
    }
}

/// Appends `w` to `v`.
pub fn append_factors(v: &mut Vec<RiskFactor>, w: Vec<RiskFactor>)
    ensures
        factor_views(final(v)@) == factor_views(old(v)@) + factor_views(w@),
{
    let ghost a = v@;
    let ghost b = w@;
    let mut w = w;
    v.append(&mut w);
    assert(factor_views(v@) =~= factor_views(a) + factor_views(b));
}

/// Appends `o`'s factor, if any, to `v`.
pub fn push_opt(v: &mut Vec<RiskFactor>, o: Option<RiskFactor>)
    ensures
        factor_views(final(v)@) == factor_views(old(v)@) + opt_seq(opt_factor_view(o)),
{
    let ghost a = v@;
    match o {
        Some(f) => {
            v.push(f);
            assert(factor_views(v@) =~= factor_views(a) + seq![f@]);
        },
        None => {
            assert(factor_views(v@) =~= factor_views(a) + Seq::<FactorSpec>::empty());
        },
    }
}

/// The score of a list of factors.
pub fn score_of(fs: &Vec<RiskFactor>) -> (s: u32)
    ensures
        s == score_value(factor_views(fs@)),
{
    let mut total: u128 = 0;
    let mut i: usize = 0;
    while i < fs.len()
        invariant
            i <= fs.len(),
            total == total_weight(factor_views(fs@).take(i as int)),
            total <= i * 4294967295,
        decreases fs.len() - i,
    {
        let ghost t = factor_views(fs@).take(i + 1);
        assert(t.drop_last() =~= factor_views(fs@).take(i as int));
        assert(t.last() == fs@[i as int]@);
        total = total + fs[i].weight as u128;
        i += 1;
    }
    assert(factor_views(fs@).take(i as int) =~= factor_views(fs@));
    if total >= 100 {
        0
    } else {
        (100 - total) as u32
    }
}

/// The cache key of a process.
pub fn cache_key(p: &ProcessInfo) -> (k: String)
    ensures
        k@ == cache_key_of(*p),
{
    let mut k = crate::text::decimal_string(p.pid as u128);
    crate::text::push_char(&mut k, ':');
    crate::text::push_decimal(&mut k, p.start_time as u128);
    crate::text::push_char(&mut k, ':');
    let lower = crate::text::to_lower(crate::process::opt_str(&p.exe));
    k.append(lower.as_str());
    proof {
        reveal_strlit(":");
        assert(k@ =~= cache_key_of(*p));
    }
    k
}

/// The factors of the rules that read the process table alone.
pub fn base_factors_of(p: &ProcessInfo, all: &[ProcessInfo], ports: &[PortEntry], sig: SignatureStatus) -> (r: Vec<RiskFactor>)
    ensures
        factor_views(r@) == base_factors(*p, all@, ports@, sig),
{
    let mut f: Vec<RiskFactor> = Vec::new();
    assert(factor_views(f@) =~= Seq::<FactorSpec>::empty());
    push_opt(&mut f, signature_risk_factor(sig));
    append_factors(&mut f, analyze_parent_chain(p, all));
    let exe: Option<&str> = match &p.exe {
        Some(e) => Some(e.as_str()),
        None => None,
    };
    append_factors(&mut f, crate::security::path_check::check_path_risk(exe));
    append_factors(&mut f, check_command_line(p.cmd.as_slice()));
    append_factors(&mut f, check_network_behavior(p.pid, &sig, ports));
    push_opt(&mut f, check_name_spoofing(p.name.as_str()));
    push_opt(&mut f, check_resource_anomaly(p));
    push_opt(&mut f, check_child_explosion(p, all));
    push_opt(&mut f, check_privilege_escalation(p));
    push_opt(&mut f, check_svchost_integrity(p, all));
    push_opt(&mut f, check_name_path_mismatch(p));
    f
}

/// A copy of a flow.
fn copy_flow(f: &ProcessFlow) -> (r: ProcessFlow)
    ensures
        r == *f,
{
    ProcessFlow {
        pid: f.pid,
        start_time: f.start_time,
        remote_addr: f.remote_addr.clone(),
        dns_name: match &f.dns_name {
            Some(n) => Some(n.clone()),
            None => None,
        },
        last_seen_nanos: f.last_seen_nanos,
    }
}

/// The flows of the process instance `(pid, start)`.
pub fn select_flows(flows: &[ProcessFlow], pid: u32, start: u64) -> (r: Vec<ProcessFlow>)
    ensures
        r@ == flows_of(flows@, pid, start),
{
    let mut r: Vec<ProcessFlow> = Vec::new();
    let mut i: usize = 0;
    while i < flows.len()
        invariant
            i <= flows.len(),
            r@ == keep(flows@.take(i as int), |f: ProcessFlow| f.pid == pid && f.start_time == start),
        decreases flows.len() - i,
    {
        let ghost t = flows@.take(i + 1);
        assert(t.drop_last() =~= flows@.take(i as int));
        assert(t.last() == flows@[i as int]);
        if flows[i].pid == pid && flows[i].start_time == start {
            r.push(copy_flow(&flows[i]));
        }
        i += 1;
    }
    assert(flows@.take(i as int) =~= flows@);
    r
}

/// The lineage factor of one process.
fn lineage_of(p: &ProcessInfo, rules: &[LineageRule]) -> (r: Vec<RiskFactor>)
    ensures
        factor_views(r@) == lineage_factors(seq![*p], rules@),
{
    let mut out: Vec<RiskFactor> = Vec::new();
    proof {
        assert(seq![*p].drop_last() =~= Seq::<ProcessInfo>::empty());
        assert(seq![*p].last() == *p);
        assert(lineage_factors(Seq::<ProcessInfo>::empty(), rules@) == Seq::<FactorSpec>::empty());
    }
    match detect_suspicious_chain(p.parent_chain.as_slice(), p.name.as_str(), rules) {
        Some(pat) => {
            let d = pat.description(p.name.as_str(), p.parent_chain.as_slice());
            let n = pat.risk_name();
            let w = pat.default_weight();
            out.push(RiskFactor { category: RiskCategory::ParentChain, name: n, weight: w, description: d });
            assert(factor_views(out@) =~= Seq::<FactorSpec>::empty() + seq![factor_views(out@).last()]);
        },
        None => {
            assert(factor_views(out@) =~= Seq::<FactorSpec>::empty() + Seq::<FactorSpec>::empty());
        },
    }
    out
}

/// The launch-directory factor of one process.
fn path_hit_of(p: &ProcessInfo, dirs: &UserDirs, rules: &[PathRule]) -> (r: Vec<RiskFactor>)
    ensures
        factor_views(r@) == suspicious_path_factors(seq![*p], *dirs, rules@),
{
    let mut out: Vec<RiskFactor> = Vec::new();
    proof {
        assert(seq![*p].drop_last() =~= Seq::<ProcessInfo>::empty());
        assert(seq![*p].last() == *p);
        assert(suspicious_path_factors(Seq::<ProcessInfo>::empty(), *dirs, rules@) == Seq::<FactorSpec>::empty());
    }
    match &p.exe {
        Some(e) => match is_in_suspicious_path(e.as_str(), dirs, rules) {
            Some(kind) => {
                let f = RiskFactor {
                    category: RiskCategory::FilePath,
                    name: kind.risk_name(),
                    weight: kind.default_weight(),
                    description: kind.description(e.as_str()),
                };
                out.push(f);
                assert(factor_views(out@) =~= Seq::<FactorSpec>::empty() + seq![factor_views(out@).last()]);
            },
            None => {
                assert(factor_views(out@) =~= Seq::<FactorSpec>::empty() + Seq::<FactorSpec>::empty());
            },
        },
        None => {
            assert(factor_views(out@) =~= Seq::<FactorSpec>::empty() + Seq::<FactorSpec>::empty());
        },
    }
    out
}

/// The outbound-connection, lineage and launch-directory factors.
pub fn tail_factors_of(
    p: &ProcessInfo,
    flows: &[ProcessFlow],
    whitelist: Option<&SniWhitelist>,
    now_nanos: u64,
    lineage: &[LineageRule],
    dirs: &UserDirs,
    rules: &[PathRule],
    sig: SignatureStatus,
) -> (r: Vec<RiskFactor>)
    ensures
        factor_views(r@) == tail_factors(*p, flows@, match whitelist {
            Some(w) => Some(*w),
            None => None,
        }, now_nanos, lineage@, *dirs, rules@, sig),
{
    let mut f: Vec<RiskFactor> = Vec::new();
    assert(factor_views(f@) =~= Seq::<FactorSpec>::empty());
    let mine = select_flows(flows, p.pid, p.start_time);
    push_opt(&mut f, check_flow_risk(mine.as_slice(), whitelist, now_nanos));
    append_factors(&mut f, lineage_of(p, lineage));
    let hits = path_hit_of(p, dirs, rules);
    let matched = hits.len() > 0;
    append_factors(&mut f, hits);
    push_opt(&mut f, r18_cooperation_factor(sig, matched));
    f
}


impl SecurityScorer {
    /// A scorer with an empty score cache, full budgets and the given
    /// reputation cache and configuration.
    pub fn new(
        hash_reputation: HashReputation,
        sni_whitelist: Option<SniWhitelist>,
        lineage_rules: Vec<LineageRule>,
        path_rules: Vec<PathRule>,
        user_dirs: UserDirs,
    ) -> (s: SecurityScorer)
        requires
            hash_reputation.wf(),
        ensures
            s.wf(),
            s@.cache == Seq::<(Seq<char>, CacheEntryView)>::empty(),
            s@.verify_budget == VERIFY_BUDGET_PER_PASS,
            s@.dll_check_budget == DLL_CHECK_BUDGET_PER_PASS,
            s@.reputation == hash_reputation@,
            s.whitelist() == sni_whitelist,
            s.lineage_rules_spec() == lineage_rules@,
            s.path_rules_spec() == path_rules@,
            s.user_dirs_spec() == user_dirs,
    {
        SecurityScorer {
            cache: CachedScore::new(),
            verify_budget: VERIFY_BUDGET_PER_PASS,
            dll_check_budget: DLL_CHECK_BUDGET_PER_PASS,
            hash_reputation,
            sni_whitelist,
            lineage_rules,
            path_rules,
            user_dirs,
        }
    }

    /// Refills the per-pass budgets.
    pub fn reset_budget(&mut self)
        requires
            old(self).wf(),
        ensures
            final(self).wf(),
            final(self).same_config(old(self)),
            final(self)@ == (ScorerView {
                verify_budget: VERIFY_BUDGET_PER_PASS,
                dll_check_budget: DLL_CHECK_BUDGET_PER_PASS,
                ..old(self)@
            }),
    {
        self.verify_budget = VERIFY_BUDGET_PER_PASS;
        self.dll_check_budget = DLL_CHECK_BUDGET_PER_PASS;
    }

    /// Clears the reputation cache's changed flag; says whether its entries
    /// (see [`SecurityScorer::reputation`]) should be saved.
    pub fn flush(&mut self) -> (save: bool)
        requires
            old(self).wf(),
        ensures
            final(self).wf(),
            final(self).same_config(old(self)),
            save == old(self)@.reputation.dirty,
            final(self)@ == (ScorerView {
                reputation: RepView { dirty: false, ..old(self)@.reputation },
                ..old(self)@
            }),
    {
        self.hash_reputation.flush()
    }

    /// The reputation cache.
    pub fn reputation(&self) -> (r: &HashReputation)
        requires
            self.wf(),
        ensures
            r@ == self@.reputation,
            r.wf(),
    {
        &self.hash_reputation
    }

    /// Whether a score for `proc` is cached, so that scoring it needs no
    /// fresh look at its file.
    pub fn has_cached(&self, proc: &ProcessInfo) -> (b: bool)
        requires
            self.wf(),
        ensures
            b == cache_lookup(self@.cache, cache_key_of(*proc)).is_some(),
    {
        let key = cache_key(proc);
        self.cache.contains(key.as_str())
    }

    /// Whether the next scoring runs a DLL check (the per-pass budget is
    /// not spent).
    pub fn dll_check_due(&self) -> (b: bool)
        ensures
            b == (self@.dll_check_budget > 0),
    {
        self.dll_check_budget > 0
    }

    /// Drops cached scores without a final signature verdict that are
    /// older than [`CACHE_MAX_AGE_MS`] at `now_ms`.
    pub fn evict_expired(&mut self, now_ms: u64)
        requires
            old(self).wf(),
        ensures
            final(self).wf(),
            final(self).same_config(old(self)),
            final(self)@ == (ScorerView {
                cache: keep(old(self)@.cache, fresh_at(now_ms, CACHE_MAX_AGE_MS)),
                ..old(self)@
            }),
    {
        proof {
            lemma_keep_entries_ok(self@.cache, fresh_at(now_ms, CACHE_MAX_AGE_MS));
        }
        self.cache.evict_expired(now_ms, CACHE_MAX_AGE_MS);
    }

    /// Drops the cached scores of processes not in `alive` (pairs of pid and
    /// start time); a key that does not parse stays.
    pub fn invalidate_dead(&mut self, alive: &[(u32, u64)])
        requires
            old(self).wf(),
        ensures
            final(self).wf(),
            final(self).same_config(old(self)),
            final(self)@ == (ScorerView { cache: keep(old(self)@.cache, names_alive(alive@)), ..old(self)@ }),
    {
        proof {
            lemma_keep_entries_ok(self@.cache, names_alive(alive@));
        }
        self.cache.retain_alive(alive);
    }

    /// Scores `proc`.
    ///
    /// A score cached under the process's key is returned as it is.
    /// Otherwise the signature verdict comes from the reputation cache (with
    /// `content_hash`, the current hash of the executable, if it could be
    /// read), the rules run in order, `dll_factors` (the file-path findings
    /// of the DLL check, run by the caller when
    /// [`SecurityScorer::dll_check_due`]) and `privilege_factor` (the
    /// privilege finding of the token check) join them, and a score with a
    /// final verdict is cached at `now_ms`.  `now_nanos` is
    /// the wall-clock time in nanoseconds since the epoch.
    pub fn score(
        &mut self,
        proc: &ProcessInfo,
        all_procs: &[ProcessInfo],
        port_entries: &[PortEntry],
        flows: &[ProcessFlow],
        dll_factors: Vec<RiskFactor>,
        privilege_factor: Option<RiskFactor>,
        content_hash: Option<&str>,
        now_nanos: u64,
        now_ms: u64,
    ) -> (r: SecurityScore)
        requires
            old(self).wf(),
            forall|i: int| 0 <= i < dll_factors@.len() ==> (#[trigger] dll_factors@[i]).category == RiskCategory::FilePath,
            privilege_factor matches Some(f) ==> f.category == RiskCategory::Privilege,
        ensures
            final(self).wf(),
            final(self).same_config(old(self)),
            r@.score == score_value(r@.factors),
            is_system_path_spec(opt_view(proc.exe)) ==> r@.signature == SignatureStatus::Trusted && signature_free(r@.factors),
            match cache_lookup(old(self)@.cache, cache_key_of(*proc)) {
                Some(sv) => r@ == sv && final(self)@ == (ScorerView {
                    cache: cache_touched(old(self)@.cache, cache_key_of(*proc)),
                    ..old(self)@
                }),
                None => fresh_scoring(*old(self), *final(self), *proc, all_procs@, port_entries@, flows@,
                    factor_views(dll_factors@), opt_factor_view(privilege_factor), opt_chars(content_hash), now_nanos, now_ms, r@),
            },
    {
        let ghost pre = *self;
        let ghost dll_v = factor_views(dll_factors@);
        let ghost priv_v = opt_factor_view(privilege_factor);
        let exe_path = crate::process::opt_str(&proc.exe);
        let key = cache_key(proc);
        proof {
            assert forall|i: int| 0 <= i < dll_v.len() implies (#[trigger] dll_v[i]).category == RiskCategory::FilePath by {
                assert(dll_v[i] == dll_factors@[i]@);
            }
            lemma_key_exe(*proc);
            lemma_touched_entries_ok(self@.cache, key@);
            if cache_lookup(self@.cache, key@).is_some() {
                lemma_lookup_entry(self@.cache, key@);
                let c = self@.cache;
                let i = choose|i: int| 0 <= i < c.len() && c[i].0 == key@ && c[i].1.score == cache_lookup(c, key@).unwrap();
                assert(cached_entry_ok(c[i].0, c[i].1));
            }
        }
        match self.cache.get(key.as_str()) {
            Some(cached) => {
                return copy_score(cached);
            },
            None => {},
        }
        let ghost rep0 = self@.reputation;
        let has_exe = exe_path.unicode_len() > 0;
        let is_sys = HashReputation::is_whitelisted(exe_path);
        let cached_sig = if has_exe && !is_sys {
            self.hash_reputation.get_cached_sig(exe_path, content_hash)
        } else {
            None
        };
        let sig_status = if is_sys {
            SignatureStatus::Trusted
        } else if let Some(c) = cached_sig {
            c
        } else if self.verify_budget > 0 {
            self.verify_budget = self.verify_budget - 1;
            verify_signature(exe_path)
        } else {
            SignatureStatus::Unknown
        };
        let mut factors = base_factors_of(proc, all_procs, port_entries, sig_status);
        if self.dll_check_budget > 0 {
            self.dll_check_budget = self.dll_check_budget - 1;
            append_factors(&mut factors, dll_factors);
        } else {
            assert(factor_views(factors@) =~= factor_views(factors@) + Seq::<FactorSpec>::empty());
        }
        push_opt(&mut factors, privilege_factor);
        let ghost rep1 = self@.reputation;
        let mut hash_part: Vec<RiskFactor> = Vec::new();
        assert(factor_views(hash_part@) =~= Seq::<FactorSpec>::empty());
        if has_exe {
            let records = sig_status == SignatureStatus::Trusted || sig_status == SignatureStatus::Signed
                || sig_status == SignatureStatus::Unsigned;
            if records {
                self.hash_reputation.record(exe_path, sig_status, content_hash, now_nanos / 1_000_000_000);
            }
            push_opt(&mut hash_part, self.hash_reputation.check_hash(exe_path));
        }
        append_factors(&mut factors, hash_part);
        let whitelist: Option<&SniWhitelist> = match &self.sni_whitelist {
            Some(w) => Some(w),
            None => None,
        };
        let tail = tail_factors_of(proc, flows, whitelist, now_nanos, self.lineage_rules.as_slice(), &self.user_dirs,
            self.path_rules.as_slice(), sig_status);
        append_factors(&mut factors, tail);
        proof {
            if is_system_path_spec(opt_view(proc.exe)) {
                lemma_fresh_signature_free(pre, *proc, all_procs@, port_entries@, flows@, dll_v, priv_v,
                    opt_chars(content_hash), now_nanos, self@.reputation);
            }
        }
        let score = score_of(&factors);
        let result = SecurityScore { score, factors, signature: sig_status };
        let is_final = sig_status == SignatureStatus::Trusted || sig_status == SignatureStatus::Signed
            || sig_status == SignatureStatus::Unsigned || sig_status == SignatureStatus::Revoked;
        if is_final {
            let stored = copy_score(&result);
            proof {
                lemma_inserted_entries_ok(self@.cache, key@,
                    CacheEntryView { score: stored@, created_at: now_ms, signature_cached: true });
            }
            self.cache.insert(key, stored, true, now_ms);
        }
        result
    }
}


// ---------------------------------------------------------------------------
// Laws
// ---------------------------------------------------------------------------
proof fn lemma_push_new_key<V>(s: Seq<(Seq<char>, V)>, k: Seq<char>, v: V)
    requires
        unique_keys(s),
        !akeys(s).contains(k),
    ensures
        unique_keys(s.push((k, v))),
        akeys(s.push((k, v))).index_of(k) == s.len(),
        akeys(s.push((k, v))).contains(k),
{
    let t = s.push((k, v));
    assert(akeys(t) =~= akeys(s).push(k));
    lemma_index_of_unique(t, s.len() as int);
}

/// A score stored in the cache is what a lookup of its key gives back.
pub proof fn law_score_cache_read_back(s: Seq<(Seq<char>, CacheEntryView)>, k: Seq<char>, e: CacheEntryView)
    requires
        unique_keys(s),
    ensures
        cache_lookup(cache_inserted(s, k, e), k) == Some(e.score),
{
    if akeys(s).contains(k) {
        let i = akeys(s).index_of(k);
        let t = s.update(i, (k, e));
        assert(akeys(s)[i] == k);
        assert(akeys(t) =~= akeys(s));
        lemma_index_of_unique(t, i);
    } else if s.len() >= SCORE_CACHE_MAX_ENTRIES {
        let d = s.drop_first();
        assert(akeys(d) =~= akeys(s).drop_first());
        assert(!akeys(d).contains(k)) by {
            if akeys(d).contains(k) {
                let j = akeys(d).index_of(k);
                assert(akeys(s)[j + 1] == k);
            }
        }
        lemma_push_new_key(d, k, e);
    } else {
        lemma_push_new_key(s, k, e);
    }
}

/// Storing a score never grows the cache past [`SCORE_CACHE_MAX_ENTRIES`]
/// entries.
pub proof fn law_score_cache_bounded(s: Seq<(Seq<char>, CacheEntryView)>, k: Seq<char>, e: CacheEntryView)
    requires
        s.len() <= SCORE_CACHE_MAX_ENTRIES,
    ensures
        cache_inserted(s, k, e).len() <= SCORE_CACHE_MAX_ENTRIES,
{
}

/// A score lies between 0 and 100: 100 without weight, 0 once the weights
/// reach 100.
pub proof fn law_score_range(fs: Seq<FactorSpec>)
    ensures
        score_value(fs) <= 100,
        total_weight(fs) == 0 ==> score_value(fs) == 100,
        total_weight(fs) >= 100 ==> score_value(fs) == 0,
{
}


/// A lookup changes only the order of use: every key keeps its cached score.
pub proof fn law_lookup_keeps_scores(s: Seq<(Seq<char>, CacheEntryView)>, touched: Seq<char>, k: Seq<char>)
    requires
        unique_keys(s),
    ensures
        cache_lookup(cache_touched(s, touched), k) == cache_lookup(s, k),
        cache_touched(s, touched).len() == s.len(),
{
    if akeys(s).contains(touched) {
        let i = akeys(s).index_of(touched);
        assert(akeys(s)[i] == touched);
        let t = s.remove(i).push(s[i]);
        assert(akeys(t) =~= akeys(s).remove(i).push(s[i].0));
        assert(unique_keys(t)) by {
            assert forall|a: int, b: int| 0 <= a < t.len() && 0 <= b < t.len() && a != b implies akeys(t)[a] != akeys(t)[b] by {
                let a0 = if a == t.len() - 1 { i } else if a < i { a } else { a + 1 };
                let b0 = if b == t.len() - 1 { i } else if b < i { b } else { b + 1 };
                assert(akeys(t)[a] == akeys(s)[a0]);
                assert(akeys(t)[b] == akeys(s)[b0]);
            }
        }
        if akeys(s).contains(k) {
            let j = akeys(s).index_of(k);
            assert(akeys(s)[j] == k);
            let jt = if j == i { t.len() - 1 } else if j < i { j } else { j - 1 };
            assert(t[jt] == s[j]);
            lemma_index_of_unique(t, jt);
            lemma_index_of_unique(s, j);
        } else {
            if akeys(t).contains(k) {
                let jt = akeys(t).index_of(k);
                let j0 = if jt == t.len() - 1 { i } else if jt < i { jt } else { jt + 1 };
                assert(akeys(s)[j0] == k);
            }
        }
    }
}

/// A digit written for `d < 10` is a decimal digit of value `d`.
proof fn lemma_digit_char(d: nat)
    requires
        d < 10,
    ensures
        is_digit(crate::text::digit_char(d)),
        (crate::text::digit_char(d) as nat) == 48 + d,
{
    let c = crate::text::digit_char(d);
    assert((c as u32) == 48 + d);
}

/// The decimal notation of a number is a non-empty run of digits whose
/// value is the number.
proof fn lemma_decimal_digits(n: nat)
    ensures
        decimal(n).len() > 0,
        all_digits(decimal(n)),
        digits_value(decimal(n)) == n,
    decreases n,
{
    if n < 10 {
        lemma_digit_char(n);
        let d = decimal(n);
        assert(d.drop_last() =~= Seq::<char>::empty());
        assert(d.last() == crate::text::digit_char(n));
        assert(digits_value(d) == digits_value(d.drop_last()) * 10 + ((d.last() as nat) - 48) as nat);
    } else {
        lemma_decimal_digits(n / 10);
        lemma_digit_char(n % 10);
        let d = decimal(n);
        assert(d.drop_last() =~= decimal(n / 10));
        assert forall|i: int| 0 <= i < d.len() implies is_digit(#[trigger] d[i]) by {
            if i < d.len() - 1 {
                assert(d[i] == decimal(n / 10)[i]);
            }
        }
        assert(d.last() == crate::text::digit_char(n % 10));
        assert(digits_value(d) == (n / 10) * 10 + n % 10);
        assert((n / 10) * 10 + n % 10 == n) by (nonlinear_arith);
    }
}

/// The first `c` at or after `i` is at `m` when none comes between.
proof fn lemma_find_char_at(s: Seq<char>, i: int, m: int, c: char)
    requires
        0 <= i <= m < s.len(),
        s[m] == c,
        forall|k: int| i <= k < m ==> s[k] != c,
    ensures
        find_char_from(s, i, c) == Some(m),
    decreases m - i,
{
    if i < m {
        lemma_find_char_at(s, i + 1, m, c);
    }
}

/// Reading the process identity back from a cache key gives the pid and
/// start time it was made from; so the cached score of a process whose pid
/// was reused by a later process is never taken for the later one's.
pub proof fn law_cache_key_identity(p: ProcessInfo)
    ensures
        alive_key(cache_key_of(p)) == Some((p.pid, p.start_time)),
{
    let a = decimal(p.pid as nat);
    let b = decimal(p.start_time as nat);
    let e = unicode_lower(opt_view(p.exe));
    let key = cache_key_of(p);
    lemma_decimal_digits(p.pid as nat);
    lemma_decimal_digits(p.start_time as nat);
    reveal_strlit(":");
    assert(key =~= a + seq![':'] + (b + seq![':'] + e));
    assert forall|k: int| 0 <= k < a.len() implies key[k] != ':' by {
        assert(key[k] == a[k]);
        assert(is_digit(a[k]));
    }
    lemma_find_char_at(key, 0, a.len() as int, ':');
    let rest = key.subrange(a.len() as int + 1, key.len() as int);
    assert(rest =~= b + seq![':'] + e);
    assert forall|k: int| 0 <= k < b.len() implies rest[k] != ':' by {
        assert(rest[k] == b[k]);
        assert(is_digit(b[k]));
    }
    lemma_find_char_at(rest, 0, b.len() as int, ':');
    assert(key.take(a.len() as int) =~= a);
    assert(rest.take(b.len() as int) =~= b);
    assert(unsigned_digits(a) == a);
    assert(unsigned_digits(b) == b);
}

/// The lower-cased executable path a cache key ends with: the text after
/// its second `:`.
pub open spec fn key_exe(key: Seq<char>) -> Seq<char> {
    match find_char_from(key, 0, ':') {
        None => Seq::empty(),
        Some(i) => {
            let rest = key.subrange(i + 1, key.len() as int);
            match find_char_from(rest, 0, ':') {
                Some(j) => rest.subrange(j + 1, rest.len() as int),
                None => Seq::empty(),
            }
        },
    }
}

/// A lower-cased path in a system directory (what
/// [`is_system_path_spec`] checks after lowering).
pub open spec fn system_lowered(l: Seq<char>) -> bool {
    starts_with(l, "c:\\windows\\system32\\"@) || starts_with(l, "c:\\windows\\syswow64\\"@)
        || starts_with(l, "c:\\windows\\winsxs\\"@)
}

/// What every cached score satisfies: its score is 100 less the sum of its
/// factor weights (at least 0), and the score of an executable in a system
/// directory carries the trusted verdict and no signature factor.
pub open spec fn cached_entry_ok(key: Seq<char>, e: CacheEntryView) -> bool {
    &&& e.score.score == score_value(e.score.factors)
    &&& system_lowered(key_exe(key)) ==> e.score.signature == SignatureStatus::Trusted && signature_free(e.score.factors)
}

/// Every entry of the cache satisfies [`cached_entry_ok`].
pub open spec fn cache_entries_ok(s: Seq<(Seq<char>, CacheEntryView)>) -> bool {
    forall|i: int| 0 <= i < s.len() ==> #[trigger] cached_entry_ok(s[i].0, s[i].1)
}

/// The key of a process ends with its lower-cased executable path.
pub proof fn lemma_key_exe(p: ProcessInfo)
    ensures
        key_exe(cache_key_of(p)) == unicode_lower(opt_view(p.exe)),
        system_lowered(key_exe(cache_key_of(p))) == is_system_path_spec(opt_view(p.exe)),
{
    let a = decimal(p.pid as nat);
    let b = decimal(p.start_time as nat);
    let e = unicode_lower(opt_view(p.exe));
    let key = cache_key_of(p);
    lemma_decimal_digits(p.pid as nat);
    lemma_decimal_digits(p.start_time as nat);
    reveal_strlit(":");
    assert(key =~= a + seq![':'] + (b + seq![':'] + e));
    assert forall|k: int| 0 <= k < a.len() implies key[k] != ':' by {
        assert(key[k] == a[k]);
        assert(is_digit(a[k]));
    }
    lemma_find_char_at(key, 0, a.len() as int, ':');
    let rest = key.subrange(a.len() as int + 1, key.len() as int);
    assert(rest =~= b + seq![':'] + e);
    assert forall|k: int| 0 <= k < b.len() implies rest[k] != ':' by {
        assert(rest[k] == b[k]);
        assert(is_digit(b[k]));
    }
    lemma_find_char_at(rest, 0, b.len() as int, ':');
    assert(rest.subrange(b.len() as int + 1, rest.len() as int) =~= e);
}

proof fn lemma_keep_entries_ok(s: Seq<(Seq<char>, CacheEntryView)>, f: spec_fn((Seq<char>, CacheEntryView)) -> bool)
    requires
        cache_entries_ok(s),
    ensures
        cache_entries_ok(keep(s, f)),
    decreases s.len(),
{
    if s.len() > 0 {
        let d = s.drop_last();
        assert forall|i: int| 0 <= i < d.len() implies #[trigger] cached_entry_ok(d[i].0, d[i].1) by {
            assert(d[i] == s[i]);
        }
        lemma_keep_entries_ok(d, f);
        if f(s.last()) {
            let r = keep(d, f);
            assert forall|i: int| 0 <= i < r.push(s.last()).len() implies
                #[trigger] cached_entry_ok(r.push(s.last())[i].0, r.push(s.last())[i].1) by {
                if i == r.len() {
                    assert(cached_entry_ok(s[s.len() - 1].0, s[s.len() - 1].1));
                } else {
                    assert(r.push(s.last())[i] == r[i]);
                }
            }
        }
    }
}

proof fn lemma_touched_entries_ok(s: Seq<(Seq<char>, CacheEntryView)>, k: Seq<char>)
    requires
        cache_entries_ok(s),
    ensures
        cache_entries_ok(cache_touched(s, k)),
{
    if akeys(s).contains(k) {
        let i = akeys(s).index_of(k);
        let t = s.remove(i).push(s[i]);
        assert forall|j: int| 0 <= j < t.len() implies #[trigger] cached_entry_ok(t[j].0, t[j].1) by {
            if j == t.len() - 1 {
                assert(cached_entry_ok(s[i].0, s[i].1));
            } else if j < i {
                assert(t[j] == s[j]);
            } else {
                assert(t[j] == s[j + 1]);
            }
        }
    }
}

proof fn lemma_inserted_entries_ok(s: Seq<(Seq<char>, CacheEntryView)>, k: Seq<char>, e: CacheEntryView)
    requires
        cache_entries_ok(s),
        cached_entry_ok(k, e),
    ensures
        cache_entries_ok(cache_inserted(s, k, e)),
{
    let t = cache_inserted(s, k, e);
    if akeys(s).contains(k) {
        let i = akeys(s).index_of(k);
        assert forall|j: int| 0 <= j < t.len() implies #[trigger] cached_entry_ok(t[j].0, t[j].1) by {
            if j != i {
                assert(t[j] == s[j]);
            }
        }
    } else if s.len() >= SCORE_CACHE_MAX_ENTRIES {
        assert forall|j: int| 0 <= j < t.len() implies #[trigger] cached_entry_ok(t[j].0, t[j].1) by {
            if j < t.len() - 1 {
                assert(t[j] == s[j + 1]);
            }
        }
    } else {
        assert forall|j: int| 0 <= j < t.len() implies #[trigger] cached_entry_ok(t[j].0, t[j].1) by {
            if j < t.len() - 1 {
                assert(t[j] == s[j]);
            }
        }
    }
}

/// A lookup finds an entry of the cache under the key looked up.
proof fn lemma_lookup_entry(s: Seq<(Seq<char>, CacheEntryView)>, k: Seq<char>)
    requires
        cache_lookup(s, k).is_some(),
    ensures
        exists|i: int| 0 <= i < s.len() && s[i].0 == k && s[i].1.score == cache_lookup(s, k).unwrap(),
{
    let i = akeys(s).index_of(k);
    assert(akeys(s)[i] == k);
    assert(s[i].0 == k);
}

/// A fresh score with a final signature verdict is what the next scoring
/// of the same process instance (same pid, start time and lower-cased
/// executable path) returns: its key then finds it in the cache, and
/// [`SecurityScorer::score`] returns a cached score unchanged, leaving the
/// budgets and the reputation cache as they are.
pub proof fn law_rescore_returns_cached(
    pre: SecurityScorer,
    post: SecurityScorer,
    p: ProcessInfo,
    q: ProcessInfo,
    all: Seq<ProcessInfo>,
    ports: Seq<PortEntry>,
    flows: Seq<ProcessFlow>,
    dll: Seq<FactorSpec>,
    privilege: Option<FactorSpec>,
    hash: Option<Seq<char>>,
    now_nanos: u64,
    now_ms: u64,
    r: ScoreView,
)
    requires
        pre.wf(),
        cache_lookup(pre@.cache, cache_key_of(p)).is_none(),
        fresh_scoring(pre, post, p, all, ports, flows, dll, privilege, hash, now_nanos, now_ms, r),
        verdict_final(r.signature),
        q.pid == p.pid,
        q.start_time == p.start_time,
        unicode_lower(opt_view(q.exe)) == unicode_lower(opt_view(p.exe)),
    ensures
        cache_key_of(q) == cache_key_of(p),
        cache_lookup(post@.cache, cache_key_of(q)) == Some(r),
{
    pre.lemma_wf_cache();
    law_score_cache_read_back(pre@.cache, cache_key_of(p),
        CacheEntryView { score: r, created_at: now_ms, signature_cached: true });
}

/// No factor of `fs` is of the signature category.
pub open spec fn signature_free(fs: Seq<FactorSpec>) -> bool {
    forall|i: int| 0 <= i < fs.len() ==> (#[trigger] fs[i]).category != RiskCategory::Signature
}

proof fn lemma_free_add(a: Seq<FactorSpec>, b: Seq<FactorSpec>)
    requires
        signature_free(a),
        signature_free(b),
    ensures
        signature_free(a + b),
{
    assert forall|i: int| 0 <= i < (a + b).len() implies (#[trigger] (a + b)[i]).category != RiskCategory::Signature by {
        if i < a.len() {
            assert((a + b)[i] == a[i]);
        } else {
            assert((a + b)[i] == b[i - a.len()]);
        }
    }
}

#[verifier::spinoff_prover]
proof fn lemma_base_signature_free(p: ProcessInfo, all: Seq<ProcessInfo>, ports: Seq<PortEntry>)
    ensures
        signature_free(base_factors(p, all, ports, SignatureStatus::Trusted)),
{
    let sig = SignatureStatus::Trusted;
    let s0 = opt_seq(signature_factor(sig));
    let s1 = parent_chain_factors(p, all);
    let s2 = path_factors(exe_opt(p));
    let s3 = command_line_factors(views(p.cmd@));
    let s4 = network_factors(p.pid, sig, ports);
    let s5 = opt_seq(name_spoofing(p.name@));
    let s6 = opt_seq(resource_anomaly(p));
    let s7 = opt_seq(child_explosion(p, all));
    let s8 = opt_seq(privilege_escalation(p));
    let s9 = opt_seq(svchost_integrity(p, all));
    let s10 = opt_seq(name_path_mismatch(p));
    assert(signature_free(s0));
    assert(signature_free(s1));
    assert(signature_free(s2));
    law_command_line_factors(views(p.cmd@));
    assert(signature_free(s3));
    assert(signature_free(s4));
    assert(signature_free(s5));
    assert(signature_free(s6));
    assert(signature_free(s7));
    assert(signature_free(s8));
    assert(signature_free(s9));
    assert(signature_free(s10));
    lemma_free_add(s0, s1);
    lemma_free_add(s0 + s1, s2);
    lemma_free_add(s0 + s1 + s2, s3);
    lemma_free_add(s0 + s1 + s2 + s3, s4);
    lemma_free_add(s0 + s1 + s2 + s3 + s4, s5);
    lemma_free_add(s0 + s1 + s2 + s3 + s4 + s5, s6);
    lemma_free_add(s0 + s1 + s2 + s3 + s4 + s5 + s6, s7);
    lemma_free_add(s0 + s1 + s2 + s3 + s4 + s5 + s6 + s7, s8);
    lemma_free_add(s0 + s1 + s2 + s3 + s4 + s5 + s6 + s7 + s8, s9);
    lemma_free_add(s0 + s1 + s2 + s3 + s4 + s5 + s6 + s7 + s8 + s9, s10);
}

proof fn lemma_tail_signature_free(
    p: ProcessInfo,
    flows: Seq<ProcessFlow>,
    whitelist: Option<SniWhitelist>,
    now_nanos: u64,
    lineage: Seq<LineageRule>,
    dirs: UserDirs,
    rules: Seq<PathRule>,
)
    ensures
        signature_free(tail_factors(p, flows, whitelist, now_nanos, lineage, dirs, rules, SignatureStatus::Trusted)),
{
    let hits = suspicious_path_factors(seq![p], dirs, rules);
    let t0 = opt_seq(flow_risk(flows_of(flows, p.pid, p.start_time), whitelist, now_nanos));
    let t1 = lineage_factors(seq![p], lineage);
    let t2 = opt_seq(cooperation_factor(SignatureStatus::Trusted, hits.len() > 0));
    assert(seq![p].drop_last() =~= Seq::<ProcessInfo>::empty());
    reveal_with_fuel(lineage_factors, 2);
    reveal_with_fuel(suspicious_path_factors, 2);
    assert(signature_free(t0));
    assert(signature_free(t1));
    assert(signature_free(hits));
    assert(signature_free(t2));
    lemma_free_add(t0, t1);
    lemma_free_add(t0 + t1, hits);
    lemma_free_add(t0 + t1 + hits, t2);
}

/// The factors that a fresh scoring of an executable in a system directory
/// gives carry no signature factor, when the loaded-module factors handed
/// in are file-path factors and the token factor is a privilege factor.
proof fn lemma_fresh_signature_free(
    s: SecurityScorer,
    p: ProcessInfo,
    all: Seq<ProcessInfo>,
    ports: Seq<PortEntry>,
    flows: Seq<ProcessFlow>,
    dll: Seq<FactorSpec>,
    privilege: Option<FactorSpec>,
    hash: Option<Seq<char>>,
    now_nanos: u64,
    rep_after: RepView,
)
    requires
        is_system_path_spec(opt_view(p.exe)),
        forall|i: int| 0 <= i < dll.len() ==> (#[trigger] dll[i]).category == RiskCategory::FilePath,
        privilege matches Some(f) ==> f.category == RiskCategory::Privilege,
    ensures
        signature_free(fresh_factors(s, p, all, ports, flows, dll, privilege, hash, now_nanos, rep_after)),
{
    let exe = opt_view(p.exe);
    let sig = signature_choice(s@.reputation, exe, hash);
    assert(sig == SignatureStatus::Trusted);
    let f0 = base_factors(p, all, ports, sig);
    let f1 = if s@.dll_check_budget > 0 { dll } else { Seq::empty() };
    let f2 = opt_seq(privilege);
    let f3 = if exe.len() > 0 { opt_seq(hash_check(rep_after, exe)) } else { Seq::empty() };
    let f4 = tail_factors(p, flows, s.whitelist(), now_nanos, s.lineage_rules_spec(), s.user_dirs_spec(), s.path_rules_spec(), sig);
    lemma_base_signature_free(p, all, ports);
    lemma_tail_signature_free(p, flows, s.whitelist(), now_nanos, s.lineage_rules_spec(), s.user_dirs_spec(), s.path_rules_spec());
    assert(signature_free(f1));
    assert(signature_free(f2));
    assert(signature_free(f3));
    lemma_free_add(f0, f1);
    lemma_free_add(f0 + f1, f2);
    lemma_free_add(f0 + f1 + f2, f3);
    lemma_free_add(f0 + f1 + f2 + f3, f4);
}

/// Every entry of `t` under a key other than `skip` is an entry of `s`.
spec fn entries_from(t: Seq<(Seq<char>, CacheEntryView)>, s: Seq<(Seq<char>, CacheEntryView)>, skip: Seq<char>) -> bool {
    forall|i: int| 0 <= i < t.len() && t[i].0 != skip ==> s.contains(#[trigger] t[i])
}

proof fn lemma_entries_from_lookup(
    s: Seq<(Seq<char>, CacheEntryView)>,
    t: Seq<(Seq<char>, CacheEntryView)>,
    skip: Seq<char>,
    k: Seq<char>,
)
    requires
        unique_keys(s),
        entries_from(t, s, skip),
        k != skip,
        cache_lookup(t, k).is_some(),
    ensures
        cache_lookup(s, k) == cache_lookup(t, k),
{
    let i = akeys(t).index_of(k);
    assert(akeys(t)[i] == k);
    assert(t[i].0 == k);
    assert(s.contains(t[i]));
    let j = choose|j: int| 0 <= j < s.len() && s[j] == t[i];
    lemma_index_of_unique(s, j);
}

proof fn lemma_keep_entries_from(s: Seq<(Seq<char>, CacheEntryView)>, f: spec_fn((Seq<char>, CacheEntryView)) -> bool, skip: Seq<char>)
    ensures
        entries_from(keep(s, f), s, skip),
    decreases s.len(),
{
    if s.len() > 0 {
        let d = s.drop_last();
        lemma_keep_entries_from(d, f, skip);
        let r = keep(d, f);
        let t = keep(s, f);
        assert forall|i: int| 0 <= i < t.len() && t[i].0 != skip implies s.contains(#[trigger] t[i]) by {
            if f(s.last()) && i == t.len() - 1 {
                assert(s[s.len() - 1] == t[i]);
            } else {
                assert(t[i] == r[i]);
                assert(d.contains(r[i]));
                let j = choose|j: int| 0 <= j < d.len() && d[j] == r[i];
                assert(s[j] == d[j]);
            }
        }
    }
}

/// Dropping entries of the cache (the expired ones, or those of processes
/// no longer alive) leaves the cached score of every key that stays as it
/// was.
pub proof fn law_dropping_keeps_cached_scores(
    s: Seq<(Seq<char>, CacheEntryView)>,
    f: spec_fn((Seq<char>, CacheEntryView)) -> bool,
    k: Seq<char>,
)
    requires
        unique_keys(s),
        cache_lookup(keep(s, f), k).is_some(),
    ensures
        cache_lookup(keep(s, f), k) == cache_lookup(s, k),
{
    let skip = k + seq!['x'];
    assert(k != skip) by {
        assert(k.len() != skip.len());
    }
    lemma_keep_entries_from(s, f, skip);
    lemma_entries_from_lookup(s, keep(s, f), skip, k);
}

/// A scoring leaves the cached score of every key that stays in the cache
/// as it was: a cache hit only reorders the entries, and a fresh scoring
/// stores the new score under the scored process's own key, which was not
/// in the cache, possibly dropping the least recently used entry.
pub proof fn law_score_keeps_cached_scores(
    pre: SecurityScorer,
    post: SecurityScorer,
    p: ProcessInfo,
    all: Seq<ProcessInfo>,
    ports: Seq<PortEntry>,
    flows: Seq<ProcessFlow>,
    dll: Seq<FactorSpec>,
    privilege: Option<FactorSpec>,
    hash: Option<Seq<char>>,
    now_nanos: u64,
    now_ms: u64,
    r: ScoreView,
    k: Seq<char>,
)
    requires
        pre.wf(),
        post.wf(),
        match cache_lookup(pre@.cache, cache_key_of(p)) {
            Some(sv) => r == sv && post@ == (ScorerView { cache: cache_touched(pre@.cache, cache_key_of(p)), ..pre@ }),
            None => fresh_scoring(pre, post, p, all, ports, flows, dll, privilege, hash, now_nanos, now_ms, r),
        },
        cache_lookup(pre@.cache, k).is_some(),
        cache_lookup(post@.cache, k).is_some(),
    ensures
        cache_lookup(post@.cache, k) == cache_lookup(pre@.cache, k),
{
    pre.lemma_wf_cache();
    post.lemma_wf_cache();
    let s = pre@.cache;
    let kp = cache_key_of(p);
    match cache_lookup(s, kp) {
        Some(sv) => {
            law_lookup_keeps_scores(s, kp, k);
        },
        None => {
            if post@.cache != s {
                let e = CacheEntryView { score: r, created_at: now_ms, signature_cached: true };
                let t = cache_inserted(s, kp, e);
                assert(post@.cache == t);
                assert(!akeys(s).contains(kp));
                assert(k != kp);
                assert forall|i: int| 0 <= i < t.len() && t[i].0 != kp implies s.contains(#[trigger] t[i]) by {
                    if s.len() >= SCORE_CACHE_MAX_ENTRIES {
                        assert(t[i] == s[i + 1]);
                    } else {
                        assert(t[i] == s[i]);
                    }
                }
                lemma_entries_from_lookup(s, t, kp, k);
            }
        },
    }
}

/// What one call of [`SecurityScorer::score`] promises of the scorer before
/// and after it and of its result.
pub open spec fn score_call(
    pre: SecurityScorer,
    post: SecurityScorer,
    p: ProcessInfo,
    all: Seq<ProcessInfo>,
    ports: Seq<PortEntry>,
    flows: Seq<ProcessFlow>,
    dll: Seq<FactorSpec>,
    privilege: Option<FactorSpec>,
    hash: Option<Seq<char>>,
    now_nanos: u64,
    now_ms: u64,
    r: ScoreView,
) -> bool {
    &&& pre.wf()
    &&& post.wf()
    &&& match cache_lookup(pre@.cache, cache_key_of(p)) {
        Some(sv) => r == sv && post@ == (ScorerView { cache: cache_touched(pre@.cache, cache_key_of(p)), ..pre@ }),
        None => fresh_scoring(pre, post, p, all, ports, flows, dll, privilege, hash, now_nanos, now_ms, r),
    }
}

/// One call of a method of the scorer that changes it: a scoring (of any
/// process, with any processes, ports, flows and clocks), dropping the
/// expired scores, dropping the scores of dead processes, or a call that
/// leaves the cache as it is (refilling the budgets, flushing).
pub open spec fn scorer_step(pre: SecurityScorer, post: SecurityScorer) -> bool {
    &&& pre.wf()
    &&& post.wf()
    &&& {
        ||| exists|p: ProcessInfo, all: Seq<ProcessInfo>, ports: Seq<PortEntry>, flows: Seq<ProcessFlow>,
            dll: Seq<FactorSpec>, privilege: Option<FactorSpec>, hash: Option<Seq<char>>, now_nanos: u64, now_ms: u64,
            r: ScoreView| #[trigger] score_call(pre, post, p, all, ports, flows, dll, privilege, hash, now_nanos, now_ms, r)
        ||| exists|f: spec_fn((Seq<char>, CacheEntryView)) -> bool| post@.cache == #[trigger] keep(pre@.cache, f)
        ||| post@.cache == pre@.cache
    }
}

/// Across any run of scorer calls, a key that stays in the cache keeps its
/// cached score: whatever processes, ports and flows the later scorings
/// are given, the score stored for a process instance is the one that a
/// scoring of it returns (see [`SecurityScorer::score`]'s cache branch).
pub proof fn law_cached_score_survives_calls(run: Seq<SecurityScorer>, k: Seq<char>)
    requires
        run.len() > 0,
        forall|i: int| 0 <= i < run.len() - 1 ==> #[trigger] scorer_step(run[i], run[i + 1]),
        forall|i: int| 0 <= i < run.len() ==> (#[trigger] cache_lookup(run[i]@.cache, k)).is_some(),
    ensures
        cache_lookup(run.last()@.cache, k) == cache_lookup(run[0]@.cache, k),
    decreases run.len(),
{
    if run.len() > 1 {
        let d = run.drop_last();
        assert forall|i: int| 0 <= i < d.len() - 1 implies #[trigger] scorer_step(d[i], d[i + 1]) by {
            assert(scorer_step(run[i], run[i + 1]));
        }
        assert forall|i: int| 0 <= i < d.len() implies (#[trigger] cache_lookup(d[i]@.cache, k)).is_some() by {
            assert(cache_lookup(run[i]@.cache, k).is_some());
        }
        law_cached_score_survives_calls(d, k);
        let n = run.len() - 1;
        let pre = run[n - 1];
        let post = run[n];
        assert(scorer_step(run[n - 1], run[(n - 1) + 1]));
        assert(scorer_step(pre, post));
        assert(cache_lookup(pre@.cache, k).is_some());
        assert(cache_lookup(post@.cache, k).is_some());
        pre.lemma_wf_cache();
        if exists|p: ProcessInfo, all: Seq<ProcessInfo>, ports: Seq<PortEntry>, flows: Seq<ProcessFlow>,
            dll: Seq<FactorSpec>, privilege: Option<FactorSpec>, hash: Option<Seq<char>>, now_nanos: u64, now_ms: u64,
            r: ScoreView| #[trigger] score_call(pre, post, p, all, ports, flows, dll, privilege, hash, now_nanos, now_ms, r) {
            let (p, all, ports, flows, dll, privilege, hash, now_nanos, now_ms, r) = choose|p: ProcessInfo,
                all: Seq<ProcessInfo>, ports: Seq<PortEntry>, flows: Seq<ProcessFlow>, dll: Seq<FactorSpec>,
                privilege: Option<FactorSpec>, hash: Option<Seq<char>>, now_nanos: u64, now_ms: u64, r: ScoreView|
                #[trigger] score_call(pre, post, p, all, ports, flows, dll, privilege, hash, now_nanos, now_ms, r);
            law_score_keeps_cached_scores(pre, post, p, all, ports, flows, dll, privilege, hash, now_nanos, now_ms, r, k);
        } else if exists|f: spec_fn((Seq<char>, CacheEntryView)) -> bool| post@.cache == #[trigger] keep(pre@.cache, f) {
            let f = choose|f: spec_fn((Seq<char>, CacheEntryView)) -> bool| post@.cache == #[trigger] keep(pre@.cache, f);
            law_dropping_keeps_cached_scores(pre@.cache, f, k);
        }
        assert(run.last() == post);
        assert(d.last() == pre);
        assert(d[0] == run[0]);
    }
}

proof fn lemma_contains_left(a: Seq<FactorSpec>, b: Seq<FactorSpec>, x: FactorSpec)
    requires
        a.contains(x),
    ensures
        (a + b).contains(x),
{
    let i = choose|i: int| 0 <= i < a.len() && a[i] == x;
    assert((a + b)[i] == x);
}

proof fn lemma_contains_right(a: Seq<FactorSpec>, b: Seq<FactorSpec>, x: FactorSpec)
    requires
        b.contains(x),
    ensures
        (a + b).contains(x),
{
    let i = choose|i: int| 0 <= i < b.len() && b[i] == x;
    assert((a + b)[a.len() + i] == x);
}

/// A listening process is penalised by the verdict it was scored with:
/// when a fresh scoring returns the verdict `Unsigned` (resp. `Unknown`)
/// and one of the process's sockets is in the `LISTEN` or `LISTENING`
/// state, the returned factors hold `unsigned_listen` of weight 15 (resp.
/// `unverified_listen` of weight 8).
pub proof fn law_listener_penalised_by_returned_verdict(
    pre: SecurityScorer,
    post: SecurityScorer,
    p: ProcessInfo,
    all: Seq<ProcessInfo>,
    ports: Seq<PortEntry>,
    flows: Seq<ProcessFlow>,
    dll: Seq<FactorSpec>,
    privilege: Option<FactorSpec>,
    hash: Option<Seq<char>>,
    now_nanos: u64,
    now_ms: u64,
    r: ScoreView,
    j: int,
    state: String,
)
    requires
        fresh_scoring(pre, post, p, all, ports, flows, dll, privilege, hash, now_nanos, now_ms, r),
        0 <= j < ports.len(),
        ports[j].pid == p.pid,
        ports[j].state == Some(state),
        state@ == "LISTEN"@ || state@ == "LISTENING"@,
    ensures
        r.signature == SignatureStatus::Unsigned ==> r.factors.contains(
            fspec(RiskCategory::NetworkBehavior, "unsigned_listen"@, 15, "无签名进程监听端口"@)),
        r.signature == SignatureStatus::Unknown ==> r.factors.contains(
            fspec(RiskCategory::NetworkBehavior, "unverified_listen"@, 8, "未验证签名进程监听端口"@)),
{
    let sig = r.signature;
    if sig == SignatureStatus::Unsigned || sig == SignatureStatus::Unknown {
        let x = if sig == SignatureStatus::Unsigned {
            fspec(RiskCategory::NetworkBehavior, "unsigned_listen"@, 15, "无签名进程监听端口"@)
        } else {
            fspec(RiskCategory::NetworkBehavior, "unverified_listen"@, 8, "未验证签名进程监听端口"@)
        };
        assert(listens(p.pid, ports)) by {
            assert(ports[j].pid == p.pid && is_listening(ports[j].state));
        }
        let c2 = opt_factor(listens_on_c2(p.pid, ports), fspec(RiskCategory::NetworkBehavior, "c2_port"@, 30, "监听已知恶意端口"@));
        let un = opt_factor(listens(p.pid, ports) && sig == SignatureStatus::Unsigned,
            fspec(RiskCategory::NetworkBehavior, "unsigned_listen"@, 15, "无签名进程监听端口"@));
        let uv = opt_factor(listens(p.pid, ports) && sig == SignatureStatus::Unknown,
            fspec(RiskCategory::NetworkBehavior, "unverified_listen"@, 8, "未验证签名进程监听端口"@));
        let net = network_factors(p.pid, sig, ports);
        assert(net == c2 + un + uv);
        if sig == SignatureStatus::Unsigned {
            assert(un[0] == x);
            lemma_contains_right(c2, un, x);
            lemma_contains_left(c2 + un, uv, x);
        } else {
            assert(uv[0] == x);
            lemma_contains_right(c2 + un, uv, x);
        }
        let s0 = opt_seq(signature_factor(sig));
        let s1 = parent_chain_factors(p, all);
        let s2 = path_factors(exe_opt(p));
        let s3 = command_line_factors(views(p.cmd@));
        let s5 = opt_seq(name_spoofing(p.name@));
        let s6 = opt_seq(resource_anomaly(p));
        let s7 = opt_seq(child_explosion(p, all));
        let s8 = opt_seq(privilege_escalation(p));
        let s9 = opt_seq(svchost_integrity(p, all));
        let s10 = opt_seq(name_path_mismatch(p));
        lemma_contains_right(s0 + s1 + s2 + s3, net, x);
        lemma_contains_left(s0 + s1 + s2 + s3 + net, s5, x);
        lemma_contains_left(s0 + s1 + s2 + s3 + net + s5, s6, x);
        lemma_contains_left(s0 + s1 + s2 + s3 + net + s5 + s6, s7, x);
        lemma_contains_left(s0 + s1 + s2 + s3 + net + s5 + s6 + s7, s8, x);
        lemma_contains_left(s0 + s1 + s2 + s3 + net + s5 + s6 + s7 + s8, s9, x);
        lemma_contains_left(s0 + s1 + s2 + s3 + net + s5 + s6 + s7 + s8 + s9, s10, x);
        let base = base_factors(p, all, ports, sig);
        assert(base == s0 + s1 + s2 + s3 + net + s5 + s6 + s7 + s8 + s9 + s10);
        let exe = opt_view(p.exe);
        assert(sig == signature_choice(pre@.reputation, exe, hash));
        let f1 = if pre@.dll_check_budget > 0 { dll } else { Seq::empty() };
        let f2 = opt_seq(privilege);
        let f3 = if exe.len() > 0 { opt_seq(hash_check(post@.reputation, exe)) } else { Seq::empty() };
        let f4 = tail_factors(p, flows, pre.whitelist(), now_nanos, pre.lineage_rules_spec(), pre.user_dirs_spec(),
            pre.path_rules_spec(), sig);
        lemma_contains_left(base, f1, x);
        lemma_contains_left(base + f1, f2, x);
        lemma_contains_left(base + f1 + f2, f3, x);
        lemma_contains_left(base + f1 + f2 + f3, f4, x);
        assert(r.factors == base + f1 + f2 + f3 + f4);
    }
}

} // verus!
