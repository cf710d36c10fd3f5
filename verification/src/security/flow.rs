//! Outbound-connection rule: SNI names outside the user's whitelist, and port
//! scans.
use vstd::prelude::*;
use crate::security::behavior::opt_factor_view;
use crate::security::score::{factor_owned, fspec, FactorSpec, RiskCategory, RiskFactor};
use crate::text::{
    chars_of, decimal, lower_chars, push_decimal, split_lines, split_on, starts_with, str_eq,
    trim, trim_end_char, trim_end_char_str, trim_str, unicode_lower, views,
};

verus! {

broadcast use Seq::lemma_push_to_set_commute;

/// Whether `v` holds a string equal to `a`.
pub fn strings_contain(v: &Vec<String>, a: &str) -> (b: bool)
    ensures
        b == views(v@).contains(a@),
{
    let mut j: usize = 0;
    while j < v.len()
        invariant
            j <= v.len(),
            forall|k: int| 0 <= k < j ==> views(v@)[k] != a@,
        decreases v.len() - j,
    {
        if str_eq(v[j].as_str(), a) {
            assert(views(v@)[j as int] == a@);
            return true;
        }
        j += 1;
    }
    false
}

/// Weight of the outbound-connection rule.
pub const R15_WEIGHT: u32 = 30;

/// Distinct remote addresses within the window that count as a port scan.
pub const R15_PORT_SCAN_THRESHOLD: usize = 50;

/// Length of the port-scan window, in seconds.
pub const R15_PORT_SCAN_WINDOW_SECS: u64 = 10;

/// Length of the port-scan window, in nanoseconds.
pub const R15_PORT_SCAN_WINDOW_NANOS: u64 = 10_000_000_000;

/// One outbound connection of a process.  Times are nanoseconds since the
/// Unix epoch.
#[derive(Debug, Clone)]
pub struct ProcessFlow {
    pub pid: u32,
    pub start_time: u64,
    pub remote_addr: String,
    pub dns_name: Option<String>,
    pub last_seen_nanos: u64,
}

/// The normal form of a whitelist line: trimmed, trailing dots removed,
/// trimmed again and lowered.
pub open spec fn whitelist_entry(line: Seq<char>) -> Seq<char> {
    unicode_lower(trim(trim_end_char(trim(line), '.')))
}

/// The line holds a domain (it is neither blank nor a `#` comment).
pub open spec fn whitelist_line_counts(line: Seq<char>) -> bool {
    trim(line).len() > 0 && !starts_with(trim(line), "#"@) && whitelist_entry(line).len() > 0
}

/// The domains that the whitelist file text `content` lists.
pub open spec fn whitelist_domains(content: Seq<char>) -> Set<Seq<char>> {
    Set::new(|d: Seq<char>| exists|i: int| 0 <= i < split_on(content, '\n').len()
        && #[trigger] whitelist_line_counts(split_on(content, '\n')[i])
        && whitelist_entry(split_on(content, '\n')[i]) == d)
}

/// The key under which a domain is looked up: trimmed, trailing dots
/// removed, lowered.
pub open spec fn lookup_key(domain: Seq<char>) -> Seq<char> {
    unicode_lower(trim_end_char(trim(domain), '.'))
}

/// A set of whitelisted domains, each in normal form.
pub struct SniWhitelist {
    domains: Vec<String>,
}

impl SniWhitelist {
    /// The whitelisted domains.
    pub closed spec fn view(&self) -> Set<Seq<char>> {
        views(self.domains@).to_set()
    }

    /// Each domain is held once.
    pub closed spec fn wf(&self) -> bool {
        views(self.domains@).no_duplicates()
    }

    /// A whitelist of exactly the given domains (duplicates collapse).
    pub fn from_domains(domains: Vec<String>) -> (w: SniWhitelist)
        ensures
            w.wf(),
            w.view() == views(domains@).to_set(),
    {
        let mut w = SniWhitelist { domains: Vec::new() };
        assert(views(w.domains@).to_set() =~= Set::empty());
        let mut i: usize = 0;
        while i < domains.len()
            invariant
                i <= domains.len(),
                w.wf(),
                w.view() == views(domains@.take(i as int)).to_set(),
            decreases domains.len() - i,
        {
            assert(views(domains@.take(i + 1)) =~= views(domains@.take(i as int)).push(domains@[i as int]@));
            w.add(domains[i].as_str());
            i += 1;
        }
        assert(domains@.take(domains.len() as int) =~= domains@);
        w
    }

    fn add(&mut self, d: &str)
        requires
            old(self).wf(),
        ensures
            final(self).wf(),
            final(self).view() == old(self).view().insert(d@),
    {
        let ghost before = views(self.domains@);
        if strings_contain(&self.domains, d) {
            assert(before.to_set().insert(d@) =~= before.to_set());
            return;
        }
        self.domains.push(crate::text::copy_str(d));
        proof {
            assert(views(self.domains@) =~= before.push(d@));
            assert(!before.contains(d@));
            assert(views(self.domains@).to_set() =~= before.to_set().insert(d@));
        }
    }

    /// The whitelist that the file text `content` describes.
    pub fn from_content(content: &str) -> (w: SniWhitelist)
        ensures
            w.wf(),
            w.view() == whitelist_domains(content@),
    {
        let lines = split_lines(content);
        let mut w = SniWhitelist { domains: Vec::new() };
        let ghost ls = split_on(content@, '\n');
        assert(views(w.domains@).to_set() =~= Set::empty());
        let mut i: usize = 0;
        while i < lines.len()
            invariant
                i <= lines.len(),
                views(lines@) == ls,
                ls == split_on(content@, '\n'),
                w.wf(),
                forall|d: Seq<char>| w.view().contains(d) <==> exists|j: int| 0 <= j < i
                    && #[trigger] whitelist_line_counts(ls[j]) && whitelist_entry(ls[j]) == d,
            decreases lines.len() - i,
        {
            let s = trim_str(lines[i].as_str());
            let sc = chars_of(s.as_str());
            let ghost lv = ls[i as int];
            assert(lines@[i as int]@ == lv);
            let mut added = false;
            if sc.len() > 0 && !crate::text::starts(&sc, "#") {
                let no_dots = trim_end_char_str(s.as_str(), '.');
                let cleaned_t = trim_str(no_dots.as_str());
                let cleaned = crate::text::to_lower(cleaned_t.as_str());
                let cc = chars_of(cleaned.as_str());
                if cc.len() > 0 {
                    w.add(cleaned.as_str());
                    added = true;
                    assert(whitelist_line_counts(lv));
                }
            }
            assert forall|d: Seq<char>| w.view().contains(d) <==> exists|j: int| 0 <= j < i + 1
                && #[trigger] whitelist_line_counts(ls[j]) && whitelist_entry(ls[j]) == d by {
                if w.view().contains(d) {
                    if added && d == whitelist_entry(lv) {
                        assert(whitelist_line_counts(ls[i as int]));
                    }
                }
                if exists|j: int| 0 <= j < i + 1 && #[trigger] whitelist_line_counts(ls[j]) && whitelist_entry(ls[j]) == d {
                    let j = choose|j: int| 0 <= j < i + 1 && #[trigger] whitelist_line_counts(ls[j]) && whitelist_entry(ls[j]) == d;
                    if j == i {
                        assert(added);
                    }
                }
            }
            i += 1;
        }
        assert(w.view() =~= whitelist_domains(content@));
        w
    }

    /// Whether `domain`, trimmed, without trailing dots and lowered, is
    /// whitelisted; never for an empty key.
    pub fn contains(&self, domain: &str) -> (b: bool)
        ensures
            b == (lookup_key(domain@).len() > 0 && self.view().contains(lookup_key(domain@))),
    {
        let t = trim_str(domain);
        let nd = trim_end_char_str(t.as_str(), '.');
        let key = crate::text::to_lower(nd.as_str());
        let kc = chars_of(key.as_str());
        if kc.len() == 0 {
            return false;
        }
        let mut i: usize = 0;
        while i < self.domains.len()
            invariant
                i <= self.domains.len(),
                key@ == lookup_key(domain@),
                key@.len() > 0,
                forall|j: int| 0 <= j < i ==> views(self.domains@)[j] != key@,
            decreases self.domains.len() - i,
        {
            if str_eq(self.domains[i].as_str(), key.as_str()) {
                assert(views(self.domains@)[i as int] == key@);
                assert(views(self.domains@).contains(key@));
                return true;
            }
            i += 1;
        }
        false
    }

    /// Number of whitelisted domains.
    pub fn len(&self) -> (n: usize)
        requires
            self.wf(),
        ensures
            n == self.view().len(),
    {
        proof {
            views(self.domains@).unique_seq_to_set();
        }
        self.domains.len()
    }

    /// Whether no domain is whitelisted.
    pub fn is_empty(&self) -> (b: bool)
        requires
            self.wf(),
        ensures
            b == (self.view().len() == 0),
    {
        self.len() == 0
    }
}

/// The domains of a whitelist file, in normal form and without repeats.
pub fn parse_whitelist(content: &str) -> (r: Vec<String>)
    ensures
        views(r@).no_duplicates(),
        views(r@).to_set() == whitelist_domains(content@),
{
    let w = SniWhitelist::from_content(content);
    w.domains
}

/// The first flow with a DNS name that the whitelist lacks.
pub open spec fn first_unlisted(flows: Seq<ProcessFlow>, w: SniWhitelist, k: int) -> Option<Seq<char>>
    decreases flows.len() - k,
{
    if k < 0 || k >= flows.len() {
        None
    } else {
        match flows[k].dns_name {
            Some(n) => if !(lookup_key(n@).len() > 0 && w.view().contains(lookup_key(n@))) {
                Some(n@)
            } else {
                first_unlisted(flows, w, k + 1)
            },
            None => first_unlisted(flows, w, k + 1),
        }
    }
}

/// Remote addresses of the flows seen at or after `cutoff`.
pub open spec fn recent_addrs(flows: Seq<ProcessFlow>, cutoff: int) -> Seq<Seq<char>>
    decreases flows.len(),
{
    if flows.len() == 0 {
        Seq::empty()
    } else {
        recent_addrs(flows.drop_last(), cutoff) + if flows.last().last_seen_nanos >= cutoff {
            seq![flows.last().remote_addr@]
        } else {
            Seq::empty()
        }
    }
}

/// What [`check_flow_risk`] reports.
pub open spec fn flow_risk(flows: Seq<ProcessFlow>, whitelist: Option<SniWhitelist>, now: u64) -> Option<FactorSpec> {
    let unlisted = match whitelist {
        Some(w) => first_unlisted(flows, w, 0),
        None => None,
    };
    let distinct = recent_addrs(flows, now - R15_PORT_SCAN_WINDOW_NANOS).to_set().len();
    if unlisted.is_some() {
        Some(fspec(RiskCategory::NetworkBehavior, "r15_sni_not_whitelisted"@, R15_WEIGHT,
            "外联域名 "@ + unlisted.unwrap() + " 未在 SNI 白名单"@))
    } else if distinct >= R15_PORT_SCAN_THRESHOLD {
        Some(fspec(RiskCategory::NetworkBehavior, "r15_port_scan"@, R15_WEIGHT,
            decimal(R15_PORT_SCAN_WINDOW_SECS as nat) + "s 内连接 "@ + decimal(distinct) + " 个不同 IP（端口扫描特征）"@))
    } else {
        None
    }
}

fn first_unlisted_exec(flows: &[ProcessFlow], w: &SniWhitelist) -> (r: Option<String>)
    ensures
        match r {
            Some(n) => first_unlisted(flows@, *w, 0) == Some(n@),
            None => first_unlisted(flows@, *w, 0).is_none(),
        },
{
    let mut k: usize = 0;
    while k < flows.len()
        invariant
            k <= flows.len(),
            first_unlisted(flows@, *w, 0) == first_unlisted(flows@, *w, k as int),
        decreases flows.len() - k,
    {
        match &flows[k].dns_name {
            Some(n) => {
                if !w.contains(n.as_str()) {
                    return Some(crate::text::copy_str(n.as_str()));
                }
            },
            None => {},
        }
        k += 1;
    }
    None
}

/// Number of distinct remote addresses among the flows seen at or after
/// `cutoff`.
fn distinct_recent(flows: &[ProcessFlow], cutoff: i128) -> (n: usize)
    ensures
        n == recent_addrs(flows@, cutoff as int).to_set().len(),
{
    let mut seen: Vec<String> = Vec::new();
    let mut i: usize = 0;
    while i < flows.len()
        invariant
            i <= flows.len(),
            views(seen@).no_duplicates(),
            views(seen@).to_set() == recent_addrs(flows@.take(i as int), cutoff as int).to_set(),
        decreases flows.len() - i,
    {
        assert(flows@.take(i + 1).drop_last() =~= flows@.take(i as int));
        let ghost prev = recent_addrs(flows@.take(i as int), cutoff as int);
        if flows[i].last_seen_nanos as i128 >= cutoff {
            let a = flows[i].remote_addr.as_str();
            let ghost before = views(seen@);
            let found = strings_contain(&seen, a);
            proof {
                assert(recent_addrs(flows@.take(i + 1), cutoff as int) =~= prev.push(a@));
            }
            if !found {
                seen.push(crate::text::copy_str(a));
                proof {
                    assert(views(seen@) =~= before.push(a@));
                    assert(views(seen@).to_set() =~= before.to_set().insert(a@));
                }
            } else {
                assert(before.contains(a@));
                assert(before.to_set().insert(a@) =~= before.to_set());
            }
        } else {
            assert(recent_addrs(flows@.take(i + 1), cutoff as int) =~= prev);
        }
        i += 1;
    }
    assert(flows@.take(flows.len() as int) =~= flows@);
    proof {
        views(seen@).unique_seq_to_set();
    }
    seen.len()
}

/// Evaluates the outbound-connection rule over the flows of one process.
///
/// With a whitelist, the first DNS name that it lacks is reported; otherwise
/// at least 50 distinct remote addresses seen in the last 10 seconds (before
/// `now`, nanoseconds since the epoch; the window may reach back before the
/// epoch) are reported as a port scan.
pub fn check_flow_risk(flows: &[ProcessFlow], whitelist: Option<&SniWhitelist>, now: u64) -> (r: Option<RiskFactor>)
    ensures
        opt_factor_view(r) == flow_risk(flows@, match whitelist { Some(w) => Some(*w), None => None }, now),
{
    match whitelist {
        Some(w) => match first_unlisted_exec(flows, w) {
            Some(name) => {
                let mut d = String::from_str("外联域名 ");
                d.append(name.as_str());
                d.append(" 未在 SNI 白名单");
                return Some(factor_owned(RiskCategory::NetworkBehavior, "r15_sni_not_whitelisted", R15_WEIGHT, d));
            },
            None => {},
        },
        None => {},
    }
    let cutoff: i128 = now as i128 - R15_PORT_SCAN_WINDOW_NANOS as i128;
    let n = distinct_recent(flows, cutoff);
    if n >= R15_PORT_SCAN_THRESHOLD {
        let mut d = String::new();
        push_decimal(&mut d, R15_PORT_SCAN_WINDOW_SECS as u128);
        d.append("s 内连接 ");
        push_decimal(&mut d, n as u128);
        d.append(" 个不同 IP（端口扫描特征）");
        return Some(factor_owned(RiskCategory::NetworkBehavior, "r15_port_scan", R15_WEIGHT, d));
    }
    None
}


/// Where the SNI whitelist lives: `sni_whitelist.txt` in the configuration
/// directory (`sep` is the platform's path separator).
pub fn default_whitelist_path(config_dir: &str, sep: char) -> (p: String)
    ensures
        p@ == crate::text::path_join(config_dir@, "sni_whitelist.txt"@, sep),
{
    crate::text::join_path(config_dir, "sni_whitelist.txt", sep)
}

impl SniWhitelist {
    /// The whitelist of a whitelist file: `None` without a file (the rule is
    /// then skipped), otherwise the domains its text lists.
    pub fn load(content: Option<&str>) -> (w: Option<SniWhitelist>)
        ensures
            match content {
                Some(c) => w.is_some() && w.unwrap().wf() && w.unwrap().view() == whitelist_domains(c@),
                None => w.is_none(),
            },
    {
        match content {
            Some(c) => Some(SniWhitelist::from_content(c)),
            None => None,
        }
    }
}

} // verus!
