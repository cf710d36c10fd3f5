//! Parent-chain construction and suspicious-lineage patterns (Office or a
//! browser starting a shell, script interpreters, user rules).
use vstd::prelude::*;
use std::collections::HashMap;
use crate::pattern::{regex_compiles, regex_finds, regex_is_match, regex_is_valid};
use crate::process::ProcessInfo;
use crate::security::score::{factor_owned, factor_views, fspec, FactorSpec, RiskCategory, RiskFactor};
use crate::text::{decimal, in_list, join, lower_chars, push_decimal, strs, unicode_lower};

verus! {

broadcast use vstd::std_specs::hash::group_hash_axioms;

/// Longest parent chain that [`build_parent_chain`] builds.
pub const MAX_PARENT_CHAIN_DEPTH: usize = 32;

/// A suspicious lineage.
#[derive(Debug, Clone, PartialEq, Eq)]
pub enum SuspiciousPattern {
    OfficeToShell,
    BrowserToShell,
    ScriptInterpreter,
    Custom { name: String, weight: u32 },
}

pub open spec fn pattern_weight(p: SuspiciousPattern) -> u32 {
    match p {
        SuspiciousPattern::OfficeToShell => 35,
        SuspiciousPattern::BrowserToShell => 25,
        SuspiciousPattern::ScriptInterpreter => 15,
        SuspiciousPattern::Custom { weight, .. } => weight,
    }
}

pub open spec fn pattern_risk_name(p: SuspiciousPattern) -> Seq<char> {
    match p {
        SuspiciousPattern::OfficeToShell => "office_to_shell"@,
        SuspiciousPattern::BrowserToShell => "browser_to_shell"@,
        SuspiciousPattern::ScriptInterpreter => "script_interpreter"@,
        SuspiciousPattern::Custom { name, .. } => "lineage_custom:"@ + name@,
    }
}

/// One link of a parent chain: a pid and its process name.
pub open spec fn link_views(chain: Seq<(u32, String)>) -> Seq<(u32, Seq<char>)> {
    chain.map_values(|e: (u32, String)| (e.0, e.1@))
}

/// The names of a chain joined with arrows.
pub open spec fn chain_summary_of(chain: Seq<(u32, String)>) -> Seq<char> {
    join(chain.map_values(|e: (u32, String)| e.1@), " → "@)
}

pub open spec fn pattern_description(p: SuspiciousPattern, current: Seq<char>, chain: Seq<(u32, String)>) -> Seq<char> {
    let tail = current + " ← "@ + chain_summary_of(chain);
    match p {
        SuspiciousPattern::OfficeToShell => "Office 启动 shell（典型 macro attack）："@ + tail,
        SuspiciousPattern::BrowserToShell => "浏览器启动 shell（可能恶意）："@ + tail,
        SuspiciousPattern::ScriptInterpreter => "脚本解释器直接运行："@ + tail,
        SuspiciousPattern::Custom { name, .. } => "自定义规则「"@ + name@ + "」命中："@ + tail,
    }
}

impl SuspiciousPattern {
    /// The weight of the pattern (a user rule's own weight for `Custom`).
    pub fn default_weight(&self) -> (w: u32)
        ensures
            w == pattern_weight(*self),
    {
        match self {
            SuspiciousPattern::OfficeToShell => 35,
            SuspiciousPattern::BrowserToShell => 25,
            SuspiciousPattern::ScriptInterpreter => 15,
            SuspiciousPattern::Custom { weight, .. } => *weight,
        }
    }

    /// The risk-factor name of the pattern.
    pub fn risk_name(&self) -> (s: String)
        ensures
            s@ == pattern_risk_name(*self),
    {
        match self {
            SuspiciousPattern::OfficeToShell => String::from_str("office_to_shell"),
            SuspiciousPattern::BrowserToShell => String::from_str("browser_to_shell"),
            SuspiciousPattern::ScriptInterpreter => String::from_str("script_interpreter"),
            SuspiciousPattern::Custom { name, .. } => {
                let mut s = String::from_str("lineage_custom:");
                s.append(name.as_str());
                s
            },
        }
    }

    /// The risk-factor description: the pattern, the process and its chain.
    pub fn description(&self, current_name: &str, chain: &[(u32, String)]) -> (s: String)
        ensures
            s@ == pattern_description(*self, current_name@, chain@),
    {
        let summary = chain_summary(chain);
        let mut tail = String::from_str(current_name);
        tail.append(" ← ");
        tail.append(summary.as_str());
        let mut s = match self {
            SuspiciousPattern::OfficeToShell => String::from_str("Office 启动 shell（典型 macro attack）："),
            SuspiciousPattern::BrowserToShell => String::from_str("浏览器启动 shell（可能恶意）："),
            SuspiciousPattern::ScriptInterpreter => String::from_str("脚本解释器直接运行："),
            SuspiciousPattern::Custom { name, .. } => {
                let mut h = String::from_str("自定义规则「");
                h.append(name.as_str());
                h.append("」命中：");
                h
            },
        };
        s.append(tail.as_str());
        s
    }
}

/// The names of `chain` joined with ` → `.
pub fn chain_summary(chain: &[(u32, String)]) -> (s: String)
    ensures
        s@ == chain_summary_of(chain@),
{
    let mut names: Vec<String> = Vec::new();
    let mut i: usize = 0;
    while i < chain.len()
        invariant
            i <= chain.len(),
            crate::text::views(names@) == chain@.take(i as int).map_values(|e: (u32, String)| e.1@),
        decreases chain.len() - i,
    {
        let nm = crate::text::copy_str(chain[i].1.as_str());
        let ghost before = names@;
        names.push(nm);
        assert(crate::text::views(names@) =~= crate::text::views(before).push(chain@[i as int].1@));
        assert(chain@.take(i + 1).map_values(|e: (u32, String)| e.1@) =~= chain@.take(i as int).map_values(|e: (u32, String)| e.1@).push(chain@[i as int].1@));
        i += 1;
    }
    assert(chain@.take(chain.len() as int) =~= chain@);
    crate::text::join_strings(names.as_slice(), " → ")
}

pub open spec fn office_apps() -> Seq<Seq<char>> {
    seq![
        "winword.exe"@, "excel.exe"@, "powerpnt.exe"@, "outlook.exe"@, "msaccess.exe"@, "mspub.exe"@,
        "visio.exe"@, "project.exe"@, "onenote.exe"@, "onenotem.exe"@,
    ]
}

pub open spec fn shell_processes() -> Seq<Seq<char>> {
    seq!["cmd.exe"@, "powershell.exe"@, "pwsh.exe"@, "wscript.exe"@, "cscript.exe"@, "mshta.exe"@]
}

pub open spec fn browser_processes() -> Seq<Seq<char>> {
    seq!["chrome.exe"@, "msedge.exe"@, "firefox.exe"@, "brave.exe"@, "opera.exe"@, "iexplore.exe"@]
}

pub open spec fn script_interpreters() -> Seq<Seq<char>> {
    seq!["wscript.exe"@, "cscript.exe"@, "mshta.exe"@]
}

/// System service hosts whose script children are treated as legitimate.
pub open spec fn system_boot_entries() -> Seq<Seq<char>> {
    seq!["services.exe"@, "wininit.exe"@, "svchost.exe"@]
}

/// Which list [`name_in_list`] consults.
#[derive(Debug, Clone, Copy, PartialEq, Eq, Structural)]
pub enum NameList {
    OfficeApps,
    Shells,
    Browsers,
    ScriptInterpreters,
    SystemBootEntries,
}

pub open spec fn list_of(l: NameList) -> Seq<Seq<char>> {
    match l {
        NameList::OfficeApps => office_apps(),
        NameList::Shells => shell_processes(),
        NameList::Browsers => browser_processes(),
        NameList::ScriptInterpreters => script_interpreters(),
        NameList::SystemBootEntries => system_boot_entries(),
    }
}

fn list_entries(l: NameList) -> (v: Vec<&'static str>)
    ensures
        strs(v@) == list_of(l),
{
    let v = match l {
        NameList::OfficeApps => vec![
            "winword.exe", "excel.exe", "powerpnt.exe", "outlook.exe", "msaccess.exe", "mspub.exe",
            "visio.exe", "project.exe", "onenote.exe", "onenotem.exe",
        ],
        NameList::Shells => vec!["cmd.exe", "powershell.exe", "pwsh.exe", "wscript.exe", "cscript.exe", "mshta.exe"],
        NameList::Browsers => vec!["chrome.exe", "msedge.exe", "firefox.exe", "brave.exe", "opera.exe", "iexplore.exe"],
        NameList::ScriptInterpreters => vec!["wscript.exe", "cscript.exe", "mshta.exe"],
        NameList::SystemBootEntries => vec!["services.exe", "wininit.exe", "svchost.exe"],
    };
    assert(strs(v@) =~= list_of(l));
    v
}

/// Whether the lowered `name` is one of the entries of `list`.
pub fn name_in_list(list: NameList, name: &str) -> (b: bool)
    ensures
        b == list_of(list).contains(unicode_lower(name@)),
{
    let lowered = lower_chars(name);
    let entries = list_entries(list);
    in_list(&lowered, &entries)
}

/// A user lineage rule: a child-name pattern, a parent-name pattern and a
/// weight.  The patterns are regular expressions.
#[derive(Debug, Clone)]
pub struct LineageRule {
    pub name: String,
    pub parent_pattern: String,
    pub child_pattern: String,
    pub weight: u32,
}

/// The rule's patterns both compile.
pub open spec fn lineage_rule_valid(r: LineageRule) -> bool {
    regex_compiles(r.parent_pattern@) && regex_compiles(r.child_pattern@)
}

/// Weight of a user rule whose file entry gives none.
pub const DEFAULT_LINEAGE_WEIGHT: u32 = 20;

impl LineageRule {
    /// A rule from its parts, or `None` when a pattern does not compile.
    pub fn new(name: &str, parent_pattern: &str, child_pattern: &str, weight: u32) -> (r: Option<LineageRule>)
        ensures
            match r {
                Some(rule) => rule.name@ == name@ && rule.parent_pattern@ == parent_pattern@
                    && rule.child_pattern@ == child_pattern@ && rule.weight == weight
                    && lineage_rule_valid(rule),
                None => !(regex_compiles(parent_pattern@) && regex_compiles(child_pattern@)),
            },
    {
        if regex_is_valid(parent_pattern) && regex_is_valid(child_pattern) {
            Some(LineageRule {
                name: String::from_str(name),
                parent_pattern: String::from_str(parent_pattern),
                child_pattern: String::from_str(child_pattern),
                weight,
            })
        } else {
            None
        }
    }
}

/// The rules of a lineage-rules file that compile, in file order.
pub open spec fn compiled_lineage_rules(raw: Seq<(String, String, String, u32)>) -> Seq<(Seq<char>, Seq<char>, Seq<char>, u32)>
    decreases raw.len(),
{
    if raw.len() == 0 {
        Seq::empty()
    } else {
        let e = raw.last();
        compiled_lineage_rules(raw.drop_last()) + if regex_compiles(e.1@) && regex_compiles(e.2@) {
            seq![(e.0@, e.1@, e.2@, e.3)]
        } else {
            Seq::empty()
        }
    }
}

pub open spec fn rule_views(rules: Seq<LineageRule>) -> Seq<(Seq<char>, Seq<char>, Seq<char>, u32)> {
    rules.map_values(|r: LineageRule| (r.name@, r.parent_pattern@, r.child_pattern@, r.weight))
}

/// Builds the rules of a lineage-rules file given as `(name, parent_pattern,
/// child_pattern, weight)` entries, dropping those whose patterns do not
/// compile.
pub fn lineage_rules_from_entries(raw: &[(String, String, String, u32)]) -> (r: Vec<LineageRule>)
    ensures
        rule_views(r@) == compiled_lineage_rules(raw@),
{
    let mut out: Vec<LineageRule> = Vec::new();
    let mut i: usize = 0;
    while i < raw.len()
        invariant
            i <= raw.len(),
            rule_views(out@) == compiled_lineage_rules(raw@.take(i as int)),
        decreases raw.len() - i,
    {
        assert(raw@.take(i + 1).drop_last() =~= raw@.take(i as int));
        let e = &raw[i];
        let ghost before = out@;
        match LineageRule::new(e.0.as_str(), e.1.as_str(), e.2.as_str(), e.3) {
            Some(rule) => {
                out.push(rule);
                assert(rule_views(out@) =~= rule_views(before) + seq![(e.0@, e.1@, e.2@, e.3)]);
            },
            None => {
                assert(rule_views(out@) =~= rule_views(before) + Seq::empty());
            },
        }
        i += 1;
    }
    assert(raw@.take(raw.len() as int) =~= raw@);
    out
}

// ---------------------------------------------------------------------------
// Parent chain
// ---------------------------------------------------------------------------
/// The ancestors of `cur` (exclusive), each with its name, following parent
/// links while the parent is known, is neither 0 nor the process itself, was
/// not seen yet, and at most `fuel` links.
pub open spec fn chain_walk(m: Map<u32, ProcessInfo>, cur: u32, visited: Seq<u32>, fuel: nat) -> Seq<(u32, Seq<char>)>
    decreases fuel,
{
    if fuel == 0 || !m.contains_key(cur) {
        Seq::empty()
    } else {
        match m[cur].parent_pid {
            None => Seq::empty(),
            Some(pp) => if pp == 0 || pp == cur || visited.contains(pp) || !m.contains_key(pp) {
                Seq::empty()
            } else {
                seq![(pp, m[pp].name@)] + chain_walk(m, pp, visited.push(pp), (fuel - 1) as nat)
            },
        }
    }
}

/// The parent chain of `pid`: direct parent first, at most 32 links.
pub open spec fn parent_chain_of(m: Map<u32, ProcessInfo>, pid: u32) -> Seq<(u32, Seq<char>)> {
    chain_walk(m, pid, seq![pid], MAX_PARENT_CHAIN_DEPTH as nat)
}

/// Builds the parent chain of `pid` from a pid-keyed process map.
pub fn build_parent_chain(pid: u32, processes: &HashMap<u32, ProcessInfo>) -> (r: Vec<(u32, String)>)
    ensures
        link_views(r@) == parent_chain_of(processes@, pid),
{
    let mut chain: Vec<(u32, String)> = Vec::new();
    let mut visited: Vec<u32> = Vec::new();
    visited.push(pid);
    let mut current = pid;
    loop
        invariant_except_break
            link_views(chain@) + chain_walk(processes@, current, visited@, (32 - chain.len()) as nat)
                == parent_chain_of(processes@, pid),
        invariant
            chain.len() <= 32,
        ensures
            link_views(chain@) == parent_chain_of(processes@, pid),
        decreases 32 - chain.len(),
    {
        if chain.len() >= MAX_PARENT_CHAIN_DEPTH {
            assert(link_views(chain@) + Seq::empty() =~= link_views(chain@));
            break;
        }
        let p = match processes.get(&current) {
            Some(p) => p,
            None => {
                assert(link_views(chain@) + Seq::empty() =~= link_views(chain@));
                break;
            },
        };
        let parent_pid = match p.parent_pid {
            Some(pp) => pp,
            None => {
                assert(link_views(chain@) + Seq::empty() =~= link_views(chain@));
                break;
            },
        };
        if parent_pid == 0 || parent_pid == current || crate::process::vec_has_u32(&visited, parent_pid) {
            assert(link_views(chain@) + Seq::empty() =~= link_views(chain@));
            break;
        }
        visited.push(parent_pid);
        let parent = match processes.get(&parent_pid) {
            Some(q) => q,
            None => {
                assert(link_views(chain@) + Seq::empty() =~= link_views(chain@));
                break;
            },
        };
        let ghost old_chain = chain@;
        chain.push((parent_pid, parent.name.clone()));
        assert(link_views(chain@) =~= link_views(old_chain) + seq![(parent_pid, parent.name@)]);
        current = parent_pid;
    }
    chain
}

// ---------------------------------------------------------------------------
// Pattern detection
// ---------------------------------------------------------------------------
/// Name of the direct parent in `chain`, empty without one.
pub open spec fn direct_parent_name(chain: Seq<(u32, String)>) -> Seq<char> {
    if chain.len() > 0 {
        chain[0].1@
    } else {
        Seq::empty()
    }
}

/// The rule matches: its child pattern matches `current` and its parent
/// pattern matches some name of `chain`.
pub open spec fn custom_rule_hits(rule: LineageRule, chain: Seq<(u32, String)>, current: Seq<char>) -> bool {
    regex_compiles(rule.child_pattern@) && regex_finds(rule.child_pattern@, current)
        && exists|i: int| 0 <= i < chain.len() && regex_compiles(rule.parent_pattern@)
            && #[trigger] regex_finds(rule.parent_pattern@, chain[i].1@)
}

/// The first rule from index `k` on that matches.
pub open spec fn first_custom_hit(rules: Seq<LineageRule>, chain: Seq<(u32, String)>, current: Seq<char>, k: int) -> Option<SuspiciousPattern>
    decreases rules.len() - k,
{
    if k < 0 || k >= rules.len() {
        None
    } else if custom_rule_hits(rules[k], chain, current) {
        Some(SuspiciousPattern::Custom { name: rules[k].name, weight: rules[k].weight })
    } else {
        first_custom_hit(rules, chain, current, k + 1)
    }
}

/// What [`detect_suspicious_chain`] reports.
pub open spec fn suspicious_chain(chain: Seq<(u32, String)>, current: Seq<char>, rules: Seq<LineageRule>) -> Option<SuspiciousPattern> {
    let lowered = unicode_lower(current);
    let parent = unicode_lower(direct_parent_name(chain));
    if script_interpreters().contains(lowered) && !system_boot_entries().contains(parent) {
        Some(SuspiciousPattern::ScriptInterpreter)
    } else if shell_processes().contains(lowered) && office_apps().contains(parent) {
        Some(SuspiciousPattern::OfficeToShell)
    } else if shell_processes().contains(lowered) && browser_processes().contains(parent) {
        Some(SuspiciousPattern::BrowserToShell)
    } else {
        first_custom_hit(rules, chain, current, 0)
    }
}

/// Whether the parent pattern of a rule matches some name of `chain`.
fn parent_pattern_hits(pattern: &str, chain: &[(u32, String)]) -> (b: bool)
    ensures
        b == exists|i: int| 0 <= i < chain.len() && regex_compiles(pattern@)
            && #[trigger] regex_finds(pattern@, chain@[i].1@),
{
    let mut i: usize = 0;
    while i < chain.len()
        invariant
            i <= chain.len(),
            forall|j: int| 0 <= j < i ==> !(regex_compiles(pattern@) && #[trigger] regex_finds(pattern@, chain@[j].1@)),
        decreases chain.len() - i,
    {
        if regex_is_match(pattern, chain[i].1.as_str()) {
            return true;
        }
        i += 1;
    }
    false
}

/// The first user rule that matches.
pub fn match_custom_rule(chain: &[(u32, String)], current_name: &str, custom_rules: &[LineageRule]) -> (r: Option<SuspiciousPattern>)
    ensures
        r == first_custom_hit(custom_rules@, chain@, current_name@, 0),
{
    let mut k: usize = 0;
    while k < custom_rules.len()
        invariant
            k <= custom_rules.len(),
            first_custom_hit(custom_rules@, chain@, current_name@, 0) == first_custom_hit(custom_rules@, chain@, current_name@, k as int),
        decreases custom_rules.len() - k,
    {
        let rule = &custom_rules[k];
        if regex_is_match(rule.child_pattern.as_str(), current_name) && parent_pattern_hits(rule.parent_pattern.as_str(), chain) {
            return Some(SuspiciousPattern::Custom { name: rule.name.clone(), weight: rule.weight });
        }
        k += 1;
    }
    None
}

/// Name of the direct parent, or the empty string.
fn direct_parent(chain: &[(u32, String)]) -> (s: &str)
    ensures
        s@ == direct_parent_name(chain@),
{
    if chain.len() > 0 {
        chain[0].1.as_str()
    } else {
        proof {
            reveal_strlit("");
        }
        ""
    }
}

/// Classifies the lineage of a process named `current_name` with ancestors
/// `chain` (direct parent first).
pub fn detect_suspicious_chain(chain: &[(u32, String)], current_name: &str, custom_rules: &[LineageRule]) -> (r: Option<SuspiciousPattern>)
    ensures
        r == suspicious_chain(chain@, current_name@, custom_rules@),
{
    let parent = direct_parent(chain);
    if name_in_list(NameList::ScriptInterpreters, current_name) && !name_in_list(NameList::SystemBootEntries, parent) {
        return Some(SuspiciousPattern::ScriptInterpreter);
    }
    if name_in_list(NameList::Shells, current_name) {
        if name_in_list(NameList::OfficeApps, parent) {
            return Some(SuspiciousPattern::OfficeToShell);
        }
        if name_in_list(NameList::Browsers, parent) {
            return Some(SuspiciousPattern::BrowserToShell);
        }
    }
    match_custom_rule(chain, current_name, custom_rules)
}

/// The factors of the lineage rules over `procs`, one per process whose
/// lineage is suspicious, in order.
pub open spec fn lineage_factors(procs: Seq<ProcessInfo>, rules: Seq<LineageRule>) -> Seq<FactorSpec>
    decreases procs.len(),
{
    if procs.len() == 0 {
        Seq::empty()
    } else {
        let p = procs.last();
        lineage_factors(procs.drop_last(), rules) + match suspicious_chain(p.parent_chain@, p.name@, rules) {
            Some(pat) => seq![fspec(RiskCategory::ParentChain, pattern_risk_name(pat), pattern_weight(pat),
                pattern_description(pat, p.name@, p.parent_chain@))],
            None => Seq::empty(),
        }
    }
}

/// Scores the lineage of every process of `procs`.
pub fn check_lineage_risk(procs: &[ProcessInfo], custom_rules: &[LineageRule]) -> (r: Vec<RiskFactor>)
    ensures
        factor_views(r@) == lineage_factors(procs@, custom_rules@),
{
    let mut out: Vec<RiskFactor> = Vec::new();
    let mut i: usize = 0;
    while i < procs.len()
        invariant
            i <= procs.len(),
            factor_views(out@) == lineage_factors(procs@.take(i as int), custom_rules@),
        decreases procs.len() - i,
    {
        assert(procs@.take(i + 1).drop_last() =~= procs@.take(i as int));
        let p = &procs[i];
        let ghost before = out@;
        match detect_suspicious_chain(p.parent_chain.as_slice(), p.name.as_str(), custom_rules) {
            Some(pat) => {
                let d = pat.description(p.name.as_str(), p.parent_chain.as_slice());
                let n = pat.risk_name();
                let w = pat.default_weight();
                out.push(RiskFactor { category: RiskCategory::ParentChain, name: n, weight: w, description: d });
                assert(factor_views(out@) =~= factor_views(before) + seq![factor_views(out@).last()]);
            },
            None => {
                assert(factor_views(out@) =~= factor_views(before) + Seq::empty());
            },
        }
        i += 1;
    }
    assert(procs@.take(procs.len() as int) =~= procs@);
    out
}


/// Where the user lineage rules live: `lineage_rules.toml` in the
/// configuration directory (`sep` is the platform's path separator).
pub fn default_rules_path(config_dir: &str, sep: char) -> (p: String)
    ensures
        p@ == crate::text::path_join(config_dir@, "lineage_rules.toml"@, sep),
{
    crate::text::join_path(config_dir, "lineage_rules.toml", sep)
}

/// The user lineage rules from the entries of the rules file (`None` when
/// the file is missing or does not parse): no rules without entries.
pub fn load_lineage_rules(entries: Option<&[(String, String, String, u32)]>) -> (r: Vec<LineageRule>)
    ensures
        rule_views(r@) == match entries {
            Some(raw) => compiled_lineage_rules(raw@),
            None => Seq::empty(),
        },
{
    match entries {
        Some(raw) => lineage_rules_from_entries(raw),
        None => {
            let v: Vec<LineageRule> = Vec::new();
            assert(rule_views(v@) =~= Seq::empty());
            v
        },
    }
}


proof fn lemma_chain_walk(m: Map<u32, ProcessInfo>, cur: u32, visited: Seq<u32>, fuel: nat)
    ensures
        chain_walk(m, cur, visited, fuel).len() <= fuel,
        forall|i: int| 0 <= i < chain_walk(m, cur, visited, fuel).len() ==> !visited.contains(
            (#[trigger] chain_walk(m, cur, visited, fuel)[i]).0,
        ) && m.contains_key(chain_walk(m, cur, visited, fuel)[i].0) && chain_walk(m, cur, visited, fuel)[i].1
            == m[chain_walk(m, cur, visited, fuel)[i].0].name@,
        forall|i: int, j: int| 0 <= i < j < chain_walk(m, cur, visited, fuel).len()
            ==> #[trigger] chain_walk(m, cur, visited, fuel)[i].0 != #[trigger] chain_walk(m, cur, visited, fuel)[j].0,
        chain_walk(m, cur, visited, fuel).len() > 0 ==> m.contains_key(cur) && m[cur].parent_pid
            == Some(chain_walk(m, cur, visited, fuel)[0].0),
        forall|i: int| 0 <= i < chain_walk(m, cur, visited, fuel).len() - 1
            ==> m[#[trigger] chain_walk(m, cur, visited, fuel)[i].0].parent_pid == Some(chain_walk(m, cur, visited, fuel)[i + 1].0),
    decreases fuel,
{
    if fuel > 0 && m.contains_key(cur) {
        match m[cur].parent_pid {
            None => {},
            Some(pp) => {
                if !(pp == 0 || pp == cur || visited.contains(pp) || !m.contains_key(pp)) {
                    let v2 = visited.push(pp);
                    lemma_chain_walk(m, pp, v2, (fuel - 1) as nat);
                    let rest = chain_walk(m, pp, v2, (fuel - 1) as nat);
                    let w = chain_walk(m, cur, visited, fuel);
                    assert(w == seq![(pp, m[pp].name@)] + rest);
                    assert forall|i: int| 0 <= i < w.len() implies !visited.contains((#[trigger] w[i]).0) && m.contains_key(w[i].0)
                        && w[i].1 == m[w[i].0].name@ by {
                        if i > 0 {
                            assert(w[i] == rest[i - 1]);
                            if visited.contains(w[i].0) {
                                let k = choose|k: int| 0 <= k < visited.len() && visited[k] == w[i].0;
                                assert(v2[k] == w[i].0);
                                assert(v2.contains(w[i].0));
                            }
                        }
                    }
                    assert forall|i: int, j: int| 0 <= i < j < w.len() implies #[trigger] w[i].0 != #[trigger] w[j].0 by {
                        assert(w[j] == rest[j - 1]);
                        if i == 0 {
                            assert(v2[visited.len() as int] == pp);
                            assert(v2.contains(pp));
                        } else {
                            assert(w[i] == rest[i - 1]);
                        }
                    }
                    assert forall|i: int| 0 <= i < w.len() - 1 implies m[#[trigger] w[i].0].parent_pid == Some(w[i + 1].0) by {
                        assert(w[i + 1] == rest[i]);
                        if i > 0 {
                            assert(w[i] == rest[i - 1]);
                        }
                    }
                }
            },
        }
    }
}

/// The parent chain of a process holds at most 32 links, never the process
/// itself, no process twice, each link named as in the table, and each link
/// is the parent of the one before (the first is the process's parent).
pub proof fn law_parent_chain_shape(m: Map<u32, ProcessInfo>, pid: u32)
    ensures
        parent_chain_of(m, pid).len() <= MAX_PARENT_CHAIN_DEPTH,
        forall|i: int| 0 <= i < parent_chain_of(m, pid).len() ==> (#[trigger] parent_chain_of(m, pid)[i]).0 != pid
            && m.contains_key(parent_chain_of(m, pid)[i].0) && parent_chain_of(m, pid)[i].1 == m[parent_chain_of(m, pid)[i].0].name@,
        forall|i: int, j: int| 0 <= i < j < parent_chain_of(m, pid).len()
            ==> #[trigger] parent_chain_of(m, pid)[i].0 != #[trigger] parent_chain_of(m, pid)[j].0,
        parent_chain_of(m, pid).len() > 0 ==> m[pid].parent_pid == Some(parent_chain_of(m, pid)[0].0),
        forall|i: int| 0 <= i < parent_chain_of(m, pid).len() - 1
            ==> m[#[trigger] parent_chain_of(m, pid)[i].0].parent_pid == Some(parent_chain_of(m, pid)[i + 1].0),
{
    lemma_chain_walk(m, pid, seq![pid], MAX_PARENT_CHAIN_DEPTH as nat);
    assert forall|i: int| 0 <= i < parent_chain_of(m, pid).len() implies (#[trigger] parent_chain_of(m, pid)[i]).0 != pid by {
        assert(seq![pid][0] == pid);
        assert(seq![pid].contains(pid));
    }
}

/// Rule `j` matches: its child pattern matches the current name and its
/// parent pattern matches the name of some ancestor of the chain.
spec fn rule_matches_somewhere(rule: LineageRule, chain: Seq<(u32, String)>, current: Seq<char>) -> bool {
    &&& regex_compiles(rule.child_pattern@)
    &&& regex_finds(rule.child_pattern@, current)
    &&& regex_compiles(rule.parent_pattern@)
    &&& exists|a: int| 0 <= a < chain.len() && #[trigger] regex_finds(rule.parent_pattern@, chain[a].1@)
}

proof fn lemma_first_hit_from(
    rules: Seq<LineageRule>,
    chain: Seq<(u32, String)>,
    current: Seq<char>,
    k: int,
    j: int,
)
    requires
        0 <= j <= k < rules.len(),
        rule_matches_somewhere(rules[k], chain, current),
        forall|m: int| j <= m < k ==> !rule_matches_somewhere(#[trigger] rules[m], chain, current),
    ensures
        first_custom_hit(rules, chain, current, j)
            == Some(SuspiciousPattern::Custom { name: rules[k].name, weight: rules[k].weight }),
    decreases k - j,
{
    if j < k {
        assert(!rule_matches_somewhere(rules[j], chain, current));
        lemma_first_hit_from(rules, chain, current, k, j + 1);
    }
}

/// A user lineage rule is reported when its child pattern matches the
/// current name and its parent pattern matches the name of any ancestor in
/// the chain (the direct parent or one further up), unless an earlier rule
/// already matches in that way.
pub proof fn law_custom_rule_matches_any_ancestor(
    rules: Seq<LineageRule>,
    chain: Seq<(u32, String)>,
    current: Seq<char>,
    k: int,
    i: int,
)
    requires
        0 <= k < rules.len(),
        0 <= i < chain.len(),
        regex_compiles(rules[k].child_pattern@),
        regex_finds(rules[k].child_pattern@, current),
        regex_compiles(rules[k].parent_pattern@),
        regex_finds(rules[k].parent_pattern@, chain[i].1@),
        forall|j: int| 0 <= j < k ==> !{
            &&& regex_compiles(#[trigger] rules[j].child_pattern@)
            &&& regex_finds(rules[j].child_pattern@, current)
            &&& regex_compiles(rules[j].parent_pattern@)
            &&& exists|a: int| 0 <= a < chain.len() && #[trigger] regex_finds(rules[j].parent_pattern@, chain[a].1@)
        },
    ensures
        first_custom_hit(rules, chain, current, 0)
            == Some(SuspiciousPattern::Custom { name: rules[k].name, weight: rules[k].weight }),
{
    assert(rule_matches_somewhere(rules[k], chain, current));
    assert forall|m: int| 0 <= m < k implies !rule_matches_somewhere(#[trigger] rules[m], chain, current) by {
        assert(0 <= m < k);
    }
    lemma_first_hit_from(rules, chain, current, k, 0);
}

/// When no built-in pattern applies to the current name and its direct
/// parent (the current name is neither a script interpreter's outside the
/// boot entries nor a shell's under an Office application or a browser),
/// the chain is judged by the user rules, each matched against the whole
/// chain of ancestors: the first rule that matches is reported.
pub proof fn law_chain_reported_by_custom_rule(
    rules: Seq<LineageRule>,
    chain: Seq<(u32, String)>,
    current: Seq<char>,
    k: int,
    i: int,
)
    requires
        !script_interpreters().contains(unicode_lower(current))
            || system_boot_entries().contains(unicode_lower(direct_parent_name(chain))),
        !shell_processes().contains(unicode_lower(current))
            || (!office_apps().contains(unicode_lower(direct_parent_name(chain)))
                && !browser_processes().contains(unicode_lower(direct_parent_name(chain)))),
        0 <= k < rules.len(),
        0 <= i < chain.len(),
        regex_compiles(rules[k].child_pattern@),
        regex_finds(rules[k].child_pattern@, current),
        regex_compiles(rules[k].parent_pattern@),
        regex_finds(rules[k].parent_pattern@, chain[i].1@),
        forall|j: int| 0 <= j < k ==> !{
            &&& regex_compiles(#[trigger] rules[j].child_pattern@)
            &&& regex_finds(rules[j].child_pattern@, current)
            &&& regex_compiles(rules[j].parent_pattern@)
            &&& exists|a: int| 0 <= a < chain.len() && #[trigger] regex_finds(rules[j].parent_pattern@, chain[a].1@)
        },
    ensures
        suspicious_chain(chain, current, rules)
            == Some(SuspiciousPattern::Custom { name: rules[k].name, weight: rules[k].weight }),
{
    law_custom_rule_matches_any_ancestor(rules, chain, current, k, i);
}

} // verus!
