//! Suspicious launch directories: temp, roaming and local AppData, the user's
//! downloads, and user-configured directories.
use vstd::prelude::*;
use crate::process::ProcessInfo;
use crate::security::score::{factor_views, fspec, FactorSpec, RiskCategory, RiskFactor};
use crate::text::{chars_of, copy_str, lower_chars, occurs_at, push_char, same_chars, starts_with, string_of, unicode_lower};

verus! {

/// A suspicious launch directory.
#[derive(Debug, Clone, PartialEq, Eq)]
pub enum SuspiciousPathKind {
    Temp,
    AppData,
    LocalAppData,
    UserProfileDownloads,
    Custom { name: String, weight: u32 },
}

pub open spec fn kind_weight(k: SuspiciousPathKind) -> u32 {
    match k {
        SuspiciousPathKind::Temp => 20,
        SuspiciousPathKind::AppData => 15,
        SuspiciousPathKind::LocalAppData => 15,
        SuspiciousPathKind::UserProfileDownloads => 15,
        SuspiciousPathKind::Custom { weight, .. } => weight,
    }
}

pub open spec fn kind_risk_name(k: SuspiciousPathKind) -> Seq<char> {
    match k {
        SuspiciousPathKind::Temp => "suspicious_path_temp"@,
        SuspiciousPathKind::AppData => "suspicious_path_appdata"@,
        SuspiciousPathKind::LocalAppData => "suspicious_path_local_appdata"@,
        SuspiciousPathKind::UserProfileDownloads => "suspicious_path_downloads"@,
        SuspiciousPathKind::Custom { name, .. } => "suspicious_path_custom:"@ + name@,
    }
}

pub open spec fn kind_description(k: SuspiciousPathKind, exe: Seq<char>) -> Seq<char> {
    match k {
        SuspiciousPathKind::Temp => "从临时目录运行（malware 常用）："@ + exe,
        SuspiciousPathKind::AppData => "从 AppData\\Roaming 运行（可疑位置）："@ + exe,
        SuspiciousPathKind::LocalAppData => "从 AppData\\Local 运行（可疑位置）："@ + exe,
        SuspiciousPathKind::UserProfileDownloads => "从下载目录运行（可疑位置）："@ + exe,
        SuspiciousPathKind::Custom { name, .. } => "自定义可疑目录「"@ + name@ + "」命中："@ + exe,
    }
}

impl SuspiciousPathKind {
    /// The weight of the kind (a user rule's own weight for `Custom`).
    pub fn default_weight(&self) -> (w: u32)
        ensures
            w == kind_weight(*self),
    {
        match self {
            SuspiciousPathKind::Temp => 20,
            SuspiciousPathKind::AppData => 15,
            SuspiciousPathKind::LocalAppData => 15,
            SuspiciousPathKind::UserProfileDownloads => 15,
            SuspiciousPathKind::Custom { weight, .. } => *weight,
        }
    }

    /// The risk-factor name of the kind.
    pub fn risk_name(&self) -> (s: String)
        ensures
            s@ == kind_risk_name(*self),
    {
        match self {
            SuspiciousPathKind::Temp => String::from_str("suspicious_path_temp"),
            SuspiciousPathKind::AppData => String::from_str("suspicious_path_appdata"),
            SuspiciousPathKind::LocalAppData => String::from_str("suspicious_path_local_appdata"),
            SuspiciousPathKind::UserProfileDownloads => String::from_str("suspicious_path_downloads"),
            SuspiciousPathKind::Custom { name, .. } => {
                let mut s = String::from_str("suspicious_path_custom:");
                s.append(name.as_str());
                s
            },
        }
    }

    /// The risk-factor description, naming the executable.
    pub fn description(&self, exe_path: &str) -> (s: String)
        ensures
            s@ == kind_description(*self, exe_path@),
    {
        let mut s = match self {
            SuspiciousPathKind::Temp => String::from_str("从临时目录运行（malware 常用）："),
            SuspiciousPathKind::AppData => String::from_str("从 AppData\\Roaming 运行（可疑位置）："),
            SuspiciousPathKind::LocalAppData => String::from_str("从 AppData\\Local 运行（可疑位置）："),
            SuspiciousPathKind::UserProfileDownloads => String::from_str("从下载目录运行（可疑位置）："),
            SuspiciousPathKind::Custom { name, .. } => {
                let mut h = String::from_str("自定义可疑目录「");
                h.append(name.as_str());
                h.append("」命中：");
                h
            },
        };
        s.append(exe_path);
        s
    }
}

/// The user directories, as expanded from the environment (`None` where the
/// variable is unset), and the system directories that are never suspicious.
#[derive(Debug, Clone)]
pub struct UserDirs {
    pub temp: Option<String>,
    pub appdata: Option<String>,
    pub local_appdata: Option<String>,
    pub userprofile: Option<String>,
    pub system_dirs: Vec<String>,
}

impl UserDirs {
    /// Directories given by the caller, with no system directories.
    pub fn new(temp: Option<String>, appdata: Option<String>, local_appdata: Option<String>, userprofile: Option<String>) -> (d: UserDirs)
        ensures
            d.temp == temp,
            d.appdata == appdata,
            d.local_appdata == local_appdata,
            d.userprofile == userprofile,
            d.system_dirs@.len() == 0,
    {
        UserDirs { temp, appdata, local_appdata, userprofile, system_dirs: Vec::new() }
    }
}

/// `path` is `dir` or lies below it, ignoring case (a `\` or `/` follows).
pub open spec fn under_dir(dir: Seq<char>, path: Seq<char>) -> bool {
    let d = unicode_lower(dir);
    let p = unicode_lower(path);
    p == d || starts_with(p, d.push('\\')) || starts_with(p, d.push('/'))
}

/// `base` joined with `Downloads` as a Windows path does it.
pub open spec fn downloads_dir(base: Seq<char>) -> Seq<char> {
    if base.len() > 0 && (base.last() == '\\' || base.last() == '/') {
        base + "Downloads"@
    } else {
        base + "\\Downloads"@
    }
}

/// Whether `path` is `dir` or lies below it, ignoring case.
pub fn path_starts_with_ci(dir: &str, path: &str) -> (b: bool)
    ensures
        b == under_dir(dir@, path@),
{
    let d = lower_chars(dir);
    let p = lower_chars(path);
    if same_chars(&p, &d) {
        return true;
    }
    let mut d1 = d.clone();
    d1.push('\\');
    let mut d2 = d.clone();
    d2.push('/');
    crate::text::occurs_at_exec(&p, &d1, 0) || crate::text::occurs_at_exec(&p, &d2, 0)
}

pub open spec fn in_some_dir(dirs: Seq<String>, path: Seq<char>) -> bool {
    exists|i: int| 0 <= i < dirs.len() && #[trigger] under_dir(dirs[i]@, path)
}

fn is_in_system_dir(user_dirs: &UserDirs, path: &str) -> (b: bool)
    ensures
        b == in_some_dir(user_dirs.system_dirs@, path@),
{
    let mut i: usize = 0;
    while i < user_dirs.system_dirs.len()
        invariant
            i <= user_dirs.system_dirs.len(),
            forall|j: int| 0 <= j < i ==> !#[trigger] under_dir(user_dirs.system_dirs@[j]@, path@),
        decreases user_dirs.system_dirs.len() - i,
    {
        if path_starts_with_ci(user_dirs.system_dirs[i].as_str(), path) {
            return true;
        }
        i += 1;
    }
    false
}

/// A user-configured suspicious directory (its path already expanded).
#[derive(Debug, Clone)]
pub struct PathRule {
    pub name: String,
    pub path: String,
    pub weight: u32,
    pub reason: String,
}

/// Weight of a user rule whose file entry gives none.
pub const DEFAULT_PATH_RULE_WEIGHT: u32 = 25;

pub open spec fn opt_under(dir: Option<String>, path: Seq<char>) -> bool {
    match dir {
        Some(d) => under_dir(d@, path),
        None => false,
    }
}

pub open spec fn first_rule_hit(rules: Seq<PathRule>, path: Seq<char>, k: int) -> Option<SuspiciousPathKind>
    decreases rules.len() - k,
{
    if k < 0 || k >= rules.len() {
        None
    } else if under_dir(rules[k].path@, path) {
        Some(SuspiciousPathKind::Custom { name: rules[k].name, weight: rules[k].weight })
    } else {
        first_rule_hit(rules, path, k + 1)
    }
}

/// Where [`is_in_suspicious_path`] places `path`; the system directories win,
/// then downloads, temp, roaming AppData, local AppData, then user rules in
/// order.
pub open spec fn suspicious_kind(path: Seq<char>, dirs: UserDirs, rules: Seq<PathRule>) -> Option<SuspiciousPathKind> {
    if in_some_dir(dirs.system_dirs@, path) {
        None
    } else if dirs.userprofile.is_some() && under_dir(downloads_dir(dirs.userprofile.unwrap()@), path) {
        Some(SuspiciousPathKind::UserProfileDownloads)
    } else if opt_under(dirs.temp, path) {
        Some(SuspiciousPathKind::Temp)
    } else if opt_under(dirs.appdata, path) {
        Some(SuspiciousPathKind::AppData)
    } else if opt_under(dirs.local_appdata, path) {
        Some(SuspiciousPathKind::LocalAppData)
    } else {
        first_rule_hit(rules, path, 0)
    }
}

fn opt_dir_hit(dir: &Option<String>, path: &str) -> (b: bool)
    ensures
        b == opt_under(*dir, path@),
{
    match dir {
        Some(d) => path_starts_with_ci(d.as_str(), path),
        None => false,
    }
}

/// The user's downloads directory below `base`.
pub fn join_downloads(base: &str) -> (r: String)
    ensures
        r@ == downloads_dir(base@),
{
    let bc = chars_of(base);
    let mut r = copy_str(base);
    if bc.len() > 0 && (bc[bc.len() - 1] == '\\' || bc[bc.len() - 1] == '/') {
        r.append("Downloads");
    } else {
        r.append("\\Downloads");
    }
    r
}

/// Classifies the launch directory of `exe_path`.
pub fn is_in_suspicious_path(exe_path: &str, user_dirs: &UserDirs, custom_rules: &[PathRule]) -> (r: Option<SuspiciousPathKind>)
    ensures
        r == suspicious_kind(exe_path@, *user_dirs, custom_rules@),
{
    if is_in_system_dir(user_dirs, exe_path) {
        return None;
    }
    match &user_dirs.userprofile {
        Some(up) => {
            let downloads = join_downloads(up.as_str());
            if path_starts_with_ci(downloads.as_str(), exe_path) {
                return Some(SuspiciousPathKind::UserProfileDownloads);
            }
        },
        None => {},
    }
    if opt_dir_hit(&user_dirs.temp, exe_path) {
        return Some(SuspiciousPathKind::Temp);
    }
    if opt_dir_hit(&user_dirs.appdata, exe_path) {
        return Some(SuspiciousPathKind::AppData);
    }
    if opt_dir_hit(&user_dirs.local_appdata, exe_path) {
        return Some(SuspiciousPathKind::LocalAppData);
    }
    custom_rule_hit(exe_path, custom_rules)
}

/// The first user rule whose directory holds `exe_path`.
fn custom_rule_hit(exe_path: &str, custom_rules: &[PathRule]) -> (r: Option<SuspiciousPathKind>)
    ensures
        r == first_rule_hit(custom_rules@, exe_path@, 0),
{
    let mut k: usize = 0;
    while k < custom_rules.len()
        invariant
            k <= custom_rules.len(),
            first_rule_hit(custom_rules@, exe_path@, 0) == first_rule_hit(custom_rules@, exe_path@, k as int),
        decreases custom_rules.len() - k,
    {
        if path_starts_with_ci(custom_rules[k].path.as_str(), exe_path) {
            return Some(SuspiciousPathKind::Custom { name: custom_rules[k].name.clone(), weight: custom_rules[k].weight });
        }
        k += 1;
    }
    None
}

/// The factors of the launch-directory rule over `procs`: one per process
/// with an executable in a suspicious directory, in order.
pub open spec fn suspicious_path_factors(procs: Seq<ProcessInfo>, dirs: UserDirs, rules: Seq<PathRule>) -> Seq<FactorSpec>
    decreases procs.len(),
{
    if procs.len() == 0 {
        Seq::empty()
    } else {
        let p = procs.last();
        suspicious_path_factors(procs.drop_last(), dirs, rules) + match p.exe {
            Some(e) => match suspicious_kind(e@, dirs, rules) {
                Some(k) => seq![fspec(RiskCategory::FilePath, kind_risk_name(k), kind_weight(k), kind_description(k, e@))],
                None => Seq::empty(),
            },
            None => Seq::empty(),
        }
    }
}

/// Scores the launch directory of every process of `procs`.
pub fn check_path_risk(procs: &[ProcessInfo], user_dirs: &UserDirs, custom_rules: &[PathRule]) -> (r: Vec<RiskFactor>)
    ensures
        factor_views(r@) == suspicious_path_factors(procs@, *user_dirs, custom_rules@),
{
    let mut out: Vec<RiskFactor> = Vec::new();
    let mut i: usize = 0;
    while i < procs.len()
        invariant
            i <= procs.len(),
            factor_views(out@) == suspicious_path_factors(procs@.take(i as int), *user_dirs, custom_rules@),
        decreases procs.len() - i,
    {
        assert(procs@.take(i + 1).drop_last() =~= procs@.take(i as int));
        let p = &procs[i];
        let ghost before = out@;
        match &p.exe {
            Some(e) => match is_in_suspicious_path(e.as_str(), user_dirs, custom_rules) {
                Some(kind) => {
                    let f = RiskFactor {
                        category: RiskCategory::FilePath,
                        name: kind.risk_name(),
                        weight: kind.default_weight(),
                        description: kind.description(e.as_str()),
                    };
                    out.push(f);
                    assert(factor_views(out@) =~= factor_views(before) + seq![factor_views(out@).last()]);
                },
                None => {
                    assert(factor_views(out@) =~= factor_views(before) + Seq::empty());
                },
            },
            None => {
                assert(factor_views(out@) =~= factor_views(before) + Seq::empty());
            },
        }
        i += 1;
    }
    assert(procs@.take(procs.len() as int) =~= procs@);
    out
}

// ---------------------------------------------------------------------------
// Placeholder expansion
// ---------------------------------------------------------------------------
/// The value of the variable `name` in `env` (the first entry with that name).
pub open spec fn env_get(env: Seq<(String, String)>, name: Seq<char>) -> Option<Seq<char>>
    decreases env.len(),
{
    if env.len() == 0 {
        None
    } else if env[0].0@ == name {
        Some(env[0].1@)
    } else {
        env_get(env.drop_first(), name)
    }
}

/// Looks a variable up in `env`.
pub fn env_lookup(env: &[(String, String)], name: &Vec<char>) -> (r: Option<String>)
    ensures
        match r {
            Some(v) => env_get(env@, name@) == Some(v@),
            None => env_get(env@, name@).is_none(),
        },
{
    let mut i: usize = 0;
    assert(env@.subrange(0, env@.len() as int) =~= env@);
    while i < env.len()
        invariant
            i <= env.len(),
            env_get(env@, name@) == env_get(env@.subrange(i as int, env@.len() as int), name@),
        decreases env.len() - i,
    {
        let ghost rest = env@.subrange(i as int, env@.len() as int);
        let key = chars_of(env[i].0.as_str());
        if same_chars(&key, name) {
            assert(rest[0] == env@[i as int]);
            return Some(copy_str(env[i].1.as_str()));
        }
        assert(rest.drop_first() =~= env@.subrange(i + 1, env@.len() as int));
        i += 1;
    }
    None
}

pub open spec fn is_ident_char(c: char) -> bool {
    ('a' <= c && c <= 'z') || ('A' <= c && c <= 'Z') || ('0' <= c && c <= '9') || c == '_'
}

/// First position from `i` on whose character is not an identifier character.
pub open spec fn ident_end(s: Seq<char>, i: int) -> int
    decreases s.len() - i,
{
    if i >= s.len() || !is_ident_char(s[i]) {
        i
    } else {
        ident_end(s, i + 1)
    }
}

/// First position from `i` on that holds `c`, if any.
pub open spec fn find_char_from(s: Seq<char>, i: int, c: char) -> Option<int>
    decreases s.len() - i,
{
    if i >= s.len() || i < 0 {
        None
    } else if s[i] == c {
        Some(i)
    } else {
        find_char_from(s, i + 1, c)
    }
}

/// `s[i..]` with `%VAR%`, `${VAR}` and `$VAR` replaced by the values that
/// `env` gives; a placeholder whose variable is unset stays as written.
pub open spec fn expand_from(s: Seq<char>, i: int, env: Seq<(String, String)>) -> Seq<char>
    decreases s.len() - i,
{
    if i < 0 || i >= s.len() {
        Seq::empty()
    } else if s[i] == '%' {
        proof {
            lemma_find_char_from_bounds(s, i + 1, '%');
        }
        match find_char_from(s, i + 1, '%') {
            Some(e) => match env_get(env, s.subrange(i + 1, e)) {
                Some(v) => v + expand_from(s, e + 1, env),
                None => seq!['%'] + expand_from(s, i + 1, env),
            },
            None => seq!['%'] + expand_from(s, i + 1, env),
        }
    } else if s[i] == '$' && i + 1 < s.len() && s[i + 1] == '{' {
        proof {
            lemma_find_char_from_bounds(s, i + 2, '}');
        }
        match find_char_from(s, i + 2, '}') {
            Some(e) => match env_get(env, s.subrange(i + 2, e)) {
                Some(v) => v + expand_from(s, e + 1, env),
                None => seq!['$'] + expand_from(s, i + 1, env),
            },
            None => seq!['$'] + expand_from(s, i + 1, env),
        }
    } else if s[i] == '$' {
        proof {
            lemma_ident_end_bounds(s, i + 1);
        }
        let e = ident_end(s, i + 1);
        if e > i + 1 && env_get(env, s.subrange(i + 1, e)).is_some() {
            env_get(env, s.subrange(i + 1, e)).unwrap() + expand_from(s, e, env)
        } else {
            seq!['$'] + expand_from(s, i + 1, env)
        }
    } else {
        seq![s[i]] + expand_from(s, i + 1, env)
    }
}

pub proof fn lemma_find_char_from_bounds(s: Seq<char>, i: int, c: char)
    ensures
        match find_char_from(s, i, c) {
            Some(e) => i <= e < s.len() && s[e] == c,
            None => true,
        },
    decreases s.len() - i,
{
    if i >= 0 && i < s.len() && s[i] != c {
        lemma_find_char_from_bounds(s, i + 1, c);
    }
}

pub proof fn lemma_ident_end_bounds(s: Seq<char>, i: int)
    requires
        0 <= i <= s.len(),
    ensures
        i <= ident_end(s, i) <= s.len(),
    decreases s.len() - i,
{
    if i < s.len() && is_ident_char(s[i]) {
        lemma_ident_end_bounds(s, i + 1);
    }
}

pub fn find_char_exec(s: &Vec<char>, i: usize, c: char) -> (r: Option<usize>)
    requires
        i <= s.len(),
    ensures
        match r {
            Some(e) => find_char_from(s@, i as int, c) == Some(e as int),
            None => find_char_from(s@, i as int, c).is_none(),
        },
{
    let mut k = i;
    while k < s.len()
        invariant
            i <= k <= s.len(),
            find_char_from(s@, i as int, c) == find_char_from(s@, k as int, c),
        decreases s.len() - k,
    {
        if s[k] == c {
            return Some(k);
        }
        k += 1;
    }
    None
}

fn ident_end_exec(s: &Vec<char>, i: usize) -> (e: usize)
    requires
        i <= s.len(),
    ensures
        e == ident_end(s@, i as int),
{
    let mut k = i;
    while k < s.len() && (('a' <= s[k] && s[k] <= 'z') || ('A' <= s[k] && s[k] <= 'Z') || ('0' <= s[k] && s[k] <= '9') || s[k] == '_')
        invariant
            i <= k <= s.len(),
            ident_end(s@, i as int) == ident_end(s@, k as int),
        decreases s.len() - k,
    {
        k += 1;
    }
    k
}

/// Expands `%VAR%`, `${VAR}` and `$VAR` in `input` with the values of `env`.
pub fn expand_env_placeholders(input: &str, env: &[(String, String)]) -> (r: String)
    ensures
        r@ == expand_from(input@, 0, env@),
{
    let s = chars_of(input);
    let mut out = String::new();
    let mut i: usize = 0;
    while i < s.len()
        invariant
            i <= s.len(),
            out@ + expand_from(s@, i as int, env@) == expand_from(s@, 0, env@),
        decreases s.len() - i,
    {
        let ghost before = out@;
        let c = s[i];
        if c == '%' {
            proof {
                lemma_find_char_from_bounds(s@, i + 1, '%');
            }
            match find_char_exec(&s, i + 1, '%') {
                Some(e) => {
                    let name = crate::text::string_of(&s, i + 1, e);
                    let nc = chars_of(name.as_str());
                    match env_lookup(env, &nc) {
                        Some(v) => {
                            out.append(v.as_str());
                            assert(before + expand_from(s@, i as int, env@) =~= out@ + expand_from(s@, e + 1, env@));
                            i = e + 1;
                            continue;
                        },
                        None => {},
                    }
                },
                None => {},
            }
            push_char(&mut out, '%');
            assert(before + expand_from(s@, i as int, env@) =~= out@ + expand_from(s@, i + 1, env@));
            i += 1;
        } else if c == '$' && i + 1 < s.len() && s[i + 1] == '{' {
            proof {
                lemma_find_char_from_bounds(s@, i + 2, '}');
            }
            match find_char_exec(&s, i + 2, '}') {
                Some(e) => {
                    let name = crate::text::string_of(&s, i + 2, e);
                    let nc = chars_of(name.as_str());
                    match env_lookup(env, &nc) {
                        Some(v) => {
                            out.append(v.as_str());
                            assert(before + expand_from(s@, i as int, env@) =~= out@ + expand_from(s@, e + 1, env@));
                            i = e + 1;
                            continue;
                        },
                        None => {},
                    }
                },
                None => {},
            }
            push_char(&mut out, '$');
            assert(before + expand_from(s@, i as int, env@) =~= out@ + expand_from(s@, i + 1, env@));
            i += 1;
        } else if c == '$' {
            proof {
                lemma_ident_end_bounds(s@, i + 1);
            }
            let e = ident_end_exec(&s, i + 1);
            if e > i + 1 {
                let name = crate::text::string_of(&s, i + 1, e);
                let nc = chars_of(name.as_str());
                match env_lookup(env, &nc) {
                    Some(v) => {
                        out.append(v.as_str());
                        assert(before + expand_from(s@, i as int, env@) =~= out@ + expand_from(s@, e as int, env@));
                        i = e;
                        continue;
                    },
                    None => {},
                }
            }
            push_char(&mut out, '$');
            assert(before + expand_from(s@, i as int, env@) =~= out@ + expand_from(s@, i + 1, env@));
            i += 1;
        } else {
            push_char(&mut out, c);
            assert(before + expand_from(s@, i as int, env@) =~= out@ + expand_from(s@, i + 1, env@));
            i += 1;
        }
    }
    assert(out@ + expand_from(s@, i as int, env@) =~= out@);
    out
}

/// The rules of a path-rules file, given as `(name, path, weight, reason)`
/// entries, with their paths expanded; entries whose path expands to nothing
/// are dropped.
pub open spec fn expanded_path_rules(raw: Seq<(String, String, u32, String)>, env: Seq<(String, String)>) -> Seq<(Seq<char>, Seq<char>, u32, Seq<char>)>
    decreases raw.len(),
{
    if raw.len() == 0 {
        Seq::empty()
    } else {
        let e = raw.last();
        let p = expand_from(e.1@, 0, env);
        expanded_path_rules(raw.drop_last(), env) + if p.len() > 0 {
            seq![(e.0@, p, e.2, e.3@)]
        } else {
            Seq::empty()
        }
    }
}

pub open spec fn path_rule_views(rules: Seq<PathRule>) -> Seq<(Seq<char>, Seq<char>, u32, Seq<char>)> {
    rules.map_values(|r: PathRule| (r.name@, r.path@, r.weight, r.reason@))
}

/// Builds the rules of a path-rules file from its entries and the
/// environment.
pub fn path_rules_from_entries(raw: &[(String, String, u32, String)], env: &[(String, String)]) -> (r: Vec<PathRule>)
    ensures
        path_rule_views(r@) == expanded_path_rules(raw@, env@),
{
    let mut out: Vec<PathRule> = Vec::new();
    let mut i: usize = 0;
    while i < raw.len()
        invariant
            i <= raw.len(),
            path_rule_views(out@) == expanded_path_rules(raw@.take(i as int), env@),
        decreases raw.len() - i,
    {
        assert(raw@.take(i + 1).drop_last() =~= raw@.take(i as int));
        let e = &raw[i];
        let ghost before = out@;
        let p = expand_env_placeholders(e.1.as_str(), env);
        let pc = chars_of(p.as_str());
        if pc.len() > 0 {
            out.push(PathRule { name: copy_str(e.0.as_str()), path: p, weight: e.2, reason: copy_str(e.3.as_str()) });
            assert(path_rule_views(out@) =~= path_rule_views(before) + seq![(e.0@, pc@, e.2, e.3@)]);
        } else {
            assert(path_rule_views(out@) =~= path_rule_views(before) + Seq::empty());
        }
        i += 1;
    }
    assert(raw@.take(raw.len() as int) =~= raw@);
    out
}


/// Where the user path rules live: `path_rules.toml` in the configuration
/// directory (`sep` is the platform's path separator).
pub fn default_rules_path(config_dir: &str, sep: char) -> (p: String)
    ensures
        p@ == crate::text::path_join(config_dir@, "path_rules.toml"@, sep),
{
    crate::text::join_path(config_dir, "path_rules.toml", sep)
}

/// The user path rules from the entries of the rules file (`None` when the
/// file is missing or does not parse), with placeholders expanded from
/// `env`: no rules without entries.
pub fn load_path_rules(entries: Option<&[(String, String, u32, String)]>, env: &[(String, String)]) -> (r: Vec<PathRule>)
    ensures
        path_rule_views(r@) == match entries {
            Some(raw) => expanded_path_rules(raw@, env@),
            None => Seq::empty(),
        },
{
    match entries {
        Some(raw) => path_rules_from_entries(raw, env),
        None => {
            let v: Vec<PathRule> = Vec::new();
            assert(path_rule_views(v@) =~= Seq::empty());
            v
        },
    }
}

} // verus!
