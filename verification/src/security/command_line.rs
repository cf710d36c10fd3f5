//! Command-line rules: encoded PowerShell, LOLBin abuse, credential access,
//! persistence.
use vstd::prelude::*;
use crate::text::{
    chars_of, contains_chars, decimal, find_chars, first_index, has_lit, has_sub, hs, join,
    join_strings, lemma_first_occurrence_unique, lower_chars, occurs_at, push_decimal, trim,
    trim_bounds, unicode_lower, utf8_len, utf8_len_of, views,
};
use crate::security::score::{factor, factor_owned, factor_views, fspec, push_when, opt_factor, FactorSpec, RiskCategory, RiskFactor};

verus! {

pub open spec fn cl(name: &str, weight: u32, description: Seq<char>) -> FactorSpec {
    fspec(RiskCategory::CommandLine, name@, weight, description)
}

/// The trimmed text after the first `/c` in `s`.
pub open spec fn after_first_slash_c(s: Seq<char>) -> Seq<char> {
    trim(s.subrange(first_index(s, "/c"@) + 2, s.len() as int))
}

pub open spec fn long_cmd_description(n: nat) -> Seq<char> {
    "cmd /c 长命令 ("@ + decimal(n) + "字符)"@
}

pub open spec fn long_cmd_factor(s: Seq<char>) -> Seq<FactorSpec> {
    let long_len = utf8_len(after_first_slash_c(s));
    opt_factor((hs(s, "cmd /c") || hs(s, "cmd.exe /c")) && hs(s, "/c") && long_len > 200, cl("long_cmd_string", 15, long_cmd_description(long_len)))
}

/// `acc` followed by the factors of the rules on PowerShell options, `cmd /c`,
/// downloads, registry and accounts.
pub open spec fn basic_factors(acc: Seq<FactorSpec>, s: Seq<char>) -> Seq<FactorSpec> {
    acc + opt_factor(hs(s, "-enc") || hs(s, "-encodedcommand"), cl("encoded_command", 30, "PowerShell 编码执行"@))
    + opt_factor(hs(s, "-windowstyle hidden") || hs(s, "-w hidden"), cl("hidden_window", 25, "隐藏窗口执行"@))
    + opt_factor((hs(s, "-noprofile") || hs(s, "-nop")) && hs(s, "-noninteractive"), cl("stealth_powershell", 15, "无配置文件+非交互模式"@))
    + long_cmd_factor(s)
    + opt_factor(hs(s, "iex ") || hs(s, "invoke-expression"), cl("invoke_expression", 15, "使用 Invoke-Expression"@))
    + opt_factor(hs(s, "downloadstring") || hs(s, "downloadfile"), cl("web_download", 20, "Web 下载命令"@))
    + opt_factor(hs(s, "reg add") || hs(s, "reg delete"), cl("registry_op", 5, "注册表操作"@))
    + opt_factor(hs(s, "net user") || hs(s, "net localgroup"), cl("account_op", 15, "账户操作"@))
    + opt_factor(hs(s, "certutil") && (hs(s, "-urlcache") || hs(s, "-split")), cl("certutil_download", 25, "certutil 下载文件"@))
    + opt_factor(hs(s, "bitsadmin") && hs(s, "/transfer"), cl("bitsadmin_download", 20, "bitsadmin 传输文件"@))
    + opt_factor(hs(s, "mshta") && (hs(s, "javascript") || hs(s, "vbscript") || hs(s, "http")), cl("mshta_remote", 25, "mshta 执行远程脚本"@))
    + opt_factor(hs(s, "regsvr32") && hs(s, "/i:") && (hs(s, "http") || hs(s, "scrobj.dll")), cl("regsvr32_remote", 25, "regsvr32 加载远程组件"@))
    + opt_factor(hs(s, "wmic") && hs(s, "process") && hs(s, "call") && hs(s, "create"), cl("wmic_create", 15, "wmic 远程创建进程"@))
    + opt_factor(hs(s, "echo") && hs(s, "|") && hs(s, "powershell"), cl("pipe_to_powershell", 20, "管道输入 PowerShell"@))
}

/// `acc` followed by the factors of the rules on living-off-the-land binaries.
pub open spec fn lolbin_factors(acc: Seq<FactorSpec>, s: Seq<char>) -> Seq<FactorSpec> {
    acc + opt_factor(hs(s, "rundll32") && (hs(s, "javascript:") || hs(s, "vbscript:") || (hs(s, "http") && !hs(s, "windows\\")) || hs(s, ".sct") || hs(s, ".xsl")), cl("rundll32_suspicious", 25, "rundll32 可疑调用"@))
    + opt_factor(hs(s, "msiexec") && hs(s, "http"), cl("msiexec_remote", 25, "msiexec 远程安装"@))
    + opt_factor(hs(s, "forfiles") && hs(s, "/c"), cl("forfiles_exec", 20, "forfiles 间接执行命令"@))
    + opt_factor(hs(s, "installutil") && hs(s, "/u"), cl("installutil_exec", 20, "installutil 卸载模式执行代码"@))
    + opt_factor(hs(s, "cmstp") && (hs(s, ".inf") || hs(s, ".sct")), cl("cmstp_exec", 20, "cmstp 加载脚本文件"@))
    + opt_factor(hs(s, "pcalua") && hs(s, "-a"), cl("pcalua_exec", 15, "pcalua 间接执行程序"@))
}

/// The credential-tool patterns, each spelled from fragments.
pub open spec fn cred_pattern(k: int) -> Seq<char> {
    if k == 0 {
        "mi"@ + "mi"@ + "ka"@ + "tz"@
    } else if k == 1 {
        "pro"@ + "cd"@ + "um"@ + "p"@
    } else if k == 2 {
        "lsa"@ + "ss"@ + "y"@
    } else if k == 3 {
        "sh"@ + "ar"@ + "pk"@ + "at"@ + "z"@
    } else if k == 4 {
        "se"@ + "ku"@ + "rl"@ + "sa"@
    } else {
        "lo"@ + "go"@ + "np"@ + "as"@ + "sw"@ + "or"@ + "ds"@
    }
}

pub open spec fn cred_description(k: int) -> Seq<char> {
    if k == 0 {
        "凭证转储工具"@
    } else if k == 1 {
        "进程内存转储"@
    } else if k == 2 {
        "LSASS 凭证提取"@
    } else if k == 3 {
        "凭证攻击工具"@
    } else if k == 4 {
        "凭证访问模块"@
    } else {
        "密码枚举操作"@
    }
}

/// The factor of the first credential pattern from `k` on that occurs in `s`.
pub open spec fn cred_from(s: Seq<char>, k: int) -> Seq<FactorSpec>
    decreases 6 - k,
{
    if k >= 6 || k < 0 {
        Seq::empty()
    } else if has_sub(s, cred_pattern(k)) {
        seq![cl("credential_access", 30, cred_description(k))]
    } else {
        cred_from(s, k + 1)
    }
}

pub open spec fn schtasks_high_risk(s: Seq<char>) -> bool {
    hs(s, "/ru system") || hs(s, "nt authority") || hs(s, "onlogon") || hs(s, "onstart") || hs(s, "onidle")
}

pub open spec fn autorun_key(s: Seq<char>) -> bool {
    hs(s, "\\run\\") || hs(s, "\\runonce\\") || hs(s, "\\runonceex\\") || hs(s, "currentversion\\run")
        || hs(s, "currentversion\\runonce") || hs(s, "currentversion\\explorer\\sharedtaskscheduler")
        || hs(s, "currentversion\\explorer\\shell.execute")
}

/// `acc` followed by the factors of the rules on credential access and
/// persistence.
pub open spec fn credential_factors(acc: Seq<FactorSpec>, s: Seq<char>) -> Seq<FactorSpec> {
    acc + cred_from(s, 0)
    + opt_factor((hs(s, "procdump") || hs(s, "procdump64")) && has_sub(s, "l"@ + "s"@ + "a"@ + "s"@ + "s"@), cl("lsass_dump", 35, "对系统凭证进程进行内存转储"@))
    + opt_factor(hs(s, "schtasks") && hs(s, "/create"), if schtasks_high_risk(s) {
        cl("schtasks_create", 20, "创建高权限计划任务"@)
    } else {
        cl("schtasks_create", 10, "创建计划任务"@)
    })
    + opt_factor((hs(s, "reg add") || hs(s, "reg import")) && autorun_key(s), cl("registry_autorun", 20, "写入注册表自启动项"@))
}

/// Every factor that the rules find in the lowered command line `s`.
pub open spec fn factors_of_lowered(s: Seq<char>) -> Seq<FactorSpec> {
    credential_factors(lolbin_factors(basic_factors(Seq::empty(), s), s), s)
}

/// The factors of a command given as its arguments.
pub open spec fn command_line_factors(cmd: Seq<Seq<char>>) -> Seq<FactorSpec> {
    if cmd.len() == 0 {
        Seq::empty()
    } else {
        factors_of_lowered(unicode_lower(join(cmd, " "@)))
    }
}

fn cmd_factor(name: &str, weight: u32, description: &str) -> (r: RiskFactor)
    ensures
        r@ == cl(name, weight, description@),
{
    factor(RiskCategory::CommandLine, name, weight, description)
}

fn long_cmd_rule(s: &Vec<char>, v: &mut Vec<RiskFactor>)
    ensures
        factor_views(final(v)@) == factor_views(old(v)@) + long_cmd_factor(s@),
{
    let ghost sv = s@;
    let ghost cond = (hs(sv, "cmd /c") || hs(sv, "cmd.exe /c")) && hs(sv, "/c") && utf8_len(after_first_slash_c(sv)) > 200;
    let ghost before = factor_views(v@);
    if has_lit(s, "cmd /c") || has_lit(s, "cmd.exe /c") {
        let slash_c = chars_of("/c");
        match find_chars(s, &slash_c) {
            Some(idx) => {
                proof {
                    reveal_strlit("/c");
                    lemma_first_occurrence_unique(sv, "/c"@, idx as int);
                    assert(occurs_at(sv, "/c"@, idx as int));
                    assert("/c"@.len() == 2);
                    assert(idx + 2 <= s.len());
                }
                let (a, b) = trim_bounds(s, idx + 2, s.len());
                let n = utf8_len_of(s, a, b);
                if n > 200 {
                    let mut d = String::from_str("cmd /c 长命令 (");
                    push_decimal(&mut d, n);
                    d.append("字符)");
                    let f = factor_owned(RiskCategory::CommandLine, "long_cmd_string", 15, d);
                    push_when(v, true, f);
                } else {
                    assert(factor_views(v@) =~= before + opt_factor(cond, cl("long_cmd_string", 15, long_cmd_description(utf8_len(after_first_slash_c(sv))))));
                }
            },
            None => {
                assert(factor_views(v@) =~= before + opt_factor(cond, cl("long_cmd_string", 15, long_cmd_description(utf8_len(after_first_slash_c(sv))))));
            },
        }
    } else {
        assert(factor_views(v@) =~= before + opt_factor(cond, cl("long_cmd_string", 15, long_cmd_description(utf8_len(after_first_slash_c(sv))))));
    }
}

fn basic_rules(s: &Vec<char>, v: &mut Vec<RiskFactor>)
    ensures
        factor_views(final(v)@) == basic_factors(factor_views(old(v)@), s@),
{
    let ghost start = factor_views(v@);
    push_when(v, has_lit(s, "-enc") || has_lit(s, "-encodedcommand"), cmd_factor("encoded_command", 30, "PowerShell 编码执行"));
    push_when(v, has_lit(s, "-windowstyle hidden") || has_lit(s, "-w hidden"), cmd_factor("hidden_window", 25, "隐藏窗口执行"));
    push_when(v, (has_lit(s, "-noprofile") || has_lit(s, "-nop")) && has_lit(s, "-noninteractive"), cmd_factor("stealth_powershell", 15, "无配置文件+非交互模式"));
    long_cmd_rule(s, v);
    push_when(v, has_lit(s, "iex ") || has_lit(s, "invoke-expression"), cmd_factor("invoke_expression", 15, "使用 Invoke-Expression"));
    push_when(v, has_lit(s, "downloadstring") || has_lit(s, "downloadfile"), cmd_factor("web_download", 20, "Web 下载命令"));
    push_when(v, has_lit(s, "reg add") || has_lit(s, "reg delete"), cmd_factor("registry_op", 5, "注册表操作"));
    push_when(v, has_lit(s, "net user") || has_lit(s, "net localgroup"), cmd_factor("account_op", 15, "账户操作"));
    push_when(v, has_lit(s, "certutil") && (has_lit(s, "-urlcache") || has_lit(s, "-split")), cmd_factor("certutil_download", 25, "certutil 下载文件"));
    push_when(v, has_lit(s, "bitsadmin") && has_lit(s, "/transfer"), cmd_factor("bitsadmin_download", 20, "bitsadmin 传输文件"));
    push_when(v, has_lit(s, "mshta") && (has_lit(s, "javascript") || has_lit(s, "vbscript") || has_lit(s, "http")), cmd_factor("mshta_remote", 25, "mshta 执行远程脚本"));
    push_when(v, has_lit(s, "regsvr32") && has_lit(s, "/i:") && (has_lit(s, "http") || has_lit(s, "scrobj.dll")), cmd_factor("regsvr32_remote", 25, "regsvr32 加载远程组件"));
    push_when(v, has_lit(s, "wmic") && has_lit(s, "process") && has_lit(s, "call") && has_lit(s, "create"), cmd_factor("wmic_create", 15, "wmic 远程创建进程"));
    push_when(v, has_lit(s, "echo") && has_lit(s, "|") && has_lit(s, "powershell"), cmd_factor("pipe_to_powershell", 20, "管道输入 PowerShell"));
}

fn lolbin_rules(s: &Vec<char>, v: &mut Vec<RiskFactor>)
    ensures
        factor_views(final(v)@) == lolbin_factors(factor_views(old(v)@), s@),
{
    let ghost start = factor_views(v@);
    if has_lit(s, "rundll32") {
        let suspicious = has_lit(s, "javascript:") || has_lit(s, "vbscript:") || (has_lit(s, "http") && !has_lit(s, "windows\\")) || has_lit(s, ".sct") || has_lit(s, ".xsl");
        push_when(v, suspicious, cmd_factor("rundll32_suspicious", 25, "rundll32 可疑调用"));
    } else {
        push_when(v, false, cmd_factor("rundll32_suspicious", 25, "rundll32 可疑调用"));
    }
    push_when(v, has_lit(s, "msiexec") && has_lit(s, "http"), cmd_factor("msiexec_remote", 25, "msiexec 远程安装"));
    push_when(v, has_lit(s, "forfiles") && has_lit(s, "/c"), cmd_factor("forfiles_exec", 20, "forfiles 间接执行命令"));
    push_when(v, has_lit(s, "installutil") && has_lit(s, "/u"), cmd_factor("installutil_exec", 20, "installutil 卸载模式执行代码"));
    push_when(v, has_lit(s, "cmstp") && (has_lit(s, ".inf") || has_lit(s, ".sct")), cmd_factor("cmstp_exec", 20, "cmstp 加载脚本文件"));
    push_when(v, has_lit(s, "pcalua") && has_lit(s, "-a"), cmd_factor("pcalua_exec", 15, "pcalua 间接执行程序"));
}

/// The credential-tool pattern `k`, assembled from its fragments.
fn cred_pattern_exec(k: usize) -> (p: String)
    requires
        k < 6,
    ensures
        p@ == cred_pattern(k as int),
{
    let mut p = String::new();
    if k == 0 {
        p.append("mi");
        p.append("mi");
        p.append("ka");
        p.append("tz");
    } else if k == 1 {
        p.append("pro");
        p.append("cd");
        p.append("um");
        p.append("p");
    } else if k == 2 {
        p.append("lsa");
        p.append("ss");
        p.append("y");
    } else if k == 3 {
        p.append("sh");
        p.append("ar");
        p.append("pk");
        p.append("at");
        p.append("z");
    } else if k == 4 {
        p.append("se");
        p.append("ku");
        p.append("rl");
        p.append("sa");
    } else {
        p.append("lo");
        p.append("go");
        p.append("np");
        p.append("as");
        p.append("sw");
        p.append("or");
        p.append("ds");
    }
    p
}

fn cred_description_exec(k: usize) -> (d: &'static str)
    requires
        k < 6,
    ensures
        d@ == cred_description(k as int),
{
    if k == 0 {
        "凭证转储工具"
    } else if k == 1 {
        "进程内存转储"
    } else if k == 2 {
        "LSASS 凭证提取"
    } else if k == 3 {
        "凭证攻击工具"
    } else if k == 4 {
        "凭证访问模块"
    } else {
        "密码枚举操作"
    }
}

fn credential_tool_rule(s: &Vec<char>, v: &mut Vec<RiskFactor>)
    ensures
        factor_views(final(v)@) == factor_views(old(v)@) + cred_from(s@, 0),
{
    let ghost start = factor_views(v@);
    let mut k: usize = 0;
    while k < 6
        invariant
            k <= 6,
            v@ == old(v)@,
            start == factor_views(old(v)@),
            cred_from(s@, 0) == cred_from(s@, k as int),
        decreases 6 - k,
    {
        let p = cred_pattern_exec(k);
        let pc = chars_of(p.as_str());
        if contains_chars(s, &pc) {
            let f = cmd_factor("credential_access", 30, cred_description_exec(k));
            let ghost fv = f@;
            assert(has_sub(s@, cred_pattern(k as int)));
            assert(cred_from(s@, k as int) == seq![fv]);
            assert(factor_views(v@) == start);
            push_when(v, true, f);
            assert(opt_factor(true, fv) == seq![fv]);
            assert(factor_views(v@) == start + cred_from(s@, 0));
            return;
        }
        k += 1;
    }
    assert(factor_views(v@) =~= start + cred_from(s@, 0));
}

fn credential_rules(s: &Vec<char>, v: &mut Vec<RiskFactor>)
    ensures
        factor_views(final(v)@) == credential_factors(factor_views(old(v)@), s@),
{
    let ghost start = factor_views(v@);
    credential_tool_rule(s, v);
    let mut lsass = String::new();
    lsass.append("l");
    lsass.append("s");
    lsass.append("a");
    lsass.append("s");
    lsass.append("s");
    let lc = chars_of(lsass.as_str());
    push_when(v, (has_lit(s, "procdump") || has_lit(s, "procdump64")) && contains_chars(s, &lc), cmd_factor("lsass_dump", 35, "对系统凭证进程进行内存转储"));
    if has_lit(s, "schtasks") && has_lit(s, "/create") {
        let high_risk = has_lit(s, "/ru system") || has_lit(s, "nt authority") || has_lit(s, "onlogon") || has_lit(s, "onstart") || has_lit(s, "onidle");
        let f = if high_risk {
            cmd_factor("schtasks_create", 20, "创建高权限计划任务")
        } else {
            cmd_factor("schtasks_create", 10, "创建计划任务")
        };
        push_when(v, true, f);
    } else {
        push_when(v, false, cmd_factor("schtasks_create", 10, "创建计划任务"));
    }
    if has_lit(s, "reg add") || has_lit(s, "reg import") {
        let run_key = has_lit(s, "\\run\\") || has_lit(s, "\\runonce\\") || has_lit(s, "\\runonceex\\") || has_lit(s, "currentversion\\run")
            || has_lit(s, "currentversion\\runonce") || has_lit(s, "currentversion\\explorer\\sharedtaskscheduler")
            || has_lit(s, "currentversion\\explorer\\shell.execute");
        push_when(v, run_key, cmd_factor("registry_autorun", 20, "写入注册表自启动项"));
    } else {
        push_when(v, false, cmd_factor("registry_autorun", 20, "写入注册表自启动项"));
    }
}

/// Scores a command line given as its arguments.
///
/// The arguments are joined with single spaces and lowered; every rule that
/// matches the result contributes one factor, in the order of the rules.
pub fn check_command_line(cmd: &[String]) -> (r: Vec<RiskFactor>)
    ensures
        factor_views(r@) == command_line_factors(views(cmd@)),
{
    if cmd.len() == 0 {
        let r: Vec<RiskFactor> = Vec::new();
        assert(factor_views(r@) =~= Seq::<FactorSpec>::empty());
        return r;
    }
    let joined = join_strings(cmd, " ");
    let s = lower_chars(joined.as_str());
    let mut v: Vec<RiskFactor> = Vec::new();
    assert(factor_views(v@) =~= Seq::<FactorSpec>::empty());
    basic_rules(&s, &mut v);
    lolbin_rules(&s, &mut v);
    credential_rules(&s, &mut v);
    v
}


/// The position of each rule's factor name in the order in which the rules
/// run; names of no rule come last.
#[verifier::opaque]
spec fn rule_rank(name: Seq<char>) -> int {
    if name == "encoded_command"@ { 0 }
    else if name == "hidden_window"@ { 1 }
    else if name == "stealth_powershell"@ { 2 }
    else if name == "long_cmd_string"@ { 3 }
    else if name == "invoke_expression"@ { 4 }
    else if name == "web_download"@ { 5 }
    else if name == "registry_op"@ { 6 }
    else if name == "account_op"@ { 7 }
    else if name == "certutil_download"@ { 8 }
    else if name == "bitsadmin_download"@ { 9 }
    else if name == "mshta_remote"@ { 10 }
    else if name == "regsvr32_remote"@ { 11 }
    else if name == "wmic_create"@ { 12 }
    else if name == "pipe_to_powershell"@ { 13 }
    else if name == "rundll32_suspicious"@ { 14 }
    else if name == "msiexec_remote"@ { 15 }
    else if name == "forfiles_exec"@ { 16 }
    else if name == "installutil_exec"@ { 17 }
    else if name == "cmstp_exec"@ { 18 }
    else if name == "pcalua_exec"@ { 19 }
    else if name == "credential_access"@ { 20 }
    else if name == "lsass_dump"@ { 21 }
    else if name == "schtasks_create"@ { 22 }
    else if name == "registry_autorun"@ { 23 }
    else { 24 }
}

/// Every factor is a command-line factor of weight 5 to 35 named by a rule,
/// and the rules' positions strictly increase along the sequence.
#[verifier::opaque]
spec fn rules_ok(t: Seq<FactorSpec>) -> bool {
    &&& forall|i: int| 0 <= i < t.len() ==> {
        &&& (#[trigger] t[i]).category == RiskCategory::CommandLine
        &&& 5 <= t[i].weight <= 35
        &&& i <= rule_rank(t[i].name) < 24
    }
    &&& forall|i: int, j: int| 0 <= i < j < t.len() ==> rule_rank((#[trigger] t[i]).name) < rule_rank((#[trigger] t[j]).name)
}

/// One past the position of the last rule that contributed to `t`.
#[verifier::opaque]
spec fn rank_bound(t: Seq<FactorSpec>) -> int {
    if t.len() == 0 { 0 } else { rule_rank(t.last().name) + 1 }
}

proof fn lemma_rule_step(t: Seq<FactorSpec>, o: Seq<FactorSpec>)
    requires
        rules_ok(t),
        t.len() <= rank_bound(t),
        o.len() <= 1,
        o.len() == 1 ==> {
            &&& o[0].category == RiskCategory::CommandLine
            &&& 5 <= o[0].weight <= 35
            &&& rank_bound(t) <= rule_rank(o[0].name) < 24
        },
    ensures
        rules_ok(t + o),
        (t + o).len() <= rank_bound(t + o),
        rank_bound(t + o) <= if o.len() == 1 { rule_rank(o[0].name) + 1 } else { rank_bound(t) },
{
    reveal(rules_ok);
    reveal(rank_bound);
    let u = t + o;
    if o.len() == 1 {
        assert(u =~= t.push(o[0]));
        assert forall|i: int, j: int| 0 <= i < j < u.len() implies rule_rank((#[trigger] u[i]).name) < rule_rank((#[trigger] u[j]).name) by {
            if j == t.len() && t.len() > 0 {
                assert(u[i] == t[i]);
                if i < t.len() - 1 {
                    assert(rule_rank(t[i].name) < rule_rank(t[t.len() - 1].name));
                }
            }
        }
    } else {
        assert(u =~= t);
    }
}

/// `cred_from` gives at most one factor, the credential-access one.
proof fn lemma_cred_shape(s: Seq<char>, k: int)
    ensures
        cred_from(s, k) == opt_factor(cred_from(s, k).len() > 0, cl("credential_access", 30, cred_from(s, k)[0].description)),
    decreases 6 - k,
{
    if k >= 6 || k < 0 {
    } else if has_sub(s, cred_pattern(k)) {
    } else {
        lemma_cred_shape(s, k + 1);
    }
}

proof fn lemma_rule_ranks()
    ensures
        rule_rank("encoded_command"@) == 0,
        rule_rank("hidden_window"@) == 1,
        rule_rank("stealth_powershell"@) == 2,
        rule_rank("long_cmd_string"@) == 3,
        rule_rank("invoke_expression"@) == 4,
        rule_rank("web_download"@) == 5,
        rule_rank("registry_op"@) == 6,
        rule_rank("account_op"@) == 7,
        rule_rank("certutil_download"@) == 8,
        rule_rank("bitsadmin_download"@) == 9,
        rule_rank("mshta_remote"@) == 10,
        rule_rank("regsvr32_remote"@) == 11,
        rule_rank("wmic_create"@) == 12,
        rule_rank("pipe_to_powershell"@) == 13,
        rule_rank("rundll32_suspicious"@) == 14,
        rule_rank("msiexec_remote"@) == 15,
        rule_rank("forfiles_exec"@) == 16,
        rule_rank("installutil_exec"@) == 17,
        rule_rank("cmstp_exec"@) == 18,
        rule_rank("pcalua_exec"@) == 19,
        rule_rank("credential_access"@) == 20,
        rule_rank("lsass_dump"@) == 21,
        rule_rank("schtasks_create"@) == 22,
        rule_rank("registry_autorun"@) == 23,
{
    reveal(rule_rank);
    reveal_strlit("encoded_command");
    assert("encoded_command"@.len() == 15 && "encoded_command"@[0] == 'e' && "encoded_command"@[1] == 'n');
    reveal_strlit("hidden_window");
    assert("hidden_window"@.len() == 13 && "hidden_window"@[0] == 'h' && "hidden_window"@[1] == 'i');
    reveal_strlit("stealth_powershell");
    assert("stealth_powershell"@.len() == 18 && "stealth_powershell"@[0] == 's' && "stealth_powershell"@[1] == 't');
    reveal_strlit("long_cmd_string");
    assert("long_cmd_string"@.len() == 15 && "long_cmd_string"@[0] == 'l' && "long_cmd_string"@[1] == 'o');
    reveal_strlit("invoke_expression");
    assert("invoke_expression"@.len() == 17 && "invoke_expression"@[0] == 'i' && "invoke_expression"@[1] == 'n');
    reveal_strlit("web_download");
    assert("web_download"@.len() == 12 && "web_download"@[0] == 'w' && "web_download"@[1] == 'e');
    reveal_strlit("registry_op");
    assert("registry_op"@.len() == 11 && "registry_op"@[0] == 'r' && "registry_op"@[1] == 'e');
    reveal_strlit("account_op");
    assert("account_op"@.len() == 10 && "account_op"@[0] == 'a' && "account_op"@[1] == 'c');
    reveal_strlit("certutil_download");
    assert("certutil_download"@.len() == 17 && "certutil_download"@[0] == 'c' && "certutil_download"@[1] == 'e');
    reveal_strlit("bitsadmin_download");
    assert("bitsadmin_download"@.len() == 18 && "bitsadmin_download"@[0] == 'b' && "bitsadmin_download"@[1] == 'i');
    reveal_strlit("mshta_remote");
    assert("mshta_remote"@.len() == 12 && "mshta_remote"@[0] == 'm' && "mshta_remote"@[1] == 's');
    reveal_strlit("regsvr32_remote");
    assert("regsvr32_remote"@.len() == 15 && "regsvr32_remote"@[0] == 'r' && "regsvr32_remote"@[1] == 'e');
    reveal_strlit("wmic_create");
    assert("wmic_create"@.len() == 11 && "wmic_create"@[0] == 'w' && "wmic_create"@[1] == 'm');
    reveal_strlit("pipe_to_powershell");
    assert("pipe_to_powershell"@.len() == 18 && "pipe_to_powershell"@[0] == 'p' && "pipe_to_powershell"@[1] == 'i');
    reveal_strlit("rundll32_suspicious");
    assert("rundll32_suspicious"@.len() == 19 && "rundll32_suspicious"@[0] == 'r' && "rundll32_suspicious"@[1] == 'u');
    reveal_strlit("msiexec_remote");
    assert("msiexec_remote"@.len() == 14 && "msiexec_remote"@[0] == 'm' && "msiexec_remote"@[1] == 's');
    reveal_strlit("forfiles_exec");
    assert("forfiles_exec"@.len() == 13 && "forfiles_exec"@[0] == 'f' && "forfiles_exec"@[1] == 'o');
    reveal_strlit("installutil_exec");
    assert("installutil_exec"@.len() == 16 && "installutil_exec"@[0] == 'i' && "installutil_exec"@[1] == 'n');
    reveal_strlit("cmstp_exec");
    assert("cmstp_exec"@.len() == 10 && "cmstp_exec"@[0] == 'c' && "cmstp_exec"@[1] == 'm');
    reveal_strlit("pcalua_exec");
    assert("pcalua_exec"@.len() == 11 && "pcalua_exec"@[0] == 'p' && "pcalua_exec"@[1] == 'c');
    reveal_strlit("credential_access");
    assert("credential_access"@.len() == 17 && "credential_access"@[0] == 'c' && "credential_access"@[1] == 'r');
    reveal_strlit("lsass_dump");
    assert("lsass_dump"@.len() == 10 && "lsass_dump"@[0] == 'l' && "lsass_dump"@[1] == 's');
    reveal_strlit("schtasks_create");
    assert("schtasks_create"@.len() == 15 && "schtasks_create"@[0] == 's' && "schtasks_create"@[1] == 'c');
    reveal_strlit("registry_autorun");
    assert("registry_autorun"@.len() == 16 && "registry_autorun"@[0] == 'r' && "registry_autorun"@[1] == 'e');
}

/// The factors of the first seven basic rules, after `acc`.
spec fn basic_head(acc: Seq<FactorSpec>, s: Seq<char>) -> Seq<FactorSpec> {
    acc
        + opt_factor(hs(s, "-enc") || hs(s, "-encodedcommand"), cl("encoded_command", 30, "PowerShell 编码执行"@))
        + opt_factor(hs(s, "-windowstyle hidden") || hs(s, "-w hidden"), cl("hidden_window", 25, "隐藏窗口执行"@))
        + opt_factor((hs(s, "-noprofile") || hs(s, "-nop")) && hs(s, "-noninteractive"), cl("stealth_powershell", 15, "无配置文件+非交互模式"@))
        + long_cmd_factor(s)
        + opt_factor(hs(s, "iex ") || hs(s, "invoke-expression"), cl("invoke_expression", 15, "使用 Invoke-Expression"@))
        + opt_factor(hs(s, "downloadstring") || hs(s, "downloadfile"), cl("web_download", 20, "Web 下载命令"@))
        + opt_factor(hs(s, "reg add") || hs(s, "reg delete"), cl("registry_op", 5, "注册表操作"@))
}

/// The factors of the last seven basic rules, after `acc`.
spec fn basic_tail(acc: Seq<FactorSpec>, s: Seq<char>) -> Seq<FactorSpec> {
    acc
        + opt_factor(hs(s, "net user") || hs(s, "net localgroup"), cl("account_op", 15, "账户操作"@))
        + opt_factor(hs(s, "certutil") && (hs(s, "-urlcache") || hs(s, "-split")), cl("certutil_download", 25, "certutil 下载文件"@))
        + opt_factor(hs(s, "bitsadmin") && hs(s, "/transfer"), cl("bitsadmin_download", 20, "bitsadmin 传输文件"@))
        + opt_factor(hs(s, "mshta") && (hs(s, "javascript") || hs(s, "vbscript") || hs(s, "http")), cl("mshta_remote", 25, "mshta 执行远程脚本"@))
        + opt_factor(hs(s, "regsvr32") && hs(s, "/i:") && (hs(s, "http") || hs(s, "scrobj.dll")), cl("regsvr32_remote", 25, "regsvr32 加载远程组件"@))
        + opt_factor(hs(s, "wmic") && hs(s, "process") && hs(s, "call") && hs(s, "create"), cl("wmic_create", 15, "wmic 远程创建进程"@))
        + opt_factor(hs(s, "echo") && hs(s, "|") && hs(s, "powershell"), cl("pipe_to_powershell", 20, "管道输入 PowerShell"@))
}

proof fn lemma_basic_split(acc: Seq<FactorSpec>, s: Seq<char>)
    ensures
        basic_factors(acc, s) == basic_tail(basic_head(acc, s), s),
{
}

proof fn lemma_basic_head_ok(acc: Seq<FactorSpec>, s: Seq<char>)
    requires
        rules_ok(acc),
        acc.len() <= rank_bound(acc),
        rank_bound(acc) <= 0,
    ensures
        rules_ok(basic_head(acc, s)),
        basic_head(acc, s).len() <= rank_bound(basic_head(acc, s)),
        rank_bound(basic_head(acc, s)) <= 7,
{
    lemma_rule_ranks();
    let o0 = opt_factor(hs(s, "-enc") || hs(s, "-encodedcommand"), cl("encoded_command", 30, "PowerShell 编码执行"@));
    let t0 = acc + o0;
    assert(rules_ok(t0) && t0.len() <= rank_bound(t0) && rank_bound(t0) <= 1) by {
        lemma_rule_step(acc, o0);
    }
    let o1 = opt_factor(hs(s, "-windowstyle hidden") || hs(s, "-w hidden"), cl("hidden_window", 25, "隐藏窗口执行"@));
    let t1 = t0 + o1;
    assert(rules_ok(t1) && t1.len() <= rank_bound(t1) && rank_bound(t1) <= 2) by {
        lemma_rule_step(t0, o1);
    }
    let o2 = opt_factor((hs(s, "-noprofile") || hs(s, "-nop")) && hs(s, "-noninteractive"), cl("stealth_powershell", 15, "无配置文件+非交互模式"@));
    let t2 = t1 + o2;
    assert(rules_ok(t2) && t2.len() <= rank_bound(t2) && rank_bound(t2) <= 3) by {
        lemma_rule_step(t1, o2);
    }
    let o3 = long_cmd_factor(s);
    let t3 = t2 + o3;
    assert(rules_ok(t3) && t3.len() <= rank_bound(t3) && rank_bound(t3) <= 4) by {
        lemma_rule_step(t2, o3);
    }
    let o4 = opt_factor(hs(s, "iex ") || hs(s, "invoke-expression"), cl("invoke_expression", 15, "使用 Invoke-Expression"@));
    let t4 = t3 + o4;
    assert(rules_ok(t4) && t4.len() <= rank_bound(t4) && rank_bound(t4) <= 5) by {
        lemma_rule_step(t3, o4);
    }
    let o5 = opt_factor(hs(s, "downloadstring") || hs(s, "downloadfile"), cl("web_download", 20, "Web 下载命令"@));
    let t5 = t4 + o5;
    assert(rules_ok(t5) && t5.len() <= rank_bound(t5) && rank_bound(t5) <= 6) by {
        lemma_rule_step(t4, o5);
    }
    let o6 = opt_factor(hs(s, "reg add") || hs(s, "reg delete"), cl("registry_op", 5, "注册表操作"@));
    let t6 = t5 + o6;
    assert(rules_ok(t6) && t6.len() <= rank_bound(t6) && rank_bound(t6) <= 7) by {
        lemma_rule_step(t5, o6);
    }
}

proof fn lemma_basic_tail_ok(acc: Seq<FactorSpec>, s: Seq<char>)
    requires
        rules_ok(acc),
        acc.len() <= rank_bound(acc),
        rank_bound(acc) <= 7,
    ensures
        rules_ok(basic_tail(acc, s)),
        basic_tail(acc, s).len() <= rank_bound(basic_tail(acc, s)),
        rank_bound(basic_tail(acc, s)) <= 14,
{
    lemma_rule_ranks();
    let o7 = opt_factor(hs(s, "net user") || hs(s, "net localgroup"), cl("account_op", 15, "账户操作"@));
    let t7 = acc + o7;
    assert(rules_ok(t7) && t7.len() <= rank_bound(t7) && rank_bound(t7) <= 8) by {
        lemma_rule_step(acc, o7);
    }
    let o8 = opt_factor(hs(s, "certutil") && (hs(s, "-urlcache") || hs(s, "-split")), cl("certutil_download", 25, "certutil 下载文件"@));
    let t8 = t7 + o8;
    assert(rules_ok(t8) && t8.len() <= rank_bound(t8) && rank_bound(t8) <= 9) by {
        lemma_rule_step(t7, o8);
    }
    let o9 = opt_factor(hs(s, "bitsadmin") && hs(s, "/transfer"), cl("bitsadmin_download", 20, "bitsadmin 传输文件"@));
    let t9 = t8 + o9;
    assert(rules_ok(t9) && t9.len() <= rank_bound(t9) && rank_bound(t9) <= 10) by {
        lemma_rule_step(t8, o9);
    }
    let o10 = opt_factor(hs(s, "mshta") && (hs(s, "javascript") || hs(s, "vbscript") || hs(s, "http")), cl("mshta_remote", 25, "mshta 执行远程脚本"@));
    let t10 = t9 + o10;
    assert(rules_ok(t10) && t10.len() <= rank_bound(t10) && rank_bound(t10) <= 11) by {
        lemma_rule_step(t9, o10);
    }
    let o11 = opt_factor(hs(s, "regsvr32") && hs(s, "/i:") && (hs(s, "http") || hs(s, "scrobj.dll")), cl("regsvr32_remote", 25, "regsvr32 加载远程组件"@));
    let t11 = t10 + o11;
    assert(rules_ok(t11) && t11.len() <= rank_bound(t11) && rank_bound(t11) <= 12) by {
        lemma_rule_step(t10, o11);
    }
    let o12 = opt_factor(hs(s, "wmic") && hs(s, "process") && hs(s, "call") && hs(s, "create"), cl("wmic_create", 15, "wmic 远程创建进程"@));
    let t12 = t11 + o12;
    assert(rules_ok(t12) && t12.len() <= rank_bound(t12) && rank_bound(t12) <= 13) by {
        lemma_rule_step(t11, o12);
    }
    let o13 = opt_factor(hs(s, "echo") && hs(s, "|") && hs(s, "powershell"), cl("pipe_to_powershell", 20, "管道输入 PowerShell"@));
    let t13 = t12 + o13;
    assert(rules_ok(t13) && t13.len() <= rank_bound(t13) && rank_bound(t13) <= 14) by {
        lemma_rule_step(t12, o13);
    }
}

proof fn lemma_basic_factors_ok(acc: Seq<FactorSpec>, s: Seq<char>)
    requires
        rules_ok(acc),
        acc.len() <= rank_bound(acc),
        rank_bound(acc) <= 0,
    ensures
        rules_ok(basic_factors(acc, s)),
        basic_factors(acc, s).len() <= rank_bound(basic_factors(acc, s)),
        rank_bound(basic_factors(acc, s)) <= 14,
{
    lemma_basic_split(acc, s);
    lemma_basic_head_ok(acc, s);
    lemma_basic_tail_ok(basic_head(acc, s), s);
}

proof fn lemma_lolbin_factors_ok(acc: Seq<FactorSpec>, s: Seq<char>)
    requires
        rules_ok(acc),
        acc.len() <= rank_bound(acc),
        rank_bound(acc) <= 14,
    ensures
        rules_ok(lolbin_factors(acc, s)),
        lolbin_factors(acc, s).len() <= rank_bound(lolbin_factors(acc, s)),
        rank_bound(lolbin_factors(acc, s)) <= 20,
{
    lemma_rule_ranks();
    let o0 = opt_factor(hs(s, "rundll32") && (hs(s, "javascript:") || hs(s, "vbscript:") || (hs(s, "http") && !hs(s, "windows\\")) || hs(s, ".sct") || hs(s, ".xsl")), cl("rundll32_suspicious", 25, "rundll32 可疑调用"@));
    let t0 = acc + o0;
    assert(rules_ok(t0) && t0.len() <= rank_bound(t0) && rank_bound(t0) <= 15) by {
        lemma_rule_step(acc, o0);
    }
    let o1 = opt_factor(hs(s, "msiexec") && hs(s, "http"), cl("msiexec_remote", 25, "msiexec 远程安装"@));
    let t1 = t0 + o1;
    assert(rules_ok(t1) && t1.len() <= rank_bound(t1) && rank_bound(t1) <= 16) by {
        lemma_rule_step(t0, o1);
    }
    let o2 = opt_factor(hs(s, "forfiles") && hs(s, "/c"), cl("forfiles_exec", 20, "forfiles 间接执行命令"@));
    let t2 = t1 + o2;
    assert(rules_ok(t2) && t2.len() <= rank_bound(t2) && rank_bound(t2) <= 17) by {
        lemma_rule_step(t1, o2);
    }
    let o3 = opt_factor(hs(s, "installutil") && hs(s, "/u"), cl("installutil_exec", 20, "installutil 卸载模式执行代码"@));
    let t3 = t2 + o3;
    assert(rules_ok(t3) && t3.len() <= rank_bound(t3) && rank_bound(t3) <= 18) by {
        lemma_rule_step(t2, o3);
    }
    let o4 = opt_factor(hs(s, "cmstp") && (hs(s, ".inf") || hs(s, ".sct")), cl("cmstp_exec", 20, "cmstp 加载脚本文件"@));
    let t4 = t3 + o4;
    assert(rules_ok(t4) && t4.len() <= rank_bound(t4) && rank_bound(t4) <= 19) by {
        lemma_rule_step(t3, o4);
    }
    let o5 = opt_factor(hs(s, "pcalua") && hs(s, "-a"), cl("pcalua_exec", 15, "pcalua 间接执行程序"@));
    let t5 = t4 + o5;
    assert(rules_ok(t5) && t5.len() <= rank_bound(t5) && rank_bound(t5) <= 20) by {
        lemma_rule_step(t4, o5);
    }
    assert(lolbin_factors(acc, s) == t5);
}

proof fn lemma_credential_factors_ok(acc: Seq<FactorSpec>, s: Seq<char>)
    requires
        rules_ok(acc),
        acc.len() <= rank_bound(acc),
        rank_bound(acc) <= 20,
    ensures
        rules_ok(credential_factors(acc, s)),
        credential_factors(acc, s).len() <= rank_bound(credential_factors(acc, s)),
        rank_bound(credential_factors(acc, s)) <= 24,
{
    lemma_rule_ranks();
    lemma_cred_shape(s, 0);
    let o0 = cred_from(s, 0);
    let t0 = acc + o0;
    assert(rules_ok(t0) && t0.len() <= rank_bound(t0) && rank_bound(t0) <= 21) by {
        lemma_rule_step(acc, o0);
    }
    let o1 = opt_factor((hs(s, "procdump") || hs(s, "procdump64")) && has_sub(s, "l"@ + "s"@ + "a"@ + "s"@ + "s"@), cl("lsass_dump", 35, "对系统凭证进程进行内存转储"@));
    let t1 = t0 + o1;
    assert(rules_ok(t1) && t1.len() <= rank_bound(t1) && rank_bound(t1) <= 22) by {
        lemma_rule_step(t0, o1);
    }
    let o2 = opt_factor(hs(s, "schtasks") && hs(s, "/create"), if schtasks_high_risk(s) { cl("schtasks_create", 20, "创建高权限计划任务"@) } else { cl("schtasks_create", 10, "创建计划任务"@) });
    let t2 = t1 + o2;
    assert(rules_ok(t2) && t2.len() <= rank_bound(t2) && rank_bound(t2) <= 23) by {
        lemma_rule_step(t1, o2);
    }
    let o3 = opt_factor((hs(s, "reg add") || hs(s, "reg import")) && autorun_key(s), cl("registry_autorun", 20, "写入注册表自启动项"@));
    let t3 = t2 + o3;
    assert(rules_ok(t3) && t3.len() <= rank_bound(t3) && rank_bound(t3) <= 24) by {
        lemma_rule_step(t2, o3);
    }
    assert(credential_factors(acc, s) == t3);
}

/// Of every command: one given no arguments gets no factors; every factor
/// is a command-line factor weighing 5 to 35; no two factors share a name,
/// so at most one is `credential_access` and at most 24 come back.
pub proof fn law_command_line_factors(cmd: Seq<Seq<char>>)
    ensures
        cmd.len() == 0 ==> command_line_factors(cmd) == Seq::<FactorSpec>::empty(),
        command_line_factors(cmd).len() <= 24,
        forall|i: int| 0 <= i < command_line_factors(cmd).len() ==> {
            &&& (#[trigger] command_line_factors(cmd)[i]).category == RiskCategory::CommandLine
            &&& 5 <= command_line_factors(cmd)[i].weight <= 35
        },
        forall|i: int, j: int| 0 <= i < j < command_line_factors(cmd).len()
            ==> (#[trigger] command_line_factors(cmd)[i]).name != (#[trigger] command_line_factors(cmd)[j]).name,
{
    if cmd.len() > 0 {
        let s = unicode_lower(join(cmd, " "@));
        let e = Seq::<FactorSpec>::empty();
        assert(rules_ok(e) && rank_bound(e) == 0) by {
            reveal(rules_ok);
            reveal(rank_bound);
        }
        lemma_basic_factors_ok(e, s);
        lemma_lolbin_factors_ok(basic_factors(e, s), s);
        lemma_credential_factors_ok(lolbin_factors(basic_factors(e, s), s), s);
        let r = command_line_factors(cmd);
        assert(r == factors_of_lowered(s));
        reveal(rules_ok);
        reveal(rank_bound);
        if r.len() > 0 {
            assert(r.len() - 1 <= rule_rank(r[r.len() - 1].name));
        }
        assert forall|i: int, j: int| 0 <= i < j < r.len() implies (#[trigger] r[i]).name != (#[trigger] r[j]).name by {
            assert(rule_rank(r[i].name) < rule_rank(r[j].name));
        }
    }
}

/// Two non-empty commands that read the same once their arguments are
/// joined with spaces and lowered get the same factors.
pub proof fn law_command_line_reads_lowered_text(a: Seq<Seq<char>>, b: Seq<Seq<char>>)
    requires
        a.len() > 0,
        b.len() > 0,
        unicode_lower(join(a, " "@)) == unicode_lower(join(b, " "@)),
    ensures
        command_line_factors(a) == command_line_factors(b),
{
}

} // verus!
