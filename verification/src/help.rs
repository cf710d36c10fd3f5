//! The table of keyboard shortcuts that the help page lists, section by
//! section.
use vstd::prelude::*;

verus! {

/// One section of the help page: its title and its (key, label) rows.
pub struct HelpSection {
    pub title: &'static str,
    pub rows: Vec<(&'static str, &'static str)>,
}

/// A help section as text: its title and its rows.
pub ghost struct HelpSectionView {
    pub title: Seq<char>,
    pub rows: Seq<(Seq<char>, Seq<char>)>,
}

impl View for HelpSection {
    type V = HelpSectionView;

    open spec fn view(&self) -> HelpSectionView {
        HelpSectionView { title: self.title@, rows: row_views(self.rows@) }
    }
}

pub open spec fn row_views(rows: Seq<(&'static str, &'static str)>) -> Seq<(Seq<char>, Seq<char>)> {
    rows.map_values(|p: (&'static str, &'static str)| (p.0@, p.1@))
}

pub open spec fn section_views(v: Seq<HelpSection>) -> Seq<HelpSectionView> {
    v.map_values(|s: HelpSection| s@)
}

/// The help page's sections, in the order in which they are shown.
pub open spec fn help_table() -> Seq<HelpSectionView> {
    seq![
        HelpSectionView {
            title: "全局"@,
            rows: seq![
                ("1-6"@, "切换面板（1 进程列表 / 2 进程树 / 3 端口 / 4 U盘 / 5 监控 / 6 Docker）"@),
                ("t"@, "切换主题（持久化）"@),
                ("?"@, "打开/关闭本帮助页"@),
                ("q"@, "退出 proc"@),
                ("R"@, "切换 VT100 录制（开始/停止）"@),
                ("A"@, "打开告警弹窗"@),
                ("Ctrl+P"@, "命令面板（fuzzy 搜命令，替代键位记忆）"@),
            ],
        },
        HelpSectionView {
            title: "命令面板（Ctrl+P 触发）"@,
            rows: seq![
                ("Esc"@, "关闭面板"@),
                ("↑↓"@, "选择匹配项"@),
                ("Enter"@, "执行选中命令"@),
                ("Ctrl+U"@, "清空输入"@),
                ("Backspace"@, "删除最后一个字符"@),
            ],
        },
        HelpSectionView {
            title: "进程列表"@,
            rows: seq![
                ("Space"@, "多选 / 取消多选"@),
                ("a"@, "全选可见进程"@),
                ("k"@, "终止进程"@),
                ("K"@, "强制终止（含子进程树）"@),
                ("Enter"@, "查看进程详情"@),
                ("←→"@, "切换排序字段（持久化：CPU/内存/PID/名称/安全/磁盘读写）"@),
                ("v"@, "切换视图（列表 / 树 / 应用分组）"@),
                ("/"@, "进入搜索（子串匹配，v0.6 行为）"@),
                (":"@, "进入搜索（过滤表达式，v0.7 阶段 4 新增）"@),
                ("S"@, "直达安全分排序（可疑进程排最前）"@),
                ("y"@, "详情页: 复制进程信息到剪贴板（vim yank）"@),
                ("F5"@, "详情页: 强制刷新 Inspector 数据"@),
                ("w"@, "详情页: 把当前进程加入监控"@),
                ("v"@, "详情页 Env Tab: 切换 secret 脱敏（录屏中强制 mask）"@),
                ("o"@, "树视图: 选中孤儿进程"@),
                ("z"@, "树视图: 选中僵尸/残存进程"@),
                ("f"@, "树视图: 进入过滤搜索"@),
            ],
        },
        HelpSectionView {
            title: "过滤表达式（按 : 进入，v0.7 阶段 4）"@,
            rows: seq![
                ("字段"@, "cpu / mem / pid / name / user / cmd / disk_read / disk_write / net_sent / net_recv / security_score"@),
                ("操作符"@, "=  !=  >  <  >=  <=  =~（正则）"@),
                ("组合"@, "AND  OR  NOT  ( ) — 关键字大小写敏感"@),
                ("单位"@, "b/kb/mb/gb/tb（1024 进制字节）/ %（百分比）"@),
                ("正则"@, "/pattern/i — i 后缀大小写不敏感"@),
                ("示例1"@, "cpu > 5 AND name =~ /chrome/i"@),
                ("示例2"@, "mem > 500mb OR security_score < 80"@),
                ("示例3"@, "NOT (user = root) AND (cpu > 50 OR disk_read > 1mb)"@),
                ("错误提示"@, "parse 失败时 status_message 显示错误，保留上次成功 AST 继续过滤"@),
            ],
        },
        HelpSectionView {
            title: "端口 / 网络"@,
            rows: seq![
                ("g"@, "循环切换视图（端口 / 进程 / 远程）"@),
                ("Enter"@, "展开进程详情或触发远程诊断"@),
                ("d"@, "远程视图: 网络诊断工具箱"@),
                ("x"@, "触发远程诊断（Ping/DNS/Whois/Traceroute/端口探测）"@),
                ("c"@, "复制选中行信息到剪贴板"@),
                ("a"@, "异常检测（CLOSE_WAIT 堆积等 6 种模式）"@),
                ("f"@, "进入过滤搜索"@),
                ("s"@, "切换排序字段"@),
                ("/"@, "搜索（端口 / IP / 进程名）"@),
                ("k"@, "终止占用端口的进程"@),
                ("D"@, "DNS 查询日志子视图（仅内存）"@),
                ("F"@, "eBPF Flow 子视图（Linux + ebpf feature）"@),
            ],
        },
        HelpSectionView {
            title: "U 盘助手"@,
            rows: seq![
                ("Enter"@, "选择设备"@),
                ("Tab"@, "在设备 / 句柄列表之间切换"@),
                ("k"@, "终止安全进程"@),
                ("r"@, "刷新设备列表"@),
                ("w"@, "持续监测模式（每 5s 扫描）"@),
            ],
        },
        HelpSectionView {
            title: "监控面板"@,
            rows: seq![
                ("a"@, "添加监控（按 PID / 端口 / 命令）"@),
                ("d"@, "删除选中监控"@),
                ("s"@, "暂停 / 恢复监控"@),
                ("⚠THERMAL"@, "侧边栏标识：CPU 因过热降频（参考降频检测）"@),
                ("⚠POWER"@, "侧边栏标识：CPU 因功耗墙降频（参考降频检测）"@),
                ("温度色阶"@, "CPU/GPU 温度颜色：< 70°C 绿 / 70-79 黄 / 80-89 橙 / ≥ 90 红"@),
            ],
        },
        HelpSectionView {
            title: "Docker 面板"@,
            rows: seq![
                ("Enter"@, "查看容器详情"@),
                ("Shift+R"@, "重启容器 / 刷新镜像或卷列表"@),
                ("s"@, "停止容器"@),
                ("a"@, "开始监听事件流"@),
            ],
        },
        HelpSectionView {
            title: "录制 / 回放"@,
            rows: seq![
                ("Space"@, "回放: 播放 / 暂停"@),
                ("←→"@, "回放: 逐帧后退 / 前进"@),
                ("Shift+←→"@, "回放: 一次跳 10 帧"@),
                ("+/-"@, "回放: 调速（0.5x/1x/2x/4x）"@),
                ("Home / End"@, "回放: 跳到开头 / 结尾"@),
            ],
        },
        HelpSectionView {
            title: "帮助页"@,
            rows: seq![
                ("Esc / q / ?"@, "返回进程列表"@),
                ("↑↓ / PageUp/Down"@, "上下滚动"@),
                ("Home / End"@, "跳到顶部 / 底部"@),
            ],
        },
    ]
}

fn help_section_0() -> (s: HelpSection)
    ensures
        s@ == help_table()[0],
{
    let mut rows: Vec<(&'static str, &'static str)> = Vec::new();
    rows.push(("1-6", "切换面板（1 进程列表 / 2 进程树 / 3 端口 / 4 U盘 / 5 监控 / 6 Docker）"));
    rows.push(("t", "切换主题（持久化）"));
    rows.push(("?", "打开/关闭本帮助页"));
    rows.push(("q", "退出 proc"));
    rows.push(("R", "切换 VT100 录制（开始/停止）"));
    rows.push(("A", "打开告警弹窗"));
    rows.push(("Ctrl+P", "命令面板（fuzzy 搜命令，替代键位记忆）"));
    let s = HelpSection { title: "全局", rows };
    assert(s@.rows =~= help_table()[0].rows);
    s
}

fn help_section_1() -> (s: HelpSection)
    ensures
        s@ == help_table()[1],
{
    let mut rows: Vec<(&'static str, &'static str)> = Vec::new();
    rows.push(("Esc", "关闭面板"));
    rows.push(("↑↓", "选择匹配项"));
    rows.push(("Enter", "执行选中命令"));
    rows.push(("Ctrl+U", "清空输入"));
    rows.push(("Backspace", "删除最后一个字符"));
    let s = HelpSection { title: "命令面板（Ctrl+P 触发）", rows };
    assert(s@.rows =~= help_table()[1].rows);
    s
}

fn help_section_2() -> (s: HelpSection)
    ensures
        s@ == help_table()[2],
{
    let mut rows: Vec<(&'static str, &'static str)> = Vec::new();
    rows.push(("Space", "多选 / 取消多选"));
    rows.push(("a", "全选可见进程"));
    rows.push(("k", "终止进程"));
    rows.push(("K", "强制终止（含子进程树）"));
    rows.push(("Enter", "查看进程详情"));
    rows.push(("←→", "切换排序字段（持久化：CPU/内存/PID/名称/安全/磁盘读写）"));
    rows.push(("v", "切换视图（列表 / 树 / 应用分组）"));
    rows.push(("/", "进入搜索（子串匹配，v0.6 行为）"));
    rows.push((":", "进入搜索（过滤表达式，v0.7 阶段 4 新增）"));
    rows.push(("S", "直达安全分排序（可疑进程排最前）"));
    rows.push(("y", "详情页: 复制进程信息到剪贴板（vim yank）"));
    rows.push(("F5", "详情页: 强制刷新 Inspector 数据"));
    rows.push(("w", "详情页: 把当前进程加入监控"));
    rows.push(("v", "详情页 Env Tab: 切换 secret 脱敏（录屏中强制 mask）"));
    rows.push(("o", "树视图: 选中孤儿进程"));
    rows.push(("z", "树视图: 选中僵尸/残存进程"));
    rows.push(("f", "树视图: 进入过滤搜索"));
    let s = HelpSection { title: "进程列表", rows };
    assert(s@.rows =~= help_table()[2].rows);
    s
}

fn help_section_3() -> (s: HelpSection)
    ensures
        s@ == help_table()[3],
{
    let mut rows: Vec<(&'static str, &'static str)> = Vec::new();
    rows.push(("字段", "cpu / mem / pid / name / user / cmd / disk_read / disk_write / net_sent / net_recv / security_score"));
    rows.push(("操作符", "=  !=  >  <  >=  <=  =~（正则）"));
    rows.push(("组合", "AND  OR  NOT  ( ) — 关键字大小写敏感"));
    rows.push(("单位", "b/kb/mb/gb/tb（1024 进制字节）/ %（百分比）"));
    rows.push(("正则", "/pattern/i — i 后缀大小写不敏感"));
    rows.push(("示例1", "cpu > 5 AND name =~ /chrome/i"));
    rows.push(("示例2", "mem > 500mb OR security_score < 80"));
    rows.push(("示例3", "NOT (user = root) AND (cpu > 50 OR disk_read > 1mb)"));
    rows.push(("错误提示", "parse 失败时 status_message 显示错误，保留上次成功 AST 继续过滤"));
    let s = HelpSection { title: "过滤表达式（按 : 进入，v0.7 阶段 4）", rows };
    assert(s@.rows =~= help_table()[3].rows);
    s
}

fn help_section_4() -> (s: HelpSection)
    ensures
        s@ == help_table()[4],
{
    let mut rows: Vec<(&'static str, &'static str)> = Vec::new();
    rows.push(("g", "循环切换视图（端口 / 进程 / 远程）"));
    rows.push(("Enter", "展开进程详情或触发远程诊断"));
    rows.push(("d", "远程视图: 网络诊断工具箱"));
    rows.push(("x", "触发远程诊断（Ping/DNS/Whois/Traceroute/端口探测）"));
    rows.push(("c", "复制选中行信息到剪贴板"));
    rows.push(("a", "异常检测（CLOSE_WAIT 堆积等 6 种模式）"));
    rows.push(("f", "进入过滤搜索"));
    rows.push(("s", "切换排序字段"));
    rows.push(("/", "搜索（端口 / IP / 进程名）"));
    rows.push(("k", "终止占用端口的进程"));
    rows.push(("D", "DNS 查询日志子视图（仅内存）"));
    rows.push(("F", "eBPF Flow 子视图（Linux + ebpf feature）"));
    let s = HelpSection { title: "端口 / 网络", rows };
    assert(s@.rows =~= help_table()[4].rows);
    s
}

fn help_section_5() -> (s: HelpSection)
    ensures
        s@ == help_table()[5],
{
    let mut rows: Vec<(&'static str, &'static str)> = Vec::new();
    rows.push(("Enter", "选择设备"));
    rows.push(("Tab", "在设备 / 句柄列表之间切换"));
    rows.push(("k", "终止安全进程"));
    rows.push(("r", "刷新设备列表"));
    rows.push(("w", "持续监测模式（每 5s 扫描）"));
    let s = HelpSection { title: "U 盘助手", rows };
    assert(s@.rows =~= help_table()[5].rows);
    s
}

fn help_section_6() -> (s: HelpSection)
    ensures
        s@ == help_table()[6],
{
    let mut rows: Vec<(&'static str, &'static str)> = Vec::new();
    rows.push(("a", "添加监控（按 PID / 端口 / 命令）"));
    rows.push(("d", "删除选中监控"));
    rows.push(("s", "暂停 / 恢复监控"));
    rows.push(("⚠THERMAL", "侧边栏标识：CPU 因过热降频（参考降频检测）"));
    rows.push(("⚠POWER", "侧边栏标识：CPU 因功耗墙降频（参考降频检测）"));
    rows.push(("温度色阶", "CPU/GPU 温度颜色：< 70°C 绿 / 70-79 黄 / 80-89 橙 / ≥ 90 红"));
    let s = HelpSection { title: "监控面板", rows };
    assert(s@.rows =~= help_table()[6].rows);
    s
}

fn help_section_7() -> (s: HelpSection)
    ensures
        s@ == help_table()[7],
{
    let mut rows: Vec<(&'static str, &'static str)> = Vec::new();
    rows.push(("Enter", "查看容器详情"));
    rows.push(("Shift+R", "重启容器 / 刷新镜像或卷列表"));
    rows.push(("s", "停止容器"));
    rows.push(("a", "开始监听事件流"));
    let s = HelpSection { title: "Docker 面板", rows };
    assert(s@.rows =~= help_table()[7].rows);
    s
}

fn help_section_8() -> (s: HelpSection)
    ensures
        s@ == help_table()[8],
{
    let mut rows: Vec<(&'static str, &'static str)> = Vec::new();
    rows.push(("Space", "回放: 播放 / 暂停"));
    rows.push(("←→", "回放: 逐帧后退 / 前进"));
    rows.push(("Shift+←→", "回放: 一次跳 10 帧"));
    rows.push(("+/-", "回放: 调速（0.5x/1x/2x/4x）"));
    rows.push(("Home / End", "回放: 跳到开头 / 结尾"));
    let s = HelpSection { title: "录制 / 回放", rows };
    assert(s@.rows =~= help_table()[8].rows);
    s
}

fn help_section_9() -> (s: HelpSection)
    ensures
        s@ == help_table()[9],
{
    let mut rows: Vec<(&'static str, &'static str)> = Vec::new();
    rows.push(("Esc / q / ?", "返回进程列表"));
    rows.push(("↑↓ / PageUp/Down", "上下滚动"));
    rows.push(("Home / End", "跳到顶部 / 底部"));
    let s = HelpSection { title: "帮助页", rows };
    assert(s@.rows =~= help_table()[9].rows);
    s
}

/// The help page's sections, in the order in which they are shown; every
/// section has at least one row.
pub fn help_sections() -> (r: Vec<HelpSection>)
    ensures
        section_views(r@) == help_table(),
        r@.len() > 0,
        forall|i: int| 0 <= i < r@.len() ==> (#[trigger] r@[i]).rows@.len() > 0,
{
    let mut r: Vec<HelpSection> = Vec::new();
    r.push(help_section_0());
    r.push(help_section_1());
    r.push(help_section_2());
    r.push(help_section_3());
    r.push(help_section_4());
    r.push(help_section_5());
    r.push(help_section_6());
    r.push(help_section_7());
    r.push(help_section_8());
    r.push(help_section_9());
    assert(section_views(r@) =~= help_table());
    assert forall|i: int| 0 <= i < r@.len() implies (#[trigger] r@[i]).rows@.len() > 0 by {
        assert(section_views(r@)[i] == help_table()[i]);
        assert(r@[i].rows@.len() == help_table()[i].rows.len());
        // One case per section, so that each section's rows are counted.
        if i == 0 {
        } else if i == 1 {
        } else if i == 2 {
        } else if i == 3 {
        } else if i == 4 {
        } else if i == 5 {
        } else if i == 6 {
        } else if i == 7 {
        } else if i == 8 {
        } else {
        }
    }
    r
}

} // verus!
