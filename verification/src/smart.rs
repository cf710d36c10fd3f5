//! Disk health from SMART data: the health verdict and the attribute table.
//!
//! The values read from `smartctl`'s JSON (see [`crate::smartctl`]) become
//! the verdict and the attributes here.  The lists of
//! disks and the platform's failure prediction are read from text here too.
use vstd::prelude::*;
use crate::order::{lex_order, sort_strings};
use crate::text::{chars_of, concat2, views, split_lines, split_on, starts, starts_with, str_eq, trim, trim_str};

verus! {

/// The overall health of a disk.
#[derive(Debug, Clone, Copy, PartialEq, Eq, Structural)]
pub enum SmartHealth {
    /// Every attribute within its threshold.
    Good,
    /// Some attribute failed in the past.
    Warning,
    /// The disk reports failure, or some attribute is failing now.
    Failing,
    /// No SMART data.
    Unknown,
}

impl Default for SmartHealth {
    fn default() -> (h: SmartHealth)
        ensures
            h == SmartHealth::Good,
    {
        SmartHealth::Good
    }
}

pub open spec fn health_badge(h: SmartHealth) -> Seq<char> {
    match h {
        SmartHealth::Good => "✓"@,
        SmartHealth::Warning => "⚠"@,
        SmartHealth::Failing => "✗"@,
        SmartHealth::Unknown => "-"@,
    }
}

impl SmartHealth {
    /// The one-character badge of the verdict.
    pub fn badge(self) -> (s: &'static str)
        ensures
            s@ == health_badge(self),
    {
        match self {
            SmartHealth::Good => "✓",
            SmartHealth::Warning => "⚠",
            SmartHealth::Failing => "✗",
            SmartHealth::Unknown => "-",
        }
    }
}

/// One SMART attribute: its ATA id, current value, threshold, raw value,
/// and whether it is failing now.
#[derive(Debug, Clone, PartialEq, Eq)]
pub struct SmartAttribute {
    pub id: u8,
    pub name: String,
    pub value: u64,
    pub threshold: u64,
    pub raw_value: u64,
    pub failing: bool,
}

/// One row of the ATA attribute table as read from the JSON: id, name,
/// value, threshold, raw value and the `when_failed` text.
#[derive(Debug, Clone)]
pub struct AtaRow {
    pub id: u64,
    pub name: String,
    pub value: u64,
    pub threshold: u64,
    pub raw_value: u64,
    pub when_failed: String,
}

/// The verdict from the `smart_status.passed` flag alone.
pub open spec fn initial_health(passed: Option<bool>) -> SmartHealth {
    match passed {
        Some(true) => SmartHealth::Good,
        Some(false) => SmartHealth::Failing,
        None => SmartHealth::Unknown,
    }
}

/// The verdict after one attribute: failing now raises `Good` and `Warning`
/// to `Failing`; failed in the past raises `Good` to `Warning`.
pub open spec fn health_step(h: SmartHealth, when_failed: Seq<char>) -> SmartHealth {
    if when_failed == "now"@ {
        if h == SmartHealth::Good || h == SmartHealth::Warning {
            SmartHealth::Failing
        } else {
            h
        }
    } else if when_failed == "past"@ && h == SmartHealth::Good {
        SmartHealth::Warning
    } else {
        h
    }
}

/// The rows that describe an attribute (ids that fit in a byte).
pub open spec fn kept_rows(rows: Seq<AtaRow>) -> Seq<AtaRow>
    decreases rows.len(),
{
    if rows.len() == 0 {
        rows
    } else if rows.last().id <= 255 {
        kept_rows(rows.drop_last()).push(rows.last())
    } else {
        kept_rows(rows.drop_last())
    }
}

/// The verdict after the attributes of `rows`, in order.
pub open spec fn health_after(h: SmartHealth, rows: Seq<AtaRow>) -> SmartHealth
    decreases rows.len(),
{
    if rows.len() == 0 {
        h
    } else {
        health_step(health_after(h, rows.drop_last()), rows.last().when_failed@)
    }
}

/// The verdict of a disk: from `passed`, raised by the attributes.
pub open spec fn disk_health(passed: Option<bool>, rows: Seq<AtaRow>) -> SmartHealth {
    health_after(initial_health(passed), kept_rows(rows))
}

/// The attribute of a row.
pub open spec fn row_attribute(r: AtaRow) -> (u8, Seq<char>, u64, u64, u64, bool) {
    (r.id as u8, r.name@, r.value, r.threshold, r.raw_value, r.when_failed@ == "now"@)
}

pub open spec fn attribute_view(a: SmartAttribute) -> (u8, Seq<char>, u64, u64, u64, bool) {
    (a.id, a.name@, a.value, a.threshold, a.raw_value, a.failing)
}

/// The id of a known NVMe health field (0 for other fields).
pub open spec fn nvme_id(name: Seq<char>) -> u8 {
    if name == "temperature"@ {
        194
    } else if name == "available_spare"@ {
        5
    } else if name == "percentage_used"@ {
        233
    } else if name == "power_on_hours"@ {
        9
    } else if name == "media_errors"@ {
        187
    } else {
        0
    }
}

/// The ATA attribute id of a known NVMe health field, 0 for others.
pub fn nvme_attribute_id(name: &str) -> (id: u8)
    ensures
        id == nvme_id(name@),
{
    if str_eq(name, "temperature") {
        194
    } else if str_eq(name, "available_spare") {
        5
    } else if str_eq(name, "percentage_used") {
        233
    } else if str_eq(name, "power_on_hours") {
        9
    } else if str_eq(name, "media_errors") {
        187
    } else {
        0
    }
}

fn step_exec(h: SmartHealth, when_failed: &str) -> (r: SmartHealth)
    ensures
        r == health_step(h, when_failed@),
{
    if str_eq(when_failed, "now") {
        if h == SmartHealth::Good || h == SmartHealth::Warning {
            SmartHealth::Failing
        } else {
            h
        }
    } else if str_eq(when_failed, "past") && h == SmartHealth::Good {
        SmartHealth::Warning
    } else {
        h
    }
}

/// The verdict and the attributes of a disk from its `smart_status.passed`
/// flag and its ATA attribute rows; rows whose id does not fit in a byte
/// are skipped.
pub fn ata_health_and_attributes(passed: Option<bool>, rows: &[AtaRow]) -> (r: (SmartHealth, Vec<SmartAttribute>))
    ensures
        r.0 == disk_health(passed, rows@),
        r.1@.map_values(|a: SmartAttribute| attribute_view(a)) == kept_rows(rows@).map_values(|x: AtaRow| row_attribute(x)),
{
    let mut h = match passed {
        Some(true) => SmartHealth::Good,
        Some(false) => SmartHealth::Failing,
        None => SmartHealth::Unknown,
    };
    let mut attrs: Vec<SmartAttribute> = Vec::new();
    let mut i: usize = 0;
    while i < rows.len()
        invariant
            i <= rows.len(),
            h == health_after(initial_health(passed), kept_rows(rows@.take(i as int))),
            attrs@.map_values(|a: SmartAttribute| attribute_view(a)) == kept_rows(rows@.take(i as int)).map_values(
                |x: AtaRow| row_attribute(x),
            ),
        decreases rows.len() - i,
    {
        let ghost t = rows@.take(i + 1);
        assert(t.drop_last() =~= rows@.take(i as int));
        assert(t.last() == rows@[i as int]);
        let row = &rows[i];
        if row.id <= 255 {
            let failing = str_eq(row.when_failed.as_str(), "now");
            let ghost before = attrs@;
            attrs.push(SmartAttribute {
                id: row.id as u8,
                name: String::from_str(row.name.as_str()),
                value: row.value,
                threshold: row.threshold,
                raw_value: row.raw_value,
                failing,
            });
            assert(attrs@.map_values(|a: SmartAttribute| attribute_view(a)) =~= before.map_values(
                |a: SmartAttribute| attribute_view(a),
            ).push(row_attribute(*row)));
            assert(kept_rows(t) == kept_rows(t.drop_last()).push(*row));
            assert(kept_rows(t).map_values(|x: AtaRow| row_attribute(x)) =~= kept_rows(t.drop_last()).map_values(
                |x: AtaRow| row_attribute(x),
            ).push(row_attribute(*row)));
            h = step_exec(h, row.when_failed.as_str());
            assert(kept_rows(t).drop_last() =~= kept_rows(t.drop_last()));
        } else {
            assert(kept_rows(t) == kept_rows(t.drop_last()));
        }
        i += 1;
    }
    assert(rows@.take(i as int) =~= rows@);
    (h, attrs)
}

/// The attributes of the known NVMe health fields among `fields`, in order.
pub open spec fn nvme_kept(fields: Seq<(String, u64)>) -> Seq<(u8, Seq<char>, u64, u64, u64, bool)>
    decreases fields.len(),
{
    if fields.len() == 0 {
        Seq::empty()
    } else {
        let f = fields.last();
        let rest = nvme_kept(fields.drop_last());
        if nvme_id(f.0@) != 0 {
            rest.push((nvme_id(f.0@), f.0@, f.1, 0u64, f.1, false))
        } else {
            rest
        }
    }
}

/// The attributes of known NVMe health fields, given as pairs of field
/// name and value; other fields are skipped.
pub fn nvme_attributes(fields: &[(String, u64)]) -> (r: Vec<SmartAttribute>)
    ensures
        r@.map_values(|a: SmartAttribute| attribute_view(a)) == nvme_kept(fields@),
{
    let mut out: Vec<SmartAttribute> = Vec::new();
    let mut i: usize = 0;
    while i < fields.len()
        invariant
            i <= fields.len(),
            out@.map_values(|a: SmartAttribute| attribute_view(a)) == nvme_kept(fields@.take(i as int)),
        decreases fields.len() - i,
    {
        let ghost t = fields@.take(i + 1);
        assert(t.drop_last() =~= fields@.take(i as int));
        assert(t.last() == fields@[i as int]);
        let id = nvme_attribute_id(fields[i].0.as_str());
        if id != 0 {
            let ghost before = out@;
            out.push(SmartAttribute {
                id,
                name: String::from_str(fields[i].0.as_str()),
                value: fields[i].1,
                threshold: 0,
                raw_value: fields[i].1,
                failing: false,
            });
            assert(out@.map_values(|a: SmartAttribute| attribute_view(a)) =~= before.map_values(
                |a: SmartAttribute| attribute_view(a),
            ).push((id, fields@[i as int].0@, fields@[i as int].1, 0u64, fields@[i as int].1, false)));
        }
        i += 1;
    }
    assert(fields@.take(i as int) =~= fields@);
    out
}


proof fn lemma_known_stays_known(h: SmartHealth, rows: Seq<AtaRow>)
    requires
        h != SmartHealth::Unknown,
    ensures
        health_after(h, rows) != SmartHealth::Unknown,
    decreases rows.len(),
{
    if rows.len() > 0 {
        lemma_known_stays_known(h, rows.drop_last());
    }
}

proof fn lemma_failing_stays(rows: Seq<AtaRow>)
    ensures
        health_after(SmartHealth::Failing, rows) == SmartHealth::Failing,
    decreases rows.len(),
{
    if rows.len() > 0 {
        lemma_failing_stays(rows.drop_last());
    }
}

proof fn lemma_failing_dominates(h: SmartHealth, rows: Seq<AtaRow>)
    requires
        h != SmartHealth::Unknown,
        exists|i: int| 0 <= i < rows.len() && (#[trigger] rows[i]).id <= 255 && rows[i].when_failed@ == "now"@,
    ensures
        health_after(h, kept_rows(rows)) == SmartHealth::Failing,
    decreases rows.len(),
{
    let p = rows.drop_last();
    let l = rows.last();
    let i = choose|i: int| 0 <= i < rows.len() && (#[trigger] rows[i]).id <= 255 && rows[i].when_failed@ == "now"@;
    if l.id <= 255 && l.when_failed@ == "now"@ {
        assert(kept_rows(rows).drop_last() =~= kept_rows(p));
        lemma_known_stays_known(h, kept_rows(p));
    } else {
        assert(i < rows.len() - 1);
        assert(p[i] == rows[i]);
        lemma_failing_dominates(h, p);
        if l.id <= 255 {
            assert(kept_rows(rows).drop_last() =~= kept_rows(p));
        }
    }
}

/// An attribute failing now makes the disk failing, whatever failed in the
/// past, unless no SMART status was read at all.
pub proof fn law_failing_attribute_wins(passed: Option<bool>, rows: Seq<AtaRow>)
    requires
        passed.is_some(),
        exists|i: int| 0 <= i < rows.len() && (#[trigger] rows[i]).id <= 255 && rows[i].when_failed@ == "now"@,
    ensures
        disk_health(passed, rows) == SmartHealth::Failing,
{
    lemma_failing_dominates(initial_health(passed), rows);
}

/// A failing verdict is never lowered by further attributes.
pub proof fn law_failing_is_final(rows: Seq<AtaRow>)
    ensures
        health_after(SmartHealth::Failing, rows) == SmartHealth::Failing,
{
    lemma_failing_stays(rows);
}

/// A block device that is a disk: not a loop device, a RAM disk, a
/// device-mapper volume or an optical drive.
pub open spec fn is_disk_name(n: Seq<char>) -> bool {
    !(starts_with(n, "loop"@) || starts_with(n, "ram"@) || starts_with(n, "dm-"@) || starts_with(n, "sr"@))
}

/// The device paths of the disks among block device names, in the order
/// given.
pub open spec fn disk_paths(names: Seq<Seq<char>>) -> Seq<Seq<char>>
    decreases names.len(),
{
    if names.len() == 0 {
        Seq::empty()
    } else {
        disk_paths(names.drop_last()) + if is_disk_name(names.last()) {
            seq!["/dev/"@ + names.last()]
        } else {
            Seq::empty()
        }
    }
}

/// The disks among the block devices named in `/sys/block`, as sorted
/// `/dev/` paths.
pub fn disk_devices_from_block_names(names: &[String]) -> (r: Vec<String>)
    ensures
        views(r@) == disk_paths(views(names@)).sort_by(lex_order()),
{
    let mut out: Vec<String> = Vec::new();
    let mut i: usize = 0;
    while i < names.len()
        invariant
            i <= names.len(),
            views(out@) == disk_paths(views(names@.take(i as int))),
        decreases names.len() - i,
    {
        let ghost before = views(out@);
        assert(views(names@.take(i + 1)).drop_last() =~= views(names@.take(i as int)));
        let cs = chars_of(names[i].as_str());
        if !(starts(&cs, "loop") || starts(&cs, "ram") || starts(&cs, "dm-") || starts(&cs, "sr")) {
            out.push(concat2("/dev/", names[i].as_str()));
            assert(views(out@) =~= before + seq!["/dev/"@ + names@[i as int]@]);
        } else {
            assert(views(out@) =~= before + Seq::<Seq<char>>::empty());
        }
        i += 1;
    }
    assert(names@.take(names.len() as int) =~= names@);
    sort_strings(out)
}

/// The non-empty lines of a text, trimmed.
pub open spec fn trimmed_lines(lines: Seq<Seq<char>>) -> Seq<Seq<char>>
    decreases lines.len(),
{
    if lines.len() == 0 {
        Seq::empty()
    } else {
        trimmed_lines(lines.drop_last()) + if trim(lines.last()).len() > 0 {
            seq![trim(lines.last())]
        } else {
            Seq::empty()
        }
    }
}

/// The disk ids printed one per line by the platform's disk query, trimmed,
/// without empty lines, sorted.
pub fn disk_ids_from_lines(stdout: &str) -> (r: Vec<String>)
    ensures
        views(r@) == trimmed_lines(split_on(stdout@, '\n')).sort_by(lex_order()),
{
    let lines = split_lines(stdout);
    let ghost ls = split_on(stdout@, '\n');
    assert(views(lines@) == ls);
    let mut out: Vec<String> = Vec::new();
    let mut i: usize = 0;
    while i < lines.len()
        invariant
            i <= lines.len(),
            views(lines@) == ls,
            views(out@) == trimmed_lines(ls.take(i as int)),
        decreases lines.len() - i,
    {
        let ghost before = views(out@);
        assert(ls.take(i + 1).drop_last() =~= ls.take(i as int));
        assert(ls[i as int] == lines@[i as int]@);
        let t = trim_str(lines[i].as_str());
        if t.unicode_len() > 0 {
            out.push(t);
            assert(views(out@) =~= before + seq![trim(ls[i as int])]);
        } else {
            assert(views(out@) =~= before + Seq::<Seq<char>>::empty());
        }
        i += 1;
    }
    assert(ls.take(lines.len() as int) =~= ls);
    sort_strings(out)
}

/// Some line of the text reads `word` once trimmed.
pub open spec fn has_line(lines: Seq<Seq<char>>, word: Seq<char>) -> bool {
    exists|k: int| 0 <= k < lines.len() && trim(#[trigger] lines[k]) == word
}

/// The platform's failure prediction, one `True` or `False` per disk: any
/// `True` means failing, else any `False` means healthy, else nothing was
/// read.
pub open spec fn predicted_health(lines: Seq<Seq<char>>) -> Option<SmartHealth> {
    if has_line(lines, "True"@) {
        Some(SmartHealth::Failing)
    } else if has_line(lines, "False"@) {
        Some(SmartHealth::Good)
    } else {
        None
    }
}

/// Reads the platform's failure prediction from its output.
pub fn predicted_health_from_lines(stdout: &str) -> (r: Option<SmartHealth>)
    ensures
        r == predicted_health(split_on(stdout@, '\n')),
{
    let lines = split_lines(stdout);
    let ghost ls = split_on(stdout@, '\n');
    let mut any_true = false;
    let mut any_false = false;
    let mut i: usize = 0;
    while i < lines.len()
        invariant
            i <= lines.len(),
            views(lines@) == ls,
            any_true == exists|k: int| 0 <= k < i && trim(#[trigger] ls[k]) == "True"@,
            any_false == exists|k: int| 0 <= k < i && trim(#[trigger] ls[k]) == "False"@,
        decreases lines.len() - i,
    {
        assert(ls[i as int] == lines@[i as int]@);
        let t = trim_str(lines[i].as_str());
        if str_eq(t.as_str(), "True") {
            any_true = true;
        }
        if str_eq(t.as_str(), "False") {
            any_false = true;
        }
        i += 1;
    }
    if any_true {
        Some(SmartHealth::Failing)
    } else if any_false {
        Some(SmartHealth::Good)
    } else {
        None
    }
}

} // verus!
