//! Reading the output of `smartctl --json --attributes`: the JSON text is
//! parsed by `serde_json`, and the verdict, the attribute table and the
//! identity of the disk are taken from the values it holds.
use vstd::prelude::*;
use crate::smart::{
    ata_health_and_attributes, attribute_view, health_step, health_after, initial_health, kept_rows, nvme_attributes,
    nvme_id, nvme_kept, row_attribute, AtaRow, SmartAttribute, SmartHealth,
};
use crate::text::{chars_of, copy_str, decimal, push_char, push_decimal};

verus! {

// ---------------------------------------------------------------------------
// The JSON values, as `serde_json` reads them
// ---------------------------------------------------------------------------
/// Whether `serde_json` reads `json` as a JSON value.
pub uninterp spec fn json_parses(json: Seq<char>) -> bool;

/// The boolean that the JSON pointer `ptr` addresses in the JSON text
/// `json`, if it parses and the pointer addresses a boolean.
pub uninterp spec fn json_bool_at(json: Seq<char>, ptr: Seq<char>) -> Option<bool>;

/// The unsigned integer that `ptr` addresses in `json`, if any.
pub uninterp spec fn json_u64_at(json: Seq<char>, ptr: Seq<char>) -> Option<u64>;

/// The string that `ptr` addresses in `json`, if any.
pub uninterp spec fn json_str_at(json: Seq<char>, ptr: Seq<char>) -> Option<Seq<char>>;

/// The length of the array that `ptr` addresses in `json`, if any.
pub uninterp spec fn json_array_len_at(json: Seq<char>, ptr: Seq<char>) -> Option<usize>;

/// The keys of the object that `ptr` addresses in `json`, in the order in
/// which `serde_json`'s map yields them, if it is an object.
pub uninterp spec fn json_keys_at(json: Seq<char>, ptr: Seq<char>) -> Option<Seq<Seq<char>>>;

/// Calls `serde_json::from_str` into a `serde_json::Value`; claims only
/// that the answer is a function of the text.
#[verifier::external_body]
fn json_valid(json: &str) -> (b: bool)
    ensures
        b == json_parses(json@),
{
    serde_json::from_str::<serde_json::Value>(json).is_ok()
}

/// Parses `json` and calls `Value::pointer` and `Value::as_bool`; claims
/// only that the answer is a function of the text and the pointer.
#[verifier::external_body]
fn json_bool(json: &str, ptr: &str) -> (r: Option<bool>)
    ensures
        r == json_bool_at(json@, ptr@),
{
    match serde_json::from_str::<serde_json::Value>(json) {
        Ok(v) => v.pointer(ptr).and_then(serde_json::Value::as_bool),
        Err(_) => None,
    }
}

/// Parses `json` and calls `Value::pointer` and `Value::as_u64`; claims
/// only that the answer is a function of the text and the pointer.
#[verifier::external_body]
fn json_u64(json: &str, ptr: &str) -> (r: Option<u64>)
    ensures
        r == json_u64_at(json@, ptr@),
{
    match serde_json::from_str::<serde_json::Value>(json) {
        Ok(v) => v.pointer(ptr).and_then(serde_json::Value::as_u64),
        Err(_) => None,
    }
}

/// Parses `json` and calls `Value::pointer` and `Value::as_str`; claims
/// only that the answer is a function of the text and the pointer.
#[verifier::external_body]
fn json_str(json: &str, ptr: &str) -> (r: Option<String>)
    ensures
        r matches Some(s) ==> json_str_at(json@, ptr@) == Some(s@),
        r is None ==> json_str_at(json@, ptr@) is None,
{
    match serde_json::from_str::<serde_json::Value>(json) {
        Ok(v) => v.pointer(ptr).and_then(serde_json::Value::as_str).map(str::to_string),
        Err(_) => None,
    }
}

/// Parses `json` and calls `Value::pointer` and `Value::as_array`, giving
/// the array's length; claims only that the answer is a function of the
/// text and the pointer.
#[verifier::external_body]
fn json_array_len(json: &str, ptr: &str) -> (r: Option<usize>)
    ensures
        r == json_array_len_at(json@, ptr@),
{
    match serde_json::from_str::<serde_json::Value>(json) {
        Ok(v) => v.pointer(ptr).and_then(serde_json::Value::as_array).map(Vec::len),
        Err(_) => None,
    }
}

/// Parses `json` and calls `Value::pointer` and `Value::as_object`, giving
/// the object's keys in the map's order; claims only that the answer is a
/// function of the text and the pointer.
#[verifier::external_body]
fn json_keys(json: &str, ptr: &str) -> (r: Option<Vec<String>>)
    ensures
        r matches Some(k) ==> json_keys_at(json@, ptr@) == Some(k@.map_values(|s: String| s@)),
        r is None ==> json_keys_at(json@, ptr@) is None,
{
    match serde_json::from_str::<serde_json::Value>(json) {
        Ok(v) => v.pointer(ptr).and_then(serde_json::Value::as_object).map(|m| m.keys().cloned().collect()),
        Err(_) => None,
    }
}

// ---------------------------------------------------------------------------
// What the reading holds
// ---------------------------------------------------------------------------
/// A row of the ATA attribute table as text and numbers: id, name, value,
/// threshold, raw value and the `when_failed` text.
pub type AtaRowView = (u64, Seq<char>, u64, u64, u64, Seq<char>);

pub open spec fn ata_row_view(r: AtaRow) -> AtaRowView {
    (r.id, r.name@, r.value, r.threshold, r.raw_value, r.when_failed@)
}

/// A text, or the empty text where there is none.
pub open spec fn text_or_empty(o: Option<Seq<char>>) -> Seq<char> {
    match o {
        Some(t) => t,
        None => Seq::empty(),
    }
}

/// The pointer to `field` of row `i` of the ATA attribute table.
pub open spec fn table_ptr(i: nat, field: Seq<char>) -> Seq<char> {
    "/ata_smart_attributes/table/"@ + decimal(i) + field
}

/// Row `i` of the ATA attribute table; a row without a numeric id is none.
/// A missing name or `when_failed` reads as empty, a missing number as 0.
pub open spec fn json_row(json: Seq<char>, i: nat) -> Option<AtaRowView> {
    match json_u64_at(json, table_ptr(i, "/id"@)) {
        None => None,
        Some(id) => Some((
            id,
            text_or_empty(json_str_at(json, table_ptr(i, "/name"@))),
            json_u64_at(json, table_ptr(i, "/value"@)).unwrap_or(0),
            json_u64_at(json, table_ptr(i, "/thresh"@)).unwrap_or(0),
            json_u64_at(json, table_ptr(i, "/raw/value"@)).unwrap_or(0),
            text_or_empty(json_str_at(json, table_ptr(i, "/when_failed"@))),
        )),
    }
}

/// The rows among the first `n` of the table.
pub open spec fn json_rows_upto(json: Seq<char>, n: nat) -> Seq<AtaRowView>
    decreases n,
{
    if n == 0 {
        Seq::empty()
    } else {
        json_rows_upto(json, (n - 1) as nat) + match json_row(json, (n - 1) as nat) {
            Some(r) => seq![r],
            None => Seq::empty(),
        }
    }
}

/// The rows of the ATA attribute table (none where there is no table).
pub open spec fn json_rows(json: Seq<char>) -> Seq<AtaRowView> {
    match json_array_len_at(json, "/ata_smart_attributes/table"@) {
        Some(n) => json_rows_upto(json, n as nat),
        None => Seq::empty(),
    }
}

/// The rows whose id fits in a byte.
pub open spec fn kept_views(vs: Seq<AtaRowView>) -> Seq<AtaRowView>
    decreases vs.len(),
{
    if vs.len() == 0 {
        vs
    } else if vs.last().0 <= 255 {
        kept_views(vs.drop_last()).push(vs.last())
    } else {
        kept_views(vs.drop_last())
    }
}

/// The verdict after the rows, in order.
pub open spec fn health_after_views(h: SmartHealth, vs: Seq<AtaRowView>) -> SmartHealth
    decreases vs.len(),
{
    if vs.len() == 0 {
        h
    } else {
        health_step(health_after_views(h, vs.drop_last()), vs.last().5)
    }
}

/// The verdict of a disk from its `smart_status.passed` flag and its rows.
pub open spec fn health_of_rows(passed: Option<bool>, vs: Seq<AtaRowView>) -> SmartHealth {
    health_after_views(initial_health(passed), kept_views(vs))
}

/// The attribute of a row: failing now when its `when_failed` is `now`.
pub open spec fn view_attribute(v: AtaRowView) -> (u8, Seq<char>, u64, u64, u64, bool) {
    (v.0 as u8, v.1, v.2, v.3, v.4, v.5 == "now"@)
}

/// Where the NVMe health log stands.
pub open spec fn nvme_log_ptr() -> Seq<char> {
    "/nvme_smart_health_information_log"@
}

/// A key as one token of a JSON pointer: `~` written `~0`, `/` written `~1`.
pub open spec fn pointer_token(k: Seq<char>) -> Seq<char>
    decreases k.len(),
{
    if k.len() == 0 {
        Seq::empty()
    } else {
        pointer_token(k.drop_last()) + if k.last() == '~' {
            seq!['~', '0']
        } else if k.last() == '/' {
            seq!['~', '1']
        } else {
            seq![k.last()]
        }
    }
}

/// The NVMe fields among the first `n` keys that hold unsigned integers.
pub open spec fn json_nvme_upto(json: Seq<char>, keys: Seq<Seq<char>>, n: nat) -> Seq<(Seq<char>, u64)>
    decreases n,
{
    if n == 0 {
        Seq::empty()
    } else {
        let k = keys[n - 1];
        json_nvme_upto(json, keys, (n - 1) as nat) + match json_u64_at(json, nvme_log_ptr() + "/"@ + pointer_token(k)) {
            Some(v) => seq![(k, v)],
            None => Seq::empty(),
        }
    }
}

/// The fields of the NVMe health log that hold unsigned integers, in the
/// log's key order (none where there is no log object).
pub open spec fn json_nvme_fields(json: Seq<char>) -> Seq<(Seq<char>, u64)> {
    match json_keys_at(json, nvme_log_ptr()) {
        Some(keys) => json_nvme_upto(json, keys, keys.len()),
        None => Seq::empty(),
    }
}

/// The attributes of the known NVMe fields, in order.
pub open spec fn nvme_kept_views(fs: Seq<(Seq<char>, u64)>) -> Seq<(u8, Seq<char>, u64, u64, u64, bool)>
    decreases fs.len(),
{
    if fs.len() == 0 {
        Seq::empty()
    } else {
        let f = fs.last();
        let rest = nvme_kept_views(fs.drop_last());
        if nvme_id(f.0) != 0 {
            rest.push((nvme_id(f.0), f.0, f.1, 0u64, f.1, false))
        } else {
            rest
        }
    }
}

pub open spec fn field_view(p: (String, u64)) -> (Seq<char>, u64) {
    (p.0@, p.1)
}

proof fn lemma_rows_by_view(h: SmartHealth, rows: Seq<AtaRow>)
    ensures
        kept_views(rows.map_values(|r: AtaRow| ata_row_view(r))) == kept_rows(rows).map_values(|r: AtaRow| ata_row_view(r)),
        health_after(h, kept_rows(rows)) == health_after_views(h, kept_views(rows.map_values(|r: AtaRow| ata_row_view(r)))),
        kept_rows(rows).map_values(|r: AtaRow| row_attribute(r))
            == kept_views(rows.map_values(|r: AtaRow| ata_row_view(r))).map_values(|v: AtaRowView| view_attribute(v)),
    decreases rows.len(),
{
    let vs = rows.map_values(|r: AtaRow| ata_row_view(r));
    if rows.len() > 0 {
        let d = rows.drop_last();
        lemma_rows_by_view(h, d);
        assert(vs.drop_last() =~= d.map_values(|r: AtaRow| ata_row_view(r)));
        assert(vs.last() == ata_row_view(rows.last()));
        let kd = kept_rows(d);
        if rows.last().id <= 255 {
            assert(kept_rows(rows) == kd.push(rows.last()));
            assert(kd.push(rows.last()).map_values(|r: AtaRow| ata_row_view(r))
                =~= kd.map_values(|r: AtaRow| ata_row_view(r)).push(ata_row_view(rows.last())));
            assert(kd.push(rows.last()).drop_last() =~= kd);
            let kv = kept_views(vs);
            assert(kv.drop_last() =~= kept_views(vs.drop_last()));
            assert(kd.push(rows.last()).map_values(|r: AtaRow| row_attribute(r))
                =~= kd.map_values(|r: AtaRow| row_attribute(r)).push(row_attribute(rows.last())));
            assert(kv.map_values(|v: AtaRowView| view_attribute(v))
                =~= kept_views(vs.drop_last()).map_values(|v: AtaRowView| view_attribute(v)).push(view_attribute(vs.last())));
        } else {
            assert(kept_rows(rows) == kd);
        }
    } else {
        assert(vs =~= Seq::<AtaRowView>::empty());
        assert(kept_rows(rows).map_values(|r: AtaRow| row_attribute(r)) =~= Seq::empty());
        assert(kept_views(vs).map_values(|v: AtaRowView| view_attribute(v)) =~= Seq::empty());
        assert(kept_rows(rows).map_values(|r: AtaRow| ata_row_view(r)) =~= Seq::empty());
    }
}

proof fn lemma_nvme_by_view(fields: Seq<(String, u64)>)
    ensures
        nvme_kept(fields) == nvme_kept_views(fields.map_values(|p: (String, u64)| field_view(p))),
    decreases fields.len(),
{
    if fields.len() > 0 {
        let fs = fields.map_values(|p: (String, u64)| field_view(p));
        lemma_nvme_by_view(fields.drop_last());
        assert(fs.drop_last() =~= fields.drop_last().map_values(|p: (String, u64)| field_view(p)));
        assert(fs.last() == field_view(fields.last()));
    }
}

// ---------------------------------------------------------------------------
// Reading
// ---------------------------------------------------------------------------
/// One SMART reading of a disk, from the JSON output of smartctl.
#[derive(Debug, Clone)]
pub struct SmartReading {
    pub device: String,
    pub model: String,
    pub serial: String,
    pub health: SmartHealth,
    pub attributes: Vec<SmartAttribute>,
}

/// Why smartctl's output could not be read.
#[derive(Debug, Clone, Copy, PartialEq, Eq, Structural)]
pub enum SmartctlError {
    /// The text is not JSON.
    NotJson,
}

fn text_or_empty_exec(o: Option<String>) -> (t: String)
    ensures
        t@ == text_or_empty(match o { Some(s) => Some(s@), None => None }),
{
    match o {
        Some(s) => s,
        None => String::new(),
    }
}

fn json_text(json: &str, ptr: &str) -> (t: String)
    ensures
        t@ == text_or_empty(json_str_at(json@, ptr@)),
{
    text_or_empty_exec(json_str(json, ptr))
}

fn json_number(json: &str, ptr: &str) -> (n: u64)
    ensures
        n == json_u64_at(json@, ptr@).unwrap_or(0),
{
    match json_u64(json, ptr) {
        Some(n) => n,
        None => 0,
    }
}

fn table_ptr_exec(i: usize, field: &str) -> (p: String)
    ensures
        p@ == table_ptr(i as nat, field@),
{
    let mut p = String::from_str("/ata_smart_attributes/table/");
    push_decimal(&mut p, i as u128);
    p.append(field);
    p
}

fn pointer_token_exec(k: &str) -> (t: String)
    ensures
        t@ == pointer_token(k@),
{
    let cs = chars_of(k);
    let mut t = String::new();
    let mut j: usize = 0;
    while j < cs.len()
        invariant
            j <= cs.len(),
            cs@ == k@,
            t@ == pointer_token(cs@.take(j as int)),
        decreases cs.len() - j,
    {
        let c = cs[j];
        assert(cs@.take(j + 1).drop_last() =~= cs@.take(j as int));
        if c == '~' {
            push_char(&mut t, '~');
            push_char(&mut t, '0');
        } else if c == '/' {
            push_char(&mut t, '~');
            push_char(&mut t, '1');
        } else {
            push_char(&mut t, c);
        }
        assert(t@ =~= pointer_token(cs@.take(j + 1)));
        j += 1;
    }
    assert(cs@.take(j as int) =~= k@);
    t
}

fn read_rows(json: &str) -> (rows: Vec<AtaRow>)
    ensures
        rows@.map_values(|r: AtaRow| ata_row_view(r)) == json_rows(json@),
{
    let n = match json_array_len(json, "/ata_smart_attributes/table") {
        Some(n) => n,
        None => 0,
    };
    let ghost total: nat = match json_array_len_at(json@, "/ata_smart_attributes/table"@) {
        Some(m) => m as nat,
        None => 0,
    };
    let mut rows: Vec<AtaRow> = Vec::new();
    let mut i: usize = 0;
    assert(rows@.map_values(|r: AtaRow| ata_row_view(r)) =~= json_rows_upto(json@, 0));
    while i < n
        invariant
            i <= n,
            n == total,
            rows@.map_values(|r: AtaRow| ata_row_view(r)) == json_rows_upto(json@, i as nat),
        decreases n - i,
    {
        let ghost before = rows@;
        match json_u64(json, table_ptr_exec(i, "/id").as_str()) {
            Some(id) => {
                let row = AtaRow {
                    id,
                    name: json_text(json, table_ptr_exec(i, "/name").as_str()),
                    value: json_number(json, table_ptr_exec(i, "/value").as_str()),
                    threshold: json_number(json, table_ptr_exec(i, "/thresh").as_str()),
                    raw_value: json_number(json, table_ptr_exec(i, "/raw/value").as_str()),
                    when_failed: json_text(json, table_ptr_exec(i, "/when_failed").as_str()),
                };
                rows.push(row);
                assert(rows@.map_values(|r: AtaRow| ata_row_view(r)) =~= before.map_values(|r: AtaRow| ata_row_view(r)).push(
                    ata_row_view(row),
                ));
            },
            None => {},
        }
        assert(rows@.map_values(|r: AtaRow| ata_row_view(r)) =~= json_rows_upto(json@, (i + 1) as nat));
        i += 1;
    }
    rows
}

fn read_nvme_fields(json: &str) -> (fields: Vec<(String, u64)>)
    ensures
        fields@.map_values(|p: (String, u64)| field_view(p)) == json_nvme_fields(json@),
{
    let mut fields: Vec<(String, u64)> = Vec::new();
    assert(fields@.map_values(|p: (String, u64)| field_view(p)) =~= Seq::<(Seq<char>, u64)>::empty());
    match json_keys(json, "/nvme_smart_health_information_log") {
        None => {},
        Some(keys) => {
            let ghost kv = keys@.map_values(|s: String| s@);
            let mut j: usize = 0;
            while j < keys.len()
                invariant
                    j <= keys.len(),
                    kv == keys@.map_values(|s: String| s@),
                    fields@.map_values(|p: (String, u64)| field_view(p)) == json_nvme_upto(json@, kv, j as nat),
                decreases keys.len() - j,
            {
                let ghost before = fields@;
                let mut ptr = String::from_str("/nvme_smart_health_information_log/");
                let tok = pointer_token_exec(keys[j].as_str());
                ptr.append(tok.as_str());
                assert(kv[j as int] == keys@[j as int]@);
                assert(ptr@ =~= nvme_log_ptr() + "/"@ + pointer_token(kv[j as int])) by {
                    reveal_strlit("/nvme_smart_health_information_log/");
                    reveal_strlit("/nvme_smart_health_information_log");
                    reveal_strlit("/");
                }
                match json_u64(json, ptr.as_str()) {
                    Some(v) => {
                        let k = copy_str(keys[j].as_str());
                        fields.push((k, v));
                        assert(fields@.map_values(|p: (String, u64)| field_view(p)) =~= before.map_values(
                            |p: (String, u64)| field_view(p),
                        ).push((kv[j as int], v)));
                    },
                    None => {},
                }
                assert(fields@.map_values(|p: (String, u64)| field_view(p)) =~= json_nvme_upto(json@, kv, (j + 1) as nat));
                j += 1;
            }
        },
    }
    fields
}

/// Reads the output of `smartctl --json --attributes`.
///
/// Text that is not JSON is an error; otherwise missing or mistyped fields
/// read as empty (texts), 0 (numbers) or absent. The verdict starts from
/// `smart_status.passed` and is raised by the attribute table's
/// `when_failed` marks; the attributes are the table's rows with an id that
/// fits in a byte, then the known fields of the NVMe health log that hold
/// unsigned integers. The model falls back to `product`.
pub fn parse_smartctl_reading(json: &str) -> (r: Result<SmartReading, SmartctlError>)
    ensures
        r is Err <==> !json_parses(json@),
        r matches Err(e) ==> e == SmartctlError::NotJson,
        r matches Ok(d) ==> {
            &&& d.device@ == text_or_empty(json_str_at(json@, "/device/name"@))
            &&& d.model@ == match json_str_at(json@, "/model_name"@) {
                Some(m) => m,
                None => text_or_empty(json_str_at(json@, "/product"@)),
            }
            &&& d.serial@ == text_or_empty(json_str_at(json@, "/serial_number"@))
            &&& d.health == health_of_rows(json_bool_at(json@, "/smart_status/passed"@), json_rows(json@))
            &&& d.attributes@.map_values(|a: SmartAttribute| attribute_view(a))
                == kept_views(json_rows(json@)).map_values(|v: AtaRowView| view_attribute(v))
                + nvme_kept_views(json_nvme_fields(json@))
        },
{
    if !json_valid(json) {
        return Err(SmartctlError::NotJson);
    }
    let passed = json_bool(json, "/smart_status/passed");
    let rows = read_rows(json);
    let (health, mut attributes) = ata_health_and_attributes(passed, rows.as_slice());
    let fields = read_nvme_fields(json);
    let mut nvme = nvme_attributes(fields.as_slice());
    proof {
        lemma_rows_by_view(initial_health(passed), rows@);
        lemma_nvme_by_view(fields@);
    }
    let ghost a0 = attributes@;
    let ghost n0 = nvme@;
    attributes.append(&mut nvme);
    assert(attributes@.map_values(|a: SmartAttribute| attribute_view(a)) =~= a0.map_values(|a: SmartAttribute| attribute_view(a))
        + n0.map_values(|a: SmartAttribute| attribute_view(a)));
    let model = match json_str(json, "/model_name") {
        Some(m) => m,
        None => json_text(json, "/product"),
    };
    Ok(SmartReading {
        device: json_text(json, "/device/name"),
        model,
        serial: json_text(json, "/serial_number"),
        health,
        attributes,
    })
}

} // verus!
