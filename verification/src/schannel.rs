//! Decoding helpers for the TLS server-name (SNI) events of the Schannel
//! event provider: wide strings in event payloads, the session name, and
//! event timestamps.
use vstd::prelude::*;

verus! {

/// The event id of the Schannel event that carries the server name.
pub const SCHANNEL_EVENT_SNI_ID: u16 = 1793;

/// The name of the trace session, with its terminating NUL.
pub const SESSION_NAME: &'static str = "proc-schannel-sni\0";

/// Hundreds of nanoseconds from 1601-01-01 (the FILETIME origin) to
/// 1970-01-01.
pub const FILETIME_UNIX_EPOCH_DELTA_HUNDREDS_NS: i64 = 116_444_736_000_000_000;

#[verifier::external_type_specification]
#[verifier::external_body]
pub struct ExSystemTime(std::time::SystemTime);

/// One server name seen in a TLS handshake.
#[derive(Debug, PartialEq, Eq)]
pub struct SniRecord {
    /// The process that made the handshake.
    pub pid: u32,
    /// The server name, in clear.
    pub sni: String,
    /// When the event was recorded.
    pub ts: std::time::SystemTime,
}

// ---------------------------------------------------------------------------
// UTF-16
// ---------------------------------------------------------------------------
/// UTF-16 decoding with every unpaired surrogate replaced by U+FFFD: a high
/// surrogate followed by a low one gives the character they encode
/// together; any other surrogate gives U+FFFD; every other unit gives the
/// character with its value.
pub open spec fn utf16_lossy(units: Seq<u16>) -> Seq<char>
    decreases units.len(),
{
    if units.len() == 0 {
        Seq::empty()
    } else if 0xD800 <= units[0] <= 0xDBFF && units.len() >= 2 && 0xDC00 <= units[1] <= 0xDFFF {
        seq![(0x10000 + (units[0] - 0xD800) * 0x400 + (units[1] - 0xDC00)) as char] + utf16_lossy(units.skip(2))
    } else if 0xD800 <= units[0] <= 0xDFFF {
        seq!['\u{FFFD}'] + utf16_lossy(units.skip(1))
    } else {
        seq![units[0] as char] + utf16_lossy(units.skip(1))
    }
}

/// No code unit is a surrogate.
pub open spec fn no_surrogates(units: Seq<u16>) -> bool {
    forall|i: int| 0 <= i < units.len() ==> !(0xD800 <= #[trigger] units[i] && units[i] <= 0xDFFF)
}

/// Without surrogates, each code unit decodes to the character with its
/// value.
pub proof fn lemma_utf16_plain(units: Seq<u16>)
    requires
        no_surrogates(units),
    ensures
        utf16_lossy(units) == units.map_values(|u: u16| u as char),
    decreases units.len(),
{
    if units.len() > 0 {
        let rest = units.skip(1);
        assert(!(0xD800 <= units[0] && units[0] <= 0xDFFF));
        assert forall|i: int| 0 <= i < rest.len() implies !(0xD800 <= #[trigger] rest[i] && rest[i] <= 0xDFFF) by {
            assert(rest[i] == units[i + 1]);
        }
        lemma_utf16_plain(rest);
        assert(utf16_lossy(units) =~= units.map_values(|u: u16| u as char));
    }
}

/// Calls `String::from_utf16_lossy`, which decodes UTF-16 and puts U+FFFD
/// (the replacement character) in place of each unpaired surrogate, as
/// [`utf16_lossy`] states.
#[verifier::external_body]
fn from_utf16_lossy(units: &[u16]) -> (s: String)
    ensures
        s@ == utf16_lossy(units@),
{
    String::from_utf16_lossy(units)
}

/// The little-endian code units of `b` from byte `i` on, up to the first
/// zero unit or the last whole pair of bytes.
pub open spec fn units_from(b: Seq<u8>, i: int) -> Seq<u16>
    decreases b.len() - i,
{
    if i < 0 || i + 1 >= b.len() {
        Seq::empty()
    } else {
        let u = (b[i] + 256 * b[i + 1]) as u16;
        if u == 0 {
            Seq::empty()
        } else {
            seq![u].add(units_from(b, i + 2))
        }
    }
}

fn units_exec(b: &[u8], start: usize) -> (r: Vec<u16>)
    ensures
        r@ == units_from(b@, start as int),
{
    let mut out: Vec<u16> = Vec::new();
    let mut i = start;
    let ghost acc = Seq::<u16>::empty();
    while i < b.len() && b.len() - i > 1
        invariant
            start <= i,
            (i - start) % 2 == 0,
            out@ + units_from(b@, i as int) == units_from(b@, start as int),
        decreases b.len() - i,
    {
        let u: u16 = b[i] as u16 + 256 * (b[i + 1] as u16);
        assert(u == (b@[i as int] + 256 * b@[i + 1]) as u16);
        if u == 0 {
            assert(units_from(b@, i as int) == Seq::<u16>::empty());
            assert(out@ + Seq::<u16>::empty() =~= out@);
            return out;
        }
        let ghost before = out@;
        out.push(u);
        assert(units_from(b@, i as int) == seq![u].add(units_from(b@, i + 2)));
        assert(before + units_from(b@, i as int) =~= out@ + units_from(b@, i + 2));
        i += 2;
    }
    assert(units_from(b@, i as int) == Seq::<u16>::empty());
    assert(out@ + Seq::<u16>::empty() =~= out@);
    out
}

/// The string in `bytes`, read as UTF-16 LE up to the first NUL unit or
/// the end (an odd last byte is ignored).
pub fn read_utf16_le_until_null(bytes: &[u8]) -> (s: String)
    ensures
        s@ == utf16_lossy(units_from(bytes@, 0)),
        no_surrogates(units_from(bytes@, 0)) ==> s@ == units_from(bytes@, 0).map_values(|u: u16| u as char),
{
    let units = units_exec(bytes, 0);
    proof {
        if no_surrogates(units@) {
            lemma_utf16_plain(units@);
        }
    }
    from_utf16_lossy(units.as_slice())
}

/// The UTF-16 LE string that starts at byte `byte_offset` of `buffer`, up
/// to its NUL; empty when the offset lies outside the buffer.
pub fn read_wide_string_at_offset(buffer: &[u8], byte_offset: usize) -> (s: String)
    ensures
        byte_offset >= buffer@.len() ==> s@ == Seq::<char>::empty(),
        byte_offset < buffer@.len() ==> s@ == utf16_lossy(units_from(buffer@, byte_offset as int)),
        byte_offset < buffer@.len() && no_surrogates(units_from(buffer@, byte_offset as int))
            ==> s@ == units_from(buffer@, byte_offset as int).map_values(|u: u16| u as char),
{
    if byte_offset >= buffer.len() {
        return String::new();
    }
    let units = units_exec(buffer, byte_offset);
    proof {
        if no_surrogates(units@) {
            lemma_utf16_plain(units@);
        }
    }
    from_utf16_lossy(units.as_slice())
}

/// The UTF-16 code units of a string of characters below U+10000, one per
/// character.
pub open spec fn bmp_units(s: Seq<char>) -> Seq<u16> {
    s.map_values(|c: char| c as u16)
}

/// The session name as UTF-16 code units (its NUL included).
pub fn session_name_wide() -> (w: Vec<u16>)
    ensures
        w@ == bmp_units(SESSION_NAME@),
        w@.len() > 0,
        w@.last() == 0,
{
    let s = SESSION_NAME;
    proof {
        reveal_strlit("proc-schannel-sni\0");
    }
    let mut w: Vec<u16> = Vec::new();
    let mut i: usize = 0;
    let n = s.unicode_len();
    while i < n
        invariant
            i <= n,
            n == s@.len(),
            s@ == SESSION_NAME@,
            forall|j: int| 0 <= j < s@.len() ==> (s@[j] as u32) < 128,
            w@ == bmp_units(s@.take(i as int)),
        decreases n - i,
    {
        let c = s.get_char(i);
        w.push(c as u16);
        assert(bmp_units(s@.take(i + 1)) =~= bmp_units(s@.take(i as int)).push(c as u16));
        i += 1;
    }
    assert(s@.take(i as int) =~= s@);
    w
}

// ---------------------------------------------------------------------------
// Timestamps
// ---------------------------------------------------------------------------
/// `x` clamped into the range of `i64`.
pub open spec fn clamp_i64(x: int) -> int {
    if x < i64::MIN {
        i64::MIN as int
    } else if x > i64::MAX {
        i64::MAX as int
    } else {
        x
    }
}

/// Nanoseconds since the Unix epoch of a FILETIME (hundreds of nanoseconds
/// since 1601), with saturating arithmetic, and 0 for times before 1970.
pub open spec fn filetime_unix_nanos(filetime: i64) -> u64 {
    let hundreds = clamp_i64(filetime - FILETIME_UNIX_EPOCH_DELTA_HUNDREDS_NS);
    let ns = clamp_i64(hundreds * 100);
    if ns < 0 {
        0
    } else {
        ns as u64
    }
}

/// The time of a FILETIME timestamp, as nanoseconds since the Unix epoch
/// (0 for a time before it).
pub fn filetime_to_unix_nanos(filetime: i64) -> (ns: u64)
    ensures
        ns == filetime_unix_nanos(filetime),
{
    let h: i128 = filetime as i128 - FILETIME_UNIX_EPOCH_DELTA_HUNDREDS_NS as i128;
    let hundreds: i128 = if h < -9223372036854775808i128 { -9223372036854775808i128 } else { h };
    let n: i128 = hundreds * 100;
    let ns: i128 = if n > 9223372036854775807i128 {
        9223372036854775807i128
    } else if n < -9223372036854775808i128 {
        -9223372036854775808i128
    } else {
        n
    };
    if ns < 0 {
        0
    } else {
        ns as u64
    }
}

proof fn lemma_units_shift(b: Seq<u8>, k: int, i: int)
    requires
        0 <= k <= b.len(),
        0 <= i,
    ensures
        units_from(b, i + k) == units_from(b.skip(k), i),
    decreases b.len() - i,
{
    let c = b.skip(k);
    if i + k + 1 < b.len() {
        assert(c[i] == b[i + k] && c[i + 1] == b[i + k + 1]);
        lemma_units_shift(b, k, i + 2);
    }
}

/// Reading the wide string at a byte offset is reading the buffer with
/// that many bytes dropped: the same code units, so the same text.
pub proof fn law_read_at_offset_is_read_of_rest(buffer: Seq<u8>, offset: int)
    requires
        0 <= offset < buffer.len(),
    ensures
        units_from(buffer, offset) == units_from(buffer.skip(offset), 0),
        utf16_lossy(units_from(buffer, offset)) == utf16_lossy(units_from(buffer.skip(offset), 0)),
{
    lemma_units_shift(buffer, offset, 0);
}

} // verus!
