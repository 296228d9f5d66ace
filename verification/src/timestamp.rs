use vstd::bytes::{
    lemma_auto_spec_u32_to_from_le_bytes, lemma_auto_spec_u64_to_from_le_bytes,
    spec_u32_from_le_bytes, spec_u32_to_le_bytes, spec_u64_from_le_bytes, spec_u64_to_le_bytes,
    u32_from_le_bytes, u32_to_le_bytes, u64_from_le_bytes, u64_to_le_bytes,
};
use std::fmt::Write;
use vstd::prelude::*;
use vstd::slice::slice_subrange;
use crate::frame::append_bytes;

verus! {

/// A point in time with an explicit offset from UTC.
///
/// `secs` counts non-leap seconds since 1970-01-01T00:00:00Z, `nanos` is the
/// sub-second part and `offset` is the local offset in seconds east of UTC.
/// Every triple is a value of the type; whether a calendar date can be
/// printed for it is decided where text is produced.
#[derive(Clone, Copy, Debug, PartialEq, Eq, Structural)]
pub struct Timestamp {
    pub secs: i64,
    pub nanos: u32,
    pub offset: i32,
}

/// Number of bytes that a timestamp takes in a buffer.
pub const TIMESTAMP_LEN: usize = 16;

/// The sixteen bytes of a timestamp: the seconds in two's complement, the
/// nanoseconds and the offset in two's complement, each little-endian.
pub open spec fn timestamp_bytes(ts: Timestamp) -> Seq<u8> {
    spec_u64_to_le_bytes(ts.secs as u64) + spec_u32_to_le_bytes(ts.nanos) + spec_u32_to_le_bytes(
        ts.offset as u32,
    )
}

/// The timestamp that sixteen bytes stand for.
pub open spec fn timestamp_of(bytes: Seq<u8>) -> Timestamp
    recommends
        bytes.len() == TIMESTAMP_LEN,
{
    Timestamp {
        secs: spec_u64_from_le_bytes(bytes.subrange(0, 8)) as i64,
        nanos: spec_u32_from_le_bytes(bytes.subrange(8, 12)),
        offset: spec_u32_from_le_bytes(bytes.subrange(12, 16)) as i32,
    }
}

/// A timestamp's bytes are sixteen and stand for that timestamp.
pub proof fn lemma_timestamp_bytes(ts: Timestamp)
    ensures
        timestamp_bytes(ts).len() == TIMESTAMP_LEN,
        timestamp_of(timestamp_bytes(ts)) == ts,
{
    lemma_auto_spec_u64_to_from_le_bytes();
    lemma_auto_spec_u32_to_from_le_bytes();
    let b = timestamp_bytes(ts);
    assert(b.subrange(0, 8) =~= spec_u64_to_le_bytes(ts.secs as u64));
    assert(b.subrange(8, 12) =~= spec_u32_to_le_bytes(ts.nanos));
    assert(b.subrange(12, 16) =~= spec_u32_to_le_bytes(ts.offset as u32));
    let secs = ts.secs;
    let offset = ts.offset;
    assert((secs as u64) as i64 == secs) by (bit_vector);
    assert((offset as u32) as i32 == offset) by (bit_vector);
}

impl Timestamp {
    /// The sixteen bytes of this timestamp.
    pub fn to_bytes(&self) -> (out: Vec<u8>)
        ensures
            out@ == timestamp_bytes(*self),
            out@.len() == TIMESTAMP_LEN,
    {
        let mut out = u64_to_le_bytes(self.secs as u64);
        let nanos = u32_to_le_bytes(self.nanos);
        let offset = u32_to_le_bytes(self.offset as u32);
        append_bytes(&mut out, nanos.as_slice());
        append_bytes(&mut out, offset.as_slice());
        out
    }

    /// The timestamp that `bytes` stand for, where they are sixteen.
    pub fn from_bytes(bytes: &[u8]) -> (r: Option<Timestamp>)
        ensures
            r == if bytes@.len() == TIMESTAMP_LEN {
                Some(timestamp_of(bytes@))
            } else {
                None
            },
    {
        if bytes.len() != TIMESTAMP_LEN {
            return None;
        }
        let secs = u64_from_le_bytes(slice_subrange(bytes, 0, 8));
        let nanos = u32_from_le_bytes(slice_subrange(bytes, 8, 12));
        let offset = u32_from_le_bytes(slice_subrange(bytes, 12, 16));
        Some(Timestamp { secs: secs as i64, nanos, offset: offset as i32 })
    }

    /// The instant `secs` + `nanos` at the given offset.
    pub fn new(secs: i64, nanos: u32, offset: i32) -> (ts: Timestamp)
        ensures
            ts == (Timestamp { secs, nanos, offset }),
    {
        Timestamp { secs, nanos, offset }
    }
}

/// The RFC 3339 text of the instant `secs` + `nanos` at `offset`, as chrono
/// writes it; `None` where chrono has no date for the instant or no such
/// offset.
pub uninterp spec fn rfc3339_text(secs: i64, nanos: u32, offset: i32) -> Option<Seq<char>>;

/// The instant that chrono reads from an RFC 3339 text, as seconds,
/// nanoseconds and offset; `None` where the text is none.
pub uninterp spec fn rfc3339_instant(text: Seq<char>) -> Option<(i64, u32, i32)>;

/// The text that chrono's `strftime` pattern `pattern` gives for the
/// instant `secs` + `nanos` at `offset`; `None` where chrono has no date for
/// the instant, no such offset, or refuses the pattern.
pub uninterp spec fn strftime_text(secs: i64, nanos: u32, offset: i32, pattern: Seq<char>) -> Option<
    Seq<char>,
>;

/// chrono: `DateTime::from_timestamp`, `FixedOffset::east_opt`,
/// `DateTime::with_timezone` and `DateTime::to_rfc3339`. The result is the
/// named text of the timestamp's three numbers, and there is none exactly
/// where chrono builds no date or offset from them.
#[verifier::external_body]
pub(crate) fn chrono_to_rfc3339(ts: &Timestamp) -> (r: Option<String>)
    ensures
        r is Some <==> rfc3339_text(ts.secs, ts.nanos, ts.offset) is Some,
        r matches Some(text) ==> rfc3339_text(ts.secs, ts.nanos, ts.offset) == Some(text@),
{
    let utc = chrono::DateTime::from_timestamp(ts.secs, ts.nanos)?;
    let offset = chrono::FixedOffset::east_opt(ts.offset)?;
    Some(utc.with_timezone(&offset).to_rfc3339())
}

/// chrono: `DateTime::parse_from_rfc3339`, then `DateTime::timestamp`,
/// `DateTime::timestamp_subsec_nanos` and `FixedOffset::local_minus_utc` of
/// what was read. The result is the named instant of the text.
#[verifier::external_body]
pub(crate) fn chrono_parse_rfc3339(text: &str) -> (r: Option<Timestamp>)
    ensures
        r is Some <==> rfc3339_instant(text@) is Some,
        r matches Some(ts) ==> rfc3339_instant(text@) == Some((ts.secs, ts.nanos, ts.offset)),
{
    match chrono::DateTime::parse_from_rfc3339(text) {
        Ok(at) => Some(
            Timestamp {
                secs: at.timestamp(),
                nanos: at.timestamp_subsec_nanos(),
                offset: at.offset().local_minus_utc(),
            },
        ),
        Err(_) => None,
    }
}

/// chrono: `DateTime::from_timestamp`, `FixedOffset::east_opt`,
/// `DateTime::with_timezone` and `DateTime::format`, written out through
/// `write!` so that a refused pattern is an error and no panic. The result
/// is the named text for the timestamp's three numbers and the pattern.
#[verifier::external_body]
pub(crate) fn chrono_format(ts: &Timestamp, pattern: &str) -> (r: Option<String>)
    ensures
        r is Some <==> strftime_text(ts.secs, ts.nanos, ts.offset, pattern@) is Some,
        r matches Some(text) ==> strftime_text(ts.secs, ts.nanos, ts.offset, pattern@) == Some(
            text@,
        ),
{
    let utc = chrono::DateTime::from_timestamp(ts.secs, ts.nanos)?;
    let offset = chrono::FixedOffset::east_opt(ts.offset)?;
    let mut text = String::new();
    match write!(text, "{}", utc.with_timezone(&offset).format(pattern)) {
        Ok(()) => Some(text),
        Err(_) => None,
    }
}

/// chrono: `Local::now`, turned into a `DateTime<FixedOffset>`, and the
/// three numbers read from it. Nothing is known of the result: it is the
/// time of the call.
#[verifier::external_body]
pub(crate) fn chrono_local_now() -> (ts: Timestamp) {
    let now: chrono::DateTime<chrono::FixedOffset> = chrono::Local::now().into();
    Timestamp {
        secs: now.timestamp(),
        nanos: now.timestamp_subsec_nanos(),
        offset: now.offset().local_minus_utc(),
    }
}

} // verus!
