//! The record codec: how a log record is written as a buffer of bytes and
//! read back.
//!
//! A buffer is four magic bytes followed by tagged fields. Each field is one
//! tag byte, the payload's length as eight little-endian bytes, and the
//! payload. A reader passes over fields whose tag it does not know and
//! takes a default for each field that is absent, the timestamp apart, so
//! that buffers stay readable when fields are added or dropped.
use vstd::bytes::{
    lemma_auto_spec_u32_to_from_le_bytes, lemma_auto_spec_u64_to_from_le_bytes,
    spec_u32_from_le_bytes, spec_u32_to_le_bytes, spec_u64_from_le_bytes, spec_u64_to_le_bytes,
    u32_from_le_bytes, u32_to_le_bytes, u64_from_le_bytes, u64_to_le_bytes,
};
use vstd::prelude::*;
use vstd::slice::{slice_subrange, slice_to_vec};
use vstd::utf8::{
    decode_utf8, encode_utf8, encode_utf8_decode_utf8, encode_utf8_valid_utf8, valid_utf8,
};
use crate::frame::{
    append_bytes, fields_at, frames, framable, lemma_frames_push, lemma_parse_frames,
    parse_fields, put_field, refs_within, split_fields, Field, FieldRef,
};
use crate::log::{vars_view, ContextView, LogView, RsContext, RsLog, RsVar, VarView};
use crate::timestamp::{
    lemma_timestamp_bytes, timestamp_bytes, timestamp_of, Timestamp, TIMESTAMP_LEN,
};

verus! {

/// Tag of the timestamp field, the one field that a record must hold.
pub const TAG_TS: u8 = 1;

/// Tag of the message field.
pub const TAG_MSG: u8 = 2;

/// Tag of the application name field.
pub const TAG_APP: u8 = 3;

/// Tag of the process id field.
pub const TAG_PID: u8 = 4;

/// Tag of the operating system field.
pub const TAG_OS: u8 = 5;

/// Tag of the version field.
pub const TAG_VERSION: u8 = 6;

/// Tag of a variable field; a record holds one per variable, in order.
pub const TAG_VAR: u8 = 7;

/// The four bytes that every record buffer starts with.
pub open spec fn magic() -> Seq<u8> {
    seq![0x48u8, 0x4du8, 0x44u8, 0x4cu8]
}

/// Why a buffer is not a record.
#[derive(Clone, Copy, Debug, PartialEq, Eq, Structural)]
pub enum DecodeError {
    /// The buffer does not start with the magic bytes.
    BadMagic,
    /// A field's header or payload is cut short.
    Truncated,
    /// No timestamp field is present.
    MissingTimestamp,
    /// The timestamp field is not sixteen bytes long.
    BadTimestamp,
    /// A text field is not UTF-8.
    BadText,
    /// The process id field is not four bytes long.
    BadPid,
    /// A variable field is cut short or holds text that is not UTF-8.
    BadVar,
}

/// The payload of the first field with the given tag, if there is one.
pub open spec fn first_with(fs: Seq<Field>, tag: u8) -> Option<Seq<u8>>
    decreases fs.len(),
{
    if fs.len() == 0 {
        None
    } else if fs[0].tag == tag {
        Some(fs[0].payload)
    } else {
        first_with(fs.drop_first(), tag)
    }
}

/// The payloads of the variable fields, in order.
pub open spec fn var_payloads(fs: Seq<Field>) -> Seq<Seq<u8>>
    decreases fs.len(),
{
    if fs.len() == 0 {
        Seq::empty()
    } else if fs.last().tag == TAG_VAR {
        var_payloads(fs.drop_last()).push(fs.last().payload)
    } else {
        var_payloads(fs.drop_last())
    }
}

/// The payload of a variable: the key's length in bytes as eight
/// little-endian bytes, the key, then the value, both as UTF-8.
pub open spec fn var_bytes(v: VarView) -> Seq<u8> {
    spec_u64_to_le_bytes(encode_utf8(v.key).len() as u64) + encode_utf8(v.key) + encode_utf8(v.val)
}

/// Whether a payload holds a variable.
pub open spec fn var_ok(p: Seq<u8>) -> bool {
    &&& p.len() >= 8
    &&& spec_u64_from_le_bytes(p.subrange(0, 8)) <= p.len() - 8
    &&& valid_utf8(p.subrange(8, 8 + spec_u64_from_le_bytes(p.subrange(0, 8))))
    &&& valid_utf8(p.skip(8 + spec_u64_from_le_bytes(p.subrange(0, 8))))
}

/// The variable that a payload holds.
pub open spec fn var_of(p: Seq<u8>) -> VarView
    recommends
        var_ok(p),
{
    let k = spec_u64_from_le_bytes(p.subrange(0, 8)) as int;
    VarView { key: decode_utf8(p.subrange(8, 8 + k)), val: decode_utf8(p.skip(8 + k)) }
}

/// The timestamp among the fields. It must be there.
pub open spec fn ts_field(fs: Seq<Field>) -> Result<Timestamp, DecodeError> {
    match first_with(fs, TAG_TS) {
        None => Err(DecodeError::MissingTimestamp),
        Some(p) => if p.len() == TIMESTAMP_LEN {
            Ok(timestamp_of(p))
        } else {
            Err(DecodeError::BadTimestamp)
        },
    }
}

/// The text under `tag` among the fields; empty where the field is absent.
pub open spec fn text_field(fs: Seq<Field>, tag: u8) -> Result<Seq<char>, DecodeError> {
    match first_with(fs, tag) {
        None => Ok(Seq::empty()),
        Some(p) => if valid_utf8(p) {
            Ok(decode_utf8(p))
        } else {
            Err(DecodeError::BadText)
        },
    }
}

/// The process id among the fields; zero where the field is absent.
pub open spec fn pid_field(fs: Seq<Field>) -> Result<u32, DecodeError> {
    match first_with(fs, TAG_PID) {
        None => Ok(0u32),
        Some(p) => if p.len() == 4 {
            Ok(spec_u32_from_le_bytes(p))
        } else {
            Err(DecodeError::BadPid)
        },
    }
}

/// The variables among the fields, in order.
pub open spec fn vars_field(fs: Seq<Field>) -> Result<Seq<VarView>, DecodeError> {
    let ps = var_payloads(fs);
    if forall|i: int| 0 <= i < ps.len() ==> var_ok(#[trigger] ps[i]) {
        Ok(Seq::new(ps.len(), |i: int| var_of(ps[i])))
    } else {
        Err(DecodeError::BadVar)
    }
}

/// The record that a list of fields stands for, with `ip` as the sender
/// address. Fields with other tags are passed over; of several fields with
/// one tag the first counts, except for variables, which all count.
pub open spec fn record_of(fs: Seq<Field>, ip: Seq<char>) -> Result<LogView, DecodeError> {
    match ts_field(fs) {
        Err(e) => Err(e),
        Ok(ts) => match text_field(fs, TAG_MSG) {
            Err(e) => Err(e),
            Ok(msg) => match text_field(fs, TAG_APP) {
                Err(e) => Err(e),
                Ok(app) => match pid_field(fs) {
                    Err(e) => Err(e),
                    Ok(pid) => match text_field(fs, TAG_OS) {
                        Err(e) => Err(e),
                        Ok(os) => match text_field(fs, TAG_VERSION) {
                            Err(e) => Err(e),
                            Ok(version) => match vars_field(fs) {
                                Err(e) => Err(e),
                                Ok(vars) => Ok(
                                    LogView {
                                        ts,
                                        msg,
                                        ip,
                                        context: ContextView { app, pid, os, version },
                                        vars,
                                    },
                                ),
                            },
                        },
                    },
                },
            },
        },
    }
}

/// What a buffer decodes to: the record it holds, with `ip` as the sender
/// address, or the reason why it holds none.
pub open spec fn decode(bytes: Seq<u8>, ip: Seq<char>) -> Result<LogView, DecodeError> {
    if bytes.len() < 4 || bytes.subrange(0, 4) != magic() {
        Err(DecodeError::BadMagic)
    } else {
        match parse_fields(bytes.skip(4)) {
            None => Err(DecodeError::Truncated),
            Some(fs) => record_of(fs, ip),
        }
    }
}

/// The fields of a record other than its variables.
pub open spec fn scalar_fields(x: LogView) -> Seq<Field> {
    seq![
        Field { tag: TAG_TS, payload: timestamp_bytes(x.ts) },
        Field { tag: TAG_MSG, payload: encode_utf8(x.msg) },
        Field { tag: TAG_APP, payload: encode_utf8(x.context.app) },
        Field { tag: TAG_PID, payload: spec_u32_to_le_bytes(x.context.pid) },
        Field { tag: TAG_OS, payload: encode_utf8(x.context.os) },
        Field { tag: TAG_VERSION, payload: encode_utf8(x.context.version) },
    ]
}

/// One field for each variable, in order.
pub open spec fn var_fields(vars: Seq<VarView>) -> Seq<Field> {
    Seq::new(vars.len(), |i: int| Field { tag: TAG_VAR, payload: var_bytes(vars[i]) })
}

/// The fields that a record is written as. The sender address is not
/// among them: the receiver fills it in.
pub open spec fn fields_of(x: LogView) -> Seq<Field> {
    scalar_fields(x) + var_fields(x.vars)
}

/// The buffer that a record is written as.
pub open spec fn encode(x: LogView) -> Seq<u8> {
    magic() + frames(fields_of(x))
}

/// Whether every length that the buffer of `x` holds fits in eight bytes.
/// It does for every record that fits in memory.
pub open spec fn encodable(x: LogView) -> bool {
    &&& framable(fields_of(x))
    &&& forall|i: int| 0 <= i < x.vars.len() ==> encode_utf8((#[trigger] x.vars[i]).key).len() <= u64::MAX
}

/// The first field with a tag is the one before which no field has it.
pub proof fn lemma_first_with_at(fs: Seq<Field>, i: int, tag: u8)
    requires
        0 <= i < fs.len(),
        fs[i].tag == tag,
        forall|j: int| 0 <= j < i ==> (#[trigger] fs[j]).tag != tag,
    ensures
        first_with(fs, tag) == Some(fs[i].payload),
    decreases i,
{
    if i > 0 {
        let rest = fs.drop_first();
        assert(fs[0].tag != tag);
        assert forall|j: int| 0 <= j < i - 1 implies (#[trigger] rest[j]).tag != tag by {
            assert(rest[j] == fs[j + 1]);
        }
        lemma_first_with_at(rest, i - 1, tag);
    }
}

/// Where no field has a tag, none is found.
pub proof fn lemma_first_with_none(fs: Seq<Field>, tag: u8)
    requires
        forall|j: int| 0 <= j < fs.len() ==> (#[trigger] fs[j]).tag != tag,
    ensures
        first_with(fs, tag) is None,
    decreases fs.len(),
{
    if fs.len() > 0 {
        let rest = fs.drop_first();
        assert(fs[0].tag != tag);
        assert forall|j: int| 0 <= j < rest.len() implies (#[trigger] rest[j]).tag != tag by {
            assert(rest[j] == fs[j + 1]);
        }
        lemma_first_with_none(rest, tag);
    }
}

/// The variable payloads of the first `i` fields stay where they are when
/// more fields follow.
pub proof fn lemma_var_payloads_prefix(fs: Seq<Field>, i: int)
    requires
        0 <= i <= fs.len(),
    ensures
        var_payloads(fs.take(i)).len() <= var_payloads(fs).len(),
        var_payloads(fs.take(i)) == var_payloads(fs).take(var_payloads(fs.take(i)).len() as int),
    decreases fs.len() - i,
{
    if i == fs.len() {
        assert(fs.take(i) =~= fs);
        assert(var_payloads(fs).take(var_payloads(fs).len() as int) =~= var_payloads(fs));
    } else {
        lemma_var_payloads_prefix(fs, i + 1);
        let longer = fs.take(i + 1);
        assert(longer.drop_last() =~= fs.take(i));
        assert(var_payloads(fs.take(i)) =~= var_payloads(fs).take(
            var_payloads(fs.take(i)).len() as int,
        ));
    }
}

/// Fields without a variable among them have no variable payloads.
proof fn lemma_var_payloads_none(fs: Seq<Field>)
    requires
        forall|j: int| 0 <= j < fs.len() ==> (#[trigger] fs[j]).tag != TAG_VAR,
    ensures
        var_payloads(fs) == Seq::<Seq<u8>>::empty(),
    decreases fs.len(),
{
    if fs.len() > 0 {
        let init = fs.drop_last();
        assert(fs.last() == fs[fs.len() - 1]);
        assert forall|j: int| 0 <= j < init.len() implies (#[trigger] init[j]).tag != TAG_VAR by {
            assert(init[j] == fs[j]);
        }
        lemma_var_payloads_none(init);
    }
}

/// The variable payloads of a record's fields are those of its variables.
proof fn lemma_var_payloads_of(head: Seq<Field>, vars: Seq<VarView>)
    requires
        forall|j: int| 0 <= j < head.len() ==> (#[trigger] head[j]).tag != TAG_VAR,
    ensures
        var_payloads(head + var_fields(vars)) == Seq::new(vars.len(), |i: int| var_bytes(vars[i])),
    decreases vars.len(),
{
    let fs = head + var_fields(vars);
    if vars.len() == 0 {
        assert(fs =~= head);
        lemma_var_payloads_none(head);
        assert(var_payloads(fs) =~= Seq::new(vars.len(), |i: int| var_bytes(vars[i])));
    } else {
        let init = vars.drop_last();
        lemma_var_payloads_of(head, init);
        assert(fs.drop_last() =~= head + var_fields(init));
        assert(fs.last() == var_fields(vars)[vars.len() - 1]);
        assert(var_payloads(fs) =~= Seq::new(vars.len(), |i: int| var_bytes(vars[i])));
    }
}

/// A variable's payload holds that variable.
pub proof fn lemma_var_bytes(v: VarView)
    requires
        encode_utf8(v.key).len() <= u64::MAX,
    ensures
        var_ok(var_bytes(v)),
        var_of(var_bytes(v)) == v,
{
    lemma_auto_spec_u64_to_from_le_bytes();
    encode_utf8_valid_utf8(v.key);
    encode_utf8_valid_utf8(v.val);
    encode_utf8_decode_utf8(v.key);
    encode_utf8_decode_utf8(v.val);
    let key = encode_utf8(v.key);
    let val = encode_utf8(v.val);
    let len = spec_u64_to_le_bytes(key.len() as u64);
    let p = var_bytes(v);
    assert(p.subrange(0, 8) =~= len);
    let k = spec_u64_from_le_bytes(p.subrange(0, 8)) as int;
    assert(k == key.len());
    assert(p.subrange(8, 8 + k) =~= key);
    assert(p.skip(8 + k) =~= val);
}

/// Decoding what was encoded gives the record back, field for field, with
/// the sender address that the receiver supplies.
pub proof fn decode_inverts_encode(x: LogView, ip: Seq<char>)
    requires
        encodable(x),
    ensures
        decode(encode(x), ip) == Ok::<LogView, DecodeError>(LogView { ip, ..x }),
{
    let fs = fields_of(x);
    let head = scalar_fields(x);
    let bytes = encode(x);
    assert(bytes.subrange(0, 4) =~= magic());
    assert(bytes.skip(4) =~= frames(fs));
    lemma_parse_frames(fs);
    assert(forall|j: int| 0 <= j < 6 ==> fs[j] == head[j]);
    assert forall|j: int| 6 <= j < fs.len() implies (#[trigger] fs[j]).tag == TAG_VAR by {
        assert(fs[j] == var_fields(x.vars)[j - 6]);
    }
    lemma_first_with_at(fs, 0, TAG_TS);
    lemma_first_with_at(fs, 1, TAG_MSG);
    lemma_first_with_at(fs, 2, TAG_APP);
    lemma_first_with_at(fs, 3, TAG_PID);
    lemma_first_with_at(fs, 4, TAG_OS);
    lemma_first_with_at(fs, 5, TAG_VERSION);
    lemma_timestamp_bytes(x.ts);
    lemma_auto_spec_u32_to_from_le_bytes();
    encode_utf8_valid_utf8(x.msg);
    encode_utf8_valid_utf8(x.context.app);
    encode_utf8_valid_utf8(x.context.os);
    encode_utf8_valid_utf8(x.context.version);
    encode_utf8_decode_utf8(x.msg);
    encode_utf8_decode_utf8(x.context.app);
    encode_utf8_decode_utf8(x.context.os);
    encode_utf8_decode_utf8(x.context.version);
    lemma_var_payloads_of(head, x.vars);
    let ps = var_payloads(fs);
    assert forall|i: int| 0 <= i < ps.len() implies var_ok(#[trigger] ps[i]) && var_of(ps[i])
        == x.vars[i] by {
        lemma_var_bytes(x.vars[i]);
    }
    assert(Seq::new(ps.len(), |i: int| var_of(ps[i])) =~= x.vars);
    assert(ts_field(fs) == Ok::<Timestamp, DecodeError>(x.ts));
    assert(text_field(fs, TAG_MSG) == Ok::<Seq<char>, DecodeError>(x.msg));
    assert(vars_field(fs) == Ok::<Seq<VarView>, DecodeError>(x.vars));
}

/// `String::from_utf8` of std: the text that `bytes` holds when they are
/// valid UTF-8, and `None` when they are not.
#[verifier::external_body]
fn string_from_utf8(bytes: Vec<u8>) -> (r: Option<String>)
    ensures
        r is Some <==> valid_utf8(bytes@),
        r matches Some(s) ==> s@ == decode_utf8(bytes@),
{
    String::from_utf8(bytes).ok()
}

/// The text that `buf[from..to]` holds, if it is UTF-8.
fn read_text(buf: &[u8], from: usize, to: usize) -> (r: Option<String>)
    requires
        from <= to <= buf@.len(),
    ensures
        r is Some <==> valid_utf8(buf@.subrange(from as int, to as int)),
        r matches Some(s) ==> s@ == decode_utf8(buf@.subrange(from as int, to as int)),
{
    string_from_utf8(slice_to_vec(slice_subrange(buf, from, to)))
}

/// Where the payload of the first field with `tag` lies.
fn find_field(buf: &[u8], refs: &Vec<FieldRef>, tag: u8) -> (r: Option<(usize, usize)>)
    requires
        refs_within(refs@, buf@.len() as int),
    ensures
        r is Some <==> first_with(fields_at(buf@, refs@), tag) is Some,
        r matches Some(at) ==> at.0 <= at.1 <= buf@.len() && first_with(fields_at(buf@, refs@), tag)
            == Some(buf@.subrange(at.0 as int, at.1 as int)),
{
    let ghost fs = fields_at(buf@, refs@);
    let mut i: usize = 0;
    while i < refs.len()
        invariant
            i <= refs@.len(),
            fs == fields_at(buf@, refs@),
            refs_within(refs@, buf@.len() as int),
            forall|j: int| 0 <= j < i ==> (#[trigger] fs[j]).tag != tag,
        decreases refs@.len() - i,
    {
        let here = refs[i];
        if here.tag == tag {
            proof {
                lemma_first_with_at(fs, i as int, tag);
            }
            return Some((here.start, here.end));
        }
        i += 1;
    }
    proof {
        lemma_first_with_none(fs, tag);
    }
    None
}

/// The text field under `tag`.
fn text_at(buf: &[u8], refs: &Vec<FieldRef>, tag: u8) -> (r: Result<String, DecodeError>)
    requires
        refs_within(refs@, buf@.len() as int),
    ensures
        match r {
            Ok(s) => text_field(fields_at(buf@, refs@), tag) == Ok::<Seq<char>, DecodeError>(s@),
            Err(e) => text_field(fields_at(buf@, refs@), tag) == Err::<Seq<char>, DecodeError>(e),
        },
{
    match find_field(buf, refs, tag) {
        None => Ok(String::new()),
        Some(at) => match read_text(buf, at.0, at.1) {
            Some(s) => Ok(s),
            None => Err(DecodeError::BadText),
        },
    }
}

/// The variable that the payload `buf[from..to]` holds, if it holds one.
fn var_at(buf: &[u8], from: usize, to: usize) -> (r: Option<RsVar>)
    requires
        from <= to <= buf@.len(),
    ensures
        r is Some <==> var_ok(buf@.subrange(from as int, to as int)),
        r matches Some(v) ==> v@ == var_of(buf@.subrange(from as int, to as int)),
{
    let ghost p = buf@.subrange(from as int, to as int);
    if to - from < 8 {
        return None;
    }
    let k = u64_from_le_bytes(slice_subrange(buf, from, from + 8));
    assert(buf@.subrange(from as int, from + 8) =~= p.subrange(0, 8));
    if k > (to - from - 8) as u64 {
        return None;
    }
    let mid = from + 8 + k as usize;
    assert(buf@.subrange(from + 8, mid as int) =~= p.subrange(8, 8 + k));
    assert(buf@.subrange(mid as int, to as int) =~= p.skip(8 + k));
    let key = match read_text(buf, from + 8, mid) {
        Some(s) => s,
        None => { return None; },
    };
    let val = match read_text(buf, mid, to) {
        Some(s) => s,
        None => { return None; },
    };
    Some(RsVar { key, val })
}

/// The variables among the fields.
fn vars_at(buf: &[u8], refs: &Vec<FieldRef>) -> (r: Result<Vec<RsVar>, DecodeError>)
    requires
        refs_within(refs@, buf@.len() as int),
    ensures
        match r {
            Ok(vars) => vars_field(fields_at(buf@, refs@)) == Ok::<Seq<VarView>, DecodeError>(
                vars_view(vars@),
            ),
            Err(e) => vars_field(fields_at(buf@, refs@)) == Err::<Seq<VarView>, DecodeError>(e),
        },
{
    let ghost fs = fields_at(buf@, refs@);
    let mut vars: Vec<RsVar> = Vec::new();
    let mut i: usize = 0;
    while i < refs.len()
        invariant
            i <= refs@.len(),
            fs == fields_at(buf@, refs@),
            refs_within(refs@, buf@.len() as int),
            vars@.len() == var_payloads(fs.take(i as int)).len(),
            forall|k: int|
                0 <= k < vars@.len() ==> var_ok(#[trigger] var_payloads(fs.take(i as int))[k])
                    && vars@[k]@ == var_of(var_payloads(fs.take(i as int))[k]),
        decreases refs@.len() - i,
    {
        let here = refs[i];
        let ghost before = var_payloads(fs.take(i as int));
        proof {
            assert(fs.take(i + 1).drop_last() =~= fs.take(i as int));
            assert(fs.take(i + 1).last() == fs[i as int]);
        }
        if here.tag == TAG_VAR {
            match var_at(buf, here.start, here.end) {
                Some(v) => {
                    vars.push(v);
                },
                None => {
                    proof {
                        let after = var_payloads(fs.take(i + 1));
                        assert(after == before.push(fs[i as int].payload));
                        lemma_var_payloads_prefix(fs, i + 1);
                        let all = var_payloads(fs);
                        assert(all[before.len() as int] == after[before.len() as int]);
                        assert(!var_ok(all[before.len() as int]));
                    }
                    return Err(DecodeError::BadVar);
                },
            }
        }
        i += 1;
    }
    proof {
        assert(fs.take(i as int) =~= fs);
        let ps = var_payloads(fs);
        assert(vars_view(vars@) =~= Seq::new(ps.len(), |i: int| var_of(ps[i])));
    }
    Ok(vars)
}

impl RsLog {
    /// Writes the record as a buffer: the magic bytes, the six fields of
    /// the record proper, then one field for each variable. The sender
    /// address is left out.
    pub fn build(self) -> (out: Vec<u8>)
        ensures
            out@ == encode(self@),
            encodable(self@),
    {
        let ghost x = self@;
        let ghost head = scalar_fields(x);
        let mut out: Vec<u8> = Vec::new();
        out.push(0x48u8);
        out.push(0x4du8);
        out.push(0x44u8);
        out.push(0x4cu8);
        assert(out@ =~= magic());
        let ts = self.ts.to_bytes();
        let pid = u32_to_le_bytes(self.context.pid);
        put_field(&mut out, TAG_TS, ts.as_slice());
        put_field(&mut out, TAG_MSG, self.msg.as_str().as_bytes());
        put_field(&mut out, TAG_APP, self.context.app.as_str().as_bytes());
        put_field(&mut out, TAG_PID, pid.as_slice());
        put_field(&mut out, TAG_OS, self.context.os.as_str().as_bytes());
        put_field(&mut out, TAG_VERSION, self.context.version.as_str().as_bytes());
        proof {
            lemma_frames_push(Seq::empty(), head[0]);
            lemma_frames_push(seq![head[0]], head[1]);
            lemma_frames_push(seq![head[0], head[1]], head[2]);
            lemma_frames_push(seq![head[0], head[1], head[2]], head[3]);
            lemma_frames_push(seq![head[0], head[1], head[2], head[3]], head[4]);
            lemma_frames_push(seq![head[0], head[1], head[2], head[3], head[4]], head[5]);
            assert(Seq::<Field>::empty().push(head[0]) =~= seq![head[0]]);
            assert(seq![head[0]].push(head[1]) =~= seq![head[0], head[1]]);
            assert(seq![head[0], head[1]].push(head[2]) =~= seq![head[0], head[1], head[2]]);
            assert(seq![head[0], head[1], head[2]].push(head[3]) =~= seq![
                head[0],
                head[1],
                head[2],
                head[3],
            ]);
            assert(seq![head[0], head[1], head[2], head[3]].push(head[4]) =~= seq![
                head[0],
                head[1],
                head[2],
                head[3],
                head[4],
            ]);
            assert(seq![head[0], head[1], head[2], head[3], head[4]].push(head[5]) =~= head);
            assert(frames(Seq::<Field>::empty()) =~= Seq::<u8>::empty());
            assert(out@ =~= magic() + frames(head));
            assert(head + var_fields(x.vars.take(0)) =~= head);
        }
        let mut i: usize = 0;
        while i < self.vars.len()
            invariant
                i <= self.vars@.len(),
                x == self@,
                head == scalar_fields(x),
                framable(head),
                out@ == magic() + frames(head + var_fields(x.vars.take(i as int))),
                forall|j: int|
                    0 <= j < i ==> encode_utf8((#[trigger] x.vars[j]).key).len() <= u64::MAX
                        && var_bytes(x.vars[j]).len() <= u64::MAX,
            decreases self.vars@.len() - i,
        {
            let key = self.vars[i].key.as_str().as_bytes();
            let val = self.vars[i].val.as_str().as_bytes();
            let mut payload = u64_to_le_bytes(key.len() as u64);
            append_bytes(&mut payload, key);
            append_bytes(&mut payload, val);
            assert(x.vars[i as int] == self.vars@[i as int]@);
            assert(payload@ =~= var_bytes(x.vars[i as int]));
            put_field(&mut out, TAG_VAR, payload.as_slice());
            proof {
                let sofar = head + var_fields(x.vars.take(i as int));
                let f = Field { tag: TAG_VAR, payload: var_bytes(x.vars[i as int]) };
                lemma_frames_push(sofar, f);
                assert(sofar.push(f) =~= head + var_fields(x.vars.take(i + 1)));
            }
            i += 1;
        }
        proof {
            assert(x.vars.take(i as int) =~= x.vars);
            let fs = fields_of(x);
            assert forall|j: int| 0 <= j < fs.len() implies (#[trigger] fs[j]).payload.len()
                <= u64::MAX by {
                if j < 6 {
                    assert(fs[j] == head[j]);
                } else {
                    assert(fs[j] == var_fields(x.vars)[j - 6]);
                }
            }
        }
        out
    }

    /// Reads a record from a buffer and gives it `ip` as its sender
    /// address. Fails, with the reason, exactly where the buffer is not a
    /// well-formed record; absent fields other than the timestamp take
    /// their defaults, an empty text and a zero process id.
    pub fn from(buf: &[u8], ip: String) -> (r: Result<RsLog, DecodeError>)
        ensures
            match r {
                Ok(x) => decode(buf@, ip@) == Ok::<LogView, DecodeError>(x@),
                Err(e) => decode(buf@, ip@) == Err::<LogView, DecodeError>(e),
            },
    {
        if buf.len() < 4 {
            return Err(DecodeError::BadMagic);
        }
        if buf[0] != 0x48u8 || buf[1] != 0x4du8 || buf[2] != 0x44u8 || buf[3] != 0x4cu8 {
            assert(buf@.subrange(0, 4)[0] == buf@[0]);
            assert(buf@.subrange(0, 4)[1] == buf@[1]);
            assert(buf@.subrange(0, 4)[2] == buf@[2]);
            assert(buf@.subrange(0, 4)[3] == buf@[3]);
            return Err(DecodeError::BadMagic);
        }
        assert(buf@.subrange(0, 4) =~= magic());
        assert(buf@.skip(4) =~= buf@.subrange(4, buf@.len() as int));
        let refs = match split_fields(buf, 4, buf.len()) {
            Some(refs) => refs,
            None => { return Err(DecodeError::Truncated); },
        };
        let ghost fs = fields_at(buf@, refs@);
        let ts = match find_field(buf, &refs, TAG_TS) {
            None => { return Err(DecodeError::MissingTimestamp); },
            Some(at) => match Timestamp::from_bytes(slice_subrange(buf, at.0, at.1)) {
                Some(ts) => ts,
                None => { return Err(DecodeError::BadTimestamp); },
            },
        };
        let msg = match text_at(buf, &refs, TAG_MSG) {
            Ok(s) => s,
            Err(e) => { return Err(e); },
        };
        let app = match text_at(buf, &refs, TAG_APP) {
            Ok(s) => s,
            Err(e) => { return Err(e); },
        };
        let pid = match find_field(buf, &refs, TAG_PID) {
            None => 0u32,
            Some(at) => {
                if at.1 - at.0 != 4 {
                    return Err(DecodeError::BadPid);
                }
                u32_from_le_bytes(slice_subrange(buf, at.0, at.1))
            },
        };
        let os = match text_at(buf, &refs, TAG_OS) {
            Ok(s) => s,
            Err(e) => { return Err(e); },
        };
        let version = match text_at(buf, &refs, TAG_VERSION) {
            Ok(s) => s,
            Err(e) => { return Err(e); },
        };
        let vars = match vars_at(buf, &refs) {
            Ok(v) => v,
            Err(e) => { return Err(e); },
        };
        Ok(RsLog { ts, msg, ip, context: RsContext { app, pid, os, version }, vars })
    }
}

/// Whether a tag is one that a record's fields use.
pub open spec fn known_tag(tag: u8) -> bool {
    TAG_TS <= tag <= TAG_VAR
}

/// Whether a text field is absent or holds UTF-8.
pub open spec fn text_ok(fs: Seq<Field>, tag: u8) -> bool {
    first_with(fs, tag) matches Some(p) ==> valid_utf8(p)
}

/// Whether a buffer is a well-formed record: it starts with the magic
/// bytes, splits into fields, holds a timestamp of sixteen bytes, and each
/// other field that it holds under a known tag has the shape of that field.
pub open spec fn well_formed(bytes: Seq<u8>) -> bool {
    &&& bytes.len() >= 4
    &&& bytes.subrange(0, 4) == magic()
    &&& parse_fields(bytes.skip(4)) matches Some(fs)
    &&& first_with(fs, TAG_TS) matches Some(ts)
    &&& ts.len() == TIMESTAMP_LEN
    &&& text_ok(fs, TAG_MSG)
    &&& text_ok(fs, TAG_APP)
    &&& (first_with(fs, TAG_PID) matches Some(pid) ==> pid.len() == 4)
    &&& text_ok(fs, TAG_OS)
    &&& text_ok(fs, TAG_VERSION)
    &&& forall|i: int| 0 <= i < var_payloads(fs).len() ==> var_ok(#[trigger] var_payloads(fs)[i])
}

/// A buffer decodes to a record exactly where it is well-formed, whatever
/// the sender address; every other buffer is refused with an error.
pub proof fn decode_accepts_well_formed_only(bytes: Seq<u8>, ip: Seq<char>)
    ensures
        decode(bytes, ip) is Ok <==> well_formed(bytes),
{
}

/// A field that is put in among others does not change what is found
/// under another tag.
proof fn lemma_first_with_insert(fs: Seq<Field>, i: int, f: Field, tag: u8)
    requires
        0 <= i <= fs.len(),
        f.tag != tag,
    ensures
        first_with(fs.insert(i, f), tag) == first_with(fs, tag),
    decreases i,
{
    let more = fs.insert(i, f);
    if i == 0 {
        assert(more[0] == f);
        assert(more.drop_first() =~= fs);
    } else {
        assert(more[0] == fs[0]);
        assert(more.drop_first() =~= fs.drop_first().insert(i - 1, f));
        lemma_first_with_insert(fs.drop_first(), i - 1, f, tag);
    }
}

/// A field that is no variable and is put in among others does not change
/// the variables.
proof fn lemma_var_payloads_insert(fs: Seq<Field>, i: int, f: Field)
    requires
        0 <= i <= fs.len(),
        f.tag != TAG_VAR,
    ensures
        var_payloads(fs.insert(i, f)) == var_payloads(fs),
    decreases fs.len(),
{
    let more = fs.insert(i, f);
    if i == fs.len() {
        assert(more.last() == f);
        assert(more.drop_last() =~= fs);
    } else {
        assert(more.last() == fs.last());
        assert(more.drop_last() =~= fs.drop_last().insert(i, f));
        lemma_var_payloads_insert(fs.drop_last(), i, f);
    }
}

/// A field under a tag that records do not use is passed over: with it,
/// anywhere among the fields, the fields stand for the same record or fail
/// with the same error. A reader that knows fewer fields than the writer
/// reads what it knows.
pub proof fn unknown_field_is_passed_over(fs: Seq<Field>, i: int, f: Field, ip: Seq<char>)
    requires
        0 <= i <= fs.len(),
        !known_tag(f.tag),
    ensures
        record_of(fs.insert(i, f), ip) == record_of(fs, ip),
{
    lemma_first_with_insert(fs, i, f, TAG_TS);
    lemma_first_with_insert(fs, i, f, TAG_MSG);
    lemma_first_with_insert(fs, i, f, TAG_APP);
    lemma_first_with_insert(fs, i, f, TAG_PID);
    lemma_first_with_insert(fs, i, f, TAG_OS);
    lemma_first_with_insert(fs, i, f, TAG_VERSION);
    lemma_var_payloads_insert(fs, i, f);
}

/// A buffer with one more field under an unknown tag decodes as the buffer
/// without it.
pub proof fn extended_buffer_decodes_alike(fs: Seq<Field>, i: int, f: Field, ip: Seq<char>)
    requires
        0 <= i <= fs.len(),
        !known_tag(f.tag),
        framable(fs),
        f.payload.len() <= u64::MAX,
    ensures
        decode(magic() + frames(fs.insert(i, f)), ip) == decode(magic() + frames(fs), ip),
{
    let more = fs.insert(i, f);
    assert(framable(more)) by {
        assert forall|j: int| 0 <= j < more.len() implies (#[trigger] more[j]).payload.len()
            <= u64::MAX by {
            if j < i {
                assert(more[j] == fs[j]);
            } else if j > i {
                assert(more[j] == fs[j - 1]);
            }
        }
    }
    lemma_parse_frames(fs);
    lemma_parse_frames(more);
    let a = magic() + frames(more);
    let b = magic() + frames(fs);
    assert(a.subrange(0, 4) =~= magic());
    assert(b.subrange(0, 4) =~= magic());
    assert(a.skip(4) =~= frames(more));
    assert(b.skip(4) =~= frames(fs));
    unknown_field_is_passed_over(fs, i, f, ip);
}

/// A record without the fields that may be absent: a buffer that holds the
/// timestamp alone decodes to the record of that timestamp with empty
/// texts, process id zero and no variables.
pub proof fn absent_fields_take_defaults(ts: Timestamp, ip: Seq<char>)
    ensures
        decode(magic() + frames(seq![Field { tag: TAG_TS, payload: timestamp_bytes(ts) }]), ip)
            == Ok::<LogView, DecodeError>(
            LogView {
                ts,
                msg: Seq::empty(),
                ip,
                context: ContextView {
                    app: Seq::empty(),
                    pid: 0,
                    os: Seq::empty(),
                    version: Seq::empty(),
                },
                vars: Seq::empty(),
            },
        ),
{
    let fs = seq![Field { tag: TAG_TS, payload: timestamp_bytes(ts) }];
    let bytes = magic() + frames(fs);
    lemma_timestamp_bytes(ts);
    lemma_parse_frames(fs);
    assert(bytes.subrange(0, 4) =~= magic());
    assert(bytes.skip(4) =~= frames(fs));
    lemma_first_with_at(fs, 0, TAG_TS);
    lemma_first_with_none(fs, TAG_MSG);
    lemma_first_with_none(fs, TAG_APP);
    lemma_first_with_none(fs, TAG_PID);
    lemma_first_with_none(fs, TAG_OS);
    lemma_first_with_none(fs, TAG_VERSION);
    lemma_var_payloads_none(fs);
    assert(Seq::new(var_payloads(fs).len(), |i: int| var_of(var_payloads(fs)[i]))
        =~= Seq::<VarView>::empty());
}

} // verus!
