use vstd::bytes::{
    lemma_auto_spec_u64_to_from_le_bytes, spec_u64_from_le_bytes, spec_u64_to_le_bytes,
    u64_from_le_bytes, u64_to_le_bytes,
};
use vstd::prelude::*;
use vstd::slice::slice_subrange;

verus! {

/// Bytes that a field's header takes: one tag byte and eight length bytes.
pub const HEADER_LEN: usize = 9;

/// One tagged field of a buffer.
pub struct Field {
    pub tag: u8,
    pub payload: Seq<u8>,
}

/// The bytes of one field: its tag, the payload's length as eight
/// little-endian bytes, then the payload.
pub open spec fn frame(f: Field) -> Seq<u8> {
    seq![f.tag] + spec_u64_to_le_bytes(f.payload.len() as u64) + f.payload
}

/// The bytes of a list of fields, one after the other.
pub open spec fn frames(fs: Seq<Field>) -> Seq<u8>
    decreases fs.len(),
{
    if fs.len() == 0 {
        Seq::empty()
    } else {
        frame(fs[0]) + frames(fs.drop_first())
    }
}

/// Whether every payload is short enough for its length to be written in
/// eight bytes.
pub open spec fn framable(fs: Seq<Field>) -> bool {
    forall|i: int| 0 <= i < fs.len() ==> (#[trigger] fs[i]).payload.len() <= u64::MAX
}

/// The fields that `bytes` holds, or `None` where a header or a payload is
/// cut short.
pub open spec fn parse_fields(bytes: Seq<u8>) -> Option<Seq<Field>>
    decreases bytes.len(),
{
    if bytes.len() == 0 {
        Some(Seq::empty())
    } else if bytes.len() < HEADER_LEN {
        None
    } else {
        let n = spec_u64_from_le_bytes(bytes.subrange(1, 9)) as int;
        if bytes.len() - HEADER_LEN < n {
            None
        } else {
            match parse_fields(bytes.skip(HEADER_LEN + n)) {
                Some(rest) => Some(
                    seq![Field { tag: bytes[0], payload: bytes.subrange(9, 9 + n) }] + rest,
                ),
                None => None,
            }
        }
    }
}

/// Writing one more field appends its bytes.
pub proof fn lemma_frames_push(fs: Seq<Field>, f: Field)
    ensures
        frames(fs.push(f)) == frames(fs) + frame(f),
    decreases fs.len(),
{
    if fs.len() == 0 {
        assert(fs.push(f).drop_first() =~= Seq::<Field>::empty());
        assert(fs.push(f)[0] == f);
        assert(frames(fs.push(f).drop_first()) =~= Seq::<u8>::empty());
        assert(frames(fs) =~= Seq::<u8>::empty());
        assert(frames(fs.push(f)) =~= frames(fs) + frame(f));
    } else {
        lemma_frames_push(fs.drop_first(), f);
        assert(fs.push(f).drop_first() =~= fs.drop_first().push(f));
        assert(frames(fs.push(f)) =~= frames(fs) + frame(f));
    }
}

/// Reading back what was written gives the same fields.
pub proof fn lemma_parse_frames(fs: Seq<Field>)
    requires
        framable(fs),
    ensures
        parse_fields(frames(fs)) == Some(fs),
    decreases fs.len(),
{
    if fs.len() == 0 {
    } else {
        let f = fs[0];
        let rest = fs.drop_first();
        let bytes = frames(fs);
        lemma_auto_spec_u64_to_from_le_bytes();
        let len = spec_u64_to_le_bytes(f.payload.len() as u64);
        assert(bytes == seq![f.tag] + len + f.payload + frames(rest));
        assert(bytes.subrange(1, 9) =~= len);
        assert(bytes[0] == f.tag);
        let n = f.payload.len() as int;
        assert(spec_u64_from_le_bytes(bytes.subrange(1, 9)) as int == n);
        assert(bytes.subrange(9, 9 + n) =~= f.payload);
        assert(bytes.skip(9 + n) =~= frames(rest));
        assert(framable(rest)) by {
            assert forall|i: int| 0 <= i < rest.len() implies (#[trigger] rest[i]).payload.len()
                <= u64::MAX by {
                assert(rest[i] == fs[i + 1]);
            }
        }
        lemma_parse_frames(rest);
        assert(seq![Field { tag: bytes[0], payload: bytes.subrange(9, 9 + n) }] + rest =~= fs);
    }
}

/// Appends `src` to `out`.
pub fn append_bytes(out: &mut Vec<u8>, src: &[u8])
    ensures
        final(out)@ == old(out)@ + src@,
{
    let mut i: usize = 0;
    while i < src.len()
        invariant
            i <= src@.len(),
            out@ == old(out)@ + src@.take(i as int),
        decreases src@.len() - i,
    {
        out.push(src[i]);
        i += 1;
        assert(src@.take(i as int) =~= src@.take(i as int - 1).push(src@[i as int - 1]));
        assert(out@ =~= old(out)@ + src@.take(i as int));
    }
    assert(src@.take(src@.len() as int) =~= src@);
}

/// Appends the field with the given tag and payload to `out`.
pub fn put_field(out: &mut Vec<u8>, tag: u8, payload: &[u8])
    ensures
        final(out)@ == old(out)@ + frame(Field { tag, payload: payload@ }),
        payload@.len() <= u64::MAX,
{
    out.push(tag);
    let len = u64_to_le_bytes(payload.len() as u64);
    append_bytes(out, len.as_slice());
    append_bytes(out, payload);
    assert(out@ =~= old(out)@ + frame(Field { tag, payload: payload@ }));
}

/// Where one field lies in a buffer: its tag and the range of its payload.
#[derive(Clone, Copy, Debug)]
pub struct FieldRef {
    pub tag: u8,
    pub start: usize,
    pub end: usize,
}

/// The fields that a list of references picks out of `bytes`.
pub open spec fn fields_at(bytes: Seq<u8>, refs: Seq<FieldRef>) -> Seq<Field> {
    Seq::new(
        refs.len(),
        |i: int|
            Field { tag: refs[i].tag, payload: bytes.subrange(refs[i].start as int, refs[i].end as int) },
    )
}

/// Whether every reference lies inside a buffer of `len` bytes.
pub open spec fn refs_within(refs: Seq<FieldRef>, len: int) -> bool {
    forall|i: int| 0 <= i < refs.len() ==> (#[trigger] refs[i]).start <= refs[i].end <= len
}

/// Splits `buf[from..to]` into its fields. Returns `None` exactly where a header or a
/// payload is cut short.
pub(crate) fn split_fields(buf: &[u8], from: usize, to: usize) -> (r: Option<Vec<FieldRef>>)
    requires
        from <= to <= buf@.len(),
    ensures
        r is Some <==> parse_fields(buf@.subrange(from as int, to as int)) is Some,
        r matches Some(refs) ==> refs_within(refs@, to as int) && parse_fields(
            buf@.subrange(from as int, to as int),
        ) == Some(fields_at(buf@, refs@)),
{
    let ghost all = buf@.subrange(from as int, to as int);
    let mut refs: Vec<FieldRef> = Vec::new();
    let mut pos: usize = from;
    while pos < to
        invariant
            from <= pos <= to <= buf@.len(),
            all == buf@.subrange(from as int, to as int),
            refs_within(refs@, to as int),
            parse_fields(all) == match parse_fields(buf@.subrange(pos as int, to as int)) {
                Some(rest) => Some(fields_at(buf@, refs@) + rest),
                None => None,
            },
        decreases to - pos,
    {
        let ghost here = buf@.subrange(pos as int, to as int);
        if to - pos < HEADER_LEN {
            return None;
        }
        let tag = buf[pos];
        let n = u64_from_le_bytes(slice_subrange(buf, pos + 1, pos + 9));
        assert(buf@.subrange(pos + 1, pos + 9) =~= here.subrange(1, 9));
        if n > (to - pos - HEADER_LEN) as u64 {
            return None;
        }
        let start = pos + HEADER_LEN;
        let end = start + n as usize;
        proof {
            assert(here[0] == tag);
            assert(here.subrange(9, 9 + n as int) =~= buf@.subrange(start as int, end as int));
            assert(here.skip(9 + n as int) =~= buf@.subrange(end as int, to as int));
            let f = Field { tag, payload: buf@.subrange(start as int, end as int) };
            let next = refs@.push(FieldRef { tag, start, end });
            assert(fields_at(buf@, next) =~= fields_at(buf@, refs@).push(f));
            match parse_fields(buf@.subrange(end as int, to as int)) {
                Some(rest) => {
                    assert(fields_at(buf@, refs@) + (seq![f] + rest) =~= fields_at(buf@, next)
                        + rest);
                },
                None => {},
            }
        }
        refs.push(FieldRef { tag, start, end });
        pos = end;
    }
    proof {
        assert(buf@.subrange(pos as int, to as int) =~= Seq::<u8>::empty());
        assert(fields_at(buf@, refs@) + Seq::<Field>::empty() =~= fields_at(buf@, refs@));
    }
    Some(refs)
}

} // verus!
