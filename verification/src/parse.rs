//! The executable recursive-descent decoder, proved to return exactly what
//! the grammar in [`crate::format`] denotes.

use vstd::prelude::*;
use vstd::slice::{slice_subrange, slice_to_vec};
use vstd::utf8::{decode_utf8, valid_utf8};

use crate::error::{Error, ErrorV};
use crate::format::{
    be_val, signed_val, spec_parse_compound, spec_parse_list, spec_parse_payload,
    spec_parse_root, spec_parse_string, spec_parse_tag,
};
use crate::format::{lemma_assoc_set_absent, lemma_assoc_set_at, assoc_set};
use crate::laws::lemma_parse_payload_wf;
use crate::tag::{
    entries_view, lemma_entries_view_elems, lemma_tags_view_elems, tag_view, tags_view, tagv_wf,
    Tag, TagV,
};

verus! {

/// The mathematical image of a decoder step's outcome: the value's view and
/// the end position on success, the error's view on failure.
pub open spec fn parse_result_view(r: Result<(Tag, usize), Error>) -> Result<
    (TagV, int),
    ErrorV,
> {
    match r {
        Ok((t, end)) => Ok((tag_view(t), end as int)),
        Err(e) => Err(e.deep_view()),
    }
}

/// The mathematical image of a string field read.
pub open spec fn string_result_view(r: Result<(String, usize), Error>) -> Result<
    (Seq<char>, int),
    ErrorV,
> {
    match r {
        Ok((s, end)) => Ok((s@, end as int)),
        Err(e) => Err(e.deep_view()),
    }
}

/// Relies on `String::from_utf8`: yields the decoded text exactly when the
/// bytes are valid UTF-8, and nothing otherwise.
#[verifier::external_body]
fn bytes_to_string(v: Vec<u8>) -> (r: Option<String>)
    ensures
        match r {
            Some(s) => valid_utf8(v@) && s@ == decode_utf8(v@),
            None => !valid_utf8(v@),
        },
{
    match String::from_utf8(v) {
        Ok(s) => Some(s),
        Err(_) => None,
    }
}

/// Big-endian 16-bit read.
pub(crate) fn be_u16(data: &[u8], pos: usize) -> (r: u16)
    requires
        pos + 2 <= data@.len(),
    ensures
        r == be_val(data@, pos as int, 2),
{
    proof {
        reveal_with_fuel(be_val, 3);
    }
    let b0 = data[pos];
    let b1 = data[pos + 1];
    (b0 as u16) * 256 + (b1 as u16)
}

/// Big-endian 32-bit read.
pub(crate) fn be_u32(data: &[u8], pos: usize) -> (r: u32)
    requires
        pos + 4 <= data@.len(),
    ensures
        r == be_val(data@, pos as int, 4),
{
    proof {
        reveal_with_fuel(be_val, 5);
    }
    let b0 = data[pos];
    let b1 = data[pos + 1];
    let b2 = data[pos + 2];
    let b3 = data[pos + 3];
    (((b0 as u32) * 256 + (b1 as u32)) * 256 + (b2 as u32)) * 256 + (b3 as u32)
}

/// Big-endian 64-bit read.
pub(crate) fn be_u64(data: &[u8], pos: usize) -> (r: u64)
    requires
        pos + 8 <= data@.len(),
    ensures
        r == be_val(data@, pos as int, 8),
{
    proof {
        reveal_with_fuel(be_val, 9);
    }
    let mut r: u64 = 0;
    let b0 = data[pos];
    let b1 = data[pos + 1];
    let b2 = data[pos + 2];
    let b3 = data[pos + 3];
    let b4 = data[pos + 4];
    let b5 = data[pos + 5];
    let b6 = data[pos + 6];
    let b7 = data[pos + 7];
    r = (b0 as u64) * 256 + (b1 as u64);
    r = r * 256 + (b2 as u64);
    r = r * 256 + (b3 as u64);
    r = r * 256 + (b4 as u64);
    r = r * 256 + (b5 as u64);
    r = r * 256 + (b6 as u64);
    r = r * 256 + (b7 as u64);
    r
}

/// Two's-complement reading of one byte.
fn i8_from(b: u8) -> (r: i8)
    ensures
        r as int == signed_val(b as int, 0x100),
{
    if b < 0x80 {
        b as i8
    } else {
        -((0xFFu8 - b) as i8) - 1
    }
}

/// Two's-complement reading of a 16-bit word.
fn i16_from(w: u16) -> (r: i16)
    ensures
        r as int == signed_val(w as int, 0x10000),
{
    if w < 0x8000 {
        w as i16
    } else {
        -((0xFFFFu16 - w) as i16) - 1
    }
}

/// Two's-complement reading of a 32-bit word.
fn i32_from(w: u32) -> (r: i32)
    ensures
        r as int == signed_val(w as int, 0x1_0000_0000),
{
    if w < 0x8000_0000 {
        w as i32
    } else {
        -((0xFFFF_FFFFu32 - w) as i32) - 1
    }
}

/// Two's-complement reading of a 64-bit word.
fn i64_from(w: u64) -> (r: i64)
    ensures
        r as int == signed_val(w as int, 0x1_0000_0000_0000_0000),
{
    if w < 0x8000_0000_0000_0000 {
        w as i64
    } else {
        -((0xFFFF_FFFF_FFFF_FFFFu64 - w) as i64) - 1
    }
}

/// Adds an entry to a compound under construction. A repeated name
/// overwrites the earlier entry's value in place; a new name is appended.
fn compound_insert(entries: &mut Vec<(String, Tag)>, name: String, value: Tag)
    ensures
        entries_view(final(entries)@) == assoc_set(
            entries_view(old(entries)@),
            name@,
            tag_view(value),
        ),
{
    let ghost es0: Seq<(String, Tag)> = entries@;
    let ghost k: Seq<char> = name@;
    let ghost tv: TagV = tag_view(value);
    let n = entries.len();
    let mut i: usize = 0;
    while i < n
        invariant
            entries@ == es0,
            es0 == old(entries)@,
            n == es0.len(),
            0 <= i <= n,
            name@ == k,
            tag_view(value) == tv,
            forall|j: int| 0 <= j < i ==> es0[j].0@ != k,
        decreases n - i,
    {
        if entries[i].0 == name {
            entries[i] = (name, value);
            proof {
                lemma_entries_view_elems(es0);
                lemma_entries_view_elems(entries@);
                assert(entries_view(entries@) =~= entries_view(es0).update(i as int, (k, tv)));
                lemma_assoc_set_at(entries_view(es0), k, tv, i as int);
            }
            return;
        }
        i += 1;
    }
    proof {
        lemma_entries_view_elems(es0);
    }
    entries.push((name, value));
    proof {
        lemma_entries_view_elems(entries@);
        assert(entries_view(entries@) =~= entries_view(es0).push((k, tv)));
        lemma_assoc_set_absent(entries_view(es0), k, tv);
    }
}

impl Tag {
    /// Reads a length-prefixed UTF-8 string field at `pos`.
    fn read_string(data: &[u8], pos: usize) -> (r: Result<(String, usize), Error>)
        requires
            pos <= data@.len(),
        ensures
            string_result_view(r) == spec_parse_string(data@, pos as int),
            r matches Ok((s, end)) ==> pos + 2 <= end <= data@.len(),
    {
        let len = data.len();
        if len - pos < 2 {
            return Err(Error::UnexpectedEof);
        }
        let n = be_u16(data, pos) as usize;
        if len - (pos + 2) < n {
            return Err(Error::UnexpectedEof);
        }
        let bytes = slice_to_vec(slice_subrange(data, pos + 2, pos + 2 + n));
        match bytes_to_string(bytes) {
            Some(s) => Ok((s, pos + 2 + n)),
            None => Err(Error::BadEncoding),
        }
    }

    /// Decodes the payload of a value whose type id `ty` is already known,
    /// returning the value and the position after it.
    fn parse_payload(data: &[u8], pos: usize, ty: u8) -> (r: Result<(Tag, usize), Error>)
        ensures
            parse_result_view(r) == spec_parse_payload(data@, pos as int, ty),
            r matches Ok((t, end)) ==> pos <= end,
            pos <= data@.len() ==> (r matches Ok((t, end)) ==> end <= data@.len()),
        decreases data@.len() - pos,
    {
        let len = data.len();
        if ty == 0 {
            return Ok((Tag::TagEnd, pos));
        }
        if ty > 12 {
            return Err(Error::UnexpectedTag(ty));
        }
        if pos > len {
            return Err(Error::UnexpectedEof);
        }
        if ty == 1 {
            if len - pos < 1 {
                return Err(Error::UnexpectedEof);
            }
            Ok((Tag::TagByte(i8_from(data[pos])), pos + 1))
        } else if ty == 2 {
            if len - pos < 2 {
                return Err(Error::UnexpectedEof);
            }
            Ok((Tag::TagShort(i16_from(be_u16(data, pos))), pos + 2))
        } else if ty == 3 {
            if len - pos < 4 {
                return Err(Error::UnexpectedEof);
            }
            Ok((Tag::TagInt(i32_from(be_u32(data, pos))), pos + 4))
        } else if ty == 4 {
            if len - pos < 8 {
                return Err(Error::UnexpectedEof);
            }
            Ok((Tag::TagLong(i64_from(be_u64(data, pos))), pos + 8))
        } else if ty == 5 {
            if len - pos < 4 {
                return Err(Error::UnexpectedEof);
            }
            Ok((Tag::TagFloat(be_u32(data, pos)), pos + 4))
        } else if ty == 6 {
            if len - pos < 8 {
                return Err(Error::UnexpectedEof);
            }
            Ok((Tag::TagDouble(be_u64(data, pos)), pos + 8))
        } else if ty == 7 {
            if len - pos < 4 {
                return Err(Error::UnexpectedEof);
            }
            let n = be_u32(data, pos);
            if (n as u64) > ((len - (pos + 4)) as u64) {
                return Err(Error::UnexpectedEof);
            }
            let n = n as usize;
            let v = slice_to_vec(slice_subrange(data, pos + 4, pos + 4 + n));
            Ok((Tag::TagByteArray(v), pos + 4 + n))
        } else if ty == 8 {
            match Tag::read_string(data, pos) {
                Ok((s, end)) => Ok((Tag::TagString(s), end)),
                Err(e) => Err(e),
            }
        } else if ty == 9 {
            if len - pos < 5 {
                return Err(Error::UnexpectedEof);
            }
            let ety = data[pos];
            let n = be_u32(data, pos + 1);
            let ghost pos0: int = pos as int + 5;
            let mut elems: Vec<Tag> = Vec::new();
            let mut cur: usize = pos + 5;
            let mut i: u32 = 0;
            proof {
                match spec_parse_list(data@, pos0, ety, n as int) {
                    Ok((ts, end)) => {
                        assert(Seq::<TagV>::empty() + ts =~= ts);
                    },
                    Err(_) => {},
                }
            }
            while i < n
                invariant
                    len == data@.len(),
                    ty == 9,
                    pos + 5 <= len,
                    data@[pos as int] == ety,
                    n == be_val(data@, pos as int + 1, 4),
                    pos0 == pos as int + 5,
                    pos + 5 <= cur <= len,
                    i <= n,
                    tags_view(elems@).len() == i,
                    spec_parse_list(data@, pos0, ety, n as int) == (
                    match spec_parse_list(data@, cur as int, ety, n as int - i as int) {
                        Ok((ts, end)) => Ok::<_, ErrorV>((tags_view(elems@) + ts, end)),
                        Err(e) => Err::<(Seq<TagV>, int), _>(e),
                    }),
                decreases n - i,
            {
                match Tag::parse_payload(data, cur, ety) {
                    Err(e) => {
                        return Err(e);
                    },
                    Ok((t, p2)) => {
                        proof {
                            lemma_tags_view_elems(elems@);
                            lemma_tags_view_elems(elems@.push(t));
                            assert(tags_view(elems@.push(t)) =~= tags_view(elems@) + seq![
                                tag_view(t)
                            ]);
                            match spec_parse_list(
                                data@,
                                p2 as int,
                                ety,
                                n as int - i as int - 1,
                            ) {
                                Ok((ts2, end2)) => {
                                    assert((tags_view(elems@) + seq![tag_view(t)]) + ts2
                                        =~= tags_view(elems@) + (seq![tag_view(t)] + ts2));
                                },
                                Err(_) => {},
                            }
                        }
                        elems.push(t);
                        cur = p2;
                        i = i + 1;
                    },
                }
            }
            proof {
                assert(tags_view(elems@) + Seq::<TagV>::empty() =~= tags_view(elems@));
            }
            Ok((Tag::TagList(elems), cur))
        } else if ty == 10 {
            let mut entries: Vec<(String, Tag)> = Vec::new();
            let mut cur: usize = pos;
            loop
                invariant
                    len == data@.len(),
                    ty == 10,
                    pos <= cur <= len,
                    spec_parse_compound(data@, pos as int, Seq::empty())
                        == spec_parse_compound(data@, cur as int, entries_view(entries@)),
                decreases len - cur,
            {
                if len - cur < 1 {
                    return Err(Error::UnexpectedEof);
                }
                let ety = data[cur];
                if ety == 0 {
                    return Ok((Tag::TagCompound(entries), cur + 1));
                }
                match Tag::read_string(data, cur + 1) {
                    Err(e) => {
                        return Err(e);
                    },
                    Ok((name, p2)) => {
                        match Tag::parse_payload(data, p2, ety) {
                            Err(e) => {
                                return Err(e);
                            },
                            Ok((t, p3)) => {
                                proof {
                                    assert(spec_parse_compound(
                                        data@,
                                        cur as int,
                                        entries_view(entries@),
                                    ) == spec_parse_compound(
                                        data@,
                                        p3 as int,
                                        assoc_set(entries_view(entries@), name@, tag_view(t)),
                                    ));
                                }
                                compound_insert(&mut entries, name, t);
                                cur = p3;
                            },
                        }
                    },
                }
            }
        } else if ty == 11 {
            if len - pos < 4 {
                return Err(Error::UnexpectedEof);
            }
            let n = be_u32(data, pos);
            if (n as u64) * 4 > ((len - (pos + 4)) as u64) {
                return Err(Error::UnexpectedEof);
            }
            let mut v: Vec<u32> = Vec::new();
            let mut cur: usize = pos + 4;
            let mut i: u32 = 0;
            while i < n
                invariant
                    len == data@.len(),
                    pos as int + 4 + 4 * (n as int) <= len,
                    i <= n,
                    cur == pos as int + 4 + 4 * (i as int),
                    v@.len() == i,
                    forall|j: int|
                        0 <= j < i ==> v@[j] == be_val(data@, pos as int + 4 + 4 * j, 4) as u32,
                decreases n - i,
            {
                let x = be_u32(data, cur);
                v.push(x);
                cur = cur + 4;
                i = i + 1;
            }
            proof {
                match spec_parse_payload(data@, pos as int, ty) {
                    Ok((tv, end)) => match tv {
                        TagV::IntArray(sq) => {
                            assert(v@ =~= sq);
                        },
                        _ => {},
                    },
                    Err(_) => {},
                }
            }
            Ok((Tag::TagIntArray(v), cur))
        } else {
            if len - pos < 4 {
                return Err(Error::UnexpectedEof);
            }
            let n = be_u32(data, pos);
            if (n as u64) * 8 > ((len - (pos + 4)) as u64) {
                return Err(Error::UnexpectedEof);
            }
            let mut v: Vec<u64> = Vec::new();
            let mut cur: usize = pos + 4;
            let mut i: u32 = 0;
            while i < n
                invariant
                    len == data@.len(),
                    pos as int + 4 + 8 * (n as int) <= len,
                    i <= n,
                    cur == pos as int + 4 + 8 * (i as int),
                    v@.len() == i,
                    forall|j: int|
                        0 <= j < i ==> v@[j] == be_val(data@, pos as int + 4 + 8 * j, 8) as u64,
                decreases n - i,
            {
                let x = be_u64(data, cur);
                v.push(x);
                cur = cur + 8;
                i = i + 1;
            }
            proof {
                match spec_parse_payload(data@, pos as int, ty) {
                    Ok((tv, end)) => match tv {
                        TagV::LongArray(sq) => {
                            assert(v@ =~= sq);
                        },
                        _ => {},
                    },
                    Err(_) => {},
                }
            }
            Ok((Tag::TagLongArray(v), cur))
        }
    }

    /// Decodes one value at `pos`. When `tag_type` is `None` the type id is
    /// read from the stream first; a `Some` fixes it, as a list does for its
    /// elements. Returns the value and the position after it.
    pub fn parse_tag(data: &[u8], pos: usize, tag_type: Option<u8>) -> (r: Result<
        (Tag, usize),
        Error,
    >)
        ensures
            parse_result_view(r) == spec_parse_tag(data@, pos as int, tag_type),
            r matches Ok((t, end)) ==> tagv_wf(t@),
    {
        match tag_type {
            Some(ty) => {
                let r = Tag::parse_payload(data, pos, ty);
                proof {
                    if pos <= data@.len() {
                        lemma_parse_payload_wf(data@, pos as int, ty);
                    }
                }
                r
            },
            None => {
                if pos >= data.len() {
                    return Err(Error::UnexpectedEof);
                }
                let ty = data[pos];
                let r = Tag::parse_payload(data, pos + 1, ty);
                proof {
                    lemma_parse_payload_wf(data@, pos as int + 1, ty);
                }
                r
            },
        }
    }

    /// Decodes a whole named document: a type id, the root's name, then the
    /// root value of that type. Bytes after the root value are ignored.
    pub fn parse(data: &[u8]) -> (r: Result<(String, Tag), Error>)
        ensures
            (match r {
                Ok((name, tag)) => spec_parse_root(data@) == Ok::<_, ErrorV>((name@, tag@)),
                Err(e) => spec_parse_root(data@) == Err::<(Seq<char>, TagV), _>(e.deep_view()),
            }),
            r matches Ok((name, tag)) ==> tagv_wf(tag@),
    {
        if data.len() < 1 {
            return Err(Error::UnexpectedEof);
        }
        let ty = data[0];
        match Tag::read_string(data, 1) {
            Err(e) => Err(e),
            Ok((name, p)) => {
                proof {
                    lemma_parse_payload_wf(data@, p as int, ty);
                }
                match Tag::parse_payload(data, p, ty) {
                    Err(e) => Err(e),
                    Ok((t, _end)) => Ok((name, t)),
                }
            },
        }
    }
}

} // verus!
