//! The binary grammar, stated mathematically.
//!
//! Every multi-byte quantity in the format is big-endian. A value is
//! introduced by a one-byte type id; ids 0 through 12 are recognized and any
//! other id is a decode failure. The functions here define, over a byte
//! sequence and a position, exactly which tree a well-formed encoding denotes
//! and which error a malformed one produces; the executable decoder is proved
//! to return precisely these results.

use vstd::prelude::*;
use vstd::utf8::{decode_utf8, valid_utf8};

use crate::error::ErrorV;
use crate::tag::TagV;

verus! {

/// The big-endian value of the `n` bytes starting at `pos`.
pub open spec fn be_val(data: Seq<u8>, pos: int, n: int) -> nat
    decreases n,
{
    if n <= 0 {
        0
    } else {
        (be_val(data, pos, n - 1) * 256 + data[pos + n - 1]) as nat
    }
}

/// Two's-complement reading of `v` as a signed value modulo `m`.
pub open spec fn signed_val(v: int, m: int) -> int {
    if 2 * v >= m {
        v - m
    } else {
        v
    }
}

/// A length-prefixed text field: a 2-byte big-endian length, then that many
/// bytes of UTF-8. Yields the decoded characters and the position after the
/// field.
pub open spec fn spec_parse_string(data: Seq<u8>, pos: int) -> Result<(Seq<char>, int), ErrorV> {
    if pos + 2 > data.len() {
        Err(ErrorV::UnexpectedEof)
    } else {
        let n = be_val(data, pos, 2);
        if pos + 2 + n > data.len() {
            Err(ErrorV::UnexpectedEof)
        } else {
            let bytes = data.subrange(pos + 2, pos + 2 + n);
            if valid_utf8(bytes) {
                Ok((decode_utf8(bytes), pos + 2 + n))
            } else {
                Err(ErrorV::BadEncoding)
            }
        }
    }
}

/// Whether a value has the shape that type id `ty` declares.
pub open spec fn tagv_has_type(t: TagV, ty: u8) -> bool {
    match t {
        TagV::End => ty == 0,
        TagV::Byte(_) => ty == 1,
        TagV::Short(_) => ty == 2,
        TagV::Int(_) => ty == 3,
        TagV::Long(_) => ty == 4,
        TagV::Float(_) => ty == 5,
        TagV::Double(_) => ty == 6,
        TagV::ByteArray(_) => ty == 7,
        TagV::Str(_) => ty == 8,
        TagV::List(_) => ty == 9,
        TagV::Compound(_) => ty == 10,
        TagV::IntArray(_) => ty == 11,
        TagV::LongArray(_) => ty == 12,
    }
}

/// Replaces the value of the first entry named `k` with `v`, or appends a new
/// entry when no entry is named `k`. This is how a compound absorbs a repeated
/// key: the later occurrence wins.
pub open spec fn assoc_set(es: Seq<(Seq<char>, TagV)>, k: Seq<char>, v: TagV) -> Seq<
    (Seq<char>, TagV),
>
    decreases es.len(),
{
    if es.len() == 0 {
        seq![(k, v)]
    } else if es[0].0 == k {
        seq![(k, v)] + es.drop_first()
    } else {
        seq![es[0]] + assoc_set(es.drop_first(), k, v)
    }
}

/// The value of the first entry named `k`, if any.
pub open spec fn assoc_get(es: Seq<(Seq<char>, TagV)>, k: Seq<char>) -> Option<TagV>
    decreases es.len(),
{
    if es.len() == 0 {
        None
    } else if es[0].0 == k {
        Some(es[0].1)
    } else {
        assoc_get(es.drop_first(), k)
    }
}

/// Setting a key that first occurs at position `i` overwrites in place.
pub proof fn lemma_assoc_set_at(es: Seq<(Seq<char>, TagV)>, k: Seq<char>, v: TagV, i: int)
    requires
        0 <= i < es.len(),
        es[i].0 == k,
        forall|j: int| 0 <= j < i ==> es[j].0 != k,
    ensures
        assoc_set(es, k, v) =~= es.update(i, (k, v)),
    decreases i,
{
    if i == 0 {
        assert(assoc_set(es, k, v) =~= es.update(0, (k, v)));
    } else {
        assert(es.drop_first()[i - 1] == es[i]);
        assert(forall|j: int| 0 <= j < i - 1 ==> es.drop_first()[j] == es[j + 1]);
        lemma_assoc_set_at(es.drop_first(), k, v, i - 1);
        assert(assoc_set(es, k, v) =~= seq![es[0]] + es.drop_first().update(i - 1, (k, v)));
    }
}

/// Setting a key that does not occur appends a new entry.
pub proof fn lemma_assoc_set_absent(es: Seq<(Seq<char>, TagV)>, k: Seq<char>, v: TagV)
    requires
        forall|j: int| 0 <= j < es.len() ==> es[j].0 != k,
    ensures
        assoc_set(es, k, v) =~= es.push((k, v)),
    decreases es.len(),
{
    if es.len() > 0 {
        assert(forall|j: int| 0 <= j < es.drop_first().len() ==> es.drop_first()[j] == es[j + 1]);
        lemma_assoc_set_absent(es.drop_first(), k, v);
        assert(assoc_set(es, k, v) =~= seq![es[0]] + es.drop_first().push((k, v)));
    }
}

/// Looking a key up finds the entry where it first occurs.
pub proof fn lemma_assoc_get_at(es: Seq<(Seq<char>, TagV)>, k: Seq<char>, i: int)
    requires
        0 <= i < es.len(),
        es[i].0 == k,
        forall|j: int| 0 <= j < i ==> es[j].0 != k,
    ensures
        assoc_get(es, k) == Some(es[i].1),
    decreases i,
{
    if i > 0 {
        assert(forall|j: int| 0 <= j < i - 1 ==> es.drop_first()[j] == es[j + 1]);
        lemma_assoc_get_at(es.drop_first(), k, i - 1);
    }
}

/// Looking up a key that no entry carries finds nothing.
pub proof fn lemma_assoc_get_absent(es: Seq<(Seq<char>, TagV)>, k: Seq<char>)
    requires
        forall|j: int| 0 <= j < es.len() ==> es[j].0 != k,
    ensures
        assoc_get(es, k) is None,
    decreases es.len(),
{
    if es.len() > 0 {
        assert(forall|j: int|
            0 <= j < es.drop_first().len() ==> es.drop_first()[j] == es[j + 1]);
        lemma_assoc_get_absent(es.drop_first(), k);
    }
}

/// The payload of a value whose type id `ty` has already been read.
/// Yields the denoted tree and the position after the payload.
pub open spec fn spec_parse_payload(data: Seq<u8>, pos: int, ty: u8) -> Result<
    (TagV, int),
    ErrorV,
>
    decreases data.len() - pos, 1int, 0int,
{
    if ty == 0 {
        Ok((TagV::End, pos))
    } else if ty == 1 {
        if pos + 1 > data.len() {
            Err(ErrorV::UnexpectedEof)
        } else {
            Ok((TagV::Byte(signed_val(data[pos] as int, 0x100) as i8), pos + 1))
        }
    } else if ty == 2 {
        if pos + 2 > data.len() {
            Err(ErrorV::UnexpectedEof)
        } else {
            Ok((TagV::Short(signed_val(be_val(data, pos, 2) as int, 0x10000) as i16), pos + 2))
        }
    } else if ty == 3 {
        if pos + 4 > data.len() {
            Err(ErrorV::UnexpectedEof)
        } else {
            Ok((TagV::Int(signed_val(be_val(data, pos, 4) as int, 0x1_0000_0000) as i32), pos + 4))
        }
    } else if ty == 4 {
        if pos + 8 > data.len() {
            Err(ErrorV::UnexpectedEof)
        } else {
            Ok(
                (
                    TagV::Long(
                        signed_val(be_val(data, pos, 8) as int, 0x1_0000_0000_0000_0000) as i64,
                    ),
                    pos + 8,
                ),
            )
        }
    } else if ty == 5 {
        if pos + 4 > data.len() {
            Err(ErrorV::UnexpectedEof)
        } else {
            Ok((TagV::Float(be_val(data, pos, 4) as u32), pos + 4))
        }
    } else if ty == 6 {
        if pos + 8 > data.len() {
            Err(ErrorV::UnexpectedEof)
        } else {
            Ok((TagV::Double(be_val(data, pos, 8) as u64), pos + 8))
        }
    } else if ty == 7 {
        if pos + 4 > data.len() {
            Err(ErrorV::UnexpectedEof)
        } else {
            let n = be_val(data, pos, 4);
            if pos + 4 + n > data.len() {
                Err(ErrorV::UnexpectedEof)
            } else {
                Ok((TagV::ByteArray(data.subrange(pos + 4, pos + 4 + n)), pos + 4 + n))
            }
        }
    } else if ty == 8 {
        match spec_parse_string(data, pos) {
            Ok((s, end)) => Ok((TagV::Str(s), end)),
            Err(e) => Err(e),
        }
    } else if ty == 9 {
        if pos + 5 > data.len() {
            Err(ErrorV::UnexpectedEof)
        } else {
            let elem_ty = data[pos];
            let n = be_val(data, pos + 1, 4);
            match spec_parse_list(data, pos + 5, elem_ty, n as int) {
                Ok((elems, end)) => Ok((TagV::List(elems), end)),
                Err(e) => Err(e),
            }
        }
    } else if ty == 10 {
        match spec_parse_compound(data, pos, Seq::empty()) {
            Ok((es, end)) => Ok((TagV::Compound(es), end)),
            Err(e) => Err(e),
        }
    } else if ty == 11 {
        if pos + 4 > data.len() {
            Err(ErrorV::UnexpectedEof)
        } else {
            let n = be_val(data, pos, 4);
            if pos + 4 + 4 * n > data.len() {
                Err(ErrorV::UnexpectedEof)
            } else {
                Ok(
                    (
                        TagV::IntArray(
                            Seq::new(n as nat, |i: int| be_val(data, pos + 4 + 4 * i, 4) as u32),
                        ),
                        pos + 4 + 4 * n,
                    ),
                )
            }
        }
    } else if ty == 12 {
        if pos + 4 > data.len() {
            Err(ErrorV::UnexpectedEof)
        } else {
            let n = be_val(data, pos, 4);
            if pos + 4 + 8 * n > data.len() {
                Err(ErrorV::UnexpectedEof)
            } else {
                Ok(
                    (
                        TagV::LongArray(
                            Seq::new(n as nat, |i: int| be_val(data, pos + 4 + 8 * i, 8) as u64),
                        ),
                        pos + 4 + 8 * n,
                    ),
                )
            }
        }
    } else {
        Err(ErrorV::UnexpectedTag(ty))
    }
}

/// `n` consecutive list elements, each with the fixed element type id `ty`.
///
/// The guard that a step never moves backwards or past the end is always true
/// of [`spec_parse_payload`] (see [`lemma_parse_payload_bounds`]); it is
/// written out so the recursion is visibly well-founded.
pub open spec fn spec_parse_list(data: Seq<u8>, pos: int, ty: u8, n: int) -> Result<
    (Seq<TagV>, int),
    ErrorV,
>
    decreases data.len() - pos, 2int, n,
{
    if n <= 0 {
        Ok((Seq::empty(), pos))
    } else {
        match spec_parse_payload(data, pos, ty) {
            Err(e) => Err(e),
            Ok((t, p2)) => {
                if pos <= p2 <= data.len() {
                    match spec_parse_list(data, p2, ty, n - 1) {
                        Err(e) => Err(e),
                        Ok((ts, end)) => Ok((seq![t] + ts, end)),
                    }
                } else {
                    Err(ErrorV::UnexpectedEof)
                }
            },
        }
    }
}

/// Compound entries from `pos` up to and including the terminating end
/// marker, folded over the entries read so far. Each entry is a type id, a
/// name, and a payload; a type id of zero ends the compound and is consumed
/// without being stored. A repeated name overwrites the earlier entry.
///
/// The guard on the payload's end position is always true, as in
/// [`spec_parse_list`].
pub open spec fn spec_parse_compound(
    data: Seq<u8>,
    pos: int,
    acc: Seq<(Seq<char>, TagV)>,
) -> Result<(Seq<(Seq<char>, TagV)>, int), ErrorV>
    decreases data.len() - pos, 0int, 0int,
{
    if pos + 1 > data.len() {
        Err(ErrorV::UnexpectedEof)
    } else {
        let ety = data[pos];
        if ety == 0 {
            Ok((acc, pos + 1))
        } else {
            match spec_parse_string(data, pos + 1) {
                Err(e) => Err(e),
                Ok((name, p2)) => {
                    match spec_parse_payload(data, p2, ety) {
                        Err(e) => Err(e),
                        Ok((t, p3)) => {
                            if p2 <= p3 <= data.len() {
                                spec_parse_compound(data, p3, assoc_set(acc, name, t))
                            } else {
                                Err(ErrorV::UnexpectedEof)
                            }
                        },
                    }
                },
            }
        }
    }
}

/// A successful payload parse ends between its start and the end of the data.
pub proof fn lemma_parse_payload_bounds(data: Seq<u8>, pos: int, ty: u8)
    requires
        0 <= pos <= data.len(),
    ensures
        (match spec_parse_payload(data, pos, ty) {
            Ok((t, end)) => pos <= end <= data.len(),
            Err(_) => true,
        }),
    decreases data.len() - pos, 1int, 0int,
{
    if ty == 9 {
        if pos + 5 <= data.len() {
            lemma_parse_list_bounds(data, pos + 5, data[pos], be_val(data, pos + 1, 4) as int);
        }
    } else if ty == 10 {
        lemma_parse_compound_bounds(data, pos, Seq::empty());
    }
}

/// A successful run of list elements ends between its start and the end of
/// the data, and yields exactly the requested number of elements.
pub proof fn lemma_parse_list_bounds(data: Seq<u8>, pos: int, ty: u8, n: int)
    requires
        0 <= pos <= data.len(),
    ensures
        (match spec_parse_list(data, pos, ty, n) {
            Ok((ts, end)) => pos <= end <= data.len() && ts.len() == if n <= 0 {
                0int
            } else {
                n
            },
            Err(_) => true,
        }),
    decreases data.len() - pos, 2int, n,
{
    if n > 0 {
        lemma_parse_payload_bounds(data, pos, ty);
        match spec_parse_payload(data, pos, ty) {
            Ok((t, p2)) => {
                if pos <= p2 <= data.len() {
                    lemma_parse_list_bounds(data, p2, ty, n - 1);
                }
            },
            Err(_) => {},
        }
    }
}

/// A successful run of compound entries consumes at least the end marker and
/// ends no later than the end of the data.
pub proof fn lemma_parse_compound_bounds(data: Seq<u8>, pos: int, acc: Seq<(Seq<char>, TagV)>)
    requires
        0 <= pos <= data.len(),
    ensures
        (match spec_parse_compound(data, pos, acc) {
            Ok((es, end)) => pos < end <= data.len(),
            Err(_) => true,
        }),
    decreases data.len() - pos, 0int, 0int,
{
    if pos + 1 <= data.len() && data[pos] != 0 {
        match spec_parse_string(data, pos + 1) {
            Ok((name, p2)) => {
                lemma_parse_payload_bounds(data, p2, data[pos]);
                match spec_parse_payload(data, p2, data[pos]) {
                    Ok((t, p3)) => {
                        if p2 <= p3 <= data.len() {
                            lemma_parse_compound_bounds(data, p3, assoc_set(acc, name, t));
                        }
                    },
                    Err(_) => {},
                }
            },
            Err(_) => {},
        }
    }
}

/// A value at `pos`: reads the type id itself when `ty` is `None`, as the
/// recursive decoder does at the root and a list does not.
pub open spec fn spec_parse_tag(data: Seq<u8>, pos: int, ty: Option<u8>) -> Result<
    (TagV, int),
    ErrorV,
> {
    match ty {
        Some(t) => spec_parse_payload(data, pos, t),
        None => {
            if pos + 1 > data.len() {
                Err(ErrorV::UnexpectedEof)
            } else {
                spec_parse_payload(data, pos + 1, data[pos])
            }
        },
    }
}

/// A whole named document: one type id, the root's name, then the root's
/// payload. Trailing bytes after the payload are ignored.
pub open spec fn spec_parse_root(data: Seq<u8>) -> Result<(Seq<char>, TagV), ErrorV> {
    if 1 > data.len() {
        Err(ErrorV::UnexpectedEof)
    } else {
        let ty = data[0];
        match spec_parse_string(data, 1) {
            Err(e) => Err(e),
            Ok((name, p)) => match spec_parse_payload(data, p, ty) {
                Err(e) => Err(e),
                Ok((t, _end)) => Ok((name, t)),
            },
        }
    }
}

} // verus!
