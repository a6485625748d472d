//! Properties the library guarantees, stated over the grammar and the
//! accessor semantics and proved once, for every input.

use vstd::prelude::*;

use crate::error::ErrorV;
use crate::format::{
    assoc_get, assoc_set, be_val, lemma_assoc_set_absent,
    lemma_assoc_set_at, signed_val, spec_parse_compound, spec_parse_list, spec_parse_payload,
    spec_parse_string, tagv_has_type,
};
use crate::region::{slot_index, slot_offset, spec_load_chunk};
use crate::tag::{
    keys_unique, lemma_tag_entries_wf_elems, lemma_tagvs_wf_elems, spec_as_f32_bits,
    spec_as_f64_bits, spec_as_i16, spec_as_i32, spec_as_i64, spec_as_i8, spec_as_string,
    spec_index, spec_key, tag_entries_wf, tagv_wf, tagvs_wf, TagV,
};

verus! {

/// Decoding a scalar yields exactly the value its big-endian payload
/// denotes, at the position right after it, and the matching typed accessor
/// hands that value back unchanged.
pub proof fn lemma_scalar_round_trip(data: Seq<u8>, pos: int)
    requires
        0 <= pos,
    ensures
        pos + 1 <= data.len() ==> spec_parse_payload(data, pos, 1) == Ok::<(TagV, int), ErrorV>(
            (TagV::Byte(signed_val(data[pos] as int, 0x100) as i8), pos + 1),
        ),
        pos + 1 <= data.len() ==> spec_as_i8(
            TagV::Byte(signed_val(data[pos] as int, 0x100) as i8),
        ) == Ok::<i8, ErrorV>(signed_val(data[pos] as int, 0x100) as i8),
        pos + 2 <= data.len() ==> spec_parse_payload(data, pos, 2) == Ok::<(TagV, int), ErrorV>(
            (TagV::Short(signed_val(be_val(data, pos, 2) as int, 0x10000) as i16), pos + 2),
        ),
        pos + 2 <= data.len() ==> spec_as_i16(
            TagV::Short(signed_val(be_val(data, pos, 2) as int, 0x10000) as i16),
        ) == Ok::<i16, ErrorV>(signed_val(be_val(data, pos, 2) as int, 0x10000) as i16),
        pos + 4 <= data.len() ==> spec_parse_payload(data, pos, 3) == Ok::<(TagV, int), ErrorV>(
            (TagV::Int(signed_val(be_val(data, pos, 4) as int, 0x1_0000_0000) as i32), pos + 4),
        ),
        pos + 4 <= data.len() ==> spec_as_i32(
            TagV::Int(signed_val(be_val(data, pos, 4) as int, 0x1_0000_0000) as i32),
        ) == Ok::<i32, ErrorV>(signed_val(be_val(data, pos, 4) as int, 0x1_0000_0000) as i32),
        pos + 8 <= data.len() ==> spec_parse_payload(data, pos, 4) == Ok::<(TagV, int), ErrorV>(
            (
                TagV::Long(signed_val(be_val(data, pos, 8) as int, 0x1_0000_0000_0000_0000) as i64),
                pos + 8,
            ),
        ),
        pos + 8 <= data.len() ==> spec_as_i64(
            TagV::Long(signed_val(be_val(data, pos, 8) as int, 0x1_0000_0000_0000_0000) as i64),
        ) == Ok::<i64, ErrorV>(
            signed_val(be_val(data, pos, 8) as int, 0x1_0000_0000_0000_0000) as i64,
        ),
        pos + 4 <= data.len() ==> spec_parse_payload(data, pos, 5) == Ok::<(TagV, int), ErrorV>(
            (TagV::Float(be_val(data, pos, 4) as u32), pos + 4),
        ),
        pos + 4 <= data.len() ==> spec_as_f32_bits(TagV::Float(be_val(data, pos, 4) as u32))
            == Ok::<u32, ErrorV>(be_val(data, pos, 4) as u32),
        pos + 8 <= data.len() ==> spec_parse_payload(data, pos, 6) == Ok::<(TagV, int), ErrorV>(
            (TagV::Double(be_val(data, pos, 8) as u64), pos + 8),
        ),
        pos + 8 <= data.len() ==> spec_as_f64_bits(TagV::Double(be_val(data, pos, 8) as u64))
            == Ok::<u64, ErrorV>(be_val(data, pos, 8) as u64),
{
    reveal_with_fuel(be_val, 2);
}

/// Last write wins: after setting a key, looking that key up yields the
/// value just set, whatever the earlier entries held — so a compound whose
/// source stream repeats a key answers for it with the later value only.
pub proof fn lemma_compound_last_write_wins(es: Seq<(Seq<char>, TagV)>, k: Seq<char>, v: TagV)
    ensures
        assoc_get(assoc_set(es, k, v), k) == Some(v),
        spec_key(TagV::Compound(assoc_set(es, k, v)), k) == Ok::<TagV, ErrorV>(v),
    decreases es.len(),
{
    if es.len() > 0 && es[0].0 != k {
        lemma_compound_last_write_wins(es.drop_first(), k, v);
        assert((seq![es[0]] + assoc_set(es.drop_first(), k, v)).drop_first() =~= assoc_set(
            es.drop_first(),
            k,
            v,
        ));
    }
}

/// Decoding a run of list elements yields exactly the requested number of
/// elements, every one of the declared element type.
pub proof fn lemma_list_count_and_homogeneity(data: Seq<u8>, pos: int, ty: u8, n: int)
    requires
        0 <= pos <= data.len(),
    ensures
        (match spec_parse_list(data, pos, ty, n) {
            Ok((ts, end)) => ts.len() == (if n <= 0 {
                0int
            } else {
                n
            }) && forall|i: int| 0 <= i < ts.len() ==> tagv_has_type(#[trigger] ts[i], ty),
            Err(_) => true,
        }),
    decreases data.len() - pos, 2int, n,
{
    if n > 0 {
        lemma_parse_payload_has_type(data, pos, ty);
        match spec_parse_payload(data, pos, ty) {
            Ok((t, p2)) => {
                if pos <= p2 <= data.len() {
                    lemma_list_count_and_homogeneity(data, p2, ty, n - 1);
                }
            },
            Err(_) => {},
        }
    }
}

/// A decoded payload has the type its id declared.
pub proof fn lemma_parse_payload_has_type(data: Seq<u8>, pos: int, ty: u8)
    ensures
        (match spec_parse_payload(data, pos, ty) {
            Ok((t, end)) => tagv_has_type(t, ty),
            Err(_) => true,
        }),
{
}

/// Indexing a list at or past its length is an invalid-index failure
/// carrying the requested index, never a default.
pub proof fn lemma_index_past_end(ts: Seq<TagV>, i: usize)
    requires
        i >= ts.len(),
    ensures
        spec_index(TagV::List(ts), i) == Err::<TagV, ErrorV>(ErrorV::InvalidIndex(i)),
{
}

/// A compound's entries end at the first zero type id: the end marker is
/// consumed and nothing is stored for it.
pub proof fn lemma_compound_end_marker(data: Seq<u8>, pos: int, acc: Seq<(Seq<char>, TagV)>)
    requires
        0 <= pos,
        pos + 1 <= data.len(),
        data[pos] == 0,
    ensures
        spec_parse_compound(data, pos, acc) == Ok::<(Seq<(Seq<char>, TagV)>, int), ErrorV>(
            (acc, pos + 1),
        ),
{
}

/// A typed accessor on a value of another shape is a type-mismatch failure,
/// never a default or a coerced value.
pub proof fn lemma_accessor_type_mismatch(t: TagV)
    ensures
        !(t is Int) ==> spec_as_i32(t) == Err::<i32, ErrorV>(ErrorV::TypeMismatch),
        !(t is Byte) ==> spec_as_i8(t) == Err::<i8, ErrorV>(ErrorV::TypeMismatch),
        !(t is Str) ==> spec_as_string(t) == Err::<Seq<char>, ErrorV>(ErrorV::TypeMismatch),
{
}

/// A slot whose stored offset is zero holds no chunk: loading it is the
/// distinct absent-chunk failure, before any read of the source body.
pub proof fn lemma_absent_slot(data: Seq<u8>, x: u8, z: u8)
    requires
        x < 32,
        z < 32,
        slot_offset(data, slot_index(x, z)) == 0,
    ensures
        spec_load_chunk(data, x, z) == Err::<TagV, ErrorV>(ErrorV::AbsentChunk { x, z }),
{
}

/// Overwriting or adding one entry keeps names unique and entry values
/// well-formed.
pub proof fn lemma_assoc_set_wf(es: Seq<(Seq<char>, TagV)>, k: Seq<char>, v: TagV)
    requires
        keys_unique(es),
        tag_entries_wf(es),
        tagv_wf(v),
    ensures
        keys_unique(assoc_set(es, k, v)),
        tag_entries_wf(assoc_set(es, k, v)),
{
    lemma_tag_entries_wf_elems(es);
    if exists|j: int| 0 <= j < es.len() && es[j].0 == k {
        let j = choose|j: int| 0 <= j < es.len() && es[j].0 == k;
        assert forall|j2: int| 0 <= j2 < j implies es[j2].0 != k by {
            assert(es[j2].0 != es[j].0);
        }
        lemma_assoc_set_at(es, k, v, j);
        lemma_tag_entries_wf_elems(es.update(j, (k, v)));
    } else {
        lemma_assoc_set_absent(es, k, v);
        lemma_tag_entries_wf_elems(es.push((k, v)));
    }
}

/// Every tree the grammar denotes is well-formed: names are unique within
/// every compound anywhere in it.
pub proof fn lemma_parse_payload_wf(data: Seq<u8>, pos: int, ty: u8)
    requires
        0 <= pos <= data.len(),
    ensures
        (match spec_parse_payload(data, pos, ty) {
            Ok((t, end)) => tagv_wf(t),
            Err(_) => true,
        }),
    decreases data.len() - pos, 1int, 0int,
{
    if ty == 9 {
        if pos + 5 <= data.len() {
            lemma_parse_list_wf(data, pos + 5, data[pos], be_val(data, pos + 1, 4) as int);
        }
    } else if ty == 10 {
        lemma_parse_compound_wf(data, pos, Seq::empty());
    }
}

/// Every element of a decoded element run is well-formed.
pub proof fn lemma_parse_list_wf(data: Seq<u8>, pos: int, ty: u8, n: int)
    requires
        0 <= pos <= data.len(),
    ensures
        (match spec_parse_list(data, pos, ty, n) {
            Ok((ts, end)) => tagvs_wf(ts),
            Err(_) => true,
        }),
    decreases data.len() - pos, 2int, n,
{
    if n > 0 {
        lemma_parse_payload_wf(data, pos, ty);
        match spec_parse_payload(data, pos, ty) {
            Ok((t, p2)) => {
                if pos <= p2 <= data.len() {
                    lemma_parse_list_wf(data, p2, ty, n - 1);
                    match spec_parse_list(data, p2, ty, n - 1) {
                        Ok((ts, end)) => {
                            lemma_tagvs_wf_elems(ts);
                            lemma_tagvs_wf_elems(seq![t] + ts);
                        },
                        Err(_) => {},
                    }
                }
            },
            Err(_) => {},
        }
    }
}

/// A decoded entry run keeps names unique and entry values well-formed.
pub proof fn lemma_parse_compound_wf(data: Seq<u8>, pos: int, acc: Seq<(Seq<char>, TagV)>)
    requires
        0 <= pos <= data.len(),
        keys_unique(acc),
        tag_entries_wf(acc),
    ensures
        (match spec_parse_compound(data, pos, acc) {
            Ok((es, end)) => keys_unique(es) && tag_entries_wf(es),
            Err(_) => true,
        }),
    decreases data.len() - pos, 0int, 0int,
{
    if pos + 1 <= data.len() && data[pos] != 0 {
        match spec_parse_string(data, pos + 1) {
            Ok((name, p2)) => {
                lemma_parse_payload_wf(data, p2, data[pos]);
                match spec_parse_payload(data, p2, data[pos]) {
                    Ok((t, p3)) => {
                        if p2 <= p3 <= data.len() {
                            lemma_assoc_set_wf(acc, name, t);
                            lemma_parse_compound_wf(data, p3, assoc_set(acc, name, t));
                        }
                    },
                    Err(_) => {},
                }
            },
            Err(_) => {},
        }
    }
}

} // verus!


