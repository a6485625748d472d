use vstd::prelude::*;

use crate::error::{Error, ErrorV};
use crate::format::{assoc_get, lemma_assoc_get_absent, lemma_assoc_get_at};

verus! {

/// One node of a decoded tree: a closed tagged union over scalar, array,
/// list and compound shapes.
///
/// Scalars are stored exactly as decoded; the two floating-point variants
/// hold the raw big-endian IEEE bit patterns, which is all the decoder ever
/// reads or writes. A compound holds its entries as name/value pairs whose
/// names are unique; the decoder enforces last-write-wins on repeats.
#[derive(Debug, PartialEq)]
pub enum Tag {
    TagEnd,
    TagByte(i8),
    TagShort(i16),
    TagInt(i32),
    TagLong(i64),
    /// 32-bit IEEE value, kept as its raw bit pattern.
    TagFloat(u32),
    /// 64-bit IEEE value, kept as its raw bit pattern.
    TagDouble(u64),
    TagByteArray(Vec<u8>),
    TagString(String),
    TagList(Vec<Tag>),
    TagCompound(Vec<(String, Tag)>),
    TagIntArray(Vec<u32>),
    TagLongArray(Vec<u64>),
}

/// Mathematical image of a [`Tag`]: the same tree over `Seq` and sequences
/// of characters. Contracts throughout the crate speak of this shape.
pub enum TagV {
    End,
    Byte(i8),
    Short(i16),
    Int(i32),
    Long(i64),
    Float(u32),
    Double(u64),
    ByteArray(Seq<u8>),
    Str(Seq<char>),
    List(Seq<TagV>),
    Compound(Seq<(Seq<char>, TagV)>),
    IntArray(Seq<u32>),
    LongArray(Seq<u64>),
}

/// The mathematical value of a decoded tree node.
pub open spec fn tag_view(t: Tag) -> TagV
    decreases t, 1int,
{
    match t {
        Tag::TagEnd => TagV::End,
        Tag::TagByte(v) => TagV::Byte(v),
        Tag::TagShort(v) => TagV::Short(v),
        Tag::TagInt(v) => TagV::Int(v),
        Tag::TagLong(v) => TagV::Long(v),
        Tag::TagFloat(v) => TagV::Float(v),
        Tag::TagDouble(v) => TagV::Double(v),
        Tag::TagByteArray(v) => TagV::ByteArray(v@),
        Tag::TagString(s) => TagV::Str(s@),
        Tag::TagList(v) => TagV::List(tags_view(v@)),
        Tag::TagCompound(v) => TagV::Compound(entries_view(v@)),
        Tag::TagIntArray(v) => TagV::IntArray(v@),
        Tag::TagLongArray(v) => TagV::LongArray(v@),
    }
}

/// The mathematical values of a sequence of list elements, in order.
pub open spec fn tags_view(s: Seq<Tag>) -> Seq<TagV>
    decreases s, 0int,
{
    if s.len() == 0 {
        Seq::empty()
    } else {
        seq![tag_view(s[0])] + tags_view(s.drop_first())
    }
}

/// The mathematical values of a sequence of compound entries, in order.
pub open spec fn entries_view(s: Seq<(String, Tag)>) -> Seq<(Seq<char>, TagV)>
    decreases s, 0int,
{
    if s.len() == 0 {
        Seq::empty()
    } else {
        seq![(s[0].0@, tag_view(s[0].1))] + entries_view(s.drop_first())
    }
}

impl View for Tag {
    type V = TagV;

    open spec fn view(&self) -> TagV {
        tag_view(*self)
    }
}

/// The view of a sequence of list elements is their views, elementwise.
pub proof fn lemma_tags_view_elems(s: Seq<Tag>)
    ensures
        tags_view(s).len() == s.len(),
        forall|i: int| 0 <= i < s.len() ==> tags_view(s)[i] == tag_view(s[i]),
    decreases s.len(),
{
    if s.len() > 0 {
        lemma_tags_view_elems(s.drop_first());
    }
}

/// The view of a sequence of compound entries is their views, elementwise.
pub proof fn lemma_entries_view_elems(s: Seq<(String, Tag)>)
    ensures
        entries_view(s).len() == s.len(),
        forall|i: int|
            0 <= i < s.len() ==> entries_view(s)[i] == (s[i].0@, tag_view(s[i].1)),
    decreases s.len(),
{
    if s.len() > 0 {
        lemma_entries_view_elems(s.drop_first());
    }
}

/// The fixed display label of each variant, used by diagnostics and
/// pretty-printers, never by decoding.
pub open spec fn spec_type_name(t: TagV) -> Seq<char> {
    match t {
        TagV::End => "TAG_End"@,
        TagV::Byte(_) => "TAG_Byte"@,
        TagV::Short(_) => "TAG_Short"@,
        TagV::Int(_) => "TAG_Int"@,
        TagV::Long(_) => "TAG_Long"@,
        TagV::Float(_) => "TAG_Float"@,
        TagV::Double(_) => "TAG_Double"@,
        TagV::ByteArray(_) => "TAG_ByteArray"@,
        TagV::Str(_) => "TAG_String"@,
        TagV::List(_) => "TAG_List"@,
        TagV::Compound(_) => "TAG_Compound"@,
        TagV::IntArray(_) => "TAG_IntArray"@,
        TagV::LongArray(_) => "TAG_LongArray"@,
    }
}

/// Whether every compound anywhere in the tree has pairwise distinct names.
/// The decoder only ever produces such trees.
pub open spec fn tagv_wf(t: TagV) -> bool
    decreases t, 1int,
{
    match t {
        TagV::List(ts) => tagvs_wf(ts),
        TagV::Compound(es) => keys_unique(es) && tag_entries_wf(es),
        _ => true,
    }
}

/// No two entries share a name.
pub open spec fn keys_unique(es: Seq<(Seq<char>, TagV)>) -> bool {
    forall|i: int, j: int| 0 <= i < j < es.len() ==> es[i].0 != es[j].0
}

/// Every element of a list is well-formed.
pub open spec fn tagvs_wf(ts: Seq<TagV>) -> bool
    decreases ts, 0int,
{
    ts.len() == 0 || (tagv_wf(ts[0]) && tagvs_wf(ts.drop_first()))
}

/// Every entry value of a compound is well-formed.
pub open spec fn tag_entries_wf(es: Seq<(Seq<char>, TagV)>) -> bool
    decreases es, 0int,
{
    es.len() == 0 || (tagv_wf(es[0].1) && tag_entries_wf(es.drop_first()))
}

/// List well-formedness is elementwise.
pub proof fn lemma_tagvs_wf_elems(ts: Seq<TagV>)
    ensures
        tagvs_wf(ts) <==> (forall|i: int| 0 <= i < ts.len() ==> tagv_wf(ts[i])),
    decreases ts.len(),
{
    if ts.len() > 0 {
        lemma_tagvs_wf_elems(ts.drop_first());
        if tagvs_wf(ts) {
            assert forall|i: int| 0 <= i < ts.len() implies tagv_wf(ts[i]) by {
                if i > 0 {
                    assert(tagv_wf(ts.drop_first()[i - 1]));
                }
            }
        }
        if forall|i: int| 0 <= i < ts.len() ==> tagv_wf(ts[i]) {
            assert forall|i: int| 0 <= i < ts.drop_first().len() implies tagv_wf(
                ts.drop_first()[i],
            ) by {
                assert(tagv_wf(ts[i + 1]));
            }
        }
    }
}

/// Entry well-formedness is elementwise.
pub proof fn lemma_tag_entries_wf_elems(es: Seq<(Seq<char>, TagV)>)
    ensures
        tag_entries_wf(es) <==> (forall|i: int| 0 <= i < es.len() ==> tagv_wf(es[i].1)),
    decreases es.len(),
{
    if es.len() > 0 {
        lemma_tag_entries_wf_elems(es.drop_first());
        if tag_entries_wf(es) {
            assert forall|i: int| 0 <= i < es.len() implies tagv_wf(es[i].1) by {
                if i > 0 {
                    assert(tagv_wf(es.drop_first()[i - 1].1));
                }
            }
        }
        if forall|i: int| 0 <= i < es.len() ==> tagv_wf(es[i].1) {
            assert forall|i: int| 0 <= i < es.drop_first().len() implies tagv_wf(
                es.drop_first()[i].1,
            ) by {
                assert(tagv_wf(es[i + 1].1));
            }
        }
    }
}

/// What each typed accessor yields: the payload when the value has the
/// requested shape, and a type-mismatch failure otherwise — never a default
/// or a coerced value.
pub open spec fn spec_as_i8(t: TagV) -> Result<i8, ErrorV> {
    match t {
        TagV::Byte(v) => Ok(v),
        _ => Err(ErrorV::TypeMismatch),
    }
}

pub open spec fn spec_as_i16(t: TagV) -> Result<i16, ErrorV> {
    match t {
        TagV::Short(v) => Ok(v),
        _ => Err(ErrorV::TypeMismatch),
    }
}

pub open spec fn spec_as_i32(t: TagV) -> Result<i32, ErrorV> {
    match t {
        TagV::Int(v) => Ok(v),
        _ => Err(ErrorV::TypeMismatch),
    }
}

pub open spec fn spec_as_i64(t: TagV) -> Result<i64, ErrorV> {
    match t {
        TagV::Long(v) => Ok(v),
        _ => Err(ErrorV::TypeMismatch),
    }
}

pub open spec fn spec_as_f32_bits(t: TagV) -> Result<u32, ErrorV> {
    match t {
        TagV::Float(v) => Ok(v),
        _ => Err(ErrorV::TypeMismatch),
    }
}

pub open spec fn spec_as_f64_bits(t: TagV) -> Result<u64, ErrorV> {
    match t {
        TagV::Double(v) => Ok(v),
        _ => Err(ErrorV::TypeMismatch),
    }
}

pub open spec fn spec_as_bytes(t: TagV) -> Result<Seq<u8>, ErrorV> {
    match t {
        TagV::ByteArray(v) => Ok(v),
        _ => Err(ErrorV::TypeMismatch),
    }
}

pub open spec fn spec_as_string(t: TagV) -> Result<Seq<char>, ErrorV> {
    match t {
        TagV::Str(v) => Ok(v),
        _ => Err(ErrorV::TypeMismatch),
    }
}

pub open spec fn spec_as_list(t: TagV) -> Result<Seq<TagV>, ErrorV> {
    match t {
        TagV::List(v) => Ok(v),
        _ => Err(ErrorV::TypeMismatch),
    }
}

pub open spec fn spec_as_map(t: TagV) -> Result<Seq<(Seq<char>, TagV)>, ErrorV> {
    match t {
        TagV::Compound(v) => Ok(v),
        _ => Err(ErrorV::TypeMismatch),
    }
}

pub open spec fn spec_as_ints(t: TagV) -> Result<Seq<u32>, ErrorV> {
    match t {
        TagV::IntArray(v) => Ok(v),
        _ => Err(ErrorV::TypeMismatch),
    }
}

pub open spec fn spec_as_longs(t: TagV) -> Result<Seq<u64>, ErrorV> {
    match t {
        TagV::LongArray(v) => Ok(v),
        _ => Err(ErrorV::TypeMismatch),
    }
}

/// What indexing a value yields: the element when the value is a list and
/// the index is within it, an invalid-index failure carrying the index when
/// it is past the end, and a type mismatch when the value is no list.
pub open spec fn spec_index(t: TagV, i: usize) -> Result<TagV, ErrorV> {
    match t {
        TagV::List(ts) => if i < ts.len() {
            Ok(ts[i as int])
        } else {
            Err(ErrorV::InvalidIndex(i))
        },
        _ => Err(ErrorV::TypeMismatch),
    }
}

/// What looking a name up yields: the named entry's value when the value is
/// a compound that has it, a missing-key failure carrying the name when it
/// does not, and a type mismatch when the value is no compound.
pub open spec fn spec_key(t: TagV, k: Seq<char>) -> Result<TagV, ErrorV> {
    match t {
        TagV::Compound(es) => match assoc_get(es, k) {
            Some(v) => Ok(v),
            None => Err(ErrorV::MissingKey(k)),
        },
        _ => Err(ErrorV::TypeMismatch),
    }
}

/// Threads a pending failure through an accessor: a carried failure
/// propagates unchanged, so a chain of accesses collapses to its first
/// failure.
pub open spec fn chain<T>(
    r: Result<TagV, ErrorV>,
    f: spec_fn(TagV) -> Result<T, ErrorV>,
) -> Result<T, ErrorV> {
    match r {
        Ok(t) => f(t),
        Err(e) => Err(e),
    }
}

/// The fallible, chainable navigation protocol over decoded trees.
///
/// One capability — produce the underlying value or the failure being
/// carried — is implemented once for a bare `&Tag` and once for an earlier
/// accessor's `Result`; every typed accessor below is derived from it, so a
/// chain such as `tag.key("a").index(0).as_i8()` short-circuits on the first
/// failure and propagates it.
pub trait Taglike<'t>: Sized {
    /// The value this navigable thing stands for, or the failure it carries.
    spec fn tag_result(self) -> Result<TagV, ErrorV>;

    /// The one capability: the underlying value, or the failure carried.
    fn get_tag(self) -> (r: Result<&'t Tag, Error>)
        ensures
            (match r {
                Ok(t) => self.tag_result() == Ok::<TagV, ErrorV>(tag_view(*t)),
                Err(e) => self.tag_result() == Err::<TagV, ErrorV>(e.deep_view()),
            }),
    ;

    fn as_i8(self) -> (r: Result<i8, Error>)
        ensures
            (match r {
                Ok(v) => chain(self.tag_result(), |t| spec_as_i8(t)) == Ok::<i8, ErrorV>(v),
                Err(e) => chain(self.tag_result(), |t| spec_as_i8(t)) == Err::<i8, ErrorV>(
                    e.deep_view(),
                ),
            }),
    {
        match self.get_tag() {
            Ok(t) => t.scalar_i8(),
            Err(e) => Err(e),
        }
    }

    fn as_i16(self) -> (r: Result<i16, Error>)
        ensures
            (match r {
                Ok(v) => chain(self.tag_result(), |t| spec_as_i16(t)) == Ok::<i16, ErrorV>(v),
                Err(e) => chain(self.tag_result(), |t| spec_as_i16(t)) == Err::<i16, ErrorV>(
                    e.deep_view(),
                ),
            }),
    {
        match self.get_tag() {
            Ok(t) => t.scalar_i16(),
            Err(e) => Err(e),
        }
    }

    fn as_i32(self) -> (r: Result<i32, Error>)
        ensures
            (match r {
                Ok(v) => chain(self.tag_result(), |t| spec_as_i32(t)) == Ok::<i32, ErrorV>(v),
                Err(e) => chain(self.tag_result(), |t| spec_as_i32(t)) == Err::<i32, ErrorV>(
                    e.deep_view(),
                ),
            }),
    {
        match self.get_tag() {
            Ok(t) => t.scalar_i32(),
            Err(e) => Err(e),
        }
    }

    fn as_i64(self) -> (r: Result<i64, Error>)
        ensures
            (match r {
                Ok(v) => chain(self.tag_result(), |t| spec_as_i64(t)) == Ok::<i64, ErrorV>(v),
                Err(e) => chain(self.tag_result(), |t| spec_as_i64(t)) == Err::<i64, ErrorV>(
                    e.deep_view(),
                ),
            }),
    {
        match self.get_tag() {
            Ok(t) => t.scalar_i64(),
            Err(e) => Err(e),
        }
    }

    /// The raw bit pattern of a 32-bit IEEE value.
    fn as_f32_bits(self) -> (r: Result<u32, Error>)
        ensures
            (match r {
                Ok(v) => chain(self.tag_result(), |t| spec_as_f32_bits(t)) == Ok::<
                    u32,
                    ErrorV,
                >(v),
                Err(e) => chain(self.tag_result(), |t| spec_as_f32_bits(t)) == Err::<
                    u32,
                    ErrorV,
                >(e.deep_view()),
            }),
    {
        match self.get_tag() {
            Ok(t) => t.scalar_f32_bits(),
            Err(e) => Err(e),
        }
    }

    /// The raw bit pattern of a 64-bit IEEE value.
    fn as_f64_bits(self) -> (r: Result<u64, Error>)
        ensures
            (match r {
                Ok(v) => chain(self.tag_result(), |t| spec_as_f64_bits(t)) == Ok::<
                    u64,
                    ErrorV,
                >(v),
                Err(e) => chain(self.tag_result(), |t| spec_as_f64_bits(t)) == Err::<
                    u64,
                    ErrorV,
                >(e.deep_view()),
            }),
    {
        match self.get_tag() {
            Ok(t) => t.scalar_f64_bits(),
            Err(e) => Err(e),
        }
    }

    fn as_bytes(self) -> (r: Result<&'t Vec<u8>, Error>)
        ensures
            (match r {
                Ok(v) => chain(self.tag_result(), |t| spec_as_bytes(t)) == Ok::<
                    Seq<u8>,
                    ErrorV,
                >(v@),
                Err(e) => chain(self.tag_result(), |t| spec_as_bytes(t)) == Err::<
                    Seq<u8>,
                    ErrorV,
                >(e.deep_view()),
            }),
    {
        match self.get_tag() {
            Ok(t) => t.ref_bytes(),
            Err(e) => Err(e),
        }
    }

    fn as_string(self) -> (r: Result<&'t String, Error>)
        ensures
            (match r {
                Ok(v) => chain(self.tag_result(), |t| spec_as_string(t)) == Ok::<
                    Seq<char>,
                    ErrorV,
                >(v@),
                Err(e) => chain(self.tag_result(), |t| spec_as_string(t)) == Err::<
                    Seq<char>,
                    ErrorV,
                >(e.deep_view()),
            }),
    {
        match self.get_tag() {
            Ok(t) => t.ref_string(),
            Err(e) => Err(e),
        }
    }

    fn as_list(self) -> (r: Result<&'t Vec<Tag>, Error>)
        ensures
            (match r {
                Ok(v) => chain(self.tag_result(), |t| spec_as_list(t)) == Ok::<
                    Seq<TagV>,
                    ErrorV,
                >(tags_view(v@)),
                Err(e) => chain(self.tag_result(), |t| spec_as_list(t)) == Err::<
                    Seq<TagV>,
                    ErrorV,
                >(e.deep_view()),
            }),
    {
        match self.get_tag() {
            Ok(t) => t.ref_list(),
            Err(e) => Err(e),
        }
    }

    fn as_map(self) -> (r: Result<&'t Vec<(String, Tag)>, Error>)
        ensures
            (match r {
                Ok(v) => chain(self.tag_result(), |t| spec_as_map(t)) == Ok::<
                    Seq<(Seq<char>, TagV)>,
                    ErrorV,
                >(entries_view(v@)),
                Err(e) => chain(self.tag_result(), |t| spec_as_map(t)) == Err::<
                    Seq<(Seq<char>, TagV)>,
                    ErrorV,
                >(e.deep_view()),
            }),
    {
        match self.get_tag() {
            Ok(t) => t.ref_map(),
            Err(e) => Err(e),
        }
    }

    fn as_ints(self) -> (r: Result<&'t Vec<u32>, Error>)
        ensures
            (match r {
                Ok(v) => chain(self.tag_result(), |t| spec_as_ints(t)) == Ok::<
                    Seq<u32>,
                    ErrorV,
                >(v@),
                Err(e) => chain(self.tag_result(), |t| spec_as_ints(t)) == Err::<
                    Seq<u32>,
                    ErrorV,
                >(e.deep_view()),
            }),
    {
        match self.get_tag() {
            Ok(t) => t.ref_ints(),
            Err(e) => Err(e),
        }
    }

    fn as_longs(self) -> (r: Result<&'t Vec<u64>, Error>)
        ensures
            (match r {
                Ok(v) => chain(self.tag_result(), |t| spec_as_longs(t)) == Ok::<
                    Seq<u64>,
                    ErrorV,
                >(v@),
                Err(e) => chain(self.tag_result(), |t| spec_as_longs(t)) == Err::<
                    Seq<u64>,
                    ErrorV,
                >(e.deep_view()),
            }),
    {
        match self.get_tag() {
            Ok(t) => t.ref_longs(),
            Err(e) => Err(e),
        }
    }

    /// The element at `index` of a list value.
    fn index(self, index: usize) -> (r: Result<&'t Tag, Error>)
        ensures
            (match r {
                Ok(t) => chain(self.tag_result(), |t| spec_index(t, index)) == Ok::<
                    TagV,
                    ErrorV,
                >(tag_view(*t)),
                Err(e) => chain(self.tag_result(), |t| spec_index(t, index)) == Err::<
                    TagV,
                    ErrorV,
                >(e.deep_view()),
            }),
    {
        match self.get_tag() {
            Ok(t) => t.lookup_index(index),
            Err(e) => Err(e),
        }
    }

    /// The entry named `key` of a compound value.
    fn key(self, key: &str) -> (r: Result<&'t Tag, Error>)
        ensures
            (match r {
                Ok(t) => chain(self.tag_result(), |t| spec_key(t, key@)) == Ok::<
                    TagV,
                    ErrorV,
                >(tag_view(*t)),
                Err(e) => chain(self.tag_result(), |t| spec_key(t, key@)) == Err::<
                    TagV,
                    ErrorV,
                >(e.deep_view()),
            }),
    {
        match self.get_tag() {
            Ok(t) => t.lookup_key(key),
            Err(e) => Err(e),
        }
    }
}

impl<'t> Taglike<'t> for &'t Tag {
    open spec fn tag_result(self) -> Result<TagV, ErrorV> {
        Ok(tag_view(*self))
    }

    fn get_tag(self) -> (r: Result<&'t Tag, Error>) {
        Ok(self)
    }
}

impl<'t, T: Taglike<'t>> Taglike<'t> for Result<T, Error> {
    open spec fn tag_result(self) -> Result<TagV, ErrorV> {
        match self {
            Ok(t) => t.tag_result(),
            Err(e) => Err(e.deep_view()),
        }
    }

    fn get_tag(self) -> (r: Result<&'t Tag, Error>) {
        match self {
            Ok(t) => t.get_tag(),
            Err(e) => Err(e),
        }
    }
}

impl Tag {
    /// The fixed display label of this variant.
    pub fn get_name(&self) -> (r: &'static str)
        ensures
            r@ == spec_type_name(tag_view(*self)),
    {
        match self {
            Tag::TagEnd => "TAG_End",
            Tag::TagByte(_) => "TAG_Byte",
            Tag::TagShort(_) => "TAG_Short",
            Tag::TagInt(_) => "TAG_Int",
            Tag::TagLong(_) => "TAG_Long",
            Tag::TagFloat(_) => "TAG_Float",
            Tag::TagDouble(_) => "TAG_Double",
            Tag::TagByteArray(_) => "TAG_ByteArray",
            Tag::TagString(_) => "TAG_String",
            Tag::TagList(_) => "TAG_List",
            Tag::TagCompound(_) => "TAG_Compound",
            Tag::TagIntArray(_) => "TAG_IntArray",
            Tag::TagLongArray(_) => "TAG_LongArray",
        }
    }

    fn scalar_i8(&self) -> (r: Result<i8, Error>)
        ensures
            (match r {
                Ok(v) => spec_as_i8(tag_view(*self)) == Ok::<i8, ErrorV>(v),
                Err(e) => spec_as_i8(tag_view(*self)) == Err::<i8, ErrorV>(e.deep_view()),
            }),
    {
        match self {
            Tag::TagByte(v) => Ok(*v),
            _ => Err(Error::TypeMismatch),
        }
    }

    fn scalar_i16(&self) -> (r: Result<i16, Error>)
        ensures
            (match r {
                Ok(v) => spec_as_i16(tag_view(*self)) == Ok::<i16, ErrorV>(v),
                Err(e) => spec_as_i16(tag_view(*self)) == Err::<i16, ErrorV>(e.deep_view()),
            }),
    {
        match self {
            Tag::TagShort(v) => Ok(*v),
            _ => Err(Error::TypeMismatch),
        }
    }

    fn scalar_i32(&self) -> (r: Result<i32, Error>)
        ensures
            (match r {
                Ok(v) => spec_as_i32(tag_view(*self)) == Ok::<i32, ErrorV>(v),
                Err(e) => spec_as_i32(tag_view(*self)) == Err::<i32, ErrorV>(e.deep_view()),
            }),
    {
        match self {
            Tag::TagInt(v) => Ok(*v),
            _ => Err(Error::TypeMismatch),
        }
    }

    fn scalar_i64(&self) -> (r: Result<i64, Error>)
        ensures
            (match r {
                Ok(v) => spec_as_i64(tag_view(*self)) == Ok::<i64, ErrorV>(v),
                Err(e) => spec_as_i64(tag_view(*self)) == Err::<i64, ErrorV>(e.deep_view()),
            }),
    {
        match self {
            Tag::TagLong(v) => Ok(*v),
            _ => Err(Error::TypeMismatch),
        }
    }

    fn scalar_f32_bits(&self) -> (r: Result<u32, Error>)
        ensures
            (match r {
                Ok(v) => spec_as_f32_bits(tag_view(*self)) == Ok::<u32, ErrorV>(v),
                Err(e) => spec_as_f32_bits(tag_view(*self)) == Err::<u32, ErrorV>(e.deep_view()),
            }),
    {
        match self {
            Tag::TagFloat(v) => Ok(*v),
            _ => Err(Error::TypeMismatch),
        }
    }

    fn scalar_f64_bits(&self) -> (r: Result<u64, Error>)
        ensures
            (match r {
                Ok(v) => spec_as_f64_bits(tag_view(*self)) == Ok::<u64, ErrorV>(v),
                Err(e) => spec_as_f64_bits(tag_view(*self)) == Err::<u64, ErrorV>(e.deep_view()),
            }),
    {
        match self {
            Tag::TagDouble(v) => Ok(*v),
            _ => Err(Error::TypeMismatch),
        }
    }

    fn ref_bytes<'t>(&'t self) -> (r: Result<&'t Vec<u8>, Error>)
        ensures
            (match r {
                Ok(v) => spec_as_bytes(tag_view(*self)) == Ok::<Seq<u8>, ErrorV>(v@),
                Err(e) => spec_as_bytes(tag_view(*self)) == Err::<Seq<u8>, ErrorV>(
                    e.deep_view(),
                ),
            }),
    {
        match self {
            Tag::TagByteArray(v) => Ok(v),
            _ => Err(Error::TypeMismatch),
        }
    }

    fn ref_string<'t>(&'t self) -> (r: Result<&'t String, Error>)
        ensures
            (match r {
                Ok(v) => spec_as_string(tag_view(*self)) == Ok::<Seq<char>, ErrorV>(v@),
                Err(e) => spec_as_string(tag_view(*self)) == Err::<Seq<char>, ErrorV>(
                    e.deep_view(),
                ),
            }),
    {
        match self {
            Tag::TagString(v) => Ok(v),
            _ => Err(Error::TypeMismatch),
        }
    }

    fn ref_list<'t>(&'t self) -> (r: Result<&'t Vec<Tag>, Error>)
        ensures
            (match r {
                Ok(v) => spec_as_list(tag_view(*self)) == Ok::<Seq<TagV>, ErrorV>(
                    tags_view(v@),
                ),
                Err(e) => spec_as_list(tag_view(*self)) == Err::<Seq<TagV>, ErrorV>(
                    e.deep_view(),
                ),
            }),
    {
        match self {
            Tag::TagList(v) => Ok(v),
            _ => Err(Error::TypeMismatch),
        }
    }

    fn ref_map<'t>(&'t self) -> (r: Result<&'t Vec<(String, Tag)>, Error>)
        ensures
            (match r {
                Ok(v) => spec_as_map(tag_view(*self)) == Ok::<Seq<(Seq<char>, TagV)>, ErrorV>(
                    entries_view(v@),
                ),
                Err(e) => spec_as_map(tag_view(*self)) == Err::<
                    Seq<(Seq<char>, TagV)>,
                    ErrorV,
                >(e.deep_view()),
            }),
    {
        match self {
            Tag::TagCompound(v) => Ok(v),
            _ => Err(Error::TypeMismatch),
        }
    }

    fn ref_ints<'t>(&'t self) -> (r: Result<&'t Vec<u32>, Error>)
        ensures
            (match r {
                Ok(v) => spec_as_ints(tag_view(*self)) == Ok::<Seq<u32>, ErrorV>(v@),
                Err(e) => spec_as_ints(tag_view(*self)) == Err::<Seq<u32>, ErrorV>(
                    e.deep_view(),
                ),
            }),
    {
        match self {
            Tag::TagIntArray(v) => Ok(v),
            _ => Err(Error::TypeMismatch),
        }
    }

    fn ref_longs<'t>(&'t self) -> (r: Result<&'t Vec<u64>, Error>)
        ensures
            (match r {
                Ok(v) => spec_as_longs(tag_view(*self)) == Ok::<Seq<u64>, ErrorV>(v@),
                Err(e) => spec_as_longs(tag_view(*self)) == Err::<Seq<u64>, ErrorV>(
                    e.deep_view(),
                ),
            }),
    {
        match self {
            Tag::TagLongArray(v) => Ok(v),
            _ => Err(Error::TypeMismatch),
        }
    }

    fn lookup_index<'t>(&'t self, index: usize) -> (r: Result<&'t Tag, Error>)
        ensures
            (match r {
                Ok(t) => spec_index(tag_view(*self), index) == Ok::<TagV, ErrorV>(
                    tag_view(*t),
                ),
                Err(e) => spec_index(tag_view(*self), index) == Err::<TagV, ErrorV>(
                    e.deep_view(),
                ),
            }),
    {
        match self {
            Tag::TagList(v) => {
                proof {
                    lemma_tags_view_elems(v@);
                }
                if index < v.len() {
                    Ok(&v[index])
                } else {
                    Err(Error::InvalidIndex(index))
                }
            },
            _ => Err(Error::TypeMismatch),
        }
    }

    fn lookup_key<'t>(&'t self, key: &str) -> (r: Result<&'t Tag, Error>)
        ensures
            (match r {
                Ok(t) => spec_key(tag_view(*self), key@) == Ok::<TagV, ErrorV>(tag_view(*t)),
                Err(e) => spec_key(tag_view(*self), key@) == Err::<TagV, ErrorV>(
                    e.deep_view(),
                ),
            }),
    {
        match self {
            Tag::TagCompound(v) => {
                proof {
                    lemma_entries_view_elems(v@);
                }
                let owned = key.to_owned();
                let n = v.len();
                let mut i: usize = 0;
                while i < n
                    invariant
                        n == v@.len(),
                        0 <= i <= n,
                        owned@ == key@,
                        tag_view(*self) == TagV::Compound(entries_view(v@)),
                        forall|j: int| 0 <= j < i ==> v@[j].0@ != key@,
                    decreases n - i,
                {
                    if v[i].0 == owned {
                        proof {
                            lemma_entries_view_elems(v@);
                            lemma_assoc_get_at(entries_view(v@), key@, i as int);
                        }
                        return Ok(&v[i].1);
                    }
                    i += 1;
                }
                proof {
                    lemma_assoc_get_absent(entries_view(v@), key@);
                }
                Err(Error::MissingKey(owned))
            },
            _ => Err(Error::TypeMismatch),
        }
    }
}

} // verus!
