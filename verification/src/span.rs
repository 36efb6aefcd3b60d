//! Span records and their binary wire encoding.
//!
//! A span is a named, timed unit of work with optional typed attributes.
//! A completed span is encoded into the OpenTelemetry trace protobuf schema:
//! field 1 `trace_id` (bytes), field 2 `span_id` (bytes), field 4
//! `parent_span_id` (bytes), field 5 `name` (string), fields 7 and 8 the
//! start and end timestamps (fixed64 nanoseconds), and field 9 the repeated
//! attribute list. Each attribute is a key (field 1) and a tagged union of
//! string, boolean, 64-bit integer or double (fields 1 to 4 of the value
//! message, field 2 of the attribute). Field numbers and wire types are a
//! fixed external contract; proto3 default values outside the union are
//! skipped on the wire.

use vstd::prelude::*;

use crate::encode::push_bytes_field;
use crate::encode::push_fixed64;
use crate::encode::push_fixed64_field;
use crate::encode::push_len_field;
use crate::encode::push_varint;
use crate::encode::i64_to_u64;
use crate::encode::spec_bytes_field;
use crate::encode::spec_fixed64;
use crate::encode::spec_fixed64_field;
use crate::encode::spec_len_field;
use crate::encode::spec_u64_of_i64;
use crate::encode::spec_varint;

verus! {

/// A typed attribute value. A double is carried as its IEEE-754 bit
/// pattern, which is exactly what the wire format transmits.
pub enum AttrValue {
    Text(Vec<u8>),
    Bool(bool),
    Int(i64),
    Double(u64),
}

/// The mathematical shape of an attribute value.
#[verifier::ext_equal]
pub ghost enum AttrValueModel {
    Text(Seq<u8>),
    Bool(bool),
    Int(i64),
    Double(u64),
}

impl View for AttrValue {
    type V = AttrValueModel;

    open spec fn view(&self) -> AttrValueModel {
        match self {
            AttrValue::Text(s) => AttrValueModel::Text(s@),
            AttrValue::Bool(b) => AttrValueModel::Bool(*b),
            AttrValue::Int(v) => AttrValueModel::Int(*v),
            AttrValue::Double(bits) => AttrValueModel::Double(*bits),
        }
    }
}

/// One key/value annotation on a span. Keys are UTF-8 bytes; duplicates are
/// permitted and preserved in insertion order.
pub struct Attribute {
    pub key: Vec<u8>,
    pub value: AttrValue,
}

/// The mathematical shape of an attribute.
#[verifier::ext_equal]
pub ghost struct AttributeModel {
    pub key: Seq<u8>,
    pub value: AttrValueModel,
}

impl View for Attribute {
    type V = AttributeModel;

    open spec fn view(&self) -> AttributeModel {
        AttributeModel { key: self.key@, value: self.value@ }
    }
}

/// One entered unit of work: identity, timing and attributes. The end
/// timestamp stays zero until the span closes.
pub struct SpanRecord {
    pub span_id: Vec<u8>,
    pub parent_span_id: Vec<u8>,
    pub name: Vec<u8>,
    pub start_time_unix_nano: u64,
    pub end_time_unix_nano: u64,
    pub attributes: Vec<Attribute>,
}

/// The mathematical shape of a span record.
#[verifier::ext_equal]
pub ghost struct SpanModel {
    pub span_id: Seq<u8>,
    pub parent_span_id: Seq<u8>,
    pub name: Seq<u8>,
    pub start_time_unix_nano: u64,
    pub end_time_unix_nano: u64,
    pub attributes: Seq<AttributeModel>,
}

/// The views of a sequence of attributes, in order.
pub open spec fn attrs_model(attrs: Seq<Attribute>) -> Seq<AttributeModel> {
    attrs.map_values(|a: Attribute| a@)
}

impl View for SpanRecord {
    type V = SpanModel;

    open spec fn view(&self) -> SpanModel {
        SpanModel {
            span_id: self.span_id@,
            parent_span_id: self.parent_span_id@,
            name: self.name@,
            start_time_unix_nano: self.start_time_unix_nano,
            end_time_unix_nano: self.end_time_unix_nano,
            attributes: attrs_model(self.attributes@),
        }
    }
}

/// The wire encoding of one attribute value: the tagged union inside the
/// value message, always written even when the payload is a default.
pub open spec fn spec_encode_attr_value(v: AttrValueModel) -> Seq<u8> {
    match v {
        AttrValueModel::Text(s) => spec_len_field(0x0a, s),
        AttrValueModel::Bool(b) => seq![0x10u8, (if b { 1u8 } else { 0u8 })],
        AttrValueModel::Int(n) => seq![0x18u8] + spec_varint(spec_u64_of_i64(n) as nat),
        AttrValueModel::Double(bits) => seq![0x21u8] + spec_fixed64(bits),
    }
}

/// The wire encoding of one attribute: its key, then the value message as a
/// nested length-delimited field.
pub open spec fn spec_encode_attribute(a: AttributeModel) -> Seq<u8> {
    spec_bytes_field(0x0a, a.key) + spec_len_field(0x12, spec_encode_attr_value(a.value))
}

/// The wire encoding of a repeated attribute list: one length-delimited
/// field per attribute, in order.
pub open spec fn spec_encode_attributes(attrs: Seq<AttributeModel>) -> Seq<u8>
    decreases attrs.len(),
{
    if attrs.len() == 0 {
        Seq::empty()
    } else {
        spec_encode_attributes(attrs.drop_last()) + spec_len_field(
            0x4a,
            spec_encode_attribute(attrs.last()),
        )
    }
}

/// The wire encoding of one completed span, fields in tag order, proto3
/// defaults skipped. A root span has an empty parent id, so its parent
/// field is absent from the encoding.
pub open spec fn spec_encode_span(trace_id: Seq<u8>, s: SpanModel) -> Seq<u8> {
    spec_bytes_field(0x0a, trace_id) + spec_bytes_field(0x12, s.span_id) + spec_bytes_field(
        0x22,
        s.parent_span_id,
    ) + spec_bytes_field(0x2a, s.name) + spec_fixed64_field(0x39, s.start_time_unix_nano)
        + spec_fixed64_field(0x41, s.end_time_unix_nano) + spec_encode_attributes(s.attributes)
}

/// Appending an attribute to a span appends that attribute's encoding to
/// the span's encoded attribute list: the encoded record lists attributes
/// in insertion order, each as its own field, so attributes with equal
/// keys are never merged.
pub proof fn lemma_attribute_encoding_preserves_order(
    attrs: Seq<AttributeModel>,
    a: AttributeModel,
)
    ensures
        spec_encode_attributes(attrs.push(a)) == spec_encode_attributes(attrs) + spec_len_field(
            0x4a,
            spec_encode_attribute(a),
        ),
{
    assert(attrs.push(a).drop_last() =~= attrs);
}

/// Appends the wire encoding of `v` to `out`.
fn encode_attr_value_into(out: &mut Vec<u8>, v: &AttrValue)
    ensures
        final(out)@ == old(out)@ + spec_encode_attr_value(v@),
{
    let ghost prev = out@;
    match v {
        AttrValue::Text(s) => {
            push_len_field(out, 0x0a, s);
        },
        AttrValue::Bool(b) => {
            out.push(0x10);
            out.push(if *b { 1 } else { 0 });
            proof {
                assert(out@ =~= prev + spec_encode_attr_value(v@));
            }
        },
        AttrValue::Int(n) => {
            out.push(0x18);
            let bits = i64_to_u64(*n);
            push_varint(out, bits);
            proof {
                assert(out@ =~= prev + spec_encode_attr_value(v@));
            }
        },
        AttrValue::Double(bits) => {
            out.push(0x21);
            push_fixed64(out, *bits);
            proof {
                assert(out@ =~= prev + spec_encode_attr_value(v@));
            }
        },
    }
}

/// Appends the wire encoding of `a` to `out`.
fn encode_attribute_into(out: &mut Vec<u8>, a: &Attribute)
    ensures
        final(out)@ == old(out)@ + spec_encode_attribute(a@),
{
    let ghost prev = out@;
    push_bytes_field(out, 0x0a, &a.key);
    let mut value_bytes: Vec<u8> = Vec::new();
    encode_attr_value_into(&mut value_bytes, &a.value);
    push_len_field(out, 0x12, &value_bytes);
    proof {
        assert(out@ =~= prev + spec_encode_attribute(a@));
    }
}

/// Appends the wire encoding of the completed span `s`, tagged with
/// `trace_id`, to `out`.
pub fn encode_span_into(out: &mut Vec<u8>, trace_id: &Vec<u8>, s: &SpanRecord)
    ensures
        final(out)@ == old(out)@ + spec_encode_span(trace_id@, s@),
{
    push_bytes_field(out, 0x0a, trace_id);
    push_bytes_field(out, 0x12, &s.span_id);
    push_bytes_field(out, 0x22, &s.parent_span_id);
    push_bytes_field(out, 0x2a, &s.name);
    push_fixed64_field(out, 0x39, s.start_time_unix_nano);
    push_fixed64_field(out, 0x41, s.end_time_unix_nano);
    let ghost fields_done = out@;
    let mut i: usize = 0;
    while i < s.attributes.len()
        invariant
            i <= s.attributes@.len(),
            out@ == fields_done + spec_encode_attributes(
                attrs_model(s.attributes@).take(i as int),
            ),
        decreases s.attributes@.len() - i,
    {
        let ghost done = attrs_model(s.attributes@).take(i as int);
        let mut attr_bytes: Vec<u8> = Vec::new();
        encode_attribute_into(&mut attr_bytes, &s.attributes[i]);
        push_len_field(out, 0x4a, &attr_bytes);
        proof {
            let next = attrs_model(s.attributes@).take(i + 1);
            assert(next.drop_last() =~= done);
            assert(next.last() == s.attributes@[i as int]@);
        }
        i = i + 1;
    }
    proof {
        assert(attrs_model(s.attributes@).take(s.attributes@.len() as int) =~= attrs_model(
            s.attributes@,
        ));
        assert(out@ =~= old(out)@ + spec_encode_span(trace_id@, s@));
    }
}

} // verus!
