//! Protobuf wire-format primitives: base-128 varints, little-endian fixed64
//! values, and length-delimited fields.

use vstd::prelude::*;

verus! {

/// The base-128 varint encoding of `n`: seven payload bits per byte, least
/// significant group first, high bit set on every byte but the last.
pub open spec fn spec_varint(n: nat) -> Seq<u8>
    decreases n,
{
    if n < 0x80 {
        seq![n as u8]
    } else {
        seq![((n % 0x80) + 0x80) as u8] + spec_varint(n / 0x80)
    }
}

/// Appends the varint encoding of `n` to `out`.
pub fn push_varint(out: &mut Vec<u8>, n: u64)
    ensures
        final(out)@ == old(out)@ + spec_varint(n as nat),
{
    let mut v = n;
    while v >= 0x80
        invariant
            out@ + spec_varint(v as nat) == old(out)@ + spec_varint(n as nat),
        decreases v,
    {
        let b: u8 = ((v % 0x80) + 0x80) as u8;
        let ghost prev = out@;
        out.push(b);
        proof {
            assert(prev + spec_varint(v as nat) == prev + (seq![b] + spec_varint(
                (v / 0x80) as nat,
            )));
            assert(out@ + spec_varint((v / 0x80) as nat) =~= prev + (seq![b] + spec_varint(
                (v / 0x80) as nat,
            )));
        }
        v = v / 0x80;
    }
    let ghost prev = out@;
    out.push(v as u8);
    proof {
        assert(out@ =~= prev + spec_varint(v as nat));
    }
}

/// The little-endian fixed-width encoding of `n` in eight bytes.
pub open spec fn spec_fixed64(n: u64) -> Seq<u8> {
    seq![
        (n & 0xff) as u8,
        ((n >> 8) & 0xff) as u8,
        ((n >> 16) & 0xff) as u8,
        ((n >> 24) & 0xff) as u8,
        ((n >> 32) & 0xff) as u8,
        ((n >> 40) & 0xff) as u8,
        ((n >> 48) & 0xff) as u8,
        ((n >> 56) & 0xff) as u8,
    ]
}

proof fn lemma_low_byte_fits(n: u64)
    ensures
        n & 0xff < 256,
{
    assert(n & 0xff < 256) by (bit_vector);
}

/// Appends the eight little-endian bytes of `n` to `out`.
pub fn push_fixed64(out: &mut Vec<u8>, n: u64)
    ensures
        final(out)@ == old(out)@ + spec_fixed64(n),
{
    proof {
        lemma_low_byte_fits(n);
        lemma_low_byte_fits(n >> 8);
        lemma_low_byte_fits(n >> 16);
        lemma_low_byte_fits(n >> 24);
        lemma_low_byte_fits(n >> 32);
        lemma_low_byte_fits(n >> 40);
        lemma_low_byte_fits(n >> 48);
        lemma_low_byte_fits(n >> 56);
    }
    let ghost prev = out@;
    out.push((n & 0xff) as u8);
    out.push(((n >> 8) & 0xff) as u8);
    out.push(((n >> 16) & 0xff) as u8);
    out.push(((n >> 24) & 0xff) as u8);
    out.push(((n >> 32) & 0xff) as u8);
    out.push(((n >> 40) & 0xff) as u8);
    out.push(((n >> 48) & 0xff) as u8);
    out.push(((n >> 56) & 0xff) as u8);
    proof {
        assert(out@ =~= prev + spec_fixed64(n));
    }
}

/// Appends a copy of `src` to `out`.
pub fn push_bytes(out: &mut Vec<u8>, src: &[u8])
    ensures
        final(out)@ == old(out)@ + src@,
{
    let mut i: usize = 0;
    while i < src.len()
        invariant
            i <= src@.len(),
            out@ == old(out)@ + src@.take(i as int),
        decreases src@.len() - i,
    {
        let ghost prev = out@;
        out.push(src[i]);
        proof {
            assert(out@ =~= old(out)@ + src@.take(i + 1));
        }
        i = i + 1;
    }
    proof {
        assert(src@.take(src@.len() as int) =~= src@);
    }
}

/// A length-delimited protobuf field: one tag byte, the payload length as a
/// varint, then the payload itself.
pub open spec fn spec_len_field(tag: u8, payload: Seq<u8>) -> Seq<u8> {
    seq![tag] + spec_varint(payload.len()) + payload
}

/// Appends the length-delimited field `tag` carrying `payload` to `out`.
pub fn push_len_field(out: &mut Vec<u8>, tag: u8, payload: &Vec<u8>)
    ensures
        final(out)@ == old(out)@ + spec_len_field(tag, payload@),
{
    let ghost prev = out@;
    out.push(tag);
    push_varint(out, payload.len() as u64);
    push_bytes(out, payload.as_slice());
    proof {
        assert(out@ =~= prev + spec_len_field(tag, payload@));
    }
}

/// A protobuf `bytes` or `string` field outside a oneof: skipped entirely
/// when the payload is empty, since an empty value is the proto3 default.
pub open spec fn spec_bytes_field(tag: u8, payload: Seq<u8>) -> Seq<u8> {
    if payload.len() == 0 {
        Seq::empty()
    } else {
        spec_len_field(tag, payload)
    }
}

/// Appends the `bytes` field `tag` carrying `payload` to `out`, appending
/// nothing when `payload` is empty.
pub fn push_bytes_field(out: &mut Vec<u8>, tag: u8, payload: &Vec<u8>)
    ensures
        final(out)@ == old(out)@ + spec_bytes_field(tag, payload@),
{
    if payload.len() > 0 {
        push_len_field(out, tag, payload);
    } else {
        proof {
            assert(out@ =~= out@ + spec_bytes_field(tag, payload@));
        }
    }
}

/// A protobuf `fixed64` field outside a oneof: skipped entirely when the
/// value is zero, since zero is the proto3 default.
pub open spec fn spec_fixed64_field(tag: u8, n: u64) -> Seq<u8> {
    if n == 0 {
        Seq::empty()
    } else {
        seq![tag] + spec_fixed64(n)
    }
}

/// Appends the `fixed64` field `tag` carrying `n` to `out`, appending
/// nothing when `n` is zero.
pub fn push_fixed64_field(out: &mut Vec<u8>, tag: u8, n: u64)
    ensures
        final(out)@ == old(out)@ + spec_fixed64_field(tag, n),
{
    let ghost prev = out@;
    if n != 0 {
        out.push(tag);
        push_fixed64(out, n);
        proof {
            assert(out@ =~= prev + spec_fixed64_field(tag, n));
        }
    } else {
        proof {
            assert(out@ =~= prev + spec_fixed64_field(tag, n));
        }
    }
}

/// The unsigned 64-bit two's-complement reading of `v`, as protobuf uses
/// for `int64` values on the wire.
pub open spec fn spec_u64_of_i64(v: i64) -> u64 {
    if v >= 0 {
        v as u64
    } else {
        (v + 0x1_0000_0000_0000_0000) as u64
    }
}

/// Reinterprets `v` as its unsigned two's-complement value.
pub fn i64_to_u64(v: i64) -> (r: u64)
    ensures
        r == spec_u64_of_i64(v),
{
    if v >= 0 {
        v as u64
    } else {
        let w: i128 = (v as i128) + 0x1_0000_0000_0000_0000i128;
        w as u64
    }
}

} // verus!
