//! `<key>:<value>` header transformation rules.
//!
//! A rule is written as a single string holding a name and a value
//! separated by the first colon; both sides must be non-empty. The colon is
//! an ASCII byte, so splitting a string at it always falls on a character
//! boundary.

use vstd::prelude::*;
use vstd::string::StringSliceAdditionalSpecFns;
use vstd::utf8::encode_utf8;
use vstd::utf8::encode_utf8_valid_utf8;
use vstd::utf8::is_char_boundary;
use vstd::utf8::is_char_boundary_iff_not_is_continuation_byte;
use vstd::utf8::valid_utf8;

verus! {

/// The error for an input that does not split into a non-empty name and a
/// non-empty value; it carries the offending input.
#[derive(Debug, Clone, PartialEq, Eq)]
pub struct InvalidKeyValue(pub String);

/// One header rule: a name and a value.
#[derive(Debug, Clone, PartialEq, Eq)]
pub struct KeyValue(pub String, pub String);

/// Whether `i` is the position of the first colon byte in `s`.
pub open spec fn spec_first_colon(s: Seq<u8>, i: int) -> bool {
    &&& 0 <= i < s.len()
    &&& s[i] == 0x3au8
    &&& forall|j: int| 0 <= j < i ==> s[j] != 0x3au8
}

/// Whether `s` splits at its first colon into a non-empty name and a
/// non-empty value.
pub open spec fn spec_splittable(s: Seq<u8>) -> bool {
    exists|i: int| spec_first_colon(s, i) && 0 < i < s.len() - 1
}

/// Splits `input` at its first colon into the name before it and the value
/// after it; both must be non-empty, else the whole input is returned
/// inside the error.
pub fn split_str<'a>(input: &'a str) -> (r: Result<(&'a str, &'a str), InvalidKeyValue>)
    ensures
        match r {
            Ok(parts) => exists|i: int|
                {
                    &&& #[trigger] spec_first_colon(input.spec_bytes(), i)
                    &&& 0 < i < input.spec_bytes().len() - 1
                    &&& parts.0.spec_bytes() == input.spec_bytes().take(i)
                    &&& parts.1.spec_bytes() == input.spec_bytes().skip(i + 1)
                },
            Err(e) => {
                &&& !spec_splittable(input.spec_bytes())
                &&& e.0@ == input@
            },
        },
        r is Ok <==> spec_splittable(input.spec_bytes()),
{
    proof {
        encode_utf8_valid_utf8(input@);
    }
    let bytes = input.as_bytes();
    let mut i: usize = 0;
    while i < bytes.len()
        invariant
            i <= bytes@.len(),
            bytes@ == input.spec_bytes(),
            valid_utf8(input.spec_bytes()),
            forall|j: int| 0 <= j < i ==> bytes@[j] != 0x3au8,
        decreases bytes@.len() - i,
    {
        if bytes[i] == 0x3a {
            if i == 0 || i == bytes.len() - 1 {
                proof {
                    assert(spec_first_colon(input.spec_bytes(), i as int));
                    assert(forall|k: int|
                        spec_first_colon(input.spec_bytes(), k) ==> k == i as int);
                }
                return Err(InvalidKeyValue(input.to_owned()));
            }
            proof {
                is_char_boundary_iff_not_is_continuation_byte(input.spec_bytes(), i as int);
            }
            let (name, rest) = input.split_at(i);
            proof {
                encode_utf8_valid_utf8(rest@);
                assert(valid_utf8(rest.spec_bytes()));
                assert(rest.spec_bytes()[0] == 0x3au8);
                assert(rest.spec_bytes().len() >= 2);
                assert(is_char_boundary(rest.spec_bytes(), 1)) by {
                    reveal_with_fuel(is_char_boundary, 2);
                }
            }
            let (_colon, value) = rest.split_at(1);
            proof {
                assert(spec_first_colon(input.spec_bytes(), i as int));
                assert(name.spec_bytes() =~= input.spec_bytes().take(i as int));
                assert(value.spec_bytes() =~= input.spec_bytes().skip(i + 1));
            }
            return Ok((name, value));
        }
        i = i + 1;
    }
    proof {
        assert(forall|k: int| !spec_first_colon(input.spec_bytes(), k));
    }
    Err(InvalidKeyValue(input.to_owned()))
}

impl KeyValue {
    /// Parses a `<key>:<value>` rule: the name before the first colon and
    /// the value after it, both non-empty, else the whole input inside the
    /// error.
    pub fn try_from(value: &str) -> (r: Result<KeyValue, InvalidKeyValue>)
        ensures
            match r {
                Ok(kv) => exists|i: int|
                    {
                        &&& #[trigger] spec_first_colon(value.spec_bytes(), i)
                        &&& 0 < i < value.spec_bytes().len() - 1
                        &&& encode_utf8(kv.0@) == value.spec_bytes().take(i)
                        &&& encode_utf8(kv.1@) == value.spec_bytes().skip(i + 1)
                    },
                Err(e) => {
                    &&& !spec_splittable(value.spec_bytes())
                    &&& e.0@ == value@
                },
            },
            r is Ok <==> spec_splittable(value.spec_bytes()),
    {
        match split_str(value) {
            Ok(parts) => Ok(KeyValue(parts.0.to_owned(), parts.1.to_owned())),
            Err(e) => Err(e),
        }
    }

    /// Builds a rule directly from its two parts.
    pub fn new(name: &str, value: &str) -> (r: KeyValue)
        ensures
            r.0@ == name@,
            r.1@ == value@,
    {
        KeyValue(name.to_owned(), value.to_owned())
    }
}

} // verus!
