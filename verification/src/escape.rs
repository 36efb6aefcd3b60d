//! Backslash escaping for values substituted into JSON string positions.
//!
//! Doubling every backslash reproduces the escaping behaviour that the
//! declarative body-rewriting rules expect; all other bytes pass through
//! unchanged. Backslash is an ASCII byte, so working on the UTF-8 bytes of
//! the input never splits a multi-byte character.

use vstd::prelude::*;
use vstd::string::StringSliceAdditionalSpecFns;

verus! {

/// `s` with every backslash doubled and every other byte kept as is.
pub open spec fn spec_escaped(s: Seq<u8>) -> Seq<u8>
    decreases s.len(),
{
    if s.len() == 0 {
        Seq::empty()
    } else {
        spec_escaped(s.drop_last()) + (if s.last() == 0x5c {
            seq![0x5cu8, 0x5cu8]
        } else {
            seq![s.last()]
        })
    }
}

/// Returns the UTF-8 bytes of `s` with every backslash doubled.
pub fn escape(s: &str) -> (r: Vec<u8>)
    ensures
        r@ == spec_escaped(s.spec_bytes()),
{
    let bytes = s.as_bytes();
    let mut r: Vec<u8> = Vec::new();
    let mut i: usize = 0;
    while i < bytes.len()
        invariant
            i <= bytes@.len(),
            r@ == spec_escaped(bytes@.take(i as int)),
        decreases bytes@.len() - i,
    {
        let ghost done = bytes@.take(i as int);
        let b = bytes[i];
        if b == 0x5c {
            r.push(0x5c);
            r.push(0x5c);
        } else {
            r.push(b);
        }
        proof {
            assert(bytes@.take(i + 1).drop_last() =~= done);
            assert(bytes@.take(i + 1).last() == b);
        }
        i = i + 1;
    }
    proof {
        assert(bytes@.take(bytes@.len() as int) =~= bytes@);
    }
    r
}

} // verus!
