//! Truncated diagnostic messages for caller-owned error buffers.
//!
//! Every fallible boundary call accepts a caller-owned buffer for a
//! human-readable message. On failure the message is copied into it,
//! truncated to leave room for one terminator byte; a zero-length buffer
//! receives nothing.

use vstd::prelude::*;

verus! {

/// How many message bytes a buffer of length `cap` receives: all of them,
/// or as many as leave room for the terminator.
pub open spec fn spec_written_len(cap: nat, msg_len: nat) -> nat
    recommends
        cap > 0,
{
    if msg_len < cap - 1 {
        msg_len
    } else {
        (cap - 1) as nat
    }
}

/// Writes at most `err_buf.len() - 1` bytes of `err_msg` into the front of
/// `err_buf`, followed by one zero terminator; writes nothing into a
/// zero-length buffer. Bytes past the terminator keep their old values,
/// and the buffer's length never changes.
pub fn write_error_buffer(err_buf: &mut Vec<u8>, err_msg: &[u8])
    ensures
        final(err_buf)@.len() == old(err_buf)@.len(),
        old(err_buf)@.len() == 0 ==> final(err_buf)@ == old(err_buf)@,
        old(err_buf)@.len() > 0 ==> {
            let n = spec_written_len(old(err_buf)@.len(), err_msg@.len());
            final(err_buf)@ == err_msg@.take(n as int) + seq![0u8] + old(err_buf)@.skip(n as int + 1)
        },
    {
        if err_buf.len() == 0 {
            return ;
        }
        let n: usize = if err_msg.len() < err_buf.len() - 1 {
            err_msg.len()
        } else {
            err_buf.len() - 1
        };
        let mut i: usize = 0;
        while i < n
            invariant
                i <= n,
                n < err_buf@.len(),
                n <= err_msg@.len(),
                err_buf@.len() == old(err_buf)@.len(),
                err_buf@ == err_msg@.take(i as int) + old(err_buf)@.skip(i as int),
            decreases n - i,
        {
            err_buf[i] = err_msg[i];
            proof {
                assert(err_buf@ =~= err_msg@.take(i + 1) + old(err_buf)@.skip(i + 1));
            }
            i = i + 1;
        }
        err_buf[n] = 0;
        proof {
            assert(err_buf@ =~= err_msg@.take(n as int) + seq![0u8] + old(err_buf)@.skip(n + 1));
        }
    }

} // verus!
