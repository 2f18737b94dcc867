//! End-of-stream framing on receive.
//!
//! Received bytes are accumulated across reads until the configured
//! delimiter byte appears somewhere in the accumulated buffer; the whole
//! accumulated buffer, delimiter included, is then one frame.  A
//! zero-length read means the peer closed, and any partial data
//! accumulated by then is discarded by this contract.  The delimiter is a
//! single byte, a deliberate simplification for line-oriented exchanges,
//! not a general protocol framing.

use vstd::prelude::*;

use crate::ports::contains_byte;
use crate::ports::find_byte;
use crate::ports::first_index;
use crate::ports::lemma_first_index;

verus! {

/// The default framing delimiter: a newline byte.
pub const DEFAULT_DELIMITER: u8 = 10;

/// The outcome of folding one read into the accumulated buffer.
#[derive(Debug, Clone, PartialEq, Eq)]
pub enum ReceiveOutcome {
    /// A delimiter arrived: the whole accumulated buffer is one frame.
    Frame(Vec<u8>),
    /// No delimiter yet: keep the accumulated buffer and read again.
    NeedMore(Vec<u8>),
    /// The read was empty: the peer closed the connection.
    PeerClosed,
}

/// Appends a whole slice to a vector.
fn append_slice(dst: &mut Vec<u8>, src: &[u8])
    ensures
        final(dst)@ == old(dst)@ + src@,
{
    let n = src.len();
    let mut i: usize = 0;
    proof {
        assert(dst@ + src@.take(0) =~= dst@);
    }
    while i < n
        invariant
            n == src@.len(),
            0 <= i <= n,
            dst@ == old(dst)@ + src@.take(i as int),
        decreases n - i,
    {
        dst.push(src[i]);
        i = i + 1;
        proof {
            assert(old(dst)@ + src@.take(i as int) =~= (old(dst)@ + src@.take(i as int - 1)).push(
                src@[i as int - 1],
            ));
        }
    }
    proof {
        assert(src@.take(n as int) =~= src@);
    }
}

/// Folds one network read into the accumulated buffer.
///
/// An empty read is the peer closing: the result is `PeerClosed` and never
/// an empty frame.  Otherwise the chunk is appended; if the delimiter now
/// occurs anywhere in the accumulated bytes, the whole accumulation,
/// delimiter included, is returned as a frame, and else it is handed back
/// to accumulate further.
pub fn receive_step(accumulated: Vec<u8>, chunk: &[u8], delimiter: u8) -> (r: ReceiveOutcome)
    ensures
        chunk@.len() == 0 ==> r is PeerClosed,
        chunk@.len() > 0 && contains_byte(accumulated@ + chunk@, delimiter) ==> (r matches
            ReceiveOutcome::Frame(f) && f@ == accumulated@ + chunk@),
        chunk@.len() > 0 && !contains_byte(accumulated@ + chunk@, delimiter) ==> (r matches
            ReceiveOutcome::NeedMore(p) && p@ == accumulated@ + chunk@),
{
    if chunk.len() == 0 {
        return ReceiveOutcome::PeerClosed;
    }
    let mut total = accumulated;
    append_slice(&mut total, chunk);
    let pos = find_byte(total.as_slice(), delimiter);
    proof {
        lemma_first_index(total@, delimiter);
    }
    if pos < total.len() {
        assert(total@[first_index(total@, delimiter)] == delimiter);
        assert(contains_byte(total@, delimiter));
        ReceiveOutcome::Frame(total)
    } else {
        assert(!contains_byte(total@, delimiter));
        ReceiveOutcome::NeedMore(total)
    }
}

} // verus!
