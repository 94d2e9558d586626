//! Reassembly of whole protocol messages from an arbitrarily chunked
//! byte stream.
//!
//! A transport delivers bytes in whatever pieces the network produced.
//! [`RecvBuffer`] accumulates them and hands back complete messages, so
//! message recovery does not depend on how the stream was cut up across
//! reads.

use vstd::prelude::*;
use vstd::slice::*;
use vstd::assert_seqs_equal;

use crate::protocol::DecodeError;
use crate::protocol::Message;
use crate::protocol::MessageView;
use crate::protocol::decode;
use crate::protocol::lemma_decode_consumed_bounds;
use crate::protocol::spec_decode;

verus! {

/// Bytes received from the peer and not yet decoded.
pub struct RecvBuffer {
    buf: Vec<u8>,
}

impl View for RecvBuffer {
    type V = Seq<u8>;

    closed spec fn view(&self) -> Seq<u8> {
        self.buf@
    }
}

impl RecvBuffer {
    pub fn new() -> (r: Self)
        ensures
            r@ == Seq::<u8>::empty(),
    {
        RecvBuffer { buf: Vec::new() }
    }

    /// Number of bytes held and not yet decoded.
    pub fn pending_len(&self) -> (r: usize)
        ensures
            r == self@.len(),
    {
        self.buf.len()
    }

    /// Append freshly received bytes at the tail.
    pub fn feed(&mut self, data: &[u8])
        ensures
            final(self)@ == old(self)@ + data@,
    {
        let mut i: usize = 0;
        while i < data.len()
            invariant
                i <= data.len(),
                self.buf@ == old(self).buf@ + data@.take(i as int),
            decreases data.len() - i,
        {
            self.buf.push(*slice_index_get(data, i));
            proof {
                assert_seqs_equal!(old(self).buf@ + data@.take(i as int) + seq![data@[i as int]]
                    == old(self).buf@ + data@.take(i as int + 1));
            }
            i += 1;
        }
        proof {
            assert(data@.take(data@.len() as int) == data@);
        }
    }

    /// Take one whole message off the front of the buffer, if the bytes
    /// for one have arrived.  `Ok(None)` means more bytes are needed and
    /// the buffer is unchanged; `Err(Malformed)` means the stream is
    /// corrupt, which no further bytes can repair.
    pub fn poll_message(&mut self) -> (r: Result<Option<Message>, DecodeError>)
        ensures
            match r {
                Ok(opt) => match opt {
                    Some(m) => spec_decode(old(self)@) matches Ok(p) && p.0 == m@ && final(self)@
                        == old(self)@.skip(p.1),
                    None => spec_decode(old(self)@) == Err::<(MessageView, int), DecodeError>(
                        DecodeError::Truncated,
                    ) && final(self)@ == old(self)@,
                },
                Err(e) => e == DecodeError::Malformed && spec_decode(old(self)@) == Err::<
                    (MessageView, int),
                    DecodeError,
                >(e) && final(self)@ == old(self)@,
            },
    {
        proof {
            lemma_decode_consumed_bounds(self.buf@);
        }
        match decode(self.buf.as_slice()) {
            Ok((m, n)) => {
                let remainder = slice_to_vec(slice_subrange(self.buf.as_slice(), n, self.buf.len()));
                proof {
                    assert_seqs_equal!(remainder@ == self.buf@.skip(n as int));
                }
                self.buf = remainder;
                Ok(Some(m))
            },
            Err(DecodeError::Truncated) => Ok(None),
            Err(DecodeError::Malformed) => Err(DecodeError::Malformed),
        }
    }
}

} // verus!
