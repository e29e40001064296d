//! A forward-only, in-memory byte stream.
//!
//! The engine parses from one of these: the whole input as bytes, and a read
//! position that only moves forward. Every read states exactly which bytes it
//! hands out and how far it advances, which is what makes length-bounded
//! skipping safe to reason about.

use vstd::prelude::*;

verus! {

/// The value of a 4 byte big-endian unsigned integer.
pub open spec fn be32(b: Seq<u8>) -> nat
    recommends
        b.len() == 4,
{
    (b[0] * 0x1000000 + b[1] * 0x10000 + b[2] * 0x100 + b[3]) as nat
}

/// The 4 byte big-endian encoding of an integer below 2^32.
pub open spec fn be32_bytes(v: nat) -> Seq<u8> {
    seq![
        ((v / 0x1000000) % 0x100) as u8,
        ((v / 0x10000) % 0x100) as u8,
        ((v / 0x100) % 0x100) as u8,
        (v % 0x100) as u8,
    ]
}

/// Encoding then decoding a 32 bit value gives the value back.
pub proof fn lemma_be32_round_trip(v: nat)
    requires
        v < 0x100000000,
    ensures
        be32_bytes(v).len() == 4,
        be32(be32_bytes(v)) == v,
{
    assert(be32(be32_bytes(v)) == v) by (nonlinear_arith)
        requires v < 0x100000000;
}

/// The length of a vector always fits the machine's word.
proof fn lemma_len_fits(v: &Vec<u8>)
    ensures
        v@.len() <= usize::MAX,
{
    vstd::std_specs::vec::axiom_spec_len(v);
}

/// A forward-only byte stream: the input bytes and the next read position.
pub struct ByteStream {
    /// The bytes of the stream.
    pub data: Vec<u8>,
    /// The position of the next byte to read.
    pub pos: usize,
}

impl ByteStream {
    /// The position never passes the end of the data.
    pub open spec fn wf(self) -> bool {
        self.pos <= self.data@.len()
    }

    /// Wraps a byte vector as a stream positioned at its start.
    pub fn new(data: Vec<u8>) -> (r: ByteStream)
        ensures
            r.wf(),
            r.data@ == data@,
            r.pos == 0,
    {
        ByteStream { data, pos: 0 }
    }

    /// Returns how many bytes are left to read.
    pub fn remaining(&self) -> (r: usize)
        requires
            self.wf(),
        ensures
            r == self.data@.len() - self.pos,
    {
        self.data.len() - self.pos
    }

    /// Discards exactly `n` bytes.
    pub fn skip(&mut self, n: usize)
        requires
            old(self).wf(),
            old(self).pos + n <= old(self).data@.len(),
        ensures
            final(self).wf(),
            final(self).data@ == old(self).data@,
            final(self).pos == old(self).pos + n,
    {
        proof {
            lemma_len_fits(&self.data);
        }
        self.pos = self.pos + n;
    }

    /// Reads exactly `n` bytes into a fresh vector.
    pub fn read_bytes(&mut self, n: usize) -> (r: Vec<u8>)
        requires
            old(self).wf(),
            old(self).pos + n <= old(self).data@.len(),
        ensures
            final(self).wf(),
            final(self).data@ == old(self).data@,
            final(self).pos == old(self).pos + n,
            r@ == old(self).data@.subrange(old(self).pos as int, old(self).pos + n),
    {
        proof {
            lemma_len_fits(&self.data);
        }
        let mut r: Vec<u8> = Vec::new();
        let mut i: usize = 0;
        while i < n
            invariant
                self.wf(),
                self.data@ == old(self).data@,
                self.pos == old(self).pos,
                old(self).pos + n <= self.data@.len(),
                i <= n,
                r@ == self.data@.subrange(old(self).pos as int, old(self).pos + i),
            decreases n - i,
        {
            proof {
                lemma_len_fits(&self.data);
            }
            r.push(self.data[self.pos + i]);
            proof {
                assert(r@ =~= self.data@.subrange(old(self).pos as int, old(self).pos + i + 1));
            }
            i = i + 1;
        }
        self.pos = self.pos + n;
        r
    }

    /// Reads a 4 byte big-endian unsigned integer.
    pub fn read_u32_be(&mut self) -> (r: u32)
        requires
            old(self).wf(),
            old(self).pos + 4 <= old(self).data@.len(),
        ensures
            final(self).wf(),
            final(self).data@ == old(self).data@,
            final(self).pos == old(self).pos + 4,
            r == be32(old(self).data@.subrange(old(self).pos as int, old(self).pos + 4)),
    {
        proof {
            lemma_len_fits(&self.data);
        }
        let b0 = self.data[self.pos];
        let b1 = self.data[self.pos + 1];
        let b2 = self.data[self.pos + 2];
        let b3 = self.data[self.pos + 3];
        self.pos = self.pos + 4;
        let r = (b0 as u32) * 0x1000000 + (b1 as u32) * 0x10000 + (b2 as u32) * 0x100 + (b3 as u32);
        proof {
            let s = old(self).data@.subrange(old(self).pos as int, old(self).pos + 4);
            assert(s[0] == b0 && s[1] == b1 && s[2] == b2 && s[3] == b3);
        }
        r
    }

    /// Reads a 4 byte atom head identifier.
    pub fn read_head_bytes(&mut self) -> (r: [u8; 4])
        requires
            old(self).wf(),
            old(self).pos + 4 <= old(self).data@.len(),
        ensures
            final(self).wf(),
            final(self).data@ == old(self).data@,
            final(self).pos == old(self).pos + 4,
            r@ == old(self).data@.subrange(old(self).pos as int, old(self).pos + 4),
    {
        proof {
            lemma_len_fits(&self.data);
        }
        let r = [
            self.data[self.pos],
            self.data[self.pos + 1],
            self.data[self.pos + 2],
            self.data[self.pos + 3],
        ];
        self.pos = self.pos + 4;
        proof {
            assert(r@ =~= old(self).data@.subrange(old(self).pos as int, old(self).pos + 4));
        }
        r
    }
}

} // verus!
