use vstd::prelude::*;

verus! {

/// The nibbles of a byte string: for each byte its high four bits, then its
/// low four bits.
pub open spec fn nibbles_of(bytes: Seq<u8>) -> Seq<u8> {
    Seq::new(
        2 * bytes.len(),
        |i: int|
            if i % 2 == 0 {
                (bytes[i / 2] / 16) as u8
            } else {
                (bytes[i / 2] % 16) as u8
            },
    )
}

proof fn lemma_nibbles_of_front(bytes: Seq<u8>)
    requires
        bytes.len() > 0,
    ensures
        nibbles_of(bytes) =~= seq![(bytes[0] / 16) as u8, (bytes[0] % 16) as u8] + nibbles_of(
            bytes.subrange(1, bytes.len() as int),
        ),
{
    let rest = bytes.subrange(1, bytes.len() as int);
    let lhs = nibbles_of(bytes);
    let rhs = seq![(bytes[0] / 16) as u8, (bytes[0] % 16) as u8] + nibbles_of(rest);
    assert forall|i: int| 2 <= i < lhs.len() implies lhs[i] == rhs[i] by {
        assert((i - 2) / 2 == i / 2 - 1);
        assert((i - 2) % 2 == i % 2);
    }
}

/// A producer of the nibbles of a borrowed byte string, one at a time.
pub struct Nibbler<'a> {
    byte: Option<u8>,
    bytes: &'a [u8],
    pos: usize,
}

impl<'a> Nibbler<'a> {
    /// The held low nibble, if any, is below 16 and the cursor is within the
    /// bytes.
    pub closed spec fn wf(&self) -> bool {
        &&& self.pos <= self.bytes@.len()
        &&& match self.byte {
            Some(v) => v < 16,
            None => true,
        }
    }

    /// The nibbles still to come.
    pub closed spec fn remaining(&self) -> Seq<u8> {
        let pending = match self.byte {
            Some(v) => seq![v],
            None => Seq::empty(),
        };
        pending + nibbles_of(self.bytes@.subrange(self.pos as int, self.bytes@.len() as int))
    }

    /// A producer of all the nibbles of `bytes`.
    pub fn new(bytes: &'a [u8]) -> (r: Nibbler<'a>)
        ensures
            r.wf(),
            r.remaining() == nibbles_of(bytes@),
    {
        let r = Nibbler { bytes: bytes, byte: None, pos: 0 };
        assert(r.remaining() =~= nibbles_of(bytes@)) by {
            assert(bytes@.subrange(0, bytes@.len() as int) =~= bytes@);
        }
        r
    }

    /// The next nibble, or `None` once all have been produced.
    pub fn next(&mut self) -> (r: Option<u8>)
        requires
            old(self).wf(),
        ensures
            final(self).wf(),
            old(self).remaining().len() == 0 ==> r is None && final(self).remaining()
                == old(self).remaining(),
            old(self).remaining().len() > 0 ==> r == Some(old(self).remaining()[0])
                && final(self).remaining() == old(self).remaining().drop_first(),
    {
        match self.byte {
            Some(value) => {
                self.byte = None;
                assert(self.remaining() =~= old(self).remaining().drop_first());
                Some(value)
            },
            None => {
                if self.pos < self.bytes.len() {
                    let value = self.bytes[self.pos];
                    let hi = value & 0xf0;
                    let lo = value & 0x0f;
                    assert(hi >> 4 == value / 16 && lo == value % 16) by (bit_vector)
                        requires
                            hi == value & 0xf0,
                            lo == value & 0x0f,
                    ;
                    proof {
                        let rest = self.bytes@.subrange(self.pos as int, self.bytes@.len() as int);
                        lemma_nibbles_of_front(rest);
                        assert(rest.subrange(1, rest.len() as int) =~= self.bytes@.subrange(
                            self.pos + 1,
                            self.bytes@.len() as int,
                        ));
                    }
                    self.byte = Some(lo);
                    self.pos = self.pos + 1;
                    assert(self.remaining() =~= old(self).remaining().drop_first());
                    Some(hi >> 4)
                } else {
                    assert(old(self).remaining() =~= Seq::empty());
                    None
                }
            },
        }
    }
}

} // verus!
