//! Reading a byte buffer as characters, one byte to one character: what the
//! digits of a line number need on their way to the screen.

use vstd::prelude::*;

verus! {

/// Each byte of `bytes` as the character with that code.
pub open spec fn byte_chars(bytes: Seq<u8>) -> Seq<char> {
    Seq::new(bytes.len(), |i: int| bytes[i] as char)
}

/// Hands out the bytes of a buffer as characters, from the first to the
/// last.
pub struct CharBytesIterator<'a> {
    src: &'a [u8],
    current: usize,
}

impl<'a> CharBytesIterator<'a> {
    /// The position lies inside the buffer or at its end.
    pub closed spec fn wf(&self) -> bool {
        self.current <= self.src@.len()
    }

    /// The characters still to come.
    pub closed spec fn remaining(&self) -> Seq<char> {
        byte_chars(self.src@.skip(self.current as int))
    }

    /// An iterator over all of `buff`.
    pub fn new(buff: &'a [u8]) -> (iter: CharBytesIterator<'a>)
        ensures
            iter.wf(),
            iter.remaining() == byte_chars(buff@),
    {
        assert(buff@.skip(0) =~= buff@);
        CharBytesIterator { src: buff, current: 0 }
    }

    /// The next byte as a character, or `None` behind the last one.
    pub fn next(&mut self) -> (c: Option<char>)
        requires
            old(self).wf(),
        ensures
            final(self).wf(),
            old(self).remaining().len() == 0 ==> c is None
                && final(self).remaining() == old(self).remaining(),
            old(self).remaining().len() > 0 ==> c == Some(old(self).remaining()[0])
                && final(self).remaining() == old(self).remaining().drop_first(),
    {
        if self.current < self.src.len() {
            let s = Some(self.src[self.current] as char);
            self.current += 1;
            assert(final(self).remaining() =~= old(self).remaining().drop_first());
            return s;
        } else {
            return None;
        }
    }
}

} // verus!
