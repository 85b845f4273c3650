//! A byte buffer that maps byte positions to line numbers, scanning forward
//! only as far as needed.

use vstd::prelude::*;

verus! {

/// The number of newline bytes in `s`.
pub open spec fn newlines(s: Seq<u8>) -> nat
    decreases s.len(),
{
    if s.len() == 0 {
        0
    } else {
        newlines(s.drop_last()) + if s.last() == 10u8 {
            1nat
        } else {
            0nat
        }
    }
}

proof fn lemma_newlines_bounded(s: Seq<u8>)
    ensures
        newlines(s) <= s.len(),
    decreases s.len(),
{
    if s.len() > 0 {
        lemma_newlines_bounded(s.drop_last());
    }
}

/// A buffer with a forward-only cursor; the current line is one more than
/// the number of newlines before the cursor.
#[derive(Clone)]
pub struct LineTrackingBuffer {
    data: Vec<u8>,
    current_line: usize,
    current_position: usize,
}

impl LineTrackingBuffer {
    pub closed spec fn bytes(&self) -> Seq<u8> {
        self.data@
    }

    pub closed spec fn position(&self) -> nat {
        self.current_position as nat
    }

    pub closed spec fn line(&self) -> nat {
        self.current_line as nat
    }

    /// The cursor is inside the buffer and the line agrees with the newlines before it.
    pub closed spec fn wf(&self) -> bool {
        &&& self.current_position <= self.data@.len()
        &&& self.data@.len() < usize::MAX
        &&& self.current_line == 1 + newlines(self.data@.subrange(0, self.current_position as int))
    }

    /// A buffer over `data` with the cursor at its start, on line 1.
    pub fn new(data: Vec<u8>) -> (r: LineTrackingBuffer)
        requires
            data@.len() < usize::MAX,
        ensures
            r.wf(),
            r.bytes() == data@,
            r.position() == 0,
            r.line() == 1,
    {
        let r = LineTrackingBuffer { data, current_line: 1, current_position: 0 };
        assert(r.data@.subrange(0, 0) =~= Seq::<u8>::empty());
        r
    }

    /// The line on which byte `byte_position` lies: the cursor moves forward
    /// to that position (or to the end of the buffer) if it is not past it
    /// already; it never moves back.
    pub fn get_line_number(&mut self, byte_position: u64) -> (r: usize)
        requires
            old(self).wf(),
        ensures
            final(self).wf(),
            final(self).bytes() == old(self).bytes(),
            final(self).position() == if old(self).position() >= byte_position {
                old(self).position() as int
            } else if byte_position <= old(self).bytes().len() {
                byte_position as int
            } else {
                old(self).bytes().len() as int
            },
            r == final(self).line(),
            r == 1 + newlines(old(self).bytes().subrange(0, final(self).position() as int)),
    {
        let target: usize = if (byte_position as u128) <= (usize::MAX as u128) {
            byte_position as usize
        } else {
            self.data.len()
        };
        let ghost start = self.current_position;
        let ghost d = self.data@;
        while self.current_position < target && self.current_position < self.data.len()
            invariant
                self.wf(),
                self.data@ == d,
                target as int == if byte_position as int <= usize::MAX as int {
                    byte_position as int
                } else {
                    d.len() as int
                },
                start <= self.current_position,
                self.current_position <= target || self.current_position == start,
            decreases self.data@.len() - self.current_position,
        {
            let ghost pos = self.current_position;
            proof {
                let sub = self.data@.subrange(0, pos + 1);
                assert(sub.drop_last() =~= self.data@.subrange(0, pos as int));
                lemma_newlines_bounded(self.data@.subrange(0, pos as int));
            }
            if self.data[self.current_position] == 10u8 {
                self.current_line = self.current_line + 1;
            }
            self.current_position = self.current_position + 1;
        }
        self.current_line
    }

    /// Moves the cursor forward to `byte_position`, as `get_line_number` does.
    pub fn update_position(&mut self, byte_position: u64)
        requires
            old(self).wf(),
        ensures
            final(self).wf(),
            final(self).bytes() == old(self).bytes(),
            final(self).position() == if old(self).position() >= byte_position {
                old(self).position() as int
            } else if byte_position <= old(self).bytes().len() {
                byte_position as int
            } else {
                old(self).bytes().len() as int
            },
    {
        self.get_line_number(byte_position);
    }
}

} // verus!
