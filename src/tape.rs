use vstd::prelude::*;

use crate::input::{byte_of, StdIn};

verus! {

/// The mathematical picture of a tape: its cells and the cursor's index.
pub struct TapeModel {
    pub cells: Seq<u8>,
    pub pos: int,
}

/// The value one more than `c`, modulo 256.
pub open spec fn wrap_inc(c: u8) -> u8 {
    ((c as int + 1) % 256) as u8
}

/// The value one less than `c`, modulo 256.
pub open spec fn wrap_dec(c: u8) -> u8 {
    ((c as int + 255) % 256) as u8
}

impl TapeModel {
    /// At least one cell, and the cursor on one of them.
    pub open spec fn wf(self) -> bool {
        self.cells.len() > 0 && 0 <= self.pos < self.cells.len()
    }

    pub open spec fn current(self) -> u8 {
        self.cells[self.pos]
    }

    pub open spec fn with_current(self, v: u8) -> TapeModel {
        TapeModel { cells: self.cells.update(self.pos, v), pos: self.pos }
    }

    /// At the first cell a zero cell is put in front and the cursor stays at 0;
    /// elsewhere the cursor steps back.
    pub open spec fn move_left(self) -> TapeModel {
        if self.pos == 0 {
            TapeModel { cells: seq![0u8] + self.cells, pos: 0 }
        } else {
            TapeModel { cells: self.cells, pos: self.pos - 1 }
        }
    }

    /// The cursor steps forward; past the last cell a zero cell is appended.
    pub open spec fn move_right(self) -> TapeModel {
        if self.pos + 1 == self.cells.len() {
            TapeModel { cells: self.cells.push(0u8), pos: self.pos + 1 }
        } else {
            TapeModel { cells: self.cells, pos: self.pos + 1 }
        }
    }

    pub open spec fn increment(self) -> TapeModel {
        self.with_current(wrap_inc(self.current()))
    }

    pub open spec fn decrement(self) -> TapeModel {
        self.with_current(wrap_dec(self.current()))
    }
}

/// Moving left from the first cell gives a tape one cell longer, the cursor
/// still at 0 on a new zero cell; moving right from the last cell gives a tape
/// one cell longer, the cursor on a new zero cell at its end.
pub proof fn lemma_tape_growth(t: TapeModel)
    requires
        t.wf(),
    ensures
        t.move_left().wf(),
        t.move_right().wf(),
        t.pos == 0 ==> t.move_left().cells.len() == t.cells.len() + 1 && t.move_left().pos == 0
            && t.move_left().current() == 0,
        t.pos == t.cells.len() - 1 ==> t.move_right().cells.len() == t.cells.len() + 1
            && t.move_right().pos == t.cells.len() && t.move_right().current() == 0,
{
}

/// Cell arithmetic wraps: 255 goes up to 0 and 0 goes down to 255.
pub proof fn lemma_wraparound(t: TapeModel)
    requires
        t.wf(),
    ensures
        t.increment().wf(),
        t.decrement().wf(),
        t.current() == 255 ==> t.increment().current() == 0,
        t.current() == 0 ==> t.decrement().current() == 255,
{
}

/// A memory of byte cells with one cursor, growing on demand at either end.
pub struct Tape {
    pub cells: Vec<u8>,
    pub pos: usize,
}

impl View for Tape {
    type V = TapeModel;

    open spec fn view(&self) -> TapeModel {
        TapeModel { cells: self.cells@, pos: self.pos as int }
    }
}

impl Tape {
    pub open spec fn wf(&self) -> bool {
        self@.wf()
    }

    /// A tape of one zero cell, the cursor on it.
    pub fn new() -> (t: Tape)
        ensures
            t.wf(),
            t@.cells == seq![0u8],
            t@.pos == 0,
    {
        Tape { cells: vec![0u8], pos: 0 }
    }

    pub fn left(&mut self)
        requires
            old(self).wf(),
        ensures
            final(self).wf(),
            final(self)@ == old(self)@.move_left(),
    {
        if self.pos == 0 {
            self.cells.insert(0, 0u8);
            assert(self.cells@ =~= seq![0u8] + old(self).cells@);
        } else {
            self.pos = self.pos - 1;
        }
    }

    pub fn right(&mut self)
        requires
            old(self).wf(),
        ensures
            final(self).wf(),
            final(self)@ == old(self)@.move_right(),
    {
        let n = self.cells.len();
        self.pos = self.pos + 1;
        if self.pos == n {
            self.cells.push(0u8);
        }
    }

    pub fn inc(&mut self)
        requires
            old(self).wf(),
        ensures
            final(self).wf(),
            final(self)@ == old(self)@.increment(),
    {
        let c = self.cells[self.pos];
        self.cells.set(self.pos, c.wrapping_add(1));
    }

    pub fn dec(&mut self)
        requires
            old(self).wf(),
        ensures
            final(self).wf(),
            final(self)@ == old(self)@.decrement(),
    {
        let c = self.cells[self.pos];
        self.cells.set(self.pos, c.wrapping_sub(1));
    }

    /// The value of the cell under the cursor.
    pub fn current(&self) -> (r: u8)
        requires
            self.wf(),
        ensures
            r == self@.current(),
    {
        self.cells[self.pos]
    }

    /// Overwrites the cell under the cursor.
    pub fn set_current(&mut self, v: u8)
        requires
            old(self).wf(),
        ensures
            final(self).wf(),
            final(self)@ == old(self)@.with_current(v),
    {
        self.cells.set(self.pos, v);
    }

    /// Stores the code of the next input character in the cell under the
    /// cursor. Returns false, changing nothing, when the buffered line is used
    /// up and a new one must be read first.
    pub fn read(&mut self, stdin: &mut StdIn) -> (r: bool)
        requires
            old(self).wf(),
            old(stdin).wf(),
        ensures
            final(self).wf(),
            final(stdin).wf(),
            r == (old(stdin).pending().len() > 0),
            r ==> final(self)@ == old(self)@.with_current(byte_of(old(stdin).pending()[0]))
                && final(stdin).pending() == old(stdin).pending().drop_first(),
            !r ==> final(self)@ == old(self)@ && final(stdin).pending() == old(stdin).pending(),
            final(stdin).input@ == old(stdin).input@,
            r ==> final(stdin).pos == old(stdin).pos + 1,
            !r ==> final(stdin).pos == old(stdin).pos,
    {
        match stdin.read() {
            Some(c) => {
                let code = c as u32;
                self.set_current((code % 256) as u8);
                true
            },
            None => false,
        }
    }
}

} // verus!
