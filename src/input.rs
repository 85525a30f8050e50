use vstd::prelude::*;

verus! {

/// The code that an input character stores in a cell: its scalar value modulo 256.
pub open spec fn byte_of(c: char) -> u8 {
    ((c as u32) as int % 256) as u8
}

/// A line of input characters and a read cursor into it.
pub struct StdIn {
    pub input: Vec<char>,
    pub pos: usize,
}

impl StdIn {
    pub open spec fn wf(&self) -> bool {
        self.pos <= self.input@.len()
    }

    /// The characters of the buffered line not yet served.
    pub open spec fn pending(&self) -> Seq<char> {
        self.input@.subrange(self.pos as int, self.input@.len() as int)
    }

    /// An empty buffer.
    pub fn new() -> (r: StdIn)
        ensures
            r.wf(),
            r.input@.len() == 0,
            r.pos == 0,
            r.pending() == Seq::<char>::empty(),
    {
        StdIn { input: Vec::new(), pos: 0 }
    }

    /// Whether every character of the buffered line has been served, so that
    /// a new line must be read before the next one.
    pub fn needs_line(&self) -> (r: bool)
        requires
            self.wf(),
        ensures
            r == (self.pending().len() == 0),
    {
        self.pos >= self.input.len()
    }

    /// Replaces the served line by a freshly read one, the cursor at its start.
    pub fn refill(&mut self, line: Vec<char>)
        requires
            old(self).wf(),
            old(self).pending().len() == 0,
        ensures
            final(self).wf(),
            final(self).input@ == line@,
            final(self).pos == 0,
            final(self).pending() == line@,
    {
        self.input = line;
        self.pos = 0;
        assert(self.pending() =~= line@);
    }

    /// Serves the next character of the buffered line; `None` when the line
    /// is used up and a new one is needed.
    pub fn read(&mut self) -> (r: Option<char>)
        requires
            old(self).wf(),
        ensures
            final(self).wf(),
            old(self).pending().len() == 0 ==> r == None::<char> && final(self).pending() == old(
                self,
            ).pending(),
            old(self).pending().len() > 0 ==> r == Some(old(self).pending()[0])
                && final(self).pending() == old(self).pending().drop_first(),
            final(self).input@ == old(self).input@,
            r is Some ==> final(self).pos == old(self).pos + 1,
            r is None ==> final(self).pos == old(self).pos,
    {
        if self.pos < self.input.len() {
            let c = self.input[self.pos];
            self.pos = self.pos + 1;
            assert(self.pending() =~= old(self).pending().drop_first());
            Some(c)
        } else {
            None
        }
    }
}

} // verus!
