use vstd::prelude::*;

use crate::input::{byte_of, StdIn};
use crate::program::{lemma_loop_view, ops_of, parse_program, Instruction, Op};
use crate::tape::{Tape, TapeModel};

verus! {

/// What one step of the machine asks of its caller.
#[derive(Clone, Copy, PartialEq, Eq, Structural, Debug)]
pub enum Action {
    /// The step changed the state and nothing more is to be done.
    Continue,
    /// The step wrote this byte to the output.
    Output(u8),
    /// An input instruction found the buffered line used up: a new line must be
    /// read before the machine can go on. The state is unchanged.
    NeedInput,
    /// The top-level sequence is exhausted. The state is unchanged.
    Halted,
}

/// The full state of a run: the program tree, the position of each active
/// level, the tape and the input characters not yet served.
pub struct State {
    pub prog: Seq<Op>,
    pub frames: Seq<int>,
    pub tape: TapeModel,
    pub input: Seq<char>,
}

/// The sequence that level `k` of the position walks: the program itself at
/// level 0, then the body of the loop that the level below points at.
pub open spec fn level(prog: Seq<Op>, frames: Seq<int>, k: int) -> Seq<Op>
    decreases k,
{
    if k <= 0 {
        prog
    } else {
        match level(prog, frames, k - 1)[frames[k - 1]] {
            Op::Loop(body) => body,
            _ => seq![],
        }
    }
}

/// Every level below the top points at a loop of its sequence; the top level
/// points into its sequence or just past its end.
pub open spec fn frames_wf(prog: Seq<Op>, frames: Seq<int>) -> bool {
    &&& frames.len() >= 1
    &&& forall|k: int|
        #![trigger level(prog, frames, k)]
        0 <= k < frames.len() - 1 ==> 0 <= frames[k] < level(prog, frames, k).len()
            && level(prog, frames, k)[frames[k]] is Loop
    &&& 0 <= frames.last() <= level(prog, frames, frames.len() - 1).len()
}

impl State {
    pub open spec fn wf(self) -> bool {
        frames_wf(self.prog, self.frames) && self.tape.wf()
    }

    /// The sequence that the innermost active level walks.
    pub open spec fn current_seq(self) -> Seq<Op> {
        level(self.prog, self.frames, self.frames.len() - 1)
    }

    /// The index in it of the next instruction.
    pub open spec fn current_index(self) -> int {
        self.frames.last()
    }

    /// The state with the innermost level moved to its next instruction.
    pub open spec fn advance(self) -> State {
        State {
            frames: self.frames.update(self.frames.len() - 1, self.current_index() + 1),
            ..self
        }
    }
}

/// One step of a run. At the end of a nested level the level is left, and the
/// loop that holds it is tested again; at the end of the top level the run has
/// halted. A loop whose cell is 0 is passed over; otherwise its body is entered
/// at its first instruction.
pub open spec fn step_spec(s: State) -> (State, Action) {
    let seq = s.current_seq();
    let i = s.current_index();
    if i >= seq.len() {
        if s.frames.len() == 1 {
            (s, Action::Halted)
        } else {
            (State { frames: s.frames.drop_last(), ..s }, Action::Continue)
        }
    } else {
        match seq[i] {
            Op::Left => (State { tape: s.tape.move_left(), ..s.advance() }, Action::Continue),
            Op::Right => (State { tape: s.tape.move_right(), ..s.advance() }, Action::Continue),
            Op::Inc => (State { tape: s.tape.increment(), ..s.advance() }, Action::Continue),
            Op::Dec => (State { tape: s.tape.decrement(), ..s.advance() }, Action::Continue),
            Op::Print => (s.advance(), Action::Output(s.tape.current())),
            Op::Read => if s.input.len() == 0 {
                (s, Action::NeedInput)
            } else {
                (
                    State {
                        tape: s.tape.with_current(byte_of(s.input[0])),
                        input: s.input.drop_first(),
                        ..s.advance()
                    },
                    Action::Continue,
                )
            },
            Op::Loop(_) => if s.tape.current() == 0 {
                (s.advance(), Action::Continue)
            } else {
                (State { frames: s.frames.push(0), ..s }, Action::Continue)
            },
        }
    }
}

/// Levels up to `k` depend only on the first `k` positions.
pub proof fn lemma_level_prefix(prog: Seq<Op>, f1: Seq<int>, f2: Seq<int>, k: int)
    requires
        0 <= k <= f1.len(),
        k <= f2.len(),
        forall|j: int| 0 <= j < k ==> f1[j] == f2[j],
    ensures
        level(prog, f1, k) == level(prog, f2, k),
    decreases k,
{
    if k > 0 {
        lemma_level_prefix(prog, f1, f2, k - 1);
    }
}

/// A step keeps the state well formed.
pub proof fn lemma_step_wf(s: State)
    requires
        s.wf(),
    ensures
        step_spec(s).0.wf(),
        step_spec(s).0.prog == s.prog,
{
    let n = s.frames.len();
    let seq = s.current_seq();
    let i = s.current_index();
    let t = step_spec(s).0;
    if i >= seq.len() {
        if n > 1 {
            assert forall|k: int| 0 <= k < n - 1 implies level(s.prog, t.frames, k) == level(
                s.prog,
                s.frames,
                k,
            ) by {
                lemma_level_prefix(s.prog, t.frames, s.frames, k);
            }
            assert(level(s.prog, s.frames, n - 2) == level(s.prog, t.frames, n - 2));
        }
    } else if t.frames.len() == n {
        assert forall|k: int| 0 <= k < n implies level(s.prog, t.frames, k) == level(
            s.prog,
            s.frames,
            k,
        ) by {
            lemma_level_prefix(s.prog, t.frames, s.frames, k);
        }
        assert(level(s.prog, t.frames, n - 1) == seq);
    } else {
        assert forall|k: int| 0 <= k < n implies level(s.prog, t.frames, k) == level(
            s.prog,
            s.frames,
            k,
        ) by {
            lemma_level_prefix(s.prog, t.frames, s.frames, k);
        }
        assert(level(s.prog, t.frames, n - 1) == seq);
        assert(t.frames[n - 1] == i);
    }
}

/// A loop met with the current cell at 0 runs its body zero times: the step
/// moves past it and changes nothing else.
pub proof fn lemma_loop_on_zero_skips(s: State)
    requires
        s.wf(),
        s.current_index() < s.current_seq().len(),
        s.current_seq()[s.current_index()] is Loop,
        s.tape.current() == 0,
    ensures
        step_spec(s) == (s.advance(), Action::Continue),
        step_spec(s).0.frames.len() == s.frames.len(),
        step_spec(s).0.tape == s.tape,
        step_spec(s).0.input == s.input,
{
}

/// The kind of the next instruction, without a loop's body.
#[derive(Clone, Copy, PartialEq, Eq, Structural, Debug)]
pub enum Head {
    End,
    Left,
    Right,
    Inc,
    Dec,
    Print,
    Read,
    Loop,
}

pub open spec fn head_of(op: Op) -> Head {
    match op {
        Op::Left => Head::Left,
        Op::Right => Head::Right,
        Op::Inc => Head::Inc,
        Op::Dec => Head::Dec,
        Op::Print => Head::Print,
        Op::Read => Head::Read,
        Op::Loop(_) => Head::Loop,
    }
}

/// A program tree with the position of each active level: the instructions
/// that are running, the innermost last.
pub struct Machine {
    pub program: Vec<Instruction>,
    pub frames: Vec<usize>,
}

impl Machine {
    pub open spec fn frames_view(&self) -> Seq<int> {
        self.frames@.map_values(|x: usize| x as int)
    }

    /// The state of a run of this machine on the given tape and input.
    pub open spec fn state(&self, tape: TapeModel, input: Seq<char>) -> State {
        State { prog: ops_of(self.program@), frames: self.frames_view(), tape, input }
    }

    pub open spec fn wf(&self) -> bool {
        frames_wf(ops_of(self.program@), self.frames_view())
    }

    /// A machine at the first instruction of the program.
    pub fn new(program: Vec<Instruction>) -> (m: Machine)
        ensures
            m.wf(),
            m.program == program,
            m.frames_view() == seq![0int],
    {
        let m = Machine { program, frames: vec![0usize] };
        assert(m.frames_view() =~= seq![0int]);
        m
    }

    /// The kind of the next instruction, or `End` past the innermost level's end.
    pub fn head(&self) -> (r: Head)
        requires
            self.wf(),
        ensures
            ({
                let f = self.frames_view();
                let seq = level(ops_of(self.program@), f, f.len() - 1);
                let i = f.last();
                &&& i >= seq.len() ==> r == Head::End
                &&& i < seq.len() ==> r == head_of(seq[i]) && i < usize::MAX
            }),
    {
        let ghost prog = ops_of(self.program@);
        let ghost f = self.frames_view();
        let d = self.frames.len() - 1;
        let mut cur: &Vec<Instruction> = &self.program;
        let mut k: usize = 0;
        while k < d
            invariant
                prog == ops_of(self.program@),
                f == self.frames_view(),
                frames_wf(prog, f),
                d == f.len() - 1,
                k <= d,
                ops_of(cur@) == level(prog, f, k as int),
            decreases d - k,
        {
            let i = self.frames[k];
            assert(level(prog, f, k as int)[f[k as int]] is Loop);
            proof {
                lemma_loop_view(cur@[i as int]);
            }
            match &cur[i] {
                Instruction::Loop(body) => {
                    cur = body;
                },
                _ => {},
            }
            k = k + 1;
        }
        let i = self.frames[d];
        if i >= cur.len() {
            return Head::End;
        }
        match &cur[i] {
            Instruction::Left => Head::Left,
            Instruction::Right => Head::Right,
            Instruction::Inc => Head::Inc,
            Instruction::Dec => Head::Dec,
            Instruction::Print => Head::Print,
            Instruction::Read => Head::Read,
            Instruction::Loop(_) => Head::Loop,
        }
    }

    /// Runs one step against the tape and the input buffer.
    pub fn step(&mut self, tape: &mut Tape, stdin: &mut StdIn) -> (r: Action)
        requires
            old(self).wf(),
            old(tape).wf(),
            old(stdin).wf(),
        ensures
            final(self).wf(),
            final(tape).wf(),
            final(stdin).wf(),
            final(stdin).input@ == old(stdin).input@,
            final(self).program == old(self).program,
            (final(self).state(final(tape)@, final(stdin).pending()), r) == step_spec(
                old(self).state(old(tape)@, old(stdin).pending()),
            ),
    {
        let ghost s0 = self.state(tape@, stdin.pending());
        proof {
            lemma_step_wf(s0);
        }
        let h = self.head();
        let d = self.frames.len() - 1;
        let i = self.frames[d];
        proof {
            if h != Head::End {
                assert(s0.advance().frames =~= self.frames@.update(
                    d as int,
                    (i + 1) as usize,
                ).map_values(|x: usize| x as int));
            }
        }
        match h {
            Head::End => {
                if d == 0 {
                    Action::Halted
                } else {
                    self.frames.pop();
                    assert(self.frames_view() =~= s0.frames.drop_last());
                    Action::Continue
                }
            },
            Head::Left => {
                tape.left();
                self.frames.set(d, i + 1);
                Action::Continue
            },
            Head::Right => {
                tape.right();
                self.frames.set(d, i + 1);
                Action::Continue
            },
            Head::Inc => {
                tape.inc();
                self.frames.set(d, i + 1);
                Action::Continue
            },
            Head::Dec => {
                tape.dec();
                self.frames.set(d, i + 1);
                Action::Continue
            },
            Head::Print => {
                let v = tape.current();
                self.frames.set(d, i + 1);
                Action::Output(v)
            },
            Head::Read => {
                if tape.read(stdin) {
                    self.frames.set(d, i + 1);
                    Action::Continue
                } else {
                    Action::NeedInput
                }
            },
            Head::Loop => {
                if tape.current() == 0 {
                    self.frames.set(d, i + 1);
                } else {
                    self.frames.push(0);
                    assert(self.frames_view() =~= s0.frames.push(0));
                }
                Action::Continue
            },
        }
    }
}

/// How a bounded run ended.
#[derive(Clone, Copy, PartialEq, Eq, Structural, Debug)]
pub enum Status {
    /// The program ran to its end.
    Halted,
    /// An input instruction waits for a new line.
    NeedInput,
    /// The steps allowed were used up; the run can go on from here.
    OutOfFuel,
}

/// At most `fuel` steps from `s`: the state reached, the bytes written and how
/// the run ended.
pub open spec fn run_spec(s: State, fuel: nat) -> (State, Seq<u8>, Status)
    decreases fuel,
{
    if fuel == 0 {
        (s, seq![], Status::OutOfFuel)
    } else {
        let (t, a) = step_spec(s);
        match a {
            Action::Halted => (t, seq![], Status::Halted),
            Action::NeedInput => (t, seq![], Status::NeedInput),
            Action::Output(b) => {
                let (u, out, st) = run_spec(t, (fuel - 1) as nat);
                (u, seq![b] + out, st)
            },
            Action::Continue => run_spec(t, (fuel - 1) as nat),
        }
    }
}

/// Runs the machine for at most `fuel` steps, appending each byte written to
/// `out`. It stops early when the program halts or waits for input.
pub fn execute(
    machine: &mut Machine,
    tape: &mut Tape,
    stdin: &mut StdIn,
    out: &mut Vec<u8>,
    fuel: usize,
) -> (r: Status)
    requires
        old(machine).wf(),
        old(tape).wf(),
        old(stdin).wf(),
    ensures
        final(machine).wf(),
        final(tape).wf(),
        final(stdin).wf(),
        final(stdin).input@ == old(stdin).input@,
        final(machine).program == old(machine).program,
        ({
            let (t, written, st) = run_spec(
                old(machine).state(old(tape)@, old(stdin).pending()),
                fuel as nat,
            );
            &&& final(machine).state(final(tape)@, final(stdin).pending()) == t
            &&& final(out)@ == old(out)@ + written
            &&& r == st
        }),
{
    let ghost s0 = machine.state(tape@, stdin.pending());
    let ghost out0 = out@;
    let mut left: usize = fuel;
    while left > 0
        invariant
            machine.wf(),
            tape.wf(),
            stdin.wf(),
            stdin.input@ == old(stdin).input@,
            machine.program == old(machine).program,
            s0 == old(machine).state(old(tape)@, old(stdin).pending()),
            out0 == old(out)@,
            left <= fuel,
            ({
                let (t, written, st) = run_spec(s0, fuel as nat);
                let (t2, written2, st2) = run_spec(
                    machine.state(tape@, stdin.pending()),
                    left as nat,
                );
                &&& t == t2
                &&& out0 + written == out@ + written2
                &&& st == st2
            }),
        decreases left,
    {
        let ghost s = machine.state(tape@, stdin.pending());
        let a = machine.step(tape, stdin);
        match a {
            Action::Halted => {
                assert(run_spec(s, left as nat) == (
                    machine.state(tape@, stdin.pending()),
                    Seq::<u8>::empty(),
                    Status::Halted,
                ));
                assert(out@ + seq![] =~= out@);
                return Status::Halted;
            },
            Action::NeedInput => {
                assert(run_spec(s, left as nat) == (
                    machine.state(tape@, stdin.pending()),
                    Seq::<u8>::empty(),
                    Status::NeedInput,
                ));
                assert(out@ + seq![] =~= out@);
                return Status::NeedInput;
            },
            Action::Output(b) => {
                let ghost before = out@;
                out.push(b);
                proof {
                    let w = run_spec(machine.state(tape@, stdin.pending()), (left - 1) as nat).1;
                    assert(before + (seq![b] + w) =~= out@ + w);
                }
            },
            Action::Continue => {},
        }
        left = left - 1;
    }
    assert(out@ + seq![] =~= out@);
    Status::OutOfFuel
}

/// The state in which a program text starts: its tree, the first instruction
/// of the top level, a tape of one zero cell and the given input characters.
pub open spec fn start_state(src: Seq<char>, input: Seq<char>) -> State {
    State {
        prog: parse_program(src),
        frames: seq![0int],
        tape: TapeModel { cells: seq![0u8], pos: 0 },
        input,
    }
}

/// Runs are deterministic: from one state, and so from one program text and
/// one input, a longer run writes what a shorter one wrote and then possibly
/// more, and a run that stopped before its steps were used up gives the same
/// result however many more steps it is allowed.
pub proof fn lemma_run_deterministic(s: State, f1: nat, f2: nat)
    requires
        f1 <= f2,
    ensures
        run_spec(s, f1).1.len() <= run_spec(s, f2).1.len(),
        run_spec(s, f2).1.subrange(0, run_spec(s, f1).1.len() as int) == run_spec(s, f1).1,
        run_spec(s, f1).2 != Status::OutOfFuel ==> run_spec(s, f2) == run_spec(s, f1),
    decreases f1,
{
    if f1 > 0 {
        let (t, a) = step_spec(s);
        lemma_run_deterministic(t, (f1 - 1) as nat, (f2 - 1) as nat);
        if let Action::Output(b) = a {
            let w1 = run_spec(t, (f1 - 1) as nat).1;
            let w2 = run_spec(t, (f2 - 1) as nat).1;
            assert((seq![b] + w2).subrange(0, w1.len() + 1 as int) =~= seq![b] + w2.subrange(
                0,
                w1.len() as int,
            ));
        }
    } else {
        assert(run_spec(s, f2).1.subrange(0, 0) =~= Seq::<u8>::empty());
    }
}

/// Running a program text twice on the same input writes the same bytes: the
/// shorter run's output begins the longer one's, and runs that stop on their
/// own agree entirely.
pub proof fn lemma_program_deterministic(src: Seq<char>, input: Seq<char>, f1: nat, f2: nat)
    requires
        f1 <= f2,
    ensures
        ({
            let (r1, r2) = (run_spec(start_state(src, input), f1), run_spec(start_state(src, input), f2));
            &&& r1.1.len() <= r2.1.len()
            &&& r2.1.subrange(0, r1.1.len() as int) == r1.1
            &&& r1.2 != Status::OutOfFuel ==> r2 == r1
        }),
{
    lemma_run_deterministic(start_state(src, input), f1, f2);
}

} // verus!
