use vstd::prelude::*;

verus! {

/// One node of the instruction tree.
#[derive(Debug, PartialEq, Eq)]
pub enum Instruction {
    Left,
    Right,
    Inc,
    Dec,
    Print,
    Read,
    Loop(Vec<Instruction>),
}

/// The mathematical picture of an instruction: a loop's body is a sequence.
pub enum Op {
    Left,
    Right,
    Inc,
    Dec,
    Print,
    Read,
    Loop(Seq<Op>),
}

impl View for Instruction {
    type V = Op;

    open spec fn view(&self) -> Op
        decreases self,
    {
        match self {
            Instruction::Left => Op::Left,
            Instruction::Right => Op::Right,
            Instruction::Inc => Op::Inc,
            Instruction::Dec => Op::Dec,
            Instruction::Print => Op::Print,
            Instruction::Read => Op::Read,
            Instruction::Loop(body) => Op::Loop(
                Seq::new(
                    body@.len(),
                    |k: int|
                        if 0 <= k < body@.len() {
                            body@[k].view()
                        } else {
                            Op::Left
                        },
                ),
            ),
        }
    }
}

/// A loop's picture holds the picture of each instruction of its body.
pub proof fn lemma_loop_view(ins: Instruction)
    ensures
        ins matches Instruction::Loop(body) ==> ins@ == Op::Loop(ops_of(body@)),
{
    if let Instruction::Loop(body) = ins {
        if let Op::Loop(b) = ins@ {
            assert(b =~= ops_of(body@));
        }
    }
}

/// The tree of a sequence of instructions.
pub open spec fn ops_of(v: Seq<Instruction>) -> Seq<Op> {
    Seq::new(v.len(), |k: int| v[k]@)
}

/// The instruction that a command character stands for, if it is one of the
/// six simple commands.
pub open spec fn simple_op(c: char) -> Option<Op> {
    if c == '<' {
        Some(Op::Left)
    } else if c == '>' {
        Some(Op::Right)
    } else if c == '+' {
        Some(Op::Inc)
    } else if c == '-' {
        Some(Op::Dec)
    } else if c == '.' {
        Some(Op::Print)
    } else if c == ',' {
        Some(Op::Read)
    } else {
        None
    }
}

/// One nesting level read from index `i` of `s`: the instructions of that level
/// and the index just past what it consumed. A `]` ends the level and is
/// consumed; the end of the text ends it too. A `[` opens a nested level, whose
/// instructions become a loop; other characters are skipped.
pub open spec fn parse_level(s: Seq<char>, i: int) -> (Seq<Op>, int)
    decreases s.len() - i,
{
    if i < 0 || i >= s.len() {
        (seq![], s.len() as int)
    } else if s[i] == ']' {
        (seq![], i + 1)
    } else if s[i] == '[' {
        let (body, j) = parse_level(s, i + 1);
        if i < j <= s.len() {
            let (rest, k) = parse_level(s, j);
            (seq![Op::Loop(body)] + rest, k)
        } else {
            (seq![], s.len() as int)
        }
    } else {
        let (rest, k) = parse_level(s, i + 1);
        match simple_op(s[i]) {
            Some(op) => (seq![op] + rest, k),
            None => (rest, k),
        }
    }
}

/// What a level read from `i` consumes: at least one character where any is
/// left, and never more than the text holds.
pub proof fn lemma_parse_level_advances(s: Seq<char>, i: int)
    requires
        0 <= i <= s.len(),
    ensures
        i <= parse_level(s, i).1 <= s.len(),
        i < s.len() ==> i < parse_level(s, i).1,
    decreases s.len() - i,
{
    if i < s.len() {
        if s[i] == ']' {
        } else if s[i] == '[' {
            lemma_parse_level_advances(s, i + 1);
            let j = parse_level(s, i + 1).1;
            lemma_parse_level_advances(s, j);
        } else {
            lemma_parse_level_advances(s, i + 1);
        }
    }
}

/// The tree of a whole program text: its top level.
pub open spec fn parse_program(s: Seq<char>) -> Seq<Op> {
    parse_level(s, 0).0
}

/// Reads one nesting level from index `start` on; returns its instructions and
/// the index just past what it consumed.
pub fn parse_level_at(input: &[char], start: usize) -> (r: (Vec<Instruction>, usize))
    requires
        start <= input@.len(),
    ensures
        ops_of(r.0@) == parse_level(input@, start as int).0,
        r.1 as int == parse_level(input@, start as int).1,
    decreases input@.len() - start,
{
    let ghost s = input@;
    let mut pos: usize = start;
    let mut out: Vec<Instruction> = Vec::new();
    loop
        invariant
            s == input@,
            start <= pos <= s.len(),
            ops_of(out@) + parse_level(s, pos as int).0 == parse_level(s, start as int).0,
            parse_level(s, pos as int).1 == parse_level(s, start as int).1,
        decreases s.len() - pos,
    {
        let ghost before = pos as int;
        proof {
            lemma_parse_level_advances(s, before);
        }
        if pos >= input.len() {
            assert(ops_of(out@) =~= parse_level(s, start as int).0);
            return (out, pos);
        }
        let c = input[pos];
        pos = pos + 1;
        if c == ']' {
            assert(ops_of(out@) =~= parse_level(s, start as int).0);
            return (out, pos);
        }
        let ghost old_ops = ops_of(out@);
        if c == '[' {
            let (body, next) = parse_level_at(input, pos);
            pos = next;
            proof {
                lemma_parse_level_advances(s, before + 1);
            }
            let ghost body_ops = ops_of(body@);
            let ins = Instruction::Loop(body);
            proof {
                lemma_loop_view(ins);
            }
            out.push(ins);
            assert(ops_of(out@) =~= old_ops + seq![Op::Loop(body_ops)]);
        } else {
            let op = if c == '<' {
                Some(Instruction::Left)
            } else if c == '>' {
                Some(Instruction::Right)
            } else if c == '+' {
                Some(Instruction::Inc)
            } else if c == '-' {
                Some(Instruction::Dec)
            } else if c == '.' {
                Some(Instruction::Print)
            } else if c == ',' {
                Some(Instruction::Read)
            } else {
                None
            };
            match op {
                Some(ins) => {
                    assert(simple_op(c) == Some(ins@));
                    out.push(ins);
                    assert(ops_of(out@) =~= old_ops + seq![ins@]);
                },
                None => {},
            }
        }
    }
}

/// Builds the instruction tree of a program text. Characters other than the
/// eight commands are skipped; an unmatched `[` takes the rest of the text as
/// its body, and an unmatched `]` ends the program there.
pub fn parse(input: &[char]) -> (r: Vec<Instruction>)
    ensures
        ops_of(r@) == parse_program(input@),
{
    let (r, _) = parse_level_at(input, 0);
    r
}

} // verus!
