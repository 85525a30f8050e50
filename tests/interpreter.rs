use brainfuck::input::StdIn;
use brainfuck::machine::{execute, Action, Machine, Status};
use brainfuck::program::{parse, parse_level_at, Instruction};
use brainfuck::tape::Tape;

fn chars(s: &str) -> Vec<char> {
    s.chars().collect()
}

/// Runs a program to its end, feeding the given lines one by one whenever it
/// waits for input, in batches of `batch` steps.
fn run_with(src: &str, lines: &[&str], batch: usize) -> (Vec<u8>, Status) {
    let program = parse(&chars(src));
    let mut machine = Machine::new(program);
    let mut tape = Tape::new();
    let mut stdin = StdIn::new();
    let mut out = Vec::new();
    let mut next = 0;
    loop {
        match execute(&mut machine, &mut tape, &mut stdin, &mut out, batch) {
            Status::Halted => return (out, Status::Halted),
            Status::NeedInput => {
                if next == lines.len() {
                    return (out, Status::NeedInput);
                }
                assert!(stdin.needs_line());
                stdin.refill(chars(lines[next]));
                next += 1;
            }
            Status::OutOfFuel => {}
        }
    }
}

fn run(src: &str, lines: &[&str]) -> Vec<u8> {
    let (out, status) = run_with(src, lines, 1000);
    assert_eq!(status, Status::Halted);
    out
}

#[test]
fn parse_recognizes_the_eight_commands() {
    assert_eq!(
        parse(&chars("<>+-.,[]")),
        vec![Instruction::Left, Instruction::Right, Instruction::Inc, Instruction::Dec, Instruction::Print, Instruction::Read, Instruction::Loop(vec![])]
    );
}

#[test]
fn parse_skips_other_characters() {
    assert_eq!(parse(&chars("a+ b\n-# x")), vec![Instruction::Inc, Instruction::Dec]);
    assert_eq!(parse(&chars("no commands here")), vec![]);
    assert_eq!(parse(&chars("")), vec![]);
}

#[test]
fn parse_builds_nested_loops() {
    assert_eq!(
        parse(&chars("+[->[+]<]." )),
        vec![Instruction::Inc, Instruction::Loop(vec![Instruction::Dec, Instruction::Right, Instruction::Loop(vec![Instruction::Inc]), Instruction::Left]), Instruction::Print]
    );
}

#[test]
fn parse_unmatched_close_ends_top_level() {
    assert_eq!(parse(&chars("+]+.")), vec![Instruction::Inc]);
}

#[test]
fn parse_unmatched_open_takes_the_rest() {
    assert_eq!(parse(&chars("+[+.")), vec![Instruction::Inc, Instruction::Loop(vec![Instruction::Inc, Instruction::Print])]);
}

#[test]
fn parse_level_reports_where_it_stopped() {
    let (level, next) = parse_level_at(&chars("+-]>"), 0);
    assert_eq!(level, vec![Instruction::Inc, Instruction::Dec]);
    assert_eq!(next, 3);
    let (level, next) = parse_level_at(&chars("+-]>"), 3);
    assert_eq!(level, vec![Instruction::Right]);
    assert_eq!(next, 4);
}

#[test]
fn tape_starts_with_one_zero_cell() {
    let t = Tape::new();
    assert_eq!(t.cells, vec![0]);
    assert_eq!(t.pos, 0);
    assert_eq!(t.current(), 0);
}

#[test]
fn tape_left_at_first_cell_grows_in_front() {
    let mut t = Tape::new();
    t.inc();
    t.left();
    assert_eq!(t.cells, vec![0, 1]);
    assert_eq!(t.pos, 0);
    assert_eq!(t.current(), 0);
}

#[test]
fn tape_left_elsewhere_moves_cursor() {
    let mut t = Tape::new();
    t.right();
    t.inc();
    t.left();
    assert_eq!(t.cells, vec![0, 1]);
    assert_eq!(t.pos, 0);
}

#[test]
fn tape_right_at_last_cell_grows_at_end() {
    let mut t = Tape::new();
    t.inc();
    t.right();
    assert_eq!(t.cells, vec![1, 0]);
    assert_eq!(t.pos, 1);
    assert_eq!(t.current(), 0);
    t.left();
    t.right();
    assert_eq!(t.cells.len(), 2);
    assert_eq!(t.pos, 1);
}

#[test]
fn tape_increment_wraps_to_zero() {
    let mut t = Tape::new();
    t.set_current(255);
    t.inc();
    assert_eq!(t.current(), 0);
    t.inc();
    assert_eq!(t.current(), 1);
}

#[test]
fn tape_decrement_wraps_to_255() {
    let mut t = Tape::new();
    t.dec();
    assert_eq!(t.current(), 255);
    t.dec();
    assert_eq!(t.current(), 254);
}

#[test]
fn stdin_serves_a_line_then_asks_for_another() {
    let mut s = StdIn::new();
    assert!(s.needs_line());
    assert_eq!(s.read(), None);
    s.refill(chars("ab"));
    assert!(!s.needs_line());
    assert_eq!(s.read(), Some('a'));
    assert_eq!(s.read(), Some('b'));
    assert!(s.needs_line());
    assert_eq!(s.read(), None);
}

#[test]
fn tape_read_stores_character_code() {
    let mut t = Tape::new();
    let mut s = StdIn::new();
    assert!(!t.read(&mut s));
    assert_eq!(t.current(), 0);
    s.refill(chars("A\u{e9}\u{20ac}"));
    assert!(t.read(&mut s));
    assert_eq!(t.current(), 65);
    assert!(t.read(&mut s));
    assert_eq!(t.current(), 0xe9);
    assert!(t.read(&mut s));
    assert_eq!(t.current(), 0xac);
    assert!(!t.read(&mut s));
    assert_eq!(t.current(), 0xac);
}

#[test]
fn loop_on_zero_cell_runs_body_zero_times() {
    let mut machine = Machine::new(parse(&chars("[+.]")));
    let mut tape = Tape::new();
    let mut stdin = StdIn::new();
    assert_eq!(machine.step(&mut tape, &mut stdin), Action::Continue);
    assert_eq!(machine.frames, vec![1]);
    assert_eq!(tape.cells, vec![0]);
    assert_eq!(machine.step(&mut tape, &mut stdin), Action::Halted);
    assert_eq!(run("[+.]", &[]), Vec::<u8>::new());
}

#[test]
fn loop_repeats_while_cell_is_nonzero() {
    assert_eq!(run("+++[>++<-]>.", &[]), vec![6]);
}

#[test]
fn step_reports_output_and_waiting_for_input() {
    let mut machine = Machine::new(parse(&chars("+.,")));
    let mut tape = Tape::new();
    let mut stdin = StdIn::new();
    assert_eq!(machine.step(&mut tape, &mut stdin), Action::Continue);
    assert_eq!(machine.step(&mut tape, &mut stdin), Action::Output(1));
    assert_eq!(machine.step(&mut tape, &mut stdin), Action::NeedInput);
    assert_eq!(machine.step(&mut tape, &mut stdin), Action::NeedInput);
    stdin.refill(chars("z"));
    assert_eq!(machine.step(&mut tape, &mut stdin), Action::Continue);
    assert_eq!(tape.current(), b'z');
    assert_eq!(machine.step(&mut tape, &mut stdin), Action::Halted);
}

#[test]
fn hello_world_program() {
    let src = "++++++++[>++++[>++>+++>+++>+<<<<-]>+>+>->>+[<]<-]>>.>---.+++++++..+++.>>.<-.<.+++.------.--------.>>+.>++.";
    assert_eq!(run(src, &[]), b"Hello World!\n".to_vec());
}

#[test]
fn eight_increments_in_ten_iterations() {
    assert_eq!(run("++++++++++[>++++++++<-]>.+.", &[]), b"PQ".to_vec());
}

#[test]
fn echo_one_character() {
    assert_eq!(run(",.", &["x\n"]), b"x".to_vec());
}

#[test]
fn echo_across_line_boundary() {
    assert_eq!(run(",.,.,.", &["a\n", "b\n"]), b"a\nb".to_vec());
    assert_eq!(run(",.,.", &["", "q", "r"]), b"qr".to_vec());
}

#[test]
fn output_writes_raw_bytes() {
    let src = "-.";
    assert_eq!(run(src, &[]), vec![255]);
}

#[test]
fn execute_stops_when_fuel_is_used_up() {
    let mut machine = Machine::new(parse(&chars("+++.")));
    let mut tape = Tape::new();
    let mut stdin = StdIn::new();
    let mut out = vec![7];
    assert_eq!(execute(&mut machine, &mut tape, &mut stdin, &mut out, 0), Status::OutOfFuel);
    assert_eq!(out, vec![7]);
    assert_eq!(execute(&mut machine, &mut tape, &mut stdin, &mut out, 2), Status::OutOfFuel);
    assert_eq!(tape.current(), 2);
    assert_eq!(execute(&mut machine, &mut tape, &mut stdin, &mut out, 10), Status::Halted);
    assert_eq!(out, vec![7, 3]);
}

#[test]
fn execute_reports_missing_input() {
    let (out, status) = run_with(".,.", &[], 100);
    assert_eq!(status, Status::NeedInput);
    assert_eq!(out, vec![0]);
}

#[test]
fn runs_are_deterministic() {
    let src = "++++++++[>++++[>++>+++>+++>+<<<<-]>+>+>->>+[<]<-]>>.>---.,.+++++++..+++.";
    let first = run_with(src, &["k\n"], 1);
    let second = run_with(src, &["k\n"], 1);
    let third = run_with(src, &["k\n"], 100000);
    assert_eq!(first, second);
    assert_eq!(first, third);
    assert_eq!(first.1, Status::Halted);
}

#[test]
fn infinite_loop_keeps_running_under_fuel() {
    let mut machine = Machine::new(parse(&chars("+[]")));
    let mut tape = Tape::new();
    let mut stdin = StdIn::new();
    let mut out = Vec::new();
    assert_eq!(execute(&mut machine, &mut tape, &mut stdin, &mut out, 1000), Status::OutOfFuel);
    assert_eq!(execute(&mut machine, &mut tape, &mut stdin, &mut out, 1000), Status::OutOfFuel);
    assert!(out.is_empty());
}

#[test]
fn stdin_cursor_moves_one_per_character() {
    let mut s = StdIn::new();
    assert!(s.input.is_empty());
    assert_eq!(s.pos, 0);
    s.refill(chars("hi\n"));
    assert_eq!(s.input, chars("hi\n"));
    assert_eq!(s.pos, 0);
    assert_eq!(s.read(), Some('h'));
    assert_eq!(s.pos, 1);
    assert_eq!(s.input, chars("hi\n"));
    assert_eq!(s.read(), Some('i'));
    assert_eq!(s.read(), Some('\n'));
    assert_eq!(s.pos, 3);
    assert_eq!(s.read(), None);
    assert_eq!(s.pos, 3);
    assert_eq!(s.input, chars("hi\n"));
}

#[test]
fn tape_read_advances_the_buffer_cursor() {
    let mut t = Tape::new();
    let mut s = StdIn::new();
    s.refill(chars("A\n"));
    assert!(t.read(&mut s));
    assert_eq!(t.cells, vec![65]);
    assert_eq!(t.pos, 0);
    assert_eq!(s.input, chars("A\n"));
    assert_eq!(s.pos, 1);
}

#[test]
fn echo_leaves_last_line_buffered() {
    let mut machine = Machine::new(parse(&chars(",.,.,.")));
    let mut tape = Tape::new();
    let mut stdin = StdIn::new();
    let mut out = Vec::new();
    let lines = ["a\n", "b\n"];
    let mut next = 0;
    loop {
        match execute(&mut machine, &mut tape, &mut stdin, &mut out, 100) {
            Status::Halted => break,
            Status::NeedInput => {
                assert!(stdin.needs_line());
                stdin.refill(chars(lines[next]));
                next += 1;
            }
            Status::OutOfFuel => {}
        }
    }
    assert_eq!(out, b"a\nb".to_vec());
    assert_eq!(stdin.input, chars("b\n"));
    assert_eq!(stdin.pos, 1);
    assert_eq!(tape.cells, vec![98]);
    assert_eq!(tape.pos, 0);
}
