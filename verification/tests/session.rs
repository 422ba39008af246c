use rpn_shell::builtin::{BinaryOp, UnaryOp};
use rpn_shell::error::RpnError;
use rpn_shell::host::{Action, Output, Request};
use rpn_shell::shell::Shell;
use rpn_shell::value::Value;
use rpn_shell::word::{split_line, Word};

fn num(x: f64) -> Value {
    Value::from_bits(x.to_bits())
}

fn float(v: Value) -> f64 {
    f64::from_bits(v.to_bits())
}

fn word(text: &str) -> Word {
    Word::new(String::from(text), text.parse::<f64>().ok().map(num))
}

fn compute(request: Request) -> Value {
    num(match request {
        Request::Unary { function, arg } => {
            let x = float(arg);
            match function {
                UnaryOp::Ln => x.ln(),
                UnaryOp::Sin => x.sin(),
                UnaryOp::Cos => x.cos(),
                UnaryOp::Tan => x.tan(),
                UnaryOp::Asin => x.asin(),
                UnaryOp::Acos => x.acos(),
                UnaryOp::Atan => x.atan(),
                UnaryOp::Round => x.round(),
            }
        }
        Request::Binary { operator, lhs, rhs } => {
            let (l, r) = (float(lhs), float(rhs));
            match operator {
                BinaryOp::Add => l + r,
                BinaryOp::Sub => l - r,
                BinaryOp::Mul => l * r,
                BinaryOp::Div => l / r,
                BinaryOp::Rem => l % r,
                BinaryOp::Pow => l.powf(r),
                BinaryOp::Log => l.log(r),
            }
        }
    })
}

/// What a line did: whether it halted, what it printed, how it failed.
struct Ran {
    halted: bool,
    printed: Vec<String>,
    failed: Option<RpnError>,
    empty_range: bool,
}

fn show(out: &Output) -> String {
    match out {
        Output::Top(v) => format!("{}", float(*v)),
        Output::All(vs) => vs.iter().map(|v| format!("{} ", float(*v))).collect(),
        Output::Scientific { negative, magnitude } => {
            let x = float(*magnitude);
            let exp = x.log(10.0).floor();
            let sign = if *negative { "-" } else { "" };
            format!("{}{:.4} * 10^{}", sign, x / 10f64.powf(exp), exp)
        }
    }
}

fn run(shell: &mut Shell, line: &str) -> Ran {
    let mut ran = Ran { halted: false, printed: Vec::new(), failed: None, empty_range: false };
    shell.do_line(split_line(line).iter().map(|t| word(t)).collect());
    loop {
        assert!(shell.nesting() < u32::MAX);
        match shell.step() {
            Ok(Action::Done) => break,
            Ok(Action::Continue) => {}
            Ok(Action::Halt) => {
                ran.halted = true;
                break;
            }
            Ok(Action::Compute(request)) => {
                let mut next = shell.resume(compute(request));
                while let Action::Compute(request) = next {
                    next = shell.resume(compute(request));
                }
                assert_eq!(next, Action::Continue);
            }
            Ok(Action::Print(out)) => ran.printed.push(show(&out)),
            Ok(Action::EmptyRange) => {
                ran.empty_range = true;
                break;
            }
            Err(e) => {
                ran.failed = Some(e);
                break;
            }
        }
    }
    ran
}

fn stack(shell: &Shell) -> Vec<f64> {
    shell.stack().as_slice().iter().map(|v| float(*v)).collect()
}

fn after(lines: &[&str]) -> Shell {
    let mut shell = Shell::new();
    for line in lines {
        let ran = run(&mut shell, line);
        assert_eq!(ran.failed, None, "{}", line);
    }
    shell
}

fn bits(shell: &Shell) -> Vec<u64> {
    shell.stack().as_slice().iter().map(|v| v.to_bits()).collect()
}

#[test]
fn a_new_session_is_empty() {
    let shell = Shell::new();
    assert!(stack(&shell).is_empty());
    assert_eq!(shell.get_exit_val(), 0);
    assert!(!shell.interactive);
    assert_eq!(shell.nesting(), 0);
}

#[test]
fn numbers_are_pushed_in_order() {
    assert_eq!(stack(&after(&["1 2.5 -3e2"])), vec![1.0, 2.5, -300.0]);
    assert_eq!(stack(&after(&["1", "2"])), vec![1.0, 2.0]);
    let shell = after(&["inf nan -0"]);
    assert_eq!(float(shell.stack().as_slice()[0]), f64::INFINITY);
    assert!(float(shell.stack().as_slice()[1]).is_nan());
    assert_eq!(bits(&shell)[2], (-0.0f64).to_bits());
}

#[test]
fn arithmetic_takes_the_top_as_the_right_operand() {
    assert_eq!(stack(&after(&["2 3 +"])), vec![5.0]);
    assert_eq!(stack(&after(&["2 3 -"])), vec![-1.0]);
    assert_eq!(stack(&after(&["2 3 *"])), vec![6.0]);
    assert_eq!(stack(&after(&["7 2 /"])), vec![3.5]);
    assert_eq!(stack(&after(&["7 2 %"])), vec![1.0]);
    assert_eq!(stack(&after(&["-7 2 %"])), vec![-1.0]);
    assert_eq!(stack(&after(&["2 10 **"])), vec![1024.0]);
    assert_eq!(stack(&after(&["8 2 log"])), vec![3.0]);
    assert_eq!(stack(&after(&["1 0 /"])), vec![f64::INFINITY]);
    assert_eq!(stack(&after(&["9 1 2 +"])), vec![9.0, 3.0]);
}

#[test]
fn functions_of_one_number_replace_the_top() {
    assert_eq!(stack(&after(&["0 sin"])), vec![0.0]);
    assert_eq!(stack(&after(&["0 cos"])), vec![1.0]);
    assert_eq!(stack(&after(&["0 tan"])), vec![0.0]);
    assert_eq!(stack(&after(&["1 ln"])), vec![0.0]);
    assert_eq!(stack(&after(&["0 asin"])), vec![0.0]);
    assert_eq!(stack(&after(&["1 acos"])), vec![0.0]);
    assert_eq!(stack(&after(&["0 atan"])), vec![0.0]);
    assert_eq!(stack(&after(&["2.5 round"])), vec![3.0]);
    assert_eq!(stack(&after(&["-2.5 round"])), vec![-3.0]);
    assert_eq!(stack(&after(&["7 2.4 round"])), vec![7.0, 2.0]);
    assert_eq!(stack(&after(&["e ln"])), vec![1.0]);
}

#[test]
fn constants_are_pushed() {
    assert_eq!(stack(&after(&["pi e"])), vec![std::f64::consts::PI, std::f64::consts::E]);
}

#[test]
fn factorial_of_five_is_120() {
    assert_eq!(stack(&after(&["5 fact"])), vec![120.0]);
}

#[test]
fn factorial_of_a_negative_or_broken_number_is_nan() {
    assert!(stack(&after(&["-1 fact"]))[0].is_nan());
    assert!(stack(&after(&["2.5 fact"]))[0].is_nan());
    assert!(stack(&after(&["-0 fact"]))[0].is_nan());
    assert!(stack(&after(&["inf fact"]))[0].is_nan());
    assert!(stack(&after(&["nan fact"]))[0].is_nan());
    assert_eq!(stack(&after(&["7 2.5 fact"])).len(), 2);
}

#[test]
fn factorial_at_its_edges() {
    assert_eq!(stack(&after(&["0 fact"])), vec![1.0]);
    assert_eq!(stack(&after(&["1 fact"])), vec![1.0]);
    assert_eq!(stack(&after(&["2 fact"])), vec![2.0]);
    assert_eq!(stack(&after(&["10 fact"])), vec![3628800.0]);
    let big = stack(&after(&["170 fact"]))[0];
    assert!(big.is_finite() && big > 7.25e306 && big < 7.26e306);
    assert_eq!(stack(&after(&["171 fact"])), vec![f64::INFINITY]);
    assert_eq!(stack(&after(&["1e300 fact"])), vec![f64::INFINITY]);
    assert_eq!(stack(&after(&["9 3 fact"])), vec![9.0, 6.0]);
}

#[test]
fn factorial_multiplies_as_the_loop_does() {
    for n in [3u32, 12, 20, 25, 60, 100, 170] {
        let mut x = 1.0f64;
        let mut a = n as f64;
        while a > 0.0 {
            x *= a;
            a -= 1.0;
        }
        let line = format!("{} fact", n);
        assert_eq!(bits(&after(&[line.as_str()])), vec![x.to_bits()], "{}", n);
    }
}

#[test]
fn factorial_asks_for_a_product_and_then_for_the_counter() {
    let mut shell = Shell::new();
    shell.do_line(vec![word("3"), word("fact")]);
    assert_eq!(shell.step(), Ok(Action::Continue));
    let mul = |l: f64, r: f64| {
        Action::Compute(Request::Binary { operator: BinaryOp::Mul, lhs: num(l), rhs: num(r) })
    };
    let dec = |l: f64| {
        Action::Compute(Request::Binary { operator: BinaryOp::Sub, lhs: num(l), rhs: num(1.0) })
    };
    assert_eq!(shell.step(), Ok(mul(1.0, 3.0)));
    assert_eq!(shell.resume(num(3.0)), dec(3.0));
    assert_eq!(shell.resume(num(2.0)), mul(3.0, 2.0));
    assert_eq!(shell.resume(num(6.0)), dec(2.0));
    assert_eq!(shell.resume(num(1.0)), mul(6.0, 1.0));
    assert_eq!(shell.resume(num(6.0)), dec(1.0));
    assert!(stack(&shell).is_empty());
    assert_eq!(shell.resume(num(0.0)), Action::Continue);
    assert_eq!(stack(&shell), vec![6.0]);
    assert_eq!(shell.step(), Ok(Action::Done));
}

#[test]
fn factorial_stops_at_infinity() {
    let mut shell = Shell::new();
    shell.do_line(vec![word("5"), word("fact")]);
    assert_eq!(shell.step(), Ok(Action::Continue));
    assert!(matches!(shell.step(), Ok(Action::Compute(_))));
    assert_eq!(shell.resume(num(f64::INFINITY)), Action::Continue);
    assert_eq!(stack(&shell), vec![f64::INFINITY]);
}

#[test]
fn swp_swaps_the_top_two() {
    assert_eq!(stack(&after(&["1 2 3 swp"])), vec![1.0, 3.0, 2.0]);
}

#[test]
fn swp_twice_restores_the_stack() {
    assert_eq!(stack(&after(&["1 2 3 swp swp"])), vec![1.0, 2.0, 3.0]);
}

#[test]
fn dup_then_pop_restores_the_stack() {
    assert_eq!(stack(&after(&["1 2 dup"])), vec![1.0, 2.0, 2.0]);
    assert_eq!(stack(&after(&["1 2 dup pop"])), vec![1.0, 2.0]);
    assert_eq!(stack(&after(&["1 2 pop"])), vec![1.0]);
}

#[test]
fn over_copies_the_second_number() {
    assert_eq!(stack(&after(&["1 2 over"])), vec![1.0, 2.0, 1.0]);
}

#[test]
fn rot_brings_the_third_number_up() {
    assert_eq!(stack(&after(&["0 1 2 3 rot"])), vec![0.0, 2.0, 3.0, 1.0]);
}

#[test]
fn minus_rot_puts_the_top_under_two() {
    assert_eq!(stack(&after(&["0 1 2 3 -rot"])), vec![0.0, 3.0, 1.0, 2.0]);
    assert_eq!(stack(&after(&["1 2 3 rot -rot"])), vec![1.0, 2.0, 3.0]);
}

#[test]
fn pick_copies_the_number_at_a_depth() {
    assert_eq!(stack(&after(&["10 20 30 0 pick"])), vec![10.0, 20.0, 30.0, 30.0]);
    assert_eq!(stack(&after(&["10 20 30 2 pick"])), vec![10.0, 20.0, 30.0, 10.0]);
    assert_eq!(stack(&after(&["10 20 30 1.9 pick"])), vec![10.0, 20.0, 30.0, 20.0]);
    assert_eq!(stack(&after(&["10 20 30 -4 pick"])), vec![10.0, 20.0, 30.0, 30.0]);
    assert_eq!(stack(&after(&["10 20 30 nan pick"])), vec![10.0, 20.0, 30.0, 30.0]);
}

#[test]
fn pick_beyond_the_depth_fails_and_keeps_the_stack() {
    let mut shell = Shell::new();
    let ran = run(&mut shell, "3 4 pick");
    assert_eq!(ran.failed, Some(RpnError::StackUnderflow));
    assert_eq!(stack(&shell), vec![3.0, 4.0]);
    let ran = run(&mut shell, "1 pick");
    assert_eq!(ran.failed, None);
    assert_eq!(stack(&shell), vec![3.0, 4.0, 3.0]);
    let mut shell = after(&["1 2 3 3"]);
    assert_eq!(run(&mut shell, "pick").failed, Some(RpnError::StackUnderflow));
    assert_eq!(stack(&shell), vec![1.0, 2.0, 3.0, 3.0]);
    let mut shell = after(&["1 2 3 1e300"]);
    assert_eq!(run(&mut shell, "pick").failed, Some(RpnError::StackUnderflow));
    assert_eq!(stack(&shell), vec![1.0, 2.0, 3.0, 1e300]);
    let mut shell = after(&["0"]);
    assert_eq!(run(&mut shell, "pick").failed, Some(RpnError::StackUnderflow));
    assert_eq!(stack(&shell), vec![0.0]);
}

#[test]
fn put_writes_at_a_depth() {
    assert_eq!(stack(&after(&["10 20 30 99 0 put"])), vec![10.0, 20.0, 99.0]);
    assert_eq!(stack(&after(&["10 20 30 99 2 put"])), vec![99.0, 20.0, 30.0]);
}

#[test]
fn put_beyond_the_depth_fails_and_keeps_the_stack() {
    let mut shell = after(&["10 20 99 2"]);
    assert_eq!(run(&mut shell, "put").failed, Some(RpnError::StackUnderflow));
    assert_eq!(stack(&shell), vec![10.0, 20.0, 99.0, 2.0]);
    let mut shell = after(&["0"]);
    assert_eq!(run(&mut shell, "put").failed, Some(RpnError::StackUnderflow));
    assert_eq!(stack(&shell), vec![0.0]);
    let mut shell = after(&["5 0"]);
    assert_eq!(run(&mut shell, "put").failed, Some(RpnError::StackUnderflow));
    assert_eq!(stack(&shell), vec![5.0, 0.0]);
}

#[test]
fn clear_empties_the_stack() {
    assert!(stack(&after(&["1 2 3 clear"])).is_empty());
    assert!(stack(&after(&["clear"])).is_empty());
}

#[test]
fn a_short_stack_fails_every_word_and_stays_as_it_was() {
    let needs = [
        (1, vec!["ln", "sin", "cos", "tan", "asin", "acos", "atan", "round", "fact"]),
        (1, vec![".", ".stdf", "pop", "dup", "pick", "dice", "if"]),
        (2, vec!["+", "-", "*", "/", "%", "**", "log", "swp", "over", "put"]),
        (3, vec!["rot", "-rot"]),
    ];
    for (n, names) in needs {
        for name in names {
            for have in 0..n {
                let mut shell = Shell::new();
                for i in 0..have {
                    let line = format!("{}", i + 7);
                    assert_eq!(run(&mut shell, &line).failed, None);
                }
                let before = bits(&shell);
                let ran = run(&mut shell, name);
                assert_eq!(ran.failed, Some(RpnError::StackUnderflow), "{} on {}", name, have);
                assert_eq!(bits(&shell), before, "{} on {}", name, have);
                assert!(ran.printed.is_empty());
            }
        }
    }
}

#[test]
fn a_failure_ends_the_line_and_not_the_session() {
    let mut shell = Shell::new();
    let ran = run(&mut shell, "1 + 2 3");
    assert_eq!(ran.failed, Some(RpnError::StackUnderflow));
    assert_eq!(stack(&shell), vec![1.0]);
    let ran = run(&mut shell, "2 +");
    assert_eq!(ran.failed, None);
    assert_eq!(stack(&shell), vec![3.0]);
}

#[test]
fn an_unknown_word_is_reported_by_name() {
    let mut shell = Shell::new();
    let ran = run(&mut shell, "1 frob 2");
    assert_eq!(ran.failed, Some(RpnError::UndefinedWord(String::from("frob"))));
    assert_eq!(stack(&shell), vec![1.0]);
    assert!(!ran.halted);
}

#[test]
fn a_defined_word_replays_its_body() {
    let mut shell = after(&[": double dup + ;"]);
    assert!(stack(&shell).is_empty());
    let ran = run(&mut shell, "3 double");
    assert_eq!(ran.failed, None);
    assert_eq!(stack(&shell), vec![6.0]);
}

#[test]
fn a_definition_may_span_lines_and_use_later_words() {
    let shell = after(&[": quad", "double double", ";", ": double 2 * ;", "5 quad 1"]);
    assert_eq!(stack(&shell), vec![20.0, 1.0]);
}

#[test]
fn a_definition_is_overwritten_when_its_successor_ends() {
    let shell = after(&[": f 1 ;", ": f 2 ;", "f"]);
    assert_eq!(stack(&shell), vec![2.0]);
    let mut shell = after(&[": f 1 ;", ": f 2"]);
    assert!(stack(&shell).is_empty());
    let _ = run(&mut shell, "; f");
    assert_eq!(stack(&shell), vec![2.0]);
}

#[test]
fn a_built_in_word_wins_over_a_definition() {
    let shell = after(&[": dup 99 ;", "1 dup"]);
    assert_eq!(stack(&shell), vec![1.0, 1.0]);
    let shell = after(&[": 5 99 ;", "5"]);
    assert_eq!(stack(&shell), vec![5.0]);
}

#[test]
fn a_body_is_recorded_and_not_carried_out() {
    let shell = after(&["1 : f + frob bye 2 ;"]);
    assert_eq!(stack(&shell), vec![1.0]);
}

#[test]
fn a_failure_in_a_body_ends_the_line() {
    let mut shell = after(&[": f 1 + 7 ;"]);
    let ran = run(&mut shell, "f 8");
    assert_eq!(ran.failed, Some(RpnError::StackUnderflow));
    assert_eq!(stack(&shell), vec![1.0]);
    let ran = run(&mut shell, "f 8");
    assert_eq!(ran.failed, None);
    assert_eq!(stack(&shell), vec![2.0, 7.0, 8.0]);
}

#[test]
fn a_word_that_calls_itself_ends_when_the_stack_runs_out() {
    let mut shell = after(&[": drain pop drain ;", "1 2 3"]);
    let ran = run(&mut shell, "drain 4");
    assert_eq!(ran.failed, Some(RpnError::StackUnderflow));
    assert!(stack(&shell).is_empty());
}

#[test]
fn zero_skips_to_then() {
    assert!(stack(&after(&["0 if 99 then"])).is_empty());
    assert_eq!(stack(&after(&["1 if 99 then"])), vec![99.0]);
    assert!(stack(&after(&["-0 if 99 then"])).is_empty());
    assert_eq!(stack(&after(&["1e-300 if 99 then"])), vec![99.0]);
    assert_eq!(stack(&after(&["nan if 99 then"])), vec![99.0]);
    assert_eq!(stack(&after(&["0 if 99 frob + then 5"])), vec![5.0]);
}

#[test]
fn skipping_counts_nested_ifs() {
    assert_eq!(stack(&after(&["0 if 1 if 2 then 3 then 4"])), vec![4.0]);
    assert_eq!(stack(&after(&["0 if if if then then 3 then 4"])), vec![4.0]);
    let shell = after(&["0 if 1", "2 if"]);
    assert_eq!(shell.nesting(), 1);
    let shell = after(&["0 if 1", "2 if", "then 3", "then 4"]);
    assert_eq!(stack(&shell), vec![4.0]);
    assert_eq!(shell.nesting(), 0);
}

#[test]
fn every_skip_ends_at_its_own_then() {
    let shell = after(&["0 if 1 2 then", "0 if 3 4 then 5"]);
    assert_eq!(stack(&shell), vec![5.0]);
}

#[test]
fn then_alone_does_nothing() {
    assert_eq!(stack(&after(&["1 then 2 then"])), vec![1.0, 2.0]);
}

#[test]
fn a_comment_is_passed_over() {
    let mut shell = Shell::new();
    let ran = run(&mut shell, "1 ( this is ignored + + + ) 2");
    assert_eq!(ran.failed, None);
    assert_eq!(stack(&shell), vec![1.0, 2.0]);
    let shell = after(&["1 ( a", "b ( c", ") 2"]);
    assert_eq!(stack(&shell), vec![1.0, 2.0]);
}

#[test]
fn a_comment_is_no_part_of_a_definition_or_a_skip() {
    let shell = after(&[": f 1 ( 2 ; ) 3 ;", "f"]);
    assert_eq!(stack(&shell), vec![1.0, 3.0]);
    let shell = after(&["0 if ( then ) 7 then 8"]);
    assert_eq!(stack(&shell), vec![8.0]);
    let shell = after(&["0 if ( if ) 7 then 8"]);
    assert_eq!(stack(&shell), vec![8.0]);
}

#[test]
fn a_line_that_begins_with_a_hash_does_nothing() {
    let mut shell = after(&["1"]);
    let ran = run(&mut shell, "# 2 frob bye");
    assert_eq!(ran.failed, None);
    assert!(!ran.halted);
    assert_eq!(stack(&shell), vec![1.0]);
}

#[test]
fn bye_exit_and_quit_halt() {
    for name in ["bye", "exit", "quit"] {
        let mut shell = Shell::new();
        let line = format!("1 {} 2", name);
        let ran = run(&mut shell, &line);
        assert!(ran.halted);
        assert_eq!(ran.failed, None);
        assert_eq!(stack(&shell), vec![1.0]);
        assert_eq!(shell.step(), Ok(Action::Done));
    }
    assert!(!run(&mut Shell::new(), "1 2").halted);
}

#[test]
fn a_halt_in_a_body_halts() {
    let mut shell = after(&[": leave 1 bye 2 ;"]);
    let ran = run(&mut shell, "leave 3");
    assert!(ran.halted);
    assert_eq!(stack(&shell), vec![1.0]);
}

#[test]
fn dot_prints_the_top() {
    let mut shell = Shell::new();
    let ran = run(&mut shell, "1 2.5 .");
    assert_eq!(ran.printed, vec!["2.5"]);
    assert_eq!(stack(&shell), vec![1.0, 2.5]);
}

#[test]
fn dot_s_prints_from_the_top_down() {
    let mut shell = Shell::new();
    let ran = run(&mut shell, "1 2 3 .s");
    assert_eq!(ran.printed, vec!["3 2 1 "]);
    assert_eq!(stack(&shell), vec![1.0, 2.0, 3.0]);
    assert_eq!(run(&mut Shell::new(), ".s").printed, vec![""]);
}

#[test]
fn dot_s_hands_over_the_numbers_in_reverse() {
    let mut shell = Shell::new();
    shell.do_line(vec![word("4"), word("5"), word(".s")]);
    assert_eq!(shell.step(), Ok(Action::Continue));
    assert_eq!(shell.step(), Ok(Action::Continue));
    assert_eq!(shell.step(), Ok(Action::Print(Output::All(vec![num(5.0), num(4.0)]))));
}

#[test]
fn dot_stdf_prints_in_scientific_notation() {
    assert_eq!(run(&mut Shell::new(), "12345 .stdf").printed, vec!["1.2345 * 10^4"]);
    assert_eq!(run(&mut Shell::new(), "-0.5 .stdf").printed, vec!["-5.0000 * 10^-1"]);
    let mut shell = Shell::new();
    shell.do_line(vec![word("-8"), word(".stdf")]);
    assert_eq!(shell.step(), Ok(Action::Continue));
    assert_eq!(
        shell.step(),
        Ok(Action::Print(Output::Scientific { negative: true, magnitude: num(8.0) }))
    );
    assert_eq!(stack(&shell), vec![-8.0]);
}

#[test]
fn dice_draws_a_whole_number_below_its_bound() {
    let mut seen = [false; 6];
    for _ in 0..400 {
        let shell = after(&["7 6 dice"]);
        let s = stack(&shell);
        assert_eq!(s.len(), 2);
        assert_eq!(s[0], 7.0);
        assert!(s[1] >= 0.0 && s[1] < 6.0 && s[1].fract() == 0.0);
        seen[s[1] as usize] = true;
    }
    assert!(seen.iter().all(|s| *s));
    assert_eq!(stack(&after(&["1 dice"])), vec![0.0]);
    assert_eq!(stack(&after(&["1.9 dice"])), vec![0.0]);
}

#[test]
fn dice_with_a_given_roll_pushes_it() {
    let mut shell = after(&["9 6"]);
    assert_eq!(shell.apply(&word("dice"), 4), Ok(Action::Continue));
    assert_eq!(stack(&shell), vec![9.0, 4.0]);
}

#[test]
fn dice_on_an_empty_range_draws_nothing() {
    for bound in ["0", "-3", "0.5", "nan"] {
        let mut shell = after(&[bound]);
        let before = bits(&shell);
        let ran = run(&mut shell, "dice 5");
        assert!(ran.empty_range);
        assert_eq!(ran.failed, None);
        assert_eq!(bits(&shell), before);
        assert_eq!(shell.step(), Ok(Action::Done));
    }
}

#[test]
fn the_exit_value_is_the_top_as_an_integer() {
    assert_eq!(after(&["1 2.9"]).get_exit_val(), 2);
    assert_eq!(after(&["-2.9"]).get_exit_val(), -2);
    assert_eq!(after(&["1e10"]).get_exit_val(), i32::MAX);
    assert_eq!(after(&["nan"]).get_exit_val(), 0);
    assert_eq!(after(&["3 pop"]).get_exit_val(), 0);
}

#[test]
fn an_open_request_is_repeated_until_it_is_answered() {
    let mut shell = Shell::new();
    shell.do_line(vec![word("2"), word("3"), word("-"), word("9")]);
    assert_eq!(shell.step(), Ok(Action::Continue));
    assert_eq!(shell.step(), Ok(Action::Continue));
    let request = Request::Binary { operator: BinaryOp::Sub, lhs: num(2.0), rhs: num(3.0) };
    assert_eq!(shell.step(), Ok(Action::Compute(request)));
    assert!(stack(&shell).is_empty());
    assert_eq!(shell.step(), Ok(Action::Compute(request)));
    assert_eq!(shell.resume(num(-1.0)), Action::Continue);
    assert_eq!(stack(&shell), vec![-1.0]);
    assert_eq!(shell.step(), Ok(Action::Continue));
    assert_eq!(shell.step(), Ok(Action::Done));
    assert_eq!(stack(&shell), vec![-1.0, 9.0]);
}

#[test]
fn an_answer_to_no_request_is_dropped() {
    let mut shell = after(&["1"]);
    assert_eq!(shell.resume(num(5.0)), Action::Continue);
    assert_eq!(stack(&shell), vec![1.0]);
}

#[test]
fn a_new_line_replaces_what_was_pending() {
    let mut shell = Shell::new();
    shell.do_line(vec![word("1"), word("2"), word("+"), word("7")]);
    for _ in 0..3 {
        let _ = shell.step();
    }
    shell.do_line(vec![word("5")]);
    assert_eq!(shell.step(), Ok(Action::Continue));
    assert_eq!(shell.step(), Ok(Action::Done));
    assert_eq!(stack(&shell), vec![5.0]);
}

#[test]
fn a_word_is_what_it_is_given_to_read_as() {
    let mut shell = Shell::new();
    let w = Word::new(String::from("dup"), Some(num(4.0)));
    assert_eq!(shell.apply(&w, 0), Ok(Action::Continue));
    assert_eq!(stack(&shell), vec![4.0]);
    let w = Word::new(String::from("4"), None);
    assert_eq!(shell.do_word(&w), Err(RpnError::UndefinedWord(String::from("4"))));
}

#[test]
fn the_operands_of_each_operator() {
    let ops = [
        ("+", BinaryOp::Add, 3.0, 2.0),
        ("*", BinaryOp::Mul, 3.0, 2.0),
        ("-", BinaryOp::Sub, 2.0, 3.0),
        ("/", BinaryOp::Div, 2.0, 3.0),
        ("%", BinaryOp::Rem, 2.0, 3.0),
        ("**", BinaryOp::Pow, 2.0, 3.0),
        ("log", BinaryOp::Log, 2.0, 3.0),
    ];
    for (name, operator, lhs, rhs) in ops {
        let mut shell = after(&["1 2 3"]);
        let request = Request::Binary { operator, lhs: num(lhs), rhs: num(rhs) };
        assert_eq!(shell.do_word(&word(name)), Ok(Action::Compute(request)), "{}", name);
        assert_eq!(stack(&shell), vec![1.0]);
    }
    let mut shell = after(&["1 2"]);
    let request = Request::Unary { function: UnaryOp::Sin, arg: num(2.0) };
    assert_eq!(shell.do_word(&word("sin")), Ok(Action::Compute(request)));
    assert_eq!(stack(&shell), vec![1.0]);
}

#[test]
fn the_prompt_flag_is_the_hosts() {
    let mut shell = Shell::new();
    assert_eq!(shell.prompt(), "");
    shell.interactive = true;
    let _ = run(&mut shell, "1 2 + bye");
    assert!(shell.interactive);
    assert_eq!(shell.prompt(), "> ");
}

#[test]
fn the_default_session_is_a_new_one() {
    let shell = Shell::default();
    assert!(stack(&shell).is_empty());
    assert!(!shell.interactive);
}
