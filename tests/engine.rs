use comp::command::MathOp;
use comp::machine::{EvalError, Interpreter, Numeric, Step};

fn factorial(o: f64) -> f64 {
    let n = o.floor();
    if n < 2.0 {
        1.0
    } else {
        n * factorial(n - 1.0)
    }
}

fn kernel(op: MathOp, args: &[String]) -> Result<Vec<String>, String> {
    let mut x: Vec<f64> = vec![0.0; args.len()];
    for i in (0..args.len()).rev() {
        x[i] = args[i].parse::<f64>().map_err(|_| args[i].clone())?;
    }
    let out: Vec<f64> = match op {
        MathOp::Add => vec![x[0] + x[1]],
        MathOp::Sub => vec![x[0] - x[1]],
        MathOp::Mul => vec![x[0] * x[1]],
        MathOp::Div => vec![x[0] / x[1]],
        MathOp::Chs => vec![-1.0 * x[0]],
        MathOp::Abs => vec![x[0].abs()],
        MathOp::Round => vec![x[0].round()],
        MathOp::Inv => vec![1.0 / x[0]],
        MathOp::Sqrt => vec![x[0].sqrt()],
        MathOp::Throot => vec![x[0].powf(1.0 / x[1])],
        MathOp::Proot => {
            let (a, b, c) = (x[0], x[1], x[2]);
            if b * b - 4.0 * a * c < 0.0 {
                let im = (4.0 * a * c - b * b).sqrt() / (2.0 * a);
                vec![-1.0 * b / (2.0 * a), im, -1.0 * b / (2.0 * a), -im]
            } else {
                let d = (b * b - 4.0 * a * c).sqrt();
                vec![-1.0 * b + d / (2.0 * a), 0.0, -1.0 * b - d / (2.0 * a), 0.0]
            }
        }
        MathOp::Pow => vec![x[0].powf(x[1])],
        MathOp::Mod => vec![x[0] % x[1]],
        MathOp::Fact => vec![factorial(x[0])],
        MathOp::Pi => vec![std::f64::consts::PI],
        MathOp::E => vec![std::f64::consts::E],
        MathOp::DegToRad => vec![x[0].to_radians()],
        MathOp::RadToDeg => vec![x[0].to_degrees()],
        MathOp::Sin => vec![x[0].sin()],
        MathOp::Asin => vec![x[0].asin()],
        MathOp::Cos => vec![x[0].cos()],
        MathOp::Acos => vec![x[0].acos()],
        MathOp::Tan => vec![x[0].tan()],
        MathOp::Atan => vec![x[0].atan()],
        MathOp::Log10 => vec![x[0].log10()],
        MathOp::Log2 => vec![x[0].log2()],
        MathOp::Logn => vec![x[0].log(x[1])],
        MathOp::Ln => vec![x[0].ln()],
    };
    Ok(out.iter().map(|v| v.to_string()).collect())
}

fn tokens(src: &str) -> Vec<String> {
    src.split_whitespace().map(|s| s.to_string()).collect()
}

/// Runs `src` to the end; also returns the warnings met on the way.
fn run_with_warnings(src: &str) -> (Result<Vec<String>, EvalError>, Vec<String>) {
    let mut it = Interpreter::new();
    it.load(tokens(src));
    let mut warnings: Vec<String> = Vec::new();
    loop {
        match it.step() {
            Err(e) => return (Err(e), warnings),
            Ok(Step::Done) => return (Ok(it.stack), warnings),
            Ok(Step::Next) => {}
            Ok(Step::Warning(w)) => warnings.push(w),
            Ok(Step::Compute(op, args)) => {
                if let Err(e) = it.deliver(kernel(op, &args)) {
                    return (Err(e), warnings);
                }
            }
        }
    }
}

fn run(src: &str) -> Result<Vec<String>, EvalError> {
    run_with_warnings(src).0
}

fn stack(src: &str) -> Vec<String> {
    match run(src) {
        Ok(s) => s,
        Err(e) => panic!("{src}: {e:?}"),
    }
}

fn single_float(src: &str) -> f64 {
    let s = stack(src);
    assert_eq!(s.len(), 1, "{src}: {s:?}");
    s[0].parse::<f64>().unwrap()
}

fn is_underflow(r: Result<Vec<String>, EvalError>, command: &str, depth: usize) -> bool {
    match r {
        Err(EvalError::StackUnderflow { command: c, depth: d }) => c == command && d == depth,
        _ => false,
    }
}

fn is_parse_failure(r: Result<Vec<String>, EvalError>, token: &str, expected: Numeric) -> bool {
    match r {
        Err(EvalError::ParseFailure { token: t, expected: e }) => t == token && e == expected,
        _ => false,
    }
}

#[test]
fn add_two_values() {
    assert_eq!(stack("3 4 +"), vec!["7"]);
}

#[test]
fn divide_two_values() {
    assert_eq!(stack("5 2 /"), vec!["2.5"]);
}

#[test]
fn sum_of_squares() {
    assert_eq!(stack("3 dup x 4 dup x +"), vec!["25"]);
}

#[test]
fn operand_order_of_binary_operations() {
    assert_eq!(stack("7 2 -"), vec!["5"]);
    assert_eq!(stack("7 2 /"), vec!["3.5"]);
    assert_eq!(stack("2 10 ^"), vec!["1024"]);
    assert_eq!(stack("2 10 exp"), vec!["1024"]);
    assert_eq!(stack("7 2 %"), vec!["1"]);
    assert_eq!(stack("7 2 mod"), vec!["1"]);
    assert_eq!(stack("27 3 throot"), vec!["3"]);
    assert_eq!(stack("8 2 logn"), vec!["3"]);
}

#[test]
fn dup_multiply_squares() {
    assert_eq!(stack("-3 dup x"), vec!["9"]);
    assert_eq!(stack("1.5 dup x"), vec!["2.25"]);
}

#[test]
fn dup_multiply_sqrt_is_absolute_value() {
    assert_eq!(stack("-3 dup x sqrt"), vec!["3"]);
    assert_eq!(stack("4 dup x sqrt"), vec!["4"]);
    assert_eq!(stack("-0.5 dup x sqrt"), vec!["0.5"]);
}

#[test]
fn add_all_folds_the_stack() {
    assert_eq!(stack("1 2 3 4 +_"), vec!["10"]);
    assert_eq!(stack("1 2 3 4 x_"), vec!["24"]);
    assert_eq!(stack("5 +_"), vec!["5"]);
    assert_eq!(stack("5 x_ 1 +"), vec!["6"]);
}

#[test]
fn add_all_on_empty_stack_underflows() {
    assert!(is_underflow(run("+_"), "+_", 1));
    assert!(is_underflow(run("x_"), "x_", 1));
}

#[test]
fn add_all_sums_left_to_right() {
    // (1 + 1e16) + -1e16: 1 + 1e16 rounds to 1e16.
    assert_eq!(stack("1 1e16 -1e16 +_"), vec!["0"]);
}

#[test]
fn mult_all_multiplies_left_to_right() {
    // (1e200 * 1e200) * 1e-200 overflows before the last factor.
    assert_eq!(stack("1e200 1e200 1e-200 x_"), vec!["inf"]);
    assert_eq!(stack("2 3 4 5 x_"), vec!["120"]);
}

#[test]
fn constants() {
    let two_pi = single_float("pi 2 x");
    assert!((two_pi - 2.0 * std::f64::consts::PI).abs() < 1e-12);
    let one = single_float("e ln");
    assert!((one - 1.0).abs() < 1e-12);
}

#[test]
fn store_and_recall_registers() {
    assert_eq!(stack("5 sa a"), vec!["5"]);
    assert_eq!(stack("1 2 sb b"), vec!["1", "2"]);
    assert_eq!(stack("2.50 .c c c"), vec!["2.50", "2.50"]);
    assert_eq!(stack("a b c"), vec!["0", "0", "0"]);
    assert_eq!(stack("7 sa 8 sb a b +"), vec!["15"]);
}

#[test]
fn function_definition_and_call() {
    assert_eq!(stack("fn sq dup x end 5 sq"), vec!["25"]);
}

#[test]
fn functions_expand_transitively() {
    assert_eq!(stack("fn sq dup x end fn quad sq sq end 2 quad"), vec!["16"]);
}

#[test]
fn first_definition_wins() {
    assert_eq!(stack("fn f 1 end fn f 2 end f"), vec!["1"]);
}

#[test]
fn unterminated_definition_consumes_the_queue() {
    assert_eq!(stack("1 fn f 2 3"), vec!["1"]);
    assert_eq!(stack("1 fn"), vec!["1"]);
}

#[test]
fn comment_is_skipped() {
    assert_eq!(stack("( 1 2 + ) 3 4 +"), vec!["7"]);
}

#[test]
fn nested_comment_is_skipped() {
    assert_eq!(stack("( a ( b ) c ) 1"), vec!["1"]);
}

#[test]
fn unterminated_comment_ends_evaluation() {
    assert_eq!(stack("1 ( 2 3"), vec!["1"]);
}

#[test]
fn add_underflows_on_short_stack() {
    assert!(is_underflow(run("+"), "+", 2));
    assert!(is_underflow(run("1 +"), "+", 2));
    assert!(is_underflow(run("1 2 proot"), "proot", 3));
    assert!(is_underflow(run("1 logn"), "logn", 2));
    assert!(is_underflow(run("swap"), "swap", 2));
}

#[test]
fn gcd_and_factorial() {
    assert_eq!(stack("55 10 gcd"), vec!["5"]);
    assert_eq!(stack("10 !"), vec!["3628800"]);
    assert_eq!(stack("0 9 gcd"), vec!["9"]);
    assert_eq!(stack("1.5 !"), vec!["1"]);
}

#[test]
fn gcd_needs_unsigned_integers() {
    assert!(is_parse_failure(run("2.5 10 gcd"), "2.5", Numeric::Unsigned));
    assert!(is_parse_failure(run("10 -4 gcd"), "-4", Numeric::Unsigned));
}

#[test]
fn unknown_token_fails_to_parse() {
    assert!(is_parse_failure(run("1 foo"), "foo", Numeric::Float));
    assert!(is_parse_failure(run(")"), ")", Numeric::Float));
}

#[test]
fn stack_manipulation() {
    assert_eq!(stack("1 2 swap"), vec!["2", "1"]);
    assert_eq!(stack("1 2 3 roll"), vec!["3", "1", "2"]);
    assert_eq!(stack("1 2 3 rot"), vec!["2", "3", "1"]);
    assert_eq!(stack("1 2 3 drop"), vec!["1", "2"]);
    assert_eq!(stack("1 2 3 cls"), Vec::<String>::new());
    assert_eq!(stack("1 2 3 clr 4"), vec!["4"]);
    assert_eq!(stack("1 2 dup"), vec!["1", "2", "2"]);
}

#[test]
fn drop_on_empty_stack_warns() {
    let (r, warnings) = run_with_warnings("drop 1");
    assert_eq!(r.unwrap(), vec!["1"]);
    assert_eq!(warnings, vec!["drop"]);
}

#[test]
fn unary_operations() {
    assert_eq!(stack("5 chs"), vec!["-5"]);
    assert_eq!(stack("-5 abs"), vec!["5"]);
    assert_eq!(stack("2.5 round"), vec!["3"]);
    assert_eq!(stack("2.4 int"), vec!["2"]);
    assert_eq!(stack("4 inv"), vec!["0.25"]);
    assert_eq!(stack("100 log"), vec!["2"]);
    assert_eq!(stack("1000 log10"), vec!["3"]);
    assert_eq!(stack("8 log2"), vec!["3"]);
    assert_eq!(stack("180 d_r r_d"), vec!["180"]);
    assert_eq!(stack("0 sin"), vec!["0"]);
    assert_eq!(stack("0 cos"), vec!["1"]);
}

#[test]
fn degree_conversion_aliases() {
    let r = single_float("180 dtor");
    assert!((r - std::f64::consts::PI).abs() < 1e-12);
    let d = single_float("pi rtod");
    assert!((d - 180.0).abs() < 1e-9);
}

#[test]
fn quadratic_roots() {
    // x^2 + 2x + 5: roots -1 +- 2i
    assert_eq!(stack("1 2 5 proot"), vec!["-1", "2", "-1", "-2"]);
    // real branch: -b + sqrt(disc)/(2a) and -b - sqrt(disc)/(2a)
    assert_eq!(stack("1 -3 2 proot"), vec!["3.5", "0", "2.5", "0"]);
}

#[test]
fn literals_are_kept_as_written() {
    assert_eq!(stack("5.0 -0 +7 1e3 inf NaN"), vec!["5.0", "-0", "+7", "1e3", "inf", "NaN"]);
}

#[test]
fn operands_are_handed_over_earliest_first() {
    let mut it = Interpreter::new();
    it.load(tokens("9 3 4 -"));
    assert!(matches!(it.step(), Ok(Step::Next)));
    assert!(matches!(it.step(), Ok(Step::Next)));
    assert!(matches!(it.step(), Ok(Step::Next)));
    match it.step() {
        Ok(Step::Compute(op, args)) => {
            assert_eq!(op, MathOp::Sub);
            assert_eq!(args, vec!["3", "4"]);
        }
        other => panic!("{other:?}"),
    }
    assert_eq!(it.stack, vec!["9"]);
    assert!(it.deliver(Ok(vec!["-1".to_string()])).is_ok());
    assert_eq!(it.stack, vec!["9", "-1"]);
    assert!(matches!(it.step(), Ok(Step::Done)));
}

#[test]
fn unreadable_operand_from_the_kernel_is_a_parse_failure() {
    let mut it = Interpreter::new();
    it.load(tokens("1 2"));
    assert!(matches!(it.step(), Ok(Step::Next)));
    match it.deliver(Err("oops".to_string())) {
        Err(EvalError::ParseFailure { token, expected }) => {
            assert_eq!(token, "oops");
            assert_eq!(expected, Numeric::Float);
        }
        other => panic!("{other:?}"),
    }
    assert_eq!(it.stack, vec!["1"]);
}

#[test]
fn fold_requeues_itself_until_one_value_remains() {
    let mut it = Interpreter::new();
    it.load(tokens("1 2 3 +_"));
    for _ in 0..3 {
        assert!(matches!(it.step(), Ok(Step::Next)));
    }
    match it.step() {
        Ok(Step::Compute(MathOp::Add, args)) => assert_eq!(args, vec!["1", "2"]),
        other => panic!("{other:?}"),
    }
    assert_eq!(it.ops.front().map(|s| s.as_str()), Some("+_"));
    assert_eq!(it.stack, vec!["3"]);
    // the answer of a round goes below the values still to be combined
    assert!(it.deliver(Ok(vec!["12".to_string()])).is_ok());
    assert_eq!(it.stack, vec!["12", "3"]);
    match it.step() {
        Ok(Step::Compute(MathOp::Add, args)) => assert_eq!(args, vec!["12", "3"]),
        other => panic!("{other:?}"),
    }
    assert!(it.deliver(Ok(vec!["15".to_string()])).is_ok());
    assert!(matches!(it.step(), Ok(Step::Next)));
    assert!(matches!(it.step(), Ok(Step::Done)));
    assert_eq!(it.stack, vec!["15"]);
}

#[test]
fn answers_after_a_fold_go_on_top() {
    assert_eq!(stack("2 3 +_ 4 5 -"), vec!["5", "-1"]);
    assert_eq!(stack("8 2 / 3 4 +_ 1 -"), vec!["10"]);
}
