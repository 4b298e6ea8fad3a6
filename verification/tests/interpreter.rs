use lisparse::unit::Text;
use lisparse::{
    cvt_to_nested_expression, expr2str, init_env, is_number, split_cmd_to_vec, Atomic, Builtin,
    Env, Eval, FloatUnit, LispType, Notice,
};

struct Ieee;

impl FloatUnit for Ieee {
    // The names by which contracts speak of what the methods below return;
    // nothing calls them.
    fn parse_of(&self, _text: Text) -> u64 {
        unreachable!()
    }

    fn render_of(&self, _x: u64) -> Text {
        unreachable!()
    }

    fn integer_of(&self, _n: i64) -> u64 {
        unreachable!()
    }

    fn sum_of(&self, _a: u64, _b: u64) -> u64 {
        unreachable!()
    }

    fn difference_of(&self, _a: u64, _b: u64) -> u64 {
        unreachable!()
    }

    fn product_of(&self, _a: u64, _b: u64) -> u64 {
        unreachable!()
    }

    fn quotient_of(&self, _a: u64, _b: u64) -> u64 {
        unreachable!()
    }

    fn larger_of(&self, _a: u64, _b: u64) -> u64 {
        unreachable!()
    }

    fn smaller_of(&self, _a: u64, _b: u64) -> u64 {
        unreachable!()
    }

    fn negated_of(&self, _a: u64) -> u64 {
        unreachable!()
    }

    fn magnitude_of(&self, _a: u64) -> u64 {
        unreachable!()
    }

    fn less_of(&self, _a: u64, _b: u64) -> bool {
        unreachable!()
    }

    fn at_most_of(&self, _a: u64, _b: u64) -> bool {
        unreachable!()
    }

    fn parse(&self, text: &str) -> u64 {
        text.parse::<f64>().unwrap().to_bits()
    }

    fn render(&self, x: u64) -> String {
        format!("{:?}", f64::from_bits(x))
    }

    fn from_integer(&self, n: i64) -> u64 {
        (n as f64).to_bits()
    }

    fn sum(&self, a: u64, b: u64) -> u64 {
        (f64::from_bits(a) + f64::from_bits(b)).to_bits()
    }

    fn difference(&self, a: u64, b: u64) -> u64 {
        (f64::from_bits(a) - f64::from_bits(b)).to_bits()
    }

    fn product(&self, a: u64, b: u64) -> u64 {
        (f64::from_bits(a) * f64::from_bits(b)).to_bits()
    }

    fn quotient(&self, a: u64, b: u64) -> u64 {
        (f64::from_bits(a) / f64::from_bits(b)).to_bits()
    }

    fn larger(&self, a: u64, b: u64) -> u64 {
        f64::from_bits(a).max(f64::from_bits(b)).to_bits()
    }

    fn smaller(&self, a: u64, b: u64) -> u64 {
        f64::from_bits(a).min(f64::from_bits(b)).to_bits()
    }

    fn negated(&self, a: u64) -> u64 {
        (-f64::from_bits(a)).to_bits()
    }

    fn magnitude(&self, a: u64) -> u64 {
        f64::from_bits(a).abs().to_bits()
    }

    fn less(&self, a: u64, b: u64) -> bool {
        f64::from_bits(a) < f64::from_bits(b)
    }

    fn at_most(&self, a: u64, b: u64) -> bool {
        f64::from_bits(a) <= f64::from_bits(b)
    }
}

const DEPTH: usize = 200;

fn run(cmd: &str, env: &mut Env) -> LispType {
    let mut journal: Vec<Notice> = Vec::new();
    Eval(cmd, env, &Ieee, &mut journal, DEPTH).unwrap()
}

fn run_noting(cmd: &str, env: &mut Env) -> (LispType, Vec<Notice>) {
    let mut journal: Vec<Notice> = Vec::new();
    let value = Eval(cmd, env, &Ieee, &mut journal, DEPTH).unwrap();
    (value, journal)
}

fn show(cmd: &str, env: &mut Env) -> String {
    let value = run(cmd, env);
    expr2str(&Ieee, &value)
}

fn float_of(value: LispType) -> f64 {
    match value {
        LispType::Atom(Atomic::Number(n)) => n as f64,
        LispType::Atom(Atomic::Float(x)) => f64::from_bits(x),
        other => panic!("not a number: {:?}", other),
    }
}

fn int_of(value: LispType) -> i64 {
    match value {
        LispType::Atom(Atomic::Number(n)) => n,
        other => panic!("not an integer: {:?}", other),
    }
}

fn number(n: i64) -> LispType {
    LispType::Atom(Atomic::Number(n))
}

fn float(x: f64) -> LispType {
    LispType::Atom(Atomic::Float(x.to_bits()))
}

fn symbol(name: &str) -> LispType {
    LispType::Atom(Atomic::Symbol(String::from(name)))
}

fn nil() -> LispType {
    LispType::Atom(Atomic::nil)
}

fn truth() -> LispType {
    LispType::Atom(Atomic::t)
}

fn strings(words: &[&str]) -> Vec<String> {
    words.iter().map(|w| String::from(*w)).collect()
}

#[test]
fn test_add() {
    let mut env = init_env();
    assert_eq!(run("(+ 1 2 3 4 5)", &mut env), LispType::Atom(Atomic::Number(15)));
    assert!((float_of(run("(+ 1.1 2.2 3.3 4.4 5.5)", &mut env)) - 16.5).abs() <= f64::EPSILON);
}

#[test]
fn test_minus() {
    let mut env = init_env();
    assert_eq!(run("(- 2 1)", &mut env), number(1));
    assert!((float_of(run("(- 2.2 1.3)", &mut env)) - 0.9).abs() <= f64::EPSILON);
    assert_eq!(run("(- 2)", &mut env), number(-2));
    assert!((float_of(run("(- 2.2)", &mut env)) + 2.2).abs() <= f64::EPSILON);
}

#[test]
fn test_mul() {
    let mut env = init_env();
    assert_eq!(int_of(run("(* 1234 2021)", &mut env)), 1234 * 2021);
    assert!(
        (float_of(run("(* 3.1415 -20.21)", &mut env)) + 3.1415 * 20.21).abs() <= f64::EPSILON
    );
    assert!((float_of(run("(* 3.14 12)", &mut env)) - 3.14 * 12.0).abs() <= f64::EPSILON);
}

#[test]
fn test_div() {
    let mut env = init_env();
    assert_eq!(float_of(run("(/ 1234 2021)", &mut env)), 1234.0 / 2021.0);
    assert!(
        (float_of(run("(/ 3.1415 -20.21)", &mut env)) + 3.1415 / 20.21).abs() <= f64::EPSILON
    );
    assert!((float_of(run("(/ 3.14 12)", &mut env)) - 3.14 / 12.0).abs() <= f64::EPSILON);
}

#[test]
fn test_cmp() {
    let mut env = init_env();
    assert_eq!(run("(> 3.123 453.123)", &mut env), LispType::Atom(Atomic::nil));
    assert_eq!(run("(>= 3.123 3.123)", &mut env), LispType::Atom(Atomic::t));
    assert_eq!(run("(< -31 -30)", &mut env), LispType::Atom(Atomic::t));
    assert_eq!(run("(<= -3.21 -33.9)", &mut env), LispType::Atom(Atomic::nil));
    assert_eq!(run("(/= 3.14 3.14)", &mut env), LispType::Atom(Atomic::nil));
}

#[test]
fn test_minmax() {
    let mut env = init_env();
    assert_eq!(int_of(run("(max 1 2)", &mut env)), 2);
    assert_eq!(int_of(run("(min -3 -1)", &mut env)), -3);
    assert!(
        (float_of(run("(max (min -3.14 2.8) (max 11.2 19.8))", &mut env)) - 19.8).abs()
            <= f64::EPSILON
    );
}

#[test]
fn test_begin() {
    let mut env = init_env();
    assert!(
        (float_of(run("(begin (+ 3 1) (- 3.14 5) (max 10.1 9.8))", &mut env)) - 10.1).abs()
            <= f64::EPSILON
    );
}

#[test]
fn test_abs() {
    let mut env = init_env();
    assert_eq!(int_of(run("(abs -11)", &mut env)), 11);
    assert!((float_of(run("(abs -3.1415)", &mut env)) - 3.1415).abs() <= f64::EPSILON);
}

#[test]
fn test_map() {
    let mut env = init_env();
    assert_eq!(show("(map + '(1 2 3) '(4 5 6) '(7 8 9))", &mut env), String::from("(12 15 18)"));
}

#[test]
fn test_apply_and_define() {
    let mut env = init_env();
    run("(define E 2.7)", &mut env);
    assert!(
        (float_of(run("(apply + -1 E PI '(10 20.5))", &mut env)) - 35.34159265358979).abs()
            <= f64::EPSILON
    );
}

#[test]
fn test_car_cdr_if_list() {
    let mut env = init_env();
    run("(define E 2.7)", &mut env);
    assert!(
        (float_of(run(
            "(if (> 10.1 10.0) (car (list E PI)) (cdr (list E PI (* E PI))))",
            &mut env
        )) - 2.7)
            .abs()
            <= f64::EPSILON
    );
    assert_eq!(
        show("(if (< 10.1 10.0) (car (list E PI)) (cdr (list E PI (* E PI))))", &mut env),
        "(3.141592653589793 8.482300164692441)"
    );
}

#[test]
fn test_append() {
    let mut env = init_env();
    run("(define r 10)", &mut env);
    assert_eq!(show("(append '(2.1 2.2) (list r (* r r)))", &mut env), "(2.1 2.2 10 100)");
}

#[test]
fn test_cons() {
    let mut env = init_env();
    run("(define E 2.7)", &mut env);
    assert_eq!(show("(cons 3.14 E)", &mut env), "(3.14 2.7)");
    assert_eq!(show("(cons 3.14 '(10 1.2))", &mut env), "(3.14 10 1.2)");
    assert_eq!(show("(cons 3.14 (cons E (cons 1 nil)))", &mut env), "(3.14 2.7 1)");
}

#[test]
fn tokens_of_a_plain_form() {
    assert_eq!(split_cmd_to_vec("(+ 1 2)"), strings(&["(", "+", "1", "2", ")"]));
    assert_eq!(split_cmd_to_vec("  ( +\t1\n2 )  "), strings(&["(", "+", "1", "2", ")"]));
    assert_eq!(split_cmd_to_vec(""), Vec::<String>::new());
}

#[test]
fn tokens_of_quoted_forms() {
    assert_eq!(split_cmd_to_vec("'x"), strings(&["(", "quote", "x", ")"]));
    assert_eq!(
        split_cmd_to_vec("'(1 2)"),
        strings(&["(", "quote", "(", "1", "2", ")", ")"])
    );
    assert_eq!(
        split_cmd_to_vec("(car '(a (b)))"),
        strings(&["(", "car", "(", "quote", "(", "a", "(", "b", ")", ")", ")", ")"])
    );
}

#[test]
fn a_bracket_that_closes_nothing_is_dropped() {
    assert_eq!(split_cmd_to_vec("a ) b"), strings(&["a", "b"]));
}

#[test]
fn kinds_of_tokens() {
    assert_eq!(is_number(&String::from("12")), 1);
    assert_eq!(is_number(&String::from("-12")), 1);
    assert_eq!(is_number(&String::from("+12")), 2);
    assert_eq!(is_number(&String::from("3.14")), 2);
    assert_eq!(is_number(&String::from("-.5")), 2);
    assert_eq!(is_number(&String::from("5.")), 0);
    assert_eq!(is_number(&String::from("abc")), 0);
    assert_eq!(is_number(&String::from("-")), 0);
    assert_eq!(is_number(&String::from("")), 0);
    assert_eq!(is_number(&String::from("1e5")), 0);
}

#[test]
fn reading_nested_lists() {
    let tokens = split_cmd_to_vec("(a (b 1) nil t 2.5)");
    let mut idx = 0;
    let form = cvt_to_nested_expression(&Ieee, &tokens, &mut idx, 0);
    assert_eq!(idx, tokens.len());
    assert_eq!(
        form,
        LispType::List(vec![
            symbol("a"),
            LispType::List(vec![symbol("b"), number(1)]),
            nil(),
            truth(),
            float(2.5),
        ])
    );
}

#[test]
fn reading_stops_after_a_closing_bracket() {
    let tokens = strings(&["1", ")", "2"]);
    let mut idx = 0;
    let form = cvt_to_nested_expression(&Ieee, &tokens, &mut idx, 1);
    assert_eq!(form, LispType::List(vec![number(1)]));
    assert_eq!(idx, 2);
}

#[test]
fn reading_at_depth_zero_gives_the_last_form() {
    let tokens = strings(&["1", "2"]);
    let mut idx = 0;
    assert_eq!(cvt_to_nested_expression(&Ieee, &tokens, &mut idx, 0), number(2));
    let none: Vec<String> = Vec::new();
    let mut idx = 0;
    assert_eq!(cvt_to_nested_expression(&Ieee, &none, &mut idx, 0), LispType::List(vec![]));
}

#[test]
fn an_integer_too_large_to_hold_is_a_symbol() {
    let mut env = init_env();
    let (value, journal) = run_noting("99999999999999999999", &mut env);
    assert_eq!(value, nil());
    assert_eq!(journal, vec![Notice::Undefined(String::from("99999999999999999999"))]);
    assert_eq!(run("9223372036854775807", &mut env), number(i64::MAX));
    assert_eq!(run("-9223372036854775808", &mut env), number(i64::MIN));
}

#[test]
fn printed_forms() {
    assert_eq!(expr2str(&Ieee, &number(0)), "0");
    assert_eq!(expr2str(&Ieee, &number(-120)), "-120");
    assert_eq!(expr2str(&Ieee, &number(i64::MIN)), "-9223372036854775808");
    assert_eq!(expr2str(&Ieee, &float(10.0)), "10.0");
    assert_eq!(expr2str(&Ieee, &symbol("abc")), "abc");
    assert_eq!(expr2str(&Ieee, &nil()), "nil");
    assert_eq!(expr2str(&Ieee, &truth()), "t");
    assert_eq!(expr2str(&Ieee, &LispType::List(vec![])), "()");
    assert_eq!(
        expr2str(&Ieee, &LispType::List(vec![number(1), LispType::List(vec![symbol("a")])])),
        "(1 (a))"
    );
}

#[test]
fn integers_wrap_around() {
    let mut env = init_env();
    assert_eq!(run("(+ 9223372036854775807 1)", &mut env), number(i64::MIN));
    assert_eq!(run("(* 4611686018427387904 4)", &mut env), number(0));
    assert_eq!(run("(- -9223372036854775808)", &mut env), number(i64::MIN));
    assert_eq!(run("(abs -9223372036854775808)", &mut env), number(i64::MIN));
}

#[test]
fn sums_and_products_of_nothing() {
    let mut env = init_env();
    assert_eq!(run("(+)", &mut env), number(0));
    assert_eq!(run("(*)", &mut env), number(1));
}

#[test]
fn the_result_is_a_float_if_an_operand_is() {
    let mut env = init_env();
    assert_eq!(run("(+ 1 2.5)", &mut env), float(3.5));
    assert_eq!(run("(* 2 2.5)", &mut env), float(5.0));
    assert_eq!(run("(- 1 2.5)", &mut env), float(-1.5));
    assert_eq!(run("(- 2.5 1)", &mut env), float(1.5));
    assert_eq!(run("(max 1 2.5)", &mut env), float(2.5));
    assert_eq!(run("(min 1 2.5)", &mut env), float(1.0));
    assert_eq!(run("(+ 1 2)", &mut env), number(3));
    assert_eq!(run("(max 1 2 3)", &mut env), number(3));
    assert_eq!(run("(min 1 2 3)", &mut env), number(1));
}

#[test]
fn division_gives_a_float() {
    let mut env = init_env();
    assert_eq!(run("(/ 4 2)", &mut env), float(2.0));
    assert_eq!(run("(/ 1 0)", &mut env), float(f64::INFINITY));
}

#[test]
fn comparison_with_tolerance() {
    let mut env = init_env();
    assert_eq!(run("(= 3.14 3.14)", &mut env), truth());
    assert_eq!(run("(/= 3.14 3.14)", &mut env), nil());
    assert_eq!(run("(= 1 1.0)", &mut env), truth());
    assert_eq!(run("(> 2 1)", &mut env), truth());
    assert_eq!(run("(>= 1 2)", &mut env), nil());
    assert_eq!(run("(<= 2 2)", &mut env), truth());
    assert_eq!(run("(= 9007199254740993 9007199254740992)", &mut env), nil());
    assert_eq!(run("(/= 1 2)", &mut env), truth());
}

#[test]
fn operands_that_are_not_numbers_are_reported() {
    let mut env = init_env();
    let (value, journal) = run_noting("(+ 1 'a 2 nil)", &mut env);
    assert_eq!(value, number(3));
    assert_eq!(journal, vec![Notice::Operand, Notice::Operand]);
    let (value, journal) = run_noting("(- 5 'a)", &mut env);
    assert_eq!(value, number(6));
    assert_eq!(journal, vec![Notice::Operand]);
    let (value, journal) = run_noting("(- 'a 5)", &mut env);
    assert_eq!(value, nil());
    assert_eq!(journal, vec![Notice::Operand]);
    let (value, journal) = run_noting("(> 1 'a)", &mut env);
    assert_eq!(value, truth());
    assert_eq!(journal, vec![Notice::Operand]);
    let (value, journal) = run_noting("(/ 1)", &mut env);
    assert_eq!(value, nil());
    assert_eq!(journal, vec![Notice::Operand]);
    let (value, journal) = run_noting("(max 1 'a 2)", &mut env);
    assert_eq!(value, nil());
    assert_eq!(journal, vec![Notice::Operand, Notice::Operand]);
    let (value, journal) = run_noting("(max 1)", &mut env);
    assert_eq!(value, nil());
    assert_eq!(journal, vec![Notice::Operand]);
    let (value, journal) = run_noting("(abs 'a)", &mut env);
    assert_eq!(value, nil());
    assert_eq!(journal, vec![Notice::Operand]);
}

#[test]
fn quote_gives_the_form_as_it_stands() {
    let mut env = init_env();
    assert_eq!(show("(quote (a b c))", &mut env), "(a b c)");
    assert_eq!(show("'(a (b c) 1)", &mut env), "(a (b c) 1)");
    assert_eq!(run("'a", &mut env), symbol("a"));
    let (_, journal) = run_noting("(quote (a b c))", &mut env);
    assert_eq!(journal, Vec::<Notice>::new());
}

#[test]
fn closures_see_the_scope_they_were_made_in() {
    let mut env = init_env();
    run("(define make-adder (lambda (x) (lambda (y) (+ x y))))", &mut env);
    assert_eq!(run("((make-adder 3) 4)", &mut env), number(7));
    run("(define add3 (make-adder 3))", &mut env);
    run("(define x 100)", &mut env);
    assert_eq!(run("(add3 4)", &mut env), number(7));
}

#[test]
fn set_reaches_the_scope_that_binds_the_name() {
    let mut env = init_env();
    run("(define counter 0)", &mut env);
    run("(define bump (lambda (n) (set! counter (+ counter n))))", &mut env);
    run("(bump 5)", &mut env);
    run("(bump 2)", &mut env);
    assert_eq!(run("counter", &mut env), number(7));
    let (value, journal) = run_noting("(set! nowhere 1)", &mut env);
    assert_eq!(value, nil());
    assert_eq!(journal, vec![Notice::UndefinedAssignment]);
}

#[test]
fn a_closure_keeps_its_own_state() {
    let mut env = init_env();
    run(
        "(define make-counter (lambda (n) (lambda (k) (begin (set! n (+ n k)) n))))",
        &mut env,
    );
    run("(define c (make-counter 10))", &mut env);
    assert_eq!(run("(c 1)", &mut env), number(11));
    assert_eq!(run("(c 5)", &mut env), number(16));
    run("(define d (make-counter 0))", &mut env);
    assert_eq!(run("(d 1)", &mut env), number(1));
    assert_eq!(run("(c 0)", &mut env), number(16));
}

#[test]
fn scopes_of_finished_calls_are_dropped() {
    let mut env = init_env();
    run("(define twice (lambda (x) (* 2 x)))", &mut env);
    let before = env.len();
    assert_eq!(run("(twice (twice 5))", &mut env), number(20));
    assert_eq!(env.len(), before);
    run("(define make-adder (lambda (x) (lambda (y) (+ x y))))", &mut env);
    run("(define add3 (make-adder 3))", &mut env);
    assert_eq!(env.len(), before + 1);
}

#[test]
fn recursion_within_the_bound() {
    let mut env = init_env();
    run(
        "(define fact (lambda (n) (if (< n 2) 1 (* n (fact (- n 1))))))",
        &mut env,
    );
    assert_eq!(run("(fact 10)", &mut env), number(3628800));
    let mut journal: Vec<Notice> = Vec::new();
    assert_eq!(Eval("(fact 10)", &mut env, &Ieee, &mut journal, 10), Some(number(3628800)));
    assert_eq!(Eval("(fact 10)", &mut env, &Ieee, &mut journal, 9), None);
    run("(define loop (lambda (n) (loop n)))", &mut env);
    assert_eq!(Eval("(loop 1)", &mut env, &Ieee, &mut journal, 50), None);
    assert_eq!(run("(+ 1 1)", &mut env), number(2));
}

#[test]
fn redefinition_is_rejected() {
    let mut env = init_env();
    run("(define E 2.7)", &mut env);
    let (value, journal) = run_noting("(define E 99)", &mut env);
    assert_eq!(value, nil());
    assert_eq!(journal, vec![Notice::Redefinition(String::from("E"))]);
    assert_eq!(run("E", &mut env), float(2.7));
}

#[test]
fn a_parameter_may_hide_an_outer_binding() {
    let mut env = init_env();
    run("(define x 1)", &mut env);
    run("(define f (lambda (x) (begin (define y 2) (+ x y))))", &mut env);
    assert_eq!(run("(f 10)", &mut env), number(12));
    assert_eq!(run("x", &mut env), number(1));
    let (value, journal) = run_noting("y", &mut env);
    assert_eq!(value, nil());
    assert_eq!(journal, vec![Notice::Undefined(String::from("y"))]);
}

#[test]
fn if_takes_the_first_branch_for_anything_but_nil() {
    let mut env = init_env();
    assert_eq!(run("(if t 1 2)", &mut env), number(1));
    assert_eq!(run("(if nil 1 2)", &mut env), number(2));
    assert_eq!(run("(if 0 1 2)", &mut env), number(1));
    assert_eq!(run("(if 'a 1 2)", &mut env), number(1));
    assert_eq!(run("(if '(1) 1 2)", &mut env), number(1));
    assert_eq!(run("(if () 1 2)", &mut env), number(2));
    assert_eq!(run("(if (car '()) 1 2)", &mut env), number(2));
    let (value, journal) = run_noting("(if t 1)", &mut env);
    assert_eq!(value, nil());
    assert_eq!(journal, vec![Notice::Malformed]);
}

#[test]
fn malformed_forms_are_reported() {
    let mut env = init_env();
    assert_eq!(run_noting("(define 1 2)", &mut env), (nil(), vec![Notice::InvalidName]));
    assert_eq!(run_noting("(set! 1 2)", &mut env), (nil(), vec![Notice::InvalidName]));
    assert_eq!(run_noting("(define x)", &mut env), (nil(), vec![Notice::Malformed]));
    assert_eq!(run_noting("(lambda (x 1) x)", &mut env), (nil(), vec![Notice::InvalidParameter]));
    assert_eq!(run_noting("(lambda x x)", &mut env), (nil(), vec![Notice::LambdaSyntax]));
    assert_eq!(run_noting("(lambda (x))", &mut env), (nil(), vec![Notice::Malformed]));
    assert_eq!(run_noting("(quote)", &mut env), (nil(), vec![Notice::Malformed]));
    assert_eq!(run_noting("('foo 1)", &mut env), (nil(), vec![Notice::UndefinedKeyword]));
    assert_eq!(
        run_noting("(nothing 1)", &mut env),
        (nil(), vec![Notice::Undefined(String::from("nothing"))])
    );
    run("(define f (lambda (x) x))", &mut env);
    assert_eq!(run_noting("(f 1 2)", &mut env), (nil(), vec![Notice::ArityMismatch]));
    assert_eq!(run_noting("(f)", &mut env), (nil(), vec![Notice::ArityMismatch]));
}

#[test]
fn a_repeated_parameter_is_reported() {
    let mut env = init_env();
    run("(define f (lambda (x x) x))", &mut env);
    assert_eq!(
        run_noting("(f 1 2)", &mut env),
        (number(1), vec![Notice::Redefinition(String::from("x"))])
    );
}

#[test]
fn write_puts_out_a_symbol() {
    let mut env = init_env();
    assert_eq!(
        run_noting("(write hello)", &mut env),
        (nil(), vec![Notice::Written(String::from("hello"))])
    );
    assert_eq!(run_noting("(write 1)", &mut env), (nil(), vec![]));
}

#[test]
fn empty_list_and_plain_heads() {
    let mut env = init_env();
    assert_eq!(run("()", &mut env), nil());
    assert_eq!(run("(1 2 3)", &mut env), number(1));
    assert_eq!(run("(nil 2 3)", &mut env), nil());
    assert_eq!(run("", &mut env), nil());
}

#[test]
fn list_builtins() {
    let mut env = init_env();
    assert_eq!(show("(list 1 2 (list 3))", &mut env), "(1 2 (3))");
    assert_eq!(show("(list)", &mut env), "()");
    assert_eq!(show("(cons 1 nil)", &mut env), "(1)");
    assert_eq!(show("(cons 1 2)", &mut env), "(1 2)");
    assert_eq!(show("(cons 1 '(2 3))", &mut env), "(1 2 3)");
    assert_eq!(show("(cons '(1) '(2 3))", &mut env), "((1) 2 3)");
    assert_eq!(run("(cons 1)", &mut env), nil());
    assert_eq!(run("(car '(1 2 3))", &mut env), number(1));
    assert_eq!(show("(cdr '(1 2 3))", &mut env), "(2 3)");
    assert_eq!(show("(cdr '(1))", &mut env), "()");
    assert_eq!(run("(car 5)", &mut env), nil());
    assert_eq!(run("(cdr 5)", &mut env), nil());
    assert_eq!(run("(car '())", &mut env), nil());
    assert_eq!(run("(cdr '())", &mut env), nil());
    assert_eq!(run("(begin 1 2 3)", &mut env), number(3));
    assert_eq!(run("(begin)", &mut env), nil());
}

#[test]
fn append_skips_what_is_not_a_list() {
    let mut env = init_env();
    let mut journal: Vec<Notice> = Vec::new();
    let value = Eval("(append '(1) 2 '(3 (4)) nil)", &mut env, &Ieee, &mut journal, DEPTH).unwrap();
    assert_eq!(expr2str(&Ieee, &value), "(1 3 (4))");
    assert_eq!(journal, vec![Notice::AppendList, Notice::AppendList]);
    assert_eq!(show("(append)", &mut env), "()");
}

#[test]
fn map_checks_its_operands() {
    let mut env = init_env();
    assert_eq!(run_noting("(map 1 '(1))", &mut env), (nil(), vec![Notice::MapFunction]));
    assert_eq!(run_noting("(map + 1)", &mut env), (nil(), vec![Notice::MapList]));
    assert_eq!(run_noting("(map +)", &mut env), (nil(), vec![Notice::MapList]));
    assert_eq!(run_noting("(map + '(1 2) '(1))", &mut env), (nil(), vec![Notice::MapSize]));
    assert_eq!(run_noting("(map + '(1 2) 3)", &mut env), (nil(), vec![Notice::MapList]));
    run("(define f (lambda (x) x))", &mut env);
    assert_eq!(run_noting("(map f '(1 2))", &mut env), (nil(), vec![Notice::MapFunction]));
    assert_eq!(show("(map - '(1 2 3))", &mut env), "(-1 -2 -3)");
    assert_eq!(show("(map + '())", &mut env), "()");
    assert_eq!(show("(map list '(1 2) '(a b))", &mut env), "((1 a) (2 b))");
    let (value, journal) = run_noting("(map + '(1 a) '(b 2))", &mut env);
    assert_eq!(expr2str(&Ieee, &value), "(1 2)");
    assert_eq!(journal, vec![Notice::Operand, Notice::Operand]);
}

#[test]
fn apply_spreads_its_last_operand() {
    let mut env = init_env();
    assert_eq!(run("(apply + '(1 2 3))", &mut env), number(6));
    assert_eq!(run("(apply + 1 2 '(3 4))", &mut env), number(10));
    assert_eq!(run("(apply max 1 '(5 3))", &mut env), number(5));
    assert_eq!(run("(apply apply (list + (list 1 2)))", &mut env), number(3));
    assert_eq!(show("(apply map (list + '(1 2) '(10 20)))", &mut env), "(11 22)");
    assert_eq!(run_noting("(apply 1 '(1))", &mut env), (nil(), vec![Notice::ApplyFunction]));
    assert_eq!(run_noting("(apply + 1)", &mut env), (nil(), vec![Notice::ApplyList]));
    assert_eq!(run_noting("(apply +)", &mut env), (nil(), vec![Notice::ApplyList]));
}

#[test]
fn the_session_starts_with_pi_and_the_builtins() {
    let mut env = init_env();
    assert_eq!(run("PI", &mut env), float(std::f64::consts::PI));
    assert_eq!(run("+", &mut env), LispType::Atom(Atomic::Fun(Builtin::Add)));
    assert_eq!(run("map", &mut env), LispType::Atom(Atomic::Fun(Builtin::MapEach)));
    assert_eq!(run("if", &mut env), symbol("if"));
    assert_eq!(env.len(), 1);
    assert_eq!(env.current(), 0);
}

#[test]
fn a_keyword_may_be_reached_under_another_name() {
    let mut env = init_env();
    run("(define when 'if)", &mut env);
    assert_eq!(run("(when t 1 2)", &mut env), number(1));
}

#[test]
fn environment_by_hand() {
    let mut env = Env::new();
    let x = String::from("x");
    assert!(env.lookup_symbol(&x).is_none());
    assert!(env.add_symbol(&x, &number(1)));
    assert!(!env.add_symbol(&x, &number(2)));
    assert_eq!(env.lookup_symbol(&x), Some(number(1)));
    assert!(env.set_symbol(&x, &number(3)));
    assert_eq!(env.lookup_symbol(&x), Some(number(3)));
    assert!(!env.set_symbol(&String::from("y"), &number(3)));
    let frame = env.enter(0);
    assert_eq!(frame, 1);
    assert_eq!(env.lookup_symbol(&x), Some(number(3)));
    assert!(env.add_symbol(&x, &number(10)));
    assert_eq!(env.lookup_symbol(&x), Some(number(10)));
    assert!(env.set_symbol(&x, &number(11)));
    env.leave(frame, 0);
    assert_eq!(env.len(), 1);
    assert_eq!(env.lookup_symbol(&x), Some(number(3)));
}

#[test]
fn builtins_called_directly() {
    let mut journal: Vec<Notice> = Vec::new();
    assert_eq!(lisparse::add(&Ieee, vec![number(1), number(2)], &mut journal), number(3));
    assert_eq!(lisparse::mul(&Ieee, vec![number(3), number(4)], &mut journal), number(12));
    assert_eq!(lisparse::minus(&Ieee, vec![number(3), number(4)], &mut journal), number(-1));
    assert_eq!(lisparse::div(&Ieee, vec![number(3), number(4)], &mut journal), float(0.75));
    assert_eq!(lisparse::abs(&Ieee, vec![number(-3)], &mut journal), number(3));
    assert_eq!(lisparse::max(&Ieee, vec![number(3), number(4)], &mut journal), number(4));
    assert_eq!(lisparse::min(&Ieee, vec![number(3), number(4)], &mut journal), number(3));
    assert_eq!(lisparse::_max(&Ieee, &number(3), &float(3.5), &mut journal), float(3.5));
    assert_eq!(lisparse::_min(&Ieee, &number(3), &float(3.5), &mut journal), float(3.0));
    assert_eq!(lisparse::gt(&Ieee, vec![number(3), number(4)], &mut journal), nil());
    assert_eq!(lisparse::ge(&Ieee, vec![number(4), number(4)], &mut journal), truth());
    assert_eq!(lisparse::lt(&Ieee, vec![number(3), number(4)], &mut journal), truth());
    assert_eq!(lisparse::le(&Ieee, vec![float(4.5), number(4)], &mut journal), nil());
    assert_eq!(lisparse::eq(&Ieee, vec![float(4.0), number(4)], &mut journal), truth());
    assert_eq!(lisparse::neq(&Ieee, vec![float(4.0), number(4)], &mut journal), nil());
    assert_eq!(lisparse::begin(vec![number(1), number(2)]), number(2));
    assert_eq!(lisparse::list_(vec![number(1)]), LispType::List(vec![number(1)]));
    assert_eq!(lisparse::cons(vec![number(1), nil()]), LispType::List(vec![number(1)]));
    assert_eq!(lisparse::car(vec![LispType::List(vec![number(1), number(2)])]), number(1));
    assert_eq!(
        lisparse::cdr(vec![LispType::List(vec![number(1), number(2)])]),
        LispType::List(vec![number(2)])
    );
    assert_eq!(
        lisparse::append(
            vec![LispType::List(vec![number(1)]), LispType::List(vec![number(2)])],
            &mut journal
        ),
        LispType::List(vec![number(1), number(2)])
    );
    let plus = LispType::Atom(Atomic::Fun(Builtin::Add));
    assert_eq!(
        lisparse::apply(
            &Ieee,
            vec![plus.clone(), number(1), LispType::List(vec![number(2), number(3)])],
            &mut journal
        ),
        number(6)
    );
    assert_eq!(
        lisparse::builtins::map(
            &Ieee,
            vec![
                plus,
                LispType::List(vec![number(1), number(2)]),
                LispType::List(vec![number(10), number(20)]),
            ],
            &mut journal
        ),
        LispType::List(vec![number(11), number(22)])
    );
    assert_eq!(
        lisparse::call(&Ieee, Builtin::Car, vec![LispType::List(vec![number(7)])], &mut journal),
        number(7)
    );
    assert_eq!(journal, Vec::<Notice>::new());
}

#[test]
fn not_a_number_compares_as_unequal_only() {
    let nan = float(f64::NAN);
    let mut journal: Vec<Notice> = Vec::new();
    assert_eq!(lisparse::gt(&Ieee, vec![nan.clone(), number(1)], &mut journal), nil());
    assert_eq!(lisparse::ge(&Ieee, vec![nan.clone(), number(1)], &mut journal), nil());
    assert_eq!(lisparse::lt(&Ieee, vec![nan.clone(), number(1)], &mut journal), nil());
    assert_eq!(lisparse::le(&Ieee, vec![nan.clone(), number(1)], &mut journal), nil());
    assert_eq!(lisparse::eq(&Ieee, vec![nan.clone(), nan.clone()], &mut journal), nil());
    assert_eq!(lisparse::neq(&Ieee, vec![nan.clone(), nan], &mut journal), truth());
}

#[test]
fn evaluating_a_form_built_by_hand() {
    let mut env = init_env();
    let mut journal: Vec<Notice> = Vec::new();
    let form = LispType::List(vec![symbol("+"), number(1), LispType::List(vec![symbol("*"), number(2), number(3)])]);
    assert_eq!(lisparse::eval(&form, &mut env, &Ieee, &mut journal, 0), Some(number(7)));
    assert_eq!(lisparse::eval(&number(5), &mut env, &Ieee, &mut journal, 0), Some(number(5)));
    assert_eq!(lisparse::eval(&LispType::List(vec![]), &mut env, &Ieee, &mut journal, 0), Some(nil()));
    run("(define id (lambda (x) x))", &mut env);
    let call = LispType::List(vec![symbol("id"), number(1)]);
    assert_eq!(lisparse::eval(&call, &mut env, &Ieee, &mut journal, 0), None);
    assert_eq!(lisparse::eval(&call, &mut env, &Ieee, &mut journal, 1), Some(number(1)));
}

#[test]
fn words_of_the_reports() {
    assert_eq!(Notice::Undefined(String::from("x")).message(), "x is not defined!");
    assert_eq!(
        Notice::Redefinition(String::from("x")).message(),
        "You can't define a symbol twice:x"
    );
    assert_eq!(
        Notice::UndefinedAssignment.message(),
        "Assigning to a undefined symbol is not allowed"
    );
    assert_eq!(Notice::InvalidName.message(), "Not a valid symbol name!");
    assert_eq!(Notice::UndefinedKeyword.message(), "Undefined keywords!");
    assert_eq!(Notice::ArityMismatch.message(), "Unmatched arguments with parameters");
    assert_eq!(Notice::Written(String::from("out")).message(), "out");
    assert!(Notice::Written(String::from("out")).is_output());
    assert!(!Notice::Operand.is_output());
}

#[test]
fn a_copy_is_equal_to_the_value() {
    let mut env = init_env();
    let value = run("(lambda (x y) (list x '(1 2.5 z) y))", &mut env);
    assert_eq!(value.copy(), value);
    assert_eq!(value.clone(), value);
    match value {
        LispType::Atom(Atomic::Proc(p)) => {
            assert_eq!(p.params, vec![String::from("x"), String::from("y")]);
            assert_eq!(p.scope, 0);
        }
        other => panic!("not a procedure: {:?}", other),
    }
}

#[test]
fn white_space_at_the_ends_is_dropped() {
    assert_eq!(split_cmd_to_vec("\u{a0}\u{b}(+ 1 2)\u{3000} "), strings(&["(", "+", "1", "2", ")"]));
    assert_eq!(split_cmd_to_vec(" \t\n"), Vec::<String>::new());
    assert_eq!(split_cmd_to_vec("a\u{a0}b c"), strings(&["a\u{a0}b", "c"]));
    assert_eq!(split_cmd_to_vec("a(b )c)(d"), strings(&["a", "(", "b", ")", "c", "(", "d"]));
}

#[test]
fn every_bracket_stands_alone() {
    assert_eq!(
        split_cmd_to_vec("(f (a)(b))"),
        strings(&["(", "f", "(", "a", ")", "(", "b", ")", ")"])
    );
    assert_eq!(split_cmd_to_vec("(a)b"), strings(&["(", "a", ")", "b"]));
    assert_eq!(split_cmd_to_vec("a(b)"), strings(&["a", "(", "b", ")"]));
    assert_eq!(
        split_cmd_to_vec("(car'(1 2))"),
        strings(&["(", "car", "(", "quote", "(", "1", "2", ")", ")", ")"])
    );
    assert_eq!(
        split_cmd_to_vec("('a'(b))"),
        strings(&["(", "(", "quote", "a", ")", "(", "quote", "(", "b", ")", ")", ")"])
    );
    let mut env = init_env();
    assert_eq!(run("(car'(1 2))", &mut env), number(1));
    assert_eq!(run("(+(* 2 3)(- 5 1))", &mut env), number(10));
}

#[test]
fn a_float_prints_with_a_point_or_an_exponent() {
    assert_eq!(lisparse::printer::complete(String::from("10")), "10.0");
    assert_eq!(lisparse::printer::complete(String::from("10.5")), "10.5");
    assert_eq!(lisparse::printer::complete(String::from("1e300")), "1e300");
    assert_eq!(lisparse::printer::complete(String::from("1E5")), "1E5");
    assert_eq!(expr2str(&Ieee, &float(2.0)), "2.0");
    assert_eq!(expr2str(&Ieee, &float(1e300)), "1e300");
    assert_eq!(expr2str(&Ieee, &float(-0.5)), "-0.5");
}

#[test]
fn unequal_is_the_contrary_of_equal() {
    let mut env = init_env();
    for pair in ["1 1", "1 2", "3.14 3.14", "3.14 3.15", "2 2.0", "2.5 2", "1 'a", "1.5 'a"] {
        let equal = run(&format!("(= {})", pair), &mut env);
        let unequal = run(&format!("(/= {})", pair), &mut env);
        assert!(equal == truth() || equal == nil());
        assert_eq!(unequal == truth(), equal == nil());
        assert_eq!(unequal == nil(), equal == truth());
    }
}

#[test]
fn extremes_may_be_taken_two_at_a_time() {
    let mut env = init_env();
    assert_eq!(run("(max 3 9 5)", &mut env), number(9));
    assert_eq!(run("(max (max 3 9) 5)", &mut env), number(9));
    assert_eq!(run("(max 3 (max 9 5))", &mut env), number(9));
    assert_eq!(run("(min 3 9 -5)", &mut env), number(-5));
    assert_eq!(run("(min (min 3 9) -5)", &mut env), number(-5));
    assert_eq!(run("(min 3 (min 9 -5))", &mut env), number(-5));
    assert_eq!(run("(max 3 9.5 5)", &mut env), float(9.5));
    assert_eq!(run("(max (max 3 9.5) 5)", &mut env), float(9.5));
    assert_eq!(run("(max 3 (max 9.5 5))", &mut env), float(9.5));
}

#[test]
fn balanced_brackets_give_balanced_tokens() {
    for line in ["(a)b", "(f (a)(b))", "'(1 (2) 3)", "((lambda (x) x)'(1))", "a", ""] {
        let mut open: i64 = 0;
        for token in split_cmd_to_vec(line) {
            if token == "(" {
                open += 1;
            } else if token == ")" {
                open -= 1;
            } else {
                assert!(!token.contains('(') && !token.contains(')'));
            }
            assert!(open >= 0);
        }
        assert_eq!(open, 0);
    }
}
