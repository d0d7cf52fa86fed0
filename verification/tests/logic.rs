use comfy_executor::logic::{
    choose_branch, eval_pure, loop_count, noise_seed, parse_pure_function, replace_all,
    select_input, Arg, PureFunction, PureValue,
};

fn s(x: &str) -> Arg {
    Arg::Str(x.to_string())
}

fn text(x: &str) -> Option<PureValue> {
    Some(PureValue::Str(x.to_string()))
}

#[test]
fn branches_and_switches() {
    assert_eq!(choose_branch(None, 1, 2), 1);
    assert_eq!(choose_branch(Some(true), 1, 2), 1);
    assert_eq!(choose_branch(Some(false), 1, 2), 2);
    let four = || vec!["a", "b", "c", "d"];
    assert_eq!(select_input(Some(7), four()), "d");
    assert_eq!(select_input(Some(-1), four()), "a");
    assert_eq!(select_input(None, four()), "a");
    assert_eq!(select_input(Some(2), four()), "c");
    assert_eq!(loop_count(None), 1);
    assert_eq!(loop_count(Some(0)), 1);
    assert_eq!(loop_count(Some(5000)), 1000);
    assert_eq!(loop_count(Some(7)), 7);
}

#[test]
fn function_names() {
    assert_eq!(parse_pure_function("math_add"), PureFunction::MathAdd);
    assert_eq!(parse_pure_function("string_replace"), PureFunction::StringReplace);
    assert_eq!(parse_pure_function("float_to_int"), PureFunction::FloatToInt);
    assert_eq!(parse_pure_function("Math_Add"), PureFunction::Unknown);
    assert_eq!(parse_pure_function(""), PureFunction::Unknown);
}

#[test]
fn string_functions() {
    let concat = PureFunction::StringConcat;
    assert_eq!(eval_pure(concat, &vec![s("a"), Arg::Int(1), s("b")]), text("ab"));
    assert_eq!(eval_pure(concat, &vec![]), text(""));
    let join = PureFunction::StringJoin;
    assert_eq!(eval_pure(join, &vec![s("-"), s("x"), Arg::Other, s("y")]), text("x-y"));
    assert_eq!(eval_pure(join, &vec![Arg::Int(5), s("a"), s("b")]), text("a,b"));
    assert_eq!(eval_pure(join, &vec![]), text(""));
    assert_eq!(
        eval_pure(PureFunction::StringLength, &vec![s("h\u{e9}llo")]),
        Some(PureValue::Int(6))
    );
    assert_eq!(eval_pure(PureFunction::StringLength, &vec![]), Some(PureValue::Int(0)));
    assert_eq!(eval_pure(PureFunction::StringUpper, &vec![s("abc")]), text("ABC"));
    assert_eq!(eval_pure(PureFunction::StringLower, &vec![s("\u{c0}B")]), text("\u{e0}b"));
    let rep = PureFunction::StringReplace;
    assert_eq!(eval_pure(rep, &vec![s("aaa"), s("a"), s("b")]), text("bbb"));
    assert_eq!(eval_pure(rep, &vec![s("aaaa"), s("aa"), s("x")]), text("xx"));
    assert_eq!(eval_pure(rep, &vec![s("abc"), s(""), s("-")]), text("-a-b-c-"));
    assert_eq!(eval_pure(rep, &vec![s("hello"), s("xyz"), s("q")]), text("hello"));
    assert_eq!(eval_pure(rep, &vec![]), text(""));
    assert_eq!(replace_all("", "", "x"), "x");
    assert_eq!(replace_all("a.b.c", ".", ""), "abc");
}

#[test]
fn integer_and_logic_functions() {
    let m = PureFunction::MathModulo;
    assert_eq!(eval_pure(m, &vec![Arg::Int(7), Arg::Int(-3)]), Some(PureValue::Int(1)));
    assert_eq!(eval_pure(m, &vec![Arg::Int(-7), Arg::Int(3)]), Some(PureValue::Int(-1)));
    assert_eq!(eval_pure(m, &vec![Arg::Int(5), Arg::Int(0)]), Some(PureValue::Null));
    assert_eq!(eval_pure(m, &vec![]), Some(PureValue::Int(0)));
    assert_eq!(eval_pure(m, &vec![Arg::Int(i64::MIN), Arg::Int(3)]), Some(PureValue::Int(-2)));
    let and = PureFunction::LogicAnd;
    assert_eq!(eval_pure(and, &vec![Arg::Bool(true), Arg::Bool(true)]), Some(PureValue::Bool(true)));
    assert_eq!(eval_pure(and, &vec![Arg::Bool(true)]), Some(PureValue::Bool(false)));
    let or = PureFunction::LogicOr;
    assert_eq!(eval_pure(or, &vec![Arg::Other, Arg::Bool(true)]), Some(PureValue::Bool(true)));
    assert_eq!(eval_pure(PureFunction::LogicNot, &vec![]), Some(PureValue::Bool(true)));
    assert_eq!(eval_pure(PureFunction::MathAdd, &vec![Arg::Int(1)]), None);
    assert_eq!(eval_pure(PureFunction::CompareEquals, &vec![]), None);
    assert_eq!(eval_pure(PureFunction::Unknown, &vec![]), None);
}

#[test]
fn noise_seeds() {
    assert_eq!(noise_seed("fixed", 42, 7), 42);
    assert_eq!(noise_seed("randomize", 42, -7), 7);
    assert_eq!(noise_seed("randomize", 42, 9), 9);
    assert_eq!(noise_seed("increment", -3, 9), -3);
}
