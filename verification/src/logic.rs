//! The logic nodes: the branch an if/else takes, the input a switch
//! selects, the count of a loop, the seed of a noise node, and the pure
//! functions a function call node applies to its arguments.

use vstd::prelude::*;
use vstd::string::StringExecFns;
use crate::text::{
    chars_of, joined, lowercase, occurs_at, push_char, push_item, starts_with, str_eq, to_lowercase,
    to_uppercase, uppercase,
};

verus! {

/// The value an if/else node passes on: `on_true` where the condition is
/// true or not a boolean, else `on_false`.
pub fn choose_branch<V>(condition: Option<bool>, on_true: V, on_false: V) -> (r: V)
    ensures
        r == if condition != Some(false) {
            on_true
        } else {
            on_false
        },
{
    match condition {
        Some(false) => on_false,
        _ => on_true,
    }
}

/// The input a switch selects: the selector (0 where it is not an
/// integer) clamped to `0..=3`.
pub open spec fn switch_index(selector: Option<i64>) -> int {
    let s = match selector {
        Some(s) => s as int,
        None => 0,
    };
    if s < 0 {
        0
    } else if s > 3 {
        3
    } else {
        s
    }
}

/// The input a switch passes on (see [`switch_index`]), of its four inputs.
pub fn select_input<V>(selector: Option<i64>, inputs: Vec<V>) -> (r: V)
    requires
        inputs@.len() == 4,
    ensures
        r == inputs@[switch_index(selector)],
{
    let s: i64 = match selector {
        Some(s) => s,
        None => 0,
    };
    let idx: usize = if s < 0 {
        0
    } else if s > 3 {
        3
    } else {
        s as usize
    };
    let mut inputs = inputs;
    inputs.swap_remove(idx)
}

/// The number of rounds a loop node makes: its count (1 where it is not
/// an integer) clamped to `1..=1000`.
pub open spec fn loop_rounds(count: Option<i64>) -> i64 {
    let c = match count {
        Some(c) => c,
        None => 1,
    };
    if c < 1 {
        1
    } else if c > 1000 {
        1000
    } else {
        c
    }
}

/// The number of rounds a loop node makes (see [`loop_rounds`]).
pub fn loop_count(count: Option<i64>) -> (r: i64)
    ensures
        r == loop_rounds(count),
{
    let c: i64 = match count {
        Some(c) => c,
        None => 1,
    };
    if c < 1 {
        1
    } else if c > 1000 {
        1000
    } else {
        c
    }
}

/// The seed a noise node gives: for `randomize`, the magnitude of the
/// clock reading (the time in nanoseconds, wrapped to `i64`), else the
/// seed set on the node.
pub open spec fn noise_seed_of(control: Seq<char>, seed: i64, clock: i64) -> int {
    if control == "randomize"@ {
        if clock < 0 {
            -clock
        } else {
            clock as int
        }
    } else {
        seed as int
    }
}

/// The seed a noise node gives (see [`noise_seed_of`]); the clock reading
/// is the caller's.
pub fn noise_seed(control: &str, seed: i64, clock: i64) -> (r: i64)
    requires
        control@ == "randomize"@ ==> clock != i64::MIN,
    ensures
        r == noise_seed_of(control@, seed, clock),
{
    if str_eq(control, "randomize") {
        if clock < 0 {
            -clock
        } else {
            clock
        }
    } else {
        seed
    }
}

// ---------------------------------------------------------------- pure functions

/// The functions a function call node knows, by name.
#[derive(Debug, Clone, Copy, PartialEq, Eq)]
pub enum PureFunction {
    StringConcat,
    StringJoin,
    MathAdd,
    MathSubtract,
    MathMultiply,
    MathDivide,
    MathModulo,
    MathPower,
    MathMin,
    MathMax,
    MathAbs,
    MathFloor,
    MathCeil,
    MathRound,
    LogicAnd,
    LogicOr,
    LogicNot,
    CompareEquals,
    CompareGreater,
    CompareLess,
    CompareGreaterEqual,
    CompareLessEqual,
    CompareNotEquals,
    TypeToString,
    StringLength,
    StringUpper,
    StringLower,
    StringReplace,
    IntToFloat,
    FloatToInt,
    Unknown,
}

/// The function a name selects (`Unknown` for any other name).
pub open spec fn pure_function_of(name: Seq<char>) -> PureFunction {
    if name == "string_concat"@ {
        PureFunction::StringConcat
    } else if name == "string_join"@ {
        PureFunction::StringJoin
    } else if name == "math_add"@ {
        PureFunction::MathAdd
    } else if name == "math_subtract"@ {
        PureFunction::MathSubtract
    } else if name == "math_multiply"@ {
        PureFunction::MathMultiply
    } else if name == "math_divide"@ {
        PureFunction::MathDivide
    } else if name == "math_modulo"@ {
        PureFunction::MathModulo
    } else if name == "math_power"@ {
        PureFunction::MathPower
    } else if name == "math_min"@ {
        PureFunction::MathMin
    } else if name == "math_max"@ {
        PureFunction::MathMax
    } else if name == "math_abs"@ {
        PureFunction::MathAbs
    } else if name == "math_floor"@ {
        PureFunction::MathFloor
    } else if name == "math_ceil"@ {
        PureFunction::MathCeil
    } else if name == "math_round"@ {
        PureFunction::MathRound
    } else if name == "logic_and"@ {
        PureFunction::LogicAnd
    } else if name == "logic_or"@ {
        PureFunction::LogicOr
    } else if name == "logic_not"@ {
        PureFunction::LogicNot
    } else if name == "compare_equals"@ {
        PureFunction::CompareEquals
    } else if name == "compare_greater"@ {
        PureFunction::CompareGreater
    } else if name == "compare_less"@ {
        PureFunction::CompareLess
    } else if name == "compare_greater_equal"@ {
        PureFunction::CompareGreaterEqual
    } else if name == "compare_less_equal"@ {
        PureFunction::CompareLessEqual
    } else if name == "compare_not_equals"@ {
        PureFunction::CompareNotEquals
    } else if name == "type_to_string"@ {
        PureFunction::TypeToString
    } else if name == "string_length"@ {
        PureFunction::StringLength
    } else if name == "string_upper"@ {
        PureFunction::StringUpper
    } else if name == "string_lower"@ {
        PureFunction::StringLower
    } else if name == "string_replace"@ {
        PureFunction::StringReplace
    } else if name == "int_to_float"@ {
        PureFunction::IntToFloat
    } else if name == "float_to_int"@ {
        PureFunction::FloatToInt
    } else {
        PureFunction::Unknown
    }
}

/// The function a name selects (see [`pure_function_of`]).
pub fn parse_pure_function(name: &str) -> (r: PureFunction)
    ensures
        r == pure_function_of(name@),
{
    if str_eq(name, "string_concat") {
        PureFunction::StringConcat
    } else if str_eq(name, "string_join") {
        PureFunction::StringJoin
    } else if str_eq(name, "math_add") {
        PureFunction::MathAdd
    } else if str_eq(name, "math_subtract") {
        PureFunction::MathSubtract
    } else if str_eq(name, "math_multiply") {
        PureFunction::MathMultiply
    } else if str_eq(name, "math_divide") {
        PureFunction::MathDivide
    } else if str_eq(name, "math_modulo") {
        PureFunction::MathModulo
    } else if str_eq(name, "math_power") {
        PureFunction::MathPower
    } else if str_eq(name, "math_min") {
        PureFunction::MathMin
    } else if str_eq(name, "math_max") {
        PureFunction::MathMax
    } else if str_eq(name, "math_abs") {
        PureFunction::MathAbs
    } else if str_eq(name, "math_floor") {
        PureFunction::MathFloor
    } else if str_eq(name, "math_ceil") {
        PureFunction::MathCeil
    } else if str_eq(name, "math_round") {
        PureFunction::MathRound
    } else if str_eq(name, "logic_and") {
        PureFunction::LogicAnd
    } else if str_eq(name, "logic_or") {
        PureFunction::LogicOr
    } else if str_eq(name, "logic_not") {
        PureFunction::LogicNot
    } else if str_eq(name, "compare_equals") {
        PureFunction::CompareEquals
    } else if str_eq(name, "compare_greater") {
        PureFunction::CompareGreater
    } else if str_eq(name, "compare_less") {
        PureFunction::CompareLess
    } else if str_eq(name, "compare_greater_equal") {
        PureFunction::CompareGreaterEqual
    } else if str_eq(name, "compare_less_equal") {
        PureFunction::CompareLessEqual
    } else if str_eq(name, "compare_not_equals") {
        PureFunction::CompareNotEquals
    } else if str_eq(name, "type_to_string") {
        PureFunction::TypeToString
    } else if str_eq(name, "string_length") {
        PureFunction::StringLength
    } else if str_eq(name, "string_upper") {
        PureFunction::StringUpper
    } else if str_eq(name, "string_lower") {
        PureFunction::StringLower
    } else if str_eq(name, "string_replace") {
        PureFunction::StringReplace
    } else if str_eq(name, "int_to_float") {
        PureFunction::IntToFloat
    } else if str_eq(name, "float_to_int") {
        PureFunction::FloatToInt
    } else {
        PureFunction::Unknown
    }
}

/// The name by which a function call node calls each function (none for
/// `Unknown`).
pub open spec fn pure_function_name(f: PureFunction) -> Seq<char> {
    match f {
        PureFunction::StringConcat => "string_concat"@,
        PureFunction::StringJoin => "string_join"@,
        PureFunction::MathAdd => "math_add"@,
        PureFunction::MathSubtract => "math_subtract"@,
        PureFunction::MathMultiply => "math_multiply"@,
        PureFunction::MathDivide => "math_divide"@,
        PureFunction::MathModulo => "math_modulo"@,
        PureFunction::MathPower => "math_power"@,
        PureFunction::MathMin => "math_min"@,
        PureFunction::MathMax => "math_max"@,
        PureFunction::MathAbs => "math_abs"@,
        PureFunction::MathFloor => "math_floor"@,
        PureFunction::MathCeil => "math_ceil"@,
        PureFunction::MathRound => "math_round"@,
        PureFunction::LogicAnd => "logic_and"@,
        PureFunction::LogicOr => "logic_or"@,
        PureFunction::LogicNot => "logic_not"@,
        PureFunction::CompareEquals => "compare_equals"@,
        PureFunction::CompareGreater => "compare_greater"@,
        PureFunction::CompareLess => "compare_less"@,
        PureFunction::CompareGreaterEqual => "compare_greater_equal"@,
        PureFunction::CompareLessEqual => "compare_less_equal"@,
        PureFunction::CompareNotEquals => "compare_not_equals"@,
        PureFunction::TypeToString => "type_to_string"@,
        PureFunction::StringLength => "string_length"@,
        PureFunction::StringUpper => "string_upper"@,
        PureFunction::StringLower => "string_lower"@,
        PureFunction::StringReplace => "string_replace"@,
        PureFunction::IntToFloat => "int_to_float"@,
        PureFunction::FloatToInt => "float_to_int"@,
        PureFunction::Unknown => Seq::empty(),
    }
}

/// Law: a name selects a known function only where it is that function's
/// name: `logic_and` the conjunction, `logic_or` the disjunction, and so on
/// for every function.
pub proof fn lemma_name_selects_its_function(name: Seq<char>)
    ensures
        pure_function_of(name) != PureFunction::Unknown ==> pure_function_name(pure_function_of(name)) == name,
{
}

/// A few letters that tell the function names apart.
spec fn name_key(n: Seq<char>) -> (nat, char, char) {
    (n.len(), n[7], if n.len() > 8 {
        n[8]
    } else {
        ' '
    })
}

/// Law: every known function is selected by its own name.
pub proof fn lemma_function_selected_by_name(f: PureFunction)
    requires
        f != PureFunction::Unknown,
    ensures
        pure_function_of(pure_function_name(f)) == f,
{
    reveal_strlit("string_concat");
    reveal_strlit("string_join");
    reveal_strlit("math_add");
    reveal_strlit("math_subtract");
    reveal_strlit("math_multiply");
    reveal_strlit("math_divide");
    reveal_strlit("math_modulo");
    reveal_strlit("math_power");
    reveal_strlit("math_min");
    reveal_strlit("math_max");
    reveal_strlit("math_abs");
    reveal_strlit("math_floor");
    reveal_strlit("math_ceil");
    reveal_strlit("math_round");
    reveal_strlit("logic_and");
    reveal_strlit("logic_or");
    reveal_strlit("logic_not");
    reveal_strlit("compare_equals");
    reveal_strlit("compare_greater");
    reveal_strlit("compare_less");
    reveal_strlit("compare_greater_equal");
    reveal_strlit("compare_less_equal");
    reveal_strlit("compare_not_equals");
    reveal_strlit("type_to_string");
    reveal_strlit("string_length");
    reveal_strlit("string_upper");
    reveal_strlit("string_lower");
    reveal_strlit("string_replace");
    reveal_strlit("int_to_float");
    reveal_strlit("float_to_int");
    assert(name_key("string_concat"@) == (13nat, 'c', 'o'));
    assert(name_key("string_join"@) == (11nat, 'j', 'o'));
    assert(name_key("math_add"@) == (8nat, 'd', ' '));
    assert(name_key("math_subtract"@) == (13nat, 'b', 't'));
    assert(name_key("math_multiply"@) == (13nat, 'l', 't'));
    assert(name_key("math_divide"@) == (11nat, 'v', 'i'));
    assert(name_key("math_modulo"@) == (11nat, 'd', 'u'));
    assert(name_key("math_power"@) == (10nat, 'w', 'e'));
    assert(name_key("math_min"@) == (8nat, 'n', ' '));
    assert(name_key("math_max"@) == (8nat, 'x', ' '));
    assert(name_key("math_abs"@) == (8nat, 's', ' '));
    assert(name_key("math_floor"@) == (10nat, 'o', 'o'));
    assert(name_key("math_ceil"@) == (9nat, 'i', 'l'));
    assert(name_key("math_round"@) == (10nat, 'u', 'n'));
    assert(name_key("logic_and"@) == (9nat, 'n', 'd'));
    assert(name_key("logic_or"@) == (8nat, 'r', ' '));
    assert(name_key("logic_not"@) == (9nat, 'o', 't'));
    assert(name_key("compare_equals"@) == (14nat, '_', 'e'));
    assert(name_key("compare_greater"@) == (15nat, '_', 'g'));
    assert(name_key("compare_less"@) == (12nat, '_', 'l'));
    assert(name_key("compare_greater_equal"@) == (21nat, '_', 'g'));
    assert(name_key("compare_less_equal"@) == (18nat, '_', 'l'));
    assert(name_key("compare_not_equals"@) == (18nat, '_', 'n'));
    assert(name_key("type_to_string"@) == (14nat, '_', 's'));
    assert(name_key("string_length"@) == (13nat, 'l', 'e'));
    assert(name_key("string_upper"@) == (12nat, 'u', 'p'));
    assert(name_key("string_lower"@) == (12nat, 'l', 'o'));
    assert(name_key("string_replace"@) == (14nat, 'r', 'e'));
    assert(name_key("int_to_float"@) == (12nat, 'f', 'l'));
    assert(name_key("float_to_int"@) == (12nat, 'o', '_'));
}

/// An argument as the functions read it: a string, an integer that fits
/// in `i64`, a boolean, or any other value.
#[derive(Debug, Clone)]
pub enum Arg {
    Str(String),
    Int(i64),
    Bool(bool),
    Other,
}

/// A result the library computes.
#[derive(Debug, Clone, PartialEq, Eq)]
pub enum PureValue {
    Str(String),
    Int(i64),
    Bool(bool),
    Null,
}

/// Argument `i` as a string, if it is one.
pub open spec fn str_arg(args: Seq<Arg>, i: int) -> Option<Seq<char>> {
    if 0 <= i < args.len() {
        match args[i] {
            Arg::Str(s) => Some(s@),
            _ => None,
        }
    } else {
        None
    }
}

/// Argument `i` as a string, or `d`.
pub open spec fn str_or(args: Seq<Arg>, i: int, d: Seq<char>) -> Seq<char> {
    match str_arg(args, i) {
        Some(s) => s,
        None => d,
    }
}

/// Argument `i` as an integer, or `d`.
pub open spec fn int_or(args: Seq<Arg>, i: int, d: i64) -> i64 {
    if 0 <= i < args.len() {
        match args[i] {
            Arg::Int(n) => n,
            _ => d,
        }
    } else {
        d
    }
}

/// Argument `i` as a boolean, or `false`.
pub open spec fn bool_or_false(args: Seq<Arg>, i: int) -> bool {
    if 0 <= i < args.len() {
        match args[i] {
            Arg::Bool(b) => b,
            _ => false,
        }
    } else {
        false
    }
}

/// The string arguments, in order.
pub open spec fn strs_of(args: Seq<Arg>) -> Seq<Seq<char>>
    decreases args.len(),
{
    if args.len() == 0 {
        Seq::empty()
    } else {
        strs_of(args.drop_last()) + match args.last() {
            Arg::Str(s) => seq![s@],
            _ => Seq::empty(),
        }
    }
}

/// The arguments after the first.
pub open spec fn rest(args: Seq<Arg>) -> Seq<Arg> {
    if args.len() == 0 {
        args
    } else {
        args.skip(1)
    }
}

/// The remainder of `a / b` as Rust computes it for integers: truncated
/// division, so the remainder has the sign of `a`.
pub open spec fn rem_trunc(a: int, b: int) -> int {
    let m = if b < 0 {
        -b
    } else {
        b
    };
    if a >= 0 {
        a % m
    } else {
        -((-a) % m)
    }
}

/// `s` with every occurrence of `from` replaced by `to`, left to right and
/// without overlaps (`str::replace`); an empty `from` occurs before every
/// character and at the end.
pub open spec fn replaced(s: Seq<char>, from: Seq<char>, to: Seq<char>) -> Seq<char>
    decreases s.len(),
{
    if s.len() == 0 {
        if from.len() == 0 {
            to
        } else {
            Seq::empty()
        }
    } else if from.len() == 0 {
        to + seq![s[0]] + replaced(s.skip(1), from, to)
    } else if starts_with(s, from) {
        to + replaced(s.skip(from.len() as int), from, to)
    } else {
        seq![s[0]] + replaced(s.skip(1), from, to)
    }
}

/// The functions whose result the library computes; the others work on
/// floating-point numbers or on whole values, and are left to the caller.
pub open spec fn computed_here(f: PureFunction) -> bool {
    match f {
        PureFunction::StringConcat | PureFunction::StringJoin | PureFunction::MathModulo
        | PureFunction::LogicAnd | PureFunction::LogicOr | PureFunction::LogicNot
        | PureFunction::StringLength | PureFunction::StringUpper | PureFunction::StringLower
        | PureFunction::StringReplace => true,
        _ => false,
    }
}

/// The integer remainder would overflow (`i64::MIN % -1`, which panics).
pub open spec fn modulo_overflows(args: Seq<Arg>) -> bool {
    int_or(args, 0, 0) == i64::MIN && int_or(args, 1, 1) == -1
}

fn strs_joined(args: &Vec<Arg>, from: usize, sep: &str) -> (r: String)
    requires
        from <= args@.len(),
    ensures
        r@ == joined(strs_of(args@.skip(from as int)), sep@),
{
    let mut out = String::new();
    let ghost mut done: Seq<Seq<char>> = Seq::empty();
    let mut any = false;
    let mut i = from;
    assert(args@.skip(from as int).subrange(0, 0) =~= Seq::<Arg>::empty());
    while i < args.len()
        invariant
            from <= i <= args@.len(),
            done == strs_of(args@.skip(from as int).subrange(0, i - from)),
            out@ == joined(done, sep@),
            any == (done.len() > 0),
        decreases args@.len() - i,
    {
        let ghost sub = args@.skip(from as int).subrange(0, i + 1 - from);
        assert(sub.drop_last() =~= args@.skip(from as int).subrange(0, i - from));
        assert(sub.last() == args@[i as int]);
        match &args[i] {
            Arg::Str(s) => {
                push_item(&mut out, Ghost(done), !any, sep, s.as_str());
                proof {
                    done = done.push(s@);
                }
                any = true;
            },
            _ => {
                assert(strs_of(sub) =~= done);
            },
        }
        i = i + 1;
    }
    assert(args@.skip(from as int).subrange(0, args@.len() - from) =~= args@.skip(from as int));
    out
}

fn str_at<'a>(args: &'a Vec<Arg>, i: usize, d: &'a str) -> (r: &'a str)
    ensures
        r@ == str_or(args@, i as int, d@),
{
    if i < args.len() {
        match &args[i] {
            Arg::Str(s) => s.as_str(),
            _ => d,
        }
    } else {
        d
    }
}

fn int_at(args: &Vec<Arg>, i: usize, d: i64) -> (r: i64)
    ensures
        r == int_or(args@, i as int, d),
{
    if i < args.len() {
        match &args[i] {
            Arg::Int(n) => *n,
            _ => d,
        }
    } else {
        d
    }
}

fn bool_at(args: &Vec<Arg>, i: usize) -> (r: bool)
    ensures
        r == bool_or_false(args@, i as int),
{
    if i < args.len() {
        match &args[i] {
            Arg::Bool(b) => *b,
            _ => false,
        }
    } else {
        false
    }
}

/// The magnitude of an `i64`.
fn magnitude(a: i64) -> (r: u64)
    ensures
        r == if a < 0 {
            -a
        } else {
            a as int
        },
{
    if a >= 0 {
        a as u64
    } else {
        ((-(a + 1)) as u64) + 1
    }
}

/// `a % b` as Rust computes it.
fn remainder(a: i64, b: i64) -> (r: i64)
    requires
        b != 0,
    ensures
        r == rem_trunc(a as int, b as int),
{
    let ua = magnitude(a);
    let ub = magnitude(b);
    let m = ua % ub;
    assert(m < ub);
    if a >= 0 {
        m as i64
    } else {
        -(m as i64)
    }
}

/// `str::replace` (see [`replaced`]).
pub fn replace_all(s: &str, from: &str, to: &str) -> (r: String)
    ensures
        r@ == replaced(s@, from@, to@),
{
    let v = chars_of(s);
    let f = chars_of(from);
    let n = v.len();
    let mut out = String::new();
    let mut i: usize = 0;
    assert(v@.skip(0) =~= v@);
    assert(out@ + replaced(v@, f@, to@) =~= replaced(v@, f@, to@));
    while i < n
        invariant
            i <= n == v@.len(),
            f@ == from@,
            out@ + replaced(v@.skip(i as int), f@, to@) == replaced(v@, f@, to@),
        decreases n - i,
    {
        let ghost rest = v@.skip(i as int);
        let ghost before = out@;
        assert(rest.len() > 0);
        assert(rest[0] == v@[i as int]);
        if f.len() == 0 {
            out.append(to);
            push_char(&mut out, v[i]);
            assert(rest.skip(1) =~= v@.skip(i + 1));
            assert(out@ + replaced(v@.skip(i + 1), f@, to@) =~= before + replaced(rest, f@, to@));
            i = i + 1;
        } else if f.len() <= n - i && occurs_at(&v, &f, i) {
            assert(rest.subrange(0, f@.len() as int) =~= v@.subrange(i as int, i + f@.len()));
            assert(starts_with(rest, f@));
            out.append(to);
            assert(rest.skip(f@.len() as int) =~= v@.skip(i + f@.len()));
            assert(out@ + replaced(v@.skip(i + f@.len()), f@, to@) =~= before + replaced(rest, f@, to@));
            i = i + f.len();
        } else {
            proof {
                if f@.len() <= rest.len() {
                    assert(rest.subrange(0, f@.len() as int) =~= v@.subrange(i as int, i + f@.len()));
                }
            }
            assert(!starts_with(rest, f@));
            push_char(&mut out, v[i]);
            assert(rest.skip(1) =~= v@.skip(i + 1));
            assert(out@ + replaced(v@.skip(i + 1), f@, to@) =~= before + replaced(rest, f@, to@));
            i = i + 1;
        }
    }
    assert(v@.skip(n as int) =~= Seq::<char>::empty());
    if f.len() == 0 {
        out.append(to);
    }
    assert(out@ =~= replaced(v@, f@, to@));
    out
}

/// The result of a function call node, where the library computes it:
/// string concatenation and joining (with the first argument as the
/// separator, `,` by default), the integer remainder (`Null` for a zero
/// divisor), the boolean operations, a string's length in UTF-8 bytes, its
/// upper and lower case, and replacement. Missing or mistyped arguments
/// read as `""`, `0` (the divisor `1`) or `false`. `None` for the other
/// functions.
pub fn eval_pure(f: PureFunction, args: &Vec<Arg>) -> (r: Option<PureValue>)
    requires
        f == PureFunction::MathModulo ==> !modulo_overflows(args@),
    ensures
        !computed_here(f) ==> r is None,
        f == PureFunction::StringConcat ==> (r matches Some(PureValue::Str(s)) && s@ == joined(
            strs_of(args@),
            Seq::empty(),
        )),
        f == PureFunction::StringJoin ==> (r matches Some(PureValue::Str(s)) && s@ == joined(
            strs_of(rest(args@)),
            str_or(args@, 0, ","@),
        )),
        f == PureFunction::MathModulo ==> r == if int_or(args@, 1, 1) != 0 {
            Some(PureValue::Int(rem_trunc(int_or(args@, 0, 0) as int, int_or(args@, 1, 1) as int) as i64))
        } else {
            Some(PureValue::Null)
        },
        f == PureFunction::LogicAnd ==> r == Some(
            PureValue::Bool(bool_or_false(args@, 0) && bool_or_false(args@, 1)),
        ),
        f == PureFunction::LogicOr ==> r == Some(
            PureValue::Bool(bool_or_false(args@, 0) || bool_or_false(args@, 1)),
        ),
        f == PureFunction::LogicNot ==> r == Some(PureValue::Bool(!bool_or_false(args@, 0))),
        f == PureFunction::StringLength ==> r == Some(
            PureValue::Int(
                #[verifier::truncate]
                (vstd::utf8::encode_utf8(str_or(args@, 0, ""@)).len() as usize as i64),
            ),
        ),
        f == PureFunction::StringUpper ==> (r matches Some(PureValue::Str(s)) && s@ == uppercase(
            str_or(args@, 0, ""@),
        )),
        f == PureFunction::StringLower ==> (r matches Some(PureValue::Str(s)) && s@ == lowercase(
            str_or(args@, 0, ""@),
        )),
        f == PureFunction::StringReplace ==> (r matches Some(PureValue::Str(s)) && s@ == replaced(
            str_or(args@, 0, ""@),
            str_or(args@, 1, ""@),
            str_or(args@, 2, ""@),
        )),
{
    match f {
        PureFunction::StringConcat => {
            assert(args@.skip(0) =~= args@);
            proof {
                reveal_strlit("");
            }
            assert(""@ =~= Seq::<char>::empty());
            Some(PureValue::Str(strs_joined(args, 0, "")))
        },
        PureFunction::StringJoin => {
            let sep = str_at(args, 0, ",");
            if args.len() == 0 {
                assert(args@.skip(0) =~= rest(args@));
                Some(PureValue::Str(strs_joined(args, 0, sep)))
            } else {
                Some(PureValue::Str(strs_joined(args, 1, sep)))
            }
        },
        PureFunction::MathModulo => {
            let a = int_at(args, 0, 0);
            let b = int_at(args, 1, 1);
            if b != 0 {
                Some(PureValue::Int(remainder(a, b)))
            } else {
                Some(PureValue::Null)
            }
        },
        PureFunction::LogicAnd => Some(PureValue::Bool(bool_at(args, 0) && bool_at(args, 1))),
        PureFunction::LogicOr => Some(PureValue::Bool(bool_at(args, 0) || bool_at(args, 1))),
        PureFunction::LogicNot => Some(PureValue::Bool(!bool_at(args, 0))),
        PureFunction::StringLength => {
            let s = str_at(args, 0, "");
            Some(PureValue::Int(#[verifier::truncate] (s.len() as i64)))
        },
        PureFunction::StringUpper => Some(PureValue::Str(to_uppercase(str_at(args, 0, "")))),
        PureFunction::StringLower => Some(PureValue::Str(to_lowercase(str_at(args, 0, "")))),
        PureFunction::StringReplace => Some(
            PureValue::Str(
                replace_all(str_at(args, 0, ""), str_at(args, 1, ""), str_at(args, 2, "")),
            ),
        ),
        _ => None,
    }
}

} // verus!
