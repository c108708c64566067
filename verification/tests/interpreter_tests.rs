use frontend::interpreter::eval_binary_expr;
use frontend::interpreter::eval_func;
use frontend::interpreter::eval_node;
use frontend::interpreter::eval_unary_expr;
use frontend::interpreter::Environment;
use frontend::interpreter::Host;
use frontend::interpreter::RunErr;
use frontend::node::BinopNode;
use frontend::node::Bop;
use frontend::node::Const;
use frontend::node::FuncNode;
use frontend::node::Node;
use frontend::node::Uop;
use frontend::node::UnopNode;
use frontend::value::apply_binop;
use frontend::value::apply_unop;
use frontend::value::float_eq;
use frontend::value::float_lt;
use frontend::value::FloatOp;
use frontend::value::FAULT_DIVIDE_ZERO;
use frontend::value::FAULT_EXP_NEGATIVE;
use frontend::value::FAULT_NODE;
use frontend::value::FAULT_PLUS;

fn float_op(op: FloatOp, a: u64, b: u64) -> u64 {
    let (x, y) = (f64::from_bits(a), f64::from_bits(b));
    let z = match op {
        FloatOp::Add => x + y,
        FloatOp::Sub => x - y,
        FloatOp::Mul => x * y,
        FloatOp::Div => x / y,
    };
    z.to_bits()
}

fn resolve(iden: String, args: Vec<Const>) -> Result<Const, RunErr> {
    match (iden.as_str(), args.as_slice()) {
        ("first", [value, ..]) => Ok(value.clone()),
        ("count", args) => Ok(Const::Int(args.len() as i32)),
        _ => Err(RunErr::Undefined(iden)),
    }
}

type FloatFn = fn(FloatOp, u64, u64) -> u64;
type ResolveFn = fn(String, Vec<Const>) -> Result<Const, RunErr>;

fn host() -> Host<FloatFn, ResolveFn> {
    Host { float_op, resolve }
}

fn eval(node: &Node) -> Result<Const, RunErr> {
    let mut env = Environment::new();
    eval_node(node, &mut env, &host())
}

fn integer(n: i32) -> Node {
    Node::Constant(Const::Int(n))
}

fn float(x: f64) -> Node {
    Node::Constant(Const::Float(x.to_bits()))
}

fn text(s: &str) -> Node {
    Node::Constant(Const::String(s.to_string()))
}

fn boolean(b: bool) -> Node {
    Node::Constant(Const::Bool(b))
}

fn character(c: char) -> Node {
    Node::Constant(Const::Char(c))
}

fn variable(name: &str) -> Node {
    Node::Variable(name.to_string())
}

fn binop(op: Bop, lhs: Node, rhs: Node) -> Node {
    Node::Binop(BinopNode { op, lhs: Box::new(lhs), rhs: Box::new(rhs) })
}

fn unop(op: Uop, expr: Node) -> Node {
    Node::Unop(UnopNode { op, expr: Box::new(expr) })
}

fn call(name: &str, args: Vec<Node>) -> Node {
    Node::CallFunc(FuncNode { iden: name.to_string(), args })
}

fn apply(op: Bop, lhs: Const, rhs: Const) -> Result<Const, RunErr> {
    apply_binop(op, lhs, rhs, &(float_op as FloatFn))
}

fn is_type_error(r: &Result<Const, RunErr>) -> bool {
    matches!(r, Err(RunErr::Type(_)))
}

#[test]
fn eval_product_and_sum() {
    let node = binop(Bop::Plus, binop(Bop::Multiply, integer(2), integer(3)), integer(1));
    assert_eq!(eval(&node), Ok(Const::Int(7)));
}

#[test]
fn eval_string_times_int_repeats() {
    let node = binop(Bop::Multiply, text("ab"), integer(3));
    assert_eq!(eval(&node), Ok(Const::String("ababab".to_string())));
}

#[test]
fn eval_int_plus_bool_is_a_type_error() {
    let node = binop(Bop::Plus, integer(1), boolean(true));
    assert_eq!(eval(&node), Err(RunErr::Type(FAULT_PLUS)));
}

#[test]
fn eval_undefined_variable() {
    assert_eq!(eval(&variable("x")), Err(RunErr::Undefined("x".to_string())));
    let mut env = Environment::new();
    env.push();
    env.write("y", Const::Int(1)).unwrap();
    assert_eq!(
        eval_node(&variable("x"), &mut env, &host()),
        Err(RunErr::Undefined("x".to_string()))
    );
    assert_eq!(eval_node(&variable("y"), &mut env, &host()), Ok(Const::Int(1)));
}

#[test]
fn eval_reads_only_the_top_frame() {
    let mut env = Environment::new();
    env.write("x", Const::Int(1)).unwrap();
    env.push();
    assert_eq!(
        eval_node(&variable("x"), &mut env, &host()),
        Err(RunErr::Undefined("x".to_string()))
    );
    env.pop();
    assert_eq!(eval_node(&variable("x"), &mut env, &host()), Ok(Const::Int(1)));
}

#[test]
fn environment_last_write_wins() {
    let mut env = Environment::new();
    assert_eq!(env.write("x", Const::Int(1)), Ok(()));
    assert_eq!(env.write("y", Const::Bool(true)), Ok(()));
    assert_eq!(env.write("x", Const::String("s".to_string())), Ok(()));
    assert_eq!(env.read("x"), Ok(&Const::String("s".to_string())));
    assert_eq!(env.read("y"), Ok(&Const::Bool(true)));
    assert_eq!(env.read("z"), Err(RunErr::Undefined("z".to_string())));
    assert_eq!(env.top().len(), 2);
}

#[test]
fn environment_top_opens_a_frame_on_an_empty_stack() {
    let mut env = Environment::new();
    assert_eq!(env.top().len(), 0);
    env.top().push(("a".to_string(), Const::Int(5)));
    assert_eq!(env.read("a"), Ok(&Const::Int(5)));
    env.pop();
    env.pop();
    assert_eq!(env.read("a"), Err(RunErr::Undefined("a".to_string())));
}

#[test]
fn environment_lookup_takes_the_first_entry() {
    let mut env = Environment::new();
    env.top().push(("a".to_string(), Const::Int(1)));
    env.top().push(("a".to_string(), Const::Int(2)));
    assert_eq!(env.lookup(&"a".to_string()), Some(&Const::Int(1)));
    env.write("a", Const::Int(3)).unwrap();
    assert_eq!(env.top()[0], ("a".to_string(), Const::Int(3)));
    assert_eq!(env.top()[1], ("a".to_string(), Const::Int(2)));
}

#[test]
fn run_err_render() {
    assert_eq!(RunErr::undefined("x"), RunErr::Undefined("x".to_string()));
    assert_eq!(RunErr::undefined("x").render(), "Undefined variable x");
    assert_eq!(
        RunErr::Type(FAULT_DIVIDE_ZERO).render(),
        "Type error: Divide operator rhs must not be zero"
    );
}

#[test]
fn eval_both_operands_even_for_and() {
    let node = binop(Bop::And, boolean(false), variable("missing"));
    assert_eq!(eval(&node), Err(RunErr::Undefined("missing".to_string())));
    let node = binop(Bop::Or, boolean(true), variable("missing"));
    assert_eq!(eval(&node), Err(RunErr::Undefined("missing".to_string())));
    let node = binop(Bop::And, variable("first"), variable("second"));
    assert_eq!(eval(&node), Err(RunErr::Undefined("first".to_string())));
}

#[test]
fn eval_boolean_operators() {
    for a in [false, true] {
        for b in [false, true] {
            assert_eq!(eval(&binop(Bop::And, boolean(a), boolean(b))), Ok(Const::Bool(a && b)));
            assert_eq!(eval(&binop(Bop::Or, boolean(a), boolean(b))), Ok(Const::Bool(a || b)));
        }
        assert_eq!(eval(&unop(Uop::Not, boolean(a))), Ok(Const::Bool(!a)));
    }
    assert!(is_type_error(&eval(&binop(Bop::And, integer(1), boolean(true)))));
    assert!(is_type_error(&eval(&binop(Bop::Or, boolean(true), integer(1)))));
    assert!(is_type_error(&eval(&unop(Uop::Not, integer(1)))));
}

#[test]
fn eval_integer_arithmetic_wraps() {
    assert_eq!(apply(Bop::Plus, Const::Int(i32::MAX), Const::Int(1)), Ok(Const::Int(i32::MIN)));
    assert_eq!(apply(Bop::Minus, Const::Int(i32::MIN), Const::Int(1)), Ok(Const::Int(i32::MAX)));
    assert_eq!(apply(Bop::Multiply, Const::Int(65536), Const::Int(65536)), Ok(Const::Int(0)));
    assert_eq!(apply(Bop::Exp, Const::Int(2), Const::Int(31)), Ok(Const::Int(i32::MIN)));
    assert_eq!(apply(Bop::Exp, Const::Int(3), Const::Int(4)), Ok(Const::Int(81)));
    assert_eq!(apply(Bop::Exp, Const::Int(7), Const::Int(0)), Ok(Const::Int(1)));
    assert_eq!(apply(Bop::Exp, Const::Int(-2), Const::Int(3)), Ok(Const::Int(-8)));
    assert_eq!(apply_unop(Uop::Minus, Const::Int(i32::MIN)), Ok(Const::Int(i32::MIN)));
    assert_eq!(apply_unop(Uop::Minus, Const::Int(5)), Ok(Const::Int(-5)));
}

#[test]
fn eval_integer_division_truncates_toward_zero() {
    assert_eq!(apply(Bop::Divide, Const::Int(7), Const::Int(2)), Ok(Const::Int(3)));
    assert_eq!(apply(Bop::Divide, Const::Int(-7), Const::Int(2)), Ok(Const::Int(-3)));
    assert_eq!(apply(Bop::Divide, Const::Int(7), Const::Int(-2)), Ok(Const::Int(-3)));
    assert_eq!(apply(Bop::Divide, Const::Int(-7), Const::Int(-2)), Ok(Const::Int(3)));
    assert_eq!(apply(Bop::Divide, Const::Int(0), Const::Int(-2)), Ok(Const::Int(0)));
    assert_eq!(apply(Bop::Divide, Const::Int(i32::MIN), Const::Int(-1)), Ok(Const::Int(i32::MIN)));
    assert_eq!(apply(Bop::Divide, Const::Int(i32::MIN), Const::Int(1)), Ok(Const::Int(i32::MIN)));
}

#[test]
fn eval_division_by_zero_is_an_error() {
    assert_eq!(
        apply(Bop::Divide, Const::Int(1), Const::Int(0)),
        Err(RunErr::Type(FAULT_DIVIDE_ZERO))
    );
}

#[test]
fn eval_negative_exponent_is_an_error() {
    assert_eq!(
        apply(Bop::Exp, Const::Int(2), Const::Int(-1)),
        Err(RunErr::Type(FAULT_EXP_NEGATIVE))
    );
    assert!(is_type_error(&apply(Bop::Exp, Const::Float(2.0f64.to_bits()), Const::Int(2))));
}

#[test]
fn eval_string_operators() {
    assert_eq!(
        eval(&binop(Bop::Plus, text("ab"), text("cd"))),
        Ok(Const::String("abcd".to_string()))
    );
    assert_eq!(eval(&binop(Bop::Multiply, text("ab"), integer(0))), Ok(Const::String(String::new())));
    assert_eq!(eval(&binop(Bop::Multiply, text("ab"), integer(-3))), Ok(Const::String(String::new())));
    assert_eq!(eval(&binop(Bop::Multiply, text("ab"), integer(1))), Ok(Const::String("ab".to_string())));
    assert!(is_type_error(&eval(&binop(Bop::Multiply, integer(3), text("ab")))));
    assert!(is_type_error(&eval(&binop(Bop::Minus, text("ab"), text("a")))));
}

#[test]
fn eval_float_arithmetic_is_the_hosts() {
    assert_eq!(eval(&binop(Bop::Plus, float(1.5), float(2.25))), Ok(Const::Float(3.75f64.to_bits())));
    assert_eq!(eval(&binop(Bop::Minus, float(1.5), float(2.25))), Ok(Const::Float((-0.75f64).to_bits())));
    assert_eq!(eval(&binop(Bop::Multiply, float(1.5), float(2.0))), Ok(Const::Float(3.0f64.to_bits())));
    assert_eq!(eval(&binop(Bop::Divide, float(1.0), float(4.0))), Ok(Const::Float(0.25f64.to_bits())));
    assert_eq!(
        eval(&binop(Bop::Divide, float(1.0), float(0.0))),
        Ok(Const::Float(f64::INFINITY.to_bits()))
    );
    assert_eq!(eval(&unop(Uop::Minus, float(1.5))), Ok(Const::Float((-1.5f64).to_bits())));
    assert_eq!(eval(&unop(Uop::Minus, float(0.0))), Ok(Const::Float((-0.0f64).to_bits())));
    assert!(is_type_error(&eval(&binop(Bop::Plus, float(1.0), integer(1)))));
    assert!(is_type_error(&eval(&unop(Uop::Minus, text("a")))));
}

#[test]
fn float_order_agrees_with_the_numbers() {
    let samples = [
        0.0f64,
        -0.0,
        1.0,
        -1.0,
        1.5,
        -1.5,
        f64::MIN_POSITIVE,
        -f64::MIN_POSITIVE,
        5e-324,
        -5e-324,
        f64::MAX,
        f64::MIN,
        f64::INFINITY,
        f64::NEG_INFINITY,
        f64::NAN,
        -f64::NAN,
        f64::EPSILON,
        1e300,
        -1e300,
        123456.789,
    ];
    for x in samples {
        for y in samples {
            assert_eq!(float_lt(x.to_bits(), y.to_bits()), x < y, "{} < {}", x, y);
            assert_eq!(float_eq(x.to_bits(), y.to_bits()), x == y, "{} == {}", x, y);
            let (l, r) = (Const::Float(x.to_bits()), Const::Float(y.to_bits()));
            assert_eq!(apply(Bop::Lt, l.clone(), r.clone()), Ok(Const::Bool(x < y)));
            assert_eq!(apply(Bop::Leq, l.clone(), r.clone()), Ok(Const::Bool(x <= y)));
            assert_eq!(apply(Bop::Gt, l.clone(), r.clone()), Ok(Const::Bool(x > y)));
            assert_eq!(apply(Bop::Geq, l.clone(), r.clone()), Ok(Const::Bool(x >= y)));
            assert_eq!(apply(Bop::Eq, l.clone(), r.clone()), Ok(Const::Bool(x == y)));
            assert_eq!(apply(Bop::Neq, l.clone(), r.clone()), Ok(Const::Bool(x != y)));
        }
        assert_eq!(
            apply_unop(Uop::Minus, Const::Float(x.to_bits())),
            Ok(Const::Float((-x).to_bits()))
        );
    }
}

fn check_order<T: PartialOrd + Copy>(make: fn(T) -> Const, values: &[T]) {
    for &a in values {
        for &b in values {
            assert_eq!(apply(Bop::Lt, make(a), make(b)), Ok(Const::Bool(a < b)));
            assert_eq!(apply(Bop::Leq, make(a), make(b)), Ok(Const::Bool(a <= b)));
            assert_eq!(apply(Bop::Gt, make(a), make(b)), Ok(Const::Bool(a > b)));
            assert_eq!(apply(Bop::Geq, make(a), make(b)), Ok(Const::Bool(a >= b)));
            assert_eq!(apply(Bop::Eq, make(a), make(b)), Ok(Const::Bool(a == b)));
            assert_eq!(apply(Bop::Neq, make(a), make(b)), Ok(Const::Bool(a != b)));
        }
    }
}

#[test]
fn comparisons_agree_with_the_order_of_the_values() {
    assert_eq!(apply(Bop::Lt, Const::Int(3), Const::Int(5)), Ok(Const::Bool(true)));
    assert_eq!(
        apply(Bop::Lt, Const::String("a".to_string()), Const::String("b".to_string())),
        Ok(Const::Bool(true))
    );
    check_order(Const::Int, &[i32::MIN, -1, 0, 1, 3, 5, i32::MAX]);
    check_order(Const::Bool, &[false, true]);
    check_order(Const::Char, &['\0', 'A', 'a', 'b', 'é', '\u{10FFFF}']);
    check_order(
        |s: &str| Const::String(s.to_string()),
        &["", "a", "ab", "abc", "b", "B", "é", "ée", "z\u{10FFFF}", "aa"],
    );
}

#[test]
fn operators_across_variants() {
    let values = [
        Const::Int(1),
        Const::Float(1.0f64.to_bits()),
        Const::Bool(true),
        Const::Char('a'),
        Const::String("a".to_string()),
    ];
    let ops = [
        Bop::Plus,
        Bop::Exp,
        Bop::Minus,
        Bop::Multiply,
        Bop::Divide,
        Bop::Leq,
        Bop::Geq,
        Bop::Lt,
        Bop::Gt,
        Bop::And,
        Bop::Or,
    ];
    for (i, l) in values.iter().enumerate() {
        for (j, r) in values.iter().enumerate() {
            if i == j {
                continue;
            }
            assert_eq!(apply(Bop::Eq, l.clone(), r.clone()), Ok(Const::Bool(false)));
            assert_eq!(apply(Bop::Neq, l.clone(), r.clone()), Ok(Const::Bool(true)));
            for op in ops {
                let repeats = op == Bop::Multiply && i == 4 && j == 0;
                let out = apply(op, l.clone(), r.clone());
                assert_eq!(is_type_error(&out), !repeats, "{:?} {:?} {:?}", l, op, r);
            }
        }
    }
}

#[test]
fn eval_call_hands_the_arguments_to_the_host() {
    let node = call("first", vec![binop(Bop::Plus, integer(1), integer(2)), integer(9)]);
    assert_eq!(eval(&node), Ok(Const::Int(3)));
    let node = call("count", vec![integer(1), text("a"), boolean(true)]);
    assert_eq!(eval(&node), Ok(Const::Int(3)));
    let node = call("count", vec![]);
    assert_eq!(eval(&node), Ok(Const::Int(0)));
    let node = call("unknown", vec![integer(1)]);
    assert_eq!(eval(&node), Err(RunErr::Undefined("unknown".to_string())));
    let node = binop(Bop::Plus, call("first", vec![integer(4)]), integer(1));
    assert_eq!(eval(&node), Ok(Const::Int(5)));
}

#[test]
fn eval_call_stops_at_the_first_argument_error() {
    let node = call("count", vec![integer(1), variable("a"), variable("b")]);
    assert_eq!(eval(&node), Err(RunErr::Undefined("a".to_string())));
    let node = call("unknown", vec![binop(Bop::Plus, integer(1), boolean(true))]);
    assert_eq!(eval(&node), Err(RunErr::Type(FAULT_PLUS)));
}

#[test]
fn eval_parts_directly() {
    let mut env = Environment::new();
    let node = BinopNode { op: Bop::Minus, lhs: Box::new(integer(5)), rhs: Box::new(integer(7)) };
    assert_eq!(eval_binary_expr(&node, &mut env, &host()), Ok(Const::Int(-2)));
    let node = UnopNode { op: Uop::Minus, expr: Box::new(integer(5)) };
    assert_eq!(eval_unary_expr(&node, &mut env, &host()), Ok(Const::Int(-5)));
    let node = FuncNode { iden: "first".to_string(), args: vec![character('c')] };
    assert_eq!(eval_func(&node, &mut env, &host()), Ok(Const::Char('c')));
}

#[test]
fn eval_other_nodes_are_type_errors() {
    assert_eq!(eval(&Node::Break), Err(RunErr::Type(FAULT_NODE)));
    assert_eq!(eval(&Node::Array(vec![integer(1)])), Err(RunErr::Type(FAULT_NODE)));
    assert_eq!(eval(&Node::Return(Box::new(integer(1)))), Err(RunErr::Type(FAULT_NODE)));
    assert_eq!(eval(&binop(Bop::Plus, integer(1), Node::Continue)), Err(RunErr::Type(FAULT_NODE)));
}

#[test]
fn eval_leaves_the_environment_as_it_is() {
    let mut env = Environment::new();
    let _ = eval_node(&variable("x"), &mut env, &host());
    env.pop();
    env.write("x", Const::Int(2)).unwrap();
    let node = binop(Bop::Multiply, variable("x"), variable("x"));
    assert_eq!(eval_node(&node, &mut env, &host()), Ok(Const::Int(4)));
    assert_eq!(env.read("x"), Ok(&Const::Int(2)));
}

fn read_float(text: String) -> Option<u64> {
    text.parse::<f64>().ok().map(f64::to_bits)
}

fn run(program: &str) -> Result<Const, RunErr> {
    let tokens = frontend::lexer::Lexer::new(program.as_bytes().to_vec(), read_float)
        .read_tokens()
        .unwrap();
    let node = frontend::parser::Parser::new(tokens).parse_expr().unwrap();
    eval(&node)
}

#[test]
fn run_source_text() {
    assert_eq!(run("2 * 3 + 1"), Ok(Const::Int(7)));
    assert_eq!(run("\"ab\" * 3"), Ok(Const::String("ababab".to_string())));
    assert!(is_type_error(&run("1 + true")));
    assert_eq!(run("nowhere"), Err(RunErr::Undefined("nowhere".to_string())));
    assert_eq!(run("2 ** 3 ** 2"), Ok(Const::Int(512)));
    assert_eq!(run("-2 ** 2"), Ok(Const::Int(4)));
    assert_eq!(run("7 / 2 - 1.5 == 0"), Err(RunErr::Type(frontend::value::FAULT_MINUS)));
    assert_eq!(run("7 / 2 - 1 == 2"), Ok(Const::Bool(true)));
    assert_eq!(run("1.5 + 2.5 == 4.0"), Ok(Const::Bool(true)));
    assert_eq!(run("!(1 < 2) || 'a' < 'b'"), Ok(Const::Bool(true)));
    assert_eq!(run("count(1, 2, first(3)) * 2"), Ok(Const::Int(6)));
    assert_eq!(run("\"a\" + \"b\" < \"b\""), Ok(Const::Bool(true)));
    assert_eq!(run("[1]"), Err(RunErr::Type(FAULT_NODE)));
}

#[test]
fn run_err_renders_on_one_line() {
    assert_eq!(RunErr::undefined("a\nb").render(), "Undefined variable a\\nb");
}

#[test]
fn type_errors_name_their_reason() {
    let one = || Const::Int(1);
    let yes = || Const::Bool(true);
    let word = || Const::String("a".to_string());
    let cases = [
        (Bop::Plus, one(), yes(), frontend::value::FAULT_PLUS),
        (Bop::Multiply, one(), word(), frontend::value::FAULT_MULTIPLY),
        (Bop::Minus, word(), word(), frontend::value::FAULT_MINUS),
        (Bop::Divide, yes(), one(), frontend::value::FAULT_DIVIDE),
        (Bop::Divide, one(), Const::Int(0), FAULT_DIVIDE_ZERO),
        (Bop::Exp, one(), yes(), frontend::value::FAULT_EXP),
        (Bop::Exp, one(), Const::Int(-1), FAULT_EXP_NEGATIVE),
        (Bop::Lt, one(), yes(), frontend::value::FAULT_ORDER),
        (Bop::Leq, word(), one(), frontend::value::FAULT_ORDER),
        (Bop::Gt, yes(), word(), frontend::value::FAULT_ORDER),
        (Bop::Geq, Const::Char('a'), word(), frontend::value::FAULT_ORDER),
        (Bop::And, one(), yes(), frontend::value::FAULT_AND),
        (Bop::Or, yes(), one(), frontend::value::FAULT_OR),
    ];
    for (op, l, r, reason) in cases {
        assert_eq!(apply(op, l, r), Err(RunErr::Type(reason)));
    }
    assert_eq!(apply_unop(Uop::Not, one()), Err(RunErr::Type(frontend::value::FAULT_NOT)));
    assert_eq!(apply_unop(Uop::Minus, yes()), Err(RunErr::Type(frontend::value::FAULT_NEGATE)));
    assert_eq!(
        RunErr::Type(frontend::value::FAULT_ORDER).render(),
        "Type error: Comparison operator must be applied to 2 values of the same kind"
    );
}
