use shade::ast::evaluator::Evaluator;
use shade::ast::expr::{Expr, Value};
use shade::ast::op::Op;
use shade::ast::stmt::Stmt;
use shade::lexer::lex;
use shade::lexer::token::{Lit, TkKind};
use shade::parser::combinator::{
    And, Basic, Between, Mapped, Not, OneOrMore, Or, Peek, Token, ZeroOrMore,
};
use shade::parser::expr::{
    binary_parser, expr, op_parser, parse_expr, parse_stmt, stmt_parser, term, unary_parser,
};
use shade::parser::grammar::{assign, atom, basic, fn_app, function, token, Rule};
use shade::parser::parsetree::NodeKind;
use shade::parser::parsetree::NodeKind::{
    Assign, AtomBegin, AtomEnd, BinaryOp, FnApp, FnArg, FnDecl, IdentValue, LAssign, Number,
    UnaryOp,
};
use shade::parser::state::{ParserState, StateError};
use shade::parser::value::{read_int, value_parser};
use shade::parser::{ParseError, Parser, ParserRes};

fn read_float(text: &str) -> Option<u64> {
    text.parse::<f64>().ok().map(f64::to_bits)
}

fn float(x: f64) -> Value {
    Value::float(x.to_bits())
}

fn new_state(input: &str) -> ParserState {
    ParserState::new(lex(input).unwrap())
}

fn unwrap<O>(res: ParserRes<O>) -> O {
    match res {
        ParserRes::Succ(o) => o,
        ParserRes::Fail(e) => panic!("the parser did not match: {:?}", e),
    }
}

fn unwrap_fail<O>(res: ParserRes<O>) -> ParseError {
    match res {
        ParserRes::Succ(_) => panic!("the parser matched"),
        ParserRes::Fail(e) => e,
    }
}

fn test_op(op: Op) -> bool {
    let mut state = new_state(&op.to_text());
    let x = if let ParserRes::Succ(pop) = op_parser(&mut state, op) {
        pop == op
    } else {
        false
    };
    x
}

#[test]
fn test_op_parser() {
    assert!(test_op(Op::Add));
    assert!(test_op(Op::Sub));
    assert!(test_op(Op::Mul));
    assert!(test_op(Op::Pipe));
    assert!(test_op(Op::Mod));
    assert!(test_op(Op::Div));
}

#[test]
fn expr_test_parse_unary() {
    let mut state = new_state("-1");
    let parse_res: Expr = unwrap(unary_parser(&mut state, &read_float));
    assert_eq!(parse_res, Expr::unary(Op::Sub, Expr::value(1)));
}

#[test]
fn expr_test_parse_binary() {
    let mut state = new_state("3 * 5 + 2");
    let parse_res: Expr = unwrap(binary_parser(&mut state, &read_float));
    let expected: Expr = Expr::binary(
        Op::Add,
        Expr::binary(Op::Mul, Expr::value(3), Expr::value(5)),
        Expr::value(2),
    );
    assert_eq!(parse_res, expected);
}

#[test]
fn expr_test_parse_binary_with_term() {
    let mut state = new_state("3 * (5 + 2)");
    let parse_res: Expr = unwrap(binary_parser(&mut state, &read_float));
    let expected: Expr = Expr::binary(
        Op::Mul,
        Expr::value(3),
        Expr::binary(Op::Add, Expr::value(5), Expr::value(2)),
    );
    assert_eq!(parse_res, expected);
}

#[test]
fn expr_test_parse_binary_with_term_and_floats() {
    let mut state = new_state("3. * (5e-1 + 2.)");
    let parse_res: Expr = unwrap(binary_parser(&mut state, &read_float));
    let expected: Expr = Expr::binary(
        Op::Mul,
        Expr::value(float(3.)),
        Expr::binary(Op::Add, Expr::value(float(5e-1)), Expr::value(float(2.))),
    );
    assert_eq!(parse_res, expected);
}

#[test]
fn mod_test_parse_unary() {
    let mut state = new_state("-1");
    let parse_res: Expr = unwrap(unary_parser(&mut state, &read_float));
    assert_eq!(parse_res, Expr::unary(Op::Sub, Expr::value(1)));
}

#[test]
fn mod_test_parse_binary() {
    let mut state = new_state("3 * 5 + 2");
    let parse_res: Expr = unwrap(binary_parser(&mut state, &read_float));
    let expected: Expr = Expr::binary(
        Op::Add,
        Expr::binary(Op::Mul, Expr::value(3), Expr::value(5)),
        Expr::value(2),
    );
    assert_eq!(parse_res, expected);
}

#[test]
fn mod_test_parse_binary_with_term() {
    let mut state = new_state("3 * (5 + 2)");
    let parse_res: Expr = unwrap(binary_parser(&mut state, &read_float));
    let expected: Expr = Expr::binary(
        Op::Mul,
        Expr::value(3),
        Expr::binary(Op::Add, Expr::value(5), Expr::value(2)),
    );
    assert_eq!(parse_res, expected);
}

#[test]
fn mod_test_parse_binary_with_term_and_floats() {
    let mut state = new_state("3. * (5e-1 + 2.)");
    let parse_res: Expr = unwrap(binary_parser(&mut state, &read_float));
    let expected: Expr = Expr::binary(
        Op::Mul,
        Expr::value(float(3.)),
        Expr::binary(Op::Add, Expr::value(float(5e-1)), Expr::value(float(2.))),
    );
    assert_eq!(parse_res, expected);
}

#[test]
fn test_value_parser_int() {
    let mut state = new_state("12");
    let value_int = unwrap(value_parser(&mut state, &read_float));
    assert_eq!(Value::new(12), value_int);

    let mut state = new_state("0b1010");
    let value_int = unwrap(value_parser(&mut state, &read_float));
    assert_eq!(Value::new(10), value_int);

    let mut state = new_state("0xff");
    let value_int = unwrap(value_parser(&mut state, &read_float));
    assert_eq!(Value::new(255), value_int);
}

#[test]
fn test_value_parser_float() {
    let mut state = new_state("3e-10");
    let value_float = unwrap(value_parser(&mut state, &read_float));
    assert_eq!(float(3e-10), value_float);
    let mut state = new_state("3.5");
    let value_float = unwrap(value_parser(&mut state, &read_float));
    assert_eq!(float(3.5), value_float);
}

#[test]
fn test_value_parser_unit() {
    let mut state = new_state("()");
    let value_unit = unwrap(value_parser(&mut state, &read_float));
    assert_eq!(Value::new(()), value_unit);
}

#[test]
fn integer_literals_in_three_bases() {
    assert_eq!(read_int("0"), Some(0));
    assert_eq!(read_int("12"), Some(12));
    assert_eq!(read_int("0012"), Some(12));
    assert_eq!(read_int("0b1010"), Some(10));
    assert_eq!(read_int("0xff"), Some(255));
    assert_eq!(read_int("0xFF8ea0"), Some(0xff8ea0));
    assert_eq!(read_int("9223372036854775807"), Some(i64::MAX));
    assert_eq!(read_int("9223372036854775808"), None);
    assert_eq!(read_int("0x7fffffffffffffff"), Some(i64::MAX));
    assert_eq!(read_int("0x8000000000000000"), None);
    assert_eq!(read_int("0x"), None);
    assert_eq!(read_int("0b"), None);
    assert_eq!(read_int("0b12"), None);
    assert_eq!(read_int(""), None);
    assert_eq!(read_int("12a"), None);
}

#[test]
fn invalid_literal_is_reported() {
    let mut state = new_state("99999999999999999999");
    let e = unwrap_fail(shade::parser::value::int_parser(&mut state));
    assert_eq!(e, ParseError::InvalidLiteral { at: 0 });
    assert_eq!(state.cursor(), 0);
}

#[test]
fn products_and_sums_fold_from_the_left() {
    let tree = parse_expr(lex("8 / 4 / 2 - 1 - (2 % 3)").unwrap(), &read_float).unwrap();
    let expected = Expr::binary(
        Op::Sub,
        Expr::binary(
            Op::Sub,
            Expr::binary(
                Op::Div,
                Expr::binary(Op::Div, Expr::value(8), Expr::value(4)),
                Expr::value(2),
            ),
            Expr::value(1),
        ),
        Expr::binary(Op::Mod, Expr::value(2), Expr::value(3)),
    );
    assert_eq!(tree, expected);
}

#[test]
fn expression_writes_operators_after_operands() {
    let mut state = new_state("3 * (5 + 2)");
    let _ = unwrap(expr(&mut state, &read_float));
    let parsed = state.run_parser(Not { f: Token { kind: TkKind::Ident } });
    assert_eq!(
        parsed.nodes(),
        &vec![Number, Number, Number, BinaryOp, AtomEnd, AtomBegin, BinaryOp]
    );
    assert_eq!(parsed.handles(), &vec![0usize, 3, 5, 4, 6, 2, 1]);
    assert!(parsed.errors().is_empty());
}

#[test]
fn whole_expression_must_take_every_token() {
    assert_eq!(
        parse_expr(lex("1 + 2 3").unwrap(), &read_float),
        Err(ParseError::ExpectedEOI { at: 3 })
    );
    assert_eq!(
        parse_expr(lex("").unwrap(), &read_float),
        Err(ParseError::UnexpectedEOI)
    );
    assert_eq!(
        parse_expr(lex("(1 + 2").unwrap(), &read_float),
        Err(ParseError::UnexpectedEOI)
    );
    assert_eq!(
        parse_expr(lex("* 2").unwrap(), &read_float),
        Err(ParseError::UnexpectedToken {
            found: TkKind::Star,
            expected: Some(TkKind::Litteral(Lit::Int)),
            at: 0
        })
    );
    assert_eq!(
        parse_expr(lex("+ 4").unwrap(), &read_float),
        Ok(Expr::unary(Op::Add, Expr::value(4)))
    );
    assert_eq!(
        parse_expr(lex("2 * (3 + 99999999999999999999)").unwrap(), &read_float),
        Err(ParseError::ExpectedEOI { at: 1 })
    );
    assert_eq!(
        parse_expr(lex("(99999999999999999999)").unwrap(), &read_float),
        Err(ParseError::InvalidLiteral { at: 1 })
    );
}

#[test]
fn failed_term_leaves_no_trace() {
    let mut state = new_state("(1 + 2 3");
    let before = state.save();
    let e = unwrap_fail(term(&mut state, &read_float));
    assert_eq!(
        e,
        ParseError::UnexpectedToken {
            found: TkKind::Litteral(Lit::Int),
            expected: Some(TkKind::Rpar),
            at: 4
        }
    );
    let after = state.save();
    assert_eq!((before.0, before.1, before.2), (after.0, after.1, after.2));
    assert_eq!(state.cursor(), 0);
}

fn nodes_of(input: &str, rule: Rule) -> (Vec<NodeKind>, Vec<usize>, Vec<StateError>) {
    let parsed = new_state(input).run_parser(rule);
    (parsed.nodes().clone(), parsed.handles().clone(), parsed.errors().clone())
}

#[test]
fn test_assign() {
    let (nodes, handles, errors) = nodes_of("a = x: x", Rule::Assign);
    assert_eq!(nodes, vec![Assign, FnArg, IdentValue, FnDecl, LAssign]);
    assert_eq!(handles, vec![1, 2, 4, 3, 0]);
    assert!(errors.is_empty());
}

#[test]
fn test_fn_app() {
    let (nodes, handles, _) = nodes_of("(f: f) a", Rule::Expr);
    assert_eq!(
        nodes,
        vec![FnArg, IdentValue, FnDecl, AtomEnd, AtomBegin, IdentValue, FnApp]
    );
    assert_eq!(handles, vec![1, 3, 2, 4, 0, 5, 5]);
}

#[test]
fn test_fn_app_2() {
    let (nodes, _, _) = nodes_of("(f: g: f g) (x: x) a", Rule::Expr);
    assert_eq!(
        nodes,
        vec![
            FnArg, // f
            FnArg, // g
            IdentValue, // f
            IdentValue, // g
            FnApp,
            FnDecl, // g:
            FnDecl, // f:
            AtomEnd,
            AtomBegin,
            FnArg, // x
            IdentValue, // x
            FnDecl, // x:
            AtomEnd,
            AtomBegin,
            IdentValue, // a
            FnApp,
            FnApp,
        ]
    );
}

#[test]
fn rules_that_fail_leave_the_state_alone() {
    let mut state = new_state("a = (x: ) b");
    state.push_node(IdentValue);
    state.stack_node(Assign);
    let before = state.save();
    let cursor = state.cursor();
    for which in [Rule::Assign, Rule::Expr, Rule::FnApp, Rule::FnAppLeft, Rule::Function] {
        match which.parse(&mut state) {
            ParserRes::Succ(_) => panic!("the rule matched"),
            ParserRes::Fail(_) => {}
        }
        let after = state.save();
        assert_eq!((before.0, before.1, before.2), (after.0, after.1, after.2));
        assert_eq!(state.cursor(), cursor);
    }
    assert!(matches!(atom(&mut state, Rule::Function), ParserRes::Fail(_)));
    assert!(matches!(function(&mut state), ParserRes::Fail(_)));
    assert!(matches!(fn_app(&mut state), ParserRes::Fail(_)));
    assert!(matches!(assign(&mut state), ParserRes::Fail(_)));
    assert_eq!(state.cursor(), cursor);
}

#[test]
fn failure_is_recorded_by_run_parser() {
    let (nodes, _, errors) = nodes_of("a b", Rule::Assign);
    assert!(nodes.is_empty());
    assert_eq!(
        errors,
        vec![StateError::ParseError(ParseError::UnexpectedToken {
            found: TkKind::Ident,
            expected: Some(TkKind::Equals),
            at: 1
        })]
    );
}

#[test]
fn token_looks_and_basic_consumes() {
    let mut state = new_state("a :");
    assert!(matches!(token(&mut state, TkKind::Ident), ParserRes::Succ(())));
    assert_eq!(state.cursor(), 0);
    assert_eq!(
        unwrap_fail(token(&mut state, TkKind::Colon)),
        ParseError::UnexpectedToken { found: TkKind::Ident, expected: Some(TkKind::Colon), at: 0 }
    );
    assert!(matches!(basic(&mut state, TkKind::Ident, IdentValue), ParserRes::Succ(())));
    assert_eq!(state.cursor(), 1);
    assert!(state.is_kind(TkKind::Colon));
    assert!(matches!(basic(&mut state, TkKind::Colon, FnDecl), ParserRes::Succ(())));
    assert_eq!(unwrap_fail(token(&mut state, TkKind::Colon)), ParseError::UnexpectedEOI);
}

#[test]
fn save_and_restore_rewind_the_cursor() {
    let mut state = new_state("a b c d");
    state.push_node(IdentValue);
    let save = state.save();
    state.stack_node(LAssign);
    state.push_node(IdentValue);
    state.note_node(FnApp);
    assert_eq!(state.cursor(), 3);
    state.pop_node();
    state.restore(save);
    assert_eq!(state.cursor(), 1);
    let again = state.save();
    assert_eq!((again.0, again.1, again.2), (1, 0, 0));
    state.restore(shade::parser::state::Save(7, 7, 7));
    assert_eq!(state.cursor(), 1);
}

#[test]
fn sequence_undoes_its_first_part() {
    let ident = Basic { tk: TkKind::Ident, node: IdentValue };
    let colon = Basic { tk: TkKind::Colon, node: FnDecl };
    let mut state = new_state("a b");
    let res = And { f: ident, s: colon }.parse(&mut state);
    assert_eq!(
        unwrap_fail(res),
        ParseError::UnexpectedToken { found: TkKind::Ident, expected: Some(TkKind::Colon), at: 1 }
    );
    assert_eq!(state.cursor(), 0);
    assert_eq!(state.save().0, 0);
}

#[test]
fn choice_takes_the_first_that_matches() {
    let mut state = new_state(": a");
    let p = Or {
        f: Basic { tk: TkKind::Ident, node: IdentValue },
        s: Basic { tk: TkKind::Colon, node: FnDecl },
    };
    unwrap(p.parse(&mut state));
    unwrap(p.parse(&mut state));
    assert_eq!(unwrap_fail(p.parse(&mut state)), ParseError::UnexpectedEOI);
    let parsed = state.run_parser(Token { kind: TkKind::Ident });
    assert_eq!(parsed.nodes(), &vec![FnDecl, IdentValue]);
    assert_eq!(parsed.errors().len(), 1);
}

#[test]
fn repetitions_keep_what_matched() {
    let mut state = new_state("a b c : d");
    let many = ZeroOrMore { p: Basic { tk: TkKind::Ident, node: IdentValue } };
    assert_eq!(unwrap(many.parse(&mut state)).len(), 3);
    assert_eq!(state.cursor(), 3);
    assert_eq!(unwrap(many.parse(&mut state)).len(), 0);
    assert_eq!(state.cursor(), 3);
    let some = OneOrMore { p: Basic { tk: TkKind::Ident, node: IdentValue } };
    assert_eq!(
        unwrap_fail(some.parse(&mut state)),
        ParseError::UnexpectedToken { found: TkKind::Colon, expected: Some(TkKind::Ident), at: 3 }
    );
    assert_eq!(state.cursor(), 3);
    unwrap(Basic { tk: TkKind::Colon, node: FnDecl }.parse(&mut state));
    assert_eq!(unwrap(some.parse(&mut state)).len(), 1);
    assert_eq!(state.cursor(), 5);
}

#[test]
fn repetition_stops_when_nothing_is_consumed() {
    let mut state = new_state("a");
    let looks = ZeroOrMore { p: Token { kind: TkKind::Ident } };
    assert_eq!(unwrap(looks.parse(&mut state)).len(), 1);
    assert_eq!(state.cursor(), 0);
}

#[test]
fn lookahead_consumes_nothing() {
    let mut state = new_state("a b");
    let ident = || Basic { tk: TkKind::Ident, node: IdentValue };
    unwrap(Peek { f: ident() }.parse(&mut state));
    assert_eq!((state.cursor(), state.save().0), (0, 0));
    assert_eq!(
        unwrap_fail(Not { f: ident() }.parse(&mut state)),
        ParseError::UnexpectedToken { found: TkKind::Ident, expected: None, at: 0 }
    );
    assert_eq!((state.cursor(), state.save().0), (0, 0));
    unwrap(Not { f: Basic { tk: TkKind::Colon, node: FnDecl } }.parse(&mut state));
    assert_eq!((state.cursor(), state.save().0), (0, 0));
    assert!(matches!(
        Peek { f: Basic { tk: TkKind::Colon, node: FnDecl } }.parse(&mut state),
        ParserRes::Fail(_)
    ));
    assert!(matches!(state.run_parser_and_reset(ident()), ParserRes::Succ(())));
    assert_eq!((state.cursor(), state.save().0), (0, 0));
}

#[test]
fn map_and_between() {
    let mut state = new_state("( a ) b");
    let p = Mapped {
        p: Between {
            open: Basic { tk: TkKind::Lpar, node: AtomBegin },
            p: Basic { tk: TkKind::Ident, node: IdentValue },
            close: Basic { tk: TkKind::Rpar, node: AtomEnd },
        },
        g: |_: ()| 7usize,
    };
    assert_eq!(unwrap(p.parse(&mut state)), 7);
    assert_eq!(state.cursor(), 3);
    assert!(matches!(p.parse(&mut state), ParserRes::Fail(_)));
    assert_eq!(state.cursor(), 3);
    let mut state = new_state("( a b");
    assert!(matches!(p.parse(&mut state), ParserRes::Fail(_)));
    assert_eq!((state.cursor(), state.save().0), (0, 0));
}

#[test]
fn unary_writes_its_operator_last() {
    let mut state = new_state("- ( 1 )");
    let tree = unwrap(expr(&mut state, &read_float));
    assert_eq!(tree, Expr::unary(Op::Sub, Expr::value(1)));
    let parsed = state.run_parser(Token { kind: TkKind::Ident });
    assert_eq!(parsed.nodes(), &vec![Number, AtomEnd, AtomBegin, UnaryOp]);
}

#[test]
fn statements_are_assignments_expressions_or_names() {
    assert_eq!(
        parse_stmt(lex("a = 1 + 2").unwrap(), &read_float),
        Ok(Stmt::assign(
            "a".to_string(),
            Expr::binary(Op::Add, Expr::value(1), Expr::value(2))
        ))
    );
    assert_eq!(
        parse_stmt(lex("(4)").unwrap(), &read_float),
        Ok(Stmt::Expr(Expr::value(4)))
    );
    assert_eq!(
        parse_stmt(lex("abc").unwrap(), &read_float),
        Ok(Stmt::Expr(Expr::ident("abc".to_string())))
    );
    assert_eq!(
        parse_stmt(lex("a = ").unwrap(), &read_float),
        Err(ParseError::ExpectedEOI { at: 1 })
    );
    assert_eq!(
        parse_stmt(lex("= 1").unwrap(), &read_float),
        Err(ParseError::UnexpectedToken {
            found: TkKind::Equals,
            expected: Some(TkKind::Ident),
            at: 0
        })
    );
    assert_eq!(
        parse_stmt(lex("a b").unwrap(), &read_float),
        Err(ParseError::ExpectedEOI { at: 1 })
    );
    let mut state = new_state("x = 2 * 3");
    let _ = unwrap(stmt_parser(&mut state, &read_float));
    let parsed = state.run_parser(Token { kind: TkKind::Ident });
    assert_eq!(parsed.nodes(), &vec![Assign, Number, Number, BinaryOp, LAssign]);
}

#[test]
fn a_session_from_text() {
    let arith = |op: Op, a: u64, b: u64| {
        let (x, y) = (f64::from_bits(a), f64::from_bits(b));
        match op {
            Op::Add => (x + y).to_bits(),
            Op::Sub => (x - y).to_bits(),
            Op::Mul => (x * y).to_bits(),
            _ => (x / y).to_bits(),
        }
    };
    let mut ev = Evaluator::new(arith);
    let mut run = |line: &str| ev.eval_stmt(parse_stmt(lex(line).unwrap(), &read_float).unwrap());
    assert_eq!(run("a = 122"), Ok(Value::Unit));
    assert_eq!(run("a"), Ok(Value::Int(122)));
    assert_eq!(run("3 * (5 + 2)"), Ok(Value::Int(21)));
    assert_eq!(run("-(0x10)"), Ok(Value::Int(-16)));
    assert_eq!(run("1.5 * 2.0 - 0.5"), Ok(float(2.5)));
    assert!(run("1 + 1.0").is_err());
    assert!(run("z").is_err());
}

#[test]
fn state_errors_have_their_inputs() {
    let e = ParserState::from_source("a = \"open").unwrap_err();
    match e {
        StateError::LexError(e) => {
            assert_eq!(e.reason, shade::lexer::Reason::UnexpectedEOI);
            assert_eq!(e.loc.pos, 9);
        }
        other => panic!("another error: {:?}", other),
    }
    let mut state = ParserState::from_source("a").unwrap();
    assert_eq!(state.try_stack_node(LAssign), Ok(()));
    assert_eq!(state.try_push_node(IdentValue), Err(StateError::TriedToCheckNullKind));
    assert_eq!(state.try_stack_node(FnApp), Err(StateError::TriedToCheckNullKind));
    assert_eq!(state.cursor(), 1);
    let save = state.save();
    assert_eq!(state.try_restore(shade::parser::state::Save(1, 0, 0)), Err(StateError::OOBReset));
    assert_eq!(state.try_restore(shade::parser::state::Save(0, 2, 0)), Err(StateError::OOBReset));
    assert_eq!(state.cursor(), 1);
    assert_eq!(state.try_restore(shade::parser::state::Save(0, 0, 0)), Ok(()));
    assert_eq!(state.cursor(), 0);
    assert_eq!((save.0, save.1, save.2), (0, 1, 0));
}

#[test]
fn push_and_stack_always_advance() {
    let mut state = new_state("a b c d");
    state.push_node(FnApp);
    assert_eq!(state.cursor(), 1);
    state.stack_node(FnApp);
    assert_eq!(state.cursor(), 2);
    let save = state.save();
    state.note_node(FnApp);
    assert_eq!(state.cursor(), 2);
    state.push_node(IdentValue);
    assert_eq!(state.cursor(), 3);
    state.pop_node();
    assert_eq!(state.cursor(), 3);
    state.restore(save);
    assert_eq!(state.cursor(), 2);
    assert_eq!((state.save().0, state.save().1), (1, 1));
    state.pop_node();
    state.note_node(FnApp);
    state.pop_node();
    let parsed = state.run_parser(Token { kind: TkKind::Ident });
    assert_eq!(parsed.nodes(), &vec![FnApp, FnApp, FnApp]);
    assert_eq!(parsed.handles(), &vec![0usize, 1, 2]);
    assert_eq!(parsed.taken(), &vec![true, true, false]);
}

#[test]
fn the_application_node_takes_no_token() {
    let parsed = new_state("f a").run_parser(Rule::Expr);
    assert_eq!(parsed.nodes(), &vec![IdentValue, IdentValue, FnApp]);
    assert_eq!(parsed.handles(), &vec![0usize, 1, 1]);
    assert_eq!(parsed.taken(), &vec![true, true, false]);
}
