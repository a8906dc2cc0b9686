use shade::ast::context::Context;
use shade::ast::def::{Def, Function, FunctionDef};
use shade::ast::evaluator::EvaluationError;
use shade::ast::expr::{Expr, Value, ValueKind};
use shade::ast::op::Op;
use shade::ast::ty::{PrimitiveType, TypeExpr};
use shade::lexer::token::{Kw, Lit, TkKind};
use shade::lexer::{LexError, Reason};
use shade::parser::parsetree::NodeKind;
use shade::parser::state::StateError;
use shade::parser::ParseError;
use shade::types::Type;
use shade::utils::{int_text, nat_text, Loc};

fn show_float(bits: u64) -> String {
    format!("{}", f64::from_bits(bits))
}

fn float(x: f64) -> Value {
    Value::float(x.to_bits())
}

#[test]
fn numbers_are_written_in_decimal() {
    assert_eq!(nat_text(0), "0");
    assert_eq!(nat_text(7), "7");
    assert_eq!(nat_text(10), "10");
    assert_eq!(nat_text(18446744073709551615), "18446744073709551615");
    assert_eq!(int_text(0), "0");
    assert_eq!(int_text(-16), "-16");
    assert_eq!(int_text(i64::MAX), "9223372036854775807");
    assert_eq!(int_text(i64::MIN), "-9223372036854775808");
}

#[test]
fn values_are_shown() {
    assert_eq!(Value::Int(-16).to_text(&show_float), "-16");
    assert_eq!(float(-139.0).to_text(&show_float), "-139");
    assert_eq!(float(0.5).to_text(&show_float), "0.5");
    assert_eq!(Value::Unit.to_text(&show_float), "");
    let list = Value::new(vec![Value::Int(1), float(2.5), Value::new(vec![Value::Int(3)])]);
    assert_eq!(list.to_text(&show_float), "[ 1 2.5 [ 3 ] ]");
    assert_eq!(Value::new(Vec::new()).to_text(&show_float), "[  ]");
    let body = Expr::binary(
        Op::Add,
        Expr::ident("x".to_string()),
        Expr::unary(Op::Sub, Expr::value(1)),
    );
    let f = Value::Fn { arg: "x".to_string(), expr: Box::new(body) };
    assert_eq!(f.to_text(&show_float), "x -> (x + -1)");
}

#[test]
fn kinds_are_shown() {
    assert_eq!(TkKind::Lpar.to_text(), "(");
    assert_eq!(TkKind::Rpar.to_text(), ")");
    assert_eq!(TkKind::Lbrace.to_text(), "{");
    assert_eq!(TkKind::Percent.to_text(), "%");
    assert_eq!(TkKind::Ident.to_text(), "identifier");
    assert_eq!(TkKind::Litteral(Lit::Float).to_text(), "Lit(float)");
    assert_eq!(TkKind::KeyWord(Kw::Match).to_text(), "Kw(match)");
    assert_eq!(Kw::In.to_text(), "in");
    assert_eq!(Lit::StringLit.to_text(), "string");
    assert_eq!(NodeKind::FnApp.to_text(), "Function Application");
    assert_eq!(NodeKind::LAssign.to_text(), "Left side of the assignement");
    assert_eq!(Op::Pipe.to_text(), "|>");
    assert_eq!(Op::Neq.to_text(), "!=");
    assert_eq!(ValueKind::Fn.to_text(), "function");
    assert_eq!(Type::List(Box::new(Type::List(Box::new(Type::Int)))).to_text(), "list list int");
    assert_eq!(Type::Undefined.to_text(), "undefined type");
}

#[test]
fn errors_are_shown() {
    let e = LexError { loc: Loc { pos: 9, row: 1, col: 4 }, reason: Reason::UnexpectedEOI };
    assert_eq!(e.to_text(), "Lexing error at: (1, 4) because Unexpected end of input.");
    let p = ParseError::UnexpectedToken { found: TkKind::Ident, expected: Some(TkKind::Colon), at: 12 };
    assert_eq!(p.to_text(), "Unexpected identifier at token 12, expected :");
    let p = ParseError::UnexpectedToken { found: TkKind::Star, expected: None, at: 0 };
    assert_eq!(p.to_text(), "Unexpected * at token 0");
    assert_eq!(ParseError::UnexpectedEOI.to_text(), "Unexpected end of input");
    assert_eq!(
        StateError::ParseError(ParseError::InvalidLiteral { at: 3 }).to_text(),
        "Syntax Error: Invalid number literal at token 3"
    );
    assert_eq!(StateError::LexError(e).to_text(), "lexer error.");
    assert_eq!(
        StateError::OOBReset.to_text(),
        "the parser tried to reset its position farther than it was."
    );
    assert_eq!(
        StateError::TriedToCheckNullKind.to_text(),
        "The parser tried to check a null token can happen if the input is empty or the parser reaches the end of a file."
    );
    assert_eq!(
        EvaluationError::UnboundIdentifier("z".to_string()).to_text(),
        "Unbound identifier: z"
    );
    assert_eq!(
        EvaluationError::TypeMismatch {
            op: Op::Add,
            left: ValueKind::Int,
            right: Some(ValueKind::Float)
        }
        .to_text(),
        "Type mismatch: + does not apply to int and float"
    );
    assert_eq!(
        EvaluationError::TypeMismatch { op: Op::Sub, left: ValueKind::Unit, right: None }.to_text(),
        "Type mismatch: - does not apply to unit"
    );
    assert_eq!(EvaluationError::DivisionByZero.to_text(), "Division by zero");
}

#[test]
fn furthest_failure_wins() {
    let near = ParseError::UnexpectedToken { found: TkKind::Ident, expected: None, at: 1 };
    let far = ParseError::InvalidLiteral { at: 4 };
    assert_eq!(near.furthest(far), far);
    assert_eq!(far.furthest(near), far);
    assert_eq!(near.furthest(ParseError::ExpectedEOI { at: 1 }), near);
    assert_eq!(far.furthest(ParseError::UnexpectedEOI), ParseError::UnexpectedEOI);
    assert_eq!(ParseError::UnexpectedEOI.position(), usize::MAX);
}

#[test]
fn delimiters_pair_up() {
    assert!(TkKind::Lpar.is_open_delim() && !TkKind::Lpar.is_close_delim());
    assert!(TkKind::Lbrace.is_open_delim() && TkKind::Lbracket.is_open_delim());
    assert!(TkKind::Rbrace.is_close_delim() && !TkKind::Rbrace.is_open_delim());
    assert!(!TkKind::Bar.is_open_delim() && !TkKind::Bar.is_close_delim());
    assert_eq!(TkKind::Lpar.get_matching_delim(), TkKind::Rpar);
    assert_eq!(TkKind::Rbracket.get_matching_delim(), TkKind::Lbracket);
    assert_eq!(TkKind::Lbrace.get_matching_delim(), TkKind::Rbrace);
    assert_eq!(TkKind::Bar.get_matching_delim(), TkKind::Bar);
}

#[test]
fn function_definitions_bind_closures() {
    let mut ctx = Context::new();
    let def = FunctionDef::new(
        "id".to_string(),
        Function { arg: "x".to_string(), body: Expr::ident("x".to_string()) },
    );
    assert_eq!(def.eval(&mut ctx), Value::Unit);
    assert_eq!(
        ctx.get(&"id".to_string()),
        Some(&Value::Fn { arg: "x".to_string(), expr: Box::new(Expr::ident("x".to_string())) })
    );
    assert_eq!(
        Def::function("one".to_string(), Expr::value(1)),
        Def::typed_function("one".to_string(), None, Expr::value(1))
    );
    assert_eq!(
        Def::ty("n".to_string(), TypeExpr::Primitive(PrimitiveType::Int)),
        Def::Type { ident: "n".to_string(), ty: TypeExpr::Primitive(PrimitiveType::Int) }
    );
    assert_eq!(
        Def::type_binding("n".to_string(), TypeExpr::NamedType("t".to_string())),
        Def::Binding { ident: "n".to_string(), ty: TypeExpr::NamedType("t".to_string()) }
    );
}
