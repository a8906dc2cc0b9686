use shade::lexer::lex;
use shade::lexer::token::{Kw, Lit, TkKind};
use shade::lexer::token::TkKind::{
    At, Bar, Colon, Comma, Comment, Dash, Dollar, Equals, Ident, KeyWord, Lbrace, Litteral, Lpar,
    Rbrace, Rpar,
};
use shade::lexer::Reason;

fn match_kinds(found: &Vec<TkKind>, expected: Vec<TkKind>) {
    for (found, expected) in found.iter().zip(expected.iter()) {
        assert_eq!(found, expected)
    }
    assert!(found.len() == expected.len());
}

#[test]
fn test_lex_fn_decl() {
    let lexed = lex("comp = f: g: x: f (g x)").unwrap();
    match_kinds(
        lexed.kinds(),
        vec![
            Ident, // comp
            Equals, // =
            Ident, // f
            Colon, // :
            Ident, // g
            Colon, // :
            Ident, // x
            Colon, // :
            Ident, // f
            Lpar, // (
            Ident, // g
            Ident, // x
            Rpar, // )
        ],
    );
}

#[test]
fn test_rec_dec() {
    let lexed = lex(
        r#"
            rec $ f: { x @ f, y @ f }
        "#,
    )
    .unwrap();
    match_kinds(
        lexed.kinds(),
        vec![
            Ident, // rec
            Dollar, // $
            Ident, // f
            Colon, // :
            Lbrace, // {
            Ident, // x
            At, // @
            Ident, // f
            Comma, // ,
            Ident, // y
            At, // @
            Ident, // f
            Rbrace, // }
        ],
    );
}

#[test]
fn test_enum_dec() {
    let lexed = lex(
        r#"
            enum $ a: b: | A a, B b, C |
        "#,
    )
    .unwrap();
    match_kinds(
        lexed.kinds(),
        vec![
            Ident, // enum
            Dollar, // $
            Ident, // a
            Colon, // :
            Ident, // b
            Colon, // :
            Bar, // |
            Ident, // A
            Ident, // a
            Comma, // ,
            Ident, // B
            Ident, // b
            Comma, // ,
            Ident, // C
            Bar, // |
        ],
    );
}

#[test]
fn test_comment() {
    let lexed = lex(
        r#"
            -- A comment
            a = 2
            -{ A multiline comment.
               Another line 
            }-
            id = x: x
        "#,
    )
    .unwrap();
    match_kinds(
        lexed.kinds(),
        vec![
            Comment,
            Ident, // a
            Equals, // =
            Litteral(Lit::Int), // 2
            Comment,
            Ident, // id
            Equals, // =
            Ident, // x
            Colon, // :
            Ident, // x
        ],
    );
}

#[test]
fn test_literals() {
    let lexed = lex(
        r#"
            a = 2
            b = 0b10010
            h = 0xff8ea0
            a = -2
            a = -2e-10
            a = 0.5
            s = "test"
        "#,
    )
    .unwrap();
    match_kinds(
        lexed.kinds(),
        vec![
            // a = 2
            Ident,
            Equals,
            Litteral(Lit::Int),
            // b = 0b10010
            Ident,
            Equals,
            Litteral(Lit::Int),
            // h = 0xff8ea0
            Ident,
            Equals,
            Litteral(Lit::Int),
            // a = -2
            Ident,
            Equals,
            Dash,
            Litteral(Lit::Int),
            // a = -2e-10
            Ident,
            Equals,
            Dash,
            Litteral(Lit::Float),
            // a = 0.5
            Ident,
            Equals,
            Litteral(Lit::Float),
            // s = "test"
            Ident,
            Equals,
            Litteral(Lit::StringLit),
        ],
    );
}

#[test]
fn lex_keywords_and_identifiers() {
    let lexed = lex("if then else match with let in iff _if lets").unwrap();
    match_kinds(
        lexed.kinds(),
        vec![
            KeyWord(Kw::If),
            KeyWord(Kw::Then),
            KeyWord(Kw::Else),
            KeyWord(Kw::Match),
            KeyWord(Kw::With),
            KeyWord(Kw::Let),
            KeyWord(Kw::In),
            Ident,
            Ident,
            Ident,
        ],
    );
}

#[test]
fn lex_multi_digit_integer_is_an_integer() {
    let lexed = lex("12 1234567 1.5 3e10 7E+2").unwrap();
    match_kinds(
        lexed.kinds(),
        vec![
            Litteral(Lit::Int),
            Litteral(Lit::Int),
            Litteral(Lit::Float),
            Litteral(Lit::Float),
            Litteral(Lit::Float),
        ],
    );
    assert_eq!(lexed.get_token_txt(4), "7E+2");
}

#[test]
fn lex_spans_and_texts() {
    let lexed = lex("ab = 0x1F\n  cd").unwrap();
    assert_eq!(lexed.nb_tokens(), 4);
    assert_eq!(lexed.get_token_txt(0), "ab");
    assert_eq!(lexed.get_token_txt(1), "=");
    assert_eq!(lexed.get_token_txt(2), "0x1F");
    assert_eq!(lexed.get_token_txt(3), "cd");
    let spans = lexed.spans();
    assert_eq!((spans[0].start.pos, spans[0].end.pos), (0, 2));
    assert_eq!((spans[0].start.row, spans[0].start.col), (0, 0));
    assert_eq!((spans[2].start.pos, spans[2].end.pos), (5, 9));
    assert_eq!((spans[3].start.pos, spans[3].end.pos), (12, 14));
    assert_eq!((spans[3].start.row, spans[3].start.col), (1, 2));
    assert_eq!((spans[3].end.row, spans[3].end.col), (1, 4));
    assert_eq!(lexed.source(), "ab = 0x1F\n  cd");
}

#[test]
fn lex_round_trip_without_white_space() {
    let source = "  a1 = ( b + 42 ) * c_d / 0b101 % x , [ y ] { z } | w @ v $ u < t > s . r : q  ";
    let lexed = lex(source).unwrap();
    let mut joined = String::new();
    for id in 0..lexed.nb_tokens() {
        joined.push_str(&lexed.get_token_txt(id));
    }
    let stripped: String = source.chars().filter(|c| !c.is_whitespace()).collect();
    assert_eq!(joined, stripped);
}

#[test]
fn lex_unrecognized_is_not_fatal() {
    let lexed = lex("a # b").unwrap();
    match_kinds(lexed.kinds(), vec![Ident, TkKind::Unrecognized, Ident]);
    let errs = lexed.minor_errors();
    assert_eq!(errs.len(), 1);
    assert_eq!(errs[0].reason, Reason::Unrecognized);
    assert_eq!(errs[0].loc.pos, 2);
}

#[test]
fn lex_unterminated_string_is_an_error() {
    let (err, partial) = lex("a = \"oops").unwrap_err();
    assert_eq!(err.reason, Reason::UnexpectedEOI);
    assert_eq!(err.loc.pos, 9);
    match_kinds(partial.kinds(), vec![Ident, Equals]);
}

#[test]
fn lex_escaped_quote_stays_in_the_string() {
    let lexed = lex(r#""a/"b" c"#).unwrap();
    match_kinds(lexed.kinds(), vec![Litteral(Lit::StringLit), Ident]);
    assert_eq!(lexed.get_token_txt(0), r#""a/"b""#);
}

#[test]
fn lex_block_comments_nest() {
    let lexed = lex("-{ a -{ b }- c }- d").unwrap();
    match_kinds(lexed.kinds(), vec![Comment, Ident]);
    assert_eq!(lexed.get_token_txt(0), "-{ a -{ b }- c }-");
}

#[test]
fn lex_unterminated_comment_is_an_error() {
    let (err, partial) = lex("x -{ a -{ b }- c").unwrap_err();
    assert_eq!(err.reason, Reason::UnexpectedEOI);
    assert_eq!(err.loc.pos, 16);
    match_kinds(partial.kinds(), vec![Ident]);
}

#[test]
fn lex_dash_alone_is_a_token() {
    let lexed = lex("a - b -").unwrap();
    match_kinds(lexed.kinds(), vec![Ident, Dash, Ident, Dash]);
}

#[test]
fn lex_empty_input() {
    let lexed = lex("   \n ").unwrap();
    assert_eq!(lexed.nb_tokens(), 0);
    assert_eq!(lexed.first(), None);
}

#[test]
fn handles_walk_the_buffer() {
    let lexed = lex("a b").unwrap();
    assert_eq!(lexed.first(), Some(0));
    assert_eq!(lexed.next_handle(0), Some(1));
    assert_eq!(lexed.next_handle(1), None);
    assert_eq!(*lexed.get_kind(1), Ident);
}

#[test]
fn delimiters_are_checked() {
    assert_eq!(lex("( [ a ] { b | c } )").unwrap().check_delimiters(), Ok(()));
    assert_eq!(lex("").unwrap().check_delimiters(), Ok(()));
    let e = lex("( a ]").unwrap().check_delimiters().unwrap_err();
    assert_eq!(e.loc.pos, 4);
    assert!(matches!(e.reason, Reason::UnbalancedDelimiter(loc) if loc.pos == 4));
    let e = lex("a )").unwrap().check_delimiters().unwrap_err();
    assert_eq!(e.loc.pos, 2);
    let e = lex("( { a }").unwrap().check_delimiters().unwrap_err();
    assert_eq!(e.loc.pos, 0);
    let e = lex("[ ( a ]").unwrap().check_delimiters().unwrap_err();
    assert_eq!(e.loc.pos, 6);
}
