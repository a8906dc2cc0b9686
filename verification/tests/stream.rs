use shade::input::{Input, InputMetaData};
use shade::lexer::cursor::Cursor;
use shade::lexer::stream::{Lexer, Loc as Place, Token, TokenKind};
use shade::lexer::Reason;
use shade::utils::{Loc, Span};

fn kinds_of(source: &str) -> Vec<TokenKind> {
    let mut lexer = Lexer::new(source, None);
    let mut kinds = Vec::new();
    loop {
        let tok = lexer.next_tok();
        if tok.kind == TokenKind::EOI {
            break;
        }
        kinds.push(tok.kind);
    }
    kinds
}

#[test]
fn stream_hands_out_tokens_in_order() {
    assert_eq!(
        kinds_of("a: 3 * (5 + 2.5) - x % 2 / y"),
        vec![
            TokenKind::Ident,
            TokenKind::Colon,
            TokenKind::Int,
            TokenKind::Star,
            TokenKind::Lpar,
            TokenKind::Int,
            TokenKind::Plus,
            TokenKind::Float,
            TokenKind::Rpar,
            TokenKind::Dash,
            TokenKind::Ident,
            TokenKind::Percent,
            TokenKind::Int,
            TokenKind::Slash,
            TokenKind::Ident,
        ]
    );
}

#[test]
fn stream_skips_comments_and_coarsens_kinds() {
    assert_eq!(
        kinds_of("if -- note\n x = 1 -{ c }- \"s\""),
        vec![
            TokenKind::Ident,
            TokenKind::Ident,
            TokenKind::Unrecognized,
            TokenKind::Int,
            TokenKind::Unrecognized,
        ]
    );
}

#[test]
fn stream_tokens_carry_text_and_place() {
    let mut lexer = Lexer::new("ab\n  12", Some("main.sh".to_string()));
    let tok = lexer.next_tok();
    assert_eq!(
        tok,
        Token {
            kind: TokenKind::Ident,
            text: "ab".to_string(),
            loc: Place { file_path: Some("main.sh".to_string()), row: 0, col: 0 },
        }
    );
    assert_eq!(lexer.pos(), (0, 2, 2));
    let tok = lexer.next_tok();
    assert_eq!((tok.kind, tok.text.as_str(), tok.loc.row, tok.loc.col), (TokenKind::Int, "12", 1, 2));
    assert_eq!(lexer.pos(), (1, 4, 7));
    assert_eq!(lexer.loc(), Place { file_path: Some("main.sh".to_string()), row: 1, col: 4 });
    assert!(lexer.is_empty());
    let eoi = lexer.next_tok();
    assert_eq!(eoi.kind, TokenKind::EOI);
    assert_eq!(eoi.text, "");
    assert_eq!(lexer.next_tok().kind, TokenKind::EOI);
    assert_eq!(lexer.pos(), (1, 4, 7));
}

#[test]
fn peeking_does_not_consume() {
    let mut lexer = Lexer::new("a + b", None);
    assert_eq!(lexer.peek_tok().kind, TokenKind::Ident);
    assert_eq!(lexer.peek_tok().kind, TokenKind::Ident);
    assert!(lexer.expect_tok(TokenKind::Ident));
    assert!(!lexer.expect_tok(TokenKind::Ident));
    assert_eq!(lexer.peek_tok().text, "b");
    assert!(!lexer.is_empty());
}

#[test]
fn marks_bring_the_stream_back() {
    let mut lexer = Lexer::new("a + b", None);
    let _ = lexer.next_tok();
    let mark = lexer.pos();
    assert_eq!(lexer.next_tok().kind, TokenKind::Plus);
    assert_eq!(lexer.next_tok().kind, TokenKind::Ident);
    assert!(lexer.is_empty());
    lexer.reset_pos(mark);
    assert_eq!(lexer.pos(), mark);
    assert_eq!(lexer.next_tok().kind, TokenKind::Plus);
    lexer.reset_pos((0, 0, 0));
    assert_eq!(lexer.next_tok().text, "a");
}

#[test]
fn stream_reports_an_unterminated_text() {
    let mut lexer = Lexer::new("a \"b", None);
    assert_eq!(lexer.error().map(|e| e.reason), Some(Reason::UnexpectedEOI));
    assert_eq!(lexer.next_tok().kind, TokenKind::Ident);
    assert_eq!(lexer.next_tok().kind, TokenKind::EOI);
    assert!(Lexer::new("a b", None).error().is_none());
}

#[test]
fn token_kind_classes_and_names() {
    assert!(TokenKind::Percent.is_int_op() && !TokenKind::Percent.is_float_op());
    assert!(TokenKind::Slash.is_int_op() && TokenKind::Slash.is_float_op());
    assert!(!TokenKind::Ident.is_int_op() && !TokenKind::EOI.is_float_op());
    assert_eq!(TokenKind::EOI.to_text(), "end of input");
    let tok = Token {
        kind: TokenKind::Int,
        text: "12".to_string(),
        loc: Place { file_path: None, row: 0, col: 0 },
    };
    assert_eq!(tok.to_text(), "Token integer: 12");
    let eoi = Token { kind: TokenKind::EOI, text: String::new(), loc: tok.loc.clone() };
    assert_eq!(eoi.to_text(), "Token end of input");
    assert_eq!(tok.loc.to_text(), "(0, 0)");
    let place = Place { file_path: Some("f".to_string()), row: 3, col: 14 };
    assert_eq!(place.to_text(), "f:(3, 14)");
}

#[test]
fn cursor_tracks_rows_and_columns() {
    let mut cursor = Cursor::new("ab\ncd");
    assert_eq!(cursor.peek_char(), Some(&'a'));
    assert_eq!(cursor.next(), Some('a'));
    assert_eq!(cursor.next_if(|c| *c == 'x'), None);
    assert_eq!(cursor.next_if(|c| *c == 'b'), Some('b'));
    let start = cursor.loc();
    assert_eq!(start, Loc { pos: 2, row: 0, col: 2 });
    cursor.skip_if(|c| *c == '\n');
    assert_eq!(cursor.loc(), Loc { pos: 3, row: 1, col: 0 });
    cursor.skip_while(|c| c.is_alphabetic());
    assert_eq!(cursor.loc(), Loc { pos: 5, row: 1, col: 2 });
    assert_eq!(cursor.span(start), Span { start, end: Loc { pos: 5, row: 1, col: 2 } });
    assert_eq!(cursor.next(), None);
    assert_eq!(cursor.peek_char(), None);
    assert!(!cursor.next_is('a'));
    assert_eq!(cursor.chars().len(), 5);
}

#[test]
fn skip_while_stops_at_the_first_refusal() {
    let mut cursor = Cursor::new("aaab");
    cursor.skip_while(|c| *c == 'a');
    assert_eq!(cursor.loc().pos, 3);
    assert_eq!(cursor.peek_char(), Some(&'b'));
}

#[test]
fn input_keeps_its_metadata_up_to_date() {
    let mut input: Input<Loc> = Input::new("ab\ncd e", Loc::default());
    assert_eq!(input.peek(), Some(&'a'));
    assert!(input.peek_is('a'));
    assert_eq!(input.next(), Some('a'));
    assert!(!input.next_is('x'));
    assert!(input.next_is('b'));
    assert_eq!(*input.get::<Loc>(), Loc { pos: 2, row: 0, col: 2 });
    assert_eq!(input.skip_if(|c| *c == 'z'), None);
    assert_eq!(input.skip_if(|c| *c == '\n'), Some(()));
    assert_eq!(*input.get::<Loc>(), Loc { pos: 3, row: 1, col: 0 });
    assert_eq!(input.next_if(|c| c.is_alphabetic()), Some('c'));
    input.skip_to_next(' ');
    assert_eq!(input.peek(), Some(&' '));
    assert!(input.skip_next(' '));
    input.skip_while(|c| c.is_alphabetic());
    assert_eq!(input.next(), None);
    assert_eq!(*input.get::<Loc>(), Loc { pos: 7, row: 1, col: 4 });
    input.skip_to_next('q');
    assert_eq!(input.peek(), None);
}

#[test]
fn location_update_follows_the_newlines() {
    let mut loc = Loc::default();
    loc.update(&'a');
    loc.update(&'\n');
    loc.update(&'b');
    assert_eq!(loc, Loc { pos: 3, row: 1, col: 1 });
    assert_eq!(loc.to_text(), "(1, 1)");
}

#[test]
fn spans_overlap_cover_and_leave_gaps() {
    let at = |pos| Loc { pos, row: 0, col: pos };
    let span = |a, b| Span::new(at(a), at(b));
    assert!(span(2, 6).is_overlaping(span(0, 4)));
    assert!(span(0, 3).is_overlaping(span(2, 6)));
    assert!(!span(0, 2).is_overlaping(span(4, 6)));
    assert!(!span(0, 2).is_overlaping(span(2, 4)));
    assert_eq!(Span::around(span(0, 2), span(4, 6)), span(0, 6));
    assert_eq!(Span::around(span(4, 6), span(0, 2)), span(0, 6));
    assert_eq!(Span::around(span(1, 9), span(3, 5)), span(1, 9));
    assert_eq!(Span::inside(span(0, 2), span(4, 6)), Some(span(2, 4)));
    assert_eq!(Span::inside(span(4, 6), span(0, 2)), Some(span(2, 4)));
    assert_eq!(Span::inside(span(2, 6), span(0, 4)), None);
    assert_eq!(span(1, 2).to_text(), "start: (0, 1)\tend: (0, 2)");
    assert_eq!(Span::default(), span(0, 0));
}
