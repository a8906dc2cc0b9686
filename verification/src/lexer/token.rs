//! Token kinds, keywords and literal kinds.
use vstd::prelude::*;

verus! {

/// The reserved words of the language.
#[derive(Debug, Clone, Copy, PartialEq, Eq, Hash, Structural)]
pub enum Kw {
    If,
    Then,
    Else,
    Match,
    With,
    Let,
    In,
}

/// The kinds of literal that the lexer tells apart.
#[derive(Debug, Clone, Copy, PartialEq, Eq, Hash, Structural)]
pub enum Lit {
    Int,
    Float,
    StringLit,
}

/// The kind of a token.
#[derive(Debug, Clone, Copy, PartialEq, Eq, Hash, Structural)]
pub enum TkKind {
    KeyWord(Kw),
    Ident,
    Colon,
    Equals,
    Comma,
    At,
    Dollar,
    Plus,
    Dash,
    Star,
    Slash,
    Percent,
    GT,
    LT,
    Dot,
    Lpar,
    Rpar,
    Lbrace,
    Rbrace,
    Lbracket,
    Rbracket,
    Bar,
    Litteral(Lit),
    Comment,
    Unrecognized,
}

impl Kw {
    /// The spelling of a keyword.
    pub open spec fn spelling(self) -> Seq<char> {
        match self {
            Kw::If => seq!['i', 'f'],
            Kw::Then => seq!['t', 'h', 'e', 'n'],
            Kw::Else => seq!['e', 'l', 's', 'e'],
            Kw::Match => seq!['m', 'a', 't', 'c', 'h'],
            Kw::With => seq!['w', 'i', 't', 'h'],
            Kw::Let => seq!['l', 'e', 't'],
            Kw::In => seq!['i', 'n'],
        }
    }

    /// The keyword spelled by `text`, if there is one.
    pub open spec fn of(text: Seq<char>) -> Option<Kw> {
        if text == Kw::If.spelling() {
            Some(Kw::If)
        } else if text == Kw::Then.spelling() {
            Some(Kw::Then)
        } else if text == Kw::Else.spelling() {
            Some(Kw::Else)
        } else if text == Kw::Match.spelling() {
            Some(Kw::Match)
        } else if text == Kw::With.spelling() {
            Some(Kw::With)
        } else if text == Kw::Let.spelling() {
            Some(Kw::Let)
        } else if text == Kw::In.spelling() {
            Some(Kw::In)
        } else {
            None
        }
    }

    /// Whether the characters of `chars` from `start` up to `end` spell `word`.
    fn spelled(chars: &Vec<char>, start: usize, end: usize, word: Kw) -> (r: bool)
        requires
            start <= end <= chars.len(),
        ensures
            r == (chars@.subrange(start as int, end as int) == word.spelling()),
    {
        let ghost text = chars@.subrange(start as int, end as int);
        let n: usize = end - start;
        let r = match word {
            Kw::If => n == 2 && chars[start] == 'i' && chars[start + 1] == 'f',
            Kw::Then => n == 4 && chars[start] == 't' && chars[start + 1] == 'h' && chars[start
                + 2] == 'e' && chars[start + 3] == 'n',
            Kw::Else => n == 4 && chars[start] == 'e' && chars[start + 1] == 'l' && chars[start
                + 2] == 's' && chars[start + 3] == 'e',
            Kw::Match => n == 5 && chars[start] == 'm' && chars[start + 1] == 'a' && chars[start
                + 2] == 't' && chars[start + 3] == 'c' && chars[start + 4] == 'h',
            Kw::With => n == 4 && chars[start] == 'w' && chars[start + 1] == 'i' && chars[start
                + 2] == 't' && chars[start + 3] == 'h',
            Kw::Let => n == 3 && chars[start] == 'l' && chars[start + 1] == 'e' && chars[start
                + 2] == 't',
            Kw::In => n == 2 && chars[start] == 'i' && chars[start + 1] == 'n',
        };
        proof {
            let w = word.spelling();
            if r {
                assert(text =~= w);
            } else if text == w {
                assert(text.len() == n);
                assert(forall|i: int| 0 <= i < n ==> text[i] == chars@[start + i]);
                assert(false);
            }
        }
        r
    }

    /// Looks up the keyword spelled by the characters of `chars` from `start`
    /// up to `end`.
    pub fn lookup(chars: &Vec<char>, start: usize, end: usize) -> (r: Option<Kw>)
        requires
            start <= end <= chars.len(),
        ensures
            r == Kw::of(chars@.subrange(start as int, end as int)),
    {
        if Kw::spelled(chars, start, end, Kw::If) {
            Some(Kw::If)
        } else if Kw::spelled(chars, start, end, Kw::Then) {
            Some(Kw::Then)
        } else if Kw::spelled(chars, start, end, Kw::Else) {
            Some(Kw::Else)
        } else if Kw::spelled(chars, start, end, Kw::Match) {
            Some(Kw::Match)
        } else if Kw::spelled(chars, start, end, Kw::With) {
            Some(Kw::With)
        } else if Kw::spelled(chars, start, end, Kw::Let) {
            Some(Kw::Let)
        } else if Kw::spelled(chars, start, end, Kw::In) {
            Some(Kw::In)
        } else {
            None
        }
    }
}

impl TkKind {
    /// Whether this kind closes a delimited group.
    pub open spec fn closes(self) -> bool {
        self == TkKind::Rpar || self == TkKind::Rbracket || self == TkKind::Rbrace
    }

    /// Whether this kind opens a delimited group.
    pub open spec fn opens(self) -> bool {
        self == TkKind::Lpar || self == TkKind::Lbracket || self == TkKind::Lbrace
    }

    /// Whether this kind is one of the delimiters, the bar included.
    pub open spec fn is_delim(self) -> bool {
        self.opens() || self.closes() || self == TkKind::Bar
    }

    /// The delimiter that pairs with this one; the bar pairs with itself.
    pub open spec fn partner(self) -> TkKind
        recommends
            self.is_delim(),
    {
        match self {
            TkKind::Rpar => TkKind::Lpar,
            TkKind::Lpar => TkKind::Rpar,
            TkKind::Rbrace => TkKind::Lbrace,
            TkKind::Lbrace => TkKind::Rbrace,
            TkKind::Rbracket => TkKind::Lbracket,
            TkKind::Lbracket => TkKind::Rbracket,
            _ => TkKind::Bar,
        }
    }

    pub fn is_close_delim(&self) -> (r: bool)
        ensures
            r == self.closes(),
    {
        match self {
            TkKind::Rpar | TkKind::Rbracket | TkKind::Rbrace => true,
            _ => false,
        }
    }

    pub fn is_open_delim(&self) -> (r: bool)
        ensures
            r == self.opens(),
    {
        match self {
            TkKind::Lpar | TkKind::Lbracket | TkKind::Lbrace => true,
            _ => false,
        }
    }

    /// The delimiter that pairs with `self`, which must be a delimiter.
    pub fn get_matching_delim(&self) -> (r: TkKind)
        requires
            self.is_delim(),
        ensures
            r == self.partner(),
            r.is_delim(),
            r.partner() == *self,
    {
        match self {
            TkKind::Rpar => TkKind::Lpar,
            TkKind::Lpar => TkKind::Rpar,
            TkKind::Rbrace => TkKind::Lbrace,
            TkKind::Lbrace => TkKind::Rbrace,
            TkKind::Rbracket => TkKind::Lbracket,
            TkKind::Lbracket => TkKind::Rbracket,
            _ => TkKind::Bar,
        }
    }
}

impl Kw {
    /// How a keyword is shown: as it is spelled.
    pub open spec fn shown(self) -> Seq<char> {
        match self {
            Kw::If => "if"@,
            Kw::Then => "then"@,
            Kw::Else => "else"@,
            Kw::Match => "match"@,
            Kw::With => "with"@,
            Kw::Let => "let"@,
            Kw::In => "in"@,
        }
    }

    /// A keyword is shown as it is spelled.
    pub proof fn lemma_shown(self)
        ensures
            self.shown() == self.spelling(),
    {
        reveal_strlit("if");
        reveal_strlit("then");
        reveal_strlit("else");
        reveal_strlit("match");
        reveal_strlit("with");
        reveal_strlit("let");
        reveal_strlit("in");
        assert(self.shown() =~= self.spelling());
    }

    /// Shows the keyword as it is spelled.
    pub fn to_text(&self) -> (r: String)
        ensures
            r@ == self.shown(),
    {
        match self {
            Kw::If => "if".to_owned(),
            Kw::Then => "then".to_owned(),
            Kw::Else => "else".to_owned(),
            Kw::Match => "match".to_owned(),
            Kw::With => "with".to_owned(),
            Kw::Let => "let".to_owned(),
            Kw::In => "in".to_owned(),
        }
    }
}

impl Lit {
    /// How a kind of literal is shown.
    pub open spec fn shown(self) -> Seq<char> {
        match self {
            Lit::Int => "int"@,
            Lit::Float => "float"@,
            Lit::StringLit => "string"@,
        }
    }

    /// Shows the kind of literal by its name.
    pub fn to_text(&self) -> (r: String)
        ensures
            r@ == self.shown(),
    {
        match self {
            Lit::Int => "int".to_owned(),
            Lit::Float => "float".to_owned(),
            Lit::StringLit => "string".to_owned(),
        }
    }
}

impl TkKind {
    /// How a kind of token is shown: a symbol as it is written, a keyword
    /// and a literal with what they are, the others by their name.
    pub open spec fn shown(self) -> Seq<char> {
        match self {
            TkKind::Colon => ":"@,
            TkKind::Plus => "+"@,
            TkKind::Dash => "-"@,
            TkKind::Star => "*"@,
            TkKind::Slash => "/"@,
            TkKind::Percent => "%"@,
            TkKind::LT => "<"@,
            TkKind::GT => ">"@,
            TkKind::Lpar => "("@,
            TkKind::Rpar => ")"@,
            TkKind::At => "@"@,
            TkKind::Dollar => "$"@,
            TkKind::Equals => "="@,
            TkKind::Lbrace => "{"@,
            TkKind::Rbrace => "}"@,
            TkKind::Lbracket => "["@,
            TkKind::Rbracket => "]"@,
            TkKind::Comma => ","@,
            TkKind::Dot => "."@,
            TkKind::Bar => "|"@,
            TkKind::Ident => "identifier"@,
            TkKind::Litteral(lit) => "Lit("@ + lit.shown() + ")"@,
            TkKind::KeyWord(kw) => "Kw("@ + kw.shown() + ")"@,
            TkKind::Comment => "comment"@,
            TkKind::Unrecognized => "unrecognized"@,
        }
    }

    /// Shows the kind of token.
    pub fn to_text(&self) -> (r: String)
        ensures
            r@ == self.shown(),
    {
        match self {
            TkKind::Colon => ":".to_owned(),
            TkKind::Plus => "+".to_owned(),
            TkKind::Dash => "-".to_owned(),
            TkKind::Star => "*".to_owned(),
            TkKind::Slash => "/".to_owned(),
            TkKind::Percent => "%".to_owned(),
            TkKind::LT => "<".to_owned(),
            TkKind::GT => ">".to_owned(),
            TkKind::Lpar => "(".to_owned(),
            TkKind::Rpar => ")".to_owned(),
            TkKind::At => "@".to_owned(),
            TkKind::Dollar => "$".to_owned(),
            TkKind::Equals => "=".to_owned(),
            TkKind::Lbrace => "{".to_owned(),
            TkKind::Rbrace => "}".to_owned(),
            TkKind::Lbracket => "[".to_owned(),
            TkKind::Rbracket => "]".to_owned(),
            TkKind::Comma => ",".to_owned(),
            TkKind::Dot => ".".to_owned(),
            TkKind::Bar => "|".to_owned(),
            TkKind::Ident => "identifier".to_owned(),
            TkKind::Litteral(lit) => "Lit(".to_owned().concat(lit.to_text().as_str()).concat(")"),
            TkKind::KeyWord(kw) => "Kw(".to_owned().concat(kw.to_text().as_str()).concat(")"),
            TkKind::Comment => "comment".to_owned(),
            TkKind::Unrecognized => "unrecognized".to_owned(),
        }
    }
}

} // verus!
