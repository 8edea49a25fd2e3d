//! Tokens of alescript.
use vstd::prelude::*;
use crate::numeral::{float_debug, push_float_debug};
use crate::text::{char_debug_escape, chars_eq_str, chars_of, decimal, escape_debug_char, push_char, push_decimal, push_str};

verus! {

/// Which kind of token a token is, without its payload: what
/// `std::mem::discriminant` tells apart.
#[derive(Debug, Clone, Copy, PartialEq, Eq, Structural)]
pub enum TokenKind {
    Brew,
    From,
    Wait,
    For,
    Days,
    Day,
    Age,
    Until,
    Is,
    Abv,
    Taste,
    Toast,
    Mix,
    With,
    Double,
    By,
    Dilute,
    If,
    Else,
    Judge,
    Stronger,
    Than,
    Weaker,
    Not,
    Repeat,
    Times,
    Each,
    In,
    Keg,
    End,
    Barrel,
    Add,
    To,
    Remove,
    Position,
    Recipe,
    Relabel,
    As,
    Water,
    Barley,
    Hops,
    Yeast,
    Identifier,
    Number,
    String,
    Percentage,
    Period,
    Colon,
    Comma,
    LeftParen,
    RightParen,
    LeftBracket,
    RightBracket,
    LeftBrace,
    RightBrace,
    Equal,
    Newline,
    Indent,
    Dedent,
    Comment,
    Eof,
}

/// Token types of alescript.  A number or a percentage keeps the decimal
/// numeral as it was written (digits, optionally a point and more digits);
/// its value is computed where the program runs.
#[derive(Debug, Clone, PartialEq)]
pub enum TokenType {
    Brew,
    From,
    Wait,
    For,
    Days,
    Day,
    Age,
    Until,
    Is,
    Abv,
    Taste,
    Toast,
    Mix,
    With,
    Double,
    By,
    Dilute,
    If,
    Else,
    Judge,
    Stronger,
    Than,
    Weaker,
    Not,
    Repeat,
    Times,
    Each,
    In,
    Keg,
    End,
    Barrel,
    Add,
    To,
    Remove,
    Position,
    Recipe,
    Relabel,
    As,
    Water,
    Barley,
    Hops,
    Yeast,
    Identifier(String),
    Number(String),
    String(String),
    Percentage(String),
    Period,
    Colon,
    Comma,
    LeftParen,
    RightParen,
    LeftBracket,
    RightBracket,
    LeftBrace,
    RightBrace,
    Equal,
    Newline,
    Indent,
    Dedent,
    Comment(String),
    Eof,
}

/// The kind of a token type.
pub open spec fn kind_of(t: TokenType) -> TokenKind {
    match t {
        TokenType::Brew => TokenKind::Brew,
        TokenType::From => TokenKind::From,
        TokenType::Wait => TokenKind::Wait,
        TokenType::For => TokenKind::For,
        TokenType::Days => TokenKind::Days,
        TokenType::Day => TokenKind::Day,
        TokenType::Age => TokenKind::Age,
        TokenType::Until => TokenKind::Until,
        TokenType::Is => TokenKind::Is,
        TokenType::Abv => TokenKind::Abv,
        TokenType::Taste => TokenKind::Taste,
        TokenType::Toast => TokenKind::Toast,
        TokenType::Mix => TokenKind::Mix,
        TokenType::With => TokenKind::With,
        TokenType::Double => TokenKind::Double,
        TokenType::By => TokenKind::By,
        TokenType::Dilute => TokenKind::Dilute,
        TokenType::If => TokenKind::If,
        TokenType::Else => TokenKind::Else,
        TokenType::Judge => TokenKind::Judge,
        TokenType::Stronger => TokenKind::Stronger,
        TokenType::Than => TokenKind::Than,
        TokenType::Weaker => TokenKind::Weaker,
        TokenType::Not => TokenKind::Not,
        TokenType::Repeat => TokenKind::Repeat,
        TokenType::Times => TokenKind::Times,
        TokenType::Each => TokenKind::Each,
        TokenType::In => TokenKind::In,
        TokenType::Keg => TokenKind::Keg,
        TokenType::End => TokenKind::End,
        TokenType::Barrel => TokenKind::Barrel,
        TokenType::Add => TokenKind::Add,
        TokenType::To => TokenKind::To,
        TokenType::Remove => TokenKind::Remove,
        TokenType::Position => TokenKind::Position,
        TokenType::Recipe => TokenKind::Recipe,
        TokenType::Relabel => TokenKind::Relabel,
        TokenType::As => TokenKind::As,
        TokenType::Water => TokenKind::Water,
        TokenType::Barley => TokenKind::Barley,
        TokenType::Hops => TokenKind::Hops,
        TokenType::Yeast => TokenKind::Yeast,
        TokenType::Identifier(_) => TokenKind::Identifier,
        TokenType::Number(_) => TokenKind::Number,
        TokenType::String(_) => TokenKind::String,
        TokenType::Percentage(_) => TokenKind::Percentage,
        TokenType::Period => TokenKind::Period,
        TokenType::Colon => TokenKind::Colon,
        TokenType::Comma => TokenKind::Comma,
        TokenType::LeftParen => TokenKind::LeftParen,
        TokenType::RightParen => TokenKind::RightParen,
        TokenType::LeftBracket => TokenKind::LeftBracket,
        TokenType::RightBracket => TokenKind::RightBracket,
        TokenType::LeftBrace => TokenKind::LeftBrace,
        TokenType::RightBrace => TokenKind::RightBrace,
        TokenType::Equal => TokenKind::Equal,
        TokenType::Newline => TokenKind::Newline,
        TokenType::Indent => TokenKind::Indent,
        TokenType::Dedent => TokenKind::Dedent,
        TokenType::Comment(_) => TokenKind::Comment,
        TokenType::Eof => TokenKind::Eof,
    }
}

/// The text a token type carries: the name of an identifier, the numeral of a
/// number or percentage, the value of a string literal, the text of a comment;
/// empty for every other kind.
pub open spec fn text_of(t: TokenType) -> Seq<char> {
    match t {
        TokenType::Identifier(s) => s@,
        TokenType::Number(s) => s@,
        TokenType::String(s) => s@,
        TokenType::Percentage(s) => s@,
        TokenType::Comment(s) => s@,
        _ => Seq::empty(),
    }
}

/// Whether tokens of this kind carry a text.
pub open spec fn has_text(k: TokenKind) -> bool {
    k == TokenKind::Identifier || k == TokenKind::Number || k == TokenKind::String
        || k == TokenKind::Percentage || k == TokenKind::Comment
}

impl View for TokenType {
    type V = (TokenKind, Seq<char>);

    open spec fn view(&self) -> (TokenKind, Seq<char>) {
        (kind_of(*self), text_of(*self))
    }
}

/// A token as the specifications see it.
pub struct SpecToken {
    pub kind: TokenKind,
    pub text: Seq<char>,
    pub lexeme: Seq<char>,
    pub line: int,
    pub column: int,
}

/// Represents a token with its type, lexeme, and position in source
#[derive(Debug, Clone, PartialEq)]
pub struct Token {
    pub token_type: TokenType,
    pub lexeme: String,
    pub line: usize,
    pub column: usize,
}

impl View for Token {
    type V = SpecToken;

    open spec fn view(&self) -> SpecToken {
        SpecToken {
            kind: self.token_type@.0,
            text: self.token_type@.1,
            lexeme: self.lexeme@,
            line: self.line as int,
            column: self.column as int,
        }
    }
}

impl Token {
    pub fn new(token_type: TokenType, lexeme: String, line: usize, column: usize) -> (t: Self)
        ensures
            t.token_type == token_type,
            t.lexeme == lexeme,
            t.line == line,
            t.column == column,
    {
        Token { token_type, lexeme, line, column }
    }

    /// The token written as `line:column Type 'lexeme'`, with the type as
    /// `token_debug_text` renders it.
    pub fn display_string(&self) -> (s: String)
        ensures
            s@ == decimal(self.line as nat) + seq![':'] + decimal(self.column as nat) + seq![' ']
                + token_debug_text(self.token_type@.0, self.token_type@.1) + seq![' ', '\'']
                + self.lexeme@ + seq!['\''],
    {
        let mut s = String::new();
        push_decimal(&mut s, self.line);
        push_char(&mut s, ':');
        push_decimal(&mut s, self.column);
        push_char(&mut s, ' ');
        let d = self.token_type.debug_text();
        push_str(&mut s, d.as_str());
        push_char(&mut s, ' ');
        push_char(&mut s, '\'');
        push_str(&mut s, self.lexeme.as_str());
        push_char(&mut s, '\'');
        assert(s@ =~= decimal(self.line as nat) + seq![':'] + decimal(self.column as nat) + seq![' ']
                + token_debug_text(self.token_type@.0, self.token_type@.1) + seq![' ', '\'']
                + self.lexeme@ + seq!['\'']);
        s
    }
}

/// The name of a kind, as `Debug` writes it.
pub open spec fn kind_name(k: TokenKind) -> Seq<char> {
    match k {
        TokenKind::Brew => "Brew"@,
        TokenKind::From => "From"@,
        TokenKind::Wait => "Wait"@,
        TokenKind::For => "For"@,
        TokenKind::Days => "Days"@,
        TokenKind::Day => "Day"@,
        TokenKind::Age => "Age"@,
        TokenKind::Until => "Until"@,
        TokenKind::Is => "Is"@,
        TokenKind::Abv => "Abv"@,
        TokenKind::Taste => "Taste"@,
        TokenKind::Toast => "Toast"@,
        TokenKind::Mix => "Mix"@,
        TokenKind::With => "With"@,
        TokenKind::Double => "Double"@,
        TokenKind::By => "By"@,
        TokenKind::Dilute => "Dilute"@,
        TokenKind::If => "If"@,
        TokenKind::Else => "Else"@,
        TokenKind::Judge => "Judge"@,
        TokenKind::Stronger => "Stronger"@,
        TokenKind::Than => "Than"@,
        TokenKind::Weaker => "Weaker"@,
        TokenKind::Not => "Not"@,
        TokenKind::Repeat => "Repeat"@,
        TokenKind::Times => "Times"@,
        TokenKind::Each => "Each"@,
        TokenKind::In => "In"@,
        TokenKind::Keg => "Keg"@,
        TokenKind::End => "End"@,
        TokenKind::Barrel => "Barrel"@,
        TokenKind::Add => "Add"@,
        TokenKind::To => "To"@,
        TokenKind::Remove => "Remove"@,
        TokenKind::Position => "Position"@,
        TokenKind::Recipe => "Recipe"@,
        TokenKind::Relabel => "Relabel"@,
        TokenKind::As => "As"@,
        TokenKind::Water => "Water"@,
        TokenKind::Barley => "Barley"@,
        TokenKind::Hops => "Hops"@,
        TokenKind::Yeast => "Yeast"@,
        TokenKind::Identifier => "Identifier"@,
        TokenKind::Number => "Number"@,
        TokenKind::String => "String"@,
        TokenKind::Percentage => "Percentage"@,
        TokenKind::Period => "Period"@,
        TokenKind::Colon => "Colon"@,
        TokenKind::Comma => "Comma"@,
        TokenKind::LeftParen => "LeftParen"@,
        TokenKind::RightParen => "RightParen"@,
        TokenKind::LeftBracket => "LeftBracket"@,
        TokenKind::RightBracket => "RightBracket"@,
        TokenKind::LeftBrace => "LeftBrace"@,
        TokenKind::RightBrace => "RightBrace"@,
        TokenKind::Equal => "Equal"@,
        TokenKind::Newline => "Newline"@,
        TokenKind::Indent => "Indent"@,
        TokenKind::Dedent => "Dedent"@,
        TokenKind::Comment => "Comment"@,
        TokenKind::Eof => "Eof"@,
    }
}

pub fn kind_name_str(k: TokenKind) -> (s: &'static str)
    ensures
        s@ == kind_name(k),
{
    match k {
        TokenKind::Brew => "Brew",
        TokenKind::From => "From",
        TokenKind::Wait => "Wait",
        TokenKind::For => "For",
        TokenKind::Days => "Days",
        TokenKind::Day => "Day",
        TokenKind::Age => "Age",
        TokenKind::Until => "Until",
        TokenKind::Is => "Is",
        TokenKind::Abv => "Abv",
        TokenKind::Taste => "Taste",
        TokenKind::Toast => "Toast",
        TokenKind::Mix => "Mix",
        TokenKind::With => "With",
        TokenKind::Double => "Double",
        TokenKind::By => "By",
        TokenKind::Dilute => "Dilute",
        TokenKind::If => "If",
        TokenKind::Else => "Else",
        TokenKind::Judge => "Judge",
        TokenKind::Stronger => "Stronger",
        TokenKind::Than => "Than",
        TokenKind::Weaker => "Weaker",
        TokenKind::Not => "Not",
        TokenKind::Repeat => "Repeat",
        TokenKind::Times => "Times",
        TokenKind::Each => "Each",
        TokenKind::In => "In",
        TokenKind::Keg => "Keg",
        TokenKind::End => "End",
        TokenKind::Barrel => "Barrel",
        TokenKind::Add => "Add",
        TokenKind::To => "To",
        TokenKind::Remove => "Remove",
        TokenKind::Position => "Position",
        TokenKind::Recipe => "Recipe",
        TokenKind::Relabel => "Relabel",
        TokenKind::As => "As",
        TokenKind::Water => "Water",
        TokenKind::Barley => "Barley",
        TokenKind::Hops => "Hops",
        TokenKind::Yeast => "Yeast",
        TokenKind::Identifier => "Identifier",
        TokenKind::Number => "Number",
        TokenKind::String => "String",
        TokenKind::Percentage => "Percentage",
        TokenKind::Period => "Period",
        TokenKind::Colon => "Colon",
        TokenKind::Comma => "Comma",
        TokenKind::LeftParen => "LeftParen",
        TokenKind::RightParen => "RightParen",
        TokenKind::LeftBracket => "LeftBracket",
        TokenKind::RightBracket => "RightBracket",
        TokenKind::LeftBrace => "LeftBrace",
        TokenKind::RightBrace => "RightBrace",
        TokenKind::Equal => "Equal",
        TokenKind::Newline => "Newline",
        TokenKind::Indent => "Indent",
        TokenKind::Dedent => "Dedent",
        TokenKind::Comment => "Comment",
        TokenKind::Eof => "Eof",
    }
}

/// How one char of a string payload is written inside double quotes: as
/// `char::escape_debug` writes it, except that a single quote stays as it is.
pub open spec fn quoted_char(c: char) -> Seq<char> {
    if c == '\'' {
        seq!['\'']
    } else {
        char_debug_escape(c)
    }
}

/// The escaped chars of `s`, in order.
pub open spec fn escaped_chars(s: Seq<char>) -> Seq<char>
    decreases s.len(),
{
    if s.len() == 0 {
        Seq::empty()
    } else {
        escaped_chars(s.drop_last()) + quoted_char(s.last())
    }
}

/// A numeral as messages show it: the way `{:?}` prints the `f64` it reads
/// as (see `float_debug`).
pub open spec fn numeral_debug(s: Seq<char>) -> Seq<char> {
    float_debug(s)
}

/// The text a token type is shown with in messages: the kind's name, and for
/// a kind with a text, the text in brackets (a numeral as its `f64` prints, a string
/// quoted and escaped).
pub open spec fn token_debug_text(k: TokenKind, text: Seq<char>) -> Seq<char> {
    if k == TokenKind::Number || k == TokenKind::Percentage {
        kind_name(k) + seq!['('] + numeral_debug(text) + seq![')']
    } else if has_text(k) {
        kind_name(k) + seq!['(', '"'] + escaped_chars(text) + seq!['"', ')']
    } else {
        kind_name(k)
    }
}

impl TokenType {
    /// The kind of this token type.
    pub fn kind(&self) -> (k: TokenKind)
        ensures
            k == self@.0,
    {
        match self {
            TokenType::Brew => TokenKind::Brew,
            TokenType::From => TokenKind::From,
            TokenType::Wait => TokenKind::Wait,
            TokenType::For => TokenKind::For,
            TokenType::Days => TokenKind::Days,
            TokenType::Day => TokenKind::Day,
            TokenType::Age => TokenKind::Age,
            TokenType::Until => TokenKind::Until,
            TokenType::Is => TokenKind::Is,
            TokenType::Abv => TokenKind::Abv,
            TokenType::Taste => TokenKind::Taste,
            TokenType::Toast => TokenKind::Toast,
            TokenType::Mix => TokenKind::Mix,
            TokenType::With => TokenKind::With,
            TokenType::Double => TokenKind::Double,
            TokenType::By => TokenKind::By,
            TokenType::Dilute => TokenKind::Dilute,
            TokenType::If => TokenKind::If,
            TokenType::Else => TokenKind::Else,
            TokenType::Judge => TokenKind::Judge,
            TokenType::Stronger => TokenKind::Stronger,
            TokenType::Than => TokenKind::Than,
            TokenType::Weaker => TokenKind::Weaker,
            TokenType::Not => TokenKind::Not,
            TokenType::Repeat => TokenKind::Repeat,
            TokenType::Times => TokenKind::Times,
            TokenType::Each => TokenKind::Each,
            TokenType::In => TokenKind::In,
            TokenType::Keg => TokenKind::Keg,
            TokenType::End => TokenKind::End,
            TokenType::Barrel => TokenKind::Barrel,
            TokenType::Add => TokenKind::Add,
            TokenType::To => TokenKind::To,
            TokenType::Remove => TokenKind::Remove,
            TokenType::Position => TokenKind::Position,
            TokenType::Recipe => TokenKind::Recipe,
            TokenType::Relabel => TokenKind::Relabel,
            TokenType::As => TokenKind::As,
            TokenType::Water => TokenKind::Water,
            TokenType::Barley => TokenKind::Barley,
            TokenType::Hops => TokenKind::Hops,
            TokenType::Yeast => TokenKind::Yeast,
            TokenType::Identifier(_) => TokenKind::Identifier,
            TokenType::Number(_) => TokenKind::Number,
            TokenType::String(_) => TokenKind::String,
            TokenType::Percentage(_) => TokenKind::Percentage,
            TokenType::Period => TokenKind::Period,
            TokenType::Colon => TokenKind::Colon,
            TokenType::Comma => TokenKind::Comma,
            TokenType::LeftParen => TokenKind::LeftParen,
            TokenType::RightParen => TokenKind::RightParen,
            TokenType::LeftBracket => TokenKind::LeftBracket,
            TokenType::RightBracket => TokenKind::RightBracket,
            TokenType::LeftBrace => TokenKind::LeftBrace,
            TokenType::RightBrace => TokenKind::RightBrace,
            TokenType::Equal => TokenKind::Equal,
            TokenType::Newline => TokenKind::Newline,
            TokenType::Indent => TokenKind::Indent,
            TokenType::Dedent => TokenKind::Dedent,
            TokenType::Comment(_) => TokenKind::Comment,
            TokenType::Eof => TokenKind::Eof,
        }
    }

    /// A copy of the text this token type carries (empty when it carries
    /// none).
    pub fn text(&self) -> (s: String)
        ensures
            s@ == self@.1,
    {
        match self {
            TokenType::Identifier(s) => s.clone(),
            TokenType::Number(s) => s.clone(),
            TokenType::String(s) => s.clone(),
            TokenType::Percentage(s) => s.clone(),
            TokenType::Comment(s) => s.clone(),
            _ => String::new(),
        }
    }

    /// This token type as messages show it.
    pub fn debug_text(&self) -> (s: String)
        ensures
            s@ == token_debug_text(self@.0, self@.1),
    {
        let k = self.kind();
        let mut s = String::new();
        push_str(&mut s, kind_name_str(k));
        match self {
            TokenType::Number(t) | TokenType::Percentage(t) => {
                push_char(&mut s, '(');
                push_float_debug(&mut s, t);
                push_char(&mut s, ')');
            },
            TokenType::Identifier(t) | TokenType::String(t) | TokenType::Comment(t) => {
                push_char(&mut s, '(');
                push_char(&mut s, '"');
                push_escaped(&mut s, t);
                push_char(&mut s, '"');
                push_char(&mut s, ')');
            },
            _ => {},
        }
        assert(s@ =~= token_debug_text(self@.0, self@.1));
        s
    }

    /// Checks if a word is a keyword and returns the appropriate TokenType
    pub fn keyword(word: &str) -> (r: Option<TokenType>)
        ensures
            keyword_result(r, word@),
    {
        let cs = chars_of(word);
        keyword_of_chars(&cs)
    }
}

/// A token type `r` answers the keyword question for `w`: it is absent
/// exactly when `w` is no keyword, and is otherwise the keyword's kind
/// without a text.
pub open spec fn keyword_result(r: Option<TokenType>, w: Seq<char>) -> bool {
    match keyword_kind(w) {
        Some(k) => r matches Some(t) && t@ == (k, Seq::<char>::empty()),
        None => r is None,
    }
}

/// The keyword kind of a word, if it is one of the reserved words.  The
/// table is read in six parts of seven rows each, in the order of the
/// keyword list, so that no single definition is long.
pub open spec fn keyword_kind(w: Seq<char>) -> Option<TokenKind> {
    if let Some(k) = keyword_rows_1(w) { Some(k) } else
    if let Some(k) = keyword_rows_2(w) { Some(k) } else
    if let Some(k) = keyword_rows_3(w) { Some(k) } else
    if let Some(k) = keyword_rows_4(w) { Some(k) } else
    if let Some(k) = keyword_rows_5(w) { Some(k) } else { keyword_rows_6(w) }
}

/// Rows 1 to 7 of the keyword table.
pub open spec fn keyword_rows_1(w: Seq<char>) -> Option<TokenKind> {
    if w == "brew"@ {
        Some(TokenKind::Brew)
    } else if w == "from"@ {
        Some(TokenKind::From)
    } else if w == "wait"@ {
        Some(TokenKind::Wait)
    } else if w == "for"@ {
        Some(TokenKind::For)
    } else if w == "days"@ {
        Some(TokenKind::Days)
    } else if w == "day"@ {
        Some(TokenKind::Day)
    } else if w == "age"@ {
        Some(TokenKind::Age)
    } else {
        None
    }
}

/// Rows 8 to 14 of the keyword table.
pub open spec fn keyword_rows_2(w: Seq<char>) -> Option<TokenKind> {
    if w == "until"@ {
        Some(TokenKind::Until)
    } else if w == "is"@ {
        Some(TokenKind::Is)
    } else if w == "abv"@ {
        Some(TokenKind::Abv)
    } else if w == "taste"@ {
        Some(TokenKind::Taste)
    } else if w == "toast"@ {
        Some(TokenKind::Toast)
    } else if w == "mix"@ {
        Some(TokenKind::Mix)
    } else if w == "with"@ {
        Some(TokenKind::With)
    } else {
        None
    }
}

/// Rows 15 to 21 of the keyword table.
pub open spec fn keyword_rows_3(w: Seq<char>) -> Option<TokenKind> {
    if w == "double"@ {
        Some(TokenKind::Double)
    } else if w == "by"@ {
        Some(TokenKind::By)
    } else if w == "dilute"@ {
        Some(TokenKind::Dilute)
    } else if w == "if"@ {
        Some(TokenKind::If)
    } else if w == "else"@ {
        Some(TokenKind::Else)
    } else if w == "judge"@ {
        Some(TokenKind::Judge)
    } else if w == "stronger"@ {
        Some(TokenKind::Stronger)
    } else {
        None
    }
}

/// Rows 22 to 28 of the keyword table.
pub open spec fn keyword_rows_4(w: Seq<char>) -> Option<TokenKind> {
    if w == "than"@ {
        Some(TokenKind::Than)
    } else if w == "weaker"@ {
        Some(TokenKind::Weaker)
    } else if w == "not"@ {
        Some(TokenKind::Not)
    } else if w == "repeat"@ {
        Some(TokenKind::Repeat)
    } else if w == "times"@ {
        Some(TokenKind::Times)
    } else if w == "each"@ {
        Some(TokenKind::Each)
    } else if w == "in"@ {
        Some(TokenKind::In)
    } else {
        None
    }
}

/// Rows 29 to 35 of the keyword table.
pub open spec fn keyword_rows_5(w: Seq<char>) -> Option<TokenKind> {
    if w == "keg"@ {
        Some(TokenKind::Keg)
    } else if w == "end"@ {
        Some(TokenKind::End)
    } else if w == "barrel"@ {
        Some(TokenKind::Barrel)
    } else if w == "add"@ {
        Some(TokenKind::Add)
    } else if w == "to"@ {
        Some(TokenKind::To)
    } else if w == "remove"@ {
        Some(TokenKind::Remove)
    } else if w == "position"@ {
        Some(TokenKind::Position)
    } else {
        None
    }
}

/// Rows 36 to 42 of the keyword table.
pub open spec fn keyword_rows_6(w: Seq<char>) -> Option<TokenKind> {
    if w == "recipe"@ {
        Some(TokenKind::Recipe)
    } else if w == "relabel"@ {
        Some(TokenKind::Relabel)
    } else if w == "as"@ {
        Some(TokenKind::As)
    } else if w == "water"@ {
        Some(TokenKind::Water)
    } else if w == "barley"@ {
        Some(TokenKind::Barley)
    } else if w == "hops"@ {
        Some(TokenKind::Hops)
    } else if w == "yeast"@ {
        Some(TokenKind::Yeast)
    } else {
        None
    }
}

/// A char in lower case (ASCII letters only).
pub open spec fn lower_char(c: char) -> char {
    if 'A' <= c <= 'Z' {
        ((c as int) + 32) as char
    } else {
        c
    }
}

/// A string in lower case (ASCII letters only).
pub open spec fn lower_case(s: Seq<char>) -> Seq<char> {
    s.map_values(|c: char| lower_char(c))
}

/// The kinds that no word of the source gives: names, literals,
/// punctuation and layout.
pub open spec fn non_word_kind(k: TokenKind) -> bool {
    k == TokenKind::Identifier || k == TokenKind::Number || k == TokenKind::String || k == TokenKind::Percentage || k == TokenKind::Period || k == TokenKind::Colon || k == TokenKind::Comma || k == TokenKind::LeftParen || k == TokenKind::RightParen || k == TokenKind::LeftBracket || k == TokenKind::RightBracket || k == TokenKind::LeftBrace || k == TokenKind::RightBrace || k == TokenKind::Equal || k == TokenKind::Newline || k == TokenKind::Indent || k == TokenKind::Dedent || k == TokenKind::Comment || k == TokenKind::Eof
}

/// A word is a keyword only under its kind's own name: when the keyword
/// table gives a kind for a word, the word is that kind's name (as messages
/// write it) in lower case.
pub proof fn law_keyword_words(w: Seq<char>)
    ensures
        keyword_kind(w) matches Some(k) ==> w == lower_case(kind_name(k)),
{
    reveal_strlit("Brew");
    reveal_strlit("brew");
    reveal_strlit("From");
    reveal_strlit("from");
    reveal_strlit("Wait");
    reveal_strlit("wait");
    reveal_strlit("For");
    reveal_strlit("for");
    reveal_strlit("Days");
    reveal_strlit("days");
    reveal_strlit("Day");
    reveal_strlit("day");
    reveal_strlit("Age");
    reveal_strlit("age");
    reveal_strlit("Until");
    reveal_strlit("until");
    reveal_strlit("Is");
    reveal_strlit("is");
    reveal_strlit("Abv");
    reveal_strlit("abv");
    reveal_strlit("Taste");
    reveal_strlit("taste");
    reveal_strlit("Toast");
    reveal_strlit("toast");
    reveal_strlit("Mix");
    reveal_strlit("mix");
    reveal_strlit("With");
    reveal_strlit("with");
    reveal_strlit("Double");
    reveal_strlit("double");
    reveal_strlit("By");
    reveal_strlit("by");
    reveal_strlit("Dilute");
    reveal_strlit("dilute");
    reveal_strlit("If");
    reveal_strlit("if");
    reveal_strlit("Else");
    reveal_strlit("else");
    reveal_strlit("Judge");
    reveal_strlit("judge");
    reveal_strlit("Stronger");
    reveal_strlit("stronger");
    reveal_strlit("Than");
    reveal_strlit("than");
    reveal_strlit("Weaker");
    reveal_strlit("weaker");
    reveal_strlit("Not");
    reveal_strlit("not");
    reveal_strlit("Repeat");
    reveal_strlit("repeat");
    reveal_strlit("Times");
    reveal_strlit("times");
    reveal_strlit("Each");
    reveal_strlit("each");
    reveal_strlit("In");
    reveal_strlit("in");
    reveal_strlit("Keg");
    reveal_strlit("keg");
    reveal_strlit("End");
    reveal_strlit("end");
    reveal_strlit("Barrel");
    reveal_strlit("barrel");
    reveal_strlit("Add");
    reveal_strlit("add");
    reveal_strlit("To");
    reveal_strlit("to");
    reveal_strlit("Remove");
    reveal_strlit("remove");
    reveal_strlit("Position");
    reveal_strlit("position");
    reveal_strlit("Recipe");
    reveal_strlit("recipe");
    reveal_strlit("Relabel");
    reveal_strlit("relabel");
    reveal_strlit("As");
    reveal_strlit("as");
    reveal_strlit("Water");
    reveal_strlit("water");
    reveal_strlit("Barley");
    reveal_strlit("barley");
    reveal_strlit("Hops");
    reveal_strlit("hops");
    reveal_strlit("Yeast");
    reveal_strlit("yeast");
    assert(lower_case("Brew"@) =~= "brew"@);
    assert(lower_case("From"@) =~= "from"@);
    assert(lower_case("Wait"@) =~= "wait"@);
    assert(lower_case("For"@) =~= "for"@);
    assert(lower_case("Days"@) =~= "days"@);
    assert(lower_case("Day"@) =~= "day"@);
    assert(lower_case("Age"@) =~= "age"@);
    assert(lower_case("Until"@) =~= "until"@);
    assert(lower_case("Is"@) =~= "is"@);
    assert(lower_case("Abv"@) =~= "abv"@);
    assert(lower_case("Taste"@) =~= "taste"@);
    assert(lower_case("Toast"@) =~= "toast"@);
    assert(lower_case("Mix"@) =~= "mix"@);
    assert(lower_case("With"@) =~= "with"@);
    assert(lower_case("Double"@) =~= "double"@);
    assert(lower_case("By"@) =~= "by"@);
    assert(lower_case("Dilute"@) =~= "dilute"@);
    assert(lower_case("If"@) =~= "if"@);
    assert(lower_case("Else"@) =~= "else"@);
    assert(lower_case("Judge"@) =~= "judge"@);
    assert(lower_case("Stronger"@) =~= "stronger"@);
    assert(lower_case("Than"@) =~= "than"@);
    assert(lower_case("Weaker"@) =~= "weaker"@);
    assert(lower_case("Not"@) =~= "not"@);
    assert(lower_case("Repeat"@) =~= "repeat"@);
    assert(lower_case("Times"@) =~= "times"@);
    assert(lower_case("Each"@) =~= "each"@);
    assert(lower_case("In"@) =~= "in"@);
    assert(lower_case("Keg"@) =~= "keg"@);
    assert(lower_case("End"@) =~= "end"@);
    assert(lower_case("Barrel"@) =~= "barrel"@);
    assert(lower_case("Add"@) =~= "add"@);
    assert(lower_case("To"@) =~= "to"@);
    assert(lower_case("Remove"@) =~= "remove"@);
    assert(lower_case("Position"@) =~= "position"@);
    assert(lower_case("Recipe"@) =~= "recipe"@);
    assert(lower_case("Relabel"@) =~= "relabel"@);
    assert(lower_case("As"@) =~= "as"@);
    assert(lower_case("Water"@) =~= "water"@);
    assert(lower_case("Barley"@) =~= "barley"@);
    assert(lower_case("Hops"@) =~= "hops"@);
    assert(lower_case("Yeast"@) =~= "yeast"@);
}

/// Every keyword is recognised: the lower-case name of each kind that a
/// word gives (all but names, literals, punctuation and layout) is a keyword
/// of that kind.
pub proof fn law_keyword_names(k: TokenKind)
    ensures
        !non_word_kind(k) ==> keyword_kind(lower_case(kind_name(k))) == Some(k),
{
    reveal_strlit("brew");
    reveal_strlit("from");
    reveal_strlit("wait");
    reveal_strlit("for");
    reveal_strlit("days");
    reveal_strlit("day");
    reveal_strlit("age");
    reveal_strlit("until");
    reveal_strlit("is");
    reveal_strlit("abv");
    reveal_strlit("taste");
    reveal_strlit("toast");
    reveal_strlit("mix");
    reveal_strlit("with");
    reveal_strlit("double");
    reveal_strlit("by");
    reveal_strlit("dilute");
    reveal_strlit("if");
    reveal_strlit("else");
    reveal_strlit("judge");
    reveal_strlit("stronger");
    reveal_strlit("than");
    reveal_strlit("weaker");
    reveal_strlit("not");
    reveal_strlit("repeat");
    reveal_strlit("times");
    reveal_strlit("each");
    reveal_strlit("in");
    reveal_strlit("keg");
    reveal_strlit("end");
    reveal_strlit("barrel");
    reveal_strlit("add");
    reveal_strlit("to");
    reveal_strlit("remove");
    reveal_strlit("position");
    reveal_strlit("recipe");
    reveal_strlit("relabel");
    reveal_strlit("as");
    reveal_strlit("water");
    reveal_strlit("barley");
    reveal_strlit("hops");
    reveal_strlit("yeast");
    match k {
        TokenKind::Brew => {
            reveal_strlit("Brew");
            assert(lower_case("Brew"@) =~= "brew"@);
            assert(keyword_kind("brew"@) == Some(TokenKind::Brew));
        },
        TokenKind::From => {
            reveal_strlit("From");
            assert(lower_case("From"@) =~= "from"@);
            assert("from"@[0] != "brew"@[0]);
            assert(keyword_kind("from"@) == Some(TokenKind::From));
        },
        TokenKind::Wait => {
            reveal_strlit("Wait");
            assert(lower_case("Wait"@) =~= "wait"@);
            assert("wait"@[0] != "brew"@[0]);
            assert("wait"@[0] != "from"@[0]);
            assert(keyword_kind("wait"@) == Some(TokenKind::Wait));
        },
        TokenKind::For => {
            reveal_strlit("For");
            assert(lower_case("For"@) =~= "for"@);
            assert(keyword_kind("for"@) == Some(TokenKind::For));
        },
        TokenKind::Days => {
            reveal_strlit("Days");
            assert(lower_case("Days"@) =~= "days"@);
            assert("days"@[0] != "brew"@[0]);
            assert("days"@[0] != "from"@[0]);
            assert("days"@[0] != "wait"@[0]);
            assert(keyword_kind("days"@) == Some(TokenKind::Days));
        },
        TokenKind::Day => {
            reveal_strlit("Day");
            assert(lower_case("Day"@) =~= "day"@);
            assert("day"@[0] != "for"@[0]);
            assert(keyword_kind("day"@) == Some(TokenKind::Day));
        },
        TokenKind::Age => {
            reveal_strlit("Age");
            assert(lower_case("Age"@) =~= "age"@);
            assert("age"@[0] != "for"@[0]);
            assert("age"@[0] != "day"@[0]);
            assert(keyword_kind("age"@) == Some(TokenKind::Age));
        },
        TokenKind::Until => {
            reveal_strlit("Until");
            assert(lower_case("Until"@) =~= "until"@);
            assert(keyword_kind("until"@) == Some(TokenKind::Until));
        },
        TokenKind::Is => {
            reveal_strlit("Is");
            assert(lower_case("Is"@) =~= "is"@);
            assert(keyword_kind("is"@) == Some(TokenKind::Is));
        },
        TokenKind::Abv => {
            reveal_strlit("Abv");
            assert(lower_case("Abv"@) =~= "abv"@);
            assert("abv"@[0] != "for"@[0]);
            assert("abv"@[0] != "day"@[0]);
            assert("abv"@[1] != "age"@[1]);
            assert(keyword_kind("abv"@) == Some(TokenKind::Abv));
        },
        TokenKind::Taste => {
            reveal_strlit("Taste");
            assert(lower_case("Taste"@) =~= "taste"@);
            assert("taste"@[0] != "until"@[0]);
            assert(keyword_kind("taste"@) == Some(TokenKind::Taste));
        },
        TokenKind::Toast => {
            reveal_strlit("Toast");
            assert(lower_case("Toast"@) =~= "toast"@);
            assert("toast"@[0] != "until"@[0]);
            assert("toast"@[1] != "taste"@[1]);
            assert(keyword_kind("toast"@) == Some(TokenKind::Toast));
        },
        TokenKind::Mix => {
            reveal_strlit("Mix");
            assert(lower_case("Mix"@) =~= "mix"@);
            assert("mix"@[0] != "for"@[0]);
            assert("mix"@[0] != "day"@[0]);
            assert("mix"@[0] != "age"@[0]);
            assert("mix"@[0] != "abv"@[0]);
            assert(keyword_kind("mix"@) == Some(TokenKind::Mix));
        },
        TokenKind::With => {
            reveal_strlit("With");
            assert(lower_case("With"@) =~= "with"@);
            assert("with"@[0] != "brew"@[0]);
            assert("with"@[0] != "from"@[0]);
            assert("with"@[1] != "wait"@[1]);
            assert("with"@[0] != "days"@[0]);
            assert(keyword_kind("with"@) == Some(TokenKind::With));
        },
        TokenKind::Double => {
            reveal_strlit("Double");
            assert(lower_case("Double"@) =~= "double"@);
            assert(keyword_kind("double"@) == Some(TokenKind::Double));
        },
        TokenKind::By => {
            reveal_strlit("By");
            assert(lower_case("By"@) =~= "by"@);
            assert("by"@[0] != "is"@[0]);
            assert(keyword_kind("by"@) == Some(TokenKind::By));
        },
        TokenKind::Dilute => {
            reveal_strlit("Dilute");
            assert(lower_case("Dilute"@) =~= "dilute"@);
            assert("dilute"@[1] != "double"@[1]);
            assert(keyword_kind("dilute"@) == Some(TokenKind::Dilute));
        },
        TokenKind::If => {
            reveal_strlit("If");
            assert(lower_case("If"@) =~= "if"@);
            assert("if"@[1] != "is"@[1]);
            assert("if"@[0] != "by"@[0]);
            assert(keyword_kind("if"@) == Some(TokenKind::If));
        },
        TokenKind::Else => {
            reveal_strlit("Else");
            assert(lower_case("Else"@) =~= "else"@);
            assert("else"@[0] != "brew"@[0]);
            assert("else"@[0] != "from"@[0]);
            assert("else"@[0] != "wait"@[0]);
            assert("else"@[0] != "days"@[0]);
            assert("else"@[0] != "with"@[0]);
            assert(keyword_kind("else"@) == Some(TokenKind::Else));
        },
        TokenKind::Judge => {
            reveal_strlit("Judge");
            assert(lower_case("Judge"@) =~= "judge"@);
            assert("judge"@[0] != "until"@[0]);
            assert("judge"@[0] != "taste"@[0]);
            assert("judge"@[0] != "toast"@[0]);
            assert(keyword_kind("judge"@) == Some(TokenKind::Judge));
        },
        TokenKind::Stronger => {
            reveal_strlit("Stronger");
            assert(lower_case("Stronger"@) =~= "stronger"@);
            assert(keyword_kind("stronger"@) == Some(TokenKind::Stronger));
        },
        TokenKind::Than => {
            reveal_strlit("Than");
            assert(lower_case("Than"@) =~= "than"@);
            assert("than"@[0] != "brew"@[0]);
            assert("than"@[0] != "from"@[0]);
            assert("than"@[0] != "wait"@[0]);
            assert("than"@[0] != "days"@[0]);
            assert("than"@[0] != "with"@[0]);
            assert("than"@[0] != "else"@[0]);
            assert(keyword_kind("than"@) == Some(TokenKind::Than));
        },
        TokenKind::Weaker => {
            reveal_strlit("Weaker");
            assert(lower_case("Weaker"@) =~= "weaker"@);
            assert("weaker"@[0] != "double"@[0]);
            assert("weaker"@[0] != "dilute"@[0]);
            assert(keyword_kind("weaker"@) == Some(TokenKind::Weaker));
        },
        TokenKind::Not => {
            reveal_strlit("Not");
            assert(lower_case("Not"@) =~= "not"@);
            assert("not"@[0] != "for"@[0]);
            assert("not"@[0] != "day"@[0]);
            assert("not"@[0] != "age"@[0]);
            assert("not"@[0] != "abv"@[0]);
            assert("not"@[0] != "mix"@[0]);
            assert(keyword_kind("not"@) == Some(TokenKind::Not));
        },
        TokenKind::Repeat => {
            reveal_strlit("Repeat");
            assert(lower_case("Repeat"@) =~= "repeat"@);
            assert("repeat"@[0] != "double"@[0]);
            assert("repeat"@[0] != "dilute"@[0]);
            assert("repeat"@[0] != "weaker"@[0]);
            assert(keyword_kind("repeat"@) == Some(TokenKind::Repeat));
        },
        TokenKind::Times => {
            reveal_strlit("Times");
            assert(lower_case("Times"@) =~= "times"@);
            assert("times"@[0] != "until"@[0]);
            assert("times"@[1] != "taste"@[1]);
            assert("times"@[1] != "toast"@[1]);
            assert("times"@[0] != "judge"@[0]);
            assert(keyword_kind("times"@) == Some(TokenKind::Times));
        },
        TokenKind::Each => {
            reveal_strlit("Each");
            assert(lower_case("Each"@) =~= "each"@);
            assert("each"@[0] != "brew"@[0]);
            assert("each"@[0] != "from"@[0]);
            assert("each"@[0] != "wait"@[0]);
            assert("each"@[0] != "days"@[0]);
            assert("each"@[0] != "with"@[0]);
            assert("each"@[1] != "else"@[1]);
            assert("each"@[0] != "than"@[0]);
            assert(keyword_kind("each"@) == Some(TokenKind::Each));
        },
        TokenKind::In => {
            reveal_strlit("In");
            assert(lower_case("In"@) =~= "in"@);
            assert("in"@[1] != "is"@[1]);
            assert("in"@[0] != "by"@[0]);
            assert("in"@[1] != "if"@[1]);
            assert(keyword_kind("in"@) == Some(TokenKind::In));
        },
        TokenKind::Keg => {
            reveal_strlit("Keg");
            assert(lower_case("Keg"@) =~= "keg"@);
            assert("keg"@[0] != "for"@[0]);
            assert("keg"@[0] != "day"@[0]);
            assert("keg"@[0] != "age"@[0]);
            assert("keg"@[0] != "abv"@[0]);
            assert("keg"@[0] != "mix"@[0]);
            assert("keg"@[0] != "not"@[0]);
            assert(keyword_kind("keg"@) == Some(TokenKind::Keg));
        },
        TokenKind::End => {
            reveal_strlit("End");
            assert(lower_case("End"@) =~= "end"@);
            assert("end"@[0] != "for"@[0]);
            assert("end"@[0] != "day"@[0]);
            assert("end"@[0] != "age"@[0]);
            assert("end"@[0] != "abv"@[0]);
            assert("end"@[0] != "mix"@[0]);
            assert("end"@[0] != "not"@[0]);
            assert("end"@[0] != "keg"@[0]);
            assert(keyword_kind("end"@) == Some(TokenKind::End));
        },
        TokenKind::Barrel => {
            reveal_strlit("Barrel");
            assert(lower_case("Barrel"@) =~= "barrel"@);
            assert("barrel"@[0] != "double"@[0]);
            assert("barrel"@[0] != "dilute"@[0]);
            assert("barrel"@[0] != "weaker"@[0]);
            assert("barrel"@[0] != "repeat"@[0]);
            assert(keyword_kind("barrel"@) == Some(TokenKind::Barrel));
        },
        TokenKind::Add => {
            reveal_strlit("Add");
            assert(lower_case("Add"@) =~= "add"@);
            assert("add"@[0] != "for"@[0]);
            assert("add"@[0] != "day"@[0]);
            assert("add"@[1] != "age"@[1]);
            assert("add"@[1] != "abv"@[1]);
            assert("add"@[0] != "mix"@[0]);
            assert("add"@[0] != "not"@[0]);
            assert("add"@[0] != "keg"@[0]);
            assert("add"@[0] != "end"@[0]);
            assert(keyword_kind("add"@) == Some(TokenKind::Add));
        },
        TokenKind::To => {
            reveal_strlit("To");
            assert(lower_case("To"@) =~= "to"@);
            assert("to"@[0] != "is"@[0]);
            assert("to"@[0] != "by"@[0]);
            assert("to"@[0] != "if"@[0]);
            assert("to"@[0] != "in"@[0]);
            assert(keyword_kind("to"@) == Some(TokenKind::To));
        },
        TokenKind::Remove => {
            reveal_strlit("Remove");
            assert(lower_case("Remove"@) =~= "remove"@);
            assert("remove"@[0] != "double"@[0]);
            assert("remove"@[0] != "dilute"@[0]);
            assert("remove"@[0] != "weaker"@[0]);
            assert("remove"@[2] != "repeat"@[2]);
            assert("remove"@[0] != "barrel"@[0]);
            assert(keyword_kind("remove"@) == Some(TokenKind::Remove));
        },
        TokenKind::Position => {
            reveal_strlit("Position");
            assert(lower_case("Position"@) =~= "position"@);
            assert("position"@[0] != "stronger"@[0]);
            assert(keyword_kind("position"@) == Some(TokenKind::Position));
        },
        TokenKind::Recipe => {
            reveal_strlit("Recipe");
            assert(lower_case("Recipe"@) =~= "recipe"@);
            assert("recipe"@[0] != "double"@[0]);
            assert("recipe"@[0] != "dilute"@[0]);
            assert("recipe"@[0] != "weaker"@[0]);
            assert("recipe"@[2] != "repeat"@[2]);
            assert("recipe"@[0] != "barrel"@[0]);
            assert("recipe"@[2] != "remove"@[2]);
            assert(keyword_kind("recipe"@) == Some(TokenKind::Recipe));
        },
        TokenKind::Relabel => {
            reveal_strlit("Relabel");
            assert(lower_case("Relabel"@) =~= "relabel"@);
            assert(keyword_kind("relabel"@) == Some(TokenKind::Relabel));
        },
        TokenKind::As => {
            reveal_strlit("As");
            assert(lower_case("As"@) =~= "as"@);
            assert("as"@[0] != "is"@[0]);
            assert("as"@[0] != "by"@[0]);
            assert("as"@[0] != "if"@[0]);
            assert("as"@[0] != "in"@[0]);
            assert("as"@[0] != "to"@[0]);
            assert(keyword_kind("as"@) == Some(TokenKind::As));
        },
        TokenKind::Water => {
            reveal_strlit("Water");
            assert(lower_case("Water"@) =~= "water"@);
            assert("water"@[0] != "until"@[0]);
            assert("water"@[0] != "taste"@[0]);
            assert("water"@[0] != "toast"@[0]);
            assert("water"@[0] != "judge"@[0]);
            assert("water"@[0] != "times"@[0]);
            assert(keyword_kind("water"@) == Some(TokenKind::Water));
        },
        TokenKind::Barley => {
            reveal_strlit("Barley");
            assert(lower_case("Barley"@) =~= "barley"@);
            assert("barley"@[0] != "double"@[0]);
            assert("barley"@[0] != "dilute"@[0]);
            assert("barley"@[0] != "weaker"@[0]);
            assert("barley"@[0] != "repeat"@[0]);
            assert("barley"@[3] != "barrel"@[3]);
            assert("barley"@[0] != "remove"@[0]);
            assert("barley"@[0] != "recipe"@[0]);
            assert(keyword_kind("barley"@) == Some(TokenKind::Barley));
        },
        TokenKind::Hops => {
            reveal_strlit("Hops");
            assert(lower_case("Hops"@) =~= "hops"@);
            assert("hops"@[0] != "brew"@[0]);
            assert("hops"@[0] != "from"@[0]);
            assert("hops"@[0] != "wait"@[0]);
            assert("hops"@[0] != "days"@[0]);
            assert("hops"@[0] != "with"@[0]);
            assert("hops"@[0] != "else"@[0]);
            assert("hops"@[0] != "than"@[0]);
            assert("hops"@[0] != "each"@[0]);
            assert(keyword_kind("hops"@) == Some(TokenKind::Hops));
        },
        TokenKind::Yeast => {
            reveal_strlit("Yeast");
            assert(lower_case("Yeast"@) =~= "yeast"@);
            assert("yeast"@[0] != "until"@[0]);
            assert("yeast"@[0] != "taste"@[0]);
            assert("yeast"@[0] != "toast"@[0]);
            assert("yeast"@[0] != "judge"@[0]);
            assert("yeast"@[0] != "times"@[0]);
            assert("yeast"@[0] != "water"@[0]);
            assert(keyword_kind("yeast"@) == Some(TokenKind::Yeast));
        },
        _ => {},
    }
}

/// The keyword token type of a word given as chars, if it is a keyword.
pub fn keyword_of_chars(w: &Vec<char>) -> (r: Option<TokenType>)
    ensures
        keyword_result(r, w@),
{
    if chars_eq_str(w, "brew") {
        return Some(TokenType::Brew);
    }
    if chars_eq_str(w, "from") {
        return Some(TokenType::From);
    }
    if chars_eq_str(w, "wait") {
        return Some(TokenType::Wait);
    }
    if chars_eq_str(w, "for") {
        return Some(TokenType::For);
    }
    if chars_eq_str(w, "days") {
        return Some(TokenType::Days);
    }
    if chars_eq_str(w, "day") {
        return Some(TokenType::Day);
    }
    if chars_eq_str(w, "age") {
        return Some(TokenType::Age);
    }
    if chars_eq_str(w, "until") {
        return Some(TokenType::Until);
    }
    if chars_eq_str(w, "is") {
        return Some(TokenType::Is);
    }
    if chars_eq_str(w, "abv") {
        return Some(TokenType::Abv);
    }
    if chars_eq_str(w, "taste") {
        return Some(TokenType::Taste);
    }
    if chars_eq_str(w, "toast") {
        return Some(TokenType::Toast);
    }
    if chars_eq_str(w, "mix") {
        return Some(TokenType::Mix);
    }
    if chars_eq_str(w, "with") {
        return Some(TokenType::With);
    }
    if chars_eq_str(w, "double") {
        return Some(TokenType::Double);
    }
    if chars_eq_str(w, "by") {
        return Some(TokenType::By);
    }
    if chars_eq_str(w, "dilute") {
        return Some(TokenType::Dilute);
    }
    if chars_eq_str(w, "if") {
        return Some(TokenType::If);
    }
    if chars_eq_str(w, "else") {
        return Some(TokenType::Else);
    }
    if chars_eq_str(w, "judge") {
        return Some(TokenType::Judge);
    }
    if chars_eq_str(w, "stronger") {
        return Some(TokenType::Stronger);
    }
    if chars_eq_str(w, "than") {
        return Some(TokenType::Than);
    }
    if chars_eq_str(w, "weaker") {
        return Some(TokenType::Weaker);
    }
    if chars_eq_str(w, "not") {
        return Some(TokenType::Not);
    }
    if chars_eq_str(w, "repeat") {
        return Some(TokenType::Repeat);
    }
    if chars_eq_str(w, "times") {
        return Some(TokenType::Times);
    }
    if chars_eq_str(w, "each") {
        return Some(TokenType::Each);
    }
    if chars_eq_str(w, "in") {
        return Some(TokenType::In);
    }
    if chars_eq_str(w, "keg") {
        return Some(TokenType::Keg);
    }
    if chars_eq_str(w, "end") {
        return Some(TokenType::End);
    }
    if chars_eq_str(w, "barrel") {
        return Some(TokenType::Barrel);
    }
    if chars_eq_str(w, "add") {
        return Some(TokenType::Add);
    }
    if chars_eq_str(w, "to") {
        return Some(TokenType::To);
    }
    if chars_eq_str(w, "remove") {
        return Some(TokenType::Remove);
    }
    if chars_eq_str(w, "position") {
        return Some(TokenType::Position);
    }
    if chars_eq_str(w, "recipe") {
        return Some(TokenType::Recipe);
    }
    if chars_eq_str(w, "relabel") {
        return Some(TokenType::Relabel);
    }
    if chars_eq_str(w, "as") {
        return Some(TokenType::As);
    }
    if chars_eq_str(w, "water") {
        return Some(TokenType::Water);
    }
    if chars_eq_str(w, "barley") {
        return Some(TokenType::Barley);
    }
    if chars_eq_str(w, "hops") {
        return Some(TokenType::Hops);
    }
    if chars_eq_str(w, "yeast") {
        return Some(TokenType::Yeast);
    }
    None
}

/// Appends the escaped chars of `t`.
fn push_escaped(s: &mut String, t: &String)
    ensures
        final(s)@ == old(s)@ + escaped_chars(t@),
{
    let cs = chars_of(t.as_str());
    let mut i: usize = 0;
    while i < cs.len()
        invariant
            i <= cs.len(),
            cs@ == t@,
            s@ == old(s)@ + escaped_chars(cs@.take(i as int)),
        decreases cs.len() - i,
    {
        let c = cs[i];
        if c == '\'' {
            push_char(s, c);
        } else {
            let e = escape_debug_char(c);
            push_str(s, e.as_str());
        }
        assert(cs@.take(i + 1).drop_last() =~= cs@.take(i as int));
        i += 1;
        assert(s@ =~= old(s)@ + escaped_chars(cs@.take(i as int)));
    }
    assert(cs@.take(cs.len() as int) =~= cs@);
}

} // verus!
