//! Lexer for alescript source code.
//!
//! The lexer is a state machine over the chars of the source.  Its state, as
//! the specifications see it, is a `LexState`; each step (`Lexer::next`) is
//! specified by `lex_step`, and the whole token stream by `lex_all`.
use vstd::prelude::*;
use crate::text::{
    chars_of, is_alphabetic, is_alphanumeric, push_char, repeat_space, spaces, string_of,
    trim_string, unicode_alphabetic, unicode_alphanumeric, trimmed,
};
use crate::token::{keyword_kind, keyword_of_chars, SpecToken, Token, TokenKind, TokenType};

verus! {

/// The state of the lexer.
pub struct LexState {
    pub chars: Seq<char>,
    pub pos: int,
    pub line: int,
    pub column: int,
    pub indent_stack: Seq<int>,
    pub pending: Seq<SpecToken>,
    pub at_line_start: bool,
    pub eof_emitted: bool,
}

/// A token of the given kind, text, lexeme and position.
pub open spec fn tok(kind: TokenKind, text: Seq<char>, lexeme: Seq<char>, line: int, column: int) -> SpecToken {
    SpecToken { kind, text, lexeme, line, column }
}

/// The state in which lexing of `chars` starts.
pub open spec fn initial_state(chars: Seq<char>) -> LexState {
    LexState {
        chars,
        pos: 0,
        line: 1,
        column: 0,
        indent_stack: seq![0],
        pending: Seq::empty(),
        at_line_start: true,
        eof_emitted: false,
    }
}

/// A state the lexer can be in: the position within the source, the line
/// and column no larger than what the chars read so far allow, an indentation
/// stack that starts at level 0, and only DEDENT tokens waiting.  The bound on
/// the length keeps line, column and indentation counters within `usize`.
pub open spec fn wf_state(st: LexState) -> bool {
    &&& 0 <= st.pos <= st.chars.len()
    &&& st.chars.len() * 4 <= usize::MAX
    &&& 1 <= st.line <= 1 + st.pos
    &&& 0 <= st.column <= st.pos
    &&& st.indent_stack.len() >= 1
    &&& st.indent_stack[0] == 0
    &&& forall|i: int| 0 <= i < st.indent_stack.len() ==> 0 <= #[trigger] st.indent_stack[i] <= usize::MAX
    &&& forall|i: int| 0 <= i < st.pending.len() ==> (#[trigger] st.pending[i]).kind == TokenKind::Dedent
}

/// The next char, if any.
pub open spec fn peek(st: LexState) -> Option<char> {
    if 0 <= st.pos < st.chars.len() {
        Some(st.chars[st.pos])
    } else {
        None
    }
}

/// Consumes one char: a newline moves to column 0 of the next line, any
/// other char one column to the right.
pub open spec fn adv(st: LexState) -> LexState {
    if 0 <= st.pos < st.chars.len() {
        let c = st.chars[st.pos];
        LexState {
            pos: st.pos + 1,
            line: if c == '\n' { st.line + 1 } else { st.line },
            column: if c == '\n' { 0 } else { st.column + 1 },
            ..st
        }
    } else {
        st
    }
}

pub open spec fn is_space_or_tab(c: Option<char>) -> bool {
    c == Some(' ') || c == Some('\t')
}

pub open spec fn is_ascii_digit(c: char) -> bool {
    '0' <= c <= '9'
}

/// Reads the indentation of a line: a space counts 1, a tab 4.
pub open spec fn indent_scan(st: LexState, level: int) -> (LexState, int)
    decreases st.chars.len() - st.pos,
{
    if peek(st) == Some(' ') {
        indent_scan(adv(st), level + 1)
    } else if peek(st) == Some('\t') {
        indent_scan(adv(st), level + 4)
    } else {
        (st, level)
    }
}

/// Pops every level deeper than `level` off the stack, and counts them.
pub open spec fn pop_deeper(stack: Seq<int>, level: int) -> (Seq<int>, nat)
    decreases stack.len(),
{
    if stack.len() > 0 && stack.last() > level {
        let (s, n) = pop_deeper(stack.drop_last(), level);
        (s, n + 1)
    } else {
        (stack, 0)
    }
}

/// `n` DEDENT tokens at the given position.
pub open spec fn dedents(n: nat, line: int, column: int) -> Seq<SpecToken> {
    Seq::new(n, |i: int| tok(TokenKind::Dedent, Seq::empty(), Seq::empty(), line, column))
}

/// Handles the indentation at the start of a line: an INDENT when it is
/// deeper than the current level, DEDENTs (the first returned, the others
/// left waiting) when it is shallower, nothing on an empty line or at the
/// same level.
pub open spec fn handle_indentation(st: LexState) -> (LexState, Option<SpecToken>) {
    let start_column = st.column;
    let (st1, level) = indent_scan(st, 0);
    if peek(st1) == Some('\n') {
        (st1, None)
    } else {
        let current = st1.indent_stack.last();
        if level > current {
            (
                LexState { indent_stack: st1.indent_stack.push(level), ..st1 },
                Some(tok(TokenKind::Indent, Seq::empty(), spaces(level as nat), st1.line, start_column)),
            )
        } else if level < current {
            let (stack, n) = pop_deeper(st1.indent_stack, level);
            let p = st1.pending + dedents(n, st1.line, start_column);
            (LexState { indent_stack: stack, pending: p.drop_last(), ..st1 }, Some(p.last()))
        } else {
            (st1, None)
        }
    }
}

/// Reads the rest of an identifier or keyword.
pub open spec fn ident_run(st: LexState, acc: Seq<char>) -> (LexState, Seq<char>)
    decreases st.chars.len() - st.pos,
{
    match peek(st) {
        Some(c) => if unicode_alphanumeric(c) || c == '_' {
            ident_run(adv(st), acc.push(c))
        } else {
            (st, acc)
        },
        None => (st, acc),
    }
}

/// Scans an identifier or keyword.  Its first char, alphabetic or `_`, is
/// always part of it (an alphabetic char is alphanumeric).
pub open spec fn scan_identifier(st: LexState) -> (LexState, SpecToken) {
    let (st1, lexeme) = ident_run(adv(st), seq![st.chars[st.pos]]);
    let t = match keyword_kind(lexeme) {
        Some(k) => tok(k, Seq::empty(), lexeme, st.line, st.column),
        None => tok(TokenKind::Identifier, lexeme, lexeme, st.line, st.column),
    };
    (st1, t)
}

/// Reads a run of ASCII digits.
pub open spec fn digit_run(st: LexState, acc: Seq<char>) -> (LexState, Seq<char>)
    decreases st.chars.len() - st.pos,
{
    match peek(st) {
        Some(c) => if is_ascii_digit(c) {
            digit_run(adv(st), acc.push(c))
        } else {
            (st, acc)
        },
        None => (st, acc),
    }
}

/// Whether the next char is a point followed by a digit.
pub open spec fn point_then_digit(st: LexState) -> bool {
    &&& peek(st) == Some('.')
    &&& st.pos + 1 < st.chars.len()
    &&& is_ascii_digit(st.chars[st.pos + 1])
}

/// Scans a number (digits, optionally a point and digits), or a percentage
/// when a `%` follows.
pub open spec fn scan_number(st: LexState) -> (LexState, SpecToken) {
    let (st1, int_part) = digit_run(st, Seq::empty());
    let (st2, numeral) = if point_then_digit(st1) {
        digit_run(adv(st1), int_part.push('.'))
    } else {
        (st1, int_part)
    };
    if peek(st2) == Some('%') {
        (adv(st2), tok(TokenKind::Percentage, numeral, numeral.push('%'), st.line, st.column))
    } else {
        (st2, tok(TokenKind::Number, numeral, numeral, st.line, st.column))
    }
}

/// What an escape sequence `\e` stands for in a string literal.
pub open spec fn escape_value(e: char) -> Seq<char> {
    if e == 'n' {
        seq!['\n']
    } else if e == 't' {
        seq!['\t']
    } else if e == 'r' {
        seq!['\r']
    } else if e == '\\' {
        seq!['\\']
    } else if e == '"' {
        seq!['"']
    } else {
        seq!['\\', e]
    }
}

/// Reads the body of a string literal up to and including its closing quote
/// (or the end of the source), gathering its value and its lexeme.
pub open spec fn string_body(st: LexState, value: Seq<char>, lexeme: Seq<char>) -> (LexState, Seq<char>, Seq<char>)
    decreases st.chars.len() - st.pos,
{
    match peek(st) {
        None => (st, value, lexeme),
        Some(c) => if c == '"' {
            (adv(st), value, lexeme.push('"'))
        } else if c == '\\' {
            let st1 = adv(st);
            match peek(st1) {
                Some(e) => string_body(adv(st1), value + escape_value(e), lexeme.push('\\').push(e)),
                None => (st1, value, lexeme.push('\\')),
            }
        } else {
            string_body(adv(st), value.push(c), lexeme.push(c))
        },
    }
}

/// Scans a string literal.
pub open spec fn scan_string(st: LexState) -> (LexState, SpecToken) {
    let (st1, value, lexeme) = string_body(adv(st), Seq::empty(), seq!['"']);
    (st1, tok(TokenKind::String, value, lexeme, st.line, st.column))
}

/// Reads the text of a comment up to the end of the line.
pub open spec fn comment_body(st: LexState, acc: Seq<char>) -> (LexState, Seq<char>)
    decreases st.chars.len() - st.pos,
{
    match peek(st) {
        Some(c) => if c == '\n' {
            (st, acc)
        } else {
            comment_body(adv(st), acc.push(c))
        },
        None => (st, acc),
    }
}

/// The comment token whose text starts where `st` stands, the `//` before it
/// having begun at `line` and `column`.
pub open spec fn comment_token(st: LexState, line: int, column: int) -> (LexState, SpecToken) {
    let (st1, text) = comment_body(st, Seq::empty());
    (st1, tok(TokenKind::Comment, trimmed(text), seq!['/', '/'] + text, line, column))
}

/// Scans a comment from its first `/`: the two slashes, then the text up to
/// the end of the line.
pub open spec fn scan_comment(st: LexState) -> (LexState, SpecToken) {
    comment_token(adv(adv(st)), st.line, st.column)
}

/// The kind of a one-char symbol token.
pub open spec fn symbol_kind(c: char) -> Option<TokenKind> {
    if c == '.' {
        Some(TokenKind::Period)
    } else if c == ':' {
        Some(TokenKind::Colon)
    } else if c == ',' {
        Some(TokenKind::Comma)
    } else if c == '(' {
        Some(TokenKind::LeftParen)
    } else if c == ')' {
        Some(TokenKind::RightParen)
    } else {
        bracket_kind(c)
    }
}

pub open spec fn bracket_kind(c: char) -> Option<TokenKind> {
    if c == '[' {
        Some(TokenKind::LeftBracket)
    } else if c == ']' {
        Some(TokenKind::RightBracket)
    } else if c == '{' {
        Some(TokenKind::LeftBrace)
    } else if c == '}' {
        Some(TokenKind::RightBrace)
    } else if c == '=' {
        Some(TokenKind::Equal)
    } else {
        None
    }
}

/// Scans a token from where spaces and tabs have been skipped; a char that
/// starts no token is dropped and scanning goes on.
pub open spec fn scan_token(st: LexState) -> (LexState, Option<SpecToken>)
    decreases st.chars.len() - st.pos,
{
    match peek(st) {
        None => (st, None),
        Some(c) => {
            let line = st.line;
            let column = st.column;
            if c == ' ' || c == '\t' {
                scan_token(adv(st))
            } else if c == '\n' {
                (
                    LexState { at_line_start: true, ..adv(st) },
                    Some(tok(TokenKind::Newline, Seq::empty(), seq!['\n'], line, column)),
                )
            } else if symbol_kind(c) is Some {
                (adv(st), Some(tok(symbol_kind(c)->0, Seq::empty(), seq![c], line, column)))
            } else if c == '/' {
                let st1 = adv(st);
                if peek(st1) == Some('/') {
                    let (st2, t) = scan_comment(st);
                    (st2, Some(t))
                } else {
                    (st1, Some(tok(TokenKind::Identifier, seq!['/'], seq!['/'], line, column)))
                }
            } else if c == '"' {
                let (st1, t) = scan_string(st);
                (st1, Some(t))
            } else if is_ascii_digit(c) {
                let (st1, t) = scan_number(st);
                (st1, Some(t))
            } else if unicode_alphabetic(c) || c == '_' {
                let (st1, t) = scan_identifier(st);
                (st1, Some(t))
            } else {
                scan_token(adv(st))
            }
        },
    }
}

/// The next token: a waiting one first, then what the indentation of a new
/// line gives, then a scanned one; nothing at the end of the source.
pub open spec fn next_token(st: LexState) -> (LexState, Option<SpecToken>) {
    if st.pending.len() > 0 {
        (LexState { pending: st.pending.drop_last(), ..st }, Some(st.pending.last()))
    } else if st.at_line_start {
        let (st1, t) = handle_indentation(LexState { at_line_start: false, ..st });
        if t is Some {
            (st1, t)
        } else {
            scan_token(st1)
        }
    } else {
        scan_token(st)
    }
}

/// One step of the lexer: the next token; at the end of the source one
/// DEDENT for each open indentation level, then a single EOF, then nothing.
pub open spec fn lex_step(st: LexState) -> (LexState, Option<SpecToken>) {
    if st.eof_emitted {
        (st, None)
    } else {
        let (st1, t) = next_token(st);
        if t is Some {
            (st1, t)
        } else if st1.indent_stack.len() > 1 {
            (
                LexState { indent_stack: st1.indent_stack.drop_last(), ..st1 },
                Some(tok(TokenKind::Dedent, Seq::empty(), Seq::empty(), st1.line, st1.column)),
            )
        } else {
            (
                LexState { eof_emitted: true, ..st1 },
                Some(tok(TokenKind::Eof, Seq::empty(), Seq::empty(), st1.line, st1.column)),
            )
        }
    }
}

/// Every char is an ASCII digit.
pub open spec fn all_digits(s: Seq<char>) -> bool {
    forall|k: int| 0 <= k < s.len() ==> is_ascii_digit(#[trigger] s[k])
}

/// A decimal numeral: digits, optionally followed by a point and more digits.
pub open spec fn is_numeral(s: Seq<char>) -> bool {
    ||| s.len() > 0 && all_digits(s)
    ||| exists|k: int|
        0 < k < s.len() - 1 && s[k] == '.' && all_digits(#[trigger] s.subrange(0, k))
            && all_digits(s.subrange(k + 1, s.len() as int))
}

/// What a token of the stream looks like: an identifier has a name that is
/// no keyword; a number or percentage holds a decimal numeral.
pub open spec fn well_shaped(t: SpecToken) -> bool {
    &&& t.kind == TokenKind::Identifier ==> t.text.len() > 0 && keyword_kind(t.text) is None
    &&& (t.kind == TokenKind::Number || t.kind == TokenKind::Percentage) ==> is_numeral(t.text)
}

/// `b` is `a` with some chars consumed and nothing else changed, and is a
/// state the lexer can be in.
pub open spec fn consumed_from(a: LexState, b: LexState) -> bool {
    &&& b.chars == a.chars
    &&& a.pos <= b.pos
    &&& b.indent_stack == a.indent_stack
    &&& b.pending == a.pending
    &&& b.at_line_start == a.at_line_start
    &&& b.eof_emitted == a.eof_emitted
    &&& wf_state(b)
}

/// Kinds that scanning chars gives, as opposed to the layout tokens INDENT,
/// DEDENT and EOF.
pub open spec fn plain_kind(k: TokenKind) -> bool {
    k != TokenKind::Indent && k != TokenKind::Dedent && k != TokenKind::Eof
}

/// Open indentation levels plus waiting DEDENTs: the DEDENTs still owed.
pub open spec fn owed_dedents(st: LexState) -> int {
    st.indent_stack.len() - 1 + st.pending.len()
}

/// A measure that every step producing a token lowers.
pub open spec fn lex_measure(st: LexState) -> int {
    4 * (st.chars.len() - st.pos) + (if st.at_line_start { 2int } else { 0 }) + st.pending.len()
        + st.indent_stack.len() + (if st.eof_emitted { 0int } else { 1 })
}

proof fn lemma_adv(st: LexState)
    requires
        wf_state(st),
    ensures
        consumed_from(st, adv(st)),
        peek(st) is Some ==> adv(st).pos == st.pos + 1,
        peek(st) is Some && peek(st) != Some('\n') ==> adv(st).column == st.column + 1,
{
}

proof fn lemma_ident_run(st: LexState, acc: Seq<char>)
    requires
        wf_state(st),
    ensures
        consumed_from(st, ident_run(st, acc).0),
        ident_run(st, acc).1.len() >= acc.len(),
    decreases st.chars.len() - st.pos,
{
    if let Some(c) = peek(st) {
        if unicode_alphanumeric(c) || c == '_' {
            lemma_adv(st);
            lemma_ident_run(adv(st), acc.push(c));
        }
    }
}

proof fn lemma_digit_run(st: LexState, acc: Seq<char>)
    requires
        wf_state(st),
    ensures
        consumed_from(st, digit_run(st, acc).0),
    decreases st.chars.len() - st.pos,
{
    if let Some(c) = peek(st) {
        if is_ascii_digit(c) {
            lemma_adv(st);
            lemma_digit_run(adv(st), acc.push(c));
        }
    }
}

proof fn lemma_digit_run_digits(st: LexState, acc: Seq<char>)
    requires
        wf_state(st),
    ensures
        digit_run(st, acc).1.len() >= acc.len(),
        digit_run(st, acc).1.subrange(0, acc.len() as int) == acc,
        all_digits(digit_run(st, acc).1.subrange(acc.len() as int, digit_run(st, acc).1.len() as int)),
    decreases st.chars.len() - st.pos,
{
    let r = digit_run(st, acc).1;
    if let Some(c) = peek(st) {
        if is_ascii_digit(c) {
            lemma_adv(st);
            lemma_digit_run_digits(adv(st), acc.push(c));
            assert(r.subrange(0, acc.len() as int) =~= r.subrange(0, acc.len() + 1 as int).subrange(0, acc.len() as int));
            assert forall|k: int| 0 <= k < r.len() - acc.len() implies is_ascii_digit(
                #[trigger] r.subrange(acc.len() as int, r.len() as int)[k]) by {
                if k > 0 {
                    assert(r.subrange(acc.len() as int, r.len() as int)[k]
                        == r.subrange(acc.len() + 1 as int, r.len() as int)[k - 1]);
                } else {
                    assert(r.subrange(0, acc.len() + 1 as int)[acc.len() as int] == c);
                }
            }
        }
    }
    if !(peek(st) matches Some(c) && is_ascii_digit(c)) {
        assert(r =~= acc);
        assert(r.subrange(0, acc.len() as int) =~= acc);
    }
}

/// A lone slash is no keyword.
proof fn lemma_slash_is_no_keyword()
    ensures
        keyword_kind(seq!['/']) is None,
{
    reveal_strlit("brew");
    reveal_strlit("from");
    reveal_strlit("wait");
    reveal_strlit("for");
    reveal_strlit("days");
    reveal_strlit("day");
    reveal_strlit("age");
    reveal_strlit("until");
    reveal_strlit("is");
    reveal_strlit("abv");
    reveal_strlit("taste");
    reveal_strlit("toast");
    reveal_strlit("mix");
    reveal_strlit("with");
    reveal_strlit("double");
    reveal_strlit("by");
    reveal_strlit("dilute");
    reveal_strlit("if");
    reveal_strlit("else");
    reveal_strlit("judge");
    reveal_strlit("stronger");
    reveal_strlit("than");
    reveal_strlit("weaker");
    reveal_strlit("not");
    reveal_strlit("repeat");
    reveal_strlit("times");
    reveal_strlit("each");
    reveal_strlit("in");
    reveal_strlit("keg");
    reveal_strlit("end");
    reveal_strlit("barrel");
    reveal_strlit("add");
    reveal_strlit("to");
    reveal_strlit("remove");
    reveal_strlit("position");
    reveal_strlit("recipe");
    reveal_strlit("relabel");
    reveal_strlit("as");
    reveal_strlit("water");
    reveal_strlit("barley");
    reveal_strlit("hops");
    reveal_strlit("yeast");
    let w = seq!['/'];
    assert(w != "brew"@) by { assert(w.len() != "brew"@.len() || w[0] != "brew"@[0]); }
    assert(w != "from"@) by { assert(w.len() != "from"@.len() || w[0] != "from"@[0]); }
    assert(w != "wait"@) by { assert(w.len() != "wait"@.len() || w[0] != "wait"@[0]); }
    assert(w != "for"@) by { assert(w.len() != "for"@.len() || w[0] != "for"@[0]); }
    assert(w != "days"@) by { assert(w.len() != "days"@.len() || w[0] != "days"@[0]); }
    assert(w != "day"@) by { assert(w.len() != "day"@.len() || w[0] != "day"@[0]); }
    assert(w != "age"@) by { assert(w.len() != "age"@.len() || w[0] != "age"@[0]); }
    assert(w != "until"@) by { assert(w.len() != "until"@.len() || w[0] != "until"@[0]); }
    assert(w != "is"@) by { assert(w.len() != "is"@.len() || w[0] != "is"@[0]); }
    assert(w != "abv"@) by { assert(w.len() != "abv"@.len() || w[0] != "abv"@[0]); }
    assert(w != "taste"@) by { assert(w.len() != "taste"@.len() || w[0] != "taste"@[0]); }
    assert(w != "toast"@) by { assert(w.len() != "toast"@.len() || w[0] != "toast"@[0]); }
    assert(w != "mix"@) by { assert(w.len() != "mix"@.len() || w[0] != "mix"@[0]); }
    assert(w != "with"@) by { assert(w.len() != "with"@.len() || w[0] != "with"@[0]); }
    assert(w != "double"@) by { assert(w.len() != "double"@.len() || w[0] != "double"@[0]); }
    assert(w != "by"@) by { assert(w.len() != "by"@.len() || w[0] != "by"@[0]); }
    assert(w != "dilute"@) by { assert(w.len() != "dilute"@.len() || w[0] != "dilute"@[0]); }
    assert(w != "if"@) by { assert(w.len() != "if"@.len() || w[0] != "if"@[0]); }
    assert(w != "else"@) by { assert(w.len() != "else"@.len() || w[0] != "else"@[0]); }
    assert(w != "judge"@) by { assert(w.len() != "judge"@.len() || w[0] != "judge"@[0]); }
    assert(w != "stronger"@) by { assert(w.len() != "stronger"@.len() || w[0] != "stronger"@[0]); }
    assert(w != "than"@) by { assert(w.len() != "than"@.len() || w[0] != "than"@[0]); }
    assert(w != "weaker"@) by { assert(w.len() != "weaker"@.len() || w[0] != "weaker"@[0]); }
    assert(w != "not"@) by { assert(w.len() != "not"@.len() || w[0] != "not"@[0]); }
    assert(w != "repeat"@) by { assert(w.len() != "repeat"@.len() || w[0] != "repeat"@[0]); }
    assert(w != "times"@) by { assert(w.len() != "times"@.len() || w[0] != "times"@[0]); }
    assert(w != "each"@) by { assert(w.len() != "each"@.len() || w[0] != "each"@[0]); }
    assert(w != "in"@) by { assert(w.len() != "in"@.len() || w[0] != "in"@[0]); }
    assert(w != "keg"@) by { assert(w.len() != "keg"@.len() || w[0] != "keg"@[0]); }
    assert(w != "end"@) by { assert(w.len() != "end"@.len() || w[0] != "end"@[0]); }
    assert(w != "barrel"@) by { assert(w.len() != "barrel"@.len() || w[0] != "barrel"@[0]); }
    assert(w != "add"@) by { assert(w.len() != "add"@.len() || w[0] != "add"@[0]); }
    assert(w != "to"@) by { assert(w.len() != "to"@.len() || w[0] != "to"@[0]); }
    assert(w != "remove"@) by { assert(w.len() != "remove"@.len() || w[0] != "remove"@[0]); }
    assert(w != "position"@) by { assert(w.len() != "position"@.len() || w[0] != "position"@[0]); }
    assert(w != "recipe"@) by { assert(w.len() != "recipe"@.len() || w[0] != "recipe"@[0]); }
    assert(w != "relabel"@) by { assert(w.len() != "relabel"@.len() || w[0] != "relabel"@[0]); }
    assert(w != "as"@) by { assert(w.len() != "as"@.len() || w[0] != "as"@[0]); }
    assert(w != "water"@) by { assert(w.len() != "water"@.len() || w[0] != "water"@[0]); }
    assert(w != "barley"@) by { assert(w.len() != "barley"@.len() || w[0] != "barley"@[0]); }
    assert(w != "hops"@) by { assert(w.len() != "hops"@.len() || w[0] != "hops"@[0]); }
    assert(w != "yeast"@) by { assert(w.len() != "yeast"@.len() || w[0] != "yeast"@[0]); }
}

proof fn lemma_string_body(st: LexState, value: Seq<char>, lexeme: Seq<char>)
    requires
        wf_state(st),
    ensures
        consumed_from(st, string_body(st, value, lexeme).0),
    decreases st.chars.len() - st.pos,
{
    if let Some(c) = peek(st) {
        lemma_adv(st);
        if c == '"' {
        } else if c == '\\' {
            let st1 = adv(st);
            if let Some(e) = peek(st1) {
                lemma_adv(st1);
                lemma_string_body(adv(st1), value + escape_value(e), lexeme.push('\\').push(e));
            }
        } else {
            lemma_string_body(adv(st), value.push(c), lexeme.push(c));
        }
    }
}

/// The position of the first newline at or after `p` in `chars`, or the end
/// of `chars` when there is none.
pub open spec fn line_end(chars: Seq<char>, p: int) -> int
    decreases chars.len() - p,
{
    if p < 0 || p >= chars.len() {
        chars.len() as int
    } else if chars[p] == '\n' {
        p
    } else {
        line_end(chars, p + 1)
    }
}

/// A comment's body is the text from where it starts up to the end of the
/// line, and reading it stops at that newline.
proof fn lemma_comment_text(st: LexState, acc: Seq<char>)
    requires
        wf_state(st),
    ensures
        st.pos <= line_end(st.chars, st.pos) <= st.chars.len(),
        comment_body(st, acc).0.pos == line_end(st.chars, st.pos),
        comment_body(st, acc).1 == acc + st.chars.subrange(st.pos, line_end(st.chars, st.pos)),
    decreases st.chars.len() - st.pos,
{
    match peek(st) {
        None => {
            assert(acc + st.chars.subrange(st.pos, st.pos) =~= acc);
        },
        Some(c) => if c == '\n' {
            assert(acc + st.chars.subrange(st.pos, st.pos) =~= acc);
        } else {
            lemma_adv(st);
            lemma_comment_text(adv(st), acc.push(c));
            let e = line_end(st.chars, st.pos);
            assert(acc.push(c) + st.chars.subrange(st.pos + 1, e) =~= acc + st.chars.subrange(st.pos, e));
        },
    }
}

/// A comment is the text after `//` up to the end of the line, trimmed:
/// when the next chars are `//`, the token scanned is a comment with that
/// text, and scanning stops at the newline (or the end of the source).
pub proof fn law_comment_text(st: LexState)
    requires
        wf_state(st),
        peek(st) == Some('/'),
        peek(adv(st)) == Some('/'),
    ensures
        ({
            let (st1, t) = scan_token(st);
            let e = line_end(st.chars, st.pos + 2);
            &&& t matches Some(tk)
            &&& tk.kind == TokenKind::Comment
            &&& tk.text == trimmed(st.chars.subrange(st.pos + 2, e))
            &&& tk.lexeme == st.chars.subrange(st.pos, e)
            &&& st1.pos == e
        }),
{
    lemma_adv(st);
    lemma_adv(adv(st));
    let st2 = adv(adv(st));
    lemma_comment_text(st2, Seq::empty());
    let e = line_end(st.chars, st.pos + 2);
    assert(Seq::<char>::empty() + st.chars.subrange(st.pos + 2, e) =~= st.chars.subrange(st.pos + 2, e));
    assert(seq!['/', '/'] + st.chars.subrange(st.pos + 2, e) =~= st.chars.subrange(st.pos, e));
}

proof fn lemma_comment_body(st: LexState, acc: Seq<char>)
    requires
        wf_state(st),
    ensures
        consumed_from(st, comment_body(st, acc).0),
    decreases st.chars.len() - st.pos,
{
    if let Some(c) = peek(st) {
        if c != '\n' {
            lemma_adv(st);
            lemma_comment_body(adv(st), acc.push(c));
        }
    }
}

proof fn lemma_indent_scan(st: LexState, level: int)
    requires
        wf_state(st),
        level >= 0,
    ensures
        consumed_from(st, indent_scan(st, level).0),
        level <= indent_scan(st, level).1 <= level + 4 * (indent_scan(st, level).0.pos - st.pos),
    decreases st.chars.len() - st.pos,
{
    if peek(st) == Some(' ') {
        lemma_adv(st);
        lemma_indent_scan(adv(st), level + 1);
    } else if peek(st) == Some('\t') {
        lemma_adv(st);
        lemma_indent_scan(adv(st), level + 4);
    }
}

proof fn lemma_pop_deeper(stack: Seq<int>, level: int)
    requires
        stack.len() >= 1,
        stack[0] <= level,
    ensures
        pop_deeper(stack, level).0.len() >= 1,
        pop_deeper(stack, level).1 < stack.len(),
        pop_deeper(stack, level).0 == stack.subrange(0, stack.len() - pop_deeper(stack, level).1),
        stack.last() > level ==> pop_deeper(stack, level).1 >= 1,
    decreases stack.len(),
{
    if stack.len() > 0 && stack.last() > level {
        lemma_pop_deeper(stack.drop_last(), level);
        let (s, n) = pop_deeper(stack.drop_last(), level);
        assert(stack.drop_last().subrange(0, stack.drop_last().len() - n) =~= stack.subrange(0, stack.len() - (n + 1)));
    } else {
        assert(stack.subrange(0, stack.len() as int) =~= stack);
    }
}

/// The position of the first char at or after `p` in `chars` that is not an
/// ASCII digit, or the end of `chars`.
pub open spec fn digits_end(chars: Seq<char>, p: int) -> int
    decreases chars.len() - p,
{
    if p < 0 || p >= chars.len() {
        chars.len() as int
    } else if !is_ascii_digit(chars[p]) {
        p
    } else {
        digits_end(chars, p + 1)
    }
}

/// A run of digits reads exactly the digits from where it starts.
proof fn lemma_digit_run_text(st: LexState, acc: Seq<char>)
    requires
        wf_state(st),
    ensures
        st.pos <= digits_end(st.chars, st.pos) <= st.chars.len(),
        digit_run(st, acc).0.pos == digits_end(st.chars, st.pos),
        digit_run(st, acc).0.chars == st.chars,
        digit_run(st, acc).1 == acc + st.chars.subrange(st.pos, digits_end(st.chars, st.pos)),
    decreases st.chars.len() - st.pos,
{
    match peek(st) {
        Some(c) => if is_ascii_digit(c) {
            lemma_adv(st);
            lemma_digit_run_text(adv(st), acc.push(c));
            let e = digits_end(st.chars, st.pos);
            assert(acc.push(c) + st.chars.subrange(st.pos + 1, e) =~= acc + st.chars.subrange(st.pos, e));
        } else {
            assert(acc + st.chars.subrange(st.pos, st.pos) =~= acc);
        },
        None => {
            assert(acc + st.chars.subrange(st.pos, st.pos) =~= acc);
        },
    }
}

/// A number is the digits as written: a run of digits that no `.` and
/// digit and no `%` follow is scanned as a NUMBER whose text is that run;
/// with `%` after it, as a PERCENTAGE with the same text.
pub proof fn law_integer_numeral(st: LexState)
    requires
        wf_state(st),
        peek(st) matches Some(c) && is_ascii_digit(c),
    ensures
        ({
            let e = digits_end(st.chars, st.pos);
            let digits = st.chars.subrange(st.pos, e);
            let (st1, t) = scan_token(st);
            let followed_by_fraction = e + 1 < st.chars.len() && st.chars[e] == '.' && is_ascii_digit(st.chars[e + 1]);
            &&& (!followed_by_fraction && !(e < st.chars.len() && st.chars[e] == '%')) ==>
                (t matches Some(tk) && tk.kind == TokenKind::Number && tk.text == digits && st1.pos == e)
            &&& (e < st.chars.len() && st.chars[e] == '%') ==>
                (t matches Some(tk) && tk.kind == TokenKind::Percentage && tk.text == digits && st1.pos == e + 1)
        }),
{
    lemma_digit_run_text(st, Seq::empty());
    let e = digits_end(st.chars, st.pos);
    assert(Seq::<char>::empty() + st.chars.subrange(st.pos, e) =~= st.chars.subrange(st.pos, e));
    let c = st.chars[st.pos];
    assert(symbol_kind(c) is None);
}

/// The chars of a string literal up to where `k` stands contain no quote and
/// no backslash.
pub open spec fn plain_string_chars(chars: Seq<char>, from: int, to: int) -> bool {
    forall|k: int| from <= k < to ==> #[trigger] chars[k] != '"' && chars[k] != '\\'
}

/// A string literal without escapes reads as the chars between its quotes.
proof fn lemma_plain_string_body(st: LexState, value: Seq<char>, lexeme: Seq<char>, close: int)
    requires
        wf_state(st),
        st.pos <= close < st.chars.len(),
        st.chars[close] == '"',
        plain_string_chars(st.chars, st.pos, close),
    ensures
        string_body(st, value, lexeme).0.pos == close + 1,
        string_body(st, value, lexeme).1 == value + st.chars.subrange(st.pos, close),
        string_body(st, value, lexeme).2 == lexeme + st.chars.subrange(st.pos, close + 1),
    decreases st.chars.len() - st.pos,
{
    let c = st.chars[st.pos];
    lemma_adv(st);
    if st.pos == close {
        assert(value + st.chars.subrange(st.pos, close) =~= value);
        assert(lexeme.push('"') =~= lexeme + st.chars.subrange(st.pos, close + 1));
    } else {
        assert(c != '"' && c != '\\');
        lemma_plain_string_body(adv(st), value.push(c), lexeme.push(c), close);
        assert(value.push(c) + st.chars.subrange(st.pos + 1, close) =~= value + st.chars.subrange(st.pos, close));
        assert(lexeme.push(c) + st.chars.subrange(st.pos + 1, close + 1) =~= lexeme + st.chars.subrange(st.pos, close + 1));
    }
}

/// A string literal is the text between its quotes: from a `"`, up to the
/// next `"` with no backslash between, the token scanned is a STRING whose
/// text is the chars between the quotes and whose lexeme is the literal.
pub proof fn law_plain_string(st: LexState, close: int)
    requires
        wf_state(st),
        peek(st) == Some('"'),
        st.pos < close < st.chars.len(),
        st.chars[close] == '"',
        plain_string_chars(st.chars, st.pos + 1, close),
    ensures
        ({
            let (st1, t) = scan_token(st);
            &&& t matches Some(tk)
            &&& tk.kind == TokenKind::String
            &&& tk.text == st.chars.subrange(st.pos + 1, close)
            &&& tk.lexeme == st.chars.subrange(st.pos, close + 1)
            &&& st1.pos == close + 1
        }),
{
    lemma_adv(st);
    lemma_plain_string_body(adv(st), Seq::empty(), seq!['"'], close);
    assert(Seq::<char>::empty() + st.chars.subrange(st.pos + 1, close) =~= st.chars.subrange(st.pos + 1, close));
    assert(seq!['"'] + st.chars.subrange(st.pos + 1, close + 1) =~= st.chars.subrange(st.pos, close + 1));
}

/// The escapes of a string literal: `\n`, `\t`, `\r`, `\\` and `\"` stand
/// for a newline, a tab, a carriage return, a backslash and a quote.
pub proof fn law_string_escapes(st: LexState)
    requires
        wf_state(st),
        st.pos + 3 < st.chars.len(),
        st.chars[st.pos] == '"',
        st.chars[st.pos + 1] == '\\',
        st.chars[st.pos + 3] == '"',
    ensures
        ({
            let e = st.chars[st.pos + 2];
            let (_st1, t) = scan_token(st);
            &&& e == 'n' ==> (t matches Some(tk) && tk.kind == TokenKind::String && tk.text == seq!['\n'])
            &&& e == 't' ==> (t matches Some(tk) && tk.kind == TokenKind::String && tk.text == seq!['\t'])
            &&& e == 'r' ==> (t matches Some(tk) && tk.kind == TokenKind::String && tk.text == seq!['\r'])
            &&& e == '\\' ==> (t matches Some(tk) && tk.kind == TokenKind::String && tk.text == seq!['\\'])
            &&& e == '"' ==> (t matches Some(tk) && tk.kind == TokenKind::String && tk.text == seq!['"'])
        }),
{
    let st1 = adv(st);
    lemma_adv(st);
    lemma_adv(st1);
    lemma_adv(adv(st1));
    let st3 = adv(adv(st1));
    lemma_adv(st3);
    let e = st.chars[st.pos + 2];
    let v = Seq::<char>::empty() + escape_value(e);
    assert(v =~= escape_value(e));
    assert(peek(st1) == Some('\\'));
    assert(peek(adv(st1)) == Some(e));
    assert(peek(st3) == Some('"'));
    assert(string_body(st3, v, seq!['"', '\\', e]).1 == v);
    assert(string_body(st1, Seq::empty(), seq!['"']).1 == string_body(st3, v, seq!['"'].push('\\').push(e)).1);
    assert(seq!['"'].push('\\').push(e) =~= seq!['"', '\\', e]);
}

/// The position of the first char at or after `p` in `chars` that cannot
/// continue a word (neither alphanumeric nor `_`), or the end of `chars`.
pub open spec fn word_end(chars: Seq<char>, p: int) -> int
    decreases chars.len() - p,
{
    if p < 0 || p >= chars.len() {
        chars.len() as int
    } else if !(unicode_alphanumeric(chars[p]) || chars[p] == '_') {
        p
    } else {
        word_end(chars, p + 1)
    }
}

/// The rest of a word reads exactly the chars up to where it ends.
proof fn lemma_ident_run_text(st: LexState, acc: Seq<char>)
    requires
        wf_state(st),
    ensures
        st.pos <= word_end(st.chars, st.pos) <= st.chars.len(),
        ident_run(st, acc).0.pos == word_end(st.chars, st.pos),
        ident_run(st, acc).1 == acc + st.chars.subrange(st.pos, word_end(st.chars, st.pos)),
    decreases st.chars.len() - st.pos,
{
    match peek(st) {
        Some(c) => if unicode_alphanumeric(c) || c == '_' {
            lemma_adv(st);
            lemma_ident_run_text(adv(st), acc.push(c));
            let e = word_end(st.chars, st.pos);
            assert(acc.push(c) + st.chars.subrange(st.pos + 1, e) =~= acc + st.chars.subrange(st.pos, e));
        } else {
            assert(acc + st.chars.subrange(st.pos, st.pos) =~= acc);
        },
        None => {
            assert(acc + st.chars.subrange(st.pos, st.pos) =~= acc);
        },
    }
}

/// A word is the longest run of alphanumeric chars and `_` from a letter
/// or `_`: the token scanned there has that run as its lexeme, and is the
/// keyword of that word if it is one, else an identifier named by it.
pub proof fn law_word_token(st: LexState)
    requires
        wf_state(st),
        peek(st) matches Some(c) && (unicode_alphabetic(c) || c == '_') && !is_ascii_digit(c) && c != ' ' && c != '\t'
            && c != '\n' && c != '/' && c != '"' && symbol_kind(c) is None,
    ensures
        ({
            let e = word_end(st.chars, st.pos + 1);
            let word = st.chars.subrange(st.pos, e);
            let (st1, t) = scan_token(st);
            &&& t matches Some(tk)
            &&& tk.lexeme == word
            &&& st1.pos == e
            &&& keyword_kind(word) matches Some(k) ==> tk.kind == k
            &&& keyword_kind(word) is None ==> tk.kind == TokenKind::Identifier && tk.text == word
        }),
{
    lemma_adv(st);
    lemma_ident_run_text(adv(st), seq![st.chars[st.pos]]);
    let e = word_end(st.chars, st.pos + 1);
    assert(seq![st.chars[st.pos]] + st.chars.subrange(st.pos + 1, e) =~= st.chars.subrange(st.pos, e));
}

/// What `pop_deeper` leaves and takes: it leaves a prefix of the stack
/// whose last level is at most `level`, and every level it takes is deeper
/// than `level`.
proof fn lemma_pop_deeper_levels(stack: Seq<int>, level: int)
    requires
        stack.len() >= 1,
        stack[0] <= level,
    ensures
        pop_deeper(stack, level).0.last() <= level,
        forall|k: int| pop_deeper(stack, level).0.len() <= k < stack.len() ==> #[trigger] stack[k] > level,
    decreases stack.len(),
{
    lemma_pop_deeper(stack, level);
    if stack.last() > level {
        if stack.len() == 1 {
            assert(stack.last() == stack[0]);
        }
        lemma_pop_deeper_levels(stack.drop_last(), level);
        let rest = pop_deeper(stack.drop_last(), level).0;
        assert forall|k: int| pop_deeper(stack, level).0.len() <= k < stack.len() implies #[trigger] stack[k] > level by {
            if k < stack.len() - 1 {
                assert(stack[k] == stack.drop_last()[k]);
            }
        }
    }
}

/// The layout of a line, by its indentation `level` (spaces count one,
/// tabs four) against the innermost open level: a deeper line opens one
/// level, with an INDENT; a shallower one closes every open level deeper
/// than it, one DEDENT each (the first returned, the others left waiting),
/// and leaves open levels no deeper than it; a line at the same level, or an
/// empty line, changes nothing.
pub proof fn law_indentation_levels(st: LexState)
    requires
        wf_state(st),
    ensures
        ({
            let (st1, level) = indent_scan(st, 0);
            let (st2, t) = handle_indentation(st);
            let open = st.indent_stack;
            let current = open.last();
            &&& st1.indent_stack == open
            &&& (peek(st1) == Some('\n') || level == current) ==> t is None && st2.indent_stack == open
                && st2.pending == st.pending
            &&& (peek(st1) != Some('\n') && level > current) ==> ((t matches Some(tk) && tk.kind == TokenKind::Indent)
                && st2.indent_stack == open.push(level) && st2.pending == st.pending)
            &&& (peek(st1) != Some('\n') && level < current) ==> {
                let closed = open.len() - st2.indent_stack.len();
                &&& t matches Some(tk) && tk.kind == TokenKind::Dedent
                &&& 1 <= closed
                &&& st2.indent_stack == open.take(st2.indent_stack.len() as int)
                &&& st2.indent_stack.len() >= 1
                &&& st2.indent_stack.last() <= level
                &&& forall|k: int| st2.indent_stack.len() <= k < open.len() ==> #[trigger] open[k] > level
                &&& st2.pending.len() + 1 == st.pending.len() + closed
                &&& st2.pending.take(st.pending.len() as int) == st.pending
                &&& forall|k: int| st.pending.len() <= k < st2.pending.len() ==> (#[trigger] st2.pending[k]).kind
                    == TokenKind::Dedent
            }
        }),
{
    lemma_indent_scan(st, 0);
    let (st1, level) = indent_scan(st, 0);
    if peek(st1) != Some('\n') && level < st1.indent_stack.last() {
        lemma_pop_deeper(st1.indent_stack, level);
        lemma_pop_deeper_levels(st1.indent_stack, level);
        let (stack, n) = pop_deeper(st1.indent_stack, level);
        assert(stack =~= st1.indent_stack.take(stack.len() as int));
        let p = st1.pending + dedents(n, st1.line, st.column);
        assert(p.drop_last().take(st.pending.len() as int) =~= st.pending);
        assert forall|k: int| st.pending.len() <= k < p.drop_last().len() implies (#[trigger] p.drop_last()[k]).kind
            == TokenKind::Dedent by {
            assert(p.drop_last()[k] == dedents(n, st1.line, st.column)[k - st.pending.len()]);
        }
    }
}

/// A run of digits that starts with a digit gives a nonempty all-digit text.
proof fn lemma_digits_from_digit(st: LexState, acc: Seq<char>)
    requires
        wf_state(st),
        peek(st) matches Some(c) && is_ascii_digit(c),
    ensures
        digit_run(st, acc).1.len() > acc.len(),
        digit_run(st, acc).1.subrange(0, acc.len() as int) == acc,
        all_digits(digit_run(st, acc).1.subrange(acc.len() as int, digit_run(st, acc).1.len() as int)),
{
    let c = st.chars[st.pos];
    lemma_adv(st);
    lemma_digit_run_digits(adv(st), acc.push(c));
    let r = digit_run(st, acc).1;
    assert(r == digit_run(adv(st), acc.push(c)).1);
    assert(r.subrange(0, acc.len() as int) =~= r.subrange(0, acc.len() + 1 as int).subrange(0, acc.len() as int));
    assert forall|k: int| 0 <= k < r.len() - acc.len() implies is_ascii_digit(
        #[trigger] r.subrange(acc.len() as int, r.len() as int)[k]) by {
        if k > 0 {
            assert(r.subrange(acc.len() as int, r.len() as int)[k]
                == r.subrange(acc.len() + 1 as int, r.len() as int)[k - 1]);
        } else {
            assert(r.subrange(0, acc.len() + 1 as int)[acc.len() as int] == c);
        }
    }
}

/// A scanned number holds a decimal numeral.
proof fn lemma_scan_number_shape(st: LexState)
    requires
        wf_state(st),
        peek(st) matches Some(c) && is_ascii_digit(c),
    ensures
        is_numeral(scan_number(st).1.text),
{
    let e = Seq::<char>::empty();
    lemma_digits_from_digit(st, e);
    lemma_digit_run(st, e);
    let (st1, int_part) = digit_run(st, e);
    assert(int_part.subrange(0, 0) =~= e);
    assert(int_part.subrange(0, int_part.len() as int) =~= int_part);
    if point_then_digit(st1) {
        lemma_adv(st1);
        let acc = int_part.push('.');
        lemma_digits_from_digit(adv(st1), acc);
        let r = digit_run(adv(st1), acc).1;
        let k = int_part.len() as int;
        assert(r.subrange(0, acc.len() as int) == acc);
        assert(r[k] == r.subrange(0, acc.len() as int)[k]);
        assert(r.subrange(0, k) =~= int_part);
        assert(0 < k < r.len() - 1 && r[k] == '.' && all_digits(r.subrange(0, k))
            && all_digits(r.subrange(k + 1, r.len() as int)));
    }
}

proof fn lemma_keyword_plain(w: Seq<char>)
    ensures
        keyword_kind(w) matches Some(k) ==> plain_kind(k),
{
}

proof fn lemma_handle_indentation(st: LexState)
    requires
        wf_state(st),
    ensures
        ({
            let (st1, t) = handle_indentation(st);
            &&& st1.chars == st.chars
            &&& st.pos <= st1.pos
            &&& st1.at_line_start == st.at_line_start
            &&& st1.eof_emitted == st.eof_emitted
            &&& wf_state(st1)
            &&& t is None ==> st1.indent_stack == st.indent_stack && st1.pending == st.pending
            &&& t matches Some(tk) ==> {
                ||| tk.kind == TokenKind::Indent && st1.indent_stack.len() == st.indent_stack.len() + 1
                    && st1.pending == st.pending
                ||| tk.kind == TokenKind::Dedent && owed_dedents(st1) == owed_dedents(st) - 1
                    && st1.indent_stack.len() < st.indent_stack.len()
            }
        }),
{
    lemma_indent_scan(st, 0);
    let (st1, level) = indent_scan(st, 0);
    if peek(st1) != Some('\n') {
        let current = st1.indent_stack.last();
        assert(level <= 4 * st1.chars.len()) by (nonlinear_arith)
            requires level <= 4 * (st1.pos - st.pos), st1.pos <= st1.chars.len(), st.pos >= 0;
        if level > current {
            let st2 = LexState { indent_stack: st1.indent_stack.push(level), ..st1 };
            assert forall|i: int| 0 <= i < st2.indent_stack.len() implies 0 <= #[trigger] st2.indent_stack[i] <= usize::MAX by {
                if i < st1.indent_stack.len() {
                    assert(st2.indent_stack[i] == st1.indent_stack[i]);
                }
            }
        } else if level < current {
            lemma_pop_deeper(st1.indent_stack, level);
            let (stack, n) = pop_deeper(st1.indent_stack, level);
            let p = st1.pending + dedents(n, st1.line, st.column);
            let st2 = LexState { indent_stack: stack, pending: p.drop_last(), ..st1 };
            assert forall|i: int| 0 <= i < st2.indent_stack.len() implies 0 <= #[trigger] st2.indent_stack[i] <= usize::MAX by {
                assert(st2.indent_stack[i] == st1.indent_stack[i]);
            }
            assert forall|i: int| 0 <= i < st2.pending.len() implies (#[trigger] st2.pending[i]).kind == TokenKind::Dedent by {
                if i < st1.pending.len() {
                    assert(st2.pending[i] == st1.pending[i]);
                } else {
                    assert(st2.pending[i] == p[i]);
                }
            }
            assert(st2.indent_stack[0] == st1.indent_stack[0]);
            assert(p.last().kind == TokenKind::Dedent);
        }
    }
}

proof fn lemma_scan_token(st: LexState)
    requires
        wf_state(st),
    ensures
        ({
            let (st1, t) = scan_token(st);
            &&& st1.chars == st.chars
            &&& st.pos <= st1.pos
            &&& st1.indent_stack == st.indent_stack
            &&& st1.pending == st.pending
            &&& st1.eof_emitted == st.eof_emitted
            &&& wf_state(st1)
            &&& (st1.at_line_start == st.at_line_start || st1.at_line_start)
            &&& t is None ==> st1.at_line_start == st.at_line_start && st1.pos == st.chars.len()
            &&& t matches Some(tk) ==> st1.pos > st.pos && plain_kind(tk.kind) && well_shaped(tk)
        }),
    decreases st.chars.len() - st.pos,
{
    if let Some(c) = peek(st) {
        lemma_adv(st);
        if c == ' ' || c == '\t' {
            lemma_scan_token(adv(st));
        } else if c == '\n' {
        } else if symbol_kind(c) is Some {
        } else if c == '/' {
            let st1 = adv(st);
            if peek(st1) == Some('/') {
                lemma_adv(st1);
                lemma_comment_body(adv(st1), Seq::empty());
            } else {
                lemma_slash_is_no_keyword();
            }
        } else if c == '"' {
            lemma_string_body(adv(st), Seq::empty(), seq!['"']);
        } else if is_ascii_digit(c) {
            lemma_scan_number_shape(st);
            lemma_digit_run(st, Seq::empty());
            let (st1, int_part) = digit_run(st, Seq::empty());
            assert(st1.pos > st.pos) by {
                lemma_adv(st);
                lemma_digit_run(adv(st), seq![c]);
                assert(digit_run(st, Seq::empty()) == digit_run(adv(st), Seq::<char>::empty().push(c)));
            }
            if point_then_digit(st1) {
                lemma_adv(st1);
                lemma_digit_run(adv(st1), int_part.push('.'));
                let st2 = digit_run(adv(st1), int_part.push('.')).0;
                lemma_adv(st2);
            } else {
                lemma_adv(st1);
            }
        } else if unicode_alphabetic(c) || c == '_' {
            lemma_ident_run(adv(st), seq![c]);
            lemma_keyword_plain(ident_run(adv(st), seq![c]).1);
        } else {
            lemma_scan_token(adv(st));
        }
    }
}

proof fn lemma_next_token(st: LexState)
    requires
        wf_state(st),
    ensures
        ({
            let (st1, t) = next_token(st);
            &&& st1.chars == st.chars
            &&& st.pos <= st1.pos
            &&& st1.eof_emitted == st.eof_emitted
            &&& wf_state(st1)
            &&& t is None ==> st1.pending.len() == 0 && st.pending.len() == 0
                && st1.indent_stack == st.indent_stack && !st1.at_line_start
            &&& t matches Some(tk) ==> {
                &&& lex_measure(st1) < lex_measure(st)
                &&& well_shaped(tk)
                &&& tk.kind != TokenKind::Eof
                &&& tk.kind == TokenKind::Indent ==> owed_dedents(st1) == owed_dedents(st) + 1
                &&& tk.kind == TokenKind::Dedent ==> owed_dedents(st1) == owed_dedents(st) - 1
                &&& plain_kind(tk.kind) ==> owed_dedents(st1) == owed_dedents(st)
            }
        }),
{
    if st.pending.len() > 0 {
        let st1 = LexState { pending: st.pending.drop_last(), ..st };
        assert forall|i: int| 0 <= i < st1.pending.len() implies (#[trigger] st1.pending[i]).kind == TokenKind::Dedent by {
            assert(st1.pending[i] == st.pending[i]);
        }
        assert(st.pending.last().kind == TokenKind::Dedent);
    } else if st.at_line_start {
        let st0 = LexState { at_line_start: false, ..st };
        lemma_handle_indentation(st0);
        let (st1, t) = handle_indentation(st0);
        if t is None {
            lemma_scan_token(st1);
        }
    } else {
        lemma_scan_token(st);
    }
}

/// One step of the lexer keeps it in a state it can be in, and a step that
/// gives a token lowers the measure.
pub proof fn lemma_lex_step(st: LexState)
    requires
        wf_state(st),
    ensures
        ({
            let (st1, t) = lex_step(st);
            &&& wf_state(st1)
            &&& st1.chars == st.chars
            &&& t is None <==> st.eof_emitted
            &&& st.eof_emitted ==> st1 == st
            &&& t matches Some(tk) ==> {
                &&& lex_measure(st1) < lex_measure(st)
                &&& 0 <= lex_measure(st1)
                &&& well_shaped(tk)
                &&& (tk.kind == TokenKind::Eof <==> st1.eof_emitted)
                &&& tk.kind == TokenKind::Eof ==> owed_dedents(st) == 0 && owed_dedents(st1) == 0
                &&& tk.kind == TokenKind::Indent ==> owed_dedents(st1) == owed_dedents(st) + 1
                &&& tk.kind == TokenKind::Dedent ==> owed_dedents(st1) == owed_dedents(st) - 1
                &&& plain_kind(tk.kind) ==> owed_dedents(st1) == owed_dedents(st)
            }
        }),
{
    if !st.eof_emitted {
        lemma_next_token(st);
        let (st1, t) = next_token(st);
        if t is None {
            if st1.indent_stack.len() > 1 {
                let st2 = LexState { indent_stack: st1.indent_stack.drop_last(), ..st1 };
                assert forall|i: int| 0 <= i < st2.indent_stack.len() implies 0 <= #[trigger] st2.indent_stack[i] <= usize::MAX by {
                    assert(st2.indent_stack[i] == st1.indent_stack[i]);
                }
            }
        }
    }
}

#[via_fn]
proof fn lex_all_decreases(st: LexState) {
    lemma_lex_step(st);
}

/// The tokens the lexer gives from state `st` on, in order.
pub open spec fn lex_all(st: LexState) -> Seq<SpecToken>
    decreases lex_measure(st),
    when wf_state(st)
    via lex_all_decreases
{
    let (st1, t) = lex_step(st);
    match t {
        Some(tk) => seq![tk] + lex_all(st1),
        None => Seq::empty(),
    }
}

/// The token an optional token stands for.
pub open spec fn opt_view(t: Option<Token>) -> Option<SpecToken> {
    match t {
        Some(t) => Some(t@),
        None => None,
    }
}

/// Lexer for alescript source code.  Produces a stream of tokens, one per
/// call of `next`, ending with a single EOF token.
pub struct Lexer {
    chars: Vec<char>,
    pos: usize,
    current_line: usize,
    current_column: usize,
    indent_stack: Vec<usize>,
    pending_tokens: Vec<Token>,
    at_line_start: bool,
    eof_emitted: bool,
}

impl View for Lexer {
    type V = LexState;

    closed spec fn view(&self) -> LexState {
        LexState {
            chars: self.chars@,
            pos: self.pos as int,
            line: self.current_line as int,
            column: self.current_column as int,
            indent_stack: self.indent_stack@.map_values(|l: usize| l as int),
            pending: self.pending_tokens@.map_values(|t: Token| t@),
            at_line_start: self.at_line_start,
            eof_emitted: self.eof_emitted,
        }
    }
}

fn single(c: char) -> (s: String)
    ensures
        s@ == seq![c],
{
    let mut s = String::new();
    push_char(&mut s, c);
    s
}

fn symbol_type(c: char) -> (r: Option<TokenType>)
    ensures
        match symbol_kind(c) {
            Some(k) => r matches Some(t) && t@ == (k, Seq::<char>::empty()),
            None => r is None,
        },
{
    if c == '.' {
        Some(TokenType::Period)
    } else if c == ':' {
        Some(TokenType::Colon)
    } else if c == ',' {
        Some(TokenType::Comma)
    } else if c == '(' {
        Some(TokenType::LeftParen)
    } else if c == ')' {
        Some(TokenType::RightParen)
    } else if c == '[' {
        Some(TokenType::LeftBracket)
    } else if c == ']' {
        Some(TokenType::RightBracket)
    } else if c == '{' {
        Some(TokenType::LeftBrace)
    } else if c == '}' {
        Some(TokenType::RightBrace)
    } else if c == '=' {
        Some(TokenType::Equal)
    } else {
        None
    }
}

fn is_digit(c: char) -> (b: bool)
    ensures
        b == is_ascii_digit(c),
{
    '0' <= c && c <= '9'
}

impl Lexer {
    /// Whether this lexer is in a state it can be in.
    pub closed spec fn wf(&self) -> bool {
        &&& wf_state(self@)
        &&& self.indent_stack@.len() == self@.indent_stack.len()
        &&& self.pending_tokens@.len() == self@.pending.len()
    }

    /// A lexer at the start of `source`.  Sources of more than a quarter of
    /// `usize::MAX` chars are left out, so that no counter overflows.
    pub fn new(source: &str) -> (l: Self)
        requires
            source@.len() * 4 <= usize::MAX,
        ensures
            l.wf(),
            l@ == initial_state(source@),
    {
        let chars = chars_of(source);
        let mut indent_stack: Vec<usize> = Vec::new();
        indent_stack.push(0);
        let l = Lexer {
            chars,
            pos: 0,
            current_line: 1,
            current_column: 0,
            indent_stack,
            pending_tokens: Vec::new(),
            at_line_start: true,
            eof_emitted: false,
        };
        assert(l@.indent_stack =~= seq![0int]);
        assert(l@.pending =~= Seq::<SpecToken>::empty());
        l
    }

    /// Peek at the next character without consuming it
    fn peek(&self) -> (r: Option<char>)
        requires
            self.wf(),
        ensures
            r == peek(self@),
    {
        if self.pos < self.chars.len() {
            Some(self.chars[self.pos])
        } else {
            None
        }
    }

    /// Advance to the next character
    fn advance(&mut self) -> (r: Option<char>)
        requires
            old(self).wf(),
        ensures
            final(self).wf(),
            final(self)@ == adv(old(self)@),
            r == peek(old(self)@),
    {
        if self.pos < self.chars.len() {
            let ch = self.chars[self.pos];
            self.pos = self.pos + 1;
            if ch == '\n' {
                self.current_line = self.current_line + 1;
                self.current_column = 0;
            } else {
                self.current_column = self.current_column + 1;
            }
            assert(self@.indent_stack =~= old(self)@.indent_stack);
            assert(self@.pending =~= old(self)@.pending);
            Some(ch)
        } else {
            None
        }
    }
}

impl Lexer {
    /// Whether the next char continues an identifier.
    fn at_ident_char(&self) -> (b: bool)
        requires
            self.wf(),
        ensures
            b == (peek(self@) matches Some(c) && (unicode_alphanumeric(c) || c == '_')),
            (peek(self@) matches Some(c) && unicode_alphabetic(c)) ==> b,
    {
        match self.peek() {
            Some(c) => is_alphanumeric(c) || c == '_',
            None => false,
        }
    }

    /// Scan an identifier or keyword
    fn scan_identifier(&mut self) -> (t: Token)
        requires
            old(self).wf(),
            peek(old(self)@) matches Some(c) && (unicode_alphabetic(c) || c == '_'),
        ensures
            final(self).wf(),
            (final(self)@, t@) == scan_identifier(old(self)@),
    {
        let ghost st0 = self@;
        let ghost c0 = st0.chars[st0.pos];
        let start_line = self.current_line;
        let start_column = self.current_column;
        let mut lexeme: Vec<char> = Vec::new();
        while self.at_ident_char()
            invariant
                self.wf(),
                lexeme@.len() == 0 ==> self@ == st0,
                lexeme@.len() > 0 ==> ident_run(self@, lexeme@) == ident_run(adv(st0), seq![c0]),
                peek(st0) == Some(c0),
                unicode_alphabetic(c0) || c0 == '_',
            decreases self@.chars.len() - self@.pos,
        {
            match self.advance() {
                Some(ch) => {
                    if lexeme.len() == 0 {
                        assert(lexeme@.push(ch) =~= seq![c0]);
                    }
                    lexeme.push(ch);
                },
                None => {},
            }
        }
        let token_type = match keyword_of_chars(&lexeme) {
            Some(t) => t,
            None => TokenType::Identifier(string_of(&lexeme)),
        };
        Token::new(token_type, string_of(&lexeme), start_line, start_column)
    }

    /// Whether the next char is an ASCII digit.
    fn at_digit(&self) -> (b: bool)
        requires
            self.wf(),
        ensures
            b == (peek(self@) matches Some(c) && is_ascii_digit(c)),
    {
        match self.peek() {
            Some(c) => is_digit(c),
            None => false,
        }
    }

    /// Reads a run of digits onto `lexeme`.
    fn scan_digits(&mut self, lexeme: &mut Vec<char>)
        requires
            old(self).wf(),
        ensures
            final(self).wf(),
            (final(self)@, final(lexeme)@) == digit_run(old(self)@, old(lexeme)@),
    {
        while self.at_digit()
            invariant
                self.wf(),
                digit_run(self@, lexeme@) == digit_run(old(self)@, old(lexeme)@),
            decreases self@.chars.len() - self@.pos,
        {
            match self.advance() {
                Some(ch) => lexeme.push(ch),
                None => {},
            }
        }
    }

    /// Scan a number (integer or float) or percentage
    fn scan_number(&mut self) -> (t: Token)
        requires
            old(self).wf(),
        ensures
            final(self).wf(),
            (final(self)@, t@) == scan_number(old(self)@),
    {
        let start_line = self.current_line;
        let start_column = self.current_column;
        let mut lexeme: Vec<char> = Vec::new();
        self.scan_digits(&mut lexeme);
        if matches!(self.peek(), Some('.')) && self.pos + 1 < self.chars.len() && is_digit(self.chars[self.pos + 1]) {
            lexeme.push('.');
            self.advance();
            self.scan_digits(&mut lexeme);
        }
        if matches!(self.peek(), Some('%')) {
            self.advance();
            let text = string_of(&lexeme);
            lexeme.push('%');
            Token::new(TokenType::Percentage(text), string_of(&lexeme), start_line, start_column)
        } else {
            Token::new(TokenType::Number(string_of(&lexeme)), string_of(&lexeme), start_line, start_column)
        }
    }

    /// Scan a string literal
    fn scan_string(&mut self) -> (t: Token)
        requires
            old(self).wf(),
        ensures
            final(self).wf(),
            (final(self)@, t@) == scan_string(old(self)@),
    {
        let start_line = self.current_line;
        let start_column = self.current_column;
        self.advance();
        let ghost target = string_body(self@, Seq::empty(), seq!['"']);
        let mut value = String::new();
        let mut lexeme = single('"');
        loop
            invariant_except_break
                string_body(self@, value@, lexeme@) == target,
            invariant
                self.wf(),
            ensures
                (self@, value@, lexeme@) == target,
            decreases self@.chars.len() - self@.pos,
        {
            match self.peek() {
                None => break,
                Some(ch) => {
                    if ch == '"' {
                        self.advance();
                        push_char(&mut lexeme, '"');
                        break;
                    } else if ch == '\\' {
                        self.advance();
                        push_char(&mut lexeme, '\\');
                        match self.advance() {
                            Some(escaped) => {
                                let ghost v0 = value@;
                                push_char(&mut lexeme, escaped);
                                if escaped == 'n' {
                                    push_char(&mut value, '\n');
                                } else if escaped == 't' {
                                    push_char(&mut value, '\t');
                                } else if escaped == 'r' {
                                    push_char(&mut value, '\r');
                                } else if escaped == '\\' {
                                    push_char(&mut value, '\\');
                                } else if escaped == '"' {
                                    push_char(&mut value, '"');
                                } else {
                                    push_char(&mut value, '\\');
                                    push_char(&mut value, escaped);
                                }
                                assert(value@ =~= v0 + escape_value(escaped));
                            },
                            None => {
                                break;
                            },
                        }
                    } else {
                        push_char(&mut value, ch);
                        push_char(&mut lexeme, ch);
                        self.advance();
                    }
                },
            }
        }
        Token::new(TokenType::String(value), lexeme, start_line, start_column)
    }
}

impl Lexer {
    /// Whether the next char continues a comment.
    fn at_comment_char(&self) -> (b: bool)
        requires
            self.wf(),
        ensures
            b == (peek(self@) matches Some(c) && c != '\n'),
    {
        match self.peek() {
            Some(c) => c != '\n',
            None => false,
        }
    }

    /// Scans the text of a comment, its `//` (begun at `start_line` and
    /// `start_column`) having been read.
    fn scan_comment(&mut self, start_line: usize, start_column: usize) -> (t: Token)
        requires
            old(self).wf(),
        ensures
            final(self).wf(),
            (final(self)@, t@) == comment_token(old(self)@, start_line as int, start_column as int),
    {
        let ghost st1 = self@;
        let mut comment = String::new();
        while self.at_comment_char()
            invariant
                self.wf(),
                comment_body(self@, comment@) == comment_body(st1, Seq::empty()),
            decreases self@.chars.len() - self@.pos,
        {
            match self.advance() {
                Some(ch) => push_char(&mut comment, ch),
                None => {},
            }
        }
        let mut lexeme = single('/');
        push_char(&mut lexeme, '/');
        lexeme.append(comment.as_str());
        assert(lexeme@ =~= seq!['/', '/'] + comment@);
        Token::new(TokenType::Comment(trim_string(&comment)), lexeme, start_line, start_column)
    }

    /// Whether the next char is a space or a tab.
    fn at_indent_char(&self) -> (b: bool)
        requires
            self.wf(),
        ensures
            b == is_space_or_tab(peek(self@)),
    {
        match self.peek() {
            Some(c) => c == ' ' || c == '\t',
            None => false,
        }
    }

    /// Handle indentation at the start of a line
    fn handle_indentation(&mut self) -> (r: Option<Token>)
        requires
            old(self).wf(),
        ensures
            final(self).wf(),
            (final(self)@, opt_view(r)) == handle_indentation(old(self)@),
    {
        let ghost st0 = self@;
        let mut indent_level: usize = 0;
        let start_column = self.current_column;
        while self.at_indent_char()
            invariant
                self.wf(),
                indent_scan(self@, indent_level as int) == indent_scan(st0, 0),
                0 <= st0.pos <= self@.pos,
                indent_level <= 4 * (self@.pos - st0.pos),
                self@.chars == st0.chars,
            decreases self@.chars.len() - self@.pos,
        {
            let ghost p0 = self@.pos;
            match self.advance() {
                Some(ch) => {
                    assert(self@.pos == p0 + 1);
                    assert(self@.chars.len() * 4 <= usize::MAX);
                    assert(4 * (self@.pos - st0.pos) <= 4 * self@.chars.len()) by (nonlinear_arith)
                        requires self@.pos - st0.pos <= self@.chars.len(), st0.pos >= 0;
                    if ch == ' ' {
                        indent_level += 1;
                    } else {
                        indent_level += 4;
                    }
                },
                None => {},
            }
        }
        let ghost st1 = self@;
        assert(self.indent_stack@.len() == self@.indent_stack.len());
        if matches!(self.peek(), Some('\n')) {
            return None;
        }
        let current_indent = self.indent_stack[self.indent_stack.len() - 1];
        if indent_level > current_indent {
            self.indent_stack.push(indent_level);
            assert(self@.indent_stack =~= st1.indent_stack.push(indent_level as int));
            Some(Token::new(TokenType::Indent, repeat_space(indent_level), self.current_line, start_column))
        } else if indent_level < current_indent {
            let mut dedent_count: usize = 0;
            while self.indent_stack[self.indent_stack.len() - 1] > indent_level
                invariant
                    self.wf(),
                    self@.pos == st1.pos,
                    self@.line == st1.line,
                    self@.pending == st1.pending,
                    self@.chars == st1.chars,
                    self@.column == st1.column,
                    self@.at_line_start == st1.at_line_start,
                    self@.eof_emitted == st1.eof_emitted,
                    dedent_count <= st1.indent_stack.len(),
                    st1.indent_stack.len() <= usize::MAX,
                    pop_deeper(st1.indent_stack, indent_level as int).0
                        == pop_deeper(self@.indent_stack, indent_level as int).0,
                    pop_deeper(st1.indent_stack, indent_level as int).1
                        == pop_deeper(self@.indent_stack, indent_level as int).1 + dedent_count,
                    self@.indent_stack.len() + dedent_count == st1.indent_stack.len(),
                decreases self.indent_stack.len(),
            {
                let ghost before = self@.indent_stack;
                assert(self.indent_stack@.len() == self@.indent_stack.len());
                self.indent_stack.pop();
                dedent_count += 1;
                assert(self@.indent_stack =~= before.drop_last());
            }
            let ghost stack = self@.indent_stack;
            let mut i: usize = 0;
            while i < dedent_count
                invariant
                    i <= dedent_count,
                    self.wf(),
                    self@.pos == st1.pos,
                    self@.line == st1.line,
                    self@.chars == st1.chars,
                    self@.column == st1.column,
                    self@.at_line_start == st1.at_line_start,
                    self@.eof_emitted == st1.eof_emitted,
                    self@.indent_stack == stack,
                    self@.pending == st1.pending + dedents(i as nat, st1.line, start_column as int),
                    dedent_count <= st1.indent_stack.len(),
                decreases dedent_count - i,
            {
                let ghost before = self@.pending;
                let t = Token::new(TokenType::Dedent, String::new(), self.current_line, start_column);
                let ghost tv = t@;
                self.pending_tokens.push(t);
                assert(self@.pending =~= before.push(tv));
                assert(dedents((i + 1) as nat, st1.line, start_column as int)
                    =~= dedents(i as nat, st1.line, start_column as int).push(tv));
                i += 1;
                assert(self@.pending =~= st1.pending + dedents(i as nat, st1.line, start_column as int));
            }
            let ghost p = self@.pending;
            let r = self.pending_tokens.pop();
            assert(self@.pending =~= p.drop_last());
            r
        } else {
            None
        }
    }
}

impl Lexer {
    /// Skip whitespace (spaces and tabs), but not newlines
    fn skip_whitespace(&mut self)
        requires
            old(self).wf(),
        ensures
            final(self).wf(),
            scan_token(final(self)@) == scan_token(old(self)@),
            !is_space_or_tab(peek(final(self)@)),
            final(self)@.chars == old(self)@.chars,
            final(self)@.pos >= old(self)@.pos,
    {
        while self.at_indent_char()
            invariant
                self.wf(),
                scan_token(self@) == scan_token(old(self)@),
                self@.chars == old(self)@.chars,
                self@.pos >= old(self)@.pos,
            decreases self@.chars.len() - self@.pos,
        {
            self.advance();
        }
    }

    /// Scans the next token, dropping chars that start none.
    fn scan_token(&mut self) -> (r: Option<Token>)
        requires
            old(self).wf(),
        ensures
            final(self).wf(),
            (final(self)@, opt_view(r)) == scan_token(old(self)@),
    {
        loop
            invariant
                self.wf(),
                scan_token(self@) == scan_token(old(self)@),
                self@.chars == old(self)@.chars,
            decreases self@.chars.len() - self@.pos,
        {
            self.skip_whitespace();
            let ch = match self.peek() {
                Some(c) => c,
                None => return None,
            };
            let line = self.current_line;
            let column = self.current_column;
            if ch == '\n' {
                self.advance();
                self.at_line_start = true;
                return Some(Token::new(TokenType::Newline, single('\n'), line, column));
            }
            match symbol_type(ch) {
                Some(t) => {
                    self.advance();
                    return Some(Token::new(t, single(ch), line, column));
                },
                None => {},
            }
            if ch == '/' {
                self.advance();
                if matches!(self.peek(), Some('/')) {
                    self.advance();
                    return Some(self.scan_comment(line, column));
                } else {
                    return Some(Token::new(TokenType::Identifier(single('/')), single('/'), line, column));
                }
            } else if ch == '"' {
                return Some(self.scan_string());
            } else if is_digit(ch) {
                return Some(self.scan_number());
            } else if is_alphabetic(ch) || ch == '_' {
                return Some(self.scan_identifier());
            } else {
                // Unknown character, skip it
                self.advance();
            }
        }
    }

    /// Get the next token from the source
    fn next_token(&mut self) -> (r: Option<Token>)
        requires
            old(self).wf(),
        ensures
            final(self).wf(),
            (final(self)@, opt_view(r)) == next_token(old(self)@),
    {
        // Return pending tokens first (e.g., DEDENT)
        let ghost p = self@.pending;
        assert(self.pending_tokens@.len() == self@.pending.len());
        if let Some(token) = self.pending_tokens.pop() {
            assert(self@.pending =~= p.drop_last());
            return Some(token);
        }
        // Handle indentation at line start
        if self.at_line_start {
            self.at_line_start = false;
            if let Some(token) = self.handle_indentation() {
                return Some(token);
            }
        }
        self.scan_token()
    }

    /// The next token of the source: the tokens of the source in order, then
    /// one DEDENT for each indentation level still open, then EOF, then none.
    pub fn next(&mut self) -> (r: Option<Token>)
        requires
            old(self).wf(),
        ensures
            final(self).wf(),
            (final(self)@, opt_view(r)) == lex_step(old(self)@),
    {
        // If EOF was already emitted, return None
        if self.eof_emitted {
            return None;
        }
        let token = self.next_token();
        proof {
            lemma_next_token(old(self)@);
        }
        assert(self.indent_stack@.len() == self@.indent_stack.len());
        // If we've reached the end, emit DEDENT tokens for remaining indentation
        if token.is_none() && self.indent_stack.len() > 1 {
            let ghost before = self@.indent_stack;
            self.indent_stack.pop();
            assert(self@.indent_stack =~= before.drop_last());
            return Some(Token::new(TokenType::Dedent, String::new(), self.current_line, self.current_column));
        }
        // Emit EOF at the very end
        if token.is_none() && self.indent_stack.len() == 1 && !self.eof_emitted {
            self.eof_emitted = true;
            return Some(Token::new(TokenType::Eof, String::new(), self.current_line, self.current_column));
        }
        token
    }
}

impl Lexer {
    /// All tokens of the source, in order, ending with EOF.
    pub fn collect(self) -> (tokens: Vec<Token>)
        requires
            self.wf(),
        ensures
            tokens@.map_values(|t: Token| t@) == lex_all(self@),
    {
        let mut lexer = self;
        let ghost st0 = lexer@;
        let mut tokens: Vec<Token> = Vec::new();
        loop
            invariant
                lexer.wf(),
                tokens@.map_values(|t: Token| t@) + lex_all(lexer@) == lex_all(st0),
            ensures
                tokens@.map_values(|t: Token| t@) == lex_all(st0),
            decreases lex_measure(lexer@),
        {
            let ghost before = lexer@;
            let ghost seen = tokens@.map_values(|t: Token| t@);
            proof {
                lemma_lex_step(before);
            }
            match lexer.next() {
                Some(t) => {
                    let ghost tv = t@;
                    tokens.push(t);
                    assert(tokens@.map_values(|t: Token| t@) =~= seen.push(tv));
                    assert(lex_all(before) == seq![tv] + lex_all(lexer@));
                    assert(seen.push(tv) + lex_all(lexer@) =~= seen + (seq![tv] + lex_all(lexer@)));
                },
                None => {
                    assert(lex_all(before) == Seq::<SpecToken>::empty());
                    assert(seen + lex_all(before) =~= seen);
                    break;
                },
            }
        }
        tokens
    }
}

/// How many tokens of kind `k` the sequence holds.
pub open spec fn count_kind(ts: Seq<SpecToken>, k: TokenKind) -> nat
    decreases ts.len(),
{
    if ts.len() == 0 {
        0
    } else {
        count_kind(ts.drop_first(), k) + if ts[0].kind == k { 1nat } else { 0 }
    }
}

/// The tokens from a state not yet at its end: at least one, the last an
/// EOF and no other an EOF, and the DEDENTs outnumber the INDENTs by the
/// DEDENTs still owed.
proof fn lemma_lex_all_shape(st: LexState)
    requires
        wf_state(st),
        !st.eof_emitted,
    ensures
        lex_all(st).len() >= 1,
        lex_all(st).last().kind == TokenKind::Eof,
        forall|i: int| 0 <= i < lex_all(st).len() - 1 ==> (#[trigger] lex_all(st)[i]).kind != TokenKind::Eof,
        forall|i: int| 0 <= i < lex_all(st).len() ==> well_shaped(#[trigger] lex_all(st)[i]),
        count_kind(lex_all(st), TokenKind::Dedent) == count_kind(lex_all(st), TokenKind::Indent)
            + owed_dedents(st),
    decreases lex_measure(st),
{
    lemma_lex_step(st);
    let (st1, t) = lex_step(st);
    let tk = t->0;
    let rest = lex_all(st1);
    let all = seq![tk] + rest;
    assert(lex_all(st) == all);
    assert(all.drop_first() =~= rest);
    if st1.eof_emitted {
        lemma_lex_step(st1);
        assert(rest == Seq::<SpecToken>::empty());
        assert(count_kind(rest, TokenKind::Dedent) == 0);
        assert(count_kind(rest, TokenKind::Indent) == 0);
    } else {
        lemma_lex_all_shape(st1);
        assert forall|i: int| 0 <= i < all.len() - 1 implies (#[trigger] all[i]).kind != TokenKind::Eof by {
            if i > 0 {
                assert(all[i] == rest[i - 1]);
            }
        }
        assert forall|i: int| 0 <= i < all.len() implies well_shaped(#[trigger] all[i]) by {
            if i > 0 {
                assert(all[i] == rest[i - 1]);
            }
        }
    }
}

/// The token stream of every source ends with exactly one EOF: the stream is
/// not empty, its last token is an EOF, and no other token is.
pub proof fn law_single_eof_at_end(chars: Seq<char>)
    requires
        chars.len() * 4 <= usize::MAX,
    ensures
        lex_all(initial_state(chars)).len() >= 1,
        lex_all(initial_state(chars)).last().kind == TokenKind::Eof,
        forall|i: int| 0 <= i < lex_all(initial_state(chars)).len() - 1
            ==> (#[trigger] lex_all(initial_state(chars))[i]).kind != TokenKind::Eof,
{
    lemma_lex_all_shape(initial_state(chars));
}

/// Every token of the stream of every source is well shaped: an identifier
/// has a name, and no keyword is one; a number or percentage holds a decimal
/// numeral (digits, optionally a point and more digits).
pub proof fn law_tokens_well_shaped(chars: Seq<char>)
    requires
        chars.len() * 4 <= usize::MAX,
    ensures
        forall|i: int| 0 <= i < lex_all(initial_state(chars)).len()
            ==> well_shaped(#[trigger] lex_all(initial_state(chars))[i]),
{
    lemma_lex_all_shape(initial_state(chars));
}

/// Indentation is balanced: the token stream of every source holds as many
/// DEDENT tokens as INDENT tokens.
pub proof fn law_indents_balanced(chars: Seq<char>)
    requires
        chars.len() * 4 <= usize::MAX,
    ensures
        count_kind(lex_all(initial_state(chars)), TokenKind::Dedent)
            == count_kind(lex_all(initial_state(chars)), TokenKind::Indent),
{
    lemma_lex_all_shape(initial_state(chars));
}

} // verus!
