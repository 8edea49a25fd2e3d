//! Parser for alescript: turns the token stream into a program.
//!
//! The grammar is given by the spec functions `parse_*` over the tokens as
//! the specifications see them (`SpecToken`) and a position; each returns
//! what it read and the position after it, or the error the parser reports.
//! A few of them make sure that a sub-parse moved forward before going on;
//! that test never fails (every parser that succeeds consumes a token), and is
//! there so that the definitions visibly terminate.
use vstd::prelude::*;
use crate::ast::{
    exprs_view, ingredients_view, lemma_exprs_view_push, lemma_stmts_view_push, stmts_view,
    strings_view, Condition, Expression, Ingredient, IngredientType, LoopCondition, Program,
    SpecCondition, SpecExpression, SpecIngredient, SpecLoopCondition, SpecProgram, SpecStatement,
    Statement,
};
use crate::lexer::{initial_state, lex_all, Lexer};
use crate::numeral::{reads_zero, reads_zero_exec};
use crate::text::{decimal, push_char, push_decimal, push_str, string_eq_str};
use crate::token::{kind_name, kind_name_str, token_debug_text, SpecToken, Token, TokenKind, TokenType};

verus! {

/// A parse error as the specifications see it.
pub struct SpecParseError {
    pub message: Seq<char>,
    pub line: int,
    pub column: int,
}

/// What a parser gives: the value read and the position after it, or an
/// error.
pub type Parsed<T> = Result<(T, int), SpecParseError>;

/// Whether there is a token at position `i`.
pub open spec fn present(ts: Seq<SpecToken>, i: int) -> bool {
    0 <= i < ts.len()
}

/// Whether the token at position `i` is of kind `k`.
pub open spec fn at(ts: Seq<SpecToken>, i: int, k: TokenKind) -> bool {
    present(ts, i) && ts[i].kind == k
}

/// The error when the tokens run out.
pub open spec fn end_of_input() -> SpecParseError {
    SpecParseError { message: "Unexpected end of input"@, line: 0, column: 0 }
}

/// An error reported at a token.
pub open spec fn error_at(message: Seq<char>, t: SpecToken) -> SpecParseError {
    SpecParseError { message, line: t.line, column: t.column }
}

/// The tokens left from position `i` on; a measure for the parsers.
pub open spec fn remaining(ts: Seq<SpecToken>, i: int) -> nat {
    if i < ts.len() {
        (ts.len() - i) as nat
    } else {
        0
    }
}

/// Position `j` is further on than position `i`, with fewer tokens left.
pub open spec fn progressed(ts: Seq<SpecToken>, i: int, j: int) -> bool {
    remaining(ts, j) < remaining(ts, i)
}

/// How many NEWLINE and COMMENT tokens follow from position `i`.
pub open spec fn ws_run(ts: Seq<SpecToken>, i: int) -> nat
    decreases remaining(ts, i),
{
    if present(ts, i) && (ts[i].kind == TokenKind::Newline || ts[i].kind == TokenKind::Comment) {
        1 + ws_run(ts, i + 1)
    } else {
        0
    }
}

/// The position after the NEWLINE and COMMENT tokens from `i` on.
pub open spec fn skip_ws(ts: Seq<SpecToken>, i: int) -> int {
    i + ws_run(ts, i)
}

/// The position after one token (or `i` itself at the end).
pub open spec fn step(ts: Seq<SpecToken>, i: int) -> int {
    if present(ts, i) {
        i + 1
    } else {
        i
    }
}

/// A token of kind `k` at `i`, and the position after it.
pub open spec fn expect(ts: Seq<SpecToken>, i: int, k: TokenKind) -> Result<int, SpecParseError> {
    if !present(ts, i) {
        Err(end_of_input())
    } else if ts[i].kind == k {
        Ok(i + 1)
    } else {
        Err(error_at("Expected "@ + kind_name(k) + ", got "@ + token_debug_text(ts[i].kind, ts[i].text), ts[i]))
    }
}

/// An identifier at `i` (its name), or the error `message`.
pub open spec fn ident(ts: Seq<SpecToken>, i: int, message: Seq<char>) -> Parsed<Seq<char>> {
    if !present(ts, i) {
        Err(end_of_input())
    } else if ts[i].kind == TokenKind::Identifier {
        Ok((ts[i].text, i + 1))
    } else {
        Err(error_at(message, ts[i]))
    }
}

/// A name that may also be the word `brew`: an identifier, or `brew` read as
/// the name "brew".  Only the variable of a `for each` loop and the brew that
/// `taste` names are read this way, as in `for each brew in taplist:` with
/// `taste brew.` in its body.
pub open spec fn name_word(ts: Seq<SpecToken>, i: int, message: Seq<char>) -> Parsed<Seq<char>> {
    if present(ts, i) && ts[i].kind == TokenKind::Brew {
        Ok(("brew"@, i + 1))
    } else {
        ident(ts, i, message)
    }
}

// ---- expressions ----

/// expression := NUMBER | STRING | IDENT | IDENT '(' args ')' | IDENT 'position' expression
pub open spec fn parse_expression(ts: Seq<SpecToken>, i: int) -> Parsed<SpecExpression>
    decreases remaining(ts, i), 0nat,
{
    if !present(ts, i) {
        Err(end_of_input())
    } else {
        let t = ts[i];
        if t.kind == TokenKind::Number {
            Ok((SpecExpression::Number(t.text), i + 1))
        } else if t.kind == TokenKind::String {
            Ok((SpecExpression::String(t.text), i + 1))
        } else if t.kind == TokenKind::Identifier {
            let j = i + 1;
            if at(ts, j, TokenKind::LeftParen) {
                match parse_args(ts, j + 1) {
                    Ok((args, k)) => match expect(ts, k, TokenKind::RightParen) {
                        Ok(k2) => Ok((SpecExpression::FunctionCall { name: t.text, args }, k2)),
                        Err(e) => Err(e),
                    },
                    Err(e) => Err(e),
                }
            } else if at(ts, j, TokenKind::Position) {
                match parse_expression(ts, j + 1) {
                    Ok((index, k)) => Ok((SpecExpression::BarrelAccess { barrel_name: t.text, index: Box::new(index) }, k)),
                    Err(e) => Err(e),
                }
            } else {
                Ok((SpecExpression::Identifier(t.text), j))
            }
        } else {
            Err(error_at("Unexpected token in expression: "@ + token_debug_text(t.kind, t.text), t))
        }
    }
}

/// args := (nothing, before ')') | expression (',' expression)*
pub open spec fn parse_args(ts: Seq<SpecToken>, i: int) -> Parsed<Seq<SpecExpression>>
    decreases remaining(ts, i), 2nat,
{
    if at(ts, i, TokenKind::RightParen) {
        Ok((Seq::empty(), i))
    } else {
        expression_list(ts, i, Seq::empty())
    }
}

/// One or more expressions separated by commas, after those in `acc`.
pub open spec fn expression_list(ts: Seq<SpecToken>, i: int, acc: Seq<SpecExpression>) -> Parsed<Seq<SpecExpression>>
    decreases remaining(ts, i), 1nat,
{
    match parse_expression(ts, i) {
        Ok((e, j)) => if !progressed(ts, i, j) {
            Err(end_of_input())
        } else if at(ts, j, TokenKind::Comma) {
            expression_list(ts, j + 1, acc.push(e))
        } else {
            Ok((acc.push(e), j))
        },
        Err(e) => Err(e),
    }
}

// ---- conditions ----

/// A number or a percentage: its numeral.
pub open spec fn parse_number_or_percentage(ts: Seq<SpecToken>, i: int) -> Parsed<Seq<char>> {
    if !present(ts, i) {
        Err(end_of_input())
    } else if ts[i].kind == TokenKind::Number || ts[i].kind == TokenKind::Percentage {
        Ok((ts[i].text, i + 1))
    } else {
        Err(error_at("Expected number or percentage"@, ts[i]))
    }
}

/// condition := IDENT 'is' ['not'] ( ('stronger' | 'weaker') 'than' NUMBER
///            | NUMBER | PERCENTAGE ), a number that reads as the `f64` zero
///            (see `reads_zero`) giving the zero tests and any other number
///            or percentage an equality
pub open spec fn parse_condition(ts: Seq<SpecToken>, i: int) -> Parsed<SpecCondition> {
    match ident(ts, i, "Expected identifier in condition"@) {
        Ok((name, j)) => match expect(ts, j, TokenKind::Is) {
            Ok(j2) => {
                let negated = at(ts, j2, TokenKind::Not);
                condition_tail(ts, if negated { j2 + 1 } else { j2 }, name, negated)
            },
            Err(e) => Err(e),
        },
        Err(e) => Err(e),
    }
}

/// The comparison of a condition, after `name is [not]`.
pub open spec fn condition_tail(ts: Seq<SpecToken>, i: int, name: Seq<char>, negated: bool) -> Parsed<SpecCondition> {
    if !present(ts, i) {
        Err(end_of_input())
    } else {
        let t = ts[i];
        if t.kind == TokenKind::Stronger || t.kind == TokenKind::Weaker {
            match expect(ts, i + 1, TokenKind::Than) {
                Ok(j) => match parse_number_or_percentage(ts, j) {
                    Ok((threshold, k)) => Ok((
                        if t.kind == TokenKind::Stronger {
                            if negated {
                                SpecCondition::NotStrongerThan { brew_name: name, threshold }
                            } else {
                                SpecCondition::StrongerThan { brew_name: name, threshold }
                            }
                        } else {
                            if negated {
                                SpecCondition::NotWeakerThan { brew_name: name, threshold }
                            } else {
                                SpecCondition::WeakerThan { brew_name: name, threshold }
                            }
                        },
                        k,
                    )),
                    Err(e) => Err(e),
                },
                Err(e) => Err(e),
            }
        } else if t.kind == TokenKind::Number && reads_zero(t.text) {
            Ok((if negated { SpecCondition::IsNotZero { name } } else { SpecCondition::IsZero { name } }, i + 1))
        } else if t.kind == TokenKind::Number || t.kind == TokenKind::Percentage {
            Ok((
                if negated {
                    SpecCondition::NotEquals { brew_name: name, threshold: t.text }
                } else {
                    SpecCondition::Equals { brew_name: name, threshold: t.text }
                },
                i + 1,
            ))
        } else {
            Err(error_at("Expected 'stronger' or 'weaker'"@, t))
        }
    }
}

// ---- simple statements ----

/// Which ingredient a token names, if any.
pub open spec fn ingredient_of(k: TokenKind) -> Option<IngredientType> {
    if k == TokenKind::Water {
        Some(IngredientType::Water)
    } else if k == TokenKind::Barley {
        Some(IngredientType::Barley)
    } else if k == TokenKind::Hops {
        Some(IngredientType::Hops)
    } else if k == TokenKind::Yeast {
        Some(IngredientType::Yeast)
    } else {
        None
    }
}

/// ingredients := ([NUMBER] INGREDIENT) (',' [NUMBER] INGREDIENT)*, stopping
/// (without error) at the first place where no ingredient follows; a missing
/// quantity is `1`.
pub open spec fn parse_ingredients(ts: Seq<SpecToken>, i: int, acc: Seq<SpecIngredient>) -> Parsed<Seq<SpecIngredient>>
    decreases remaining(ts, i),
{
    if !present(ts, i) {
        Err(end_of_input())
    } else {
        let numbered = ts[i].kind == TokenKind::Number;
        let quantity = if numbered { ts[i].text } else { "1"@ };
        let j = if numbered { i + 1 } else { i };
        if !present(ts, j) {
            Err(end_of_input())
        } else {
            match ingredient_of(ts[j].kind) {
                None => Ok((acc, j)),
                Some(name) => {
                    let acc2 = acc.push(SpecIngredient { name, quantity });
                    if at(ts, j + 1, TokenKind::Comma) {
                        parse_ingredients(ts, j + 2, acc2)
                    } else {
                        Ok((acc2, j + 1))
                    }
                },
            }
        }
    }
}

/// brew := 'brew' IDENT ( '=' expression | 'from' ingredients ) '.'
pub open spec fn parse_brew(ts: Seq<SpecToken>, i: int) -> Parsed<SpecStatement> {
    match expect(ts, i, TokenKind::Brew) {
        Err(e) => Err(e),
        Ok(j) => match ident(ts, j, "Expected brew name"@) {
            Err(e) => Err(e),
            Ok((name, j2)) => if !present(ts, j2) {
                Err(end_of_input())
            } else if ts[j2].kind == TokenKind::Equal {
                match parse_expression(ts, j2 + 1) {
                    Err(e) => Err(e),
                    Ok((value, j3)) => match expect(ts, j3, TokenKind::Period) {
                        Err(e) => Err(e),
                        Ok(j4) => Ok((SpecStatement::Assign { name, value }, j4)),
                    },
                }
            } else {
                match expect(ts, j2, TokenKind::From) {
                    Err(e) => Err(e),
                    Ok(j3) => match parse_ingredients(ts, j3, Seq::empty()) {
                        Err(e) => Err(e),
                        Ok((ingredients, j4)) => match expect(ts, j4, TokenKind::Period) {
                            Err(e) => Err(e),
                            Ok(j5) => Ok((SpecStatement::Brew { name, ingredients }, j5)),
                        },
                    },
                }
            },
        },
    }
}

/// wait := 'wait' 'for' expression ['day' | 'days'] '.'
pub open spec fn parse_wait(ts: Seq<SpecToken>, i: int) -> Parsed<SpecStatement> {
    match expect(ts, i, TokenKind::Wait) {
        Err(e) => Err(e),
        Ok(j) => match expect(ts, j, TokenKind::For) {
            Err(e) => Err(e),
            Ok(j2) => match parse_expression(ts, j2) {
                Err(e) => Err(e),
                Ok((days, j3)) => {
                    let j4 = if at(ts, j3, TokenKind::Day) || at(ts, j3, TokenKind::Days) { j3 + 1 } else { j3 };
                    match expect(ts, j4, TokenKind::Period) {
                        Err(e) => Err(e),
                        Ok(j5) => Ok((SpecStatement::Wait { days }, j5)),
                    }
                },
            },
        },
    }
}

/// age := 'age' IDENT 'until' ['is'] (PERCENTAGE | NUMBER) ['abv'] '.'
pub open spec fn parse_age(ts: Seq<SpecToken>, i: int) -> Parsed<SpecStatement> {
    match expect(ts, i, TokenKind::Age) {
        Err(e) => Err(e),
        Ok(j) => match ident(ts, j, "Expected brew name"@) {
            Err(e) => Err(e),
            Ok((brew_name, j2)) => match expect(ts, j2, TokenKind::Until) {
                Err(e) => Err(e),
                Ok(j3) => {
                    let j4 = if at(ts, j3, TokenKind::Is) { j3 + 1 } else { j3 };
                    if !present(ts, j4) {
                        Err(end_of_input())
                    } else if ts[j4].kind == TokenKind::Percentage || ts[j4].kind == TokenKind::Number {
                        let j5 = if at(ts, j4 + 1, TokenKind::Abv) { j4 + 2 } else { j4 + 1 };
                        match expect(ts, j5, TokenKind::Period) {
                            Err(e) => Err(e),
                            Ok(j6) => Ok((SpecStatement::Age { brew_name, target_abv: ts[j4].text }, j6)),
                        }
                    } else {
                        Err(error_at("Expected percentage or number"@, ts[j4]))
                    }
                },
            },
        },
    }
}

/// keyword name '.', for `taste` (a name as `name_word` reads it) and `keg`
/// (an identifier).
pub open spec fn parse_named(ts: Seq<SpecToken>, i: int, k: TokenKind) -> Parsed<Seq<char>> {
    match expect(ts, i, k) {
        Err(e) => Err(e),
        Ok(j) => match (if k == TokenKind::Taste {
            name_word(ts, j, "Expected brew name"@)
        } else {
            ident(ts, j, "Expected brew name"@)
        }) {
            Err(e) => Err(e),
            Ok((name, j2)) => match expect(ts, j2, TokenKind::Period) {
                Err(e) => Err(e),
                Ok(j3) => Ok((name, j3)),
            },
        },
    }
}

/// taste := 'taste' (IDENT | 'brew') '.'
pub open spec fn parse_taste(ts: Seq<SpecToken>, i: int) -> Parsed<SpecStatement> {
    match parse_named(ts, i, TokenKind::Taste) {
        Err(e) => Err(e),
        Ok((brew_name, j)) => Ok((SpecStatement::Taste { brew_name }, j)),
    }
}

/// keg := 'keg' IDENT '.'
pub open spec fn parse_keg(ts: Seq<SpecToken>, i: int) -> Parsed<SpecStatement> {
    match parse_named(ts, i, TokenKind::Keg) {
        Err(e) => Err(e),
        Ok((brew_name, j)) => Ok((SpecStatement::Keg { brew_name }, j)),
    }
}

/// toast := 'toast' expression '.'
pub open spec fn parse_toast(ts: Seq<SpecToken>, i: int) -> Parsed<SpecStatement> {
    match expect(ts, i, TokenKind::Toast) {
        Err(e) => Err(e),
        Ok(j) => match parse_expression(ts, j) {
            Err(e) => Err(e),
            Ok((value, j2)) => match expect(ts, j2, TokenKind::Period) {
                Err(e) => Err(e),
                Ok(j3) => Ok((SpecStatement::Toast { value }, j3)),
            },
        },
    }
}

/// keyword IDENT joiner IDENT '.', the two names read with the given
/// messages; for `mix .. with ..`, `relabel .. as ..`, `add .. to ..` and
/// `remove .. from ..`.
pub open spec fn parse_pair(
    ts: Seq<SpecToken>,
    i: int,
    k: TokenKind,
    joiner: TokenKind,
    first: Seq<char>,
    second: Seq<char>,
) -> Parsed<(Seq<char>, Seq<char>)> {
    match expect(ts, i, k) {
        Err(e) => Err(e),
        Ok(j) => match ident(ts, j, first) {
            Err(e) => Err(e),
            Ok((a, j2)) => match expect(ts, j2, joiner) {
                Err(e) => Err(e),
                Ok(j3) => match ident(ts, j3, second) {
                    Err(e) => Err(e),
                    Ok((b, j4)) => match expect(ts, j4, TokenKind::Period) {
                        Err(e) => Err(e),
                        Ok(j5) => Ok(((a, b), j5)),
                    },
                },
            },
        },
    }
}

/// mix := 'mix' IDENT 'with' IDENT '.'
pub open spec fn parse_mix(ts: Seq<SpecToken>, i: int) -> Parsed<SpecStatement> {
    match parse_pair(ts, i, TokenKind::Mix, TokenKind::With, "Expected brew name"@, "Expected brew name"@) {
        Err(e) => Err(e),
        Ok(((target, source), j)) => Ok((SpecStatement::Mix { target, source }, j)),
    }
}

/// relabel := 'relabel' IDENT 'as' IDENT '.'
pub open spec fn parse_relabel(ts: Seq<SpecToken>, i: int) -> Parsed<SpecStatement> {
    match parse_pair(ts, i, TokenKind::Relabel, TokenKind::As, "Expected identifier"@, "Expected identifier"@) {
        Err(e) => Err(e),
        Ok(((from, to), j)) => Ok((SpecStatement::Relabel { from, to }, j)),
    }
}

/// add := 'add' IDENT 'to' IDENT '.'
pub open spec fn parse_add_to_barrel(ts: Seq<SpecToken>, i: int) -> Parsed<SpecStatement> {
    match parse_pair(ts, i, TokenKind::Add, TokenKind::To, "Expected brew name"@, "Expected barrel name"@) {
        Err(e) => Err(e),
        Ok(((brew_name, barrel_name), j)) => Ok((SpecStatement::AddToBarrel { brew_name, barrel_name }, j)),
    }
}

/// remove := 'remove' IDENT 'from' IDENT '.'
pub open spec fn parse_remove_from_barrel(ts: Seq<SpecToken>, i: int) -> Parsed<SpecStatement> {
    match parse_pair(ts, i, TokenKind::Remove, TokenKind::From, "Expected brew name"@, "Expected barrel name"@) {
        Err(e) => Err(e),
        Ok(((brew_name, barrel_name), j)) => Ok((SpecStatement::RemoveFromBarrel { brew_name, barrel_name }, j)),
    }
}

/// keyword IDENT 'by' expression '.', for `double` and `dilute`.
pub open spec fn parse_scaling(ts: Seq<SpecToken>, i: int, k: TokenKind) -> Parsed<(Seq<char>, SpecExpression)> {
    match expect(ts, i, k) {
        Err(e) => Err(e),
        Ok(j) => match ident(ts, j, "Expected brew name"@) {
            Err(e) => Err(e),
            Ok((name, j2)) => match expect(ts, j2, TokenKind::By) {
                Err(e) => Err(e),
                Ok(j3) => match parse_expression(ts, j3) {
                    Err(e) => Err(e),
                    Ok((factor, j4)) => match expect(ts, j4, TokenKind::Period) {
                        Err(e) => Err(e),
                        Ok(j5) => Ok(((name, factor), j5)),
                    },
                },
            },
        },
    }
}

/// double := 'double' IDENT 'by' expression '.'
pub open spec fn parse_double(ts: Seq<SpecToken>, i: int) -> Parsed<SpecStatement> {
    match parse_scaling(ts, i, TokenKind::Double) {
        Err(e) => Err(e),
        Ok(((brew_name, factor), j)) => Ok((SpecStatement::Double { brew_name, factor }, j)),
    }
}

/// dilute := 'dilute' IDENT 'by' expression '.'
pub open spec fn parse_dilute(ts: Seq<SpecToken>, i: int) -> Parsed<SpecStatement> {
    match parse_scaling(ts, i, TokenKind::Dilute) {
        Err(e) => Err(e),
        Ok(((brew_name, factor), j)) => Ok((SpecStatement::Dilute { brew_name, factor }, j)),
    }
}

/// The parameters after '(': names up to ')'; a comma between names may be
/// left out.
pub open spec fn param_list(ts: Seq<SpecToken>, i: int, acc: Seq<Seq<char>>) -> Parsed<Seq<Seq<char>>>
    decreases remaining(ts, i),
{
    if !present(ts, i) {
        Err(end_of_input())
    } else if ts[i].kind == TokenKind::Identifier {
        let acc2 = acc.push(ts[i].text);
        if at(ts, i + 1, TokenKind::Comma) {
            param_list(ts, i + 2, acc2)
        } else if at(ts, i + 1, TokenKind::RightParen) {
            Ok((acc2, i + 2))
        } else {
            param_list(ts, i + 1, acc2)
        }
    } else {
        Err(error_at("Expected parameter name"@, ts[i]))
    }
}

/// params := '(' ')' | '(' IDENT ([','] IDENT)* ')'
pub open spec fn parse_params(ts: Seq<SpecToken>, i: int) -> Parsed<Seq<Seq<char>>> {
    match expect(ts, i, TokenKind::LeftParen) {
        Err(e) => Err(e),
        Ok(j) => if at(ts, j, TokenKind::RightParen) {
            Ok((Seq::empty(), j + 1))
        } else {
            param_list(ts, j, Seq::empty())
        },
    }
}

/// barrel := 'barrel' IDENT '=' '[' [expression (',' expression)*] ']' '.'
pub open spec fn parse_barrel_decl(ts: Seq<SpecToken>, i: int) -> Parsed<SpecStatement> {
    match expect(ts, i, TokenKind::Barrel) {
        Err(e) => Err(e),
        Ok(j) => match ident(ts, j, "Expected barrel name"@) {
            Err(e) => Err(e),
            Ok((name, j2)) => match expect(ts, j2, TokenKind::Equal) {
                Err(e) => Err(e),
                Ok(j3) => match expect(ts, j3, TokenKind::LeftBracket) {
                    Err(e) => Err(e),
                    Ok(j4) => match (if present(ts, j4) && ts[j4].kind != TokenKind::RightBracket {
                        expression_list(ts, j4, Seq::empty())
                    } else {
                        Ok((Seq::empty(), j4))
                    }) {
                        Err(e) => Err(e),
                        Ok((elements, j5)) => match expect(ts, j5, TokenKind::RightBracket) {
                            Err(e) => Err(e),
                            Ok(j6) => match expect(ts, j6, TokenKind::Period) {
                                Err(e) => Err(e),
                                Ok(j7) => Ok((SpecStatement::BarrelDecl { name, elements }, j7)),
                            },
                        },
                    },
                },
            },
        },
    }
}

/// loop_condition := 'until' condition | NUMBER 'times' | IDENT 'times'
///                 | 'each' IDENT 'in' IDENT
/// (`IDENT in ..` is refused with advice to write `each`).
pub open spec fn parse_loop_condition(ts: Seq<SpecToken>, i: int) -> Parsed<SpecLoopCondition> {
    if !present(ts, i) {
        Err(end_of_input())
    } else {
        let t = ts[i];
        if t.kind == TokenKind::Until {
            match parse_condition(ts, i + 1) {
                Err(e) => Err(e),
                Ok((c, j)) => Ok((SpecLoopCondition::Until(Box::new(c)), j)),
            }
        } else if t.kind == TokenKind::Number {
            match parse_expression(ts, i) {
                Err(e) => Err(e),
                Ok((times, j)) => match expect(ts, j, TokenKind::Times) {
                    Err(e) => Err(e),
                    Ok(j2) => Ok((SpecLoopCondition::Times(times), j2)),
                },
            }
        } else if t.kind == TokenKind::Identifier {
            if !present(ts, i + 1) {
                Err(end_of_input())
            } else {
                let nt = ts[i + 1];
                if nt.kind == TokenKind::Times {
                    Ok((SpecLoopCondition::Times(SpecExpression::Identifier(t.text)), i + 2))
                } else if nt.kind == TokenKind::In {
                    if t.text != "each"@ {
                        Err(error_at("Expected 'each' for collection iteration"@, nt))
                    } else if !present(ts, i + 2) {
                        Err(end_of_input())
                    } else if ts[i + 2].kind == TokenKind::Identifier {
                        Err(error_at("For iteration, use: repeat each <var> in <collection>:"@, nt))
                    } else {
                        Err(error_at("Expected collection name"@, ts[i + 2]))
                    }
                } else {
                    Err(error_at("Expected 'times' or use 'repeat each <var> in <collection>:' for iteration"@, nt))
                }
            }
        } else if t.kind == TokenKind::Each {
            match ident(ts, i + 1, "Expected variable name after 'each'"@) {
                Err(e) => Err(e),
                Ok((var_name, j)) => match expect(ts, j, TokenKind::In) {
                    Err(e) => Err(e),
                    Ok(j2) => match ident(ts, j2, "Expected collection name"@) {
                        Err(e) => Err(e),
                        Ok((collection, j3)) => Ok((SpecLoopCondition::ForEach { var_name, collection }, j3)),
                    },
                },
            }
        } else {
            Err(error_at("Expected 'until', 'each', number, or identifier after 'repeat'"@, t))
        }
    }
}

// ---- statements and blocks ----

/// statement := brew | wait | age | taste | toast | keg | mix | double
///            | dilute | recipe | relabel | judge | repeat | for_each | barrel | add
///            | remove | 'end' | expression '.'
/// after any NEWLINE and COMMENT tokens.
pub open spec fn parse_statement(ts: Seq<SpecToken>, i: int) -> Parsed<SpecStatement>
    decreases remaining(ts, i), 1nat,
{
    let i1 = skip_ws(ts, i);
    if !present(ts, i1) {
        Err(end_of_input())
    } else {
        let t = ts[i1];
        match t.kind {
            TokenKind::Brew => parse_brew(ts, i1),
            TokenKind::Wait => parse_wait(ts, i1),
            TokenKind::Age => parse_age(ts, i1),
            TokenKind::Taste => parse_taste(ts, i1),
            TokenKind::Toast => parse_toast(ts, i1),
            TokenKind::Keg => parse_keg(ts, i1),
            TokenKind::Mix => parse_mix(ts, i1),
            TokenKind::Double => parse_double(ts, i1),
            TokenKind::Dilute => parse_dilute(ts, i1),
            TokenKind::Recipe => parse_recipe(ts, i1),
            TokenKind::Relabel => parse_relabel(ts, i1),
            TokenKind::Judge => parse_judge(ts, i1),
            TokenKind::If => parse_judge(ts, i1),
            TokenKind::Repeat => parse_repeat(ts, i1),
            TokenKind::For => parse_for_each(ts, i1),
            TokenKind::Barrel => parse_barrel_decl(ts, i1),
            TokenKind::Add => parse_add_to_barrel(ts, i1),
            TokenKind::Remove => parse_remove_from_barrel(ts, i1),
            TokenKind::End => Ok((SpecStatement::End, i1 + 1)),
            TokenKind::Identifier => match parse_expression(ts, i1) {
                Err(e) => Err(e),
                Ok((expr, j)) => match expect(ts, j, TokenKind::Period) {
                    Err(e) => Err(e),
                    Ok(j2) => Ok((SpecStatement::ExprStmt(expr), j2)),
                },
            },
            _ => Err(error_at("Unexpected token: "@ + token_debug_text(t.kind, t.text), t)),
        }
    }
}

/// block := [INDENT] statement* ending before 'end' or 'else', at the end of
/// the tokens, or after a DEDENT when the block began with an INDENT (a
/// DEDENT is otherwise skipped).
pub open spec fn parse_block(ts: Seq<SpecToken>, i: int) -> Parsed<Seq<SpecStatement>>
    decreases remaining(ts, i), 3nat,
{
    if at(ts, i, TokenKind::Indent) {
        block_items(ts, skip_ws(ts, i + 1), true, Seq::empty())
    } else {
        block_items(ts, i, false, Seq::empty())
    }
}

/// The statements of a block after those in `acc`.
pub open spec fn block_items(ts: Seq<SpecToken>, i: int, indented: bool, acc: Seq<SpecStatement>) -> Parsed<Seq<SpecStatement>>
    decreases remaining(ts, i), 2nat,
{
    let i1 = skip_ws(ts, i);
    if !present(ts, i1) {
        Ok((acc, i1))
    } else {
        let k = ts[i1].kind;
        if k == TokenKind::End || k == TokenKind::Else {
            Ok((acc, i1))
        } else if k == TokenKind::Dedent {
            if indented {
                Ok((acc, i1 + 1))
            } else {
                block_items(ts, i1 + 1, indented, acc)
            }
        } else {
            match parse_statement(ts, i1) {
                Err(e) => Err(e),
                Ok((st, j)) => if !progressed(ts, i1, j) {
                    Err(end_of_input())
                } else {
                    block_items(ts, j, indented, acc.push(st))
                },
            }
        }
    }
}

/// recipe := 'recipe' IDENT params [INDENT] body, where the body runs to
/// 'end' '.' (or the end of the tokens); an expression that is not followed
/// by '.' gives the return value, one followed by '.' is a statement, and
/// DEDENTs are skipped.
pub open spec fn parse_recipe(ts: Seq<SpecToken>, i: int) -> Parsed<SpecStatement>
    decreases remaining(ts, i), 0nat,
{
    match expect(ts, i, TokenKind::Recipe) {
        Err(e) => Err(e),
        Ok(j) => match ident(ts, j, "Expected recipe name"@) {
            Err(e) => Err(e),
            Ok((name, j2)) => match parse_params(ts, j2) {
                Err(e) => Err(e),
                Ok((params, j3)) => {
                    let j4 = skip_ws(ts, j3);
                    let j5 = if at(ts, j4, TokenKind::Indent) { skip_ws(ts, j4 + 1) } else { j4 };
                    if !progressed(ts, i, j5) {
                        Err(end_of_input())
                    } else {
                        recipe_body(ts, j5, name, params, Seq::empty(), None)
                    }
                },
            },
        },
    }
}

/// The rest of a recipe's body, with the statements and return value read so
/// far.
pub open spec fn recipe_body(
    ts: Seq<SpecToken>,
    i: int,
    name: Seq<char>,
    params: Seq<Seq<char>>,
    body: Seq<SpecStatement>,
    return_value: Option<SpecExpression>,
) -> Parsed<SpecStatement>
    decreases remaining(ts, i), 2nat,
{
    let i1 = skip_ws(ts, i);
    if !present(ts, i1) {
        Ok((SpecStatement::Recipe { name, params, body, return_value }, i1))
    } else {
        let k = ts[i1].kind;
        if k == TokenKind::End {
            match expect(ts, i1 + 1, TokenKind::Period) {
                Err(e) => Err(e),
                Ok(j) => Ok((SpecStatement::Recipe { name, params, body, return_value }, j)),
            }
        } else if k == TokenKind::Dedent {
            recipe_body(ts, i1 + 1, name, params, body, return_value)
        } else if k == TokenKind::Identifier || k == TokenKind::Number || k == TokenKind::String {
            match parse_expression(ts, i1) {
                Err(e) => Err(e),
                Ok((expr, j)) => if !progressed(ts, i1, j) {
                    Err(end_of_input())
                } else {
                    let j2 = skip_ws(ts, j);
                    if at(ts, j2, TokenKind::Period) {
                        recipe_body(ts, j2 + 1, name, params, body.push(SpecStatement::ExprStmt(expr)), return_value)
                    } else {
                        recipe_body(ts, j2, name, params, body, Some(expr))
                    }
                },
            }
        } else {
            match parse_statement(ts, i1) {
                Err(e) => Err(e),
                Ok((st, j)) => if !progressed(ts, i1, j) {
                    Err(end_of_input())
                } else {
                    recipe_body(ts, j, name, params, body.push(st), return_value)
                },
            }
        }
    }
}

/// 'end' '.' after a block.
pub open spec fn expect_end(ts: Seq<SpecToken>, i: int) -> Result<int, SpecParseError> {
    match expect(ts, i, TokenKind::End) {
        Err(e) => Err(e),
        Ok(j) => expect(ts, j, TokenKind::Period),
    }
}

/// judge := ('judge' | 'if') ['if'] condition ':' block ['else' ':' block] 'end' '.'
pub open spec fn parse_judge(ts: Seq<SpecToken>, i: int) -> Parsed<SpecStatement>
    decreases remaining(ts, i), 0nat,
{
    let j = step(ts, i);
    let j2 = if at(ts, j, TokenKind::If) { j + 1 } else { j };
    match parse_condition(ts, j2) {
        Err(e) => Err(e),
        Ok((condition, j3)) => match expect(ts, j3, TokenKind::Colon) {
            Err(e) => Err(e),
            Ok(j4) => {
                let j5 = skip_ws(ts, j4);
                if !progressed(ts, i, j5) {
                    Err(end_of_input())
                } else {
                    match parse_block(ts, j5) {
                        Err(e) => Err(e),
                        Ok((then_block, k)) => if at(ts, k, TokenKind::Else) {
                            match expect(ts, k + 1, TokenKind::Colon) {
                                Err(e) => Err(e),
                                Ok(k2) => {
                                    let k3 = skip_ws(ts, k2);
                                    if !progressed(ts, i, k3) {
                                        Err(end_of_input())
                                    } else {
                                        match parse_block(ts, k3) {
                                            Err(e) => Err(e),
                                            Ok((else_block, m)) => match expect_end(ts, m) {
                                                Err(e) => Err(e),
                                                Ok(m2) => Ok((SpecStatement::Judge { condition, then_block, else_block: Some(else_block) }, m2)),
                                            },
                                        }
                                    }
                                },
                            }
                        } else {
                            match expect_end(ts, k) {
                                Err(e) => Err(e),
                                Ok(m2) => Ok((SpecStatement::Judge { condition, then_block, else_block: None }, m2)),
                            }
                        },
                    }
                }
            },
        },
    }
}

/// repeat := 'repeat' loop_condition ':' block 'end' '.'
pub open spec fn parse_repeat(ts: Seq<SpecToken>, i: int) -> Parsed<SpecStatement>
    decreases remaining(ts, i), 0nat,
{
    match expect(ts, i, TokenKind::Repeat) {
        Err(e) => Err(e),
        Ok(j) => match parse_loop_condition(ts, j) {
            Err(e) => Err(e),
            Ok((condition, j2)) => match expect(ts, j2, TokenKind::Colon) {
                Err(e) => Err(e),
                Ok(j3) => {
                    let j4 = skip_ws(ts, j3);
                    if !progressed(ts, i, j4) {
                        Err(end_of_input())
                    } else {
                        match parse_block(ts, j4) {
                            Err(e) => Err(e),
                            Ok((body, k)) => match expect_end(ts, k) {
                                Err(e) => Err(e),
                                Ok(k2) => Ok((SpecStatement::Repeat { condition, body }, k2)),
                            },
                        }
                    }
                },
            },
        },
    }
}

/// for_each := 'for' 'each' (IDENT | 'brew') 'in' IDENT ':' block, a loop over a barrel
/// whose body is the block alone (no 'end' '.' follows it).
pub open spec fn parse_for_each(ts: Seq<SpecToken>, i: int) -> Parsed<SpecStatement>
    decreases remaining(ts, i), 0nat,
{
    match expect(ts, i, TokenKind::For) {
        Err(e) => Err(e),
        Ok(j) => match expect(ts, j, TokenKind::Each) {
            Err(e) => Err(e),
            Ok(j1) => match name_word(ts, j1, "Expected variable name after 'each'"@) {
                Err(e) => Err(e),
                Ok((var_name, j2)) => match expect(ts, j2, TokenKind::In) {
                    Err(e) => Err(e),
                    Ok(j3) => match ident(ts, j3, "Expected collection name"@) {
                        Err(e) => Err(e),
                        Ok((collection, j4)) => match expect(ts, j4, TokenKind::Colon) {
                            Err(e) => Err(e),
                            Ok(j5) => {
                                let j6 = skip_ws(ts, j5);
                                if !progressed(ts, i, j6) {
                                    Err(end_of_input())
                                } else {
                                    match parse_block(ts, j6) {
                                        Err(e) => Err(e),
                                        Ok((body, k)) => Ok((
                                            SpecStatement::Repeat {
                                                condition: SpecLoopCondition::ForEach { var_name, collection },
                                                body,
                                            },
                                            k,
                                        )),
                                    }
                                }
                            },
                        },
                    },
                },
            },
        },
    }
}

/// The statements of a program from position `i` (where no NEWLINE or
/// COMMENT stands) up to EOF or the end of the tokens, after those in `acc`.
pub open spec fn program_items(ts: Seq<SpecToken>, i: int, acc: Seq<SpecStatement>) -> Result<Seq<SpecStatement>, SpecParseError>
    decreases remaining(ts, i),
{
    if !present(ts, i) || ts[i].kind == TokenKind::Eof {
        Ok(acc)
    } else {
        match parse_statement(ts, i) {
            Err(e) => Err(e),
            Ok((st, j)) => if !progressed(ts, i, j) {
                Err(end_of_input())
            } else {
                program_items(ts, skip_ws(ts, j), acc.push(st))
            },
        }
    }
}

/// program := statement* EOF, with NEWLINE and COMMENT tokens between
/// statements, read from position `i`.
pub open spec fn parse_program(ts: Seq<SpecToken>, i: int) -> Result<SpecProgram, SpecParseError> {
    match program_items(ts, skip_ws(ts, i), Seq::empty()) {
        Err(e) => Err(e),
        Ok(statements) => Ok(SpecProgram { statements }),
    }
}

// ---- the parser ----

/// A parse error: what went wrong, and the line and column of the token
/// where it did (0 and 0 at the end of the tokens).
#[derive(Debug)]
pub struct ParseError {
    pub message: String,
    pub line: usize,
    pub column: usize,
}

impl View for ParseError {
    type V = SpecParseError;

    open spec fn view(&self) -> SpecParseError {
        SpecParseError { message: self.message@, line: self.line as int, column: self.column as int }
    }
}

impl ParseError {
    fn new(message: String, token: &Token) -> (e: Self)
        ensures
            e@ == error_at(message@, token@),
    {
        ParseError { message, line: token.line, column: token.column }
    }

    fn end_of_input() -> (e: Self)
        ensures
            e@ == end_of_input(),
    {
        let mut message = String::new();
        push_str(&mut message, "Unexpected end of input");
        ParseError { message, line: 0, column: 0 }
    }
}

/// An executed parser agrees with its specification: it gives the same value
/// and stops where the specification does, or gives the same error.
pub open spec fn agrees<T: View>(r: Result<T, ParseError>, s: Parsed<T::V>, end: int) -> bool {
    match r {
        Ok(v) => s == Ok::<(T::V, int), SpecParseError>((v@, end)),
        Err(e) => s == Err::<(T::V, int), SpecParseError>(e@),
    }
}

/// `agrees` for a list of expressions.
pub open spec fn agrees_exprs(r: Result<Vec<Expression>, ParseError>, s: Parsed<Seq<SpecExpression>>, end: int) -> bool {
    match r {
        Ok(v) => s == Ok::<(Seq<SpecExpression>, int), SpecParseError>((exprs_view(v@), end)),
        Err(e) => s == Err::<(Seq<SpecExpression>, int), SpecParseError>(e@),
    }
}

/// `agrees` for a list of statements.
pub open spec fn agrees_stmts(r: Result<Vec<Statement>, ParseError>, s: Parsed<Seq<SpecStatement>>, end: int) -> bool {
    match r {
        Ok(v) => s == Ok::<(Seq<SpecStatement>, int), SpecParseError>((stmts_view(v@), end)),
        Err(e) => s == Err::<(Seq<SpecStatement>, int), SpecParseError>(e@),
    }
}

pub struct Parser {
    tokens: Vec<Token>,
    pos: usize,
}

impl Parser {
    /// The tokens being parsed.
    pub closed spec fn toks(&self) -> Seq<SpecToken> {
        self.tokens@.map_values(|t: Token| t@)
    }

    /// The position of the current token.
    pub closed spec fn position(&self) -> int {
        self.pos as int
    }

    /// The position is within the tokens (or just after them).
    pub closed spec fn wf(&self) -> bool {
        self.pos <= self.tokens.len()
    }

    /// A parser over `tokens`, at the first of them.
    pub fn new(tokens: Vec<Token>) -> (p: Self)
        ensures
            p.wf(),
            p.toks() == tokens@.map_values(|t: Token| t@),
            p.position() == 0,
    {
        Parser { tokens, pos: 0 }
    }

    fn advance(&mut self)
        requires
            old(self).wf(),
        ensures
            final(self).wf(),
            final(self).tokens == old(self).tokens,
            final(self).pos == step(old(self).toks(), old(self).pos as int),
    {
        if self.pos < self.tokens.len() {
            self.pos = self.pos + 1;
        }
    }

    /// The kind of the current token, or the end-of-input error.
    fn current_kind(&self) -> (r: Result<TokenKind, ParseError>)
        requires
            self.wf(),
        ensures
            match r {
                Ok(k) => present(self.toks(), self.pos as int) && k == self.toks()[self.pos as int].kind,
                Err(e) => !present(self.toks(), self.pos as int) && e@ == end_of_input(),
            },
    {
        if self.pos < self.tokens.len() {
            Ok(self.tokens[self.pos].token_type.kind())
        } else {
            Err(ParseError::end_of_input())
        }
    }

    /// Whether the current token is of kind `k`.
    fn at_kind(&self, k: TokenKind) -> (b: bool)
        requires
            self.wf(),
        ensures
            b == at(self.toks(), self.pos as int, k),
    {
        self.pos < self.tokens.len() && self.tokens[self.pos].token_type.kind() == k
    }

    /// The text of the current token.
    fn current_text(&self) -> (s: String)
        requires
            self.wf(),
            present(self.toks(), self.pos as int),
        ensures
            s@ == self.toks()[self.pos as int].text,
    {
        self.tokens[self.pos].token_type.text()
    }

    /// An error at the current token.
    fn error_here(&self, message: String) -> (e: ParseError)
        requires
            self.wf(),
            present(self.toks(), self.pos as int),
        ensures
            e@ == error_at(message@, self.toks()[self.pos as int]),
    {
        ParseError::new(message, &self.tokens[self.pos])
    }

    /// The current token as messages show it, after `prefix`.
    fn describe_here(&self, prefix: &str) -> (s: String)
        requires
            self.wf(),
            present(self.toks(), self.pos as int),
        ensures
            s@ == prefix@ + token_debug_text(self.toks()[self.pos as int].kind, self.toks()[self.pos as int].text),
    {
        let mut s = String::new();
        push_str(&mut s, prefix);
        let d = self.tokens[self.pos].token_type.debug_text();
        push_str(&mut s, d.as_str());
        s
    }

    fn expect(&mut self, expected: TokenKind) -> (r: Result<(), ParseError>)
        requires
            old(self).wf(),
        ensures
            final(self).wf(),
            final(self).tokens == old(self).tokens,
            match r {
                Ok(_) => expect(old(self).toks(), old(self).pos as int, expected) == Ok::<int, SpecParseError>(final(self).pos as int),
                Err(e) => expect(old(self).toks(), old(self).pos as int, expected) == Err::<int, SpecParseError>(e@),
            },
    {
        match self.current_kind() {
            Err(e) => Err(e),
            Ok(k) => {
                if k == expected {
                    self.advance();
                    Ok(())
                } else {
                    let mut message = String::new();
                    push_str(&mut message, "Expected ");
                    push_str(&mut message, kind_name_str(expected));
                    let rest = self.describe_here(", got ");
                    push_str(&mut message, rest.as_str());
                    proof {
                        assert(message@ =~= "Expected "@ + kind_name(expected) + ", got "@
                            + token_debug_text(self.toks()[self.pos as int].kind, self.toks()[self.pos as int].text));
                    }
                    Err(self.error_here(message))
                }
            },
        }
    }

    /// A name that may be the word `brew` (as `name_word` reads it), or the
    /// error `message`.
    fn expect_name_word(&mut self, message: &str) -> (r: Result<String, ParseError>)
        requires
            old(self).wf(),
        ensures
            final(self).wf(),
            final(self).tokens == old(self).tokens,
            agrees(r, name_word(old(self).toks(), old(self).pos as int, message@), final(self).pos as int),
    {
        if self.at_kind(TokenKind::Brew) {
            self.advance();
            let mut name = String::new();
            push_str(&mut name, "brew");
            Ok(name)
        } else {
            self.expect_identifier(message)
        }
    }

    /// An identifier's name, or the error `message`.
    fn expect_identifier(&mut self, message: &str) -> (r: Result<String, ParseError>)
        requires
            old(self).wf(),
        ensures
            final(self).wf(),
            final(self).tokens == old(self).tokens,
            agrees(r, ident(old(self).toks(), old(self).pos as int, message@), final(self).pos as int),
    {
        match self.current_kind() {
            Err(e) => Err(e),
            Ok(k) => {
                if k == TokenKind::Identifier {
                    let name = self.current_text();
                    self.advance();
                    Ok(name)
                } else {
                    let mut m = String::new();
                    push_str(&mut m, message);
                    Err(self.error_here(m))
                }
            },
        }
    }

    fn skip_whitespace(&mut self)
        requires
            old(self).wf(),
        ensures
            final(self).wf(),
            final(self).tokens == old(self).tokens,
            final(self).pos == skip_ws(old(self).toks(), old(self).pos as int),
    {
        while self.at_kind(TokenKind::Newline) || self.at_kind(TokenKind::Comment)
            invariant
                self.wf(),
                self.tokens == old(self).tokens,
                skip_ws(self.toks(), self.pos as int) == skip_ws(old(self).toks(), old(self).pos as int),
            decreases self.tokens.len() - self.pos,
        {
            self.advance();
        }
    }
}

impl Parser {
    fn parse_expression(&mut self) -> (r: Result<Expression, ParseError>)
        requires
            old(self).wf(),
        ensures
            final(self).wf(),
            final(self).tokens == old(self).tokens,
            agrees(r, parse_expression(old(self).toks(), old(self).pos as int), final(self).pos as int),
            r is Ok ==> old(self).pos < final(self).pos,
        decreases remaining(old(self).toks(), old(self).pos as int), 0nat,
    {
        let kind = match self.current_kind() {
            Err(e) => return Err(e),
            Ok(k) => k,
        };
        if kind == TokenKind::Number {
            let val = self.current_text();
            self.advance();
            Ok(Expression::Number(val))
        } else if kind == TokenKind::String {
            let val = self.current_text();
            self.advance();
            Ok(Expression::String(val))
        } else if kind == TokenKind::Identifier {
            let name = self.current_text();
            self.advance();
            // Check for function call
            if self.at_kind(TokenKind::LeftParen) {
                self.advance();
                let args = match self.parse_args() {
                    Err(e) => return Err(e),
                    Ok(a) => a,
                };
                match self.expect(TokenKind::RightParen) {
                    Err(e) => return Err(e),
                    Ok(_) => {},
                }
                return Ok(Expression::FunctionCall { name, args });
            } else if self.at_kind(TokenKind::Position) {
                // Barrel access: taplist position 1
                self.advance();
                let index = match self.parse_expression() {
                    Err(e) => return Err(e),
                    Ok(i) => i,
                };
                return Ok(Expression::BarrelAccess { barrel_name: name, index: Box::new(index) });
            }
            Ok(Expression::Identifier(name))
        } else {
            let message = self.describe_here("Unexpected token in expression: ");
            Err(self.error_here(message))
        }
    }

    fn parse_args(&mut self) -> (r: Result<Vec<Expression>, ParseError>)
        requires
            old(self).wf(),
        ensures
            final(self).wf(),
            final(self).tokens == old(self).tokens,
            agrees_exprs(r, parse_args(old(self).toks(), old(self).pos as int), final(self).pos as int),
            r is Ok ==> old(self).pos <= final(self).pos,
        decreases remaining(old(self).toks(), old(self).pos as int), 2nat,
    {
        if self.at_kind(TokenKind::RightParen) {
            return Ok(Vec::new());
        }
        self.parse_expression_list()
    }

    /// One or more expressions separated by commas.
    fn parse_expression_list(&mut self) -> (r: Result<Vec<Expression>, ParseError>)
        requires
            old(self).wf(),
        ensures
            final(self).wf(),
            final(self).tokens == old(self).tokens,
            agrees_exprs(r, expression_list(old(self).toks(), old(self).pos as int, Seq::empty()), final(self).pos as int),
            r is Ok ==> old(self).pos < final(self).pos,
        decreases remaining(old(self).toks(), old(self).pos as int), 1nat,
    {
        let ghost ts = self.toks();
        let ghost p0 = self.pos as int;
        let ghost target = expression_list(ts, p0, Seq::empty());
        let mut args: Vec<Expression> = Vec::new();
        loop
            invariant_except_break
                expression_list(ts, self.pos as int, exprs_view(args@)) == target,
            invariant
                self.wf(),
                self.tokens == old(self).tokens,
                ts == self.toks(),
                p0 == old(self).pos,
                target == expression_list(ts, p0, Seq::empty()),
                p0 <= self.pos,
                args@.len() > 0 ==> p0 < self.pos,
            ensures
                target == Ok::<(Seq<SpecExpression>, int), SpecParseError>((exprs_view(args@), self.pos as int)),
                p0 < self.pos,
            decreases remaining(ts, self.pos as int),
        {
            proof {
                crate::ast::lemma_views_empty();
            }
            let e = match self.parse_expression() {
                Err(e) => return Err(e),
                Ok(e) => e,
            };
            proof {
                lemma_exprs_view_push(args@, e);
            }
            args.push(e);
            if self.at_kind(TokenKind::Comma) {
                self.advance();
            } else {
                break;
            }
        }
        Ok(args)
    }
}

/// The message of an error, as a `String`.
fn message(m: &str) -> (s: String)
    ensures
        s@ == m@,
{
    let mut s = String::new();
    push_str(&mut s, m);
    s
}

impl Parser {
    fn parse_number_or_percentage(&mut self) -> (r: Result<String, ParseError>)
        requires
            old(self).wf(),
        ensures
            final(self).wf(),
            final(self).tokens == old(self).tokens,
            agrees(r, parse_number_or_percentage(old(self).toks(), old(self).pos as int), final(self).pos as int),
            r is Ok ==> old(self).pos < final(self).pos,
    {
        let kind = match self.current_kind() {
            Err(e) => return Err(e),
            Ok(k) => k,
        };
        if kind == TokenKind::Number || kind == TokenKind::Percentage {
            let value = self.current_text();
            self.advance();
            Ok(value)
        } else {
            Err(self.error_here(message("Expected number or percentage")))
        }
    }

    fn parse_condition(&mut self) -> (r: Result<Condition, ParseError>)
        requires
            old(self).wf(),
        ensures
            final(self).wf(),
            final(self).tokens == old(self).tokens,
            agrees(r, parse_condition(old(self).toks(), old(self).pos as int), final(self).pos as int),
            r is Ok ==> old(self).pos < final(self).pos,
    {
        let ghost ts = self.toks();
        let name = match self.expect_identifier("Expected identifier in condition") {
            Err(e) => return Err(e),
            Ok(n) => n,
        };
        match self.expect(TokenKind::Is) {
            Err(e) => return Err(e),
            Ok(_) => {},
        }
        // Check for 'not'
        let negated = if self.at_kind(TokenKind::Not) {
            self.advance();
            true
        } else {
            false
        };
        let kind = match self.current_kind() {
            Err(e) => return Err(e),
            Ok(k) => k,
        };
        if kind == TokenKind::Stronger || kind == TokenKind::Weaker {
            self.advance();
            match self.expect(TokenKind::Than) {
                Err(e) => return Err(e),
                Ok(_) => {},
            }
            let threshold = match self.parse_number_or_percentage() {
                Err(e) => return Err(e),
                Ok(t) => t,
            };
            if kind == TokenKind::Stronger {
                Ok(if negated {
                    Condition::NotStrongerThan { brew_name: name, threshold }
                } else {
                    Condition::StrongerThan { brew_name: name, threshold }
                })
            } else {
                Ok(if negated {
                    Condition::NotWeakerThan { brew_name: name, threshold }
                } else {
                    Condition::WeakerThan { brew_name: name, threshold }
                })
            }
        } else if kind == TokenKind::Number && reads_zero_exec(&self.current_text()) {
            self.advance();
            Ok(if negated { Condition::IsNotZero { name } } else { Condition::IsZero { name } })
        } else if kind == TokenKind::Number || kind == TokenKind::Percentage {
            let threshold = self.current_text();
            self.advance();
            Ok(if negated {
                Condition::NotEquals { brew_name: name, threshold }
            } else {
                Condition::Equals { brew_name: name, threshold }
            })
        } else {
            Err(self.error_here(message("Expected 'stronger' or 'weaker'")))
        }
    }

    fn parse_ingredients(&mut self) -> (r: Result<Vec<Ingredient>, ParseError>)
        requires
            old(self).wf(),
        ensures
            final(self).wf(),
            final(self).tokens == old(self).tokens,
            match r {
                Ok(v) => parse_ingredients(old(self).toks(), old(self).pos as int, Seq::empty())
                    == Ok::<(Seq<SpecIngredient>, int), SpecParseError>((ingredients_view(v@), final(self).pos as int)),
                Err(e) => parse_ingredients(old(self).toks(), old(self).pos as int, Seq::empty())
                    == Err::<(Seq<SpecIngredient>, int), SpecParseError>(e@),
            },
            r is Ok ==> old(self).pos <= final(self).pos,
    {
        let ghost ts = self.toks();
        let ghost target = parse_ingredients(ts, self.pos as int, Seq::empty());
        let mut ingredients: Vec<Ingredient> = Vec::new();
        assert(ingredients_view(ingredients@) =~= Seq::<SpecIngredient>::empty());
        loop
            invariant_except_break
                parse_ingredients(ts, self.pos as int, ingredients_view(ingredients@)) == target,
            invariant
                self.wf(),
                self.tokens == old(self).tokens,
                ts == self.toks(),
                target == parse_ingredients(ts, old(self).pos as int, Seq::empty()),
                old(self).pos <= self.pos,
            ensures
                target == Ok::<(Seq<SpecIngredient>, int), SpecParseError>((ingredients_view(ingredients@), self.pos as int)),
                old(self).pos <= self.pos,
            decreases remaining(ts, self.pos as int),
        {
            // Check for quantity (number before ingredient)
            let kind = match self.current_kind() {
                Err(e) => return Err(e),
                Ok(k) => k,
            };
            let quantity = if kind == TokenKind::Number {
                let n = self.current_text();
                self.advance();
                n
            } else {
                message("1")
            };
            // Parse ingredient type
            let kind = match self.current_kind() {
                Err(e) => return Err(e),
                Ok(k) => k,
            };
            let ingredient_type = if kind == TokenKind::Water {
                IngredientType::Water
            } else if kind == TokenKind::Barley {
                IngredientType::Barley
            } else if kind == TokenKind::Hops {
                IngredientType::Hops
            } else if kind == TokenKind::Yeast {
                IngredientType::Yeast
            } else {
                break;
            };
            self.advance();
            let ghost before = ingredients@;
            let ing = Ingredient { name: ingredient_type, quantity };
            ingredients.push(ing);
            proof {
                assert(ingredients_view(ingredients@) =~= ingredients_view(before).push(
                    SpecIngredient { name: ing.name, quantity: ing.quantity@ }));
            }
            // Check for comma (more ingredients)
            if self.at_kind(TokenKind::Comma) {
                self.advance();
            } else {
                break;
            }
        }
        Ok(ingredients)
    }

    // brew lager from water, 1 barley, 2 hops, 1 yeast.
    // OR: brew selected = taplist position 1.
    fn parse_brew(&mut self) -> (r: Result<Statement, ParseError>)
        requires
            old(self).wf(),
        ensures
            final(self).wf(),
            final(self).tokens == old(self).tokens,
            agrees(r, parse_brew(old(self).toks(), old(self).pos as int), final(self).pos as int),
            r is Ok ==> old(self).pos < final(self).pos,
    {
        match self.expect(TokenKind::Brew) {
            Err(e) => return Err(e),
            Ok(_) => {},
        }
        let name = match self.expect_identifier("Expected brew name") {
            Err(e) => return Err(e),
            Ok(n) => n,
        };
        let kind = match self.current_kind() {
            Err(e) => return Err(e),
            Ok(k) => k,
        };
        if kind == TokenKind::Equal {
            self.advance();
            let value = match self.parse_expression() {
                Err(e) => return Err(e),
                Ok(v) => v,
            };
            match self.expect(TokenKind::Period) {
                Err(e) => return Err(e),
                Ok(_) => {},
            }
            Ok(Statement::Assign { name, value })
        } else {
            match self.expect(TokenKind::From) {
                Err(e) => return Err(e),
                Ok(_) => {},
            }
            let ingredients = match self.parse_ingredients() {
                Err(e) => return Err(e),
                Ok(i) => i,
            };
            match self.expect(TokenKind::Period) {
                Err(e) => return Err(e),
                Ok(_) => {},
            }
            Ok(Statement::Brew { name, ingredients })
        }
    }

    // wait for 5 days.
    fn parse_wait(&mut self) -> (r: Result<Statement, ParseError>)
        requires
            old(self).wf(),
        ensures
            final(self).wf(),
            final(self).tokens == old(self).tokens,
            agrees(r, parse_wait(old(self).toks(), old(self).pos as int), final(self).pos as int),
            r is Ok ==> old(self).pos < final(self).pos,
    {
        match self.expect(TokenKind::Wait) {
            Err(e) => return Err(e),
            Ok(_) => {},
        }
        match self.expect(TokenKind::For) {
            Err(e) => return Err(e),
            Ok(_) => {},
        }
        let days = match self.parse_expression() {
            Err(e) => return Err(e),
            Ok(d) => d,
        };
        // Optional: day or days
        if self.at_kind(TokenKind::Day) || self.at_kind(TokenKind::Days) {
            self.advance();
        }
        match self.expect(TokenKind::Period) {
            Err(e) => return Err(e),
            Ok(_) => {},
        }
        Ok(Statement::Wait { days })
    }

    // age lager until 5.2%.
    fn parse_age(&mut self) -> (r: Result<Statement, ParseError>)
        requires
            old(self).wf(),
        ensures
            final(self).wf(),
            final(self).tokens == old(self).tokens,
            agrees(r, parse_age(old(self).toks(), old(self).pos as int), final(self).pos as int),
            r is Ok ==> old(self).pos < final(self).pos,
    {
        match self.expect(TokenKind::Age) {
            Err(e) => return Err(e),
            Ok(_) => {},
        }
        let brew_name = match self.expect_identifier("Expected brew name") {
            Err(e) => return Err(e),
            Ok(n) => n,
        };
        match self.expect(TokenKind::Until) {
            Err(e) => return Err(e),
            Ok(_) => {},
        }
        // Optional 'is'
        if self.at_kind(TokenKind::Is) {
            self.advance();
        }
        let kind = match self.current_kind() {
            Err(e) => return Err(e),
            Ok(k) => k,
        };
        let target_abv = if kind == TokenKind::Percentage || kind == TokenKind::Number {
            self.current_text()
        } else {
            return Err(self.error_here(message("Expected percentage or number")));
        };
        self.advance();
        // Optional 'abv'
        if self.at_kind(TokenKind::Abv) {
            self.advance();
        }
        match self.expect(TokenKind::Period) {
            Err(e) => return Err(e),
            Ok(_) => {},
        }
        Ok(Statement::Age { brew_name, target_abv })
    }

    /// A keyword of kind `k`, a brew name and a period.
    fn parse_named(&mut self, k: TokenKind) -> (r: Result<String, ParseError>)
        requires
            old(self).wf(),
        ensures
            final(self).wf(),
            final(self).tokens == old(self).tokens,
            agrees(r, parse_named(old(self).toks(), old(self).pos as int, k), final(self).pos as int),
            r is Ok ==> old(self).pos < final(self).pos,
    {
        match self.expect(k) {
            Err(e) => return Err(e),
            Ok(_) => {},
        }
        let brew_name = match (if k == TokenKind::Taste {
            self.expect_name_word("Expected brew name")
        } else {
            self.expect_identifier("Expected brew name")
        }) {
            Err(e) => return Err(e),
            Ok(n) => n,
        };
        match self.expect(TokenKind::Period) {
            Err(e) => return Err(e),
            Ok(_) => {},
        }
        Ok(brew_name)
    }

    // taste lager.
    fn parse_taste(&mut self) -> (r: Result<Statement, ParseError>)
        requires
            old(self).wf(),
        ensures
            final(self).wf(),
            final(self).tokens == old(self).tokens,
            agrees(r, parse_taste(old(self).toks(), old(self).pos as int), final(self).pos as int),
            r is Ok ==> old(self).pos < final(self).pos,
    {
        match self.parse_named(TokenKind::Taste) {
            Err(e) => Err(e),
            Ok(brew_name) => Ok(Statement::Taste { brew_name }),
        }
    }

    // keg lager.
    fn parse_keg(&mut self) -> (r: Result<Statement, ParseError>)
        requires
            old(self).wf(),
        ensures
            final(self).wf(),
            final(self).tokens == old(self).tokens,
            agrees(r, parse_keg(old(self).toks(), old(self).pos as int), final(self).pos as int),
            r is Ok ==> old(self).pos < final(self).pos,
    {
        match self.parse_named(TokenKind::Keg) {
            Err(e) => Err(e),
            Ok(brew_name) => Ok(Statement::Keg { brew_name }),
        }
    }

    // toast "hello, world!".
    fn parse_toast(&mut self) -> (r: Result<Statement, ParseError>)
        requires
            old(self).wf(),
        ensures
            final(self).wf(),
            final(self).tokens == old(self).tokens,
            agrees(r, parse_toast(old(self).toks(), old(self).pos as int), final(self).pos as int),
            r is Ok ==> old(self).pos < final(self).pos,
    {
        match self.expect(TokenKind::Toast) {
            Err(e) => return Err(e),
            Ok(_) => {},
        }
        let value = match self.parse_expression() {
            Err(e) => return Err(e),
            Ok(v) => v,
        };
        match self.expect(TokenKind::Period) {
            Err(e) => return Err(e),
            Ok(_) => {},
        }
        Ok(Statement::Toast { value })
    }

    /// A keyword of kind `k`, a name, a joiner, a name and a period.
    fn parse_pair(&mut self, k: TokenKind, joiner: TokenKind, first: &str, second: &str) -> (r: Result<(String, String), ParseError>)
        requires
            old(self).wf(),
        ensures
            final(self).wf(),
            final(self).tokens == old(self).tokens,
            match r {
                Ok((a, b)) => parse_pair(old(self).toks(), old(self).pos as int, k, joiner, first@, second@)
                    == Ok::<((Seq<char>, Seq<char>), int), SpecParseError>(((a@, b@), final(self).pos as int)),
                Err(e) => parse_pair(old(self).toks(), old(self).pos as int, k, joiner, first@, second@)
                    == Err::<((Seq<char>, Seq<char>), int), SpecParseError>(e@),
            },
            r is Ok ==> old(self).pos < final(self).pos,
    {
        match self.expect(k) {
            Err(e) => return Err(e),
            Ok(_) => {},
        }
        let a = match self.expect_identifier(first) {
            Err(e) => return Err(e),
            Ok(n) => n,
        };
        match self.expect(joiner) {
            Err(e) => return Err(e),
            Ok(_) => {},
        }
        let b = match self.expect_identifier(second) {
            Err(e) => return Err(e),
            Ok(n) => n,
        };
        match self.expect(TokenKind::Period) {
            Err(e) => return Err(e),
            Ok(_) => {},
        }
        Ok((a, b))
    }

    // mix lager with stout.
    fn parse_mix(&mut self) -> (r: Result<Statement, ParseError>)
        requires
            old(self).wf(),
        ensures
            final(self).wf(),
            final(self).tokens == old(self).tokens,
            agrees(r, parse_mix(old(self).toks(), old(self).pos as int), final(self).pos as int),
            r is Ok ==> old(self).pos < final(self).pos,
    {
        match self.parse_pair(TokenKind::Mix, TokenKind::With, "Expected brew name", "Expected brew name") {
            Err(e) => Err(e),
            Ok((target, source)) => Ok(Statement::Mix { target, source }),
        }
    }

    // relabel temp as a.
    fn parse_relabel(&mut self) -> (r: Result<Statement, ParseError>)
        requires
            old(self).wf(),
        ensures
            final(self).wf(),
            final(self).tokens == old(self).tokens,
            agrees(r, parse_relabel(old(self).toks(), old(self).pos as int), final(self).pos as int),
            r is Ok ==> old(self).pos < final(self).pos,
    {
        match self.parse_pair(TokenKind::Relabel, TokenKind::As, "Expected identifier", "Expected identifier") {
            Err(e) => Err(e),
            Ok((from, to)) => Ok(Statement::Relabel { from, to }),
        }
    }

    // add lager to taplist.
    fn parse_add_to_barrel(&mut self) -> (r: Result<Statement, ParseError>)
        requires
            old(self).wf(),
        ensures
            final(self).wf(),
            final(self).tokens == old(self).tokens,
            agrees(r, parse_add_to_barrel(old(self).toks(), old(self).pos as int), final(self).pos as int),
            r is Ok ==> old(self).pos < final(self).pos,
    {
        match self.parse_pair(TokenKind::Add, TokenKind::To, "Expected brew name", "Expected barrel name") {
            Err(e) => Err(e),
            Ok((brew_name, barrel_name)) => Ok(Statement::AddToBarrel { brew_name, barrel_name }),
        }
    }

    // remove lager from taplist.
    fn parse_remove_from_barrel(&mut self) -> (r: Result<Statement, ParseError>)
        requires
            old(self).wf(),
        ensures
            final(self).wf(),
            final(self).tokens == old(self).tokens,
            agrees(r, parse_remove_from_barrel(old(self).toks(), old(self).pos as int), final(self).pos as int),
            r is Ok ==> old(self).pos < final(self).pos,
    {
        match self.parse_pair(TokenKind::Remove, TokenKind::From, "Expected brew name", "Expected barrel name") {
            Err(e) => Err(e),
            Ok((brew_name, barrel_name)) => Ok(Statement::RemoveFromBarrel { brew_name, barrel_name }),
        }
    }

    /// A keyword of kind `k`, a brew name, 'by', a factor and a period.
    fn parse_scaling(&mut self, k: TokenKind) -> (r: Result<(String, Expression), ParseError>)
        requires
            old(self).wf(),
        ensures
            final(self).wf(),
            final(self).tokens == old(self).tokens,
            match r {
                Ok((a, f)) => parse_scaling(old(self).toks(), old(self).pos as int, k)
                    == Ok::<((Seq<char>, SpecExpression), int), SpecParseError>(((a@, f@), final(self).pos as int)),
                Err(e) => parse_scaling(old(self).toks(), old(self).pos as int, k)
                    == Err::<((Seq<char>, SpecExpression), int), SpecParseError>(e@),
            },
            r is Ok ==> old(self).pos < final(self).pos,
    {
        match self.expect(k) {
            Err(e) => return Err(e),
            Ok(_) => {},
        }
        let brew_name = match self.expect_identifier("Expected brew name") {
            Err(e) => return Err(e),
            Ok(n) => n,
        };
        match self.expect(TokenKind::By) {
            Err(e) => return Err(e),
            Ok(_) => {},
        }
        let factor = match self.parse_expression() {
            Err(e) => return Err(e),
            Ok(f) => f,
        };
        match self.expect(TokenKind::Period) {
            Err(e) => return Err(e),
            Ok(_) => {},
        }
        Ok((brew_name, factor))
    }

    // double porter by 3.
    fn parse_double(&mut self) -> (r: Result<Statement, ParseError>)
        requires
            old(self).wf(),
        ensures
            final(self).wf(),
            final(self).tokens == old(self).tokens,
            agrees(r, parse_double(old(self).toks(), old(self).pos as int), final(self).pos as int),
            r is Ok ==> old(self).pos < final(self).pos,
    {
        match self.parse_scaling(TokenKind::Double) {
            Err(e) => Err(e),
            Ok((brew_name, factor)) => Ok(Statement::Double { brew_name, factor }),
        }
    }

    // dilute ipa by 2.
    fn parse_dilute(&mut self) -> (r: Result<Statement, ParseError>)
        requires
            old(self).wf(),
        ensures
            final(self).wf(),
            final(self).tokens == old(self).tokens,
            agrees(r, parse_dilute(old(self).toks(), old(self).pos as int), final(self).pos as int),
            r is Ok ==> old(self).pos < final(self).pos,
    {
        match self.parse_scaling(TokenKind::Dilute) {
            Err(e) => Err(e),
            Ok((brew_name, factor)) => Ok(Statement::Dilute { brew_name, factor }),
        }
    }
}

/// The view of an optional expression.
pub open spec fn opt_expr_view(o: Option<Expression>) -> Option<SpecExpression> {
    match o {
        Some(e) => Some(e@),
        None => None,
    }
}

/// Past the NEWLINE and COMMENT tokens there are none left to skip.
/// Skipping NEWLINE and COMMENT tokens moves forward, never past the end.
proof fn lemma_skip_ws_bounds(ts: Seq<SpecToken>, i: int)
    ensures
        i <= skip_ws(ts, i),
        i < ts.len() ==> skip_ws(ts, i) <= ts.len(),
        remaining(ts, skip_ws(ts, i)) <= remaining(ts, i),
        present(ts, i) && !(ts[i].kind == TokenKind::Newline || ts[i].kind == TokenKind::Comment) ==> skip_ws(ts, i) == i,
    decreases remaining(ts, i),
{
    if present(ts, i) && (ts[i].kind == TokenKind::Newline || ts[i].kind == TokenKind::Comment) {
        lemma_skip_ws_bounds(ts, i + 1);
    }
}

proof fn lemma_skip_ws_idem(ts: Seq<SpecToken>, i: int)
    ensures
        ws_run(ts, skip_ws(ts, i)) == 0,
    decreases remaining(ts, i),
{
    if present(ts, i) && (ts[i].kind == TokenKind::Newline || ts[i].kind == TokenKind::Comment) {
        lemma_skip_ws_idem(ts, i + 1);
    }
}

impl Parser {
    fn parse_params(&mut self) -> (r: Result<Vec<String>, ParseError>)
        requires
            old(self).wf(),
        ensures
            final(self).wf(),
            final(self).tokens == old(self).tokens,
            match r {
                Ok(v) => parse_params(old(self).toks(), old(self).pos as int)
                    == Ok::<(Seq<Seq<char>>, int), SpecParseError>((strings_view(v@), final(self).pos as int)),
                Err(e) => parse_params(old(self).toks(), old(self).pos as int)
                    == Err::<(Seq<Seq<char>>, int), SpecParseError>(e@),
            },
            r is Ok ==> old(self).pos < final(self).pos,
    {
        let ghost ts = self.toks();
        match self.expect(TokenKind::LeftParen) {
            Err(e) => return Err(e),
            Ok(_) => {},
        }
        let mut params: Vec<String> = Vec::new();
        assert(strings_view(params@) =~= Seq::<Seq<char>>::empty());
        if self.at_kind(TokenKind::RightParen) {
            self.advance();
            return Ok(params);
        }
        let ghost target = param_list(ts, self.pos as int, Seq::empty());
        loop
            invariant_except_break
                param_list(ts, self.pos as int, strings_view(params@)) == target,
            invariant
                self.wf(),
                self.tokens == old(self).tokens,
                ts == self.toks(),
                old(self).pos < self.pos,
                target == parse_params(ts, old(self).pos as int),
            ensures
                target == Ok::<(Seq<Seq<char>>, int), SpecParseError>((strings_view(params@), self.pos as int)),
                old(self).pos < self.pos,
            decreases remaining(ts, self.pos as int),
        {
            let kind = match self.current_kind() {
                Err(e) => return Err(e),
                Ok(k) => k,
            };
            if kind == TokenKind::Identifier {
                let ghost before = params@;
                let p = self.current_text();
                params.push(p);
                assert(strings_view(params@) =~= strings_view(before).push(p@));
                self.advance();
            } else {
                return Err(self.error_here(message("Expected parameter name")));
            }
            if self.at_kind(TokenKind::Comma) {
                self.advance();
            } else if self.at_kind(TokenKind::RightParen) {
                self.advance();
                break;
            }
        }
        Ok(params)
    }

    // barrel taplist = [lager, stout].
    fn parse_barrel_decl(&mut self) -> (r: Result<Statement, ParseError>)
        requires
            old(self).wf(),
        ensures
            final(self).wf(),
            final(self).tokens == old(self).tokens,
            agrees(r, parse_barrel_decl(old(self).toks(), old(self).pos as int), final(self).pos as int),
            r is Ok ==> old(self).pos < final(self).pos,
    {
        match self.expect(TokenKind::Barrel) {
            Err(e) => return Err(e),
            Ok(_) => {},
        }
        let name = match self.expect_identifier("Expected barrel name") {
            Err(e) => return Err(e),
            Ok(n) => n,
        };
        match self.expect(TokenKind::Equal) {
            Err(e) => return Err(e),
            Ok(_) => {},
        }
        match self.expect(TokenKind::LeftBracket) {
            Err(e) => return Err(e),
            Ok(_) => {},
        }
        let elements = if self.pos < self.tokens.len() && !self.at_kind(TokenKind::RightBracket) {
            match self.parse_expression_list() {
                Err(e) => return Err(e),
                Ok(v) => v,
            }
        } else {
            proof {
                crate::ast::lemma_views_empty();
            }
            Vec::new()
        };
        match self.expect(TokenKind::RightBracket) {
            Err(e) => return Err(e),
            Ok(_) => {},
        }
        match self.expect(TokenKind::Period) {
            Err(e) => return Err(e),
            Ok(_) => {},
        }
        Ok(Statement::BarrelDecl { name, elements })
    }

    /// The condition of a `repeat`.
    fn parse_loop_condition(&mut self) -> (r: Result<LoopCondition, ParseError>)
        requires
            old(self).wf(),
        ensures
            final(self).wf(),
            final(self).tokens == old(self).tokens,
            agrees(r, parse_loop_condition(old(self).toks(), old(self).pos as int), final(self).pos as int),
            r is Ok ==> old(self).pos < final(self).pos,
    {
        let kind = match self.current_kind() {
            Err(e) => return Err(e),
            Ok(k) => k,
        };
        if kind == TokenKind::Until {
            self.advance();
            match self.parse_condition() {
                Err(e) => Err(e),
                Ok(cond) => Ok(LoopCondition::Until(Box::new(cond))),
            }
        } else if kind == TokenKind::Number {
            let times = match self.parse_expression() {
                Err(e) => return Err(e),
                Ok(t) => t,
            };
            match self.expect(TokenKind::Times) {
                Err(e) => return Err(e),
                Ok(_) => {},
            }
            Ok(LoopCondition::Times(times))
        } else if kind == TokenKind::Identifier {
            // Could be "repeat n times" or "repeat each brew in barrel"
            let first_ident = self.current_text();
            self.advance();
            // Check what comes next
            let next_kind = match self.current_kind() {
                Err(e) => return Err(e),
                Ok(k) => k,
            };
            if next_kind == TokenKind::Times {
                // "repeat n times"
                self.advance();
                Ok(LoopCondition::Times(Expression::Identifier(first_ident)))
            } else if next_kind == TokenKind::In {
                if !string_eq_str(&first_ident, "each") {
                    return Err(self.error_here(message("Expected 'each' for collection iteration")));
                }
                let advice = self.error_here(message("For iteration, use: repeat each <var> in <collection>:"));
                self.advance(); // skip 'in'
                let collection_kind = match self.current_kind() {
                    Err(e) => return Err(e),
                    Ok(k) => k,
                };
                if collection_kind != TokenKind::Identifier {
                    return Err(self.error_here(message("Expected collection name")));
                }
                self.advance();
                Err(advice)
            } else {
                Err(self.error_here(message("Expected 'times' or use 'repeat each <var> in <collection>:' for iteration")))
            }
        } else if kind == TokenKind::Each {
            // "repeat each brew in barrel:"
            self.advance(); // skip 'each'
            let var_name = match self.expect_identifier("Expected variable name after 'each'") {
                Err(e) => return Err(e),
                Ok(n) => n,
            };
            match self.expect(TokenKind::In) {
                Err(e) => return Err(e),
                Ok(_) => {},
            }
            let collection = match self.expect_identifier("Expected collection name") {
                Err(e) => return Err(e),
                Ok(n) => n,
            };
            Ok(LoopCondition::ForEach { var_name, collection })
        } else {
            Err(self.error_here(message("Expected 'until', 'each', number, or identifier after 'repeat'")))
        }
    }
}

impl Parser {
    fn parse_statement(&mut self) -> (r: Result<Statement, ParseError>)
        requires
            old(self).wf(),
        ensures
            final(self).wf(),
            final(self).tokens == old(self).tokens,
            agrees(r, parse_statement(old(self).toks(), old(self).pos as int), final(self).pos as int),
            r is Ok ==> old(self).pos < final(self).pos,
        decreases remaining(old(self).toks(), old(self).pos as int), 1nat,
    {
        self.skip_whitespace();
        let kind = match self.current_kind() {
            Err(e) => return Err(e),
            Ok(k) => k,
        };
        match kind {
            TokenKind::Brew => self.parse_brew(),
            TokenKind::Wait => self.parse_wait(),
            TokenKind::Age => self.parse_age(),
            TokenKind::Taste => self.parse_taste(),
            TokenKind::Toast => self.parse_toast(),
            TokenKind::Keg => self.parse_keg(),
            TokenKind::Mix => self.parse_mix(),
            TokenKind::Double => self.parse_double(),
            TokenKind::Dilute => self.parse_dilute(),
            TokenKind::Recipe => self.parse_recipe(),
            TokenKind::Relabel => self.parse_relabel(),
            TokenKind::Judge | TokenKind::If => self.parse_judge(),
            TokenKind::Repeat => self.parse_repeat(),
            TokenKind::For => self.parse_for_each(),
            TokenKind::Barrel => self.parse_barrel_decl(),
            TokenKind::Add => self.parse_add_to_barrel(),
            TokenKind::Remove => self.parse_remove_from_barrel(),
            TokenKind::End => {
                self.advance();
                Ok(Statement::End)
            },
            TokenKind::Identifier => {
                // Could be a function call
                let expr = match self.parse_expression() {
                    Err(e) => return Err(e),
                    Ok(e) => e,
                };
                match self.expect(TokenKind::Period) {
                    Err(e) => return Err(e),
                    Ok(_) => {},
                }
                Ok(Statement::ExprStmt(expr))
            },
            _ => {
                let message = self.describe_here("Unexpected token: ");
                Err(self.error_here(message))
            },
        }
    }

    // recipe fibonacci(n) ... end.
    fn parse_recipe(&mut self) -> (r: Result<Statement, ParseError>)
        requires
            old(self).wf(),
        ensures
            final(self).wf(),
            final(self).tokens == old(self).tokens,
            agrees(r, parse_recipe(old(self).toks(), old(self).pos as int), final(self).pos as int),
            r is Ok ==> old(self).pos < final(self).pos,
        decreases remaining(old(self).toks(), old(self).pos as int), 0nat,
    {
        let ghost ts = self.toks();
        match self.expect(TokenKind::Recipe) {
            Err(e) => return Err(e),
            Ok(_) => {},
        }
        let name = match self.expect_identifier("Expected recipe name") {
            Err(e) => return Err(e),
            Ok(n) => n,
        };
        let params = match self.parse_params() {
            Err(e) => return Err(e),
            Ok(p) => p,
        };
        self.skip_whitespace();
        // Parse body as a block until we hit 'end'
        let mut body: Vec<Statement> = Vec::new();
        let mut return_value: Option<Expression> = None;
        // Expect indent for recipe body
        if self.at_kind(TokenKind::Indent) {
            self.advance();
            self.skip_whitespace();
        }
        proof {
            crate::ast::lemma_views_empty();
        }
        let ghost target = recipe_body(ts, self.pos as int, name@, strings_view(params@), Seq::empty(), None);
        assert(target == parse_recipe(ts, old(self).pos as int));
        loop
            invariant_except_break
                recipe_body(ts, self.pos as int, name@, strings_view(params@), stmts_view(body@),
                    opt_expr_view(return_value)) == target,
            invariant
                self.wf(),
                self.tokens == old(self).tokens,
                ts == self.toks(),
                old(self).pos < self.pos,
                target == parse_recipe(ts, old(self).pos as int),
            ensures
                target == Ok::<(SpecStatement, int), SpecParseError>((
                    SpecStatement::Recipe {
                        name: name@,
                        params: strings_view(params@),
                        body: stmts_view(body@),
                        return_value: opt_expr_view(return_value),
                    },
                    self.pos as int,
                )),
                old(self).pos < self.pos,
            decreases remaining(ts, self.pos as int),
        {
            self.skip_whitespace();
            let kind = match self.current_kind() {
                Err(_) => break,
                Ok(k) => k,
            };
            if kind == TokenKind::End {
                self.advance();
                match self.expect(TokenKind::Period) {
                    Err(e) => return Err(e),
                    Ok(_) => {},
                }
                break;
            } else if kind == TokenKind::Dedent {
                self.advance();
            } else if kind == TokenKind::Identifier || kind == TokenKind::Number || kind == TokenKind::String {
                // An expression: the return value, or a statement when a period follows
                let expr = match self.parse_expression() {
                    Err(e) => return Err(e),
                    Ok(e) => e,
                };
                self.skip_whitespace();
                if self.at_kind(TokenKind::Period) {
                    // It's a statement ending with period
                    self.advance();
                    proof {
                        lemma_stmts_view_push(body@, Statement::ExprStmt(expr));
                    }
                    body.push(Statement::ExprStmt(expr));
                } else {
                    return_value = Some(expr);
                }
            } else {
                let st = match self.parse_statement() {
                    Err(e) => return Err(e),
                    Ok(s) => s,
                };
                proof {
                    lemma_stmts_view_push(body@, st);
                }
                body.push(st);
            }
        }
        Ok(Statement::Recipe { name, params, body, return_value })
    }

    // judge if lager is stronger than 5.0%: ... else: ... end.
    fn parse_judge(&mut self) -> (r: Result<Statement, ParseError>)
        requires
            old(self).wf(),
        ensures
            final(self).wf(),
            final(self).tokens == old(self).tokens,
            agrees(r, parse_judge(old(self).toks(), old(self).pos as int), final(self).pos as int),
            r is Ok ==> old(self).pos < final(self).pos,
        decreases remaining(old(self).toks(), old(self).pos as int), 0nat,
    {
        // Skip 'judge' or 'if'
        self.advance();
        // Optional 'if'
        if self.at_kind(TokenKind::If) {
            self.advance();
        }
        let condition = match self.parse_condition() {
            Err(e) => return Err(e),
            Ok(c) => c,
        };
        match self.expect(TokenKind::Colon) {
            Err(e) => return Err(e),
            Ok(_) => {},
        }
        self.skip_whitespace();
        // Parse then block
        let then_block = match self.parse_block() {
            Err(e) => return Err(e),
            Ok(b) => b,
        };
        // Check for else
        let else_block = if self.at_kind(TokenKind::Else) {
            self.advance();
            match self.expect(TokenKind::Colon) {
                Err(e) => return Err(e),
                Ok(_) => {},
            }
            self.skip_whitespace();
            match self.parse_block() {
                Err(e) => return Err(e),
                Ok(b) => Some(b),
            }
        } else {
            None
        };
        // Expect 'end.'
        match self.expect(TokenKind::End) {
            Err(e) => return Err(e),
            Ok(_) => {},
        }
        match self.expect(TokenKind::Period) {
            Err(e) => return Err(e),
            Ok(_) => {},
        }
        Ok(Statement::Judge { condition, then_block, else_block })
    }

    // repeat until/times ... end.
    fn parse_repeat(&mut self) -> (r: Result<Statement, ParseError>)
        requires
            old(self).wf(),
        ensures
            final(self).wf(),
            final(self).tokens == old(self).tokens,
            agrees(r, parse_repeat(old(self).toks(), old(self).pos as int), final(self).pos as int),
            r is Ok ==> old(self).pos < final(self).pos,
        decreases remaining(old(self).toks(), old(self).pos as int), 0nat,
    {
        match self.expect(TokenKind::Repeat) {
            Err(e) => return Err(e),
            Ok(_) => {},
        }
        let condition = match self.parse_loop_condition() {
            Err(e) => return Err(e),
            Ok(c) => c,
        };
        match self.expect(TokenKind::Colon) {
            Err(e) => return Err(e),
            Ok(_) => {},
        }
        self.skip_whitespace();
        let body = match self.parse_block() {
            Err(e) => return Err(e),
            Ok(b) => b,
        };
        // Expect 'end.'
        match self.expect(TokenKind::End) {
            Err(e) => return Err(e),
            Ok(_) => {},
        }
        match self.expect(TokenKind::Period) {
            Err(e) => return Err(e),
            Ok(_) => {},
        }
        Ok(Statement::Repeat { condition, body })
    }

    // for each brew in taplist:
    fn parse_for_each(&mut self) -> (r: Result<Statement, ParseError>)
        requires
            old(self).wf(),
        ensures
            final(self).wf(),
            final(self).tokens == old(self).tokens,
            agrees(r, parse_for_each(old(self).toks(), old(self).pos as int), final(self).pos as int),
            r is Ok ==> old(self).pos < final(self).pos,
        decreases remaining(old(self).toks(), old(self).pos as int), 0nat,
    {
        match self.expect(TokenKind::For) {
            Err(e) => return Err(e),
            Ok(_) => {},
        }
        match self.expect(TokenKind::Each) {
            Err(e) => return Err(e),
            Ok(_) => {},
        }
        let var_name = match self.expect_name_word("Expected variable name after 'each'") {
            Err(e) => return Err(e),
            Ok(n) => n,
        };
        match self.expect(TokenKind::In) {
            Err(e) => return Err(e),
            Ok(_) => {},
        }
        let collection = match self.expect_identifier("Expected collection name") {
            Err(e) => return Err(e),
            Ok(n) => n,
        };
        match self.expect(TokenKind::Colon) {
            Err(e) => return Err(e),
            Ok(_) => {},
        }
        self.skip_whitespace();
        let body = match self.parse_block() {
            Err(e) => return Err(e),
            Ok(b) => b,
        };
        Ok(Statement::Repeat { condition: LoopCondition::ForEach { var_name, collection }, body })
    }

    fn parse_block(&mut self) -> (r: Result<Vec<Statement>, ParseError>)
        requires
            old(self).wf(),
        ensures
            final(self).wf(),
            final(self).tokens == old(self).tokens,
            agrees_stmts(r, parse_block(old(self).toks(), old(self).pos as int), final(self).pos as int),
            r is Ok ==> old(self).pos <= final(self).pos,
        decreases remaining(old(self).toks(), old(self).pos as int), 3nat,
    {
        let ghost ts = self.toks();
        let mut statements: Vec<Statement> = Vec::new();
        let mut indented = false;
        // Check for indent
        if self.at_kind(TokenKind::Indent) {
            indented = true;
            self.advance();
            self.skip_whitespace();
        }
        proof {
            crate::ast::lemma_views_empty();
        }
        let ghost target = block_items(ts, self.pos as int, indented, Seq::empty());
        assert(target == parse_block(ts, old(self).pos as int));
        loop
            invariant_except_break
                block_items(ts, self.pos as int, indented, stmts_view(statements@)) == target,
            invariant
                self.wf(),
                self.tokens == old(self).tokens,
                ts == self.toks(),
                old(self).pos <= self.pos,
                indented ==> old(self).pos < self.pos,
                target == parse_block(ts, old(self).pos as int),
            ensures
                target == Ok::<(Seq<SpecStatement>, int), SpecParseError>((stmts_view(statements@), self.pos as int)),
                old(self).pos <= self.pos,
            decreases remaining(ts, self.pos as int),
        {
            self.skip_whitespace();
            let kind = match self.current_kind() {
                Err(_) => break,
                Ok(k) => k,
            };
            if kind == TokenKind::End || kind == TokenKind::Else {
                break;
            } else if kind == TokenKind::Dedent {
                self.advance();
                if indented {
                    break;
                }
            } else {
                let st = match self.parse_statement() {
                    Err(e) => return Err(e),
                    Ok(s) => s,
                };
                proof {
                    lemma_stmts_view_push(statements@, st);
                }
                statements.push(st);
            }
        }
        Ok(statements)
    }

    /// Parses the program from the current token to EOF (or the end of the
    /// tokens).
    pub fn parse(&mut self) -> (r: Result<Program, ParseError>)
        requires
            old(self).wf(),
        ensures
            final(self).wf(),
            final(self).toks() == old(self).toks(),
            match r {
                Ok(p) => parse_program(old(self).toks(), old(self).position()) == Ok::<SpecProgram, SpecParseError>(p@),
                Err(e) => parse_program(old(self).toks(), old(self).position()) == Err::<SpecProgram, SpecParseError>(e@),
            },
    {
        let ghost ts = self.toks();
        let mut statements: Vec<Statement> = Vec::new();
        self.skip_whitespace();
        proof {
            crate::ast::lemma_views_empty();
            lemma_skip_ws_idem(ts, old(self).pos as int);
        }
        let ghost target = program_items(ts, self.pos as int, Seq::empty());
        loop
            invariant_except_break
                program_items(ts, self.pos as int, stmts_view(statements@)) == target,
            invariant
                self.wf(),
                self.tokens == old(self).tokens,
                ts == self.toks(),
                ws_run(ts, self.pos as int) == 0,
                target == program_items(ts, skip_ws(ts, old(self).pos as int), Seq::empty()),
            ensures
                target == Ok::<Seq<SpecStatement>, SpecParseError>(stmts_view(statements@)),
            decreases remaining(ts, self.pos as int),
        {
            match self.current_kind() {
                Err(_) => break,
                Ok(k) => {
                    if k == TokenKind::Eof {
                        break;
                    }
                },
            }
            self.skip_whitespace();
            let st = match self.parse_statement() {
                Err(e) => return Err(e),
                Ok(s) => s,
            };
            proof {
                lemma_stmts_view_push(statements@, st);
                lemma_skip_ws_idem(ts, self.pos as int);
            }
            statements.push(st);
            self.skip_whitespace();
        }
        Ok(Program { statements })
    }
}

impl ParseError {
    /// The line a failed parse prints: `Parse error at LINE:COLUMN: MESSAGE`.
    pub fn report(&self) -> (s: String)
        ensures
            s@ == "Parse error at "@ + decimal(self.line as nat) + seq![':'] + decimal(self.column as nat)
                + ": "@ + self.message@,
    {
        let mut s = String::new();
        push_str(&mut s, "Parse error at ");
        push_decimal(&mut s, self.line);
        push_char(&mut s, ':');
        push_decimal(&mut s, self.column);
        push_str(&mut s, ": ");
        push_str(&mut s, self.message.as_str());
        s
    }
}

/// The program a source reads as: its tokens parsed from the first one.
pub open spec fn source_program(source: Seq<char>) -> Result<SpecProgram, SpecParseError> {
    parse_program(lex_all(initial_state(source)), 0)
}

/// Lexes and parses a source.  Sources of more than a quarter of
/// `usize::MAX` chars are left out.
pub fn parse_source(source: &str) -> (r: Result<Program, ParseError>)
    requires
        source@.len() * 4 <= usize::MAX,
    ensures
        match r {
            Ok(p) => source_program(source@) == Ok::<SpecProgram, SpecParseError>(p@),
            Err(e) => source_program(source@) == Err::<SpecProgram, SpecParseError>(e@),
        },
{
    let lexer = Lexer::new(source);
    let tokens = lexer.collect();
    let mut parser = Parser::new(tokens);
    parser.parse()
}


// ---- laws of the grammar ----

/// An age statement reads the same whether or not the word `abv` follows
/// its target, and with or without `is` before it: `age N until T.`,
/// `age N until T abv.`, `age N until is T.` and `age N until is T abv.` all
/// give `Age { brew_name: N, target_abv: T }`.
pub proof fn law_age_abv_optional(ts: Seq<SpecToken>, i: int, with_is: bool, with_abv: bool)
    requires
        0 <= i,
        ({
            let t = if with_is { i + 4 } else { i + 3 };
            let p = if with_abv { t + 2 } else { t + 1 };
            &&& p < ts.len()
            &&& ts[i].kind == TokenKind::Age
            &&& ts[i + 1].kind == TokenKind::Identifier
            &&& ts[i + 2].kind == TokenKind::Until
            &&& (with_is ==> ts[i + 3].kind == TokenKind::Is)
            &&& (ts[t].kind == TokenKind::Percentage || ts[t].kind == TokenKind::Number)
            &&& (with_abv ==> ts[t + 1].kind == TokenKind::Abv)
            &&& ts[p].kind == TokenKind::Period
        }),
    ensures
        ({
            let t = if with_is { i + 4 } else { i + 3 };
            let p = if with_abv { t + 2 } else { t + 1 };
            parse_age(ts, i) == Ok::<(SpecStatement, int), SpecParseError>((
                SpecStatement::Age { brew_name: ts[i + 1].text, target_abv: ts[t].text },
                p + 1,
            ))
        }),
{
}

/// The branches of a judge statement: its `then_block` is the block read
/// right after the condition's `:`, and it has an `else_block` exactly when
/// `else` follows that block, the block then being the one read after
/// `else :`.
pub proof fn law_judge_branches(ts: Seq<SpecToken>, i: int)
    ensures
        parse_judge(ts, i) matches Ok((st, _k)) ==> {
            let j = step(ts, i);
            let j2 = if at(ts, j, TokenKind::If) { j + 1 } else { j };
            &&& st matches SpecStatement::Judge { condition, then_block, else_block }
            &&& parse_condition(ts, j2) matches Ok((c, j3)) && c == condition && {
                let j5 = skip_ws(ts, j3 + 1);
                &&& at(ts, j3, TokenKind::Colon)
                &&& parse_block(ts, j5) matches Ok((tb, k)) && tb == then_block && {
                    &&& else_block is None <==> !at(ts, k, TokenKind::Else)
                    &&& else_block matches Some(eb) ==> {
                        &&& at(ts, k + 1, TokenKind::Colon)
                        &&& parse_block(ts, skip_ws(ts, k + 2)) matches Ok((b2, _m)) && b2 == eb
                    }
                }
            }
        },
{
}

/// The literal or plain name that an expression of a recipe's body is made
/// of, when it is one token long.
pub open spec fn simple_expression(t: SpecToken) -> SpecExpression {
    if t.kind == TokenKind::Number {
        SpecExpression::Number(t.text)
    } else if t.kind == TokenKind::String {
        SpecExpression::String(t.text)
    } else {
        SpecExpression::Identifier(t.text)
    }
}

/// In a recipe's body, a number, a string or a plain name that no `.`
/// follows becomes the recipe's return value (the rest of the body read
/// with it as the value so far), whichever of the three it is; followed by a
/// `.` it is a statement of the body.
pub proof fn law_recipe_return_value(
    ts: Seq<SpecToken>,
    i: int,
    name: Seq<char>,
    params: Seq<Seq<char>>,
    body: Seq<SpecStatement>,
    return_value: Option<SpecExpression>,
)
    requires
        0 <= i,
        ({
            let i1 = skip_ws(ts, i);
            &&& present(ts, i1)
            &&& (ts[i1].kind == TokenKind::Number || ts[i1].kind == TokenKind::String
                || (ts[i1].kind == TokenKind::Identifier && !at(ts, i1 + 1, TokenKind::LeftParen)
                    && !at(ts, i1 + 1, TokenKind::Position)))
        }),
    ensures
        ({
            let i1 = skip_ws(ts, i);
            let e = simple_expression(ts[i1]);
            let j2 = skip_ws(ts, i1 + 1);
            &&& !at(ts, j2, TokenKind::Period) ==> recipe_body(ts, i, name, params, body, return_value)
                == recipe_body(ts, j2, name, params, body, Some(e))
            &&& at(ts, j2, TokenKind::Period) ==> recipe_body(ts, i, name, params, body, return_value)
                == recipe_body(ts, j2 + 1, name, params, body.push(SpecStatement::ExprStmt(e)), return_value)
        }),
{
}

/// The ingredients read from a position do not depend on those read before:
/// reading after `acc` gives `acc` followed by what reading afresh gives (or
/// the same error).
pub proof fn law_ingredients_independent(ts: Seq<SpecToken>, i: int, acc: Seq<SpecIngredient>)
    ensures
        match parse_ingredients(ts, i, Seq::empty()) {
            Ok((r, k)) => parse_ingredients(ts, i, acc) == Ok::<(Seq<SpecIngredient>, int), SpecParseError>((acc + r, k)),
            Err(e) => parse_ingredients(ts, i, acc) == Err::<(Seq<SpecIngredient>, int), SpecParseError>(e),
        },
    decreases remaining(ts, i),
{
    if present(ts, i) {
        let numbered = ts[i].kind == TokenKind::Number;
        let j = if numbered { i + 1 } else { i };
        if present(ts, j) {
            if let Some(n) = ingredient_of(ts[j].kind) {
                if at(ts, j + 1, TokenKind::Comma) {
                    let quantity = if numbered { ts[i].text } else { "1"@ };
                    let first = SpecIngredient { name: n, quantity };
                    law_ingredients_independent(ts, j + 2, acc.push(first));
                    law_ingredients_independent(ts, j + 2, Seq::empty().push(first));
                    match parse_ingredients(ts, j + 2, Seq::empty()) {
                        Ok((r, k)) => {
                            assert(acc.push(first) + r =~= acc + (Seq::empty().push(first) + r));
                        },
                        Err(_) => {},
                    }
                } else {
                    assert(acc.push(SpecIngredient { name: n, quantity: if numbered { ts[i].text } else { "1"@ } })
                        =~= acc + Seq::empty().push(SpecIngredient { name: n, quantity: if numbered { ts[i].text } else { "1"@ } }));
                }
            } else {
                assert(acc + Seq::<SpecIngredient>::empty() =~= acc);
            }
        }
    }
}

/// Each ingredient gets the quantity written right before it, and `1` when
/// no number is written there, whatever came before it: when reading from a
/// position succeeds, the first ingredient read is the ingredient there with
/// the number before it, or with `1` (and, by `law_ingredients_independent`,
/// the same holds after any ingredients already read).
pub proof fn law_ingredient_quantity(ts: Seq<SpecToken>, i: int)
    requires
        0 <= i,
        present(ts, i),
    ensures
        parse_ingredients(ts, i, Seq::empty()) matches Ok((r, _k)) ==> {
            &&& ingredient_of(ts[i].kind) matches Some(n) ==>
                r.len() >= 1 && r[0] == (SpecIngredient { name: n, quantity: "1"@ })
            &&& (ts[i].kind == TokenKind::Number && present(ts, i + 1)) ==> (ingredient_of(ts[i + 1].kind) matches Some(n)
                ==> r.len() >= 1 && r[0] == (SpecIngredient { name: n, quantity: ts[i].text }))
        },
{
    let numbered = ts[i].kind == TokenKind::Number;
    let j = if numbered { i + 1 } else { i };
    if present(ts, j) {
        if let Some(n) = ingredient_of(ts[j].kind) {
            let first = SpecIngredient { name: n, quantity: if numbered { ts[i].text } else { "1"@ } };
            if at(ts, j + 1, TokenKind::Comma) {
                law_ingredients_independent(ts, j + 2, Seq::empty().push(first));
                match parse_ingredients(ts, j + 2, Seq::empty()) {
                    Ok((r, k)) => {
                        assert((Seq::empty().push(first) + r)[0] == first);
                    },
                    Err(_) => {},
                }
            }
        }
    }
}


/// A comparison reads as the condition its words say: `N is stronger than
/// T` is `StrongerThan`, `N is weaker than T` is `WeakerThan`, and with
/// `not` after `is` they are `NotStrongerThan` and `NotWeakerThan`; the
/// name is `N` and the threshold the numeral `T`.
pub proof fn law_condition_comparisons(ts: Seq<SpecToken>, i: int, negated: bool)
    requires
        0 <= i,
        ({
            let c = if negated { i + 3 } else { i + 2 };
            &&& c + 2 < ts.len()
            &&& ts[i].kind == TokenKind::Identifier
            &&& ts[i + 1].kind == TokenKind::Is
            &&& (negated ==> ts[i + 2].kind == TokenKind::Not)
            &&& (ts[c].kind == TokenKind::Stronger || ts[c].kind == TokenKind::Weaker)
            &&& ts[c + 1].kind == TokenKind::Than
            &&& (ts[c + 2].kind == TokenKind::Number || ts[c + 2].kind == TokenKind::Percentage)
        }),
    ensures
        ({
            let c = if negated { i + 3 } else { i + 2 };
            let name = ts[i].text;
            let threshold = ts[c + 2].text;
            let stronger = ts[c].kind == TokenKind::Stronger;
            parse_condition(ts, i) == Ok::<(SpecCondition, int), SpecParseError>((
                if stronger && !negated {
                    SpecCondition::StrongerThan { brew_name: name, threshold }
                } else if stronger && negated {
                    SpecCondition::NotStrongerThan { brew_name: name, threshold }
                } else if !negated {
                    SpecCondition::WeakerThan { brew_name: name, threshold }
                } else {
                    SpecCondition::NotWeakerThan { brew_name: name, threshold }
                },
                c + 3,
            ))
        }),
{
}

/// The two names of `mix A with B.`, `relabel A as B.`, `add A to B.` and
/// `remove A from B.` land in order: the first in the first field, the
/// second in the second.
pub proof fn law_pair_statements(ts: Seq<SpecToken>, i: int)
    requires
        0 <= i,
        i + 4 < ts.len(),
        ts[i + 1].kind == TokenKind::Identifier,
        ts[i + 3].kind == TokenKind::Identifier,
        ts[i + 4].kind == TokenKind::Period,
    ensures
        ({
            let a = ts[i + 1].text;
            let b = ts[i + 3].text;
            let k = ts[i].kind;
            let joiner = ts[i + 2].kind;
            &&& (k == TokenKind::Mix && joiner == TokenKind::With) ==> parse_statement(ts, i)
                == Ok::<(SpecStatement, int), SpecParseError>((SpecStatement::Mix { target: a, source: b }, i + 5))
            &&& (k == TokenKind::Relabel && joiner == TokenKind::As) ==> parse_statement(ts, i)
                == Ok::<(SpecStatement, int), SpecParseError>((SpecStatement::Relabel { from: a, to: b }, i + 5))
            &&& (k == TokenKind::Add && joiner == TokenKind::To) ==> parse_statement(ts, i)
                == Ok::<(SpecStatement, int), SpecParseError>((SpecStatement::AddToBarrel { brew_name: a, barrel_name: b }, i + 5))
            &&& (k == TokenKind::Remove && joiner == TokenKind::From) ==> parse_statement(ts, i)
                == Ok::<(SpecStatement, int), SpecParseError>((SpecStatement::RemoveFromBarrel { brew_name: a, barrel_name: b }, i + 5))
        }),
{
    if ts[i].kind != TokenKind::Newline && ts[i].kind != TokenKind::Comment {
        assert(skip_ws(ts, i) == i);
    }
}

/// `double N by F.` and `dilute N by F.` name the brew `N` and the factor
/// `F` (here a number), each statement its own kind.
pub proof fn law_scaling_statements(ts: Seq<SpecToken>, i: int)
    requires
        0 <= i,
        i + 4 < ts.len(),
        ts[i + 1].kind == TokenKind::Identifier,
        ts[i + 2].kind == TokenKind::By,
        ts[i + 3].kind == TokenKind::Number,
        ts[i + 4].kind == TokenKind::Period,
    ensures
        ({
            let n = ts[i + 1].text;
            let f = SpecExpression::Number(ts[i + 3].text);
            &&& ts[i].kind == TokenKind::Double ==> parse_statement(ts, i)
                == Ok::<(SpecStatement, int), SpecParseError>((SpecStatement::Double { brew_name: n, factor: f }, i + 5))
            &&& ts[i].kind == TokenKind::Dilute ==> parse_statement(ts, i)
                == Ok::<(SpecStatement, int), SpecParseError>((SpecStatement::Dilute { brew_name: n, factor: f }, i + 5))
        }),
{
    if ts[i].kind != TokenKind::Newline && ts[i].kind != TokenKind::Comment {
        assert(skip_ws(ts, i) == i);
    }
}

/// `wait for D.`, `wait for D day.` and `wait for D days.` all wait for `D`
/// (here a number).
pub proof fn law_wait_unit_optional(ts: Seq<SpecToken>, i: int, with_unit: bool)
    requires
        0 <= i,
        ({
            let p = if with_unit { i + 4 } else { i + 3 };
            &&& p < ts.len()
            &&& ts[i].kind == TokenKind::Wait
            &&& ts[i + 1].kind == TokenKind::For
            &&& ts[i + 2].kind == TokenKind::Number
            &&& (with_unit ==> (ts[i + 3].kind == TokenKind::Day || ts[i + 3].kind == TokenKind::Days))
            &&& ts[p].kind == TokenKind::Period
        }),
    ensures
        ({
            let p = if with_unit { i + 4 } else { i + 3 };
            parse_wait(ts, i) == Ok::<(SpecStatement, int), SpecParseError>((
                SpecStatement::Wait { days: SpecExpression::Number(ts[i + 2].text) },
                p + 1,
            ))
        }),
{
}


/// The expressions of a list do not depend on those read before: reading
/// after `acc` gives `acc` followed by what reading afresh gives (or the
/// same error).
pub proof fn law_expression_list_independent(ts: Seq<SpecToken>, i: int, acc: Seq<SpecExpression>)
    ensures
        match expression_list(ts, i, Seq::empty()) {
            Ok((r, k)) => expression_list(ts, i, acc) == Ok::<(Seq<SpecExpression>, int), SpecParseError>((acc + r, k)),
            Err(e) => expression_list(ts, i, acc) == Err::<(Seq<SpecExpression>, int), SpecParseError>(e),
        },
    decreases remaining(ts, i),
{
    match parse_expression(ts, i) {
        Ok((e, j)) => if progressed(ts, i, j) && at(ts, j, TokenKind::Comma) {
            law_expression_list_independent(ts, j + 1, acc.push(e));
            law_expression_list_independent(ts, j + 1, Seq::empty().push(e));
            match expression_list(ts, j + 1, Seq::empty()) {
                Ok((r, k)) => {
                    assert(acc.push(e) + r =~= acc + (Seq::empty().push(e) + r));
                },
                Err(_) => {},
            }
        } else if progressed(ts, i, j) {
            assert(acc.push(e) =~= acc + Seq::empty().push(e));
        },
        Err(_) => {},
    }
}

/// A list of expressions is read in order: its first element is the
/// expression read where the list starts, and the rest is the list read
/// after the comma that follows it.
pub proof fn law_expression_list_order(ts: Seq<SpecToken>, i: int)
    ensures
        expression_list(ts, i, Seq::empty()) matches Ok((r, _k)) ==> {
            &&& parse_expression(ts, i) matches Ok((e, j)) && r.len() >= 1 && r[0] == e && {
                &&& at(ts, j, TokenKind::Comma) ==> (expression_list(ts, j + 1, Seq::empty()) matches Ok((rest, _k2))
                    && r == seq![e] + rest)
                &&& !at(ts, j, TokenKind::Comma) ==> r == seq![e]
            }
        },
{
    match parse_expression(ts, i) {
        Ok((e, j)) => if progressed(ts, i, j) && at(ts, j, TokenKind::Comma) {
            law_expression_list_independent(ts, j + 1, Seq::empty().push(e));
            assert(Seq::<SpecExpression>::empty().push(e) =~= seq![e]);
        } else if progressed(ts, i, j) {
            assert(Seq::<SpecExpression>::empty().push(e) =~= seq![e]);
        },
        Err(_) => {},
    }
}

/// The parameters of a recipe do not depend on those read before.
pub proof fn law_param_list_independent(ts: Seq<SpecToken>, i: int, acc: Seq<Seq<char>>)
    ensures
        match param_list(ts, i, Seq::empty()) {
            Ok((r, k)) => param_list(ts, i, acc) == Ok::<(Seq<Seq<char>>, int), SpecParseError>((acc + r, k)),
            Err(e) => param_list(ts, i, acc) == Err::<(Seq<Seq<char>>, int), SpecParseError>(e),
        },
    decreases remaining(ts, i),
{
    if present(ts, i) && ts[i].kind == TokenKind::Identifier {
        let x = ts[i].text;
        let next = if at(ts, i + 1, TokenKind::Comma) { i + 2 } else { i + 1 };
        if at(ts, i + 1, TokenKind::RightParen) && !at(ts, i + 1, TokenKind::Comma) {
            assert(acc.push(x) =~= acc + Seq::empty().push(x));
        } else {
            law_param_list_independent(ts, next, acc.push(x));
            law_param_list_independent(ts, next, Seq::empty().push(x));
            match param_list(ts, next, Seq::empty()) {
                Ok((r, k)) => {
                    assert(acc.push(x) + r =~= acc + (Seq::empty().push(x) + r));
                },
                Err(_) => {},
            }
        }
    }
}

/// Parameters are read in order: the first is the identifier where the list
/// starts.
pub proof fn law_param_list_order(ts: Seq<SpecToken>, i: int)
    ensures
        param_list(ts, i, Seq::empty()) matches Ok((r, _k)) ==> present(ts, i) && ts[i].kind == TokenKind::Identifier
            && r.len() >= 1 && r[0] == ts[i].text,
{
    if present(ts, i) && ts[i].kind == TokenKind::Identifier {
        let x = ts[i].text;
        let next = if at(ts, i + 1, TokenKind::Comma) { i + 2 } else { i + 1 };
        if !(at(ts, i + 1, TokenKind::RightParen) && !at(ts, i + 1, TokenKind::Comma)) {
            law_param_list_independent(ts, next, Seq::empty().push(x));
        }
    }
}

/// The statements of a block do not depend on those read before.
pub proof fn law_block_items_independent(ts: Seq<SpecToken>, i: int, indented: bool, acc: Seq<SpecStatement>)
    ensures
        match block_items(ts, i, indented, Seq::empty()) {
            Ok((r, k)) => block_items(ts, i, indented, acc) == Ok::<(Seq<SpecStatement>, int), SpecParseError>((acc + r, k)),
            Err(e) => block_items(ts, i, indented, acc) == Err::<(Seq<SpecStatement>, int), SpecParseError>(e),
        },
    decreases remaining(ts, i),
{
    let i1 = skip_ws(ts, i);
    lemma_skip_ws_bounds(ts, i);
    if !present(ts, i1) {
        assert(acc + Seq::<SpecStatement>::empty() =~= acc);
    } else {
        let k = ts[i1].kind;
        if k == TokenKind::End || k == TokenKind::Else {
            assert(acc + Seq::<SpecStatement>::empty() =~= acc);
        } else if k == TokenKind::Dedent {
            if indented {
                assert(acc + Seq::<SpecStatement>::empty() =~= acc);
            } else {
                law_block_items_independent(ts, i1 + 1, indented, acc);
            }
        } else {
            match parse_statement(ts, i1) {
                Ok((st, j)) => if progressed(ts, i1, j) {
                    law_block_items_independent(ts, j, indented, acc.push(st));
                    law_block_items_independent(ts, j, indented, Seq::empty().push(st));
                    match block_items(ts, j, indented, Seq::empty()) {
                        Ok((r, k2)) => {
                            assert(acc.push(st) + r =~= acc + (Seq::empty().push(st) + r));
                        },
                        Err(_) => {},
                    }
                },
                Err(_) => {},
            }
        }
    }
}

/// The statements of a program do not depend on those read before.
pub proof fn law_program_items_independent(ts: Seq<SpecToken>, i: int, acc: Seq<SpecStatement>)
    ensures
        match program_items(ts, i, Seq::empty()) {
            Ok(r) => program_items(ts, i, acc) == Ok::<Seq<SpecStatement>, SpecParseError>(acc + r),
            Err(e) => program_items(ts, i, acc) == Err::<Seq<SpecStatement>, SpecParseError>(e),
        },
    decreases remaining(ts, i),
{
    if !present(ts, i) || ts[i].kind == TokenKind::Eof {
        assert(acc + Seq::<SpecStatement>::empty() =~= acc);
    } else {
        match parse_statement(ts, i) {
            Ok((st, j)) => if progressed(ts, i, j) {
                let j1 = skip_ws(ts, j);
                lemma_skip_ws_bounds(ts, j);
                law_program_items_independent(ts, j1, acc.push(st));
                law_program_items_independent(ts, j1, Seq::empty().push(st));
                match program_items(ts, j1, Seq::empty()) {
                    Ok(r) => {
                        assert(acc.push(st) + r =~= acc + (Seq::empty().push(st) + r));
                    },
                    Err(_) => {},
                }
            },
            Err(_) => {},
        }
    }
}

/// A program is its statements in order: the first is the statement read
/// where the program starts (after blank lines and comments), the rest the
/// program read after it.
pub proof fn law_program_order(ts: Seq<SpecToken>)
    ensures
        ({
            let i = skip_ws(ts, 0);
            parse_program(ts, 0) matches Ok(p) ==> (p.statements.len() > 0 ==> {
                &&& parse_statement(ts, i) matches Ok((st, j))
                &&& p.statements[0] == st
                &&& program_items(ts, skip_ws(ts, j), Seq::empty()) matches Ok(rest)
                &&& p.statements == seq![st] + rest
            })
        }),
{
    let i = skip_ws(ts, 0);
    if present(ts, i) && ts[i].kind != TokenKind::Eof {
        match parse_statement(ts, i) {
            Ok((st, j)) => if progressed(ts, i, j) {
                let j1 = skip_ws(ts, j);
                lemma_skip_ws_bounds(ts, j);
                law_program_items_independent(ts, j1, Seq::empty().push(st));
                assert(Seq::<SpecStatement>::empty().push(st) =~= seq![st]);
            },
            Err(_) => {},
        }
    }
}

/// The heads of the loops: `repeat N times` with a number or a name counts
/// `N`, `repeat each V in C` runs over the barrel `C` with the variable
/// `V`, and `repeat until C` stops on the condition `C`.
pub proof fn law_loop_conditions(ts: Seq<SpecToken>, i: int)
    requires
        0 <= i,
        i + 1 < ts.len(),
    ensures
        (ts[i].kind == TokenKind::Number && ts[i + 1].kind == TokenKind::Times) ==> parse_loop_condition(ts, i)
            == Ok::<(SpecLoopCondition, int), SpecParseError>((SpecLoopCondition::Times(SpecExpression::Number(ts[i].text)), i + 2)),
        (ts[i].kind == TokenKind::Identifier && ts[i + 1].kind == TokenKind::Times) ==> parse_loop_condition(ts, i)
            == Ok::<(SpecLoopCondition, int), SpecParseError>((SpecLoopCondition::Times(SpecExpression::Identifier(ts[i].text)), i + 2)),
        (i + 3 < ts.len() && ts[i].kind == TokenKind::Each && ts[i + 1].kind == TokenKind::Identifier
            && ts[i + 2].kind == TokenKind::In && ts[i + 3].kind == TokenKind::Identifier) ==> parse_loop_condition(ts, i)
            == Ok::<(SpecLoopCondition, int), SpecParseError>((
                SpecLoopCondition::ForEach { var_name: ts[i + 1].text, collection: ts[i + 3].text },
                i + 4,
            )),
        ts[i].kind == TokenKind::Until ==> (parse_condition(ts, i + 1) matches Ok((c, j)) ==> parse_loop_condition(ts, i)
            == Ok::<(SpecLoopCondition, int), SpecParseError>((SpecLoopCondition::Until(Box::new(c)), j))),
{
}

/// The bodies of the loops: a `repeat` loop's body is the block read after
/// its head's `:`, followed by `end .`; a `for each` loop's body is the block
/// read after its `:`, and its head names the variable and the barrel.
pub proof fn law_loop_bodies(ts: Seq<SpecToken>, i: int)
    ensures
        parse_repeat(ts, i) matches Ok((st, k)) ==> {
            &&& parse_loop_condition(ts, i + 1) matches Ok((c, j))
            &&& at(ts, j, TokenKind::Colon)
            &&& parse_block(ts, skip_ws(ts, j + 1)) matches Ok((b, m))
            &&& st == (SpecStatement::Repeat { condition: c, body: b })
            &&& at(ts, m, TokenKind::End)
            &&& at(ts, m + 1, TokenKind::Period)
            &&& k == m + 2
        },
        parse_for_each(ts, i) matches Ok((st, k)) ==> {
            &&& at(ts, i, TokenKind::For) && at(ts, i + 1, TokenKind::Each)
            &&& name_word(ts, i + 2, "Expected variable name after 'each'"@) matches Ok((v, _j))
            &&& ident(ts, i + 4, "Expected collection name"@) matches Ok((c, _j2))
            &&& at(ts, i + 5, TokenKind::Colon)
            &&& parse_block(ts, skip_ws(ts, i + 6)) matches Ok((b, m))
            &&& st == (SpecStatement::Repeat { condition: SpecLoopCondition::ForEach { var_name: v, collection: c }, body: b })
            &&& k == m
        },
{
}


/// The forms of an expression: a number, a string or a plain name stands
/// for itself; a name followed by `(` is a call of that name with the
/// arguments read after the `(` (up to the `)`); a name followed by
/// `position` reads the barrel of that name at the expression after it.
pub proof fn law_expression_forms(ts: Seq<SpecToken>, i: int)
    requires
        0 <= i < ts.len(),
    ensures
        ts[i].kind == TokenKind::Number ==> parse_expression(ts, i)
            == Ok::<(SpecExpression, int), SpecParseError>((SpecExpression::Number(ts[i].text), i + 1)),
        ts[i].kind == TokenKind::String ==> parse_expression(ts, i)
            == Ok::<(SpecExpression, int), SpecParseError>((SpecExpression::String(ts[i].text), i + 1)),
        (ts[i].kind == TokenKind::Identifier && !at(ts, i + 1, TokenKind::LeftParen) && !at(ts, i + 1, TokenKind::Position))
            ==> parse_expression(ts, i)
            == Ok::<(SpecExpression, int), SpecParseError>((SpecExpression::Identifier(ts[i].text), i + 1)),
        (ts[i].kind == TokenKind::Identifier && at(ts, i + 1, TokenKind::LeftParen)) ==> (parse_args(ts, i + 2) matches Ok((args, k))
            ==> (at(ts, k, TokenKind::RightParen) ==> parse_expression(ts, i)
                == Ok::<(SpecExpression, int), SpecParseError>((SpecExpression::FunctionCall { name: ts[i].text, args }, k + 1)))),
        (ts[i].kind == TokenKind::Identifier && at(ts, i + 1, TokenKind::Position)) ==> (parse_expression(ts, i + 2) matches Ok((index, k))
            ==> parse_expression(ts, i)
                == Ok::<(SpecExpression, int), SpecParseError>((
                    SpecExpression::BarrelAccess { barrel_name: ts[i].text, index: Box::new(index) },
                    k,
                ))),
{
}

/// The forms of a `brew` statement: `brew N from I.` brews `N` from the
/// ingredients `I` read after `from`; `brew N = E.` gives `N` the value of
/// the expression `E`.
pub proof fn law_brew_forms(ts: Seq<SpecToken>, i: int)
    requires
        0 <= i,
        i + 2 < ts.len(),
        ts[i].kind == TokenKind::Brew,
        ts[i + 1].kind == TokenKind::Identifier,
    ensures
        ts[i + 2].kind == TokenKind::From ==> (parse_ingredients(ts, i + 3, Seq::empty()) matches Ok((ings, k))
            ==> (at(ts, k, TokenKind::Period) ==> parse_brew(ts, i)
                == Ok::<(SpecStatement, int), SpecParseError>((SpecStatement::Brew { name: ts[i + 1].text, ingredients: ings }, k + 1)))),
        ts[i + 2].kind == TokenKind::Equal ==> (parse_expression(ts, i + 3) matches Ok((e, k))
            ==> (at(ts, k, TokenKind::Period) ==> parse_brew(ts, i)
                == Ok::<(SpecStatement, int), SpecParseError>((SpecStatement::Assign { name: ts[i + 1].text, value: e }, k + 1)))),
{
}

/// `barrel B = [E, ...].` declares the barrel `B` holding the expressions
/// of the list, in order; `barrel B = [].` an empty one.
pub proof fn law_barrel_declaration(ts: Seq<SpecToken>, i: int)
    requires
        0 <= i,
        i + 4 < ts.len(),
        ts[i].kind == TokenKind::Barrel,
        ts[i + 1].kind == TokenKind::Identifier,
        ts[i + 2].kind == TokenKind::Equal,
        ts[i + 3].kind == TokenKind::LeftBracket,
    ensures
        ts[i + 4].kind == TokenKind::RightBracket ==> (at(ts, i + 5, TokenKind::Period) ==> parse_barrel_decl(ts, i)
            == Ok::<(SpecStatement, int), SpecParseError>((SpecStatement::BarrelDecl { name: ts[i + 1].text, elements: Seq::empty() }, i + 6))),
        ts[i + 4].kind != TokenKind::RightBracket ==> (expression_list(ts, i + 4, Seq::empty()) matches Ok((es, k))
            ==> ((at(ts, k, TokenKind::RightBracket) && at(ts, k + 1, TokenKind::Period)) ==> parse_barrel_decl(ts, i)
                == Ok::<(SpecStatement, int), SpecParseError>((SpecStatement::BarrelDecl { name: ts[i + 1].text, elements: es }, k + 2)))),
{
}

/// `taste N.` and `keg N.` name the brew `N`; `toast E.` toasts the value
/// of the expression `E`.
pub proof fn law_single_name_statements(ts: Seq<SpecToken>, i: int)
    requires
        0 <= i,
        i + 2 < ts.len(),
    ensures
        (ts[i].kind == TokenKind::Taste && ts[i + 1].kind == TokenKind::Identifier && ts[i + 2].kind == TokenKind::Period)
            ==> parse_taste(ts, i) == Ok::<(SpecStatement, int), SpecParseError>((SpecStatement::Taste { brew_name: ts[i + 1].text }, i + 3)),
        (ts[i].kind == TokenKind::Keg && ts[i + 1].kind == TokenKind::Identifier && ts[i + 2].kind == TokenKind::Period)
            ==> parse_keg(ts, i) == Ok::<(SpecStatement, int), SpecParseError>((SpecStatement::Keg { brew_name: ts[i + 1].text }, i + 3)),
        ts[i].kind == TokenKind::Toast ==> (parse_expression(ts, i + 1) matches Ok((e, k)) ==> (at(ts, k, TokenKind::Period)
            ==> parse_toast(ts, i) == Ok::<(SpecStatement, int), SpecParseError>((SpecStatement::Toast { value: e }, k + 1)))),
{
}

/// A recipe is named by the identifier after `recipe` and takes the
/// parameters read after it, in order.
pub proof fn law_recipe_head(ts: Seq<SpecToken>, i: int)
    requires
        0 <= i,
        i + 1 < ts.len(),
        ts[i].kind == TokenKind::Recipe,
        ts[i + 1].kind == TokenKind::Identifier,
    ensures
        parse_recipe(ts, i) matches Ok((st, _k)) ==> {
            &&& st matches SpecStatement::Recipe { name, params, .. }
            &&& name == ts[i + 1].text
            &&& parse_params(ts, i + 2) matches Ok((ps, _j))
            &&& params == ps
        },
{
    match parse_params(ts, i + 2) {
        Ok((params, j3)) => {
            let j4 = skip_ws(ts, j3);
            let j5 = if at(ts, j4, TokenKind::Indent) { skip_ws(ts, j4 + 1) } else { j4 };
            if progressed(ts, i, j5) {
                lemma_recipe_body_keeps_head(ts, j5, ts[i + 1].text, params, Seq::empty(), None);
            }
        },
        Err(_) => {},
    }
}

/// Reading a recipe's body keeps its name and parameters.
proof fn lemma_recipe_body_keeps_head(
    ts: Seq<SpecToken>,
    i: int,
    name: Seq<char>,
    params: Seq<Seq<char>>,
    body: Seq<SpecStatement>,
    return_value: Option<SpecExpression>,
)
    ensures
        recipe_body(ts, i, name, params, body, return_value) matches Ok((st, _k)) ==> (st matches SpecStatement::Recipe {
            name: n,
            params: p,
            ..
        } && n == name && p == params),
    decreases remaining(ts, i),
{
    let i1 = skip_ws(ts, i);
    lemma_skip_ws_bounds(ts, i);
    if present(ts, i1) {
        let k = ts[i1].kind;
        if k == TokenKind::End {
        } else if k == TokenKind::Dedent {
            lemma_recipe_body_keeps_head(ts, i1 + 1, name, params, body, return_value);
        } else if k == TokenKind::Identifier || k == TokenKind::Number || k == TokenKind::String {
            match parse_expression(ts, i1) {
                Ok((expr, j)) => if progressed(ts, i1, j) {
                    let j2 = skip_ws(ts, j);
                    lemma_skip_ws_bounds(ts, j);
                    if at(ts, j2, TokenKind::Period) {
                        lemma_recipe_body_keeps_head(ts, j2 + 1, name, params, body.push(SpecStatement::ExprStmt(expr)), return_value);
                    } else {
                        lemma_recipe_body_keeps_head(ts, j2, name, params, body, Some(expr));
                    }
                },
                Err(_) => {},
            }
        } else {
            match parse_statement(ts, i1) {
                Ok((st, j)) => if progressed(ts, i1, j) {
                    lemma_recipe_body_keeps_head(ts, j, name, params, body.push(st), return_value);
                },
                Err(_) => {},
            }
        }
    }
}

} // verus!
