//! Abstract Syntax Tree definitions for alescript.
//!
//! Every number keeps the decimal numeral it was written with; a name or a
//! string literal keeps its text.  Each tree type has a view, a mirror type
//! over `Seq` in which the parser's specification is written.
use vstd::prelude::*;

verus! {

#[derive(Debug, PartialEq)]
pub struct Program {
    pub statements: Vec<Statement>,
}

#[derive(Debug, PartialEq)]
pub enum Statement {
    // Brew declaration: brew lager from water, 1 barley, 2 hops, 1 yeast.
    Brew { name: String, ingredients: Vec<Ingredient> },
    // Brew bound to a value: brew selected = taplist position 1.
    Assign { name: String, value: Expression },
    // Wait statement: wait for 5 days.
    Wait { days: Expression },
    // Age statement: age lager until 5.2%.
    Age { brew_name: String, target_abv: String },
    // Taste statement: taste lager.
    Taste { brew_name: String },
    // Toast statement: toast "hello, world!".
    Toast { value: Expression },
    // Keg statement: keg lager.
    Keg { brew_name: String },
    // Mix statement: mix lager with stout.
    Mix { target: String, source: String },
    // Double statement: double porter by 3.
    Double { brew_name: String, factor: Expression },
    // Dilute statement: dilute ipa by 2.
    Dilute { brew_name: String, factor: Expression },
    // Recipe declaration (function)
    Recipe {
        name: String,
        params: Vec<String>,
        body: Vec<Statement>,
        return_value: Option<Expression>,
    },
    // Relabel statement (assignment): relabel temp as a.
    Relabel { from: String, to: String },
    // Judge/If conditional
    Judge { condition: Condition, then_block: Vec<Statement>, else_block: Option<Vec<Statement>> },
    // Repeat loop
    Repeat { condition: LoopCondition, body: Vec<Statement> },
    // Barrel declaration: barrel taplist = [lager, stout].
    BarrelDecl { name: String, elements: Vec<Expression> },
    // Add to barrel: add lager to taplist.
    AddToBarrel { brew_name: String, barrel_name: String },
    // Remove from barrel: remove lager from taplist.
    RemoveFromBarrel { brew_name: String, barrel_name: String },
    // Expression statement (for function calls that don't need to be assigned)
    ExprStmt(Expression),
    // End marker
    End,
}

#[derive(Debug, PartialEq)]
pub enum Expression {
    // Number literal
    Number(String),
    // String literal
    String(String),
    // Variable reference (brew name or identifier)
    Identifier(String),
    // Function call
    FunctionCall { name: String, args: Vec<Expression> },
    // Barrel access: taplist position 1.
    BarrelAccess { barrel_name: String, index: Box<Expression> },
}

#[derive(Debug, Clone, PartialEq)]
pub struct Ingredient {
    pub name: IngredientType,
    pub quantity: String,  // Default is 1
}

#[derive(Debug, Clone, Copy, PartialEq, Eq, Structural)]
pub enum IngredientType {
    Water,
    Barley,
    Hops,
    Yeast,
}

#[derive(Debug, Clone, PartialEq)]
pub enum Condition {
    // lager is stronger than 5.0%
    StrongerThan { brew_name: String, threshold: String },
    // lager is weaker than 5.0%
    WeakerThan { brew_name: String, threshold: String },
    // lager is not weaker than 5.0% (equivalent to stronger or equal)
    NotWeakerThan { brew_name: String, threshold: String },
    // lager is not stronger than 5.0% (equivalent to weaker or equal)
    NotStrongerThan { brew_name: String, threshold: String },
    // Simple identifier comparison: if n is 0
    IsZero { name: String },
    // Negation: if n is not 0
    IsNotZero { name: String },
    // Comparison with a nonzero number or a percentage: if n is 5
    Equals { brew_name: String, threshold: String },
    // Its negation: if n is not 5
    NotEquals { brew_name: String, threshold: String },
}

#[derive(Debug, PartialEq)]
pub enum LoopCondition {
    // repeat until lager is not weaker than 5.0%
    Until(Box<Condition>),
    // repeat n times
    Times(Expression),
    // for brew in taplist
    ForEach { var_name: String, collection: String },
}

impl IngredientType {
    /// How much an ingredient adds to a brew's daily growth, in half
    /// percentage points: water nothing, barley 1%, hops 0.5%, yeast 1.5%.
    pub fn growth_half_points(&self) -> (h: u32)
        ensures
            h == growth_half_points(*self),
    {
        match self {
            IngredientType::Water => 0,
            IngredientType::Barley => 2,
            IngredientType::Hops => 1,
            IngredientType::Yeast => 3,
        }
    }
}

pub open spec fn growth_half_points(t: IngredientType) -> nat {
    match t {
        IngredientType::Water => 0,
        IngredientType::Barley => 2,
        IngredientType::Hops => 1,
        IngredientType::Yeast => 3,
    }
}

// ---- the views ----

pub struct SpecProgram {
    pub statements: Seq<SpecStatement>,
}

pub enum SpecStatement {
    Brew { name: Seq<char>, ingredients: Seq<SpecIngredient> },
    Assign { name: Seq<char>, value: SpecExpression },
    Wait { days: SpecExpression },
    Age { brew_name: Seq<char>, target_abv: Seq<char> },
    Taste { brew_name: Seq<char> },
    Toast { value: SpecExpression },
    Keg { brew_name: Seq<char> },
    Mix { target: Seq<char>, source: Seq<char> },
    Double { brew_name: Seq<char>, factor: SpecExpression },
    Dilute { brew_name: Seq<char>, factor: SpecExpression },
    Recipe {
        name: Seq<char>,
        params: Seq<Seq<char>>,
        body: Seq<SpecStatement>,
        return_value: Option<SpecExpression>,
    },
    Relabel { from: Seq<char>, to: Seq<char> },
    Judge {
        condition: SpecCondition,
        then_block: Seq<SpecStatement>,
        else_block: Option<Seq<SpecStatement>>,
    },
    Repeat { condition: SpecLoopCondition, body: Seq<SpecStatement> },
    BarrelDecl { name: Seq<char>, elements: Seq<SpecExpression> },
    AddToBarrel { brew_name: Seq<char>, barrel_name: Seq<char> },
    RemoveFromBarrel { brew_name: Seq<char>, barrel_name: Seq<char> },
    ExprStmt(SpecExpression),
    End,
}

pub enum SpecExpression {
    Number(Seq<char>),
    String(Seq<char>),
    Identifier(Seq<char>),
    FunctionCall { name: Seq<char>, args: Seq<SpecExpression> },
    BarrelAccess { barrel_name: Seq<char>, index: Box<SpecExpression> },
}

pub struct SpecIngredient {
    pub name: IngredientType,
    pub quantity: Seq<char>,
}

pub enum SpecCondition {
    StrongerThan { brew_name: Seq<char>, threshold: Seq<char> },
    WeakerThan { brew_name: Seq<char>, threshold: Seq<char> },
    NotWeakerThan { brew_name: Seq<char>, threshold: Seq<char> },
    NotStrongerThan { brew_name: Seq<char>, threshold: Seq<char> },
    IsZero { name: Seq<char> },
    IsNotZero { name: Seq<char> },
    Equals { brew_name: Seq<char>, threshold: Seq<char> },
    NotEquals { brew_name: Seq<char>, threshold: Seq<char> },
}

pub enum SpecLoopCondition {
    Until(Box<SpecCondition>),
    Times(SpecExpression),
    ForEach { var_name: Seq<char>, collection: Seq<char> },
}

pub open spec fn expr_view(e: Expression) -> SpecExpression
    decreases e,
{
    match e {
        Expression::Number(n) => SpecExpression::Number(n@),
        Expression::String(s) => SpecExpression::String(s@),
        Expression::Identifier(s) => SpecExpression::Identifier(s@),
        Expression::FunctionCall { name, args } => SpecExpression::FunctionCall {
            name: name@,
            args: exprs_view(args@),
        },
        Expression::BarrelAccess { barrel_name, index } => SpecExpression::BarrelAccess {
            barrel_name: barrel_name@,
            index: Box::new(expr_view(*index)),
        },
    }
}

pub open spec fn exprs_view(es: Seq<Expression>) -> Seq<SpecExpression>
    decreases es,
{
    if es.len() == 0 {
        Seq::empty()
    } else {
        seq![expr_view(es[0])] + exprs_view(es.subrange(1, es.len() as int))
    }
}

pub open spec fn strings_view(ss: Seq<String>) -> Seq<Seq<char>> {
    ss.map_values(|s: String| s@)
}

pub open spec fn ingredients_view(is: Seq<Ingredient>) -> Seq<SpecIngredient> {
    is.map_values(|i: Ingredient| SpecIngredient { name: i.name, quantity: i.quantity@ })
}

pub open spec fn condition_view(c: Condition) -> SpecCondition {
    match c {
        Condition::StrongerThan { brew_name, threshold } =>
            SpecCondition::StrongerThan { brew_name: brew_name@, threshold: threshold@ },
        Condition::WeakerThan { brew_name, threshold } =>
            SpecCondition::WeakerThan { brew_name: brew_name@, threshold: threshold@ },
        Condition::NotWeakerThan { brew_name, threshold } =>
            SpecCondition::NotWeakerThan { brew_name: brew_name@, threshold: threshold@ },
        Condition::NotStrongerThan { brew_name, threshold } =>
            SpecCondition::NotStrongerThan { brew_name: brew_name@, threshold: threshold@ },
        Condition::IsZero { name } => SpecCondition::IsZero { name: name@ },
        Condition::IsNotZero { name } => SpecCondition::IsNotZero { name: name@ },
        Condition::Equals { brew_name, threshold } =>
            SpecCondition::Equals { brew_name: brew_name@, threshold: threshold@ },
        Condition::NotEquals { brew_name, threshold } =>
            SpecCondition::NotEquals { brew_name: brew_name@, threshold: threshold@ },
    }
}

pub open spec fn loop_condition_view(c: LoopCondition) -> SpecLoopCondition {
    match c {
        LoopCondition::Until(b) => SpecLoopCondition::Until(Box::new(condition_view(*b))),
        LoopCondition::Times(e) => SpecLoopCondition::Times(expr_view(e)),
        LoopCondition::ForEach { var_name, collection } =>
            SpecLoopCondition::ForEach { var_name: var_name@, collection: collection@ },
    }
}

pub open spec fn stmt_view(s: Statement) -> SpecStatement
    decreases s,
{
    match s {
        Statement::Brew { name, ingredients } =>
            SpecStatement::Brew { name: name@, ingredients: ingredients_view(ingredients@) },
        Statement::Assign { name, value } => SpecStatement::Assign { name: name@, value: expr_view(value) },
        Statement::Wait { days } => SpecStatement::Wait { days: expr_view(days) },
        Statement::Age { brew_name, target_abv } =>
            SpecStatement::Age { brew_name: brew_name@, target_abv: target_abv@ },
        Statement::Taste { brew_name } => SpecStatement::Taste { brew_name: brew_name@ },
        Statement::Toast { value } => SpecStatement::Toast { value: expr_view(value) },
        Statement::Keg { brew_name } => SpecStatement::Keg { brew_name: brew_name@ },
        Statement::Mix { target, source } => SpecStatement::Mix { target: target@, source: source@ },
        Statement::Double { brew_name, factor } =>
            SpecStatement::Double { brew_name: brew_name@, factor: expr_view(factor) },
        Statement::Dilute { brew_name, factor } =>
            SpecStatement::Dilute { brew_name: brew_name@, factor: expr_view(factor) },
        Statement::Recipe { name, params, body, return_value } => SpecStatement::Recipe {
            name: name@,
            params: strings_view(params@),
            body: stmts_view(body@),
            return_value: match return_value {
                Some(e) => Some(expr_view(e)),
                None => None,
            },
        },
        Statement::Relabel { from, to } => SpecStatement::Relabel { from: from@, to: to@ },
        Statement::Judge { condition, then_block, else_block } => SpecStatement::Judge {
            condition: condition_view(condition),
            then_block: stmts_view(then_block@),
            else_block: match else_block {
                Some(b) => Some(stmts_view(b@)),
                None => None,
            },
        },
        Statement::Repeat { condition, body } =>
            SpecStatement::Repeat { condition: loop_condition_view(condition), body: stmts_view(body@) },
        Statement::BarrelDecl { name, elements } =>
            SpecStatement::BarrelDecl { name: name@, elements: exprs_view(elements@) },
        Statement::AddToBarrel { brew_name, barrel_name } =>
            SpecStatement::AddToBarrel { brew_name: brew_name@, barrel_name: barrel_name@ },
        Statement::RemoveFromBarrel { brew_name, barrel_name } =>
            SpecStatement::RemoveFromBarrel { brew_name: brew_name@, barrel_name: barrel_name@ },
        Statement::ExprStmt(e) => SpecStatement::ExprStmt(expr_view(e)),
        Statement::End => SpecStatement::End,
    }
}

pub open spec fn stmts_view(ss: Seq<Statement>) -> Seq<SpecStatement>
    decreases ss,
{
    if ss.len() == 0 {
        Seq::empty()
    } else {
        seq![stmt_view(ss[0])] + stmts_view(ss.subrange(1, ss.len() as int))
    }
}

impl View for Expression {
    type V = SpecExpression;

    open spec fn view(&self) -> SpecExpression {
        expr_view(*self)
    }
}

impl View for Statement {
    type V = SpecStatement;

    open spec fn view(&self) -> SpecStatement {
        stmt_view(*self)
    }
}

impl View for Condition {
    type V = SpecCondition;

    open spec fn view(&self) -> SpecCondition {
        condition_view(*self)
    }
}

impl View for LoopCondition {
    type V = SpecLoopCondition;

    open spec fn view(&self) -> SpecLoopCondition {
        loop_condition_view(*self)
    }
}

impl View for Program {
    type V = SpecProgram;

    open spec fn view(&self) -> SpecProgram {
        SpecProgram { statements: stmts_view(self.statements@) }
    }
}

pub proof fn lemma_exprs_view(es: Seq<Expression>)
    ensures
        exprs_view(es).len() == es.len(),
        forall|i: int| 0 <= i < es.len() ==> #[trigger] exprs_view(es)[i] == expr_view(es[i]),
    decreases es.len(),
{
    if es.len() > 0 {
        let rest = es.subrange(1, es.len() as int);
        lemma_exprs_view(rest);
        assert forall|i: int| 0 <= i < es.len() implies #[trigger] exprs_view(es)[i] == expr_view(es[i]) by {
            if i > 0 {
                assert(rest[i - 1] == es[i]);
            }
        }
    }
}

/// The view of a list grown by one expression.
pub proof fn lemma_exprs_view_push(es: Seq<Expression>, e: Expression)
    ensures
        exprs_view(es.push(e)) == exprs_view(es).push(expr_view(e)),
{
    lemma_exprs_view(es);
    lemma_exprs_view(es.push(e));
    assert(exprs_view(es.push(e)) =~= exprs_view(es).push(expr_view(e)));
}

pub proof fn lemma_stmts_view(ss: Seq<Statement>)
    ensures
        stmts_view(ss).len() == ss.len(),
        forall|i: int| 0 <= i < ss.len() ==> #[trigger] stmts_view(ss)[i] == stmt_view(ss[i]),
    decreases ss.len(),
{
    if ss.len() > 0 {
        let rest = ss.subrange(1, ss.len() as int);
        lemma_stmts_view(rest);
        assert forall|i: int| 0 <= i < ss.len() implies #[trigger] stmts_view(ss)[i] == stmt_view(ss[i]) by {
            if i > 0 {
                assert(rest[i - 1] == ss[i]);
            }
        }
    }
}

/// The view of a list grown by one statement.
pub proof fn lemma_stmts_view_push(ss: Seq<Statement>, s: Statement)
    ensures
        stmts_view(ss.push(s)) == stmts_view(ss).push(stmt_view(s)),
{
    lemma_stmts_view(ss);
    lemma_stmts_view(ss.push(s));
    assert(stmts_view(ss.push(s)) =~= stmts_view(ss).push(stmt_view(s)));
}

pub proof fn lemma_views_empty()
    ensures
        stmts_view(Seq::<Statement>::empty()) == Seq::<SpecStatement>::empty(),
        exprs_view(Seq::<Expression>::empty()) == Seq::<SpecExpression>::empty(),
{
}

} // verus!
