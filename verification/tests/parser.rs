use alescript::ast::{Condition, Expression, IngredientType, LoopCondition, Program, Statement};
use alescript::lexer::Lexer;
use alescript::parser::{parse_source, ParseError, Parser};
use alescript::runtime_error::RuntimeError;
use alescript::token::{Token, TokenType};

fn parse(source: &str) -> Result<Program, ParseError> {
    parse_source(source)
}

fn ok(source: &str) -> Vec<Statement> {
    match parse(source) {
        Ok(p) => p.statements,
        Err(e) => panic!("{}", e.report()),
    }
}

fn err(source: &str) -> ParseError {
    match parse(source) {
        Ok(p) => panic!("parsed: {:?}", p),
        Err(e) => e,
    }
}

fn s(x: &str) -> String {
    x.to_string()
}

#[test]
fn brew_with_ingredients() {
    let st = ok("brew lager from water, 1 barley, 2 hops, 1 yeast.");
    assert_eq!(st.len(), 1);
    match &st[0] {
        Statement::Brew { name, ingredients } => {
            assert_eq!(name, "lager");
            let got: Vec<(IngredientType, String)> =
                ingredients.iter().map(|i| (i.name, i.quantity.clone())).collect();
            assert_eq!(
                got,
                vec![
                    (IngredientType::Water, s("1")),
                    (IngredientType::Barley, s("1")),
                    (IngredientType::Hops, s("2")),
                    (IngredientType::Yeast, s("1")),
                ]
            );
        },
        other => panic!("{:?}", other),
    }
}

#[test]
fn growth_of_ingredients() {
    assert_eq!(IngredientType::Water.growth_half_points(), 0);
    assert_eq!(IngredientType::Barley.growth_half_points(), 2);
    assert_eq!(IngredientType::Hops.growth_half_points(), 1);
    assert_eq!(IngredientType::Yeast.growth_half_points(), 3);
}

#[test]
fn simple_statements() {
    let st = ok("wait for 5 days.\nage lager until is 5.2% abv.\ntaste lager.\nkeg lager.\ntoast \"hi\".\nmix a with b.\ndouble porter by 3.\ndilute ipa by 2.\nrelabel temp as a.\nadd lager to taplist.\nremove lager from taplist.\n");
    assert_eq!(st.len(), 11);
    assert_eq!(st[0], Statement::Wait { days: Expression::Number(s("5")) });
    assert_eq!(st[1], Statement::Age { brew_name: s("lager"), target_abv: s("5.2") });
    assert_eq!(st[2], Statement::Taste { brew_name: s("lager") });
    assert_eq!(st[3], Statement::Keg { brew_name: s("lager") });
    assert_eq!(st[4], Statement::Toast { value: Expression::String(s("hi")) });
    assert_eq!(st[5], Statement::Mix { target: s("a"), source: s("b") });
    assert_eq!(st[6], Statement::Double { brew_name: s("porter"), factor: Expression::Number(s("3")) });
    assert_eq!(st[7], Statement::Dilute { brew_name: s("ipa"), factor: Expression::Number(s("2")) });
    assert_eq!(st[8], Statement::Relabel { from: s("temp"), to: s("a") });
    assert_eq!(st[9], Statement::AddToBarrel { brew_name: s("lager"), barrel_name: s("taplist") });
    assert_eq!(st[10], Statement::RemoveFromBarrel { brew_name: s("lager"), barrel_name: s("taplist") });
}

#[test]
fn barrels_and_access() {
    let st = ok("barrel taplist = [lager, stout].\nbarrel empty = [].\nbrew selected = taplist position 1.\n");
    assert_eq!(
        st[0],
        Statement::BarrelDecl {
            name: s("taplist"),
            elements: vec![Expression::Identifier(s("lager")), Expression::Identifier(s("stout"))]
        }
    );
    assert_eq!(st[1], Statement::BarrelDecl { name: s("empty"), elements: vec![] });
    assert_eq!(
        st[2],
        Statement::Assign {
            name: s("selected"),
            value: Expression::BarrelAccess {
                barrel_name: s("taplist"),
                index: Box::new(Expression::Number(s("1")))
            }
        }
    );
}

#[test]
fn calls() {
    let st = ok("toast fibonacci(10).\nf(a, b).\ng().");
    assert_eq!(
        st[0],
        Statement::Toast {
            value: Expression::FunctionCall { name: s("fibonacci"), args: vec![Expression::Number(s("10"))] }
        }
    );
    assert_eq!(
        st[1],
        Statement::ExprStmt(Expression::FunctionCall {
            name: s("f"),
            args: vec![Expression::Identifier(s("a")), Expression::Identifier(s("b"))]
        })
    );
    assert_eq!(st[2], Statement::ExprStmt(Expression::FunctionCall { name: s("g"), args: vec![] }));
}

#[test]
fn recipe_last_expression_is_the_return_value() {
    let st = ok("recipe my_pilsner() \n    brew pilsner from water, barley.\n    age pilsner until 4.8% abv.\n    pilsner\nend.\ntoast my_pilsner().\n");
    assert_eq!(st.len(), 2);
    match &st[0] {
        Statement::Recipe { name, params, body, return_value } => {
            assert_eq!(name, "my_pilsner");
            assert!(params.is_empty());
            assert_eq!(body.len(), 2);
            assert_eq!(*return_value, Some(Expression::Identifier(s("pilsner"))));
        },
        other => panic!("{:?}", other),
    }
}

#[test]
fn recipe_with_params_and_expression_statement() {
    let st = ok("recipe f(a, b c)\n  g(a).\n  b\nend.");
    match &st[0] {
        Statement::Recipe { params, body, return_value, .. } => {
            assert_eq!(*params, vec![s("a"), s("b"), s("c")]);
            assert_eq!(
                body[0],
                Statement::ExprStmt(Expression::FunctionCall { name: s("g"), args: vec![Expression::Identifier(s("a"))] })
            );
            assert_eq!(*return_value, Some(Expression::Identifier(s("b"))));
        },
        other => panic!("{:?}", other),
    }
}

#[test]
fn judge_with_else() {
    let st = ok("judge if lager is stronger than 5.0%:\n    toast \"strong\".\nelse:\n    toast \"weak\".\nend.\n");
    match &st[0] {
        Statement::Judge { condition, then_block, else_block } => {
            assert_eq!(*condition, Condition::StrongerThan { brew_name: s("lager"), threshold: s("5.0") });
            assert_eq!(then_block.len(), 1);
            assert_eq!(else_block.as_ref().map(|b| b.len()), Some(1));
        },
        other => panic!("{:?}", other),
    }
}

#[test]
fn conditions() {
    let cond = |src: &str| match &ok(src)[0] {
        Statement::Judge { condition, .. } => condition.clone(),
        other => panic!("{:?}", other),
    };
    assert_eq!(cond("if a is weaker than 4:\nend."), Condition::WeakerThan { brew_name: s("a"), threshold: s("4") });
    assert_eq!(cond("if a is not weaker than 4%:\nend."), Condition::NotWeakerThan { brew_name: s("a"), threshold: s("4") });
    assert_eq!(cond("if a is not stronger than 4:\nend."), Condition::NotStrongerThan { brew_name: s("a"), threshold: s("4") });
    assert_eq!(cond("if n is 0:\nend."), Condition::IsZero { name: s("n") });
    assert_eq!(cond("if n is not 0.00:\nend."), Condition::IsNotZero { name: s("n") });
    assert_eq!(cond("if a is 5:\nend."), Condition::Equals { brew_name: s("a"), threshold: s("5") });
    assert_eq!(cond("if a is not 2.5:\nend."), Condition::NotEquals { brew_name: s("a"), threshold: s("2.5") });
    assert_eq!(cond("if a is 0%:\nend."), Condition::Equals { brew_name: s("a"), threshold: s("0") });
    assert_eq!(cond("if a is not 7%:\nend."), Condition::NotEquals { brew_name: s("a"), threshold: s("7") });
    // a numeral too small for an f64 reads as zero
    let tiny = format!("0.{}1", "0".repeat(400));
    assert_eq!(cond(&format!("if n is {}:\nend.", tiny)), Condition::IsZero { name: s("n") });
    assert_eq!(cond(&format!("if n is not {}:\nend.", tiny)), Condition::IsNotZero { name: s("n") });
    let small = format!("0.{}1", "0".repeat(300));
    assert_eq!(cond(&format!("if n is {}:\nend.", small)), Condition::Equals { brew_name: s("n"), threshold: small.clone() });
}

#[test]
fn repeat_forms() {
    let st = ok("repeat 3 times:\n  wait for 1 day.\nend.\nrepeat n times:\nend.\nrepeat each b in taplist:\n  taste b.\nend.\nrepeat until lager is stronger than 5%:\n  wait for 1 day.\nend.\n");
    assert_eq!(st.len(), 4);
    match &st[0] {
        Statement::Repeat { condition: LoopCondition::Times(Expression::Number(n)), body } => {
            assert_eq!(n, "3");
            assert_eq!(body.len(), 1);
        },
        other => panic!("{:?}", other),
    }
    assert!(matches!(&st[1], Statement::Repeat { condition: LoopCondition::Times(Expression::Identifier(n)), .. } if n == "n"));
    assert!(matches!(&st[2], Statement::Repeat { condition: LoopCondition::ForEach { var_name, collection }, .. } if var_name == "b" && collection == "taplist"));
    assert!(matches!(&st[3], Statement::Repeat { condition: LoopCondition::Until(_), .. }));
}

#[test]
fn end_statement() {
    let st = ok("end");
    assert_eq!(st, vec![Statement::End]);
}

#[test]
fn comments_and_blank_lines_between_statements() {
    let st = ok("// first\n\ntaste a. // after\n\n\ntaste b.");
    assert_eq!(st.len(), 2);
}

#[test]
fn errors() {
    let e = err("taste 5.");
    assert_eq!((e.message.as_str(), e.line, e.column), ("Expected brew name", 1, 6));
    let e = err("taste lager");
    assert_eq!(e.message, "Expected Period, got Eof");
    let e = err("wait for 5 days");
    assert_eq!(e.message, "Expected Period, got Eof");
    let e = err("toast \"x\" \"y\".");
    assert_eq!(e.message, "Expected Period, got String(\"y\")");
    let e = err("toast 5 6.");
    assert_eq!(e.message, "Expected Period, got Number(6.0)");
    let e = err("toast .");
    assert_eq!(e.message, "Unexpected token in expression: Period");
    let e = err("(");
    assert_eq!((e.message.as_str(), e.line, e.column), ("Unexpected token: LeftParen", 1, 0));
    let e = err("age x until abv.");
    assert_eq!(e.message, "Expected percentage or number");
    let e = err("if 5 is 0:\nend.");
    assert_eq!(e.message, "Expected identifier in condition");
    let e = err("if a is b:\nend.");
    assert_eq!(e.message, "Expected 'stronger' or 'weaker'");
    let e = err("if a is stronger than x:\nend.");
    assert_eq!(e.message, "Expected number or percentage");
    let e = err("recipe 5() end.");
    assert_eq!(e.message, "Expected recipe name");
    let e = err("recipe f(5) end.");
    assert_eq!(e.message, "Expected parameter name");
    let e = err("relabel a as 5.");
    assert_eq!(e.message, "Expected identifier");
    let e = err("barrel 5 = [].");
    assert_eq!(e.message, "Expected barrel name");
    let e = err("repeat x in y:\nend.");
    assert_eq!(e.message, "Expected 'each' for collection iteration");
    let e = err("repeat x y:\nend.");
    assert_eq!(e.message, "Expected 'times' or use 'repeat each <var> in <collection>:' for iteration");
    let e = err("repeat each 5 in y:\nend.");
    assert_eq!(e.message, "Expected variable name after 'each'");
    let e = err("repeat each x in 5:\nend.");
    assert_eq!(e.message, "Expected collection name");
    let e = err("repeat:\nend.");
    assert_eq!(e.message, "Expected 'until', 'each', number, or identifier after 'repeat'");
    let e = err("judge if a is 0:\n  taste a.\n");
    assert_eq!(e.message, "Expected End, got Eof");
}

#[test]
fn end_of_tokens() {
    // without an EOF token the parser reports the end of input
    let tokens = vec![Token::new(TokenType::Taste, s("taste"), 1, 0)];
    let mut parser = Parser::new(tokens);
    let e = parser.parse().unwrap_err();
    assert_eq!((e.message.as_str(), e.line, e.column), ("Unexpected end of input", 0, 0));
    // an empty token list is an empty program
    let mut parser = Parser::new(vec![]);
    assert_eq!(parser.parse().unwrap().statements.len(), 0);
}

#[test]
fn each_as_identifier_gets_advice() {
    let tokens = vec![
        Token::new(TokenType::Repeat, s("repeat"), 1, 0),
        Token::new(TokenType::Identifier(s("each")), s("each"), 1, 7),
        Token::new(TokenType::In, s("in"), 1, 12),
        Token::new(TokenType::Identifier(s("y")), s("y"), 1, 15),
        Token::new(TokenType::Colon, s(":"), 1, 16),
    ];
    let e = Parser::new(tokens).parse().unwrap_err();
    assert_eq!((e.message.as_str(), e.column), ("For iteration, use: repeat each <var> in <collection>:", 12));
}

#[test]
fn reports() {
    let e = err("taste 5.");
    assert_eq!(e.report(), "Parse error at 1:6: Expected brew name");
    let r = RuntimeError::new(s("Brew 'x' not found"));
    assert_eq!(r.message, "Brew 'x' not found");
    assert_eq!(r.report(), "Runtime error: Brew 'x' not found");
}

#[test]
fn parser_over_collected_tokens() {
    let tokens = Lexer::new("toast \"hello, world!\".").collect();
    let program = Parser::new(tokens).parse().unwrap();
    assert_eq!(program.statements, vec![Statement::Toast { value: Expression::String(s("hello, world!")) }]);
}

#[test]
fn for_each_loop_over_a_barrel() {
    let tokens: Vec<Token> = Lexer::new("for each brew in taplist:\n    taste brew.").collect();
    let mut p = Parser::new(tokens);
    let program = match p.parse() {
        Ok(program) => program,
        Err(e) => panic!("{}", e.report()),
    };
    assert_eq!(
        program,
        Program {
            statements: vec![Statement::Repeat {
                condition: LoopCondition::ForEach { var_name: s("brew"), collection: s("taplist") },
                body: vec![Statement::Taste { brew_name: s("brew") }],
            }],
        }
    );
}

#[test]
fn for_each_body_ends_with_its_block() {
    let st = ok("barrel taplist = [lager, stout].\nfor each b in taplist:\n    taste b.\n    keg b.\ntoast \"done\".\n");
    assert_eq!(st.len(), 3);
    match &st[1] {
        Statement::Repeat { condition: LoopCondition::ForEach { var_name, collection }, body } => {
            assert_eq!((var_name.as_str(), collection.as_str()), ("b", "taplist"));
            assert_eq!(body.len(), 2);
        },
        other => panic!("{:?}", other),
    }
    assert!(matches!(&st[2], Statement::Toast { .. }));
}

#[test]
fn for_each_errors() {
    let e = err("for brew in taplist:\n  taste brew.");
    assert_eq!(e.message, "Expected Each, got Brew");
    let e = err("for each 5 in taplist:\n  taste x.");
    assert_eq!(e.message, "Expected variable name after 'each'");
    let e = err("for each b in 5:\n  taste b.");
    assert_eq!(e.message, "Expected collection name");
    let e = err("for each b in t\n  taste b.");
    assert_eq!(e.message, "Expected Colon, got Newline");
}

#[test]
fn the_word_brew_as_a_name() {
    assert_eq!(ok("taste brew."), vec![Statement::Taste { brew_name: s("brew") }]);
    // elsewhere `brew` is no name
    let e = err("keg brew.");
    assert_eq!(e.message, "Expected brew name");
    let e = err("repeat each brew in taplist:\n  taste brew.\nend.");
    assert_eq!(e.message, "Expected variable name after 'each'");
}
