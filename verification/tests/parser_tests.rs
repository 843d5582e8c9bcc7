use jsparser::expr::{Expr, Operator, Variable};
use jsparser::lexer::{ILexer, Lexer};
use jsparser::parser::Parser;

fn parse(src: &str) -> Result<Vec<Expr>, String> {
    let lexer = Lexer::new(src.to_string());
    let mut parser = Parser::new(lexer);
    parser.parse_program()
}

fn ident(s: &str) -> Expr {
    Expr::Identifier(s.to_string())
}

fn lit(s: &str) -> Expr {
    Expr::Literal(s.to_string())
}

#[test]
fn test_str() {
    let r = parse(" \n            let a = `1${2+22}3${4}`; \n            log(a);\n        ").unwrap();
    assert_eq!(r.len(), 2);
    assert_eq!(
        r[0],
        Expr::Variable(vec![(
            Variable::Let,
            "a".to_string(),
            Expr::Template(
                vec!["1".to_string(), "3".to_string()],
                vec![
                    Expr::Infix(Box::new(lit("2")), Operator::Plus, Box::new(lit("22"))),
                    lit("4"),
                ]
            )
        )])
    );
    assert_eq!(r[1], Expr::Call(Box::new(ident("log")), vec![ident("a")]));
}

#[test]
fn test_switch() {
    let r = parse(
        r#"       
            let a =1;
            switch(a){
                case 1:
                default:break;
            }
    "#,
    )
    .unwrap();
    assert_eq!(r.len(), 2);
    assert_eq!(
        r[1],
        Expr::Switch(
            Box::new(ident("a")),
            vec![
                Expr::SwitchCase(Box::new(lit("1")), vec![]),
                Expr::SwitchCase(Box::new(Expr::Empty), vec![Expr::Break]),
            ]
        )
    );
}

#[test]
fn test_log() {
    let r = parse("log(1);").unwrap();
    assert_eq!(r, vec![Expr::Call(Box::new(ident("log")), vec![lit("1")])]);
}

#[test]
fn test_fn1() {
    let r = parse(
        r#"
    function foo(a){
        for(let i=0;i<a;i++)
            log(i+" |");
        //log(i);                  //Uncaught ReferenceError: i is not defined
        return a;
    }
    //log(i);                      //Uncaught ReferenceError: i is not defined
"#,
    )
    .unwrap();
    assert_eq!(r.len(), 1);
    match &r[0] {
        Expr::Function(name, args, body) => {
            assert_eq!(**name, ident("foo"));
            assert_eq!(args, &vec![ident("a")]);
            match &**body {
                Expr::Block(v) => {
                    assert_eq!(v.len(), 2);
                    assert!(matches!(v[0], Expr::For(_, _, _, _)));
                    assert_eq!(v[1], Expr::Return(Box::new(ident("a"))));
                }
                other => panic!("{:?}", other),
            }
        }
        other => panic!("{:?}", other),
    }
}

#[test]
fn test_fn2() {
    let r = parse(
        r#"
            let i = 0;
            function foo(){
                for(;;i++){
                    if(i<10)
                        log(i);
                    else
                        return;
                }
                log(123);
            }
            foo();
        "#,
    )
    .unwrap();
    assert_eq!(r.len(), 3);
    assert!(matches!(r[1], Expr::Function(_, _, _)));
    assert_eq!(r[2], Expr::Call(Box::new(ident("foo")), vec![]));
}

#[test]
fn test_for() {
    let r = parse(
        r#"
            for(let i = 0;i<10;i++){
                log(i);
            }
        "#,
    )
    .unwrap();
    assert_eq!(r.len(), 1);
    match &r[0] {
        Expr::For(init, test, update, body) => {
            assert!(matches!(**init, Expr::Variable(_)));
            assert_eq!(**test, Expr::Infix(Box::new(ident("i")), Operator::LT, Box::new(lit("10"))));
            assert_eq!(**update, Expr::Update(Box::new(ident("i")), "++".to_string(), false));
            assert_eq!(**body, Expr::Block(vec![Expr::Call(Box::new(ident("log")), vec![ident("i")])]));
        }
        other => panic!("{:?}", other),
    }
    let r = parse(
        r#"
                let i = 0;
                for(;;){
                    if(i<10){
                        log(i);
                    }
                    else{
                        break;
                    }
                    i++;
                }
            "#,
    )
    .unwrap();
    assert_eq!(r.len(), 2);
    assert!(matches!(r[1], Expr::For(_, _, _, _)));
}

#[test]
fn test_json() {
    let r = parse(
        r#" 
        let b = 2;
        let json = {'a':1,b,c:3};// {[a+1]:5} 暂未实现该表达式
        log(json);
        "#,
    )
    .unwrap();
    assert_eq!(r.len(), 3);
    assert_eq!(
        r[1],
        Expr::Variable(vec![(
            Variable::Let,
            "json".to_string(),
            Expr::Object(vec![
                ("a".to_string(), lit("1")),
                ("b".to_string(), Expr::Ref("b".to_string())),
                ("c".to_string(), lit("3")),
            ])
        )])
    );
}

#[test]
fn test_array() {
    let r = parse("\n        let a = 123; \n        let arr = [1,2,3,a];\n        log(arr);\n        ").unwrap();
    assert_eq!(r.len(), 3);
    assert_eq!(
        r[1],
        Expr::Variable(vec![(
            Variable::Let,
            "arr".to_string(),
            Expr::Array(vec![lit("1"), lit("2"), lit("3"), ident("a")])
        )])
    );
}

#[test]
fn test_ajax() {
    let r = parse(
        r#"       
            for(let i=0;i<5;i++){
                if(i>=3){
                    break;
                }
                log("第"+(i+1)+"次调用ajax");
                ajax({
                    url:'https://ipinfo.io',
                    type:'get',
                    success:function(e){
                        log(e);
                    }
                });
            }
    "#,
    );
    assert!(r.is_ok(), "{:?}", r);
}

#[test]
fn break_outside_a_loop_is_refused() {
    assert!(parse("break;").is_err());
    assert!(parse("continue;").is_err());
    assert!(parse("return 1;").is_err());
}

#[test]
fn json_later_key_wins() {
    let r = parse("let o = {a:1, a:2};").unwrap();
    assert_eq!(
        r[0],
        Expr::Variable(vec![(
            Variable::Let,
            "o".to_string(),
            Expr::Object(vec![("a".to_string(), lit("2"))])
        )])
    );
}

#[test]
fn no_progress_is_an_error() {
    assert!(parse(";;x").is_err());
}

#[test]
fn empty_program_has_no_statements() {
    assert_eq!(parse(""), Ok(vec![]));
    assert_eq!(parse("  // only a comment\n"), Ok(vec![]));
}

#[test]
fn unreadable_start_is_refused() {
    assert!(parse("#").is_err());
    assert!(parse("`a${b").is_err());
}

#[test]
fn loops_allow_break_and_continue() {
    let r = parse("while(a){ continue; };").unwrap();
    assert_eq!(
        r[0],
        Expr::While(Box::new(ident("a")), Box::new(Expr::Block(vec![Expr::Continue])))
    );
}

#[test]
fn error_message_names_the_token() {
    let e = parse("break;").unwrap_err();
    assert!(e.starts_with("\u{1b}[31m(Keyword(Break),line:1,column:"), "{}", e);
    assert!(e.ends_with(") Illegal break statement \u{1b}[39m"), "{}", e);
}

#[test]
fn stray_else_is_named() {
    let e = parse("else").unwrap_err();
    assert!(e.starts_with("\u{1b}[31m(Keyword(Else),line:1,column:"), "{}", e);
    assert!(e.ends_with(") Unexpected token else \u{1b}[39m"), "{}", e);
}

#[test]
fn cloned_tree_is_equal() {
    let r = parse("function f(a){ return a + 1; }").unwrap();
    let c = r[0].clone();
    assert_eq!(c, r[0]);
}

#[test]
fn infix_regroups_by_binding_power() {
    let r = parse("x = 1 + 2 * 3;").unwrap();
    assert_eq!(
        r[0],
        Expr::Assignment(vec![(
            "x".to_string(),
            Expr::Infix(
                Box::new(lit("1")),
                Operator::Plus,
                Box::new(Expr::Infix(Box::new(lit("2")), Operator::Multiply, Box::new(lit("3"))))
            )
        )])
    );
}

fn infix(l: Expr, op: Operator, r: Expr) -> Expr {
    Expr::Infix(Box::new(l), op, Box::new(r))
}

fn assigned(src: &str) -> Expr {
    match parse(src).unwrap().remove(0) {
        Expr::Assignment(mut v) => v.remove(0).1,
        other => panic!("{:?}", other),
    }
}

#[test]
fn empty_switch_has_no_cases() {
    assert_eq!(
        parse("switch(a){}"),
        Ok(vec![Expr::Switch(Box::new(ident("a")), vec![])])
    );
}

#[test]
fn switch_may_end_after_a_case() {
    assert_eq!(
        parse("switch(a){case 1: b(); }"),
        Ok(vec![Expr::Switch(
            Box::new(ident("a")),
            vec![Expr::SwitchCase(
                Box::new(lit("1")),
                vec![Expr::Call(Box::new(ident("b")), vec![])]
            )]
        )])
    );
}

#[test]
fn else_may_follow_a_block_on_its_line() {
    assert_eq!(
        parse("if(a){}else{}\n"),
        Ok(vec![Expr::If(
            Box::new(ident("a")),
            Box::new(Expr::Block(vec![])),
            Box::new(Expr::Block(vec![]))
        )])
    );
}

#[test]
fn return_stays_allowed_after_a_nested_function() {
    assert_eq!(
        parse("function f(){\nfunction g(){}\nreturn 1;\n}"),
        Ok(vec![Expr::Function(
            Box::new(ident("f")),
            vec![],
            Box::new(Expr::Block(vec![
                Expr::Function(Box::new(ident("g")), vec![], Box::new(Expr::Block(vec![]))),
                Expr::Return(Box::new(lit("1"))),
            ]))
        )])
    );
}

#[test]
fn break_stays_allowed_after_a_nested_loop() {
    assert!(parse("while(a){\nwhile(b){}\nbreak;\n}").is_ok());
}

#[test]
fn bad_for_header_quotes_the_token() {
    let e = parse("for(;;i++;){\n}").unwrap_err();
    assert!(e.contains("Unexpected token \";\""), "{}", e);
}

#[test]
fn parenthesised_operand_stays_whole() {
    assert_eq!(
        assigned("x = 0+(1+2)*3;"),
        infix(
            lit("0"),
            Operator::Plus,
            infix(infix(lit("1"), Operator::Plus, lit("2")), Operator::Multiply, lit("3"))
        )
    );
}

#[test]
fn comparison_binds_looser_than_sum() {
    assert_eq!(
        assigned("x = 1<2+3;"),
        infix(lit("1"), Operator::LT, infix(lit("2"), Operator::Plus, lit("3")))
    );
    assert_eq!(
        assigned("x = 1+2<3;"),
        infix(infix(lit("1"), Operator::Plus, lit("2")), Operator::LT, lit("3"))
    );
}

#[test]
fn equal_operators_group_from_the_left() {
    assert_eq!(
        assigned("x = 1-2-3;"),
        infix(infix(lit("1"), Operator::Subtract, lit("2")), Operator::Subtract, lit("3"))
    );
    assert_eq!(
        assigned("x = a&&b||c&&d;"),
        infix(
            infix(ident("a"), Operator::And, ident("b")),
            Operator::Or,
            infix(ident("c"), Operator::And, ident("d"))
        )
    );
}

#[test]
fn loops_on_one_line() {
    assert_eq!(
        parse("do{}while(a)"),
        Ok(vec![Expr::DoWhile(Box::new(ident("a")), Box::new(Expr::Block(vec![])))])
    );
    assert_eq!(
        parse("while(a){}"),
        Ok(vec![Expr::While(Box::new(ident("a")), Box::new(Expr::Block(vec![])))])
    );
}

#[test]
fn object_after_a_call_inside_an_object() {
    assert_eq!(
        parse("let o = {a:f(1), b:{c:1}};"),
        Ok(vec![Expr::Variable(vec![(
            Variable::Let,
            "o".to_string(),
            Expr::Object(vec![
                ("a".to_string(), Expr::Call(Box::new(ident("f")), vec![lit("1")])),
                ("b".to_string(), Expr::Object(vec![("c".to_string(), lit("1"))])),
            ])
        )])])
    );
}

#[test]
fn modulo_binds_as_product() {
    assert_eq!(
        assigned("x = 1+2%3*4;"),
        infix(
            lit("1"),
            Operator::Plus,
            infix(infix(lit("2"), Operator::Modulo, lit("3")), Operator::Multiply, lit("4"))
        )
    );
}
