use void::ast::{BinaryOp, Expr, Stmt, UnaryOp};
use void::lexer::lex;
use void::parser::Parser;

fn op(o: &BinaryOp) -> &'static str {
    match o {
        BinaryOp::Add => "+",
        BinaryOp::Sub => "-",
        BinaryOp::Mul => "*",
        BinaryOp::Div => "/",
        BinaryOp::Eq => "==",
        BinaryOp::Ne => "!=",
        BinaryOp::Lt => "<",
        BinaryOp::Lte => "<=",
        BinaryOp::Gt => ">",
        BinaryOp::Gte => ">=",
        BinaryOp::And => "&&",
        BinaryOp::Or => "||",
    }
}

fn expr(e: &Expr) -> String {
    match e {
        Expr::Number(n) => n.clone(),
        Expr::String(s) => format!("{s:?}"),
        Expr::Bool(b) => b.to_string(),
        Expr::Null => "null".to_string(),
        Expr::Var(v) => v.clone(),
        Expr::Member { object, property } => format!("{}.{}", expr(object), property),
        Expr::Call { callee, args } => format!(
            "{}({})",
            expr(callee),
            args.iter().map(expr).collect::<Vec<_>>().join(", ")
        ),
        Expr::Binary { left, op: o, right } => format!("({} {} {})", expr(left), op(o), expr(right)),
        Expr::Unary { op: UnaryOp::Neg, expr: inner } => format!("(-{})", expr(inner)),
        Expr::Unary { op: UnaryOp::Not, expr: inner } => format!("(!{})", expr(inner)),
        Expr::FnLiteral { params, body } => format!("fn({}) {}", params.join(", "), block(body)),
    }
}

fn block(b: &[Stmt]) -> String {
    format!("{{{}}}", b.iter().map(stmt).collect::<Vec<_>>().join("; "))
}

fn stmt(s: &Stmt) -> String {
    match s {
        Stmt::Use { specifier, alias } => format!("use {specifier:?} as {alias}"),
        Stmt::Let { name, expr: e } => format!("let {name} = {}", expr(e)),
        Stmt::Assign { target, expr: e } => format!("{} = {}", target.join("."), expr(e)),
        Stmt::If { condition, then_branch, else_branch } => format!(
            "if {} {} else {}",
            expr(condition),
            block(then_branch),
            block(else_branch)
        ),
        Stmt::While { condition, body } => format!("while {} {}", expr(condition), block(body)),
        Stmt::Repeat { count, body } => format!("repeat {} {}", expr(count), block(body)),
        Stmt::Return(e) => format!("return {}", expr(e)),
        Stmt::Expr(e) => expr(e),
    }
}

fn parse(src: &str) -> Result<Vec<String>, String> {
    let tokens = lex(src)?;
    let mut parser = Parser::new(tokens);
    parser.parse_program().map(|p| p.iter().map(stmt).collect())
}

#[test]
fn parse_precedence() {
    assert_eq!(parse("let x = 1 + 2 * 3 - 4 / 2").unwrap(), vec!["let x = ((1 + (2 * 3)) - (4 / 2))"]);
    assert_eq!(parse("a || b && c == d < e").unwrap(), vec!["(a || (b && (c == (d < e))))"]);
    assert_eq!(parse("-a * !b").unwrap(), vec!["((-a) * (!b))"]);
    assert_eq!(parse("(1 + 2) * 3").unwrap(), vec!["((1 + 2) * 3)"]);
}

#[test]
fn parse_calls_members_and_functions() {
    assert_eq!(parse("console.log(\"hi\", 1)").unwrap(), vec!["console.log(\"hi\", 1)"]);
    assert_eq!(parse("f()(2).x").unwrap(), vec!["f()(2).x"]);
    assert_eq!(
        parse("let add = fn (a, b) { return a + b }").unwrap(),
        vec!["let add = fn(a, b) {return (a + b)}"]
    );
}

#[test]
fn parse_statements() {
    assert_eq!(parse("use \"fs\" as fs").unwrap(), vec!["use \"fs\" as fs"]);
    assert_eq!(parse("a.b.c = 3").unwrap(), vec!["a.b.c = 3"]);
    assert_eq!(parse("while x < 3 { x = x + 1 }").unwrap(), vec!["while (x < 3) {x = (x + 1)}"]);
    assert_eq!(parse("repeat 3 { say(1) }").unwrap(), vec!["repeat 3 {say(1)}"]);
    assert_eq!(
        parse("if a { b } else if c { d } else { e }").unwrap(),
        vec!["if a {b} else {if c {d} else {e}}"]
    );
    assert_eq!(parse("fn () { return }").unwrap(), vec!["fn() {return null}"]);
}

#[test]
fn parse_separates_statements_by_newlines_and_semicolons() {
    assert_eq!(parse("\n\nlet a = 1;;\nlet b = 2\n").unwrap(), vec!["let a = 1", "let b = 2"]);
    assert_eq!(parse("").unwrap(), Vec::<String>::new());
}

#[test]
fn parse_errors() {
    assert_eq!(parse("let = 1").err().unwrap(), "Expected identifier at line 1");
    assert_eq!(parse("let x 1").err().unwrap(), "Expected '=' at line 1");
    assert_eq!(parse("1 +").err().unwrap(), "Expected expression at line 1");
    assert_eq!(parse("if x {\n y").err().unwrap(), "Unterminated block at line 2");
    assert_eq!(parse("f(1, 2").err().unwrap(), "Expected ')' at line 1");
    assert_eq!(parse("use x as y").err().unwrap(), "Expected string at line 1");
    assert_eq!(parse("use \"x\" y").err().unwrap(), "Expected 'as' at line 1");
    assert_eq!(parse("if x y").err().unwrap(), "Expected '{' at line 1");
}
