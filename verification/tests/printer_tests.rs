use rlox::expr::{BinaryExpr, Expr, GroupingExpr, LiteralExpr, UnaryExpr};
use rlox::printer::{render_expr, AstPrinter};
use rlox::token::{Object, Token, Token_Type};

fn operator(kind: Token_Type, lexeme: &str) -> Token {
    Token::new(kind, String::from(lexeme), None, 1)
}

fn number(text: &str) -> Expr {
    Expr::Literal(LiteralExpr {
        value: Some(Object::Num(String::from(text))),
    })
}

#[test]
fn golden_tree_prints_as_prefix_text() {
    let expression = Expr::Binary(BinaryExpr {
        left: Box::new(Expr::Unary(UnaryExpr {
            operator: operator(Token_Type::Minus, "-"),
            right: Box::new(number("123")),
        })),
        operator: operator(Token_Type::Star, "*"),
        right: Box::new(Expr::Grouping(GroupingExpr {
            expression: Box::new(number("45.67")),
        })),
    });
    let printer = AstPrinter {};
    let result = printer.print(&expression).unwrap();
    assert_eq!(result, "(* (- 123) (group 45.67))");
}

#[test]
fn absent_literal_prints_as_nil() {
    let printer = AstPrinter {};
    let result = printer
        .print(&Expr::Literal(LiteralExpr { value: None }))
        .unwrap();
    assert_eq!(result, "nil");
}

#[test]
fn string_literal_prints_its_text() {
    let printer = AstPrinter {};
    let tree = Expr::Literal(LiteralExpr {
        value: Some(Object::Str(String::from("hello"))),
    });
    assert_eq!(printer.print(&tree).unwrap(), "hello");
}

#[test]
fn dispatch_fires_the_unary_method() {
    let printer = AstPrinter {};
    let tree = Expr::Unary(UnaryExpr {
        operator: operator(Token_Type::Bang, "!"),
        right: Box::new(number("1")),
    });
    assert_eq!(printer.print(&tree).unwrap(), "(! 1)");
}

#[test]
fn dispatch_fires_the_grouping_method() {
    let printer = AstPrinter {};
    let tree = Expr::Grouping(GroupingExpr {
        expression: Box::new(number("7")),
    });
    assert_eq!(printer.print(&tree).unwrap(), "(group 7)");
}

#[test]
fn dispatch_fires_the_binary_method() {
    let printer = AstPrinter {};
    let tree = Expr::Binary(BinaryExpr {
        left: Box::new(number("1")),
        operator: operator(Token_Type::Plus, "+"),
        right: Box::new(number("2")),
    });
    assert_eq!(printer.print(&tree).unwrap(), "(+ 1 2)");
}

#[test]
fn direct_rendering_agrees_with_dispatch() {
    let printer = AstPrinter {};
    let tree = Expr::Binary(BinaryExpr {
        left: Box::new(number("8")),
        operator: operator(Token_Type::Slash, "/"),
        right: Box::new(Expr::Literal(LiteralExpr { value: None })),
    });
    assert_eq!(render_expr(&tree), printer.print(&tree).unwrap());
}

#[test]
fn parenthesize_wraps_name_and_parts() {
    let printer = AstPrinter {};
    let one = number("1");
    let two = number("2");
    let items: Vec<&Expr> = vec![&one, &two];
    assert_eq!(printer.parenthesize("op", &items).unwrap(), "(op 1 2)");
}
