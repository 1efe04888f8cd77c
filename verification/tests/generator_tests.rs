use rlox::error::GenerationError;
use rlox::generator::{define_ast, lower_str};

#[test]
fn generates_union_records_visitor_and_dispatch() {
    let rules = vec![
        String::from("Binary   : Box<Expr> left, Token operator, Box<Expr> right"),
        String::from("Grouping : Box<Expr> expression"),
        String::from("Literal  : Object value"),
        String::from("Unary    : Token operator, Box<Expr> right"),
    ];
    let text = define_ast("Expr", &rules).unwrap();
    let expected = "use crate::error::LoxError;\nuse crate::token::Object;\nuse crate::token::Token;\n\npub enum Expr {\n    Binary(BinaryExpr),\n    Grouping(GroupingExpr),\n    Literal(LiteralExpr),\n    Unary(UnaryExpr),\n}\n\npub struct BinaryExpr {\n    pub left: Box<Expr>,\n    pub operator: Token,\n    pub right: Box<Expr>,\n}\n\npub struct GroupingExpr {\n    pub expression: Box<Expr>,\n}\n\npub struct LiteralExpr {\n    pub value: Object,\n}\n\npub struct UnaryExpr {\n    pub operator: Token,\n    pub right: Box<Expr>,\n}\n\npub trait ExprVisitor<T> {\n    fn visit_binary(&self, expr: &BinaryExpr) -> Result<T, LoxError>;\n    fn visit_grouping(&self, expr: &GroupingExpr) -> Result<T, LoxError>;\n    fn visit_literal(&self, expr: &LiteralExpr) -> Result<T, LoxError>;\n    fn visit_unary(&self, expr: &UnaryExpr) -> Result<T, LoxError>;\n}\n\nimpl Expr {\n    pub fn accept<T, V: ExprVisitor<T>>(&self, visitor: &V) -> Result<T, LoxError> {\n        match self {\n            Expr::Binary(expr) => visitor.visit_binary(expr),\n            Expr::Grouping(expr) => visitor.visit_grouping(expr),\n            Expr::Literal(expr) => visitor.visit_literal(expr),\n            Expr::Unary(expr) => visitor.visit_unary(expr),\n        }\n    }\n}\n";
    assert_eq!(text, expected);
}

#[test]
fn a_rule_without_a_colon_is_malformed() {
    let rules = vec![String::from("Binary Box<Expr> left")];
    assert_eq!(define_ast("Expr", &rules), Err(GenerationError::MalformedRule));
}

#[test]
fn a_field_without_a_space_is_malformed() {
    let rules = vec![String::from("Binary : left")];
    assert_eq!(define_ast("Expr", &rules), Err(GenerationError::MalformedRule));
}

#[test]
fn an_empty_field_list_is_malformed() {
    let rules = vec![String::from("Binary :")];
    assert_eq!(define_ast("Expr", &rules), Err(GenerationError::MalformedRule));
}

#[test]
fn one_bad_rule_aborts_the_whole_generation() {
    let rules = vec![
        String::from("Grouping : Box<Expr> expression"),
        String::from("oops"),
    ];
    assert_eq!(define_ast("Expr", &rules), Err(GenerationError::MalformedRule));
}

#[test]
fn no_rules_generate_an_empty_grammar() {
    let rules: Vec<String> = Vec::new();
    let text = define_ast("Stmt", &rules).unwrap();
    assert!(text.contains("pub enum Stmt {\n}"));
    assert!(text.contains("pub trait StmtVisitor<T> {\n}"));
}

#[test]
fn method_names_are_lowercased_variants() {
    let rules = vec![String::from("IfElse : Box<Expr> condition")];
    let text = define_ast("Stmt", &rules).unwrap();
    assert!(text.contains("fn visit_ifelse(&self, expr: &IfElseStmt)"));
    assert_eq!(lower_str("IfElse"), "ifelse");
}
