use inko_core::ast::BinaryOp;
use inko_core::ast::Node;
use inko_core::parser::Parser;
use inko_core::token::Token;
use inko_core::token::TokenKind;

fn tok(kind: TokenKind, text: &str, line: usize, column: usize) -> Token {
    Token::new(kind, String::from(text), line, column)
}

fn parse(tokens: Vec<Token>) -> Node {
    let mut parser = Parser::new(tokens);
    parser.parse().expect("the parse should succeed")
}

fn parse_err(tokens: Vec<Token>) -> bool {
    let mut parser = Parser::new(tokens);
    parser.parse().is_err()
}

fn top(node: Node) -> Vec<Node> {
    match node {
        Node::Expressions { nodes } => nodes,
        other => panic!("expected an expressions root, got {:?}", other),
    }
}

fn int_node(value: i64, line: usize, column: usize) -> Node {
    Node::Integer { value, line, column }
}

fn collect_positions(n: &Node, out: &mut Vec<(usize, usize)>) {
    match n {
        Node::Integer { line, column, .. } => out.push((*line, *column)),
        Node::Binary { left, right, line, column, .. } => {
            out.push((*line, *column));
            collect_positions(left, out);
            collect_positions(right, out);
        }
        _ => {}
    }
}

#[test]
fn same_class_operators_left_associate() {
    // 1 - 2 - 3 parses as Sub(Sub(1, 2), 3).
    let nodes = top(parse(vec![
        tok(TokenKind::Integer, "1", 1, 1),
        tok(TokenKind::Sub, "-", 1, 3),
        tok(TokenKind::Integer, "2", 1, 5),
        tok(TokenKind::Sub, "-", 1, 7),
        tok(TokenKind::Integer, "3", 1, 9),
    ]));
    let expected = Node::Binary {
        op: BinaryOp::Sub,
        left: Box::new(Node::Binary {
            op: BinaryOp::Sub,
            left: Box::new(int_node(1, 1, 1)),
            right: Box::new(int_node(2, 1, 5)),
            line: 1,
            column: 3,
        }),
        right: Box::new(int_node(3, 1, 9)),
        line: 1,
        column: 7,
    };
    assert_eq!(nodes, vec![expected]);
}

#[test]
fn multiplication_binds_tighter_than_addition() {
    // 1 + 2 * 3 parses as Add(1, Mul(2, 3)).
    let nodes = top(parse(vec![
        tok(TokenKind::Integer, "1", 1, 1),
        tok(TokenKind::Add, "+", 1, 3),
        tok(TokenKind::Integer, "2", 1, 5),
        tok(TokenKind::Mul, "*", 1, 7),
        tok(TokenKind::Integer, "3", 1, 9),
    ]));
    let expected = Node::Binary {
        op: BinaryOp::Add,
        left: Box::new(int_node(1, 1, 1)),
        right: Box::new(Node::Binary {
            op: BinaryOp::Mul,
            left: Box::new(int_node(2, 1, 5)),
            right: Box::new(int_node(3, 1, 9)),
            line: 1,
            column: 7,
        }),
        line: 1,
        column: 3,
    };
    assert_eq!(nodes, vec![expected]);
}

#[test]
fn and_binds_tighter_than_or() {
    // a || b && c parses as Or(a, And(b, c)).
    let nodes = top(parse(vec![
        tok(TokenKind::Identifier, "a", 1, 1),
        tok(TokenKind::Or, "||", 1, 3),
        tok(TokenKind::Identifier, "b", 1, 6),
        tok(TokenKind::And, "&&", 1, 8),
        tok(TokenKind::Identifier, "c", 1, 11),
    ]));
    let expected = Node::Binary {
        op: BinaryOp::Or,
        left: Box::new(Node::Identifier { name: String::from("a"), line: 1, column: 1 }),
        right: Box::new(Node::Binary {
            op: BinaryOp::And,
            left: Box::new(Node::Identifier { name: String::from("b"), line: 1, column: 6 }),
            right: Box::new(Node::Identifier { name: String::from("c"), line: 1, column: 11 }),
            line: 1,
            column: 8,
        }),
        line: 1,
        column: 3,
    };
    assert_eq!(nodes, vec![expected]);
}

#[test]
fn bracket_on_next_line_is_an_array_literal() {
    // [1]\n[2] parses as two array literals.
    let nodes = top(parse(vec![
        tok(TokenKind::BracketOpen, "[", 1, 1),
        tok(TokenKind::Integer, "1", 1, 2),
        tok(TokenKind::BracketClose, "]", 1, 3),
        tok(TokenKind::BracketOpen, "[", 2, 1),
        tok(TokenKind::Integer, "2", 2, 2),
        tok(TokenKind::BracketClose, "]", 2, 3),
    ]));
    assert_eq!(
        nodes,
        vec![
            Node::Array { values: vec![int_node(1, 1, 2)], line: 1, column: 1 },
            Node::Array { values: vec![int_node(2, 2, 2)], line: 2, column: 1 },
        ]
    );
}

#[test]
fn bracket_on_same_line_is_an_index_send() {
    // 1[2] on one line parses as a "[]" send on the value.
    let nodes = top(parse(vec![
        tok(TokenKind::Integer, "1", 1, 1),
        tok(TokenKind::BracketOpen, "[", 1, 2),
        tok(TokenKind::Integer, "2", 1, 3),
        tok(TokenKind::BracketClose, "]", 1, 4),
    ]));
    assert_eq!(
        nodes,
        vec![Node::Send {
            name: String::from("[]"),
            receiver: Some(Box::new(int_node(1, 1, 1))),
            arguments: vec![int_node(2, 1, 3)],
            line: 1,
            column: 2,
        }]
    );
}

#[test]
fn bracket_assign_becomes_index_set_send() {
    // 1[2] = 3 parses as a "[]=" send with the value appended.
    let nodes = top(parse(vec![
        tok(TokenKind::Integer, "1", 1, 1),
        tok(TokenKind::BracketOpen, "[", 1, 2),
        tok(TokenKind::Integer, "2", 1, 3),
        tok(TokenKind::BracketClose, "]", 1, 4),
        tok(TokenKind::Assign, "=", 1, 6),
        tok(TokenKind::Integer, "3", 1, 8),
    ]));
    assert_eq!(
        nodes,
        vec![Node::Send {
            name: String::from("[]="),
            receiver: Some(Box::new(int_node(1, 1, 1))),
            arguments: vec![int_node(2, 1, 3), int_node(3, 1, 8)],
            line: 1,
            column: 2,
        }]
    );
}

#[test]
fn same_line_values_form_a_parenless_argument_list() {
    // foo 1, 2 parses as a send with two positional arguments.
    let nodes = top(parse(vec![
        tok(TokenKind::Identifier, "foo", 1, 1),
        tok(TokenKind::Integer, "1", 1, 5),
        tok(TokenKind::Comma, ",", 1, 6),
        tok(TokenKind::Integer, "2", 1, 8),
    ]));
    assert_eq!(
        nodes,
        vec![Node::Send {
            name: String::from("foo"),
            receiver: None,
            arguments: vec![int_node(1, 1, 5), int_node(2, 1, 8)],
            line: 1,
            column: 1,
        }]
    );
}

#[test]
fn next_line_value_is_a_separate_expression() {
    // foo\n1 parses as two top-level expressions.
    let nodes = top(parse(vec![
        tok(TokenKind::Identifier, "foo", 1, 1),
        tok(TokenKind::Integer, "1", 2, 1),
    ]));
    assert_eq!(
        nodes,
        vec![
            Node::Identifier { name: String::from("foo"), line: 1, column: 1 },
            int_node(1, 2, 1),
        ]
    );
}

#[test]
fn keyword_and_positional_arguments_mix() {
    // f(a: 1, 2) yields [KeywordArgument("a", 1), Integer(2)].
    let nodes = top(parse(vec![
        tok(TokenKind::Identifier, "f", 1, 1),
        tok(TokenKind::ParenOpen, "(", 1, 2),
        tok(TokenKind::Identifier, "a", 1, 3),
        tok(TokenKind::Colon, ":", 1, 4),
        tok(TokenKind::Integer, "1", 1, 6),
        tok(TokenKind::Comma, ",", 1, 7),
        tok(TokenKind::Integer, "2", 1, 9),
        tok(TokenKind::ParenClose, ")", 1, 10),
    ]));
    assert_eq!(
        nodes,
        vec![Node::Send {
            name: String::from("f"),
            receiver: None,
            arguments: vec![
                Node::KeywordArgument {
                    name: String::from("a"),
                    value: Box::new(int_node(1, 1, 6)),
                    line: 1,
                    column: 3,
                },
                int_node(2, 1, 9),
            ],
            line: 1,
            column: 1,
        }]
    );
}

#[test]
fn operator_token_names_a_method() {
    // def +(o) {} yields a method named "+".
    let nodes = top(parse(vec![
        tok(TokenKind::Function, "def", 1, 1),
        tok(TokenKind::Add, "+", 1, 5),
        tok(TokenKind::ParenOpen, "(", 1, 6),
        tok(TokenKind::Identifier, "o", 1, 7),
        tok(TokenKind::ParenClose, ")", 1, 8),
        tok(TokenKind::CurlyOpen, "{", 1, 10),
        tok(TokenKind::CurlyClose, "}", 1, 11),
    ]));
    match &nodes[0] {
        Node::Method { name, arguments, body, receiver, .. } => {
            assert_eq!(name, "+");
            assert_eq!(arguments.len(), 1);
            assert!(receiver.is_none());
            assert!(body.is_some());
        }
        other => panic!("expected a method, got {:?}", other),
    }
}

#[test]
fn bracket_assign_names_an_index_set_method() {
    // def []=(i, v) {} yields a method named "[]=".
    let nodes = top(parse(vec![
        tok(TokenKind::Function, "def", 1, 1),
        tok(TokenKind::BracketOpen, "[", 1, 5),
        tok(TokenKind::BracketClose, "]", 1, 6),
        tok(TokenKind::Assign, "=", 1, 7),
        tok(TokenKind::ParenOpen, "(", 1, 8),
        tok(TokenKind::Identifier, "i", 1, 9),
        tok(TokenKind::Comma, ",", 1, 10),
        tok(TokenKind::Identifier, "v", 1, 12),
        tok(TokenKind::ParenClose, ")", 1, 13),
        tok(TokenKind::CurlyOpen, "{", 1, 15),
        tok(TokenKind::CurlyClose, "}", 1, 16),
    ]));
    match &nodes[0] {
        Node::Method { name, arguments, .. } => {
            assert_eq!(name, "[]=");
            assert_eq!(arguments.len(), 2);
        }
        other => panic!("expected a method, got {:?}", other),
    }
}

#[test]
fn unary_minus_negates_integer_literals() {
    let nodes = top(parse(vec![
        tok(TokenKind::Sub, "-", 1, 1),
        tok(TokenKind::Integer, "1", 1, 2),
    ]));
    assert_eq!(nodes, vec![int_node(-1, 1, 1)]);
}

#[test]
fn unary_minus_negates_float_literals() {
    let nodes = top(parse(vec![
        tok(TokenKind::Sub, "-", 1, 1),
        tok(TokenKind::Float, "2.5", 1, 2),
    ]));
    assert_eq!(nodes, vec![Node::Float { value: String::from("-2.5"), line: 1, column: 1 }]);
}

#[test]
fn unary_minus_before_identifier_fails() {
    assert!(parse_err(vec![
        tok(TokenKind::Sub, "-", 1, 1),
        tok(TokenKind::Identifier, "x", 1, 2),
    ]));
}

#[test]
fn try_with_else_binding_and_expression_bodies() {
    // try x else (e) y
    let nodes = top(parse(vec![
        tok(TokenKind::Try, "try", 1, 1),
        tok(TokenKind::Identifier, "x", 1, 5),
        tok(TokenKind::Else, "else", 1, 7),
        tok(TokenKind::ParenOpen, "(", 1, 12),
        tok(TokenKind::Identifier, "e", 1, 13),
        tok(TokenKind::ParenClose, ")", 1, 14),
        tok(TokenKind::Identifier, "y", 1, 16),
    ]));
    match &nodes[0] {
        Node::Try { body, else_body, else_argument, .. } => {
            assert_eq!(
                **body,
                Node::Expressions {
                    nodes: vec![Node::Identifier { name: String::from("x"), line: 1, column: 5 }]
                }
            );
            assert_eq!(
                *else_argument.as_deref().expect("an else binding"),
                Node::Identifier { name: String::from("e"), line: 1, column: 13 }
            );
            assert_eq!(
                *else_body.as_deref().expect("an else body"),
                Node::Expressions {
                    nodes: vec![Node::Identifier { name: String::from("y"), line: 1, column: 16 }]
                }
            );
        }
        other => panic!("expected a try, got {:?}", other),
    }
}

#[test]
fn try_with_braced_bodies() {
    // try { f } else (e) { g }
    let nodes = top(parse(vec![
        tok(TokenKind::Try, "try", 1, 1),
        tok(TokenKind::CurlyOpen, "{", 1, 5),
        tok(TokenKind::Identifier, "f", 1, 7),
        tok(TokenKind::CurlyClose, "}", 1, 9),
        tok(TokenKind::Else, "else", 1, 11),
        tok(TokenKind::ParenOpen, "(", 1, 16),
        tok(TokenKind::Identifier, "e", 1, 17),
        tok(TokenKind::ParenClose, ")", 1, 18),
        tok(TokenKind::CurlyOpen, "{", 1, 20),
        tok(TokenKind::Identifier, "g", 1, 22),
        tok(TokenKind::CurlyClose, "}", 1, 24),
    ]));
    match &nodes[0] {
        Node::Try { body, else_body, else_argument, .. } => {
            assert_eq!(
                **body,
                Node::Expressions {
                    nodes: vec![Node::Identifier { name: String::from("f"), line: 1, column: 7 }]
                }
            );
            assert_eq!(
                *else_argument.as_deref().expect("an else binding"),
                Node::Identifier { name: String::from("e"), line: 1, column: 17 }
            );
            assert_eq!(
                *else_body.as_deref().expect("an else body"),
                Node::Expressions {
                    nodes: vec![Node::Identifier { name: String::from("g"), line: 1, column: 22 }]
                }
            );
        }
        other => panic!("expected a try, got {:?}", other),
    }
}

#[test]
fn class_with_trait_implementation_and_rename() {
    // class A impl B (x as y) { }
    let nodes = top(parse(vec![
        tok(TokenKind::Class, "class", 1, 1),
        tok(TokenKind::Constant, "A", 1, 7),
        tok(TokenKind::Impl, "impl", 1, 9),
        tok(TokenKind::Constant, "B", 1, 14),
        tok(TokenKind::ParenOpen, "(", 1, 16),
        tok(TokenKind::Identifier, "x", 1, 17),
        tok(TokenKind::As, "as", 1, 19),
        tok(TokenKind::Identifier, "y", 1, 22),
        tok(TokenKind::ParenClose, ")", 1, 23),
        tok(TokenKind::CurlyOpen, "{", 1, 25),
        tok(TokenKind::CurlyClose, "}", 1, 27),
    ]));
    match &nodes[0] {
        Node::Class { name, implements, body, .. } => {
            assert_eq!(name, "A");
            assert_eq!(**body, Node::Expressions { nodes: vec![] });
            assert_eq!(implements.len(), 1);
            match &implements[0] {
                Node::Implement { name, renames, .. } => {
                    match &**name {
                        Node::Type { constant, .. } => match &**constant {
                            Node::Constant { name, receiver, .. } => {
                                assert_eq!(name, "B");
                                assert!(receiver.is_none());
                            }
                            other => panic!("expected a constant, got {:?}", other),
                        },
                        other => panic!("expected a type, got {:?}", other),
                    }
                    assert_eq!(renames.len(), 1);
                    assert_eq!(
                        renames[0].0,
                        Node::Identifier { name: String::from("x"), line: 1, column: 17 }
                    );
                    assert_eq!(
                        renames[0].1,
                        Node::Identifier { name: String::from("y"), line: 1, column: 22 }
                    );
                }
                other => panic!("expected an implement, got {:?}", other),
            }
        }
        other => panic!("expected a class, got {:?}", other),
    }
}

#[test]
fn import_with_steps_and_aliased_symbols() {
    // import a::b::(C, D as E)
    let nodes = top(parse(vec![
        tok(TokenKind::Import, "import", 1, 1),
        tok(TokenKind::Identifier, "a", 1, 8),
        tok(TokenKind::ColonColon, "::", 1, 9),
        tok(TokenKind::Identifier, "b", 1, 11),
        tok(TokenKind::ColonColon, "::", 1, 12),
        tok(TokenKind::ParenOpen, "(", 1, 14),
        tok(TokenKind::Constant, "C", 1, 15),
        tok(TokenKind::Comma, ",", 1, 16),
        tok(TokenKind::Constant, "D", 1, 18),
        tok(TokenKind::As, "as", 1, 20),
        tok(TokenKind::Constant, "E", 1, 23),
        tok(TokenKind::ParenClose, ")", 1, 24),
    ]));
    match &nodes[0] {
        Node::Import { steps, symbols, .. } => {
            assert_eq!(
                steps,
                &vec![
                    Node::Identifier { name: String::from("a"), line: 1, column: 8 },
                    Node::Identifier { name: String::from("b"), line: 1, column: 11 },
                ]
            );
            assert_eq!(symbols.len(), 2);
            match &symbols[0] {
                Node::ImportSymbol { symbol, alias } => {
                    assert!(alias.is_none());
                    match &**symbol {
                        Node::Constant { name, .. } => assert_eq!(name, "C"),
                        other => panic!("expected a constant, got {:?}", other),
                    }
                }
                other => panic!("expected an import symbol, got {:?}", other),
            }
            match &symbols[1] {
                Node::ImportSymbol { symbol, alias } => {
                    match &**symbol {
                        Node::Constant { name, .. } => assert_eq!(name, "D"),
                        other => panic!("expected a constant, got {:?}", other),
                    }
                    match alias.as_deref().expect("an alias") {
                        Node::Constant { name, .. } => assert_eq!(name, "E"),
                        other => panic!("expected a constant, got {:?}", other),
                    }
                }
                other => panic!("expected an import symbol, got {:?}", other),
            }
        }
        other => panic!("expected an import, got {:?}", other),
    }
}

#[test]
fn union_type_keeps_three_members_in_order() {
    // fn(x: A | B | C) {} keeps the union with exactly three members.
    let nodes = top(parse(vec![
        tok(TokenKind::Function, "fn", 1, 1),
        tok(TokenKind::ParenOpen, "(", 1, 3),
        tok(TokenKind::Identifier, "x", 1, 4),
        tok(TokenKind::Colon, ":", 1, 5),
        tok(TokenKind::Constant, "A", 1, 7),
        tok(TokenKind::BitwiseOr, "|", 1, 9),
        tok(TokenKind::Constant, "B", 1, 11),
        tok(TokenKind::BitwiseOr, "|", 1, 13),
        tok(TokenKind::Constant, "C", 1, 15),
        tok(TokenKind::ParenClose, ")", 1, 16),
        tok(TokenKind::CurlyOpen, "{", 1, 18),
        tok(TokenKind::CurlyClose, "}", 1, 19),
    ]));
    match &nodes[0] {
        Node::Closure { arguments, .. } => match &arguments[0] {
            Node::ArgumentDefine { value_type, .. } => {
                match value_type.as_deref().expect("a declared type") {
                    Node::UnionType { types, .. } => {
                        assert_eq!(types.len(), 3);
                        let names: Vec<&str> = types
                            .iter()
                            .map(|t| match t {
                                Node::Type { constant, .. } => match &**constant {
                                    Node::Constant { name, .. } => name.as_str(),
                                    _ => panic!("expected a constant"),
                                },
                                _ => panic!("expected a type"),
                            })
                            .collect();
                        assert_eq!(names, vec!["A", "B", "C"]);
                    }
                    other => panic!("expected a union type, got {:?}", other),
                }
            }
            other => panic!("expected an argument definition, got {:?}", other),
        },
        other => panic!("expected a closure, got {:?}", other),
    }
}

#[test]
fn every_token_position_appears_in_a_fragment_tree() {
    // 7 * 8 + 9: each consumed token's position is on some node.
    let nodes = top(parse(vec![
        tok(TokenKind::Integer, "7", 1, 1),
        tok(TokenKind::Mul, "*", 2, 2),
        tok(TokenKind::Integer, "8", 3, 3),
        tok(TokenKind::Add, "+", 4, 4),
        tok(TokenKind::Integer, "9", 5, 5),
    ]));
    let mut positions = Vec::new();
    collect_positions(&nodes[0], &mut positions);
    for expected in [(1, 1), (2, 2), (3, 3), (4, 4), (5, 5)] {
        assert!(positions.contains(&expected), "missing position {:?}", expected);
    }
}

#[test]
fn let_definition_with_declared_type() {
    // let x: T = 1
    let nodes = top(parse(vec![
        tok(TokenKind::Let, "let", 1, 1),
        tok(TokenKind::Identifier, "x", 1, 5),
        tok(TokenKind::Colon, ":", 1, 6),
        tok(TokenKind::Constant, "T", 1, 8),
        tok(TokenKind::Assign, "=", 1, 10),
        tok(TokenKind::Integer, "1", 1, 12),
    ]));
    assert_eq!(
        nodes,
        vec![Node::LetDefine {
            name: Box::new(Node::Identifier { name: String::from("x"), line: 1, column: 5 }),
            value: Box::new(int_node(1, 1, 12)),
            value_type: Some(Box::new(Node::Constant {
                receiver: None,
                name: String::from("T"),
                line: 1,
                column: 8,
            })),
            line: 1,
            column: 1,
        }]
    );
}

#[test]
fn message_chain_with_arguments() {
    // 1.add(2)
    let nodes = top(parse(vec![
        tok(TokenKind::Integer, "1", 1, 1),
        tok(TokenKind::Dot, ".", 1, 2),
        tok(TokenKind::Identifier, "add", 1, 3),
        tok(TokenKind::ParenOpen, "(", 1, 6),
        tok(TokenKind::Integer, "2", 1, 7),
        tok(TokenKind::ParenClose, ")", 1, 8),
    ]));
    assert_eq!(
        nodes,
        vec![Node::Send {
            name: String::from("add"),
            receiver: Some(Box::new(int_node(1, 1, 1))),
            arguments: vec![int_node(2, 1, 7)],
            line: 1,
            column: 3,
        }]
    );
}

#[test]
fn integer_literal_beyond_i64_fails() {
    assert!(parse_err(vec![tok(TokenKind::Integer, "9223372036854775808", 1, 1)]));
    let nodes = top(parse(vec![tok(TokenKind::Integer, "9223372036854775807", 1, 1)]));
    assert_eq!(nodes, vec![int_node(i64::MAX, 1, 1)]);
}

#[test]
fn expression_cannot_start_with_a_comma() {
    assert!(parse_err(vec![tok(TokenKind::Comma, ",", 1, 1)]));
}

#[test]
fn parser_line_and_column_track_consumed_tokens() {
    let mut parser = Parser::new(vec![
        tok(TokenKind::Integer, "1", 3, 9),
    ]);
    assert_eq!(parser.line(), 1);
    assert_eq!(parser.column(), 1);
    parser.parse().expect("the parse should succeed");
    assert_eq!(parser.line(), 3);
    assert_eq!(parser.column(), 9);
}

#[test]
fn reassignment_of_local_and_attribute() {
    // x = 1 and @a = 2
    let nodes = top(parse(vec![
        tok(TokenKind::Identifier, "x", 1, 1),
        tok(TokenKind::Assign, "=", 1, 3),
        tok(TokenKind::Integer, "1", 1, 5),
        tok(TokenKind::Attribute, "@a", 2, 1),
        tok(TokenKind::Assign, "=", 2, 4),
        tok(TokenKind::Integer, "2", 2, 6),
    ]));
    assert_eq!(
        nodes,
        vec![
            Node::Reassign {
                variable: Box::new(Node::Identifier {
                    name: String::from("x"),
                    line: 1,
                    column: 1,
                }),
                value: Box::new(int_node(1, 1, 5)),
                line: 1,
                column: 1,
            },
            Node::Reassign {
                variable: Box::new(Node::Attribute {
                    name: String::from("@a"),
                    line: 2,
                    column: 1,
                }),
                value: Box::new(int_node(2, 2, 6)),
                line: 2,
                column: 1,
            },
        ]
    );
}

#[test]
fn hash_literal_keeps_pairs_in_order() {
    // %{ 1: 2, 3: 4 }
    let nodes = top(parse(vec![
        tok(TokenKind::HashOpen, "%{", 1, 1),
        tok(TokenKind::Integer, "1", 1, 4),
        tok(TokenKind::Colon, ":", 1, 5),
        tok(TokenKind::Integer, "2", 1, 7),
        tok(TokenKind::Comma, ",", 1, 8),
        tok(TokenKind::Integer, "3", 1, 10),
        tok(TokenKind::Colon, ":", 1, 11),
        tok(TokenKind::Integer, "4", 1, 13),
        tok(TokenKind::CurlyClose, "}", 1, 15),
    ]));
    assert_eq!(
        nodes,
        vec![Node::Hash {
            pairs: vec![
                (int_node(1, 1, 4), int_node(2, 1, 7)),
                (int_node(3, 1, 10), int_node(4, 1, 13)),
            ],
            line: 1,
            column: 1,
        }]
    );
}

#[test]
fn bracket_send_tolerates_a_trailing_comma() {
    // 1[2,] keeps the single argument.
    let nodes = top(parse(vec![
        tok(TokenKind::Integer, "1", 1, 1),
        tok(TokenKind::BracketOpen, "[", 1, 2),
        tok(TokenKind::Integer, "2", 1, 3),
        tok(TokenKind::Comma, ",", 1, 4),
        tok(TokenKind::BracketClose, "]", 1, 5),
    ]));
    assert_eq!(
        nodes,
        vec![Node::Send {
            name: String::from("[]"),
            receiver: Some(Box::new(int_node(1, 1, 1))),
            arguments: vec![int_node(2, 1, 3)],
            line: 1,
            column: 2,
        }]
    );
}

#[test]
fn method_definition_with_receiver() {
    // def foo.bar {}
    let nodes = top(parse(vec![
        tok(TokenKind::Function, "def", 1, 1),
        tok(TokenKind::Identifier, "foo", 1, 5),
        tok(TokenKind::Dot, ".", 1, 8),
        tok(TokenKind::Identifier, "bar", 1, 9),
        tok(TokenKind::CurlyOpen, "{", 1, 13),
        tok(TokenKind::CurlyClose, "}", 1, 14),
    ]));
    match &nodes[0] {
        Node::Method { receiver, name, body, .. } => {
            assert_eq!(name, "bar");
            assert_eq!(
                *receiver.as_deref().expect("a receiver"),
                Node::Identifier { name: String::from("foo"), line: 1, column: 5 }
            );
            assert!(body.is_some());
        }
        other => panic!("expected a method, got {:?}", other),
    }
}

#[test]
fn setter_name_gets_a_trailing_equals_sign() {
    // def foo=(v) {} yields a method named "foo=".
    let nodes = top(parse(vec![
        tok(TokenKind::Function, "def", 1, 1),
        tok(TokenKind::Identifier, "foo", 1, 5),
        tok(TokenKind::Assign, "=", 1, 8),
        tok(TokenKind::ParenOpen, "(", 1, 9),
        tok(TokenKind::Identifier, "v", 1, 10),
        tok(TokenKind::ParenClose, ")", 1, 11),
        tok(TokenKind::CurlyOpen, "{", 1, 13),
        tok(TokenKind::CurlyClose, "}", 1, 14),
    ]));
    match &nodes[0] {
        Node::Method { name, .. } => assert_eq!(name, "foo="),
        other => panic!("expected a method, got {:?}", other),
    }
}

#[test]
fn return_takes_a_same_line_value_only() {
    // return 1\nreturn\n1
    let nodes = top(parse(vec![
        tok(TokenKind::Return, "return", 1, 1),
        tok(TokenKind::Integer, "1", 1, 8),
        tok(TokenKind::Return, "return", 2, 1),
        tok(TokenKind::Integer, "1", 3, 1),
    ]));
    assert_eq!(
        nodes,
        vec![
            Node::Return { value: Some(Box::new(int_node(1, 1, 8))), line: 1, column: 1 },
            Node::Return { value: None, line: 2, column: 1 },
            int_node(1, 3, 1),
        ]
    );
}

#[test]
fn throw_requires_a_value() {
    let nodes = top(parse(vec![
        tok(TokenKind::Throw, "throw", 1, 1),
        tok(TokenKind::Integer, "1", 1, 7),
    ]));
    assert_eq!(
        nodes,
        vec![Node::Throw { value: Box::new(int_node(1, 1, 7)), line: 1, column: 1 }]
    );
    assert!(parse_err(vec![tok(TokenKind::Throw, "throw", 1, 1)]));
}

#[test]
fn type_alias_takes_a_union_value() {
    // type A = B | C
    let nodes = top(parse(vec![
        tok(TokenKind::Type, "type", 1, 1),
        tok(TokenKind::Constant, "A", 1, 6),
        tok(TokenKind::Assign, "=", 1, 8),
        tok(TokenKind::Constant, "B", 1, 10),
        tok(TokenKind::BitwiseOr, "|", 1, 12),
        tok(TokenKind::Constant, "C", 1, 14),
    ]));
    match &nodes[0] {
        Node::TypeDefine { name, value, .. } => {
            assert!(matches!(&**name, Node::Type { .. }));
            match &**value {
                Node::UnionType { types, .. } => assert_eq!(types.len(), 2),
                other => panic!("expected a union type, got {:?}", other),
            }
        }
        other => panic!("expected a type definition, got {:?}", other),
    }
}

#[test]
fn literals_comments_and_self_parse_verbatim() {
    let nodes = top(parse(vec![
        tok(TokenKind::Str, "hello", 1, 1),
        tok(TokenKind::Float, "2.5", 2, 1),
        tok(TokenKind::Comment, " note", 3, 1),
        tok(TokenKind::SelfObject, "self", 4, 1),
        tok(TokenKind::Constant, "A", 5, 1),
        tok(TokenKind::ColonColon, "::", 5, 2),
        tok(TokenKind::Constant, "B", 5, 4),
    ]));
    assert_eq!(
        nodes,
        vec![
            Node::Str { value: String::from("hello"), line: 1, column: 1 },
            Node::Float { value: String::from("2.5"), line: 2, column: 1 },
            Node::Comment { value: String::from(" note"), line: 3, column: 1 },
            Node::SelfObject { line: 4, column: 1 },
            Node::Constant {
                receiver: Some(Box::new(Node::Constant {
                    receiver: None,
                    name: String::from("A"),
                    line: 5,
                    column: 1,
                })),
                name: String::from("B"),
                line: 5,
                column: 4,
            },
        ]
    );
}

#[test]
fn trait_definition_with_braced_body() {
    // trait T { 1 }
    let nodes = top(parse(vec![
        tok(TokenKind::Trait, "trait", 1, 1),
        tok(TokenKind::Constant, "T", 1, 7),
        tok(TokenKind::CurlyOpen, "{", 1, 9),
        tok(TokenKind::Integer, "1", 1, 11),
        tok(TokenKind::CurlyClose, "}", 1, 13),
    ]));
    match &nodes[0] {
        Node::Trait { name, body, .. } => {
            assert_eq!(name, "T");
            assert_eq!(**body, Node::Expressions { nodes: vec![int_node(1, 1, 11)] });
        }
        other => panic!("expected a trait, got {:?}", other),
    }
}

#[test]
fn cast_wraps_the_value_with_its_type() {
    // 1 as T
    let nodes = top(parse(vec![
        tok(TokenKind::Integer, "1", 1, 1),
        tok(TokenKind::As, "as", 1, 3),
        tok(TokenKind::Constant, "T", 1, 6),
    ]));
    match &nodes[0] {
        Node::TypeCast { value, target_type, .. } => {
            assert_eq!(**value, int_node(1, 1, 1));
            assert!(matches!(&**target_type, Node::Type { .. }));
        }
        other => panic!("expected a cast, got {:?}", other),
    }
}

#[test]
fn failure_message_names_the_unexpected_kind() {
    let mut parser = Parser::new(vec![tok(TokenKind::Comma, ",", 2, 7)]);
    let err = parser.parse().expect_err("a comma cannot start an expression");
    assert_eq!(err.line, 2);
    assert_eq!(err.column, 7);
    assert_eq!(err.message(), "expected the start of an expression, got ,");
    let mut parser = Parser::new(vec![tok(TokenKind::Throw, "throw", 1, 1)]);
    let err = parser.parse().expect_err("throw needs a value");
    assert_eq!(err.message(), "expected an expression, got the end of the input");
}

#[test]
fn malformed_imports_and_renames_fail() {
    // import a:: (nothing after the separator)
    assert!(parse_err(vec![
        tok(TokenKind::Import, "import", 1, 1),
        tok(TokenKind::Identifier, "a", 1, 8),
        tok(TokenKind::ColonColon, "::", 1, 9),
    ]));
    // import a::(C  (unclosed symbol list)
    assert!(parse_err(vec![
        tok(TokenKind::Import, "import", 1, 1),
        tok(TokenKind::Identifier, "a", 1, 8),
        tok(TokenKind::ColonColon, "::", 1, 9),
        tok(TokenKind::ParenOpen, "(", 1, 11),
        tok(TokenKind::Constant, "C", 1, 12),
    ]));
    // class A impl B (x as) { }  (rename pair missing its new name)
    assert!(parse_err(vec![
        tok(TokenKind::Class, "class", 1, 1),
        tok(TokenKind::Constant, "A", 1, 7),
        tok(TokenKind::Impl, "impl", 1, 9),
        tok(TokenKind::Constant, "B", 1, 14),
        tok(TokenKind::ParenOpen, "(", 1, 16),
        tok(TokenKind::Identifier, "x", 1, 17),
        tok(TokenKind::As, "as", 1, 19),
        tok(TokenKind::ParenClose, ")", 1, 22),
        tok(TokenKind::CurlyOpen, "{", 1, 24),
        tok(TokenKind::CurlyClose, "}", 1, 25),
    ]));
}

#[test]
fn bare_path_import_keeps_empty_symbols() {
    // import a::b
    let nodes = top(parse(vec![
        tok(TokenKind::Import, "import", 1, 1),
        tok(TokenKind::Identifier, "a", 1, 8),
        tok(TokenKind::ColonColon, "::", 1, 9),
        tok(TokenKind::Identifier, "b", 1, 11),
    ]));
    match &nodes[0] {
        Node::Import { steps, symbols, .. } => {
            assert_eq!(steps.len(), 2);
            assert!(symbols.is_empty());
        }
        other => panic!("expected an import, got {:?}", other),
    }
}

#[test]
fn indexing_an_identifier_is_an_index_send() {
    // x[1] on one line parses as a "[]" send with receiver x.
    let nodes = top(parse(vec![
        tok(TokenKind::Identifier, "x", 1, 1),
        tok(TokenKind::BracketOpen, "[", 1, 2),
        tok(TokenKind::Integer, "1", 1, 3),
        tok(TokenKind::BracketClose, "]", 1, 4),
    ]));
    assert_eq!(
        nodes,
        vec![Node::Send {
            name: String::from("[]"),
            receiver: Some(Box::new(Node::Identifier {
                name: String::from("x"),
                line: 1,
                column: 1,
            })),
            arguments: vec![int_node(1, 1, 3)],
            line: 1,
            column: 2,
        }]
    );
}

#[test]
fn identifier_operands_follow_the_precedence_ladder() {
    // a + b * c parses as Add(a, Mul(b, c)).
    let nodes = top(parse(vec![
        tok(TokenKind::Identifier, "a", 1, 1),
        tok(TokenKind::Add, "+", 1, 3),
        tok(TokenKind::Identifier, "b", 1, 5),
        tok(TokenKind::Mul, "*", 1, 7),
        tok(TokenKind::Identifier, "c", 1, 9),
    ]));
    let ident = |name: &str, column: usize| Node::Identifier {
        name: String::from(name),
        line: 1,
        column,
    };
    assert_eq!(
        nodes,
        vec![Node::Binary {
            op: BinaryOp::Add,
            left: Box::new(ident("a", 1)),
            right: Box::new(Node::Binary {
                op: BinaryOp::Mul,
                left: Box::new(ident("b", 5)),
                right: Box::new(ident("c", 9)),
                line: 1,
                column: 7,
            }),
            line: 1,
            column: 3,
        }]
    );
}

#[test]
fn identifier_minus_on_a_later_line_subtracts() {
    // a\n- b: the minus on a later line is a binary operator, not an
    // argument start; same-line "a - b" instead promotes the minus to a
    // paren-less argument, which fails on an identifier operand.
    let nodes = top(parse(vec![
        tok(TokenKind::Identifier, "a", 1, 1),
        tok(TokenKind::Sub, "-", 2, 1),
        tok(TokenKind::Identifier, "b", 2, 3),
    ]));
    match &nodes[0] {
        Node::Binary { op, .. } => assert_eq!(*op, BinaryOp::Sub),
        other => panic!("expected a binary node, got {:?}", other),
    }
    assert!(parse_err(vec![
        tok(TokenKind::Identifier, "a", 1, 1),
        tok(TokenKind::Sub, "-", 1, 3),
        tok(TokenKind::Identifier, "b", 1, 5),
    ]));
}

#[test]
fn fragment_positions_come_in_source_order() {
    // 1 + 2 * 3: an in-order walk of the tree meets positions in input order.
    let nodes = top(parse(vec![
        tok(TokenKind::Integer, "1", 1, 1),
        tok(TokenKind::Add, "+", 1, 3),
        tok(TokenKind::Integer, "2", 1, 5),
        tok(TokenKind::Mul, "*", 1, 7),
        tok(TokenKind::Integer, "3", 1, 9),
    ]));
    let mut positions = Vec::new();
    collect_inorder(&nodes[0], &mut positions);
    for pair in positions.windows(2) {
        assert!(pair[0] <= pair[1], "positions out of order: {:?}", pair);
    }
}

fn collect_inorder(n: &Node, out: &mut Vec<(usize, usize)>) {
    match n {
        Node::Integer { line, column, .. } => out.push((*line, *column)),
        Node::Binary { left, right, line, column, .. } => {
            collect_inorder(left, out);
            out.push((*line, *column));
            collect_inorder(right, out);
        }
        _ => {}
    }
}

#[test]
fn bracket_send_keeps_arguments_in_order_with_trailing_comma() {
    // 1[2, x,] keeps both arguments in order.
    let nodes = top(parse(vec![
        tok(TokenKind::Integer, "1", 1, 1),
        tok(TokenKind::BracketOpen, "[", 1, 2),
        tok(TokenKind::Integer, "2", 1, 3),
        tok(TokenKind::Comma, ",", 1, 4),
        tok(TokenKind::Identifier, "x", 1, 6),
        tok(TokenKind::Comma, ",", 1, 7),
        tok(TokenKind::BracketClose, "]", 1, 8),
    ]));
    assert_eq!(
        nodes,
        vec![Node::Send {
            name: String::from("[]"),
            receiver: Some(Box::new(int_node(1, 1, 1))),
            arguments: vec![
                int_node(2, 1, 3),
                Node::Identifier { name: String::from("x"), line: 1, column: 6 },
            ],
            line: 1,
            column: 2,
        }]
    );
}
