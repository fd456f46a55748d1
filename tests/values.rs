use benda::ir::Term;
use benda::numeric::{u24, Number};
use benda::scanner::{Scanner, TokenType};
use benda::tree::{BuiltinType, Leaf, Node, Tree, TreeArg, TreeType};

#[test]
fn u24_wraps_on_creation_and_addition() {
    assert_eq!(u24::new(16777216 + 7).get(), 7);
    let a = u24::new(16777215);
    let b = u24::new(2);
    assert_eq!(a.__add__(&b).get(), 1);
    assert_eq!(u24::new(40).__add__(&u24::new(2)).get(), 42);
}

#[test]
fn u24_prints_in_decimal() {
    assert_eq!(u24::new(0).__str__(), "0");
    assert_eq!(u24::new(9).__str__(), "9");
    assert_eq!(u24::new(10).__str__(), "10");
    assert_eq!(u24::new(16777215).__str__(), "16777215");
    assert_eq!(u24::new(16777216 + 123).__str__(), "123");
}

#[test]
fn numbers_wrap_into_24_bits() {
    assert_eq!(Number::from_u32(16777216 * 3 + 4), Number::U24(4));
    assert_eq!(Number::from_i32(-1), Number::I24(-1));
    assert_eq!(Number::from_i32(8388607), Number::I24(8388607));
    assert_eq!(Number::from_i32(8388608), Number::I24(-8388608));
    assert_eq!(Number::from_i32(-8388609), Number::I24(8388607));
    assert_eq!(Number::from_limbs(&vec![]), Number::U24(0));
    assert_eq!(Number::from_limbs(&vec![16777217, 42]), Number::U24(1));
    assert_eq!(u24::new(5).to_bend(), Number::U24(5));
}

fn kinds(source: &str) -> Vec<TokenType> {
    let mut sc = Scanner::new(source.to_string());
    sc.scan_tokens();
    sc.tokens.iter().map(|t| t.tType).collect()
}

#[test]
fn scanner_reads_a_dump() {
    let mut sc = Scanner::new("Module(body=[Return(value=Constant(value=5))])".to_string());
    sc.scan_tokens();
    let got: Vec<TokenType> = sc.tokens.iter().map(|t| t.tType).collect();
    assert_eq!(
        got,
        vec![
            TokenType::Module,
            TokenType::LeftParen,
            TokenType::Body,
            TokenType::Equal,
            TokenType::LeftBracket,
            TokenType::Return,
            TokenType::LeftParen,
            TokenType::Value,
            TokenType::Equal,
            TokenType::Constant,
            TokenType::LeftParen,
            TokenType::Value,
            TokenType::Equal,
            TokenType::Number,
            TokenType::RightParen,
            TokenType::RightParen,
            TokenType::RightBracket,
            TokenType::RightParen,
            TokenType::EOF,
        ]
    );
    assert_eq!(sc.tokens[13].lexeme, "5");
    assert_eq!(sc.tokens[13].literal.as_deref(), Some("5"));
    assert_eq!(sc.tokens[18].lexeme, "");
}

#[test]
fn scanner_reads_strings_numbers_and_lines() {
    let mut sc = Scanner::new("name='f'\n12.5 7.x 'a\nb'".to_string());
    sc.scan_tokens();
    let t = &sc.tokens;
    assert_eq!(t[0].tType, TokenType::Name);
    assert_eq!(t[1].tType, TokenType::Equal);
    assert_eq!(t[2].tType, TokenType::String);
    assert_eq!(t[2].lexeme, "'f'");
    assert_eq!(t[2].literal.as_deref(), Some("f"));
    assert_eq!(t[2].line, 1);
    assert_eq!(t[3].tType, TokenType::Number);
    assert_eq!(t[3].lexeme, "12.5");
    assert_eq!(t[3].line, 2);
    assert_eq!(t[4].lexeme, "7");
    assert_eq!(t[5].tType, TokenType::Unknown);
    assert_eq!(t[5].lexeme, "x");
    assert_eq!(t[6].tType, TokenType::String);
    assert_eq!(t[6].literal.as_deref(), Some("a\nb"));
    assert_eq!(t[6].line, 3);
    assert_eq!(t[7].tType, TokenType::EOF);
}

#[test]
fn scanner_handles_edges() {
    assert_eq!(kinds(""), vec![TokenType::EOF]);
    assert_eq!(kinds("args"), vec![TokenType::Args, TokenType::EOF]);
    assert_eq!(kinds("été2 ; 3"), vec![TokenType::Unknown, TokenType::Number, TokenType::EOF]);
    let mut sc = Scanner::new("'open".to_string());
    sc.scan_tokens();
    assert_eq!(sc.tokens[0].tType, TokenType::String);
    assert_eq!(sc.tokens[0].literal.as_deref(), Some("open"));
}

fn is_u24(t: &Term, n: u32) -> bool {
    matches!(t, Term::Number(Number::U24(v)) if *v == n)
}

#[test]
fn leaf_and_node_terms() {
    let leaf = Leaf::__new__(16777216 + 3);
    assert_eq!(leaf.value.get(), 3);
    assert!(is_u24(&leaf.to_bend(), 3));
    let node = Node::new(vec![TreeArg::Leaf(Leaf::__new__(1)), TreeArg::Leaf(Leaf::__new__(2))]).unwrap();
    match node.to_bend().unwrap() {
        Term::Constructor { name, args } => {
            assert_eq!(name, "Tree/Node");
            assert_eq!(args.len(), 2);
            assert!(is_u24(&args[0], 1) && is_u24(&args[1], 2));
        }
        other => panic!("unexpected term {:?}", other),
    }
    assert!(Node::new(vec![TreeArg::Leaf(Leaf::__new__(1))]).is_none());
}

#[test]
fn nested_tree_terms() {
    let inner = Node::new(vec![TreeArg::Leaf(Leaf::__new__(1)), TreeArg::Leaf(Leaf::__new__(2))]).unwrap();
    let outer = Node::new(vec![TreeArg::Node(inner), TreeArg::Tree(Tree::from_leaf(Leaf::__new__(3)))]).unwrap();
    let tree = Tree::from_node(outer);
    match tree.to_bend().unwrap() {
        Term::Constructor { name, args } => {
            assert_eq!(name, "Tree/Node");
            assert!(matches!(&args[0], Term::Constructor { args: a, .. } if a.len() == 2));
            assert!(is_u24(&args[1], 3));
        }
        other => panic!("unexpected term {:?}", other),
    }
    let empty = Tree { leaf: None, node: None };
    assert!(empty.to_bend().is_none());
    let holed = Node { left: Some(Box::new(Tree { leaf: None, node: None })), right: None };
    assert!(holed.to_bend().is_none());
}

#[test]
fn tree_constructor_takes_a_leaf() {
    let t = Tree::new(vec![TreeArg::Leaf(Leaf::__new__(4))]).unwrap();
    assert!(is_u24(&t.to_bend().unwrap(), 4));
    let n = Node::new(vec![TreeArg::Leaf(Leaf::__new__(1)), TreeArg::Leaf(Leaf::__new__(2))]).unwrap();
    assert!(Tree::new(vec![TreeArg::Node(n)]).is_none());
    assert!(Tree::new(vec![]).is_none());
}

#[test]
fn host_type_names() {
    assert_eq!(TreeType::from_name(&"benda.Leaf".to_string()), Some(TreeType::Leaf));
    assert_eq!(TreeType::from_name(&"benda.Node".to_string()), Some(TreeType::Node));
    assert_eq!(TreeType::from_name(&"benda.Tree".to_string()), Some(TreeType::Tree));
    assert_eq!(TreeType::from_name(&"int".to_string()), None);
    assert_eq!(BuiltinType::from_name(&"float".to_string()), Some(BuiltinType::F32));
    assert_eq!(BuiltinType::from_name(&"int".to_string()), Some(BuiltinType::I32));
    assert_eq!(BuiltinType::from_name(&"benda.u24".to_string()), Some(BuiltinType::U24));
    assert_eq!(BuiltinType::from_name(&"benda.Tree".to_string()), Some(BuiltinType::Tree));
    assert_eq!(BuiltinType::from_name(&"str".to_string()), None);
}

#[test]
fn scanner_ends_at_the_end_and_counts_lines() {
    let mut sc = Scanner::new("Return('hi', 42)\nName\n".to_string());
    sc.scan_tokens();
    assert_eq!(sc.current, 22);
    assert_eq!(sc.line, 3);
    let eofs = sc.tokens.iter().filter(|t| t.tType == TokenType::EOF).count();
    assert_eq!(eofs, 1);
    assert_eq!(sc.tokens.last().unwrap().tType, TokenType::EOF);
    assert_eq!(sc.tokens[sc.tokens.len() - 2].line, 2);
}
