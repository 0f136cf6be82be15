use c_compiler::ast::{Block, BlockItem, Declaration, ProgType, Statement};
use c_compiler::lex::lex;
use c_compiler::parse::parse;

#[test]
fn test_parse() {
    let tokens = lex("int main(void) { return 0; }").unwrap();
    let tree = parse(tokens).unwrap();
    println!("tree: {:?}", tree);
    let ProgType::Program(decls) = tree;
    assert_eq!(decls.len(), 1);
    match &decls[0] {
        Declaration::FunDecl(fd) => {
            assert_eq!(fd.name, "main");
            let Some(Block::Block(items)) = &fd.body else {
                panic!("expected a body");
            };
            assert_eq!(items.len(), 1);
            assert!(matches!(items[0], BlockItem::S(Statement::Return(_))));
        }
        _ => panic!("expected a function declaration"),
    }
}

#[test]
fn rejects_bad_specifiers() {
    let tokens = lex("static extern int x;").unwrap();
    assert!(parse(tokens).is_err());
}

#[test]
fn rejects_stray_token() {
    let tokens = lex("int main(void) { return 0; } }").unwrap();
    assert!(parse(tokens).is_err());
}
