use c_compiler::lex::lex;
use c_compiler::lexer::Lexer;
use c_compiler::tokens::T;

#[test]
fn test_lex_helper() {
    let program = "
        int main(void) {
            return 0;
        }
    ";
    println!("{:?}", lex(program).unwrap());
    let ts = lex(program).unwrap();
    assert!(matches!(ts[0], T::KWInt));
    assert!(matches!(ts[ts.len() - 1], T::Eof));
}

#[test]
fn test_1() {
    let prog = "int main() {return 100;}";
    let mut lexer = Lexer::new(prog.as_bytes().to_vec());
    loop {
        let token = lexer.get_one_token().unwrap();
        println!("{:?}", token);
        if matches!(token, T::Eof) {
            break;
        }
    }
}

#[test]
fn test_2() {
    let prog = "   int   main    (  )  {   return  0 ; }";
    let mut lexer = Lexer::new(prog.as_bytes().to_vec());
    loop {
        let token = lexer.get_one_token().unwrap();
        println!("{:?}", token);
        if matches!(token, T::Eof) {
            break;
        }
    }
}

#[test]
fn test_3() {
    let prog = "
    int main() {
        return 1 + 2;
    }
    ";
    let mut lexer = Lexer::new(prog.as_bytes().to_vec());
    loop {
        let token = lexer.get_one_token().unwrap();
        println!("{:?}", token);
        if matches!(token, T::Eof) {
            break;
        }
    }
}

#[test]
fn test_4() {
    let prog = "
    int main() {
        return -1 != -2;
    }
    ";
    let mut lexer = Lexer::new(prog.as_bytes().to_vec());
    loop {
        let token = lexer.get_one_token().unwrap();
        println!("{:?}", token);
        if matches!(token, T::Eof) {
            break;
        }
    }
}

#[test]
fn lexes_long_suffix_by_tag() {
    let ts = lex("42L").unwrap();
    assert!(matches!(ts[0], T::ConstLong(42)));
    let ts = lex("42").unwrap();
    assert!(matches!(ts[0], T::ConstInt(42)));
}

#[test]
fn rejects_malformed_number() {
    assert!(lex("123abc").is_err());
}

#[test]
fn rejects_unknown_character() {
    assert!(lex("int main(void) { return #; }").is_err());
}

#[test]
fn rejects_carriage_return() {
    assert!(lex("int\rmain").is_err());
}

#[test]
fn respells_tokens() {
    let src = "int main(void) { return 1 + 2 * 3; }";
    let ts = lex(src).unwrap();
    let mut out = String::new();
    for t in &ts {
        out.push_str(c_compiler::tokens::spell_token(t).as_str());
        out.push(' ');
    }
    let ts2 = lex(&out).unwrap();
    assert_eq!(ts.len(), ts2.len());
    for (a, b) in ts.iter().zip(ts2.iter()) {
        assert!(c_compiler::tokens::token_eq(a, b));
    }
}
