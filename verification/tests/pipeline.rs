use c_compiler::compile;

#[test]
fn returns_arithmetic() {
    let out = compile("int main(void){return 2+3*4;}").unwrap();
    assert!(out.contains("main:"));
    assert!(out.contains("\tret"));
    assert!(out.contains(".note.GNU-stack"));
    assert!(out.contains("$14") || (out.contains("imull") && out.contains("addl")));
}

#[test]
fn do_while_loop() {
    let out = compile("int main(void){int a=1; do { a=a*2; } while (a<11); return a;}").unwrap();
    assert!(out.contains(".Ldo_loop_start"));
    assert!(out.contains("imull"));
    assert!(out.contains("cmpl"));
    assert!(out.contains("jne") || out.contains("jl"));
}

#[test]
fn two_functions_and_register_arguments() {
    let out =
        compile("int add(int a,int b){return a+b;} int main(void){int s=add(1+2,4); return s+s;}")
            .unwrap();
    assert!(out.contains("add:"));
    assert!(out.contains("main:"));
    assert!(out.contains("%edi"));
    assert!(out.contains("%esi"));
    assert!(out.contains("call add"));
    assert!(out.contains("%eax"));
}

#[test]
fn static_variable_in_data_section() {
    let out = compile("static int g=5; int main(void){return g;}").unwrap();
    assert!(out.contains(".data"));
    assert!(out.contains(".align 4"));
    assert!(out.contains(".quad 5"));
    assert!(out.contains("g(%rip)"));
    assert!(!out.contains(".globl g"));
    assert!(out.contains(".globl main"));
}

#[test]
fn non_static_file_scope_variable_is_global() {
    let out = compile("int g = 5; int main(void){return g;}").unwrap();
    assert!(out.contains(".globl g"));
}

#[test]
fn static_declaration_after_non_static_is_an_error() {
    assert!(compile("int g; static int g; int main(void){return g;}").is_err());
}

#[test]
fn extern_keeps_prior_static_linkage() {
    let out = compile("static int g = 5; extern int g; int main(void){return g;}").unwrap();
    assert!(!out.contains(".globl g"));
}

#[test]
fn long_argument_truncated_return() {
    let out =
        compile("long f(long x){return x;} int main(void){return (int)f(1234567890123L);}")
            .unwrap();
    assert!(out.contains("call f"));
    assert!(out.contains("movq") || out.contains("movslq"));
    assert!(out.contains("f:"));
}

#[test]
fn for_loop_labels() {
    let out =
        compile("int main(void){int x=0; for (int i=0;i<3;i=i+1) x=x+i; return x;}").unwrap();
    assert!(out.contains(".Lcontinue."));
    assert!(out.contains(".Lbreak."));
    assert!(out.contains("jmp .Lfor_start"));
}

#[test]
fn whitespace_reformatting_gives_identical_output() {
    let a = compile("int main(void){return 2+3*4;}").unwrap();
    let b = compile("int  main ( void ) {\n\treturn 2 + 3 * 4 ;\n}").unwrap();
    assert_eq!(a, b);
}

#[test]
fn long_to_int_truncates_int_to_long_extends() {
    let out = compile("int main(void){long x = 5; int y = (int)x; return y;}").unwrap();
    assert!(out.contains("movl") || out.contains("movslq"));
    let out2 = compile("long f(void){int x = 5; return (long)x;}").unwrap();
    assert!(out2.contains("movslq"));
}

#[test]
fn break_outside_loop_is_an_error() {
    assert!(compile("int main(void){break; return 0;}").is_err());
}

#[test]
fn continue_outside_loop_is_an_error() {
    assert!(compile("int main(void){continue; return 0;}").is_err());
}

#[test]
fn undeclared_variable_is_an_error() {
    assert!(compile("int main(void){return x;}").is_err());
}

#[test]
fn duplicate_declaration_is_an_error() {
    assert!(compile("int main(void){int a=1; int a=2; return a;}").is_err());
}

#[test]
fn nested_function_definition_is_an_error() {
    assert!(compile("int main(void){int f(void){return 1;} return 0;}").is_err());
}

#[test]
fn wrong_argument_count_is_an_error() {
    assert!(compile("int f(int a){return a;} int main(void){return f(1,2);}").is_err());
}

#[test]
fn conflicting_file_scope_initializers_are_an_error() {
    assert!(compile("int g = 1; int g = 2; int main(void){return g;}").is_err());
}

#[test]
fn tentative_definition_merges_to_initial() {
    let out = compile("int g; int g = 7; int main(void){return g;}").unwrap();
    assert!(out.contains(".quad 7"));
}

#[test]
fn tentative_definition_alone_is_zero_filled() {
    let out = compile("int g; int main(void){return g;}").unwrap();
    assert!(out.contains(".bss"));
    assert!(out.contains(".zero 4"));
}

#[test]
fn non_constant_static_initializer_is_an_error() {
    assert!(compile("int main(void){static int a = 1 + 2; return a;}").is_err());
}

#[test]
fn seven_arguments_use_the_stack() {
    let out = compile(
        "int f(int a,int b,int c,int d,int e,int g,int h){return a+h;} \
         int main(void){return f(1,2,3,4,5,6,7);}",
    )
    .unwrap();
    assert!(out.contains("pushq"));
    assert!(out.contains("%r9d"));
}

#[test]
fn long_constant_stays_quadword() {
    let out = compile("int main(void){long x = 1L; return (int)x;}").unwrap();
    assert!(out.contains("movq") || out.contains("$1"));
}

#[test]
fn conditional_and_logic() {
    let out = compile("int main(void){int a = 1 && 0; int b = a ? 2 : 3; return b || 1;}")
        .unwrap();
    assert!(out.contains(".Land_false"));
    assert!(out.contains(".Lconditional_else"));
    assert!(out.contains(".Lor_true"));
}

#[test]
fn prologue_allocates_multiple_of_16() {
    let out = compile("int main(void){int a=1; int b=2; return a+b;}").unwrap();
    let mut saw = false;
    for line in out.lines() {
        if let Some(rest) = line.trim().strip_prefix("subq $") {
            if let Some(n) = rest.strip_suffix(", %rsp") {
                let v: i64 = n.parse().unwrap();
                assert!(v % 16 == 0);
                saw = true;
            }
        }
    }
    assert!(saw);
}
