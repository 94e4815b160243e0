use venus_compiler::lexer::scanner::Scanner;
use venus_compiler::venus_analyzer::analyzer::{imported_modules, load_module, type_expr_to_string, SemanticAnalyzer};
use venus_compiler::venus_parser::ast::{Program, TypeExpr};
use venus_compiler::venus_parser::parser::Parser;

fn program(src: &str) -> Program {
    let tokens = Scanner::new(src).scan_all().unwrap();
    Parser::new(tokens).parse().unwrap()
}

fn analyze(src: &str) -> (bool, Vec<String>) {
    let p = program(src);
    let mut a = SemanticAnalyzer::new(src, "main.vs");
    let ok = a.analyze(&p);
    (ok, a.errors.iter().map(|e| e.message.clone()).collect())
}

#[test]
fn int_may_not_be_stored_as_float() {
    let (ok, errors) = analyze("float speed: 1\n");
    assert!(!ok);
    assert_eq!(errors, vec!["Ви намагаєтесь записати 'int' у змінну типу 'float'.".to_string()]);
}

#[test]
fn float_may_not_be_stored_as_int() {
    let (ok, errors) = analyze("int n: 1.5\n");
    assert!(!ok);
    assert_eq!(errors, vec!["Ви намагаєтесь записати 'float' у змінну типу 'int'.".to_string()]);
}

#[test]
fn if_condition_must_be_bool() {
    let (ok, errors) = analyze("if 5\n    int a: 1\n");
    assert!(!ok);
    assert_eq!(errors, vec!["Умова 'if' очікує 'bool', але отримано 'int'".to_string()]);
}

#[test]
fn elif_and_else_bodies_are_scoped() {
    let src = "int x: 1\nif x > 0\n    int a: 1\nelif x < 0\n    int b: 2\nelse\n    int c: 3\nint d: a\n";
    let (ok, errors) = analyze(src);
    assert!(!ok);
    assert_eq!(errors, vec!["Змінна 'a' не знайдена у цій області видимості.".to_string()]);
}

#[test]
fn for_loop_variable_has_the_element_type() {
    let (ok, errors) = analyze("int[] xs: [1, 2]\nfor i in xs\n    string s: i\n");
    assert!(!ok);
    assert_eq!(errors, vec!["Ви намагаєтесь записати 'int' у змінну типу 'string'.".to_string()]);
}

#[test]
fn import_std_declares_std() {
    let (ok, _) = analyze("import std\nstd.console.print(\"hi\")\n");
    assert!(ok);
    let (ok, _) = analyze("from std import *\nprint(\"hi\")\nbuffer b: alloc(4)\n");
    assert!(ok);
    let (ok, errors) = analyze("print(\"hi\")\n");
    assert!(!ok);
    assert_eq!(errors, vec!["Змінна 'print' не знайдена у цій області видимості.".to_string()]);
}

#[test]
fn provided_module_exports() {
    let module = load_module("export int area: 4\nint hidden: 1\nexport float volume: 2.0\n").unwrap();
    let src = "from geometry import area\nint a: area\nint h: hidden\n";
    let p = program(src);
    let mut an = SemanticAnalyzer::new(src, "main.vs");
    an.add_module("geometry".to_string(), module);
    assert!(!an.analyze(&p));
    let msgs: Vec<String> = an.errors.iter().map(|e| e.message.clone()).collect();
    assert_eq!(msgs, vec!["Змінна 'hidden' не знайдена у цій області видимості.".to_string()]);
}

#[test]
fn star_import_takes_every_export() {
    let module = load_module("export int area: 4\nexport float volume: 2.0\n").unwrap();
    let src = "from geometry import *\nfloat v: volume\nint a: area\n";
    let p = program(src);
    let mut an = SemanticAnalyzer::new(src, "main.vs");
    an.add_module("geometry".to_string(), module);
    assert!(an.analyze(&p));
}

#[test]
fn missing_module_declares_nothing() {
    let (ok, errors) = analyze("from nowhere import x\nint a: x\n");
    assert!(!ok);
    assert_eq!(errors, vec!["Змінна 'x' не знайдена у цій області видимості.".to_string()]);
}

#[test]
fn module_list_of_a_program() {
    let p = program("import std\nfrom geometry import area\nif true\n    from physics import g\n");
    assert_eq!(imported_modules(&p), vec!["geometry".to_string(), "physics".to_string()]);
}

#[test]
fn unreadable_module_source() {
    assert!(load_module("int: \n").is_none());
    assert!(load_module("\t$").is_none());
}

#[test]
fn type_spelling() {
    let t = TypeExpr::Array(Box::new(TypeExpr::Array(Box::new(TypeExpr::Named("int".to_string())))));
    assert_eq!(type_expr_to_string(&t), "array[array[int]]");
}
