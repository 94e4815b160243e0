use venus_compiler::analyzer::analyzer::SemanticAnalyzer;
use venus_compiler::analyzer::error::VenusError;
use venus_compiler::lexer::scanner::Scanner;
use venus_compiler::lexer::token::Span;
use venus_compiler::parser::parser::Parser;

fn analyze(src: &str) -> (bool, Vec<VenusError>) {
    let tokens = Scanner::new(src).scan_all().unwrap();
    let program = Parser::new(tokens).parse().unwrap();
    let mut a = SemanticAnalyzer::new(src, "test.vs");
    let ok = a.analyze(&program);
    (ok, a.errors)
}

#[test]
fn well_typed_program() {
    let src = "int count: 10\nfloat speed: 1.5\nstring name: \"FireInc\"\nbool on: true\ncount: 15\nif(count > 5)\n    string message: \"Older than 10\"\n    print(message)\n";
    let (ok, errors) = analyze(src);
    assert!(ok);
    assert!(errors.is_empty());
}

#[test]
fn no_implicit_int_to_float() {
    let (ok, errors) = analyze("float speed: 1\n");
    assert!(!ok);
    assert_eq!(errors.len(), 1);
    let e = &errors[0];
    assert_eq!(e.title, "Type Mismatch");
    assert_eq!(e.message, "Ви намагаєтесь записати 'int' у змінну типу 'float'.");
    assert_eq!(
        e.hint.as_deref(),
        Some("Змініть тип змінної 'speed' на 'int', або передайте правильне значення.")
    );
    assert_eq!(e.span, Span { start: 13, end: 14, line: 1, column: 14 });
}

#[test]
fn string_into_int_variable() {
    let (_, errors) = analyze("int a: \"x\"\n");
    assert_eq!(errors.len(), 1);
    assert_eq!(errors[0].message, "Ви намагаєтесь записати 'string' у змінну типу 'int'.");
}

#[test]
fn undefined_variable_in_a_value_is_reported_for_the_check_and_the_content() {
    let (ok, errors) = analyze("int x: y\n");
    assert!(!ok);
    assert_eq!(errors.len(), 2);
    for e in &errors {
        assert_eq!(e.title, "Undefined Variable");
        assert_eq!(e.message, "Змінна 'y' не знайдена у цій області видимості.");
        assert_eq!(
            e.hint.as_deref(),
            Some("Переконайтеся, що ви ініціалізували змінну перед використанням.")
        );
    }
}

#[test]
fn assigning_to_an_undeclared_name() {
    let (_, errors) = analyze("x: 5\n");
    assert_eq!(errors.len(), 1);
    assert_eq!(errors[0].title, "Undefined Variable");
}

#[test]
fn invalid_assignment() {
    let (_, errors) = analyze("int a: 1\na: \"s\"\n");
    assert_eq!(errors.len(), 1);
    assert_eq!(errors[0].title, "Invalid Assignment");
    assert_eq!(errors[0].message, "Неможливо записати значення типу 'string' у ціль типу 'int'.");
    assert_eq!(errors[0].hint.as_deref(), Some("Перевірте типи даних."));
}

#[test]
fn invalid_math() {
    let (_, errors) = analyze("int r: \"a\" - \"b\"\n");
    assert_eq!(errors.len(), 2);
    assert_eq!(errors[0].title, "Invalid Math Operation");
    assert_eq!(errors[0].message, "Неможливо виконати операцію над несумісними типами: 'string' та 'string'.");
    assert_eq!(
        errors[0].hint.as_deref(),
        Some("Спробуйте використати явне перетворення або broadcasting (наприклад 'string * float').")
    );
}

#[test]
fn mixed_arithmetic_is_refused() {
    let (ok, errors) = analyze("float f: 1 + 2.5\n");
    assert!(!ok);
    // The value is typed twice, as in `invalid_math`: once for the
    // declaration and once as an expression.
    assert_eq!(errors.len(), 2);
    assert_eq!(errors[1].title, "Invalid Math Operation");
    assert_eq!(errors[0].title, "Invalid Math Operation");
    assert_eq!(errors[0].message, "Неможливо виконати операцію над несумісними типами: 'int' та 'float'.");
}

#[test]
fn any_array_fits_a_plain_array() {
    let (ok, errors) = analyze("array numbers: [1, 2, 3]\n");
    assert!(ok);
    assert!(errors.is_empty());
}

#[test]
fn comparisons_are_bool() {
    let (ok, _) = analyze("bool b: 1 < 2\n");
    assert!(ok);
}

#[test]
fn block_declarations_do_not_leak() {
    let (ok, errors) = analyze("if(true)\n    int inner: 1\nint outer: inner\n");
    assert!(!ok);
    assert_eq!(errors.len(), 2);
    assert!(errors.iter().all(|e| e.message == "Змінна 'inner' не знайдена у цій області видимості."));
}

#[test]
fn block_sees_outer_declarations() {
    let (ok, _) = analyze("int a: 1\nif(a > 0)\n    int b: a\n");
    assert!(ok);
}

#[test]
fn for_item_has_the_element_type() {
    let (ok, errors) = analyze("int[] xs: [1, 2]\nfor(x in xs)\n    string s: x\n");
    assert!(!ok);
    assert_eq!(errors.len(), 1);
    assert_eq!(errors[0].message, "Ви намагаєтесь записати 'int' у змінну типу 'string'.");
}

#[test]
fn empty_array_fits_any_array() {
    let (ok, _) = analyze("string[] xs: []\n");
    assert!(ok);
}

#[test]
fn function_parameters_are_in_scope_of_the_body() {
    let (ok, _) = analyze("func add(int a, int b) -> int\n    return: a + b\n");
    assert!(ok);
}

#[test]
fn builtin_vector_and_print_names() {
    let (ok, _) = analyze("vec3 p: vec3(1.0, 2.0, 3.0)\nprint(p)\n");
    assert!(ok);
}

#[test]
fn alloc_is_not_declared_but_gives_a_buffer() {
    let (ok, errors) = analyze("buffer b: alloc(4)\n");
    assert!(!ok);
    assert_eq!(errors.len(), 2);
    assert!(errors.iter().all(|e| e.title == "Undefined Variable"));
}
