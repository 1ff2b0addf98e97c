use serpentine::syntax::{Annotation, Expr, Statement, StringFragment};
use serpentine::{PythonType, TypeCheckError, TypeChecker};

fn name(text: &str) -> Expr {
    Expr::Name(text.to_string())
}

fn integer(digits: &str) -> Expr {
    Expr::Int(digits.to_string())
}

fn fragment(prefix: &str, content: &str) -> StringFragment {
    StringFragment { prefix: prefix.to_string(), content: content.to_string() }
}

fn string(content: &str) -> Expr {
    Expr::String(vec![fragment("", content)])
}

fn annotation(text: &str) -> Annotation {
    Annotation::Name(text.to_string())
}

fn typed(target: &str, ty: &str, value: Expr) -> Statement {
    Statement::TypedAssignment {
        targets: vec![name(target)],
        annotation: annotation(ty),
        values: vec![value],
    }
}

fn plain(target: &str, value: Expr) -> Statement {
    Statement::Assignment { targets: vec![name(target)], groups: vec![vec![value]] }
}

fn mismatch(result: Result<(), TypeCheckError>) -> (String, PythonType, PythonType, Option<String>) {
    match result {
        Err(TypeCheckError::TypeMismatch { variable, expected, actual, literal_value }) => {
            (variable, expected, actual, literal_value)
        }
        other => panic!("expected a mismatch, got {:?}", other),
    }
}

#[test]
fn a_new_checker_knows_nothing() {
    let checker = TypeChecker::new();
    assert_eq!(checker.get_variable_type("x"), None);
    assert_eq!(checker.get_enforced_type("x"), None);
    assert!(checker.get_all_variables().is_empty());
    let checker = TypeChecker::default();
    assert_eq!(checker.get_variable_type("x"), None);
    assert!(checker.get_all_variables().is_empty());
}

#[test]
fn inference_follows_the_shape_of_the_value() {
    let cases = vec![
        (integer("42"), Some(PythonType::Int)),
        (Expr::Float, Some(PythonType::Float)),
        (string("hello"), Some(PythonType::String)),
        (Expr::String(vec![]), Some(PythonType::String)),
        (Expr::String(vec![fragment("r", "a"), fragment("u", "b")]), Some(PythonType::String)),
        (Expr::True, Some(PythonType::Bool)),
        (Expr::False, Some(PythonType::Bool)),
        (Expr::ListLiteral, Some(PythonType::List)),
        (Expr::DictLiteral, Some(PythonType::Dict)),
        (Expr::TupleLiteral, Some(PythonType::Tuple)),
        (name("y"), None),
        (Expr::Other, None),
    ];
    for (value, expected) in cases {
        assert_eq!(TypeChecker::infer_type_from_expression(&value), expected, "{:?}", value);
    }
}

#[test]
fn a_formatted_string_has_no_inferable_type() {
    for prefix in ["f", "F", "fr", "Fr", "fR", "FR", "rf", "rF", "Rf", "RF"] {
        let value = Expr::String(vec![fragment(prefix, "a")]);
        assert_eq!(TypeChecker::infer_type_from_expression(&value), None, "{}", prefix);
        assert_eq!(TypeChecker::get_literal_value(&value), None, "{}", prefix);
    }
    let mixed = Expr::String(vec![fragment("", "a"), fragment("f", "{b}")]);
    assert_eq!(TypeChecker::infer_type_from_expression(&mixed), None);
    for prefix in ["", "r", "R", "u", "U"] {
        let value = Expr::String(vec![fragment(prefix, "a")]);
        assert_eq!(
            TypeChecker::infer_type_from_expression(&value),
            Some(PythonType::String),
            "{}",
            prefix
        );
    }
}

#[test]
fn literal_text_of_integers_and_strings() {
    assert_eq!(TypeChecker::get_literal_value(&integer("42")), Some("42".to_string()));
    assert_eq!(TypeChecker::get_literal_value(&integer("0")), Some("0".to_string()));
    assert_eq!(TypeChecker::get_literal_value(&string("hello")), Some("'hello'".to_string()));
    assert_eq!(TypeChecker::get_literal_value(&string("")), Some("''".to_string()));
    assert_eq!(TypeChecker::get_literal_value(&Expr::String(vec![])), Some("''".to_string()));
    let joined = Expr::String(vec![fragment("", "ab"), fragment("r", "cd"), fragment("", "e")]);
    assert_eq!(TypeChecker::get_literal_value(&joined), Some("'abcde'".to_string()));
    assert_eq!(
        TypeChecker::get_literal_value(&string("say \"hi\"")),
        Some("'say \"hi\"'".to_string())
    );
}

#[test]
fn other_values_have_no_literal_text() {
    for value in [
        Expr::Float,
        Expr::True,
        Expr::False,
        Expr::ListLiteral,
        Expr::DictLiteral,
        Expr::TupleLiteral,
        name("x"),
        Expr::Other,
    ] {
        assert_eq!(TypeChecker::get_literal_value(&value), None, "{:?}", value);
    }
}

#[test]
fn annotations_resolve_to_types_or_errors() {
    assert_eq!(TypeChecker::parse_type_annotation(&annotation("int")).unwrap(), PythonType::Int);
    assert_eq!(TypeChecker::parse_type_annotation(&annotation("tuple")).unwrap(), PythonType::Tuple);
    match TypeChecker::parse_type_annotation(&annotation("UnknownType")) {
        Err(TypeCheckError::UnknownType(text)) => assert_eq!(text, "UnknownType"),
        other => panic!("{:?}", other),
    }
    match TypeChecker::parse_type_annotation(&Annotation::Unsupported("List[int]".to_string())) {
        Err(TypeCheckError::UnsupportedAnnotation(text)) => assert_eq!(text, "List[int]"),
        other => panic!("{:?}", other),
    }
    match TypeChecker::parse_type_annotation(&Annotation::Unsupported("int".to_string())) {
        Err(TypeCheckError::UnsupportedAnnotation(text)) => assert_eq!(text, "int"),
        other => panic!("{:?}", other),
    }
}

#[test]
fn typed_assignment_binds_and_marks() {
    let mut checker = TypeChecker::new();
    let result =
        checker.handle_typed_assignment(vec![name("x")], annotation("int"), vec![integer("42")]);
    assert!(result.is_ok());
    assert_eq!(checker.get_variable_type("x"), Some(&PythonType::Int));
    assert_eq!(checker.get_enforced_type("x"), Some(&PythonType::Int));
    assert_eq!(checker.get_variable_type("y"), None);
}

#[test]
fn typed_assignment_reports_a_mismatch_and_binds_nothing() {
    let mut checker = TypeChecker::new();
    let result =
        checker.handle_typed_assignment(vec![name("x")], annotation("int"), vec![string("hello")]);
    assert_eq!(
        mismatch(result),
        ("x".to_string(), PythonType::Int, PythonType::String, Some("'hello'".to_string()))
    );
    assert_eq!(checker.get_variable_type("x"), None);
    assert!(checker.get_all_variables().is_empty());
}

#[test]
fn typed_assignment_of_a_value_without_literal_text() {
    let mut checker = TypeChecker::new();
    let result =
        checker.handle_typed_assignment(vec![name("x")], annotation("int"), vec![Expr::Float]);
    assert_eq!(mismatch(result), ("x".to_string(), PythonType::Int, PythonType::Float, None));
}

#[test]
fn typed_assignment_widens_a_boolean_only() {
    let mut checker = TypeChecker::new();
    assert!(checker
        .handle_typed_assignment(vec![name("x")], annotation("int"), vec![Expr::True])
        .is_ok());
    assert_eq!(checker.get_variable_type("x"), Some(&PythonType::Int));
    let result =
        checker.handle_typed_assignment(vec![name("y")], annotation("bool"), vec![integer("42")]);
    assert_eq!(
        mismatch(result),
        ("y".to_string(), PythonType::Bool, PythonType::Int, Some("42".to_string()))
    );
    let result =
        checker.handle_typed_assignment(vec![name("z")], annotation("float"), vec![integer("1")]);
    assert_eq!(
        mismatch(result),
        ("z".to_string(), PythonType::Float, PythonType::Int, Some("1".to_string()))
    );
    assert_eq!(checker.get_variable_type("y"), None);
    assert_eq!(checker.get_variable_type("z"), None);
}

#[test]
fn typed_assignment_rejects_the_annotation_first() {
    let mut checker = TypeChecker::new();
    match checker.handle_typed_assignment(
        vec![name("x")],
        annotation("UnknownType"),
        vec![integer("42")],
    ) {
        Err(TypeCheckError::UnknownType(text)) => assert_eq!(text, "UnknownType"),
        other => panic!("{:?}", other),
    }
    match checker.handle_typed_assignment(
        vec![name("x")],
        Annotation::Unsupported("List[int]".to_string()),
        vec![Expr::ListLiteral],
    ) {
        Err(TypeCheckError::UnsupportedAnnotation(text)) => assert_eq!(text, "List[int]"),
        other => panic!("{:?}", other),
    }
    assert_eq!(checker.get_variable_type("x"), None);
}

#[test]
fn typed_assignment_does_not_check_what_it_cannot_infer() {
    let mut checker = TypeChecker::new();
    assert!(checker
        .handle_typed_assignment(vec![name("x")], annotation("int"), vec![Expr::Other])
        .is_ok());
    assert!(checker
        .handle_typed_assignment(vec![name("y")], annotation("str"), vec![name("x")])
        .is_ok());
    assert!(checker.handle_typed_assignment(vec![name("z")], annotation("list"), vec![]).is_ok());
    let formatted = Expr::String(vec![fragment("f", "{x}")]);
    assert!(checker
        .handle_typed_assignment(vec![name("w")], annotation("int"), vec![formatted])
        .is_ok());
    assert_eq!(checker.get_variable_type("x"), Some(&PythonType::Int));
    assert_eq!(checker.get_variable_type("y"), Some(&PythonType::String));
    assert_eq!(checker.get_variable_type("z"), Some(&PythonType::List));
    assert_eq!(checker.get_variable_type("w"), Some(&PythonType::Int));
}

#[test]
fn typed_assignment_binds_every_target_and_checks_the_first_value_only() {
    let mut checker = TypeChecker::new();
    let result = checker.handle_typed_assignment(
        vec![name("a"), Expr::Other, name("b")],
        annotation("int"),
        vec![integer("1"), string("not looked at")],
    );
    assert!(result.is_ok());
    assert_eq!(checker.get_variable_type("a"), Some(&PythonType::Int));
    assert_eq!(checker.get_variable_type("b"), Some(&PythonType::Int));
    assert_eq!(checker.get_enforced_type("b"), Some(&PythonType::Int));
    assert_eq!(checker.get_all_variables().len(), 2);
}

#[test]
fn typed_assignment_names_the_first_target_in_a_mismatch() {
    let mut checker = TypeChecker::new();
    let result = checker.handle_typed_assignment(
        vec![name("a"), name("b")],
        annotation("int"),
        vec![string("s")],
    );
    assert_eq!(
        mismatch(result),
        ("a".to_string(), PythonType::Int, PythonType::String, Some("'s'".to_string()))
    );
    assert_eq!(checker.get_variable_type("a"), None);
    assert_eq!(checker.get_variable_type("b"), None);
}

#[test]
fn typed_assignment_whose_first_target_is_no_name_reports_no_mismatch() {
    let mut checker = TypeChecker::new();
    let result = checker.handle_typed_assignment(
        vec![Expr::Other, name("b")],
        annotation("int"),
        vec![string("s")],
    );
    assert!(result.is_ok());
    assert_eq!(checker.get_variable_type("b"), Some(&PythonType::Int));
}

#[test]
fn typed_assignment_replaces_an_earlier_type() {
    let mut checker = TypeChecker::new();
    checker.handle_typed_assignment(vec![name("x")], annotation("int"), vec![integer("1")]).unwrap();
    checker.handle_typed_assignment(vec![name("x")], annotation("str"), vec![string("a")]).unwrap();
    assert_eq!(checker.get_variable_type("x"), Some(&PythonType::String));
    assert_eq!(checker.get_all_variables().len(), 1);
}

#[test]
fn untyped_assignment_without_an_inferable_value_does_nothing() {
    let mut checker = TypeChecker::new();
    assert!(checker.handle_untyped_assignment(vec![name("x")], vec![]).is_ok());
    assert!(checker.handle_untyped_assignment(vec![name("x")], vec![vec![]]).is_ok());
    assert!(checker.handle_untyped_assignment(vec![name("x")], vec![vec![integer("1")], vec![]]).is_ok());
    assert!(checker.handle_untyped_assignment(vec![name("x")], vec![vec![Expr::Other]]).is_ok());
    assert!(checker.handle_untyped_assignment(vec![name("x")], vec![vec![name("y")]]).is_ok());
    assert_eq!(checker.get_variable_type("x"), None);
    assert!(checker.get_all_variables().is_empty());
}

#[test]
fn untyped_assignment_takes_the_first_value_of_the_last_group() {
    let mut checker = TypeChecker::new();
    let groups = vec![vec![name("y")], vec![string("s"), integer("2")], vec![Expr::Float, integer("3")]];
    assert!(checker.handle_untyped_assignment(vec![name("x")], groups).is_ok());
    assert_eq!(checker.get_variable_type("x"), Some(&PythonType::Float));
    assert_eq!(checker.get_variable_type("y"), None);
}

#[test]
fn untyped_variables_may_change_type() {
    let mut checker = TypeChecker::new();
    assert!(checker.process_statement(plain("x", integer("42"))).is_ok());
    assert_eq!(checker.get_variable_type("x"), Some(&PythonType::Int));
    assert_eq!(checker.get_enforced_type("x"), None);
    assert!(checker.process_statement(plain("x", string("hello"))).is_ok());
    assert_eq!(checker.get_variable_type("x"), Some(&PythonType::String));
}

#[test]
fn implicit_checking_holds_untyped_variables_to_their_type() {
    let mut checker = TypeChecker::new().with_implicit_checking();
    assert!(checker.process_statement(plain("x", integer("42"))).is_ok());
    assert_eq!(checker.get_enforced_type("x"), Some(&PythonType::Int));
    let result = checker.process_statement(plain("x", string("hello")));
    assert_eq!(
        mismatch(result),
        ("x".to_string(), PythonType::Int, PythonType::String, Some("'hello'".to_string()))
    );
    assert_eq!(checker.get_variable_type("x"), Some(&PythonType::Int));
}

#[test]
fn explicit_typing_is_enforced_whatever_the_configuration() {
    for implicit in [false, true] {
        let mut checker = TypeChecker::new();
        if implicit {
            checker = checker.with_implicit_checking();
        }
        assert!(checker.process_statement(typed("x", "int", integer("42"))).is_ok());
        let result = checker.process_statement(plain("x", string("hello")));
        assert_eq!(
            mismatch(result),
            ("x".to_string(), PythonType::Int, PythonType::String, Some("'hello'".to_string()))
        );
        assert_eq!(checker.get_variable_type("x"), Some(&PythonType::Int));
    }
}

#[test]
fn with_implicit_checking_keeps_what_is_known() {
    let mut checker = TypeChecker::new();
    checker.process_statement(plain("x", integer("1"))).unwrap();
    assert_eq!(checker.get_enforced_type("x"), None);
    let checker = checker.with_implicit_checking();
    assert_eq!(checker.get_variable_type("x"), Some(&PythonType::Int));
    assert_eq!(checker.get_enforced_type("x"), Some(&PythonType::Int));
    assert_eq!(checker.get_enforced_type("y"), None);
}

#[test]
fn a_variable_held_to_a_type_keeps_it() {
    let mut checker = TypeChecker::new();
    checker.process_statement(typed("x", "int", integer("1"))).unwrap();
    assert!(checker.process_statement(plain("x", Expr::True)).is_ok());
    assert_eq!(checker.get_variable_type("x"), Some(&PythonType::Int));
    assert_eq!(checker.get_enforced_type("x"), Some(&PythonType::Int));
    assert!(checker.process_statement(plain("x", integer("2"))).is_ok());
    assert_eq!(checker.get_variable_type("x"), Some(&PythonType::Int));
    let result = checker.process_statement(plain("x", string("s")));
    assert_eq!(
        mismatch(result),
        ("x".to_string(), PythonType::Int, PythonType::String, Some("'s'".to_string()))
    );
}

#[test]
fn implicit_checking_keeps_the_first_type_of_a_variable() {
    let mut checker = TypeChecker::new().with_implicit_checking();
    checker.process_statement(plain("x", integer("1"))).unwrap();
    assert!(checker.process_statement(plain("x", Expr::False)).is_ok());
    assert_eq!(checker.get_variable_type("x"), Some(&PythonType::Int));
    assert!(checker.process_statement(plain("x", integer("2"))).is_ok());
    assert_eq!(checker.get_variable_type("x"), Some(&PythonType::Int));
}

#[test]
fn a_variable_that_is_not_held_takes_the_type_of_each_value() {
    let mut checker = TypeChecker::new();
    checker.process_statement(plain("x", integer("1"))).unwrap();
    assert!(checker.process_statement(plain("x", Expr::True)).is_ok());
    assert_eq!(checker.get_variable_type("x"), Some(&PythonType::Bool));
    assert!(checker.process_statement(plain("x", integer("2"))).is_ok());
    assert_eq!(checker.get_variable_type("x"), Some(&PythonType::Int));
}

#[test]
fn held_and_free_targets_of_one_assignment() {
    let mut checker = TypeChecker::new();
    checker.process_statement(typed("x", "int", integer("1"))).unwrap();
    checker.process_statement(plain("y", string("s"))).unwrap();
    let result = checker.handle_untyped_assignment(
        vec![name("x"), name("y"), name("z")],
        vec![vec![Expr::True]],
    );
    assert!(result.is_ok());
    assert_eq!(checker.get_variable_type("x"), Some(&PythonType::Int));
    assert_eq!(checker.get_variable_type("y"), Some(&PythonType::Bool));
    assert_eq!(checker.get_variable_type("z"), Some(&PythonType::Bool));
}

#[test]
fn untyped_assignment_keeps_the_targets_before_a_conflict() {
    let mut checker = TypeChecker::new();
    checker.process_statement(typed("x", "int", integer("1"))).unwrap();
    let result = checker.handle_untyped_assignment(
        vec![name("a"), Expr::Other, name("x"), name("b")],
        vec![vec![string("s")]],
    );
    assert_eq!(
        mismatch(result),
        ("x".to_string(), PythonType::Int, PythonType::String, Some("'s'".to_string()))
    );
    assert_eq!(checker.get_variable_type("a"), Some(&PythonType::String));
    assert_eq!(checker.get_variable_type("x"), Some(&PythonType::Int));
    assert_eq!(checker.get_variable_type("b"), None);
}

#[test]
fn untyped_assignment_to_the_same_name_twice() {
    let mut checker = TypeChecker::new().with_implicit_checking();
    let result =
        checker.handle_untyped_assignment(vec![name("a"), name("a")], vec![vec![integer("1")]]);
    assert!(result.is_ok());
    assert_eq!(checker.get_variable_type("a"), Some(&PythonType::Int));
    assert_eq!(checker.get_all_variables().len(), 1);
}

#[test]
fn other_statements_are_passed_over() {
    let mut checker = TypeChecker::new();
    assert!(checker.process_statement(Statement::Other).is_ok());
    assert!(checker.get_all_variables().is_empty());
}

#[test]
fn an_empty_program_succeeds_and_binds_nothing() {
    let mut checker = TypeChecker::new();
    assert!(checker.analyze_statements(vec![]).is_ok());
    assert!(checker.get_all_variables().is_empty());
}

#[test]
fn a_program_stops_at_its_first_error() {
    let mut checker = TypeChecker::new();
    let program = vec![
        typed("a", "int", integer("1")),
        plain("b", string("s")),
        typed("c", "int", string("wrong")),
        typed("d", "UnknownType", integer("1")),
        plain("e", integer("5")),
    ];
    let result = checker.analyze_statements(program);
    assert_eq!(
        mismatch(result),
        ("c".to_string(), PythonType::Int, PythonType::String, Some("'wrong'".to_string()))
    );
    assert_eq!(checker.get_variable_type("a"), Some(&PythonType::Int));
    assert_eq!(checker.get_variable_type("b"), Some(&PythonType::String));
    assert_eq!(checker.get_variable_type("c"), None);
    assert_eq!(checker.get_variable_type("d"), None);
    assert_eq!(checker.get_variable_type("e"), None);
    assert_eq!(checker.get_all_variables().len(), 2);
}

#[test]
fn a_checker_can_go_on_after_an_error() {
    let mut checker = TypeChecker::new();
    assert!(checker.analyze_statements(vec![typed("a", "int", string("s"))]).is_err());
    assert!(checker.analyze_statements(vec![typed("a", "str", string("s"))]).is_ok());
    assert_eq!(checker.get_variable_type("a"), Some(&PythonType::String));
}

#[test]
fn all_variables_are_listed_once() {
    let mut checker = TypeChecker::new();
    let program = vec![
        typed("a", "int", integer("1")),
        plain("b", string("s")),
        plain("b", Expr::Float),
        typed("c", "dict", Expr::DictLiteral),
        plain("a", integer("2")),
    ];
    checker.analyze_statements(program).unwrap();
    let mut variables = checker.get_all_variables();
    variables.sort_by(|a, b| a.0.cmp(&b.0));
    assert_eq!(
        variables,
        vec![
            ("a".to_string(), PythonType::Int),
            ("b".to_string(), PythonType::Float),
            ("c".to_string(), PythonType::Dict),
        ]
    );
}

#[test]
fn names_are_compared_character_by_character() {
    let mut checker = TypeChecker::new();
    checker.process_statement(plain("x", integer("1"))).unwrap();
    checker.process_statement(plain("xx", string("s"))).unwrap();
    checker.process_statement(plain("X", Expr::Float)).unwrap();
    checker.process_statement(plain("\u{e9}", Expr::True)).unwrap();
    assert_eq!(checker.get_variable_type("x"), Some(&PythonType::Int));
    assert_eq!(checker.get_variable_type("xx"), Some(&PythonType::String));
    assert_eq!(checker.get_variable_type("X"), Some(&PythonType::Float));
    assert_eq!(checker.get_variable_type("\u{e9}"), Some(&PythonType::Bool));
    assert_eq!(checker.get_variable_type("e"), None);
    assert_eq!(checker.get_variable_type(""), None);
}
