use rudderc::cfengine::{get_dest_file, CFEngine, Promise};
use rudderc::cfstrings::escape;
use rudderc::error::Error;
use rudderc::ir::{
    EnumExpression,
    EnumList,
    InterpolatedElement,
    InterpolatedString,
    MetaValue,
    ParameterDef,
    ResourceDef,
    StateDeclaration,
    StateDef,
    Statement,
    Token,
    Value,
    IR,
};

fn tok(s: &str) -> Token {
    Token::new("test.rl", s)
}

fn compare(var: &str, en: &str, item: &str) -> EnumExpression {
    EnumExpression::Compare(tok(var), tok(en), tok(item))
}

fn lit(s: &str) -> Value {
    Value::String(InterpolatedString {
        data: vec![InterpolatedElement::Static(s.to_string())],
    })
}

fn empty_ir() -> IR {
    IR {
        enum_list: EnumList {
            globals: vec![("os".to_string(), true), ("local".to_string(), false)],
            item_names: vec![],
        },
        resources: vec![],
        variable_definitions: vec![],
    }
}

#[test]
fn dest_file() {
    assert_eq!(
        get_dest_file(Some("/path/my_file.rl"), "my_file.rl", Some("")),
        Some("".to_owned())
    );
    assert_eq!(
        get_dest_file(
            Some("/path/my_file.rl"),
            "my_file.rl",
            Some("/output/file.rl.cf")
        ),
        Some("/output/file.rl.cf".to_owned())
    );
    assert_eq!(
        get_dest_file(
            Some("/path/my_file.rl"),
            "wrong_file.rl",
            Some("/output/file.rl.cf")
        ),
        None
    );
}

#[test]
fn global_compare_renders_bare_item() {
    let eng = CFEngine::new();
    let gc = empty_ir();
    let g = eng.format_case_expr(&gc, &compare("v", "os", "debian")).unwrap();
    assert_eq!(g, "debian");
}

#[test]
fn or_operands_of_and_are_parenthesized() {
    let eng = CFEngine::new();
    let gc = empty_ir();
    let e = EnumExpression::And(
        Box::new(EnumExpression::Or(
            Box::new(compare("v", "os", "a")),
            Box::new(compare("v", "os", "b")),
        )),
        Box::new(compare("v", "os", "c")),
    );
    assert_eq!(eng.format_case_expr(&gc, &e).unwrap(), "(a|b).c");

    let e2 = EnumExpression::Or(
        Box::new(compare("v", "os", "a")),
        Box::new(EnumExpression::And(
            Box::new(compare("v", "os", "b")),
            Box::new(compare("v", "os", "c")),
        )),
    );
    assert_eq!(eng.format_case_expr(&gc, &e2).unwrap(), "a|b.c");
}

#[test]
fn reassociated_formulas_lower_to_equivalent_guards() {
    let eng = CFEngine::new();
    let gc = empty_ir();
    let a = || Box::new(compare("v", "os", "a"));
    let b = || Box::new(compare("v", "os", "b"));
    let c = || Box::new(compare("v", "os", "c"));
    let left = EnumExpression::And(Box::new(EnumExpression::And(a(), b())), c());
    let right = EnumExpression::And(a(), Box::new(EnumExpression::And(b(), c())));
    assert_eq!(eng.format_case_expr(&gc, &left).unwrap(), "a.b.c");
    assert_eq!(eng.format_case_expr(&gc, &right).unwrap(), "a.b.c");
    let left_or = EnumExpression::Or(Box::new(EnumExpression::Or(a(), b())), c());
    let right_or = EnumExpression::Or(a(), Box::new(EnumExpression::Or(b(), c())));
    assert_eq!(eng.format_case_expr(&gc, &left_or).unwrap(), "a|b|c");
    assert_eq!(eng.format_case_expr(&gc, &right_or).unwrap(), "a|b|c");
}

#[test]
fn negated_conjunction_is_parenthesized() {
    let eng = CFEngine::new();
    let gc = empty_ir();
    let e = EnumExpression::Not(Box::new(EnumExpression::And(
        Box::new(compare("v", "os", "a")),
        Box::new(compare("v", "os", "b")),
    )));
    assert_eq!(eng.format_case_expr(&gc, &e).unwrap(), "!(a.b)");
    let e2 = EnumExpression::Not(Box::new(compare("v", "os", "a")));
    assert_eq!(eng.format_case_expr(&gc, &e2).unwrap(), "!a");
}

#[test]
fn default_guard_depends_on_order() {
    let mut eng = CFEngine::new();
    let gc = empty_ir();
    let d = EnumExpression::Default(tok("default"));
    assert_eq!(eng.format_case_expr(&gc, &d).unwrap(), "any");
    eng.current_cases.push("ga".to_string());
    eng.current_cases.push("gb".to_string());
    assert_eq!(eng.format_case_expr(&gc, &d).unwrap(), "!(ga|gb)");
}

#[test]
fn local_compare_uses_allocated_prefix() {
    let mut eng = CFEngine::new();
    let gc = empty_ir();
    let e = compare("out", "local", "kept");
    assert!(matches!(
        eng.format_case_expr(&gc, &e),
        Err(Error::Internal(_))
    ));
    eng.new_var("out");
    assert_eq!(eng.format_case_expr(&gc, &e).unwrap(), "out1_local_kept");
    eng.new_var("out");
    assert_eq!(eng.format_case_expr(&gc, &e).unwrap(), "out2_local_kept");
}

#[test]
fn range_compare_is_rejected() {
    let eng = CFEngine::new();
    let gc = empty_ir();
    let e = EnumExpression::RangeCompare(tok("v"), tok("os"), tok("a"), tok("b"));
    assert!(matches!(
        eng.format_case_expr(&gc, &e),
        Err(Error::Unimplemented(_))
    ));
}

#[test]
fn string_escaping_keeps_precedence_order() {
    assert_eq!(escape("\\\"$"), "\\\\\\\"${const.dollar}");
    assert_eq!(escape("plain"), "plain");
    assert_eq!(escape("\\n"), "${const.n}");
    assert_eq!(escape("\\r\\t"), "${const.r}${const.t}");
}

#[test]
fn values_render_exactly() {
    let eng = CFEngine::new();
    assert_eq!(eng.value_to_string(&lit("hello"), true).unwrap(), "\"hello\"");
    assert_eq!(
        eng.value_to_string(&Value::Integer(tok("7"), -7), false).unwrap(),
        "-7"
    );
    assert_eq!(
        eng.value_to_string(&Value::Boolean(tok("t"), true), false).unwrap(),
        "true"
    );
    let l = Value::List(vec![lit("a"), lit("b")]);
    assert_eq!(eng.value_to_string(&l, false).unwrap(), "[ \"a\",\"b\" ]");
    let s = Value::Struct(vec![("k".to_string(), lit("v"))]);
    assert_eq!(eng.value_to_string(&s, false).unwrap(), "{ \"k\":\"v\" }");
    let v = Value::Variable(tok("x"));
    assert_eq!(eng.value_to_string(&v, false).unwrap(), "${x}");
    assert!(matches!(
        eng.value_to_string(
            &Value::EnumExpression(compare("v", "os", "a")),
            false
        ),
        Err(Error::Unimplemented(_))
    ));
}

#[test]
fn log_statement_emits_one_action_with_the_literal() {
    let mut eng = CFEngine::new();
    let gc = empty_ir();
    let promises = eng
        .format_statement(&gc, &Statement::Log(lit("deploy done")), "any".to_string())
        .unwrap();
    assert_eq!(promises.len(), 1);
    match &promises[0] {
        Promise::Usebundle {
            bundle,
            parameters,
            condition,
        } => {
            assert_eq!(bundle, "ncf_log");
            assert_eq!(parameters, &vec!["deploy done".to_string()]);
            assert!(condition.is_none());
        }
        _ => panic!("expected a usebundle promise"),
    }
}

fn state_decl() -> Statement {
    Statement::StateDeclaration(StateDeclaration {
        metadata: vec![("component".to_string(), MetaValue::Str("Copy file".to_string()))],
        resource: tok("file"),
        resource_params: vec![lit("/tmp/x")],
        state: tok("present"),
        state_params: vec![],
        outcome: None,
    })
}

#[test]
fn state_declarations_emit_reporting_then_method() {
    let mut eng = CFEngine::new();
    let gc = empty_ir();
    let promises = eng.format_statement(&gc, &state_decl(), "any".to_string()).unwrap();
    assert_eq!(promises.len(), 2);
    match &promises[0] {
        Promise::Usebundle {
            bundle,
            parameters,
            condition,
        } => {
            assert_eq!(bundle, "_method_reporting_context");
            assert_eq!(
                parameters,
                &vec!["\"Copy file\"".to_string(), "\"/tmp/x\"".to_string()]
            );
            assert_eq!(condition.as_deref(), Some("any"));
        }
        _ => panic!("expected a usebundle promise"),
    }
    match &promises[1] {
        Promise::Usebundle {
            bundle,
            parameters,
            condition,
        } => {
            assert_eq!(bundle, "file_present");
            assert_eq!(parameters, &vec!["\"/tmp/x\"".to_string()]);
            assert_eq!(condition.as_deref(), Some("any"));
        }
        _ => panic!("expected a usebundle promise"),
    }
}

#[test]
fn return_guards_later_statements() {
    let mut eng = CFEngine::new();
    let gc = empty_ir();
    let before = eng.format_statement(&gc, &state_decl(), "any".to_string()).unwrap();
    match &before[1] {
        Promise::Usebundle { condition, .. } => assert_eq!(condition.as_deref(), Some("any")),
        _ => panic!("expected a usebundle promise"),
    }
    let ret = eng
        .format_statement(&gc, &Statement::Return(tok("kept")), "any".to_string())
        .unwrap();
    match &ret[0] {
        Promise::Usebundle { bundle, condition, .. } => {
            assert_eq!(bundle, "success");
            assert!(condition.is_none());
        }
        _ => panic!("expected a usebundle promise"),
    }
    let after = eng.format_statement(&gc, &state_decl(), "any".to_string()).unwrap();
    match &after[1] {
        Promise::Usebundle { condition, .. } => {
            assert_eq!(condition.as_deref(), Some("(!any).(any)"));
        }
        _ => panic!("expected a usebundle promise"),
    }
}

#[test]
fn return_outcomes_map_to_actions() {
    let gc = empty_ir();
    for (outcome, bundle) in [
        ("kept", "success"),
        ("Kept", "success"),
        ("repaired", "repaired"),
        ("broken", "error"),
    ] {
        let mut eng = CFEngine::new();
        let promises = eng
            .format_statement(&gc, &Statement::Return(tok(outcome)), "any".to_string())
            .unwrap();
        match &promises[0] {
            Promise::Usebundle { bundle: b, .. } => assert_eq!(b, bundle),
            _ => panic!("expected a usebundle promise"),
        }
    }
}

fn one_state_ir(statements: Vec<Statement>) -> IR {
    let state = StateDef {
        parameters: vec![ParameterDef { name: tok("p1") }],
        statements,
    };
    let resource = ResourceDef {
        name: "website".to_string(),
        parameters: vec![ParameterDef { name: tok("path") }],
        states: vec![(tok("deploy"), state)],
        metadata: vec![
            ("name".to_string(), MetaValue::Str("Website".to_string())),
            ("version".to_string(), MetaValue::Str("1.0".to_string())),
        ],
        variable_definitions: vec![],
    };
    IR {
        enum_list: EnumList {
            globals: vec![("os".to_string(), true)],
            item_names: vec![],
        },
        resources: vec![(tok("website"), resource)],
        variable_definitions: vec![],
    }
}

#[test]
fn generate_emits_one_bundle_per_state() {
    let gc = one_state_ir(vec![Statement::Log(lit("hello"))]);
    let mut eng = CFEngine::new();
    let files = eng.generate(&gc, None, None, false).unwrap();
    assert_eq!(files.len(), 1);
    assert_eq!(files[0].0, "test.rl");
    let content = &files[0].1;
    assert!(content.contains("bundle agent website_deploy(path, p1)"));
    assert!(content.contains("\"resources_dir\" string => \"${this.promise_dirname}/resources\";"));
    assert!(content.contains("\"ncf_log\" usebundle => ncf_log(hello);"));
}

#[test]
fn generate_technique_metadata_adds_header() {
    let gc = one_state_ir(vec![]);
    let mut eng = CFEngine::new();
    let files = eng.generate(&gc, None, None, true).unwrap();
    assert!(files[0].1.starts_with("# @name Website\n# @version 1.0\n"));
}

#[test]
fn generate_with_no_bundle_still_creates_the_destination() {
    let gc = one_state_ir(vec![]);
    let mut eng = CFEngine::new();
    let files = eng
        .generate(&gc, Some("/path/other_file.rl"), Some("/out/x.cf"), false)
        .unwrap();
    assert_eq!(files, vec![("/out/x.cf".to_string(), "".to_string())]);
    let r = eng.generate(&gc, Some("/path/other_file.rl"), None, false);
    assert!(matches!(r, Err(Error::User(_))));
}

#[test]
fn case_arms_guard_their_statements() {
    let gc = empty_ir();
    let mut eng = CFEngine::new();
    let case = Statement::Case(
        tok("case"),
        vec![
            (compare("v", "os", "debian"), vec![state_decl()]),
            (
                EnumExpression::Default(tok("default")),
                vec![Statement::Log(lit("other"))],
            ),
        ],
    );
    let promises = eng.format_statement(&gc, &case, "any".to_string()).unwrap();
    assert_eq!(promises.len(), 3);
    match &promises[1] {
        Promise::Usebundle { condition, .. } => {
            assert_eq!(condition.as_deref(), Some("debian"));
        }
        _ => panic!("expected a usebundle promise"),
    }
}
