use rudderc::error::Error;
use rudderc::ir::{
    EnumExpression,
    EnumList,
    InterpolatedElement,
    InterpolatedString,
    MetaValue,
    ParameterDef,
    ResourceDef,
    StateDeclaration,
    StateDef,
    Statement,
    Token,
    Value,
    VariableDefinition,
    IR,
};
use rudderc::technique::{format_expr, statement_to_method_call, Technique, Version};

fn tok(s: &str) -> Token {
    Token::new("tech.rl", s)
}

fn lit(s: &str) -> Value {
    Value::String(InterpolatedString {
        data: vec![InterpolatedElement::Static(s.to_string())],
    })
}

fn tech_metadata() -> Vec<(String, MetaValue)> {
    vec![
        (
            "parameters".to_string(),
            MetaValue::List(vec![MetaValue::Table(vec![
                ("id".to_string(), MetaValue::Str("p1".to_string())),
                ("name".to_string(), MetaValue::Str("Path".to_string())),
                (
                    "description".to_string(),
                    MetaValue::Str("The path".to_string()),
                ),
            ])]),
        ),
        (
            "description".to_string(),
            MetaValue::Str("A technique".to_string()),
        ),
        ("name".to_string(), MetaValue::Str("My tech".to_string())),
        ("version".to_string(), MetaValue::Str("1.0".to_string())),
        ("category".to_string(), MetaValue::Str("system".to_string())),
    ]
}

fn lib_resource(name: &str, params: Vec<&str>, state: &str, state_params: Vec<&str>) -> (Token, ResourceDef) {
    (
        tok(name),
        ResourceDef {
            name: name.to_string(),
            parameters: params
                .into_iter()
                .map(|p| ParameterDef { name: tok(p) })
                .collect(),
            states: vec![(
                tok(state),
                StateDef {
                    parameters: state_params
                        .into_iter()
                        .map(|p| ParameterDef { name: tok(p) })
                        .collect(),
                    statements: vec![],
                },
            )],
            metadata: vec![("library".to_string(), MetaValue::Str("std".to_string()))],
            variable_definitions: vec![],
        },
    )
}

fn tech_ir(statements: Vec<Statement>, metadata: Vec<(String, MetaValue)>) -> IR {
    let resource = ResourceDef {
        name: "my_tech".to_string(),
        parameters: vec![],
        states: vec![(
            tok("technique"),
            StateDef {
                parameters: vec![],
                statements,
            },
        )],
        metadata,
        variable_definitions: vec![],
    };
    IR {
        enum_list: EnumList {
            globals: vec![("os".to_string(), true)],
            item_names: vec![("debian".to_string(), "debian_family".to_string())],
        },
        resources: vec![
            lib_resource("file", vec!["path"], "present", vec![]),
            (tok("my_tech"), resource),
        ],
        variable_definitions: vec![],
    }
}

fn invoke_file(value: Value) -> Statement {
    Statement::StateDeclaration(StateDeclaration {
        metadata: vec![],
        resource: tok("file"),
        resource_params: vec![value],
        state: tok("present"),
        state_params: vec![],
        outcome: None,
    })
}

#[test]
fn conversion_builds_the_document() {
    let ir = tech_ir(vec![invoke_file(lit("/etc/motd"))], tech_metadata());
    let mut warnings = Vec::new();
    let t = Technique::from_ir(&ir, &mut warnings).unwrap();
    assert_eq!(t.kind, "ncf_technique");
    assert_eq!(t.version, 2);
    assert_eq!(t.data.bundle_name, "my_tech");
    assert_eq!(t.data.description, "A technique");
    assert_eq!(t.data.name, "My tech");
    assert_eq!(t.data.version, Version { major: 1, minor: 0 });
    assert_eq!(t.data.category, "system");
    assert_eq!(t.data.interpolated_parameters.len(), 1);
    assert_eq!(t.data.interpolated_parameters[0].id, "p1");
    assert_eq!(t.data.method_calls.len(), 1);
    let mc = &t.data.method_calls[0];
    assert_eq!(mc.method_name, "file_present");
    assert_eq!(mc.condition, "any");
    assert_eq!(mc.parameters.len(), 1);
    assert_eq!(mc.parameters[0].name, "path");
    assert_eq!(mc.parameters[0].value, "/etc/motd");
    assert!(warnings.is_empty());
}

#[test]
fn unresolved_variable_degrades_to_placeholder() {
    let ir = tech_ir(vec![invoke_file(Value::Variable(tok("x")))], tech_metadata());
    let mut warnings = Vec::new();
    let t = Technique::from_ir(&ir, &mut warnings).unwrap();
    assert_eq!(t.data.method_calls.len(), 1);
    assert!(t.data.method_calls[0].parameters[0].value.contains("${x}"));
    assert_eq!(warnings.len(), 1);
    assert!(warnings[0].contains("The variable x isn't recognized"));
}

#[test]
fn defined_variables_are_resolved() {
    let def = Statement::VariableDefinition(VariableDefinition {
        metadata: vec![],
        name: tok("x"),
        value: lit("/tmp/resolved"),
    });
    let ir = tech_ir(
        vec![def, invoke_file(Value::Variable(tok("x")))],
        tech_metadata(),
    );
    let mut warnings = Vec::new();
    let t = Technique::from_ir(&ir, &mut warnings).unwrap();
    assert_eq!(t.data.method_calls[0].parameters[0].value, "/tmp/resolved");
    assert!(warnings.is_empty());
}

#[test]
fn missing_parameters_field_is_fatal() {
    let mut meta = tech_metadata();
    meta.remove(0);
    let ir = tech_ir(vec![], meta);
    let mut warnings = Vec::new();
    let r = Technique::from_ir(&ir, &mut warnings);
    match r {
        Err(Error::MissingMetadata { field }) => assert_eq!(field, "parameters"),
        _ => panic!("expected the missing metadata error"),
    }
}

#[test]
fn wrong_parameters_shape_is_fatal() {
    let mut meta = tech_metadata();
    meta[0].1 = MetaValue::Str("oops".to_string());
    let ir = tech_ir(vec![], meta);
    let mut warnings = Vec::new();
    assert!(matches!(
        Technique::from_ir(&ir, &mut warnings),
        Err(Error::WrongMetadataShape { .. })
    ));
}

#[test]
fn resource_count_must_be_one() {
    let ir = IR {
        enum_list: EnumList {
            globals: vec![],
            item_names: vec![],
        },
        resources: vec![lib_resource("file", vec!["path"], "present", vec![])],
        variable_definitions: vec![],
    };
    let mut warnings = Vec::new();
    match Technique::from_ir(&ir, &mut warnings) {
        Err(Error::TechniqueResourceCount { count }) => assert_eq!(count, 0),
        _ => panic!("expected the resource count error"),
    }
}

#[test]
fn bad_version_is_fatal() {
    let mut meta = tech_metadata();
    meta[3].1 = MetaValue::Str("abc".to_string());
    let ir = tech_ir(vec![], meta);
    let mut warnings = Vec::new();
    assert!(matches!(
        Technique::from_ir(&ir, &mut warnings),
        Err(Error::InvalidVersion(_))
    ));
}

#[test]
fn versions_parse_as_two_numbers() {
    assert_eq!(Version::from_str("1.0").unwrap(), Version { major: 1, minor: 0 });
    assert_eq!(
        Version::from_str("12.345").unwrap(),
        Version {
            major: 12,
            minor: 345
        }
    );
    assert!(Version::from_str("1").is_err());
    assert!(Version::from_str("1.").is_err());
    assert!(Version::from_str(".1").is_err());
    assert!(Version::from_str("1.2.3").is_err());
    assert!(Version::from_str("a.b").is_err());
}

#[test]
fn method_alias_overrides_the_name() {
    let ir = tech_ir(vec![], tech_metadata());
    let res = &ir.resources[1].1;
    let state = &res.states[0].1;
    let stmt = Statement::StateDeclaration(StateDeclaration {
        metadata: vec![(
            "method_alias".to_string(),
            MetaValue::Str("file_check_present".to_string()),
        )],
        resource: tok("file"),
        resource_params: vec![lit("/tmp/x")],
        state: tok("present"),
        state_params: vec![],
        outcome: None,
    });
    let mut warnings = Vec::new();
    let calls = statement_to_method_call(&ir, res, state, 0, &stmt, "any", &mut warnings).unwrap();
    assert_eq!(calls[0].method_name, "file_check_present");
}

#[test]
fn escaped_string_variable_parameters_are_joined() {
    let mut ir = tech_ir(vec![], tech_metadata());
    ir.resources.insert(
        0,
        lib_resource("variable_string", vec!["a", "b"], "escaped", vec![]),
    );
    let res = &ir.resources[2].1;
    let state = &res.states[0].1;
    let stmt = Statement::StateDeclaration(StateDeclaration {
        metadata: vec![],
        resource: tok("variable_string"),
        resource_params: vec![lit("ns"), lit("var")],
        state: tok("escaped"),
        state_params: vec![],
        outcome: None,
    });
    let mut warnings = Vec::new();
    let calls = statement_to_method_call(&ir, res, state, 0, &stmt, "any", &mut warnings).unwrap();
    assert_eq!(calls[0].method_name, "variable_string_escaped");
    assert_eq!(calls[0].parameters.len(), 1);
    assert_eq!(calls[0].parameters[0].name, "variable_name");
    assert_eq!(calls[0].parameters[0].value, "ns.var");
}

#[test]
fn case_statements_flatten_with_their_guards() {
    let arm_stmt = invoke_file(lit("/tmp/x"));
    let case = Statement::Case(
        tok("case"),
        vec![(
            EnumExpression::Compare(tok("os"), tok("os"), tok("debian")),
            vec![arm_stmt],
        )],
    );
    let ir = tech_ir(vec![case], tech_metadata());
    let mut warnings = Vec::new();
    let t = Technique::from_ir(&ir, &mut warnings).unwrap();
    assert_eq!(t.data.method_calls.len(), 1);
    assert_eq!(t.data.method_calls[0].condition, "debian_family");
}

#[test]
fn expressions_render_for_the_structured_backend() {
    let ir = tech_ir(vec![], tech_metadata());
    let global = EnumExpression::Compare(tok("os"), tok("os"), tok("debian"));
    assert_eq!(format_expr(&ir, &global).unwrap(), "debian_family");
    let boolean = EnumExpression::Compare(tok("flag"), tok("boolean"), tok("true"));
    assert_eq!(format_expr(&ir, &boolean).unwrap(), "flag");
    let foreign = EnumExpression::Compare(tok("v"), tok("mode"), tok("strict"));
    assert_eq!(
        format_expr(&ir, &foreign).unwrap(),
        "v_${report_data.canonified_directive_id}_strict"
    );
    let not = EnumExpression::Not(Box::new(EnumExpression::And(
        Box::new(boolean.clone_expr()),
        Box::new(global.clone_expr()),
    )));
    assert_eq!(format_expr(&ir, &not).unwrap(), "!(flag.debian_family)");
}

trait CloneExpr {
    fn clone_expr(&self) -> EnumExpression;
}

impl CloneExpr for EnumExpression {
    fn clone_expr(&self) -> EnumExpression {
        match self {
            EnumExpression::Compare(a, b, c) => EnumExpression::Compare(
                Token::new(a.file(), a.fragment()),
                Token::new(b.file(), b.fragment()),
                Token::new(c.file(), c.fragment()),
            ),
            _ => panic!("only comparisons are copied in tests"),
        }
    }
}
