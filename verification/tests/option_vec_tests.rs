use from_env::Env;
use from_env::FieldSpec;
use from_env::FieldValue;
use from_env::NamingOptions;
use from_env::PrimValue;
use from_env::PrimitiveKind;
use from_env::Shape;
use from_env::StructSpec;

fn plain_options_ov() -> NamingOptions {
    NamingOptions {
        prefix: String::new(),
        word_separator: String::new(),
    }
}

fn field_ov(identifier: &str, shape: Shape) -> FieldSpec {
    FieldSpec {
        identifier: identifier.to_string(),
        shape,
    }
}

fn option_struct_ov(identifier: &str) -> StructSpec {
    StructSpec {
        identifier: identifier.to_string(),
        options: plain_options_ov(),
        fields: vec![
            field_ov("required", Shape::Required(PrimitiveKind::Str)),
            field_ov("optional_string", Shape::Optional(PrimitiveKind::Str)),
            field_ov("optional_int", Shape::Optional(PrimitiveKind::I32)),
            field_ov("optional_bool", Shape::Optional(PrimitiveKind::Bool)),
        ],
    }
}

// Floating-point values cannot live in the library, so the list
// structures here hold string, integer and boolean lists.
fn vec_struct_ov(identifier: &str) -> StructSpec {
    StructSpec {
        identifier: identifier.to_string(),
        options: plain_options_ov(),
        fields: vec![
            field_ov("tags", Shape::List(PrimitiveKind::Str)),
            field_ov("scores", Shape::List(PrimitiveKind::I32)),
            field_ov("flags", Shape::List(PrimitiveKind::Bool)),
        ],
    }
}

fn str_list_ov(items: &[&str]) -> FieldValue {
    FieldValue::List(items.iter().map(|s| PrimValue::Str(s.to_string())).collect())
}

#[test]
fn test_option_with_value() {
    let spec = option_struct_ov("TestOptionWithValue");
    let mut env = Env::new();
    env.set("TESTOPTIONWITHVALUE_REQUIRED".to_string(), "test".to_string());
    env.set("TESTOPTIONWITHVALUE_OPTIONAL_STRING".to_string(), "value".to_string());
    env.set("TESTOPTIONWITHVALUE_OPTIONAL_INT".to_string(), "42".to_string());
    env.set("TESTOPTIONWITHVALUE_OPTIONAL_BOOL".to_string(), "true".to_string());

    let config = spec.load_new(&env).unwrap();
    assert_eq!(config[0], FieldValue::Prim(PrimValue::Str("test".to_string())));
    assert_eq!(config[1], FieldValue::Opt(Some(PrimValue::Str("value".to_string()))));
    assert_eq!(config[2], FieldValue::Opt(Some(PrimValue::I32(42))));
    assert_eq!(config[3], FieldValue::Opt(Some(PrimValue::Bool(true))));
}

#[test]
fn test_option_without_value() {
    let spec = option_struct_ov("TestOptionWithoutValue");
    let mut env = Env::new();
    env.set("TESTOPTIONWITHOUTVALUE_REQUIRED".to_string(), "test".to_string());

    let config = spec.load_new(&env).unwrap();
    assert_eq!(config[0], FieldValue::Prim(PrimValue::Str("test".to_string())));
    assert_eq!(config[1], FieldValue::Opt(None));
    assert_eq!(config[2], FieldValue::Opt(None));
    assert_eq!(config[3], FieldValue::Opt(None));
}

#[test]
fn test_vec_strings() {
    let spec = vec_struct_ov("TestVecStrings");
    let mut env = Env::new();
    env.set("TESTVECSTRINGS_TAGS".to_string(), "rust,cargo,prost".to_string());
    env.set("TESTVECSTRINGS_SCORES".to_string(), "10,20,30".to_string());
    env.set("TESTVECSTRINGS_FLAGS".to_string(), "true,false,true".to_string());

    let config = spec.load_new(&env).unwrap();
    assert_eq!(config[0], str_list_ov(&["rust", "cargo", "prost"]));
    assert_eq!(
        config[1],
        FieldValue::List(vec![PrimValue::I32(10), PrimValue::I32(20), PrimValue::I32(30)])
    );
    assert_eq!(
        config[2],
        FieldValue::List(vec![
            PrimValue::Bool(true),
            PrimValue::Bool(false),
            PrimValue::Bool(true),
        ])
    );
}

#[test]
fn test_vec_empty() {
    let spec = vec_struct_ov("TestVecEmpty");
    let mut env = Env::new();
    env.set("TESTVECEMPTY_TAGS".to_string(), String::new());
    env.set("TESTVECEMPTY_SCORES".to_string(), String::new());
    env.set("TESTVECEMPTY_FLAGS".to_string(), String::new());

    let config = spec.load_new(&env).unwrap();
    assert_eq!(config[0], FieldValue::List(Vec::new()));
    assert_eq!(config[1], FieldValue::List(Vec::new()));
    assert_eq!(config[2], FieldValue::List(Vec::new()));
}

#[test]
fn test_vec_single_value() {
    let spec = vec_struct_ov("TestVecSingle");
    let mut env = Env::new();
    env.set("TESTVECSINGLE_TAGS".to_string(), "single".to_string());
    env.set("TESTVECSINGLE_SCORES".to_string(), "42".to_string());
    env.set("TESTVECSINGLE_FLAGS".to_string(), "true".to_string());

    let config = spec.load_new(&env).unwrap();
    assert_eq!(config[0], str_list_ov(&["single"]));
    assert_eq!(config[1], FieldValue::List(vec![PrimValue::I32(42)]));
    assert_eq!(config[2], FieldValue::List(vec![PrimValue::Bool(true)]));
}

#[test]
fn test_vec_with_spaces() {
    let spec = vec_struct_ov("TestVecSpaces");
    let mut env = Env::new();
    env.set("TESTVECSPACES_TAGS".to_string(), "  rust  ,  cargo  ,  prost  ".to_string());
    env.set("TESTVECSPACES_SCORES".to_string(), " 10 , 20 , 30 ".to_string());
    env.set("TESTVECSPACES_FLAGS".to_string(), " true , false , true ".to_string());

    let config = spec.load_new(&env).unwrap();
    assert_eq!(config[0], str_list_ov(&["rust", "cargo", "prost"]));
    assert_eq!(
        config[1],
        FieldValue::List(vec![PrimValue::I32(10), PrimValue::I32(20), PrimValue::I32(30)])
    );
    assert_eq!(
        config[2],
        FieldValue::List(vec![
            PrimValue::Bool(true),
            PrimValue::Bool(false),
            PrimValue::Bool(true),
        ])
    );
}

#[test]
fn test_mixed_config() {
    let spec = StructSpec {
        identifier: "TestMixedConfig".to_string(),
        options: plain_options_ov(),
        fields: vec![
            field_ov("name", Shape::Required(PrimitiveKind::Str)),
            field_ov("optional_port", Shape::Optional(PrimitiveKind::U16)),
            field_ov("hosts", Shape::List(PrimitiveKind::Str)),
        ],
    };
    let mut env = Env::new();
    env.set("TESTMIXEDCONFIG_NAME".to_string(), "my-app".to_string());
    env.set("TESTMIXEDCONFIG_OPTIONAL_PORT".to_string(), "8080".to_string());
    env.set("TESTMIXEDCONFIG_HOSTS".to_string(), "localhost,127.0.0.1".to_string());

    let config = spec.load_new(&env).unwrap();
    assert_eq!(config[0], FieldValue::Prim(PrimValue::Str("my-app".to_string())));
    assert_eq!(config[1], FieldValue::Opt(Some(PrimValue::U16(8080))));
    assert_eq!(config[2], str_list_ov(&["localhost", "127.0.0.1"]));
}

#[test]
fn test_load_from_env_with_option() {
    let spec = option_struct_ov("TestLoadOption");
    let mut env = Env::new();
    env.set("TESTLOADOPTION_REQUIRED".to_string(), "updated".to_string());
    env.set("TESTLOADOPTION_OPTIONAL_STRING".to_string(), "new_value".to_string());
    env.set("TESTLOADOPTION_OPTIONAL_BOOL".to_string(), "false".to_string());

    let mut config = vec![
        FieldValue::Prim(PrimValue::Str("old".to_string())),
        FieldValue::Opt(None),
        FieldValue::Opt(Some(PrimValue::I32(99))),
        FieldValue::Opt(None),
    ];

    spec.load_into(&mut config, &env).unwrap();
    assert_eq!(config[0], FieldValue::Prim(PrimValue::Str("updated".to_string())));
    assert_eq!(config[1], FieldValue::Opt(Some(PrimValue::Str("new_value".to_string()))));
    assert_eq!(config[2], FieldValue::Opt(None));
    assert_eq!(config[3], FieldValue::Opt(Some(PrimValue::Bool(false))));
}

#[test]
fn test_vec_parse_error() {
    let spec = vec_struct_ov("TestVecParseError");
    let mut env = Env::new();
    env.set("TESTVECPARSEERROR_TAGS".to_string(), "a,b,c".to_string());
    env.set("TESTVECPARSEERROR_SCORES".to_string(), "10,not_a_number,30".to_string());
    env.set("TESTVECPARSEERROR_FLAGS".to_string(), "true,false".to_string());

    let result = spec.load_new(&env);
    assert!(result.is_err());
    assert!(result.unwrap_err().message().contains("TESTVECPARSEERROR_SCORES"));
}

#[test]
fn test_option_parse_error() {
    let spec = option_struct_ov("TestOptionParseError");
    let mut env = Env::new();
    env.set("TESTOPTIONPARSEERROR_REQUIRED".to_string(), "test".to_string());
    env.set("TESTOPTIONPARSEERROR_OPTIONAL_STRING".to_string(), "value".to_string());
    env.set("TESTOPTIONPARSEERROR_OPTIONAL_INT".to_string(), "not_a_number".to_string());
    env.set("TESTOPTIONPARSEERROR_OPTIONAL_BOOL".to_string(), "true".to_string());

    let result = spec.load_new(&env);
    assert!(result.is_err());
}
