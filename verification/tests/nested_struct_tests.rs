use from_env::Env;
use from_env::FieldSpec;
use from_env::FieldValue;
use from_env::NamingOptions;
use from_env::PrimValue;
use from_env::PrimitiveKind;
use from_env::Shape;
use from_env::StructSpec;

fn plain_options_ns() -> NamingOptions {
    NamingOptions {
        prefix: String::new(),
        word_separator: String::new(),
    }
}

fn field_ns(identifier: &str, shape: Shape) -> FieldSpec {
    FieldSpec {
        identifier: identifier.to_string(),
        shape,
    }
}

fn listen_spec_ns() -> StructSpec {
    StructSpec {
        identifier: "Listen".to_string(),
        options: plain_options_ns(),
        fields: vec![
            field_ns("address", Shape::Required(PrimitiveKind::Str)),
            field_ns("port", Shape::Required(PrimitiveKind::U32)),
        ],
    }
}

fn server_config_required_ns(identifier: &str) -> StructSpec {
    StructSpec {
        identifier: identifier.to_string(),
        options: plain_options_ns(),
        fields: vec![
            field_ns("disabled", Shape::Required(PrimitiveKind::Bool)),
            field_ns("listener", Shape::Nested(listen_spec_ns())),
        ],
    }
}

fn server_config_optional_ns(identifier: &str) -> StructSpec {
    StructSpec {
        identifier: identifier.to_string(),
        options: plain_options_ns(),
        fields: vec![
            field_ns("disabled", Shape::Required(PrimitiveKind::Bool)),
            field_ns("listener", Shape::OptionalNested(listen_spec_ns())),
        ],
    }
}

#[test]
fn test_nested_struct_required() {
    let spec = server_config_required_ns("ServerConfigRequired");
    let mut env = Env::new();
    env.set("SERVERCONFIGREQUIRED_DISABLED".to_string(), "false".to_string());
    env.set("SERVERCONFIGREQUIRED_LISTENER_ADDRESS".to_string(), "0.0.0.0".to_string());
    env.set("SERVERCONFIGREQUIRED_LISTENER_PORT".to_string(), "8080".to_string());

    let result = spec.load_new(&env);
    assert!(result.is_ok(), "Failed to parse: {:?}", result.err());

    let config = result.unwrap();
    assert_eq!(config[0], FieldValue::Prim(PrimValue::Bool(false)));
    assert_eq!(
        config[1],
        FieldValue::Nested(vec![
            FieldValue::Prim(PrimValue::Str("0.0.0.0".to_string())),
            FieldValue::Prim(PrimValue::U32(8080)),
        ])
    );
}

#[test]
fn test_nested_struct_optional_present() {
    let spec = server_config_optional_ns("ServerConfigOptional");
    let mut env = Env::new();
    env.set("SERVERCONFIGOPTIONAL_DISABLED".to_string(), "false".to_string());
    env.set("SERVERCONFIGOPTIONAL_LISTENER_ADDRESS".to_string(), "127.0.0.1".to_string());
    env.set("SERVERCONFIGOPTIONAL_LISTENER_PORT".to_string(), "9090".to_string());

    let result = spec.load_new(&env);
    assert!(result.is_ok(), "Failed to parse: {:?}", result.err());

    let config = result.unwrap();
    assert_eq!(config[0], FieldValue::Prim(PrimValue::Bool(false)));
    match &config[1] {
        FieldValue::OptNested(Some(listener)) => {
            assert_eq!(listener[0], FieldValue::Prim(PrimValue::Str("127.0.0.1".to_string())));
            assert_eq!(listener[1], FieldValue::Prim(PrimValue::U32(9090)));
        }
        other => panic!("expected a present nested listener, got {:?}", other),
    }
}

#[test]
fn test_nested_struct_optional_absent() {
    let spec = server_config_optional_ns("ServerConfigOptional2");
    let mut env = Env::new();
    env.set("SERVERCONFIGOPTIONAL2_DISABLED".to_string(), "true".to_string());

    let result = spec.load_new(&env);
    assert!(result.is_ok(), "Failed to parse: {:?}", result.err());

    let config = result.unwrap();
    assert_eq!(config[0], FieldValue::Prim(PrimValue::Bool(true)));
    assert_eq!(config[1], FieldValue::OptNested(None));
}

#[test]
fn test_nested_struct_with_prefix() {
    let spec = StructSpec {
        identifier: "ServerConfigWithPrefix".to_string(),
        options: NamingOptions {
            prefix: "APP_".to_string(),
            word_separator: String::new(),
        },
        fields: vec![
            field_ns("name", Shape::Required(PrimitiveKind::Str)),
            field_ns("listener", Shape::Nested(listen_spec_ns())),
        ],
    };
    let mut env = Env::new();
    env.set("APP_SERVERCONFIGWITHPREFIX_NAME".to_string(), "my-app".to_string());
    env.set("APP_SERVERCONFIGWITHPREFIX_LISTENER_ADDRESS".to_string(), "localhost".to_string());
    env.set("APP_SERVERCONFIGWITHPREFIX_LISTENER_PORT".to_string(), "3000".to_string());

    let result = spec.load_new(&env);
    assert!(result.is_ok(), "Failed to parse: {:?}", result.err());

    let config = result.unwrap();
    assert_eq!(config[0], FieldValue::Prim(PrimValue::Str("my-app".to_string())));
    assert_eq!(
        config[1],
        FieldValue::Nested(vec![
            FieldValue::Prim(PrimValue::Str("localhost".to_string())),
            FieldValue::Prim(PrimValue::U32(3000)),
        ])
    );
}

#[test]
fn test_nested_struct_missing_field() {
    let spec = server_config_required_ns("ServerConfigRequired2");
    let mut env = Env::new();
    env.set("SERVERCONFIGREQUIRED2_DISABLED".to_string(), "false".to_string());
    env.set("SERVERCONFIGREQUIRED2_LISTENER_ADDRESS".to_string(), "0.0.0.0".to_string());

    let result = spec.load_new(&env);
    assert!(result.is_err());
}
