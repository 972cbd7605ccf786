use from_env::Env;
use from_env::FieldSpec;
use from_env::FieldValue;
use from_env::FromEnvError;
use from_env::NamingOptions;
use from_env::ParseError;
use from_env::PrimValue;
use from_env::PrimitiveKind;
use from_env::Shape;
use from_env::StructSpec;
use from_env::derive_name;
use from_env::parse_bool;
use from_env::parse_char;
use from_env::parse_vec_bool;
use from_env::parse_vec_char;
use from_env::parse_vec_int;
use from_env::parse_vec_string;
use from_env::to_env_case;

fn field_dp(identifier: &str, shape: Shape) -> FieldSpec {
    FieldSpec {
        identifier: identifier.to_string(),
        shape,
    }
}

fn options_dp(prefix: &str, sep: &str) -> NamingOptions {
    NamingOptions {
        prefix: prefix.to_string(),
        word_separator: sep.to_string(),
    }
}

#[test]
fn test_env_case_no_separator_concatenates() {
    assert_eq!(to_env_case("ServerConfig", None), "SERVERCONFIG");
    assert_eq!(to_env_case("ServerConfig", Some("")), "SERVERCONFIG");
    assert_eq!(to_env_case("abc", None), "ABC");
}

#[test]
fn test_env_case_with_separator() {
    assert_eq!(to_env_case("ServerConfig", Some("_")), "SERVER_CONFIG");
    assert_eq!(to_env_case("AppleBerry", Some("_")), "APPLE_BERRY");
    // the separator is inserted only at a lowercase-to-uppercase boundary
    assert_eq!(to_env_case("HTTPServer", Some("_")), "HTTPSERVER");
    assert_eq!(to_env_case("AppleBerry", Some("-")), "APPLE-BERRY");
}

#[test]
fn test_derive_name_plain() {
    let opts = options_dp("", "");
    assert_eq!(derive_name("StructName", &opts, "field_name", None), "STRUCTNAME_FIELD_NAME");
}

#[test]
fn test_derive_name_struct_segment_same_for_all_fields() {
    let opts = options_dp("", "_");
    let a = derive_name("AppleBerry", &opts, "color", None);
    let b = derive_name("AppleBerry", &opts, "sweet", None);
    assert!(a.starts_with("APPLE_BERRY_"));
    assert!(b.starts_with("APPLE_BERRY_"));
    assert_eq!(a, "APPLE_BERRY_COLOR");
    assert_eq!(b, "APPLE_BERRY_SWEET");
}

#[test]
fn test_derive_name_override_replaces_configured_prefix() {
    let opts = options_dp("CONF_", "");
    assert_eq!(derive_name("Service", &opts, "host", None), "CONF_SERVICE_HOST");
    // the override replaces the configured prefix; it is never appended
    assert_eq!(derive_name("Service", &opts, "host", Some("X_")), "X_SERVICE_HOST");
    assert_eq!(derive_name("Service", &opts, "host", Some("")), "SERVICE_HOST");
}

#[test]
fn test_parse_bool_spellings() {
    assert_eq!(parse_bool("true"), Ok(true));
    assert_eq!(parse_bool("TRUE"), Ok(true));
    assert_eq!(parse_bool("TrUe"), Ok(true));
    assert_eq!(parse_bool("1"), Ok(true));
    assert_eq!(parse_bool("false"), Ok(false));
    assert_eq!(parse_bool("FALSE"), Ok(false));
    assert_eq!(parse_bool("0"), Ok(false));
    assert_eq!(parse_bool("yes"), Err(ParseError::ParseBool("yes".to_string())));
    assert_eq!(parse_bool(""), Err(ParseError::ParseBool("".to_string())));
}

#[test]
fn test_parse_char_single() {
    assert_eq!(parse_char("A"), Ok('A'));
    // the trimmed text must decode to exactly one character
    assert_eq!(parse_char(" a "), Ok('a'));
    assert_eq!(parse_char("a\n"), Ok('a'));
    assert_eq!(parse_char(" "), Err(ParseError::ParseChar(" ".to_string())));
    assert_eq!(parse_char(""), Err(ParseError::ParseChar("".to_string())));
    assert_eq!(parse_char("AB"), Err(ParseError::ParseChar("AB".to_string())));
    assert_eq!(parse_char(" a b "), Err(ParseError::ParseChar(" a b ".to_string())));
}

#[test]
fn test_char_field_trims_surrounding_whitespace() {
    let spec = StructSpec {
        identifier: "CharTrim".to_string(),
        options: options_dp("", ""),
        fields: vec![field_dp("mark", Shape::Required(PrimitiveKind::Char))],
    };
    let mut env = Env::new();
    env.set("CHARTRIM_MARK".to_string(), " a ".to_string());
    let vals = spec.load_new(&env).unwrap();
    assert_eq!(vals[0], FieldValue::Prim(PrimValue::Char('a')));
}

#[test]
fn test_parse_vec_string_trims_segments() {
    assert_eq!(
        parse_vec_string("a, b ,c"),
        Ok(vec!["a".to_string(), "b".to_string(), "c".to_string()])
    );
    assert_eq!(parse_vec_string("   "), Ok(Vec::new()));
    assert_eq!(parse_vec_string(""), Ok(Vec::new()));
}

#[test]
fn test_trim_covers_unicode_whitespace() {
    // no-break space and em space count as whitespace, as str::trim has it
    assert_eq!(
        parse_vec_string("\u{A0}a\u{A0},\u{2003}b"),
        Ok(vec!["a".to_string(), "b".to_string()])
    );
    assert_eq!(parse_vec_string("\u{A0}\u{2003}"), Ok(Vec::new()));
    assert_eq!(parse_vec_int::<i32>("\u{2007}7\u{202F}"), Ok(vec![7]));
}

#[test]
fn test_parse_env_var_generic_path() {
    let mut env = Env::new();
    env.set("GENERIC_NUM".to_string(), "42".to_string());
    env.set("GENERIC_BAD".to_string(), "abc".to_string());

    let ok: Result<i32, FromEnvError> = from_env::parse_env_var(&env, &"GENERIC_NUM".to_string());
    assert_eq!(ok, Ok(42));

    let missing: Result<i32, FromEnvError> =
        from_env::parse_env_var(&env, &"GENERIC_ABSENT".to_string());
    assert_eq!(missing, Err(FromEnvError::MissingVariable("GENERIC_ABSENT".to_string())));

    // a built-in kind reports its own cause, carrying the offending text
    let bad: Result<i32, FromEnvError> = from_env::parse_env_var(&env, &"GENERIC_BAD".to_string());
    assert_eq!(
        bad,
        Err(FromEnvError::ParseError {
            var: "GENERIC_BAD".to_string(),
            source: ParseError::ParseInt("abc".to_string()),
        })
    );

    let bad_flag: Result<bool, FromEnvError> =
        from_env::parse_env_var(&env, &"GENERIC_BAD".to_string());
    assert_eq!(
        bad_flag,
        Err(FromEnvError::ParseError {
            var: "GENERIC_BAD".to_string(),
            source: ParseError::ParseBool("abc".to_string()),
        })
    );

    let text: Result<String, FromEnvError> =
        from_env::parse_env_var(&env, &"GENERIC_BAD".to_string());
    assert_eq!(text, Ok("abc".to_string()));
}

#[test]
fn test_parse_vec_int_first_bad_index() {
    assert_eq!(parse_vec_int::<i32>("10,20,30"), Ok(vec![10, 20, 30]));
    let err = parse_vec_int::<i32>("10,bad,30").unwrap_err();
    match err {
        ParseError::ParseVec { index, error } => {
            assert_eq!(index, 1);
            assert!(error.contains("bad"));
        }
        other => panic!("expected a list-element error, got {:?}", other),
    }
}

#[test]
fn test_parse_vec_int_boundaries() {
    assert_eq!(parse_vec_int::<u8>("0,255"), Ok(vec![0, 255]));
    assert!(parse_vec_int::<u8>("256").is_err());
    assert_eq!(parse_vec_int::<i8>("-128,127"), Ok(vec![-128, 127]));
    assert!(parse_vec_int::<i8>("128").is_err());
    assert!(parse_vec_int::<u32>("-1").is_err());
    assert_eq!(parse_vec_int::<i64>("+42"), Ok(vec![42]));
}

#[test]
fn test_parse_vec_bool_and_char() {
    assert_eq!(parse_vec_bool("true, 0 ,TRUE"), Ok(vec![true, false, true]));
    let err = parse_vec_bool("true,maybe").unwrap_err();
    match err {
        ParseError::ParseVec { index, .. } => assert_eq!(index, 1),
        other => panic!("expected a list-element error, got {:?}", other),
    }
    assert_eq!(parse_vec_char("a, b ,c"), Ok(vec!['a', 'b', 'c']));
    assert!(parse_vec_char("a,bc").is_err());
}

#[test]
fn test_optional_empty_string_is_present() {
    let spec = StructSpec {
        identifier: "OptEmpty".to_string(),
        options: options_dp("", ""),
        fields: vec![field_dp("note", Shape::Optional(PrimitiveKind::Str))],
    };
    let mut env = Env::new();
    env.set("OPTEMPTY_NOTE".to_string(), String::new());
    let vals = spec.load_new(&env).unwrap();
    assert_eq!(vals[0], FieldValue::Opt(Some(PrimValue::Str(String::new()))));
}

#[test]
fn test_required_empty_string_passes_through() {
    let spec = StructSpec {
        identifier: "ReqEmpty".to_string(),
        options: options_dp("", ""),
        fields: vec![field_dp("note", Shape::Required(PrimitiveKind::Str))],
    };
    let mut env = Env::new();
    env.set("REQEMPTY_NOTE".to_string(), String::new());
    let vals = spec.load_new(&env).unwrap();
    assert_eq!(vals[0], FieldValue::Prim(PrimValue::Str(String::new())));
}

#[test]
fn test_list_absent_is_missing_variable() {
    let spec = StructSpec {
        identifier: "ListAbsent".to_string(),
        options: options_dp("", ""),
        fields: vec![field_dp("tags", Shape::List(PrimitiveKind::Str))],
    };
    let env = Env::new();
    let err = spec.load_new(&env).unwrap_err();
    assert_eq!(err, FromEnvError::MissingVariable("LISTABSENT_TAGS".to_string()));
}

#[test]
fn test_error_values_are_exact() {
    let spec = StructSpec {
        identifier: "ErrExact".to_string(),
        options: options_dp("", ""),
        fields: vec![field_dp("flag", Shape::Required(PrimitiveKind::Bool))],
    };
    let mut env = Env::new();
    env.set("ERREXACT_FLAG".to_string(), "maybe".to_string());
    let err = spec.load_new(&env).unwrap_err();
    assert_eq!(
        err,
        FromEnvError::ParseError {
            var: "ERREXACT_FLAG".to_string(),
            source: ParseError::ParseBool("maybe".to_string()),
        }
    );
    assert_eq!(
        err.message(),
        "Failed to parse environment variable 'ERREXACT_FLAG': \
         Failed to parse boolean: expected 'true', 'false', '1', or '0', got 'maybe'"
    );
}

#[test]
fn test_char_field_error_value() {
    let spec = StructSpec {
        identifier: "CharErr".to_string(),
        options: options_dp("", ""),
        fields: vec![field_dp("mark", Shape::Required(PrimitiveKind::Char))],
    };
    let mut env = Env::new();
    env.set("CHARERR_MARK".to_string(), "long".to_string());
    let err = spec.load_new(&env).unwrap_err();
    assert_eq!(
        err,
        FromEnvError::ParseError {
            var: "CHARERR_MARK".to_string(),
            source: ParseError::ParseChar("long".to_string()),
        }
    );
}

#[test]
fn test_int_field_error_value() {
    let spec = StructSpec {
        identifier: "IntErr".to_string(),
        options: options_dp("", ""),
        fields: vec![field_dp("n", Shape::Required(PrimitiveKind::U8))],
    };
    let mut env = Env::new();
    env.set("INTERR_N".to_string(), "256".to_string());
    let err = spec.load_new(&env).unwrap_err();
    assert_eq!(
        err,
        FromEnvError::ParseError {
            var: "INTERR_N".to_string(),
            source: ParseError::ParseInt("256".to_string()),
        }
    );
}

#[test]
fn test_vec_error_message_names_index() {
    let spec = StructSpec {
        identifier: "VecIdx".to_string(),
        options: options_dp("", ""),
        fields: vec![field_dp("scores", Shape::List(PrimitiveKind::I32))],
    };
    let mut env = Env::new();
    env.set("VECIDX_SCORES".to_string(), "10,bad,30".to_string());
    let err = spec.load_new(&env).unwrap_err();
    let msg = err.message();
    assert!(msg.contains("VECIDX_SCORES"));
    assert!(msg.contains("index 1"));
}

#[test]
fn test_load_into_partial_update_on_failure() {
    let spec = StructSpec {
        identifier: "Partial".to_string(),
        options: options_dp("", ""),
        fields: vec![
            field_dp("a", Shape::Required(PrimitiveKind::U8)),
            field_dp("b", Shape::Required(PrimitiveKind::U8)),
            field_dp("c", Shape::Required(PrimitiveKind::U8)),
        ],
    };
    let mut env = Env::new();
    env.set("PARTIAL_A".to_string(), "1".to_string());
    env.set("PARTIAL_B".to_string(), "oops".to_string());
    env.set("PARTIAL_C".to_string(), "3".to_string());

    // load_new on the same failing input produces no instance at all
    assert!(spec.load_new(&env).is_err());

    // load_into overwrites fields before the failing one and keeps the rest
    let mut dest = vec![
        FieldValue::Prim(PrimValue::U8(10)),
        FieldValue::Prim(PrimValue::U8(20)),
        FieldValue::Prim(PrimValue::U8(30)),
    ];
    let result = spec.load_into(&mut dest, &env);
    assert!(result.is_err());
    assert_eq!(dest[0], FieldValue::Prim(PrimValue::U8(1)));
    assert_eq!(dest[1], FieldValue::Prim(PrimValue::U8(20)));
    assert_eq!(dest[2], FieldValue::Prim(PrimValue::U8(30)));
}

#[test]
fn test_nested_options_are_ignored() {
    // the nested structure declares its own prefix and separator; both are
    // ignored when it occurs as a nested field
    let noisy_inner = StructSpec {
        identifier: "InnerThing".to_string(),
        options: options_dp("IGNORED_", "_"),
        fields: vec![field_dp("value", Shape::Required(PrimitiveKind::Str))],
    };
    let spec = StructSpec {
        identifier: "Outer".to_string(),
        options: options_dp("", ""),
        fields: vec![field_dp("inner", Shape::Nested(noisy_inner))],
    };
    let mut env = Env::new();
    env.set("OUTER_INNER_VALUE".to_string(), "deep".to_string());
    let vals = spec.load_new(&env).unwrap();
    assert_eq!(
        vals[0],
        FieldValue::Nested(vec![FieldValue::Prim(PrimValue::Str("deep".to_string()))])
    );
}

#[test]
fn test_env_later_binding_wins() {
    let spec = StructSpec {
        identifier: "Shadow".to_string(),
        options: options_dp("", ""),
        fields: vec![field_dp("v", Shape::Required(PrimitiveKind::Str))],
    };
    let mut env = Env::new();
    env.set("SHADOW_V".to_string(), "first".to_string());
    env.set("SHADOW_V".to_string(), "second".to_string());
    let vals = spec.load_new(&env).unwrap();
    assert_eq!(vals[0], FieldValue::Prim(PrimValue::Str("second".to_string())));
}

#[test]
fn test_scenario_server_config() {
    let spec = StructSpec {
        identifier: "ServerConfig".to_string(),
        options: options_dp("", ""),
        fields: vec![
            field_dp("host", Shape::Required(PrimitiveKind::Str)),
            field_dp("port", Shape::Required(PrimitiveKind::U16)),
        ],
    };
    let mut env = Env::new();
    env.set("SERVERCONFIG_HOST".to_string(), "0.0.0.0".to_string());
    env.set("SERVERCONFIG_PORT".to_string(), "443".to_string());
    let vals = spec.load_new(&env).unwrap();
    assert_eq!(vals[0], FieldValue::Prim(PrimValue::Str("0.0.0.0".to_string())));
    assert_eq!(vals[1], FieldValue::Prim(PrimValue::U16(443)));

    let mut partial_env = Env::new();
    partial_env.set("SERVERCONFIG_HOST".to_string(), "0.0.0.0".to_string());
    let err = spec.load_new(&partial_env).unwrap_err();
    assert_eq!(err, FromEnvError::MissingVariable("SERVERCONFIG_PORT".to_string()));
}
