use docparam::parameter::{
    BuilderCall, ClauseToken, Parameter, ParameterIn, SpannedError, SyntaxError, TypeRef,
};

fn err(error: SyntaxError, at: usize) -> Result<Parameter, SpannedError> {
    Err(SpannedError { error, at })
}

fn lit(s: &str) -> ClauseToken {
    ClauseToken::StrLit(s.to_string())
}

fn ident(s: &str) -> ClauseToken {
    ClauseToken::Ident(s.to_string())
}

fn plain_type(ty: &str) -> ClauseToken {
    ClauseToken::TypeRef(TypeRef::new(ty))
}

#[test]
fn full_clause_with_type() {
    let tokens = vec![
        lit("id"),
        ClauseToken::Equals,
        plain_type("String"),
        ClauseToken::Comma,
        ident("path"),
        ClauseToken::Comma,
        ident("deprecated"),
        ClauseToken::Comma,
        ident("description"),
        ClauseToken::Equals,
        lit("Users database id"),
    ];
    let p = Parameter::parse(&tokens).unwrap();
    assert_eq!(p.name, "id");
    assert_eq!(p.parameter_in, ParameterIn::Path);
    assert!(p.deprecated);
    assert_eq!(p.description, Some("Users database id".to_string()));
    assert_eq!(p.parameter_type, Some(TypeRef::new("String")));
}

#[test]
fn full_clause_without_type() {
    let tokens = vec![
        lit("id"),
        ClauseToken::Comma,
        ident("path"),
        ClauseToken::Comma,
        ident("deprecated"),
        ClauseToken::Comma,
        ident("description"),
        ClauseToken::Equals,
        lit("Users database id"),
    ];
    let p = Parameter::parse(&tokens).unwrap();
    assert_eq!(p.name, "id");
    assert_eq!(p.parameter_in, ParameterIn::Path);
    assert!(p.deprecated);
    assert_eq!(p.description, Some("Users database id".to_string()));
    assert_eq!(p.parameter_type, None);
}

#[test]
fn minimal_query_clause() {
    let tokens = vec![lit("id"), ClauseToken::Comma, ident("query")];
    let p = Parameter::parse(&tokens).unwrap();
    assert_eq!(p.parameter_in, ParameterIn::Query);
    assert!(!p.deprecated);
    assert_eq!(p.description, None);
    assert_eq!(p.parameter_type, None);
}

#[test]
fn unknown_attribute_is_named_with_the_keyword_set() {
    let tokens = vec![lit("id"), ClauseToken::Comma, ident("unknown_attr")];
    let e = Parameter::parse(&tokens).unwrap_err();
    assert_eq!(
        e.error,
        SyntaxError::UnknownAttribute("unknown_attr".to_string())
    );
    assert_eq!(e.at, 2);
    assert_eq!(
        e.error.message(),
        "unexpected identifier: unknown_attr, expected any of: path, query, header, cookie, deprecated, description"
    );
}

#[test]
fn missing_comma_after_name_is_fatal() {
    let tokens = vec![lit("id"), ident("path")];
    assert_eq!(Parameter::parse(&tokens), err(SyntaxError::ExpectedComma, 1));
}

#[test]
fn explicit_deprecated_false_overrides_presence() {
    let tokens = vec![
        lit("id"),
        ClauseToken::Comma,
        ident("path"),
        ClauseToken::Comma,
        ident("deprecated"),
        ClauseToken::Equals,
        ClauseToken::BoolLit(false),
    ];
    let p = Parameter::parse(&tokens).unwrap();
    assert!(!p.deprecated);
    assert_eq!(p.parameter_in, ParameterIn::Path);
}

#[test]
fn explicit_deprecated_true_is_honored() {
    let tokens = vec![
        lit("id"),
        ClauseToken::Comma,
        ident("deprecated"),
        ClauseToken::Equals,
        ClauseToken::BoolLit(true),
    ];
    assert!(Parameter::parse(&tokens).unwrap().deprecated);
}

#[test]
fn missing_name_is_fatal() {
    assert_eq!(Parameter::parse(&vec![]), err(SyntaxError::ExpectedName, 0));
    assert_eq!(
        Parameter::parse(&vec![ident("path")]),
        err(SyntaxError::ExpectedName, 0)
    );
}

#[test]
fn equals_without_type_is_fatal() {
    let tokens = vec![lit("id"), ClauseToken::Equals];
    assert_eq!(Parameter::parse(&tokens), err(SyntaxError::ExpectedType, 2));
}

#[test]
fn name_and_comma_alone_still_expect_an_attribute() {
    let tokens = vec![lit("id"), ClauseToken::Comma];
    assert_eq!(Parameter::parse(&tokens), err(SyntaxError::ExpectedIdent, 2));
}

#[test]
fn trailing_comma_after_attribute_is_legal() {
    let tokens = vec![
        lit("id"),
        ClauseToken::Comma,
        ident("header"),
        ClauseToken::Comma,
    ];
    let p = Parameter::parse(&tokens).unwrap();
    assert_eq!(p.parameter_in, ParameterIn::Header);
}

#[test]
fn missing_comma_between_attributes_is_tolerated() {
    let tokens = vec![
        lit("id"),
        ClauseToken::Comma,
        ident("query"),
        ident("deprecated"),
    ];
    let p = Parameter::parse(&tokens).unwrap();
    assert_eq!(p.parameter_in, ParameterIn::Query);
    assert!(p.deprecated);
}

#[test]
fn description_without_equals_is_fatal() {
    let tokens = vec![
        lit("id"),
        ClauseToken::Comma,
        ident("description"),
        lit("text"),
    ];
    assert_eq!(Parameter::parse(&tokens), err(SyntaxError::ExpectedEqual, 3));
}

#[test]
fn description_without_literal_is_fatal() {
    let tokens = vec![
        lit("id"),
        ClauseToken::Comma,
        ident("description"),
        ClauseToken::Equals,
        ident("oops"),
    ];
    assert_eq!(
        Parameter::parse(&tokens),
        err(SyntaxError::ExpectedDescription, 4)
    );
}

#[test]
fn last_location_keyword_wins() {
    let tokens = vec![
        lit("id"),
        ClauseToken::Comma,
        ident("query"),
        ClauseToken::Comma,
        ident("cookie"),
    ];
    let p = Parameter::parse(&tokens).unwrap();
    assert_eq!(p.parameter_in, ParameterIn::Cookie);
}

#[test]
fn empty_name_literal_is_rejected() {
    let tokens = vec![lit(""), ClauseToken::Comma, ident("path")];
    let e = Parameter::parse(&tokens).unwrap_err();
    assert_eq!(e, SpannedError { error: SyntaxError::EmptyName, at: 0 });
    assert_eq!(
        e.error.message(),
        "unparseable parameter name, expected non-empty literal string"
    );
}

#[test]
fn parameter_in_from_str_accepts_the_four_keywords() {
    assert_eq!(ParameterIn::from_str("path"), Ok(ParameterIn::Path));
    assert_eq!(ParameterIn::from_str("query"), Ok(ParameterIn::Query));
    assert_eq!(ParameterIn::from_str("header"), Ok(ParameterIn::Header));
    assert_eq!(ParameterIn::from_str("cookie"), Ok(ParameterIn::Cookie));
}

#[test]
fn parameter_in_from_str_rejects_anything_else() {
    let e = ParameterIn::from_str("body").unwrap_err();
    assert_eq!(e, SyntaxError::UnknownParameterIn("body".to_string()));
    assert_eq!(
        e.message(),
        "unexpected str: body, expected one of: path, query, header, cookie"
    );
}

#[test]
fn parameter_in_defaults_to_path() {
    assert_eq!(ParameterIn::default(), ParameterIn::Path);
}

#[test]
fn direct_constructor_round_trip() {
    let p = Parameter::new("id", "String", ParameterIn::Query);
    assert!(!p.deprecated);
    assert_eq!(p.description, None);
    let calls = p.to_builder_calls();
    assert_eq!(
        calls,
        vec![
            BuilderCall::New("id".to_string()),
            BuilderCall::Location(ParameterIn::Query),
            BuilderCall::DeprecatedFlag(false),
            BuilderCall::Schema { ty: "String".to_string(), is_array: false },
            BuilderCall::Required(true),
        ]
    );
}

#[test]
fn render_always_emits_location_and_deprecated() {
    let tokens = vec![lit("id"), ClauseToken::Comma, ident("query")];
    let p = Parameter::parse(&tokens).unwrap();
    let calls = p.to_builder_calls();
    assert_eq!(
        calls,
        vec![
            BuilderCall::New("id".to_string()),
            BuilderCall::Location(ParameterIn::Query),
            BuilderCall::DeprecatedFlag(false),
        ]
    );
}

#[test]
fn required_negates_the_optional_flag() {
    let mut p = Parameter::new("id", "String", ParameterIn::Path);
    p.parameter_type = Some(TypeRef {
        ty: "String".to_string(),
        is_array: false,
        is_option: true,
    });
    let calls = p.to_builder_calls();
    assert_eq!(calls.last(), Some(&BuilderCall::Required(false)));
}

#[test]
fn array_type_is_rendered_in_the_schema() {
    let tokens = vec![
        lit("ids"),
        ClauseToken::Equals,
        ClauseToken::TypeRef(TypeRef {
            ty: "i32".to_string(),
            is_array: true,
            is_option: false,
        }),
        ClauseToken::Comma,
        ident("query"),
    ];
    let p = Parameter::parse(&tokens).unwrap();
    let calls = p.to_builder_calls();
    assert_eq!(
        calls[3],
        BuilderCall::Schema { ty: "i32".to_string(), is_array: true }
    );
    assert_eq!(calls[4], BuilderCall::Required(true));
}

#[test]
fn update_parameter_type_only_touches_the_type() {
    let tokens = vec![lit("id"), ClauseToken::Comma, ident("query")];
    let mut p = Parameter::parse(&tokens).unwrap();
    assert_eq!(p.parameter_type, None);
    p.update_parameter_type("u64");
    assert_eq!(p.parameter_type, Some(TypeRef::new("u64")));
    assert_eq!(p.parameter_in, ParameterIn::Query);
    assert_eq!(p.name, "id");
}
