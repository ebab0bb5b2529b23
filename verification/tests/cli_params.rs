use nanograph::cli::params::{
    build_param_map, merge_run_params, parse_delete_predicate, parse_param, parse_vector_dim_type,
    strip_matching_quotes, DeleteOp, Literal, Param,
};

fn param(name: &str, label: &str) -> Param {
    Param {
        name: name.to_string(),
        type_label: label.to_string(),
        nullable: false,
    }
}

fn raw(key: &str, value: &str) -> Vec<(String, String)> {
    vec![(key.to_string(), value.to_string())]
}

fn message(label: &str, value: &str) -> String {
    build_param_map(&vec![param("p", label)], &raw("p", value))
        .unwrap_err()
        .to_string()
}

#[test]
fn merge_run_params_maps_alias_positionals_and_preserves_explicit_overrides() {
    let merged = merge_run_params(
        Some("search"),
        &vec![String::from("q"), String::from("limit")],
        vec!["vector databases".to_string()],
        vec![
            ("q".to_string(), "override".to_string()),
            ("format".to_string(), "json".to_string()),
        ],
    )
    .unwrap();
    assert_eq!(
        merged,
        vec![
            ("q".to_string(), "vector databases".to_string()),
            ("q".to_string(), "override".to_string()),
            ("format".to_string(), "json".to_string()),
        ]
    );
}

#[test]
fn merge_run_params_rejects_positional_args_without_alias_mapping() {
    let err = merge_run_params(
        Some("search"),
        &vec![],
        vec!["vector databases".to_string()],
        Vec::new(),
    )
    .unwrap_err();
    assert!(err.to_string().contains("does not declare args"));
}

#[test]
fn build_param_map_parses_date_and_datetime_types() {
    let query_params = vec![
        Param {
            name: "d".to_string(),
            type_label: "Date".to_string(),
            nullable: false,
        },
        Param {
            name: "dt".to_string(),
            type_label: "DateTime".to_string(),
            nullable: false,
        },
    ];
    let raw = vec![
        ("d".to_string(), "2026-02-14".to_string()),
        ("dt".to_string(), "2026-02-14T10:00:00Z".to_string()),
    ];

    let params = build_param_map(&query_params, &raw).unwrap();
    assert!(matches!(
        params.get("d"),
        Some(Literal::Date(v)) if v == "2026-02-14"
    ));
    assert!(matches!(
        params.get("dt"),
        Some(Literal::DateTime(v)) if v == "2026-02-14T10:00:00Z"
    ));
}

#[test]
fn build_param_map_parses_vector_type() {
    let query_params = vec![Param {
        name: "q".to_string(),
        type_label: "Vector(3)".to_string(),
        nullable: false,
    }];
    let raw = vec![("q".to_string(), "[0.1, 0.2, 0.3]".to_string())];

    let params = build_param_map(&query_params, &raw).unwrap();
    match params.get("q") {
        Some(Literal::List(items)) => {
            assert_eq!(items.len(), 3);
            assert!(matches!(items[0], Literal::Float(_)));
            assert!(matches!(items[1], Literal::Float(_)));
            assert!(matches!(items[2], Literal::Float(_)));
        }
        other => panic!("expected vector list literal, got {:?}", other),
    }
}

#[test]
fn build_param_map_parses_u32_and_u64_types() {
    let query_params = vec![
        Param {
            name: "u32v".to_string(),
            type_label: "U32".to_string(),
            nullable: false,
        },
        Param {
            name: "u64v".to_string(),
            type_label: "U64".to_string(),
            nullable: false,
        },
    ];
    let raw = vec![
        ("u32v".to_string(), "42".to_string()),
        ("u64v".to_string(), "9001".to_string()),
    ];

    let params = build_param_map(&query_params, &raw).unwrap();
    assert!(matches!(params.get("u32v"), Some(Literal::Integer(42))));
    assert!(matches!(params.get("u64v"), Some(Literal::Integer(9001))));
}

#[test]
fn build_param_map_rejects_u64_values_outside_literal_range() {
    let query_params = vec![Param {
        name: "u64v".to_string(),
        type_label: "U64".to_string(),
        nullable: false,
    }];
    let too_large = format!("{}", (i64::MAX as u128) + 1);
    let raw = vec![("u64v".to_string(), too_large)];

    let err = build_param_map(&query_params, &raw).unwrap_err();
    assert!(err.to_string().contains("exceeds supported range"));
}

#[test]
fn parse_param_single_quote_value_does_not_panic() {
    let (key, value) = parse_param("x='").unwrap();
    assert_eq!(key, "x");
    assert_eq!(value, "'");
}

#[test]
fn parse_delete_predicate_single_quote_value_does_not_panic() {
    let pred = parse_delete_predicate("slug='").unwrap();
    assert_eq!(pred.property, "slug");
    assert_eq!(pred.op, DeleteOp::Eq);
    assert_eq!(pred.value, "'");
}

#[test]
fn quotes_are_stripped_in_pairs() {
    assert_eq!(strip_matching_quotes("\"a b\""), "a b");
    assert_eq!(strip_matching_quotes("'a'"), "a");
    assert_eq!(strip_matching_quotes("'a\""), "'a\"");
    assert_eq!(strip_matching_quotes("\"\""), "");
}

#[test]
fn params_are_split_at_the_first_equals_sign() {
    assert_eq!(
        parse_param("name=\"a=b\"").unwrap(),
        ("name".to_string(), "a=b".to_string())
    );
    assert_eq!(
        parse_param("novalue").unwrap_err(),
        "invalid param 'novalue': expected key=value"
    );
}

#[test]
fn predicates_are_read_with_every_operator() {
    let cases = vec![
        ("age>=30", DeleteOp::Ge),
        ("age<=30", DeleteOp::Le),
        ("age!=30", DeleteOp::Ne),
        ("age=30", DeleteOp::Eq),
        ("age>30", DeleteOp::Gt),
        ("age<30", DeleteOp::Lt),
    ];
    for (text, op) in cases {
        let p = parse_delete_predicate(text).unwrap();
        assert_eq!(p.property, "age");
        assert_eq!(p.op, op);
        assert_eq!(p.value, "30");
    }
    let spaced = parse_delete_predicate("  name = 'Alice' ").unwrap();
    assert_eq!(spaced.property, "name");
    assert_eq!(spaced.value, "Alice");
}

#[test]
fn predicates_need_a_property_an_operator_and_a_value() {
    assert_eq!(
        parse_delete_predicate("=x").unwrap_err().to_string(),
        "invalid --where predicate '=x': expected <property><op><value>"
    );
    assert_eq!(
        parse_delete_predicate("name").unwrap_err().to_string(),
        "invalid --where predicate 'name': supported operators are =, !=, >, >=, <, <="
    );
}

#[test]
fn arguments_of_the_wrong_type_are_refused() {
    assert_eq!(message("I64", "x"), "param 'p': expected integer, got 'x'");
    assert_eq!(
        message("U32", "-1"),
        "param 'p': expected unsigned integer, got '-1'"
    );
    assert_eq!(
        message("U64", "1.5"),
        "param 'p': expected unsigned integer, got '1.5'"
    );
    assert_eq!(message("F64", "one"), "param 'p': expected float, got 'one'");
    assert_eq!(message("Bool", "yes"), "param 'p': expected bool, got 'yes'");
    assert_eq!(
        message("Vector(x)", "[]"),
        "param 'p': invalid vector type 'Vector(x)' (expected Vector(N))"
    );
    assert_eq!(
        message("Vector(2)", "3"),
        "param 'p': expected JSON array for Vector(2), got '3'"
    );
    assert_eq!(
        message("Vector(2)", "[1]"),
        "param 'p': expected 2 values for Vector(2), got 1"
    );
    assert_eq!(
        message("Vector(2)", "[1, \"a\"]"),
        "param 'p': vector element '\"a\"' is not numeric"
    );
    let broken = message("Vector(2)", "[1");
    assert!(broken.starts_with("param 'p': expected JSON array for Vector(2), got '[1': "));
    assert!(broken.len() > "param 'p': expected JSON array for Vector(2), got '[1': ".len());
}

#[test]
fn floats_are_accepted_as_rust_reads_them() {
    let good = vec![
        "1", "1.", ".5", "1.5e3", "-2E-4", "+inf", "NaN", "-Infinity", "0.1", "1e5",
    ];
    for text in good {
        assert!(text.parse::<f64>().is_ok());
        let m = build_param_map(&vec![param("p", "F32")], &raw("p", text)).unwrap();
        assert!(matches!(m.get("p"), Some(Literal::Float(v)) if v == text));
    }
    let bad = vec!["", ".", "e5", "1e", "1e+", "+", "0x1", "1_0", "inff", "1.5.2"];
    for text in bad {
        assert!(text.parse::<f64>().is_err());
        assert!(build_param_map(&vec![param("p", "F32")], &raw("p", text)).is_err());
    }
}

#[test]
fn undeclared_and_unknown_types_are_strings() {
    let m = build_param_map(&vec![param("a", "Weird")], &raw("b", "12")).unwrap();
    assert!(matches!(m.get("b"), Some(Literal::String(v)) if v == "12"));
    let n = build_param_map(&vec![param("a", "Weird")], &raw("a", "12")).unwrap();
    assert!(matches!(n.get("a"), Some(Literal::String(v)) if v == "12"));
    let s = build_param_map(&vec![param("a", "String")], &raw("a", "x")).unwrap();
    assert!(matches!(s.get("a"), Some(Literal::String(v)) if v == "x"));
    let b = build_param_map(&vec![param("a", "Bool")], &raw("a", "true")).unwrap();
    assert!(matches!(b.get("a"), Some(Literal::Bool(true))));
    let i = build_param_map(&vec![param("a", "I32")], &raw("a", "-7")).unwrap();
    assert!(matches!(i.get("a"), Some(Literal::Integer(-7))));
}

#[test]
fn the_last_argument_of_a_name_counts() {
    let given = vec![
        ("q".to_string(), "first".to_string()),
        ("q".to_string(), "second".to_string()),
    ];
    let m = build_param_map(&vec![], &given).unwrap();
    assert_eq!(m.len(), 1);
    assert!(matches!(m.get("q"), Some(Literal::String(v)) if v == "second"));
}

#[test]
fn vector_numbers_keep_their_text() {
    let m = build_param_map(&vec![param("p", "Vector(2)")], &raw("p", "[1, 2.50]")).unwrap();
    match m.get("p") {
        Some(Literal::List(items)) => {
            assert!(matches!(&items[0], Literal::Float(t) if t == "1"));
            assert!(matches!(&items[1], Literal::Float(t) if t == "2.5"));
        }
        other => panic!("expected a list, got {:?}", other),
    }
}

#[test]
fn vector_types_have_a_positive_width() {
    assert_eq!(parse_vector_dim_type("Vector(12)"), Some(12));
    assert_eq!(parse_vector_dim_type("Vector(0)"), None);
    assert_eq!(parse_vector_dim_type("Vector(3"), None);
    assert_eq!(parse_vector_dim_type("String"), None);
}

#[test]
fn positional_arguments_need_an_alias_and_fit_it() {
    let none = merge_run_params(None, &vec![], vec!["x".to_string()], Vec::new()).unwrap_err();
    assert_eq!(
        none.to_string(),
        "positional query arguments require a configured query alias"
    );
    let many = merge_run_params(
        Some("s"),
        &vec!["a".to_string(), "b".to_string()],
        vec!["1".to_string(), "2".to_string(), "3".to_string()],
        Vec::new(),
    )
    .unwrap_err();
    assert_eq!(
        many.to_string(),
        "query alias `s` accepts 2 positional argument(s) (a, b) but received 3"
    );
    let plain = merge_run_params(None, &vec![], Vec::new(), raw("k", "v")).unwrap();
    assert_eq!(plain, raw("k", "v"));
}
