use interface_schema::{
    Argument, ArrayOptions, DecodeError, IntegerOptions, Kind, Node, Number, NumberOptions,
    ObjectOptions, Record, StringFormat, StringOptions, Type, Variable,
};

fn text(s: &str) -> Node {
    Node::text(s)
}

fn whole(i: i128) -> Node {
    Node::Number(Number::Integer(i))
}

fn map(entries: Vec<(&str, Node)>) -> Node {
    Node::Mapping(entries.into_iter().map(|(k, v)| (Node::text(k), v)).collect())
}

fn names(items: &[&str]) -> Node {
    Node::Sequence(items.iter().map(|s| Node::text(s)).collect())
}

fn bare_string() -> StringOptions {
    StringOptions {
        pattern: None,
        format: None,
        max_length: None,
        min_length: None,
        enum_items: None,
        default: None,
        object_reference: None,
    }
}

fn bare_integer() -> IntegerOptions {
    IntegerOptions { minimum: None, maximum: None, default: None }
}

fn bare_object() -> ObjectOptions {
    ObjectOptions {
        properties: vec![],
        required: vec![],
        additional_properties: false,
        object_reference: None,
    }
}

fn single(node: Node) -> Type {
    match Variable::deserialize(&node) {
        Ok(Variable { arg: Argument::Single(t), .. }) => t,
        other => panic!("not a single type: {:?}", other),
    }
}

#[test]
fn integer_with_bounds_and_description() {
    let node = map(vec![
        ("description", text("x")),
        ("type", text("integer")),
        ("minimum", whole(0)),
        ("maximum", whole(10)),
    ]);
    assert_eq!(
        Variable::deserialize(&node),
        Ok(Variable {
            description: Some("x".to_string()),
            arg: Argument::Single(Type::Integer(IntegerOptions {
                minimum: Some(0),
                maximum: Some(10),
                default: None,
            })),
        })
    );
}

#[test]
fn union_of_integer_and_string() {
    let node = map(vec![("type", names(&["integer", "string"]))]);
    assert_eq!(
        Variable::deserialize(&node),
        Ok(Variable {
            description: None,
            arg: Argument::Multiple(vec![
                Type::Integer(bare_integer()),
                Type::String(bare_string()),
            ]),
        })
    );
}

#[test]
fn empty_mapping_is_a_bare_object() {
    assert_eq!(
        Variable::deserialize(&Node::Mapping(vec![])),
        Ok(Variable { description: None, arg: Argument::Single(Type::Object(bare_object())) })
    );
}

#[test]
fn array_of_strings() {
    let node = map(vec![("type", text("array")), ("items", map(vec![("type", text("string"))]))]);
    assert_eq!(
        Variable::deserialize(&node),
        Ok(Variable {
            description: None,
            arg: Argument::Single(Type::Array(ArrayOptions {
                min_items: None,
                max_items: None,
                items: Some(Box::new(Variable {
                    description: None,
                    arg: Argument::Single(Type::String(bare_string())),
                })),
            })),
        })
    );
}

#[test]
fn number_field_on_a_string_is_unknown() {
    let node = map(vec![("type", text("string")), ("minimum", whole(0))]);
    assert_eq!(
        Variable::deserialize(&node),
        Err(DecodeError::UnknownField("minimum".to_string()))
    );
}

#[test]
fn type_that_is_a_number_is_refused() {
    let node = map(vec![("type", whole(42))]);
    let err = Variable::deserialize(&node).unwrap_err();
    assert_eq!(err, DecodeError::InvalidType);
    assert_eq!(err.message(), "'type' must be a sequence or a string.");
}

#[test]
fn type_of_any_other_shape_is_refused() {
    for value in [
        Node::Null,
        Node::Bool(true),
        Node::Number(Number::Real(0x3ff0_0000_0000_0000)),
        map(vec![("type", text("string"))]),
    ] {
        let node = map(vec![("type", value)]);
        assert_eq!(Variable::deserialize(&node), Err(DecodeError::InvalidType));
    }
}

#[test]
fn variable_must_be_a_mapping() {
    for node in [Node::Null, Node::Bool(false), whole(1), text("string"), names(&["string"])] {
        let err = Variable::deserialize(&node).unwrap_err();
        assert_eq!(err, DecodeError::NotAMapping(Record::Variable));
        assert_eq!(err.message(), "Variable must be a mapping");
    }
}

#[test]
fn every_kind_decodes_to_its_own_tag() {
    let kinds = [
        ("null", Type::Null),
        ("boolean", Type::Boolean),
        ("string", Type::String(bare_string())),
        ("number", Type::Number(NumberOptions { minimum: None, maximum: None, default: None })),
        ("integer", Type::Integer(bare_integer())),
        ("array", Type::Array(ArrayOptions { min_items: None, max_items: None, items: None })),
        ("object", Type::Object(bare_object())),
    ];
    for (name, expected) in kinds {
        let t = single(map(vec![("type", text(name))]));
        assert_eq!(t, expected);
        assert_eq!(Some(t.kind()), Kind::named(&name.to_string()));
    }
}

#[test]
fn kind_names_are_case_sensitive() {
    for name in ["String", "INTEGER", "Null", "bool", "int", "", " string"] {
        let node = map(vec![("type", text(name))]);
        assert_eq!(
            Variable::deserialize(&node),
            Err(DecodeError::UnknownKind(name.to_string()))
        );
    }
}

#[test]
fn union_members_ignore_sibling_constraints() {
    let plain = map(vec![("type", names(&["string", "integer", "null"]))]);
    let crowded = map(vec![
        ("minLength", whole(3)),
        ("type", names(&["string", "integer", "null"])),
        ("minimum", whole(1)),
        ("no such field", Node::Bool(true)),
        ("description", text("either")),
    ]);
    let expected =
        Argument::Multiple(vec![Type::String(bare_string()), Type::Integer(bare_integer()), Type::Null]);
    assert_eq!(Variable::deserialize(&plain).unwrap().arg, expected);
    let decoded = Variable::deserialize(&crowded).unwrap();
    assert_eq!(decoded.arg, expected);
    assert_eq!(decoded.description, Some("either".to_string()));
}

#[test]
fn union_keeps_the_order_and_length_of_its_names() {
    let node = map(vec![("type", names(&["object", "array", "boolean", "array", "number"]))]);
    let Argument::Multiple(types) = Variable::deserialize(&node).unwrap().arg else {
        panic!("not a union");
    };
    let kinds: Vec<_> = types.iter().map(|t| t.kind()).collect();
    assert_eq!(kinds, vec![Kind::Object, Kind::Array, Kind::Boolean, Kind::Array, Kind::Number]);
    assert_eq!(types[0], Type::Object(bare_object()));
}

#[test]
fn empty_union_has_no_members() {
    let node = map(vec![("type", Node::Sequence(vec![]))]);
    assert_eq!(
        Variable::deserialize(&node),
        Ok(Variable { description: None, arg: Argument::Multiple(vec![]) })
    );
}

#[test]
fn union_is_refused_at_its_first_bad_member() {
    let node = map(vec![("type", names(&["string", "float", "double"]))]);
    assert_eq!(Variable::deserialize(&node), Err(DecodeError::UnknownKind("float".to_string())));
    let node = map(vec![("type", Node::Sequence(vec![text("string"), whole(3), text("float")]))]);
    let err = Variable::deserialize(&node).unwrap_err();
    assert_eq!(err, DecodeError::InvalidKind);
    assert_eq!(err.message(), "a type must be named by a string");
}

#[test]
fn omitted_type_is_object() {
    let untyped = map(vec![
        ("description", text("a thing")),
        ("additionalProperties", Node::Bool(true)),
        ("required", names(&["a"])),
    ]);
    let typed = map(vec![
        ("description", text("a thing")),
        ("additionalProperties", Node::Bool(true)),
        ("required", names(&["a"])),
        ("type", text("object")),
    ]);
    let decoded = Variable::deserialize(&untyped);
    assert_eq!(decoded, Variable::deserialize(&typed));
    assert_eq!(
        decoded,
        Ok(Variable {
            description: Some("a thing".to_string()),
            arg: Argument::Single(Type::Object(ObjectOptions {
                properties: vec![],
                required: vec!["a".to_string()],
                additional_properties: true,
                object_reference: None,
            })),
        })
    );
}

#[test]
fn omitted_type_refuses_what_object_refuses() {
    let untyped = map(vec![("minimum", whole(0))]);
    let typed = map(vec![("minimum", whole(0)), ("type", text("object"))]);
    assert_eq!(
        Variable::deserialize(&untyped),
        Err(DecodeError::UnknownField("minimum".to_string()))
    );
    assert_eq!(Variable::deserialize(&untyped), Variable::deserialize(&typed));
}

#[test]
fn description_must_be_a_string() {
    let bad = [
        whole(5),
        Node::Number(Number::Real(0x4014_0000_0000_0000)),
        map(vec![("text", text("x"))]),
        names(&["x"]),
        Node::Bool(true),
        Node::Null,
    ];
    for value in bad {
        let node = map(vec![("description", value), ("type", text("string"))]);
        let err = Variable::deserialize(&node).unwrap_err();
        assert_eq!(err, DecodeError::InvalidField("description".to_string()));
        assert_eq!(err.message(), "'description' has an invalid value");
    }
}

#[test]
fn description_is_checked_before_type() {
    let node = map(vec![("type", whole(42)), ("description", whole(5))]);
    assert_eq!(
        Variable::deserialize(&node),
        Err(DecodeError::InvalidField("description".to_string()))
    );
}

#[test]
fn every_kind_refuses_an_extra_key() {
    for name in ["null", "boolean", "string", "number", "integer", "array", "object"] {
        let node = map(vec![("type", text(name)), ("extra", text("x"))]);
        let err = Variable::deserialize(&node).unwrap_err();
        assert_eq!(err, DecodeError::UnknownField("extra".to_string()));
        assert_eq!(err.message(), "unknown field 'extra'");
        assert_eq!(Type::deserialize(&node), Err(DecodeError::UnknownField("extra".to_string())));
    }
}

#[test]
fn constraints_of_another_kind_are_unknown() {
    let cases = [
        ("null", "default"),
        ("boolean", "default"),
        ("string", "items"),
        ("number", "pattern"),
        ("integer", "minItems"),
        ("array", "minimum"),
        ("array", "properties"),
        ("object", "items"),
        ("object", "enum"),
    ];
    for (kind, field) in cases {
        let node = map(vec![("type", text(kind)), (field, Node::Null)]);
        assert_eq!(
            Variable::deserialize(&node),
            Err(DecodeError::UnknownField(field.to_string()))
        );
    }
}

#[test]
fn keys_must_be_strings() {
    let node = Node::Mapping(vec![(text("type"), text("string")), (whole(1), text("x"))]);
    let err = Variable::deserialize(&node).unwrap_err();
    assert_eq!(err, DecodeError::InvalidKey);
    assert_eq!(err.message(), "keys must be strings");
}

#[test]
fn repeated_keys_are_refused() {
    let node = map(vec![("type", text("string")), ("pattern", text("a")), ("pattern", text("b"))]);
    let err = Variable::deserialize(&node).unwrap_err();
    assert_eq!(err, DecodeError::DuplicateKey("pattern".to_string()));
    assert_eq!(err.message(), "duplicate key 'pattern'");
    let node = map(vec![("type", text("string")), ("type", text("string"))]);
    assert_eq!(Variable::deserialize(&node), Err(DecodeError::DuplicateKey("type".to_string())));
}

#[test]
fn first_faulty_key_is_reported() {
    let node = map(vec![
        ("type", text("integer")),
        ("minimum", whole(0)),
        ("zzz", whole(0)),
        ("minimum", whole(1)),
        ("aaa", whole(0)),
    ]);
    assert_eq!(Variable::deserialize(&node), Err(DecodeError::UnknownField("zzz".to_string())));
}

#[test]
fn string_with_every_constraint() {
    let node = map(vec![
        ("type", text("string")),
        ("pattern", text("^[a-z]+$")),
        ("format", text("date-time")),
        ("maxLength", whole(20)),
        ("minLength", whole(0)),
        ("enum", names(&["a", "b", "a"])),
        ("default", text("a")),
        ("$ref", text("/types#/Name")),
    ]);
    assert_eq!(
        single(node),
        Type::String(StringOptions {
            pattern: Some("^[a-z]+$".to_string()),
            format: Some(StringFormat::DateTime),
            max_length: Some(20),
            min_length: Some(0),
            enum_items: Some(vec!["a".to_string(), "b".to_string(), "a".to_string()]),
            default: Some("a".to_string()),
            object_reference: Some("/types#/Name".to_string()),
        })
    );
}

#[test]
fn null_leaves_an_optional_constraint_unset() {
    let node = map(vec![
        ("type", text("string")),
        ("pattern", Node::Null),
        ("format", Node::Null),
        ("maxLength", Node::Null),
        ("enum", Node::Null),
    ]);
    assert_eq!(single(node), Type::String(bare_string()));
    let node = map(vec![("type", text("array")), ("items", Node::Null), ("minItems", Node::Null)]);
    assert_eq!(
        single(node),
        Type::Array(ArrayOptions { min_items: None, max_items: None, items: None })
    );
}

#[test]
fn string_constraints_of_the_wrong_shape() {
    let cases = [
        ("pattern", whole(1)),
        ("format", text("date")),
        ("format", whole(1)),
        ("maxLength", whole(-1)),
        ("maxLength", text("3")),
        ("minLength", Node::Number(Number::Real(0x4008_0000_0000_0000))),
        ("minLength", whole(1 << 70)),
        ("enum", text("a")),
        ("enum", Node::Sequence(vec![text("a"), whole(1)])),
        ("default", Node::Bool(true)),
        ("$ref", names(&["a"])),
    ];
    for (field, value) in cases {
        let node = map(vec![("type", text("string")), (field, value)]);
        assert_eq!(
            Variable::deserialize(&node),
            Err(DecodeError::InvalidField(field.to_string()))
        );
    }
}

#[test]
fn fields_are_read_in_declared_order() {
    let node = map(vec![
        ("type", text("string")),
        ("default", whole(1)),
        ("minLength", whole(-1)),
        ("pattern", whole(1)),
    ]);
    assert_eq!(
        Variable::deserialize(&node),
        Err(DecodeError::InvalidField("pattern".to_string()))
    );
}

#[test]
fn integer_bounds_are_64_bit() {
    let node = map(vec![
        ("type", text("integer")),
        ("minimum", whole(i64::MIN as i128)),
        ("maximum", whole(i64::MAX as i128)),
        ("default", whole(-7)),
    ]);
    assert_eq!(
        single(node),
        Type::Integer(IntegerOptions {
            minimum: Some(i64::MIN),
            maximum: Some(i64::MAX),
            default: Some(-7),
        })
    );
    for out in [i64::MAX as i128 + 1, i64::MIN as i128 - 1, u64::MAX as i128] {
        let node = map(vec![("type", text("integer")), ("maximum", whole(out))]);
        assert_eq!(
            Variable::deserialize(&node),
            Err(DecodeError::InvalidField("maximum".to_string()))
        );
    }
}

#[test]
fn integer_refuses_a_real_bound() {
    let node =
        map(vec![("type", text("integer")), ("minimum", Node::Number(Number::Real(1.5f64.to_bits())))]);
    assert_eq!(
        Variable::deserialize(&node),
        Err(DecodeError::InvalidField("minimum".to_string()))
    );
}

#[test]
fn number_takes_whole_and_real_bounds() {
    let node = map(vec![
        ("type", text("number")),
        ("minimum", whole(-3)),
        ("maximum", Node::Number(Number::Real(2.5f64.to_bits()))),
    ]);
    assert_eq!(
        single(node),
        Type::Number(NumberOptions {
            minimum: Some(Number::Integer(-3)),
            maximum: Some(Number::Real(2.5f64.to_bits())),
            default: None,
        })
    );
    let node = map(vec![("type", text("number")), ("default", text("1"))]);
    assert_eq!(
        Variable::deserialize(&node),
        Err(DecodeError::InvalidField("default".to_string()))
    );
}

#[test]
fn counts_are_not_negative() {
    let node = map(vec![("type", text("array")), ("minItems", whole(0)), ("maxItems", whole(12))]);
    assert_eq!(
        single(node),
        Type::Array(ArrayOptions { min_items: Some(0), max_items: Some(12), items: None })
    );
    let node = map(vec![("type", text("array")), ("maxItems", whole(-1))]);
    assert_eq!(
        Variable::deserialize(&node),
        Err(DecodeError::InvalidField("maxItems".to_string()))
    );
}

#[test]
fn object_with_properties() {
    let node = map(vec![
        ("type", text("object")),
        (
            "properties",
            map(vec![
                ("b", map(vec![("type", text("boolean"))])),
                ("a", map(vec![("type", names(&["null", "integer"]))])),
                ("c", map(vec![])),
            ]),
        ),
        ("required", names(&["b", "a", "b", "zz", "a"])),
        ("additionalProperties", Node::Bool(true)),
        ("$ref", text("/x#/y")),
    ]);
    assert_eq!(
        single(node),
        Type::Object(ObjectOptions {
            properties: vec![
                ("b".to_string(), Variable { description: None, arg: Argument::Single(Type::Boolean) }),
                (
                    "a".to_string(),
                    Variable {
                        description: None,
                        arg: Argument::Multiple(vec![Type::Null, Type::Integer(bare_integer())]),
                    }
                ),
                (
                    "c".to_string(),
                    Variable { description: None, arg: Argument::Single(Type::Object(bare_object())) }
                ),
            ],
            required: vec!["b".to_string(), "a".to_string(), "zz".to_string()],
            additional_properties: true,
            object_reference: Some("/x#/y".to_string()),
        })
    );
}

#[test]
fn object_constraints_of_the_wrong_shape() {
    let cases = [
        ("properties", names(&["a"])),
        ("properties", Node::Null),
        ("required", text("a")),
        ("required", Node::Null),
        ("required", Node::Sequence(vec![whole(1)])),
        ("additionalProperties", text("true")),
        ("additionalProperties", Node::Null),
        ("$ref", whole(1)),
    ];
    for (field, value) in cases {
        let node = map(vec![("type", text("object")), (field, value)]);
        assert_eq!(
            Variable::deserialize(&node),
            Err(DecodeError::InvalidField(field.to_string()))
        );
    }
}

#[test]
fn properties_are_named_once() {
    let node = map(vec![(
        "properties",
        map(vec![("a", map(vec![])), ("b", map(vec![])), ("a", map(vec![]))]),
    )]);
    assert_eq!(Variable::deserialize(&node), Err(DecodeError::DuplicateKey("a".to_string())));
    let node = map(vec![("properties", Node::Mapping(vec![(Node::Bool(true), map(vec![]))]))]);
    assert_eq!(Variable::deserialize(&node), Err(DecodeError::InvalidKey));
}

#[test]
fn nested_failures_come_out_unchanged() {
    let inner = map(vec![("type", text("string")), ("minimum", whole(0))]);
    let node = map(vec![
        ("type", text("array")),
        ("items", map(vec![("properties", map(vec![("deep", inner)]))])),
    ]);
    assert_eq!(
        Variable::deserialize(&node),
        Err(DecodeError::UnknownField("minimum".to_string()))
    );
    let node = map(vec![("type", text("array")), ("items", text("string"))]);
    assert_eq!(Variable::deserialize(&node), Err(DecodeError::NotAMapping(Record::Variable)));
}

#[test]
fn deep_nesting_decodes() {
    let mut node = map(vec![("type", text("integer"))]);
    for _ in 0..50 {
        node = map(vec![("type", text("array")), ("items", node)]);
    }
    let mut t = single(node);
    let mut depth = 0;
    while let Type::Array(ArrayOptions { items: Some(inner), .. }) = t {
        depth += 1;
        let Argument::Single(next) = inner.arg else {
            panic!("not a single type");
        };
        t = next;
    }
    assert_eq!(depth, 50);
    assert_eq!(t, Type::Integer(bare_integer()));
}
