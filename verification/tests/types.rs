use interface_schema::{
    DecodeError, Fields, IntegerOptions, Kind, Node, Number, Record, Type, Variable,
};

fn text(s: &str) -> Node {
    Node::text(s)
}

fn map(entries: Vec<(&str, Node)>) -> Node {
    Node::Mapping(entries.into_iter().map(|(k, v)| (Node::text(k), v)).collect())
}

#[test]
fn text_node_holds_its_text() {
    assert_eq!(Node::text("abc"), Node::String("abc".to_string()));
    assert_eq!(Node::text(""), Node::String(String::new()));
}

#[test]
fn type_needs_its_discriminator() {
    let err = Type::deserialize(&map(vec![])).unwrap_err();
    assert_eq!(err, DecodeError::MissingField("type".to_string()));
    assert_eq!(err.message(), "missing field 'type'");
    let err = Type::deserialize(&map(vec![("minimum", Node::Null)])).unwrap_err();
    assert_eq!(err, DecodeError::MissingField("type".to_string()));
}

#[test]
fn type_must_be_a_mapping() {
    let err = Type::deserialize(&text("string")).unwrap_err();
    assert_eq!(err, DecodeError::NotAMapping(Record::Type));
    assert_eq!(err.message(), "Type must be a mapping");
}

#[test]
fn type_is_named_by_a_string() {
    let node = map(vec![("type", Node::Sequence(vec![text("string")]))]);
    assert_eq!(Type::deserialize(&node), Err(DecodeError::InvalidKind));
    let node = map(vec![("type", Node::Number(Number::Integer(1)))]);
    assert_eq!(Type::deserialize(&node), Err(DecodeError::InvalidKind));
}

#[test]
fn type_names_the_offending_kind() {
    let node = map(vec![("type", text("float"))]);
    let err = Type::deserialize(&node).unwrap_err();
    assert_eq!(err, DecodeError::UnknownKind("float".to_string()));
    assert_eq!(err.message(), "unknown type 'float'");
}

#[test]
fn type_has_no_description() {
    let node = map(vec![("type", text("integer")), ("description", text("x"))]);
    assert_eq!(Type::deserialize(&node), Err(DecodeError::UnknownField("description".to_string())));
}

#[test]
fn type_decodes_like_an_undescribed_variable() {
    let nodes = [
        map(vec![("type", text("integer")), ("default", Node::Number(Number::Integer(4)))]),
        map(vec![("type", text("string")), ("items", Node::Null)]),
        map(vec![("type", text("nothing"))]),
        map(vec![("type", text("object")), ("properties", map(vec![("p", map(vec![]))]))]),
    ];
    for node in nodes {
        let as_type = Type::deserialize(&node);
        let as_variable = Variable::deserialize(&node).map(|v| match v.arg {
            interface_schema::Argument::Single(t) => t,
            interface_schema::Argument::Multiple(_) => panic!("a union"),
        });
        assert_eq!(as_type, as_variable);
    }
    assert_eq!(
        Type::deserialize(&map(vec![
            ("type", text("integer")),
            ("default", Node::Number(Number::Integer(4)))
        ])),
        Ok(Type::Integer(IntegerOptions { minimum: None, maximum: None, default: Some(4) }))
    );
}

#[test]
fn bare_types_are_what_lone_names_decode_to() {
    let kinds = [
        ("null", Kind::Null),
        ("boolean", Kind::Boolean),
        ("string", Kind::String),
        ("number", Kind::Number),
        ("integer", Kind::Integer),
        ("array", Kind::Array),
        ("object", Kind::Object),
    ];
    for (name, kind) in kinds {
        assert_eq!(Kind::named(&name.to_string()), Some(kind));
        let bare = Type::bare(kind);
        assert_eq!(bare.kind(), kind);
        assert_eq!(Type::deserialize(&map(vec![("type", text(name))])), Ok(bare));
    }
    assert_eq!(Kind::named(&"Object".to_string()), None);
}

#[test]
fn kinds_know_their_constraints() {
    assert!(Kind::String.has_option(&"maxLength".to_string()));
    assert!(Kind::String.has_option(&"$ref".to_string()));
    assert!(!Kind::String.has_option(&"minimum".to_string()));
    assert!(Kind::Number.has_option(&"minimum".to_string()));
    assert!(Kind::Integer.has_option(&"default".to_string()));
    assert!(Kind::Array.has_option(&"items".to_string()));
    assert!(!Kind::Array.has_option(&"$ref".to_string()));
    assert!(Kind::Object.has_option(&"additionalProperties".to_string()));
    assert!(!Kind::Object.has_option(&"additional_properties".to_string()));
    assert!(!Kind::Null.has_option(&"default".to_string()));
    assert!(!Kind::Boolean.has_option(&"default".to_string()));
}

#[test]
fn field_sets_are_closed() {
    assert!(Fields::Interface.recognizes(&"cmds".to_string()));
    assert!(!Fields::Interface.recognizes(&"commands".to_string()));
    assert!(Fields::Command.recognizes(&"result".to_string()));
    assert!(!Fields::Command.recognizes(&"vars".to_string()));
    assert!(Fields::ErrorEntry.recognizes(&"reference".to_string()));
    assert!(!Fields::ErrorEntry.recognizes(&"description".to_string()));
    assert!(Fields::Type(Kind::Null).recognizes(&"type".to_string()));
    assert!(!Fields::Type(Kind::Null).recognizes(&"description".to_string()));
    assert!(Fields::Variable(Kind::Null).recognizes(&"description".to_string()));
    assert!(Fields::Variable(Kind::Integer).recognizes(&"maximum".to_string()));
    assert!(!Fields::Variable(Kind::Integer).recognizes(&"maxLength".to_string()));
    assert!(Fields::Names.recognizes(&"anything at all".to_string()));
}

#[test]
fn record_names() {
    assert_eq!(Record::Interface.name(), "Interface");
    assert_eq!(Record::Command.name(), "Command");
    assert_eq!(Record::ErrorEntry.name(), "ErrorEntry");
    assert_eq!(Record::Variable.name(), "Variable");
    assert_eq!(Record::Type.name(), "Type");
}
