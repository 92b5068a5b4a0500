use interface_schema::{
    Argument, Command, DecodeError, ErrorEntry, IntegerOptions, Interface, Node, Number,
    ObjectOptions, Record, Type, Variable,
};

fn text(s: &str) -> Node {
    Node::text(s)
}

fn map(entries: Vec<(&str, Node)>) -> Node {
    Node::Mapping(entries.into_iter().map(|(k, v)| (Node::text(k), v)).collect())
}

fn of_kind(kind: &str) -> Node {
    map(vec![("type", text(kind))])
}

fn bare_object() -> Variable {
    Variable {
        description: None,
        arg: Argument::Single(Type::Object(ObjectOptions {
            properties: vec![],
            required: vec![],
            additional_properties: false,
            object_reference: None,
        })),
    }
}

fn integer() -> Variable {
    Variable {
        description: None,
        arg: Argument::Single(Type::Integer(IntegerOptions {
            minimum: None,
            maximum: None,
            default: None,
        })),
    }
}

#[test]
fn error_entry_holds_its_reference() {
    let node = map(vec![("reference", text("/errors/example#/Failed"))]);
    assert_eq!(
        ErrorEntry::deserialize(&node),
        Ok(ErrorEntry { reference: "/errors/example#/Failed".to_string() })
    );
}

#[test]
fn error_entry_is_exactly_a_reference() {
    let err = ErrorEntry::deserialize(&map(vec![])).unwrap_err();
    assert_eq!(err, DecodeError::MissingField("reference".to_string()));
    assert_eq!(err.message(), "missing field 'reference'");
    let node = map(vec![("reference", text("r")), ("description", text("d"))]);
    assert_eq!(
        ErrorEntry::deserialize(&node),
        Err(DecodeError::UnknownField("description".to_string()))
    );
    let node = map(vec![("reference", Node::Number(Number::Integer(1)))]);
    assert_eq!(
        ErrorEntry::deserialize(&node),
        Err(DecodeError::InvalidField("reference".to_string()))
    );
    let err = ErrorEntry::deserialize(&text("r")).unwrap_err();
    assert_eq!(err, DecodeError::NotAMapping(Record::ErrorEntry));
    assert_eq!(err.message(), "ErrorEntry must be a mapping");
}

#[test]
fn command_with_arguments_and_result() {
    let node = map(vec![
        ("description", text("adds")),
        ("arguments", map(vec![("b", of_kind("integer")), ("a", map(vec![]))])),
        ("result", of_kind("integer")),
    ]);
    assert_eq!(
        Command::deserialize(&node),
        Ok(Command {
            description: "adds".to_string(),
            arguments: vec![("b".to_string(), integer()), ("a".to_string(), bare_object())],
            result: Some(integer()),
        })
    );
}

#[test]
fn command_defaults() {
    let node = map(vec![("description", text("does nothing"))]);
    let expected =
        Command { description: "does nothing".to_string(), arguments: vec![], result: None };
    assert_eq!(Command::deserialize(&node), Ok(expected));
    let node = map(vec![("description", text("does nothing")), ("result", Node::Null)]);
    assert_eq!(Command::deserialize(&node).unwrap().result, None);
}

#[test]
fn command_failures() {
    let err = Command::deserialize(&map(vec![("arguments", map(vec![]))])).unwrap_err();
    assert_eq!(err, DecodeError::MissingField("description".to_string()));
    let node = map(vec![("description", Node::Null)]);
    assert_eq!(
        Command::deserialize(&node),
        Err(DecodeError::InvalidField("description".to_string()))
    );
    let node = map(vec![("description", text("d")), ("arguments", Node::Sequence(vec![]))]);
    assert_eq!(
        Command::deserialize(&node),
        Err(DecodeError::InvalidField("arguments".to_string()))
    );
    let node = map(vec![("description", text("d")), ("results", of_kind("null"))]);
    assert_eq!(Command::deserialize(&node), Err(DecodeError::UnknownField("results".to_string())));
    let node = map(vec![("description", text("d")), ("result", text("integer"))]);
    assert_eq!(Command::deserialize(&node), Err(DecodeError::NotAMapping(Record::Variable)));
    let node = map(vec![
        ("description", text("d")),
        ("arguments", map(vec![("x", of_kind("integer")), ("x", of_kind("string"))])),
    ]);
    assert_eq!(Command::deserialize(&node), Err(DecodeError::DuplicateKey("x".to_string())));
    let err = Command::deserialize(&Node::Sequence(vec![])).unwrap_err();
    assert_eq!(err, DecodeError::NotAMapping(Record::Command));
    assert_eq!(err.message(), "Command must be a mapping");
}

#[test]
fn interface_with_everything() {
    let node = map(vec![
        ("description", text("an example")),
        (
            "cmds",
            map(vec![
                (
                    "set",
                    map(vec![
                        ("description", text("sets")),
                        ("arguments", map(vec![("value", of_kind("integer"))])),
                    ]),
                ),
                ("get", map(vec![("description", text("gets")), ("result", of_kind("integer"))])),
            ]),
        ),
        ("vars", map(vec![("level", of_kind("integer")), ("state", map(vec![]))])),
        (
            "errors",
            Node::Sequence(vec![
                map(vec![("reference", text("/errors/a"))]),
                map(vec![("reference", text("/errors/b#/One"))]),
            ]),
        ),
    ]);
    assert_eq!(
        Interface::deserialize(&node),
        Ok(Interface {
            description: "an example".to_string(),
            cmds: vec![
                (
                    "set".to_string(),
                    Command {
                        description: "sets".to_string(),
                        arguments: vec![("value".to_string(), integer())],
                        result: None,
                    }
                ),
                (
                    "get".to_string(),
                    Command {
                        description: "gets".to_string(),
                        arguments: vec![],
                        result: Some(integer()),
                    }
                ),
            ],
            vars: vec![("level".to_string(), integer()), ("state".to_string(), bare_object())],
            errors: vec![
                ErrorEntry { reference: "/errors/a".to_string() },
                ErrorEntry { reference: "/errors/b#/One".to_string() },
            ],
        })
    );
}

#[test]
fn interface_defaults() {
    let node = map(vec![("description", text("bare"))]);
    assert_eq!(
        Interface::deserialize(&node),
        Ok(Interface {
            description: "bare".to_string(),
            cmds: vec![],
            vars: vec![],
            errors: vec![],
        })
    );
}

#[test]
fn interface_failures() {
    let err = Interface::deserialize(&text("x")).unwrap_err();
    assert_eq!(err, DecodeError::NotAMapping(Record::Interface));
    assert_eq!(err.message(), "Interface must be a mapping");
    assert_eq!(
        Interface::deserialize(&map(vec![])),
        Err(DecodeError::MissingField("description".to_string()))
    );
    let node = map(vec![("description", text("d")), ("commands", map(vec![]))]);
    assert_eq!(
        Interface::deserialize(&node),
        Err(DecodeError::UnknownField("commands".to_string()))
    );
    for field in ["cmds", "vars", "errors"] {
        for value in [Node::Null, text("x"), Node::Bool(false)] {
            let node = map(vec![("description", text("d")), (field, value)]);
            assert_eq!(
                Interface::deserialize(&node),
                Err(DecodeError::InvalidField(field.to_string()))
            );
        }
    }
    let node = map(vec![("description", text("d")), ("cmds", Node::Sequence(vec![]))]);
    assert_eq!(Interface::deserialize(&node), Err(DecodeError::InvalidField("cmds".to_string())));
    let node = map(vec![("description", text("d")), ("errors", map(vec![]))]);
    assert_eq!(Interface::deserialize(&node), Err(DecodeError::InvalidField("errors".to_string())));
}

#[test]
fn interface_names_are_unique() {
    let cmd = || map(vec![("description", text("c"))]);
    let node =
        map(vec![("description", text("d")), ("cmds", map(vec![("a", cmd()), ("a", cmd())]))]);
    assert_eq!(Interface::deserialize(&node), Err(DecodeError::DuplicateKey("a".to_string())));
    let node = map(vec![
        ("description", text("d")),
        ("vars", map(vec![("v", map(vec![])), ("w", map(vec![])), ("v", map(vec![]))])),
    ]);
    assert_eq!(Interface::deserialize(&node), Err(DecodeError::DuplicateKey("v".to_string())));
    let node = map(vec![("description", text("d")), ("description", text("e"))]);
    assert_eq!(
        Interface::deserialize(&node),
        Err(DecodeError::DuplicateKey("description".to_string()))
    );
}

#[test]
fn interface_passes_nested_failures_on() {
    let node = map(vec![
        ("description", text("d")),
        (
            "cmds",
            map(vec![(
                "c",
                map(vec![
                    ("description", text("c")),
                    ("arguments", map(vec![("x", map(vec![("type", text("number")), ("pattern", text("a"))]))])),
                ]),
            )]),
        ),
    ]);
    assert_eq!(Interface::deserialize(&node), Err(DecodeError::UnknownField("pattern".to_string())));
    let node = map(vec![
        ("description", text("d")),
        ("vars", map(vec![("ok", of_kind("null")), ("bad", map(vec![("type", Node::Bool(true))]))])),
    ]);
    assert_eq!(Interface::deserialize(&node), Err(DecodeError::InvalidType));
    let node = map(vec![
        ("description", text("d")),
        (
            "errors",
            Node::Sequence(vec![map(vec![("reference", text("r"))]), text("not an entry")]),
        ),
    ]);
    assert_eq!(Interface::deserialize(&node), Err(DecodeError::NotAMapping(Record::ErrorEntry)));
}

#[test]
fn cmds_are_checked_before_vars() {
    let node = map(vec![
        ("vars", map(vec![("v", text("bad"))])),
        ("cmds", map(vec![("c", text("bad"))])),
        ("description", text("d")),
    ]);
    assert_eq!(Interface::deserialize(&node), Err(DecodeError::NotAMapping(Record::Command)));
}
