//! The decoders: executable code proved to follow the rules.

use vstd::prelude::*;
use crate::error::{outcome, outcome_with, DecodeError, DecodeErrorView, Record};
use crate::laws::{
    lemma_command_well_formed, lemma_interface_well_formed, lemma_type_well_formed,
    lemma_variable_well_formed,
};
use crate::model::{
    command_well_formed, commands_of, errors_of, interface_well_formed, lemma_array_view,
    lemma_multiple_view, lemma_object_view, optional_view, text_of, texts_of, type_well_formed,
    types_of, variable_well_formed, variables_of, Argument, ArrayOptions, Command, ErrorEntry,
    IntegerOptions, Interface, Kind, NumberOptions, ObjectOptions, StringFormat, StringOptions,
    Type, Variable,
};
use crate::node::{
    docs_of, entries_of, lemma_mapping_view, lemma_sequence_view, Doc, Node, Number,
};
use crate::rules;
use crate::rules::Fields;

verus! {

/// Whether `text` reads `literal`.
fn reads(text: &String, literal: &str) -> (r: bool)
    ensures
        r == (text@ == literal@),
{
    let other = literal.to_string();
    *text == other
}

impl Kind {
    /// The kind that `name` spells, if it spells one.
    pub fn named(name: &String) -> (kind: Option<Kind>)
        ensures
            kind == rules::kind_named(name@),
    {
        if reads(name, "null") {
            Some(Kind::Null)
        } else if reads(name, "boolean") {
            Some(Kind::Boolean)
        } else if reads(name, "string") {
            Some(Kind::String)
        } else if reads(name, "number") {
            Some(Kind::Number)
        } else if reads(name, "integer") {
            Some(Kind::Integer)
        } else if reads(name, "array") {
            Some(Kind::Array)
        } else if reads(name, "object") {
            Some(Kind::Object)
        } else {
            None
        }
    }

    /// Whether `name` is a constraint of this kind.
    pub fn has_option(&self, name: &String) -> (r: bool)
        ensures
            r == rules::is_option(*self, name@),
    {
        match self {
            Kind::Null | Kind::Boolean => false,
            Kind::String => {
                reads(name, "pattern") || reads(name, "format") || reads(name, "maxLength")
                    || reads(name, "minLength") || reads(name, "enum") || reads(name, "default")
                    || reads(name, "$ref")
            },
            Kind::Number | Kind::Integer => {
                reads(name, "minimum") || reads(name, "maximum") || reads(name, "default")
            },
            Kind::Array => {
                reads(name, "minItems") || reads(name, "maxItems") || reads(name, "items")
            },
            Kind::Object => {
                reads(name, "properties") || reads(name, "required") || reads(
                    name,
                    "additionalProperties",
                ) || reads(name, "$ref")
            },
        }
    }
}

impl Fields {
    /// Whether `name` belongs to these fields.
    pub fn recognizes(&self, name: &String) -> (r: bool)
        ensures
            r == rules::recognizes(*self, name@),
    {
        match self {
            Fields::Interface => {
                reads(name, "description") || reads(name, "cmds") || reads(name, "vars") || reads(
                    name,
                    "errors",
                )
            },
            Fields::Command => {
                reads(name, "description") || reads(name, "arguments") || reads(name, "result")
            },
            Fields::ErrorEntry => reads(name, "reference"),
            Fields::Type(kind) => reads(name, "type") || kind.has_option(name),
            Fields::Variable(kind) => {
                reads(name, "description") || reads(name, "type") || kind.has_option(name)
            },
            Fields::Names => true,
        }
    }
}

/// The index of the first entry whose key is the string `name`.
fn find_key(entries: &Vec<(Node, Node)>, name: &str) -> (found: Option<usize>)
    ensures
        match found {
            Some(i) => i < entries.len() && rules::key_index(entries_of(entries@), name@) == Some(
                i as int,
            ),
            None => rules::key_index(entries_of(entries@), name@) is None,
        },
{
    let ghost m = entries_of(entries@);
    let wanted = name.to_string();
    let mut i: usize = 0;
    while i < entries.len()
        invariant
            i <= entries.len(),
            m == entries_of(entries@),
            wanted@ == name@,
            forall|j: int| 0 <= j < i ==> (#[trigger] m[j]).0 != Doc::String(name@),
        decreases entries.len() - i,
    {
        if let Node::String(key) = &entries[i].0 {
            if *key == wanted {
                assert(rules::is_first_key(m, name@, i as int));
                return Some(i);
            }
        }
        i += 1;
    }
    None
}

/// The value that the entries give to `name`.
fn value_of<'a>(entries: &'a Vec<(Node, Node)>, name: &str) -> (found: Option<&'a Node>)
    ensures
        match found {
            Some(node) => rules::value_of(entries_of(entries@), name@) == Some(node@),
            None => rules::value_of(entries_of(entries@), name@) is None,
        },
{
    match find_key(entries, name) {
        Some(i) => Some(&entries[i].1),
        None => None,
    }
}

/// Checks the keys of a mapping against the fields that it may hold.
fn check_keys(entries: &Vec<(Node, Node)>, fields: Fields) -> (r: Result<(), DecodeError>)
    ensures
        match r {
            Ok(_) => rules::check_keys(entries_of(entries@), fields) is None,
            Err(e) => rules::check_keys(entries_of(entries@), fields) == Some(e@),
        },
{
    let ghost m = entries_of(entries@);
    let mut i: usize = 0;
    while i < entries.len()
        invariant
            i <= entries.len(),
            m == entries_of(entries@),
            forall|j: int| 0 <= j < i ==> #[trigger] rules::key_fault(m, fields, j) is None,
        decreases entries.len() - i,
    {
        match &entries[i].0 {
            Node::String(name) => {
                if !fields.recognizes(name) {
                    assert(rules::is_first_fault(m, fields, i as int));
                    return Err(DecodeError::UnknownField(name.clone()));
                }
                let mut j: usize = 0;
                while j < i
                    invariant
                        j <= i < entries.len(),
                        m == entries_of(entries@),
                        m[i as int].0 == Doc::String(name@),
                        rules::recognizes(fields, name@),
                        forall|k: int| 0 <= k < i ==> #[trigger] rules::key_fault(m, fields, k) is None,
                        forall|k: int|
                            0 <= k < j ==> (#[trigger] m[k]).0 != Doc::String(name@),
                    decreases i - j,
                {
                    if let Node::String(earlier) = &entries[j].0 {
                        if *earlier == *name {
                            assert(m[j as int].0 == Doc::String(name@));
                            assert(rules::is_first_fault(m, fields, i as int));
                            return Err(DecodeError::DuplicateKey(name.clone()));
                        }
                    }
                    j += 1;
                }
            },
            _ => {
                assert(rules::is_first_fault(m, fields, i as int));
                return Err(DecodeError::InvalidKey);
            },
        }
        i += 1;
    }
    Ok(())
}

/// A field that must be a string.
fn required_text(entries: &Vec<(Node, Node)>, name: &str) -> (r: Result<String, DecodeError>)
    ensures
        outcome(r) == rules::required_text(entries_of(entries@), name@),
{
    match value_of(entries, name) {
        None => Err(DecodeError::MissingField(name.to_string())),
        Some(Node::String(s)) => Ok(s.clone()),
        Some(_) => Err(DecodeError::InvalidField(name.to_string())),
    }
}

/// A field that is a string where it is set.
fn optional_text(entries: &Vec<(Node, Node)>, name: &str) -> (r: Result<
    Option<String>,
    DecodeError,
>)
    ensures
        outcome_with(r, |text: Option<String>| text_of(text)) == rules::optional_text(
            entries_of(entries@),
            name@,
        ),
{
    match value_of(entries, name) {
        None => Ok(None),
        Some(Node::Null) => Ok(None),
        Some(Node::String(s)) => Ok(Some(s.clone())),
        Some(_) => Err(DecodeError::InvalidField(name.to_string())),
    }
}

/// A field that is a count where it is set.
fn optional_count(entries: &Vec<(Node, Node)>, name: &str) -> (r: Result<
    Option<usize>,
    DecodeError,
>)
    ensures
        outcome(r) == rules::optional_count(entries_of(entries@), name@),
{
    match value_of(entries, name) {
        None => Ok(None),
        Some(Node::Null) => Ok(None),
        Some(Node::Number(Number::Integer(i))) => {
            if 0 <= *i && *i <= usize::MAX as i128 {
                Ok(Some(*i as usize))
            } else {
                Err(DecodeError::InvalidField(name.to_string()))
            }
        },
        Some(_) => Err(DecodeError::InvalidField(name.to_string())),
    }
}

/// A field that is a whole number of 64 bits where it is set.
fn optional_integer(entries: &Vec<(Node, Node)>, name: &str) -> (r: Result<
    Option<i64>,
    DecodeError,
>)
    ensures
        outcome(r) == rules::optional_integer(entries_of(entries@), name@),
{
    match value_of(entries, name) {
        None => Ok(None),
        Some(Node::Null) => Ok(None),
        Some(Node::Number(Number::Integer(i))) => {
            if i64::MIN as i128 <= *i && *i <= i64::MAX as i128 {
                Ok(Some(*i as i64))
            } else {
                Err(DecodeError::InvalidField(name.to_string()))
            }
        },
        Some(_) => Err(DecodeError::InvalidField(name.to_string())),
    }
}

/// A field that is a number where it is set.
fn optional_number(entries: &Vec<(Node, Node)>, name: &str) -> (r: Result<
    Option<Number>,
    DecodeError,
>)
    ensures
        outcome(r) == rules::optional_number(entries_of(entries@), name@),
{
    match value_of(entries, name) {
        None => Ok(None),
        Some(Node::Null) => Ok(None),
        Some(Node::Number(n)) => Ok(Some(*n)),
        Some(_) => Err(DecodeError::InvalidField(name.to_string())),
    }
}

/// A field that spells a string format where it is set.
fn optional_format(entries: &Vec<(Node, Node)>, name: &str) -> (r: Result<
    Option<StringFormat>,
    DecodeError,
>)
    ensures
        outcome(r) == rules::optional_format(entries_of(entries@), name@),
{
    match value_of(entries, name) {
        None => Ok(None),
        Some(Node::Null) => Ok(None),
        Some(Node::String(s)) => {
            if reads(s, "date-time") {
                Ok(Some(StringFormat::DateTime))
            } else {
                Err(DecodeError::InvalidField(name.to_string()))
            }
        },
        Some(_) => Err(DecodeError::InvalidField(name.to_string())),
    }
}

/// A field that is a boolean, and `false` where it is not set.
fn flag(entries: &Vec<(Node, Node)>, name: &str) -> (r: Result<bool, DecodeError>)
    ensures
        outcome(r) == rules::flag(entries_of(entries@), name@),
{
    match value_of(entries, name) {
        None => Ok(false),
        Some(Node::Bool(b)) => Ok(*b),
        Some(_) => Err(DecodeError::InvalidField(name.to_string())),
    }
}

/// The strings of a sequence, if every item is one.
fn strings(items: &Vec<Node>) -> (r: Option<Vec<String>>)
    ensures
        match r {
            Some(texts) => rules::all_strings(docs_of(items@)) && texts_of(texts@)
                == rules::strings_of(docs_of(items@)),
            None => !rules::all_strings(docs_of(items@)),
        },
{
    let ghost docs = docs_of(items@);
    let mut texts: Vec<String> = Vec::new();
    let mut i: usize = 0;
    while i < items.len()
        invariant
            i <= items.len(),
            docs == docs_of(items@),
            texts.len() == i,
            forall|j: int| 0 <= j < i ==> #[trigger] docs[j] == Doc::String(texts[j]@),
        decreases items.len() - i,
    {
        match &items[i] {
            Node::String(s) => {
                texts.push(s.clone());
            },
            _ => {
                assert(!(docs[i as int] is String));
                return None;
            },
        }
        i += 1;
    }
    assert(texts_of(texts@) =~= rules::strings_of(docs));
    Some(texts)
}

/// A field that is a sequence of strings where it is set.
fn optional_texts(entries: &Vec<(Node, Node)>, name: &str) -> (r: Result<
    Option<Vec<String>>,
    DecodeError,
>)
    ensures
        outcome_with(
            r,
            |texts: Option<Vec<String>>|
                match texts {
                    Some(texts) => Some(texts_of(texts@)),
                    None => None,
                },
        ) == rules::optional_texts(entries_of(entries@), name@),
{
    match value_of(entries, name) {
        None => Ok(None),
        Some(Node::Null) => Ok(None),
        Some(Node::Sequence(items)) => {
            proof {
                lemma_sequence_view(*items);
            }
            match strings(items) {
                Some(texts) => Ok(Some(texts)),
                None => Err(DecodeError::InvalidField(name.to_string())),
            }
        },
        Some(_) => Err(DecodeError::InvalidField(name.to_string())),
    }
}

/// Whether `names` holds `name`.
fn holds(names: &Vec<String>, name: &String) -> (r: bool)
    ensures
        r == texts_of(names@).contains(name@),
{
    let mut i: usize = 0;
    while i < names.len()
        invariant
            i <= names.len(),
            forall|j: int| 0 <= j < i ==> #[trigger] texts_of(names@)[j] != name@,
        decreases names.len() - i,
    {
        if names[i] == *name {
            assert(texts_of(names@)[i as int] == name@);
            return true;
        }
        i += 1;
    }
    false
}

/// A field that is a set of names, and empty where it is not set.
fn name_set(entries: &Vec<(Node, Node)>, name: &str) -> (r: Result<Vec<String>, DecodeError>)
    ensures
        outcome_with(r, |names: Vec<String>| texts_of(names@)) == rules::name_set(
            entries_of(entries@),
            name@,
        ),
{
    match value_of(entries, name) {
        None => {
            let names: Vec<String> = Vec::new();
            assert(texts_of(names@) =~= Seq::empty());
            Ok(names)
        },
        Some(Node::Sequence(items)) => {
            proof {
                lemma_sequence_view(*items);
            }
            match strings(items) {
                Some(texts) => {
                    let ghost all = texts_of(texts@);
                    let mut names: Vec<String> = Vec::new();
                    let mut i: usize = 0;
                    assert(texts_of(names@) =~= rules::distinct(all, 0));
                    while i < texts.len()
                        invariant
                            i <= texts.len(),
                            all == texts_of(texts@),
                            texts_of(names@) == rules::distinct(all, i as nat),
                        decreases texts.len() - i,
                    {
                        let ghost before = texts_of(names@);
                        if !holds(&names, &texts[i]) {
                            names.push(texts[i].clone());
                            assert(texts_of(names@) =~= before.push(all[i as int]));
                        }
                        i += 1;
                    }
                    Ok(names)
                },
                None => Err(DecodeError::InvalidField(name.to_string())),
            }
        },
        Some(_) => Err(DecodeError::InvalidField(name.to_string())),
    }
}

impl Type {
    /// The type of `kind` with no constraint set.
    pub fn bare(kind: Kind) -> (t: Type)
        ensures
            t@ == rules::bare_type(kind),
    {
        match kind {
            Kind::Null => Type::Null,
            Kind::Boolean => Type::Boolean,
            Kind::String => Type::String(
                StringOptions {
                    pattern: None,
                    format: None,
                    max_length: None,
                    min_length: None,
                    enum_items: None,
                    default: None,
                    object_reference: None,
                },
            ),
            Kind::Number => Type::Number(
                NumberOptions { minimum: None, maximum: None, default: None },
            ),
            Kind::Integer => Type::Integer(
                IntegerOptions { minimum: None, maximum: None, default: None },
            ),
            Kind::Array => Type::Array(
                ArrayOptions { min_items: None, max_items: None, items: None },
            ),
            Kind::Object => {
                let o = ObjectOptions {
                    properties: Vec::new(),
                    required: Vec::new(),
                    additional_properties: false,
                    object_reference: None,
                };
                proof {
                    lemma_object_view(o);
                    assert(o@.properties =~= Seq::empty());
                    assert(o@.required =~= Seq::empty());
                }
                Type::Object(o)
            },
        }
    }

    /// The kind of this type.
    pub fn kind(&self) -> (kind: Kind)
        ensures
            kind == rules::kind_of(self@),
    {
        match self {
            Type::Null => Kind::Null,
            Type::Boolean => Kind::Boolean,
            Type::String(_) => Kind::String,
            Type::Number(_) => Kind::Number,
            Type::Integer(_) => Kind::Integer,
            Type::Array(_) => Kind::Array,
            Type::Object(_) => Kind::Object,
        }
    }
}

/// A member of a union.
fn decode_member(item: &Node) -> (r: Result<Type, DecodeError>)
    ensures
        outcome(r) == rules::decode_member(item@),
{
    match item {
        Node::String(name) => match Kind::named(name) {
            Some(kind) => Ok(Type::bare(kind)),
            None => Err(DecodeError::UnknownKind(name.clone())),
        },
        _ => Err(DecodeError::InvalidKind),
    }
}

/// The members of a union.
fn decode_members(items: &Vec<Node>) -> (r: Result<Vec<Type>, DecodeError>)
    ensures
        outcome_with(r, |types: Vec<Type>| types_of(types@))
            == rules::decode_members(docs_of(items@), items.len() as nat),
{
    let ghost docs = docs_of(items@);
    let mut types: Vec<Type> = Vec::new();
    let mut i: usize = 0;
    assert(types_of(types@) =~= Seq::empty());
    while i < items.len()
        invariant
            i <= items.len(),
            docs == docs_of(items@),
            rules::decode_members(docs, i as nat) == Ok::<_, DecodeErrorView>(
                types_of(types@),
            ),
        decreases items.len() - i,
    {
        let ghost before = types_of(types@);
        match decode_member(&items[i]) {
            Ok(t) => {
                types.push(t);
                assert(types_of(types@) =~= before.push(t@));
            },
            Err(e) => {
                proof {
                    lemma_members_refused(docs, (i + 1) as nat, items.len() as nat);
                }
                return Err(e);
            },
        }
        i += 1;
    }
    Ok(types)
}

/// Once the first `n` members are refused, so are the first `k` for every
/// `k` from `n` on, and for the same reason.
proof fn lemma_members_refused(items: Seq<Doc>, n: nat, k: nat)
    requires
        n <= k <= items.len(),
        rules::decode_members(items, n) is Err,
    ensures
        rules::decode_members(items, k) == rules::decode_members(items, n),
    decreases k,
{
    if n < k {
        lemma_members_refused(items, n, (k - 1) as nat);
    }
}

/// The constraints of a string type.
fn string_options(entries: &Vec<(Node, Node)>) -> (r: Result<StringOptions, DecodeError>)
    ensures
        outcome(r) == rules::string_options(entries_of(entries@)),
{
    let pattern = optional_text(entries, "pattern")?;
    let format = optional_format(entries, "format")?;
    let max_length = optional_count(entries, "maxLength")?;
    let min_length = optional_count(entries, "minLength")?;
    let enum_items = optional_texts(entries, "enum")?;
    let default = optional_text(entries, "default")?;
    let object_reference = optional_text(entries, "$ref")?;
    Ok(
        StringOptions {
            pattern,
            format,
            max_length,
            min_length,
            enum_items,
            default,
            object_reference,
        },
    )
}

/// The constraints of a number type.
fn number_options(entries: &Vec<(Node, Node)>) -> (r: Result<NumberOptions, DecodeError>)
    ensures
        outcome_with(r, |o: NumberOptions| o) == rules::number_options(entries_of(entries@)),
{
    let minimum = optional_number(entries, "minimum")?;
    let maximum = optional_number(entries, "maximum")?;
    let default = optional_number(entries, "default")?;
    Ok(NumberOptions { minimum, maximum, default })
}

/// The constraints of an integer type.
fn integer_options(entries: &Vec<(Node, Node)>) -> (r: Result<IntegerOptions, DecodeError>)
    ensures
        outcome_with(r, |o: IntegerOptions| o) == rules::integer_options(entries_of(entries@)),
{
    let minimum = optional_integer(entries, "minimum")?;
    let maximum = optional_integer(entries, "maximum")?;
    let default = optional_integer(entries, "default")?;
    Ok(IntegerOptions { minimum, maximum, default })
}

/// Once the first `n` variables of a table are refused, so are the first
/// `k` for every `k` from `n` on, and for the same reason.
proof fn lemma_variables_refused(table: Seq<(Doc, Doc)>, n: nat, k: nat)
    requires
        n <= k <= table.len(),
        rules::named_variables(table, n) is Err,
    ensures
        rules::named_variables(table, k) == rules::named_variables(table, n),
    decreases k,
{
    if n < k {
        lemma_variables_refused(table, n, (k - 1) as nat);
    }
}

/// The name that a key spells.
fn name_of(key: &Node) -> (name: String)
    ensures
        name@ == rules::name_of(key@),
{
    match key {
        Node::String(name) => name.clone(),
        _ => String::new(),
    }
}

impl Variable {
    /// Decodes a variable.
    pub fn deserialize(node: &Node) -> (r: Result<Variable, DecodeError>)
        ensures
            outcome(r) == rules::decode_variable(node@),
            r matches Ok(decoded) ==> variable_well_formed(decoded@),
        decreases node, 0nat,
    {
        proof {
            if rules::decode_variable(node@) is Ok {
                lemma_variable_well_formed(node@);
            }
        }
        match node {
            Node::Mapping(entries) => {
                proof {
                    lemma_mapping_view(*entries);
                }
                match value_of(entries, "description") {
                    Some(Node::String(text)) => decode_argument(entries, Some(text.clone())),
                    Some(_) => Err(DecodeError::InvalidField("description".to_string())),
                    None => decode_argument(entries, None),
                }
            },
            _ => Err(DecodeError::NotAMapping(Record::Variable)),
        }
    }
}

/// The variable of a mapping whose description has been read.
fn decode_argument(entries: &Vec<(Node, Node)>, description: Option<String>) -> (r: Result<
    Variable,
    DecodeError,
>)
    ensures
        outcome(r) == rules::decode_argument(entries_of(entries@), text_of(description)),
    decreases entries, 3nat,
{
    let arg = match value_of(entries, "type") {
        Some(Node::String(name)) => Argument::Single(decode_single(name, entries, true)?),
        Some(Node::Sequence(names)) => {
            proof {
                lemma_sequence_view(*names);
            }
            let types = decode_members(names)?;
            proof {
                lemma_multiple_view(types);
            }
            Argument::Multiple(types)
        },
        Some(_) => {
            return Err(DecodeError::InvalidType);
        },
        None => {
            let name = "object".to_string();
            Argument::Single(decode_single(&name, entries, true)?)
        },
    };
    Ok(Variable { description, arg })
}

/// The type of the kind that `name` spells, with the constraints that the
/// entries set.
fn decode_single(name: &String, entries: &Vec<(Node, Node)>, described: bool) -> (r: Result<
    Type,
    DecodeError,
>)
    ensures
        outcome(r) == rules::decode_single(name@, entries_of(entries@), described),
    decreases entries, 2nat,
{
    match Kind::named(name) {
        None => Err(DecodeError::UnknownKind(name.clone())),
        Some(kind) => {
            let fields = if described {
                Fields::Variable(kind)
            } else {
                Fields::Type(kind)
            };
            check_keys(entries, fields)?;
            decode_options(kind, entries)
        },
    }
}

/// The type of `kind` with the constraints that the entries set.
fn decode_options(kind: Kind, entries: &Vec<(Node, Node)>) -> (r: Result<Type, DecodeError>)
    ensures
        outcome(r) == rules::decode_options(kind, entries_of(entries@)),
    decreases entries, 1nat,
{
    match kind {
        Kind::Null => Ok(Type::Null),
        Kind::Boolean => Ok(Type::Boolean),
        Kind::String => Ok(Type::String(string_options(entries)?)),
        Kind::Number => Ok(Type::Number(number_options(entries)?)),
        Kind::Integer => Ok(Type::Integer(integer_options(entries)?)),
        Kind::Array => {
            let min_items = optional_count(entries, "minItems")?;
            let max_items = optional_count(entries, "maxItems")?;
            let items = match optional_variable(entries, "items")? {
                Some(v) => Some(Box::new(v)),
                None => None,
            };
            let o = ArrayOptions { min_items, max_items, items };
            proof {
                lemma_array_view(o);
            }
            Ok(Type::Array(o))
        },
        Kind::Object => {
            let properties = variable_table(entries, "properties")?;
            let required = name_set(entries, "required")?;
            let additional_properties = flag(entries, "additionalProperties")?;
            let object_reference = optional_text(entries, "$ref")?;
            let o = ObjectOptions {
                properties,
                required,
                additional_properties,
                object_reference,
            };
            proof {
                lemma_object_view(o);
            }
            Ok(Type::Object(o))
        },
    }
}

/// A field that is a variable where it is set.
fn optional_variable(entries: &Vec<(Node, Node)>, name: &str) -> (r: Result<
    Option<Variable>,
    DecodeError,
>)
    ensures
        outcome_with(r, |v: Option<Variable>| optional_view(v)) == rules::optional_variable(
            entries_of(entries@),
            name@,
        ),
    decreases entries, 0nat,
{
    match find_key(entries, name) {
        Some(i) => match &entries[i].1 {
            Node::Null => Ok(None),
            node => Ok(Some(Variable::deserialize(node)?)),
        },
        None => Ok(None),
    }
}

/// A field that is a table of named variables, and empty where it is not
/// set.
fn variable_table(entries: &Vec<(Node, Node)>, name: &str) -> (r: Result<
    Vec<(String, Variable)>,
    DecodeError,
>)
    ensures
        outcome_with(r, |table: Vec<(String, Variable)>| variables_of(table@))
            == rules::variable_table(entries_of(entries@), name@),
    decreases entries, 0nat,
{
    match find_key(entries, name) {
        Some(i) => match &entries[i].1 {
            Node::Mapping(table) => {
                proof {
                    lemma_mapping_view(*table);
                }
                check_keys(table, Fields::Names)?;
                named_variables(table)
            },
            _ => Err(DecodeError::InvalidField(name.to_string())),
        },
        None => {
            let empty: Vec<(String, Variable)> = Vec::new();
            assert(variables_of(empty@) =~= Seq::empty());
            Ok(empty)
        },
    }
}

/// The variables of a table.
fn named_variables(table: &Vec<(Node, Node)>) -> (r: Result<Vec<(String, Variable)>, DecodeError>)
    ensures
        outcome_with(r, |decoded: Vec<(String, Variable)>| variables_of(decoded@))
            == rules::named_variables(entries_of(table@), table.len() as nat),
    decreases table, 0nat,
{
    let ghost m = entries_of(table@);
    let mut decoded: Vec<(String, Variable)> = Vec::new();
    let mut i: usize = 0;
    assert(variables_of(decoded@) =~= Seq::empty());
    while i < table.len()
        invariant
            i <= table.len(),
            m == entries_of(table@),
            rules::named_variables(m, i as nat) == Ok::<_, DecodeErrorView>(
                variables_of(decoded@),
            ),
        decreases table.len() - i,
    {
        let ghost before = variables_of(decoded@);
        match Variable::deserialize(&table[i].1) {
            Ok(v) => {
                let name = name_of(&table[i].0);
                decoded.push((name, v));
                assert(variables_of(decoded@) =~= before.push((name@, v@)));
            },
            Err(e) => {
                proof {
                    lemma_variables_refused(m, (i + 1) as nat, table.len() as nat);
                }
                return Err(e);
            },
        }
        i += 1;
    }
    Ok(decoded)
}

impl Type {
    /// Decodes a type.
    pub fn deserialize(node: &Node) -> (r: Result<Type, DecodeError>)
        ensures
            outcome(r) == rules::decode_type(node@),
            r matches Ok(decoded) ==> type_well_formed(decoded@),
    {
        proof {
            if rules::decode_type(node@) is Ok {
                lemma_type_well_formed(node@);
            }
        }
        match node {
            Node::Mapping(entries) => {
                proof {
                    lemma_mapping_view(*entries);
                }
                match value_of(entries, "type") {
                    Some(Node::String(name)) => decode_single(name, entries, false),
                    Some(_) => Err(DecodeError::InvalidKind),
                    None => Err(DecodeError::MissingField("type".to_string())),
                }
            },
            _ => Err(DecodeError::NotAMapping(Record::Type)),
        }
    }
}

impl ErrorEntry {
    /// Decodes a declared error.
    pub fn deserialize(node: &Node) -> (r: Result<ErrorEntry, DecodeError>)
        ensures
            outcome(r) == rules::decode_error_entry(node@),
    {
        match node {
            Node::Mapping(entries) => {
                proof {
                    lemma_mapping_view(*entries);
                }
                check_keys(entries, Fields::ErrorEntry)?;
                let reference = required_text(entries, "reference")?;
                Ok(ErrorEntry { reference })
            },
            _ => Err(DecodeError::NotAMapping(Record::ErrorEntry)),
        }
    }
}

/// Once the first `n` declared errors are refused, so are the first `k` for
/// every `k` from `n` on, and for the same reason.
proof fn lemma_error_entries_refused(items: Seq<Doc>, n: nat, k: nat)
    requires
        n <= k <= items.len(),
        rules::decode_error_entries(items, n) is Err,
    ensures
        rules::decode_error_entries(items, k) == rules::decode_error_entries(items, n),
    decreases k,
{
    if n < k {
        lemma_error_entries_refused(items, n, (k - 1) as nat);
    }
}

/// The declared errors of a sequence.
fn decode_error_entries(items: &Vec<Node>) -> (r: Result<Vec<ErrorEntry>, DecodeError>)
    ensures
        outcome_with(r, |errors: Vec<ErrorEntry>| errors_of(errors@))
            == rules::decode_error_entries(docs_of(items@), items.len() as nat),
{
    let ghost docs = docs_of(items@);
    let mut errors: Vec<ErrorEntry> = Vec::new();
    let mut i: usize = 0;
    assert(errors_of(errors@) =~= Seq::empty());
    while i < items.len()
        invariant
            i <= items.len(),
            docs == docs_of(items@),
            rules::decode_error_entries(docs, i as nat) == Ok::<_, DecodeErrorView>(
                errors_of(errors@),
            ),
        decreases items.len() - i,
    {
        let ghost before = errors_of(errors@);
        match ErrorEntry::deserialize(&items[i]) {
            Ok(entry) => {
                errors.push(entry);
                assert(errors_of(errors@) =~= before.push(entry@));
            },
            Err(e) => {
                proof {
                    lemma_error_entries_refused(docs, (i + 1) as nat, items.len() as nat);
                }
                return Err(e);
            },
        }
        i += 1;
    }
    Ok(errors)
}

/// A field that is a sequence of declared errors, and empty where it is not
/// set.
fn error_list(entries: &Vec<(Node, Node)>, name: &str) -> (r: Result<Vec<ErrorEntry>, DecodeError>)
    ensures
        outcome_with(r, |errors: Vec<ErrorEntry>| errors_of(errors@)) == rules::error_list(
            entries_of(entries@),
            name@,
        ),
{
    match value_of(entries, name) {
        None => {
            let errors: Vec<ErrorEntry> = Vec::new();
            assert(errors_of(errors@) =~= Seq::empty());
            Ok(errors)
        },
        Some(Node::Sequence(items)) => {
            proof {
                lemma_sequence_view(*items);
            }
            decode_error_entries(items)
        },
        Some(_) => Err(DecodeError::InvalidField(name.to_string())),
    }
}

impl Command {
    /// Decodes a command.
    pub fn deserialize(node: &Node) -> (r: Result<Command, DecodeError>)
        ensures
            outcome(r) == rules::decode_command(node@),
            r matches Ok(decoded) ==> command_well_formed(decoded@),
    {
        proof {
            if rules::decode_command(node@) is Ok {
                lemma_command_well_formed(node@);
            }
        }
        match node {
            Node::Mapping(entries) => {
                proof {
                    lemma_mapping_view(*entries);
                }
                check_keys(entries, Fields::Command)?;
                let description = required_text(entries, "description")?;
                let arguments = variable_table(entries, "arguments")?;
                let result = optional_variable(entries, "result")?;
                Ok(Command { description, arguments, result })
            },
            _ => Err(DecodeError::NotAMapping(Record::Command)),
        }
    }
}

/// Once the first `n` commands of a table are refused, so are the first `k`
/// for every `k` from `n` on, and for the same reason.
proof fn lemma_commands_refused(table: Seq<(Doc, Doc)>, n: nat, k: nat)
    requires
        n <= k <= table.len(),
        rules::named_commands(table, n) is Err,
    ensures
        rules::named_commands(table, k) == rules::named_commands(table, n),
    decreases k,
{
    if n < k {
        lemma_commands_refused(table, n, (k - 1) as nat);
    }
}

/// The commands of a table.
fn named_commands(table: &Vec<(Node, Node)>) -> (r: Result<Vec<(String, Command)>, DecodeError>)
    ensures
        outcome_with(r, |decoded: Vec<(String, Command)>| commands_of(decoded@))
            == rules::named_commands(entries_of(table@), table.len() as nat),
{
    let ghost m = entries_of(table@);
    let mut decoded: Vec<(String, Command)> = Vec::new();
    let mut i: usize = 0;
    assert(commands_of(decoded@) =~= Seq::empty());
    while i < table.len()
        invariant
            i <= table.len(),
            m == entries_of(table@),
            rules::named_commands(m, i as nat) == Ok::<_, DecodeErrorView>(commands_of(decoded@)),
        decreases table.len() - i,
    {
        let ghost before = commands_of(decoded@);
        match Command::deserialize(&table[i].1) {
            Ok(c) => {
                let name = name_of(&table[i].0);
                decoded.push((name, c));
                assert(commands_of(decoded@) =~= before.push((name@, c@)));
            },
            Err(e) => {
                proof {
                    lemma_commands_refused(m, (i + 1) as nat, table.len() as nat);
                }
                return Err(e);
            },
        }
        i += 1;
    }
    Ok(decoded)
}

/// A field that is a table of named commands, and empty where it is not
/// set.
fn command_table(entries: &Vec<(Node, Node)>, name: &str) -> (r: Result<
    Vec<(String, Command)>,
    DecodeError,
>)
    ensures
        outcome_with(r, |table: Vec<(String, Command)>| commands_of(table@))
            == rules::command_table(entries_of(entries@), name@),
{
    match value_of(entries, name) {
        None => {
            let empty: Vec<(String, Command)> = Vec::new();
            assert(commands_of(empty@) =~= Seq::empty());
            Ok(empty)
        },
        Some(Node::Mapping(table)) => {
            proof {
                lemma_mapping_view(*table);
            }
            check_keys(table, Fields::Names)?;
            named_commands(table)
        },
        Some(_) => Err(DecodeError::InvalidField(name.to_string())),
    }
}

impl Interface {
    /// Decodes an interface.
    pub fn deserialize(node: &Node) -> (r: Result<Interface, DecodeError>)
        ensures
            outcome(r) == rules::decode_interface(node@),
            r matches Ok(decoded) ==> interface_well_formed(decoded@),
    {
        proof {
            if rules::decode_interface(node@) is Ok {
                lemma_interface_well_formed(node@);
            }
        }
        match node {
            Node::Mapping(entries) => {
                proof {
                    lemma_mapping_view(*entries);
                }
                check_keys(entries, Fields::Interface)?;
                let description = required_text(entries, "description")?;
                let cmds = command_table(entries, "cmds")?;
                let vars = variable_table(entries, "vars")?;
                let errors = error_list(entries, "errors")?;
                Ok(Interface { description, cmds, vars, errors })
            },
            _ => Err(DecodeError::NotAMapping(Record::Interface)),
        }
    }
}

} // verus!
