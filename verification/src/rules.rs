//! What decoding means: for every document, the model it stands for or the
//! reason it is refused.
//!
//! A record is read from a mapping. Its keys are checked first, in document
//! order: each must be a string, recognized by the record, and not a repeat
//! of an earlier key. Then its fields are read in the order the record
//! declares them, and the first refusal is the record's.

use vstd::prelude::*;
use crate::error::{DecodeErrorView, Record};
use crate::model::{
    ArgumentView, ArrayOptionsView, CommandView, ErrorEntryView, IntegerOptions, InterfaceView,
    Kind, NumberOptions, ObjectOptionsView, StringFormat, StringOptionsView, TypeView,
    VariableView,
};
use crate::node::{Doc, Number};

verus! {

/// The sets of keys that a mapping may hold.
#[derive(Clone, Copy, Debug, PartialEq, Eq, Structural)]
pub enum Fields {
    /// The fields of an interface.
    Interface,
    /// The fields of a command.
    Command,
    /// The fields of a declared error.
    ErrorEntry,
    /// `type`, and the constraints of the kind.
    Type(Kind),
    /// `description`, `type`, and the constraints of the kind.
    Variable(Kind),
    /// Any name: the mapping is a table of named entries.
    Names,
}

/// The kind that a name spells, if it spells one.
pub open spec fn kind_named(name: Seq<char>) -> Option<Kind> {
    if name == "null"@ {
        Some(Kind::Null)
    } else if name == "boolean"@ {
        Some(Kind::Boolean)
    } else if name == "string"@ {
        Some(Kind::String)
    } else if name == "number"@ {
        Some(Kind::Number)
    } else if name == "integer"@ {
        Some(Kind::Integer)
    } else if name == "array"@ {
        Some(Kind::Array)
    } else if name == "object"@ {
        Some(Kind::Object)
    } else {
        None
    }
}

/// Whether `name` is a constraint of `kind`.
pub open spec fn is_option(kind: Kind, name: Seq<char>) -> bool {
    match kind {
        Kind::Null | Kind::Boolean => false,
        Kind::String => {
            ||| name == "pattern"@
            ||| name == "format"@
            ||| name == "maxLength"@
            ||| name == "minLength"@
            ||| name == "enum"@
            ||| name == "default"@
            ||| name == "$ref"@
        },
        Kind::Number | Kind::Integer => {
            ||| name == "minimum"@
            ||| name == "maximum"@
            ||| name == "default"@
        },
        Kind::Array => {
            ||| name == "minItems"@
            ||| name == "maxItems"@
            ||| name == "items"@
        },
        Kind::Object => {
            ||| name == "properties"@
            ||| name == "required"@
            ||| name == "additionalProperties"@
            ||| name == "$ref"@
        },
    }
}

/// Whether `name` belongs to `fields`.
pub open spec fn recognizes(fields: Fields, name: Seq<char>) -> bool {
    match fields {
        Fields::Interface => {
            ||| name == "description"@
            ||| name == "cmds"@
            ||| name == "vars"@
            ||| name == "errors"@
        },
        Fields::Command => {
            ||| name == "description"@
            ||| name == "arguments"@
            ||| name == "result"@
        },
        Fields::ErrorEntry => name == "reference"@,
        Fields::Type(kind) => name == "type"@ || is_option(kind, name),
        Fields::Variable(kind) => {
            ||| name == "description"@
            ||| name == "type"@
            ||| is_option(kind, name)
        },
        Fields::Names => true,
    }
}

/// Whether `key` is a string that names one of `fields`.
pub open spec fn is_field(key: Doc, fields: Fields) -> bool {
    match key {
        Doc::String(name) => recognizes(fields, name),
        _ => false,
    }
}

/// Whether entry `i` is the first of `m` whose key is the string `name`.
pub open spec fn is_first_key(m: Seq<(Doc, Doc)>, name: Seq<char>, i: int) -> bool {
    &&& 0 <= i < m.len()
    &&& m[i].0 == Doc::String(name)
    &&& forall|j: int| 0 <= j < i ==> (#[trigger] m[j]).0 != Doc::String(name)
}

/// The index of the first entry of `m` whose key is the string `name`.
pub open spec fn key_index(m: Seq<(Doc, Doc)>, name: Seq<char>) -> Option<int> {
    if exists|i: int| is_first_key(m, name, i) {
        Some(choose|i: int| is_first_key(m, name, i))
    } else {
        None
    }
}

/// The value that `m` gives to `name`.
pub open spec fn value_of(m: Seq<(Doc, Doc)>, name: Seq<char>) -> Option<Doc> {
    match key_index(m, name) {
        Some(i) => Some(m[i].1),
        None => None,
    }
}

/// What is wrong with the key of entry `i` of `m`, read as one of `fields`.
pub open spec fn key_fault(m: Seq<(Doc, Doc)>, fields: Fields, i: int) -> Option<DecodeErrorView> {
    match m[i].0 {
        Doc::String(name) => if !recognizes(fields, name) {
            Some(DecodeErrorView::UnknownField(name))
        } else if exists|j: int| 0 <= j < i && (#[trigger] m[j]).0 == Doc::String(name) {
            Some(DecodeErrorView::DuplicateKey(name))
        } else {
            None
        },
        _ => Some(DecodeErrorView::InvalidKey),
    }
}

/// Whether entry `i` is the first of `m` whose key is at fault.
pub open spec fn is_first_fault(m: Seq<(Doc, Doc)>, fields: Fields, i: int) -> bool {
    &&& 0 <= i < m.len()
    &&& key_fault(m, fields, i) is Some
    &&& forall|j: int| 0 <= j < i ==> #[trigger] key_fault(m, fields, j) is None
}

/// The fault of the first key of `m` that has one.
pub open spec fn check_keys(m: Seq<(Doc, Doc)>, fields: Fields) -> Option<DecodeErrorView> {
    if exists|i: int| is_first_fault(m, fields, i) {
        key_fault(m, fields, choose|i: int| is_first_fault(m, fields, i))
    } else {
        None
    }
}

/// A field that must be a string.
pub open spec fn required_text(m: Seq<(Doc, Doc)>, name: Seq<char>) -> Result<
    Seq<char>,
    DecodeErrorView,
> {
    match value_of(m, name) {
        None => Err(DecodeErrorView::MissingField(name)),
        Some(Doc::String(s)) => Ok(s),
        Some(_) => Err(DecodeErrorView::InvalidField(name)),
    }
}

/// A field that is a string where it is set.
pub open spec fn optional_text(m: Seq<(Doc, Doc)>, name: Seq<char>) -> Result<
    Option<Seq<char>>,
    DecodeErrorView,
> {
    match value_of(m, name) {
        None | Some(Doc::Null) => Ok(None),
        Some(Doc::String(s)) => Ok(Some(s)),
        Some(_) => Err(DecodeErrorView::InvalidField(name)),
    }
}

/// A field that is a count where it is set: a whole number from 0 to
/// `usize::MAX`.
pub open spec fn optional_count(m: Seq<(Doc, Doc)>, name: Seq<char>) -> Result<
    Option<usize>,
    DecodeErrorView,
> {
    match value_of(m, name) {
        None | Some(Doc::Null) => Ok(None),
        Some(Doc::Number(Number::Integer(i))) => if 0 <= i <= usize::MAX {
            Ok(Some(i as usize))
        } else {
            Err(DecodeErrorView::InvalidField(name))
        },
        Some(_) => Err(DecodeErrorView::InvalidField(name)),
    }
}

/// A field that is a whole number from `i64::MIN` to `i64::MAX` where it is
/// set.
pub open spec fn optional_integer(m: Seq<(Doc, Doc)>, name: Seq<char>) -> Result<
    Option<i64>,
    DecodeErrorView,
> {
    match value_of(m, name) {
        None | Some(Doc::Null) => Ok(None),
        Some(Doc::Number(Number::Integer(i))) => if i64::MIN <= i <= i64::MAX {
            Ok(Some(i as i64))
        } else {
            Err(DecodeErrorView::InvalidField(name))
        },
        Some(_) => Err(DecodeErrorView::InvalidField(name)),
    }
}

/// A field that is a number, whole or real, where it is set.
pub open spec fn optional_number(m: Seq<(Doc, Doc)>, name: Seq<char>) -> Result<
    Option<Number>,
    DecodeErrorView,
> {
    match value_of(m, name) {
        None | Some(Doc::Null) => Ok(None),
        Some(Doc::Number(n)) => Ok(Some(n)),
        Some(_) => Err(DecodeErrorView::InvalidField(name)),
    }
}

/// A field that spells a string format where it is set.
pub open spec fn optional_format(m: Seq<(Doc, Doc)>, name: Seq<char>) -> Result<
    Option<StringFormat>,
    DecodeErrorView,
> {
    match value_of(m, name) {
        None | Some(Doc::Null) => Ok(None),
        Some(Doc::String(s)) => if s == "date-time"@ {
            Ok(Some(StringFormat::DateTime))
        } else {
            Err(DecodeErrorView::InvalidField(name))
        },
        Some(_) => Err(DecodeErrorView::InvalidField(name)),
    }
}

/// A field that is a boolean, and `false` where it is not set.
pub open spec fn flag(m: Seq<(Doc, Doc)>, name: Seq<char>) -> Result<bool, DecodeErrorView> {
    match value_of(m, name) {
        None => Ok(false),
        Some(Doc::Bool(b)) => Ok(b),
        Some(_) => Err(DecodeErrorView::InvalidField(name)),
    }
}

/// Whether every item is a string.
pub open spec fn all_strings(items: Seq<Doc>) -> bool {
    forall|i: int| 0 <= i < items.len() ==> #[trigger] items[i] is String
}

/// The characters of each item.
pub open spec fn strings_of(items: Seq<Doc>) -> Seq<Seq<char>> {
    Seq::new(items.len(), |i: int| items[i]->String_0)
}

/// A field that is a sequence of strings where it is set.
pub open spec fn optional_texts(m: Seq<(Doc, Doc)>, name: Seq<char>) -> Result<
    Option<Seq<Seq<char>>>,
    DecodeErrorView,
> {
    match value_of(m, name) {
        None | Some(Doc::Null) => Ok(None),
        Some(Doc::Sequence(items)) => if all_strings(items) {
            Ok(Some(strings_of(items)))
        } else {
            Err(DecodeErrorView::InvalidField(name))
        },
        Some(_) => Err(DecodeErrorView::InvalidField(name)),
    }
}

/// The first `n` of `names` with every repeat of an earlier one left out.
pub open spec fn distinct(names: Seq<Seq<char>>, n: nat) -> Seq<Seq<char>>
    decreases n,
{
    if n == 0 || n > names.len() {
        Seq::empty()
    } else {
        let earlier = distinct(names, (n - 1) as nat);
        if earlier.contains(names[n - 1]) {
            earlier
        } else {
            earlier.push(names[n - 1])
        }
    }
}

/// A field that is a set of names, written as a sequence of strings, and
/// empty where it is not set.
pub open spec fn name_set(m: Seq<(Doc, Doc)>, name: Seq<char>) -> Result<
    Seq<Seq<char>>,
    DecodeErrorView,
> {
    match value_of(m, name) {
        None => Ok(Seq::empty()),
        Some(Doc::Sequence(items)) => if all_strings(items) {
            Ok(distinct(strings_of(items), items.len()))
        } else {
            Err(DecodeErrorView::InvalidField(name))
        },
        Some(_) => Err(DecodeErrorView::InvalidField(name)),
    }
}

/// The type of `kind` with no constraint set.
pub open spec fn bare_type(kind: Kind) -> TypeView {
    match kind {
        Kind::Null => TypeView::Null,
        Kind::Boolean => TypeView::Boolean,
        Kind::String => TypeView::String(
            StringOptionsView {
                pattern: None,
                format: None,
                max_length: None,
                min_length: None,
                enum_items: None,
                default: None,
                object_reference: None,
            },
        ),
        Kind::Number => TypeView::Number(
            NumberOptions { minimum: None, maximum: None, default: None },
        ),
        Kind::Integer => TypeView::Integer(
            IntegerOptions { minimum: None, maximum: None, default: None },
        ),
        Kind::Array => TypeView::Array(
            ArrayOptionsView { min_items: None, max_items: None, items: None },
        ),
        Kind::Object => TypeView::Object(
            ObjectOptionsView {
                properties: Seq::empty(),
                required: Seq::empty(),
                additional_properties: false,
                object_reference: None,
            },
        ),
    }
}

/// The kind of a type.
pub open spec fn kind_of(t: TypeView) -> Kind {
    match t {
        TypeView::Null => Kind::Null,
        TypeView::Boolean => Kind::Boolean,
        TypeView::String(_) => Kind::String,
        TypeView::Number(_) => Kind::Number,
        TypeView::Integer(_) => Kind::Integer,
        TypeView::Array(_) => Kind::Array,
        TypeView::Object(_) => Kind::Object,
    }
}

/// A member of a union: the bare type of the kind that the item names.
pub open spec fn decode_member(item: Doc) -> Result<TypeView, DecodeErrorView> {
    match item {
        Doc::String(name) => match kind_named(name) {
            Some(kind) => Ok(bare_type(kind)),
            None => Err(DecodeErrorView::UnknownKind(name)),
        },
        _ => Err(DecodeErrorView::InvalidKind),
    }
}

/// The first `n` members of a union, or the refusal of the first item that
/// is refused.
pub open spec fn decode_members(items: Seq<Doc>, n: nat) -> Result<Seq<TypeView>, DecodeErrorView>
    decreases n,
{
    if n == 0 || n > items.len() {
        Ok(Seq::empty())
    } else {
        match decode_members(items, (n - 1) as nat) {
            Err(e) => Err(e),
            Ok(earlier) => match decode_member(items[n - 1]) {
                Err(e) => Err(e),
                Ok(t) => Ok(earlier.push(t)),
            },
        }
    }
}

/// The constraints of a string type.
pub open spec fn string_options(m: Seq<(Doc, Doc)>) -> Result<StringOptionsView, DecodeErrorView> {
    let pattern = optional_text(m, "pattern"@);
    let format = optional_format(m, "format"@);
    let max_length = optional_count(m, "maxLength"@);
    let min_length = optional_count(m, "minLength"@);
    let enum_items = optional_texts(m, "enum"@);
    let default = optional_text(m, "default"@);
    let object_reference = optional_text(m, "$ref"@);
    if pattern is Err {
        Err(pattern->Err_0)
    } else if format is Err {
        Err(format->Err_0)
    } else if max_length is Err {
        Err(max_length->Err_0)
    } else if min_length is Err {
        Err(min_length->Err_0)
    } else if enum_items is Err {
        Err(enum_items->Err_0)
    } else if default is Err {
        Err(default->Err_0)
    } else if object_reference is Err {
        Err(object_reference->Err_0)
    } else {
        Ok(
            StringOptionsView {
                pattern: pattern->Ok_0,
                format: format->Ok_0,
                max_length: max_length->Ok_0,
                min_length: min_length->Ok_0,
                enum_items: enum_items->Ok_0,
                default: default->Ok_0,
                object_reference: object_reference->Ok_0,
            },
        )
    }
}

/// The constraints of a number type.
pub open spec fn number_options(m: Seq<(Doc, Doc)>) -> Result<NumberOptions, DecodeErrorView> {
    let minimum = optional_number(m, "minimum"@);
    let maximum = optional_number(m, "maximum"@);
    let default = optional_number(m, "default"@);
    if minimum is Err {
        Err(minimum->Err_0)
    } else if maximum is Err {
        Err(maximum->Err_0)
    } else if default is Err {
        Err(default->Err_0)
    } else {
        Ok(
            NumberOptions {
                minimum: minimum->Ok_0,
                maximum: maximum->Ok_0,
                default: default->Ok_0,
            },
        )
    }
}

/// The constraints of an integer type.
pub open spec fn integer_options(m: Seq<(Doc, Doc)>) -> Result<IntegerOptions, DecodeErrorView> {
    let minimum = optional_integer(m, "minimum"@);
    let maximum = optional_integer(m, "maximum"@);
    let default = optional_integer(m, "default"@);
    if minimum is Err {
        Err(minimum->Err_0)
    } else if maximum is Err {
        Err(maximum->Err_0)
    } else if default is Err {
        Err(default->Err_0)
    } else {
        Ok(
            IntegerOptions {
                minimum: minimum->Ok_0,
                maximum: maximum->Ok_0,
                default: default->Ok_0,
            },
        )
    }
}

/// The name that a key spells.
pub open spec fn name_of(key: Doc) -> Seq<char> {
    match key {
        Doc::String(name) => name,
        _ => Seq::empty(),
    }
}

/// A variable: an optional `description`, and a `type` that is the name of
/// one kind, whose constraints the other fields then are, or a sequence of
/// such names, which makes a union of bare types whatever the other fields
/// are. Where `type` is not set, it is `object`.
pub open spec fn decode_variable(d: Doc) -> Result<VariableView, DecodeErrorView>
    decreases d, 0nat,
{
    match d {
        Doc::Mapping(m) => match value_of(m, "description"@) {
            Some(Doc::String(text)) => decode_argument(m, Some(text)),
            Some(_) => Err(DecodeErrorView::InvalidField("description"@)),
            None => decode_argument(m, None),
        },
        _ => Err(DecodeErrorView::NotAMapping(Record::Variable)),
    }
}

/// The variable of mapping `m`, whose description has been read.
pub open spec fn decode_argument(m: Seq<(Doc, Doc)>, description: Option<Seq<char>>) -> Result<
    VariableView,
    DecodeErrorView,
>
    decreases m, 3nat,
{
    match value_of(m, "type"@) {
        Some(Doc::String(name)) => match decode_single(name, m, true) {
            Ok(t) => Ok(VariableView { description, arg: ArgumentView::Single(t) }),
            Err(e) => Err(e),
        },
        Some(Doc::Sequence(names)) => match decode_members(names, names.len()) {
            Ok(types) => Ok(VariableView { description, arg: ArgumentView::Multiple(types) }),
            Err(e) => Err(e),
        },
        Some(_) => Err(DecodeErrorView::InvalidType),
        None => match decode_single("object"@, m, true) {
            Ok(t) => Ok(VariableView { description, arg: ArgumentView::Single(t) }),
            Err(e) => Err(e),
        },
    }
}

/// The type of the kind that `name` spells, with the constraints that `m`
/// sets. `described` says whether `m` is the mapping of a variable, which
/// may hold a `description` too.
pub open spec fn decode_single(name: Seq<char>, m: Seq<(Doc, Doc)>, described: bool) -> Result<
    TypeView,
    DecodeErrorView,
>
    decreases m, 2nat,
{
    match kind_named(name) {
        None => Err(DecodeErrorView::UnknownKind(name)),
        Some(kind) => {
            let fields = if described {
                Fields::Variable(kind)
            } else {
                Fields::Type(kind)
            };
            match check_keys(m, fields) {
                Some(e) => Err(e),
                None => decode_options(kind, m),
            }
        },
    }
}

/// The type of `kind` with the constraints that `m` sets.
pub open spec fn decode_options(kind: Kind, m: Seq<(Doc, Doc)>) -> Result<TypeView, DecodeErrorView>
    decreases m, 1nat,
{
    match kind {
        Kind::Null => Ok(TypeView::Null),
        Kind::Boolean => Ok(TypeView::Boolean),
        Kind::String => match string_options(m) {
            Ok(o) => Ok(TypeView::String(o)),
            Err(e) => Err(e),
        },
        Kind::Number => match number_options(m) {
            Ok(o) => Ok(TypeView::Number(o)),
            Err(e) => Err(e),
        },
        Kind::Integer => match integer_options(m) {
            Ok(o) => Ok(TypeView::Integer(o)),
            Err(e) => Err(e),
        },
        Kind::Array => {
            let min_items = optional_count(m, "minItems"@);
            let max_items = optional_count(m, "maxItems"@);
            let items = optional_variable(m, "items"@);
            if min_items is Err {
                Err(min_items->Err_0)
            } else if max_items is Err {
                Err(max_items->Err_0)
            } else if items is Err {
                Err(items->Err_0)
            } else {
                Ok(
                    TypeView::Array(
                        ArrayOptionsView {
                            min_items: min_items->Ok_0,
                            max_items: max_items->Ok_0,
                            items: match items->Ok_0 {
                                Some(v) => Some(Box::new(v)),
                                None => None,
                            },
                        },
                    ),
                )
            }
        },
        Kind::Object => {
            let properties = variable_table(m, "properties"@);
            let required = name_set(m, "required"@);
            let additional_properties = flag(m, "additionalProperties"@);
            let object_reference = optional_text(m, "$ref"@);
            if properties is Err {
                Err(properties->Err_0)
            } else if required is Err {
                Err(required->Err_0)
            } else if additional_properties is Err {
                Err(additional_properties->Err_0)
            } else if object_reference is Err {
                Err(object_reference->Err_0)
            } else {
                Ok(
                    TypeView::Object(
                        ObjectOptionsView {
                            properties: properties->Ok_0,
                            required: required->Ok_0,
                            additional_properties: additional_properties->Ok_0,
                            object_reference: object_reference->Ok_0,
                        },
                    ),
                )
            }
        },
    }
}

/// A field that is a variable where it is set.
pub open spec fn optional_variable(m: Seq<(Doc, Doc)>, name: Seq<char>) -> Result<
    Option<VariableView>,
    DecodeErrorView,
>
    decreases m, 0nat,
{
    match key_index(m, name) {
        Some(i) => if 0 <= i < m.len() && m[i].1 != Doc::Null {
            match decode_variable(m[i].1) {
                Ok(v) => Ok(Some(v)),
                Err(e) => Err(e),
            }
        } else {
            Ok(None)
        },
        None => Ok(None),
    }
}

/// A field that is a table of named variables, and empty where it is not
/// set.
pub open spec fn variable_table(m: Seq<(Doc, Doc)>, name: Seq<char>) -> Result<
    Seq<(Seq<char>, VariableView)>,
    DecodeErrorView,
>
    decreases m, 0nat,
{
    match key_index(m, name) {
        Some(i) => if 0 <= i < m.len() {
            match m[i].1 {
                Doc::Mapping(table) => match check_keys(table, Fields::Names) {
                    Some(e) => Err(e),
                    None => named_variables(table, table.len()),
                },
                _ => Err(DecodeErrorView::InvalidField(name)),
            }
        } else {
            Ok(Seq::empty())
        },
        None => Ok(Seq::empty()),
    }
}

/// The first `n` variables of a table, or the refusal of the first that is
/// refused.
pub open spec fn named_variables(table: Seq<(Doc, Doc)>, n: nat) -> Result<
    Seq<(Seq<char>, VariableView)>,
    DecodeErrorView,
>
    decreases table, n,
{
    if n == 0 || n > table.len() {
        Ok(Seq::empty())
    } else {
        match named_variables(table, (n - 1) as nat) {
            Err(e) => Err(e),
            Ok(earlier) => match decode_variable(table[n - 1].1) {
                Err(e) => Err(e),
                Ok(v) => Ok(earlier.push((name_of(table[n - 1].0), v))),
            },
        }
    }
}

/// A type: a mapping whose `type` names one kind and whose other fields are
/// constraints of that kind.
pub open spec fn decode_type(d: Doc) -> Result<TypeView, DecodeErrorView> {
    match d {
        Doc::Mapping(m) => match value_of(m, "type"@) {
            Some(Doc::String(name)) => decode_single(name, m, false),
            Some(_) => Err(DecodeErrorView::InvalidKind),
            None => Err(DecodeErrorView::MissingField("type"@)),
        },
        _ => Err(DecodeErrorView::NotAMapping(Record::Type)),
    }
}

/// A declared error: a mapping with a `reference`.
pub open spec fn decode_error_entry(d: Doc) -> Result<ErrorEntryView, DecodeErrorView> {
    match d {
        Doc::Mapping(m) => match check_keys(m, Fields::ErrorEntry) {
            Some(e) => Err(e),
            None => match required_text(m, "reference"@) {
                Ok(reference) => Ok(ErrorEntryView { reference }),
                Err(e) => Err(e),
            },
        },
        _ => Err(DecodeErrorView::NotAMapping(Record::ErrorEntry)),
    }
}

/// The first `n` declared errors of a sequence, or the refusal of the first
/// that is refused.
pub open spec fn decode_error_entries(items: Seq<Doc>, n: nat) -> Result<
    Seq<ErrorEntryView>,
    DecodeErrorView,
>
    decreases n,
{
    if n == 0 || n > items.len() {
        Ok(Seq::empty())
    } else {
        match decode_error_entries(items, (n - 1) as nat) {
            Err(e) => Err(e),
            Ok(earlier) => match decode_error_entry(items[n - 1]) {
                Err(e) => Err(e),
                Ok(entry) => Ok(earlier.push(entry)),
            },
        }
    }
}

/// A field that is a sequence of declared errors, and empty where it is not
/// set.
pub open spec fn error_list(m: Seq<(Doc, Doc)>, name: Seq<char>) -> Result<
    Seq<ErrorEntryView>,
    DecodeErrorView,
> {
    match value_of(m, name) {
        None => Ok(Seq::empty()),
        Some(Doc::Sequence(items)) => decode_error_entries(items, items.len()),
        Some(_) => Err(DecodeErrorView::InvalidField(name)),
    }
}

/// A command: a mapping with a `description`, and optionally `arguments`
/// and a `result`.
pub open spec fn decode_command(d: Doc) -> Result<CommandView, DecodeErrorView> {
    match d {
        Doc::Mapping(m) => match check_keys(m, Fields::Command) {
            Some(e) => Err(e),
            None => {
                let description = required_text(m, "description"@);
                let arguments = variable_table(m, "arguments"@);
                let result = optional_variable(m, "result"@);
                if description is Err {
                    Err(description->Err_0)
                } else if arguments is Err {
                    Err(arguments->Err_0)
                } else if result is Err {
                    Err(result->Err_0)
                } else {
                    Ok(
                        CommandView {
                            description: description->Ok_0,
                            arguments: arguments->Ok_0,
                            result: result->Ok_0,
                        },
                    )
                }
            },
        },
        _ => Err(DecodeErrorView::NotAMapping(Record::Command)),
    }
}

/// The first `n` commands of a table, or the refusal of the first that is
/// refused.
pub open spec fn named_commands(table: Seq<(Doc, Doc)>, n: nat) -> Result<
    Seq<(Seq<char>, CommandView)>,
    DecodeErrorView,
>
    decreases n,
{
    if n == 0 || n > table.len() {
        Ok(Seq::empty())
    } else {
        match named_commands(table, (n - 1) as nat) {
            Err(e) => Err(e),
            Ok(earlier) => match decode_command(table[n - 1].1) {
                Err(e) => Err(e),
                Ok(c) => Ok(earlier.push((name_of(table[n - 1].0), c))),
            },
        }
    }
}

/// A field that is a table of named commands, and empty where it is not
/// set.
pub open spec fn command_table(m: Seq<(Doc, Doc)>, name: Seq<char>) -> Result<
    Seq<(Seq<char>, CommandView)>,
    DecodeErrorView,
> {
    match value_of(m, name) {
        None => Ok(Seq::empty()),
        Some(Doc::Mapping(table)) => match check_keys(table, Fields::Names) {
            Some(e) => Err(e),
            None => named_commands(table, table.len()),
        },
        Some(_) => Err(DecodeErrorView::InvalidField(name)),
    }
}

/// An interface: a mapping with a `description`, and optionally `cmds`,
/// `vars` and `errors`.
pub open spec fn decode_interface(d: Doc) -> Result<InterfaceView, DecodeErrorView> {
    match d {
        Doc::Mapping(m) => match check_keys(m, Fields::Interface) {
            Some(e) => Err(e),
            None => {
                let description = required_text(m, "description"@);
                let cmds = command_table(m, "cmds"@);
                let vars = variable_table(m, "vars"@);
                let errors = error_list(m, "errors"@);
                if description is Err {
                    Err(description->Err_0)
                } else if cmds is Err {
                    Err(cmds->Err_0)
                } else if vars is Err {
                    Err(vars->Err_0)
                } else if errors is Err {
                    Err(errors->Err_0)
                } else {
                    Ok(
                        InterfaceView {
                            description: description->Ok_0,
                            cmds: cmds->Ok_0,
                            vars: vars->Ok_0,
                            errors: errors->Ok_0,
                        },
                    )
                }
            },
        },
        _ => Err(DecodeErrorView::NotAMapping(Record::Interface)),
    }
}

} // verus!
