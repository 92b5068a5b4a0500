//! The typed model of an interface description, and the mathematical value
//! of each of its types.

use vstd::prelude::*;
use crate::node::Number;

verus! {

/// The seven kinds of type.
#[derive(Clone, Copy, Debug, PartialEq, Eq, Structural)]
pub enum Kind {
    Null,
    Boolean,
    String,
    Number,
    Integer,
    Array,
    Object,
}

/// The formats a string may be held to.
#[derive(Clone, Copy, Debug, PartialEq, Eq, Structural)]
pub enum StringFormat {
    DateTime,
}

/// The constraints of a string type.
#[derive(Debug, PartialEq)]
pub struct StringOptions {
    pub pattern: Option<String>,
    pub format: Option<StringFormat>,
    pub max_length: Option<usize>,
    pub min_length: Option<usize>,
    pub enum_items: Option<Vec<String>>,
    pub default: Option<String>,
    pub object_reference: Option<String>,
}

/// The constraints of a number type.
#[derive(Clone, Copy, Debug, PartialEq)]
pub struct NumberOptions {
    pub minimum: Option<Number>,
    pub maximum: Option<Number>,
    pub default: Option<Number>,
}

/// The constraints of an integer type.
#[derive(Clone, Copy, Debug, PartialEq)]
pub struct IntegerOptions {
    pub minimum: Option<i64>,
    pub maximum: Option<i64>,
    pub default: Option<i64>,
}

/// The constraints of an array type. `items` describes each element.
#[derive(Debug, PartialEq)]
pub struct ArrayOptions {
    pub min_items: Option<usize>,
    pub max_items: Option<usize>,
    pub items: Option<Box<Variable>>,
}

/// The constraints of an object type. `properties` holds each property once,
/// in document order; `required` holds each name once, in the order of its
/// first occurrence.
#[derive(Debug, PartialEq)]
pub struct ObjectOptions {
    pub properties: Vec<(String, Variable)>,
    pub required: Vec<String>,
    pub additional_properties: bool,
    pub object_reference: Option<String>,
}

/// A type: its kind, and the constraints that the kind admits.
#[derive(Debug, PartialEq)]
pub enum Type {
    Null,
    Boolean,
    String(StringOptions),
    Number(NumberOptions),
    Integer(IntegerOptions),
    Array(ArrayOptions),
    Object(ObjectOptions),
}

/// What a variable accepts: one type, or any of several.
#[derive(Debug, PartialEq)]
pub enum Argument {
    Single(Type),
    Multiple(Vec<Type>),
}

/// A described value slot.
#[derive(Debug, PartialEq)]
pub struct Variable {
    pub description: Option<String>,
    pub arg: Argument,
}

/// A command: named arguments, each once and in document order, and an
/// optional result.
#[derive(Debug, PartialEq)]
pub struct Command {
    pub description: String,
    pub arguments: Vec<(String, Variable)>,
    pub result: Option<Variable>,
}

/// A declared error.
#[derive(Clone, Debug, PartialEq)]
pub struct ErrorEntry {
    pub reference: String,
}

/// An interface: commands and variables, each name once and in document
/// order, and the declared errors.
#[derive(Debug, PartialEq)]
pub struct Interface {
    pub description: String,
    pub cmds: Vec<(String, Command)>,
    pub vars: Vec<(String, Variable)>,
    pub errors: Vec<ErrorEntry>,
}

/// The value of [`StringOptions`].
#[verifier::ext_equal]
pub struct StringOptionsView {
    pub pattern: Option<Seq<char>>,
    pub format: Option<StringFormat>,
    pub max_length: Option<usize>,
    pub min_length: Option<usize>,
    pub enum_items: Option<Seq<Seq<char>>>,
    pub default: Option<Seq<char>>,
    pub object_reference: Option<Seq<char>>,
}

/// The value of [`ArrayOptions`].
#[verifier::ext_equal]
pub struct ArrayOptionsView {
    pub min_items: Option<usize>,
    pub max_items: Option<usize>,
    pub items: Option<Box<VariableView>>,
}

/// The value of [`ObjectOptions`].
#[verifier::ext_equal]
pub struct ObjectOptionsView {
    pub properties: Seq<(Seq<char>, VariableView)>,
    pub required: Seq<Seq<char>>,
    pub additional_properties: bool,
    pub object_reference: Option<Seq<char>>,
}

/// The value of a [`Type`].
#[verifier::ext_equal]
pub enum TypeView {
    Null,
    Boolean,
    String(StringOptionsView),
    Number(NumberOptions),
    Integer(IntegerOptions),
    Array(ArrayOptionsView),
    Object(ObjectOptionsView),
}

/// The value of an [`Argument`].
#[verifier::ext_equal]
pub enum ArgumentView {
    Single(TypeView),
    Multiple(Seq<TypeView>),
}

/// The value of a [`Variable`].
#[verifier::ext_equal]
pub struct VariableView {
    pub description: Option<Seq<char>>,
    pub arg: ArgumentView,
}

/// The value of a [`Command`].
#[verifier::ext_equal]
pub struct CommandView {
    pub description: Seq<char>,
    pub arguments: Seq<(Seq<char>, VariableView)>,
    pub result: Option<VariableView>,
}

/// The value of an [`ErrorEntry`].
#[verifier::ext_equal]
pub struct ErrorEntryView {
    pub reference: Seq<char>,
}

/// The value of an [`Interface`].
#[verifier::ext_equal]
pub struct InterfaceView {
    pub description: Seq<char>,
    pub cmds: Seq<(Seq<char>, CommandView)>,
    pub vars: Seq<(Seq<char>, VariableView)>,
    pub errors: Seq<ErrorEntryView>,
}

/// The characters of an optional string.
pub open spec fn text_of(s: Option<String>) -> Option<Seq<char>> {
    match s {
        Some(s) => Some(s@),
        None => None,
    }
}

/// The value of what an option holds.
pub open spec fn optional_view<T: View>(o: Option<T>) -> Option<T::V> {
    match o {
        Some(value) => Some(value@),
        None => None,
    }
}

/// The characters of each string of a list.
pub open spec fn texts_of(items: Seq<String>) -> Seq<Seq<char>> {
    Seq::new(items.len(), |i: int| items[i]@)
}

/// The value of string constraints.
pub open spec fn string_options_view(o: StringOptions) -> StringOptionsView {
    StringOptionsView {
        pattern: text_of(o.pattern),
        format: o.format,
        max_length: o.max_length,
        min_length: o.min_length,
        enum_items: match o.enum_items {
            Some(items) => Some(texts_of(items@)),
            None => None,
        },
        default: text_of(o.default),
        object_reference: text_of(o.object_reference),
    }
}

/// The value of a variable.
pub open spec fn variable_view(v: Variable) -> VariableView
    decreases v,
{
    VariableView { description: text_of(v.description), arg: argument_view(v.arg) }
}

/// The value of an argument.
pub open spec fn argument_view(a: Argument) -> ArgumentView
    decreases a,
{
    match a {
        Argument::Single(t) => ArgumentView::Single(type_view(t)),
        Argument::Multiple(types) => ArgumentView::Multiple(
            Seq::new(
                types.len() as nat,
                |i: int|
                    if 0 <= i < types.len() {
                        type_view(types[i])
                    } else {
                        TypeView::Null
                    },
            ),
        ),
    }
}

/// The value of a type.
pub open spec fn type_view(t: Type) -> TypeView
    decreases t,
{
    match t {
        Type::Null => TypeView::Null,
        Type::Boolean => TypeView::Boolean,
        Type::String(o) => TypeView::String(string_options_view(o)),
        Type::Number(o) => TypeView::Number(o),
        Type::Integer(o) => TypeView::Integer(o),
        Type::Array(o) => TypeView::Array(
            ArrayOptionsView {
                min_items: o.min_items,
                max_items: o.max_items,
                items: match o.items {
                    Some(inner) => Some(Box::new(variable_view(*inner))),
                    None => None,
                },
            },
        ),
        Type::Object(o) => TypeView::Object(
            ObjectOptionsView {
                properties: Seq::new(
                    o.properties.len() as nat,
                    |i: int|
                        if 0 <= i < o.properties.len() {
                            (o.properties[i].0@, variable_view(o.properties[i].1))
                        } else {
                            (Seq::empty(), VariableView { description: None, arg: ArgumentView::Single(TypeView::Null) })
                        },
                ),
                required: texts_of(o.required@),
                additional_properties: o.additional_properties,
                object_reference: text_of(o.object_reference),
            },
        ),
    }
}

impl View for StringOptions {
    type V = StringOptionsView;

    open spec fn view(&self) -> StringOptionsView {
        string_options_view(*self)
    }
}

impl View for Type {
    type V = TypeView;

    open spec fn view(&self) -> TypeView {
        type_view(*self)
    }
}

impl View for Argument {
    type V = ArgumentView;

    open spec fn view(&self) -> ArgumentView {
        argument_view(*self)
    }
}

impl View for Variable {
    type V = VariableView;

    open spec fn view(&self) -> VariableView {
        variable_view(*self)
    }
}

/// The values of a list of types.
pub open spec fn types_of(types: Seq<Type>) -> Seq<TypeView> {
    Seq::new(types.len(), |i: int| types[i]@)
}

/// The values of a list of named variables.
pub open spec fn variables_of(entries: Seq<(String, Variable)>) -> Seq<(Seq<char>, VariableView)> {
    Seq::new(entries.len(), |i: int| (entries[i].0@, entries[i].1@))
}

impl View for ArrayOptions {
    type V = ArrayOptionsView;

    open spec fn view(&self) -> ArrayOptionsView {
        ArrayOptionsView {
            min_items: self.min_items,
            max_items: self.max_items,
            items: match self.items {
                Some(inner) => Some(Box::new((*inner)@)),
                None => None,
            },
        }
    }
}

impl View for ObjectOptions {
    type V = ObjectOptionsView;

    open spec fn view(&self) -> ObjectOptionsView {
        ObjectOptionsView {
            properties: variables_of(self.properties@),
            required: texts_of(self.required@),
            additional_properties: self.additional_properties,
            object_reference: text_of(self.object_reference),
        }
    }
}

impl View for Command {
    type V = CommandView;

    open spec fn view(&self) -> CommandView {
        CommandView {
            description: self.description@,
            arguments: variables_of(self.arguments@),
            result: optional_view(self.result),
        }
    }
}

impl View for ErrorEntry {
    type V = ErrorEntryView;

    open spec fn view(&self) -> ErrorEntryView {
        ErrorEntryView { reference: self.reference@ }
    }
}

/// The values of a list of named commands.
pub open spec fn commands_of(entries: Seq<(String, Command)>) -> Seq<(Seq<char>, CommandView)> {
    Seq::new(entries.len(), |i: int| (entries[i].0@, entries[i].1@))
}

/// The values of a list of declared errors.
pub open spec fn errors_of(entries: Seq<ErrorEntry>) -> Seq<ErrorEntryView> {
    Seq::new(entries.len(), |i: int| entries[i]@)
}

impl View for Interface {
    type V = InterfaceView;

    open spec fn view(&self) -> InterfaceView {
        InterfaceView {
            description: self.description@,
            cmds: commands_of(self.cmds@),
            vars: variables_of(self.vars@),
            errors: errors_of(self.errors@),
        }
    }
}

/// The value of a union is the list of its members' values.
pub proof fn lemma_multiple_view(types: Vec<Type>)
    ensures
        Argument::Multiple(types)@ == ArgumentView::Multiple(types_of(types@)),
{
    assert(Argument::Multiple(types)@->Multiple_0 =~= types_of(types@));
}

/// The value of an array type is made of its constraints' values.
pub proof fn lemma_array_view(o: ArrayOptions)
    ensures
        Type::Array(o)@ == TypeView::Array(o@),
{
}

/// The value of an object type is made of its constraints' values.
pub proof fn lemma_object_view(o: ObjectOptions)
    ensures
        Type::Object(o)@ == TypeView::Object(o@),
{
    assert(Type::Object(o)@->Object_0.properties =~= o@.properties);
}

/// Whether each name of a table occurs once.
pub open spec fn names_distinct<T>(table: Seq<(Seq<char>, T)>) -> bool {
    forall|i: int, j: int|
        0 <= i < j < table.len() ==> (#[trigger] table[i]).0 != (#[trigger] table[j]).0
}

/// Whether a variable keeps the invariants of the model: within every
/// object type, each property occurs once and each required name occurs
/// once.
pub open spec fn variable_well_formed(v: VariableView) -> bool
    decreases v,
{
    match v.arg {
        ArgumentView::Single(t) => type_well_formed(t),
        ArgumentView::Multiple(types) => forall|i: int|
            0 <= i < types.len() ==> type_well_formed(#[trigger] types[i]),
    }
}

/// Whether a type keeps the invariants of the model.
pub open spec fn type_well_formed(t: TypeView) -> bool
    decreases t,
{
    match t {
        TypeView::Array(o) => match o.items {
            Some(inner) => variable_well_formed(*inner),
            None => true,
        },
        TypeView::Object(o) => {
            &&& names_distinct(o.properties)
            &&& o.required.no_duplicates()
            &&& forall|i: int|
                0 <= i < o.properties.len() ==> variable_well_formed(
                    (#[trigger] o.properties[i]).1,
                )
        },
        _ => true,
    }
}

/// Whether each variable of a table is well formed and named once.
pub open spec fn variables_well_formed(table: Seq<(Seq<char>, VariableView)>) -> bool {
    &&& names_distinct(table)
    &&& forall|i: int| 0 <= i < table.len() ==> variable_well_formed((#[trigger] table[i]).1)
}

/// Whether a command keeps the invariants of the model: each argument
/// occurs once, and every variable in it is well formed.
pub open spec fn command_well_formed(c: CommandView) -> bool {
    &&& variables_well_formed(c.arguments)
    &&& match c.result {
        Some(v) => variable_well_formed(v),
        None => true,
    }
}

/// Whether an interface keeps the invariants of the model: each command
/// and each variable occurs once, and each is well formed.
pub open spec fn interface_well_formed(i: InterfaceView) -> bool {
    &&& names_distinct(i.cmds)
    &&& forall|k: int| 0 <= k < i.cmds.len() ==> command_well_formed((#[trigger] i.cmds[k]).1)
    &&& variables_well_formed(i.vars)
}

} // verus!
