//! What holds of every decode, proved from the rules.

use vstd::prelude::*;
use crate::error::DecodeErrorView;
use crate::model::{
    command_well_formed, interface_well_formed, names_distinct, type_well_formed,
    variable_well_formed, variables_well_formed, ArgumentView, Kind, TypeView, VariableView,
};
use crate::node::Doc;
use crate::rules::{
    bare_type, check_keys, decode_argument, decode_command, decode_error_entry, decode_interface,
    decode_member, decode_members, decode_options, decode_single, decode_type, decode_variable,
    distinct, is_field, is_first_fault, is_first_key, is_option, key_fault, key_index,
    kind_named, kind_of, name_of, named_commands, named_variables, recognizes, strings_of,
    value_of, variable_table, Fields,
};

verus! {

/// A mapping that holds the key `name` has a first entry that holds it.
pub proof fn lemma_first_key_exists(m: Seq<(Doc, Doc)>, name: Seq<char>, i: int)
    requires
        0 <= i < m.len(),
        m[i].0 == Doc::String(name),
    ensures
        exists|k: int| 0 <= k <= i && is_first_key(m, name, k),
    decreases i,
{
    if exists|j: int| 0 <= j < i && (#[trigger] m[j]).0 == Doc::String(name) {
        let j = choose|j: int| 0 <= j < i && (#[trigger] m[j]).0 == Doc::String(name);
        lemma_first_key_exists(m, name, j);
    } else {
        assert(is_first_key(m, name, i));
    }
}

/// `key_index` finds the first entry with the key, and finds none only
/// where no entry has it.
pub proof fn lemma_key_index(m: Seq<(Doc, Doc)>, name: Seq<char>)
    ensures
        match key_index(m, name) {
            Some(i) => is_first_key(m, name, i),
            None => forall|i: int| 0 <= i < m.len() ==> (#[trigger] m[i]).0 != Doc::String(name),
        },
{
    if key_index(m, name) is None {
        assert forall|i: int| 0 <= i < m.len() implies (#[trigger] m[i]).0 != Doc::String(
            name,
        ) by {
            if m[i].0 == Doc::String(name) {
                lemma_first_key_exists(m, name, i);
            }
        }
    }
}

/// The first entry with a key is the one `key_index` finds.
pub proof fn lemma_key_index_is(m: Seq<(Doc, Doc)>, name: Seq<char>, i: int)
    requires
        is_first_key(m, name, i),
    ensures
        key_index(m, name) == Some(i),
        value_of(m, name) == Some(m[i].1),
{
    let k = choose|k: int| is_first_key(m, name, k);
    assert(k == i) by {
        if k < i {
            assert(m[k].0 == Doc::String(name));
        } else if i < k {
            assert(m[i].0 == Doc::String(name));
        }
    }
}

/// An entry added at the end of a mapping changes nothing for a name other
/// than its key.
pub proof fn lemma_push_keeps_others(m: Seq<(Doc, Doc)>, entry: (Doc, Doc), name: Seq<char>)
    requires
        entry.0 != Doc::String(name),
    ensures
        key_index(m.push(entry), name) == key_index(m, name),
        value_of(m.push(entry), name) == value_of(m, name),
{
    let longer = m.push(entry);
    lemma_key_index(m, name);
    match key_index(m, name) {
        Some(i) => {
            assert forall|j: int| 0 <= j < i implies (#[trigger] longer[j]).0 != Doc::String(
                name,
            ) by {
                assert(longer[j] == m[j]);
            }
            assert(longer[i] == m[i]);
            assert(is_first_key(longer, name, i));
            lemma_key_index_is(longer, name, i);
        },
        None => {
            lemma_key_index(longer, name);
            if let Some(k) = key_index(longer, name) {
                if k < m.len() {
                    assert(longer[k] == m[k]);
                }
            }
        },
    }
}

/// A mapping with a key at fault has a first key at fault.
pub proof fn lemma_first_fault_exists(m: Seq<(Doc, Doc)>, fields: Fields, i: int)
    requires
        0 <= i < m.len(),
        key_fault(m, fields, i) is Some,
    ensures
        exists|k: int| 0 <= k <= i && is_first_fault(m, fields, k),
    decreases i,
{
    if exists|j: int| 0 <= j < i && #[trigger] key_fault(m, fields, j) is Some {
        let j = choose|j: int| 0 <= j < i && #[trigger] key_fault(m, fields, j) is Some;
        lemma_first_fault_exists(m, fields, j);
    } else {
        assert(is_first_fault(m, fields, i));
    }
}

/// `check_keys` finds no fault exactly where no key of the mapping is at
/// fault.
pub proof fn lemma_check_keys(m: Seq<(Doc, Doc)>, fields: Fields)
    ensures
        check_keys(m, fields) is None <==> forall|i: int|
            0 <= i < m.len() ==> #[trigger] key_fault(m, fields, i) is None,
{
    if check_keys(m, fields) is None {
        assert forall|i: int| 0 <= i < m.len() implies #[trigger] key_fault(
            m,
            fields,
            i,
        ) is None by {
            if key_fault(m, fields, i) is Some {
                lemma_first_fault_exists(m, fields, i);
            }
        }
    }
}

/// The first entry with a key at fault is the one whose fault `check_keys`
/// gives.
pub proof fn lemma_check_keys_is(m: Seq<(Doc, Doc)>, fields: Fields, i: int)
    requires
        is_first_fault(m, fields, i),
    ensures
        check_keys(m, fields) == key_fault(m, fields, i),
{
    let k = choose|k: int| is_first_fault(m, fields, k);
    assert(k == i) by {
        if k < i {
            assert(key_fault(m, fields, k) is None);
        } else if i < k {
            assert(key_fault(m, fields, i) is None);
        }
    }
}

/// Closed records: a mapping with a key that is not a string, or that the
/// record does not recognize, or that repeats an earlier key, does not pass
/// `check_keys`.
pub proof fn lemma_faulty_key_refused(m: Seq<(Doc, Doc)>, fields: Fields, i: int)
    requires
        0 <= i < m.len(),
        key_fault(m, fields, i) is Some,
    ensures
        check_keys(m, fields) is Some,
{
    lemma_check_keys(m, fields);
}

/// An interface is closed: a mapping with a key that is not one of an
/// interface's fields is refused.
pub proof fn lemma_interface_is_closed(m: Seq<(Doc, Doc)>, i: int)
    requires
        0 <= i < m.len(),
        !is_field(m[i].0, Fields::Interface),
    ensures
        decode_interface(Doc::Mapping(m)) is Err,
{
    lemma_faulty_key_refused(m, Fields::Interface, i);
}

/// A command is closed: a mapping with a key that is not one of a command's
/// fields is refused.
pub proof fn lemma_command_is_closed(m: Seq<(Doc, Doc)>, i: int)
    requires
        0 <= i < m.len(),
        !is_field(m[i].0, Fields::Command),
    ensures
        decode_command(Doc::Mapping(m)) is Err,
{
    lemma_faulty_key_refused(m, Fields::Command, i);
}

/// A declared error is closed: a mapping with a key other than `reference`
/// is refused.
pub proof fn lemma_error_entry_is_closed(m: Seq<(Doc, Doc)>, i: int)
    requires
        0 <= i < m.len(),
        !is_field(m[i].0, Fields::ErrorEntry),
    ensures
        decode_error_entry(Doc::Mapping(m)) is Err,
{
    lemma_faulty_key_refused(m, Fields::ErrorEntry, i);
}

/// Every kind of type is closed: a mapping whose `type` names `kind` and
/// which has a key that is neither `type` nor a constraint of `kind` is
/// refused.
pub proof fn lemma_type_is_closed(m: Seq<(Doc, Doc)>, name: Seq<char>, kind: Kind, i: int)
    requires
        value_of(m, "type"@) == Some(Doc::String(name)),
        kind_named(name) == Some(kind),
        0 <= i < m.len(),
        !is_field(m[i].0, Fields::Type(kind)),
    ensures
        decode_type(Doc::Mapping(m)) is Err,
{
    lemma_faulty_key_refused(m, Fields::Type(kind), i);
}

/// A variable of a single type is closed: a mapping whose `type` names
/// `kind`, or is not set where `kind` is object, and which has a key that
/// is not `description`, `type` or a constraint of `kind`, is refused.
pub proof fn lemma_variable_is_closed(m: Seq<(Doc, Doc)>, kind: Kind, i: int)
    requires
        match value_of(m, "type"@) {
            Some(Doc::String(name)) => kind_named(name) == Some(kind),
            Some(_) => false,
            None => kind == Kind::Object,
        },
        0 <= i < m.len(),
        !is_field(m[i].0, Fields::Variable(kind)),
    ensures
        decode_variable(Doc::Mapping(m)) is Err,
{
    lemma_faulty_key_refused(m, Fields::Variable(kind), i);
    lemma_object_is_named();
}

/// The name `object` spells the kind object.
pub proof fn lemma_object_is_named()
    ensures
        kind_named("object"@) == Some(Kind::Object),
{
    reveal_strlit("object");
    reveal_strlit("null");
    reveal_strlit("boolean");
    reveal_strlit("string");
    reveal_strlit("number");
    reveal_strlit("integer");
    reveal_strlit("array");
    assert("object"@.len() == 6);
    assert("object"@[0] == 'o');
    assert("object"@[1] == 'b');
}

/// `type` is not `description`, and no kind has it as a constraint.
pub proof fn lemma_type_is_no_option()
    ensures
        "type"@ != "description"@,
        forall|kind: Kind| !#[trigger] is_option(kind, "type"@),
{
    reveal_strlit("type");
    reveal_strlit("description");
    reveal_strlit("pattern");
    reveal_strlit("format");
    reveal_strlit("maxLength");
    reveal_strlit("minLength");
    reveal_strlit("enum");
    reveal_strlit("default");
    reveal_strlit("$ref");
    reveal_strlit("minimum");
    reveal_strlit("maximum");
    reveal_strlit("minItems");
    reveal_strlit("maxItems");
    reveal_strlit("items");
    reveal_strlit("properties");
    reveal_strlit("required");
    reveal_strlit("additionalProperties");
    let t = "type"@;
    assert(t.len() == 4 && t[0] == 't');
    assert("description"@.len() == 11);
    assert("pattern"@.len() == 7);
    assert("format"@.len() == 6);
    assert("maxLength"@.len() == 9);
    assert("minLength"@.len() == 9);
    assert("enum"@[0] == 'e');
    assert("default"@.len() == 7);
    assert("$ref"@[0] == '$');
    assert("minimum"@.len() == 7);
    assert("maximum"@.len() == 7);
    assert("minItems"@.len() == 8);
    assert("maxItems"@.len() == 8);
    assert("items"@.len() == 5);
    assert("properties"@.len() == 10);
    assert("required"@.len() == 8);
    assert("additionalProperties"@.len() == 20);
}

/// A description is a string: a variable whose `description` is set to
/// anything else is refused, and for that reason.
pub proof fn lemma_description_is_text(m: Seq<(Doc, Doc)>)
    requires
        value_of(m, "description"@) is Some,
        !(value_of(m, "description"@)->Some_0 is String),
    ensures
        decode_variable(Doc::Mapping(m)) == Err::<VariableView, DecodeErrorView>(
            DecodeErrorView::InvalidField("description"@),
        ),
{
}

/// A variable whose `type` is a string is, where it decodes, of a single
/// type, and that type is of the kind that the string names.
pub proof fn lemma_single_kind(m: Seq<(Doc, Doc)>, name: Seq<char>)
    requires
        value_of(m, "type"@) == Some(Doc::String(name)),
        decode_variable(Doc::Mapping(m)) is Ok,
    ensures
        kind_named(name) is Some,
        decode_variable(Doc::Mapping(m))->Ok_0.arg is Single,
        kind_of(decode_variable(Doc::Mapping(m))->Ok_0.arg->Single_0) == kind_named(name)->Some_0,
{
}

/// A variable without a description whose `type` is a string is of the
/// single type that its own mapping decodes to as a type, and is refused
/// where that type is, for the same reason.
pub proof fn lemma_single_is_type(m: Seq<(Doc, Doc)>, name: Seq<char>)
    requires
        value_of(m, "description"@) is None,
        value_of(m, "type"@) == Some(Doc::String(name)),
    ensures
        decode_variable(Doc::Mapping(m)) == match decode_type(Doc::Mapping(m)) {
            Ok(t) => Ok::<VariableView, DecodeErrorView>(
                VariableView { description: None, arg: ArgumentView::Single(t) },
            ),
            Err(e) => Err(e),
        },
{
    if let Some(kind) = kind_named(name) {
        let described = Fields::Variable(kind);
        let bare = Fields::Type(kind);
        lemma_key_index(m, "description"@);
        assert forall|i: int|
            #![trigger key_fault(m, described, i)]
            #![trigger key_fault(m, bare, i)]
            0 <= i < m.len() implies key_fault(m, described, i) == key_fault(m, bare, i) by {
            assert(m[i].0 != Doc::String("description"@));
        }
        lemma_check_keys(m, described);
        lemma_check_keys(m, bare);
        if check_keys(m, described) is Some {
            let i = choose|i: int| is_first_fault(m, described, i);
            assert(is_first_fault(m, bare, i));
            lemma_check_keys_is(m, bare, i);
        }
    }
}

/// A constraint that a mapping does not set is at its default in the type
/// that the mapping decodes to: not set, or `false`, or empty.
pub proof fn lemma_omitted_options_are_defaults(kind: Kind, m: Seq<(Doc, Doc)>)
    requires
        decode_options(kind, m) is Ok,
    ensures
        match decode_options(kind, m)->Ok_0 {
            TypeView::Null => kind == Kind::Null,
            TypeView::Boolean => kind == Kind::Boolean,
            TypeView::String(o) => {
                &&& kind == Kind::String
                &&& value_of(m, "pattern"@) is None ==> o.pattern is None
                &&& value_of(m, "format"@) is None ==> o.format is None
                &&& value_of(m, "maxLength"@) is None ==> o.max_length is None
                &&& value_of(m, "minLength"@) is None ==> o.min_length is None
                &&& value_of(m, "enum"@) is None ==> o.enum_items is None
                &&& value_of(m, "default"@) is None ==> o.default is None
                &&& value_of(m, "$ref"@) is None ==> o.object_reference is None
            },
            TypeView::Number(o) => {
                &&& kind == Kind::Number
                &&& value_of(m, "minimum"@) is None ==> o.minimum is None
                &&& value_of(m, "maximum"@) is None ==> o.maximum is None
                &&& value_of(m, "default"@) is None ==> o.default is None
            },
            TypeView::Integer(o) => {
                &&& kind == Kind::Integer
                &&& value_of(m, "minimum"@) is None ==> o.minimum is None
                &&& value_of(m, "maximum"@) is None ==> o.maximum is None
                &&& value_of(m, "default"@) is None ==> o.default is None
            },
            TypeView::Array(o) => {
                &&& kind == Kind::Array
                &&& value_of(m, "minItems"@) is None ==> o.min_items is None
                &&& value_of(m, "maxItems"@) is None ==> o.max_items is None
                &&& value_of(m, "items"@) is None ==> o.items is None
            },
            TypeView::Object(o) => {
                &&& kind == Kind::Object
                &&& value_of(m, "properties"@) is None ==> o.properties.len() == 0
                &&& value_of(m, "required"@) is None ==> o.required.len() == 0
                &&& value_of(m, "additionalProperties"@) is None ==> !o.additional_properties
                &&& value_of(m, "$ref"@) is None ==> o.object_reference is None
            },
        },
{
}

/// A type whose mapping sets none of its kind's constraints has them all at
/// their defaults.
pub proof fn lemma_unset_options_are_defaults(kind: Kind, m: Seq<(Doc, Doc)>)
    requires
        forall|name: Seq<char>| #[trigger] is_option(kind, name) ==> value_of(m, name) is None,
    ensures
        decode_options(kind, m) == Ok::<TypeView, DecodeErrorView>(bare_type(kind)),
{
    match kind {
        Kind::Null | Kind::Boolean => {},
        Kind::String => {
            assert(is_option(kind, "pattern"@));
            assert(is_option(kind, "format"@));
            assert(is_option(kind, "maxLength"@));
            assert(is_option(kind, "minLength"@));
            assert(is_option(kind, "enum"@));
            assert(is_option(kind, "default"@));
            assert(is_option(kind, "$ref"@));
        },
        Kind::Number | Kind::Integer => {
            assert(is_option(kind, "minimum"@));
            assert(is_option(kind, "maximum"@));
            assert(is_option(kind, "default"@));
        },
        Kind::Array => {
            assert(is_option(kind, "minItems"@));
            assert(is_option(kind, "maxItems"@));
            assert(is_option(kind, "items"@));
        },
        Kind::Object => {
            assert(is_option(kind, "properties"@));
            assert(is_option(kind, "required"@));
            assert(is_option(kind, "additionalProperties"@));
            assert(is_option(kind, "$ref"@));
        },
    }
}

/// A variable of a single type whose mapping is valid and sets no
/// constraint decodes to the bare type of its kind: every constraint is at
/// its default.
pub proof fn lemma_bare_variable(m: Seq<(Doc, Doc)>, kind: Kind)
    requires
        match value_of(m, "type"@) {
            Some(Doc::String(name)) => kind_named(name) == Some(kind),
            Some(_) => false,
            None => kind == Kind::Object,
        },
        check_keys(m, Fields::Variable(kind)) is None,
        value_of(m, "description"@) is Some ==> value_of(m, "description"@)->Some_0 is String,
        forall|name: Seq<char>| #[trigger] is_option(kind, name) ==> value_of(m, name) is None,
    ensures
        decode_variable(Doc::Mapping(m)) == Ok::<VariableView, DecodeErrorView>(
            VariableView {
                description: match value_of(m, "description"@) {
                    Some(Doc::String(text)) => Some(text),
                    _ => None,
                },
                arg: ArgumentView::Single(bare_type(kind)),
            },
        ),
{
    lemma_unset_options_are_defaults(kind, m);
    lemma_object_is_named();
}

/// The first `n` members of a union decode exactly where each of them
/// does, and then there are `n` of them, each the decoding of its item, in
/// the order of the items.
pub proof fn lemma_members(items: Seq<Doc>, n: nat)
    requires
        n <= items.len(),
    ensures
        decode_members(items, n) is Ok <==> forall|i: int|
            0 <= i < n ==> #[trigger] decode_member(items[i]) is Ok,
        decode_members(items, n) is Ok ==> {
            &&& decode_members(items, n)->Ok_0.len() == n
            &&& forall|i: int|
                0 <= i < n ==> #[trigger] decode_members(items, n)->Ok_0[i] == decode_member(
                    items[i],
                )->Ok_0
        },
    decreases n,
{
    if n > 0 {
        lemma_members(items, (n - 1) as nat);
        if decode_members(items, (n - 1) as nat) is Ok && decode_member(items[n - 1]) is Ok {
            assert forall|i: int| 0 <= i < n implies #[trigger] decode_member(items[i]) is Ok by {
                if i == n - 1 {
                    assert(decode_member(items[n - 1]) is Ok);
                }
            }
        } else if decode_members(items, (n - 1) as nat) is Ok {
            assert(!(decode_member(items[n - 1]) is Ok));
        }
    }
}

/// A variable whose `type` is a sequence is a union. It decodes exactly
/// where each item names a kind, whatever else the mapping holds beside a
/// valid description. The union then has one member for each item, in the
/// order of the items, and each member is the bare type of the kind that
/// its item names.
pub proof fn lemma_union(m: Seq<(Doc, Doc)>, names: Seq<Doc>)
    requires
        value_of(m, "type"@) == Some(Doc::Sequence(names)),
        value_of(m, "description"@) is Some ==> value_of(m, "description"@)->Some_0 is String,
    ensures
        decode_variable(Doc::Mapping(m)) is Ok <==> forall|i: int|
            0 <= i < names.len() ==> #[trigger] decode_member(names[i]) is Ok,
        decode_variable(Doc::Mapping(m)) is Ok ==> {
            let v = decode_variable(Doc::Mapping(m))->Ok_0;
            &&& v.description == match value_of(m, "description"@) {
                Some(Doc::String(text)) => Some(text),
                _ => None,
            }
            &&& v.arg is Multiple
            &&& v.arg->Multiple_0.len() == names.len()
            &&& forall|i: int|
                0 <= i < names.len() ==> {
                    &&& #[trigger] names[i] is String
                    &&& kind_named(names[i]->String_0) is Some
                    &&& v.arg->Multiple_0[i] == bare_type(kind_named(names[i]->String_0)->Some_0)
                }
        },
{
    lemma_members(names, names.len());
    if decode_variable(Doc::Mapping(m)) is Ok {
        let v = decode_variable(Doc::Mapping(m))->Ok_0;
        assert(v.arg->Multiple_0 == decode_members(names, names.len())->Ok_0);
        assert forall|i: int| 0 <= i < names.len() implies {
            &&& #[trigger] names[i] is String
            &&& kind_named(names[i]->String_0) is Some
            &&& v.arg->Multiple_0[i] == bare_type(kind_named(names[i]->String_0)->Some_0)
        } by {
            assert(decode_member(names[i]) is Ok);
        }
    }
}

/// A member of a union is what a mapping with the one entry `type`, set to
/// the member's item, decodes to as a type.
pub proof fn lemma_member_is_type_alone(name: Seq<char>)
    ensures
        decode_member(Doc::String(name)) == decode_type(
            Doc::Mapping(seq![(Doc::String("type"@), Doc::String(name))]),
        ),
{
    let m = seq![(Doc::String("type"@), Doc::String(name))];
    assert(is_first_key(m, "type"@, 0));
    lemma_key_index_is(m, "type"@, 0);
    if let Some(kind) = kind_named(name) {
        let fields = Fields::Type(kind);
        assert(key_fault(m, fields, 0) is None);
        lemma_check_keys(m, fields);
        lemma_type_is_no_option();
        assert forall|option: Seq<char>| #[trigger] is_option(kind, option) implies value_of(
            m,
            option,
        ) is None by {
            assert(!is_option(kind, "type"@));
            lemma_key_index(m, option);
        }
        lemma_unset_options_are_defaults(kind, m);
    }
}

/// Leaving `type` out is the same as setting it to `object`: a mapping
/// without the key `type` decodes as it does with the entry `type: object`
/// added at its end.
pub proof fn lemma_untyped_is_object(m: Seq<(Doc, Doc)>)
    requires
        value_of(m, "type"@) is None,
    ensures
        decode_variable(Doc::Mapping(m)) == decode_variable(
            Doc::Mapping(m.push((Doc::String("type"@), Doc::String("object"@)))),
        ),
{
    let entry = (Doc::String("type"@), Doc::String("object"@));
    let typed = m.push(entry);
    let fields = Fields::Variable(Kind::Object);
    lemma_object_is_named();
    lemma_type_is_no_option();
    lemma_key_index(m, "type"@);
    assert(is_first_key(typed, "type"@, m.len() as int)) by {
        assert forall|j: int| 0 <= j < m.len() implies (#[trigger] typed[j]).0 != Doc::String(
            "type"@,
        ) by {
            assert(typed[j] == m[j]);
        }
    }
    lemma_key_index_is(typed, "type"@, m.len() as int);
    lemma_push_keeps_others(m, entry, "description"@);
    // The keys of the two mappings are at fault at the same places.
    assert forall|i: int| 0 <= i < m.len() implies #[trigger] key_fault(typed, fields, i)
        == key_fault(m, fields, i) by {
        assert(typed[i] == m[i]);
        assert forall|j: int| 0 <= j < i implies (#[trigger] typed[j]) == m[j] by {}
        if let Doc::String(name) = m[i].0 {
            if recognizes(fields, name) {
                if exists|j: int| 0 <= j < i && (#[trigger] m[j]).0 == Doc::String(name) {
                    let j = choose|j: int| 0 <= j < i && (#[trigger] m[j]).0 == Doc::String(name);
                    assert(typed[j].0 == Doc::String(name));
                } else {
                    if exists|j: int| 0 <= j < i && (#[trigger] typed[j]).0 == Doc::String(name) {
                        let j = choose|j: int|
                            0 <= j < i && (#[trigger] typed[j]).0 == Doc::String(name);
                        assert(m[j].0 == Doc::String(name));
                    }
                }
            }
        }
    }
    assert(key_fault(typed, fields, m.len() as int) is None) by {
        assert(recognizes(fields, "type"@));
        if exists|j: int| 0 <= j < m.len() && (#[trigger] typed[j]).0 == Doc::String("type"@) {
            let j = choose|j: int|
                0 <= j < m.len() && (#[trigger] typed[j]).0 == Doc::String("type"@);
            assert(typed[j] == m[j]);
        }
    }
    assert(check_keys(typed, fields) == check_keys(m, fields)) by {
        lemma_check_keys(m, fields);
        lemma_check_keys(typed, fields);
        if check_keys(m, fields) is Some {
            let i = choose|i: int| is_first_fault(m, fields, i);
            assert(is_first_fault(typed, fields, i));
            lemma_check_keys_is(typed, fields, i);
        }
    }
    // The constraints of an object are read alike from both.
    assert(!is_option(Kind::Object, "type"@));
    lemma_push_keeps_others(m, entry, "properties"@);
    lemma_push_keeps_others(m, entry, "required"@);
    lemma_push_keeps_others(m, entry, "additionalProperties"@);
    lemma_push_keeps_others(m, entry, "$ref"@);
    assert(variable_table(typed, "properties"@) == variable_table(m, "properties"@)) by {
        if let Some(i) = key_index(m, "properties"@) {
            lemma_key_index(m, "properties"@);
            assert(typed[i] == m[i]);
        }
    }
    assert(decode_options(Kind::Object, typed) == decode_options(Kind::Object, m));
    assert(decode_single("object"@, typed, true) == decode_single("object"@, m, true));
}

/// A list with repeats left out holds nothing twice, and holds what the
/// list held.
pub proof fn lemma_distinct(names: Seq<Seq<char>>, n: nat)
    requires
        n <= names.len(),
    ensures
        distinct(names, n).no_duplicates(),
        forall|name: Seq<char>|
            distinct(names, n).contains(name) <==> exists|i: int|
                0 <= i < n && #[trigger] names[i] == name,
    decreases n,
{
    if n > 0 {
        let earlier = distinct(names, (n - 1) as nat);
        let last = names[n - 1];
        lemma_distinct(names, (n - 1) as nat);
        let all = distinct(names, n);
        assert forall|name: Seq<char>| all.contains(name) <==> exists|i: int|
            0 <= i < n && #[trigger] names[i] == name by {
            if all.contains(name) {
                if earlier.contains(name) {
                    let i = choose|i: int| 0 <= i < n - 1 && #[trigger] names[i] == name;
                    assert(0 <= i < n && names[i] == name);
                } else {
                    let k = choose|k: int| 0 <= k < all.len() && all[k] == name;
                    assert(all == earlier.push(last));
                    if k < earlier.len() {
                        assert(earlier[k] == name);
                    }
                    assert(names[n - 1] == name);
                }
            }
            if exists|i: int| 0 <= i < n && #[trigger] names[i] == name {
                let i = choose|i: int| 0 <= i < n && #[trigger] names[i] == name;
                if i < n - 1 {
                    assert(earlier.contains(name));
                    let k = choose|k: int| 0 <= k < earlier.len() && earlier[k] == name;
                    if !earlier.contains(last) {
                        assert(all[k] == name);
                    }
                } else {
                    if !earlier.contains(last) {
                        assert(all[earlier.len() as int] == name);
                    }
                }
            }
        }
    }
}

/// Where no key of a table is at fault, its first `n` variables, if they
/// decode, are `n`, each under the name that its key spells, each well
/// formed, and no two under one name.
pub proof fn lemma_named_variables_well_formed(table: Seq<(Doc, Doc)>, n: nat)
    requires
        n <= table.len(),
        check_keys(table, Fields::Names) is None,
        named_variables(table, n) is Ok,
    ensures
        named_variables(table, n)->Ok_0.len() == n,
        forall|i: int|
            0 <= i < n ==> (#[trigger] named_variables(table, n)->Ok_0[i]).0 == name_of(
                table[i].0,
            ),
        variables_well_formed(named_variables(table, n)->Ok_0),
    decreases table, n,
{
    if n > 0 {
        lemma_named_variables_well_formed(table, (n - 1) as nat);
        lemma_variable_well_formed(table[n - 1].1);
        lemma_check_keys(table, Fields::Names);
        let earlier = named_variables(table, (n - 1) as nat)->Ok_0;
        let all = named_variables(table, n)->Ok_0;
        assert(all == earlier.push((name_of(table[n - 1].0), decode_variable(table[n - 1].1)->Ok_0)));
        assert forall|i: int, j: int| 0 <= i < j < all.len() implies (#[trigger] all[i]).0 != (
        #[trigger] all[j]).0 by {
            assert(key_fault(table, Fields::Names, i) is None);
            assert(key_fault(table, Fields::Names, j) is None);
            assert(all[i].0 == name_of(table[i].0));
            assert(all[j].0 == name_of(table[j].0));
            if all[i].0 == all[j].0 {
                assert(table[i].0 == Doc::String(name_of(table[j].0)));
            }
        }
        assert forall|i: int| 0 <= i < all.len() implies variable_well_formed(
            (#[trigger] all[i]).1,
        ) by {
            if i < n - 1 {
                assert(all[i] == earlier[i]);
            }
        }
    }
}

/// What a mapping decodes to as a type of `kind` is well formed.
pub proof fn lemma_options_well_formed(kind: Kind, m: Seq<(Doc, Doc)>)
    requires
        decode_options(kind, m) is Ok,
    ensures
        type_well_formed(decode_options(kind, m)->Ok_0),
    decreases m, 1nat,
{
    match kind {
        Kind::Array => {
            if let Some(i) = key_index(m, "items"@) {
                if 0 <= i < m.len() && m[i].1 != Doc::Null {
                    lemma_variable_well_formed(m[i].1);
                }
            }
        },
        Kind::Object => {
            lemma_table_well_formed(m, "properties"@);
            if let Some(Doc::Sequence(items)) = value_of(m, "required"@) {
                lemma_distinct(strings_of(items), items.len());
            }
        },
        _ => {},
    }
}

/// The table of variables that a field decodes to is well formed.
pub proof fn lemma_table_well_formed(m: Seq<(Doc, Doc)>, name: Seq<char>)
    requires
        variable_table(m, name) is Ok,
    ensures
        variables_well_formed(variable_table(m, name)->Ok_0),
    decreases m, 0nat,
{
    if let Some(i) = key_index(m, name) {
        if 0 <= i < m.len() {
            if let Doc::Mapping(table) = m[i].1 {
                lemma_named_variables_well_formed(table, table.len());
            }
        }
    }
}

/// What a document decodes to as a variable is well formed.
pub proof fn lemma_variable_well_formed(d: Doc)
    requires
        decode_variable(d) is Ok,
    ensures
        variable_well_formed(decode_variable(d)->Ok_0),
    decreases d, 0nat,
{
    if let Doc::Mapping(m) = d {
        let description = match value_of(m, "description"@) {
            Some(Doc::String(text)) => Some(text),
            _ => None,
        };
        assert(decode_variable(d) == decode_argument(m, description));
        match value_of(m, "type"@) {
            Some(Doc::String(name)) => {
                lemma_options_well_formed(kind_named(name)->Some_0, m);
            },
            Some(Doc::Sequence(names)) => {
                lemma_members(names, names.len());
                let types = decode_members(names, names.len())->Ok_0;
                assert forall|i: int| 0 <= i < types.len() implies type_well_formed(
                    #[trigger] types[i],
                ) by {
                    assert(decode_member(names[i]) is Ok);
                }
            },
            Some(_) => {},
            None => {
                lemma_object_is_named();
                lemma_options_well_formed(Kind::Object, m);
            },
        }
    }
}

/// What a document decodes to as a type is well formed.
pub proof fn lemma_type_well_formed(d: Doc)
    requires
        decode_type(d) is Ok,
    ensures
        type_well_formed(decode_type(d)->Ok_0),
{
    if let Doc::Mapping(m) = d {
        if let Some(Doc::String(name)) = value_of(m, "type"@) {
            lemma_options_well_formed(kind_named(name)->Some_0, m);
        }
    }
}

/// What a document decodes to as a command is well formed.
pub proof fn lemma_command_well_formed(d: Doc)
    requires
        decode_command(d) is Ok,
    ensures
        command_well_formed(decode_command(d)->Ok_0),
{
    if let Doc::Mapping(m) = d {
        lemma_table_well_formed(m, "arguments"@);
        if let Some(i) = key_index(m, "result"@) {
            if 0 <= i < m.len() && m[i].1 != Doc::Null {
                lemma_variable_well_formed(m[i].1);
            }
        }
    }
}

/// Where no key of a table is at fault, its first `n` commands, if they
/// decode, are `n`, each under the name that its key spells, each well
/// formed, and no two under one name.
pub proof fn lemma_named_commands_well_formed(table: Seq<(Doc, Doc)>, n: nat)
    requires
        n <= table.len(),
        check_keys(table, Fields::Names) is None,
        named_commands(table, n) is Ok,
    ensures
        named_commands(table, n)->Ok_0.len() == n,
        forall|i: int|
            0 <= i < n ==> (#[trigger] named_commands(table, n)->Ok_0[i]).0 == name_of(
                table[i].0,
            ),
        names_distinct(named_commands(table, n)->Ok_0),
        forall|i: int|
            0 <= i < n ==> command_well_formed((#[trigger] named_commands(table, n)->Ok_0[i]).1),
    decreases n,
{
    if n > 0 {
        lemma_named_commands_well_formed(table, (n - 1) as nat);
        lemma_command_well_formed(table[n - 1].1);
        lemma_check_keys(table, Fields::Names);
        let earlier = named_commands(table, (n - 1) as nat)->Ok_0;
        let all = named_commands(table, n)->Ok_0;
        assert(all == earlier.push((name_of(table[n - 1].0), decode_command(table[n - 1].1)->Ok_0)));
        assert forall|i: int, j: int| 0 <= i < j < all.len() implies (#[trigger] all[i]).0 != (
        #[trigger] all[j]).0 by {
            assert(key_fault(table, Fields::Names, i) is None);
            assert(key_fault(table, Fields::Names, j) is None);
            assert(all[i].0 == name_of(table[i].0));
            assert(all[j].0 == name_of(table[j].0));
            if all[i].0 == all[j].0 {
                assert(table[i].0 == Doc::String(name_of(table[j].0)));
            }
        }
        assert forall|i: int| 0 <= i < n implies command_well_formed((#[trigger] all[i]).1) by {
            if i < n - 1 {
                assert(all[i] == earlier[i]);
            }
        }
    }
}

/// What a document decodes to as an interface is well formed.
pub proof fn lemma_interface_well_formed(d: Doc)
    requires
        decode_interface(d) is Ok,
    ensures
        interface_well_formed(decode_interface(d)->Ok_0),
{
    if let Doc::Mapping(m) = d {
        lemma_table_well_formed(m, "vars"@);
        if let Some(Doc::Mapping(table)) = value_of(m, "cmds"@) {
            lemma_named_commands_well_formed(table, table.len());
        }
    }
}

} // verus!
