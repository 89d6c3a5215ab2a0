//! Types the language provides itself.
//!
//! These have no source declaration, so their signatures are written here
//! instead of being collected from a program. The small builders below carry
//! the defaults, so each type reads as its shape rather than as the
//! boilerplate around it.
use vstd::prelude::*;

use crate::ast::{ClassInheritance, PassingMode, Visibility};
use crate::name_map::NameMap;
use crate::symbols::{CallableSig, CallableView, ParamSig, ParamView};
use crate::text::{ascii_key, ascii_lowered, is_ascii_text, lowercase};
use crate::type_model::TypeName;
use crate::types::{AccessorView, ClassPropertySig, ClassSig, PropertyAccessorSig, PropertyView};

verus! {

/// A by-value parameter that is not a parameter array.
pub open spec fn param_view(name: Seq<char>, ty: TypeName, is_optional: bool) -> ParamView {
    ParamView { name, mode: PassingMode::ByVal, ty, is_optional, is_param_array: false }
}

/// A public, non-generic instance `Sub`.
pub open spec fn sub_view(name: Seq<char>, params: Seq<ParamView>) -> CallableView {
    CallableView {
        visibility: Visibility::Public,
        name,
        type_params: Seq::empty(),
        generic_constraints: Seq::empty(),
        is_shared: false,
        is_iterator: false,
        is_declare: false,
        params,
        return_type: None,
    }
}

/// A public instance property with one public `Get` and no `Set`.
pub open spec fn read_only_view(name: Seq<char>, params: Seq<ParamView>, return_type: TypeName) -> PropertyView {
    PropertyView {
        name,
        is_shared: false,
        is_readonly: true,
        is_writeonly: false,
        get: seq![AccessorView { visibility: Visibility::Public, is_iterator: false, params, return_type: Some(return_type) }],
        set: Seq::empty(),
    }
}

/// `Collection.Add`: a value, then an optional key and an optional position
/// before or after an existing item.
pub open spec fn add_view() -> CallableView {
    sub_view(
        "Add"@,
        seq![
            param_view("Item"@, TypeName::Variant, false),
            param_view("Key"@, TypeName::String, true),
            param_view("Before"@, TypeName::Variant, true),
            param_view("After"@, TypeName::Variant, true),
        ],
    )
}

/// `Collection.Remove`: the index or key of the item.
pub open spec fn remove_view() -> CallableView {
    sub_view("Remove"@, seq![param_view("Index"@, TypeName::Variant, false)])
}

/// `Collection.Item`: the item at an index or key.
pub open spec fn item_view() -> PropertyView {
    read_only_view("Item"@, seq![param_view("Index"@, TypeName::Variant, false)], TypeName::Variant)
}

/// `Collection.Count`: how many items it holds.
pub open spec fn count_view() -> PropertyView {
    read_only_view("Count"@, Seq::empty(), TypeName::Int32)
}

/// Overload tables as values.
pub open spec fn overloads_view(m: Map<Seq<char>, Vec<CallableSig>>) -> Map<Seq<char>, Seq<CallableView>> {
    m.map_values(|v: Vec<CallableSig>| v@.map_values(|c: CallableSig| c@))
}

/// Property tables as values.
pub open spec fn properties_view(m: Map<Seq<char>, ClassPropertySig>) -> Map<Seq<char>, PropertyView> {
    m.map_values(|p: ClassPropertySig| p@)
}

/// Whether a class is a public, non-generic class with no base, no
/// interfaces and no members.
pub open spec fn is_empty_class(c: ClassSig, name: Seq<char>) -> bool {
    &&& c.name@ == name
    &&& c.visibility is Public
    &&& c.inheritance is Normal
    &&& c.base_class is None
    &&& c.type_params@.len() == 0
    &&& c.generic_constraints@.len() == 0
    &&& c.implements@.len() == 0
    &&& c.iterator is None
    &&& c.fields.table() == Map::<Seq<char>, crate::types::ClassFieldSig>::empty()
    &&& c.events.table() == Map::<Seq<char>, CallableSig>::empty()
    &&& c.subs.table() == Map::<Seq<char>, Vec<CallableSig>>::empty()
    &&& c.functions.table() == Map::<Seq<char>, Vec<CallableSig>>::empty()
    &&& c.properties.table() == Map::<Seq<char>, ClassPropertySig>::empty()
    &&& c.default_property is None
}

/// Whether a class is the built-in `Collection`: an ordered, optionally keyed
/// sequence of values with the subs `Add` and `Remove`, the read-only
/// properties `Item` and `Count`, and `Item` as its default property.
pub open spec fn is_collection_class(c: ClassSig) -> bool {
    &&& c.name@ == "Collection"@
    &&& c.visibility is Public
    &&& c.inheritance is Normal
    &&& c.base_class is None
    &&& c.type_params@.len() == 0
    &&& c.generic_constraints@.len() == 0
    &&& c.implements@.len() == 0
    &&& c.iterator is None
    &&& c.fields.table() == Map::<Seq<char>, crate::types::ClassFieldSig>::empty()
    &&& c.events.table() == Map::<Seq<char>, CallableSig>::empty()
    &&& c.functions.table() == Map::<Seq<char>, Vec<CallableSig>>::empty()
    &&& overloads_view(c.subs.table()) == Map::<Seq<char>, Seq<CallableView>>::empty().insert(
        "add"@,
        seq![add_view()],
    ).insert("remove"@, seq![remove_view()])
    &&& properties_view(c.properties.table()) == Map::<Seq<char>, PropertyView>::empty().insert(
        "item"@,
        item_view(),
    ).insert("count"@, count_view())
    &&& c.default_property matches Some(p) && p@ == "Item"@
}

/// The key of a built-in member name, given its lower-case form.
fn lower_key(name: &'static str, lower: &'static str) -> (r: String)
    requires
        is_ascii_text(name@),
        ascii_lowered(name@, lower@),
    ensures
        r@ == lower@,
        r@ == lowercase(name@),
{
    ascii_key(name, lower)
}

/// A by-value parameter.
fn param(name: &str, ty: TypeName, is_optional: bool) -> (p: ParamSig)
    ensures
        p@ == param_view(name@, ty, is_optional),
{
    ParamSig { name: String::from_str(name), ty, mode: PassingMode::ByVal, is_optional, is_param_array: false }
}

/// A parameter that must be supplied.
pub fn required(name: &str, ty: TypeName) -> (p: ParamSig)
    ensures
        p@ == param_view(name@, ty, false),
{
    param(name, ty, false)
}

/// A parameter that may be omitted.
pub fn optional(name: &str, ty: TypeName) -> (p: ParamSig)
    ensures
        p@ == param_view(name@, ty, true),
{
    param(name, ty, true)
}

/// A public instance `Sub`.
pub fn sub(name: &str, params: Vec<ParamSig>) -> (s: CallableSig)
    ensures
        s@ == sub_view(name@, params@.map_values(|p: ParamSig| p@)),
{
    let s = CallableSig {
        visibility: Visibility::Public,
        name: String::from_str(name),
        type_params: Vec::new(),
        generic_constraints: Vec::new(),
        is_shared: false,
        is_iterator: false,
        is_declare: false,
        params,
        return_type: None,
    };
    assert(s@.type_params =~= Seq::<Seq<char>>::empty());
    s
}

/// A public instance property with only a `Get`.
pub fn read_only_property(name: &str, params: Vec<ParamSig>, return_type: TypeName) -> (p: ClassPropertySig)
    ensures
        p@ == read_only_view(name@, params@.map_values(|q: ParamSig| q@), return_type),
{
    let ghost param_views = params@.map_values(|q: ParamSig| q@);
    let mut get: Vec<PropertyAccessorSig> = Vec::new();
    get.push(PropertyAccessorSig { visibility: Visibility::Public, is_iterator: false, params, return_type: Some(return_type) });
    let p = ClassPropertySig {
        name: String::from_str(name),
        is_shared: false,
        is_readonly: true,
        is_writeonly: false,
        get,
        set: Vec::new(),
    };
    assert(p@.get =~= seq![AccessorView { visibility: Visibility::Public, is_iterator: false, params: param_views, return_type: Some(return_type) }]);
    assert(p@.set =~= Seq::<AccessorView>::empty());
    p
}

/// An empty public class with no base, no members and no generics.
pub fn class(name: &str) -> (c: ClassSig)
    ensures
        is_empty_class(c, name@),
{
    ClassSig {
        name: String::from_str(name),
        type_params: Vec::new(),
        generic_constraints: Vec::new(),
        inheritance: ClassInheritance::Normal,
        base_class: None,
        implements: Vec::new(),
        visibility: Visibility::Public,
        fields: NameMap::new(),
        subs: NameMap::new(),
        functions: NameMap::new(),
        properties: NameMap::new(),
        events: NameMap::new(),
        iterator: None,
        default_property: None,
    }
}

/// `Collection`: an ordered, optionally keyed sequence of values; indexing
/// it reaches `Item`. No iterator is registered for it.
pub fn collection() -> (c: ClassSig)
    ensures
        is_collection_class(c),
{
    let mut sig = class("Collection");
    let mut add_params: Vec<ParamSig> = Vec::new();
    add_params.push(required("Item", TypeName::Variant));
    add_params.push(optional("Key", TypeName::String));
    add_params.push(optional("Before", TypeName::Variant));
    add_params.push(optional("After", TypeName::Variant));
    let ghost add_param_views = add_params@.map_values(|p: ParamSig| p@);
    assert(add_param_views =~= add_view().params);
    let mut add: Vec<CallableSig> = Vec::new();
    add.push(self::sub("Add", add_params));
    let ghost add_views = add@.map_values(|c: CallableSig| c@);
    assert(add_views =~= seq![add_view()]);
    proof {
        reveal_strlit("Add");
        reveal_strlit("add");
    }
    sig.subs.insert(lower_key("Add", "add"), add);
    let mut remove_params: Vec<ParamSig> = Vec::new();
    remove_params.push(required("Index", TypeName::Variant));
    assert(remove_params@.map_values(|p: ParamSig| p@) =~= remove_view().params);
    let mut remove: Vec<CallableSig> = Vec::new();
    remove.push(self::sub("Remove", remove_params));
    let ghost remove_views = remove@.map_values(|c: CallableSig| c@);
    assert(remove_views =~= seq![remove_view()]);
    proof {
        reveal_strlit("Remove");
        reveal_strlit("remove");
    }
    sig.subs.insert(lower_key("Remove", "remove"), remove);
    let mut item_params: Vec<ParamSig> = Vec::new();
    item_params.push(required("Index", TypeName::Variant));
    assert(item_params@.map_values(|p: ParamSig| p@) =~= seq![param_view("Index"@, TypeName::Variant, false)]);
    proof {
        reveal_strlit("Item");
        reveal_strlit("item");
    }
    sig.properties.insert(lower_key("Item", "item"), read_only_property("Item", item_params, TypeName::Variant));
    let count_params: Vec<ParamSig> = Vec::new();
    assert(count_params@.map_values(|p: ParamSig| p@) =~= Seq::<ParamView>::empty());
    proof {
        reveal_strlit("Count");
        reveal_strlit("count");
    }
    sig.properties.insert(lower_key("Count", "count"), read_only_property("Count", count_params, TypeName::Int32));
    sig.default_property = Some(String::from_str("Item"));
    assert(overloads_view(sig.subs.table()) =~= Map::<Seq<char>, Seq<CallableView>>::empty().insert(
        "add"@,
        seq![add_view()],
    ).insert("remove"@, seq![remove_view()]));
    assert(properties_view(sig.properties.table()) =~= Map::<Seq<char>, PropertyView>::empty().insert(
        "item"@,
        item_view(),
    ).insert("count"@, count_view()));
    sig
}

/// Adds every built-in class to a type registry's class table, under its
/// lower-cased name.
pub fn register_classes(classes: &mut NameMap<ClassSig>)
    ensures
        final(classes).table().contains_key("collection"@),
        is_collection_class(final(classes).table()["collection"@]),
        final(classes).table() == old(classes).table().insert(
            "collection"@,
            final(classes).table()["collection"@],
        ),
{
    let collection = collection();
    proof {
        reveal_strlit("Collection");
        reveal_strlit("collection");
    }
    let name_key = lower_key("Collection", "collection");
    classes.insert(name_key, collection);
}

} // verus!
