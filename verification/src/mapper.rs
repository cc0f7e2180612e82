//! The Type Mapper: turns a (possibly referenced) schema node into a Property.
//!
//! Policies, each stated by the spec model below:
//! - primitives map to the matching property type, integers folding into
//!   numbers;
//! - objects recurse into their declared members (a member is omitted only if
//!   its own mapping fails), arrays into their declared item schema (an array
//!   without one fails);
//! - `oneOf` and `anyOf` map their first alternative only; an empty list
//!   degrades to a propertyless object;
//! - `allOf` merges the object members and required-name lists of all
//!   constituents, later-listed duplicate keys overriding earlier ones;
//! - `not` and unconstrained schemas degrade to a propertyless object;
//! - requiredness: a declared default wins; otherwise a node is required
//!   exactly when the enclosing schema's required-name list contains the
//!   node's own declared title (a known fragility of the format: a nested
//!   schema without a title is never required this way); member properties
//!   are named by their key, an array item by nothing.
//!
//! Reference chases inside the tree are bounded: a chain of schema
//! indirections deeper than the schema table must revisit an entry, and is
//! reported as a reference cycle.

use vstd::prelude::*;

use crate::document::{RefOr, Schema, SchemaData, SchemaKind};
use crate::error::{Error, ErrorV};
use crate::ir::{
    MCPToolProperty, MCPToolPropertyRequired, MCPToolPropertyType, PropertyRequiredV, PropertyTypeV,
    PropertyV, Value,
};
use crate::names::spec_contains_name;
use crate::resolver::{resolve_schema, spec_resolve, spec_resolve_err, Resolved};
use crate::text::opt_string_copy;

verus! {

/// Outcome of mapping one schema node.
pub enum Mapped {
    /// The node maps to this property.
    Prop(PropertyV),
    /// The node's own mapping fails (an array without an item schema): the
    /// node is omitted, which is fatal only where a property was needed.
    Skipped,
    /// Resolution failed underneath the node.
    Fail(ErrorV),
}

/// Outcome of mapping a member list.
pub enum MappedList {
    Props(Seq<PropertyV>),
    Fail(ErrorV),
}

/// Outcome of merging the constituents of an `allOf`.
pub enum MergedAllOf {
    Merged(Seq<(String, RefOr<Schema>)>, Seq<String>),
    Fail(ErrorV),
}

/// The node's declared title, or nothing.
pub open spec fn spec_title(d: SchemaData) -> Seq<char> {
    match d.title {
        Some(t) => t@,
        None => Seq::empty(),
    }
}

/// Requiredness policy: a declared default wins; otherwise the node is
/// required exactly when the enclosing required-name list holds its title.
pub open spec fn spec_requiredness(d: SchemaData, enclosing_required: Seq<String>) -> PropertyRequiredV {
    match d.default {
        Some(v) => PropertyRequiredV::DefaultValue(v@),
        None => if spec_contains_name(enclosing_required, spec_title(d)) {
            PropertyRequiredV::Required
        } else {
            PropertyRequiredV::Optional
        },
    }
}

/// A borrowed member list, as the owned pairs it stands for.
pub open spec fn deref_pairs(s: Seq<(&String, &RefOr<Schema>)>) -> Seq<(String, RefOr<Schema>)> {
    s.map_values(|p: (&String, &RefOr<Schema>)| (*p.0, *p.1))
}

/// `acc` with one member pair added: an existing key is overridden in place,
/// a new key is appended.
pub open spec fn spec_override_one(
    acc: Seq<(String, RefOr<Schema>)>,
    pair: (String, RefOr<Schema>),
) -> Seq<(String, RefOr<Schema>)>
    decreases acc.len(),
{
    if acc.len() == 0 {
        seq![pair]
    } else if acc[0].0@ == pair.0@ {
        seq![pair] + acc.drop_first()
    } else {
        seq![acc[0]] + spec_override_one(acc.drop_first(), pair)
    }
}

/// `acc` with every pair of `new` added in order.
pub open spec fn spec_override(
    acc: Seq<(String, RefOr<Schema>)>,
    new: Seq<(String, RefOr<Schema>)>,
) -> Seq<(String, RefOr<Schema>)>
    decreases new.len(),
{
    if new.len() == 0 {
        acc
    } else {
        spec_override(spec_override_one(acc, new[0]), new.drop_first())
    }
}

/// Folds the constituents of an `allOf` into one member list and one
/// required-name list; a constituent that does not resolve fails the merge,
/// one that is not an object contributes nothing.
pub open spec fn spec_merge_allof(
    schemas: Seq<(String, RefOr<Schema>)>,
    list: Seq<RefOr<Schema>>,
    acc_props: Seq<(String, RefOr<Schema>)>,
    acc_req: Seq<String>,
) -> MergedAllOf
    decreases list.len(),
{
    if list.len() == 0 {
        MergedAllOf::Merged(acc_props, acc_req)
    } else {
        match spec_resolve(schemas, list[0], schemas.len() as nat) {
            Resolved::Found(s) => {
                match s.kind {
                    SchemaKind::Object { properties, required } => spec_merge_allof(
                        schemas,
                        list.drop_first(),
                        spec_override(acc_props, properties@),
                        acc_req + required@,
                    ),
                    _ => spec_merge_allof(schemas, list.drop_first(), acc_props, acc_req),
                }
            },
            other => MergedAllOf::Fail(spec_resolve_err(other)),
        }
    }
}

/// Maps a possibly referenced schema node. `fuel` bounds the reference jumps
/// along one path of the tree.
pub open spec fn spec_map_ref(
    schemas: Seq<(String, RefOr<Schema>)>,
    r: RefOr<Schema>,
    name: Seq<char>,
    enclosing_required: Seq<String>,
    fuel: nat,
) -> Mapped
    decreases fuel, r,
{
    match r {
        RefOr::Item(s) => spec_map_item(schemas, s, name, enclosing_required, fuel),
        RefOr::Ref(p) => match spec_resolve(schemas, r, schemas.len() as nat) {
            Resolved::Found(s) => if fuel == 0 {
                Mapped::Fail(ErrorV::ReferenceCycle(p@))
            } else {
                spec_map_item(schemas, s, name, enclosing_required, (fuel - 1) as nat)
            },
            other => Mapped::Fail(spec_resolve_err(other)),
        },
    }
}

/// Maps a resolved schema node.
pub open spec fn spec_map_item(
    schemas: Seq<(String, RefOr<Schema>)>,
    s: Schema,
    name: Seq<char>,
    enclosing_required: Seq<String>,
    fuel: nat,
) -> Mapped
    decreases fuel, s,
{
    let required = spec_requiredness(s.data, enclosing_required);
    let description = crate::ir::opt_str_view(s.data.description);
    match s.kind {
        SchemaKind::String => Mapped::Prop(
            PropertyV { name, description, required, type_: PropertyTypeV::String },
        ),
        SchemaKind::Number => Mapped::Prop(
            PropertyV { name, description, required, type_: PropertyTypeV::Number },
        ),
        SchemaKind::Integer => Mapped::Prop(
            PropertyV { name, description, required, type_: PropertyTypeV::Number },
        ),
        SchemaKind::Boolean => Mapped::Prop(
            PropertyV { name, description, required, type_: PropertyTypeV::Boolean },
        ),
        SchemaKind::Object { properties, required: req_names } => {
            match spec_map_members(schemas, properties@, req_names@, fuel) {
                MappedList::Props(members) => Mapped::Prop(
                    PropertyV { name, description, required, type_: PropertyTypeV::Object(members) },
                ),
                MappedList::Fail(e) => Mapped::Fail(e),
            }
        },
        SchemaKind::Array { items } => {
            match items {
                None => Mapped::Skipped,
                Some(item) => match spec_map_ref(
                    schemas,
                    *item,
                    Seq::empty(),
                    Seq::empty(),
                    fuel,
                ) {
                    Mapped::Prop(p) => Mapped::Prop(
                        PropertyV {
                            name,
                            description,
                            required,
                            type_: PropertyTypeV::Array(Box::new(p)),
                        },
                    ),
                    other => other,
                },
            }
        },
        SchemaKind::OneOf(list) => if list@.len() == 0 {
            Mapped::Prop(
                PropertyV {
                    name,
                    description,
                    required,
                    type_: PropertyTypeV::Object(Seq::empty()),
                },
            )
        } else {
            spec_map_ref(schemas, list@[0], name, enclosing_required, fuel)
        },
        SchemaKind::AnyOf(list) => if list@.len() == 0 {
            Mapped::Prop(
                PropertyV {
                    name,
                    description,
                    required,
                    type_: PropertyTypeV::Object(Seq::empty()),
                },
            )
        } else {
            spec_map_ref(schemas, list@[0], name, enclosing_required, fuel)
        },
        SchemaKind::AllOf(list) => if fuel == 0 {
            Mapped::Fail(ErrorV::ReferenceCycle("allOf"@))
        } else {
            match spec_merge_allof(schemas, list@, Seq::empty(), Seq::empty()) {
                MergedAllOf::Merged(props, reqs) => {
                    match spec_map_members(schemas, props, reqs, (fuel - 1) as nat) {
                        MappedList::Props(members) => Mapped::Prop(
                            PropertyV {
                                name,
                                description,
                                required,
                                type_: PropertyTypeV::Object(members),
                            },
                        ),
                        MappedList::Fail(e) => Mapped::Fail(e),
                    }
                },
                MergedAllOf::Fail(e) => Mapped::Fail(e),
            }
        },
        SchemaKind::Not => Mapped::Prop(
            PropertyV { name, description, required, type_: PropertyTypeV::Object(Seq::empty()) },
        ),
        SchemaKind::Any => Mapped::Prop(
            PropertyV { name, description, required, type_: PropertyTypeV::Object(Seq::empty()) },
        ),
    }
}

/// Maps a member list in order. A member is named by its key; one whose own
/// mapping fails is omitted; a resolution failure fails the whole list.
pub open spec fn spec_map_members(
    schemas: Seq<(String, RefOr<Schema>)>,
    members: Seq<(String, RefOr<Schema>)>,
    required: Seq<String>,
    fuel: nat,
) -> MappedList
    decreases fuel, members,
{
    if members.len() == 0 {
        MappedList::Props(Seq::empty())
    } else {
        match spec_map_ref(schemas, members[0].1, members[0].0@, required, fuel) {
            Mapped::Fail(e) => MappedList::Fail(e),
            Mapped::Skipped => spec_map_members(schemas, members.drop_first(), required, fuel),
            Mapped::Prop(p) => match spec_map_members(
                schemas,
                members.drop_first(),
                required,
                fuel,
            ) {
                MappedList::Props(rest) => MappedList::Props(seq![p] + rest),
                MappedList::Fail(e) => MappedList::Fail(e),
            },
        }
    }
}

/// A propertyless object property: what degraded schema kinds map to.
fn empty_object_prop(
    name: &str,
    description: Option<String>,
    required: MCPToolPropertyRequired,
) -> (r: MCPToolProperty)
    ensures
        r@ == (PropertyV {
            name: name@,
            description: crate::ir::opt_str_view(description),
            required: required@,
            type_: PropertyTypeV::Object(Seq::empty()),
        }),
{
    let members: Vec<MCPToolProperty> = Vec::new();
    proof {
        assert(crate::ir::properties_view(members@) =~= Seq::<PropertyV>::empty());
    }
    MCPToolProperty { name: name.to_owned(), description, required, type_: MCPToolPropertyType::Object(members) }
}

/// A copy of a literal value.
pub fn clone_value(v: &Value) -> (r: Value)
    ensures
        r@ == v@,
{
    match v {
        Value::String(s) => Value::String(s.clone()),
        Value::Number(s) => Value::Number(s.clone()),
        Value::Boolean(b) => Value::Boolean(*b),
    }
}

/// Computes the requiredness of one node.
pub fn requiredness(d: &SchemaData, enclosing_required: &Vec<String>) -> (r:
    MCPToolPropertyRequired)
    ensures
        r@ == spec_requiredness(*d, enclosing_required@),
{
    match &d.default {
        Some(v) => MCPToolPropertyRequired::DefaultValue(clone_value(v)),
        None => {
            let title: &str = match &d.title {
                Some(t) => t.as_str(),
                None => "",
            };
            proof {
                reveal_strlit("");
                assert(""@ =~= Seq::<char>::empty());
                assert(title@ == spec_title(*d));
            }
            if crate::names::contains_name(enclosing_required, title) {
                MCPToolPropertyRequired::Required
            } else {
                MCPToolPropertyRequired::Optional
            }
        },
    }
}

/// Maps a possibly referenced schema node into a Property named `name`.
pub fn map_schema_ref<'a>(
    schemas: &'a Vec<(String, RefOr<Schema>)>,
    r: &'a RefOr<Schema>,
    name: &str,
    enclosing_required: &Vec<String>,
    fuel: usize,
) -> (res: Result<Option<MCPToolProperty>, Error>)
    ensures
        match res {
            Ok(Some(p)) => spec_map_ref(schemas@, *r, name@, enclosing_required@, fuel as nat)
                == Mapped::Prop(p@),
            Ok(None) => spec_map_ref(schemas@, *r, name@, enclosing_required@, fuel as nat)
                == Mapped::Skipped,
            Err(e) => spec_map_ref(schemas@, *r, name@, enclosing_required@, fuel as nat)
                == Mapped::Fail(e@),
        },
    decreases fuel, *r,
{
    match r {
        RefOr::Item(s) => map_schema_item(schemas, s, name, enclosing_required, fuel),
        RefOr::Ref(p) => {
            match resolve_schema(schemas, r) {
                Ok(s) => {
                    if fuel == 0 {
                        return Err(Error::ReferenceCycle(p.clone()));
                    }
                    map_schema_item(schemas, s, name, enclosing_required, fuel - 1)
                },
                Err(e) => Err(e),
            }
        },
    }
}

/// Maps a resolved schema node into a Property named `name`.
pub fn map_schema_item<'a>(
    schemas: &'a Vec<(String, RefOr<Schema>)>,
    s: &'a Schema,
    name: &str,
    enclosing_required: &Vec<String>,
    fuel: usize,
) -> (res: Result<Option<MCPToolProperty>, Error>)
    ensures
        match res {
            Ok(Some(p)) => spec_map_item(schemas@, *s, name@, enclosing_required@, fuel as nat)
                == Mapped::Prop(p@),
            Ok(None) => spec_map_item(schemas@, *s, name@, enclosing_required@, fuel as nat)
                == Mapped::Skipped,
            Err(e) => spec_map_item(schemas@, *s, name@, enclosing_required@, fuel as nat)
                == Mapped::Fail(e@),
        },
    decreases fuel, *s,
{
    let required = requiredness(&s.data, enclosing_required);
    let description = opt_string_copy(&s.data.description);
    let owned_name = name.to_owned();
    match &s.kind {
        SchemaKind::String => Ok(
            Some(
                MCPToolProperty {
                    name: owned_name,
                    description,
                    required,
                    type_: MCPToolPropertyType::String,
                },
            ),
        ),
        SchemaKind::Number => Ok(
            Some(
                MCPToolProperty {
                    name: owned_name,
                    description,
                    required,
                    type_: MCPToolPropertyType::Number,
                },
            ),
        ),
        SchemaKind::Integer => Ok(
            Some(
                MCPToolProperty {
                    name: owned_name,
                    description,
                    required,
                    type_: MCPToolPropertyType::Number,
                },
            ),
        ),
        SchemaKind::Boolean => Ok(
            Some(
                MCPToolProperty {
                    name: owned_name,
                    description,
                    required,
                    type_: MCPToolPropertyType::Boolean,
                },
            ),
        ),
        SchemaKind::Object { properties, required: req_names } => {
            match map_members(schemas, properties, req_names, fuel) {
                Ok(members) => Ok(
                    Some(
                        MCPToolProperty {
                            name: owned_name,
                            description,
                            required,
                            type_: MCPToolPropertyType::Object(members),
                        },
                    ),
                ),
                Err(e) => Err(e),
            }
        },
        SchemaKind::Array { items } => {
            match items {
                None => Ok(None),
                Some(item) => {
                    let no_required: Vec<String> = Vec::new();
                    proof {
                        reveal_strlit("");
                        assert(""@ =~= Seq::<char>::empty());
                    }
                    match map_schema_ref(schemas, item, "", &no_required, fuel) {
                        Ok(Some(p)) => Ok(
                            Some(
                                MCPToolProperty {
                                    name: owned_name,
                                    description,
                                    required,
                                    type_: MCPToolPropertyType::Array(Box::new(p)),
                                },
                            ),
                        ),
                        Ok(None) => Ok(None),
                        Err(e) => Err(e),
                    }
                },
            }
        },
        SchemaKind::OneOf(list) => {
            if list.len() == 0 {
                Ok(Some(empty_object_prop(name, description, required)))
            } else {
                map_schema_ref(schemas, &list[0], name, enclosing_required, fuel)
            }
        },
        SchemaKind::AnyOf(list) => {
            if list.len() == 0 {
                Ok(Some(empty_object_prop(name, description, required)))
            } else {
                map_schema_ref(schemas, &list[0], name, enclosing_required, fuel)
            }
        },
        SchemaKind::AllOf(list) => {
            if fuel == 0 {
                return Err(Error::ReferenceCycle("allOf".to_owned()));
            }
            match merge_allof(schemas, list) {
                Ok((props, reqs)) => {
                    match map_members_refs(schemas, &props, &reqs, fuel - 1) {
                        Ok(members) => Ok(
                            Some(
                                MCPToolProperty {
                                    name: owned_name,
                                    description,
                                    required,
                                    type_: MCPToolPropertyType::Object(members),
                                },
                            ),
                        ),
                        Err(e) => Err(e),
                    }
                },
                Err(e) => Err(e),
            }
        },
        SchemaKind::Not => Ok(Some(empty_object_prop(name, description, required))),
        SchemaKind::Any => Ok(Some(empty_object_prop(name, description, required))),
    }
}

/// Maps a document member list in order.
fn map_members<'a>(
    schemas: &'a Vec<(String, RefOr<Schema>)>,
    members: &'a Vec<(String, RefOr<Schema>)>,
    required: &Vec<String>,
    fuel: usize,
) -> (res: Result<Vec<MCPToolProperty>, Error>)
    ensures
        match res {
            Ok(props) => spec_map_members(schemas@, members@, required@, fuel as nat)
                == MappedList::Props(crate::ir::properties_view(props@)),
            Err(e) => spec_map_members(schemas@, members@, required@, fuel as nat)
                == MappedList::Fail(e@),
        },
    decreases fuel, members@,
{
    let mut out: Vec<MCPToolProperty> = Vec::new();
    let mut i: usize = 0;
    proof {
        assert(members@.subrange(0, members@.len() as int) =~= members@);
        assert(crate::ir::properties_view(out@) =~= Seq::<PropertyV>::empty());
    }
    while i < members.len()
        invariant
            i <= members@.len(),
            match spec_map_members(
                schemas@,
                members@.subrange(i as int, members@.len() as int),
                required@,
                fuel as nat,
            ) {
                MappedList::Props(rest) => spec_map_members(
                    schemas@,
                    members@,
                    required@,
                    fuel as nat,
                ) == MappedList::Props(crate::ir::properties_view(out@) + rest),
                MappedList::Fail(e) => spec_map_members(
                    schemas@,
                    members@,
                    required@,
                    fuel as nat,
                ) == MappedList::Fail(e),
            },
        decreases members@.len() - i,
    {
        let ghost rest = members@.subrange(i as int, members@.len() as int);
        let ghost rest2 = members@.subrange(i as int + 1, members@.len() as int);
        proof {
            assert(rest[0] == members@[i as int]);
            assert(rest.drop_first() =~= rest2);
        }
        match map_schema_ref(schemas, &members[i].1, members[i].0.as_str(), required, fuel) {
            Err(e) => {
                return Err(e);
            },
            Ok(Some(p)) => {
                let ghost out0 = out@;
                let ghost pprop = p;
                out.push(p);
                proof {
                    assert(out@ == out0.push(pprop));
                    properties_view_push(out0, pprop);
                    match spec_map_members(schemas@, rest2, required@, fuel as nat) {
                        MappedList::Props(r2) => {
                            assert(crate::ir::properties_view(out@) + r2
                                =~= crate::ir::properties_view(out0) + (seq![
                                crate::ir::property_view(pprop),
                            ] + r2));
                        },
                        MappedList::Fail(_) => {},
                    }
                }
            },
            Ok(None) => {},
        }
        i = i + 1;
    }
    proof {
        assert(members@.subrange(members@.len() as int, members@.len() as int) =~= Seq::<
            (String, RefOr<Schema>),
        >::empty());
        assert(crate::ir::properties_view(out@) + Seq::<PropertyV>::empty()
            =~= crate::ir::properties_view(out@));
    }
    Ok(out)
}

/// Maps a merged (borrowed) member list in order.
fn map_members_refs<'a>(
    schemas: &'a Vec<(String, RefOr<Schema>)>,
    members: &Vec<(&'a String, &'a RefOr<Schema>)>,
    required: &Vec<String>,
    fuel: usize,
) -> (res: Result<Vec<MCPToolProperty>, Error>)
    ensures
        match res {
            Ok(props) => spec_map_members(schemas@, deref_pairs(members@), required@, fuel as nat)
                == MappedList::Props(crate::ir::properties_view(props@)),
            Err(e) => spec_map_members(schemas@, deref_pairs(members@), required@, fuel as nat)
                == MappedList::Fail(e@),
        },
    decreases fuel, members@,
{
    let ghost all = deref_pairs(members@);
    let mut out: Vec<MCPToolProperty> = Vec::new();
    let mut i: usize = 0;
    proof {
        assert(all.subrange(0, all.len() as int) =~= all);
        assert(crate::ir::properties_view(out@) =~= Seq::<PropertyV>::empty());
    }
    while i < members.len()
        invariant
            i <= members@.len(),
            all == deref_pairs(members@),
            match spec_map_members(
                schemas@,
                all.subrange(i as int, all.len() as int),
                required@,
                fuel as nat,
            ) {
                MappedList::Props(rest) => spec_map_members(schemas@, all, required@, fuel as nat)
                    == MappedList::Props(crate::ir::properties_view(out@) + rest),
                MappedList::Fail(e) => spec_map_members(schemas@, all, required@, fuel as nat)
                    == MappedList::Fail(e),
            },
        decreases members@.len() - i,
    {
        let ghost rest = all.subrange(i as int, all.len() as int);
        let ghost rest2 = all.subrange(i as int + 1, all.len() as int);
        proof {
            assert(rest[0] == all[i as int]);
            assert(rest.drop_first() =~= rest2);
        }
        match map_schema_ref(schemas, members[i].1, members[i].0.as_str(), required, fuel) {
            Err(e) => {
                return Err(e);
            },
            Ok(Some(p)) => {
                let ghost out0 = out@;
                let ghost pprop = p;
                out.push(p);
                proof {
                    assert(out@ == out0.push(pprop));
                    properties_view_push(out0, pprop);
                    match spec_map_members(schemas@, rest2, required@, fuel as nat) {
                        MappedList::Props(r2) => {
                            assert(crate::ir::properties_view(out@) + r2
                                =~= crate::ir::properties_view(out0) + (seq![
                                crate::ir::property_view(pprop),
                            ] + r2));
                        },
                        MappedList::Fail(_) => {},
                    }
                }
            },
            Ok(None) => {},
        }
        i = i + 1;
    }
    proof {
        assert(all.subrange(all.len() as int, all.len() as int) =~= Seq::<
            (String, RefOr<Schema>),
        >::empty());
        assert(crate::ir::properties_view(out@) + Seq::<PropertyV>::empty()
            =~= crate::ir::properties_view(out@));
    }
    Ok(out)
}

/// Appending one property extends the viewed list by its view.
pub proof fn properties_view_push(s: Seq<MCPToolProperty>, p: MCPToolProperty)
    ensures
        crate::ir::properties_view(s.push(p)) == crate::ir::properties_view(s) + seq![
            crate::ir::property_view(p),
        ],
    decreases s.len(),
{
    let whole = s.push(p);
    if s.len() == 0 {
        assert(whole.drop_first() =~= Seq::<MCPToolProperty>::empty());
        assert(whole[0] == p);
        assert(crate::ir::properties_view(whole) == seq![crate::ir::property_view(p)]
            + crate::ir::properties_view(whole.drop_first()));
        assert(crate::ir::properties_view(whole) =~= seq![crate::ir::property_view(p)]);
        assert(crate::ir::properties_view(s) + seq![crate::ir::property_view(p)] =~= seq![
            crate::ir::property_view(p),
        ]);
    } else {
        properties_view_push(s.drop_first(), p);
        assert(whole.drop_first() =~= s.drop_first().push(p));
        assert(whole[0] == s[0]);
        assert(crate::ir::properties_view(whole) == seq![crate::ir::property_view(s[0])]
            + crate::ir::properties_view(s.drop_first().push(p)));
        assert(crate::ir::properties_view(s.push(p)) =~= crate::ir::properties_view(s) + seq![
            crate::ir::property_view(p),
        ]);
    }
}

/// Merges the constituents of an `allOf` into one borrowed member list and
/// one required-name list.
fn merge_allof<'a>(schemas: &'a Vec<(String, RefOr<Schema>)>, list: &'a Vec<RefOr<Schema>>) -> (res:
    Result<(Vec<(&'a String, &'a RefOr<Schema>)>, Vec<String>), Error>)
    ensures
        match res {
            Ok(pair) => spec_merge_allof(schemas@, list@, Seq::empty(), Seq::empty())
                == MergedAllOf::Merged(deref_pairs(pair.0@), pair.1@),
            Err(e) => spec_merge_allof(schemas@, list@, Seq::empty(), Seq::empty())
                == MergedAllOf::Fail(e@),
        },
{
    let mut props: Vec<(&'a String, &'a RefOr<Schema>)> = Vec::new();
    let mut reqs: Vec<String> = Vec::new();
    let mut i: usize = 0;
    proof {
        assert(deref_pairs(props@) =~= Seq::<(String, RefOr<Schema>)>::empty());
        assert(reqs@ =~= Seq::<String>::empty());
        assert(list@.subrange(0, list@.len() as int) =~= list@);
    }
    while i < list.len()
        invariant
            i <= list@.len(),
            spec_merge_allof(schemas@, list@, Seq::empty(), Seq::empty()) == spec_merge_allof(
                schemas@,
                list@.subrange(i as int, list@.len() as int),
                deref_pairs(props@),
                reqs@,
            ),
        decreases list@.len() - i,
    {
        let ghost rest = list@.subrange(i as int, list@.len() as int);
        let ghost rest2 = list@.subrange(i as int + 1, list@.len() as int);
        proof {
            assert(rest[0] == list@[i as int]);
            assert(rest.drop_first() =~= rest2);
        }
        match resolve_schema(schemas, &list[i]) {
            Err(e) => {
                return Err(e);
            },
            Ok(s) => {
                match &s.kind {
                    SchemaKind::Object { properties, required } => {
                        let ghost props0 = deref_pairs(props@);
                        let ghost reqs0 = reqs@;
                        let mut j: usize = 0;
                        proof {
                            assert(properties@.subrange(0, properties@.len() as int)
                                =~= properties@);
                        }
                        while j < properties.len()
                            invariant
                                j <= properties@.len(),
                                reqs@ == reqs0,
                                spec_override(props0, properties@) == spec_override(
                                    deref_pairs(props@),
                                    properties@.subrange(j as int, properties@.len() as int),
                                ),
                            decreases properties@.len() - j,
                        {
                            let ghost prest = properties@.subrange(
                                j as int,
                                properties@.len() as int,
                            );
                            let ghost prest2 = properties@.subrange(
                                j as int + 1,
                                properties@.len() as int,
                            );
                            proof {
                                assert(prest[0] == properties@[j as int]);
                                assert(prest.drop_first() =~= prest2);
                            }
                            override_one(&mut props, &properties[j].0, &properties[j].1);
                            j = j + 1;
                        }
                        proof {
                            assert(properties@.subrange(
                                properties@.len() as int,
                                properties@.len() as int,
                            ) =~= Seq::<(String, RefOr<Schema>)>::empty());
                        }
                        let ghost props1 = deref_pairs(props@);
                        let mut j2: usize = 0;
                        proof {
                            assert(reqs@ + required@.subrange(0, 0) =~= reqs0);
                        }
                        while j2 < required.len()
                            invariant
                                j2 <= required@.len(),
                                deref_pairs(props@) == props1,
                                reqs@ == reqs0 + required@.subrange(0, j2 as int),
                            decreases required@.len() - j2,
                        {
                            reqs.push(required[j2].clone());
                            j2 = j2 + 1;
                            proof {
                                assert(reqs@ =~= reqs0 + required@.subrange(0, j2 as int));
                            }
                        }
                        proof {
                            assert(required@.subrange(0, required@.len() as int) =~= required@);
                        }
                    },
                    _ => {},
                }
            },
        }
        i = i + 1;
    }
    proof {
        assert(list@.subrange(list@.len() as int, list@.len() as int) =~= Seq::<
            RefOr<Schema>,
        >::empty());
    }
    Ok((props, reqs))
}

/// Replacing the first occurrence of a key equals updating at its index.
proof fn override_one_update(
    acc: Seq<(String, RefOr<Schema>)>,
    pair: (String, RefOr<Schema>),
    i: int,
)
    requires
        0 <= i < acc.len(),
        acc[i].0@ == pair.0@,
        forall|j: int| 0 <= j < i ==> acc[j].0@ != pair.0@,
    ensures
        spec_override_one(acc, pair) == acc.update(i, pair),
    decreases i,
{
    if i == 0 {
        assert(spec_override_one(acc, pair) == seq![pair] + acc.drop_first());
        assert(seq![pair] + acc.drop_first() =~= acc.update(0, pair));
    } else {
        override_one_update(acc.drop_first(), pair, i - 1);
        assert(spec_override_one(acc, pair) == seq![acc[0]] + acc.drop_first().update(
            i - 1,
            pair,
        ));
        assert(seq![acc[0]] + acc.drop_first().update(i - 1, pair) =~= acc.update(i, pair));
    }
}

/// Adding an unseen key appends it.
proof fn override_one_append(acc: Seq<(String, RefOr<Schema>)>, pair: (String, RefOr<Schema>))
    requires
        forall|j: int| 0 <= j < acc.len() ==> acc[j].0@ != pair.0@,
    ensures
        spec_override_one(acc, pair) == acc.push(pair),
    decreases acc.len(),
{
    if acc.len() == 0 {
        assert(spec_override_one(acc, pair) =~= acc.push(pair));
    } else {
        override_one_append(acc.drop_first(), pair);
        assert(spec_override_one(acc, pair) == seq![acc[0]] + acc.drop_first().push(pair));
        assert(seq![acc[0]] + acc.drop_first().push(pair) =~= acc.push(pair));
    }
}

/// Adds one member pair, overriding an existing key in place.
fn override_one<'a>(
    acc: &mut Vec<(&'a String, &'a RefOr<Schema>)>,
    key: &'a String,
    value: &'a RefOr<Schema>,
)
    ensures
        deref_pairs(final(acc)@) == spec_override_one(deref_pairs(old(acc)@), (*key, *value)),
{
    let ghost accv = deref_pairs(old(acc)@);
    let mut i: usize = 0;
    while i < acc.len()
        invariant
            i <= acc@.len(),
            acc@ == old(acc)@,
            accv == deref_pairs(old(acc)@),
            forall|j: int| 0 <= j < i ==> accv[j].0@ != key@,
        decreases acc@.len() - i,
    {
        proof {
            assert(accv[i as int] == (*acc@[i as int].0, *acc@[i as int].1));
        }
        if crate::text::str_eq(acc[i].0.as_str(), key.as_str()) {
            acc.set(i, (key, value));
            proof {
                override_one_update(accv, (*key, *value), i as int);
                assert(deref_pairs(acc@) =~= accv.update(i as int, (*key, *value)));
            }
            return ;
        }
        i = i + 1;
    }
    acc.push((key, value));
    proof {
        override_one_append(accv, (*key, *value));
        assert(deref_pairs(acc@) =~= accv.push((*key, *value)));
    }
}

} // verus!
