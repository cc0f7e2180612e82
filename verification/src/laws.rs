//! The library's stated laws, each proved against the converter's model:
//! conversion is deterministic; the naming-length policy skips or fails
//! exactly over-long names; the collision policy keeps fresh names and
//! suffixes taken ones; every value source of a generated Call names a listed
//! Property; a parameter's requiredness follows its `required` flag and a
//! schema default wins; and an explicit OAuth2 override beats the document.

use vstd::prelude::*;

use crate::convert::{
    spec_body, spec_convert, spec_item_tools, spec_operation_to_tool, spec_param_step,
    spec_params_fold, spec_path_tools, spec_splice, spec_try_op, BodyOutcome, ConvOutcome,
    OpOutcome, ParamOutcome, ParamState, SpliceOutcome, ToolsOutcome,
};
use crate::document::{ApiParameter, Document, Operation, RefOr, Schema, SchemaData};
use crate::error::ErrorV;
use crate::ir::{
    property_names, slot_property_refs, tool_refs_ok, BodySlotV, ConverterOptions, HttpMethod,
    MCPServer, OAuth2Info, PropertyRequiredV, PropertyV, ServerV, ToolV, ValueSourceV,
};
use crate::mapper::spec_requiredness;
use crate::names::{spec_name_taken, spec_sanitize_name, spec_suffixed, spec_tool_name,
    spec_unique_name};
use crate::resolver::{spec_resolve, Resolved};
use crate::template::spec_constants;

verus! {

/// Determinism: two conversion results of the same document under the same
/// options are identical, and so is everything rendered from them.
pub proof fn lemma_conversion_deterministic(
    d: Document,
    o: ConverterOptions,
    r1: MCPServer,
    r2: MCPServer,
)
    requires
        spec_convert(d, o) == ConvOutcome::Srv(r1@),
        spec_convert(d, o) == ConvOutcome::Srv(r2@),
    ensures
        r1@ == r2@,
        spec_constants(r1@) == spec_constants(r2@),
        crate::template::spec_tools_index(r1@.tools) == crate::template::spec_tools_index(
            r2@.tools,
        ),
        forall|i: int|
            0 <= i < r1@.tools.len() ==> crate::codegen::spec_tool_code(#[trigger] r1@.tools[i])
                == crate::codegen::spec_tool_code(r2@.tools[i]),
{
}

/// Naming-length policy: a derived name within the limit is never skipped nor
/// refused for its length; one over the limit is skipped exactly when the
/// policy says to skip, and otherwise fails with that name.
pub proof fn lemma_name_length_policy(
    d: Document,
    method: HttpMethod,
    path: Seq<char>,
    op: Operation,
    route_params: Seq<RefOr<ApiParameter>>,
    max_len: usize,
    skip_long: bool,
)
    ensures
        spec_tool_name(method, path).len() <= max_len ==> {
            &&& spec_operation_to_tool(d, method, path, op, route_params, max_len, skip_long)
                != OpOutcome::Skip
            &&& spec_operation_to_tool(d, method, path, op, route_params, max_len, skip_long)
                != OpOutcome::Fail(ErrorV::NameTooLong(spec_tool_name(method, path)))
        },
        spec_tool_name(method, path).len() > max_len && skip_long ==> spec_operation_to_tool(
            d,
            method,
            path,
            op,
            route_params,
            max_len,
            skip_long,
        ) == OpOutcome::Skip,
        spec_tool_name(method, path).len() > max_len && !skip_long ==> spec_operation_to_tool(
            d,
            method,
            path,
            op,
            route_params,
            max_len,
            skip_long,
        ) == OpOutcome::Fail(ErrorV::NameTooLong(spec_tool_name(method, path))),
{
    if spec_tool_name(method, path).len() <= max_len {
        match spec_params_fold(
            d.components.parameters@,
            op.parameters@ + route_params,
            crate::convert::spec_empty_state(),
        ) {
            ParamOutcome::Fail(e) => {
                assert(e != ErrorV::NameTooLong(spec_tool_name(method, path))) by {
                    lemma_params_fold_no_length_error(
                        d.components.parameters@,
                        op.parameters@ + route_params,
                        crate::convert::spec_empty_state(),
                    );
                }
            },
            ParamOutcome::Next(st) => {
                match spec_body(
                    d.components.schemas@,
                    d.components.request_bodies@,
                    op.request_body,
                    st,
                ) {
                    BodyOutcome::Fail(e) => {
                        assert(e != ErrorV::NameTooLong(spec_tool_name(method, path))) by {
                            lemma_body_no_length_error(
                                d.components.schemas@,
                                d.components.request_bodies@,
                                op.request_body,
                                st,
                            );
                        }
                    },
                    BodyOutcome::Done(_, _) => {},
                }
            },
        }
    }
}

/// Skipping form of the length policy: with the skip flag set, an operation
/// whose derived name is over-long contributes no tool and no error, and the
/// tools collected so far stand untouched.
pub proof fn lemma_skip_omits_only_that_tool(
    d: Document,
    path: Seq<char>,
    method: HttpMethod,
    op: Option<Operation>,
    route_params: Seq<RefOr<ApiParameter>>,
    o: ConverterOptions,
    acc: Seq<ToolV>,
)
    requires
        o.skip_long_tool_names,
        spec_tool_name(method, path).len() > o.max_tool_name_length,
    ensures
        spec_try_op(d, path, method, op, route_params, o, acc) == ToolsOutcome::Tools(acc),
{
    match op {
        None => {},
        Some(operation) => {
            lemma_name_length_policy(
                d,
                method,
                path,
                operation,
                route_params,
                o.max_tool_name_length,
                o.skip_long_tool_names,
            );
        },
    }
}

/// The slot map a parameter location feeds.
pub open spec fn loc_slot(st: ParamState, loc: crate::document::ParameterLocation) -> Seq<
    (Seq<char>, ValueSourceV),
> {
    match loc {
        crate::document::ParameterLocation::Path => st.path_params,
        crate::document::ParameterLocation::Query => st.query,
        crate::document::ParameterLocation::Header => st.headers,
        crate::document::ParameterLocation::Cookie => Seq::empty(),
    }
}

/// Whether a slot map carries an entry keyed by the wire name `w` whose
/// source is the property named `n`.
pub open spec fn slot_carries(s: Seq<(Seq<char>, ValueSourceV)>, w: Seq<char>, n: Seq<char>) -> bool {
    exists|i: int| 0 <= i < s.len() && s[i] == (w, ValueSourceV::Property(n))
}

/// Collision form of the suffix policy at the operation level: two parameters
/// whose wire names sanitize to the same base yield properties named by the
/// base and its first suffix, while each Call slot keeps the parameter's own
/// wire-level name.
pub proof fn lemma_colliding_parameters(
    tbl: Seq<(String, RefOr<ApiParameter>)>,
    r1: RefOr<ApiParameter>,
    r2: RefOr<ApiParameter>,
    p1: ApiParameter,
    p2: ApiParameter,
    b: Seq<char>,
)
    requires
        spec_resolve(tbl, r1, tbl.len() as nat) == Resolved::Found(p1),
        spec_resolve(tbl, r2, tbl.len() as nat) == Resolved::Found(p2),
        !(p1.location is Cookie),
        !(p2.location is Cookie),
        spec_sanitize_name(p1.name@) == b,
        spec_sanitize_name(p2.name@) == b,
    ensures
        spec_params_fold(tbl, seq![r1, r2], crate::convert::spec_empty_state())
            matches ParamOutcome::Next(st) && {
            &&& st.props.len() == 2
            &&& st.props[0].name == b
            &&& st.props[1].name == spec_suffixed(b, 2)
            &&& slot_carries(loc_slot(st, p1.location), p1.name@, b)
            &&& slot_carries(loc_slot(st, p2.location), p2.name@, spec_suffixed(b, 2))
        },
{
    reveal_with_fuel(crate::convert::spec_params_fold, 3);
    let st0 = crate::convert::spec_empty_state();
    let params = seq![r1, r2];
    assert(params[0] == r1);
    assert(params.drop_first() =~= seq![r2]);
    assert(seq![r2][0] == r2);
    assert(seq![r2].drop_first() =~= Seq::<RefOr<ApiParameter>>::empty());
    assert(!spec_name_taken(st0.used, b));
    assert(spec_unique_name(st0.used, b) == b);
    match spec_param_step(tbl, r1, st0) {
        ParamOutcome::Next(st1) => {
            assert(st1.used =~= seq![b]);
            assert(st1.props.len() == 1 && st1.props[0].name == b);
            assert(crate::names::spec_dec(2).len() == 1);
            assert(spec_suffixed(b, 2).len() == b.len() + 2);
            assert(!spec_name_taken(st1.used, spec_suffixed(b, 2))) by {
                assert(forall|i: int| 0 <= i < st1.used.len() ==> st1.used[i] == b);
            }
            assert(spec_name_taken(st1.used, b)) by {
                assert(st1.used[0] == b);
            }
            assert(crate::names::spec_free_suffix(st1.used, b, 2, st1.used.len() + 1) == 2);
            assert(spec_unique_name(st1.used, b) == spec_suffixed(b, 2));
            match spec_param_step(tbl, r2, st1) {
                ParamOutcome::Next(st2) => {
                    assert(st2.props.len() == 2);
                    assert(st2.props[0] == st1.props[0]);
                    assert(st2.props[1].name == spec_suffixed(b, 2));
                    let e1 = (p1.name@, ValueSourceV::Property(b));
                    let e2 = (p2.name@, ValueSourceV::Property(spec_suffixed(b, 2)));
                    assert(loc_slot(st1, p1.location)[0] == e1);
                    assert(slot_carries(loc_slot(st2, p1.location), p1.name@, b)) by {
                        if p1.location == p2.location {
                            assert(loc_slot(st2, p1.location)[0] == e1);
                        } else {
                            assert(loc_slot(st2, p1.location) == loc_slot(st1, p1.location));
                            assert(loc_slot(st2, p1.location)[0] == e1);
                        }
                    }
                    assert(slot_carries(loc_slot(st2, p2.location), p2.name@, spec_suffixed(b, 2)))
                        by {
                        let k = loc_slot(st2, p2.location).len() - 1;
                        assert(loc_slot(st2, p2.location)[k] == e2);
                    }
                },
                ParamOutcome::Fail(_) => {
                    assert(false);
                },
            }
        },
        ParamOutcome::Fail(_) => {
            assert(false);
        },
    }
}

/// Positional form of the parameter fold: every parameter appends exactly one
/// property, in order after the properties already collected, and that
/// property's requiredness is the resolved parameter's `required` flag
/// verbatim, its description the parameter's, its type the string type.
pub proof fn lemma_params_fold_positional(
    tbl: Seq<(String, RefOr<ApiParameter>)>,
    params: Seq<RefOr<ApiParameter>>,
    st: ParamState,
)
    ensures
        spec_params_fold(tbl, params, st) matches ParamOutcome::Next(st2) ==> {
            &&& st2.props.len() == st.props.len() + params.len()
            &&& forall|i: int| 0 <= i < st.props.len() ==> st2.props[i] == #[trigger] st.props[i]
            &&& forall|i: int|
                0 <= i < params.len() ==> (spec_resolve(tbl, #[trigger] params[i], tbl.len() as nat)
                    matches Resolved::Found(p) && !(p.location is Cookie) && st2.props[st.props.len()
                    + i].required == (if p.required {
                    PropertyRequiredV::Required
                } else {
                    PropertyRequiredV::Optional
                }) && st2.props[st.props.len() + i].description == crate::ir::opt_str_view(
                    p.description,
                ) && st2.props[st.props.len() + i].type_ is String)
        },
    decreases params.len(),
{
    if params.len() > 0 {
        match spec_param_step(tbl, params[0], st) {
            ParamOutcome::Next(st1) => {
                lemma_params_fold_positional(tbl, params.drop_first(), st1);
                match spec_params_fold(tbl, params.drop_first(), st1) {
                    ParamOutcome::Next(st2) => {
                        assert forall|i: int| 0 <= i < st.props.len() implies st2.props[i]
                            == #[trigger] st.props[i] by {
                            assert(st1.props[i] == st.props[i]);
                            assert(st2.props[i] == st1.props[i]);
                        }
                        assert forall|i: int| 0 <= i < params.len() implies (spec_resolve(
                            tbl,
                            #[trigger] params[i],
                            tbl.len() as nat,
                        ) matches Resolved::Found(p) && !(p.location is Cookie) && st2.props[
                            st.props.len() + i
                        ].required == (if p.required {
                            PropertyRequiredV::Required
                        } else {
                            PropertyRequiredV::Optional
                        }) && st2.props[st.props.len() + i].description == crate::ir::opt_str_view(
                            p.description,
                        ) && st2.props[st.props.len() + i].type_ is String) by {
                            if i == 0 {
                                assert(st1.props.len() == st.props.len() + 1);
                                assert(st2.props[st.props.len() as int] == st1.props[
                                    st.props.len() as int
                                ]);
                            } else {
                                assert(params.drop_first()[i - 1] == params[i]);
                                assert(st2.props[st1.props.len() + (i - 1)] == st2.props[
                                    st.props.len() + i
                                ]);
                            }
                        }
                    },
                    ParamOutcome::Fail(_) => {},
                }
            },
            ParamOutcome::Fail(_) => {},
        }
    }
}

/// Positional form of the body splice: every spliced member appends exactly
/// one property, in order, keeping the member's requiredness (so a declared
/// default, which the mapper turns into `DefaultValue`, survives the splice
/// verbatim), description and type; the body slot pairs the member's
/// wire-level name with the property.
pub proof fn lemma_splice_positional(
    members: Seq<PropertyV>,
    st: ParamState,
    acc: Seq<(Seq<char>, ValueSourceV)>,
)
    ensures
        spec_splice(members, st, acc) matches SpliceOutcome::Spliced(st2, slots) ==> {
            &&& st2.props.len() == st.props.len() + members.len()
            &&& slots.len() == acc.len() + members.len()
            &&& forall|i: int| 0 <= i < st.props.len() ==> st2.props[i] == #[trigger] st.props[i]
            &&& forall|k: int| 0 <= k < acc.len() ==> slots[k] == #[trigger] acc[k]
            &&& forall|i: int|
                0 <= i < members.len() ==> {
                    &&& st2.props[st.props.len() + i].required == (#[trigger] members[i]).required
                    &&& st2.props[st.props.len() + i].description == members[i].description
                    &&& st2.props[st.props.len() + i].type_ == members[i].type_
                    &&& slots[acc.len() + i].0 == members[i].name
                    &&& slots[acc.len() + i].1 == ValueSourceV::Property(
                        st2.props[st.props.len() + i].name,
                    )
                }
        },
    decreases members.len(),
{
    if members.len() > 0 && st.used.len() < crate::names::MAX_PROPERTIES {
        let m = members[0];
        let uname = spec_unique_name(st.used, spec_sanitize_name(m.name));
        let prop = PropertyV {
            name: uname,
            description: m.description,
            required: m.required,
            type_: m.type_,
        };
        let st1 = ParamState {
            used: st.used.push(uname),
            props: st.props.push(prop),
            path_params: st.path_params,
            query: st.query,
            headers: st.headers,
        };
        let acc1 = acc.push((m.name, ValueSourceV::Property(uname)));
        lemma_splice_positional(members.drop_first(), st1, acc1);
        match spec_splice(members.drop_first(), st1, acc1) {
            SpliceOutcome::Spliced(st2, slots) => {
                assert forall|i: int| 0 <= i < st.props.len() implies st2.props[i]
                    == #[trigger] st.props[i] by {
                    assert(st1.props[i] == st.props[i]);
                    assert(st2.props[i] == st1.props[i]);
                }
                assert forall|k: int| 0 <= k < acc.len() implies slots[k] == #[trigger] acc[k] by {
                    assert(acc1[k] == acc[k]);
                    assert(slots[k] == acc1[k]);
                }
                assert forall|i: int| 0 <= i < members.len() implies {
                    &&& st2.props[st.props.len() + i].required == (#[trigger] members[i]).required
                    &&& st2.props[st.props.len() + i].description == members[i].description
                    &&& st2.props[st.props.len() + i].type_ == members[i].type_
                    &&& slots[acc.len() + i].0 == members[i].name
                    &&& slots[acc.len() + i].1 == ValueSourceV::Property(
                        st2.props[st.props.len() + i].name,
                    )
                } by {
                    if i == 0 {
                        assert(st2.props[st.props.len() as int] == st1.props[st.props.len() as int]);
                        assert(slots[acc.len() as int] == acc1[acc.len() as int]);
                    } else {
                        assert(members.drop_first()[i - 1] == members[i]);
                        assert(st2.props[st1.props.len() + (i - 1)] == st2.props[st.props.len()
                            + i]);
                        assert(slots[acc1.len() + (i - 1)] == slots[acc.len() + i]);
                    }
                }
            },
            SpliceOutcome::Fail(_) => {},
        }
    }
}

/// No parameter-stage failure is a naming-length error.
proof fn lemma_params_fold_no_length_error(
    tbl: Seq<(String, RefOr<ApiParameter>)>,
    params: Seq<RefOr<ApiParameter>>,
    st: ParamState,
)
    ensures
        spec_params_fold(tbl, params, st) matches ParamOutcome::Fail(e) ==> !(e is NameTooLong),
    decreases params.len(),
{
    if params.len() > 0 {
        match spec_param_step(tbl, params[0], st) {
            ParamOutcome::Next(st2) => {
                lemma_params_fold_no_length_error(tbl, params.drop_first(), st2);
            },
            ParamOutcome::Fail(_) => {},
        }
    }
}

/// No splice-stage failure is a naming-length error.
proof fn lemma_splice_no_length_error(
    members: Seq<PropertyV>,
    st: ParamState,
    acc: Seq<(Seq<char>, ValueSourceV)>,
)
    ensures
        spec_splice(members, st, acc) matches SpliceOutcome::Fail(e) ==> !(e is NameTooLong),
    decreases members.len(),
{
    if members.len() > 0 && st.used.len() < crate::names::MAX_PROPERTIES {
        let m = members[0];
        let uname = spec_unique_name(st.used, spec_sanitize_name(m.name));
        lemma_splice_no_length_error(
            members.drop_first(),
            ParamState {
                used: st.used.push(uname),
                props: st.props.push(
                    PropertyV {
                        name: uname,
                        description: m.description,
                        required: m.required,
                        type_: m.type_,
                    },
                ),
                path_params: st.path_params,
                query: st.query,
                headers: st.headers,
            },
            acc.push((m.name, ValueSourceV::Property(uname))),
        );
    }
}

/// No body-stage failure is a naming-length error.
proof fn lemma_body_no_length_error(
    schemas: Seq<(String, RefOr<Schema>)>,
    bodies: Seq<(String, RefOr<crate::document::ApiRequestBody>)>,
    rb: Option<RefOr<crate::document::ApiRequestBody>>,
    st: ParamState,
)
    ensures
        spec_body(schemas, bodies, rb, st) matches BodyOutcome::Fail(e) ==> !(e is NameTooLong),
{
    match rb {
        None => {},
        Some(r) => match spec_resolve(bodies, r, bodies.len() as nat) {
            Resolved::Found(body) => match crate::convert::spec_find_json(body.content@) {
                None => {},
                Some(media) => match media.schema {
                    None => {},
                    Some(sref) => if schemas.len() < usize::MAX {
                        lemma_map_no_length_error_ref(
                            schemas,
                            sref,
                            "body"@,
                            Seq::empty(),
                            (schemas.len() + 1) as nat,
                        );
                        match crate::mapper::spec_map_ref(
                            schemas,
                            sref,
                            "body"@,
                            Seq::empty(),
                            (schemas.len() + 1) as nat,
                        ) {
                            crate::mapper::Mapped::Prop(pv) => {
                                match pv.type_ {
                                    crate::ir::PropertyTypeV::Object(members) => {
                                        let st1 = ParamState {
                                            headers: st.headers.push(
                                                (
                                                    "Content-Type"@,
                                                    ValueSourceV::Fixed(
                                                        crate::ir::ValueV::String(
                                                            "application/json"@,
                                                        ),
                                                    ),
                                                ),
                                            ),
                                            ..st
                                        };
                                        lemma_splice_no_length_error(members, st1, Seq::empty());
                                    },
                                    _ => {},
                                }
                            },
                            _ => {},
                        }
                    },
                },
            },
            _ => {},
        },
    }
}

/// No mapping failure is a naming-length error.
proof fn lemma_map_no_length_error_ref(
    schemas: Seq<(String, RefOr<Schema>)>,
    r: RefOr<Schema>,
    name: Seq<char>,
    enclosing_required: Seq<String>,
    fuel: nat,
)
    ensures
        crate::mapper::spec_map_ref(schemas, r, name, enclosing_required, fuel)
            matches crate::mapper::Mapped::Fail(e) ==> !(e is NameTooLong),
    decreases fuel, r, 1int,
{
    match r {
        RefOr::Item(s) => {
            lemma_map_no_length_error_item(schemas, s, name, enclosing_required, fuel);
        },
        RefOr::Ref(_) => {
            if fuel > 0 {
                match spec_resolve(schemas, r, schemas.len() as nat) {
                    Resolved::Found(s) => {
                        lemma_map_no_length_error_item(
                            schemas,
                            s,
                            name,
                            enclosing_required,
                            (fuel - 1) as nat,
                        );
                    },
                    _ => {},
                }
            }
        },
    }
}

proof fn lemma_map_no_length_error_item(
    schemas: Seq<(String, RefOr<Schema>)>,
    s: Schema,
    name: Seq<char>,
    enclosing_required: Seq<String>,
    fuel: nat,
)
    ensures
        crate::mapper::spec_map_item(schemas, s, name, enclosing_required, fuel)
            matches crate::mapper::Mapped::Fail(e) ==> !(e is NameTooLong),
    decreases fuel, s, 1int,
{
    match s.kind {
        crate::document::SchemaKind::Object { properties, required } => {
            lemma_map_no_length_error_members(schemas, properties@, required@, fuel);
        },
        crate::document::SchemaKind::Array { items } => {
            match items {
                Some(item) => {
                    lemma_map_no_length_error_ref(schemas, *item, Seq::empty(), Seq::empty(), fuel);
                },
                None => {},
            }
        },
        crate::document::SchemaKind::OneOf(list) => {
            if list@.len() > 0 {
                lemma_map_no_length_error_ref(schemas, list@[0], name, enclosing_required, fuel);
            }
        },
        crate::document::SchemaKind::AnyOf(list) => {
            if list@.len() > 0 {
                lemma_map_no_length_error_ref(schemas, list@[0], name, enclosing_required, fuel);
            }
        },
        crate::document::SchemaKind::AllOf(list) => {
            if fuel > 0 {
                lemma_merge_no_length_error(schemas, list@, Seq::empty(), Seq::empty());
                match crate::mapper::spec_merge_allof(schemas, list@, Seq::empty(), Seq::empty()) {
                    crate::mapper::MergedAllOf::Merged(props, reqs) => {
                        lemma_map_no_length_error_members(schemas, props, reqs, (fuel - 1) as nat);
                    },
                    crate::mapper::MergedAllOf::Fail(_) => {},
                }
            }
        },
        _ => {},
    }
}

/// No merge failure is a naming-length error.
proof fn lemma_merge_no_length_error(
    schemas: Seq<(String, RefOr<Schema>)>,
    list: Seq<RefOr<Schema>>,
    acc_props: Seq<(String, RefOr<Schema>)>,
    acc_req: Seq<String>,
)
    ensures
        crate::mapper::spec_merge_allof(schemas, list, acc_props, acc_req)
            matches crate::mapper::MergedAllOf::Fail(e) ==> !(e is NameTooLong),
    decreases list.len(),
{
    if list.len() > 0 {
        match spec_resolve(schemas, list[0], schemas.len() as nat) {
            Resolved::Found(s) => {
                match s.kind {
                    crate::document::SchemaKind::Object { properties, required } => {
                        lemma_merge_no_length_error(
                            schemas,
                            list.drop_first(),
                            crate::mapper::spec_override(acc_props, properties@),
                            acc_req + required@,
                        );
                    },
                    _ => {
                        lemma_merge_no_length_error(schemas, list.drop_first(), acc_props, acc_req);
                    },
                }
            },
            _ => {},
        }
    }
}

proof fn lemma_map_no_length_error_members(
    schemas: Seq<(String, RefOr<Schema>)>,
    members: Seq<(String, RefOr<Schema>)>,
    required: Seq<String>,
    fuel: nat,
)
    ensures
        crate::mapper::spec_map_members(schemas, members, required, fuel)
            matches crate::mapper::MappedList::Fail(e) ==> !(e is NameTooLong),
    decreases fuel, members, 2int,
{
    if members.len() > 0 {
        lemma_map_no_length_error_ref(schemas, members[0].1, members[0].0@, required, fuel);
        lemma_map_no_length_error_members(schemas, members.drop_first(), required, fuel);
    }
}

/// Collision policy: a fresh name stands as it is; a taken one whose first
/// suffixed form `_2` is free gets exactly that form.
pub proof fn lemma_collision_policy(used: Seq<Seq<char>>, base: Seq<char>)
    ensures
        !spec_name_taken(used, base) ==> spec_unique_name(used, base) == base,
        spec_name_taken(used, base) && !spec_name_taken(used, spec_suffixed(base, 2))
            ==> spec_unique_name(used, base) == spec_suffixed(base, 2),
{
    if spec_name_taken(used, base) {
        assert(used.len() >= 1);
    }
}

/// Requiredness of a parameter follows its declared flag verbatim.
pub proof fn lemma_parameter_requiredness(
    tbl: Seq<(String, RefOr<ApiParameter>)>,
    r: RefOr<ApiParameter>,
    st: ParamState,
    p: ApiParameter,
)
    requires
        spec_resolve(tbl, r, tbl.len() as nat) == Resolved::Found(p),
        !(p.location is Cookie),
        st.used.len() < crate::names::MAX_PROPERTIES,
    ensures
        spec_param_step(tbl, r, st) matches ParamOutcome::Next(st2) && st2.props.len() == st.props.len() + 1
            && st2.props.last().required == (if p.required {
            PropertyRequiredV::Required
        } else {
            PropertyRequiredV::Optional
        }),
{
}

/// Requiredness of a schema node: a declared default always wins.
pub proof fn lemma_schema_default_requiredness(d: SchemaData, enclosing_required: Seq<String>)
    ensures
        d.default matches Some(v) ==> spec_requiredness(d, enclosing_required)
            == PropertyRequiredV::DefaultValue(v@),
        d.default is None && crate::names::spec_contains_name(
            enclosing_required,
            crate::mapper::spec_title(d),
        ) ==> spec_requiredness(d, enclosing_required) == PropertyRequiredV::Required,
        d.default is None && !crate::names::spec_contains_name(
            enclosing_required,
            crate::mapper::spec_title(d),
        ) ==> spec_requiredness(d, enclosing_required) == PropertyRequiredV::Optional,
{
}

/// OAuth2 precedence: with an explicit override, the converted server carries
/// the override, and the emitted constants expose exactly its URLs.
pub proof fn lemma_oauth2_precedence(d: Document, o: ConverterOptions, info: OAuth2Info, s: ServerV)
    requires
        o.oauth2_info == Some(info),
        spec_convert(d, o) == ConvOutcome::Srv(s),
    ensures
        s.oauth2_info == Some(info@),
        spec_constants(s) == "export const BASE_URL = \""@ + crate::codegen::spec_escape(
            s.base_url,
        ) + "\";\n"@ + "export const AUTHORIZATION_URL = \""@ + crate::codegen::spec_escape(
            info@.authorization_url,
        ) + "\";\n"@ + "export const TOKEN_URL = \""@ + crate::codegen::spec_escape(
            info@.token_url,
        ) + "\";\n"@,
{
    assert(spec_constants(s) =~= "export const BASE_URL = \""@ + crate::codegen::spec_escape(
        s.base_url,
    ) + "\";\n"@ + ("export const AUTHORIZATION_URL = \""@ + crate::codegen::spec_escape(
        info@.authorization_url,
    ) + "\";\n"@ + "export const TOKEN_URL = \""@ + crate::codegen::spec_escape(info@.token_url)
        + "\";\n"@));
    assert("export const BASE_URL = \""@ + crate::codegen::spec_escape(s.base_url) + "\";\n"@ + (
    "export const AUTHORIZATION_URL = \""@ + crate::codegen::spec_escape(info@.authorization_url)
        + "\";\n"@ + "export const TOKEN_URL = \""@ + crate::codegen::spec_escape(
        info@.token_url,
    ) + "\";\n"@) =~= "export const BASE_URL = \""@ + crate::codegen::spec_escape(s.base_url)
        + "\";\n"@ + "export const AUTHORIZATION_URL = \""@ + crate::codegen::spec_escape(
        info@.authorization_url,
    ) + "\";\n"@ + "export const TOKEN_URL = \""@ + crate::codegen::spec_escape(info@.token_url)
        + "\";\n"@);
}

/// The well-formedness the cross-reference law tracks through the fold.
pub open spec fn state_refs_ok(st: ParamState) -> bool {
    &&& slot_property_refs(st.path_params).subset_of(property_names(st.props))
    &&& slot_property_refs(st.query).subset_of(property_names(st.props))
    &&& slot_property_refs(st.headers).subset_of(property_names(st.props))
}

/// Pushing a property keeps every known name and adds the new one.
proof fn lemma_names_push(props: Seq<PropertyV>, p: PropertyV)
    ensures
        property_names(props).subset_of(property_names(props.push(p))),
        property_names(props.push(p)).contains(p.name),
{
    assert forall|n: Seq<char>| property_names(props).contains(n) implies property_names(
        props.push(p),
    ).contains(n) by {
        let i = choose|i: int| 0 <= i < props.len() && props[i].name == n;
        assert(props.push(p)[i].name == n);
    }
    assert(props.push(p)[props.len() as int].name == p.name);
}

/// Pushing a slot entry keeps references covered when the new entry's
/// reference (if any) is covered.
proof fn lemma_refs_push(
    slots: Seq<(Seq<char>, ValueSourceV)>,
    e: (Seq<char>, ValueSourceV),
    names: Set<Seq<char>>,
)
    requires
        slot_property_refs(slots).subset_of(names),
        match e.1 {
            ValueSourceV::Property(n) => names.contains(n),
            ValueSourceV::Fixed(_) => true,
        },
    ensures
        slot_property_refs(slots.push(e)).subset_of(names),
{
    assert forall|n: Seq<char>| slot_property_refs(slots.push(e)).contains(n) implies names.contains(
        n,
    ) by {
        let i = choose|i: int|
            0 <= i < slots.push(e).len() && slots.push(e)[i].1 == ValueSourceV::Property(n);
        if i < slots.len() {
            assert(slots[i].1 == ValueSourceV::Property(n));
            assert(slot_property_refs(slots).contains(n));
        }
    }
}

/// One parameter step preserves reference coverage.
proof fn lemma_param_step_refs(
    tbl: Seq<(String, RefOr<ApiParameter>)>,
    r: RefOr<ApiParameter>,
    st: ParamState,
)
    requires
        state_refs_ok(st),
    ensures
        spec_param_step(tbl, r, st) matches ParamOutcome::Next(st2) ==> state_refs_ok(st2),
{
    match spec_param_step(tbl, r, st) {
        ParamOutcome::Next(st2) => {
            match spec_resolve(tbl, r, tbl.len() as nat) {
                Resolved::Found(p) => {
                    let uname = spec_unique_name(st.used, spec_sanitize_name(p.name@));
                    let prop = PropertyV {
                        name: uname,
                        description: crate::ir::opt_str_view(p.description),
                        required: if p.required {
                            PropertyRequiredV::Required
                        } else {
                            PropertyRequiredV::Optional
                        },
                        type_: crate::ir::PropertyTypeV::String,
                    };
                    let entry = (p.name@, ValueSourceV::Property(uname));
                    lemma_names_push(st.props, prop);
                    let names2 = property_names(st2.props);
                    assert(slot_property_refs(st.path_params).subset_of(names2));
                    assert(slot_property_refs(st.query).subset_of(names2));
                    assert(slot_property_refs(st.headers).subset_of(names2));
                    if p.location is Path {
                        lemma_refs_push(st.path_params, entry, names2);
                    }
                    if p.location is Query {
                        lemma_refs_push(st.query, entry, names2);
                    }
                    if p.location is Header {
                        lemma_refs_push(st.headers, entry, names2);
                    }
                },
                _ => {},
            }
        },
        ParamOutcome::Fail(_) => {},
    }
}

/// The whole parameter fold preserves reference coverage.
proof fn lemma_params_fold_refs(
    tbl: Seq<(String, RefOr<ApiParameter>)>,
    params: Seq<RefOr<ApiParameter>>,
    st: ParamState,
)
    requires
        state_refs_ok(st),
    ensures
        spec_params_fold(tbl, params, st) matches ParamOutcome::Next(st2) ==> state_refs_ok(st2),
    decreases params.len(),
{
    if params.len() > 0 {
        lemma_param_step_refs(tbl, params[0], st);
        match spec_param_step(tbl, params[0], st) {
            ParamOutcome::Next(st2) => {
                lemma_params_fold_refs(tbl, params.drop_first(), st2);
            },
            ParamOutcome::Fail(_) => {},
        }
    }
}

/// Splicing preserves reference coverage, for the state and the body slots.
proof fn lemma_splice_refs(
    members: Seq<PropertyV>,
    st: ParamState,
    acc: Seq<(Seq<char>, ValueSourceV)>,
)
    requires
        state_refs_ok(st),
        slot_property_refs(acc).subset_of(property_names(st.props)),
    ensures
        spec_splice(members, st, acc) matches SpliceOutcome::Spliced(st2, acc2) ==> state_refs_ok(
            st2,
        ) && slot_property_refs(acc2).subset_of(property_names(st2.props)),
    decreases members.len(),
{
    if members.len() > 0 && st.used.len() < crate::names::MAX_PROPERTIES {
        let m = members[0];
        let uname = spec_unique_name(st.used, spec_sanitize_name(m.name));
        let prop = PropertyV {
            name: uname,
            description: m.description,
            required: m.required,
            type_: m.type_,
        };
        let st2 = ParamState {
            used: st.used.push(uname),
            props: st.props.push(prop),
            path_params: st.path_params,
            query: st.query,
            headers: st.headers,
        };
        lemma_names_push(st.props, prop);
        let names2 = property_names(st2.props);
        assert(slot_property_refs(st.path_params).subset_of(names2));
        assert(slot_property_refs(st.query).subset_of(names2));
        assert(slot_property_refs(st.headers).subset_of(names2));
        lemma_refs_push(acc, (m.name, ValueSourceV::Property(uname)), names2);
        lemma_splice_refs(members.drop_first(), st2, acc.push(
            (m.name, ValueSourceV::Property(uname)),
        ));
    }
}

/// The body stage preserves reference coverage, covering the body slot too.
proof fn lemma_body_refs(
    schemas: Seq<(String, RefOr<Schema>)>,
    bodies: Seq<(String, RefOr<crate::document::ApiRequestBody>)>,
    rb: Option<RefOr<crate::document::ApiRequestBody>>,
    st: ParamState,
)
    requires
        state_refs_ok(st),
    ensures
        spec_body(schemas, bodies, rb, st) matches BodyOutcome::Done(st2, body) ==> state_refs_ok(
            st2,
        ) && (match body {
            Some(BodySlotV::Fields(slots)) => slot_property_refs(slots).subset_of(
                property_names(st2.props),
            ),
            Some(BodySlotV::Whole(v)) => match v {
                ValueSourceV::Property(n) => property_names(st2.props).contains(n),
                ValueSourceV::Fixed(_) => true,
            },
            None => true,
        }),
{
    match rb {
        None => {},
        Some(r) => match spec_resolve(bodies, r, bodies.len() as nat) {
            Resolved::Found(body) => match crate::convert::spec_find_json(body.content@) {
                None => {},
                Some(media) => {
                    let ct = (
                        "Content-Type"@,
                        ValueSourceV::Fixed(crate::ir::ValueV::String("application/json"@)),
                    );
                    let st1 = ParamState { headers: st.headers.push(ct), ..st };
                    lemma_refs_push(st.headers, ct, property_names(st.props));
                    assert(state_refs_ok(st1));
                    match media.schema {
                        None => {},
                        Some(sref) => if schemas.len() < usize::MAX {
                            match crate::mapper::spec_map_ref(
                                schemas,
                                sref,
                                "body"@,
                                Seq::empty(),
                                (schemas.len() + 1) as nat,
                            ) {
                                crate::mapper::Mapped::Prop(pv) => {
                                    match pv.type_ {
                                        crate::ir::PropertyTypeV::Object(members) => {
                                            assert(slot_property_refs(
                                                Seq::<(Seq<char>, ValueSourceV)>::empty(),
                                            ).subset_of(property_names(st1.props))) by {
                                                assert(forall|n: Seq<char>|
                                                    !slot_property_refs(
                                                        Seq::<(Seq<char>, ValueSourceV)>::empty(),
                                                    ).contains(n));
                                            }
                                            lemma_splice_refs(members, st1, Seq::empty());
                                        },
                                        _ => {
                                            if st1.used.len() < crate::names::MAX_PROPERTIES {
                                                let uname = spec_unique_name(st1.used, "body"@);
                                                let prop = PropertyV {
                                                    name: uname,
                                                    description: pv.description,
                                                    required: pv.required,
                                                    type_: pv.type_,
                                                };
                                                lemma_names_push(st1.props, prop);
                                                let st2 = ParamState {
                                                    used: st1.used.push(uname),
                                                    props: st1.props.push(prop),
                                                    ..st1
                                                };
                                                assert(state_refs_ok(st2));
                                            }
                                        },
                                    }
                                },
                                _ => {},
                            }
                        },
                    }
                },
            },
            _ => {},
        },
    }
}

/// Cross-reference invariant for one converted operation: every property id
/// a generated Tool's Call refers to names a Property in its list.
pub proof fn lemma_operation_refs_ok(
    d: Document,
    method: HttpMethod,
    path: Seq<char>,
    op: Operation,
    route_params: Seq<RefOr<ApiParameter>>,
    max_len: usize,
    skip_long: bool,
)
    ensures
        spec_operation_to_tool(d, method, path, op, route_params, max_len, skip_long)
            matches OpOutcome::Tool(t) ==> tool_refs_ok(t),
{
    let st0 = crate::convert::spec_empty_state();
    assert(state_refs_ok(st0)) by {
        assert(forall|n: Seq<char>|
            !slot_property_refs(Seq::<(Seq<char>, ValueSourceV)>::empty()).contains(n));
    }
    lemma_params_fold_refs(d.components.parameters@, op.parameters@ + route_params, st0);
    match spec_params_fold(d.components.parameters@, op.parameters@ + route_params, st0) {
        ParamOutcome::Next(st) => {
            lemma_body_refs(
                d.components.schemas@,
                d.components.request_bodies@,
                op.request_body,
                st,
            );
        },
        ParamOutcome::Fail(_) => {},
    }
}

/// Every tool of a list satisfies the cross-reference invariant.
pub open spec fn all_tools_refs_ok(ts: Seq<ToolV>) -> bool {
    forall|i: int| 0 <= i < ts.len() ==> tool_refs_ok(#[trigger] ts[i])
}

proof fn lemma_try_op_refs(
    d: Document,
    path: Seq<char>,
    method: HttpMethod,
    op: Option<Operation>,
    route_params: Seq<RefOr<ApiParameter>>,
    o: ConverterOptions,
    acc: Seq<ToolV>,
)
    requires
        all_tools_refs_ok(acc),
    ensures
        spec_try_op(d, path, method, op, route_params, o, acc) matches ToolsOutcome::Tools(a2)
            ==> all_tools_refs_ok(a2),
{
    match op {
        None => {},
        Some(op) => {
            lemma_operation_refs_ok(
                d,
                method,
                path,
                op,
                route_params,
                o.max_tool_name_length,
                o.skip_long_tool_names,
            );
            match spec_operation_to_tool(
                d,
                method,
                path,
                op,
                route_params,
                o.max_tool_name_length,
                o.skip_long_tool_names,
            ) {
                OpOutcome::Tool(t) => {
                    assert forall|i: int| 0 <= i < acc.push(t).len() implies tool_refs_ok(
                        #[trigger] acc.push(t)[i],
                    ) by {
                        if i < acc.len() {
                            assert(acc.push(t)[i] == acc[i]);
                        }
                    }
                },
                _ => {},
            }
        },
    }
}

proof fn lemma_item_tools_refs(
    d: Document,
    path: Seq<char>,
    pi: crate::document::PathItem,
    o: ConverterOptions,
    acc: Seq<ToolV>,
)
    requires
        all_tools_refs_ok(acc),
    ensures
        spec_item_tools(d, path, pi, o, acc) matches ToolsOutcome::Tools(a2) ==> all_tools_refs_ok(
            a2,
        ),
{
    lemma_try_op_refs(d, path, HttpMethod::Get, pi.get, pi.parameters@, o, acc);
    match spec_try_op(d, path, HttpMethod::Get, pi.get, pi.parameters@, o, acc) {
        ToolsOutcome::Tools(a1) => {
            lemma_try_op_refs(d, path, HttpMethod::Post, pi.post, pi.parameters@, o, a1);
            match spec_try_op(d, path, HttpMethod::Post, pi.post, pi.parameters@, o, a1) {
                ToolsOutcome::Tools(a2) => {
                    lemma_try_op_refs(d, path, HttpMethod::Put, pi.put, pi.parameters@, o, a2);
                    match spec_try_op(d, path, HttpMethod::Put, pi.put, pi.parameters@, o, a2) {
                        ToolsOutcome::Tools(a3) => {
                            lemma_try_op_refs(
                                d,
                                path,
                                HttpMethod::Delete,
                                pi.delete,
                                pi.parameters@,
                                o,
                                a3,
                            );
                            match spec_try_op(
                                d,
                                path,
                                HttpMethod::Delete,
                                pi.delete,
                                pi.parameters@,
                                o,
                                a3,
                            ) {
                                ToolsOutcome::Tools(a4) => {
                                    lemma_try_op_refs(
                                        d,
                                        path,
                                        HttpMethod::Patch,
                                        pi.patch,
                                        pi.parameters@,
                                        o,
                                        a4,
                                    );
                                },
                                ToolsOutcome::Fail(_) => {},
                            }
                        },
                        ToolsOutcome::Fail(_) => {},
                    }
                },
                ToolsOutcome::Fail(_) => {},
            }
        },
        ToolsOutcome::Fail(_) => {},
    }
}

proof fn lemma_path_tools_refs(
    d: Document,
    paths: Seq<(String, RefOr<crate::document::PathItem>)>,
    o: ConverterOptions,
    acc: Seq<ToolV>,
)
    requires
        all_tools_refs_ok(acc),
    ensures
        spec_path_tools(d, paths, o, acc) matches ToolsOutcome::Tools(a2) ==> all_tools_refs_ok(
            a2,
        ),
    decreases paths.len(),
{
    if paths.len() > 0 {
        match paths[0].1 {
            RefOr::Ref(_) => {},
            RefOr::Item(pi) => {
                let included = match o.path_filter {
                    Some(p) => crate::patterns::regex_accepts(p@, paths[0].0@),
                    None => true,
                };
                if !included {
                    lemma_path_tools_refs(d, paths.drop_first(), o, acc);
                } else {
                    lemma_item_tools_refs(d, paths[0].0@, pi, o, acc);
                    match spec_item_tools(d, paths[0].0@, pi, o, acc) {
                        ToolsOutcome::Tools(a1) => {
                            lemma_path_tools_refs(d, paths.drop_first(), o, a1);
                        },
                        ToolsOutcome::Fail(_) => {},
                    }
                }
            },
        }
    }
}

/// Cross-reference invariant for a whole conversion: every `PropertyId` used
/// by any generated Tool's Call names a Property present in that Tool's list.
pub proof fn lemma_convert_refs_ok(d: Document, o: ConverterOptions)
    ensures
        spec_convert(d, o) matches ConvOutcome::Srv(s) ==> all_tools_refs_ok(s.tools),
{
    lemma_path_tools_refs(d, d.paths@, o, Seq::empty());
}

/// The taken-name list mirrors the property list, name for name.
pub open spec fn used_matches_props(st: ParamState) -> bool {
    &&& st.used.len() == st.props.len()
    &&& forall|i: int| 0 <= i < st.used.len() ==> st.used[i] == #[trigger] st.props[i].name
}

/// No two entries are alike.
pub open spec fn distinct_names(used: Seq<Seq<char>>) -> bool {
    forall|i: int, j: int| 0 <= i < j < used.len() ==> #[trigger] used[i] != #[trigger] used[j]
}

/// Pushing a fresh name keeps the mirror and the distinctness.
proof fn lemma_push_fresh(st: ParamState, uname: Seq<char>, prop: PropertyV, st2: ParamState)
    requires
        used_matches_props(st),
        distinct_names(st.used),
        !crate::names::spec_name_taken(st.used, uname),
        prop.name == uname,
        st2.used == st.used.push(uname),
        st2.props == st.props.push(prop),
    ensures
        used_matches_props(st2),
        distinct_names(st2.used),
{
    assert forall|i: int| 0 <= i < st2.used.len() implies st2.used[i]
        == #[trigger] st2.props[i].name by {
        if i < st.used.len() {
            assert(st2.props[i] == st.props[i]);
        }
    }
    assert forall|i: int, j: int| 0 <= i < j < st2.used.len() implies #[trigger] st2.used[i]
        != #[trigger] st2.used[j] by {
        if j < st.used.len() {
            assert(st.used[i] != st.used[j]);
        } else {
            assert(st2.used[j] == uname);
            assert(!(exists|k: int| 0 <= k < st.used.len() && st.used[k] == uname));
        }
    }
}

/// One parameter step keeps property names unique.
proof fn lemma_param_step_unique(
    tbl: Seq<(String, RefOr<ApiParameter>)>,
    r: RefOr<ApiParameter>,
    st: ParamState,
)
    requires
        used_matches_props(st),
        distinct_names(st.used),
    ensures
        spec_param_step(tbl, r, st) matches ParamOutcome::Next(st2) ==> used_matches_props(st2)
            && distinct_names(st2.used),
{
    match spec_param_step(tbl, r, st) {
        ParamOutcome::Next(st2) => {
            match spec_resolve(tbl, r, tbl.len() as nat) {
                Resolved::Found(p) => {
                    let uname = spec_unique_name(st.used, spec_sanitize_name(p.name@));
                    crate::names::lemma_unique_name_fresh(st.used, spec_sanitize_name(p.name@));
                    let prop = PropertyV {
                        name: uname,
                        description: crate::ir::opt_str_view(p.description),
                        required: if p.required {
                            PropertyRequiredV::Required
                        } else {
                            PropertyRequiredV::Optional
                        },
                        type_: crate::ir::PropertyTypeV::String,
                    };
                    lemma_push_fresh(st, uname, prop, st2);
                },
                _ => {},
            }
        },
        ParamOutcome::Fail(_) => {},
    }
}

proof fn lemma_params_fold_unique(
    tbl: Seq<(String, RefOr<ApiParameter>)>,
    params: Seq<RefOr<ApiParameter>>,
    st: ParamState,
)
    requires
        used_matches_props(st),
        distinct_names(st.used),
    ensures
        spec_params_fold(tbl, params, st) matches ParamOutcome::Next(st2) ==> used_matches_props(
            st2,
        ) && distinct_names(st2.used),
    decreases params.len(),
{
    if params.len() > 0 {
        lemma_param_step_unique(tbl, params[0], st);
        match spec_param_step(tbl, params[0], st) {
            ParamOutcome::Next(st2) => {
                lemma_params_fold_unique(tbl, params.drop_first(), st2);
            },
            ParamOutcome::Fail(_) => {},
        }
    }
}

proof fn lemma_splice_unique(
    members: Seq<PropertyV>,
    st: ParamState,
    acc: Seq<(Seq<char>, ValueSourceV)>,
)
    requires
        used_matches_props(st),
        distinct_names(st.used),
    ensures
        spec_splice(members, st, acc) matches SpliceOutcome::Spliced(st2, _) ==> used_matches_props(
            st2,
        ) && distinct_names(st2.used),
    decreases members.len(),
{
    if members.len() > 0 && st.used.len() < crate::names::MAX_PROPERTIES {
        let m = members[0];
        let uname = spec_unique_name(st.used, spec_sanitize_name(m.name));
        crate::names::lemma_unique_name_fresh(st.used, spec_sanitize_name(m.name));
        let prop = PropertyV {
            name: uname,
            description: m.description,
            required: m.required,
            type_: m.type_,
        };
        let st2 = ParamState {
            used: st.used.push(uname),
            props: st.props.push(prop),
            path_params: st.path_params,
            query: st.query,
            headers: st.headers,
        };
        lemma_push_fresh(st, uname, prop, st2);
        lemma_splice_unique(members.drop_first(), st2, acc.push(
            (m.name, ValueSourceV::Property(uname)),
        ));
    }
}

proof fn lemma_body_unique(
    schemas: Seq<(String, RefOr<Schema>)>,
    bodies: Seq<(String, RefOr<crate::document::ApiRequestBody>)>,
    rb: Option<RefOr<crate::document::ApiRequestBody>>,
    st: ParamState,
)
    requires
        used_matches_props(st),
        distinct_names(st.used),
    ensures
        spec_body(schemas, bodies, rb, st) matches BodyOutcome::Done(st2, _) ==> used_matches_props(
            st2,
        ) && distinct_names(st2.used),
{
    match rb {
        None => {},
        Some(r) => match spec_resolve(bodies, r, bodies.len() as nat) {
            Resolved::Found(body) => match crate::convert::spec_find_json(body.content@) {
                None => {},
                Some(media) => {
                    let st1 = ParamState {
                        headers: st.headers.push(
                            (
                                "Content-Type"@,
                                ValueSourceV::Fixed(crate::ir::ValueV::String(
                                    "application/json"@,
                                )),
                            ),
                        ),
                        ..st
                    };
                    assert(used_matches_props(st1));
                    match media.schema {
                        None => {},
                        Some(sref) => if schemas.len() < usize::MAX {
                            match crate::mapper::spec_map_ref(
                                schemas,
                                sref,
                                "body"@,
                                Seq::empty(),
                                (schemas.len() + 1) as nat,
                            ) {
                                crate::mapper::Mapped::Prop(pv) => {
                                    match pv.type_ {
                                        crate::ir::PropertyTypeV::Object(members) => {
                                            lemma_splice_unique(members, st1, Seq::empty());
                                        },
                                        _ => {
                                            if st1.used.len() < crate::names::MAX_PROPERTIES {
                                                let uname = spec_unique_name(st1.used, "body"@);
                                                crate::names::lemma_unique_name_fresh(
                                                    st1.used,
                                                    "body"@,
                                                );
                                                let prop = PropertyV {
                                                    name: uname,
                                                    description: pv.description,
                                                    required: pv.required,
                                                    type_: pv.type_,
                                                };
                                                let st2 = ParamState {
                                                    used: st1.used.push(uname),
                                                    props: st1.props.push(prop),
                                                    ..st1
                                                };
                                                lemma_push_fresh(st1, uname, prop, st2);
                                            }
                                        },
                                    }
                                },
                                _ => {},
                            }
                        },
                    }
                },
            },
            _ => {},
        },
    }
}

/// Property names are unique within any generated Tool.
pub proof fn lemma_operation_names_unique(
    d: Document,
    method: HttpMethod,
    path: Seq<char>,
    op: Operation,
    route_params: Seq<RefOr<ApiParameter>>,
    max_len: usize,
    skip_long: bool,
)
    ensures
        spec_operation_to_tool(d, method, path, op, route_params, max_len, skip_long)
            matches OpOutcome::Tool(t) ==> crate::ir::tool_names_unique(t),
{
    let st0 = crate::convert::spec_empty_state();
    lemma_params_fold_unique(d.components.parameters@, op.parameters@ + route_params, st0);
    match spec_params_fold(d.components.parameters@, op.parameters@ + route_params, st0) {
        ParamOutcome::Next(st) => {
            lemma_body_unique(
                d.components.schemas@,
                d.components.request_bodies@,
                op.request_body,
                st,
            );
            match spec_body(
                d.components.schemas@,
                d.components.request_bodies@,
                op.request_body,
                st,
            ) {
                BodyOutcome::Done(st2, _) => {
                    match spec_operation_to_tool(
                        d,
                        method,
                        path,
                        op,
                        route_params,
                        max_len,
                        skip_long,
                    ) {
                        OpOutcome::Tool(t) => {
                            assert(t.properties == st2.props);
                            assert forall|i: int, j: int|
                                0 <= i < j < t.properties.len() implies t.properties[i].name
                                != t.properties[j].name by {
                                assert(st2.used[i] == st2.props[i].name);
                                assert(st2.used[j] == st2.props[j].name);
                                assert(st2.used[i] != st2.used[j]);
                            }
                        },
                        _ => {},
                    }
                },
                BodyOutcome::Fail(_) => {},
            }
        },
        ParamOutcome::Fail(_) => {},
    }
}

/// Every tool of a list has unique property names.
pub open spec fn all_tools_names_unique(ts: Seq<ToolV>) -> bool {
    forall|i: int| 0 <= i < ts.len() ==> crate::ir::tool_names_unique(#[trigger] ts[i])
}

proof fn lemma_try_op_unique(
    d: Document,
    path: Seq<char>,
    method: HttpMethod,
    op: Option<Operation>,
    route_params: Seq<RefOr<ApiParameter>>,
    o: ConverterOptions,
    acc: Seq<ToolV>,
)
    requires
        all_tools_names_unique(acc),
    ensures
        spec_try_op(d, path, method, op, route_params, o, acc) matches ToolsOutcome::Tools(a2)
            ==> all_tools_names_unique(a2),
{
    match op {
        None => {},
        Some(op) => {
            lemma_operation_names_unique(
                d,
                method,
                path,
                op,
                route_params,
                o.max_tool_name_length,
                o.skip_long_tool_names,
            );
            match spec_operation_to_tool(
                d,
                method,
                path,
                op,
                route_params,
                o.max_tool_name_length,
                o.skip_long_tool_names,
            ) {
                OpOutcome::Tool(t) => {
                    assert forall|i: int| 0 <= i < acc.push(t).len() implies crate::ir::tool_names_unique(
                        #[trigger] acc.push(t)[i],
                    ) by {
                        if i < acc.len() {
                            assert(acc.push(t)[i] == acc[i]);
                        }
                    }
                },
                _ => {},
            }
        },
    }
}

proof fn lemma_item_tools_unique(
    d: Document,
    path: Seq<char>,
    pi: crate::document::PathItem,
    o: ConverterOptions,
    acc: Seq<ToolV>,
)
    requires
        all_tools_names_unique(acc),
    ensures
        spec_item_tools(d, path, pi, o, acc) matches ToolsOutcome::Tools(a2)
            ==> all_tools_names_unique(a2),
{
    lemma_try_op_unique(d, path, HttpMethod::Get, pi.get, pi.parameters@, o, acc);
    match spec_try_op(d, path, HttpMethod::Get, pi.get, pi.parameters@, o, acc) {
        ToolsOutcome::Tools(a1) => {
            lemma_try_op_unique(d, path, HttpMethod::Post, pi.post, pi.parameters@, o, a1);
            match spec_try_op(d, path, HttpMethod::Post, pi.post, pi.parameters@, o, a1) {
                ToolsOutcome::Tools(a2) => {
                    lemma_try_op_unique(d, path, HttpMethod::Put, pi.put, pi.parameters@, o, a2);
                    match spec_try_op(d, path, HttpMethod::Put, pi.put, pi.parameters@, o, a2) {
                        ToolsOutcome::Tools(a3) => {
                            lemma_try_op_unique(
                                d,
                                path,
                                HttpMethod::Delete,
                                pi.delete,
                                pi.parameters@,
                                o,
                                a3,
                            );
                            match spec_try_op(
                                d,
                                path,
                                HttpMethod::Delete,
                                pi.delete,
                                pi.parameters@,
                                o,
                                a3,
                            ) {
                                ToolsOutcome::Tools(a4) => {
                                    lemma_try_op_unique(
                                        d,
                                        path,
                                        HttpMethod::Patch,
                                        pi.patch,
                                        pi.parameters@,
                                        o,
                                        a4,
                                    );
                                },
                                ToolsOutcome::Fail(_) => {},
                            }
                        },
                        ToolsOutcome::Fail(_) => {},
                    }
                },
                ToolsOutcome::Fail(_) => {},
            }
        },
        ToolsOutcome::Fail(_) => {},
    }
}

proof fn lemma_path_tools_unique(
    d: Document,
    paths: Seq<(String, RefOr<crate::document::PathItem>)>,
    o: ConverterOptions,
    acc: Seq<ToolV>,
)
    requires
        all_tools_names_unique(acc),
    ensures
        spec_path_tools(d, paths, o, acc) matches ToolsOutcome::Tools(a2)
            ==> all_tools_names_unique(a2),
    decreases paths.len(),
{
    if paths.len() > 0 {
        match paths[0].1 {
            RefOr::Ref(_) => {},
            RefOr::Item(pi) => {
                let included = match o.path_filter {
                    Some(p) => crate::patterns::regex_accepts(p@, paths[0].0@),
                    None => true,
                };
                if !included {
                    lemma_path_tools_unique(d, paths.drop_first(), o, acc);
                } else {
                    lemma_item_tools_unique(d, paths[0].0@, pi, o, acc);
                    match spec_item_tools(d, paths[0].0@, pi, o, acc) {
                        ToolsOutcome::Tools(a1) => {
                            lemma_path_tools_unique(d, paths.drop_first(), o, a1);
                        },
                        ToolsOutcome::Fail(_) => {},
                    }
                }
            },
        }
    }
}

/// Name uniqueness for a whole conversion: every generated Tool's property
/// names are pairwise distinct.
pub proof fn lemma_convert_names_unique(d: Document, o: ConverterOptions)
    ensures
        spec_convert(d, o) matches ConvOutcome::Srv(s) ==> all_tools_names_unique(s.tools),
{
    lemma_path_tools_unique(d, d.paths@, o, Seq::empty());
}

} // verus!
