//! The Operation and Server Converters: every operation of every path becomes
//! one Tool, under the options' filters and naming policy, and the Tools are
//! assembled into the Server IR together with the base URL and the OAuth2
//! authorization-code flow (an explicit override taking precedence over a
//! document-derived one).

use vstd::prelude::*;

use crate::document::{
    ApiParameter, ApiRequestBody, Document, MediaEntry, Operation, ParameterLocation, PathItem,
    RefOr, Schema, SecurityScheme,
};
use crate::error::{Error, ErrorV};
use crate::ir::{
    BodySlot, BodySlotV, Call, CallV, ConverterOptions, HttpMethod, MCPServer, MCPTool,
    MCPToolProperty, MCPToolPropertyRequired, MCPToolPropertyType, OAuth2Info, OAuth2InfoV,
    PropertyId, PropertyTypeV, PropertyV, ServerV, ToolV, Value, ValueSource, ValueSourceV,
    opt_str_view, properties_view, slot_view, tools_view,
};
use crate::mapper::{map_schema_ref, spec_map_ref, Mapped};
use crate::names::{
    names_of, sanitize_name, spec_sanitize_name, spec_tool_name, spec_unique_name, tool_name,
    unique_name,
    MAX_PROPERTIES,
};
use crate::patterns::{regex_accepts, regex_is_match, regex_ok};
use crate::resolver::{
    resolve_parameter, resolve_request_body, spec_resolve, spec_resolve_err, Resolved,
};
use crate::text::opt_string_copy;

verus! {

/// The growing parameter state of one tool: names taken so far, properties
/// collected, and the three parameter slot maps.
pub struct ParamState {
    pub used: Seq<Seq<char>>,
    pub props: Seq<PropertyV>,
    pub path_params: Seq<(Seq<char>, ValueSourceV)>,
    pub query: Seq<(Seq<char>, ValueSourceV)>,
    pub headers: Seq<(Seq<char>, ValueSourceV)>,
}

pub enum ParamOutcome {
    Next(ParamState),
    Fail(ErrorV),
}

/// The state a fresh tool starts from.
pub open spec fn spec_empty_state() -> ParamState {
    ParamState {
        used: Seq::empty(),
        props: Seq::empty(),
        path_params: Seq::empty(),
        query: Seq::empty(),
        headers: Seq::empty(),
    }
}

/// The mathematical state of the exec-side accumulators.
pub open spec fn state_of(
    used: Seq<String>,
    props: Seq<MCPToolProperty>,
    pp: Seq<(String, ValueSource)>,
    q: Seq<(String, ValueSource)>,
    h: Seq<(String, ValueSource)>,
) -> ParamState {
    ParamState {
        used: names_of(used),
        props: properties_view(props),
        path_params: slot_view(pp),
        query: slot_view(q),
        headers: slot_view(h),
    }
}

/// One parameter: resolved, cookies refused, its property named by the
/// collision policy over the case-preserving sanitized wire name (so `itemId`
/// stays `itemId`), requiredness taken verbatim from its `required` flag, and
/// one value source keyed by the wire-level name in the matching slot.
pub open spec fn spec_param_step(
    tbl: Seq<(String, RefOr<ApiParameter>)>,
    r: RefOr<ApiParameter>,
    st: ParamState,
) -> ParamOutcome {
    if st.used.len() >= MAX_PROPERTIES {
        ParamOutcome::Fail(ErrorV::Generation("too many properties in one tool"@))
    } else {
        match spec_resolve(tbl, r, tbl.len() as nat) {
            Resolved::Found(p) => {
                if p.location is Cookie {
                    ParamOutcome::Fail(
                        ErrorV::Unsupported("cookie parameters are not supported: "@ + p.name@),
                    )
                } else {
                    let uname = spec_unique_name(st.used, spec_sanitize_name(p.name@));
                    let prop = PropertyV {
                        name: uname,
                        description: opt_str_view(p.description),
                        required: if p.required {
                            crate::ir::PropertyRequiredV::Required
                        } else {
                            crate::ir::PropertyRequiredV::Optional
                        },
                        type_: PropertyTypeV::String,
                    };
                    let entry = (p.name@, ValueSourceV::Property(uname));
                    ParamOutcome::Next(
                        ParamState {
                            used: st.used.push(uname),
                            props: st.props.push(prop),
                            path_params: if p.location is Path {
                                st.path_params.push(entry)
                            } else {
                                st.path_params
                            },
                            query: if p.location is Query {
                                st.query.push(entry)
                            } else {
                                st.query
                            },
                            headers: if p.location is Header {
                                st.headers.push(entry)
                            } else {
                                st.headers
                            },
                        },
                    )
                }
            },
            other => ParamOutcome::Fail(spec_resolve_err(other)),
        }
    }
}

/// All parameters in order, operation-level first.
pub open spec fn spec_params_fold(
    tbl: Seq<(String, RefOr<ApiParameter>)>,
    params: Seq<RefOr<ApiParameter>>,
    st: ParamState,
) -> ParamOutcome
    decreases params.len(),
{
    if params.len() == 0 {
        ParamOutcome::Next(st)
    } else {
        match spec_param_step(tbl, params[0], st) {
            ParamOutcome::Next(st2) => spec_params_fold(tbl, params.drop_first(), st2),
            fail => fail,
        }
    }
}

/// The first JSON media entry of a request body, if any.
pub open spec fn spec_find_json(content: Seq<MediaEntry>) -> Option<MediaEntry>
    decreases content.len(),
{
    if content.len() == 0 {
        None
    } else if content[0].content_type@ == "application/json"@ {
        Some(content[0])
    } else {
        spec_find_json(content.drop_first())
    }
}

pub enum SpliceOutcome {
    Spliced(ParamState, Seq<(Seq<char>, ValueSourceV)>),
    Fail(ErrorV),
}

/// Splices the top-level members of an object body into the property list:
/// each becomes a property named by the collision policy, and one body field
/// keyed by the member's wire-level name.
pub open spec fn spec_splice(
    members: Seq<PropertyV>,
    st: ParamState,
    acc: Seq<(Seq<char>, ValueSourceV)>,
) -> SpliceOutcome
    decreases members.len(),
{
    if members.len() == 0 {
        SpliceOutcome::Spliced(st, acc)
    } else if st.used.len() >= MAX_PROPERTIES {
        SpliceOutcome::Fail(ErrorV::Generation("too many properties in one tool"@))
    } else {
        let m = members[0];
        let uname = spec_unique_name(st.used, spec_sanitize_name(m.name));
        let prop = PropertyV {
            name: uname,
            description: m.description,
            required: m.required,
            type_: m.type_,
        };
        spec_splice(
            members.drop_first(),
            ParamState {
                used: st.used.push(uname),
                props: st.props.push(prop),
                path_params: st.path_params,
                query: st.query,
                headers: st.headers,
            },
            acc.push((m.name, ValueSourceV::Property(uname))),
        )
    }
}

pub enum BodyOutcome {
    Done(ParamState, Option<BodySlotV>),
    Fail(ErrorV),
}

/// The request body: only a JSON media entry is honoured; it fixes the
/// `Content-Type` header, and its schema's mapping is either spliced (object)
/// or kept whole as one opaque property.
pub open spec fn spec_body(
    schemas: Seq<(String, RefOr<Schema>)>,
    bodies: Seq<(String, RefOr<ApiRequestBody>)>,
    rb: Option<RefOr<ApiRequestBody>>,
    st: ParamState,
) -> BodyOutcome {
    match rb {
        None => BodyOutcome::Done(st, None),
        Some(r) => match spec_resolve(bodies, r, bodies.len() as nat) {
            Resolved::Found(body) => match spec_find_json(body.content@) {
                None => BodyOutcome::Done(st, None),
                Some(media) => {
                    let st1 = ParamState {
                        headers: st.headers.push(
                            (
                                "Content-Type"@,
                                ValueSourceV::Fixed(
                                    crate::ir::ValueV::String("application/json"@),
                                ),
                            ),
                        ),
                        ..st
                    };
                    match media.schema {
                        None => BodyOutcome::Done(st1, None),
                        Some(sref) => if schemas.len() >= usize::MAX {
                            BodyOutcome::Fail(ErrorV::Generation("schema table too large"@))
                        } else {
                            match spec_map_ref(
                            schemas,
                            sref,
                            "body"@,
                            Seq::empty(),
                            (schemas.len() + 1) as nat,
                        ) {
                            Mapped::Fail(e) => BodyOutcome::Fail(e),
                            Mapped::Skipped => BodyOutcome::Done(st1, None),
                            Mapped::Prop(pv) => match pv.type_ {
                                PropertyTypeV::Object(members) => match spec_splice(
                                    members,
                                    st1,
                                    Seq::empty(),
                                ) {
                                    SpliceOutcome::Spliced(st2, slots) => BodyOutcome::Done(
                                        st2,
                                        Some(BodySlotV::Fields(slots)),
                                    ),
                                    SpliceOutcome::Fail(e) => BodyOutcome::Fail(e),
                                },
                                _ => if st1.used.len() >= MAX_PROPERTIES {
                                    BodyOutcome::Fail(
                                        ErrorV::Generation("too many properties in one tool"@),
                                    )
                                } else {
                                    let uname = spec_unique_name(st1.used, "body"@);
                                    let prop = PropertyV {
                                        name: uname,
                                        description: pv.description,
                                        required: pv.required,
                                        type_: pv.type_,
                                    };
                                    BodyOutcome::Done(
                                        ParamState {
                                            used: st1.used.push(uname),
                                            props: st1.props.push(prop),
                                            ..st1
                                        },
                                        Some(
                                            BodySlotV::Whole(ValueSourceV::Property(uname)),
                                        ),
                                    )
                                },
                            },
                        }
                        },
                    }
                },
            },
            other => BodyOutcome::Fail(spec_resolve_err(other)),
        },
    }
}

pub enum OpOutcome {
    Tool(ToolV),
    Skip,
    Fail(ErrorV),
}

/// One operation as a Tool: the derived name under the length policy, the
/// description (the operation's own, or `METHOD path`), the parameters
/// (operation-level first, then path-level), and the request body.
pub open spec fn spec_operation_to_tool(
    d: Document,
    method: HttpMethod,
    path: Seq<char>,
    op: Operation,
    route_params: Seq<RefOr<ApiParameter>>,
    max_len: usize,
    skip_long: bool,
) -> OpOutcome {
    let name = spec_tool_name(method, path);
    if name.len() > max_len {
        if skip_long {
            OpOutcome::Skip
        } else {
            OpOutcome::Fail(ErrorV::NameTooLong(name))
        }
    } else {
        match spec_params_fold(
            d.components.parameters@,
            op.parameters@ + route_params,
            spec_empty_state(),
        ) {
            ParamOutcome::Fail(e) => OpOutcome::Fail(e),
            ParamOutcome::Next(st) => match spec_body(
                d.components.schemas@,
                d.components.request_bodies@,
                op.request_body,
                st,
            ) {
                BodyOutcome::Fail(e) => OpOutcome::Fail(e),
                BodyOutcome::Done(st2, body) => OpOutcome::Tool(
                    ToolV {
                        name,
                        description: match op.description {
                            Some(x) => x@,
                            None => method.spec_name() + seq![' '] + path,
                        },
                        properties: st2.props,
                        call: CallV {
                            method,
                            path,
                            path_params: st2.path_params,
                            query: st2.query,
                            headers: st2.headers,
                            body,
                        },
                    },
                ),
            },
        }
    }
}

/// Whether the allow-list admits the method (an empty list admits all).
pub open spec fn spec_method_allowed(allowed: Seq<HttpMethod>, m: HttpMethod) -> bool {
    allowed.len() == 0 || exists|i: int| 0 <= i < allowed.len() && allowed[i] == m
}

pub enum ToolsOutcome {
    Tools(Seq<ToolV>),
    Fail(ErrorV),
}

/// One possible operation of a path item: absent or filtered-out operations
/// contribute nothing.
pub open spec fn spec_try_op(
    d: Document,
    path: Seq<char>,
    method: HttpMethod,
    op: Option<Operation>,
    route_params: Seq<RefOr<ApiParameter>>,
    o: ConverterOptions,
    acc: Seq<ToolV>,
) -> ToolsOutcome {
    match op {
        None => ToolsOutcome::Tools(acc),
        Some(op) => if !spec_method_allowed(o.allowed_methods@, method) {
            ToolsOutcome::Tools(acc)
        } else {
            match spec_operation_to_tool(
                d,
                method,
                path,
                op,
                route_params,
                o.max_tool_name_length,
                o.skip_long_tool_names,
            ) {
                OpOutcome::Tool(t) => ToolsOutcome::Tools(acc.push(t)),
                OpOutcome::Skip => ToolsOutcome::Tools(acc),
                OpOutcome::Fail(e) => ToolsOutcome::Fail(e),
            }
        },
    }
}

/// The five methods of one path item, in a fixed order.
pub open spec fn spec_item_tools(
    d: Document,
    path: Seq<char>,
    pi: PathItem,
    o: ConverterOptions,
    acc: Seq<ToolV>,
) -> ToolsOutcome {
    match spec_try_op(d, path, HttpMethod::Get, pi.get, pi.parameters@, o, acc) {
        ToolsOutcome::Fail(e) => ToolsOutcome::Fail(e),
        ToolsOutcome::Tools(a1) => match spec_try_op(
            d,
            path,
            HttpMethod::Post,
            pi.post,
            pi.parameters@,
            o,
            a1,
        ) {
            ToolsOutcome::Fail(e) => ToolsOutcome::Fail(e),
            ToolsOutcome::Tools(a2) => match spec_try_op(
                d,
                path,
                HttpMethod::Put,
                pi.put,
                pi.parameters@,
                o,
                a2,
            ) {
                ToolsOutcome::Fail(e) => ToolsOutcome::Fail(e),
                ToolsOutcome::Tools(a3) => match spec_try_op(
                    d,
                    path,
                    HttpMethod::Delete,
                    pi.delete,
                    pi.parameters@,
                    o,
                    a3,
                ) {
                    ToolsOutcome::Fail(e) => ToolsOutcome::Fail(e),
                    ToolsOutcome::Tools(a4) => spec_try_op(
                        d,
                        path,
                        HttpMethod::Patch,
                        pi.patch,
                        pi.parameters@,
                        o,
                        a4,
                    ),
                },
            },
        },
    }
}

/// Every path in document order; a path the inclusion filter rejects is
/// skipped whole.
pub open spec fn spec_path_tools(
    d: Document,
    paths: Seq<(String, RefOr<PathItem>)>,
    o: ConverterOptions,
    acc: Seq<ToolV>,
) -> ToolsOutcome
    decreases paths.len(),
{
    if paths.len() == 0 {
        ToolsOutcome::Tools(acc)
    } else {
        match paths[0].1 {
            RefOr::Ref(r) => ToolsOutcome::Fail(
                ErrorV::Validation("Path item references are not supported: "@ + r@),
            ),
            RefOr::Item(pi) => {
                let included = match o.path_filter {
                    Some(p) => regex_accepts(p@, paths[0].0@),
                    None => true,
                };
                if !included {
                    spec_path_tools(d, paths.drop_first(), o, acc)
                } else {
                    match spec_item_tools(d, paths[0].0@, pi, o, acc) {
                        ToolsOutcome::Fail(e) => ToolsOutcome::Fail(e),
                        ToolsOutcome::Tools(a1) => spec_path_tools(d, paths.drop_first(), o, a1),
                    }
                }
            },
        }
    }
}

/// The first resolvable OAuth2 security scheme carrying an authorization-code
/// flow; schemes that do not resolve are passed over.
pub open spec fn spec_doc_oauth(schemes: Seq<(String, RefOr<SecurityScheme>)>, rest: Seq<(String, RefOr<SecurityScheme>)>) -> Option<OAuth2InfoV>
    decreases rest.len(),
{
    if rest.len() == 0 {
        None
    } else {
        match spec_resolve(schemes, rest[0].1, schemes.len() as nat) {
            Resolved::Found(s) => match s {
                SecurityScheme::OAuth2 { flows } => match flows.authorization_code {
                    Some(i) => Some(i@),
                    None => spec_doc_oauth(schemes, rest.drop_first()),
                },
                SecurityScheme::Other => spec_doc_oauth(schemes, rest.drop_first()),
            },
            _ => spec_doc_oauth(schemes, rest.drop_first()),
        }
    }
}

pub enum ConvOutcome {
    Srv(ServerV),
    Fail(ErrorV),
}

/// The whole conversion: validation first, then the path filter compiled,
/// then every path's operations, assembled with name, version, description,
/// base URL and the OAuth2 flow (options override first).
pub open spec fn spec_convert(d: Document, o: ConverterOptions) -> ConvOutcome {
    match crate::document::spec_validate(d) {
        Some(e) => ConvOutcome::Fail(e),
        None => {
            let filter_bad = match o.path_filter {
                Some(p) => !regex_ok(p@),
                None => false,
            };
            if filter_bad {
                ConvOutcome::Fail(
                    ErrorV::Parse(
                        "invalid path filter regular expression: "@ + o.path_filter->0@,
                    ),
                )
            } else {
                match spec_path_tools(d, d.paths@, o, Seq::empty()) {
                    ToolsOutcome::Fail(e) => ConvOutcome::Fail(e),
                    ToolsOutcome::Tools(tools) => ConvOutcome::Srv(
                        ServerV {
                            name: d.title@,
                            version: d.version@,
                            description: opt_str_view(d.description),
                            base_url: if d.servers@.len() >= 1 {
                                d.servers@[0]@
                            } else {
                                Seq::empty()
                            },
                            oauth2_info: match o.oauth2_info {
                                Some(i) => Some(i@),
                                None => spec_doc_oauth(
                                    d.components.security_schemes@,
                                    d.components.security_schemes@,
                                ),
                            },
                            tools,
                        },
                    ),
                }
            }
        },
    }
}


/// The view of an optional body slot.
pub open spec fn opt_body_view(b: Option<BodySlot>) -> Option<BodySlotV> {
    match b {
        Some(x) => Some(x@),
        None => None,
    }
}

/// A copy of an OAuth2 flow description.
pub fn clone_oauth(i: &OAuth2Info) -> (r: OAuth2Info)
    ensures
        r@ == i@,
{
    OAuth2Info {
        authorization_url: i.authorization_url.clone(),
        token_url: i.token_url.clone(),
        refresh_url: opt_string_copy(&i.refresh_url),
    }
}

/// Processes one resolved parameter into the accumulators.
fn apply_param(
    tbl: &Vec<(String, RefOr<ApiParameter>)>,
    r: &RefOr<ApiParameter>,
    used: &mut Vec<String>,
    props: &mut Vec<MCPToolProperty>,
    pp: &mut Vec<(String, ValueSource)>,
    q: &mut Vec<(String, ValueSource)>,
    h: &mut Vec<(String, ValueSource)>,
) -> (res: Result<(), Error>)
    ensures
        match res {
            Ok(()) => spec_param_step(
                tbl@,
                *r,
                state_of(old(used)@, old(props)@, old(pp)@, old(q)@, old(h)@),
            ) == ParamOutcome::Next(
                state_of(final(used)@, final(props)@, final(pp)@, final(q)@, final(h)@),
            ),
            Err(e) => spec_param_step(
                tbl@,
                *r,
                state_of(old(used)@, old(props)@, old(pp)@, old(q)@, old(h)@),
            ) == ParamOutcome::Fail(e@),
        },
{
    let ghost st0 = state_of(used@, props@, pp@, q@, h@);
    proof {
        assert(st0.used.len() == used@.len());
    }
    if used.len() >= MAX_PROPERTIES {
        return Err(Error::Generation("too many properties in one tool".to_owned()));
    }
    let p = match resolve_parameter(tbl, r) {
        Ok(p) => p,
        Err(e) => {
            return Err(e);
        },
    };
    if matches!(p.location, ParameterLocation::Cookie) {
        let msg = crate::text::concat2("cookie parameters are not supported: ", p.name.as_str());
        return Err(Error::Unsupported(msg));
    }
    let base = sanitize_name(p.name.as_str());
    let uname = unique_name(used, base.as_str());
    let ghost un = spec_unique_name(st0.used, spec_sanitize_name(p.name@));
    proof {
        assert(uname@ == un);
    }
    let prop = MCPToolProperty {
        name: uname.clone(),
        description: opt_string_copy(&p.description),
        required: if p.required {
            MCPToolPropertyRequired::Required
        } else {
            MCPToolPropertyRequired::Optional
        },
        type_: MCPToolPropertyType::String,
    };
    let ghost pspec = (PropertyV {
        name: un,
        description: opt_str_view(p.description),
        required: if p.required {
            crate::ir::PropertyRequiredV::Required
        } else {
            crate::ir::PropertyRequiredV::Optional
        },
        type_: PropertyTypeV::String,
    });
    let ghost props0 = props@;
    let ghost pprop = prop;
    props.push(prop);
    proof {
        crate::mapper::properties_view_push(props0, pprop);
        assert(crate::ir::property_view(pprop) == pspec);
        assert(properties_view(props@) =~= st0.props.push(pspec));
    }
    let ghost used0 = used@;
    used.push(uname.clone());
    proof {
        assert(names_of(used@) =~= st0.used.push(un));
    }
    let entry = (p.name.clone(), ValueSource::Property(PropertyId(uname)));
    let ghost ev = (p.name@, ValueSourceV::Property(un));
    match p.location {
        ParameterLocation::Path => {
            let ghost pp0 = pp@;
            pp.push(entry);
            proof {
                assert(slot_view(pp@) =~= st0.path_params.push(ev));
            }
        },
        ParameterLocation::Query => {
            let ghost q0 = q@;
            q.push(entry);
            proof {
                assert(slot_view(q@) =~= st0.query.push(ev));
            }
        },
        ParameterLocation::Header => {
            let ghost h0 = h@;
            h.push(entry);
            proof {
                assert(slot_view(h@) =~= st0.headers.push(ev));
            }
        },
        ParameterLocation::Cookie => {
            proof {
                assert(false);
            }
        },
    }
    proof {
        match spec_param_step(tbl@, *r, st0) {
            ParamOutcome::Next(stn) => {
                assert(state_of(used@, props@, pp@, q@, h@).used == stn.used);
                assert(state_of(used@, props@, pp@, q@, h@).props == stn.props);
                assert(state_of(used@, props@, pp@, q@, h@).path_params == stn.path_params);
                assert(state_of(used@, props@, pp@, q@, h@).query == stn.query);
                assert(state_of(used@, props@, pp@, q@, h@).headers == stn.headers);
            },
            ParamOutcome::Fail(_) => {
                assert(false);
            },
        }
    }
    Ok(())
}

/// The first JSON media entry.
fn find_json<'a>(content: &'a Vec<MediaEntry>) -> (r: Option<&'a MediaEntry>)
    ensures
        match r {
            Some(m) => spec_find_json(content@) == Some(*m),
            None => spec_find_json(content@) is None,
        },
{
    let mut i: usize = 0;
    proof {
        assert(content@.subrange(0, content@.len() as int) =~= content@);
    }
    while i < content.len()
        invariant
            i <= content@.len(),
            spec_find_json(content@) == spec_find_json(
                content@.subrange(i as int, content@.len() as int),
            ),
        decreases content@.len() - i,
    {
        let ghost rest = content@.subrange(i as int, content@.len() as int);
        let ghost rest2 = content@.subrange(i as int + 1, content@.len() as int);
        proof {
            assert(rest[0] == content@[i as int]);
            assert(rest.drop_first() =~= rest2);
        }
        if crate::text::str_eq(content[i].content_type.as_str(), "application/json") {
            return Some(&content[i]);
        }
        i = i + 1;
    }
    proof {
        assert(content@.subrange(content@.len() as int, content@.len() as int) =~= Seq::<
            MediaEntry,
        >::empty());
    }
    None
}

/// Processes the request body into the accumulators, handing back the body
/// slot, if any.
#[verifier::rlimit(50)]
fn apply_body(
    schemas: &Vec<(String, RefOr<Schema>)>,
    bodies: &Vec<(String, RefOr<ApiRequestBody>)>,
    rb: &Option<RefOr<ApiRequestBody>>,
    used: &mut Vec<String>,
    props: &mut Vec<MCPToolProperty>,
    pp: &Vec<(String, ValueSource)>,
    q: &Vec<(String, ValueSource)>,
    h: &mut Vec<(String, ValueSource)>,
) -> (res: Result<Option<BodySlot>, Error>)
    ensures
        match res {
            Ok(body) => spec_body(
                schemas@,
                bodies@,
                *rb,
                state_of(old(used)@, old(props)@, pp@, q@, old(h)@),
            ) == BodyOutcome::Done(
                state_of(final(used)@, final(props)@, pp@, q@, final(h)@),
                opt_body_view(body),
            ),
            Err(e) => spec_body(
                schemas@,
                bodies@,
                *rb,
                state_of(old(used)@, old(props)@, pp@, q@, old(h)@),
            ) == BodyOutcome::Fail(e@),
        },
{
    let ghost st0 = state_of(used@, props@, pp@, q@, h@);
    let r = match rb {
        None => {
            return Ok(None);
        },
        Some(r) => r,
    };
    let body = match resolve_request_body(bodies, r) {
        Ok(b) => b,
        Err(e) => {
            return Err(e);
        },
    };
    let media = match find_json(&body.content) {
        None => {
            return Ok(None);
        },
        Some(m) => m,
    };
    h.push(
        (
            "Content-Type".to_owned(),
            ValueSource::Fixed(Value::String("application/json".to_owned())),
        ),
    );
    let ghost st1 = state_of(used@, props@, pp@, q@, h@);
    proof {
        assert(st1.headers =~= st0.headers.push(
            ("Content-Type"@, ValueSourceV::Fixed(crate::ir::ValueV::String("application/json"@))),
        ));
        assert(st1 == (ParamState {
            headers: st0.headers.push(
                (
                    "Content-Type"@,
                    ValueSourceV::Fixed(crate::ir::ValueV::String("application/json"@)),
                ),
            ),
            ..st0
        }));
    }
    let sref = match &media.schema {
        None => {
            return Ok(None);
        },
        Some(sref) => sref,
    };
    if schemas.len() >= usize::MAX {
        return Err(Error::Generation("schema table too large".to_owned()));
    }
    let no_required: Vec<String> = Vec::new();
    proof {
        reveal_strlit("body");
    }
    let mapped = match map_schema_ref(schemas, sref, "body", &no_required, schemas.len() + 1) {
        Ok(m) => m,
        Err(e) => {
            return Err(e);
        },
    };
    let body_prop = match mapped {
        None => {
            return Ok(None);
        },
        Some(p) => p,
    };
    let ghost pv = body_prop@;
    let MCPToolProperty { name: _, description, required, type_ } = body_prop;
    match type_ {
        MCPToolPropertyType::Object(mut members) => {
            let mut slots: Vec<(String, ValueSource)> = Vec::new();
            let ghost members_all = crate::ir::properties_view(members@);
            proof {
                assert(pv.type_ == PropertyTypeV::Object(members_all));
                assert(slot_view(slots@) =~= Seq::<(Seq<char>, ValueSourceV)>::empty());
            }
            while members.len() > 0
                invariant
                    st0 == state_of(old(used)@, old(props)@, pp@, q@, old(h)@),
                    spec_body(schemas@, bodies@, *rb, st0) == (match spec_splice(
                        members_all,
                        st1,
                        Seq::empty(),
                    ) {
                        SpliceOutcome::Spliced(s2, sl) => BodyOutcome::Done(
                            s2,
                            Some(BodySlotV::Fields(sl)),
                        ),
                        SpliceOutcome::Fail(e) => BodyOutcome::Fail(e),
                    }),
                    spec_splice(members_all, st1, Seq::empty()) == spec_splice(
                        crate::ir::properties_view(members@),
                        state_of(used@, props@, pp@, q@, h@),
                        slot_view(slots@),
                    ),
                decreases members@.len(),
            {
                let ghost mseq = members@;
                let ghost mviews = crate::ir::properties_view(members@);
                let ghost stc = state_of(used@, props@, pp@, q@, h@);
                proof {
                    assert(stc.used.len() == used@.len());
                    assert(mviews.len() != 0);
                }
                if used.len() >= MAX_PROPERTIES {
                    return Err(Error::Generation("too many properties in one tool".to_owned()));
                }
                let m = members.remove(0);
                proof {
                    assert(members@ =~= mseq.drop_first());
                    assert(mviews == seq![crate::ir::property_view(mseq[0])]
                        + crate::ir::properties_view(mseq.drop_first()));
                    assert(mviews[0] == crate::ir::property_view(m));
                    assert(mviews.drop_first() =~= crate::ir::properties_view(members@));
                }
                let ghost mv = crate::ir::property_view(m);
                let base = sanitize_name(m.name.as_str());
                let uname = unique_name(used, base.as_str());
                let ghost un = spec_unique_name(stc.used, spec_sanitize_name(mv.name));
                proof {
                    assert(uname@ == un);
                }
                let MCPToolProperty { name: wire, description: md, required: mr, type_: mt } = m;
                let prop = MCPToolProperty {
                    name: uname.clone(),
                    description: md,
                    required: mr,
                    type_: mt,
                };
                let ghost props0 = props@;
                let ghost pprop = prop;
                props.push(prop);
                let ghost used0 = used@;
                used.push(uname.clone());
                let ghost slots0 = slots@;
                let ghost wirev = wire@;
                slots.push((wire, ValueSource::Property(PropertyId(uname))));
                proof {
                    crate::mapper::properties_view_push(props0, pprop);
                    assert(crate::ir::property_view(pprop) == (PropertyV {
                        name: un,
                        description: mv.description,
                        required: mv.required,
                        type_: mv.type_,
                    }));
                    assert(properties_view(props@) =~= stc.props.push(
                        crate::ir::property_view(pprop),
                    ));
                    assert(names_of(used@) =~= stc.used.push(un));
                    assert(wirev == mv.name);
                    assert(slot_view(slots@) =~= slot_view(slots0).push(
                        (mv.name, ValueSourceV::Property(un)),
                    ));
                    assert(state_of(used@, props@, pp@, q@, h@) == (ParamState {
                        used: stc.used.push(un),
                        props: stc.props.push(crate::ir::property_view(pprop)),
                        path_params: stc.path_params,
                        query: stc.query,
                        headers: stc.headers,
                    }));
                }
            }
            proof {
                assert(crate::ir::properties_view(members@) =~= Seq::<PropertyV>::empty());
            }
            Ok(Some(BodySlot::Fields(slots)))
        },
        other_type => {
            let ghost stc = state_of(used@, props@, pp@, q@, h@);
            proof {
                assert(stc == st1);
                assert(stc.used.len() == used@.len());
            }
            if used.len() >= MAX_PROPERTIES {
                return Err(Error::Generation("too many properties in one tool".to_owned()));
            }
            let uname = unique_name(used, "body");
            let ghost un = spec_unique_name(st1.used, "body"@);
            proof {
                assert(uname@ == un);
            }
            let prop = MCPToolProperty {
                name: uname.clone(),
                description,
                required,
                type_: other_type,
            };
            let ghost props0 = props@;
            let ghost pprop = prop;
            props.push(prop);
            let ghost used0 = used@;
            used.push(uname.clone());
            proof {
                crate::mapper::properties_view_push(props0, pprop);
                assert(crate::ir::property_view(pprop) == (PropertyV {
                    name: un,
                    description: pv.description,
                    required: pv.required,
                    type_: pv.type_,
                }));
                assert(properties_view(props@) =~= st1.props.push(
                    crate::ir::property_view(pprop),
                ));
                assert(names_of(used@) =~= st1.used.push(un));
            }
            Ok(Some(BodySlot::Whole(ValueSource::Property(PropertyId(uname)))))
        },
    }
}

/// Converts one operation into at most one Tool: the naming-length policy may
/// skip it, and resolution or unsupported constructs fail it.
#[verifier::rlimit(50)]
pub fn operation_to_tool(
    d: &Document,
    method: HttpMethod,
    path: &str,
    op: &Operation,
    route_params: &Vec<RefOr<ApiParameter>>,
    options: &ConverterOptions,
) -> (res: Result<Option<MCPTool>, Error>)
    ensures
        match res {
            Ok(Some(t)) => spec_operation_to_tool(
                *d,
                method,
                path@,
                *op,
                route_params@,
                options.max_tool_name_length,
                options.skip_long_tool_names,
            ) == OpOutcome::Tool(t@),
            Ok(None) => spec_operation_to_tool(
                *d,
                method,
                path@,
                *op,
                route_params@,
                options.max_tool_name_length,
                options.skip_long_tool_names,
            ) == OpOutcome::Skip,
            Err(e) => spec_operation_to_tool(
                *d,
                method,
                path@,
                *op,
                route_params@,
                options.max_tool_name_length,
                options.skip_long_tool_names,
            ) == OpOutcome::Fail(e@),
        },
{
    let name = tool_name(method, path);
    if name.as_str().unicode_len() > options.max_tool_name_length {
        if options.skip_long_tool_names {
            return Ok(None);
        }
        return Err(Error::NameTooLong(name));
    }
    let mut used: Vec<String> = Vec::new();
    let mut props: Vec<MCPToolProperty> = Vec::new();
    let mut pp: Vec<(String, ValueSource)> = Vec::new();
    let mut q: Vec<(String, ValueSource)> = Vec::new();
    let mut h: Vec<(String, ValueSource)> = Vec::new();
    let ghost allp = op.parameters@ + route_params@;
    proof {
        assert(names_of(used@) =~= Seq::<Seq<char>>::empty());
        assert(properties_view(props@) =~= Seq::<PropertyV>::empty());
        assert(slot_view(pp@) =~= Seq::<(Seq<char>, ValueSourceV)>::empty());
        assert(slot_view(q@) =~= Seq::<(Seq<char>, ValueSourceV)>::empty());
        assert(slot_view(h@) =~= Seq::<(Seq<char>, ValueSourceV)>::empty());
        assert(state_of(used@, props@, pp@, q@, h@) == spec_empty_state());
        assert(op.parameters@.subrange(0, op.parameters@.len() as int) + route_params@ =~= allp);
    }
    let mut i: usize = 0;
    while i < op.parameters.len()
        invariant
            i <= op.parameters@.len(),
            allp == op.parameters@ + route_params@,
            spec_tool_name(method, path@).len() <= options.max_tool_name_length,
            spec_params_fold(d.components.parameters@, allp, spec_empty_state())
                == spec_params_fold(
                d.components.parameters@,
                op.parameters@.subrange(i as int, op.parameters@.len() as int) + route_params@,
                state_of(used@, props@, pp@, q@, h@),
            ),
        decreases op.parameters@.len() - i,
    {
        let ghost rest = op.parameters@.subrange(i as int, op.parameters@.len() as int)
            + route_params@;
        let ghost rest2 = op.parameters@.subrange(i as int + 1, op.parameters@.len() as int)
            + route_params@;
        proof {
            assert(rest[0] == op.parameters@[i as int]);
            assert(rest.drop_first() =~= rest2);
        }
        match apply_param(
            &d.components.parameters,
            &op.parameters[i],
            &mut used,
            &mut props,
            &mut pp,
            &mut q,
            &mut h,
        ) {
            Ok(()) => {},
            Err(e) => {
                return Err(e);
            },
        }
        i = i + 1;
    }
    proof {
        assert(op.parameters@.subrange(op.parameters@.len() as int, op.parameters@.len() as int)
            + route_params@ =~= route_params@);
        assert(route_params@.subrange(0, route_params@.len() as int) =~= route_params@);
    }
    let mut j: usize = 0;
    while j < route_params.len()
        invariant
            j <= route_params@.len(),
            allp == op.parameters@ + route_params@,
            spec_tool_name(method, path@).len() <= options.max_tool_name_length,
            spec_params_fold(d.components.parameters@, allp, spec_empty_state())
                == spec_params_fold(
                d.components.parameters@,
                route_params@.subrange(j as int, route_params@.len() as int),
                state_of(used@, props@, pp@, q@, h@),
            ),
        decreases route_params@.len() - j,
    {
        let ghost rest = route_params@.subrange(j as int, route_params@.len() as int);
        let ghost rest2 = route_params@.subrange(j as int + 1, route_params@.len() as int);
        proof {
            assert(rest[0] == route_params@[j as int]);
            assert(rest.drop_first() =~= rest2);
        }
        match apply_param(
            &d.components.parameters,
            &route_params[j],
            &mut used,
            &mut props,
            &mut pp,
            &mut q,
            &mut h,
        ) {
            Ok(()) => {},
            Err(e) => {
                return Err(e);
            },
        }
        j = j + 1;
    }
    proof {
        assert(route_params@.subrange(route_params@.len() as int, route_params@.len() as int)
            =~= Seq::<RefOr<ApiParameter>>::empty());
    }
    let body = match apply_body(
        &d.components.schemas,
        &d.components.request_bodies,
        &op.request_body,
        &mut used,
        &mut props,
        &pp,
        &q,
        &mut h,
    ) {
        Ok(b) => b,
        Err(e) => {
            return Err(e);
        },
    };
    let description = match &op.description {
        Some(x) => x.clone(),
        None => {
            let mut t = method.name().to_owned();
            crate::text::push_char(&mut t, ' ');
            t.append(path);
            proof {
                assert(t@ =~= method.spec_name() + seq![' '] + path@);
            }
            t
        },
    };
    let tool = MCPTool {
        name,
        description,
        properties: props,
        call: Call { method, path: path.to_owned(), path_params: pp, query: q, headers: h, body },
    };
    proof {
        match spec_operation_to_tool(
            *d,
            method,
            path@,
            *op,
            route_params@,
            options.max_tool_name_length,
            options.skip_long_tool_names,
        ) {
            OpOutcome::Tool(tv) => {
                assert(tool@.name == tv.name);
                assert(tool@.description == tv.description);
                assert(tool@.properties == tv.properties);
                assert(tool@.call == tv.call);
            },
            _ => {
                assert(false);
            },
        }
    }
    Ok(Some(tool))
}

/// Whether the allow-list admits the method.
pub fn method_allowed(allowed: &Vec<HttpMethod>, m: HttpMethod) -> (r: bool)
    ensures
        r == spec_method_allowed(allowed@, m),
{
    if allowed.len() == 0 {
        return true;
    }
    let mut i: usize = 0;
    while i < allowed.len()
        invariant
            i <= allowed@.len(),
            forall|j: int| 0 <= j < i ==> allowed@[j] != m,
        decreases allowed@.len() - i,
    {
        if allowed[i] == m {
            return true;
        }
        i = i + 1;
    }
    false
}

/// Converts one possible operation, appending the Tool if one is produced.
fn try_op(
    d: &Document,
    path: &str,
    method: HttpMethod,
    op: &Option<Operation>,
    route_params: &Vec<RefOr<ApiParameter>>,
    options: &ConverterOptions,
    tools: &mut Vec<MCPTool>,
) -> (res: Result<(), Error>)
    ensures
        match res {
            Ok(()) => spec_try_op(
                *d,
                path@,
                method,
                *op,
                route_params@,
                *options,
                tools_view(old(tools)@),
            ) == ToolsOutcome::Tools(tools_view(final(tools)@)),
            Err(e) => spec_try_op(
                *d,
                path@,
                method,
                *op,
                route_params@,
                *options,
                tools_view(old(tools)@),
            ) == ToolsOutcome::Fail(e@),
        },
{
    let op = match op {
        None => {
            return Ok(());
        },
        Some(op) => op,
    };
    if !method_allowed(&options.allowed_methods, method) {
        return Ok(());
    }
    match operation_to_tool(d, method, path, op, route_params, options) {
        Ok(Some(t)) => {
            let ghost tools0 = tools@;
            let ghost tv = t@;
            tools.push(t);
            proof {
                assert(tools_view(tools@) =~= tools_view(tools0).push(tv));
            }
            Ok(())
        },
        Ok(None) => Ok(()),
        Err(e) => Err(e),
    }
}

/// Scans the document's security schemes for the first OAuth2 scheme carrying
/// an authorization-code flow.
fn doc_oauth(schemes: &Vec<(String, RefOr<SecurityScheme>)>) -> (r: Option<OAuth2Info>)
    ensures
        match r {
            Some(i) => spec_doc_oauth(schemes@, schemes@) == Some(i@),
            None => spec_doc_oauth(schemes@, schemes@) is None,
        },
{
    let mut i: usize = 0;
    proof {
        assert(schemes@.subrange(0, schemes@.len() as int) =~= schemes@);
    }
    while i < schemes.len()
        invariant
            i <= schemes@.len(),
            spec_doc_oauth(schemes@, schemes@) == spec_doc_oauth(
                schemes@,
                schemes@.subrange(i as int, schemes@.len() as int),
            ),
        decreases schemes@.len() - i,
    {
        let ghost rest = schemes@.subrange(i as int, schemes@.len() as int);
        let ghost rest2 = schemes@.subrange(i as int + 1, schemes@.len() as int);
        proof {
            assert(rest[0] == schemes@[i as int]);
            assert(rest.drop_first() =~= rest2);
        }
        match crate::resolver::resolve_security_scheme(schemes, &schemes[i].1) {
            Ok(s) => {
                match s {
                    SecurityScheme::OAuth2 { flows } => {
                        match &flows.authorization_code {
                            Some(info) => {
                                return Some(clone_oauth(info));
                            },
                            None => {},
                        }
                    },
                    SecurityScheme::Other => {},
                }
            },
            Err(_) => {},
        }
        i = i + 1;
    }
    proof {
        assert(schemes@.subrange(schemes@.len() as int, schemes@.len() as int) =~= Seq::<
            (String, RefOr<SecurityScheme>),
        >::empty());
    }
    None
}

/// Converts a validated document into the Server IR under the given options:
/// the structural checks run first; an unusable path filter fails the run;
/// every path's operations are converted in document order; and the OAuth2
/// flow is the options' override or, failing that, the document's.
#[verifier::rlimit(80)]
pub fn openapi_to_mcp_server(d: &Document, options: &ConverterOptions) -> (res: Result<
    MCPServer,
    Error,
>)
    ensures
        match res {
            Ok(s) => spec_convert(*d, *options) == ConvOutcome::Srv(s@),
            Err(e) => spec_convert(*d, *options) == ConvOutcome::Fail(e@),
        },
{
    match crate::document::validate_document(d) {
        Ok(()) => {},
        Err(e) => {
            return Err(e);
        },
    }
    match &options.path_filter {
        Some(pat) => {
            match regex_is_match(pat.as_str(), "") {
                None => {
                    let msg = crate::text::concat2(
                        "invalid path filter regular expression: ",
                        pat.as_str(),
                    );
                    return Err(Error::Parse(msg));
                },
                Some(_) => {},
            }
        },
        None => {},
    }
    let mut tools: Vec<MCPTool> = Vec::new();
    let mut i: usize = 0;
    proof {
        assert(d.paths@.subrange(0, d.paths@.len() as int) =~= d.paths@);
        assert(tools_view(tools@) =~= Seq::<ToolV>::empty());
    }
    while i < d.paths.len()
        invariant
            i <= d.paths@.len(),
            crate::document::spec_validate(*d) is None,
            match options.path_filter {
                Some(p) => regex_ok(p@),
                None => true,
            },
            spec_path_tools(*d, d.paths@, *options, Seq::empty()) == spec_path_tools(
                *d,
                d.paths@.subrange(i as int, d.paths@.len() as int),
                *options,
                tools_view(tools@),
            ),
        decreases d.paths@.len() - i,
    {
        let ghost rest = d.paths@.subrange(i as int, d.paths@.len() as int);
        let ghost rest2 = d.paths@.subrange(i as int + 1, d.paths@.len() as int);
        proof {
            assert(rest[0] == d.paths@[i as int]);
            assert(rest.drop_first() =~= rest2);
        }
        let path = &d.paths[i].0;
        match &d.paths[i].1 {
            RefOr::Ref(r) => {
                let msg = crate::text::concat2(
                    "Path item references are not supported: ",
                    r.as_str(),
                );
                return Err(Error::Validation(msg));
            },
            RefOr::Item(pi) => {
                let included = match &options.path_filter {
                    Some(pat) => {
                        match regex_is_match(pat.as_str(), path.as_str()) {
                            Some(b) => b,
                            None => {
                                proof {
                                    assert(false);
                                }
                                false
                            },
                        }
                    },
                    None => true,
                };
                if included {
                    let ghost a0 = tools_view(tools@);
                    match try_op(
                        d,
                        path.as_str(),
                        HttpMethod::Get,
                        &pi.get,
                        &pi.parameters,
                        options,
                        &mut tools,
                    ) {
                        Ok(()) => {},
                        Err(e) => {
                            return Err(e);
                        },
                    }
                    let ghost a1 = tools_view(tools@);
                    match try_op(
                        d,
                        path.as_str(),
                        HttpMethod::Post,
                        &pi.post,
                        &pi.parameters,
                        options,
                        &mut tools,
                    ) {
                        Ok(()) => {},
                        Err(e) => {
                            return Err(e);
                        },
                    }
                    let ghost a2 = tools_view(tools@);
                    match try_op(
                        d,
                        path.as_str(),
                        HttpMethod::Put,
                        &pi.put,
                        &pi.parameters,
                        options,
                        &mut tools,
                    ) {
                        Ok(()) => {},
                        Err(e) => {
                            return Err(e);
                        },
                    }
                    let ghost a3 = tools_view(tools@);
                    match try_op(
                        d,
                        path.as_str(),
                        HttpMethod::Delete,
                        &pi.delete,
                        &pi.parameters,
                        options,
                        &mut tools,
                    ) {
                        Ok(()) => {},
                        Err(e) => {
                            return Err(e);
                        },
                    }
                    let ghost a4 = tools_view(tools@);
                    match try_op(
                        d,
                        path.as_str(),
                        HttpMethod::Patch,
                        &pi.patch,
                        &pi.parameters,
                        options,
                        &mut tools,
                    ) {
                        Ok(()) => {},
                        Err(e) => {
                            return Err(e);
                        },
                    }
                    proof {
                        assert(spec_item_tools(*d, path@, *pi, *options, a0) == ToolsOutcome::Tools(
                            tools_view(tools@),
                        ));
                    }
                }
            },
        }
        i = i + 1;
    }
    proof {
        assert(d.paths@.subrange(d.paths@.len() as int, d.paths@.len() as int) =~= Seq::<
            (String, RefOr<PathItem>),
        >::empty());
    }
    let oauth2_info = match &options.oauth2_info {
        Some(info) => Some(clone_oauth(info)),
        None => doc_oauth(&d.components.security_schemes),
    };
    let base_url = if d.servers.len() >= 1 {
        d.servers[0].clone()
    } else {
        String::new()
    };
    let server = MCPServer {
        name: d.title.clone(),
        version: d.version.clone(),
        description: opt_string_copy(&d.description),
        base_url,
        oauth2_info,
        tools,
    };
    proof {
        match spec_convert(*d, *options) {
            ConvOutcome::Srv(sv) => {
                assert(server@.name == sv.name);
                assert(server@.version == sv.version);
                assert(server@.description == sv.description);
                assert(server@.base_url == sv.base_url);
                assert(server@.oauth2_info == sv.oauth2_info);
                assert(server@.tools == sv.tools);
            },
            ConvOutcome::Fail(_) => {
                assert(false);
            },
        }
    }
    Ok(server)
}

impl MCPServer {
    /// Converts a document under the given options.
    pub fn from_openapi(d: &Document, options: &ConverterOptions) -> (res: Result<
        MCPServer,
        Error,
    >)
        ensures
            match res {
                Ok(s) => spec_convert(*d, *options) == ConvOutcome::Srv(s@),
                Err(e) => spec_convert(*d, *options) == ConvOutcome::Fail(e@),
            },
    {
        openapi_to_mcp_server(d, options)
    }
}

} // verus!
