//! Intermediate representation produced by the converter and consumed by the
//! code generator: a Server holding Tools, each Tool holding Properties and
//! exactly one outbound Call description.
//!
//! Every type has a mathematical mirror (`...V`) over `Seq<char>` and `Seq`,
//! reached through `View`, so that contracts can speak of values exactly.

use vstd::prelude::*;

verus! {

/// The HTTP methods a Tool's call can use.
#[derive(Clone, Copy, Debug, PartialEq, Eq, Structural)]
pub enum HttpMethod {
    Get,
    Post,
    Put,
    Delete,
    Patch,
}

impl HttpMethod {
    /// The upper-case wire name of the method.
    pub open spec fn spec_name(self) -> Seq<char> {
        match self {
            HttpMethod::Get => "GET"@,
            HttpMethod::Post => "POST"@,
            HttpMethod::Put => "PUT"@,
            HttpMethod::Delete => "DELETE"@,
            HttpMethod::Patch => "PATCH"@,
        }
    }

    /// The lower-case spelling used in tool names.
    pub open spec fn spec_lower_name(self) -> Seq<char> {
        match self {
            HttpMethod::Get => "get"@,
            HttpMethod::Post => "post"@,
            HttpMethod::Put => "put"@,
            HttpMethod::Delete => "delete"@,
            HttpMethod::Patch => "patch"@,
        }
    }

    pub fn name(&self) -> (r: &'static str)
        ensures
            r@ == self.spec_name(),
    {
        match self {
            HttpMethod::Get => "GET",
            HttpMethod::Post => "POST",
            HttpMethod::Put => "PUT",
            HttpMethod::Delete => "DELETE",
            HttpMethod::Patch => "PATCH",
        }
    }

    pub fn lower_name(&self) -> (r: &'static str)
        ensures
            r@ == self.spec_lower_name(),
    {
        match self {
            HttpMethod::Get => "get",
            HttpMethod::Post => "post",
            HttpMethod::Put => "put",
            HttpMethod::Delete => "delete",
            HttpMethod::Patch => "patch",
        }
    }
}

/// A literal value baked into a Call at generation time.
///
/// A numeric value is carried as its decimal rendering, so that the library
/// stays within exact arithmetic; the code generator emits the text verbatim.
#[derive(Clone, Debug)]
pub enum Value {
    String(String),
    Number(String),
    Boolean(bool),
}

/// Mirror of `Value`.
pub enum ValueV {
    String(Seq<char>),
    Number(Seq<char>),
    Boolean(bool),
}

impl View for Value {
    type V = ValueV;

    open spec fn view(&self) -> ValueV {
        match self {
            Value::String(s) => ValueV::String(s@),
            Value::Number(s) => ValueV::Number(s@),
            Value::Boolean(b) => ValueV::Boolean(*b),
        }
    }
}

/// Names a Property of a Tool: it carries exactly the property's name, so the
/// cross-reference invariant (every id used by a Call names a listed Property)
/// is a statement about name membership.
#[derive(Clone, Debug)]
pub struct PropertyId(pub String);

impl View for PropertyId {
    type V = Seq<char>;

    open spec fn view(&self) -> Seq<char> {
        self.0@
    }
}

impl PropertyId {
    /// Id of a property that originated from a header parameter.
    pub fn from_header(header: &str) -> (r: Self)
        ensures
            r@ == header@,
    {
        PropertyId(header.to_owned())
    }

    /// Id of a property that originated from a query parameter.
    pub fn from_query(query: &str) -> (r: Self)
        ensures
            r@ == query@,
    {
        PropertyId(query.to_owned())
    }

    /// Id of a property that originated from a path parameter.
    pub fn from_path(path: &str) -> (r: Self)
        ensures
            r@ == path@,
    {
        PropertyId(path.to_owned())
    }

    /// Id of a property that originated from a request body.
    pub fn from_body(body: &str) -> (r: Self)
        ensures
            r@ == body@,
    {
        PropertyId(body.to_owned())
    }

    pub fn as_str(&self) -> (r: &str)
        ensures
            r@ == self@,
    {
        self.0.as_str()
    }
}

/// Where a Call slot's value comes from: a baked-in literal, or a named
/// Property of the Tool, filled from validated input at call time.
#[derive(Clone, Debug)]
pub enum ValueSource {
    Fixed(Value),
    Property(PropertyId),
}

/// Mirror of `ValueSource`.
pub enum ValueSourceV {
    Fixed(ValueV),
    Property(Seq<char>),
}

impl View for ValueSource {
    type V = ValueSourceV;

    open spec fn view(&self) -> ValueSourceV {
        match self {
            ValueSource::Fixed(v) => ValueSourceV::Fixed(v@),
            ValueSource::Property(id) => ValueSourceV::Property(id@),
        }
    }
}

/// Whether a Tool input must be supplied, may be omitted, or falls back to a
/// declared default value.
#[derive(Clone, Debug)]
pub enum MCPToolPropertyRequired {
    Required,
    Optional,
    DefaultValue(Value),
}

/// Mirror of `MCPToolPropertyRequired`.
pub enum PropertyRequiredV {
    Required,
    Optional,
    DefaultValue(ValueV),
}

impl View for MCPToolPropertyRequired {
    type V = PropertyRequiredV;

    open spec fn view(&self) -> PropertyRequiredV {
        match self {
            MCPToolPropertyRequired::Required => PropertyRequiredV::Required,
            MCPToolPropertyRequired::Optional => PropertyRequiredV::Optional,
            MCPToolPropertyRequired::DefaultValue(v) => PropertyRequiredV::DefaultValue(v@),
        }
    }
}

/// The type of a Tool input: a primitive, an array of one item shape, or an
/// object of named member properties (each member's key is its `name`).
#[derive(Debug)]
pub enum MCPToolPropertyType {
    String,
    Number,
    Boolean,
    Array(Box<MCPToolProperty>),
    Object(Vec<MCPToolProperty>),
}

/// One named input of a Tool.
#[derive(Debug)]
pub struct MCPToolProperty {
    pub name: String,
    pub description: Option<String>,
    pub required: MCPToolPropertyRequired,
    pub type_: MCPToolPropertyType,
}

/// Mirror of `MCPToolPropertyType`.
pub enum PropertyTypeV {
    String,
    Number,
    Boolean,
    Array(Box<PropertyV>),
    Object(Seq<PropertyV>),
}

/// Mirror of `MCPToolProperty`.
pub struct PropertyV {
    pub name: Seq<char>,
    pub description: Option<Seq<char>>,
    pub required: PropertyRequiredV,
    pub type_: PropertyTypeV,
}

/// View of an optional string.
pub open spec fn opt_str_view(s: Option<String>) -> Option<Seq<char>> {
    match s {
        Some(x) => Some(x@),
        None => None,
    }
}

pub open spec fn property_view(p: MCPToolProperty) -> PropertyV
    decreases p,
{
    PropertyV {
        name: p.name@,
        description: opt_str_view(p.description),
        required: p.required@,
        type_: property_type_view(p.type_),
    }
}

pub open spec fn property_type_view(t: MCPToolPropertyType) -> PropertyTypeV
    decreases t,
{
    match t {
        MCPToolPropertyType::String => PropertyTypeV::String,
        MCPToolPropertyType::Number => PropertyTypeV::Number,
        MCPToolPropertyType::Boolean => PropertyTypeV::Boolean,
        MCPToolPropertyType::Array(item) => PropertyTypeV::Array(Box::new(property_view(*item))),
        MCPToolPropertyType::Object(members) => PropertyTypeV::Object(properties_view(members@)),
    }
}

pub open spec fn properties_view(s: Seq<MCPToolProperty>) -> Seq<PropertyV>
    decreases s,
{
    if s.len() == 0 {
        Seq::empty()
    } else {
        seq![property_view(s[0])] + properties_view(s.drop_first())
    }
}

impl View for MCPToolProperty {
    type V = PropertyV;

    open spec fn view(&self) -> PropertyV {
        property_view(*self)
    }
}

/// The body of a Call: either a JSON object assembled from named fields
/// (each a wire-level name with its value source), or one whole value. A
/// flattened body is a field map rather than one synthetic aggregate source,
/// so the cross-reference invariant covers body sources like any other slot.
#[derive(Clone, Debug)]
pub enum BodySlot {
    Fields(Vec<(String, ValueSource)>),
    Whole(ValueSource),
}

/// Mirror of `BodySlot`.
pub enum BodySlotV {
    Fields(Seq<(Seq<char>, ValueSourceV)>),
    Whole(ValueSourceV),
}

impl View for BodySlot {
    type V = BodySlotV;

    open spec fn view(&self) -> BodySlotV {
        match self {
            BodySlot::Fields(b) => BodySlotV::Fields(slot_view(b@)),
            BodySlot::Whole(v) => BodySlotV::Whole(v@),
        }
    }
}

/// One slot map of a Call: wire-level name to value source.
pub open spec fn slot_view(s: Seq<(String, ValueSource)>) -> Seq<(Seq<char>, ValueSourceV)> {
    s.map_values(|e: (String, ValueSource)| (e.0@, e.1@))
}

/// The outbound HTTP request of one Tool: method, path template, and the four
/// slot maps (path parameters, query parameters, headers, optional body).
#[derive(Clone, Debug)]
pub struct Call {
    pub method: HttpMethod,
    pub path: String,
    pub path_params: Vec<(String, ValueSource)>,
    pub query: Vec<(String, ValueSource)>,
    pub headers: Vec<(String, ValueSource)>,
    pub body: Option<BodySlot>,
}

/// Mirror of `Call`.
pub struct CallV {
    pub method: HttpMethod,
    pub path: Seq<char>,
    pub path_params: Seq<(Seq<char>, ValueSourceV)>,
    pub query: Seq<(Seq<char>, ValueSourceV)>,
    pub headers: Seq<(Seq<char>, ValueSourceV)>,
    pub body: Option<BodySlotV>,
}

impl View for Call {
    type V = CallV;

    open spec fn view(&self) -> CallV {
        CallV {
            method: self.method,
            path: self.path@,
            path_params: slot_view(self.path_params@),
            query: slot_view(self.query@),
            headers: slot_view(self.headers@),
            body: match &self.body {
                Some(BodySlot::Fields(b)) => Some(BodySlotV::Fields(slot_view(b@))),
                Some(BodySlot::Whole(v)) => Some(BodySlotV::Whole(v@)),
                None => None,
            },
        }
    }
}

/// One independently invocable unit derived from one operation.
#[derive(Debug)]
pub struct MCPTool {
    pub name: String,
    pub description: String,
    pub properties: Vec<MCPToolProperty>,
    pub call: Call,
}

/// Mirror of `MCPTool`.
pub struct ToolV {
    pub name: Seq<char>,
    pub description: Seq<char>,
    pub properties: Seq<PropertyV>,
    pub call: CallV,
}

impl View for MCPTool {
    type V = ToolV;

    open spec fn view(&self) -> ToolV {
        ToolV {
            name: self.name@,
            description: self.description@,
            properties: properties_view(self.properties@),
            call: self.call@,
        }
    }
}

/// An OAuth2 authorization-code flow: where to authorize, where to fetch
/// tokens, and optionally where to refresh them.
#[derive(Clone, Debug)]
pub struct OAuth2Info {
    pub authorization_url: String,
    pub token_url: String,
    pub refresh_url: Option<String>,
}

/// Mirror of `OAuth2Info`.
pub struct OAuth2InfoV {
    pub authorization_url: Seq<char>,
    pub token_url: Seq<char>,
    pub refresh_url: Option<Seq<char>>,
}

impl View for OAuth2Info {
    type V = OAuth2InfoV;

    open spec fn view(&self) -> OAuth2InfoV {
        OAuth2InfoV {
            authorization_url: self.authorization_url@,
            token_url: self.token_url@,
            refresh_url: opt_str_view(self.refresh_url),
        }
    }
}

/// The views of a list of tools.
pub open spec fn tools_view(s: Seq<MCPTool>) -> Seq<ToolV> {
    s.map_values(|t: MCPTool| t@)
}

/// The complete conversion result for one document.
#[derive(Debug)]
pub struct MCPServer {
    pub name: String,
    pub version: String,
    pub description: Option<String>,
    pub base_url: String,
    pub oauth2_info: Option<OAuth2Info>,
    pub tools: Vec<MCPTool>,
}

/// Mirror of `MCPServer`.
pub struct ServerV {
    pub name: Seq<char>,
    pub version: Seq<char>,
    pub description: Option<Seq<char>>,
    pub base_url: Seq<char>,
    pub oauth2_info: Option<OAuth2InfoV>,
    pub tools: Seq<ToolV>,
}

impl View for MCPServer {
    type V = ServerV;

    open spec fn view(&self) -> ServerV {
        ServerV {
            name: self.name@,
            version: self.version@,
            description: opt_str_view(self.description),
            base_url: self.base_url@,
            oauth2_info: match self.oauth2_info {
                Some(i) => Some(i@),
                None => None,
            },
            tools: tools_view(self.tools@),
        }
    }
}

/// Options that steer the converter; never mutated by it.
#[derive(Clone, Debug)]
pub struct ConverterOptions {
    /// When set, only paths accepted by this regular expression produce Tools.
    pub path_filter: Option<String>,
    /// When non-empty, only these methods produce Tools.
    pub allowed_methods: Vec<HttpMethod>,
    /// Longest tool name the run accepts.
    pub max_tool_name_length: usize,
    /// Whether an over-long name skips that one Tool (true) or fails the run
    /// (false).
    pub skip_long_tool_names: bool,
    /// Explicit OAuth2 flow; takes precedence over any flow found in the
    /// document's security schemes.
    pub oauth2_info: Option<OAuth2Info>,
}

/// Mirror of `ConverterOptions`.
pub struct ConverterOptionsV {
    pub path_filter: Option<Seq<char>>,
    pub allowed_methods: Seq<HttpMethod>,
    pub max_tool_name_length: usize,
    pub skip_long_tool_names: bool,
    pub oauth2_info: Option<OAuth2InfoV>,
}

impl View for ConverterOptions {
    type V = ConverterOptionsV;

    open spec fn view(&self) -> ConverterOptionsV {
        ConverterOptionsV {
            path_filter: opt_str_view(self.path_filter),
            allowed_methods: self.allowed_methods@,
            max_tool_name_length: self.max_tool_name_length,
            skip_long_tool_names: self.skip_long_tool_names,
            oauth2_info: match self.oauth2_info {
                Some(i) => Some(i@),
                None => None,
            },
        }
    }
}

impl Default for ConverterOptions {
    /// No filters, no OAuth2 override, names up to 80 characters, over-long
    /// names failing the run.
    fn default() -> (r: Self)
        ensures
            r@.path_filter is None,
            r@.allowed_methods == Seq::<HttpMethod>::empty(),
            r@.max_tool_name_length == 80,
            !r@.skip_long_tool_names,
            r@.oauth2_info is None,
    {
        ConverterOptions {
            path_filter: None,
            allowed_methods: Vec::new(),
            max_tool_name_length: 80,
            skip_long_tool_names: false,
            oauth2_info: None,
        }
    }
}

/// The names used by a slot map's property-reference sources.
pub open spec fn slot_property_refs(s: Seq<(Seq<char>, ValueSourceV)>) -> Set<Seq<char>> {
    Set::new(|n: Seq<char>| exists|i: int|
        0 <= i < s.len() && s[i].1 == ValueSourceV::Property(n))
}

/// The names of a Tool's listed properties.
pub open spec fn property_names(props: Seq<PropertyV>) -> Set<Seq<char>> {
    Set::new(|n: Seq<char>| exists|i: int| 0 <= i < props.len() && props[i].name == n)
}

/// Cross-reference invariant: every property id used by the Call's value
/// sources names a Property present in the Tool's property list.
pub open spec fn tool_refs_ok(t: ToolV) -> bool {
    &&& slot_property_refs(t.call.path_params).subset_of(property_names(t.properties))
    &&& slot_property_refs(t.call.query).subset_of(property_names(t.properties))
    &&& slot_property_refs(t.call.headers).subset_of(property_names(t.properties))
    &&& match t.call.body {
        Some(BodySlotV::Fields(b)) => slot_property_refs(b).subset_of(
            property_names(t.properties),
        ),
        Some(BodySlotV::Whole(v)) => match v {
            ValueSourceV::Property(n) => property_names(t.properties).contains(n),
            ValueSourceV::Fixed(_) => true,
        },
        None => true,
    }
}

/// Property names are unique within a Tool.
pub open spec fn tool_names_unique(t: ToolV) -> bool {
    forall|i: int, j: int|
        0 <= i < j < t.properties.len() ==> t.properties[i].name != t.properties[j].name
}

} // verus!
