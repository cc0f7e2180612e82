//! The library's own model of an OpenAPI 3.x document: exactly the parts the
//! converter reads, as plain values. The caller that parses an on-disk
//! document builds one of these.

use vstd::prelude::*;

use crate::error::{Error, ErrorV};
use crate::ir::{OAuth2Info, Value};
use crate::text::{spec_starts_with, str_starts_with};

verus! {

/// Either a component reference (by its `#/components/...` pointer) or the
/// item itself.
#[derive(Debug)]
pub enum RefOr<T> {
    Ref(String),
    Item(T),
}

/// Where a parameter is carried on the wire.
#[derive(Clone, Copy, Debug, PartialEq, Eq, Structural)]
pub enum ParameterLocation {
    Query,
    Header,
    Path,
    Cookie,
}

/// One declared operation parameter.
#[derive(Debug)]
pub struct ApiParameter {
    pub name: String,
    pub location: ParameterLocation,
    pub required: bool,
    pub description: Option<String>,
}

/// Annotations shared by every schema node.
#[derive(Debug)]
pub struct SchemaData {
    pub title: Option<String>,
    pub description: Option<String>,
    pub default: Option<Value>,
}

/// The structural kind of a schema node.
#[derive(Debug)]
pub enum SchemaKind {
    String,
    Number,
    Integer,
    Boolean,
    Object { properties: Vec<(String, RefOr<Schema>)>, required: Vec<String> },
    Array { items: Option<Box<RefOr<Schema>>> },
    OneOf(Vec<RefOr<Schema>>),
    AllOf(Vec<RefOr<Schema>>),
    AnyOf(Vec<RefOr<Schema>>),
    Not,
    Any,
}

/// One schema node.
#[derive(Debug)]
pub struct Schema {
    pub data: SchemaData,
    pub kind: SchemaKind,
}

/// One request-body media entry: a content type and its schema, if declared.
#[derive(Debug)]
pub struct MediaEntry {
    pub content_type: String,
    pub schema: Option<RefOr<Schema>>,
}

/// A declared request body.
#[derive(Debug)]
pub struct ApiRequestBody {
    pub required: bool,
    pub content: Vec<MediaEntry>,
}

/// One operation: its description, parameters, and optional request body.
#[derive(Debug)]
pub struct Operation {
    pub description: Option<String>,
    pub parameters: Vec<RefOr<ApiParameter>>,
    pub request_body: Option<RefOr<ApiRequestBody>>,
}

/// One path entry with up to five operations and path-level parameters.
#[derive(Debug)]
pub struct PathItem {
    pub get: Option<Operation>,
    pub post: Option<Operation>,
    pub put: Option<Operation>,
    pub delete: Option<Operation>,
    pub patch: Option<Operation>,
    pub parameters: Vec<RefOr<ApiParameter>>,
}

/// The OAuth2 flows of a security scheme; only the authorization-code flow is
/// read.
#[derive(Debug)]
pub struct OAuth2Flows {
    pub authorization_code: Option<OAuth2Info>,
}

/// A declared security scheme; every kind but OAuth2 is opaque to the
/// converter.
#[derive(Debug)]
pub enum SecurityScheme {
    OAuth2 { flows: OAuth2Flows },
    Other,
}

/// The document's component tables, each in declaration order.
#[derive(Debug)]
pub struct Components {
    pub parameters: Vec<(String, RefOr<ApiParameter>)>,
    pub request_bodies: Vec<(String, RefOr<ApiRequestBody>)>,
    pub schemas: Vec<(String, RefOr<Schema>)>,
    pub security_schemes: Vec<(String, RefOr<SecurityScheme>)>,
}

/// A parsed OpenAPI 3.x document, reduced to what the converter reads.
#[derive(Debug)]
pub struct Document {
    /// The declared specification version, e.g. `3.0.0`.
    pub openapi: String,
    pub title: String,
    pub version: String,
    pub description: Option<String>,
    /// The declared server base URLs; at most one is supported.
    pub servers: Vec<String>,
    pub paths: Vec<(String, RefOr<PathItem>)>,
    pub components: Components,
}

/// The reference string of the first path entry that is a reference rather
/// than an item, if any.
pub open spec fn spec_first_path_ref(paths: Seq<(String, RefOr<PathItem>)>) -> Option<Seq<char>>
    decreases paths.len(),
{
    if paths.len() == 0 {
        None
    } else {
        match paths[0].1 {
            RefOr::Ref(r) => Some(r@),
            RefOr::Item(_) => spec_first_path_ref(paths.drop_first()),
        }
    }
}

/// The outcome of validation: the first failing structural check, if any.
pub open spec fn spec_validate(d: Document) -> Option<ErrorV> {
    if !spec_starts_with(d.openapi@, "3."@) {
        Some(ErrorV::Validation("Only OpenAPI 3.x specifications are supported"@))
    } else if d.title@.len() == 0 {
        Some(ErrorV::Validation("API title is required"@))
    } else if d.paths@.len() == 0 {
        Some(ErrorV::Validation("OpenAPI spec must have at least one path"@))
    } else {
        match spec_first_path_ref(d.paths@) {
            Some(r) => Some(
                ErrorV::Validation("Path item references are not supported: "@ + r),
            ),
            None => if d.servers@.len() > 1 {
                Some(ErrorV::Validation("Only a single server entry is supported"@))
            } else {
                None
            },
        }
    }
}

/// Checks the structural requirements on a document: a 3.x version, a
/// non-empty title, at least one path, no path-item references, and at most
/// one server entry. Returns the first violated requirement.
pub fn validate_document(d: &Document) -> (r: Result<(), Error>)
    ensures
        match r {
            Ok(()) => spec_validate(*d) is None,
            Err(e) => spec_validate(*d) == Some(e@),
        },
{
    if !str_starts_with(d.openapi.as_str(), "3.") {
        return Err(
            Error::Validation("Only OpenAPI 3.x specifications are supported".to_owned()),
        );
    }
    if d.title.as_str().unicode_len() == 0 {
        return Err(Error::Validation("API title is required".to_owned()));
    }
    if d.paths.len() == 0 {
        return Err(Error::Validation("OpenAPI spec must have at least one path".to_owned()));
    }
    let mut i: usize = 0;
    proof {
        assert(d.paths@.subrange(0, d.paths@.len() as int) =~= d.paths@);
    }
    while i < d.paths.len()
        invariant
            i <= d.paths@.len(),
            spec_starts_with(d.openapi@, "3."@),
            d.title@.len() != 0,
            d.paths@.len() != 0,
            spec_first_path_ref(d.paths@) == spec_first_path_ref(
                d.paths@.subrange(i as int, d.paths@.len() as int),
            ),
        decreases d.paths@.len() - i,
    {
        let ghost rest = d.paths@.subrange(i as int, d.paths@.len() as int);
        let ghost rest2 = d.paths@.subrange(i as int + 1, d.paths@.len() as int);
        proof {
            assert(rest[0] == d.paths@[i as int]);
            assert(rest.drop_first() =~= rest2);
        }
        match &d.paths[i].1 {
            RefOr::Ref(r) => {
                proof {
                    assert(spec_first_path_ref(rest) == Some(r@));
                }
                let msg = crate::text::concat2(
                    "Path item references are not supported: ",
                    r.as_str(),
                );
                proof {
                    assert(spec_first_path_ref(d.paths@) == Some(r@));
                    assert(spec_validate(*d) == Some(ErrorV::Validation(msg@)));
                }
                return Err(Error::Validation(msg));
            },
            RefOr::Item(_) => {},
        }
        i = i + 1;
    }
    proof {
        assert(d.paths@.subrange(d.paths@.len() as int, d.paths@.len() as int) =~= Seq::<
            (String, RefOr<PathItem>),
        >::empty());
    }
    if d.servers.len() > 1 {
        return Err(Error::Validation("Only a single server entry is supported".to_owned()));
    }
    Ok(())
}

} // verus!
