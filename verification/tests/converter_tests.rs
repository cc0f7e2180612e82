use openapi2mcp::convert::{openapi_to_mcp_server, operation_to_tool};
use openapi2mcp::document::{
    ApiParameter, ApiRequestBody, Components, Document, MediaEntry, Operation, ParameterLocation,
    PathItem, RefOr, Schema, SchemaData, SchemaKind, SecurityScheme, OAuth2Flows,
};
use openapi2mcp::error::Error;
use openapi2mcp::ir::{
    BodySlot, ConverterOptions, HttpMethod, MCPToolPropertyRequired, MCPToolPropertyType,
    OAuth2Info, Value, ValueSource,
};

fn empty_components() -> Components {
    Components {
        parameters: vec![],
        request_bodies: vec![],
        schemas: vec![],
        security_schemes: vec![],
    }
}

fn bare_data() -> SchemaData {
    SchemaData { title: None, description: None, default: None }
}

fn titled_data(title: &str) -> SchemaData {
    SchemaData { title: Some(title.to_string()), description: None, default: None }
}

fn empty_path_item() -> PathItem {
    PathItem { get: None, post: None, put: None, delete: None, patch: None, parameters: vec![] }
}

fn simple_op(params: Vec<RefOr<ApiParameter>>) -> Operation {
    Operation { description: None, parameters: params, request_body: None }
}

fn make_param(name: &str, location: ParameterLocation, required: bool) -> RefOr<ApiParameter> {
    RefOr::Item(ApiParameter {
        name: name.to_string(),
        location,
        required,
        description: None,
    })
}

/// The document of the end-to-end example: one path with a GET taking a
/// required path parameter, and a POST taking a JSON object body.
fn items_doc() -> Document {
    let body_schema = Schema {
        data: bare_data(),
        kind: SchemaKind::Object {
            properties: vec![
                (
                    "name".to_string(),
                    RefOr::Item(Schema { data: titled_data("name"), kind: SchemaKind::String }),
                ),
                (
                    "qty".to_string(),
                    RefOr::Item(Schema { data: titled_data("qty"), kind: SchemaKind::Integer }),
                ),
            ],
            required: vec!["name".to_string(), "qty".to_string()],
        },
    };
    let body = ApiRequestBody {
        required: true,
        content: vec![MediaEntry {
            content_type: "application/json".to_string(),
            schema: Some(RefOr::Item(body_schema)),
        }],
    };
    let item = PathItem {
        get: Some(simple_op(vec![make_param("itemId", ParameterLocation::Path, true)])),
        post: Some(Operation {
            description: None,
            parameters: vec![],
            request_body: Some(RefOr::Item(body)),
        }),
        put: None,
        delete: None,
        patch: None,
        parameters: vec![],
    };
    Document {
        openapi: "3.0.0".to_string(),
        title: "Items API".to_string(),
        version: "1.0.0".to_string(),
        description: Some("An example API".to_string()),
        servers: vec!["https://api.example.com".to_string()],
        paths: vec![("/items/{itemId}".to_string(), RefOr::Item(item))],
        components: empty_components(),
    }
}

#[test]
fn end_to_end_example() {
    let doc = items_doc();
    let server = openapi_to_mcp_server(&doc, &ConverterOptions::default()).unwrap();
    assert_eq!(server.name, "Items API");
    assert_eq!(server.version, "1.0.0");
    assert_eq!(server.base_url, "https://api.example.com");
    assert_eq!(server.tools.len(), 2);

    let get_tool = &server.tools[0];
    assert_eq!(get_tool.name, "get_items_itemid");
    assert_eq!(get_tool.properties.len(), 1);
    assert_eq!(get_tool.properties[0].name, "itemId");
    assert!(matches!(get_tool.properties[0].required, MCPToolPropertyRequired::Required));
    assert!(matches!(get_tool.properties[0].type_, MCPToolPropertyType::String));
    assert_eq!(get_tool.call.path, "/items/{itemId}");
    assert_eq!(get_tool.call.path_params.len(), 1);
    assert_eq!(get_tool.call.path_params[0].0, "itemId");
    match &get_tool.call.path_params[0].1 {
        ValueSource::Property(id) => assert_eq!(id.as_str(), "itemId"),
        _ => panic!("expected a property source"),
    }

    let post_tool = &server.tools[1];
    assert_eq!(post_tool.name, "post_items_itemid");
    assert_eq!(post_tool.properties.len(), 2);
    assert_eq!(post_tool.properties[0].name, "name");
    assert!(matches!(post_tool.properties[0].required, MCPToolPropertyRequired::Required));
    assert!(matches!(post_tool.properties[0].type_, MCPToolPropertyType::String));
    assert_eq!(post_tool.properties[1].name, "qty");
    assert!(matches!(post_tool.properties[1].required, MCPToolPropertyRequired::Required));
    assert!(matches!(post_tool.properties[1].type_, MCPToolPropertyType::Number));
    assert_eq!(post_tool.call.headers.len(), 1);
    assert_eq!(post_tool.call.headers[0].0, "Content-Type");
    match &post_tool.call.headers[0].1 {
        ValueSource::Fixed(Value::String(s)) => assert_eq!(s, "application/json"),
        _ => panic!("expected the fixed content type"),
    }
    match &post_tool.call.body {
        Some(BodySlot::Fields(fields)) => {
            assert_eq!(fields.len(), 2);
            assert_eq!(fields[0].0, "name");
            match &fields[0].1 {
                ValueSource::Property(id) => assert_eq!(id.as_str(), "name"),
                _ => panic!("expected a property source"),
            }
            assert_eq!(fields[1].0, "qty");
        }
        _ => panic!("expected a field-wise body"),
    }
}

#[test]
fn naming_examples() {
    let mut doc = items_doc();
    doc.paths = vec![
        (
            "/users/{id}".to_string(),
            RefOr::Item(PathItem {
                get: Some(simple_op(vec![make_param("id", ParameterLocation::Path, true)])),
                ..empty_path_item()
            }),
        ),
        (
            "/users".to_string(),
            RefOr::Item(PathItem { post: Some(simple_op(vec![])), ..empty_path_item() }),
        ),
    ];
    let server = openapi_to_mcp_server(&doc, &ConverterOptions::default()).unwrap();
    assert_eq!(server.tools.len(), 2);
    assert_eq!(server.tools[0].name, "get_users_id");
    assert_eq!(server.tools[1].name, "post_users");
}

#[test]
fn length_policy_exact_fits() {
    let doc = items_doc();
    // `post_items_itemid` is the longest name, 17 characters.
    let options = ConverterOptions { max_tool_name_length: 17, ..ConverterOptions::default() };
    let server = openapi_to_mcp_server(&doc, &options).unwrap();
    assert_eq!(server.tools.len(), 2);
}

#[test]
fn length_policy_one_over_fails() {
    let doc = items_doc();
    let options = ConverterOptions { max_tool_name_length: 16, ..ConverterOptions::default() };
    match openapi_to_mcp_server(&doc, &options) {
        Err(Error::NameTooLong(name)) => assert_eq!(name, "post_items_itemid"),
        _ => panic!("expected the length error"),
    }
}

#[test]
fn length_policy_one_over_skips_silently() {
    let doc = items_doc();
    let options = ConverterOptions {
        max_tool_name_length: 16,
        skip_long_tool_names: true,
        ..ConverterOptions::default()
    };
    let server = openapi_to_mcp_server(&doc, &options).unwrap();
    assert_eq!(server.tools.len(), 1);
    assert_eq!(server.tools[0].name, "get_items_itemid");
}

#[test]
fn colliding_parameters_get_suffixes() {
    let doc = items_doc();
    let op = simple_op(vec![
        make_param("x", ParameterLocation::Query, true),
        make_param("x", ParameterLocation::Header, false),
    ]);
    let route = vec![];
    let tool = operation_to_tool(
        &doc,
        HttpMethod::Get,
        "/things",
        &op,
        &route,
        &ConverterOptions::default(),
    )
    .unwrap()
    .unwrap();
    assert_eq!(tool.properties.len(), 2);
    assert_eq!(tool.properties[0].name, "x");
    assert_eq!(tool.properties[1].name, "x_2");
    assert_eq!(tool.call.query.len(), 1);
    assert_eq!(tool.call.query[0].0, "x");
    match &tool.call.query[0].1 {
        ValueSource::Property(id) => assert_eq!(id.as_str(), "x"),
        _ => panic!("expected a property source"),
    }
    assert_eq!(tool.call.headers.len(), 1);
    assert_eq!(tool.call.headers[0].0, "x");
    match &tool.call.headers[0].1 {
        ValueSource::Property(id) => assert_eq!(id.as_str(), "x_2"),
        _ => panic!("expected a property source"),
    }
}

#[test]
fn call_sources_name_listed_properties() {
    let doc = items_doc();
    let server = openapi_to_mcp_server(&doc, &ConverterOptions::default()).unwrap();
    for tool in &server.tools {
        let names: Vec<&str> = tool.properties.iter().map(|p| p.name.as_str()).collect();
        let mut sources: Vec<&ValueSource> = vec![];
        for (_, v) in &tool.call.path_params {
            sources.push(v);
        }
        for (_, v) in &tool.call.query {
            sources.push(v);
        }
        for (_, v) in &tool.call.headers {
            sources.push(v);
        }
        match &tool.call.body {
            Some(BodySlot::Fields(fields)) => {
                for (_, v) in fields {
                    sources.push(v);
                }
            }
            Some(BodySlot::Whole(v)) => sources.push(v),
            None => {}
        }
        for v in sources {
            if let ValueSource::Property(id) = v {
                assert!(names.contains(&id.as_str()), "unlisted property id {}", id.as_str());
            }
        }
    }
}

#[test]
fn requiredness_from_parameter_flag() {
    let doc = items_doc();
    let op = simple_op(vec![
        make_param("a", ParameterLocation::Query, true),
        make_param("b", ParameterLocation::Query, false),
    ]);
    let route = vec![];
    let tool = operation_to_tool(
        &doc,
        HttpMethod::Get,
        "/things",
        &op,
        &route,
        &ConverterOptions::default(),
    )
    .unwrap()
    .unwrap();
    assert!(matches!(tool.properties[0].required, MCPToolPropertyRequired::Required));
    assert!(matches!(tool.properties[1].required, MCPToolPropertyRequired::Optional));
}

#[test]
fn requiredness_default_value_wins() {
    let mut doc = items_doc();
    let body_schema = Schema {
        data: bare_data(),
        kind: SchemaKind::Object {
            properties: vec![(
                "limit".to_string(),
                RefOr::Item(Schema {
                    data: SchemaData {
                        title: Some("limit".to_string()),
                        description: None,
                        default: Some(Value::Number("10".to_string())),
                    },
                    kind: SchemaKind::Integer,
                }),
            )],
            required: vec!["limit".to_string()],
        },
    };
    let body = ApiRequestBody {
        required: true,
        content: vec![MediaEntry {
            content_type: "application/json".to_string(),
            schema: Some(RefOr::Item(body_schema)),
        }],
    };
    doc.paths = vec![(
        "/search".to_string(),
        RefOr::Item(PathItem {
            post: Some(Operation {
                description: None,
                parameters: vec![],
                request_body: Some(RefOr::Item(body)),
            }),
            ..empty_path_item()
        }),
    )];
    let server = openapi_to_mcp_server(&doc, &ConverterOptions::default()).unwrap();
    let tool = &server.tools[0];
    assert_eq!(tool.properties[0].name, "limit");
    match &tool.properties[0].required {
        MCPToolPropertyRequired::DefaultValue(Value::Number(n)) => assert_eq!(n, "10"),
        _ => panic!("expected the declared default to win"),
    }
}

#[test]
fn oauth2_override_beats_document() {
    let mut doc = items_doc();
    doc.components.security_schemes = vec![(
        "docFlow".to_string(),
        RefOr::Item(SecurityScheme::OAuth2 {
            flows: OAuth2Flows {
                authorization_code: Some(OAuth2Info {
                    authorization_url: "https://doc.example.com/auth".to_string(),
                    token_url: "https://doc.example.com/token".to_string(),
                    refresh_url: None,
                }),
            },
        }),
    )];
    let override_info = OAuth2Info {
        authorization_url: "https://override.example.com/auth".to_string(),
        token_url: "https://override.example.com/token".to_string(),
        refresh_url: None,
    };
    let options = ConverterOptions {
        oauth2_info: Some(override_info),
        ..ConverterOptions::default()
    };
    let server = openapi_to_mcp_server(&doc, &options).unwrap();
    let flow = server.oauth2_info.as_ref().unwrap();
    assert_eq!(flow.authorization_url, "https://override.example.com/auth");
    assert_eq!(flow.token_url, "https://override.example.com/token");

    let constants = openapi2mcp::template::update_constants_ts(&server);
    assert!(constants.contains("https://override.example.com/auth"));
    assert!(constants.contains("https://override.example.com/token"));
    assert!(!constants.contains("https://doc.example.com/auth"));
}

#[test]
fn oauth2_document_flow_without_override() {
    let mut doc = items_doc();
    doc.components.security_schemes = vec![
        ("key".to_string(), RefOr::Item(SecurityScheme::Other)),
        (
            "docFlow".to_string(),
            RefOr::Item(SecurityScheme::OAuth2 {
                flows: OAuth2Flows {
                    authorization_code: Some(OAuth2Info {
                        authorization_url: "https://doc.example.com/auth".to_string(),
                        token_url: "https://doc.example.com/token".to_string(),
                        refresh_url: None,
                    }),
                },
            }),
        ),
    ];
    let server = openapi_to_mcp_server(&doc, &ConverterOptions::default()).unwrap();
    let flow = server.oauth2_info.as_ref().unwrap();
    assert_eq!(flow.authorization_url, "https://doc.example.com/auth");
}

#[test]
fn cookie_parameter_is_unsupported() {
    let doc = items_doc();
    let op = simple_op(vec![make_param("session", ParameterLocation::Cookie, false)]);
    let route = vec![];
    match operation_to_tool(
        &doc,
        HttpMethod::Get,
        "/things",
        &op,
        &route,
        &ConverterOptions::default(),
    ) {
        Err(Error::Unsupported(msg)) => assert!(msg.contains("session")),
        _ => panic!("expected an unsupported-construct error"),
    }
}

#[test]
fn unresolved_reference_fails() {
    let doc = items_doc();
    let op = simple_op(vec![RefOr::Ref("#/components/parameters/missing".to_string())]);
    let route = vec![];
    match operation_to_tool(
        &doc,
        HttpMethod::Get,
        "/things",
        &op,
        &route,
        &ConverterOptions::default(),
    ) {
        Err(Error::Resolution(msg)) => assert!(msg.contains("missing")),
        _ => panic!("expected a resolution error"),
    }
}

#[test]
fn reference_cycle_fails() {
    let mut doc = items_doc();
    doc.components.schemas = vec![(
        "Loop".to_string(),
        RefOr::Ref("#/components/schemas/Loop".to_string()),
    )];
    let body = ApiRequestBody {
        required: true,
        content: vec![MediaEntry {
            content_type: "application/json".to_string(),
            schema: Some(RefOr::Ref("#/components/schemas/Loop".to_string())),
        }],
    };
    doc.paths = vec![(
        "/loop".to_string(),
        RefOr::Item(PathItem {
            post: Some(Operation {
                description: None,
                parameters: vec![],
                request_body: Some(RefOr::Item(body)),
            }),
            ..empty_path_item()
        }),
    )];
    match openapi_to_mcp_server(&doc, &ConverterOptions::default()) {
        Err(Error::ReferenceCycle(_)) => {}
        other => panic!("expected a reference-cycle error, got {:?}", other),
    }
}

#[test]
fn component_parameter_reference_resolves() {
    let mut doc = items_doc();
    doc.components.parameters = vec![(
        "Limit".to_string(),
        RefOr::Item(ApiParameter {
            name: "limit".to_string(),
            location: ParameterLocation::Query,
            required: false,
            description: Some("Number of items to return".to_string()),
        }),
    )];
    let op = simple_op(vec![RefOr::Ref("#/components/parameters/Limit".to_string())]);
    let route = vec![];
    let tool = operation_to_tool(
        &doc,
        HttpMethod::Get,
        "/things",
        &op,
        &route,
        &ConverterOptions::default(),
    )
    .unwrap()
    .unwrap();
    assert_eq!(tool.properties[0].name, "limit");
    assert!(matches!(tool.properties[0].required, MCPToolPropertyRequired::Optional));
}

#[test]
fn validation_rejects_bad_documents() {
    let mut doc = items_doc();
    doc.openapi = "2.0.0".to_string();
    assert!(matches!(
        openapi_to_mcp_server(&doc, &ConverterOptions::default()),
        Err(Error::Validation(_))
    ));

    let mut doc = items_doc();
    doc.title = String::new();
    assert!(matches!(
        openapi_to_mcp_server(&doc, &ConverterOptions::default()),
        Err(Error::Validation(_))
    ));

    let mut doc = items_doc();
    doc.paths = vec![];
    assert!(matches!(
        openapi_to_mcp_server(&doc, &ConverterOptions::default()),
        Err(Error::Validation(_))
    ));

    let mut doc = items_doc();
    doc.paths = vec![(
        "/items".to_string(),
        RefOr::Ref("#/paths/other".to_string()),
    )];
    assert!(matches!(
        openapi_to_mcp_server(&doc, &ConverterOptions::default()),
        Err(Error::Validation(_))
    ));

    let mut doc = items_doc();
    doc.servers = vec!["https://a.example.com".to_string(), "https://b.example.com".to_string()];
    assert!(matches!(
        openapi_to_mcp_server(&doc, &ConverterOptions::default()),
        Err(Error::Validation(_))
    ));
}

#[test]
fn path_filter_restricts_paths() {
    let mut doc = items_doc();
    doc.paths = vec![
        (
            "/users".to_string(),
            RefOr::Item(PathItem { get: Some(simple_op(vec![])), ..empty_path_item() }),
        ),
        (
            "/items".to_string(),
            RefOr::Item(PathItem { get: Some(simple_op(vec![])), ..empty_path_item() }),
        ),
    ];
    let options = ConverterOptions {
        path_filter: Some("^/users".to_string()),
        ..ConverterOptions::default()
    };
    let server = openapi_to_mcp_server(&doc, &options).unwrap();
    assert_eq!(server.tools.len(), 1);
    assert_eq!(server.tools[0].name, "get_users");
}

#[test]
fn invalid_path_filter_is_a_parse_error() {
    let doc = items_doc();
    let options = ConverterOptions {
        path_filter: Some("(".to_string()),
        ..ConverterOptions::default()
    };
    assert!(matches!(
        openapi_to_mcp_server(&doc, &options),
        Err(Error::Parse(_))
    ));
}

#[test]
fn method_allow_list_restricts_methods() {
    let doc = items_doc();
    let options = ConverterOptions {
        allowed_methods: vec![HttpMethod::Post],
        ..ConverterOptions::default()
    };
    let server = openapi_to_mcp_server(&doc, &options).unwrap();
    assert_eq!(server.tools.len(), 1);
    assert_eq!(server.tools[0].name, "post_items_itemid");
}

#[test]
fn one_of_takes_first_alternative() {
    let mut doc = items_doc();
    let body_schema = Schema {
        data: bare_data(),
        kind: SchemaKind::OneOf(vec![
            RefOr::Item(Schema {
                data: bare_data(),
                kind: SchemaKind::Object {
                    properties: vec![(
                        "first".to_string(),
                        RefOr::Item(Schema { data: bare_data(), kind: SchemaKind::String }),
                    )],
                    required: vec![],
                },
            }),
            RefOr::Item(Schema { data: bare_data(), kind: SchemaKind::Boolean }),
        ]),
    };
    let body = ApiRequestBody {
        required: true,
        content: vec![MediaEntry {
            content_type: "application/json".to_string(),
            schema: Some(RefOr::Item(body_schema)),
        }],
    };
    doc.paths = vec![(
        "/union".to_string(),
        RefOr::Item(PathItem {
            post: Some(Operation {
                description: None,
                parameters: vec![],
                request_body: Some(RefOr::Item(body)),
            }),
            ..empty_path_item()
        }),
    )];
    let server = openapi_to_mcp_server(&doc, &ConverterOptions::default()).unwrap();
    let tool = &server.tools[0];
    assert_eq!(tool.properties.len(), 1);
    assert_eq!(tool.properties[0].name, "first");
}

#[test]
fn all_of_merges_members_with_override() {
    let mut doc = items_doc();
    let body_schema = Schema {
        data: bare_data(),
        kind: SchemaKind::AllOf(vec![
            RefOr::Item(Schema {
                data: bare_data(),
                kind: SchemaKind::Object {
                    properties: vec![
                        (
                            "a".to_string(),
                            RefOr::Item(Schema { data: bare_data(), kind: SchemaKind::String }),
                        ),
                        (
                            "b".to_string(),
                            RefOr::Item(Schema { data: bare_data(), kind: SchemaKind::String }),
                        ),
                    ],
                    required: vec![],
                },
            }),
            RefOr::Item(Schema {
                data: bare_data(),
                kind: SchemaKind::Object {
                    properties: vec![(
                        "b".to_string(),
                        RefOr::Item(Schema { data: bare_data(), kind: SchemaKind::Boolean }),
                    )],
                    required: vec![],
                },
            }),
        ]),
    };
    let body = ApiRequestBody {
        required: true,
        content: vec![MediaEntry {
            content_type: "application/json".to_string(),
            schema: Some(RefOr::Item(body_schema)),
        }],
    };
    doc.paths = vec![(
        "/merge".to_string(),
        RefOr::Item(PathItem {
            post: Some(Operation {
                description: None,
                parameters: vec![],
                request_body: Some(RefOr::Item(body)),
            }),
            ..empty_path_item()
        }),
    )];
    let server = openapi_to_mcp_server(&doc, &ConverterOptions::default()).unwrap();
    let tool = &server.tools[0];
    assert_eq!(tool.properties.len(), 2);
    assert_eq!(tool.properties[0].name, "a");
    assert_eq!(tool.properties[1].name, "b");
    // the later-listed constituent overrides the earlier `b`
    assert!(matches!(tool.properties[1].type_, MCPToolPropertyType::Boolean));
}

#[test]
fn non_json_body_is_ignored() {
    let mut doc = items_doc();
    let body = ApiRequestBody {
        required: true,
        content: vec![MediaEntry {
            content_type: "text/plain".to_string(),
            schema: Some(RefOr::Item(Schema { data: bare_data(), kind: SchemaKind::String })),
        }],
    };
    doc.paths = vec![(
        "/text".to_string(),
        RefOr::Item(PathItem {
            post: Some(Operation {
                description: None,
                parameters: vec![],
                request_body: Some(RefOr::Item(body)),
            }),
            ..empty_path_item()
        }),
    )];
    let server = openapi_to_mcp_server(&doc, &ConverterOptions::default()).unwrap();
    let tool = &server.tools[0];
    assert_eq!(tool.properties.len(), 0);
    assert!(tool.call.body.is_none());
    assert_eq!(tool.call.headers.len(), 0);
}

#[test]
fn non_object_json_body_is_one_opaque_property() {
    let mut doc = items_doc();
    let body = ApiRequestBody {
        required: true,
        content: vec![MediaEntry {
            content_type: "application/json".to_string(),
            schema: Some(RefOr::Item(Schema { data: bare_data(), kind: SchemaKind::String })),
        }],
    };
    doc.paths = vec![(
        "/raw".to_string(),
        RefOr::Item(PathItem {
            post: Some(Operation {
                description: None,
                parameters: vec![],
                request_body: Some(RefOr::Item(body)),
            }),
            ..empty_path_item()
        }),
    )];
    let server = openapi_to_mcp_server(&doc, &ConverterOptions::default()).unwrap();
    let tool = &server.tools[0];
    assert_eq!(tool.properties.len(), 1);
    assert_eq!(tool.properties[0].name, "body");
    match &tool.call.body {
        Some(BodySlot::Whole(ValueSource::Property(id))) => assert_eq!(id.as_str(), "body"),
        _ => panic!("expected a whole-value body"),
    }
}

#[test]
fn operation_description_falls_back_to_method_and_path() {
    let doc = items_doc();
    let server = openapi_to_mcp_server(&doc, &ConverterOptions::default()).unwrap();
    assert_eq!(server.tools[0].description, "GET /items/{itemId}");
}
