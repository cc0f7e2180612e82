use openapi2mcp::codegen::{comment, generate_typescript_code, generate_zod_schema, tool_to_code};
use openapi2mcp::convert::openapi_to_mcp_server;
use openapi2mcp::document::{
    ApiParameter, ApiRequestBody, Components, Document, MediaEntry, Operation, ParameterLocation,
    PathItem, RefOr, Schema, SchemaData, SchemaKind,
};
use openapi2mcp::ir::ConverterOptions;
use openapi2mcp::template::{update_constants_ts, update_tools_index_ts};

fn bare_data() -> SchemaData {
    SchemaData { title: None, description: None, default: None }
}

fn titled_data(title: &str) -> SchemaData {
    SchemaData { title: Some(title.to_string()), description: None, default: None }
}

fn example_doc() -> Document {
    let body_schema = Schema {
        data: bare_data(),
        kind: SchemaKind::Object {
            properties: vec![
                (
                    "name".to_string(),
                    RefOr::Item(Schema { data: titled_data("name"), kind: SchemaKind::String }),
                ),
                (
                    "qty".to_string(),
                    RefOr::Item(Schema { data: titled_data("qty"), kind: SchemaKind::Integer }),
                ),
                (
                    "note".to_string(),
                    RefOr::Item(Schema { data: titled_data("note"), kind: SchemaKind::String }),
                ),
            ],
            required: vec!["name".to_string(), "qty".to_string()],
        },
    };
    let body = ApiRequestBody {
        required: true,
        content: vec![MediaEntry {
            content_type: "application/json".to_string(),
            schema: Some(RefOr::Item(body_schema)),
        }],
    };
    let item = PathItem {
        get: Some(Operation {
            description: Some("Fetch one item".to_string()),
            parameters: vec![RefOr::Item(ApiParameter {
                name: "itemId".to_string(),
                location: ParameterLocation::Path,
                required: true,
                description: Some("The item key".to_string()),
            })],
            request_body: None,
        }),
        post: Some(Operation {
            description: None,
            parameters: vec![],
            request_body: Some(RefOr::Item(body)),
        }),
        put: None,
        delete: None,
        patch: None,
        parameters: vec![],
    };
    Document {
        openapi: "3.0.0".to_string(),
        title: "Items API".to_string(),
        version: "1.0.0".to_string(),
        description: None,
        servers: vec!["https://api.example.com".to_string()],
        paths: vec![("/items/{itemId}".to_string(), RefOr::Item(item))],
        components: Components {
            parameters: vec![],
            request_bodies: vec![],
            schemas: vec![],
            security_schemes: vec![],
        },
    }
}

#[test]
fn conversion_and_rendering_are_deterministic() {
    let doc1 = example_doc();
    let doc2 = example_doc();
    let options = ConverterOptions::default();
    let s1 = openapi_to_mcp_server(&doc1, &options).unwrap();
    let s2 = openapi_to_mcp_server(&doc2, &options).unwrap();
    let f1 = generate_typescript_code(&s1);
    let f2 = generate_typescript_code(&s2);
    assert_eq!(f1.len(), f2.len());
    for (a, b) in f1.iter().zip(f2.iter()) {
        assert_eq!(a.name, b.name);
        assert_eq!(a.code, b.code);
    }
    assert_eq!(update_tools_index_ts(&s1), update_tools_index_ts(&s2));
    assert_eq!(update_constants_ts(&s1), update_constants_ts(&s2));
}

#[test]
fn rendered_schema_marks_exactly_required_properties() {
    let doc = example_doc();
    let server = openapi_to_mcp_server(&doc, &ConverterOptions::default()).unwrap();
    let files = generate_typescript_code(&server);
    assert_eq!(files.len(), 2);

    assert_eq!(files[0].name, "get_items_itemid");
    assert!(files[0].code.contains("\"itemId\": z.string().describe(\"The item key\"),"));
    assert!(!files[0].code.contains("\"itemId\": z.string().describe(\"The item key\").optional()"));

    assert_eq!(files[1].name, "post_items_itemid");
    assert!(files[1].code.contains("\"name\": z.string(),"));
    assert!(files[1].code.contains("\"qty\": z.number(),"));
    assert!(files[1].code.contains("\"note\": z.string().optional(),"));
}

#[test]
fn rendered_handler_uses_call_slots() {
    let doc = example_doc();
    let server = openapi_to_mcp_server(&doc, &ConverterOptions::default()).unwrap();
    let files = generate_typescript_code(&server);

    let get_code = &files[0].code;
    assert!(get_code.contains("path: `/items/{itemId}`,"));
    assert!(get_code.contains("method: 'GET',"));
    assert!(get_code.contains("pathParams: {"));
    assert!(get_code.contains("\"itemId\": args[\"itemId\"],"));

    let post_code = &files[1].code;
    assert!(post_code.contains("method: 'POST',"));
    assert!(post_code.contains("\"Content-Type\": \"application/json\","));
    assert!(post_code.contains("body: {"));
    assert!(post_code.contains("\"name\": args[\"name\"],"));
    assert!(post_code.contains("\"qty\": args[\"qty\"],"));
}

#[test]
fn comment_escapes_newlines_and_quotes() {
    assert_eq!(comment("plain"), "plain");
    assert_eq!(comment("two\nlines"), "two\\nlines");
    assert_eq!(comment("say \"hi\""), "say \\\"hi\\\"");
}

#[test]
fn zod_schema_of_empty_property_list() {
    let props = vec![];
    assert_eq!(generate_zod_schema(&props), "{\n    }");
}

#[test]
fn tool_code_starts_with_imports() {
    let doc = example_doc();
    let server = openapi_to_mcp_server(&doc, &ConverterOptions::default()).unwrap();
    let code = tool_to_code(&server.tools[0]);
    assert!(code.starts_with("import z from \"zod\";\n"));
    assert!(code.contains("export function setupTool<S extends UpstreamMCPServer>(server: S) {"));
    assert!(code.contains("server.tool(\n    \"get_items_itemid\",\n    \"Fetch one item\","));
}

#[test]
fn tools_index_registers_every_tool() {
    let doc = example_doc();
    let server = openapi_to_mcp_server(&doc, &ConverterOptions::default()).unwrap();
    let index = update_tools_index_ts(&server);
    let mut expected = String::new();
    expected.push_str("import { McpServer as UpstreamMCPServer } from \"@modelcontextprotocol/sdk/server/mcp.js\";\n\n");
    expected.push_str("import * as get_items_itemid from \"./get_items_itemid.js\";\n");
    expected.push_str("import * as post_items_itemid from \"./post_items_itemid.js\";\n");
    expected.push_str("\nexport function setupAllTools<S extends UpstreamMCPServer>(server: S) {\n");
    expected.push_str("  get_items_itemid.setupTool(server);\n");
    expected.push_str("  post_items_itemid.setupTool(server);\n");
    expected.push_str("}\n");
    assert_eq!(index, expected);
}

#[test]
fn constants_without_oauth_is_base_url_only() {
    let doc = example_doc();
    let server = openapi_to_mcp_server(&doc, &ConverterOptions::default()).unwrap();
    let constants = update_constants_ts(&server);
    assert_eq!(constants, "export const BASE_URL = \"https://api.example.com\";\n");
}
