//! The code generator: renders each Tool into one source unit holding a
//! validation-schema expression (one validator per property, non-required
//! ones marked optional, descriptions escaped) and an asynchronous handler
//! that builds the outbound request from the Tool's Call: fixed sources as
//! literals, property sources as accesses into the validated input.

use vstd::prelude::*;

use crate::ir::{
    BodySlot, BodySlotV, MCPServer, MCPTool, MCPToolProperty, MCPToolPropertyType, PropertyTypeV,
    PropertyV, ToolV, Value, ValueSource, ValueSourceV, ValueV, properties_view, slot_view,
    tools_view,
};
use crate::text::{chars_of, push_char, string_of};

verus! {

/// One rendered source unit: a logical name and its text.
#[derive(Clone, Debug)]
pub struct FileCode {
    pub name: String,
    pub code: String,
}

/// Mirror of `FileCode`.
pub struct FileCodeV {
    pub name: Seq<char>,
    pub code: Seq<char>,
}

impl View for FileCode {
    type V = FileCodeV;

    open spec fn view(&self) -> FileCodeV {
        FileCodeV { name: self.name@, code: self.code@ }
    }
}

/// Text made safe for a quoted literal: newlines and double quotes escaped.
pub open spec fn spec_escape(s: Seq<char>) -> Seq<char>
    decreases s.len(),
{
    if s.len() == 0 {
        Seq::empty()
    } else {
        (if s[0] == '\n' {
            seq!['\\', 'n']
        } else if s[0] == '"' {
            seq!['\\', '"']
        } else {
            seq![s[0]]
        }) + spec_escape(s.drop_first())
    }
}

/// Escapes a text for embedding in a quoted literal.
pub fn comment(s: &str) -> (r: String)
    ensures
        r@ == spec_escape(s@),
{
    let cs = chars_of(s);
    let n = cs.len();
    let mut out: Vec<char> = Vec::new();
    let mut i: usize = 0;
    proof {
        assert(cs@.subrange(0, n as int) =~= s@);
        assert(Seq::<char>::empty() + spec_escape(s@) =~= spec_escape(s@));
    }
    while i < n
        invariant
            cs@ == s@,
            n == cs@.len(),
            i <= n,
            out@ + spec_escape(cs@.subrange(i as int, n as int)) == spec_escape(s@),
        decreases n - i,
    {
        let c = cs[i];
        let ghost rest = cs@.subrange(i as int, n as int);
        let ghost rest2 = cs@.subrange(i as int + 1, n as int);
        proof {
            assert(rest[0] == c);
            assert(rest.drop_first() =~= rest2);
        }
        if c == '\n' {
            out.push('\\');
            out.push('n');
        } else if c == '"' {
            out.push('\\');
            out.push('"');
        } else {
            out.push(c);
        }
        proof {
            assert(out@ + spec_escape(rest2) =~= spec_escape(s@));
        }
        i = i + 1;
    }
    proof {
        assert(cs@.subrange(n as int, n as int) =~= Seq::<char>::empty());
        assert(out@ + Seq::<char>::empty() =~= out@);
    }
    string_of(&out)
}

/// The validator expression of one property: its type's constructor, an
/// escaped description if one is declared, `.optional()` unless required.
pub open spec fn spec_zod_expr(p: PropertyV) -> Seq<char>
    decreases p,
{
    spec_zod_base(p.type_) + (match p.description {
        Some(d) => ".describe(\""@ + spec_escape(d) + "\")"@,
        None => Seq::<char>::empty(),
    }) + (if p.required is Required {
        Seq::<char>::empty()
    } else {
        ".optional()"@
    })
}

/// The validator constructor of one property type.
pub open spec fn spec_zod_base(t: PropertyTypeV) -> Seq<char>
    decreases t,
{
    match t {
        PropertyTypeV::String => "z.string()"@,
        PropertyTypeV::Number => "z.number()"@,
        PropertyTypeV::Boolean => "z.boolean()"@,
        PropertyTypeV::Array(item) => "z.array("@ + spec_zod_expr(*item) + ")"@,
        PropertyTypeV::Object(members) => "z.object({"@ + spec_zod_members(members) + "})"@,
    }
}

/// The member fields of a nested object validator.
pub open spec fn spec_zod_members(members: Seq<PropertyV>) -> Seq<char>
    decreases members,
{
    if members.len() == 0 {
        Seq::empty()
    } else {
        "\""@ + spec_escape(members[0].name) + "\": "@ + spec_zod_expr(members[0]) + ", "@
            + spec_zod_members(members.drop_first())
    }
}

/// The top-level field lines of a tool's validation schema.
pub open spec fn spec_zod_fields(props: Seq<PropertyV>) -> Seq<char>
    decreases props,
{
    if props.len() == 0 {
        Seq::empty()
    } else {
        "      \""@ + spec_escape(props[0].name) + "\": "@ + spec_zod_expr(props[0]) + ",\n"@
            + spec_zod_fields(props.drop_first())
    }
}

/// The whole validation-schema expression of a tool.
pub open spec fn spec_zod_schema(props: Seq<PropertyV>) -> Seq<char> {
    "{\n"@ + spec_zod_fields(props) + "    }"@
}

fn zod_expr(p: &MCPToolProperty) -> (r: String)
    ensures
        r@ == spec_zod_expr(p@),
    decreases *p,
{
    let mut out = zod_base(&p.type_);
    match &p.description {
        Some(d) => {
            let esc = comment(d.as_str());
            out.append(".describe(\"");
            out.append(esc.as_str());
            out.append("\")");
        },
        None => {},
    }
    match &p.required {
        crate::ir::MCPToolPropertyRequired::Required => {},
        _ => {
            out.append(".optional()");
        },
    }
    proof {
        assert(out@ =~= spec_zod_expr(p@));
    }
    out
}

fn zod_base(t: &MCPToolPropertyType) -> (r: String)
    ensures
        r@ == spec_zod_base(crate::ir::property_type_view(*t)),
    decreases *t,
{
    match t {
        MCPToolPropertyType::String => "z.string()".to_owned(),
        MCPToolPropertyType::Number => "z.number()".to_owned(),
        MCPToolPropertyType::Boolean => "z.boolean()".to_owned(),
        MCPToolPropertyType::Array(item) => {
            let inner = zod_expr(item);
            let mut out = "z.array(".to_owned();
            out.append(inner.as_str());
            out.append(")");
            proof {
                assert(out@ =~= spec_zod_base(crate::ir::property_type_view(*t)));
            }
            out
        },
        MCPToolPropertyType::Object(members) => {
            let inner = zod_members(members);
            let mut out = "z.object({".to_owned();
            out.append(inner.as_str());
            out.append("})");
            proof {
                assert(out@ =~= spec_zod_base(crate::ir::property_type_view(*t)));
            }
            out
        },
    }
}

fn zod_members(members: &Vec<MCPToolProperty>) -> (r: String)
    ensures
        r@ == spec_zod_members(properties_view(members@)),
    decreases members@,
{
    let mut out = String::new();
    let mut i: usize = 0;
    proof {
        assert(members@.subrange(0, members@.len() as int) =~= members@);
        assert(out@ =~= Seq::<char>::empty());
    }
    while i < members.len()
        invariant
            i <= members@.len(),
            out@ + spec_zod_members(
                properties_view(members@.subrange(i as int, members@.len() as int)),
            ) == spec_zod_members(properties_view(members@)),
        decreases members@.len() - i,
    {
        let ghost mrest = members@.subrange(i as int, members@.len() as int);
        let ghost mrest2 = members@.subrange(i as int + 1, members@.len() as int);
        proof {
            assert(mrest[0] == members@[i as int]);
            assert(mrest.drop_first() =~= mrest2);
            assert(properties_view(mrest) == seq![crate::ir::property_view(mrest[0])]
                + properties_view(mrest.drop_first()));
            assert(properties_view(mrest)[0] == crate::ir::property_view(members@[i as int]));
            assert(properties_view(mrest).drop_first() =~= properties_view(mrest2));
        }
        let esc = comment(members[i].name.as_str());
        let expr = zod_expr(&members[i]);
        out.append("\"");
        out.append(esc.as_str());
        out.append("\": ");
        out.append(expr.as_str());
        out.append(", ");
        proof {
            assert(out@ + spec_zod_members(properties_view(mrest2)) =~= spec_zod_members(
                properties_view(members@),
            ));
        }
        i = i + 1;
    }
    proof {
        assert(members@.subrange(members@.len() as int, members@.len() as int) =~= Seq::<
            MCPToolProperty,
        >::empty());
        assert(properties_view(Seq::<MCPToolProperty>::empty()) =~= Seq::<PropertyV>::empty());
        assert(out@ + Seq::<char>::empty() =~= out@);
    }
    out
}

/// Renders the validation-schema expression of a tool's property list.
pub fn generate_zod_schema(props: &Vec<MCPToolProperty>) -> (r: String)
    ensures
        r@ == spec_zod_schema(properties_view(props@)),
{
    let mut out = "{\n".to_owned();
    let mut i: usize = 0;
    proof {
        assert(props@.subrange(0, props@.len() as int) =~= props@);
        assert(out@ + spec_zod_fields(properties_view(props@)) + "    }"@ =~= spec_zod_schema(
            properties_view(props@),
        ));
    }
    while i < props.len()
        invariant
            i <= props@.len(),
            out@ + spec_zod_fields(
                properties_view(props@.subrange(i as int, props@.len() as int)),
            ) + "    }"@ == spec_zod_schema(properties_view(props@)),
        decreases props@.len() - i,
    {
        let ghost mrest = props@.subrange(i as int, props@.len() as int);
        let ghost mrest2 = props@.subrange(i as int + 1, props@.len() as int);
        proof {
            assert(mrest[0] == props@[i as int]);
            assert(mrest.drop_first() =~= mrest2);
            assert(properties_view(mrest) == seq![crate::ir::property_view(mrest[0])]
                + properties_view(mrest.drop_first()));
            assert(properties_view(mrest)[0] == crate::ir::property_view(props@[i as int]));
            assert(properties_view(mrest).drop_first() =~= properties_view(mrest2));
        }
        let esc = comment(props[i].name.as_str());
        let expr = zod_expr(&props[i]);
        out.append("      \"");
        out.append(esc.as_str());
        out.append("\": ");
        out.append(expr.as_str());
        out.append(",\n");
        proof {
            assert(out@ + spec_zod_fields(properties_view(mrest2)) + "    }"@ =~= spec_zod_schema(
                properties_view(props@),
            ));
        }
        i = i + 1;
    }
    proof {
        assert(props@.subrange(props@.len() as int, props@.len() as int) =~= Seq::<
            MCPToolProperty,
        >::empty());
        assert(properties_view(Seq::<MCPToolProperty>::empty()) =~= Seq::<PropertyV>::empty());
    }
    out.append("    }");
    proof {
        assert(out@ =~= spec_zod_schema(properties_view(props@)));
    }
    out
}

/// The emitted expression of one value source: a literal for a fixed value,
/// an access into the validated input for a property reference.
pub open spec fn spec_source_expr(v: ValueSourceV) -> Seq<char> {
    match v {
        ValueSourceV::Fixed(ValueV::String(s)) => "\""@ + spec_escape(s) + "\""@,
        ValueSourceV::Fixed(ValueV::Number(n)) => n,
        ValueSourceV::Fixed(ValueV::Boolean(b)) => if b {
            "true"@
        } else {
            "false"@
        },
        ValueSourceV::Property(id) => "args[\""@ + id + "\"]"@,
    }
}

fn source_expr(v: &ValueSource) -> (r: String)
    ensures
        r@ == spec_source_expr(v@),
{
    match v {
        ValueSource::Fixed(Value::String(s)) => {
            let esc = comment(s.as_str());
            let mut out = "\"".to_owned();
            out.append(esc.as_str());
            out.append("\"");
            proof {
                assert(out@ =~= spec_source_expr(v@));
            }
            out
        },
        ValueSource::Fixed(Value::Number(n)) => n.clone(),
        ValueSource::Fixed(Value::Boolean(b)) => {
            if *b {
                "true".to_owned()
            } else {
                "false".to_owned()
            }
        },
        ValueSource::Property(id) => {
            let mut out = "args[\"".to_owned();
            out.append(id.as_str());
            out.append("\"]");
            proof {
                assert(out@ =~= spec_source_expr(v@));
            }
            out
        },
    }
}

/// The lines of one slot map in the emitted request description.
pub open spec fn spec_slot_entries(entries: Seq<(Seq<char>, ValueSourceV)>) -> Seq<char>
    decreases entries.len(),
{
    if entries.len() == 0 {
        Seq::empty()
    } else {
        "            \""@ + spec_escape(entries[0].0) + "\": "@ + spec_source_expr(entries[0].1)
            + ",\n"@ + spec_slot_entries(entries.drop_first())
    }
}

/// One named slot map block, emitted only when the map is non-empty.
pub open spec fn spec_slot_block(label: Seq<char>, entries: Seq<(Seq<char>, ValueSourceV)>) -> Seq<
    char,
> {
    if entries.len() == 0 {
        Seq::empty()
    } else {
        "          "@ + label + ": {\n"@ + spec_slot_entries(entries) + "          },\n"@
    }
}

fn slot_block(label: &str, entries: &Vec<(String, ValueSource)>) -> (r: String)
    ensures
        r@ == spec_slot_block(label@, slot_view(entries@)),
{
    if entries.len() == 0 {
        proof {
            assert(slot_view(entries@).len() == 0);
        }
        return String::new();
    }
    let mut out = "          ".to_owned();
    out.append(label);
    out.append(": {\n");
    let mut i: usize = 0;
    let ghost all = slot_view(entries@);
    proof {
        assert(all.subrange(0, all.len() as int) =~= all);
    }
    while i < entries.len()
        invariant
            i <= entries@.len(),
            all == slot_view(entries@),
            all.len() > 0,
            out@ + spec_slot_entries(all.subrange(i as int, all.len() as int)) + "          },\n"@
                == spec_slot_block(label@, all),
        decreases entries@.len() - i,
    {
        let ghost rest = all.subrange(i as int, all.len() as int);
        let ghost rest2 = all.subrange(i as int + 1, all.len() as int);
        proof {
            assert(rest[0] == all[i as int]);
            assert(all[i as int] == (entries@[i as int].0@, entries@[i as int].1@));
            assert(rest.drop_first() =~= rest2);
        }
        let esc = comment(entries[i].0.as_str());
        let expr = source_expr(&entries[i].1);
        out.append("            \"");
        out.append(esc.as_str());
        out.append("\": ");
        out.append(expr.as_str());
        out.append(",\n");
        proof {
            assert(out@ + spec_slot_entries(rest2) + "          },\n"@ =~= spec_slot_block(
                label@,
                all,
            ));
        }
        i = i + 1;
    }
    proof {
        assert(all.subrange(all.len() as int, all.len() as int) =~= Seq::<
            (Seq<char>, ValueSourceV),
        >::empty());
    }
    out.append("          },\n");
    proof {
        assert(out@ =~= spec_slot_block(label@, all));
    }
    out
}

/// The emitted body line(s), when the call carries a body.
pub open spec fn spec_body_block(body: Option<BodySlotV>) -> Seq<char> {
    match body {
        None => Seq::empty(),
        Some(BodySlotV::Fields(entries)) => "          body: {\n"@ + spec_slot_entries(entries)
            + "          },\n"@,
        Some(BodySlotV::Whole(v)) => "          body: "@ + spec_source_expr(v) + ",\n"@,
    }
}

fn body_block(body: &Option<BodySlot>) -> (r: String)
    ensures
        r@ == spec_body_block(crate::convert::opt_body_view(*body)),
{
    match body {
        None => String::new(),
        Some(BodySlot::Whole(v)) => {
            let expr = source_expr(v);
            let mut out = "          body: ".to_owned();
            out.append(expr.as_str());
            out.append(",\n");
            proof {
                assert(out@ =~= spec_body_block(crate::convert::opt_body_view(*body)));
            }
            out
        },
        Some(BodySlot::Fields(entries)) => {
            let mut out = "          body: {\n".to_owned();
            let mut i: usize = 0;
            let ghost all = slot_view(entries@);
            proof {
                assert(all.subrange(0, all.len() as int) =~= all);
            }
            while i < entries.len()
                invariant
                    i <= entries@.len(),
                    all == slot_view(entries@),
                    out@ + spec_slot_entries(all.subrange(i as int, all.len() as int))
                        + "          },\n"@ == "          body: {\n"@ + spec_slot_entries(all)
                        + "          },\n"@,
                decreases entries@.len() - i,
            {
                let ghost rest = all.subrange(i as int, all.len() as int);
                let ghost rest2 = all.subrange(i as int + 1, all.len() as int);
                proof {
                    assert(rest[0] == all[i as int]);
                    assert(all[i as int] == (entries@[i as int].0@, entries@[i as int].1@));
                    assert(rest.drop_first() =~= rest2);
                }
                let esc = comment(entries[i].0.as_str());
                let expr = source_expr(&entries[i].1);
                out.append("            \"");
                out.append(esc.as_str());
                out.append("\": ");
                out.append(expr.as_str());
                out.append(",\n");
                proof {
                    assert(out@ + spec_slot_entries(rest2) + "          },\n"@
                        =~= "          body: {\n"@ + spec_slot_entries(all) + "          },\n"@);
                }
                i = i + 1;
            }
            proof {
                assert(all.subrange(all.len() as int, all.len() as int) =~= Seq::<
                    (Seq<char>, ValueSourceV),
                >::empty());
            }
            out.append("          },\n");
            proof {
                assert(out@ =~= spec_body_block(crate::convert::opt_body_view(*body)));
            }
            out
        },
    }
}

/// The whole source unit of one tool.
pub open spec fn spec_tool_code(t: ToolV) -> Seq<char> {
    "import z from \"zod\";\n"@
        + "import { McpServer as UpstreamMCPServer } from \"@modelcontextprotocol/sdk/server/mcp.js\";\n"@
        + "import { CallToolResult } from \"@modelcontextprotocol/sdk/types.js\";\n"@
        + "import { httpClient } from \"../../../../http_client.js\";\n"@ + "\n"@
        + "export function setupTool<S extends UpstreamMCPServer>(server: S) {\n"@
        + "  server.tool(\n"@ + "    \""@ + spec_escape(t.name) + "\",\n"@ + "    \""@
        + spec_escape(t.description) + "\",\n"@ + "    "@ + spec_zod_schema(t.properties) + ",\n"@
        + "    async (args: any): Promise<CallToolResult> => {\n"@ + "      try {\n"@
        + "        const response = await httpClient.call({\n"@ + "          path: `"@
        + t.call.path + "`,\n"@ + "          method: '"@ + t.call.method.spec_name() + "',\n"@
        + spec_slot_block("pathParams"@, t.call.path_params) + spec_slot_block(
        "query"@,
        t.call.query,
    ) + spec_slot_block("headers"@, t.call.headers) + spec_body_block(t.call.body) + "        })\n"@
        + "        .then((response: Response) => response.text());\n"@ + "\n"@
        + "        return {\n"@ + "          content: [\n"@ + "            {\n"@
        + "              type: \"text\",\n"@ + "              text: response,\n"@
        + "            },\n"@ + "          ],\n"@ + "        };\n"@ + "      } catch (error) {\n"@
        + "        console.error(`Error executing "@ + spec_escape(t.name) + ":`, error);\n"@
        + "        return {\n"@ + "          content: [\n"@ + "            {\n"@
        + "              type: \"text\",\n"@ + "              text: `Error executing "@
        + spec_escape(t.name) + ": ${error instanceof Error ? error.message : String(error)}`,\n"@
        + "            },\n"@ + "          ],\n"@ + "        };\n"@ + "      }\n"@ + "    },\n"@
        + "  );\n"@ + "}\n"@
}

/// Renders one tool into its source unit.
#[verifier::rlimit(60)]
pub fn tool_to_code(t: &MCPTool) -> (r: String)
    ensures
        r@ == spec_tool_code(t@),
{
    let name_esc = comment(t.name.as_str());
    let desc_esc = comment(t.description.as_str());
    let schema = generate_zod_schema(&t.properties);
    let pp = slot_block("pathParams", &t.call.path_params);
    let q = slot_block("query", &t.call.query);
    let h = slot_block("headers", &t.call.headers);
    let b = body_block(&t.call.body);
    let mut out = "import z from \"zod\";\n".to_owned();
    out.append(
        "import { McpServer as UpstreamMCPServer } from \"@modelcontextprotocol/sdk/server/mcp.js\";\n",
    );
    out.append("import { CallToolResult } from \"@modelcontextprotocol/sdk/types.js\";\n");
    out.append("import { httpClient } from \"../../../../http_client.js\";\n");
    out.append("\n");
    out.append("export function setupTool<S extends UpstreamMCPServer>(server: S) {\n");
    out.append("  server.tool(\n");
    out.append("    \"");
    out.append(name_esc.as_str());
    out.append("\",\n");
    out.append("    \"");
    out.append(desc_esc.as_str());
    out.append("\",\n");
    out.append("    ");
    out.append(schema.as_str());
    out.append(",\n");
    out.append("    async (args: any): Promise<CallToolResult> => {\n");
    out.append("      try {\n");
    out.append("        const response = await httpClient.call({\n");
    out.append("          path: `");
    out.append(t.call.path.as_str());
    out.append("`,\n");
    out.append("          method: '");
    out.append(t.call.method.name());
    out.append("',\n");
    out.append(pp.as_str());
    out.append(q.as_str());
    out.append(h.as_str());
    out.append(b.as_str());
    out.append("        })\n");
    out.append("        .then((response: Response) => response.text());\n");
    out.append("\n");
    out.append("        return {\n");
    out.append("          content: [\n");
    out.append("            {\n");
    out.append("              type: \"text\",\n");
    out.append("              text: response,\n");
    out.append("            },\n");
    out.append("          ],\n");
    out.append("        };\n");
    out.append("      } catch (error) {\n");
    out.append("        console.error(`Error executing ");
    out.append(name_esc.as_str());
    out.append(":`, error);\n");
    out.append("        return {\n");
    out.append("          content: [\n");
    out.append("            {\n");
    out.append("              type: \"text\",\n");
    out.append("              text: `Error executing ");
    out.append(name_esc.as_str());
    out.append(": ${error instanceof Error ? error.message : String(error)}`,\n");
    out.append("            },\n");
    out.append("          ],\n");
    out.append("        };\n");
    out.append("      }\n");
    out.append("    },\n");
    out.append("  );\n");
    out.append("}\n");
    proof {
        assert(out@ =~= spec_tool_code(t@));
    }
    out
}

/// The views of a list of rendered files.
pub open spec fn files_view(s: Seq<FileCode>) -> Seq<FileCodeV> {
    s.map_values(|f: FileCode| f@)
}

/// Renders every tool of a server, one source unit per tool, named after the
/// tool and in the server's tool order.
#[verifier::rlimit(100)]
pub fn generate_typescript_code(server: &MCPServer) -> (r: Vec<FileCode>)
    ensures
        files_view(r@).len() == server@.tools.len(),
        forall|i: int|
            0 <= i < server@.tools.len() ==> files_view(r@)[i] == (FileCodeV {
                name: server@.tools[i].name,
                code: spec_tool_code(server@.tools[i]),
            }),
{
    let mut out: Vec<FileCode> = Vec::new();
    let mut i: usize = 0;
    while i < server.tools.len()
        invariant
            i <= server.tools@.len(),
            files_view(out@).len() == i,
            forall|j: int|
                0 <= j < i ==> files_view(out@)[j] == (FileCodeV {
                    name: tools_view(server.tools@)[j].name,
                    code: spec_tool_code(tools_view(server.tools@)[j]),
                }),
        decreases server.tools@.len() - i,
    {
        let code = tool_to_code(&server.tools[i]);
        let fc = FileCode { name: server.tools[i].name.clone(), code };
        let ghost fv = fc@;
        let ghost out0 = out@;
        out.push(fc);
        proof {
            assert(out@ == out0.push(fc));
            assert(files_view(out@) =~= files_view(out0).push(fv));
            assert(tools_view(server.tools@)[i as int] == server.tools@[i as int]@);
            assert(fv == (FileCodeV {
                name: tools_view(server.tools@)[i as int].name,
                code: spec_tool_code(tools_view(server.tools@)[i as int]),
            }));
            assert(forall|j: int|
                0 <= j < i ==> files_view(out@)[j] == files_view(out0)[j]);
        }
        i = i + 1;
    }
    proof {
        assert(tools_view(server.tools@) == server@.tools);
    }
    out
}

} // verus!
