//! The registry and constants emitters: one module that imports and registers
//! every generated tool, and one exposing the base URL and, when OAuth2 is
//! configured, its endpoint URLs.

use vstd::prelude::*;

use crate::codegen::spec_escape;
use crate::ir::{MCPServer, ServerV, ToolV};

verus! {

/// One import line per tool, in tool order.
pub open spec fn spec_index_imports(tools: Seq<ToolV>) -> Seq<char>
    decreases tools.len(),
{
    if tools.len() == 0 {
        Seq::empty()
    } else {
        "import * as "@ + tools[0].name + " from \"./"@ + tools[0].name + ".js\";\n"@
            + spec_index_imports(tools.drop_first())
    }
}

/// One registration call per tool, in tool order.
pub open spec fn spec_index_calls(tools: Seq<ToolV>) -> Seq<char>
    decreases tools.len(),
{
    if tools.len() == 0 {
        Seq::empty()
    } else {
        "  "@ + tools[0].name + ".setupTool(server);\n"@ + spec_index_calls(tools.drop_first())
    }
}

/// The whole registry module.
pub open spec fn spec_tools_index(tools: Seq<ToolV>) -> Seq<char> {
    "import { McpServer as UpstreamMCPServer } from \"@modelcontextprotocol/sdk/server/mcp.js\";\n\n"@
        + spec_index_imports(tools)
        + "\nexport function setupAllTools<S extends UpstreamMCPServer>(server: S) {\n"@
        + spec_index_calls(tools) + "}\n"@
}

/// Renders the registry module: it imports every generated tool module by the
/// tool's name and registers each one.
pub fn update_tools_index_ts(server: &MCPServer) -> (r: String)
    ensures
        r@ == spec_tools_index(server@.tools),
{
    let ghost all = crate::ir::tools_view(server.tools@);
    let mut out =
        "import { McpServer as UpstreamMCPServer } from \"@modelcontextprotocol/sdk/server/mcp.js\";\n\n".to_owned();
    let mut i: usize = 0;
    proof {
        assert(all.subrange(0, all.len() as int) =~= all);
    }
    while i < server.tools.len()
        invariant
            i <= server.tools@.len(),
            all == crate::ir::tools_view(server.tools@),
            out@ + spec_index_imports(all.subrange(i as int, all.len() as int))
                == "import { McpServer as UpstreamMCPServer } from \"@modelcontextprotocol/sdk/server/mcp.js\";\n\n"@
                + spec_index_imports(all),
        decreases server.tools@.len() - i,
    {
        let ghost rest = all.subrange(i as int, all.len() as int);
        let ghost rest2 = all.subrange(i as int + 1, all.len() as int);
        proof {
            assert(rest[0] == all[i as int]);
            assert(all[i as int] == server.tools@[i as int]@);
            assert(rest.drop_first() =~= rest2);
        }
        out.append("import * as ");
        out.append(server.tools[i].name.as_str());
        out.append(" from \"./");
        out.append(server.tools[i].name.as_str());
        out.append(".js\";\n");
        proof {
            assert(out@ + spec_index_imports(rest2)
                == "import { McpServer as UpstreamMCPServer } from \"@modelcontextprotocol/sdk/server/mcp.js\";\n\n"@
                + spec_index_imports(all)) by {
                assert(out@ + spec_index_imports(rest2)
                    =~= "import { McpServer as UpstreamMCPServer } from \"@modelcontextprotocol/sdk/server/mcp.js\";\n\n"@
                    + spec_index_imports(all));
            }
        }
        i = i + 1;
    }
    proof {
        assert(all.subrange(all.len() as int, all.len() as int) =~= Seq::<ToolV>::empty());
        assert(out@ + Seq::<char>::empty() =~= out@);
    }
    out.append("\nexport function setupAllTools<S extends UpstreamMCPServer>(server: S) {\n");
    let ghost mid = out@;
    let mut j: usize = 0;
    proof {
        assert(all.subrange(0, all.len() as int) =~= all);
    }
    while j < server.tools.len()
        invariant
            j <= server.tools@.len(),
            all == crate::ir::tools_view(server.tools@),
            out@ + spec_index_calls(all.subrange(j as int, all.len() as int)) == mid
                + spec_index_calls(all),
        decreases server.tools@.len() - j,
    {
        let ghost rest = all.subrange(j as int, all.len() as int);
        let ghost rest2 = all.subrange(j as int + 1, all.len() as int);
        proof {
            assert(rest[0] == all[j as int]);
            assert(all[j as int] == server.tools@[j as int]@);
            assert(rest.drop_first() =~= rest2);
        }
        out.append("  ");
        out.append(server.tools[j].name.as_str());
        out.append(".setupTool(server);\n");
        proof {
            assert(out@ + spec_index_calls(rest2) =~= mid + spec_index_calls(all));
        }
        j = j + 1;
    }
    proof {
        assert(all.subrange(all.len() as int, all.len() as int) =~= Seq::<ToolV>::empty());
        assert(out@ + Seq::<char>::empty() =~= out@);
    }
    out.append("}\n");
    proof {
        assert(out@ =~= spec_tools_index(all));
    }
    out
}

/// The whole constants module: the base URL always, the OAuth2 endpoint URLs
/// exactly when a flow is configured.
pub open spec fn spec_constants(s: ServerV) -> Seq<char> {
    "export const BASE_URL = \""@ + spec_escape(s.base_url) + "\";\n"@ + match s.oauth2_info {
        None => Seq::<char>::empty(),
        Some(i) => "export const AUTHORIZATION_URL = \""@ + spec_escape(i.authorization_url)
            + "\";\n"@ + "export const TOKEN_URL = \""@ + spec_escape(i.token_url) + "\";\n"@,
    }
}

/// Renders the constants module.
pub fn update_constants_ts(server: &MCPServer) -> (r: String)
    ensures
        r@ == spec_constants(server@),
{
    let mut out = "export const BASE_URL = \"".to_owned();
    let esc = crate::codegen::comment(server.base_url.as_str());
    out.append(esc.as_str());
    out.append("\";\n");
    match &server.oauth2_info {
        None => {},
        Some(i) => {
            let a = crate::codegen::comment(i.authorization_url.as_str());
            let t = crate::codegen::comment(i.token_url.as_str());
            out.append("export const AUTHORIZATION_URL = \"");
            out.append(a.as_str());
            out.append("\";\n");
            out.append("export const TOKEN_URL = \"");
            out.append(t.as_str());
            out.append("\";\n");
        },
    }
    proof {
        assert(out@ =~= spec_constants(server@));
    }
    out
}

} // verus!
