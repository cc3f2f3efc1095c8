//! A tool box over several MCP servers. Server `i` is labelled
//! `"server<i>"`, and its tool `name` is exposed as `"server<i>_<name>"`.

use crate::text::{
    all_digits, decimal, decimal_string, is_first, lemma_decimal, lemma_split_first_at,
    split_first, split_once_at,
};
use crate::tool::{tools_view, Tool, ToolError, ToolErrorView, ToolView};
use vstd::prelude::*;

verus! {

/// How to reach an MCP server.
pub enum McpServer {
    /// A server spawned as a child process, spoken to over its stdio.
    ChildProcess(ChildProcess),
    /// A server reached over streamable HTTP.
    StreamableHttp(StreamableHttp),
}

/// The command line of a child-process MCP server.
pub struct ChildProcess {
    pub command: String,
    pub args: Vec<String>,
}

/// The address of a streamable-HTTP MCP server.
pub struct StreamableHttp {
    pub url: String,
}

pub open spec fn server_word() -> Seq<char> {
    seq!['s', 'e', 'r', 'v', 'e', 'r']
}

/// The label of server `i`.
pub open spec fn server_label(i: nat) -> Seq<char> {
    server_word() + decimal(i)
}

/// The public name of server `i`'s tool `name`.
pub open spec fn server_tool_name(i: nat, name: Seq<char>) -> Seq<char> {
    server_label(i) + seq!['_'] + name
}

/// The server and local tool name that a public name stands for, among
/// `servers` servers. A name without `_` is not found under its own name; a
/// name whose label is no server's is not found under its local name.
pub open spec fn server_route(name: Seq<char>, servers: nat) -> Result<(nat, Seq<char>), ToolErrorView> {
    match split_first(name, '_') {
        None => Err(ToolErrorView::NoToolFound(name)),
        Some((head, local)) => if exists|i: nat| i < servers && head == server_label(i) {
            Ok((choose|i: nat| i < servers && head == server_label(i), local))
        } else {
            Err(ToolErrorView::NoToolFound(local))
        },
    }
}

pub proof fn lemma_server_label_injective(i: nat, j: nat)
    requires
        server_label(i) == server_label(j),
    ensures
        i == j,
{
    lemma_decimal(i);
    lemma_decimal(j);
    assert(server_label(i).skip(6) =~= decimal(i));
    assert(server_label(j).skip(6) =~= decimal(j));
}

/// Routing inverts the naming: server `i`'s public tool name leads back to
/// server `i` and the tool's own name.
pub proof fn lemma_server_route(i: nat, name: Seq<char>, servers: nat)
    requires
        i < servers,
    ensures
        server_route(server_tool_name(i, name), servers) == Ok::<(nat, Seq<char>), ToolErrorView>(
            (i, name),
        ),
{
    let l = server_label(i);
    let s = server_tool_name(i, name);
    lemma_decimal(i);
    assert forall|j: int| 0 <= j < l.len() implies s[j] != '_' by {
        assert(s[j] == l[j]);
        if j >= 6 {
            assert(l[j] == decimal(i)[j - 6]);
            assert(all_digits(decimal(i)));
        }
    }
    assert(is_first(s, '_', l.len() as int));
    lemma_split_first_at(s, '_', l.len() as int);
    assert(s.take(l.len() as int) =~= l);
    assert(s.skip(l.len() as int + 1) =~= name);
    let k = choose|k: nat| k < servers && l == server_label(k);
    lemma_server_label_injective(i, k);
}

/// Spells the label of server `i`.
pub fn server_label_string(i: usize) -> (r: String)
    ensures
        r@ == server_label(i as nat),
{
    proof {
        reveal_strlit("server");
    }
    let mut r = String::from_str("server");
    let d = decimal_string(i);
    r.append(d.as_str());
    assert(r@ =~= server_label(i as nat));
    r
}

/// The tools of all servers, and how many servers there are.
pub struct McpToolBox {
    tools: Vec<Tool>,
    servers: usize,
}

pub struct McpToolBoxView {
    pub tools: Seq<ToolView>,
    pub servers: nat,
}

impl View for McpToolBox {
    type V = McpToolBoxView;

    closed spec fn view(&self) -> McpToolBoxView {
        McpToolBoxView { tools: tools_view(self.tools@), servers: self.servers as nat }
    }
}

/// Server `i`'s tool under its public name.
pub open spec fn server_tool(t: ToolView, i: nat) -> ToolView {
    ToolView { name: server_tool_name(i, t.name), ..t }
}

impl McpToolBox {
    /// A tool box without servers or tools.
    pub fn new() -> (r: McpToolBox)
        ensures
            r@.tools == Seq::<ToolView>::empty(),
            r@.servers == 0,
    {
        let r = McpToolBox { tools: Vec::new(), servers: 0 };
        assert(r@.tools =~= Seq::<ToolView>::empty());
        r
    }

    /// Registers the next server with the tools it lists, each under its
    /// public name, and returns the server's ordinal.
    pub fn add_server_tools(&mut self, tools: Vec<Tool>) -> (r: usize)
        requires
            old(self)@.servers < usize::MAX,
        ensures
            r == old(self)@.servers,
            final(self)@.servers == old(self)@.servers + 1,
            final(self)@.tools == old(self)@.tools + tools_view(tools@).map_values(
                |t: ToolView| server_tool(t, r as nat),
            ),
    {
        let i = self.servers;
        let ghost orig = tools_view(tools@);
        let ghost before = tools_view(self.tools@);
        let label = server_label_string(i);
        let mut rest = tools;
        let ghost mut k: int = 0;
        while rest.len() > 0
            invariant
                self.servers == i,
                label@ == server_label(i as nat),
                0 <= k <= orig.len(),
                rest.len() == orig.len() - k,
                tools_view(rest@) == orig.skip(k),
                tools_view(self.tools@) == before + orig.take(k).map_values(
                    |t: ToolView| server_tool(t, i as nat),
                ),
            decreases rest.len(),
        {
            let ghost rb = rest@;
            assert(tools_view(rb)[0] == orig[k]);
            let mut t = rest.remove(0);
            assert(rest@ =~= rb.skip(1));
            let mut name = label.clone();
            proof {
                reveal_strlit("_");
            }
            name.append("_");
            name.append(t.name.as_str());
            t.name = name;
            assert(t@ == server_tool(orig[k], i as nat)) by {
                assert(t@.name =~= server_tool_name(i as nat, orig[k].name));
            }
            let ghost tb = self.tools@;
            self.tools.push(t);
            proof {
                assert(tools_view(self.tools@) =~= tools_view(tb).push(t@));
                assert(orig.take(k + 1).map_values(|t: ToolView| server_tool(t, i as nat))
                    =~= orig.take(k).map_values(|t: ToolView| server_tool(t, i as nat)).push(
                    server_tool(orig[k], i as nat),
                ));
                assert forall|m: int| 0 <= m < rest@.len() implies #[trigger] tools_view(rest@)[m]
                    == orig.skip(k + 1)[m] by {
                    assert(tools_view(rb)[m + 1] == orig.skip(k)[m + 1]);
                }
                assert(tools_view(rest@) =~= orig.skip(k + 1));
                k = k + 1;
            }
        }
        assert(orig.take(k) =~= orig);
        self.servers = i + 1;
        i
    }

    /// Adds one tool as it is, under its own name.
    pub fn add_tool(&mut self, tool: Tool)
        ensures
            final(self)@.servers == old(self)@.servers,
            final(self)@.tools == old(self)@.tools.push(tool@),
    {
        let ghost tb = self.tools@;
        self.tools.push(tool);
        assert(tools_view(self.tools@) =~= tools_view(tb).push(tool@));
    }

    /// The tools of all servers, and those added one by one, in the order
    /// they came.
    pub fn tools_definitions(&self) -> (r: &Vec<Tool>)
        ensures
            tools_view(r@) == self@.tools,
    {
        &self.tools
    }

    /// Finds the server and local tool name for a public name.
    pub fn route(&self, name: &str) -> (r: Result<(usize, String), ToolError>)
        ensures
            r matches Ok((i, local)) ==> server_route(name@, self@.servers) == Ok::<
                (nat, Seq<char>),
                ToolErrorView,
            >((i as nat, local@)),
            r matches Err(e) ==> server_route(name@, self@.servers) == Err::<
                (nat, Seq<char>),
                ToolErrorView,
            >(e@),
    {
        match split_once_at(name, '_') {
            None => Err(ToolError::NoToolFound(String::from_str(name))),
            Some((head, local)) => {
                let mut i: usize = 0;
                while i < self.servers
                    invariant
                        0 <= i <= self.servers,
                        split_first(name@, '_') == Some((head@, local@)),
                        forall|j: nat| j < i ==> head@ != server_label(j),
                    decreases self.servers - i,
                {
                    let l = server_label_string(i);
                    if l == head {
                        proof {
                            let k = choose|k: nat|
                                k < self@.servers && head@ == server_label(k);
                            lemma_server_label_injective(i as nat, k);
                        }
                        return Ok((i, local));
                    }
                    i = i + 1;
                }
                Err(ToolError::NoToolFound(local))
            },
        }
    }
}

} // verus!
