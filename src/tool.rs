//! Tool descriptors and the errors that tool providers report.

use crate::text::{contains_seq, contains_str};
use vstd::prelude::*;

verus! {

/// A tool that a provider exposes to the chat backend.
pub struct Tool {
    /// The name under which the backend requests the tool.
    pub name: String,
    /// Free text that tells the backend what the tool does.
    pub description: Option<String>,
    /// JSON schema of the accepted arguments.
    pub schema: Option<serde_json::Value>,
    /// Provider-private configuration.
    pub config: Option<serde_json::Value>,
}

pub struct ToolView {
    pub name: Seq<char>,
    pub description: Option<Seq<char>>,
    pub schema: Option<serde_json::Value>,
    pub config: Option<serde_json::Value>,
}

pub open spec fn opt_view(s: Option<String>) -> Option<Seq<char>> {
    match s {
        Some(t) => Some(t@),
        None => None,
    }
}

pub open spec fn tools_view(v: Seq<Tool>) -> Seq<ToolView> {
    v.map_values(|t: Tool| t@)
}

impl View for Tool {
    type V = ToolView;

    open spec fn view(&self) -> ToolView {
        ToolView {
            name: self.name@,
            description: opt_view(self.description),
            schema: self.schema,
            config: self.config,
        }
    }
}

impl Tool {
    /// A tool with a name only.
    pub fn new(name: String) -> (r: Tool)
        ensures
            r@ == (ToolView { name: name@, description: None, schema: None, config: None }),
    {
        Tool { name, description: None, schema: None, config: None }
    }
}

/// `i` is the first position of a tool named `name`.
pub open spec fn is_first_named(tools: Seq<ToolView>, name: Seq<char>, i: int) -> bool {
    &&& 0 <= i < tools.len()
    &&& tools[i].name == name
    &&& forall|j: int| 0 <= j < i ==> tools[j].name != name
}

/// Finds the first tool named `name`; a missing tool is reported by its name.
pub fn find_tool(tools: &Vec<Tool>, name: &str) -> (r: Result<usize, ToolError>)
    ensures
        r matches Ok(i) ==> is_first_named(tools_view(tools@), name@, i as int),
        r matches Err(e) ==> e@ == ToolErrorView::NoToolFound(name@) && forall|j: int|
            0 <= j < tools.len() ==> tools@[j].name@ != name@,
{
    let key = String::from_str(name);
    let mut i: usize = 0;
    while i < tools.len()
        invariant
            0 <= i <= tools.len(),
            key@ == name@,
            forall|j: int| 0 <= j < i ==> tools@[j].name@ != name@,
        decreases tools.len() - i,
    {
        if tools[i].name == key {
            return Ok(i);
        }
        i = i + 1;
    }
    Err(ToolError::NoToolFound(key))
}

/// What can go wrong when tools are listed or called.
pub enum ToolError {
    /// The provider's tool list is not available.
    ToolsDefinitionNotReady,
    /// No tool of the given name is known.
    NoToolFound(String),
    /// A tool ran and failed.
    ExecutionError,
    /// Any other failure, with its description.
    Other(String),
}

pub open spec fn not_found_message(name: Seq<char>) -> Seq<char> {
    seq!['T', 'o', 'o', 'l', ' ', 'n', 'a', 'm', 'e', 'd', ' ', '\''] + name + seq![
        '\'',
        ' ',
        'n',
        'o',
        't',
        ' ',
        'f',
        'o',
        'u',
        'n',
        'd',
    ]
}

impl ToolError {
    /// The text that describes the error.
    pub open spec fn spec_message(&self) -> Seq<char> {
        match self {
            ToolError::ToolsDefinitionNotReady => seq![
                'T',
                'o',
                'o',
                'l',
                ' ',
                'd',
                'e',
                'f',
                'i',
                'n',
                'i',
                't',
                'i',
                'o',
                'n',
                's',
                ' ',
                'a',
                'r',
                'e',
                ' ',
                'n',
                'o',
                't',
                ' ',
                'r',
                'e',
                'a',
                'd',
                'y',
            ],
            ToolError::NoToolFound(name) => not_found_message(name@),
            ToolError::ExecutionError => seq![
                'T',
                'o',
                'o',
                'l',
                ' ',
                'e',
                'x',
                'e',
                'c',
                'u',
                't',
                'i',
                'o',
                'n',
                ' ',
                'f',
                'a',
                'i',
                'l',
                'e',
                'd',
            ],
            ToolError::Other(msg) => msg@,
        }
    }

    /// The text that describes the error, as it is written back into a
    /// conversation.
    pub fn message(&self) -> (r: String)
        ensures
            r@ == self.spec_message(),
    {
        match self {
            ToolError::ToolsDefinitionNotReady => {
                let s = "Tool definitions are not ready";
                proof {
                    reveal_strlit("Tool definitions are not ready");
                }
                assert(s@ =~= self.spec_message());
                String::from_str(s)
            },
            ToolError::NoToolFound(name) => {
                let a = "Tool named '";
                let b = "' not found";
                proof {
                    reveal_strlit("Tool named '");
                    reveal_strlit("' not found");
                }
                let mut r = String::from_str(a);
                r.append(name.as_str());
                r.append(b);
                assert(r@ =~= not_found_message(name@));
                r
            },
            ToolError::ExecutionError => {
                let s = "Tool execution failed";
                proof {
                    reveal_strlit("Tool execution failed");
                }
                assert(s@ =~= self.spec_message());
                String::from_str(s)
            },
            ToolError::Other(msg) => msg.clone(),
        }
    }
}

/// Whether a tool name passes an optional allow-list.
pub open spec fn allowed(whitelist: Option<Seq<Seq<char>>>, name: Seq<char>) -> bool {
    match whitelist {
        Some(w) => w.contains(name),
        None => true,
    }
}

pub open spec fn names_view(w: Seq<String>) -> Seq<Seq<char>> {
    w.map_values(|s: String| s@)
}

pub open spec fn whitelist_view(whitelist: Option<Vec<String>>) -> Option<Seq<Seq<char>>> {
    match whitelist {
        Some(w) => Some(names_view(w@)),
        None => None,
    }
}

/// The tools of `tools`, in order, that an allow-list keeps.
pub open spec fn kept_tools(tools: Seq<ToolView>, whitelist: Option<Seq<Seq<char>>>) -> Seq<
    ToolView,
> {
    tools.filter(|t: ToolView| allowed(whitelist, t.name))
}

fn listed(w: &Vec<String>, name: &String) -> (r: bool)
    ensures
        r == names_view(w@).contains(name@),
{
    let mut i: usize = 0;
    while i < w.len()
        invariant
            0 <= i <= w.len(),
            forall|k: int| 0 <= k < i ==> w@[k]@ != name@,
        decreases w.len() - i,
    {
        if w[i] == *name {
            assert(names_view(w@)[i as int] == name@);
            return true;
        }
        i = i + 1;
    }
    assert(!names_view(w@).contains(name@)) by {
        if names_view(w@).contains(name@) {
            let k = choose|k: int|
                0 <= k < w@.len() && #[trigger] names_view(w@)[k] == name@;
            assert(w@[k]@ == name@);
        }
    }
    false
}

/// Keeps the tools whose names an optional allow-list holds, in their order;
/// without a list every tool is kept.
pub fn filter_whitelist(tools: Vec<Tool>, whitelist: &Option<Vec<String>>) -> (r: Vec<Tool>)
    ensures
        tools_view(r@) == kept_tools(
            tools_view(tools@),
            whitelist_view(*whitelist),
        ),
{
    let ghost all = tools_view(tools@);
    let ghost wl = whitelist_view(*whitelist);
    let mut rest = tools;
    let mut r: Vec<Tool> = Vec::new();
    let ghost mut i: int = 0;
    while rest.len() > 0
        invariant
            0 <= i <= all.len(),
            wl == whitelist_view(*whitelist),
            tools_view(rest@) == all.skip(i),
            rest.len() == all.len() - i,
            tools_view(r@) == kept_tools(all.take(i), wl),
        decreases rest.len(),
    {
        assert(tools_view(rest@)[0] == all[i]);
        let ghost before = rest@;
        let t = rest.remove(0);
        assert(t@ == all[i]);
        assert(rest@ =~= before.skip(1));
        let keep = match whitelist {
            Some(w) => {
                let k = listed(w, &t.name);
                assert(wl == Some(names_view(w@)));
                k
            },
            None => true,
        };
        assert(keep == allowed(wl, all[i].name));
        proof {
            assert(all.take(i + 1).drop_last() =~= all.take(i));
            reveal(Seq::filter);
        }
        if keep {
            r.push(t);
            assert(tools_view(r@) =~= kept_tools(all.take(i), wl).push(all[i]));
        }
        proof {
            i = i + 1;
            assert forall|k: int| 0 <= k < rest@.len() implies #[trigger] tools_view(rest@)[k] == all.skip(i)[k] by {
                assert(tools_view(before)[k + 1] == all.skip(i - 1)[k + 1]);
            }
            assert(tools_view(rest@) =~= all.skip(i));
        }
    }
    assert(all.take(i) =~= all);
    r
}

/// The result of a remote tool call: the error flag the server set, the
/// first text part of its content, and the content serialised as JSON.
pub struct CallOutcome {
    pub is_error: Option<bool>,
    pub first_text: Option<String>,
    pub content_json: Result<String, String>,
}

pub open spec fn unknown_tool_marker() -> Seq<char> {
    seq!['U', 'n', 'k', 'n', 'o', 'w', 'n', ' ', 't', 'o', 'o', 'l']
}

pub open spec fn unknown_error_text() -> Seq<char> {
    seq!['U', 'n', 'k', 'n', 'o', 'w', 'n', ' ', 'e', 'r', 'r', 'o', 'r']
}

pub open spec fn tool_error_prefix() -> Seq<char> {
    seq!['T', 'o', 'o', 'l', ' ', 'e', 'r', 'r', 'o', 'r', ':', ' ']
}

/// The error text of a failed call: its first text part, or a stock text.
pub open spec fn failure_text(first_text: Option<String>) -> Seq<char> {
    match first_text {
        Some(t) => t@,
        None => unknown_error_text(),
    }
}

/// What a remote tool call yields, by the outcome the server reported.
pub open spec fn spec_call_result(tool_name: Seq<char>, o: CallOutcome) -> Result<Seq<char>, ToolErrorView> {
    if o.is_error == Some(true) {
        if contains_seq(failure_text(o.first_text), unknown_tool_marker()) {
            Err(ToolErrorView::NoToolFound(tool_name))
        } else {
            Err(ToolErrorView::Other(tool_error_prefix() + failure_text(o.first_text)))
        }
    } else {
        match o.content_json {
            Ok(s) => Ok(s@),
            Err(e) => Err(ToolErrorView::Other(e@)),
        }
    }
}

pub enum ToolErrorView {
    ToolsDefinitionNotReady,
    NoToolFound(Seq<char>),
    ExecutionError,
    Other(Seq<char>),
}

impl View for ToolError {
    type V = ToolErrorView;

    open spec fn view(&self) -> ToolErrorView {
        match self {
            ToolError::ToolsDefinitionNotReady => ToolErrorView::ToolsDefinitionNotReady,
            ToolError::NoToolFound(n) => ToolErrorView::NoToolFound(n@),
            ToolError::ExecutionError => ToolErrorView::ExecutionError,
            ToolError::Other(m) => ToolErrorView::Other(m@),
        }
    }
}

pub open spec fn result_view(r: Result<String, ToolError>) -> Result<Seq<char>, ToolErrorView> {
    match r {
        Ok(s) => Ok(s@),
        Err(e) => Err(e@),
    }
}

/// Turns what a remote tool server reported into the call's result: a
/// flagged error whose text mentions an unknown tool means the tool was not
/// found, any other flagged error is reported with its text, and otherwise
/// the serialised content is the result.
pub fn call_result(tool_name: String, outcome: CallOutcome) -> (r: Result<String, ToolError>)
    ensures
        result_view(r) == spec_call_result(tool_name@, outcome),
{
    let ghost o = outcome;
    let CallOutcome { is_error, first_text, content_json } = outcome;
    let flagged = match is_error {
        Some(b) => b,
        None => false,
    };
    if flagged {
        let text = match first_text {
            Some(t) => t,
            None => {
                proof {
                    reveal_strlit("Unknown error");
                }
                assert("Unknown error"@ =~= unknown_error_text());
                String::from_str("Unknown error")
            },
        };
        assert(text@ == failure_text(o.first_text));
        proof {
            reveal_strlit("Unknown tool");
        }
        assert("Unknown tool"@ =~= unknown_tool_marker());
        if contains_str(text.as_str(), "Unknown tool") {
            Err(ToolError::NoToolFound(tool_name))
        } else {
            proof {
                reveal_strlit("Tool error: ");
            }
            let mut m = String::from_str("Tool error: ");
            m.append(text.as_str());
            assert(m@ =~= tool_error_prefix() + failure_text(o.first_text));
            Err(ToolError::Other(m))
        }
    } else {
        match content_json {
            Ok(s) => Ok(s),
            Err(e) => Err(ToolError::Other(e)),
        }
    }
}

} // verus!
