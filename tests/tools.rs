use agentai::mcp::McpToolBox;
use agentai::multi_tool::{merge_tools_definitions, prefix_name, route_call, route_tool_name};
use agentai::tool::{call_result, filter_whitelist, find_tool, CallOutcome, Tool, ToolError};

fn time_server_tools() -> Vec<Tool> {
    vec![
        Tool::new("get_current_time".to_string()),
        Tool::new("convert_time".to_string()),
    ]
}

fn names(tools: &[Tool]) -> Vec<String> {
    tools.iter().map(|t| t.name.clone()).collect()
}

#[test]
fn test_merge_tool() {
    let tool_defs = merge_tools_definitions(vec![time_server_tools(), time_server_tools()]);
    assert_eq!(tool_defs.len(), 4);
    assert_eq!(tool_defs[0].name, "0-get_current_time");
    assert_eq!(tool_defs[1].name, "0-convert_time");
    assert_eq!(tool_defs[2].name, "1-get_current_time");
    assert_eq!(tool_defs[3].name, "1-convert_time");
}

#[test]
fn multi_tool_test_call_tool_convert_time() {
    let first = route_tool_name("0-convert_time", 2).ok().unwrap();
    assert_eq!(first, (0, "convert_time".to_string()));
    let second = route_tool_name("1-convert_time", 2).ok().unwrap();
    assert_eq!(second, (1, "convert_time".to_string()));
}

#[test]
fn merged_names_are_distinct_across_providers() {
    let tool_defs = merge_tools_definitions(vec![
        vec![Tool::new("search".to_string())],
        vec![],
        vec![Tool::new("search".to_string()), Tool::new("fetch".to_string())],
    ]);
    assert_eq!(names(&tool_defs), vec!["0-search", "2-search", "2-fetch"]);
    assert_ne!(tool_defs[0].name, tool_defs[1].name);
}

#[test]
fn merged_descriptions_are_kept() {
    let mut t = Tool::new("lookup".to_string());
    t.description = Some("finds things".to_string());
    let tool_defs = merge_tools_definitions(vec![vec![], vec![t]]);
    assert_eq!(tool_defs.len(), 1);
    assert_eq!(tool_defs[0].name, "1-lookup");
    assert_eq!(tool_defs[0].description.as_deref(), Some("finds things"));
}

#[test]
fn routing_inverts_naming() {
    for i in [0usize, 7, 10, 123] {
        let name = prefix_name(i, "a-b_c");
        assert_eq!(name, format!("{}-a-b_c", i));
        let routed = route_tool_name(&name, 124).ok().unwrap();
        assert_eq!(routed, (i, "a-b_c".to_string()));
    }
}

#[test]
fn routing_rejects_bad_names() {
    for name in ["convert_time", "x-convert_time", "2-convert_time", "-convert_time", "+1-t"] {
        match route_tool_name(name, 2) {
            Err(ToolError::NoToolFound(n)) => assert_eq!(n, name),
            _ => panic!("{} should not route", name),
        }
    }
}

#[test]
fn mcp_test_new_and_tools_definitions() {
    let mut mcp_tools = McpToolBox::new();
    let idx = mcp_tools.add_server_tools(time_server_tools());
    assert_eq!(idx, 0);
    let tool_defs = mcp_tools.tools_definitions();
    assert!(tool_defs.len() >= 1);
    let with_prefix: Vec<_> = tool_defs.iter().filter(|t| t.name.starts_with("server0_")).collect();
    assert!(!with_prefix.is_empty());
    assert_eq!(names(tool_defs), vec!["server0_get_current_time", "server0_convert_time"]);
}

#[test]
fn mcp_test_call_tool_convert_time() {
    let mut mcp_tools = McpToolBox::new();
    mcp_tools.add_server_tools(time_server_tools());
    mcp_tools.add_server_tools(time_server_tools());
    let convert = mcp_tools
        .tools_definitions()
        .iter()
        .find(|t| t.name.contains("convert_time"))
        .expect("convert_time tool should be available")
        .name
        .clone();
    assert_eq!(mcp_tools.route(&convert).ok().unwrap(), (0, "convert_time".to_string()));
    assert_eq!(
        mcp_tools.route("server1_convert_time").ok().unwrap(),
        (1, "convert_time".to_string())
    );
}

#[test]
fn mcp_test_call_tool_invalid_tool() {
    let mut mcp_tools = McpToolBox::new();
    mcp_tools.add_server_tools(time_server_tools());
    let result = mcp_tools.route("non_existent_tool");
    assert!(result.is_err());
    match result {
        Err(ToolError::NoToolFound(n)) => assert_eq!(n, "existent_tool"),
        _ => panic!("expected a missing tool"),
    }
    match mcp_tools.route("notool") {
        Err(ToolError::NoToolFound(n)) => assert_eq!(n, "notool"),
        _ => panic!("expected a missing tool"),
    }
    assert!(mcp_tools.route("server1_convert_time").is_err());
}

#[test]
fn mcp_add_tool_keeps_name() {
    let mut mcp_tools = McpToolBox::new();
    mcp_tools.add_server_tools(vec![Tool::new("a".to_string())]);
    mcp_tools.add_tool(Tool::new("local".to_string()));
    assert_eq!(names(mcp_tools.tools_definitions()), vec!["server0_a", "local"]);
}

#[test]
fn stdio_mcp_test_new_and_tools_definitions() {
    let tool_defs = filter_whitelist(time_server_tools(), &None);
    assert!(tool_defs.len() >= 2);
    assert!(tool_defs.iter().any(|t| t.name == "get_current_time"));
    assert!(tool_defs.iter().any(|t| t.name == "convert_time"));
    let only = filter_whitelist(time_server_tools(), &Some(vec!["convert_time".to_string()]));
    assert_eq!(names(&only), vec!["convert_time"]);
    let none = filter_whitelist(time_server_tools(), &Some(vec![]));
    assert!(none.is_empty());
}

#[test]
fn stdio_mcp_test_call_tool_convert_time() {
    let outcome = CallOutcome {
        is_error: Some(false),
        first_text: Some("{\"time\":\"06:00\"}".to_string()),
        content_json: Ok("[{\"type\":\"text\"}]".to_string()),
    };
    let result = call_result("convert_time".to_string(), outcome).ok().unwrap();
    assert!(!result.is_empty());
    assert_eq!(result, "[{\"type\":\"text\"}]");
}

#[test]
fn stdio_mcp_test_call_tool_invalid_tool() {
    let outcome = CallOutcome {
        is_error: Some(true),
        first_text: Some("Unknown tool: non_existent_tool".to_string()),
        content_json: Ok("[]".to_string()),
    };
    let result = call_result("non_existent_tool".to_string(), outcome);
    assert!(result.is_err());
    match result {
        Err(ToolError::NoToolFound(n)) => assert_eq!(n, "non_existent_tool"),
        _ => panic!("expected a missing tool"),
    }
}

#[test]
fn call_result_reports_tool_errors() {
    let outcome = CallOutcome {
        is_error: Some(true),
        first_text: Some("bad zone".to_string()),
        content_json: Ok("[]".to_string()),
    };
    match call_result("t".to_string(), outcome) {
        Err(ToolError::Other(m)) => assert_eq!(m, "Tool error: bad zone"),
        _ => panic!("expected a tool error"),
    }
    let outcome = CallOutcome { is_error: Some(true), first_text: None, content_json: Ok("[]".to_string()) };
    match call_result("t".to_string(), outcome) {
        Err(ToolError::Other(m)) => assert_eq!(m, "Tool error: Unknown error"),
        _ => panic!("expected a tool error"),
    }
    let outcome = CallOutcome { is_error: None, first_text: None, content_json: Err("no json".to_string()) };
    match call_result("t".to_string(), outcome) {
        Err(ToolError::Other(m)) => assert_eq!(m, "no json"),
        _ => panic!("expected a serialisation error"),
    }
}

#[test]
fn tool_error_messages() {
    assert_eq!(ToolError::ToolsDefinitionNotReady.message(), "Tool definitions are not ready");
    assert_eq!(ToolError::NoToolFound("x".to_string()).message(), "Tool named 'x' not found");
    assert_eq!(ToolError::ExecutionError.message(), "Tool execution failed");
    assert_eq!(ToolError::Other("boom".to_string()).message(), "boom");
}

#[test]
fn finding_tools_by_name() {
    let tools = vec![
        Tool::new("a".to_string()),
        Tool::new("b".to_string()),
        Tool::new("a".to_string()),
    ];
    assert_eq!(find_tool(&tools, "a").ok(), Some(0));
    assert_eq!(find_tool(&tools, "b").ok(), Some(1));
    match find_tool(&tools, "c") {
        Err(ToolError::NoToolFound(n)) => assert_eq!(n, "c"),
        _ => panic!("expected a missing tool"),
    }
}

#[test]
fn routed_calls_keep_their_arguments() {
    let args = serde_json::Value::String("12:00".to_string());
    let routed = route_call("1-convert_time", args.clone(), 2).ok().unwrap();
    assert_eq!(routed.provider, 1);
    assert_eq!(routed.tool_name, "convert_time");
    assert_eq!(routed.arguments, args);
    assert!(route_call("2-convert_time", args, 2).is_err());
}
