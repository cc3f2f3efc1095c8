use agentai::agent::{Action, Agent, ChatMessage, Reply, RunError, ToolCall, DEFAULT_ITERATION};
use agentai::tool::ToolError;

fn call(id: &str, name: &str) -> ToolCall {
    ToolCall {
        call_id: id.to_string(),
        fn_name: name.to_string(),
        fn_arguments: "{\"time\":\"12:00\"}".to_string(),
    }
}

fn describe(m: &ChatMessage) -> String {
    match m {
        ChatMessage::System(t) => format!("system:{}", t),
        ChatMessage::User(t) => format!("user:{}", t),
        ChatMessage::Assistant(t) => format!("assistant:{}", t),
        ChatMessage::ToolCalls(cs) => {
            let ids: Vec<String> = cs.iter().map(|c| c.call_id.clone()).collect();
            format!("calls:{}", ids.join(","))
        }
        ChatMessage::ToolResponse { call_id, content } => format!("result:{}:{}", call_id, content),
    }
}

fn history(agent: &Agent) -> Vec<String> {
    agent.history().iter().map(describe).collect()
}

#[test]
fn new_trims_system_message() {
    let agent = Agent::new("  You are helpful.\n");
    assert_eq!(history(&agent), vec!["system:You are helpful."]);
    assert!(!agent.is_running());
}

#[test]
fn immediate_text_finishes_on_turn_zero() {
    let mut agent = Agent::new("sys");
    match agent.start("hi".to_string(), None, false) {
        Action::Request { iteration } => assert_eq!(iteration, 0),
        _ => panic!("expected a request"),
    }
    assert!(agent.is_running());
    match agent.on_reply(Reply::Text("hello".to_string())) {
        Action::Finish { answer, iteration } => {
            assert_eq!(answer, "hello");
            assert_eq!(iteration, 0);
        }
        _ => panic!("expected an answer"),
    }
    assert_eq!(history(&agent), vec!["system:sys", "user:hi", "assistant:hello"]);
    assert!(!agent.is_running());
}

#[test]
fn integer_answer_with_bound_one() {
    let mut agent = Agent::new("sys");
    assert!(matches!(agent.start("six times seven".to_string(), Some(1), false), Action::Request { iteration: 0 }));
    match agent.on_reply(Reply::Text("42".to_string())) {
        Action::Finish { answer, iteration } => {
            let value: i64 = serde_json::from_str(&answer).unwrap();
            assert_eq!(value, 42);
            assert_eq!(iteration, 0);
        }
        _ => panic!("expected an answer"),
    }
}

#[test]
fn tool_turn_then_answer_history() {
    let mut agent = Agent::new("sys");
    agent.start("time?".to_string(), None, true);
    match agent.on_reply(Reply::ToolCalls(vec![call("c1", "0-convert_time"), call("c2", "1-get_current_time")])) {
        Action::CallTool(c) => {
            assert_eq!(c.call_id, "c1");
            assert_eq!(c.fn_name, "0-convert_time");
            assert_eq!(c.fn_arguments, "{\"time\":\"12:00\"}");
        }
        _ => panic!("expected a tool call"),
    }
    match agent.on_tool_result(Ok("06:00".to_string())) {
        Action::CallTool(c) => assert_eq!(c.call_id, "c2"),
        _ => panic!("expected the second tool call"),
    }
    match agent.on_tool_result(Err(ToolError::Other("zone unknown".to_string()))) {
        Action::Request { iteration } => assert_eq!(iteration, 1),
        _ => panic!("expected the next request"),
    }
    match agent.on_reply(Reply::Text("It is 06:00".to_string())) {
        Action::Finish { answer, iteration } => {
            assert_eq!(answer, "It is 06:00");
            assert_eq!(iteration, 1);
        }
        _ => panic!("expected an answer"),
    }
    assert_eq!(
        history(&agent),
        vec![
            "system:sys",
            "user:time?",
            "calls:c1,c2",
            "result:c1:06:00",
            "result:c2:zone unknown",
            "assistant:It is 06:00",
        ]
    );
}

#[test]
fn missing_tool_is_fatal() {
    let mut agent = Agent::new("sys");
    agent.start("go".to_string(), Some(5), true);
    agent.on_reply(Reply::ToolCalls(vec![call("c1", "9-nothing")]));
    match agent.on_tool_result(Err(ToolError::NoToolFound("9-nothing".to_string()))) {
        Action::Fail(RunError::ToolNotFound(n)) => assert_eq!(n, "9-nothing"),
        _ => panic!("expected a fatal failure"),
    }
    assert!(!agent.is_running());
    assert!(matches!(agent.on_reply(Reply::Text("late".to_string())), Action::Fail(RunError::OutOfOrder)));
    assert_eq!(history(&agent), vec!["system:sys", "user:go", "calls:c1"]);
}

#[test]
fn tool_call_without_toolbox_is_fatal() {
    let mut agent = Agent::new("sys");
    agent.start("go".to_string(), None, false);
    match agent.on_reply(Reply::ToolCalls(vec![call("c1", "search")])) {
        Action::Fail(RunError::NoToolbox(n)) => assert_eq!(n, "search"),
        _ => panic!("expected a fatal failure"),
    }
    assert!(!agent.is_running());
}

#[test]
fn bound_two_exhausts_after_two_requests() {
    let mut agent = Agent::new("sys");
    let mut requests = 0;
    let mut action = agent.start("loop".to_string(), Some(2), true);
    let failure = loop {
        match action {
            Action::Request { .. } => {
                requests += 1;
                action = agent.on_reply(Reply::ToolCalls(vec![call("c", "0-t")]));
            }
            Action::CallTool(_) => action = agent.on_tool_result(Ok("ok".to_string())),
            Action::Fail(e) => break e,
            Action::Finish { .. } => panic!("no answer was given"),
        }
    };
    assert_eq!(requests, 2);
    assert!(matches!(failure, RunError::Exhausted(2)));
}

#[test]
fn default_bound_is_five() {
    assert_eq!(DEFAULT_ITERATION, 5);
    let mut agent = Agent::new("sys");
    let mut requests = 0;
    let mut action = agent.start("loop".to_string(), None, true);
    loop {
        match action {
            Action::Request { .. } => {
                requests += 1;
                action = agent.on_reply(Reply::ToolCalls(vec![call("c", "0-t")]));
            }
            Action::CallTool(_) => action = agent.on_tool_result(Ok("ok".to_string())),
            _ => break,
        }
    }
    assert_eq!(requests, 5);
}

#[test]
fn zero_bound_fails_at_once() {
    let mut agent = Agent::new("sys");
    assert!(matches!(agent.start("x".to_string(), Some(0), true), Action::Fail(RunError::Exhausted(0))));
    assert_eq!(history(&agent), vec!["system:sys", "user:x"]);
}

#[test]
fn empty_and_unsupported_replies_fail() {
    let mut agent = Agent::new("sys");
    agent.start("x".to_string(), None, true);
    assert!(matches!(agent.on_reply(Reply::Empty), Action::Fail(RunError::EmptyReply)));
    agent.start("y".to_string(), None, true);
    assert!(matches!(agent.on_reply(Reply::ToolCalls(vec![])), Action::Fail(RunError::EmptyReply)));
    agent.start("z".to_string(), None, true);
    match agent.on_reply(Reply::Unsupported("Parts".to_string())) {
        Action::Fail(RunError::UnsupportedReply(d)) => assert_eq!(d, "Parts"),
        _ => panic!("expected a failure"),
    }
}

#[test]
fn history_carries_over_runs_until_cleared() {
    let mut agent = Agent::new("sys");
    agent.start("one".to_string(), None, false);
    agent.on_reply(Reply::Text("1".to_string()));
    agent.start("two".to_string(), None, false);
    agent.on_reply(Reply::Text("2".to_string()));
    assert_eq!(history(&agent), vec!["system:sys", "user:one", "assistant:1", "user:two", "assistant:2"]);
    agent.clear_history();
    assert!(agent.history().is_empty());
}

#[test]
fn abort_ends_the_run() {
    let mut agent = Agent::new("sys");
    agent.start("x".to_string(), None, true);
    match agent.abort(RunError::Transport("down".to_string())) {
        Action::Fail(RunError::Transport(m)) => assert_eq!(m, "down"),
        _ => panic!("expected the failure"),
    }
    assert!(!agent.is_running());
    assert!(matches!(agent.on_tool_result(Ok("x".to_string())), Action::Fail(RunError::OutOfOrder)));
}
