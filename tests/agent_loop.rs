use std::cell::RefCell;

use agno_core::{
    Agent, AgentError, AgentLoop, Directive, DirectiveParseError, EchoTool, LanguageModel,
    ModelError, Step, StubModel, Tool, ToolRegistry,
};
use agno_core::directive::parse_directive;
use agno_core::json::JsonField;
use agno_core::directive::directive_from_fields;
use serde_json::Value;

fn json(text: &str) -> Value {
    serde_json::from_str(text).unwrap()
}

fn scripted(lines: &[&str]) -> StubModel {
    StubModel::new(lines.iter().map(|s| s.to_string()).collect())
}

/// A tool that records every input it is called with.
struct Recorder {
    label: String,
    calls: RefCell<Vec<Value>>,
    fail_with: Option<String>,
}

impl Recorder {
    fn new(label: &str) -> Recorder {
        Recorder { label: label.to_string(), calls: RefCell::new(Vec::new()), fail_with: None }
    }
}

impl Tool for Recorder {
    fn name(&self) -> String {
        self.label.clone()
    }

    fn description(&self) -> String {
        "records its inputs".to_string()
    }

    fn call(&self, input: Value) -> Result<Value, String> {
        self.calls.borrow_mut().push(input.clone());
        match &self.fail_with {
            Some(cause) => Err(cause.clone()),
            None => Ok(input),
        }
    }
}

/// A model that always asks for the same tool, counting its calls.
struct AlwaysCalls {
    calls: usize,
}

impl LanguageModel for AlwaysCalls {
    fn complete(&mut self, _prompt: &str) -> Result<String, ModelError> {
        self.calls += 1;
        Ok(r#"{"action":"call_tool","name":"echo","arguments":{"n":1}}"#.to_string())
    }
}

#[test]
fn stub_model_hands_out_responses_in_order_then_fails() {
    let mut model = scripted(&["r1", "r2", "r3"]);
    assert_eq!(model.remaining_count(), 3);
    assert_eq!(model.complete("anything").unwrap(), "r1");
    assert_eq!(model.complete("ignored").unwrap(), "r2");
    assert_eq!(model.complete("").unwrap(), "r3");
    let err = model.complete("more").unwrap_err();
    assert_eq!(err.message, "StubModel ran out of scripted responses");
    assert!(model.complete("again").is_err());
    assert_eq!(model.remaining_count(), 0);
}

#[test]
fn empty_stub_model_fails_first_call() {
    let mut model = scripted(&[]);
    assert!(model.next_response().is_err());
}

#[test]
fn echo_tool_returns_its_input() {
    let tool = EchoTool;
    let input = json(r#"{"text":"ping","n":[1,2,{"k":null}]}"#);
    assert_eq!(tool.call(input.clone()).unwrap(), input);
    assert_eq!(tool.name(), "echo");
    assert_eq!(tool.description(), "Echoes the inbound JSON back to the caller");
}

#[test]
fn registry_resolves_registered_names_only() {
    let mut tools = ToolRegistry::new();
    tools.register(Recorder::new("a"));
    tools.register(Recorder::new("b"));
    assert_eq!(tools.resolve("a").unwrap().name(), "a");
    assert_eq!(tools.resolve("b").unwrap().name(), "b");
    assert!(tools.resolve("c").is_none());
    assert!(tools.resolve("").is_none());
}

#[test]
fn registry_last_registration_wins() {
    let mut tools = ToolRegistry::new();
    let mut first = Recorder::new("t");
    first.fail_with = Some("first".to_string());
    tools.register(first);
    tools.register(Recorder::new("t"));
    let tool = tools.resolve("t").unwrap();
    assert!(tool.fail_with.is_none());
}

#[test]
fn parses_call_tool_directive() {
    let d = parse_directive(r#"{"action":"call_tool","name":"echo","arguments":{"text":"ping"}}"#);
    assert_eq!(
        d,
        Ok(Directive::CallTool { name: "echo".to_string(), arguments: json(r#"{"text":"ping"}"#) })
    );
}

#[test]
fn parses_respond_directive() {
    let d = parse_directive(r#"{"action":"respond","content":"Echo complete."}"#);
    assert_eq!(d, Ok(Directive::Respond { content: "Echo complete.".to_string() }));
}

#[test]
fn call_tool_arguments_may_be_any_value() {
    let d = parse_directive(r#"{"action":"call_tool","name":"x","arguments":"plain"}"#);
    assert_eq!(d, Ok(Directive::CallTool { name: "x".to_string(), arguments: Value::String("plain".to_string()) }));
    let d = parse_directive(r#" {"arguments":[1,2],"name":"x","action":"call_tool"} "#);
    assert_eq!(d, Ok(Directive::CallTool { name: "x".to_string(), arguments: json("[1,2]") }));
}

#[test]
fn text_that_is_not_an_object_keeps_the_raw_text() {
    for raw in ["call_tool echo {text:ping}", "[1,2]", "\"respond\"", "", "{\"action\":"] {
        assert_eq!(
            parse_directive(raw),
            Err(DirectiveParseError::NotAnObject { raw: raw.to_string() })
        );
    }
}

#[test]
fn missing_or_non_text_action_is_named() {
    let missing = |f: &str| Err(DirectiveParseError::MissingField { field: f.to_string() });
    assert_eq!(parse_directive(r#"{"content":"hi"}"#), missing("action"));
    assert_eq!(parse_directive(r#"{"action":3,"content":"hi"}"#), missing("action"));
    assert_eq!(parse_directive(r#"{"action":"call_tool","arguments":{}}"#), missing("name"));
    assert_eq!(parse_directive(r#"{"action":"call_tool","name":7,"arguments":{}}"#), missing("name"));
    assert_eq!(parse_directive(r#"{"action":"call_tool","name":"echo"}"#), missing("arguments"));
    assert_eq!(parse_directive(r#"{"action":"respond"}"#), missing("content"));
    assert_eq!(parse_directive(r#"{"action":"respond","content":null}"#), missing("content"));
}

#[test]
fn unknown_action_is_named() {
    assert_eq!(
        parse_directive(r#"{"action":"dance","content":"x"}"#),
        Err(DirectiveParseError::UnknownAction { action: "dance".to_string() })
    );
    assert_eq!(
        parse_directive(r#"{"action":"Respond","content":"x"}"#),
        Err(DirectiveParseError::UnknownAction { action: "Respond".to_string() })
    );
}

#[test]
fn directive_from_fields_takes_the_arguments_field() {
    let fields = vec![
        ("action".to_string(), JsonField { text: Some("call_tool".to_string()), value: Value::String("call_tool".to_string()) }),
        ("arguments".to_string(), JsonField { text: None, value: json(r#"{"a":1}"#) }),
        ("name".to_string(), JsonField { text: Some("echo".to_string()), value: Value::String("echo".to_string()) }),
    ];
    assert_eq!(
        directive_from_fields(fields),
        Ok(Directive::CallTool { name: "echo".to_string(), arguments: json(r#"{"a":1}"#) })
    );
}

#[test]
fn unregistered_tool_is_not_found_and_not_called() {
    let mut tools = ToolRegistry::new();
    tools.register(Recorder::new("echo"));
    let state = AgentLoop::new("hi", 4);
    let step = state.on_completion(
        &tools,
        Ok(r#"{"action":"call_tool","name":"search","arguments":{}}"#.to_string()),
    );
    assert_eq!(step, Step::Finish(Err(AgentError::ToolNotFound { name: "search".to_string() })));
    assert!(tools.resolve("echo").unwrap().calls.borrow().is_empty());
}

#[test]
fn registered_tool_step_carries_arguments_unchanged() {
    let mut tools = ToolRegistry::new();
    tools.register(EchoTool);
    let state = AgentLoop::new("hi", 4);
    let step = state.on_completion(
        &tools,
        Ok(r#"{"action":"call_tool","name":"echo","arguments":{"text":"ping","x":[true]}}"#.to_string()),
    );
    assert_eq!(step, Step::CallTool { name: "echo".to_string(), arguments: json(r#"{"text":"ping","x":[true]}"#) });
}

#[test]
fn model_failure_ends_the_loop() {
    let tools: ToolRegistry<EchoTool> = ToolRegistry::new();
    let state = AgentLoop::new("hi", 4);
    let step = state.on_completion(&tools, Err(ModelError { message: "down".to_string() }));
    assert_eq!(step, Step::Finish(Err(AgentError::LanguageModel("down".to_string()))));
}

#[test]
fn loop_records_observations_in_the_prompt() {
    let mut state = AgentLoop::new("say ping", 2);
    assert_eq!(state.next_prompt(), Ok("say ping".to_string()));
    assert_eq!(state.on_tool_output("echo", Ok("{\"text\":\"ping\"}".to_string())), Ok(()));
    assert_eq!(
        state.next_prompt(),
        Ok("say ping\nObservation from echo: {\"text\":\"ping\"}".to_string())
    );
    assert_eq!(state.next_prompt(), Err(AgentError::LoopLimitExceeded));
}

#[test]
fn tool_failure_ends_the_loop() {
    let mut state = AgentLoop::new("x", 2);
    assert_eq!(
        state.on_tool_output("shell", Err("denied".to_string())),
        Err(AgentError::ToolExecution { name: "shell".to_string(), cause: "denied".to_string() })
    );
    assert_eq!(state.next_prompt(), Ok("x".to_string()));
}

#[test]
fn echo_scenario_answers_after_one_dispatch() {
    let model = scripted(&[
        r#"{"action":"call_tool","name":"echo","arguments":{"text":"ping"}}"#,
        r#"{"action":"respond","content":"Echo complete."}"#,
    ]);
    let mut tools = ToolRegistry::new();
    tools.register(Recorder::new("echo"));
    let mut agent = Agent::new(model).with_tools(tools);
    assert_eq!(agent.respond("say ping"), Ok("Echo complete.".to_string()));
    let calls = agent.tools().resolve("echo").unwrap().calls.borrow().clone();
    assert_eq!(calls, vec![json(r#"{"text":"ping"}"#)]);
}

#[test]
fn echo_tool_agent_answers() {
    let model = scripted(&[
        r#"{"action":"call_tool","name":"echo","arguments":{"text":"ping"}}"#,
        r#"{"action":"respond","content":"Echo complete."}"#,
    ]);
    let mut tools = ToolRegistry::new();
    tools.register(EchoTool);
    let mut agent = Agent::new(model).with_tools(tools);
    assert_eq!(agent.respond("say ping"), Ok("Echo complete.".to_string()));
}

#[test]
fn always_calling_model_stops_at_the_cap() {
    let mut tools = ToolRegistry::new();
    tools.register(EchoTool);
    let mut agent = Agent::new(AlwaysCalls { calls: 0 }).with_tools(tools).with_max_iterations(5);
    assert_eq!(agent.respond("loop"), Err(AgentError::LoopLimitExceeded));
    assert_eq!(agent.model_ref().calls, 5);
}

#[test]
fn default_cap_is_ten() {
    let mut tools = ToolRegistry::new();
    tools.register(EchoTool);
    let mut agent = Agent::new(AlwaysCalls { calls: 0 }).with_tools(tools);
    assert_eq!(agent.respond("loop"), Err(AgentError::LoopLimitExceeded));
    assert_eq!(agent.model_ref().calls, 10);
}

#[test]
fn zero_cap_never_asks_the_model() {
    let mut agent: Agent<AlwaysCalls, EchoTool> = Agent::new(AlwaysCalls { calls: 0 }).with_max_iterations(0);
    assert_eq!(agent.respond("loop"), Err(AgentError::LoopLimitExceeded));
    assert_eq!(agent.model_ref().calls, 0);
}

#[test]
fn exhausted_stub_fails_respond() {
    let model = scripted(&[r#"{"action":"call_tool","name":"echo","arguments":{}}"#]);
    let mut tools = ToolRegistry::new();
    tools.register(EchoTool);
    let mut agent = Agent::new(model).with_tools(tools);
    assert_eq!(
        agent.respond("hi"),
        Err(AgentError::LanguageModel("StubModel ran out of scripted responses".to_string()))
    );
}

#[test]
fn failing_tool_fails_respond() {
    let model = scripted(&[r#"{"action":"call_tool","name":"sh","arguments":{"cmd":"ls"}}"#]);
    let mut tools = ToolRegistry::new();
    let mut tool = Recorder::new("sh");
    tool.fail_with = Some("denied".to_string());
    tools.register(tool);
    let mut agent = Agent::new(model).with_tools(tools);
    assert_eq!(
        agent.respond("hi"),
        Err(AgentError::ToolExecution { name: "sh".to_string(), cause: "denied".to_string() })
    );
}

#[test]
fn invalid_completion_fails_respond_without_tool_call() {
    let model = scripted(&[r#"{"action":"dance"}"#]);
    let mut tools = ToolRegistry::new();
    tools.register(Recorder::new("echo"));
    let mut agent = Agent::new(model).with_tools(tools);
    assert_eq!(
        agent.respond("hi"),
        Err(AgentError::DirectiveParse(DirectiveParseError::UnknownAction { action: "dance".to_string() }))
    );
    assert!(agent.tools().resolve("echo").unwrap().calls.borrow().is_empty());
}

/// A model that answers from a script and keeps every prompt it was sent.
struct PromptLog {
    script: StubModel,
    prompts: Vec<String>,
}

impl LanguageModel for PromptLog {
    fn complete(&mut self, prompt: &str) -> Result<String, ModelError> {
        self.prompts.push(prompt.to_string());
        self.script.complete(prompt)
    }
}

#[test]
fn tool_output_is_serialized_into_the_next_prompt() {
    let model = PromptLog {
        script: scripted(&[
            r#"{"action":"call_tool","name":"echo","arguments":{"text":"ping"}}"#,
            r#"{"action":"respond","content":"done"}"#,
        ]),
        prompts: Vec::new(),
    };
    let mut tools = ToolRegistry::new();
    tools.register(EchoTool);
    let mut agent = Agent::new(model).with_tools(tools);
    assert_eq!(agent.respond("say ping"), Ok("done".to_string()));
    assert_eq!(
        agent.model_ref().prompts,
        vec![
            "say ping".to_string(),
            "say ping\nObservation from echo: {\"text\":\"ping\"}".to_string(),
        ]
    );
}
