use llama_harness_core::binding::bind_arguments;
use llama_harness_core::broker::BrokerState;
use llama_harness_core::canonical::{canonical_json, is_text_le};
use llama_harness_core::error::{HarnessError, ModelStreamFailureKind};
use llama_harness_core::event::{EventEmitter, EventRecord, InMemoryEventSink, RunEvent};
use llama_harness_core::json::Json;
use llama_harness_core::limits::AgentLimits;
use llama_harness_core::model::{ModelCapabilities, ProviderCapabilityLimits, Usage};
use llama_harness_core::plan::{
    find_cycle, transitive_dependencies, ExecutionPlan, PlanNode, ResultBinding, ResultRef,
};
use llama_harness_core::policy::{public_policy_decision, PolicyDecision};
use llama_harness_core::request::{absolute_deadline, check_stopped, provider_deadline, validate_output};
use llama_harness_core::schedule::{max_parallel_calls, reserve_plan_entry};
use llama_harness_core::schema::{
    check_schema, compile_trusted_schema, find_violation, validate_instance,
};
use llama_harness_core::schema_guard::is_grounded;
use llama_harness_core::stream_turn::{
    assembly_limits, turn_limits_of, ModelStreamController, StreamResponseAssembler,
};
use llama_harness_core::streaming::{
    ModelStreamEvent, ToolCallAssembler, ToolCallAssemblyLimits, ToolCallDelta,
};
use llama_harness_core::text::{decimal, is_blank, trim};
use llama_harness_core::tool::{ToolCall, ToolDefinition, ToolResult};

fn json(text: &str) -> Json {
    Json::parse(text).unwrap()
}

#[test]
fn texts_are_trimmed_of_every_whitespace() {
    assert_eq!(trim("\u{2003} a b\t\n"), "a b");
    assert!(is_blank(" \u{a0}\u{3000}"));
    assert!(!is_blank("\u{200b}"));
    assert_eq!(decimal(0), "0");
    assert_eq!(decimal(u64::MAX), "18446744073709551615");
}

#[test]
fn json_texts_read_and_write() {
    assert_eq!(json(" { \"b\" : [1, 2.50, true], \"a\" : null } ").to_json_text(), "{\"a\":null,\"b\":[1,2.5,true]}");
    assert!(Json::parse("{").is_err());
    assert_eq!(json("\"\\u00e9\""), Json::Text("\u{e9}".to_owned()));
    assert!(json("[[1]]").fits_depth(2));
    assert!(!json("[[1]]").fits_depth(1));
    assert_eq!(json("{\"k\":7}").member("k"), Some(&Json::Number("7".to_owned())));
}

#[test]
fn canonical_texts_ignore_member_order() {
    let left = Json::Object(vec![
        ("b".to_owned(), Json::Null),
        ("a".to_owned(), json("{\"y\":1,\"x\":2}")),
    ]);
    assert_eq!(canonical_json(&left), "{\"a\":{\"x\":2,\"y\":1},\"b\":null}");
    assert!(is_text_le("a", "b"));
    assert!(is_text_le("a", "a"));
    assert!(!is_text_le("b", "abc"));
}

#[test]
fn pointers_read_what_was_written() {
    let value = json("{\"a\":{\"b\":[1,2]},\"~x/\":3}");
    assert_eq!(value.pointer("/a/b/1"), Some(Json::Number("2".to_owned())));
    assert_eq!(value.pointer("/~0x~1"), Some(Json::Number("3".to_owned())));
    assert_eq!(value.pointer("/a/b/01"), None);
    let written = value.with_pointer("/a/b/0", &Json::Bool(true)).unwrap();
    assert_eq!(written.pointer("/a/b/0"), Some(Json::Bool(true)));
    assert_eq!(written.pointer("/a/b/1"), Some(Json::Number("2".to_owned())));
    assert!(value.with_pointer("/missing/0", &Json::Null).is_none());
}

#[test]
fn schemas_refuse_what_they_do_not_describe() {
    let schema = json("{\"type\":\"object\",\"required\":[\"q\"]}");
    assert_eq!(validate_instance(&schema, &json("{\"q\":1}")), None);
    assert!(validate_instance(&schema, &json("{}")).is_some());
    assert_eq!(compile_trusted_schema(&schema), None);
    assert!(compile_trusted_schema(&json("{\"type\":5}")).is_some());
    assert!(compile_trusted_schema(&json("{\"$ref\":\"https://example.com/s\"}")).is_some());
    assert!(validate_output(&None, "not json", 8).is_ok());
    assert!(matches!(
        validate_output(&Some(schema), "not json", 8),
        Err(HarnessError::InvalidOutput(_))
    ));
}

#[test]
fn plans_are_checked_for_shape_and_cycles() {
    let node = |id: &str| PlanNode::new(id, "read", json("{}"));
    assert!(ExecutionPlan::new(vec![node("a"), node("b").with_dependency("a")])
        .validate(8)
        .is_ok());
    assert!(ExecutionPlan::new(Vec::new()).validate(8).is_ok());
    assert!(ExecutionPlan::new(vec![node(" ")]).validate(8).is_err());
    assert!(ExecutionPlan::new(vec![node("a"), node("a")]).validate(8).is_err());
    assert!(ExecutionPlan::new(vec![node("a"), node("b")]).validate(1).is_err());
    assert!(ExecutionPlan::new(vec![node("a").with_dependency("z")]).validate(8).is_err());
    let cyclic = vec![
        node("a").with_dependency("b"),
        node("b").with_dependency("a"),
        node("c"),
    ];
    assert_eq!(find_cycle(&cyclic), Some(0));
    assert!(ExecutionPlan::new(cyclic).validate(8).is_err());
    let met_behind = vec![
        node("start").with_dependency("leaf").with_dependency("b"),
        node("leaf"),
        node("a").with_dependency("c"),
        node("b").with_dependency("leaf").with_dependency("a"),
        node("c").with_dependency("a"),
    ];
    assert_eq!(find_cycle(&met_behind), Some(2));
    assert_eq!(
        ExecutionPlan::new(met_behind).validate(8).unwrap_err().to_text(),
        "invalid request: execution plan contains a dependency cycle involving node 'a'"
    );
    let unbound = node("b").with_result_binding(ResultBinding::new(
        "/x",
        ResultRef::new("a", "/y"),
    ));
    assert!(ExecutionPlan::new(vec![node("a"), unbound]).validate(8).is_err());
    let chain = vec![
        node("a"),
        node("b").with_dependency("a"),
        node("c").with_dependency("b"),
    ];
    assert_eq!(transitive_dependencies(&chain, 2), vec![true, true, false]);
}

#[test]
fn bindings_put_results_into_arguments() {
    let nodes = vec![
        PlanNode::new("a", "read", json("{}")),
        PlanNode::new("b", "read", json("{\"x\":null,\"y\":1}"))
            .with_dependency("a")
            .with_result_binding(ResultBinding::new("/x", ResultRef::new("a", "/v"))),
    ];
    let outputs = vec![Some(ToolResult::success(json("{\"v\":[5]}"))), None];
    let bound = bind_arguments(&nodes, &outputs, &nodes[1], 1_000, 1_000).unwrap();
    assert_eq!(bound, json("{\"x\":[5],\"y\":1}"));
    let twice = PlanNode::new("c", "read", json("{\"x\":null}"))
        .with_dependency("a")
        .with_result_binding(ResultBinding::new("/x", ResultRef::new("a", "")))
        .with_result_binding(ResultBinding::new("/x", ResultRef::new("a", "/v/0")));
    let last = bind_arguments(&nodes, &outputs, &twice, 1_000, 1_000).unwrap();
    assert_eq!(last, json("{\"x\":5}"));
    let missing = vec![Some(ToolResult::success(json("{}"))), None];
    assert!(bind_arguments(&nodes, &missing, &nodes[1], 1_000, 1_000).is_err());
    assert!(bind_arguments(&nodes, &outputs, &nodes[1], 5, 1_000).is_err());
}

#[test]
fn retained_results_stay_inside_the_budget() {
    let call = ToolCall::new("1", "read", "{}");
    let result = ToolResult::success(json("1"));
    let mut retained: u64 = 0;
    let mut kept = 0;
    while reserve_plan_entry(&mut retained, 200, &call, &result).is_ok() {
        kept += 1;
        assert!(retained <= 200);
    }
    assert!(kept > 0);
    assert!(retained <= 200);
    let serial = ModelCapabilities::new(true, false, false);
    assert_eq!(max_parallel_calls(&serial), 1);
    let parallel = serial.with_parallel_tool_calls(true).with_limits(
        ProviderCapabilityLimits::new().with_max_parallel_tool_calls(100),
    );
    assert_eq!(max_parallel_calls(&parallel), 8);
}

#[test]
fn deadlines_take_the_earlier_moment() {
    assert_eq!(absolute_deadline(5, Some(10)), Ok(Some(15)));
    assert_eq!(absolute_deadline(5, None), Ok(None));
    assert!(absolute_deadline(u64::MAX, Some(1)).is_err());
    assert_eq!(provider_deadline(5, Some(8), Some(10)), Ok(Some(8)));
    assert_eq!(provider_deadline(5, Some(80), Some(10)), Ok(Some(15)));
    assert_eq!(check_stopped(true, 0, None, "late"), Err(HarnessError::Cancelled));
    assert_eq!(
        check_stopped(false, 9, Some(9), "late"),
        Err(HarnessError::TimedOut("late".to_owned()))
    );
    assert!(check_stopped(false, 8, Some(9), "late").is_ok());
}

fn assembler() -> ToolCallAssembler {
    let definitions = vec![ToolDefinition::new(
        "read",
        "read",
        "test",
        json("{\"type\":\"object\"}"),
    )];
    ToolCallAssembler::new(&definitions, ToolCallAssemblyLimits::default()).unwrap()
}

#[test]
fn streamed_fragments_become_calls() {
    let mut calls = assembler();
    let first = ToolCallDelta::new(0, "{\"q\"", false).with_call_id("c").with_tool_id("read");
    assert_eq!(calls.push(first), Ok(None));
    assert!(calls.has_pending());
    assert_eq!(calls.partial_call(0).unwrap().arguments_json, "{\"q\"");
    let call = calls.push(ToolCallDelta::new(0, ":1}", true)).unwrap().unwrap();
    assert_eq!(call, ToolCall::new("c", "read", "{\"q\":1}"));
    assert!(!calls.has_pending());
    assert_eq!(
        calls.push(ToolCallDelta::new(0, "x", false)),
        Err(HarnessError::Provider(
            "tool call 0 received a fragment after completion".to_owned()
        ))
    );
    let again = ToolCallDelta::new(1, "{}", true).with_call_id("c").with_tool_id("read");
    assert_eq!(
        calls.push(again),
        Err(HarnessError::Provider("duplicate streamed tool call id: c".to_owned()))
    );
    let unknown = ToolCallDelta::new(2, "{}", true).with_call_id("d").with_tool_id("write");
    assert_eq!(
        assembler().push(unknown),
        Err(HarnessError::InvalidTool("unknown streamed tool: write".to_owned()))
    );
    let unnamed = ToolCallDelta::new(0, "{}", true).with_tool_id("read");
    assert_eq!(
        assembler().push(unnamed),
        Err(HarnessError::Provider("final streamed call id is missing".to_owned()))
    );
    let toolless = ToolCallDelta::new(0, "{}", true).with_call_id("d");
    assert_eq!(
        assembler().push(toolless),
        Err(HarnessError::Provider("final streamed tool id is missing".to_owned()))
    );
    let broken = ToolCallDelta::new(0, "{", true).with_call_id("d").with_tool_id("read");
    assert!(matches!(assembler().push(broken), Err(HarnessError::InvalidArguments(_))));
    let mismatched = ToolCallDelta::new(0, "1", true).with_call_id("d").with_tool_id("read");
    assert!(matches!(assembler().push(mismatched), Err(HarnessError::InvalidArguments(_))));
    let mut renamed = assembler();
    renamed
        .push(ToolCallDelta::new(0, "{", false).with_call_id("d").with_tool_id("read"))
        .unwrap();
    assert_eq!(
        renamed.push(ToolCallDelta::new(0, "}", true).with_call_id("e")),
        Err(HarnessError::Provider("conflicting streamed call id".to_owned()))
    );
    let tight = ToolCallAssemblyLimits {
        max_call_bytes: 40,
        ..ToolCallAssemblyLimits::default()
    };
    let definitions =
        vec![ToolDefinition::new("read", "read", "test", json("{\"type\":\"object\"}"))];
    let mut small = ToolCallAssembler::new(&definitions, tight).unwrap();
    assert!(matches!(
        small.push(ToolCallDelta::new(0, &"x".repeat(41), false)),
        Err(HarnessError::ResourceLimit(_))
    ));
}

#[test]
fn closed_streams_take_nothing_more() {
    let mut stream = ModelStreamController::new(assembler());
    assert!(stream
        .push(Ok(ModelStreamEvent::TextDelta { content: "hi".to_owned() }))
        .is_ok());
    assert_eq!(
        ModelStreamController::new(assembler()).finish_eof(),
        Err(HarnessError::ModelStream { kind: ModelStreamFailureKind::EofBeforeCompletion })
    );
    assert!(stream
        .push(Ok(ModelStreamEvent::Completed {
            model: "m".to_owned(),
            usage: Usage::new(1, 2)
        }))
        .is_ok());
    assert!(stream.finish_eof().is_ok());
    assert_eq!(
        stream.push(Ok(ModelStreamEvent::TextDelta { content: "more".to_owned() })),
        Err(HarnessError::ModelStream { kind: ModelStreamFailureKind::EventAfterCompletion })
    );
    let mut response = StreamResponseAssembler::new(100);
    response.text("an".to_owned()).unwrap();
    response.text("swer".to_owned()).unwrap();
    response.complete("m".to_owned(), Usage::new(1, 2)).unwrap();
    let whole = response.finish().unwrap();
    assert_eq!(whole.final_output.as_deref(), Some("answer"));
    assert_eq!(whole.usage, Usage::new(1, 2));
}

#[test]
fn decisions_are_recorded_without_their_reasons() {
    let told = public_policy_decision(&PolicyDecision::Deny { reason: "private".to_owned() });
    match told {
        PolicyDecision::Deny { reason } => assert!(!reason.contains("private")),
        _ => panic!("a denial stays a denial"),
    }
}

#[test]
fn events_are_numbered_from_one() {
    let mut emitter = EventEmitter::new("run", "trace");
    let started = || RunEvent::Started { run_id: "run".to_owned(), trace_id: "trace".to_owned() };
    let first: EventRecord = emitter.emit(started(), 10);
    let second = emitter.emit(started(), 5);
    assert_eq!((first.sequence, second.sequence), (1, 2));
    assert!(second.timestamp_ms >= first.timestamp_ms);
    assert_eq!(first.execution_id, second.execution_id);
    assert_ne!(first.execution_id, EventEmitter::new("run", "trace").emit(started(), 1).execution_id);
    assert!(InMemoryEventSink::new().events().is_empty());
    let state = BrokerState::new();
    assert!(state.recovery_is_safe());
    assert_eq!(state.classified_tool_calls(), 0);
}

#[test]
fn repeated_members_are_read_and_written_alike() {
    let value = Json::Object(vec![
        ("a".to_owned(), Json::Number("1".to_owned())),
        ("a".to_owned(), Json::Number("2".to_owned())),
    ]);
    assert_eq!(value.member("a"), Some(&Json::Number("2".to_owned())));
    assert_eq!(value.to_json_text(), "{\"a\":2}");
    assert_eq!(value.pointer("/a"), Some(Json::Number("2".to_owned())));
    assert_eq!(value.pointer(""), Some(json("{\"a\":2}")));
    assert_eq!(json("{\"a\":1,\"a\":2}").to_json_text(), "{\"a\":2}");
    assert_eq!(Json::Number("[1]".to_owned()).to_json_text(), "null");
    assert_eq!(Json::Number("[1]".to_owned()).pointer("/0"), None);
}

#[test]
fn pointers_lead_to_places() {
    let value = json("{\"a\":[10,{\"b/c\":true,\"~\":null}],\"\":1}");
    assert_eq!(value.pointer(""), Some(value.duplicate()));
    assert_eq!(value.pointer("/"), Some(json("1")));
    assert_eq!(value.pointer("/a/0"), Some(json("10")));
    assert_eq!(value.pointer("/a/1/b~1c"), Some(json("true")));
    assert_eq!(value.pointer("/a/1/~0"), Some(json("null")));
    for nowhere in ["a", "/a/00", "/a/+0", "/a/2", "/a/-", "/a/0/x", "/b"] {
        assert_eq!(value.pointer(nowhere), None);
        assert_eq!(value.with_pointer(nowhere, &json("2")), None);
    }
    let written = value.with_pointer("/a/1/b~1c", &json("[2]")).unwrap();
    assert_eq!(written, json("{\"\":1,\"a\":[10,{\"b/c\":[2],\"~\":null}]}"));
    assert_eq!(written.pointer("/a/1/b~1c"), Some(json("[2]")));
    assert_eq!(value.with_pointer("", &json("2")), Some(json("2")));
}

#[test]
fn schemas_that_lead_back_to_themselves_are_refused() {
    let looping = json("{\"allOf\":[{\"$ref\":\"#\"}]}");
    assert!(!is_grounded(&looping));
    assert_eq!(
        compile_trusted_schema(&looping),
        Some("schema cannot be followed to its end".to_owned())
    );
    let twisted = json(
        "{\"$ref\":\"#/$defs/a\",\"$defs\":{\"a\":{\"$ref\":\"#/$defs/b\"},\"b\":{\"$ref\":\"#/$defs/a\"}}}",
    );
    assert!(!is_grounded(&twisted));
    let tree = json("{\"type\":\"object\",\"properties\":{\"child\":{\"$ref\":\"#\"}}}");
    assert!(is_grounded(&tree));
    assert_eq!(compile_trusted_schema(&tree), None);
    assert_eq!(validate_instance(&tree, &json("{\"child\":{\"child\":{}}}")), None);
    assert!(validate_instance(&tree, &json("{\"child\":{\"child\":1}}")).is_some());
}

#[test]
fn schemas_that_nothing_follows_do_no_harm() {
    let unused = json(
        "{\"type\":\"object\",\"$defs\":{\"loop\":{\"$ref\":\"#/$defs/loop\"}}}",
    );
    assert!(is_grounded(&unused));
    assert_eq!(validate_instance(&unused, &json("{}")), None);
    let data = json("{\"const\":{\"allOf\":[{\"$ref\":\"#\"}]}}");
    assert!(is_grounded(&data));
    assert_eq!(validate_instance(&data, &json("{\"allOf\":[{\"$ref\":\"#\"}]}")), None);
    assert!(validate_instance(&data, &json("{}")).is_some());
}

#[test]
fn ordinary_schemas_compile() {
    let shared = json(
        "{\"type\":\"object\",\"properties\":{\"from\":{\"$ref\":\"#/$defs/point\"},\"to\":{\"anyOf\":[{\"$ref\":\"#/$defs/point\"},{\"type\":\"null\"}]}},\"required\":[\"from\"],\"additionalProperties\":false,\"$defs\":{\"point\":{\"type\":\"object\",\"properties\":{\"x\":{\"type\":\"number\"}},\"unevaluatedProperties\":false}}}",
    );
    assert_eq!(compile_trusted_schema(&shared), None);
    assert_eq!(
        validate_instance(&shared, &json("{\"from\":{\"x\":1},\"to\":null}")),
        None
    );
    assert!(validate_instance(&shared, &json("{\"from\":{\"y\":1}}")).is_some());
    let nested = json(
        "{\"$schema\":\"http://json-schema.org/draft-07/schema#\",\"definitions\":{\"node\":{\"type\":\"object\",\"properties\":{\"next\":{\"items\":{\"$ref\":\"#/definitions/node\"}}}}},\"allOf\":[{\"$ref\":\"#/definitions/node\"}],\"if\":{\"required\":[\"a\"]},\"then\":{\"required\":[\"b\"]}}",
    );
    assert_eq!(compile_trusted_schema(&nested), None);
    assert_eq!(validate_instance(&nested, &json("{\"next\":[{\"next\":[]}]}")), None);
    assert!(validate_instance(&nested, &json("{\"next\":[1]}")).is_some());
    assert!(validate_instance(&nested, &json("{\"a\":1}")).is_some());
    let anchored = json(
        "{\"$ref\":\"#leaf\",\"$defs\":{\"l\":{\"$anchor\":\"leaf\",\"type\":\"string\"}}}",
    );
    assert_eq!(validate_instance(&anchored, &json("\"a\"")), None);
    assert!(validate_instance(&anchored, &json("1")).is_some());
}

#[test]
fn schemas_that_break_their_compiler_are_refused() {
    let refused = Some("schema cannot be followed to its end".to_owned());
    let counted = json(
        "{\"$schema\":\"https://json-schema.org/draft/2019-09/schema\",\"items\":true,\"unevaluatedItems\":false}",
    );
    assert_eq!(compile_trusted_schema(&counted), refused);
    let listed = json("{\"items\":true,\"unevaluatedItems\":false}");
    assert_eq!(validate_instance(&listed, &json("[1]")), None);
    let backtracking = json(
        "{\"patternProperties\":{\"^(?!a)\":{}},\"unevaluatedProperties\":false}",
    );
    assert_eq!(compile_trusted_schema(&backtracking), refused);
    let plain = json("{\"patternProperties\":{\"^b\":{}},\"unevaluatedProperties\":false}");
    assert_eq!(validate_instance(&plain, &json("{\"b\":1}")), None);
    assert!(validate_instance(&plain, &json("{\"a\":1}")).is_some());
    let lone = json("{\"patternProperties\":{\"^(?!a)\":{\"type\":\"string\"}}}");
    assert_eq!(validate_instance(&lone, &json("{\"a\":1}")), None);
    assert!(validate_instance(&lone, &json("{\"b\":1}")).is_some());
    let switched = json(
        "{\"$ref\":\"#/$defs/a\",\"unevaluatedProperties\":false,\"$defs\":{\"a\":true}}",
    );
    assert_eq!(compile_trusted_schema(&switched), refused);
}

#[test]
fn identifiers_of_schemas_are_steady_where_references_are_followed() {
    let relative = json(
        "{\"$id\":\"schemas/tree.json\",\"properties\":{\"child\":{\"$ref\":\"#\"}}}",
    );
    assert_eq!(
        compile_trusted_schema(&relative),
        Some("schema cannot be followed to its end".to_owned())
    );
    let single = json(
        "{\"$id\":\"tree.json\",\"type\":\"object\",\"properties\":{\"child\":{\"$ref\":\"#\"}}}",
    );
    assert_eq!(validate_instance(&single, &json("{\"child\":{}}")), None);
    assert!(validate_instance(&single, &json("{\"child\":1}")).is_some());
    let unreferred = json("{\"$id\":\"schemas/tree.json\",\"type\":\"object\"}");
    assert_eq!(validate_instance(&unreferred, &json("{}")), None);
}

#[test]
fn schemas_may_name_their_own_resources() {
    let own = json(
        "{\"$id\":\"https://example.com/tree\",\"type\":\"object\",\"properties\":{\"child\":{\"$ref\":\"https://example.com/tree\"}}}",
    );
    assert_eq!(check_schema(&own), None);
    assert_eq!(find_violation(&own, &json("{\"child\":{\"child\":{}}}")), None);
    assert!(find_violation(&own, &json("{\"child\":{\"child\":1}}")).is_some());
    assert_eq!(
        compile_trusted_schema(&own),
        Some("external schema reference is disabled: https://example.com/tree".to_owned())
    );
}

#[test]
fn identifiers_stand_in_their_usual_form() {
    let started = || RunEvent::Started { run_id: "run".to_owned(), trace_id: "trace".to_owned() };
    let drawn = EventRecord::new("run", "trace", 3, 9, started());
    assert_eq!((drawn.sequence, drawn.timestamp_ms), (3, 9));
    let id: Vec<char> = drawn.execution_id.chars().collect();
    assert_eq!(id.len(), 36);
    for (place, character) in id.iter().enumerate() {
        match place {
            8 | 13 | 18 | 23 => assert_eq!(*character, '-'),
            14 => assert_eq!(*character, '4'),
            19 => assert!(matches!(character, '8' | '9' | 'a' | 'b')),
            _ => assert!(matches!(character, '0'..='9' | 'a'..='f')),
        }
    }
    let first = EventRecord::under("run", "first", "trace", 3, 9, started());
    let second = EventRecord::under("run", "second", "trace", 3, 9, started());
    assert_eq!(first.execution_id, "first");
    assert_ne!(first, second);
    assert_eq!(EventRecord::under("run", "first", "trace", 3, 9, started()), first);
}

#[test]
fn providers_bound_streamed_turns() {
    let usual = turn_limits_of(&ProviderCapabilityLimits::new(), 0);
    assert_eq!(usual.assembly, ToolCallAssemblyLimits::default());
    assert_eq!(usual.max_argument_bytes, usize::MAX);
    assert_eq!(usual.max_allowed_tools, 1);
    let mut bounds = ProviderCapabilityLimits::new();
    bounds.max_streamed_tool_calls = Some(3);
    bounds.max_streamed_argument_bytes = Some(100);
    let narrow = turn_limits_of(&bounds, 2);
    assert_eq!(narrow.assembly.max_calls, 3);
    assert_eq!(narrow.assembly.max_field_bytes, usual.assembly.max_field_bytes);
    assert_eq!(narrow.max_argument_bytes, 100);
    assert_eq!(narrow.max_allowed_tools, 2);
    let limits = AgentLimits::default();
    assert_eq!(assembly_limits(&limits, &narrow, 2).unwrap().assembly.max_calls, 3);
}

#[test]
fn schemas_fetch_no_dialect() {
    let outside = json(
        "{\"properties\":{\"a\":{\"$id\":\"inner\",\"$schema\":\"https://example.com/dialect\"}}}",
    );
    assert_eq!(
        compile_trusted_schema(&outside),
        Some(
            "Resource 'https://example.com/dialect' is not present in a registry and retrieving it failed: external schema reference is disabled: https://example.com/dialect"
                .to_owned()
        )
    );
    let reference = json("{\"$ref\":\"https://example.com/schema\"}");
    assert_eq!(
        compile_trusted_schema(&reference),
        Some("external schema reference is disabled: https://example.com/schema".to_owned())
    );
}
