use textgen::config::{CustomCommand, GenerateError, GeneratorConfig};
use textgen::process::{spawn_args, ProcessStream};
use textgen::remote::{collect_fragments, Increment, RemoteStream, ResponseUnit, UnitEvent};
use textgen::{GeneratePlan, StreamPhase, TextGeneratorType};

fn config(model: &str, commands: Vec<Vec<&str>>, index: usize) -> GeneratorConfig {
    GeneratorConfig {
        model_name: model.to_string(),
        command_list: commands
            .into_iter()
            .map(|argv| CustomCommand {
                command: argv.into_iter().map(|s| s.to_string()).collect(),
            })
            .collect(),
        selected_index: index,
    }
}

fn unit(texts: Vec<&str>) -> UnitEvent {
    UnitEvent::Unit(ResponseUnit {
        increments: texts
            .into_iter()
            .map(|t| Increment { response: t.to_string() })
            .collect(),
    })
}

fn streaming_process() -> ProcessStream {
    let mut s = ProcessStream::new();
    s.begin_spawn();
    s.on_spawn_ok();
    s
}

#[test]
fn process_fragments_are_cumulative() {
    let mut s = streaming_process();
    let fragments = s.run_chunks(&vec![b"ab".to_vec(), b"cd".to_vec()]);
    assert_eq!(fragments, vec!["ab".to_string(), "abcd".to_string()]);
    assert_ne!(fragments, vec!["ab".to_string(), "cd".to_string()]);
}

#[test]
fn process_fragments_chunk_by_chunk() {
    let mut s = streaming_process();
    let first = s.on_chunk(b"ab");
    let second = s.on_chunk(b"cd");
    assert_eq!(first, "ab");
    assert_eq!(second, "abcd");
    s.on_eof();
    assert_eq!(s.phase, StreamPhase::Completed);
}

#[test]
fn process_invalid_utf8_is_replaced() {
    let mut s = streaming_process();
    let fragment = s.on_chunk(&[0xff, 0xfe]);
    assert_eq!(fragment, "\u{fffd}\u{fffd}");
    let fragment = s.on_chunk(b"ok");
    assert_eq!(fragment, "\u{fffd}\u{fffd}ok");
}

#[test]
fn spawn_failure_is_fatal_with_no_fragments() {
    let mut s = ProcessStream::new();
    s.begin_spawn();
    let e = s.on_spawn_failure();
    assert_eq!(e, GenerateError::SpawnFailure);
    assert_eq!(s.phase, StreamPhase::Failed);
    assert!(s.buffer.is_empty());
}

#[test]
fn read_error_ends_stream_after_last_fragment() {
    let mut s = streaming_process();
    let fragment = s.on_chunk(b"partial");
    assert_eq!(fragment, "partial");
    s.on_read_error();
    assert_eq!(s.phase, StreamPhase::Failed);
}

#[test]
fn context_is_final_argument() {
    let argv = vec!["echo".to_string(), "-n".to_string(), "--".to_string()];
    let (executable, args) = spawn_args(&argv, "the context".to_string());
    assert_eq!(executable, "echo");
    assert_eq!(args, vec!["-n".to_string(), "--".to_string(), "the context".to_string()]);
    assert_eq!(args.last().map(|s| s.as_str()), Some("the context"));
}

#[test]
fn context_is_only_argument_for_bare_command() {
    let argv = vec!["cat".to_string()];
    let (executable, args) = spawn_args(&argv, "ctx".to_string());
    assert_eq!(executable, "cat");
    assert_eq!(args, vec!["ctx".to_string()]);
}

#[test]
fn plan_for_shell_script_appends_context() {
    let cfg = config("unused", vec![vec!["run", "--fast"]], 0);
    let generator = TextGeneratorType::ShellScriptGenerator;
    match generator.plan(&cfg, "prompt".to_string()) {
        Ok(GeneratePlan::ExternalProcess { executable, args }) => {
            assert_eq!(executable, "run");
            assert_eq!(args, vec!["--fast".to_string(), "prompt".to_string()]);
        }
        other => panic!("expected an external-process plan, got {:?}", other.is_ok()),
    }
}

#[test]
fn plan_for_remote_model_carries_model_and_context() {
    let cfg = config("llama2", vec![], 0);
    let generator = TextGeneratorType::OllamaGenerator;
    match generator.plan(&cfg, "prompt".to_string()) {
        Ok(GeneratePlan::RemoteModel { model, context }) => {
            assert_eq!(model, "llama2");
            assert_eq!(context, "prompt");
        }
        other => panic!("expected a remote-model plan, got {:?}", other.is_ok()),
    }
}

#[test]
fn empty_model_name_is_configuration_mismatch() {
    let cfg = config("", vec![], 0);
    assert_eq!(cfg.resolve_model(), Err(GenerateError::ConfigurationMismatch));
    let generator = TextGeneratorType::OllamaGenerator;
    assert!(matches!(
        generator.plan(&cfg, "prompt".to_string()),
        Err(GenerateError::ConfigurationMismatch)
    ));
}

#[test]
fn out_of_range_index_is_configuration_mismatch() {
    let cfg = config("m", vec![vec!["run"]], 1);
    assert_eq!(cfg.resolve_command(), Err(GenerateError::ConfigurationMismatch));
}

#[test]
fn empty_argv_is_configuration_mismatch() {
    let cfg = config("m", vec![vec![]], 0);
    assert_eq!(cfg.resolve_command(), Err(GenerateError::ConfigurationMismatch));
    let generator = TextGeneratorType::ShellScriptGenerator;
    assert!(matches!(
        generator.plan(&cfg, "prompt".to_string()),
        Err(GenerateError::ConfigurationMismatch)
    ));
}

#[test]
fn resolve_command_picks_selected_entry() {
    let cfg = config("m", vec![vec!["first"], vec!["second", "arg"]], 1);
    assert_eq!(cfg.resolve_command(), Ok(vec!["second".to_string(), "arg".to_string()]));
}

#[test]
fn remote_fragments_in_delivery_order() {
    let events = vec![unit(vec!["he"]), unit(vec!["llo"])];
    let fragments = collect_fragments(&events);
    assert_eq!(fragments, vec!["he".to_string(), "llo".to_string()]);
}

#[test]
fn malformed_unit_is_skipped() {
    let events = vec![unit(vec!["x"]), UnitEvent::Malformed, unit(vec!["y"])];
    let fragments = collect_fragments(&events);
    assert_eq!(fragments, vec!["x".to_string(), "y".to_string()]);
}

#[test]
fn unit_with_many_increments_flattens_in_order() {
    let events = vec![unit(vec!["a", "b"]), unit(vec![]), unit(vec!["c"])];
    let fragments = collect_fragments(&events);
    assert_eq!(fragments, vec!["a".to_string(), "b".to_string(), "c".to_string()]);
}

#[test]
fn remote_stream_walks_the_phases() {
    let mut s = RemoteStream::new();
    assert_eq!(s.phase, StreamPhase::Idle);
    s.begin_connect();
    s.on_connect_ok();
    let fragments = s.on_unit(&unit(vec!["hi"]));
    assert_eq!(fragments, vec!["hi".to_string()]);
    let none = s.on_unit(&UnitEvent::Malformed);
    assert!(none.is_empty());
    s.on_stream_end();
    assert_eq!(s.phase, StreamPhase::Completed);
}

#[test]
fn connection_failure_is_fatal_with_no_fragments() {
    let mut s = RemoteStream::new();
    s.begin_connect();
    let e = s.on_connect_failure();
    assert_eq!(e, GenerateError::ConnectionFailure);
    assert_eq!(s.phase, StreamPhase::Failed);
}

#[test]
fn concurrent_streams_do_not_share_buffers() {
    let mut first = streaming_process();
    let mut second = streaming_process();
    let f1 = first.on_chunk(b"ab");
    let s1 = second.on_chunk(b"zz");
    let f2 = first.on_chunk(b"cd");
    let s2 = second.on_chunk(b"yy");
    assert_eq!(vec![f1, f2], vec!["ab".to_string(), "abcd".to_string()]);
    assert_eq!(vec![s1, s2], vec!["zz".to_string(), "zzyy".to_string()]);
}
