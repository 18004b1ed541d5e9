use vstd::prelude::*;

pub mod config;
pub mod process;
pub mod remote;

verus! {

/// Where in its life one `generate` call's stream stands; both backends
/// move through the same shape. `Starting` covers request construction or
/// process spawn, `Streaming` covers fragment emission, and the two
/// terminal phases end the stream.
#[derive(Clone, Copy, Debug, PartialEq, Eq, Structural)]
pub enum StreamPhase {
    Idle,
    Starting,
    Streaming,
    Completed,
    Failed,
}

/// Which backend a `generate` call dispatches to: a remote model-serving
/// endpoint, or a spawned external command whose standard output is streamed.
pub enum TextGeneratorType {
    OllamaGenerator,
    ShellScriptGenerator,
}

/// Everything a backend needs before its first pull, resolved from the
/// configuration snapshot with no lock held afterwards: the model and
/// context for a remote call, or the executable and full argument list for
/// a spawn, the context standing last.
pub enum GeneratePlan {
    RemoteModel { model: String, context: String },
    ExternalProcess { executable: String, args: Vec<String> },
}

impl TextGeneratorType {
    /// Pure dispatch for one `generate` call: resolves what the chosen
    /// backend needs from the configuration snapshot, or reports
    /// `ConfigurationMismatch` exactly when the snapshot cannot serve it,
    /// before any spawn or connect attempt.
    pub fn plan(&self, config: &config::GeneratorConfig, context: String) -> (r: Result<
        GeneratePlan,
        config::GenerateError,
    >)
        ensures
            self is OllamaGenerator && config.model_ok() ==> (r matches Ok(p)
                && p matches GeneratePlan::RemoteModel { model, context: c }
                && model@ == config.model_name@ && c@ == context@),
            self is OllamaGenerator && !config.model_ok() ==> r == Err::<
                GeneratePlan,
                config::GenerateError,
            >(config::GenerateError::ConfigurationMismatch),
            self is ShellScriptGenerator && config.command_ok() ==> (r matches Ok(p)
                && p matches GeneratePlan::ExternalProcess { executable, args }
                && executable@ == config.selected_argv()[0] && args.deep_view()
                == process::spawned_args(config.selected_argv(), context@)),
            self is ShellScriptGenerator && !config.command_ok() ==> r == Err::<
                GeneratePlan,
                config::GenerateError,
            >(config::GenerateError::ConfigurationMismatch),
    {
        match self {
            TextGeneratorType::OllamaGenerator => match config.resolve_model() {
                Ok(model) => Ok(GeneratePlan::RemoteModel { model, context }),
                Err(e) => Err(e),
            },
            TextGeneratorType::ShellScriptGenerator => match config.resolve_command() {
                Ok(argv) => {
                    proof {
                        assert(argv.deep_view().len() == argv@.len());
                        assert(config.selected_argv().len() > 0);
                    }
                    let (executable, args) = process::spawn_args(&argv, context);
                    Ok(GeneratePlan::ExternalProcess { executable, args })
                }
                Err(e) => Err(e),
            },
        }
    }
}

} // verus!

