use vstd::prelude::*;

verus! {

/// Why a `generate` call failed before its stream produced anything.
#[derive(Clone, Copy, Debug, PartialEq, Eq, Structural)]
pub enum GenerateError {
    /// An empty model name, an empty argv, or a selected index outside the
    /// command list: rejected before any spawn or connect attempt.
    ConfigurationMismatch,
    /// The external command could not be spawned.
    SpawnFailure,
    /// The remote endpoint could not be reached, or rejected the request
    /// that opens the stream.
    ConnectionFailure,
}

/// One configured external command: `command[0]` is the executable path and
/// `command[1..]` are its fixed arguments.
pub struct CustomCommand {
    pub command: Vec<String>,
}

/// A read-only snapshot of the configuration, copied out once before any
/// streaming work begins; nothing here is shared with other calls.
pub struct GeneratorConfig {
    /// The model identifier handed to the remote endpoint.
    pub model_name: String,
    /// The configured external commands.
    pub command_list: Vec<CustomCommand>,
    /// Which entry of `command_list` is selected.
    pub selected_index: usize,
}

impl GeneratorConfig {
    /// The remote-model backend can run: the model name is non-empty.
    pub open spec fn model_ok(self) -> bool {
        self.model_name@.len() > 0
    }

    /// The external-process backend can run: the selected index names an
    /// entry of the command list, and that entry names an executable.
    pub open spec fn command_ok(self) -> bool {
        &&& self.selected_index < self.command_list@.len()
        &&& self.command_list@[self.selected_index as int].command@.len() > 0
    }

    /// The argv of the selected command.
    pub open spec fn selected_argv(self) -> Seq<Seq<char>> {
        self.command_list@[self.selected_index as int].command.deep_view()
    }

    /// The model identifier for a remote-model call, or
    /// `ConfigurationMismatch` exactly when the name is empty.
    pub fn resolve_model(&self) -> (r: Result<String, GenerateError>)
        ensures
            self.model_ok() ==> (r matches Ok(m) && m@ == self.model_name@),
            !self.model_ok() ==> r == Err::<String, GenerateError>(GenerateError::ConfigurationMismatch),
    {
        if self.model_name.as_str().is_empty() {
            Err(GenerateError::ConfigurationMismatch)
        } else {
            Ok(self.model_name.clone())
        }
    }

    /// The argv of the selected command, or `ConfigurationMismatch` exactly
    /// when the index is out of range or the argv is empty.
    pub fn resolve_command(&self) -> (r: Result<Vec<String>, GenerateError>)
        ensures
            self.command_ok() ==> (r matches Ok(argv) && argv.deep_view() == self.selected_argv()),
            !self.command_ok() ==> r == Err::<Vec<String>, GenerateError>(GenerateError::ConfigurationMismatch),
    {
        if self.selected_index >= self.command_list.len() {
            return Err(GenerateError::ConfigurationMismatch);
        }
        let argv = &self.command_list[self.selected_index].command;
        if argv.len() == 0 {
            return Err(GenerateError::ConfigurationMismatch);
        }
        Ok(clone_argv(argv))
    }
}

/// A copy of an argument list with the same contents.
pub fn clone_argv(argv: &Vec<String>) -> (r: Vec<String>)
    ensures
        r.deep_view() == argv.deep_view(),
{
    let mut out: Vec<String> = Vec::new();
    let mut i: usize = 0;
    while i < argv.len()
        invariant
            i <= argv@.len(),
            out@.len() == i,
            forall|j: int| 0 <= j < i ==> out@[j]@ == argv@[j]@,
        decreases argv@.len() - i,
    {
        out.push(argv[i].clone());
        i += 1;
    }
    proof {
        assert forall|j: int| 0 <= j < out@.len() implies out.deep_view()[j]
            == argv.deep_view()[j] by {
            assert(out.deep_view()[j] == out@[j]@);
            assert(argv.deep_view()[j] == argv@[j]@);
        }
        assert(out.deep_view() =~= argv.deep_view());
    }
    out
}

} // verus!
