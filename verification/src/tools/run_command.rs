//! `run_command`: run a shell command and report its exit code and output.

use vstd::prelude::*;
use crate::text::{
    owned, push_str, push_decimal, push_signed_decimal, decimal, signed_decimal, blank, is_blank,
};
use crate::tools::{
    Tool, ToolArgs, ToolArgsView, ParamSchema, ParamSchemaView, ParamType, ParamView, text_arg,
    count_arg, param, schema,
};

verus! {

/// Execute a shell command on the local machine.
#[derive(Debug)]
pub struct RunCommand;

impl Tool for RunCommand {
    open spec fn tool_name(&self) -> Seq<char> {
        "run_command"@
    }

    open spec fn tool_description(&self) -> Seq<char> {
        "Execute a shell command on the local machine and return its combined stdout/stderr output along with the exit code. Use with caution: commands run with the same privileges as the agent process."@
    }

    open spec fn tool_schema(&self) -> ParamSchemaView {
        ParamSchemaView {
            properties: seq![
                ParamView {
                    name: "command"@,
                    kind: ParamType::String,
                    description: "The shell command to execute (passed to `sh -c`)"@,
                },
                ParamView {
                    name: "cwd"@,
                    kind: ParamType::String,
                    description: "Working directory to run the command in (default: current working directory)"@,
                },
                ParamView {
                    name: "timeout_secs"@,
                    kind: ParamType::Integer,
                    description: "Maximum number of seconds to allow the command to run before it is killed (default: 30)"@,
                },
            ],
            required: Some(seq!["command"@]),
        }
    }

    fn name(&self) -> (r: &'static str) {
        "run_command"
    }

    fn description(&self) -> (r: &'static str) {
        "Execute a shell command on the local machine and return its combined stdout/stderr output along with the exit code. Use with caution: commands run with the same privileges as the agent process."
    }

    fn input_schema(&self) -> (r: ParamSchema) {
        let properties = vec![
            param(
                "command",
                ParamType::String,
                "The shell command to execute (passed to `sh -c`)",
            ),
            param(
                "cwd",
                ParamType::String,
                "Working directory to run the command in (default: current working directory)",
            ),
            param(
                "timeout_secs",
                ParamType::Integer,
                "Maximum number of seconds to allow the command to run before it is killed (default: 30)",
            ),
        ];
        let required = vec![owned("command")];
        let r = schema(properties, Some(required));
        assert(r@.properties =~= self.tool_schema().properties);
        assert(r@.required->0 =~= seq!["command"@]);
        r
    }
}

/// A command to run.
#[derive(Debug)]
pub struct CommandRun {
    /// The command line, passed to `sh -c`.
    pub command: String,
    /// The working directory, when one is asked for.
    pub cwd: Option<String>,
    /// How many seconds the command may run.
    pub timeout_secs: u64,
}

/// What a call of the tool comes to.
#[derive(Debug)]
pub enum CommandPlan {
    /// The answer, given at once.
    Reply(String),
    /// A command to run.
    Run(CommandRun),
}

/// The command a call asks to run: the `command` argument, or nothing.
pub open spec fn command_arg(args: ToolArgsView) -> Seq<char> {
    match text_arg(args, "command"@) {
        Some(c) => c,
        None => seq![],
    }
}

/// The time limit a call sets: the `timeout_secs` argument, or 30 seconds.
pub open spec fn timeout_arg(args: ToolArgsView) -> u64 {
    match count_arg(args, "timeout_secs"@) {
        Some(t) => t,
        None => 30,
    }
}

/// How running a command went.
#[derive(Debug)]
pub enum CommandOutcome {
    /// The process could not be started.
    NotSpawned,
    /// The process did not end within the time limit.
    TimedOut,
    /// Waiting for the process failed, with this error text.
    WaitFailed(String),
    /// The process ended: its exit code (none when a signal ended it) and
    /// its output, decoded as UTF-8 with invalid sequences replaced.
    Exited { code: Option<i32>, stdout: String, stderr: String },
}

/// The tool's answer after running `command` with the time limit
/// `timeout_secs`.
pub open spec fn command_result(command: Seq<char>, timeout_secs: u64, outcome: CommandOutcome) -> Result<
    Seq<char>,
    Seq<char>,
> {
    match outcome {
        CommandOutcome::NotSpawned => Err("failed to spawn command: "@ + command),
        CommandOutcome::TimedOut => Err(
            "command timed out after "@ + decimal(timeout_secs as nat) + "s: "@ + command,
        ),
        CommandOutcome::WaitFailed(e) => Err(e@),
        CommandOutcome::Exited { code, stdout, stderr } => Ok(
            "exit_code: "@ + signed_decimal(
                match code {
                    Some(c) => c as int,
                    None => -1,
                },
            ) + "\n--- stdout ---\n"@ + stdout@ + "\n--- stderr ---\n"@ + stderr@,
        ),
    }
}

impl RunCommand {
    /// What a call comes to: a command that is empty or only white space is
    /// answered at once with `no command provided`; any other is run in the
    /// `cwd` argument's directory (when given) within `timeout_secs` seconds
    /// (30 when not given).
    pub fn plan(args: &ToolArgs) -> (r: CommandPlan)
        ensures
            is_blank(command_arg(args@)) ==> (r matches CommandPlan::Reply(t) && t@
                == "no command provided"@),
            !is_blank(command_arg(args@)) ==> (r matches CommandPlan::Run(run) && run.command@
                == command_arg(args@) && match run.cwd {
                Some(d) => text_arg(args@, "cwd"@) == Some(d@),
                None => text_arg(args@, "cwd"@) is None,
            } && run.timeout_secs == timeout_arg(args@)),
    {
        let command = match args.text("command") {
            Some(c) => c,
            None => String::new(),
        };
        let cwd = args.text("cwd");
        let timeout_secs = match args.count("timeout_secs") {
            Some(t) => t,
            None => 30,
        };
        if blank(command.as_str()) {
            return CommandPlan::Reply(owned("no command provided"));
        }
        CommandPlan::Run(CommandRun { command, cwd, timeout_secs })
    }

    /// Given whether the asked-for working directory is a directory, the
    /// answer that stops the run, if any: `invalid working directory: <dir>`
    /// when a directory was asked for and it is not one.
    pub fn refuse_cwd(run: &CommandRun, cwd_is_dir: bool) -> (r: Option<String>)
        ensures
            match run.cwd {
                Some(d) => if cwd_is_dir {
                    r is None
                } else {
                    r is Some && r->0@ == "invalid working directory: "@ + d@
                },
                None => r is None,
            },
    {
        match &run.cwd {
            Some(d) => {
                if cwd_is_dir {
                    None
                } else {
                    let mut msg = owned("invalid working directory: ");
                    push_str(&mut msg, d.as_str());
                    Some(msg)
                }
            },
            None => None,
        }
    }

    /// The tool's answer once the command has run, or failed to.
    pub fn finish(run: &CommandRun, outcome: CommandOutcome) -> (r: Result<String, String>)
        ensures
            match command_result(run.command@, run.timeout_secs, outcome) {
                Ok(t) => r is Ok && r->Ok_0@ == t,
                Err(e) => r is Err && r->Err_0@ == e,
            },
    {
        match outcome {
            CommandOutcome::NotSpawned => {
                let mut msg = owned("failed to spawn command: ");
                push_str(&mut msg, run.command.as_str());
                Err(msg)
            },
            CommandOutcome::TimedOut => {
                let mut msg = owned("command timed out after ");
                push_decimal(&mut msg, run.timeout_secs);
                push_str(&mut msg, "s: ");
                push_str(&mut msg, run.command.as_str());
                Err(msg)
            },
            CommandOutcome::WaitFailed(e) => Err(e),
            CommandOutcome::Exited { code, stdout, stderr } => {
                let status: i64 = match code {
                    Some(c) => c as i64,
                    None => -1,
                };
                let mut msg = owned("exit_code: ");
                push_signed_decimal(&mut msg, status);
                push_str(&mut msg, "\n--- stdout ---\n");
                push_str(&mut msg, stdout.as_str());
                push_str(&mut msg, "\n--- stderr ---\n");
                push_str(&mut msg, stderr.as_str());
                Ok(msg)
            },
        }
    }
}

} // verus!
