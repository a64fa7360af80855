//! `write_file`: write content to a file, creating its parent directories,
//! refusing paths with `..`.

use vstd::prelude::*;
use crate::text::{owned, push_str, push_decimal, debug_text, debug_quoted, byte_len, decimal, str_len};
use crate::tools::{
    Tool, ToolArgs, ToolArgsView, ParamSchema, ParamSchemaView, ParamType, ParamView, text_arg,
    param, schema, check_path, checked_path,
};

use crate::tools::read_file::{read_target, read_result};

verus! {

/// Write content to a file, creating or overwriting it.
#[derive(Debug)]
pub struct WriteFile;

impl Tool for WriteFile {
    open spec fn tool_name(&self) -> Seq<char> {
        "write_file"@
    }

    open spec fn tool_description(&self) -> Seq<char> {
        "Write content to a file, creating or overwriting it. Rejects paths containing '..'."@
    }

    open spec fn tool_schema(&self) -> ParamSchemaView {
        ParamSchemaView {
            properties: seq![
                ParamView {
                    name: "path"@,
                    kind: ParamType::String,
                    description: "Path to the file to write"@,
                },
                ParamView {
                    name: "content"@,
                    kind: ParamType::String,
                    description: "Content to write to the file"@,
                },
            ],
            required: Some(seq!["path"@, "content"@]),
        }
    }

    fn name(&self) -> (r: &'static str) {
        "write_file"
    }

    fn description(&self) -> (r: &'static str) {
        "Write content to a file, creating or overwriting it. Rejects paths containing '..'."
    }

    fn input_schema(&self) -> (r: ParamSchema) {
        let properties = vec![
            param("path", ParamType::String, "Path to the file to write"),
            param("content", ParamType::String, "Content to write to the file"),
        ];
        let required = vec![owned("path"), owned("content")];
        let r = schema(properties, Some(required));
        assert(r@.properties =~= self.tool_schema().properties);
        assert(r@.required->0 =~= seq!["path"@, "content"@]);
        r
    }
}

/// The content a call asks to write: the `content` argument, or nothing.
pub open spec fn write_content(args: ToolArgsView) -> Seq<char> {
    match text_arg(args, "content"@) {
        Some(c) => c,
        None => seq![],
    }
}

/// The file a call asks to write, or the error text that refuses the call.
pub open spec fn write_target(args: ToolArgsView) -> Result<Seq<char>, Seq<char>> {
    checked_path(
        match text_arg(args, "path"@) {
            Some(p) => p,
            None => seq![],
        },
    )
}

/// How writing the file went.
#[derive(Debug)]
pub enum WriteOutcome {
    /// The content was written.
    Written,
    /// The parent directories could not be created.
    ParentNotCreated,
    /// The file could not be written.
    NotWritten,
}

/// The tool's answer after trying to write `content` to `path`.
pub open spec fn write_result(path: Seq<char>, content: Seq<char>, outcome: WriteOutcome) -> Result<
    Seq<char>,
    Seq<char>,
> {
    match outcome {
        WriteOutcome::Written => Ok(
            "wrote "@ + decimal(str_len(content) as nat) + " bytes to "@ + path,
        ),
        WriteOutcome::ParentNotCreated => Err(
            "failed to create parent directories for "@ + debug_quoted(path),
        ),
        WriteOutcome::NotWritten => Err("failed to write "@ + debug_quoted(path)),
    }
}

/// Law: `write_file` and `read_file` accept and refuse the same paths, and
/// reading back, at the path written, the content written gives that
/// content.
pub proof fn lemma_write_then_read(write_args: ToolArgsView, read_args: ToolArgsView)
    requires
        text_arg(write_args, "path"@) == text_arg(read_args, "path"@),
    ensures
        write_target(write_args) == read_target(read_args),
        write_target(write_args) matches Ok(p) ==> read_result(p, Some(write_content(write_args)))
            == Ok::<Seq<char>, Seq<char>>(write_content(write_args)),
{
}

/// Law: the content a call writes is its `content` argument exactly as
/// given (nothing when there is none), and the path it writes is its
/// `path` argument exactly as given, once the path check accepts it.
pub proof fn lemma_write_takes_arguments_as_given(args: ToolArgsView)
    ensures
        text_arg(args, "content"@) matches Some(c) ==> write_content(args) == c,
        text_arg(args, "content"@) is None ==> write_content(args) == Seq::<char>::empty(),
        write_target(args) matches Ok(p) ==> text_arg(args, "path"@) == Some(p),
{
}

impl WriteFile {
    /// The file the call asks to write and the content to write, or the
    /// error text refusing the call.
    pub fn target(args: &ToolArgs) -> (r: Result<(String, String), String>)
        ensures
            match write_target(args@) {
                Ok(p) => r is Ok && r->Ok_0.0@ == p && r->Ok_0.1@ == write_content(args@),
                Err(e) => r is Err && r->Err_0@ == e,
            },
    {
        let content = match args.text("content") {
            Some(c) => c,
            None => String::new(),
        };
        match check_path(args) {
            Ok(p) => Ok((p, content)),
            Err(e) => Err(e),
        }
    }

    /// The tool's answer after trying to write `content` to `path`.
    pub fn finish(path: &str, content: &str, outcome: WriteOutcome) -> (r: Result<String, String>)
        ensures
            match write_result(path@, content@, outcome) {
                Ok(t) => r is Ok && r->Ok_0@ == t,
                Err(e) => r is Err && r->Err_0@ == e,
            },
    {
        match outcome {
            WriteOutcome::Written => {
                let mut msg = owned("wrote ");
                push_decimal(&mut msg, byte_len(content) as u64);
                push_str(&mut msg, " bytes to ");
                push_str(&mut msg, path);
                Ok(msg)
            },
            WriteOutcome::ParentNotCreated => {
                let mut msg = owned("failed to create parent directories for ");
                let q = debug_text(path);
                push_str(&mut msg, q.as_str());
                Err(msg)
            },
            WriteOutcome::NotWritten => {
                let mut msg = owned("failed to write ");
                let q = debug_text(path);
                push_str(&mut msg, q.as_str());
                Err(msg)
            },
        }
    }
}

} // verus!
