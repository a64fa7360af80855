//! `read_file`: read a file's contents, refusing paths with `..`.

use vstd::prelude::*;
use crate::text::{owned, push_str, debug_text, debug_quoted};
use crate::tools::{
    Tool, ToolArgs, ToolArgsView, ParamSchema, ParamSchemaView, ParamType, ParamView, text_arg,
    param, schema, check_path, checked_path,
};

verus! {

/// Read the contents of a file at the given path.
#[derive(Debug)]
pub struct ReadFile;

impl Tool for ReadFile {
    open spec fn tool_name(&self) -> Seq<char> {
        "read_file"@
    }

    open spec fn tool_description(&self) -> Seq<char> {
        "Read the contents of a file at the given path. Rejects paths containing '..'."@
    }

    open spec fn tool_schema(&self) -> ParamSchemaView {
        ParamSchemaView {
            properties: seq![
                ParamView {
                    name: "path"@,
                    kind: ParamType::String,
                    description: "Path to the file to read"@,
                },
            ],
            required: Some(seq!["path"@]),
        }
    }

    fn name(&self) -> (r: &'static str) {
        "read_file"
    }

    fn description(&self) -> (r: &'static str) {
        "Read the contents of a file at the given path. Rejects paths containing '..'."
    }

    fn input_schema(&self) -> (r: ParamSchema) {
        let properties = vec![param("path", ParamType::String, "Path to the file to read")];
        let required = vec![owned("path")];
        let r = schema(properties, Some(required));
        assert(r@.properties =~= self.tool_schema().properties);
        assert(r@.required->0 =~= seq!["path"@]);
        r
    }
}

/// The file a call asks to read, or the error text that refuses the call.
pub open spec fn read_target(args: ToolArgsView) -> Result<Seq<char>, Seq<char>> {
    checked_path(
        match text_arg(args, "path"@) {
            Some(p) => p,
            None => seq![],
        },
    )
}

/// The tool's answer once the file at `path` is read (`None` when reading
/// it failed): its contents, or the error text.
pub open spec fn read_result(path: Seq<char>, contents: Option<Seq<char>>) -> Result<
    Seq<char>,
    Seq<char>,
> {
    match contents {
        Some(c) => Ok(c),
        None => Err("failed to read "@ + debug_quoted(path)),
    }
}

impl ReadFile {
    /// The file the call asks to read, or the error text refusing it.
    pub fn target(args: &ToolArgs) -> (r: Result<String, String>)
        ensures
            match read_target(args@) {
                Ok(p) => r is Ok && r->Ok_0@ == p,
                Err(e) => r is Err && r->Err_0@ == e,
            },
    {
        check_path(args)
    }

    /// The tool's answer once the file at `path` is read, or reading it failed.
    pub fn finish(path: &str, contents: Option<String>) -> (r: Result<String, String>)
        ensures
            match read_result(
                path@,
                match contents {
                    Some(c) => Some(c@),
                    None => None,
                },
            ) {
                Ok(t) => r is Ok && r->Ok_0@ == t,
                Err(e) => r is Err && r->Err_0@ == e,
            },
    {
        match contents {
            Some(c) => Ok(c),
            None => {
                let mut msg = owned("failed to read ");
                let q = debug_text(path);
                push_str(&mut msg, q.as_str());
                Err(msg)
            },
        }
    }
}

} // verus!
