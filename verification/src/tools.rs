//! The local tools the agent can call: their arguments, their parameter
//! schemas and the registry that finds them by name.

pub mod list_files;
pub mod read_file;
pub mod write_file;
pub mod search_text_in_files;
pub mod run_command;
pub mod walk;

use vstd::prelude::*;
use crate::text::{push_char, same_text, owned, push_str, views};
use crate::seqs::lemma_map_push;
use list_files::ListFiles;
use read_file::ReadFile;
use write_file::WriteFile;
use search_text_in_files::SearchTextInFiles;
use run_command::RunCommand;

verus! {

/// A member of the JSON object of arguments that a tool call carries, as far
/// as the tools read it.
#[derive(Debug)]
pub enum ArgValue {
    /// A JSON string.
    Text(String),
    /// A JSON boolean.
    Flag(bool),
    /// A JSON number that is a non-negative integer within `u64`.
    Count(u64),
    /// Any other JSON value.
    Other,
}

/// An argument value as plain data.
pub enum ArgValueView {
    Text(Seq<char>),
    Flag(bool),
    Count(u64),
    Other,
}

impl View for ArgValue {
    type V = ArgValueView;

    open spec fn view(&self) -> ArgValueView {
        match self {
            ArgValue::Text(t) => ArgValueView::Text(t@),
            ArgValue::Flag(b) => ArgValueView::Flag(*b),
            ArgValue::Count(n) => ArgValueView::Count(*n),
            ArgValue::Other => ArgValueView::Other,
        }
    }
}

impl Clone for ArgValue {
    fn clone(&self) -> (r: Self)
        ensures
            r == *self,
    {
        match self {
            ArgValue::Text(t) => ArgValue::Text(t.clone()),
            ArgValue::Flag(b) => ArgValue::Flag(*b),
            ArgValue::Count(n) => ArgValue::Count(*n),
            ArgValue::Other => ArgValue::Other,
        }
    }
}

/// One named argument.
#[derive(Debug)]
pub struct ArgEntry {
    pub key: String,
    pub value: ArgValue,
}

impl Clone for ArgEntry {
    fn clone(&self) -> (r: Self)
        ensures
            r == *self,
    {
        ArgEntry { key: self.key.clone(), value: self.value.clone() }
    }
}

/// The arguments of a tool call: the members of the JSON object the model
/// sent, and the compact JSON text of the whole arguments value.
#[derive(Debug)]
pub struct ToolArgs {
    pub entries: Vec<ArgEntry>,
    pub text: String,
}

/// Tool arguments as plain data.
pub struct ToolArgsView {
    pub entries: Seq<(Seq<char>, ArgValueView)>,
    pub text: Seq<char>,
}

impl View for ToolArgs {
    type V = ToolArgsView;

    open spec fn view(&self) -> ToolArgsView {
        ToolArgsView {
            entries: self.entries@.map_values(|e: ArgEntry| (e.key@, e.value@)),
            text: self.text@,
        }
    }
}

impl Clone for ToolArgs {
    fn clone(&self) -> (r: Self)
        ensures
            r@ == self@,
    {
        let entries = self.entries.clone();
        assert forall|i: int| 0 <= i < entries.len() implies entries@[i] == self.entries@[i] by {
            assert(cloned::<ArgEntry>(self.entries@[i], entries@[i]));
        }
        let r = ToolArgs { entries, text: self.text.clone() };
        assert(r@.entries =~= self@.entries);
        r
    }
}

/// No arguments: the empty JSON object `{}`.
pub open spec fn empty_args() -> ToolArgsView {
    ToolArgsView { entries: seq![], text: seq!['{', '}'] }
}

/// The value of the first argument named `key`, if any.
pub open spec fn lookup(entries: Seq<(Seq<char>, ArgValueView)>, key: Seq<char>) -> Option<
    ArgValueView,
>
    decreases entries.len(),
{
    if entries.len() == 0 {
        None
    } else if entries[0].0 == key {
        Some(entries[0].1)
    } else {
        lookup(entries.drop_first(), key)
    }
}

/// The text argument named `key`, if the arguments hold one.
pub open spec fn text_arg(args: ToolArgsView, key: Seq<char>) -> Option<Seq<char>> {
    match lookup(args.entries, key) {
        Some(ArgValueView::Text(t)) => Some(t),
        _ => None,
    }
}

/// The boolean argument named `key`, if the arguments hold one.
pub open spec fn flag_arg(args: ToolArgsView, key: Seq<char>) -> Option<bool> {
    match lookup(args.entries, key) {
        Some(ArgValueView::Flag(b)) => Some(b),
        _ => None,
    }
}

/// The non-negative integer argument named `key`, if the arguments hold one.
pub open spec fn count_arg(args: ToolArgsView, key: Seq<char>) -> Option<u64> {
    match lookup(args.entries, key) {
        Some(ArgValueView::Count(n)) => Some(n),
        _ => None,
    }
}

impl ToolArgs {
    /// No arguments: the empty JSON object `{}`.
    pub fn empty() -> (r: ToolArgs)
        ensures
            r@ == empty_args(),
    {
        let mut text = String::new();
        push_char(&mut text, '{');
        push_char(&mut text, '}');
        assert(text@ == seq!['{', '}']);
        let r = ToolArgs { entries: Vec::new(), text };
        assert(r@.entries =~= seq![]);
        r
    }

    /// The value of the first argument named `key`.
    pub fn get(&self, key: &str) -> (r: Option<&ArgValue>)
        ensures
            match r {
                Some(v) => lookup(self@.entries, key@) == Some(v@),
                None => lookup(self@.entries, key@) is None,
            },
    {
        let ghost all = self@.entries;
        assert(all.subrange(0, all.len() as int) == all);
        let mut i: usize = 0;
        while i < self.entries.len()
            invariant
                i <= self.entries.len(),
                all == self@.entries,
                lookup(all, key@) == lookup(all.subrange(i as int, all.len() as int), key@),
            decreases self.entries.len() - i,
        {
            let ghost rest = all.subrange(i as int, all.len() as int);
            assert(rest[0] == (self.entries[i as int].key@, self.entries[i as int].value@));
            if same_text(self.entries[i].key.as_str(), key) {
                return Some(&self.entries[i].value);
            }
            assert(rest.drop_first() == all.subrange(i + 1, all.len() as int));
            i = i + 1;
        }
        None
    }

    /// The text argument named `key`.
    pub fn text(&self, key: &str) -> (r: Option<String>)
        ensures
            match r {
                Some(t) => text_arg(self@, key@) == Some(t@),
                None => text_arg(self@, key@) is None,
            },
    {
        match self.get(key) {
            Some(ArgValue::Text(t)) => Some(t.clone()),
            _ => None,
        }
    }

    /// The boolean argument named `key`.
    pub fn flag(&self, key: &str) -> (r: Option<bool>)
        ensures
            r == flag_arg(self@, key@),
    {
        match self.get(key) {
            Some(ArgValue::Flag(b)) => Some(*b),
            _ => None,
        }
    }

    /// The non-negative integer argument named `key`.
    pub fn count(&self, key: &str) -> (r: Option<u64>)
        ensures
            r == count_arg(self@, key@),
    {
        match self.get(key) {
            Some(ArgValue::Count(n)) => Some(*n),
            _ => None,
        }
    }
}


/// Whether the two characters of `p` at `i` form a `..` path component:
/// two dots with a `/` or an end of the path on each side.
pub open spec fn parent_component_at(p: Seq<char>, i: int) -> bool {
    &&& 0 <= i
    &&& i + 2 <= p.len()
    &&& p[i] == '.'
    &&& p[i + 1] == '.'
    &&& i == 0 || p[i - 1] == '/'
    &&& i + 2 == p.len() || p[i + 2] == '/'
}

/// Whether a path has a `..` component (`Component::ParentDir`).
pub open spec fn has_parent_component(p: Seq<char>) -> bool {
    exists|i: int| parent_component_at(p, i)
}

/// Whether a path has a `..` component.
pub fn has_parent_dir(path: &str) -> (r: bool)
    ensures
        r == has_parent_component(path@),
{
    let p = crate::text::chars_of(path);
    let n = p.len();
    if n < 2 {
        return false;
    }
    let mut i: usize = 0;
    while i < n - 1
        invariant
            p@ == path@,
            n == p.len(),
            2 <= n,
            i <= n - 1,
            forall|k: int| 0 <= k < i ==> !parent_component_at(path@, k),
        decreases n - i,
    {
        if p[i] == '.' && p[i + 1] == '.' && (i == 0 || p[i - 1] == '/') && (i + 2 == n || p[i
            + 2] == '/') {
            assert(parent_component_at(path@, i as int));
            return true;
        }
        i = i + 1;
    }
    assert forall|k: int| !parent_component_at(path@, k) by {
        if 0 <= k < i {
        }
    }
    false
}

/// Law: a path that passes the check is the path given, is not empty, and
/// has no `..` component.
pub proof fn lemma_checked_paths_are_safe(p: Seq<char>)
    ensures
        checked_path(p) matches Ok(q) ==> q == p && q.len() > 0 && !has_parent_component(q),
        has_parent_component(p) ==> checked_path(p) is Err,
{
}

/// A path argument checked as `read_file` and `write_file` check it: an
/// empty one is missing, one with a `..` component is refused.
pub open spec fn checked_path(p: Seq<char>) -> Result<Seq<char>, Seq<char>> {
    if p.len() == 0 {
        Err("missing required argument: 'path'"@)
    } else if has_parent_component(p) {
        Err("path traversal detected: '..' is not allowed"@)
    } else {
        Ok(p)
    }
}

/// Law: the path check refuses exactly what it must and accepts the rest
/// as given: an empty path is missing; a path with a `..` component (two
/// dots between separators or the ends) is refused; any other path, `./`
/// and dotted names included, is accepted unchanged.
pub proof fn lemma_path_check_exact(p: Seq<char>)
    ensures
        p.len() == 0 ==> checked_path(p) == Err::<Seq<char>, Seq<char>>(
            "missing required argument: 'path'"@,
        ),
        p.len() > 0 && (exists|i: int|
            #![trigger p[i]]
            0 <= i && i + 2 <= p.len() && p[i] == '.' && p[i + 1] == '.' && (i == 0 || p[i - 1]
                == '/') && (i + 2 == p.len() || p[i + 2] == '/')) ==> checked_path(p) == Err::<
            Seq<char>,
            Seq<char>,
        >("path traversal detected: '..' is not allowed"@),
        p.len() > 0 && !(exists|i: int|
            #![trigger p[i]]
            0 <= i && i + 2 <= p.len() && p[i] == '.' && p[i + 1] == '.' && (i == 0 || p[i - 1]
                == '/') && (i + 2 == p.len() || p[i + 2] == '/')) ==> checked_path(p) == Ok::<
            Seq<char>,
            Seq<char>,
        >(p),
{
    if has_parent_component(p) {
        let i = choose|i: int| parent_component_at(p, i);
        assert(p[i] == '.');
    }
    if exists|i: int|
        #![trigger p[i]]
        0 <= i && i + 2 <= p.len() && p[i] == '.' && p[i + 1] == '.' && (i == 0 || p[i - 1]
            == '/') && (i + 2 == p.len() || p[i + 2] == '/') {
        let i = choose|i: int|
            #![trigger p[i]]
            0 <= i && i + 2 <= p.len() && p[i] == '.' && p[i + 1] == '.' && (i == 0 || p[i - 1]
                == '/') && (i + 2 == p.len() || p[i + 2] == '/');
        assert(parent_component_at(p, i));
    }
}

/// The `path` argument checked: the path, or the error text.
pub fn check_path(args: &ToolArgs) -> (r: Result<String, String>)
    ensures
        match checked_path(
            match text_arg(args@, "path"@) {
                Some(p) => p,
                None => seq![],
            },
        ) {
            Ok(p) => r is Ok && r->Ok_0@ == p,
            Err(e) => r is Err && r->Err_0@ == e,
        },
{
    let path = match args.text("path") {
        Some(p) => p,
        None => String::new(),
    };
    if path.as_str().is_empty() {
        return Err(owned("missing required argument: 'path'"));
    }
    if has_parent_dir(path.as_str()) {
        return Err(owned("path traversal detected: '..' is not allowed"));
    }
    Ok(path)
}

/// The JSON type of a tool parameter.
#[derive(Debug, PartialEq, Eq, Structural, Clone, Copy)]
pub enum ParamType {
    String,
    Integer,
    Boolean,
}

impl ParamType {
    /// The JSON Schema name of the type.
    pub fn schema_name(&self) -> (r: &'static str)
        ensures
            r@ == param_type_name(*self),
    {
        match self {
            ParamType::String => "string",
            ParamType::Integer => "integer",
            ParamType::Boolean => "boolean",
        }
    }
}

/// The JSON Schema name of a parameter type.
pub open spec fn param_type_name(t: ParamType) -> Seq<char> {
    match t {
        ParamType::String => "string"@,
        ParamType::Integer => "integer"@,
        ParamType::Boolean => "boolean"@,
    }
}

/// One property of a tool's parameter schema.
#[derive(Debug)]
pub struct Param {
    pub name: String,
    pub kind: ParamType,
    pub description: String,
}

/// A parameter as plain data.
pub struct ParamView {
    pub name: Seq<char>,
    pub kind: ParamType,
    pub description: Seq<char>,
}

impl View for Param {
    type V = ParamView;

    open spec fn view(&self) -> ParamView {
        ParamView { name: self.name@, kind: self.kind, description: self.description@ }
    }
}

/// A tool's parameters: a JSON Schema of type `object` with these
/// properties, and a `required` list when there is one.
#[derive(Debug)]
pub struct ParamSchema {
    pub properties: Vec<Param>,
    pub required: Option<Vec<String>>,
}

/// A parameter schema as plain data.
pub struct ParamSchemaView {
    pub properties: Seq<ParamView>,
    pub required: Option<Seq<Seq<char>>>,
}

impl View for ParamSchema {
    type V = ParamSchemaView;

    open spec fn view(&self) -> ParamSchemaView {
        ParamSchemaView {
            properties: self.properties@.map_values(|p: Param| p@),
            required: match self.required {
                Some(r) => Some(views(r@)),
                None => None,
            },
        }
    }
}

impl ParamSchema {
    /// The schema's JSON type: always `object`.
    pub fn schema_type(&self) -> (r: &'static str)
        ensures
            r@ == "object"@,
    {
        "object"
    }

    /// The first property named `name`, if the schema has one.
    pub fn property(&self, name: &str) -> (r: Option<&Param>)
        ensures
            match r {
                Some(p) => exists|i: int|
                    0 <= i < self@.properties.len() && #[trigger] self@.properties[i] == p@
                        && p@.name == name@ && forall|k: int|
                        0 <= k < i ==> #[trigger] self@.properties[k].name != name@,
                None => forall|i: int|
                    0 <= i < self@.properties.len() ==> #[trigger] self@.properties[i].name
                        != name@,
            },
    {
        let mut i: usize = 0;
        while i < self.properties.len()
            invariant
                i <= self.properties.len(),
                forall|k: int| 0 <= k < i ==> #[trigger] self@.properties[k].name != name@,
            decreases self.properties.len() - i,
        {
            assert(self@.properties[i as int] == self.properties@[i as int]@);
            if same_text(self.properties[i].name.as_str(), name) {
                assert(self@.properties[i as int] == self.properties@[i as int]@);
                return Some(&self.properties[i]);
            }
            i = i + 1;
        }
        None
    }
}

/// A property of a schema, built from its parts.
fn param(name: &str, kind: ParamType, description: &str) -> (r: Param)
    ensures
        r@ == (ParamView { name: name@, kind, description: description@ }),
{
    Param { name: owned(name), kind, description: owned(description) }
}

/// A schema from its properties and required names.
fn schema(properties: Vec<Param>, required: Option<Vec<String>>) -> (r: ParamSchema)
    ensures
        r.properties@ == properties@,
        r.required == required,
{
    ParamSchema { properties, required }
}

/// A tool's definition as the model is told of it:
/// `{"type": "function", "function": {"name", "description", "parameters"}}`.
#[derive(Debug)]
pub struct ToolSpec {
    pub name: String,
    pub description: String,
    pub parameters: ParamSchema,
}

/// A tool definition as plain data.
pub struct ToolSpecView {
    pub name: Seq<char>,
    pub description: Seq<char>,
    pub parameters: ParamSchemaView,
}

impl View for ToolSpec {
    type V = ToolSpecView;

    open spec fn view(&self) -> ToolSpecView {
        ToolSpecView {
            name: self.name@,
            description: self.description@,
            parameters: self.parameters@,
        }
    }
}

/// What every tool tells of itself.
pub trait Tool {
    /// The name the model calls the tool by.
    spec fn tool_name(&self) -> Seq<char>;

    /// The tool's description for the model.
    spec fn tool_description(&self) -> Seq<char>;

    /// The tool's parameter schema.
    spec fn tool_schema(&self) -> ParamSchemaView;

    /// The name the model calls the tool by.
    fn name(&self) -> (r: &'static str)
        ensures
            r@ == self.tool_name(),
    ;

    /// The tool's description for the model.
    fn description(&self) -> (r: &'static str)
        ensures
            r@ == self.tool_description(),
    ;

    /// The tool's parameter schema.
    fn input_schema(&self) -> (r: ParamSchema)
        ensures
            r@ == self.tool_schema(),
    ;
}

/// The tools this crate knows.
#[derive(Debug, PartialEq, Eq, Structural, Clone, Copy)]
pub enum ToolKind {
    ListFiles,
    ReadFile,
    WriteFile,
    SearchTextInFiles,
    RunCommand,
}

impl Tool for ToolKind {
    open spec fn tool_name(&self) -> Seq<char> {
        match self {
            ToolKind::ListFiles => ListFiles.tool_name(),
            ToolKind::ReadFile => ReadFile.tool_name(),
            ToolKind::WriteFile => WriteFile.tool_name(),
            ToolKind::SearchTextInFiles => SearchTextInFiles.tool_name(),
            ToolKind::RunCommand => RunCommand.tool_name(),
        }
    }

    open spec fn tool_description(&self) -> Seq<char> {
        match self {
            ToolKind::ListFiles => ListFiles.tool_description(),
            ToolKind::ReadFile => ReadFile.tool_description(),
            ToolKind::WriteFile => WriteFile.tool_description(),
            ToolKind::SearchTextInFiles => SearchTextInFiles.tool_description(),
            ToolKind::RunCommand => RunCommand.tool_description(),
        }
    }

    open spec fn tool_schema(&self) -> ParamSchemaView {
        match self {
            ToolKind::ListFiles => ListFiles.tool_schema(),
            ToolKind::ReadFile => ReadFile.tool_schema(),
            ToolKind::WriteFile => WriteFile.tool_schema(),
            ToolKind::SearchTextInFiles => SearchTextInFiles.tool_schema(),
            ToolKind::RunCommand => RunCommand.tool_schema(),
        }
    }

    fn name(&self) -> (r: &'static str) {
        match self {
            ToolKind::ListFiles => ListFiles.name(),
            ToolKind::ReadFile => ReadFile.name(),
            ToolKind::WriteFile => WriteFile.name(),
            ToolKind::SearchTextInFiles => SearchTextInFiles.name(),
            ToolKind::RunCommand => RunCommand.name(),
        }
    }

    fn description(&self) -> (r: &'static str) {
        match self {
            ToolKind::ListFiles => ListFiles.description(),
            ToolKind::ReadFile => ReadFile.description(),
            ToolKind::WriteFile => WriteFile.description(),
            ToolKind::SearchTextInFiles => SearchTextInFiles.description(),
            ToolKind::RunCommand => RunCommand.description(),
        }
    }

    fn input_schema(&self) -> (r: ParamSchema) {
        match self {
            ToolKind::ListFiles => ListFiles.input_schema(),
            ToolKind::ReadFile => ReadFile.input_schema(),
            ToolKind::WriteFile => WriteFile.input_schema(),
            ToolKind::SearchTextInFiles => SearchTextInFiles.input_schema(),
            ToolKind::RunCommand => RunCommand.input_schema(),
        }
    }
}

/// The definition the model is given of a tool.
pub open spec fn spec_of(k: ToolKind) -> ToolSpecView {
    ToolSpecView {
        name: k.tool_name(),
        description: k.tool_description(),
        parameters: k.tool_schema(),
    }
}

/// The first tool of `tools` named `name`, if any.
pub open spec fn find_tool(tools: Seq<ToolKind>, name: Seq<char>) -> Option<ToolKind>
    decreases tools.len(),
{
    if tools.len() == 0 {
        None
    } else if tools[0].tool_name() == name {
        Some(tools[0])
    } else {
        find_tool(tools.drop_first(), name)
    }
}

/// The tools the agent may call, in the order they were registered.
#[derive(Debug)]
pub struct ToolRegistry {
    tools: Vec<ToolKind>,
}

impl View for ToolRegistry {
    type V = Seq<ToolKind>;

    closed spec fn view(&self) -> Seq<ToolKind> {
        self.tools@
    }
}

/// The tools a new registry holds.
pub open spec fn default_tools() -> Seq<ToolKind> {
    seq![
        ToolKind::ListFiles,
        ToolKind::ReadFile,
        ToolKind::WriteFile,
        ToolKind::SearchTextInFiles,
        ToolKind::RunCommand,
    ]
}

/// The error text for a call of a tool that is not registered.
pub open spec fn unknown_tool_message(name: Seq<char>) -> Seq<char> {
    "unknown tool: "@ + name
}

impl ToolRegistry {
    /// A registry of the five built-in tools: `list_files`, `read_file`,
    /// `write_file`, `search_text_in_files` and `run_command`.
    pub fn new() -> (r: ToolRegistry)
        ensures
            r@ == default_tools(),
    {
        let mut reg = ToolRegistry { tools: Vec::new() };
        reg.register(ToolKind::ListFiles);
        reg.register(ToolKind::ReadFile);
        reg.register(ToolKind::WriteFile);
        reg.register(ToolKind::SearchTextInFiles);
        reg.register(ToolKind::RunCommand);
        assert(reg@ =~= default_tools());
        reg
    }

    /// Adds a tool after those registered.
    pub fn register(&mut self, tool: ToolKind)
        ensures
            final(self)@ == old(self)@.push(tool),
    {
        self.tools.push(tool);
    }

    /// The first registered tool with this name.
    pub fn get(&self, name: &str) -> (r: Option<ToolKind>)
        ensures
            r == find_tool(self@, name@),
    {
        let ghost all = self@;
        assert(all.subrange(0, all.len() as int) == all);
        let mut i: usize = 0;
        while i < self.tools.len()
            invariant
                i <= self.tools.len(),
                all == self@,
                find_tool(all, name@) == find_tool(all.subrange(i as int, all.len() as int), name@),
            decreases self.tools.len() - i,
        {
            let ghost rest = all.subrange(i as int, all.len() as int);
            assert(rest[0] == self.tools@[i as int]);
            let k = self.tools[i];
            if same_text(k.name(), name) {
                return Some(k);
            }
            assert(rest.drop_first() == all.subrange(i + 1, all.len() as int));
            i = i + 1;
        }
        None
    }

    /// The tool with this name, or the error text a call of an unknown tool
    /// gets.
    pub fn resolve(&self, name: &str) -> (r: Result<ToolKind, String>)
        ensures
            match find_tool(self@, name@) {
                Some(k) => r == Ok::<ToolKind, String>(k),
                None => r is Err && r->Err_0@ == unknown_tool_message(name@),
            },
    {
        match self.get(name) {
            Some(k) => Ok(k),
            None => {
                let mut msg = owned("unknown tool: ");
                push_str(&mut msg, name);
                Err(msg)
            },
        }
    }

    /// The number of registered tools.
    pub fn len(&self) -> (n: usize)
        ensures
            n == self@.len(),
    {
        self.tools.len()
    }

    /// The definitions of the registered tools, in order, as the model is
    /// given them.
    pub fn to_ai_tools(&self) -> (r: Vec<ToolSpec>)
        ensures
            r@.map_values(|t: ToolSpec| t@) == self@.map_values(|k: ToolKind| spec_of(k)),
    {
        let mut out: Vec<ToolSpec> = Vec::new();
        let mut i: usize = 0;
        while i < self.tools.len()
            invariant
                i <= self.tools.len(),
                out.len() == i,
                out@.map_values(|t: ToolSpec| t@) == self@.subrange(0, i as int).map_values(
                    |k: ToolKind| spec_of(k),
                ),
            decreases self.tools.len() - i,
        {
            let k = self.tools[i];
            let spec = ToolSpec {
                name: owned(k.name()),
                description: owned(k.description()),
                parameters: k.input_schema(),
            };
            let ghost before = out@;
            out.push(spec);
            proof {
                lemma_map_push(before, spec, |t: ToolSpec| t@);
                lemma_map_push(self@.subrange(0, i as int), k, |k: ToolKind| spec_of(k));
                assert(self@.subrange(0, i + 1) == self@.subrange(0, i as int).push(k));
            }
            i = i + 1;
        }
        assert(self@.subrange(0, self@.len() as int) == self@);
        out
    }
}

/// Law: looking a name up gives a tool of that name, and the first one.
pub proof fn lemma_found_tool_has_name(tools: Seq<ToolKind>, name: Seq<char>)
    ensures
        find_tool(tools, name) matches Some(k) ==> k.tool_name() == name && exists|i: int|
            0 <= i < tools.len() && tools[i] == k && forall|j: int|
                0 <= j < i ==> (#[trigger] tools[j]).tool_name() != name,
        find_tool(tools, name) is None ==> forall|i: int|
            0 <= i < tools.len() ==> (#[trigger] tools[i]).tool_name() != name,
    decreases tools.len(),
{
    if tools.len() > 0 {
        let rest = tools.drop_first();
        lemma_found_tool_has_name(rest, name);
        if tools[0].tool_name() == name {
            assert(tools[0] == tools[0]);
        } else {
            if let Some(k) = find_tool(rest, name) {
                let i = choose|i: int|
                    0 <= i < rest.len() && rest[i] == k && forall|j: int|
                        0 <= j < i ==> (#[trigger] rest[j]).tool_name() != name;
                assert(tools[i + 1] == k);
                assert forall|j: int| 0 <= j < i + 1 implies (#[trigger] tools[j]).tool_name() != name by {
                    if j > 0 {
                        assert(tools[j] == rest[j - 1]);
                    }
                }
            } else {
                assert forall|i: int| 0 <= i < tools.len() implies (#[trigger] tools[i]).tool_name() != name by {
                    if i > 0 {
                        assert(tools[i] == rest[i - 1]);
                    }
                }
            }
        }
    }
}

/// Law: a registered tool is found by its name unless a tool registered
/// before it has the same name; registering never hides a tool found before.
pub proof fn lemma_register_then_get(tools: Seq<ToolKind>, k: ToolKind, name: Seq<char>)
    ensures
        find_tool(tools, name) is Some ==> find_tool(tools.push(k), name) == find_tool(tools, name),
        find_tool(tools, name) is None && k.tool_name() == name ==> find_tool(tools.push(k), name)
            == Some(k),
        find_tool(tools, name) is None && k.tool_name() != name ==> find_tool(tools.push(k), name)
            is None,
    decreases tools.len(),
{
    if tools.len() > 0 {
        assert(tools.push(k).drop_first() == tools.drop_first().push(k));
        lemma_register_then_get(tools.drop_first(), k, name);
    } else {
        assert(tools.push(k).drop_first() =~= seq![]);
        assert(find_tool(tools.push(k).drop_first(), name) is None);
    }
}

/// Law: a new registry finds each of its five tools by name, and nothing
/// else.
pub proof fn lemma_default_tools_by_name(name: Seq<char>)
    ensures
        find_tool(default_tools(), name) is Some <==> (name == "list_files"@ || name
            == "read_file"@ || name == "write_file"@ || name == "search_text_in_files"@ || name
            == "run_command"@),
{
    reveal_with_fuel(find_tool, 6);
    let d = default_tools();
    assert(d.drop_first() =~= seq![
        ToolKind::ReadFile,
        ToolKind::WriteFile,
        ToolKind::SearchTextInFiles,
        ToolKind::RunCommand,
    ]);
    assert(d.drop_first().drop_first() =~= seq![
        ToolKind::WriteFile,
        ToolKind::SearchTextInFiles,
        ToolKind::RunCommand,
    ]);
    assert(d.drop_first().drop_first().drop_first() =~= seq![
        ToolKind::SearchTextInFiles,
        ToolKind::RunCommand,
    ]);
    assert(d.drop_first().drop_first().drop_first().drop_first() =~= seq![ToolKind::RunCommand]);
    assert(d.drop_first().drop_first().drop_first().drop_first().drop_first() =~= seq![]);
}

impl Default for ToolRegistry {
    fn default() -> (r: ToolRegistry)
        ensures
            r@ == default_tools(),
    {
        ToolRegistry::new()
    }
}

} // verus!
