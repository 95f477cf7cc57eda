//! The tools known by name, and the part of the system prompt that teaches
//! the model how to call them.
use vstd::prelude::*;
use crate::tools::{
    BashTool, EditTool, GitAddTool, GitCommitTool, GitDiffTool, GitLogTool, GitStatusTool, GlobTool,
    GrepTool, LspTool, ReadTool, WriteTool,
};
use crate::text::{chars_of, push_str, str_eq, string_of};

verus! {

/// What the model is told of a tool: its name, what it does, and the JSON
/// schema of its parameters.
#[derive(Debug, Clone)]
pub struct ToolDefinition {
    pub name: String,
    pub description: String,
    pub parameters: String,
}

pub open spec fn def_view(d: ToolDefinition) -> (Seq<char>, Seq<char>, Seq<char>) {
    (d.name@, d.description@, d.parameters@)
}

pub open spec fn defs_view(s: Seq<ToolDefinition>) -> Seq<(Seq<char>, Seq<char>, Seq<char>)> {
    s.map_values(|d: ToolDefinition| def_view(d))
}

/// Index of the definition named `name`, if any.
pub open spec fn index_named(s: Seq<(Seq<char>, Seq<char>, Seq<char>)>, name: Seq<char>) -> Option<int> {
    if exists|i: int| 0 <= i < s.len() && (#[trigger] s[i]).0 == name {
        Some(choose|i: int| 0 <= i < s.len() && (#[trigger] s[i]).0 == name)
    } else {
        None
    }
}

pub open spec fn unique_tool_names(s: Seq<(Seq<char>, Seq<char>, Seq<char>)>) -> bool {
    forall|i: int, j: int| 0 <= i < j < s.len() ==> s[i].0 != s[j].0
}

/// One tool as the prompt shows it.
pub open spec fn tool_entry(d: (Seq<char>, Seq<char>, Seq<char>)) -> Seq<char> {
    "## "@ + d.0 + "\n"@ + d.1 + "\nParameters: "@ + d.2 + "\n\n"@
}

pub open spec fn tool_entries(s: Seq<(Seq<char>, Seq<char>, Seq<char>)>) -> Seq<char>
    decreases s.len(),
{
    if s.len() == 0 { Seq::empty() } else { tool_entries(s.drop_last()) + tool_entry(s.last()) }
}

/// The tools that the model may call, by name.
pub struct ToolRegistry {
    tools: Vec<ToolDefinition>,
}

impl ToolRegistry {
    pub closed spec fn defs(&self) -> Seq<(Seq<char>, Seq<char>, Seq<char>)> {
        defs_view(self.tools@)
    }

    pub open spec fn wf(&self) -> bool {
        unique_tool_names(self.defs())
    }

    pub fn new() -> (r: ToolRegistry)
        ensures
            r.wf(),
            r.defs().len() == 0,
    {
        ToolRegistry { tools: Vec::new() }
    }

    fn position(&self, name: &str) -> (r: Option<usize>)
        requires
            self.wf(),
        ensures
            match r {
                Some(i) => i < self.defs().len() && self.defs()[i as int].0 == name@,
                None => forall|j: int| 0 <= j < self.defs().len() ==> (#[trigger] self.defs()[j]).0 != name@,
            },
    {
        let mut i: usize = 0;
        while i < self.tools.len()
            invariant
                i <= self.defs().len(),
                self.defs() == defs_view(self.tools@),
                forall|j: int| 0 <= j < i ==> (#[trigger] self.defs()[j]).0 != name@,
            decreases self.defs().len() - i,
        {
            assert(self.defs()[i as int].0 == self.tools@[i as int].name@);
            if str_eq(self.tools[i].name.as_str(), name) {
                return Some(i);
            }
            i += 1;
        }
        None
    }

    /// Registers a tool, in place of one of the same name.
    pub fn register(&mut self, def: ToolDefinition)
        requires
            old(self).wf(),
        ensures
            final(self).wf(),
            final(self).defs() == (match index_named(old(self).defs(), def.name@) {
                Some(i) => old(self).defs().update(i, def_view(def)),
                None => old(self).defs().push(def_view(def)),
            }),
    {
        let ghost old_defs = self.defs();
        match self.position(def.name.as_str()) {
            Some(i) => {
                proof {
                    let k = choose|k: int| 0 <= k < old_defs.len() && (#[trigger] old_defs[k]).0 == def.name@;
                    if k != i {
                        if k < i {
                            assert(old_defs[k].0 != old_defs[i as int].0);
                        } else {
                            assert(old_defs[i as int].0 != old_defs[k].0);
                        }
                    }
                }
                self.tools.set(i, def);
                assert(self.defs() =~= old_defs.update(i as int, def_view(def)));
            },
            None => {
                self.tools.push(def);
                assert(self.defs() =~= old_defs.push(def_view(def)));
            },
        }
    }

    /// The definition of the tool named `name`.
    pub fn get(&self, name: &str) -> (r: Option<&ToolDefinition>)
        requires
            self.wf(),
        ensures
            match r {
                Some(d) => def_view(*d).0 == name@ && self.defs().contains(def_view(*d)),
                None => index_named(self.defs(), name@).is_none(),
            },
    {
        match self.position(name) {
            Some(i) => {
                assert(self.defs()[i as int] == def_view(self.tools@[i as int]));
                Some(&self.tools[i])
            },
            None => None,
        }
    }

    pub fn contains(&self, name: &str) -> (r: bool)
        requires
            self.wf(),
        ensures
            r == index_named(self.defs(), name@).is_some(),
    {
        self.position(name).is_some()
    }

    pub fn len(&self) -> (r: usize)
        ensures
            r == self.defs().len(),
    {
        self.tools.len()
    }

    pub fn is_empty(&self) -> (r: bool)
        ensures
            r == (self.defs().len() == 0),
    {
        self.tools.len() == 0
    }

    /// The registered definitions, in the order of registration.
    pub fn definitions(&self) -> (r: &Vec<ToolDefinition>)
        ensures
            defs_view(r@) == self.defs(),
    {
        &self.tools
    }

    /// The tools listed for the model: name, description and parameters of
    /// each.
    pub fn to_prompt_format(&self) -> (r: String)
        ensures
            r@ == "Available tools:\n\n"@ + tool_entries(self.defs()),
    {
        let mut v = chars_of("Available tools:\n\n");
        let mut i: usize = 0;
        while i < self.tools.len()
            invariant
                i <= self.defs().len(),
                self.defs() == defs_view(self.tools@),
                v@ == "Available tools:\n\n"@ + tool_entries(self.defs().subrange(0, i as int)),
            decreases self.defs().len() - i,
        {
            assert(self.defs().subrange(0, i + 1).drop_last() =~= self.defs().subrange(0, i as int));
            assert(self.defs()[i as int] == def_view(self.tools@[i as int]));
            push_str(&mut v, "## ");
            push_str(&mut v, self.tools[i].name.as_str());
            push_str(&mut v, "\n");
            push_str(&mut v, self.tools[i].description.as_str());
            push_str(&mut v, "\nParameters: ");
            push_str(&mut v, self.tools[i].parameters.as_str());
            push_str(&mut v, "\n\n");
            i += 1;
        }
        assert(self.defs().subrange(0, i as int) =~= self.defs());
        string_of(v.as_slice())
    }
}

fn definition(name: &str, description: &str, parameters: &str) -> (r: ToolDefinition)
    ensures
        def_view(r) == (name@, description@, parameters@),
{
    ToolDefinition {
        name: String::from_str(name),
        description: String::from_str(description),
        parameters: String::from_str(parameters),
    }
}

/// A registry of every tool, with the shell tool's default timeout.
pub fn default_registry() -> (r: ToolRegistry)
    ensures
        r.wf(),
{
    let mut reg = ToolRegistry::new();
    let t = ReadTool::new();
    reg.register(definition(t.name(), t.description(), t.parameters_schema()));
    let t = WriteTool::new();
    reg.register(definition(t.name(), t.description(), t.parameters_schema()));
    let t = EditTool::new();
    reg.register(definition(t.name(), t.description(), t.parameters_schema()));
    let t = GlobTool::new();
    reg.register(definition(t.name(), t.description(), t.parameters_schema()));
    let t = GrepTool::new();
    reg.register(definition(t.name(), t.description(), t.parameters_schema()));
    let t = BashTool::new();
    reg.register(definition(t.name(), t.description(), t.parameters_schema()));
    let t = GitStatusTool::new();
    reg.register(definition(t.name(), t.description(), t.parameters_schema()));
    let t = GitDiffTool::new();
    reg.register(definition(t.name(), t.description(), t.parameters_schema()));
    let t = GitAddTool::new();
    reg.register(definition(t.name(), t.description(), t.parameters_schema()));
    let t = GitCommitTool::new();
    reg.register(definition(t.name(), t.description(), t.parameters_schema()));
    let t = GitLogTool::new();
    reg.register(definition(t.name(), t.description(), t.parameters_schema()));
    let t = LspTool::Definition;
    reg.register(definition(t.name(), t.description(), t.parameters_schema()));
    let t = LspTool::References;
    reg.register(definition(t.name(), t.description(), t.parameters_schema()));
    let t = LspTool::Diagnostics;
    reg.register(definition(t.name(), t.description(), t.parameters_schema()));
    reg
}

/// The opening of the system prompt: how to call tools, the tools, and the
/// working directory where one is known.
pub open spec fn system_prompt_text(tools: Seq<char>, working_dir: Option<Seq<char>>) -> Seq<char> {
    "You are a coding assistant. You can use tools to help the user.\n\nTo use a tool, output a JSON block like this:\n```json\n{\"tool\": \"tool_name\", \"params\": {\"param1\": \"value1\"}}\n```\n\n"@
        + tools + match working_dir {
        Some(d) => "\n\n# Working Directory\nYou are working in: "@ + d
            + "\nAll file operations (read, write, glob, grep, bash) are relative to this directory.\nWhen using tools, you can use relative paths from this directory, or omit the path parameter to use the current directory."@,
        None => Seq::empty(),
    }
}

/// The system prompt for the registry's tools and a working directory.
pub fn build_system_prompt(registry: &ToolRegistry, working_dir: Option<&str>) -> (r: String)
    ensures
        r@ == system_prompt_text(
            "Available tools:\n\n"@ + tool_entries(registry.defs()),
            match working_dir {
                Some(d) => Some(d@),
                None => None,
            },
        ),
{
    let mut v = chars_of(
        "You are a coding assistant. You can use tools to help the user.\n\nTo use a tool, output a JSON block like this:\n```json\n{\"tool\": \"tool_name\", \"params\": {\"param1\": \"value1\"}}\n```\n\n",
    );
    let tools = registry.to_prompt_format();
    push_str(&mut v, tools.as_str());
    match working_dir {
        Some(d) => {
            push_str(&mut v, "\n\n# Working Directory\nYou are working in: ");
            push_str(&mut v, d);
            push_str(
                &mut v,
                "\nAll file operations (read, write, glob, grep, bash) are relative to this directory.\nWhen using tools, you can use relative paths from this directory, or omit the path parameter to use the current directory.",
            );
        },
        None => {},
    }
    string_of(v.as_slice())
}

} // verus!
