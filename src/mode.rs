//! The two operating modes and the tool policy attached to them.
use vstd::prelude::*;
use crate::text::{lower_of, str_eq, to_lower};

verus! {

/// Operating mode: `Plan` allows only read-only tools, `Execute` allows all.
#[derive(Debug, Clone, Copy, PartialEq, Eq, Structural)]
pub enum Mode {
    Plan,
    Execute,
}

/// Read-only tools, the ones that plan mode allows.
pub open spec fn plan_tools() -> Seq<Seq<char>> {
    seq![
        "read"@,
        "glob"@,
        "grep"@,
        "git_status"@,
        "git_diff"@,
        "git_log"@,
        "lsp_definition"@,
        "lsp_references"@,
        "lsp_diagnostics"@,
    ]
}

/// Every tool, the ones that execute mode allows.
pub open spec fn execute_tools() -> Seq<Seq<char>> {
    seq![
        "read"@,
        "write"@,
        "edit"@,
        "bash"@,
        "glob"@,
        "grep"@,
        "git_status"@,
        "git_diff"@,
        "git_add"@,
        "git_commit"@,
        "git_log"@,
        "lsp_definition"@,
        "lsp_references"@,
        "lsp_diagnostics"@,
    ]
}

/// Tools that change files or run commands and so need the user's consent.
pub open spec fn dangerous_tools() -> Seq<Seq<char>> {
    seq!["bash"@, "write"@, "edit"@, "git_commit"@]
}

/// The mode that a lower-case name stands for.
pub open spec fn mode_named(l: Seq<char>) -> Option<Mode> {
    if l == "plan"@ {
        Some(Mode::Plan)
    } else if l == "execute"@ || l == "exec"@ {
        Some(Mode::Execute)
    } else {
        None
    }
}

pub open spec fn tools_of(m: Mode) -> Seq<Seq<char>> {
    match m {
        Mode::Plan => plan_tools(),
        Mode::Execute => execute_tools(),
    }
}

pub open spec fn views(v: Seq<&str>) -> Seq<Seq<char>> {
    v.map_values(|s: &str| s@)
}

/// Whether `name` is one of `list`.
fn list_contains(list: &Vec<&'static str>, name: &str) -> (r: bool)
    ensures
        r == views(list@).contains(name@),
{
    let mut i: usize = 0;
    while i < list.len()
        invariant
            i <= list@.len(),
            forall|j: int| 0 <= j < i ==> list@[j]@ != name@,
        decreases list@.len() - i,
    {
        if str_eq(list[i], name) {
            assert(views(list@)[i as int] == name@);
            return true;
        }
        i += 1;
    }
    proof {
        if views(list@).contains(name@) {
            let j = choose|j: int| 0 <= j < views(list@).len() && views(list@)[j] == name@;
            assert(list@[j]@ == name@);
        }
    }
    false
}

fn dangerous_list() -> (r: Vec<&'static str>)
    ensures
        views(r@) == dangerous_tools(),
{
    let r = vec!["bash", "write", "edit", "git_commit"];
    assert(views(r@) =~= dangerous_tools());
    r
}

/// Whether running `tool_name` needs the user's confirmation first.
pub fn requires_confirmation(tool_name: &str) -> (r: bool)
    ensures
        r == dangerous_tools().contains(tool_name@),
{
    let list = dangerous_list();
    list_contains(&list, tool_name)
}

impl Mode {
    /// Names of the tools that this mode allows.
    pub fn allowed_tools(&self) -> (r: Vec<&'static str>)
        ensures
            views(r@) == tools_of(*self),
    {
        match self {
            Mode::Plan => {
                let r = vec![
                    "read",
                    "glob",
                    "grep",
                    "git_status",
                    "git_diff",
                    "git_log",
                    "lsp_definition",
                    "lsp_references",
                    "lsp_diagnostics",
                ];
                assert(views(r@) =~= plan_tools());
                r
            },
            Mode::Execute => {
                let r = vec![
                    "read",
                    "write",
                    "edit",
                    "bash",
                    "glob",
                    "grep",
                    "git_status",
                    "git_diff",
                    "git_add",
                    "git_commit",
                    "git_log",
                    "lsp_definition",
                    "lsp_references",
                    "lsp_diagnostics",
                ];
                assert(views(r@) =~= execute_tools());
                r
            },
        }
    }

    /// Whether this mode allows the tool `tool_name`.
    pub fn is_tool_allowed(&self, tool_name: &str) -> (r: bool)
        ensures
            r == tools_of(*self).contains(tool_name@),
    {
        let list = self.allowed_tools();
        list_contains(&list, tool_name)
    }

    /// The mode's name: `plan` or `execute`.
    pub fn as_str(&self) -> (r: &'static str)
        ensures
            r@ == (match *self {
                Mode::Plan => "plan"@,
                Mode::Execute => "execute"@,
            }),
    {
        match self {
            Mode::Plan => "plan",
            Mode::Execute => "execute",
        }
    }

    /// The mode named by `s`, in any letter case; `exec` abbreviates `execute`.
    pub fn parse_mode(s: &str) -> (r: Option<Mode>)
        ensures
            r == mode_named(lower_of(s@)),
    {
        let lower = to_lower(s);
        Self::from_lowered(lower.as_str())
    }

    /// The mode that a lower-case name stands for.
    pub fn from_lowered(l: &str) -> (r: Option<Mode>)
        ensures
            r == mode_named(l@),
    {
        if str_eq(l, "plan") {
            Some(Mode::Plan)
        } else if str_eq(l, "execute") || str_eq(l, "exec") {
            Some(Mode::Execute)
        } else {
            None
        }
    }

    /// The other mode: plan and execute alternate.
    pub fn next(&self) -> (r: Mode)
        ensures
            r != *self,
    {
        match self {
            Mode::Plan => Mode::Execute,
            Mode::Execute => Mode::Plan,
        }
    }

    /// The mode's icon in the prompt.
    pub fn icon(&self) -> (r: &'static str)
        ensures
            r@ == (match *self {
                Mode::Plan => "📋"@,
                Mode::Execute => "⏵⏵"@,
            }),
    {
        match self {
            Mode::Plan => "📋",
            Mode::Execute => "⏵⏵",
        }
    }
}

impl Default for Mode {
    fn default() -> (r: Mode)
        ensures
            r == Mode::Execute,
    {
        Mode::Execute
    }
}

/// Every tool that plan mode allows is allowed in execute mode, and execute
/// mode allows some tool that plan mode does not.
pub proof fn plan_tools_strict_subset()
    ensures
        forall|t: Seq<char>| plan_tools().contains(t) ==> execute_tools().contains(t),
        execute_tools().contains("write"@) && !plan_tools().contains("write"@),
{
    assert forall|t: Seq<char>| plan_tools().contains(t) implies execute_tools().contains(t) by {
        let i = choose|i: int| 0 <= i < plan_tools().len() && plan_tools()[i] == t;
        let j: int = if i == 0 { 0 } else if i <= 4 { i + 3 } else if i == 5 { 10 } else { i + 5 };
        assert(execute_tools()[j] == t);
    }
    assert(execute_tools()[1] == "write"@);
    reveal_strlit("write");
    reveal_strlit("read");
    reveal_strlit("glob");
    reveal_strlit("grep");
    reveal_strlit("git_status");
    reveal_strlit("git_diff");
    reveal_strlit("git_log");
    reveal_strlit("lsp_definition");
    reveal_strlit("lsp_references");
    reveal_strlit("lsp_diagnostics");
    assert forall|i: int| 0 <= i < plan_tools().len() implies plan_tools()[i] != "write"@ by {
        assert(plan_tools()[i].len() != 5 || plan_tools()[i][0] != 'w');
    }
}

} // verus!
