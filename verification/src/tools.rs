//! Tools: which are found, what a model is told of them and how they are run.

use vstd::prelude::*;

use crate::command_runner;
use crate::json;
use crate::lists;
use crate::model;
use crate::paths;
use crate::text;

verus! {

/// A tool.
#[derive(Debug)]
pub struct Tool {
    pub name: String,
    pub version: Option<String>,
    pub description: String,
    pub requires_confirmation: bool,
    pub permissions: Vec<String>,
    pub path: String,
    pub root: String,
    pub command: String,
}

/// A call of a tool that was not approved yet. Its input is a JSON document.
#[derive(Debug)]
pub struct PendingToolCall {
    pub id: String,
    pub name: String,
    pub description: String,
    pub permissions: Vec<String>,
    pub input: String,
    pub chat_id: Option<String>,
}

/// What a tool gave back: a JSON document.
#[derive(Debug)]
pub struct ToolResult {
    pub name: String,
    pub output: String,
}

/// The content of a tool.
pub struct ToolView {
    pub name: Seq<char>,
    pub version: Option<Seq<char>>,
    pub description: Seq<char>,
    pub requires_confirmation: bool,
    pub permissions: Seq<Seq<char>>,
    pub path: Seq<char>,
    pub root: Seq<char>,
    pub command: Seq<char>,
}

impl View for Tool {
    type V = ToolView;

    open spec fn view(&self) -> ToolView {
        ToolView {
            name: self.name@,
            version: model::view_of(self.version),
            description: self.description@,
            requires_confirmation: self.requires_confirmation,
            permissions: text::texts(self.permissions@),
            path: self.path@,
            root: self.root@,
            command: self.command@,
        }
    }
}

impl Clone for Tool {
    fn clone(&self) -> (copy: Self)
        ensures
            copy@ == self@,
    {
        Tool {
            name: self.name.clone(),
            version: self.version.clone(),
            description: self.description.clone(),
            requires_confirmation: self.requires_confirmation,
            permissions: model::copy_texts(&self.permissions),
            path: self.path.clone(),
            root: self.root.clone(),
            command: self.command.clone(),
        }
    }
}

/// What went wrong with a tool.
#[derive(Debug)]
pub enum ToolError {
    AbsoluteCommand,
    EscapingCommand,
    Failed { name: String, output: String },
    InvalidJson { name: String, output: String },
}

impl ToolError {
    /// The message of the error.
    pub open spec fn text(self) -> Seq<char> {
        match self {
            ToolError::AbsoluteCommand => "tool command must be relative"@,
            ToolError::EscapingCommand => "tool command cannot escape its tool folder"@,
            ToolError::Failed { name, output } => "tool "@ + name@ + " failed: "@ + output@,
            ToolError::InvalidJson { name, output } => "tool "@ + name@ + " returned invalid JSON: "@ + output@,
        }
    }

    /// The message of the error.
    pub fn message(&self) -> (message: String)
        ensures
            message@ == self.text(),
    {
        match self {
            ToolError::AbsoluteCommand => "tool command must be relative".to_string(),
            ToolError::EscapingCommand => "tool command cannot escape its tool folder".to_string(),
            ToolError::Failed { name, output } => "tool ".to_string().concat(name.as_str()).concat(" failed: ").concat(
                output.as_str(),
            ),
            ToolError::InvalidJson { name, output } => "tool ".to_string().concat(name.as_str()).concat(
                " returned invalid JSON: ",
            ).concat(output.as_str()),
        }
    }
}

/// Where the tools of a project have to be.
pub open spec fn tools_root(project_root: Seq<char>) -> Seq<char> {
    paths::joined_path(paths::joined_path(project_root, ".bender"@), "tools"@)
}

/// Whether a directory, by where its path leads, may hold tools of the project.
pub fn may_hold_tools(canonical: &str, project_root: &str) -> (answer: bool)
    ensures
        answer == paths::inside(canonical@, tools_root(project_root@)),
{
    let base = paths::join(paths::join(project_root, ".bender").as_str(), "tools");
    paths::is_inside(canonical, base.as_str())
}

/// The names of tools.
pub open spec fn tool_names(tools: Seq<ToolView>) -> Seq<Seq<char>> {
    Seq::new(tools.len(), |i: int| tools[i].name)
}

/// The tools that were found, by ascending name. Of several tools with one name the first stays.
pub fn discover(found: &Vec<Tool>) -> (tools: Vec<Tool>)
    ensures
        exists|order: Seq<usize>| #[trigger]
            lists::names_once(tool_names(model::views(found@)), order) && model::views(tools@) == Seq::new(
                order.len(),
                |i: int| model::views(found@)[order[i] as int],
            ),
{
    let mut names: Vec<String> = Vec::new();
    let ghost all = model::views(found@);
    let mut at: usize = 0;
    while at < found.len()
        invariant
            at <= found@.len(),
            all == model::views(found@),
            names@.len() == at,
            forall|i: int| 0 <= i < at ==> (#[trigger] names@[i])@ == tool_names(all)[i],
        decreases found@.len() - at,
    {
        assert(all[at as int] == found@[at as int]@);
        names.push(found[at].name.clone());
        at = at + 1;
    }
    assert(text::texts(names@) =~= tool_names(all));
    let order = lists::order_by_name(&names);
    let mut tools: Vec<Tool> = Vec::new();
    at = 0;
    while at < order.len()
        invariant
            at <= order@.len(),
            all == model::views(found@),
            lists::names_once(tool_names(all), order@),
            tools@.len() == at,
            forall|i: int| 0 <= i < at ==> (#[trigger] tools@[i])@ == all[order@[i] as int],
        decreases order@.len() - at,
    {
        assert(order@[at as int] < tool_names(all).len());
        assert(all[order@[at as int] as int] == found@[order@[at as int] as int]@);
        tools.push(found[order[at]].clone());
        at = at + 1;
    }
    assert(model::views(tools@) =~= Seq::new(order@.len(), |i: int| all[order@[i] as int]));
    tools
}

/// How a tool is shown to a model.
pub open spec fn tool_line(tool: ToolView) -> Seq<char> {
    "- "@ + tool.name + ": "@ + tool.description + " Requires confirmation: "@ + text::truth(tool.requires_confirmation)
        + ". Permissions: "@ + if tool.permissions.len() == 0 {
        "none"@
    } else {
        text::joined(tool.permissions, ", "@)
    } + ".\n"@
}

/// The list of tools that a model is shown.
pub open spec fn tool_lines(tools: Seq<ToolView>) -> Seq<char>
    decreases tools.len(),
{
    if tools.len() == 0 {
        "Available tools:\n"@
    } else {
        tool_lines(tools.drop_last()) + tool_line(tools.last())
    }
}

/// What a model is told of the tools.
pub open spec fn tools_text(tools: Seq<ToolView>) -> Seq<char> {
    if tools.len() == 0 {
        "Available tools: none.\n"@
    } else {
        tool_lines(tools)
            + "\nTo request a tool, return JSON with a tool_calls array using only listed tool names. Example: {\"summary\":\"Ready to run the tool.\",\"diff\":\"\",\"tool_calls\":[{\"name\":\"tool-name\",\"input\":{\"key\":\"value\"}}]}\n"@
    }
}

/// What a model is told of the tools.
pub fn prompt_section(tools: &Vec<Tool>) -> (section: String)
    ensures
        section@ == tools_text(model::views(tools@)),
{
    if tools.len() == 0 {
        return "Available tools: none.\n".to_string();
    }
    let ghost all = model::views(tools@);
    let mut out = "Available tools:\n".to_string();
    let mut at: usize = 0;
    assert(all.take(0) =~= Seq::<ToolView>::empty());
    while at < tools.len()
        invariant
            at <= tools@.len(),
            all == model::views(tools@),
            out@ == tool_lines(all.take(at as int)),
        decreases tools@.len() - at,
    {
        proof {
            let next = all.take(at + 1);
            assert(next.drop_last() =~= all.take(at as int));
            assert(next.last() == tools@[at as int]@);
            assert(text::texts(tools@[at as int].permissions@).len() == tools@[at as int].permissions@.len());
        }
        let tool = &tools[at];
        let permissions = if tool.permissions.len() == 0 {
            "none".to_string()
        } else {
            text::join(&tool.permissions, ", ")
        };
        let line = "- ".to_string().concat(tool.name.as_str()).concat(": ").concat(tool.description.as_str()).concat(
            " Requires confirmation: ",
        ).concat(text::truth_text(tool.requires_confirmation).as_str()).concat(". Permissions: ").concat(
            permissions.as_str(),
        ).concat(".\n");
        out = out.concat(line.as_str());
        at = at + 1;
    }
    assert(all.take(at as int) =~= all);
    out.concat(
        "\nTo request a tool, return JSON with a tool_calls array using only listed tool names. Example: {\"summary\":\"Ready to run the tool.\",\"diff\":\"\",\"tool_calls\":[{\"name\":\"tool-name\",\"input\":{\"key\":\"value\"}}]}\n",
    )
}

/// The position of the first tool with the name, or the number of tools where there is none.
pub open spec fn tool_index(tools: Seq<ToolView>, name: Seq<char>) -> int
    decreases tools.len(),
{
    if tools.len() == 0 || tools.first().name == name {
        0
    } else {
        1 + tool_index(tools.drop_first(), name)
    }
}

proof fn tool_index_is(tools: Seq<ToolView>, name: Seq<char>, k: int)
    requires
        0 <= k <= tools.len(),
        forall|i: int| 0 <= i < k ==> (#[trigger] tools[i]).name != name,
        k < tools.len() ==> tools[k].name == name,
    ensures
        tool_index(tools, name) == k,
    decreases k,
{
    if k > 0 {
        assert(tools[0].name != name);
        let rest = tools.drop_first();
        assert forall|i: int| 0 <= i < k - 1 implies (#[trigger] rest[i]).name != name by {
            assert(rest[i] == tools[i + 1]);
        }
        tool_index_is(rest, name, k - 1);
    }
}

/// The first tool with the name.
pub fn find_tool(tools: &Vec<Tool>, name: &str) -> (tool: Option<Tool>)
    ensures
        ({
            let i = tool_index(model::views(tools@), name@);
            model::view_of(tool) == if i < tools@.len() {
                Some(tools@[i]@)
            } else {
                None
            }
        }),
{
    let ghost all = model::views(tools@);
    let mut at: usize = 0;
    while at < tools.len()
        invariant
            at <= tools@.len(),
            all == model::views(tools@),
            forall|i: int| 0 <= i < at ==> (#[trigger] all[i]).name != name@,
        decreases tools@.len() - at,
    {
        assert(all[at as int] == tools@[at as int]@);
        if text::same(tools[at].name.as_str(), name) {
            proof {
                tool_index_is(all, name@, at as int);
            }
            return Some(tools[at].clone());
        }
        at = at + 1;
    }
    proof {
        tool_index_is(all, name@, at as int);
    }
    None
}

/// The program of a tool: it has to be in the directory of the tool.
pub fn validate_command(tool: &Tool) -> (result: Result<String, ToolError>)
    ensures
        if paths::absolute(tool.command@) {
            result matches Err(ToolError::AbsoluteCommand)
        } else if paths::climbs(tool.command@) {
            result matches Err(ToolError::EscapingCommand)
        } else {
            result is Ok && result->Ok_0@ == paths::joined_path(tool.root@, tool.command@)
        },
{
    if paths::is_absolute(tool.command.as_str()) {
        return Err(ToolError::AbsoluteCommand);
    }
    if paths::has_parent_part(tool.command.as_str()) {
        return Err(ToolError::EscapingCommand);
    }
    Ok(paths::join(tool.root.as_str(), tool.command.as_str()))
}

/// What a tool gave back, from what its program printed and whether it succeeded.
pub fn result_of(name: &str, stdout: &Vec<u8>, stderr: &Vec<u8>, succeeded: bool) -> (result: Result<ToolResult, ToolError>)
    ensures
        ({
            let out = text::trimmed(command_runner::lossy_text(stdout@));
            let err = text::trimmed(command_runner::lossy_text(stderr@));
            if !succeeded {
                result is Err && result->Err_0.text() == "tool "@ + name@ + " failed: "@ + if err.len() == 0 {
                    out
                } else {
                    err
                }
            } else if json::json_document(out) is None {
                result is Err && result->Err_0.text() == "tool "@ + name@ + " returned invalid JSON: "@ + out
            } else {
                result is Ok && result->Ok_0.name@ == name@ && result->Ok_0.output@ == out
            }
        }),
{
    let out = text::trim(command_runner::text_of_bytes(stdout).as_str());
    let err = text::trim(command_runner::text_of_bytes(stderr).as_str());
    if !succeeded {
        let shown = if err.as_str().is_empty() {
            out
        } else {
            err
        };
        return Err(ToolError::Failed { name: name.to_string(), output: shown });
    }
    if json::parse(out.as_str()).is_none() {
        return Err(ToolError::InvalidJson { name: name.to_string(), output: out });
    }
    Ok(ToolResult { name: name.to_string(), output: out })
}

/// The program of an accepted tool is in the directory of the tool, and its path climbs to no parent.
pub proof fn tool_programs_stay_in_their_directory(root: Seq<char>, command: Seq<char>)
    requires
        paths::absolute(root),
        !paths::climbs(root),
        !paths::absolute(command),
        !paths::climbs(command),
    ensures
        paths::inside(paths::joined_path(root, command), root),
        !paths::climbs(paths::joined_path(root, command)),
{
    paths::joined_path_inside(root, command);
    paths::joined_path_parts(root, command);
    let whole = paths::parts_of(paths::joined_path(root, command));
    if whole.contains(".."@) {
        let i = whole.index_of(".."@);
        let n = paths::parts_of(root).len();
        if i < n {
            assert(paths::parts_of(root)[i] == ".."@);
        } else {
            assert(paths::names(command)[i - n] == ".."@);
            assert(paths::parts_of(command)[paths::head(command).len() + i - n] == ".."@);
        }
    }
}

/// A model is told of every tool its name, what it does, whether it has to be confirmed, and each
/// permission that it asks for.
pub proof fn models_are_told_of_every_tool(tools: Seq<ToolView>, i: int, k: int)
    requires
        0 <= i < tools.len(),
    ensures
        text::holds(tools_text(tools), "- "@ + tools[i].name + ": "@ + tools[i].description),
        text::holds(
            tools_text(tools),
            " Requires confirmation: "@ + if tools[i].requires_confirmation {
                "true"@
            } else {
                "false"@
            },
        ),
        0 <= k < tools[i].permissions.len() ==> text::holds(tools_text(tools), tools[i].permissions[k]),
        tools[i].permissions.len() == 0 ==> text::holds(tools_text(tools), ". Permissions: "@ + "none"@),
{
    let tool = tools[i];
    let line = tool_line(tool);
    let permissions = if tool.permissions.len() == 0 {
        "none"@
    } else {
        text::joined(tool.permissions, ", "@)
    };
    let a = "- "@ + tool.name + ": "@ + tool.description;
    let b = a + " Requires confirmation: "@ + text::truth(tool.requires_confirmation);
    let c = b + ". Permissions: "@ + permissions;
    text::additions_are_held(a, " Requires confirmation: "@, text::truth(tool.requires_confirmation), a);
    text::additions_are_held(b, ". Permissions: "@, permissions, b);
    text::parts_are_held(Seq::empty(), c, ".\n"@);
    assert(Seq::<char>::empty() + c + ".\n"@ =~= line);
    let shown = tools_text(tools);
    lines_hold_each_tool(tools, i);
    text::parts_are_held(
        Seq::empty(),
        tool_lines(tools),
        "\nTo request a tool, return JSON with a tool_calls array using only listed tool names. Example: {\"summary\":\"Ready to run the tool.\",\"diff\":\"\",\"tool_calls\":[{\"name\":\"tool-name\",\"input\":{\"key\":\"value\"}}]}\n"@,
    );
    assert(Seq::<char>::empty() + tool_lines(tools)
        + "\nTo request a tool, return JSON with a tool_calls array using only listed tool names. Example: {\"summary\":\"Ready to run the tool.\",\"diff\":\"\",\"tool_calls\":[{\"name\":\"tool-name\",\"input\":{\"key\":\"value\"}}]}\n"@
        =~= shown);
    text::holding_is_transitive(shown, tool_lines(tools), line);
    text::holding_is_transitive(shown, line, c);
    text::holding_is_transitive(shown, c, ". Permissions: "@ + permissions);
    text::holding_is_transitive(shown, c, permissions);
    text::holding_is_transitive(shown, c, b);
    text::holding_is_transitive(shown, b, " Requires confirmation: "@ + text::truth(tool.requires_confirmation));
    text::holding_is_transitive(shown, b, a);
    if 0 <= k < tool.permissions.len() {
        text::joined_texts_are_held(tool.permissions, ", "@, k);
        text::holding_is_transitive(shown, permissions, tool.permissions[k]);
    }
}

proof fn lines_hold_each_tool(tools: Seq<ToolView>, i: int)
    requires
        0 <= i < tools.len(),
    ensures
        text::holds(tool_lines(tools), tool_line(tools[i])),
    decreases tools.len(),
{
    let before = tool_lines(tools.drop_last());
    let last = tool_line(tools.last());
    if i == tools.len() - 1 {
        text::parts_are_held(before, last, Seq::empty());
        assert(before + last + Seq::<char>::empty() =~= tool_lines(tools));
    } else {
        lines_hold_each_tool(tools.drop_last(), i);
        text::parts_are_held(Seq::empty(), before, last);
        assert(Seq::<char>::empty() + before + last =~= tool_lines(tools));
        text::holding_is_transitive(tool_lines(tools), before, tool_line(tools[i]));
    }
}

} // verus!
