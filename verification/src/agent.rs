//! Agent definitions: modes, permissions, the built-in agents, the agent
//! registry, and the permission checks made before a tool runs.
use vstd::prelude::*;
use crate::config::{AgentConfig, BashPermission, PermissionConfig};
use crate::text::{
    find, trim, lowercase, to_lowercase, sv, concat_str, chars_of, has_prefix, has_suffix, lit, owned, slice_to_vec, starts_with, ends_with, str_eq,
};

verus! {

/// Permission level.
#[derive(Debug, Clone, Copy, PartialEq, Eq, Structural)]
pub enum Permission {
    Allow,
    Ask,
    Deny,
}

/// Where an agent can be used: at the top level, as a subagent, or both.
#[derive(Debug, Clone, Copy, PartialEq, Eq, Structural)]
pub enum AgentMode {
    Primary,
    Subagent,
    All,
}

/// Model override of an agent.
#[derive(Debug, Clone, PartialEq)]
pub struct AgentModel {
    pub provider_id: String,
    pub model_id: String,
}

/// Permissions of an agent. `bash` maps command patterns to levels; of the
/// patterns that match a command, the longest decides (the earliest of
/// equally long ones).
#[derive(Debug, Clone, PartialEq)]
pub struct AgentPermissions {
    pub edit: Permission,
    pub bash: Vec<(String, Permission)>,
    pub webfetch: Option<Permission>,
    pub doom_loop: Option<Permission>,
    pub external_directory: Option<Permission>,
}

/// An agent. The sampling parameters are carried as the bit patterns of
/// their `f32` values (`f32::to_bits`).
#[derive(Debug, Clone, PartialEq)]
pub struct AgentInfo {
    pub name: String,
    pub description: Option<String>,
    pub mode: AgentMode,
    pub built_in: bool,
    pub temperature_bits: Option<u32>,
    pub top_p_bits: Option<u32>,
    pub color: Option<String>,
    pub permission: AgentPermissions,
    pub model: Option<AgentModel>,
    pub prompt: Option<String>,
    /// Tool enable/disable overrides; a tool not listed is enabled.
    pub tools: Vec<(String, bool)>,
    /// Provider options as JSON text, by name.
    pub options: Vec<(String, String)>,
}

/// The views of a key/value list keyed by strings.
pub open spec fn kv<V>(s: Seq<(String, V)>) -> Seq<(Seq<char>, V)> {
    s.map_values(|e: (String, V)| (e.0@, e.1))
}

/// The views of a list of string pairs.
pub open spec fn kv2(s: Seq<(String, String)>) -> Seq<(Seq<char>, Seq<char>)> {
    s.map_values(|e: (String, String)| (e.0@, e.1@))
}

pub open spec fn ov(o: Option<String>) -> Option<Seq<char>> {
    match o {
        Some(s) => Some(s@),
        None => None,
    }
}

/// The mathematical content of [`AgentPermissions`].
pub struct PermView {
    pub edit: Permission,
    pub bash: Seq<(Seq<char>, Permission)>,
    pub webfetch: Option<Permission>,
    pub doom_loop: Option<Permission>,
    pub external_directory: Option<Permission>,
}

impl View for AgentPermissions {
    type V = PermView;

    open spec fn view(&self) -> PermView {
        PermView {
            edit: self.edit,
            bash: kv(self.bash@),
            webfetch: self.webfetch,
            doom_loop: self.doom_loop,
            external_directory: self.external_directory,
        }
    }
}

/// The mathematical content of [`AgentInfo`].
pub struct AgentView {
    pub name: Seq<char>,
    pub description: Option<Seq<char>>,
    pub mode: AgentMode,
    pub built_in: bool,
    pub temperature_bits: Option<u32>,
    pub top_p_bits: Option<u32>,
    pub color: Option<Seq<char>>,
    pub permission: PermView,
    pub model: Option<(Seq<char>, Seq<char>)>,
    pub prompt: Option<Seq<char>>,
    pub tools: Seq<(Seq<char>, bool)>,
    pub options: Seq<(Seq<char>, Seq<char>)>,
}

impl View for AgentInfo {
    type V = AgentView;

    open spec fn view(&self) -> AgentView {
        AgentView {
            name: self.name@,
            description: ov(self.description),
            mode: self.mode,
            built_in: self.built_in,
            temperature_bits: self.temperature_bits,
            top_p_bits: self.top_p_bits,
            color: ov(self.color),
            permission: self.permission@,
            model: match self.model {
                Some(m) => Some((m.provider_id@, m.model_id@)),
                None => None,
            },
            prompt: ov(self.prompt),
            tools: kv(self.tools@),
            options: kv2(self.options@),
        }
    }
}

/// The value of the first entry of `s` with key `k`.
pub open spec fn lookup<V>(s: Seq<(Seq<char>, V)>, k: Seq<char>) -> Option<V>
    decreases s.len(),
{
    if s.len() == 0 {
        None
    } else if s[0].0 == k {
        Some(s[0].1)
    } else {
        lookup(s.drop_first(), k)
    }
}

/// A tool is enabled unless the agent's overrides disable it.
pub open spec fn tool_enabled(a: AgentView, tool: Seq<char>) -> bool {
    match lookup(a.tools, tool) {
        Some(b) => b,
        None => true,
    }
}

/// An agent usable at the top level.
pub open spec fn is_primary_mode(m: AgentMode) -> bool {
    m != AgentMode::Subagent
}

/// An agent usable as a subagent.
pub open spec fn is_subagent_mode(m: AgentMode) -> bool {
    m != AgentMode::Primary
}

proof fn lemma_lookup_skip<V>(s: Seq<(Seq<char>, V)>, i: int, k: Seq<char>)
    requires
        0 <= i <= s.len(),
        forall|j: int| 0 <= j < i ==> s[j].0 != k,
    ensures
        lookup(s, k) == lookup(s.skip(i), k),
    decreases i,
{
    if i > 0 {
        lemma_lookup_skip(s, i - 1, k);
        assert(s.skip(i - 1).drop_first() =~= s.skip(i));
    } else {
        assert(s.skip(0) =~= s);
    }
}

/// Look up `k` in a list of tool overrides.
pub fn lookup_bool(v: &Vec<(String, bool)>, k: &str) -> (r: Option<bool>)
    ensures
        r == lookup(kv(v@), k@),
{
    let mut i: usize = 0;
    while i < v.len()
        invariant
            i <= v@.len(),
            forall|j: int| 0 <= j < i ==> kv(v@)[j].0 != k@,
        decreases v@.len() - i,
    {
        if str_eq(v[i].0.as_str(), k) {
            proof {
                lemma_lookup_skip(kv(v@), i as int, k@);
                assert(kv(v@).skip(i as int)[0] == kv(v@)[i as int]);
            }
            return Some(v[i].1);
        }
        i = i + 1;
    }
    proof {
        lemma_lookup_skip(kv(v@), i as int, k@);
        assert(kv(v@).skip(i as int).len() == 0);
    }
    None
}

impl AgentInfo {
    /// A custom agent named `name`: usable in every mode, not built in,
    /// with every permission of [`default_permissions`] and no overrides.
    pub fn new(name: &str) -> (r: AgentInfo)
        ensures
            r@.name == name@,
            r@.description is None,
            r@.mode == AgentMode::All,
            !r@.built_in,
            r@.temperature_bits is None,
            r@.top_p_bits is None,
            r@.color is None,
            r@.permission == default_permissions_view(),
            r@.model is None,
            r@.prompt is None,
            r@.tools.len() == 0,
            r@.options.len() == 0,
    {
        let tools: Vec<(String, bool)> = Vec::new();
        let options: Vec<(String, String)> = Vec::new();
        AgentInfo {
            name: owned(name),
            description: None,
            mode: AgentMode::All,
            built_in: false,
            temperature_bits: None,
            top_p_bits: None,
            color: None,
            permission: default_permissions(),
            model: None,
            prompt: None,
            tools,
            options,
        }
    }

    /// Whether `tool` is enabled for this agent.
    pub fn is_tool_enabled(&self, tool: &str) -> (r: bool)
        ensures
            r == tool_enabled(self@, tool@),
    {
        match lookup_bool(&self.tools, tool) {
            Some(b) => b,
            None => true,
        }
    }

    /// Whether the agent can be used at the top level.
    pub fn is_primary(&self) -> (r: bool)
        ensures
            r == is_primary_mode(self.mode),
    {
        self.mode != AgentMode::Subagent
    }

    /// Whether the agent can be used as a subagent.
    pub fn is_subagent(&self) -> (r: bool)
        ensures
            r == is_subagent_mode(self.mode),
    {
        self.mode != AgentMode::Primary
    }
}

/// The permissions of an agent that may do anything: edits and every bash
/// command allowed, web fetches, repeated calls and outside directories allowed.
pub open spec fn default_permissions_view() -> PermView {
    PermView {
        edit: Permission::Allow,
        bash: seq![("*"@, Permission::Allow)],
        webfetch: Some(Permission::Allow),
        doom_loop: Some(Permission::Allow),
        external_directory: Some(Permission::Allow),
    }
}

/// Permissions that allow everything (see [`default_permissions_view`]).
pub fn default_permissions() -> (r: AgentPermissions)
    ensures
        r@ == default_permissions_view(),
{
    let mut bash: Vec<(String, Permission)> = Vec::new();
    bash.push((owned("*"), Permission::Allow));
    let r = AgentPermissions {
        edit: Permission::Allow,
        bash,
        webfetch: Some(Permission::Allow),
        doom_loop: Some(Permission::Allow),
        external_directory: Some(Permission::Allow),
    };
    assert(r@.bash =~= seq![("*"@, Permission::Allow)]);
    r
}


/// The bash patterns of the planning agent, in order: read-only commands
/// allowed, commands that write through options asked, and `*` asked last.
pub open spec fn plan_bash() -> Seq<(Seq<char>, Permission)> {
    seq![
        ("cut*"@, Permission::Allow),
        ("diff*"@, Permission::Allow),
        ("du*"@, Permission::Allow),
        ("file *"@, Permission::Allow),
        ("find * -delete*"@, Permission::Ask),
        ("find * -exec*"@, Permission::Ask),
        ("find * -fprint*"@, Permission::Ask),
        ("find * -fls*"@, Permission::Ask),
        ("find * -fprintf*"@, Permission::Ask),
        ("find * -ok*"@, Permission::Ask),
        ("find *"@, Permission::Allow),
        ("git diff*"@, Permission::Allow),
        ("git log*"@, Permission::Allow),
        ("git show*"@, Permission::Allow),
        ("git status*"@, Permission::Allow),
        ("git branch"@, Permission::Allow),
        ("git branch -v"@, Permission::Allow),
        ("grep*"@, Permission::Allow),
        ("head*"@, Permission::Allow),
        ("less*"@, Permission::Allow),
        ("ls*"@, Permission::Allow),
        ("more*"@, Permission::Allow),
        ("pwd*"@, Permission::Allow),
        ("rg*"@, Permission::Allow),
        ("sort --output=*"@, Permission::Ask),
        ("sort -o *"@, Permission::Ask),
        ("sort*"@, Permission::Allow),
        ("stat*"@, Permission::Allow),
        ("tail*"@, Permission::Allow),
        ("tree -o *"@, Permission::Ask),
        ("tree*"@, Permission::Allow),
        ("uniq*"@, Permission::Allow),
        ("wc*"@, Permission::Allow),
        ("whereis*"@, Permission::Allow),
        ("which*"@, Permission::Allow),
        ("*"@, Permission::Ask)
    ]
}

/// The permissions of the planning agent: no edits, the read-only bash
/// whitelist of [`plan_bash`], web fetches allowed, loops and outside
/// directories asked.
pub open spec fn plan_permissions_view() -> PermView {
    PermView {
        edit: Permission::Deny,
        bash: plan_bash(),
        webfetch: Some(Permission::Allow),
        doom_loop: Some(Permission::Ask),
        external_directory: Some(Permission::Ask),
    }
}

/// Permissions of the planning agent (see [`plan_permissions_view`]).
pub fn plan_permissions() -> (r: AgentPermissions)
    ensures
        r@ == plan_permissions_view(),
{
    let mut bash: Vec<(String, Permission)> = Vec::new();
    bash.push((owned("cut*"), Permission::Allow));
    bash.push((owned("diff*"), Permission::Allow));
    bash.push((owned("du*"), Permission::Allow));
    bash.push((owned("file *"), Permission::Allow));
    bash.push((owned("find * -delete*"), Permission::Ask));
    bash.push((owned("find * -exec*"), Permission::Ask));
    bash.push((owned("find * -fprint*"), Permission::Ask));
    bash.push((owned("find * -fls*"), Permission::Ask));
    bash.push((owned("find * -fprintf*"), Permission::Ask));
    bash.push((owned("find * -ok*"), Permission::Ask));
    bash.push((owned("find *"), Permission::Allow));
    bash.push((owned("git diff*"), Permission::Allow));
    bash.push((owned("git log*"), Permission::Allow));
    bash.push((owned("git show*"), Permission::Allow));
    bash.push((owned("git status*"), Permission::Allow));
    bash.push((owned("git branch"), Permission::Allow));
    bash.push((owned("git branch -v"), Permission::Allow));
    bash.push((owned("grep*"), Permission::Allow));
    bash.push((owned("head*"), Permission::Allow));
    bash.push((owned("less*"), Permission::Allow));
    bash.push((owned("ls*"), Permission::Allow));
    bash.push((owned("more*"), Permission::Allow));
    bash.push((owned("pwd*"), Permission::Allow));
    bash.push((owned("rg*"), Permission::Allow));
    bash.push((owned("sort --output=*"), Permission::Ask));
    bash.push((owned("sort -o *"), Permission::Ask));
    bash.push((owned("sort*"), Permission::Allow));
    bash.push((owned("stat*"), Permission::Allow));
    bash.push((owned("tail*"), Permission::Allow));
    bash.push((owned("tree -o *"), Permission::Ask));
    bash.push((owned("tree*"), Permission::Allow));
    bash.push((owned("uniq*"), Permission::Allow));
    bash.push((owned("wc*"), Permission::Allow));
    bash.push((owned("whereis*"), Permission::Allow));
    bash.push((owned("which*"), Permission::Allow));
    bash.push((owned("*"), Permission::Ask));
    let r = AgentPermissions {
        edit: Permission::Deny,
        bash,
        webfetch: Some(Permission::Allow),
        doom_loop: Some(Permission::Ask),
        external_directory: Some(Permission::Ask),
    };
    assert(r@.bash =~= plan_bash());
    r
}

/// System prompt of the architect agent of the planner/architect pair.
pub const ARCHITECT_PROMPT: &'static str = r#"You are the Architect agent in a dual-agent system.

You review the Planner's work. Either call task_complete OR provide feedback. Nothing else.

## CRITICAL RULES

1. When you call `task_complete`, STOP IMMEDIATELY. Do not generate any more text or tool calls after it.
2. You get ONE response per turn. Make your decision and execute it.
3. Do NOT explain what you're going to do. Just do it.

## Your job

Verify the Planner's work:
- Read the code/files if needed
- Run tests if applicable (cargo test, npm test, etc.)
- Check if requirements are met

## Decision

**If work is complete and correct:** Call `task_complete` with summary and verification. STOP.

**If work has issues:** Provide brief, specific feedback. The Planner will fix it.

## Example good responses

GOOD (complete):
```
<calls task_complete with summary>
```

GOOD (needs work):
```
Tests fail: `cargo test` shows 2 failures in auth module. Fix the token validation.
```

BAD:
```
Let me verify the work... I'll check the files... Now I'll run tests... The task is complete, let me call task_complete... <calls task_complete> Great, I've verified everything!
```

Be terse. One action per turn.
"#;
/// System prompt of the arbiter agent of the executor/arbiter pair.
pub const ARBITER_PROMPT: &'static str = r#"You are the Arbiter agent in a dual-agent verification system.

You receive the Executor's full session showing everything it did - all thinking, tool calls, and outputs.

Your job is to VERIFY the work:

1. **Read carefully** - Understand what the Executor did and why
2. **Run tests** - Execute test commands (cargo test, npm test, pytest, etc.)
3. **Check the code** - Read modified files to verify correctness
4. **Verify requirements** - Ensure the original task requirements are met

## When to call task_complete

Call `task_complete` with summary and verification when ALL of these are true:
- Tests pass (if applicable)
- Code compiles/runs without errors
- The original requirements are satisfied
- No obvious bugs or issues

## When NOT to call task_complete

If there are problems:
- Explain clearly what's wrong and why
- Provide specific feedback the Executor can act on
- Your full response will be sent back to the Executor

## Important

- You have ALL the same tools as the Executor (bash, read, edit, etc.)
- Actually run tests - don't just assume they pass
- Be thorough but efficient - verify the critical paths
- If you find issues, be constructive in your feedback
"#;
/// The built-in `general` agent.
pub open spec fn builtin_general() -> AgentView {
    AgentView {
        name: "general"@,
        description: Some("General-purpose agent for researching complex questions, searching for code, and executing multi-step tasks."@),
        mode: AgentMode::Subagent,
        built_in: true,
        temperature_bits: None,
        top_p_bits: None,
        color: None,
        permission: default_permissions_view(),
        model: None,
        prompt: None,
        tools: seq![("todoread"@, false), ("todowrite"@, false), ("task_complete"@, false)],
        options: Seq::<(Seq<char>, Seq<char>)>::empty(),
    }
}

fn make_general() -> (r: AgentInfo)
    ensures
        r@ == builtin_general(),
{
    let mut tools: Vec<(String, bool)> = Vec::new();
    tools.push((owned("todoread"), false));
    tools.push((owned("todowrite"), false));
    tools.push((owned("task_complete"), false));
    let options: Vec<(String, String)> = Vec::new();
    let r = AgentInfo {
        name: owned("general"),
        description: Some(owned("General-purpose agent for researching complex questions, searching for code, and executing multi-step tasks.")),
        mode: AgentMode::Subagent,
        built_in: true,
        temperature_bits: None,
        top_p_bits: None,
        color: None,
        permission: default_permissions(),
        model: None,
        prompt: None,
        tools,
        options,
    };
    assert(r@.tools =~= builtin_general().tools);
    assert(r@.options =~= builtin_general().options);
    r
}

/// The built-in `build` agent.
pub open spec fn builtin_build() -> AgentView {
    AgentView {
        name: "build"@,
        description: Some("Implementation agent for executing code and build tasks."@),
        mode: AgentMode::Primary,
        built_in: true,
        temperature_bits: None,
        top_p_bits: None,
        color: None,
        permission: default_permissions_view(),
        model: None,
        prompt: None,
        tools: seq![("task_complete"@, false)],
        options: Seq::<(Seq<char>, Seq<char>)>::empty(),
    }
}

fn make_build() -> (r: AgentInfo)
    ensures
        r@ == builtin_build(),
{
    let mut tools: Vec<(String, bool)> = Vec::new();
    tools.push((owned("task_complete"), false));
    let options: Vec<(String, String)> = Vec::new();
    let r = AgentInfo {
        name: owned("build"),
        description: Some(owned("Implementation agent for executing code and build tasks.")),
        mode: AgentMode::Primary,
        built_in: true,
        temperature_bits: None,
        top_p_bits: None,
        color: None,
        permission: default_permissions(),
        model: None,
        prompt: None,
        tools,
        options,
    };
    assert(r@.tools =~= builtin_build().tools);
    assert(r@.options =~= builtin_build().options);
    r
}

/// The built-in `plan` agent.
pub open spec fn builtin_plan() -> AgentView {
    AgentView {
        name: "plan"@,
        description: Some("Planning and analysis agent with restricted permissions."@),
        mode: AgentMode::Primary,
        built_in: true,
        temperature_bits: None,
        top_p_bits: None,
        color: None,
        permission: plan_permissions_view(),
        model: None,
        prompt: None,
        tools: seq![("task_complete"@, false)],
        options: Seq::<(Seq<char>, Seq<char>)>::empty(),
    }
}

fn make_plan() -> (r: AgentInfo)
    ensures
        r@ == builtin_plan(),
{
    let mut tools: Vec<(String, bool)> = Vec::new();
    tools.push((owned("task_complete"), false));
    let options: Vec<(String, String)> = Vec::new();
    let r = AgentInfo {
        name: owned("plan"),
        description: Some(owned("Planning and analysis agent with restricted permissions.")),
        mode: AgentMode::Primary,
        built_in: true,
        temperature_bits: None,
        top_p_bits: None,
        color: None,
        permission: plan_permissions(),
        model: None,
        prompt: None,
        tools,
        options,
    };
    assert(r@.tools =~= builtin_plan().tools);
    assert(r@.options =~= builtin_plan().options);
    r
}

/// The built-in `executor` agent.
pub open spec fn builtin_executor() -> AgentView {
    AgentView {
        name: "executor"@,
        description: Some("Executor agent for dual-agent verified tasks. Does the implementation work."@),
        mode: AgentMode::Subagent,
        built_in: true,
        temperature_bits: None,
        top_p_bits: None,
        color: Some("#3B82F6"@),
        permission: default_permissions_view(),
        model: None,
        prompt: None,
        tools: seq![("task"@, false), ("task_complete"@, false)],
        options: Seq::<(Seq<char>, Seq<char>)>::empty(),
    }
}

fn make_executor() -> (r: AgentInfo)
    ensures
        r@ == builtin_executor(),
{
    let mut tools: Vec<(String, bool)> = Vec::new();
    tools.push((owned("task"), false));
    tools.push((owned("task_complete"), false));
    let options: Vec<(String, String)> = Vec::new();
    let r = AgentInfo {
        name: owned("executor"),
        description: Some(owned("Executor agent for dual-agent verified tasks. Does the implementation work.")),
        mode: AgentMode::Subagent,
        built_in: true,
        temperature_bits: None,
        top_p_bits: None,
        color: Some(owned("#3B82F6")),
        permission: default_permissions(),
        model: None,
        prompt: None,
        tools,
        options,
    };
    assert(r@.tools =~= builtin_executor().tools);
    assert(r@.options =~= builtin_executor().options);
    r
}

/// The built-in `arbiter` agent.
pub open spec fn builtin_arbiter() -> AgentView {
    AgentView {
        name: "arbiter"@,
        description: Some("Verification agent that reviews work and calls task_complete when satisfied."@),
        mode: AgentMode::Subagent,
        built_in: true,
        temperature_bits: Some(0x3e99999au32),
        top_p_bits: None,
        color: Some("#10B981"@),
        permission: default_permissions_view(),
        model: None,
        prompt: Some(ARBITER_PROMPT@),
        tools: seq![("task"@, false), ("task_complete"@, true)],
        options: Seq::<(Seq<char>, Seq<char>)>::empty(),
    }
}

fn make_arbiter() -> (r: AgentInfo)
    ensures
        r@ == builtin_arbiter(),
{
    let mut tools: Vec<(String, bool)> = Vec::new();
    tools.push((owned("task"), false));
    tools.push((owned("task_complete"), true));
    let options: Vec<(String, String)> = Vec::new();
    let r = AgentInfo {
        name: owned("arbiter"),
        description: Some(owned("Verification agent that reviews work and calls task_complete when satisfied.")),
        mode: AgentMode::Subagent,
        built_in: true,
        temperature_bits: Some(0x3e99999au32),
        top_p_bits: None,
        color: Some(owned("#10B981")),
        permission: default_permissions(),
        model: None,
        prompt: Some(owned(ARBITER_PROMPT)),
        tools,
        options,
    };
    assert(r@.tools =~= builtin_arbiter().tools);
    assert(r@.options =~= builtin_arbiter().options);
    r
}

/// The built-in `planner` agent.
pub open spec fn builtin_planner() -> AgentView {
    AgentView {
        name: "planner"@,
        description: Some("Primary planning agent that executes tasks. Works with Architect in dual-agent mode."@),
        mode: AgentMode::Primary,
        built_in: true,
        temperature_bits: None,
        top_p_bits: None,
        color: Some("#3B82F6"@),
        permission: default_permissions_view(),
        model: None,
        prompt: None,
        tools: seq![("task"@, false), ("task_complete"@, false)],
        options: Seq::<(Seq<char>, Seq<char>)>::empty(),
    }
}

fn make_planner() -> (r: AgentInfo)
    ensures
        r@ == builtin_planner(),
{
    let mut tools: Vec<(String, bool)> = Vec::new();
    tools.push((owned("task"), false));
    tools.push((owned("task_complete"), false));
    let options: Vec<(String, String)> = Vec::new();
    let r = AgentInfo {
        name: owned("planner"),
        description: Some(owned("Primary planning agent that executes tasks. Works with Architect in dual-agent mode.")),
        mode: AgentMode::Primary,
        built_in: true,
        temperature_bits: None,
        top_p_bits: None,
        color: Some(owned("#3B82F6")),
        permission: default_permissions(),
        model: None,
        prompt: None,
        tools,
        options,
    };
    assert(r@.tools =~= builtin_planner().tools);
    assert(r@.options =~= builtin_planner().options);
    r
}

/// The built-in `architect` agent.
pub open spec fn builtin_architect() -> AgentView {
    AgentView {
        name: "architect"@,
        description: Some("Verification agent that reviews Planner's work. Calls task_complete when satisfied."@),
        mode: AgentMode::Primary,
        built_in: true,
        temperature_bits: Some(0x3e99999au32),
        top_p_bits: None,
        color: Some("#10B981"@),
        permission: default_permissions_view(),
        model: None,
        prompt: Some(ARCHITECT_PROMPT@),
        tools: seq![("task"@, false), ("task_complete"@, true)],
        options: Seq::<(Seq<char>, Seq<char>)>::empty(),
    }
}

fn make_architect() -> (r: AgentInfo)
    ensures
        r@ == builtin_architect(),
{
    let mut tools: Vec<(String, bool)> = Vec::new();
    tools.push((owned("task"), false));
    tools.push((owned("task_complete"), true));
    let options: Vec<(String, String)> = Vec::new();
    let r = AgentInfo {
        name: owned("architect"),
        description: Some(owned("Verification agent that reviews Planner's work. Calls task_complete when satisfied.")),
        mode: AgentMode::Primary,
        built_in: true,
        temperature_bits: Some(0x3e99999au32),
        top_p_bits: None,
        color: Some(owned("#10B981")),
        permission: default_permissions(),
        model: None,
        prompt: Some(owned(ARCHITECT_PROMPT)),
        tools,
        options,
    };
    assert(r@.tools =~= builtin_architect().tools);
    assert(r@.options =~= builtin_architect().options);
    r
}

/// The built-in agents, in this order: general, build, plan, executor,
/// arbiter, planner, architect.
pub open spec fn builtin_agents() -> Seq<AgentView> {
    seq![builtin_general(), builtin_build(), builtin_plan(), builtin_executor(), builtin_arbiter(), builtin_planner(), builtin_architect()]
}


/// The agents a plain registry starts with: general, build, plan and
/// arbiter. The other built-in agents come with the loaded registry.
pub open spec fn core_agents() -> Seq<AgentView> {
    seq![builtin_general(), builtin_build(), builtin_plan(), builtin_arbiter()]
}

/// A copy of `s`.
pub fn copy_string(s: &String) -> (r: String)
    ensures
        r@ == s@,
{
    owned(s.as_str())
}

fn copy_opt(s: &Option<String>) -> (r: Option<String>)
    ensures
        ov(r) == ov(*s),
{
    match s {
        Some(x) => Some(copy_string(x)),
        None => None,
    }
}

impl AgentPermissions {
    /// A copy with the same content.
    pub fn copy(&self) -> (r: AgentPermissions)
        ensures
            r@ == self@,
    {
        let mut bash: Vec<(String, Permission)> = Vec::new();
        let mut i: usize = 0;
        while i < self.bash.len()
            invariant
                i <= self.bash@.len(),
                kv(bash@) == kv(self.bash@).take(i as int),
            decreases self.bash@.len() - i,
        {
            let ghost b = kv(bash@);
            let e = (copy_string(&self.bash[i].0), self.bash[i].1);
            bash.push(e);
            assert(kv(bash@) =~= b.push((e.0@, e.1)));
            assert(kv(bash@) =~= kv(self.bash@).take(i as int + 1));
            i = i + 1;
        }
        assert(kv(self.bash@).take(self.bash@.len() as int) =~= kv(self.bash@));
        AgentPermissions {
            edit: self.edit,
            bash,
            webfetch: self.webfetch,
            doom_loop: self.doom_loop,
            external_directory: self.external_directory,
        }
    }
}

impl AgentInfo {
    /// A copy with the same content.
    pub fn copy(&self) -> (r: AgentInfo)
        ensures
            r@ == self@,
    {
        let mut tools: Vec<(String, bool)> = Vec::new();
        let mut i: usize = 0;
        while i < self.tools.len()
            invariant
                i <= self.tools@.len(),
                kv(tools@) == kv(self.tools@).take(i as int),
            decreases self.tools@.len() - i,
        {
            let ghost b = kv(tools@);
            let e = (copy_string(&self.tools[i].0), self.tools[i].1);
            tools.push(e);
            assert(kv(tools@) =~= b.push((e.0@, e.1)));
            assert(kv(tools@) =~= kv(self.tools@).take(i as int + 1));
            i = i + 1;
        }
        assert(kv(self.tools@).take(self.tools@.len() as int) =~= kv(self.tools@));
        let mut options: Vec<(String, String)> = Vec::new();
        let mut i: usize = 0;
        while i < self.options.len()
            invariant
                i <= self.options@.len(),
                kv2(options@) == kv2(self.options@).take(i as int),
            decreases self.options@.len() - i,
        {
            let ghost b = kv2(options@);
            let e = (copy_string(&self.options[i].0), copy_string(&self.options[i].1));
            options.push(e);
            assert(kv2(options@) =~= b.push((e.0@, e.1@)));
            assert(kv2(options@) =~= kv2(self.options@).take(i as int + 1));
            i = i + 1;
        }
        assert(kv2(self.options@).take(self.options@.len() as int) =~= kv2(self.options@));
        let model = match &self.model {
            Some(m) => Some(AgentModel {
                provider_id: copy_string(&m.provider_id),
                model_id: copy_string(&m.model_id),
            }),
            None => None,
        };
        AgentInfo {
            name: copy_string(&self.name),
            description: copy_opt(&self.description),
            mode: self.mode,
            built_in: self.built_in,
            temperature_bits: self.temperature_bits,
            top_p_bits: self.top_p_bits,
            color: copy_opt(&self.color),
            permission: self.permission.copy(),
            model,
            prompt: copy_opt(&self.prompt),
            tools,
            options,
        }
    }
}

/// The views of a sequence of agents.
pub open spec fn avs(v: Seq<AgentInfo>) -> Seq<AgentView> {
    v.map_values(|a: AgentInfo| a@)
}

/// No two agents of `s` have the same name.
pub open spec fn names_unique(s: Seq<AgentView>) -> bool {
    forall|i: int, j: int| 0 <= i < s.len() && 0 <= j < s.len() && i != j ==> s[i].name != s[j].name
}

/// The index of the agent named `k` in `s`, or `-1`.
pub open spec fn name_index(s: Seq<AgentView>, k: Seq<char>) -> int
    decreases s.len(),
{
    if s.len() == 0 {
        -1
    } else if s.last().name == k {
        s.len() - 1
    } else {
        name_index(s.drop_last(), k)
    }
}

pub proof fn lemma_name_index(s: Seq<AgentView>, k: Seq<char>)
    ensures
        -1 <= name_index(s, k) < s.len(),
        name_index(s, k) >= 0 ==> s[name_index(s, k)].name == k,
        name_index(s, k) == -1 <==> forall|j: int| 0 <= j < s.len() ==> s[j].name != k,
    decreases s.len(),
{
    if s.len() > 0 {
        lemma_name_index(s.drop_last(), k);
        if s.last().name != k {
            assert forall|j: int| 0 <= j < s.len() && name_index(s, k) == -1 implies s[j].name != k by {
                if j < s.len() - 1 {
                    assert(s.drop_last()[j] == s[j]);
                }
            }
            if name_index(s, k) >= 0 {
                assert(s.drop_last()[name_index(s, k)] == s[name_index(s, k)]);
            }
        }
    }
}

pub proof fn lemma_name_index_unique(s: Seq<AgentView>, k: Seq<char>, i: int)
    requires
        names_unique(s),
        0 <= i < s.len(),
        s[i].name == k,
    ensures
        name_index(s, k) == i,
{
    lemma_name_index(s, k);
}

/// The agent named `k` in `s`.
pub open spec fn agent_get(s: Seq<AgentView>, k: Seq<char>) -> Option<AgentView> {
    let i = name_index(s, k);
    if i >= 0 {
        Some(s[i])
    } else {
        None
    }
}

pub proof fn lemma_name_last_match(s: Seq<AgentView>, k: Seq<char>, i: int)
    requires
        0 <= i < s.len(),
        s[i].name == k,
        forall|j: int| i < j < s.len() ==> s[j].name != k,
    ensures
        name_index(s, k) == i,
    decreases s.len(),
{
    if i < s.len() - 1 {
        lemma_name_last_match(s.drop_last(), k, i);
    }
}

proof fn lemma_name_index_after(s: Seq<AgentView>, k: Seq<char>)
    ensures
        forall|j: int| name_index(s, k) < j < s.len() ==> s[j].name != k,
    decreases s.len(),
{
    lemma_name_index(s, k);
    if s.len() > 0 && s.last().name != k {
        lemma_name_index_after(s.drop_last(), k);
        lemma_name_index(s.drop_last(), k);
        assert forall|j: int| name_index(s, k) < j < s.len() - 1 implies s[j].name != k by {
            assert(s.drop_last()[j] == s[j]);
        }
    }
}

/// An agent just registered is what a lookup of its name gives back, and
/// the agents of every other name stay as they were.
pub proof fn law_register_then_get(s: Seq<AgentView>, a: AgentView, other: Seq<char>)
    ensures
        agent_get(agent_insert(s, a), a.name) == Some(a),
        other != a.name ==> agent_get(agent_insert(s, a), other) == agent_get(s, other),
{
    lemma_name_index(s, a.name);
    lemma_name_index_after(s, a.name);
    let i = name_index(s, a.name);
    let t = agent_insert(s, a);
    if i >= 0 {
        lemma_name_last_match(t, a.name, i);
    } else {
        lemma_name_last_match(t, a.name, s.len() as int);
    }
    if other != a.name {
        lemma_name_index(s, other);
        lemma_name_index_after(s, other);
        lemma_name_index(t, other);
        let k = name_index(s, other);
        if k >= 0 {
            lemma_name_last_match(t, other, k);
        } else {
            assert forall|j: int| 0 <= j < t.len() implies t[j].name != other by {
                if j < s.len() && t[j] != s[j] {
                }
            }
        }
    }
}

/// After an agent is removed a lookup of its name finds nothing.
pub proof fn law_unregister_then_get(s: Seq<AgentView>, k: Seq<char>)
    requires
        names_unique(s),
    ensures
        agent_get(agent_remove(s, k), k) is None,
{
    lemma_name_index(s, k);
    let i = name_index(s, k);
    let t = agent_remove(s, k);
    if i >= 0 {
        assert forall|j: int| 0 <= j < t.len() implies t[j].name != k by {
            let jj = if j < i { j } else { j + 1 };
            assert(t[j] == s[jj]);
        }
    }
    lemma_name_index(t, k);
}

/// `s` with `a` added, replacing the agent of the same name if there is one.
pub open spec fn agent_insert(s: Seq<AgentView>, a: AgentView) -> Seq<AgentView> {
    let i = name_index(s, a.name);
    if i >= 0 {
        s.update(i, a)
    } else {
        s.push(a)
    }
}

/// `s` without the agent named `k`.
pub open spec fn agent_remove(s: Seq<AgentView>, k: Seq<char>) -> Seq<AgentView> {
    let i = name_index(s, k);
    if i >= 0 {
        s.remove(i)
    } else {
        s
    }
}

/// Agents by name, in the order in which they were first added.
pub struct AgentMap {
    entries: Vec<AgentInfo>,
}

impl View for AgentMap {
    type V = Seq<AgentView>;

    closed spec fn view(&self) -> Seq<AgentView> {
        avs(self.entries@)
    }
}

impl AgentMap {
    #[verifier::type_invariant]
    closed spec fn inv(&self) -> bool {
        names_unique(avs(self.entries@))
    }

    /// An empty map.
    pub fn new() -> (r: AgentMap)
        ensures
            r@.len() == 0,
    {
        let r = AgentMap { entries: Vec::new() };
        assert(r@ =~= Seq::<AgentView>::empty());
        r
    }

    /// Number of agents; no two of them have the same name.
    pub fn len(&self) -> (r: usize)
        ensures
            r == self@.len(),
            names_unique(self@),
    {
        proof {
            use_type_invariant(self);
        }
        self.entries.len()
    }

    fn position(&self, k: &str) -> (r: Option<usize>)
        ensures
            match r {
                Some(i) => i as int == name_index(self@, k@) && i < self@.len(),
                None => name_index(self@, k@) == -1,
            },
    {
        proof {
            use_type_invariant(self);
            lemma_name_index(self@, k@);
        }
        let mut i: usize = 0;
        while i < self.entries.len()
            invariant
                i <= self.entries@.len(),
                forall|j: int| 0 <= j < i ==> avs(self.entries@)[j].name != k@,
                names_unique(avs(self.entries@)),
            decreases self.entries@.len() - i,
        {
            if str_eq(self.entries[i].name.as_str(), k) {
                proof {
                    lemma_name_index_unique(self@, k@, i as int);
                }
                return Some(i);
            }
            i = i + 1;
        }
        proof {
            lemma_name_index(self@, k@);
        }
        None
    }

    /// The agent named `k`.
    pub fn get(&self, k: &str) -> (r: Option<&AgentInfo>)
        ensures
            match r {
                Some(a) => agent_get(self@, k@) == Some(a@),
                None => agent_get(self@, k@) is None,
            },
    {
        match self.position(k) {
            Some(i) => Some(&self.entries[i]),
            None => None,
        }
    }

    /// Whether an agent is named `k`.
    pub fn contains_key(&self, k: &str) -> (r: bool)
        ensures
            r == (agent_get(self@, k@) is Some),
    {
        self.position(k).is_some()
    }

    /// Add `a`, replacing the agent of the same name.
    pub fn insert(&mut self, a: AgentInfo)
        ensures
            final(self)@ == agent_insert(old(self)@, a@),
    {
        proof {
            use_type_invariant(&*self);
            lemma_name_index(self@, a@.name);
        }
        match self.position(a.name.as_str()) {
            Some(i) => {
                let ghost s = self@;
                let mut entries = Vec::new();
                std::mem::swap(&mut entries, &mut self.entries);
                entries.set(i, a);
                assert(avs(entries@) =~= s.update(i as int, a@));
                proof {
                    assert forall|x: int, y: int|
                        0 <= x < entries@.len() && 0 <= y < entries@.len() && x != y implies avs(entries@)[x].name != avs(entries@)[y].name by {
                        if x != i && y != i {
                            assert(avs(entries@)[x] == s[x]);
                            assert(avs(entries@)[y] == s[y]);
                        } else if x == i {
                            assert(avs(entries@)[y] == s[y]);
                            assert(s[i as int].name == a@.name);
                        } else {
                            assert(avs(entries@)[x] == s[x]);
                            assert(s[i as int].name == a@.name);
                        }
                    }
                }
                self.entries = entries;
            },
            None => {
                let ghost s = self@;
                let mut entries = Vec::new();
                std::mem::swap(&mut entries, &mut self.entries);
                entries.push(a);
                assert(avs(entries@) =~= s.push(a@));
                proof {
                    assert forall|x: int, y: int|
                        0 <= x < entries@.len() && 0 <= y < entries@.len() && x != y implies avs(entries@)[x].name != avs(entries@)[y].name by {
                        if x < s.len() && y < s.len() {
                            assert(avs(entries@)[x] == s[x]);
                            assert(avs(entries@)[y] == s[y]);
                        } else if x < s.len() {
                            assert(avs(entries@)[x] == s[x]);
                        } else {
                            assert(avs(entries@)[y] == s[y]);
                        }
                    }
                }
                self.entries = entries;
            },
        }
    }

    /// Remove the agent named `k`, returning it.
    pub fn remove(&mut self, k: &str) -> (r: Option<AgentInfo>)
        ensures
            final(self)@ == agent_remove(old(self)@, k@),
            match r {
                Some(a) => agent_get(old(self)@, k@) == Some(a@),
                None => agent_get(old(self)@, k@) is None,
            },
    {
        proof {
            use_type_invariant(&*self);
        }
        match self.position(k) {
            Some(i) => {
                let ghost s = self@;
                let mut entries = Vec::new();
                std::mem::swap(&mut entries, &mut self.entries);
                let a = entries.remove(i);
                assert(avs(entries@) =~= s.remove(i as int));
                proof {
                    assert forall|x: int, y: int|
                        0 <= x < entries@.len() && 0 <= y < entries@.len() && x != y implies avs(entries@)[x].name != avs(entries@)[y].name by {
                        let xx = if x < i { x } else { x + 1 };
                        let yy = if y < i { y } else { y + 1 };
                        assert(avs(entries@)[x] == s[xx]);
                        assert(avs(entries@)[y] == s[yy]);
                    }
                }
                self.entries = entries;
                Some(a)
            },
            None => None,
        }
    }

    /// The agents, in order.
    pub fn values(&self) -> (r: &Vec<AgentInfo>)
        ensures
            avs(r@) == self@,
    {
        &self.entries
    }
}

/// The built-in agents (see [`builtin_agents`]), by name.
pub fn get_builtin_agents() -> (r: AgentMap)
    ensures
        r@ == builtin_agents(),
{
    proof {
        reveal_strlit("general");
        reveal_strlit("build");
        reveal_strlit("plan");
        reveal_strlit("executor");
        reveal_strlit("arbiter");
        reveal_strlit("planner");
        reveal_strlit("architect");
    }
    let mut m = AgentMap::new();
    let ghost before = m@;
    let a = make_general();
    proof {
        lemma_name_index(before, a@.name);
    }
    m.insert(a);
    assert(m@ =~= seq![builtin_general()]);
    let ghost before = m@;
    let a = make_build();
    proof {
        assert(builtin_general().name != builtin_build().name) by {
            assert("general"@.len() != "build"@.len() || "general"@[0] != "build"@[0] || "general"@[1] != "build"@[1] || "general"@[2] != "build"@[2] || "general"@[4] != "build"@[4] || "general"@[5] != "build"@[5]);
        }
        lemma_name_index(before, a@.name);
    }
    m.insert(a);
    assert(m@ =~= seq![builtin_general(), builtin_build()]);
    let ghost before = m@;
    let a = make_plan();
    proof {
        assert(builtin_general().name != builtin_plan().name) by {
            assert("general"@.len() != "plan"@.len() || "general"@[0] != "plan"@[0] || "general"@[1] != "plan"@[1] || "general"@[2] != "plan"@[2] || "general"@[4] != "plan"@[4] || "general"@[5] != "plan"@[5]);
        }
        assert(builtin_build().name != builtin_plan().name) by {
            assert("build"@.len() != "plan"@.len() || "build"@[0] != "plan"@[0] || "build"@[1] != "plan"@[1] || "build"@[2] != "plan"@[2] || "build"@[4] != "plan"@[4] || "build"@[5] != "plan"@[5]);
        }
        lemma_name_index(before, a@.name);
    }
    m.insert(a);
    assert(m@ =~= seq![builtin_general(), builtin_build(), builtin_plan()]);
    let ghost before = m@;
    let a = make_executor();
    proof {
        assert(builtin_general().name != builtin_executor().name) by {
            assert("general"@.len() != "executor"@.len() || "general"@[0] != "executor"@[0] || "general"@[1] != "executor"@[1] || "general"@[2] != "executor"@[2] || "general"@[4] != "executor"@[4] || "general"@[5] != "executor"@[5]);
        }
        assert(builtin_build().name != builtin_executor().name) by {
            assert("build"@.len() != "executor"@.len() || "build"@[0] != "executor"@[0] || "build"@[1] != "executor"@[1] || "build"@[2] != "executor"@[2] || "build"@[4] != "executor"@[4] || "build"@[5] != "executor"@[5]);
        }
        assert(builtin_plan().name != builtin_executor().name) by {
            assert("plan"@.len() != "executor"@.len() || "plan"@[0] != "executor"@[0] || "plan"@[1] != "executor"@[1] || "plan"@[2] != "executor"@[2] || "plan"@[4] != "executor"@[4] || "plan"@[5] != "executor"@[5]);
        }
        lemma_name_index(before, a@.name);
    }
    m.insert(a);
    assert(m@ =~= seq![builtin_general(), builtin_build(), builtin_plan(), builtin_executor()]);
    let ghost before = m@;
    let a = make_arbiter();
    proof {
        assert(builtin_general().name != builtin_arbiter().name) by {
            assert("general"@.len() != "arbiter"@.len() || "general"@[0] != "arbiter"@[0] || "general"@[1] != "arbiter"@[1] || "general"@[2] != "arbiter"@[2] || "general"@[4] != "arbiter"@[4] || "general"@[5] != "arbiter"@[5]);
        }
        assert(builtin_build().name != builtin_arbiter().name) by {
            assert("build"@.len() != "arbiter"@.len() || "build"@[0] != "arbiter"@[0] || "build"@[1] != "arbiter"@[1] || "build"@[2] != "arbiter"@[2] || "build"@[4] != "arbiter"@[4] || "build"@[5] != "arbiter"@[5]);
        }
        assert(builtin_plan().name != builtin_arbiter().name) by {
            assert("plan"@.len() != "arbiter"@.len() || "plan"@[0] != "arbiter"@[0] || "plan"@[1] != "arbiter"@[1] || "plan"@[2] != "arbiter"@[2] || "plan"@[4] != "arbiter"@[4] || "plan"@[5] != "arbiter"@[5]);
        }
        assert(builtin_executor().name != builtin_arbiter().name) by {
            assert("executor"@.len() != "arbiter"@.len() || "executor"@[0] != "arbiter"@[0] || "executor"@[1] != "arbiter"@[1] || "executor"@[2] != "arbiter"@[2] || "executor"@[4] != "arbiter"@[4] || "executor"@[5] != "arbiter"@[5]);
        }
        lemma_name_index(before, a@.name);
    }
    m.insert(a);
    assert(m@ =~= seq![builtin_general(), builtin_build(), builtin_plan(), builtin_executor(), builtin_arbiter()]);
    let ghost before = m@;
    let a = make_planner();
    proof {
        assert(builtin_general().name != builtin_planner().name) by {
            assert("general"@.len() != "planner"@.len() || "general"@[0] != "planner"@[0] || "general"@[1] != "planner"@[1] || "general"@[2] != "planner"@[2] || "general"@[4] != "planner"@[4] || "general"@[5] != "planner"@[5]);
        }
        assert(builtin_build().name != builtin_planner().name) by {
            assert("build"@.len() != "planner"@.len() || "build"@[0] != "planner"@[0] || "build"@[1] != "planner"@[1] || "build"@[2] != "planner"@[2] || "build"@[4] != "planner"@[4] || "build"@[5] != "planner"@[5]);
        }
        assert(builtin_plan().name != builtin_planner().name) by {
            assert("plan"@.len() != "planner"@.len() || "plan"@[0] != "planner"@[0] || "plan"@[1] != "planner"@[1] || "plan"@[2] != "planner"@[2] || "plan"@[4] != "planner"@[4] || "plan"@[5] != "planner"@[5]);
        }
        assert(builtin_executor().name != builtin_planner().name) by {
            assert("executor"@.len() != "planner"@.len() || "executor"@[0] != "planner"@[0] || "executor"@[1] != "planner"@[1] || "executor"@[2] != "planner"@[2] || "executor"@[4] != "planner"@[4] || "executor"@[5] != "planner"@[5]);
        }
        assert(builtin_arbiter().name != builtin_planner().name) by {
            assert("arbiter"@.len() != "planner"@.len() || "arbiter"@[0] != "planner"@[0] || "arbiter"@[1] != "planner"@[1] || "arbiter"@[2] != "planner"@[2] || "arbiter"@[4] != "planner"@[4] || "arbiter"@[5] != "planner"@[5]);
        }
        lemma_name_index(before, a@.name);
    }
    m.insert(a);
    assert(m@ =~= seq![builtin_general(), builtin_build(), builtin_plan(), builtin_executor(), builtin_arbiter(), builtin_planner()]);
    let ghost before = m@;
    let a = make_architect();
    proof {
        assert(builtin_general().name != builtin_architect().name) by {
            assert("general"@.len() != "architect"@.len() || "general"@[0] != "architect"@[0] || "general"@[1] != "architect"@[1] || "general"@[2] != "architect"@[2] || "general"@[4] != "architect"@[4] || "general"@[5] != "architect"@[5]);
        }
        assert(builtin_build().name != builtin_architect().name) by {
            assert("build"@.len() != "architect"@.len() || "build"@[0] != "architect"@[0] || "build"@[1] != "architect"@[1] || "build"@[2] != "architect"@[2] || "build"@[4] != "architect"@[4] || "build"@[5] != "architect"@[5]);
        }
        assert(builtin_plan().name != builtin_architect().name) by {
            assert("plan"@.len() != "architect"@.len() || "plan"@[0] != "architect"@[0] || "plan"@[1] != "architect"@[1] || "plan"@[2] != "architect"@[2] || "plan"@[4] != "architect"@[4] || "plan"@[5] != "architect"@[5]);
        }
        assert(builtin_executor().name != builtin_architect().name) by {
            assert("executor"@.len() != "architect"@.len() || "executor"@[0] != "architect"@[0] || "executor"@[1] != "architect"@[1] || "executor"@[2] != "architect"@[2] || "executor"@[4] != "architect"@[4] || "executor"@[5] != "architect"@[5]);
        }
        assert(builtin_arbiter().name != builtin_architect().name) by {
            assert("arbiter"@.len() != "architect"@.len() || "arbiter"@[0] != "architect"@[0] || "arbiter"@[1] != "architect"@[1] || "arbiter"@[2] != "architect"@[2] || "arbiter"@[4] != "architect"@[4] || "arbiter"@[5] != "architect"@[5]);
        }
        assert(builtin_planner().name != builtin_architect().name) by {
            assert("planner"@.len() != "architect"@.len() || "planner"@[0] != "architect"@[0] || "planner"@[1] != "architect"@[1] || "planner"@[2] != "architect"@[2] || "planner"@[4] != "architect"@[4] || "planner"@[5] != "architect"@[5]);
        }
        lemma_name_index(before, a@.name);
    }
    m.insert(a);
    assert(m@ =~= seq![builtin_general(), builtin_build(), builtin_plan(), builtin_executor(), builtin_arbiter(), builtin_planner(), builtin_architect()]);
    assert(m@ =~= builtin_agents());
    m
}


/// The agents whose mode makes them usable at the top level.
pub open spec fn primary_agents(s: Seq<AgentView>) -> Seq<AgentView> {
    s.filter(|a: AgentView| is_primary_mode(a.mode))
}

/// The agents whose mode makes them usable as subagents.
pub open spec fn subagents(s: Seq<AgentView>) -> Seq<AgentView> {
    s.filter(|a: AgentView| is_subagent_mode(a.mode))
}

/// The agents usable in `mode` (every agent for `All`).
pub open spec fn agents_by_mode(s: Seq<AgentView>, mode: AgentMode) -> Seq<AgentView> {
    match mode {
        AgentMode::Primary => primary_agents(s),
        AgentMode::Subagent => subagents(s),
        AgentMode::All => s,
    }
}

/// `s` after adding each agent of `v` in turn.
pub open spec fn insert_all(s: Seq<AgentView>, v: Seq<AgentView>) -> Seq<AgentView>
    decreases v.len(),
{
    if v.len() == 0 {
        s
    } else {
        agent_insert(insert_all(s, v.drop_last()), v.last())
    }
}

pub open spec fn removal_refused_message(id: Seq<char>) -> Seq<char> {
    "Cannot remove built-in agent: "@ + id
}

/// The available agents: the built-in ones and those added later.
pub struct AgentRegistry {
    agents: AgentMap,
}

impl View for AgentRegistry {
    type V = Seq<AgentView>;

    closed spec fn view(&self) -> Seq<AgentView> {
        self.agents@
    }
}

/// The filter that keeps every agent (`all`) or those usable in `mode`.
pub open spec fn keep_pred(mode: AgentMode, all: bool) -> spec_fn(AgentView) -> bool {
    |a: AgentView| all || (mode == AgentMode::Primary && is_primary_mode(a.mode)) || (mode
        == AgentMode::Subagent && is_subagent_mode(a.mode))
}

fn copies(v: &Vec<AgentInfo>, mode: AgentMode, all: bool) -> (r: Vec<AgentInfo>)
    ensures
        avs(r@) == avs(v@).filter(keep_pred(mode, all)),
{
    let ghost pred = keep_pred(mode, all);
    proof {
        reveal(Seq::filter);
    }
    let mut r: Vec<AgentInfo> = Vec::new();
    let mut i: usize = 0;
    assert(avs(v@).take(0) =~= Seq::<AgentView>::empty());
    while i < v.len()
        invariant
            i <= v@.len(),
            avs(r@) == avs(v@).take(i as int).filter(pred),
            pred == keep_pred(mode, all),
        decreases v@.len() - i,
    {
        let keep = all || (mode == AgentMode::Primary && v[i].is_primary()) || (mode == AgentMode::Subagent && v[i].is_subagent());
        assert(avs(v@).take(i as int + 1).drop_last() =~= avs(v@).take(i as int));
        assert(avs(v@).take(i as int + 1).last() == v@[i as int]@);
        assert(pred(v@[i as int]@) == keep);
        proof {
            reveal(Seq::filter);
        }
        if keep {
            let c = v[i].copy();
            let ghost b = avs(r@);
            r.push(c);
            assert(avs(r@) =~= b.push(c@));
        }
        i = i + 1;
    }
    assert(avs(v@).take(v@.len() as int) =~= avs(v@));
    r
}

impl AgentRegistry {
    /// A registry of the core agents: general, build, plan and arbiter
    /// (see [`core_agents`]).
    pub fn new() -> (r: AgentRegistry)
        ensures
            r@ == core_agents(),
    {
        proof {
            reveal_strlit("general");
            reveal_strlit("build");
            reveal_strlit("plan");
            reveal_strlit("arbiter");
        }
        let mut m = AgentMap::new();
        let ghost before = m@;
        let a = make_general();
        proof {
            lemma_name_index(before, a@.name);
        }
        m.insert(a);
        assert(m@ =~= seq![builtin_general()]);
        let ghost before = m@;
        let a = make_build();
        proof {
            assert(builtin_general().name != builtin_build().name) by {
                assert("general"@.len() != "build"@.len());
            }
            lemma_name_index(before, a@.name);
        }
        m.insert(a);
        assert(m@ =~= seq![builtin_general(), builtin_build()]);
        let ghost before = m@;
        let a = make_plan();
        proof {
            assert(builtin_general().name != builtin_plan().name) by {
                assert("general"@.len() != "plan"@.len());
            }
            assert(builtin_build().name != builtin_plan().name) by {
                assert("build"@.len() != "plan"@.len());
            }
            lemma_name_index(before, a@.name);
        }
        m.insert(a);
        assert(m@ =~= seq![builtin_general(), builtin_build(), builtin_plan()]);
        let ghost before = m@;
        let a = make_arbiter();
        proof {
            assert(builtin_general().name != builtin_arbiter().name) by {
                assert("general"@[0] != "arbiter"@[0]);
            }
            assert(builtin_build().name != builtin_arbiter().name) by {
                assert("build"@.len() != "arbiter"@.len());
            }
            assert(builtin_plan().name != builtin_arbiter().name) by {
                assert("plan"@.len() != "arbiter"@.len());
            }
            lemma_name_index(before, a@.name);
        }
        m.insert(a);
        assert(m@ =~= core_agents());
        AgentRegistry { agents: m }
    }

    /// A registry of the built-in agents with the agents loaded from the
    /// global configuration added, then those loaded from the project (which
    /// replace agents of the same name).
    pub fn with_loaded_agents(global: Vec<AgentInfo>, project: Vec<AgentInfo>) -> (r: AgentRegistry)
        ensures
            r@ == insert_all(insert_all(builtin_agents(), avs(global@)), avs(project@)),
    {
        let mut reg = AgentRegistry { agents: get_builtin_agents() };
        let mut i: usize = 0;
        assert(avs(global@).take(0) =~= Seq::<AgentView>::empty());
        while i < global.len()
            invariant
                i <= global@.len(),
                reg@ == insert_all(builtin_agents(), avs(global@).take(i as int)),
            decreases global@.len() - i,
        {
            assert(avs(global@).take(i as int + 1).drop_last() =~= avs(global@).take(i as int));
            reg.register(global[i].copy());
            i = i + 1;
        }
        assert(avs(global@).take(global@.len() as int) =~= avs(global@));
        let ghost base = reg@;
        let mut i: usize = 0;
        assert(avs(project@).take(0) =~= Seq::<AgentView>::empty());
        while i < project.len()
            invariant
                i <= project@.len(),
                reg@ == insert_all(base, avs(project@).take(i as int)),
            decreases project@.len() - i,
        {
            assert(avs(project@).take(i as int + 1).drop_last() =~= avs(project@).take(i as int));
            reg.register(project[i].copy());
            i = i + 1;
        }
        assert(avs(project@).take(project@.len() as int) =~= avs(project@));
        reg
    }

    /// A copy of the agent named `agent_id`.
    pub fn get(&self, agent_id: &str) -> (r: Option<AgentInfo>)
        ensures
            match r {
                Some(a) => agent_get(self@, agent_id@) == Some(a@),
                None => agent_get(self@, agent_id@) is None,
            },
    {
        match self.agents.get(agent_id) {
            Some(a) => Some(a.copy()),
            None => None,
        }
    }

    /// Copies of all agents, in order.
    pub fn get_all(&self) -> (r: Vec<AgentInfo>)
        ensures
            avs(r@) == self@,
    {
        let v = self.agents.values();
        let r = copies(v, AgentMode::All, true);
        proof {
            lemma_filter_true(avs(v@), keep_pred(AgentMode::All, true));
        }
        r
    }

    /// Copies of the agents usable at the top level.
    pub fn get_primary_agents(&self) -> (r: Vec<AgentInfo>)
        ensures
            avs(r@) == primary_agents(self@),
    {
        let v = self.agents.values();
        let r = copies(v, AgentMode::Primary, false);
        assert(keep_pred(AgentMode::Primary, false) =~= (|a: AgentView| is_primary_mode(a.mode)));
        r
    }

    /// Copies of the agents usable as subagents.
    pub fn get_subagents(&self) -> (r: Vec<AgentInfo>)
        ensures
            avs(r@) == subagents(self@),
    {
        let v = self.agents.values();
        let r = copies(v, AgentMode::Subagent, false);
        assert(keep_pred(AgentMode::Subagent, false) =~= (|a: AgentView| is_subagent_mode(a.mode)));
        r
    }

    /// Copies of the agents usable in `mode`.
    pub fn get_by_mode(&self, mode: AgentMode) -> (r: Vec<AgentInfo>)
        ensures
            avs(r@) == agents_by_mode(self@, mode),
    {
        match mode {
            AgentMode::Primary => self.get_primary_agents(),
            AgentMode::Subagent => self.get_subagents(),
            AgentMode::All => self.get_all(),
        }
    }

    /// Add `agent`, replacing the agent of the same name.
    pub fn register(&mut self, agent: AgentInfo)
        ensures
            final(self)@ == agent_insert(old(self)@, agent@),
    {
        self.agents.insert(agent);
    }

    /// Remove the agent named `agent_id`; built-in agents cannot be removed.
    pub fn unregister(&mut self, agent_id: &str) -> (r: Result<(), String>)
        ensures
            match agent_get(old(self)@, agent_id@) {
                Some(a) => if a.built_in {
                    r == Err::<(), String>(r->Err_0) && r->Err_0@ == removal_refused_message(agent_id@)
                        && final(self)@ == old(self)@
                } else {
                    r is Ok && final(self)@ == agent_remove(old(self)@, agent_id@)
                },
                None => r is Ok && final(self)@ == old(self)@,
            },
    {
        match self.agents.get(agent_id) {
            Some(a) => {
                if a.built_in {
                    return Err(concat_str("Cannot remove built-in agent: ", agent_id));
                }
            },
            None => {},
        }
        self.agents.remove(agent_id);
        Ok(())
    }

    /// Whether an agent is named `agent_id`.
    pub fn has_agent(&self, agent_id: &str) -> (r: bool)
        ensures
            r == (agent_get(self@, agent_id@) is Some),
    {
        self.agents.contains_key(agent_id)
    }

    /// Number of agents.
    pub fn count(&self) -> (r: usize)
        ensures
            r == self@.len(),
    {
        self.agents.len()
    }

    /// The names of all agents, in order.
    pub fn list_ids(&self) -> (r: Vec<String>)
        ensures
            sv(r@) == self@.map_values(|a: AgentView| a.name),
    {
        let v = self.agents.values();
        let mut r: Vec<String> = Vec::new();
        let mut i: usize = 0;
        while i < v.len()
            invariant
                i <= v@.len(),
                sv(r@) == avs(v@).map_values(|a: AgentView| a.name).take(i as int),
            decreases v@.len() - i,
        {
            let n = copy_string(&v[i].name);
            let ghost b = sv(r@);
            r.push(n);
            assert(sv(r@) =~= b.push(n@));
            assert(sv(r@) =~= avs(v@).map_values(|a: AgentView| a.name).take(i as int + 1));
            i = i + 1;
        }
        assert(avs(v@).map_values(|a: AgentView| a.name).take(v@.len() as int) =~= avs(v@).map_values(|a: AgentView| a.name));
        r
    }
}

proof fn lemma_filter_true(s: Seq<AgentView>, p: spec_fn(AgentView) -> bool)
    requires
        forall|a: AgentView| #[trigger] p(a),
    ensures
        s.filter(p) == s,
    decreases s.len(),
{
    reveal(Seq::filter);
    if s.len() > 0 {
        lemma_filter_true(s.drop_last(), p);
        assert(s.drop_last().push(s.last()) =~= s);
    }
}


/// Whether a bash command matches a permission pattern, in which each `*`
/// stands for any run of characters (the empty one included) and every
/// other character for itself.
pub open spec fn bash_pattern_matches(pattern: Seq<char>, command: Seq<char>) -> bool
    decreases pattern.len() + command.len(),
{
    if pattern.len() == 0 {
        command.len() == 0
    } else if pattern[0] == '*' {
        bash_pattern_matches(pattern.drop_first(), command) || (command.len() > 0 && bash_pattern_matches(
            pattern,
            command.drop_first(),
        ))
    } else {
        command.len() > 0 && command[0] == pattern[0] && bash_pattern_matches(
            pattern.drop_first(),
            command.drop_first(),
        )
    }
}

/// The index among the first `n` patterns of `bash` of the most specific
/// one that matches `command`: the one with the most characters, the
/// earliest among equally long ones; `-1` when none matches.
pub open spec fn best_pattern(bash: Seq<(Seq<char>, Permission)>, command: Seq<char>, n: int) -> int
    decreases n,
{
    if n <= 0 {
        -1
    } else {
        let b = best_pattern(bash, command, n - 1);
        if bash_pattern_matches(bash[n - 1].0, command) && (b < 0 || bash[n - 1].0.len() > bash[b].0.len()) {
            n - 1
        } else {
            b
        }
    }
}

/// The decision on `command` of the most specific pattern of `bash` that
/// matches it (see [`best_pattern`]): allowed, denied, or asked (which is
/// refused as not implemented); refused when no pattern matches.
pub open spec fn bash_decision(bash: Seq<(Seq<char>, Permission)>, command: Seq<char>) -> Result<
    (),
    Seq<char>,
> {
    let b = best_pattern(bash, command, bash.len() as int);
    if b < 0 {
        Err("No matching bash permission for command: "@ + command)
    } else {
        match bash[b].1 {
            Permission::Allow => Ok(()),
            Permission::Deny => Err("Bash command '"@ + command + "' denied by pattern '"@ + bash[b].0 + "'"@),
            Permission::Ask => Err("Permission request not implemented yet"@),
        }
    }
}

/// Whether `agent` may run `tool`: the tool must be enabled for it; `edit`
/// and `write` need an edit permission other than deny; `bash` with a
/// command needs the command's bash decision to allow it.
pub open spec fn tool_decision(agent: AgentView, tool: Seq<char>, command: Option<Seq<char>>) -> Result<
    (),
    Seq<char>,
> {
    if !tool_enabled(agent, tool) {
        Err("Tool '"@ + tool + "' is not enabled for agent '"@ + agent.name + "'"@)
    } else if tool == "edit"@ || tool == "write"@ {
        if agent.permission.edit == Permission::Deny {
            Err("Edit permission denied for this agent"@)
        } else {
            Ok(())
        }
    } else if tool == "bash"@ {
        match command {
            Some(c) => bash_decision(agent.permission.bash, c),
            None => Ok(()),
        }
    } else {
        Ok(())
    }
}

/// Whether a bash command matches a permission pattern (see [`bash_pattern_matches`]).
pub fn matches_bash_pattern(pattern: &str, command: &str) -> (r: bool)
    ensures
        r == bash_pattern_matches(pattern@, command@),
{
    let p = chars_of(pattern);
    let c = chars_of(command);
    assert(p@.skip(0) =~= p@);
    assert(c@.skip(0) =~= c@);
    wild_from(&p, &c, 0, 0)
}

/// Whether `p` from index `i` matches `c` from index `j` (see
/// [`bash_pattern_matches`]).
fn wild_from(p: &[char], c: &[char], i: usize, j: usize) -> (r: bool)
    requires
        i <= p@.len(),
        j <= c@.len(),
    ensures
        r == bash_pattern_matches(p@.skip(i as int), c@.skip(j as int)),
    decreases p@.len() - i + c@.len() - j,
{
    let ghost ps = p@.skip(i as int);
    let ghost cs = c@.skip(j as int);
    if i == p.len() {
        return j == c.len();
    }
    assert(ps[0] == p@[i as int]);
    assert(ps.drop_first() =~= p@.skip(i + 1));
    if j < c.len() {
        assert(cs[0] == c@[j as int]);
        assert(cs.drop_first() =~= c@.skip(j + 1));
    }
    if p[i] == '*' {
        if wild_from(p, c, i + 1, j) {
            return true;
        }
        j < c.len() && wild_from(p, c, i, j + 1)
    } else {
        j < c.len() && c[j] == p[i] && wild_from(p, c, i + 1, j + 1)
    }
}

fn concat_many(parts: &Vec<&str>) -> (r: String)
    ensures
        r@ == crate::text::join(crate::patch::strv(parts@), Seq::<char>::empty()),
{
    let mut v: Vec<Vec<char>> = Vec::new();
    let mut i: usize = 0;
    while i < parts.len()
        invariant
            i <= parts@.len(),
            crate::text::dv(v@) == crate::patch::strv(parts@).take(i as int),
        decreases parts@.len() - i,
    {
        let c = chars_of(parts[i]);
        let ghost b = crate::text::dv(v@);
        v.push(c);
        assert(crate::text::dv(v@) =~= b.push(c@));
        assert(crate::text::dv(v@) =~= crate::patch::strv(parts@).take(i as int + 1));
        i = i + 1;
    }
    assert(crate::patch::strv(parts@).take(parts@.len() as int) =~= crate::patch::strv(parts@));
    let empty: Vec<char> = Vec::new();
    let j = crate::text::join_vecs(&v, &empty);
    crate::text::string_from_chars(&j)
}

/// `a + b + c`.
pub fn concat3(a: &str, b: &str, c: &str) -> (r: String)
    ensures
        r@ == a@ + b@ + c@,
{
    let mut v = chars_of(a);
    crate::text::push_str(&mut v, b);
    crate::text::push_str(&mut v, c);
    crate::text::string_from_chars(&v)
}

/// `a + b + c + d + e`.
pub fn concat5(a: &str, b: &str, c: &str, d: &str, e: &str) -> (r: String)
    ensures
        r@ == a@ + b@ + c@ + d@ + e@,
{
    let mut v = chars_of(a);
    crate::text::push_str(&mut v, b);
    crate::text::push_str(&mut v, c);
    crate::text::push_str(&mut v, d);
    crate::text::push_str(&mut v, e);
    crate::text::string_from_chars(&v)
}

/// Decide a bash command against the agent's patterns (see [`bash_decision`]).
pub fn check_bash_permission(agent: &AgentInfo, command: &str) -> (r: Result<(), String>)
    ensures
        match r {
            Ok(()) => bash_decision(agent@.permission.bash, command@) == Ok::<(), Seq<char>>(()),
            Err(m) => bash_decision(agent@.permission.bash, command@) == Err::<(), Seq<char>>(m@),
        },
{
    let bash = &agent.permission.bash;
    let ghost bs = kv(bash@);
    let mut best: Option<usize> = None;
    let mut best_len: usize = 0;
    let mut i: usize = 0;
    while i < bash.len()
        invariant
            i <= bash@.len(),
            bs == kv(bash@),
            bs == agent@.permission.bash,
            match best {
                Some(b) => b < i && best_pattern(bs, command@, i as int) == b && best_len == bs[b as int].0.len(),
                None => best_pattern(bs, command@, i as int) == -1,
            },
        decreases bash@.len() - i,
    {
        assert(bs[i as int] == (bash@[i as int].0@, bash@[i as int].1));
        let m = matches_bash_pattern(bash[i].0.as_str(), command);
        let len = chars_of(bash[i].0.as_str()).len();
        let better = match best {
            Some(_) => len > best_len,
            None => true,
        };
        if m && better {
            best = Some(i);
            best_len = len;
        }
        i = i + 1;
    }
    match best {
        None => Err(concat_str("No matching bash permission for command: ", command)),
        Some(b) => {
            assert(bs[b as int] == (bash@[b as int].0@, bash@[b as int].1));
            match bash[b].1 {
                Permission::Allow => Ok(()),
                Permission::Deny => Err(concat5("Bash command '", command, "' denied by pattern '", bash[b].0.as_str(), "'")),
                Permission::Ask => Err(owned("Permission request not implemented yet")),
            }
        },
    }
}

/// Decide whether `agent` may run `tool`; `command` is the `command`
/// argument of the call when it has one as a string (see [`tool_decision`]).
pub fn check_tool_permission(agent: &AgentInfo, tool_name: &str, command: Option<&str>) -> (r: Result<(), String>)
    ensures
        match r {
            Ok(()) => tool_decision(agent@, tool_name@, match command {
                Some(c) => Some(c@),
                None => None,
            }) == Ok::<(), Seq<char>>(()),
            Err(m) => tool_decision(agent@, tool_name@, match command {
                Some(c) => Some(c@),
                None => None,
            }) == Err::<(), Seq<char>>(m@),
        },
{
    if !agent.is_tool_enabled(tool_name) {
        return Err(concat5("Tool '", tool_name, "' is not enabled for agent '", agent.name.as_str(), "'"));
    }
    if str_eq(tool_name, "edit") || str_eq(tool_name, "write") {
        if agent.permission.edit == Permission::Deny {
            return Err(owned("Edit permission denied for this agent"));
        }
        return Ok(());
    }
    if str_eq(tool_name, "bash") {
        match command {
            Some(c) => {
                return check_bash_permission(agent, c);
            },
            None => {
                return Ok(());
            },
        }
    }
    Ok(())
}

/// The level named by `s`, compared in lowercase: allow, deny, anything else ask.
pub open spec fn permission_named(s: Seq<char>) -> Permission {
    if lowercase(s) == "allow"@ {
        Permission::Allow
    } else if lowercase(s) == "deny"@ {
        Permission::Deny
    } else {
        Permission::Ask
    }
}

/// Parse a permission level (see [`permission_named`]).
pub fn parse_permission(s: &str) -> (r: Permission)
    ensures
        r == permission_named(s@),
{
    let l = to_lowercase(s);
    if str_eq(l.as_str(), "allow") {
        Permission::Allow
    } else if str_eq(l.as_str(), "deny") {
        Permission::Deny
    } else {
        Permission::Ask
    }
}

pub open spec fn opt_permission(s: Option<String>, d: Option<Permission>) -> Option<Permission> {
    match s {
        Some(x) => Some(permission_named(x@)),
        None => d,
    }
}

/// The permissions described by a permission section: [`default_permissions_view`]
/// with each level that the section gives replaced; a bash level replaces
/// every bash pattern by `*`, a bash map replaces them by its patterns.
pub open spec fn permissions_from(c: PermissionConfig) -> PermView {
    let d = default_permissions_view();
    PermView {
        edit: match c.edit {
            Some(e) => permission_named(e@),
            None => d.edit,
        },
        bash: match c.bash {
            Some(BashPermission::Simple(s)) => seq![("*"@, permission_named(s@))],
            Some(BashPermission::Targeted(m)) => kv2(m@).map_values(
                |e: (Seq<char>, Seq<char>)| (e.0, permission_named(e.1)),
            ),
            None => d.bash,
        },
        webfetch: opt_permission(c.webfetch, d.webfetch),
        doom_loop: opt_permission(c.doom_loop, d.doom_loop),
        external_directory: opt_permission(c.external_directory, d.external_directory),
    }
}

fn opt_parse(s: &Option<String>, d: Option<Permission>) -> (r: Option<Permission>)
    ensures
        r == opt_permission(*s, d),
{
    match s {
        Some(x) => Some(parse_permission(x.as_str())),
        None => d,
    }
}

/// The permissions described by a permission section (see [`permissions_from`]).
pub fn parse_permissions(c: &PermissionConfig) -> (r: AgentPermissions)
    ensures
        r@ == permissions_from(*c),
{
    let d = default_permissions();
    let edit = match &c.edit {
        Some(e) => parse_permission(e.as_str()),
        None => d.edit,
    };
    let bash = match &c.bash {
        Some(BashPermission::Simple(s)) => {
            let mut b: Vec<(String, Permission)> = Vec::new();
            b.push((owned("*"), parse_permission(s.as_str())));
            assert(kv(b@) =~= seq![("*"@, permission_named(s@))]);
            b
        },
        Some(BashPermission::Targeted(m)) => {
            let mut b: Vec<(String, Permission)> = Vec::new();
            let mut i: usize = 0;
            while i < m.len()
                invariant
                    i <= m@.len(),
                    kv(b@) == kv2(m@).take(i as int).map_values(
                        |e: (Seq<char>, Seq<char>)| (e.0, permission_named(e.1)),
                    ),
                decreases m@.len() - i,
            {
                let e = (copy_string(&m[i].0), parse_permission(m[i].1.as_str()));
                let ghost bb = kv(b@);
                b.push(e);
                assert(kv(b@) =~= bb.push((e.0@, e.1)));
                assert(kv(b@) =~= kv2(m@).take(i as int + 1).map_values(
                    |e: (Seq<char>, Seq<char>)| (e.0, permission_named(e.1)),
                ));
                i = i + 1;
            }
            assert(kv2(m@).take(m@.len() as int) =~= kv2(m@));
            b
        },
        None => d.bash,
    };
    AgentPermissions {
        edit,
        bash,
        webfetch: opt_parse(&c.webfetch, d.webfetch),
        doom_loop: opt_parse(&c.doom_loop, d.doom_loop),
        external_directory: opt_parse(&c.external_directory, d.external_directory),
    }
}

impl AgentPermissions {
    /// The permissions of [`default_permissions`].
    pub fn default() -> (r: AgentPermissions)
        ensures
            r@ == default_permissions_view(),
    {
        default_permissions()
    }
}


/// A markdown agent file split into its YAML frontmatter (when it has one)
/// and the prompt that follows.
#[derive(Debug, Clone, PartialEq)]
pub struct MarkdownParts {
    pub frontmatter: Option<String>,
    pub prompt: String,
}

/// How `content` splits into frontmatter and prompt: the trimmed content is
/// all prompt unless it starts with `---`; then the frontmatter runs to the
/// next `---` (trimmed) and the prompt is what follows it (trimmed); with no
/// closing `---` the file is refused.
pub open spec fn markdown_split(content: Seq<char>) -> Result<(Option<Seq<char>>, Seq<char>), Seq<char>> {
    let c = trim(content);
    if !starts_with(c, dashes()) {
        Ok((None, c))
    } else {
        let rest = c.skip(3);
        let e = find(rest, dashes());
        if e < 0 {
            Err("Unclosed frontmatter"@)
        } else {
            Ok((Some(trim(rest.take(e))), trim(rest.skip(e + 3))))
        }
    }
}

pub open spec fn dashes() -> Seq<char> {
    seq!['-', '-', '-']
}

/// Split a markdown agent file (see [`markdown_split`]).
pub fn split_markdown(content: &str) -> (r: Result<MarkdownParts, String>)
    ensures
        match r {
            Ok(p) => markdown_split(content@) == Ok::<(Option<Seq<char>>, Seq<char>), Seq<char>>((ov(p.frontmatter), p.prompt@)),
            Err(m) => markdown_split(content@) == Err::<(Option<Seq<char>>, Seq<char>), Seq<char>>(m@),
        },
{
    let all = chars_of(content);
    let c = crate::text::trim_chars(&all);
    let d = lit("---");
    proof {
        reveal_strlit("---");
        assert(d@ =~= dashes());
    }
    if !has_prefix(&c, &d) {
        return Ok(MarkdownParts { frontmatter: None, prompt: crate::text::string_from_chars(&c) });
    }
    let rest = slice_to_vec(&c, 3, c.len());
    assert(rest@ =~= c@.skip(3));
    match crate::text::find_in(&rest, &d, 0) {
        None => Err(owned("Unclosed frontmatter")),
        Some(e) => {
            proof {
                crate::text::lemma_find_from(rest@, d@, 0);
                assert(crate::text::occurs_at(rest@, d@, e as int));
                assert(rest@.len() == rest.len());
            }
            let y = slice_to_vec(&rest, 0, e);
            let p = slice_to_vec(&rest, e + 3, rest.len());
            assert(y@ =~= rest@.take(e as int));
            assert(p@ =~= rest@.skip(e + 3));
            let yt = crate::text::trim_chars(&y);
            let pt = crate::text::trim_chars(&p);
            Ok(MarkdownParts {
                frontmatter: Some(crate::text::string_from_chars(&yt)),
                prompt: crate::text::string_from_chars(&pt),
            })
        },
    }
}

/// The mode named in a frontmatter: subagent, primary, anything else all.
pub open spec fn mode_named(s: Seq<char>) -> AgentMode {
    if s == "subagent"@ {
        AgentMode::Subagent
    } else if s == "primary"@ {
        AgentMode::Primary
    } else {
        AgentMode::All
    }
}

/// The agent that a markdown file named `name` describes: a custom agent
/// (see [`AgentInfo::new`]) with the description, mode, sampling parameters,
/// color, tool overrides and permissions that its frontmatter gives, and the
/// prompt as system prompt when it holds more than whitespace.
pub open spec fn agent_from_file(name: Seq<char>, fm: AgentConfig, prompt: Seq<char>) -> AgentView {
    AgentView {
        name: name,
        description: ov(fm.description),
        mode: match fm.mode {
            Some(m) => mode_named(m@),
            None => AgentMode::All,
        },
        built_in: false,
        temperature_bits: fm.temperature_bits,
        top_p_bits: fm.top_p_bits,
        color: ov(fm.color),
        permission: match fm.permission {
            Some(p) => permissions_from(p),
            None => default_permissions_view(),
        },
        model: None,
        prompt: if trim(prompt).len() > 0 {
            Some(prompt)
        } else {
            None
        },
        tools: match fm.tools {
            Some(t) => kv(t@),
            None => Seq::<(Seq<char>, bool)>::empty(),
        },
        options: Seq::<(Seq<char>, Seq<char>)>::empty(),
    }
}

/// Build the agent that a markdown file describes (see [`agent_from_file`]).
pub fn build_agent_from_file(name: &str, fm: &AgentConfig, prompt: &str) -> (r: AgentInfo)
    ensures
        r@ == agent_from_file(name@, *fm, prompt@),
{
    let mut a = AgentInfo::new(name);
    a.description = copy_opt(&fm.description);
    match &fm.mode {
        Some(m) => {
            a.mode = if str_eq(m.as_str(), "subagent") {
                AgentMode::Subagent
            } else if str_eq(m.as_str(), "primary") {
                AgentMode::Primary
            } else {
                AgentMode::All
            };
        },
        None => {},
    }
    a.temperature_bits = fm.temperature_bits;
    a.top_p_bits = fm.top_p_bits;
    a.color = copy_opt(&fm.color);
    match &fm.tools {
        Some(t) => {
            let mut tools: Vec<(String, bool)> = Vec::new();
            let mut i: usize = 0;
            while i < t.len()
                invariant
                    i <= t@.len(),
                    kv(tools@) == kv(t@).take(i as int),
                decreases t@.len() - i,
            {
                let e = (copy_string(&t[i].0), t[i].1);
                let ghost b = kv(tools@);
                tools.push(e);
                assert(kv(tools@) =~= b.push((e.0@, e.1)));
                assert(kv(tools@) =~= kv(t@).take(i as int + 1));
                i = i + 1;
            }
            assert(kv(t@).take(t@.len() as int) =~= kv(t@));
            a.tools = tools;
        },
        None => {},
    }
    match &fm.permission {
        Some(p) => {
            a.permission = parse_permissions(p);
        },
        None => {},
    }
    let pc = chars_of(prompt);
    let pt = crate::text::trim_chars(&pc);
    if pt.len() > 0 {
        a.prompt = Some(owned(prompt));
    }
    assert(a@.options =~= Seq::<(Seq<char>, Seq<char>)>::empty());
    proof {
        if fm.tools is None {
            assert(a@.tools =~= Seq::<(Seq<char>, bool)>::empty());
        }
    }
    a
}

/// Permission levels are named in any case: a name whose lowercase is
/// `deny` denies, one whose lowercase is `allow` allows, any other asks.
pub proof fn law_permission_names(s: Seq<char>)
    ensures
        lowercase(s) == "deny"@ ==> permission_named(s) == Permission::Deny,
        lowercase(s) == "allow"@ ==> permission_named(s) == Permission::Allow,
        lowercase(s) != "deny"@ && lowercase(s) != "allow"@ ==> permission_named(s) == Permission::Ask,
{
    reveal_strlit("deny");
    reveal_strlit("allow");
    assert("deny"@ != "allow"@) by {
        assert("deny"@[0] != "allow"@[0]);
    }
}

/// An agent whose permission section says `edit: deny` (in any case) has
/// its edit and write calls refused, whatever else it allows.
pub proof fn law_denied_edit_refused(agent: AgentView, c: PermissionConfig, command: Option<Seq<char>>)
    requires
        agent.permission == permissions_from(c),
        c.edit matches Some(e) && lowercase(e@) == "deny"@,
    ensures
        tool_decision(agent, "edit"@, command) is Err,
        tool_decision(agent, "write"@, command) is Err,
{
    law_permission_names(c.edit->0@);
}

} // verus!
