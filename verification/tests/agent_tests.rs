use crow_core::agent::{get_builtin_agents, check_bash_permission, check_tool_permission, matches_bash_pattern, AgentInfo, AgentMode, AgentRegistry, Permission};

#[test]
fn test_builtin_agents_count() {
    let agents = get_builtin_agents();
    assert_eq!(agents.len(), 7);
}

#[test]
fn test_general_agent() {
    let agents = get_builtin_agents();
    let general = agents.get("general").unwrap();
    assert!(general.built_in);
    assert_eq!(general.mode, AgentMode::Subagent);
    assert!(!general.is_tool_enabled("todowrite"));
    assert!(!general.is_tool_enabled("todoread"));
}

#[test]
fn test_build_agent() {
    let agents = get_builtin_agents();
    let build = agents.get("build").unwrap();
    assert!(build.built_in);
    assert_eq!(build.mode, AgentMode::Primary);
    assert!(build.is_primary());
}

#[test]
fn test_plan_agent_permissions() {
    let agents = get_builtin_agents();
    let plan = agents.get("plan").unwrap();
    assert_eq!(plan.permission.edit, Permission::Deny);
    assert_eq!(plan.mode, AgentMode::Primary);
}

#[test]
fn test_executor_agent() {
    let agents = get_builtin_agents();
    let executor = agents.get("executor").unwrap();
    assert!(executor.built_in);
    assert_eq!(executor.mode, AgentMode::Subagent);
    assert!(!executor.is_tool_enabled("task"));
    assert!(!executor.is_tool_enabled("task_complete"));
    assert!(executor.is_tool_enabled("todowrite"));
    assert!(executor.is_tool_enabled("todoread"));
}

#[test]
fn test_arbiter_agent() {
    let agents = get_builtin_agents();
    let arbiter = agents.get("arbiter").unwrap();
    assert!(arbiter.built_in);
    assert_eq!(arbiter.mode, AgentMode::Subagent);
    assert!(!arbiter.is_tool_enabled("task"));
    assert!(arbiter.is_tool_enabled("task_complete"));
    assert!(arbiter.is_tool_enabled("todowrite"));
    assert!(arbiter.is_tool_enabled("todoread"));
    assert!(arbiter.prompt.is_some());
    assert_eq!(arbiter.temperature_bits.map(f32::from_bits), Some(0.3));
}

#[test]
fn test_planner_agent() {
    let agents = get_builtin_agents();
    let planner = agents.get("planner").unwrap();
    assert!(planner.built_in);
    assert_eq!(planner.mode, AgentMode::Primary);
    assert!(!planner.is_tool_enabled("task"));
    assert!(!planner.is_tool_enabled("task_complete"));
    assert!(planner.is_tool_enabled("todowrite"));
    assert!(planner.is_tool_enabled("todoread"));
}

#[test]
fn test_architect_agent() {
    let agents = get_builtin_agents();
    let architect = agents.get("architect").unwrap();
    assert!(architect.built_in);
    assert_eq!(architect.mode, AgentMode::Primary);
    assert!(!architect.is_tool_enabled("task"));
    assert!(architect.is_tool_enabled("task_complete"));
    assert!(architect.is_tool_enabled("todowrite"));
    assert!(architect.is_tool_enabled("todoread"));
    assert!(architect.prompt.is_some());
    assert_eq!(architect.temperature_bits.map(f32::from_bits), Some(0.3));
}

#[test]
fn registry_refuses_to_remove_builtin_agent() {
    let mut registry = AgentRegistry::new();
    let before = registry.count();
    let err = registry.unregister("build").unwrap_err();
    assert_eq!(err, "Cannot remove built-in agent: build");
    assert_eq!(registry.count(), before);
    assert!(registry.has_agent("build"));
}

#[test]
fn registry_lists_subagents_and_primaries() {
    let registry = AgentRegistry::new();
    let subs: Vec<String> = registry.get_subagents().into_iter().map(|a| a.name).collect();
    assert!(subs.contains(&"general".to_string()));
    assert!(subs.contains(&"arbiter".to_string()));
    assert!(!subs.contains(&"build".to_string()));
    let prims: Vec<String> = registry.get_primary_agents().into_iter().map(|a| a.name).collect();
    assert!(prims.contains(&"build".to_string()));
    assert!(!prims.contains(&"general".to_string()));
}

#[test]
fn plan_agent_cannot_edit() {
    let agents = get_builtin_agents();
    let plan = agents.get("plan").unwrap();
    let r = check_tool_permission(plan, "edit", None);
    assert_eq!(r, Err("Edit permission denied for this agent".to_string()));
}

#[test]
fn disabled_tool_is_refused() {
    let agents = get_builtin_agents();
    let general = agents.get("general").unwrap();
    let r = check_tool_permission(general, "todowrite", None);
    assert_eq!(r, Err("Tool 'todowrite' is not enabled for agent 'general'".to_string()));
}

#[test]
fn test_get_agent() {
    let registry = AgentRegistry::new();
    let agent = registry.get("build");
    assert!(agent.is_some());
    assert_eq!(agent.unwrap().name, "build");
}

#[test]
fn test_get_nonexistent_agent() {
    let registry = AgentRegistry::new();
    let agent = registry.get("nonexistent");
    assert!(agent.is_none());
}

#[test]
fn test_cannot_remove_builtin() {
    let mut registry = AgentRegistry::new();
    let result = registry.unregister("build");
    assert!(result.is_err());
}

#[test]
fn test_can_remove_custom() {
    let mut registry = AgentRegistry::new();
    let custom = AgentInfo::new("custom");
    registry.register(custom);
    let result = registry.unregister("custom");
    assert!(result.is_ok());
    let exists = registry.has_agent("custom");
    assert!(!exists);
}

#[test]
fn test_registry_creation() {
    let registry = AgentRegistry::new();
    assert_eq!(registry.count(), 4);
}

#[test]
fn test_get_primary_agents() {
    let registry = AgentRegistry::new();
    let primary = registry.get_primary_agents();
    assert_eq!(primary.len(), 2);
    let names: Vec<String> = primary.iter().map(|a| a.name.clone()).collect();
    assert!(names.contains(&"build".to_string()));
    assert!(names.contains(&"plan".to_string()));
}

#[test]
fn test_get_subagents() {
    let registry = AgentRegistry::new();
    let subagents = registry.get_subagents();
    assert_eq!(subagents.len(), 2);
    let names: Vec<String> = subagents.iter().map(|a| a.name.clone()).collect();
    assert!(names.contains(&"general".to_string()));
    assert!(names.contains(&"arbiter".to_string()));
}

#[test]
fn test_register_custom_agent() {
    let mut registry = AgentRegistry::new();
    registry.register(AgentInfo::new("custom-agent"));
    assert_eq!(registry.count(), 5);
    assert!(registry.get("custom-agent").is_some());
}

#[test]
fn test_list_ids() {
    let registry = AgentRegistry::new();
    let ids = registry.list_ids();
    assert_eq!(ids.len(), 4);
    for name in ["general", "build", "plan", "arbiter"] {
        assert!(ids.contains(&name.to_string()));
    }
}

#[test]
fn loaded_registry_has_every_builtin_agent() {
    let registry = AgentRegistry::with_loaded_agents(Vec::new(), Vec::new());
    assert_eq!(registry.count(), 7);
    assert!(registry.has_agent("executor"));
    assert!(registry.has_agent("architect"));
}

#[test]
fn only_verifiers_can_complete_tasks() {
    for (name, agent) in get_builtin_agents().values().iter().map(|a| (a.name.clone(), a)) {
        assert_eq!(agent.is_tool_enabled("task_complete"), name == "arbiter" || name == "architect", "{}", name);
    }
}

#[test]
fn default_permissions_allow_everything() {
    let p = crow_core::agent::default_permissions();
    assert_eq!(p.edit, Permission::Allow);
    assert_eq!(p.webfetch, Some(Permission::Allow));
    assert_eq!(p.doom_loop, Some(Permission::Allow));
    assert_eq!(p.external_directory, Some(Permission::Allow));
}

#[test]
fn registered_agent_is_counted_and_listed() {
    let mut registry = AgentRegistry::new();
    let before = registry.count();
    registry.register(AgentInfo::new("custom-agent"));
    assert_eq!(registry.count(), before + 1);
    assert!(registry.get("custom-agent").is_some());
    let ids = registry.list_ids();
    assert_eq!(ids.len(), before + 1);
    for name in ["general", "build", "plan", "arbiter"] {
        assert!(ids.contains(&name.to_string()));
    }
}

#[test]
fn bash_patterns_support_inner_wildcards() {
    assert!(matches_bash_pattern("find * -delete*", "find . -delete"));
    assert!(matches_bash_pattern("git diff*", "git diff HEAD"));
    assert!(!matches_bash_pattern("git branch", "git branch -v"));
    assert!(matches_bash_pattern("*", "rm -rf /"));
}

#[test]
fn plan_agent_bash_whitelist_uses_the_most_specific_pattern() {
    let agents = get_builtin_agents();
    let plan = agents.get("plan").unwrap();
    assert_eq!(check_bash_permission(plan, "ls -la"), Ok(()));
    assert!(check_bash_permission(plan, "find . -delete").is_err());
    assert!(check_bash_permission(plan, "rm -rf /").is_err());
}
