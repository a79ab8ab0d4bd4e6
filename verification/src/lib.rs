//! Agents panel, agent navigation, navigation preview and focus history of a
//! terminal multiplexer's client shell.
pub mod model;
pub mod agent_groups;
pub mod endpoint_agents;
pub mod shell;
pub mod last_targets;
pub mod navigation_preview;
pub mod agent_navigation;
