//! Ticket decomposition, dependency graphs and planning helpers.
pub mod text;
pub mod ids;
pub mod digest;
pub mod reach;
pub mod ticket;
pub mod tui;
pub mod types;
pub mod story;
pub mod mock;
pub mod qa;
pub mod planner;
pub mod nav;
pub mod screens;
pub mod prompts;
pub mod reply;
pub mod adventure;
pub mod engines;
pub mod saves;
pub mod tree_view;
pub mod frame;
pub mod ticket_actions;
pub mod project_screens;
