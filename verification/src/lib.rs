//! The verified core of a terminal session manager: every decision the program takes about
//! sessions, panes, keys, notifications, worktrees and colours, stated in contracts and proved.

pub mod app;
pub mod cells;
pub mod editor;
pub mod hashing;
pub mod host_terminal;
pub mod input;
pub mod inspector;
pub mod lifecycle;
pub mod mux;
pub mod mux_input;
pub mod notifications;
pub mod panels;
pub mod paste;
pub mod paths;
pub mod restart;
pub mod run_loop;
pub mod scratchpad;
pub mod screenshots;
pub mod session;
pub mod snippets;
pub mod startup;
pub mod strings;
pub mod terminal_pane;
pub mod text;
pub mod theme;
