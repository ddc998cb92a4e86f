//! The part of a code editor that decides: what a key means, where a view
//! scrolls to, what a transcript looks like once wrapped, what a session file
//! says. Windows, files, clocks and child processes stay with the program
//! around it.
pub mod action;
pub mod agent;
pub mod agent_laws;
pub mod agent_pane;
pub mod agent_view;
pub mod calendar;
pub mod clipboard;
pub mod content;
pub mod desk;
pub mod desk_laws;
pub mod desk_steps;
pub mod dialog;
pub mod dialog_view;
pub mod editor_view;
pub mod folders;
pub mod git;
pub mod git_view;
pub mod help;
pub mod keys;
pub mod lsp;
pub mod mouse;
pub mod palette;
pub mod palette_view;
pub mod panes;
pub mod path;
pub mod places;
pub mod pointer;
pub mod pomodoro;
pub mod scroll;
pub mod session;
pub mod settings_view;
pub mod start;
pub mod status;
pub mod terminal_view;
pub mod text;
pub mod tick;
pub mod transcript;
pub mod tree_view;
pub mod vim;
pub mod welcome_view;
pub mod window;
