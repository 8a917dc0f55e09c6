pub mod text;
pub mod osc;
pub mod pty;
pub mod platform;
pub mod keys;
pub mod input;
pub mod keybindings;
pub mod split;
pub mod tabs;
pub mod search;
pub mod links;
pub mod config;
pub mod terminal_setup;
pub mod mouse;
pub mod clipboard;
pub mod profiler;
pub mod layout;
pub mod tab_strip;
pub mod scene;
pub mod glyph_cache;
pub mod menu;
pub mod window_state;
pub mod tab_bar;
pub mod frame;
pub mod cli;
pub mod renderer;
pub mod config_tree;
pub mod overlays;
pub mod timers;
pub mod pointer;
pub mod terminal_events;
