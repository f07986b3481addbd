//! Verified core logic of the Melody Discord bot: command-line parsing,
//! the Connect-Four engine, dice-roll parsing, templates and assorted
//! string utilities.
pub mod text;
pub mod chance;
pub mod split;
pub mod melody_commander;
pub mod num;
pub mod commander;
pub mod clock;
pub mod connect_four;
pub mod connect_four_replies;
pub mod dice_roll;
pub mod dice_text;
pub mod cleverbot;
pub mod feeds;
pub mod feeds_replies;
pub mod feed_config;
pub mod feed_entries;
pub mod roles;
pub mod guild_roles;
pub mod activities;
pub mod console;
pub mod console_reply;
pub mod input_agent;
pub mod console_step;
pub mod youtube;
pub mod flag;
pub mod terminal;
pub mod cacheable;
pub mod blueprint;
pub mod blueprint_args;
pub mod help;
pub mod help_reply;
pub mod markup;
pub mod feed_queue;
pub mod music;
pub mod music_replies;
pub mod pages;
pub mod chains;
pub mod emoji_stats;
pub mod persist;
pub mod build_id;
pub mod timer;
pub mod rate_window;
pub mod troll;
pub mod framework_reply;
pub mod chess_board;
