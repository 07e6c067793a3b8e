//! Lyric processing: ASS parsing and generation, KRC output, the AMLL player
//! protocol and connector, lyric search, settings, and the rules of the desktop
//! application built on them.

pub mod amll_connector;
pub mod amll_lyrics_fetcher;
pub mod app_actions;
pub mod app_definition;
pub mod app_event_laws;
pub mod app_events;
pub mod app_fetch_core;
pub mod app_handlers;
pub mod app_settings;
pub mod app_ui;
pub mod app_update;
pub mod ass_event_laws;
pub mod ass_field_laws;
pub mod ass_file_laws;
pub mod ass_generator;
pub mod ass_laws;
pub mod ass_line_laws;
pub mod ass_load_laws;
pub mod ass_parser;
pub mod ass_reading_laws;
pub mod ass_writing_laws;
pub mod chinese_conversion_processor;
pub mod format_laws;
pub mod formats;
pub mod ini_file;
pub mod io;
pub mod json_laws;
pub mod json_parser;
pub mod krc_generator;
pub mod krc_laws;
pub mod lyrics_action_laws;
pub mod search_laws;
pub mod settings_laws;
pub mod settings_reading_laws;
pub mod text;
pub mod text_laws;
pub mod types;
pub mod ui_laws;
