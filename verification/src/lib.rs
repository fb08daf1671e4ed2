pub mod ai_config;
pub mod ai_context;
pub mod ai_reply;
pub mod ai_request;
pub mod ai_run;
pub mod ai_runtime;
pub mod base64_text;
pub mod base_url;
pub mod checks;
pub mod command;
pub mod config;
pub mod failure;
pub mod json;
pub mod markdown;
pub mod markup;
pub mod number;
pub mod outgoing;
pub mod plugin;
pub mod prompt;
pub mod provider_error;
pub mod quote;
pub mod quote_archive;
pub mod quote_media;
pub mod quote_payload;
pub mod quote_render;
pub mod rich;
pub mod scan;
pub mod session_import;
pub mod session_login;
pub mod settings;
pub mod split;
pub mod store;
pub mod text;
pub mod updates;
