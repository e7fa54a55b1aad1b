//! Verified core of a language server for WXML/WXSS mini-program sources.

pub mod backend_config;
pub mod client;
pub mod completion;
pub mod encoding;
pub mod file_content;
pub mod folding;
pub mod hover;
pub mod import_walk;
pub mod logger;
pub mod name_set;
pub mod paths;
pub mod position;
pub mod semantic;
pub mod symbol;
pub mod text;
pub mod wxml;
pub mod wxml_parse;
pub mod wxml_completion;
pub mod wxml_match;
pub mod wxml_outline;
pub mod wxml_semantic;
pub mod wxml_utils;
pub mod wxss;
pub mod wxss_utils;
