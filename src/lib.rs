pub mod text;
pub mod schemas;
pub mod layout;
pub mod ast;
pub mod selector;
pub mod vss_parser;
pub mod vsml;
pub mod pre_style;
pub mod args;
pub mod frames;
pub mod audio;
pub mod number;
pub mod style;
