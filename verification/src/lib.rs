//! Verified decision logic of the Bewegungskrieg desktop shell and computer opponent.
pub mod text;
pub mod diagnostics;
pub mod url_model;
pub mod shell;
pub mod runtime_script;
pub mod navigation;
pub mod ai;
pub mod fullscreen;
pub mod cursor_capture;
