pub mod text;
pub mod settings;
pub mod prompt;
pub mod sanitize;
pub mod order;
pub mod json;
pub mod codec;
pub mod completion;
pub mod stt;
pub mod session;
pub mod hotkeys;
pub mod engine;
pub mod keyterms;
pub mod autolearn;
pub mod shell;
pub mod vault;
pub mod focus;
pub mod dictionary;
