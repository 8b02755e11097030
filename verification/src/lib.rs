//! Turning NADI markdown documents into Typst: the code blocks that hold
//! NADI tasks, tables and string templates are found and prepared for a run,
//! and the resulting markdown events are rendered as Typst markup.
pub mod code_args;
pub mod code_run;
pub mod dates;
pub mod events;
pub mod nadi;
pub mod scan;
pub mod template;
pub mod text;
pub mod typst;
