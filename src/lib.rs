//! Production metrics for screenplays written in markdown: a title, word
//! counts, and runtime estimates derived in one pass over the document's
//! structural events.
pub mod duration;
pub mod events;
pub mod report;
pub mod script;
pub mod words;

pub use duration::{seconds_to_human_shorthand_duration, word_count_to_seconds};
pub use events::MdEvent;
pub use report::{initial_script_text, validate_command_is_running_inside_visen_project, ScriptError};
pub use script::{add_quote_seconds, build_script, script_from_events, Script};
