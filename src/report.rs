//! Texts made from a screenplay's metrics, and the project's error type.
use vstd::prelude::*;

use crate::duration::{
    decimal, decimal_string, seconds_to_human_shorthand_duration, shorthand, spoken_seconds,
    word_count_to_seconds,
};
use crate::events::{html_of, markdown_to_html};
use crate::script::{clamp, Script};

verus! {

/// `std::io::Error`, carried opaquely inside `ScriptError`.
#[verifier::external_type_specification]
#[verifier::external_body]
pub struct ExIoError(std::io::Error);

/// Relies on `std::io::Error::new`: an error of kind `NotFound` carrying `message`.
#[verifier::external_body]
fn not_found_error(message: &str) -> (r: std::io::Error) {
    std::io::Error::new(std::io::ErrorKind::NotFound, message)
}

/// The errors of a screenplay project.
#[derive(Debug)]
pub enum ScriptError {
    Io(std::io::Error),
}

impl From<std::io::Error> for ScriptError {
    fn from(err: std::io::Error) -> (r: ScriptError)
        ensures
            r == ScriptError::Io(err),
    {
        ScriptError::Io(err)
    }
}

impl vstd::std_specs::convert::FromSpecImpl<std::io::Error> for ScriptError {
    open spec fn obeys_from_spec() -> bool {
        true
    }

    open spec fn from_spec(v: std::io::Error) -> ScriptError {
        ScriptError::Io(v)
    }
}

/// Succeeds exactly where the project's marker file (`.visenrc`) was found in
/// the working directory; otherwise a `NotFound` I/O error.
pub fn validate_command_is_running_inside_visen_project(marker_found: bool) -> (r: Result<
    (),
    ScriptError,
>)
    ensures
        r is Ok <==> marker_found,
{
    if marker_found {
        Ok(())
    } else {
        Err(
            ScriptError::Io(
                not_found_error(".visenrc file not found. Are you sure you're in a visen project?"),
            ),
        )
    }
}

/// The text of a new project's screenplay: a level-1 heading with the project's name.
pub open spec fn initial_script(name: Seq<char>) -> Seq<char> {
    "# "@ + name + "\n\n"@
}

/// Writes the text of a new project's screenplay.
pub fn initial_script_text(project_name: &str) -> (r: String)
    ensures
        r@ == initial_script(project_name@),
{
    let mut out = String::new();
    out.append("# ");
    out.append(project_name);
    out.append("\n\n");
    out
}

/// The seconds of dialogue: the dialogue words at 2.5 seconds each.
pub open spec fn dialogue_seconds(s: Script) -> u64 {
    clamp(spoken_seconds(s.dialogue_word_count as nat))
}

/// The seconds of the whole screenplay: blocked time plus dialogue, at most `u64::MAX`.
pub open spec fn runtime_seconds(s: Script) -> u64 {
    clamp((s.blocked_seconds + dialogue_seconds(s)) as nat)
}

/// The summary printed for a screenplay.
pub open spec fn summary_of(s: Script) -> Seq<char> {
    "\n\""@ + s.title@ + "\"\nEstimated runtime: "@ + shorthand(runtime_seconds(s) as nat)
        + "\nEstimated dialogue time: "@ + shorthand(dialogue_seconds(s) as nat)
        + "\nWord count (dialogue): "@ + decimal(s.dialogue_word_count as nat)
        + "\nWord count (total): "@ + decimal(s.word_count as nat) + "\n"@
}

/// The README written for a screenplay.
pub open spec fn readme_of(s: Script) -> Seq<char> {
    "# "@ + s.title@ + "\n\nEstimated runtime: "@ + shorthand(runtime_seconds(s) as nat)
        + "\n\nWord count (dialogue): "@ + decimal(s.dialogue_word_count as nat)
        + "\n\nWord count (total): "@ + decimal(s.word_count as nat) + "\n"@
}

impl Script {
    /// Estimated seconds of dialogue.
    pub fn dialogue_seconds(&self) -> (r: u64)
        ensures
            r == dialogue_seconds(*self),
    {
        word_count_to_seconds(self.dialogue_word_count)
    }

    /// Estimated seconds of the whole screenplay.
    pub fn runtime_seconds(&self) -> (r: u64)
        ensures
            r == runtime_seconds(*self),
    {
        self.blocked_seconds.saturating_add(self.dialogue_seconds())
    }

    /// The summary: title, estimated runtime and dialogue time, and word counts.
    pub fn summary(&self) -> (r: String)
        ensures
            r@ == summary_of(*self),
    {
        let runtime = seconds_to_human_shorthand_duration(self.runtime_seconds());
        let dialogue = seconds_to_human_shorthand_duration(self.dialogue_seconds());
        let dialogue_words = decimal_string(self.dialogue_word_count);
        let words = decimal_string(self.word_count);
        let mut out = String::new();
        out.append("\n\"");
        out.append(self.title.as_str());
        out.append("\"\nEstimated runtime: ");
        out.append(runtime.as_str());
        out.append("\nEstimated dialogue time: ");
        out.append(dialogue.as_str());
        out.append("\nWord count (dialogue): ");
        out.append(dialogue_words.as_str());
        out.append("\nWord count (total): ");
        out.append(words.as_str());
        out.append("\n");
        out
    }

    /// The README: title, estimated runtime and word counts, in markdown.
    pub fn readme(&self) -> (r: String)
        ensures
            r@ == readme_of(*self),
    {
        let runtime = seconds_to_human_shorthand_duration(self.runtime_seconds());
        let dialogue_words = decimal_string(self.dialogue_word_count);
        let words = decimal_string(self.word_count);
        let mut out = String::new();
        out.append("# ");
        out.append(self.title.as_str());
        out.append("\n\nEstimated runtime: ");
        out.append(runtime.as_str());
        out.append("\n\nWord count (dialogue): ");
        out.append(dialogue_words.as_str());
        out.append("\n\nWord count (total): ");
        out.append(words.as_str());
        out.append("\n");
        out
    }

    /// The document rendered as HTML.
    pub fn html(&self) -> (r: String)
        ensures
            r@ == html_of(self.text@),
    {
        markdown_to_html(self.text.as_str())
    }
}

} // verus!
