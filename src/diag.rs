use vstd::prelude::*;
use typst_syntax::Span;

verus! {

/// Relies on typst_syntax::Span, a location in the document's source: it is
/// carried into diagnostics unopened, and nothing is assumed of its contents.
#[verifier::external_type_specification]
#[verifier::external_body]
pub struct ExSpan(typst_syntax::Span);

/// Why a playback did not take place.
#[derive(Clone, Copy, Debug, PartialEq, Eq, Structural)]
pub enum Failure {
    /// The requested voice is not one of the model's voices.
    VoiceNotFound,
    /// The speech model or its voice bank could not be loaded.
    ModelUnavailable,
    /// The text could not be turned into speech.
    SynthesisFailed,
    /// The sound could not be decoded, or no output device was available.
    PlaybackFailed,
}

/// The message of the diagnostic reported for `failure`, where `voice` is the
/// voice name that the document asked for.
pub open spec fn failure_message(failure: Failure, voice: Seq<char>) -> Seq<char> {
    match failure {
        Failure::VoiceNotFound => "Voice "@ + voice + " not found"@,
        Failure::ModelUnavailable => "failed to load speech model"@,
        Failure::SynthesisFailed => "failed to synthesize speech"@,
        Failure::PlaybackFailed => "failed to play audio"@,
    }
}

/// An error attached to a place in the document.
#[derive(Debug)]
pub struct Diagnostic {
    pub span: Span,
    pub message: String,
    /// What the underlying library reported, where it reported anything.
    pub detail: Option<String>,
}

/// The diagnostic for `failure` at `span`. `voice` is the voice name that was
/// asked for and `detail` the underlying error's text, kept as it is.
pub fn diagnose(failure: Failure, span: Span, voice: &str, detail: Option<String>) -> (d: Diagnostic)
    ensures
        d.span == span,
        d.message@ == failure_message(failure, voice@),
        d.detail == detail,
{
    let message = match failure {
        Failure::VoiceNotFound => {
            let mut m = String::from_str("Voice ");
            m.append(voice);
            m.append(" not found");
            m
        },
        Failure::ModelUnavailable => String::from_str("failed to load speech model"),
        Failure::SynthesisFailed => String::from_str("failed to synthesize speech"),
        Failure::PlaybackFailed => String::from_str("failed to play audio"),
    };
    Diagnostic { span, message, detail }
}

} // verus!
