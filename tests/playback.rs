use typst_audio::{Action, Diagnostic, Failure, Material, Session, Stage, VoiceId, diagnose, parse_voice};
use typst_syntax::Span;

/// Drives a session, reporting each action's outcome from `outcomes` in turn,
/// and returns every action given, the first one included.
fn drive(first: Action, mut session: Session, outcomes: &[bool]) -> Vec<Action> {
    let mut actions = vec![first];
    for &ok in outcomes {
        if session.is_finished() {
            break;
        }
        actions.push(session.step(ok));
    }
    actions
}

fn passes(actions: &[Action]) -> Vec<usize> {
    actions
        .iter()
        .filter_map(|a| match a {
            Action::Append(i) => Some(*i),
            _ => None,
        })
        .collect()
}

#[test]
fn parses_mandarin_voices() {
    assert_eq!(parse_voice("Zm064"), Some(VoiceId::Mandarin(64)));
    assert_eq!(parse_voice("Zf001"), Some(VoiceId::Mandarin(1)));
    assert_eq!(parse_voice("Zf099"), Some(VoiceId::Mandarin(99)));
    assert_eq!(parse_voice("Zm100"), Some(VoiceId::Mandarin(100)));
    assert_eq!(parse_voice("Zm009"), Some(VoiceId::Mandarin(9)));
}

#[test]
fn parses_english_voices() {
    assert_eq!(parse_voice("AfMaple"), Some(VoiceId::AfMaple));
    assert_eq!(parse_voice("AfSol"), Some(VoiceId::AfSol));
    assert_eq!(parse_voice("BfVale"), Some(VoiceId::BfVale));
}

#[test]
fn rejects_unknown_voices() {
    for name in [
        "NoSuchVoice", "", "zm064", "Zf064", "Zm001", "Zm000", "Zf000", "Zm101", "Zm64", "Zm0640",
        "Zx064", "Zm06a", "afmaple", "AfMaple ", "AfSo", "Zm1000",
    ] {
        assert_eq!(parse_voice(name), None, "{name}");
    }
}

#[test]
fn every_voice_name_resolves_to_its_voice() {
    let mut voices = vec![VoiceId::AfMaple, VoiceId::AfSol, VoiceId::BfVale];
    voices.extend((1..=100u8).map(VoiceId::Mandarin));
    for v in voices {
        let name = v.name();
        assert_eq!(parse_voice(&name), Some(v), "{name}");
    }
}

#[test]
fn mandarin_names_carry_speaker_gender() {
    assert_eq!(VoiceId::Mandarin(1).name(), "Zf001");
    assert_eq!(VoiceId::Mandarin(9).name(), "Zm009");
    assert_eq!(VoiceId::Mandarin(64).name(), "Zm064");
    assert_eq!(VoiceId::Mandarin(79).name(), "Zf079");
    assert_eq!(VoiceId::Mandarin(100).name(), "Zm100");
    assert_eq!(VoiceId::AfMaple.name(), "AfMaple");
    let female = (1..=100u8)
        .filter(|&n| VoiceId::Mandarin(n).name().starts_with("Zf"))
        .count();
    assert_eq!(female, 55);
}

#[test]
fn default_voice_is_zm064() {
    assert_eq!(VoiceId::default(), VoiceId::Mandarin(64));
    assert_eq!(VoiceId::default().name(), "Zm064");
}

#[test]
fn speech_in_a_known_voice_starts_by_loading_the_model() {
    let (session, first) = Session::speech("Zm064", 1).expect("Zm064 is a voice");
    assert_eq!(first, Action::LoadModel);
    assert_eq!(session.material, Material::Speech(VoiceId::Mandarin(64)));
    assert_eq!(session.stage, Stage::LoadingModel);
}

#[test]
fn speech_in_an_unknown_voice_is_refused() {
    let failure = Session::speech("NoSuchVoice", 1).unwrap_err();
    assert_eq!(failure, Failure::VoiceNotFound);
    let d: Diagnostic = diagnose(failure, Span::detached(), "NoSuchVoice", None);
    assert!(d.message.contains("Voice NoSuchVoice not found"));
    assert_eq!(d.message, "Voice NoSuchVoice not found");
    assert_eq!(d.detail, None);
    assert_eq!(d.span, Span::detached());
}

#[test]
fn speech_plays_exactly_count_passes() {
    let (session, first) = Session::speech("Zf001", 3).unwrap();
    let actions = drive(first, session, &[true; 20]);
    assert_eq!(
        actions,
        vec![
            Action::LoadModel,
            Action::Synthesize(VoiceId::Mandarin(1)),
            Action::OpenOutput,
            Action::Append(0),
            Action::Append(1),
            Action::Append(2),
            Action::WaitUntilEnd,
            Action::Finish,
        ]
    );
    assert_eq!(passes(&actions), vec![0, 1, 2]);
}

#[test]
fn speech_with_count_one_and_zero() {
    let (session, first) = Session::speech("AfSol", 1).unwrap();
    assert_eq!(passes(&drive(first, session, &[true; 10])), vec![0]);
    let (session, first) = Session::speech("AfSol", 0).unwrap();
    let actions = drive(first, session, &[true; 10]);
    assert!(passes(&actions).is_empty());
    assert_eq!(actions.last(), Some(&Action::Finish));
}

#[test]
fn speech_failures_by_stage() {
    let (session, first) = Session::speech("Zm064", 2).unwrap();
    let actions = drive(first, session, &[false]);
    assert_eq!(actions, vec![Action::LoadModel, Action::Fail(Failure::ModelUnavailable)]);

    let (session, first) = Session::speech("Zm064", 2).unwrap();
    let actions = drive(first, session, &[true, false]);
    assert_eq!(actions.last(), Some(&Action::Fail(Failure::SynthesisFailed)));

    let (session, first) = Session::speech("Zm064", 2).unwrap();
    let actions = drive(first, session, &[true, true, false]);
    assert_eq!(actions.last(), Some(&Action::Fail(Failure::PlaybackFailed)));
    assert!(passes(&actions).is_empty());
}

#[test]
fn recording_plays_once_when_every_step_succeeds() {
    let (session, first) = Session::recording();
    let actions = drive(first, session, &[true; 10]);
    assert_eq!(
        actions,
        vec![
            Action::Decode,
            Action::OpenOutput,
            Action::Append(0),
            Action::WaitUntilEnd,
            Action::Finish,
        ]
    );
    assert!(!actions.iter().any(|a| matches!(a, Action::Fail(_))));
}

#[test]
fn malformed_recording_fails_before_playback() {
    let (session, first) = Session::recording();
    let actions = drive(first, session, &[false, true, true]);
    assert_eq!(actions, vec![Action::Decode, Action::Fail(Failure::PlaybackFailed)]);
    let d = diagnose(
        Failure::PlaybackFailed,
        Span::detached(),
        "Zm064",
        Some("unrecognized format".to_string()),
    );
    assert!(d.message.contains("failed to play audio"));
    assert_eq!(d.detail.as_deref(), Some("unrecognized format"));
}

#[test]
fn output_failure_is_a_playback_failure() {
    let (session, first) = Session::recording();
    let actions = drive(first, session, &[true, false]);
    assert_eq!(actions.last(), Some(&Action::Fail(Failure::PlaybackFailed)));
}

#[test]
fn failure_messages() {
    let span = Span::detached();
    assert_eq!(diagnose(Failure::ModelUnavailable, span, "Zm064", None).message, "failed to load speech model");
    assert_eq!(diagnose(Failure::SynthesisFailed, span, "Zm064", None).message, "failed to synthesize speech");
    assert_eq!(diagnose(Failure::PlaybackFailed, span, "Zm064", None).message, "failed to play audio");
    assert_eq!(diagnose(Failure::VoiceNotFound, span, "", None).message, "Voice  not found");
}
