use vstd::prelude::*;
use crate::diag::Failure;
use crate::voice::{VoiceId, names_voice, parse_voice, voice_name};

verus! {

/// What is played: an encoded recording, or speech synthesized in a voice.
#[derive(Clone, Copy, Debug, PartialEq, Eq, Structural)]
pub enum Material {
    Recording,
    Speech(VoiceId),
}

/// Where a playback stands.
#[derive(Clone, Copy, Debug, PartialEq, Eq, Structural)]
pub enum Stage {
    /// The speech model and its voice bank are being loaded.
    LoadingModel,
    /// The buffer to play is being decoded or synthesized.
    Preparing,
    /// The output device is being opened.
    OpeningOutput,
    /// Passes of the buffer are being appended to the output.
    Appending,
    /// Every pass has been appended; playback runs to its end.
    Waiting,
    Finished,
}

/// The next piece of outside work that a playback asks its driver for, or
/// how the playback ended.
#[derive(Clone, Copy, Debug, PartialEq, Eq, Structural)]
pub enum Action {
    /// Load the speech model and its voice bank.
    LoadModel,
    /// Decode the recording's bytes into a buffer.
    Decode,
    /// Synthesize the text in the voice into a buffer.
    Synthesize(VoiceId),
    /// Open the default output device.
    OpenOutput,
    /// Append the buffer to the output, for the pass of this number.
    Append(usize),
    /// Block until the output has played everything appended.
    WaitUntilEnd,
    /// The playback is complete.
    Finish,
    /// The playback stopped with this failure.
    Fail(Failure),
}

/// A single playback, from loading to the end of the sound. The driver carries
/// out each action and reports whether it succeeded.
#[derive(Clone, Copy, Debug, PartialEq, Eq, Structural)]
pub struct Session {
    pub material: Material,
    pub stage: Stage,
    /// How many passes of the buffer are played.
    pub count: usize,
    /// How many passes have been appended so far.
    pub appended: usize,
}

impl Session {
    pub open spec fn wf(self) -> bool {
        &&& self.appended <= self.count
        &&& self.stage is Appending ==> 1 <= self.appended
        &&& (self.stage is LoadingModel || self.stage is Preparing || self.stage is OpeningOutput)
            ==> self.appended == 0
        &&& match self.material {
            Material::Recording => !(self.stage is LoadingModel),
            Material::Speech(v) => v.wf(),
        }
    }

    /// The failure that a failed action in the current stage amounts to.
    pub open spec fn failure(self) -> Failure {
        match (self.material, self.stage) {
            (Material::Speech(_), Stage::LoadingModel) => Failure::ModelUnavailable,
            (Material::Speech(_), Stage::Preparing) => Failure::SynthesisFailed,
            _ => Failure::PlaybackFailed,
        }
    }

    /// The action that produces the buffer to play.
    pub open spec fn prepare_action(self) -> Action {
        match self.material {
            Material::Recording => Action::Decode,
            Material::Speech(v) => Action::Synthesize(v),
        }
    }

    /// The session and the next action once the last action has succeeded
    /// or failed.
    pub open spec fn after(self, succeeded: bool) -> (Session, Action) {
        if !succeeded {
            (Session { stage: Stage::Finished, ..self }, Action::Fail(self.failure()))
        } else {
            match self.stage {
                Stage::LoadingModel => (Session { stage: Stage::Preparing, ..self }, self.prepare_action()),
                Stage::Preparing => (Session { stage: Stage::OpeningOutput, ..self }, Action::OpenOutput),
                Stage::OpeningOutput | Stage::Appending => if self.appended < self.count {
                    (
                        Session { stage: Stage::Appending, appended: (self.appended + 1) as usize, ..self },
                        Action::Append(self.appended),
                    )
                } else {
                    (Session { stage: Stage::Waiting, ..self }, Action::WaitUntilEnd)
                },
                Stage::Waiting => (Session { stage: Stage::Finished, ..self }, Action::Finish),
                Stage::Finished => (self, Action::Finish),
            }
        }
    }

    /// A playback of one recording, and its first action.
    pub fn recording() -> (r: (Session, Action))
        ensures
            r == start_recording(),
            r.0.wf(),
    {
        (
            Session { material: Material::Recording, stage: Stage::Preparing, count: 1, appended: 0 },
            Action::Decode,
        )
    }

    /// A playback of speech in the voice named `voice`, played `count` times,
    /// and its first action. An unknown voice name is refused before any
    /// work is done.
    pub fn speech(voice: &str, count: usize) -> (r: Result<(Session, Action), Failure>)
        ensures
            r is Err <==> !names_voice(voice@),
            r matches Err(f) ==> f == Failure::VoiceNotFound,
            r matches Ok((s, a)) ==> {
                &&& s.wf()
                &&& s.material matches Material::Speech(v) && voice_name(v) == voice@
                &&& s.stage == Stage::LoadingModel
                &&& s.count == count
                &&& s.appended == 0
                &&& a == Action::LoadModel
            },
    {
        match parse_voice(voice) {
            Some(v) => Ok((
                Session { material: Material::Speech(v), stage: Stage::LoadingModel, count, appended: 0 },
                Action::LoadModel,
            )),
            None => Err(Failure::VoiceNotFound),
        }
    }

    pub fn is_finished(&self) -> (r: bool)
        ensures
            r == (self.stage is Finished),
    {
        matches!(self.stage, Stage::Finished)
    }

    /// Takes in whether the last action succeeded and gives the next one.
    pub fn step(&mut self, succeeded: bool) -> (a: Action)
        requires
            old(self).wf(),
            !(old(self).stage is Finished),
        ensures
            (*final(self), a) == old(self).after(succeeded),
            final(self).wf(),
    {
        if !succeeded {
            let failure = match (self.material, self.stage) {
                (Material::Speech(_), Stage::LoadingModel) => Failure::ModelUnavailable,
                (Material::Speech(_), Stage::Preparing) => Failure::SynthesisFailed,
                _ => Failure::PlaybackFailed,
            };
            self.stage = Stage::Finished;
            return Action::Fail(failure);
        }
        match self.stage {
            Stage::LoadingModel => {
                self.stage = Stage::Preparing;
                match self.material {
                    Material::Recording => Action::Decode,
                    Material::Speech(v) => Action::Synthesize(v),
                }
            },
            Stage::Preparing => {
                self.stage = Stage::OpeningOutput;
                Action::OpenOutput
            },
            Stage::OpeningOutput | Stage::Appending => {
                if self.appended < self.count {
                    let pass = self.appended;
                    self.stage = Stage::Appending;
                    self.appended = pass + 1;
                    Action::Append(pass)
                } else {
                    self.stage = Stage::Waiting;
                    Action::WaitUntilEnd
                }
            },
            _ => {
                self.stage = Stage::Finished;
                Action::Finish
            },
        }
    }
}

/// The playback of one recording, as it begins.
pub open spec fn start_recording() -> (Session, Action) {
    (
        Session { material: Material::Recording, stage: Stage::Preparing, count: 1, appended: 0 },
        Action::Decode,
    )
}

/// The actions that a session gives when the driver reports `outcomes` in turn,
/// up to and including the one that ends it.
pub open spec fn run(s: Session, outcomes: Seq<bool>) -> Seq<Action>
    decreases outcomes.len(),
{
    if outcomes.len() == 0 || s.stage is Finished {
        seq![]
    } else {
        let (t, a) = s.after(outcomes[0]);
        seq![a] + run(t, outcomes.drop_first())
    }
}

/// The pass numbers of the `Append` actions among `actions`, in order.
pub open spec fn passes(actions: Seq<Action>) -> Seq<usize>
    decreases actions.len(),
{
    if actions.len() == 0 {
        seq![]
    } else {
        let rest = passes(actions.drop_first());
        match actions[0] {
            Action::Append(i) => seq![i] + rest,
            _ => rest,
        }
    }
}

/// Every action that the driver carried out succeeded.
pub open spec fn all_succeed(outcomes: Seq<bool>) -> bool {
    forall|i: int| 0 <= i < outcomes.len() ==> outcomes[i]
}

/// The actions end with `Finish`, and none of them is a failure.
pub open spec fn completes(actions: Seq<Action>) -> bool {
    &&& actions.len() > 0
    &&& actions.last() == Action::Finish
    &&& forall|i: int| 0 <= i < actions.len() ==> !(#[trigger] actions[i] is Fail)
}

/// The passes `from..to`, in order.
pub open spec fn pass_range(from: int, to: int) -> Seq<usize> {
    Seq::new((to - from) as nat, |i: int| (from + i) as usize)
}

proof fn lemma_passes_prepend(a: Action, rest: Seq<Action>)
    ensures
        passes(seq![a] + rest) == match a {
            Action::Append(i) => seq![i] + passes(rest),
            _ => passes(rest),
        },
{
    assert((seq![a] + rest).drop_first() =~= rest);
}

proof fn lemma_completes_prepend(a: Action, rest: Seq<Action>)
    requires
        completes(rest),
        !(a is Fail),
    ensures
        completes(seq![a] + rest),
{
    let all = seq![a] + rest;
    assert(all.last() == rest.last());
    assert forall|i: int| 0 <= i < all.len() implies !(#[trigger] all[i] is Fail) by {
        if i > 0 {
            assert(all[i] == rest[i - 1]);
        }
    }
}

/// Once the output is open, a session whose actions all succeed appends the
/// remaining passes in order, waits, and finishes.
proof fn lemma_run_from_output(s: Session, outcomes: Seq<bool>)
    requires
        s.wf(),
        s.stage is OpeningOutput || s.stage is Appending,
        all_succeed(outcomes),
        outcomes.len() >= s.count - s.appended + 2,
    ensures
        passes(run(s, outcomes)) == pass_range(s.appended as int, s.count as int),
        completes(run(s, outcomes)),
    decreases s.count - s.appended,
{
    let (t, a) = s.after(outcomes[0]);
    let rest = outcomes.drop_first();
    assert(run(s, outcomes) == seq![a] + run(t, rest));
    lemma_passes_prepend(a, run(t, rest));
    if s.appended < s.count {
        lemma_run_from_output(t, rest);
        lemma_completes_prepend(a, run(t, rest));
        assert(seq![s.appended] + pass_range(t.appended as int, s.count as int)
            =~= pass_range(s.appended as int, s.count as int));
    } else {
        let (u, b) = t.after(rest[0]);
        assert(b == Action::Finish);
        assert(run(t, rest) == seq![b] + run(u, rest.drop_first()));
        assert(run(u, rest.drop_first()) == Seq::<Action>::empty());
        assert(run(t, rest) =~= seq![Action::Finish]);
        lemma_passes_prepend(b, seq![]);
        assert(passes(Seq::<Action>::empty()) == Seq::<usize>::empty());
        assert(completes(seq![Action::Finish]));
        lemma_completes_prepend(a, run(t, rest));
        assert(pass_range(s.appended as int, s.count as int) =~= Seq::<usize>::empty());
    }
}

/// When every step succeeds, a speech playback appends exactly `count` passes
/// of its buffer, numbered `0` to `count - 1` in order, and finishes without
/// a failure.
pub proof fn lemma_speech_plays_every_pass(voice: Seq<char>, s: Session, outcomes: Seq<bool>)
    requires
        s.wf(),
        s.material matches Material::Speech(v) && voice_name(v) == voice,
        s.stage == Stage::LoadingModel,
        all_succeed(outcomes),
        outcomes.len() >= s.count + 4,
    ensures
        passes(run(s, outcomes)) == pass_range(0, s.count as int),
        completes(run(s, outcomes)),
{
    let (t, a) = s.after(outcomes[0]);
    let rest = outcomes.drop_first();
    let (u, b) = t.after(rest[0]);
    let rest2 = rest.drop_first();
    assert(run(s, outcomes) == seq![a] + run(t, rest));
    assert(run(t, rest) == seq![b] + run(u, rest2));
    assert(all_succeed(rest2));
    lemma_run_from_output(u, rest2);
    lemma_passes_prepend(b, run(u, rest2));
    lemma_passes_prepend(a, run(t, rest));
    lemma_completes_prepend(b, run(u, rest2));
    lemma_completes_prepend(a, run(t, rest));
}

/// When every step succeeds, a recording is decoded, played once, and the
/// playback finishes without a failure.
pub proof fn lemma_recording_plays_when_steps_succeed(outcomes: Seq<bool>)
    requires
        all_succeed(outcomes),
        outcomes.len() >= 4,
    ensures
        passes(seq![start_recording().1] + run(start_recording().0, outcomes)) == seq![0usize],
        completes(seq![start_recording().1] + run(start_recording().0, outcomes)),
{
    let (s, first) = start_recording();
    let (t, a) = s.after(outcomes[0]);
    let rest = outcomes.drop_first();
    assert(run(s, outcomes) == seq![a] + run(t, rest));
    assert(all_succeed(rest));
    lemma_run_from_output(t, rest);
    lemma_passes_prepend(a, run(t, rest));
    lemma_completes_prepend(a, run(t, rest));
    lemma_passes_prepend(first, run(s, outcomes));
    lemma_completes_prepend(first, run(s, outcomes));
    assert(pass_range(0, 1) =~= seq![0usize]);
}

/// When the recording cannot be decoded, the playback stops right there with
/// a playback failure: the output is never opened and nothing is played.
pub proof fn lemma_recording_decode_failure(outcomes: Seq<bool>)
    requires
        outcomes.len() >= 1,
        !outcomes[0],
    ensures
        run(start_recording().0, outcomes) == seq![Action::Fail(Failure::PlaybackFailed)],
        passes(seq![start_recording().1] + run(start_recording().0, outcomes)) == Seq::<usize>::empty(),
{
    let (s, first) = start_recording();
    let (t, a) = s.after(outcomes[0]);
    assert(run(s, outcomes) == seq![a] + run(t, outcomes.drop_first()));
    assert(run(t, outcomes.drop_first()) == Seq::<Action>::empty());
    assert(run(s, outcomes) =~= seq![Action::Fail(Failure::PlaybackFailed)]);
    lemma_passes_prepend(a, Seq::<Action>::empty());
    assert(passes(Seq::<Action>::empty()) == Seq::<usize>::empty());
    lemma_passes_prepend(first, run(s, outcomes));
}

} // verus!
