use crate::float_bits::{less, lt};
use crate::text::{trim, trimmed};
use vstd::prelude::*;

verus! {

/// How a recording was started.
#[derive(PartialEq, Eq, Structural, Clone, Copy, Debug)]
pub enum Mode {
    PushToTalk,
    HandsFree,
}

/// What a request to start recording leads to.
#[derive(PartialEq, Eq, Structural, Clone, Copy, Debug)]
pub enum StartStep {
    /// Nothing records yet: start the recorder, then report the outcome with `started`.
    StartRecorder,
    /// A push-to-talk recording became a hands-free one.
    SwitchedToHandsFree,
    /// A recording runs already; nothing changes.
    Ignored,
}

/// The recording mode, if a recording runs.
pub struct RecordingSession {
    pub mode: Option<Mode>,
}

/// The step for a start request in the current mode.
pub open spec fn start_step(current: Option<Mode>, requested: Mode) -> (Option<Mode>, StartStep) {
    match current {
        None => (None, StartStep::StartRecorder),
        Some(m) => if requested == Mode::HandsFree && m == Mode::PushToTalk {
            (Some(Mode::HandsFree), StartStep::SwitchedToHandsFree)
        } else {
            (Some(m), StartStep::Ignored)
        },
    }
}

/// A stop request: a hands-free recording ends only where that is allowed (its own
/// shortcut), not when push-to-talk keys come up. Gives the new mode and the mode of the
/// recording that ended, if one did.
pub open spec fn stop_step(current: Option<Mode>, allow_hands_free: bool) -> (Option<Mode>, Option<Mode>) {
    if current == Some(Mode::HandsFree) && !allow_hands_free {
        (current, None)
    } else {
        (None, current)
    }
}

impl RecordingSession {
    pub fn new() -> (r: RecordingSession)
        ensures
            r.mode is None,
    {
        RecordingSession { mode: None }
    }

    /// A request to start recording in `requested` mode.
    pub fn begin(&mut self, requested: Mode) -> (r: StartStep)
        ensures
            (final(self).mode, r) == start_step(old(self).mode, requested),
    {
        match self.mode {
            None => StartStep::StartRecorder,
            Some(m) => {
                if requested == Mode::HandsFree && m == Mode::PushToTalk {
                    self.mode = Some(Mode::HandsFree);
                    StartStep::SwitchedToHandsFree
                } else {
                    StartStep::Ignored
                }
            },
        }
    }

    /// The outcome of starting the recorder after `StartRecorder`.
    pub fn started(&mut self, requested: Mode, recorder_started: bool)
        ensures
            final(self).mode == (if recorder_started {
                Some(requested)
            } else {
                None
            }),
    {
        self.mode = if recorder_started {
            Some(requested)
        } else {
            None
        };
    }

    /// A request to stop recording; gives the mode of the recording that ended, if one did.
    pub fn end(&mut self, allow_hands_free: bool) -> (r: Option<Mode>)
        ensures
            (final(self).mode, r) == stop_step(old(self).mode, allow_hands_free),
    {
        if self.mode == Some(Mode::HandsFree) && !allow_hands_free {
            return None;
        }
        let old_mode = self.mode;
        self.mode = None;
        old_mode
    }
}

/// Releasing the push-to-talk keys never ends a hands-free recording.
pub proof fn push_to_talk_release_keeps_hands_free()
    ensures
        stop_step(Some(Mode::HandsFree), false) == (Some(Mode::HandsFree), None::<Mode>),
{
}

/// A request to start never ends or downgrades a running recording, and a hands-free request
/// upgrades push-to-talk.
pub proof fn start_keeps_recording(current: Option<Mode>, requested: Mode)
    ensures
        current is Some ==> start_step(current, requested).0 is Some,
        current == Some(Mode::HandsFree) ==> start_step(current, requested).0 == current,
        current == Some(Mode::PushToTalk) && requested == Mode::HandsFree ==> start_step(
            current,
            requested,
        ).0 == Some(Mode::HandsFree),
{
}

/// After a stop that ends a recording, nothing records; a stop ends whatever runs unless it
/// is a hands-free recording and hands-free stops are not allowed.
pub proof fn stop_ends_recording(current: Option<Mode>, allow_hands_free: bool)
    ensures
        stop_step(current, allow_hands_free).1 is Some ==> stop_step(current, allow_hands_free).0 is None,
        stop_step(current, allow_hands_free).1 == (if current == Some(Mode::HandsFree) && !allow_hands_free {
            None
        } else {
            current
        }),
{
}

/// The status line while recording.
pub open spec fn listening_text(mode: Mode) -> Seq<char> {
    match mode {
        Mode::HandsFree => "Hands-free listening"@,
        Mode::PushToTalk => "Listening"@,
    }
}

pub fn listening_status(mode: Mode) -> (r: &'static str)
    ensures
        r@ == listening_text(mode),
{
    match mode {
        Mode::HandsFree => "Hands-free listening",
        Mode::PushToTalk => "Listening",
    }
}

/// Why a finished recording is not sent for transcription: shorter than the minimum
/// duration, or quieter than the silence threshold (durations in seconds and RMS levels as
/// `f64` bit patterns).
pub open spec fn capture_rejection(duration: u64, rms: u64, minimum_duration: u64, silence_threshold: u64) -> Option<Seq<char>> {
    if less(duration, minimum_duration) {
        Some("Recording too short"@)
    } else if less(rms, silence_threshold) {
        Some("No speech detected"@)
    } else {
        None
    }
}

pub fn check_capture(duration: u64, rms: u64, minimum_duration: u64, silence_threshold: u64) -> (r: Result<(), &'static str>)
    ensures
        match r {
            Ok(()) => capture_rejection(duration, rms, minimum_duration, silence_threshold) is None,
            Err(m) => capture_rejection(duration, rms, minimum_duration, silence_threshold) == Some(m@),
        },
{
    if lt(duration, minimum_duration) {
        Err("Recording too short")
    } else if lt(rms, silence_threshold) {
        Err("No speech detected")
    } else {
        Ok(())
    }
}

/// The text to insert from a transcript: the transcript trimmed, or an error when nothing
/// but white space came back.
pub fn transcript_outcome(text: &str) -> (r: Result<String, &'static str>)
    ensures
        match r {
            Ok(t) => trim(text@).len() > 0 && t@ == trim(text@),
            Err(m) => trim(text@).len() == 0 && m@ == "No speech detected"@,
        },
{
    let t = trimmed(text);
    if t.as_str().is_empty() {
        Err("No speech detected")
    } else {
        Ok(t)
    }
}

/// What Flow is doing, as the floating overlay shows it.
#[derive(PartialEq, Eq, Structural, Clone, Copy, Debug)]
pub enum Activity {
    Idle,
    Listening,
    Transcribing,
}

/// The overlay is visible while Flow listens or transcribes, and hidden once it is idle.
pub open spec fn overlay_visible(activity: Activity) -> bool {
    activity != Activity::Idle
}

pub fn overlay_shown(activity: Activity) -> (r: bool)
    ensures
        r == overlay_visible(activity),
{
    match activity {
        Activity::Idle => false,
        _ => true,
    }
}

/// The activity after a stop request, given the mode of the recording that ended, if one
/// did: its capture is transcribed next; a stop that ended nothing changes nothing.
pub open spec fn activity_after_stop(current: Activity, ended: Option<Mode>) -> Activity {
    if ended is Some {
        Activity::Transcribing
    } else {
        current
    }
}

pub fn stop_activity(current: Activity, ended: Option<Mode>) -> (r: Activity)
    ensures
        r == activity_after_stop(current, ended),
{
    match ended {
        Some(_) => Activity::Transcribing,
        None => current,
    }
}

/// Ending a recording keeps the overlay up while its capture is transcribed.
pub proof fn overlay_stays_while_transcribing(current: Activity, ended: Option<Mode>)
    requires
        ended is Some,
    ensures
        overlay_visible(activity_after_stop(current, ended)),
{
}

/// The insertion status of the history entry of a transcript once pasting is over: where
/// history is saved and the entry was added, it becomes `inserted` when the paste succeeded
/// and `failed` otherwise; where none was added nothing is marked.
pub open spec fn entry_status_after(save_history: bool, entry_id: Option<i64>, pasted: bool) -> Option<(i64, Seq<char>)> {
    match entry_id {
        Some(id) => if save_history {
            Some((id, if pasted { "inserted"@ } else { "failed"@ }))
        } else {
            None
        },
        None => None,
    }
}

pub fn entry_status(save_history: bool, entry_id: Option<i64>, pasted: bool) -> (r: Option<(i64, &'static str)>)
    ensures
        match r {
            Some((id, status)) => entry_status_after(save_history, entry_id, pasted) == Some((id, status@)),
            None => entry_status_after(save_history, entry_id, pasted) is None,
        },
{
    if !save_history {
        return None;
    }
    match entry_id {
        Some(id) => Some((id, if pasted { "inserted" } else { "failed" })),
        None => None,
    }
}

} // verus!
