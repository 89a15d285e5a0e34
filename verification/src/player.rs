//! The player commands: `join`, `leave` and `play`. `play` alternates
//! decisions with outside work (file checks, the voice gateway), so it is a
//! state machine: the caller performs each action and reports its outcome
//! as the next event.

use vstd::prelude::*;
use vstd::string::*;
use crate::sounds::{sound_path, sound_path_of};
use crate::args::{first_argument, split_arguments};

verus! {

/// Answer when the caller is in no voice channel.
pub open spec fn not_in_voice_text() -> Seq<char> {
    "❌ You are not in a voice channel!"@
}

/// `join`/`play`: the voice channel to join, or the answer when the caller
/// is in none.
pub fn voice_channel(channel: Option<u64>) -> (r: Result<u64, String>)
    ensures
        match channel {
            Some(c) => r == Ok::<u64, String>(c),
            None => r matches Err(t) && t@ == not_in_voice_text(),
        },
{
    match channel {
        Some(c) => Ok(c),
        None => Err(String::from_str("❌ You are not in a voice channel!")),
    }
}

/// `leave`: the answer once removing the bot from the guild's voice call
/// succeeded (`removed`) or not; `None` when nothing is to be said (the
/// command reacts with 👋 either way).
pub fn leave_reply(removed: bool) -> (r: Option<String>)
    ensures
        if removed {
            r is None
        } else {
            r matches Some(t) && t@ == "❌ I'm not in a voice channel!"@
        },
{
    if removed {
        None
    } else {
        Some(String::from_str("❌ I'm not in a voice channel!"))
    }
}

/// Where a `play` command stands; the name is the sound asked for.
#[derive(Debug, PartialEq, Eq)]
pub enum PlayState {
    /// Nothing read yet.
    Start,
    /// Waiting to learn whether the sound's file exists.
    CheckingSound(String),
    /// Waiting for the caller's voice channel.
    FindingChannel(String),
    /// Waiting for the join, and whether a call handler came of it.
    Joining(String),
    /// Waiting for the audio source to open.
    Opening(String),
    /// Waiting for playback to start.
    Playing,
    /// Finished.
    Done,
}

/// What happened since the last action.
#[derive(Debug, PartialEq, Eq)]
pub enum PlayEvent {
    /// The command ran, with its argument text.
    Begin(String),
    /// Whether the sound's file exists.
    SoundChecked(bool),
    /// The caller's voice channel.
    ChannelFound(Option<u64>),
    /// Joined; whether the guild now has a call handler.
    Joined(bool),
    /// Whether the audio source opened.
    SourceOpened(bool),
    /// Playback was started.
    Played,
}

/// What to do next.
#[derive(Debug, PartialEq, Eq)]
pub enum PlayAction {
    /// Post this text in the channel; the command ends.
    Say(String),
    /// Reply with this text; the command ends.
    Reply(String),
    /// Check whether this file exists.
    CheckSound(String),
    /// Look up the caller's voice channel.
    FindChannel,
    /// Join this voice channel.
    Join(u64),
    /// Open this file as an audio source.
    OpenSource(String),
    /// Stop what plays and play the opened source.
    StopAndPlay,
    /// React with ▶ and ⏹; the command ends.
    ReactControls,
    /// Nothing more to do.
    Finish,
}

/// `PlayState` with its texts as character sequences.
pub enum PlayStateV {
    Start,
    CheckingSound(Seq<char>),
    FindingChannel(Seq<char>),
    Joining(Seq<char>),
    Opening(Seq<char>),
    Playing,
    Done,
}

/// `PlayEvent` with its texts as character sequences.
pub enum PlayEventV {
    Begin(Seq<char>),
    SoundChecked(bool),
    ChannelFound(Option<u64>),
    Joined(bool),
    SourceOpened(bool),
    Played,
}

/// `PlayAction` with its texts as character sequences.
pub enum PlayActionV {
    Say(Seq<char>),
    Reply(Seq<char>),
    CheckSound(Seq<char>),
    FindChannel,
    Join(u64),
    OpenSource(Seq<char>),
    StopAndPlay,
    ReactControls,
    Finish,
}

impl View for PlayState {
    type V = PlayStateV;

    open spec fn view(&self) -> PlayStateV {
        match self {
            PlayState::Start => PlayStateV::Start,
            PlayState::CheckingSound(n) => PlayStateV::CheckingSound(n@),
            PlayState::FindingChannel(n) => PlayStateV::FindingChannel(n@),
            PlayState::Joining(n) => PlayStateV::Joining(n@),
            PlayState::Opening(n) => PlayStateV::Opening(n@),
            PlayState::Playing => PlayStateV::Playing,
            PlayState::Done => PlayStateV::Done,
        }
    }
}

impl View for PlayEvent {
    type V = PlayEventV;

    open spec fn view(&self) -> PlayEventV {
        match self {
            PlayEvent::Begin(a) => PlayEventV::Begin(a@),
            PlayEvent::SoundChecked(b) => PlayEventV::SoundChecked(*b),
            PlayEvent::ChannelFound(c) => PlayEventV::ChannelFound(*c),
            PlayEvent::Joined(b) => PlayEventV::Joined(*b),
            PlayEvent::SourceOpened(b) => PlayEventV::SourceOpened(*b),
            PlayEvent::Played => PlayEventV::Played,
        }
    }
}

impl View for PlayAction {
    type V = PlayActionV;

    open spec fn view(&self) -> PlayActionV {
        match self {
            PlayAction::Say(t) => PlayActionV::Say(t@),
            PlayAction::Reply(t) => PlayActionV::Reply(t@),
            PlayAction::CheckSound(p) => PlayActionV::CheckSound(p@),
            PlayAction::FindChannel => PlayActionV::FindChannel,
            PlayAction::Join(c) => PlayActionV::Join(*c),
            PlayAction::OpenSource(p) => PlayActionV::OpenSource(p@),
            PlayAction::StopAndPlay => PlayActionV::StopAndPlay,
            PlayAction::ReactControls => PlayActionV::ReactControls,
            PlayAction::Finish => PlayActionV::Finish,
        }
    }
}

/// The `play` command's transitions. The sound name is the first argument
/// of the argument text. Without a sound name it says so; a
/// sound whose file is missing, or a caller outside voice, gets a reply;
/// otherwise it joins the caller's channel and, if a call handler exists,
/// opens the sound's file (saying so if that fails), stops what plays and
/// plays it; it ends by reacting with the player controls. An event that
/// does not fit the state ends the command.
pub open spec fn play_next(s: PlayStateV, e: PlayEventV) -> (PlayStateV, PlayActionV) {
    match (s, e) {
        (PlayStateV::Start, PlayEventV::Begin(t)) => match first_argument(t) {
            None => (PlayStateV::Done, PlayActionV::Say("❌ Must provide a sound name"@)),
            Some(n) => (PlayStateV::CheckingSound(n), PlayActionV::CheckSound(sound_path_of(n))),
        },
        (PlayStateV::CheckingSound(n), PlayEventV::SoundChecked(found)) => if found {
            (PlayStateV::FindingChannel(n), PlayActionV::FindChannel)
        } else {
            (PlayStateV::Done, PlayActionV::Reply("❌ This sound name doesn't exist!"@))
        },
        (PlayStateV::FindingChannel(n), PlayEventV::ChannelFound(c)) => match c {
            Some(ch) => (PlayStateV::Joining(n), PlayActionV::Join(ch)),
            None => (PlayStateV::Done, PlayActionV::Reply(not_in_voice_text())),
        },
        (PlayStateV::Joining(n), PlayEventV::Joined(handler)) => if handler {
            (PlayStateV::Opening(n), PlayActionV::OpenSource(sound_path_of(n)))
        } else {
            (PlayStateV::Done, PlayActionV::ReactControls)
        },
        (PlayStateV::Opening(n), PlayEventV::SourceOpened(ok)) => if ok {
            (PlayStateV::Playing, PlayActionV::StopAndPlay)
        } else {
            (PlayStateV::Done, PlayActionV::Say("❌ Error sourcing ffmpeg"@))
        },
        (PlayStateV::Playing, PlayEventV::Played) => (PlayStateV::Done, PlayActionV::ReactControls),
        _ => (PlayStateV::Done, PlayActionV::Finish),
    }
}

/// The first step of `play`, from the first argument `first` (the sound
/// name): check that the sound's file exists, or say that a name is needed.
pub fn play_begin(first: Option<String>) -> (r: (PlayState, PlayAction))
    ensures
        match first {
            None => r.0@ == PlayStateV::Done && r.1@ == PlayActionV::Say(
                "❌ Must provide a sound name"@,
            ),
            Some(n) => r.0@ == PlayStateV::CheckingSound(n@) && r.1@ == PlayActionV::CheckSound(
                sound_path_of(n@),
            ),
        },
{
    match first {
        None => (PlayState::Done, PlayAction::Say(String::from_str("❌ Must provide a sound name"))),
        Some(n) => {
            let path = sound_path(n.as_str());
            (PlayState::CheckingSound(n), PlayAction::CheckSound(path))
        },
    }
}

/// One step of `play`: the next state and the action to perform.
pub fn play(s: PlayState, e: PlayEvent) -> (r: (PlayState, PlayAction))
    ensures
        (r.0@, r.1@) == play_next(s@, e@),
{
    match (s, e) {
        (PlayState::Start, PlayEvent::Begin(text)) => play_begin(split_arguments(text.as_str()).0),
        (PlayState::CheckingSound(n), PlayEvent::SoundChecked(found)) => {
            if found {
                (PlayState::FindingChannel(n), PlayAction::FindChannel)
            } else {
                (
                    PlayState::Done,
                    PlayAction::Reply(String::from_str("❌ This sound name doesn't exist!")),
                )
            }
        },
        (PlayState::FindingChannel(n), PlayEvent::ChannelFound(c)) => match voice_channel(c) {
            Ok(ch) => (PlayState::Joining(n), PlayAction::Join(ch)),
            Err(t) => (PlayState::Done, PlayAction::Reply(t)),
        },
        (PlayState::Joining(n), PlayEvent::Joined(handler)) => {
            if handler {
                let path = sound_path(n.as_str());
                (PlayState::Opening(n), PlayAction::OpenSource(path))
            } else {
                (PlayState::Done, PlayAction::ReactControls)
            }
        },
        (PlayState::Opening(_), PlayEvent::SourceOpened(ok)) => {
            if ok {
                (PlayState::Playing, PlayAction::StopAndPlay)
            } else {
                (PlayState::Done, PlayAction::Say(String::from_str("❌ Error sourcing ffmpeg")))
            }
        },
        (PlayState::Playing, PlayEvent::Played) => (PlayState::Done, PlayAction::ReactControls),
        _ => (PlayState::Done, PlayAction::Finish),
    }
}

/// The states and actions of `play` after the events `es`, from `Start`.
pub open spec fn play_run(es: Seq<PlayEventV>) -> (PlayStateV, Seq<PlayActionV>)
    decreases es.len(),
{
    if es.len() == 0 {
        (PlayStateV::Start, Seq::empty())
    } else {
        let prev = play_run(es.drop_last());
        let step = play_next(prev.0, es.last());
        (step.0, prev.1.push(step.1))
    }
}

/// The state holds the sound `n`, or none at all.
pub open spec fn holds_sound(s: PlayStateV, n: Seq<char>) -> bool {
    match s {
        PlayStateV::Start => false,
        PlayStateV::CheckingSound(m) => m == n,
        PlayStateV::FindingChannel(m) => m == n,
        PlayStateV::Joining(m) => m == n,
        PlayStateV::Opening(m) => m == n,
        PlayStateV::Playing => true,
        PlayStateV::Done => true,
    }
}

/// A run of `play` begun with the sound `n` (the first argument) checks and
/// opens only the file of `n`, and joins a voice channel only after that
/// file was found.
pub proof fn lemma_play_uses_requested_sound(es: Seq<PlayEventV>, n: Seq<char>)
    requires
        es.len() >= 1,
        es[0] is Begin,
        first_argument(es[0]->Begin_0) == Some(n),
    ensures
        play_run(es).1.len() == es.len(),
        holds_sound(play_run(es).0, n),
        forall|i: int|
            0 <= i < play_run(es).1.len() ==> match #[trigger] play_run(es).1[i] {
                PlayActionV::CheckSound(p) => p == sound_path_of(n),
                PlayActionV::OpenSource(p) => p == sound_path_of(n),
                PlayActionV::Join(_) => exists|j: int|
                    0 < j < i && es[j] == PlayEventV::SoundChecked(true),
                _ => true,
            },
    decreases es.len(),
{
    let run = play_run(es);
    if es.len() == 1 {
        assert(es.drop_last() =~= Seq::<PlayEventV>::empty());
        assert(run.1 =~= seq![PlayActionV::CheckSound(sound_path_of(n))]);
    } else {
        let prev_es = es.drop_last();
        lemma_play_uses_requested_sound(prev_es, n);
        let prev = play_run(prev_es);
        lemma_found_before_join(prev_es, n);
        assert forall|i: int| 0 <= i < run.1.len() implies match #[trigger] run.1[i] {
            PlayActionV::CheckSound(p) => p == sound_path_of(n),
            PlayActionV::OpenSource(p) => p == sound_path_of(n),
            PlayActionV::Join(_) => exists|j: int|
                0 < j < i && es[j] == PlayEventV::SoundChecked(true),
            _ => true,
        } by {
            if i < prev.1.len() {
                assert(run.1[i] == prev.1[i]);
                let a = prev.1[i];
                assert(match a {
                    PlayActionV::CheckSound(p) => p == sound_path_of(n),
                    PlayActionV::OpenSource(p) => p == sound_path_of(n),
                    PlayActionV::Join(_) => exists|j: int|
                        0 < j < i && prev_es[j] == PlayEventV::SoundChecked(true),
                    _ => true,
                });
                match a {
                    PlayActionV::Join(_) => {
                        let j = choose|j: int|
                            0 < j < i && prev_es[j] == PlayEventV::SoundChecked(true);
                        assert(es[j] == prev_es[j]);
                    },
                    _ => {},
                }
            } else {
                match run.1[i] {
                    PlayActionV::Join(_) => {
                        let j = choose|j: int|
                            0 < j < es.len() - 1 && es[j] == PlayEventV::SoundChecked(true);
                        assert(es[j] == prev_es[j]);
                    },
                    _ => {},
                }
            }
        }
    }
}

/// While `play` waits for a channel, a join or a source, the sound's file
/// has been found to exist.
proof fn lemma_found_before_join(es: Seq<PlayEventV>, n: Seq<char>)
    requires
        es.len() >= 1,
        es[0] is Begin,
        first_argument(es[0]->Begin_0) == Some(n),
    ensures
        (play_run(es).0 is FindingChannel || play_run(es).0 is Joining
            || play_run(es).0 is Opening) ==> exists|j: int|
            0 < j < es.len() && es[j] == PlayEventV::SoundChecked(true),
    decreases es.len(),
{
    if es.len() > 1 {
        let prev_es = es.drop_last();
        lemma_found_before_join(prev_es, n);
        let prev = play_run(prev_es);
        if prev.0 is FindingChannel || prev.0 is Joining || prev.0 is Opening {
            let j = choose|j: int| 0 < j < prev_es.len() && prev_es[j] == PlayEventV::SoundChecked(true);
            assert(es[j] == prev_es[j]);
        } else if prev.0 is CheckingSound {
            assert(es[es.len() - 1] == es.last());
        }
    } else {
        assert(es.drop_last() =~= Seq::<PlayEventV>::empty());
    }
}

} // verus!
