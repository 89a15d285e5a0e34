//! The "bounce" commands (`el3n`, and `el3no` without sound): pick the
//! member named by a mention, read how many times to bounce them, and move
//! them between the two bounce channels and back. The command alternates
//! its decisions with outside work (member lookup, the voice gateway, moves),
//! so it is a state machine: the caller performs each action and reports
//! its outcome as the next event.

use vstd::prelude::*;
use vstd::string::*;
use crate::args::{first_argument, rest_after_first, split_arguments};
use crate::number::{i8_of, parse_i8, u64_of};
use crate::sounds::{sound_path, sound_path_of};
use crate::text::{split_whitespace, words};

verus! {

/// `mention` begins with `<@`.
pub open spec fn starts_like_mention(m: Seq<char>) -> bool {
    m.len() >= 2 && m[0] == '<' && m[1] == '@'
}

/// The user id that `serenity::utils::parse_username` reads from a mention:
/// after `<@!` (or else `<@`), everything but the last character, read as
/// `u64::from_str` does; `None` for anything shorter than four characters
/// or not beginning with `<@`. (This is its result where it does not panic,
/// see `mention_cut_mid_char`.)
pub open spec fn mention_user_id(m: Seq<char>) -> Option<u64> {
    if !starts_like_mention(m) || m.len() < 4 {
        None
    } else if m[2] == '!' {
        u64_of(m.subrange(3, m.len() - 1))
    } else {
        u64_of(m.subrange(2, m.len() - 1))
    }
}

/// `parse_username` would cut `mention` inside its last character: it
/// begins with `<@` and its last character is not ASCII. Its byte slice then
/// ends off a character boundary, and it panics.
pub open spec fn mention_cut_mid_char(m: Seq<char>) -> bool {
    starts_like_mention(m) && (m.last() as int) >= 128
}

/// Calls `serenity::utils::parse_username`, which reads a user id from a
/// mention (`<@id>` or `<@!id>`) as `mention_user_id` states: it checks the
/// length (in bytes) and the `<@!`/`<@` prefix, drops the last byte, and
/// parses the rest with `u64::from_str`.
#[verifier::external_body]
fn parse_username(mention: &str) -> (r: Option<u64>)
    requires
        !mention_cut_mid_char(mention@),
    ensures
        r == mention_user_id(mention@),
{
    serenity::utils::parse_username(mention)
}

/// Whether the mention parser would cut `m` inside its last character.
pub fn cuts_mid_char(m: &str) -> (r: bool)
    ensures
        r == mention_cut_mid_char(m@),
{
    let n = m.unicode_len();
    if n < 2 {
        return false;
    }
    m.get_char(0) == '<' && m.get_char(1) == '@' && (m.get_char(n - 1) as u32) >= 128
}

/// Answer when there is no argument.
pub open spec fn no_mention_text() -> Seq<char> {
    "❌ You have to mention someone!"@
}

/// Answer when the first argument is not a user mention.
pub open spec fn not_a_mention_text() -> Seq<char> {
    "❌ You have to use @ to mention someone!"@
}

/// Answer when the member is in no voice channel.
pub open spec fn not_in_channel_text() -> Seq<char> {
    "❌ Error! User must be in a channel."@
}

/// Answer to a count outside `1..=10`.
pub open spec fn times_out_of_range_text() -> Seq<char> {
    "10 max, kuchi kuchi!"@
}

/// Answer when the sound cannot be opened.
pub open spec fn source_failed_text() -> Seq<char> {
    "❌ Error sourcing ffmpeg"@
}

/// The member named by the first argument `first`, or the answer.
pub fn target_user_from(first: Option<String>) -> (r: Result<u64, String>)
    requires
        first matches Some(m) ==> !mention_cut_mid_char(m@),
    ensures
        match first {
            None => r matches Err(t) && t@ == no_mention_text(),
            Some(m) => match mention_user_id(m@) {
                Some(id) => r == Ok::<u64, String>(id),
                None => r matches Err(t) && t@ == not_a_mention_text(),
            },
        },
        (first matches Some(m) && !starts_like_mention(m@)) ==> (r matches Err(t) && t@
            == not_a_mention_text()),
{
    match first {
        None => Err(String::from_str("❌ You have to mention someone!")),
        Some(m) => match parse_username(m.as_str()) {
            Some(id) => Ok(id),
            None => Err(String::from_str("❌ You have to use @ to mention someone!")),
        },
    }
}

/// The first argument of `args_text` can be read without a panic: it is
/// absent, or the mention parser does not cut it mid-character.
pub open spec fn mention_readable(args_text: Seq<char>) -> bool {
    first_argument(args_text) matches Some(m) ==> !mention_cut_mid_char(m)
}

/// The member named by the first argument of the argument text, or the
/// answer when there is no argument or it is not a user mention.
pub fn target_user(args_text: &str) -> (r: Result<u64, String>)
    requires
        mention_readable(args_text@),
    ensures
        match first_argument(args_text@) {
            None => r matches Err(t) && t@ == no_mention_text(),
            Some(m) => match mention_user_id(m) {
                Some(id) => r == Ok::<u64, String>(id),
                None => r matches Err(t) && t@ == not_a_mention_text(),
            },
        },
        (first_argument(args_text@) matches Some(m) && !starts_like_mention(m)) ==> (r matches Err(
            t,
        ) && t@ == not_a_mention_text()),
{
    target_user_from(split_arguments(args_text).0)
}

/// Whether the first argument of `args_text` can be read without a panic.
pub fn mention_readable_exec(args_text: &str) -> (r: bool)
    ensures
        r == mention_readable(args_text@),
{
    match split_arguments(args_text).0 {
        Some(m) => !cuts_mid_char(m.as_str()),
        None => true,
    }
}

/// The member named by the first argument of the argument text, or the
/// answer, where the mention can be read without a panic; `None` where it
/// cannot.
pub fn checked_target_user(args_text: &str) -> (r: Option<Result<u64, String>>)
    ensures
        match r {
            None => !mention_readable(args_text@),
            Some(t) => mention_readable(args_text@) && match first_argument(args_text@) {
                None => t matches Err(m) && m@ == no_mention_text(),
                Some(m) => match mention_user_id(m) {
                    Some(id) => t == Ok::<u64, String>(id),
                    None => t matches Err(x) && x@ == not_a_mention_text(),
                },
            },
        },
{
    if mention_readable_exec(args_text) {
        Some(target_user(args_text))
    } else {
        None
    }
}

/// How many times to bounce, read from the rest of the arguments: `Ok(1)`
/// when the rest is empty, else its first word as an `i8`; `Err(true)` when
/// that lies outside `1..=10` (the command answers), `Err(false)` when the
/// rest has no word or its first word is no `i8` (the command panics).
pub open spec fn requested_times(rest: Seq<char>) -> Result<int, bool> {
    if rest.len() == 0 {
        Ok(1)
    } else if words(rest).len() == 0 {
        Err(false)
    } else {
        match i8_of(words(rest)[0]) {
            None => Err(false),
            Some(t) => if 1 <= t <= 10 {
                Ok(t as int)
            } else {
                Err(true)
            },
        }
    }
}

/// The sound to play while bouncing: the second word of the rest, else
/// `brazil`.
pub open spec fn requested_sound(rest: Seq<char>) -> Seq<char> {
    if words(rest).len() >= 2 {
        words(rest)[1]
    } else {
        "brazil"@
    }
}

/// The count in the rest of the arguments can be read without a panic.
pub open spec fn count_readable(rest: Seq<char>) -> bool {
    requested_times(rest) != Err::<int, bool>(false)
}

/// What a bounce command reads from the rest of its arguments.
#[derive(Debug, PartialEq, Eq)]
pub struct BounceOptions {
    /// How many round trips, in `1..=10`.
    pub times: u8,
    /// The sound to play first (used by `el3n` only).
    pub sound: String,
}

/// Reads the count and the sound from the rest of the arguments `rest`, or
/// gives the answer to a count outside `1..=10`.
pub fn bounce_options_from(rest: &str) -> (r: Result<BounceOptions, String>)
    requires
        count_readable(rest@),
    ensures
        match requested_times(rest@) {
            Ok(t) => r matches Ok(o) && o.times as int == t && o.sound@ == requested_sound(rest@),
            Err(_) => r matches Err(m) && m@ == times_out_of_range_text(),
        },
{
    let ws = split_whitespace(rest);
    let mut times: u8 = 1;
    if rest.unicode_len() > 0 {
        if ws.len() == 0 {
            proof {
                assert(false);
            }
            return Err(String::from_str("10 max, kuchi kuchi!"));
        }
        assert(ws.deep_view()[0] == ws@[0]@);
        match parse_i8(ws[0].as_str()) {
            None => {
                proof {
                    assert(false);
                }
                return Err(String::from_str("10 max, kuchi kuchi!"));
            },
            Some(t) => {
                if t > 10 || t < 1 {
                    return Err(String::from_str("10 max, kuchi kuchi!"));
                }
                times = t as u8;
            },
        }
    }
    let sound = if ws.len() >= 2 {
        assert(ws.deep_view()[1] == ws@[1]@);
        ws[1].clone()
    } else {
        String::from_str("brazil")
    };
    Ok(BounceOptions { times, sound })
}

/// Reads the count and the sound from the argument text (after the first
/// argument), or gives the answer to a count outside `1..=10`.
pub fn bounce_options(args_text: &str) -> (r: Result<BounceOptions, String>)
    requires
        count_readable(rest_after_first(args_text@)),
    ensures
        match requested_times(rest_after_first(args_text@)) {
            Ok(t) => r matches Ok(o) && o.times as int == t && o.sound@ == requested_sound(
                rest_after_first(args_text@),
            ),
            Err(_) => r matches Err(m) && m@ == times_out_of_range_text(),
        },
{
    bounce_options_from(split_arguments(args_text).1.as_str())
}

/// Whether the count in the rest of the arguments can be read.
pub fn count_readable_exec(rest: &str) -> (r: bool)
    ensures
        r == count_readable(rest@),
{
    if rest.unicode_len() == 0 {
        return true;
    }
    let ws = split_whitespace(rest);
    if ws.len() == 0 {
        return false;
    }
    assert(ws.deep_view()[0] == ws@[0]@);
    parse_i8(ws[0].as_str()).is_some()
}

/// The first bounce channel.
pub const BOUNCE_FIRST: u64 = 861751113916612648;

/// The second bounce channel.
pub const BOUNCE_SECOND: u64 = 861751155000213544;

/// The pause after each move, in milliseconds.
pub const BOUNCE_PAUSE_MS: u64 = 700;

/// Where a bounce command stands.
#[derive(Debug, PartialEq, Eq)]
pub enum BounceState {
    /// Nothing read yet; whether a sound is played first.
    Start(bool),
    /// Waiting for the member's voice channel; the argument text.
    FindingMember { with_sound: bool, args_text: String },
    /// Waiting for the acknowledging reaction.
    Reacting { with_sound: bool, home: u64, times: u8, sound: String },
    /// Waiting for the join, and whether a call handler came of it.
    Joining { home: u64, times: u8, sound: String },
    /// Waiting for the sound's source to open.
    Opening { home: u64, times: u8 },
    /// Waiting for the sound to end.
    Playing { home: u64, times: u8 },
    /// In the round trips; `step` is the number of the step just asked for
    /// (four per round trip: move, pause, move, pause).
    Bouncing { with_sound: bool, home: u64, times: u8, step: u16 },
    /// Waiting for the move back to the member's channel.
    Returning { with_sound: bool, home: u64, times: u8 },
    /// Waiting for the bot to leave the voice channel.
    Leaving { home: u64, times: u8 },
    /// Ended with the member back in `home` after `times` round trips.
    Finished { home: u64, times: u8 },
    /// Ended otherwise.
    Done,
}

/// What happened since the last action.
#[derive(Debug, PartialEq, Eq)]
pub enum BounceEvent {
    /// The command ran, with its argument text.
    Begin(String),
    /// The member was found; their voice channel, if any.
    MemberFound(Option<u64>),
    /// Whether the reaction was posted.
    Reacted(bool),
    /// Joined; whether the guild now has a call handler.
    Joined(bool),
    /// Whether the sound's source opened.
    SourceOpened(bool),
    /// The sound ended.
    Played,
    /// Whether the move succeeded.
    Moved(bool),
    /// The pause is over.
    Paused,
    /// Whether leaving the voice channel succeeded.
    Left(bool),
}

/// What to do next.
#[derive(Debug, PartialEq, Eq)]
pub enum BounceAction {
    /// Post this text in the channel; the command ends.
    Say(String),
    /// Reply with this text; the command ends.
    Reply(String),
    /// Look up this member and their voice channel.
    LookupMember(u64),
    /// Acknowledge the command with a reaction.
    React,
    /// Join this voice channel.
    Join(u64),
    /// Open this file as an audio source.
    OpenSource(String),
    /// Play the opened source and wait until it ends.
    PlayToEnd,
    /// Move the member to this channel.
    Move(u64),
    /// Wait this many milliseconds.
    Pause(u64),
    /// Leave the voice channel.
    Leave,
    /// The last action failed: the command ends with its error.
    Fail,
    /// The command ends successfully.
    Finish,
    /// Nothing more to do.
    Nothing,
}

/// `BounceState` with its texts as character sequences.
pub enum BounceStateV {
    Start(bool),
    FindingMember { with_sound: bool, args_text: Seq<char> },
    Reacting { with_sound: bool, home: u64, times: u8, sound: Seq<char> },
    Joining { home: u64, times: u8, sound: Seq<char> },
    Opening { home: u64, times: u8 },
    Playing { home: u64, times: u8 },
    Bouncing { with_sound: bool, home: u64, times: u8, step: u16 },
    Returning { with_sound: bool, home: u64, times: u8 },
    Leaving { home: u64, times: u8 },
    Finished { home: u64, times: u8 },
    Done,
}

/// `BounceEvent` with its texts as character sequences.
pub enum BounceEventV {
    Begin(Seq<char>),
    MemberFound(Option<u64>),
    Reacted(bool),
    Joined(bool),
    SourceOpened(bool),
    Played,
    Moved(bool),
    Paused,
    Left(bool),
}

/// `BounceAction` with its texts as character sequences.
pub enum BounceActionV {
    Say(Seq<char>),
    Reply(Seq<char>),
    LookupMember(u64),
    React,
    Join(u64),
    OpenSource(Seq<char>),
    PlayToEnd,
    Move(u64),
    Pause(u64),
    Leave,
    Fail,
    Finish,
    Nothing,
}

impl View for BounceState {
    type V = BounceStateV;

    open spec fn view(&self) -> BounceStateV {
        match self {
            BounceState::Start(w) => BounceStateV::Start(*w),
            BounceState::FindingMember { with_sound, args_text } => BounceStateV::FindingMember {
                with_sound: *with_sound,
                args_text: args_text@,
            },
            BounceState::Reacting { with_sound, home, times, sound } => BounceStateV::Reacting {
                with_sound: *with_sound,
                home: *home,
                times: *times,
                sound: sound@,
            },
            BounceState::Joining { home, times, sound } => BounceStateV::Joining {
                home: *home,
                times: *times,
                sound: sound@,
            },
            BounceState::Opening { home, times } => BounceStateV::Opening {
                home: *home,
                times: *times,
            },
            BounceState::Playing { home, times } => BounceStateV::Playing {
                home: *home,
                times: *times,
            },
            BounceState::Bouncing { with_sound, home, times, step } => BounceStateV::Bouncing {
                with_sound: *with_sound,
                home: *home,
                times: *times,
                step: *step,
            },
            BounceState::Returning { with_sound, home, times } => BounceStateV::Returning {
                with_sound: *with_sound,
                home: *home,
                times: *times,
            },
            BounceState::Leaving { home, times } => BounceStateV::Leaving {
                home: *home,
                times: *times,
            },
            BounceState::Finished { home, times } => BounceStateV::Finished {
                home: *home,
                times: *times,
            },
            BounceState::Done => BounceStateV::Done,
        }
    }
}

impl View for BounceEvent {
    type V = BounceEventV;

    open spec fn view(&self) -> BounceEventV {
        match self {
            BounceEvent::Begin(t) => BounceEventV::Begin(t@),
            BounceEvent::MemberFound(c) => BounceEventV::MemberFound(*c),
            BounceEvent::Reacted(b) => BounceEventV::Reacted(*b),
            BounceEvent::Joined(b) => BounceEventV::Joined(*b),
            BounceEvent::SourceOpened(b) => BounceEventV::SourceOpened(*b),
            BounceEvent::Played => BounceEventV::Played,
            BounceEvent::Moved(b) => BounceEventV::Moved(*b),
            BounceEvent::Paused => BounceEventV::Paused,
            BounceEvent::Left(b) => BounceEventV::Left(*b),
        }
    }
}

impl View for BounceAction {
    type V = BounceActionV;

    open spec fn view(&self) -> BounceActionV {
        match self {
            BounceAction::Say(t) => BounceActionV::Say(t@),
            BounceAction::Reply(t) => BounceActionV::Reply(t@),
            BounceAction::LookupMember(u) => BounceActionV::LookupMember(*u),
            BounceAction::React => BounceActionV::React,
            BounceAction::Join(c) => BounceActionV::Join(*c),
            BounceAction::OpenSource(p) => BounceActionV::OpenSource(p@),
            BounceAction::PlayToEnd => BounceActionV::PlayToEnd,
            BounceAction::Move(c) => BounceActionV::Move(*c),
            BounceAction::Pause(ms) => BounceActionV::Pause(*ms),
            BounceAction::Leave => BounceActionV::Leave,
            BounceAction::Fail => BounceActionV::Fail,
            BounceAction::Finish => BounceActionV::Finish,
            BounceAction::Nothing => BounceActionV::Nothing,
        }
    }
}

/// Step `k` of the round trips: to the first channel, pause, to the
/// second, pause.
pub open spec fn round_action(k: int) -> BounceActionV {
    if k % 4 == 0 {
        BounceActionV::Move(BOUNCE_FIRST)
    } else if k % 4 == 2 {
        BounceActionV::Move(BOUNCE_SECOND)
    } else {
        BounceActionV::Pause(BOUNCE_PAUSE_MS)
    }
}

/// Starts the round trips.
pub open spec fn start_bouncing(with_sound: bool, home: u64, times: u8) -> (
    BounceStateV,
    BounceActionV,
) {
    (
        BounceStateV::Bouncing { with_sound, home, times, step: 0 },
        BounceActionV::Move(BOUNCE_FIRST),
    )
}

/// The bounce command's transitions. The first argument names the member;
/// without one, or when it is not a mention, the command says so. A member
/// in no voice channel gets an answer; a count outside `1..=10` (the first
/// word after the mention, 1 when there is none) gets a reply. Otherwise it
/// reacts; with sound it joins the member's channel and, if a call handler
/// exists, plays the sound (the second word, else `brazil`) to its end,
/// saying so and stopping if the sound cannot be opened; then it moves the
/// member to the first bounce channel and the second, pausing after each,
/// `times` times, moves them back, and with sound leaves. A failed reaction,
/// move or leave ends the command with that error. An event that does not
/// fit the state ends the command.
pub open spec fn bounce_next(s: BounceStateV, e: BounceEventV) -> (BounceStateV, BounceActionV) {
    match (s, e) {
        (BounceStateV::Start(ws), BounceEventV::Begin(t)) => match first_argument(t) {
            None => (BounceStateV::Done, BounceActionV::Say(no_mention_text())),
            Some(m) => match mention_user_id(m) {
                None => (BounceStateV::Done, BounceActionV::Say(not_a_mention_text())),
                Some(id) => (
                    BounceStateV::FindingMember { with_sound: ws, args_text: t },
                    BounceActionV::LookupMember(id),
                ),
            },
        },
        (BounceStateV::FindingMember { with_sound, args_text }, BounceEventV::MemberFound(c)) => {
            let rest = rest_after_first(args_text);
            match c {
                None => (BounceStateV::Done, BounceActionV::Say(not_in_channel_text())),
                Some(home) => match requested_times(rest) {
                    Ok(t) => (
                        BounceStateV::Reacting {
                            with_sound,
                            home,
                            times: t as u8,
                            sound: requested_sound(rest),
                        },
                        BounceActionV::React,
                    ),
                    Err(_) => (BounceStateV::Done, BounceActionV::Reply(times_out_of_range_text())),
                },
            }
        },
        (BounceStateV::Reacting { with_sound, home, times, sound }, BounceEventV::Reacted(ok)) => {
            if !ok {
                (BounceStateV::Done, BounceActionV::Fail)
            } else if with_sound {
                (BounceStateV::Joining { home, times, sound }, BounceActionV::Join(home))
            } else {
                start_bouncing(false, home, times)
            }
        },
        (BounceStateV::Joining { home, times, sound }, BounceEventV::Joined(handler)) => {
            if handler {
                (BounceStateV::Opening { home, times }, BounceActionV::OpenSource(sound_path_of(sound)))
            } else {
                start_bouncing(true, home, times)
            }
        },
        (BounceStateV::Opening { home, times }, BounceEventV::SourceOpened(ok)) => {
            if ok {
                (BounceStateV::Playing { home, times }, BounceActionV::PlayToEnd)
            } else {
                (BounceStateV::Done, BounceActionV::Say(source_failed_text()))
            }
        },
        (BounceStateV::Playing { home, times }, BounceEventV::Played) => start_bouncing(
            true,
            home,
            times,
        ),
        (BounceStateV::Bouncing { with_sound, home, times, step }, e) => {
            let moving = step % 4 == 0 || step % 4 == 2;
            if moving && e == BounceEventV::Moved(false) {
                (BounceStateV::Done, BounceActionV::Fail)
            } else if (moving && e == BounceEventV::Moved(true)) || (!moving && e
                == BounceEventV::Paused) {
                if step + 1 < 4 * times {
                    (
                        BounceStateV::Bouncing { with_sound, home, times, step: (step + 1) as u16 },
                        round_action(step + 1),
                    )
                } else {
                    (BounceStateV::Returning { with_sound, home, times }, BounceActionV::Move(home))
                }
            } else {
                (BounceStateV::Done, BounceActionV::Nothing)
            }
        },
        (BounceStateV::Returning { with_sound, home, times }, BounceEventV::Moved(ok)) => {
            if !ok {
                (BounceStateV::Done, BounceActionV::Fail)
            } else if with_sound {
                (BounceStateV::Leaving { home, times }, BounceActionV::Leave)
            } else {
                (BounceStateV::Finished { home, times }, BounceActionV::Finish)
            }
        },
        (BounceStateV::Leaving { home, times }, BounceEventV::Left(ok)) => {
            if ok {
                (BounceStateV::Finished { home, times }, BounceActionV::Finish)
            } else {
                (BounceStateV::Done, BounceActionV::Fail)
            }
        },
        (BounceStateV::Finished { home, times }, _) => (
            BounceStateV::Finished { home, times },
            BounceActionV::Nothing,
        ),
        _ => (BounceStateV::Done, BounceActionV::Nothing),
    }
}

/// The step can be taken without a panic: the mention of `Begin` is not cut
/// mid-character, and the count read once the member is found is readable.
pub open spec fn bounce_admissible(s: BounceStateV, e: BounceEventV) -> bool {
    match (s, e) {
        (BounceStateV::Start(_), BounceEventV::Begin(t)) => mention_readable(t),
        (
            BounceStateV::FindingMember { with_sound: _, args_text },
            BounceEventV::MemberFound(Some(_)),
        ) => count_readable(rest_after_first(args_text)),
        _ => true,
    }
}

/// Whether the step `(s, e)` can be taken: the test to make before
/// `bounce_step` (where it fails, the command panics).
pub fn bounce_step_admissible(s: &BounceState, e: &BounceEvent) -> (r: bool)
    ensures
        r == bounce_admissible(s@, e@),
{
    match (s, e) {
        (BounceState::Start(_), BounceEvent::Begin(t)) => mention_readable_exec(t.as_str()),
        (BounceState::FindingMember { with_sound: _, args_text }, BounceEvent::MemberFound(Some(_))) => {
            count_readable_exec(split_arguments(args_text.as_str()).1.as_str())
        },
        _ => true,
    }
}

/// The action for step `k` of the round trips.
fn round_action_exec(k: u16) -> (r: BounceAction)
    ensures
        r@ == round_action(k as int),
{
    if k % 4 == 0 {
        BounceAction::Move(BOUNCE_FIRST)
    } else if k % 4 == 2 {
        BounceAction::Move(BOUNCE_SECOND)
    } else {
        BounceAction::Pause(BOUNCE_PAUSE_MS)
    }
}

/// One step of a bounce: the next state and the action to perform.
pub fn bounce_step(s: BounceState, e: BounceEvent) -> (r: (BounceState, BounceAction))
    requires
        bounce_admissible(s@, e@),
    ensures
        (r.0@, r.1@) == bounce_next(s@, e@),
{
    match s {
        BounceState::Start(ws) => match e {
            BounceEvent::Begin(t) => {
                let (first, _) = split_arguments(t.as_str());
                match target_user_from(first) {
                    Ok(id) => (
                        BounceState::FindingMember { with_sound: ws, args_text: t },
                        BounceAction::LookupMember(id),
                    ),
                    Err(text) => (BounceState::Done, BounceAction::Say(text)),
                }
            },
            _ => (BounceState::Done, BounceAction::Nothing),
        },
        BounceState::FindingMember { with_sound, args_text } => match e {
            BounceEvent::MemberFound(None) => (
                BounceState::Done,
                BounceAction::Say(String::from_str("❌ Error! User must be in a channel.")),
            ),
            BounceEvent::MemberFound(Some(home)) => match bounce_options(args_text.as_str()) {
                Ok(o) => (
                    BounceState::Reacting { with_sound, home, times: o.times, sound: o.sound },
                    BounceAction::React,
                ),
                Err(text) => (BounceState::Done, BounceAction::Reply(text)),
            },
            _ => (BounceState::Done, BounceAction::Nothing),
        },
        BounceState::Reacting { with_sound, home, times, sound } => match e {
            BounceEvent::Reacted(ok) => {
                if !ok {
                    (BounceState::Done, BounceAction::Fail)
                } else if with_sound {
                    (BounceState::Joining { home, times, sound }, BounceAction::Join(home))
                } else {
                    (
                        BounceState::Bouncing { with_sound: false, home, times, step: 0 },
                        BounceAction::Move(BOUNCE_FIRST),
                    )
                }
            },
            _ => (BounceState::Done, BounceAction::Nothing),
        },
        BounceState::Joining { home, times, sound } => match e {
            BounceEvent::Joined(handler) => {
                if handler {
                    let path = sound_path(sound.as_str());
                    (BounceState::Opening { home, times }, BounceAction::OpenSource(path))
                } else {
                    (
                        BounceState::Bouncing { with_sound: true, home, times, step: 0 },
                        BounceAction::Move(BOUNCE_FIRST),
                    )
                }
            },
            _ => (BounceState::Done, BounceAction::Nothing),
        },
        BounceState::Opening { home, times } => match e {
            BounceEvent::SourceOpened(ok) => {
                if ok {
                    (BounceState::Playing { home, times }, BounceAction::PlayToEnd)
                } else {
                    (BounceState::Done, BounceAction::Say(String::from_str("❌ Error sourcing ffmpeg")))
                }
            },
            _ => (BounceState::Done, BounceAction::Nothing),
        },
        BounceState::Playing { home, times } => match e {
            BounceEvent::Played => (
                BounceState::Bouncing { with_sound: true, home, times, step: 0 },
                BounceAction::Move(BOUNCE_FIRST),
            ),
            _ => (BounceState::Done, BounceAction::Nothing),
        },
        BounceState::Bouncing { with_sound, home, times, step } => {
            let moving = step % 4 == 0 || step % 4 == 2;
            let advanced = match e {
                BounceEvent::Moved(ok) => {
                    if !moving {
                        return (BounceState::Done, BounceAction::Nothing);
                    }
                    if !ok {
                        return (BounceState::Done, BounceAction::Fail);
                    }
                    true
                },
                BounceEvent::Paused => moving == false,
                _ => false,
            };
            if !advanced {
                return (BounceState::Done, BounceAction::Nothing);
            }
            if (step as u32) + 1 < 4 * (times as u32) {
                let next = step + 1;
                (
                    BounceState::Bouncing { with_sound, home, times, step: next },
                    round_action_exec(next),
                )
            } else {
                (BounceState::Returning { with_sound, home, times }, BounceAction::Move(home))
            }
        },
        BounceState::Returning { with_sound, home, times } => match e {
            BounceEvent::Moved(ok) => {
                if !ok {
                    (BounceState::Done, BounceAction::Fail)
                } else if with_sound {
                    (BounceState::Leaving { home, times }, BounceAction::Leave)
                } else {
                    (BounceState::Finished { home, times }, BounceAction::Finish)
                }
            },
            _ => (BounceState::Done, BounceAction::Nothing),
        },
        BounceState::Leaving { home, times } => match e {
            BounceEvent::Left(ok) => {
                if ok {
                    (BounceState::Finished { home, times }, BounceAction::Finish)
                } else {
                    (BounceState::Done, BounceAction::Fail)
                }
            },
            _ => (BounceState::Done, BounceAction::Nothing),
        },
        BounceState::Finished { home, times } => (
            BounceState::Finished { home, times },
            BounceAction::Nothing,
        ),
        BounceState::Done => (BounceState::Done, BounceAction::Nothing),
    }
}

/// The states and actions of a bounce after the events `es`.
pub open spec fn bounce_run(with_sound: bool, es: Seq<BounceEventV>) -> (
    BounceStateV,
    Seq<BounceActionV>,
)
    decreases es.len(),
{
    if es.len() == 0 {
        (BounceStateV::Start(with_sound), Seq::empty())
    } else {
        let prev = bounce_run(with_sound, es.drop_last());
        let step = bounce_next(prev.0, es.last());
        (step.0, prev.1.push(step.1))
    }
}

/// The channel of the last move among `actions`, if any.
pub open spec fn last_move(actions: Seq<BounceActionV>) -> Option<u64>
    decreases actions.len(),
{
    if actions.len() == 0 {
        None
    } else {
        match actions.last() {
            BounceActionV::Move(c) => Some(c),
            _ => last_move(actions.drop_last()),
        }
    }
}

/// The member's channel that a state holds, if any.
pub open spec fn state_home(s: BounceStateV) -> Option<u64> {
    match s {
        BounceStateV::Reacting { home, .. } => Some(home),
        BounceStateV::Joining { home, .. } => Some(home),
        BounceStateV::Opening { home, .. } => Some(home),
        BounceStateV::Playing { home, .. } => Some(home),
        BounceStateV::Bouncing { home, .. } => Some(home),
        BounceStateV::Returning { home, .. } => Some(home),
        BounceStateV::Leaving { home, .. } => Some(home),
        BounceStateV::Finished { home, .. } => Some(home),
        _ => None,
    }
}

/// How many moves `actions` holds.
pub open spec fn move_count(actions: Seq<BounceActionV>) -> nat
    decreases actions.len(),
{
    if actions.len() == 0 {
        0
    } else {
        move_count(actions.drop_last()) + (if actions.last() is Move { 1nat } else { 0nat })
    }
}

/// The moves made so far in each state: none before the round trips; one
/// more on each even step of them; one per leg and the way home after.
pub open spec fn moves_so_far(s: BounceStateV) -> Option<int> {
    match s {
        BounceStateV::Start(_) => Some(0),
        BounceStateV::FindingMember { .. } => Some(0),
        BounceStateV::Reacting { .. } => Some(0),
        BounceStateV::Joining { .. } => Some(0),
        BounceStateV::Opening { .. } => Some(0),
        BounceStateV::Playing { .. } => Some(0),
        BounceStateV::Bouncing { step, .. } => Some(step / 2 + 1),
        BounceStateV::Returning { times, .. } => Some(2 * times + 1),
        BounceStateV::Leaving { times, .. } => Some(2 * times + 1),
        BounceStateV::Finished { times, .. } => Some(2 * times + 1),
        BounceStateV::Done => None,
    }
}

/// The count that a state holds is in `1..=10`, and a round-trip step is
/// within the round trips.
pub open spec fn counts_in_range(s: BounceStateV) -> bool {
    match s {
        BounceStateV::Reacting { times, .. } => 1 <= times <= 10,
        BounceStateV::Joining { times, .. } => 1 <= times <= 10,
        BounceStateV::Opening { times, .. } => 1 <= times <= 10,
        BounceStateV::Playing { times, .. } => 1 <= times <= 10,
        BounceStateV::Bouncing { times, step, .. } => 1 <= times <= 10 && step < 4 * times,
        BounceStateV::Returning { times, .. } => 1 <= times <= 10,
        BounceStateV::Leaving { times, .. } => 1 <= times <= 10,
        BounceStateV::Finished { times, .. } => 1 <= times <= 10,
        _ => true,
    }
}

/// Whether the last of `actions` that is a move or a leave is a leave.
pub open spec fn left_after_last_move(actions: Seq<BounceActionV>) -> bool
    decreases actions.len(),
{
    if actions.len() == 0 {
        false
    } else {
        match actions.last() {
            BounceActionV::Leave => true,
            BounceActionV::Move(_) => false,
            _ => left_after_last_move(actions.drop_last()),
        }
    }
}

/// An action on the bot's voice call or the sound.
pub open spec fn is_voice_action(a: BounceActionV) -> bool {
    a is Join || a is OpenSource || a is PlayToEnd || a is Leave
}

/// The state agrees with the run's choice of sound: the flag it holds is
/// `with_sound`, and the states of the sound part occur only with sound.
pub open spec fn sound_consistent(s: BounceStateV, with_sound: bool) -> bool {
    match s {
        BounceStateV::Start(w) => w == with_sound,
        BounceStateV::FindingMember { with_sound: w, .. } => w == with_sound,
        BounceStateV::Reacting { with_sound: w, .. } => w == with_sound,
        BounceStateV::Bouncing { with_sound: w, .. } => w == with_sound,
        BounceStateV::Returning { with_sound: w, .. } => w == with_sound,
        BounceStateV::Joining { .. } => with_sound,
        BounceStateV::Opening { .. } => with_sound,
        BounceStateV::Playing { .. } => with_sound,
        BounceStateV::Leaving { .. } => with_sound,
        _ => true,
    }
}

proof fn lemma_bounce_run_invariant(with_sound: bool, es: Seq<BounceEventV>)
    ensures
        sound_consistent(bounce_run(with_sound, es).0, with_sound),
        !with_sound ==> forall|i: int|
            0 <= i < bounce_run(with_sound, es).1.len() ==> !is_voice_action(
                #[trigger] bounce_run(with_sound, es).1[i],
            ),
        bounce_run(with_sound, es).0 is Leaving ==> (bounce_run(with_sound, es).1.len() > 0
            && bounce_run(with_sound, es).1.last() == BounceActionV::Leave),
        (with_sound && bounce_run(with_sound, es).0 is Finished) ==> left_after_last_move(
            bounce_run(with_sound, es).1,
        ),
        bounce_run(with_sound, es).1.len() == es.len(),
        counts_in_range(bounce_run(with_sound, es).0),
        moves_so_far(bounce_run(with_sound, es).0) matches Some(n) ==> move_count(
            bounce_run(with_sound, es).1,
        ) == n,
        state_home(bounce_run(with_sound, es).0) matches Some(h) ==> exists|j: int|
            0 <= j < es.len() && es[j] == BounceEventV::MemberFound(Some(h)),
        bounce_run(with_sound, es).0 matches BounceStateV::Returning { home, .. } ==> (
        bounce_run(with_sound, es).1.len() > 0 && bounce_run(with_sound, es).1.last()
            == BounceActionV::Move(home)),
        bounce_run(with_sound, es).0 matches BounceStateV::Leaving { home, .. } ==> last_move(
            bounce_run(with_sound, es).1,
        ) == Some(home),
        bounce_run(with_sound, es).0 matches BounceStateV::Finished { home, .. } ==> last_move(
            bounce_run(with_sound, es).1,
        ) == Some(home),
    decreases es.len(),
{
    if es.len() > 0 {
        let prev_es = es.drop_last();
        lemma_bounce_run_invariant(with_sound, prev_es);
        let prev = bounce_run(with_sound, prev_es);
        let e = es.last();
        let cur = bounce_run(with_sound, es);
        assert(cur.1.drop_last() =~= prev.1);
        if with_sound && cur.0 is Finished {
            assert(!(cur.1.last() is Leave) && !(cur.1.last() is Move));
            assert(left_after_last_move(cur.1) == left_after_last_move(prev.1));
            if prev.0 is Leaving {
                assert(left_after_last_move(prev.1));
            }
        }
        if !with_sound {
            assert forall|i: int| 0 <= i < cur.1.len() implies !is_voice_action(
                #[trigger] cur.1[i],
            ) by {
                if i < prev.1.len() {
                    assert(cur.1[i] == prev.1[i]);
                }
            }
        }
        if let Some(h) = state_home(cur.0) {
            if let Some(ph) = state_home(prev.0) {
                if ph == h {
                    let j = choose|j: int|
                        0 <= j < prev_es.len() && prev_es[j] == BounceEventV::MemberFound(Some(h));
                    assert(es[j] == prev_es[j]);
                }
            }
            if prev.0 is FindingMember {
                assert(es[es.len() - 1] == e);
            }
        }
    }
}

/// A bounce that finishes leaves the member in their own channel, having
/// moved them `2 * times + 1` times for a count `times` in `1..=10`: the
/// last move of a finished run goes to the channel that the member was
/// found in, and there is one move there and one back for each round trip,
/// and one home.
pub proof fn lemma_bounce_finishes_home(with_sound: bool, es: Seq<BounceEventV>)
    ensures
        bounce_run(with_sound, es).0 matches BounceStateV::Finished { home, times } ==> {
            &&& last_move(bounce_run(with_sound, es).1) == Some(home)
            &&& exists|j: int| 0 <= j < es.len() && es[j] == BounceEventV::MemberFound(Some(home))
            &&& 1 <= times <= 10
            &&& move_count(bounce_run(with_sound, es).1) == 2 * times + 1
        },
{
    lemma_bounce_run_invariant(with_sound, es);
}

/// A bounce with sound that finishes has asked to leave the voice call
/// after its last move, which is the move home.
pub proof fn lemma_bounce_with_sound_leaves(es: Seq<BounceEventV>)
    ensures
        bounce_run(true, es).0 is Finished ==> left_after_last_move(bounce_run(true, es).1),
{
    lemma_bounce_run_invariant(true, es);
}

/// A bounce without sound never asks to join a voice call, open or play a
/// sound, or leave: whatever happens, none of its actions is one of these.
pub proof fn lemma_bounce_without_sound_stays_silent(es: Seq<BounceEventV>)
    ensures
        forall|i: int|
            0 <= i < bounce_run(false, es).1.len() ==> !is_voice_action(
                #[trigger] bounce_run(false, es).1[i],
            ),
{
    lemma_bounce_run_invariant(false, es);
}

/// The count a state carries, if any.
pub open spec fn state_times(s: BounceStateV) -> Option<u8> {
    match s {
        BounceStateV::Reacting { times, .. } => Some(times),
        BounceStateV::Joining { times, .. } => Some(times),
        BounceStateV::Opening { times, .. } => Some(times),
        BounceStateV::Playing { times, .. } => Some(times),
        BounceStateV::Bouncing { times, .. } => Some(times),
        BounceStateV::Returning { times, .. } => Some(times),
        BounceStateV::Leaving { times, .. } => Some(times),
        BounceStateV::Finished { times, .. } => Some(times),
        _ => None,
    }
}

/// The sound a state carries, if any.
pub open spec fn state_sound(s: BounceStateV) -> Option<Seq<char>> {
    match s {
        BounceStateV::Reacting { sound, .. } => Some(sound),
        BounceStateV::Joining { sound, .. } => Some(sound),
        _ => None,
    }
}

proof fn lemma_bounce_carries_request(with_sound: bool, es: Seq<BounceEventV>, t: Seq<char>)
    requires
        es.len() >= 1,
        es[0] == BounceEventV::Begin(t),
    ensures
        ({
            let rest = rest_after_first(t);
            let run = bounce_run(with_sound, es);
            &&& run.0 matches BounceStateV::FindingMember { args_text, .. } ==> args_text == t
            &&& state_times(run.0) matches Some(x) ==> x as int == (if rest.len() == 0 {
                1
            } else {
                i8_of(words(rest)[0])->0 as int
            })
            &&& state_sound(run.0) matches Some(snd) ==> snd == (if words(rest).len() >= 2 {
                words(rest)[1]
            } else {
                "brazil"@
            })
        }),
    decreases es.len(),
{
    if es.len() == 1 {
        assert(es.drop_last() =~= Seq::<BounceEventV>::empty());
    } else {
        lemma_bounce_carries_request(with_sound, es.drop_last(), t);
        assert(es.drop_last()[0] == es[0]);
    }
}

/// A bounce carries the count asked for: a run begun with the argument
/// text `t` that finishes has moved the member `2 * n + 1` times, `n` being
/// the first word after the mention read as a number, or 1 when nothing
/// follows the mention.
pub proof fn lemma_bounce_count_is_requested(with_sound: bool, es: Seq<BounceEventV>, t: Seq<char>)
    requires
        es.len() >= 1,
        es[0] == BounceEventV::Begin(t),
    ensures
        ({
            let rest = rest_after_first(t);
            let n = if rest.len() == 0 {
                1
            } else {
                i8_of(words(rest)[0])->0 as int
            };
            bounce_run(with_sound, es).0 is Finished ==> move_count(bounce_run(with_sound, es).1)
                == 2 * n + 1
        }),
{
    lemma_bounce_carries_request(with_sound, es, t);
    lemma_bounce_run_invariant(with_sound, es);
}

/// A bounce with sound plays the sound asked for: the second word after the
/// mention, or `brazil` when there is none. After the member is found in
/// channel `h`, the reaction is posted and the bot has joined with a call
/// handler, the file it opens is `./sounds/{that sound}.mp3`.
pub proof fn lemma_bounce_plays_requested_sound(t: Seq<char>, h: u64)
    requires
        first_argument(t) matches Some(m) && mention_user_id(m) is Some,
        ({
            let rest = rest_after_first(t);
            rest.len() == 0 || (words(rest).len() > 0 && i8_of(words(rest)[0]) is Some && 1
                <= i8_of(words(rest)[0])->0 <= 10)
        }),
    ensures
        ({
            let rest = rest_after_first(t);
            let snd = if words(rest).len() >= 2 {
                words(rest)[1]
            } else {
                "brazil"@
            };
            bounce_run(
                true,
                seq![
                    BounceEventV::Begin(t),
                    BounceEventV::MemberFound(Some(h)),
                    BounceEventV::Reacted(true),
                    BounceEventV::Joined(true),
                ],
            ).1.last() == BounceActionV::OpenSource("./sounds/"@ + snd + ".mp3"@)
        }),
{
    let es = seq![
        BounceEventV::Begin(t),
        BounceEventV::MemberFound(Some(h)),
        BounceEventV::Reacted(true),
        BounceEventV::Joined(true),
    ];
    let e3 = es.drop_last();
    let e2 = e3.drop_last();
    let e1 = e2.drop_last();
    assert(e1.drop_last() =~= Seq::<BounceEventV>::empty());
    assert(e1.last() == BounceEventV::Begin(t));
    assert(e2.last() == BounceEventV::MemberFound(Some(h)));
    assert(e3.last() == BounceEventV::Reacted(true));
    assert(es.last() == BounceEventV::Joined(true));
    let rest = rest_after_first(t);
    assert(requested_times(rest) is Ok);
    assert(bounce_run(true, e1.drop_last()).0 == BounceStateV::Start(true));
    let m = first_argument(t)->0;
    assert(first_argument(t) == Some(m));
    assert(mention_user_id(m) is Some);
    assert(bounce_next(BounceStateV::Start(true), BounceEventV::Begin(t)).0
        == BounceStateV::FindingMember { with_sound: true, args_text: t });
    assert(bounce_run(true, e1).0 == BounceStateV::FindingMember { with_sound: true, args_text: t });
    assert(bounce_run(true, e2).0 is Reacting);
    assert(bounce_run(true, e3).0 is Joining);
    lemma_bounce_carries_request(true, e3, t);
    assert(e3[0] == es[0]);
}

/// One step of a bounce where it can be taken without a panic; `None` where
/// the command would panic.
pub fn checked_bounce_step(s: BounceState, e: BounceEvent) -> (r: Option<(BounceState, BounceAction)>)
    ensures
        match r {
            Some(step) => (step.0@, step.1@) == bounce_next(s@, e@),
            None => !bounce_admissible(s@, e@),
        },
{
    if bounce_step_admissible(&s, &e) {
        Some(bounce_step(s, e))
    } else {
        None
    }
}

} // verus!
