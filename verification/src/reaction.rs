//! Reaction shortcuts: reacting with ▶ or ⏹ to a `play` command message
//! replays or stops that sound.

use vstd::prelude::*;
use vstd::string::*;
use crate::events::Handler;
use crate::text::{chars_of, string_from_chars, split_whitespace, join_range, lowercase, lowercase_of, words, joined};

verus! {

/// What to do about a reaction (the payload is the argument text to run
/// the command with).
#[derive(Debug, PartialEq, Eq)]
pub enum ReactionCommand {
    /// Nothing: the reaction is the bot's own, or the message is not a
    /// command, or the emoji is not a player control.
    Ignore,
    /// Run `play` with these arguments.
    Play(String),
    /// Run `stop` with these arguments.
    Stop(String),
    /// A player control on a command other than `play`: nothing to run.
    Other,
}

/// `ReactionCommand` with its texts as character sequences, and `Fault`:
/// the message cannot be read as a command the way the handler reads it
/// (the prefix is not one character, or the message has no word, or its
/// first word does not start with an ASCII character after lower-casing);
/// the handler panics there.
pub enum ReactionPlan {
    Ignore,
    Play(Seq<char>),
    Stop(Seq<char>),
    Other,
    Fault,
}

impl View for ReactionCommand {
    type V = ReactionPlan;

    open spec fn view(&self) -> ReactionPlan {
        match self {
            ReactionCommand::Ignore => ReactionPlan::Ignore,
            ReactionCommand::Play(s) => ReactionPlan::Play(s@),
            ReactionCommand::Stop(s) => ReactionPlan::Stop(s@),
            ReactionCommand::Other => ReactionPlan::Other,
        }
    }
}

/// The one character of `s`, as `char::from_str` reads it.
pub open spec fn single_char_of(s: Seq<char>) -> Option<char> {
    if s.len() == 1 {
        Some(s[0])
    } else {
        None
    }
}

/// Reads `s` as a single character: `None` unless it has exactly one.
pub fn single_char(s: &str) -> (r: Option<char>)
    ensures
        r == single_char_of(s@),
{
    if s.unicode_len() == 1 {
        Some(s.get_char(0))
    } else {
        None
    }
}

/// The "play" control emoji.
pub open spec fn play_emoji() -> Seq<char> {
    "▶"@
}

/// The "stop" control emoji.
pub open spec fn stop_emoji() -> Seq<char> {
    "⏹"@
}

/// The words of a message, each lower-cased.
pub open spec fn lower_words(content: Seq<char>) -> Seq<Seq<char>> {
    words(content).map_values(|w: Seq<char>| lowercase_of(w))
}

/// What a reaction asks for. `own`: the reaction is the bot's own;
/// `content`: the message reacted to; `prefix`: the command prefix;
/// `emoji`: the reaction's Unicode emoji, if it is one.
///
/// A message that is not empty must start with the prefix; the emoji must
/// be ▶ or ⏹; the command is the first word (lower-cased) without its first
/// character, and the arguments are the other words (lower-cased) joined by
/// single spaces. Only `p` and `play` are acted on.
pub open spec fn reaction_plan(
    own: bool,
    content: Seq<char>,
    prefix: Seq<char>,
    emoji: Option<Seq<char>>,
) -> ReactionPlan {
    if own {
        ReactionPlan::Ignore
    } else if content.len() > 0 && single_char_of(prefix) is None {
        ReactionPlan::Fault
    } else if content.len() > 0 && content[0] != single_char_of(prefix)->0 {
        ReactionPlan::Ignore
    } else if emoji != Some(play_emoji()) && emoji != Some(stop_emoji()) {
        ReactionPlan::Ignore
    } else {
        let args = lower_words(content);
        if args.len() == 0 || args[0].len() == 0 || (args[0][0] as int) >= 128 {
            ReactionPlan::Fault
        } else {
            let cmd = args[0].drop_first();
            let rest = joined(args.drop_first(), " "@);
            if cmd == "p"@ || cmd == "play"@ {
                if emoji == Some(play_emoji()) {
                    ReactionPlan::Play(rest)
                } else {
                    ReactionPlan::Stop(rest)
                }
            } else {
                ReactionPlan::Other
            }
        }
    }
}

/// The bot's own reactions are ignored, whatever the message and emoji.
pub proof fn lemma_own_reactions_ignored(
    content: Seq<char>,
    prefix: Seq<char>,
    emoji: Option<Seq<char>>,
)
    ensures
        reaction_plan(true, content, prefix, emoji) == ReactionPlan::Ignore,
{
}

/// Only ▶ and ⏹ reactions can run a command.
pub proof fn lemma_only_controls_act(
    own: bool,
    content: Seq<char>,
    prefix: Seq<char>,
    emoji: Option<Seq<char>>,
)
    ensures
        (reaction_plan(own, content, prefix, emoji) is Play ==> emoji == Some(play_emoji())),
        (reaction_plan(own, content, prefix, emoji) is Stop ==> emoji == Some(stop_emoji())),
{
}

/// On a message that starts with the prefix and whose first word,
/// lower-cased, is a command character followed by `p` or by `play`, a
/// reaction from someone else with ▶ plays, and with ⏹ stops, the other
/// words lower-cased and joined by single spaces; both spellings of the
/// command give the same answer.
pub proof fn lemma_controls_on_play_messages(
    content: Seq<char>,
    prefix: Seq<char>,
    emoji: Option<Seq<char>>,
)
    requires
        prefix.len() == 1,
        content.len() > 0,
        content[0] == prefix[0],
        lower_words(content).len() > 0,
        lower_words(content)[0].len() > 0,
        (lower_words(content)[0][0] as int) < 128,
        lower_words(content)[0].drop_first() == "p"@ || lower_words(content)[0].drop_first()
            == "play"@,
    ensures
        emoji == Some("▶"@) ==> reaction_plan(false, content, prefix, emoji) == ReactionPlan::Play(
            joined(lower_words(content).drop_first(), " "@),
        ),
        emoji == Some("⏹"@) ==> reaction_plan(false, content, prefix, emoji) == ReactionPlan::Stop(
            joined(lower_words(content).drop_first(), " "@),
        ),
{
    reveal_strlit("▶");
    reveal_strlit("⏹");
    assert("▶"@ != "⏹"@) by {
        assert("▶"@[0] != "⏹"@[0]);
    }
}

/// Whether `e` is the emoji `target`.
fn emoji_is(e: &Option<String>, target: &str) -> (r: bool)
    ensures
        r == (e.deep_view() == Some(target@)),
{
    match e {
        Some(s) => {
            let t = String::from_str(target);
            *s == t
        },
        None => false,
    }
}

/// Decides what a reaction asks for; `None` where the handler would panic.
fn decide(own: bool, content: &str, prefix: &str, emoji: &Option<String>) -> (r: Option<
    ReactionCommand,
>)
    ensures
        match r {
            Some(c) => c@ == reaction_plan(own, content@, prefix@, emoji.deep_view()),
            None => reaction_plan(own, content@, prefix@, emoji.deep_view()) is Fault,
        },
{
    if own {
        return Some(ReactionCommand::Ignore);
    }
    if content.unicode_len() > 0 {
        match single_char(prefix) {
            None => {
                return None;
            },
            Some(p) => {
                if content.get_char(0) != p {
                    return Some(ReactionCommand::Ignore);
                }
            },
        }
    }
    let is_play = emoji_is(emoji, "▶");
    let is_stop = emoji_is(emoji, "⏹");
    if !is_play && !is_stop {
        return Some(ReactionCommand::Ignore);
    }
    let ws = split_whitespace(content);
    let args = lowercase_all(&ws);
    command_from_words(&args, is_play)
}

impl Handler {
    /// Whether the handler would panic on this reaction (see `ReactionPlan`):
    /// the test to make before `reaction_add`.
    pub fn reaction_faults(&self, own: bool, content: &str, prefix: &str, emoji: &Option<String>) -> (r:
        bool)
        ensures
            r == (reaction_plan(own, content@, prefix@, emoji.deep_view()) is Fault),
    {
        decide(own, content, prefix, emoji).is_none()
    }

    /// Decides what a reaction asks for; see `reaction_plan`. `own`: the
    /// reaction is the bot's own; `content`: the message reacted to;
    /// `prefix`: the configured command prefix; `emoji`: the reaction's
    /// Unicode emoji, if it is one.
    pub fn reaction_add(&self, own: bool, content: &str, prefix: &str, emoji: Option<String>) -> (r:
        ReactionCommand)
        requires
            !(reaction_plan(own, content@, prefix@, emoji.deep_view()) is Fault),
        ensures
            r@ == reaction_plan(own, content@, prefix@, emoji.deep_view()),
    {
        match decide(own, content, prefix, &emoji) {
            Some(c) => c,
            None => {
                proof {
                    assert(false);
                }
                ReactionCommand::Ignore
            },
        }
    }

    /// What a reaction asks for where the handler would not panic; `None`
    /// where it would.
    pub fn checked_reaction(&self, own: bool, content: &str, prefix: &str, emoji: Option<String>) -> (r:
        Option<ReactionCommand>)
        ensures
            match r {
                Some(c) => c@ == reaction_plan(own, content@, prefix@, emoji.deep_view()),
                None => reaction_plan(own, content@, prefix@, emoji.deep_view()) is Fault,
            },
    {
        if self.reaction_faults(own, content, prefix, &emoji) {
            None
        } else {
            Some(self.reaction_add(own, content, prefix, emoji))
        }
    }
}

/// Every word lower-cased.
fn lowercase_all(ws: &Vec<String>) -> (r: Vec<String>)
    ensures
        r.deep_view() == ws.deep_view().map_values(|w: Seq<char>| lowercase_of(w)),
{
    let mut args: Vec<String> = Vec::new();
    let mut i: usize = 0;
    while i < ws.len()
        invariant
            i <= ws@.len(),
            args.deep_view() == ws.deep_view().map_values(|w: Seq<char>| lowercase_of(w)).take(
                i as int,
            ),
        decreases ws@.len() - i,
    {
        let low = lowercase(ws[i].as_str());
        let ghost before = args.deep_view();
        assert(ws.deep_view()[i as int] == ws@[i as int]@);
        args.push(low);
        assert(args.deep_view() =~= before.push(low@));
        assert(args.deep_view() =~= ws.deep_view().map_values(|w: Seq<char>| lowercase_of(w)).take(
            i + 1,
        ));
        i = i + 1;
    }
    assert(args.deep_view() =~= ws.deep_view().map_values(|w: Seq<char>| lowercase_of(w)));
    args
}

/// The command named by the lower-cased words `args` of a message that
/// passed the prefix and emoji checks (`is_play`: the emoji is ▶, else ⏹).
pub fn command_from_words(args: &Vec<String>, is_play: bool) -> (r: Option<ReactionCommand>)
    ensures
        ({
            let a = args.deep_view();
            let plan = if a.len() == 0 || a[0].len() == 0 || (a[0][0] as int) >= 128 {
                ReactionPlan::Fault
            } else {
                let cmd = a[0].drop_first();
                let rest = joined(a.drop_first(), " "@);
                if cmd == "p"@ || cmd == "play"@ {
                    if is_play {
                        ReactionPlan::Play(rest)
                    } else {
                        ReactionPlan::Stop(rest)
                    }
                } else {
                    ReactionPlan::Other
                }
            };
            match r {
                Some(c) => c@ == plan,
                None => plan is Fault,
            }
        }),
{
    if args.len() == 0 {
        return None;
    }
    let first = chars_of(args[0].as_str());
    assert(args.deep_view()[0] == args@[0]@);
    if first.len() == 0 || first[0] >= '\u{80}' {
        return None;
    }
    let rest = join_range(args, 1, args.len(), " ");
    assert(args.deep_view().subrange(1, args@.len() as int) =~= args.deep_view().drop_first());
    let cmd = string_from_chars(&first, 1, first.len());
    assert(cmd@ =~= args.deep_view()[0].drop_first());
    let p = String::from_str("p");
    let play = String::from_str("play");
    if cmd == p || cmd == play {
        if is_play {
            Some(ReactionCommand::Play(rest))
        } else {
            Some(ReactionCommand::Stop(rest))
        }
    } else {
        Some(ReactionCommand::Other)
    }
}

} // verus!
