use soundbot::bounce::{
    bounce_options, bounce_step, checked_target_user, bounce_step_admissible, checked_bounce_step, cuts_mid_char,
    target_user, BounceAction, BounceEvent, BounceState, BOUNCE_FIRST, BOUNCE_PAUSE_MS,
    BOUNCE_SECOND,
};
use soundbot::manage::{
    delete_reply, delete_target, file_stem_of, is_mp3_file, rename_plan, rename_reply,
    stats_message, upload_name, upload_reply,
};
use soundbot::player::{leave_reply, play, play_begin, voice_channel, PlayAction, PlayEvent, PlayState};

fn s(x: &str) -> String {
    x.to_string()
}

#[test]
fn delete_flow() {
    assert_eq!(delete_target(""), Err(s("❌ Must provide a sound name")));
    let plan = delete_target("x y").unwrap();
    assert_eq!((plan.name.as_str(), plan.path.as_str()), ("x", "./sounds/x.mp3"));
    assert_eq!(delete_reply("x", true), "✅ **x** was deleted!");
    assert_eq!(delete_reply("x", false), "❌ Sound name doesn't exist!");
}

#[test]
fn rename_flow() {
    assert_eq!(rename_plan("").unwrap_err(), "❌ Error! Must provide an existing sound name!");
    assert_eq!(rename_plan("a").unwrap_err(), "❌ Error! Must provide a new sound name!");
    let plan = rename_plan("zewzew zewzew1 extra").unwrap();
    assert_eq!(plan.old_path, "./sounds/zewzew.mp3");
    assert_eq!(plan.new_path, "./sounds/zewzew1.mp3");
    assert_eq!(rename_reply(&plan, true), "✅ Sound name **zewzew** has been changed to **zewzew1**.");
    assert_eq!(rename_reply(&plan, false), "❌ Error! Sound doesn't exist!");
}

#[test]
fn upload_flow() {
    assert_eq!(
        upload_name(None, ""),
        Err(s("❌ **You have to attach a file and use `upload` command as comment**"))
    );
    assert_eq!(upload_name(Some(s("a.wav")), ""), Err(s("❌ **The uploaded file must be an mp3 file!**")));
    assert_eq!(upload_name(Some(s("mp3")), ""), Err(s("❌ **The uploaded file must be an mp3 file!**")));
    assert_eq!(upload_name(Some(s("a.b.mp3")), ""), Ok(s("a")));
    assert_eq!(upload_name(Some(s("a.b.mp3")), "name other"), Ok(s("name")));
    assert_eq!(upload_reply("a"), "✅ **The sound `a` has been uploaded you can find it in `list`**");
    assert_eq!(file_stem_of("noext"), "noext");
    assert!(is_mp3_file(".mp3"));
    assert!(!is_mp3_file("x.MP3"));
}

#[test]
fn stats_text() {
    assert_eq!(stats_message("", ""), "```= STATISTICS =• Mem Usage  :: \n• CPU Usage  :: ```");
}

#[test]
fn mention_targets() {
    assert_eq!(target_user("<@114941315417899012>"), Ok(114941315417899012));
    assert_eq!(target_user("<@!12345> 3"), Ok(12345));
    assert_eq!(target_user("<@+5>"), Ok(5));
    assert_eq!(target_user("<@12345"), Ok(1234));
    assert_eq!(target_user("<@1149413154aa17899012"), Err(s("❌ You have to use @ to mention someone!")));
    assert_eq!(target_user("hello"), Err(s("❌ You have to use @ to mention someone!")));
    assert_eq!(target_user("<@x"), Err(s("❌ You have to use @ to mention someone!")));
    assert_eq!(target_user(""), Err(s("❌ You have to mention someone!")));
    assert!(cuts_mid_char("<@é"));
    assert_eq!(checked_target_user("<@é 3"), None);
    assert_eq!(checked_target_user("<@!9>"), Some(Ok(9)));
    assert_eq!(checked_target_user(""), Some(Err(s("❌ You have to mention someone!"))));
    assert!(!cuts_mid_char("<@1>"));
}

#[test]
fn bounce_option_reading() {
    let o = bounce_options("<@1>").unwrap();
    assert_eq!((o.times, o.sound.as_str()), (1, "brazil"));
    let o = bounce_options("<@1> 5 zewzew").unwrap();
    assert_eq!((o.times, o.sound.as_str()), (5, "zewzew"));
    let o = bounce_options("<@1> 10").unwrap();
    assert_eq!((o.times, o.sound.as_str()), (10, "brazil"));
    assert_eq!(bounce_options("<@1> 11"), Err(s("10 max, kuchi kuchi!")));
    assert_eq!(bounce_options("<@1> 0"), Err(s("10 max, kuchi kuchi!")));
    assert_eq!(bounce_options("<@1> -3"), Err(s("10 max, kuchi kuchi!")));
}

fn run(with_sound: bool, events: Vec<BounceEvent>) -> Vec<BounceAction> {
    let mut state = BounceState::Start(with_sound);
    let mut actions = Vec::new();
    for e in events {
        let (next, a) = bounce_step(state, e);
        state = next;
        actions.push(a);
    }
    actions
}

#[test]
fn bounce_without_sound() {
    let mut events = vec![
        BounceEvent::Begin(s("<@123> 2")),
        BounceEvent::MemberFound(Some(42)),
        BounceEvent::Reacted(true),
    ];
    for _ in 0..2 {
        events.extend([BounceEvent::Moved(true), BounceEvent::Paused, BounceEvent::Moved(true), BounceEvent::Paused]);
    }
    events.push(BounceEvent::Moved(true));
    let actions = run(false, events);
    let mut expected = vec![BounceAction::LookupMember(123), BounceAction::React];
    for _ in 0..2 {
        expected.extend([
            BounceAction::Move(BOUNCE_FIRST),
            BounceAction::Pause(BOUNCE_PAUSE_MS),
            BounceAction::Move(BOUNCE_SECOND),
            BounceAction::Pause(BOUNCE_PAUSE_MS),
        ]);
    }
    expected.extend([BounceAction::Move(42), BounceAction::Finish]);
    assert_eq!(actions, expected);
}

#[test]
fn bounce_with_sound() {
    let actions = run(
        true,
        vec![
            BounceEvent::Begin(s("<@!7> 1 zewzew")),
            BounceEvent::MemberFound(Some(9)),
            BounceEvent::Reacted(true),
            BounceEvent::Joined(true),
            BounceEvent::SourceOpened(true),
            BounceEvent::Played,
            BounceEvent::Moved(true),
            BounceEvent::Paused,
            BounceEvent::Moved(true),
            BounceEvent::Paused,
            BounceEvent::Moved(true),
            BounceEvent::Left(true),
        ],
    );
    assert_eq!(
        actions,
        vec![
            BounceAction::LookupMember(7),
            BounceAction::React,
            BounceAction::Join(9),
            BounceAction::OpenSource(s("./sounds/zewzew.mp3")),
            BounceAction::PlayToEnd,
            BounceAction::Move(BOUNCE_FIRST),
            BounceAction::Pause(BOUNCE_PAUSE_MS),
            BounceAction::Move(BOUNCE_SECOND),
            BounceAction::Pause(BOUNCE_PAUSE_MS),
            BounceAction::Move(9),
            BounceAction::Leave,
            BounceAction::Finish,
        ]
    );
}

#[test]
fn bounce_refusals_and_failures() {
    assert_eq!(run(true, vec![BounceEvent::Begin(s(""))]), vec![BounceAction::Say(s("❌ You have to mention someone!"))]);
    assert_eq!(run(true, vec![BounceEvent::Begin(s("bob"))]), vec![BounceAction::Say(s("❌ You have to use @ to mention someone!"))]);
    assert_eq!(
        run(true, vec![BounceEvent::Begin(s("<@1>")), BounceEvent::MemberFound(None)]),
        vec![BounceAction::LookupMember(1), BounceAction::Say(s("❌ Error! User must be in a channel."))]
    );
    assert_eq!(
        run(true, vec![BounceEvent::Begin(s("<@1> 11")), BounceEvent::MemberFound(Some(2))]),
        vec![BounceAction::LookupMember(1), BounceAction::Reply(s("10 max, kuchi kuchi!"))]
    );
    let a = run(true, vec![
        BounceEvent::Begin(s("<@1>")),
        BounceEvent::MemberFound(Some(2)),
        BounceEvent::Reacted(true),
        BounceEvent::Joined(true),
        BounceEvent::SourceOpened(false),
    ]);
    assert_eq!(a.last(), Some(&BounceAction::Say(s("❌ Error sourcing ffmpeg"))));
    let a = run(false, vec![
        BounceEvent::Begin(s("<@1>")),
        BounceEvent::MemberFound(Some(2)),
        BounceEvent::Reacted(true),
        BounceEvent::Moved(false),
        BounceEvent::Moved(true),
    ]);
    assert_eq!(&a[3..], &[BounceAction::Fail, BounceAction::Nothing]);
    let a = run(true, vec![
        BounceEvent::Begin(s("<@1>")),
        BounceEvent::MemberFound(Some(2)),
        BounceEvent::Reacted(true),
        BounceEvent::Joined(false),
    ]);
    assert_eq!(a.last(), Some(&BounceAction::Move(BOUNCE_FIRST)));
}

#[test]
fn bounce_admissibility() {
    assert!(!bounce_step_admissible(&BounceState::Start(true), &BounceEvent::Begin(s("<@é 3"))));
    assert!(bounce_step_admissible(&BounceState::Start(true), &BounceEvent::Begin(s("<@1> 3"))));
    let waiting = BounceState::FindingMember { with_sound: false, args_text: s("<@1> abc") };
    assert!(!bounce_step_admissible(&waiting, &BounceEvent::MemberFound(Some(3))));
    assert!(bounce_step_admissible(&waiting, &BounceEvent::MemberFound(None)));
    assert_eq!(checked_bounce_step(waiting, BounceEvent::MemberFound(Some(3))), None);
    let tab = BounceState::FindingMember { with_sound: false, args_text: s("<@1> \t") };
    assert!(!bounce_step_admissible(&tab, &BounceEvent::MemberFound(Some(3))));
}

#[test]
fn join_and_leave() {
    assert_eq!(voice_channel(None), Err(s("❌ You are not in a voice channel!")));
    assert_eq!(voice_channel(Some(3)), Ok(3));
    assert_eq!(leave_reply(true), None);
    assert_eq!(leave_reply(false), Some(s("❌ I'm not in a voice channel!")));
}

#[test]
fn play_machine_full_run() {
    let (st, a) = play(PlayState::Start, PlayEvent::Begin(s("zewzew other")));
    assert_eq!(a, PlayAction::CheckSound(s("./sounds/zewzew.mp3")));
    let (st, a) = play(st, PlayEvent::SoundChecked(true));
    assert_eq!(a, PlayAction::FindChannel);
    let (st, a) = play(st, PlayEvent::ChannelFound(Some(5)));
    assert_eq!(a, PlayAction::Join(5));
    let (st, a) = play(st, PlayEvent::Joined(true));
    assert_eq!(a, PlayAction::OpenSource(s("./sounds/zewzew.mp3")));
    let (st, a) = play(st, PlayEvent::SourceOpened(true));
    assert_eq!(a, PlayAction::StopAndPlay);
    let (st, a) = play(st, PlayEvent::Played);
    assert_eq!(a, PlayAction::ReactControls);
    assert_eq!(st, PlayState::Done);
    assert_eq!(play(st, PlayEvent::Played), (PlayState::Done, PlayAction::Finish));
}

#[test]
fn play_first_step() {
    assert_eq!(
        play_begin(Some(s("x"))),
        (PlayState::CheckingSound(s("x")), PlayAction::CheckSound(s("./sounds/x.mp3")))
    );
    assert_eq!(play_begin(None), (PlayState::Done, PlayAction::Say(s("❌ Must provide a sound name"))));
}

#[test]
fn play_machine_refusals() {
    assert_eq!(
        play(PlayState::Start, PlayEvent::Begin(s(""))),
        (PlayState::Done, PlayAction::Say(s("❌ Must provide a sound name")))
    );
    let st = PlayState::CheckingSound(s("x"));
    assert_eq!(
        play(st, PlayEvent::SoundChecked(false)),
        (PlayState::Done, PlayAction::Reply(s("❌ This sound name doesn't exist!")))
    );
    let st = PlayState::FindingChannel(s("x"));
    assert_eq!(
        play(st, PlayEvent::ChannelFound(None)),
        (PlayState::Done, PlayAction::Reply(s("❌ You are not in a voice channel!")))
    );
    let st = PlayState::Joining(s("x"));
    assert_eq!(play(st, PlayEvent::Joined(false)), (PlayState::Done, PlayAction::ReactControls));
    let st = PlayState::Opening(s("x"));
    assert_eq!(
        play(st, PlayEvent::SourceOpened(false)),
        (PlayState::Done, PlayAction::Say(s("❌ Error sourcing ffmpeg")))
    );
}

#[test]
fn bounce_laws_on_a_run() {
    let without = run(false, vec![
        BounceEvent::Begin(s("<@1> 1")),
        BounceEvent::MemberFound(Some(2)),
        BounceEvent::Reacted(true),
        BounceEvent::Moved(true),
        BounceEvent::Paused,
        BounceEvent::Moved(true),
        BounceEvent::Paused,
        BounceEvent::Moved(true),
    ]);
    assert!(without.iter().all(|a| !matches!(
        a,
        BounceAction::Join(_) | BounceAction::OpenSource(_) | BounceAction::PlayToEnd | BounceAction::Leave
    )));
    let with = run(true, vec![
        BounceEvent::Begin(s("<@1> 1")),
        BounceEvent::MemberFound(Some(2)),
        BounceEvent::Reacted(true),
        BounceEvent::Joined(false),
        BounceEvent::Moved(true),
        BounceEvent::Paused,
        BounceEvent::Moved(true),
        BounceEvent::Paused,
        BounceEvent::Moved(true),
        BounceEvent::Left(true),
    ]);
    assert_eq!(&with[with.len() - 3..], &[BounceAction::Move(2), BounceAction::Leave, BounceAction::Finish]);
}
