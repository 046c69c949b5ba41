use sleuth::map_vote::{
    kick_vote_kind, CancelReply, ModuleVoteTick, RegistryVoteReply, VoteKind, VoteModule, VotePrerequisite, VoteTally,
};
use sleuth::chat_type::EChatType;
use sleuth::discord_modules::{CommandSource, DashboardSettings, KickVote, ModuleConfig};
use sleuth::map_vote::{ExtMapVote, MapVoteEvent, VoteCastEvent, VoteResult, VoteStartReply, VoteTick, VOTE_DURATION_MS};
use sleuth::notifications::{AdminAlert, GameChatMessage, JoinEvent, KillEvent};

#[test]
fn map_vote_start_cast_and_pass() {
    let mut v = ExtMapVote::new();
    let bob = "Bob".to_string();
    let ann = "Ann".to_string();
    match v.on_chat(&bob, "  !startvotemap   FFA_Courtyard  ", 1000) {
        Some(VoteStartReply::Started { initiator, map }) => {
            assert_eq!(initiator, "Bob");
            assert_eq!(map, "FFA_Courtyard");
        }
        _ => panic!("vote did not start"),
    }
    assert!(matches!(v.on_chat(&ann, "!startvotemap Other", 1001), Some(VoteStartReply::AlreadyActive)));
    assert!(v.on_chat(&ann, "!NO", 1002).is_none());
    assert!(v.on_chat(&ann, "!yes", 1003).is_none());
    match v.resolve_vote() {
        Some(VoteResult::Passed { yes, no, command }) => {
            assert_eq!((yes, no), (2, 0));
            assert_eq!(command, "servertravel FFA_Courtyard");
        }
        _ => panic!("vote should pass"),
    }
    assert!(v.resolve_vote().is_none());
}

#[test]
fn map_vote_fails_on_tie_and_ticks() {
    let mut v = ExtMapVote::new();
    let bob = "Bob".to_string();
    let ann = "Ann".to_string();
    v.init_vote(bob.clone(), "Map".to_string(), 0);
    v.cast_vote(&ann, false);
    // no report before five seconds
    assert!(v.on_tick(4_000).is_none());
    match v.on_tick(5_000) {
        Some(VoteTick::Progress { map, yes, no, remaining_secs }) => {
            assert_eq!(map, "Map");
            assert_eq!((yes, no, remaining_secs), (1, 1, 10));
        }
        _ => panic!("expected a progress report"),
    }
    assert!(v.on_tick(6_000).is_none());
    match v.on_tick(VOTE_DURATION_MS) {
        Some(VoteTick::Resolved(VoteResult::Failed { yes, no })) => assert_eq!((yes, no), (1, 1)),
        _ => panic!("expected a failed vote"),
    }
    assert!(v.on_tick(VOTE_DURATION_MS + 1).is_none());
}

#[test]
fn votes_switch_sides() {
    let mut v = ExtMapVote::new();
    v.init_vote("Bob".to_string(), "Map".to_string(), 0);
    let bob = "Bob".to_string();
    v.cast_vote(&bob, false);
    v.cast_vote(&bob, false);
    match v.resolve_vote() {
        Some(VoteResult::Failed { yes, no }) => assert_eq!((yes, no), (0, 1)),
        _ => panic!("expected a failed vote"),
    }
}

#[test]
fn chat_outside_votes_is_ignored() {
    let mut v = ExtMapVote::new();
    assert!(v.on_chat(&"Bob".to_string(), "!yes", 0).is_none());
    assert!(v.on_tick(100).is_none());
}

#[test]
fn kick_vote_prerequisites() {
    let k = KickVote;
    assert_eq!(k.title(), "Kick Player");
    assert_eq!(k.min_votes(), 4);
    assert!(k.description().starts_with("Vote to remove a disruptive player"));
    assert_eq!(
        k.check_prerequisites(&CommandSource::Discord, &vec!["x".to_string()]),
        Err("Kick votes can only be started from in-game chat.".to_string())
    );
    assert_eq!(
        k.check_prerequisites(&CommandSource::GameChat, &vec![]),
        Err("You must specify a player name to kick.".to_string())
    );
    assert_eq!(k.check_prerequisites(&CommandSource::GameChat, &vec!["Bob".to_string()]), Ok(()));
}

#[test]
fn dashboard_settings_default_and_key() {
    assert!(!DashboardSettings::default().auto_spawn_dash);
    assert_eq!(DashboardSettings::key(), "Dashboard");
}

#[test]
fn notification_texts() {
    assert_eq!(JoinEvent { name: "Ann".to_string() }.notification_text(), "**Ann** has joined the battle!");
    let m = GameChatMessage { sender: "A".to_string(), message: "hi".to_string(), chat_type: EChatType::TeamSay };
    assert_eq!(m.notification_text(), "\u{1F4AC} **A**: hi");
    assert_eq!(m.event_type(), "GameChatMessage");
    let a = AdminAlert { reporter: "R".to_string(), reason: "cheater".to_string() };
    assert_eq!(a.notification_text(), "\u{1F6A8} **Admin Request**: R reports: cheater");
    let k = KillEvent { killer: "a".to_string(), victim: "b".to_string(), weapon: "axe".to_string() };
    assert_eq!(k.event_type(), "KillEvent");
    let e = MapVoteEvent { initiator: "Bob".to_string(), map_target: "Map".to_string() };
    assert_eq!(e.notification_text(), "Bob started a vote to change map to Map");
    assert_eq!(e.event_type(), "MapVoteEvent");
    assert_eq!(VoteCastEvent { voter_id: "v".to_string(), choice: true }.event_type(), "VoteCastEvent");
}

fn kinds() -> Vec<VoteKind> {
    vec![
        kick_vote_kind(),
        VoteKind {
            name: "votemap".to_string(),
            title: "Change Map".to_string(),
            description: "Vote to change the map.".to_string(),
            min_votes: 2,
            prerequisite: VotePrerequisite::TargetArgument,
        },
    ]
}

#[test]
fn module_votes_start_from_the_registry() {
    let mut m = VoteModule::new(kinds());
    assert_eq!(m.name(), "VoteModule");
    let no_args: Vec<String> = vec![];
    match m.run_registry_vote("votefoo", "x".to_string(), &CommandSource::GameChat, &no_args, "Al".to_string(), 0) {
        RegistryVoteReply::Unknown(t) => assert_eq!(t, "\u{274C} Unknown vote type: votefoo"),
        _ => panic!("unknown kind"),
    }
    match m.run_registry_vote("votekick", "Bob".to_string(), &CommandSource::Discord, &vec!["Bob".to_string()], "Al".to_string(), 0) {
        RegistryVoteReply::Refused(t) => assert_eq!(t, "\u{26A0}\u{FE0F} Kick votes can only be started from in-game chat."),
        _ => panic!("kick from discord"),
    }
    match m.run_registry_vote("votemap", "x".to_string(), &CommandSource::Discord, &no_args, "Al".to_string(), 0) {
        RegistryVoteReply::Refused(t) => assert_eq!(t, "\u{26A0}\u{FE0F} This vote requires a target argument."),
        _ => panic!("missing target"),
    }
    match m.run_registry_vote("votemap", "Arena".to_string(), &CommandSource::Discord, &vec!["Arena".to_string()], "Al".to_string(), 1000) {
        RegistryVoteReply::Started(e) => {
            assert_eq!(e.title, "\u{1F5F3}\u{FE0F} Vote Started: Change Map");
            assert_eq!(e.description, "Vote to change the map.\n\n**Target:** `Arena`\n**By:** Al");
        }
        _ => panic!("started"),
    }
}

#[test]
fn module_votes_count_tick_and_resolve() {
    let mut m = VoteModule::new(kinds());
    m.init_vote(1, "Arena".to_string(), "Al".to_string(), 0);
    m.cmd_yes(&"Bo".to_string());
    m.cmd_no(&"Cy".to_string());
    m.cmd_no(&"Bo".to_string());
    assert!(m.on_tick(4000).is_none());
    match m.on_tick(6000) {
        Some(ModuleVoteTick::Progress(l)) => assert_eq!(l, "\u{23F3} **Vote Active:** 1 Yes | 2 No (14s remaining)"),
        _ => panic!("progress"),
    }
    assert!(m.on_tick(9000).is_none());
    match m.on_tick(20000) {
        Some(ModuleVoteTick::Resolved(t)) => {
            assert_eq!((t.kind, t.yes, t.no), (1, 1, 2));
            assert_eq!(t.target, "Arena");
            let o = m.outcome(&t, false);
            assert!(!o.passed);
            assert_eq!(o.title, "Results: Change Map");
            assert_eq!(o.count, "\u{2705} 1 Yes | \u{274C} 2 No");
            assert_eq!(o.description, "\u{274C} **Failed.** Requirements not met for `Arena`.");
            assert_eq!(o.color, 0xe74c3c);
            let p = m.outcome(&VoteTally { kind: 1, target: "Arena".to_string(), yes: 1, no: 1 }, true);
            assert!(p.passed);
            assert_eq!(p.description, "\u{2705} **Passed!** Target `Arena` executed.");
        }
        _ => panic!("resolved"),
    }
    assert!(m.on_tick(30000).is_none());
}

#[test]
fn module_vote_cancel() {
    let mut m = VoteModule::new(kinds());
    match m.cmd_cancelvote() {
        CancelReply::NoVote(t) => assert_eq!(t, "No active Vote found"),
        _ => panic!("no vote"),
    }
    m.init_vote(0, "Bob".to_string(), "Al".to_string(), 0);
    match m.cmd_cancelvote() {
        CancelReply::Cancelled(e) => {
            assert_eq!(e.title, "\u{1F5F3}\u{FE0F} Vote Cancelled by Admin: Kick Player");
            assert!(e.description.starts_with("Vote to remove"));
        }
        _ => panic!("cancelled"),
    }
    assert!(m.resolve_vote().is_none());
}

#[test]
fn kick_vote_counts_all_participants() {
    let m = VoteModule::new(kinds());
    // 3 yes and 1 no: four people took part and the yes share (0.75) meets 2/3.
    let t = VoteTally { kind: 0, target: "bob".to_string(), yes: 3, no: 1 };
    let o = m.outcome(&t, true);
    assert!(o.passed);
    assert_eq!(o.description, "\u{2705} **Passed!** Target `bob` executed.");
    // Three voters are too few, whatever the share.
    let few = VoteTally { kind: 0, target: "bob".to_string(), yes: 3, no: 0 };
    assert!(!m.outcome(&few, true).passed);
}
