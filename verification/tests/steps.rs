use sleuth::build_info::{local_app_data_relative, BuildCache, BuildInfo, PatchStep, PlatformType};
use sleuth::command_queue::{console_line, ConsoleLineAction};
use sleuth::notifications::JoinEvent;
use sleuth::registration::{register_answer, Identity, WorkerAction, WorkerLoop};

#[test]
fn console_lines_pick_their_action() {
    assert_eq!(console_line("  findobj\n"), ConsoleLineAction::FindObject);
    assert_eq!(console_line("listmods"), ConsoleLineAction::ListMods);
    assert_eq!(console_line(" servertravel Arena \n"), ConsoleLineAction::Record("servertravel Arena".to_string()));
    assert_eq!(console_line("\n"), ConsoleLineAction::Record(String::new()));
}

#[test]
fn join_announcement() {
    let j = JoinEvent { name: "Al".to_string() };
    assert_eq!(j.notification_title(), "\u{1F4E5} Reinforcements");
    assert_eq!(j.notification_text(), "**Al** has joined the battle!");
    assert_eq!(j.notification_color(), 0x2ecc71);
}

#[test]
fn local_app_data_paths() {
    assert_eq!(
        local_app_data_relative("%LOCALAPPDATA%\\\\/Chivalry 2\\Saved"),
        Some("Chivalry 2\\Saved".to_string())
    );
    assert_eq!(local_app_data_relative("%LOCALAPPDATA%"), Some(String::new()));
    assert_eq!(local_app_data_relative("C:\\x"), None);
}

#[test]
fn registration_answers() {
    let ok = register_answer(Some(201), Some(("id".to_string(), "key".to_string(), 1100)), 1000);
    assert!(ok.announce);
    let i = ok.identity.unwrap();
    assert_eq!((i.id.as_str(), i.key.as_str(), i.refresh_at, i.refresh_period), ("id", "key", 1100, 30));
    let unread = register_answer(Some(200), None, 1000);
    assert!(unread.announce && unread.identity.is_none());
    let refused = register_answer(Some(500), Some(("id".to_string(), "k".to_string(), 1)), 0);
    assert!(!refused.announce && refused.identity.is_none());
    assert!(register_answer(None, None, 0).identity.is_none());
}

fn ident(refresh_at: u64) -> Identity {
    Identity { id: "srv".to_string(), key: "k".to_string(), refresh_at, refresh_period: 20 }
}

#[test]
fn worker_loop_backs_off_and_keeps_identity() {
    let mut w = WorkerLoop::new();
    assert!(w.needs_discovery());
    let waits: Vec<u64> = (0..7).map(|_| w.on_identity(None).unwrap()).collect();
    assert_eq!(waits, vec![10, 20, 40, 80, 160, 300, 300]);
    assert_eq!(w.on_identity(Some(ident(2000))), None);
    assert_eq!(w.backoff(), 10);
    // An identity held skips discovery and is reused while fresh.
    assert!(!w.needs_discovery());
    assert_eq!(w.usable_identity(1000).unwrap().refresh_at, 2000);
    assert!(w.usable_identity(1996).is_none());
    assert_eq!(w.on_heartbeat(Ok(3000)), WorkerAction::Wait(20));
    assert_eq!(w.usable_identity(2000).unwrap().refresh_at, 3000);
    assert_eq!(w.on_heartbeat(Err(false)), WorkerAction::Wait(10));
    assert_eq!(w.backoff(), 20);
    assert_eq!(w.on_heartbeat(Err(true)), WorkerAction::Stop);
    assert!(w.needs_discovery());
}

fn build() -> BuildInfo {
    BuildInfo::from_scan(7, PlatformType::STEAM, "g.exe".to_string(), vec![("A".to_string(), 1)])
}

#[test]
fn build_cache_loads_once_and_applies_once() {
    let mut c = BuildCache::new();
    assert!(c.needs_load());
    assert_eq!(c.patch_step(), PatchStep::NoBuild);
    assert!(!c.after_load(None, false));
    assert!(c.after_load(None, true));
    c.store_scan(build());
    assert!(!c.needs_load());
    assert!(!c.after_load(Some(build()), true));
    assert!(c.wants_missing_scan(true));
    assert!(!c.wants_missing_scan(false));
    c.add_found(vec![("B".to_string(), 2), ("A".to_string(), 5)]);
    let bi = c.current().unwrap();
    assert_eq!(bi.get_offset("A"), Some(5));
    assert_eq!(bi.get_offset("B"), Some(2));
    assert_eq!(c.patch_step(), PatchStep::Apply);
    assert_eq!(c.patch_step(), PatchStep::AlreadyApplied);
}
