use sleuth::duel::{DamageOutcome, DuelManager};

fn s(x: &str) -> String {
    x.to_string()
}

#[test]
fn duel_start_announces_both_players() {
    let mut m = DuelManager::new();
    let text = m.on_duel_start(&s("Alice"), &s("Bob"));
    assert_eq!(text, "\u{2694}\u{FE0F} **DUEL STARTED**: Alice vs Bob!");
    assert_eq!(m.name(), "DuelManager");
}

#[test]
fn duel_counts_attacks_and_parries() {
    let mut m = DuelManager::new();
    m.on_duel_start(&s("Alice"), &s("Bob"));
    m.on_attack(&s("Alice"), &s("Slash"), false);
    m.on_attack(&s("Alice"), &s("Slash"), true);
    m.on_attack(&s("Alice"), &s("Stab"), false);
    m.on_attack(&s("Bob"), &s("Overhead"), true);
    // A bystander's attacks are not counted.
    m.on_attack(&s("Carol"), &s("Slash"), true);
    let d = m.on_kill(&s("Alice"), &s("Bob")).expect("the duel ends");
    assert_eq!(d.p1(), "Alice");
    assert_eq!(d.p2(), "Bob");
    assert_eq!(d.parries_of(&s("Bob")), 1);
    assert_eq!(d.parries_of(&s("Alice")), 1);
    assert_eq!(d.parries_of(&s("Carol")), 0);
    let mut alice = d.attacks_of(&s("Alice"));
    alice.sort();
    assert_eq!(alice, vec![(s("Slash"), 2), (s("Stab"), 1)]);
    assert_eq!(d.attacks_of(&s("Bob")), vec![(s("Overhead"), 1)]);
    assert!(d.attacks_of(&s("Carol")).is_empty());
}

#[test]
fn duel_damage_outcomes() {
    let mut m = DuelManager::new();
    assert!(matches!(m.on_damage(&s("Alice"), &s("Bob")), DamageOutcome::Ignored));
    m.on_duel_start(&s("Alice"), &s("Bob"));
    assert!(matches!(m.on_damage(&s("Alice"), &s("Bob")), DamageOutcome::Recorded));
    // Someone else hitting a duelist still counts.
    assert!(matches!(m.on_damage(&s("Carol"), &s("Alice")), DamageOutcome::Recorded));
    assert!(matches!(m.on_damage(&s("Carol"), &s("Dave")), DamageOutcome::Ignored));
    match m.on_damage(&s("Bob"), &s("Carol")) {
        DamageOutcome::Cancelled(text) => {
            assert_eq!(text, "\u{1F6AB} **Duel Cancelled**: Interference detected!")
        }
        _ => panic!("a duelist hitting a bystander calls the duel off"),
    }
    // No duel is left to end.
    assert!(m.on_kill(&s("Alice"), &s("Bob")).is_none());
}

#[test]
fn duel_ends_only_on_a_duelist_kill() {
    let mut m = DuelManager::new();
    m.on_duel_start(&s("Alice"), &s("Bob"));
    assert!(m.on_kill(&s("Carol"), &s("Bob")).is_none());
    assert!(m.on_kill(&s("Alice"), &s("Alice")).is_none());
    assert!(m.on_kill(&s("Bob"), &s("Alice")).is_some());
    assert!(m.on_kill(&s("Bob"), &s("Alice")).is_none());
}

#[test]
fn duel_restart_clears_counts() {
    let mut m = DuelManager::new();
    m.on_duel_start(&s("Alice"), &s("Bob"));
    m.on_attack(&s("Alice"), &s("Slash"), true);
    m.on_duel_start(&s("Alice"), &s("Bob"));
    let d = m.on_kill(&s("Bob"), &s("Alice")).unwrap();
    assert!(d.attacks_of(&s("Alice")).is_empty());
    assert_eq!(d.parries_of(&s("Bob")), 0);
}
