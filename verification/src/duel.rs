use vstd::prelude::*;
use crate::keyed::{keyed_map, keys_distinct, lemma_keyed_contains, lemma_keyed_lookup, lemma_keyed_update};
use crate::text::{concat_all, concat_strs};

verus! {

/// The count recorded for `k`, 0 when none is.
pub open spec fn count_of<K>(m: Map<K, u32>, k: K) -> nat {
    if m.contains_key(k) {
        m[k] as nat
    } else {
        0
    }
}

/// What a duel in progress has recorded: the two duelists, how often each
/// attacked with each kind of attack, and how often each parried.
pub struct DuelView {
    pub p1: Seq<char>,
    pub p2: Seq<char>,
    pub attacks: Map<(Seq<char>, Seq<char>), u32>,
    pub parries: Map<Seq<char>, u32>,
}

impl DuelView {
    /// Whether `name` is one of the duelists.
    pub open spec fn is_duelist(self, name: Seq<char>) -> bool {
        name == self.p1 || name == self.p2
    }

    /// The duelist who defends against an attack of `attacker`.
    pub open spec fn defender(self, attacker: Seq<char>) -> Seq<char> {
        if attacker == self.p1 {
            self.p2
        } else {
            self.p1
        }
    }

    /// Whether recording an attack of a duelist fits the counters.
    pub open spec fn attack_fits(self, attacker: Seq<char>, kind: Seq<char>, was_parried: bool) -> bool {
        &&& count_of(self.attacks, (attacker, kind)) < u32::MAX
        &&& was_parried ==> count_of(self.parries, self.defender(attacker)) < u32::MAX
    }

    /// The record after the duelist `attacker` attacked with `kind`: one more
    /// such attack, and one more parry of the defender when it was parried.
    pub open spec fn after_attack(self, attacker: Seq<char>, kind: Seq<char>, was_parried: bool) -> DuelView {
        DuelView {
            attacks: self.attacks.insert(
                (attacker, kind),
                (count_of(self.attacks, (attacker, kind)) + 1) as u32,
            ),
            parries: if was_parried {
                self.parries.insert(
                    self.defender(attacker),
                    (count_of(self.parries, self.defender(attacker)) + 1) as u32,
                )
            } else {
                self.parries
            },
            ..self
        }
    }

    /// Whether the kill of `victim` by `killer` is one duelist beating the other.
    pub open spec fn is_decisive_kill(self, killer: Seq<char>, victim: Seq<char>) -> bool {
        (victim == self.p1 && killer == self.p2) || (victim == self.p2 && killer == self.p1)
    }
}

/// A duel in progress.
pub struct ActiveDuel {
    p1: String,
    p2: String,
    attack_counts: Vec<((String, String), u32)>,
    parries: Vec<(String, u32)>,
}

impl View for ActiveDuel {
    type V = DuelView;

    closed spec fn view(&self) -> DuelView {
        DuelView {
            p1: self.p1@,
            p2: self.p2@,
            attacks: keyed_map(self.attack_counts@),
            parries: keyed_map(self.parries@),
        }
    }
}

impl ActiveDuel {
    /// No duelist, nor duelist and kind of attack, is counted twice.
    #[verifier::type_invariant]
    spec fn inv(self) -> bool {
        keys_distinct(self.attack_counts@) && keys_distinct(self.parries@)
    }

    /// The challenger.
    pub fn p1(&self) -> (r: &String)
        ensures
            r@ == self@.p1,
    {
        &self.p1
    }

    /// The opponent.
    pub fn p2(&self) -> (r: &String)
        ensures
            r@ == self@.p2,
    {
        &self.p2
    }

    /// How often `player` parried (0 when never).
    pub fn parries_of(&self, player: &String) -> (r: u32)
        ensures
            r == count_of(self@.parries, player@),
    {
        proof {
            use_type_invariant(self);
        }
        let mut i: usize = 0;
        while i < self.parries.len()
            invariant
                i <= self.parries@.len(),
                keys_distinct(self.parries@),
                forall|j: int| 0 <= j < i ==> (#[trigger] self.parries@[j]).0@ != player@,
            decreases self.parries@.len() - i,
        {
            if self.parries[i].0 == *player {
                proof {
                    assert forall|x: int| i < x < self.parries@.len() implies (#[trigger] self.parries@[x]).0@
                        != player@ by {
                        assert(self.parries@[i as int].0@ != self.parries@[x].0@);
                    }
                    lemma_keyed_lookup(self.parries@, player@, i as int);
                }
                return self.parries[i].1;
            }
            i += 1;
        }
        proof {
            lemma_keyed_lookup(self.parries@, player@, -1);
        }
        0
    }

    /// The kinds of attack `player` used, each with how often it was used.
    pub fn attacks_of(&self, player: &String) -> (r: Vec<(String, u32)>)
        ensures
            keys_distinct(r@),
            forall|kind: Seq<char>|
                #![trigger keyed_map(r@).contains_key(kind)]
                keyed_map(r@).contains_key(kind) == self@.attacks.contains_key((player@, kind))
                    && (keyed_map(r@).contains_key(kind) ==> keyed_map(r@)[kind] == self@.attacks[(
                    player@,
                    kind,
                )]),
    {
        proof {
            use_type_invariant(self);
        }
        let ghost all = self.attack_counts@;
        let mut r: Vec<(String, u32)> = Vec::new();
        let mut i: usize = 0;
        while i < self.attack_counts.len()
            invariant
                i <= all.len(),
                all == self.attack_counts@,
                keys_distinct(all),
                keys_distinct(r@),
                forall|kind: Seq<char>|
                    #![trigger keyed_map(r@).contains_key(kind)]
                    keyed_map(r@).contains_key(kind) == keyed_map(all.take(i as int)).contains_key(
                        (player@, kind),
                    ) && (keyed_map(r@).contains_key(kind) ==> keyed_map(r@)[kind] == keyed_map(
                        all.take(i as int),
                    )[(player@, kind)]),
            decreases all.len() - i,
        {
            let ghost prev_map = keyed_map(all.take(i as int));
            assert(all.take(i + 1).drop_last() =~= all.take(i as int));
            assert(keyed_map(all.take(i + 1)) == prev_map.insert(all[i as int].0@, all[i as int].1));
            let entry = &self.attack_counts[i];
            if entry.0.0 == *player {
                let kind = entry.0.1.clone();
                proof {
                    assert forall|j: int| 0 <= j < r@.len() implies (#[trigger] r@[j]).0@ != kind@ by {
                        lemma_keyed_lookup(r@, r@[j].0@, j);
                        lemma_keyed_contains(all.take(i as int), (player@, kind@));
                        if r@[j].0@ == kind@ {
                            assert(keyed_map(r@).contains_key(kind@));
                            let k = choose|k: int|
                                0 <= k < all.take(i as int).len() && (#[trigger] all.take(
                                    i as int,
                                )[k]).0@ == (player@, kind@);
                            assert(all[k].0@ == all[i as int].0@);
                        }
                    }
                }
                let ghost before = r@;
                r.push((kind, entry.1));
                proof {
                    assert(r@.drop_last() =~= before);
                    assert(keyed_map(r@) == keyed_map(before).insert(kind@, entry.1));
                    assert forall|a: int, b: int| 0 <= a < b < r@.len() implies r@[a].0@ != r@[b].0@ by {
                        if b == r@.len() - 1 {
                            assert(r@[a] == before[a]);
                        } else {
                            assert(r@[a] == before[a] && r@[b] == before[b]);
                        }
                    }
                    assert forall|k: Seq<char>|
                        #![trigger keyed_map(r@).contains_key(k)]
                        keyed_map(r@).contains_key(k) == keyed_map(all.take(i + 1)).contains_key(
                            (player@, k),
                        ) && (keyed_map(r@).contains_key(k) ==> keyed_map(r@)[k] == keyed_map(
                            all.take(i + 1),
                        )[(player@, k)]) by {
                        if k != kind@ {
                            assert(keyed_map(before).contains_key(k) == prev_map.contains_key((player@, k)));
                        }
                    }
                }
            } else {
                proof {
                    assert forall|k: Seq<char>|
                        #![trigger keyed_map(r@).contains_key(k)]
                        keyed_map(r@).contains_key(k) == keyed_map(all.take(i + 1)).contains_key(
                            (player@, k),
                        ) && (keyed_map(r@).contains_key(k) ==> keyed_map(r@)[k] == keyed_map(
                            all.take(i + 1),
                        )[(player@, k)]) by {
                        assert(all[i as int].0@ != (player@, k));
                    }
                }
            }
            i += 1;
        }
        assert(all.take(all.len() as int) =~= all);
        r
    }
}

/// The position of `key` among the keys of `entries`, if it is there.
fn find_player(entries: &Vec<(String, u32)>, key: &String) -> (r: Option<usize>)
    requires
        keys_distinct(entries@),
    ensures
        match r {
            Some(i) => i < entries@.len() && entries@[i as int].0@ == key@ && keyed_map(entries@).contains_key(
                key@,
            ) && keyed_map(entries@)[key@] == entries@[i as int].1,
            None => !keyed_map(entries@).contains_key(key@),
        },
{
    let mut i: usize = 0;
    while i < entries.len()
        invariant
            i <= entries@.len(),
            keys_distinct(entries@),
            forall|j: int| 0 <= j < i ==> (#[trigger] entries@[j]).0@ != key@,
        decreases entries@.len() - i,
    {
        if entries[i].0 == *key {
            proof {
                assert forall|x: int| i < x < entries@.len() implies (#[trigger] entries@[x]).0@ != key@ by {
                    assert(entries@[i as int].0@ != entries@[x].0@);
                }
                lemma_keyed_lookup(entries@, key@, i as int);
            }
            return Some(i);
        }
        i += 1;
    }
    proof {
        lemma_keyed_lookup(entries@, key@, -1);
    }
    None
}

/// The position of (`player`, `kind`) among the keys of `entries`, if it is there.
fn find_attack(entries: &Vec<((String, String), u32)>, player: &String, kind: &String) -> (r: Option<usize>)
    requires
        keys_distinct(entries@),
    ensures
        match r {
            Some(i) => i < entries@.len() && entries@[i as int].0@ == (player@, kind@) && keyed_map(
                entries@,
            ).contains_key((player@, kind@)) && keyed_map(entries@)[(player@, kind@)] == entries@[i as int].1,
            None => !keyed_map(entries@).contains_key((player@, kind@)),
        },
{
    let ghost key = (player@, kind@);
    let mut i: usize = 0;
    while i < entries.len()
        invariant
            i <= entries@.len(),
            keys_distinct(entries@),
            key == (player@, kind@),
            forall|j: int| 0 <= j < i ==> (#[trigger] entries@[j]).0@ != key,
        decreases entries@.len() - i,
    {
        if entries[i].0.0 == *player && entries[i].0.1 == *kind {
            proof {
                assert(entries@[i as int].0@ == key);
                assert forall|x: int| i < x < entries@.len() implies (#[trigger] entries@[x]).0@ != key by {
                    assert(entries@[i as int].0@ != entries@[x].0@);
                }
                lemma_keyed_lookup(entries@, key, i as int);
            }
            return Some(i);
        }
        i += 1;
    }
    proof {
        lemma_keyed_lookup(entries@, key, -1);
    }
    None
}

/// Adds one to the count of `key`.
fn bump_player(entries: &mut Vec<(String, u32)>, key: &String)
    requires
        keys_distinct(old(entries)@),
        count_of(keyed_map(old(entries)@), key@) < u32::MAX,
    ensures
        keys_distinct(final(entries)@),
        keyed_map(final(entries)@) == keyed_map(old(entries)@).insert(
            key@,
            (count_of(keyed_map(old(entries)@), key@) + 1) as u32,
        ),
{
    let ghost start = entries@;
    match find_player(entries, key) {
        Some(i) => {
            let e = (key.clone(), entries[i].1 + 1);
            proof {
                lemma_keyed_update(start, i as int, e);
            }
            entries.set(i, e);
        },
        None => {
            entries.push((key.clone(), 1));
            assert(entries@.drop_last() =~= start);
            assert forall|a: int, b: int| 0 <= a < b < entries@.len() implies entries@[a].0@ != entries@[b].0@ by {
                if b == entries@.len() - 1 {
                    assert(keyed_map(start).contains_key(entries@[a].0@)) by {
                        lemma_keyed_lookup(start, entries@[a].0@, a);
                    }
                }
            }
        },
    }
}

/// Adds one to the count of `player` attacking with `kind`.
fn bump_attack(entries: &mut Vec<((String, String), u32)>, player: &String, kind: &String)
    requires
        keys_distinct(old(entries)@),
        count_of(keyed_map(old(entries)@), (player@, kind@)) < u32::MAX,
    ensures
        keys_distinct(final(entries)@),
        keyed_map(final(entries)@) == keyed_map(old(entries)@).insert(
            (player@, kind@),
            (count_of(keyed_map(old(entries)@), (player@, kind@)) + 1) as u32,
        ),
{
    let ghost start = entries@;
    match find_attack(entries, player, kind) {
        Some(i) => {
            let e = ((player.clone(), kind.clone()), entries[i].1 + 1);
            proof {
                lemma_keyed_update(start, i as int, e);
            }
            entries.set(i, e);
        },
        None => {
            entries.push(((player.clone(), kind.clone()), 1));
            assert(entries@.drop_last() =~= start);
            assert forall|a: int, b: int| 0 <= a < b < entries@.len() implies entries@[a].0@ != entries@[b].0@ by {
                if b == entries@.len() - 1 {
                    assert(keyed_map(start).contains_key(entries@[a].0@)) by {
                        lemma_keyed_lookup(start, entries@[a].0@, a);
                    }
                }
            }
        },
    }
}

/// What a hit reported during a duel leads to.
pub enum DamageOutcome {
    /// Not the duel's business.
    Ignored,
    /// A duelist was hit: the damage counts for the attacker.
    Recorded,
    /// A duelist hit someone else: the duel is off, with this announcement.
    Cancelled(String),
}

/// The announcement of a duel between `challenger` and `opponent`.
pub open spec fn duel_started_text(challenger: Seq<char>, opponent: Seq<char>) -> Seq<char> {
    "\u{2694}\u{FE0F} **DUEL STARTED**: "@ + challenger + " vs "@ + opponent + "!"@
}

/// The announcement of a duel called off.
pub open spec fn duel_cancelled_text() -> Seq<char> {
    "\u{1F6AB} **Duel Cancelled**: Interference detected!"@
}

/// Follows at most one duel at a time.
pub struct DuelManager {
    current_duel: Option<ActiveDuel>,
}

impl View for DuelManager {
    type V = Option<DuelView>;

    closed spec fn view(&self) -> Option<DuelView> {
        match self.current_duel {
            Some(d) => Some(d@),
            None => None,
        }
    }
}

impl DuelManager {
    /// No duel yet.
    pub fn new() -> (r: DuelManager)
        ensures
            r@ is None,
    {
        DuelManager { current_duel: None }
    }

    /// The module's name.
    pub fn name(&self) -> (r: &'static str)
        ensures
            r@ == "DuelManager"@,
    {
        "DuelManager"
    }

    /// Starts a duel between `challenger` and `opponent`, replacing any duel in
    /// progress, and gives its announcement.
    pub fn on_duel_start(&mut self, challenger: &String, opponent: &String) -> (r: String)
        ensures
            final(self)@ == Some(
                DuelView {
                    p1: challenger@,
                    p2: opponent@,
                    attacks: Map::empty(),
                    parries: Map::empty(),
                },
            ),
            r@ == duel_started_text(challenger@, opponent@),
    {
        let d = ActiveDuel {
            p1: challenger.clone(),
            p2: opponent.clone(),
            attack_counts: Vec::new(),
            parries: Vec::new(),
        };
        self.current_duel = Some(d);
        proof {
            assert(keyed_map(Seq::<((String, String), u32)>::empty()) =~= Map::empty());
            assert(keyed_map(Seq::<(String, u32)>::empty()) =~= Map::empty());
        }
        let parts = ["\u{2694}\u{FE0F} **DUEL STARTED**: ", challenger.as_str(), " vs ", opponent.as_str(), "!"];
        let r = concat_strs(&parts);
        proof {
            reveal_with_fuel(concat_all, 6);
            assert(parts@.take(0) =~= Seq::<&str>::empty());
            assert(parts@.drop_last().drop_last().drop_last().drop_last().drop_last() =~= Seq::<&str>::empty());
            assert(parts@.drop_last().drop_last().drop_last().drop_last() =~= seq![parts[0]]);
            assert(parts@.drop_last().drop_last().drop_last() =~= seq![parts[0], parts[1]]);
            assert(parts@.drop_last().drop_last() =~= seq![parts[0], parts[1], parts[2]]);
            assert(parts@.drop_last() =~= seq![parts[0], parts[1], parts[2], parts[3]]);
        }
        r
    }

    /// Whether [`DuelManager::on_attack`] can record this attack: no duel is
    /// on, `attacker` is not a duelist, or the counts it raises are below
    /// `u32::MAX`.
    pub fn can_record_attack(&self, attacker: &String, attack_type: &String, was_parried: bool) -> (r: bool)
        ensures
            r == (match self@ {
                Some(d) => d.is_duelist(attacker@) ==> d.attack_fits(attacker@, attack_type@, was_parried),
                None => true,
            }),
    {
        match &self.current_duel {
            Some(duel) => {
                proof {
                    use_type_invariant(duel);
                }
                if !(duel.p1 == *attacker || duel.p2 == *attacker) {
                    return true;
                }
                let attacks_fit = match find_attack(&duel.attack_counts, attacker, attack_type) {
                    Some(i) => duel.attack_counts[i].1 < u32::MAX,
                    None => true,
                };
                if !attacks_fit || !was_parried {
                    return attacks_fit;
                }
                let defender = if duel.p1 == *attacker {
                    &duel.p2
                } else {
                    &duel.p1
                };
                match find_player(&duel.parries, defender) {
                    Some(i) => duel.parries[i].1 < u32::MAX,
                    None => true,
                }
            },
            None => true,
        }
    }

    /// Records an attack: when a duel is on and `attacker` is a duelist, one
    /// more attack of `attack_type`, and one more parry of the other duelist
    /// when it was parried. Anything else changes nothing.
    pub fn on_attack(&mut self, attacker: &String, attack_type: &String, was_parried: bool)
        requires
            match old(self)@ {
                Some(d) => d.is_duelist(attacker@) ==> d.attack_fits(attacker@, attack_type@, was_parried),
                None => true,
            },
        ensures
            final(self)@ == (match old(self)@ {
                Some(d) => if d.is_duelist(attacker@) {
                    Some(d.after_attack(attacker@, attack_type@, was_parried))
                } else {
                    Some(d)
                },
                None => None,
            }),
    {
        if let Some(duel) = self.current_duel.take() {
            proof {
                use_type_invariant(&duel);
            }
            let ActiveDuel { p1, p2, mut attack_counts, mut parries } = duel;
            if p1 == *attacker || p2 == *attacker {
                bump_attack(&mut attack_counts, attacker, attack_type);
                if was_parried {
                    let defender = if p1 == *attacker {
                        p2.clone()
                    } else {
                        p1.clone()
                    };
                    bump_player(&mut parries, &defender);
                }
            }
            self.current_duel = Some(ActiveDuel { p1, p2, attack_counts, parries });
        }
    }

    /// Handles a hit of `attacker` on `victim`: when a duel is on, a hit on a
    /// duelist is `Recorded`; a hit of a duelist on anyone else calls the duel
    /// off (`Cancelled`, with [`duel_cancelled_text`]). Otherwise `Ignored`.
    pub fn on_damage(&mut self, attacker: &String, victim: &String) -> (r: DamageOutcome)
        ensures
            match old(self)@ {
                Some(d) => if d.is_duelist(victim@) {
                    r is Recorded && final(self)@ == old(self)@
                } else if d.is_duelist(attacker@) {
                    final(self)@ is None && (r matches DamageOutcome::Cancelled(m) && m@
                        == duel_cancelled_text())
                } else {
                    r is Ignored && final(self)@ == old(self)@
                },
                None => r is Ignored && final(self)@ is None,
            },
    {
        let (victim_in, attacker_in) = match &self.current_duel {
            Some(duel) => (
                duel.p1 == *victim || duel.p2 == *victim,
                duel.p1 == *attacker || duel.p2 == *attacker,
            ),
            None => return DamageOutcome::Ignored,
        };
        if victim_in {
            DamageOutcome::Recorded
        } else if attacker_in {
            self.current_duel = None;
            DamageOutcome::Cancelled("\u{1F6AB} **Duel Cancelled**: Interference detected!".to_owned())
        } else {
            DamageOutcome::Ignored
        }
    }

    /// Handles the kill of `victim` by `killer`: when one duelist killed the
    /// other, the duel ends and is handed back for its results; otherwise
    /// nothing changes.
    pub fn on_kill(&mut self, killer: &String, victim: &String) -> (r: Option<ActiveDuel>)
        ensures
            match old(self)@ {
                Some(d) => if d.is_decisive_kill(killer@, victim@) {
                    final(self)@ is None && (r matches Some(x) && x@ == d)
                } else {
                    r is None && final(self)@ == old(self)@
                },
                None => r is None && final(self)@ is None,
            },
    {
        let decisive = match &self.current_duel {
            Some(duel) => (*victim == duel.p1 && *killer == duel.p2) || (*victim == duel.p2 && *killer
                == duel.p1),
            None => false,
        };
        if decisive {
            self.current_duel.take()
        } else {
            None
        }
    }
}

} // verus!
