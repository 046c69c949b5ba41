use vstd::prelude::*;
use crate::keyed::{keyed_map, keys_distinct, lemma_keyed_contains, lemma_keyed_lookup, lemma_keyed_update};
use crate::text::{
    chars_of, decimal_text, format_decimal, lemma_text_le_total, lemma_text_le_transitive,
    string_from_chars, text_le, text_le_exec, lemma_push_contains, string_views,
};

verus! {

/// A mod found in the game's asset registry.
pub struct Mod {
    pub name: String,
    pub organization: String,
    pub version: String,
    pub object_path: String,
}

impl Mod {
    /// A copy of the mod.
    pub fn copy(&self) -> (r: Mod)
        ensures
            r == *self,
    {
        Mod {
            name: self.name.clone(),
            organization: self.organization.clone(),
            version: self.version.clone(),
            object_path: self.object_path.clone(),
        }
    }
}

/// No string occurs twice in `v`.
pub open spec fn strings_distinct(v: Seq<String>) -> bool {
    forall|i: int, j: int| 0 <= i < j < v.len() ==> v[i]@ != v[j]@
}


/// What the mod manager knows: the mods found (by object path) and the object
/// paths of the mods active in the world.
pub struct ModManagerView {
    pub registry: Map<Seq<char>, Mod>,
    pub active: Seq<Seq<char>>,
}

/// Keeps the mods found in the asset registry and the set of active ones.
pub struct ModManager {
    registry: Vec<(String, Mod)>,
    active_paths: Vec<String>,
}

impl View for ModManager {
    type V = ModManagerView;

    closed spec fn view(&self) -> ModManagerView {
        ModManagerView {
            registry: keyed_map(self.registry@),
            active: self.active_paths@.map_values(|s: String| s@),
        }
    }
}

/// The object paths of `v`, in order.
pub open spec fn path_views(v: Seq<String>) -> Seq<Seq<char>> {
    v.map_values(|s: String| s@)
}

/// The mods of the active paths that the registry knows, in the order of the
/// active paths.
pub open spec fn active_metadata(v: ModManagerView) -> Seq<Mod> {
    v.active.filter(|p: Seq<char>| v.registry.contains_key(p)).map_values(|p: Seq<char>| v.registry[p])
}

/// Each (object path, mod) entry holds the mod found at that object path.
pub open spec fn paths_match(entries: Seq<(String, Mod)>) -> bool {
    forall|i: int| 0 <= i < entries.len() ==> (#[trigger] entries[i]).1.object_path@ == entries[i].0@
}

/// The mods of a scan by object path, a later mod at a path replacing an
/// earlier one.
pub open spec fn mods_by_path(s: Seq<Mod>) -> Map<Seq<char>, Mod>
    decreases s.len(),
{
    if s.len() == 0 {
        Map::empty()
    } else {
        mods_by_path(s.drop_last()).insert(s.last().object_path@, s.last())
    }
}

impl ModManager {
    /// The manager's internal lists are free of repeated paths, and each mod
    /// is kept under its own object path.
    pub closed spec fn wf(&self) -> bool {
        &&& keys_distinct(self.registry@)
        &&& paths_match(self.registry@)
        &&& strings_distinct(self.active_paths@)
    }

    /// The registry maps each object path to the mod found at that path.
    pub proof fn lemma_registry_paths(&self)
        requires
            self.wf(),
        ensures
            forall|k: Seq<char>| #[trigger] self@.registry.contains_key(k) ==> self@.registry[k].object_path@ == k,
    {
        assert forall|k: Seq<char>| #[trigger] self@.registry.contains_key(k) implies self@.registry[k].object_path@
            == k by {
            lemma_keyed_contains(self.registry@, k);
            let i = choose|i: int| 0 <= i < self.registry@.len() && (#[trigger] self.registry@[i]).0@ == k;
            assert forall|x: int| i < x < self.registry@.len() implies (#[trigger] self.registry@[x]).0@ != k by {
                assert(self.registry@[i].0@ != self.registry@[x].0@);
            }
            lemma_keyed_lookup(self.registry@, k, i);
        }
    }

    /// The object paths of the active mods hold no repeats.
    pub proof fn lemma_active_distinct(&self)
        requires
            self.wf(),
        ensures
            self@.active.no_duplicates(),
    {
    }

    /// A manager that knows no mods.
    pub fn new() -> (m: ModManager)
        ensures
            m.wf(),
            m@.registry == Map::<Seq<char>, Mod>::empty(),
            m@.active == Seq::<Seq<char>>::empty(),
    {
        let m = ModManager { registry: Vec::new(), active_paths: Vec::new() };
        assert(m@.active =~= Seq::<Seq<char>>::empty());
        m
    }

    /// Records `info` for the object path `path`, replacing what was known of it.
    fn insert_mod(&mut self, path: String, info: Mod)
        requires
            old(self).wf(),
            info.object_path@ == path@,
        ensures
            final(self).wf(),
            final(self)@.registry == old(self)@.registry.insert(path@, info),
            final(self)@.active == old(self)@.active,
    {
        let mut j: usize = 0;
        while j < self.registry.len()
            invariant
                j <= self.registry@.len(),
                self.registry@ == old(self).registry@,
                self.active_paths@ == old(self).active_paths@,
                self.wf(),
                info.object_path@ == path@,
                forall|i: int| 0 <= i < j ==> (#[trigger] self.registry@[i]).0@ != path@,
            decreases self.registry@.len() - j,
        {
            if self.registry[j].0 == path {
                let ghost e = (path, info);
                proof {
                    lemma_keyed_update(self.registry@, j as int, e);
                }
                self.registry.set(j, (path, info));
                assert(paths_match(self.registry@));
                return;
            }
            j += 1;
        }
        let ghost before = self.registry@;
        let ghost e = (path, info);
        self.registry.push((path, info));
        assert(self.registry@.drop_last() =~= before);
        assert(self.registry@.last() == e);
        assert(paths_match(self.registry@));
    }

    /// Replaces the known mods by those of a scan, each kept under its own
    /// object path (a later mod at a path replacing an earlier one).
    pub fn replace_registry(&mut self, scanned: Vec<Mod>)
        requires
            old(self).wf(),
        ensures
            final(self).wf(),
            final(self)@.registry == mods_by_path(scanned@),
            final(self)@.active == old(self)@.active,
    {
        self.registry = Vec::new();
        assert(self@.registry =~= mods_by_path(scanned@.take(0)));
        let mut i: usize = 0;
        while i < scanned.len()
            invariant
                i <= scanned@.len(),
                self.wf(),
                self@.registry == mods_by_path(scanned@.take(i as int)),
                self@.active == old(self)@.active,
            decreases scanned@.len() - i,
        {
            let m = &scanned[i];
            assert(scanned@.take(i + 1).drop_last() =~= scanned@.take(i as int));
            self.insert_mod(m.object_path.clone(), m.copy());
            i += 1;
        }
        assert(scanned@.take(scanned@.len() as int) =~= scanned@);
    }

    /// Replaces the active mods by the object paths found in the world, in
    /// order, dropping repeats.
    pub fn replace_active(&mut self, paths: Vec<String>)
        requires
            old(self).wf(),
        ensures
            final(self).wf(),
            final(self)@.registry == old(self)@.registry,
            final(self)@.active.to_set() == path_views(paths@).to_set(),
    {
        let mut active: Vec<String> = Vec::new();
        let mut i: usize = 0;
        while i < paths.len()
            invariant
                i <= paths@.len(),
                strings_distinct(active@),
                path_views(active@).to_set() == path_views(paths@).take(i as int).to_set(),
            decreases paths@.len() - i,
        {
            let mut seen = false;
            let mut k: usize = 0;
            while k < active.len()
                invariant
                    i < paths@.len(),
                    k <= active@.len(),
                    !seen ==> forall|j: int| 0 <= j < k ==> (#[trigger] active@[j])@ != paths@[i as int]@,
                    seen ==> path_views(active@).contains(paths@[i as int]@),
                decreases active@.len() - k,
            {
                if active[k] == paths[i] {
                    seen = true;
                    assert(path_views(active@)[k as int] == paths@[i as int]@);
                }
                k += 1;
            }
            let ghost before = path_views(active@);
            assert(path_views(paths@).take(i + 1) =~= path_views(paths@).take(i as int).push(paths@[i as int]@));
            proof {
                lemma_push_contains(path_views(paths@).take(i as int), paths@[i as int]@);
                lemma_push_contains(before, paths@[i as int]@);
            }
            if !seen {
                active.push(paths[i].clone());
                assert(path_views(active@) =~= before.push(paths@[i as int]@));
                assert(path_views(active@).to_set() =~= before.to_set().insert(paths@[i as int]@));
                assert(path_views(paths@).take(i + 1).to_set() =~= path_views(paths@).take(i as int).to_set().insert(paths@[i as int]@));
            } else {
                assert(path_views(paths@).take(i + 1).to_set() =~= path_views(paths@).take(i as int).to_set().insert(paths@[i as int]@));
                assert(before.to_set().contains(paths@[i as int]@));
                assert(before.to_set().insert(paths@[i as int]@) =~= before.to_set());
            }
            i += 1;
        }
        assert(path_views(paths@).take(paths@.len() as int) =~= path_views(paths@));
        self.active_paths = active;
    }

    /// Forgets which mods are active.
    pub fn reset_active_mods(&mut self)
        requires
            old(self).wf(),
        ensures
            final(self).wf(),
            final(self)@.registry == old(self)@.registry,
            final(self)@.active == Seq::<Seq<char>>::empty(),
    {
        self.active_paths = Vec::new();
        assert(self@.active =~= Seq::<Seq<char>>::empty());
    }

    /// The mod known for `path`, if any.
    pub fn get_mod(&self, path: &String) -> (r: Option<Mod>)
        requires
            self.wf(),
        ensures
            match r {
                Some(m) => self@.registry.contains_key(path@) && self@.registry[path@] == m,
                None => !self@.registry.contains_key(path@),
            },
    {
        let mut j = self.registry.len();
        while j > 0
            invariant
                j <= self.registry@.len(),
                forall|i: int| j <= i < self.registry@.len() ==> (#[trigger] self.registry@[i]).0@ != path@,
            decreases j,
        {
            if self.registry[j - 1].0 == *path {
                proof {
                    lemma_keyed_lookup(self.registry@, path@, j - 1);
                }
                return Some(self.registry[j - 1].1.copy());
            }
            j -= 1;
        }
        proof {
            lemma_keyed_lookup(self.registry@, path@, -1);
        }
        None
    }

    /// The mods that are active, in the order the world reported them.
    pub fn get_active_mod_metadata(&self) -> (r: Vec<Mod>)
        requires
            self.wf(),
        ensures
            r@ == active_metadata(self@),
    {
        let mut r: Vec<Mod> = Vec::new();
        let mut i: usize = 0;
        let ghost reg = self@.registry;
        let ghost pred = |p: Seq<char>| reg.contains_key(p);
        while i < self.active_paths.len()
            invariant
                self.wf(),
                reg == self@.registry,
                pred == (|p: Seq<char>| reg.contains_key(p)),
                i <= self.active_paths@.len(),
                r@ == self@.active.take(i as int).filter(pred).map_values(|p: Seq<char>| reg[p]),
            decreases self.active_paths@.len() - i,
        {
            let ghost before = r@;
            let ghost a = self@.active;
            assert(a.take(i + 1).drop_last() =~= a.take(i as int));
            assert(a.take(i + 1).last() == self.active_paths@[i as int]@);
            reveal_with_fuel(Seq::<_>::filter, 1);
            match self.get_mod(&self.active_paths[i]) {
                Some(m) => {
                    r.push(m);
                    assert(a.take(i + 1).filter(pred) =~= a.take(i as int).filter(pred).push(
                        self.active_paths@[i as int]@,
                    ));
                    assert(r@ =~= a.take(i + 1).filter(pred).map_values(|p: Seq<char>| reg[p]));
                },
                None => {
                    assert(a.take(i + 1).filter(pred) =~= a.take(i as int).filter(pred));
                },
            }
            i += 1;
        }
        assert(self@.active.take(self.active_paths@.len() as int) =~= self@.active);
        r
    }

    /// All known mods, as (object path, mod) pairs with distinct paths.
    pub fn get_available(&self) -> (r: Vec<(String, Mod)>)
        requires
            self.wf(),
        ensures
            keyed_map(r@) == self@.registry,
            keys_distinct(r@),
            paths_match(r@),
    {
        let mut r: Vec<(String, Mod)> = Vec::new();
        let mut i: usize = 0;
        while i < self.registry.len()
            invariant
                i <= self.registry@.len(),
                keys_distinct(self.registry@),
                r@ =~= self.registry@.take(i as int),
            decreases self.registry@.len() - i,
        {
            let (p, m) = &self.registry[i];
            r.push((p.clone(), m.copy()));
            i += 1;
        }
        assert(self.registry@.take(self.registry@.len() as int) =~= self.registry@);
        r
    }

    /// The known mods whose object paths are active, as (object path, mod)
    /// pairs with distinct paths.
    pub fn get_active(&self) -> (r: Vec<(String, Mod)>)
        requires
            self.wf(),
        ensures
            keyed_map(r@) == self@.registry.restrict(self@.active.to_set()),
            keys_distinct(r@),
    {
        let mut r: Vec<(String, Mod)> = Vec::new();
        let mut i: usize = 0;
        let ghost act = self@.active.to_set();
        while i < self.registry.len()
            invariant
                i <= self.registry@.len(),
                self.wf(),
                act == self@.active.to_set(),
                keys_distinct(r@),
                keyed_map(r@) == keyed_map(self.registry@.take(i as int)).restrict(act),
                forall|j: int| 0 <= j < r@.len() ==> exists|k: int| 0 <= k < i && (#[trigger] r@[j]).0@ == (#[trigger] self.registry@[k]).0@,
            decreases self.registry@.len() - i,
        {
            let (p, m) = &self.registry[i];
            assert(self.registry@.take(i + 1).drop_last() =~= self.registry@.take(i as int));
            let mut is_active = false;
            let mut k: usize = 0;
            while k < self.active_paths.len()
                invariant
                    k <= self.active_paths@.len(),
                    is_active == exists|j: int| 0 <= j < k && (#[trigger] self.active_paths@[j])@ == p@,
                decreases self.active_paths@.len() - k,
            {
                if self.active_paths[k] == *p {
                    is_active = true;
                }
                k += 1;
            }
            proof {
                if is_active {
                    let j = choose|j: int| 0 <= j < self.active_paths@.len() && (#[trigger] self.active_paths@[j])@ == p@;
                    assert(self@.active[j] == p@);
                } else {
                    if act.contains(p@) {
                        let j = choose|j: int| 0 <= j < self@.active.len() && self@.active[j] == p@;
                        assert(self.active_paths@[j]@ == p@);
                    }
                }
            }
            if is_active {
                let ghost before = r@;
                r.push((p.clone(), m.copy()));
                assert(r@.drop_last() =~= before);
                assert(keyed_map(r@) =~= keyed_map(self.registry@.take(i + 1)).restrict(act));
            } else {
                assert(keyed_map(r@) =~= keyed_map(self.registry@.take(i + 1)).restrict(act));
            }
            i += 1;
        }
        assert(self.registry@.take(self.registry@.len() as int) =~= self.registry@);
        r
    }
}

/// The entries are in order of their mods' names.
pub open spec fn sorted_by_name(s: Seq<(String, Mod)>) -> bool {
    forall|i: int, j: int| 0 <= i < j < s.len() ==> text_le(s[i].1.name@, s[j].1.name@)
}

/// Orders (object path, mod) entries by the mods' names.
pub fn sort_by_name(entries: Vec<(String, Mod)>) -> (r: Vec<(String, Mod)>)
    ensures
        r@.to_multiset() == entries@.to_multiset(),
        sorted_by_name(r@),
{
    let mut out: Vec<(String, Mod)> = Vec::new();
    let mut i: usize = 0;
    assert(out@ =~= entries@.take(0));
    while i < entries.len()
        invariant
            i <= entries@.len(),
            sorted_by_name(out@),
            out@.to_multiset() == entries@.take(i as int).to_multiset(),
        decreases entries@.len() - i,
    {
        let (p, m) = &entries[i];
        let x = (p.clone(), m.copy());
        assert(x == entries@[i as int]);
        let xn = chars_of(x.1.name.as_str());
        let mut k: usize = 0;
        while k < out.len()
            invariant
                k <= out@.len(),
                xn@ == x.1.name@,
                forall|j: int| 0 <= j < k ==> text_le((#[trigger] out@[j]).1.name@, x.1.name@),
            ensures
                k <= out@.len(),
                forall|j: int| 0 <= j < k ==> text_le((#[trigger] out@[j]).1.name@, x.1.name@),
                k < out@.len() ==> !text_le(out@[k as int].1.name@, x.1.name@),
            decreases out@.len() - k,
        {
            let on = chars_of(out[k].1.name.as_str());
            if !text_le_exec(on.as_slice(), xn.as_slice()) {
                break;
            }
            k += 1;
        }
        let ghost before = out@;
        proof {
            if k < before.len() {
                lemma_text_le_total(before[k as int].1.name@, x.1.name@);
            }
            vstd::seq_lib::to_multiset_insert(before, k as int, x);
            vstd::seq_lib::to_multiset_build(entries@.take(i as int), x);
            assert(entries@.take(i + 1) =~= entries@.take(i as int).push(x));
        }
        out.insert(k, x);
        proof {
            assert forall|a: int, b: int| 0 <= a < b < out@.len() implies text_le(
                out@[a].1.name@,
                out@[b].1.name@,
            ) by {
                if b < k {
                    assert(out@[a] == before[a] && out@[b] == before[b]);
                } else if b == k {
                    assert(out@[a] == before[a]);
                } else if a == k {
                    assert(out@[b] == before[b - 1]);
                    if b - 1 > k {
                        lemma_text_le_transitive(x.1.name@, before[k as int].1.name@, before[b - 1].1.name@);
                    }
                } else if a < k {
                    assert(out@[a] == before[a] && out@[b] == before[b - 1]);
                } else {
                    assert(out@[a] == before[a - 1] && out@[b] == before[b - 1]);
                }
            }
        }
        i += 1;
    }
    assert(entries@.take(entries@.len() as int) =~= entries@);
    out
}

/// `n` written with at least two digits.
pub open spec fn two_digits(n: nat) -> Seq<char> {
    if n < 10 {
        seq!['0'] + decimal_text(n)
    } else {
        decimal_text(n)
    }
}

/// The coloured tag that tells whether a mod is active.
pub open spec fn status_tag(active: bool) -> Seq<char> {
    if active {
        "\x1b[32m[ Active ]\x1b[0m "@
    } else {
        "\x1b[90m[Inactive]\x1b[0m "@
    }
}

/// The console line of mod number `idx`:
/// `[<idx>] <tag> "<name>" v<version> by <organization>`.
pub open spec fn listing_line(idx: nat, m: Mod, active: bool) -> Seq<char> {
    seq!['['] + two_digits(idx) + "] "@ + status_tag(active) + " \""@ + m.name@ + "\" v"@
        + m.version@ + " by "@ + m.organization@
}

/// The console lines of the mods of `sorted`, each marked active when its
/// object path is among `active`.
pub open spec fn listing_lines(sorted: Seq<(String, Mod)>, active: Seq<Seq<char>>) -> Seq<Seq<char>> {
    Seq::new(
        sorted.len(),
        |i: int| listing_line(i as nat, sorted[i].1, active.contains(sorted[i].1.object_path@)),
    )
}

/// The line above the list of `n` mods.
pub open spec fn listing_header(n: nat) -> Seq<char> {
    "\n--- Registered Mods ("@ + decimal_text(n) + ") ---"@
}

/// The line below the list of mods.
pub open spec fn listing_footer() -> Seq<char> {
    "----------------------------\n"@
}


/// Formats the console line of mod number `idx`.
fn format_listing_line(idx: usize, m: &Mod, active: bool) -> (r: String)
    ensures
        r@ == listing_line(idx as nat, *m, active),
{
    let mut out: Vec<char> = Vec::new();
    out.push('[');
    if idx < 10 {
        out.push('0');
    }
    let mut d = format_decimal(idx as u64);
    out.append(&mut d);
    let mut a = chars_of("] ");
    out.append(&mut a);
    let mut tag = if active {
        chars_of("\x1b[32m[ Active ]\x1b[0m ")
    } else {
        chars_of("\x1b[90m[Inactive]\x1b[0m ")
    };
    out.append(&mut tag);
    let mut b = chars_of(" \"");
    out.append(&mut b);
    let mut name = chars_of(m.name.as_str());
    out.append(&mut name);
    let mut c = chars_of("\" v");
    out.append(&mut c);
    let mut version = chars_of(m.version.as_str());
    out.append(&mut version);
    let mut e = chars_of(" by ");
    out.append(&mut e);
    let mut org = chars_of(m.organization.as_str());
    out.append(&mut org);
    assert(out@ =~= listing_line(idx as nat, *m, active));
    string_from_chars(out.as_slice())
}

impl ModManager {
    /// Whether `path` is among the active object paths.
    pub fn is_active(&self, path: &String) -> (r: bool)
        ensures
            r == self@.active.contains(path@),
    {
        let mut k: usize = 0;
        while k < self.active_paths.len()
            invariant
                k <= self.active_paths@.len(),
                forall|j: int| 0 <= j < k ==> (#[trigger] self.active_paths@[j])@ != path@,
            decreases self.active_paths@.len() - k,
        {
            if self.active_paths[k] == *path {
                assert(self@.active[k as int] == path@);
                return true;
            }
            k += 1;
        }
        proof {
            if self@.active.contains(path@) {
                let j = choose|j: int| 0 <= j < self@.active.len() && self@.active[j] == path@;
                assert(self.active_paths@[j]@ == path@);
            }
        }
        false
    }

    /// The console listing of the known mods: a header with their number,
    /// one line per mod in order of names (see [`listing_line`]), and a footer.
    pub fn registry_listing(&self) -> (r: Vec<String>)
        requires
            self.wf(),
        ensures
            exists|entries: Seq<(String, Mod)>, sorted: Seq<(String, Mod)>|
                {
                    &&& keyed_map(entries) == self@.registry
                    &&& keys_distinct(entries)
                    &&& #[trigger] sorted.to_multiset() == #[trigger] entries.to_multiset()
                    &&& sorted_by_name(sorted)
                    &&& string_views(r@) == seq![listing_header(sorted.len())] + listing_lines(
                        sorted,
                        self@.active,
                    ) + seq![listing_footer()]
                },
    {
        let avail = self.get_available();
        let ghost entries = avail@;
        let sorted = sort_by_name(avail);
        proof {
            vstd::seq_lib::to_multiset_len(sorted@);
            vstd::seq_lib::to_multiset_len(entries);
        }
        let mut lines: Vec<String> = Vec::new();
        let mut h = chars_of("\n--- Registered Mods (");
        let mut count = format_decimal(sorted.len() as u64);
        h.append(&mut count);
        let mut close = chars_of(") ---");
        h.append(&mut close);
        assert(h@ =~= listing_header(sorted@.len()));
        lines.push(string_from_chars(h.as_slice()));
        let mut i: usize = 0;
        while i < sorted.len()
            invariant
                i <= sorted@.len(),
                self.wf(),
                string_views(lines@) == seq![listing_header(sorted@.len())] + listing_lines(
                    sorted@,
                    self@.active,
                ).take(i as int),
            decreases sorted@.len() - i,
        {
            let m = &sorted[i].1;
            let active = self.is_active(&m.object_path);
            let line = format_listing_line(i, m, active);
            let ghost before = string_views(lines@);
            lines.push(line);
            assert(string_views(lines@) =~= before.push(line@));
            assert(listing_lines(sorted@, self@.active).take(i + 1) =~= listing_lines(
                sorted@,
                self@.active,
            ).take(i as int).push(line@));
            i += 1;
        }
        let foot = "----------------------------\n".to_owned();
        let ghost before = string_views(lines@);
        lines.push(foot);
        assert(listing_lines(sorted@, self@.active).take(sorted@.len() as int) =~= listing_lines(
            sorted@,
            self@.active,
        ));
        assert(string_views(lines@) =~= before.push(listing_footer()));
        lines
    }

    /// What listing the mods first does: scan the asset registry when no mod
    /// is known yet, otherwise look again at which mods are active.
    pub fn list_mods_action(&self) -> (r: ModListAction)
        ensures
            r == (if self@.registry == Map::<Seq<char>, Mod>::empty() {
                ModListAction::ScanRegistry
            } else {
                ModListAction::RescanActive
            }),
    {
        if self.registry.len() == 0 {
            assert(self@.registry =~= Map::<Seq<char>, Mod>::empty());
            ModListAction::ScanRegistry
        } else {
            proof {
                let e = self.registry@.last();
                lemma_keyed_lookup_last(self.registry@);
                assert(self@.registry.dom().contains(e.0@));
                assert(self@.registry != Map::<Seq<char>, Mod>::empty());
            }
            ModListAction::RescanActive
        }
    }
}

/// The key of the last entry is recorded.
proof fn lemma_keyed_lookup_last(entries: Seq<(String, Mod)>)
    requires
        entries.len() > 0,
    ensures
        keyed_map(entries).contains_key(entries.last().0@),
{
}

/// The first step of listing the mods.
#[derive(Clone, Copy, Debug, PartialEq, Eq, Structural)]
pub enum ModListAction {
    /// Scan the game's asset registry for mods (on the game thread).
    ScanRegistry,
    /// Look again at which mods are active in the world.
    RescanActive,
}

/// Where the mod registry is saved: the given path, or
/// `ingame_mod_registry.json`.
pub fn registry_dump_path(path: Option<String>) -> (r: String)
    ensures
        r@ == (match path {
            Some(p) => p@,
            None => "ingame_mod_registry.json"@,
        }),
{
    match path {
        Some(p) => p,
        None => "ingame_mod_registry.json".to_owned(),
    }
}

/// The part of `s` after its last `.`, if it has one.
pub open spec fn after_last_dot(s: Seq<char>) -> Option<Seq<char>>
    decreases s.len(),
{
    if s.len() == 0 {
        None
    } else if s.last() == '.' {
        Some(Seq::<char>::empty())
    } else {
        match after_last_dot(s.drop_last()) {
            Some(t) => Some(t.push(s.last())),
            None => None,
        }
    }
}

/// The mods to enable in the mod loader's save game: each object path given
/// that has a `.`, with the class name after its last `.`.
pub open spec fn enabled_mods(paths: Seq<Seq<char>>) -> Seq<(Seq<char>, Seq<char>)>
    decreases paths.len(),
{
    if paths.len() == 0 {
        Seq::empty()
    } else {
        let rest = enabled_mods(paths.drop_last());
        match after_last_dot(paths.last()) {
            Some(short) => rest.push((paths.last(), short)),
            None => rest,
        }
    }
}

/// The class name after the last `.` of `s`, if it has one.
fn class_name_of(s: &String) -> (r: Option<String>)
    ensures
        match after_last_dot(s@) {
            Some(t) => r matches Some(x) && x@ == t,
            None => r is None,
        },
{
    let cs = chars_of(s.as_str());
    let mut i: usize = cs.len();
    while i > 0 && cs[i - 1] != '.'
        invariant
            i <= cs@.len(),
            cs@ == s@,
            forall|k: int| i <= k < cs@.len() ==> cs@[k] != '.',
        decreases i,
    {
        i -= 1;
    }
    proof {
        lemma_after_last_dot(cs@, i as int);
    }
    if i == 0 {
        None
    } else {
        let mut out: Vec<char> = Vec::new();
        let mut j: usize = i;
        while j < cs.len()
            invariant
                i <= j <= cs@.len(),
                out@ == cs@.subrange(i as int, j as int),
            decreases cs@.len() - j,
        {
            out.push(cs[j]);
            assert(cs@.subrange(i as int, j + 1) =~= cs@.subrange(i as int, j as int).push(cs@[j as int]));
            j += 1;
        }
        Some(string_from_chars(out.as_slice()))
    }
}

/// With no `.` from position `i` on, the part after the last `.` is what
/// follows position `i` when `s[i - 1]` is a `.`, and there is none when
/// `i` is 0.
proof fn lemma_after_last_dot(s: Seq<char>, i: int)
    requires
        0 <= i <= s.len(),
        forall|k: int| i <= k < s.len() ==> s[k] != '.',
        i > 0 ==> s[i - 1] == '.',
    ensures
        i == 0 ==> after_last_dot(s) is None,
        i > 0 ==> after_last_dot(s) == Some(s.subrange(i, s.len() as int)),
    decreases s.len(),
{
    if s.len() > 0 && i < s.len() {
        lemma_after_last_dot(s.drop_last(), i);
        assert(s.drop_last().subrange(i, s.len() - 1).push(s.last()) =~= s.subrange(i, s.len() as int));
    } else if s.len() > 0 {
        assert(s.subrange(i, s.len() as int) =~= Seq::<char>::empty());
    }
}

/// The mods of the `--server-mods` option to enable in the mod loader's save
/// game, as (object path, class name) pairs (see [`enabled_mods`]).
pub fn mods_to_enable(server_mods: &Vec<String>) -> (r: Vec<(String, String)>)
    ensures
        r@.map_values(|e: (String, String)| (e.0@, e.1@)) == enabled_mods(string_views(server_mods@)),
{
    let mut r: Vec<(String, String)> = Vec::new();
    let mut i: usize = 0;
    while i < server_mods.len()
        invariant
            i <= server_mods@.len(),
            r@.map_values(|e: (String, String)| (e.0@, e.1@)) == enabled_mods(
                string_views(server_mods@).take(i as int),
            ),
        decreases server_mods@.len() - i,
    {
        let ghost before = r@;
        assert(string_views(server_mods@).take(i + 1).drop_last() =~= string_views(server_mods@).take(i as int));
        match class_name_of(&server_mods[i]) {
            Some(short) => {
                r.push((server_mods[i].clone(), short));
                assert(r@.map_values(|e: (String, String)| (e.0@, e.1@)) =~= before.map_values(
                    |e: (String, String)| (e.0@, e.1@),
                ).push((server_mods@[i as int]@, r@.last().1@)));
            },
            None => {},
        }
        i += 1;
    }
    assert(string_views(server_mods@).take(server_mods@.len() as int) =~= string_views(server_mods@));
    r
}

} // verus!
