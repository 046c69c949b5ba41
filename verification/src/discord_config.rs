use vstd::prelude::*;
use crate::cli_args::CLIArgs;
use crate::keyed::{keyed_map, keys_distinct, lemma_keyed_lookup, lemma_keyed_update};

verus! {

/// A module's settings as the configuration file holds them: a JSON object,
/// as its fields with each value written as JSON, or any other JSON value,
/// written as JSON.
pub enum SettingsValue {
    Object(Vec<(String, String)>),
    Other(String),
}

/// What a module's settings hold: the fields of an object by name, or another
/// value.
pub enum SettingsView {
    Object(Map<Seq<char>, String>),
    Other(String),
}

/// What `v` holds.
pub open spec fn settings_view(v: SettingsValue) -> SettingsView {
    match v {
        SettingsValue::Object(f) => SettingsView::Object(keyed_map(f@)),
        SettingsValue::Other(s) => SettingsView::Other(s),
    }
}

/// An object's fields have distinct names.
pub open spec fn settings_wf(v: SettingsValue) -> bool {
    match v {
        SettingsValue::Object(f) => keys_distinct(f@),
        SettingsValue::Other(_) => true,
    }
}

impl SettingsValue {
    /// A copy of the settings.
    pub fn copy(&self) -> (r: SettingsValue)
        ensures
            settings_view(r) == settings_view(*self),
            settings_wf(*self) ==> settings_wf(r),
    {
        match self {
            SettingsValue::Object(f) => {
                let mut g: Vec<(String, String)> = Vec::new();
                let mut i: usize = 0;
                while i < f.len()
                    invariant
                        i <= f@.len(),
                        g@ == f@.take(i as int),
                    decreases f@.len() - i,
                {
                    let (a, b) = &f[i];
                    g.push((a.clone(), b.clone()));
                    assert(f@.take(i + 1) =~= f@.take(i as int).push(f@[i as int]));
                    i += 1;
                }
                assert(f@.take(f@.len() as int) =~= f@);
                SettingsValue::Object(g)
            },
            SettingsValue::Other(s) => SettingsValue::Other(s.clone()),
        }
    }
}

/// The modules' settings by module name.
pub open spec fn modules_view(m: Seq<(String, SettingsValue)>) -> Map<Seq<char>, SettingsView> {
    Map::new(
        |k: Seq<char>| keyed_map(m).contains_key(k),
        |k: Seq<char>| settings_view(keyed_map(m)[k]),
    )
}

/// Module names are distinct and every object has distinct field names.
pub open spec fn modules_wf(m: Seq<(String, SettingsValue)>) -> bool {
    &&& keys_distinct(m)
    &&& forall|i: int| 0 <= i < m.len() ==> settings_wf(#[trigger] m[i].1)
}

/// Settings `cur` completed by the defaults `d`: an object gains the fields
/// of a default object that it lacks, keeping its own values; anything else
/// is kept as it is.
pub open spec fn with_defaults(cur: SettingsView, d: SettingsView) -> SettingsView {
    match (cur, d) {
        (SettingsView::Object(o), SettingsView::Object(dd)) => SettingsView::Object(
            dd.union_prefer_right(o),
        ),
        _ => cur,
    }
}

/// The modules' settings completed by the defaults `d` of module `key`: a
/// missing module takes its defaults.
pub open spec fn refresh_step(
    m: Map<Seq<char>, SettingsView>,
    key: Seq<char>,
    d: SettingsView,
) -> Map<Seq<char>, SettingsView> {
    if m.contains_key(key) {
        m.insert(key, with_defaults(m[key], d))
    } else {
        m.insert(key, d)
    }
}

/// The modules' settings completed by the defaults of each provider in turn.
pub open spec fn refreshed(
    m: Map<Seq<char>, SettingsView>,
    providers: Seq<(Seq<char>, SettingsView)>,
) -> Map<Seq<char>, SettingsView>
    decreases providers.len(),
{
    if providers.len() == 0 {
        m
    } else {
        refresh_step(refreshed(m, providers.drop_last()), providers.last().0, providers.last().1)
    }
}

/// The providers' module names and default settings.
pub open spec fn provider_views(p: Seq<(String, SettingsValue)>) -> Seq<(Seq<char>, SettingsView)> {
    p.map_values(|e: (String, SettingsValue)| (e.0@, settings_view(e.1)))
}

/// `a` holds everything `b` holds: its modules, the fields of its objects
/// with the same values, and its other values.
pub open spec fn extends(a: Map<Seq<char>, SettingsView>, b: Map<Seq<char>, SettingsView>) -> bool {
    forall|k: Seq<char>|
        #![trigger b.contains_key(k)]
        b.contains_key(k) ==> a.contains_key(k) && match (a[k], b[k]) {
            (SettingsView::Object(x), SettingsView::Object(y)) => forall|f: Seq<char>|
                #![trigger y.contains_key(f)]
                y.contains_key(f) ==> x.contains_key(f) && x[f] == y[f],
            (SettingsView::Other(x), SettingsView::Other(y)) => x == y,
            _ => false,
        }
}

/// Every map of settings holds what it holds.
proof fn lemma_extends_reflexive(a: Map<Seq<char>, SettingsView>)
    ensures
        extends(a, a),
{
}

/// Holding what another holds is transitive.
proof fn lemma_extends_transitive(
    a: Map<Seq<char>, SettingsView>,
    b: Map<Seq<char>, SettingsView>,
    c: Map<Seq<char>, SettingsView>,
)
    requires
        extends(a, b),
        extends(b, c),
    ensures
        extends(a, c),
{
    assert forall|k: Seq<char>| #![trigger c.contains_key(k)] c.contains_key(k) implies a.contains_key(k)
        && match (a[k], c[k]) {
        (SettingsView::Object(x), SettingsView::Object(y)) => forall|f: Seq<char>|
            #![trigger y.contains_key(f)]
            y.contains_key(f) ==> x.contains_key(f) && x[f] == y[f],
        (SettingsView::Other(x), SettingsView::Other(y)) => x == y,
        _ => false,
    } by {
        assert(b.contains_key(k));
        match (a[k], b[k], c[k]) {
            (SettingsView::Object(x), SettingsView::Object(y), SettingsView::Object(z)) => {
                assert forall|f: Seq<char>| #![trigger z.contains_key(f)] z.contains_key(f) implies x.contains_key(f)
                    && x[f] == z[f] by {
                    assert(y.contains_key(f));
                }
            },
            _ => {},
        }
    }
}

/// Two maps of settings that hold what the other holds are equal.
proof fn lemma_extends_antisymmetric(a: Map<Seq<char>, SettingsView>, b: Map<Seq<char>, SettingsView>)
    requires
        extends(a, b),
        extends(b, a),
    ensures
        a == b,
{
    assert forall|k: Seq<char>| a.contains_key(k) implies b.contains_key(k) && a[k] == b[k] by {
        assert(b.contains_key(k));
        match (a[k], b[k]) {
            (SettingsView::Object(x), SettingsView::Object(y)) => {
                assert forall|f: Seq<char>| x.contains_key(f) implies y.contains_key(f) && x[f] == y[f] by {
                    if !y.contains_key(f) {
                        assert(x.contains_key(f));
                    }
                }
                assert forall|f: Seq<char>| y.contains_key(f) implies x.contains_key(f) by {}
                assert(x =~= y);
            },
            _ => {},
        }
    }
    assert forall|k: Seq<char>| b.contains_key(k) implies a.contains_key(k) by {}
    assert(a =~= b);
}

/// A step of the refresh only adds.
proof fn lemma_step_extends(m: Map<Seq<char>, SettingsView>, key: Seq<char>, d: SettingsView)
    ensures
        extends(refresh_step(m, key, d), m),
{
    let n = refresh_step(m, key, d);
    assert forall|k: Seq<char>| #![trigger m.contains_key(k)] m.contains_key(k) implies n.contains_key(k)
        && match (n[k], m[k]) {
        (SettingsView::Object(x), SettingsView::Object(y)) => forall|f: Seq<char>|
            #![trigger y.contains_key(f)]
            y.contains_key(f) ==> x.contains_key(f) && x[f] == y[f],
        (SettingsView::Other(x), SettingsView::Other(y)) => x == y,
        _ => false,
    } by {
        if k == key {
            match (m[k], d) {
                (SettingsView::Object(o), SettingsView::Object(dd)) => {
                    assert forall|f: Seq<char>| #![trigger o.contains_key(f)] o.contains_key(f) implies dd.union_prefer_right(
                        o,
                    ).contains_key(f) && dd.union_prefer_right(o)[f] == o[f] by {}
                },
                _ => {},
            }
        }
    }
}

/// The Discord bot's configuration: its token, channels and admin role, the
/// modules switched off, the notifications not posted, and each module's
/// settings.
pub struct DiscordConfig {
    pub bot_token: String,
    pub channel_id: u64,
    pub admin_channel_id: u64,
    pub general_channel_id: u64,
    pub admin_role_id: u64,
    pub disabled_modules: Vec<String>,
    pub blocked_notifications: Vec<String>,
    pub modules: Vec<(String, SettingsValue)>,
}

/// The index of the entry named `key`, if there is one.
fn find_module(entries: &Vec<(String, SettingsValue)>, key: &String) -> (r: Option<usize>)
    ensures
        match r {
            Some(i) => i < entries@.len() && entries@[i as int].0@ == key@,
            None => forall|i: int| 0 <= i < entries@.len() ==> (#[trigger] entries@[i]).0@ != key@,
        },
{
    let mut i: usize = 0;
    while i < entries.len()
        invariant
            i <= entries@.len(),
            forall|j: int| 0 <= j < i ==> (#[trigger] entries@[j]).0@ != key@,
        decreases entries@.len() - i,
    {
        if entries[i].0 == *key {
            return Some(i);
        }
        i += 1;
    }
    None
}

/// The index of the field named `key`, if there is one.
fn find_field(entries: &Vec<(String, String)>, key: &String) -> (r: Option<usize>)
    ensures
        match r {
            Some(i) => i < entries@.len() && entries@[i as int].0@ == key@,
            None => forall|i: int| 0 <= i < entries@.len() ==> (#[trigger] entries@[i]).0@ != key@,
        },
{
    let mut i: usize = 0;
    while i < entries.len()
        invariant
            i <= entries@.len(),
            forall|j: int| 0 <= j < i ==> (#[trigger] entries@[j]).0@ != key@,
        decreases entries@.len() - i,
    {
        if entries[i].0 == *key {
            return Some(i);
        }
        i += 1;
    }
    None
}

/// The fields of `o` completed by the fields of `dd` that it lacks; tells
/// whether any was added.
fn complete_fields(o: &Vec<(String, String)>, dd: &Vec<(String, String)>) -> (r: (
    Vec<(String, String)>,
    bool,
))
    requires
        keys_distinct(o@),
        keys_distinct(dd@),
    ensures
        keys_distinct(r.0@),
        keyed_map(r.0@) == keyed_map(dd@).union_prefer_right(keyed_map(o@)),
        r.1 == (keyed_map(r.0@) != keyed_map(o@)),
{
    let mut out: Vec<(String, String)> = Vec::new();
    let mut i: usize = 0;
    while i < o.len()
        invariant
            i <= o@.len(),
            out@ == o@.take(i as int),
        decreases o@.len() - i,
    {
        let (a, b) = &o[i];
        out.push((a.clone(), b.clone()));
        assert(o@.take(i + 1) =~= o@.take(i as int).push(o@[i as int]));
        i += 1;
    }
    assert(o@.take(o@.len() as int) =~= o@);
    let ghost om = keyed_map(o@);
    assert(keyed_map(dd@.take(0)).union_prefer_right(om) =~= om);
    let mut added = false;
    let mut j: usize = 0;
    while j < dd.len()
        invariant
            j <= dd@.len(),
            keys_distinct(dd@),
            keys_distinct(out@),
            om == keyed_map(o@),
            keyed_map(out@) == keyed_map(dd@.take(j as int)).union_prefer_right(om),
            added == exists|q: int| 0 <= q < j && !om.contains_key((#[trigger] dd@[q]).0@),
        decreases dd@.len() - j,
    {
        let (f, v) = &dd[j];
        assert(dd@.take(j + 1).drop_last() =~= dd@.take(j as int));
        proof {
            lemma_keyed_lookup(dd@.take(j as int), f@, -1);
        }
        match find_field(&out, f) {
            Some(k) => {
                proof {
                    lemma_keyed_lookup(out@, f@, k as int);
                    assert(om.contains_key(f@));
                    assert(keyed_map(dd@.take(j + 1)).union_prefer_right(om) =~= keyed_map(
                        dd@.take(j as int),
                    ).union_prefer_right(om));
                }
            },
            None => {
                let ghost before = out@;
                proof {
                    lemma_keyed_lookup(out@, f@, -1);
                }
                out.push((f.clone(), v.clone()));
                added = true;
                assert(out@.drop_last() =~= before);
                assert(keyed_map(out@) =~= keyed_map(dd@.take(j + 1)).union_prefer_right(om));
                assert(!om.contains_key(dd@[j as int].0@));
            },
        }
        j += 1;
    }
    assert(dd@.take(dd@.len() as int) =~= dd@);
    proof {
        if added {
            let q = choose|q: int| 0 <= q < dd@.len() && !om.contains_key((#[trigger] dd@[q]).0@);
            lemma_keyed_lookup(dd@, dd@[q].0@, q);
            assert(keyed_map(out@).contains_key(dd@[q].0@));
        } else {
            assert forall|f: Seq<char>| keyed_map(dd@).contains_key(f) implies om.contains_key(f) by {
                crate::keyed::lemma_keyed_contains(dd@, f);
            }
            assert(keyed_map(out@) =~= om);
        }
    }
    (out, added)
}

/// The view of a list of module settings after replacing or adding the
/// entry of `key`.
proof fn lemma_modules_view_insert(
    m: Seq<(String, SettingsValue)>,
    e: (String, SettingsValue),
    idx: Option<int>,
)
    requires
        keys_distinct(m),
        match idx {
            Some(j) => 0 <= j < m.len() && m[j].0@ == e.0@,
            None => forall|i: int| 0 <= i < m.len() ==> (#[trigger] m[i]).0@ != e.0@,
        },
    ensures
        match idx {
            Some(j) => keys_distinct(m.update(j, e)) && modules_view(m.update(j, e)) == modules_view(
                m,
            ).insert(e.0@, settings_view(e.1)),
            None => keys_distinct(m.push(e)) && modules_view(m.push(e)) == modules_view(m).insert(
                e.0@,
                settings_view(e.1),
            ),
        },
{
    match idx {
        Some(j) => {
            lemma_keyed_update(m, j, e);
            assert(modules_view(m.update(j, e)) =~= modules_view(m).insert(e.0@, settings_view(e.1)));
        },
        None => {
            let n = m.push(e);
            assert(n.drop_last() =~= m);
            assert(keys_distinct(n)) by {
                assert forall|a: int, b: int| 0 <= a < b < n.len() implies n[a].0@ != n[b].0@ by {
                    if b == m.len() {
                        assert(n[a] == m[a]);
                    } else {
                        assert(n[a] == m[a] && n[b] == m[b]);
                    }
                }
            }
            assert(modules_view(n) =~= modules_view(m).insert(e.0@, settings_view(e.1)));
        },
    }
}

/// A step that changed the settings moved them away from anything they
/// already held.
proof fn lemma_step_change(
    orig: Map<Seq<char>, SettingsView>,
    cur: Map<Seq<char>, SettingsView>,
    next: Map<Seq<char>, SettingsView>,
)
    requires
        extends(cur, orig),
        extends(next, cur),
    ensures
        extends(next, orig),
        next != cur ==> next != orig,
        next == cur ==> (next != orig) == (cur != orig),
{
    lemma_extends_transitive(next, cur, orig);
    if next != cur && next == orig {
        lemma_extends_antisymmetric(next, cur);
    }
}

impl DiscordConfig {
    /// The configuration written when there is none: a placeholder token, no
    /// channels or role, nothing switched off, and the default settings of
    /// each provider (a later provider of a module replacing an earlier one).
    pub fn default_with(providers: &Vec<(String, SettingsValue)>) -> (r: DiscordConfig)
        requires
            forall|i: int| 0 <= i < providers@.len() ==> settings_wf(#[trigger] providers@[i].1),
        ensures
            r.bot_token@ == "INSERT_TOKEN_HERE"@,
            r.channel_id == 0,
            r.admin_channel_id == 0,
            r.general_channel_id == 0,
            r.admin_role_id == 0,
            r.disabled_modules@.len() == 0,
            r.blocked_notifications@.len() == 0,
            modules_wf(r.modules@),
            modules_view(r.modules@) == modules_view(providers@),
    {
        let mut modules: Vec<(String, SettingsValue)> = Vec::new();
        let mut i: usize = 0;
        assert(modules_view(modules@) =~= modules_view(providers@.take(0)));
        while i < providers.len()
            invariant
                i <= providers@.len(),
                forall|q: int| 0 <= q < providers@.len() ==> settings_wf(#[trigger] providers@[q].1),
                modules_wf(modules@),
                modules_view(modules@) == modules_view(providers@.take(i as int)),
            decreases providers@.len() - i,
        {
            let (k, d) = &providers[i];
            let e = (k.clone(), d.copy());
            assert(providers@.take(i + 1).drop_last() =~= providers@.take(i as int));
            assert(modules_view(providers@.take(i + 1)) =~= modules_view(providers@.take(i as int)).insert(
                k@,
                settings_view(*d),
            ));
            match find_module(&modules, k) {
                Some(j) => {
                    proof {
                        lemma_modules_view_insert(modules@, e, Some(j as int));
                    }
                    modules.set(j, e);
                },
                None => {
                    proof {
                        lemma_modules_view_insert(modules@, e, None);
                    }
                    modules.push(e);
                },
            }
            i += 1;
        }
        assert(providers@.take(providers@.len() as int) =~= providers@);
        DiscordConfig {
            bot_token: "INSERT_TOKEN_HERE".to_owned(),
            channel_id: 0,
            admin_channel_id: 0,
            general_channel_id: 0,
            admin_role_id: 0,
            disabled_modules: Vec::new(),
            blocked_notifications: Vec::new(),
            modules,
        }
    }

    /// The settings of module `key`, decoded with `decode`; `default` (the
    /// module's default settings) when the configuration holds none for it or
    /// they do not decode.
    pub fn get_module_config<T, F: Fn(&SettingsValue) -> Option<T>>(
        &self,
        key: &String,
        decode: F,
        default: T,
    ) -> (r: T)
        requires
            modules_wf(self.modules@),
            forall|v: &SettingsValue| #[trigger] decode.requires((v,)),
        ensures
            !modules_view(self.modules@).contains_key(key@) ==> r == default,
            modules_view(self.modules@).contains_key(key@) ==> exists|v: &SettingsValue, d: Option<T>|
                {
                    &&& settings_view(*v) == modules_view(self.modules@)[key@]
                    &&& #[trigger] decode.ensures((v,), d)
                    &&& r == match d {
                        Some(t) => t,
                        None => default,
                    }
                },
    {
        match find_module(&self.modules, key) {
            Some(j) => {
                proof {
                    lemma_keyed_lookup(self.modules@, key@, j as int);
                }
                let v = &self.modules[j].1;
                let d = decode(v);
                assert(decode.ensures((v,), d));
                match d {
                    Some(t) => t,
                    None => default,
                }
            },
            None => {
                proof {
                    lemma_keyed_lookup(self.modules@, key@, -1);
                }
                default
            },
        }
    }

    /// Lets the command line override the bot token, the three channels and
    /// the admin role: each value given there replaces the configured one.
    pub fn apply_cli_overrides(&mut self, args: &CLIArgs)
        ensures
            final(self).bot_token@ == (match args.discord_bot_token {
                Some(t) => t@,
                None => old(self).bot_token@,
            }),
            final(self).channel_id == (match args.discord_channel_id {
                Some(v) => v,
                None => old(self).channel_id,
            }),
            final(self).admin_channel_id == (match args.discord_admin_channel_id {
                Some(v) => v,
                None => old(self).admin_channel_id,
            }),
            final(self).general_channel_id == (match args.discord_general_channel_id {
                Some(v) => v,
                None => old(self).general_channel_id,
            }),
            final(self).admin_role_id == (match args.discord_admin_role_id {
                Some(v) => v,
                None => old(self).admin_role_id,
            }),
            final(self).disabled_modules@ == old(self).disabled_modules@,
            final(self).blocked_notifications@ == old(self).blocked_notifications@,
            final(self).modules@ == old(self).modules@,
    {
        if let Some(t) = &args.discord_bot_token {
            self.bot_token = t.clone();
        }
        if let Some(v) = args.discord_channel_id {
            self.channel_id = v;
        }
        if let Some(v) = args.discord_admin_channel_id {
            self.admin_channel_id = v;
        }
        if let Some(v) = args.discord_general_channel_id {
            self.general_channel_id = v;
        }
        if let Some(v) = args.discord_admin_role_id {
            self.admin_role_id = v;
        }
    }

    /// Completes the modules' settings with the defaults of `providers` (see
    /// [`refreshed`]): a missing module takes its defaults and an object gains
    /// the default fields it lacks, keeping every value it had. Tells whether
    /// anything was added, which is when the settings changed.
    pub fn refresh_modules(&mut self, providers: &Vec<(String, SettingsValue)>) -> (changed: bool)
        requires
            modules_wf(old(self).modules@),
            forall|i: int| 0 <= i < providers@.len() ==> settings_wf(#[trigger] providers@[i].1),
        ensures
            modules_wf(final(self).modules@),
            modules_view(final(self).modules@) == refreshed(
                modules_view(old(self).modules@),
                provider_views(providers@),
            ),
            extends(modules_view(final(self).modules@), modules_view(old(self).modules@)),
            changed == (modules_view(final(self).modules@) != modules_view(old(self).modules@)),
            final(self).bot_token == old(self).bot_token,
            final(self).channel_id == old(self).channel_id,
            final(self).admin_channel_id == old(self).admin_channel_id,
            final(self).general_channel_id == old(self).general_channel_id,
            final(self).admin_role_id == old(self).admin_role_id,
            final(self).disabled_modules@ == old(self).disabled_modules@,
            final(self).blocked_notifications@ == old(self).blocked_notifications@,
    {
        let ghost orig = modules_view(self.modules@);
        let ghost pv = provider_views(providers@);
        let mut changed = false;
        let mut i: usize = 0;
        proof {
            lemma_extends_reflexive(orig);
        }
        while i < providers.len()
            invariant
                i <= providers@.len(),
                pv == provider_views(providers@),
                forall|q: int| 0 <= q < providers@.len() ==> settings_wf(#[trigger] providers@[q].1),
                modules_wf(self.modules@),
                modules_view(self.modules@) == refreshed(orig, pv.take(i as int)),
                extends(modules_view(self.modules@), orig),
                changed == (modules_view(self.modules@) != orig),
                self.bot_token == old(self).bot_token,
                self.channel_id == old(self).channel_id,
                self.admin_channel_id == old(self).admin_channel_id,
                self.general_channel_id == old(self).general_channel_id,
                self.admin_role_id == old(self).admin_role_id,
                self.disabled_modules@ == old(self).disabled_modules@,
                self.blocked_notifications@ == old(self).blocked_notifications@,
            decreases providers@.len() - i,
        {
            let (k, d) = &providers[i];
            let ghost cur = modules_view(self.modules@);
            let ghost next = refresh_step(cur, k@, settings_view(*d));
            assert(pv.take(i + 1).drop_last() =~= pv.take(i as int));
            assert(pv.take(i + 1).last() == (k@, settings_view(*d)));
            assert(refreshed(orig, pv.take(i + 1)) == next);
            proof {
                lemma_step_extends(cur, k@, settings_view(*d));
            }
            let mut step_changed = false;
            match find_module(&self.modules, k) {
                None => {
                    let e = (k.clone(), d.copy());
                    proof {
                        lemma_modules_view_insert(self.modules@, e, None);
                        lemma_keyed_lookup(self.modules@, k@, -1);
                        assert(!cur.contains_key(k@));
                        assert(next.contains_key(k@));
                    }
                    self.modules.push(e);
                    step_changed = true;
                    assert(modules_view(self.modules@) == next);
                },
                Some(j) => {
                    proof {
                        lemma_keyed_lookup(self.modules@, k@, j as int);
                        assert(cur[k@] == settings_view(self.modules@[j as int].1));
                        assert(settings_wf(self.modules@[j as int].1));
                    }
                    let merged = match (&self.modules[j].1, d) {
                        (SettingsValue::Object(o), SettingsValue::Object(dd)) => {
                            let (fields, added) = complete_fields(o, dd);
                            if added {
                                Some(fields)
                            } else {
                                proof {
                                    assert(next =~= cur);
                                }
                                None
                            }
                        },
                        _ => {
                            proof {
                                assert(next =~= cur);
                            }
                            None
                        },
                    };
                    match merged {
                        Some(fields) => {
                            let e = (k.clone(), SettingsValue::Object(fields));
                            proof {
                                lemma_modules_view_insert(self.modules@, e, Some(j as int));
                            }
                            self.modules.set(j, e);
                            step_changed = true;
                            proof {
                                assert(modules_view(self.modules@) =~= next);
                                assert(modules_view(self.modules@) != cur) by {
                                    assert(modules_view(self.modules@)[k@] != cur[k@]);
                                }
                            }
                        },
                        None => {},
                    }
                },
            }
            proof {
                let n = modules_view(self.modules@);
                assert(n == next);
                assert(step_changed == (n != cur));
                lemma_step_change(orig, cur, n);
            }
            changed = changed || step_changed;
            i += 1;
        }
        assert(pv.take(providers@.len() as int) =~= pv);
        changed
    }
}

/// Module `key` has settings and, when both are objects, has every field of
/// the defaults `d`.
pub open spec fn covers(r: Map<Seq<char>, SettingsView>, key: Seq<char>, d: SettingsView) -> bool {
    r.contains_key(key) && match (r[key], d) {
        (SettingsView::Object(x), SettingsView::Object(y)) => forall|f: Seq<char>|
            #![trigger y.contains_key(f)]
            y.contains_key(f) ==> x.contains_key(f),
        _ => true,
    }
}

/// A step for a module that is already covered changes nothing.
proof fn lemma_step_covered(r: Map<Seq<char>, SettingsView>, key: Seq<char>, d: SettingsView)
    requires
        covers(r, key, d),
    ensures
        refresh_step(r, key, d) == r,
{
    match (r[key], d) {
        (SettingsView::Object(x), SettingsView::Object(y)) => {
            assert(y.union_prefer_right(x) =~= x);
        },
        _ => {},
    }
    assert(refresh_step(r, key, d) =~= r);
}

/// Holding more keeps a module covered.
proof fn lemma_covers_extends(
    a: Map<Seq<char>, SettingsView>,
    b: Map<Seq<char>, SettingsView>,
    key: Seq<char>,
    d: SettingsView,
)
    requires
        extends(a, b),
        covers(b, key, d),
    ensures
        covers(a, key, d),
{
    assert(b.contains_key(key));
    match (a[key], b[key], d) {
        (SettingsView::Object(x), SettingsView::Object(y), SettingsView::Object(z)) => {
            assert forall|f: Seq<char>| #![trigger z.contains_key(f)] z.contains_key(f) implies x.contains_key(f) by {
                assert(y.contains_key(f));
            }
        },
        _ => {},
    }
}

/// After a refresh, every provider's module has settings, and where both the
/// settings and the defaults are objects, every default field is present.
pub proof fn lemma_refreshed_covers(m: Map<Seq<char>, SettingsView>, p: Seq<(Seq<char>, SettingsView)>)
    ensures
        forall|i: int| 0 <= i < p.len() ==> covers(refreshed(m, p), (#[trigger] p[i]).0, p[i].1),
    decreases p.len(),
{
    if p.len() > 0 {
        let q = p.drop_last();
        lemma_refreshed_covers(m, q);
        let before = refreshed(m, q);
        let after = refreshed(m, p);
        lemma_step_extends(before, p.last().0, p.last().1);
        assert forall|i: int| 0 <= i < p.len() implies covers(after, (#[trigger] p[i]).0, p[i].1) by {
            if i < p.len() - 1 {
                assert(p[i] == q[i]);
                lemma_covers_extends(after, before, p[i].0, p[i].1);
            } else {
                let key = p.last().0;
                let d = p.last().1;
                if before.contains_key(key) {
                    match (before[key], d) {
                        (SettingsView::Object(x), SettingsView::Object(y)) => {
                            assert forall|f: Seq<char>| #![trigger y.contains_key(f)] y.contains_key(f) implies y.union_prefer_right(
                                x,
                            ).contains_key(f) by {}
                        },
                        _ => {},
                    }
                }
            }
        }
    }
}

/// Refreshing with providers that are all covered changes nothing.
proof fn lemma_refresh_covered(r: Map<Seq<char>, SettingsView>, p: Seq<(Seq<char>, SettingsView)>)
    requires
        forall|i: int| 0 <= i < p.len() ==> covers(r, (#[trigger] p[i]).0, p[i].1),
    ensures
        refreshed(r, p) == r,
    decreases p.len(),
{
    if p.len() > 0 {
        let q = p.drop_last();
        assert forall|i: int| 0 <= i < q.len() implies covers(r, (#[trigger] q[i]).0, q[i].1) by {
            assert(q[i] == p[i]);
        }
        lemma_refresh_covered(r, q);
        assert(covers(r, p[p.len() - 1].0, p[p.len() - 1].1));
        lemma_step_covered(r, p.last().0, p.last().1);
    }
}

/// Refreshing a second time with the same providers changes nothing: the
/// first refresh already added every missing module and field.
pub proof fn lemma_refresh_settles(m: Map<Seq<char>, SettingsView>, p: Seq<(Seq<char>, SettingsView)>)
    ensures
        refreshed(refreshed(m, p), p) == refreshed(m, p),
{
    lemma_refreshed_covers(m, p);
    lemma_refresh_covered(refreshed(m, p), p);
}

/// A refresh keeps every setting that was there (it only adds).
pub proof fn lemma_refresh_keeps(m: Map<Seq<char>, SettingsView>, p: Seq<(Seq<char>, SettingsView)>)
    ensures
        extends(refreshed(m, p), m),
    decreases p.len(),
{
    if p.len() == 0 {
        lemma_extends_reflexive(m);
    } else {
        lemma_refresh_keeps(m, p.drop_last());
        let before = refreshed(m, p.drop_last());
        lemma_step_extends(before, p.last().0, p.last().1);
        lemma_extends_transitive(refreshed(m, p), before, m);
    }
}

} // verus!
