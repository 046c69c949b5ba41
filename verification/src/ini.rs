use vstd::prelude::*;

verus! {

/// The key of an ini override: file, section and key name.
pub type IniKey = (Seq<char>, Seq<char>, Seq<char>);

/// One ini override: `value` for `key` in `section` of `file`.
pub struct IniEntry {
    pub file: String,
    pub section: String,
    pub key: String,
    pub value: String,
}

impl IniEntry {
    /// The entry's key.
    pub open spec fn spec_key(&self) -> IniKey {
        (self.file@, self.section@, self.key@)
    }
}

/// The overrides recorded by `entries`, a later entry for a key replacing an
/// earlier one.
pub open spec fn ini_entries_map(entries: Seq<IniEntry>) -> Map<IniKey, Seq<char>>
    decreases entries.len(),
{
    if entries.len() == 0 {
        Map::empty()
    } else {
        ini_entries_map(entries.drop_last()).insert(entries.last().spec_key(), entries.last().value@)
    }
}

/// Ini overrides given on the command line: file -> section -> key -> value.
pub struct IniMap {
    entries: Vec<IniEntry>,
}

impl View for IniMap {
    type V = Map<IniKey, Seq<char>>;

    closed spec fn view(&self) -> Map<IniKey, Seq<char>> {
        ini_entries_map(self.entries@)
    }
}

/// The value looked up for `k` is that of its last entry, and a key without
/// entries is absent.
proof fn lemma_ini_lookup(entries: Seq<IniEntry>, k: IniKey, j: int)
    requires
        -1 <= j < entries.len(),
        forall|i: int| j < i < entries.len() ==> (#[trigger] entries[i]).spec_key() != k,
    ensures
        j >= 0 && entries[j].spec_key() == k ==> ini_entries_map(entries).contains_key(k)
            && ini_entries_map(entries)[k] == entries[j].value@,
        j == -1 ==> !ini_entries_map(entries).contains_key(k),
    decreases entries.len(),
{
    if entries.len() > 0 {
        if j < entries.len() - 1 {
            lemma_ini_lookup(entries.drop_last(), k, j);
        }
    }
}

impl IniMap {
    /// An empty set of overrides.
    pub fn new() -> (m: IniMap)
        ensures
            m@ == Map::<IniKey, Seq<char>>::empty(),
    {
        IniMap { entries: Vec::new() }
    }

    /// Sets `value` for `key` in `section` of `file`.
    pub fn insert(&mut self, file: String, section: String, key: String, value: String)
        ensures
            final(self)@ == old(self)@.insert((file@, section@, key@), value@),
    {
        let e = IniEntry { file, section, key, value };
        let ghost old_entries = self.entries@;
        self.entries.push(e);
        assert(self.entries@.drop_last() =~= old_entries);
    }

    /// The value set for `key` in `section` of `file`, if any.
    pub fn get(&self, file: &str, section: &str, key: &str) -> (r: Option<&str>)
        ensures
            match r {
                Some(v) => self@.contains_key((file@, section@, key@)) && self@[(file@, section@, key@)]
                    == v@,
                None => !self@.contains_key((file@, section@, key@)),
            },
    {
        let ghost k = (file@, section@, key@);
        let f = file.to_owned();
        let s = section.to_owned();
        let kk = key.to_owned();
        let mut i = self.entries.len();
        while i > 0
            invariant
                i <= self.entries@.len(),
                k == (file@, section@, key@),
                f@ == file@,
                s@ == section@,
                kk@ == key@,
                forall|j: int| i <= j < self.entries@.len() ==> (#[trigger] self.entries@[j]).spec_key() != k,
            decreases i,
        {
            let e = &self.entries[i - 1];
            if e.file == f && e.section == s && e.key == kk {
                proof {
                    lemma_ini_lookup(self.entries@, k, i - 1);
                }
                return Some(e.value.as_str());
            }
            i -= 1;
        }
        proof {
            lemma_ini_lookup(self.entries@, k, -1);
        }
        None
    }
}

} // verus!
