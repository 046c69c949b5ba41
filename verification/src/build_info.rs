use vstd::prelude::*;
use crate::keyed::{keyed_map, keys_distinct, lemma_keyed_lookup, lemma_keyed_update};
use crate::text::{
    append_str, ascii_uppercase, chars_of, slice_chars, starts_with_str, string_from_chars, text_is, to_ascii_uppercase,
};

verus! {

/// The store the game was bought from.
#[derive(Debug, Clone, Copy, PartialEq, Eq, Structural)]
pub enum PlatformType {
    EGS,
    STEAM,
    XBOX,
    OTHER,
}

/// The name of each platform.
pub open spec fn platform_name(p: PlatformType) -> Seq<char> {
    match p {
        PlatformType::EGS => "EGS"@,
        PlatformType::STEAM => "STEAM"@,
        PlatformType::XBOX => "XBOX"@,
        PlatformType::OTHER => "OTHER"@,
    }
}

/// The platform whose name is `s` up to ASCII letter case.
pub open spec fn platform_from_name(s: Seq<char>) -> Option<PlatformType> {
    let u = ascii_uppercase(s);
    if u == "EGS"@ {
        Some(PlatformType::EGS)
    } else if u == "STEAM"@ {
        Some(PlatformType::STEAM)
    } else if u == "XBOX"@ {
        Some(PlatformType::XBOX)
    } else if u == "OTHER"@ {
        Some(PlatformType::OTHER)
    } else {
        None
    }
}

impl PlatformType {
    /// The platform's name, as it is displayed.
    pub fn as_str(&self) -> (r: &'static str)
        ensures
            r@ == platform_name(*self),
    {
        match self {
            PlatformType::EGS => "EGS",
            PlatformType::STEAM => "STEAM",
            PlatformType::XBOX => "XBOX",
            PlatformType::OTHER => "OTHER",
        }
    }

    /// Reads a platform name, ignoring ASCII letter case.
    pub fn from_str(s: &str) -> (r: Result<PlatformType, ()>)
        ensures
            r == (match platform_from_name(s@) {
                Some(p) => Ok(p),
                None => Err(()),
            }),
    {
        let cs = chars_of(s);
        let u = to_ascii_uppercase(cs.as_slice());
        if text_is(u.as_slice(), "EGS") {
            Ok(PlatformType::EGS)
        } else if text_is(u.as_slice(), "STEAM") {
            Ok(PlatformType::STEAM)
        } else if text_is(u.as_slice(), "XBOX") {
            Ok(PlatformType::XBOX)
        } else if text_is(u.as_slice(), "OTHER") {
            Ok(PlatformType::OTHER)
        } else {
            Err(())
        }
    }
}

/// Reading a platform's displayed name back gives the same platform.
pub proof fn lemma_platform_name_roundtrip(p: PlatformType)
    ensures
        platform_from_name(platform_name(p)) == Some(p),
{
    reveal_strlit("EGS");
    reveal_strlit("STEAM");
    reveal_strlit("XBOX");
    reveal_strlit("OTHER");
    let n = platform_name(p);
    assert(ascii_uppercase(n) =~= n);
    assert("EGS"@.len() != "STEAM"@.len() && "EGS"@.len() != "XBOX"@.len() && "EGS"@.len()
        != "OTHER"@.len());
    assert("STEAM"@[0] != "OTHER"@[0] && "STEAM"@.len() != "XBOX"@.len() && "XBOX"@.len()
        != "OTHER"@.len());
}

/// The lower-case hexadecimal digit for `d` (below 16).
pub open spec fn hex_digit(d: nat) -> char {
    if d < 10 {
        (('0' as u32) + d) as char
    } else {
        (('a' as u32) + d - 10) as char
    }
}

/// The lowest `n` hexadecimal digits of `x`, most significant first, in lower
/// case (`{:0nx}` for a value below 16^n).
pub open spec fn hex_digits(x: nat, n: nat) -> Seq<char>
    decreases n,
{
    if n == 0 {
        seq![]
    } else {
        hex_digits(x / 16, (n - 1) as nat).push(hex_digit(x % 16))
    }
}

/// Formats the lowest `n` hexadecimal digits of `x`.
pub fn format_hex(x: u32, n: usize) -> (r: Vec<char>)
    ensures
        r@ == hex_digits(x as nat, n as nat),
    decreases n,
{
    if n == 0 {
        return Vec::new();
    }
    let mut r = format_hex(x / 16, n - 1);
    let d = x % 16;
    let c = if d < 10 {
        ((('0' as u32) + d) as u8) as char
    } else {
        ((('a' as u32) + d - 10) as u8) as char
    };
    r.push(c);
    r
}

/// Where the description of a game build is kept: the platform name and the
/// build's checksum in eight hexadecimal digits, under the local application
/// data folder.
pub open spec fn build_info_path_template(crc: u32, platform: PlatformType) -> Seq<char> {
    "%LOCALAPPDATA%\\Chivalry 2\\Saved\\Config\\"@ + platform_name(platform) + "-"@ + hex_digits(
        crc as nat,
        8,
    ) + ".build.json"@
}

/// The path of the description of a game build, before `%LOCALAPPDATA%` is expanded.
pub fn get_build_path_template(crc: u32, platform: PlatformType) -> (r: String)
    ensures
        r@ == build_info_path_template(crc, platform),
{
    let mut v = chars_of("%LOCALAPPDATA%\\Chivalry 2\\Saved\\Config\\");
    let mut p = chars_of(platform.as_str());
    v.append(&mut p);
    let mut dash = chars_of("-");
    v.append(&mut dash);
    let mut h = format_hex(crc, 8);
    v.append(&mut h);
    let mut ext = chars_of(".build.json");
    v.append(&mut ext);
    string_from_chars(v.as_slice())
}

/// A game build: its checksum, platform, executable path and the offsets of
/// the functions the plugin hooks.
pub struct BuildInfo {
    build: u32,
    file_hash: u32,
    name: String,
    platform: PlatformType,
    path: String,
    offsets: Vec<(String, u64)>,
}

impl BuildInfo {
    /// The offsets kept for the build, by name.
    pub closed spec fn offset_map(&self) -> Map<Seq<char>, u64> {
        keyed_map(self.offsets@)
    }

    /// The build number.
    pub closed spec fn spec_build(&self) -> u32 {
        self.build
    }

    /// The build's name.
    pub closed spec fn spec_name(&self) -> Seq<char> {
        self.name@
    }

    /// The build's checksum.
    pub closed spec fn spec_file_hash(&self) -> u32 {
        self.file_hash
    }

    /// The build's platform.
    pub closed spec fn spec_platform(&self) -> PlatformType {
        self.platform
    }

    /// The build's executable path.
    pub closed spec fn spec_path(&self) -> Seq<char> {
        self.path@
    }

    /// The offsets are kept without repeated names.
    pub closed spec fn wf(&self) -> bool {
        keys_distinct(self.offsets@)
    }

    /// The description of a freshly scanned build: build number 0, no name,
    /// and the offsets found by the scan (a later offset for a name replacing
    /// an earlier one).
    pub fn from_scan(crc32: u32, platform: PlatformType, path: String, offsets: Vec<(String, u64)>) -> (r: BuildInfo)
        ensures
            r.wf(),
            r.spec_build() == 0,
            r.spec_name() == Seq::<char>::empty(),
            r.spec_file_hash() == crc32,
            r.spec_platform() == platform,
            r.spec_path() == path@,
            r.offset_map() == keyed_map(offsets@),
    {
        let mut bi = BuildInfo {
            build: 0,
            file_hash: crc32,
            name: "".to_owned(),
            platform,
            path,
            offsets: Vec::new(),
        };
        proof {
            reveal_strlit("");
        }
        assert(bi.offset_map() =~= keyed_map(offsets@.take(0)));
        let mut i: usize = 0;
        while i < offsets.len()
            invariant
                i <= offsets@.len(),
                bi.wf(),
                bi.build == 0,
                bi.name@ == Seq::<char>::empty(),
                bi.file_hash == crc32,
                bi.platform == platform,
                bi.path@ == path@,
                bi.offset_map() == keyed_map(offsets@.take(i as int)),
            decreases offsets@.len() - i,
        {
            assert(offsets@.take(i + 1).drop_last() =~= offsets@.take(i as int));
            let (n, o) = &offsets[i];
            bi.add_offset(n.clone(), *o);
            i += 1;
        }
        assert(offsets@.take(offsets@.len() as int) =~= offsets@);
        bi
    }

    /// The build's checksum.
    pub fn get_file_hash(&self) -> (r: u32)
        ensures
            r == self.spec_file_hash(),
    {
        self.file_hash
    }

    /// The build's platform.
    pub fn get_platform(&self) -> (r: PlatformType)
        ensures
            r == self.spec_platform(),
    {
        self.platform
    }

    /// The offset kept under `name`, if any.
    pub fn get_offset(&self, name: &str) -> (r: Option<u64>)
        ensures
            match r {
                Some(o) => self.offset_map().contains_key(name@) && self.offset_map()[name@] == o,
                None => !self.offset_map().contains_key(name@),
            },
    {
        let n = name.to_owned();
        let mut j = self.offsets.len();
        while j > 0
            invariant
                j <= self.offsets@.len(),
                n@ == name@,
                forall|i: int| j <= i < self.offsets@.len() ==> (#[trigger] self.offsets@[i]).0@ != name@,
            decreases j,
        {
            if self.offsets[j - 1].0 == n {
                proof {
                    lemma_keyed_lookup(self.offsets@, name@, j - 1);
                }
                return Some(self.offsets[j - 1].1);
            }
            j -= 1;
        }
        proof {
            lemma_keyed_lookup(self.offsets@, name@, -1);
        }
        None
    }

    /// All offsets kept for the build, as (name, offset) pairs.
    pub fn get_offsets(&self) -> (r: &Vec<(String, u64)>)
        ensures
            keyed_map(r@) == self.offset_map(),
            self.wf() ==> keys_distinct(r@),
    {
        &self.offsets
    }

    /// Keeps `offset` under `name`, replacing an earlier offset of that name.
    pub fn add_offset(&mut self, name: String, offset: u64)
        requires
            old(self).wf(),
        ensures
            final(self).wf(),
            final(self).offset_map() == old(self).offset_map().insert(name@, offset),
            final(self).spec_file_hash() == old(self).spec_file_hash(),
            final(self).spec_platform() == old(self).spec_platform(),
            final(self).spec_path() == old(self).spec_path(),
            final(self).spec_build() == old(self).spec_build(),
            final(self).spec_name() == old(self).spec_name(),
    {
        let mut j: usize = 0;
        while j < self.offsets.len()
            invariant
                j <= self.offsets@.len(),
                keys_distinct(self.offsets@),
                forall|i: int| 0 <= i < j ==> (#[trigger] self.offsets@[i]).0@ != name@,
                self.file_hash == old(self).file_hash,
                self.platform == old(self).platform,
                self.path == old(self).path,
                self.build == old(self).build,
                self.name == old(self).name,
                self.offsets@ == old(self).offsets@,
            decreases self.offsets@.len() - j,
        {
            if self.offsets[j].0 == name {
                let ghost e = (name, offset);
                proof {
                    lemma_keyed_update(self.offsets@, j as int, e);
                }
                self.offsets.set(j, (name, offset));
                return;
            }
            j += 1;
        }
        let ghost before = self.offsets@;
        self.offsets.push((name, offset));
        assert(self.offsets@.drop_last() =~= before);
    }

    /// A build description read back from its saved form; a later offset for
    /// a name replaces an earlier one.
    pub fn from_parts(
        build: u32,
        file_hash: u32,
        name: String,
        platform: PlatformType,
        path: String,
        offsets: Vec<(String, u64)>,
    ) -> (r: BuildInfo)
        ensures
            r.wf(),
            r.spec_build() == build,
            r.spec_file_hash() == file_hash,
            r.spec_name() == name@,
            r.spec_platform() == platform,
            r.spec_path() == path@,
            r.offset_map() == keyed_map(offsets@),
    {
        let mut bi = BuildInfo::from_scan(file_hash, platform, path, offsets);
        bi.build = build;
        bi.name = name;
        bi
    }

    /// The build number.
    pub fn get_build(&self) -> (r: u32)
        ensures
            r == self.spec_build(),
    {
        self.build
    }

    /// The build's name.
    pub fn get_name(&self) -> (r: &str)
        ensures
            r@ == self.spec_name(),
    {
        self.name.as_str()
    }

    /// The build's executable path.
    pub fn get_path(&self) -> (r: &str)
        ensures
            r@ == self.spec_path(),
    {
        self.path.as_str()
    }

    /// Adds the offsets found by a later scan, each replacing what was kept
    /// under its name (a later one for a name replacing an earlier one).
    pub fn add_offsets(&mut self, found: Vec<(String, u64)>)
        requires
            old(self).wf(),
        ensures
            final(self).wf(),
            final(self).offset_map() == old(self).offset_map().union_prefer_right(keyed_map(found@)),
            final(self).spec_file_hash() == old(self).spec_file_hash(),
            final(self).spec_platform() == old(self).spec_platform(),
            final(self).spec_path() == old(self).spec_path(),
            final(self).spec_build() == old(self).spec_build(),
            final(self).spec_name() == old(self).spec_name(),
    {
        let mut i: usize = 0;
        assert(old(self).offset_map().union_prefer_right(keyed_map(found@.take(0))) =~= old(
            self,
        ).offset_map());
        while i < found.len()
            invariant
                i <= found@.len(),
                self.wf(),
                self.offset_map() == old(self).offset_map().union_prefer_right(
                    keyed_map(found@.take(i as int)),
                ),
                self.spec_file_hash() == old(self).spec_file_hash(),
                self.spec_platform() == old(self).spec_platform(),
                self.spec_path() == old(self).spec_path(),
                self.spec_build() == old(self).spec_build(),
                self.spec_name() == old(self).spec_name(),
            decreases found@.len() - i,
        {
            let (n, o) = &found[i];
            assert(found@.take(i + 1).drop_last() =~= found@.take(i as int));
            self.add_offset(n.clone(), *o);
            assert(self.offset_map() =~= old(self).offset_map().union_prefer_right(
                keyed_map(found@.take(i + 1)),
            ));
            i += 1;
        }
        assert(found@.take(found@.len() as int) =~= found@);
    }
}

/// An offset read right after it was added is the added one, and adding an
/// offset leaves the others as they were.
pub proof fn lemma_offset_read_after_write(before: Map<Seq<char>, u64>, name: Seq<char>, offset: u64, other: Seq<char>)
    requires
        other != name,
    ensures
        before.insert(name, offset)[name] == offset,
        before.insert(name, offset).contains_key(other) == before.contains_key(other),
        before.contains_key(other) ==> before.insert(name, offset)[other] == before[other],
{
}

/// `s` without its leading `\` and `/` characters.
pub open spec fn skip_separators(s: Seq<char>) -> Seq<char>
    decreases s.len(),
{
    if s.len() > 0 && (s[0] == '\\' || s[0] == '/') {
        skip_separators(s.drop_first())
    } else {
        s
    }
}

/// The part of `path` below the local application data folder: what follows
/// a leading `%LOCALAPPDATA%`, without its leading separators; none when the
/// path does not start with it.
pub open spec fn local_app_data_part(path: Seq<char>) -> Option<Seq<char>> {
    let p = "%LOCALAPPDATA%"@;
    if p.len() <= path.len() && path.take(p.len() as int) == p {
        Some(skip_separators(path.skip(p.len() as int)))
    } else {
        None
    }
}

/// The part of `path` below the local application data folder (see
/// [`local_app_data_part`]); the caller joins it to that folder.
pub fn local_app_data_relative(path: &str) -> (r: Option<String>)
    ensures
        match r {
            Some(t) => local_app_data_part(path@) == Some(t@),
            None => local_app_data_part(path@) is None,
        },
{
    let cs = chars_of(path);
    if !starts_with_str(cs.as_slice(), "%LOCALAPPDATA%") {
        return None;
    }
    proof {
        reveal_strlit("%LOCALAPPDATA%");
    }
    let mut i: usize = 14;
    while i < cs.len() && (cs[i] == '\\' || cs[i] == '/')
        invariant
            14 <= i <= cs@.len(),
            skip_separators(cs@.skip(i as int)) == skip_separators(cs@.skip(14)),
        decreases cs@.len() - i,
    {
        assert(cs@.skip(i as int).drop_first() =~= cs@.skip(i + 1));
        i += 1;
    }
    let rest = slice_chars(cs.as_slice(), i, cs.len());
    assert(rest@ =~= cs@.skip(i as int));
    Some(string_from_chars(rest.as_slice()))
}

/// Whether a scan for `platform` may run in a process whose platform is
/// `running` (`None` while none is set): it may when none is set yet (the
/// process then takes `platform`) or when they agree; the result is the
/// process's platform afterwards.
pub fn scan_platform(running: Option<PlatformType>, platform: PlatformType) -> (r: Result<PlatformType, String>)
    ensures
        match running {
            None => r == Ok::<PlatformType, String>(platform),
            Some(p) => if p == platform {
                r == Ok::<PlatformType, String>(p)
            } else {
                r matches Err(e) && e@ == "Cannot scan for signatures on platform "@ + platform_name(platform)
                    + " while running on "@ + platform_name(p)
            },
        },
{
    match running {
        None => Ok(platform),
        Some(p) => {
            if p == platform {
                Ok(p)
            } else {
                let mut v: Vec<char> = Vec::new();
                append_str(&mut v, "Cannot scan for signatures on platform ");
                append_str(&mut v, platform.as_str());
                append_str(&mut v, " while running on ");
                append_str(&mut v, p.as_str());
                Err(string_from_chars(v.as_slice()))
            }
        },
    }
}

/// The signature names of `names` still to scan for: all of them without a
/// known build, otherwise those the build keeps no offset for, in order.
pub open spec fn missing_names(names: Seq<&str>, known: Option<Map<Seq<char>, u64>>) -> Seq<&str>
    decreases names.len(),
{
    if names.len() == 0 {
        Seq::empty()
    } else {
        let rest = missing_names(names.drop_last(), known);
        match known {
            Some(m) => if m.contains_key(names.last()@) {
                rest
            } else {
                rest.push(names.last())
            },
            None => rest.push(names.last()),
        }
    }
}

/// The signatures of `names` still to scan for (see [`missing_names`]).
pub fn missing_signatures<'a>(names: &[&'a str], existing: Option<&BuildInfo>) -> (r: Vec<&'a str>)
    ensures
        r@ == missing_names(
            names@,
            match existing {
                Some(b) => Some(b.offset_map()),
                None => None,
            },
        ),
{
    let ghost known = match existing {
        Some(b) => Some(b.offset_map()),
        None => None::<Map<Seq<char>, u64>>,
    };
    let mut r: Vec<&'a str> = Vec::new();
    let mut i: usize = 0;
    while i < names.len()
        invariant
            i <= names@.len(),
            known == (match existing {
                Some(b) => Some(b.offset_map()),
                None => None::<Map<Seq<char>, u64>>,
            }),
            r@ == missing_names(names@.take(i as int), known),
        decreases names@.len() - i,
    {
        assert(names@.take(i + 1).drop_last() =~= names@.take(i as int));
        let n = names[i];
        let found = match existing {
            Some(b) => b.get_offset(n).is_some(),
            None => false,
        };
        if !found {
            r.push(n);
        }
        i += 1;
    }
    assert(names@.take(names@.len() as int) =~= names@);
    r
}

/// The offset of the address `val` found in an image loaded at `base`: the
/// distance from the base, kept to its low 28 bits.
pub fn scan_offset(val: u64, base: u64) -> (r: u64)
    requires
        base <= val,
    ensures
        r == (val - base) as u64 & 0xFFFFFFF,
{
    (val - base) & 0xFFFFFFF
}

/// The platform the game was started for: the Epic store when the
/// `-epicapp=Peppermint` argument is given, Steam otherwise.
pub open spec fn platform_of_args(args: Seq<Seq<char>>) -> PlatformType {
    if args.contains("-epicapp=Peppermint"@) {
        PlatformType::EGS
    } else {
        PlatformType::STEAM
    }
}

/// The platform the game was started for (see [`platform_of_args`]).
pub fn platform_from_args(args: &Vec<String>) -> (r: PlatformType)
    ensures
        r == platform_of_args(args@.map_values(|s: String| s@)),
{
    let ghost v = args@.map_values(|s: String| s@);
    let mut i: usize = 0;
    while i < args.len()
        invariant
            i <= args@.len(),
            v == args@.map_values(|s: String| s@),
            forall|j: int| 0 <= j < i ==> (#[trigger] v[j]) != "-epicapp=Peppermint"@,
        decreases args@.len() - i,
    {
        let cs = chars_of(args[i].as_str());
        if text_is(cs.as_slice(), "-epicapp=Peppermint") {
            assert(v[i as int] == "-epicapp=Peppermint"@);
            return PlatformType::EGS;
        }
        i += 1;
    }
    PlatformType::STEAM
}

/// The checksum of a build description.
pub fn build_info_get_file_hash(bi: &BuildInfo) -> (r: u32)
    ensures
        r == bi.spec_file_hash(),
{
    bi.get_file_hash()
}

/// The offset kept under `name`, or 0 when there is none.
pub fn build_info_get_offset(bi: &BuildInfo, name: &str) -> (r: u64)
    ensures
        r == (if bi.offset_map().contains_key(name@) {
            bi.offset_map()[name@]
        } else {
            0
        }),
{
    match bi.get_offset(name) {
        Some(o) => o,
        None => 0,
    }
}

/// What loading the build description asks of the caller next.
#[derive(Debug, PartialEq, Eq, Structural)]
pub enum PatchStep {
    /// Apply the patches and attach the hooks at the build's offsets.
    Apply,
    /// They were applied before; nothing to do.
    AlreadyApplied,
    /// No build description is known; nothing to apply.
    NoBuild,
}

/// What the plugin keeps of the running build: its description once loaded
/// or scanned, and whether the patches and hooks were applied.
pub struct BuildCache {
    current: Option<BuildInfo>,
    applied: bool,
}

impl BuildCache {
    /// The build description kept, if any.
    pub closed spec fn cached(&self) -> Option<BuildInfo> {
        self.current
    }

    /// Whether the patches and hooks were applied.
    pub closed spec fn is_applied(&self) -> bool {
        self.applied
    }

    /// A kept description is well formed.
    pub closed spec fn wf(&self) -> bool {
        match self.current {
            Some(b) => b.wf(),
            None => true,
        }
    }

    /// Nothing known yet and nothing applied.
    pub fn new() -> (r: BuildCache)
        ensures
            r.wf(),
            r.cached() is None,
            !r.is_applied(),
    {
        BuildCache { current: None, applied: false }
    }

    /// The build description kept, if any.
    pub fn current(&self) -> (r: Option<&BuildInfo>)
        ensures
            match self.cached() {
                Some(b) => r matches Some(x) && *x == b,
                None => r is None,
            },
    {
        match &self.current {
            Some(b) => Some(b),
            None => None,
        }
    }

    /// Whether the description still has to be found (read from its file or
    /// scanned): only the first time.
    pub fn needs_load(&self) -> (r: bool)
        ensures
            r == (self.cached() is None),
    {
        self.current.is_none()
    }

    /// Takes the description read from its file, if it read. With none kept
    /// yet, a description that read is kept; when it did not read, a full scan
    /// is asked for (`true`) exactly when `scan_missing` allows it. A cache
    /// that already holds a description is left alone.
    pub fn after_load(&mut self, loaded: Option<BuildInfo>, scan_missing: bool) -> (r: bool)
        requires
            old(self).wf(),
            loaded matches Some(b) ==> b.wf(),
        ensures
            final(self).wf(),
            final(self).is_applied() == old(self).is_applied(),
            match old(self).cached() {
                Some(_) => !r && final(self).cached() == old(self).cached(),
                None => match loaded {
                    Some(b) => !r && final(self).cached() == Some(b),
                    None => r == scan_missing && final(self).cached() is None,
                },
            },
    {
        if self.current.is_some() {
            return false;
        }
        match loaded {
            Some(b) => {
                self.current = Some(b);
                false
            },
            None => scan_missing,
        }
    }

    /// Keeps the description a full scan produced, when none is kept yet.
    pub fn store_scan(&mut self, scanned: BuildInfo)
        requires
            old(self).wf(),
            scanned.wf(),
        ensures
            final(self).wf(),
            final(self).is_applied() == old(self).is_applied(),
            final(self).cached() == match old(self).cached() {
                Some(b) => Some(b),
                None => Some(scanned),
            },
    {
        if self.current.is_none() {
            self.current = Some(scanned);
        }
    }

    /// Whether to scan for the signatures the kept description lacks: when
    /// scanning is allowed and a description is kept.
    pub fn wants_missing_scan(&self, scan_missing: bool) -> (r: bool)
        ensures
            r == (scan_missing && self.cached() is Some),
    {
        scan_missing && self.current.is_some()
    }

    /// Adds the offsets a scan found to the kept description (a found offset
    /// replaces a kept one of the same name); without one nothing changes.
    pub fn add_found(&mut self, found: Vec<(String, u64)>)
        requires
            old(self).wf(),
        ensures
            final(self).wf(),
            final(self).is_applied() == old(self).is_applied(),
            match old(self).cached() {
                Some(b) => final(self).cached() matches Some(n) && n.offset_map() == b.offset_map().union_prefer_right(
                    keyed_map(found@),
                ) && n.spec_build() == b.spec_build() && n.spec_name() == b.spec_name() && n.spec_file_hash()
                    == b.spec_file_hash() && n.spec_platform() == b.spec_platform() && n.spec_path() == b.spec_path(),
                None => final(self).cached() is None,
            },
    {
        match self.current.take() {
            Some(mut b) => {
                b.add_offsets(found);
                self.current = Some(b);
            },
            None => {},
        }
    }

    /// Whether the patches and hooks are to be applied now: once, the first
    /// time a description is kept; never again after that.
    pub fn patch_step(&mut self) -> (r: PatchStep)
        ensures
            final(self).cached() == old(self).cached(),
            old(self).is_applied() ==> r == PatchStep::AlreadyApplied && final(self).is_applied(),
            !old(self).is_applied() && old(self).cached() is Some ==> r == PatchStep::Apply && final(self).is_applied(),
            !old(self).is_applied() && old(self).cached() is None ==> r == PatchStep::NoBuild && !final(self).is_applied(),
    {
        if self.applied {
            return PatchStep::AlreadyApplied;
        }
        if self.current.is_some() {
            self.applied = true;
            PatchStep::Apply
        } else {
            PatchStep::NoBuild
        }
    }
}

} // verus!
