use vstd::prelude::*;
use crate::text::{chars_of, contains_seq, contains_text, string_from_chars};
use crate::ue::{has_interior_nul, wide_c_units, EFindName, FName, FString, TArray};

verus! {

/// The network role of a running game.
#[allow(non_camel_case_types)]
#[derive(Clone, Copy, Debug, PartialEq, Eq, Structural)]
pub enum ENetMode {
    STANDALONE,
    DEDICATED_SERVER,
    LISTEN_SERVER,
    CLIENT,
    MAX,
}

impl ENetMode {
    /// The value the engine gives this role.
    pub fn as_u8(&self) -> (r: u8)
        ensures
            r == (match *self {
                ENetMode::STANDALONE => 0u8,
                ENetMode::DEDICATED_SERVER => 1u8,
                ENetMode::LISTEN_SERVER => 2u8,
                ENetMode::CLIENT => 3u8,
                ENetMode::MAX => 4u8,
            }),
    {
        match self {
            ENetMode::STANDALONE => 0,
            ENetMode::DEDICATED_SERVER => 1,
            ENetMode::LISTEN_SERVER => 2,
            ENetMode::CLIENT => 3,
            ENetMode::MAX => 4,
        }
    }
}

/// The role the net driver reports: with the desync patch a listen server
/// passes for a dedicated one; otherwise the engine's own answer stands.
pub fn reported_net_mode(apply_desync_patch: bool, engine_mode: ENetMode) -> (r: ENetMode)
    ensures
        r == (if apply_desync_patch && engine_mode == ENetMode::LISTEN_SERVER {
            ENetMode::DEDICATED_SERVER
        } else {
            engine_mode
        }),
{
    if apply_desync_patch && engine_mode == ENetMode::LISTEN_SERVER {
        ENetMode::DEDICATED_SERVER
    } else {
        engine_mode
    }
}

/// Whether "is this a dedicated server" is answered yes without asking the
/// engine: on a playable listen server, once a world exists whose role is
/// dedicated or listen server. `world_mode` is the world's role, `None` while
/// there is no world.
pub fn overrides_dedicated_check(playable_listen: bool, world_mode: Option<ENetMode>) -> (r: bool)
    ensures
        r == (playable_listen && (world_mode == Some(ENetMode::DEDICATED_SERVER) || world_mode
            == Some(ENetMode::LISTEN_SERVER))),
{
    if playable_listen {
        match world_mode {
            Some(ENetMode::DEDICATED_SERVER) | Some(ENetMode::LISTEN_SERVER) => true,
            _ => false,
        }
    } else {
        false
    }
}

/// The front-end map URL: `Frontend`, then `?Password=<password>` when the
/// server has one, `?rcon` when remote control is on, and `?startup` on the
/// first load only.
pub open spec fn frontend_url(password: Option<Seq<char>>, rcon: bool, first_load: bool) -> Seq<char> {
    "Frontend"@ + (match password {
        Some(p) => "?Password="@ + p,
        None => Seq::<char>::empty(),
    }) + (if rcon {
        "?rcon"@
    } else {
        Seq::<char>::empty()
    }) + (if first_load {
        "?startup"@
    } else {
        Seq::<char>::empty()
    })
}

/// Builds the front-end map URL (see [`frontend_url`]).
pub fn frontend_map_url(password: Option<&str>, rcon: bool, first_load: bool) -> (r: String)
    ensures
        r@ == frontend_url(
            match password {
                Some(p) => Some(p@),
                None => None,
            },
            rcon,
            first_load,
        ),
{
    let mut url = chars_of("Frontend");
    match password {
        Some(p) => {
            let mut key = chars_of("?Password=");
            url.append(&mut key);
            let mut pc = chars_of(p);
            url.append(&mut pc);
        },
        None => {},
    }
    if rcon {
        let mut flag = chars_of("?rcon");
        url.append(&mut flag);
    }
    if first_load {
        let mut flag = chars_of("?startup");
        url.append(&mut flag);
    }
    proof {
        let pw = match password {
            Some(p) => Some(p@),
            None => None,
        };
        assert(url@ =~= frontend_url(pw, rcon, first_load));
    }
    string_from_chars(url.as_slice())
}

/// Localised text of the engine (its data is not read here).
pub struct FText {
    pub text_data: [u8; 16],
    pub flags: u32,
}

impl Default for FText {
    /// Empty text: all bytes zero.
    fn default() -> (r: Self)
        ensures
            forall|i: int| 0 <= i < 16 ==> r.text_data@[i] == 0,
            r.flags == 0,
    {
        FText { text_data: [0u8; 16], flags: 0 }
    }
}

/// Whether `r` is what [`FName::with_type`] builds from `path` and `find_type`
/// with the constructor `construct`: the name found as `find_type` says, or,
/// when that is the empty entry, the name added to the table; the constructor
/// is handed the NUL-terminated UTF-16 units of `path`.
pub open spec fn built_name<F: Fn(&[u16], EFindName) -> FName>(
    construct: F,
    path: &str,
    find_type: EFindName,
    r: FName,
) -> bool {
    exists|w: &[u16], first: FName|
        {
            &&& w@ == wide_c_units(path@)
            &&& #[trigger] construct.ensures((w, find_type), first)
            &&& first.comparison_index.value != 0 ==> r == first
            &&& first.comparison_index.value == 0 ==> construct.ensures((w, EFindName::Add), r)
        }
}

/// A path to an asset that may not be loaded: the asset's name and a path
/// inside it.
pub struct FSoftObjectPath {
    pub asset_path_name: FName,
    pub sub_path_string: FString,
}

impl FSoftObjectPath {
    /// The path of the asset `path`: its name looked up as an existing name
    /// (added when missing), with no inner path.
    pub fn new<F: Fn(&[u16], EFindName) -> FName>(path: &str, construct: F) -> (r: Self)
        requires
            !has_interior_nul(path@),
            forall|w: &[u16], m: EFindName| w@ == wide_c_units(path@) ==> #[trigger] construct.requires((w, m)),
        ensures
            built_name(construct, path, EFindName::Find, r.asset_path_name),
            r.sub_path_string@ == Seq::<u16>::empty(),
            r.sub_path_string.cap() == 0,
    {
        FSoftObjectPath {
            asset_path_name: FName::with_type(path, EFindName::Find, construct),
            sub_path_string: TArray::new(),
        }
    }
}

/// A reference to an asset that may not be loaded: a cached weak pointer, the
/// tag of its last check and the asset's path.
pub struct FSoftObjectPtr {
    pub weak_ptr: [u8; 8],
    pub tag_at_last_test: i32,
    pub padding: u32,
    pub path: FSoftObjectPath,
}

impl FSoftObjectPtr {
    /// A reference to the asset `path` whose cache is cold: the weak pointer
    /// zeroed and the tag at -1.
    pub fn from_path<F: Fn(&[u16], EFindName) -> FName>(path: &str, construct: F) -> (r: Self)
        requires
            !has_interior_nul(path@),
            forall|w: &[u16], m: EFindName| w@ == wide_c_units(path@) ==> #[trigger] construct.requires((w, m)),
        ensures
            forall|i: int| 0 <= i < 8 ==> r.weak_ptr@[i] == 0,
            r.tag_at_last_test == -1,
            r.padding == 0,
            built_name(construct, path, EFindName::Find, r.path.asset_path_name),
            r.path.sub_path_string@ == Seq::<u16>::empty(),
            r.path.sub_path_string.cap() == 0,
    {
        FSoftObjectPtr {
            weak_ptr: [0u8; 8],
            tag_at_last_test: -1,
            padding: 0,
            path: FSoftObjectPath::new(path, construct),
        }
    }
}

/// What spawning does when the new actor would collide.
#[derive(Debug, Copy, Clone, PartialEq, Eq, Structural)]
pub enum ESpawnActorCollisionHandlingMethod {
    Undefined,
    AlwaysSpawn,
    AdjustIfPossibleButAlwaysSpawn,
    AdjustIfPossibleButDontSpawnIfColliding,
    DontSpawnIfColliding,
}

impl ESpawnActorCollisionHandlingMethod {
    /// The value the engine gives this method.
    pub fn as_u8(&self) -> (r: u8)
        ensures
            r == (match *self {
                ESpawnActorCollisionHandlingMethod::Undefined => 0u8,
                ESpawnActorCollisionHandlingMethod::AlwaysSpawn => 1u8,
                ESpawnActorCollisionHandlingMethod::AdjustIfPossibleButAlwaysSpawn => 2u8,
                ESpawnActorCollisionHandlingMethod::AdjustIfPossibleButDontSpawnIfColliding => 3u8,
                ESpawnActorCollisionHandlingMethod::DontSpawnIfColliding => 4u8,
            }),
    {
        match self {
            ESpawnActorCollisionHandlingMethod::Undefined => 0,
            ESpawnActorCollisionHandlingMethod::AlwaysSpawn => 1,
            ESpawnActorCollisionHandlingMethod::AdjustIfPossibleButAlwaysSpawn => 2,
            ESpawnActorCollisionHandlingMethod::AdjustIfPossibleButDontSpawnIfColliding => 3,
            ESpawnActorCollisionHandlingMethod::DontSpawnIfColliding => 4,
        }
    }
}

/// How the name asked for a new actor is treated.
#[derive(Debug, Copy, Clone, PartialEq, Eq, Structural)]
pub enum ESpawnActorNameMode {
    RequiredFatal,
    RequiredErrorAndReturnNull,
    RequiredReturnNull,
    Requested,
}

impl ESpawnActorNameMode {
    /// The value the engine gives this mode.
    pub fn as_u8(&self) -> (r: u8)
        ensures
            r == (match *self {
                ESpawnActorNameMode::RequiredFatal => 0u8,
                ESpawnActorNameMode::RequiredErrorAndReturnNull => 1u8,
                ESpawnActorNameMode::RequiredReturnNull => 2u8,
                ESpawnActorNameMode::Requested => 3u8,
            }),
    {
        match self {
            ESpawnActorNameMode::RequiredFatal => 0,
            ESpawnActorNameMode::RequiredErrorAndReturnNull => 1,
            ESpawnActorNameMode::RequiredReturnNull => 2,
            ESpawnActorNameMode::Requested => 3,
        }
    }
}

/// Whether bit `k` of `bits` is set.
pub open spec fn flag_bit(bits: u8, k: u8) -> bool {
    bits & (1u8 << k) != 0
}

/// The parameters of an actor spawn: a name, the addresses of the template,
/// owner, instigator and level (0 for none), the collision handling, the flag
/// bits (bit 0 remote owned, bit 1 no fail, bit 2 deferred construction, bit 3
/// allowed during construction scripts), the name mode and the object flags.
pub struct FActorSpawnParameters {
    pub name: u64,
    pub template: usize,
    pub owner: usize,
    pub instigator: usize,
    pub override_level: usize,
    pub spawn_collision_handling_override: ESpawnActorCollisionHandlingMethod,
    pub bitfield: u8,
    pub name_mode: ESpawnActorNameMode,
    pub padding: u8,
    pub object_flags: u32,
}

impl Default for FActorSpawnParameters {
    /// The engine's defaults: no name, template, owner, instigator or level;
    /// always spawn; no flag bits; the name only requested; no object flags.
    fn default() -> (r: Self)
        ensures
            r.name == 0,
            r.template == 0,
            r.owner == 0,
            r.instigator == 0,
            r.override_level == 0,
            r.spawn_collision_handling_override == ESpawnActorCollisionHandlingMethod::AlwaysSpawn,
            r.bitfield == 0,
            r.name_mode == ESpawnActorNameMode::Requested,
            r.padding == 0,
            r.object_flags == 0,
    {
        FActorSpawnParameters {
            name: 0,
            template: 0,
            owner: 0,
            instigator: 0,
            override_level: 0,
            spawn_collision_handling_override: ESpawnActorCollisionHandlingMethod::AlwaysSpawn,
            bitfield: 0,
            name_mode: ESpawnActorNameMode::Requested,
            padding: 0,
            object_flags: 0,
        }
    }
}

impl FActorSpawnParameters {
    /// The engine's defaults (see `default`).
    pub fn new() -> (r: Self)
        ensures
            r.name == 0,
            r.template == 0,
            r.owner == 0,
            r.instigator == 0,
            r.override_level == 0,
            r.spawn_collision_handling_override == ESpawnActorCollisionHandlingMethod::AlwaysSpawn,
            r.bitfield == 0,
            r.name_mode == ESpawnActorNameMode::Requested,
            r.padding == 0,
            r.object_flags == 0,
    {
        Self::default()
    }

    /// The same parameters with the collision handling `mode`.
    pub fn with_spawn_mode(self, mode: ESpawnActorCollisionHandlingMethod) -> (r: Self)
        ensures
            r == (FActorSpawnParameters { spawn_collision_handling_override: mode, ..self }),
    {
        let mut s = self;
        s.spawn_collision_handling_override = mode;
        s
    }

    /// The same parameters with the owner at address `owner`.
    pub fn with_owner(self, owner: usize) -> (r: Self)
        ensures
            r == (FActorSpawnParameters { owner, ..self }),
    {
        let mut s = self;
        s.owner = owner;
        s
    }

    /// The same parameters with the no-fail bit (bit 1) set to `enabled`; the
    /// other bits are kept.
    pub fn no_fail(self, enabled: bool) -> (r: Self)
        ensures
            r == (FActorSpawnParameters { bitfield: r.bitfield, ..self }),
            flag_bit(r.bitfield, 1) == enabled,
            forall|k: u8| k < 8 && k != 1 ==> flag_bit(r.bitfield, k) == flag_bit(self.bitfield, k),
    {
        let mut s = self;
        let old_bits = s.bitfield;
        let bits = if enabled {
            old_bits | 0x02
        } else {
            old_bits & !0x02u8
        };
        proof {
            assert(flag_bit(bits, 1) == enabled) by (bit_vector)
                requires
                    bits == (if enabled { old_bits | 0x02 } else { old_bits & !0x02u8 }),
            ;
            assert forall|k: u8| k < 8 && k != 1 implies flag_bit(bits, k) == flag_bit(old_bits, k) by {
                assert(bits & (1u8 << k) != 0 <==> old_bits & (1u8 << k) != 0) by (bit_vector)
                    requires
                        k < 8,
                        k != 1,
                        bits == (if enabled { old_bits | 0x02 } else { old_bits & !0x02u8 }),
                ;
            }
        }
        s.bitfield = bits;
        s
    }

    /// Whether the actor is spawned as owned by a remote client (bit 0).
    pub fn remote_owned(&self) -> (r: bool)
        ensures
            r == flag_bit(self.bitfield, 0),
    {
        (self.bitfield & (1u8 << 0u8)) != 0
    }

    /// Whether construction is deferred (bit 2).
    pub fn defer_construction(&self) -> (r: bool)
        ensures
            r == flag_bit(self.bitfield, 2),
    {
        (self.bitfield & (1u8 << 2u8)) != 0
    }

    /// Whether spawning is allowed during construction scripts (bit 3).
    pub fn allow_during_construction(&self) -> (r: bool)
        ensures
            r == flag_bit(self.bitfield, 3),
    {
        (self.bitfield & (1u8 << 3u8)) != 0
    }
}

/// The answer of the game's ownership checks.
#[derive(Debug, Copy, Clone, PartialEq, Eq, Structural)]
pub struct FOwnershipResponse {
    pub owned: bool,
    pub crowns: i32,
    pub gold: i32,
    pub usd_cents: i32,
    pub level_type: u8,
    pub level: i32,
}

impl FOwnershipResponse {
    /// Grants the item: owned, with no level requirement; prices are kept.
    pub fn grant_ownership(&mut self)
        ensures
            *final(self) == (FOwnershipResponse { owned: true, level: 0, ..*old(self) }),
    {
        self.level = 0;
        self.owned = true;
    }
}

/// The customization state of a player controller.
#[derive(Debug, Copy, Clone, PartialEq, Eq, Structural)]
pub struct ATBLPlayerController {
    pub b_online_inventory_initialized: bool,
    pub b_player_customization_received: bool,
}

impl ATBLPlayerController {
    /// Marks the online inventory and the player's customization as there, so
    /// that the server initializes the customization.
    pub fn mark_customization_ready(&mut self)
        ensures
            final(self).b_online_inventory_initialized,
            final(self).b_player_customization_received,
    {
        self.b_online_inventory_initialized = true;
        self.b_player_customization_received = true;
    }
}

/// An online request of the game, with its authentication token.
pub struct GenericRequest {
    pub token: FString,
}

/// An online API object of the game, with the base of its URLs.
pub struct GenericGCGObj {
    pub url_base: FString,
}

/// Points a request at another backend: puts `url_base` and `token` in place
/// and gives back what was there, which the same call puts back afterwards.
pub fn swap_request_target(
    api: &mut GenericGCGObj,
    request: &mut GenericRequest,
    url_base: FString,
    token: FString,
) -> (r: (FString, FString))
    ensures
        final(api).url_base@ == url_base@,
        final(request).token@ == token@,
        r.0@ == old(api).url_base@,
        r.1@ == old(request).token@,
{
    let mut url = url_base;
    let mut tok = token;
    std::mem::swap(&mut url, &mut api.url_base);
    std::mem::swap(&mut tok, &mut request.token);
    (url, tok)
}

/// The address of the engine object, found by scanning the game.
pub struct GEngine(pub usize);

/// An address found by a pattern scan.
pub struct DefaultResult(pub usize);

impl DefaultResult {
    /// The address found.
    pub fn offset(&self) -> (r: usize)
        ensures
            r == self.0,
    {
        self.0
    }
}

/// The address of a symbol: the module's base plus the symbol's relative
/// address.
pub fn rva_to_va(rva: u32, module_base: usize) -> (r: usize)
    requires
        module_base + rva <= usize::MAX,
    ensures
        r == module_base + rva,
{
    module_base + rva as usize
}

/// The URL that tells whether the player at `address` is banned, on the
/// server browser backend `backend`.
pub fn ban_check_url(backend: &str, address: &str) -> (r: String)
    ensures
        r@ == backend@ + "/api/v1/check-banned/"@ + address@,
{
    let mut out = chars_of(backend);
    let mut mid = chars_of("/api/v1/check-banned/");
    out.append(&mut mid);
    let mut a = chars_of(address);
    out.append(&mut a);
    string_from_chars(out.as_slice())
}

/// What the ban check answered: `true` when the backend's reply holds the
/// word `true`; `false` when it holds no such word or there was no reply.
pub fn ban_check_answer(body: Option<&str>) -> (r: bool)
    ensures
        r == (match body {
            Some(b) => contains_seq(b@, "true"@),
            None => false,
        }),
{
    match body {
        Some(b) => {
            let bc = chars_of(b);
            let t = chars_of("true");
            contains_text(bc.as_slice(), t.as_slice())
        },
        None => false,
    }
}

/// The text a refused login is given.
pub open spec fn refusal_text() -> Seq<char> {
    "You are banned from this server."@
}

/// The reason added to a login after the game's own checks, when the backend
/// ban list is in use: none when the login already failed for another reason;
/// otherwise the login is refused when the ban check did not answer `true`.
pub fn login_refusal(use_backend_banlist: bool, earlier_error: bool, check_answer: bool) -> (r: Option<
    &'static str,
>)
    ensures
        match r {
            Some(t) => use_backend_banlist && !earlier_error && !check_answer && t@ == refusal_text(),
            None => !use_backend_banlist || earlier_error || check_answer,
        },
{
    if !use_backend_banlist || earlier_error || check_answer {
        None
    } else {
        Some("You are banned from this server.")
    }
}

/// The base class of the mods built with the mod SDK (its layout is not read).
#[allow(non_camel_case_types)]
pub struct AArgonSDKModBase_C {}

} // verus!
