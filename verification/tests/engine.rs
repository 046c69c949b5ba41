use sleuth::engine::{
    ban_check_answer, ban_check_url, login_refusal,
    frontend_map_url, overrides_dedicated_check, reported_net_mode, rva_to_va, swap_request_target,
    ATBLPlayerController, DefaultResult, ENetMode, ESpawnActorCollisionHandlingMethod,
    ESpawnActorNameMode, FActorSpawnParameters, FOwnershipResponse, FSoftObjectPath,
    FSoftObjectPtr, FText, GenericGCGObj, GenericRequest,
};
use sleuth::ue::{EFindName, FName, FNameEntryId, FString, TArray};

fn name(v: u32) -> FName {
    FName { comparison_index: FNameEntryId { value: v }, number: 0 }
}

fn fstring(s: &str) -> FString {
    let units: Vec<u16> = s.encode_utf16().collect();
    TArray::from_slice(&units)
}

#[test]
fn net_mode_patch_and_dedicated_override() {
    assert_eq!(reported_net_mode(true, ENetMode::LISTEN_SERVER), ENetMode::DEDICATED_SERVER);
    assert_eq!(reported_net_mode(false, ENetMode::LISTEN_SERVER), ENetMode::LISTEN_SERVER);
    assert_eq!(reported_net_mode(true, ENetMode::CLIENT), ENetMode::CLIENT);
    assert!(overrides_dedicated_check(true, Some(ENetMode::LISTEN_SERVER)));
    assert!(overrides_dedicated_check(true, Some(ENetMode::DEDICATED_SERVER)));
    assert!(!overrides_dedicated_check(true, Some(ENetMode::STANDALONE)));
    assert!(!overrides_dedicated_check(true, None));
    assert!(!overrides_dedicated_check(false, Some(ENetMode::LISTEN_SERVER)));
    assert_eq!(ENetMode::DEDICATED_SERVER.as_u8(), 1);
}

#[test]
fn frontend_url_options() {
    assert_eq!(frontend_map_url(Some("pw"), true, true), "Frontend?Password=pw?rcon?startup");
    assert_eq!(frontend_map_url(None, false, false), "Frontend");
    assert_eq!(frontend_map_url(None, true, false), "Frontend?rcon");
}

#[test]
fn fname_lookup_falls_back_to_add() {
    let found = FName::with_type("/Game/X", EFindName::Find, |_w: &[u16], m: EFindName| match m {
        EFindName::Find => name(0),
        _ => name(77),
    });
    assert_eq!(found, name(77));
    let direct = FName::with_type("/Game/X", EFindName::Find, |_w: &[u16], _m: EFindName| name(5));
    assert_eq!(direct, name(5));
    assert_eq!(EFindName::Add.as_u8(), 1);
    assert_eq!(FName::default(), name(0));
}

#[test]
fn fname_constructor_gets_nul_terminated_wide_path() {
    let expected: Vec<u16> = "/Game/\u{e9}\u{1F600}".encode_utf16().chain([0u16]).collect();
    let n = FName::with_type("/Game/\u{e9}\u{1F600}", EFindName::Add, |w: &[u16], m: EFindName| {
        assert_eq!(w, expected.as_slice());
        assert_eq!(m, EFindName::Add);
        name(4)
    });
    assert_eq!(n, name(4));
    // A path that already ends in a NUL keeps it as the terminator.
    let n2 = FName::with_type("/Game/Y\u{0}", EFindName::Find, |w: &[u16], _m: EFindName| {
        assert_eq!(w, &[47u16, 71, 97, 109, 101, 47, 89, 0][..]);
        name(6)
    });
    assert_eq!(n2, name(6));
}

#[test]
fn soft_pointers_start_cold() {
    let ptr = FSoftObjectPtr::from_path("/Game/Mods/A.A_C", |_w: &[u16], _m: EFindName| name(9));
    assert_eq!(ptr.weak_ptr, [0u8; 8]);
    assert_eq!(ptr.tag_at_last_test, -1);
    assert_eq!(ptr.padding, 0);
    assert_eq!(ptr.path.asset_path_name, name(9));
    assert!(ptr.path.sub_path_string.is_empty());
    let path = FSoftObjectPath::new("/Game/B", |_w: &[u16], _m: EFindName| name(3));
    assert_eq!(path.asset_path_name, name(3));
    let t = FText::default();
    assert_eq!(t.flags, 0);
    assert_eq!(t.text_data, [0u8; 16]);
}

#[test]
fn spawn_parameters_builder() {
    let p = FActorSpawnParameters::new()
        .with_spawn_mode(ESpawnActorCollisionHandlingMethod::AdjustIfPossibleButAlwaysSpawn)
        .with_owner(0x1000)
        .no_fail(true);
    assert_eq!(p.spawn_collision_handling_override, ESpawnActorCollisionHandlingMethod::AdjustIfPossibleButAlwaysSpawn);
    assert_eq!(p.owner, 0x1000);
    assert_eq!(p.bitfield, 0x02);
    assert_eq!(p.name_mode, ESpawnActorNameMode::Requested);
    assert!(!p.remote_owned());
    let mut q = FActorSpawnParameters::new();
    q.bitfield = 0x0F;
    let q = q.no_fail(false);
    assert_eq!(q.bitfield, 0x0D);
    assert!(q.remote_owned() && q.defer_construction() && q.allow_during_construction());
    assert_eq!(ESpawnActorNameMode::Requested.as_u8(), 3);
    assert_eq!(ESpawnActorCollisionHandlingMethod::DontSpawnIfColliding.as_u8(), 4);
}

#[test]
fn ownership_and_customization_overrides() {
    let mut r = FOwnershipResponse { owned: false, crowns: 500, gold: 20, usd_cents: 199, level_type: 2, level: 40 };
    r.grant_ownership();
    assert_eq!(r, FOwnershipResponse { owned: true, crowns: 500, gold: 20, usd_cents: 199, level_type: 2, level: 0 });
    let mut pc = ATBLPlayerController { b_online_inventory_initialized: false, b_player_customization_received: false };
    pc.mark_customization_ready();
    assert!(pc.b_online_inventory_initialized && pc.b_player_customization_received);
}

#[test]
fn request_target_swaps_back() {
    let mut api = GenericGCGObj { url_base: fstring("https://official") };
    let mut req = GenericRequest { token: fstring("tok") };
    let (old_url, old_token) = swap_request_target(&mut api, &mut req, fstring("https://backend/api/tbio"), fstring(""));
    assert_eq!(api.url_base.as_slice(), fstring("https://backend/api/tbio").as_slice());
    assert!(req.token.is_empty());
    let _ = swap_request_target(&mut api, &mut req, old_url, old_token);
    assert_eq!(api.url_base.as_slice(), fstring("https://official").as_slice());
    assert_eq!(req.token.as_slice(), fstring("tok").as_slice());
}

#[test]
fn addresses() {
    assert_eq!(rva_to_va(0x10, 0x1000), 0x1010);
    assert_eq!(DefaultResult(0x1234).offset(), 0x1234);
}

#[test]
fn ban_check_and_login_refusal() {
    assert_eq!(ban_check_url("https://b", "1.2.3.4"), "https://b/api/v1/check-banned/1.2.3.4");
    assert!(ban_check_answer(Some("{\"banned\": true}")));
    assert!(!ban_check_answer(Some("{\"banned\": false}")));
    assert!(!ban_check_answer(None));
    assert_eq!(login_refusal(false, false, false), None);
    assert_eq!(login_refusal(true, true, false), None);
    assert_eq!(login_refusal(true, false, true), None);
    assert_eq!(login_refusal(true, false, false), Some("You are banned from this server."));
}
