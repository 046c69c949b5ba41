use sleuth::build_info::{
    missing_signatures, scan_offset, scan_platform,
    build_info_get_file_hash, build_info_get_offset, format_hex, get_build_path_template,
    platform_from_args, BuildInfo, PlatformType,
};

fn offsets(v: &[(&str, u64)]) -> Vec<(String, u64)> {
    v.iter().map(|(n, o)| (n.to_string(), *o)).collect()
}

#[test]
fn platform_names_round_trip() {
    for p in [PlatformType::EGS, PlatformType::STEAM, PlatformType::XBOX, PlatformType::OTHER] {
        assert_eq!(PlatformType::from_str(p.as_str()), Ok(p));
    }
    assert_eq!(PlatformType::from_str("steam"), Ok(PlatformType::STEAM));
    assert_eq!(PlatformType::from_str("Egs"), Ok(PlatformType::EGS));
    assert_eq!(PlatformType::from_str("gog"), Err(()));
}

#[test]
fn hex_and_build_path() {
    assert_eq!(format_hex(0xBEEF, 8).iter().collect::<String>(), "0000beef");
    assert_eq!(
        get_build_path_template(0x1a2b3c4d, PlatformType::STEAM),
        "%LOCALAPPDATA%\\Chivalry 2\\Saved\\Config\\STEAM-1a2b3c4d.build.json"
    );
}

#[test]
fn offsets_read_after_write() {
    let mut bi = BuildInfo::from_scan(7, PlatformType::EGS, "C:/game.exe".to_string(), offsets(&[("A", 1), ("B", 2), ("A", 3)]));
    assert_eq!(bi.get_file_hash(), 7);
    assert_eq!(bi.get_platform(), PlatformType::EGS);
    assert_eq!(bi.get_offset("A"), Some(3));
    assert_eq!(bi.get_offset("C"), None);
    assert_eq!(bi.get_offsets().len(), 2);
    bi.add_offset("C".to_string(), 9);
    bi.add_offset("B".to_string(), 20);
    assert_eq!(bi.get_offset("C"), Some(9));
    assert_eq!(bi.get_offset("B"), Some(20));
    bi.add_offsets(offsets(&[("D", 4), ("A", 30), ("D", 40)]));
    assert_eq!(bi.get_offset("A"), Some(30));
    assert_eq!(bi.get_offset("D"), Some(40));
    assert_eq!(bi.get_offset("C"), Some(9));
}

#[test]
fn platform_from_launch_arguments() {
    let egs = vec!["Chivalry2.exe".to_string(), "-epicapp=Peppermint".to_string()];
    assert_eq!(platform_from_args(&egs), PlatformType::EGS);
    let steam = vec!["Chivalry2.exe".to_string(), "-epicapp=Other".to_string()];
    assert_eq!(platform_from_args(&steam), PlatformType::STEAM);
}

#[test]
fn saved_form_round_trips_and_offset_default() {
    let bi = BuildInfo::from_parts(261891, 0xabc, "Chivalry 2".to_string(), PlatformType::STEAM, "p".to_string(), offsets(&[("X", 5)]));
    assert_eq!(bi.get_build(), 261891);
    assert_eq!(bi.get_name(), "Chivalry 2");
    assert_eq!(bi.get_path(), "p");
    assert_eq!(build_info_get_file_hash(&bi), 0xabc);
    assert_eq!(build_info_get_offset(&bi, "X"), 5);
    assert_eq!(build_info_get_offset(&bi, "Y"), 0);
}

#[test]
fn scan_runs_only_for_missing_signatures() {
    let names = ["A", "B", "C"];
    assert_eq!(missing_signatures(&names, None), vec!["A", "B", "C"]);
    let bi = BuildInfo::from_scan(1, PlatformType::STEAM, "x".to_string(), vec![("B".to_string(), 7)]);
    assert_eq!(bi.get_build(), 0);
    assert_eq!(bi.get_name(), "");
    assert_eq!(missing_signatures(&names, Some(&bi)), vec!["A", "C"]);
}

#[test]
fn scan_offsets_are_masked_distances() {
    assert_eq!(scan_offset(0x1_4000_1234, 0x1_4000_0000), 0x1234);
    assert_eq!(scan_offset(0x7FF6_1234_5678, 0x7FF6_0000_0000), 0x2345678);
}

#[test]
fn scan_platform_must_match_running_one() {
    assert_eq!(scan_platform(None, PlatformType::EGS), Ok(PlatformType::EGS));
    assert_eq!(scan_platform(Some(PlatformType::EGS), PlatformType::EGS), Ok(PlatformType::EGS));
    assert_eq!(
        scan_platform(Some(PlatformType::STEAM), PlatformType::EGS),
        Err("Cannot scan for signatures on platform EGS while running on STEAM".to_string())
    );
}
