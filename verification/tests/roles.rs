use easytier_service::efile::EFile;

#[test]
fn zero_decodes_to_the_wildcard() {
    assert_eq!(EFile::from_u64(0, false), vec![EFile::All]);
    assert_eq!(EFile::from_u64(0, true), vec![EFile::All]);
}

#[test]
fn wildcard_absorbs_every_other_role() {
    assert_eq!(EFile::to_u64(vec![EFile::All]), 0);
    assert_eq!(EFile::to_u64(vec![EFile::Core, EFile::All, EFile::Cli]), 0);
    assert_eq!(EFile::to_u64(vec![EFile::Other, EFile::Wintun, EFile::All]), 0);
}

#[test]
fn each_role_has_the_bit_of_its_ordinal() {
    assert_eq!(EFile::to_u64(vec![EFile::Core]), 0x2);
    assert_eq!(EFile::to_u64(vec![EFile::Cli]), 0x4);
    assert_eq!(EFile::to_u64(vec![EFile::Packet]), 0x8);
    assert_eq!(EFile::to_u64(vec![EFile::Wintun]), 0x10);
    assert_eq!(EFile::to_u64(vec![EFile::Other]), 0x1_0000_0000);
    assert_eq!(EFile::to_u64(vec![]), 0);
}

#[test]
fn repeated_roles_count_once() {
    assert_eq!(EFile::to_u64(vec![EFile::Core, EFile::Cli, EFile::Core, EFile::Cli]), 0x6);
    assert_eq!(
        EFile::to_u64(vec![EFile::Other, EFile::Core, EFile::Other]),
        0x1_0000_0002
    );
}

#[test]
fn ordinals_are_the_bit_positions() {
    assert_eq!(EFile::All.ordinal(), 0);
    assert_eq!(EFile::Core.ordinal(), 1);
    assert_eq!(EFile::Cli.ordinal(), 2);
    assert_eq!(EFile::Packet.ordinal(), 3);
    assert_eq!(EFile::Wintun.ordinal(), 4);
    assert_eq!(EFile::Other.ordinal(), 32);
}

#[test]
fn decoding_lists_roles_lowest_bit_first() {
    assert_eq!(EFile::from_u64(0x6, false), vec![EFile::Core, EFile::Cli]);
    assert_eq!(
        EFile::from_u64(0x1_0000_0006, false),
        vec![EFile::Core, EFile::Cli, EFile::Other]
    );
    assert_eq!(
        EFile::from_u64(0x1e, true),
        vec![EFile::Core, EFile::Cli, EFile::Packet, EFile::Wintun]
    );
}

#[test]
fn library_bits_are_unknown_off_windows() {
    assert_eq!(EFile::from_u64(0x18, false), vec![EFile::Other, EFile::Other]);
    assert_eq!(EFile::from_u8(3, false), EFile::Other);
    assert_eq!(EFile::from_u8(4, false), EFile::Other);
    assert_eq!(EFile::from_u8(3, true), EFile::Packet);
    assert_eq!(EFile::from_u8(4, true), EFile::Wintun);
}

#[test]
fn bit_zero_decodes_to_the_wildcard() {
    assert_eq!(EFile::from_u64(1, false), vec![EFile::All]);
    assert_eq!(EFile::from_u8(0, false), EFile::All);
}

#[test]
fn unknown_bits_decode_to_other() {
    assert_eq!(EFile::from_u64(1 << 5, true), vec![EFile::Other]);
    assert_eq!(EFile::from_u64(1 << 63, true), vec![EFile::Other]);
    assert_eq!(EFile::from_u8(32, true), EFile::Other);
    assert_eq!(EFile::from_u8(200, true), EFile::Other);
    assert_eq!(EFile::from_u64(u64::MAX, true).len(), 64);
}

#[test]
fn packing_then_unpacking_gives_the_same_roles() {
    let lists = vec![
        vec![EFile::Core],
        vec![EFile::Cli, EFile::Core],
        vec![EFile::Other, EFile::Cli],
        vec![EFile::Other, EFile::Core, EFile::Cli, EFile::Core],
    ];
    for list in lists {
        let mut decoded = EFile::from_u64(EFile::to_u64(list.clone()), false);
        let mut expected = list.clone();
        decoded.sort();
        decoded.dedup();
        expected.sort();
        expected.dedup();
        assert_eq!(decoded, expected);
    }
    let mut decoded = EFile::from_u64(
        EFile::to_u64(vec![EFile::Wintun, EFile::Packet, EFile::Core]),
        true,
    );
    decoded.sort();
    assert_eq!(decoded, vec![EFile::Core, EFile::Packet, EFile::Wintun]);
}

#[test]
fn contains_finds_a_role() {
    let list = vec![EFile::Core, EFile::Other];
    assert!(EFile::contains(&list, EFile::Core));
    assert!(EFile::contains(&list, EFile::Other));
    assert!(!EFile::contains(&list, EFile::Cli));
    assert!(!EFile::contains(&vec![], EFile::All));
}

#[test]
fn the_default_role_is_the_wildcard() {
    assert_eq!(EFile::default(), EFile::All);
}

#[test]
fn roles_are_ordered_by_ordinal() {
    assert!(EFile::All < EFile::Core);
    assert!(EFile::Core < EFile::Cli);
    assert!(EFile::Cli < EFile::Packet);
    assert!(EFile::Packet < EFile::Wintun);
    assert!(EFile::Wintun < EFile::Other);
}

#[test]
fn file_names_map_to_roles_whatever_their_case_and_extension() {
    assert_eq!(EFile::from_str("EasyTier-Core.EXE", false), EFile::Core);
    assert_eq!(EFile::from_str("easytier-core", false), EFile::Core);
    assert_eq!(EFile::from_str("easytier-core.exe", false), EFile::Core);
    assert_eq!(EFile::from_str("EASYTIER-CLI", true), EFile::Cli);
    assert_eq!(EFile::from_str("easytier-cli.exe", true), EFile::Cli);
    assert_eq!(EFile::from_str("easytier-cli.dll", false), EFile::Cli);
}

#[test]
fn library_names_have_roles_on_windows_only() {
    assert_eq!(EFile::from_str("Packet.dll", true), EFile::Packet);
    assert_eq!(EFile::from_str("wintun.dll", true), EFile::Wintun);
    assert_eq!(EFile::from_str("WINTUN", true), EFile::Wintun);
    assert_eq!(EFile::from_str("Packet.dll", false), EFile::Other);
    assert_eq!(EFile::from_str("wintun.dll", false), EFile::Other);
}

#[test]
fn names_with_other_characters_are_rejected() {
    assert_eq!(EFile::from_str("../evil", false), EFile::Other);
    assert_eq!(EFile::from_str("core;rm", false), EFile::Other);
    assert_eq!(EFile::from_str("easytier-core ", false), EFile::Other);
    assert_eq!(EFile::from_str("easytier_core", false), EFile::Other);
    assert_eq!(EFile::from_str("easytier-core.txt", false), EFile::Other);
    assert_eq!(EFile::from_str("", true), EFile::Other);
    assert_eq!(EFile::from_str(".exe", true), EFile::Other);
    assert_eq!(EFile::from_str(".exe.dll", true), EFile::Other);
}

#[test]
fn unknown_names_have_the_role_other() {
    assert_eq!(EFile::from_str("readme", false), EFile::Other);
    assert_eq!(EFile::from_str("easytier-web", true), EFile::Other);
    assert_eq!(EFile::from_str("easytier-core2", true), EFile::Other);
}

#[test]
fn extensions_are_taken_out_wherever_they_stand() {
    assert_eq!(EFile::from_str("easytier.exe-core", false), EFile::Core);
    assert_eq!(EFile::from_str("easytier-core.exe.exe", false), EFile::Core);
    assert_eq!(EFile::from_str("easytier-.dllcli.exe", false), EFile::Cli);
    // A text that only forms once the first extension is gone is taken out
    // by the second pass, not by the first.
    assert_eq!(EFile::from_str("easytier-core.d.exell", false), EFile::Core);
    assert_eq!(EFile::from_str("easytier-core.e.dllxe", false), EFile::Other);
}

#[test]
fn lower_casing_follows_unicode() {
    // U+212A KELVIN SIGN has the lower-case form `k`.
    assert_eq!(EFile::from_str("pac\u{212A}et", true), EFile::Packet);
    assert_eq!(EFile::from_str("pac\u{212A}et", false), EFile::Other);
}

#[test]
fn letters_of_any_script_are_allowed_but_unknown() {
    let base: Vec<char> = "\u{4e2d}\u{6587}".chars().collect();
    assert!(EFile::is_acceptable_base(&base));
    assert_eq!(EFile::from_str("\u{4e2d}\u{6587}", true), EFile::Other);
}

#[test]
fn base_names_are_acceptable_when_made_of_letters_digits_and_hyphens() {
    let ok: Vec<char> = "easytier-core7".chars().collect();
    assert!(EFile::is_acceptable_base(&ok));
    let empty: Vec<char> = Vec::new();
    assert!(!EFile::is_acceptable_base(&empty));
    let dotted: Vec<char> = "a.b".chars().collect();
    assert!(!EFile::is_acceptable_base(&dotted));
    let spaced: Vec<char> = "a b".chars().collect();
    assert!(!EFile::is_acceptable_base(&spaced));
}

#[test]
fn base_names_stand_for_their_roles() {
    let core: Vec<char> = "easytier-core".chars().collect();
    let cli: Vec<char> = "easytier-cli".chars().collect();
    let packet: Vec<char> = "packet".chars().collect();
    let wintun: Vec<char> = "wintun".chars().collect();
    let upper: Vec<char> = "EASYTIER-CORE".chars().collect();
    assert_eq!(EFile::from_base_name(&core, false), EFile::Core);
    assert_eq!(EFile::from_base_name(&cli, false), EFile::Cli);
    assert_eq!(EFile::from_base_name(&packet, true), EFile::Packet);
    assert_eq!(EFile::from_base_name(&wintun, true), EFile::Wintun);
    assert_eq!(EFile::from_base_name(&packet, false), EFile::Other);
    assert_eq!(EFile::from_base_name(&wintun, false), EFile::Other);
    assert_eq!(EFile::from_base_name(&upper, false), EFile::Other);
}
