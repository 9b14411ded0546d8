use mod_resolver::path_meta::parse_mod_path;

#[test]
fn parses_five_segment_path() {
    let parsed = parse_mod_path("switch-pchtxt-mods/Zelda BOTW/[0100F2C0115B6000]/1.0.0/romfs/patch.pchtxt");
    assert_eq!(parsed.title_name, "Zelda BOTW");
    assert_eq!(parsed.title_id, "0100F2C0115B6000");
    assert_eq!(parsed.title_version, "1.0.0");
    assert_eq!(parsed.relative_path, "romfs/patch.pchtxt");
}

#[test]
fn fifth_part_keeps_embedded_slashes() {
    let parsed = parse_mod_path("root/Name/[AAAA]/x.x.x/exefs/deep/nested/file.ips");
    assert_eq!(parsed.relative_path, "exefs/deep/nested/file.ips");
}

#[test]
fn relative_path_is_original_minus_first_four_segments() {
    let original = "repo/Some Game/[0123456789ABCDEF]/2.0.0/cheats/codes.txt";
    let parsed = parse_mod_path(original);
    let prefix = "repo/Some Game/[0123456789ABCDEF]/2.0.0/";
    assert_eq!(&original[prefix.len()..], parsed.relative_path);
}

#[test]
fn reconstructing_the_path_yields_the_original() {
    let original = "repo/Some Game/[0123456789ABCDEF]/2.0.0/cheats/codes.txt";
    let parsed = parse_mod_path(original);
    let rebuilt = format!(
        "repo/{}/[{}]/{}/{}",
        parsed.title_name, parsed.title_id, parsed.title_version, parsed.relative_path
    );
    assert_eq!(rebuilt, original);
}

#[test]
fn brackets_are_stripped_from_title_id_only() {
    let parsed = parse_mod_path("r/[Game] Name/[[ID]]/1.0/romfs/[f].txt");
    assert_eq!(parsed.title_name, "[Game] Name");
    assert_eq!(parsed.title_id, "ID");
    assert_eq!(parsed.relative_path, "romfs/[f].txt");
}

#[test]
fn exactly_five_segments_parse() {
    let parsed = parse_mod_path("a/b/c/d/e");
    assert_eq!(parsed.title_name, "b");
    assert_eq!(parsed.title_id, "c");
    assert_eq!(parsed.title_version, "d");
    assert_eq!(parsed.relative_path, "e");
}
