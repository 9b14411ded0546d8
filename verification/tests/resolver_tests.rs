use mod_resolver::game::Game;
use mod_resolver::resolver::{
    build_download_url, filter_games_with_entries, resolve_games, resolve_title, InstalledTitle,
};
use mod_resolver::tree::TreeEntry;

fn blob(path: &str) -> TreeEntry {
    TreeEntry {
        path: path.to_string(),
        mode: "100644".to_string(),
        type_field: "blob".to_string(),
        sha: "0000".to_string(),
        url: String::new(),
        size: Some(1),
    }
}

fn dir(path: &str) -> TreeEntry {
    TreeEntry {
        path: path.to_string(),
        mode: "040000".to_string(),
        type_field: "tree".to_string(),
        sha: "0000".to_string(),
        url: String::new(),
        size: None,
    }
}

fn title(id: &str, version: Option<&str>) -> InstalledTitle {
    InstalledTitle {
        title_id: id.to_string(),
        title_version: version.map(|v| v.to_string()),
    }
}

#[test]
fn builds_raw_content_url() {
    let url = build_download_url("owner/repo", "a/b/[C]/1.0/romfs/f.txt");
    assert_eq!(
        url,
        "https://raw.githubusercontent.com/owner/repo/refs/heads/master/a/b/[C]/1.0/romfs/f.txt"
    );
}

#[test]
fn locally_installed_title_absent_remotely_never_appears() {
    let tree = vec![blob("r/Game A/[AAAA]/1.0.0/romfs/f.txt")];
    let installed = vec![title("AAAA", None), title("BBBB", None)];
    let games = resolve_games("o/r", "/load", &installed, &tree);
    assert_eq!(games.len(), 1);
    assert_eq!(games[0].title_id, "AAAA");
    assert!(games.iter().all(|g| g.title_id != "BBBB"));
}

#[test]
fn version_mismatch_keeps_title_with_empty_entries() {
    let tree = vec![blob("r/Game A/[AAAA]/9.9.9/romfs/f.txt")];
    let installed = vec![title("AAAA", Some("1.2.3"))];
    let games = resolve_games("o/r", "/load", &installed, &tree);
    assert_eq!(games.len(), 1);
    assert_eq!(games[0].title_name, "Game A");
    assert!(games[0].mod_download_entries.is_empty());
    let kept: Vec<Game> = filter_games_with_entries(games);
    assert!(kept.is_empty());
}

#[test]
fn matching_version_yields_download_entry() {
    let tree = vec![
        blob("r/Game A/[AAAA]/1.2.3/romfs/f.txt"),
        blob("r/Game A/[AAAA]/9.9.9/romfs/g.txt"),
    ];
    let installed = vec![title("AAAA", Some("1.2.3"))];
    let games = resolve_games("o/r", "/load", &installed, &tree);
    assert_eq!(games.len(), 1);
    let g = &games[0];
    assert_eq!(g.title_id, "AAAA");
    assert_eq!(g.title_name, "Game A");
    assert_eq!(g.title_version.as_deref(), Some("1.2.3"));
    assert_eq!(g.mod_data_location, "/load/AAAA");
    assert_eq!(g.mod_download_entries.len(), 1);
    assert_eq!(
        g.mod_download_entries[0].download_url,
        "https://raw.githubusercontent.com/o/r/refs/heads/master/r/Game A/[AAAA]/1.2.3/romfs/f.txt"
    );
    assert_eq!(g.mod_download_entries[0].mod_relative_path, "romfs/f.txt");
}

#[test]
fn wildcard_version_always_matches() {
    let tree = vec![blob("r/Game A/[AAAA]/x.x.x/exefs/p.ips")];
    let installed = vec![title("AAAA", Some("7.7.7"))];
    let games = resolve_games("o/r", "/load", &installed, &tree);
    assert_eq!(games[0].mod_download_entries.len(), 1);
}

#[test]
fn non_blob_and_non_mod_entries_are_ignored() {
    let tree = vec![
        dir("r/Game A/[AAAA]/1.0.0/romfs"),
        blob("r/Game A/[AAAA]/1.0.0/readme.txt"),
        blob("README.md"),
    ];
    let installed = vec![title("AAAA", None)];
    let games = resolve_games("o/r", "/load", &installed, &tree);
    assert!(games.is_empty());
}

#[test]
fn cheats_subdirectory_is_recognized() {
    let tree = vec![blob("r/Game A/[AAAA]/1.0.0/cheats/c.txt")];
    let installed = vec![title("AAAA", None)];
    let games = resolve_games("o/r", "/load", &installed, &tree);
    assert_eq!(games.len(), 1);
    assert_eq!(games[0].mod_download_entries.len(), 1);
}

#[test]
fn first_nonempty_title_name_wins() {
    let tree = vec![
        blob("r//[AAAA]/1.0.0/romfs/a.txt"),
        blob("r/First Name/[AAAA]/1.0.0/romfs/b.txt"),
        blob("r/Second Name/[AAAA]/1.0.0/romfs/c.txt"),
    ];
    let installed = vec![title("AAAA", None)];
    let games = resolve_games("o/r", "/load", &installed, &tree);
    assert_eq!(games.len(), 1);
    assert_eq!(games[0].title_name, "First Name");
}

#[test]
fn title_with_only_empty_names_is_dropped() {
    let tree = vec![blob("r//[AAAA]/1.0.0/romfs/a.txt")];
    let installed = vec![title("AAAA", None)];
    let games = resolve_games("o/r", "/load", &installed, &tree);
    assert!(games.is_empty());
}

#[test]
fn resolve_title_matches_resolve_games() {
    let tree = vec![blob("r/Game A/[AAAA]/1.0/romfs/f.txt")];
    let t = title("AAAA", None);
    let single = resolve_title("o/r", "/load", &t, &tree).expect("resolved");
    let games = resolve_games("o/r", "/load", &vec![t], &tree);
    assert_eq!(games.len(), 1);
    assert_eq!(games[0].title_id, single.title_id);
    assert_eq!(games[0].mod_download_entries.len(), single.mod_download_entries.len());
}

#[test]
fn duplicate_matches_are_both_retained() {
    let tree = vec![
        blob("r/Game A/[AAAA]/1.2.3/romfs/same.txt"),
        blob("r/Game A/[AAAA]/x.x.x/romfs/same.txt"),
    ];
    let installed = vec![title("AAAA", Some("1.2.3"))];
    let games = resolve_games("o/r", "/load", &installed, &tree);
    assert_eq!(games[0].mod_download_entries.len(), 2);
}
