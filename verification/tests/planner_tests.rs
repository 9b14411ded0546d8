use mod_resolver::game::{Game, ModDownloadEntry};
use mod_resolver::planner::plan_downloads;

fn entry(url: &str, rel: &str) -> ModDownloadEntry {
    ModDownloadEntry {
        download_url: url.to_string(),
        mod_relative_path: rel.to_string(),
    }
}

fn game(id: &str, location: &str, entries: Vec<ModDownloadEntry>) -> Game {
    Game {
        title_id: id.to_string(),
        title_name: format!("Game {}", id),
        title_version: None,
        mod_data_location: location.to_string(),
        mod_download_entries: entries,
    }
}

#[test]
fn job_count_is_sum_of_entry_counts() {
    let games = vec![
        game("AAAA", "/load/AAAA", vec![entry("u1", "romfs/a"), entry("u2", "romfs/b")]),
        game("BBBB", "/load/BBBB", vec![]),
        game("CCCC", "/load/CCCC", vec![entry("u3", "exefs/c")]),
    ];
    let jobs = plan_downloads(&games);
    assert_eq!(jobs.len(), 3);
}

#[test]
fn destinations_join_location_and_relative_path() {
    let games = vec![game(
        "AAAA",
        "/load/AAAA",
        vec![entry("http://u/one", "romfs/deep/a.txt")],
    )];
    let jobs = plan_downloads(&games);
    assert_eq!(jobs[0].source_url, "http://u/one");
    assert_eq!(jobs[0].destination_path, "/load/AAAA/romfs/deep/a.txt");
}

#[test]
fn jobs_preserve_game_then_entry_order() {
    let games = vec![
        game("AAAA", "/a", vec![entry("u1", "r/1"), entry("u2", "r/2")]),
        game("BBBB", "/b", vec![entry("u3", "r/3")]),
    ];
    let jobs = plan_downloads(&games);
    let urls: Vec<&str> = jobs.iter().map(|j| j.source_url.as_str()).collect();
    assert_eq!(urls, vec!["u1", "u2", "u3"]);
}

#[test]
fn duplicate_destinations_keep_both_jobs() {
    let games = vec![game(
        "AAAA",
        "/a",
        vec![entry("u1", "r/same"), entry("u2", "r/same")],
    )];
    let jobs = plan_downloads(&games);
    assert_eq!(jobs.len(), 2);
    assert_eq!(jobs[0].destination_path, jobs[1].destination_path);
}

#[test]
fn no_games_no_jobs() {
    let jobs = plan_downloads(&Vec::new());
    assert!(jobs.is_empty());
}
