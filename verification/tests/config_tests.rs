use mod_resolver::config::{
    default_load_directory, parse_installed_version, resolve_load_directory,
};

fn lines(ls: &[&str]) -> Vec<String> {
    ls.iter().map(|l| l.to_string()).collect()
}

#[test]
fn load_directory_value_is_used() {
    let config = lines(&["[Data Storage]", "load_directory=/home/u/mods", "other=1"]);
    assert_eq!(
        resolve_load_directory(&config, "/default"),
        Ok("/home/u/mods".to_string())
    );
}

#[test]
fn empty_load_directory_falls_back_to_default() {
    let config = lines(&["load_directory="]);
    assert_eq!(
        resolve_load_directory(&config, "/data/emu/nand"),
        Ok("/data/emu/nand".to_string())
    );
}

#[test]
fn missing_load_directory_is_a_configuration_error() {
    let config = lines(&["[Data Storage]", "other=1"]);
    assert!(resolve_load_directory(&config, "/default").is_err());
}

#[test]
fn first_load_directory_line_wins() {
    let config = lines(&["load_directory=/first", "load_directory=/second"]);
    assert_eq!(
        resolve_load_directory(&config, "/default"),
        Ok("/first".to_string())
    );
}

#[test]
fn default_root_is_data_dir_emulator_nand() {
    assert_eq!(default_load_directory("/home/u/.local/share", "emu"), "/home/u/.local/share/emu/nand");
}

#[test]
fn update_line_yields_version_between_parentheses() {
    let cache = lines(&["Game (base)", "Update (1.2.3)", "DLC (x)"]);
    assert_eq!(parse_installed_version(&cache), Some("1.2.3".to_string()));
}

#[test]
fn version_is_cut_at_the_last_closing_parenthesis() {
    let cache = lines(&["Update (1.2 (rev B))"]);
    assert_eq!(parse_installed_version(&cache), Some("1.2 (rev B)".to_string()));
}

#[test]
fn no_update_line_means_no_installed_update() {
    let cache = lines(&["Game (base)", "DLC (x)"]);
    assert_eq!(parse_installed_version(&cache), None);
}

#[test]
fn empty_cache_means_no_installed_update() {
    assert_eq!(parse_installed_version(&Vec::new()), None);
}
