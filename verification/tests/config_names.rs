use cargopit::names;
use cargopit::paths::{
    bundled_conf_dirs, cache_home, config_home, default_config_path, diameters_path, expand_tilde, first_present,
    join, local_bin_dir, log_dir, search_path, search_path_prefix, simd_config_path, state_home, tui_state_path,
    XdgEnv,
};

#[test]
fn hardware_aliases_and_unknown_tyre() {
    assert_eq!(names::lookup(&names::hardware(), "MozaR8"), Some(names::HARDWARE_MOZA_R5));
    assert_eq!(names::lookup(&names::hardware(), "MozaR3"), Some(names::HARDWARE_MOZA_R5));
    assert_eq!(names::lookup(&names::hardware(), "not-a-real-subtype"), None);
    assert_eq!(names::lookup(&names::effects(), "Engine"), Some(names::EFFECT_ENGINE));
    assert_eq!(names::map_device("USB", "Tachometer"), Ok(names::SUBTYPE_TACHOMETER));
    assert_eq!(names::map_device("USB", "not-a-real-subtype"), Err(names::ERROR_INVALID_DEV));
    assert_eq!(names::tyre_or_all_four("fronts"), names::TYRE_FRONTS);
    assert_eq!(names::tyre_or_all_four("missing"), names::TYRE_ALL_FOUR);
    assert_eq!(names::name_for(&names::modulations(), names::MODULATION_AMPLIFY), Some("Amplitude"));
    assert_eq!(names::lookup(&names::modulations(), "AMPLIFY"), Some(names::MODULATION_AMPLIFY));
}

#[test]
fn profile_index_and_fps_match_c_bounds() {
    assert_eq!(names::resolve_profile_index(2, 1), 1);
    assert_eq!(names::resolve_profile_index(2, names::CONFIG_INDEX_UNSET), names::CONFIG_INDEX_FIRST);
    assert_eq!(names::resolve_profile_index(2, 99), names::CONFIG_INDEX_UNSET);
    assert_eq!(names::clamp_fps(0), names::FPS_MIN);
    assert_eq!(names::clamp_fps(-5), names::FPS_MIN);
    assert_eq!(names::clamp_fps(names::FPS_DEFAULT), names::FPS_DEFAULT);
    assert_eq!(names::clamp_fps(names::FPS_MAX + 1), names::FPS_MAX);
}

#[test]
fn lookup_matches_names_in_any_ascii_case() {
    let table = names::effects();
    assert_eq!(names::lookup(&table, "engine"), names::lookup(&table, "ENGINE"));
    assert_eq!(names::lookup(&table, "eNgInE"), Some(names::EFFECT_ENGINE));
}

#[test]
fn every_named_value_looks_up_to_itself() {
    let table = names::effects();
    for entry in &table {
        let name = names::name_for(&table, entry.value).expect("named");
        assert_eq!(names::lookup(&table, name), Some(entry.value));
    }
}

fn env(home: Option<&str>, config: Option<&str>) -> XdgEnv {
    XdgEnv {
        home: home.map(str::to_string),
        config_home: config.map(str::to_string),
        cache_home: None,
        data_home: None,
        state_home: None,
    }
}

#[test]
fn xdg_homes_fall_back_under_the_home_directory() {
    let e = env(Some("/home/ana"), None);
    assert_eq!(config_home(&e), "/home/ana/.config");
    assert_eq!(cache_home(&e), "/home/ana/.cache");
    assert_eq!(state_home(&e), "/home/ana/.local/state");
    assert_eq!(default_config_path(&e), "/home/ana/.config/cargopit/cargopit.config");
    assert_eq!(simd_config_path(&e), "/home/ana/.config/simd/simd.config");
    assert_eq!(diameters_path(&e), "/home/ana/.config/cargopit/diameters.config");
    assert_eq!(tui_state_path(&e), "/home/ana/.local/state/cargopit/tui-state.json");
    assert_eq!(log_dir(&e), "/home/ana/.cache/cargopit");
    assert_eq!(local_bin_dir(&e), "/home/ana/.local/bin");
}

#[test]
fn a_set_xdg_variable_wins_and_an_empty_one_is_ignored() {
    assert_eq!(config_home(&env(Some("/home/ana"), Some("/cfg"))), "/cfg");
    assert_eq!(config_home(&env(Some("/home/ana"), Some(""))), "/home/ana/.config");
    assert_eq!(config_home(&env(None, None)), "/.config");
}

#[test]
fn join_follows_pathbuf_rules() {
    assert_eq!(join("/a", "b"), "/a/b");
    assert_eq!(join("/a/", "b"), "/a/b");
    assert_eq!(join("/a", "/b"), "/b");
    assert_eq!(join("", "b"), "b");
    assert_eq!(join("a", ""), "a/");
}

#[test]
fn tilde_expands_to_the_home_directory() {
    let e = env(Some("/home/ana"), None);
    assert_eq!(expand_tilde("~/x.config", &e), "/home/ana/x.config");
    assert_eq!(expand_tilde("~", &e), "/home/ana");
    assert_eq!(expand_tilde("~ana/x", &e), "~ana/x");
    assert_eq!(expand_tilde("/etc/x", &e), "/etc/x");
}

#[test]
fn bundled_files_are_searched_in_order() {
    let e = env(Some("/home/ana"), None);
    let dirs = bundled_conf_dirs("/src/cargopit", &e);
    assert_eq!(dirs, vec![
        "/src/cargopit/conf".to_string(),
        "/home/ana/.local/share/cargopit/conf".to_string(),
        "/usr/share/cargopit/conf".to_string(),
    ]);
    assert_eq!(first_present(&dirs, &vec![false, true, true]), Some(1));
    assert_eq!(first_present(&dirs, &vec![false, false, false]), None);
}

#[test]
fn search_path_puts_the_extra_directories_first() {
    let e = env(Some("/home/ana"), None);
    let extra = search_path_prefix("/src/cargopit", &e);
    assert_eq!(search_path(&extra, "/usr/bin"), "/src/cargopit/build:/home/ana/.local/bin:/usr/bin");
    assert_eq!(search_path(&extra, ""), "/src/cargopit/build:/home/ana/.local/bin");
}

#[test]
fn a_printed_u32_parses_back() {
    for n in [0_u32, 7, 10, 8_000, 65_535, u32::MAX] {
        assert_eq!(cargopit::cli::parse_u32(&format!("{n}")), Some(n));
    }
    assert_eq!(cargopit::cli::parse_u32("+12"), Some(12));
    assert_eq!(cargopit::cli::parse_u32("4294967296"), None);
    assert_eq!(cargopit::cli::parse_u32(""), None);
}
