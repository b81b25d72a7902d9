use netweft::adapter::AdapterError;
use netweft::adapter::artifact::{collect_artifacts, path_less, strip_root_exec};
use netweft::adapters::nginx::prefix_argument;
use netweft::config::ConfigLoader;
use netweft::paths::{join, NetweftPaths, PathEnvironment, PathError};
use netweft::plan::network_mount::systemd_mount_unit;
use netweft::plan::PlanError;
use netweft::validate::{validate_vlan_expression, validate_vlan_id, ValidationError};

fn s(text: &str) -> String {
    text.to_owned()
}

fn env(home: Option<&str>) -> PathEnvironment {
    PathEnvironment {
        home: home.map(s),
        netweft_config_dir: None,
        xdg_config_home: None,
        xdg_data_home: None,
        xdg_state_home: None,
        xdg_cache_home: None,
    }
}

#[test]
fn default_paths_live_under_home() {
    let paths = NetweftPaths::resolve(None, &env(Some("/home/ada"))).unwrap();
    assert_eq!(paths.config_dir, "/home/ada/.config/netweft");
    assert_eq!(paths.generated_dir, "/home/ada/.local/share/netweft/generated");
    assert_eq!(paths.state_dir, "/home/ada/.local/state/netweft");
    assert_eq!(paths.cache_dir, "/home/ada/.cache/netweft");
}

#[test]
fn configured_paths_take_precedence() {
    let mut e = env(Some("/home/ada"));
    e.xdg_config_home = Some(s("/xdg/config"));
    e.xdg_data_home = Some(s("/xdg/data/"));
    let paths = NetweftPaths::resolve(None, &e).unwrap();
    assert_eq!(paths.config_dir, "/xdg/config/netweft");
    assert_eq!(paths.generated_dir, "/xdg/data/netweft/generated");
    e.netweft_config_dir = Some(s("/etc/netweft"));
    assert_eq!(NetweftPaths::resolve(None, &e).unwrap().config_dir, "/etc/netweft");
    assert_eq!(NetweftPaths::resolve(Some("cli"), &e).unwrap().config_dir, "cli");
}

#[test]
fn paths_need_a_home() {
    assert_eq!(NetweftPaths::resolve(None, &env(None)).err(), Some(PathError::HomeUnset));
    assert_eq!(NetweftPaths::resolve(None, &env(Some(""))).err(), Some(PathError::HomeEmpty));
}

#[test]
fn paths_display_one_per_line() {
    let paths = NetweftPaths { config_dir: s("c"), generated_dir: s("g"), state_dir: s("s"), cache_dir: s("k") };
    assert_eq!(paths.display_text(), "Config:    c\nGenerated: g\nState:     s\nCache:     k");
}

#[test]
fn join_follows_unix_path_rules() {
    assert_eq!(join("a", "b"), "a/b");
    assert_eq!(join("a/", "b"), "a/b");
    assert_eq!(join("a", "/b"), "/b");
    assert_eq!(join("", "b"), "b");
}

#[test]
fn loader_reads_below_the_configuration_directory() {
    let loader = ConfigLoader::new("/srv/netweft");
    assert_eq!(loader.config_dir, "/srv/netweft");
    assert_eq!(loader.path_of("inventory.toml"), "/srv/netweft/inventory.toml");
    assert_eq!(ConfigLoader::location_file(None, "home"), "locations/home.toml");
    assert_eq!(ConfigLoader::location_file(Some("travel"), "home"), "locations/travel.toml");
}

#[test]
fn artifacts_are_relative_and_sorted_by_path() {
    let files = vec![
        s("/out/nginx.conf"),
        s("/out/conf.d/b.conf"),
        s("/out/conf-x"),
        s("/out/manifest.txt"),
        s("/out/conf.d/a.conf"),
        s("/out/conf/x"),
        s("/out/conf-old"),
    ];
    let artifacts = collect_artifacts("/out", files).unwrap();
    let paths: Vec<&str> = artifacts.iter().map(|a| a.relative_path.as_str()).collect();
    assert_eq!(
        paths,
        vec!["conf/x", "conf-old", "conf-x", "conf.d/a.conf", "conf.d/b.conf", "manifest.txt", "nginx.conf"]
    );
}

#[test]
fn artifacts_outside_the_root_are_refused() {
    let files = vec![s("/out/a"), s("/other/b")];
    match collect_artifacts("/out/", files) {
        Err(AdapterError::OutsideRoot { path, .. }) => assert_eq!(path, "/other/b"),
        other => panic!("unexpected: {:?}", other.err()),
    }
    assert!(collect_artifacts("/out", Vec::new()).unwrap().is_empty());
}

#[test]
fn paths_compare_component_by_component() {
    assert!(path_less("a/b", "a-b"));
    assert!(!path_less("a-b", "a/b"));
    assert!(path_less("a", "a/b"));
    assert!(!path_less("a", "a"));
    assert_eq!(strip_root_exec("/out", "/out/x/y"), Some(s("x/y")));
    assert_eq!(strip_root_exec("/out", "/outside/x"), None);
    assert_eq!(strip_root_exec("", "x"), Some(s("x")));
}

#[test]
fn nginx_prefix_ends_with_a_separator() {
    assert_eq!(prefix_argument("/srv/nginx"), "/srv/nginx/");
}

#[test]
fn mount_units_escape_the_path() {
    assert_eq!(systemd_mount_unit("/mnt/media-a/").unwrap(), "mnt-media\\x2da.mount");
    assert_eq!(systemd_mount_unit("/srv/data").unwrap(), "srv-data.mount");
    assert!(matches!(systemd_mount_unit("/"), Err(PlanError::RootMountUnit)));
}

#[test]
fn vlan_lists_accept_ids_and_ranges() {
    validate_vlan_expression("zion", "vmbr0", "2-4094").unwrap();
    validate_vlan_expression("zion", "vmbr0", "10,20-30").unwrap();
    assert!(matches!(
        validate_vlan_expression("zion", "vmbr0", "4095"),
        Err(ValidationError::VlanOutOfRange { vlan: 4095, .. })
    ));
    assert!(matches!(
        validate_vlan_expression("zion", "vmbr0", "30-20"),
        Err(ValidationError::DescendingVlanRange { .. })
    ));
    assert!(matches!(
        validate_vlan_expression("zion", "vmbr0", "ten"),
        Err(ValidationError::InvalidVlanValue { .. })
    ));
    assert!(validate_vlan_id("zion", "vmbr0", 0).is_err());
    validate_vlan_id("zion", "vmbr0", 1).unwrap();
}

#[test]
fn manifest_does_not_depend_on_the_walk_order() {
    let first = vec![s("/out/b"), s("/out/a/z"), s("/out/a-z")];
    let second = vec![s("/out/a-z"), s("/out/b"), s("/out/a/z")];
    let one: Vec<String> = collect_artifacts("/out", first).unwrap().into_iter().map(|a| a.relative_path).collect();
    let two: Vec<String> = collect_artifacts("/out", second).unwrap().into_iter().map(|a| a.relative_path).collect();
    assert_eq!(one, two);
    assert_eq!(one, vec!["a/z", "a-z", "b"]);
}
