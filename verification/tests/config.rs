use whatstauri::config::{is_nvidia_vendor_list, Config, ConfigError, HostEnv, TomlValue};

#[test]
fn defaults_are_sane() {
    let c = Config::default();
    assert!(c.user_agent.contains("Chrome/"));
    assert!(c.user_agent.contains("Linux"));
    assert!(c.close_to_tray);
    assert!(!c.start_hidden);
    assert!(!c.disable_dmabuf_renderer);
    assert!(!c.disable_compositing);
}

#[test]
fn parses_full_toml() {
    let c = Config::from_toml(
        r#"
        user_agent = "UA-TEST"
        close_to_tray = false
        start_hidden = true
        disable_dmabuf_renderer = true
        disable_compositing = true
        "#,
    );
    assert_eq!(c.user_agent, "UA-TEST");
    assert!(!c.close_to_tray);
    assert!(c.start_hidden);
    assert!(c.disable_dmabuf_renderer);
    assert!(c.disable_compositing);
}

#[test]
fn partial_toml_fills_defaults() {
    let c = Config::from_toml(r#"start_hidden = true"#);
    assert!(c.start_hidden);
    assert!(c.close_to_tray); // default preserved
    assert!(c.user_agent.contains("Chrome/"));
}

#[test]
fn malformed_toml_falls_back_to_defaults() {
    let c = Config::from_toml("this is {{{ not toml");
    assert_eq!(c.user_agent, Config::default().user_agent);
}

#[test]
fn new_fields_default_correctly() {
    let c = Config::default();
    assert!(!c.force_shm);
    assert!(c.nvidia_quirks);
}

#[test]
fn nvidia_vendor_detection() {
    assert!(is_nvidia_vendor_list(&["0x10de\n".to_string()]));
    assert!(is_nvidia_vendor_list(&[
        "0x8086\n".to_string(),
        "0x10DE\n".to_string()
    ]));
    assert!(!is_nvidia_vendor_list(&[
        "0x8086\n".to_string(),
        "0x1002\n".to_string()
    ]));
    assert!(!is_nvidia_vendor_list(&[]));
}

#[test]
fn parses_new_toml_fields() {
    let c = Config::from_toml("force_shm = true\nnvidia_quirks = false");
    assert!(c.force_shm);
    assert!(!c.nvidia_quirks);
}

#[test]
fn mistyped_key_gives_all_defaults() {
    // start_hidden is right, but close_to_tray has the wrong type: the whole
    // file falls back, as a serde struct with defaults would.
    let c = Config::from_toml("start_hidden = true\nclose_to_tray = \"no\"");
    assert!(!c.start_hidden);
    assert!(c.close_to_tray);
}

#[test]
fn unknown_keys_are_ignored() {
    let c = Config::from_toml("theme = \"dark\"\nstart_hidden = true\n[window]\nwidth = 3");
    assert!(c.start_hidden);
}

#[test]
fn empty_file_gives_defaults() {
    let c = Config::from_toml("");
    assert_eq!(c.user_agent, Config::default().user_agent);
    assert!(c.close_to_tray);
    assert!(c.nvidia_quirks);
}

#[test]
fn from_document_reads_entries() {
    let c = Config::from_document(Some(vec![
        ("user_agent".to_string(), TomlValue::Text("X".to_string())),
        ("force_shm".to_string(), TomlValue::Flag(true)),
        ("other".to_string(), TomlValue::Other),
    ]));
    assert_eq!(c.user_agent, "X");
    assert!(c.force_shm);
    assert!(c.close_to_tray);
    let d = Config::from_document(None);
    assert_eq!(d.user_agent, Config::default().user_agent);
    let e = Config::from_document(Some(vec![("force_shm".to_string(), TomlValue::Other)]));
    assert!(!e.force_shm);
}

#[test]
fn vendor_with_spaces_and_case() {
    assert!(is_nvidia_vendor_list(&["  0X10De  ".to_string()]));
    assert!(!is_nvidia_vendor_list(&["0x10de0".to_string()]));
    assert!(!is_nvidia_vendor_list(&["".to_string()]));
}

fn host(nvidia_gpu: bool, wayland: bool, explicit_sync_set: bool, feature_rank_set: bool) -> HostEnv {
    HostEnv { nvidia_gpu, wayland, explicit_sync_set, feature_rank_set }
}

fn names(v: &[(String, String)]) -> Vec<&str> {
    v.iter().map(|(n, _)| n.as_str()).collect()
}

#[test]
fn default_env_on_nvidia_wayland() {
    let c = Config::default();
    let v = c.env_workarounds(&host(true, true, false, false));
    assert_eq!(names(&v), vec!["__NV_DISABLE_EXPLICIT_SYNC", "GST_PLUGIN_FEATURE_RANK"]);
    assert_eq!(v[0].1, "1");
    assert_eq!(v[1].1, "nvh264dec:NONE,nvh265dec:NONE,nvav1dec:NONE");
}

#[test]
fn env_respects_user_values_and_x11() {
    let c = Config::default();
    assert!(c.env_workarounds(&host(true, true, true, true)).is_empty());
    assert_eq!(names(&c.env_workarounds(&host(true, false, false, false))), vec!["GST_PLUGIN_FEATURE_RANK"]);
    assert!(c.env_workarounds(&host(false, true, false, false)).is_empty());
}

#[test]
fn env_fallback_switches() {
    let c = Config::from_toml(
        "disable_dmabuf_renderer = true\ndisable_compositing = true\nforce_shm = true\nnvidia_quirks = false",
    );
    let v = c.env_workarounds(&host(true, true, false, false));
    assert_eq!(
        names(&v),
        vec![
            "WEBKIT_DISABLE_DMABUF_RENDERER",
            "WEBKIT_DISABLE_COMPOSITING_MODE",
            "WEBKIT_DMABUF_RENDERER_FORCE_SHM"
        ]
    );
    assert!(v.iter().all(|(_, val)| val == "1"));
}

#[test]
fn try_from_toml_says_why() {
    assert!(matches!(Config::try_from_toml("this is {{{ not toml"), Err(ConfigError::NotToml)));
    match Config::try_from_toml("start_hidden = 1\nforce_shm = \"x\"") {
        Err(ConfigError::WrongType(k)) => assert_eq!(k, "start_hidden"),
        other => panic!("unexpected: {other:?}"),
    }
    match Config::try_from_toml("user_agent = true") {
        Err(ConfigError::WrongType(k)) => assert_eq!(k, "user_agent"),
        other => panic!("unexpected: {other:?}"),
    }
    let c = Config::try_from_toml("close_to_tray = false").unwrap();
    assert!(!c.close_to_tray);
}
