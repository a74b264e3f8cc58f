use capture_core::paths::{config_dir, credentials_path};

fn s(v: &str) -> Option<String> {
    Some(v.to_string())
}

#[test]
fn credentials_under_xdg_config_home() {
    assert_eq!(
        credentials_path(s("/etc/cfg"), s("/home/ann")),
        "/etc/cfg/jb-shell/google-credentials.json"
    );
    assert_eq!(
        credentials_path(s("/etc/cfg/"), None),
        "/etc/cfg/jb-shell/google-credentials.json"
    );
}

#[test]
fn credentials_under_home_config() {
    assert_eq!(
        credentials_path(None, s("/home/ann")),
        "/home/ann/.config/jb-shell/google-credentials.json"
    );
}

#[test]
fn credentials_without_home() {
    assert_eq!(credentials_path(None, None), "./.config/jb-shell/google-credentials.json");
}

#[test]
fn empty_config_home_gives_relative_path() {
    assert_eq!(config_dir(s(""), None), "jb-shell");
}
