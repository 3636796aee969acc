use ffg::preset::{resolve_home, HomeDir};

#[test]
fn configured_home_is_used() {
    match resolve_home(Some("/opt/go-versions".to_string())) {
        HomeDir::Configured(dir) => assert_eq!(dir, "/opt/go-versions"),
        HomeDir::UnderUserHome(_) => panic!("expected the configured directory"),
    }
}

#[test]
fn default_home_is_dot_ffg() {
    match resolve_home(None) {
        HomeDir::UnderUserHome(name) => assert_eq!(name, ".ffg"),
        HomeDir::Configured(_) => panic!("expected the default directory"),
    }
}
