use mobilecode_connect::control_server::{parse_bool_setting, Cli, ControlServerEnv, EnvAlias};

fn base_cli() -> Cli {
    Cli {
        listen: "127.0.0.1:4242".to_string(),
        token_secret: Some("dev-secret".to_string()),
        relay_addr: "relay.example.com:4433".to_string(),
        punch_addr: "punch.example.com:3478".to_string(),
        state_db: None,
        strict_auth: false,
        public_url: None,
        github_client_id: None,
        github_client_secret: None,
        github_redirect_url: None,
        github_curl_command: None,
        print_admin_token: None,
        print_relay_token: None,
        bootstrap_admin_email: None,
        bootstrap_admin_password: None,
        bootstrap_admin_display_name: None,
    }
}

fn alias(canonical: Option<&str>, legacy: Option<&str>) -> EnvAlias {
    EnvAlias {
        canonical: canonical.map(|v| v.to_string()),
        legacy: legacy.map(|v| v.to_string()),
    }
}

#[test]
fn parses_control_server_args() {
    let mut cli = base_cli();
    cli.state_db = Some("/tmp/control-state.sqlite".to_string());
    cli.strict_auth = true;
    cli.print_admin_token = Some("admin@example.com".to_string());
    cli.bootstrap_admin_email = Some("root@example.com".to_string());
    cli.bootstrap_admin_password = Some("admin-password-123".to_string());
    cli.bootstrap_admin_display_name = Some("Root Admin".to_string());
    let env = ControlServerEnv::empty();

    assert_eq!(cli.token_secret(&env).unwrap(), "dev-secret");
    assert_eq!(cli.state_db(&env).as_deref(), Some("/tmp/control-state.sqlite"));
    assert!(cli.strict_auth(&env));
    assert!(cli.check_print_token_args().is_ok());
    let request = cli.bootstrap_admin_request(&env).unwrap().unwrap();
    assert_eq!(request.email, "root@example.com");
    assert_eq!(request.password, "admin-password-123");
    assert_eq!(request.display_name, "Root Admin");
}

#[test]
fn control_server_accepts_legacy_env_aliases() {
    let mut cli = base_cli();
    cli.token_secret = None;
    let mut env = ControlServerEnv::empty();
    env.token_secret = alias(None, Some("legacy-secret"));

    assert_eq!(cli.token_secret(&env).unwrap(), "legacy-secret");
}

#[test]
fn parses_control_server_relay_token_args() {
    let mut cli = base_cli();
    cli.print_relay_token = Some("relay_dev_001".to_string());
    assert_eq!(cli.print_admin_token, None);
    assert_eq!(cli.print_relay_token, Some("relay_dev_001".to_string()));
    assert!(cli.check_print_token_args().is_ok());

    cli.print_admin_token = Some("admin@example.com".to_string());
    assert_eq!(
        cli.check_print_token_args().unwrap_err(),
        "--print-admin-token and --print-relay-token cannot be used together"
    );
}

#[test]
fn oauth_config_args_build_github_config() {
    let mut cli = base_cli();
    cli.public_url = Some("https://control.example.com".to_string());
    cli.github_client_id = Some("github-client-id".to_string());
    cli.github_client_secret = Some("github-client-secret".to_string());
    cli.github_redirect_url = Some("https://control.example.com/oauth/github/callback".to_string());
    let env = ControlServerEnv::empty();

    let config = cli.github_oauth_config(&env).unwrap().unwrap();
    assert_eq!(config.public_url, "https://control.example.com");
    assert_eq!(config.client_id, "github-client-id");
    assert_eq!(config.client_secret, "github-client-secret");
    assert_eq!(
        config.redirect_url.as_deref(),
        Some("https://control.example.com/oauth/github/callback")
    );
}

#[test]
fn missing_token_secret_is_an_error() {
    let mut cli = base_cli();
    cli.token_secret = None;
    let mut env = ControlServerEnv::empty();
    assert_eq!(cli.token_secret(&env).unwrap_err(), "--token-secret is required");
    env.token_secret = alias(Some(""), Some(""));
    assert_eq!(cli.token_secret(&env).unwrap_err(), "--token-secret is required");
}

#[test]
fn the_current_variable_name_wins_over_the_older_one_unless_empty() {
    let mut cli = base_cli();
    cli.public_url = None;
    let mut env = ControlServerEnv::empty();
    env.public_url = alias(Some("https://new.example.com"), Some("https://old.example.com"));
    assert_eq!(cli.public_url(&env).as_deref(), Some("https://new.example.com"));
    env.public_url = alias(Some(""), Some("https://old.example.com"));
    assert_eq!(cli.public_url(&env).as_deref(), Some("https://old.example.com"));
    cli.public_url = Some("https://flag.example.com".to_string());
    assert_eq!(cli.public_url(&env).as_deref(), Some("https://flag.example.com"));
}

#[test]
fn bootstrap_admin_needs_email_and_password_together() {
    let mut cli = base_cli();
    let env = ControlServerEnv::empty();
    assert!(cli.bootstrap_admin_request(&env).unwrap().is_none());
    cli.bootstrap_admin_email = Some("root@example.com".to_string());
    assert_eq!(
        cli.bootstrap_admin_request(&env).unwrap_err(),
        "--bootstrap-admin-email and --bootstrap-admin-password must be provided together"
    );
    cli.bootstrap_admin_password = Some("pw".to_string());
    assert_eq!(cli.bootstrap_admin_request(&env).unwrap().unwrap().display_name, "Admin");
}

#[test]
fn github_settings_come_as_a_triple() {
    let mut cli = base_cli();
    cli.public_url = Some("https://control.example.com".to_string());
    let env = ControlServerEnv::empty();
    assert_eq!(
        cli.github_oauth_config(&env).unwrap_err(),
        "--public-url, --github-client-id, and --github-client-secret must be provided together"
    );
    cli.public_url = None;
    assert!(cli.github_oauth_config(&env).unwrap().is_none());
}

#[test]
fn strict_auth_falls_back_to_the_older_variable() {
    let cli = base_cli();
    let mut env = ControlServerEnv::empty();
    assert!(!cli.strict_auth(&env));
    env.legacy_strict_auth = Some(" Yes ".to_string());
    assert!(cli.strict_auth(&env));
    env.legacy_strict_auth = Some("off".to_string());
    assert!(!cli.strict_auth(&env));
    env.legacy_strict_auth = Some("TRUE".to_string());
    env.strict_auth_set = true;
    assert!(!cli.strict_auth(&env));
}

#[test]
fn boolean_settings_accept_the_usual_words() {
    for word in ["1", "true", "YES", " On "] {
        assert_eq!(parse_bool_setting(word), Some(true));
    }
    for word in ["0", "False", "no", "OFF\n"] {
        assert_eq!(parse_bool_setting(word), Some(false));
    }
    for word in ["", "maybe", "2", "y"] {
        assert_eq!(parse_bool_setting(word), None);
    }
}
