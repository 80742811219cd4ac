use debugbunny::config::{Action, Config, ScrapeTargetBuilder, DEFAULT_TIMEOUT_NANOS};

#[test]
fn builder_fills_every_field() {
    let t = ScrapeTargetBuilder::new()
        .interval(500_000_000)
        .timeout(250_000_000)
        .action(Action::http(b"http://127.0.0.1:8000/README.md".to_vec()))
        .build();
    assert_eq!(t.interval, 500_000_000);
    assert_eq!(t.timeout, Some(250_000_000));
    assert!(matches!(t.action, Action::Http { method: None, .. }));
    assert_eq!(t.effective_timeout(), 250_000_000);
}

#[test]
fn timeout_defaults_to_two_seconds() {
    let t = ScrapeTargetBuilder::new()
        .interval(500_000_000)
        .action(Action::command(b"uptime".to_vec()))
        .build();
    assert_eq!(t.timeout, None);
    assert_eq!(t.effective_timeout(), DEFAULT_TIMEOUT_NANOS);
    assert_eq!(t.effective_timeout(), 2_000_000_000);
}

#[test]
fn actions_carry_their_fields() {
    let a = Action::command_with_args(b"echo".to_vec(), vec![b"hello".to_vec()]);
    match a {
        Action::Command { command, args } => {
            assert_eq!(command, b"echo".to_vec());
            assert_eq!(args, vec![b"hello".to_vec()]);
        }
        _ => panic!("expected a command action"),
    }
    let h = Action::http_with_method(b"http://x/".to_vec(), b"POST".to_vec());
    match h {
        Action::Http { method, url } => {
            assert_eq!(method, Some(b"POST".to_vec()));
            assert_eq!(url, b"http://x/".to_vec());
        }
        _ => panic!("expected an http action"),
    }
}

#[test]
fn config_collects_targets() {
    let mut config = Config::new();
    assert_eq!(config.scrape_targets.len(), 0);
    config.add_target(
        ScrapeTargetBuilder::new()
            .interval(1_000_000_000)
            .action(Action::http(b"http://a/".to_vec()))
            .build(),
    );
    config.add_target(
        ScrapeTargetBuilder::new()
            .interval(2_000_000_000)
            .action(Action::command(b"true".to_vec()))
            .build(),
    );
    assert_eq!(config.scrape_targets.len(), 2);
    assert_eq!(config.scrape_targets[0].interval, 1_000_000_000);
    assert_eq!(config.scrape_targets[1].interval, 2_000_000_000);
}
