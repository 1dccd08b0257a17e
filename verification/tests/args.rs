use fast_down::args::{
    settle, to_u16, to_u64, to_usize, Args, ArgsError, Commands, ConfigValues, DownloadArgs,
    DownloadCli, TaskArgs, TaskCli,
};

fn h(name: &str, value: &str) -> (String, String) {
    (name.to_string(), value.to_string())
}

fn cli(url: &str) -> DownloadCli {
    DownloadCli {
        url: url.to_string(),
        ..Default::default()
    }
}

#[test]
fn defaults_of_a_download() {
    let args = DownloadArgs::defaults("https://e.com/x".to_string(), None, Some(120));
    assert_eq!(args.url, "https://e.com/x");
    assert!(!args.force);
    assert!(!args.resume);
    assert_eq!(args.save_folder, ".");
    assert_eq!(args.threads, 8);
    assert_eq!(args.file_name, None);
    assert_eq!(args.proxy, None);
    assert!(args.headers.is_empty());
    assert_eq!(args.write_buffer_size, 8 * 1024 * 1024);
    assert_eq!(args.write_queue_cap, 10240);
    assert_eq!(args.progress_width, 84);
    assert_eq!(args.retry_gap, 500);
    assert_eq!(args.repaint_gap, 100);
    assert_eq!(args.pull_timeout, 5000);
    assert_eq!(args.min_chunk_size, 1024);
    assert!(args.browser);
    assert!(!args.yes);
    assert!(!args.no);
    assert!(!args.verbose);
    assert!(args.multiplexing);
    assert!(!args.accept_invalid_certs);
    assert!(!args.accept_invalid_hostnames);
}

#[test]
fn default_width_follows_the_terminal() {
    let width = |columns| DownloadArgs::defaults(String::new(), None, columns).progress_width;
    assert_eq!(width(None), 50);
    assert_eq!(width(Some(35)), 50);
    assert_eq!(width(Some(36)), 0);
    assert_eq!(width(Some(37)), 1);
    assert_eq!(width(Some(u16::MAX)), u16::MAX - 36);
}

#[test]
fn configuration_overrides_defaults() {
    let config = ConfigValues {
        force: Some(true),
        save_folder: Some("/data".to_string()),
        threads: Some(32),
        proxy: Some("http://proxy:8080".to_string()),
        write_buffer_size: Some(4096),
        write_queue_cap: Some(16),
        progress_width: Some(40),
        retry_gap: Some(250),
        repaint_gap: Some(1000),
        pull_timeout: Some(2500),
        min_chunk_size: Some(65536),
        browser: Some(false),
        multiplexing: Some(false),
        headers: vec![h("X-A", "1"), h("bad name", "2"), h("x-a", "3")],
        ..Default::default()
    };
    let mut args = DownloadArgs::defaults("u".to_string(), Some("f".to_string()), None);
    assert_eq!(args.apply_config(&config), Ok(()));
    assert!(args.force);
    assert!(!args.resume);
    assert_eq!(args.save_folder, "/data");
    assert_eq!(args.threads, 32);
    assert_eq!(args.proxy, Some("http://proxy:8080".to_string()));
    assert_eq!(args.write_buffer_size, 4096);
    assert_eq!(args.write_queue_cap, 16);
    assert_eq!(args.progress_width, 40);
    assert_eq!(args.retry_gap, 250);
    assert_eq!(args.repaint_gap, 1000);
    assert_eq!(args.pull_timeout, 2500);
    assert_eq!(args.min_chunk_size, 65536);
    assert!(!args.browser);
    assert!(!args.multiplexing);
    assert_eq!(args.headers, vec![h("x-a", "3")]);
    assert_eq!(args.url, "u");
    assert_eq!(args.file_name, Some("f".to_string()));
}

#[test]
fn empty_proxy_in_the_configuration_counts_as_none() {
    let config = ConfigValues {
        proxy: Some(String::new()),
        ..Default::default()
    };
    let mut args = DownloadArgs::defaults("u".to_string(), None, None);
    args.proxy = Some("http://kept".to_string());
    assert_eq!(args.apply_config(&config), Ok(()));
    assert_eq!(args.proxy, Some("http://kept".to_string()));
}

#[test]
fn numbers_that_do_not_fit_are_refused() {
    for config in [
        ConfigValues { threads: Some(-1), ..Default::default() },
        ConfigValues { write_buffer_size: Some(-5), ..Default::default() },
        ConfigValues { write_queue_cap: Some(i64::MIN), ..Default::default() },
        ConfigValues { progress_width: Some(65536), ..Default::default() },
        ConfigValues { progress_width: Some(-1), ..Default::default() },
        ConfigValues { retry_gap: Some(-1), ..Default::default() },
        ConfigValues { repaint_gap: Some(-1), ..Default::default() },
        ConfigValues { pull_timeout: Some(-1), ..Default::default() },
        ConfigValues { min_chunk_size: Some(-1), ..Default::default() },
    ] {
        let mut args = DownloadArgs::defaults("u".to_string(), None, None);
        let before = args.clone();
        assert_eq!(args.apply_config(&config), Err(ArgsError::OutOfRange));
        assert_eq!(args, before);
    }
    assert_eq!(to_usize(0), Ok(0));
    assert_eq!(to_usize(77), Ok(77));
    assert_eq!(to_usize(-1), Err(ArgsError::OutOfRange));
    assert_eq!(to_u64(i64::MAX), Ok(i64::MAX as u64));
    assert_eq!(to_u64(-1), Err(ArgsError::OutOfRange));
    assert_eq!(to_u16(65535), Ok(65535));
    assert_eq!(to_u16(65536), Err(ArgsError::OutOfRange));
    assert_eq!(to_u16(-1), Err(ArgsError::OutOfRange));
}

#[test]
fn command_line_overrides_configuration() {
    let config = ConfigValues {
        force: Some(true),
        resume: Some(false),
        threads: Some(32),
        yes: Some(true),
        headers: vec![h("X-A", "config"), h("X-B", "config")],
        ..Default::default()
    };
    let given = DownloadCli {
        no_force: true,
        resume: true,
        threads: Some(4),
        save_folder: Some("out".to_string()),
        proxy: Some("socks5://p:1".to_string()),
        write_buffer_size: Some(1),
        write_queue_cap: Some(2),
        progress_width: Some(3),
        retry_gap: Some(4),
        repaint_gap: Some(5),
        pull_timeout: Some(6),
        min_chunk_size: Some(7),
        no_browser: true,
        no_yes: true,
        no: true,
        verbose: true,
        no_multiplexing: true,
        accept_invalid_certs: true,
        accept_invalid_hostnames: true,
        headers: vec!["x-a: cli".to_string(), "junk".to_string(), "X-C:  c  ".to_string()],
        file_name: Some("name.bin".to_string()),
        ..cli("https://e.com/x")
    };
    let args = settle(&given, &config, Some(100)).unwrap();
    assert_eq!(args.url, "https://e.com/x");
    assert_eq!(args.file_name, Some("name.bin".to_string()));
    assert!(!args.force);
    assert!(args.resume);
    assert_eq!(args.threads, 4);
    assert_eq!(args.save_folder, "out");
    assert_eq!(args.proxy, Some("socks5://p:1".to_string()));
    assert_eq!(args.write_buffer_size, 1);
    assert_eq!(args.write_queue_cap, 2);
    assert_eq!(args.progress_width, 3);
    assert_eq!(args.retry_gap, 4);
    assert_eq!(args.repaint_gap, 5);
    assert_eq!(args.pull_timeout, 6);
    assert_eq!(args.min_chunk_size, 7);
    assert!(!args.browser);
    assert!(!args.yes);
    assert!(args.no);
    assert!(args.verbose);
    assert!(!args.multiplexing);
    assert!(args.accept_invalid_certs);
    assert!(args.accept_invalid_hostnames);
    assert_eq!(args.headers, vec![h("X-B", "config"), h("x-a", "cli"), h("X-C", "c")]);
}

#[test]
fn turning_on_wins_over_turning_off() {
    let given = DownloadCli {
        force: true,
        no_force: true,
        yes: true,
        no_yes: true,
        ..cli("u")
    };
    let args = settle(&given, &ConfigValues::default(), None).unwrap();
    assert!(args.force);
    assert!(args.yes);
    assert_eq!(args.progress_width, 50);
}

#[test]
fn bad_header_lines_are_errors() {
    let given = DownloadCli {
        headers: vec!["ok: 1".to_string(), "bad name: x".to_string(), "x: a\nb".to_string()],
        ..cli("u")
    };
    assert_eq!(settle(&given, &ConfigValues::default(), None), Err(ArgsError::InvalidHeaderName));
    let given = DownloadCli {
        headers: vec!["x: a\u{1}b".to_string(), "bad name: x".to_string()],
        ..cli("u")
    };
    assert_eq!(settle(&given, &ConfigValues::default(), None), Err(ArgsError::InvalidHeaderValue));
    let mut args = DownloadArgs::defaults("u".to_string(), None, None);
    let before = args.clone();
    assert_eq!(args.apply_cli(&given), Err(ArgsError::InvalidHeaderValue));
    assert_eq!(args, before);
    let given = DownloadCli {
        headers: vec![": x".to_string()],
        ..cli("u")
    };
    assert_eq!(settle(&given, &ConfigValues::default(), None), Err(ArgsError::InvalidHeaderName));
}

#[test]
fn configuration_errors_come_first() {
    let given = DownloadCli {
        headers: vec!["bad name: x".to_string()],
        ..cli("u")
    };
    let config = ConfigValues { threads: Some(-1), ..Default::default() };
    assert_eq!(settle(&given, &config, None), Err(ArgsError::OutOfRange));
}

#[test]
fn commands_are_parsed() {
    let config = ConfigValues::default();
    assert_eq!(Args::parse(Commands::Clean, &config, None), Ok(Args::Clean));
    assert_eq!(Args::parse(Commands::Update, &config, None), Ok(Args::Update));
    assert_eq!(Args::parse(Commands::List, &config, None), Ok(Args::List));
    assert_eq!(Args::parse(Commands::TaskExample, &config, None), Ok(Args::TaskExample));
    assert_eq!(
        Args::parse(Commands::Task(TaskCli { file: "t.yaml".to_string() }), &config, None),
        Ok(Args::Task(TaskArgs { file: "t.yaml".to_string() }))
    );
    let expected = settle(&cli("https://e.com/"), &config, Some(80)).unwrap();
    assert_eq!(
        Args::parse(Commands::Download(cli("https://e.com/")), &config, Some(80)),
        Ok(Args::Download(expected))
    );
    let bad = ConfigValues { retry_gap: Some(-1), ..Default::default() };
    assert_eq!(
        Args::parse(Commands::Download(cli("https://e.com/")), &bad, Some(80)),
        Err(ArgsError::OutOfRange)
    );
}
