use fast_down::config::{TaskConfig, TaskEntry, TaskSettings};

fn h(name: &str, value: &str) -> (String, String) {
    (name.to_string(), value.to_string())
}

fn entry(url: &str) -> TaskEntry {
    TaskEntry {
        url: url.to_string(),
        ..Default::default()
    }
}

#[test]
fn defaults_of_a_task() {
    let config = TaskConfig { global: None, tasks: vec![entry("https://e.com/a")] };
    let all = config.parse("/base");
    assert_eq!(all.len(), 1);
    let args = &all[0];
    assert_eq!(args.url, "https://e.com/a");
    assert!(!args.force);
    assert!(!args.resume);
    assert_eq!(args.save_folder, "/base");
    assert_eq!(args.threads, 8);
    assert_eq!(args.file_name, None);
    assert_eq!(args.proxy, None);
    assert!(args.headers.is_empty());
    assert_eq!(args.write_buffer_size, 8 * 1024 * 1024);
    assert_eq!(args.write_queue_cap, 10240);
    assert_eq!(args.repaint_gap, 500);
    assert_eq!(args.progress_width, 0);
    assert_eq!(args.retry_gap, 1000);
    assert_eq!(args.pull_timeout, 5000);
    assert_eq!(args.min_chunk_size, 1024);
    assert!(args.browser);
    assert!(!args.yes);
    assert!(!args.no);
    assert!(!args.verbose);
    assert!(!args.multiplexing);
    assert!(!args.accept_invalid_certs);
    assert!(!args.accept_invalid_hostnames);
}

#[test]
fn own_settings_go_before_shared_ones() {
    let global = TaskSettings {
        force: Some(true),
        resume: Some(true),
        threads: Some(16),
        proxy: Some("http://shared".to_string()),
        headers: Some(vec![h("X-Shared", "1"), h("bad name", "2")]),
        write_buffer_size: Some(1),
        write_queue_cap: Some(2),
        retry_gap: Some(3),
        browser: Some(false),
        yes: Some(true),
        no: Some(true),
        verbose: Some(true),
        multiplexing: Some(true),
        accept_invalid_certs: Some(true),
        accept_invalid_hostnames: Some(true),
        ..Default::default()
    };
    let own = TaskEntry {
        force: Some(false),
        threads: Some(2),
        file_name: Some("own.bin".to_string()),
        proxy: Some("http://own".to_string()),
        headers: Some(vec![h("X-Own", "1")]),
        retry_gap: Some(9),
        yes: Some(false),
        ..entry("https://e.com/own")
    };
    let config = TaskConfig {
        global: Some(global),
        tasks: vec![entry("https://e.com/plain"), own],
    };
    let all = config.parse("/base");
    assert_eq!(all.len(), 2);
    let plain = &all[0];
    assert!(plain.force);
    assert!(plain.resume);
    assert_eq!(plain.threads, 16);
    assert_eq!(plain.proxy, Some("http://shared".to_string()));
    assert_eq!(plain.headers, vec![h("X-Shared", "1")]);
    assert_eq!(plain.write_buffer_size, 1);
    assert_eq!(plain.write_queue_cap, 2);
    assert_eq!(plain.retry_gap, 3);
    assert!(!plain.browser);
    assert!(plain.yes);
    assert!(plain.no);
    assert!(plain.verbose);
    assert!(plain.multiplexing);
    assert!(plain.accept_invalid_certs);
    assert!(plain.accept_invalid_hostnames);
    assert_eq!(plain.file_name, None);
    let own = &all[1];
    assert_eq!(own.url, "https://e.com/own");
    assert!(!own.force);
    assert!(own.resume);
    assert_eq!(own.threads, 2);
    assert_eq!(own.file_name, Some("own.bin".to_string()));
    assert_eq!(own.proxy, Some("http://own".to_string()));
    assert_eq!(own.headers, vec![h("X-Own", "1")]);
    assert_eq!(own.retry_gap, 9);
    assert!(!own.yes);
    assert!(own.no);
}

#[test]
fn save_folder_is_taken_from_the_base() {
    let global = TaskSettings {
        save_folder: Some("shared".to_string()),
        ..Default::default()
    };
    let own = TaskEntry {
        save_folder: Some("own".to_string()),
        ..entry("u")
    };
    let config = TaskConfig {
        global: Some(global),
        tasks: vec![entry("u"), own.clone()],
    };
    let base = std::path::Path::new("base");
    assert_eq!(
        std::path::PathBuf::from(config.get_save_folder(&config.tasks[0], "base")),
        base.join("shared")
    );
    assert_eq!(
        std::path::PathBuf::from(config.get_save_folder(&config.tasks[1], "base")),
        base.join("own")
    );
    assert_eq!(config.chosen_folder(&config.tasks[0]), Some(&"shared".to_string()));
    assert_eq!(config.chosen_folder(&config.tasks[1]), Some(&"own".to_string()));
    let bare = TaskConfig { global: None, tasks: vec![entry("u")] };
    assert_eq!(bare.get_save_folder(&bare.tasks[0], "base"), "base");
    assert_eq!(bare.chosen_folder(&bare.tasks[0]), None);
}

#[test]
fn absolute_save_folder_stands_alone() {
    let root = if std::path::Path::new("/abs").is_absolute() { "/abs/dir" } else { "C:\\abs\\dir" };
    let own = TaskEntry {
        save_folder: Some(root.to_string()),
        ..entry("u")
    };
    let config = TaskConfig { global: None, tasks: vec![own] };
    assert_eq!(config.get_save_folder(&config.tasks[0], "base"), root);
    assert_eq!(config.parse("base")[0].save_folder, root);
}

#[test]
fn placing_a_folder() {
    let f = "dir".to_string();
    assert_eq!(TaskConfig::place_folder(Some(&f), true, "base", "base/dir"), "dir");
    assert_eq!(TaskConfig::place_folder(Some(&f), false, "base", "base/dir"), "base/dir");
    assert_eq!(TaskConfig::place_folder(None, false, "base", "x"), "base");
    assert_eq!(TaskConfig::place_folder(None, true, "base", "x"), "base");
}

#[test]
fn parallel_tasks_default_to_six() {
    let bare = TaskConfig { global: None, tasks: vec![] };
    assert_eq!(bare.parallel_tasks(), 6);
    assert_eq!(bare.parse("base").len(), 0);
    let unset = TaskConfig { global: Some(TaskSettings::default()), tasks: vec![] };
    assert_eq!(unset.parallel_tasks(), 6);
    let set = TaskConfig {
        global: Some(TaskSettings { parallel_tasks: Some(2), ..Default::default() }),
        tasks: vec![],
    };
    assert_eq!(set.parallel_tasks(), 2);
}
