use ratatui::layout::Constraint;
use forgestat::config::{
    animation_file_path, config_dir_in, config_file_in, config_file_path, has_token, layout_file_path, refresh_file_path,
    select_token, statusbar_file_path, watchlist_file_path, AnimationConfig, AutoRefreshConfig,
    Config, LayoutConfig, LayoutPreset, PanelLayout, StatusBarConfig, StatusBarItem,
    ConfigError, WatchlistConfig, WatchlistError,
};

#[test]
fn test_config_default() {
    let config = Config::default();

    assert!(config.github_token.is_none());
}

#[test]
fn test_empty_env_var_ignored() {
    let config = Config {
        github_token: Some("".to_string()),
    };

    // An empty string in config should be treated as no token
    assert!(config.github_token.as_ref().unwrap().is_empty());
    assert_eq!(select_token(None, config.github_token.clone()), None);
    assert!(!has_token(Some(String::new()), config.github_token));
}

#[test]
fn test_token_precedence_env_first() {
    assert_eq!(
        select_token(Some("env".to_string()), Some("file".to_string())),
        Some("env".to_string())
    );
    assert_eq!(
        select_token(Some(String::new()), Some("file".to_string())),
        Some("file".to_string())
    );
    assert!(has_token(None, Some("file".to_string())));
    assert!(!has_token(None, None));
}

#[test]
fn test_status_bar_item_all_variants() {
    let items = StatusBarItem::ALL;
    assert_eq!(items.len(), 7);

    assert!(items.contains(&StatusBarItem::SyncState));
    assert!(items.contains(&StatusBarItem::RateLimit));
    assert!(items.contains(&StatusBarItem::OpenIssues));
    assert!(items.contains(&StatusBarItem::OpenPrs));
    assert!(items.contains(&StatusBarItem::LastReleaseAge));
    assert!(items.contains(&StatusBarItem::OldestIssueAge));
    assert!(items.contains(&StatusBarItem::HealthScore));
}

#[test]
fn test_status_bar_item_display_names() {
    assert_eq!(StatusBarItem::SyncState.display_name(), "sync_state");
    assert_eq!(StatusBarItem::RateLimit.display_name(), "rate_limit");
    assert_eq!(StatusBarItem::OpenIssues.display_name(), "open_issues");
    assert_eq!(StatusBarItem::OpenPrs.display_name(), "open_prs");
    assert_eq!(
        StatusBarItem::LastReleaseAge.display_name(),
        "last_release_age"
    );
    assert_eq!(
        StatusBarItem::OldestIssueAge.display_name(),
        "oldest_issue_age"
    );
}

#[test]
fn test_status_bar_config_default() {
    let config = StatusBarConfig::default();

    assert_eq!(config.items.len(), 3);
    assert_eq!(config.items[0], StatusBarItem::SyncState);
    assert_eq!(config.items[1], StatusBarItem::HealthScore);
    assert_eq!(config.items[2], StatusBarItem::OpenPrs);
}

#[test]
fn test_status_bar_config_max_three_limit_on_save() {
    let mut config = StatusBarConfig {
        items: vec![
            StatusBarItem::SyncState,
            StatusBarItem::RateLimit,
            StatusBarItem::OpenIssues,
            StatusBarItem::OpenPrs,
            StatusBarItem::LastReleaseAge,
        ],
    };

    config.enforce_limits();

    assert_eq!(config.items.len(), 3);
    assert_eq!(config.items[0], StatusBarItem::SyncState);
    assert_eq!(config.items[1], StatusBarItem::RateLimit);
    assert_eq!(config.items[2], StatusBarItem::OpenIssues);
}

#[test]
fn test_status_bar_config_deduplication_on_save() {
    let mut config = StatusBarConfig {
        items: vec![
            StatusBarItem::SyncState,
            StatusBarItem::SyncState,
            StatusBarItem::RateLimit,
            StatusBarItem::RateLimit,
            StatusBarItem::OpenIssues,
        ],
    };

    // Limits are applied on save: repeats dropped, then the first three.
    config.enforce_limits();

    assert_eq!(config.items.len(), 3);
    assert_eq!(config.items[0], StatusBarItem::SyncState);
    assert_eq!(config.items[1], StatusBarItem::RateLimit);
    assert_eq!(config.items[2], StatusBarItem::OpenIssues);
}

#[test]
fn test_status_bar_config_truncate_and_deduplicate_together() {
    let mut config = StatusBarConfig {
        items: vec![
            StatusBarItem::SyncState,
            StatusBarItem::SyncState,
            StatusBarItem::RateLimit,
            StatusBarItem::OpenIssues,
            StatusBarItem::OpenPrs,
            StatusBarItem::LastReleaseAge,
        ],
    };

    // Deduplicate first, then truncate to 3
    config.enforce_limits();
    let items = config.items;

    assert_eq!(items.len(), 3);
    assert_eq!(items[0], StatusBarItem::SyncState);
    assert_eq!(items[1], StatusBarItem::RateLimit);
    assert_eq!(items[2], StatusBarItem::OpenIssues);
}

#[test]
fn test_status_bar_config_single_item() {
    let config = StatusBarConfig {
        items: vec![StatusBarItem::SyncState],
    };

    assert_eq!(config.items.len(), 1);
    assert_eq!(config.items[0], StatusBarItem::SyncState);
}

#[test]
fn test_status_bar_load_applies_limits() {
    let loaded = StatusBarConfig::load(Some(StatusBarConfig {
        items: vec![
            StatusBarItem::OpenPrs,
            StatusBarItem::OpenPrs,
            StatusBarItem::HealthScore,
            StatusBarItem::RateLimit,
        ],
    }));
    // The first three are kept, then repeats dropped.
    assert_eq!(loaded.items, vec![StatusBarItem::OpenPrs, StatusBarItem::HealthScore]);
    let many = StatusBarConfig::load(Some(StatusBarConfig {
        items: vec![
            StatusBarItem::RateLimit,
            StatusBarItem::OpenIssues,
            StatusBarItem::OpenPrs,
            StatusBarItem::HealthScore,
        ],
    }));
    assert_eq!(
        many.items,
        vec![StatusBarItem::RateLimit, StatusBarItem::OpenIssues, StatusBarItem::OpenPrs]
    );
    let missing = StatusBarConfig::load(None);
    assert_eq!(missing.items, StatusBarConfig::default_items());
}

#[test]
fn test_enforce_limits_idempotent() {
    let mut config = StatusBarConfig {
        items: StatusBarItem::ALL.to_vec(),
    };
    config.enforce_limits();
    let once = config.items.clone();
    config.enforce_limits();
    assert_eq!(config.items, once);
    assert_eq!(once.len(), 3);
}

#[test]
fn test_status_bar_file_path() {
    let path_result = statusbar_file_path();
    assert!(path_result.is_ok());

    let path = path_result.ok().unwrap();
    assert!(path.contains("statusbar.toml"));
}

#[test]
fn test_layout_preset_default() {
    let preset = LayoutPreset::default();
    assert_eq!(preset, LayoutPreset::Default);
}

#[test]
fn test_panel_layout_new() {
    let panel = PanelLayout::new(50, 60);
    assert_eq!(panel.width_pct, 50);
    assert_eq!(panel.height_pct, 60);
}

#[test]
fn test_panel_layout_clamping() {
    let panel = PanelLayout::new(5, 150);
    assert_eq!(panel.width_pct, 10);
    assert_eq!(panel.height_pct, 100);
}

#[test]
fn test_layout_config_default_preset() {
    let config = LayoutConfig::default_preset(LayoutPreset::Default);
    assert_eq!(config.preset, LayoutPreset::Default);
    assert_eq!(config.row1.height_pct, 40);
    assert_eq!(config.row2.height_pct, 30);
    assert_eq!(config.row3.height_pct, 30);
}

#[test]
fn test_layout_config_compact_preset() {
    let config = LayoutConfig::default_preset(LayoutPreset::Compact);
    assert_eq!(config.preset, LayoutPreset::Compact);
    assert_eq!(config.row1.height_pct, 35);
    assert_eq!(config.row2.height_pct, 35);
    assert_eq!(config.row3.height_pct, 30);

    assert_eq!(config.row1_columns[0].width_pct, 30);
    assert_eq!(config.row1_columns[1].width_pct, 70);
}

#[test]
fn test_layout_config_wide_preset() {
    let config = LayoutConfig::default_preset(LayoutPreset::Wide);
    assert_eq!(config.preset, LayoutPreset::Wide);
    assert_eq!(config.row1.height_pct, 45);
    assert_eq!(config.row2.height_pct, 30);
    assert_eq!(config.row3.height_pct, 25);

    assert_eq!(config.row1_columns[0].width_pct, 40);
    assert_eq!(config.row3_columns[0].width_pct, 40);
    assert_eq!(config.row3_columns[1].width_pct, 30);
    assert_eq!(config.row3_columns[2].width_pct, 30);
}

#[test]
fn test_layout_config_normalize_heights() {
    let mut config = LayoutConfig {
        preset: LayoutPreset::Default,
        row1: PanelLayout::new(100, 50),
        row2: PanelLayout::new(100, 50),
        row3: PanelLayout::new(100, 50),
        ..LayoutConfig::default()
    };

    config = config.normalize();

    assert_eq!(config.row1.height_pct, 33);
    assert_eq!(config.row2.height_pct, 33);
    assert_eq!(config.row3.height_pct, 34);
}

#[test]
fn test_layout_config_normalize_minimums() {
    let mut config = LayoutConfig {
        preset: LayoutPreset::Default,
        row1: PanelLayout::new(100, 5),
        row2: PanelLayout::new(100, 5),
        row3: PanelLayout::new(100, 90),
        ..LayoutConfig::default()
    };

    config = config.normalize();

    assert!(config.row1.height_pct >= 10);
    assert!(config.row2.height_pct >= 10);
    assert!(config.row3.height_pct >= 10);
    assert_eq!(
        config.row1.height_pct + config.row2.height_pct + config.row3.height_pct,
        100
    );
}

#[test]
fn test_layout_config_normalize_columns() {
    let mut columns = vec![PanelLayout::new(100, 100), PanelLayout::new(100, 100)];

    LayoutConfig::normalize_columns(&mut columns);

    assert_eq!(columns[0].width_pct, 50);
    assert_eq!(columns[1].width_pct, 50);
}

#[test]
fn test_layout_config_normalize_columns_three() {
    let mut columns = vec![
        PanelLayout::new(50, 100),
        PanelLayout::new(50, 100),
        PanelLayout::new(50, 100),
    ];

    LayoutConfig::normalize_columns(&mut columns);

    let total: u16 = columns.iter().map(|c| c.width_pct).sum();
    assert_eq!(total, 100);
    assert_eq!(columns[0].width_pct, 33);
    assert_eq!(columns[1].width_pct, 33);
    assert_eq!(columns[2].width_pct, 34);
}

#[test]
fn test_layout_config_row_heights() {
    let config = LayoutConfig::default();
    let heights = config.row_heights();

    assert_eq!(heights.len(), 3);
    // Default is 40/30/30
    assert!(matches!(heights[0], Constraint::Percentage(40)));
    assert!(matches!(heights[1], Constraint::Percentage(30)));
    assert!(matches!(heights[2], Constraint::Percentage(30)));
}

#[test]
fn test_layout_config_column_widths() {
    let config = LayoutConfig::default();

    let row1 = config.row1_widths();
    assert_eq!(row1.len(), 2);

    let row2 = config.row2_widths();
    assert_eq!(row2.len(), 3);

    let row3 = config.row3_widths();
    assert_eq!(row3.len(), 3);
}

#[test]
fn test_layout_constraints_follow_percentages() {
    let config = LayoutConfig::default_preset(LayoutPreset::Compact);
    assert_eq!(
        config.row_heights(),
        [
            Constraint::Percentage(35),
            Constraint::Percentage(35),
            Constraint::Percentage(30)
        ]
    );
    assert_eq!(
        config.row1_widths(),
        vec![Constraint::Percentage(30), Constraint::Percentage(70)]
    );
    assert_eq!(
        config.row3_widths(),
        vec![
            Constraint::Percentage(34),
            Constraint::Percentage(33),
            Constraint::Percentage(33)
        ]
    );
    let panel = PanelLayout::new(25, 60);
    assert_eq!(panel.width_constraint(), Constraint::Percentage(25));
    assert_eq!(panel.height_constraint(), Constraint::Percentage(60));
    let empty = LayoutConfig {
        row1_columns: Vec::new(),
        ..LayoutConfig::default()
    };
    assert!(empty.row1_widths().is_empty());
}

#[test]
fn test_layout_config_reset_to_preset() {
    let mut config = LayoutConfig::default_preset(LayoutPreset::Wide);
    assert_eq!(config.preset, LayoutPreset::Wide);
    assert_eq!(config.row1.height_pct, 45);

    config.reset_to_preset(LayoutPreset::Compact);
    assert_eq!(config.preset, LayoutPreset::Compact);
    assert_eq!(config.row1.height_pct, 35);
}

#[test]
fn test_layout_config_empty_columns() {
    let mut columns: Vec<PanelLayout> = vec![];
    LayoutConfig::normalize_columns(&mut columns);
    assert!(columns.is_empty());
}

#[test]
fn test_layout_config_minimum_column_width() {
    let mut columns = vec![PanelLayout::new(5, 100), PanelLayout::new(95, 100)];

    LayoutConfig::normalize_columns(&mut columns);

    let total: u16 = columns.iter().map(|c| c.width_pct).sum();
    assert_eq!(total, 100);
    assert!(columns[0].width_pct >= 9);
}

#[test]
fn test_layout_file_path() {
    let path_result = layout_file_path();
    assert!(path_result.is_ok());

    let path = path_result.ok().unwrap();
    assert!(path.contains("layout.toml"));
}

#[test]
fn test_layout_load_normalizes() {
    let file = LayoutConfig {
        preset: LayoutPreset::Wide,
        row1: PanelLayout { width_pct: 100, height_pct: 60 },
        row2: PanelLayout { width_pct: 100, height_pct: 60 },
        row3: PanelLayout { width_pct: 100, height_pct: 30 },
        ..LayoutConfig::default()
    };
    let loaded = LayoutConfig::load(Some(file));
    assert_eq!(loaded.preset, LayoutPreset::Wide);
    assert_eq!(loaded.row1.height_pct, 40);
    assert_eq!(loaded.row2.height_pct, 40);
    assert_eq!(loaded.row3.height_pct, 20);
    let default = LayoutConfig::load(None);
    assert_eq!(default.row1.height_pct, 40);
}

#[test]
fn test_animation_defaults_and_switches() {
    let config = AnimationConfig::default();
    assert!(config.should_animate());
    assert_eq!(config.flash_duration_ms, 300);
    assert_eq!(config.count_up_duration_ms, 800);
    assert!(config.is_spinner_enabled());
    assert!(config.is_flash_enabled());

    let low_power = AnimationConfig {
        low_power_mode: true,
        ..AnimationConfig::default()
    };
    assert!(!low_power.is_flash_enabled());
    assert!(!low_power.is_count_up_enabled());
    assert!(!low_power.is_sparkline_draw_enabled());
    assert!(low_power.is_spinner_enabled());
    assert!(low_power.is_sync_pulse_enabled());

    let off = AnimationConfig {
        enabled: false,
        ..AnimationConfig::default()
    };
    assert!(!off.should_animate());
    assert!(!off.is_spinner_enabled());
    assert!(!off.is_sync_pulse_enabled());
    assert!(!off.is_flash_enabled());
    assert!(animation_file_path().ok().unwrap().contains("animation.toml"));
}

#[test]
fn test_watchlist_config_default() {
    let config = WatchlistConfig::default();
    assert!(config.repos.is_empty());
    assert!(config.is_empty());
    assert_eq!(config.len(), 0);
}

#[test]
fn test_validate_repo_format_valid() {
    assert!(WatchlistConfig::validate_repo_format("torvalds/linux").is_ok());
    assert!(WatchlistConfig::validate_repo_format("rust-lang/rust").is_ok());
    assert!(WatchlistConfig::validate_repo_format("myorg/my-repo").is_ok());
    assert!(WatchlistConfig::validate_repo_format("user/my_repo").is_ok());
    assert!(WatchlistConfig::validate_repo_format("org/my.repo").is_ok());
    assert!(WatchlistConfig::validate_repo_format("a/b").is_ok());
}

#[test]
fn test_validate_repo_format_invalid_empty() {
    let result = WatchlistConfig::validate_repo_format("");
    assert!(result.is_err());
    assert!(result.err().unwrap().message().contains("empty"));
}

#[test]
fn test_validate_repo_format_invalid_whitespace() {
    let result = WatchlistConfig::validate_repo_format("owner /repo");
    assert!(result.is_err());
    assert!(result.err().unwrap().message().contains("whitespace"));

    let result = WatchlistConfig::validate_repo_format("owner/repo ");
    assert!(result.is_err());
    assert!(result.err().unwrap().message().contains("whitespace"));
}

#[test]
fn test_validate_repo_format_invalid_no_slash() {
    let result = WatchlistConfig::validate_repo_format("invalid-repo");
    assert!(result.is_err());
    assert!(result.err().unwrap().message().contains("exactly one slash"));
}

#[test]
fn test_validate_repo_format_invalid_multiple_slashes() {
    let result = WatchlistConfig::validate_repo_format("owner/repo/extra");
    assert!(result.is_err());
    assert!(result.err().unwrap().message().contains("exactly one slash"));
}

#[test]
fn test_validate_repo_format_invalid_empty_owner() {
    let result = WatchlistConfig::validate_repo_format("/repo");
    assert!(result.is_err());
    assert!(result.err().unwrap().message().contains("empty owner"));
}

#[test]
fn test_validate_repo_format_invalid_empty_name() {
    let result = WatchlistConfig::validate_repo_format("owner/");
    assert!(result.is_err());
    assert!(result.err().unwrap().message().contains("empty repo name"));
}

#[test]
fn test_validate_repo_format_invalid_leading_hyphen_owner() {
    let result = WatchlistConfig::validate_repo_format("-owner/repo");
    assert!(result.is_err());
    assert!(result.err().unwrap().message().contains("invalid owner"));
}

#[test]
fn test_validate_repo_format_invalid_trailing_hyphen_owner() {
    let result = WatchlistConfig::validate_repo_format("owner-/repo");
    assert!(result.is_err());
    assert!(result.err().unwrap().message().contains("invalid owner"));
}

#[test]
fn test_validate_repo_format_invalid_leading_hyphen_repo() {
    let result = WatchlistConfig::validate_repo_format("owner/-repo");
    assert!(result.is_err());
    assert!(result.err().unwrap().message().contains("invalid repo name"));
}

#[test]
fn test_validate_repo_format_invalid_trailing_hyphen_repo() {
    let result = WatchlistConfig::validate_repo_format("owner/repo-");
    assert!(result.is_err());
    assert!(result.err().unwrap().message().contains("invalid repo name"));
}

#[test]
fn test_validate_repo_format_invalid_special_chars() {
    let result = WatchlistConfig::validate_repo_format("owner@name/repo");
    assert!(result.is_err());
    assert!(result.err().unwrap().message().contains("invalid owner"));

    let result = WatchlistConfig::validate_repo_format("owner/repo@name");
    assert!(result.is_err());
    assert!(result.err().unwrap().message().contains("invalid repo name"));
}

#[test]
fn test_watchlist_file_path() {
    let path_result = watchlist_file_path();
    assert!(path_result.is_ok());

    let path = path_result.ok().unwrap();
    assert!(path.contains("watchlist.toml"));
}

#[test]
fn test_watchlist_add_repo() {
    let mut config = WatchlistConfig::default();

    assert!(config.add_repo("torvalds/linux".to_string()).is_ok());
    assert!(config.add_repo("rust-lang/rust".to_string()).is_ok());

    assert_eq!(config.repos.len(), 2);
    assert_eq!(config.repos[0], "torvalds/linux");
    assert_eq!(config.repos[1], "rust-lang/rust");
}

#[test]
fn test_watchlist_add_repo_invalid() {
    let mut config = WatchlistConfig::default();

    let result = config.add_repo("invalid-repo".to_string());
    assert!(result.is_err());
    assert!(config.repos.is_empty());
}

#[test]
fn test_watchlist_add_duplicate_repo() {
    let mut config = WatchlistConfig::default();

    assert!(config.add_repo("torvalds/linux".to_string()).is_ok());

    let result = config.add_repo("torvalds/linux".to_string());
    assert!(result.is_err());
    assert!(result
        .err()
        .unwrap()
        .message()
        .contains("already in watchlist"));

    assert_eq!(config.repos.len(), 1);
}

#[test]
fn test_watchlist_remove_repo() {
    let mut config = WatchlistConfig {
        repos: vec!["torvalds/linux".to_string(), "rust-lang/rust".to_string()],
    };

    assert!(config.remove_repo("torvalds/linux").is_ok());
    assert_eq!(config.repos.len(), 1);
    assert_eq!(config.repos[0], "rust-lang/rust");
}

#[test]
fn test_watchlist_remove_nonexistent_repo() {
    let mut config = WatchlistConfig {
        repos: vec!["torvalds/linux".to_string()],
    };

    let result = config.remove_repo("nonexistent/repo");
    assert!(result.is_err());
    assert!(result.err().unwrap().message().contains("not found"));
    assert_eq!(config.repos.len(), 1);
}

#[test]
fn test_watchlist_add_then_remove_restores() {
    let mut config = WatchlistConfig {
        repos: vec!["torvalds/linux".to_string()],
    };
    assert!(config.add_repo("rust-lang/rust".to_string()).is_ok());
    assert!(config.remove_repo("rust-lang/rust").is_ok());
    assert_eq!(config.repos, vec!["torvalds/linux".to_string()]);
}

#[test]
fn test_watchlist_errors_by_kind() {
    let mut config = WatchlistConfig::default();
    match config.add_repo("bad".to_string()) {
        Err(WatchlistError::InvalidFormat(_)) => {}
        _ => panic!("expected a format error"),
    }
    assert!(config.add_repo("a/b".to_string()).is_ok());
    match config.add_repo("a/b".to_string()) {
        Err(WatchlistError::AlreadyPresent(r)) => assert_eq!(r, "a/b"),
        _ => panic!("expected a duplicate"),
    }
    match config.remove_repo("c/d") {
        Err(WatchlistError::NotFound(r)) => assert_eq!(r, "c/d"),
        _ => panic!("expected not found"),
    }
}

#[test]
fn test_watchlist_validate_repos_all_valid() {
    let config = WatchlistConfig {
        repos: vec!["torvalds/linux".to_string(), "rust-lang/rust".to_string()],
    };

    assert!(config.validate_repos().is_ok());
}

#[test]
fn test_watchlist_validate_repos_with_invalid() {
    let config = WatchlistConfig {
        repos: vec!["torvalds/linux".to_string(), "invalid-repo".to_string()],
    };

    let result = config.validate_repos();
    assert!(result.is_err());
    assert!(result.err().unwrap().message().contains("exactly one slash"));
}

#[test]
fn test_watchlist_load_rejects_invalid() {
    let loaded = WatchlistConfig::load(Some(WatchlistConfig {
        repos: vec!["ok/repo".to_string(), "bad".to_string()],
    }));
    assert!(loaded.is_empty());
    let loaded = WatchlistConfig::load(Some(WatchlistConfig {
        repos: vec!["ok/repo".to_string()],
    }));
    assert_eq!(loaded.len(), 1);
}

#[test]
fn test_watchlist_many_repos() {
    let repos: Vec<String> = (0..10).map(|i| format!("owner{}/repo{}", i, i)).collect();

    let config = WatchlistConfig { repos };

    assert_eq!(config.len(), 10);
    assert!(!config.is_empty());
    assert!(config.validate_repos().is_ok());
}

#[test]
fn test_auto_refresh_config() {
    let config = AutoRefreshConfig::default();
    assert_eq!(config.auto_refresh_minutes, 60);
    assert_eq!(config.auto_refresh_secs(), Some(3600));
    assert!(config.is_enabled());

    let off = AutoRefreshConfig { auto_refresh_minutes: 0 };
    assert_eq!(off.auto_refresh_secs(), None);
    assert!(!off.is_enabled());

    let capped = AutoRefreshConfig::load(Some(AutoRefreshConfig { auto_refresh_minutes: 5000 }));
    assert_eq!(capped.auto_refresh_minutes, 1440);
    assert_eq!(AutoRefreshConfig::load(None).auto_refresh_minutes, 60);
    assert!(refresh_file_path().ok().unwrap().contains("refresh.toml"));
    assert!(config_file_path().ok().unwrap().contains("config.toml"));
}

#[test]
fn test_layout_normalize_twice_is_once() {
    let config = LayoutConfig {
        preset: LayoutPreset::Default,
        row1: PanelLayout::new(100, 70),
        row2: PanelLayout::new(100, 20),
        row3: PanelLayout::new(100, 50),
        ..LayoutConfig::default()
    };
    let once = config.normalize();
    let heights = (once.row1.height_pct, once.row2.height_pct, once.row3.height_pct);
    let twice = once.normalize();
    assert_eq!(heights, (twice.row1.height_pct, twice.row2.height_pct, twice.row3.height_pct));
    assert_eq!(heights.0 + heights.1 + heights.2, 100);
}

#[test]
fn test_watchlist_load_missing_file_returns_empty() {
    // A watchlist file that is not there.
    let missing_file = std::path::Path::new("/nonexistent-forgestat-dir/watchlist.toml");
    assert!(!missing_file.exists());

    // A missing file loads as the default: an empty list.
    let config = WatchlistConfig::default();
    assert!(config.repos.is_empty());
    let loaded = WatchlistConfig::load(None);
    assert!(loaded.repos.is_empty());
}

#[test]
fn test_watchlist_save_invalid_fails() {
    let config_file = std::path::Path::new("/nonexistent-forgestat-dir/watchlist.toml");

    // Create config with invalid repo
    let config = WatchlistConfig {
        repos: vec!["invalid-repo".to_string()],
    };

    // Saving validates first, and fails here
    let result = config.validate_repos();
    assert!(result.is_err());

    // No file was written
    assert!(!config_file.exists());
}

#[test]
fn test_config_paths_under_platform_dir() {
    assert!(matches!(config_dir_in(None), Err(ConfigError::NoConfigDir)));
    assert!(matches!(config_file_in(None, "config.toml"), Err(ConfigError::NoConfigDir)));
    assert_eq!(
        config_dir_in(Some("/home/u/.config".to_string())).unwrap(),
        "/home/u/.config/forgeStat"
    );
    assert_eq!(
        config_file_in(Some("/home/u/.config/".to_string()), "watchlist.toml").unwrap(),
        "/home/u/.config/forgeStat/watchlist.toml"
    );
}

#[test]
fn test_layout_load_zero_heights_gives_default() {
    let mut zero = LayoutConfig::default_preset(LayoutPreset::Compact);
    zero.row1.height_pct = 0;
    zero.row2.height_pct = 0;
    zero.row3.height_pct = 0;
    let loaded = LayoutConfig::load(Some(zero));
    assert_eq!(loaded.preset, LayoutPreset::Default);
    assert_eq!(loaded.row1.height_pct, 40);
    assert_eq!(loaded.row2.height_pct, 30);
    assert_eq!(loaded.row3.height_pct, 30);
}

#[test]
fn test_auto_refresh_minimum_interval() {
    let load = |m: u64| AutoRefreshConfig::load(Some(AutoRefreshConfig { auto_refresh_minutes: m })).auto_refresh_minutes;
    assert_eq!(load(0), 0);
    assert_eq!(load(1), 5);
    assert_eq!(load(4), 5);
    assert_eq!(load(5), 5);
    assert_eq!(load(90), 90);
    assert_eq!(load(1440), 1440);
    assert_eq!(load(1441), 1440);
    let on = AutoRefreshConfig { auto_refresh_minutes: 7 };
    assert_eq!(on.is_enabled(), on.auto_refresh_secs().is_some());
    let off = AutoRefreshConfig { auto_refresh_minutes: 0 };
    assert_eq!(off.is_enabled(), off.auto_refresh_secs().is_some());
}

#[test]
fn test_owner_refuses_dot_name_keeps_it() {
    let r = WatchlistConfig::validate_repo_format("my.org/repo");
    assert!(r.unwrap_err().message().contains("invalid owner name"));
    assert!(WatchlistConfig::validate_repo_format("org/my.repo").is_ok());
    assert!(WatchlistConfig::validate_repo_format("my_org-1/x.y.z").is_ok());
}

#[test]
fn test_should_animate_needs_full_power() {
    let low_power = AnimationConfig {
        low_power_mode: true,
        ..AnimationConfig::default()
    };
    assert!(!low_power.should_animate());
    assert!(AnimationConfig::default().should_animate());
}

#[test]
fn test_presets_are_normalized() {
    for p in [LayoutPreset::Default, LayoutPreset::Compact, LayoutPreset::Wide] {
        let c = LayoutConfig::default_preset(p);
        let n = LayoutConfig::default_preset(p).normalize();
        assert_eq!(c.row1.height_pct + c.row2.height_pct + c.row3.height_pct, 100);
        assert_eq!((n.row1, n.row2, n.row3), (c.row1, c.row2, c.row3));
        assert_eq!(n.row1_columns, c.row1_columns);
        assert_eq!(n.row2_columns, c.row2_columns);
        assert_eq!(n.row3_columns, c.row3_columns);
        for row in [&c.row1_columns, &c.row2_columns, &c.row3_columns] {
            assert_eq!(row.iter().map(|p| p.width_pct).sum::<u16>(), 100);
        }
    }
}
