use gmpass::config::Config;

#[test]
fn test_default_config() {
    let config = Config::default();
    assert_eq!(config.auto_lock_seconds, 300);
    assert_eq!(config.clipboard_clear_seconds, 30);
    assert!(config.backup_enabled);
    assert_eq!(config.theme, "dark");
    assert_eq!(config.default_gen_length, 20);
}

#[test]
fn test_cycle_auto_lock() {
    let mut config = Config::default();
    config.cycle_auto_lock(true);
    assert_eq!(config.auto_lock_seconds, 600);
    config.cycle_auto_lock(false);
    assert_eq!(config.auto_lock_seconds, 300);
}

#[test]
fn test_cycle_clipboard_clear() {
    let mut config = Config::default();
    config.cycle_clipboard_clear(true);
    assert_eq!(config.clipboard_clear_seconds, 60);
}

#[test]
fn test_cycle_theme() {
    let mut config = Config::default();
    assert_eq!(config.theme, "dark");
    config.cycle_theme();
    assert_eq!(config.theme, "light");
    config.cycle_theme();
    assert_eq!(config.theme, "dark");
}

#[test]
fn test_gen_length_bounds() {
    let mut config = Config::default();
    config.default_gen_length = 4;
    config.adjust_gen_length(false);
    assert_eq!(config.default_gen_length, 4);
    config.default_gen_length = 128;
    config.adjust_gen_length(true);
    assert_eq!(config.default_gen_length, 128);
}

#[test]
fn auto_lock_cycle_wraps_around() {
    let mut config = Config::default();
    config.auto_lock_seconds = 1800;
    config.cycle_auto_lock(true);
    assert_eq!(config.auto_lock_seconds, 0);
    config.cycle_auto_lock(false);
    assert_eq!(config.auto_lock_seconds, 1800);
}

#[test]
fn custom_auto_lock_counts_as_first() {
    let mut config = Config::default();
    config.auto_lock_seconds = 42;
    assert_eq!(config.auto_lock_label(), "Custom");
    config.cycle_auto_lock(true);
    assert_eq!(config.auto_lock_seconds, 60);
    assert_eq!(config.auto_lock_label(), "1 min");
}

#[test]
fn clipboard_labels() {
    let mut config = Config::default();
    assert_eq!(config.clipboard_clear_label(), "30s");
    config.clipboard_clear_seconds = 0;
    assert_eq!(config.clipboard_clear_label(), "Off");
    config.cycle_clipboard_clear(false);
    assert_eq!(config.clipboard_clear_seconds, 60);
}

#[test]
fn unknown_theme_cycles_to_light() {
    let mut config = Config::default();
    config.theme = "solarized".to_string();
    config.cycle_theme();
    assert_eq!(config.theme, "light");
}

#[test]
fn gen_length_steps_by_one() {
    let mut config = Config::default();
    config.adjust_gen_length(true);
    assert_eq!(config.default_gen_length, 21);
    config.adjust_gen_length(false);
    config.adjust_gen_length(false);
    assert_eq!(config.default_gen_length, 19);
    config.default_gen_length = 500;
    config.adjust_gen_length(true);
    assert_eq!(config.default_gen_length, 128);
}

#[test]
fn config_path_under_home() {
    assert_eq!(gmpass::config::config_path_in("/home/ann"), "/home/ann/.gmp/config.toml");
}
