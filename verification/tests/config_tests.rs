use raincloud::config::{Json, SettingsWindow};

#[test]
fn default_configuration_targets_ftp() {
    let c = Json::default();
    assert_eq!(c.server, "ftp".to_string());
    assert_eq!(c.ftp_config.ip, String::new());
    assert_eq!(c.ftp_config.user, String::new());
    assert_eq!(c.ftp_config.passwd, String::new());
    assert_eq!(c.ftp_config.port, 21);
    assert!(c.saves.is_empty());
}

#[test]
fn settings_window_starts_closed_on_first_tab() {
    let w = SettingsWindow::default();
    assert!(!w.open);
    assert_eq!(w.tab, 0);
}

#[test]
fn settings_window_switches_tabs() {
    let mut w = SettingsWindow::default();
    w.set_open(true);
    w.select_tab(2);
    assert!(w.open);
    assert_eq!(w.tab, 2);
    w.set_open(false);
    assert!(!w.open);
    assert_eq!(w.tab, 2);
}
