use slayfi::entry::Application;
use slayfi::entry::EntryKind;
use slayfi::entry::RawDesktopEntry;
use slayfi::entry::ScanSettings;
use slayfi::entry::SlayfiConfig;
use slayfi::filter::VisibilityDecision;
use slayfi::icon::icon_path_from;
use slayfi::icon::resolve_icon;
use slayfi::scan::CandidateFile;
use slayfi::scan::collect_applications;
use slayfi::scan::is_desktop_file;
use slayfi::scan::parse_application;

fn entry() -> RawDesktopEntry {
    RawDesktopEntry {
        entry_type: EntryKind::Application,
        name: "App".to_string(),
        comment: "".to_string(),
        icon: None,
        exec_cmd: Some("app".to_string()),
        terminal: None,
        hidden: None,
        no_display: None,
        only_show_in: Vec::new(),
        not_show_in: Vec::new(),
    }
}

fn de() -> String {
    "Hyprland".to_string()
}

#[test]
fn plain_application_is_accepted() {
    assert_eq!(entry().visibility_decision(&de()), VisibilityDecision::Accept);
    assert!(entry().should_display(&de()));
}

#[test]
fn non_application_kinds_are_rejected() {
    let mut e = entry();
    e.entry_type = EntryKind::Link;
    assert_eq!(e.visibility_decision(&de()), VisibilityDecision::NotApplication);
}

#[test]
fn missing_exec_is_rejected() {
    let mut e = entry();
    e.exec_cmd = None;
    assert_eq!(e.visibility_decision(&de()), VisibilityDecision::NoExec);
}

#[test]
fn hidden_and_no_display_are_rejected_whatever_else_holds() {
    let mut e = entry();
    e.hidden = Some(true);
    assert_eq!(e.visibility_decision(&de()), VisibilityDecision::Hidden);
    let mut e2 = entry();
    e2.no_display = Some(true);
    e2.only_show_in = vec!["Hyprland".to_string()];
    assert_eq!(e2.visibility_decision(&de()), VisibilityDecision::Hidden);
    let mut e3 = entry();
    e3.hidden = Some(false);
    e3.no_display = Some(false);
    assert_eq!(e3.visibility_decision(&de()), VisibilityDecision::Accept);
}

#[test]
fn only_show_in_rejects_other_environments_and_empty_never_does() {
    let mut e = entry();
    e.only_show_in = vec!["KDE".to_string(), "GNOME".to_string()];
    assert_eq!(e.visibility_decision(&de()), VisibilityDecision::NotInOnlyShowIn);
    e.only_show_in = vec!["Hyprland".to_string()];
    assert_eq!(e.visibility_decision(&de()), VisibilityDecision::Accept);
    e.only_show_in = Vec::new();
    assert_eq!(e.visibility_decision(&de()), VisibilityDecision::Accept);
}

#[test]
fn not_show_in_rejects_the_named_environment() {
    let mut e = entry();
    e.not_show_in = vec!["Hyprland".to_string()];
    assert_eq!(e.visibility_decision(&de()), VisibilityDecision::InNotShowIn);
    e.not_show_in = vec!["KDE".to_string()];
    assert_eq!(e.visibility_decision(&de()), VisibilityDecision::Accept);
}

#[test]
fn desktop_suffix_is_required() {
    assert!(is_desktop_file(&"/usr/share/applications/a.desktop".to_string()));
    assert!(!is_desktop_file(&"/usr/share/applications/readme.txt".to_string()));
    assert!(!is_desktop_file(&"desktop".to_string()));
}

fn settings() -> ScanSettings {
    ScanSettings {
        lookup_dirs: vec!["/usr/share/applications".to_string()],
        desktop_environment: "Hyprland".to_string(),
        terminal_app: "kitty".to_string(),
        icon_theme_fallback: "".to_string(),
    }
}

#[test]
fn scan_keeps_only_the_visible_desktop_entry() {
    let files = vec![
        CandidateFile {
            path: "/apps/good.desktop".to_string(),
            content: "[Desktop Entry]\nType=Application\nName=Good\nExec=good\n".to_string(),
        },
        CandidateFile {
            path: "/apps/hidden.desktop".to_string(),
            content: "[Desktop Entry]\nType=Application\nName=Bad\nExec=bad\nHidden=true\n"
                .to_string(),
        },
        CandidateFile {
            path: "/apps/notes.txt".to_string(),
            content: "[Desktop Entry]\nType=Application\nName=Txt\nExec=txt\n".to_string(),
        },
    ];
    let apps = collect_applications(&files, &settings());
    assert_eq!(apps.len(), 1);
    assert_eq!(apps[0].name, "Good");
    assert_eq!(apps[0].exec_cmd, "good");
    assert_eq!(apps[0].icon, "");
}

#[test]
fn pipeline_applies_terminal_prefix_and_sanitizing() {
    let content =
        "[Desktop Entry]\nType=Application\nName=htop\nExec=htop %F\nTerminal=true\n";
    let a = parse_application(content, &de(), &"kitty".to_string(), &"".to_string()).unwrap();
    assert_eq!(a.name, "htop");
    assert_eq!(a.exec_cmd, "kitty htop");
}

#[test]
fn pipeline_skips_unparsable_and_filtered_content() {
    assert!(parse_application("no entry here", &de(), &"kitty".to_string(), &"".to_string())
        .is_none());
    let hidden = "[Desktop Entry]\nType=Application\nName=A\nExec=a\nNoDisplay=true\n";
    assert!(parse_application(hidden, &de(), &"kitty".to_string(), &"".to_string()).is_none());
}

#[test]
fn absolute_icon_reference_is_used_directly() {
    let icon = resolve_icon(&Some("/usr/share/pixmaps/x.png".to_string()), &"".to_string());
    assert_eq!(icon, "/usr/share/pixmaps/x.png");
}

#[test]
fn missing_icon_reference_gives_the_empty_string() {
    assert_eq!(resolve_icon(&None, &"Papirus".to_string()), "");
}

#[test]
fn icon_choice_prefers_primary_then_fallback_then_empty() {
    assert_eq!(icon_path_from(Some("/a".to_string()), Some("/b".to_string())), "/a");
    assert_eq!(icon_path_from(None, Some("/b".to_string())), "/b");
    assert_eq!(icon_path_from(None, None), "");
}

#[test]
fn application_equality_covers_all_four_fields() {
    let a = Application {
        name: "n".to_string(),
        comment: "c".to_string(),
        icon: "i".to_string(),
        exec_cmd: "e".to_string(),
    };
    let mut b = a.clone();
    assert_eq!(a, b);
    b.icon = "other".to_string();
    assert_ne!(a, b);
}

#[test]
fn default_config_matches_the_documented_values() {
    let c = SlayfiConfig::default();
    assert_eq!(c.apps_per_page, 5);
    assert_eq!(c.terminal_app, "kitty");
    assert_eq!(c.desktop_environment, "Hyprland");
    assert_eq!(c.kde_icon_theme, "");
}

#[test]
fn client_config_and_scan_settings_come_from_the_config() {
    let c = SlayfiConfig::default();
    assert_eq!(c.client_config().apps_per_page, 5);
    let s = c.scan_settings(vec!["/apps".to_string()]);
    assert_eq!(s.lookup_dirs, vec!["/apps".to_string()]);
    assert_eq!(s.desktop_environment, "Hyprland");
    assert_eq!(s.terminal_app, "kitty");
    assert_eq!(s.icon_theme_fallback, "");
}
