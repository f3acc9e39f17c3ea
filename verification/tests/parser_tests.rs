use slayfi::parser::parse_desktop_entry;
use slayfi::parser::ParseError;
use slayfi::entry::EntryKind;

#[test]
fn parses_full_entry() {
    let text = "[Desktop Entry]\nType=Application\nName=Files\nComment=Browse files\nIcon=files\nExec=nautilus %U\nTerminal=false\n";
    let e = parse_desktop_entry(text).unwrap();
    assert_eq!(e.entry_type, EntryKind::Application);
    assert_eq!(e.name, "Files");
    assert_eq!(e.comment, "Browse files");
    assert_eq!(e.icon.as_deref(), Some("files"));
    assert_eq!(e.exec_cmd.as_deref(), Some("nautilus %U"));
    assert_eq!(e.terminal, Some(false));
    assert_eq!(e.hidden, None);
    assert_eq!(e.no_display, None);
    assert!(e.only_show_in.is_empty());
    assert!(e.not_show_in.is_empty());
}

#[test]
fn first_section_wins_over_later_sections() {
    let text = "[Desktop Entry]\nType=Application\nName=Real\nExec=real\n[Desktop Action open]\nName=Shadow\nExec=shadow\n";
    let e = parse_desktop_entry(text).unwrap();
    assert_eq!(e.name, "Real");
    assert_eq!(e.exec_cmd.as_deref(), Some("real"));
}

#[test]
fn duplicate_key_in_later_section_is_harmless() {
    // A whole-file parse would reject the repeated Name; section isolation
    // keeps the entry usable.
    let text = "[Desktop Entry]\nType=Application\nName=App\nExec=app\n[Desktop Action x]\nName=App\n";
    let e = parse_desktop_entry(text).unwrap();
    assert_eq!(e.name, "App");
}

#[test]
fn text_before_the_header_is_ignored() {
    let text = "# stray preamble\n[Desktop Entry]\nType=Application\nName=App\nExec=app\n";
    let e = parse_desktop_entry(text).unwrap();
    assert_eq!(e.name, "App");
}

#[test]
fn missing_section_is_reported() {
    assert_eq!(
        parse_desktop_entry("Name=App\nExec=app\n"),
        Err(ParseError::NoSection)
    );
    assert_eq!(parse_desktop_entry(""), Err(ParseError::NoSection));
}

#[test]
fn duplicate_key_inside_section_is_an_error() {
    let text = "[Desktop Entry]\nType=Application\nName=A\nName=B\n";
    assert_eq!(parse_desktop_entry(text), Err(ParseError::DuplicateKey));
}

#[test]
fn line_without_equals_is_an_error() {
    let text = "[Desktop Entry]\nType=Application\nName=A\nnonsense\n";
    assert_eq!(parse_desktop_entry(text), Err(ParseError::BadLine));
}

#[test]
fn bad_boolean_is_an_error() {
    let text = "[Desktop Entry]\nType=Application\nName=A\nHidden=yes\n";
    assert_eq!(parse_desktop_entry(text), Err(ParseError::BadBool));
}

#[test]
fn missing_type_is_an_error() {
    let text = "[Desktop Entry]\nName=A\nExec=a\n";
    assert_eq!(parse_desktop_entry(text), Err(ParseError::MissingType));
}

#[test]
fn missing_name_is_an_error() {
    let text = "[Desktop Entry]\nType=Application\nExec=a\n";
    assert_eq!(parse_desktop_entry(text), Err(ParseError::MissingName));
}

#[test]
fn comments_blanks_and_locale_variants_are_ignored() {
    let text = "[Desktop Entry]\n# a comment\n\nType=Application\nName=App\nName[de]=Anwendung\nExec=app\n";
    let e = parse_desktop_entry(text).unwrap();
    assert_eq!(e.name, "App");
}

#[test]
fn crlf_lines_and_spaced_equals_are_accepted() {
    let text = "[Desktop Entry]\r\nType = Application\r\nName = App\r\nExec = app\r\n";
    let e = parse_desktop_entry(text).unwrap();
    assert_eq!(e.entry_type, EntryKind::Application);
    assert_eq!(e.name, "App");
    assert_eq!(e.exec_cmd.as_deref(), Some("app"));
}

#[test]
fn show_in_lists_are_split_on_semicolons() {
    let text = "[Desktop Entry]\nType=Application\nName=A\nExec=a\nOnlyShowIn=KDE;GNOME;\nNotShowIn=Hyprland;\n";
    let e = parse_desktop_entry(text).unwrap();
    assert_eq!(e.only_show_in, vec!["KDE".to_string(), "GNOME".to_string()]);
    assert_eq!(e.not_show_in, vec!["Hyprland".to_string()]);
}

#[test]
fn entry_kinds_are_recognized() {
    let link = "[Desktop Entry]\nType=Link\nName=A\n";
    assert_eq!(parse_desktop_entry(link).unwrap().entry_type, EntryKind::Link);
    let dir = "[Desktop Entry]\nType=Directory\nName=A\n";
    assert_eq!(parse_desktop_entry(dir).unwrap().entry_type, EntryKind::Directory);
    let other = "[Desktop Entry]\nType=Whatever\nName=A\n";
    assert_eq!(parse_desktop_entry(other).unwrap().entry_type, EntryKind::Other);
}
