use slayfi::sanitize::clean_exec_command;
use slayfi::sanitize::build_exec;

#[test]
fn env_wrapped_command_is_kept_whole() {
    // The name match lands on the last token, so nothing is discarded.
    let raw = "/usr/bin/env --unset=QT_QPA_PLATFORM /usr/bin/Winbox".to_string();
    let cleaned = clean_exec_command(&raw, &"Winbox".to_string());
    assert_eq!(cleaned, "/usr/bin/env --unset=QT_QPA_PLATFORM /usr/bin/Winbox");
}

#[test]
fn trailing_placeholder_after_name_match_is_dropped() {
    // The first token's basename equals the lowercased display name, so the
    // scan stops there.
    let cleaned = clean_exec_command(&"vlc %U".to_string(), &"VLC".to_string());
    assert_eq!(cleaned, "vlc");
}

#[test]
fn placeholders_are_stripped_when_no_name_matches() {
    let cleaned = clean_exec_command(&"geeqie %f".to_string(), &"Image Viewer".to_string());
    assert_eq!(cleaned, "geeqie");
}

#[test]
fn arguments_survive_when_no_name_matches() {
    let cleaned = clean_exec_command(&"libreoffice --calc %U".to_string(), &"LibreOffice Calc".to_string());
    assert_eq!(cleaned, "libreoffice --calc");
}

#[test]
fn sanitizing_a_clean_command_twice_changes_nothing() {
    let raw = "/usr/bin/env --unset=QT_QPA_PLATFORM /usr/bin/Winbox".to_string();
    let once = clean_exec_command(&raw, &"Winbox".to_string());
    let twice = clean_exec_command(&once, &"Winbox".to_string());
    assert_eq!(once, twice);
    let raw2 = "geeqie --remote".to_string();
    let once2 = clean_exec_command(&raw2, &"Image Viewer".to_string());
    let twice2 = clean_exec_command(&once2, &"Image Viewer".to_string());
    assert_eq!(once2, twice2);
}

#[test]
fn first_of_several_matching_tokens_wins() {
    let cleaned = clean_exec_command(&"tool tool --flag".to_string(), &"Tool".to_string());
    assert_eq!(cleaned, "tool");
}

#[test]
fn whitespace_is_collapsed_in_the_fallback_pass() {
    let cleaned = clean_exec_command(&"prog  %F   --opt".to_string(), &"Other".to_string());
    assert_eq!(cleaned, "prog --opt");
}

#[test]
fn all_seven_placeholders_are_stripped() {
    let cleaned = clean_exec_command(
        &"prog %U %u %F %f %i %c %k end".to_string(),
        &"Other".to_string(),
    );
    assert_eq!(cleaned, "prog end");
}

#[test]
fn terminal_entries_get_the_terminal_prefix() {
    let built = build_exec(
        &"htop".to_string(),
        &"htop".to_string(),
        Some(true),
        &"kitty".to_string(),
    );
    assert_eq!(built, "kitty htop");
}

#[test]
fn non_terminal_entries_get_no_prefix() {
    let a = build_exec(&"htop".to_string(), &"htop".to_string(), Some(false), &"kitty".to_string());
    assert_eq!(a, "htop");
    let b = build_exec(&"htop".to_string(), &"htop".to_string(), None, &"kitty".to_string());
    assert_eq!(b, "htop");
}

#[test]
fn basename_comparison_ignores_the_directory_part() {
    let cleaned = clean_exec_command(&"/opt/app/bin/Editor --flag".to_string(), &"editor".to_string());
    assert_eq!(cleaned, "/opt/app/bin/Editor");
}
