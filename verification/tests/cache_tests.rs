use slayfi::cache::encode_apps;
use slayfi::cache::decode_apps;
use slayfi::entry::Application;

fn app(name: &str, comment: &str, icon: &str, exec_cmd: &str) -> Application {
    Application {
        name: name.to_string(),
        comment: comment.to_string(),
        icon: icon.to_string(),
        exec_cmd: exec_cmd.to_string(),
    }
}

#[test]
fn round_trip_of_empty_list() {
    let apps: Vec<Application> = Vec::new();
    let text = encode_apps(&apps);
    assert_eq!(decode_apps(&text), Some(apps));
}

#[test]
fn round_trip_of_one_record() {
    let apps = vec![app("Files", "Browse files", "/usr/share/icons/files.png", "nautilus")];
    let text = encode_apps(&apps);
    assert_eq!(decode_apps(&text), Some(apps));
}

#[test]
fn round_trip_of_three_records_keeps_order_and_fields() {
    let apps = vec![
        app("A", "first", "", "a --flag"),
        app("B", "", "/i/b.svg", "b"),
        app("C", "third", "", "c %x"),
    ];
    let text = encode_apps(&apps);
    assert_eq!(decode_apps(&text), Some(apps));
}

#[test]
fn round_trip_survives_quotes_and_backslashes() {
    let apps = vec![app("Say \"hi\"", "back\\slash", "", "echo \"hi\\there\"")];
    let text = encode_apps(&apps);
    assert_eq!(decode_apps(&text), Some(apps));
}

#[test]
fn encoded_form_is_the_documented_json_shape() {
    let apps = vec![app("A", "c", "i", "e")];
    assert_eq!(
        encode_apps(&apps),
        "[{\"name\":\"A\",\"comment\":\"c\",\"icon\":\"i\",\"exec\":\"e\"}]"
    );
    let empty: Vec<Application> = Vec::new();
    assert_eq!(encode_apps(&empty), "[]");
}

#[test]
fn decoding_garbage_is_a_miss_never_an_empty_list() {
    assert_eq!(decode_apps(""), None);
    assert_eq!(decode_apps("not json"), None);
    assert_eq!(decode_apps("{}"), None);
    assert_eq!(decode_apps("[{\"name\":\"A\"}]"), None);
}

#[test]
fn trailing_garbage_is_rejected() {
    let apps = vec![app("A", "", "", "a")];
    let mut text = encode_apps(&apps);
    text.push_str("x");
    assert_eq!(decode_apps(&text), None);
}

#[test]
fn truncated_text_is_rejected() {
    let apps = vec![app("A", "", "", "a")];
    let text = encode_apps(&apps);
    let cut = &text[..text.len() - 1];
    assert_eq!(decode_apps(cut), None);
}
