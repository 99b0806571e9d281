use shell_backend::{Config, ConfigError, Stored};

fn config(server_url: &str, api_key: &str) -> Config {
    Config::new(server_url.to_string(), api_key.to_string())
}

fn round_trip(server_url: &str, api_key: &str) {
    let saved = config(server_url, api_key);
    let text = saved.to_text();
    assert_eq!(Config::from_text(&text), Ok(saved.clone()));
    assert_eq!(Config::load(&Stored::Text(text)), Ok(saved));
}

#[test]
fn default_record_is_empty() {
    let record = Config::default();
    assert_eq!(record.server_url, "");
    assert_eq!(record.api_key, "");
}

#[test]
fn new_keeps_both_values() {
    let record = config("https://api.example.com", "k-1");
    assert_eq!(record.server_url, "https://api.example.com");
    assert_eq!(record.api_key, "k-1");
}

#[test]
fn records_are_equal_by_their_values() {
    assert_eq!(config("a", "b"), config("a", "b"));
    assert_ne!(config("a", "b"), config("a", "c"));
    assert_ne!(config("a", "b"), config("x", "b"));
}

#[test]
fn load_without_a_file_gives_the_default() {
    assert_eq!(Config::load(&Stored::Absent), Ok(Config::default()));
}

#[test]
fn load_of_unreadable_storage_gives_its_cause() {
    let stored = Stored::Unreadable("Permission denied (os error 13)".to_string());
    assert_eq!(Config::load(&stored), Err("Permission denied (os error 13)".to_string()));
}

#[test]
fn load_of_a_broken_text_says_what_is_wrong() {
    let stored = Stored::Text("not a record".to_string());
    assert_eq!(
        Config::load(&stored),
        Err("settings: the server_url line is missing".to_string())
    );
}

#[test]
fn load_of_a_saved_text_gives_the_record() {
    let stored = Stored::Text("server_url=http://h\napi_key=k\n".to_string());
    assert_eq!(Config::load(&stored), Ok(config("http://h", "k")));
}

#[test]
fn text_of_a_plain_record() {
    assert_eq!(
        config("https://api.example.com", "abc123").to_text(),
        "server_url=https://api.example.com\napi_key=abc123\n"
    );
}

#[test]
fn text_of_the_default_record() {
    assert_eq!(Config::default().to_text(), "server_url=\napi_key=\n");
}

#[test]
fn text_escapes_backslash_and_line_feed() {
    assert_eq!(
        config("a\\b", "line1\nline2").to_text(),
        "server_url=a\\\\b\napi_key=line1\\nline2\n"
    );
}

#[test]
fn text_always_has_two_lines() {
    let text = config("\n\n", "\\n\n\\").to_text();
    assert_eq!(text.matches('\n').count(), 2);
    assert!(text.ends_with('\n'));
}

#[test]
fn save_then_load_plain_values() {
    round_trip("https://api.example.com", "abc123");
}

#[test]
fn save_then_load_empty_values() {
    round_trip("", "");
    round_trip("http://h", "");
    round_trip("", "k");
}

#[test]
fn save_then_load_unicode_key() {
    round_trip("https://api.example.com", "ключ-鍵-🔑-é");
}

#[test]
fn save_then_load_backslashes_and_line_feeds() {
    round_trip("a\\b\\\\c", "line1\nline2\n");
    round_trip("\\", "\n");
    round_trip("\\n", "n\\");
    round_trip("\\\n", "\n\\");
}

#[test]
fn save_then_load_values_that_look_like_lines() {
    round_trip("api_key=x", "server_url=y");
    round_trip("x\napi_key=stolen", "k\nserver_url=z\n");
    round_trip("=", "==");
}

#[test]
fn save_then_load_other_control_characters() {
    round_trip("tab\there", "cr\r\nlf");
}

#[test]
fn saving_again_replaces_the_record() {
    let first = config("http://old", "old-key");
    let second = config("http://new", "new-key");
    let _ = first.to_text();
    let stored = Stored::Text(second.to_text());
    assert_eq!(Config::load(&stored), Ok(second));
}

#[test]
fn read_unescapes_values() {
    assert_eq!(
        Config::from_text("server_url=a\\\\b\napi_key=x\\ny\n"),
        Ok(config("a\\b", "x\ny"))
    );
}

#[test]
fn read_of_empty_text_misses_the_first_line() {
    assert_eq!(Config::from_text(""), Err(ConfigError::MissingServerUrl));
}

#[test]
fn read_of_an_unfinished_first_line_misses_it() {
    assert_eq!(Config::from_text("server_url=http://h"), Err(ConfigError::MissingServerUrl));
}

#[test]
fn read_with_another_first_key_misses_the_first_line() {
    assert_eq!(
        Config::from_text("api_key=k\nserver_url=http://h\n"),
        Err(ConfigError::MissingServerUrl)
    );
    assert_eq!(Config::from_text("server_url\napi_key=k\n"), Err(ConfigError::MissingServerUrl));
    assert_eq!(
        Config::from_text(" server_url=x\napi_key=k\n"),
        Err(ConfigError::MissingServerUrl)
    );
}

#[test]
fn read_without_a_second_line_misses_it() {
    assert_eq!(Config::from_text("server_url=http://h\n"), Err(ConfigError::MissingApiKey));
    assert_eq!(Config::from_text("server_url=http://h\napi_key=k"), Err(ConfigError::MissingApiKey));
}

#[test]
fn read_with_another_second_key_misses_the_second_line() {
    assert_eq!(
        Config::from_text("server_url=http://h\ntoken=k\n"),
        Err(ConfigError::MissingApiKey)
    );
}

#[test]
fn read_rejects_an_unknown_escape() {
    assert_eq!(
        Config::from_text("server_url=a\\tb\napi_key=k\n"),
        Err(ConfigError::InvalidEscape)
    );
    assert_eq!(
        Config::from_text("server_url=h\napi_key=a\\qb\n"),
        Err(ConfigError::InvalidEscape)
    );
}

#[test]
fn read_rejects_a_backslash_at_the_end_of_a_value() {
    assert_eq!(Config::from_text("server_url=a\\\napi_key=k\n"), Err(ConfigError::InvalidEscape));
    assert_eq!(Config::from_text("server_url=h\napi_key=k\\\n"), Err(ConfigError::InvalidEscape));
}

#[test]
fn read_rejects_text_after_the_second_line() {
    assert_eq!(
        Config::from_text("server_url=h\napi_key=k\nextra"),
        Err(ConfigError::TrailingText)
    );
    assert_eq!(Config::from_text("server_url=h\napi_key=k\n\n"), Err(ConfigError::TrailingText));
}

#[test]
fn read_reports_the_first_fault() {
    assert_eq!(
        Config::from_text("server_url=a\\q\ntoken=k\nextra"),
        Err(ConfigError::InvalidEscape)
    );
    assert_eq!(
        Config::from_text("server_url=h\ntoken=a\\q\nextra"),
        Err(ConfigError::MissingApiKey)
    );
    assert_eq!(
        Config::from_text("server_url=h\napi_key=a\\q\nextra"),
        Err(ConfigError::InvalidEscape)
    );
}

#[test]
fn error_messages() {
    assert_eq!(
        ConfigError::MissingServerUrl.message(),
        "settings: the server_url line is missing"
    );
    assert_eq!(ConfigError::MissingApiKey.message(), "settings: the api_key line is missing");
    assert_eq!(ConfigError::InvalidEscape.message(), "settings: a value holds an invalid escape");
    assert_eq!(
        ConfigError::TrailingText.message(),
        "settings: unexpected text after the api_key line"
    );
}

#[test]
fn load_reports_each_fault_of_a_text() {
    let cases = [
        ("", ConfigError::MissingServerUrl),
        ("server_url=h\n", ConfigError::MissingApiKey),
        ("server_url=\\x\napi_key=k\n", ConfigError::InvalidEscape),
        ("server_url=h\napi_key=k\n.", ConfigError::TrailingText),
    ];
    for (text, error) in cases {
        assert_eq!(Config::load(&Stored::Text(text.to_string())), Err(error.message()));
    }
}
