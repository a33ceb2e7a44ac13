use maolan_editor::preferences::{preference_device_id, EditorPreferences};

#[test]
fn preferences_save_to_path_preserves_other_keys() {
    let existing = "existing_key = \"keep me\"\ndefault_output_device_id = \"old\"\n";
    let preferences = EditorPreferences {
        default_output_device_id: Some(String::from("new_out")),
        default_input_device_id: Some(String::from("new_in")),
    };
    let saved = preferences.save(Some(existing));
    assert!(saved.contains("existing_key = \"keep me\""));
    assert!(saved.contains("default_output_device_id = \"new_out\""));
    assert!(saved.contains("default_input_device_id = \"new_in\""));
}

#[test]
fn preferences_save_removes_empty_ids() {
    let existing = "default_output_device_id = \"old\"\ndefault_input_device_id = \"old\"\n";
    let preferences = EditorPreferences { default_output_device_id: None, default_input_device_id: None };
    let saved = preferences.save(Some(existing));
    assert!(!saved.contains("default_output_device_id"));
    assert!(!saved.contains("default_input_device_id"));
}

#[test]
fn preferences_load_from_path_reads_device_ids() {
    let contents = "default_output_device_id = \"/dev/dsp2\"\ndefault_input_device_id = \"/dev/dsp3\"\n";
    let preferences = EditorPreferences::load(Some(contents));
    assert_eq!(preferences.default_output_device_id.as_deref(), Some("/dev/dsp2"));
    assert_eq!(preferences.default_input_device_id.as_deref(), Some("/dev/dsp3"));
}

#[test]
fn save_without_existing_file_writes_only_ids() {
    let preferences = EditorPreferences { default_output_device_id: Some(String::from("hw:1,0")), default_input_device_id: None };
    assert_eq!(preferences.save(None), "default_output_device_id = \"hw:1,0\"\n");
    let none = EditorPreferences::default();
    assert_eq!(none.save(None), "");
}

#[test]
fn save_rewrites_indented_keys_in_place_and_drops_blank_lines() {
    let existing = "a = 1\r\n\n  default_input_device_id = \"x\"\nb = 2";
    let preferences = EditorPreferences { default_output_device_id: None, default_input_device_id: Some(String::from("y")) };
    assert_eq!(preferences.save(Some(existing)), "a = 1\ndefault_input_device_id = \"y\"\nb = 2\n");
}

#[test]
fn load_ignores_auto_empty_and_unreadable_ids() {
    let preferences = EditorPreferences::load(Some("default_output_device_id = \"__auto__\"\ndefault_input_device_id = \"\"\n"));
    assert_eq!(preferences, EditorPreferences::default());
    let broken = EditorPreferences::load(Some("default_output_device_id = "));
    assert_eq!(broken.default_output_device_id, None);
    let number = EditorPreferences::load(Some("default_output_device_id = 3\n"));
    assert_eq!(number.default_output_device_id, None);
    assert_eq!(EditorPreferences::load(None), EditorPreferences::default());
}

#[test]
fn saved_preferences_load_back() {
    let preferences = EditorPreferences {
        default_output_device_id: Some(String::from("hw:0,0")),
        default_input_device_id: Some(String::from("hw:1,0")),
    };
    let saved = preferences.save(Some("other = true\n"));
    assert_eq!(EditorPreferences::load(Some(&saved)), preferences);
}

#[test]
fn preference_device_id_filters_placeholders() {
    assert_eq!(preference_device_id(Some(String::from("hw:2,0"))), Some(String::from("hw:2,0")));
    assert_eq!(preference_device_id(Some(String::from("__auto__"))), None);
    assert_eq!(preference_device_id(Some(String::new())), None);
    assert_eq!(preference_device_id(None), None);
}
