use nl_host::control::{
    encode_command, encode_get_clipboard, encode_hierarchy, encode_keycode, encode_long_press,
    encode_set_clipboard, encode_set_screen_power_mode, encode_stats, encode_swipe, encode_tap,
    encode_text, extract_clipboard_text, InputCommand, KeyAction, META_CTRL_ON, META_META_ON,
    META_SHIFT_ON,
};

fn line(s: &str) -> Vec<u8> {
    s.as_bytes().to_vec()
}

#[test]
fn tap_line_is_exact() {
    assert_eq!(encode_tap(270, 540), line("{\"cmd\": \"tap\", \"x\": 270, \"y\": 540}\n"));
}

#[test]
fn swipe_line_is_exact() {
    assert_eq!(
        encode_swipe(135, 135, 216, 324, 100),
        line("{\"cmd\": \"swipe\", \"x1\": 135, \"y1\": 135, \"x2\": 216, \"y2\": 324, \"duration\": 100}\n")
    );
}

#[test]
fn long_press_line_is_exact() {
    assert_eq!(
        encode_long_press(10, 20, 500),
        line("{\"cmd\": \"long_press\", \"x\": 10, \"y\": 20, \"duration\": 500}\n")
    );
}

#[test]
fn keycode_lines_for_back_shortcut() {
    assert_eq!(
        encode_keycode(KeyAction::Down, 4, 0),
        line("{\"cmd\": \"keycode\", \"action\": \"down\", \"keyCode\": 4, \"metaState\": 0}\n")
    );
    assert_eq!(
        encode_keycode(KeyAction::Up, 4, 0),
        line("{\"cmd\": \"keycode\", \"action\": \"up\", \"keyCode\": 4, \"metaState\": 0}\n")
    );
}

#[test]
fn keycode_line_with_meta_bits() {
    let meta = META_CTRL_ON | META_SHIFT_ON;
    assert_eq!(
        encode_keycode(KeyAction::Down, 29, meta),
        line("{\"cmd\": \"keycode\", \"action\": \"down\", \"keyCode\": 29, \"metaState\": 4097}\n")
    );
    assert_eq!(META_META_ON, 0x10000);
}

#[test]
fn text_line_escapes_specials() {
    assert_eq!(
        encode_text("a\\b\"c\nd".as_bytes()),
        line("{\"cmd\": \"text\", \"text\": \"a\\\\b\\\"c\\nd\"}\n")
    );
}

#[test]
fn set_clipboard_line_escapes_backslash_quote_and_newline() {
    assert_eq!(
        encode_set_clipboard("say \"hi\" \\o/".as_bytes(), true),
        line("{\"cmd\": \"set_clipboard\", \"text\": \"say \\\"hi\\\" \\\\o/\", \"paste\": true}\n")
    );
    assert_eq!(
        encode_set_clipboard("two\nlines".as_bytes(), false),
        line("{\"cmd\": \"set_clipboard\", \"text\": \"two\\nlines\", \"paste\": false}\n")
    );
}

#[test]
fn get_clipboard_and_query_lines() {
    assert_eq!(encode_get_clipboard(true), line("{\"cmd\": \"get_clipboard\", \"copy\": true}\n"));
    assert_eq!(encode_get_clipboard(false), line("{\"cmd\": \"get_clipboard\", \"copy\": false}\n"));
    assert_eq!(encode_hierarchy(), line("{\"cmd\": \"hierarchy\"}\n"));
    assert_eq!(encode_stats(), line("{\"cmd\": \"stats\"}\n"));
}

#[test]
fn set_screen_power_mode_lines() {
    assert_eq!(
        encode_set_screen_power_mode(0),
        line("{\"cmd\": \"set_screen_power_mode\", \"mode\": 0}\n")
    );
    assert_eq!(
        encode_set_screen_power_mode(2),
        line("{\"cmd\": \"set_screen_power_mode\", \"mode\": 2}\n")
    );
}

#[test]
fn every_command_is_one_json_line_with_documented_cmd() {
    let commands: Vec<(InputCommand, &str)> = vec![
        (InputCommand::Tap(1, 2), "tap"),
        (InputCommand::Swipe(1, 2, 3, 4, 100), "swipe"),
        (InputCommand::LongPress(5, 6, 500), "long_press"),
        (InputCommand::Keycode(KeyAction::Down, 4, 0), "keycode"),
        (InputCommand::GetClipboard(true), "get_clipboard"),
        (
            InputCommand::SetClipboard("x \"y\" \\z\nw".as_bytes().to_vec(), true),
            "set_clipboard",
        ),
        (InputCommand::InjectText("line1\nline2".as_bytes().to_vec()), "text"),
        (InputCommand::SetScreenPowerMode(2), "set_screen_power_mode"),
    ];
    for (cmd, name) in commands {
        let encoded = encode_command(&cmd);
        assert_eq!(*encoded.last().unwrap(), b'\n');
        let body = &encoded[..encoded.len() - 1];
        assert!(!body.contains(&b'\n'), "embedded newline for {}", name);
        let value: serde_json::Value = serde_json::from_slice(body).unwrap();
        assert_eq!(value["cmd"], *name);
    }
}

#[test]
fn tap_line_parses_to_expected_numbers() {
    let encoded = encode_tap(270, 540);
    let value: serde_json::Value = serde_json::from_slice(&encoded).unwrap();
    assert_eq!(value["cmd"], "tap");
    assert_eq!(value["x"], 270);
    assert_eq!(value["y"], 540);
}

#[test]
fn clipboard_response_text_is_extracted_and_unescaped() {
    let resp = line("{\"cmd\": \"get_clipboard\", \"text\": \"hello\\nworld \\\"q\\\" \\\\s\"}\n");
    let text = extract_clipboard_text(&resp).unwrap();
    assert_eq!(text, line("hello\nworld \"q\" \\s"));
}

#[test]
fn clipboard_response_without_text_gives_nothing() {
    assert!(extract_clipboard_text(&line("{\"cmd\": \"get_clipboard\"}\n")).is_none());
}

#[test]
fn clipboard_response_with_empty_text_gives_nothing() {
    assert!(
        extract_clipboard_text(&line("{\"cmd\": \"get_clipboard\", \"text\": \"\"}\n")).is_none()
    );
}

#[test]
fn clipboard_text_without_closing_quote_runs_to_the_end() {
    let resp = line("{\"cmd\": \"get_clipboard\", \"text\": \"open");
    assert_eq!(extract_clipboard_text(&resp).unwrap(), line("open"));
}

#[test]
fn tap_at_the_origin() {
    assert_eq!(encode_tap(0, 0), line("{\"cmd\": \"tap\", \"x\": 0, \"y\": 0}\n"));
}
