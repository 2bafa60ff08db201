use nl_host::control::{encode_command, InputCommand, KeyAction};
use nl_host::input::{
    map_keycode, nav_shortcut, HostKey, InputState, LocalAction, WindowInput,
};

fn mirror_state() -> InputState {
    // A 1080 by 2160 frame shown in a 400 by 800 window.
    let mut st = InputState::new();
    let _ = st.on_event(WindowInput::Resized(400, 800));
    st.set_video_size(1080, 2160);
    st
}

#[test]
fn tap_scenario_maps_window_pixel_to_video() {
    let mut st = mirror_state();
    let _ = st.on_event(WindowInput::CursorMoved(100, 200));
    let _ = st.on_event(WindowInput::LeftPressed);
    let (cmds, action) = st.on_event(WindowInput::LeftReleased);
    assert!(action.is_none());
    assert_eq!(cmds, vec![InputCommand::Tap(270, 540)]);
    let encoded = encode_command(&cmds[0]);
    assert_eq!(encoded, "{\"cmd\": \"tap\", \"x\": 270, \"y\": 540}\n".as_bytes().to_vec());
}

#[test]
fn short_drag_is_a_tap_at_the_press_position() {
    let mut st = mirror_state();
    let _ = st.on_event(WindowInput::CursorMoved(50, 50));
    let _ = st.on_event(WindowInput::LeftPressed);
    let _ = st.on_event(WindowInput::CursorMoved(54, 53));
    let (cmds, _) = st.on_event(WindowInput::LeftReleased);
    // 4 and 3 pixels of travel: under the five-pixel threshold.
    assert_eq!(cmds, vec![InputCommand::Tap(135, 135)]);
}

#[test]
fn long_drag_is_a_swipe_with_fixed_duration() {
    let mut st = mirror_state();
    let _ = st.on_event(WindowInput::CursorMoved(50, 50));
    let _ = st.on_event(WindowInput::LeftPressed);
    let _ = st.on_event(WindowInput::CursorMoved(80, 120));
    let (cmds, _) = st.on_event(WindowInput::LeftReleased);
    assert_eq!(cmds, vec![InputCommand::Swipe(135, 135, 216, 324, 100)]);
}

#[test]
fn right_release_is_a_long_press() {
    let mut st = mirror_state();
    let _ = st.on_event(WindowInput::CursorMoved(200, 400));
    let (cmds, _) = st.on_event(WindowInput::RightReleased);
    assert_eq!(cmds, vec![InputCommand::LongPress(540, 1080, 500)]);
}

#[test]
fn escape_sends_back_down_and_up() {
    let mut st = mirror_state();
    let (down, action) = st.on_event(WindowInput::Key(HostKey::Escape, true));
    assert!(action.is_none());
    assert_eq!(
        down,
        vec![
            InputCommand::Keycode(KeyAction::Down, 4, 0),
            InputCommand::Keycode(KeyAction::Up, 4, 0),
        ]
    );
    let (up, _) = st.on_event(WindowInput::Key(HostKey::Escape, false));
    assert!(up.is_empty());
    let lines: Vec<Vec<u8>> = down.iter().map(encode_command).collect();
    assert_eq!(
        lines[0],
        "{\"cmd\": \"keycode\", \"action\": \"down\", \"keyCode\": 4, \"metaState\": 0}\n"
            .as_bytes()
            .to_vec()
    );
    assert_eq!(
        lines[1],
        "{\"cmd\": \"keycode\", \"action\": \"up\", \"keyCode\": 4, \"metaState\": 0}\n"
            .as_bytes()
            .to_vec()
    );
}

#[test]
fn function_keys_carry_navigation_shortcuts() {
    assert_eq!(nav_shortcut(HostKey::Escape), Some(4));
    assert_eq!(nav_shortcut(HostKey::F1), Some(3));
    assert_eq!(nav_shortcut(HostKey::F2), Some(187));
    assert_eq!(nav_shortcut(HostKey::F3), Some(25));
    assert_eq!(nav_shortcut(HostKey::F4), Some(24));
    assert_eq!(nav_shortcut(HostKey::F5), Some(26));
    assert_eq!(nav_shortcut(HostKey::F6), Some(82));
    assert_eq!(nav_shortcut(HostKey::F7), None);
    assert_eq!(nav_shortcut(HostKey::KeyA), None);
}

#[test]
fn screen_power_shortcuts() {
    let mut st = mirror_state();
    let (cmds, _) = st.on_event(WindowInput::Key(HostKey::F7, true));
    assert_eq!(cmds, vec![InputCommand::SetScreenPowerMode(0)]);
    let (cmds, _) = st.on_event(WindowInput::Key(HostKey::F8, true));
    assert_eq!(cmds, vec![InputCommand::SetScreenPowerMode(2)]);
}

#[test]
fn swipe_shortcuts_run_the_centre_column() {
    let mut st = mirror_state();
    let (up, _) = st.on_event(WindowInput::Key(HostKey::F9, true));
    assert_eq!(up, vec![InputCommand::Swipe(540, 1620, 540, 540, 100)]);
    let (down, _) = st.on_event(WindowInput::Key(HostKey::F10, true));
    assert_eq!(down, vec![InputCommand::Swipe(540, 540, 540, 1620, 100)]);
}

#[test]
fn copy_paste_and_screenshot_shortcuts_need_a_modifier() {
    let mut st = mirror_state();
    let (cmds, action) = st.on_event(WindowInput::Key(HostKey::KeyC, true));
    // Without control or super, C is a plain key.
    assert!(action.is_none());
    assert_eq!(cmds, vec![InputCommand::Keycode(KeyAction::Down, 31, 0)]);

    let _ = st.on_event(WindowInput::Key(HostKey::ControlLeft, true));
    let (cmds, action) = st.on_event(WindowInput::Key(HostKey::KeyC, true));
    assert!(action.is_none());
    assert_eq!(cmds, vec![InputCommand::GetClipboard(true)]);

    let (cmds, action) = st.on_event(WindowInput::Key(HostKey::KeyV, true));
    assert!(cmds.is_empty());
    assert_eq!(action, Some(LocalAction::PasteFromHost));

    let (cmds, action) = st.on_event(WindowInput::Key(HostKey::KeyS, true));
    assert!(cmds.is_empty());
    assert_eq!(action, Some(LocalAction::SaveScreenshot));
}

#[test]
fn plain_keys_go_through_the_key_table_with_meta_state() {
    let mut st = mirror_state();
    let _ = st.on_event(WindowInput::Key(HostKey::ShiftLeft, true));
    let (cmds, _) = st.on_event(WindowInput::Key(HostKey::KeyA, true));
    assert_eq!(cmds, vec![InputCommand::Keycode(KeyAction::Down, 29, 1)]);
    let (cmds, _) = st.on_event(WindowInput::Key(HostKey::KeyA, false));
    assert_eq!(cmds, vec![InputCommand::Keycode(KeyAction::Up, 29, 1)]);
}

#[test]
fn key_table_covers_letters_digits_and_navigation() {
    assert_eq!(map_keycode(HostKey::KeyA), Some(29));
    assert_eq!(map_keycode(HostKey::KeyZ), Some(54));
    assert_eq!(map_keycode(HostKey::Digit0), Some(7));
    assert_eq!(map_keycode(HostKey::Digit9), Some(16));
    assert_eq!(map_keycode(HostKey::Space), Some(62));
    assert_eq!(map_keycode(HostKey::Enter), Some(66));
    assert_eq!(map_keycode(HostKey::Backspace), Some(67));
    assert_eq!(map_keycode(HostKey::ArrowUp), Some(19));
    assert_eq!(map_keycode(HostKey::Escape), None);
    assert_eq!(map_keycode(HostKey::Other), None);
}

#[test]
fn window_corners_map_to_frame_corners() {
    let st = mirror_state();
    assert_eq!(st.window_to_video(0, 0), (0, 0));
    assert_eq!(st.window_to_video(400, 800), (1080, 2160));
    assert_eq!(st.window_to_video(200, 400), (540, 1080));
}
