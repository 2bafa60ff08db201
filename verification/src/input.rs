//! Window-input mapping: raw window events become device commands.
//!
//! The mapper tracks the cursor, the pressed mouse button, the drag start
//! and the modifier keys, and turns releases and key presses into
//! `InputCommand` values. A short left-button drag is a tap, a longer one
//! a swipe; a right-button release is a long press; the escape and
//! function keys carry navigation shortcuts; everything else goes through
//! a static key table. Window coordinates are mapped into video
//! coordinates in proportion to the window and frame sizes.

use vstd::prelude::*;

use crate::control::{InputCommand, KeyAction};
use vstd::arithmetic::div_mod::{lemma_div_is_ordered, lemma_div_multiples_vanish};
use vstd::arithmetic::mul::lemma_mul_inequality;

verus! {

/// Pixel distance under which a press-release pair is a tap.
pub const TAP_THRESHOLD_PX: u32 = 5;

/// Duration given to a swipe command, in milliseconds.
pub const SWIPE_DURATION_MS: u64 = 100;

/// Duration given to a long press, in milliseconds.
pub const LONG_PRESS_DURATION_MS: u64 = 500;

/// A key on the host keyboard, as the window library reports it.
#[derive(Clone, Copy, PartialEq, Eq, Structural, Debug)]
pub enum HostKey {
    KeyA,
    KeyB,
    KeyC,
    KeyD,
    KeyE,
    KeyF,
    KeyG,
    KeyH,
    KeyI,
    KeyJ,
    KeyK,
    KeyL,
    KeyM,
    KeyN,
    KeyO,
    KeyP,
    KeyQ,
    KeyR,
    KeyS,
    KeyT,
    KeyU,
    KeyV,
    KeyW,
    KeyX,
    KeyY,
    KeyZ,
    Digit0,
    Digit1,
    Digit2,
    Digit3,
    Digit4,
    Digit5,
    Digit6,
    Digit7,
    Digit8,
    Digit9,
    Space,
    Enter,
    Backspace,
    Tab,
    Delete,
    ArrowUp,
    ArrowDown,
    ArrowLeft,
    ArrowRight,
    Escape,
    F1,
    F2,
    F3,
    F4,
    F5,
    F6,
    F7,
    F8,
    F9,
    F10,
    ControlLeft,
    ControlRight,
    SuperLeft,
    SuperRight,
    ShiftLeft,
    ShiftRight,
    Other
}

/// The device keycode a plainly typed host key translates to.
pub open spec fn spec_map_keycode(k: HostKey) -> Option<i32> {
    match k {
        HostKey::KeyA => Some(29i32),
        HostKey::KeyB => Some(30i32),
        HostKey::KeyC => Some(31i32),
        HostKey::KeyD => Some(32i32),
        HostKey::KeyE => Some(33i32),
        HostKey::KeyF => Some(34i32),
        HostKey::KeyG => Some(35i32),
        HostKey::KeyH => Some(36i32),
        HostKey::KeyI => Some(37i32),
        HostKey::KeyJ => Some(38i32),
        HostKey::KeyK => Some(39i32),
        HostKey::KeyL => Some(40i32),
        HostKey::KeyM => Some(41i32),
        HostKey::KeyN => Some(42i32),
        HostKey::KeyO => Some(43i32),
        HostKey::KeyP => Some(44i32),
        HostKey::KeyQ => Some(45i32),
        HostKey::KeyR => Some(46i32),
        HostKey::KeyS => Some(47i32),
        HostKey::KeyT => Some(48i32),
        HostKey::KeyU => Some(49i32),
        HostKey::KeyV => Some(50i32),
        HostKey::KeyW => Some(51i32),
        HostKey::KeyX => Some(52i32),
        HostKey::KeyY => Some(53i32),
        HostKey::KeyZ => Some(54i32),
        HostKey::Digit0 => Some(7i32),
        HostKey::Digit1 => Some(8i32),
        HostKey::Digit2 => Some(9i32),
        HostKey::Digit3 => Some(10i32),
        HostKey::Digit4 => Some(11i32),
        HostKey::Digit5 => Some(12i32),
        HostKey::Digit6 => Some(13i32),
        HostKey::Digit7 => Some(14i32),
        HostKey::Digit8 => Some(15i32),
        HostKey::Digit9 => Some(16i32),
        HostKey::Space => Some(62i32),
        HostKey::Enter => Some(66i32),
        HostKey::Backspace => Some(67i32),
        HostKey::Tab => Some(61i32),
        HostKey::Delete => Some(112i32),
        HostKey::ArrowUp => Some(19i32),
        HostKey::ArrowDown => Some(20i32),
        HostKey::ArrowLeft => Some(21i32),
        HostKey::ArrowRight => Some(22i32),
        _ => None,
    }
}

/// Translate a host key through the static key table.
pub fn map_keycode(k: HostKey) -> (r: Option<i32>)
    ensures
        r == spec_map_keycode(k),
{
    match k {
        HostKey::KeyA => Some(29),
        HostKey::KeyB => Some(30),
        HostKey::KeyC => Some(31),
        HostKey::KeyD => Some(32),
        HostKey::KeyE => Some(33),
        HostKey::KeyF => Some(34),
        HostKey::KeyG => Some(35),
        HostKey::KeyH => Some(36),
        HostKey::KeyI => Some(37),
        HostKey::KeyJ => Some(38),
        HostKey::KeyK => Some(39),
        HostKey::KeyL => Some(40),
        HostKey::KeyM => Some(41),
        HostKey::KeyN => Some(42),
        HostKey::KeyO => Some(43),
        HostKey::KeyP => Some(44),
        HostKey::KeyQ => Some(45),
        HostKey::KeyR => Some(46),
        HostKey::KeyS => Some(47),
        HostKey::KeyT => Some(48),
        HostKey::KeyU => Some(49),
        HostKey::KeyV => Some(50),
        HostKey::KeyW => Some(51),
        HostKey::KeyX => Some(52),
        HostKey::KeyY => Some(53),
        HostKey::KeyZ => Some(54),
        HostKey::Digit0 => Some(7),
        HostKey::Digit1 => Some(8),
        HostKey::Digit2 => Some(9),
        HostKey::Digit3 => Some(10),
        HostKey::Digit4 => Some(11),
        HostKey::Digit5 => Some(12),
        HostKey::Digit6 => Some(13),
        HostKey::Digit7 => Some(14),
        HostKey::Digit8 => Some(15),
        HostKey::Digit9 => Some(16),
        HostKey::Space => Some(62),
        HostKey::Enter => Some(66),
        HostKey::Backspace => Some(67),
        HostKey::Tab => Some(61),
        HostKey::Delete => Some(112),
        HostKey::ArrowUp => Some(19),
        HostKey::ArrowDown => Some(20),
        HostKey::ArrowLeft => Some(21),
        HostKey::ArrowRight => Some(22),
        _ => None,
    }
}

/// The device keycode behind a navigation shortcut key: escape is back,
/// and the first six function keys are home, recents, volume down, volume
/// up, power and menu.
pub open spec fn spec_nav_shortcut(k: HostKey) -> Option<i32> {
    match k {
        HostKey::Escape => Some(4i32),
        HostKey::F1 => Some(3i32),
        HostKey::F2 => Some(187i32),
        HostKey::F3 => Some(25i32),
        HostKey::F4 => Some(24i32),
        HostKey::F5 => Some(26i32),
        HostKey::F6 => Some(82i32),
        _ => None,
    }
}

/// Look up a navigation shortcut key.
pub fn nav_shortcut(k: HostKey) -> (r: Option<i32>)
    ensures
        r == spec_nav_shortcut(k),
{
    match k {
        HostKey::Escape => Some(4),
        HostKey::F1 => Some(3),
        HostKey::F2 => Some(187),
        HostKey::F3 => Some(25),
        HostKey::F4 => Some(24),
        HostKey::F5 => Some(26),
        HostKey::F6 => Some(82),
        _ => None,
    }
}

/// The meta-state bitfield for the held modifiers.
pub open spec fn meta_state_of(ctrl: bool, cmd: bool, shift: bool) -> int {
    (if ctrl {
        0x1000int
    } else {
        0int
    }) + (if cmd {
        0x10000int
    } else {
        0int
    }) + (if shift {
        1int
    } else {
        0int
    })
}

/// A side effect the window loop must perform on the host itself.
#[derive(Clone, Copy, PartialEq, Eq, Structural, Debug)]
pub enum LocalAction {
    /// Read the host clipboard and send its text with paste-after set.
    PasteFromHost,
    /// Save a screenshot of the most recent frame.
    SaveScreenshot,
}

/// A window event, reduced to the values the mapper reads.
#[derive(Clone, Copy, PartialEq, Eq, Structural, Debug)]
pub enum WindowInput {
    /// The cursor moved to this window pixel.
    CursorMoved(u32, u32),
    /// The window inner size changed.
    Resized(u32, u32),
    LeftPressed,
    LeftReleased,
    RightReleased,
    /// The modifier set changed: control, super, shift.
    Modifiers(bool, bool, bool),
    /// A key went down (`true`) or up (`false`).
    Key(HostKey, bool),
}

/// The mapper's state between events.
pub struct InputState {
    pub cursor: Option<(u32, u32)>,
    pub mouse_pressed: bool,
    pub drag_start: Option<(u32, u32)>,
    pub ctrl_pressed: bool,
    pub cmd_pressed: bool,
    pub shift_pressed: bool,
    /// Current video frame size.
    pub video_w: u32,
    pub video_h: u32,
    /// Current window inner size; never zero.
    pub win_w: u32,
    pub win_h: u32,
}

/// One window coordinate mapped into video space: scaled by the ratio of
/// the frame size to the window size, clamped only where the cursor lies
/// far outside the window.
pub open spec fn spec_win_to_vid(video: u32, win: u32, w: u32) -> int {
    let v = w * video / (win as int);
    if v > u32::MAX {
        u32::MAX as int
    } else {
        v
    }
}

/// The mapper state after the modifier-key bookkeeping of a key event.
pub open spec fn flags_after(st: InputState, k: HostKey, pressed: bool) -> InputState {
    match k {
        HostKey::ControlLeft | HostKey::ControlRight => InputState { ctrl_pressed: pressed, ..st },
        HostKey::SuperLeft | HostKey::SuperRight => InputState { cmd_pressed: pressed, ..st },
        HostKey::ShiftLeft | HostKey::ShiftRight => InputState { shift_pressed: pressed, ..st },
        _ => st,
    }
}

/// What a key event produces, given the state after modifier bookkeeping.
///
/// Copy, paste and screenshot shortcuts need control or super held; the
/// navigation shortcuts send a down-up keycode pair; the seventh and
/// eighth function keys switch the device screen off and on; the ninth
/// and tenth swipe up and down the centre column; any other key goes
/// through the key table with the current meta state.
pub open spec fn key_step(st: InputState, k: HostKey, pressed: bool) -> (
    Seq<InputCommand>,
    Option<LocalAction>,
) {
    let meta = meta_state_of(st.ctrl_pressed, st.cmd_pressed, st.shift_pressed) as i32;
    let modifier = st.ctrl_pressed || st.cmd_pressed;
    if pressed && modifier && k == HostKey::KeyC {
        (seq![InputCommand::GetClipboard(true)], None)
    } else if pressed && modifier && k == HostKey::KeyV {
        (Seq::empty(), Some(LocalAction::PasteFromHost))
    } else if pressed && modifier && k == HostKey::KeyS {
        (Seq::empty(), Some(LocalAction::SaveScreenshot))
    } else if pressed && spec_nav_shortcut(k) is Some {
        let code = spec_nav_shortcut(k)->Some_0;
        (
            seq![
                InputCommand::Keycode(KeyAction::Down, code, meta),
                InputCommand::Keycode(KeyAction::Up, code, meta),
            ],
            None,
        )
    } else if pressed && k == HostKey::F7 {
        (seq![InputCommand::SetScreenPowerMode(0)], None)
    } else if pressed && k == HostKey::F8 {
        (seq![InputCommand::SetScreenPowerMode(2)], None)
    } else if pressed && k == HostKey::F9 {
        (
            seq![
                InputCommand::Swipe(
                    (st.video_w / 2) as u32,
                    (3 * st.video_h / 4) as u32,
                    (st.video_w / 2) as u32,
                    (st.video_h / 4) as u32,
                    SWIPE_DURATION_MS,
                ),
            ],
            None,
        )
    } else if pressed && k == HostKey::F10 {
        (
            seq![
                InputCommand::Swipe(
                    (st.video_w / 2) as u32,
                    (st.video_h / 4) as u32,
                    (st.video_w / 2) as u32,
                    (3 * st.video_h / 4) as u32,
                    SWIPE_DURATION_MS,
                ),
            ],
            None,
        )
    } else if spec_map_keycode(k) is Some {
        let code = spec_map_keycode(k)->Some_0;
        let action = if pressed {
            KeyAction::Down
        } else {
            KeyAction::Up
        };
        (seq![InputCommand::Keycode(action, code, meta)], None)
    } else {
        (Seq::empty(), None)
    }
}

impl InputState {
    /// The window size on record is never zero in either axis.
    pub open spec fn inv(self) -> bool {
        self.win_w >= 1 && self.win_h >= 1
    }

    /// A fresh mapper: no cursor, no drag, no modifiers, no frame yet, and
    /// a placeholder window size of one pixel.
    pub fn new() -> (r: Self)
        ensures
            r == (InputState {
                cursor: None::<(u32, u32)>,
                mouse_pressed: false,
                drag_start: None::<(u32, u32)>,
                ctrl_pressed: false,
                cmd_pressed: false,
                shift_pressed: false,
                video_w: 0u32,
                video_h: 0u32,
                win_w: 1u32,
                win_h: 1u32,
            }),
            r.inv(),
    {
        InputState {
            cursor: None,
            mouse_pressed: false,
            drag_start: None,
            ctrl_pressed: false,
            cmd_pressed: false,
            shift_pressed: false,
            video_w: 0,
            video_h: 0,
            win_w: 1,
            win_h: 1,
        }
    }

    /// Record a video resolution change.
    pub fn set_video_size(&mut self, w: u32, h: u32)
        ensures
            *final(self) == (InputState { video_w: w, video_h: h, ..*old(self) }),
    {
        self.video_w = w;
        self.video_h = h;
    }

    /// The meta-state bits for the held modifiers.
    pub fn meta_bits(&self) -> (r: i32)
        ensures
            r == meta_state_of(self.ctrl_pressed, self.cmd_pressed, self.shift_pressed),
    {
        let mut meta: i32 = 0;
        if self.ctrl_pressed {
            meta = meta + 0x1000;
        }
        if self.cmd_pressed {
            meta = meta + 0x10000;
        }
        if self.shift_pressed {
            meta = meta + 1;
        }
        meta
    }

    /// Map a window pixel to video coordinates: each axis scales by the
    /// ratio of the frame size to the window size. A point inside the
    /// window maps inside the frame, corner to corner.
    pub fn window_to_video(&self, wx: u32, wy: u32) -> (r: (u32, u32))
        requires
            self.inv(),
        ensures
            r.0 == spec_win_to_vid(self.video_w, self.win_w, wx),
            r.1 == spec_win_to_vid(self.video_h, self.win_h, wy),
            wx <= self.win_w ==> r.0 == wx * self.video_w / (self.win_w as int) && r.0
                <= self.video_w,
            wy <= self.win_h ==> r.1 == wy * self.video_h / (self.win_h as int) && r.1
                <= self.video_h,
            wx == 0 ==> r.0 == 0,
            wy == 0 ==> r.1 == 0,
            wx == self.win_w ==> r.0 == self.video_w,
            wy == self.win_h ==> r.1 == self.video_h,
    {
        let vx = map_axis(self.video_w, self.win_w, wx);
        let vy = map_axis(self.video_h, self.win_h, wy);
        (vx, vy)
    }
}

/// Map one axis: `w * video / win`, clamped to the `u32` range.
fn map_axis(video: u32, win: u32, w: u32) -> (r: u32)
    requires
        win >= 1,
    ensures
        r == spec_win_to_vid(video, win, w),
        w <= win ==> r == w * video / (win as int) && r <= video,
        w == 0 ==> r == 0,
        w == win ==> r == video,
{
    proof {
        assert((w as u64) * (video as u64) <= u64::MAX) by (nonlinear_arith)
            requires
                w <= u32::MAX && video <= u32::MAX,
        ;
    }
    let v: u64 = (w as u64) * (video as u64) / (win as u64);
    proof {
        if w <= win {
            lemma_mul_inequality(w as int, win as int, video as int);
            lemma_div_is_ordered(w as int * video as int, win as int * video as int, win as int);
            lemma_div_multiples_vanish(video as int, win as int);
            assert(win as int * video as int == (win as int) * (video as int));
            assert((win as int * video as int) / (win as int) == video);
            assert(v <= video);
        }
        if w == win {
            lemma_div_multiples_vanish(video as int, win as int);
        }
        if w == 0 {
            assert((w as int) * (video as int) == 0 && (w as u64) * (video as u64) == 0) by (
            nonlinear_arith)
                requires
                    w == 0,
            ;
            assert(0int / (win as int) == 0) by (nonlinear_arith)
                requires
                    win >= 1,
            ;
        }
    }
    if v > 0xFFFF_FFFF {
        u32::MAX
    } else {
        v as u32
    }
}

/// A press-release pair this close in both axes is a tap, not a swipe.
pub open spec fn spec_is_tap(s: (u32, u32), e: (u32, u32)) -> bool {
    &&& (if e.0 >= s.0 {
        e.0 - s.0
    } else {
        s.0 - e.0
    }) < TAP_THRESHOLD_PX
    &&& (if e.1 >= s.1 {
        e.1 - s.1
    } else {
        s.1 - e.1
    }) < TAP_THRESHOLD_PX
}

/// A window point mapped to video coordinates.
pub open spec fn spec_mapped(st: InputState, p: (u32, u32)) -> (int, int) {
    (spec_win_to_vid(st.video_w, st.win_w, p.0), spec_win_to_vid(st.video_h, st.win_h, p.1))
}

/// The commands emitted when the left button is released: a tap at the
/// drag start for a short drag, otherwise a swipe from start to release.
pub open spec fn release_commands(st: InputState) -> Seq<InputCommand> {
    match (st.drag_start, st.cursor) {
        (Some(s), Some(e)) => {
            if spec_is_tap(s, e) {
                seq![
                    InputCommand::Tap(
                        spec_mapped(st, s).0 as u32,
                        spec_mapped(st, s).1 as u32,
                    ),
                ]
            } else {
                seq![
                    InputCommand::Swipe(
                        spec_mapped(st, s).0 as u32,
                        spec_mapped(st, s).1 as u32,
                        spec_mapped(st, e).0 as u32,
                        spec_mapped(st, e).1 as u32,
                        SWIPE_DURATION_MS,
                    ),
                ]
            }
        },
        _ => Seq::empty(),
    }
}

impl InputState {
    /// Feed one window event through the mapper. Returns the commands to
    /// queue for the device and, for the paste and screenshot shortcuts,
    /// the host-side action to perform.
    pub fn on_event(&mut self, event: WindowInput) -> (r: (Vec<InputCommand>, Option<LocalAction>))
        requires
            old(self).inv(),
        ensures
            final(self).inv(),
            event matches WindowInput::CursorMoved(x, y) ==> *final(self) == (InputState {
                cursor: Some((x, y)),
                ..*old(self)
            }) && r.0@ == Seq::<InputCommand>::empty() && r.1 is None,
            event matches WindowInput::Resized(w, h) ==> *final(self) == (if w > 0 && h > 0 {
                InputState { win_w: w, win_h: h, ..*old(self) }
            } else {
                *old(self)
            }) && r.0@ == Seq::<InputCommand>::empty() && r.1 is None,
            event is LeftPressed ==> *final(self) == (InputState {
                mouse_pressed: true,
                drag_start: old(self).cursor,
                ..*old(self)
            }) && r.0@ == Seq::<InputCommand>::empty() && r.1 is None,
            event is LeftReleased ==> *final(self) == (InputState {
                mouse_pressed: false,
                drag_start: None::<(u32, u32)>,
                ..*old(self)
            }) && r.0@ == release_commands(*old(self)) && r.1 is None,
            event is RightReleased ==> *final(self) == *old(self) && r.1 is None && r.0@ == (
            match old(self).cursor {
                Some(p) => seq![
                    InputCommand::LongPress(
                        spec_mapped(*old(self), p).0 as u32,
                        spec_mapped(*old(self), p).1 as u32,
                        LONG_PRESS_DURATION_MS,
                    ),
                ],
                None => Seq::<InputCommand>::empty(),
            }),
            event matches WindowInput::Modifiers(c, m, sh) ==> *final(self) == (InputState {
                ctrl_pressed: c,
                cmd_pressed: m,
                shift_pressed: sh,
                ..*old(self)
            }) && r.0@ == Seq::<InputCommand>::empty() && r.1 is None,
            event matches WindowInput::Key(k, pressed) ==> *final(self) == flags_after(
                *old(self),
                k,
                pressed,
            ) && r.0@ == key_step(flags_after(*old(self), k, pressed), k, pressed).0 && r.1
                == key_step(flags_after(*old(self), k, pressed), k, pressed).1,
    {
        match event {
            WindowInput::CursorMoved(x, y) => {
                self.cursor = Some((x, y));
                (Vec::new(), None)
            },
            WindowInput::Resized(w, h) => {
                if w > 0 && h > 0 {
                    self.win_w = w;
                    self.win_h = h;
                }
                (Vec::new(), None)
            },
            WindowInput::LeftPressed => {
                self.mouse_pressed = true;
                self.drag_start = self.cursor;
                (Vec::new(), None)
            },
            WindowInput::LeftReleased => {
                let mut cmds: Vec<InputCommand> = Vec::new();
                match (self.drag_start, self.cursor) {
                    (Some(s), Some(e)) => {
                        let dx = if e.0 >= s.0 {
                            e.0 - s.0
                        } else {
                            s.0 - e.0
                        };
                        let dy = if e.1 >= s.1 {
                            e.1 - s.1
                        } else {
                            s.1 - e.1
                        };
                        let (vx1, vy1) = self.window_to_video(s.0, s.1);
                        if dx < TAP_THRESHOLD_PX && dy < TAP_THRESHOLD_PX {
                            cmds.push(InputCommand::Tap(vx1, vy1));
                        } else {
                            let (vx2, vy2) = self.window_to_video(e.0, e.1);
                            cmds.push(
                                InputCommand::Swipe(vx1, vy1, vx2, vy2, SWIPE_DURATION_MS),
                            );
                        }
                    },
                    _ => {},
                }
                self.mouse_pressed = false;
                self.drag_start = None;
                proof {
                    assert(cmds@ =~= release_commands(*old(self)));
                }
                (cmds, None)
            },
            WindowInput::RightReleased => {
                let mut cmds: Vec<InputCommand> = Vec::new();
                match self.cursor {
                    Some(p) => {
                        let (vx, vy) = self.window_to_video(p.0, p.1);
                        cmds.push(InputCommand::LongPress(vx, vy, LONG_PRESS_DURATION_MS));
                    },
                    None => {},
                }
                (cmds, None)
            },
            WindowInput::Modifiers(c, m, sh) => {
                self.ctrl_pressed = c;
                self.cmd_pressed = m;
                self.shift_pressed = sh;
                (Vec::new(), None)
            },
            WindowInput::Key(k, pressed) => {
                match k {
                    HostKey::ControlLeft | HostKey::ControlRight => {
                        self.ctrl_pressed = pressed;
                    },
                    HostKey::SuperLeft | HostKey::SuperRight => {
                        self.cmd_pressed = pressed;
                    },
                    HostKey::ShiftLeft | HostKey::ShiftRight => {
                        self.shift_pressed = pressed;
                    },
                    _ => {},
                }
                self.key_commands(k, pressed)
            },
        }
    }

    /// The commands and host action for a key event, after the modifier
    /// flags have been brought up to date.
    fn key_commands(&self, k: HostKey, pressed: bool) -> (r: (
        Vec<InputCommand>,
        Option<LocalAction>,
    ))
        ensures
            r.0@ == key_step(*self, k, pressed).0,
            r.1 == key_step(*self, k, pressed).1,
    {
        let meta = self.meta_bits();
        let modifier = self.ctrl_pressed || self.cmd_pressed;
        let mut cmds: Vec<InputCommand> = Vec::new();
        if pressed && modifier && matches!(k, HostKey::KeyC) {
            cmds.push(InputCommand::GetClipboard(true));
            proof {
                assert(cmds@ =~= key_step(*self, k, pressed).0);
            }
            return (cmds, None);
        }
        if pressed && modifier && matches!(k, HostKey::KeyV) {
            return (cmds, Some(LocalAction::PasteFromHost));
        }
        if pressed && modifier && matches!(k, HostKey::KeyS) {
            return (cmds, Some(LocalAction::SaveScreenshot));
        }
        if pressed {
            match nav_shortcut(k) {
                Some(code) => {
                    cmds.push(InputCommand::Keycode(KeyAction::Down, code, meta));
                    cmds.push(InputCommand::Keycode(KeyAction::Up, code, meta));
                    proof {
                        assert(cmds@ =~= key_step(*self, k, pressed).0);
                    }
                    return (cmds, None);
                },
                None => {},
            }
            if matches!(k, HostKey::F7) {
                cmds.push(InputCommand::SetScreenPowerMode(0));
                proof {
                    assert(cmds@ =~= key_step(*self, k, pressed).0);
                }
                return (cmds, None);
            }
            if matches!(k, HostKey::F8) {
                cmds.push(InputCommand::SetScreenPowerMode(2));
                proof {
                    assert(cmds@ =~= key_step(*self, k, pressed).0);
                }
                return (cmds, None);
            }
            if matches!(k, HostKey::F9) || matches!(k, HostKey::F10) {
                let x = self.video_w / 2;
                let yq = self.video_h / 4;
                let y3q = three_quarters(self.video_h);
                if matches!(k, HostKey::F9) {
                    cmds.push(InputCommand::Swipe(x, y3q, x, yq, SWIPE_DURATION_MS));
                } else {
                    cmds.push(InputCommand::Swipe(x, yq, x, y3q, SWIPE_DURATION_MS));
                }
                proof {
                    assert(cmds@ =~= key_step(*self, k, pressed).0);
                }
                return (cmds, None);
            }
        }
        match map_keycode(k) {
            Some(code) => {
                let action = if pressed {
                    KeyAction::Down
                } else {
                    KeyAction::Up
                };
                cmds.push(InputCommand::Keycode(action, code, meta));
                proof {
                    assert(cmds@ =~= key_step(*self, k, pressed).0);
                }
                (cmds, None)
            },
            None => {
                proof {
                    assert(cmds@ =~= key_step(*self, k, pressed).0);
                }
                (cmds, None)
            },
        }
    }
}

/// Three quarters of a pixel count, rounded down.
fn three_quarters(h: u32) -> (r: u32)
    ensures
        r == 3 * h / 4,
{
    proof {
        lemma_mul_inequality(3int, 4int, h as int);
        lemma_div_is_ordered(3 * (h as int), 4 * (h as int), 4);
        lemma_div_multiples_vanish(h as int, 4);
        assert(4 * (h as int) == (4int) * (h as int));
    }
    let v: u64 = 3u64 * (h as u64) / 4;
    v as u32
}

} // verus!
