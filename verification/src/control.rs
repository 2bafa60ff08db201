//! Control-channel command encoding.
//!
//! Every command is one line of JSON terminated by a line feed, exactly as
//! the peer expects it on the control socket. The encoders return the raw
//! bytes of the line; the socket write stays outside the library.

use vstd::prelude::*;

use crate::bytes::{dec_digits, dec_digits_signed, no_newline};
use crate::bytes::{lemma_dec_digits_no_newline, lemma_dec_digits_signed_no_newline};
use crate::bytes::{i64_to_dec, u32_to_dec, u64_to_dec};
use vstd::string::StringSliceAdditionalSpecFns;

verus! {

/// Meta-state bit for a held shift key.
pub const META_SHIFT_ON: i32 = 0x1;

/// Meta-state bit for a held control key.
pub const META_CTRL_ON: i32 = 0x1000;

/// Meta-state bit for a held meta (super) key.
pub const META_META_ON: i32 = 0x10000;

/// Key action for a keycode command.
#[derive(Clone, Copy, PartialEq, Eq, Structural, Debug)]
pub enum KeyAction {
    Down,
    Up,
}

/// A command for the device, with coordinates in video pixels.
#[derive(Clone, PartialEq, Debug)]
pub enum InputCommand {
    Tap(u32, u32),
    Swipe(u32, u32, u32, u32, u64),
    LongPress(u32, u32, u64),
    Keycode(KeyAction, i32, i32),
    GetClipboard(bool),
    SetClipboard(Vec<u8>, bool),
    InjectText(Vec<u8>),
    SetScreenPowerMode(i32),
}

/// The JSON rendering of a boolean.
pub open spec fn bool_bytes(b: bool) -> Seq<u8> {
    if b {
        "true".spec_bytes()
    } else {
        "false".spec_bytes()
    }
}

/// The JSON name of a key action.
pub open spec fn action_bytes(a: KeyAction) -> Seq<u8> {
    match a {
        KeyAction::Down => "down".spec_bytes(),
        KeyAction::Up => "up".spec_bytes(),
    }
}

/// One escaped byte of a quoted JSON string: backslash, double quote and
/// line feed get their backslash escape, everything else passes through.
pub open spec fn esc_text_byte(b: u8) -> Seq<u8> {
    if b == 92 {
        seq![92u8, 92u8]
    } else if b == 34 {
        seq![92u8, 34u8]
    } else if b == 10 {
        seq![92u8, 110u8]
    } else {
        seq![b]
    }
}

/// Escape backslashes, double quotes and line feeds.
pub open spec fn esc_text(s: Seq<u8>) -> Seq<u8>
    decreases s.len(),
{
    if s.len() == 0 {
        Seq::<u8>::empty()
    } else {
        esc_text(s.drop_last()) + esc_text_byte(s.last())
    }
}

/// The line sent for a tap.
pub open spec fn tap_line(x: nat, y: nat) -> Seq<u8> {
    "{\"cmd\": \"tap\", \"x\": ".spec_bytes() + dec_digits(x) + ", \"y\": ".spec_bytes()
        + dec_digits(y) + "}\n".spec_bytes()
}

/// The line sent for a swipe.
pub open spec fn swipe_line(x1: nat, y1: nat, x2: nat, y2: nat, duration_ms: nat) -> Seq<u8> {
    "{\"cmd\": \"swipe\", \"x1\": ".spec_bytes() + dec_digits(x1) + ", \"y1\": ".spec_bytes()
        + dec_digits(y1) + ", \"x2\": ".spec_bytes() + dec_digits(x2) + ", \"y2\": ".spec_bytes()
        + dec_digits(y2) + ", \"duration\": ".spec_bytes() + dec_digits(duration_ms)
        + "}\n".spec_bytes()
}

/// The line sent for a long press.
pub open spec fn long_press_line(x: nat, y: nat, duration_ms: nat) -> Seq<u8> {
    "{\"cmd\": \"long_press\", \"x\": ".spec_bytes() + dec_digits(x) + ", \"y\": ".spec_bytes()
        + dec_digits(y) + ", \"duration\": ".spec_bytes() + dec_digits(duration_ms)
        + "}\n".spec_bytes()
}

/// The line sent for a key event.
pub open spec fn keycode_line(action: KeyAction, keycode: int, meta_state: int) -> Seq<u8> {
    "{\"cmd\": \"keycode\", \"action\": \"".spec_bytes() + action_bytes(action)
        + "\", \"keyCode\": ".spec_bytes() + dec_digits_signed(keycode)
        + ", \"metaState\": ".spec_bytes() + dec_digits_signed(meta_state) + "}\n".spec_bytes()
}

/// The line sent to type text.
pub open spec fn text_line(text: Seq<u8>) -> Seq<u8> {
    "{\"cmd\": \"text\", \"text\": \"".spec_bytes() + esc_text(text) + "\"}\n".spec_bytes()
}

/// The line sent to read the device clipboard.
pub open spec fn get_clipboard_line(copy: bool) -> Seq<u8> {
    "{\"cmd\": \"get_clipboard\", \"copy\": ".spec_bytes() + bool_bytes(copy) + "}\n".spec_bytes()
}

/// The line sent to fill the device clipboard.
pub open spec fn set_clipboard_line(text: Seq<u8>, paste: bool) -> Seq<u8> {
    "{\"cmd\": \"set_clipboard\", \"text\": \"".spec_bytes() + esc_text(text)
        + "\", \"paste\": ".spec_bytes() + bool_bytes(paste) + "}\n".spec_bytes()
}

/// The line sent to request the view hierarchy.
pub open spec fn hierarchy_line() -> Seq<u8> {
    "{\"cmd\": \"hierarchy\"}\n".spec_bytes()
}

/// The line sent to request stream statistics.
pub open spec fn stats_line() -> Seq<u8> {
    "{\"cmd\": \"stats\"}\n".spec_bytes()
}

/// The line sent to switch the device screen power mode.
pub open spec fn set_screen_power_mode_line(mode: int) -> Seq<u8> {
    "{\"cmd\": \"set_screen_power_mode\", \"mode\": ".spec_bytes() + dec_digits_signed(mode)
        + "}\n".spec_bytes()
}

/// The full line for a command.
pub open spec fn command_line(c: InputCommand) -> Seq<u8> {
    match c {
        InputCommand::Tap(x, y) => tap_line(x as nat, y as nat),
        InputCommand::Swipe(x1, y1, x2, y2, d) => swipe_line(
            x1 as nat,
            y1 as nat,
            x2 as nat,
            y2 as nat,
            d as nat,
        ),
        InputCommand::LongPress(x, y, d) => long_press_line(x as nat, y as nat, d as nat),
        InputCommand::Keycode(a, k, m) => keycode_line(a, k as int, m as int),
        InputCommand::GetClipboard(copy) => get_clipboard_line(copy),
        InputCommand::SetClipboard(text, paste) => set_clipboard_line(text@, paste),
        InputCommand::InjectText(text) => text_line(text@),
        InputCommand::SetScreenPowerMode(mode) => set_screen_power_mode_line(mode as int),
    }
}

/// Append the bytes of a literal to `v`.
fn push_lit(v: &mut Vec<u8>, s: &str)
    ensures
        final(v)@ == old(v)@ + s.spec_bytes(),
{
    v.extend_from_slice(s.as_bytes());
}

/// Append the JSON rendering of a boolean to `v`.
fn push_bool(v: &mut Vec<u8>, b: bool)
    ensures
        final(v)@ == old(v)@ + bool_bytes(b),
{
    if b {
        push_lit(v, "true");
    } else {
        push_lit(v, "false");
    }
}

/// Append the decimal rendering of `n` to `v`.
fn push_u32(v: &mut Vec<u8>, n: u32)
    ensures
        final(v)@ == old(v)@ + dec_digits(n as nat),
{
    let d = u32_to_dec(n);
    v.extend_from_slice(d.as_slice());
}

/// Append the decimal rendering of `n` to `v`.
fn push_u64(v: &mut Vec<u8>, n: u64)
    ensures
        final(v)@ == old(v)@ + dec_digits(n as nat),
{
    let d = u64_to_dec(n);
    v.extend_from_slice(d.as_slice());
}

/// Append the signed decimal rendering of `n` to `v`.
fn push_i32(v: &mut Vec<u8>, n: i32)
    ensures
        final(v)@ == old(v)@ + dec_digits_signed(n as int),
{
    let d = i64_to_dec(n as i64);
    v.extend_from_slice(d.as_slice());
}

/// Append `text` with backslashes, double quotes and line feeds escaped.
fn push_esc_text(v: &mut Vec<u8>, text: &[u8])
    ensures
        final(v)@ == old(v)@ + esc_text(text@),
{
    let mut i: usize = 0;
    while i < text.len()
        invariant
            i <= text@.len(),
            v@ == old(v)@ + esc_text(text@.take(i as int)),
        decreases text@.len() - i,
    {
        let b = text[i];
        if b == 92 {
            v.push(92);
            v.push(92);
        } else if b == 34 {
            v.push(92);
            v.push(34);
        } else if b == 10 {
            v.push(92);
            v.push(110);
        } else {
            v.push(b);
        }
        i = i + 1;
        proof {
            assert(text@.take(i as int).drop_last() =~= text@.take(i - 1));
            assert(v@ =~= old(v)@ + esc_text(text@.take(i as int)));
        }
    }
    proof {
        assert(text@.take(text@.len() as int) =~= text@);
    }
}

/// Encode a tap at video coordinates.
pub fn encode_tap(x: u32, y: u32) -> (r: Vec<u8>)
    ensures
        r@ == tap_line(x as nat, y as nat),
{
    let mut v: Vec<u8> = Vec::new();
    push_lit(&mut v, "{\"cmd\": \"tap\", \"x\": ");
    push_u32(&mut v, x);
    push_lit(&mut v, ", \"y\": ");
    push_u32(&mut v, y);
    push_lit(&mut v, "}\n");
    proof {
        assert(v@ =~= tap_line(x as nat, y as nat));
    }
    v
}

/// Encode a swipe between two video points.
pub fn encode_swipe(x1: u32, y1: u32, x2: u32, y2: u32, duration_ms: u64) -> (r: Vec<u8>)
    ensures
        r@ == swipe_line(x1 as nat, y1 as nat, x2 as nat, y2 as nat, duration_ms as nat),
{
    let mut v: Vec<u8> = Vec::new();
    push_lit(&mut v, "{\"cmd\": \"swipe\", \"x1\": ");
    push_u32(&mut v, x1);
    push_lit(&mut v, ", \"y1\": ");
    push_u32(&mut v, y1);
    push_lit(&mut v, ", \"x2\": ");
    push_u32(&mut v, x2);
    push_lit(&mut v, ", \"y2\": ");
    push_u32(&mut v, y2);
    push_lit(&mut v, ", \"duration\": ");
    push_u64(&mut v, duration_ms);
    push_lit(&mut v, "}\n");
    proof {
        assert(v@ =~= swipe_line(x1 as nat, y1 as nat, x2 as nat, y2 as nat, duration_ms as nat));
    }
    v
}

/// Encode a long press at a video point.
pub fn encode_long_press(x: u32, y: u32, duration_ms: u64) -> (r: Vec<u8>)
    ensures
        r@ == long_press_line(x as nat, y as nat, duration_ms as nat),
{
    let mut v: Vec<u8> = Vec::new();
    push_lit(&mut v, "{\"cmd\": \"long_press\", \"x\": ");
    push_u32(&mut v, x);
    push_lit(&mut v, ", \"y\": ");
    push_u32(&mut v, y);
    push_lit(&mut v, ", \"duration\": ");
    push_u64(&mut v, duration_ms);
    push_lit(&mut v, "}\n");
    proof {
        assert(v@ =~= long_press_line(x as nat, y as nat, duration_ms as nat));
    }
    v
}

/// Encode a key event with its meta state.
pub fn encode_keycode(action: KeyAction, keycode: i32, meta_state: i32) -> (r: Vec<u8>)
    ensures
        r@ == keycode_line(action, keycode as int, meta_state as int),
{
    let mut v: Vec<u8> = Vec::new();
    push_lit(&mut v, "{\"cmd\": \"keycode\", \"action\": \"");
    match action {
        KeyAction::Down => push_lit(&mut v, "down"),
        KeyAction::Up => push_lit(&mut v, "up"),
    }
    push_lit(&mut v, "\", \"keyCode\": ");
    push_i32(&mut v, keycode);
    push_lit(&mut v, ", \"metaState\": ");
    push_i32(&mut v, meta_state);
    push_lit(&mut v, "}\n");
    proof {
        assert(v@ =~= keycode_line(action, keycode as int, meta_state as int));
    }
    v
}

/// Encode text to be typed on the device.
pub fn encode_text(text: &[u8]) -> (r: Vec<u8>)
    ensures
        r@ == text_line(text@),
{
    let mut v: Vec<u8> = Vec::new();
    push_lit(&mut v, "{\"cmd\": \"text\", \"text\": \"");
    push_esc_text(&mut v, text);
    push_lit(&mut v, "\"}\n");
    proof {
        assert(v@ =~= text_line(text@));
    }
    v
}

/// Encode a clipboard read request.
pub fn encode_get_clipboard(copy: bool) -> (r: Vec<u8>)
    ensures
        r@ == get_clipboard_line(copy),
{
    let mut v: Vec<u8> = Vec::new();
    push_lit(&mut v, "{\"cmd\": \"get_clipboard\", \"copy\": ");
    push_bool(&mut v, copy);
    push_lit(&mut v, "}\n");
    proof {
        assert(v@ =~= get_clipboard_line(copy));
    }
    v
}

/// Encode a clipboard write request. Clipboard text routinely holds line
/// feeds, so they are escaped exactly as typed text is: the command stays
/// one line.
pub fn encode_set_clipboard(text: &[u8], paste: bool) -> (r: Vec<u8>)
    ensures
        r@ == set_clipboard_line(text@, paste),
{
    let mut v: Vec<u8> = Vec::new();
    push_lit(&mut v, "{\"cmd\": \"set_clipboard\", \"text\": \"");
    push_esc_text(&mut v, text);
    push_lit(&mut v, "\", \"paste\": ");
    push_bool(&mut v, paste);
    push_lit(&mut v, "}\n");
    proof {
        assert(v@ =~= set_clipboard_line(text@, paste));
    }
    v
}

/// Encode a view-hierarchy request.
pub fn encode_hierarchy() -> (r: Vec<u8>)
    ensures
        r@ == hierarchy_line(),
{
    let mut v: Vec<u8> = Vec::new();
    push_lit(&mut v, "{\"cmd\": \"hierarchy\"}\n");
    proof {
        assert(v@ =~= hierarchy_line());
    }
    v
}

/// Encode a statistics request.
pub fn encode_stats() -> (r: Vec<u8>)
    ensures
        r@ == stats_line(),
{
    let mut v: Vec<u8> = Vec::new();
    push_lit(&mut v, "{\"cmd\": \"stats\"}\n");
    proof {
        assert(v@ =~= stats_line());
    }
    v
}

/// Encode a screen power mode change (0 = off, 2 = on).
pub fn encode_set_screen_power_mode(mode: i32) -> (r: Vec<u8>)
    ensures
        r@ == set_screen_power_mode_line(mode as int),
{
    let mut v: Vec<u8> = Vec::new();
    push_lit(&mut v, "{\"cmd\": \"set_screen_power_mode\", \"mode\": ");
    push_i32(&mut v, mode);
    push_lit(&mut v, "}\n");
    proof {
        assert(v@ =~= set_screen_power_mode_line(mode as int));
    }
    v
}

/// Escaped injected text never holds a raw line feed: the escaper turns
/// every line feed into a backslash-n pair.
pub proof fn lemma_esc_text_no_newline(s: Seq<u8>)
    ensures
        no_newline(esc_text(s)),
    decreases s.len(),
{
    if s.len() > 0 {
        lemma_esc_text_no_newline(s.drop_last());
        assert forall|i: int| 0 <= i < esc_text(s).len() implies esc_text(s)[i] != 10u8 by {
            if i < esc_text(s.drop_last()).len() {
                assert(esc_text(s)[i] == esc_text(s.drop_last())[i]);
            } else {
                assert(esc_text(s)[i] == esc_text_byte(s.last())[i - esc_text(s.drop_last()).len()]);
            }
        }
    }
}

/// The command name that stands in the `cmd` field of a line.
pub open spec fn command_name(c: InputCommand) -> Seq<u8> {
    match c {
        InputCommand::Tap(..) => "tap".spec_bytes(),
        InputCommand::Swipe(..) => "swipe".spec_bytes(),
        InputCommand::LongPress(..) => "long_press".spec_bytes(),
        InputCommand::Keycode(..) => "keycode".spec_bytes(),
        InputCommand::GetClipboard(..) => "get_clipboard".spec_bytes(),
        InputCommand::SetClipboard(..) => "set_clipboard".spec_bytes(),
        InputCommand::InjectText(..) => "text".spec_bytes(),
        InputCommand::SetScreenPowerMode(..) => "set_screen_power_mode".spec_bytes(),
    }
}

/// The framing properties that every control line satisfies.
pub open spec fn well_framed(line: Seq<u8>, name: Seq<u8>) -> bool {
    &&& line.len() > 0
    &&& line.last() == 10u8
    &&& no_newline(line.drop_last())
    &&& line.take(9 + name.len() as int) == "{\"cmd\": \"".spec_bytes() + name
    &&& line[9 + name.len() as int] == 34u8
}

proof fn lemma_tap_framing(x: nat, y: nat)
    ensures
        well_framed(tap_line(x, y), "tap".spec_bytes()),
{
    broadcast use vstd::string::is_ascii_spec_bytes;

    reveal_strlit("{\"cmd\": \"");
    reveal_strlit("tap");
    reveal_strlit("{\"cmd\": \"tap\", \"x\": ");
    reveal_strlit(", \"y\": ");
    reveal_strlit("}\n");
    assert("{\"cmd\": \"".is_ascii() && "tap".is_ascii() && "{\"cmd\": \"tap\", \"x\": ".is_ascii()
        && ", \"y\": ".is_ascii() && "}\n".is_ascii());
    assert("{\"cmd\": \"".spec_bytes().len() == 9);
    assert("{\"cmd\": \"tap\", \"x\": ".spec_bytes().len() == 20);
    assert(no_newline("{\"cmd\": \"tap\", \"x\": ".spec_bytes()));
    assert(no_newline(", \"y\": ".spec_bytes()) && ", \"y\": ".spec_bytes().len() == 7);
    assert("}\n".spec_bytes() =~= seq![125u8, 10u8]);
    lemma_dec_digits_no_newline(x);
    lemma_dec_digits_no_newline(y);
    assert(tap_line(x, y).last() == 10u8);
    assert(no_newline(tap_line(x, y).drop_last()));
    assert(tap_line(x, y).take(9 + "tap".spec_bytes().len() as int) =~= "{\"cmd\": \""
        .spec_bytes() + "tap".spec_bytes());
}

proof fn lemma_swipe_framing(x1: nat, y1: nat, x2: nat, y2: nat, d: nat)
    ensures
        well_framed(swipe_line(x1, y1, x2, y2, d), "swipe".spec_bytes()),
{
    broadcast use vstd::string::is_ascii_spec_bytes;

    reveal_strlit("{\"cmd\": \"");
    reveal_strlit("swipe");
    reveal_strlit("{\"cmd\": \"swipe\", \"x1\": ");
    reveal_strlit(", \"y1\": ");
    reveal_strlit(", \"x2\": ");
    reveal_strlit(", \"y2\": ");
    reveal_strlit(", \"duration\": ");
    reveal_strlit("}\n");
    assert("{\"cmd\": \"".is_ascii() && "swipe".is_ascii() && "{\"cmd\": \"swipe\", \"x1\": "
        .is_ascii() && ", \"y1\": ".is_ascii() && ", \"x2\": ".is_ascii() && ", \"y2\": "
        .is_ascii() && ", \"duration\": ".is_ascii() && "}\n".is_ascii());
    assert("{\"cmd\": \"".spec_bytes().len() == 9);
    assert("{\"cmd\": \"swipe\", \"x1\": ".spec_bytes().len() == 23);
    assert(no_newline("{\"cmd\": \"swipe\", \"x1\": ".spec_bytes()));
    assert(no_newline(", \"y1\": ".spec_bytes()) && ", \"y1\": ".spec_bytes().len() == 8);
    assert(no_newline(", \"x2\": ".spec_bytes()) && ", \"x2\": ".spec_bytes().len() == 8);
    assert(no_newline(", \"y2\": ".spec_bytes()) && ", \"y2\": ".spec_bytes().len() == 8);
    assert(no_newline(", \"duration\": ".spec_bytes()) && ", \"duration\": ".spec_bytes().len()
        == 14);
    assert("}\n".spec_bytes() =~= seq![125u8, 10u8]);
    lemma_dec_digits_no_newline(x1);
    lemma_dec_digits_no_newline(y1);
    lemma_dec_digits_no_newline(x2);
    lemma_dec_digits_no_newline(y2);
    lemma_dec_digits_no_newline(d);
    assert(swipe_line(x1, y1, x2, y2, d).last() == 10u8);
    assert(no_newline(swipe_line(x1, y1, x2, y2, d).drop_last()));
    assert(swipe_line(x1, y1, x2, y2, d).take(9 + "swipe".spec_bytes().len() as int)
        =~= "{\"cmd\": \"".spec_bytes() + "swipe".spec_bytes());
}

proof fn lemma_long_press_framing(x: nat, y: nat, d: nat)
    ensures
        well_framed(long_press_line(x, y, d), "long_press".spec_bytes()),
{
    broadcast use vstd::string::is_ascii_spec_bytes;

    reveal_strlit("{\"cmd\": \"");
    reveal_strlit("long_press");
    reveal_strlit("{\"cmd\": \"long_press\", \"x\": ");
    reveal_strlit(", \"y\": ");
    reveal_strlit(", \"duration\": ");
    reveal_strlit("}\n");
    assert("{\"cmd\": \"".is_ascii() && "long_press".is_ascii()
        && "{\"cmd\": \"long_press\", \"x\": ".is_ascii() && ", \"y\": ".is_ascii()
        && ", \"duration\": ".is_ascii() && "}\n".is_ascii());
    assert("{\"cmd\": \"".spec_bytes().len() == 9);
    assert("{\"cmd\": \"long_press\", \"x\": ".spec_bytes().len() == 27);
    assert(no_newline("{\"cmd\": \"long_press\", \"x\": ".spec_bytes()));
    assert(no_newline(", \"y\": ".spec_bytes()) && ", \"y\": ".spec_bytes().len() == 7);
    assert(no_newline(", \"duration\": ".spec_bytes()) && ", \"duration\": ".spec_bytes().len()
        == 14);
    assert("}\n".spec_bytes() =~= seq![125u8, 10u8]);
    lemma_dec_digits_no_newline(x);
    lemma_dec_digits_no_newline(y);
    lemma_dec_digits_no_newline(d);
    assert(long_press_line(x, y, d).last() == 10u8);
    assert(no_newline(long_press_line(x, y, d).drop_last()));
    assert(long_press_line(x, y, d).take(9 + "long_press".spec_bytes().len() as int)
        =~= "{\"cmd\": \"".spec_bytes() + "long_press".spec_bytes());
}

proof fn lemma_keycode_framing(a: KeyAction, k: int, m: int)
    ensures
        well_framed(keycode_line(a, k, m), "keycode".spec_bytes()),
{
    broadcast use vstd::string::is_ascii_spec_bytes;

    reveal_strlit("{\"cmd\": \"");
    reveal_strlit("keycode");
    reveal_strlit("{\"cmd\": \"keycode\", \"action\": \"");
    reveal_strlit("down");
    reveal_strlit("up");
    reveal_strlit("\", \"keyCode\": ");
    reveal_strlit(", \"metaState\": ");
    reveal_strlit("}\n");
    assert("{\"cmd\": \"".is_ascii() && "keycode".is_ascii()
        && "{\"cmd\": \"keycode\", \"action\": \"".is_ascii() && "down".is_ascii()
        && "up".is_ascii() && "\", \"keyCode\": ".is_ascii() && ", \"metaState\": ".is_ascii()
        && "}\n".is_ascii());
    assert("{\"cmd\": \"".spec_bytes().len() == 9);
    assert("{\"cmd\": \"keycode\", \"action\": \"".spec_bytes().len() == 30);
    assert(no_newline("{\"cmd\": \"keycode\", \"action\": \"".spec_bytes()));
    assert(no_newline("down".spec_bytes()) && "down".spec_bytes().len() == 4);
    assert(no_newline("up".spec_bytes()) && "up".spec_bytes().len() == 2);
    assert(no_newline("\", \"keyCode\": ".spec_bytes()) && "\", \"keyCode\": "
        .spec_bytes().len() == 14);
    assert(no_newline(", \"metaState\": ".spec_bytes()) && ", \"metaState\": "
        .spec_bytes().len() == 15);
    assert("}\n".spec_bytes() =~= seq![125u8, 10u8]);
    lemma_dec_digits_signed_no_newline(k);
    lemma_dec_digits_signed_no_newline(m);
    assert(keycode_line(a, k, m).last() == 10u8);
    assert(no_newline(keycode_line(a, k, m).drop_last()));
    assert(keycode_line(a, k, m).take(9 + "keycode".spec_bytes().len() as int)
        =~= "{\"cmd\": \"".spec_bytes() + "keycode".spec_bytes());
}

proof fn lemma_get_clipboard_framing(copy: bool)
    ensures
        well_framed(get_clipboard_line(copy), "get_clipboard".spec_bytes()),
{
    broadcast use vstd::string::is_ascii_spec_bytes;

    reveal_strlit("{\"cmd\": \"");
    reveal_strlit("get_clipboard");
    reveal_strlit("{\"cmd\": \"get_clipboard\", \"copy\": ");
    reveal_strlit("true");
    reveal_strlit("false");
    reveal_strlit("}\n");
    assert("{\"cmd\": \"".is_ascii() && "get_clipboard".is_ascii()
        && "{\"cmd\": \"get_clipboard\", \"copy\": ".is_ascii() && "true".is_ascii()
        && "false".is_ascii() && "}\n".is_ascii());
    assert("{\"cmd\": \"".spec_bytes().len() == 9);
    assert("{\"cmd\": \"get_clipboard\", \"copy\": ".spec_bytes().len() == 33);
    assert(no_newline("{\"cmd\": \"get_clipboard\", \"copy\": ".spec_bytes()));
    assert(no_newline("true".spec_bytes()) && "true".spec_bytes().len() == 4);
    assert(no_newline("false".spec_bytes()) && "false".spec_bytes().len() == 5);
    assert("}\n".spec_bytes() =~= seq![125u8, 10u8]);
    assert(get_clipboard_line(copy).last() == 10u8);
    assert(no_newline(get_clipboard_line(copy).drop_last()));
    assert(get_clipboard_line(copy).take(9 + "get_clipboard".spec_bytes().len() as int)
        =~= "{\"cmd\": \"".spec_bytes() + "get_clipboard".spec_bytes());
}

proof fn lemma_set_clipboard_framing(text: Seq<u8>, paste: bool)
    ensures
        well_framed(set_clipboard_line(text, paste), "set_clipboard".spec_bytes()),
{
    broadcast use vstd::string::is_ascii_spec_bytes;

    reveal_strlit("{\"cmd\": \"");
    reveal_strlit("set_clipboard");
    reveal_strlit("{\"cmd\": \"set_clipboard\", \"text\": \"");
    reveal_strlit("\", \"paste\": ");
    reveal_strlit("true");
    reveal_strlit("false");
    reveal_strlit("}\n");
    assert("{\"cmd\": \"".is_ascii() && "set_clipboard".is_ascii()
        && "{\"cmd\": \"set_clipboard\", \"text\": \"".is_ascii() && "\", \"paste\": "
        .is_ascii() && "true".is_ascii() && "false".is_ascii() && "}\n".is_ascii());
    assert("{\"cmd\": \"".spec_bytes().len() == 9);
    assert("{\"cmd\": \"set_clipboard\", \"text\": \"".spec_bytes().len() == 34);
    assert(no_newline("{\"cmd\": \"set_clipboard\", \"text\": \"".spec_bytes()));
    assert(no_newline("\", \"paste\": ".spec_bytes()) && "\", \"paste\": ".spec_bytes().len()
        == 12);
    assert(no_newline("true".spec_bytes()) && "true".spec_bytes().len() == 4);
    assert(no_newline("false".spec_bytes()) && "false".spec_bytes().len() == 5);
    assert("}\n".spec_bytes() =~= seq![125u8, 10u8]);
    lemma_esc_text_no_newline(text);
    assert(set_clipboard_line(text, paste).last() == 10u8);
    assert(no_newline(set_clipboard_line(text, paste).drop_last()));
    assert(set_clipboard_line(text, paste).take(9 + "set_clipboard".spec_bytes().len() as int)
        =~= "{\"cmd\": \"".spec_bytes() + "set_clipboard".spec_bytes());
}

proof fn lemma_text_framing(text: Seq<u8>)
    ensures
        well_framed(text_line(text), "text".spec_bytes()),
{
    broadcast use vstd::string::is_ascii_spec_bytes;

    reveal_strlit("{\"cmd\": \"");
    reveal_strlit("text");
    reveal_strlit("{\"cmd\": \"text\", \"text\": \"");
    reveal_strlit("\"}\n");
    assert("{\"cmd\": \"".is_ascii() && "text".is_ascii()
        && "{\"cmd\": \"text\", \"text\": \"".is_ascii() && "\"}\n".is_ascii());
    assert("{\"cmd\": \"".spec_bytes().len() == 9);
    assert("{\"cmd\": \"text\", \"text\": \"".spec_bytes().len() == 25);
    assert(no_newline("{\"cmd\": \"text\", \"text\": \"".spec_bytes()));
    assert("\"}\n".spec_bytes() =~= seq![34u8, 125u8, 10u8]);
    lemma_esc_text_no_newline(text);
    assert(text_line(text).last() == 10u8);
    assert(no_newline(text_line(text).drop_last()));
    assert(text_line(text).take(9 + "text".spec_bytes().len() as int) =~= "{\"cmd\": \""
        .spec_bytes() + "text".spec_bytes());
}

proof fn lemma_set_screen_power_mode_framing(mode: int)
    ensures
        well_framed(set_screen_power_mode_line(mode), "set_screen_power_mode".spec_bytes()),
{
    broadcast use vstd::string::is_ascii_spec_bytes;

    reveal_strlit("{\"cmd\": \"");
    reveal_strlit("set_screen_power_mode");
    reveal_strlit("{\"cmd\": \"set_screen_power_mode\", \"mode\": ");
    reveal_strlit("}\n");
    assert("{\"cmd\": \"".is_ascii() && "set_screen_power_mode".is_ascii()
        && "{\"cmd\": \"set_screen_power_mode\", \"mode\": ".is_ascii() && "}\n".is_ascii());
    assert("{\"cmd\": \"".spec_bytes().len() == 9);
    assert("{\"cmd\": \"set_screen_power_mode\", \"mode\": ".spec_bytes().len() == 41);
    assert(no_newline("{\"cmd\": \"set_screen_power_mode\", \"mode\": ".spec_bytes()));
    assert("}\n".spec_bytes() =~= seq![125u8, 10u8]);
    lemma_dec_digits_signed_no_newline(mode);
    assert(set_screen_power_mode_line(mode).last() == 10u8);
    assert(no_newline(set_screen_power_mode_line(mode).drop_last()));
    assert(set_screen_power_mode_line(mode).take(9 + "set_screen_power_mode"
        .spec_bytes().len() as int) =~= "{\"cmd\": \"".spec_bytes()
        + "set_screen_power_mode".spec_bytes());
}

proof fn lemma_query_framing()
    ensures
        well_framed(hierarchy_line(), "hierarchy".spec_bytes()),
        well_framed(stats_line(), "stats".spec_bytes()),
{
    broadcast use vstd::string::is_ascii_spec_bytes;

    reveal_strlit("{\"cmd\": \"");
    reveal_strlit("hierarchy");
    reveal_strlit("stats");
    reveal_strlit("{\"cmd\": \"hierarchy\"}\n");
    reveal_strlit("{\"cmd\": \"stats\"}\n");
    assert("{\"cmd\": \"".is_ascii() && "hierarchy".is_ascii() && "stats".is_ascii()
        && "{\"cmd\": \"hierarchy\"}\n".is_ascii() && "{\"cmd\": \"stats\"}\n".is_ascii());
    assert("{\"cmd\": \"".spec_bytes().len() == 9);
    assert("{\"cmd\": \"hierarchy\"}\n".spec_bytes().len() == 21);
    assert("{\"cmd\": \"stats\"}\n".spec_bytes().len() == 17);
    assert(hierarchy_line().last() == 10u8);
    assert(no_newline(hierarchy_line().drop_last()));
    assert(hierarchy_line().take(9 + "hierarchy".spec_bytes().len() as int) =~= "{\"cmd\": \""
        .spec_bytes() + "hierarchy".spec_bytes());
    assert(stats_line().last() == 10u8);
    assert(no_newline(stats_line().drop_last()));
    assert(stats_line().take(9 + "stats".spec_bytes().len() as int) =~= "{\"cmd\": \""
        .spec_bytes() + "stats".spec_bytes());
}

/// Control framing: every encoded command is exactly one line. The line
/// ends with a line feed, holds no other line feed, and opens a JSON
/// object whose `cmd` field is the documented command name, closed by a
/// double quote.
pub proof fn lemma_control_framing(c: InputCommand)
    ensures
        well_framed(command_line(c), command_name(c)),
{
    match c {
        InputCommand::Tap(x, y) => lemma_tap_framing(x as nat, y as nat),
        InputCommand::Swipe(x1, y1, x2, y2, d) => lemma_swipe_framing(
            x1 as nat,
            y1 as nat,
            x2 as nat,
            y2 as nat,
            d as nat,
        ),
        InputCommand::LongPress(x, y, d) => lemma_long_press_framing(x as nat, y as nat, d as nat),
        InputCommand::Keycode(a, k, m) => lemma_keycode_framing(a, k as int, m as int),
        InputCommand::GetClipboard(copy) => lemma_get_clipboard_framing(copy),
        InputCommand::SetClipboard(text, paste) => lemma_set_clipboard_framing(text@, paste),
        InputCommand::InjectText(text) => lemma_text_framing(text@),
        InputCommand::SetScreenPowerMode(mode) => lemma_set_screen_power_mode_framing(mode as int),
    }
}

/// Encode any command as its control line.
pub fn encode_command(c: &InputCommand) -> (r: Vec<u8>)
    ensures
        r@ == command_line(*c),
{
    match c {
        InputCommand::Tap(x, y) => encode_tap(*x, *y),
        InputCommand::Swipe(x1, y1, x2, y2, d) => encode_swipe(*x1, *y1, *x2, *y2, *d),
        InputCommand::LongPress(x, y, d) => encode_long_press(*x, *y, *d),
        InputCommand::Keycode(a, k, m) => encode_keycode(*a, *k, *m),
        InputCommand::GetClipboard(copy) => encode_get_clipboard(*copy),
        InputCommand::SetClipboard(text, paste) => encode_set_clipboard(text.as_slice(), *paste),
        InputCommand::InjectText(text) => encode_text(text.as_slice()),
        InputCommand::SetScreenPowerMode(mode) => encode_set_screen_power_mode(*mode),
    }
}


/// `pat` occurs in `s` at position `i`.
pub open spec fn pat_at(s: Seq<u8>, pat: Seq<u8>, i: int) -> bool {
    &&& 0 <= i
    &&& i + pat.len() <= s.len()
    &&& forall|k: int| 0 <= k < pat.len() ==> s[i + k] == pat[k]
}

/// Position of the first occurrence of `pat` in `s` at or after `i`.
pub open spec fn find_pat(s: Seq<u8>, pat: Seq<u8>, i: int) -> Option<int>
    recommends
        0 <= i,
    decreases s.len() - i,
{
    if i + pat.len() > s.len() {
        None
    } else if pat_at(s, pat, i) {
        Some(i)
    } else {
        find_pat(s, pat, i + 1)
    }
}

/// What `find_pat` returns: the first occurrence position at or after `i`.
pub proof fn lemma_find_pat_bounds(s: Seq<u8>, pat: Seq<u8>, i: int)
    requires
        0 <= i,
    ensures
        find_pat(s, pat, i) matches Some(j) ==> i <= j && pat_at(s, pat, j),
    decreases s.len() - i,
{
    if i + pat.len() > s.len() {
    } else if pat_at(s, pat, i) {
    } else {
        lemma_find_pat_bounds(s, pat, i + 1);
    }
}

/// The raw span of a quoted JSON string: everything up to the first
/// unescaped double quote, with a backslash consuming the byte after it.
pub open spec fn raw_text(s: Seq<u8>) -> Seq<u8>
    decreases s.len(),
{
    if s.len() == 0 {
        Seq::<u8>::empty()
    } else if s[0] == 34 {
        Seq::<u8>::empty()
    } else if s[0] == 92 {
        if s.len() == 1 {
            seq![92u8]
        } else {
            seq![92u8, s[1]] + raw_text(s.skip(2))
        }
    } else {
        seq![s[0]] + raw_text(s.skip(1))
    }
}

/// Resolve the backslash escapes `\n`, `\"` and `\\`; any other
/// backslash pair passes through unchanged.
pub open spec fn unescape(s: Seq<u8>) -> Seq<u8>
    decreases s.len(),
{
    if s.len() == 0 {
        Seq::<u8>::empty()
    } else if s[0] == 92 && s.len() >= 2 {
        (if s[1] == 110 {
            seq![10u8]
        } else if s[1] == 34 {
            seq![34u8]
        } else if s[1] == 92 {
            seq![92u8]
        } else {
            seq![92u8, s[1]]
        }) + unescape(s.skip(2))
    } else {
        seq![s[0]] + unescape(s.skip(1))
    }
}

/// The clipboard text carried by a `get_clipboard` response line: the
/// unescaped value of its `text` field, or nothing when the field is
/// missing or empty.
pub open spec fn clipboard_text_of(resp: Seq<u8>) -> Option<Seq<u8>> {
    let pat = "\"text\": \"".spec_bytes();
    match find_pat(resp, pat, 0) {
        None => None,
        Some(j) => {
            let raw = raw_text(resp.skip(j + pat.len() as int));
            if raw.len() == 0 {
                None
            } else {
                Some(unescape(raw))
            }
        },
    }
}

/// Find the first occurrence of `pat` in `hay` at or after `from`.
fn find_pattern(hay: &[u8], pat: &[u8], from: usize) -> (r: Option<usize>)
    requires
        0 <= from,
    ensures
        match r {
            Some(j) => find_pat(hay@, pat@, from as int) == Some(j as int),
            None => find_pat(hay@, pat@, from as int) is None,
        },
{
    let hlen = hay.len();
    let plen = pat.len();
    let mut i = from;
    loop
        invariant
            from <= i,
            hlen == hay@.len(),
            plen == pat@.len(),
            find_pat(hay@, pat@, from as int) == find_pat(hay@, pat@, i as int),
        decreases hay@.len() + 1 - i,
    {
        if plen > hlen || i > hlen - plen {
            return None;
        }
        let mut k: usize = 0;
        let mut matched = true;
        while k < plen
            invariant
                0 <= k <= plen,
                hlen == hay@.len(),
                plen == pat@.len(),
                i + plen <= hlen,
                matched == forall|t: int| 0 <= t < k ==> hay@[i + t] == pat@[t],
            decreases plen - k,
        {
            if hay[i + k] != pat[k] {
                matched = false;
                k = plen;
            } else {
                k = k + 1;
            }
        }
        if matched {
            assert(pat_at(hay@, pat@, i as int));
            return Some(i);
        }
        assert(!pat_at(hay@, pat@, i as int));
        i = i + 1;
    }
}

/// Extract and unescape the `text` field of a clipboard response.
///
/// Returns the text exactly when the response carries a `"text": "`
/// marker followed by a non-empty raw value.
pub fn extract_clipboard_text(resp: &[u8]) -> (r: Option<Vec<u8>>)
    ensures
        match r {
            Some(v) => clipboard_text_of(resp@) == Some(v@),
            None => clipboard_text_of(resp@) is None,
        },
{
    proof {
        reveal_strlit("\"text\": \"");
        broadcast use vstd::string::is_ascii_spec_bytes;

        assert("\"text\": \"".is_ascii());
        assert("\"text\": \"".spec_bytes().len() == 9);
    }
    let pat = "\"text\": \"".as_bytes();
    match find_pattern(resp, pat, 0) {
        None => None,
        Some(j) => {
            proof {
                lemma_find_pat_bounds(resp@, "\"text\": \"".spec_bytes(), 0);
            }
            let rlen = resp.len();
            assert(j + pat@.len() <= rlen);
            let start = j + pat.len();
            assert(resp@.skip(start as int) =~= resp@.skip(
                j + "\"text\": \"".spec_bytes().len() as int,
            ));
            let raw = scan_raw_text(resp, start);
            if raw.len() == 0 {
                None
            } else {
                Some(unescape_bytes(&raw))
            }
        },
    }
}

/// Collect the raw span of a quoted string starting at `resp[start..]`.
fn scan_raw_text(resp: &[u8], start: usize) -> (r: Vec<u8>)
    requires
        start <= resp@.len(),
    ensures
        r@ == raw_text(resp@.skip(start as int)),
{
    let mut out: Vec<u8> = Vec::new();
    proof {
        assert(out@ + raw_text(resp@.skip(start as int)) =~= raw_text(resp@.skip(start as int)));
    }
    let mut i = start;
    loop
        invariant
            start <= i <= resp@.len(),
            raw_text(resp@.skip(start as int)) == out@ + raw_text(resp@.skip(i as int)),
        ensures
            raw_text(resp@.skip(start as int)) == out@,
        decreases resp@.len() - i,
    {
        let ghost tail = resp@.skip(i as int);
        if i == resp.len() {
            assert(tail.len() == 0);
            assert(out@ =~= out@ + raw_text(tail));
            break;
        }
        let b = resp[i];
        assert(tail[0] == b);
        if b == 34 {
            assert(out@ =~= out@ + raw_text(tail));
            break;
        }
        if b == 92 {
            if i + 1 == resp.len() {
                out.push(92);
                i = i + 1;
                proof {
                    assert(tail.len() == 1);
                    assert(raw_text(tail) =~= seq![92u8]);
                    assert(resp@.skip(i as int).len() == 0);
                    assert(out@ + raw_text(resp@.skip(i as int)) =~= out@);
                    assert(raw_text(resp@.skip(start as int)) == out@ + raw_text(
                        resp@.skip(i as int),
                    ));
                }
            } else {
                out.push(92);
                out.push(resp[i + 1]);
                proof {
                    assert(tail[1] == resp@[i + 1]);
                    assert(tail.skip(2) =~= resp@.skip(i + 2));
                    assert(raw_text(tail) == seq![92u8, tail[1]] + raw_text(tail.skip(2)));
                    assert(out@ =~= (out@.subrange(0, out@.len() - 2)) + seq![92u8, tail[1]]);
                }
                i = i + 2;
            }
        } else {
            out.push(b);
            proof {
                assert(tail.skip(1) =~= resp@.skip(i + 1));
                assert(raw_text(tail) == seq![b] + raw_text(tail.skip(1)));
                assert(out@ =~= (out@.subrange(0, out@.len() - 1)) + seq![b]);
            }
            i = i + 1;
        }
    }
    out
}

/// Resolve backslash escapes in `raw`.
fn unescape_bytes(raw: &Vec<u8>) -> (r: Vec<u8>)
    ensures
        r@ == unescape(raw@),
{
    let mut out: Vec<u8> = Vec::new();
    proof {
        assert(raw@.skip(0) =~= raw@);
        assert(out@ + unescape(raw@) =~= unescape(raw@));
    }
    let mut i: usize = 0;
    loop
        invariant
            0 <= i <= raw@.len(),
            unescape(raw@) == out@ + unescape(raw@.skip(i as int)),
        ensures
            unescape(raw@) == out@,
        decreases raw@.len() - i,
    {
        let ghost tail = raw@.skip(i as int);
        if i == raw.len() {
            assert(tail.len() == 0);
            assert(out@ =~= out@ + unescape(tail));
            break;
        }
        let b = raw[i];
        assert(tail[0] == b);
        if b == 92 && i + 1 < raw.len() {
            let e = raw[i + 1];
            assert(tail[1] == e);
            if e == 110 {
                out.push(10);
            } else if e == 34 {
                out.push(34);
            } else if e == 92 {
                out.push(92);
            } else {
                out.push(92);
                out.push(e);
            }
            proof {
                assert(tail.skip(2) =~= raw@.skip(i + 2));
                assert(out@ + unescape(raw@.skip(i + 2)) =~= unescape(raw@));
            }
            i = i + 2;
        } else {
            out.push(b);
            proof {
                assert(tail.skip(1) =~= raw@.skip(i + 1));
                assert(unescape(tail) == seq![b] + unescape(tail.skip(1)));
                assert(out@ + unescape(raw@.skip(i + 1)) =~= unescape(raw@));
            }
            i = i + 1;
        }
    }
    out
}

} // verus!
