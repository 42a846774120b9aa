//! Guest input: the messages that tell the guest of keys, buttons and the wheel, and the keeping
//! of what is held down.
//!
//! One JSON object per text message:
//!
//! - `{"t":"b","b":"l"|"r"|"m","d":0|1}`: a mouse button up or down;
//! - `{"t":"w","d":1|-1}`: a wheel notch;
//! - `{"t":"k","q":"<qcode>","d":0|1}`: a key up or down, by its QEMU key code.
use crate::text::{text_of, texts};
use vstd::prelude::*;
use vstd::string::StringExecFns;

verus! {

/// A mouse button.
#[derive(Debug, Clone, Copy, PartialEq, Eq, Structural)]
pub enum MouseButton {
    Left,
    Right,
    Middle,
    /// Any other; the guest is not told of it.
    Other,
}

/// A key of a PC keyboard, by its place.
#[derive(Debug, Clone, Copy, PartialEq, Eq, Structural)]
pub enum Key {
    KeyA,
    KeyB,
    KeyC,
    KeyD,
    KeyE,
    KeyF,
    KeyG,
    KeyH,
    KeyI,
    KeyJ,
    KeyK,
    KeyL,
    KeyM,
    KeyN,
    KeyO,
    KeyP,
    KeyQ,
    KeyR,
    KeyS,
    KeyT,
    KeyU,
    KeyV,
    KeyW,
    KeyX,
    KeyY,
    KeyZ,
    Digit0,
    Digit1,
    Digit2,
    Digit3,
    Digit4,
    Digit5,
    Digit6,
    Digit7,
    Digit8,
    Digit9,
    Enter,
    Escape,
    Space,
    Backspace,
    Tab,
    CapsLock,
    ShiftLeft,
    ShiftRight,
    ControlLeft,
    ControlRight,
    AltLeft,
    AltRight,
    SuperLeft,
    SuperRight,
    ContextMenu,
    Minus,
    Equal,
    BracketLeft,
    BracketRight,
    Backslash,
    Semicolon,
    Quote,
    Comma,
    Period,
    Slash,
    Backquote,
    ArrowUp,
    ArrowDown,
    ArrowLeft,
    ArrowRight,
    Home,
    End,
    PageUp,
    PageDown,
    Insert,
    Delete,
    F1,
    F2,
    F3,
    F4,
    F5,
    F6,
    F7,
    F8,
    F9,
    F10,
    F11,
    F12,
    Numpad0,
    Numpad1,
    Numpad2,
    Numpad3,
    Numpad4,
    Numpad5,
    Numpad6,
    Numpad7,
    Numpad8,
    Numpad9,
    NumpadAdd,
    NumpadSubtract,
    NumpadMultiply,
    NumpadDivide,
    NumpadEnter,
    NumpadDecimal,
    /// Any other; the guest is not told of it.
    Other,
}

/// The letter of a button that the guest is told of.
pub open spec fn button_letter(b: MouseButton) -> Option<Seq<char>> {
    match b {
        MouseButton::Left => Some("l"@),
        MouseButton::Right => Some("r"@),
        MouseButton::Middle => Some("m"@),
        MouseButton::Other => None,
    }
}

/// The QEMU code of a key that the guest is told of.
pub open spec fn key_code(k: Key) -> Option<Seq<char>> {
    match k {
        Key::KeyA => Some("a"@),
        Key::KeyB => Some("b"@),
        Key::KeyC => Some("c"@),
        Key::KeyD => Some("d"@),
        Key::KeyE => Some("e"@),
        Key::KeyF => Some("f"@),
        Key::KeyG => Some("g"@),
        Key::KeyH => Some("h"@),
        Key::KeyI => Some("i"@),
        Key::KeyJ => Some("j"@),
        Key::KeyK => Some("k"@),
        Key::KeyL => Some("l"@),
        Key::KeyM => Some("m"@),
        Key::KeyN => Some("n"@),
        Key::KeyO => Some("o"@),
        Key::KeyP => Some("p"@),
        Key::KeyQ => Some("q"@),
        Key::KeyR => Some("r"@),
        Key::KeyS => Some("s"@),
        Key::KeyT => Some("t"@),
        Key::KeyU => Some("u"@),
        Key::KeyV => Some("v"@),
        Key::KeyW => Some("w"@),
        Key::KeyX => Some("x"@),
        Key::KeyY => Some("y"@),
        Key::KeyZ => Some("z"@),
        Key::Digit0 => Some("0"@),
        Key::Digit1 => Some("1"@),
        Key::Digit2 => Some("2"@),
        Key::Digit3 => Some("3"@),
        Key::Digit4 => Some("4"@),
        Key::Digit5 => Some("5"@),
        Key::Digit6 => Some("6"@),
        Key::Digit7 => Some("7"@),
        Key::Digit8 => Some("8"@),
        Key::Digit9 => Some("9"@),
        Key::Enter => Some("ret"@),
        Key::Escape => Some("esc"@),
        Key::Space => Some("spc"@),
        Key::Backspace => Some("backspace"@),
        Key::Tab => Some("tab"@),
        Key::CapsLock => Some("caps_lock"@),
        Key::ShiftLeft => Some("shift"@),
        Key::ShiftRight => Some("shift_r"@),
        Key::ControlLeft => Some("ctrl"@),
        Key::ControlRight => Some("ctrl_r"@),
        Key::AltLeft => Some("alt"@),
        Key::AltRight => Some("alt_r"@),
        Key::SuperLeft => Some("meta_l"@),
        Key::SuperRight => Some("meta_r"@),
        Key::ContextMenu => Some("menu"@),
        Key::Minus => Some("minus"@),
        Key::Equal => Some("equal"@),
        Key::BracketLeft => Some("bracket_left"@),
        Key::BracketRight => Some("bracket_right"@),
        Key::Backslash => Some("backslash"@),
        Key::Semicolon => Some("semicolon"@),
        Key::Quote => Some("apostrophe"@),
        Key::Comma => Some("comma"@),
        Key::Period => Some("dot"@),
        Key::Slash => Some("slash"@),
        Key::Backquote => Some("grave_accent"@),
        Key::ArrowUp => Some("up"@),
        Key::ArrowDown => Some("down"@),
        Key::ArrowLeft => Some("left"@),
        Key::ArrowRight => Some("right"@),
        Key::Home => Some("home"@),
        Key::End => Some("end"@),
        Key::PageUp => Some("pgup"@),
        Key::PageDown => Some("pgdn"@),
        Key::Insert => Some("insert"@),
        Key::Delete => Some("delete"@),
        Key::F1 => Some("f1"@),
        Key::F2 => Some("f2"@),
        Key::F3 => Some("f3"@),
        Key::F4 => Some("f4"@),
        Key::F5 => Some("f5"@),
        Key::F6 => Some("f6"@),
        Key::F7 => Some("f7"@),
        Key::F8 => Some("f8"@),
        Key::F9 => Some("f9"@),
        Key::F10 => Some("f10"@),
        Key::F11 => Some("f11"@),
        Key::F12 => Some("f12"@),
        Key::Numpad0 => Some("kp_0"@),
        Key::Numpad1 => Some("kp_1"@),
        Key::Numpad2 => Some("kp_2"@),
        Key::Numpad3 => Some("kp_3"@),
        Key::Numpad4 => Some("kp_4"@),
        Key::Numpad5 => Some("kp_5"@),
        Key::Numpad6 => Some("kp_6"@),
        Key::Numpad7 => Some("kp_7"@),
        Key::Numpad8 => Some("kp_8"@),
        Key::Numpad9 => Some("kp_9"@),
        Key::NumpadAdd => Some("kp_add"@),
        Key::NumpadSubtract => Some("kp_subtract"@),
        Key::NumpadMultiply => Some("kp_multiply"@),
        Key::NumpadDivide => Some("kp_divide"@),
        Key::NumpadEnter => Some("kp_enter"@),
        Key::NumpadDecimal => Some("kp_decimal"@),
        Key::Other => None,
    }
}

/// Up or down, as a message writes it.
pub open spec fn down_digit(down: bool) -> Seq<char> {
    if down {
        "1"@
    } else {
        "0"@
    }
}

/// The message of a button.
pub open spec fn button_message(b: MouseButton, down: bool) -> Option<Seq<char>> {
    match button_letter(b) {
        Some(l) => Some("{\"t\":\"b\",\"b\":\""@ + l + "\",\"d\":"@ + down_digit(down) + "}"@),
        None => None,
    }
}

/// The message of a key.
pub open spec fn key_message(k: Key, down: bool) -> Option<Seq<char>> {
    match key_code(k) {
        Some(q) => Some("{\"t\":\"k\",\"q\":\""@ + q + "\",\"d\":"@ + down_digit(down) + "}"@),
        None => None,
    }
}

fn letter(b: MouseButton) -> (r: Option<&'static str>)
    ensures
        r is Some <==> button_letter(b) is Some,
        r is Some ==> r->0@ == button_letter(b)->0,
{
    match b {
        MouseButton::Left => Some("l"),
        MouseButton::Right => Some("r"),
        MouseButton::Middle => Some("m"),
        MouseButton::Other => None,
    }
}

/// The QEMU code of a key.
pub fn qcode(k: Key) -> (r: Option<&'static str>)
    ensures
        r is Some <==> key_code(k) is Some,
        r is Some ==> r->0@ == key_code(k)->0,
{
    match k {
        Key::KeyA => Some("a"),
        Key::KeyB => Some("b"),
        Key::KeyC => Some("c"),
        Key::KeyD => Some("d"),
        Key::KeyE => Some("e"),
        Key::KeyF => Some("f"),
        Key::KeyG => Some("g"),
        Key::KeyH => Some("h"),
        Key::KeyI => Some("i"),
        Key::KeyJ => Some("j"),
        Key::KeyK => Some("k"),
        Key::KeyL => Some("l"),
        Key::KeyM => Some("m"),
        Key::KeyN => Some("n"),
        Key::KeyO => Some("o"),
        Key::KeyP => Some("p"),
        Key::KeyQ => Some("q"),
        Key::KeyR => Some("r"),
        Key::KeyS => Some("s"),
        Key::KeyT => Some("t"),
        Key::KeyU => Some("u"),
        Key::KeyV => Some("v"),
        Key::KeyW => Some("w"),
        Key::KeyX => Some("x"),
        Key::KeyY => Some("y"),
        Key::KeyZ => Some("z"),
        Key::Digit0 => Some("0"),
        Key::Digit1 => Some("1"),
        Key::Digit2 => Some("2"),
        Key::Digit3 => Some("3"),
        Key::Digit4 => Some("4"),
        Key::Digit5 => Some("5"),
        Key::Digit6 => Some("6"),
        Key::Digit7 => Some("7"),
        Key::Digit8 => Some("8"),
        Key::Digit9 => Some("9"),
        Key::Enter => Some("ret"),
        Key::Escape => Some("esc"),
        Key::Space => Some("spc"),
        Key::Backspace => Some("backspace"),
        Key::Tab => Some("tab"),
        Key::CapsLock => Some("caps_lock"),
        Key::ShiftLeft => Some("shift"),
        Key::ShiftRight => Some("shift_r"),
        Key::ControlLeft => Some("ctrl"),
        Key::ControlRight => Some("ctrl_r"),
        Key::AltLeft => Some("alt"),
        Key::AltRight => Some("alt_r"),
        Key::SuperLeft => Some("meta_l"),
        Key::SuperRight => Some("meta_r"),
        Key::ContextMenu => Some("menu"),
        Key::Minus => Some("minus"),
        Key::Equal => Some("equal"),
        Key::BracketLeft => Some("bracket_left"),
        Key::BracketRight => Some("bracket_right"),
        Key::Backslash => Some("backslash"),
        Key::Semicolon => Some("semicolon"),
        Key::Quote => Some("apostrophe"),
        Key::Comma => Some("comma"),
        Key::Period => Some("dot"),
        Key::Slash => Some("slash"),
        Key::Backquote => Some("grave_accent"),
        Key::ArrowUp => Some("up"),
        Key::ArrowDown => Some("down"),
        Key::ArrowLeft => Some("left"),
        Key::ArrowRight => Some("right"),
        Key::Home => Some("home"),
        Key::End => Some("end"),
        Key::PageUp => Some("pgup"),
        Key::PageDown => Some("pgdn"),
        Key::Insert => Some("insert"),
        Key::Delete => Some("delete"),
        Key::F1 => Some("f1"),
        Key::F2 => Some("f2"),
        Key::F3 => Some("f3"),
        Key::F4 => Some("f4"),
        Key::F5 => Some("f5"),
        Key::F6 => Some("f6"),
        Key::F7 => Some("f7"),
        Key::F8 => Some("f8"),
        Key::F9 => Some("f9"),
        Key::F10 => Some("f10"),
        Key::F11 => Some("f11"),
        Key::F12 => Some("f12"),
        Key::Numpad0 => Some("kp_0"),
        Key::Numpad1 => Some("kp_1"),
        Key::Numpad2 => Some("kp_2"),
        Key::Numpad3 => Some("kp_3"),
        Key::Numpad4 => Some("kp_4"),
        Key::Numpad5 => Some("kp_5"),
        Key::Numpad6 => Some("kp_6"),
        Key::Numpad7 => Some("kp_7"),
        Key::Numpad8 => Some("kp_8"),
        Key::Numpad9 => Some("kp_9"),
        Key::NumpadAdd => Some("kp_add"),
        Key::NumpadSubtract => Some("kp_subtract"),
        Key::NumpadMultiply => Some("kp_multiply"),
        Key::NumpadDivide => Some("kp_divide"),
        Key::NumpadEnter => Some("kp_enter"),
        Key::NumpadDecimal => Some("kp_decimal"),
        Key::Other => None,
    }
}

fn digit(down: bool) -> (s: &'static str)
    ensures
        s@ == down_digit(down),
{
    if down {
        "1"
    } else {
        "0"
    }
}

/// The message of a mouse button going down or up.
pub fn mouse_button(button: MouseButton, down: bool) -> (r: Option<String>)
    ensures
        text_of(r) == button_message(button, down),
{
    match letter(button) {
        Some(l) => {
            let mut s = "{\"t\":\"b\",\"b\":\"".to_owned();
            s.append(l);
            s.append("\",\"d\":");
            s.append(digit(down));
            s.append("}");
            Some(s)
        },
        None => None,
    }
}

/// The message of a key going down or up.
pub fn key(code: Key, down: bool) -> (r: Option<String>)
    ensures
        text_of(r) == key_message(code, down),
{
    match qcode(code) {
        Some(q) => {
            let mut s = "{\"t\":\"k\",\"q\":\"".to_owned();
            s.append(q);
            s.append("\",\"d\":");
            s.append(digit(down));
            s.append("}");
            Some(s)
        },
        None => None,
    }
}

/// Whether the 32 bits are those of a zero.
pub open spec fn zero_bits(bits: u32) -> bool {
    bits == 0 || bits == 0x8000_0000
}

/// Whether the 32 bits are those of a number above zero.
pub open spec fn positive_bits(bits: u32) -> bool {
    0 < bits <= 0x7F80_0000
}

/// The message of a wheel movement, which comes as the bits of a single-precision number: one
/// notch up where it is above zero, none where it is zero, one notch down otherwise.
pub fn wheel(bits: u32) -> (r: Option<String>)
    ensures
        text_of(r) == if zero_bits(bits) {
            None
        } else if positive_bits(bits) {
            Some("{\"t\":\"w\",\"d\":1}"@)
        } else {
            Some("{\"t\":\"w\",\"d\":-1}"@)
        },
{
    if bits == 0 || bits == 0x8000_0000 {
        None
    } else if bits <= 0x7F80_0000 {
        Some("{\"t\":\"w\",\"d\":1}".to_owned())
    } else {
        Some("{\"t\":\"w\",\"d\":-1}".to_owned())
    }
}

/// `held` with `x` in it.
pub open spec fn with<T>(held: Seq<T>, x: T) -> Seq<T> {
    if held.contains(x) {
        held
    } else {
        held.push(x)
    }
}

/// `held` without `x`, the rest in its order.
pub open spec fn without<T>(held: Seq<T>, x: T) -> Seq<T> {
    if held.contains(x) {
        held.remove(held.index_of(x))
    } else {
        held
    }
}

/// `held` after `x` went down or up.
pub open spec fn held_after<T>(held: Seq<T>, x: T, down: bool) -> Seq<T> {
    if down {
        with(held, x)
    } else {
        without(held, x)
    }
}

/// The messages that release the first `n` keys.
pub open spec fn key_releases(keys: Seq<Key>, n: int) -> Seq<Seq<char>>
    decreases n,
{
    if n <= 0 {
        seq![]
    } else {
        match key_message(keys[n - 1], false) {
            Some(m) => key_releases(keys, n - 1).push(m),
            None => key_releases(keys, n - 1),
        }
    }
}

/// The messages that release the first `n` buttons.
pub open spec fn button_releases(buttons: Seq<MouseButton>, n: int) -> Seq<Seq<char>>
    decreases n,
{
    if n <= 0 {
        seq![]
    } else {
        match button_message(buttons[n - 1], false) {
            Some(m) => button_releases(buttons, n - 1).push(m),
            None => button_releases(buttons, n - 1),
        }
    }
}

/// What the guest was told is down and was not told is up. A window without the focus gets no
/// input, so what is held when the focus leaves has to be released then.
pub struct Held {
    keys: Vec<Key>,
    buttons: Vec<MouseButton>,
}

impl Held {
    /// The keys that are held, in the order in which they went down.
    pub closed spec fn keys(&self) -> Seq<Key> {
        self.keys@
    }

    /// The buttons that are held, in the order in which they went down.
    pub closed spec fn buttons(&self) -> Seq<MouseButton> {
        self.buttons@
    }

    /// Nothing is held twice.
    pub open spec fn wf(&self) -> bool {
        self.keys().no_duplicates() && self.buttons().no_duplicates()
    }

    /// Nothing held.
    pub fn new() -> (h: Self)
        ensures
            h.wf(),
            h.keys().len() == 0,
            h.buttons().len() == 0,
    {
        Held { keys: Vec::new(), buttons: Vec::new() }
    }

    /// A key went down or up. A repeat of a held key is not passed on: the guest repeats it.
    pub fn key_event(&mut self, k: Key, pressed: bool, repeat: bool) -> (r: Option<String>)
        requires
            old(self).wf(),
        ensures
            final(self).wf(),
            final(self).buttons() == old(self).buttons(),
            repeat ==> r is None && final(self).keys() == old(self).keys(),
            !repeat ==> text_of(r) == key_message(k, pressed) && final(self).keys() == held_after(
                old(self).keys(),
                k,
                pressed,
            ),
    {
        if repeat {
            return None;
        }
        let mut i: usize = 0;
        while i < self.keys.len()
            invariant_except_break
                i <= self.keys@.len(),
                forall|j: int| 0 <= j < i ==> self.keys@[j] != k,
            invariant
                self.keys@ == old(self).keys@,
                self.buttons@ == old(self).buttons@,
            ensures
                i <= self.keys@.len(),
                forall|j: int| 0 <= j < i ==> self.keys@[j] != k,
                i < self.keys@.len() ==> self.keys@[i as int] == k,
            decreases self.keys.len() - i,
        {
            if self.keys[i] == k {
                break ;
            }
            i = i + 1;
        }
        proof {
            lemma_place(self.keys@, k, i as int);
        }
        if pressed {
            if i == self.keys.len() {
                self.keys.push(k);
            }
        } else if i < self.keys.len() {
            self.keys.remove(i);
        }
        key(k, pressed)
    }

    /// A mouse button went down or up.
    pub fn button_event(&mut self, b: MouseButton, pressed: bool) -> (r: Option<String>)
        requires
            old(self).wf(),
        ensures
            final(self).wf(),
            final(self).keys() == old(self).keys(),
            text_of(r) == button_message(b, pressed),
            final(self).buttons() == held_after(old(self).buttons(), b, pressed),
    {
        let mut i: usize = 0;
        while i < self.buttons.len()
            invariant_except_break
                i <= self.buttons@.len(),
                forall|j: int| 0 <= j < i ==> self.buttons@[j] != b,
            invariant
                self.keys@ == old(self).keys@,
                self.buttons@ == old(self).buttons@,
            ensures
                i <= self.buttons@.len(),
                forall|j: int| 0 <= j < i ==> self.buttons@[j] != b,
                i < self.buttons@.len() ==> self.buttons@[i as int] == b,
            decreases self.buttons.len() - i,
        {
            if self.buttons[i] == b {
                break ;
            }
            i = i + 1;
        }
        proof {
            lemma_place(self.buttons@, b, i as int);
        }
        if pressed {
            if i == self.buttons.len() {
                self.buttons.push(b);
            }
        } else if i < self.buttons.len() {
            self.buttons.remove(i);
        }
        mouse_button(b, pressed)
    }

    /// Releases all that is held: gives the messages, and forgets it.
    pub fn release_all(&mut self) -> (out: Vec<String>)
        requires
            old(self).wf(),
        ensures
            final(self).wf(),
            final(self).keys().len() == 0,
            final(self).buttons().len() == 0,
            texts(out@) == key_releases(old(self).keys(), old(self).keys().len() as int)
                + button_releases(old(self).buttons(), old(self).buttons().len() as int),
    {
        let mut out: Vec<String> = Vec::new();
        let mut i: usize = 0;
        assert(texts(out@) =~= key_releases(self.keys@, 0));
        while i < self.keys.len()
            invariant
                i <= self.keys@.len(),
                *self == *old(self),
                texts(out@) == key_releases(self.keys@, i as int),
            decreases self.keys.len() - i,
        {
            let ghost before = out@;
            if let Some(m) = key(self.keys[i], false) {
                out.push(m);
                assert(texts(out@) =~= texts(before).push(m@));
            }
            i = i + 1;
        }
        let ghost ups = key_releases(self.keys@, self.keys@.len() as int);
        let mut j: usize = 0;
        assert(texts(out@) =~= ups + button_releases(self.buttons@, 0));
        while j < self.buttons.len()
            invariant
                j <= self.buttons@.len(),
                *self == *old(self),
                texts(out@) == ups + button_releases(self.buttons@, j as int),
            decreases self.buttons.len() - j,
        {
            let ghost before = out@;
            if let Some(m) = mouse_button(self.buttons[j], false) {
                out.push(m);
                assert(texts(out@) =~= texts(before).push(m@));
                assert(texts(out@) =~= ups + button_releases(self.buttons@, j + 1));
            }
            j = j + 1;
        }
        self.keys.clear();
        self.buttons.clear();
        out
    }
}

proof fn lemma_place<T>(held: Seq<T>, x: T, i: int)
    requires
        held.no_duplicates(),
        0 <= i <= held.len(),
        forall|j: int| 0 <= j < i ==> held[j] != x,
        i < held.len() ==> held[i] == x,
    ensures
        held.contains(x) <==> i < held.len(),
        i < held.len() ==> held.index_of(x) == i,
        with(held, x).no_duplicates(),
        without(held, x).no_duplicates(),
{
    if i < held.len() {
        assert(held.contains(held[i]));
        assert(held[held.index_of(x)] == x);
        assert(held.remove(i).no_duplicates()) by {
            let r = held.remove(i);
            assert forall|a: int, b: int|
                0 <= a < r.len() && 0 <= b < r.len() && a != b implies r[a] != r[b] by {
                let p = if a < i {
                    a
                } else {
                    a + 1
                };
                let q = if b < i {
                    b
                } else {
                    b + 1
                };
                assert(r[a] == held[p] && r[b] == held[q]);
            }
        }
    }
}

/// Whether the last that was told of `x` is that it went down.
pub open spec fn last_down<T>(told: Seq<(T, bool)>, x: T) -> bool {
    exists|i: int| #[trigger] tells_down(told, x, i)
}

/// Whether message `i` tells that `x` went down, and none after it is about `x`.
pub open spec fn tells_down<T>(told: Seq<(T, bool)>, x: T, i: int) -> bool {
    &&& 0 <= i < told.len()
    &&& told[i] == (x, true)
    &&& forall|j: int| i < j < told.len() ==> (#[trigger] told[j]).0 != x
}

/// Whether what is held is what the guest believes is down.
pub open spec fn in_step<T>(held: Seq<T>, told: Seq<(T, bool)>) -> bool {
    held.no_duplicates() && forall|x: T| #[trigger] held.contains(x) <==> last_down(told, x)
}

/// What is held stays what the guest believes is down, with each press and release.
pub proof fn law_held_is_what_guest_has_down<T>(
    held: Seq<T>,
    told: Seq<(T, bool)>,
    x: T,
    down: bool,
)
    requires
        in_step(held, told),
    ensures
        in_step(held_after(held, x, down), told.push((x, down))),
{
    let after = held_after(held, x, down);
    let now = told.push((x, down));
    let i = if held.contains(x) {
        held.index_of(x)
    } else {
        held.len() as int
    };
    if held.contains(x) {
        assert(held[i] == x);
    }
    assert forall|j: int| 0 <= j < i implies held[j] != x by {
        if held[j] == x {
            assert(held.contains(x));
        }
    }
    lemma_place(held, x, i);
    assert forall|y: T| #[trigger] after.contains(y) <==> last_down(now, y) by {
        if y == x {
            if down {
                assert(tells_down(now, x, told.len() as int));
                if !held.contains(x) {
                    assert(after[held.len() as int] == x);
                }
            } else {
                assert(now[told.len() as int].0 == x);
                if held.contains(x) && after.contains(x) {
                    let k = choose|k: int| 0 <= k < after.len() && after[k] == x;
                    assert(after[k] == held[if k < i {
                        k
                    } else {
                        k + 1
                    }]);
                }
                assert forall|k: int| !#[trigger] tells_down(now, x, k) by {
                    if tells_down(now, x, k) {
                        assert(now[told.len() as int].0 != x || k == told.len());
                    }
                }
            }
        } else {
            if last_down(told, y) {
                let k = choose|k: int| #[trigger] tells_down(told, y, k);
                assert(tells_down(now, y, k));
            }
            if last_down(now, y) {
                let k = choose|k: int| #[trigger] tells_down(now, y, k);
                assert forall|j: int| k < j < told.len() implies (#[trigger] told[j]).0 != y by {
                    assert(now[j] == told[j]);
                }
                assert(tells_down(told, y, k));
            }
            if held.contains(y) {
                let k = choose|k: int| 0 <= k < held.len() && held[k] == y;
                if down {
                    assert(after[k] == y);
                } else if held.contains(x) {
                    assert(after[if k < i {
                        k
                    } else {
                        k - 1
                    }] == y);
                }
            }
            if after.contains(y) {
                let k = choose|k: int| 0 <= k < after.len() && after[k] == y;
                if down {
                    if k < held.len() {
                        assert(held[k] == y);
                    }
                } else if held.contains(x) {
                    assert(held[if k < i {
                        k
                    } else {
                        k + 1
                    }] == y);
                } else {
                    assert(held[k] == y);
                }
            }
        }
    }
}

/// When all that is held is released, the guest believes nothing is down: nothing sticks.
pub proof fn law_nothing_sticks<T>(held: Seq<T>, told: Seq<(T, bool)>, x: T)
    requires
        in_step(held, told),
    ensures
        !last_down(told + held.map_values(|y: T| (y, false)), x),
{
    let ups = held.map_values(|y: T| (y, false));
    let now = told + ups;
    if last_down(now, x) {
        let k = choose|k: int| #[trigger] tells_down(now, x, k);
        if k >= told.len() {
            assert(now[k] == ups[k - told.len()]);
        } else {
            assert forall|j: int| k < j < told.len() implies (#[trigger] told[j]).0 != x by {
                assert(now[j] == told[j]);
            }
            assert(told[k] == now[k]);
            assert(tells_down(told, x, k));
            assert(held.contains(x));
            let h = held.index_of(x);
            assert(held[h] == x);
            assert(now[told.len() + h] == (x, false));
        }
    }
}

/// The place of a letter key in the alphabet.
pub open spec fn letter_number(k: Key) -> Option<int> {
    match k {
        Key::KeyA => Some(0),
        Key::KeyB => Some(1),
        Key::KeyC => Some(2),
        Key::KeyD => Some(3),
        Key::KeyE => Some(4),
        Key::KeyF => Some(5),
        Key::KeyG => Some(6),
        Key::KeyH => Some(7),
        Key::KeyI => Some(8),
        Key::KeyJ => Some(9),
        Key::KeyK => Some(10),
        Key::KeyL => Some(11),
        Key::KeyM => Some(12),
        Key::KeyN => Some(13),
        Key::KeyO => Some(14),
        Key::KeyP => Some(15),
        Key::KeyQ => Some(16),
        Key::KeyR => Some(17),
        Key::KeyS => Some(18),
        Key::KeyT => Some(19),
        Key::KeyU => Some(20),
        Key::KeyV => Some(21),
        Key::KeyW => Some(22),
        Key::KeyX => Some(23),
        Key::KeyY => Some(24),
        Key::KeyZ => Some(25),
        _ => None,
    }
}

/// The digit of a digit key, above the letters or on the keypad.
pub open spec fn digit_number(k: Key) -> Option<int> {
    match k {
        Key::Digit0 | Key::Numpad0 => Some(0),
        Key::Digit1 | Key::Numpad1 => Some(1),
        Key::Digit2 | Key::Numpad2 => Some(2),
        Key::Digit3 | Key::Numpad3 => Some(3),
        Key::Digit4 | Key::Numpad4 => Some(4),
        Key::Digit5 | Key::Numpad5 => Some(5),
        Key::Digit6 | Key::Numpad6 => Some(6),
        Key::Digit7 | Key::Numpad7 => Some(7),
        Key::Digit8 | Key::Numpad8 => Some(8),
        Key::Digit9 | Key::Numpad9 => Some(9),
        _ => None,
    }
}

/// Whether a key is one of the keypad's digits.
pub open spec fn on_keypad(k: Key) -> bool {
    match k {
        Key::Numpad0 | Key::Numpad1 | Key::Numpad2 | Key::Numpad3 | Key::Numpad4
        | Key::Numpad5 | Key::Numpad6 | Key::Numpad7 | Key::Numpad8 | Key::Numpad9 => true,
        _ => false,
    }
}

/// A letter key has the code of its small letter; a digit key that of its digit, with `kp_` before
/// it on the keypad.
pub proof fn law_letters_and_digits(k: Key)
    ensures
        letter_number(k) is Some ==> key_code(k) == Some(
            seq![(97 + letter_number(k)->0) as char],
        ),
        digit_number(k) is Some && !on_keypad(k) ==> key_code(k) == Some(
            seq![(48 + digit_number(k)->0) as char],
        ),
        digit_number(k) is Some && on_keypad(k) ==> key_code(k) == Some(
            seq!['k', 'p', '_', (48 + digit_number(k)->0) as char],
        ),
{
    match k {
        Key::KeyA => {
            reveal_strlit("a");
            assert(key_code(k)->0 =~= seq![(97 + letter_number(k)->0) as char]);
        },
        Key::KeyB => {
            reveal_strlit("b");
            assert(key_code(k)->0 =~= seq![(97 + letter_number(k)->0) as char]);
        },
        Key::KeyC => {
            reveal_strlit("c");
            assert(key_code(k)->0 =~= seq![(97 + letter_number(k)->0) as char]);
        },
        Key::KeyD => {
            reveal_strlit("d");
            assert(key_code(k)->0 =~= seq![(97 + letter_number(k)->0) as char]);
        },
        Key::KeyE => {
            reveal_strlit("e");
            assert(key_code(k)->0 =~= seq![(97 + letter_number(k)->0) as char]);
        },
        Key::KeyF => {
            reveal_strlit("f");
            assert(key_code(k)->0 =~= seq![(97 + letter_number(k)->0) as char]);
        },
        Key::KeyG => {
            reveal_strlit("g");
            assert(key_code(k)->0 =~= seq![(97 + letter_number(k)->0) as char]);
        },
        Key::KeyH => {
            reveal_strlit("h");
            assert(key_code(k)->0 =~= seq![(97 + letter_number(k)->0) as char]);
        },
        Key::KeyI => {
            reveal_strlit("i");
            assert(key_code(k)->0 =~= seq![(97 + letter_number(k)->0) as char]);
        },
        Key::KeyJ => {
            reveal_strlit("j");
            assert(key_code(k)->0 =~= seq![(97 + letter_number(k)->0) as char]);
        },
        Key::KeyK => {
            reveal_strlit("k");
            assert(key_code(k)->0 =~= seq![(97 + letter_number(k)->0) as char]);
        },
        Key::KeyL => {
            reveal_strlit("l");
            assert(key_code(k)->0 =~= seq![(97 + letter_number(k)->0) as char]);
        },
        Key::KeyM => {
            reveal_strlit("m");
            assert(key_code(k)->0 =~= seq![(97 + letter_number(k)->0) as char]);
        },
        Key::KeyN => {
            reveal_strlit("n");
            assert(key_code(k)->0 =~= seq![(97 + letter_number(k)->0) as char]);
        },
        Key::KeyO => {
            reveal_strlit("o");
            assert(key_code(k)->0 =~= seq![(97 + letter_number(k)->0) as char]);
        },
        Key::KeyP => {
            reveal_strlit("p");
            assert(key_code(k)->0 =~= seq![(97 + letter_number(k)->0) as char]);
        },
        Key::KeyQ => {
            reveal_strlit("q");
            assert(key_code(k)->0 =~= seq![(97 + letter_number(k)->0) as char]);
        },
        Key::KeyR => {
            reveal_strlit("r");
            assert(key_code(k)->0 =~= seq![(97 + letter_number(k)->0) as char]);
        },
        Key::KeyS => {
            reveal_strlit("s");
            assert(key_code(k)->0 =~= seq![(97 + letter_number(k)->0) as char]);
        },
        Key::KeyT => {
            reveal_strlit("t");
            assert(key_code(k)->0 =~= seq![(97 + letter_number(k)->0) as char]);
        },
        Key::KeyU => {
            reveal_strlit("u");
            assert(key_code(k)->0 =~= seq![(97 + letter_number(k)->0) as char]);
        },
        Key::KeyV => {
            reveal_strlit("v");
            assert(key_code(k)->0 =~= seq![(97 + letter_number(k)->0) as char]);
        },
        Key::KeyW => {
            reveal_strlit("w");
            assert(key_code(k)->0 =~= seq![(97 + letter_number(k)->0) as char]);
        },
        Key::KeyX => {
            reveal_strlit("x");
            assert(key_code(k)->0 =~= seq![(97 + letter_number(k)->0) as char]);
        },
        Key::KeyY => {
            reveal_strlit("y");
            assert(key_code(k)->0 =~= seq![(97 + letter_number(k)->0) as char]);
        },
        Key::KeyZ => {
            reveal_strlit("z");
            assert(key_code(k)->0 =~= seq![(97 + letter_number(k)->0) as char]);
        },
        Key::Digit0 => {
            reveal_strlit("0");
            assert(key_code(k)->0 =~= seq![(48 + digit_number(k)->0) as char]);
        },
        Key::Numpad0 => {
            reveal_strlit("kp_0");
            assert(key_code(k)->0 =~= seq!['k', 'p', '_', (48 + digit_number(k)->0) as char]);
        },
        Key::Digit1 => {
            reveal_strlit("1");
            assert(key_code(k)->0 =~= seq![(48 + digit_number(k)->0) as char]);
        },
        Key::Numpad1 => {
            reveal_strlit("kp_1");
            assert(key_code(k)->0 =~= seq!['k', 'p', '_', (48 + digit_number(k)->0) as char]);
        },
        Key::Digit2 => {
            reveal_strlit("2");
            assert(key_code(k)->0 =~= seq![(48 + digit_number(k)->0) as char]);
        },
        Key::Numpad2 => {
            reveal_strlit("kp_2");
            assert(key_code(k)->0 =~= seq!['k', 'p', '_', (48 + digit_number(k)->0) as char]);
        },
        Key::Digit3 => {
            reveal_strlit("3");
            assert(key_code(k)->0 =~= seq![(48 + digit_number(k)->0) as char]);
        },
        Key::Numpad3 => {
            reveal_strlit("kp_3");
            assert(key_code(k)->0 =~= seq!['k', 'p', '_', (48 + digit_number(k)->0) as char]);
        },
        Key::Digit4 => {
            reveal_strlit("4");
            assert(key_code(k)->0 =~= seq![(48 + digit_number(k)->0) as char]);
        },
        Key::Numpad4 => {
            reveal_strlit("kp_4");
            assert(key_code(k)->0 =~= seq!['k', 'p', '_', (48 + digit_number(k)->0) as char]);
        },
        Key::Digit5 => {
            reveal_strlit("5");
            assert(key_code(k)->0 =~= seq![(48 + digit_number(k)->0) as char]);
        },
        Key::Numpad5 => {
            reveal_strlit("kp_5");
            assert(key_code(k)->0 =~= seq!['k', 'p', '_', (48 + digit_number(k)->0) as char]);
        },
        Key::Digit6 => {
            reveal_strlit("6");
            assert(key_code(k)->0 =~= seq![(48 + digit_number(k)->0) as char]);
        },
        Key::Numpad6 => {
            reveal_strlit("kp_6");
            assert(key_code(k)->0 =~= seq!['k', 'p', '_', (48 + digit_number(k)->0) as char]);
        },
        Key::Digit7 => {
            reveal_strlit("7");
            assert(key_code(k)->0 =~= seq![(48 + digit_number(k)->0) as char]);
        },
        Key::Numpad7 => {
            reveal_strlit("kp_7");
            assert(key_code(k)->0 =~= seq!['k', 'p', '_', (48 + digit_number(k)->0) as char]);
        },
        Key::Digit8 => {
            reveal_strlit("8");
            assert(key_code(k)->0 =~= seq![(48 + digit_number(k)->0) as char]);
        },
        Key::Numpad8 => {
            reveal_strlit("kp_8");
            assert(key_code(k)->0 =~= seq!['k', 'p', '_', (48 + digit_number(k)->0) as char]);
        },
        Key::Digit9 => {
            reveal_strlit("9");
            assert(key_code(k)->0 =~= seq![(48 + digit_number(k)->0) as char]);
        },
        Key::Numpad9 => {
            reveal_strlit("kp_9");
            assert(key_code(k)->0 =~= seq!['k', 'p', '_', (48 + digit_number(k)->0) as char]);
        },
        _ => {},
    }
}

/// A button's message says which button, and ends with its state: `1` for down, `0` for up. There is
/// one for each of the three buttons, and none for any other.
pub proof fn law_button_message(b: MouseButton, down: bool, r: Option<String>)
    requires
        call_ensures(mouse_button, (b, down), r),
    ensures
        r is None <==> b is Other,
        r is Some ==> {
            let m = r->0@;
            &&& m.len() == 23
            &&& m[6] == 'b'
            &&& b is Left <==> m[14] == 'l'
            &&& b is Right <==> m[14] == 'r'
            &&& b is Middle <==> m[14] == 'm'
            &&& m[18] == 'd'
            &&& m[21] == if down {
                '1'
            } else {
                '0'
            }
        },
{
    reveal_strlit("{\"t\":\"b\",\"b\":\"");
    reveal_strlit("\",\"d\":");
    reveal_strlit("}");
    reveal_strlit("0");
    reveal_strlit("1");
    reveal_strlit("l");
    reveal_strlit("r");
    reveal_strlit("m");
}

/// A key's message holds its code in the place for it, and ends with its state: `1` for down, `0`
/// for up. Only a key without a code has none.
pub proof fn law_key_message(k: Key, down: bool, q: Option<&'static str>, r: Option<String>)
    requires
        call_ensures(qcode, (k,), q),
        call_ensures(key, (k, down), r),
    ensures
        r is None <==> k is Other,
        q is None <==> k is Other,
        r is Some ==> {
            let m = r->0@;
            let n = q->0@.len() as int;
            &&& m.len() == n + 22
            &&& m[6] == 'k'
            &&& m[10] == 'q'
            &&& m.subrange(14, 14 + n) == q->0@
            &&& m[n + 17] == 'd'
            &&& m[n + 20] == if down {
                '1'
            } else {
                '0'
            }
        },
{
    reveal_strlit("{\"t\":\"k\",\"q\":\"");
    reveal_strlit("\",\"d\":");
    reveal_strlit("}");
    reveal_strlit("0");
    reveal_strlit("1");
    if r is Some {
        assert(r->0@.subrange(14, 14 + q->0@.len() as int) =~= q->0@);
    }
}

/// The wheel turns as the number says: up above zero, down below, and not at all at either zero.
pub proof fn law_wheel_turns(bits: u32, r: Option<String>)
    requires
        call_ensures(wheel, (bits,), r),
    ensures
        bits == 0 || bits == 0x8000_0000 <==> r is None,
        1 <= bits <= 0x7F80_0000 ==> r is Some && r->0@ == "{\"t\":\"w\",\"d\":1}"@,
        0x8000_0001 <= bits <= 0xFF80_0000 ==> r is Some && r->0@ == "{\"t\":\"w\",\"d\":-1}"@,
{
}

/// A key that goes down is held and one that goes up is not, and no other key or button is touched.
/// A repeat tells the guest nothing.
pub proof fn law_keys_are_held(
    h: &mut Held,
    k: Key,
    pressed: bool,
    repeat: bool,
    r: Option<String>,
    other: Key,
)
    requires
        old(h).wf(),
        call_ensures(Held::key_event, (h, k, pressed, repeat), r),
        other != k,
    ensures
        !repeat ==> final(h).keys().contains(k) == pressed,
        final(h).keys().contains(other) == old(h).keys().contains(other),
        final(h).buttons() == old(h).buttons(),
        repeat ==> r is None && final(h).keys() == old(h).keys(),
        !repeat ==> (r is Some <==> !(k is Other)),
{
    lemma_held_membership(old(h).keys(), k, pressed, other);
    if !repeat {
        assert(text_of(r) == key_message(k, pressed));
    }
}

/// A button that goes down is held and one that goes up is not, and no other button or key is
/// touched.
pub proof fn law_buttons_are_held(
    h: &mut Held,
    b: MouseButton,
    pressed: bool,
    r: Option<String>,
    other: MouseButton,
)
    requires
        old(h).wf(),
        call_ensures(Held::button_event, (h, b, pressed), r),
        other != b,
    ensures
        final(h).buttons().contains(b) == pressed,
        final(h).buttons().contains(other) == old(h).buttons().contains(other),
        final(h).keys() == old(h).keys(),
        r is Some <==> !(b is Other),
{
    lemma_held_membership(old(h).buttons(), b, pressed, other);
    assert(text_of(r) == button_message(b, pressed));
}

proof fn lemma_held_membership<T>(held: Seq<T>, x: T, down: bool, y: T)
    requires
        held.no_duplicates(),
        x != y,
    ensures
        held_after(held, x, down).contains(x) == down,
        held_after(held, x, down).contains(y) == held.contains(y),
{
    let after = held_after(held, x, down);
    let i = held.index_of(x);
    if held.contains(x) {
        assert(held[i] == x);
    } else {
        assert(held.push(x)[held.len() as int] == x);
    }
    if held.contains(y) {
        let k = held.index_of(y);
        assert(held[k] == y);
        if !down && held.contains(x) {
            assert(after[if k < i {
                k
            } else {
                k - 1
            }] == y);
        } else {
            assert(after[k] == y);
        }
    }
    if after.contains(y) {
        let k = after.index_of(y);
        assert(after[k] == y);
        if !down && held.contains(x) {
            assert(held[if k < i {
                k
            } else {
                k + 1
            }] == y);
        } else {
            assert(held[k] == y);
        }
    }
    if !down && held.contains(x) && after.contains(x) {
        let k = after.index_of(x);
        assert(held[if k < i {
            k
        } else {
            k + 1
        }] == x);
    }
}

/// Releasing everything tells the guest that each key and button that it knows is up, and leaves
/// nothing held.
pub proof fn law_release_tells_of_each(h: &mut Held, out: Vec<String>, i: int, j: int)
    requires
        old(h).wf(),
        call_ensures(Held::release_all, (h,), out),
    ensures
        final(h).keys().len() == 0,
        final(h).buttons().len() == 0,
        0 <= i < old(h).keys().len() && !(old(h).keys()[i] is Other) ==> texts(out@).contains(
            key_message(old(h).keys()[i], false)->0,
        ),
        0 <= j < old(h).buttons().len() && !(old(h).buttons()[j] is Other) ==> texts(
            out@,
        ).contains(button_message(old(h).buttons()[j], false)->0),
        out@.len() <= old(h).keys().len() + old(h).buttons().len(),
{
    let keys = old(h).keys();
    let buttons = old(h).buttons();
    let a = key_releases(keys, keys.len() as int);
    let b = button_releases(buttons, buttons.len() as int);
    assert(texts(out@) == a + b);
    lemma_key_released(keys, keys.len() as int, i);
    lemma_button_released(buttons, buttons.len() as int, j);
    if 0 <= i < keys.len() && !(keys[i] is Other) {
        let m = key_message(keys[i], false)->0;
        let at = a.index_of(m);
        assert((a + b)[at] == m);
    }
    if 0 <= j < buttons.len() && !(buttons[j] is Other) {
        let m = button_message(buttons[j], false)->0;
        let at = b.index_of(m);
        assert((a + b)[a.len() + at] == m);
    }
    assert(texts(out@).len() == out@.len());
}

proof fn lemma_key_released(keys: Seq<Key>, n: int, i: int)
    requires
        0 <= n <= keys.len(),
    ensures
        key_releases(keys, n).len() <= n,
        0 <= i < n && !(keys[i] is Other) ==> key_releases(keys, n).contains(
            key_message(keys[i], false)->0,
        ),
    decreases n,
{
    if n > 0 {
        lemma_key_released(keys, n - 1, i);
        let before = key_releases(keys, n - 1);
        let after = key_releases(keys, n);
        if 0 <= i < n && !(keys[i] is Other) {
            let m = key_message(keys[i], false)->0;
            if i == n - 1 {
                assert(after[before.len() as int] == m);
            } else {
                let at = before.index_of(m);
                assert(after[at] == m);
            }
        }
    }
}

proof fn lemma_button_released(buttons: Seq<MouseButton>, n: int, i: int)
    requires
        0 <= n <= buttons.len(),
    ensures
        button_releases(buttons, n).len() <= n,
        0 <= i < n && !(buttons[i] is Other) ==> button_releases(buttons, n).contains(
            button_message(buttons[i], false)->0,
        ),
    decreases n,
{
    if n > 0 {
        lemma_button_released(buttons, n - 1, i);
        let before = button_releases(buttons, n - 1);
        let after = button_releases(buttons, n);
        if 0 <= i < n && !(buttons[i] is Other) {
            let m = button_message(buttons[i], false)->0;
            if i == n - 1 {
                assert(after[before.len() as int] == m);
            } else {
                let at = before.index_of(m);
                assert(after[at] == m);
            }
        }
    }
}

/// The number of a function key.
pub open spec fn function_number(k: Key) -> Option<nat> {
    match k {
        Key::F1 => Some(1),
        Key::F2 => Some(2),
        Key::F3 => Some(3),
        Key::F4 => Some(4),
        Key::F5 => Some(5),
        Key::F6 => Some(6),
        Key::F7 => Some(7),
        Key::F8 => Some(8),
        Key::F9 => Some(9),
        Key::F10 => Some(10),
        Key::F11 => Some(11),
        Key::F12 => Some(12),
        _ => None,
    }
}

/// A function key has the code `f` and its number. A modifier on the right has the code of its twin
/// on the left with `_r` behind it, but for the two logo keys, which end in `_l` and `_r`.
pub proof fn law_function_keys_and_modifiers(k: Key)
    ensures
        function_number(k) is Some ==> key_code(k) == Some(
            seq!['f'] + crate::text::decimal(function_number(k)->0),
        ),
        key_code(Key::ShiftRight)->0 == key_code(Key::ShiftLeft)->0 + seq!['_', 'r'],
        key_code(Key::ControlRight)->0 == key_code(Key::ControlLeft)->0 + seq!['_', 'r'],
        key_code(Key::AltRight)->0 == key_code(Key::AltLeft)->0 + seq!['_', 'r'],
        key_code(Key::SuperRight)->0.drop_last() == key_code(Key::SuperLeft)->0.drop_last(),
        key_code(Key::SuperLeft)->0.last() == 'l',
        key_code(Key::SuperRight)->0.last() == 'r',
        key_code(Key::ShiftLeft)->0 == seq!['s', 'h', 'i', 'f', 't'],
        key_code(Key::ControlLeft)->0 == seq!['c', 't', 'r', 'l'],
        key_code(Key::AltLeft)->0 == seq!['a', 'l', 't'],
        key_code(Key::SuperLeft)->0 == seq!['m', 'e', 't', 'a', '_', 'l'],
{
    reveal_strlit("shift");
    reveal_strlit("shift_r");
    reveal_strlit("ctrl");
    reveal_strlit("ctrl_r");
    reveal_strlit("alt");
    reveal_strlit("alt_r");
    reveal_strlit("meta_l");
    reveal_strlit("meta_r");
    assert(key_code(Key::SuperRight)->0.drop_last() =~= key_code(Key::SuperLeft)->0.drop_last());
    reveal_with_fuel(crate::text::decimal, 3);
    match k {
        Key::F1 => {
            reveal_strlit("f1");
            assert(key_code(k)->0 =~= seq!['f'] + crate::text::decimal(1));
        },
        Key::F2 => {
            reveal_strlit("f2");
            assert(key_code(k)->0 =~= seq!['f'] + crate::text::decimal(2));
        },
        Key::F3 => {
            reveal_strlit("f3");
            assert(key_code(k)->0 =~= seq!['f'] + crate::text::decimal(3));
        },
        Key::F4 => {
            reveal_strlit("f4");
            assert(key_code(k)->0 =~= seq!['f'] + crate::text::decimal(4));
        },
        Key::F5 => {
            reveal_strlit("f5");
            assert(key_code(k)->0 =~= seq!['f'] + crate::text::decimal(5));
        },
        Key::F6 => {
            reveal_strlit("f6");
            assert(key_code(k)->0 =~= seq!['f'] + crate::text::decimal(6));
        },
        Key::F7 => {
            reveal_strlit("f7");
            assert(key_code(k)->0 =~= seq!['f'] + crate::text::decimal(7));
        },
        Key::F8 => {
            reveal_strlit("f8");
            assert(key_code(k)->0 =~= seq!['f'] + crate::text::decimal(8));
        },
        Key::F9 => {
            reveal_strlit("f9");
            assert(key_code(k)->0 =~= seq!['f'] + crate::text::decimal(9));
        },
        Key::F10 => {
            reveal_strlit("f10");
            assert(key_code(k)->0 =~= seq!['f'] + crate::text::decimal(10));
        },
        Key::F11 => {
            reveal_strlit("f11");
            assert(key_code(k)->0 =~= seq!['f'] + crate::text::decimal(11));
        },
        Key::F12 => {
            reveal_strlit("f12");
            assert(key_code(k)->0 =~= seq!['f'] + crate::text::decimal(12));
        },
        _ => {},
    }
}

/// The keys that move the cursor, edit and space carry the names that QEMU gives them.
pub proof fn law_named_keys()
    ensures
        key_code(Key::ArrowUp) == Some("up"@),
        key_code(Key::ArrowDown) == Some("down"@),
        key_code(Key::ArrowLeft) == Some("left"@),
        key_code(Key::ArrowRight) == Some("right"@),
        key_code(Key::Home) == Some("home"@),
        key_code(Key::End) == Some("end"@),
        key_code(Key::PageUp) == Some("pgup"@),
        key_code(Key::PageDown) == Some("pgdn"@),
        key_code(Key::Insert) == Some("insert"@),
        key_code(Key::Delete) == Some("delete"@),
        key_code(Key::Enter) == Some("ret"@),
        key_code(Key::Escape) == Some("esc"@),
        key_code(Key::Space) == Some("spc"@),
        key_code(Key::Backspace) == Some("backspace"@),
        key_code(Key::Tab) == Some("tab"@),
        key_code(Key::CapsLock) == Some("caps_lock"@),
        key_code(Key::ContextMenu) == Some("menu"@),
        key_code(Key::Minus) == Some("minus"@),
        key_code(Key::Equal) == Some("equal"@),
        key_code(Key::BracketLeft) == Some("bracket_left"@),
        key_code(Key::BracketRight) == Some("bracket_right"@),
        key_code(Key::Backslash) == Some("backslash"@),
        key_code(Key::Semicolon) == Some("semicolon"@),
        key_code(Key::Quote) == Some("apostrophe"@),
        key_code(Key::Comma) == Some("comma"@),
        key_code(Key::Period) == Some("dot"@),
        key_code(Key::Slash) == Some("slash"@),
        key_code(Key::Backquote) == Some("grave_accent"@),
        key_code(Key::NumpadAdd) == Some("kp_add"@),
        key_code(Key::NumpadSubtract) == Some("kp_subtract"@),
        key_code(Key::NumpadMultiply) == Some("kp_multiply"@),
        key_code(Key::NumpadDivide) == Some("kp_divide"@),
        key_code(Key::NumpadEnter) == Some("kp_enter"@),
        key_code(Key::NumpadDecimal) == Some("kp_decimal"@),
        key_code(Key::Other) is None,
{
}

} // verus!
