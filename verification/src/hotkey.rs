//! The keyboard shortcut that shows and hides the overlay.
//!
//! A shortcut is stored as a virtual-key code and four modifiers. This module
//! says which keys have a code, how a shortcut is written out, and what becomes
//! of the shortcut in effect when another one is asked for. Registering it with
//! the system is the caller's.

use crate::messages::HotkeyConfig;
use crate::text;
use crate::text::{decimal_of, hex_pair_of};
use vstd::prelude::*;
use vstd::string::*;

verus! {

/// Flag of the Alt key in a registration.
pub const MOD_ALT: u32 = 0x0001;

/// Flag of the Ctrl key in a registration.
pub const MOD_CONTROL: u32 = 0x0002;

/// Flag of the Shift key in a registration.
pub const MOD_SHIFT: u32 = 0x0004;

/// Flag of the Windows key in a registration.
pub const MOD_WIN: u32 = 0x0008;

/// Flag that keeps a held combination from firing more than once.
pub const MOD_NOREPEAT: u32 = 0x4000;

/// A key that is not a modifier.
#[derive(Debug, Clone, Copy, PartialEq, Eq, Structural)]
pub enum Key {
    A,
    B,
    C,
    D,
    E,
    F,
    G,
    H,
    I,
    J,
    K,
    L,
    M,
    N,
    O,
    P,
    Q,
    R,
    S,
    T,
    U,
    V,
    W,
    X,
    Y,
    Z,
    Num0,
    Num1,
    Num2,
    Num3,
    Num4,
    Num5,
    Num6,
    Num7,
    Num8,
    Num9,
    F1,
    F2,
    F3,
    F4,
    F5,
    F6,
    F7,
    F8,
    F9,
    F10,
    F11,
    F12,
    Space,
    Tab,
    Enter,
    Backspace,
    Insert,
    Delete,
    Home,
    End,
    PageUp,
    PageDown,
    ArrowLeft,
    ArrowRight,
    ArrowUp,
    ArrowDown,
    Escape,
    Backtick,
    /// Any other key; none of them can be part of a shortcut.
    Other,
}

/// The virtual-key code of a key that a shortcut can hold.
pub open spec fn key_code(key: Key) -> Option<u32> {
    match key {
        Key::A => Some(0x41),
        Key::B => Some(0x42),
        Key::C => Some(0x43),
        Key::D => Some(0x44),
        Key::E => Some(0x45),
        Key::F => Some(0x46),
        Key::G => Some(0x47),
        Key::H => Some(0x48),
        Key::I => Some(0x49),
        Key::J => Some(0x4A),
        Key::K => Some(0x4B),
        Key::L => Some(0x4C),
        Key::M => Some(0x4D),
        Key::N => Some(0x4E),
        Key::O => Some(0x4F),
        Key::P => Some(0x50),
        Key::Q => Some(0x51),
        Key::R => Some(0x52),
        Key::S => Some(0x53),
        Key::T => Some(0x54),
        Key::U => Some(0x55),
        Key::V => Some(0x56),
        Key::W => Some(0x57),
        Key::X => Some(0x58),
        Key::Y => Some(0x59),
        Key::Z => Some(0x5A),
        Key::Num0 => Some(0x30),
        Key::Num1 => Some(0x31),
        Key::Num2 => Some(0x32),
        Key::Num3 => Some(0x33),
        Key::Num4 => Some(0x34),
        Key::Num5 => Some(0x35),
        Key::Num6 => Some(0x36),
        Key::Num7 => Some(0x37),
        Key::Num8 => Some(0x38),
        Key::Num9 => Some(0x39),
        Key::F1 => Some(0x70),
        Key::F2 => Some(0x71),
        Key::F3 => Some(0x72),
        Key::F4 => Some(0x73),
        Key::F5 => Some(0x74),
        Key::F6 => Some(0x75),
        Key::F7 => Some(0x76),
        Key::F8 => Some(0x77),
        Key::F9 => Some(0x78),
        Key::F10 => Some(0x79),
        Key::F11 => Some(0x7A),
        Key::F12 => Some(0x7B),
        Key::Space => Some(0x20),
        Key::Tab => Some(0x09),
        Key::Enter => Some(0x0D),
        Key::Backspace => Some(0x08),
        Key::Insert => Some(0x2D),
        Key::Delete => Some(0x2E),
        Key::Home => Some(0x24),
        Key::End => Some(0x23),
        Key::PageUp => Some(0x21),
        Key::PageDown => Some(0x22),
        Key::ArrowLeft => Some(0x25),
        Key::ArrowRight => Some(0x27),
        Key::ArrowUp => Some(0x26),
        Key::ArrowDown => Some(0x28),
        Key::Escape | Key::Backtick | Key::Other => None,
    }
}

/// The virtual-key code that a key press is stored as; `None` for a key that a
/// shortcut cannot hold.
pub fn egui_key_to_vk(key: Key) -> (code: Option<u32>)
    ensures
        code == key_code(key),
{
    match key {
        Key::A => Some(0x41),
        Key::B => Some(0x42),
        Key::C => Some(0x43),
        Key::D => Some(0x44),
        Key::E => Some(0x45),
        Key::F => Some(0x46),
        Key::G => Some(0x47),
        Key::H => Some(0x48),
        Key::I => Some(0x49),
        Key::J => Some(0x4A),
        Key::K => Some(0x4B),
        Key::L => Some(0x4C),
        Key::M => Some(0x4D),
        Key::N => Some(0x4E),
        Key::O => Some(0x4F),
        Key::P => Some(0x50),
        Key::Q => Some(0x51),
        Key::R => Some(0x52),
        Key::S => Some(0x53),
        Key::T => Some(0x54),
        Key::U => Some(0x55),
        Key::V => Some(0x56),
        Key::W => Some(0x57),
        Key::X => Some(0x58),
        Key::Y => Some(0x59),
        Key::Z => Some(0x5A),
        Key::Num0 => Some(0x30),
        Key::Num1 => Some(0x31),
        Key::Num2 => Some(0x32),
        Key::Num3 => Some(0x33),
        Key::Num4 => Some(0x34),
        Key::Num5 => Some(0x35),
        Key::Num6 => Some(0x36),
        Key::Num7 => Some(0x37),
        Key::Num8 => Some(0x38),
        Key::Num9 => Some(0x39),
        Key::F1 => Some(0x70),
        Key::F2 => Some(0x71),
        Key::F3 => Some(0x72),
        Key::F4 => Some(0x73),
        Key::F5 => Some(0x74),
        Key::F6 => Some(0x75),
        Key::F7 => Some(0x76),
        Key::F8 => Some(0x77),
        Key::F9 => Some(0x78),
        Key::F10 => Some(0x79),
        Key::F11 => Some(0x7A),
        Key::F12 => Some(0x7B),
        Key::Space => Some(0x20),
        Key::Tab => Some(0x09),
        Key::Enter => Some(0x0D),
        Key::Backspace => Some(0x08),
        Key::Insert => Some(0x2D),
        Key::Delete => Some(0x2E),
        Key::Home => Some(0x24),
        Key::End => Some(0x23),
        Key::PageUp => Some(0x21),
        Key::PageDown => Some(0x22),
        Key::ArrowLeft => Some(0x25),
        Key::ArrowRight => Some(0x27),
        Key::ArrowUp => Some(0x26),
        Key::ArrowDown => Some(0x28),
        Key::Escape | Key::Backtick | Key::Other => None,
    }
}

/// The keys that are written as a word.
pub open spec fn word_of(vk: u32) -> Option<Seq<char>> {
    if vk == 0x20 {
        Some("Space"@)
    } else if vk == 0x09 {
        Some("Tab"@)
    } else if vk == 0x0D {
        Some("Enter"@)
    } else if vk == 0x08 {
        Some("Backspace"@)
    } else if vk == 0x2D {
        Some("Insert"@)
    } else if vk == 0x2E {
        Some("Delete"@)
    } else if vk == 0x24 {
        Some("Home"@)
    } else if vk == 0x23 {
        Some("End"@)
    } else if vk == 0x21 {
        Some("Page Up"@)
    } else if vk == 0x22 {
        Some("Page Down"@)
    } else if vk == 0x25 {
        Some("Left"@)
    } else if vk == 0x27 {
        Some("Right"@)
    } else if vk == 0x26 {
        Some("Up"@)
    } else if vk == 0x28 {
        Some("Down"@)
    } else {
        None
    }
}

fn word(vk: u32) -> (word: Option<&'static str>)
    ensures
        match word {
            Some(text) => word_of(vk) == Some(text@),
            None => word_of(vk) is None,
        },
{
    if vk == 0x20 {
        Some("Space")
    } else if vk == 0x09 {
        Some("Tab")
    } else if vk == 0x0D {
        Some("Enter")
    } else if vk == 0x08 {
        Some("Backspace")
    } else if vk == 0x2D {
        Some("Insert")
    } else if vk == 0x2E {
        Some("Delete")
    } else if vk == 0x24 {
        Some("Home")
    } else if vk == 0x23 {
        Some("End")
    } else if vk == 0x21 {
        Some("Page Up")
    } else if vk == 0x22 {
        Some("Page Down")
    } else if vk == 0x25 {
        Some("Left")
    } else if vk == 0x27 {
        Some("Right")
    } else if vk == 0x26 {
        Some("Up")
    } else if vk == 0x28 {
        Some("Down")
    } else {
        None
    }
}

/// What stands for a code that no key of [`Key`] has.
pub open spec fn unnamed(vk: u32) -> Seq<char> {
    "Key 0x"@ + text::hex_pair(vk as nat)
}

/// How a virtual-key code is written.
pub open spec fn name_of(vk: u32) -> Seq<char> {
    if 0x41 <= vk <= 0x5A || 0x30 <= vk <= 0x39 {
        seq![vk as char]
    } else if 0x70 <= vk <= 0x7B {
        "F"@ + text::decimal((vk - 0x70 + 1) as nat)
    } else {
        match word_of(vk) {
            Some(word) => word,
            None => unnamed(vk),
        }
    }
}

/// Names one virtual-key code.
///
/// A code that no accepted key has is shown as its number, so that a shortcut
/// which was stored with it is still described.
pub fn key_name(vk: u32) -> (name: String)
    ensures
        name@ == name_of(vk),
{
    if (0x41 <= vk && vk <= 0x5A) || (0x30 <= vk && vk <= 0x39) {
        let mut name = String::new();
        name.push(vk as u8 as char);
        assert(name@ =~= seq![vk as char]);
        return name;
    }
    if 0x70 <= vk && vk <= 0x7B {
        let mut name = String::from_str("F");
        name.append(decimal_of((vk - 0x70 + 1) as u64).as_str());
        return name;
    }
    match word(vk) {
        Some(text) => String::from_str(text),
        None => {
            let mut name = String::from_str("Key 0x");
            name.append(hex_pair_of(vk).as_str());
            name
        },
    }
}

/// A modifier and the sign that joins it to what follows, where it is held.
pub open spec fn held(modifier: bool, name: Seq<char>) -> Seq<char> {
    if modifier {
        name + "+"@
    } else {
        Seq::empty()
    }
}

/// How a shortcut is written.
pub open spec fn description(config: HotkeyConfig) -> Seq<char> {
    held(config.ctrl, "Ctrl"@) + held(config.alt, "Alt"@) + held(config.shift, "Shift"@) + held(
        config.win,
        "Win"@,
    ) + name_of(config.key)
}

fn push_held(text: &mut String, modifier: bool, name: &str)
    ensures
        final(text)@ == old(text)@ + held(modifier, name@),
{
    if modifier {
        text.append(name);
        text.append("+");
        assert(text@ =~= old(text)@ + (name@ + "+"@));
    } else {
        assert(text@ =~= old(text)@ + Seq::<char>::empty());
    }
}

/// Writes a shortcut the way it is printed on a keyboard, such as `Ctrl+Alt+V`.
pub fn describe(config: HotkeyConfig) -> (text: String)
    ensures
        text@ == description(config),
{
    let mut text = String::new();
    push_held(&mut text, config.ctrl, "Ctrl");
    push_held(&mut text, config.alt, "Alt");
    push_held(&mut text, config.shift, "Shift");
    push_held(&mut text, config.win, "Win");
    text.append(key_name(config.key).as_str());
    assert(text@ =~= description(config));
    text
}

/// A shortcut that holds a modifier. One without would take its key away from
/// every other application.
pub open spec fn is_combination(config: HotkeyConfig) -> bool {
    config.ctrl || config.alt || config.shift || config.win
}

/// Whether the combination carries at least one modifier.
pub fn has_modifier(config: HotkeyConfig) -> (yes: bool)
    ensures
        yes == is_combination(config),
{
    config.ctrl || config.alt || config.shift || config.win
}

/// The value of a flag that is set or not.
pub open spec fn flag(set: bool, value: u32) -> int {
    if set {
        value as int
    } else {
        0
    }
}

/// The flags of a shortcut: one for each modifier that it holds, and always the
/// one against repetition.
pub open spec fn flags_of(config: HotkeyConfig) -> int {
    MOD_NOREPEAT + flag(config.ctrl, MOD_CONTROL) + flag(config.alt, MOD_ALT) + flag(
        config.shift,
        MOD_SHIFT,
    ) + flag(config.win, MOD_WIN)
}

/// The modifier flags that a registration is made with.
pub fn modifier_flags(config: HotkeyConfig) -> (flags: u32)
    ensures
        flags == flags_of(config),
{
    let mut flags: u32 = MOD_NOREPEAT;
    if config.ctrl {
        flags = flags + MOD_CONTROL;
    }
    if config.alt {
        flags = flags + MOD_ALT;
    }
    if config.shift {
        flags = flags + MOD_SHIFT;
    }
    if config.win {
        flags = flags + MOD_WIN;
    }
    flags
}

/// What to ask the system for.
#[derive(Debug, Clone, Copy, PartialEq, Eq, Structural)]
pub struct Request {
    pub flags: u32,
    pub key: u32,
}

/// The request that a shortcut is registered with.
pub open spec fn request_of(config: HotkeyConfig) -> Request {
    Request { flags: flags_of(config) as u32, key: config.key }
}

/// The shortcut in effect, and whether the system accepted it.
#[derive(Debug, Clone, Copy, PartialEq, Eq, Structural)]
pub struct HotkeyControl {
    registered: bool,
    config: HotkeyConfig,
}

/// The state of a [`HotkeyControl`].
pub struct ControlModel {
    pub registered: bool,
    pub config: HotkeyConfig,
}

/// Whether a shortcut is in effect already, so that there is nothing to
/// register. The system would refuse a combination that is held.
pub open spec fn in_effect(control: ControlModel, config: HotkeyConfig) -> bool {
    control.registered && control.config == config
}

/// The control once the system has answered a registration of `config`.
pub open spec fn answered(
    control: ControlModel,
    config: HotkeyConfig,
    accepted: bool,
) -> ControlModel {
    if accepted {
        ControlModel { registered: true, config }
    } else {
        control
    }
}

impl View for HotkeyControl {
    type V = ControlModel;

    closed spec fn view(&self) -> ControlModel {
        ControlModel { registered: self.registered, config: self.config }
    }
}

impl HotkeyControl {
    /// A control that holds no registration yet.
    pub fn new(config: HotkeyConfig) -> (control: Self)
        ensures
            control@ == (ControlModel { registered: false, config }),
    {
        HotkeyControl { registered: false, config }
    }

    /// The combination in effect.
    pub fn config(&self) -> (config: HotkeyConfig)
        ensures
            config == self@.config,
    {
        self.config
    }

    /// Whether the system accepted that combination.
    pub fn is_registered(&self) -> (yes: bool)
        ensures
            yes == self@.registered,
    {
        self.registered
    }

    /// What to register so that `config` takes effect; `None` when it is in
    /// effect already.
    ///
    /// The new registration is taken out before the old one is released, so
    /// that a refused combination leaves the old one working.
    pub fn apply(&self, config: HotkeyConfig) -> (request: Option<Request>)
        ensures
            request == if in_effect(self@, config) {
                None
            } else {
                Some(request_of(config))
            },
    {
        if self.registered && self.config == config {
            None
        } else {
            Some(Request { flags: modifier_flags(config), key: config.key })
        }
    }

    /// Takes the system's answer to a registration of `config`. Where it was
    /// accepted, the registration held until now is to be released. Says
    /// whether `config` is now in effect.
    pub fn answer(&mut self, config: HotkeyConfig, accepted: bool) -> (now: bool)
        ensures
            final(self)@ == answered(old(self)@, config, accepted),
            now == accepted,
    {
        if accepted {
            self.registered = true;
            self.config = config;
        }
        accepted
    }
}

/// Every key that a shortcut can hold has a name of its own: none of them is
/// shown as a number.
pub proof fn accepted_keys_are_named(key: Key)
    requires
        key_code(key) is Some,
    ensures
        name_of(key_code(key)->0) != unnamed(key_code(key)->0),
{
    let vk = key_code(key)->0;
    reveal_strlit("Key 0x");
    reveal_strlit("F");
    reveal_strlit("Space");
    reveal_strlit("Tab");
    reveal_strlit("Enter");
    reveal_strlit("Backspace");
    reveal_strlit("Insert");
    reveal_strlit("Delete");
    reveal_strlit("Home");
    reveal_strlit("End");
    reveal_strlit("Page Up");
    reveal_strlit("Page Down");
    reveal_strlit("Left");
    reveal_strlit("Right");
    reveal_strlit("Up");
    reveal_strlit("Down");
    assert(unnamed(vk)[0] == 'K');
    assert(unnamed(vk)[1] == 'e');
    assert(name_of(vk)[0] == 'K' ==> name_of(vk).len() == 1);
    assert(unnamed(vk).len() >= 6);
}

/// Two different keys are never stored as the same code.
pub proof fn accepted_keys_have_their_own_codes(a: Key, b: Key)
    requires
        key_code(a) is Some,
        key_code(a) == key_code(b),
    ensures
        a == b,
{
}

/// A refused combination leaves the one before it in effect, and an accepted
/// one takes its place.
pub proof fn refused_combination_changes_nothing(control: ControlModel, config: HotkeyConfig)
    ensures
        answered(control, config, false) == control,
        in_effect(answered(control, config, true), config),
{
}

/// A shortcut with a letter or a digit is written as that letter or digit, one with a
/// function key as `F` and its number, and these codes as these words. Every other
/// code is written as its number.
pub proof fn codes_are_written_as_their_keys(vk: u32)
    ensures
        65 <= vk <= 90 ==> name_of(vk).len() == 1 && 'A' <= name_of(vk)[0] <= 'Z' && name_of(
            vk,
        )[0] as u32 == vk,
        48 <= vk <= 57 ==> name_of(vk).len() == 1 && '0' <= name_of(vk)[0] <= '9' && name_of(
            vk,
        )[0] as u32 == vk,
        112 <= vk <= 123 ==> name_of(vk) == "F"@ + text::decimal((vk - 111) as nat),
        name_of(0x20) == "Space"@,
        name_of(0x09) == "Tab"@,
        name_of(0x0D) == "Enter"@,
        name_of(0x08) == "Backspace"@,
        name_of(0x2D) == "Insert"@,
        name_of(0x2E) == "Delete"@,
        name_of(0x24) == "Home"@,
        name_of(0x23) == "End"@,
        name_of(0x21) == "Page Up"@,
        name_of(0x22) == "Page Down"@,
        name_of(0x25) == "Left"@,
        name_of(0x27) == "Right"@,
        name_of(0x26) == "Up"@,
        name_of(0x28) == "Down"@,
        !(65 <= vk <= 90 || 48 <= vk <= 57 || 112 <= vk <= 123) && vk != 0x20 && vk != 0x09 && vk != 0x0D && vk != 0x08 && vk != 0x2D && vk != 0x2E && vk != 0x24 && vk != 0x23 && vk != 0x21 && vk != 0x22 && vk != 0x25 && vk != 0x27 && vk != 0x26 && vk != 0x28
            ==> name_of(vk) == "Key 0x"@ + text::hex_pair(vk as nat),
{
}

/// Every key is stored as the code that is written as that key. Only Escape, the
/// backtick and keys that are not known cannot be part of a shortcut.
pub proof fn keys_are_stored_as_themselves(key: Key)
    ensures
        key_code(key) is None <==> key is Escape || key is Backtick || key is Other,
        key_code(key) matches Some(vk) ==> ({
            let name = name_of(vk);
            match key {
                Key::A => name == seq!['A'],
                Key::B => name == seq!['B'],
                Key::C => name == seq!['C'],
                Key::D => name == seq!['D'],
                Key::E => name == seq!['E'],
                Key::F => name == seq!['F'],
                Key::G => name == seq!['G'],
                Key::H => name == seq!['H'],
                Key::I => name == seq!['I'],
                Key::J => name == seq!['J'],
                Key::K => name == seq!['K'],
                Key::L => name == seq!['L'],
                Key::M => name == seq!['M'],
                Key::N => name == seq!['N'],
                Key::O => name == seq!['O'],
                Key::P => name == seq!['P'],
                Key::Q => name == seq!['Q'],
                Key::R => name == seq!['R'],
                Key::S => name == seq!['S'],
                Key::T => name == seq!['T'],
                Key::U => name == seq!['U'],
                Key::V => name == seq!['V'],
                Key::W => name == seq!['W'],
                Key::X => name == seq!['X'],
                Key::Y => name == seq!['Y'],
                Key::Z => name == seq!['Z'],
                Key::Num0 => name == seq!['0'],
                Key::Num1 => name == seq!['1'],
                Key::Num2 => name == seq!['2'],
                Key::Num3 => name == seq!['3'],
                Key::Num4 => name == seq!['4'],
                Key::Num5 => name == seq!['5'],
                Key::Num6 => name == seq!['6'],
                Key::Num7 => name == seq!['7'],
                Key::Num8 => name == seq!['8'],
                Key::Num9 => name == seq!['9'],
                Key::F1 => vk == 0x70 + 0,
                Key::F2 => vk == 0x70 + 1,
                Key::F3 => vk == 0x70 + 2,
                Key::F4 => vk == 0x70 + 3,
                Key::F5 => vk == 0x70 + 4,
                Key::F6 => vk == 0x70 + 5,
                Key::F7 => vk == 0x70 + 6,
                Key::F8 => vk == 0x70 + 7,
                Key::F9 => vk == 0x70 + 8,
                Key::F10 => vk == 0x70 + 9,
                Key::F11 => vk == 0x70 + 10,
                Key::F12 => vk == 0x70 + 11,
                Key::Space => name == "Space"@,
                Key::Tab => name == "Tab"@,
                Key::Enter => name == "Enter"@,
                Key::Backspace => name == "Backspace"@,
                Key::Insert => name == "Insert"@,
                Key::Delete => name == "Delete"@,
                Key::Home => name == "Home"@,
                Key::End => name == "End"@,
                Key::PageUp => name == "Page Up"@,
                Key::PageDown => name == "Page Down"@,
                Key::ArrowLeft => name == "Left"@,
                Key::ArrowRight => name == "Right"@,
                Key::ArrowUp => name == "Up"@,
                Key::ArrowDown => name == "Down"@,
                _ => false,
            }
        }),
{
}

/// A shortcut is written as its modifiers, each with a sign behind it, in the order
/// Ctrl, Alt, Shift, Win, and then its key.
pub proof fn shortcut_is_written_in_order(config: HotkeyConfig)
    ensures
        ({
            let ctrl = if config.ctrl {
                "Ctrl"@ + "+"@
            } else {
                Seq::empty()
            };
            let alt = if config.alt {
                "Alt"@ + "+"@
            } else {
                Seq::empty()
            };
            let shift = if config.shift {
                "Shift"@ + "+"@
            } else {
                Seq::empty()
            };
            let win = if config.win {
                "Win"@ + "+"@
            } else {
                Seq::empty()
            };
            description(config) == ctrl + alt + shift + win + name_of(config.key)
        }),
{
}

/// A registration has exactly the flags of the modifiers that the shortcut holds,
/// each at its own bit, and always the one against repetition. It asks for the
/// shortcut's key.
pub proof fn registration_has_the_modifiers(config: HotkeyConfig)
    ensures
        ({
            let request = request_of(config);
            &&& request.key == config.key
            &&& (request.flags % 2 == 1) == config.alt
            &&& ((request.flags / 2) % 2 == 1) == config.ctrl
            &&& ((request.flags / 4) % 2 == 1) == config.shift
            &&& ((request.flags / 8) % 2 == 1) == config.win
            &&& request.flags / 16 == 1024
        }),
        flags_of(config) == request_of(config).flags,
{
}

/// A shortcut counts as one only with a modifier.
pub proof fn bare_key_is_no_combination(config: HotkeyConfig)
    ensures
        !is_combination(config) <==> !config.ctrl && !config.alt && !config.shift && !config.win,
{
}

/// There is nothing to register exactly when the system holds this very combination.
/// An accepted combination is the one in effect from then on.
pub proof fn accepted_combination_is_registered(control: ControlModel, config: HotkeyConfig)
    ensures
        in_effect(control, config) <==> {
            &&& control.registered
            &&& control.config.key == config.key
            &&& control.config.ctrl == config.ctrl
            &&& control.config.alt == config.alt
            &&& control.config.shift == config.shift
            &&& control.config.win == config.win
        },
        answered(control, config, true).registered,
        answered(control, config, true).config == config,
        answered(control, config, false) == control,
{
}

} // verus!
