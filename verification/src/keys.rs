//! Named keys encoded as xterm-compatible input bytes.
use crate::text::{chars_of, decimal_bytes, digits, same, string_of, texts};
use vstd::prelude::*;
use vstd::string::*;
use vstd::utf8::encode_utf8;

verus! {

/// A key that is not one character.
#[derive(Debug, Clone, Copy, PartialEq, Eq, Structural)]
pub enum Special {
    /// CSI or SS3 key identified by a final byte: arrows, Home, End and F1-F4.
    Final { byte: u8, cursor: bool },
    /// `CSI n ~` key.
    Tilde(u8),
    /// A key that sends one byte.
    Plain(u8),
}

/// Why a key has no encoding.
#[derive(Debug, Clone, Copy, PartialEq, Eq, Structural)]
pub enum KeyFault {
    /// Shift with a single character: the shifted character is to be named instead.
    Shifted,
    /// Ctrl with a character that has no control code.
    NoControlCode(char),
    /// No key of this name.
    Unknown,
    /// A modifier that the key does not take.
    UnsupportedModifier,
}

/// A key without an encoding, by the name it was given.
#[derive(Debug)]
pub struct KeyError {
    pub name: String,
    pub fault: KeyFault,
}

/// A text between quotation marks, as it is shown to programmers.
pub uninterp spec fn quoted(text: Seq<char>) -> Seq<char>;

/// A character between quotation marks, as it is shown to programmers.
pub uninterp spec fn quoted_char(c: char) -> Seq<char>;

/// `format!` with the `Debug` form of a text.
#[verifier::external_body]
fn quote(text: &str) -> (shown: String)
    ensures
        shown@ == quoted(text@),
{
    format!("{text:?}")
}

/// `format!` with the `Debug` form of a character.
#[verifier::external_body]
fn quote_char(c: char) -> (shown: String)
    ensures
        shown@ == quoted_char(c),
{
    format!("{c:?}")
}

impl KeyError {
    pub open spec fn spec_describe(self) -> Seq<char> {
        match self.fault {
            KeyFault::Shifted => self.name@ + ": use the shifted character instead of S-"@,
            KeyFault::NoControlCode(c) => self.name@ + ": no Ctrl code for "@ + quoted_char(c),
            KeyFault::Unknown => "unknown key "@ + quoted(self.name@),
            KeyFault::UnsupportedModifier => self.name@ + ": unsupported modifier"@,
        }
    }

    /// The error in words.
    pub fn describe(&self) -> (text: String)
        ensures
            text@ == self.spec_describe(),
    {
        let mut text = self.name.clone();
        match self.fault {
            KeyFault::Shifted => {
                text.append(": use the shifted character instead of S-");
            },
            KeyFault::NoControlCode(c) => {
                text.append(": no Ctrl code for ");
                text.append(quote_char(c).as_str());
            },
            KeyFault::Unknown => {
                text = "unknown key ".to_string();
                text.append(quote(self.name.as_str()).as_str());
            },
            KeyFault::UnsupportedModifier => {
                text.append(": unsupported modifier");
            },
        }
        text
    }
}

/// The key that a lower-case name stands for.
pub open spec fn special_key(name: Seq<char>) -> Option<Special> {
    if name == "up"@ {
        Some(Special::Final { byte: 0x41, cursor: true })
    } else if name == "down"@ {
        Some(Special::Final { byte: 0x42, cursor: true })
    } else if name == "right"@ {
        Some(Special::Final { byte: 0x43, cursor: true })
    } else if name == "left"@ {
        Some(Special::Final { byte: 0x44, cursor: true })
    } else if name == "home"@ {
        Some(Special::Final { byte: 0x48, cursor: true })
    } else if name == "end"@ {
        Some(Special::Final { byte: 0x46, cursor: true })
    } else if name == "f1"@ {
        Some(Special::Final { byte: 0x50, cursor: false })
    } else if name == "f2"@ {
        Some(Special::Final { byte: 0x51, cursor: false })
    } else if name == "f3"@ {
        Some(Special::Final { byte: 0x52, cursor: false })
    } else if name == "f4"@ {
        Some(Special::Final { byte: 0x53, cursor: false })
    } else if name == "insert"@ {
        Some(Special::Tilde(2))
    } else if name == "delete"@ || name == "del"@ {
        Some(Special::Tilde(3))
    } else if name == "pageup"@ || name == "pgup"@ {
        Some(Special::Tilde(5))
    } else if name == "pagedown"@ || name == "pgdn"@ {
        Some(Special::Tilde(6))
    } else if name == "f5"@ {
        Some(Special::Tilde(15))
    } else if name == "f6"@ {
        Some(Special::Tilde(17))
    } else if name == "f7"@ {
        Some(Special::Tilde(18))
    } else if name == "f8"@ {
        Some(Special::Tilde(19))
    } else if name == "f9"@ {
        Some(Special::Tilde(20))
    } else if name == "f10"@ {
        Some(Special::Tilde(21))
    } else if name == "f11"@ {
        Some(Special::Tilde(23))
    } else if name == "f12"@ {
        Some(Special::Tilde(24))
    } else if name == "enter"@ || name == "return"@ {
        Some(Special::Plain(0x0d))
    } else if name == "tab"@ {
        Some(Special::Plain(0x09))
    } else if name == "esc"@ || name == "escape"@ {
        Some(Special::Plain(0x1b))
    } else if name == "backspace"@ || name == "bs"@ {
        Some(Special::Plain(0x7f))
    } else if name == "space"@ {
        Some(Special::Plain(0x20))
    } else {
        None
    }
}

/// Finds the key that a lower-case name stands for.
pub fn special(name: &str) -> (key: Option<Special>)
    ensures
        key == special_key(name@),
{
    if same(name, "up") {
        Some(Special::Final { byte: 0x41, cursor: true })
    } else if same(name, "down") {
        Some(Special::Final { byte: 0x42, cursor: true })
    } else if same(name, "right") {
        Some(Special::Final { byte: 0x43, cursor: true })
    } else if same(name, "left") {
        Some(Special::Final { byte: 0x44, cursor: true })
    } else if same(name, "home") {
        Some(Special::Final { byte: 0x48, cursor: true })
    } else if same(name, "end") {
        Some(Special::Final { byte: 0x46, cursor: true })
    } else if same(name, "f1") {
        Some(Special::Final { byte: 0x50, cursor: false })
    } else if same(name, "f2") {
        Some(Special::Final { byte: 0x51, cursor: false })
    } else if same(name, "f3") {
        Some(Special::Final { byte: 0x52, cursor: false })
    } else if same(name, "f4") {
        Some(Special::Final { byte: 0x53, cursor: false })
    } else if same(name, "insert") {
        Some(Special::Tilde(2))
    } else if same(name, "delete") || same(name, "del") {
        Some(Special::Tilde(3))
    } else if same(name, "pageup") || same(name, "pgup") {
        Some(Special::Tilde(5))
    } else if same(name, "pagedown") || same(name, "pgdn") {
        Some(Special::Tilde(6))
    } else if same(name, "f5") {
        Some(Special::Tilde(15))
    } else if same(name, "f6") {
        Some(Special::Tilde(17))
    } else if same(name, "f7") {
        Some(Special::Tilde(18))
    } else if same(name, "f8") {
        Some(Special::Tilde(19))
    } else if same(name, "f9") {
        Some(Special::Tilde(20))
    } else if same(name, "f10") {
        Some(Special::Tilde(21))
    } else if same(name, "f11") {
        Some(Special::Tilde(23))
    } else if same(name, "f12") {
        Some(Special::Tilde(24))
    } else if same(name, "enter") || same(name, "return") {
        Some(Special::Plain(0x0d))
    } else if same(name, "tab") {
        Some(Special::Plain(0x09))
    } else if same(name, "esc") || same(name, "escape") {
        Some(Special::Plain(0x1b))
    } else if same(name, "backspace") || same(name, "bs") {
        Some(Special::Plain(0x7f))
    } else if same(name, "space") {
        Some(Special::Plain(0x20))
    } else {
        None
    }
}

pub open spec fn lower(c: char) -> char {
    if 'A' <= c <= 'Z' {
        (c as u8 + 32) as char
    } else {
        c
    }
}

fn to_lower(c: char) -> (r: char)
    ensures
        r == lower(c),
{
    if 'A' <= c && c <= 'Z' {
        (c as u8 + 32) as char
    } else {
        c
    }
}

/// `s` with its ASCII letters in lower case.
pub open spec fn lowered(s: Seq<char>) -> Seq<char> {
    s.map_values(|c: char| lower(c))
}

/// The byte that Ctrl with a character sends.
pub open spec fn control_code(c: char) -> Option<u8> {
    let l = lower(c);
    if 'a' <= l <= 'z' {
        Some((l as u8 - 96) as u8)
    } else if l == '@' || l == ' ' {
        Some(0)
    } else if l == '[' {
        Some(0x1b)
    } else if l == '\\' {
        Some(0x1c)
    } else if l == ']' {
        Some(0x1d)
    } else if l == '^' {
        Some(0x1e)
    } else if l == '_' {
        Some(0x1f)
    } else if l == '?' {
        Some(0x7f)
    } else {
        None
    }
}

/// Finds the byte that Ctrl with a character sends.
pub fn control(c: char) -> (code: Option<u8>)
    ensures
        code == control_code(c),
{
    let l = to_lower(c);
    if 'a' <= l && l <= 'z' {
        Some(l as u8 - 96)
    } else if l == '@' || l == ' ' {
        Some(0)
    } else if l == '[' {
        Some(0x1b)
    } else if l == '\\' {
        Some(0x1c)
    } else if l == ']' {
        Some(0x1d)
    } else if l == '^' {
        Some(0x1e)
    } else if l == '_' {
        Some(0x1f)
    } else if l == '?' {
        Some(0x7f)
    } else {
        None
    }
}

/// Which modifiers are held.
#[derive(Clone, Copy, PartialEq, Eq, Structural)]
pub struct Modifiers {
    pub ctrl: bool,
    pub alt: bool,
    pub shift: bool,
}

impl Modifiers {
    /// These modifiers and the one that a prefix letter stands for.
    pub open spec fn with(self, letter: char) -> Modifiers {
        if letter == 'C' || letter == 'c' {
            Modifiers { ctrl: true, ..self }
        } else if letter == 'S' || letter == 's' {
            Modifiers { shift: true, ..self }
        } else {
            Modifiers { alt: true, ..self }
        }
    }

    pub open spec fn any(self) -> bool {
        self.ctrl || self.alt || self.shift
    }

    /// The modifier parameter of an escape sequence: 1, and 1 for Shift, 2 for Alt, 4 for Ctrl.
    pub open spec fn parameter(self) -> nat {
        1 + (if self.shift {
            1nat
        } else {
            0
        }) + (if self.alt {
            2nat
        } else {
            0
        }) + (if self.ctrl {
            4nat
        } else {
            0
        })
    }
}

pub open spec fn no_modifiers() -> Modifiers {
    Modifiers { ctrl: false, alt: false, shift: false }
}

/// Whether a letter followed by `-` is a modifier prefix.
pub open spec fn prefix_letter(c: char) -> bool {
    c == 'C' || c == 'c' || c == 'M' || c == 'm' || c == 'A' || c == 'a' || c == 'S' || c == 's'
}

/// Whether a name begins with a modifier prefix that has something behind it.
pub open spec fn prefixed(name: Seq<char>) -> bool {
    name.len() > 2 && name[1] == '-' && prefix_letter(name[0])
}

/// The modifiers of a name's prefixes.
pub open spec fn modifiers(name: Seq<char>) -> Modifiers
    decreases name.len(),
{
    if prefixed(name) {
        modifiers(name.skip(2)).with(name[0])
    } else {
        no_modifiers()
    }
}

/// What a name holds behind its modifier prefixes.
pub open spec fn bare(name: Seq<char>) -> Seq<char>
    decreases name.len(),
{
    if prefixed(name) {
        bare(name.skip(2))
    } else {
        name
    }
}

/// Alt sends an escape byte ahead of the key.
pub open spec fn lead(alt: bool) -> Seq<u8> {
    if alt {
        seq![0x1b]
    } else {
        Seq::empty()
    }
}

/// The bytes of a single character.
pub open spec fn character_encoding(c: char, held: Modifiers) -> Result<Seq<u8>, KeyFault> {
    if held.shift {
        Err(KeyFault::Shifted)
    } else if held.ctrl {
        match control_code(c) {
            Some(code) => Ok(lead(held.alt).push(code)),
            None => Err(KeyFault::NoControlCode(c)),
        }
    } else {
        Ok(lead(held.alt) + encode_utf8(seq![c]))
    }
}

/// The bytes of a key that is not one character.
pub open spec fn special_encoding(
    key: Special,
    held: Modifiers,
    application_cursor: bool,
) -> Result<Seq<u8>, KeyFault> {
    match key {
        Special::Final { byte, cursor } => if !held.any() {
            if cursor && !application_cursor {
                Ok(seq![0x1b, 0x5b, byte])
            } else {
                Ok(seq![0x1b, 0x4f, byte])
            }
        } else {
            Ok(seq![0x1b, 0x5b, 0x31, 0x3b] + digits(held.parameter()) + seq![byte])
        },
        Special::Tilde(code) => if !held.any() {
            Ok(seq![0x1b, 0x5b] + digits(code as nat) + seq![0x7e])
        } else {
            Ok(
                seq![0x1b, 0x5b] + digits(code as nat) + seq![0x3b] + digits(held.parameter())
                    + seq![0x7e],
            )
        },
        Special::Plain(byte) => if byte == 0x09 && held.shift && !held.ctrl {
            Ok(lead(held.alt) + seq![0x1b, 0x5b, 0x5a])
        } else if byte == 0x20 && held.ctrl && !held.shift {
            Ok(lead(held.alt) + seq![0u8])
        } else if held.ctrl || held.shift {
            Err(KeyFault::UnsupportedModifier)
        } else {
            Ok(lead(held.alt) + seq![byte])
        },
    }
}

/// The bytes of the key that a name stands for.
pub open spec fn encoding(name: Seq<char>, application_cursor: bool) -> Result<Seq<u8>, KeyFault> {
    let key = bare(name);
    let held = modifiers(name);
    if key.len() == 1 {
        character_encoding(key[0], held)
    } else {
        match special_key(lowered(key)) {
            Some(special) => special_encoding(special, held, application_cursor),
            None => Err(KeyFault::Unknown),
        }
    }
}

fn lead_bytes(alt: bool) -> (r: Vec<u8>)
    ensures
        r@ == lead(alt),
{
    let mut r: Vec<u8> = Vec::new();
    if alt {
        r.push(0x1b);
    }
    r
}

fn encode_character(c: char, held: Modifiers) -> (r: Result<Vec<u8>, KeyFault>)
    ensures
        match r {
            Ok(bytes) => character_encoding(c, held) == Ok::<Seq<u8>, KeyFault>(bytes@),
            Err(fault) => character_encoding(c, held) == Err::<Seq<u8>, KeyFault>(fault),
        },
{
    if held.shift {
        return Err(KeyFault::Shifted);
    }
    let mut bytes = lead_bytes(held.alt);
    if held.ctrl {
        match control(c) {
            Some(code) => {
                bytes.push(code);
                Ok(bytes)
            },
            None => Err(KeyFault::NoControlCode(c)),
        }
    } else {
        let mut text = String::new();
        text.push(c);
        assert(text@ == seq![c]);
        bytes.extend_from_slice(text.as_str().as_bytes());
        assert(bytes@ =~= lead(held.alt) + encode_utf8(seq![c]));
        Ok(bytes)
    }
}

fn encode_special(key: Special, held: Modifiers, application_cursor: bool) -> (r: Result<
    Vec<u8>,
    KeyFault,
>)
    ensures
        match r {
            Ok(bytes) => special_encoding(key, held, application_cursor) == Ok::<Seq<u8>, KeyFault>(
                bytes@,
            ),
            Err(fault) => special_encoding(key, held, application_cursor) == Err::<
                Seq<u8>,
                KeyFault,
            >(fault),
        },
{
    let any = held.ctrl || held.alt || held.shift;
    let parameter: u64 = 1 + (if held.shift {
        1u64
    } else {
        0u64
    }) + (if held.alt {
        2u64
    } else {
        0u64
    }) + (if held.ctrl {
        4u64
    } else {
        0u64
    });
    let mut bytes: Vec<u8> = Vec::new();
    match key {
        Special::Final { byte, cursor } => {
            bytes.push(0x1b);
            if any {
                bytes.push(0x5b);
                bytes.push(0x31);
                bytes.push(0x3b);
                let mut number = decimal_bytes(parameter);
                bytes.append(&mut number);
            } else if cursor && !application_cursor {
                bytes.push(0x5b);
            } else {
                bytes.push(0x4f);
            }
            bytes.push(byte);
            assert(bytes@ =~= special_encoding(key, held, application_cursor)->Ok_0);
            Ok(bytes)
        },
        Special::Tilde(code) => {
            bytes.push(0x1b);
            bytes.push(0x5b);
            let mut number = decimal_bytes(code as u64);
            bytes.append(&mut number);
            if any {
                bytes.push(0x3b);
                let mut number = decimal_bytes(parameter);
                bytes.append(&mut number);
            }
            bytes.push(0x7e);
            assert(bytes@ =~= special_encoding(key, held, application_cursor)->Ok_0);
            Ok(bytes)
        },
        Special::Plain(byte) => {
            let mut bytes = lead_bytes(held.alt);
            if byte == 0x09 && held.shift && !held.ctrl {
                bytes.push(0x1b);
                bytes.push(0x5b);
                bytes.push(0x5a);
            } else if byte == 0x20 && held.ctrl && !held.shift {
                bytes.push(0);
            } else if held.ctrl || held.shift {
                return Err(KeyFault::UnsupportedModifier);
            } else {
                bytes.push(byte);
            }
            assert(bytes@ =~= special_encoding(key, held, application_cursor)->Ok_0);
            Ok(bytes)
        },
    }
}

/// Encodes one key such as `Enter`, `Up`, `C-c`, `M-x`, `S-Tab`, `C-Left` or `F5`.
/// Prefixes `C-`, `M-` (or `A-`) and `S-` add Ctrl, Alt and Shift. Unmodified arrows,
/// Home and End use SS3 when the application enabled cursor-key mode.
pub fn encode(name: &str, application_cursor: bool) -> (r: Result<Vec<u8>, KeyError>)
    ensures
        match r {
            Ok(bytes) => encoding(name@, application_cursor) == Ok::<Seq<u8>, KeyFault>(bytes@),
            Err(error) => error.name@ == name@ && encoding(name@, application_cursor) == Err::<
                Seq<u8>,
                KeyFault,
            >(error.fault),
        },
{
    let chars = chars_of(name);
    let mut held = Modifiers { ctrl: false, alt: false, shift: false };
    let count: usize = chars.len();
    let mut at: usize = 0;
    let ghost total = modifiers(name@);
    assert(chars@.skip(0) == name@);
    while count - at > 2 && chars[at + 1] == '-' && (chars[at] == 'C' || chars[at] == 'c'
        || chars[at] == 'M' || chars[at] == 'm' || chars[at] == 'A' || chars[at] == 'a' || chars[at]
        == 'S' || chars[at] == 's')
        invariant
            at <= count == chars@.len(),
            bare(chars@.skip(at as int)) == bare(name@),
            ({
                let m = modifiers(chars@.skip(at as int));
                &&& total.ctrl == (held.ctrl || m.ctrl)
                &&& total.alt == (held.alt || m.alt)
                &&& total.shift == (held.shift || m.shift)
            }),
        decreases chars@.len() - at,
    {
        let ghost here = chars@.skip(at as int);
        let letter = chars[at];
        if letter == 'C' || letter == 'c' {
            held.ctrl = true;
        } else if letter == 'S' || letter == 's' {
            held.shift = true;
        } else {
            held.alt = true;
        }
        at += 2;
        assert(here.skip(2) == chars@.skip(at as int));
        assert(prefixed(here));
    }
    let ghost key = chars@.skip(at as int);
    assert(!prefixed(key));
    assert(held == total);
    let encoded = if count - at == 1 {
        assert(key[0] == chars@[at as int]);
        encode_character(chars[at], held)
    } else {
        let mut name_chars: Vec<char> = Vec::new();
        let mut i: usize = at;
        while i < chars.len()
            invariant
                at <= i <= chars@.len(),
                key == chars@.skip(at as int),
                name_chars@ == lowered(key).take(i - at),
            decreases chars@.len() - i,
        {
            name_chars.push(to_lower(chars[i]));
            i += 1;
            assert(lowered(key).take(i - at) == lowered(key).take(i - 1 - at).push(
                lowered(key)[i - 1 - at],
            ));
        }
        assert(lowered(key).take(i - at) == lowered(key));
        let lower_name = string_of(name_chars.as_slice());
        match special(lower_name.as_str()) {
            Some(key) => encode_special(key, held, application_cursor),
            None => Err(KeyFault::Unknown),
        }
    };
    match encoded {
        Ok(bytes) => Ok(bytes),
        Err(fault) => Err(KeyError { name: name.to_string(), fault }),
    }
}

/// The bytes of several keys in order, or the first key without an encoding.
pub open spec fn encodings(names: Seq<Seq<char>>, application_cursor: bool) -> Result<
    Seq<u8>,
    (Seq<char>, KeyFault),
>
    decreases names.len(),
{
    if names.len() == 0 {
        Ok(Seq::empty())
    } else {
        match encodings(names.drop_last(), application_cursor) {
            Ok(bytes) => match encoding(names.last(), application_cursor) {
                Ok(more) => Ok(bytes + more),
                Err(fault) => Err((names.last(), fault)),
            },
            Err(first) => Err(first),
        }
    }
}

/// Encodes keys in order as one input.
pub fn encode_all(names: &[String], application_cursor: bool) -> (r: Result<Vec<u8>, KeyError>)
    ensures
        match r {
            Ok(bytes) => encodings(texts(names@), application_cursor) == Ok::<
                Seq<u8>,
                (Seq<char>, KeyFault),
            >(bytes@),
            Err(error) => encodings(texts(names@), application_cursor) == Err::<
                Seq<u8>,
                (Seq<char>, KeyFault),
            >((error.name@, error.fault)),
        },
{
    let mut bytes: Vec<u8> = Vec::new();
    let ghost all = texts(names@);
    let mut i: usize = 0;
    while i < names.len()
        invariant
            i <= names@.len(),
            all == texts(names@),
            encodings(all.take(i as int), application_cursor) == Ok::<
                Seq<u8>,
                (Seq<char>, KeyFault),
            >(bytes@),
        decreases names@.len() - i,
    {
        let encoded = encode(names[i].as_str(), application_cursor);
        assert(all.take(i + 1).drop_last() == all.take(i as int));
        assert(all.take(i + 1).last() == names@[i as int]@);
        match encoded {
            Ok(mut more) => {
                bytes.append(&mut more);
            },
            Err(error) => {
                proof {
                    lemma_first_failure(all, i + 1, application_cursor);
                }
                return Err(error);
            },
        }
        i += 1;
    }
    assert(all.take(i as int) == all);
    Ok(bytes)
}

proof fn lemma_first_failure(names: Seq<Seq<char>>, n: int, application_cursor: bool)
    requires
        0 <= n <= names.len(),
        encodings(names.take(n), application_cursor) is Err,
    ensures
        encodings(names, application_cursor) == encodings(names.take(n), application_cursor),
    decreases names.len() - n,
{
    if n == names.len() {
        assert(names.take(n) == names);
    } else {
        assert(names.take(n + 1).drop_last() == names.take(n));
        lemma_first_failure(names, n + 1, application_cursor);
    }
}

/// Cursor-key mode changes only unmodified keys: with a modifier held, and for a single
/// character, a key is sent the same way in both modes.
pub proof fn law_modified_keys_ignore_cursor_mode(name: Seq<char>)
    requires
        modifiers(name).any() || bare(name).len() == 1,
    ensures
        encoding(name, true) == encoding(name, false),
{
}

/// The order of two modifier prefixes does not matter.
pub proof fn law_prefix_order_does_not_matter(
    a: char,
    b: char,
    key: Seq<char>,
    application_cursor: bool,
)
    requires
        prefix_letter(a),
        prefix_letter(b),
        key.len() > 0,
    ensures
        encoding(seq![a, '-', b, '-'] + key, application_cursor) == encoding(
            seq![b, '-', a, '-'] + key,
            application_cursor,
        ),
{
    let ab = seq![a, '-', b, '-'] + key;
    let ba = seq![b, '-', a, '-'] + key;
    assert(ab.skip(2) == seq![b, '-'] + key);
    assert(ba.skip(2) == seq![a, '-'] + key);
    assert(ab.skip(2).skip(2) == key);
    assert(ba.skip(2).skip(2) == key);
    assert(ab.skip(2)[0] == b && ab.skip(2)[1] == '-');
    assert(ba.skip(2)[0] == a && ba.skip(2)[1] == '-');
    assert(prefixed(ab) && prefixed(ba) && prefixed(ab.skip(2)) && prefixed(ba.skip(2)));
    assert(ab[0] == a && ba[0] == b);
    assert(modifiers(ab.skip(2)) == modifiers(key).with(b));
    assert(modifiers(ba.skip(2)) == modifiers(key).with(a));
    assert(bare(ab.skip(2)) == bare(key) && bare(ba.skip(2)) == bare(key));
    assert(modifiers(ab) == modifiers(key).with(b).with(a));
    assert(modifiers(ba) == modifiers(key).with(a).with(b));
}

/// Ctrl with a letter sends the letter's low five bits, whatever its case.
pub proof fn law_control_letters(c: char)
    requires
        'a' <= c <= 'z' || 'A' <= c <= 'Z',
    ensures
        control_code(c) == Some((c as u8 % 32) as u8),
{
}

/// A key that has an encoding sends at least one byte.
pub proof fn law_keys_send_something(name: Seq<char>, application_cursor: bool)
    ensures
        encoding(name, application_cursor) matches Ok(bytes) ==> bytes.len() > 0,
{
    let key = bare(name);
    let held = modifiers(name);
    if key.len() == 1 && !held.shift && !held.ctrl {
        reveal_with_fuel(encode_utf8, 2);
        assert(seq![key[0]].len() == 1);
    }
}

/// Keys given one after the other send what their parts send, one after the other.
pub proof fn law_keys_are_sent_in_order(
    a: Seq<Seq<char>>,
    b: Seq<Seq<char>>,
    application_cursor: bool,
)
    ensures
        match (encodings(a, application_cursor), encodings(b, application_cursor)) {
            (Ok(x), Ok(y)) => encodings(a + b, application_cursor) == Ok::<
                Seq<u8>,
                (Seq<char>, KeyFault),
            >(x + y),
            (Err(first), _) => encodings(a + b, application_cursor) == Err::<
                Seq<u8>,
                (Seq<char>, KeyFault),
            >(first),
            (Ok(_), Err(first)) => encodings(a + b, application_cursor) == Err::<
                Seq<u8>,
                (Seq<char>, KeyFault),
            >(first),
        },
    decreases b.len(),
{
    if b.len() == 0 {
        assert(a + b == a);
        if encodings(a, application_cursor) is Ok {
            let x = encodings(a, application_cursor)->Ok_0;
            assert(x + Seq::<u8>::empty() == x);
        }
    } else {
        law_keys_are_sent_in_order(a, b.drop_last(), application_cursor);
        assert((a + b).drop_last() == a + b.drop_last());
        assert((a + b).last() == b.last());
        if encodings(a, application_cursor) is Ok && encodings(b, application_cursor) is Ok {
            let x = encodings(a, application_cursor)->Ok_0;
            let y = encodings(b.drop_last(), application_cursor)->Ok_0;
            let z = encoding(b.last(), application_cursor)->Ok_0;
            assert(x + y + z == x + (y + z));
        }
    }
}

/// Whether a name spells a key, in whatever case its letters are.
pub open spec fn spells(name: Seq<char>, key: Seq<char>) -> bool {
    &&& name.len() == key.len()
    &&& forall|i: int|
        0 <= i < key.len() ==> #[trigger] name[i] == key[i] || ('a' <= key[i] <= 'z' && name[i] as int
            == key[i] as int - 32)
}

/// The prefixes that a name has for the modifiers that are held.
pub open spec fn held_prefixes(ctrl: bool, alt: bool, shift: bool) -> Seq<char> {
    (if ctrl {
        seq!['C', '-']
    } else {
        Seq::empty()
    }) + (if alt {
        seq!['M', '-']
    } else {
        Seq::empty()
    }) + (if shift {
        seq!['S', '-']
    } else {
        Seq::empty()
    })
}

/// The digit that tells a terminal which modifiers are held: `2` for Shift, `3` for Alt, `5` for
/// Ctrl, up to `8` for all of them.
pub open spec fn held_digit(ctrl: bool, alt: bool, shift: bool) -> u8 {
    match (ctrl, alt, shift) {
        (false, false, false) => 0x31,
        (false, false, true) => 0x32,
        (false, true, false) => 0x33,
        (false, true, true) => 0x34,
        (true, false, false) => 0x35,
        (true, false, true) => 0x36,
        (true, true, false) => 0x37,
        (true, true, true) => 0x38,
    }
}

proof fn lemma_one_prefix(p: char, key: Seq<char>)
    requires
        prefix_letter(p),
        key.len() > 0,
    ensures
        bare(seq![p, '-'] + key) == bare(key),
        modifiers(seq![p, '-'] + key) == modifiers(key).with(p),
{
    let whole = seq![p, '-'] + key;
    assert(whole.skip(2) == key);
    assert(whole[0] == p && whole[1] == '-');
    assert(prefixed(whole));
}

proof fn lemma_held_prefixes(ctrl: bool, alt: bool, shift: bool, key: Seq<char>)
    requires
        key.len() > 0,
        !prefixed(key),
    ensures
        bare(held_prefixes(ctrl, alt, shift) + key) == key,
        modifiers(held_prefixes(ctrl, alt, shift) + key) == (Modifiers { ctrl, alt, shift }),
{
    let a = if shift {
        seq!['S', '-'] + key
    } else {
        key
    };
    let b = if alt {
        seq!['M', '-'] + a
    } else {
        a
    };
    let c = if ctrl {
        seq!['C', '-'] + b
    } else {
        b
    };
    lemma_one_prefix('S', key);
    lemma_one_prefix('M', a);
    lemma_one_prefix('C', b);
    assert(held_prefixes(ctrl, alt, shift) + key =~= c);
}

/// A name in small letters and digits is what its spellings are lowered to.
proof fn lemma_spelled(name: Seq<char>, key: Seq<char>)
    requires
        forall|i: int|
            0 <= i < key.len() ==> 'a' <= #[trigger] key[i] <= 'z' || '0' <= key[i] <= '9',
    ensures
        spells(name, key) <==> lowered(name) == key,
        spells(name, key) ==> !prefixed(name),
{
    if spells(name, key) {
        assert forall|i: int| 0 <= i < key.len() implies lower(name[i]) == key[i] by {}
        assert(lowered(name) =~= key);
        if prefixed(name) {
            assert(key[1] != '-');
            assert(name[1] == '-');
            assert(false);
        }
    }
    if lowered(name) == key {
        assert forall|i: int| 0 <= i < key.len() implies #[trigger] name[i] == key[i] || ('a'
            <= key[i] <= 'z' && name[i] as int == key[i] as int - 32) by {
            assert(lowered(name)[i] == lower(name[i]));
        }
    }
}

proof fn lemma_key_names()
    ensures
        "up"@ == seq!['u', 'p'],
        "down"@ == seq!['d', 'o', 'w', 'n'],
        "right"@ == seq!['r', 'i', 'g', 'h', 't'],
        "left"@ == seq!['l', 'e', 'f', 't'],
        "home"@ == seq!['h', 'o', 'm', 'e'],
        "end"@ == seq!['e', 'n', 'd'],
        "f1"@ == seq!['f', '1'],
        "f2"@ == seq!['f', '2'],
        "f3"@ == seq!['f', '3'],
        "f4"@ == seq!['f', '4'],
        "insert"@ == seq!['i', 'n', 's', 'e', 'r', 't'],
        "delete"@ == seq!['d', 'e', 'l', 'e', 't', 'e'],
        "del"@ == seq!['d', 'e', 'l'],
        "pageup"@ == seq!['p', 'a', 'g', 'e', 'u', 'p'],
        "pgup"@ == seq!['p', 'g', 'u', 'p'],
        "pagedown"@ == seq!['p', 'a', 'g', 'e', 'd', 'o', 'w', 'n'],
        "pgdn"@ == seq!['p', 'g', 'd', 'n'],
        "f5"@ == seq!['f', '5'],
        "f6"@ == seq!['f', '6'],
        "f7"@ == seq!['f', '7'],
        "f8"@ == seq!['f', '8'],
        "f9"@ == seq!['f', '9'],
        "f10"@ == seq!['f', '1', '0'],
        "f11"@ == seq!['f', '1', '1'],
        "f12"@ == seq!['f', '1', '2'],
        "enter"@ == seq!['e', 'n', 't', 'e', 'r'],
        "return"@ == seq!['r', 'e', 't', 'u', 'r', 'n'],
        "tab"@ == seq!['t', 'a', 'b'],
        "esc"@ == seq!['e', 's', 'c'],
        "escape"@ == seq!['e', 's', 'c', 'a', 'p', 'e'],
        "backspace"@ == seq!['b', 'a', 'c', 'k', 's', 'p', 'a', 'c', 'e'],
        "bs"@ == seq!['b', 's'],
        "space"@ == seq!['s', 'p', 'a', 'c', 'e'],
{
    reveal_strlit("up");
    assert("up"@ =~= seq!['u', 'p']);
    reveal_strlit("down");
    assert("down"@ =~= seq!['d', 'o', 'w', 'n']);
    reveal_strlit("right");
    assert("right"@ =~= seq!['r', 'i', 'g', 'h', 't']);
    reveal_strlit("left");
    assert("left"@ =~= seq!['l', 'e', 'f', 't']);
    reveal_strlit("home");
    assert("home"@ =~= seq!['h', 'o', 'm', 'e']);
    reveal_strlit("end");
    assert("end"@ =~= seq!['e', 'n', 'd']);
    reveal_strlit("f1");
    assert("f1"@ =~= seq!['f', '1']);
    reveal_strlit("f2");
    assert("f2"@ =~= seq!['f', '2']);
    reveal_strlit("f3");
    assert("f3"@ =~= seq!['f', '3']);
    reveal_strlit("f4");
    assert("f4"@ =~= seq!['f', '4']);
    reveal_strlit("insert");
    assert("insert"@ =~= seq!['i', 'n', 's', 'e', 'r', 't']);
    reveal_strlit("delete");
    assert("delete"@ =~= seq!['d', 'e', 'l', 'e', 't', 'e']);
    reveal_strlit("del");
    assert("del"@ =~= seq!['d', 'e', 'l']);
    reveal_strlit("pageup");
    assert("pageup"@ =~= seq!['p', 'a', 'g', 'e', 'u', 'p']);
    reveal_strlit("pgup");
    assert("pgup"@ =~= seq!['p', 'g', 'u', 'p']);
    reveal_strlit("pagedown");
    assert("pagedown"@ =~= seq!['p', 'a', 'g', 'e', 'd', 'o', 'w', 'n']);
    reveal_strlit("pgdn");
    assert("pgdn"@ =~= seq!['p', 'g', 'd', 'n']);
    reveal_strlit("f5");
    assert("f5"@ =~= seq!['f', '5']);
    reveal_strlit("f6");
    assert("f6"@ =~= seq!['f', '6']);
    reveal_strlit("f7");
    assert("f7"@ =~= seq!['f', '7']);
    reveal_strlit("f8");
    assert("f8"@ =~= seq!['f', '8']);
    reveal_strlit("f9");
    assert("f9"@ =~= seq!['f', '9']);
    reveal_strlit("f10");
    assert("f10"@ =~= seq!['f', '1', '0']);
    reveal_strlit("f11");
    assert("f11"@ =~= seq!['f', '1', '1']);
    reveal_strlit("f12");
    assert("f12"@ =~= seq!['f', '1', '2']);
    reveal_strlit("enter");
    assert("enter"@ =~= seq!['e', 'n', 't', 'e', 'r']);
    reveal_strlit("return");
    assert("return"@ =~= seq!['r', 'e', 't', 'u', 'r', 'n']);
    reveal_strlit("tab");
    assert("tab"@ =~= seq!['t', 'a', 'b']);
    reveal_strlit("esc");
    assert("esc"@ =~= seq!['e', 's', 'c']);
    reveal_strlit("escape");
    assert("escape"@ =~= seq!['e', 's', 'c', 'a', 'p', 'e']);
    reveal_strlit("backspace");
    assert("backspace"@ =~= seq!['b', 'a', 'c', 'k', 's', 'p', 'a', 'c', 'e']);
    reveal_strlit("bs");
    assert("bs"@ =~= seq!['b', 's']);
    reveal_strlit("space");
    assert("space"@ =~= seq!['s', 'p', 'a', 'c', 'e']);
}

/// Whether an unmodified key sends these bytes however its name is spelled.
pub open spec fn sends(key: Seq<char>, application_cursor: bool, bytes: Seq<u8>) -> bool {
    forall|name: Seq<char>| #[trigger]
        spells(name, key) ==> encoding(name, application_cursor) == Ok::<Seq<u8>, KeyFault>(bytes)
}

proof fn lemma_sends(key: Seq<char>, application_cursor: bool, bytes: Seq<u8>)
    requires
        key.len() > 1,
        forall|i: int|
            0 <= i < key.len() ==> 'a' <= #[trigger] key[i] <= 'z' || '0' <= key[i] <= '9',
        special_key(key) is Some,
        special_encoding(special_key(key)->0, no_modifiers(), application_cursor) == Ok::<
            Seq<u8>,
            KeyFault,
        >(bytes),
    ensures
        sends(key, application_cursor, bytes),
{
    assert forall|name: Seq<char>| #[trigger] spells(name, key) implies encoding(
        name,
        application_cursor,
    ) == Ok::<Seq<u8>, KeyFault>(bytes) by {
        lemma_spelled(name, key);
    }
}

#[verifier::spinoff_prover]
#[verifier::rlimit(100)]
proof fn lemma_lettered_keys()
    ensures
        special_key("up"@) == Some(Special::Final { byte: 0x41, cursor: true }),
        special_key("down"@) == Some(Special::Final { byte: 0x42, cursor: true }),
        special_key("right"@) == Some(Special::Final { byte: 0x43, cursor: true }),
        special_key("left"@) == Some(Special::Final { byte: 0x44, cursor: true }),
        special_key("home"@) == Some(Special::Final { byte: 0x48, cursor: true }),
        special_key("end"@) == Some(Special::Final { byte: 0x46, cursor: true }),
        special_key("f1"@) == Some(Special::Final { byte: 0x50, cursor: false }),
        special_key("f2"@) == Some(Special::Final { byte: 0x51, cursor: false }),
        special_key("f3"@) == Some(Special::Final { byte: 0x52, cursor: false }),
        special_key("f4"@) == Some(Special::Final { byte: 0x53, cursor: false }),
{
    lemma_key_names();
    assert("up"@.len() == 2 && "up"@[0] == 'u' && "up"@[1] == 'p');
    assert("down"@.len() == 4 && "down"@[0] == 'd' && "down"@[1] == 'o' && "down"@[2] == 'w' && "down"@[3] == 'n');
    assert("right"@.len() == 5 && "right"@[0] == 'r' && "right"@[1] == 'i' && "right"@[2] == 'g' && "right"@[3] == 'h' && "right"@[4] == 't');
    assert("left"@.len() == 4 && "left"@[0] == 'l' && "left"@[1] == 'e' && "left"@[2] == 'f' && "left"@[3] == 't');
    assert("home"@.len() == 4 && "home"@[0] == 'h' && "home"@[1] == 'o' && "home"@[2] == 'm' && "home"@[3] == 'e');
    assert("end"@.len() == 3 && "end"@[0] == 'e' && "end"@[1] == 'n' && "end"@[2] == 'd');
    assert("f1"@.len() == 2 && "f1"@[0] == 'f' && "f1"@[1] == '1');
    assert("f2"@.len() == 2 && "f2"@[0] == 'f' && "f2"@[1] == '2');
    assert("f3"@.len() == 2 && "f3"@[0] == 'f' && "f3"@[1] == '3');
    assert("f4"@.len() == 2 && "f4"@[0] == 'f' && "f4"@[1] == '4');
}

#[verifier::spinoff_prover]
#[verifier::rlimit(100)]
proof fn lemma_numbered_keys()
    ensures
        special_key("insert"@) == Some(Special::Tilde(2)),
        special_key("delete"@) == Some(Special::Tilde(3)),
        special_key("del"@) == Some(Special::Tilde(3)),
        special_key("pageup"@) == Some(Special::Tilde(5)),
        special_key("pgup"@) == Some(Special::Tilde(5)),
        special_key("pagedown"@) == Some(Special::Tilde(6)),
        special_key("pgdn"@) == Some(Special::Tilde(6)),
        special_key("f5"@) == Some(Special::Tilde(15)),
        special_key("f6"@) == Some(Special::Tilde(17)),
        special_key("f7"@) == Some(Special::Tilde(18)),
        special_key("f8"@) == Some(Special::Tilde(19)),
        special_key("f9"@) == Some(Special::Tilde(20)),
        special_key("f10"@) == Some(Special::Tilde(21)),
        special_key("f11"@) == Some(Special::Tilde(23)),
        special_key("f12"@) == Some(Special::Tilde(24)),
{
    lemma_key_names();
    assert("up"@.len() == 2 && "up"@[0] == 'u' && "up"@[1] == 'p');
    assert("down"@.len() == 4 && "down"@[0] == 'd' && "down"@[1] == 'o' && "down"@[2] == 'w' && "down"@[3] == 'n');
    assert("right"@.len() == 5 && "right"@[0] == 'r' && "right"@[1] == 'i' && "right"@[2] == 'g' && "right"@[3] == 'h' && "right"@[4] == 't');
    assert("left"@.len() == 4 && "left"@[0] == 'l' && "left"@[1] == 'e' && "left"@[2] == 'f' && "left"@[3] == 't');
    assert("home"@.len() == 4 && "home"@[0] == 'h' && "home"@[1] == 'o' && "home"@[2] == 'm' && "home"@[3] == 'e');
    assert("end"@.len() == 3 && "end"@[0] == 'e' && "end"@[1] == 'n' && "end"@[2] == 'd');
    assert("f1"@.len() == 2 && "f1"@[0] == 'f' && "f1"@[1] == '1');
    assert("f2"@.len() == 2 && "f2"@[0] == 'f' && "f2"@[1] == '2');
    assert("f3"@.len() == 2 && "f3"@[0] == 'f' && "f3"@[1] == '3');
    assert("f4"@.len() == 2 && "f4"@[0] == 'f' && "f4"@[1] == '4');
    assert("insert"@.len() == 6 && "insert"@[0] == 'i' && "insert"@[1] == 'n' && "insert"@[2] == 's' && "insert"@[3] == 'e' && "insert"@[4] == 'r' && "insert"@[5] == 't');
    assert("delete"@.len() == 6 && "delete"@[0] == 'd' && "delete"@[1] == 'e' && "delete"@[2] == 'l' && "delete"@[3] == 'e' && "delete"@[4] == 't' && "delete"@[5] == 'e');
    assert("del"@.len() == 3 && "del"@[0] == 'd' && "del"@[1] == 'e' && "del"@[2] == 'l');
    assert("pageup"@.len() == 6 && "pageup"@[0] == 'p' && "pageup"@[1] == 'a' && "pageup"@[2] == 'g' && "pageup"@[3] == 'e' && "pageup"@[4] == 'u' && "pageup"@[5] == 'p');
    assert("pgup"@.len() == 4 && "pgup"@[0] == 'p' && "pgup"@[1] == 'g' && "pgup"@[2] == 'u' && "pgup"@[3] == 'p');
    assert("pagedown"@.len() == 8 && "pagedown"@[0] == 'p' && "pagedown"@[1] == 'a' && "pagedown"@[2] == 'g' && "pagedown"@[3] == 'e' && "pagedown"@[4] == 'd' && "pagedown"@[5] == 'o' && "pagedown"@[6] == 'w' && "pagedown"@[7] == 'n');
    assert("pgdn"@.len() == 4 && "pgdn"@[0] == 'p' && "pgdn"@[1] == 'g' && "pgdn"@[2] == 'd' && "pgdn"@[3] == 'n');
    assert("f5"@.len() == 2 && "f5"@[0] == 'f' && "f5"@[1] == '5');
    assert("f6"@.len() == 2 && "f6"@[0] == 'f' && "f6"@[1] == '6');
    assert("f7"@.len() == 2 && "f7"@[0] == 'f' && "f7"@[1] == '7');
    assert("f8"@.len() == 2 && "f8"@[0] == 'f' && "f8"@[1] == '8');
    assert("f9"@.len() == 2 && "f9"@[0] == 'f' && "f9"@[1] == '9');
    assert("f10"@.len() == 3 && "f10"@[0] == 'f' && "f10"@[1] == '1' && "f10"@[2] == '0');
    assert("f11"@.len() == 3 && "f11"@[0] == 'f' && "f11"@[1] == '1' && "f11"@[2] == '1');
    assert("f12"@.len() == 3 && "f12"@[0] == 'f' && "f12"@[1] == '1' && "f12"@[2] == '2');
}

#[verifier::spinoff_prover]
#[verifier::rlimit(100)]
proof fn lemma_one_byte_keys()
    ensures
        special_key("enter"@) == Some(Special::Plain(0xd)),
        special_key("return"@) == Some(Special::Plain(0xd)),
        special_key("tab"@) == Some(Special::Plain(0x9)),
        special_key("esc"@) == Some(Special::Plain(0x1b)),
        special_key("escape"@) == Some(Special::Plain(0x1b)),
        special_key("backspace"@) == Some(Special::Plain(0x7f)),
        special_key("bs"@) == Some(Special::Plain(0x7f)),
        special_key("space"@) == Some(Special::Plain(0x20)),
{
    lemma_key_names();
    assert("up"@.len() == 2 && "up"@[0] == 'u' && "up"@[1] == 'p');
    assert("down"@.len() == 4 && "down"@[0] == 'd' && "down"@[1] == 'o' && "down"@[2] == 'w' && "down"@[3] == 'n');
    assert("right"@.len() == 5 && "right"@[0] == 'r' && "right"@[1] == 'i' && "right"@[2] == 'g' && "right"@[3] == 'h' && "right"@[4] == 't');
    assert("left"@.len() == 4 && "left"@[0] == 'l' && "left"@[1] == 'e' && "left"@[2] == 'f' && "left"@[3] == 't');
    assert("home"@.len() == 4 && "home"@[0] == 'h' && "home"@[1] == 'o' && "home"@[2] == 'm' && "home"@[3] == 'e');
    assert("end"@.len() == 3 && "end"@[0] == 'e' && "end"@[1] == 'n' && "end"@[2] == 'd');
    assert("f1"@.len() == 2 && "f1"@[0] == 'f' && "f1"@[1] == '1');
    assert("f2"@.len() == 2 && "f2"@[0] == 'f' && "f2"@[1] == '2');
    assert("f3"@.len() == 2 && "f3"@[0] == 'f' && "f3"@[1] == '3');
    assert("f4"@.len() == 2 && "f4"@[0] == 'f' && "f4"@[1] == '4');
    assert("insert"@.len() == 6 && "insert"@[0] == 'i' && "insert"@[1] == 'n' && "insert"@[2] == 's' && "insert"@[3] == 'e' && "insert"@[4] == 'r' && "insert"@[5] == 't');
    assert("delete"@.len() == 6 && "delete"@[0] == 'd' && "delete"@[1] == 'e' && "delete"@[2] == 'l' && "delete"@[3] == 'e' && "delete"@[4] == 't' && "delete"@[5] == 'e');
    assert("del"@.len() == 3 && "del"@[0] == 'd' && "del"@[1] == 'e' && "del"@[2] == 'l');
    assert("pageup"@.len() == 6 && "pageup"@[0] == 'p' && "pageup"@[1] == 'a' && "pageup"@[2] == 'g' && "pageup"@[3] == 'e' && "pageup"@[4] == 'u' && "pageup"@[5] == 'p');
    assert("pgup"@.len() == 4 && "pgup"@[0] == 'p' && "pgup"@[1] == 'g' && "pgup"@[2] == 'u' && "pgup"@[3] == 'p');
    assert("pagedown"@.len() == 8 && "pagedown"@[0] == 'p' && "pagedown"@[1] == 'a' && "pagedown"@[2] == 'g' && "pagedown"@[3] == 'e' && "pagedown"@[4] == 'd' && "pagedown"@[5] == 'o' && "pagedown"@[6] == 'w' && "pagedown"@[7] == 'n');
    assert("pgdn"@.len() == 4 && "pgdn"@[0] == 'p' && "pgdn"@[1] == 'g' && "pgdn"@[2] == 'd' && "pgdn"@[3] == 'n');
    assert("f5"@.len() == 2 && "f5"@[0] == 'f' && "f5"@[1] == '5');
    assert("f6"@.len() == 2 && "f6"@[0] == 'f' && "f6"@[1] == '6');
    assert("f7"@.len() == 2 && "f7"@[0] == 'f' && "f7"@[1] == '7');
    assert("f8"@.len() == 2 && "f8"@[0] == 'f' && "f8"@[1] == '8');
    assert("f9"@.len() == 2 && "f9"@[0] == 'f' && "f9"@[1] == '9');
    assert("f10"@.len() == 3 && "f10"@[0] == 'f' && "f10"@[1] == '1' && "f10"@[2] == '0');
    assert("f11"@.len() == 3 && "f11"@[0] == 'f' && "f11"@[1] == '1' && "f11"@[2] == '1');
    assert("f12"@.len() == 3 && "f12"@[0] == 'f' && "f12"@[1] == '1' && "f12"@[2] == '2');
    assert("enter"@.len() == 5 && "enter"@[0] == 'e' && "enter"@[1] == 'n' && "enter"@[2] == 't' && "enter"@[3] == 'e' && "enter"@[4] == 'r');
    assert("return"@.len() == 6 && "return"@[0] == 'r' && "return"@[1] == 'e' && "return"@[2] == 't' && "return"@[3] == 'u' && "return"@[4] == 'r' && "return"@[5] == 'n');
    assert("tab"@.len() == 3 && "tab"@[0] == 't' && "tab"@[1] == 'a' && "tab"@[2] == 'b');
    assert("esc"@.len() == 3 && "esc"@[0] == 'e' && "esc"@[1] == 's' && "esc"@[2] == 'c');
    assert("escape"@.len() == 6 && "escape"@[0] == 'e' && "escape"@[1] == 's' && "escape"@[2] == 'c' && "escape"@[3] == 'a' && "escape"@[4] == 'p' && "escape"@[5] == 'e');
    assert("backspace"@.len() == 9 && "backspace"@[0] == 'b' && "backspace"@[1] == 'a' && "backspace"@[2] == 'c' && "backspace"@[3] == 'k' && "backspace"@[4] == 's' && "backspace"@[5] == 'p' && "backspace"@[6] == 'a' && "backspace"@[7] == 'c' && "backspace"@[8] == 'e');
    assert("bs"@.len() == 2 && "bs"@[0] == 'b' && "bs"@[1] == 's');
    assert("space"@.len() == 5 && "space"@[0] == 's' && "space"@[1] == 'p' && "space"@[2] == 'a' && "space"@[3] == 'c' && "space"@[4] == 'e');
}

proof fn lemma_key_numbers()
    ensures
        digits(2) == seq![0x32u8],
        digits(3) == seq![0x33u8],
        digits(5) == seq![0x35u8],
        digits(6) == seq![0x36u8],
        digits(15) == seq![0x31u8, 0x35],
        digits(17) == seq![0x31u8, 0x37],
        digits(18) == seq![0x31u8, 0x38],
        digits(19) == seq![0x31u8, 0x39],
        digits(20) == seq![0x32u8, 0x30],
        digits(21) == seq![0x32u8, 0x31],
        digits(23) == seq![0x32u8, 0x33],
        digits(24) == seq![0x32u8, 0x34],
{
    reveal_with_fuel(digits, 3);
    assert(digits(2) =~= seq![0x32u8]);
    assert(digits(3) =~= seq![0x33u8]);
    assert(digits(5) =~= seq![0x35u8]);
    assert(digits(6) =~= seq![0x36u8]);
    assert(digits(15) =~= seq![0x31u8, 0x35]);
    assert(digits(17) =~= seq![0x31u8, 0x37]);
    assert(digits(18) =~= seq![0x31u8, 0x38]);
    assert(digits(19) =~= seq![0x31u8, 0x39]);
    assert(digits(20) =~= seq![0x32u8, 0x30]);
    assert(digits(21) =~= seq![0x32u8, 0x31]);
    assert(digits(23) =~= seq![0x32u8, 0x33]);
    assert(digits(24) =~= seq![0x32u8, 0x34]);
}

proof fn lemma_numbered(
    key: Seq<char>,
    code: u8,
    ascii: Seq<u8>,
    application_cursor: bool,
    bytes: Seq<u8>,
)
    requires
        key.len() > 1,
        forall|i: int|
            0 <= i < key.len() ==> 'a' <= #[trigger] key[i] <= 'z' || '0' <= key[i] <= '9',
        special_key(key) == Some(Special::Tilde(code)),
        digits(code as nat) == ascii,
        bytes.len() == ascii.len() + 3,
        bytes[0] == 0x1b && bytes[1] == 0x5b && bytes.last() == 0x7e,
        bytes.subrange(2, bytes.len() - 1) == ascii,
    ensures
        sends(key, application_cursor, bytes),
{
    assert(seq![0x1bu8, 0x5b] + ascii + seq![0x7eu8] =~= bytes) by {
        assert forall|i: int| 0 <= i < ascii.len() implies bytes[i + 2] == ascii[i] by {
            assert(bytes.subrange(2, bytes.len() - 1)[i] == bytes[i + 2]);
        }
    }
    lemma_sends(key, application_cursor, bytes);
}

/// The arrows, Home and End send `ESC [` and a letter, or `ESC O` and the letter in cursor-key mode,
/// and F1 to F4 send `ESC O` and a letter in both modes, as terminals of the xterm family do, in
/// whatever case their names are written.
#[verifier::spinoff_prover]
#[verifier::rlimit(100)]
pub proof fn law_lettered_keys_have_their_codes(application_cursor: bool)
    ensures
        ({
            let mode: u8 = if application_cursor {
                0x4f
            } else {
                0x5b
            };
            &&& sends("up"@, application_cursor, seq![0x1b, mode, 0x41])
            &&& sends("down"@, application_cursor, seq![0x1b, mode, 0x42])
            &&& sends("right"@, application_cursor, seq![0x1b, mode, 0x43])
            &&& sends("left"@, application_cursor, seq![0x1b, mode, 0x44])
            &&& sends("home"@, application_cursor, seq![0x1b, mode, 0x48])
            &&& sends("end"@, application_cursor, seq![0x1b, mode, 0x46])
            &&& sends("f1"@, application_cursor, seq![0x1b, 0x4f, 0x50])
            &&& sends("f2"@, application_cursor, seq![0x1b, 0x4f, 0x51])
            &&& sends("f3"@, application_cursor, seq![0x1b, 0x4f, 0x52])
            &&& sends("f4"@, application_cursor, seq![0x1b, 0x4f, 0x53])
        }),
{
    lemma_key_names();
    lemma_lettered_keys();
    let mode: u8 = if application_cursor {
        0x4f
    } else {
        0x5b
    };
    lemma_sends("up"@, application_cursor, seq![0x1b, mode, 0x41]);
    lemma_sends("down"@, application_cursor, seq![0x1b, mode, 0x42]);
    lemma_sends("right"@, application_cursor, seq![0x1b, mode, 0x43]);
    lemma_sends("left"@, application_cursor, seq![0x1b, mode, 0x44]);
    lemma_sends("home"@, application_cursor, seq![0x1b, mode, 0x48]);
    lemma_sends("end"@, application_cursor, seq![0x1b, mode, 0x46]);
    lemma_sends("f1"@, application_cursor, seq![0x1b, 0x4f, 0x50]);
    lemma_sends("f2"@, application_cursor, seq![0x1b, 0x4f, 0x51]);
    lemma_sends("f3"@, application_cursor, seq![0x1b, 0x4f, 0x52]);
    lemma_sends("f4"@, application_cursor, seq![0x1b, 0x4f, 0x53]);
}

/// Insert, Delete, Page Up, Page Down and F5 to F12 send `ESC [`, a number and `~` in both modes, in
/// whatever case their names are written.
#[verifier::spinoff_prover]
#[verifier::rlimit(100)]
pub proof fn law_numbered_keys_have_their_codes(application_cursor: bool)
    ensures
        sends("insert"@, application_cursor, seq![0x1b, 0x5b, 0x32, 0x7e]),
        sends("delete"@, application_cursor, seq![0x1b, 0x5b, 0x33, 0x7e]),
        sends("del"@, application_cursor, seq![0x1b, 0x5b, 0x33, 0x7e]),
        sends("pageup"@, application_cursor, seq![0x1b, 0x5b, 0x35, 0x7e]),
        sends("pgup"@, application_cursor, seq![0x1b, 0x5b, 0x35, 0x7e]),
        sends("pagedown"@, application_cursor, seq![0x1b, 0x5b, 0x36, 0x7e]),
        sends("pgdn"@, application_cursor, seq![0x1b, 0x5b, 0x36, 0x7e]),
        sends("f5"@, application_cursor, seq![0x1b, 0x5b, 0x31, 0x35, 0x7e]),
        sends("f6"@, application_cursor, seq![0x1b, 0x5b, 0x31, 0x37, 0x7e]),
        sends("f7"@, application_cursor, seq![0x1b, 0x5b, 0x31, 0x38, 0x7e]),
        sends("f8"@, application_cursor, seq![0x1b, 0x5b, 0x31, 0x39, 0x7e]),
        sends("f9"@, application_cursor, seq![0x1b, 0x5b, 0x32, 0x30, 0x7e]),
        sends("f10"@, application_cursor, seq![0x1b, 0x5b, 0x32, 0x31, 0x7e]),
        sends("f11"@, application_cursor, seq![0x1b, 0x5b, 0x32, 0x33, 0x7e]),
        sends("f12"@, application_cursor, seq![0x1b, 0x5b, 0x32, 0x34, 0x7e]),
{
    lemma_key_names();
    lemma_numbered_keys();
    lemma_key_numbers();
    assert(seq![0x1bu8, 0x5b, 0x32, 0x7e].subrange(2, 3) =~= seq![0x32u8]);
    assert(seq![0x1bu8, 0x5b, 0x33, 0x7e].subrange(2, 3) =~= seq![0x33u8]);
    assert(seq![0x1bu8, 0x5b, 0x35, 0x7e].subrange(2, 3) =~= seq![0x35u8]);
    assert(seq![0x1bu8, 0x5b, 0x36, 0x7e].subrange(2, 3) =~= seq![0x36u8]);
    assert(seq![0x1bu8, 0x5b, 0x31, 0x35, 0x7e].subrange(2, 4) =~= seq![0x31u8, 0x35]);
    assert(seq![0x1bu8, 0x5b, 0x31, 0x37, 0x7e].subrange(2, 4) =~= seq![0x31u8, 0x37]);
    assert(seq![0x1bu8, 0x5b, 0x31, 0x38, 0x7e].subrange(2, 4) =~= seq![0x31u8, 0x38]);
    assert(seq![0x1bu8, 0x5b, 0x31, 0x39, 0x7e].subrange(2, 4) =~= seq![0x31u8, 0x39]);
    assert(seq![0x1bu8, 0x5b, 0x32, 0x30, 0x7e].subrange(2, 4) =~= seq![0x32u8, 0x30]);
    assert(seq![0x1bu8, 0x5b, 0x32, 0x31, 0x7e].subrange(2, 4) =~= seq![0x32u8, 0x31]);
    assert(seq![0x1bu8, 0x5b, 0x32, 0x33, 0x7e].subrange(2, 4) =~= seq![0x32u8, 0x33]);
    assert(seq![0x1bu8, 0x5b, 0x32, 0x34, 0x7e].subrange(2, 4) =~= seq![0x32u8, 0x34]);
    lemma_numbered("insert"@, 2, seq![0x32u8], application_cursor, seq![0x1b, 0x5b, 0x32, 0x7e]);
    lemma_numbered("delete"@, 3, seq![0x33u8], application_cursor, seq![0x1b, 0x5b, 0x33, 0x7e]);
    lemma_numbered("del"@, 3, seq![0x33u8], application_cursor, seq![0x1b, 0x5b, 0x33, 0x7e]);
    lemma_numbered("pageup"@, 5, seq![0x35u8], application_cursor, seq![0x1b, 0x5b, 0x35, 0x7e]);
    lemma_numbered("pgup"@, 5, seq![0x35u8], application_cursor, seq![0x1b, 0x5b, 0x35, 0x7e]);
    lemma_numbered("pagedown"@, 6, seq![0x36u8], application_cursor, seq![0x1b, 0x5b, 0x36, 0x7e]);
    lemma_numbered("pgdn"@, 6, seq![0x36u8], application_cursor, seq![0x1b, 0x5b, 0x36, 0x7e]);
    lemma_numbered("f5"@, 15, seq![0x31u8, 0x35], application_cursor, seq![0x1b, 0x5b, 0x31, 0x35, 0x7e]);
    lemma_numbered("f6"@, 17, seq![0x31u8, 0x37], application_cursor, seq![0x1b, 0x5b, 0x31, 0x37, 0x7e]);
    lemma_numbered("f7"@, 18, seq![0x31u8, 0x38], application_cursor, seq![0x1b, 0x5b, 0x31, 0x38, 0x7e]);
    lemma_numbered("f8"@, 19, seq![0x31u8, 0x39], application_cursor, seq![0x1b, 0x5b, 0x31, 0x39, 0x7e]);
    lemma_numbered("f9"@, 20, seq![0x32u8, 0x30], application_cursor, seq![0x1b, 0x5b, 0x32, 0x30, 0x7e]);
    lemma_numbered("f10"@, 21, seq![0x32u8, 0x31], application_cursor, seq![0x1b, 0x5b, 0x32, 0x31, 0x7e]);
    lemma_numbered("f11"@, 23, seq![0x32u8, 0x33], application_cursor, seq![0x1b, 0x5b, 0x32, 0x33, 0x7e]);
    lemma_numbered("f12"@, 24, seq![0x32u8, 0x34], application_cursor, seq![0x1b, 0x5b, 0x32, 0x34, 0x7e]);
}

/// Enter, Tab, Escape, Backspace and Space send one byte, in whatever case their names are written.
#[verifier::spinoff_prover]
#[verifier::rlimit(100)]
pub proof fn law_one_byte_keys_have_their_codes(application_cursor: bool)
    ensures
        sends("enter"@, application_cursor, seq![0xd]),
        sends("return"@, application_cursor, seq![0xd]),
        sends("tab"@, application_cursor, seq![0x9]),
        sends("esc"@, application_cursor, seq![0x1b]),
        sends("escape"@, application_cursor, seq![0x1b]),
        sends("backspace"@, application_cursor, seq![0x7f]),
        sends("bs"@, application_cursor, seq![0x7f]),
        sends("space"@, application_cursor, seq![0x20]),
{
    lemma_key_names();
    lemma_one_byte_keys();
    assert(lead(false) + seq![0xdu8] =~= seq![0xd]);
    assert(lead(false) + seq![0x9u8] =~= seq![0x9]);
    assert(lead(false) + seq![0x1bu8] =~= seq![0x1b]);
    assert(lead(false) + seq![0x7fu8] =~= seq![0x7f]);
    assert(lead(false) + seq![0x20u8] =~= seq![0x20]);
    lemma_sends("enter"@, application_cursor, seq![0xd]);
    lemma_sends("return"@, application_cursor, seq![0xd]);
    lemma_sends("tab"@, application_cursor, seq![0x9]);
    lemma_sends("esc"@, application_cursor, seq![0x1b]);
    lemma_sends("escape"@, application_cursor, seq![0x1b]);
    lemma_sends("backspace"@, application_cursor, seq![0x7f]);
    lemma_sends("bs"@, application_cursor, seq![0x7f]);
    lemma_sends("space"@, application_cursor, seq![0x20]);
}

/// A named key with modifiers held tells which: where it sends `ESC`, one byte and a letter without
/// them, it sends `ESC [ 1 ;`, the digit for the modifiers and the letter; where it sends `ESC [`, a
/// number and `~`, a semicolon and the digit come behind the number. In cursor-key mode it does the
/// same.
pub proof fn law_modified_keys_tell_their_modifiers(
    name: Seq<char>,
    ctrl: bool,
    alt: bool,
    shift: bool,
    application_cursor: bool,
)
    requires
        name.len() > 1,
        name.len() == 2 || name[1] != '-',
        ctrl || alt || shift,
        encoding(name, false) is Ok,
        encoding(name, false)->Ok_0.len() > 1,
    ensures
        ({
            let plain = encoding(name, false)->Ok_0;
            let last = plain.len() - 1;
            let digit = held_digit(ctrl, alt, shift);
            encoding(held_prefixes(ctrl, alt, shift) + name, application_cursor) == Ok::<
                Seq<u8>,
                KeyFault,
            >(
                if plain[last] == 0x7e {
                    plain.take(last) + seq![0x3b, digit, 0x7e]
                } else {
                    seq![0x1b, 0x5b, 0x31, 0x3b, digit, plain[2]]
                },
            )
        }),
{
    lemma_held_prefixes(ctrl, alt, shift, name);
    let plain = encoding(name, false)->Ok_0;
    let last = plain.len() - 1;
    let held = Modifiers { ctrl, alt, shift };
    let digit = held_digit(ctrl, alt, shift);
    assert(digits(held.parameter()) =~= seq![digit]);
    assert(bare(name) == name);
    let key = special_key(lowered(name))->0;
    match key {
        Special::Final { byte, cursor } => {
            assert(byte != 0x7e);
            assert(seq![0x1bu8, 0x5b, 0x31, 0x3b] + digits(held.parameter()) + seq![byte] =~= seq![
                0x1b,
                0x5b,
                0x31,
                0x3b,
                digit,
                byte,
            ]);
        },
        Special::Tilde(code) => {
            assert(seq![0x1bu8, 0x5b] + digits(code as nat) + seq![0x3bu8] + digits(
                held.parameter(),
            ) + seq![0x7eu8] =~= plain.take(last) + seq![0x3b, digit, 0x7e]);
        },
        Special::Plain(byte) => {
            assert((lead(false) + seq![byte]).len() == 1);
        },
    }
}

/// A named key that sends one byte sends an escape byte ahead of it for Alt. Shift is taken by Tab
/// alone, which then sends `ESC [ Z`, and Ctrl by Space alone, which then sends a zero byte; not
/// even they take both.
pub proof fn law_one_byte_keys(
    name: Seq<char>,
    ctrl: bool,
    alt: bool,
    shift: bool,
    application_cursor: bool,
)
    requires
        name.len() > 1,
        name.len() == 2 || name[1] != '-',
        encoding(name, false) is Ok,
        encoding(name, false)->Ok_0.len() == 1,
    ensures
        ({
            let byte = encoding(name, false)->Ok_0[0];
            let ahead = if alt {
                seq![0x1bu8]
            } else {
                Seq::<u8>::empty()
            };
            encoding(held_prefixes(ctrl, alt, shift) + name, application_cursor) == (if !ctrl
                && !shift {
                Ok::<Seq<u8>, KeyFault>(ahead + seq![byte])
            } else if byte == 0x09 && !ctrl {
                Ok(ahead + seq![0x1b, 0x5b, 0x5a])
            } else if byte == 0x20 && !shift {
                Ok(ahead + seq![0])
            } else {
                Err(KeyFault::UnsupportedModifier)
            })
        }),
{
    lemma_held_prefixes(ctrl, alt, shift, name);
    assert(bare(name) == name);
    let key = special_key(lowered(name))->0;
    match key {
        Special::Final { byte: _, cursor: _ } => {},
        Special::Tilde(code) => {
            assert((seq![0x1bu8, 0x5b] + digits(code as nat) + seq![0x7eu8]).len() >= 3);
        },
        Special::Plain(own) => {
            assert((lead(false) + seq![own])[0] == own);
        },
    }
}

/// A name of more than one character that spells none of these keys and has no modifier prefix is
/// refused as unknown, whatever modifiers are put ahead of it.
#[verifier::rlimit(50)]
pub proof fn law_other_names_are_unknown(
    name: Seq<char>,
    ctrl: bool,
    alt: bool,
    shift: bool,
    application_cursor: bool,
)
    requires
        name.len() != 1,
        name.len() == 0 ==> !ctrl && !alt && !shift,
        name.len() <= 2 || name[1] != '-' || !(name[0] == 'C' || name[0] == 'c' || name[0] == 'M'
            || name[0] == 'm' || name[0] == 'A' || name[0] == 'a' || name[0] == 'S' || name[0]
            == 's'),
        !spells(name, "up"@),
        !spells(name, "down"@),
        !spells(name, "right"@),
        !spells(name, "left"@),
        !spells(name, "home"@),
        !spells(name, "end"@),
        !spells(name, "f1"@),
        !spells(name, "f2"@),
        !spells(name, "f3"@),
        !spells(name, "f4"@),
        !spells(name, "insert"@),
        !spells(name, "delete"@),
        !spells(name, "del"@),
        !spells(name, "pageup"@),
        !spells(name, "pgup"@),
        !spells(name, "pagedown"@),
        !spells(name, "pgdn"@),
        !spells(name, "f5"@),
        !spells(name, "f6"@),
        !spells(name, "f7"@),
        !spells(name, "f8"@),
        !spells(name, "f9"@),
        !spells(name, "f10"@),
        !spells(name, "f11"@),
        !spells(name, "f12"@),
        !spells(name, "enter"@),
        !spells(name, "return"@),
        !spells(name, "tab"@),
        !spells(name, "esc"@),
        !spells(name, "escape"@),
        !spells(name, "backspace"@),
        !spells(name, "bs"@),
        !spells(name, "space"@),
    ensures
        encoding(held_prefixes(ctrl, alt, shift) + name, application_cursor) == Err::<
            Seq<u8>,
            KeyFault,
        >(KeyFault::Unknown),
{
    lemma_key_names();
    if name.len() == 0 {
        assert(held_prefixes(ctrl, alt, shift) + name =~= name);
    } else {
        lemma_held_prefixes(ctrl, alt, shift, name);
    }
    lemma_spelled(name, "up"@);
    lemma_spelled(name, "down"@);
    lemma_spelled(name, "right"@);
    lemma_spelled(name, "left"@);
    lemma_spelled(name, "home"@);
    lemma_spelled(name, "end"@);
    lemma_spelled(name, "f1"@);
    lemma_spelled(name, "f2"@);
    lemma_spelled(name, "f3"@);
    lemma_spelled(name, "f4"@);
    lemma_spelled(name, "insert"@);
    lemma_spelled(name, "delete"@);
    lemma_spelled(name, "del"@);
    lemma_spelled(name, "pageup"@);
    lemma_spelled(name, "pgup"@);
    lemma_spelled(name, "pagedown"@);
    lemma_spelled(name, "pgdn"@);
    lemma_spelled(name, "f5"@);
    lemma_spelled(name, "f6"@);
    lemma_spelled(name, "f7"@);
    lemma_spelled(name, "f8"@);
    lemma_spelled(name, "f9"@);
    lemma_spelled(name, "f10"@);
    lemma_spelled(name, "f11"@);
    lemma_spelled(name, "f12"@);
    lemma_spelled(name, "enter"@);
    lemma_spelled(name, "return"@);
    lemma_spelled(name, "tab"@);
    lemma_spelled(name, "esc"@);
    lemma_spelled(name, "escape"@);
    lemma_spelled(name, "backspace"@);
    lemma_spelled(name, "bs"@);
    lemma_spelled(name, "space"@);
}

/// A single character sends itself, with an escape byte ahead for Alt. With Ctrl it sends the low
/// five bits of a letter or of one of `@ [ \ ] ^ _`, zero for a space and 127 for `?`, and is refused
/// where it is none of them. Shift is always refused.
pub proof fn law_single_characters(
    c: char,
    ctrl: bool,
    alt: bool,
    shift: bool,
    application_cursor: bool,
)
    ensures
        ({
            let sent = encoding(held_prefixes(ctrl, alt, shift) + seq![c], application_cursor);
            let ahead = if alt {
                seq![0x1bu8]
            } else {
                Seq::<u8>::empty()
            };
            &&& shift ==> sent == Err::<Seq<u8>, KeyFault>(KeyFault::Shifted)
            &&& !shift && !ctrl ==> sent == Ok::<Seq<u8>, KeyFault>(ahead + encode_utf8(seq![c]))
            &&& !shift && ctrl && ('@' <= c <= '_' || 'a' <= c <= 'z') ==> sent == Ok::<
                Seq<u8>,
                KeyFault,
            >(ahead.push((c as int % 32) as u8))
            &&& !shift && ctrl && c == ' ' ==> sent == Ok::<Seq<u8>, KeyFault>(ahead.push(0))
            &&& !shift && ctrl && c == '?' ==> sent == Ok::<Seq<u8>, KeyFault>(ahead.push(127))
            &&& !shift && ctrl && c != ' ' && c != '?' && !('@' <= c <= '_') && !('a' <= c
                <= 'z') ==> sent == Err::<Seq<u8>, KeyFault>(KeyFault::NoControlCode(c))
        }),
{
    lemma_held_prefixes(ctrl, alt, shift, seq![c]);
    assert(seq![c][0] == c);
}

/// A prefix letter means the same in either case, and `A` means Alt as `M` does.
pub proof fn law_prefix_letters(key: Seq<char>, application_cursor: bool)
    requires
        key.len() > 0,
    ensures
        encoding(seq!['c', '-'] + key, application_cursor) == encoding(
            seq!['C', '-'] + key,
            application_cursor,
        ),
        encoding(seq!['s', '-'] + key, application_cursor) == encoding(
            seq!['S', '-'] + key,
            application_cursor,
        ),
        encoding(seq!['m', '-'] + key, application_cursor) == encoding(
            seq!['M', '-'] + key,
            application_cursor,
        ),
        encoding(seq!['a', '-'] + key, application_cursor) == encoding(
            seq!['M', '-'] + key,
            application_cursor,
        ),
        encoding(seq!['A', '-'] + key, application_cursor) == encoding(
            seq!['M', '-'] + key,
            application_cursor,
        ),
{
    lemma_one_prefix('c', key);
    lemma_one_prefix('C', key);
    lemma_one_prefix('s', key);
    lemma_one_prefix('S', key);
    lemma_one_prefix('m', key);
    lemma_one_prefix('M', key);
    lemma_one_prefix('a', key);
    lemma_one_prefix('A', key);
}

/// Every key without an encoding is reported under the name it was given, with what is wrong.
pub proof fn law_key_errors_in_words(error: &KeyError, text: String)
    requires
        call_ensures(KeyError::describe, (error,), text),
    ensures
        error.fault is Shifted ==> text@ == error.name@
            + ": use the shifted character instead of S-"@,
        error.fault matches KeyFault::NoControlCode(c) ==> text@ == error.name@
            + ": no Ctrl code for "@ + quoted_char(c),
        error.fault is Unknown ==> text@ == "unknown key "@ + quoted(error.name@),
        error.fault is UnsupportedModifier ==> text@ == error.name@ + ": unsupported modifier"@,
{
}

/// A key is sent as it is encoded, and one without an encoding is reported under its own name; several
/// are sent in order.
pub proof fn law_keys_are_sent_as_they_are_encoded(
    name: &str,
    names: &[String],
    application_cursor: bool,
    one: Result<Vec<u8>, KeyError>,
    several: Result<Vec<u8>, KeyError>,
)
    requires
        call_ensures(encode, (name, application_cursor), one),
        call_ensures(encode_all, (names, application_cursor), several),
    ensures
        one is Ok <==> encoding(name@, application_cursor) is Ok,
        one matches Ok(bytes) ==> encoding(name@, application_cursor)->Ok_0 == bytes@,
        one matches Err(error) ==> error.name@ == name@ && encoding(name@, application_cursor)->Err_0
            == error.fault,
        several is Ok <==> encodings(texts(names@), application_cursor) is Ok,
        several matches Ok(bytes) ==> encodings(texts(names@), application_cursor)->Ok_0 == bytes@,
{
}

} // verus!
