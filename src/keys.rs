//! Symbolic key input: parsing key specifications such as `C-S-Left` or `^c`
//! and encoding them into the bytes an xterm-compatible terminal sends.
use vstd::prelude::*;
use vstd::string::*;
use vstd::utf8::*;

verus! {

/// A named (non-character) key.
#[derive(PartialEq, Eq, Structural, Clone, Copy, Debug)]
pub enum Key {
    Enter,
    Space,
    Escape,
    Tab,
    Up,
    Down,
    Right,
    Left,
    Home,
    End,
    PageUp,
    PageDown,
    F1,
    F2,
    F3,
    F4,
    F5,
    F6,
    F7,
    F8,
    F9,
    F10,
    F11,
    F12,
}

/// The set of modifiers held together with a key.
#[derive(PartialEq, Eq, Structural, Clone, Copy, Debug)]
pub struct Mods {
    pub ctrl: bool,
    pub shift: bool,
    pub alt: bool,
}

/// What a modified key specification names: a named key or a single character.
#[derive(PartialEq, Eq, Structural, Clone, Copy, Debug)]
pub enum Base {
    Named(Key),
    Char(char),
}

/// One item of input: literal text, or a key with modifiers.
#[derive(Clone, Debug)]
pub enum InputSeq {
    Standard(String),
    Special { base: Base, mods: Mods },
}

/// The reason a batch of input items could not be encoded: the item at
/// `index` asks for a modifier combination that has no encoding.
#[derive(PartialEq, Eq, Structural, Clone, Copy, Debug)]
pub struct KeyError {
    pub index: usize,
}

pub const ESC: u8 = 0x1b;

pub open spec fn no_mods() -> Mods {
    Mods { ctrl: false, shift: false, alt: false }
}

pub open spec fn any_mod(m: Mods) -> bool {
    m.ctrl || m.shift || m.alt
}

pub open spec fn union_mods(a: Mods, b: Mods) -> Mods {
    Mods { ctrl: a.ctrl || b.ctrl, shift: a.shift || b.shift, alt: a.alt || b.alt }
}

/// The name by which a key is written in a key specification.
pub open spec fn key_name(k: Key) -> Seq<char> {
    match k {
        Key::Enter => seq!['E', 'n', 't', 'e', 'r'],
        Key::Space => seq!['S', 'p', 'a', 'c', 'e'],
        Key::Escape => seq!['E', 's', 'c', 'a', 'p', 'e'],
        Key::Tab => seq!['T', 'a', 'b'],
        Key::Up => seq!['U', 'p'],
        Key::Down => seq!['D', 'o', 'w', 'n'],
        Key::Right => seq!['R', 'i', 'g', 'h', 't'],
        Key::Left => seq!['L', 'e', 'f', 't'],
        Key::Home => seq!['H', 'o', 'm', 'e'],
        Key::End => seq!['E', 'n', 'd'],
        Key::PageUp => seq!['P', 'a', 'g', 'e', 'U', 'p'],
        Key::PageDown => seq!['P', 'a', 'g', 'e', 'D', 'o', 'w', 'n'],
        Key::F1 => seq!['F', '1'],
        Key::F2 => seq!['F', '2'],
        Key::F3 => seq!['F', '3'],
        Key::F4 => seq!['F', '4'],
        Key::F5 => seq!['F', '5'],
        Key::F6 => seq!['F', '6'],
        Key::F7 => seq!['F', '7'],
        Key::F8 => seq!['F', '8'],
        Key::F9 => seq!['F', '9'],
        Key::F10 => seq!['F', '1', '0'],
        Key::F11 => seq!['F', '1', '1'],
        Key::F12 => seq!['F', '1', '2'],
    }
}

/// The key whose name is exactly `s`, if any.
pub open spec fn named_key(s: Seq<char>) -> Option<Key> {
    if s == key_name(Key::Enter) {
        Some(Key::Enter)
    } else if s == key_name(Key::Space) {
        Some(Key::Space)
    } else if s == key_name(Key::Escape) {
        Some(Key::Escape)
    } else if s == key_name(Key::Tab) {
        Some(Key::Tab)
    } else if s == key_name(Key::Up) {
        Some(Key::Up)
    } else if s == key_name(Key::Down) {
        Some(Key::Down)
    } else if s == key_name(Key::Right) {
        Some(Key::Right)
    } else if s == key_name(Key::Left) {
        Some(Key::Left)
    } else if s == key_name(Key::Home) {
        Some(Key::Home)
    } else if s == key_name(Key::End) {
        Some(Key::End)
    } else if s == key_name(Key::PageUp) {
        Some(Key::PageUp)
    } else if s == key_name(Key::PageDown) {
        Some(Key::PageDown)
    } else if s == key_name(Key::F1) {
        Some(Key::F1)
    } else if s == key_name(Key::F2) {
        Some(Key::F2)
    } else if s == key_name(Key::F3) {
        Some(Key::F3)
    } else if s == key_name(Key::F4) {
        Some(Key::F4)
    } else if s == key_name(Key::F5) {
        Some(Key::F5)
    } else if s == key_name(Key::F6) {
        Some(Key::F6)
    } else if s == key_name(Key::F7) {
        Some(Key::F7)
    } else if s == key_name(Key::F8) {
        Some(Key::F8)
    } else if s == key_name(Key::F9) {
        Some(Key::F9)
    } else if s == key_name(Key::F10) {
        Some(Key::F10)
    } else if s == key_name(Key::F11) {
        Some(Key::F11)
    } else if s == key_name(Key::F12) {
        Some(Key::F12)
    } else {
        None
    }
}

/// Splits the modifier prefixes (`C-`, `S-`, `A-`, and a `^` directly before
/// the last character) off a key specification.
pub open spec fn split_mods(s: Seq<char>) -> (Mods, Seq<char>)
    decreases s.len(),
{
    if s.len() > 2 && s[1] == '-' && (s[0] == 'C' || s[0] == 'S' || s[0] == 'A') {
        let (m, rest) = split_mods(s.subrange(2, s.len() as int));
        let here = Mods { ctrl: s[0] == 'C', shift: s[0] == 'S', alt: s[0] == 'A' };
        (union_mods(here, m), rest)
    } else if s.len() == 2 && s[0] == '^' {
        (Mods { ctrl: true, shift: false, alt: false }, s.subrange(1, 2))
    } else {
        (no_mods(), s)
    }
}

/// What `parse_key` makes of the specification `s`: a named key (with any
/// modifiers), a modified single character, or else the text as it stands.
pub open spec fn parsed_as(s: Seq<char>, r: InputSeq) -> bool {
    let (m, rest) = split_mods(s);
    match named_key(rest) {
        Some(k) => r == (InputSeq::Special { base: Base::Named(k), mods: m }),
        None => if any_mod(m) && rest.len() == 1 {
            r == (InputSeq::Special { base: Base::Char(rest[0]), mods: m })
        } else {
            r is Standard && r->Standard_0@ == s
        },
    }
}

/// The xterm modifier parameter: 1 plus 1 for shift, 2 for alt, 4 for control.
pub open spec fn mod_param(m: Mods) -> u8 {
    (1 + (if m.shift { 1u8 } else { 0u8 }) + (if m.alt { 2u8 } else { 0u8 }) + (if m.ctrl {
        4u8
    } else {
        0u8
    })) as u8
}

/// Final byte of the cursor-style keys (arrows, Home, End).
pub open spec fn cursor_final(k: Key) -> Option<u8> {
    match k {
        Key::Up => Some(0x41u8),
        Key::Down => Some(0x42u8),
        Key::Right => Some(0x43u8),
        Key::Left => Some(0x44u8),
        Key::Home => Some(0x48u8),
        Key::End => Some(0x46u8),
        _ => None,
    }
}

/// Final byte of F1 to F4, which xterm sends as SS3 sequences.
pub open spec fn ss3_final(k: Key) -> Option<u8> {
    match k {
        Key::F1 => Some(0x50u8),
        Key::F2 => Some(0x51u8),
        Key::F3 => Some(0x52u8),
        Key::F4 => Some(0x53u8),
        _ => None,
    }
}

/// The number of the `CSI n ~` sequence of the keys that xterm sends that way.
pub open spec fn tilde_number(k: Key) -> Option<Seq<u8>> {
    match k {
        Key::PageUp => Some(seq![0x35u8]),
        Key::PageDown => Some(seq![0x36u8]),
        Key::F5 => Some(seq![0x31u8, 0x35u8]),
        Key::F6 => Some(seq![0x31u8, 0x37u8]),
        Key::F7 => Some(seq![0x31u8, 0x38u8]),
        Key::F8 => Some(seq![0x31u8, 0x39u8]),
        Key::F9 => Some(seq![0x32u8, 0x30u8]),
        Key::F10 => Some(seq![0x32u8, 0x31u8]),
        Key::F11 => Some(seq![0x32u8, 0x33u8]),
        Key::F12 => Some(seq![0x32u8, 0x34u8]),
        _ => None,
    }
}

pub open spec fn with_alt(alt: bool, b: Seq<u8>) -> Seq<u8> {
    if alt {
        seq![ESC] + b
    } else {
        b
    }
}

/// `CSI 1 ; m f`, the modified form of the cursor keys and F1 to F4.
pub open spec fn csi_modified(m: Mods, f: u8) -> Seq<u8> {
    seq![ESC, 0x5bu8, 0x31u8, 0x3bu8, (0x30 + mod_param(m)) as u8, f]
}

/// The bytes of a named key under modifiers, or `None` where the
/// combination has no encoding.
pub open spec fn named_bytes(k: Key, m: Mods, app_cursor: bool) -> Option<Seq<u8>> {
    if cursor_final(k) is Some {
        let f = cursor_final(k)->0;
        if any_mod(m) {
            Some(csi_modified(m, f))
        } else if app_cursor {
            Some(seq![ESC, 0x4fu8, f])
        } else {
            Some(seq![ESC, 0x5bu8, f])
        }
    } else if ss3_final(k) is Some {
        let f = ss3_final(k)->0;
        if any_mod(m) {
            Some(csi_modified(m, f))
        } else {
            Some(seq![ESC, 0x4fu8, f])
        }
    } else if tilde_number(k) is Some {
        let n = tilde_number(k)->0;
        if any_mod(m) {
            Some(seq![ESC, 0x5bu8] + n + seq![0x3bu8, (0x30 + mod_param(m)) as u8, 0x7eu8])
        } else {
            Some(seq![ESC, 0x5bu8] + n + seq![0x7eu8])
        }
    } else {
        match k {
            Key::Enter => if !m.ctrl && !m.shift {
                Some(with_alt(m.alt, seq![0x0du8]))
            } else {
                None
            },
            Key::Tab => if m.shift && !m.ctrl && !m.alt {
                Some(seq![ESC, 0x5bu8, 0x5au8])
            } else if !m.ctrl && !m.shift {
                Some(with_alt(m.alt, seq![0x09u8]))
            } else {
                None
            },
            Key::Escape => if !m.ctrl && !m.shift {
                Some(with_alt(m.alt, seq![ESC]))
            } else {
                None
            },
            _ => if !m.shift {
                Some(with_alt(m.alt, seq![if m.ctrl { 0x00u8 } else { 0x20u8 }]))
            } else {
                None
            },
        }
    }
}

/// Characters that take the control modifier: ASCII letters and `[`.
pub open spec fn takes_ctrl(c: char) -> bool {
    ('a' <= c && c <= 'z') || ('A' <= c && c <= 'Z') || c == '['
}

/// The control code of a character: its value with all but the low five bits cleared.
pub open spec fn ctrl_code(c: char) -> u8 {
    ((c as u32) & 0x1f) as u8
}

/// The bytes of a single character under modifiers, or `None` where the
/// combination has no encoding (shift, or control on a character that does not take it).
pub open spec fn char_bytes(c: char, m: Mods) -> Option<Seq<u8>> {
    if m.shift {
        None
    } else if m.ctrl {
        if takes_ctrl(c) {
            Some(with_alt(m.alt, seq![ctrl_code(c)]))
        } else {
            None
        }
    } else {
        Some(with_alt(m.alt, encode_utf8(seq![c])))
    }
}

/// The bytes of one input item.
pub open spec fn item_bytes(item: InputSeq, app_cursor: bool) -> Option<Seq<u8>> {
    match item {
        InputSeq::Standard(s) => Some(encode_utf8(s@)),
        InputSeq::Special { base, mods } => match base {
            Base::Named(k) => named_bytes(k, mods, app_cursor),
            Base::Char(c) => char_bytes(c, mods),
        },
    }
}

/// The bytes of the first `n` items, concatenated, or `None` if one of them
/// has no encoding.
pub open spec fn encode_prefix(items: Seq<InputSeq>, n: int, app_cursor: bool) -> Option<Seq<u8>>
    decreases n,
{
    if n <= 0 {
        Some(Seq::empty())
    } else {
        match (encode_prefix(items, n - 1, app_cursor), item_bytes(items[n - 1], app_cursor)) {
            (Some(a), Some(b)) => Some(a + b),
            _ => None,
        }
    }
}

pub open spec fn encode_all(items: Seq<InputSeq>, app_cursor: bool) -> Option<Seq<u8>> {
    encode_prefix(items, items.len() as int, app_cursor)
}


/// The name of a key, as characters.
fn key_label(k: Key) -> (r: Vec<char>)
    ensures
        r@ == key_name(k),
{
    match k {
        Key::Enter => vec!['E', 'n', 't', 'e', 'r'],
        Key::Space => vec!['S', 'p', 'a', 'c', 'e'],
        Key::Escape => vec!['E', 's', 'c', 'a', 'p', 'e'],
        Key::Tab => vec!['T', 'a', 'b'],
        Key::Up => vec!['U', 'p'],
        Key::Down => vec!['D', 'o', 'w', 'n'],
        Key::Right => vec!['R', 'i', 'g', 'h', 't'],
        Key::Left => vec!['L', 'e', 'f', 't'],
        Key::Home => vec!['H', 'o', 'm', 'e'],
        Key::End => vec!['E', 'n', 'd'],
        Key::PageUp => vec!['P', 'a', 'g', 'e', 'U', 'p'],
        Key::PageDown => vec!['P', 'a', 'g', 'e', 'D', 'o', 'w', 'n'],
        Key::F1 => vec!['F', '1'],
        Key::F2 => vec!['F', '2'],
        Key::F3 => vec!['F', '3'],
        Key::F4 => vec!['F', '4'],
        Key::F5 => vec!['F', '5'],
        Key::F6 => vec!['F', '6'],
        Key::F7 => vec!['F', '7'],
        Key::F8 => vec!['F', '8'],
        Key::F9 => vec!['F', '9'],
        Key::F10 => vec!['F', '1', '0'],
        Key::F11 => vec!['F', '1', '1'],
        Key::F12 => vec!['F', '1', '2'],
    }
}

/// Whether the characters of `v` from `from` on are exactly `name`.
fn rest_is(v: &Vec<char>, from: usize, name: &Vec<char>) -> (r: bool)
    requires
        from <= v.len(),
    ensures
        r == (v@.subrange(from as int, v@.len() as int) == name@),
{
    if v.len() - from != name.len() {
        proof {
            assert(v@.subrange(from as int, v@.len() as int).len() != name@.len());
        }
        return false;
    }
    let mut j: usize = 0;
    while j < name.len()
        invariant
            from <= v.len(),
            v.len() - from == name.len(),
            j <= name.len(),
            forall|t: int| 0 <= t < j ==> v@[from + t] == name@[t],
        decreases name.len() - j,
    {
        if v[from + j] != name[j] {
            proof {
                assert(v@.subrange(from as int, v@.len() as int)[j as int] != name@[j as int]);
            }
            return false;
        }
        j = j + 1;
    }
    proof {
        assert(v@.subrange(from as int, v@.len() as int) =~= name@);
    }
    true
}

/// The key named by the characters of `v` from `from` on.
fn find_named(v: &Vec<char>, from: usize) -> (r: Option<Key>)
    requires
        from <= v.len(),
    ensures
        r == named_key(v@.subrange(from as int, v@.len() as int)),
{
    if rest_is(v, from, &key_label(Key::Enter)) {
        Some(Key::Enter)
    } else if rest_is(v, from, &key_label(Key::Space)) {
        Some(Key::Space)
    } else if rest_is(v, from, &key_label(Key::Escape)) {
        Some(Key::Escape)
    } else if rest_is(v, from, &key_label(Key::Tab)) {
        Some(Key::Tab)
    } else if rest_is(v, from, &key_label(Key::Up)) {
        Some(Key::Up)
    } else if rest_is(v, from, &key_label(Key::Down)) {
        Some(Key::Down)
    } else if rest_is(v, from, &key_label(Key::Right)) {
        Some(Key::Right)
    } else if rest_is(v, from, &key_label(Key::Left)) {
        Some(Key::Left)
    } else if rest_is(v, from, &key_label(Key::Home)) {
        Some(Key::Home)
    } else if rest_is(v, from, &key_label(Key::End)) {
        Some(Key::End)
    } else if rest_is(v, from, &key_label(Key::PageUp)) {
        Some(Key::PageUp)
    } else if rest_is(v, from, &key_label(Key::PageDown)) {
        Some(Key::PageDown)
    } else if rest_is(v, from, &key_label(Key::F1)) {
        Some(Key::F1)
    } else if rest_is(v, from, &key_label(Key::F2)) {
        Some(Key::F2)
    } else if rest_is(v, from, &key_label(Key::F3)) {
        Some(Key::F3)
    } else if rest_is(v, from, &key_label(Key::F4)) {
        Some(Key::F4)
    } else if rest_is(v, from, &key_label(Key::F5)) {
        Some(Key::F5)
    } else if rest_is(v, from, &key_label(Key::F6)) {
        Some(Key::F6)
    } else if rest_is(v, from, &key_label(Key::F7)) {
        Some(Key::F7)
    } else if rest_is(v, from, &key_label(Key::F8)) {
        Some(Key::F8)
    } else if rest_is(v, from, &key_label(Key::F9)) {
        Some(Key::F9)
    } else if rest_is(v, from, &key_label(Key::F10)) {
        Some(Key::F10)
    } else if rest_is(v, from, &key_label(Key::F11)) {
        Some(Key::F11)
    } else if rest_is(v, from, &key_label(Key::F12)) {
        Some(Key::F12)
    } else {
        None
    }
}

/// The characters of a string, in order.
fn chars_of(s: &String) -> (v: Vec<char>)
    ensures
        v@ == s@,
{
    let n: usize = s.as_str().unicode_len();
    let mut v: Vec<char> = Vec::new();
    let mut i: usize = 0;
    while i < n
        invariant
            n == s@.len(),
            i <= n,
            v@ == s@.subrange(0, i as int),
        decreases n - i,
    {
        let c = s.as_str().get_char(i);
        v.push(c);
        i = i + 1;
        proof {
            assert(v@ =~= s@.subrange(0, i as int));
        }
    }
    proof {
        assert(v@ =~= s@);
    }
    v
}

/// How many characters of modifier prefix start at `i`: 2 for `C-`, `S-` or
/// `A-` before a non-empty rest, 1 for a `^` before a last character, else 0.
fn prefix_len(v: &Vec<char>, i: usize) -> (r: usize)
    requires
        i <= v.len(),
    ensures
        r == 2 <==> (v.len() - i > 2 && v@[i + 1] == '-' && (v@[i as int] == 'C' || v@[i as int]
            == 'S' || v@[i as int] == 'A')),
        r == 1 <==> (v.len() - i == 2 && v@[i as int] == '^'),
        r == 0 || r == 1 || r == 2,
{
    let n = v.len();
    if n - i > 2 && v[i + 1] == '-' && (v[i] == 'C' || v[i] == 'S' || v[i] == 'A') {
        2
    } else if n - i == 2 && v[i] == '^' {
        1
    } else {
        0
    }
}

/// Parses a key specification: modifier prefixes (`C-`, `S-`, `A-`, or `^`
/// before a single character) followed by a key name such as `Left` or `F5`,
/// or by a single character. Anything else stands for itself as literal text.
pub fn parse_key(s: String) -> (r: InputSeq)
    ensures
        parsed_as(s@, r),
{
    let v = chars_of(&s);
    let n = v.len();
    let mut i: usize = 0;
    let mut m = Mods { ctrl: false, shift: false, alt: false };
    let mut step = prefix_len(&v, i);
    proof {
        assert(v@.subrange(0, n as int) =~= v@);
        let mm = split_mods(v@).0;
        assert(union_mods(m, mm) == mm);
    }
    while step != 0
        invariant
            v@ == s@,
            n == v.len(),
            i <= n,
            step == 2 <==> (n - i > 2 && v@[i + 1] == '-' && (v@[i as int] == 'C' || v@[i as int]
                == 'S' || v@[i as int] == 'A')),
            step == 1 <==> (n - i == 2 && v@[i as int] == '^'),
            step == 0 || step == 1 || step == 2,
            split_mods(s@) == (
                union_mods(m, split_mods(v@.subrange(i as int, n as int)).0),
                split_mods(v@.subrange(i as int, n as int)).1,
            ),
        decreases n - i,
    {
        let ghost rest = v@.subrange(i as int, n as int);
        if step == 2 {
            let c = v[i];
            m = Mods { ctrl: m.ctrl || c == 'C', shift: m.shift || c == 'S', alt: m.alt || c == 'A' };
            proof {
                assert(rest.subrange(2, rest.len() as int) =~= v@.subrange(i + 2, n as int));
            }
            i = i + 2;
        } else {
            m = Mods { ctrl: true, shift: m.shift, alt: m.alt };
            proof {
                assert(rest.subrange(1, 2) =~= v@.subrange(i + 1, n as int));
            }
            i = i + 1;
        }
        step = prefix_len(&v, i);
    }
    let named = find_named(&v, i);
    match named {
        Some(k) => InputSeq::Special { base: Base::Named(k), mods: m },
        None => {
            if (m.ctrl || m.shift || m.alt) && n - i == 1 {
                InputSeq::Special { base: Base::Char(v[i]), mods: m }
            } else {
                InputSeq::Standard(s)
            }
        },
    }
}


fn mod_param_of(m: Mods) -> (r: u8)
    ensures
        r == mod_param(m),
        2 <= r <= 8 || !any_mod(m),
{
    1 + (if m.shift { 1u8 } else { 0u8 }) + (if m.alt { 2u8 } else { 0u8 }) + (if m.ctrl {
        4u8
    } else {
        0u8
    })
}

fn cursor_final_of(k: Key) -> (r: Option<u8>)
    ensures
        r == cursor_final(k),
{
    match k {
        Key::Up => Some(0x41u8),
        Key::Down => Some(0x42u8),
        Key::Right => Some(0x43u8),
        Key::Left => Some(0x44u8),
        Key::Home => Some(0x48u8),
        Key::End => Some(0x46u8),
        _ => None,
    }
}

fn ss3_final_of(k: Key) -> (r: Option<u8>)
    ensures
        r == ss3_final(k),
{
    match k {
        Key::F1 => Some(0x50u8),
        Key::F2 => Some(0x51u8),
        Key::F3 => Some(0x52u8),
        Key::F4 => Some(0x53u8),
        _ => None,
    }
}

fn tilde_number_of(k: Key) -> (r: Option<Vec<u8>>)
    ensures
        r is Some <==> tilde_number(k) is Some,
        r is Some ==> r->0@ == tilde_number(k)->0,
{
    match k {
        Key::PageUp => Some(vec![0x35u8]),
        Key::PageDown => Some(vec![0x36u8]),
        Key::F5 => Some(vec![0x31u8, 0x35u8]),
        Key::F6 => Some(vec![0x31u8, 0x37u8]),
        Key::F7 => Some(vec![0x31u8, 0x38u8]),
        Key::F8 => Some(vec![0x31u8, 0x39u8]),
        Key::F9 => Some(vec![0x32u8, 0x30u8]),
        Key::F10 => Some(vec![0x32u8, 0x31u8]),
        Key::F11 => Some(vec![0x32u8, 0x33u8]),
        Key::F12 => Some(vec![0x32u8, 0x34u8]),
        _ => None,
    }
}

fn alt_prefixed(alt: bool, b: Vec<u8>) -> (r: Vec<u8>)
    ensures
        r@ == with_alt(alt, b@),
{
    if alt {
        let mut r: Vec<u8> = vec![ESC];
        let mut b = b;
        let ghost bv = b@;
        r.append(&mut b);
        proof {
            assert(r@ =~= seq![ESC] + bv);
        }
        r
    } else {
        b
    }
}

/// The bytes of a named key under modifiers; `None` where xterm has no
/// encoding for the combination.
pub fn named_key_bytes(k: Key, m: Mods, app_cursor: bool) -> (r: Option<Vec<u8>>)
    ensures
        r is Some <==> named_bytes(k, m, app_cursor) is Some,
        r is Some ==> r->0@ == named_bytes(k, m, app_cursor)->0,
{
    let any = m.ctrl || m.shift || m.alt;
    let p = mod_param_of(m);
    if let Some(f) = cursor_final_of(k) {
        if any {
            Some(vec![ESC, 0x5bu8, 0x31u8, 0x3bu8, 0x30 + p, f])
        } else if app_cursor {
            Some(vec![ESC, 0x4fu8, f])
        } else {
            Some(vec![ESC, 0x5bu8, f])
        }
    } else if let Some(f) = ss3_final_of(k) {
        if any {
            Some(vec![ESC, 0x5bu8, 0x31u8, 0x3bu8, 0x30 + p, f])
        } else {
            Some(vec![ESC, 0x4fu8, f])
        }
    } else if let Some(n) = tilde_number_of(k) {
        let mut r: Vec<u8> = vec![ESC, 0x5bu8];
        let mut n = n;
        let ghost nv = n@;
        r.append(&mut n);
        let mut tail: Vec<u8> = if any {
            vec![0x3bu8, 0x30 + p, 0x7eu8]
        } else {
            vec![0x7eu8]
        };
        let ghost tv = tail@;
        r.append(&mut tail);
        proof {
            assert(r@ =~= seq![ESC, 0x5bu8] + nv + tv);
        }
        Some(r)
    } else {
        match k {
            Key::Enter => if !m.ctrl && !m.shift {
                Some(alt_prefixed(m.alt, vec![0x0du8]))
            } else {
                None
            },
            Key::Tab => if m.shift && !m.ctrl && !m.alt {
                Some(vec![ESC, 0x5bu8, 0x5au8])
            } else if !m.ctrl && !m.shift {
                Some(alt_prefixed(m.alt, vec![0x09u8]))
            } else {
                None
            },
            Key::Escape => if !m.ctrl && !m.shift {
                Some(alt_prefixed(m.alt, vec![ESC]))
            } else {
                None
            },
            _ => if !m.shift {
                Some(alt_prefixed(m.alt, vec![if m.ctrl { 0x00u8 } else { 0x20u8 }]))
            } else {
                None
            },
        }
    }
}

/// The UTF-8 encoding of one character.
fn utf8_of_char(c: char) -> (r: Vec<u8>)
    ensures
        r@ == encode_utf8(seq![c]),
{
    let x: u32 = c as u32;
    proof {
        assert(seq![c].drop_first() =~= Seq::<char>::empty());
        assert(encode_utf8(Seq::<char>::empty()) =~= Seq::<u8>::empty());
        assert(encode_utf8(seq![c]) =~= encode_scalar(x) + encode_utf8(seq![c].drop_first()));
    }
    if x <= 0x7f {
        vec![(x & 0x7f) as u8]
    } else if x <= 0x7ff {
        vec![0xc0 | ((x >> 6) & 0x1f) as u8, 0x80 | (x & 0x3f) as u8]
    } else if x <= 0xffff {
        proof {
            broadcast use char_is_scalar;
            assert(is_scalar(x));
        }
        vec![
            0xe0 | ((x >> 12) & 0x0f) as u8,
            0x80 | ((x >> 6) & 0x3f) as u8,
            0x80 | (x & 0x3f) as u8,
        ]
    } else {
        proof {
            broadcast use char_is_scalar;
            assert(is_scalar(x));
        }
        vec![
            0xf0 | ((x >> 18) & 0x7) as u8,
            0x80 | ((x >> 12) & 0x3f) as u8,
            0x80 | ((x >> 6) & 0x3f) as u8,
            0x80 | (x & 0x3f) as u8,
        ]
    }
}

/// The bytes of a single character under modifiers; `None` for shift, and
/// for control on a character that has no control code.
pub fn char_key_bytes(c: char, m: Mods) -> (r: Option<Vec<u8>>)
    ensures
        r is Some <==> char_bytes(c, m) is Some,
        r is Some ==> r->0@ == char_bytes(c, m)->0,
{
    if m.shift {
        None
    } else if m.ctrl {
        if ('a' <= c && c <= 'z') || ('A' <= c && c <= 'Z') || c == '[' {
            let c0: u32 = c as u32;
            let x: u32 = c0 & 0x1f;
            proof {
                assert(c0 & 0x1f <= 0x1f) by (bit_vector);
            }
            Some(alt_prefixed(m.alt, vec![x as u8]))
        } else {
            None
        }
    } else {
        Some(alt_prefixed(m.alt, utf8_of_char(c)))
    }
}

/// The bytes of one input item; `None` where it has no encoding.
pub fn item_to_bytes(item: &InputSeq, app_cursor: bool) -> (r: Option<Vec<u8>>)
    ensures
        r is Some <==> item_bytes(*item, app_cursor) is Some,
        r is Some ==> r->0@ == item_bytes(*item, app_cursor)->0,
{
    match item {
        InputSeq::Standard(s) => Some(s.as_str().as_bytes_vec()),
        InputSeq::Special { base, mods } => match base {
            Base::Named(k) => named_key_bytes(*k, *mods, app_cursor),
            Base::Char(c) => char_key_bytes(*c, *mods),
        },
    }
}

/// Encodes a batch of input items into one buffer: literal text as its UTF-8
/// bytes, keys as an xterm sends them. `app_cursor` selects the application
/// cursor keys forms of the unmodified cursor keys. Fails with the index of
/// the first item whose modifier combination has no encoding.
pub fn seqs_to_bytes(seqs: &Vec<InputSeq>, app_cursor: bool) -> (r: Result<Vec<u8>, KeyError>)
    ensures
        r is Ok <==> encode_all(seqs@, app_cursor) is Some,
        r is Ok ==> r->Ok_0@ == encode_all(seqs@, app_cursor)->0,
        r is Err ==> {
            let i = r->Err_0.index as int;
            &&& 0 <= i < seqs@.len()
            &&& item_bytes(seqs@[i], app_cursor) is None
            &&& encode_prefix(seqs@, i, app_cursor) is Some
        },
{
    let mut out: Vec<u8> = Vec::new();
    let mut i: usize = 0;
    while i < seqs.len()
        invariant
            i <= seqs.len(),
            encode_prefix(seqs@, i as int, app_cursor) == Some(out@),
        decreases seqs.len() - i,
    {
        match item_to_bytes(&seqs[i], app_cursor) {
            Some(b) => {
                let mut b = b;
                out.append(&mut b);
                i = i + 1;
            },
            None => {
                proof {
                    lemma_prefix_none(seqs@, i as int, seqs@.len() as int, app_cursor);
                }
                return Err(KeyError { index: i });
            },
        }
    }
    Ok(out)
}

/// Once a prefix has an item without encoding, every longer prefix has none.
proof fn lemma_prefix_none(items: Seq<InputSeq>, i: int, n: int, app_cursor: bool)
    requires
        0 <= i < n,
        item_bytes(items[i], app_cursor) is None,
    ensures
        encode_prefix(items, n, app_cursor) is None,
    decreases n - i,
{
    if n > i + 1 {
        lemma_prefix_none(items, i, n - 1, app_cursor);
    }
}


/// The characters of the first `n` literal-text items, joined.
pub open spec fn joined_text(items: Seq<InputSeq>, n: int) -> Seq<char>
    decreases n,
{
    if n <= 0 {
        Seq::empty()
    } else {
        joined_text(items, n - 1) + items[n - 1]->Standard_0@
    }
}

/// UTF-8 encoding distributes over concatenation.
pub proof fn lemma_encode_utf8_concat(a: Seq<char>, b: Seq<char>)
    ensures
        encode_utf8(a + b) == encode_utf8(a) + encode_utf8(b),
    decreases a.len(),
{
    if a.len() == 0 {
        assert(a + b =~= b);
        assert(encode_utf8(a) =~= Seq::<u8>::empty());
        assert(encode_utf8(a + b) =~= encode_utf8(a) + encode_utf8(b));
    } else {
        lemma_encode_utf8_concat(a.drop_first(), b);
        assert((a + b).drop_first() =~= a.drop_first() + b);
        assert((a + b)[0] == a[0]);
        assert(encode_utf8(a + b) =~= encode_utf8(a) + encode_utf8(b));
    }
}

/// Encoding a batch of literal-text items only, in either cursor keys mode,
/// gives exactly the UTF-8 bytes of their texts, concatenated in order.
pub proof fn law_plain_text_passes_through(items: Seq<InputSeq>, app_cursor: bool)
    requires
        forall|i: int| 0 <= i < items.len() ==> #[trigger] items[i] is Standard,
    ensures
        encode_all(items, app_cursor) == Some(encode_utf8(joined_text(items, items.len() as int))),
{
    lemma_plain_prefix(items, items.len() as int, app_cursor);
}

proof fn lemma_plain_prefix(items: Seq<InputSeq>, n: int, app_cursor: bool)
    requires
        0 <= n <= items.len(),
        forall|i: int| 0 <= i < items.len() ==> #[trigger] items[i] is Standard,
    ensures
        encode_prefix(items, n, app_cursor) == Some(encode_utf8(joined_text(items, n))),
    decreases n,
{
    if n == 0 {
        assert(encode_utf8(Seq::<char>::empty()) =~= Seq::<u8>::empty());
    } else {
        lemma_plain_prefix(items, n - 1, app_cursor);
        assert(items[n - 1] is Standard);
        lemma_encode_utf8_concat(joined_text(items, n - 1), items[n - 1]->Standard_0@);
    }
}

/// For the cursor keys (arrows, Home, End): distinct modifier sets give
/// distinct bytes (so `C-S-Left`, `C-Left` and `Left` all differ); the
/// application cursor keys mode changes the unmodified form; and the
/// modified form is the same `CSI 1 ; m` sequence in either mode.
pub proof fn law_cursor_key_modifiers(k: Key, m1: Mods, m2: Mods, app_cursor: bool)
    requires
        cursor_final(k) is Some,
    ensures
        m1 != m2 ==> named_bytes(k, m1, app_cursor) != named_bytes(k, m2, app_cursor),
        named_bytes(k, no_mods(), true) != named_bytes(k, no_mods(), false),
        any_mod(m1) ==> named_bytes(k, m1, true) == named_bytes(k, m1, false),
        named_bytes(k, m1, app_cursor) is Some,
{
    let f = cursor_final(k)->0;
    if m1 != m2 {
        let b1 = named_bytes(k, m1, app_cursor)->0;
        let b2 = named_bytes(k, m2, app_cursor)->0;
        if any_mod(m1) && any_mod(m2) {
            assert(mod_param(m1) != mod_param(m2));
            assert(b1[4] != b2[4]);
        } else {
            assert(b1.len() != b2.len());
        }
    }
    assert(seq![ESC, 0x4fu8, f][1] != seq![ESC, 0x5bu8, f][1]);
}

} // verus!
