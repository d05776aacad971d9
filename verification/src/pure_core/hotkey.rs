//! Human-readable panic-hotkey strings ↔ [`KeyCode`]s.
//!
//! [`display`] renders a chord as `Ctrl+Alt+Shift+F12`; [`parse`] turns a config
//! string back into a validated [`PanicChord`]. This is the on-disk representation
//! of a chord: settings parse the stored string once at load and write the chord
//! back through [`display`].

use vstd::prelude::*;
use vstd::string::StrSliceExecFns;

use crate::pure_core::event::{KeyCode, KeyId, MouseButton};
use crate::pure_core::panic::{chord_check, chord_wf, is_canonical_of, ChordError, PanicChord};

verus! {

// ---------------------------------------------------------------------------
// Numerals
// ---------------------------------------------------------------------------

/// The ASCII digit for `d` in `0..=9`.
pub open spec fn decimal_char(d: int) -> char {
    if d == 0 { '0' }
    else if d == 1 { '1' }
    else if d == 2 { '2' }
    else if d == 3 { '3' }
    else if d == 4 { '4' }
    else if d == 5 { '5' }
    else if d == 6 { '6' }
    else if d == 7 { '7' }
    else if d == 8 { '8' }
    else { '9' }
}

/// The uppercase hexadecimal digit for `d` in `0..=15`.
pub open spec fn hex_char(d: int) -> char {
    if d < 10 { decimal_char(d) }
    else if d == 10 { 'A' }
    else if d == 11 { 'B' }
    else if d == 12 { 'C' }
    else if d == 13 { 'D' }
    else if d == 14 { 'E' }
    else { 'F' }
}

/// The decimal numeral of `n`, without leading zeros.
pub open spec fn decimal_digits(n: nat) -> Seq<char>
    decreases n,
{
    if n < 10 {
        seq![decimal_char(n as int)]
    } else {
        decimal_digits(n / 10) + seq![decimal_char((n % 10) as int)]
    }
}

/// The uppercase hexadecimal numeral of `n`, without leading zeros.
pub open spec fn hex_digits(n: nat) -> Seq<char>
    decreases n,
{
    if n < 16 {
        seq![hex_char(n as int)]
    } else {
        hex_digits(n / 16) + seq![hex_char((n % 16) as int)]
    }
}

/// The uppercase hexadecimal numeral of `n`, zero-padded to at least two digits.
pub open spec fn hex_digits_min2(n: nat) -> Seq<char> {
    if n < 16 {
        seq!['0', hex_char(n as int)]
    } else {
        hex_digits(n)
    }
}

fn decimal_char_of(d: u64) -> (c: char)
    requires
        d < 10,
    ensures
        c == decimal_char(d as int),
{
    if d == 0 { '0' }
    else if d == 1 { '1' }
    else if d == 2 { '2' }
    else if d == 3 { '3' }
    else if d == 4 { '4' }
    else if d == 5 { '5' }
    else if d == 6 { '6' }
    else if d == 7 { '7' }
    else if d == 8 { '8' }
    else { '9' }
}

fn hex_char_of(d: u32) -> (c: char)
    requires
        d < 16,
    ensures
        c == hex_char(d as int),
{
    if d < 10 { decimal_char_of(d as u64) }
    else if d == 10 { 'A' }
    else if d == 11 { 'B' }
    else if d == 12 { 'C' }
    else if d == 13 { 'D' }
    else if d == 14 { 'E' }
    else { 'F' }
}

/// Append the decimal numeral of `n`.
pub(crate) fn push_decimal(out: &mut Vec<char>, n: u64)
    ensures
        final(out)@ == old(out)@ + decimal_digits(n as nat),
    decreases n,
{
    if n < 10 {
        out.push(decimal_char_of(n));
        assert(decimal_digits(n as nat) == seq![decimal_char(n as int)]);
    } else {
        push_decimal(out, n / 10);
        out.push(decimal_char_of(n % 10));
        assert(decimal_digits(n as nat) == decimal_digits((n / 10) as nat) + seq![decimal_char((n % 10) as int)]);
        assert(final(out)@ =~= old(out)@ + decimal_digits(n as nat)) by {
            assert(old(out)@ + decimal_digits((n / 10) as nat) + seq![decimal_char((n % 10) as int)]
                =~= old(out)@ + (decimal_digits((n / 10) as nat) + seq![decimal_char((n % 10) as int)]));
        }
    }
}

/// Append the uppercase hexadecimal numeral of `n`.
fn push_hex(out: &mut Vec<char>, n: u32)
    ensures
        final(out)@ == old(out)@ + hex_digits(n as nat),
    decreases n,
{
    if n < 16 {
        out.push(hex_char_of(n));
    } else {
        push_hex(out, n / 16);
        out.push(hex_char_of(n % 16));
        assert(final(out)@ =~= old(out)@ + hex_digits(n as nat)) by {
            assert(old(out)@ + hex_digits((n / 16) as nat) + seq![hex_char((n % 16) as int)]
                =~= old(out)@ + (hex_digits((n / 16) as nat) + seq![hex_char((n % 16) as int)]));
        }
    }
}

// ---------------------------------------------------------------------------
// Key names and display order
// ---------------------------------------------------------------------------

/// The display name of a mouse button (its variant name).
pub open spec fn mouse_button_name(b: MouseButton) -> Seq<char> {
    match b {
        MouseButton::Left => seq!['L', 'e', 'f', 't'],
        MouseButton::Right => seq!['R', 'i', 'g', 'h', 't'],
        MouseButton::Middle => seq!['M', 'i', 'd', 'd', 'l', 'e'],
        MouseButton::X1 => seq!['X', '1'],
        MouseButton::X2 => seq!['X', '2'],
    }
}

/// The display name for one key: `Shift`, `Ctrl`, `Alt`, `Win`, `F<n>`, the letter
/// itself, the digit's numeral, the mouse button's name, or `0x` and at least two
/// uppercase hex digits for any other key.
pub open spec fn key_name_spec(key: KeyCode) -> Seq<char> {
    match key {
        KeyCode::Shift => seq!['S', 'h', 'i', 'f', 't'],
        KeyCode::Control => seq!['C', 't', 'r', 'l'],
        KeyCode::Alt => seq!['A', 'l', 't'],
        KeyCode::Meta => seq!['W', 'i', 'n'],
        KeyCode::Function(n) => seq!['F'] + decimal_digits(n as nat),
        KeyCode::Letter(c) => seq![c],
        KeyCode::Digit(d) => decimal_digits(d as nat),
        KeyCode::Mouse(b) => mouse_button_name(b),
        KeyCode::Other(code) => seq!['0', 'x'] + hex_digits_min2(code as nat),
    }
}

/// Display rank: Ctrl, Alt, Shift, Win first (in that order), then every other key.
pub open spec fn spec_modifier_rank(key: KeyCode) -> u8 {
    match key {
        KeyCode::Control => 0,
        KeyCode::Alt => 1,
        KeyCode::Shift => 2,
        KeyCode::Meta => 3,
        _ => 4,
    }
}

/// The display order of keys: by modifier rank, then by key order.
pub open spec fn display_order(key: KeyCode) -> int {
    spec_modifier_rank(key) * 0x10_0000_0000 + key.spec_index()
}

/// Insert `k` before the first element that comes strictly after it in display
/// order (after any equal ones).
pub open spec fn display_insert(s: Seq<KeyCode>, k: KeyCode) -> Seq<KeyCode>
    decreases s.len(),
{
    if s.len() == 0 {
        seq![k]
    } else if display_order(k) < display_order(s[0]) {
        seq![k] + s
    } else {
        seq![s[0]] + display_insert(s.drop_first(), k)
    }
}

/// The keys sorted into display order (a stable insertion sort).
pub open spec fn display_sort(s: Seq<KeyCode>) -> Seq<KeyCode>
    decreases s.len(),
{
    if s.len() == 0 {
        Seq::empty()
    } else {
        display_insert(display_sort(s.drop_last()), s.last())
    }
}

/// Join names with `+` between them.
pub open spec fn join_plus(names: Seq<Seq<char>>) -> Seq<char>
    decreases names.len(),
{
    if names.len() == 0 {
        Seq::empty()
    } else if names.len() == 1 {
        names[0]
    } else {
        join_plus(names.drop_last()) + seq!['+'] + names.last()
    }
}

/// The rendering of a key list: display-sorted names joined with `+`.
pub open spec fn display_spec(keys: Seq<KeyCode>) -> Seq<char> {
    join_plus(display_sort(keys).map_values(|k: KeyCode| key_name_spec(k)))
}

/// Sort key: modifiers (Ctrl, Alt, Shift, Win) come before ordinary keys.
fn modifier_rank(key: KeyId) -> (r: u8)
    ensures
        r == spec_modifier_rank(key),
{
    match key {
        KeyCode::Control => 0,
        KeyCode::Alt => 1,
        KeyCode::Shift => 2,
        KeyCode::Meta => 3,
        _ => 4,
    }
}

fn display_order_of(key: KeyId) -> (r: u64)
    ensures
        r == display_order(key),
{
    proof {
        crate::pure_core::event::lemma_index_bounds(key);
    }
    (modifier_rank(key) as u64) * 0x10_0000_0000 + key.index()
}

/// Append the display name of `key`.
fn push_key_name(out: &mut Vec<char>, key: KeyId)
    ensures
        final(out)@ == old(out)@ + key_name_spec(key),
{
    let ghost start = out@;
    match key {
        KeyCode::Shift => {
            out.push('S');
            out.push('h');
            out.push('i');
            out.push('f');
            out.push('t');
        },
        KeyCode::Control => {
            out.push('C');
            out.push('t');
            out.push('r');
            out.push('l');
        },
        KeyCode::Alt => {
            out.push('A');
            out.push('l');
            out.push('t');
        },
        KeyCode::Meta => {
            out.push('W');
            out.push('i');
            out.push('n');
        },
        KeyCode::Function(n) => {
            out.push('F');
            push_decimal(out, n as u64);
        },
        KeyCode::Letter(c) => {
            out.push(c);
        },
        KeyCode::Digit(d) => {
            push_decimal(out, d as u64);
        },
        KeyCode::Mouse(b) => match b {
            MouseButton::Left => {
                out.push('L');
                out.push('e');
                out.push('f');
                out.push('t');
            },
            MouseButton::Right => {
                out.push('R');
                out.push('i');
                out.push('g');
                out.push('h');
                out.push('t');
            },
            MouseButton::Middle => {
                out.push('M');
                out.push('i');
                out.push('d');
                out.push('d');
                out.push('l');
                out.push('e');
            },
            MouseButton::X1 => {
                out.push('X');
                out.push('1');
            },
            MouseButton::X2 => {
                out.push('X');
                out.push('2');
            },
        },
        KeyCode::Other(code) => {
            out.push('0');
            out.push('x');
            if code < 16 {
                out.push('0');
                out.push(hex_char_of(code));
            } else {
                push_hex(out, code);
            }
        },
    }
    assert(out@ =~= start + key_name_spec(key));
}

/// The display name for one key (see [`key_name_spec`]).
fn key_name(key: KeyId) -> (r: Vec<char>)
    ensures
        r@ == key_name_spec(key),
{
    let mut out: Vec<char> = Vec::new();
    push_key_name(&mut out, key);
    assert(out@ =~= key_name_spec(key));
    out
}

/// Inserting before the first strictly-later element is [`display_insert`].
proof fn lemma_display_insert_at(s: Seq<KeyCode>, k: KeyCode, i: int)
    requires
        0 <= i <= s.len(),
        forall|j: int| 0 <= j < i ==> display_order(s[j]) <= display_order(k),
        i < s.len() ==> display_order(k) < display_order(s[i]),
    ensures
        display_insert(s, k) == s.insert(i, k),
    decreases i,
{
    if s.len() == 0 {
        assert(s.insert(i, k) =~= seq![k]);
    } else if i == 0 {
        assert(s.insert(0, k) =~= seq![k] + s);
    } else {
        let t = s.drop_first();
        assert forall|j: int| 0 <= j < i - 1 implies display_order(t[j]) <= display_order(k) by {
            assert(t[j] == s[j + 1]);
        }
        if i - 1 < t.len() {
            assert(t[i - 1] == s[i]);
        }
        lemma_display_insert_at(t, k, i - 1);
        assert(s.insert(i, k) =~= seq![s[0]] + t.insert(i - 1, k));
    }
}

/// Sort keys into display order (see [`display_sort`]).
fn sort_for_display(keys: &[KeyId]) -> (r: Vec<KeyId>)
    ensures
        r@ == display_sort(keys@),
{
    let mut sorted: Vec<KeyId> = Vec::new();
    let n = keys.len();
    for i in 0..n
        invariant
            n == keys@.len(),
            sorted@ == display_sort(keys@.subrange(0, i as int)),
    {
        let k = keys[i];
        let ko = display_order_of(k);
        let m = sorted.len();
        let mut j: usize = 0;
        while j < m && display_order_of(sorted[j]) <= ko
            invariant
                m == sorted@.len(),
                j <= m,
                ko == display_order(k),
                forall|x: int| 0 <= x < j ==> display_order(sorted@[x]) <= display_order(k),
            decreases m - j,
        {
            j = j + 1;
        }
        proof {
            lemma_display_insert_at(sorted@, k, j as int);
            let pre = keys@.subrange(0, i as int);
            let post = keys@.subrange(0, i + 1);
            assert(post.drop_last() =~= pre);
            assert(post.last() == k);
        }
        sorted.insert(j, k);
    }
    assert(keys@.subrange(0, n as int) =~= keys@);
    sorted
}

/// Render keys as a stable `Mod+Mod+Key` label, modifiers first (Ctrl, Alt, Shift,
/// Win), then the remaining keys in key order.
pub fn display(keys: &[KeyId]) -> (r: String)
    ensures
        r@ == display_spec(keys@),
{
    let sorted = sort_for_display(keys);
    let ghost names = sorted@.map_values(|k: KeyCode| key_name_spec(k));
    let mut out: Vec<char> = Vec::new();
    let n = sorted.len();
    for i in 0..n
        invariant
            n == sorted@.len(),
            names == sorted@.map_values(|k: KeyCode| key_name_spec(k)),
            out@ == join_plus(names.subrange(0, i as int)),
    {
        let ghost before = out@;
        if i > 0 {
            out.push('+');
        }
        push_key_name(&mut out, sorted[i]);
        proof {
            let pre = names.subrange(0, i as int);
            let post = names.subrange(0, i + 1);
            assert(post.drop_last() =~= pre);
            assert(post.last() == key_name_spec(sorted@[i as int]));
            if i == 0 {
                assert(post.len() == 1);
                assert(out@ =~= post[0]);
            } else {
                assert(out@ =~= join_plus(pre) + seq!['+'] + post.last());
            }
        }
    }
    assert(names.subrange(0, n as int) =~= names);
    chars_to_string(&out)
}

/// Collect characters into a `String`.
#[verifier::external_body]
pub(crate) fn chars_to_string(chars: &Vec<char>) -> (s: String)
    ensures
        s@ == chars@,
{
    chars.iter().collect()
}


// ---------------------------------------------------------------------------
// Parsing
// ---------------------------------------------------------------------------

/// Why a hotkey string could not be parsed.
#[derive(Debug, Clone, PartialEq, Eq)]
pub enum HotkeyError {
    /// No tokens at all.
    Empty,
    /// A token that isn't a known modifier/letter/digit/function key.
    UnknownToken(String),
    /// Tokens parsed, but the combination isn't a valid chord (e.g. no modifier).
    Invalid(ChordError),
}

/// Unicode `White_Space`, the characters `str::trim` removes.
pub open spec fn is_whitespace_spec(c: char) -> bool {
    ||| c == '\t' || c == '\n' || c == '\u{0B}' || c == '\u{0C}' || c == '\r' || c == ' '
    ||| c == '\u{85}' || c == '\u{A0}' || c == '\u{1680}'
    ||| ('\u{2000}' <= c && c <= '\u{200A}')
    ||| c == '\u{2028}' || c == '\u{2029}' || c == '\u{202F}' || c == '\u{205F}' || c == '\u{3000}'
}

/// Drop leading whitespace.
pub open spec fn trim_start(t: Seq<char>) -> Seq<char>
    decreases t.len(),
{
    if t.len() > 0 && is_whitespace_spec(t[0]) {
        trim_start(t.drop_first())
    } else {
        t
    }
}

/// Drop trailing whitespace.
pub open spec fn trim_end(t: Seq<char>) -> Seq<char>
    decreases t.len(),
{
    if t.len() > 0 && is_whitespace_spec(t.last()) {
        trim_end(t.drop_last())
    } else {
        t
    }
}

/// Drop leading and trailing whitespace.
pub open spec fn trim(t: Seq<char>) -> Seq<char> {
    trim_end(trim_start(t))
}

/// The pieces of `s` between `+` signs (always at least one, possibly empty).
pub open spec fn split_plus(s: Seq<char>) -> Seq<Seq<char>>
    decreases s.len(),
{
    if s.len() == 0 {
        seq![Seq::empty()]
    } else {
        let r = split_plus(s.drop_last());
        if s.last() == '+' {
            r.push(Seq::empty())
        } else {
            r.update(r.len() - 1, r.last().push(s.last()))
        }
    }
}

/// ASCII lowercase of one character; other characters are unchanged.
pub open spec fn lower_char(c: char) -> char {
    if 'A' <= c && c <= 'Z' {
        ((c as u32) + 32) as char
    } else {
        c
    }
}

/// ASCII lowercase of a string.
pub open spec fn ascii_lower(t: Seq<char>) -> Seq<char> {
    t.map_values(|c: char| lower_char(c))
}

pub open spec fn is_ascii_digit(c: char) -> bool {
    '0' <= c && c <= '9'
}

/// The value of a string of ASCII digits.
pub open spec fn digits_value(t: Seq<char>) -> int
    decreases t.len(),
{
    if t.len() == 0 {
        0
    } else {
        digits_value(t.drop_last()) * 10 + ((t.last() as int) - ('0' as int))
    }
}

/// What `u8::from_str` accepts: an optional `+` followed by at least one ASCII
/// digit, with a value of at most 255.
pub open spec fn parse_u8_spec(t: Seq<char>) -> Option<u8> {
    let d = if t.len() > 1 && t[0] == '+' {
        t.drop_first()
    } else {
        t
    };
    parse_digits_u8(d)
}

/// At least one ASCII digit, nothing else, with a value of at most 255.
pub open spec fn parse_digits_u8(d: Seq<char>) -> Option<u8> {
    if d.len() > 0 && (forall|i: int| 0 <= i < d.len() ==> is_ascii_digit(#[trigger] d[i]))
        && digits_value(d) <= 255 {
        Some(digits_value(d) as u8)
    } else {
        None
    }
}

/// The key a (trimmed) token names, case-insensitively: `ctrl`/`control`, `alt`,
/// `shift`, `win`/`super`/`meta`/`cmd`, `F1`..`F12`, a letter or a digit.
pub open spec fn token_key_spec(token: Seq<char>) -> Option<KeyCode> {
    let l = ascii_lower(token);
    if l == seq!['c', 't', 'r', 'l'] || l == seq!['c', 'o', 'n', 't', 'r', 'o', 'l'] {
        Some(KeyCode::Control)
    } else if l == seq!['a', 'l', 't'] {
        Some(KeyCode::Alt)
    } else if l == seq!['s', 'h', 'i', 'f', 't'] {
        Some(KeyCode::Shift)
    } else if l == seq!['w', 'i', 'n'] || l == seq!['s', 'u', 'p', 'e', 'r'] || l == seq![
        'm',
        'e',
        't',
        'a',
    ] || l == seq!['c', 'm', 'd'] {
        Some(KeyCode::Meta)
    } else if l.len() >= 2 && l[0] == 'f' {
        match parse_u8_spec(l.drop_first()) {
            Some(n) => if 1 <= n && n <= 12 {
                Some(KeyCode::Function(n))
            } else {
                None
            },
            None => None,
        }
    } else if l.len() == 1 {
        let c = l[0];
        if 'a' <= c && c <= 'z' {
            Some(KeyCode::Letter(((c as u32) - 32) as char))
        } else if is_ascii_digit(c) {
            Some(KeyCode::Digit(((c as u32) - ('0' as u32)) as u8))
        } else {
            None
        }
    } else {
        None
    }
}

/// The keys named by the tokens, in order, skipping tokens that are blank after
/// trimming; or the first trimmed token that names no key.
pub open spec fn keys_of_tokens(tokens: Seq<Seq<char>>) -> Result<Seq<KeyCode>, Seq<char>>
    decreases tokens.len(),
{
    if tokens.len() == 0 {
        Ok(Seq::empty())
    } else {
        match keys_of_tokens(tokens.drop_last()) {
            Err(t) => Err(t),
            Ok(ks) => {
                let t = trim(tokens.last());
                if t.len() == 0 {
                    Ok(ks)
                } else {
                    match token_key_spec(t) {
                        Some(k) => Ok(ks.push(k)),
                        None => Err(t),
                    }
                }
            },
        }
    }
}

/// What parsing a hotkey string yields.
pub enum ParseOutcome {
    /// The keys named, in the order written; the chord holds each once.
    Chord(Seq<KeyCode>),
    Empty,
    UnknownToken(Seq<char>),
    Invalid(ChordError),
}

/// Parse a hotkey string: split on `+`, trim each token, skip blank ones, map each
/// to its key (the first unknown token is the error), then require at least one
/// key and a valid chord.
pub open spec fn parse_spec(s: Seq<char>) -> ParseOutcome {
    match keys_of_tokens(split_plus(s)) {
        Err(t) => ParseOutcome::UnknownToken(t),
        Ok(ks) => if ks.len() == 0 {
            ParseOutcome::Empty
        } else {
            match chord_check(ks) {
                Err(e) => ParseOutcome::Invalid(e),
                Ok(_) => ParseOutcome::Chord(ks),
            }
        },
    }
}

/// [`is_whitespace_spec`], computed.
fn is_whitespace(c: char) -> (r: bool)
    ensures
        r == is_whitespace_spec(c),
{
    c == '\t' || c == '\n' || c == '\u{0B}' || c == '\u{0C}' || c == '\r' || c == ' '
        || c == '\u{85}' || c == '\u{A0}' || c == '\u{1680}' || ('\u{2000}' <= c && c
        <= '\u{200A}') || c == '\u{2028}' || c == '\u{2029}' || c == '\u{202F}' || c
        == '\u{205F}' || c == '\u{3000}'
}

proof fn lemma_trim_start_at(t: Seq<char>, a: int)
    requires
        0 <= a <= t.len(),
        forall|j: int| 0 <= j < a ==> is_whitespace_spec(#[trigger] t[j]),
        a < t.len() ==> !is_whitespace_spec(t[a]),
    ensures
        trim_start(t) == t.subrange(a, t.len() as int),
    decreases a,
{
    if a == 0 {
        assert(t.subrange(0, t.len() as int) =~= t);
    } else {
        let u = t.drop_first();
        assert forall|j: int| 0 <= j < a - 1 implies is_whitespace_spec(#[trigger] u[j]) by {
            assert(u[j] == t[j + 1]);
        }
        if a - 1 < u.len() {
            assert(u[a - 1] == t[a]);
        }
        lemma_trim_start_at(u, a - 1);
        assert(u.subrange(a - 1, u.len() as int) =~= t.subrange(a, t.len() as int));
    }
}

proof fn lemma_trim_end_at(t: Seq<char>, b: int)
    requires
        0 <= b <= t.len(),
        forall|j: int| b <= j < t.len() ==> is_whitespace_spec(#[trigger] t[j]),
        b > 0 ==> !is_whitespace_spec(t[b - 1]),
    ensures
        trim_end(t) == t.subrange(0, b),
    decreases t.len() - b,
{
    if b == t.len() {
        assert(t.subrange(0, b) =~= t);
    } else {
        let u = t.drop_last();
        assert forall|j: int| b <= j < u.len() implies is_whitespace_spec(#[trigger] u[j]) by {
            assert(u[j] == t[j]);
        }
        if b > 0 {
            assert(u[b - 1] == t[b - 1]);
        }
        lemma_trim_end_at(u, b);
        assert(u.subrange(0, b) =~= t.subrange(0, b));
    }
}

/// [`trim`], computed.
fn trim_chars(t: &Vec<char>) -> (r: Vec<char>)
    ensures
        r@ == trim(t@),
{
    let n = t.len();
    let mut a: usize = 0;
    while a < n && is_whitespace(t[a])
        invariant
            n == t@.len(),
            a <= n,
            forall|j: int| 0 <= j < a ==> is_whitespace_spec(#[trigger] t@[j]),
        decreases n - a,
    {
        a = a + 1;
    }
    let mut b: usize = n;
    while b > a && is_whitespace(t[b - 1])
        invariant
            n == t@.len(),
            a <= b <= n,
            forall|j: int| b <= j < n ==> is_whitespace_spec(#[trigger] t@[j]),
        decreases b,
    {
        b = b - 1;
    }
    let mut out: Vec<char> = Vec::new();
    let mut i = a;
    while i < b
        invariant
            n == t@.len(),
            a <= i <= b <= n,
            out@ == t@.subrange(a as int, i as int),
        decreases b - i,
    {
        out.push(t[i]);
        i = i + 1;
        assert(out@ =~= t@.subrange(a as int, i as int));
    }
    proof {
        lemma_trim_start_at(t@, a as int);
        let u = t@.subrange(a as int, n as int);
        assert forall|j: int| b - a <= j < u.len() implies is_whitespace_spec(#[trigger] u[j]) by {
            assert(u[j] == t@[j + a]);
        }
        if b > a {
            assert(u[b - a - 1] == t@[b - 1]);
        } else {
            assert(a == n || !is_whitespace_spec(t@[a as int]) || b == a);
        }
        if b == a && a < n {
            assert(!is_whitespace_spec(t@[a as int]) || b < n);
        }
        lemma_trim_end_at(u, b - a);
        assert(u.subrange(0, b - a) =~= t@.subrange(a as int, b as int));
    }
    out
}

/// [`lower_char`], computed.
fn to_lower(c: char) -> (r: char)
    ensures
        r == lower_char(c),
{
    if 'A' <= c && c <= 'Z' {
        ((c as u8) + 32) as char
    } else {
        c
    }
}

/// Whether `v` spells exactly `w`.
fn same_chars(v: &Vec<char>, w: &Vec<char>) -> (r: bool)
    ensures
        r == (v@ == w@),
{
    let n = v.len();
    if n != w.len() {
        return false;
    }
    for i in 0..n
        invariant
            n == v@.len(),
            n == w@.len(),
            forall|j: int| 0 <= j < i ==> v@[j] == w@[j],
    {
        if v[i] != w[i] {
            return false;
        }
    }
    assert(v@ =~= w@);
    true
}

proof fn lemma_digits_value_grows(t: Seq<char>, m: int)
    requires
        0 <= m <= t.len(),
        forall|i: int| 0 <= i < t.len() ==> is_ascii_digit(#[trigger] t[i]),
    ensures
        digits_value(t) >= digits_value(t.subrange(0, m)),
        digits_value(t.subrange(0, m)) >= 0,
    decreases t.len(),
{
    if t.len() == 0 {
        assert(t.subrange(0, m) =~= t);
    } else if m == t.len() {
        assert(t.subrange(0, m) =~= t);
        lemma_digits_value_grows(t.drop_last(), 0);
        assert(t.drop_last().subrange(0, 0) =~= t.subrange(0, 0));
    } else {
        let u = t.drop_last();
        assert forall|i: int| 0 <= i < u.len() implies is_ascii_digit(#[trigger] u[i]) by {
            assert(u[i] == t[i]);
        }
        lemma_digits_value_grows(u, m);
        assert(u.subrange(0, m) =~= t.subrange(0, m));
        lemma_digits_value_grows(u, u.len() as int);
        assert(u.subrange(0, u.len() as int) =~= u);
    }
}

/// [`parse_u8_spec`] of `t[from..]`, computed.
fn parse_u8_from(t: &Vec<char>, from: usize) -> (r: Option<u8>)
    requires
        from <= t@.len(),
    ensures
        r == parse_u8_spec(t@.subrange(from as int, t@.len() as int)),
{
    let n = t.len();
    let ghost whole = t@.subrange(from as int, n as int);
    let mut start = from;
    if n - from > 1 && t[from] == '+' {
        start = from + 1;
    }
    let ghost d = t@.subrange(start as int, n as int);
    proof {
        if n - from > 1 && t@[from as int] == '+' {
            assert(whole.drop_first() =~= d);
        } else {
            assert(whole =~= d);
        }
    }
    if start == n {
        return None;
    }
    let mut acc: u32 = 0;
    let mut i = start;
    while i < n
        invariant
            n == t@.len(),
            start <= i <= n,
            start < n,
            d == t@.subrange(start as int, n as int),
            parse_u8_spec(t@.subrange(from as int, n as int)) == parse_digits_u8(d),
            forall|j: int| start <= j < i ==> is_ascii_digit(#[trigger] t@[j]),
            acc == digits_value(t@.subrange(start as int, i as int)),
            acc <= 255,
        decreases n - i,
    {
        let c = t[i];
        if !('0' <= c && c <= '9') {
            proof {
                assert(d[i - start] == c);
            }
            return None;
        }
        let ghost pre = t@.subrange(start as int, i as int);
        acc = acc * 10 + ((c as u32) - ('0' as u32));
        i = i + 1;
        proof {
            let post = t@.subrange(start as int, i as int);
            assert(post.drop_last() =~= pre);
            assert(post.last() == c);
        }
        if acc > 255 {
            proof {
                let post = t@.subrange(start as int, i as int);
                if forall|j: int| 0 <= j < d.len() ==> is_ascii_digit(#[trigger] d[j]) {
                    lemma_digits_value_grows(d, i - start);
                    assert(d.subrange(0, i - start) =~= post);
                }
            }
            return None;
        }
    }
    proof {
        assert(t@.subrange(start as int, n as int) =~= d);
        assert forall|j: int| 0 <= j < d.len() implies is_ascii_digit(#[trigger] d[j]) by {
            assert(d[j] == t@[j + start]);
        }
    }
    Some(acc as u8)
}

/// Map one trimmed token (case-insensitive) to a key (see [`token_key_spec`]).
fn token_to_keycode(token: &Vec<char>) -> (r: Option<KeyId>)
    ensures
        r == token_key_spec(token@),
{
    let mut l: Vec<char> = Vec::new();
    let n = token.len();
    for i in 0..n
        invariant
            n == token@.len(),
            l@ == ascii_lower(token@.subrange(0, i as int)),
    {
        l.push(to_lower(token[i]));
        assert(l@ =~= ascii_lower(token@.subrange(0, i + 1)));
    }
    assert(token@.subrange(0, n as int) =~= token@);
    assert(l@ == ascii_lower(token@));
    if same_chars(&l, &vec!['c', 't', 'r', 'l']) || same_chars(
        &l,
        &vec!['c', 'o', 'n', 't', 'r', 'o', 'l'],
    ) {
        return Some(KeyCode::Control);
    }
    if same_chars(&l, &vec!['a', 'l', 't']) {
        return Some(KeyCode::Alt);
    }
    if same_chars(&l, &vec!['s', 'h', 'i', 'f', 't']) {
        return Some(KeyCode::Shift);
    }
    if same_chars(&l, &vec!['w', 'i', 'n']) || same_chars(&l, &vec!['s', 'u', 'p', 'e', 'r'])
        || same_chars(&l, &vec!['m', 'e', 't', 'a']) || same_chars(&l, &vec!['c', 'm', 'd']) {
        return Some(KeyCode::Meta);
    }
    if l.len() >= 2 && l[0] == 'f' {
        let parsed = parse_u8_from(&l, 1);
        assert(l@.subrange(1, l@.len() as int) =~= l@.drop_first());
        return match parsed {
            Some(n) => if 1 <= n && n <= 12 {
                Some(KeyCode::Function(n))
            } else {
                None
            },
            None => None,
        };
    }
    if l.len() == 1 {
        let c = l[0];
        if 'a' <= c && c <= 'z' {
            return Some(KeyCode::Letter(((c as u8) - 32) as char));
        } else if '0' <= c && c <= '9' {
            return Some(KeyCode::Digit((c as u8) - ('0' as u8)));
        } else {
            return None;
        }
    }
    None
}

proof fn lemma_keys_error_sticks(tokens: Seq<Seq<char>>, m: int, t: Seq<char>)
    requires
        0 <= m <= tokens.len(),
        keys_of_tokens(tokens.subrange(0, m)) == Err::<Seq<KeyCode>, Seq<char>>(t),
    ensures
        keys_of_tokens(tokens) == Err::<Seq<KeyCode>, Seq<char>>(t),
    decreases tokens.len() - m,
{
    if m == tokens.len() {
        assert(tokens.subrange(0, m) =~= tokens);
    } else {
        let next = tokens.subrange(0, m + 1);
        assert(next.drop_last() =~= tokens.subrange(0, m));
        lemma_keys_error_sticks(tokens, m + 1, t);
    }
}

/// Parse a hotkey string (e.g. `"Ctrl+Alt+Shift+F12"`) into a validated chord.
/// Case-insensitive; surrounding whitespace per token is ignored.
pub fn parse(s: &str) -> (r: Result<PanicChord, HotkeyError>)
    ensures
        match r {
            Ok(c) => parse_spec(s@) matches ParseOutcome::Chord(ks) && is_canonical_of(c@, ks),
            Err(HotkeyError::Empty) => parse_spec(s@) is Empty,
            Err(HotkeyError::UnknownToken(t)) => parse_spec(s@) == ParseOutcome::UnknownToken(t@),
            Err(HotkeyError::Invalid(e)) => parse_spec(s@) == ParseOutcome::Invalid(e),
        },
{
    let n = s.unicode_len();
    let mut tokens: Vec<Vec<char>> = Vec::new();
    let ghost mut toks: Seq<Seq<char>> = Seq::empty();
    let mut cur: Vec<char> = Vec::new();
    for i in 0..n
        invariant
            n == s@.len(),
            toks.len() == tokens@.len(),
            forall|j: int| 0 <= j < toks.len() ==> (#[trigger] tokens@[j])@ == toks[j],
            toks.push(cur@) == split_plus(s@.subrange(0, i as int)),
    {
        let c = s.get_char(i);
        let ghost pre = s@.subrange(0, i as int);
        proof {
            let post = s@.subrange(0, i + 1);
            assert(post.drop_last() =~= pre);
            assert(post.last() == c);
        }
        if c == '+' {
            let ghost done_view = cur@;
            let done = cur;
            tokens.push(done);
            cur = Vec::new();
            proof {
                toks = toks.push(done_view);
                assert(toks.push(cur@) =~= split_plus(s@.subrange(0, i + 1)));
            }
        } else {
            let ghost old_cur = cur@;
            cur.push(c);
            proof {
                let r = split_plus(pre);
                assert(r == toks.push(old_cur));
                assert(r.last() == old_cur);
                assert(toks.push(cur@) =~= r.update(r.len() - 1, r.last().push(c)));
            }
        }
    }
    proof {
        toks = toks.push(cur@);
    }
    tokens.push(cur);
    assert(s@.subrange(0, n as int) =~= s@);
    assert(toks == split_plus(s@));
    let mut keys: Vec<KeyId> = Vec::new();
    let m = tokens.len();
    for j in 0..m
        invariant
            m == tokens@.len(),
            toks.len() == tokens@.len(),
            forall|x: int| 0 <= x < toks.len() ==> (#[trigger] tokens@[x])@ == toks[x],
            toks == split_plus(s@),
            keys_of_tokens(toks.subrange(0, j as int)) == Ok::<Seq<KeyCode>, Seq<char>>(keys@),
    {
        let t = trim_chars(&tokens[j]);
        proof {
            let post = toks.subrange(0, j + 1);
            assert(post.drop_last() =~= toks.subrange(0, j as int));
            assert(post.last() == tokens@[j as int]@);
        }
        if t.len() > 0 {
            match token_to_keycode(&t) {
                Some(k) => {
                    keys.push(k);
                },
                None => {
                    proof {
                        lemma_keys_error_sticks(toks, j + 1, t@);
                    }
                    return Err(HotkeyError::UnknownToken(chars_to_string(&t)));
                },
            }
        }
    }
    assert(toks.subrange(0, m as int) =~= toks);
    if keys.len() == 0 {
        return Err(HotkeyError::Empty);
    }
    match PanicChord::new(keys.as_slice()) {
        Ok(c) => Ok(c),
        Err(e) => Err(HotkeyError::Invalid(e)),
    }
}

} // verus!
