//! The hotkey text format round-trips: displaying a chord whose keys all have
//! parseable names, then parsing that text, gives back the same chord.

use vstd::prelude::*;

use crate::pure_core::event::KeyCode;
use crate::pure_core::hotkey::{
    ascii_lower, decimal_char, decimal_digits, digits_value, display_insert, display_order,
    display_sort, display_spec, is_ascii_digit, is_whitespace_spec, join_plus, key_name_spec,
    keys_of_tokens, lower_char, parse_digits_u8, parse_spec, parse_u8_spec, split_plus,
    token_key_spec, trim, ParseOutcome,
};
use crate::pure_core::panic::{chord_check, chord_wf, has_modifier, has_non_modifier, is_canonical_of, lemma_canonical_unique};

verus! {

/// Keys whose display name parses back to the same key: the four modifiers,
/// `F1`..`F12`, the letters `A`..`Z` and the digits `0`..`9`.
pub open spec fn nameable(k: KeyCode) -> bool {
    match k {
        KeyCode::Shift | KeyCode::Control | KeyCode::Alt | KeyCode::Meta => true,
        KeyCode::Function(n) => 1 <= n && n <= 12,
        KeyCode::Letter(c) => 'A' <= c && c <= 'Z',
        KeyCode::Digit(d) => d <= 9,
        _ => false,
    }
}

proof fn lemma_display_insert_contents(s: Seq<KeyCode>, k: KeyCode)
    ensures
        display_insert(s, k).len() == s.len() + 1,
        forall|x: KeyCode| #[trigger] display_insert(s, k).contains(x) <==> (s.contains(x) || x == k),
    decreases s.len(),
{
    if s.len() == 0 {
        assert(display_insert(s, k) =~= seq![k]);
        assert(display_insert(s, k)[0] == k);
    } else if display_order(k) < display_order(s[0]) {
        let r = seq![k] + s;
        assert forall|x: KeyCode| #[trigger] r.contains(x) <==> (s.contains(x) || x == k) by {
            if r.contains(x) {
                let i = choose|i: int| 0 <= i < r.len() && r[i] == x;
                if i > 0 {
                    assert(s[i - 1] == x);
                }
            }
            if s.contains(x) {
                let i = choose|i: int| 0 <= i < s.len() && s[i] == x;
                assert(r[i + 1] == x);
            }
            assert(r[0] == k);
        }
    } else {
        let t = s.drop_first();
        lemma_display_insert_contents(t, k);
        let r = seq![s[0]] + display_insert(t, k);
        assert forall|x: KeyCode| #[trigger] r.contains(x) <==> (s.contains(x) || x == k) by {
            if r.contains(x) {
                let i = choose|i: int| 0 <= i < r.len() && r[i] == x;
                if i > 0 {
                    assert(display_insert(t, k)[i - 1] == x);
                    assert(display_insert(t, k).contains(x));
                    if t.contains(x) {
                        let j = choose|j: int| 0 <= j < t.len() && t[j] == x;
                        assert(s[j + 1] == x);
                    }
                } else {
                    assert(s[0] == x);
                }
            }
            if s.contains(x) {
                let i = choose|i: int| 0 <= i < s.len() && s[i] == x;
                if i == 0 {
                    assert(r[0] == x);
                } else {
                    assert(t[i - 1] == x);
                    assert(t.contains(x));
                    assert(display_insert(t, k).contains(x));
                    let j = choose|j: int| 0 <= j < display_insert(t, k).len() && display_insert(t, k)[j] == x;
                    assert(r[j + 1] == x);
                }
            }
            if x == k {
                assert(display_insert(t, k).contains(k));
                let j = choose|j: int| 0 <= j < display_insert(t, k).len() && display_insert(t, k)[j] == k;
                assert(r[j + 1] == k);
            }
        }
    }
}

/// Display sorting keeps exactly the same keys, and as many.
pub proof fn lemma_display_sort_contents(s: Seq<KeyCode>)
    ensures
        display_sort(s).len() == s.len(),
        forall|x: KeyCode| #[trigger] display_sort(s).contains(x) <==> s.contains(x),
    decreases s.len(),
{
    if s.len() > 0 {
        let t = s.drop_last();
        lemma_display_sort_contents(t);
        lemma_display_insert_contents(display_sort(t), s.last());
        assert forall|x: KeyCode| #[trigger] display_sort(s).contains(x) <==> s.contains(x) by {
            if t.contains(x) {
                let i = choose|i: int| 0 <= i < t.len() && t[i] == x;
                assert(s[i] == x);
            }
            if s.contains(x) {
                let i = choose|i: int| 0 <= i < s.len() && s[i] == x;
                if i < s.len() - 1 {
                    assert(t[i] == x);
                }
            }
        }
    }
}

proof fn lemma_split_no_plus(y: Seq<char>)
    requires
        forall|i: int| 0 <= i < y.len() ==> y[i] != '+',
    ensures
        split_plus(y) == seq![y],
    decreases y.len(),
{
    if y.len() == 0 {
        assert(y =~= Seq::<char>::empty());
    } else {
        let u = y.drop_last();
        assert forall|i: int| 0 <= i < u.len() implies u[i] != '+' by {
            assert(u[i] == y[i]);
        }
        lemma_split_no_plus(u);
        assert(y.last() != '+') by {
            assert(y[y.len() - 1] != '+');
        }
        let r = split_plus(u);
        assert(r == seq![u]);
        assert(split_plus(y) == r.update(r.len() - 1, r.last().push(y.last())));
        assert(u.push(y.last()) =~= y);
        assert(split_plus(y) =~= seq![y]);
    }
}

proof fn lemma_split_after_plus(x: Seq<char>, y: Seq<char>)
    requires
        forall|i: int| 0 <= i < y.len() ==> y[i] != '+',
    ensures
        split_plus(x + seq!['+'] + y) == split_plus(x).push(y),
    decreases y.len(),
{
    if y.len() == 0 {
        let z = x + seq!['+'];
        assert(x + seq!['+'] + y =~= z);
        assert(z.drop_last() =~= x);
        assert(z.last() == '+');
        assert(y =~= Seq::<char>::empty());
    } else {
        let u = y.drop_last();
        assert forall|i: int| 0 <= i < u.len() implies u[i] != '+' by {
            assert(u[i] == y[i]);
        }
        lemma_split_after_plus(x, u);
        let z = x + seq!['+'] + y;
        assert(z.drop_last() =~= x + seq!['+'] + u);
        assert(z.last() == y.last());
        assert(y.last() != '+') by {
            assert(y[y.len() - 1] != '+');
        }
        let r = split_plus(x + seq!['+'] + u);
        assert(r == split_plus(x).push(u));
        assert(split_plus(z) == r.update(r.len() - 1, r.last().push(y.last())));
        assert(u.push(y.last()) =~= y);
        assert(split_plus(z) =~= split_plus(x).push(y));
    }
}

/// Splitting a `+`-joined list of `+`-free names gives back the names.
proof fn lemma_split_join(names: Seq<Seq<char>>)
    requires
        names.len() >= 1,
        forall|i: int, j: int| 0 <= i < names.len() && 0 <= j < names[i].len() ==> names[i][j] != '+',
    ensures
        split_plus(join_plus(names)) == names,
    decreases names.len(),
{
    if names.len() == 1 {
        lemma_split_no_plus(names[0]);
        assert(names =~= seq![names[0]]);
    } else {
        let u = names.drop_last();
        assert forall|i: int, j: int| 0 <= i < u.len() && 0 <= j < u[i].len() implies u[i][j] != '+' by {
            assert(u[i] == names[i]);
        }
        lemma_split_join(u);
        let y = names.last();
        assert forall|j: int| 0 <= j < y.len() implies y[j] != '+' by {
            assert(names[names.len() - 1] == y);
        }
        lemma_split_after_plus(join_plus(u), y);
        assert(u.push(y) =~= names);
    }
}

proof fn lemma_digits_of_decimal(n: nat)
    ensures
        decimal_digits(n).len() >= 1,
        forall|i: int| 0 <= i < decimal_digits(n).len() ==> is_ascii_digit(#[trigger] decimal_digits(n)[i]),
        digits_value(decimal_digits(n)) == n,
        n < 10 ==> decimal_digits(n).len() == 1,
    decreases n,
{
    if n < 10 {
        let c = decimal_char(n as int);
        assert(decimal_digits(n) == seq![c]);
        assert(seq![c].drop_last() =~= Seq::<char>::empty());
        assert(digits_value(Seq::<char>::empty()) == 0);
        assert(seq![c].last() == c);
        assert(digits_value(seq![c]) == digits_value(seq![c].drop_last()) * 10 + ((c as int) - ('0' as int)));
        assert((c as int) - ('0' as int) == n) by {
            if n == 0 {} else if n == 1 {} else if n == 2 {} else if n == 3 {} else if n == 4 {}
            else if n == 5 {} else if n == 6 {} else if n == 7 {} else if n == 8 {} else {}
        }
        assert(is_ascii_digit(c)) by {
            if n == 0 {} else if n == 1 {} else if n == 2 {} else if n == 3 {} else if n == 4 {}
            else if n == 5 {} else if n == 6 {} else if n == 7 {} else if n == 8 {} else {}
        }
    } else {
        lemma_digits_of_decimal(n / 10);
        let x = decimal_digits(n / 10);
        let c = decimal_char((n % 10) as int);
        let d = x + seq![c];
        assert(d.drop_last() =~= x);
        assert(d.last() == c);
        assert forall|i: int| 0 <= i < d.len() implies is_ascii_digit(#[trigger] d[i]) by {
            if i < x.len() {
                assert(d[i] == x[i]);
            }
        }
        let r = (n % 10) as int;
        assert((c as int) - ('0' as int) == r && is_ascii_digit(c)) by {
            if r == 0 {} else if r == 1 {} else if r == 2 {} else if r == 3 {} else if r == 4 {}
            else if r == 5 {} else if r == 6 {} else if r == 7 {} else if r == 8 {} else {}
        }
        assert(digits_value(d) == digits_value(x) * 10 + r);
        assert((n / 10) * 10 + n % 10 == n);
    }
}

proof fn lemma_trim_clean(t: Seq<char>)
    requires
        forall|i: int| 0 <= i < t.len() ==> !is_whitespace_spec(#[trigger] t[i]),
    ensures
        trim(t) == t,
{
    if t.len() > 0 {
        assert(!is_whitespace_spec(t[0]));
        assert(!is_whitespace_spec(t.last()));
    }
}

/// The lowercase of a name, character by character.
proof fn lemma_lower_names(k: KeyCode)
    requires
        nameable(k),
    ensures
        token_key_spec(key_name_spec(k)) == Some(k),
        key_name_spec(k).len() >= 1,
        forall|i: int| 0 <= i < key_name_spec(k).len() ==> (#[trigger] key_name_spec(k)[i]) != '+'
            && !is_whitespace_spec(key_name_spec(k)[i]),
{
    let name = key_name_spec(k);
    let l = ascii_lower(name);
    match k {
        KeyCode::Shift => {
            assert(l =~= seq!['s', 'h', 'i', 'f', 't']);
        },
        KeyCode::Control => {
            assert(l =~= seq!['c', 't', 'r', 'l']);
        },
        KeyCode::Alt => {
            assert(l =~= seq!['a', 'l', 't']);
        },
        KeyCode::Meta => {
            assert(l =~= seq!['w', 'i', 'n']);
        },
        KeyCode::Function(n) => {
            lemma_digits_of_decimal(n as nat);
            let ds = decimal_digits(n as nat);
            assert(name =~= seq!['F'] + ds);
            assert(l[0] == 'f');
            assert(l.drop_first() =~= ds) by {
                assert forall|i: int| 0 <= i < ds.len() implies l.drop_first()[i] == ds[i] by {
                    assert(l[i + 1] == lower_char(name[i + 1]));
                    assert(name[i + 1] == ds[i]);
                    assert(is_ascii_digit(ds[i]));
                }
            }
            assert(ds[0] != '+') by {
                assert(is_ascii_digit(ds[0]));
            }
            assert(parse_u8_spec(ds) == parse_digits_u8(ds));
            assert(l != seq!['c', 't', 'r', 'l']) by {
                assert(seq!['c', 't', 'r', 'l'][0] == 'c');
            }
            assert(l != seq!['c', 'o', 'n', 't', 'r', 'o', 'l']) by {
                assert(seq!['c', 'o', 'n', 't', 'r', 'o', 'l'][0] == 'c');
            }
            assert(l != seq!['a', 'l', 't']) by {
                assert(seq!['a', 'l', 't'][0] == 'a');
            }
            assert(l != seq!['s', 'h', 'i', 'f', 't']) by {
                assert(seq!['s', 'h', 'i', 'f', 't'][0] == 's');
            }
            assert(l != seq!['w', 'i', 'n']) by {
                assert(seq!['w', 'i', 'n'][0] == 'w');
            }
            assert(l != seq!['s', 'u', 'p', 'e', 'r']) by {
                assert(seq!['s', 'u', 'p', 'e', 'r'][0] == 's');
            }
            assert(l != seq!['m', 'e', 't', 'a']) by {
                assert(seq!['m', 'e', 't', 'a'][0] == 'm');
            }
            assert(l != seq!['c', 'm', 'd']) by {
                assert(seq!['c', 'm', 'd'][0] == 'c');
            }
            assert forall|i: int| 0 <= i < name.len() implies (#[trigger] name[i]) != '+'
                && !is_whitespace_spec(name[i]) by {
                if i > 0 {
                    assert(name[i] == ds[i - 1]);
                    assert(is_ascii_digit(ds[i - 1]));
                }
            }
        },
        KeyCode::Letter(c) => {
            assert(l =~= seq![lower_char(c)]);
            assert(l.len() == 1);
        },
        KeyCode::Digit(d) => {
            lemma_digits_of_decimal(d as nat);
            assert(name =~= seq![decimal_char(d as int)]);
            assert(l =~= seq![decimal_char(d as int)]);
        },
        _ => {},
    }
}

/// Displaying a valid chord whose keys all have parseable names and parsing the
/// text back yields the same keys.
pub proof fn lemma_display_parse_round_trip(keys: Seq<KeyCode>)
    requires
        chord_wf(keys),
        forall|i: int| 0 <= i < keys.len() ==> nameable(#[trigger] keys[i]),
    ensures
        parse_spec(display_spec(keys)) matches ParseOutcome::Chord(ks) && is_canonical_of(keys, ks),
{
    let sorted = display_sort(keys);
    lemma_display_sort_contents(keys);
    let names = sorted.map_values(|k: KeyCode| key_name_spec(k));
    assert forall|i: int| 0 <= i < sorted.len() implies nameable(#[trigger] sorted[i]) by {
        assert(sorted.contains(sorted[i]));
        assert(keys.contains(sorted[i]));
    }
    assert forall|i: int, j: int| 0 <= i < names.len() && 0 <= j < names[i].len() implies names[i][j]
        != '+' by {
        lemma_lower_names(sorted[i]);
    }
    let hm = choose|i: int| 0 <= i < keys.len() && (#[trigger] keys[i]).spec_is_modifier();
    assert(keys.contains(keys[hm]));
    assert(names.len() >= 1);
    lemma_split_join(names);
    // Every name is its own trimmed token and names its key.
    assert forall|m: int| 0 <= m <= names.len() implies keys_of_tokens(#[trigger] names.subrange(0, m))
        == Ok::<Seq<KeyCode>, Seq<char>>(sorted.subrange(0, m)) by {
        lemma_keys_of_names(sorted, names, m);
    }
    assert(names.subrange(0, names.len() as int) =~= names);
    assert(sorted.subrange(0, sorted.len() as int) =~= sorted);
    // The parsed keys are the chord's keys.
    assert(has_modifier(sorted)) by {
        let x = keys[hm];
        assert(sorted.contains(x));
        let i = choose|i: int| 0 <= i < sorted.len() && sorted[i] == x;
        assert(sorted[i].spec_is_modifier());
    }
    assert(has_non_modifier(sorted)) by {
        let hn = choose|i: int| 0 <= i < keys.len() && !(#[trigger] keys[i]).spec_is_modifier();
        assert(keys.contains(keys[hn]));
        assert(sorted.contains(keys[hn]));
        let i = choose|i: int| 0 <= i < sorted.len() && sorted[i] == keys[hn];
        assert(!sorted[i].spec_is_modifier());
    }
    assert(chord_check(sorted) is Ok);
}

proof fn lemma_keys_of_names(sorted: Seq<KeyCode>, names: Seq<Seq<char>>, m: int)
    requires
        names == sorted.map_values(|k: KeyCode| key_name_spec(k)),
        forall|i: int| 0 <= i < sorted.len() ==> nameable(#[trigger] sorted[i]),
        0 <= m <= names.len(),
    ensures
        keys_of_tokens(names.subrange(0, m)) == Ok::<Seq<KeyCode>, Seq<char>>(sorted.subrange(0, m)),
    decreases m,
{
    if m == 0 {
        assert(names.subrange(0, 0) =~= Seq::<Seq<char>>::empty());
        assert(sorted.subrange(0, 0) =~= Seq::<KeyCode>::empty());
    } else {
        lemma_keys_of_names(sorted, names, m - 1);
        let ts = names.subrange(0, m);
        assert(ts.drop_last() =~= names.subrange(0, m - 1));
        assert(ts.last() == key_name_spec(sorted[m - 1]));
        lemma_lower_names(sorted[m - 1]);
        lemma_trim_clean(key_name_spec(sorted[m - 1]));
        assert(sorted.subrange(0, m - 1).push(sorted[m - 1]) =~= sorted.subrange(0, m));
    }
}

/// The display text of a chord whose keys all have names parses back to that very
/// chord: `parse(&display(&c.keys()))` is `Ok` and equal to `c`.
pub proof fn lemma_display_parse_gives_back_the_chord(keys: Seq<KeyCode>)
    requires
        chord_wf(keys),
        forall|i: int| 0 <= i < keys.len() ==> nameable(#[trigger] keys[i]),
    ensures
        parse_spec(display_spec(keys)) is Chord,
        forall|s: Seq<KeyCode>| #[trigger]
            is_canonical_of(s, parse_spec(display_spec(keys))->Chord_0) ==> s == keys,
{
    lemma_display_parse_round_trip(keys);
    let ks = parse_spec(display_spec(keys))->Chord_0;
    assert forall|s: Seq<KeyCode>| #[trigger] is_canonical_of(s, ks) implies s == keys by {
        lemma_canonical_unique(s, keys);
    }
}

} // verus!
