use vstd::prelude::*;

use std::sync::atomic::AtomicBool;
use std::sync::atomic::Ordering;

use crate::config::HotkeyConfig;
use vstd::multiset::Multiset;

use crate::text::{
    append_chars, append_str, ascii_lower, ascii_lower_seq, is_whitespace_spec, chars_equal_str, chars_of, lower_chars,
    string_of, trim_chars, trim_end_spec, trim_spec, trim_start_spec,
};

verus! {

/// Identifier under which the global hotkey is registered.
pub const HOTKEY_ID: i32 = 1;

/// `MOD_ALT`.
pub const MOD_ALT_VALUE: u32 = 0x0001;
/// `MOD_CONTROL`.
pub const MOD_CONTROL_VALUE: u32 = 0x0002;
/// `MOD_SHIFT`.
pub const MOD_SHIFT_VALUE: u32 = 0x0004;
/// `MOD_NOREPEAT`: always requested so that holding the keys fires once.
pub const MOD_NOREPEAT_VALUE: u32 = 0x4000;

/// Virtual-key code of `B`.
pub const VK_B_VALUE: u32 = 0x42;
/// Virtual-key code of `H`.
pub const VK_H_VALUE: u32 = 0x48;

/// A hotkey combination ready for `RegisterHotKey`.
#[derive(Debug, Clone, Copy, PartialEq, Eq, Structural)]
pub struct ParsedCombo {
    pub modifiers: u32,
    pub vk: u32,
}

/// What has been read of a combination so far.
#[derive(Debug, Clone, Copy, PartialEq, Eq, Structural)]
pub struct ComboState {
    pub ctrl: bool,
    pub shift: bool,
    pub alt: bool,
    pub key: Option<u32>,
}

pub open spec fn initial_state() -> ComboState {
    ComboState { ctrl: false, shift: false, alt: false, key: None }
}

/// The pieces of `s` between occurrences of `sep` (as `str::split`),
/// empty pieces included; there is always at least one piece.
pub open spec fn split_spec(s: Seq<char>, sep: char) -> Seq<Seq<char>>
    decreases s.len(),
{
    if s.len() == 0 {
        seq![Seq::<char>::empty()]
    } else {
        let init = split_spec(s.drop_last(), sep);
        if s.last() == sep {
            init.push(Seq::<char>::empty())
        } else {
            init.update(init.len() - 1, init.last().push(s.last()))
        }
    }
}

pub open spec fn multiple_keys_error(combo: Seq<char>) -> Seq<char> {
    "Invalid hotkey combo '"@ + combo + "': multiple keys"@
}

pub open spec fn unsupported_token_error(combo: Seq<char>, token: Seq<char>) -> Seq<char> {
    "Unsupported hotkey token '"@ + token + "' in '"@ + combo + "'"@
}

pub open spec fn missing_key_error(combo: Seq<char>) -> Seq<char> {
    "Invalid hotkey combo '"@ + combo + "': missing key"@
}

pub open spec fn missing_modifier_error(combo: Seq<char>) -> Seq<char> {
    "Invalid hotkey combo '"@ + combo + "': at least one modifier is required"@
}

/// Reads one (trimmed, lowercase, non-empty) token of `combo`.
pub open spec fn apply_token(combo: Seq<char>, st: ComboState, token: Seq<char>) -> Result<
    ComboState,
    Seq<char>,
> {
    if token == "ctrl"@ {
        Ok(ComboState { ctrl: true, ..st })
    } else if token == "shift"@ {
        Ok(ComboState { shift: true, ..st })
    } else if token == "alt"@ {
        Ok(ComboState { alt: true, ..st })
    } else if token == "b"@ || token == "h"@ {
        if st.key is Some {
            Err(multiple_keys_error(combo))
        } else {
            Ok(ComboState { key: Some(if token == "b"@ { VK_B_VALUE } else { VK_H_VALUE }), ..st })
        }
    } else {
        Err(unsupported_token_error(combo, token))
    }
}

/// Reads one piece between `+` signs: it is trimmed, and skipped when empty.
pub open spec fn apply_piece(combo: Seq<char>, st: ComboState, piece: Seq<char>) -> Result<
    ComboState,
    Seq<char>,
> {
    let token = trim_spec(piece);
    if token.len() == 0 {
        Ok(st)
    } else {
        apply_token(combo, st, token)
    }
}

/// Reads the pieces in order; the first error ends the reading.
pub open spec fn fold_pieces(combo: Seq<char>, pieces: Seq<Seq<char>>) -> Result<
    ComboState,
    Seq<char>,
>
    decreases pieces.len(),
{
    if pieces.len() == 0 {
        Ok(initial_state())
    } else {
        match fold_pieces(combo, pieces.drop_last()) {
            Ok(st) => apply_piece(combo, st, pieces.last()),
            Err(e) => Err(e),
        }
    }
}

/// The modifier mask of a finished reading (`MOD_NOREPEAT` always set).
pub open spec fn modifiers_of(st: ComboState) -> u32 {
    (MOD_NOREPEAT_VALUE + (if st.ctrl { MOD_CONTROL_VALUE } else { 0 }) + (if st.shift {
        MOD_SHIFT_VALUE
    } else {
        0
    }) + (if st.alt { MOD_ALT_VALUE } else { 0 })) as u32
}

/// What `parse_combo` returns for `combo`: the input is trimmed and
/// lowercased, split on `+`, each piece trimmed and empty pieces skipped;
/// `ctrl`, `shift` and `alt` add modifiers, `b` or `h` names the key (once),
/// anything else is refused; a key and at least one modifier are required.
pub open spec fn parse_combo_spec(combo: Seq<char>) -> Result<ParsedCombo, Seq<char>> {
    let normalized = ascii_lower_seq(trim_spec(combo));
    if normalized.len() == 0 {
        Err("Hotkey combo cannot be empty"@)
    } else {
        match fold_pieces(combo, split_spec(normalized, '+')) {
            Err(e) => Err(e),
            Ok(st) => {
                if st.key is None {
                    Err(missing_key_error(combo))
                } else if !(st.ctrl || st.shift || st.alt) {
                    Err(missing_modifier_error(combo))
                } else {
                    Ok(ParsedCombo { modifiers: modifiers_of(st), vk: st.key->0 })
                }
            }
        }
    }
}

fn combo_error(prefix: &str, combo: &str, suffix: &str) -> (r: String)
    ensures
        r@ == prefix@ + combo@ + suffix@,
{
    let mut r = string_of(prefix);
    append_str(&mut r, combo);
    append_str(&mut r, suffix);
    r
}

fn read_token(combo: &str, st: ComboState, token: &Vec<char>) -> (r: Result<ComboState, String>)
    ensures
        match r {
            Ok(s) => apply_token(combo@, st, token@) == Ok::<ComboState, Seq<char>>(s),
            Err(e) => apply_token(combo@, st, token@) == Err::<ComboState, Seq<char>>(e@),
        },
{
    if chars_equal_str(token, "ctrl") {
        Ok(ComboState { ctrl: true, ..st })
    } else if chars_equal_str(token, "shift") {
        Ok(ComboState { shift: true, ..st })
    } else if chars_equal_str(token, "alt") {
        Ok(ComboState { alt: true, ..st })
    } else {
        let is_b = chars_equal_str(token, "b");
        let is_h = chars_equal_str(token, "h");
        if is_b || is_h {
            if st.key.is_some() {
                Err(combo_error("Invalid hotkey combo '", combo, "': multiple keys"))
            } else {
                let vk = if is_b {
                    VK_B_VALUE
                } else {
                    VK_H_VALUE
                };
                Ok(ComboState { key: Some(vk), ..st })
            }
        } else {
            let mut r = string_of("Unsupported hotkey token '");
            append_chars(&mut r, token);
            append_str(&mut r, "' in '");
            append_str(&mut r, combo);
            append_str(&mut r, "'");
            Err(r)
        }
    }
}

fn read_piece(combo: &str, st: ComboState, piece: &Vec<char>) -> (r: Result<ComboState, String>)
    ensures
        match r {
            Ok(s) => apply_piece(combo@, st, piece@) == Ok::<ComboState, Seq<char>>(s),
            Err(e) => apply_piece(combo@, st, piece@) == Err::<ComboState, Seq<char>>(e@),
        },
{
    let token = trim_chars(piece);
    if token.len() == 0 {
        Ok(st)
    } else {
        read_token(combo, st, &token)
    }
}

proof fn lemma_fold_keys(combo: Seq<char>, pieces: Seq<Seq<char>>)
    ensures
        fold_pieces(combo, pieces) matches Ok(st) ==> (st.key matches Some(k) ==> (k == VK_B_VALUE
            || k == VK_H_VALUE)),
    decreases pieces.len(),
{
    if pieces.len() > 0 {
        lemma_fold_keys(combo, pieces.drop_last());
    }
}

/// Every combination that parses names the key `B` or `H`, requests
/// `MOD_NOREPEAT` and at least one of Ctrl, Shift and Alt, and nothing else.
pub proof fn lemma_parsed_combo_is_registrable(combo: Seq<char>)
    ensures
        parse_combo_spec(combo) matches Ok(p) ==> {
            &&& p.vk == VK_B_VALUE || p.vk == VK_H_VALUE
            &&& MOD_NOREPEAT_VALUE < p.modifiers <= MOD_NOREPEAT_VALUE + MOD_CONTROL_VALUE
                + MOD_SHIFT_VALUE + MOD_ALT_VALUE
        },
{
    let normalized = ascii_lower_seq(trim_spec(combo));
    lemma_fold_keys(combo, split_spec(normalized, '+'));
}

/// The tokens of a list of pieces: each piece trimmed, empty ones left out,
/// order forgotten.
pub open spec fn piece_tokens(pieces: Seq<Seq<char>>) -> Multiset<Seq<char>>
    decreases pieces.len(),
{
    if pieces.len() == 0 {
        Multiset::empty()
    } else {
        let token = trim_spec(pieces.last());
        let earlier = piece_tokens(pieces.drop_last());
        if token.len() == 0 {
            earlier
        } else {
            earlier.insert(token)
        }
    }
}

/// The tokens of a combination: the pieces between `+` signs of the
/// trimmed, lowercased text, each trimmed, empty ones left out, counted
/// without regard to their order.
pub open spec fn combo_tokens(combo: Seq<char>) -> Multiset<Seq<char>> {
    piece_tokens(split_spec(ascii_lower_seq(trim_spec(combo)), '+'))
}

/// A token the reading accepts.
pub open spec fn is_known_token(token: Seq<char>) -> bool {
    token == "ctrl"@ || token == "shift"@ || token == "alt"@ || token == "b"@ || token == "h"@
}

/// Tokens that read without error: all known, and at most one key.
pub open spec fn tokens_readable(m: Multiset<Seq<char>>) -> bool {
    &&& forall|t: Seq<char>| m.count(t) > 0 ==> is_known_token(t)
    &&& m.count("b"@) + m.count("h"@) <= 1
}

/// The reading state that a readable set of tokens leads to.
pub open spec fn state_of_tokens(m: Multiset<Seq<char>>) -> ComboState {
    ComboState {
        ctrl: m.count("ctrl"@) > 0,
        shift: m.count("shift"@) > 0,
        alt: m.count("alt"@) > 0,
        key: if m.count("b"@) > 0 {
            Some(VK_B_VALUE)
        } else if m.count("h"@) > 0 {
            Some(VK_H_VALUE)
        } else {
            None
        },
    }
}

proof fn lemma_fold_by_tokens(combo: Seq<char>, pieces: Seq<Seq<char>>)
    ensures
        (fold_pieces(combo, pieces) is Ok) == tokens_readable(piece_tokens(pieces)),
        tokens_readable(piece_tokens(pieces)) ==> fold_pieces(combo, pieces) == Ok::<
            ComboState,
            Seq<char>,
        >(state_of_tokens(piece_tokens(pieces))),
    decreases pieces.len(),
{
    broadcast use vstd::multiset::group_multiset_axioms;

    reveal_strlit("ctrl");
    reveal_strlit("shift");
    reveal_strlit("alt");
    reveal_strlit("b");
    reveal_strlit("h");
    assert("b"@ != "h"@) by {
        assert("b"@[0] != "h"@[0]);
    }
    if pieces.len() == 0 {
        assert(state_of_tokens(Multiset::<Seq<char>>::empty()) == initial_state());
        assert(tokens_readable(Multiset::<Seq<char>>::empty()));
    } else {
        lemma_fold_by_tokens(combo, pieces.drop_last());
        let m = piece_tokens(pieces.drop_last());
        let token = trim_spec(pieces.last());
        if token.len() == 0 {
            assert(piece_tokens(pieces) == m);
        } else {
            let m2 = m.insert(token);
            assert(piece_tokens(pieces) == m2);
            if !is_known_token(token) {
                assert(m2.count(token) > 0);
                assert(!tokens_readable(m2));
            } else if tokens_readable(m) {
                if token == "b"@ || token == "h"@ {
                    if m.count("b"@) + m.count("h"@) == 0 {
                        assert forall|t: Seq<char>| m2.count(t) > 0 implies is_known_token(t) by {
                            if t != token {
                                assert(m.count(t) > 0);
                            }
                        }
                        assert(m2.count("b"@) + m2.count("h"@) == 1);
                        assert(tokens_readable(m2));
                        assert(state_of_tokens(m2) == ComboState {
                            key: Some(if token == "b"@ { VK_B_VALUE } else { VK_H_VALUE }),
                            ..state_of_tokens(m)
                        });
                    } else {
                        assert(state_of_tokens(m).key is Some);
                        assert(m2.count("b"@) + m2.count("h"@) >= 2);
                        assert(!tokens_readable(m2));
                    }
                } else {
                    assert forall|t: Seq<char>| m2.count(t) > 0 implies is_known_token(t) by {
                        if t != token {
                            assert(m.count(t) > 0);
                        }
                    }
                    assert(m2.count("b"@) == m.count("b"@));
                    assert(m2.count("h"@) == m.count("h"@));
                    let st = state_of_tokens(m);
                    if token == "ctrl"@ {
                        assert(state_of_tokens(m2) == ComboState { ctrl: true, ..st });
                    } else if token == "shift"@ {
                        assert(state_of_tokens(m2) == ComboState { shift: true, ..st });
                    } else {
                        assert(state_of_tokens(m2) == ComboState { alt: true, ..st });
                    }
                }
            } else {
                if !(forall|t: Seq<char>| m.count(t) > 0 ==> is_known_token(t)) {
                    let t = choose|t: Seq<char>| !(m.count(t) > 0 ==> is_known_token(t));
                    assert(m2.count(t) > 0);
                }
                assert(!tokens_readable(m2));
            }
        }
    }
}

/// What a combination reads as depends only on its tokens (`combo_tokens`):
/// two combinations with the same tokens are both accepted or both
/// refused, and when accepted they give the same hotkey. Spaces around
/// tokens or at the ends, empty `+` pieces and the order of the tokens do
/// not enter the tokens, and letter case does not either
/// (`lemma_combo_tokens_ignore_case`).
pub proof fn lemma_parse_combo_depends_only_on_tokens(a: Seq<char>, b: Seq<char>)
    requires
        combo_tokens(a) == combo_tokens(b),
    ensures
        (parse_combo_spec(a) is Ok) == (parse_combo_spec(b) is Ok),
        parse_combo_spec(a) is Ok ==> parse_combo_spec(a) == parse_combo_spec(b),
{
    lemma_parse_combo_by_tokens(a);
    lemma_parse_combo_by_tokens(b);
}

/// A combination is accepted exactly when its tokens are readable, name a
/// key and at least one modifier; the hotkey is then the one they name.
pub proof fn lemma_parse_combo_by_tokens(combo: Seq<char>)
    ensures
        ({
            let m = combo_tokens(combo);
            let st = state_of_tokens(m);
            &&& (parse_combo_spec(combo) is Ok) == (tokens_readable(m) && st.key is Some && (st.ctrl
                || st.shift || st.alt))
            &&& parse_combo_spec(combo) is Ok ==> parse_combo_spec(combo) == Ok::<
                ParsedCombo,
                Seq<char>,
            >(ParsedCombo { modifiers: modifiers_of(st), vk: st.key->0 })
        }),
{
    broadcast use vstd::multiset::group_multiset_axioms;

    let normalized = ascii_lower_seq(trim_spec(combo));
    let pieces = split_spec(normalized, '+');
    lemma_fold_by_tokens(combo, pieces);
    if normalized.len() == 0 {
        assert(pieces == seq![Seq::<char>::empty()]);
        assert(pieces.drop_last() =~= Seq::<Seq<char>>::empty());
        assert(trim_start_spec(Seq::<char>::empty()) == Seq::<char>::empty());
        assert(trim_end_spec(Seq::<char>::empty()) == Seq::<char>::empty());
        assert(trim_spec(Seq::<char>::empty()) == Seq::<char>::empty());
        assert(pieces.last() == Seq::<char>::empty());
        assert(piece_tokens(pieces) == piece_tokens(pieces.drop_last()));
        assert(combo_tokens(combo) == Multiset::<Seq<char>>::empty());
    }
}

pub(crate) proof fn lemma_case_keeps_whitespace(x: char, y: char)
    requires
        ascii_lower(x) == ascii_lower(y),
    ensures
        is_whitespace_spec(x) == is_whitespace_spec(y),
{
    if 'A' <= x && x <= 'Z' {
        assert('a' <= ascii_lower(x) && ascii_lower(x) <= 'z');
    }
    if 'A' <= y && y <= 'Z' {
        assert('a' <= ascii_lower(y) && ascii_lower(y) <= 'z');
    }
}

proof fn lemma_case_drop(a: Seq<char>, b: Seq<char>)
    requires
        ascii_lower_seq(a) == ascii_lower_seq(b),
        a.len() > 0,
    ensures
        a.len() == b.len(),
        ascii_lower(a[0]) == ascii_lower(b[0]),
        ascii_lower(a.last()) == ascii_lower(b.last()),
        ascii_lower_seq(a.drop_first()) == ascii_lower_seq(b.drop_first()),
        ascii_lower_seq(a.drop_last()) == ascii_lower_seq(b.drop_last()),
{
    assert(ascii_lower_seq(a).len() == a.len());
    assert(ascii_lower_seq(b).len() == b.len());
    assert(ascii_lower_seq(a)[0] == ascii_lower_seq(b)[0]);
    assert(ascii_lower_seq(a)[0] == ascii_lower(a[0]));
    assert(ascii_lower_seq(b)[0] == ascii_lower(b[0]));
    assert(ascii_lower_seq(a)[a.len() - 1] == ascii_lower_seq(b)[b.len() - 1]);
    assert(ascii_lower_seq(a)[a.len() - 1] == ascii_lower(a[a.len() - 1]));
    assert(ascii_lower_seq(b)[b.len() - 1] == ascii_lower(b[b.len() - 1]));
    assert forall|i: int| 0 <= i < a.len() - 1 implies ascii_lower_seq(a.drop_first())[i]
        == ascii_lower_seq(b.drop_first())[i] by {
        assert(ascii_lower_seq(a)[i + 1] == ascii_lower_seq(b)[i + 1]);
        assert(ascii_lower_seq(a)[i + 1] == ascii_lower(a[i + 1]));
        assert(ascii_lower_seq(b)[i + 1] == ascii_lower(b[i + 1]));
        assert(a.drop_first()[i] == a[i + 1]);
        assert(b.drop_first()[i] == b[i + 1]);
        assert(ascii_lower_seq(a.drop_first())[i] == ascii_lower(a.drop_first()[i]));
        assert(ascii_lower_seq(b.drop_first())[i] == ascii_lower(b.drop_first()[i]));
    }
    assert forall|i: int| 0 <= i < a.len() - 1 implies ascii_lower_seq(a.drop_last())[i]
        == ascii_lower_seq(b.drop_last())[i] by {
        assert(ascii_lower_seq(a)[i] == ascii_lower_seq(b)[i]);
        assert(ascii_lower_seq(a)[i] == ascii_lower(a[i]));
        assert(ascii_lower_seq(b)[i] == ascii_lower(b[i]));
        assert(ascii_lower_seq(a.drop_last())[i] == ascii_lower(a.drop_last()[i]));
        assert(ascii_lower_seq(b.drop_last())[i] == ascii_lower(b.drop_last()[i]));
    }
    assert(ascii_lower_seq(a.drop_first()) =~= ascii_lower_seq(b.drop_first()));
    assert(ascii_lower_seq(a.drop_last()) =~= ascii_lower_seq(b.drop_last()));
}

proof fn lemma_case_trim_start(a: Seq<char>, b: Seq<char>)
    requires
        ascii_lower_seq(a) == ascii_lower_seq(b),
    ensures
        ascii_lower_seq(trim_start_spec(a)) == ascii_lower_seq(trim_start_spec(b)),
    decreases a.len(),
{
    if a.len() > 0 {
        lemma_case_drop(a, b);
        lemma_case_keeps_whitespace(a[0], b[0]);
        if is_whitespace_spec(a[0]) {
            lemma_case_trim_start(a.drop_first(), b.drop_first());
        }
    } else {
        assert(ascii_lower_seq(b).len() == b.len());
    }
}

proof fn lemma_case_trim_end(a: Seq<char>, b: Seq<char>)
    requires
        ascii_lower_seq(a) == ascii_lower_seq(b),
    ensures
        ascii_lower_seq(trim_end_spec(a)) == ascii_lower_seq(trim_end_spec(b)),
    decreases a.len(),
{
    if a.len() > 0 {
        lemma_case_drop(a, b);
        lemma_case_keeps_whitespace(a.last(), b.last());
        if is_whitespace_spec(a.last()) {
            lemma_case_trim_end(a.drop_last(), b.drop_last());
        }
    } else {
        assert(ascii_lower_seq(b).len() == b.len());
    }
}

/// Letter case does not matter: combinations that differ only in the case
/// of ASCII letters have the same tokens, and so (by
/// `lemma_parse_combo_depends_only_on_tokens`) read the same.
pub proof fn lemma_combo_tokens_ignore_case(a: Seq<char>, b: Seq<char>)
    requires
        ascii_lower_seq(a) == ascii_lower_seq(b),
    ensures
        combo_tokens(a) == combo_tokens(b),
{
    lemma_case_trim_start(a, b);
    let sa = trim_start_spec(a);
    let sb = trim_start_spec(b);
    lemma_case_trim_end(sa, sb);
}

/// What an accepted combination registers, in terms of its tokens alone:
/// a combination is accepted exactly when every token is one of `ctrl`,
/// `shift`, `alt`, `b`, `h`, exactly one of `b` and `h` occurs (once), and
/// at least one modifier occurs; the mask is then `MOD_NOREPEAT` plus, each
/// on its own, `MOD_CONTROL` when `ctrl` occurs, `MOD_SHIFT` when `shift`
/// occurs and `MOD_ALT` when `alt` occurs, and the key is `B` or `H` as
/// named.
pub proof fn lemma_parse_combo_registers_tokens(combo: Seq<char>)
    ensures
        ({
            let m = combo_tokens(combo);
            let ctrl = m.count("ctrl"@) > 0;
            let shift = m.count("shift"@) > 0;
            let alt = m.count("alt"@) > 0;
            &&& (parse_combo_spec(combo) is Ok) == ((forall|t: Seq<char>|
                m.count(t) > 0 ==> (t == "ctrl"@ || t == "shift"@ || t == "alt"@ || t == "b"@ || t
                    == "h"@)) && m.count("b"@) + m.count("h"@) == 1 && (ctrl || shift || alt))
            &&& parse_combo_spec(combo) matches Ok(p) ==> {
                &&& p.modifiers == 0x4000 + (if ctrl { 2int } else { 0int }) + (if shift {
                    4int
                } else {
                    0int
                }) + (if alt { 1int } else { 0int })
                &&& p.vk == (if m.count("b"@) > 0 { 0x42u32 } else { 0x48u32 })
            }
        }),
{
    lemma_parse_combo_by_tokens(combo);
    let m = combo_tokens(combo);
    let st = state_of_tokens(m);
    assert(tokens_readable(m) && st.key is Some <==> ((forall|t: Seq<char>|
        m.count(t) > 0 ==> is_known_token(t)) && m.count("b"@) + m.count("h"@) == 1));
    assert((st.ctrl || st.shift || st.alt) == (m.count("ctrl"@) > 0 || m.count("shift"@) > 0
        || m.count("alt"@) > 0));
    let total: int = 0x4000 + (if st.ctrl { 2int } else { 0int }) + (if st.shift { 4int } else { 0int }) + (if st.alt { 1int } else { 0int });
    assert(0 <= total < 0x10000);
    assert(modifiers_of(st) == total);
    let known = forall|t: Seq<char>|
        m.count(t) > 0 ==> (t == "ctrl"@ || t == "shift"@ || t == "alt"@ || t == "b"@ || t == "h"@);
    if known {
        assert forall|t: Seq<char>| m.count(t) > 0 implies is_known_token(t) by {
            assert(m.count(t) > 0 ==> (t == "ctrl"@ || t == "shift"@ || t == "alt"@ || t == "b"@
                || t == "h"@));
        }
    }
    if forall|t: Seq<char>| m.count(t) > 0 ==> is_known_token(t) {
        assert forall|t: Seq<char>| m.count(t) > 0 implies (t == "ctrl"@ || t == "shift"@ || t
            == "alt"@ || t == "b"@ || t == "h"@) by {
            assert(m.count(t) > 0 ==> is_known_token(t));
        }
    }
    assert(known == (forall|t: Seq<char>| m.count(t) > 0 ==> is_known_token(t)));
    assert((parse_combo_spec(combo) is Ok) == (known && m.count("b"@) + m.count("h"@) == 1 && (m.count("ctrl"@) > 0 || m.count("shift"@) > 0
        || m.count("alt"@) > 0)));
    if parse_combo_spec(combo) is Ok {
        assert(st.key is Some);
        assert(st.key->0 == (if m.count("b"@) > 0 { 0x42u32 } else { 0x48u32 }));
    }
}

/// How an executable reading result stands for a spec reading result.
pub open spec fn reading_matches(r: Result<ComboState, String>, s: Result<ComboState, Seq<char>>) -> bool {
    match r {
        Ok(st) => s == Ok::<ComboState, Seq<char>>(st),
        Err(e) => s == Err::<ComboState, Seq<char>>(e@),
    }
}

/// Reads one piece unless an earlier piece already failed.
fn continue_reading(combo: &str, prev: Result<ComboState, String>, piece: &Vec<char>) -> (r: Result<
    ComboState,
    String,
>)
    ensures
        forall|s: Result<ComboState, Seq<char>>|
            reading_matches(prev, s) ==> reading_matches(
                r,
                match s {
                    Ok(st) => apply_piece(combo@, st, piece@),
                    Err(e) => Err(e),
                },
            ),
{
    match prev {
        Err(e) => Err(e),
        Ok(st) => read_piece(combo, st, piece),
    }
}

/// Parses a hotkey description such as `"ctrl+shift+b"`.
pub fn parse_combo(combo: &str) -> (r: Result<ParsedCombo, String>)
    ensures
        match r {
            Ok(p) => parse_combo_spec(combo@) == Ok::<ParsedCombo, Seq<char>>(p),
            Err(e) => parse_combo_spec(combo@) == Err::<ParsedCombo, Seq<char>>(e@),
        },
{
    let raw = chars_of(combo);
    let trimmed = trim_chars(&raw);
    let normalized = lower_chars(&trimmed);
    if normalized.len() == 0 {
        return Err(string_of("Hotkey combo cannot be empty"));
    }
    let ghost norm = normalized@;
    let ghost mut done: Seq<Seq<char>> = Seq::empty();
    let mut reading: Result<ComboState, String> = Ok(
        ComboState { ctrl: false, shift: false, alt: false, key: None },
    );
    let mut cur: Vec<char> = Vec::new();
    let n = normalized.len();
    let mut i: usize = 0;
    while i < n
        invariant
            n == normalized.len(),
            norm == normalized@,
            i <= n,
            split_spec(norm.take(i as int), '+') == done.push(cur@),
            reading_matches(reading, fold_pieces(combo@, done)),
        decreases n - i,
    {
        let c = normalized[i];
        let ghost prefix = norm.take(i + 1);
        assert(prefix.drop_last() =~= norm.take(i as int));
        assert(prefix.last() == c);
        if c == '+' {
            assert(done.push(cur@).drop_last() =~= done);
            reading = continue_reading(combo, reading, &cur);
            proof {
                done = done.push(cur@);
            }
            cur = Vec::new();
            assert(split_spec(prefix, '+') =~= done.push(cur@));
        } else {
            cur.push(c);
            assert(split_spec(prefix, '+') =~= done.push(cur@));
        }
        i = i + 1;
    }
    assert(norm.take(n as int) =~= norm);
    assert(done.push(cur@).drop_last() =~= done);
    let last = continue_reading(combo, reading, &cur);
    let fin = match last {
        Err(e) => {
            return Err(e);
        },
        Ok(s) => s,
    };
    match fin.key {
        None => Err(combo_error("Invalid hotkey combo '", combo, "': missing key")),
        Some(vk) => {
            if !(fin.ctrl || fin.shift || fin.alt) {
                Err(
                    combo_error(
                        "Invalid hotkey combo '",
                        combo,
                        "': at least one modifier is required",
                    ),
                )
            } else {
                let modifiers = MOD_NOREPEAT_VALUE + (if fin.ctrl {
                    MOD_CONTROL_VALUE
                } else {
                    0
                }) + (if fin.shift {
                    MOD_SHIFT_VALUE
                } else {
                    0
                }) + (if fin.alt {
                    MOD_ALT_VALUE
                } else {
                    0
                });
                Ok(ParsedCombo { modifiers, vk })
            }
        },
    }
}

/// Finishes a guarded run once the attempt to take `guard` has come back as
/// `acquired`: `Ok` when the guard was free and is now held, `Err` when it
/// was already held. When it was taken, runs `callback`, releases the guard
/// and returns `true`; otherwise returns `false` without running `callback`.
pub fn finish_guarded_invoke<F: FnOnce()>(
    guard: &AtomicBool,
    acquired: Result<bool, bool>,
    callback: F,
) -> (r: bool)
    requires
        callback.requires(()),
    ensures
        r == (acquired is Ok),
        r ==> callback.ensures((), ()),
{
    match acquired {
        Err(_) => false,
        Ok(_) => {
            callback();
            guard.store(false, Ordering::Release);
            true
        },
    }
}

/// Runs `callback` unless a run guarded by `guard` is already in progress.
///
/// Returns `false` without running `callback` when the guard is already
/// held (for instance by the same callback, re-entrantly); otherwise takes
/// the guard, runs `callback`, releases the guard and returns `true`.
/// Whether the guard is free is decided by the atomic, which nothing here
/// can observe; what follows each outcome is `finish_guarded_invoke`.
pub fn try_invoke_with_guard<F: FnOnce()>(guard: &AtomicBool, callback: F) -> (r: bool)
    requires
        callback.requires(()),
    ensures
        r ==> callback.ensures((), ()),
{
    let acquired = guard.compare_exchange(false, true, Ordering::AcqRel, Ordering::Acquire);
    finish_guarded_invoke(guard, acquired, callback)
}

/// What to do with the hotkey registration when the settings change.
#[derive(Debug, Clone, Copy, PartialEq, Eq, Structural)]
pub enum HotkeySyncAction {
    /// The hotkey is off: drop any registration.
    Clear,
    /// Register a new hotkey manager for the new combination.
    Build,
    /// Re-register the existing manager under the new combination.
    UpdateCombo,
    /// Nothing changed that needs the registration touched.
    Keep,
}

/// The action that brings the registration from `previous` to `next`.
pub open spec fn hotkey_sync_spec(previous: HotkeyConfig, next: HotkeyConfig, has_manager: bool) -> HotkeySyncAction {
    if !next.enabled {
        HotkeySyncAction::Clear
    } else if !previous.enabled {
        HotkeySyncAction::Build
    } else if !has_manager {
        HotkeySyncAction::Build
    } else if previous.combo@ != next.combo@ {
        HotkeySyncAction::UpdateCombo
    } else {
        HotkeySyncAction::Keep
    }
}

/// Properties of the registration update: turning the hotkey off always
/// clears it and nothing else does; an unchanged, enabled setting with a
/// manager in place touches nothing; a setting that stays enabled with a
/// manager is only re-registered, never rebuilt, and only when its
/// combination changed; with no manager (or newly enabled) one is built.
pub proof fn lemma_hotkey_sync_rules(previous: HotkeyConfig, next: HotkeyConfig, has_manager: bool)
    ensures
        ({
            let r = hotkey_sync_spec(previous, next, has_manager);
            &&& (r == HotkeySyncAction::Clear) == !next.enabled
            &&& next.enabled && previous.enabled && has_manager && previous.combo@ == next.combo@
                ==> r == HotkeySyncAction::Keep
            &&& next.enabled && previous.enabled && has_manager ==> (r
                == HotkeySyncAction::UpdateCombo) == (previous.combo@ != next.combo@)
            &&& next.enabled && (!previous.enabled || !has_manager) ==> r
                == HotkeySyncAction::Build
        }),
{
}

/// Decides how to bring the hotkey registration in line with new settings:
/// off clears it, newly on (or on without a manager) builds one, a changed
/// combination re-registers, anything else keeps it.
pub fn sync_hotkey_action(previous: &HotkeyConfig, next: &HotkeyConfig, has_manager: bool) -> (r:
    HotkeySyncAction)
    ensures
        r == hotkey_sync_spec(*previous, *next, has_manager),
{
    if !next.enabled {
        HotkeySyncAction::Clear
    } else if !previous.enabled {
        HotkeySyncAction::Build
    } else if !has_manager {
        HotkeySyncAction::Build
    } else if previous.combo != next.combo {
        HotkeySyncAction::UpdateCombo
    } else {
        HotkeySyncAction::Keep
    }
}

} // verus!
