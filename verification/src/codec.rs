//! Canonical text codec for the settings document.
//!
//! The settings file holds one JSON object in a fixed, canonical shape:
//!
//! `{"theme":"dark","autostart":false,"poll_interval_secs":5,"accent_color":"#7aa2f7"}`
//!
//! `spec_render_settings` is the mathematical rendering of a settings model
//! into that shape, and `spec_parse_settings` is the strict mathematical
//! parse of arbitrary text against it. The executable `render_settings` and
//! `parse_settings` are proved equal to them, and
//! `lemma_parse_render_round_trip` proves that parsing a rendered document
//! gives back the document.

use vstd::prelude::*;
use vstd::string::*;

use crate::errors::SettingsError;
use crate::settings::{
    is_hex_color, AppSettings, SettingsModel, Theme, POLL_INTERVAL_MAX, POLL_INTERVAL_MIN,
};

verus! {

/// How a parse fails: `Malformed` for text that is not structurally a
/// settings document, `BadValue` for a structurally readable document with a
/// field outside its constraint.
pub enum ParseFailure {
    Malformed,
    BadValue,
}

/// The error kind each parse failure surfaces as.
pub open spec fn parse_failure_error(pf: ParseFailure) -> SettingsError {
    match pf {
        ParseFailure::Malformed => SettingsError::JsonParse,
        ParseFailure::BadValue => SettingsError::Corrupted,
    }
}

// ---------------------------------------------------------------------------
// Fixed fragments of the canonical document.
// ---------------------------------------------------------------------------

pub open spec fn lit_obj_open() -> Seq<char> {
    "{\"theme\":\""@
}

pub open spec fn lit_autostart() -> Seq<char> {
    "\",\"autostart\":"@
}

pub open spec fn lit_poll() -> Seq<char> {
    ",\"poll_interval_secs\":"@
}

pub open spec fn lit_accent() -> Seq<char> {
    ",\"accent_color\":\""@
}

pub open spec fn lit_close() -> Seq<char> {
    "\"}"@
}

fn lit_obj_open_str() -> (r: &'static str)
    ensures
        r@ == lit_obj_open(),
{
    "{\"theme\":\""
}

fn lit_autostart_str() -> (r: &'static str)
    ensures
        r@ == lit_autostart(),
{
    "\",\"autostart\":"
}

fn lit_poll_str() -> (r: &'static str)
    ensures
        r@ == lit_poll(),
{
    ",\"poll_interval_secs\":"
}

fn lit_accent_str() -> (r: &'static str)
    ensures
        r@ == lit_accent(),
{
    ",\"accent_color\":\""
}

fn lit_close_str() -> (r: &'static str)
    ensures
        r@ == lit_close(),
{
    "\"}"
}

/// The word a theme renders as.
pub open spec fn theme_word(t: Theme) -> Seq<char> {
    match t {
        Theme::Light => "light"@,
        Theme::Dark => "dark"@,
        Theme::System => "system"@,
    }
}

fn theme_word_str(t: &Theme) -> (r: &'static str)
    ensures
        r@ == theme_word(*t),
{
    match t {
        Theme::Light => "light",
        Theme::Dark => "dark",
        Theme::System => "system",
    }
}

/// The word a toggle renders as.
pub open spec fn bool_word(b: bool) -> Seq<char> {
    if b {
        "true"@
    } else {
        "false"@
    }
}

fn bool_word_str(b: bool) -> (r: &'static str)
    ensures
        r@ == bool_word(b),
{
    if b {
        "true"
    } else {
        "false"
    }
}

// ---------------------------------------------------------------------------
// Decimal digits.
// ---------------------------------------------------------------------------

/// The digit character for a value in `[0, 9]`.
pub open spec fn digit_char(d: int) -> char {
    if d == 0 {
        '0'
    } else if d == 1 {
        '1'
    } else if d == 2 {
        '2'
    } else if d == 3 {
        '3'
    } else if d == 4 {
        '4'
    } else if d == 5 {
        '5'
    } else if d == 6 {
        '6'
    } else if d == 7 {
        '7'
    } else if d == 8 {
        '8'
    } else {
        '9'
    }
}

/// A decimal digit character.
pub open spec fn is_digit_char(c: char) -> bool {
    48 <= c as u32 && c as u32 <= 57
}

/// The value of a decimal digit character.
pub open spec fn digit_val(c: char) -> int {
    c as u32 - 48
}

/// The canonical decimal rendering of a non-negative integer: no sign, no
/// leading zeros (`0` renders as `0`).
pub open spec fn spec_dec(n: int) -> Seq<char>
    recommends
        n >= 0,
    decreases n,
{
    if n < 10 {
        seq![digit_char(n)]
    } else {
        spec_dec(n / 10).push(digit_char(n % 10))
    }
}

/// The value of a digit string read as a decimal number.
pub open spec fn dec_val(s: Seq<char>) -> int
    decreases s.len(),
{
    if s.len() == 0 {
        0
    } else {
        dec_val(s.drop_last()) * 10 + digit_val(s.last())
    }
}

/// Every character of `s` is a decimal digit.
pub open spec fn all_digits(s: Seq<char>) -> bool {
    forall|i: int| 0 <= i < s.len() ==> is_digit_char(s[i])
}

proof fn lemma_dec_val_nonneg(s: Seq<char>)
    requires
        all_digits(s),
    ensures
        dec_val(s) >= 0,
    decreases s.len(),
{
    if s.len() > 0 {
        assert(all_digits(s.drop_last()));
        lemma_dec_val_nonneg(s.drop_last());
    }
}

/// The canonical rendering of `n` is a non-empty digit string without a
/// leading zero (unless it is `0` itself) whose decimal value is `n`.
pub proof fn lemma_spec_dec_props(n: int)
    requires
        n >= 0,
    ensures
        spec_dec(n).len() >= 1,
        all_digits(spec_dec(n)),
        dec_val(spec_dec(n)) == n,
        n >= 10 ==> spec_dec(n)[0] != '0',
        n < 10 ==> spec_dec(n).len() == 1,
    decreases n,
{
    if n < 10 {
        let s = spec_dec(n);
        assert(s =~= seq![digit_char(n)]);
        assert(s.drop_last() =~= Seq::<char>::empty());
        assert(s.last() == digit_char(n));
        assert(digit_val(digit_char(n)) == n);
        assert(s.drop_last().len() == 0);
        assert(dec_val(s.drop_last()) == 0);
        assert(dec_val(s) == dec_val(s.drop_last()) * 10 + digit_val(s.last()));
    } else {
        let q = n / 10;
        let r = n % 10;
        assert(q >= 1 && 0 <= r < 10 && n == q * 10 + r) by (nonlinear_arith)
            requires
                n >= 10,
                q == n / 10,
                r == n % 10,
        ;
        lemma_spec_dec_props(q);
        let s = spec_dec(n);
        assert(s == spec_dec(q).push(digit_char(r)));
        assert(s.drop_last() =~= spec_dec(q));
        assert(s.last() == digit_char(r));
        assert(dec_val(s) == q * 10 + r);
        assert(s[0] == spec_dec(q)[0]);
        if q >= 10 {
            assert(s[0] != '0');
        } else {
            assert(spec_dec(q) == seq![digit_char(q)]);
            assert(s[0] == digit_char(q));
            assert(digit_char(q) as u32 == 48 + q);
        }
    }
}

proof fn lemma_digit_char_val(c: char)
    requires
        is_digit_char(c),
    ensures
        digit_char(digit_val(c)) == c,
        c != '0' ==> digit_val(c) >= 1,
{
    let u = c as u32;
    vstd::utf8::char_u32_cast(c, u);
    vstd::utf8::char_u32_cast('0', 48);
    vstd::utf8::char_u32_cast('1', 49);
    vstd::utf8::char_u32_cast('2', 50);
    vstd::utf8::char_u32_cast('3', 51);
    vstd::utf8::char_u32_cast('4', 52);
    vstd::utf8::char_u32_cast('5', 53);
    vstd::utf8::char_u32_cast('6', 54);
    vstd::utf8::char_u32_cast('7', 55);
    vstd::utf8::char_u32_cast('8', 56);
    vstd::utf8::char_u32_cast('9', 57);
}

proof fn lemma_dec_val_lower(s: Seq<char>)
    requires
        all_digits(s),
        s.len() >= 1,
        s[0] != '0',
    ensures
        dec_val(s) >= 1,
    decreases s.len(),
{
    if s.len() == 1 {
        assert(dec_val(s.drop_last()) == 0);
        lemma_digit_char_val(s[0]);
        assert(digit_val(s[0]) >= 1);
    } else {
        let p = s.drop_last();
        assert(p[0] == s[0]);
        lemma_dec_val_lower(p);
        assert(dec_val(p) * 10 >= 10) by (nonlinear_arith)
            requires
                dec_val(p) >= 1,
        ;
        assert(digit_val(s.last()) >= 0);
    }
}

/// A non-empty digit string without a leading zero (unless it is `0` alone)
/// is the canonical rendering of its own decimal value.
pub proof fn lemma_dec_canonical(s: Seq<char>)
    requires
        all_digits(s),
        s.len() >= 1,
        s.len() > 1 ==> s[0] != '0',
    ensures
        dec_val(s) >= 0,
        spec_dec(dec_val(s)) == s,
    decreases s.len(),
{
    lemma_dec_val_nonneg(s);
    if s.len() == 1 {
        let d = digit_val(s[0]);
        assert(dec_val(s.drop_last()) == 0);
        assert(dec_val(s) == d);
        assert(0 <= d < 10);
        lemma_digit_char_val(s[0]);
        assert(digit_char(d) == s[0]);
        assert(spec_dec(d) =~= s);
    } else {
        let p = s.drop_last();
        let d = digit_val(s.last());
        assert(all_digits(p));
        assert(p[0] == s[0]);
        lemma_dec_canonical(p);
        lemma_dec_val_lower(p);
        let v = dec_val(s);
        assert(v == dec_val(p) * 10 + d);
        assert(v >= 10) by (nonlinear_arith)
            requires
                dec_val(p) >= 1,
                d >= 0,
                v == dec_val(p) * 10 + d,
        ;
        vstd::arithmetic::div_mod::lemma_fundamental_div_mod_converse(v, 10, dec_val(p), d);
        assert(v / 10 == dec_val(p) && v % 10 == d);
        assert(spec_dec(v) == spec_dec(dec_val(p)).push(digit_char(d)));
        lemma_digit_char_val(s.last());
        assert(digit_char(d) == s.last());
        assert(p.push(s.last()) =~= s);
    }
}

// ---------------------------------------------------------------------------
// Cursor primitives over text.
// ---------------------------------------------------------------------------

/// The literal `lit` stands in `t` at position `i`.
pub open spec fn lit_at(t: Seq<char>, i: int, lit: Seq<char>) -> bool {
    &&& 0 <= i
    &&& i + lit.len() <= t.len()
    &&& t.subrange(i, i + lit.len() as int) == lit
}

/// The first position at or after `i` that does not hold a decimal digit.
pub open spec fn spec_scan_digits(t: Seq<char>, i: int) -> int
    recommends
        0 <= i <= t.len(),
    decreases t.len() - i,
{
    if i < 0 || i >= t.len() || !is_digit_char(t[i]) {
        i
    } else {
        spec_scan_digits(t, i + 1)
    }
}

/// Everything between `i` and the scan result is a digit, and the scan result
/// itself is the end of the text or a non-digit.
pub proof fn lemma_scan_digits_props(t: Seq<char>, i: int)
    requires
        0 <= i <= t.len(),
    ensures
        i <= spec_scan_digits(t, i) <= t.len(),
        forall|k: int| i <= k < spec_scan_digits(t, i) ==> is_digit_char(t[k]),
        spec_scan_digits(t, i) < t.len() ==> !is_digit_char(t[spec_scan_digits(t, i)]),
    decreases t.len() - i,
{
    if i < t.len() && is_digit_char(t[i]) {
        lemma_scan_digits_props(t, i + 1);
    }
}

/// The scan result is the only position with the properties above.
pub proof fn lemma_scan_digits_exact(t: Seq<char>, i: int, j: int)
    requires
        0 <= i <= j <= t.len(),
        forall|k: int| i <= k < j ==> is_digit_char(t[k]),
        j < t.len() ==> !is_digit_char(t[j]),
    ensures
        spec_scan_digits(t, i) == j,
    decreases t.len() - i,
{
    if i < t.len() && is_digit_char(t[i]) {
        assert(i < j);
        lemma_scan_digits_exact(t, i + 1, j);
    }
}

/// Whether `lit` stands in `t` at position `i`; `Some` carries the position
/// just past it.
fn expect_lit(t: &str, i: usize, lit: &str) -> (r: Option<usize>)
    requires
        i <= t@.len(),
    ensures
        match r {
            Some(j) => lit_at(t@, i as int, lit@) && j == i + lit@.len(),
            None => !lit_at(t@, i as int, lit@),
        },
{
    let tl = t.unicode_len();
    let ll = lit.unicode_len();
    if ll > tl - i {
        return None;
    }
    let mut k: usize = 0;
    while k < ll
        invariant
            i + ll <= tl,
            tl == t@.len(),
            ll == lit@.len(),
            0 <= k <= ll,
            forall|q: int| 0 <= q < k ==> t@[i + q] == lit@[q],
        decreases ll - k,
    {
        if t.get_char(i + k) != lit.get_char(k) {
            proof {
                let sub = t@.subrange(i as int, i + lit@.len() as int);
                assert(sub[k as int] == t@[i + k]);
                assert(sub[k as int] != lit@[k as int]);
            }
            return None;
        }
        k += 1;
    }
    proof {
        assert(t@.subrange(i as int, i + lit@.len() as int) =~= lit@);
    }
    Some(i + ll)
}

/// Whether position `j` of `t` holds a decimal digit.
fn digit_at(t: &str, j: usize) -> (r: bool)
    requires
        j <= t@.len(),
    ensures
        r == (j < t@.len() && is_digit_char(t@[j as int])),
{
    if j >= t.unicode_len() {
        return false;
    }
    let u = t.get_char(j) as u32;
    48 <= u && u <= 57
}

/// The first position at or after `i` in `t` that does not hold a digit.
fn scan_digits(t: &str, i: usize) -> (j: usize)
    requires
        i <= t@.len(),
    ensures
        j == spec_scan_digits(t@, i as int),
        i <= j <= t@.len(),
{
    let tl = t.unicode_len();
    let mut j: usize = i;
    while digit_at(t, j)
        invariant
            i <= j <= tl,
            tl == t@.len(),
            spec_scan_digits(t@, i as int) == spec_scan_digits(t@, j as int),
        decreases tl - j,
    {
        j += 1;
    }
    proof {
        lemma_scan_digits_props(t@, j as int);
    }
    j
}

// ---------------------------------------------------------------------------
// Parsing.
// ---------------------------------------------------------------------------

/// The theme word standing in `t` at position `i`, with the position just
/// past it. No theme word is a prefix of another, so at most one matches.
pub open spec fn spec_parse_theme(t: Seq<char>, i: int) -> Option<(Theme, int)> {
    if lit_at(t, i, "light"@) {
        Some((Theme::Light, i + "light"@.len() as int))
    } else if lit_at(t, i, "dark"@) {
        Some((Theme::Dark, i + "dark"@.len() as int))
    } else if lit_at(t, i, "system"@) {
        Some((Theme::System, i + "system"@.len() as int))
    } else {
        None
    }
}

/// The toggle word standing in `t` at position `i`, with the position just
/// past it.
pub open spec fn spec_parse_bool(t: Seq<char>, i: int) -> Option<(bool, int)> {
    if lit_at(t, i, "true"@) {
        Some((true, i + "true"@.len() as int))
    } else if lit_at(t, i, "false"@) {
        Some((false, i + "false"@.len() as int))
    } else {
        None
    }
}

/// Strict parse of `t` as a canonical settings document. `Malformed` when the
/// fixed shape is broken anywhere (including trailing text, a missing or
/// zero-padded number, or a foreign key); `BadValue` when the shape is intact
/// but `poll_interval_secs` lies outside its range or `accent_color` is not a
/// hex color.
pub open spec fn spec_parse_settings(t: Seq<char>) -> Result<SettingsModel, ParseFailure> {
    if !lit_at(t, 0, lit_obj_open()) {
        Err(ParseFailure::Malformed)
    } else {
        let i1 = lit_obj_open().len() as int;
        match spec_parse_theme(t, i1) {
            None => Err(ParseFailure::Malformed),
            Some((theme, i2)) => {
                if !lit_at(t, i2, lit_autostart()) {
                    Err(ParseFailure::Malformed)
                } else {
                    let i3 = i2 + lit_autostart().len() as int;
                    match spec_parse_bool(t, i3) {
                        None => Err(ParseFailure::Malformed),
                        Some((autostart, i4)) => {
                            if !lit_at(t, i4, lit_poll()) {
                                Err(ParseFailure::Malformed)
                            } else {
                                let i5 = i4 + lit_poll().len() as int;
                                let j = spec_scan_digits(t, i5);
                                if j == i5 || (j - i5 > 1 && t[i5] == '0') {
                                    Err(ParseFailure::Malformed)
                                } else {
                                    let v = dec_val(t.subrange(i5, j));
                                    if v < POLL_INTERVAL_MIN as int || v > POLL_INTERVAL_MAX as int {
                                        Err(ParseFailure::BadValue)
                                    } else if !lit_at(t, j, lit_accent()) {
                                        Err(ParseFailure::Malformed)
                                    } else {
                                        let i6 = j + lit_accent().len() as int;
                                        if i6 + 7 > t.len() {
                                            Err(ParseFailure::Malformed)
                                        } else {
                                            let acc = t.subrange(i6, i6 + 7);
                                            if !is_hex_color(acc) {
                                                Err(ParseFailure::BadValue)
                                            } else if !lit_at(t, i6 + 7, lit_close()) {
                                                Err(ParseFailure::Malformed)
                                            } else if i6 + 7 + lit_close().len() as int
                                                != t.len() {
                                                Err(ParseFailure::Malformed)
                                            } else {
                                                Ok(
                                                    SettingsModel {
                                                        theme,
                                                        autostart,
                                                        poll_interval_secs: v,
                                                        accent_color: acc,
                                                    },
                                                )
                                            }
                                        }
                                    }
                                }
                            }
                        },
                    }
                }
            },
        }
    }
}

/// The theme word standing in `t` at position `i`.
fn parse_theme(t: &str, i: usize) -> (r: Option<(Theme, usize)>)
    requires
        i <= t@.len(),
    ensures
        match r {
            Some((th, j)) => spec_parse_theme(t@, i as int) == Some((th, j as int)) && j
                <= t@.len(),
            None => spec_parse_theme(t@, i as int) is None,
        },
{
    if let Some(j) = expect_lit(t, i, "light") {
        return Some((Theme::Light, j));
    }
    if let Some(j) = expect_lit(t, i, "dark") {
        return Some((Theme::Dark, j));
    }
    if let Some(j) = expect_lit(t, i, "system") {
        return Some((Theme::System, j));
    }
    None
}

/// The toggle word standing in `t` at position `i`.
fn parse_bool(t: &str, i: usize) -> (r: Option<(bool, usize)>)
    requires
        i <= t@.len(),
    ensures
        match r {
            Some((b, j)) => spec_parse_bool(t@, i as int) == Some((b, j as int)) && j <= t@.len(),
            None => spec_parse_bool(t@, i as int) is None,
        },
{
    if let Some(j) = expect_lit(t, i, "true") {
        return Some((true, j));
    }
    if let Some(j) = expect_lit(t, i, "false") {
        return Some((false, j));
    }
    None
}

/// Parse text as a settings document, strictly against the canonical shape.
/// The result is exactly what the mathematical parse gives: the parsed
/// document, or `JsonParse` for broken shape, or `Corrupted` for a field
/// outside its constraint.
pub fn parse_settings(t: &str) -> (r: Result<AppSettings, SettingsError>)
    ensures
        match spec_parse_settings(t@) {
            Ok(m) => r matches Ok(s) && s@ == m,
            Err(pf) => r matches Err(e) && e == parse_failure_error(pf),
        },
        r matches Ok(s) ==> crate::settings::valid_model(s@),
{
    let i1 = match expect_lit(t, 0, lit_obj_open_str()) {
        Some(j) => j,
        None => {
            return Err(SettingsError::JsonParse);
        },
    };
    let (theme, i2) = match parse_theme(t, i1) {
        Some(p) => p,
        None => {
            return Err(SettingsError::JsonParse);
        },
    };
    let i3 = match expect_lit(t, i2, lit_autostart_str()) {
        Some(j) => j,
        None => {
            return Err(SettingsError::JsonParse);
        },
    };
    let (autostart, i4) = match parse_bool(t, i3) {
        Some(p) => p,
        None => {
            return Err(SettingsError::JsonParse);
        },
    };
    let i5 = match expect_lit(t, i4, lit_poll_str()) {
        Some(j) => j,
        None => {
            return Err(SettingsError::JsonParse);
        },
    };
    let j = scan_digits(t, i5);
    if j == i5 {
        return Err(SettingsError::JsonParse);
    }
    proof {
        lemma_scan_digits_props(t@, i5 as int);
    }
    if j - i5 > 1 && t.get_char(i5) == '0' {
        return Err(SettingsError::JsonParse);
    }
    let ghost run = t@.subrange(i5 as int, j as int);
    proof {
        assert(all_digits(run));
        lemma_dec_val_nonneg(run);
    }
    let mut acc: u32 = 0;
    let mut k: usize = i5;
    while k < j
        invariant
            i5 <= k <= j <= t@.len(),
            forall|q: int| i5 <= q < j ==> is_digit_char(t@[q]),
            run == t@.subrange(i5 as int, j as int),
            acc <= 36009,
            ({
                let p = t@.subrange(i5 as int, k as int);
                &&& dec_val(p) >= 0
                &&& (dec_val(p) <= 3600 ==> acc == dec_val(p))
                &&& (dec_val(p) > 3600 ==> acc > 3600)
            }),
        decreases j - k,
    {
        let c = t.get_char(k);
        let u = c as u32;
        let d = u - 48;
        proof {
            let p = t@.subrange(i5 as int, k as int);
            let p2 = t@.subrange(i5 as int, (k + 1) as int);
            assert(p2.drop_last() =~= p);
            assert(p2.last() == t@[k as int]);
            assert(dec_val(p2) == dec_val(p) * 10 + digit_val(t@[k as int]));
            assert(dec_val(p) * 10 >= 0) by (nonlinear_arith)
                requires
                    dec_val(p) >= 0,
            ;
            assert(dec_val(p) > 3600 ==> dec_val(p) * 10 + digit_val(t@[k as int]) > 3600) by (
            nonlinear_arith)
                requires
                    digit_val(t@[k as int]) >= 0,
            ;
        }
        if acc <= 3600 {
            acc = acc * 10 + d;
        }
        k += 1;
    }
    proof {
        assert(t@.subrange(i5 as int, k as int) == run);
    }
    if acc < POLL_INTERVAL_MIN || acc > POLL_INTERVAL_MAX {
        return Err(SettingsError::Corrupted);
    }
    let i6 = match expect_lit(t, j, lit_accent_str()) {
        Some(p) => p,
        None => {
            return Err(SettingsError::JsonParse);
        },
    };
    if t.unicode_len() - i6 < 7 {
        return Err(SettingsError::JsonParse);
    }
    let acc_str = t.substring_char(i6, i6 + 7);
    if !crate::settings::is_hex_color_str(acc_str) {
        return Err(SettingsError::Corrupted);
    }
    let i7 = i6 + 7;
    let i8 = match expect_lit(t, i7, lit_close_str()) {
        Some(p) => p,
        None => {
            return Err(SettingsError::JsonParse);
        },
    };
    if i8 != t.unicode_len() {
        return Err(SettingsError::JsonParse);
    }
    let accent = String::from_str(acc_str);
    Ok(AppSettings { theme, autostart, poll_interval_secs: acc, accent_color: accent })
}

// ---------------------------------------------------------------------------
// Rendering.
// ---------------------------------------------------------------------------

/// The canonical text of a settings model.
pub open spec fn spec_render_settings(m: SettingsModel) -> Seq<char> {
    lit_obj_open() + theme_word(m.theme) + lit_autostart() + bool_word(m.autostart) + lit_poll()
        + spec_dec(m.poll_interval_secs) + lit_accent() + m.accent_color + lit_close()
}

fn digit_str(d: u32) -> (r: &'static str)
    requires
        d < 10,
    ensures
        r@ == seq![digit_char(d as int)],
{
    let r: &'static str = if d == 0 {
        "0"
    } else if d == 1 {
        "1"
    } else if d == 2 {
        "2"
    } else if d == 3 {
        "3"
    } else if d == 4 {
        "4"
    } else if d == 5 {
        "5"
    } else if d == 6 {
        "6"
    } else if d == 7 {
        "7"
    } else if d == 8 {
        "8"
    } else {
        "9"
    };
    proof {
        reveal_strlit("0");
        reveal_strlit("1");
        reveal_strlit("2");
        reveal_strlit("3");
        reveal_strlit("4");
        reveal_strlit("5");
        reveal_strlit("6");
        reveal_strlit("7");
        reveal_strlit("8");
        reveal_strlit("9");
        assert(r@ =~= seq![digit_char(d as int)]);
    }
    r
}

/// The canonical decimal rendering of `n`.
fn render_u32(n: u32) -> (r: String)
    ensures
        r@ == spec_dec(n as int),
    decreases n,
{
    if n < 10 {
        String::from_str(digit_str(n))
    } else {
        proof {
            assert(n / 10 < n && n / 10 >= 1) by (nonlinear_arith)
                requires
                    n >= 10,
            ;
        }
        let mut s = render_u32(n / 10);
        s.append(digit_str(n % 10));
        proof {
            assert(spec_dec((n / 10) as int).push(digit_char((n % 10) as int)) =~= spec_dec(
                (n / 10) as int,
            ) + seq![digit_char((n % 10) as int)]);
        }
        s
    }
}

/// Round-trip law: strictly parsing the canonical rendering of any valid
/// settings document yields exactly that document. Together with the store
/// contracts this gives: saving a validated document and then loading the
/// store returns a document equal to the one saved.
pub proof fn lemma_parse_render_round_trip(m: SettingsModel)
    requires
        crate::settings::valid_model(m),
    ensures
        spec_parse_settings(spec_render_settings(m)) == Ok::<SettingsModel, ParseFailure>(m),
{
    reveal_strlit("{\"theme\":\"");
    reveal_strlit("\",\"autostart\":");
    reveal_strlit(",\"poll_interval_secs\":");
    reveal_strlit(",\"accent_color\":\"");
    reveal_strlit("\"}");
    reveal_strlit("light");
    reveal_strlit("dark");
    reveal_strlit("system");
    reveal_strlit("true");
    reveal_strlit("false");
    let t = spec_render_settings(m);
    let a = lit_obj_open();
    let tw = theme_word(m.theme);
    let b = lit_autostart();
    let bw = bool_word(m.autostart);
    let c = lit_poll();
    let d = spec_dec(m.poll_interval_secs);
    let e = lit_accent();
    let acc = m.accent_color;
    let f = lit_close();
    lemma_spec_dec_props(m.poll_interval_secs);
    let i1 = a.len() as int;
    let i2 = i1 + tw.len() as int;
    let i3 = i2 + b.len() as int;
    let i4 = i3 + bw.len() as int;
    let i5 = i4 + c.len() as int;
    let j = i5 + d.len() as int;
    let i6 = j + e.len() as int;
    let i7 = i6 + 7;
    let i8 = i7 + f.len() as int;
    assert(acc.len() == 7);
    assert(t.len() == i8);
    assert(t.subrange(0, i1) =~= a);
    assert(t.subrange(i1, i2) =~= tw);
    assert(t.subrange(i2, i3) =~= b);
    assert(t.subrange(i3, i4) =~= bw);
    assert(t.subrange(i4, i5) =~= c);
    assert(t.subrange(i5, j) =~= d);
    assert(t.subrange(j, i6) =~= e);
    assert(t.subrange(i6, i7) =~= acc);
    assert(t.subrange(i7, i8) =~= f);
    assert(lit_at(t, 0, lit_obj_open()));
    match m.theme {
        Theme::Light => {
            assert(lit_at(t, i1, "light"@));
            assert(spec_parse_theme(t, i1) == Some((Theme::Light, i2)));
        },
        Theme::Dark => {
            assert(t[i1] == tw[0]);
            assert(!lit_at(t, i1, "light"@)) by {
                if lit_at(t, i1, "light"@) {
                    assert(t.subrange(i1, i1 + 5)[0] == "light"@[0]);
                    assert(false);
                }
            }
            assert(lit_at(t, i1, "dark"@));
            assert(spec_parse_theme(t, i1) == Some((Theme::Dark, i2)));
        },
        Theme::System => {
            assert(t[i1] == tw[0]);
            assert(!lit_at(t, i1, "light"@)) by {
                if lit_at(t, i1, "light"@) {
                    assert(t.subrange(i1, i1 + 5)[0] == "light"@[0]);
                    assert(false);
                }
            }
            assert(!lit_at(t, i1, "dark"@)) by {
                if lit_at(t, i1, "dark"@) {
                    assert(t.subrange(i1, i1 + 4)[0] == "dark"@[0]);
                    assert(false);
                }
            }
            assert(lit_at(t, i1, "system"@));
            assert(spec_parse_theme(t, i1) == Some((Theme::System, i2)));
        },
    }
    assert(lit_at(t, i2, lit_autostart()));
    if m.autostart {
        assert(lit_at(t, i3, "true"@));
        assert(spec_parse_bool(t, i3) == Some((true, i4)));
    } else {
        assert(t[i3] == bw[0]);
        assert(!lit_at(t, i3, "true"@)) by {
            if lit_at(t, i3, "true"@) {
                assert(t.subrange(i3, i3 + 4)[0] == "true"@[0]);
                assert(false);
            }
        }
        assert(lit_at(t, i3, "false"@));
        assert(spec_parse_bool(t, i3) == Some((false, i4)));
    }
    assert(lit_at(t, i4, lit_poll()));
    assert(forall|k: int| i5 <= k < j ==> is_digit_char(t[k])) by {
        assert forall|k: int| i5 <= k < j implies is_digit_char(t[k]) by {
            assert(t.subrange(i5, j)[k - i5] == t[k]);
            assert(d[k - i5] == t[k]);
        }
    }
    assert(t[j] == e[0]);
    assert(!is_digit_char(t[j]));
    lemma_scan_digits_exact(t, i5, j);
    assert(spec_scan_digits(t, i5) == j);
    assert(j != i5);
    if j - i5 > 1 {
        assert(d.len() > 1);
        assert(m.poll_interval_secs >= 10);
        assert(t[i5] == d[0]);
        assert(t[i5] != '0');
    }
    assert(dec_val(t.subrange(i5, j)) == m.poll_interval_secs);
    assert(lit_at(t, j, lit_accent()));
    assert(i6 + 7 <= t.len());
    assert(crate::settings::is_hex_color(t.subrange(i6, i6 + 7)));
    assert(lit_at(t, i6 + 7, lit_close()));
    assert(i6 + 7 + lit_close().len() as int == t.len());
    assert(spec_parse_settings(t) == Ok::<SettingsModel, ParseFailure>(m));
}

/// Canonicity law, the converse of the round trip: the strict parse accepts
/// only the canonical rendering of a valid document, and the document it
/// returns renders back to exactly the parsed text.
pub proof fn lemma_parse_canonical(t: Seq<char>, m: SettingsModel)
    requires
        spec_parse_settings(t) == Ok::<SettingsModel, ParseFailure>(m),
    ensures
        crate::settings::valid_model(m),
        t == spec_render_settings(m),
{
    let a = lit_obj_open();
    let i1 = a.len() as int;
    let tw = theme_word(m.theme);
    let b = lit_autostart();
    let bw = bool_word(m.autostart);
    let c = lit_poll();
    let e = lit_accent();
    let f = lit_close();
    assert(lit_at(t, 0, a));
    let parsed_theme = spec_parse_theme(t, i1);
    assert(parsed_theme is Some);
    let (theme, i2) = parsed_theme->0;
    assert(theme == m.theme);
    assert(t.subrange(i1, i2) == tw && i2 == i1 + tw.len()) by {
        if lit_at(t, i1, "light"@) {
        } else if lit_at(t, i1, "dark"@) {
        } else {
        }
    }
    assert(lit_at(t, i2, b));
    let i3 = i2 + b.len() as int;
    let parsed_bool = spec_parse_bool(t, i3);
    assert(parsed_bool is Some);
    let (autostart, i4) = parsed_bool->0;
    assert(autostart == m.autostart);
    assert(t.subrange(i3, i4) == bw && i4 == i3 + bw.len()) by {
        if lit_at(t, i3, "true"@) {
        }
    }
    assert(lit_at(t, i4, c));
    let i5 = i4 + c.len() as int;
    let j = spec_scan_digits(t, i5);
    lemma_scan_digits_props(t, i5);
    let run = t.subrange(i5, j);
    assert(j != i5);
    assert(all_digits(run)) by {
        assert forall|q: int| 0 <= q < run.len() implies is_digit_char(run[q]) by {
            assert(run[q] == t[i5 + q]);
        }
    }
    assert(run.len() > 1 ==> run[0] != '0');
    lemma_dec_canonical(run);
    assert(m.poll_interval_secs == dec_val(run));
    assert(spec_dec(m.poll_interval_secs) == run);
    assert(POLL_INTERVAL_MIN as int <= m.poll_interval_secs <= POLL_INTERVAL_MAX as int);
    assert(lit_at(t, j, e));
    let i6 = j + e.len() as int;
    let acc = t.subrange(i6, i6 + 7);
    assert(crate::settings::is_hex_color(acc));
    assert(m.accent_color == acc);
    let i7 = i6 + 7;
    assert(lit_at(t, i7, f));
    let i8 = i7 + f.len() as int;
    assert(i8 == t.len());
    assert(t =~= a + tw + b + bw + c + run + e + acc + f) by {
        assert forall|q: int| 0 <= q < t.len() implies t[q] == (a + tw + b + bw + c + run + e + acc
            + f)[q] by {
            if q < i1 {
                assert(t.subrange(0, i1)[q] == t[q]);
            } else if q < i2 {
                assert(t.subrange(i1, i2)[q - i1] == t[q]);
            } else if q < i3 {
                assert(t.subrange(i2, i3)[q - i2] == t[q]);
            } else if q < i4 {
                assert(t.subrange(i3, i4)[q - i3] == t[q]);
            } else if q < i5 {
                assert(t.subrange(i4, i5)[q - i4] == t[q]);
            } else if q < j {
                assert(t.subrange(i5, j)[q - i5] == t[q]);
            } else if q < i6 {
                assert(t.subrange(j, i6)[q - j] == t[q]);
            } else if q < i7 {
                assert(t.subrange(i6, i7)[q - i6] == t[q]);
            } else {
                assert(t.subrange(i7, i8)[q - i7] == t[q]);
            }
        }
    }
}

/// Render a settings document into its canonical text.
pub fn render_settings(s: &AppSettings) -> (r: String)
    ensures
        r@ == spec_render_settings(s@),
{
    let mut out = String::new();
    out.append(lit_obj_open_str());
    out.append(theme_word_str(&s.theme));
    out.append(lit_autostart_str());
    out.append(bool_word_str(s.autostart));
    out.append(lit_poll_str());
    let digits = render_u32(s.poll_interval_secs);
    out.append(digits.as_str());
    out.append(lit_accent_str());
    out.append(s.accent_color.as_str());
    out.append(lit_close_str());
    proof {
        assert(out@ =~= spec_render_settings(s@));
    }
    out
}

} // verus!
