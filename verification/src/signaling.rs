//! The signaling wire format: JSON text with an `action` discriminator.
//!
//! Parsing is defined by the spec functions here — a scanner over the
//! character sequence — and the executable parser returns exactly what they
//! say. Field names are matched literally (no escapes in keys), unknown
//! members are ignored, the first member of a name wins, and a value is
//! delimited by quoted strings and balanced brackets.

use vstd::prelude::*;
use vstd::utf8::encode_utf8;
use crate::message::{ClientMessage, ServerMessage, TransportOptions};
use crate::router_dispatch::MediaKind;
use crate::uuids::{ConsumerId, ProducerId};

verus! {

/// JSON whitespace.
pub open spec fn is_ws(c: char) -> bool {
    c == ' ' || c == '\t' || c == '\n' || c == '\r'
}

/// The first index at or after `i` holding a non-whitespace character.
pub open spec fn spec_skip_ws(s: Seq<char>, i: int) -> int
    decreases s.len() - i when 0 <= i <= s.len()
{
    if i < s.len() && is_ws(s[i]) {
        spec_skip_ws(s, i + 1)
    } else {
        i
    }
}

/// Skipping whitespace stays within the text and never goes backwards.
pub proof fn lemma_skip_ws_bounds(s: Seq<char>, i: int)
    requires
        0 <= i <= s.len(),
    ensures
        i <= spec_skip_ws(s, i) <= s.len(),
    decreases s.len() - i,
{
    if i < s.len() && is_ws(s[i]) {
        lemma_skip_ws_bounds(s, i + 1);
    }
}

/// The index after the string literal starting at the quote at `i - 1`: `i`
/// is inside the string; a backslash skips the next character.
pub open spec fn spec_string_end(s: Seq<char>, i: int) -> Option<int>
    decreases s.len() - i when 0 <= i <= s.len()
{
    if i >= s.len() {
        None
    } else if s[i] == '"' {
        Some(i + 1)
    } else if s[i] == '\\' {
        if i + 2 <= s.len() {
            spec_string_end(s, i + 2)
        } else {
            None
        }
    } else {
        spec_string_end(s, i + 1)
    }
}

/// A found string end lies within the text, after the start.
pub proof fn lemma_string_end_bounds(s: Seq<char>, i: int)
    requires
        0 <= i <= s.len(),
    ensures
        spec_string_end(s, i) matches Some(e) ==> i < e <= s.len(),
    decreases s.len() - i,
{
    if i < s.len() {
        if s[i] == '"' {
        } else if s[i] == '\\' {
            if i + 2 <= s.len() {
                lemma_string_end_bounds(s, i + 2);
            }
        } else {
            lemma_string_end_bounds(s, i + 1);
        }
    }
}

/// The index after a bracketed value: `i` is inside it, `depth` brackets are
/// open. Quoted strings are skipped whole; bracket kinds are counted, not
/// cross-matched.
pub open spec fn spec_container_end(s: Seq<char>, i: int, depth: int) -> Option<int>
    decreases s.len() - i when 0 <= i <= s.len()
{
    if i >= s.len() || depth <= 0 {
        None
    } else if s[i] == '"' {
        match spec_string_end(s, i + 1) {
            Some(e) => if e <= i || e > s.len() {
                None
            } else {
                spec_container_end(s, e, depth)
            },
            None => None,
        }
    } else if s[i] == '{' || s[i] == '[' {
        spec_container_end(s, i + 1, depth + 1)
    } else if s[i] == '}' || s[i] == ']' {
        if depth == 1 {
            Some(i + 1)
        } else {
            spec_container_end(s, i + 1, depth - 1)
        }
    } else {
        spec_container_end(s, i + 1, depth)
    }
}

/// A found container end lies within the text, after the start.
pub proof fn lemma_container_end_bounds(s: Seq<char>, i: int, depth: int)
    requires
        0 <= i <= s.len(),
    ensures
        spec_container_end(s, i, depth) matches Some(e) ==> i < e <= s.len(),
    decreases s.len() - i,
{
    if i < s.len() && depth > 0 {
        if s[i] == '"' {
            lemma_string_end_bounds(s, i + 1);
            match spec_string_end(s, i + 1) {
                Some(e) => {
                    if i < e <= s.len() {
                        lemma_container_end_bounds(s, e, depth);
                    }
                },
                None => {},
            }
        } else if s[i] == '{' || s[i] == '[' {
            lemma_container_end_bounds(s, i + 1, depth + 1);
        } else if s[i] == '}' || s[i] == ']' {
            if depth != 1 {
                lemma_container_end_bounds(s, i + 1, depth - 1);
            }
        } else {
            lemma_container_end_bounds(s, i + 1, depth);
        }
    }
}

/// Whether a character ends an unquoted primitive value.
pub open spec fn is_delim(c: char) -> bool {
    c == ',' || c == '}' || c == ']' || is_ws(c)
}

/// The index after the primitive value starting at `i`: the run of
/// non-delimiter characters.
pub open spec fn spec_prim_end(s: Seq<char>, i: int) -> int
    decreases s.len() - i when 0 <= i <= s.len()
{
    if i < s.len() && !is_delim(s[i]) {
        spec_prim_end(s, i + 1)
    } else {
        i
    }
}

/// A primitive's end lies within the text, at or after the start.
pub proof fn lemma_prim_end_bounds(s: Seq<char>, i: int)
    requires
        0 <= i <= s.len(),
    ensures
        i <= spec_prim_end(s, i) <= s.len(),
    decreases s.len() - i,
{
    if i < s.len() && !is_delim(s[i]) {
        lemma_prim_end_bounds(s, i + 1);
    }
}

/// The index after the JSON value starting at `i`: a quoted string, a
/// bracketed container, or a non-empty primitive run.
pub open spec fn spec_value_end(s: Seq<char>, i: int) -> Option<int> {
    if !(0 <= i < s.len()) {
        None
    } else if s[i] == '"' {
        spec_string_end(s, i + 1)
    } else if s[i] == '{' || s[i] == '[' {
        spec_container_end(s, i + 1, 1)
    } else if is_delim(s[i]) {
        None
    } else {
        Some(spec_prim_end(s, i))
    }
}

/// A found value end lies within the text, after the start.
pub proof fn lemma_value_end_bounds(s: Seq<char>, i: int)
    requires
        0 <= i,
    ensures
        spec_value_end(s, i) matches Some(e) ==> i < e <= s.len(),
{
    if 0 <= i < s.len() {
        if s[i] == '"' {
            lemma_string_end_bounds(s, i + 1);
        } else if s[i] == '{' || s[i] == '[' {
            lemma_container_end_bounds(s, i + 1, 1);
        } else if !is_delim(s[i]) {
            lemma_prim_end_bounds(s, i + 1);
        }
    }
}

/// The index after the member list and closing brace of the object whose
/// members start at `i` (whitespace already skipped): `i` sits on `}` or on
/// the opening quote of the first member's name. Each member is a quoted
/// name, a colon and a value; members are separated by commas.
pub open spec fn spec_object_rest(s: Seq<char>, i: int) -> Option<int>
    decreases s.len() - i when 0 <= i <= s.len()
{
    if i >= s.len() {
        None
    } else if s[i] == '}' {
        Some(i + 1)
    } else if s[i] == '"' {
        match spec_string_end(s, i + 1) {
            Some(ke) => if !(i + 1 < ke <= s.len()) {
                None
            } else {
                let c = spec_skip_ws(s, ke);
                if !(ke <= c <= s.len()) {
                    None
                } else if c < s.len() && s[c] == ':' {
                    let v = spec_skip_ws(s, c + 1);
                    if !(c + 1 <= v <= s.len()) {
                        None
                    } else {
                        match spec_value_end(s, v) {
                            Some(ve) => if !(v < ve <= s.len()) {
                                None
                            } else {
                                let d = spec_skip_ws(s, ve);
                                if !(ve <= d <= s.len()) {
                                    None
                                } else if d < s.len() && s[d] == ',' {
                                    let m = spec_skip_ws(s, d + 1);
                                    if !(d + 1 <= m <= s.len()) {
                                        None
                                    } else {
                                        spec_object_rest(s, m)
                                    }
                                } else if d < s.len() && s[d] == '}' {
                                    Some(d + 1)
                                } else {
                                    None
                                }
                            },
                            None => None,
                        }
                    }
                } else {
                    None
                }
            },
            None => None,
        }
    } else {
        None
    }
}

/// The value range of the first member named `key` in the member list
/// starting at `i`, walking the members exactly as [`spec_object_rest`] does.
/// Member names are matched on their raw characters.
pub open spec fn spec_find_key(s: Seq<char>, i: int, key: Seq<char>) -> Option<(int, int)>
    decreases s.len() - i when 0 <= i <= s.len()
{
    if i >= s.len() {
        None
    } else if s[i] == '}' {
        None
    } else if s[i] == '"' {
        match spec_string_end(s, i + 1) {
            Some(ke) => if !(i + 1 < ke <= s.len()) {
                None
            } else {
                let c = spec_skip_ws(s, ke);
                if !(ke <= c <= s.len()) {
                    None
                } else if c < s.len() && s[c] == ':' {
                    let v = spec_skip_ws(s, c + 1);
                    if !(c + 1 <= v <= s.len()) {
                        None
                    } else {
                        match spec_value_end(s, v) {
                            Some(ve) => if !(v < ve <= s.len()) {
                                None
                            } else if s.subrange(i + 1, ke - 1) == key {
                                Some((v, ve))
                            } else {
                                let d = spec_skip_ws(s, ve);
                                if !(ve <= d <= s.len()) {
                                    None
                                } else if d < s.len() && s[d] == ',' {
                                    let m = spec_skip_ws(s, d + 1);
                                    if !(d + 1 <= m <= s.len()) {
                                        None
                                    } else {
                                        spec_find_key(s, m, key)
                                    }
                                } else {
                                    None
                                }
                            },
                            None => None,
                        }
                    }
                } else {
                    None
                }
            },
            None => None,
        }
    } else {
        None
    }
}

/// A found value range lies within the text.
pub proof fn lemma_find_key_bounds(s: Seq<char>, i: int, key: Seq<char>)
    requires
        0 <= i <= s.len(),
    ensures
        spec_find_key(s, i, key) matches Some(r) ==> 0 <= r.0 < r.1 <= s.len(),
    decreases s.len() - i,
{
    if i < s.len() && s[i] == '"' {
        match spec_string_end(s, i + 1) {
            Some(ke) => {
                if i + 1 < ke <= s.len() {
                    let c = spec_skip_ws(s, ke);
                    if ke <= c <= s.len() && c < s.len() && s[c] == ':' {
                        let v = spec_skip_ws(s, c + 1);
                        if c + 1 <= v <= s.len() {
                            match spec_value_end(s, v) {
                                Some(ve) => {
                                    if v < ve <= s.len() && !(s.subrange(i + 1, ke - 1) == key) {
                                        let d = spec_skip_ws(s, ve);
                                        if ve <= d <= s.len() && d < s.len() && s[d] == ',' {
                                            let m = spec_skip_ws(s, d + 1);
                                            if d + 1 <= m <= s.len() {
                                                lemma_find_key_bounds(s, m, key);
                                            }
                                        }
                                    }
                                },
                                None => {},
                            }
                        }
                    }
                }
            },
            None => {},
        }
    }
}

/// Walks the member list starting at `i` and returns the index after the
/// object's closing brace.
fn object_rest(text: &str, n: usize, i: usize) -> (r: Option<usize>)
    requires
        n == text@.len(),
        n < usize::MAX,
        i <= n,
    ensures
        match r {
            Some(e) => spec_object_rest(text@, i as int) == Some(e as int) && e <= n,
            None => spec_object_rest(text@, i as int) is None,
        },
    decreases n - i,
{
    if i >= n {
        return None;
    }
    let ch = text.get_char(i);
    if ch == '}' {
        return Some(i + 1);
    }
    if ch != '"' {
        return None;
    }
    let ke = match string_end(text, n, i + 1) {
        Some(ke) => ke,
        None => {
            return None;
        },
    };
    let c = skip_ws(text, n, ke);
    if !(c < n && text.get_char(c) == ':') {
        return None;
    }
    let v = skip_ws(text, n, c + 1);
    let ve = match value_end(text, n, v) {
        Some(ve) => ve,
        None => {
            return None;
        },
    };
    let d = skip_ws(text, n, ve);
    if d < n && text.get_char(d) == ',' {
        let m = skip_ws(text, n, d + 1);
        object_rest(text, n, m)
    } else if d < n && text.get_char(d) == '}' {
        Some(d + 1)
    } else {
        None
    }
}

/// Finds the value range of the first member named `key` in the member list
/// starting at `i`.
fn find_key(text: &str, n: usize, i: usize, key: &str) -> (r: Option<(usize, usize)>)
    requires
        n == text@.len(),
        n < usize::MAX,
        i <= n,
    ensures
        match r {
            Some((lo, hi)) => spec_find_key(text@, i as int, key@) == Some((lo as int, hi as int))
                && lo < hi <= n,
            None => spec_find_key(text@, i as int, key@) is None,
        },
    decreases n - i,
{
    proof {
        lemma_find_key_bounds(text@, i as int, key@);
    }
    if i >= n {
        return None;
    }
    let ch = text.get_char(i);
    if ch == '}' {
        return None;
    }
    if ch != '"' {
        return None;
    }
    let ke = match string_end(text, n, i + 1) {
        Some(ke) => ke,
        None => {
            return None;
        },
    };
    let c = skip_ws(text, n, ke);
    if !(c < n && text.get_char(c) == ':') {
        return None;
    }
    let v = skip_ws(text, n, c + 1);
    let ve = match value_end(text, n, v) {
        Some(ve) => ve,
        None => {
            return None;
        },
    };
    let name = text.substring_char(i + 1, ke - 1);
    if str_eq(name, key) {
        proof {
            assert(text@.subrange(i + 1, ke - 1int) == key@);
        }
        return Some((v, ve));
    }
    proof {
        assert(!(text@.subrange(i + 1, ke - 1int) == key@));
    }
    let d = skip_ws(text, n, ve);
    if d < n && text.get_char(d) == ',' {
        let m = skip_ws(text, n, d + 1);
        find_key(text, n, m, key)
    } else {
        None
    }
}

/// Whether two pieces of text hold the same characters.
fn str_eq(a: &str, b: &str) -> (r: bool)
    ensures
        r == (a@ == b@),
{
    let a_owned = a.to_owned();
    let b_owned = b.to_owned();
    let r = a_owned == b_owned;
    proof {
        if a@ == b@ {
            assert(r);
        }
    }
    r
}

/// Skips whitespace from `i`.
fn skip_ws(text: &str, n: usize, i: usize) -> (r: usize)
    requires
        n == text@.len(),
        i <= n,
    ensures
        r == spec_skip_ws(text@, i as int),
        i <= r <= n,
    decreases n - i,
{
    proof {
        lemma_skip_ws_bounds(text@, i as int);
    }
    if i < n {
        let c = text.get_char(i);
        if c == ' ' || c == '\t' || c == '\n' || c == '\r' {
            return skip_ws(text, n, i + 1);
        }
    }
    i
}

/// Finds the end of the string literal whose opening quote is at `i - 1`.
fn string_end(text: &str, n: usize, i: usize) -> (r: Option<usize>)
    requires
        n == text@.len(),
        i <= n,
    ensures
        match r {
            Some(e) => spec_string_end(text@, i as int) == Some(e as int) && i < e <= n,
            None => spec_string_end(text@, i as int) is None,
        },
    decreases n - i,
{
    proof {
        lemma_string_end_bounds(text@, i as int);
    }
    if i >= n {
        return None;
    }
    let c = text.get_char(i);
    if c == '"' {
        Some(i + 1)
    } else if c == '\\' {
        if i < n - 1 {
            string_end(text, n, i + 2)
        } else {
            None
        }
    } else {
        string_end(text, n, i + 1)
    }
}

/// Finds the end of a bracketed value with `depth` open brackets.
fn container_end(text: &str, n: usize, i: usize, depth: usize) -> (r: Option<usize>)
    requires
        n == text@.len(),
        n < usize::MAX,
        i <= n,
        depth <= i + 1,
    ensures
        match r {
            Some(e) => spec_container_end(text@, i as int, depth as int) == Some(e as int) && i
                < e <= n,
            None => spec_container_end(text@, i as int, depth as int) is None,
        },
    decreases n - i,
{
    proof {
        lemma_container_end_bounds(text@, i as int, depth as int);
    }
    if i >= n || depth == 0 {
        return None;
    }
    let c = text.get_char(i);
    if c == '"' {
        match string_end(text, n, i + 1) {
            Some(e) => container_end(text, n, e, depth),
            None => None,
        }
    } else if c == '{' || c == '[' {
        container_end(text, n, i + 1, depth + 1)
    } else if c == '}' || c == ']' {
        if depth == 1 {
            Some(i + 1)
        } else {
            container_end(text, n, i + 1, depth - 1)
        }
    } else {
        container_end(text, n, i + 1, depth)
    }
}

/// Finds the end of the primitive value starting at `i`.
fn prim_end(text: &str, n: usize, i: usize) -> (r: usize)
    requires
        n == text@.len(),
        i <= n,
    ensures
        r == spec_prim_end(text@, i as int),
        i <= r <= n,
    decreases n - i,
{
    proof {
        lemma_prim_end_bounds(text@, i as int);
    }
    if i < n {
        let c = text.get_char(i);
        if !(c == ',' || c == '}' || c == ']' || c == ' ' || c == '\t' || c == '\n' || c == '\r') {
            return prim_end(text, n, i + 1);
        }
    }
    i
}

/// Finds the end of the JSON value starting at `i`.
fn value_end(text: &str, n: usize, i: usize) -> (r: Option<usize>)
    requires
        n == text@.len(),
        n < usize::MAX,
        i <= n,
    ensures
        match r {
            Some(e) => spec_value_end(text@, i as int) == Some(e as int) && i < e <= n,
            None => spec_value_end(text@, i as int) is None,
        },
{
    proof {
        lemma_value_end_bounds(text@, i as int);
    }
    if i >= n {
        return None;
    }
    let c = text.get_char(i);
    if c == '"' {
        string_end(text, n, i + 1)
    } else if c == '{' || c == '[' {
        container_end(text, n, i + 1, 1)
    } else if c == ',' || c == '}' || c == ']' || c == ' ' || c == '\t' || c == '\n' || c
        == '\r' {
        None
    } else {
        Some(prim_end(text, n, i))
    }
}

/// The value of a hexadecimal digit, or -1 for any other character.
pub open spec fn hex_val(c: char) -> int {
    match c {
        '0' => 0,
        '1' => 1,
        '2' => 2,
        '3' => 3,
        '4' => 4,
        '5' => 5,
        '6' => 6,
        '7' => 7,
        '8' => 8,
        '9' => 9,
        'a' => 10,
        'b' => 11,
        'c' => 12,
        'd' => 13,
        'e' => 14,
        'f' => 15,
        'A' => 10,
        'B' => 11,
        'C' => 12,
        'D' => 13,
        'E' => 14,
        'F' => 15,
        _ => -1,
    }
}

/// The lowercase digit of a value below sixteen.
pub open spec fn hex_digit(d: int) -> char {
    if d == 0 {
        '0'
    } else if d == 1 {
        '1'
    } else if d == 2 {
        '2'
    } else if d == 3 {
        '3'
    } else if d == 4 {
        '4'
    } else if d == 5 {
        '5'
    } else if d == 6 {
        '6'
    } else if d == 7 {
        '7'
    } else if d == 8 {
        '8'
    } else if d == 9 {
        '9'
    } else if d == 10 {
        'a'
    } else if d == 11 {
        'b'
    } else if d == 12 {
        'c'
    } else if d == 13 {
        'd'
    } else if d == 14 {
        'e'
    } else {
        'f'
    }
}

/// Whether every character of `s` is a hexadecimal digit.
pub open spec fn all_hex(s: Seq<char>) -> bool {
    forall|k: int| 0 <= k < s.len() ==> hex_val(#[trigger] s[k]) >= 0
}

/// The value of a hexadecimal numeral, most significant digit first.
pub open spec fn hex_fold(s: Seq<char>) -> int
    decreases s.len(),
{
    if s.len() == 0 {
        0
    } else {
        hex_fold(s.drop_last()) * 16 + hex_val(s.last())
    }
}

/// 16 to the `n`.
pub open spec fn pow16(n: nat) -> int
    decreases n,
{
    if n == 0 {
        1
    } else {
        16 * pow16((n - 1) as nat)
    }
}

/// A hexadecimal numeral's value is bounded by its width.
pub proof fn lemma_hex_fold_bound(s: Seq<char>)
    requires
        all_hex(s),
    ensures
        0 <= hex_fold(s) < pow16(s.len() as nat),
    decreases s.len(),
{
    if s.len() > 0 {
        assert(all_hex(s.drop_last()));
        lemma_hex_fold_bound(s.drop_last());
        let rest = hex_fold(s.drop_last());
        let d = hex_val(s.last());
        assert(0 <= d < 16);
        assert(rest * 16 + d < pow16(s.len() as nat)) by (nonlinear_arith)
            requires
                0 <= rest,
                rest < pow16((s.len() - 1) as nat),
                0 <= d < 16,
                pow16(s.len() as nat) == 16 * pow16((s.len() - 1) as nat),
        {
        }
        assert(rest * 16 + d >= 0) by (nonlinear_arith)
            requires
                rest >= 0,
                d >= 0,
        {
        }
    }
}

/// Folding distributes over concatenation: the left part is shifted by the
/// right part's width.
pub proof fn lemma_hex_fold_concat(s: Seq<char>, t: Seq<char>)
    ensures
        hex_fold(s + t) == hex_fold(s) * pow16(t.len() as nat) + hex_fold(t),
    decreases t.len(),
{
    if t.len() == 0 {
        assert(s + t =~= s);
        assert(hex_fold(s) * 1 == hex_fold(s)) by (nonlinear_arith);
    } else {
        lemma_hex_fold_concat(s, t.drop_last());
        assert((s + t).drop_last() =~= s + t.drop_last());
        assert((s + t).last() == t.last());
        let a = hex_fold(s);
        let p = pow16((t.len() - 1) as nat);
        assert((a * p + hex_fold(t.drop_last())) * 16 == a * (16 * p) + hex_fold(t.drop_last())
            * 16) by (nonlinear_arith);
    }
}

/// The `pow16` values the identifier layout uses.
pub proof fn lemma_pow16_values()
    ensures
        pow16(4) == 0x10000,
        pow16(8) == 0x1_0000_0000,
        pow16(12) == 0x1_0000_0000_0000,
        pow16(32) == 0x1_0000_0000_0000_0000_0000_0000_0000_0000,
{
    assert(pow16(0) == 1);
    assert(pow16(1) == 0x10);
    assert(pow16(2) == 0x100);
    assert(pow16(3) == 0x1000);
    assert(pow16(4) == 0x10000);
    assert(pow16(5) == 0x100000);
    assert(pow16(6) == 0x1000000);
    assert(pow16(7) == 0x10000000);
    assert(pow16(8) == 0x100000000);
    assert(pow16(9) == 0x1000000000);
    assert(pow16(10) == 0x10000000000);
    assert(pow16(11) == 0x100000000000);
    assert(pow16(12) == 0x1000000000000);
    assert(pow16(13) == 0x10000000000000);
    assert(pow16(14) == 0x100000000000000);
    assert(pow16(15) == 0x1000000000000000);
    assert(pow16(16) == 0x10000000000000000);
    assert(pow16(17) == 0x100000000000000000);
    assert(pow16(18) == 0x1000000000000000000);
    assert(pow16(19) == 0x10000000000000000000);
    assert(pow16(20) == 0x100000000000000000000);
    assert(pow16(21) == 0x1000000000000000000000);
    assert(pow16(22) == 0x10000000000000000000000);
    assert(pow16(23) == 0x100000000000000000000000);
    assert(pow16(24) == 0x1000000000000000000000000);
    assert(pow16(25) == 0x10000000000000000000000000);
    assert(pow16(26) == 0x100000000000000000000000000);
    assert(pow16(27) == 0x1000000000000000000000000000);
    assert(pow16(28) == 0x10000000000000000000000000000);
    assert(pow16(29) == 0x100000000000000000000000000000);
    assert(pow16(30) == 0x1000000000000000000000000000000);
    assert(pow16(31) == 0x10000000000000000000000000000000);
    assert(pow16(32) == 0x100000000000000000000000000000000);
}

/// The thirty-two digit characters of a hyphenated identifier: the five
/// groups with the four hyphens dropped.
pub open spec fn uuid_digits(s: Seq<char>) -> Seq<char> {
    s.subrange(0, 8) + s.subrange(9, 13) + s.subrange(14, 18) + s.subrange(19, 23) + s.subrange(
        24,
        36,
    )
}

/// Whether `s` is a hyphenated 128-bit identifier: thirty-six characters,
/// hyphens after the eighth, twelfth, sixteenth and twentieth digit, all
/// other characters hexadecimal digits of either case.
pub open spec fn is_uuid_text(s: Seq<char>) -> bool {
    &&& s.len() == 36
    &&& s[8] == '-'
    &&& s[13] == '-'
    &&& s[18] == '-'
    &&& s[23] == '-'
    &&& all_hex(uuid_digits(s))
}

/// The identifier a hyphenated text denotes.
pub open spec fn spec_uuid_val(s: Seq<char>) -> Option<u128> {
    if is_uuid_text(s) {
        Some(hex_fold(uuid_digits(s)) as u128)
    } else {
        None
    }
}

/// Reads the value of the hexadecimal run `text[lo..hi]`, rejecting any
/// other character in the run.
fn hex_run_val(text: &str, n: usize, lo: usize, hi: usize) -> (r: Option<u128>)
    requires
        n == text@.len(),
        lo <= hi <= n,
        hi - lo <= 32,
    ensures
        match r {
            Some(v) => all_hex(text@.subrange(lo as int, hi as int)) && v == hex_fold(
                text@.subrange(lo as int, hi as int),
            ),
            None => !all_hex(text@.subrange(lo as int, hi as int)),
        },
    decreases hi - lo,
{
    let ghost s = text@.subrange(lo as int, hi as int);
    if lo == hi {
        proof {
            assert(s.len() == 0);
        }
        return Some(0);
    }
    let rest = match hex_run_val(text, n, lo, hi - 1) {
        Some(v) => v,
        None => {
            proof {
                let s1 = text@.subrange(lo as int, hi - 1int);
                assert(s1 =~= s.drop_last());
                let k = choose|k: int| 0 <= k < s1.len() && hex_val(s1[k]) < 0;
                assert(s[k] == s1[k]);
            }
            return None;
        },
    };
    let c = text.get_char(hi - 1);
    let d: u128 = match c {
        '0' => 0,
        '1' => 1,
        '2' => 2,
        '3' => 3,
        '4' => 4,
        '5' => 5,
        '6' => 6,
        '7' => 7,
        '8' => 8,
        '9' => 9,
        'a' => 10,
        'b' => 11,
        'c' => 12,
        'd' => 13,
        'e' => 14,
        'f' => 15,
        'A' => 10,
        'B' => 11,
        'C' => 12,
        'D' => 13,
        'E' => 14,
        'F' => 15,
        _ => {
            proof {
                assert(s.last() == text@[hi - 1int]);
                assert(hex_val(s.last()) < 0);
            }
            return None;
        },
    };
    proof {
        let s1 = text@.subrange(lo as int, hi - 1int);
        assert(s1 =~= s.drop_last());
        assert(s.last() == text@[hi - 1int]);
        assert(d == hex_val(s.last()));
        assert(all_hex(s)) by {
            assert forall|k: int| 0 <= k < s.len() implies hex_val(#[trigger] s[k]) >= 0 by {
                if k < s.len() - 1 {
                    assert(s1[k] == s[k]);
                }
            }
        }
        lemma_hex_fold_bound(s1);
        lemma_pow16_values();
        assert(pow16(s1.len() as nat) <= pow16(31)) by {
            lemma_pow16_mono(s1.len() as nat, 31);
        }
        assert(rest * 16 + d < pow16(32)) by (nonlinear_arith)
            requires
                0 <= rest,
                rest <= pow16(31) - 1,
                0 <= d < 16,
                pow16(32) == 16 * pow16(31),
        {
        }
    }
    Some(rest * 16 + d)
}

/// `pow16` grows with the exponent.
pub proof fn lemma_pow16_mono(a: nat, b: nat)
    requires
        a <= b,
    ensures
        pow16(a) <= pow16(b),
        pow16(a) >= 1,
    decreases b,
{
    if a == b {
        if a > 0 {
            lemma_pow16_mono((a - 1) as nat, (a - 1) as nat);
        }
    } else {
        lemma_pow16_mono(a, (b - 1) as nat);
    }
}

/// Reads the hyphenated identifier in `text[lo..hi]`.
fn uuid_val(text: &str, n: usize, lo: usize, hi: usize) -> (r: Option<u128>)
    requires
        n == text@.len(),
        lo <= hi <= n,
    ensures
        r == spec_uuid_val(text@.subrange(lo as int, hi as int)),
{
    let ghost s = text@.subrange(lo as int, hi as int);
    if hi - lo != 36 {
        return None;
    }
    if !(text.get_char(lo + 8) == '-' && text.get_char(lo + 13) == '-' && text.get_char(lo + 18)
        == '-' && text.get_char(lo + 23) == '-') {
        proof {
            assert(s[8] == text@[lo + 8int]);
            assert(s[13] == text@[lo + 13int]);
            assert(s[18] == text@[lo + 18int]);
            assert(s[23] == text@[lo + 23int]);
        }
        return None;
    }
    let g1 = hex_run_val(text, n, lo, lo + 8);
    let g2 = hex_run_val(text, n, lo + 9, lo + 13);
    let g3 = hex_run_val(text, n, lo + 14, lo + 18);
    let g4 = hex_run_val(text, n, lo + 19, lo + 23);
    let g5 = hex_run_val(text, n, lo + 24, lo + 36);
    proof {
        assert(text@.subrange(lo as int, lo + 8int) =~= s.subrange(0, 8));
        assert(text@.subrange(lo + 9int, lo + 13int) =~= s.subrange(9, 13));
        assert(text@.subrange(lo + 14int, lo + 18int) =~= s.subrange(14, 18));
        assert(text@.subrange(lo + 19int, lo + 23int) =~= s.subrange(19, 23));
        assert(text@.subrange(lo + 24int, lo + 36int) =~= s.subrange(24, 36));
    }
    match (g1, g2, g3, g4, g5) {
        (Some(v1), Some(v2), Some(v3), Some(v4), Some(v5)) => {
            proof {
                let d = uuid_digits(s);
                assert(d.subrange(0, 8) =~= s.subrange(0, 8));
                assert(d.subrange(8, 12) =~= s.subrange(9, 13));
                assert(d.subrange(12, 16) =~= s.subrange(14, 18));
                assert(d.subrange(16, 20) =~= s.subrange(19, 23));
                assert(d.subrange(20, 32) =~= s.subrange(24, 36));
                assert(all_hex(d)) by {
                    assert forall|k: int| 0 <= k < d.len() implies hex_val(#[trigger] d[k])
                        >= 0 by {
                        if k < 8 {
                            assert(d[k] == s.subrange(0, 8)[k]);
                        } else if k < 12 {
                            assert(d[k] == s.subrange(9, 13)[k - 8]);
                        } else if k < 16 {
                            assert(d[k] == s.subrange(14, 18)[k - 12]);
                        } else if k < 20 {
                            assert(d[k] == s.subrange(19, 23)[k - 16]);
                        } else {
                            assert(d[k] == s.subrange(24, 36)[k - 20]);
                        }
                    }
                }
                assert(is_uuid_text(s));
                // Reassemble the folded value group by group.
                let p1 = s.subrange(0, 8);
                let p2 = s.subrange(9, 13);
                let p3 = s.subrange(14, 18);
                let p4 = s.subrange(19, 23);
                let p5 = s.subrange(24, 36);
                assert(d =~= (((p1 + p2) + p3) + p4) + p5);
                lemma_hex_fold_concat((((p1 + p2) + p3) + p4), p5);
                lemma_hex_fold_concat(((p1 + p2) + p3), p4);
                lemma_hex_fold_concat((p1 + p2), p3);
                lemma_hex_fold_concat(p1, p2);
                lemma_pow16_values();
                lemma_hex_fold_bound(p1);
                lemma_hex_fold_bound(p2);
                lemma_hex_fold_bound(p3);
                lemma_hex_fold_bound(p4);
                lemma_hex_fold_bound(p5);
                assert(hex_fold(d) == ((((v1 * 0x10000 + v2) * 0x10000 + v3) * 0x10000 + v4)
                    * 0x1_0000_0000_0000) + v5);
                lemma_hex_fold_bound(d);
            }
            let v = (((v1 * 0x10000 + v2) * 0x10000 + v3) * 0x10000 + v4) * 0x1_0000_0000_0000
                + v5;
            Some(v)
        },
        _ => {
            proof {
                if is_uuid_text(s) {
                    let d = uuid_digits(s);
                    assert(d.subrange(0, 8) =~= s.subrange(0, 8));
                    assert(d.subrange(8, 12) =~= s.subrange(9, 13));
                    assert(d.subrange(12, 16) =~= s.subrange(14, 18));
                    assert(d.subrange(16, 20) =~= s.subrange(19, 23));
                    assert(d.subrange(20, 32) =~= s.subrange(24, 36));
                    assert(all_hex(s.subrange(0, 8))) by {
                        assert forall|k: int| 0 <= k < 8 implies hex_val(
                            #[trigger] s.subrange(0, 8)[k],
                        ) >= 0 by {
                            assert(s.subrange(0, 8)[k] == d[k]);
                        }
                    }
                    assert(all_hex(s.subrange(9, 13))) by {
                        assert forall|k: int| 0 <= k < 4 implies hex_val(
                            #[trigger] s.subrange(9, 13)[k],
                        ) >= 0 by {
                            assert(s.subrange(9, 13)[k] == d[k + 8]);
                        }
                    }
                    assert(all_hex(s.subrange(14, 18))) by {
                        assert forall|k: int| 0 <= k < 4 implies hex_val(
                            #[trigger] s.subrange(14, 18)[k],
                        ) >= 0 by {
                            assert(s.subrange(14, 18)[k] == d[k + 12]);
                        }
                    }
                    assert(all_hex(s.subrange(19, 23))) by {
                        assert forall|k: int| 0 <= k < 4 implies hex_val(
                            #[trigger] s.subrange(19, 23)[k],
                        ) >= 0 by {
                            assert(s.subrange(19, 23)[k] == d[k + 16]);
                        }
                    }
                    assert(all_hex(s.subrange(24, 36))) by {
                        assert forall|k: int| 0 <= k < 12 implies hex_val(
                            #[trigger] s.subrange(24, 36)[k],
                        ) >= 0 by {
                            assert(s.subrange(24, 36)[k] == d[k + 20]);
                        }
                    }
                    assert(false);
                }
            }
            None
        },
    }
}

/// What signaling text denotes, with blob payloads as ranges into the text.
pub enum SpecSignal {
    /// The text is not well-formed JSON: logged, nothing answered.
    NotJson,
    /// Well-formed JSON that is not a valid signaling message: answered with
    /// a warning.
    Bad,
    Init { lo: int, hi: int },
    ConnectProducer { lo: int, hi: int },
    ConnectConsumer { lo: int, hi: int },
    Produce { audio: bool, lo: int, hi: int },
    Consume { producer: u128 },
    Resume { id: u128 },
}

/// Classifies the members of a signaling object whose member list starts at
/// `j`: the `action` member picks the variant, whose required members must be
/// present and well-shaped.
pub open spec fn spec_classify(s: Seq<char>, j: int) -> SpecSignal {
    match spec_find_key(s, j, "action"@) {
        None => SpecSignal::Bad,
        Some((alo, ahi)) => if !(0 <= alo && alo + 2 <= ahi <= s.len() && s[alo] == '"') {
            SpecSignal::Bad
        } else {
            let a = s.subrange(alo + 1, ahi - 1);
            if a == "init"@ {
                match spec_find_key(s, j, "rtpCapabilities"@) {
                    Some((lo, hi)) => SpecSignal::Init { lo, hi },
                    None => SpecSignal::Bad,
                }
            } else if a == "connectProducerTransport"@ {
                match spec_find_key(s, j, "dtlsParameters"@) {
                    Some((lo, hi)) => SpecSignal::ConnectProducer { lo, hi },
                    None => SpecSignal::Bad,
                }
            } else if a == "connectConsumerTransport"@ {
                match spec_find_key(s, j, "dtlsParameters"@) {
                    Some((lo, hi)) => SpecSignal::ConnectConsumer { lo, hi },
                    None => SpecSignal::Bad,
                }
            } else if a == "produce"@ {
                match spec_find_key(s, j, "kind"@) {
                    Some((klo, khi)) => if !(0 <= klo && klo + 2 <= khi <= s.len() && s[klo]
                        == '"') {
                        SpecSignal::Bad
                    } else {
                        let k = s.subrange(klo + 1, khi - 1);
                        if k == "audio"@ || k == "video"@ {
                            match spec_find_key(s, j, "rtpParameters"@) {
                                Some((lo, hi)) => SpecSignal::Produce {
                                    audio: k == "audio"@,
                                    lo,
                                    hi,
                                },
                                None => SpecSignal::Bad,
                            }
                        } else {
                            SpecSignal::Bad
                        }
                    },
                    None => SpecSignal::Bad,
                }
            } else if a == "consume"@ {
                match spec_find_key(s, j, "producerId"@) {
                    Some((lo, hi)) => if !(0 <= lo && lo + 2 <= hi <= s.len() && s[lo] == '"') {
                        SpecSignal::Bad
                    } else {
                        match spec_uuid_val(s.subrange(lo + 1, hi - 1)) {
                            Some(producer) => SpecSignal::Consume { producer },
                            None => SpecSignal::Bad,
                        }
                    },
                    None => SpecSignal::Bad,
                }
            } else if a == "consumerResume"@ {
                match spec_find_key(s, j, "id"@) {
                    Some((lo, hi)) => if !(0 <= lo && lo + 2 <= hi <= s.len() && s[lo] == '"') {
                        SpecSignal::Bad
                    } else {
                        match spec_uuid_val(s.subrange(lo + 1, hi - 1)) {
                            Some(id) => SpecSignal::Resume { id },
                            None => SpecSignal::Bad,
                        }
                    },
                    None => SpecSignal::Bad,
                }
            } else {
                SpecSignal::Bad
            }
        },
    }
}

/// What a whole signaling text denotes: a well-formed object is classified by
/// its members; any other well-formed JSON value is a bad message; anything
/// else is not JSON.
pub open spec fn spec_parse_signal(s: Seq<char>) -> SpecSignal {
    let i = spec_skip_ws(s, 0);
    if !(0 <= i && i < s.len()) {
        SpecSignal::NotJson
    } else if s[i] == '{' {
        let j = spec_skip_ws(s, i + 1);
        if !(j <= s.len()) {
            SpecSignal::NotJson
        } else {
            match spec_object_rest(s, j) {
                Some(e) => if 0 <= e <= s.len() && spec_skip_ws(s, e) == s.len() {
                    spec_classify(s, j)
                } else {
                    SpecSignal::NotJson
                },
                None => SpecSignal::NotJson,
            }
        }
    } else {
        match spec_value_end(s, i) {
            Some(e) => if 0 <= e <= s.len() && spec_skip_ws(s, e) == s.len() {
                SpecSignal::Bad
            } else {
                SpecSignal::NotJson
            },
            None => SpecSignal::NotJson,
        }
    }
}

/// The outcome of parsing one text frame.
#[derive(Debug, Clone)]
pub enum ParseOutcome {
    /// A valid signaling message.
    Message(ClientMessage),
    /// Well-formed JSON that is not a valid signaling message; the client is
    /// warned.
    BadMessage,
    /// Not well-formed JSON; logged, nothing answered.
    NotJson,
}

/// Extracts the bytes of `text[lo..hi]`.
fn blob_bytes(text: &str, lo: usize, hi: usize) -> (r: Vec<u8>)
    requires
        lo <= hi <= text@.len(),
    ensures
        r@ == encode_utf8(text@.subrange(lo as int, hi as int)),
{
    let piece = text.substring_char(lo, hi);
    piece.as_bytes_vec()
}

/// Parses one text frame of the signaling protocol, exactly as
/// [`spec_parse_signal`] reads it: the returned message's payloads are the
/// text's own characters — blobs as their bytes, identifiers by value.
pub fn parse_client_message(text: &str) -> (r: ParseOutcome)
    requires
        text@.len() < usize::MAX,
    ensures
        r matches ParseOutcome::NotJson <==> spec_parse_signal(text@) == SpecSignal::NotJson,
        r matches ParseOutcome::BadMessage <==> spec_parse_signal(text@) == SpecSignal::Bad,
        spec_parse_signal(text@) matches SpecSignal::Init { lo, hi } ==> (r matches
            ParseOutcome::Message(ClientMessage::Init { rtp_capabilities })
            && rtp_capabilities@ == encode_utf8(text@.subrange(lo, hi))),
        spec_parse_signal(text@) matches SpecSignal::ConnectProducer { lo, hi } ==> (r matches
            ParseOutcome::Message(ClientMessage::ConnectProducerTransport { dtls_parameters })
            && dtls_parameters@ == encode_utf8(text@.subrange(lo, hi))),
        spec_parse_signal(text@) matches SpecSignal::ConnectConsumer { lo, hi } ==> (r matches
            ParseOutcome::Message(ClientMessage::ConnectConsumerTransport { dtls_parameters })
            && dtls_parameters@ == encode_utf8(text@.subrange(lo, hi))),
        spec_parse_signal(text@) matches SpecSignal::Produce { audio, lo, hi } ==> (r matches
            ParseOutcome::Message(ClientMessage::Produce { kind, rtp_parameters }) && kind == (
            if audio {
                MediaKind::Audio
            } else {
                MediaKind::Video
            }) && rtp_parameters@ == encode_utf8(text@.subrange(lo, hi))),
        spec_parse_signal(text@) matches SpecSignal::Consume { producer } ==> r matches
            ParseOutcome::Message(ClientMessage::Consume { producer_id }) && producer_id
            == ProducerId(producer),
        spec_parse_signal(text@) matches SpecSignal::Resume { id: v } ==> r matches
            ParseOutcome::Message(ClientMessage::ConsumerResume { id }) && id == ConsumerId(v),
{
    let n = text.unicode_len();
    let i = skip_ws(text, n, 0);
    if i >= n {
        return ParseOutcome::NotJson;
    }
    if text.get_char(i) != '{' {
        match value_end(text, n, i) {
            Some(e) => {
                if skip_ws(text, n, e) == n {
                    return ParseOutcome::BadMessage;
                } else {
                    return ParseOutcome::NotJson;
                }
            },
            None => {
                return ParseOutcome::NotJson;
            },
        }
    }
    let j = skip_ws(text, n, i + 1);
    match object_rest(text, n, j) {
        Some(e) => {
            if skip_ws(text, n, e) != n {
                return ParseOutcome::NotJson;
            }
        },
        None => {
            return ParseOutcome::NotJson;
        },
    }
    // The text is one whole object: classify its members.
    let (alo, ahi) = match find_key(text, n, j, "action") {
        Some(r) => r,
        None => {
            return ParseOutcome::BadMessage;
        },
    };
    if !(alo + 2 <= ahi && text.get_char(alo) == '"') {
        return ParseOutcome::BadMessage;
    }
    let action = text.substring_char(alo + 1, ahi - 1);
    if str_eq(action, "init") {
        match find_key(text, n, j, "rtpCapabilities") {
            Some((lo, hi)) => ParseOutcome::Message(
                ClientMessage::Init { rtp_capabilities: blob_bytes(text, lo, hi) },
            ),
            None => ParseOutcome::BadMessage,
        }
    } else if str_eq(action, "connectProducerTransport") {
        match find_key(text, n, j, "dtlsParameters") {
            Some((lo, hi)) => ParseOutcome::Message(
                ClientMessage::ConnectProducerTransport {
                    dtls_parameters: blob_bytes(text, lo, hi),
                },
            ),
            None => ParseOutcome::BadMessage,
        }
    } else if str_eq(action, "connectConsumerTransport") {
        match find_key(text, n, j, "dtlsParameters") {
            Some((lo, hi)) => ParseOutcome::Message(
                ClientMessage::ConnectConsumerTransport {
                    dtls_parameters: blob_bytes(text, lo, hi),
                },
            ),
            None => ParseOutcome::BadMessage,
        }
    } else if str_eq(action, "produce") {
        let (klo, khi) = match find_key(text, n, j, "kind") {
            Some(r) => r,
            None => {
                return ParseOutcome::BadMessage;
            },
        };
        if !(klo + 2 <= khi && text.get_char(klo) == '"') {
            return ParseOutcome::BadMessage;
        }
        let kind_text = text.substring_char(klo + 1, khi - 1);
        let audio = str_eq(kind_text, "audio");
        if !(audio || str_eq(kind_text, "video")) {
            return ParseOutcome::BadMessage;
        }
        match find_key(text, n, j, "rtpParameters") {
            Some((lo, hi)) => ParseOutcome::Message(
                ClientMessage::Produce {
                    kind: if audio {
                        MediaKind::Audio
                    } else {
                        MediaKind::Video
                    },
                    rtp_parameters: blob_bytes(text, lo, hi),
                },
            ),
            None => ParseOutcome::BadMessage,
        }
    } else if str_eq(action, "consume") {
        let (lo, hi) = match find_key(text, n, j, "producerId") {
            Some(r) => r,
            None => {
                return ParseOutcome::BadMessage;
            },
        };
        if !(lo + 2 <= hi && text.get_char(lo) == '"') {
            return ParseOutcome::BadMessage;
        }
        match uuid_val(text, n, lo + 1, hi - 1) {
            Some(producer) => ParseOutcome::Message(
                ClientMessage::Consume { producer_id: ProducerId(producer) },
            ),
            None => ParseOutcome::BadMessage,
        }
    } else if str_eq(action, "consumerResume") {
        let (lo, hi) = match find_key(text, n, j, "id") {
            Some(r) => r,
            None => {
                return ParseOutcome::BadMessage;
            },
        };
        if !(lo + 2 <= hi && text.get_char(lo) == '"') {
            return ParseOutcome::BadMessage;
        }
        match uuid_val(text, n, lo + 1, hi - 1) {
            Some(id) => ParseOutcome::Message(
                ClientMessage::ConsumerResume { id: ConsumerId(id) },
            ),
            None => ParseOutcome::BadMessage,
        }
    } else {
        ParseOutcome::BadMessage
    }
}

/// The `n` lowercase hexadecimal digits of `v`, most significant first.
pub open spec fn hex_chars(v: int, n: nat) -> Seq<char>
    decreases n,
{
    if n == 0 {
        Seq::empty()
    } else {
        hex_chars(v / 16, (n - 1) as nat).push(hex_digit(v % 16))
    }
}

/// The hyphenated text of a 128-bit identifier: five lowercase hexadecimal
/// groups of 8, 4, 4, 4 and 12 digits.
pub open spec fn spec_uuid_chars(v: u128) -> Seq<char> {
    hex_chars(v as int / 0x1000000000000000000000000, 8) + seq!['-'] + hex_chars(
        (v as int / 0x100000000000000000000) % 0x10000,
        4,
    ) + seq!['-'] + hex_chars((v as int / 0x10000000000000000) % 0x10000, 4) + seq!['-']
        + hex_chars((v as int / 0x1000000000000) % 0x10000, 4) + seq!['-'] + hex_chars(
        v as int % 0x1000000000000,
        12,
    )
}

/// Appends the `n` lowercase hexadecimal digits of `v`.
fn push_hex(out: &mut String, v: u128, n: usize)
    ensures
        final(out)@ == old(out)@ + hex_chars(v as int, n as nat),
    decreases n,
{
    if n == 0 {
        proof {
            assert(old(out)@ + hex_chars(v as int, 0) =~= old(out)@);
        }
        return ;
    }
    push_hex(out, v / 16, n - 1);
    let d = (v % 16) as u8;
    let digit: &str = if d == 0 {
        "0"
    } else if d == 1 {
        "1"
    } else if d == 2 {
        "2"
    } else if d == 3 {
        "3"
    } else if d == 4 {
        "4"
    } else if d == 5 {
        "5"
    } else if d == 6 {
        "6"
    } else if d == 7 {
        "7"
    } else if d == 8 {
        "8"
    } else if d == 9 {
        "9"
    } else if d == 10 {
        "a"
    } else if d == 11 {
        "b"
    } else if d == 12 {
        "c"
    } else if d == 13 {
        "d"
    } else if d == 14 {
        "e"
    } else {
        "f"
    };
    proof {
        reveal_strlit("0");
        reveal_strlit("1");
        reveal_strlit("2");
        reveal_strlit("3");
        reveal_strlit("4");
        reveal_strlit("5");
        reveal_strlit("6");
        reveal_strlit("7");
        reveal_strlit("8");
        reveal_strlit("9");
        reveal_strlit("a");
        reveal_strlit("b");
        reveal_strlit("c");
        reveal_strlit("d");
        reveal_strlit("e");
        reveal_strlit("f");
        assert(digit@ =~= seq![hex_digit(v as int % 16)]);
    }
    out.append(digit);
    proof {
        assert(final(out)@ =~= old(out)@ + hex_chars(v as int, n as nat));
    }
}

/// Appends the hyphenated text of a 128-bit identifier.
fn push_uuid(out: &mut String, v: u128)
    ensures
        final(out)@ == old(out)@ + spec_uuid_chars(v),
{
    push_hex(out, v / 0x1000000000000000000000000, 8);
    out.append("-");
    push_hex(out, (v / 0x100000000000000000000) % 0x10000, 4);
    out.append("-");
    push_hex(out, (v / 0x10000000000000000) % 0x10000, 4);
    out.append("-");
    push_hex(out, (v / 0x1000000000000) % 0x10000, 4);
    out.append("-");
    push_hex(out, v % 0x1000000000000, 12);
    proof {
        reveal_strlit("-");
        assert("-"@ =~= seq!['-']);
        assert(final(out)@ =~= old(out)@ + spec_uuid_chars(v));
    }
}

/// Every digit below sixteen reads back to its value.
proof fn lemma_hex_digit_val(d: int)
    requires
        0 <= d < 16,
    ensures
        hex_val(hex_digit(d)) == d,
{
}

/// A non-negative value's digits are `n` hexadecimal characters.
pub proof fn lemma_hex_chars_wf(v: int, n: nat)
    requires
        v >= 0,
    ensures
        hex_chars(v, n).len() == n,
        all_hex(hex_chars(v, n)),
    decreases n,
{
    if n > 0 {
        lemma_hex_chars_wf(v / 16, (n - 1) as nat);
        lemma_hex_digit_val(v % 16);
        let s = hex_chars(v, n);
        let prefix = hex_chars(v / 16, (n - 1) as nat);
        assert forall|k: int| 0 <= k < s.len() implies hex_val(#[trigger] s[k]) >= 0 by {
            if k < s.len() - 1 {
                assert(s[k] == prefix[k]);
            } else {
                assert(s[k] == hex_digit(v % 16));
            }
        }
    }
}

/// Reading a value's digits back yields the value.
pub proof fn lemma_hex_chars_roundtrip(v: int, n: nat)
    requires
        0 <= v < pow16(n),
    ensures
        hex_fold(hex_chars(v, n)) == v,
    decreases n,
{
    if n == 0 {
    } else {
        assert(v / 16 < pow16((n - 1) as nat)) by (nonlinear_arith)
            requires
                0 <= v,
                v < pow16(n),
                pow16(n) == 16 * pow16((n - 1) as nat),
        {
        }
        lemma_hex_chars_roundtrip(v / 16, (n - 1) as nat);
        lemma_hex_digit_val(v % 16);
        let s = hex_chars(v, n);
        assert(s.drop_last() =~= hex_chars(v / 16, (n - 1) as nat));
        assert(s.last() == hex_digit(v % 16));
        assert((v / 16) * 16 + v % 16 == v) by {
            vstd::arithmetic::div_mod::lemma_fundamental_div_mod(v, 16);
        }
    }
}

/// Law (identifier round trip): the hyphenated text of any identifier reads
/// back to the identifier — so a client that echoes a `produced` id back in a
/// `consume` names exactly that producer.
pub proof fn lemma_uuid_text_roundtrip(v: u128)
    ensures
        spec_uuid_val(spec_uuid_chars(v)) == Some(v),
{
    let x = v as int;
    let g1 = x / 0x1000000000000000000000000;
    let g2 = (x / 0x100000000000000000000) % 0x10000;
    let g3 = (x / 0x10000000000000000) % 0x10000;
    let g4 = (x / 0x1000000000000) % 0x10000;
    let g5 = x % 0x1000000000000;
    let p1 = hex_chars(g1, 8);
    let p2 = hex_chars(g2, 4);
    let p3 = hex_chars(g3, 4);
    let p4 = hex_chars(g4, 4);
    let p5 = hex_chars(g5, 12);
    lemma_pow16_values();
    // Each group is in range for its width.
    assert(0 <= g1 < pow16(8)) by {
        vstd::arithmetic::div_mod::lemma_fundamental_div_mod(x, 0x1000000000000000000000000);
        vstd::arithmetic::div_mod::lemma_mod_bound(x, 0x1000000000000000000000000);
    }
    assert(0 <= g2 < pow16(4) && 0 <= g3 < pow16(4) && 0 <= g4 < pow16(4)) by {
        vstd::arithmetic::div_mod::lemma_mod_bound(x / 0x100000000000000000000, 0x10000);
        vstd::arithmetic::div_mod::lemma_mod_bound(x / 0x10000000000000000, 0x10000);
        vstd::arithmetic::div_mod::lemma_mod_bound(x / 0x1000000000000, 0x10000);
        vstd::arithmetic::div_mod::lemma_div_pos_is_pos(x, 0x100000000000000000000);
        vstd::arithmetic::div_mod::lemma_div_pos_is_pos(x, 0x10000000000000000);
        vstd::arithmetic::div_mod::lemma_div_pos_is_pos(x, 0x1000000000000);
    }
    assert(0 <= g5 < pow16(12)) by {
        vstd::arithmetic::div_mod::lemma_mod_bound(x, 0x1000000000000);
    }
    lemma_hex_chars_wf(g1, 8);
    lemma_hex_chars_wf(g2, 4);
    lemma_hex_chars_wf(g3, 4);
    lemma_hex_chars_wf(g4, 4);
    lemma_hex_chars_wf(g5, 12);
    lemma_hex_chars_roundtrip(g1, 8);
    lemma_hex_chars_roundtrip(g2, 4);
    lemma_hex_chars_roundtrip(g3, 4);
    lemma_hex_chars_roundtrip(g4, 4);
    lemma_hex_chars_roundtrip(g5, 12);
    let s = spec_uuid_chars(v);
    assert(s.len() == 36);
    assert(s[8] == '-' && s[13] == '-' && s[18] == '-' && s[23] == '-');
    let d = uuid_digits(s);
    assert(d.subrange(0, 8) =~= p1);
    assert(d.subrange(8, 12) =~= p2);
    assert(d.subrange(12, 16) =~= p3);
    assert(d.subrange(16, 20) =~= p4);
    assert(d.subrange(20, 32) =~= p5);
    assert(d =~= (((p1 + p2) + p3) + p4) + p5);
    assert(all_hex(d)) by {
        assert forall|k: int| 0 <= k < d.len() implies hex_val(#[trigger] d[k]) >= 0 by {
            if k < 8 {
                assert(d[k] == p1[k]);
            } else if k < 12 {
                assert(d[k] == p2[k - 8]);
            } else if k < 16 {
                assert(d[k] == p3[k - 12]);
            } else if k < 20 {
                assert(d[k] == p4[k - 16]);
            } else {
                assert(d[k] == p5[k - 20]);
            }
        }
    }
    assert(is_uuid_text(s));
    lemma_hex_fold_concat((((p1 + p2) + p3) + p4), p5);
    lemma_hex_fold_concat(((p1 + p2) + p3), p4);
    lemma_hex_fold_concat((p1 + p2), p3);
    lemma_hex_fold_concat(p1, p2);
    // Reassemble the value sixteen bits at a time.
    assert(g1 * 0x10000 + g2 == x / 0x100000000000000000000) by {
        vstd::arithmetic::div_mod::lemma_div_denominator(
            x,
            0x100000000000000000000,
            0x10000,
        );
        vstd::arithmetic::div_mod::lemma_fundamental_div_mod(
            x / 0x100000000000000000000,
            0x10000,
        );
    }
    assert((x / 0x100000000000000000000) * 0x10000 + g3 == x / 0x10000000000000000) by {
        vstd::arithmetic::div_mod::lemma_div_denominator(x, 0x10000000000000000, 0x10000);
        vstd::arithmetic::div_mod::lemma_fundamental_div_mod(x / 0x10000000000000000, 0x10000);
    }
    assert((x / 0x10000000000000000) * 0x10000 + g4 == x / 0x1000000000000) by {
        vstd::arithmetic::div_mod::lemma_div_denominator(x, 0x1000000000000, 0x10000);
        vstd::arithmetic::div_mod::lemma_fundamental_div_mod(x / 0x1000000000000, 0x10000);
    }
    assert((x / 0x1000000000000) * 0x1000000000000 + g5 == x) by {
        vstd::arithmetic::div_mod::lemma_fundamental_div_mod(x, 0x1000000000000);
    }
    assert(hex_fold(d) == x);
}

/// Whether text can be spliced into a JSON string without escaping.
pub open spec fn json_plain_text(s: Seq<char>) -> bool {
    forall|k: int| 0 <= k < s.len() ==> (#[trigger] s[k]) != '"' && s[k] != '\\'
}

/// The JSON text of one transport description; the parameter and candidate
/// blobs are spliced verbatim.
pub open spec fn json_of_transport_options(t: TransportOptions) -> Seq<char> {
    "{\"id\":\""@ + spec_uuid_chars(t.id.0) + "\",\"dtlsParameters\":"@ + t.dtls_parameters@
        + ",\"iceParameters\":"@ + t.ice_parameters@ + ",\"iceCandidates\":"@ + t.ice_candidates@
        + "}"@
}

/// The JSON text of one server message, with the `action` discriminator and
/// lowerCamelCase member names; capability and parameter blobs are spliced
/// verbatim.
pub open spec fn json_of_server_message(m: ServerMessage) -> Seq<char> {
    match m {
        ServerMessage::Init {
            room_id,
            router_rtp_capabilities,
            consumer_transport_options,
            producer_transport_options,
        } => "{\"action\":\"init\",\"roomId\":\""@ + spec_uuid_chars(room_id.0)
            + "\",\"routerRtpCapabilities\":"@ + router_rtp_capabilities@
            + ",\"consumerTransportOptions\":"@ + json_of_transport_options(
            consumer_transport_options,
        ) + ",\"producerTransportOptions\":"@ + json_of_transport_options(
            producer_transport_options,
        ) + "}"@,
        ServerMessage::ConnectedConsumerTransport =>
            "{\"action\":\"connectedConsumerTransport\"}"@,
        ServerMessage::ConnectedProducerTransport =>
            "{\"action\":\"connectedProducerTransport\"}"@,
        ServerMessage::ProducerAdded { participant_id, producer_id } =>
            "{\"action\":\"producerAdded\",\"participantId\":\""@ + spec_uuid_chars(
            participant_id.0,
        ) + "\",\"producerId\":\""@ + spec_uuid_chars(producer_id.0) + "\"}"@,
        ServerMessage::ProducerRemoved { participant_id, producer_id } =>
            "{\"action\":\"producerRemoved\",\"participantId\":\""@ + spec_uuid_chars(
            participant_id.0,
        ) + "\",\"producerId\":\""@ + spec_uuid_chars(producer_id.0) + "\"}"@,
        ServerMessage::Produced { id } => "{\"action\":\"produced\",\"id\":\""@ + spec_uuid_chars(
            id.0,
        ) + "\"}"@,
        ServerMessage::Consumed { id, kind, rtp_parameters, producer_id } =>
            "{\"action\":\"consumed\",\"id\":\""@ + spec_uuid_chars(id.0) + "\",\"kind\":\""@ + (
            if kind == MediaKind::Audio {
                "audio"@
            } else {
                "video"@
            }) + "\",\"rtpParameters\":"@ + rtp_parameters@ + ",\"producerId\":\""@
            + spec_uuid_chars(producer_id.0) + "\"}"@,
        ServerMessage::Warning { message } => "{\"action\":\"warning\",\"message\":\""@ + message@
            + "\"}"@,
    }
}

/// Appends one transport description as JSON.
fn push_transport_options(out: &mut String, t: &TransportOptions)
    ensures
        final(out)@ == old(out)@ + json_of_transport_options(*t),
{
    out.append("{\"id\":\"");
    push_uuid(out, t.id.0);
    out.append("\",\"dtlsParameters\":");
    out.append(t.dtls_parameters.as_str());
    out.append(",\"iceParameters\":");
    out.append(t.ice_parameters.as_str());
    out.append(",\"iceCandidates\":");
    out.append(t.ice_candidates.as_str());
    out.append("}");
    proof {
        assert(final(out)@ =~= old(out)@ + json_of_transport_options(*t));
    }
}

/// Serializes one server message to the signaling JSON text, exactly as
/// [`json_of_server_message`] lays it out. A warning's message must not need
/// escaping; every warning this library produces is such plain text.
pub fn server_message_to_json(m: &ServerMessage) -> (r: String)
    requires
        m matches ServerMessage::Warning { message } ==> json_plain_text(message@),
    ensures
        r@ == json_of_server_message(*m),
{
    let mut out = String::new();
    match m {
        ServerMessage::Init {
            room_id,
            router_rtp_capabilities,
            consumer_transport_options,
            producer_transport_options,
        } => {
            out.append("{\"action\":\"init\",\"roomId\":\"");
            push_uuid(&mut out, room_id.0);
            out.append("\",\"routerRtpCapabilities\":");
            out.append(router_rtp_capabilities.as_str());
            out.append(",\"consumerTransportOptions\":");
            push_transport_options(&mut out, consumer_transport_options);
            out.append(",\"producerTransportOptions\":");
            push_transport_options(&mut out, producer_transport_options);
            out.append("}");
            proof {
                assert(out@ =~= json_of_server_message(*m));
            }
        },
        ServerMessage::ConnectedConsumerTransport => {
            out.append("{\"action\":\"connectedConsumerTransport\"}");
            proof {
                assert(out@ =~= json_of_server_message(*m));
            }
        },
        ServerMessage::ConnectedProducerTransport => {
            out.append("{\"action\":\"connectedProducerTransport\"}");
            proof {
                assert(out@ =~= json_of_server_message(*m));
            }
        },
        ServerMessage::ProducerAdded { participant_id, producer_id } => {
            out.append("{\"action\":\"producerAdded\",\"participantId\":\"");
            push_uuid(&mut out, participant_id.0);
            out.append("\",\"producerId\":\"");
            push_uuid(&mut out, producer_id.0);
            out.append("\"}");
            proof {
                assert(out@ =~= json_of_server_message(*m));
            }
        },
        ServerMessage::ProducerRemoved { participant_id, producer_id } => {
            out.append("{\"action\":\"producerRemoved\",\"participantId\":\"");
            push_uuid(&mut out, participant_id.0);
            out.append("\",\"producerId\":\"");
            push_uuid(&mut out, producer_id.0);
            out.append("\"}");
            proof {
                assert(out@ =~= json_of_server_message(*m));
            }
        },
        ServerMessage::Produced { id } => {
            out.append("{\"action\":\"produced\",\"id\":\"");
            push_uuid(&mut out, id.0);
            out.append("\"}");
            proof {
                assert(out@ =~= json_of_server_message(*m));
            }
        },
        ServerMessage::Consumed { id, kind, rtp_parameters, producer_id } => {
            out.append("{\"action\":\"consumed\",\"id\":\"");
            push_uuid(&mut out, id.0);
            out.append("\",\"kind\":\"");
            match kind {
                MediaKind::Audio => out.append("audio"),
                MediaKind::Video => out.append("video"),
            }
            out.append("\",\"rtpParameters\":");
            out.append(rtp_parameters.as_str());
            out.append(",\"producerId\":\"");
            push_uuid(&mut out, producer_id.0);
            out.append("\"}");
            proof {
                assert(out@ =~= json_of_server_message(*m));
            }
        },
        ServerMessage::Warning { message } => {
            out.append("{\"action\":\"warning\",\"message\":\"");
            out.append(message.as_str());
            out.append("\"}");
            proof {
                assert(out@ =~= json_of_server_message(*m));
            }
        },
    }
    out
}

} // verus!
