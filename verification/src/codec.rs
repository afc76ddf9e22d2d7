//! Base-61 numeric encoding and the fixed-width pagination cursor built on it.
//!
//! Digits 0..=60 map to `'1'..='9'`, `'A'..='Z'`, `'a'..='z'` in that order.
//! The character `'0'` is never produced by the encoder, which makes it safe
//! as the padding character of the 16-character cursor
//! `encode(page) + "0"*k + encode(watermark)`.

use vstd::prelude::*;

use crate::text::push_char;

verus! {

/// Characters of the three valid bands of the base-61 alphabet.
pub open spec fn is_b61(c: char) -> bool {
    ('1' <= c && c <= '9') || ('A' <= c && c <= 'Z') || ('a' <= c && c <= 'z')
}

/// Digit value of a valid alphabet character.
pub open spec fn digit_of(c: char) -> int {
    if '1' <= c && c <= '9' {
        c as int - 49
    } else if 'A' <= c && c <= 'Z' {
        c as int - 56
    } else {
        c as int - 62
    }
}

/// Symbol of a digit in 0..=60.
pub open spec fn sym_of(d: int) -> char {
    if d < 9 {
        (d + 49) as char
    } else if d < 35 {
        (d + 56) as char
    } else {
        (d + 62) as char
    }
}

/// Most-significant-digit-first base-61 digits of `n`; empty for zero.
pub open spec fn enc_pos(n: nat) -> Seq<char>
    decreases n,
{
    if n == 0 {
        Seq::empty()
    } else {
        enc_pos(n / 61).push(sym_of((n % 61) as int))
    }
}

/// Encoding of an arbitrary non-negative integer: zero is written as the
/// single digit for value 0, the symbol `'1'`, never as an empty string.
pub open spec fn enc(n: nat) -> Seq<char> {
    if n == 0 {
        seq!['1']
    } else {
        enc_pos(n)
    }
}

pub open spec fn all_b61(s: Seq<char>) -> bool {
    forall|i: int| 0 <= i < s.len() ==> is_b61(#[trigger] s[i])
}

/// Numeric value of a digit string, read left to right.
pub open spec fn val_of(s: Seq<char>) -> int
    decreases s.len(),
{
    if s.len() == 0 {
        0
    } else {
        val_of(s.drop_last()) * 61 + digit_of(s.last())
    }
}

/// What parsing a base-61 string yields: the value, provided every character
/// is in the alphabet and the value fits in a `u64`.
pub open spec fn spec_parse61(s: Seq<char>) -> Option<u64> {
    if all_b61(s) && val_of(s) <= u64::MAX {
        Some(val_of(s) as u64)
    } else {
        None
    }
}

pub proof fn lemma_sym_of(d: int)
    requires
        0 <= d < 61,
    ensures
        is_b61(sym_of(d)),
        sym_of(d) != '0',
        digit_of(sym_of(d)) == d,
{
}

/// The encoder's alphabet never contains the character `'0'`: digit 0 is
/// assigned to `'1'`, leaving `'0'` free as the cursor delimiter.
pub proof fn lemma_enc_pos_valid(n: nat)
    ensures
        all_b61(enc_pos(n)),
        forall|i: int| 0 <= i < enc_pos(n).len() ==> #[trigger] enc_pos(n)[i] != '0',
        n > 0 ==> enc_pos(n).len() >= 1,
    decreases n,
{
    if n > 0 {
        lemma_enc_pos_valid(n / 61);
        lemma_sym_of((n % 61) as int);
        assert forall|i: int| 0 <= i < enc_pos(n).len() implies is_b61(#[trigger] enc_pos(n)[i])
            && enc_pos(n)[i] != '0' by {
            if i < enc_pos(n).len() - 1 {
                assert(enc_pos(n)[i] == enc_pos(n / 61)[i]);
            } else {
                assert(enc_pos(n)[i] == sym_of((n % 61) as int));
            }
        }
    }
}

/// Every character an encoding can contain lies in the alphabet and is
/// never `'0'`.
pub proof fn lemma_enc_valid(n: nat)
    ensures
        all_b61(enc(n)),
        forall|i: int| 0 <= i < enc(n).len() ==> #[trigger] enc(n)[i] != '0',
        enc(n).len() >= 1,
{
    lemma_enc_pos_valid(n);
}

/// Decoding inverts encoding at the level of digit strings.
pub proof fn lemma_val_of_enc_pos(n: nat)
    ensures
        val_of(enc_pos(n)) == n,
    decreases n,
{
    if n > 0 {
        lemma_val_of_enc_pos(n / 61);
        lemma_sym_of((n % 61) as int);
        let s = enc_pos(n);
        assert(s.drop_last() =~= enc_pos(n / 61));
        assert(val_of(s) == (n / 61) * 61 + (n % 61));
    }
}

pub proof fn lemma_val_of_enc(n: nat)
    ensures
        val_of(enc(n)) == n,
{
    if n == 0 {
        let s = enc(0);
        assert(s.len() == 1 && s.last() == '1');
        assert(s.drop_last() =~= Seq::<char>::empty());
        assert(val_of(s) == val_of(Seq::<char>::empty()) * 61 + digit_of('1'));
    } else {
        lemma_val_of_enc_pos(n);
    }
}

pub open spec fn pow61(k: nat) -> nat
    decreases k,
{
    if k == 0 {
        1
    } else {
        61 * pow61((k - 1) as nat)
    }
}

pub proof fn lemma_enc_pos_len(n: nat, k: nat)
    requires
        n < pow61(k),
    ensures
        enc_pos(n).len() <= k,
    decreases k,
{
    if n > 0 {
        assert(k > 0);
        assert(n / 61 < pow61((k - 1) as nat)) by (nonlinear_arith)
            requires n < pow61(k), pow61(k) == 61 * pow61((k - 1) as nat), n > 0;
        lemma_enc_pos_len(n / 61, (k - 1) as nat);
    }
}

/// No `u64` needs more than 11 base-61 digits.
pub proof fn lemma_enc_u64_len(n: u64)
    ensures
        1 <= enc(n as nat).len() <= 11,
{
    lemma_enc_valid(n as nat);
    reveal_with_fuel(pow61, 12);
    assert(pow61(11) == 43513917611435838661);
    lemma_enc_pos_len(n as nat, 11);
}

/// Prefixes of a digit string never carry a larger value than the whole,
/// so an overflow seen midway through parsing is final.
pub proof fn lemma_val_of_prefix(s: Seq<char>, j: int)
    requires
        0 <= j <= s.len(),
        all_b61(s),
    ensures
        val_of(s.take(j)) <= val_of(s),
        val_of(s) >= 0,
    decreases s.len(),
{
    if s.len() == 0 {
    } else {
        lemma_val_of_prefix(s.drop_last(), if j < s.len() { j } else { (s.len() - 1) as int });
        if j < s.len() {
            assert(s.take(j) =~= s.drop_last().take(j));
        } else {
            assert(s.take(j) =~= s);
        }
        assert(0 <= digit_of(s.last()) < 61);
        assert(val_of(s.drop_last()) * 61 >= val_of(s.drop_last())) by (nonlinear_arith)
            requires val_of(s.drop_last()) >= 0;
    }
}

/// Symbol of one digit, written with the three-band arithmetic.
fn sym_char(d: u64) -> (c: char)
    requires
        d < 61,
    ensures
        c == sym_of(d as int),
{
    let b: u8 = if d < 9 {
        (d + 49) as u8
    } else if d < 35 {
        (d + 56) as u8
    } else {
        (d + 62) as u8
    };
    b as char
}

fn enc_pos_exec(num: u64) -> (r: String)
    ensures
        r@ == enc_pos(num as nat),
    decreases num,
{
    if num == 0 {
        String::new()
    } else {
        let mut s = enc_pos_exec(num / 61);
        let c = sym_char(num % 61);
        push_char(&mut s, c);
        s
    }
}

/// Base-61 encoding of a number. The result is 1 to 11 characters, drawn
/// from `[1-9A-Za-z]` only; zero encodes as `"1"` rather than as an empty
/// string, so a watermark of zero still yields a well-formed cursor.
pub fn num_to_alphanumeric(num: u64) -> (r: String)
    ensures
        r@ == enc(num as nat),
        1 <= r@.len() <= 11,
{
    proof {
        lemma_enc_u64_len(num);
    }
    if num == 0 {
        let mut s = String::new();
        push_char(&mut s, '1');
        proof {
            assert(s@ =~= enc(0));
        }
        s
    } else {
        enc_pos_exec(num)
    }
}

/// Base-61 decoding, left to right. Returns `None` on any character outside
/// the three bands and on values that do not fit in a `u64`.
pub fn alphanumeric_to_num(s: &str) -> (r: Option<u64>)
    ensures
        r == spec_parse61(s@),
{
    let n = s.unicode_len();
    let mut num: u64 = 0;
    let mut i: usize = 0;
    while i < n
        invariant
            0 <= i <= n,
            n == s@.len(),
            all_b61(s@.take(i as int)),
            num == val_of(s@.take(i as int)),
        decreases n - i,
    {
        let c = s.get_char(i);
        let d: u64 = if '1' <= c && c <= '9' {
            c as u64 - 49
        } else if 'A' <= c && c <= 'Z' {
            c as u64 - 56
        } else if 'a' <= c && c <= 'z' {
            c as u64 - 62
        } else {
            proof {
                assert(!is_b61(s@[i as int]));
            }
            return None;
        };
        proof {
            assert(is_b61(c) && d == digit_of(c));
            assert(s@.take(i + 1).drop_last() =~= s@.take(i as int));
        }
        let m = match num.checked_mul(61) {
            Some(m) => m,
            None => {
                proof {
                    overflow_is_final(s@, i as int, num, d);
                }
                return None;
            },
        };
        let num2 = match m.checked_add(d) {
            Some(v) => v,
            None => {
                proof {
                    overflow_is_final(s@, i as int, num, d);
                }
                return None;
            },
        };
        num = num2;
        i = i + 1;
    }
    proof {
        assert(s@.take(n as int) =~= s@);
    }
    Some(num)
}

/// If the running value exceeds `u64::MAX` at position `i`, the whole
/// string's value does too, and parsing is rightly refused.
proof fn overflow_is_final(s: Seq<char>, i: int, num: u64, d: u64)
    requires
        0 <= i < s.len(),
        all_b61(s.take(i)),
        is_b61(s[i]),
        num == val_of(s.take(i)),
        d == digit_of(s[i]),
        num * 61 + d > u64::MAX,
    ensures
        spec_parse61(s) is None,
{
    if all_b61(s) {
        assert(s.take(i + 1).drop_last() =~= s.take(i));
        assert(s.take(i + 1).last() == s[i]);
        assert(val_of(s.take(i + 1)) == num * 61 + d);
        lemma_val_of_prefix(s, i + 1);
    }
}

/// A cursor is exactly 16 characters: the page, a run of at least one `'0'`,
/// and the watermark.
pub open spec fn cursor_of(page: nat, ts: nat) -> Seq<char> {
    enc(page) + Seq::new((16 - enc(page).len() - enc(ts).len()) as nat, |i: int| '0') + enc(ts)
}

/// Both encoded parts, plus at least one delimiter character, must fit in
/// the fixed 16-character width.
pub open spec fn cursor_fits(page: nat, ts: nat) -> bool {
    enc(page).len() + enc(ts).len() <= 15
}

/// Builds the fixed-width cursor for a page number and a watermark.
/// Fails exactly when the two encoded parts leave no room for a delimiter.
pub fn encode_cursor(page: u64, ts: u64) -> (r: Option<String>)
    ensures
        cursor_fits(page as nat, ts as nat) ==> (r matches Some(s) && s@ == cursor_of(
            page as nat,
            ts as nat,
        ) && s@.len() == 16),
        !cursor_fits(page as nat, ts as nat) ==> r is None,
{
    let p = num_to_alphanumeric(page);
    let t = num_to_alphanumeric(ts);
    let lp = p.unicode_len();
    let lt = t.unicode_len();
    if lp + lt > 15 {
        return None;
    }
    let k = 16 - lp - lt;
    let mut s = p;
    let mut j: usize = 0;
    while j < k
        invariant
            0 <= j <= k,
            s@ == enc(page as nat) + Seq::new(j as nat, |i: int| '0'),
        decreases k - j,
    {
        push_char(&mut s, '0');
        proof {
            assert(s@ =~= enc(page as nat) + Seq::new((j + 1) as nat, |i: int| '0'));
        }
        j = j + 1;
    }
    s.append(t.as_str());
    proof {
        assert(s@ =~= cursor_of(page as nat, ts as nat));
        assert(s@.len() == 16);
    }
    Some(s)
}

/// Index of the first `'0'` in `s`, or `s.len()` if there is none.
pub open spec fn first_zero(s: Seq<char>) -> int
    decreases s.len(),
{
    if s.len() == 0 {
        0
    } else if s[0] == '0' {
        0
    } else {
        1 + first_zero(s.drop_first())
    }
}

/// First index at or after `i` whose character is not `'0'`, or `s.len()`.
pub open spec fn run_end(s: Seq<char>, i: int) -> int
    decreases s.len() - i,
{
    if i < 0 || i >= s.len() {
        s.len() as int
    } else if s[i] == '0' {
        run_end(s, i + 1)
    } else {
        i
    }
}

/// What decoding a cursor yields. The string splits at the first `'0'`:
/// before it the page part, after the run of `'0'` characters the watermark
/// part. Decoding fails on an empty page part, an empty watermark part, a
/// part longer than 11 characters, a character outside the alphabet, or a
/// watermark value that does not fit a `u64` millisecond timestamp.
pub open spec fn spec_decode_cursor(s: Seq<char>) -> Option<(u64, u64)> {
    let p = s.take(first_zero(s));
    let t = s.skip(run_end(s, first_zero(s)));
    if p.len() == 0 || t.len() == 0 || p.len() > 11 || t.len() > 11 {
        None
    } else {
        match (spec_parse61(p), spec_parse61(t)) {
            (Some(page), Some(ts)) => Some((page, ts)),
            _ => None,
        }
    }
}

proof fn lemma_first_zero_bounds(s: Seq<char>)
    ensures
        0 <= first_zero(s) <= s.len(),
        forall|i: int| 0 <= i < first_zero(s) ==> #[trigger] s[i] != '0',
        first_zero(s) < s.len() ==> s[first_zero(s)] == '0',
    decreases s.len(),
{
    if s.len() > 0 && s[0] != '0' {
        lemma_first_zero_bounds(s.drop_first());
        assert forall|i: int| 0 <= i < first_zero(s) implies #[trigger] s[i] != '0' by {
            if i > 0 {
                assert(s.drop_first()[i - 1] == s[i]);
            }
        }
        if first_zero(s) < s.len() {
            assert(s.drop_first()[first_zero(s.drop_first())] == s[first_zero(s)]);
        }
    }
}

proof fn lemma_run_end_bounds(s: Seq<char>, i: int)
    requires
        0 <= i <= s.len(),
    ensures
        i <= run_end(s, i) <= s.len(),
        forall|j: int| i <= j < run_end(s, i) ==> #[trigger] s[j] == '0',
        run_end(s, i) < s.len() ==> s[run_end(s, i)] != '0',
    decreases s.len() - i,
{
    if i < s.len() && s[i] == '0' {
        lemma_run_end_bounds(s, i + 1);
    }
}

/// Decodes a cursor. No part of the store is consulted: a malformed cursor
/// is rejected before any query could be made from it.
pub fn decode_cursor(s: &str) -> (r: Option<(u64, u64)>)
    ensures
        r == spec_decode_cursor(s@),
{
    proof {
        lemma_first_zero_bounds(s@);
        lemma_run_end_bounds(s@, first_zero(s@));
    }
    let n = s.unicode_len();
    let mut i: usize = 0;
    while i < n && s.get_char(i) != '0'
        invariant
            0 <= i <= n,
            n == s@.len(),
            forall|j: int| 0 <= j < i ==> #[trigger] s@[j] != '0',
            i as int <= first_zero(s@),
        decreases n - i,
    {
        i = i + 1;
        proof {
            first_zero_step(s@, i as int);
        }
    }
    proof {
        assert(i as int == first_zero(s@));
    }
    let mut j: usize = i;
    while j < n && s.get_char(j) == '0'
        invariant
            i <= j <= n,
            n == s@.len(),
            i as int == first_zero(s@),
            forall|l: int| i <= l < j ==> #[trigger] s@[l] == '0',
            j as int <= run_end(s@, i as int),
        decreases n - j,
    {
        j = j + 1;
        proof {
            run_end_step(s@, i as int, j as int);
        }
    }
    proof {
        assert(j as int == run_end(s@, i as int));
    }
    let page_part = s.substring_char(0, i);
    let ts_part = s.substring_char(j, n);
    proof {
        assert(page_part@ =~= s@.take(first_zero(s@)));
        assert(ts_part@ =~= s@.skip(run_end(s@, first_zero(s@))));
    }
    if i == 0 || j == n || i > 11 || n - j > 11 {
        return None;
    }
    let page = match alphanumeric_to_num(page_part) {
        Some(v) => v,
        None => {
            return None;
        },
    };
    let ts = match alphanumeric_to_num(ts_part) {
        Some(v) => v,
        None => {
            return None;
        },
    };
    Some((page, ts))
}

/// A prefix free of `'0'` keeps the first-`'0'` scan moving right.
proof fn first_zero_step(s: Seq<char>, i: int)
    requires
        0 <= i <= s.len(),
        forall|j: int| 0 <= j < i ==> #[trigger] s[j] != '0',
    ensures
        i <= first_zero(s),
{
    lemma_first_zero_bounds(s);
    if first_zero(s) < i {
        assert(s[first_zero(s)] == '0');
        assert(false);
    }
}

proof fn run_end_step(s: Seq<char>, i: int, j: int)
    requires
        0 <= i <= j <= s.len(),
        forall|l: int| i <= l < j ==> #[trigger] s[l] == '0',
    ensures
        j <= run_end(s, i),
    decreases j - i,
{
    lemma_run_end_bounds(s, i);
    if j > i {
        assert(s[i] == '0');
        run_end_step(s, i + 1, j);
        assert(run_end(s, i) == run_end(s, i + 1));
    }
}

/// Round trip: every cursor the encoder can build decodes to the page and
/// watermark it was built from.
pub proof fn lemma_cursor_round_trip(page: u64, ts: u64)
    requires
        cursor_fits(page as nat, ts as nat),
    ensures
        spec_decode_cursor(cursor_of(page as nat, ts as nat)) == Some((page, ts)),
{
    let p = enc(page as nat);
    let t = enc(ts as nat);
    let k = (16 - p.len() - t.len()) as nat;
    let z = Seq::new(k, |i: int| '0');
    let s = cursor_of(page as nat, ts as nat);
    lemma_enc_u64_len(page);
    lemma_enc_u64_len(ts);
    lemma_enc_valid(page as nat);
    lemma_enc_valid(ts as nat);
    assert(k >= 1);
    lemma_first_zero_prefix(s, p.len() as int);
    assert(first_zero(s) == p.len());
    lemma_run_end_run(s, p.len() as int, (p.len() + k) as int);
    assert(run_end(s, p.len() as int) == p.len() + k);
    assert(s.take(p.len() as int) =~= p);
    assert(s.skip((p.len() + k) as int) =~= t);
    lemma_val_of_enc(page as nat);
    lemma_val_of_enc(ts as nat);
}

/// If the first `l` characters are not `'0'` and the next one is, the scan
/// for the delimiter stops exactly at `l`.
proof fn lemma_first_zero_prefix(s: Seq<char>, l: int)
    requires
        0 <= l < s.len(),
        forall|i: int| 0 <= i < l ==> #[trigger] s[i] != '0',
        s[l] == '0',
    ensures
        first_zero(s) == l,
{
    lemma_first_zero_bounds(s);
}

/// A run of `'0'` from `i` to `e` followed by a character that is not `'0'`
/// (or the end) ends exactly at `e`.
proof fn lemma_run_end_run(s: Seq<char>, i: int, e: int)
    requires
        0 <= i <= e <= s.len(),
        forall|j: int| i <= j < e ==> #[trigger] s[j] == '0',
        e < s.len() ==> s[e] != '0',
    ensures
        run_end(s, i) == e,
{
    lemma_run_end_bounds(s, i);
    run_end_step(s, i, e);
}

} // verus!
