//! Primitives of the line grammar: decimal integers, numeric texts, quoted
//! strings and fixed literals.
//!
//! Each primitive comes as a spec-level encoder or parser over `Seq<char>`,
//! an executable counterpart proved to match it, and an inversion lemma
//! stating that the parser recovers exactly what the encoder produced.
//! Parsers work on a suffix of the line and hand back the unread rest.

use vstd::prelude::*;
use vstd::arithmetic::div_mod::lemma_fundamental_div_mod;
use vstd::string::StrSliceExecFns;
use vstd::string::StringExecFns;

verus! {

// ---------------------------------------------------------------------------
// Character classes
// ---------------------------------------------------------------------------

pub open spec fn is_digit(c: char) -> bool {
    c == '0' || c == '1' || c == '2' || c == '3' || c == '4' || c == '5' || c == '6' || c == '7'
        || c == '8' || c == '9'
}

pub open spec fn char_digit(c: char) -> nat {
    if c == '0' { 0 } else if c == '1' { 1 } else if c == '2' { 2 } else if c == '3' { 3 }
    else if c == '4' { 4 } else if c == '5' { 5 } else if c == '6' { 6 } else if c == '7' { 7 }
    else if c == '8' { 8 } else { 9 }
}

pub open spec fn digit_char(d: nat) -> char {
    if d == 0 { '0' } else if d == 1 { '1' } else if d == 2 { '2' } else if d == 3 { '3' }
    else if d == 4 { '4' } else if d == 5 { '5' } else if d == 6 { '6' } else if d == 7 { '7' }
    else if d == 8 { '8' } else { '9' }
}

/// Characters admitted in a numeric text: a JSON number never needs more.
pub open spec fn is_num_char(c: char) -> bool {
    is_digit(c) || c == '.' || c == '-' || c == '+' || c == 'e' || c == 'E'
}

/// A numeric text: non-empty and made of numeric characters only.
pub open spec fn wf_num(t: Seq<char>) -> bool {
    t.len() > 0 && forall|i: int| 0 <= i < t.len() ==> is_num_char(#[trigger] t[i])
}

/// Free of the two characters the quoted-string grammar reserves.
pub open spec fn json_safe(s: Seq<char>) -> bool {
    forall|i: int| 0 <= i < s.len() ==> #[trigger] s[i] != '"' && s[i] != '\\'
}

fn is_digit_exec(c: char) -> (r: bool)
    ensures
        r == is_digit(c),
{
    c == '0' || c == '1' || c == '2' || c == '3' || c == '4' || c == '5' || c == '6' || c == '7'
        || c == '8' || c == '9'
}

fn digit_val_exec(c: char) -> (r: u64)
    requires
        is_digit(c),
    ensures
        r == char_digit(c),
{
    if c == '0' { 0 } else if c == '1' { 1 } else if c == '2' { 2 } else if c == '3' { 3 }
    else if c == '4' { 4 } else if c == '5' { 5 } else if c == '6' { 6 } else if c == '7' { 7 }
    else if c == '8' { 8 } else { 9 }
}

fn is_num_char_exec(c: char) -> (r: bool)
    ensures
        r == is_num_char(c),
{
    is_digit_exec(c) || c == '.' || c == '-' || c == '+' || c == 'e' || c == 'E'
}

// ---------------------------------------------------------------------------
// Decimal integers
// ---------------------------------------------------------------------------

/// The canonical decimal digits of `n`, most significant first.
pub open spec fn dec_digits(n: nat) -> Seq<char>
    decreases n,
{
    if n < 10 {
        seq![digit_char(n)]
    } else {
        dec_digits(n / 10) + seq![digit_char(n % 10)]
    }
}

/// The value of a digit string, most significant first.
pub open spec fn val_of(ds: Seq<char>) -> nat
    decreases ds.len(),
{
    if ds.len() == 0 {
        0
    } else {
        val_of(ds.drop_last()) * 10 + char_digit(ds.last())
    }
}

pub proof fn lemma_dec_digits_are_digits(n: nat)
    ensures
        forall|i: int| 0 <= i < dec_digits(n).len() ==> is_digit(#[trigger] dec_digits(n)[i]),
    decreases n,
{
    if n < 10 {
        assert(dec_digits(n)[0] == digit_char(n));
        assert(is_digit(digit_char(n)));
    } else {
        lemma_dec_digits_are_digits(n / 10);
        let front = dec_digits(n / 10);
        assert(is_digit(digit_char(n % 10)));
        assert forall|i: int| 0 <= i < dec_digits(n).len() implies is_digit(
            #[trigger] dec_digits(n)[i],
        ) by {
            if i < front.len() {
                assert(dec_digits(n)[i] == front[i]);
            } else {
                assert(dec_digits(n)[i] == digit_char(n % 10));
            }
        }
    }
}

pub proof fn lemma_val_of_dec_digits(n: nat)
    ensures
        val_of(dec_digits(n)) == n,
    decreases n,
{
    if n < 10 {
        assert(dec_digits(n).drop_last() =~= Seq::<char>::empty());
        assert(dec_digits(n).last() == digit_char(n));
        assert(val_of(Seq::<char>::empty()) == 0);
        assert(val_of(dec_digits(n)) == char_digit(digit_char(n)));
    } else {
        lemma_val_of_dec_digits(n / 10);
        let ds = dec_digits(n);
        assert(ds.drop_last() =~= dec_digits(n / 10));
        assert(ds.last() == digit_char(n % 10));
        lemma_fundamental_div_mod(n as int, 10);
    }
}

/// The maximal run of digits at the head of `s`.
pub open spec fn digits_prefix(s: Seq<char>) -> Seq<char>
    decreases s.len(),
{
    if s.len() > 0 && is_digit(s[0]) {
        seq![s[0]] + digits_prefix(s.skip(1))
    } else {
        Seq::empty()
    }
}

pub proof fn lemma_digits_prefix_concat(ds: Seq<char>, rest: Seq<char>)
    requires
        forall|i: int| 0 <= i < ds.len() ==> is_digit(#[trigger] ds[i]),
        rest.len() == 0 || !is_digit(rest[0]),
    ensures
        digits_prefix(ds + rest) =~= ds,
    decreases ds.len(),
{
    if ds.len() == 0 {
        assert(ds + rest =~= rest);
    } else {
        assert((ds + rest).skip(1) =~= ds.skip(1) + rest);
        lemma_digits_prefix_concat(ds.skip(1), rest);
        assert(digits_prefix(ds + rest) =~= seq![ds[0]] + ds.skip(1));
        assert(seq![ds[0]] + ds.skip(1) =~= ds);
    }
}

/// Parse a decimal `u64`: the maximal digit run, rejected when empty or when
/// its value does not fit.
pub open spec fn sp_u64(s: Seq<char>) -> Option<(u64, Seq<char>)> {
    let ds = digits_prefix(s);
    if ds.len() == 0 {
        None
    } else if val_of(ds) > u64::MAX {
        None
    } else {
        Some(((val_of(ds) as u64), s.skip(ds.len() as int)))
    }
}

/// The parser recovers exactly the canonical encoding of `n`.
pub proof fn lemma_sp_u64_inv(n: u64, rest: Seq<char>)
    requires
        rest.len() == 0 || !is_digit(rest[0]),
    ensures
        sp_u64(dec_digits(n as nat) + rest) == Some((n, rest)),
{
    let ds = dec_digits(n as nat);
    lemma_dec_digits_are_digits(n as nat);
    lemma_digits_prefix_concat(ds, rest);
    lemma_val_of_dec_digits(n as nat);
    assert((ds + rest).skip(ds.len() as int) =~= rest);
}

/// Parse a decimal `u32` by range-checking a `u64` parse.
pub open spec fn sp_u32(s: Seq<char>) -> Option<(u32, Seq<char>)> {
    match sp_u64(s) {
        None => None,
        Some((n, r)) => if n <= u32::MAX as u64 {
            Some(((n as u32), r))
        } else {
            None
        },
    }
}

pub proof fn lemma_sp_u32_inv(n: u32, rest: Seq<char>)
    requires
        rest.len() == 0 || !is_digit(rest[0]),
    ensures
        sp_u32(dec_digits(n as nat) + rest) == Some((n, rest)),
{
    lemma_sp_u64_inv(n as u64, rest);
}

fn digit_str(d: u64) -> (r: &'static str)
    requires
        d < 10,
    ensures
        r@ =~= seq![digit_char(d as nat)],
{
    proof {
        reveal_strlit("0");
        reveal_strlit("1");
        reveal_strlit("2");
        reveal_strlit("3");
        reveal_strlit("4");
        reveal_strlit("5");
        reveal_strlit("6");
        reveal_strlit("7");
        reveal_strlit("8");
        reveal_strlit("9");
    }
    if d == 0 { "0" } else if d == 1 { "1" } else if d == 2 { "2" } else if d == 3 { "3" }
    else if d == 4 { "4" } else if d == 5 { "5" } else if d == 6 { "6" } else if d == 7 { "7" }
    else if d == 8 { "8" } else { "9" }
}

/// The canonical decimal rendering of `n`.
pub fn u64_to_dec(n: u64) -> (r: String)
    ensures
        r@ == dec_digits(n as nat),
    decreases n,
{
    if n < 10 {
        let r = String::from_str(digit_str(n));
        proof {
            assert(r@ =~= dec_digits(n as nat));
        }
        r
    } else {
        let front = u64_to_dec(n / 10);
        let r = front.concat(digit_str(n % 10));
        proof {
            assert(r@ =~= dec_digits(n as nat));
        }
        r
    }
}

/// Executable `u64` parse at position `i`, matching `sp_u64` on the suffix.
pub fn p_u64(s: &str, i: usize) -> (r: Option<(u64, usize)>)
    requires
        i <= s@.len(),
    ensures
        match r {
            Some((n, j)) => i <= j <= s@.len() && sp_u64(s@.skip(i as int)) == Some((
                n,
                s@.skip(j as int),
            )),
            None => sp_u64(s@.skip(i as int)) is None,
        },
{
    let len = s.unicode_len();
    let mut j: usize = i;
    while j < len && is_digit_exec(s.get_char(j))
        invariant
            len == s@.len(),
            i <= j <= len,
            forall|m: int| i <= m < j ==> is_digit(#[trigger] s@[m]),
        decreases len - j,
    {
        j = j + 1;
    }
    let ghost suff = s@.skip(i as int);
    let ghost ds = s@.subrange(i as int, j as int);
    proof {
        assert(suff =~= ds + s@.skip(j as int));
        lemma_digits_prefix_concat(ds, s@.skip(j as int));
    }
    if j == i {
        return None;
    }
    let mut acc: u64 = 0;
    let mut over: bool = false;
    let mut k: usize = i;
    while k < j
        invariant
            len == s@.len(),
            i <= k <= j <= len,
            forall|m: int| i <= m < j ==> is_digit(#[trigger] s@[m]),
            !over ==> acc as nat == val_of(s@.subrange(i as int, k as int)),
            over ==> val_of(s@.subrange(i as int, k as int)) > u64::MAX,
        decreases j - k,
    {
        let c = s.get_char(k);
        let d = digit_val_exec(c);
        proof {
            let pre = s@.subrange(i as int, k as int);
            let pre1 = s@.subrange(i as int, k + 1 as int);
            assert(pre1.drop_last() =~= pre);
            assert(pre1.last() == s@[k as int]);
            assert(val_of(pre1) == val_of(pre) * 10 + char_digit(s@[k as int]));
        }
        if !over {
            if acc <= (u64::MAX - d) / 10 {
                proof {
                    lemma_fundamental_div_mod((u64::MAX - d) as int, 10);
                }
                acc = acc * 10 + d;
            } else {
                proof {
                    lemma_fundamental_div_mod((u64::MAX - d) as int, 10);
                    assert(acc as nat * 10 + d > u64::MAX);
                }
                over = true;
            }
        }
        k = k + 1;
    }
    proof {
        assert(s@.subrange(i as int, j as int) == ds);
    }
    if over {
        None
    } else {
        proof {
            assert(suff.skip(ds.len() as int) =~= s@.skip(j as int));
        }
        Some((acc, j))
    }
}

/// Executable `u32` parse at position `i`, matching `sp_u32` on the suffix.
pub fn p_u32(s: &str, i: usize) -> (r: Option<(u32, usize)>)
    requires
        i <= s@.len(),
    ensures
        match r {
            Some((n, j)) => i <= j <= s@.len() && sp_u32(s@.skip(i as int)) == Some((
                n,
                s@.skip(j as int),
            )),
            None => sp_u32(s@.skip(i as int)) is None,
        },
{
    match p_u64(s, i) {
        None => None,
        Some((n, j)) => {
            if n <= u32::MAX as u64 {
                Some((n as u32, j))
            } else {
                None
            }
        },
    }
}

// ---------------------------------------------------------------------------
// Numeric texts
// ---------------------------------------------------------------------------

/// The maximal run of numeric characters at the head of `s`.
pub open spec fn num_prefix(s: Seq<char>) -> Seq<char>
    decreases s.len(),
{
    if s.len() > 0 && is_num_char(s[0]) {
        seq![s[0]] + num_prefix(s.skip(1))
    } else {
        Seq::empty()
    }
}

pub proof fn lemma_num_prefix_concat(t: Seq<char>, rest: Seq<char>)
    requires
        forall|i: int| 0 <= i < t.len() ==> is_num_char(#[trigger] t[i]),
        rest.len() == 0 || !is_num_char(rest[0]),
    ensures
        num_prefix(t + rest) =~= t,
    decreases t.len(),
{
    if t.len() == 0 {
        assert(t + rest =~= rest);
    } else {
        assert((t + rest).skip(1) =~= t.skip(1) + rest);
        lemma_num_prefix_concat(t.skip(1), rest);
        assert(num_prefix(t + rest) =~= seq![t[0]] + t.skip(1));
        assert(seq![t[0]] + t.skip(1) =~= t);
    }
}

/// Parse a numeric text: the maximal run of numeric characters, non-empty.
pub open spec fn sp_num(s: Seq<char>) -> Option<(Seq<char>, Seq<char>)> {
    let t = num_prefix(s);
    if t.len() == 0 {
        None
    } else {
        Some((t, s.skip(t.len() as int)))
    }
}

pub proof fn lemma_sp_num_inv(t: Seq<char>, rest: Seq<char>)
    requires
        wf_num(t),
        rest.len() == 0 || !is_num_char(rest[0]),
    ensures
        sp_num(t + rest) == Some((t, rest)),
{
    lemma_num_prefix_concat(t, rest);
    assert((t + rest).skip(t.len() as int) =~= rest);
}

/// Executable numeric-text parse at position `i`, matching `sp_num`.
pub fn p_num(s: &str, i: usize) -> (r: Option<(String, usize)>)
    requires
        i <= s@.len(),
    ensures
        match r {
            Some((t, j)) => i <= j <= s@.len() && sp_num(s@.skip(i as int)) == Some((
                t@,
                s@.skip(j as int),
            )) && wf_num(t@),
            None => sp_num(s@.skip(i as int)) is None,
        },
{
    let len = s.unicode_len();
    let mut j: usize = i;
    while j < len && is_num_char_exec(s.get_char(j))
        invariant
            len == s@.len(),
            i <= j <= len,
            forall|m: int| i <= m < j ==> is_num_char(#[trigger] s@[m]),
        decreases len - j,
    {
        j = j + 1;
    }
    let ghost suff = s@.skip(i as int);
    let ghost t = s@.subrange(i as int, j as int);
    proof {
        assert(suff =~= t + s@.skip(j as int));
        lemma_num_prefix_concat(t, s@.skip(j as int));
    }
    if j == i {
        return None;
    }
    let out = String::from_str(s.substring_char(i, j));
    proof {
        assert(suff.skip(t.len() as int) =~= s@.skip(j as int));
    }
    Some((out, j))
}

// ---------------------------------------------------------------------------
// Fixed literals
// ---------------------------------------------------------------------------

/// Consume the exact literal `lit` at the head of `s`.
pub open spec fn sp_lit(s: Seq<char>, lit: Seq<char>) -> Option<Seq<char>> {
    if lit.len() <= s.len() && s.take(lit.len() as int) == lit {
        Some(s.skip(lit.len() as int))
    } else {
        None
    }
}

pub proof fn lemma_sp_lit_inv(lit: Seq<char>, rest: Seq<char>)
    ensures
        sp_lit(lit + rest, lit) == Some(rest),
{
    assert((lit + rest).take(lit.len() as int) =~= lit);
    assert((lit + rest).skip(lit.len() as int) =~= rest);
}

pub proof fn lemma_sp_lit_fail(s: Seq<char>, lit: Seq<char>, k: int)
    requires
        0 <= k < lit.len(),
        k < s.len(),
        s[k] != lit[k],
    ensures
        sp_lit(s, lit) is None,
{
    if lit.len() <= s.len() {
        assert(s.take(lit.len() as int)[k] == s[k]);
    }
}

/// Executable literal match at position `i`, matching `sp_lit` on the suffix.
pub fn p_lit(s: &str, i: usize, lit: &str) -> (r: Option<usize>)
    requires
        i <= s@.len(),
    ensures
        match r {
            Some(j) => i <= j <= s@.len() && sp_lit(s@.skip(i as int), lit@) == Some(
                s@.skip(j as int),
            ),
            None => sp_lit(s@.skip(i as int), lit@) is None,
        },
{
    let len = s.unicode_len();
    let n = lit.unicode_len();
    if n > len - i {
        proof {
            assert(s@.skip(i as int).len() < lit@.len());
        }
        return None;
    }
    let mut k: usize = 0;
    while k < n
        invariant
            len == s@.len(),
            n == lit@.len(),
            i + n <= len,
            k <= n,
            forall|m: int| 0 <= m < k ==> s@[i + m] == lit@[m],
        decreases n - k,
    {
        if s.get_char(i + k) != lit.get_char(k) {
            proof {
                assert(s@.skip(i as int)[k as int] == s@[i + k]);
                lemma_sp_lit_fail(s@.skip(i as int), lit@, k as int);
            }
            return None;
        }
        k = k + 1;
    }
    proof {
        assert(s@.skip(i as int).take(n as int) =~= lit@);
        assert(s@.skip(i as int).skip(n as int) =~= s@.skip(i + n as int));
    }
    Some(i + n)
}

pub proof fn lemma_num_prefix_le(s: Seq<char>)
    ensures
        num_prefix(s).len() <= s.len(),
    decreases s.len(),
{
    if s.len() > 0 && is_num_char(s[0]) {
        lemma_num_prefix_le(s.skip(1));
    }
}

/// A successful numeric-text parse consumes exactly the text, at least one
/// character.
pub proof fn lemma_sp_num_len(s: Seq<char>)
    requires
        sp_num(s) is Some,
    ensures
        sp_num(s)->Some_0.1.len() + sp_num(s)->Some_0.0.len() == s.len(),
        sp_num(s)->Some_0.0.len() >= 1,
{
    lemma_num_prefix_le(s);
}

// ---------------------------------------------------------------------------
// Quoted strings
// ---------------------------------------------------------------------------

/// The escaped form of one character inside a quoted string: the two
/// characters the grammar reserves get a backslash, everything else stands
/// as it is.
pub open spec fn esc_char(c: char) -> Seq<char> {
    if c == '"' {
        seq!['\\', '"']
    } else if c == '\\' {
        seq!['\\', '\\']
    } else {
        seq![c]
    }
}

/// The escaped form of a string body.
pub open spec fn esc(s: Seq<char>) -> Seq<char>
    decreases s.len(),
{
    if s.len() == 0 {
        Seq::empty()
    } else {
        esc_char(s[0]) + esc(s.skip(1))
    }
}

/// `s` wrapped in double quotes, its body escaped.
pub open spec fn enc_str(s: Seq<char>) -> Seq<char> {
    seq!['"'] + esc(s) + seq!['"']
}

pub proof fn lemma_esc_concat(a: Seq<char>, b: Seq<char>)
    ensures
        esc(a + b) =~= esc(a) + esc(b),
    decreases a.len(),
{
    if a.len() == 0 {
        assert(a + b =~= b);
    } else {
        assert((a + b).skip(1) =~= a.skip(1) + b);
        lemma_esc_concat(a.skip(1), b);
        assert(esc(a + b) =~= esc_char(a[0]) + (esc(a.skip(1)) + esc(b)));
        assert(esc(a) + esc(b) =~= esc_char(a[0]) + (esc(a.skip(1)) + esc(b)));
    }
}

/// A body free of the reserved characters escapes to itself.
pub proof fn lemma_esc_safe(s: Seq<char>)
    requires
        json_safe(s),
    ensures
        esc(s) =~= s,
    decreases s.len(),
{
    if s.len() > 0 {
        assert(json_safe(s.skip(1)));
        lemma_esc_safe(s.skip(1));
        assert(esc(s) =~= seq![s[0]] + s.skip(1));
        assert(seq![s[0]] + s.skip(1) =~= s);
    }
}

/// Scan a string body up to its closing quote, unescaping `\"` and `\\`;
/// any other use of a backslash is refused.
pub open spec fn sp_str_body(s: Seq<char>) -> Option<(Seq<char>, Seq<char>)>
    decreases s.len(),
{
    if s.len() == 0 {
        None
    } else if s[0] == '"' {
        Some((Seq::empty(), s.skip(1)))
    } else if s[0] == '\\' {
        if s.len() >= 2 && (s[1] == '"' || s[1] == '\\') {
            match sp_str_body(s.skip(2)) {
                None => None,
                Some((b, r)) => Some((seq![s[1]] + b, r)),
            }
        } else {
            None
        }
    } else {
        match sp_str_body(s.skip(1)) {
            None => None,
            Some((b, r)) => Some((seq![s[0]] + b, r)),
        }
    }
}

/// Parse a quoted string.
pub open spec fn sp_str(s: Seq<char>) -> Option<(Seq<char>, Seq<char>)> {
    if s.len() > 0 && s[0] == '"' {
        sp_str_body(s.skip(1))
    } else {
        None
    }
}

proof fn lemma_sp_str_body_inv(b: Seq<char>, rest: Seq<char>)
    ensures
        sp_str_body(esc(b) + seq!['"'] + rest) == Some((b, rest)),
    decreases b.len(),
{
    let s = esc(b) + seq!['"'] + rest;
    if b.len() == 0 {
        assert(s[0] == '"');
        assert(s.skip(1) =~= rest);
    } else {
        let c = b[0];
        let b1 = b.skip(1);
        assert(esc(b) =~= esc_char(c) + esc(b1));
        lemma_sp_str_body_inv(b1, rest);
        if c == '"' || c == '\\' {
            assert(s[0] == '\\');
            assert(s[1] == c);
            assert(s.skip(2) =~= esc(b1) + seq!['"'] + rest);
            assert(seq![c] + b1 =~= b);
        } else {
            assert(s[0] == c);
            assert(s.skip(1) =~= esc(b1) + seq!['"'] + rest);
            assert(seq![c] + b1 =~= b);
        }
    }
}

/// The parser recovers exactly a quoted, escaped body — for every body.
pub proof fn lemma_sp_str_inv(b: Seq<char>, rest: Seq<char>)
    ensures
        sp_str(enc_str(b) + rest) == Some((b, rest)),
{
    let s = enc_str(b) + rest;
    assert(s[0] == '"');
    assert(s.skip(1) =~= esc(b) + seq!['"'] + rest);
    lemma_sp_str_body_inv(b, rest);
}

/// A run of unreserved characters passes through the body scan unchanged.
proof fn lemma_sp_str_body_seg(seg: Seq<char>, rest: Seq<char>)
    requires
        json_safe(seg),
    ensures
        sp_str_body(seg + rest) == (match sp_str_body(rest) {
            None => None::<(Seq<char>, Seq<char>)>,
            Some((b, r)) => Some((seg + b, r)),
        }),
    decreases seg.len(),
{
    if seg.len() == 0 {
        assert(seg + rest =~= rest);
        match sp_str_body(rest) {
            None => {},
            Some((b, r)) => {
                assert(seg + b =~= b);
            },
        }
    } else {
        let s = seg + rest;
        assert(s[0] == seg[0]);
        assert(json_safe(seg.skip(1)));
        assert(s.skip(1) =~= seg.skip(1) + rest);
        lemma_sp_str_body_seg(seg.skip(1), rest);
        match sp_str_body(rest) {
            None => {},
            Some((b, r)) => {
                assert(seq![seg[0]] + (seg.skip(1) + b) =~= seg + b);
            },
        }
    }
}

/// One escape pair contributes its unescaped character.
proof fn lemma_sp_str_body_esc(c: char, rest: Seq<char>)
    requires
        c == '"' || c == '\\',
    ensures
        sp_str_body(seq!['\\', c] + rest) == (match sp_str_body(rest) {
            None => None::<(Seq<char>, Seq<char>)>,
            Some((b, r)) => Some((seq![c] + b, r)),
        }),
{
    let s = seq!['\\', c] + rest;
    assert(s[0] == '\\');
    assert(s[1] == c);
    assert(s.skip(2) =~= rest);
}

proof fn lemma_sp_str_body_len(s: Seq<char>)
    requires
        sp_str_body(s) is Some,
    ensures
        sp_str_body(s)->Some_0.1.len() < s.len(),
    decreases s.len(),
{
    if s.len() > 0 && s[0] != '"' {
        if s[0] == '\\' {
            lemma_sp_str_body_len(s.skip(2));
        } else {
            lemma_sp_str_body_len(s.skip(1));
        }
    }
}

/// A successful string parse consumes the opening quote and more.
pub proof fn lemma_sp_str_len(s: Seq<char>)
    requires
        sp_str(s) is Some,
    ensures
        sp_str(s)->Some_0.1.len() + 2 <= s.len(),
{
    lemma_sp_str_body_len(s.skip(1));
}

/// Executable quoted-string parse at position `i`, matching `sp_str` on the
/// suffix: the returned body is the unescaped text.
pub fn p_str(s: &str, i: usize) -> (r: Option<(String, usize)>)
    requires
        i <= s@.len(),
    ensures
        match r {
            Some((b, j)) => i <= j <= s@.len() && sp_str(s@.skip(i as int)) == Some((
                b@,
                s@.skip(j as int),
            )),
            None => sp_str(s@.skip(i as int)) is None,
        },
{
    let len = s.unicode_len();
    if i >= len || s.get_char(i) != '"' {
        return None;
    }
    let ghost body = s@.skip(i + 1 as int);
    proof {
        assert(s@.skip(i as int)[0] == s@[i as int]);
        assert(s@.skip(i as int).skip(1) =~= body);
    }
    let mut out = String::new();
    let mut seg_start: usize = i + 1;
    let mut j: usize = i + 1;
    loop
        invariant
            len == s@.len(),
            i + 1 <= seg_start <= j <= len,
            body == s@.skip(i + 1 as int),
            sp_str(s@.skip(i as int)) == sp_str_body(body),
            forall|m: int| seg_start <= m < j ==> #[trigger] s@[m] != '"' && s@[m] != '\\',
            (match sp_str_body(s@.skip(seg_start as int)) {
                None => sp_str_body(body) is None,
                Some((b, r)) => sp_str_body(body) == Some((out@ + b, r)),
            }),
        decreases len - j,
    {
        let ghost seg = s@.subrange(seg_start as int, j as int);
        if j == len {
            proof {
                assert(s@.skip(seg_start as int) =~= seg + s@.skip(j as int));
                assert(s@.skip(j as int).len() == 0);
                lemma_sp_str_body_seg(seg, s@.skip(j as int));
            }
            return None;
        }
        let c = s.get_char(j);
        if c == '"' {
            proof {
                assert(s@.skip(seg_start as int) =~= seg + (seq!['"'] + s@.skip(j + 1 as int)));
                lemma_sp_str_body_seg(seg, seq!['"'] + s@.skip(j + 1 as int));
                assert((seq!['"'] + s@.skip(j + 1 as int))[0] == '"');
                assert((seq!['"'] + s@.skip(j + 1 as int)).skip(1) =~= s@.skip(j + 1 as int));
                assert(seg + Seq::<char>::empty() =~= seg);
            }
            let piece = s.substring_char(seg_start, j);
            out.append(piece);
            return Some((out, j + 1));
        } else if c == '\\' {
            if j + 1 < len {
                let c2 = s.get_char(j + 1);
                if c2 == '"' || c2 == '\\' {
                    let ghost out_old = out@;
                    let piece = s.substring_char(seg_start, j);
                    out.append(piece);
                    if c2 == '"' {
                        out.append("\"");
                        proof {
                            reveal_strlit("\"");
                        }
                    } else {
                        out.append("\\");
                        proof {
                            reveal_strlit("\\");
                        }
                    }
                    proof {
                        assert(out@ =~= out_old + seg + seq![c2]);
                        assert(s@.skip(seg_start as int) =~= seg + (seq!['\\', c2] + s@.skip(
                            j + 2 as int,
                        )));
                        lemma_sp_str_body_seg(seg, seq!['\\', c2] + s@.skip(j + 2 as int));
                        lemma_sp_str_body_esc(c2, s@.skip(j + 2 as int));
                        assert(match sp_str_body(s@.skip(j + 2 as int)) {
                            None => sp_str_body(body) is None,
                            Some((b, r)) => sp_str_body(body) == Some((out@ + b, r)),
                        }) by {
                            match sp_str_body(s@.skip(j + 2 as int)) {
                                None => {},
                                Some((b, r)) => {
                                    assert(out_old + (seg + (seq![c2] + b)) =~= out@ + b);
                                },
                            }
                        }
                    }
                    seg_start = j + 2;
                    j = j + 2;
                } else {
                    proof {
                        let tail = s@.skip(j as int);
                        assert(s@.skip(seg_start as int) =~= seg + tail);
                        lemma_sp_str_body_seg(seg, tail);
                        assert(tail[0] == '\\');
                        assert(tail[1] == s@[j + 1]);
                        assert(sp_str_body(tail) is None);
                    }
                    return None;
                }
            } else {
                proof {
                    let tail = s@.skip(j as int);
                    assert(s@.skip(seg_start as int) =~= seg + tail);
                    lemma_sp_str_body_seg(seg, tail);
                    assert(tail.len() == 1 && tail[0] == '\\');
                    assert(sp_str_body(tail) is None);
                }
                return None;
            }
        } else {
            j = j + 1;
        }
    }
}

} // verus!
