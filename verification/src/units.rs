//! Unit conversion and decimal text: exact rendering of integer amounts as
//! decimal strings (plain, fixed-width, and scaled to a larger unit such as
//! ether or gwei), and parsing back.
//!
//! Everything here is pure integer and character arithmetic; the decimal
//! forms are exact, never rounded. A caller that wants a floating-point
//! display value parses the exact string at the boundary.

use vstd::prelude::*;

verus! {

/// The character for one decimal digit value.
pub open spec fn digit_char(d: int) -> char {
    if d == 0 {
        '0'
    } else if d == 1 {
        '1'
    } else if d == 2 {
        '2'
    } else if d == 3 {
        '3'
    } else if d == 4 {
        '4'
    } else if d == 5 {
        '5'
    } else if d == 6 {
        '6'
    } else if d == 7 {
        '7'
    } else if d == 8 {
        '8'
    } else {
        '9'
    }
}

/// The decimal form of `n`: most significant digit first, no leading zeros
/// (a single `'0'` for 0).
pub open spec fn dec_str(n: nat) -> Seq<char>
    decreases n,
{
    if n < 10 {
        seq![digit_char(n as int)]
    } else {
        dec_str(n / 10) + seq![digit_char((n % 10) as int)]
    }
}

/// The decimal form of the lowest `w` digits of `n`, zero-padded to exactly
/// `w` characters.
pub open spec fn pad_dec(n: nat, w: nat) -> Seq<char>
    decreases w,
{
    if w <= 1 {
        seq![digit_char((n % 10) as int)]
    } else {
        pad_dec(n / 10, (w - 1) as nat) + seq![digit_char((n % 10) as int)]
    }
}

pub open spec fn is_digit(c: char) -> bool {
    48 <= c as int <= 57
}

pub open spec fn digit_val(c: char) -> int {
    c as int - 48
}

pub open spec fn all_digits(s: Seq<char>) -> bool {
    forall|i: int| 0 <= i < s.len() ==> is_digit(#[trigger] s[i])
}

/// The numeric value of a digit string, read most significant digit first.
pub open spec fn dec_val(s: Seq<char>) -> int
    decreases s.len(),
{
    if s.len() == 0 {
        0
    } else {
        dec_val(s.drop_last()) * 10 + digit_val(s.last())
    }
}

/// One digit as a string slice.
fn digit_str(d: u8) -> (r: &'static str)
    requires
        d < 10,
    ensures
        r@ == seq![digit_char(d as int)],
{
    proof {
        reveal_strlit("0");
        reveal_strlit("1");
        reveal_strlit("2");
        reveal_strlit("3");
        reveal_strlit("4");
        reveal_strlit("5");
        reveal_strlit("6");
        reveal_strlit("7");
        reveal_strlit("8");
        reveal_strlit("9");
    }
    let r = match d {
        0 => "0",
        1 => "1",
        2 => "2",
        3 => "3",
        4 => "4",
        5 => "5",
        6 => "6",
        7 => "7",
        8 => "8",
        _ => "9",
    };
    proof {
        assert(r@ =~= seq![digit_char(d as int)]);
    }
    r
}

/// Renders `n` in decimal.
pub fn u128_to_string(n: u128) -> (s: String)
    ensures
        s@ == dec_str(n as nat),
    decreases n,
{
    if n < 10 {
        digit_str(n as u8).to_owned()
    } else {
        let mut s = u128_to_string(n / 10);
        s.append(digit_str((n % 10) as u8));
        proof {
            assert(s@ =~= dec_str(n as nat));
        }
        s
    }
}

/// Renders `n` in decimal.
pub fn u64_to_string(n: u64) -> (s: String)
    ensures
        s@ == dec_str(n as nat),
{
    u128_to_string(n as u128)
}

/// Renders `n` in decimal.
pub fn usize_to_string(n: usize) -> (s: String)
    ensures
        s@ == dec_str(n as nat),
{
    u128_to_string(n as u128)
}

/// Renders the lowest `w` digits of `n`, zero-padded to width `w`.
fn pad_u128(n: u128, w: u32) -> (s: String)
    requires
        1 <= w,
    ensures
        s@ == pad_dec(n as nat, w as nat),
    decreases w,
{
    if w == 1 {
        digit_str((n % 10) as u8).to_owned()
    } else {
        let mut s = pad_u128(n / 10, w - 1);
        s.append(digit_str((n % 10) as u8));
        proof {
            assert(s@ =~= pad_dec(n as nat, w as nat));
        }
        s
    }
}

/// A digit string is non-negative as a number.
proof fn lemma_dec_val_nonneg(s: Seq<char>)
    requires
        all_digits(s),
    ensures
        dec_val(s) >= 0,
    decreases s.len(),
{
    if s.len() > 0 {
        assert(all_digits(s.drop_last())) by {
            assert(forall|i: int|
                0 <= i < s.drop_last().len() ==> s.drop_last()[i] == #[trigger] s[i]);
        }
        lemma_dec_val_nonneg(s.drop_last());
    }
}

/// Extending a digit string to the right never decreases its value.
proof fn lemma_dec_val_prefix(s: Seq<char>, i: int)
    requires
        all_digits(s),
        0 <= i <= s.len(),
    ensures
        dec_val(s) >= dec_val(s.subrange(0, i)),
    decreases s.len() - i,
{
    if i < s.len() {
        let p = s.subrange(0, i);
        let q = s.subrange(0, i + 1);
        assert(q.drop_last() =~= p);
        assert(all_digits(p));
        lemma_dec_val_nonneg(p);
        assert(dec_val(q) == dec_val(p) * 10 + digit_val(s[i]));
        lemma_dec_val_prefix(s, i + 1);
    } else {
        assert(s.subrange(0, i) =~= s);
    }
}

/// `dec_str` renders only digits and parses back to the number itself.
pub proof fn lemma_dec_str_val(n: nat)
    ensures
        all_digits(dec_str(n)),
        dec_val(dec_str(n)) == n,
        dec_str(n).len() >= 1,
    decreases n,
{
    if n < 10 {
        let s = dec_str(n);
        assert(s =~= seq![digit_char(n as int)]);
        assert(s.drop_last() =~= Seq::<char>::empty());
        assert(dec_val(s.drop_last()) == 0);
        assert(dec_val(s) == digit_val(digit_char(n as int)));
    } else {
        lemma_dec_str_val(n / 10);
        let s = dec_str(n);
        assert(s == dec_str(n / 10) + seq![digit_char((n % 10) as int)]);
        assert(s.drop_last() =~= dec_str(n / 10));
        assert(s.last() == digit_char((n % 10) as int));
        assert(dec_val(s) == dec_val(dec_str(n / 10)) * 10 + (n % 10));
        assert(n / 10 * 10 + n % 10 == n);
    }
}

/// Parses a decimal string. Returns the value exactly when the string is
/// non-empty, all digits, and the value fits in a `u128`; `None` otherwise.
pub fn parse_u128(s: &str) -> (r: Option<u128>)
    ensures
        r is Some <==> s@.len() > 0 && all_digits(s@) && dec_val(s@) <= u128::MAX,
        r is Some ==> r->0 as int == dec_val(s@),
{
    let len = s.unicode_len();
    if len == 0 {
        return None;
    }
    let mut acc: u128 = 0;
    let mut i: usize = 0;
    while i < len
        invariant
            0 < len == s@.len(),
            0 <= i <= len,
            all_digits(s@.subrange(0, i as int)),
            acc as int == dec_val(s@.subrange(0, i as int)),
        decreases len - i,
    {
        let c = s.get_char(i);
        let cv = c as u32;
        if cv < 48 || cv > 57 {
            assert(!is_digit(s@[i as int]));
            return None;
        }
        let d = (cv - 48) as u128;
        assert(d as int == digit_val(s@[i as int]));
        if acc > (u128::MAX - d) / 10 {
            proof {
                let p = s@.subrange(0, i as int);
                let q = s@.subrange(0, i as int + 1);
                assert(q.drop_last() =~= p);
                assert(dec_val(q) == acc * 10 + d);
                assert(acc >= (u128::MAX - d) / 10 + 1);
                assert(acc * 10 >= ((u128::MAX - d) / 10 + 1) * 10) by (nonlinear_arith)
                    requires
                        acc >= (u128::MAX - d) / 10 + 1,
                ;
                assert((u128::MAX - d) / 10 * 10 + (u128::MAX - d) % 10 == u128::MAX - d);
                assert(acc * 10 + d > u128::MAX);
                if all_digits(s@) {
                    lemma_dec_val_prefix(s@, i as int + 1);
                    assert(dec_val(s@) > u128::MAX);
                }
            }
            return None;
        }
        proof {
            assert(acc <= (u128::MAX - d) / 10);
            assert(acc * 10 <= (u128::MAX - d) / 10 * 10) by (nonlinear_arith)
                requires
                    acc <= (u128::MAX - d) / 10,
            ;
            assert((u128::MAX - d) / 10 * 10 <= u128::MAX - d);
            let p = s@.subrange(0, i as int);
            let q = s@.subrange(0, i as int + 1);
            assert(q.drop_last() =~= p);
            assert(dec_val(q) == dec_val(p) * 10 + digit_val(s@[i as int]));
        }
        acc = acc * 10 + d;
        i = i + 1;
    }
    proof {
        assert(s@.subrange(0, len as int) =~= s@);
    }
    Some(acc)
}

pub open spec fn pow10(k: nat) -> nat
    decreases k,
{
    if k == 0 {
        1
    } else {
        10 * pow10((k - 1) as nat)
    }
}

/// `s` with its trailing `'0'` characters removed.
pub open spec fn strip_zeros(s: Seq<char>) -> Seq<char>
    decreases s.len(),
{
    if s.len() > 0 && s.last() == '0' {
        strip_zeros(s.drop_last())
    } else {
        s
    }
}

/// The exact decimal form of `amount` base units expressed in the larger
/// unit worth `10^k` base units: the integer part, then — only when the
/// remainder is not zero — a `'.'` and the `k`-digit fraction with trailing
/// zeros removed.
pub open spec fn scaled_str(amount: nat, k: nat) -> Seq<char> {
    if amount % pow10(k) == 0 {
        dec_str(amount / pow10(k))
    } else {
        dec_str(amount / pow10(k)) + seq!['.'] + strip_zeros(pad_dec(amount % pow10(k), k))
    }
}

/// Every power of ten is positive.
proof fn lemma_pow10_pos(k: nat)
    ensures
        pow10(k) >= 1,
    decreases k,
{
    if k > 0 {
        lemma_pow10_pos((k - 1) as nat);
    }
}

/// Renders `amount` base units in the unit worth `p == 10^k` base units.
fn scaled_u128(amount: u128, p: u128, k: u32) -> (s: String)
    requires
        1 <= k <= 38,
        p as nat == pow10(k as nat),
    ensures
        s@ == scaled_str(amount as nat, k as nat),
{
    proof {
        lemma_pow10_pos(k as nat);
    }
    let q = amount / p;
    let r = amount % p;
    if r == 0 {
        u128_to_string(q)
    } else {
        let mut s = u128_to_string(q);
        proof {
            reveal_strlit(".");
        }
        s.append(".");
        let mut f = r;
        let mut w = k;
        while f % 10 == 0
            invariant
                1 <= w <= k <= 38,
                0 < f,
                (f as nat) < pow10(w as nat),
                strip_zeros(pad_dec(r as nat, k as nat)) == strip_zeros(pad_dec(f as nat, w as nat)),
            decreases f,
        {
            proof {
                if w == 1 {
                    reveal_with_fuel(pow10, 2);
                    assert(pow10(1) == 10);
                    assert(f < 10);
                    assert(f % 10 == f);
                    assert(false);
                }
                let fn_ = (f / 10) as nat;
                let wn = (w - 1) as nat;
                assert(pow10(w as nat) == 10 * pow10(wn));
                assert(f / 10 < pow10(wn)) by (nonlinear_arith)
                    requires
                        (f as nat) < 10 * pow10(wn),
                        f >= 0,
                ;
                assert(pad_dec(f as nat, w as nat) == pad_dec(fn_, wn) + seq![
                    digit_char((f % 10) as int),
                ]);
                assert(digit_char((f % 10) as int) == '0');
                let padded = pad_dec(f as nat, w as nat);
                assert(padded.last() == '0');
                assert(padded.drop_last() =~= pad_dec(fn_, wn));
                assert(strip_zeros(padded) == strip_zeros(pad_dec(fn_, wn)));
            }
            f = f / 10;
            w = w - 1;
        }
        proof {
            let padded = pad_dec(f as nat, w as nat);
            if w == 1 {
                assert(padded == seq![digit_char((f % 10) as int)]);
            }
            assert(padded.last() == digit_char((f % 10) as int));
            assert(digit_char((f % 10) as int) != '0');
            assert(strip_zeros(padded) == padded);
        }
        let frac = pad_u128(f, w);
        s.append(frac.as_str());
        proof {
            assert("."@ =~= seq!['.']);
            assert(s@ =~= scaled_str(amount as nat, k as nat));
        }
        s
    }
}

/// Renders an amount of wei exactly in ether (1 ether = 10^18 wei).
pub fn wei_to_eth_str(wei: u128) -> (s: String)
    ensures
        s@ == scaled_str(wei as nat, 18),
{
    proof {
        reveal_with_fuel(pow10, 19);
        assert(pow10(18) == 1_000_000_000_000_000_000);
    }
    scaled_u128(wei, 1_000_000_000_000_000_000, 18)
}

/// Renders an amount of wei exactly in gwei (1 gwei = 10^9 wei).
pub fn wei_to_gwei_str(wei: u128) -> (s: String)
    ensures
        s@ == scaled_str(wei as nat, 9),
{
    proof {
        reveal_with_fuel(pow10, 10);
        assert(pow10(9) == 1_000_000_000);
    }
    scaled_u128(wei, 1_000_000_000, 9)
}

/// The percentage form of a basis-point count: hundreds, a point, and the
/// remaining two digits (`9944` renders as `99.44`).
pub open spec fn percent_str(bps: nat) -> Seq<char> {
    dec_str(bps / 100) + seq!['.'] + pad_dec(bps % 100, 2)
}

/// Renders basis points as a percentage with two decimal places.
pub fn bps_to_percent_string(bps: u128) -> (s: String)
    ensures
        s@ == percent_str(bps as nat),
{
    let mut s = u128_to_string(bps / 100);
    proof {
        reveal_strlit(".");
    }
    s.append(".");
    let frac = pad_u128(bps % 100, 2);
    s.append(frac.as_str());
    proof {
        assert("."@ =~= seq!['.']);
        assert(s@ =~= percent_str(bps as nat));
    }
    s
}

pub open spec fn bool_str(b: bool) -> Seq<char> {
    if b {
        seq!['t', 'r', 'u', 'e']
    } else {
        seq!['f', 'a', 'l', 's', 'e']
    }
}

/// Renders a boolean as `true` or `false`.
pub fn bool_to_string(b: bool) -> (s: String)
    ensures
        s@ == bool_str(b),
{
    proof {
        reveal_strlit("true");
        reveal_strlit("false");
    }
    if b {
        let s = "true".to_owned();
        proof {
            assert(s@ =~= bool_str(b));
        }
        s
    } else {
        let s = "false".to_owned();
        proof {
            assert(s@ =~= bool_str(b));
        }
        s
    }
}

/// Parses a decimal string into a `u64`; the value must fit.
pub fn parse_u64(s: &str) -> (r: Option<u64>)
    ensures
        r is Some <==> s@.len() > 0 && all_digits(s@) && dec_val(s@) <= u64::MAX,
        r is Some ==> r->0 as int == dec_val(s@),
{
    match parse_u128(s) {
        None => None,
        Some(v) => {
            if v <= u64::MAX as u128 {
                Some(v as u64)
            } else {
                None
            }
        },
    }
}

} // verus!
