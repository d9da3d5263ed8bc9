//! Decimal literals for small counters: the `retry_count` field travels on
//! the wire as a JSON integer literal.

use vstd::prelude::*;
use vstd::string::*;
use crate::json::{spec_is_digit, spec_num_lit_wf};

verus! {

/// The character of one decimal digit.
pub open spec fn spec_digit_char(d: nat) -> char {
    if d == 0 {
        '0'
    } else if d == 1 {
        '1'
    } else if d == 2 {
        '2'
    } else if d == 3 {
        '3'
    } else if d == 4 {
        '4'
    } else if d == 5 {
        '5'
    } else if d == 6 {
        '6'
    } else if d == 7 {
        '7'
    } else if d == 8 {
        '8'
    } else {
        '9'
    }
}

/// The value of one digit character; 10 for anything else.
pub open spec fn spec_digit_val(c: char) -> nat {
    if c == '0' {
        0
    } else if c == '1' {
        1
    } else if c == '2' {
        2
    } else if c == '3' {
        3
    } else if c == '4' {
        4
    } else if c == '5' {
        5
    } else if c == '6' {
        6
    } else if c == '7' {
        7
    } else if c == '8' {
        8
    } else if c == '9' {
        9
    } else {
        10
    }
}

/// The decimal spelling of `n`, without sign or leading zeros.
pub open spec fn spec_dec_lit(n: nat) -> Seq<char>
    decreases n,
{
    if n < 10 {
        seq![spec_digit_char(n)]
    } else {
        spec_dec_lit(n / 10) + seq![spec_digit_char(n % 10)]
    }
}

/// The value of a digit string, folded from the left.
pub open spec fn spec_dec_val(s: Seq<char>) -> nat
    decreases s,
{
    if s.len() == 0 {
        0
    } else {
        spec_dec_val(s.take(s.len() - 1)) * 10 + spec_digit_val(s.last())
    }
}

pub open spec fn spec_all_digits(s: Seq<char>) -> bool {
    forall|i: int| 0 <= i < s.len() ==> spec_is_digit(#[trigger] s[i])
}

/// What an integer literal means as a `u8` counter: defined exactly when the
/// literal is unsigned and its value fits.
pub open spec fn spec_lit_to_u8(s: Seq<char>) -> Option<u8> {
    if s.len() > 0 && spec_all_digits(s) && spec_dec_val(s) <= 255 {
        Some(spec_dec_val(s) as u8)
    } else {
        None
    }
}

pub proof fn lemma_dec_lit_digits(n: nat)
    ensures
        spec_dec_lit(n).len() > 0,
        spec_all_digits(spec_dec_lit(n)),
        spec_dec_lit(n)[0] == '0' ==> n == 0,
    decreases n,
{
    if n < 10 {
        assert(spec_is_digit(spec_dec_lit(n)[0]));
    } else {
        lemma_dec_lit_digits(n / 10);
        let a = spec_dec_lit(n / 10);
        let l = spec_dec_lit(n);
        assert(l == a + seq![spec_digit_char(n % 10)]);
        assert(l[0] == a[0]);
        assert forall|i: int| 0 <= i < l.len() implies spec_is_digit(#[trigger] l[i]) by {
            if i < a.len() {
                assert(l[i] == a[i]);
            } else {
                assert(l[i] == spec_digit_char(n % 10));
            }
        }
    }
}

/// The decimal spelling of a counter is a well-formed number literal.
pub proof fn lemma_dec_lit_wf(n: nat)
    ensures
        spec_num_lit_wf(spec_dec_lit(n)),
{
    lemma_dec_lit_digits(n);
    let l = spec_dec_lit(n);
    let len = l.len() as int;
    assert(spec_is_digit(l[0]));
    assert(l[0] != '-');
    if l[0] == '0' {
        assert(n == 0);
        assert(len == 1);
    } else {
        crate::json::lemma_digits_end_run(l, 0, len);
    }
    assert(l.subrange(0, len) =~= l);
    assert(crate::json::spec_p_num(l, 0) == Some((l, len)));
}

/// Reading the decimal spelling of a counter back gives the counter.
pub proof fn lemma_dec_val_of_lit(n: nat)
    ensures
        spec_dec_val(spec_dec_lit(n)) == n,
    decreases n,
{
    if n < 10 {
        let l = spec_dec_lit(n);
        assert(l.take(l.len() - 1) =~= Seq::<char>::empty());
        assert(spec_dec_val(Seq::<char>::empty()) == 0);
        assert(l.last() == spec_digit_char(n));
        assert(spec_digit_val(spec_digit_char(n)) == n);
        assert(spec_dec_val(l) == n);
    } else {
        lemma_dec_val_of_lit(n / 10);
        let a = spec_dec_lit(n / 10);
        let l = spec_dec_lit(n);
        assert(l == a + seq![spec_digit_char(n % 10)]);
        assert(l.take(l.len() - 1) =~= a);
        assert(l.last() == spec_digit_char(n % 10));
        assert(spec_digit_val(spec_digit_char(n % 10)) == n % 10);
        assert(spec_dec_val(l) == (n / 10) * 10 + n % 10);
    }
}

proof fn lemma_dec_val_prefix_mono(s: Seq<char>, k: int)
    requires
        0 <= k <= s.len(),
    ensures
        spec_dec_val(s.take(k)) <= spec_dec_val(s),
    decreases s.len() - k,
{
    if k == s.len() {
        assert(s.take(k) =~= s);
    } else {
        lemma_dec_val_prefix_mono(s, k + 1);
        let p = s.take(k + 1);
        assert(p.take(p.len() - 1) =~= s.take(k));
        assert(spec_dec_val(s.take(k)) <= spec_dec_val(p));
    }
}

/// Writes the decimal spelling of `n`.
fn write_dec(n: u8, out: &mut Vec<char>)
    ensures
        final(out)@ == old(out)@ + spec_dec_lit(n as nat),
    decreases n,
{
    let d = n % 10;
    let c: char = match d {
        0 => '0',
        1 => '1',
        2 => '2',
        3 => '3',
        4 => '4',
        5 => '5',
        6 => '6',
        7 => '7',
        8 => '8',
        _ => '9',
    };
    proof {
        assert(c == spec_digit_char((n % 10) as nat));
    }
    if n < 10 {
        out.push(c);
        proof {
            assert(out@ =~= old(out)@ + spec_dec_lit(n as nat));
        }
    } else {
        write_dec(n / 10, out);
        out.push(c);
        proof {
            assert(out@ =~= old(out)@ + spec_dec_lit(n as nat));
        }
    }
}

/// The decimal spelling of `n` as a string.
pub fn u8_to_lit(n: u8) -> (r: String)
    ensures
        r@ == spec_dec_lit(n as nat),
{
    let mut out: Vec<char> = Vec::new();
    write_dec(n, &mut out);
    crate::json::chars_to_string(out)
}

/// Reads a counter from an integer literal; `None` exactly when the literal
/// is signed, empty, not all digits, or too large.
pub fn lit_to_u8(s: &str) -> (r: Option<u8>)
    ensures
        r == spec_lit_to_u8(s@),
{
    let n = s.unicode_len();
    if n == 0 {
        return None;
    }
    let mut acc: u32 = 0;
    let mut k: usize = 0;
    while k < n
        invariant
            n == s@.len(),
            0 < n,
            k <= n,
            acc == spec_dec_val(s@.take(k as int)),
            acc <= 255,
            forall|t: int| 0 <= t < k ==> spec_is_digit(#[trigger] s@[t]),
        decreases n - k,
    {
        let c = s.get_char(k);
        if c < '0' || c > '9' {
            proof {
                assert(!spec_is_digit(s@[k as int]));
            }
            return None;
        }
        let d: u32 = match c {
            '0' => 0,
            '1' => 1,
            '2' => 2,
            '3' => 3,
            '4' => 4,
            '5' => 5,
            '6' => 6,
            '7' => 7,
            '8' => 8,
            _ => 9,
        };
        proof {
            assert(d == spec_digit_val(s@[k as int]));
            assert(s@.take(k + 1 as int).take(k as int) =~= s@.take(k as int));
            assert(s@.take(k + 1 as int).last() == s@[k as int]);
        }
        acc = acc * 10 + d;
        if acc > 255 {
            proof {
                lemma_dec_val_prefix_mono(s@, k + 1 as int);
            }
            return None;
        }
        k = k + 1;
    }
    proof {
        assert(s@.take(n as int) =~= s@);
    }
    Some(acc as u8)
}

} // verus!
