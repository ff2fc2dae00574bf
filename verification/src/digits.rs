//! Decimal text of integers: the canonical digit string of an unsigned
//! value, its injectivity, and exact parsing of signed 32-bit decimal text.
//! Request identifiers and server error codes travel as such text.

use vstd::arithmetic::div_mod::lemma_fundamental_div_mod;
use vstd::prelude::*;

use crate::json::digits_end;
use crate::json::frac_wf;
use crate::json::is_digit;
use crate::json::lemma_digits_end;
use crate::json::num_wf;
use crate::json::scan_digits;

verus! {

/// The digit character for a value below ten.
pub open spec fn digit_char(d: nat) -> char {
    if d == 0 {
        '0'
    } else if d == 1 {
        '1'
    } else if d == 2 {
        '2'
    } else if d == 3 {
        '3'
    } else if d == 4 {
        '4'
    } else if d == 5 {
        '5'
    } else if d == 6 {
        '6'
    } else if d == 7 {
        '7'
    } else if d == 8 {
        '8'
    } else {
        '9'
    }
}

/// The value of a digit character.
pub open spec fn digit_val(c: char) -> nat {
    if c == '1' {
        1
    } else if c == '2' {
        2
    } else if c == '3' {
        3
    } else if c == '4' {
        4
    } else if c == '5' {
        5
    } else if c == '6' {
        6
    } else if c == '7' {
        7
    } else if c == '8' {
        8
    } else if c == '9' {
        9
    } else {
        0
    }
}

/// The canonical decimal text of an unsigned value: no sign, no leading
/// zero except for the value zero itself.
pub open spec fn dec_of(n: nat) -> Seq<char>
    decreases n,
{
    if n < 10 {
        seq![digit_char(n)]
    } else {
        dec_of(n / 10).push(digit_char(n % 10))
    }
}

/// The value a digit string denotes.
pub open spec fn val_of(s: Seq<char>) -> nat
    decreases s.len(),
{
    if s.len() == 0 {
        0
    } else {
        val_of(s.drop_last()) * 10 + digit_val(s.last())
    }
}

/// Powers of ten.
pub open spec fn pow10(k: nat) -> nat
    decreases k,
{
    if k == 0 {
        1
    } else {
        10 * pow10((k - 1) as nat)
    }
}

/// The decimal text of a value is digits only, is nonempty, starts with a
/// nonzero digit unless it is `"0"`, and is bounded in length by the size
/// of the value.
pub proof fn lemma_dec_of_chars(n: nat)
    ensures
        dec_of(n).len() >= 1,
        forall|i: int| 0 <= i < dec_of(n).len() ==> is_digit(dec_of(n)[i]),
        n >= 1 ==> dec_of(n)[0] != '0',
        n >= 10 ==> dec_of(n).len() >= 2,
    decreases n,
{
    if n >= 10 {
        lemma_dec_of_chars(n / 10);
    }
}

/// The length of the decimal text is bounded by the power of ten above the
/// value.
pub proof fn lemma_dec_of_len(n: nat, k: nat)
    requires
        k >= 1,
        n < pow10(k),
    ensures
        dec_of(n).len() <= k,
    decreases n,
{
    if n >= 10 {
        assert(pow10(k) == 10 * pow10((k - 1) as nat));
        vstd::arithmetic::div_mod::lemma_multiply_divide_lt(n as int, 10, pow10((k - 1) as nat) as int);
        lemma_dec_of_len(n / 10, (k - 1) as nat);
    }
}

/// Powers of ten grow with the exponent.
pub proof fn lemma_pow10_mono(a: nat, b: nat)
    requires
        a <= b,
    ensures
        pow10(a) <= pow10(b),
    decreases b,
{
    if a < b {
        lemma_pow10_mono(a, (b - 1) as nat);
    }
}

/// A digit character is written back unchanged from its value.
pub proof fn lemma_digit_char_val(c: char)
    requires
        is_digit(c),
    ensures
        digit_char(digit_val(c)) == c,
{
    if c == '0' {
    } else if c == '1' {
    } else if c == '2' {
    } else if c == '3' {
    } else if c == '4' {
    } else if c == '5' {
    } else if c == '6' {
    } else if c == '7' {
    } else if c == '8' {
    } else {
        assert(c == '9');
    }
}

/// A digit character reads back as its value.
pub proof fn lemma_digit_roundtrip(d: nat)
    requires
        d < 10,
    ensures
        digit_val(digit_char(d)) == d,
{
}

/// Reading the decimal text of a value back gives the value.
pub proof fn lemma_val_of_dec_of(n: nat)
    ensures
        val_of(dec_of(n)) == n,
    decreases n,
{
    if n < 10 {
        let s = seq![digit_char(n)];
        assert(s.drop_last() =~= Seq::<char>::empty());
        assert(s.last() == digit_char(n));
        lemma_digit_roundtrip(n);
        assert(val_of(s) == val_of(s.drop_last()) * 10 + digit_val(s.last()));
    } else {
        lemma_val_of_dec_of(n / 10);
        let s = dec_of(n / 10).push(digit_char(n % 10));
        assert(s.drop_last() =~= dec_of(n / 10));
        assert(s.last() == digit_char(n % 10));
        lemma_digit_roundtrip(n % 10);
        lemma_fundamental_div_mod(n as int, 10);
    }
}

/// Decimal texts of distinct values are distinct.
pub proof fn lemma_dec_of_injective(a: nat, b: nat)
    requires
        dec_of(a) == dec_of(b),
    ensures
        a == b,
{
    lemma_val_of_dec_of(a);
    lemma_val_of_dec_of(b);
}

/// A nonempty digit string without a superfluous leading zero denotes a
/// positive value when it is not `"0"`.
pub proof fn lemma_val_of_pos(s: Seq<char>)
    requires
        s.len() >= 1,
        forall|i: int| 0 <= i < s.len() ==> is_digit(#[trigger] s[i]),
        s[0] != '0',
    ensures
        val_of(s) >= 1,
    decreases s.len(),
{
    if s.len() > 1 {
        let p = s.drop_last();
        assert(p[0] == s[0]);
        lemma_val_of_pos(p);
    }
}

/// Writing the value of a canonical digit string gives the string back.
pub proof fn lemma_dec_of_val_of(s: Seq<char>)
    requires
        s.len() >= 1,
        forall|i: int| 0 <= i < s.len() ==> is_digit(#[trigger] s[i]),
        s[0] != '0' || s.len() == 1,
    ensures
        dec_of(val_of(s)) == s,
    decreases s.len(),
{
    if s.len() == 1 {
        assert(s.drop_last() =~= Seq::<char>::empty());
        assert(s.last() == s[0]);
        assert(val_of(Seq::<char>::empty()) == 0);
        assert(val_of(s) == digit_val(s[0]));
        lemma_digit_char_val(s[0]);
        assert(val_of(s) < 10);
        assert(dec_of(val_of(s)) == seq![digit_char(val_of(s))]);
        assert(dec_of(val_of(s)) =~= s);
    } else {
        let p = s.drop_last();
        let d = digit_val(s.last());
        assert(p[0] == s[0]);
        lemma_dec_of_val_of(p);
        lemma_val_of_pos(p);
        let v = val_of(s);
        assert(v == val_of(p) * 10 + d);
        lemma_fundamental_div_mod(v as int, 10);
        assert(v / 10 == val_of(p) && v % 10 == d) by (nonlinear_arith)
            requires
                v == val_of(p) * 10 + d,
                0 <= d < 10,
                val_of(p) >= 0,
        ;
        assert(dec_of(v) == dec_of(val_of(p)).push(digit_char(v % 10)));
        lemma_digit_char_val(s.last());
        assert(digit_char(d) == s.last());
        assert(dec_of(v) =~= s);
    }
}

/// The decimal text of a value follows the JSON number grammar.
pub proof fn lemma_dec_of_num_wf(n: nat)
    ensures
        num_wf(dec_of(n)),
{
    let s = dec_of(n);
    lemma_dec_of_chars(n);
    lemma_digits_end_all(s, 0);
    assert(frac_wf(s, s.len() as int));
}

/// A string of digits from `i` on scans to its end.
pub proof fn lemma_digits_end_all(s: Seq<char>, i: int)
    requires
        0 <= i <= s.len(),
        forall|k: int| i <= k < s.len() ==> is_digit(#[trigger] s[k]),
    ensures
        digits_end(s, i) == s.len(),
    decreases s.len() - i,
{
    if i < s.len() {
        lemma_digits_end_all(s, i + 1);
    }
}

/// A one-character string holding the digit of a value below ten.
fn digit_str(d: u64) -> (r: &'static str)
    requires
        d < 10,
    ensures
        r@ == seq![digit_char(d as nat)],
{
    proof {
        reveal_strlit("0");
        reveal_strlit("1");
        reveal_strlit("2");
        reveal_strlit("3");
        reveal_strlit("4");
        reveal_strlit("5");
        reveal_strlit("6");
        reveal_strlit("7");
        reveal_strlit("8");
        reveal_strlit("9");
    }
    let r = if d == 0 {
        "0"
    } else if d == 1 {
        "1"
    } else if d == 2 {
        "2"
    } else if d == 3 {
        "3"
    } else if d == 4 {
        "4"
    } else if d == 5 {
        "5"
    } else if d == 6 {
        "6"
    } else if d == 7 {
        "7"
    } else if d == 8 {
        "8"
    } else {
        "9"
    };
    proof {
        assert(r@ =~= seq![digit_char(d as nat)]);
    }
    r
}

/// The canonical decimal text of an unsigned 64-bit value.
pub fn u64_to_dec(n: u64) -> (s: String)
    ensures
        s@ == dec_of(n as nat),
    decreases n,
{
    if n < 10 {
        let s = String::from_str(digit_str(n));
        proof {
            assert(s@ =~= dec_of(n as nat));
        }
        s
    } else {
        let mut s = u64_to_dec(n / 10);
        s.append(digit_str(n % 10));
        proof {
            assert(s@ =~= dec_of(n as nat));
        }
        s
    }
}

/// The canonical decimal text of a signed value.
pub open spec fn code_text(c: int) -> Seq<char> {
    if c >= 0 {
        dec_of(c as nat)
    } else {
        seq!['-'] + dec_of((-c) as nat)
    }
}

/// The canonical decimal text of a signed 32-bit value.
pub fn i32_to_dec(c: i32) -> (s: String)
    ensures
        s@ == code_text(c as int),
{
    if c >= 0 {
        let s = u64_to_dec(c as u64);
        s
    } else {
        let mag: u64 = (-(c as i64)) as u64;
        let mut s = String::from_str("-");
        let digits = u64_to_dec(mag);
        s.append(digits.as_str());
        proof {
            reveal_strlit("-");
            assert(s@ =~= code_text(c as int));
        }
        s
    }
}

/// Whether `s` is the canonical decimal text of the signed value `c`:
/// the digits of `c`, with a leading minus sign when `c` is negative.
pub open spec fn dec_canon(s: Seq<char>, c: int) -> bool {
    if c >= 0 {
        s == dec_of(c as nat)
    } else {
        s == seq!['-'] + dec_of((-c) as nat)
    }
}

/// The signed 32-bit value whose canonical decimal text is `s`, if any.
pub open spec fn code_of(s: Seq<char>) -> Option<int> {
    if exists|c: int| i32::MIN <= c <= i32::MAX && dec_canon(s, c) {
        Some(choose|c: int| i32::MIN <= c <= i32::MAX && dec_canon(s, c))
    } else {
        None
    }
}

/// At most one signed value has a given canonical decimal text.
pub proof fn lemma_dec_canon_unique(s: Seq<char>, c1: int, c2: int)
    requires
        dec_canon(s, c1),
        dec_canon(s, c2),
    ensures
        c1 == c2,
{
    lemma_dec_of_chars(if c1 >= 0 {
        c1 as nat
    } else {
        (-c1) as nat
    });
    lemma_dec_of_chars(if c2 >= 0 {
        c2 as nat
    } else {
        (-c2) as nat
    });
    if c1 >= 0 && c2 >= 0 {
        lemma_dec_of_injective(c1 as nat, c2 as nat);
    } else if c1 < 0 && c2 < 0 {
        let a = dec_of((-c1) as nat);
        let b = dec_of((-c2) as nat);
        assert(seq!['-'].len() == 1);
        assert((seq!['-'] + a).len() == 1 + a.len());
        assert((seq!['-'] + b).len() == 1 + b.len());
        assert forall|i: int| 0 <= i < a.len() implies a[i] == b[i] by {
            assert((seq!['-'] + a)[i + 1] == a[i]);
            assert((seq!['-'] + b)[i + 1] == b[i]);
            assert(s[i + 1] == a[i]);
            assert(s[i + 1] == b[i]);
        }
        assert(a =~= b);
        lemma_dec_of_injective((-c1) as nat, (-c2) as nat);
    } else if c1 >= 0 && c2 < 0 {
        assert(s[0] == (seq!['-'] + dec_of((-c2) as nat))[0]);
        assert(s[0] == dec_of(c1 as nat)[0]);
        assert(is_digit(s[0]) && s[0] == '-');
    } else {
        assert(s[0] == (seq!['-'] + dec_of((-c1) as nat))[0]);
        assert(s[0] == dec_of(c2 as nat)[0]);
        assert(is_digit(s[0]) && s[0] == '-');
    }
}

/// Ten to the tenth, written out once.
pub proof fn lemma_pow10_ten()
    ensures
        pow10(10) == 10_000_000_000,
{
    assert(pow10(0) == 1);
    assert(pow10(1) == 10);
    assert(pow10(2) == 100);
    assert(pow10(3) == 1000);
    assert(pow10(4) == 10000);
    assert(pow10(5) == 100000);
    assert(pow10(6) == 1000000);
    assert(pow10(7) == 10000000);
    assert(pow10(8) == 100000000);
    assert(pow10(9) == 1000000000);
}

/// The value of a digit character, executable.
fn digit_of(c: char) -> (d: u64)
    requires
        is_digit(c),
    ensures
        d as nat == digit_val(c),
{
    if c == '0' {
        0
    } else if c == '1' {
        1
    } else if c == '2' {
        2
    } else if c == '3' {
        3
    } else if c == '4' {
        4
    } else if c == '5' {
        5
    } else if c == '6' {
        6
    } else if c == '7' {
        7
    } else if c == '8' {
        8
    } else {
        9
    }
}

/// Parses the canonical decimal text of a signed 32-bit value. Returns the
/// value exactly when `s` is such a text, and nothing otherwise.
pub fn parse_i32(s: &str) -> (r: Option<i32>)
    ensures
        match r {
            Some(c) => code_of(s@) == Some(c as int),
            None => code_of(s@) is None,
        },
{
    proof {
        reveal_strlit("-");
    }
    let n = s.unicode_len();
    let neg = n > 0 && s.get_char(0) == '-';
    let start: usize = if neg {
        1
    } else {
        0
    };
    let ghost q = s@.subrange(start as int, n as int);
    if n == start {
        proof {
            lemma_none_when_not_canon(s@, start as int, n as int);
        }
        return None;
    }
    let d = scan_digits(s, start);
    proof {
        lemma_digits_end(s@, start as int);
    }
    if d != n {
        proof {
            lemma_none_when_not_canon(s@, start as int, d as int);
        }
        return None;
    }
    if s.get_char(start) == '0' && n != start + 1 {
        proof {
            lemma_none_leading_zero(s@, start as int);
        }
        return None;
    }
    if n - start > 10 {
        proof {
            lemma_none_too_long(s@, start as int);
        }
        return None;
    }
    let mut acc: u64 = 0;
    let mut i = start;
    proof {
        lemma_pow10_ten();
        assert(s@.subrange(start as int, start as int) =~= Seq::<char>::empty());
    }
    while i < n
        invariant
            start <= i <= n <= s@.len(),
            n == s@.len(),
            n - start <= 10,
            forall|k: int| start <= k < n ==> is_digit(#[trigger] s@[k]),
            acc as nat == val_of(s@.subrange(start as int, i as int)),
            (acc as nat) < pow10((i - start) as nat),
            pow10(10) == 10_000_000_000,
            pow10((i - start) as nat) <= pow10(10),
        decreases n - i,
    {
        let c = s.get_char(i);
        let dv = digit_of(c);
        proof {
            let pre = s@.subrange(start as int, i as int);
            let post = s@.subrange(start as int, i as int + 1);
            assert(post.drop_last() =~= pre);
            assert(post.last() == s@[i as int]);
            lemma_pow10_step((i - start) as nat);
            lemma_pow10_mono((i + 1 - start) as nat, 10);
        }
        acc = acc * 10 + dv;
        i += 1;
    }
    proof {
        assert(q =~= s@.subrange(start as int, n as int));
        assert(acc as nat == val_of(q));
        assert(forall|k: int| 0 <= k < q.len() ==> is_digit(#[trigger] q[k]));
        lemma_dec_of_val_of(q);
    }
    if neg {
        if acc == 0 {
            proof {
                lemma_none_minus_zero(s@);
            }
            return None;
        }
        if acc > 2_147_483_648 {
            proof {
                lemma_none_out_of_range(s@, true, acc as nat);
            }
            return None;
        }
        let c: i32 = if acc == 2_147_483_648 {
            i32::MIN
        } else {
            -(acc as i32)
        };
        proof {
            assert(s@ =~= seq!['-'] + q);
            assert(dec_canon(s@, c as int));
            lemma_code_of_some(s@, c as int);
        }
        Some(c)
    } else {
        if acc > 2_147_483_647 {
            proof {
                assert(q =~= s@);
                lemma_none_out_of_range(s@, false, acc as nat);
            }
            return None;
        }
        let c: i32 = acc as i32;
        proof {
            assert(s@ =~= q);
            assert(dec_canon(s@, c as int));
            lemma_code_of_some(s@, c as int);
        }
        Some(c)
    }
}

proof fn lemma_pow10_step(k: nat)
    ensures
        pow10(k + 1) == 10 * pow10(k),
{
}

/// When some in-range value's canonical text is `s`, `code_of` returns the
/// one that was found.
pub proof fn lemma_code_of_some(s: Seq<char>, c: int)
    requires
        i32::MIN <= c <= i32::MAX,
        dec_canon(s, c),
    ensures
        code_of(s) == Some(c),
{
    let c2 = choose|x: int| i32::MIN <= x <= i32::MAX && dec_canon(s, x);
    lemma_dec_canon_unique(s, c, c2);
}

/// No canonical text is empty of digits or holds a non-digit after its
/// optional sign: `bad` names a position at or after `start` that is not a
/// digit, or equals the length when there are no digits at all.
proof fn lemma_none_when_not_canon(s: Seq<char>, start: int, bad: int)
    requires
        start == 0 || (start == 1 && s.len() > 0 && s[0] == '-'),
        start == 0 ==> s.len() == 0 || !(s[0] == '-'),
        start <= bad <= s.len(),
        bad < s.len() ==> !is_digit(s[bad]),
        bad == s.len() ==> bad == start,
    ensures
        code_of(s) is None,
{
    assert forall|c: int| i32::MIN <= c <= i32::MAX implies !dec_canon(s, c) by {
        if dec_canon(s, c) {
            if c >= 0 {
                lemma_dec_of_chars(c as nat);
                assert(is_digit(s[0]));
                assert(start == 0);
                if bad == s.len() {
                    assert(s.len() == 0);
                } else {
                    assert(is_digit(s[bad]));
                }
            } else {
                lemma_dec_of_chars((-c) as nat);
                assert(s[0] == '-');
                assert(!is_digit('-'));
                assert(start == 1);
                if bad == s.len() {
                    assert(s.len() >= 2);
                } else {
                    assert(s[bad] == dec_of((-c) as nat)[bad - 1]);
                    assert(is_digit(s[bad]));
                }
            }
        }
    }
}

/// No canonical text carries a superfluous leading zero.
proof fn lemma_none_leading_zero(s: Seq<char>, start: int)
    requires
        start == 0 || (start == 1 && s.len() > 0 && s[0] == '-'),
        start == 0 ==> s.len() == 0 || !(s[0] == '-'),
        0 <= start < s.len(),
        s[start] == '0',
        s.len() != start + 1,
    ensures
        code_of(s) is None,
{
    assert forall|c: int| i32::MIN <= c <= i32::MAX implies !dec_canon(s, c) by {
        if dec_canon(s, c) {
            if c >= 0 {
                lemma_dec_of_chars(c as nat);
                assert(start == 0);
                if c >= 1 {
                    assert(s[0] != '0');
                } else {
                    assert(s.len() == 1);
                }
            } else {
                lemma_dec_of_chars((-c) as nat);
                assert(s[0] == '-' && !is_digit('-'));
                assert(start == 1);
                assert(s[1] == dec_of((-c) as nat)[0]);
                assert(s[1] != '0');
            }
        }
    }
}

/// No in-range value has more than ten digits.
proof fn lemma_none_too_long(s: Seq<char>, start: int)
    requires
        start == 0 || (start == 1 && s.len() > 0 && s[0] == '-'),
        start == 0 ==> s.len() == 0 || !(s[0] == '-'),
        0 <= start <= s.len(),
        s.len() - start > 10,
    ensures
        code_of(s) is None,
{
    assert forall|c: int| i32::MIN <= c <= i32::MAX implies !dec_canon(s, c) by {
        if dec_canon(s, c) {
            lemma_pow10_ten();
            if c >= 0 {
                lemma_dec_of_chars(c as nat);
                assert(start == 0);
                lemma_dec_of_len(c as nat, 10);
            } else {
                lemma_dec_of_chars((-c) as nat);
                assert(start == 1);
                lemma_dec_of_len((-c) as nat, 10);
            }
        }
    }
}

/// `-0` is not canonical: a negative value's digits denote at least one.
proof fn lemma_none_minus_zero(s: Seq<char>)
    requires
        s.len() >= 1,
        s[0] == '-',
        val_of(s.subrange(1, s.len() as int)) == 0,
    ensures
        code_of(s) is None,
{
    assert forall|c: int| i32::MIN <= c <= i32::MAX implies !dec_canon(s, c) by {
        if dec_canon(s, c) {
            if c >= 0 {
                lemma_dec_of_chars(c as nat);
                assert(is_digit(s[0]));
            } else {
                assert(s.subrange(1, s.len() as int) =~= dec_of((-c) as nat));
                lemma_val_of_dec_of((-c) as nat);
            }
        }
    }
}

/// A digit string denoting a value beyond the 32-bit range is no canonical
/// text of an in-range value.
proof fn lemma_none_out_of_range(s: Seq<char>, neg: bool, v: nat)
    requires
        neg ==> s.len() >= 1 && s[0] == '-' && val_of(s.subrange(1, s.len() as int)) == v && v
            > 2_147_483_648,
        !neg ==> (s.len() == 0 || !(s[0] == '-')) && val_of(s) == v && v > 2_147_483_647,
    ensures
        code_of(s) is None,
{
    assert forall|c: int| i32::MIN <= c <= i32::MAX implies !dec_canon(s, c) by {
        if dec_canon(s, c) {
            if c >= 0 {
                lemma_dec_of_chars(c as nat);
                lemma_val_of_dec_of(c as nat);
                if neg {
                    assert(is_digit(s[0]));
                } else {
                    assert(v == c);
                }
            } else {
                lemma_dec_of_chars((-c) as nat);
                if neg {
                    assert(s.subrange(1, s.len() as int) =~= dec_of((-c) as nat));
                    lemma_val_of_dec_of((-c) as nat);
                    assert(v == -c);
                } else {
                    assert(s[0] == '-');
                }
            }
        }
    }
}

} // verus!
