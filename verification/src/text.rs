//! Decimal digits and small character utilities shared by the range parser,
//! the URL builders and the manifest codec.

use vstd::prelude::*;

verus! {

/// A decimal digit character.
pub open spec fn is_dec_digit(c: char) -> bool {
    '0' <= c && c <= '9'
}

/// Numeric value of a decimal digit character.
pub open spec fn digit_val(c: char) -> nat {
    (c as int - '0' as int) as nat
}

/// Every character of `s` is a decimal digit.
pub open spec fn all_digits(s: Seq<char>) -> bool {
    forall|i: int| 0 <= i < s.len() ==> is_dec_digit(#[trigger] s[i])
}

/// Value of a digit string, most significant digit first.
pub open spec fn digits_val(s: Seq<char>) -> nat
    decreases s.len(),
{
    if s.len() == 0 {
        0
    } else {
        digits_val(s.drop_last()) * 10 + digit_val(s.last())
    }
}

/// The digit character for a value below ten.
pub open spec fn digit_char(n: nat) -> char {
    if n == 0 { '0' }
    else if n == 1 { '1' }
    else if n == 2 { '2' }
    else if n == 3 { '3' }
    else if n == 4 { '4' }
    else if n == 5 { '5' }
    else if n == 6 { '6' }
    else if n == 7 { '7' }
    else if n == 8 { '8' }
    else { '9' }
}

/// Decimal representation of `n`, most significant digit first.
pub open spec fn dec_rep(n: nat) -> Seq<char>
    decreases n,
{
    if n < 10 {
        seq![digit_char(n)]
    } else {
        dec_rep(n / 10) + seq![digit_char(n % 10)]
    }
}

proof fn lemma_digit_char_val(n: nat)
    requires
        n < 10,
    ensures
        is_dec_digit(digit_char(n)),
        digit_val(digit_char(n)) == n,
{
}

/// The decimal representation consists of digits and evaluates back to `n`.
pub proof fn lemma_dec_rep_val(n: nat)
    ensures
        dec_rep(n).len() >= 1,
        all_digits(dec_rep(n)),
        digits_val(dec_rep(n)) == n,
        n >= 10 ==> dec_rep(n).len() >= 2,
        dec_rep(n).first() != '0' || n < 10,
    decreases n,
{
    if n < 10 {
        lemma_digit_char_val(n);
        let s = dec_rep(n);
        assert(s =~= seq![digit_char(n)]);
        assert(s.drop_last() =~= Seq::<char>::empty());
        assert(digits_val(s.drop_last()) == 0);
        assert(s.last() == digit_char(n));
        assert(digits_val(s) == digits_val(s.drop_last()) * 10 + digit_val(s.last()));
        assert(digits_val(s) == n);
    } else {
        lemma_dec_rep_val(n / 10);
        lemma_digit_char_val(n % 10);
        let s = dec_rep(n);
        assert(s =~= dec_rep(n / 10) + seq![digit_char(n % 10)]);
        assert(s.drop_last() =~= dec_rep(n / 10));
        assert(s.last() == digit_char(n % 10));
        assert(digits_val(s) == (n / 10) * 10 + n % 10);
        assert((n / 10) * 10 + n % 10 == n) by (nonlinear_arith);
        assert forall|i: int| 0 <= i < s.len() implies is_dec_digit(#[trigger] s[i]) by {
            if i < s.len() - 1 {
                assert(s[i] == dec_rep(n / 10)[i]);
            }
        }
    }
}

/// Appending one digit multiplies the value by ten and adds the digit.
pub proof fn lemma_digits_val_push(s: Seq<char>, c: char)
    ensures
        digits_val(s.push(c)) == digits_val(s) * 10 + digit_val(c),
{
    assert(s.push(c).drop_last() =~= s);
    assert(s.push(c).last() == c);
}

/// The value of a digit string never shrinks as the string grows.
pub proof fn lemma_digits_val_prefix_le(s: Seq<char>, i: int, j: int)
    requires
        0 <= i <= j <= s.len(),
    ensures
        digits_val(s.subrange(0, i)) <= digits_val(s.subrange(0, j)),
    decreases j - i,
{
    if i < j {
        lemma_digits_val_prefix_le(s, i, j - 1);
        let p = s.subrange(0, j - 1);
        assert(s.subrange(0, j) =~= p.push(s[j - 1]));
        lemma_digits_val_push(p, s[j - 1]);
        assert(digits_val(p) * 10 >= digits_val(p)) by (nonlinear_arith);
    }
}

/// Numeric value of a digit character, in executable code.
pub fn digit_value(c: char) -> (r: u8)
    requires
        is_dec_digit(c),
    ensures
        r == digit_val(c),
        r < 10,
{
    (c as u8) - ('0' as u8)
}

/// Parses the digit run `v[from..to]` as a `u64`, most significant digit
/// first. Returns `None` when the run is empty, holds a non-digit, or its
/// value does not fit in a `u64`.
pub fn parse_u64_digits(v: &Vec<char>, from: usize, to: usize) -> (r: Option<u64>)
    requires
        from <= to <= v@.len(),
    ensures
        match r {
            Some(n) => {
                &&& to > from
                &&& all_digits(v@.subrange(from as int, to as int))
                &&& digits_val(v@.subrange(from as int, to as int)) == n
            },
            None => {
                to == from || !all_digits(v@.subrange(from as int, to as int))
                    || digits_val(v@.subrange(from as int, to as int)) > u64::MAX
            },
        },
{
    if from == to {
        return None;
    }
    let ghost s = v@.subrange(from as int, to as int);
    let mut acc: u64 = 0;
    let mut i: usize = from;
    while i < to
        invariant
            from <= i <= to <= v@.len(),
            s == v@.subrange(from as int, to as int),
            all_digits(v@.subrange(from as int, i as int)),
            digits_val(v@.subrange(from as int, i as int)) == acc,
        decreases to - i,
    {
        let c = v[i];
        if !('0' <= c && c <= '9') {
            assert(v@.subrange(from as int, to as int)[i - from] == c);
            return None;
        }
        let d = digit_value(c);
        let ghost p = v@.subrange(from as int, i as int);
        assert(v@.subrange(from as int, i as int + 1) =~= p.push(c));
        proof {
            lemma_digits_val_push(p, c);
        }
        if acc > (u64::MAX - (d as u64)) / 10 {
            proof {
                assert(digits_val(p.push(c)) == acc * 10 + digit_val(c));
                assert(acc * 10 + digit_val(c) > u64::MAX) by (nonlinear_arith)
                    requires
                        acc > (u64::MAX - digit_val(c)) / 10,
                        digit_val(c) < 10,
                ;
                lemma_digits_val_prefix_le(s, i - from + 1, s.len() as int);
                assert(s.subrange(0, i - from + 1) =~= v@.subrange(from as int, i as int + 1));
                assert(s.subrange(0, s.len() as int) =~= s);
            }
            return None;
        }
        assert(acc * 10 + d <= u64::MAX) by (nonlinear_arith)
            requires
                acc <= (u64::MAX - (d as u64)) / 10,
                d < 10,
        ;
        acc = acc * 10 + (d as u64);
        i = i + 1;
    }
    assert(v@.subrange(from as int, to as int) =~= s);
    Some(acc)
}

/// Writes the decimal representation of `n` onto the end of `out`.
pub fn push_u64_dec(out: &mut Vec<char>, n: u64)
    ensures
        final(out)@ == old(out)@ + dec_rep(n as nat),
{
    let mut rev: Vec<char> = Vec::new();
    let mut m: u64 = n;
    while m >= 10
        invariant
            dec_rep(n as nat) == dec_rep(m as nat) + rev@.reverse(),
        decreases m,
    {
        let ghost rev0 = rev@;
        let d = (m % 10) as u8;
        let c = digit_char_exec(d);
        rev.push(c);
        proof {
            assert(rev@ =~= rev0.push(c));
            assert(rev@.reverse() =~= seq![c] + rev0.reverse());
            assert(dec_rep(m as nat) =~= dec_rep((m as nat) / 10) + seq![digit_char((m as nat) % 10)]);
            assert(dec_rep(m as nat) + rev0.reverse() =~= dec_rep((m as nat) / 10) + (seq![c] + rev0.reverse()));
        }
        m = m / 10;
    }
    let c = digit_char_exec(m as u8);
    proof {
        assert(dec_rep(m as nat) =~= seq![digit_char(m as nat)]);
    }
    let ghost mid = out@;
    out.push(c);
    let mut k: usize = rev.len();
    while k > 0
        invariant
            k <= rev@.len(),
            out@ == mid + seq![digit_char(m as nat)] + rev@.subrange(k as int, rev@.len() as int).reverse(),
        decreases k,
    {
        let ghost before = out@;
        k = k - 1;
        out.push(rev[k]);
        proof {
            let tail = rev@.subrange(k as int, rev@.len() as int);
            let tail1 = rev@.subrange(k as int + 1, rev@.len() as int);
            assert(tail =~= seq![rev@[k as int]] + tail1);
            assert(tail.reverse() =~= tail1.reverse() + seq![rev@[k as int]]);
            assert(out@ =~= before.push(rev@[k as int]));
        }
    }
    proof {
        assert(rev@.subrange(0, rev@.len() as int) =~= rev@);
        assert(out@ =~= mid + (seq![digit_char(m as nat)] + rev@.reverse()));
        assert(seq![digit_char(m as nat)] + rev@.reverse() =~= dec_rep(m as nat) + rev@.reverse());
    }
}

/// The digit character for a value below ten, in executable code.
pub fn digit_char_exec(d: u8) -> (c: char)
    requires
        d < 10,
    ensures
        c == digit_char(d as nat),
{
    if d == 0 { '0' }
    else if d == 1 { '1' }
    else if d == 2 { '2' }
    else if d == 3 { '3' }
    else if d == 4 { '4' }
    else if d == 5 { '5' }
    else if d == 6 { '6' }
    else if d == 7 { '7' }
    else { if d == 8 { '8' } else { '9' } }
}

/// True when `s` begins with `p`.
pub open spec fn starts_with(s: Seq<char>, p: Seq<char>) -> bool {
    p.len() <= s.len() && s.subrange(0, p.len() as int) == p
}

/// True when `s` ends with `p`.
pub open spec fn ends_with(s: Seq<char>, p: Seq<char>) -> bool {
    p.len() <= s.len() && s.subrange(s.len() - p.len(), s.len() as int) == p
}

/// First position of `c` in `v` at or after `from`, if any.
pub fn find_char(v: &Vec<char>, c: char, from: usize) -> (r: Option<usize>)
    requires
        from <= v@.len(),
    ensures
        match r {
            Some(i) => {
                &&& from <= i < v@.len()
                &&& v@[i as int] == c
                &&& forall|j: int| from <= j < i ==> v@[j] != c
            },
            None => forall|j: int| from <= j < v@.len() ==> v@[j] != c,
        },
{
    let mut i: usize = from;
    while i < v.len()
        invariant
            from <= i <= v@.len(),
            forall|j: int| from <= j < i ==> v@[j] != c,
        decreases v@.len() - i,
    {
        if v[i] == c {
            return Some(i);
        }
        i = i + 1;
    }
    None
}

/// Counts the occurrences of `c` in `s`.
pub open spec fn count_char(s: Seq<char>, c: char) -> nat
    decreases s.len(),
{
    if s.len() == 0 {
        0
    } else {
        count_char(s.drop_last(), c) + if s.last() == c { 1nat } else { 0nat }
    }
}

/// `pat` occurs somewhere in `s`.
pub open spec fn has_sub(s: Seq<char>, pat: Seq<char>) -> bool {
    exists|k: int| 0 <= k && k + pat.len() <= s.len() && #[trigger] s.subrange(k, k + pat.len()) == pat
}

/// Whether the pattern occurs in the character vector.
pub fn contains_sub(v: &Vec<char>, pat: &str) -> (r: bool)
    ensures
        r == has_sub(v@, pat@),
{
    let p = crate::ext::str_chars(pat);
    let n = v.len();
    let m = p.len();
    if m > n {
        proof {
            if has_sub(v@, pat@) {
                let k = choose|k: int|
                    0 <= k && k + pat@.len() <= v@.len() && #[trigger] v@.subrange(
                        k,
                        k + pat@.len(),
                    ) == pat@;
            }
        }
        return false;
    }
    let mut k: usize = 0;
    while k <= n - m
        invariant
            m <= n == v@.len(),
            m == p@.len(),
            p@ == pat@,
            k <= n - m + 1,
            forall|x: int| 0 <= x < k ==> #[trigger] v@.subrange(x, x + pat@.len()) != pat@,
        decreases n - m - k + 1,
    {
        let mut t: usize = 0;
        let mut matched = true;
        while t < m
            invariant
                k + m <= n == v@.len(),
                m == p@.len(),
                p@ == pat@,
                t <= m,
                matched == (forall|y: int| 0 <= y < t ==> #[trigger] v@[k + y] == pat@[y]),
            decreases m - t,
        {
            if v[k + t] != p[t] {
                matched = false;
                proof {
                    assert(v@[k + t] != pat@[t as int]);
                }
                t = m;
            } else {
                t = t + 1;
            }
        }
        if matched {
            proof {
                assert(t == m);
                assert forall|y: int|
                    0 <= y < pat@.len() implies v@.subrange(k as int, k + pat@.len())[y]
                    == pat@[y] by {
                    assert(v@[k + y] == pat@[y]);
                    assert(v@.subrange(k as int, k + pat@.len())[y] == v@[k + y]);
                }
                assert(v@.subrange(k as int, k + pat@.len()) =~= pat@);
            }
            return true;
        }
        proof {
            if v@.subrange(k as int, k + pat@.len()) == pat@ {
                assert forall|y: int| 0 <= y < m implies v@[k + y] == pat@[y] by {
                    assert(v@.subrange(k as int, k + pat@.len())[y] == v@[k + y]);
                }
                assert(false);
            }
        }
        k = k + 1;
    }
    proof {
        if has_sub(v@, pat@) {
            let x = choose|x: int|
                0 <= x && x + pat@.len() <= v@.len() && #[trigger] v@.subrange(
                    x,
                    x + pat@.len(),
                ) == pat@;
        }
    }
    false
}

} // verus!
