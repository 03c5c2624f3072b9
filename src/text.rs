use vstd::prelude::*;

verus! {

/// The character of a decimal digit.
pub open spec fn digit_char(d: int) -> char {
    seq!['0', '1', '2', '3', '4', '5', '6', '7', '8', '9'][d]
}

pub open spec fn is_digit(c: char) -> bool {
    '0' <= c && c <= '9'
}

/// The decimal numeral of `n`, without leading zeros.
pub open spec fn decimal(n: nat) -> Seq<char>
    decreases n,
{
    if n < 10 {
        seq![digit_char(n as int)]
    } else {
        decimal(n / 10).push(digit_char((n % 10) as int))
    }
}

/// `piece` written `k` times in a row.
pub open spec fn repeat(piece: Seq<char>, k: nat) -> Seq<char>
    decreases k,
{
    if k == 0 {
        Seq::empty()
    } else {
        repeat(piece, (k - 1) as nat) + piece
    }
}

/// The decimal numeral of `n`, with zeros in front up to `width` characters.
pub open spec fn zero_padded(n: nat, width: nat) -> Seq<char> {
    let d = decimal(n);
    if d.len() >= width {
        d
    } else {
        repeat(seq!['0'], (width - d.len()) as nat) + d
    }
}

/// `s` followed by spaces up to `width` characters.
pub open spec fn padded_right(s: Seq<char>, width: nat) -> Seq<char> {
    if s.len() >= width {
        s
    } else {
        s + repeat(seq![' '], (width - s.len()) as nat)
    }
}

pub proof fn lemma_decimal_digits(n: nat)
    ensures
        decimal(n).len() >= 1,
        forall|i: int| 0 <= i < decimal(n).len() ==> is_digit(#[trigger] decimal(n)[i]),
    decreases n,
{
    if n >= 10 {
        lemma_decimal_digits(n / 10);
    }
}

/// A numeral below `10^k` has at most `k` digits.
pub proof fn lemma_decimal_len_bound(n: nat, k: nat, bound: nat)
    requires
        k >= 1,
        bound == pow10(k),
        n < bound,
    ensures
        decimal(n).len() <= k,
    decreases k,
{
    if n >= 10 {
        assert(k >= 2) by {
            if k == 1 {
                assert(pow10(1) == 10) by {
                    reveal_with_fuel(pow10, 2);
                }
            }
        }
        assert(n / 10 < pow10((k - 1) as nat)) by {
            assert(pow10(k) == 10 * pow10((k - 1) as nat));
        }
        lemma_decimal_len_bound(n / 10, (k - 1) as nat, pow10((k - 1) as nat));
    }
}

pub open spec fn pow10(k: nat) -> nat
    decreases k,
{
    if k == 0 {
        1
    } else {
        10 * pow10((k - 1) as nat)
    }
}

pub proof fn lemma_repeat_char(c: char, k: nat)
    ensures
        repeat(seq![c], k).len() == k,
        forall|i: int| 0 <= i < k ==> #[trigger] repeat(seq![c], k)[i] == c,
    decreases k,
{
    if k > 0 {
        lemma_repeat_char(c, (k - 1) as nat);
    }
}

/// A numeral padded to a width it fits in has exactly that width, and only digits.
pub proof fn lemma_zero_padded_shape(n: nat, width: nat)
    requires
        width >= 1,
        n < pow10(width),
    ensures
        zero_padded(n, width).len() == width,
        forall|i: int| 0 <= i < width ==> is_digit(#[trigger] zero_padded(n, width)[i]),
{
    lemma_decimal_len_bound(n, width, pow10(width));
    lemma_decimal_digits(n);
    let d = decimal(n);
    if d.len() < width {
        let z = repeat(seq!['0'], (width - d.len()) as nat);
        lemma_repeat_char('0', (width - d.len()) as nat);
        assert forall|i: int| 0 <= i < width implies is_digit(#[trigger] zero_padded(n, width)[i]) by {
            if i < z.len() {
                assert(zero_padded(n, width)[i] == z[i]);
            } else {
                assert(zero_padded(n, width)[i] == d[i - z.len()]);
            }
        }
    }
}

/// The value of a string of decimal digits.
pub open spec fn digits_value(s: Seq<char>) -> nat
    decreases s.len(),
{
    if s.len() == 0 {
        0
    } else {
        10 * digits_value(s.drop_last()) + digit_value(s.last())
    }
}

pub open spec fn digit_value(c: char) -> nat {
    if is_digit(c) {
        (c as u32 - '0' as u32) as nat
    } else {
        0
    }
}

pub proof fn lemma_digit_value(d: int)
    requires
        0 <= d < 10,
    ensures
        digit_value(digit_char(d)) == d,
{
    let ds = seq!['0', '1', '2', '3', '4', '5', '6', '7', '8', '9'];
    assert(ds[d] == digit_char(d));
    if d == 0 {
        assert(ds[0] == '0');
    } else if d == 1 {
        assert(ds[1] == '1');
    } else if d == 2 {
        assert(ds[2] == '2');
    } else if d == 3 {
        assert(ds[3] == '3');
    } else if d == 4 {
        assert(ds[4] == '4');
    } else if d == 5 {
        assert(ds[5] == '5');
    } else if d == 6 {
        assert(ds[6] == '6');
    } else if d == 7 {
        assert(ds[7] == '7');
    } else if d == 8 {
        assert(ds[8] == '8');
    } else {
        assert(ds[9] == '9');
    }
}

pub proof fn lemma_decimal_value(n: nat)
    ensures
        digits_value(decimal(n)) == n,
    decreases n,
{
    lemma_digit_value((n % 10) as int);
    if n < 10 {
        let d = seq![digit_char(n as int)];
        assert(d.drop_last() =~= Seq::<char>::empty());
        assert(digits_value(d) == 10 * digits_value(d.drop_last()) + digit_value(d.last()));
    } else {
        lemma_decimal_value(n / 10);
        assert(decimal(n).drop_last() =~= decimal(n / 10));
    }
}

pub proof fn lemma_leading_zeros_value(k: nat, t: Seq<char>)
    ensures
        digits_value(repeat(seq!['0'], k) + t) == digits_value(t) + 0 * k,
    decreases t.len(),
{
    let z = repeat(seq!['0'], k);
    if t.len() == 0 {
        assert(z + t == z);
        lemma_zeros_value(k);
    } else {
        assert((z + t).drop_last() == z + t.drop_last());
        lemma_leading_zeros_value(k, t.drop_last());
    }
}

pub proof fn lemma_zeros_value(k: nat)
    ensures
        digits_value(repeat(seq!['0'], k)) == 0,
    decreases k,
{
    if k > 0 {
        lemma_zeros_value((k - 1) as nat);
        let z = repeat(seq!['0'], k);
        assert(z.drop_last() == repeat(seq!['0'], (k - 1) as nat));
    }
}

/// A padded numeral still reads as its number.
pub proof fn lemma_zero_padded_value(n: nat, width: nat)
    ensures
        digits_value(zero_padded(n, width)) == n,
{
    lemma_decimal_value(n);
    let d = decimal(n);
    if d.len() < width {
        lemma_leading_zeros_value((width - d.len()) as nat, d);
    }
}

/// `s` comes before `t` in dictionary order, at a place where both have a character.
pub open spec fn lex_less(s: Seq<char>, t: Seq<char>) -> bool {
    exists|k: int|
        0 <= k < s.len() && k < t.len() && s.subrange(0, k) == t.subrange(0, k) && #[trigger] s[k] < t[k]
}

pub proof fn lemma_lex_append(s: Seq<char>, t: Seq<char>, u: Seq<char>, v: Seq<char>)
    requires
        lex_less(s, t),
    ensures
        lex_less(s + u, t + v),
{
    let k = choose|k: int|
        0 <= k < s.len() && k < t.len() && s.subrange(0, k) == t.subrange(0, k) && #[trigger] s[k] < t[k];
    assert((s + u).subrange(0, k) =~= s.subrange(0, k));
    assert((t + v).subrange(0, k) =~= t.subrange(0, k));
    assert((s + u)[k] == s[k]);
    assert((t + v)[k] == t[k]);
}

pub proof fn lemma_lex_prefix(p: Seq<char>, s: Seq<char>, t: Seq<char>)
    requires
        lex_less(s, t),
    ensures
        lex_less(p + s, p + t),
{
    let k = choose|k: int|
        0 <= k < s.len() && k < t.len() && s.subrange(0, k) == t.subrange(0, k) && #[trigger] s[k] < t[k];
    let j = p.len() + k;
    assert((p + s).subrange(0, j) =~= p + s.subrange(0, k));
    assert((p + t).subrange(0, j) =~= p + t.subrange(0, k));
    assert((p + s)[j] == s[k]);
    assert((p + t)[j] == t[k]);
}

proof fn lemma_digit_char_order(d: int, e: int)
    requires
        0 <= d < e < 10,
    ensures
        digit_char(d) < digit_char(e),
{
    lemma_digit_value(d);
    lemma_digit_value(e);
    let ds = seq!['0', '1', '2', '3', '4', '5', '6', '7', '8', '9'];
    assert(is_digit(ds[d]) && is_digit(ds[e])) by {
        assert(ds[d] == digit_char(d));
    }
}

proof fn lemma_zero_padded_split(x: nat, w: nat)
    requires
        w >= 2,
        x < pow10(w),
    ensures
        zero_padded(x, w) == zero_padded(x / 10, (w - 1) as nat).push(digit_char((x % 10) as int)),
{
    let d = digit_char((x % 10) as int);
    if x >= 10 {
        assert(x / 10 < pow10((w - 1) as nat));
        lemma_decimal_len_bound(x / 10, (w - 1) as nat, pow10((w - 1) as nat));
        let q = decimal(x / 10);
        assert(decimal(x) == q.push(d));
        if q.len() < w - 1 {
            let z = repeat(seq!['0'], (w - 1 - q.len()) as nat);
            assert(zero_padded(x, w) == z + q.push(d));
            assert(z + q.push(d) =~= (z + q).push(d));
        }
    } else {
        assert(x / 10 == 0);
        assert(decimal(0) == seq![digit_char(0)]);
        assert(digit_char(0) == '0');
        let z = repeat(seq!['0'], (w - 2) as nat);
        assert(repeat(seq!['0'], (w - 1) as nat) == z + seq!['0']);
        assert(zero_padded(x, w) =~= repeat(seq!['0'], (w - 1) as nat).push(d));
        if w - 1 > 1 {
            assert(zero_padded(0, (w - 1) as nat) == z + seq!['0']);
        } else {
            assert(z =~= Seq::<char>::empty());
            assert(zero_padded(0, (w - 1) as nat) == seq!['0']);
        }
    }
}

/// Padded to a common width, a smaller number comes first in dictionary order.
pub proof fn lemma_zero_padded_order(x: nat, y: nat, w: nat)
    requires
        w >= 1,
        x < y,
        y < pow10(w),
    ensures
        lex_less(zero_padded(x, w), zero_padded(y, w)),
    decreases w,
{
    lemma_zero_padded_shape(x, w);
    lemma_zero_padded_shape(y, w);
    if w == 1 {
        assert(pow10(1) == 10) by {
            reveal_with_fuel(pow10, 2);
        }
        lemma_digit_char_order(x as int, y as int);
        let s = zero_padded(x, w);
        let t = zero_padded(y, w);
        assert(s == seq![digit_char(x as int)]);
        assert(t == seq![digit_char(y as int)]);
        assert(s.subrange(0, 0) =~= t.subrange(0, 0));
        assert(s[0] < t[0]);
    } else {
        lemma_zero_padded_split(x, w);
        lemma_zero_padded_split(y, w);
        let sx = zero_padded(x / 10, (w - 1) as nat);
        let sy = zero_padded(y / 10, (w - 1) as nat);
        assert(y / 10 < pow10((w - 1) as nat));
        lemma_zero_padded_shape(x / 10, (w - 1) as nat);
        lemma_zero_padded_shape(y / 10, (w - 1) as nat);
        let dx = digit_char((x % 10) as int);
        let dy = digit_char((y % 10) as int);
        if x / 10 < y / 10 {
            lemma_zero_padded_order(x / 10, y / 10, (w - 1) as nat);
            lemma_lex_append(sx, sy, seq![dx], seq![dy]);
            assert(sx.push(dx) =~= sx + seq![dx]);
            assert(sy.push(dy) =~= sy + seq![dy]);
        } else {
            assert(x / 10 == y / 10);
            assert(x % 10 < y % 10);
            lemma_digit_char_order((x % 10) as int, (y % 10) as int);
            let k = (w - 1) as int;
            assert(sx.push(dx).subrange(0, k) =~= sx);
            assert(sy.push(dy).subrange(0, k) =~= sy);
            assert(sx.push(dx)[k] == dx);
            assert(sy.push(dy)[k] == dy);
        }
    }
}

/// The one-character literal of a decimal digit.
pub fn digit_str(d: u64) -> (r: &'static str)
    requires
        d < 10,
    ensures
        r@ == seq![digit_char(d as int)],
{
    proof {
        reveal_strlit("0");
        reveal_strlit("1");
        reveal_strlit("2");
        reveal_strlit("3");
        reveal_strlit("4");
        reveal_strlit("5");
        reveal_strlit("6");
        reveal_strlit("7");
        reveal_strlit("8");
        reveal_strlit("9");
    }
    match d {
        0 => "0",
        1 => "1",
        2 => "2",
        3 => "3",
        4 => "4",
        5 => "5",
        6 => "6",
        7 => "7",
        8 => "8",
        _ => "9",
    }
}

/// Appends the decimal numeral of `n`.
pub fn push_decimal(s: &mut String, n: u64)
    ensures
        final(s)@ == old(s)@ + decimal(n as nat),
    decreases n,
{
    if n >= 10 {
        push_decimal(s, n / 10);
    }
    s.append(digit_str(n % 10));
    proof {
        assert(decimal(n as nat) =~= if n < 10 {
            seq![digit_char(n as int)]
        } else {
            decimal((n / 10) as nat).push(digit_char((n % 10) as int))
        });
    }
}

/// The number of digits of `n`.
pub fn decimal_len(n: u64) -> (r: usize)
    ensures
        r as nat == decimal(n as nat).len(),
        r <= 20,
    decreases n,
{
    if n < 10 {
        1
    } else {
        let k = decimal_len(n / 10);
        proof {
            reveal_with_fuel(pow10, 21);
            assert(pow10(20) == 100000000000000000000nat);
            lemma_decimal_len_bound(n as nat, 20, pow10(20));
        }
        k + 1
    }
}

/// The decimal numeral of `n`.
pub fn decimal_string(n: u64) -> (r: String)
    ensures
        r@ == decimal(n as nat),
{
    let mut s = String::new();
    push_decimal(&mut s, n);
    proof {
        assert(s@ =~= decimal(n as nat));
    }
    s
}

/// Appends `piece` `k` times.
pub fn push_repeat(s: &mut String, piece: &str, k: usize)
    ensures
        final(s)@ == old(s)@ + repeat(piece@, k as nat),
{
    let mut i: usize = 0;
    while i < k
        invariant
            i <= k,
            s@ == old(s)@ + repeat(piece@, i as nat),
        decreases k - i,
    {
        s.append(piece);
        i = i + 1;
        proof {
            assert(repeat(piece@, i as nat) == repeat(piece@, (i - 1) as nat) + piece@);
            assert(s@ =~= old(s)@ + repeat(piece@, i as nat));
        }
    }
}

/// Appends the numeral of `n` zero-padded to `width` characters.
pub fn push_zero_padded(s: &mut String, n: u64, width: usize)
    ensures
        final(s)@ == old(s)@ + zero_padded(n as nat, width as nat),
{
    let len = decimal_len(n);
    if len < width {
        proof {
            reveal_strlit("0");
            assert("0"@ =~= seq!['0']);
        }
        push_repeat(s, "0", width - len);
    }
    push_decimal(s, n);
    proof {
        assert(final(s)@ =~= old(s)@ + zero_padded(n as nat, width as nat));
    }
}

/// Appends `t` followed by spaces up to `width` characters.
pub fn push_padded_right(s: &mut String, t: &str, width: usize)
    ensures
        final(s)@ == old(s)@ + padded_right(t@, width as nat),
{
    let len = t.unicode_len();
    s.append(t);
    if len < width {
        proof {
            reveal_strlit(" ");
            assert(" "@ =~= seq![' ']);
        }
        push_repeat(s, " ", width - len);
    }
    proof {
        assert(final(s)@ =~= old(s)@ + padded_right(t@, width as nat));
    }
}

/// Whether two texts are the same characters.
pub fn same_text(a: &str, b: &str) -> (r: bool)
    ensures
        r == (a@ == b@),
{
    let n = a.unicode_len();
    if n != b.unicode_len() {
        return false;
    }
    let mut i: usize = 0;
    while i < n
        invariant
            n == a@.len(),
            n == b@.len(),
            i <= n,
            forall|j: int| 0 <= j < i ==> a@[j] == b@[j],
        decreases n - i,
    {
        if a.get_char(i) != b.get_char(i) {
            return false;
        }
        i = i + 1;
    }
    proof {
        assert(a@ =~= b@);
    }
    true
}

/// Whether `s` begins with `p`.
pub fn starts_with_text(s: &str, p: &str) -> (r: bool)
    ensures
        r == p@.is_prefix_of(s@),
{
    let n = p.unicode_len();
    if n > s.unicode_len() {
        return false;
    }
    let mut i: usize = 0;
    while i < n
        invariant
            n == p@.len(),
            n <= s@.len(),
            i <= n,
            forall|j: int| 0 <= j < i ==> p@[j] == s@[j],
        decreases n - i,
    {
        if s.get_char(i) != p.get_char(i) {
            return false;
        }
        i = i + 1;
    }
    true
}

} // verus!
