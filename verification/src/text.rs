//! Numbers as text, and text in columns.

use vstd::prelude::*;
use vstd::string::*;

verus! {

/// The digit `n`, for `n` below ten.
pub open spec fn digit(n: nat) -> char {
    (48 + n) as char
}

/// `n` in decimal.
pub open spec fn decimal(n: nat) -> Seq<char>
    decreases n,
{
    if n < 10 {
        seq![digit(n)]
    } else {
        decimal(n / 10).push(digit(n % 10))
    }
}

/// `s` starts with `p`.
pub open spec fn starts_with(s: Seq<char>, p: Seq<char>) -> bool {
    s.len() >= p.len() && s.take(p.len() as int) == p
}

/// `n` copies of `c`.
pub open spec fn repeat(c: char, n: nat) -> Seq<char> {
    Seq::new(n, |i: int| c)
}

/// `s` filled up with `c` at the start to at least `width` characters.
pub open spec fn padded_start(s: Seq<char>, c: char, width: nat) -> Seq<char> {
    if s.len() < width {
        repeat(c, (width - s.len()) as nat) + s
    } else {
        s
    }
}

/// `s` filled up with spaces at the end to at least `width` characters.
pub open spec fn padded_end(s: Seq<char>, width: nat) -> Seq<char> {
    if s.len() < width {
        s + repeat(' ', (width - s.len()) as nat)
    } else {
        s
    }
}

/// `n` in decimal with its sign, also if positive.
pub open spec fn signed_decimal(n: int) -> Seq<char> {
    if n < 0 {
        seq!['-'] + decimal((-n) as nat)
    } else {
        seq!['+'] + decimal(n as nat)
    }
}

/// At least two digits.
pub open spec fn two_digits(n: nat) -> Seq<char> {
    padded_start(decimal(n), '0', 2)
}

/// The hexadecimal digit `n`, for `n` below sixteen.
pub open spec fn hex_digit(n: nat) -> char {
    if n < 10 {
        (48 + n) as char
    } else {
        (87 + n) as char
    }
}

/// Two hexadecimal digits per byte.
pub open spec fn hex(bytes: Seq<u8>) -> Seq<char>
    decreases bytes.len(),
{
    if bytes.len() == 0 {
        seq![]
    } else {
        hex(bytes.drop_last()).push(hex_digit(bytes.last() as nat / 16)).push(
            hex_digit(bytes.last() as nat % 16),
        )
    }
}

/// The decimal form consists of digits.
proof fn lemma_decimal_digits(n: nat)
    ensures
        decimal(n).len() > 0,
        forall|i: int| 0 <= i < decimal(n).len() ==> '0' <= #[trigger] decimal(n)[i] <= '9',
    decreases n,
{
    if n >= 10 {
        lemma_decimal_digits(n / 10);
        let head = decimal(n / 10);
        assert forall|i: int| 0 <= i < decimal(n).len() implies '0' <= #[trigger] decimal(n)[i]
            <= '9' by {
            if i < head.len() {
                assert(decimal(n)[i] == head[i]);
            }
        }
    }
}

/// Different numbers have different decimal forms.
pub proof fn lemma_decimal_injective(m: nat, n: nat)
    requires
        decimal(m) == decimal(n),
    ensures
        m == n,
    decreases m,
{
    lemma_decimal_digits(m / 10);
    lemma_decimal_digits(n / 10);
    let last = decimal(m).last();
    assert(last == digit(m % 10));
    assert(last == digit(n % 10));
    assert(m % 10 == n % 10);
    if m >= 10 {
        assert(decimal(m).len() >= 2);
        assert(decimal(m).drop_last() =~= decimal(m / 10));
        assert(decimal(n).drop_last() =~= decimal(n / 10));
        lemma_decimal_injective(m / 10, n / 10);
    } else {
        assert(n < 10);
    }
}

/// Two numbers with a dash in between can be told from any other two.
pub proof fn lemma_pair_injective(a: nat, b: nat, c: nat, d: nat)
    requires
        decimal(a) + seq!['-'] + decimal(b) == decimal(c) + seq!['-'] + decimal(d),
    ensures
        a == c,
        b == d,
{
    let s = decimal(a) + seq!['-'] + decimal(b);
    let i = decimal(a).len() as int;
    let j = decimal(c).len() as int;
    lemma_decimal_digits(a);
    lemma_decimal_digits(c);
    assert(s[i] == '-');
    assert(s[j] == '-');
    if i < j {
        assert(s[i] == decimal(c)[i]);
    }
    if j < i {
        assert(s[j] == decimal(a)[j]);
    }
    assert(s.take(i) =~= decimal(a));
    assert(s.take(i) =~= decimal(c));
    assert(s.skip(i + 1) =~= decimal(b));
    assert(s.skip(i + 1) =~= decimal(d));
    lemma_decimal_injective(a, c);
    lemma_decimal_injective(b, d);
}

fn digit_char(n: u8) -> (c: char)
    requires
        n < 10,
    ensures
        c == digit(n as nat),
{
    (48 + n) as char
}

fn hex_char(n: u8) -> (c: char)
    requires
        n < 16,
    ensures
        c == hex_digit(n as nat),
{
    if n < 10 {
        (48 + n) as char
    } else {
        (87 + n) as char
    }
}

/// Appends `n` in decimal.
pub fn push_decimal(out: &mut String, n: u128)
    ensures
        final(out)@ == old(out)@ + decimal(n as nat),
{
    let mut backwards: Vec<char> = Vec::new();
    let mut rest: u128 = n;
    proof {
        assert(decimal(rest as nat) + backwards@.reverse() =~= decimal(n as nat));
    }
    while rest >= 10
        invariant
            decimal(n as nat) == decimal(rest as nat) + backwards@.reverse(),
        decreases rest,
    {
        let ghost before = backwards@;
        backwards.push(digit_char((rest % 10) as u8));
        proof {
            assert(backwards@.reverse() =~= seq![digit((rest % 10) as nat)] + before.reverse());
            assert(decimal(rest as nat) + before.reverse() =~= decimal((rest / 10) as nat)
                + backwards@.reverse());
        }
        rest = rest / 10;
    }
    out.push(digit_char(rest as u8));
    let mut i: usize = backwards.len();
    proof {
        assert(backwards@.skip(i as int) =~= Seq::empty());
        assert(out@ =~= old(out)@ + decimal(rest as nat) + backwards@.skip(i as int).reverse());
    }
    while i > 0
        invariant
            i <= backwards@.len(),
            out@ == old(out)@ + decimal(rest as nat) + backwards@.skip(i as int).reverse(),
        decreases i,
    {
        let ghost before = out@;
        i = i - 1;
        out.push(backwards[i]);
        proof {
            let tail = backwards@.skip(i + 1);
            assert(backwards@.skip(i as int) =~= seq![backwards@[i as int]] + tail);
            assert(backwards@.skip(i as int).reverse() =~= tail.reverse().push(
                backwards@[i as int],
            ));
            assert(out@ =~= old(out)@ + decimal(rest as nat) + backwards@.skip(
                i as int,
            ).reverse());
        }
    }
    proof {
        assert(backwards@.skip(0) =~= backwards@);
        assert(out@ =~= old(out)@ + decimal(n as nat));
    }
}

/// `n` in decimal.
pub fn decimal_text(n: u128) -> (r: String)
    ensures
        r@ == decimal(n as nat),
{
    let mut r = String::new();
    push_decimal(&mut r, n);
    assert(r@ =~= decimal(n as nat));
    r
}

/// `n` in decimal with its sign, also if positive.
pub fn signed_text(n: i64) -> (r: String)
    ensures
        r@ == signed_decimal(n as int),
{
    let mut r = String::new();
    if n < 0 {
        r.push('-');
        push_decimal(&mut r, (-(n as i128)) as u128);
    } else {
        r.push('+');
        push_decimal(&mut r, n as u128);
    }
    assert(r@ =~= signed_decimal(n as int));
    r
}

/// Fills up with `c` at the start.
pub fn pad_start(s: &str, c: char, width: usize) -> (r: String)
    ensures
        r@ == padded_start(s@, c, width as nat),
{
    let len: usize = s.unicode_len();
    let mut r = String::new();
    let mut have: usize = len;
    while have < width
        invariant
            len <= have,
            have <= width || have == len,
            r@ =~= repeat(c, (have - len) as nat),
        decreases width - have,
    {
        r.push(c);
        have = have + 1;
    }
    r.append(s);
    assert(r@ =~= padded_start(s@, c, width as nat));
    r
}

/// Fills up with spaces at the end.
pub fn pad_end(s: &str, width: usize) -> (r: String)
    ensures
        r@ == padded_end(s@, width as nat),
{
    let len: usize = s.unicode_len();
    let mut r = s.to_owned();
    let mut have: usize = len;
    while have < width
        invariant
            len == s@.len(),
            len <= have,
            have <= width || have == len,
            r@ =~= s@ + repeat(' ', (have - len) as nat),
        decreases width - have,
    {
        r.push(' ');
        have = have + 1;
    }
    assert(r@ =~= padded_end(s@, width as nat));
    r
}

/// The first `n` characters, or all of them if there are fewer.
pub open spec fn first_chars(s: Seq<char>, n: nat) -> Seq<char> {
    if s.len() <= n {
        s
    } else {
        s.take(n as int)
    }
}

/// The first `n` characters, or all of them if there are fewer.
pub fn take_chars(s: &str, n: usize) -> (r: String)
    ensures
        r@ == first_chars(s@, n as nat),
{
    if s.unicode_len() <= n {
        s.to_owned()
    } else {
        let r = s.substring_char(0, n).to_owned();
        assert(r@ =~= s@.take(n as int));
        r
    }
}

/// Two hexadecimal digits per byte.
pub fn hex_text(bytes: &[u8]) -> (r: String)
    ensures
        r@ == hex(bytes@),
{
    let mut r = String::new();
    let mut i: usize = 0;
    proof {
        assert(bytes@.take(0) =~= Seq::empty());
    }
    while i < bytes.len()
        invariant
            0 <= i <= bytes@.len(),
            r@ == hex(bytes@.take(i as int)),
        decreases bytes@.len() - i,
    {
        proof {
            assert(bytes@.take(i + 1).drop_last() =~= bytes@.take(i as int));
        }
        let b: u8 = bytes[i];
        r.push(hex_char(b / 16));
        r.push(hex_char(b % 16));
        i = i + 1;
    }
    assert(bytes@.take(i as int) =~= bytes@);
    r
}

/// The number that a row of digits stands for.
pub open spec fn digits_value(s: Seq<char>) -> nat
    decreases s.len(),
{
    if s.len() == 0 {
        0
    } else {
        10 * digits_value(s.drop_last()) + ((s.last() as nat - 48) as nat)
    }
}

/// A number in decimal can be read: it consists of digits, without a leading
/// zero, and stands for that number.
pub proof fn law_decimal_can_be_read(n: nat)
    ensures
        digits_value(decimal(n)) == n,
        decimal(n).len() > 0,
        forall|i: int| 0 <= i < decimal(n).len() ==> '0' <= #[trigger] decimal(n)[i] <= '9',
        n > 0 ==> decimal(n)[0] != '0',
    decreases n,
{
    lemma_decimal_digits(n);
    if n >= 10 {
        law_decimal_can_be_read(n / 10);
        assert(decimal(n).drop_last() =~= decimal(n / 10));
        assert(decimal(n)[0] == decimal(n / 10)[0]);
    } else {
        assert(decimal(n).drop_last() =~= Seq::empty());
        assert(digits_value(Seq::empty()) == 0);
    }
}

/// Leading zeros do not change what digits stand for.
pub proof fn law_padding_keeps_the_value(s: Seq<char>, width: nat)
    ensures
        digits_value(padded_start(s, '0', width)) == digits_value(s),
        padded_start(s, '0', width).len() >= width,
        padded_start(s, '0', width).len() == if s.len() < width {
            width
        } else {
            s.len()
        },
{
    if s.len() < width {
        lemma_zeros_in_front((width - s.len()) as nat, s);
    }
}

proof fn lemma_zeros_in_front(n: nat, s: Seq<char>)
    ensures
        digits_value(repeat('0', n) + s) == digits_value(s),
    decreases n + s.len(),
{
    let t = repeat('0', n) + s;
    if s.len() > 0 {
        assert(t.drop_last() =~= repeat('0', n) + s.drop_last());
        assert(t.last() == s.last());
        lemma_zeros_in_front(n, s.drop_last());
    } else if n > 0 {
        assert(t.drop_last() =~= repeat('0', (n - 1) as nat) + s);
        assert(t.last() == '0');
        lemma_zeros_in_front((n - 1) as nat, s);
    } else {
        assert(t =~= s);
    }
}

/// Padding at the start puts only copies of the filler in front; padding at the
/// end puts only spaces behind. Text that is long enough stays as it is.
pub proof fn law_padding_keeps_the_text(s: Seq<char>, c: char, width: nat)
    ensures
        ({
            let r = padded_start(s, c, width);
            let more = r.len() - s.len();
            &&& more >= 0
            &&& r.skip(more) == s
            &&& forall|i: int| 0 <= i < more ==> #[trigger] r[i] == c
            &&& more > 0 ==> r.len() == width
        }),
        ({
            let r = padded_end(s, width);
            &&& r.len() >= s.len()
            &&& r.take(s.len() as int) == s
            &&& forall|i: int| s.len() <= i < r.len() ==> #[trigger] r[i] == ' '
            &&& r.len() > s.len() ==> r.len() == width
        }),
{
    let r = padded_start(s, c, width);
    assert(r.skip(r.len() - s.len()) =~= s);
    assert(padded_end(s, width).take(s.len() as int) =~= s);
}

/// A number with its sign starts with it: a minus below zero, else a plus. What
/// follows is the size of the number.
pub proof fn law_signs_are_shown(n: int)
    ensures
        signed_decimal(n)[0] == if n < 0 {
            '-'
        } else {
            '+'
        },
        digits_value(signed_decimal(n).skip(1)) == if n < 0 {
            -n
        } else {
            n
        },
{
    let size = if n < 0 {
        (-n) as nat
    } else {
        n as nat
    };
    law_decimal_can_be_read(size);
    assert(signed_decimal(n).skip(1) =~= decimal(size));
}

/// What a hexadecimal digit stands for.
pub open spec fn hex_value(c: char) -> int {
    if c <= '9' {
        c as int - 48
    } else {
        c as int - 87
    }
}

/// Bytes in hexadecimal can be read: two digits stand for each byte, in order.
pub proof fn law_hex_can_be_read(bytes: Seq<u8>)
    ensures
        hex(bytes).len() == 2 * bytes.len(),
        forall|i: int|
            0 <= i < bytes.len() ==> #[trigger] bytes[i] == 16 * hex_value(hex(bytes)[2 * i])
                + hex_value(hex(bytes)[2 * i + 1]),
    decreases bytes.len(),
{
    if bytes.len() > 0 {
        let rest = bytes.drop_last();
        law_hex_can_be_read(rest);
        assert forall|i: int| 0 <= i < bytes.len() implies #[trigger] bytes[i] == 16 * hex_value(
            hex(bytes)[2 * i],
        ) + hex_value(hex(bytes)[2 * i + 1]) by {
            if i < rest.len() {
                assert(rest[i] == bytes[i]);
                assert(hex(bytes)[2 * i] == hex(rest)[2 * i]);
                assert(hex(bytes)[2 * i + 1] == hex(rest)[2 * i + 1]);
            }
        }
    }
}

} // verus!
