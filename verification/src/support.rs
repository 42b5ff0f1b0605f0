use vstd::prelude::*;

verus! {

broadcast use vstd::string::axiom_spec_iter;

/// An ASCII decimal digit, as `char::is_ascii_digit` tests it.
pub open spec fn is_digit(c: char) -> bool {
    '0' <= c && c <= '9'
}

/// Number of decimal digits at the end of `s`.
pub open spec fn trailing_digits(s: Seq<char>) -> nat
    decreases s.len(),
{
    if s.len() == 0 {
        0
    } else if is_digit(s.last()) {
        1 + trailing_digits(s.drop_last())
    } else {
        0
    }
}

/// The value of a string of decimal digits, most significant first.
pub open spec fn digits_value(s: Seq<char>) -> nat
    decreases s.len(),
{
    if s.len() == 0 {
        0
    } else {
        digits_value(s.drop_last()) * 10 + ((s.last() as int) - ('0' as int)) as nat
    }
}

/// The device number of a device path: the decimal number that follows the last
/// character that is not a digit. There is none when every character is a digit
/// (the empty path included), when the path ends in a non-digit, or when the
/// number does not fit in an `i32`.
pub open spec fn dev_number(s: Seq<char>) -> Option<i32> {
    let k = trailing_digits(s);
    if k == s.len() || k == 0 {
        None
    } else {
        let v = digits_value(s.subrange(s.len() - k, s.len() as int));
        if v <= i32::MAX {
            Some(v as i32)
        } else {
            None
        }
    }
}

/// The suffix after the last non-digit can be sliced off: that character is a
/// single byte in UTF-8.
pub open spec fn dev_path_sliceable(s: Seq<char>) -> bool {
    let k = trailing_digits(s);
    k < s.len() ==> (s[s.len() - k - 1] as int) < 0x80
}

pub(crate) fn chars_of(s: &str) -> (v: Vec<char>)
    ensures
        v@ == s@,
{
    let mut v: Vec<char> = Vec::new();
    for c in it: s.chars()
        invariant
            it.seq() == s@,
            v@ == it.seq().take(it.index() as int),
    {
        v.push(c);
    }
    v
}

/// Where the trailing run of decimal digits of `v` starts.
fn digits_start(v: &Vec<char>) -> (i: usize)
    ensures
        i <= v@.len(),
        trailing_digits(v@) == v@.len() - i,
        forall|t: int| i <= t < v@.len() ==> is_digit(#[trigger] v@[t]),
{
    let ghost s = v@;
    let mut i: usize = v.len();
    assert(s.subrange(0, i as int) =~= s);
    while i > 0 && '0' <= v[i - 1] && v[i - 1] <= '9'
        invariant
            i <= v.len(),
            s == v@,
            trailing_digits(s.subrange(0, i as int)) + (s.len() - i) == trailing_digits(s),
            forall|t: int| i <= t < s.len() ==> is_digit(#[trigger] s[t]),
        decreases i,
    {
        proof {
            assert(s.subrange(0, i as int).drop_last() =~= s.subrange(0, i - 1));
        }
        i = i - 1;
    }
    proof {
        if i > 0 {
            assert(s.subrange(0, i as int).last() == s[i - 1]);
        }
    }
    i
}

/// Whether the device number of `path` can be read without slicing inside a
/// character (see `decode_dev_number`).
pub fn dev_path_decodable(path: &str) -> (r: bool)
    ensures
        r == dev_path_sliceable(path@),
{
    let v = chars_of(path);
    let ghost s = v@;
    let i: usize = digits_start(&v);
    if i == 0 {
        return true;
    }
    let c: char = v[i - 1];
    assert(s[s.len() - trailing_digits(s) - 1] == c);
    c < '\u{80}'
}

proof fn lemma_digits_value_grows(s: Seq<char>, n: int)
    requires
        0 <= n <= s.len(),
    ensures
        digits_value(s.subrange(0, n)) <= digits_value(s),
    decreases s.len() - n,
{
    if n < s.len() {
        lemma_digits_value_grows(s.drop_last(), n);
        assert(s.drop_last().subrange(0, n) =~= s.subrange(0, n));
    } else {
        assert(s.subrange(0, n) =~= s);
    }
}

/// Reads the device number at the end of a device path such as `/dev/video2`:
/// the decimal digits after the last character that is not an ASCII digit,
/// parsed as an `i32`.
pub fn decode_dev_number(path: &str) -> (r: Option<i32>)
    requires
        dev_path_sliceable(path@),
    ensures
        r == dev_number(path@),
{
    let v = chars_of(path);
    let ghost s = v@;
    let i: usize = digits_start(&v);
    if i == 0 || i == v.len() {
        return None;
    }
    let ghost suffix = s.subrange(i as int, s.len() as int);
    let mut acc: u64 = 0;
    let mut j: usize = i;
    while j < v.len()
        invariant
            i <= j <= v.len(),
            s == v@,
            s == path@,
            suffix == s.subrange(i as int, s.len() as int),
            forall|t: int| i <= t < s.len() ==> is_digit(#[trigger] s[t]),
            acc == digits_value(s.subrange(i as int, j as int)),
            acc <= i32::MAX,
            0 < i < s.len(),
            trailing_digits(s) == s.len() - i,
        decreases v.len() - j,
    {
        let d: u64 = (v[j] as u32 - '0' as u32) as u64;
        proof {
            assert(s.subrange(i as int, j + 1).drop_last() =~= s.subrange(i as int, j as int));
            assert(s.subrange(i as int, j + 1).last() == s[j as int]);
            assert(is_digit(s[j as int]));
            assert(digits_value(s.subrange(i as int, j + 1)) == acc * 10 + d);
        }
        acc = acc * 10 + d;
        j = j + 1;
        if acc > 0x7fff_ffff {
            proof {
                lemma_digits_value_grows(suffix, j - i);
                assert(suffix.subrange(0, j - i) =~= s.subrange(i as int, j as int));
            }
            return None;
        }
    }
    proof {
        assert(s.subrange(i as int, j as int) =~= suffix);
    }
    Some(acc as i32)
}

/// The character of a decimal digit.
pub open spec fn digit_char(d: nat) -> char
    recommends
        d < 10,
{
    (('0' as int) + d) as char
}

/// The decimal notation of `n`, without leading zeros.
pub open spec fn decimal(n: nat) -> Seq<char>
    decreases n,
{
    if n < 10 {
        seq![digit_char(n)]
    } else {
        decimal(n / 10).push(digit_char(n % 10))
    }
}

proof fn lemma_decimal(n: nat)
    ensures
        decimal(n).len() > 0,
        forall|t: int| 0 <= t < decimal(n).len() ==> is_digit(#[trigger] decimal(n)[t]),
        digits_value(decimal(n)) == n,
    decreases n,
{
    let d: nat = n % 10;
    assert((digit_char(d) as int) == ('0' as int) + d);
    if n >= 10 {
        lemma_decimal(n / 10);
        assert(decimal(n).drop_last() =~= decimal(n / 10));
        assert(decimal(n).last() == digit_char(d));
        assert(digits_value(decimal(n)) == digits_value(decimal(n / 10)) * 10 + d);
        assert((n / 10) * 10 + d == n);
    } else {
        assert(decimal(n).drop_last() =~= Seq::<char>::empty());
        assert(digits_value(decimal(n).drop_last()) == 0);
        assert(decimal(n).last() == digit_char(d));
    }
}

proof fn lemma_trailing_digits_suffix(p: Seq<char>, q: Seq<char>)
    requires
        p.len() > 0,
        !is_digit(p.last()),
        forall|t: int| 0 <= t < q.len() ==> is_digit(#[trigger] q[t]),
    ensures
        trailing_digits(p + q) == q.len(),
    decreases q.len(),
{
    if q.len() == 0 {
        assert(p + q =~= p);
    } else {
        assert((p + q).drop_last() =~= p + q.drop_last());
        lemma_trailing_digits_suffix(p, q.drop_last());
    }
}

/// A device path written as a name that ends in a non-digit character
/// followed by the decimal notation of a number that fits in an `i32`
/// decodes to that number.
pub proof fn law_device_number_round_trip(name: Seq<char>, n: nat)
    requires
        name.len() > 0,
        !is_digit(name.last()),
        n <= i32::MAX,
    ensures
        dev_number(name + decimal(n)) == Some(n as i32),
{
    lemma_decimal(n);
    lemma_trailing_digits_suffix(name, decimal(n));
    let s = name + decimal(n);
    assert(s.subrange(s.len() - decimal(n).len(), s.len() as int) =~= decimal(n));
}

/// The character of decimal digit `d`.
fn digit_to_char(d: u8) -> (c: char)
    requires
        d < 10,
    ensures
        c == digit_char(d as nat),
{
    let c: char = (48u8 + d) as char;
    assert((c as int) == 48 + d);
    assert((digit_char(d as nat) as int) == 48 + d);
    c
}

/// Appends the decimal notation of `n` to `out`.
pub fn push_decimal(n: u128, out: &mut Vec<char>)
    ensures
        final(out)@ == old(out)@ + decimal(n as nat),
    decreases n,
{
    if n >= 10 {
        push_decimal(n / 10, out);
    }
    let d: u8 = (n % 10) as u8;
    let c: char = digit_to_char(d);
    out.push(c);
    proof {
        if n >= 10 {
            assert(decimal(n as nat) == decimal((n / 10) as nat).push(digit_char((n % 10) as nat)));
        }
        assert(final(out)@ =~= old(out)@ + decimal(n as nat));
    }
}

}
