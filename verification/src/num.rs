//! Decimal text, as the kernel reads and writes it in numeric
//! configfs attributes: a `u64` in base 10, optionally padded with
//! ASCII whitespace (the kernel terminates values with a newline).

use vstd::prelude::*;
use vstd::utf8::encode_scalar;
use vstd::utf8::encode_utf8;

verus! {

/// ASCII whitespace, the padding tolerated around numeric attribute text.
pub open spec fn is_space_byte(b: u8) -> bool {
    b == 32 || b == 9 || b == 10 || b == 11 || b == 12 || b == 13
}

/// An ASCII decimal digit.
pub open spec fn is_dec_digit(b: u8) -> bool {
    48 <= b <= 57
}

pub open spec fn all_dec_digits(s: Seq<u8>) -> bool {
    forall|i: int| 0 <= i < s.len() ==> is_dec_digit(s[i])
}

/// The number denoted by a digit string, most significant digit first.
pub open spec fn dec_val(s: Seq<u8>) -> nat
    decreases s.len(),
{
    if s.len() == 0 {
        0
    } else {
        dec_val(s.drop_last()) * 10 + (s.last() - 48) as nat
    }
}

pub open spec fn trim_front(s: Seq<u8>) -> Seq<u8>
    decreases s.len(),
{
    if s.len() > 0 && is_space_byte(s[0]) {
        trim_front(s.skip(1))
    } else {
        s
    }
}

pub open spec fn trim_back(s: Seq<u8>) -> Seq<u8>
    decreases s.len(),
{
    if s.len() > 0 && is_space_byte(s.last()) {
        trim_back(s.drop_last())
    } else {
        s
    }
}

/// `s` with ASCII whitespace removed from both ends.
pub open spec fn trim_spaces(s: Seq<u8>) -> Seq<u8> {
    trim_back(trim_front(s))
}

/// The digit text is well formed and its value fits a `u64`.
pub open spec fn parses_to_u64(s: Seq<u8>) -> bool {
    let t = trim_spaces(s);
    t.len() > 0 && all_dec_digits(t) && dec_val(t) <= u64::MAX
}

fn is_space_byte_exec(b: u8) -> (r: bool)
    ensures
        r == is_space_byte(b),
{
    b == 32 || b == 9 || b == 10 || b == 11 || b == 12 || b == 13
}

proof fn lemma_trim_front_is_skip(s: Seq<u8>, m: int)
    requires
        0 <= m <= s.len(),
        forall|j: int| 0 <= j < m ==> is_space_byte(s[j]),
        m == s.len() || !is_space_byte(s[m]),
    ensures
        trim_front(s) == s.skip(m),
    decreases m,
{
    if m == 0 {
        assert(s.skip(0) =~= s);
    } else {
        lemma_trim_front_is_skip(s.skip(1), m - 1);
        assert(s.skip(1).skip(m - 1) =~= s.skip(m));
    }
}

proof fn lemma_trim_back_is_take(s: Seq<u8>, m: int)
    requires
        0 <= m <= s.len(),
        forall|j: int| m <= j < s.len() ==> is_space_byte(s[j]),
        m == 0 || !is_space_byte(s[m - 1]),
    ensures
        trim_back(s) == s.take(m),
    decreases s.len() - m,
{
    if m == s.len() {
        assert(s.take(m) =~= s);
    } else {
        lemma_trim_back_is_take(s.drop_last(), m);
        assert(s.drop_last().take(m) =~= s.take(m));
    }
}

/// A prefix of a digit string never denotes more than the whole string.
proof fn lemma_dec_val_prefix(s: Seq<u8>, m: int)
    requires
        0 <= m <= s.len(),
    ensures
        dec_val(s.take(m)) <= dec_val(s),
    decreases s.len(),
{
    if m == s.len() {
        assert(s.take(m) =~= s);
    } else {
        lemma_dec_val_prefix(s.drop_last(), m);
        assert(s.drop_last().take(m) =~= s.take(m));
    }
}

/// Reads ASCII-whitespace-padded decimal text as a `u64`, the way the
/// kernel parses its numeric attribute files.  Returns `None` when the
/// trimmed text is empty, holds a non-digit, or denotes a value above
/// `u64::MAX`.
#[verifier::loop_isolation(false)]
pub fn kstrtouint(data: &[u8]) -> (r: Option<u64>)
    ensures
        r is Some <==> parses_to_u64(data@),
        r matches Some(v) ==> v == dec_val(trim_spaces(data@)),
{
    let n: usize = data.len();
    let mut lo: usize = 0;
    while lo < n && is_space_byte_exec(data[lo])
        invariant
            0 <= lo <= n,
            n == data@.len(),
            forall|j: int| 0 <= j < lo ==> is_space_byte(data@[j]),
        decreases n - lo,
    {
        lo = lo + 1;
    }
    proof {
        lemma_trim_front_is_skip(data@, lo as int);
    }
    let mut hi: usize = n;
    while hi > lo && is_space_byte_exec(data[hi - 1])
        invariant
            lo <= hi <= n,
            n == data@.len(),
            forall|j: int| hi <= j < n ==> is_space_byte(data@[j]),
        decreases hi,
    {
        hi = hi - 1;
    }
    proof {
        lemma_trim_back_is_take(data@.skip(lo as int), hi - lo as int);
        assert(data@.skip(lo as int).take(hi - lo as int) =~= data@.subrange(
            lo as int,
            hi as int,
        ));
    }
    let ghost t = trim_spaces(data@);
    assert(t == data@.subrange(lo as int, hi as int));
    if lo == hi {
        return None;
    }
    let mut val: u64 = 0;
    let mut i: usize = lo;
    while i < hi
        invariant
            lo <= i <= hi <= n,
            n == data@.len(),
            t == data@.subrange(lo as int, hi as int),
            forall|j: int| lo <= j < i ==> is_dec_digit(data@[j]),
            val == dec_val(data@.subrange(lo as int, i as int)),
        decreases hi - i,
    {
        let b: u8 = data[i];
        if !(48 <= b && b <= 57) {
            proof {
                assert(t[i - lo as int] == data@[i as int]);
                assert(!is_dec_digit(t[i - lo as int]));
                assert(!all_dec_digits(t));
            }
            return None;
        }
        let d: u64 = (b - 48) as u64;
        if val > (u64::MAX - d) / 10 {
            proof {
                assert((val as int) * 10 + d > u64::MAX) by (nonlinear_arith)
                    requires
                        val > (u64::MAX - d) / 10,
                        0 <= d <= 9,
                ;
                assert(data@.subrange(lo as int, i + 1).drop_last() =~= data@.subrange(
                    lo as int,
                    i as int,
                ));
                assert(dec_val(data@.subrange(lo as int, i + 1)) > u64::MAX);
                assert(t.take(i + 1 - lo as int) =~= data@.subrange(lo as int, i + 1));
                lemma_dec_val_prefix(t, i + 1 - lo as int);
                assert(dec_val(t) > u64::MAX);
            }
            return None;
        }
        proof {
            assert(val * 10 + d <= u64::MAX) by (nonlinear_arith)
                requires
                    val <= (u64::MAX - d) / 10,
                    0 <= d <= 9,
            ;
            assert(data@.subrange(lo as int, i + 1).drop_last() =~= data@.subrange(
                lo as int,
                i as int,
            ));
        }
        val = val * 10 + d;
        i = i + 1;
    }
    assert(forall|j: int| 0 <= j < t.len() ==> is_dec_digit(t[j]) && t[j] == data@[j + lo]);
    Some(val)
}

/// The character of one decimal digit.
pub open spec fn dec_digit_char(d: nat) -> char {
    ((d + 48) as u8) as char
}

/// The decimal rendering of `n`, most significant digit first, with no
/// sign, padding, or leading zeros (`0` renders as "0").
pub open spec fn dec_chars(n: nat) -> Seq<char>
    decreases n,
{
    if n < 10 {
        seq![dec_digit_char(n)]
    } else {
        dec_chars(n / 10).push(dec_digit_char(n % 10))
    }
}

/// Relies on `String::push`: appends exactly the one character.
#[verifier::external_body]
pub fn push_char(s: &mut String, c: char)
    ensures
        final(s)@ == old(s)@.push(c),
{
    s.push(c);
}

/// Renders `n` as decimal text.
pub fn fmt_u64(n: u64) -> (r: String)
    ensures
        r@ == dec_chars(n as nat),
{
    let mut digits: Vec<char> = Vec::new();
    let mut m: u64 = n;
    let d0: u8 = (m % 10) as u8;
    digits.push((d0 + 48) as char);
    proof {
        assert(digits@.reverse() =~= seq![dec_digit_char((n % 10) as nat)]);
    }
    m = m / 10;
    while m != 0
        invariant
            m == 0 ==> dec_chars(n as nat) == digits@.reverse(),
            m != 0 ==> dec_chars(n as nat) == dec_chars(m as nat) + digits@.reverse(),
        decreases m,
    {
        let ghost before = digits@;
        let d: u8 = (m % 10) as u8;
        digits.push((d + 48) as char);
        proof {
            assert(digits@.reverse() =~= seq![dec_digit_char((m % 10) as nat)]
                + before.reverse());
            if m >= 10 {
                assert(dec_chars(m as nat) == dec_chars((m / 10) as nat).push(
                    dec_digit_char((m % 10) as nat),
                ));
                assert(dec_chars((m / 10) as nat) + digits@.reverse() =~= dec_chars(m as nat)
                    + before.reverse());
            } else {
                assert(dec_chars(m as nat) =~= seq![dec_digit_char((m % 10) as nat)]);
                assert(digits@.reverse() =~= dec_chars(m as nat) + before.reverse());
            }
        }
        m = m / 10;
    }
    let len: usize = digits.len();
    let mut s = String::new();
    let mut j: usize = 0;
    while j < len
        invariant
            0 <= j <= len,
            len == digits@.len(),
            s@ == digits@.reverse().take(j as int),
        decreases len - j,
    {
        let c: char = digits[len - 1 - j];
        push_char(&mut s, c);
        proof {
            assert(digits@.reverse().take(j + 1) =~= digits@.reverse().take(j as int).push(
                digits@[len - 1 - j as int],
            ));
        }
        j = j + 1;
    }
    proof {
        assert(digits@.reverse().take(len as int) =~= digits@.reverse());
    }
    s
}

proof fn lemma_encode_utf8_concat(a: Seq<char>, b: Seq<char>)
    ensures
        encode_utf8(a + b) == encode_utf8(a) + encode_utf8(b),
    decreases a.len(),
{
    if a.len() == 0 {
        assert(a + b =~= b);
        assert(encode_utf8(a) + encode_utf8(b) =~= encode_utf8(b));
    } else {
        assert((a + b)[0] == a[0]);
        assert((a + b).drop_first() =~= a.drop_first() + b);
        lemma_encode_utf8_concat(a.drop_first(), b);
        assert(encode_utf8(a + b) =~= encode_utf8(a) + encode_utf8(b));
    }
}

proof fn lemma_encode_digit_char(d: nat)
    requires
        d < 10,
    ensures
        encode_utf8(seq![dec_digit_char(d)]) =~= seq![(d + 48) as u8],
{
    let c = dec_digit_char(d);
    let v = c as u32;
    assert(v == d + 48);
    assert(v & 0x7F == v) by (bit_vector)
        requires
            v <= 0x7F,
    ;
    assert(seq![c].drop_first() =~= Seq::<char>::empty());
    assert(encode_utf8(seq![c]) == encode_scalar(seq![c][0] as u32) + encode_utf8(
        seq![c].drop_first(),
    ));
    assert(encode_utf8(Seq::<char>::empty()) =~= Seq::<u8>::empty());
    assert(encode_scalar(v) + Seq::<u8>::empty() =~= encode_scalar(v));
}

proof fn lemma_dec_bytes(n: nat)
    ensures
        encode_utf8(dec_chars(n)).len() == dec_chars(n).len(),
        all_dec_digits(encode_utf8(dec_chars(n))),
        dec_val(encode_utf8(dec_chars(n))) == n,
    decreases n,
{
    let c = dec_digit_char(n % 10);
    lemma_encode_digit_char(n % 10);
    if n < 10 {
        assert(dec_chars(n) =~= seq![c]);
        let bytes = encode_utf8(dec_chars(n));
        assert(bytes =~= seq![(n + 48) as u8]);
        assert(bytes.drop_last() =~= Seq::<u8>::empty());
        assert(dec_val(Seq::<u8>::empty()) == 0);
    } else {
        lemma_dec_bytes(n / 10);
        assert(dec_chars(n) =~= dec_chars(n / 10) + seq![c]);
        lemma_encode_utf8_concat(dec_chars(n / 10), seq![c]);
        let head = encode_utf8(dec_chars(n / 10));
        let bytes = encode_utf8(dec_chars(n));
        assert(bytes =~= head + seq![((n % 10) + 48) as u8]);
        assert(bytes.drop_last() =~= head);
        assert(bytes.last() == ((n % 10) + 48) as u8);
        assert(forall|i: int| 0 <= i < bytes.len() ==> is_dec_digit(bytes[i])) by {
            assert(forall|i: int| 0 <= i < head.len() ==> bytes[i] == head[i]);
        }
        assert(dec_val(bytes) == dec_val(head) * 10 + (n % 10));
    }
}

/// Decimal text round-trips: the digit bytes that render a value are
/// exactly what the parser reads back as that value, with nothing to
/// trim.  So the index one call stores under an RTMR entry is the index
/// a later scan recovers from it.
pub proof fn lemma_dec_text_round_trip(n: u64)
    ensures
        parses_to_u64(encode_utf8(dec_chars(n as nat))),
        dec_val(trim_spaces(encode_utf8(dec_chars(n as nat)))) == n,
{
    lemma_dec_bytes(n as nat);
    let bytes = encode_utf8(dec_chars(n as nat));
    assert(is_dec_digit(bytes[0]) && !is_space_byte(bytes[0]));
    assert(trim_front(bytes) == bytes);
    assert(is_dec_digit(bytes.last()) && !is_space_byte(bytes.last()));
    assert(trim_back(bytes) == bytes);
}

} // verus!
