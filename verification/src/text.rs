//! Text helpers: decimal rendering, lexicographic order and substring search
//! over the characters of strings.
use vstd::prelude::*;

verus! {

/// The character of a decimal digit.
pub open spec fn digit_char(d: nat) -> char {
    if d == 0 {
        '0'
    } else if d == 1 {
        '1'
    } else if d == 2 {
        '2'
    } else if d == 3 {
        '3'
    } else if d == 4 {
        '4'
    } else if d == 5 {
        '5'
    } else if d == 6 {
        '6'
    } else if d == 7 {
        '7'
    } else if d == 8 {
        '8'
    } else {
        '9'
    }
}

/// The decimal digits of a natural number, most significant first, as
/// `Display` renders it.
pub open spec fn dec_digits(n: nat) -> Seq<char>
    decreases n,
{
    if n < 10 {
        seq![digit_char(n)]
    } else {
        dec_digits(n / 10).push(digit_char(n % 10))
    }
}

/// The decimal rendering of an integer, with a leading `-` when negative.
pub open spec fn dec_int(n: int) -> Seq<char> {
    if n < 0 {
        seq!['-'] + dec_digits((-n) as nat)
    } else {
        dec_digits(n as nat)
    }
}

/// Appends a character to a string (`String::push`).
#[verifier::external_body]
pub(crate) fn push_char(s: &mut String, c: char)
    ensures
        final(s)@ == old(s)@.push(c),
{
    s.push(c);
}

fn digit(d: u64) -> (c: char)
    requires
        d < 10,
    ensures
        c == digit_char(d as nat),
{
    if d == 0 {
        '0'
    } else if d == 1 {
        '1'
    } else if d == 2 {
        '2'
    } else if d == 3 {
        '3'
    } else if d == 4 {
        '4'
    } else if d == 5 {
        '5'
    } else if d == 6 {
        '6'
    } else if d == 7 {
        '7'
    } else if d == 8 {
        '8'
    } else {
        '9'
    }
}

/// Appends the decimal digits of `n`.
pub fn push_decimal(s: &mut String, n: u64)
    ensures
        final(s)@ == old(s)@ + dec_digits(n as nat),
    decreases n,
{
    if n >= 10 {
        push_decimal(s, n / 10);
    }
    push_char(s, digit(n % 10));
    assert(dec_digits(n as nat) == if n < 10 {
        seq![digit_char(n as nat)]
    } else {
        dec_digits((n / 10) as nat).push(digit_char((n % 10) as nat))
    });
}

/// Renders an unsigned integer in decimal.
pub fn fmt_u64(n: u64) -> (s: String)
    ensures
        s@ == dec_digits(n as nat),
{
    let mut s = String::new();
    push_decimal(&mut s, n);
    s
}

/// Renders a signed integer in decimal.
pub fn fmt_i64(n: i64) -> (s: String)
    ensures
        s@ == dec_int(n as int),
{
    let mut s = String::new();
    if n < 0 {
        push_char(&mut s, '-');
        let magnitude: u64 = if n == i64::MIN {
            9223372036854775808u64
        } else {
            (-n) as u64
        };
        push_decimal(&mut s, magnitude);
    } else {
        push_decimal(&mut s, n as u64);
    }
    s
}


/// Lexicographic order of character sequences by code point, the order in
/// which `str`'s `Ord` puts strings.
pub open spec fn lex_le(a: Seq<char>, b: Seq<char>) -> bool
    decreases a.len(),
{
    if a.len() == 0 {
        true
    } else if b.len() == 0 {
        false
    } else if (a[0] as u32) != (b[0] as u32) {
        (a[0] as u32) < (b[0] as u32)
    } else {
        lex_le(a.drop_first(), b.drop_first())
    }
}

/// Any two sequences are comparable.
pub proof fn lemma_lex_total(a: Seq<char>, b: Seq<char>)
    ensures
        lex_le(a, b) || lex_le(b, a),
    decreases a.len(),
{
    if a.len() > 0 && b.len() > 0 && (a[0] as u32) == (b[0] as u32) {
        lemma_lex_total(a.drop_first(), b.drop_first());
    }
}

proof fn lemma_char_code_injective(c1: char, c2: char)
    requires
        (c1 as u32) == (c2 as u32),
    ensures
        c1 == c2,
{
    assert((c1 as int) == (c1 as u32) as int);
}

/// Sequences ordered both ways are equal.
pub proof fn lemma_lex_antisymmetric(a: Seq<char>, b: Seq<char>)
    requires
        lex_le(a, b),
        lex_le(b, a),
    ensures
        a == b,
    decreases a.len(),
{
    if a.len() == 0 {
        assert(b.len() == 0);
        assert(a =~= b);
    } else {
        assert(b.len() > 0);
        lemma_char_code_injective(a[0], b[0]);
        lemma_lex_antisymmetric(a.drop_first(), b.drop_first());
        assert(a =~= seq![a[0]] + a.drop_first());
        assert(b =~= seq![b[0]] + b.drop_first());
    }
}

/// The order is transitive.
pub proof fn lemma_lex_transitive(a: Seq<char>, b: Seq<char>, c: Seq<char>)
    requires
        lex_le(a, b),
        lex_le(b, c),
    ensures
        lex_le(a, c),
    decreases a.len(),
{
    if a.len() > 0 && b.len() > 0 && c.len() > 0 && (a[0] as u32) == (b[0] as u32) && (b[0] as u32)
        == (c[0] as u32) {
        lemma_lex_transitive(a.drop_first(), b.drop_first(), c.drop_first());
    }
}

proof fn lemma_lex_skip(a: Seq<char>, b: Seq<char>, i: int)
    requires
        0 <= i < a.len(),
        i < b.len(),
        (a[i] as u32) == (b[i] as u32),
    ensures
        lex_le(a.skip(i), b.skip(i)) == lex_le(a.skip(i + 1), b.skip(i + 1)),
{
    assert(a.skip(i).drop_first() =~= a.skip(i + 1));
    assert(b.skip(i).drop_first() =~= b.skip(i + 1));
}

/// Compares two strings character by character.
pub fn lex_le_str(a: &str, b: &str) -> (r: bool)
    ensures
        r == lex_le(a@, b@),
{
    let la = a.unicode_len();
    let lb = b.unicode_len();
    let mut i: usize = 0;
    assert(a@.skip(0) =~= a@);
    assert(b@.skip(0) =~= b@);
    while i < la && i < lb
        invariant
            la == a@.len(),
            lb == b@.len(),
            i <= la,
            i <= lb,
            lex_le(a@, b@) == lex_le(a@.skip(i as int), b@.skip(i as int)),
        decreases la - i,
    {
        let ca = a.get_char(i);
        let cb = b.get_char(i);
        if (ca as u32) != (cb as u32) {
            proof {
                assert(a@.skip(i as int)[0] == ca);
                assert(b@.skip(i as int)[0] == cb);
            }
            return (ca as u32) < (cb as u32);
        }
        proof {
            lemma_lex_skip(a@, b@, i as int);
        }
        i = i + 1;
    }
    i == la
}

/// `needle` occurs as a contiguous piece of `hay`.
pub open spec fn contains_seq(hay: Seq<char>, needle: Seq<char>) -> bool {
    exists|i: int| 0 <= i && i + needle.len() <= hay.len() && #[trigger] hay.subrange(i, i + needle.len()) == needle
}

fn occurs_at(hay: &Vec<char>, needle: &Vec<char>, at: usize) -> (r: bool)
    requires
        at + needle@.len() <= hay@.len(),
    ensures
        r == (hay@.subrange(at as int, at + needle@.len()) == needle@),
{
    let n = needle.len();
    let mut k: usize = 0;
    while k < n
        invariant
            n == needle@.len(),
            k <= n,
            at + n <= hay@.len(),
            hay@.len() == hay.len(),
            forall|j: int| 0 <= j < k ==> hay@[at + j] == needle@[j],
        decreases n - k,
    {
        if hay[at + k] != needle[k] {
            proof {
                let piece = hay@.subrange(at as int, at + n);
                assert(piece[k as int] != needle@[k as int]);
            }
            return false;
        }
        k = k + 1;
    }
    assert(hay@.subrange(at as int, at + n) =~= needle@);
    true
}

/// The characters of a string.
pub fn chars_of(s: &str) -> (v: Vec<char>)
    ensures
        v@ == s@,
{
    let n = s.unicode_len();
    let mut v: Vec<char> = Vec::new();
    let mut i: usize = 0;
    while i < n
        invariant
            n == s@.len(),
            i <= n,
            v@ == s@.subrange(0, i as int),
        decreases n - i,
    {
        let c = s.get_char(i);
        v.push(c);
        i = i + 1;
        assert(v@ =~= s@.subrange(0, i as int));
    }
    assert(s@.subrange(0, n as int) =~= s@);
    v
}

/// Whether `needle` occurs in `hay` (`str::contains` with a string pattern).
pub fn contains_str(hay: &str, needle: &str) -> (r: bool)
    ensures
        r == contains_seq(hay@, needle@),
{
    let h = chars_of(hay);
    let nd = chars_of(needle);
    if nd.len() > h.len() {
        proof {
            assert forall|i: int| 0 <= i && i + nd@.len() <= h@.len() implies
                #[trigger] h@.subrange(i, i + nd@.len()) != nd@ by {}
        }
        return false;
    }
    let last = h.len() - nd.len();
    let mut at: usize = 0;
    loop
        invariant
            h@ == hay@,
            nd@ == needle@,
            last + nd@.len() == h@.len(),
            at <= last,
            forall|i: int| 0 <= i < at ==> #[trigger] h@.subrange(i, i + nd@.len()) != nd@,
        ensures
            forall|i: int| 0 <= i <= last ==> #[trigger] h@.subrange(i, i + nd@.len()) != nd@,
        decreases last - at,
    {
        if occurs_at(&h, &nd, at) {
            return true;
        }
        if at == last {
            break;
        }
        at = at + 1;
    }
    proof {
        assert forall|i: int| 0 <= i && i + nd@.len() <= h@.len() implies
            #[trigger] h@.subrange(i, i + nd@.len()) != nd@ by {
            assert(i <= last);
        }
    }
    false
}

} // verus!

verus! {

/// Whether two strings hold the same characters (`str`'s `==`).
pub fn str_eq(a: &str, b: &str) -> (r: bool)
    ensures
        r == (a@ == b@),
{
    let x = chars_of(a);
    let y = chars_of(b);
    if x.len() != y.len() {
        return false;
    }
    let n = x.len();
    let mut i: usize = 0;
    while i < n
        invariant
            n == x@.len(),
            n == y@.len(),
            x@ == a@,
            y@ == b@,
            i <= n,
            forall|j: int| 0 <= j < i ==> x@[j] == y@[j],
        decreases n - i,
    {
        if x[i] != y[i] {
            assert(x@[i as int] != y@[i as int]);
            return false;
        }
        i = i + 1;
    }
    assert(x@ =~= y@);
    true
}

} // verus!

verus! {

pub open spec fn is_ascii_digit(c: char) -> bool {
    48 <= (c as u32) <= 57
}

/// The number written by a sequence of decimal digits.
pub open spec fn digits_value(s: Seq<char>) -> nat
    decreases s.len(),
{
    if s.len() == 0 {
        0
    } else {
        digits_value(s.drop_last()) * 10 + ((s.last() as u32) - 48) as nat
    }
}

/// The digits of an unsigned number: all but a leading `+`.
pub open spec fn sign_stripped(s: Seq<char>) -> Seq<char> {
    if s.len() > 0 && s[0] == '+' {
        s.drop_first()
    } else {
        s
    }
}

/// What `str::parse::<u32>` gives, as an `Option`: an optional `+`, then
/// one or more ASCII digits, of a value that fits in 32 bits.
pub open spec fn parse_u32_spec(s: Seq<char>) -> Option<u32> {
    let digits = sign_stripped(s);
    if digits.len() == 0 || exists|i: int| 0 <= i < digits.len() && !is_ascii_digit(#[trigger] digits[i]) {
        None
    } else if digits_value(digits) > u32::MAX {
        None
    } else {
        Some(digits_value(digits) as u32)
    }
}

/// Parses a decimal `u32` (`str::parse::<u32>`, its error dropped).
pub fn parse_u32(s: &str) -> (r: Option<u32>)
    ensures
        r == parse_u32_spec(s@),
{
    let chars = chars_of(s);
    let n = chars.len();
    let start: usize = if n > 0 && chars[0] == '+' {
        1
    } else {
        0
    };
    let ghost digits = sign_stripped(s@);
    proof {
        assert(digits =~= chars@.subrange(start as int, n as int));
    }
    if start == n {
        return None;
    }
    let cap: u64 = 4294967296u64;
    let mut acc: u64 = 0;
    let mut i: usize = start;
    while i < n
        invariant
            chars@ == s@,
            n == chars@.len(),
            start <= i <= n,
            cap == 4294967296u64,
            digits == sign_stripped(s@),
            digits == chars@.subrange(start as int, n as int),
            forall|j: int| start <= j < i ==> is_ascii_digit(#[trigger] chars@[j]),
            acc == if digits_value(chars@.subrange(start as int, i as int)) < cap {
                digits_value(chars@.subrange(start as int, i as int))
            } else {
                cap as nat
            },
        decreases n - i,
    {
        let c = chars[i];
        let code = c as u32;
        if code < 48 || code > 57 {
            proof {
                assert(digits[i - start] == c);
                assert(!is_ascii_digit(digits[i - start]));
                assert(digits.len() > 0);
                assert(exists|k: int| 0 <= k < digits.len() && !is_ascii_digit(#[trigger] digits[k]));
                assert(parse_u32_spec(s@) is None);
            }
            return None;
        }
        let ghost before = chars@.subrange(start as int, i as int);
        let ghost after = chars@.subrange(start as int, i + 1);
        proof {
            assert(after.drop_last() =~= before);
            assert(after.last() == c);
            assert(digits_value(after) == digits_value(before) * 10 + (code - 48) as nat);
        }
        let d = (code - 48) as u64;
        if acc >= cap {
            acc = cap;
        } else {
            assert(acc < cap);
            assert(d <= 9);
            assert(acc * 10 + d < 0x10_0000_0000u64) by (nonlinear_arith)
                requires
                    acc < cap,
                    cap == 4294967296u64,
                    d <= 9,
            ;
            let next = acc * 10 + d;
            acc = if next < cap {
                next
            } else {
                cap
            };
        }
        i = i + 1;
    }
    proof {
        assert(chars@.subrange(start as int, n as int) == digits);
        assert forall|j: int| 0 <= j < digits.len() implies is_ascii_digit(#[trigger] digits[j]) by {
            assert(digits[j] == chars@[start + j]);
        }
    }
    if acc >= cap {
        None
    } else {
        Some(acc as u32)
    }
}

} // verus!

verus! {

proof fn lemma_digit_char(d: nat)
    requires
        d < 10,
    ensures
        (digit_char(d) as u32) == 48 + d,
{
}

/// The decimal digits of `n` are digits that spell `n`.
pub proof fn lemma_dec_digits_value(n: nat)
    ensures
        dec_digits(n).len() > 0,
        forall|i: int| 0 <= i < dec_digits(n).len() ==> is_ascii_digit(#[trigger] dec_digits(n)[i]),
        digits_value(dec_digits(n)) == n,
    decreases n,
{
    if n < 10 {
        lemma_digit_char(n);
        let d = dec_digits(n);
        assert(d.drop_last() =~= Seq::<char>::empty());
        assert(d.last() == digit_char(n));
        assert(digits_value(d) == digits_value(d.drop_last()) * 10 + ((d.last() as u32) - 48) as nat);
    } else {
        lemma_dec_digits_value(n / 10);
        lemma_digit_char(n % 10);
        let d = dec_digits(n);
        assert(d.drop_last() =~= dec_digits(n / 10));
        assert(d.last() == digit_char(n % 10));
        assert(digits_value(d) == digits_value(d.drop_last()) * 10 + ((d.last() as u32) - 48) as nat);
        assert((n / 10) * 10 + n % 10 == n);
        assert forall|i: int| 0 <= i < d.len() implies is_ascii_digit(#[trigger] d[i]) by {
            if i < d.len() - 1 {
                assert(d[i] == dec_digits(n / 10)[i]);
            }
        }
    }
}

/// Parsing the decimal rendering of a 32-bit number gives the number back.
pub proof fn law_parse_dec_roundtrip(n: u32)
    ensures
        parse_u32_spec(dec_digits(n as nat)) == Some(n),
{
    lemma_dec_digits_value(n as nat);
    let d = dec_digits(n as nat);
    assert(is_ascii_digit(d[0]));
    assert(sign_stripped(d) == d);
}

} // verus!
