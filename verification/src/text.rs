//! Text: decimal numbers, number literals and swizzles.
use vstd::prelude::*;
use vstd::string::*;

verus! {

pub open spec fn digit_char(d: nat) -> char {
    (d + 48) as char
}

/// The decimal digits of a natural number, without leading zeros.
pub open spec fn decimal(n: nat) -> Seq<char>
    decreases n,
{
    if n < 10 {
        seq![digit_char(n)]
    } else {
        decimal(n / 10).push(digit_char(n % 10))
    }
}

/// `String::push` of std: the character goes at the end.
#[verifier::external_body]
pub(crate) fn push_char(s: &mut String, c: char)
    ensures
        final(s)@ == old(s)@.push(c),
{
    s.push(c);
}

/// Appends the decimal digits of the number.
fn push_decimal(out: &mut String, n: usize)
    ensures
        final(out)@ == old(out)@ + decimal(n as nat),
    decreases n,
{
    if n >= 10 {
        push_decimal(out, n / 10);
    }
    let d: u8 = (n % 10) as u8;
    let c = (d + 48) as char;
    assert(c == digit_char((n % 10) as nat));
    push_char(out, c);
    proof {
        if n >= 10 {
            assert(decimal(n as nat) == decimal((n / 10) as nat).push(c));
        } else {
            assert(decimal(n as nat) == seq![c]);
        }
    }
    assert(out@ =~= old(out)@ + decimal(n as nat));
}

/// The decimal digits of the number, without sign or leading zeros, as
/// `to_string` writes them.
pub fn usize_to_string(n: usize) -> (r: String)
    ensures
        r@ == decimal(n as nat),
{
    let mut s = String::new();
    push_decimal(&mut s, n);
    assert(s@ =~= decimal(n as nat));
    s
}

/// What std's `Debug` gives for a string: quoted, with escapes.
pub uninterp spec fn debug_text(s: Seq<char>) -> Seq<char>;

/// `format!("{:?}", s)` of std on a string slice.
#[verifier::external_body]
pub(crate) fn debug_string(s: &str) -> (r: String)
    ensures
        r@ == debug_text(s@),
{
    format!("{:?}", s)
}


// ---------------------------------------------------------------------------
// Swizzles: a run of the letters x, y, z, w names vector components 0 to 3.

pub open spec fn is_swizzle_char(c: char) -> bool {
    c == 'x' || c == 'y' || c == 'z' || c == 'w'
}

pub open spec fn swizzle_index(c: char) -> u8 {
    if c == 'x' {
        0
    } else if c == 'y' {
        1
    } else if c == 'z' {
        2
    } else {
        3
    }
}

/// Every character of the text is a component letter (true of the empty text).
pub open spec fn is_swizzle(s: Seq<char>) -> bool {
    forall|i: int| 0 <= i < s.len() ==> is_swizzle_char(#[trigger] s[i])
}

/// The component indices that the letters name.
pub open spec fn swizzle_of(s: Seq<char>) -> Seq<u8> {
    s.map_values(|c: char| swizzle_index(c))
}

/// Whether every character of the text is one of x, y, z, w.
pub fn is_swizzle_text(s: &str) -> (r: bool)
    ensures
        r == is_swizzle(s@),
{
    let n = s.unicode_len();
    let mut i: usize = 0;
    while i < n
        invariant
            n == s@.len(),
            i <= n,
            forall|j: int| 0 <= j < i ==> is_swizzle_char(#[trigger] s@[j]),
        decreases n - i,
    {
        let c = s.get_char(i);
        if !(c == 'x' || c == 'y' || c == 'z' || c == 'w') {
            return false;
        }
        i = i + 1;
    }
    true
}

/// The component indices that the letters of the text name.
pub fn swizzle_bytes(s: &str) -> (r: Vec<u8>)
    ensures
        r@ == swizzle_of(s@),
{
    let n = s.unicode_len();
    let mut out: Vec<u8> = Vec::new();
    let mut i: usize = 0;
    while i < n
        invariant
            n == s@.len(),
            i <= n,
            out@ == swizzle_of(s@.take(i as int)),
        decreases n - i,
    {
        let c = s.get_char(i);
        let b: u8 = if c == 'x' {
            0
        } else if c == 'y' {
            1
        } else if c == 'z' {
            2
        } else {
            3
        };
        out.push(b);
        assert(s@.take(i + 1) == s@.take(i as int).push(c));
        i = i + 1;
    }
    assert(s@.take(n as int) == s@);
    out
}

/// The position of the last occurrence of `c`, or -1.
pub open spec fn last_index_of(s: Seq<char>, c: char) -> int
    decreases s.len(),
{
    if s.len() == 0 {
        -1
    } else if s.last() == c {
        s.len() - 1
    } else {
        last_index_of(s.drop_last(), c)
    }
}

/// A text split at its last dot when all that follows the dot is a swizzle:
/// the text before the dot and the components the swizzle names. Otherwise
/// the whole text and no components.
pub open spec fn spec_extract_swizzle(s: Seq<char>) -> (Seq<char>, Seq<u8>) {
    let p = last_index_of(s, '.');
    if p >= 0 && is_swizzle(s.skip(p + 1)) {
        (s.take(p), swizzle_of(s.skip(p + 1)))
    } else {
        (s, Seq::empty())
    }
}

/// Where `c` occurs at `i` and nowhere after it, `i` is its last position.
pub proof fn lemma_last_index_of(s: Seq<char>, c: char, i: int)
    requires
        -1 <= i < s.len(),
        i >= 0 ==> s[i] == c,
        forall|j: int| i < j < s.len() ==> s[j] != c,
    ensures
        last_index_of(s, c) == i,
    decreases s.len(),
{
    if s.len() > 0 && s.len() - 1 != i {
        assert(s.last() != c);
        lemma_last_index_of(s.drop_last(), c, i);
    }
}

/// Splitting a name joined to a swizzle by a dot gives the name and the
/// swizzle's components back.
pub proof fn law_extract_swizzle_join(base: Seq<char>, sw: Seq<char>)
    requires
        is_swizzle(sw),
    ensures
        spec_extract_swizzle(base + seq!['.'] + sw) == (base, swizzle_of(sw)),
{
    let s = base + seq!['.'] + sw;
    let p = base.len() as int;
    assert forall|j: int| p < j < s.len() implies s[j] != '.' by {
        assert(s[j] == sw[j - p - 1]);
        assert(is_swizzle_char(sw[j - p - 1]));
    }
    lemma_last_index_of(s, '.', p);
    assert(s.skip(p + 1) =~= sw);
    assert(s.take(p) =~= base);
}

/// A text without a dot is left whole, with no components.
pub proof fn law_extract_swizzle_no_dot(s: Seq<char>)
    requires
        forall|j: int| 0 <= j < s.len() ==> s[j] != '.',
    ensures
        spec_extract_swizzle(s) == (s, Seq::<u8>::empty()),
{
    lemma_last_index_of(s, '.', -1);
}

// ---------------------------------------------------------------------------
// Integer literals, as `str::parse::<i32>` of std reads them: an optional `+`
// or `-`, then one or more ASCII digits, and a value in the range of `i32`.

pub open spec fn is_digit(c: char) -> bool {
    '0' <= c && c <= '9'
}

pub open spec fn digit_value(c: char) -> int {
    c as int - '0' as int
}

/// Every character in `lo..hi` is a digit.
pub open spec fn digits_in(s: Seq<char>, lo: int, hi: int) -> bool {
    forall|i: int| lo <= i < hi ==> is_digit(#[trigger] s[i])
}

/// The value of a run of digits.
pub open spec fn digits_value(s: Seq<char>) -> nat
    decreases s.len(),
{
    if s.len() == 0 {
        0
    } else {
        (digits_value(s.drop_last()) * 10 + digit_value(s.last())) as nat
    }
}

pub open spec fn has_sign(s: Seq<char>) -> bool {
    s.len() > 0 && (s[0] == '+' || s[0] == '-')
}

/// The value of an integer literal, or `None` where std refuses it.
pub open spec fn spec_parse_i32(s: Seq<char>) -> Option<i32> {
    let body = if has_sign(s) { s.skip(1) } else { s };
    let v: int = if has_sign(s) && s[0] == '-' { -(digits_value(body) as int) } else { digits_value(body) as int };
    if body.len() > 0 && digits_in(body, 0, body.len() as int) && i32::MIN <= v <= i32::MAX {
        Some(v as i32)
    } else {
        None
    }
}

proof fn lemma_decimal_digits(n: nat)
    ensures
        decimal(n).len() > 0,
        digits_in(decimal(n), 0, decimal(n).len() as int),
        digits_value(decimal(n)) == n,
    decreases n,
{
    if n >= 10 {
        lemma_decimal_digits(n / 10);
        let s = decimal(n / 10);
        assert(decimal(n).drop_last() == s);
        assert(decimal(n).last() == digit_char(n % 10));
        assert(digit_value(digit_char(n % 10)) == n % 10);
        assert(digits_value(decimal(n)) == digits_value(s) * 10 + digit_value(decimal(n).last()));
        assert((n / 10) * 10 + n % 10 == n) by (nonlinear_arith);
    } else {
        assert(decimal(n).drop_last() =~= Seq::<char>::empty());
        assert(digits_value(Seq::<char>::empty()) == 0);
        assert(digit_value(digit_char(n)) == n);
        assert(digits_value(decimal(n)) == digits_value(decimal(n).drop_last()) * 10 + digit_value(decimal(n).last()));
    }
}

/// Reading back the decimal digits of a number in the range of `i32` gives
/// the number.
pub proof fn law_parse_decimal(n: nat)
    requires
        n <= i32::MAX,
    ensures
        spec_parse_i32(decimal(n)) == Some(n as i32),
{
    lemma_decimal_digits(n);
    assert(!has_sign(decimal(n)));
}

proof fn lemma_digits_step(body: Seq<char>, k: int)
    requires
        0 <= k < body.len(),
        is_digit(body[k]),
    ensures
        digits_value(body.take(k + 1)) == digits_value(body.take(k)) * 10 + digit_value(body[k]),
        digits_value(body.take(k + 1)) >= digits_value(body.take(k)),
{
    assert(body.take(k + 1).drop_last() == body.take(k));
    assert(body.take(k + 1).last() == body[k]);
}

/// The characters of a text.
pub fn chars_of(s: &str) -> (r: Vec<char>)
    ensures
        r@ == s@,
{
    let n = s.unicode_len();
    let mut v: Vec<char> = Vec::new();
    let mut i: usize = 0;
    while i < n
        invariant
            n == s@.len(),
            i <= n,
            v@ == s@.take(i as int),
        decreases n - i,
    {
        v.push(s.get_char(i));
        assert(s@.take(i + 1) == s@.take(i as int).push(s@[i as int]));
        i = i + 1;
    }
    assert(s@.take(n as int) == s@);
    v
}

/// The value of the digits `lo..hi`, or `None` if one is no digit or the
/// value exceeds `2^31`.
fn small_digits_value(v: &Vec<char>, lo: usize, hi: usize) -> (r: Option<u64>)
    requires
        lo <= hi <= v.len(),
    ensures
        match r {
            Some(x) => digits_in(v@, lo as int, hi as int) && x == digits_value(
                v@.subrange(lo as int, hi as int),
            ) && x <= 0x8000_0000,
            None => !digits_in(v@, lo as int, hi as int) || digits_value(
                v@.subrange(lo as int, hi as int),
            ) > 0x8000_0000,
        },
{
    let ghost body = v@.subrange(lo as int, hi as int);
    let mut acc: u64 = 0;
    let mut too_big = false;
    let mut i: usize = lo;
    while i < hi
        invariant
            lo <= i <= hi <= v.len(),
            body == v@.subrange(lo as int, hi as int),
            digits_in(v@, lo as int, i as int),
            !too_big ==> acc == digits_value(body.take(i - lo)),
            !too_big ==> acc <= 0x8000_0000,
            too_big ==> digits_value(body.take(i - lo)) > 0x8000_0000,
        decreases hi - i,
    {
        let c = v[i];
        if !('0' <= c && c <= '9') {
            return None;
        }
        assert(body[i - lo] == c);
        proof {
            lemma_digits_step(body, i - lo);
        }
        if !too_big {
            let d = (c as u32 - '0' as u32) as u64;
            assert(d == digit_value(c));
            assert(acc * 10 + d <= 0x8000_0000 * 10 + 9) by (nonlinear_arith)
                requires
                    acc <= 0x8000_0000,
                    d <= 9,
            ;
            acc = acc * 10 + d;
            if acc > 0x8000_0000 {
                too_big = true;
            }
        }
        i = i + 1;
    }
    assert(body.take(hi - lo) == body);
    if too_big {
        None
    } else {
        Some(acc)
    }
}

/// Reads an integer literal as std's `str::parse::<i32>` does.
pub fn parse_i32(s: &str) -> (r: Option<i32>)
    ensures
        r == spec_parse_i32(s@),
{
    let v = chars_of(s);
    let n = v.len();
    let mut start: usize = 0;
    let mut negative = false;
    if n > 0 && (v[0] == '+' || v[0] == '-') {
        start = 1;
        negative = v[0] == '-';
    }
    let ghost body = if has_sign(s@) { s@.skip(1) } else { s@ };
    assert(body == s@.subrange(start as int, n as int));
    if start >= n {
        return None;
    }
    assert(digits_in(v@, start as int, n as int) == digits_in(body, 0, body.len() as int)) by {
        if digits_in(v@, start as int, n as int) {
            assert forall|i: int| 0 <= i < body.len() implies is_digit(#[trigger] body[i]) by {
                assert(body[i] == v@[start + i]);
            }
        }
        if digits_in(body, 0, body.len() as int) {
            assert forall|i: int| start <= i < n implies is_digit(#[trigger] v@[i]) by {
                assert(body[i - start] == v@[i]);
            }
        }
    }
    match small_digits_value(&v, start, n) {
        None => None,
        Some(acc) => {
            if negative {
                let x: i64 = -(acc as i64);
                if x < -0x8000_0000i64 {
                    None
                } else {
                    Some(x as i32)
                }
            } else {
                if acc > 0x7fff_ffff {
                    None
                } else {
                    Some(acc as i32)
                }
            }
        },
    }
}

// ---------------------------------------------------------------------------
// Float literals, as `str::parse::<f32>` of std accepts them. Lowercased, the
// text must be `Sign? ( "inf" | "infinity" | "nan" | Number )`, where
// `Number = ( Digit+ | Digit+ "." Digit* | Digit* "." Digit+ ) Exp?` and
// `Exp = "e" Sign? Digit+`.

pub open spec fn lower(c: char) -> char {
    if 'A' <= c && c <= 'Z' {
        ((c as int) + 32) as char
    } else {
        c
    }
}

pub open spec fn lowered(s: Seq<char>) -> Seq<char> {
    s.map_values(|c: char| lower(c))
}

pub open spec fn mantissa_in(s: Seq<char>, lo: int, hi: int) -> bool {
    ||| (lo < hi && digits_in(s, lo, hi))
    ||| exists|k: int|
        lo <= k < hi && #[trigger] s[k] == '.' && digits_in(s, lo, k) && digits_in(s, k + 1, hi)
            && hi - lo > 1
}

pub open spec fn exponent_in(s: Seq<char>, lo: int, hi: int) -> bool {
    let st = if lo < hi && (s[lo] == '+' || s[lo] == '-') { lo + 1 } else { lo };
    st < hi && digits_in(s, st, hi)
}

pub open spec fn number_in(s: Seq<char>, lo: int, hi: int) -> bool {
    ||| mantissa_in(s, lo, hi)
    ||| exists|k: int|
        lo <= k < hi && #[trigger] s[k] == 'e' && mantissa_in(s, lo, k) && exponent_in(s, k + 1, hi)
}

/// Whether std reads the text as an `f32`.
pub open spec fn spec_float_literal(text: Seq<char>) -> bool {
    let l = lowered(text);
    let st: int = if has_sign(l) { 1 } else { 0 };
    let b = l.skip(st);
    ||| b == seq!['i', 'n', 'f']
    ||| b == seq!['i', 'n', 'f', 'i', 'n', 'i', 't', 'y']
    ||| b == seq!['n', 'a', 'n']
    ||| number_in(l, st, l.len() as int)
}

fn digits_range(v: &Vec<char>, lo: usize, hi: usize) -> (r: bool)
    requires
        lo <= hi <= v.len(),
    ensures
        r == digits_in(v@, lo as int, hi as int),
{
    let mut i = lo;
    while i < hi
        invariant
            lo <= i <= hi <= v.len(),
            digits_in(v@, lo as int, i as int),
        decreases hi - i,
    {
        if !('0' <= v[i] && v[i] <= '9') {
            return false;
        }
        i = i + 1;
    }
    true
}

fn find_first(v: &Vec<char>, c: char, lo: usize, hi: usize) -> (r: Option<usize>)
    requires
        lo <= hi <= v.len(),
    ensures
        match r {
            Some(k) => lo <= k < hi && v@[k as int] == c && forall|j: int|
                lo <= j < k ==> v@[j] != c,
            None => forall|j: int| lo <= j < hi ==> v@[j] != c,
        },
{
    let mut i = lo;
    while i < hi
        invariant
            lo <= i <= hi <= v.len(),
            forall|j: int| lo <= j < i ==> v@[j] != c,
        decreases hi - i,
    {
        if v[i] == c {
            return Some(i);
        }
        i = i + 1;
    }
    None
}

proof fn lemma_mantissa_chars(s: Seq<char>, lo: int, hi: int)
    requires
        mantissa_in(s, lo, hi),
    ensures
        forall|j: int| lo <= j < hi ==> is_digit(#[trigger] s[j]) || s[j] == '.',
{
    if !(lo < hi && digits_in(s, lo, hi)) {
        let k = choose|k: int|
            lo <= k < hi && #[trigger] s[k] == '.' && digits_in(s, lo, k) && digits_in(
                s,
                k + 1,
                hi,
            ) && hi - lo > 1;
        assert forall|j: int| lo <= j < hi implies is_digit(#[trigger] s[j]) || s[j] == '.' by {
            if j < k {
            } else if j > k {
            }
        }
    }
}

fn mantissa_range(v: &Vec<char>, lo: usize, hi: usize) -> (r: bool)
    requires
        lo <= hi <= v.len(),
    ensures
        r == mantissa_in(v@, lo as int, hi as int),
{
    let s = Ghost(v@);
    match find_first(v, '.', lo, hi) {
        None => {
            let r = lo < hi && digits_range(v, lo, hi);
            assert(!exists|k: int|
                lo <= k < hi && #[trigger] s@[k] == '.' && digits_in(s@, lo as int, k)
                    && digits_in(s@, k + 1, hi as int) && hi - lo > 1);
            r
        },
        Some(k) => {
            let r = digits_range(v, lo, k) && digits_range(v, k + 1, hi) && hi - lo > 1;
            assert(!digits_in(s@, lo as int, hi as int)) by {
                assert(!is_digit(s@[k as int]));
            }
            if !r {
                assert forall|k2: int|
                    lo <= k2 < hi && #[trigger] s@[k2] == '.' implies !(digits_in(
                    s@,
                    lo as int,
                    k2,
                ) && digits_in(s@, k2 + 1, hi as int) && hi - lo > 1) by {
                    if k2 > k {
                        assert(!is_digit(s@[k as int]));
                    } else if k2 < k {
                    }
                }
            }
            r
        },
    }
}

fn exponent_range(v: &Vec<char>, lo: usize, hi: usize) -> (r: bool)
    requires
        lo <= hi <= v.len(),
    ensures
        r == exponent_in(v@, lo as int, hi as int),
{
    let st = if lo < hi && (v[lo] == '+' || v[lo] == '-') {
        lo + 1
    } else {
        lo
    };
    st < hi && digits_range(v, st, hi)
}

fn number_range(v: &Vec<char>, lo: usize, hi: usize) -> (r: bool)
    requires
        lo <= hi <= v.len(),
    ensures
        r == number_in(v@, lo as int, hi as int),
{
    let s = Ghost(v@);
    match find_first(v, 'e', lo, hi) {
        None => {
            let r = mantissa_range(v, lo, hi);
            assert(!exists|k: int|
                lo <= k < hi && #[trigger] s@[k] == 'e' && mantissa_in(s@, lo as int, k)
                    && exponent_in(s@, k + 1, hi as int));
            r
        },
        Some(k) => {
            let r = mantissa_range(v, lo, k) && exponent_range(v, k + 1, hi);
            proof {
                if mantissa_in(s@, lo as int, hi as int) {
                    lemma_mantissa_chars(s@, lo as int, hi as int);
                    assert(is_digit(s@[k as int]) || s@[k as int] == '.');
                }
            }
            if !r {
                assert forall|k2: int|
                    lo <= k2 < hi && #[trigger] s@[k2] == 'e' implies !(mantissa_in(
                    s@,
                    lo as int,
                    k2,
                ) && exponent_in(s@, k2 + 1, hi as int)) by {
                    if k2 > k {
                        if mantissa_in(s@, lo as int, k2) {
                            lemma_mantissa_chars(s@, lo as int, k2);
                            assert(is_digit(s@[k as int]) || s@[k as int] == '.');
                        }
                    }
                }
            }
            r
        },
    }
}

fn text_is(v: &Vec<char>, lo: usize, word: &Vec<char>) -> (r: bool)
    requires
        lo <= v.len(),
    ensures
        r == (v@.skip(lo as int) == word@),
{
    if v.len() - lo != word.len() {
        assert(v@.skip(lo as int).len() != word@.len());
        return false;
    }
    let mut i: usize = 0;
    while i < word.len()
        invariant
            lo <= v.len(),
            v.len() - lo == word.len(),
            i <= word.len(),
            forall|j: int| 0 <= j < i ==> v@[lo + j] == word@[j],
        decreases word.len() - i,
    {
        if v[lo + i] != word[i] {
            assert(v@.skip(lo as int)[i as int] != word@[i as int]);
            return false;
        }
        i = i + 1;
    }
    assert(v@.skip(lo as int) =~= word@);
    true
}

/// Whether std's `str::parse::<f32>` accepts the text.
pub fn is_float_literal(s: &str) -> (r: bool)
    ensures
        r == spec_float_literal(s@),
{
    let n = s.unicode_len();
    let mut l: Vec<char> = Vec::new();
    let mut i: usize = 0;
    while i < n
        invariant
            n == s@.len(),
            i <= n,
            l@ == lowered(s@.take(i as int)),
        decreases n - i,
    {
        let c = s.get_char(i);
        let lc = if 'A' <= c && c <= 'Z' {
            ((c as u32) + 32) as u8 as char
        } else {
            c
        };
        assert(lc == lower(c));
        l.push(lc);
        assert(s@.take(i + 1) == s@.take(i as int).push(c));
        i = i + 1;
    }
    assert(s@.take(n as int) == s@);
    let st: usize = if l.len() > 0 && (l[0] == '+' || l[0] == '-') {
        1
    } else {
        0
    };
    let inf = vec!['i', 'n', 'f'];
    let infinity = vec!['i', 'n', 'f', 'i', 'n', 'i', 't', 'y'];
    let nan = vec!['n', 'a', 'n'];
    assert(inf@ == seq!['i', 'n', 'f']);
    assert(infinity@ == seq!['i', 'n', 'f', 'i', 'n', 'i', 't', 'y']);
    assert(nan@ == seq!['n', 'a', 'n']);
    text_is(&l, st, &inf) || text_is(&l, st, &infinity) || text_is(&l, st, &nan) || number_range(
        &l,
        st,
        l.len(),
    )
}

/// A swizzle names one component per letter, in order: `x` the first, `y`
/// the second, `z` the third and `w` the fourth.
pub proof fn law_swizzle_components(s: Seq<char>, i: int)
    requires
        is_swizzle(s),
        0 <= i < s.len(),
    ensures
        swizzle_of(s).len() == s.len(),
        s[i] == 'x' ==> swizzle_of(s)[i] == 0,
        s[i] == 'y' ==> swizzle_of(s)[i] == 1,
        s[i] == 'z' ==> swizzle_of(s)[i] == 2,
        s[i] == 'w' ==> swizzle_of(s)[i] == 3,
{
}


} // verus!
