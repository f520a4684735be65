//! Character-level helpers on strings: reading a string's characters,
//! unsigned decimal numbers, and the standard library's lowercase and
//! whitespace handling.
use vstd::prelude::*;

verus! {

broadcast use vstd::string::group_string_axioms;

/// Reads the characters of a string into a vector.
pub fn chars_of(s: &str) -> (v: Vec<char>)
    ensures
        v@ == s@,
{
    let mut v: Vec<char> = Vec::new();
    for c in it: s.chars()
        invariant
            v@ == it.seq().take(it.index()),
            it.seq() == s@,
    {
        v.push(c);
    }
    v
}

// ---------------------------------------------------------------------------
// Whitespace and case
// ---------------------------------------------------------------------------

/// Whether a character has the Unicode `White_Space` property, the definition
/// of whitespace that `char::is_whitespace` and `str::trim` go by.
pub open spec fn is_white_space(c: char) -> bool {
    let n = c as int;
    ||| 0x09 <= n <= 0x0D
    ||| n == 0x20
    ||| n == 0x85
    ||| n == 0xA0
    ||| n == 0x1680
    ||| 0x2000 <= n <= 0x200A
    ||| n == 0x2028
    ||| n == 0x2029
    ||| n == 0x202F
    ||| n == 0x205F
    ||| n == 0x3000
}

/// The text without its leading whitespace.
pub open spec fn trim_start(s: Seq<char>) -> Seq<char>
    decreases s.len(),
{
    if s.len() > 0 && is_white_space(s[0]) {
        trim_start(s.drop_first())
    } else {
        s
    }
}

/// The text without its trailing whitespace.
pub open spec fn trim_end(s: Seq<char>) -> Seq<char>
    decreases s.len(),
{
    if s.len() > 0 && is_white_space(s.last()) {
        trim_end(s.drop_last())
    } else {
        s
    }
}

/// The text without leading and trailing whitespace.
pub open spec fn trimmed(s: Seq<char>) -> Seq<char> {
    trim_end(trim_start(s))
}

/// Whether a character is whitespace, as `char::is_whitespace` decides it.
pub fn char_is_white_space(c: char) -> (r: bool)
    ensures
        r == is_white_space(c),
{
    let n = c as u32;
    (0x09 <= n && n <= 0x0D) || n == 0x20 || n == 0x85 || n == 0xA0 || n == 0x1680
        || (0x2000 <= n && n <= 0x200A) || n == 0x2028 || n == 0x2029 || n == 0x202F
        || n == 0x205F || n == 0x3000
}

/// The part of a string that is left once its leading and trailing
/// whitespace is removed, as `str::trim` gives it.
pub fn trim_str<'a>(s: &'a str) -> (r: &'a str)
    ensures
        r@ == trimmed(s@),
{
    let c = chars_of(s);
    let n = c.len();
    let mut a: usize = 0;
    assert(c@.subrange(0, n as int) =~= s@);
    while a < n && char_is_white_space(c[a])
        invariant
            a <= n,
            n == c@.len(),
            c@ == s@,
            trim_start(s@) == trim_start(c@.subrange(a as int, n as int)),
        decreases n - a,
    {
        assert(c@.subrange(a as int, n as int).drop_first() =~= c@.subrange(a + 1, n as int));
        a = a + 1;
    }
    if a == n {
        assert(c@.subrange(a as int, n as int) =~= Seq::<char>::empty());
    }
    assert(trim_start(s@) == c@.subrange(a as int, n as int));
    let mut b: usize = n;
    while b > a && char_is_white_space(c[b - 1])
        invariant
            a <= b <= n,
            n == c@.len(),
            c@ == s@,
            trimmed(s@) == trim_end(c@.subrange(a as int, b as int)),
        decreases b,
    {
        assert(c@.subrange(a as int, b as int).drop_last() =~= c@.subrange(a as int, b - 1));
        b = b - 1;
    }
    if b == a {
        assert(c@.subrange(a as int, b as int) =~= Seq::<char>::empty());
    }
    s.substring_char(a, b)
}

/// Whether every character of the text is ASCII.
pub open spec fn all_ascii(s: Seq<char>) -> bool {
    forall|i: int| 0 <= i < s.len() ==> (#[trigger] s[i] as int) < 128
}

/// The ASCII lowercase of a character: `A`..`Z` become `a`..`z`, every other
/// character stays as it is.
pub open spec fn ascii_lower(c: char) -> char {
    if 'A' <= c && c <= 'Z' {
        ((c as int) + 32) as char
    } else {
        c
    }
}

/// The ASCII uppercase of a character: `a`..`z` become `A`..`Z`, every other
/// character stays as it is.
pub open spec fn ascii_upper(c: char) -> char {
    if 'a' <= c && c <= 'z' {
        ((c as int) - 32) as char
    } else {
        c
    }
}

/// On ASCII text, lowercasing gives the same result whatever the case of its
/// letters was.
pub proof fn lemma_lowercase_ignores_ascii_case(s: Seq<char>)
    requires
        all_ascii(s),
    ensures
        all_ascii(s.map_values(|c: char| ascii_upper(c))),
        all_ascii(s.map_values(|c: char| ascii_lower(c))),
        lowercase_text(s.map_values(|c: char| ascii_upper(c))) == lowercase_text(s),
        lowercase_text(s.map_values(|c: char| ascii_lower(c))) == lowercase_text(s),
{
    let up = s.map_values(|c: char| ascii_upper(c));
    let low = s.map_values(|c: char| ascii_lower(c));
    assert forall|i: int| 0 <= i < s.len() implies (#[trigger] up[i] as int) < 128
        && ascii_lower(up[i]) == ascii_lower(s[i]) by {
        assert((s[i] as int) < 128);
    }
    assert forall|i: int| 0 <= i < s.len() implies (#[trigger] low[i] as int) < 128
        && ascii_lower(low[i]) == ascii_lower(s[i]) by {
        assert((s[i] as int) < 128);
    }
    assert(up.map_values(|c: char| ascii_lower(c)) =~= s.map_values(|c: char| ascii_lower(c)));
    assert(low.map_values(|c: char| ascii_lower(c)) =~= s.map_values(|c: char| ascii_lower(c)));
}

/// What `str::to_lowercase` returns for a text: the full Unicode lowercase
/// mapping, which takes tables to state.
pub uninterp spec fn unicode_lowercase(s: Seq<char>) -> Seq<char>;

/// The lowercase of a text. On an all-ASCII text the Unicode mapping is the
/// ASCII one, character by character; on any other text it is left named.
pub open spec fn lowercase_text(s: Seq<char>) -> Seq<char> {
    if all_ascii(s) {
        s.map_values(|c: char| ascii_lower(c))
    } else {
        unicode_lowercase(s)
    }
}

/// Calls `str::to_lowercase`. The result is the Unicode lowercase of the
/// string; what is claimed beyond the name is only that ASCII text is
/// lowercased letter by letter with everything else left unchanged.
#[verifier::external_body]
fn to_lowercase_string(s: &str) -> (r: String)
    ensures
        all_ascii(s@) ==> r@ == s@.map_values(|c: char| ascii_lower(c)),
        !all_ascii(s@) ==> r@ == unicode_lowercase(s@),
{
    s.to_lowercase()
}

/// The text as `str::to_lowercase` and then `str::trim` leave it.
pub open spec fn normalized_text(s: Seq<char>) -> Seq<char> {
    trimmed(lowercase_text(s))
}

/// Lowercases a string and trims the whitespace around it.
pub fn normalize(s: &str) -> (r: String)
    ensures
        r@ == normalized_text(s@),
{
    let lower = to_lowercase_string(s);
    let t = trim_str(lower.as_str());
    t.to_owned()
}

/// A text that holds no uppercase ASCII letter and no character outside ASCII
/// is its own lowercase.
pub proof fn lemma_lowercase_ascii_fixed(s: Seq<char>)
    requires
        all_ascii(s),
        forall|i: int| 0 <= i < s.len() ==> !('A' <= #[trigger] s[i] && s[i] <= 'Z'),
    ensures
        lowercase_text(s) == s,
{
    assert(s.map_values(|c: char| ascii_lower(c)) =~= s);
}

/// A text that neither begins nor ends with whitespace is its own trim.
pub proof fn lemma_trimmed_fixed(s: Seq<char>)
    requires
        s.len() > 0 ==> !is_white_space(s[0]) && !is_white_space(s.last()),
    ensures
        trimmed(s) == s,
{
}

/// Whether every character of the text is whitespace.
pub open spec fn all_white_space(s: Seq<char>) -> bool {
    forall|i: int| 0 <= i < s.len() ==> is_white_space(#[trigger] s[i])
}

/// Leading whitespace of any length is removed, and nothing after it.
pub proof fn lemma_trim_start_removes_prefix(w: Seq<char>, t: Seq<char>)
    requires
        all_white_space(w),
        t.len() > 0 ==> !is_white_space(t[0]),
    ensures
        trim_start(w + t) == t,
    decreases w.len(),
{
    if w.len() == 0 {
        assert(w + t =~= t);
        if t.len() > 0 {
            assert(!is_white_space(t[0]));
        }
    } else {
        assert((w + t)[0] == w[0]);
        assert((w + t).drop_first() =~= w.drop_first() + t);
        lemma_trim_start_removes_prefix(w.drop_first(), t);
    }
}

/// Trailing whitespace of any length is removed, and nothing before it.
pub proof fn lemma_trim_end_removes_suffix(t: Seq<char>, w: Seq<char>)
    requires
        all_white_space(w),
        t.len() > 0 ==> !is_white_space(t.last()),
    ensures
        trim_end(t + w) == t,
    decreases w.len(),
{
    if w.len() == 0 {
        assert(t + w =~= t);
    } else {
        assert((t + w).last() == w.last());
        assert((t + w).drop_last() =~= t + w.drop_last());
        lemma_trim_end_removes_suffix(t, w.drop_last());
    }
}

/// Trimming removes all the whitespace around a text, however much there is:
/// a text that neither begins nor ends with whitespace comes out of any
/// whitespace around it unchanged.
pub proof fn lemma_trimmed_removes_surrounding(w1: Seq<char>, t: Seq<char>, w2: Seq<char>)
    requires
        all_white_space(w1),
        all_white_space(w2),
        t.len() > 0 ==> !is_white_space(t[0]) && !is_white_space(t.last()),
    ensures
        trimmed(w1 + t + w2) == t,
{
    if t.len() > 0 {
        assert(w1 + t + w2 =~= w1 + (t + w2));
        assert((t + w2)[0] == t[0]);
        lemma_trim_start_removes_prefix(w1, t + w2);
        lemma_trim_end_removes_suffix(t, w2);
    } else {
        assert(w1 + t + w2 =~= w1 + w2);
        assert(all_white_space(w1 + w2));
        lemma_trim_start_removes_prefix(w1 + w2, Seq::<char>::empty());
        assert(w1 + w2 + Seq::<char>::empty() =~= w1 + w2);
    }
}

/// A trimmed text neither begins nor ends with whitespace, and it is what is
/// left of the text between a run of whitespace before and one after it.
pub proof fn lemma_trimmed_shape(s: Seq<char>)
    ensures
        trimmed(s).len() > 0 ==> !is_white_space(trimmed(s)[0]) && !is_white_space(trimmed(s).last()),
        exists|i: int, j: int|
            0 <= i <= j <= s.len() && trimmed(s) == s.subrange(i, j)
                && all_white_space(s.subrange(0, i)) && all_white_space(s.subrange(j, s.len() as int)),
    decreases s.len(),
{
    lemma_trim_start_shape(s);
    let u = trim_start(s);
    let i = choose|i: int| 0 <= i <= s.len() && u == s.subrange(i, s.len() as int) && all_white_space(s.subrange(0, i));
    lemma_trim_end_shape(u);
    let j = choose|j: int| 0 <= j <= u.len() && trim_end(u) == u.subrange(0, j) && all_white_space(u.subrange(j, u.len() as int));
    assert(trimmed(s) =~= s.subrange(i, i + j));
    assert(s.subrange(i + j, s.len() as int) =~= u.subrange(j, u.len() as int));
    if trimmed(s).len() > 0 {
        assert(!is_white_space(u[0]));
        assert(trimmed(s)[0] == u[0]);
    }
}

proof fn lemma_trim_start_shape(s: Seq<char>)
    ensures
        trim_start(s).len() > 0 ==> !is_white_space(trim_start(s)[0]),
        exists|i: int| 0 <= i <= s.len() && trim_start(s) == s.subrange(i, s.len() as int) && all_white_space(s.subrange(0, i)),
    decreases s.len(),
{
    if s.len() > 0 && is_white_space(s[0]) {
        lemma_trim_start_shape(s.drop_first());
        let i = choose|i: int| 0 <= i <= s.drop_first().len() && trim_start(s.drop_first()) == s.drop_first().subrange(i, s.drop_first().len() as int) && all_white_space(s.drop_first().subrange(0, i));
        assert(s.subrange(i + 1, s.len() as int) =~= s.drop_first().subrange(i, s.drop_first().len() as int));
        assert forall|k: int| 0 <= k < i + 1 implies is_white_space(#[trigger] s.subrange(0, i + 1)[k]) by {
            if k > 0 {
                assert(s.subrange(0, i + 1)[k] == s.drop_first().subrange(0, i)[k - 1]);
            }
        }
    } else {
        assert(s.subrange(0, s.len() as int) =~= s);
        assert(all_white_space(s.subrange(0, 0)));
    }
}

proof fn lemma_trim_end_shape(s: Seq<char>)
    ensures
        trim_end(s).len() > 0 ==> !is_white_space(trim_end(s).last()),
        exists|j: int| 0 <= j <= s.len() && trim_end(s) == s.subrange(0, j) && all_white_space(s.subrange(j, s.len() as int)),
    decreases s.len(),
{
    if s.len() > 0 && is_white_space(s.last()) {
        lemma_trim_end_shape(s.drop_last());
        let d = s.drop_last();
        let j = choose|j: int| 0 <= j <= d.len() && trim_end(d) == d.subrange(0, j) && all_white_space(d.subrange(j, d.len() as int));
        assert(s.subrange(0, j) =~= d.subrange(0, j));
        assert forall|k: int| 0 <= k < s.len() - j implies is_white_space(#[trigger] s.subrange(j, s.len() as int)[k]) by {
            if k < d.len() - j {
                assert(s.subrange(j, s.len() as int)[k] == d.subrange(j, d.len() as int)[k]);
            }
        }
    } else {
        assert(s.subrange(0, s.len() as int) =~= s);
        assert(all_white_space(s.subrange(s.len() as int, s.len() as int)));
    }
}

// ---------------------------------------------------------------------------
// Unsigned decimal numbers
// ---------------------------------------------------------------------------

/// Whether a character is one of the ASCII digits `0`..`9`.
pub open spec fn is_decimal_digit(c: char) -> bool {
    '0' <= c && c <= '9'
}

/// Whether every character of the text is a decimal digit.
pub open spec fn all_decimal_digits(s: Seq<char>) -> bool {
    forall|i: int| 0 <= i < s.len() ==> is_decimal_digit(#[trigger] s[i])
}

/// The number a digit character stands for.
pub open spec fn digit_value(c: char) -> int {
    (c as int) - ('0' as int)
}

/// The number that a run of decimal digits stands for, most significant first.
pub open spec fn decimal_value(s: Seq<char>) -> int
    decreases s.len(),
{
    if s.len() == 0 {
        0
    } else {
        decimal_value(s.drop_last()) * 10 + digit_value(s.last())
    }
}

/// The digits of an unsigned number's text: everything after one leading `+`.
pub open spec fn unsigned_digits(s: Seq<char>) -> Seq<char> {
    if s.len() > 0 && s[0] == '+' {
        s.drop_first()
    } else {
        s
    }
}

/// The value that `u32::from_str` reads from a text: an optional `+`, then
/// one or more decimal digits and nothing else, of a value that fits in `u32`.
/// Any other text is refused.
pub open spec fn parse_u32_text(s: Seq<char>) -> Option<u32> {
    let d = unsigned_digits(s);
    if d.len() > 0 && all_decimal_digits(d) && decimal_value(d) <= u32::MAX {
        Some(decimal_value(d) as u32)
    } else {
        None
    }
}

/// The digit character for a number below ten.
pub open spec fn digit_char(d: int) -> char {
    if d == 0 { '0' }
    else if d == 1 { '1' }
    else if d == 2 { '2' }
    else if d == 3 { '3' }
    else if d == 4 { '4' }
    else if d == 5 { '5' }
    else if d == 6 { '6' }
    else if d == 7 { '7' }
    else if d == 8 { '8' }
    else { '9' }
}

/// The decimal text of a number, as `to_string` writes it: its digits, most
/// significant first, without sign or leading zeros.
pub open spec fn decimal_text(n: nat) -> Seq<char>
    decreases n,
{
    if n < 10 {
        seq![digit_char(n as int)]
    } else {
        decimal_text(n / 10).push(digit_char((n % 10) as int))
    }
}

proof fn lemma_digit_char(d: int)
    requires
        0 <= d < 10,
    ensures
        is_decimal_digit(digit_char(d)),
        digit_value(digit_char(d)) == d,
{
}

proof fn lemma_decimal_value_nonneg(s: Seq<char>)
    requires
        all_decimal_digits(s),
    ensures
        decimal_value(s) >= 0,
    decreases s.len(),
{
    if s.len() > 0 {
        lemma_decimal_value_nonneg(s.drop_last());
    }
}

/// A run of digits is worth at least as much as any of its prefixes.
proof fn lemma_decimal_value_prefix(s: Seq<char>, k: int)
    requires
        all_decimal_digits(s),
        0 <= k <= s.len(),
    ensures
        decimal_value(s.take(k)) <= decimal_value(s),
    decreases s.len(),
{
    if k < s.len() {
        lemma_decimal_value_prefix(s.drop_last(), k);
        assert(s.drop_last().take(k) =~= s.take(k));
        lemma_decimal_value_nonneg(s.drop_last());
    } else {
        assert(s.take(k) =~= s);
    }
}

/// The decimal text of a number is made of digits and reads back as that number.
pub proof fn lemma_decimal_text_value(n: nat)
    ensures
        decimal_text(n).len() > 0,
        all_decimal_digits(decimal_text(n)),
        decimal_value(decimal_text(n)) == n,
    decreases n,
{
    if n < 10 {
        let t = decimal_text(n);
        assert(t.drop_last() =~= Seq::<char>::empty());
        lemma_digit_char(n as int);
        assert(t.last() == digit_char(n as int));
        assert(decimal_value(t) == decimal_value(t.drop_last()) * 10 + digit_value(t.last()));
        assert(decimal_value(t.drop_last()) == 0);
    } else {
        lemma_decimal_text_value(n / 10);
        let t = decimal_text(n);
        assert(t.drop_last() =~= decimal_text(n / 10));
        lemma_digit_char((n % 10) as int);
        assert((n / 10) * 10 + n % 10 == n) by (nonlinear_arith);
        assert(t.last() == digit_char((n % 10) as int));
        assert(decimal_value(t) == decimal_value(t.drop_last()) * 10 + digit_value(t.last()));
    }
}

/// Reading a `u32` back from the decimal text of a number within range gives
/// that number.
pub proof fn lemma_parse_u32_decimal_text(n: u32)
    ensures
        parse_u32_text(decimal_text(n as nat)) == Some(n),
{
    lemma_decimal_text_value(n as nat);
}

/// A number's decimal text after a `+` reads as that number too; the text of
/// a number beyond `u32::MAX` is refused.
pub proof fn lemma_parse_u32_plus_and_range(n: nat)
    ensures
        n <= u32::MAX ==> parse_u32_text(seq!['+'] + decimal_text(n)) == Some(n as u32),
        n > u32::MAX ==> parse_u32_text(decimal_text(n)) is None,
{
    lemma_decimal_text_value(n);
    assert((seq!['+'] + decimal_text(n)).drop_first() =~= decimal_text(n));
    if decimal_text(n)[0] == '+' {
        assert(is_decimal_digit(decimal_text(n)[0]));
    }
}

/// A text that holds a character other than a digit after its optional
/// leading `+`, such as a sign `-`, a space or a second `+`, is refused; so is
/// an empty text or a lone `+`.
pub proof fn lemma_parse_u32_refuses(s: Seq<char>, i: int)
    requires
        0 <= i < s.len(),
        !is_decimal_digit(s[i]),
        i > 0 || s[i] != '+',
    ensures
        parse_u32_text(s) is None,
        parse_u32_text(Seq::empty()) is None,
        parse_u32_text(seq!['+']) is None,
{
    let d = unsigned_digits(s);
    if s.len() > 0 && s[0] == '+' {
        assert(d[i - 1] == s[i]);
    } else {
        assert(d[i] == s[i]);
    }
    assert(seq!['+'].drop_first() =~= Seq::<char>::empty());
}

/// Reads an unsigned 32-bit number from its decimal text, as `u32::from_str`
/// does; `None` where that refuses the text.
pub fn parse_u32(s: &str) -> (r: Option<u32>)
    ensures
        r == parse_u32_text(s@),
{
    let chars = chars_of(s);
    let n = chars.len();
    let mut start: usize = 0;
    if n > 0 && chars[0] == '+' {
        start = 1;
    }
    let ghost d = unsigned_digits(s@);
    assert(d =~= chars@.subrange(start as int, n as int));
    if start >= n {
        return None;
    }
    let mut acc: u64 = 0;
    let mut i: usize = start;
    assert(d.take(0) =~= Seq::<char>::empty());
    while i < n
        invariant
            start <= i <= n,
            n == chars@.len(),
            d == chars@.subrange(start as int, n as int),
            d == unsigned_digits(s@),
            acc == decimal_value(d.take(i - start)),
            acc <= u32::MAX,
            all_decimal_digits(d.take(i - start)),
        decreases n - i,
    {
        let c = chars[i];
        if !('0' <= c && c <= '9') {
            assert(d[i - start] == c);
            assert(!all_decimal_digits(d));
            return None;
        }
        let v: u64 = (c as u32 - '0' as u32) as u64;
        let ghost k: int = i - start;
        assert(d.take(k + 1).drop_last() =~= d.take(k));
        assert(d.take(k + 1).last() == c);
        acc = acc * 10 + v;
        assert(all_decimal_digits(d.take(k + 1))) by {
            assert forall|j: int| 0 <= j < k + 1 implies is_decimal_digit(#[trigger] d.take(k + 1)[j]) by {
                if j < k {
                    assert(d.take(k + 1)[j] == d.take(k)[j]);
                }
            }
        }
        if acc > 0xffff_ffffu64 {
            proof {
                if all_decimal_digits(d) {
                    lemma_decimal_value_prefix(d, k + 1);
                }
            }
            return None;
        }
        i = i + 1;
    }
    assert(d.take(n - start) =~= d);
    Some(acc as u32)
}

// ---------------------------------------------------------------------------
// Building text
// ---------------------------------------------------------------------------

/// The message that refuses a text as an image type.
pub open spec fn invalid_image_type_message(s: Seq<char>) -> Seq<char> {
    "Invalid image type: \""@ + s + "\""@
}

/// Builds the message that refuses a text as an image type.
pub fn invalid_image_type(s: &str) -> (r: String)
    ensures
        r@ == invalid_image_type_message(s@),
{
    let mut m = String::from_str("Invalid image type: \"");
    m.append(s);
    m.append("\"");
    m
}

} // verus!
