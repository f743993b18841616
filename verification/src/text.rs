//! Character-level building blocks: whitespace trimming, substring search,
//! decimal rendering and parsing, and string assembly.
use vstd::prelude::*;
use vstd::string::*;

verus! {

/// Unicode `White_Space` code points (the set `char::is_whitespace` accepts).
pub open spec fn is_ws(c: char) -> bool {
    let n = c as u32;
    ||| 0x09 <= n <= 0x0d
    ||| n == 0x20
    ||| n == 0x85
    ||| n == 0xa0
    ||| n == 0x1680
    ||| 0x2000 <= n <= 0x200a
    ||| n == 0x2028
    ||| n == 0x2029
    ||| n == 0x202f
    ||| n == 0x205f
    ||| n == 0x3000
}

/// Every character of `s` is whitespace (so trimming it leaves nothing).
pub open spec fn is_blank(s: Seq<char>) -> bool {
    forall|i: int| 0 <= i < s.len() ==> is_ws(#[trigger] s[i])
}

/// `s` without its trailing whitespace.
pub open spec fn trim_end(s: Seq<char>) -> Seq<char>
    decreases s.len(),
{
    if s.len() > 0 && is_ws(s.last()) {
        trim_end(s.drop_last())
    } else {
        s
    }
}

/// `s` without its leading whitespace.
pub open spec fn trim_start(s: Seq<char>) -> Seq<char>
    decreases s.len(),
{
    if s.len() > 0 && is_ws(s[0]) {
        trim_start(s.drop_first())
    } else {
        s
    }
}

/// `s` without leading and trailing whitespace.
pub open spec fn trim(s: Seq<char>) -> Seq<char> {
    trim_start(trim_end(s))
}

/// `needle` occurs in `hay` at some position.
pub open spec fn contains_at(hay: Seq<char>, needle: Seq<char>, i: int) -> bool {
    0 <= i && i + needle.len() <= hay.len() && hay.subrange(i, i + needle.len()) == needle
}

pub open spec fn contains_seq(hay: Seq<char>, needle: Seq<char>) -> bool {
    exists|i: int| contains_at(hay, needle, i)
}

/// The ASCII digit for `d < 10`.
pub open spec fn digit_char(d: nat) -> char {
    (48 + d) as char
}

/// Decimal rendering of a natural number, without leading zeros.
pub open spec fn decimal(n: nat) -> Seq<char>
    decreases n,
{
    if n < 10 {
        seq![digit_char(n)]
    } else {
        decimal(n / 10).push(digit_char(n % 10))
    }
}

/// Decimal rendering of an integer, with a leading `-` when negative.
pub open spec fn signed_decimal(n: int) -> Seq<char> {
    if n < 0 {
        seq!['-'] + decimal((-n) as nat)
    } else {
        decimal(n as nat)
    }
}

pub open spec fn is_digit(c: char) -> bool {
    '0' <= c && c <= '9'
}

/// Value of a string of ASCII digits read in base ten.
pub open spec fn digits_value(s: Seq<char>) -> int
    decreases s.len(),
{
    if s.len() == 0 {
        0
    } else {
        digits_value(s.drop_last()) * 10 + (s.last() as int - 48)
    }
}

/// `s` without one leading `+`, if it has one.
pub open spec fn strip_plus(s: Seq<char>) -> Seq<char> {
    if s.len() > 0 && s[0] == '+' {
        s.drop_first()
    } else {
        s
    }
}

pub open spec fn all_digits(d: Seq<char>) -> bool {
    forall|i: int| 0 <= i < d.len() ==> is_digit(#[trigger] d[i])
}

/// What `str::parse::<u64>` accepts: an optional `+`, then one or more ASCII digits whose
/// value fits in a `u64`.
pub open spec fn parse_u64_spec(s: Seq<char>) -> Option<u64> {
    let d = strip_plus(s);
    if d.len() > 0 && all_digits(d) && digits_value(d) <= u64::MAX {
        Some(digits_value(d) as u64)
    } else {
        None
    }
}

/// Appends one character to a string.
///
/// Trusted: `String::push`, which std documents as appending the given char to the end
/// of the string.
#[verifier::external_body]
pub(crate) fn push_char(s: &mut String, c: char)
    ensures
        final(s)@ == old(s)@.push(c),
{
    s.push(c);
}

/// The characters of a string slice, in order.
pub fn chars_of(s: &str) -> (v: Vec<char>)
    ensures
        v@ == s@,
{
    let mut v: Vec<char> = Vec::new();
    for c in it: s.chars()
        invariant
            v@ == it.seq().take(it.index() as int),
            it.seq() == s@,
    {
        v.push(c);
    }
    v
}

/// A copy of a string slice as an owned string.
pub fn owned(s: &str) -> (r: String)
    ensures
        r@ == s@,
{
    String::from_str(s)
}

/// Whether `c` is Unicode whitespace.
pub fn is_whitespace(c: char) -> (b: bool)
    ensures
        b == is_ws(c),
{
    let n = c as u32;
    (0x09 <= n && n <= 0x0d) || n == 0x20 || n == 0x85 || n == 0xa0 || n == 0x1680 || (0x2000
        <= n && n <= 0x200a) || n == 0x2028 || n == 0x2029 || n == 0x202f || n == 0x205f || n
        == 0x3000
}

proof fn lemma_trim_end_prefix(s: Seq<char>, k: int)
    requires
        0 <= k <= s.len(),
        forall|i: int| k <= i < s.len() ==> is_ws(#[trigger] s[i]),
    ensures
        trim_end(s) == trim_end(s.take(k)),
    decreases s.len() - k,
{
    if k < s.len() {
        assert(s.drop_last() =~= s.drop_last().take(s.len() - 1));
        lemma_trim_end_prefix(s.drop_last(), k);
        assert(s.drop_last().take(k) =~= s.take(k));
    } else {
        assert(s.take(k) =~= s);
    }
}

/// The length of `s` once its trailing whitespace is removed.
pub fn trim_end_len(s: &[char]) -> (n: usize)
    ensures
        n <= s@.len(),
        s@.take(n as int) == trim_end(s@),
{
    let mut n = s.len();
    while n > 0 && is_whitespace(s[n - 1])
        invariant
            n <= s@.len(),
            forall|i: int| n <= i < s@.len() ==> is_ws(#[trigger] s@[i]),
        decreases n,
    {
        n = n - 1;
    }
    proof {
        lemma_trim_end_prefix(s@, n as int);
        if n > 0 {
            assert(s@.take(n as int).last() == s@[n - 1]);
        }
    }
    n
}

/// A trimmed sequence is blank exactly when the trimmed-at-the-end one is empty.
pub proof fn lemma_trim_end_blank(s: Seq<char>)
    ensures
        is_blank(s) <==> trim_end(s).len() == 0,
        trim_end(s).len() == 0 <==> trim(s).len() == 0,
        trim_end(s).len() <= s.len(),
        trim_end(s) == s.take(trim_end(s).len() as int),
        trim_end(s).len() > 0 ==> !is_ws(trim_end(s).last()),
    decreases s.len(),
{
    if s.len() > 0 && is_ws(s.last()) {
        lemma_trim_end_blank(s.drop_last());
        if is_blank(s.drop_last()) {
            assert forall|i: int| 0 <= i < s.len() implies is_ws(#[trigger] s[i]) by {
                if i < s.len() - 1 {
                    assert(s.drop_last()[i] == s[i]);
                }
            }
        }
        if is_blank(s) {
            assert forall|i: int| 0 <= i < s.drop_last().len() implies is_ws(
                #[trigger] s.drop_last()[i],
            ) by {
                assert(s[i] == s.drop_last()[i]);
            }
        }
        assert(s.drop_last().take(trim_end(s).len() as int) =~= s.take(
            trim_end(s).len() as int,
        ));
    } else {
        if s.len() > 0 {
            assert(!is_ws(s[s.len() - 1]));
        }
        assert(s.take(s.len() as int) =~= s);
        if s.len() > 0 {
            lemma_trim_start_nonempty(s);
        }
    }
}

proof fn lemma_trim_start_nonempty(s: Seq<char>)
    requires
        s.len() > 0,
        !is_ws(s.last()),
    ensures
        trim_start(s).len() > 0,
    decreases s.len(),
{
    if is_ws(s[0]) {
        assert(s.len() > 1);
        assert(s.drop_first().last() == s.last());
        lemma_trim_start_nonempty(s.drop_first());
    }
}

/// `s` with its trailing whitespace removed.
pub fn trim_end_str(s: &str) -> (r: String)
    ensures
        r@ == trim_end(s@),
{
    let v = chars_of(s);
    let n = trim_end_len(v.as_slice());
    let t = s.substring_char(0, n);
    owned(t)
}

proof fn lemma_trim_start_skip(t: Seq<char>, k: int)
    requires
        0 <= k <= t.len(),
        forall|i: int| 0 <= i < k ==> is_ws(#[trigger] t[i]),
    ensures
        trim_start(t) == trim_start(t.skip(k)),
    decreases k,
{
    if k > 0 {
        assert(t.drop_first().skip(k - 1) =~= t.skip(k));
        lemma_trim_start_skip(t.drop_first(), k - 1);
    } else {
        assert(t.skip(0) =~= t);
    }
}

/// `s` with leading and trailing whitespace removed.
pub fn trim_str(s: &str) -> (r: String)
    ensures
        r@ == trim(s@),
{
    let v = chars_of(s);
    let e = trim_end_len(v.as_slice());
    let mut b: usize = 0;
    while b < e && is_whitespace(v[b])
        invariant
            e <= v@.len(),
            b <= e,
            forall|i: int| 0 <= i < b ==> is_ws(#[trigger] v@[i]),
        decreases e - b,
    {
        b = b + 1;
    }
    proof {
        let t = v@.take(e as int);
        assert forall|i: int| 0 <= i < b implies is_ws(#[trigger] t[i]) by {
            assert(t[i] == v@[i]);
        }
        lemma_trim_start_skip(t, b as int);
        let u = t.skip(b as int);
        if u.len() > 0 {
            assert(u[0] == v@[b as int]);
        }
        assert(u =~= s@.subrange(b as int, e as int));
    }
    owned(s.substring_char(b, e))
}

/// Whether `s` consists only of whitespace (`s.trim().is_empty()`).
pub fn is_blank_str(s: &str) -> (b: bool)
    ensures
        b == is_blank(s@),
        b == (trim(s@).len() == 0),
{
    let v = chars_of(s);
    let n = trim_end_len(v.as_slice());
    proof {
        lemma_trim_end_blank(s@);
    }
    n == 0
}

/// Whether `needle` occurs somewhere in `hay`.
pub fn contains_chars(hay: &[char], needle: &[char]) -> (b: bool)
    ensures
        b == contains_seq(hay@, needle@),
{
    if needle.len() == 0 {
        assert(hay@.subrange(0, 0) =~= needle@);
        assert(contains_at(hay@, needle@, 0));
        return true;
    }
    if needle.len() > hay.len() {
        return false;
    }
    let last = hay.len() - needle.len();
    let mut i: usize = 0;
    while i <= last
        invariant
            0 < needle@.len() <= hay@.len(),
            hay@.len() == hay.len(),
            needle@.len() == needle.len(),
            last == hay@.len() - needle@.len(),
            i <= last + 1,
            forall|k: int| 0 <= k < i ==> !contains_at(hay@, needle@, k),
        decreases last + 1 - i,
    {
        let mut j: usize = 0;
        let mut same = true;
        while j < needle.len()
            invariant
                0 < needle@.len() <= hay@.len(),
                hay@.len() == hay.len(),
                needle@.len() == needle.len(),
                i <= last,
                last == hay@.len() - needle@.len(),
                j <= needle@.len(),
                same == (forall|m: int| 0 <= m < j ==> hay@[i + m] == needle@[m]),
            decreases needle.len() - j,
        {
            if hay[i + j] != needle[j] {
                same = false;
            }
            j = j + 1;
        }
        if same {
            assert(hay@.subrange(i as int, i + needle@.len()) =~= needle@);
            assert(contains_at(hay@, needle@, i as int));
            return true;
        }
        assert(!contains_at(hay@, needle@, i as int)) by {
            if contains_at(hay@, needle@, i as int) {
                let m = choose|m: int| 0 <= m < needle@.len() && hay@[i + m] != needle@[m];
                assert(hay@.subrange(i as int, i + needle@.len())[m] == hay@[i + m]);
            }
        }
        i = i + 1;
    }
    false
}

/// The ASCII digit for `d`.
pub fn digit(d: u64) -> (c: char)
    requires
        d < 10,
    ensures
        c == digit_char(d as nat),
{
    let b: u8 = 48u8 + d as u8;
    b as char
}

/// Appends the decimal rendering of `n`.
pub fn push_decimal(s: &mut String, n: u64)
    ensures
        final(s)@ == old(s)@ + decimal(n as nat),
    decreases n,
{
    if n >= 10 {
        push_decimal(s, n / 10);
    }
    push_char(s, digit(n % 10));
    proof {
        if n >= 10 {
            assert(decimal(n as nat) == decimal((n / 10) as nat).push(digit_char((n % 10) as nat)));
        }
    }
    assert(final(s)@ =~= old(s)@ + decimal(n as nat));
}

/// Appends the decimal rendering of a signed integer.
pub fn push_signed_decimal(s: &mut String, n: i64)
    ensures
        final(s)@ == old(s)@ + signed_decimal(n as int),
{
    if n < 0 {
        push_char(s, '-');
        let m: u64 = if n == i64::MIN {
            9223372036854775808u64
        } else {
            (-n) as u64
        };
        push_decimal(s, m);
        assert(final(s)@ =~= old(s)@ + signed_decimal(n as int));
    } else {
        push_decimal(s, n as u64);
    }
}

/// `str::parse::<u64>` for a decimal string, `None` where it would fail.
pub fn parse_u64(s: &str) -> (r: Option<u64>)
    ensures
        r == parse_u64_spec(s@),
{
    let v = chars_of(s);
    let start: usize = if v.len() > 0 && v[0] == '+' { 1 } else { 0 };
    let ghost d = strip_plus(s@);
    assert(d =~= v@.skip(start as int));
    if start == v.len() {
        return None;
    }
    let mut acc: u64 = 0;
    let mut i: usize = start;
    while i < v.len()
        invariant
            start <= i <= v@.len(),
            d == v@.skip(start as int),
            d == strip_plus(s@),
            forall|k: int| start <= k < i ==> is_digit(#[trigger] v@[k]),
            acc as int == digits_value(d.take(i - start)),
        decreases v.len() - i,
    {
        let c = v[i];
        assert(d[i - start] == c);
        assert(d.take(i - start + 1).drop_last() =~= d.take(i - start));
        if !('0' <= c && c <= '9') {
            assert(!is_digit(d[i - start]));
            assert(!all_digits(d));
            return None;
        }
        let dv: u64 = (c as u32 - 48) as u64;
        assert(digits_value(d.take(i - start + 1)) == acc * 10 + dv);
        if acc > (u64::MAX - dv) / 10 {
            assert(acc * 10 + dv > u64::MAX) by (nonlinear_arith)
                requires
                    acc > (u64::MAX - dv) / 10,
                    dv <= 9,
            ;
            proof {
                if all_digits(d) {
                    lemma_digits_value_grows(d, i - start);
                }
            }
            return None;
        }
        assert(acc * 10 + dv <= u64::MAX) by (nonlinear_arith)
            requires
                acc <= (u64::MAX - dv) / 10,
                dv <= 9,
        ;
        acc = acc * 10 + dv;
        i = i + 1;
    }
    assert(d.take(i - start) =~= d);
    assert forall|k: int| 0 <= k < d.len() implies is_digit(#[trigger] d[k]) by {
        assert(d[k] == v@[start + k]);
    }
    Some(acc)
}

/// A prefix of a digit string never has a larger value than the whole.
proof fn lemma_digits_value_grows(s: Seq<char>, k: int)
    requires
        0 <= k < s.len(),
        forall|i: int| 0 <= i < s.len() ==> is_digit(#[trigger] s[i]),
    ensures
        digits_value(s.take(k + 1)) <= digits_value(s),
    decreases s.len(),
{
    assert(digits_value(s) >= 0) by {
        lemma_digits_value_nonneg(s);
    }
    if k + 1 < s.len() {
        assert(s.drop_last().take(k + 1) =~= s.take(k + 1));
        assert forall|i: int| 0 <= i < s.drop_last().len() implies is_digit(
            #[trigger] s.drop_last()[i],
        ) by {
            assert(s.drop_last()[i] == s[i]);
        }
        lemma_digits_value_grows(s.drop_last(), k);
        lemma_digits_value_nonneg(s.drop_last());
    } else {
        assert(s.take(k + 1) =~= s);
    }
}

proof fn lemma_digits_value_nonneg(s: Seq<char>)
    requires
        forall|i: int| 0 <= i < s.len() ==> is_digit(#[trigger] s[i]),
    ensures
        digits_value(s) >= 0,
    decreases s.len(),
{
    if s.len() > 0 {
        assert forall|i: int| 0 <= i < s.drop_last().len() implies is_digit(
            #[trigger] s.drop_last()[i],
        ) by {
            assert(s.drop_last()[i] == s[i]);
        }
        lemma_digits_value_nonneg(s.drop_last());
        assert(is_digit(s[s.len() - 1]));
    }
}

} // verus!

verus! {

/// Splits `s` around the first `sep` (`str::split_once`).
pub fn split_once_char(s: &str, sep: char) -> (r: Option<(String, String)>)
    ensures
        r is Some <==> s@.contains(sep),
        r matches Some((a, b)) ==> a@ + seq![sep] + b@ == s@ && !a@.contains(sep),
{
    let v = chars_of(s);
    let mut i: usize = 0;
    while i < v.len()
        invariant
            v@ == s@,
            i <= v@.len(),
            forall|j: int| 0 <= j < i ==> v@[j] != sep,
        decreases v.len() - i,
    {
        if v[i] == sep {
            let a = owned(s.substring_char(0, i));
            let b = owned(s.substring_char(i + 1, v.len()));
            assert(a@ + seq![sep] + b@ =~= s@);
            assert(!a@.contains(sep)) by {
                if a@.contains(sep) {
                    let k = choose|k: int| 0 <= k < a@.len() && a@[k] == sep;
                    assert(v@[k] == sep);
                }
            }
            return Some((a, b));
        }
        i = i + 1;
    }
    assert(!s@.contains(sep)) by {
        if s@.contains(sep) {
            let k = choose|k: int| 0 <= k < s@.len() && s@[k] == sep;
            assert(v@[k] == sep);
        }
    }
    None
}

/// `s` with `prefix` removed from its front, or `s` itself where it does not start so.
pub open spec fn strip_prefix_or_self(s: Seq<char>, prefix: Seq<char>) -> Seq<char> {
    if prefix.len() <= s.len() && s.take(prefix.len() as int) == prefix {
        s.skip(prefix.len() as int)
    } else {
        s
    }
}

/// `s.strip_prefix(prefix).unwrap_or(s)`.
pub fn strip_prefix_str(s: &str, prefix: &str) -> (r: String)
    ensures
        r@ == strip_prefix_or_self(s@, prefix@),
{
    let v = chars_of(s);
    let p = chars_of(prefix);
    if p.len() > v.len() {
        return owned(s);
    }
    let mut i: usize = 0;
    while i < p.len()
        invariant
            v@ == s@,
            p@ == prefix@,
            p@.len() <= v@.len(),
            i <= p@.len(),
            forall|j: int| 0 <= j < i ==> v@[j] == p@[j],
        decreases p.len() - i,
    {
        if v[i] != p[i] {
            assert(s@.take(prefix@.len() as int)[i as int] != prefix@[i as int]);
            return owned(s);
        }
        i = i + 1;
    }
    assert(s@.take(prefix@.len() as int) =~= prefix@);
    let r = owned(s.substring_char(p.len(), v.len()));
    assert(r@ =~= s@.skip(prefix@.len() as int));
    r
}

proof fn lemma_digit_char(d: nat)
    requires
        d < 10,
    ensures
        digit_char(d) as int == 48 + d,
        '0' <= digit_char(d) && digit_char(d) <= '9',
{
    assert(((48 + d) as char) as int == 48 + d);
}

/// The decimal text of a number is a non-empty run of digits `0`-`9`, without a leading
/// zero unless the number is zero, whose base-ten value is the number again.
pub proof fn law_decimal_reads_back(n: nat)
    ensures
        decimal(n).len() > 0,
        forall|i: int| 0 <= i < decimal(n).len() ==> '0' <= #[trigger] decimal(n)[i] && decimal(n)[i] <= '9',
        digits_value(decimal(n)) == n,
        n > 0 ==> decimal(n)[0] != '0',
        n <= u64::MAX ==> parse_u64_spec(decimal(n)) == Some(n as u64),
    decreases n,
{
    if n >= 10 {
        law_decimal_reads_back(n / 10);
        let d = decimal(n / 10);
        assert(decimal(n) == d.push(digit_char(n % 10)));
        assert(decimal(n).drop_last() =~= d);
        assert(decimal(n)[0] == d[0]);
        assert forall|i: int| 0 <= i < decimal(n).len() implies '0' <= #[trigger] decimal(n)[i]
            && decimal(n)[i] <= '9' by {
            lemma_digit_char(n % 10);
            if i < d.len() {
                assert(decimal(n)[i] == d[i]);
            } else {
                assert(decimal(n)[i] == digit_char(n % 10));
            }
        }
        lemma_digit_char(n % 10);
        assert(decimal(n).last() == digit_char(n % 10));
        assert(digits_value(decimal(n)) == digits_value(d) * 10 + (digit_char(n % 10) as int - 48));
        assert((n / 10) * 10 + n % 10 == n);
    } else {
        lemma_digit_char(n);
        assert(decimal(n) == seq![digit_char(n)]);
        assert(decimal(n).drop_last() =~= Seq::<char>::empty());
        assert(decimal(n).last() == digit_char(n));
        assert(digits_value(decimal(n)) == digits_value(Seq::<char>::empty()) * 10 + (digit_char(n) as int - 48));
    }
    let d = decimal(n);
    assert(strip_plus(d) == d);
    assert forall|i: int| 0 <= i < d.len() implies is_digit(#[trigger] d[i]) by {
        assert('0' <= d[i] && d[i] <= '9');
    }
}

/// Different numbers have different decimal texts.
pub proof fn law_decimal_injective(a: nat, b: nat)
    ensures
        decimal(a) == decimal(b) ==> a == b,
{
    law_decimal_reads_back(a);
    law_decimal_reads_back(b);
}

/// The signed decimal text of an integer is its magnitude in decimal, after a `-` exactly
/// when the integer is negative.
pub proof fn law_signed_decimal_reads_back(n: int)
    ensures
        n < 0 ==> signed_decimal(n).len() > 1 && signed_decimal(n)[0] == '-' && digits_value(
            signed_decimal(n).drop_first(),
        ) == -n,
        n >= 0 ==> signed_decimal(n).len() > 0 && '0' <= signed_decimal(n)[0] && signed_decimal(n)[0]
            <= '9' && digits_value(signed_decimal(n)) == n,
{
    if n < 0 {
        law_decimal_reads_back((-n) as nat);
        assert(signed_decimal(n).drop_first() =~= decimal((-n) as nat));
    } else {
        law_decimal_reads_back(n as nat);
    }
}

} // verus!
