//! Character-level building blocks shared by the command-line and launcher
//! logic: decimal rendering, Unicode whitespace and trimming, substring
//! search, and the calls into `std` that case-map strings and grow them.
use vstd::prelude::*;

verus! {

/// The character of a decimal digit `d` (`0 <= d < 10`).
pub open spec fn digit_char(d: nat) -> char {
    (48 + d) as char
}

/// The decimal rendering of `n`, most significant digit first, without
/// leading zeros (`0` renders as `"0"`).
pub open spec fn decimal(n: nat) -> Seq<char>
    decreases n,
{
    if n < 10 {
        seq![digit_char(n)]
    } else {
        decimal(n / 10).push(digit_char(n % 10))
    }
}

/// True iff `c` is an ASCII decimal digit.
pub open spec fn is_digit(c: char) -> bool {
    '0' <= c <= '9'
}

/// The value of an ASCII decimal digit.
pub open spec fn digit_value(c: char) -> nat {
    (c as int - 48) as nat
}

/// The value of a sequence of decimal digits, most significant first
/// (the empty sequence has value 0).
pub open spec fn digits_value(s: Seq<char>) -> nat
    decreases s.len(),
{
    if s.len() == 0 {
        0
    } else {
        digits_value(s.drop_last()) * 10 + digit_value(s.last())
    }
}

/// True iff every character of `s` is an ASCII decimal digit.
pub open spec fn all_digits(s: Seq<char>) -> bool {
    forall|i: int| 0 <= i < s.len() ==> is_digit(#[trigger] s[i])
}

/// True iff `c` has the Unicode `White_Space` property (what
/// `char::is_whitespace` tests): U+0009..U+000D, U+0020, U+0085, U+00A0,
/// U+1680, U+2000..U+200A, U+2028, U+2029, U+202F, U+205F and U+3000.
pub open spec fn white_space(c: char) -> bool {
    let u = c as u32;
    ||| 0x09 <= u <= 0x0D
    ||| u == 0x20
    ||| u == 0x85
    ||| u == 0xA0
    ||| u == 0x1680
    ||| 0x2000 <= u <= 0x200A
    ||| u == 0x2028
    ||| u == 0x2029
    ||| u == 0x202F
    ||| u == 0x205F
    ||| u == 0x3000
}

/// Name for what `str::to_lowercase` returns: the characters of the
/// lowercase form of a string with the characters `s`.
pub uninterp spec fn lowercase(s: Seq<char>) -> Seq<char>;

/// True iff `c` has the Unicode `White_Space` property.
pub fn is_white_space(c: char) -> (r: bool)
    ensures
        r == white_space(c),
{
    let u = c as u32;
    (0x09 <= u && u <= 0x0D) || u == 0x20 || u == 0x85 || u == 0xA0 || u == 0x1680 || (0x2000
        <= u && u <= 0x200A) || u == 0x2028 || u == 0x2029 || u == 0x202F || u == 0x205F || u
        == 0x3000
}

/// Calls `str::to_lowercase`. Claimed: the characters of the result are
/// `lowercase` of the characters of `s`, a function of `s` alone; the
/// Unicode case mapping itself is not stated.
#[verifier::external_body]
pub(crate) fn to_lower(s: &str) -> (r: String)
    ensures
        r@ == lowercase(s@),
{
    s.to_lowercase()
}

/// Calls `String::push`. Claimed: `c` is appended to the characters of `s`.
#[verifier::external_body]
pub(crate) fn push_char(s: &mut String, c: char)
    ensures
        final(s)@ == old(s)@.push(c),
{
    s.push(c)
}

/// The characters of `s`, in order.
pub fn chars_of(s: &str) -> (v: Vec<char>)
    ensures
        v@ == s@,
{
    let n = s.unicode_len();
    let mut v: Vec<char> = Vec::new();
    let mut i: usize = 0;
    while i < n
        invariant
            n == s@.len(),
            i <= n,
            v@ == s@.take(i as int),
        decreases n - i,
    {
        let c = s.get_char(i);
        v.push(c);
        i = i + 1;
        assert(v@ =~= s@.take(i as int));
    }
    assert(v@ =~= s@);
    v
}

/// A `String` holding exactly the characters of `v`.
pub fn string_of(v: &Vec<char>) -> (s: String)
    ensures
        s@ == v@,
{
    let mut s = String::new();
    let mut i: usize = 0;
    while i < v.len()
        invariant
            i <= v.len(),
            s@ == v@.take(i as int),
        decreases v.len() - i,
    {
        push_char(&mut s, v[i]);
        i = i + 1;
        assert(s@ =~= v@.take(i as int));
    }
    assert(v@.take(v.len() as int) =~= v@);
    s
}

/// The decimal rendering of `n` as a `String`.
pub fn decimal_string(n: u64) -> (s: String)
    ensures
        s@ == decimal(n as nat),
{
    let d = decimal_digits(n);
    string_of(&d)
}

/// The decimal rendering of `n` as a `String`.
pub fn decimal_string_usize(n: usize) -> (s: String)
    ensures
        s@ == decimal(n as nat),
{
    decimal_string(n as u64)
}

/// The character of decimal digit `d`.
fn digit_to_char(d: u64) -> (c: char)
    requires
        d < 10,
    ensures
        c == digit_char(d as nat),
        is_digit(c),
        digit_value(c) == d,
{
    let b: u8 = 48 + d as u8;
    b as char
}

/// The decimal digits of `n`, most significant first.
pub fn decimal_digits(n: u64) -> (v: Vec<char>)
    ensures
        v@ == decimal(n as nat),
{
    let mut m = n;
    let mut v: Vec<char> = Vec::new();
    while m >= 10
        invariant
            decimal(n as nat) == decimal(m as nat) + v@,
        decreases m,
    {
        let d = digit_to_char(m % 10);
        let ghost prev = v@;
        assert(decimal(m as nat) == decimal((m / 10) as nat).push(d));
        v.insert(0, d);
        assert(v@ =~= seq![d] + prev);
        assert(decimal((m / 10) as nat).push(d) + prev =~= decimal((m / 10) as nat) + v@);
        m = m / 10;
    }
    let d = digit_to_char(m);
    v.insert(0, d);
    assert(decimal(n as nat) =~= v@);
    v
}

/// Number of whitespace characters at the start of `s`.
pub open spec fn leading_ws(s: Seq<char>) -> nat
    decreases s.len(),
{
    if s.len() > 0 && white_space(s[0]) {
        1 + leading_ws(s.drop_first())
    } else {
        0
    }
}

/// Number of whitespace characters at the end of `s`.
pub open spec fn trailing_ws(s: Seq<char>) -> nat
    decreases s.len(),
{
    if s.len() > 0 && white_space(s.last()) {
        1 + trailing_ws(s.drop_last())
    } else {
        0
    }
}

/// `s` without its leading and trailing whitespace.
pub open spec fn trim(s: Seq<char>) -> Seq<char> {
    let t = s.skip(leading_ws(s) as int);
    t.take(t.len() - trailing_ws(t))
}

/// True iff `needle` occurs in `hay` starting at position `k`.
pub open spec fn occurs_at(hay: Seq<char>, needle: Seq<char>, k: int) -> bool {
    &&& 0 <= k
    &&& k + needle.len() <= hay.len()
    &&& hay.subrange(k, k + needle.len()) == needle
}

/// True iff `needle` occurs somewhere in `hay` (the empty sequence occurs
/// in every sequence).
pub open spec fn contains(hay: Seq<char>, needle: Seq<char>) -> bool {
    exists|k: int| occurs_at(hay, needle, k)
}

proof fn lemma_leading_step(s: Seq<char>, i: int)
    requires
        0 <= i < s.len(),
        white_space(s[i]),
    ensures
        leading_ws(s.skip(i)) == 1 + leading_ws(s.skip(i + 1)),
{
    assert(s.skip(i).drop_first() =~= s.skip(i + 1));
}

proof fn lemma_trailing_step(t: Seq<char>, j: int)
    requires
        0 < j <= t.len(),
        white_space(t[j - 1]),
    ensures
        trailing_ws(t.take(j)) == 1 + trailing_ws(t.take(j - 1)),
{
    assert(t.take(j).drop_last() =~= t.take(j - 1));
}

/// `s` without its leading and trailing whitespace.
pub fn trim_chars(s: &Vec<char>) -> (r: Vec<char>)
    ensures
        r@ == trim(s@),
{
    let n = s.len();
    let mut a: usize = 0;
    assert(s@.skip(0) =~= s@);
    while a < n && is_white_space(s[a])
        invariant
            n == s@.len(),
            a <= n,
            leading_ws(s@) == a + leading_ws(s@.skip(a as int)),
        decreases n - a,
    {
        proof {
            lemma_leading_step(s@, a as int);
        }
        a = a + 1;
    }
    assert(leading_ws(s@.skip(a as int)) == 0) by {
        if a < n {
            assert(s@.skip(a as int)[0] == s@[a as int]);
        }
    }
    let ghost t = s@.skip(a as int);
    assert(t.take(t.len() as int) =~= t);
    let mut b: usize = n;
    while b > a && is_white_space(s[b - 1])
        invariant
            n == s@.len(),
            a <= b <= n,
            t == s@.skip(a as int),
            trailing_ws(t) == (n - b) + trailing_ws(t.take(b - a)),
        decreases b,
    {
        proof {
            assert(t[b - a - 1] == s@[b - 1]);
            lemma_trailing_step(t, b - a);
        }
        b = b - 1;
    }
    assert(trailing_ws(t.take(b - a)) == 0) by {
        if b > a {
            assert(t.take(b - a).last() == s@[b - 1]);
        }
    }
    let mut r: Vec<char> = Vec::new();
    let mut k: usize = a;
    while k < b
        invariant
            n == s@.len(),
            a <= k <= b <= n,
            r@ == s@.subrange(a as int, k as int),
        decreases b - k,
    {
        r.push(s[k]);
        k = k + 1;
        assert(r@ =~= s@.subrange(a as int, k as int));
    }
    assert(r@ =~= trim(s@));
    r
}

/// True iff `needle` occurs in `hay` at position `k`.
fn occurs_at_exec(hay: &Vec<char>, needle: &Vec<char>, k: usize) -> (r: bool)
    requires
        k + needle.len() <= hay.len(),
    ensures
        r == occurs_at(hay@, needle@, k as int),
{
    let m = needle.len();
    let h = hay.len();
    let mut j: usize = 0;
    while j < m
        invariant
            m == needle@.len(),
            h == hay@.len(),
            k + m <= h,
            j <= m,
            forall|x: int| 0 <= x < j ==> hay@[k + x] == needle@[x],
        decreases m - j,
    {
        assert(k + j < hay@.len());
        if hay[k + j] != needle[j] {
            assert(hay@.subrange(k as int, k + m)[j as int] != needle@[j as int]);
            return false;
        }
        j = j + 1;
    }
    assert(hay@.subrange(k as int, k + m) =~= needle@);
    true
}

/// True iff `needle` occurs somewhere in `hay`.
pub fn contains_chars(hay: &Vec<char>, needle: &Vec<char>) -> (r: bool)
    ensures
        r == contains(hay@, needle@),
{
    let h = hay.len();
    let m = needle.len();
    if m > h {
        assert forall|k: int| !occurs_at(hay@, needle@, k) by {}
        return false;
    }
    let last = h - m;
    let mut k: usize = 0;
    while k < last
        invariant
            h == hay@.len(),
            m == needle@.len(),
            last == h - m,
            k <= last,
            forall|x: int| 0 <= x < k ==> !occurs_at(hay@, needle@, x),
        decreases last - k,
    {
        if occurs_at_exec(hay, needle, k) {
            return true;
        }
        k = k + 1;
    }
    if occurs_at_exec(hay, needle, last) {
        return true;
    }
    assert forall|x: int| !occurs_at(hay@, needle@, x) by {
        if 0 <= x && x + m <= h {
            assert(x <= last);
        }
    }
    false
}

/// The digits of an unsigned decimal literal: `s` without one leading `+`.
pub open spec fn unsigned_digits(s: Seq<char>) -> Seq<char> {
    if s.len() > 0 && s[0] == '+' {
        s.drop_first()
    } else {
        s
    }
}

/// The value of `s` read as an unsigned decimal literal: an optional `+`
/// followed by one or more ASCII digits; `None` for anything else.
pub open spec fn unsigned_value(s: Seq<char>) -> Option<nat> {
    let d = unsigned_digits(s);
    if d.len() > 0 && all_digits(d) {
        Some(digits_value(d))
    } else {
        None
    }
}

/// `s` read as a `usize`: its unsigned decimal value when that fits.
pub open spec fn usize_value(s: Seq<char>) -> Option<usize> {
    match unsigned_value(s) {
        Some(v) => if v <= usize::MAX {
            Some(v as usize)
        } else {
            None
        },
        None => None,
    }
}

/// Appending digits never lowers the value of a digit sequence.
proof fn lemma_prefix_value_le(d: Seq<char>, j: int)
    requires
        0 <= j <= d.len(),
        all_digits(d),
    ensures
        digits_value(d.take(j)) <= digits_value(d),
    decreases d.len(),
{
    if j < d.len() {
        assert(d.drop_last().take(j) =~= d.take(j));
        lemma_prefix_value_le(d.drop_last(), j);
    } else {
        assert(d.take(j) =~= d);
    }
}

/// Reads `s` as a `usize`, the way `str::parse::<usize>` reads a string:
/// an optional `+`, then ASCII digits only, and a value that fits.
pub fn parse_usize(s: &Vec<char>) -> (r: Option<usize>)
    ensures
        r == usize_value(s@),
{
    let n = s.len();
    let start: usize = if n > 0 && s[0] == '+' {
        1
    } else {
        0
    };
    let ghost d = unsigned_digits(s@);
    assert(d =~= s@.skip(start as int));
    if start == n {
        return None;
    }
    let mut acc: usize = 0;
    let mut i: usize = start;
    assert(d.take(0) =~= Seq::<char>::empty());
    while i < n
        invariant
            n == s@.len(),
            start <= i <= n,
            d == s@.skip(start as int),
            d == unsigned_digits(s@),
            all_digits(d.take(i - start)),
            acc as nat == digits_value(d.take(i - start)),
        decreases n - i,
    {
        let c = s[i];
        let ghost k = i - start;
        assert(d[k] == c);
        assert(d.take(k + 1).drop_last() =~= d.take(k));
        assert(d.take(k + 1).last() == c);
        if !('0' <= c && c <= '9') {
            assert(!all_digits(d)) by {
                assert(!is_digit(d[k]));
            }
            return None;
        }
        let dv: usize = (c as u32 - 48) as usize;
        assert(digits_value(d.take(k + 1)) == digits_value(d.take(k)) * 10 + dv);
        assert(all_digits(d.take(k + 1)));
        match acc.checked_mul(10) {
            Some(t) => match t.checked_add(dv) {
                Some(v) => {
                    acc = v;
                },
                None => {
                    proof {
                        if all_digits(d) {
                            lemma_prefix_value_le(d, k + 1);
                        }
                    }
                    return None;
                },
            },
            None => {
                proof {
                    if all_digits(d) {
                        lemma_prefix_value_le(d, k + 1);
                    }
                }
                return None;
            },
        }
        i = i + 1;
    }
    assert(d.take(n - start) =~= d);
    Some(acc)
}

/// Reading back a decimal rendering gives the number rendered.
pub proof fn lemma_decimal_reads_back(n: nat)
    ensures
        decimal(n).len() > 0,
        all_digits(decimal(n)),
        digits_value(decimal(n)) == n,
        decimal(n)[0] != '+',
    decreases n,
{
    let last = n % 10;
    assert(digit_char(last) as int == 48 + last);
    assert(digit_value(digit_char(last)) == last);
    if n >= 10 {
        lemma_decimal_reads_back(n / 10);
        let d = decimal(n);
        assert(d.drop_last() =~= decimal(n / 10));
        assert(d.last() == digit_char(last));
        assert(d[0] == decimal(n / 10)[0]);
        assert(n == (n / 10) * 10 + last);
        assert(digits_value(d) == digits_value(d.drop_last()) * 10 + digit_value(d.last()));
        assert(digits_value(d.drop_last()) == n / 10);
    } else {
        let d = decimal(n);
        assert(d.drop_last() =~= Seq::<char>::empty());
        assert(last == n);
        assert(d.last() == digit_char(n));
        assert(digits_value(d) == digits_value(d.drop_last()) * 10 + digit_value(d.last()));
    }
}

/// A `usize` rendered in decimal is read back as itself.
pub proof fn lemma_usize_round_trip(n: usize)
    ensures
        usize_value(decimal(n as nat)) == Some(n),
{
    lemma_decimal_reads_back(n as nat);
}

/// True iff every character of `s` is whitespace.
pub open spec fn all_white_space(s: Seq<char>) -> bool {
    forall|i: int| 0 <= i < s.len() ==> white_space(#[trigger] s[i])
}

proof fn lemma_leading_ws_prefix(pre: Seq<char>, x: Seq<char>)
    requires
        all_white_space(pre),
    ensures
        leading_ws(pre + x) == pre.len() + leading_ws(x),
    decreases pre.len(),
{
    if pre.len() > 0 {
        assert((pre + x)[0] == pre[0]);
        assert((pre + x).drop_first() =~= pre.drop_first() + x);
        lemma_leading_ws_prefix(pre.drop_first(), x);
    } else {
        assert(pre + x =~= x);
    }
}

proof fn lemma_trailing_ws_suffix(y: Seq<char>, post: Seq<char>)
    requires
        all_white_space(post),
    ensures
        trailing_ws(y + post) == post.len() + trailing_ws(y),
    decreases post.len(),
{
    if post.len() > 0 {
        assert((y + post).last() == post.last());
        assert((y + post).drop_last() =~= y + post.drop_last());
        lemma_trailing_ws_suffix(y, post.drop_last());
    } else {
        assert(y + post =~= y);
    }
}

/// Trimming removes exactly the surrounding whitespace from text that starts
/// and ends with another character.
pub proof fn lemma_trim_surrounded(pre: Seq<char>, d: Seq<char>, post: Seq<char>)
    requires
        all_white_space(pre),
        all_white_space(post),
        d.len() > 0,
        !white_space(d[0]),
        !white_space(d.last()),
    ensures
        trim(pre + d + post) == d,
{
    let s = pre + d + post;
    assert(s =~= pre + (d + post));
    lemma_leading_ws_prefix(pre, d + post);
    assert((d + post)[0] == d[0]);
    assert(leading_ws(d + post) == 0);
    let t = s.skip(pre.len() as int);
    assert(t =~= d + post);
    lemma_trailing_ws_suffix(d, post);
    assert(trailing_ws(d) == 0);
    assert(t.take(t.len() - post.len()) =~= d);
}

/// No decimal digit is whitespace.
pub proof fn lemma_digit_not_white_space(c: char)
    requires
        is_digit(c),
    ensures
        !white_space(c),
{
}

} // verus!
