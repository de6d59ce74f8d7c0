//! Character-level helpers, each with the specification that the rest of
//! the library states its contracts over.

use vstd::prelude::*;

verus! {

// ---------------------------------------------------------------------
// Strings and character vectors
// ---------------------------------------------------------------------

/// `String::push`: appends one character.
#[verifier::external_body]
pub(crate) fn push_char(s: &mut String, c: char)
    ensures
        final(s)@ == old(s)@.push(c),
{
    s.push(c);
}

/// The characters of `s`, in order.
pub fn chars_of(s: &str) -> (v: Vec<char>)
    ensures
        v@ == s@,
{
    let mut v: Vec<char> = Vec::new();
    for c in it: s.chars()
        invariant
            v@ == it.seq().take(it.index() as int),
    {
        v.push(c);
    }
    v
}

/// Appends the characters of `v` to `s`.
pub fn push_chars(s: &mut String, v: &Vec<char>)
    ensures
        final(s)@ == old(s)@ + v@,
{
    let mut i: usize = 0;
    while i < v.len()
        invariant
            i <= v.len(),
            s@ == old(s)@ + v@.take(i as int),
        decreases v.len() - i,
    {
        push_char(s, v[i]);
        i = i + 1;
        assert(v@.take(i as int) =~= v@.take(i - 1).push(v@[i - 1]));
    }
    assert(v@.take(v.len() as int) =~= v@);
}

/// Appends the characters of `t` to `s`.
pub fn push_str(s: &mut String, t: &str)
    ensures
        final(s)@ == old(s)@ + t@,
{
    let v = chars_of(t);
    push_chars(s, &v);
}

/// The string made of the characters of `v`.
pub fn string_of(v: &Vec<char>) -> (s: String)
    ensures
        s@ == v@,
{
    let mut s = String::new();
    push_chars(&mut s, v);
    assert(s@ =~= v@);
    s
}

/// An owned copy of `t`.
pub fn string_from(t: &str) -> (s: String)
    ensures
        s@ == t@,
{
    let mut s = String::new();
    push_str(&mut s, t);
    assert(s@ =~= t@);
    s
}

// ---------------------------------------------------------------------
// Decimal numbers
// ---------------------------------------------------------------------

/// The character of a decimal digit `d < 10`.
pub open spec fn digit_char(d: nat) -> char {
    (48 + d) as char
}

/// The decimal representation of `n`, as `Display` writes it: no sign, no
/// leading zeros.
pub open spec fn decimal(n: nat) -> Seq<char>
    decreases n,
{
    if n < 10 {
        seq![digit_char(n)]
    } else {
        decimal(n / 10).push(digit_char(n % 10))
    }
}

/// Appends the decimal representation of `n` to `s`.
pub fn push_decimal(s: &mut String, n: u64)
    ensures
        final(s)@ == old(s)@ + decimal(n as nat),
    decreases n,
{
    if n >= 10 {
        push_decimal(s, n / 10);
    }
    let d: u8 = (n % 10) as u8;
    let c: char = (48u8 + d) as char;
    assert(c == digit_char((n % 10) as nat));
    push_char(s, c);
    assert(s@ =~= old(s)@ + decimal(n as nat));
}

/// The decimal representation of `n`.
pub fn decimal_string(n: u64) -> (s: String)
    ensures
        s@ == decimal(n as nat),
{
    let mut s = String::new();
    push_decimal(&mut s, n);
    assert(s@ =~= decimal(n as nat));
    s
}

/// Whether `c` is one of the ASCII digits `0` to `9`.
pub open spec fn is_digit(c: char) -> bool {
    '0' <= c && c <= '9'
}

/// The value of the digit `c`.
pub open spec fn digit_value(c: char) -> nat {
    (c as u32 - 48) as nat
}

/// The value of a sequence of decimal digits, most significant first.
pub open spec fn digits_value(s: Seq<char>) -> nat
    decreases s.len(),
{
    if s.len() == 0 {
        0
    } else {
        digits_value(s.drop_last()) * 10 + digit_value(s.last())
    }
}

/// Whether every character of `s` is a decimal digit.
pub open spec fn all_digits(s: Seq<char>) -> bool {
    forall|i: int| 0 <= i < s.len() ==> is_digit(#[trigger] s[i])
}

/// The digits of `s` once an optional leading `+` is removed.
pub open spec fn unsigned_digits(s: Seq<char>) -> Seq<char> {
    if s.len() > 0 && s[0] == '+' {
        s.drop_first()
    } else {
        s
    }
}

/// What `str::parse::<u64>` gives: an optional `+`, then at least one
/// decimal digit and nothing else, with a value that fits in a `u64`.
pub open spec fn parse_u64_spec(s: Seq<char>) -> Option<u64> {
    let d = unsigned_digits(s);
    if d.len() > 0 && all_digits(d) && digits_value(d) <= u64::MAX {
        Some(digits_value(d) as u64)
    } else {
        None
    }
}

proof fn lemma_digits_value_monotone(s: Seq<char>, i: int, j: int)
    requires
        0 <= i <= j <= s.len(),
    ensures
        digits_value(s.take(i)) <= digits_value(s.take(j)),
    decreases j - i,
{
    if i < j {
        lemma_digits_value_monotone(s, i, j - 1);
        assert(s.take(j).drop_last() =~= s.take(j - 1));
    }
}

/// Parses `s` as `str::parse::<u64>` does.
pub fn parse_u64(s: &Vec<char>) -> (res: Option<u64>)
    ensures
        res == parse_u64_spec(s@),
{
    let n = s.len();
    let mut start: usize = 0;
    if n > 0 && s[0] == '+' {
        start = 1;
    }
    let ghost d = unsigned_digits(s@);
    assert(d =~= s@.subrange(start as int, n as int));
    if start == n {
        return None;
    }
    let mut value: u64 = 0;
    let mut i: usize = start;
    while i < n
        invariant
            start <= i <= n,
            n == s@.len(),
            d == unsigned_digits(s@),
            d == s@.subrange(start as int, n as int),
            all_digits(d.take(i - start)),
            value == digits_value(d.take(i - start)),
        decreases n - i,
    {
        let c = s[i];
        if !('0' <= c && c <= '9') {
            assert(d[i - start] == c);
            assert(!is_digit(d[i - start]));
            return None;
        }
        let dv: u64 = ((c as u32) - 48) as u64;
        assert(dv == digit_value(c));
        assert(d.take(i + 1 - start).drop_last() =~= d.take(i - start));
        assert(d.take(i + 1 - start).last() == c);
        match value.checked_mul(10) {
            Some(m) => match m.checked_add(dv) {
                Some(v2) => {
                    value = v2;
                },
                None => {
                    proof {
                        if all_digits(d) {
                            lemma_digits_value_monotone(d, i + 1 - start, d.len() as int);
                            assert(d.take(d.len() as int) =~= d);
                        }
                    }
                    return None;
                },
            },
            None => {
                proof {
                    if all_digits(d) {
                        lemma_digits_value_monotone(d, i + 1 - start, d.len() as int);
                        assert(d.take(d.len() as int) =~= d);
                    }
                }
                return None;
            },
        }
        i = i + 1;
    }
    assert(d.take(n - start) =~= d);
    Some(value)
}

proof fn lemma_decimal_digits(n: nat)
    ensures
        decimal(n).len() > 0,
        all_digits(decimal(n)),
        digits_value(decimal(n)) == n,
    decreases n,
{
    let k = n % 10;
    assert(((48 + k) as char) as u32 == 48 + k);
    assert(digit_value(digit_char(k)) == k);
    if n >= 10 {
        lemma_decimal_digits(n / 10);
        assert(decimal(n).drop_last() =~= decimal(n / 10));
        assert(decimal(n).last() == digit_char(k));
        assert(digits_value(decimal(n)) == digits_value(decimal(n / 10)) * 10 + k);
        assert((n / 10) * 10 + n % 10 == n);
    } else {
        assert(decimal(n).drop_last() =~= Seq::<char>::empty());
        assert(decimal(n).last() == digit_char(k));
        assert(digits_value(decimal(n)) == digits_value(decimal(n).drop_last()) * 10 + k);
    }
}

/// Parsing the decimal representation of a number gives back the number.
pub proof fn lemma_parse_decimal(n: u64)
    ensures
        parse_u64_spec(decimal(n as nat)) == Some(n),
{
    lemma_decimal_digits(n as nat);
    assert(is_digit(decimal(n as nat)[0]));
}


// ---------------------------------------------------------------------
// Outside behaviour of `str` and `char` that is named, not restated
// ---------------------------------------------------------------------

/// The string that `String::from_utf8_lossy` makes of `bytes`: the UTF-8
/// decoding, with each invalid sequence replaced by U+FFFD.
pub uninterp spec fn utf8_lossy(bytes: Seq<u8>) -> Seq<char>;

/// `String::from_utf8_lossy`. Its result is named by `utf8_lossy`; on valid
/// UTF-8 nothing is replaced, so it is the plain decoding.
#[verifier::external_body]
pub(crate) fn decode_utf8_lossy(bytes: &[u8]) -> (s: String)
    ensures
        s@ == utf8_lossy(bytes@),
        vstd::utf8::valid_utf8(bytes@) ==> s@ == vstd::utf8::decode_utf8(bytes@),
{
    String::from_utf8_lossy(bytes).into_owned()
}

/// Whether `char::is_alphanumeric` holds of a character beyond ASCII
/// (Unicode Alphabetic or Numeric).
pub uninterp spec fn unicode_alphanumeric(c: char) -> bool;

/// An ASCII letter or digit.
pub open spec fn is_ascii_alnum(c: char) -> bool {
    ('a' <= c && c <= 'z') || ('A' <= c && c <= 'Z') || ('0' <= c && c <= '9')
}

/// What `char::is_alphanumeric` decides: among ASCII characters exactly the
/// letters and digits; beyond ASCII, the Unicode Alphabetic and Numeric
/// characters.
pub open spec fn alphanumeric_spec(c: char) -> bool {
    if (c as u32) < 128 {
        is_ascii_alnum(c)
    } else {
        unicode_alphanumeric(c)
    }
}

/// `char::is_alphanumeric`. Among ASCII characters it holds of exactly the
/// letters and digits; beyond ASCII its result is named by
/// `unicode_alphanumeric`.
#[verifier::external_body]
pub(crate) fn is_alphanumeric(c: char) -> (b: bool)
    ensures
        b == (if (c as u32) < 128 {
            is_ascii_alnum(c)
        } else {
            unicode_alphanumeric(c)
        }),
{
    c.is_alphanumeric()
}

// ---------------------------------------------------------------------
// Whitespace and trimming
// ---------------------------------------------------------------------

/// The Unicode White_Space property, which `char::is_whitespace` tests.
pub open spec fn is_whitespace_spec(c: char) -> bool {
    let u = c as u32;
    (9 <= u && u <= 13) || u == 0x20 || u == 0x85 || u == 0xA0 || u == 0x1680 || (0x2000 <= u
        && u <= 0x200A) || u == 0x2028 || u == 0x2029 || u == 0x202F || u == 0x205F || u
        == 0x3000
}

/// Whether `c` is whitespace, as `char::is_whitespace` decides.
pub fn is_whitespace(c: char) -> (b: bool)
    ensures
        b == is_whitespace_spec(c),
{
    let u = c as u32;
    (9 <= u && u <= 13) || u == 0x20 || u == 0x85 || u == 0xA0 || u == 0x1680 || (0x2000 <= u
        && u <= 0x200A) || u == 0x2028 || u == 0x2029 || u == 0x202F || u == 0x205F || u
        == 0x3000
}

/// `s` without its leading whitespace.
pub open spec fn trim_start_spec(s: Seq<char>) -> Seq<char>
    decreases s.len(),
{
    if s.len() > 0 && is_whitespace_spec(s[0]) {
        trim_start_spec(s.drop_first())
    } else {
        s
    }
}

/// `s` without its trailing whitespace.
pub open spec fn trim_end_spec(s: Seq<char>) -> Seq<char>
    decreases s.len(),
{
    if s.len() > 0 && is_whitespace_spec(s.last()) {
        trim_end_spec(s.drop_last())
    } else {
        s
    }
}

/// `s` without leading and trailing whitespace, as `str::trim` gives it.
pub open spec fn trim_spec(s: Seq<char>) -> Seq<char> {
    trim_end_spec(trim_start_spec(s))
}

/// `v` without leading and trailing whitespace.
pub fn trim(v: &Vec<char>) -> (r: Vec<char>)
    ensures
        r@ == trim_spec(v@),
{
    let n = v.len();
    let mut i: usize = 0;
    assert(v@.subrange(0, n as int) =~= v@);
    while i < n && is_whitespace(v[i])
        invariant
            i <= n,
            n == v@.len(),
            trim_start_spec(v@) == trim_start_spec(v@.subrange(i as int, n as int)),
        decreases n - i,
    {
        assert(v@.subrange(i as int, n as int).drop_first() =~= v@.subrange(i + 1, n as int));
        i = i + 1;
    }
    let ghost front = v@.subrange(i as int, n as int);
    assert(trim_start_spec(v@) == front);
    let mut j: usize = n;
    assert(front =~= v@.subrange(i as int, j as int));
    while j > i && is_whitespace(v[j - 1])
        invariant
            i <= j <= n,
            n == v@.len(),
            front == v@.subrange(i as int, n as int),
            trim_end_spec(front) == trim_end_spec(v@.subrange(i as int, j as int)),
        decreases j,
    {
        assert(v@.subrange(i as int, j as int).drop_last() =~= v@.subrange(i as int, j - 1));
        j = j - 1;
    }
    let mut r: Vec<char> = Vec::new();
    let mut k: usize = i;
    while k < j
        invariant
            i <= k <= j <= n,
            n == v@.len(),
            r@ == v@.subrange(i as int, k as int),
        decreases j - k,
    {
        r.push(v[k]);
        k = k + 1;
        assert(r@ =~= v@.subrange(i as int, k as int));
    }
    r
}

// ---------------------------------------------------------------------
// Splitting, filtering and joining
// ---------------------------------------------------------------------

/// The pieces of `s` between occurrences of `sep`, as `str::split` yields
/// them: one more piece than there are separators, empty pieces included.
pub open spec fn split_on(s: Seq<char>, sep: char) -> Seq<Seq<char>>
    decreases s.len(),
{
    if s.len() == 0 {
        seq![Seq::<char>::empty()]
    } else {
        let prev = split_on(s.drop_last(), sep);
        if s.last() == sep {
            prev.push(Seq::<char>::empty())
        } else {
            prev.update(prev.len() - 1, prev.last().push(s.last()))
        }
    }
}

/// The pieces of `s` between whitespace characters, empty pieces included.
pub open spec fn split_ws(s: Seq<char>) -> Seq<Seq<char>>
    decreases s.len(),
{
    if s.len() == 0 {
        seq![Seq::<char>::empty()]
    } else {
        let prev = split_ws(s.drop_last());
        if is_whitespace_spec(s.last()) {
            prev.push(Seq::<char>::empty())
        } else {
            prev.update(prev.len() - 1, prev.last().push(s.last()))
        }
    }
}

/// There is always at least one piece.
pub proof fn lemma_split_len(s: Seq<char>, sep: char)
    ensures
        split_on(s, sep).len() >= 1,
        split_ws(s).len() >= 1,
    decreases s.len(),
{
    if s.len() > 0 {
        lemma_split_len(s.drop_last(), sep);
    }
}

/// The non-empty pieces, in order.
pub open spec fn nonempty(parts: Seq<Seq<char>>) -> Seq<Seq<char>>
    decreases parts.len(),
{
    if parts.len() == 0 {
        parts
    } else {
        let prev = nonempty(parts.drop_last());
        if parts.last().len() > 0 {
            prev.push(parts.last())
        } else {
            prev
        }
    }
}

/// The words of `s`, as `str::split_whitespace` yields them.
pub open spec fn words(s: Seq<char>) -> Seq<Seq<char>> {
    nonempty(split_ws(s))
}

/// The pieces joined with `sep` between each two.
pub open spec fn join(parts: Seq<Seq<char>>, sep: char) -> Seq<char>
    decreases parts.len(),
{
    if parts.len() == 0 {
        Seq::<char>::empty()
    } else if parts.len() == 1 {
        parts[0]
    } else {
        join(parts.drop_last(), sep).push(sep) + parts.last()
    }
}

/// The pieces of `v` between occurrences of `sep`.
pub fn split_on_char(v: &Vec<char>, sep: char) -> (parts: Vec<Vec<char>>)
    ensures
        parts.deep_view() == split_on(v@, sep),
{
    let n = v.len();
    let mut done: Vec<Vec<char>> = Vec::new();
    let mut cur: Vec<char> = Vec::new();
    let mut i: usize = 0;
    assert(v@.take(0) =~= Seq::<char>::empty());
    assert(done.deep_view().push(cur@) =~= split_on(v@.take(0), sep));
    while i < n
        invariant
            i <= n,
            n == v@.len(),
            done.deep_view().push(cur@) == split_on(v@.take(i as int), sep),
        decreases n - i,
    {
        let c = v[i];
        let ghost before = done.deep_view().push(cur@);
        assert(v@.take(i + 1).drop_last() =~= v@.take(i as int));
        assert(v@.take(i + 1).last() == c);
        if c == sep {
            assert(cur.deep_view() =~= cur@);
            done.push(cur);
            cur = Vec::new();
            assert(cur.deep_view() =~= cur@);
            assert(done.deep_view().push(cur@) =~~= before.push(Seq::<char>::empty()));
        } else {
            cur.push(c);
            assert(done.deep_view().push(cur@) =~= before.update(
                before.len() - 1,
                before.last().push(c),
            ));
        }
        i = i + 1;
    }
    assert(v@.take(n as int) =~= v@);
    let ghost all = done.deep_view().push(cur@);
    assert(cur.deep_view() =~= cur@);
    done.push(cur);
    assert(done.deep_view() =~~= all);
    done
}

/// The pieces of `v` between whitespace characters.
pub fn split_whitespace_pieces(v: &Vec<char>) -> (parts: Vec<Vec<char>>)
    ensures
        parts.deep_view() == split_ws(v@),
{
    let n = v.len();
    let mut done: Vec<Vec<char>> = Vec::new();
    let mut cur: Vec<char> = Vec::new();
    let mut i: usize = 0;
    assert(v@.take(0) =~= Seq::<char>::empty());
    assert(done.deep_view().push(cur@) =~= split_ws(v@.take(0)));
    while i < n
        invariant
            i <= n,
            n == v@.len(),
            done.deep_view().push(cur@) == split_ws(v@.take(i as int)),
        decreases n - i,
    {
        let c = v[i];
        let ghost before = done.deep_view().push(cur@);
        assert(v@.take(i + 1).drop_last() =~= v@.take(i as int));
        assert(v@.take(i + 1).last() == c);
        if is_whitespace(c) {
            assert(cur.deep_view() =~= cur@);
            done.push(cur);
            cur = Vec::new();
            assert(cur.deep_view() =~= cur@);
            assert(done.deep_view().push(cur@) =~~= before.push(Seq::<char>::empty()));
        } else {
            cur.push(c);
            assert(done.deep_view().push(cur@) =~= before.update(
                before.len() - 1,
                before.last().push(c),
            ));
        }
        i = i + 1;
    }
    assert(v@.take(n as int) =~= v@);
    let ghost all = done.deep_view().push(cur@);
    assert(cur.deep_view() =~= cur@);
    done.push(cur);
    assert(done.deep_view() =~~= all);
    done
}

/// The non-empty pieces of `parts`, in order.
pub fn keep_nonempty(parts: Vec<Vec<char>>) -> (r: Vec<Vec<char>>)
    ensures
        r.deep_view() == nonempty(parts.deep_view()),
{
    let ghost pv = parts.deep_view();
    let mut r: Vec<Vec<char>> = Vec::new();
    let mut rest = parts;
    let mut taken: usize = 0;
    let n = rest.len();
    // Consume from the front: reverse the order first so `pop` yields them in order.
    let mut stack: Vec<Vec<char>> = Vec::new();
    while rest.len() > 0
        invariant
            rest.len() + stack.len() == n,
            n == pv.len(),
            forall|k: int| 0 <= k < rest.len() ==> #[trigger] rest@[k]@ == pv[k],
            forall|k: int| 0 <= k < stack.len() ==> #[trigger] stack@[k]@ == pv[n - 1 - k],
        decreases rest.len(),
    {
        let p = rest.pop().unwrap();
        stack.push(p);
    }
    assert(pv.take(0) =~= Seq::<Seq<char>>::empty());
    while stack.len() > 0
        invariant
            taken + stack.len() == n,
            n == pv.len(),
            forall|k: int| 0 <= k < stack.len() ==> #[trigger] stack@[k]@ == pv[n - 1 - k],
            r.deep_view() == nonempty(pv.take(taken as int)),
        decreases stack.len(),
    {
        let p = stack.pop().unwrap();
        assert(p@ == pv[taken as int]);
        assert(pv.take(taken + 1).drop_last() =~= pv.take(taken as int));
        assert(pv.take(taken + 1).last() == p@);
        let ghost before = r.deep_view();
        if p.len() > 0 {
            assert(p.deep_view() =~= p@);
            r.push(p);
            assert(r.deep_view() =~~= before.push(pv[taken as int]));
        }
        taken = taken + 1;
    }
    assert(pv.take(n as int) =~= pv);
    r
}

/// The words of `v`, as `str::split_whitespace` yields them.
pub fn split_words(v: &Vec<char>) -> (r: Vec<Vec<char>>)
    ensures
        r.deep_view() == words(v@),
{
    keep_nonempty(split_whitespace_pieces(v))
}

/// The pieces of `parts` joined with `sep` between each two.
pub fn join_with(parts: &Vec<Vec<char>>, sep: char) -> (r: Vec<char>)
    ensures
        r@ == join(parts.deep_view(), sep),
{
    let ghost pv = parts.deep_view();
    let mut r: Vec<char> = Vec::new();
    let mut i: usize = 0;
    assert(pv.take(0) =~= Seq::<Seq<char>>::empty());
    while i < parts.len()
        invariant
            i <= parts.len(),
            pv == parts.deep_view(),
            r@ == join(pv.take(i as int), sep),
        decreases parts.len() - i,
    {
        let part = &parts[i];
        assert(part@ == pv[i as int]);
        assert(pv.take(i + 1).drop_last() =~= pv.take(i as int));
        if i > 0 {
            r.push(sep);
        }
        let mut k: usize = 0;
        let ghost start = r@;
        while k < part.len()
            invariant
                k <= part.len(),
                r@ == start + part@.take(k as int),
            decreases part.len() - k,
        {
            r.push(part[k]);
            k = k + 1;
            assert(r@ =~= start + part@.take(k as int));
        }
        assert(part@.take(part.len() as int) =~= part@);
        if i == 0 {
            assert(pv.take(1) =~= seq![pv[0]]);
            assert(r@ =~= join(pv.take(1), sep));
        } else {
            assert(r@ =~= join(pv.take(i + 1), sep));
        }
        i = i + 1;
    }
    assert(pv.take(parts.len() as int) =~= pv);
    r
}

// ---------------------------------------------------------------------
// Searching
// ---------------------------------------------------------------------

/// Whether `pat` occurs in `s` starting at index `i`.
pub open spec fn occurs_at(s: Seq<char>, pat: Seq<char>, i: int) -> bool {
    0 <= i && i + pat.len() <= s.len() && s.subrange(i, i + pat.len()) == pat
}

/// Whether `pat` occurs in `s`, as `str::contains` decides.
pub open spec fn contains_spec(s: Seq<char>, pat: Seq<char>) -> bool {
    exists|i: int| occurs_at(s, pat, i)
}

/// Whether `s` begins with `pat`, as `str::starts_with` decides.
pub open spec fn starts_with_spec(s: Seq<char>, pat: Seq<char>) -> bool {
    occurs_at(s, pat, 0)
}

/// Whether `pat` occurs in `s` at index `i`.
pub fn occurs_at_index(s: &Vec<char>, pat: &Vec<char>, i: usize) -> (b: bool)
    ensures
        b == occurs_at(s@, pat@, i as int),
{
    if i > s.len() || pat.len() > s.len() - i {
        return false;
    }
    let mut k: usize = 0;
    while k < pat.len()
        invariant
            k <= pat.len(),
            i + pat.len() <= s.len(),
            forall|m: int| 0 <= m < k ==> s@[i + m] == pat@[m],
        decreases pat.len() - k,
    {
        if s[i + k] != pat[k] {
            assert(s@.subrange(i as int, i + pat.len())[k as int] != pat@[k as int]);
            return false;
        }
        k = k + 1;
    }
    assert(s@.subrange(i as int, i + pat.len()) =~= pat@);
    true
}

/// Whether `pat` occurs in `s`.
pub fn contains(s: &Vec<char>, pat: &Vec<char>) -> (b: bool)
    ensures
        b == contains_spec(s@, pat@),
{
    if pat.len() > s.len() {
        return false;
    }
    let last = s.len() - pat.len();
    let mut i: usize = 0;
    while i < last
        invariant
            i <= last,
            last == s.len() - pat.len(),
            forall|m: int| 0 <= m < i ==> !occurs_at(s@, pat@, m),
        decreases last - i,
    {
        if occurs_at_index(s, pat, i) {
            return true;
        }
        i = i + 1;
    }
    if occurs_at_index(s, pat, last) {
        return true;
    }
    assert forall|m: int| !occurs_at(s@, pat@, m) by {
        if 0 <= m && m < last {
        }
    }
    false
}

/// Whether `s` begins with `pat`.
pub fn starts_with(s: &Vec<char>, pat: &Vec<char>) -> (b: bool)
    ensures
        b == starts_with_spec(s@, pat@),
{
    occurs_at_index(s, pat, 0)
}

/// Whether `s` contains the text `pat`.
pub fn str_contains(s: &Vec<char>, pat: &str) -> (b: bool)
    ensures
        b == contains_spec(s@, pat@),
{
    let p = chars_of(pat);
    contains(s, &p)
}

/// Whether `s` begins with the text `pat`.
pub fn str_starts_with(s: &Vec<char>, pat: &str) -> (b: bool)
    ensures
        b == starts_with_spec(s@, pat@),
{
    let p = chars_of(pat);
    starts_with(s, &p)
}

/// Whether `a` and `b` are the same characters.
pub fn chars_eq(a: &Vec<char>, b: &Vec<char>) -> (r: bool)
    ensures
        r == (a@ == b@),
{
    if a.len() != b.len() {
        return false;
    }
    let r = occurs_at_index(a, b, 0);
    assert(a@.subrange(0, b.len() as int) =~= a@);
    r
}

/// Whether `a` is the text `b`.
pub fn chars_eq_str(a: &Vec<char>, b: &str) -> (r: bool)
    ensures
        r == (a@ == b@),
{
    let bv = chars_of(b);
    chars_eq(a, &bv)
}

// ---------------------------------------------------------------------
// ASCII case
// ---------------------------------------------------------------------

/// `char::to_ascii_lowercase`: `A` to `Z` become `a` to `z`, all else stays.
pub open spec fn ascii_lower(c: char) -> char {
    if 'A' <= c && c <= 'Z' {
        ((c as u32) + 32) as char
    } else {
        c
    }
}

/// The ASCII lowercase of `c`.
pub fn to_ascii_lowercase(c: char) -> (r: char)
    ensures
        r == ascii_lower(c),
{
    if 'A' <= c && c <= 'Z' {
        let b: u8 = c as u8;
        let r = (b + 32) as char;
        assert(r as u32 == c as u32 + 32);
        r
    } else {
        c
    }
}

// ---------------------------------------------------------------------
// Facts about splitting
// ---------------------------------------------------------------------

/// A text without the separator is a single piece.
pub proof fn lemma_split_no_sep(x: Seq<char>, sep: char)
    requires
        !x.contains(sep),
    ensures
        split_on(x, sep) == seq![x],
    decreases x.len(),
{
    if x.len() > 0 {
        assert(!x.drop_last().contains(sep)) by {
            if x.drop_last().contains(sep) {
                let i = choose|i: int| 0 <= i < x.drop_last().len() && x.drop_last()[i] == sep;
                assert(x[i] == sep);
            }
        }
        lemma_split_no_sep(x.drop_last(), sep);
        assert(x[x.len() - 1] != sep);
        assert(x.drop_last().push(x.last()) =~= x);
        assert(split_on(x, sep) =~= seq![x]);
    } else {
        assert(x =~= Seq::<char>::empty());
    }
}

/// Splitting `s`, a separator, then `t` gives the pieces of `s` followed by
/// the pieces of `t`.
pub proof fn lemma_split_concat(s: Seq<char>, t: Seq<char>, sep: char)
    ensures
        split_on(s.push(sep) + t, sep) == split_on(s, sep) + split_on(t, sep),
    decreases t.len(),
{
    lemma_split_len(s, sep);
    lemma_split_len(t, sep);
    if t.len() == 0 {
        assert(s.push(sep) + t =~= s.push(sep));
        assert(s.push(sep).drop_last() =~= s);
        assert(split_on(t, sep) =~= seq![Seq::<char>::empty()]);
        assert(split_on(s.push(sep) + t, sep) =~= split_on(s, sep) + split_on(t, sep));
    } else {
        let u = s.push(sep) + t;
        lemma_split_concat(s, t.drop_last(), sep);
        lemma_split_len(t.drop_last(), sep);
        assert(u.drop_last() =~= s.push(sep) + t.drop_last());
        assert(u.last() == t.last());
        let a = split_on(s, sep);
        let b = split_on(t.drop_last(), sep);
        assert(split_on(u.drop_last(), sep) == a + b);
        if t.last() == sep {
            assert((a + b).push(Seq::<char>::empty()) =~= a + b.push(Seq::<char>::empty()));
        } else {
            assert((a + b).update((a + b).len() - 1, (a + b).last().push(t.last())) =~= a
                + b.update(b.len() - 1, b.last().push(t.last())));
        }
    }
}

/// Three pieces without the separator, joined by it, split back into those
/// three pieces.
pub proof fn lemma_split_three(a: Seq<char>, b: Seq<char>, c: Seq<char>, sep: char)
    requires
        !a.contains(sep),
        !b.contains(sep),
        !c.contains(sep),
    ensures
        split_on(a.push(sep) + b.push(sep) + c, sep) == seq![a, b, c],
{
    lemma_split_concat(b, c, sep);
    lemma_split_no_sep(b, sep);
    lemma_split_no_sep(c, sep);
    lemma_split_concat(a, b.push(sep) + c, sep);
    lemma_split_no_sep(a, sep);
    assert(a.push(sep) + b.push(sep) + c =~= a.push(sep) + (b.push(sep) + c));
    assert(seq![a] + (seq![b] + seq![c]) =~= seq![a, b, c]);
}

/// Four pieces without the separator, joined by it, split back into those
/// four pieces.
pub proof fn lemma_split_four(a: Seq<char>, b: Seq<char>, c: Seq<char>, d: Seq<char>, sep: char)
    requires
        !a.contains(sep),
        !b.contains(sep),
        !c.contains(sep),
        !d.contains(sep),
    ensures
        split_on(a.push(sep) + b.push(sep) + c.push(sep) + d, sep) == seq![a, b, c, d],
{
    lemma_split_three(b, c, d, sep);
    lemma_split_concat(a, b.push(sep) + c.push(sep) + d, sep);
    lemma_split_no_sep(a, sep);
    assert(a.push(sep) + b.push(sep) + c.push(sep) + d =~= a.push(sep) + (b.push(sep) + c.push(
        sep,
    ) + d));
    assert(seq![a] + seq![b, c, d] =~= seq![a, b, c, d]);
}

/// A decimal representation holds only digits, so no `|`.
pub proof fn lemma_decimal_has_no_bar(n: nat)
    ensures
        !decimal(n).contains('|'),
        decimal(n).len() > 0,
    decreases n,
{
    if n >= 10 {
        lemma_decimal_has_no_bar(n / 10);
    }
    let k = n % 10;
    assert(((48 + k) as char) as u32 == 48 + k);
    if decimal(n).contains('|') {
        let i = choose|i: int| 0 <= i < decimal(n).len() && decimal(n)[i] == '|';
        if n >= 10 {
            if i < decimal(n).len() - 1 {
                assert(decimal(n / 10)[i] == '|');
            }
        }
    }
}

} // verus!
