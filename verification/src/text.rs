//! Character-level text helpers shared by the parsers and encoders: building
//! strings, whitespace trimming, splitting on a separator, decimal numbers
//! and lowercase hexadecimal payloads.

use vstd::prelude::*;
use vstd::string::*;

verus! {

/// Appends one character to a `String` (std's `String::push`).
#[verifier::external_body]
pub(crate) fn push_char(s: &mut String, c: char)
    ensures
        final(s)@ == old(s)@.push(c),
{
    s.push(c);
}

/// Builds a `String` holding exactly the given characters.
pub fn string_from_chars(v: &[char]) -> (r: String)
    ensures
        r@ == v@,
{
    let mut r = String::new();
    let mut i: usize = 0;
    while i < v.len()
        invariant
            i <= v.len(),
            r@ == v@.take(i as int),
        decreases v.len() - i,
    {
        assert(v@.take(i + 1) == v@.take(i as int).push(v@[i as int]));
        push_char(&mut r, v[i]);
        i += 1;
    }
    assert(v@.take(v.len() as int) == v@);
    r
}

/// Builds a `String` from the characters `v[start..end]`.
pub fn string_from_range(v: &[char], start: usize, end: usize) -> (r: String)
    requires
        start <= end <= v.len(),
    ensures
        r@ == v@.subrange(start as int, end as int),
{
    let mut r = String::new();
    let mut i: usize = start;
    while i < end
        invariant
            start <= i <= end <= v.len(),
            r@ == v@.subrange(start as int, i as int),
        decreases end - i,
    {
        assert(v@.subrange(start as int, i + 1) == v@.subrange(start as int, i as int).push(
            v@[i as int],
        ));
        push_char(&mut r, v[i]);
        i += 1;
    }
    r
}

/// The characters of a string slice, in order.
pub fn chars_of(s: &str) -> (r: Vec<char>)
    ensures
        r@ == s@,
{
    let n = s.unicode_len();
    let mut r: Vec<char> = Vec::new();
    let mut i: usize = 0;
    while i < n
        invariant
            n == s@.len(),
            i <= n,
            r@ == s@.take(i as int),
        decreases n - i,
    {
        let c = s.get_char(i);
        assert(s@.take(i + 1) == s@.take(i as int).push(c));
        r.push(c);
        i += 1;
    }
    assert(s@.take(n as int) == s@);
    r
}

/// The characters `v[start..end]`.
pub fn sub_chars(v: &[char], start: usize, end: usize) -> (r: Vec<char>)
    requires
        start <= end <= v.len(),
    ensures
        r@ == v@.subrange(start as int, end as int),
{
    let mut r: Vec<char> = Vec::new();
    let mut i: usize = start;
    while i < end
        invariant
            start <= i <= end <= v.len(),
            r@ == v@.subrange(start as int, i as int),
        decreases end - i,
    {
        assert(v@.subrange(start as int, i + 1) == v@.subrange(start as int, i as int).push(
            v@[i as int],
        ));
        r.push(v[i]);
        i += 1;
    }
    r
}

/// Appends the characters of `src` to `dst`.
pub fn extend_chars(dst: &mut Vec<char>, src: &[char])
    ensures
        final(dst)@ == old(dst)@ + src@,
{
    let mut i: usize = 0;
    while i < src.len()
        invariant
            i <= src.len(),
            dst@ == old(dst)@ + src@.take(i as int),
        decreases src.len() - i,
    {
        assert(src@.take(i + 1) == src@.take(i as int).push(src@[i as int]));
        dst.push(src[i]);
        i += 1;
    }
    assert(src@.take(src.len() as int) == src@);
}

/// Whether two character sequences are equal.
pub fn chars_eq(a: &[char], b: &[char]) -> (r: bool)
    ensures
        r == (a@ == b@),
{
    if a.len() != b.len() {
        return false;
    }
    let mut i: usize = 0;
    while i < a.len()
        invariant
            a.len() == b.len(),
            i <= a.len(),
            forall|j: int| 0 <= j < i ==> a@[j] == b@[j],
        decreases a.len() - i,
    {
        if a[i] != b[i] {
            return false;
        }
        i += 1;
    }
    assert(a@ =~= b@);
    true
}

/// Whether the characters `a` spell the string `b`.
pub fn chars_eq_str(a: &[char], b: &str) -> (r: bool)
    ensures
        r == (a@ == b@),
{
    let bv = chars_of(b);
    chars_eq(a, bv.as_slice())
}

/// Whether two string slices are equal.
pub fn str_eq(a: &str, b: &str) -> (r: bool)
    ensures
        r == (a@ == b@),
{
    let av = chars_of(a);
    let bv = chars_of(b);
    chars_eq(av.as_slice(), bv.as_slice())
}

/// Whether `prefix` begins `s`.
pub open spec fn is_prefix(prefix: Seq<char>, s: Seq<char>) -> bool {
    prefix.len() <= s.len() && s.subrange(0, prefix.len() as int) == prefix
}

/// Whether `needle` occurs somewhere in `s`.
pub open spec fn contains_seq(s: Seq<char>, needle: Seq<char>) -> bool {
    exists|i: int|
        0 <= i && i + needle.len() <= s.len() && #[trigger] s.subrange(i, i + needle.len())
            == needle
}

/// Whether the characters `s` begin with the string `prefix`.
pub fn starts_with_str(s: &[char], prefix: &str) -> (r: bool)
    ensures
        r == is_prefix(prefix@, s@),
{
    let p = chars_of(prefix);
    if p.len() > s.len() {
        return false;
    }
    let mut i: usize = 0;
    while i < p.len()
        invariant
            p@ == prefix@,
            p.len() <= s.len(),
            i <= p.len(),
            forall|j: int| 0 <= j < i ==> s@[j] == p@[j],
        decreases p.len() - i,
    {
        if s[i] != p[i] {
            assert(s@.subrange(0, p.len() as int)[i as int] != p@[i as int]);
            return false;
        }
        i += 1;
    }
    assert(s@.subrange(0, p.len() as int) =~= p@);
    true
}

/// Whether the string `needle` occurs in the characters `s`.
pub fn contains_str(s: &[char], needle: &str) -> (r: bool)
    ensures
        r == contains_seq(s@, needle@),
{
    let p = chars_of(needle);
    if p.len() > s.len() {
        assert forall|i: int|
            0 <= i && i + needle@.len() <= s@.len() implies #[trigger] s@.subrange(
            i,
            i + needle@.len(),
        ) != needle@ by {}
        return false;
    }
    if p.len() == 0 {
        assert(s@.subrange(0int, 0int + needle@.len()) =~= needle@);
        return true;
    }
    let mut start: usize = 0;
    let last = s.len() - p.len();
    while start <= last
        invariant
            p@ == needle@,
            p.len() <= s.len(),
            p.len() > 0,
            last == s.len() - p.len(),
            start <= last + 1,
            forall|k: int|
                0 <= k < start ==> #[trigger] s@.subrange(k, k + needle@.len()) != needle@,
        decreases last + 1 - start,
    {
        let mut i: usize = 0;
        let mut matched = true;
        while i < p.len()
            invariant
                start + p.len() <= s.len(),
                i <= p.len(),
                matched ==> forall|j: int| 0 <= j < i ==> s@[start + j] == p@[j],
                !matched ==> s@.subrange(start as int, start + p.len()) != p@,
            decreases p.len() - i,
        {
            if s[start + i] != p[i] {
                assert(s@.subrange(start as int, start + p.len())[i as int] != p@[i as int]);
                matched = false;
            }
            i += 1;
        }
        if matched {
            assert(s@.subrange(start as int, start + p.len()) =~= p@);
            return true;
        }
        start += 1;
    }
    assert forall|k: int|
        0 <= k && k + needle@.len() <= s@.len() implies #[trigger] s@.subrange(
        k,
        k + needle@.len(),
    ) != needle@ by {}
    false
}


/// Unicode `White_Space` characters (what std's `char::is_whitespace` tests).
pub open spec fn is_space(c: char) -> bool {
    let u = c as u32;
    (9 <= u && u <= 13) || u == 32 || u == 0x85 || u == 0xa0 || u == 0x1680 || (0x2000 <= u
        && u <= 0x200a) || u == 0x2028 || u == 0x2029 || u == 0x202f || u == 0x205f || u
        == 0x3000
}

/// Whether `c` is a Unicode whitespace character.
pub fn is_space_char(c: char) -> (r: bool)
    ensures
        r == is_space(c),
{
    let u = c as u32;
    (9 <= u && u <= 13) || u == 32 || u == 0x85 || u == 0xa0 || u == 0x1680 || (0x2000 <= u
        && u <= 0x200a) || u == 0x2028 || u == 0x2029 || u == 0x202f || u == 0x205f || u
        == 0x3000
}

/// `s` without its leading whitespace.
pub open spec fn trim_start(s: Seq<char>) -> Seq<char>
    decreases s.len(),
{
    if s.len() > 0 && is_space(s[0]) {
        trim_start(s.drop_first())
    } else {
        s
    }
}

/// `s` without its trailing whitespace.
pub open spec fn trim_end(s: Seq<char>) -> Seq<char>
    decreases s.len(),
{
    if s.len() > 0 && is_space(s.last()) {
        trim_end(s.drop_last())
    } else {
        s
    }
}

/// `s` without leading or trailing whitespace.
pub open spec fn trim(s: Seq<char>) -> Seq<char> {
    trim_end(trim_start(s))
}

/// The bounds of `v` once leading whitespace is dropped.
pub fn trim_start_index(v: &[char], end: usize) -> (r: usize)
    requires
        end <= v.len(),
    ensures
        r <= end,
        v@.subrange(r as int, end as int) == trim_start(v@.subrange(0, end as int)),
{
    let mut i: usize = 0;
    while i < end && is_space_char(v[i])
        invariant
            i <= end <= v.len(),
            trim_start(v@.subrange(0, end as int)) == trim_start(v@.subrange(i as int, end as int)),
        decreases end - i,
    {
        assert(v@.subrange(i as int, end as int).drop_first() == v@.subrange(i + 1, end as int));
        i += 1;
    }
    i
}

/// The end of `v[start..end]` once trailing whitespace is dropped.
pub fn trim_end_index(v: &[char], start: usize, end: usize) -> (r: usize)
    requires
        start <= end <= v.len(),
    ensures
        start <= r <= end,
        v@.subrange(start as int, r as int) == trim_end(v@.subrange(start as int, end as int)),
{
    let mut j: usize = end;
    while j > start && is_space_char(v[j - 1])
        invariant
            start <= j <= end <= v.len(),
            trim_end(v@.subrange(start as int, end as int)) == trim_end(
                v@.subrange(start as int, j as int),
            ),
        decreases j - start,
    {
        assert(v@.subrange(start as int, j as int).drop_last() == v@.subrange(
            start as int,
            j - 1,
        ));
        j -= 1;
    }
    j
}

/// The characters of `v` without surrounding whitespace.
pub fn trim_chars(v: &[char]) -> (r: Vec<char>)
    ensures
        r@ == trim(v@),
{
    let s = trim_start_index(v, v.len());
    let e = trim_end_index(v, s, v.len());
    assert(v@.subrange(0, v.len() as int) == v@);
    let mut r: Vec<char> = Vec::new();
    let mut i = s;
    while i < e
        invariant
            s <= i <= e <= v.len(),
            r@ == v@.subrange(s as int, i as int),
        decreases e - i,
    {
        assert(v@.subrange(s as int, i + 1) == v@.subrange(s as int, i as int).push(v@[i as int]));
        r.push(v[i]);
        i += 1;
    }
    r
}

/// The pieces of `s` between occurrences of `sep` (std's `str::split`
/// with a character pattern); there is always at least one piece.
pub open spec fn split(s: Seq<char>, sep: char) -> Seq<Seq<char>>
    decreases s.len(),
{
    if s.len() == 0 {
        seq![Seq::<char>::empty()]
    } else {
        let p = split(s.drop_last(), sep);
        if s.last() == sep {
            p.push(Seq::<char>::empty())
        } else {
            p.update(p.len() - 1, p.last().push(s.last()))
        }
    }
}

/// The pieces joined back together with `sep` between them.
pub open spec fn join(parts: Seq<Seq<char>>, sep: char) -> Seq<char>
    decreases parts.len(),
{
    if parts.len() == 0 {
        Seq::<char>::empty()
    } else if parts.len() == 1 {
        parts[0]
    } else {
        join(parts.drop_last(), sep).push(sep) + parts.last()
    }
}

pub proof fn lemma_split_nonempty(s: Seq<char>, sep: char)
    ensures
        split(s, sep).len() >= 1,
    decreases s.len(),
{
    if s.len() > 0 {
        lemma_split_nonempty(s.drop_last(), sep);
    }
}

/// Splitting a text that ends in a separator-free tail `b` extends the last
/// piece of the split of the rest by `b`.
pub proof fn lemma_split_append_plain(a: Seq<char>, b: Seq<char>, sep: char)
    requires
        !b.contains(sep),
    ensures
        split(a + b, sep).len() == split(a, sep).len(),
        split(a + b, sep) == split(a, sep).update(
            split(a, sep).len() - 1,
            split(a, sep).last() + b,
        ),
    decreases b.len(),
{
    lemma_split_nonempty(a, sep);
    if b.len() == 0 {
        assert(a + b == a);
        assert(split(a, sep).last() + b == split(a, sep).last());
        assert(split(a, sep).update(split(a, sep).len() - 1, split(a, sep).last()) == split(
            a,
            sep,
        ));
    } else {
        let b0 = b.drop_last();
        assert(!b0.contains(sep)) by {
            if b0.contains(sep) {
                let k = choose|k: int| 0 <= k < b0.len() && b0[k] == sep;
                assert(b[k] == sep);
            }
        }
        lemma_split_append_plain(a, b0, sep);
        assert((a + b).drop_last() == a + b0);
        assert((a + b).last() == b.last());
        assert(b.last() != sep) by {
            assert(b[b.len() - 1] == b.last());
        }
        assert(split(a, sep).last() + b0 + seq![b.last()] == split(a, sep).last() + b) by {
            assert(b0.push(b.last()) == b);
        }
    }
}

/// Splitting after a separator starts a new piece.
pub proof fn lemma_split_push_sep(a: Seq<char>, sep: char)
    ensures
        split(a.push(sep), sep) == split(a, sep).push(Seq::<char>::empty()),
{
    assert(a.push(sep).drop_last() == a);
}

/// Joining separator-free pieces and splitting again gives the pieces back.
pub proof fn lemma_split_join(parts: Seq<Seq<char>>, sep: char)
    requires
        parts.len() >= 1,
        forall|i: int| 0 <= i < parts.len() ==> !(#[trigger] parts[i]).contains(sep),
    ensures
        split(join(parts, sep), sep) == parts,
    decreases parts.len(),
{
    if parts.len() == 1 {
        let e = Seq::<char>::empty();
        lemma_split_append_plain(e, parts[0], sep);
        assert(e + parts[0] == parts[0]);
        assert(split(e, sep) == seq![e]);
        assert(seq![e].update(0, e + parts[0]) == parts);
    } else {
        let init = parts.drop_last();
        assert forall|i: int| 0 <= i < init.len() implies !(#[trigger] init[i]).contains(sep) by {
            assert(init[i] == parts[i]);
        }
        lemma_split_join(init, sep);
        let j = join(init, sep);
        lemma_split_push_sep(j, sep);
        assert(!parts.last().contains(sep)) by {
            assert(parts[parts.len() - 1] == parts.last());
        }
        lemma_split_append_plain(j.push(sep), parts.last(), sep);
        let p = split(j.push(sep), sep);
        assert(p == init.push(Seq::<char>::empty()));
        assert(p.last() + parts.last() == parts.last());
        assert(p.update(p.len() - 1, p.last() + parts.last()) =~= parts);
    }
}

/// The pieces of `v` split at every `sep`.
pub fn split_chars(v: &[char], sep: char) -> (r: Vec<Vec<char>>)
    ensures
        r@.len() == split(v@, sep).len(),
        forall|i: int| 0 <= i < r@.len() ==> (#[trigger] r@[i])@ == split(v@, sep)[i],
{
    let mut parts: Vec<Vec<char>> = Vec::new();
    let mut cur: Vec<char> = Vec::new();
    let mut i: usize = 0;
    assert(v@.take(0) =~= Seq::<char>::empty());
    while i < v.len()
        invariant
            i <= v.len(),
            parts@.len() + 1 == split(v@.take(i as int), sep).len(),
            forall|k: int|
                0 <= k < parts@.len() ==> (#[trigger] parts@[k])@ == split(
                    v@.take(i as int),
                    sep,
                )[k],
            cur@ == split(v@.take(i as int), sep).last(),
        decreases v.len() - i,
    {
        let ghost prev = v@.take(i as int);
        assert(v@.take(i + 1).drop_last() == prev);
        assert(v@.take(i + 1).last() == v@[i as int]);
        proof {
            lemma_split_nonempty(prev, sep);
        }
        if v[i] == sep {
            let mut done: Vec<char> = Vec::new();
            std::mem::swap(&mut done, &mut cur);
            parts.push(done);
        } else {
            cur.push(v[i]);
        }
        i += 1;
    }
    assert(v@.take(v.len() as int) == v@);
    parts.push(cur);
    parts
}

/// The index of the first `c` in `s`, if any.
pub open spec fn find_char(s: Seq<char>, c: char) -> Option<int> {
    if s.contains(c) {
        Some(choose|i: int| 0 <= i < s.len() && s[i] == c && forall|j: int| 0 <= j < i ==> s[j] != c)
    } else {
        None
    }
}

/// The first `c` of `v` is at `i` when nothing before `i` is `c`.
pub proof fn lemma_find_char_is(v: Seq<char>, c: char, i: int)
    requires
        0 <= i < v.len(),
        v[i] == c,
        forall|j: int| 0 <= j < i ==> v[j] != c,
    ensures
        find_char(v, c) == Some(i),
{
    assert(v.contains(c));
    let k = choose|k: int| 0 <= k < v.len() && v[k] == c && forall|j: int| 0 <= j < k ==> v[j] != c;
    assert(k == i);
}

/// The index of the first `c` in `v`, if any (as for std's `split_once`).
pub fn find_char_index(v: &[char], c: char) -> (r: Option<usize>)
    ensures
        match r {
            Some(i) => i < v.len() && v@[i as int] == c && forall|j: int|
                0 <= j < i ==> v@[j] != c,
            None => !v@.contains(c),
        },
        r is Some <==> v@.contains(c),
{
    let mut i: usize = 0;
    while i < v.len()
        invariant
            i <= v.len(),
            forall|j: int| 0 <= j < i ==> v@[j] != c,
        decreases v.len() - i,
    {
        if v[i] == c {
            return Some(i);
        }
        i += 1;
    }
    None
}


/// Whether `c` is an ASCII decimal digit.
pub open spec fn is_digit(c: char) -> bool {
    '0' <= c && c <= '9'
}

/// Whether every character of `s` is a decimal digit.
pub open spec fn all_digits(s: Seq<char>) -> bool {
    forall|i: int| 0 <= i < s.len() ==> is_digit(#[trigger] s[i])
}

/// The number that a run of decimal digits spells.
pub open spec fn digits_value(s: Seq<char>) -> nat
    decreases s.len(),
{
    if s.len() == 0 {
        0
    } else {
        digits_value(s.drop_last()) * 10 + ((s.last() as u32) - ('0' as u32)) as nat
    }
}

/// The digits of an unsigned number in std's `FromStr` syntax: an optional
/// leading `+`.
pub open spec fn unsigned_digits(s: Seq<char>) -> Seq<char> {
    if s.len() > 0 && s[0] == '+' {
        s.drop_first()
    } else {
        s
    }
}

/// The value std's integer `FromStr` gives for an unsigned type whose
/// largest value is `max`: an optional `+` and one or more ASCII digits whose
/// value does not exceed `max`.
pub open spec fn parse_unsigned(s: Seq<char>, max: nat) -> Option<nat> {
    let d = unsigned_digits(s);
    if d.len() > 0 && all_digits(d) && digits_value(d) <= max {
        Some(digits_value(d))
    } else {
        None
    }
}

/// The value std's `FromStr` gives for `isize`: an optional sign and one or
/// more ASCII digits, in range.
pub open spec fn parse_isize_spec(s: Seq<char>) -> Option<int> {
    if s.len() > 0 && s[0] == '-' {
        let d = s.drop_first();
        if d.len() > 0 && all_digits(d) && digits_value(d) <= (isize::MAX as nat) + 1 {
            Some(-(digits_value(d) as int))
        } else {
            None
        }
    } else {
        match parse_unsigned(s, isize::MAX as nat) {
            Some(n) => Some(n as int),
            None => None,
        }
    }
}

proof fn lemma_digits_value_prefix(d: Seq<char>, i: int)
    requires
        0 <= i <= d.len(),
        all_digits(d),
    ensures
        digits_value(d.take(i)) <= digits_value(d),
    decreases d.len() - i,
{
    if i < d.len() {
        lemma_digits_value_prefix(d, i + 1);
        assert(d.take(i + 1).drop_last() == d.take(i));
        assert(is_digit(d[i]));
    } else {
        assert(d.take(i) == d);
    }
}

/// Reads the decimal digits `d[start..]` with a bound of `max`.
fn digits_upto(d: &[char], start: usize, max: u64) -> (r: Option<u64>)
    requires
        start <= d.len(),
    ensures
        ({
            let ds = d@.subrange(start as int, d@.len() as int);
            match r {
                Some(n) => all_digits(ds) && digits_value(ds) <= max && n == digits_value(ds),
                None => !(all_digits(ds) && digits_value(ds) <= max),
            }
        }),
{
    let ghost ds = d@.subrange(start as int, d@.len() as int);
    let mut value: u64 = 0;
    let mut i: usize = start;
    while i < d.len()
        invariant
            start <= i <= d.len(),
            ds == d@.subrange(start as int, d@.len() as int),
            all_digits(ds.take(i - start)),
            value == digits_value(ds.take(i - start)),
            value <= max,
        decreases d.len() - i,
    {
        let c = d[i];
        assert(ds[i - start] == c);
        if !('0' <= c && c <= '9') {
            assert(!all_digits(ds));
            return None;
        }
        let digit = (c as u32 - '0' as u32) as u64;
        assert(ds.take(i + 1 - start).drop_last() == ds.take(i - start));
        assert(ds.take(i + 1 - start).last() == c);
        assert forall|k: int| 0 <= k < i + 1 - start implies is_digit(
            #[trigger] ds.take(i + 1 - start)[k],
        ) by {
            if k < i - start {
                assert(ds.take(i + 1 - start)[k] == ds.take(i - start)[k]);
            }
        }
        if digit > max || value > (max - digit) / 10 {
            proof {
                assert(digits_value(ds.take(i + 1 - start)) == value * 10 + digit);
                if digit <= max {
                    assert(value * 10 + digit > max) by (nonlinear_arith)
                        requires
                            value > (max - digit) / 10,
                            digit <= max,
                    ;
                }
                if all_digits(ds) {
                    lemma_digits_value_prefix(ds, i + 1 - start);
                }
            }
            return None;
        }
        assert(value * 10 + digit <= max) by (nonlinear_arith)
            requires
                value <= (max - digit) / 10,
                digit <= max,
        ;
        value = value * 10 + digit;
        i += 1;
    }
    assert(ds.take(d.len() - start) == ds);
    Some(value)
}

/// Parses an unsigned decimal number no larger than `max`, as std's
/// integer `FromStr` does.
pub fn parse_unsigned_chars(s: &[char], max: u64) -> (r: Option<u64>)
    ensures
        match parse_unsigned(s@, max as nat) {
            Some(n) => r == Some(n as u64),
            None => r is None,
        },
{
    let start: usize = if s.len() > 0 && s[0] == '+' {
        1
    } else {
        0
    };
    assert(unsigned_digits(s@) == s@.subrange(start as int, s@.len() as int));
    if start == s.len() {
        return None;
    }
    digits_upto(s, start, max)
}

/// Parses a `usize` as `str::parse::<usize>` does.
pub fn parse_usize_chars(s: &[char]) -> (r: Option<usize>)
    ensures
        match parse_unsigned(s@, usize::MAX as nat) {
            Some(n) => r == Some(n as usize),
            None => r is None,
        },
{
    match parse_unsigned_chars(s, usize::MAX as u64) {
        Some(n) => Some(n as usize),
        None => None,
    }
}

/// Parses a `usize` from a string slice as `str::parse::<usize>` does.
pub fn parse_usize_str(s: &str) -> (r: Option<usize>)
    ensures
        match parse_unsigned(s@, usize::MAX as nat) {
            Some(n) => r == Some(n as usize),
            None => r is None,
        },
{
    let v = chars_of(s);
    parse_usize_chars(v.as_slice())
}

/// Parses an `isize` as `str::parse::<isize>` does.
pub fn parse_isize_chars(s: &[char]) -> (r: Option<isize>)
    ensures
        match parse_isize_spec(s@) {
            Some(n) => r == Some(n as isize),
            None => r is None,
        },
{
    if s.len() > 0 && s[0] == '-' {
        assert(s@.drop_first() == s@.subrange(1, s@.len() as int));
        if s.len() == 1 {
            return None;
        }
        match digits_upto(s, 1, (isize::MAX as u64) + 1) {
            Some(n) => {
                if n == (isize::MAX as u64) + 1 {
                    Some(isize::MIN)
                } else {
                    Some(-(n as isize))
                }
            },
            None => None,
        }
    } else {
        match parse_unsigned_chars(s, isize::MAX as u64) {
            Some(n) => Some(n as isize),
            None => None,
        }
    }
}

/// The character for a decimal digit.
pub open spec fn digit_char(d: nat) -> char {
    if d == 0 {
        '0'
    } else if d == 1 {
        '1'
    } else if d == 2 {
        '2'
    } else if d == 3 {
        '3'
    } else if d == 4 {
        '4'
    } else if d == 5 {
        '5'
    } else if d == 6 {
        '6'
    } else if d == 7 {
        '7'
    } else if d == 8 {
        '8'
    } else {
        '9'
    }
}

/// The decimal spelling of `n`, without leading zeros.
pub open spec fn decimal(n: nat) -> Seq<char>
    decreases n,
{
    if n < 10 {
        seq![digit_char(n)]
    } else {
        decimal(n / 10).push(digit_char(n % 10))
    }
}

/// The decimal spelling of a signed number.
pub open spec fn signed_decimal(n: int) -> Seq<char> {
    if n < 0 {
        seq!['-'] + decimal((-n) as nat)
    } else {
        decimal(n as nat)
    }
}

/// Formats `n` in decimal.
pub fn decimal_string(n: u64) -> (r: String)
    ensures
        r@ == decimal(n as nat),
{
    let mut rest: u64 = n;
    let mut acc: Vec<char> = Vec::new();
    while rest >= 10
        invariant
            decimal(n as nat) == decimal(rest as nat) + acc@,
        decreases rest,
    {
        let d = rest % 10;
        let c = char_for_digit(d);
        assert(decimal(rest as nat) == decimal((rest / 10) as nat).push(digit_char((rest % 10) as nat)));
        assert(decimal((rest / 10) as nat).push(c) + acc@ == decimal((rest / 10) as nat) + seq![c] + acc@);
        acc.insert(0, c);
        assert(acc@ == seq![c] + acc@.drop_first());
        rest = rest / 10;
    }
    let c = char_for_digit(rest);
    acc.insert(0, c);
    string_from_chars(acc.as_slice())
}

fn char_for_digit(d: u64) -> (c: char)
    requires
        d < 10,
    ensures
        c == digit_char(d as nat),
{
    let c = if d == 0 {
        '0'
    } else if d == 1 {
        '1'
    } else if d == 2 {
        '2'
    } else if d == 3 {
        '3'
    } else if d == 4 {
        '4'
    } else if d == 5 {
        '5'
    } else if d == 6 {
        '6'
    } else if d == 7 {
        '7'
    } else if d == 8 {
        '8'
    } else {
        '9'
    };
    c
}

/// Formats a `usize` in decimal.
pub fn usize_string(n: usize) -> (r: String)
    ensures
        r@ == decimal(n as nat),
{
    decimal_string(n as u64)
}

/// Formats an `isize` in decimal.
pub fn isize_string(n: isize) -> (r: String)
    ensures
        r@ == signed_decimal(n as int),
{
    if n < 0 {
        let magnitude: u64 = if n == isize::MIN {
            (isize::MAX as u64) + 1
        } else {
            (-n) as u64
        };
        let digits = decimal_string(magnitude);
        let mut r = String::new();
        push_char(&mut r, '-');
        r.append(digits.as_str());
        r
    } else {
        decimal_string(n as u64)
    }
}

proof fn lemma_digit_char_value(d: nat)
    requires
        d < 10,
    ensures
        is_digit(digit_char(d)),
        (digit_char(d) as u32) - ('0' as u32) == d,
{
}

pub proof fn lemma_decimal_digits(n: nat)
    ensures
        decimal(n).len() > 0,
        all_digits(decimal(n)),
        digits_value(decimal(n)) == n,
    decreases n,
{
    lemma_digit_char_value(n % 10);
    if n < 10 {
        assert(decimal(n).drop_last() =~= Seq::<char>::empty());
        assert(digits_value(Seq::<char>::empty()) == 0);
        assert(n % 10 == n);
    }
    if n >= 10 {
        lemma_decimal_digits(n / 10);
        let p = decimal(n / 10);
        assert(decimal(n).drop_last() == p);
        assert(n == (n / 10) * 10 + n % 10);
        assert(decimal(n).last() == digit_char(n % 10));
        assert(digits_value(decimal(n)) == digits_value(p) * 10 + ((digit_char(n % 10) as u32) - ('0' as u32)) as nat);
        assert forall|i: int| 0 <= i < decimal(n).len() implies is_digit(
            #[trigger] decimal(n)[i],
        ) by {
            if i < p.len() {
                assert(decimal(n)[i] == p[i]);
            }
        }
    }
}

/// Formatting a number in decimal and parsing it back gives the number.
pub proof fn lemma_parse_decimal(n: nat, max: nat)
    requires
        n <= max,
    ensures
        parse_unsigned(decimal(n), max) == Some(n),
{
    lemma_decimal_digits(n);
    assert(is_digit(decimal(n)[0]));
}

/// Formatting a signed number in decimal and parsing it as `isize` gives
/// the number back.
pub proof fn lemma_parse_signed_decimal(n: isize)
    ensures
        parse_isize_spec(signed_decimal(n as int)) == Some(n as int),
{
    if n < 0 {
        let m = (-(n as int)) as nat;
        lemma_decimal_digits(m);
        let s = seq!['-'] + decimal(m);
        assert(s.drop_first() == decimal(m));
    } else {
        lemma_parse_decimal(n as nat, isize::MAX as nat);
        lemma_decimal_digits(n as nat);
        assert(is_digit(decimal(n as nat)[0]));
    }
}


/// The lowercase hexadecimal digit for `v` (below 16).
pub open spec fn hex_char(v: nat) -> char {
    if v < 10 {
        digit_char(v)
    } else if v == 10 {
        'a'
    } else if v == 11 {
        'b'
    } else if v == 12 {
        'c'
    } else if v == 13 {
        'd'
    } else if v == 14 {
        'e'
    } else {
        'f'
    }
}

/// Two lowercase hexadecimal digits per byte, high nibble first.
pub open spec fn hex(bytes: Seq<u8>) -> Seq<char>
    decreases bytes.len(),
{
    if bytes.len() == 0 {
        Seq::<char>::empty()
    } else {
        hex(bytes.drop_last()) + seq![
            hex_char((bytes.last() / 16) as nat),
            hex_char((bytes.last() % 16) as nat),
        ]
    }
}

/// The value of a hexadecimal digit byte (either case).
pub open spec fn hex_nibble(b: u8) -> Option<nat> {
    if 48 <= b && b <= 57 {
        Some((b - 48) as nat)
    } else if 97 <= b && b <= 102 {
        Some((b - 87) as nat)
    } else if 65 <= b && b <= 70 {
        Some((b - 55) as nat)
    } else {
        None
    }
}

/// Whether every byte is a hexadecimal digit.
pub open spec fn all_hex(b: Seq<u8>) -> bool {
    forall|i: int| 0 <= i < b.len() ==> (#[trigger] hex_nibble(b[i])) is Some
}

/// The bytes that consecutive pairs of hexadecimal digits spell.
pub open spec fn unhex(b: Seq<u8>) -> Seq<u8>
    decreases b.len(),
{
    if b.len() < 2 {
        Seq::<u8>::empty()
    } else {
        unhex(b.take(b.len() - 2)).push(
            (hex_nibble(b[b.len() - 2]).unwrap() * 16 + hex_nibble(b[b.len() - 1]).unwrap()) as u8,
        )
    }
}

/// Decoding a hexadecimal payload given as its bytes: an odd length is
/// refused first, then any byte that is not a hexadecimal digit.
pub open spec fn decode_hex_spec(b: Seq<u8>) -> Result<Seq<u8>, Seq<char>> {
    if b.len() % 2 != 0 {
        Err("hex payload has odd length"@)
    } else if !all_hex(b) {
        Err("hex payload contains non-hex byte"@)
    } else {
        Ok(unhex(b))
    }
}

pub(crate) fn hex_char_exec(v: u8) -> (c: char)
    requires
        v < 16,
    ensures
        c == hex_char(v as nat),
{
    if v < 10 {
        char_for_digit(v as u64)
    } else if v == 10 {
        'a'
    } else if v == 11 {
        'b'
    } else if v == 12 {
        'c'
    } else if v == 13 {
        'd'
    } else if v == 14 {
        'e'
    } else {
        'f'
    }
}

/// Encodes bytes as lowercase hexadecimal text.
pub fn encode_hex(bytes: &[u8]) -> (r: String)
    ensures
        r@ == hex(bytes@),
{
    let mut out = String::new();
    let mut i: usize = 0;
    while i < bytes.len()
        invariant
            i <= bytes.len(),
            out@ == hex(bytes@.take(i as int)),
        decreases bytes.len() - i,
    {
        let b = bytes[i];
        assert(bytes@.take(i + 1).drop_last() == bytes@.take(i as int));
        assert(bytes@.take(i + 1).last() == b);
        let hi = hex_char_exec(b / 16);
        let lo = hex_char_exec(b % 16);
        push_char(&mut out, hi);
        push_char(&mut out, lo);
        assert(out@ == hex(bytes@.take(i as int)) + seq![hi, lo]);
        i += 1;
    }
    assert(bytes@.take(bytes.len() as int) == bytes@);
    out
}

fn hex_nibble_exec(b: u8) -> (r: Option<u8>)
    ensures
        match hex_nibble(b) {
            Some(v) => r == Some(v as u8),
            None => r is None,
        },
{
    if 48 <= b && b <= 57 {
        Some(b - 48)
    } else if 97 <= b && b <= 102 {
        Some(b - 87)
    } else if 65 <= b && b <= 70 {
        Some(b - 55)
    } else {
        None
    }
}

/// Decodes a hexadecimal payload given as bytes.
pub fn decode_hex_bytes(b: &[u8]) -> (r: Result<Vec<u8>, String>)
    ensures
        match decode_hex_spec(b@) {
            Ok(v) => r matches Ok(x) && x@ == v,
            Err(m) => r matches Err(e) && e@ == m,
        },
{
    if b.len() % 2 != 0 {
        return Err(String::from_str("hex payload has odd length"));
    }
    let mut out: Vec<u8> = Vec::new();
    let mut i: usize = 0;
    while i < b.len()
        invariant
            b.len() % 2 == 0,
            i <= b.len(),
            i % 2 == 0,
            forall|k: int| 0 <= k < i ==> (#[trigger] hex_nibble(b@[k])) is Some,
            out@ == unhex(b@.take(i as int)),
        decreases b.len() - i,
    {
        let hi = hex_nibble_exec(b[i]);
        let lo = hex_nibble_exec(b[i + 1]);
        match (hi, lo) {
            (Some(h), Some(l)) => {
                let ghost t = b@.take(i + 2);
                assert(t.take(t.len() - 2) == b@.take(i as int));
                assert(t[t.len() - 2] == b@[i as int]);
                assert(t[t.len() - 1] == b@[i + 1]);
                out.push(h * 16 + l);
                i += 2;
            },
            _ => {
                assert(!all_hex(b@));
                return Err(String::from_str("hex payload contains non-hex byte"));
            },
        }
    }
    assert(b@.take(b.len() as int) == b@);
    Ok(out)
}

/// The UTF-8 decoding of bytes (std's `String::from_utf8`): `None` when the
/// bytes are not valid UTF-8.
#[verifier::external_body]
pub(crate) fn string_from_utf8(bytes: Vec<u8>) -> (r: Option<String>)
    ensures
        r is Some <==> vstd::utf8::valid_utf8(bytes@),
        r matches Some(s) ==> s@ == vstd::utf8::decode_utf8(bytes@),
{
    String::from_utf8(bytes).ok()
}

/// The bytes of a character sequence as UTF-8.
pub fn utf8_bytes(v: &[char]) -> (r: Vec<u8>)
    ensures
        r@ == vstd::utf8::encode_utf8(v@),
{
    let s = string_from_chars(v);
    s.as_str().as_bytes_vec()
}

/// Whether every character is ASCII.
pub open spec fn all_ascii(s: Seq<char>) -> bool {
    forall|i: int| 0 <= i < s.len() ==> (#[trigger] s[i] as u32) < 128
}

/// The bytes of an ASCII character sequence.
pub open spec fn ascii_bytes(s: Seq<char>) -> Seq<u8> {
    Seq::new(s.len(), |i: int| (s[i] as u32) as u8)
}

pub proof fn lemma_encode_utf8_ascii(s: Seq<char>)
    requires
        all_ascii(s),
    ensures
        vstd::utf8::encode_utf8(s) == ascii_bytes(s),
    decreases s.len(),
{
    if s.len() > 0 {
        let rest = s.drop_first();
        assert(all_ascii(rest)) by {
            assert forall|i: int| 0 <= i < rest.len() implies (#[trigger] rest[i] as u32) < 128 by {
                assert(rest[i] == s[i + 1]);
            }
        }
        lemma_encode_utf8_ascii(rest);
        let u = s[0] as u32;
        assert(u < 128);
        assert((u & 0x7F) as u8 == u as u8) by (bit_vector)
            requires
                u < 128,
        ;
        assert(vstd::utf8::encode_scalar(u) == seq![u as u8]);
        assert(vstd::utf8::encode_utf8(s) =~= ascii_bytes(s));
    }
}

proof fn lemma_hex_char_ascii(v: nat)
    requires
        v < 16,
    ensures
        (hex_char(v) as u32) < 128,
        hex_nibble((hex_char(v) as u32) as u8) == Some(v),
{
}

proof fn lemma_hex_ascii(b: Seq<u8>)
    ensures
        all_ascii(hex(b)),
        hex(b).len() == 2 * b.len(),
        all_hex(ascii_bytes(hex(b))),
        unhex(ascii_bytes(hex(b))) == b,
    decreases b.len(),
{
    if b.len() > 0 {
        let p = b.drop_last();
        lemma_hex_ascii(p);
        let last = b.last();
        let hi = hex_char((last / 16) as nat);
        let lo = hex_char((last % 16) as nat);
        lemma_hex_char_ascii((last / 16) as nat);
        lemma_hex_char_ascii((last % 16) as nat);
        let h = hex(b);
        assert(h == hex(p) + seq![hi, lo]);
        assert forall|i: int| 0 <= i < h.len() implies (#[trigger] h[i] as u32) < 128 by {
            if i < hex(p).len() {
                assert(h[i] == hex(p)[i]);
            }
        }
        let ab = ascii_bytes(h);
        assert forall|i: int| 0 <= i < ab.len() implies (#[trigger] hex_nibble(ab[i])) is Some by {
            if i < hex(p).len() {
                assert(ab[i] == ascii_bytes(hex(p))[i]);
            }
        }
        assert(ab.take(ab.len() - 2) =~= ascii_bytes(hex(p)));
        assert(ab[ab.len() - 2] == (hi as u32) as u8);
        assert(ab[ab.len() - 1] == (lo as u32) as u8);
        assert((last / 16) * 16 + last % 16 == last);
        assert(b == p.push(last));
    }
}

/// The UTF-8 form of hexadecimal text has two bytes per encoded byte.
pub proof fn lemma_hex_utf8_len(b: Seq<u8>)
    ensures
        vstd::utf8::encode_utf8(hex(b)).len() == 2 * b.len(),
{
    lemma_hex_ascii(b);
    lemma_encode_utf8_ascii(hex(b));
}

/// Hex-encoding bytes and decoding the UTF-8 bytes of that text gives the
/// bytes back.
pub proof fn lemma_hex_roundtrip(b: Seq<u8>)
    ensures
        decode_hex_spec(vstd::utf8::encode_utf8(hex(b))) == Ok::<Seq<u8>, Seq<char>>(b),
{
    lemma_hex_ascii(b);
    lemma_encode_utf8_ascii(hex(b));
    assert(ascii_bytes(hex(b)).len() == 2 * b.len());
}


/// What std's `Debug` formatting of a string slice produces: the text in
/// double quotes with escapes.
pub uninterp spec fn debug_quoted(s: Seq<char>) -> Seq<char>;

/// Formats a string slice as std's `{:?}` does.
#[verifier::external_body]
pub(crate) fn debug_quote(s: &str) -> (r: String)
    ensures
        r@ == debug_quoted(s@),
{
    format!("{s:?}")
}


/// `l` without one trailing carriage return.
pub open spec fn strip_cr(l: Seq<char>) -> Seq<char> {
    if l.len() > 0 && l.last() == '\r' {
        l.drop_last()
    } else {
        l
    }
}

/// The lines of a text as std's `str::lines` gives them: split at `\n`,
/// a `\r` before the `\n` dropped, and no empty line after a final `\n`.
pub open spec fn text_lines(s: Seq<char>) -> Seq<Seq<char>> {
    let parts = split(s, '\n');
    let body = Seq::new((parts.len() - 1) as nat, |k: int| strip_cr(parts[k]));
    if parts.last().len() == 0 {
        body
    } else {
        body.push(parts.last())
    }
}

/// The lines of a text, as std's `str::lines` gives them.
pub fn lines_of(chars: &Vec<char>) -> (r: Vec<Vec<char>>)
    ensures
        r@.len() == text_lines(chars@).len(),
        forall|k: int| 0 <= k < r@.len() ==> (#[trigger] r@[k])@ == text_lines(chars@)[k],
{
    let parts = split_chars(chars, '\n');
    let ghost pv = split(chars@, '\n');
    proof {
        lemma_split_nonempty(chars@, '\n');
    }
    let n = parts.len();
    let mut out: Vec<Vec<char>> = Vec::new();
    let mut k: usize = 0;
    while k + 1 < n
        invariant
            n == parts@.len() == pv.len() >= 1,
            pv == split(chars@, '\n'),
            forall|j: int| 0 <= j < parts@.len() ==> (#[trigger] parts@[j])@ == pv[j],
            k + 1 <= n,
            out@.len() == k,
            forall|j: int| 0 <= j < k ==> (#[trigger] out@[j])@ == strip_cr(pv[j]),
        decreases n - k,
    {
        let line = &parts[k];
        if line.len() > 0 && line[line.len() - 1] == '\r' {
            let stripped = sub_chars(line, 0, line.len() - 1);
            assert(stripped@ =~= line@.drop_last());
            out.push(stripped);
        } else {
            out.push(sub_chars(line, 0, line.len()));
            assert(line@.subrange(0, line@.len() as int) =~= line@);
        }
        k = k + 1;
    }
    let last = &parts[n - 1];
    if last.len() > 0 {
        out.push(sub_chars(last, 0, last.len()));
        assert(last@.subrange(0, last@.len() as int) =~= last@);
    }
    out
}

} // verus!
