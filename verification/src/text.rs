//! Character-level helpers: comparing and searching text, writing numbers
//! in decimal, reading them back.

use vstd::prelude::*;

verus! {

/// `String::push` of std appends one character at the end of the string and
/// leaves what was there unchanged.
pub assume_specification[ String::push ](s: &mut String, ch: char)
    ensures
        final(s)@ == old(s)@.push(ch),
;

/// The character for a decimal digit.
pub open spec fn digit(d: nat) -> char {
    (48 + d) as char
}

/// A number in decimal, most significant digit first, no leading zeros.
pub open spec fn decimal(n: nat) -> Seq<char>
    decreases n,
{
    if n < 10 {
        seq![digit(n)]
    } else {
        decimal(n / 10).push(digit(n % 10))
    }
}

/// Append `n` in decimal.
pub fn push_decimal(buf: &mut String, n: u64)
    ensures
        final(buf)@ == old(buf)@ + decimal(n as nat),
    decreases n,
{
    if n >= 10 {
        push_decimal(buf, n / 10);
    }
    let d: u8 = (n % 10) as u8;
    buf.push((48u8 + d) as char);
    assert(buf@ =~= old(buf)@ + decimal(n as nat));
}

/// The characters of a string.
pub fn to_chars(s: &str) -> (v: Vec<char>)
    ensures
        v@ == s@,
{
    let mut v: Vec<char> = Vec::new();
    for c in it: s.chars()
        invariant
            v@ == s@.take(it.index()),
            it.seq() == s@,
    {
        v.push(c);
    }
    v
}

/// Whether `needle` stands in `hay` from position `at` on.
fn matches_at(hay: &Vec<char>, at: usize, needle: &Vec<char>) -> (r: bool)
    requires
        at + needle@.len() <= hay@.len(),
    ensures
        r == (hay@.subrange(at as int, at + needle@.len()) == needle@),
{
    let mut i: usize = 0;
    while i < needle.len()
        invariant
            at + needle@.len() <= hay.len(),
            i <= needle@.len(),
            forall|j: int| 0 <= j < i ==> hay@[at + j] == needle@[j],
        decreases needle@.len() - i,
    {
        if hay[at + i] != needle[i] {
            assert(hay@.subrange(at as int, at + needle@.len())[i as int] == hay@[at + i]);
            return false;
        }
        i += 1;
    }
    assert(hay@.subrange(at as int, at + needle@.len()) =~= needle@);
    true
}

/// Whether two strings hold the same characters.
pub fn same(a: &str, b: &str) -> (r: bool)
    ensures
        r == (a@ == b@),
{
    let x = to_chars(a);
    let y = to_chars(b);
    if x.len() != y.len() {
        return false;
    }
    assert(x@.subrange(0, y@.len() as int) =~= x@);
    matches_at(&x, 0, &y)
}

/// Whether `s` begins with `c`.
pub open spec fn begins_with(s: Seq<char>, c: char) -> bool {
    s.len() > 0 && s[0] == c
}

/// Whether `s` begins with `c`.
pub fn starts_with(s: &str, c: char) -> (r: bool)
    ensures
        r == begins_with(s@, c),
{
    !s.is_empty() && s.get_char(0) == c
}

/// `needle` occurs somewhere in `hay`.
pub open spec fn occurs(hay: Seq<char>, needle: Seq<char>) -> bool {
    exists|i: int|
        0 <= i && i + needle.len() <= hay.len() && #[trigger] hay.subrange(i, i + needle.len())
            == needle
}

/// Whether `needle` occurs somewhere in `hay`.
pub fn contains(hay: &str, needle: &str) -> (r: bool)
    ensures
        r == occurs(hay@, needle@),
{
    let h = to_chars(hay);
    let n = to_chars(needle);
    if n.len() > h.len() {
        return false;
    }
    let mut i: usize = 0;
    while i <= h.len() - n.len()
        invariant
            h@ == hay@,
            n@ == needle@,
            n@.len() <= h@.len(),
            i <= h@.len() - n@.len() + 1,
            forall|j: int|
                0 <= j < i ==> #[trigger] h@.subrange(j, j + n@.len()) != n@,
        decreases h@.len() - n@.len() + 1 - i,
    {
        if matches_at(&h, i, &n) {
            return true;
        }
        if i == h.len() - n.len() {
            return false;
        }
        i += 1;
    }
    false
}

/// Every character is a decimal digit.
pub open spec fn all_digits(s: Seq<char>) -> bool {
    forall|i: int| 0 <= i < s.len() ==> '0' <= #[trigger] s[i] <= '9'
}

/// The value of a string of decimal digits.
pub open spec fn digits_value(s: Seq<char>) -> nat
    decreases s.len(),
{
    if s.len() == 0 {
        0
    } else {
        (digits_value(s.drop_last()) * 10 + (s.last() as int - 48)) as nat
    }
}

/// What a string says as an unsigned number: an optional `+`, then at least
/// one digit and nothing else.
pub open spec fn uint_value(s: Seq<char>) -> Option<nat> {
    let body = if begins_with(s, '+') {
        s.skip(1)
    } else {
        s
    };
    if body.len() > 0 && all_digits(body) {
        Some(digits_value(body))
    } else {
        None
    }
}

/// The number `s` says, where it is at most `max`.
pub open spec fn uint_up_to(s: Seq<char>, max: nat) -> Option<u64> {
    match uint_value(s) {
        Some(v) => if v <= max {
            Some(v as u64)
        } else {
            None
        },
        None => None,
    }
}

proof fn lemma_digits_value_grows(s: Seq<char>, i: int)
    requires
        0 <= i <= s.len(),
        all_digits(s),
    ensures
        digits_value(s.take(i)) <= digits_value(s),
    decreases s.len() - i,
{
    if i == s.len() {
        assert(s.take(i) =~= s);
    } else {
        lemma_digits_value_grows(s, i + 1);
        assert(s.take(i + 1).drop_last() =~= s.take(i));
        assert('0' <= s[i] <= '9');
    }
}

/// Read an unsigned number of at most `max`.
pub fn parse_uint(s: &str, max: u64) -> (r: Option<u64>)
    ensures
        r == uint_up_to(s@, max as nat),
{
    let v = to_chars(s);
    let start: usize = if v.len() > 0 && v[0] == '+' {
        1
    } else {
        0
    };
    if start == v.len() {
        return None;
    }
    let ghost body = v@.skip(start as int);
    assert(body == if begins_with(s@, '+') { s@.skip(1) } else { s@ }) by {
        if start == 0 {
            assert(body =~= s@);
        }
    }
    let mut i: usize = start;
    let mut acc: u128 = 0;
    assert(body.take(0) =~= Seq::<char>::empty());
    while i < v.len()
        invariant
            v@ == s@,
            start <= i <= v@.len(),
            start < v@.len(),
            body == v@.skip(start as int),
            body == if begins_with(s@, '+') { s@.skip(1) } else { s@ },
            all_digits(body.take(i - start)),
            acc == digits_value(body.take(i - start)),
            acc <= max,
        decreases v@.len() - i,
    {
        let c = v[i];
        assert(body[i - start] == c);
        if c < '0' || c > '9' {
            return None;
        }
        let d: u32 = c as u32 - 48;
        assert(body.take(i - start + 1).drop_last() =~= body.take(i - start));
        assert(all_digits(body.take(i - start + 1))) by {
            assert forall|j: int| 0 <= j < i - start + 1 implies '0' <= #[trigger] body.take(
                i - start + 1,
            )[j] <= '9' by {
                if j < i - start {
                    assert(body.take(i - start)[j] == body.take(i - start + 1)[j]);
                }
            }
        }
        acc = acc * 10 + d as u128;
        if acc > max as u128 {
            proof {
                if all_digits(body) {
                    lemma_digits_value_grows(body, i - start + 1);
                }
            }
            return None;
        }
        i += 1;
    }
    assert(body.take(i - start) =~= body);
    Some(acc as u64)
}

/// A digit more makes a number ten times as large, plus the digit.
pub proof fn law_digits_are_decimal(s: Seq<char>, c: char)
    requires
        '0' <= c <= '9',
    ensures
        digits_value(Seq::<char>::empty()) == 0,
        digits_value(s.push(c)) == 10 * digits_value(s) + (c as int - '0' as int),
{
    assert(s.push(c).drop_last() =~= s);
}

proof fn lemma_decimal_reads_back(n: nat)
    ensures
        decimal(n).len() > 0,
        all_digits(decimal(n)),
        digits_value(decimal(n)) == n,
        n > 0 ==> decimal(n)[0] != '0',
        n == 0 ==> decimal(n).len() == 1,
    decreases n,
{
    if n < 10 {
        law_digits_are_decimal(Seq::empty(), digit(n));
        assert(decimal(n) =~= Seq::<char>::empty().push(digit(n)));
    } else {
        lemma_decimal_reads_back(n / 10);
        let d = decimal(n / 10);
        law_digits_are_decimal(d, digit(n % 10));
        assert forall|i: int| 0 <= i < decimal(n).len() implies '0' <= #[trigger] decimal(n)[i]
            <= '9' by {
            if i < d.len() {
                assert(decimal(n)[i] == d[i]);
            }
        }
        assert(decimal(n)[0] == d[0]);
    }
}

/// A number written is digits only, without leading zeros, and is read back
/// as itself, with or without a plus sign, as far as it is let through.
pub proof fn law_numbers_read_back(n: nat, max: u64)
    ensures
        all_digits(decimal(n)),
        digits_value(decimal(n)) == n,
        n > 0 ==> decimal(n)[0] != '0',
        n == 0 ==> decimal(n) == seq!['0'],
        n <= max ==> uint_up_to(decimal(n), max as nat) == Some(n as u64),
        n > max ==> uint_up_to(decimal(n), max as nat) is None,
        n <= max ==> uint_up_to(seq!['+'] + decimal(n), max as nat) == Some(n as u64),
{
    lemma_decimal_reads_back(n);
    let d = decimal(n);
    assert('0' <= d[0] <= '9');
    assert(!begins_with(d, '+'));
    assert((seq!['+'] + d).skip(1) =~= d);
    assert(begins_with(seq!['+'] + d, '+'));
    if n == 0 {
        assert(d =~= seq!['0']);
    }
}

/// Nothing but digits is a number: neither an empty text nor a lone sign, nor
/// one with anything else in it (a plus sign in front excepted).
pub proof fn law_only_digits_are_numbers(s: Seq<char>, max: nat, i: int)
    requires
        uint_up_to(s, max) is Some,
    ensures
        s.len() > 0,
        0 <= i < s.len() ==> '0' <= s[i] <= '9' || (i == 0 && s[0] == '+' && s.len() > 1),
        uint_up_to(s, max)->0 <= max,
{
    if begins_with(s, '+') {
        if 0 < i < s.len() {
            assert(s.skip(1)[i - 1] == s[i]);
        }
    }
}

/// A text occurs in every text that it is a part of, and in none that is
/// shorter; and a text begins with what stands at its front.
pub proof fn law_a_part_occurs(before: Seq<char>, part: Seq<char>, after: Seq<char>, c: char)
    ensures
        occurs(before + part + after, part),
        before.len() < part.len() ==> !occurs(before, part),
        begins_with(seq![c] + after, c),
        !begins_with(Seq::empty(), c),
{
    let all = before + part + after;
    let i = before.len() as int;
    assert(all.subrange(i, i + part.len()) =~= part);
}

/// Where a text occurs, the rest of the other stands before and after it.
pub proof fn law_what_occurs_is_a_part(hay: Seq<char>, part: Seq<char>)
    requires
        occurs(hay, part),
    ensures
        exists|before: Seq<char>, after: Seq<char>| hay == before + part + after,
{
    let i = choose|i: int|
        0 <= i && i + part.len() <= hay.len() && #[trigger] hay.subrange(i, i + part.len()) == part;
    let before = hay.take(i);
    let after = hay.skip(i + part.len());
    assert(hay =~= before + part + after);
}

} // verus!
