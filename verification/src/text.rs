//! Text handling for the asset formats: splitting at a separator, lines,
//! and unsigned decimal numbers.

use vstd::prelude::*;

verus! {

/// The index of the first `sep` in `s`, or the length of `s` if there is
/// none.
pub open spec fn first_sep(s: Seq<char>, sep: char) -> int
    decreases s.len(),
{
    if s.len() == 0 || s[0] == sep {
        0
    } else {
        1 + first_sep(s.drop_first(), sep)
    }
}

/// The fields of `s` between the separators: one more than there are
/// separators, empty fields included.
pub open spec fn split(s: Seq<char>, sep: char) -> Seq<Seq<char>>
    decreases s.len(),
{
    let k = first_sep(s, sep);
    if 0 <= k < s.len() {
        seq![s.take(k)] + split(s.skip(k + 1), sep)
    } else {
        seq![s]
    }
}

/// The characters of a string.
pub fn chars_of(s: &str) -> (v: Vec<char>)
    ensures
        v@ == s@,
{
    let mut v: Vec<char> = Vec::new();
    for c in it: s.chars()
        invariant
            it.seq() == s@,
            v@ == it.seq().take(it.index() as int),
    {
        v.push(c);
    }
    v
}

/// The first separator of `s` is at `n`: none comes before it, and one is
/// there unless `n` is the length of `s`.
pub proof fn lemma_first_sep(s: Seq<char>, sep: char, n: int)
    requires
        0 <= n <= s.len(),
        forall|j: int| 0 <= j < n ==> s[j] != sep,
        n < s.len() ==> s[n] == sep,
    ensures
        first_sep(s, sep) == n,
    decreases s.len(),
{
    if n > 0 {
        lemma_first_sep(s.drop_first(), sep, n - 1);
    }
}

/// The fields that a list of ranges cuts out of a text.
pub open spec fn fields_of(s: Seq<char>, ranges: Seq<(usize, usize)>) -> Seq<Seq<char>> {
    Seq::new(ranges.len(), |k: int| s.subrange(ranges[k].0 as int, ranges[k].1 as int))
}

/// Every range lies within `from` and `to`.
pub open spec fn ranges_within(ranges: Seq<(usize, usize)>, from: int, to: int) -> bool {
    forall|k: int| 0 <= k < ranges.len() ==> from <= (#[trigger] ranges[k]).0 <= ranges[k].1 <= to
}

/// The index of the first `sep` in `chars` from `from` on and before `to`,
/// or `to` if there is none.
pub fn find_sep(chars: &Vec<char>, from: usize, to: usize, sep: char) -> (k: usize)
    requires
        from <= to <= chars@.len(),
    ensures
        from <= k <= to,
        k - from == first_sep(chars@.subrange(from as int, to as int), sep),
{
    let mut k = from;
    while k < to && chars[k] != sep
        invariant
            from <= k <= to <= chars@.len(),
            forall|j: int| from <= j < k ==> chars@[j] != sep,
        decreases to - k,
    {
        k += 1;
    }
    proof {
        lemma_first_sep(chars@.subrange(from as int, to as int), sep, k - from);
    }
    k
}

/// The ranges of the fields of `chars` between `from` and `to` that the
/// separator `sep` parts.
pub fn split_ranges(chars: &Vec<char>, from: usize, to: usize, sep: char) -> (ranges: Vec<
    (usize, usize),
>)
    requires
        from <= to <= chars@.len(),
    ensures
        fields_of(chars@, ranges@) == split(chars@.subrange(from as int, to as int), sep),
        ranges_within(ranges@, from as int, to as int),
        ranges@.len() >= 1,
{
    let mut ranges: Vec<(usize, usize)> = Vec::new();
    let mut start = from;
    let mut more = true;
    let ghost whole = split(chars@.subrange(from as int, to as int), sep);
    while more
        invariant
            from <= start <= to <= chars@.len(),
            whole == split(chars@.subrange(from as int, to as int), sep),
            ranges_within(ranges@, from as int, to as int),
            more ==> fields_of(chars@, ranges@) + split(
                chars@.subrange(start as int, to as int),
                sep,
            ) == whole,
            !more ==> fields_of(chars@, ranges@) == whole && ranges@.len() >= 1,
        decreases to - start + (if more { 1int } else { 0int }),
    {
        let k = find_sep(chars, start, to, sep);
        let ghost rest = chars@.subrange(start as int, to as int);
        ranges.push((start, k));
        proof {
            if k < to {
                assert(rest.take(k - start) =~= chars@.subrange(start as int, k as int));
                assert(rest.skip(k - start + 1) =~= chars@.subrange(k + 1, to as int));
            }
        }
        if k < to {
            start = k + 1;
        } else {
            more = false;
        }
    }
    ranges
}

/// The line without the carriage return at its end, if it has one.
pub open spec fn without_cr(s: Seq<char>) -> Seq<char> {
    if s.len() > 0 && s.last() == '\r' {
        s.drop_last()
    } else {
        s
    }
}

/// The lines of a text. A line ends with a newline, or with a carriage
/// return and a newline; neither belongs to the line. What follows the
/// last newline is a line too unless it is empty.
pub open spec fn lines_of(text: Seq<char>) -> Seq<Seq<char>> {
    let parts = split(text, '\n');
    let n = parts.len() - 1;
    let ended = Seq::new(n as nat, |k: int| without_cr(parts[k]));
    if parts[n].len() == 0 {
        ended
    } else {
        ended.push(parts[n])
    }
}

/// The ranges of the lines of `chars`.
pub fn line_ranges(chars: &Vec<char>) -> (lines: Vec<(usize, usize)>)
    ensures
        fields_of(chars@, lines@) == lines_of(chars@),
        ranges_within(lines@, 0, chars@.len() as int),
{
    let parts = split_ranges(chars, 0, chars.len(), '\n');
    assert(chars@.subrange(0, chars@.len() as int) =~= chars@);
    let ghost fields = split(chars@, '\n');
    let n = parts.len() - 1;
    let mut lines: Vec<(usize, usize)> = Vec::new();
    let mut k: usize = 0;
    while k < n
        invariant
            k <= n,
            n == parts@.len() - 1,
            fields == fields_of(chars@, parts@),
            ranges_within(parts@, 0, chars@.len() as int),
            ranges_within(lines@, 0, chars@.len() as int),
            lines@.len() == k,
            forall|j: int| 0 <= j < k ==> #[trigger] fields_of(chars@, lines@)[j] == without_cr(fields[j]),
        decreases n - k,
    {
        let (a, b) = parts[k];
        let ghost before = lines@;
        if b > a && chars[b - 1] == '\r' {
            lines.push((a, b - 1));
        } else {
            lines.push((a, b));
        }
        assert forall|j: int| 0 <= j < k + 1 implies #[trigger] fields_of(chars@, lines@)[j]
            == without_cr(fields[j]) by {
            if j < k {
                assert(fields_of(chars@, lines@)[j] == fields_of(chars@, before)[j]);
            }
        }
        k += 1;
    }
    let (a, b) = parts[n];
    let ghost before = lines@;
    if b > a {
        lines.push((a, b));
        assert forall|j: int| 0 <= j < n implies #[trigger] fields_of(chars@, lines@)[j]
            == without_cr(fields[j]) by {
            assert(fields_of(chars@, lines@)[j] == fields_of(chars@, before)[j]);
        }
    }
    lines
}

/// The character is a decimal digit.
pub open spec fn is_digit(c: char) -> bool {
    '0' <= c <= '9'
}

/// Every character is a decimal digit.
pub open spec fn all_digits(s: Seq<char>) -> bool {
    forall|i: int| 0 <= i < s.len() ==> is_digit(#[trigger] s[i])
}

/// The number that a sequence of decimal digits writes.
pub open spec fn decimal_value(s: Seq<char>) -> int
    decreases s.len(),
{
    if s.len() == 0 {
        0
    } else {
        10 * decimal_value(s.drop_last()) + (s.last() as int - '0' as int)
    }
}

/// The text without the plus sign at its start, if it has one.
pub open spec fn unsigned_body(s: Seq<char>) -> Seq<char> {
    if s.len() > 0 && s[0] == '+' {
        s.skip(1)
    } else {
        s
    }
}

/// The unsigned 64-bit number that a text writes in decimal: one or more
/// digits, after an optional plus sign, whose value fits in 64 bits.
pub open spec fn parsed_u64(s: Seq<char>) -> Option<u64> {
    let body = unsigned_body(s);
    if body.len() > 0 && all_digits(body) && decimal_value(body) <= u64::MAX {
        Some(decimal_value(body) as u64)
    } else {
        None
    }
}

/// The value of digits is at least the value of any prefix of them.
pub proof fn lemma_decimal_prefix(s: Seq<char>, k: int)
    requires
        all_digits(s),
        0 <= k <= s.len(),
    ensures
        0 <= decimal_value(s.take(k)) <= decimal_value(s),
    decreases s.len() - k,
{
    if k == s.len() {
        assert(s.take(k) =~= s);
        lemma_decimal_nonnegative(s);
    } else {
        let t = s.drop_last();
        assert(t.take(k) =~= s.take(k));
        assert forall|i: int| 0 <= i < t.len() implies is_digit(#[trigger] t[i]) by {}
        lemma_decimal_prefix(t, k);
    }
}

/// The value of digits is not negative.
pub proof fn lemma_decimal_nonnegative(s: Seq<char>)
    requires
        all_digits(s),
    ensures
        0 <= decimal_value(s),
    decreases s.len(),
{
    if s.len() > 0 {
        let t = s.drop_last();
        assert forall|i: int| 0 <= i < t.len() implies is_digit(#[trigger] t[i]) by {}
        lemma_decimal_nonnegative(t);
    }
}

/// Reads an unsigned 64-bit decimal number from `chars` between `from` and
/// `to`.
pub fn parse_u64(chars: &Vec<char>, from: usize, to: usize) -> (r: Option<u64>)
    requires
        from <= to <= chars@.len(),
    ensures
        r == parsed_u64(chars@.subrange(from as int, to as int)),
{
    let mut i = from;
    if i < to && chars[i] == '+' {
        i += 1;
    }
    let start = i;
    let ghost body = chars@.subrange(start as int, to as int);
    if i == to {
        return None;
    }
    let mut acc: u64 = 0;
    while i < to
        invariant
            from <= start <= i <= to <= chars@.len(),
            start < to,
            body == chars@.subrange(start as int, to as int),
            body == unsigned_body(chars@.subrange(from as int, to as int)),
            all_digits(body.take(i - start)),
            acc == decimal_value(body.take(i - start)),
        decreases to - i,
    {
        let c = chars[i];
        if !('0' <= c && c <= '9') {
            assert(!is_digit(body[i - start]));
            return None;
        }
        let d: u64 = (c as u32 - '0' as u32) as u64;
        let ghost next = body.take(i - start + 1);
        proof {
            assert(next.drop_last() =~= body.take(i - start));
            assert forall|j: int| 0 <= j < next.len() implies is_digit(#[trigger] next[j]) by {}
        }
        if acc > (u64::MAX - d) / 10 {
            proof {
                if all_digits(body) {
                    lemma_decimal_prefix(body, i - start + 1);
                }
            }
            return None;
        }
        acc = acc * 10 + d;
        i += 1;
    }
    assert(body.take(to - start) =~= body);
    Some(acc)
}

} // verus!
