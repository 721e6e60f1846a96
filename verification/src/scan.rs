//! Lines, fields and numbers in text files of the system.

use vstd::prelude::*;

use crate::text;

verus! {

/// The index of the first character that satisfies the predicate, or the length.
pub open spec fn first_where(s: Seq<char>, p: spec_fn(char) -> bool) -> int
    decreases s.len(),
{
    if s.len() == 0 || p(s[0]) {
        0
    } else {
        1 + first_where(s.skip(1), p)
    }
}

/// What [`first_where`] finds is the only index with nothing before it that satisfies the
/// predicate.
pub proof fn lemma_first_where(s: Seq<char>, p: spec_fn(char) -> bool)
    ensures
        0 <= first_where(s, p) <= s.len(),
        forall|j: int| 0 <= j < first_where(s, p) ==> !p(#[trigger] s[j]),
        first_where(s, p) < s.len() ==> p(s[first_where(s, p)]),
    decreases s.len(),
{
    if s.len() == 0 || p(s[0]) {
    } else {
        lemma_first_where(s.skip(1), p);
        assert forall|j: int| 0 <= j < first_where(s, p) implies !p(#[trigger] s[j]) by {
            if j > 0 {
                assert(s.skip(1)[j - 1] == s[j]);
            }
        }
    }
}

proof fn lemma_first_unique(s: Seq<char>, p: spec_fn(char) -> bool, i: int)
    requires
        0 <= i <= s.len(),
        forall|j: int| 0 <= j < i ==> !p(#[trigger] s[j]),
        i < s.len() ==> p(s[i]),
    ensures
        i == first_where(s, p),
{
    lemma_first_where(s, p);
    let f = first_where(s, p);
    if f < i {
        assert(!p(s[f]));
    } else if i < f {
        assert(!p(s[i]));
    }
}

/// The predicate that holds of one character only.
pub open spec fn only(sep: char) -> spec_fn(char) -> bool {
    |c: char| c == sep
}

/// The parts of a text between the separators.
pub open spec fn split_on(s: Seq<char>, sep: char) -> Seq<Seq<char>>
    decreases s.len(),
{
    let i = first_where(s, only(sep));
    if i < 0 || i >= s.len() {
        seq![s]
    } else {
        seq![s.take(i)] + split_on(s.skip(i + 1), sep)
    }
}

/// A text has at least one part.
pub proof fn lemma_split_has_part(s: Seq<char>, sep: char)
    ensures
        split_on(s, sep).len() >= 1,
{
}

/// The views of a list of character lists.
pub open spec fn pieces(v: Seq<Vec<char>>) -> Seq<Seq<char>> {
    v.map_values(|p: Vec<char>| p@)
}

fn copy_range(s: &Vec<char>, from: usize, to: usize) -> (r: Vec<char>)
    requires
        from <= to <= s@.len(),
    ensures
        r@ == s@.subrange(from as int, to as int),
{
    let mut r: Vec<char> = Vec::new();
    let mut i: usize = from;
    while i < to
        invariant
            from <= i <= to <= s@.len(),
            r@ == s@.subrange(from as int, i as int),
        decreases to - i,
    {
        r.push(s[i]);
        i += 1;
        assert(r@ =~= s@.subrange(from as int, i as int));
    }
    r
}

/// Split a text at every separator.
pub fn split(s: &Vec<char>, sep: char) -> (r: Vec<Vec<char>>)
    ensures
        pieces(r@) == split_on(s@, sep),
{
    let ghost p = only(sep);
    let mut r: Vec<Vec<char>> = Vec::new();
    let mut start: usize = 0;
    let mut i: usize = 0;
    assert(s@.skip(0) =~= s@);
    assert(pieces(r@) + split_on(s@.skip(0), sep) =~= split_on(s@, sep));
    while i < s.len()
        invariant
            p == only(sep),
            start <= i <= s@.len(),
            forall|j: int| start <= j < i ==> #[trigger] s@[j] != sep,
            pieces(r@) + split_on(s@.skip(start as int), sep) == split_on(s@, sep),
        decreases s@.len() - i,
    {
        if s[i] == sep {
            let part = copy_range(s, start, i);
            proof {
                let rest = s@.skip(start as int);
                assert forall|j: int| 0 <= j < i - start implies !p(#[trigger] rest[j]) by {
                    assert(s@[j + start] != sep);
                }
                lemma_first_unique(rest, p, i - start);
                assert(rest.take(i - start) =~= s@.subrange(start as int, i as int));
                assert(rest.skip(i - start + 1) =~= s@.skip(i + 1));
                assert(split_on(rest, sep) == seq![part@] + split_on(s@.skip(i + 1), sep));
            }
            let ghost before = pieces(r@);
            r.push(part);
            proof {
                assert(pieces(r@) =~= before.push(part@));
                assert(pieces(r@) + split_on(s@.skip(i + 1), sep) =~= before + (seq![part@]
                    + split_on(s@.skip(i + 1), sep)));
            }
            start = i + 1;
        }
        i += 1;
    }
    let part = copy_range(s, start, s.len());
    proof {
        let rest = s@.skip(start as int);
        assert forall|j: int| 0 <= j < rest.len() implies !p(#[trigger] rest[j]) by {
            assert(s@[j + start] != sep);
        }
        lemma_first_unique(rest, p, rest.len() as int);
        assert(part@ =~= rest);
    }
    let ghost before = pieces(r@);
    r.push(part);
    proof {
        assert(pieces(r@) =~= before.push(part@));
        assert(pieces(r@) =~= before + seq![part@]);
    }
    r
}

/// A line without the carriage return that precedes its line feed.
pub open spec fn without_return(line: Seq<char>) -> Seq<char> {
    if line.len() > 0 && line.last() == '\r' {
        line.drop_last()
    } else {
        line
    }
}

/// The lines of a text: what stands before each line feed, and what follows the last one unless
/// that is empty.
pub open spec fn lines_of(s: Seq<char>) -> Seq<Seq<char>>
    decreases s.len(),
{
    let i = first_where(s, |c: char| c == '\n');
    if s.len() == 0 {
        Seq::empty()
    } else if i < 0 || i >= s.len() {
        seq![s]
    } else {
        seq![without_return(s.take(i))] + lines_of(s.skip(i + 1))
    }
}

/// The lines of a text.
pub fn lines(s: &Vec<char>) -> (r: Vec<Vec<char>>)
    ensures
        pieces(r@) == lines_of(s@),
{
    let ghost p = |c: char| c == '\n';
    let mut r: Vec<Vec<char>> = Vec::new();
    let mut start: usize = 0;
    let mut i: usize = 0;
    assert(s@.skip(0) =~= s@);
    assert(pieces(r@) + lines_of(s@.skip(0)) =~= lines_of(s@));
    while i < s.len()
        invariant
            p == (|c: char| c == '\n'),
            start <= i <= s@.len(),
            forall|j: int| start <= j < i ==> #[trigger] s@[j] != '\n',
            pieces(r@) + lines_of(s@.skip(start as int)) == lines_of(s@),
        decreases s@.len() - i,
    {
        if s[i] == '\n' {
            let end: usize = if i > start && s[i - 1] == '\r' {
                i - 1
            } else {
                i
            };
            let part = copy_range(s, start, end);
            proof {
                let rest = s@.skip(start as int);
                assert forall|j: int| 0 <= j < i - start implies !p(#[trigger] rest[j]) by {
                    assert(s@[j + start] != '\n');
                }
                lemma_first_unique(rest, p, i - start);
                let line = rest.take(i - start);
                assert(line =~= s@.subrange(start as int, i as int));
                assert(without_return(line) =~= part@);
                assert(rest.skip(i - start + 1) =~= s@.skip(i + 1));
                assert(lines_of(rest) == seq![part@] + lines_of(s@.skip(i + 1)));
            }
            let ghost before = pieces(r@);
            r.push(part);
            proof {
                assert(pieces(r@) =~= before.push(part@));
                assert(pieces(r@) + lines_of(s@.skip(i + 1)) =~= before + (seq![part@] + lines_of(
                    s@.skip(i + 1),
                )));
            }
            start = i + 1;
        }
        i += 1;
    }
    if start < s.len() {
        let part = copy_range(s, start, s.len());
        proof {
            let rest = s@.skip(start as int);
            assert forall|j: int| 0 <= j < rest.len() implies !p(#[trigger] rest[j]) by {
                assert(s@[j + start] != '\n');
            }
            lemma_first_unique(rest, p, rest.len() as int);
            assert(part@ =~= rest);
        }
        let ghost before = pieces(r@);
        r.push(part);
        proof {
            assert(pieces(r@) =~= before.push(part@));
            assert(pieces(r@) =~= before + seq![part@]);
        }
    } else {
        proof {
            assert(s@.skip(start as int).len() == 0);
            assert(pieces(r@) =~= pieces(r@) + lines_of(s@.skip(start as int)));
        }
    }
    r
}

/// The characters with the Unicode property White_Space.
pub open spec fn blank(c: char) -> bool {
    ||| '\u{9}' <= c <= '\u{d}'
    ||| c == ' '
    ||| c == '\u{85}'
    ||| c == '\u{a0}'
    ||| c == '\u{1680}'
    ||| '\u{2000}' <= c <= '\u{200a}'
    ||| c == '\u{2028}'
    ||| c == '\u{2029}'
    ||| c == '\u{202f}'
    ||| c == '\u{205f}'
    ||| c == '\u{3000}'
}

fn is_blank(c: char) -> (r: bool)
    ensures
        r == blank(c),
{
    ('\u{9}' <= c && c <= '\u{d}') || c == ' ' || c == '\u{85}' || c == '\u{a0}' || c == '\u{1680}'
        || ('\u{2000}' <= c && c <= '\u{200a}') || c == '\u{2028}' || c == '\u{2029}' || c
        == '\u{202f}' || c == '\u{205f}' || c == '\u{3000}'
}

/// The longest parts of a text without white space.
pub open spec fn words_of(s: Seq<char>) -> Seq<Seq<char>>
    decreases s.len(),
{
    let a = first_where(s, |c: char| !blank(c));
    if a < 0 || a >= s.len() {
        Seq::empty()
    } else {
        let rest = s.skip(a);
        let b = first_where(rest, |c: char| blank(c));
        if b <= 0 || b > rest.len() {
            Seq::empty()
        } else {
            seq![rest.take(b)] + words_of(rest.skip(b))
        }
    }
}

/// The words of a text.
pub fn words(s: &Vec<char>) -> (r: Vec<Vec<char>>)
    ensures
        pieces(r@) == words_of(s@),
{
    let ghost full = |c: char| !blank(c);
    let ghost gap = |c: char| blank(c);
    let mut r: Vec<Vec<char>> = Vec::new();
    let mut i: usize = 0;
    assert(s@.skip(0) =~= s@);
    assert(pieces(r@) + words_of(s@.skip(0)) =~= words_of(s@));
    while i < s.len()
        invariant
            full == (|c: char| !blank(c)),
            gap == (|c: char| blank(c)),
            i <= s@.len(),
            pieces(r@) + words_of(s@.skip(i as int)) == words_of(s@),
        decreases s@.len() - i,
    {
        let ghost at = i as int;
        let ghost rest = s@.skip(at);
        let mut start: usize = i;
        while start < s.len() && is_blank(s[start])
            invariant
                at <= start <= s@.len(),
                forall|j: int| at <= j < start ==> blank(#[trigger] s@[j]),
            decreases s@.len() - start,
        {
            start += 1;
        }
        proof {
            assert forall|j: int| 0 <= j < start - at implies !full(#[trigger] rest[j]) by {
                assert(blank(s@[j + at]));
            }
            lemma_first_unique(rest, full, start - at);
        }
        if start == s.len() {
            proof {
                assert(words_of(rest) =~= Seq::empty());
                assert(pieces(r@) =~= pieces(r@) + words_of(rest));
            }
            return r;
        }
        let mut end: usize = start;
        while end < s.len() && !is_blank(s[end])
            invariant
                start <= end <= s@.len(),
                forall|j: int| start <= j < end ==> !blank(#[trigger] s@[j]),
            decreases s@.len() - end,
        {
            end += 1;
        }
        let part = copy_range(s, start, end);
        proof {
            let tail = rest.skip(start - at);
            assert(tail =~= s@.skip(start as int));
            assert forall|j: int| 0 <= j < end - start implies !gap(#[trigger] tail[j]) by {
                assert(!blank(s@[j + start]));
            }
            lemma_first_unique(tail, gap, end - start);
            assert(end > start) by {
                assert(!blank(s@[start as int]));
            }
            assert(tail.take(end - start) =~= part@);
            assert(tail.skip(end - start) =~= s@.skip(end as int));
            assert(words_of(rest) == seq![part@] + words_of(s@.skip(end as int)));
        }
        let ghost before = pieces(r@);
        r.push(part);
        proof {
            assert(pieces(r@) =~= before.push(part@));
            assert(pieces(r@) + words_of(s@.skip(end as int)) =~= before + (seq![part@] + words_of(
                s@.skip(end as int),
            )));
        }
        i = end;
    }
    proof {
        assert(s@.skip(i as int).len() == 0);
        assert(words_of(s@.skip(i as int)) =~= Seq::empty());
        assert(pieces(r@) =~= pieces(r@) + words_of(s@.skip(i as int)));
    }
    r
}

/// The value of a decimal digit.
pub open spec fn digit_value(c: char) -> Option<nat> {
    if '0' <= c <= '9' {
        Some((c as nat - '0' as nat) as nat)
    } else {
        None
    }
}

/// The number that a list of decimal digits writes; the empty list writes zero.
pub open spec fn digits_value(s: Seq<char>) -> Option<nat>
    decreases s.len(),
{
    if s.len() == 0 {
        Some(0)
    } else {
        match (digits_value(s.drop_last()), digit_value(s.last())) {
            (Some(high), Some(low)) => Some(high * 10 + low),
            _ => None,
        }
    }
}

/// The unsigned number that a text writes: digits, with or without a plus sign before them.
pub open spec fn number_of(s: Seq<char>) -> Option<nat> {
    if s.len() == 0 {
        None
    } else if s[0] == '+' {
        if s.len() == 1 {
            None
        } else {
            digits_value(s.skip(1))
        }
    } else {
        digits_value(s)
    }
}

proof fn lemma_digits_grow(s: Seq<char>, i: int)
    requires
        0 <= i <= s.len(),
        digits_value(s) is Some,
    ensures
        digits_value(s.take(i)) is Some,
        digits_value(s.take(i))->0 <= digits_value(s)->0,
    decreases s.len() - i,
{
    if i == s.len() {
        assert(s.take(i) =~= s);
    } else {
        lemma_digits_grow(s, i + 1);
        let t = s.take(i + 1);
        assert(t.drop_last() =~= s.take(i));
    }
}

proof fn lemma_digits_none(s: Seq<char>, i: int)
    requires
        0 <= i <= s.len(),
        digits_value(s.take(i)) is None,
    ensures
        digits_value(s) is None,
    decreases s.len() - i,
{
    if i == s.len() {
        assert(s.take(i) =~= s);
    } else {
        let t = s.take(i + 1);
        assert(t.drop_last() =~= s.take(i));
        lemma_digits_none(s, i + 1);
    }
}

/// The number that a text writes, where it is at most `max`.
pub fn number(s: &Vec<char>, max: u64) -> (r: Option<u64>)
    ensures
        match r {
            Some(n) => number_of(s@) == Some(n as nat) && n <= max,
            None => number_of(s@) is None || number_of(s@)->0 > max,
        },
{
    if s.len() == 0 {
        return None;
    }
    let start: usize = if s[0] == '+' {
        1
    } else {
        0
    };
    if start == s.len() {
        return None;
    }
    let ghost digits = s@.skip(start as int);
    assert(start == 0 ==> digits =~= s@);
    let mut value: u64 = 0;
    let mut i: usize = start;
    assert(digits.take(0) =~= Seq::empty());
    while i < s.len()
        invariant
            start <= i <= s@.len(),
            start == (if s@[0] == '+' {
                1int
            } else {
                0int
            }),
            s@.len() > start,
            digits == s@.skip(start as int),
            start == 0 ==> digits == s@,
            value <= max,
            digits_value(digits.take(i - start)) == Some(value as nat),
        decreases s@.len() - i,
    {
        let c = s[i];
        proof {
            let t = digits.take(i - start + 1);
            assert(t.drop_last() =~= digits.take(i - start));
            assert(t.last() == c);
        }
        if !('0' <= c && c <= '9') {
            proof {
                lemma_digits_none(digits, i - start + 1);
            }
            return None;
        }
        let d: u64 = (c as u32 - '0' as u32) as u64;
        if value > (u64::MAX - d) / 10 {
            proof {
                if digits_value(digits) is Some {
                    lemma_digits_grow(digits, i - start + 1);
                }
            }
            return None;
        }
        value = value * 10 + d;
        if value > max {
            proof {
                if digits_value(digits) is Some {
                    lemma_digits_grow(digits, i - start + 1);
                }
            }
            return None;
        }
        i += 1;
    }
    proof {
        assert(digits.take(digits.len() as int) =~= digits);
    }
    Some(value)
}

/// What follows the last occurrence of a character, where it occurs.
pub open spec fn after_last(s: Seq<char>, c: char) -> Option<Seq<char>>
    decreases s.len(),
{
    if s.len() == 0 {
        None
    } else if s.last() == c {
        Some(Seq::empty())
    } else {
        match after_last(s.drop_last(), c) {
            Some(rest) => Some(rest.push(s.last())),
            None => None,
        }
    }
}

proof fn lemma_after_last(s: Seq<char>, c: char, i: int)
    requires
        0 <= i < s.len(),
        s[i] == c,
        forall|j: int| i < j < s.len() ==> #[trigger] s[j] != c,
    ensures
        after_last(s, c) == Some(s.skip(i + 1)),
    decreases s.len(),
{
    if i == s.len() - 1 {
        assert(s.skip(i + 1) =~= Seq::empty());
    } else {
        assert(s.last() != c);
        lemma_after_last(s.drop_last(), c, i);
        assert(s.drop_last().skip(i + 1).push(s.last()) =~= s.skip(i + 1));
    }
}

proof fn lemma_after_none(s: Seq<char>, c: char)
    requires
        forall|j: int| 0 <= j < s.len() ==> #[trigger] s[j] != c,
    ensures
        after_last(s, c) is None,
    decreases s.len(),
{
    if s.len() > 0 {
        assert(s.last() != c);
        lemma_after_none(s.drop_last(), c);
    }
}

/// What follows the last occurrence of a character.
pub fn after_last_of(s: &Vec<char>, c: char) -> (r: Option<Vec<char>>)
    ensures
        match r {
            Some(rest) => after_last(s@, c) == Some(rest@),
            None => after_last(s@, c) is None,
        },
{
    let mut i: usize = s.len();
    while i > 0
        invariant
            i <= s@.len(),
            forall|j: int| i <= j < s@.len() ==> #[trigger] s@[j] != c,
        decreases i,
    {
        i -= 1;
        if s[i] == c {
            proof {
                lemma_after_last(s@, c, i as int);
            }
            let rest = copy_range(s, i + 1, s.len());
            assert(rest@ =~= s@.skip(i + 1));
            return Some(rest);
        }
    }
    proof {
        lemma_after_none(s@, c);
    }
    None
}

/// What follows a prefix, where the text has it.
pub open spec fn after_prefix(s: Seq<char>, prefix: Seq<char>) -> Option<Seq<char>> {
    if prefix.is_prefix_of(s) {
        Some(s.skip(prefix.len() as int))
    } else {
        None
    }
}

/// Whether a text starts with the prefix.
pub fn has_prefix(s: &Vec<char>, prefix: &str) -> (r: bool)
    ensures
        r == prefix@.is_prefix_of(s@),
{
    let p = text::chars_of(prefix);
    if p.len() > s.len() {
        return false;
    }
    let mut i: usize = 0;
    while i < p.len()
        invariant
            p@ == prefix@,
            p@.len() <= s@.len(),
            i <= p@.len(),
            forall|j: int| 0 <= j < i ==> #[trigger] p@[j] == s@[j],
        decreases p@.len() - i,
    {
        if p[i] != s[i] {
            assert(s@.take(p@.len() as int)[i as int] != p@[i as int]);
            return false;
        }
        i += 1;
    }
    assert(p@ =~= s@.take(p@.len() as int));
    true
}

/// What follows a prefix.
pub fn strip_prefix(s: &Vec<char>, prefix: &str) -> (r: Option<Vec<char>>)
    ensures
        match r {
            Some(rest) => after_prefix(s@, prefix@) == Some(rest@),
            None => after_prefix(s@, prefix@) is None,
        },
{
    if has_prefix(s, prefix) {
        let n = text::chars_of(prefix).len();
        let rest = copy_range(s, n, s.len());
        assert(rest@ =~= s@.skip(prefix@.len() as int));
        Some(rest)
    } else {
        None
    }
}

/// Whether two texts agree.
pub fn same_chars(a: &Vec<char>, b: &Vec<char>) -> (r: bool)
    ensures
        r == (a@ == b@),
{
    if a.len() != b.len() {
        return false;
    }
    let mut i: usize = 0;
    while i < a.len()
        invariant
            a@.len() == b@.len(),
            i <= a@.len(),
            forall|j: int| 0 <= j < i ==> #[trigger] a@[j] == b@[j],
        decreases a@.len() - i,
    {
        if a[i] != b[i] {
            return false;
        }
        i += 1;
    }
    assert(a@ =~= b@);
    true
}

} // verus!
