//! Operations on text, seen as sequences of characters.

use vstd::prelude::*;
use vstd::string::*;

verus! {

/// `String::push` appends one character at the end.
pub assume_specification[ String::push ](s: &mut String, ch: char)
    ensures
        final(s)@ == old(s)@.push(ch),
;

/// The characters of Unicode's `White_Space` property.
pub open spec fn white_space(c: char) -> bool {
    ||| '\u{9}' <= c <= '\u{d}'
    ||| c == '\u{20}'
    ||| c == '\u{85}'
    ||| c == '\u{a0}'
    ||| c == '\u{1680}'
    ||| '\u{2000}' <= c <= '\u{200a}'
    ||| c == '\u{2028}'
    ||| c == '\u{2029}'
    ||| c == '\u{202f}'
    ||| c == '\u{205f}'
    ||| c == '\u{3000}'
}

pub fn is_white_space(c: char) -> (r: bool)
    ensures
        r == white_space(c),
{
    ('\u{9}' <= c && c <= '\u{d}') || c == '\u{20}' || c == '\u{85}' || c == '\u{a0}' || c
        == '\u{1680}' || ('\u{2000}' <= c && c <= '\u{200a}') || c == '\u{2028}' || c == '\u{2029}'
        || c == '\u{202f}' || c == '\u{205f}' || c == '\u{3000}'
}

/// The characters of a string, in order.
pub fn to_chars(s: &str) -> (r: Vec<char>)
    ensures
        r@ == s@,
{
    let mut r: Vec<char> = Vec::new();
    for c in it: s.chars()
        invariant
            it.seq() == s@,
            r@ == s@.take(it.index()),
    {
        assert(s@.take(it.index() + 1) == s@.take(it.index()).push(c));
        r.push(c);
    }
    assert(s@.take(s@.len() as int) == s@);
    r
}

/// The string made of the characters `chars[from..to]`.
pub fn from_chars(chars: &Vec<char>, from: usize, to: usize) -> (r: String)
    requires
        from <= to <= chars@.len(),
    ensures
        r@ == chars@.subrange(from as int, to as int),
{
    let mut r = String::new();
    let mut i: usize = from;
    while i < to
        invariant
            from <= i <= to <= chars@.len(),
            r@ == chars@.subrange(from as int, i as int),
        decreases to - i,
    {
        assert(chars@.subrange(from as int, i + 1) == chars@.subrange(from as int, i as int).push(
            chars@[i as int],
        ));
        r.push(chars[i]);
        i = i + 1;
    }
    r
}

/// `s` without the white space at its front.
pub open spec fn trim_start(s: Seq<char>) -> Seq<char>
    decreases s.len(),
{
    if s.len() > 0 && white_space(s[0]) {
        trim_start(s.drop_first())
    } else {
        s
    }
}

/// `s` without the white space at its back.
pub open spec fn trim_end(s: Seq<char>) -> Seq<char>
    decreases s.len(),
{
    if s.len() > 0 && white_space(s.last()) {
        trim_end(s.drop_last())
    } else {
        s
    }
}

/// `s` without the white space at its front and back.
pub open spec fn trimmed(s: Seq<char>) -> Seq<char> {
    trim_end(trim_start(s))
}

/// The first `n` characters of `s`, or all of `s` where it is no longer than that.
pub open spec fn prefix(s: Seq<char>, n: int) -> Seq<char> {
    if s.len() <= n {
        s
    } else {
        s.take(n)
    }
}

/// The bounds of the trimmed part of `chars`.
fn trim_bounds(chars: &Vec<char>) -> (r: (usize, usize))
    ensures
        r.0 <= r.1 <= chars@.len(),
        chars@.subrange(r.0 as int, r.1 as int) == trimmed(chars@),
{
    let mut lo: usize = 0;
    assert(chars@.skip(0) == chars@);
    while lo < chars.len() && is_white_space(chars[lo])
        invariant
            lo <= chars@.len(),
            trim_start(chars@.skip(lo as int)) == trim_start(chars@),
        decreases chars@.len() - lo,
    {
        assert(chars@.skip(lo as int).drop_first() == chars@.skip(lo + 1));
        lo = lo + 1;
    }
    let mut hi: usize = chars.len();
    assert(chars@.subrange(lo as int, hi as int) == chars@.skip(lo as int));
    while hi > lo && is_white_space(chars[hi - 1])
        invariant
            lo <= hi <= chars@.len(),
            trim_end(chars@.subrange(lo as int, hi as int)) == trimmed(chars@),
        decreases hi,
    {
        assert(chars@.subrange(lo as int, hi as int).drop_last() == chars@.subrange(
            lo as int,
            hi - 1,
        ));
        hi = hi - 1;
    }
    (lo, hi)
}

/// `s` without the white space at its front and back.
pub fn trim(s: &str) -> (r: String)
    ensures
        r@ == trimmed(s@),
{
    let chars = to_chars(s);
    let (lo, hi) = trim_bounds(&chars);
    from_chars(&chars, lo, hi)
}

/// The first `n` characters of the trimmed text.
pub fn preview(s: &str, n: usize) -> (r: String)
    ensures
        r@ == prefix(trimmed(s@), n as int),
{
    let chars = to_chars(s);
    let (lo, hi) = trim_bounds(&chars);
    if hi - lo <= n {
        from_chars(&chars, lo, hi)
    } else {
        assert(trimmed(s@).take(n as int) == chars@.subrange(lo as int, lo + n));
        from_chars(&chars, lo, lo + n)
    }
}

/// `s` without the run of `c` at its back.
pub open spec fn trim_end_char(s: Seq<char>, c: char) -> Seq<char>
    decreases s.len(),
{
    if s.len() > 0 && s.last() == c {
        trim_end_char(s.drop_last(), c)
    } else {
        s
    }
}

/// `s` without the run of `c` at its back.
pub fn trim_end_matches(s: &str, c: char) -> (r: String)
    ensures
        r@ == trim_end_char(s@, c),
{
    let chars = to_chars(s);
    let mut hi: usize = chars.len();
    assert(chars@.take(hi as int) == chars@);
    while hi > 0 && chars[hi - 1] == c
        invariant
            hi <= chars@.len(),
            trim_end_char(chars@.take(hi as int), c) == trim_end_char(chars@, c),
        decreases hi,
    {
        assert(chars@.take(hi as int).drop_last() == chars@.take(hi - 1));
        hi = hi - 1;
    }
    assert(chars@.take(hi as int) == chars@.subrange(0, hi as int));
    from_chars(&chars, 0, hi)
}

/// Whether two strings hold the same characters.
pub fn same_text(a: &str, b: &str) -> (r: bool)
    ensures
        r == (a@ == b@),
{
    a.to_owned() == b.to_owned()
}

/// The texts of a sequence of strings.
pub open spec fn texts(v: Seq<String>) -> Seq<Seq<char>> {
    Seq::new(v.len(), |i: int| v[i]@)
}

/// The text of an optional string.
pub open spec fn text_of(o: Option<String>) -> Option<Seq<char>> {
    match o {
        Some(s) => Some(s@),
        None => None,
    }
}

/// The same text, or none.
pub fn copy_text(o: &Option<String>) -> (r: Option<String>)
    ensures
        text_of(r) == text_of(*o),
{
    match o {
        Some(s) => Some(s.clone()),
        None => None,
    }
}

/// The text of an optional string slice.
pub open spec fn text_of_str(o: Option<&str>) -> Option<Seq<char>> {
    match o {
        Some(s) => Some(s@),
        None => None,
    }
}

/// The pieces of `s` between the occurrences of `sep`: always one more than there are
/// occurrences.
pub open spec fn split_on(s: Seq<char>, sep: char) -> Seq<Seq<char>>
    decreases s.len(),
{
    if s.len() == 0 {
        seq![Seq::empty()]
    } else {
        let before = split_on(s.drop_last(), sep);
        if s.last() == sep {
            before.push(Seq::empty())
        } else {
            before.drop_last().push(before.last().push(s.last()))
        }
    }
}

/// There is always a piece.
pub proof fn lemma_split_nonempty(s: Seq<char>, sep: char)
    ensures
        split_on(s, sep).len() > 0,
    decreases s.len(),
{
    if s.len() > 0 {
        lemma_split_nonempty(s.drop_last(), sep);
    }
}

/// The pieces of `s` between the occurrences of `sep`.
pub fn split(s: &str, sep: char) -> (r: Vec<String>)
    ensures
        texts(r@) == split_on(s@, sep),
        r@.len() > 0,
{
    let mut done: Vec<String> = Vec::new();
    let mut last = String::new();
    assert(s@.take(0) == Seq::<char>::empty());
    assert(texts(done@).push(last@) == split_on(s@.take(0), sep));
    for c in it: s.chars()
        invariant
            it.seq() == s@,
            texts(done@).push(last@) == split_on(s@.take(it.index()), sep),
    {
        let ghost next = s@.take(it.index() + 1);
        assert(next.drop_last() == s@.take(it.index()));
        let ghost before = split_on(s@.take(it.index()), sep);
        assert(before.drop_last() == texts(done@));
        if c == sep {
            done.push(last);
            last = String::new();
            assert(texts(done@) == before);
        } else {
            last.push(c);
        }
        assert(texts(done@).push(last@) == split_on(next, sep));
    }
    assert(s@.take(s@.len() as int) == s@);
    let ghost old_done = done@;
    done.push(last);
    assert(texts(done@) == texts(old_done).push(last@));
    done
}

/// `parts` one after the other, with `sep` between neighbours.
pub open spec fn joined(parts: Seq<Seq<char>>, sep: Seq<char>) -> Seq<char>
    decreases parts.len(),
{
    if parts.len() == 0 {
        Seq::empty()
    } else if parts.len() == 1 {
        parts[0]
    } else {
        joined(parts.drop_last(), sep) + sep + parts.last()
    }
}

/// `parts` one after the other, with `sep` between neighbours.
pub fn join(parts: &Vec<String>, sep: &str) -> (r: String)
    ensures
        r@ == joined(texts(parts@), sep@),
{
    let mut r = String::new();
    let mut i: usize = 0;
    while i < parts.len()
        invariant
            i <= parts@.len(),
            r@ == joined(texts(parts@).take(i as int), sep@),
        decreases parts@.len() - i,
    {
        let ghost next = texts(parts@).take(i + 1);
        assert(next.drop_last() == texts(parts@).take(i as int));
        if i > 0 {
            r.append(sep);
        }
        r.append(parts[i].as_str());
        assert(r@ == joined(next, sep@));
        i = i + 1;
    }
    assert(texts(parts@).take(i as int) == texts(parts@));
    r
}

/// Joining the pieces of a split with the separator gives the text back.
pub proof fn law_join_undoes_split(s: Seq<char>, sep: char)
    ensures
        joined(split_on(s, sep), seq![sep]) == s,
    decreases s.len(),
{
    if s.len() > 0 {
        let before = split_on(s.drop_last(), sep);
        law_join_undoes_split(s.drop_last(), sep);
        lemma_split_nonempty(s.drop_last(), sep);
        let all = split_on(s, sep);
        if s.last() == sep {
            assert(all.drop_last() == before);
            assert(s == s.drop_last() + seq![sep] + Seq::<char>::empty());
        } else {
            assert(all.drop_last() == before.drop_last());
            assert(s == s.drop_last().push(s.last()));
            if before.len() > 1 {
                let head = joined(before.drop_last(), seq![sep]) + seq![sep];
                assert(head + before.last().push(s.last()) == (head + before.last()).push(
                    s.last(),
                ));
            }
        }
    }
}

/// No piece of a split holds the separator.
pub proof fn law_split_pieces_lack_separator(s: Seq<char>, sep: char)
    ensures
        forall|i: int| 0 <= i < split_on(s, sep).len() ==> !(#[trigger] split_on(s, sep)[i]).contains(sep),
    decreases s.len(),
{
    if s.len() > 0 {
        law_split_pieces_lack_separator(s.drop_last(), sep);
        lemma_split_nonempty(s.drop_last(), sep);
        let before = split_on(s.drop_last(), sep);
        let all = split_on(s, sep);
        assert forall|i: int| 0 <= i < all.len() implies !(#[trigger] all[i]).contains(sep) by {
            if i < before.len() - 1 {
                assert(all[i] == before[i]);
            } else if s.last() != sep {
                assert(!before[i].contains(sep));
                assert forall|j: int| 0 <= j < all[i].len() implies all[i][j] != sep by {
                    if j < before[i].len() {
                        assert(before[i].contains(before[i][j]));
                    }
                }
            } else if i == before.len() - 1 {
                assert(all[i] == before[i]);
            }
        }
    }
}

/// `s` with each occurrence of `from` replaced by `to`, found from the front without overlap.
pub open spec fn replaced(s: Seq<char>, from: Seq<char>, to: Seq<char>) -> Seq<char>
    decreases s.len(),
{
    if from.len() == 0 || s.len() < from.len() {
        s
    } else if s.take(from.len() as int) == from {
        to + replaced(s.skip(from.len() as int), from, to)
    } else {
        seq![s[0]] + replaced(s.drop_first(), from, to)
    }
}

/// Whether `pat` stands in `chars` at `at`.
fn matches_at(chars: &Vec<char>, at: usize, pat: &Vec<char>) -> (r: bool)
    requires
        at + pat@.len() <= chars@.len(),
    ensures
        r == (chars@.skip(at as int).take(pat@.len() as int) == pat@),
{
    let mut k: usize = 0;
    while k < pat.len()
        invariant
            k <= pat@.len(),
            at + pat@.len() <= chars@.len() == chars.len(),
            forall|j: int| 0 <= j < k ==> chars@[at + j] == #[trigger] pat@[j],
        decreases pat@.len() - k,
    {
        if chars[at + k] != pat[k] {
            assert(chars@.skip(at as int).take(pat@.len() as int)[k as int] != pat@[k as int]);
            return false;
        }
        k = k + 1;
    }
    assert(chars@.skip(at as int).take(pat@.len() as int) =~= pat@);
    true
}

/// `s` with each occurrence of the non-empty text `from` replaced by `to`.
pub fn replace(s: &str, from: &str, to: &str) -> (r: String)
    requires
        from@.len() > 0,
    ensures
        r@ == replaced(s@, from@, to@),
{
    let chars = to_chars(s);
    let pat = to_chars(from);
    let mut r = String::new();
    let mut i: usize = 0;
    assert(chars@.skip(0) == chars@);
    while i < chars.len()
        invariant
            i <= chars@.len(),
            chars@ == s@,
            pat@ == from@,
            pat@.len() > 0,
            r@ + replaced(chars@.skip(i as int), from@, to@) == replaced(s@, from@, to@),
        decreases chars@.len() - i,
    {
        let ghost rest = chars@.skip(i as int);
        let ghost before = r@;
        if chars.len() - i < pat.len() {
            let tail = from_chars(&chars, i, chars.len());
            assert(tail@ == rest);
            r.append(tail.as_str());
            return r;
        }
        if matches_at(&chars, i, &pat) {
            r.append(to);
            assert(rest.skip(pat@.len() as int) == chars@.skip(i + pat@.len()));
            assert(r@ + replaced(rest.skip(pat@.len() as int), from@, to@) == before + (to@
                + replaced(rest.skip(pat@.len() as int), from@, to@)));
            i = i + pat.len();
        } else {
            r.push(chars[i]);
            assert(rest.drop_first() == chars@.skip(i + 1));
            assert(r@ + replaced(rest.drop_first(), from@, to@) == before + (seq![rest[0]]
                + replaced(rest.drop_first(), from@, to@)));
            i = i + 1;
        }
    }
    assert(r@ == r@ + replaced(chars@.skip(i as int), from@, to@));
    r
}

/// Whether `pat` stands somewhere in `s`.
pub open spec fn occurs(pat: Seq<char>, s: Seq<char>) -> bool {
    exists|i: int| 0 <= i <= s.len() - pat.len() && #[trigger] s.subrange(i, i + pat.len()) == pat
}

/// A text that lacks the pattern is left as it is.
pub proof fn law_replace_without_occurrence(s: Seq<char>, from: Seq<char>, to: Seq<char>)
    requires
        !occurs(from, s),
    ensures
        replaced(s, from, to) == s,
    decreases s.len(),
{
    if from.len() > 0 && s.len() >= from.len() {
        assert(s.take(from.len() as int) == s.subrange(0, 0int + from.len()));
        let rest = s.drop_first();
        assert(!occurs(from, rest)) by {
            if occurs(from, rest) {
                let i = choose|i: int|
                    0 <= i <= rest.len() - from.len() && #[trigger] rest.subrange(i, i + from.len())
                        == from;
                assert(s.subrange(i + 1, (i + 1) + from.len()) == rest.subrange(
                    i,
                    i + from.len(),
                ));
            }
        }
        law_replace_without_occurrence(rest, from, to);
        assert(seq![s[0]] + rest == s);
    }
}

pub open spec fn digit(c: char) -> bool {
    '0' <= c <= '9'
}

/// The number that a sequence of decimal digits writes.
pub open spec fn digits_value(s: Seq<char>) -> nat
    decreases s.len(),
{
    if s.len() == 0 {
        0
    } else {
        (digits_value(s.drop_last()) * 10 + (s.last() as int - '0' as int)) as nat
    }
}

pub open spec fn all_digits(s: Seq<char>) -> bool {
    s.len() > 0 && forall|i: int| 0 <= i < s.len() ==> digit(#[trigger] s[i])
}

/// What follows an optional plus sign.
pub open spec fn after_plus(s: Seq<char>) -> Seq<char> {
    if s.len() > 0 && s[0] == '+' {
        s.drop_first()
    } else {
        s
    }
}

/// The digits that `s` begins with.
pub open spec fn leading_digits(s: Seq<char>) -> Seq<char>
    decreases s.len(),
{
    if s.len() > 0 && digit(s[0]) {
        seq![s[0]] + leading_digits(s.drop_first())
    } else {
        Seq::empty()
    }
}

/// The number that `s` writes as decimal digits, after an optional plus sign.
pub open spec fn unsigned_value(s: Seq<char>) -> Option<nat> {
    let digits = after_plus(s);
    if all_digits(digits) {
        Some(digits_value(digits))
    } else {
        None
    }
}

/// The number that `s` writes as decimal digits, after an optional sign.
pub open spec fn signed_value(s: Seq<char>) -> Option<int> {
    if s.len() > 0 && s[0] == '-' {
        if all_digits(s.drop_first()) {
            Some(-(digits_value(s.drop_first()) as int))
        } else {
            None
        }
    } else {
        match unsigned_value(s) {
            Some(v) => Some(v as int),
            None => None,
        }
    }
}

/// The number that `s` writes, where it is one and at most `max`.
pub open spec fn unsigned_up_to(s: Seq<char>, max: int) -> Option<int> {
    match unsigned_value(s) {
        Some(v) if v <= max => Some(v as int),
        _ => None,
    }
}

proof fn lemma_digits_value_grows(s: Seq<char>, n: int)
    requires
        0 <= n <= s.len(),
        all_digits(s),
    ensures
        digits_value(s.take(n)) <= digits_value(s),
    decreases s.len(),
{
    if n < s.len() {
        let shorter = s.drop_last();
        if shorter.len() > 0 {
            assert(all_digits(shorter)) by {
                assert forall|i: int| 0 <= i < shorter.len() implies digit(#[trigger] shorter[i]) by {
                    assert(shorter[i] == s[i]);
                }
            }
            lemma_digits_value_grows(shorter, n);
        }
        assert(shorter.take(n) == s.take(n));
        assert(digit(s.last()));
    } else {
        assert(s.take(n) == s);
    }
}

/// The number that the digits `chars[from..]` write, where it is one and at most `max`.
fn parse_digits(chars: &Vec<char>, from: usize, max: u64) -> (r: Option<u64>)
    requires
        from <= chars@.len(),
    ensures
        ({
            let s = chars@.skip(from as int);
            r == if all_digits(s) && digits_value(s) <= max {
                Some(digits_value(s) as u64)
            } else {
                None::<u64>
            }
        }),
{
    let ghost s = chars@.skip(from as int);
    if from == chars.len() {
        return None;
    }
    let mut v: u64 = 0;
    let mut i: usize = from;
    while i < chars.len()
        invariant
            from <= i <= chars@.len(),
            from < chars@.len(),
            s == chars@.skip(from as int),
            v == digits_value(s.take(i - from)),
            v <= max,
            forall|j: int| 0 <= j < i - from ==> digit(#[trigger] s[j]),
        decreases chars@.len() - i,
    {
        let c = chars[i];
        assert(s[i - from] == c);
        if c < '0' || c > '9' {
            return None;
        }
        let d: u64 = (c as u32 - '0' as u32) as u64;
        let wide: u128 = (v as u128) * 10 + d as u128;
        assert(s.take(i - from + 1).drop_last() == s.take(i - from));
        assert(digits_value(s.take(i - from + 1)) == wide);
        if wide > max as u128 {
            proof {
                if all_digits(s) {
                    lemma_digits_value_grows(s, i - from + 1);
                }
            }
            return None;
        }
        v = wide as u64;
        i = i + 1;
    }
    assert(s.take(i - from) == s);
    Some(v)
}

/// Reads an unsigned decimal number of at most `max`: digits after an optional plus sign.
pub fn parse_unsigned(s: &str, max: u64) -> (r: Option<u64>)
    ensures
        r is Some == unsigned_up_to(s@, max as int) is Some,
        r is Some ==> r->0 == unsigned_up_to(s@, max as int)->0,
{
    let chars = to_chars(s);
    if chars.len() > 0 && chars[0] == '+' {
        assert(chars@.skip(1) == s@.drop_first());
        parse_digits(&chars, 1, max)
    } else {
        assert(chars@.skip(0) == s@);
        parse_digits(&chars, 0, max)
    }
}

/// The digits that a text begins with end before its first other character.
pub proof fn lemma_leading_digits(s: Seq<char>, n: int)
    requires
        0 <= n <= s.len(),
        forall|i: int| 0 <= i < n ==> digit(#[trigger] s[i]),
        n < s.len() ==> !digit(s[n]),
    ensures
        leading_digits(s) == s.take(n),
    decreases n,
{
    if n > 0 {
        let rest = s.drop_first();
        assert forall|i: int| 0 <= i < n - 1 implies digit(#[trigger] rest[i]) by {
            assert(rest[i] == s[i + 1]);
        }
        assert(digit(s[0]));
        lemma_leading_digits(rest, n - 1);
        assert(seq![s[0]] + rest.take(n - 1) =~= s.take(n));
    } else {
        assert(s.take(n) =~= Seq::<char>::empty());
    }
}

proof fn lemma_leading_digits_reach(s: Seq<char>, n: int)
    requires
        0 < n <= s.len(),
        forall|i: int| 0 <= i < n ==> digit(#[trigger] s[i]),
    ensures
        digits_value(leading_digits(s)) >= digits_value(s.take(n)),
    decreases s.len() - n,
{
    if n < s.len() && digit(s[n]) {
        lemma_leading_digits_reach(s, n + 1);
        assert(s.take(n + 1).drop_last() =~= s.take(n));
        assert(s.take(n + 1).last() == s[n]);
    } else {
        lemma_leading_digits(s, n);
    }
}

/// A sequence of digits begins with all of them.
pub proof fn lemma_all_digits_lead(s: Seq<char>)
    requires
        all_digits(s),
    ensures
        leading_digits(s) == s,
{
    lemma_leading_digits(s, s.len() as int);
    assert(s.take(s.len() as int) =~= s);
}

/// Whether the digits that `s` begins with, after an optional plus sign, write a number
/// greater than `max`.
pub fn leading_digits_exceed(s: &str, max: u64) -> (r: bool)
    ensures
        r == (digits_value(leading_digits(after_plus(s@))) > max),
{
    let chars = to_chars(s);
    let from: usize = if chars.len() > 0 && chars[0] == '+' {
        1
    } else {
        0
    };
    let ghost digits = after_plus(s@);
    assert(digits =~= chars@.skip(from as int));
    let mut v: u64 = 0;
    let mut i: usize = from;
    assert(digits.take(0) =~= Seq::<char>::empty());
    while i < chars.len()
        invariant
            from <= i <= chars@.len(),
            digits == chars@.skip(from as int),
            digits == after_plus(s@),
            v == digits_value(digits.take(i - from)),
            v <= max,
            forall|j: int| 0 <= j < i - from ==> digit(#[trigger] digits[j]),
        decreases chars@.len() - i,
    {
        let c = chars[i];
        assert(digits[i - from] == c);
        if c < '0' || c > '9' {
            proof {
                lemma_leading_digits(digits, i - from);
            }
            return false;
        }
        let d: u64 = (c as u32 - '0' as u32) as u64;
        let wide: u128 = (v as u128) * 10 + d as u128;
        assert(digits.take(i - from + 1).drop_last() =~= digits.take(i - from));
        assert(digits_value(digits.take(i - from + 1)) == wide);
        if wide > max as u128 {
            proof {
                lemma_leading_digits_reach(digits, i - from + 1);
            }
            return true;
        }
        v = wide as u64;
        i = i + 1;
    }
    proof {
        lemma_leading_digits(digits, i - from);
    }
    false
}

/// Reads a signed 64-bit decimal number: digits after an optional sign.
pub fn parse_i64(s: &str) -> (r: Option<i64>)
    ensures
        match signed_value(s@) {
            Some(v) if i64::MIN <= v <= i64::MAX => r == Some(v as i64),
            _ => r is None,
        },
{
    let chars = to_chars(s);
    if chars.len() > 0 && chars[0] == '-' {
        assert(chars@.skip(1) == s@.drop_first());
        match parse_digits(&chars, 1, 0x8000_0000_0000_0000) {
            Some(v) => Some((0 - v as i128) as i64),
            None => None,
        }
    } else {
        match parse_unsigned(s, 0x7fff_ffff_ffff_ffff) {
            Some(v) => Some(v as i64),
            None => None,
        }
    }
}

/// The character for a number below ten.
pub open spec fn digit_char(d: nat) -> char {
    (d + '0' as int) as char
}

/// `n` in decimal digits, without leading zeros.
pub open spec fn decimal(n: nat) -> Seq<char>
    decreases n,
{
    if n < 10 {
        seq![digit_char(n)]
    } else {
        decimal(n / 10).push(digit_char(n % 10))
    }
}

/// Writes `n` in decimal digits.
pub fn decimal_string(n: u64) -> (r: String)
    ensures
        r@ == decimal(n as nat),
    decreases n,
{
    if n < 10 {
        let mut r = String::new();
        r.push((n as u8 + '0' as u8) as char);
        assert(r@ == seq![digit_char(n as nat)]);
        r
    } else {
        let mut r = decimal_string(n / 10);
        r.push(((n % 10) as u8 + '0' as u8) as char);
        r
    }
}

/// Reading what `decimal` writes gives the number back.
pub proof fn law_decimal_reads_back(n: nat)
    ensures
        unsigned_value(decimal(n)) == Some(n),
        all_digits(decimal(n)),
    decreases n,
{
    lemma_decimal_digits(n);
    assert(decimal(n)[0] != '+');
}

proof fn lemma_decimal_digits(n: nat)
    ensures
        all_digits(decimal(n)),
        digits_value(decimal(n)) == n,
    decreases n,
{
    if n < 10 {
        assert(decimal(n).drop_last() == Seq::<char>::empty());
        assert(digits_value(Seq::<char>::empty()) == 0);
    } else {
        lemma_decimal_digits(n / 10);
        assert(decimal(n).drop_last() == decimal(n / 10));
        assert(digit(digit_char(n % 10)));
        assert forall|i: int| 0 <= i < decimal(n).len() implies digit(#[trigger] decimal(n)[i]) by {
            if i < decimal(n / 10).len() {
                assert(decimal(n)[i] == decimal(n / 10)[i]);
            }
        }
    }
}

/// A text stands in every text that is put together from it and what is before and behind it.
pub proof fn lemma_occurs_between(a: Seq<char>, pat: Seq<char>, b: Seq<char>)
    ensures
        occurs(pat, a + pat + b),
{
    let s = a + pat + b;
    let at = a.len() as int;
    assert(s.subrange(at, at + pat.len()) =~= pat);
}

/// What stands in a part of a text stands in the text.
pub proof fn lemma_occurs_within(pat: Seq<char>, a: Seq<char>, s: Seq<char>, b: Seq<char>)
    requires
        occurs(pat, s),
    ensures
        occurs(pat, a + s + b),
{
    let i = choose|i: int|
        0 <= i <= s.len() - pat.len() && #[trigger] s.subrange(i, i + pat.len()) == pat;
    let all = a + s + b;
    let at = a.len() + i;
    assert(all.subrange(at, at + pat.len()) =~= pat);
}

/// A joined text holds each of its parts.
pub proof fn law_join_holds_every_part(parts: Seq<Seq<char>>, sep: Seq<char>, i: int)
    requires
        0 <= i < parts.len(),
    ensures
        occurs(parts[i], joined(parts, sep)),
    decreases parts.len(),
{
    let none = Seq::<char>::empty();
    if parts.len() == 1 {
        lemma_occurs_between(none, parts[i], none);
        assert(none + parts[i] + none =~= parts[i]);
    } else {
        let front = joined(parts.drop_last(), sep);
        if i == parts.len() - 1 {
            lemma_occurs_between(front + sep, parts[i], none);
            assert(front + sep + parts[i] + none =~= joined(parts, sep));
        } else {
            law_join_holds_every_part(parts.drop_last(), sep, i);
            lemma_occurs_within(parts[i], none, front, sep + parts.last());
            assert(none + front + (sep + parts.last()) =~= joined(parts, sep));
        }
    }
}

/// Two joined texts with the separator between them are all their parts joined; a part alone
/// is joined as it is, and no part at all as the empty text.
pub proof fn law_join_puts_separators_between(
    front: Seq<Seq<char>>,
    back: Seq<Seq<char>>,
    sep: Seq<char>,
)
    requires
        front.len() > 0,
        back.len() > 0,
    ensures
        joined(front + back, sep) == joined(front, sep) + sep + joined(back, sep),
        joined(seq![back[0]], sep) == back[0],
        joined(Seq::empty(), sep) == Seq::<char>::empty(),
    decreases back.len(),
{
    let all = front + back;
    assert(all.drop_last() =~= front + back.drop_last());
    if back.len() == 1 {
        assert(front + back.drop_last() =~= front);
    } else {
        law_join_puts_separators_between(front, back.drop_last(), sep);
        assert(joined(all, sep) =~= joined(front, sep) + sep + joined(back, sep));
    }
}

/// All characters of a text are white space.
pub open spec fn blank(s: Seq<char>) -> bool {
    forall|i: int| 0 <= i < s.len() ==> white_space(#[trigger] s[i])
}

/// Trimming takes away white space at the front and at the back, all of it and nothing else.
pub proof fn law_trim_takes_only_white_space(s: Seq<char>)
    ensures
        exists|front: Seq<char>, back: Seq<char>|
            #![trigger blank(front), blank(back)]
            blank(front) && blank(back) && s == front + trimmed(s) + back,
        trimmed(s).len() > 0 ==> !white_space(trimmed(s)[0]) && !white_space(trimmed(s).last()),
{
    let t = trim_start(s);
    lemma_trim_start(s);
    lemma_trim_end(t);
    let front = s.take(s.len() - t.len());
    let back = t.skip(trimmed(s).len() as int);
    assert(s =~= front + trimmed(s) + back);
    assert(blank(front) && blank(back));
    if trimmed(s).len() > 0 {
        assert(trimmed(s)[0] == t[0]);
    }
}

proof fn lemma_trim_start(s: Seq<char>)
    ensures
        ({
            let t = trim_start(s);
            &&& t.len() <= s.len()
            &&& blank(s.take(s.len() - t.len()))
            &&& s == s.take(s.len() - t.len()) + t
            &&& t.len() > 0 ==> !white_space(t[0])
        }),
    decreases s.len(),
{
    if s.len() > 0 && white_space(s[0]) {
        let rest = s.drop_first();
        lemma_trim_start(rest);
        let t = trim_start(s);
        let n = s.len() - t.len();
        assert forall|i: int| 0 <= i < n implies white_space(#[trigger] s.take(n)[i]) by {
            if i > 0 {
                assert(rest.take(n - 1)[i - 1] == s[i]);
            }
        }
        assert(s =~= seq![s[0]] + rest);
        assert(s.take(n) =~= seq![s[0]] + rest.take(n - 1));
        assert(s.take(n) + t =~= seq![s[0]] + (rest.take(n - 1) + t));
    }
}

proof fn lemma_trim_end(s: Seq<char>)
    ensures
        ({
            let t = trim_end(s);
            &&& t.len() <= s.len()
            &&& blank(s.skip(t.len() as int))
            &&& s == t + s.skip(t.len() as int)
            &&& t.len() > 0 ==> !white_space(t.last())
        }),
    decreases s.len(),
{
    if s.len() > 0 && white_space(s.last()) {
        let rest = s.drop_last();
        lemma_trim_end(rest);
        let t = trim_end(s);
        let tail = s.skip(t.len() as int);
        assert(tail =~= rest.skip(t.len() as int).push(s.last()));
        assert(t + tail =~= (t + rest.skip(t.len() as int)).push(s.last()));
        assert(s =~= rest.push(s.last()));
        assert forall|i: int| 0 <= i < tail.len() implies white_space(#[trigger] tail[i]) by {
            if i < tail.len() - 1 {
                assert(rest.skip(t.len() as int)[i] == tail[i]);
            }
        }
    }
}

/// A text without white space at its ends is trimmed already.
pub proof fn law_trimmed_text_stays(s: Seq<char>)
    requires
        s.len() > 0 ==> !white_space(s[0]) && !white_space(s.last()),
    ensures
        trimmed(s) == s,
{
}

/// A cut text is the front of the text: all of it, or as many characters as asked for.
pub proof fn law_prefix_is_the_front(s: Seq<char>, n: int)
    requires
        n >= 0,
    ensures
        prefix(s, n).len() <= n,
        prefix(s, n).len() == n || prefix(s, n).len() == s.len(),
        exists|rest: Seq<char>| #[trigger] (prefix(s, n) + rest) == s,
{
    let k = prefix(s, n).len() as int;
    assert(prefix(s, n) + s.skip(k) =~= s);
}

/// Cutting a character off the back takes away a run of it, all of it and nothing else.
pub proof fn law_trim_end_char_takes_the_run(s: Seq<char>, c: char)
    ensures
        ({
            let t = trim_end_char(s, c);
            &&& t.len() <= s.len()
            &&& t == s.take(t.len() as int)
            &&& forall|i: int| t.len() <= i < s.len() ==> #[trigger] s[i] == c
            &&& t.len() > 0 ==> t.last() != c
        }),
    decreases s.len(),
{
    if s.len() > 0 && s.last() == c {
        let rest = s.drop_last();
        law_trim_end_char_takes_the_run(rest, c);
        let t = trim_end_char(s, c);
        assert(rest.take(t.len() as int) =~= s.take(t.len() as int));
        assert forall|i: int| t.len() <= i < s.len() implies #[trigger] s[i] == c by {
            if i < rest.len() {
                assert(rest[i] == s[i]);
            }
        }
    } else {
        assert(s.take(s.len() as int) =~= s);
    }
}

/// The first occurrence of a marker is replaced, with what stands before it kept as it is,
/// and the rest is treated alike.
pub proof fn law_replace_first_occurrence(
    a: Seq<char>,
    from: Seq<char>,
    b: Seq<char>,
    to: Seq<char>,
)
    requires
        from.len() > 0,
        !a.contains(from[0]),
    ensures
        replaced(a + from + b, from, to) == a + to + replaced(b, from, to),
    decreases a.len(),
{
    let s = a + from + b;
    if a.len() == 0 {
        assert(s.take(from.len() as int) =~= from);
        assert(s.skip(from.len() as int) =~= b);
        assert(a + to =~= to);
    } else {
        assert(s.take(from.len() as int)[0] == a[0]);
        assert(a.contains(a[0]));
        assert(s.take(from.len() as int) != from);
        let rest = a.drop_first();
        assert(!rest.contains(from[0])) by {
            if rest.contains(from[0]) {
                let i = choose|i: int| 0 <= i < rest.len() && rest[i] == from[0];
                assert(a[i + 1] == from[0]);
            }
        }
        law_replace_first_occurrence(rest, from, b, to);
        assert(s.drop_first() =~= rest + from + b);
        assert(seq![s[0]] + (rest + to + replaced(b, from, to)) =~= a + to + replaced(b, from, to));
    }
}

/// Replacing a marker passes over a text that lacks its first character, and over another
/// marker that differs from it somewhere.
pub proof fn law_replace_passes_other_text(
    a: Seq<char>,
    from: Seq<char>,
    b: Seq<char>,
    to: Seq<char>,
    k: int,
)
    requires
        from.len() > 0,
        a.len() > 0,
        0 <= k < a.len(),
        k < from.len(),
        a[k] != from[k],
        !a.drop_first().contains(from[0]),
    ensures
        replaced(a + b, from, to) == a + replaced(b, from, to),
{
    let s = a + b;
    let rest = a.drop_first();
    lemma_replace_passes_plain_text(rest, from, b, to);
    if s.len() >= from.len() {
        assert(s.take(from.len() as int)[k] == a[k]);
        assert(s.drop_first() =~= rest + b);
        assert(seq![s[0]] + (rest + replaced(b, from, to)) =~= a + replaced(b, from, to));
    } else {
        assert(replaced(b, from, to) == b);
    }
}

/// Replacing a marker passes over a text that lacks its first character.
pub proof fn lemma_replace_passes_plain_text(
    a: Seq<char>,
    from: Seq<char>,
    b: Seq<char>,
    to: Seq<char>,
)
    requires
        from.len() > 0,
        !a.contains(from[0]),
    ensures
        replaced(a + b, from, to) == a + replaced(b, from, to),
    decreases a.len(),
{
    let s = a + b;
    if a.len() == 0 {
        assert(s =~= b);
        assert(a + replaced(b, from, to) =~= replaced(b, from, to));
    } else if s.len() >= from.len() {
        assert(s.take(from.len() as int)[0] == a[0]);
        assert(a.contains(a[0]));
        let rest = a.drop_first();
        assert(!rest.contains(from[0])) by {
            if rest.contains(from[0]) {
                let i = choose|i: int| 0 <= i < rest.len() && rest[i] == from[0];
                assert(a[i + 1] == from[0]);
            }
        }
        lemma_replace_passes_plain_text(rest, from, b, to);
        assert(s.drop_first() =~= rest + b);
        assert(seq![s[0]] + (rest + replaced(b, from, to)) =~= a + replaced(b, from, to));
    }
}

/// A text without a marker's first character has no marker.
pub proof fn law_replace_lacks_marker(s: Seq<char>, from: Seq<char>, to: Seq<char>)
    requires
        from.len() > 0,
        !s.contains(from[0]),
    ensures
        replaced(s, from, to) == s,
{
    if occurs(from, s) {
        let i = choose|i: int|
            0 <= i <= s.len() - from.len() && #[trigger] s.subrange(i, i + from.len()) == from;
        assert(s.subrange(i, i + from.len())[0] == s[i]);
        assert(s.contains(s[i]));
    }
    law_replace_without_occurrence(s, from, to);
}

/// Splitting a text between two separators gives the pieces of both sides.
pub proof fn law_split_at_separator(a: Seq<char>, sep: char, b: Seq<char>)
    ensures
        split_on(a + seq![sep] + b, sep) == split_on(a, sep) + split_on(b, sep),
    decreases b.len(),
{
    let s = a + seq![sep] + b;
    lemma_split_nonempty(b, sep);
    if b.len() == 0 {
        assert(s.drop_last() =~= a);
        assert(split_on(s, sep) =~= split_on(a, sep) + split_on(b, sep));
    } else {
        let front = a + seq![sep] + b.drop_last();
        law_split_at_separator(a, sep, b.drop_last());
        assert(s.drop_last() =~= front);
        lemma_split_nonempty(b.drop_last(), sep);
        assert(split_on(front, sep).last() == split_on(b.drop_last(), sep).last());
        assert(split_on(s, sep) =~= split_on(a, sep) + split_on(b, sep));
    }
}

/// A text without the separator is one piece.
pub proof fn law_split_without_separator(s: Seq<char>, sep: char)
    requires
        !s.contains(sep),
    ensures
        split_on(s, sep) == seq![s],
    decreases s.len(),
{
    if s.len() > 0 {
        let rest = s.drop_last();
        assert(s[s.len() - 1] == s.last());
        assert(s.contains(s.last()));
        assert(!rest.contains(sep)) by {
            if rest.contains(sep) {
                let i = choose|i: int| 0 <= i < rest.len() && rest[i] == sep;
                assert(s[i] == sep);
            }
        }
        law_split_without_separator(rest, sep);
        assert(rest.push(s.last()) =~= s);
        assert(split_on(s, sep) =~= seq![s]);
    } else {
        assert(s =~= Seq::<char>::empty());
    }
}

/// A number is written in digits only, at least one of them.
pub proof fn law_decimal_is_digits(n: nat)
    ensures
        all_digits(decimal(n)),
        !decimal(n).contains(','),
        !decimal(n).contains('/'),
        !decimal(n).contains(':'),
        trimmed(decimal(n)) == decimal(n),
{
    lemma_decimal_digits(n);
    let d = decimal(n);
    assert forall|i: int| 0 <= i < d.len() implies digit(#[trigger] d[i]) && !white_space(d[i])
        && d[i] != ',' && d[i] != '/' && d[i] != ':' by {
        assert(digit(d[i]));
    }
    assert(digit(d[0]) && digit(d[d.len() - 1]));
    law_trimmed_text_stays(d);
}

/// A negative number reads back, too.
pub proof fn law_negative_reads_back(n: nat)
    ensures
        signed_value(seq!['-'] + decimal(n)) == Some(-(n as int)),
        signed_value(decimal(n)) == Some(n as int),
{
    law_decimal_reads_back(n);
    law_decimal_is_digits(n);
    let s = seq!['-'] + decimal(n);
    assert(s.drop_first() =~= decimal(n));
    assert(digit(decimal(n)[0]));
}

/// What is read as a number is digits behind at most one sign: nothing else is read as one.
pub proof fn law_only_digits_are_numbers(s: Seq<char>, i: int)
    requires
        0 <= i < s.len(),
        !digit(s[i]),
        i > 0 || (s[0] != '+' && s[0] != '-'),
    ensures
        unsigned_value(s) is None,
        signed_value(s) is None,
{
    if s.len() > 0 && (s[0] == '+' || s[0] == '-') {
        assert(s.drop_first()[i - 1] == s[i]);
    }
}

/// Numbers are written to base ten: a digit more is ten times the number and that digit.
pub proof fn law_digits_are_decimal(s: Seq<char>, c: char, n: nat, k: nat)
    requires
        digit(c),
        0 < n,
        k < 10,
    ensures
        digits_value(s.push(c)) == 10 * digits_value(s) + (c as int - '0' as int),
        digits_value(Seq::empty()) == 0,
        decimal(10 * n + k) == decimal(n) + decimal(k),
        decimal(k).len() == 1,
        decimal(k)[0] as int == '0' as int + k,
{
    assert(s.push(c).drop_last() =~= s);
    assert((10 * n + k) / 10 == n && (10 * n + k) % 10 == k);
    assert(decimal(10 * n + k) =~= decimal(n) + decimal(k));
}

/// A number is written without zeros in front.
pub proof fn law_decimal_has_no_leading_zero(n: nat)
    ensures
        n > 0 ==> decimal(n)[0] != '0',
        decimal(0) == seq!['0'],
    decreases n,
{
    if n >= 10 {
        law_decimal_has_no_leading_zero(n / 10);
        law_decimal_is_digits(n / 10);
    }
    assert(decimal(0) =~= seq!['0']);
}

/// One plus sign may stand in front of a number; a minus sign only where negative numbers
/// are read, and no text without a digit is a number.
pub proof fn law_signs_of_numbers(n: nat)
    ensures
        unsigned_value(seq!['+'] + decimal(n)) == Some(n),
        signed_value(seq!['+'] + decimal(n)) == Some(n as int),
        unsigned_value(seq!['-'] + decimal(n)) is None,
        unsigned_value(seq!['+', '+'] + decimal(n)) is None,
        unsigned_value(Seq::empty()) is None,
        signed_value(Seq::empty()) is None,
        unsigned_value(seq!['+']) is None,
        signed_value(seq!['-']) is None,
{
    law_decimal_reads_back(n);
    law_decimal_is_digits(n);
    let d = decimal(n);
    let plus = seq!['+'] + d;
    let minus = seq!['-'] + d;
    let twice = seq!['+', '+'] + d;
    assert(plus.drop_first() =~= d);
    assert(twice.drop_first() =~= plus);
    assert(!digit(plus[0]));
    assert(!digit(minus[0]));
    assert(seq!['+'].drop_first() =~= Seq::<char>::empty());
    assert(seq!['-'].drop_first() =~= Seq::<char>::empty());
}

/// Of the ASCII characters, white space is the space and those from tab to carriage return;
/// above them it is what Unicode has for white space.
pub proof fn law_white_space_is_unicodes(c: char)
    ensures
        (c as u32) < 0x80 ==> (white_space(c) <==> c == ' ' || c == '\t' || c == '\n' || c
            == '\u{b}' || c == '\u{c}' || c == '\r'),
        (c as u32) >= 0x80 ==> (white_space(c) <==> c as u32 == 0x85 || c as u32 == 0xa0
            || c as u32 == 0x1680 || 0x2000 <= c as u32 <= 0x200a || c as u32 == 0x2028
            || c as u32 == 0x2029 || c as u32 == 0x202f || c as u32 == 0x205f || c as u32
            == 0x3000),
{
}

/// White space around a text is trimmed away, and the text between stays whole.
pub proof fn law_trim_strips_white_space(front: Seq<char>, s: Seq<char>, back: Seq<char>)
    requires
        blank(front),
        blank(back),
        s.len() > 0,
        !white_space(s[0]),
        !white_space(s.last()),
    ensures
        trimmed(front + s + back) == s,
{
    lemma_trim_start_strips(front, s + back);
    assert(front + s + back =~= front + (s + back));
    lemma_trim_end_strips(s, back);
}

proof fn lemma_trim_start_strips(front: Seq<char>, s: Seq<char>)
    requires
        blank(front),
        s.len() > 0,
        !white_space(s[0]),
    ensures
        trim_start(front + s) == s,
    decreases front.len(),
{
    let all = front + s;
    if front.len() > 0 {
        assert(white_space(front[0]));
        let rest = front.drop_first();
        assert(blank(rest)) by {
            assert forall|i: int| 0 <= i < rest.len() implies white_space(#[trigger] rest[i]) by {
                assert(white_space(front[i + 1]));
            }
        }
        assert(all.drop_first() =~= rest + s);
        lemma_trim_start_strips(rest, s);
    } else {
        assert(all =~= s);
    }
}

proof fn lemma_trim_end_strips(s: Seq<char>, back: Seq<char>)
    requires
        blank(back),
        s.len() > 0,
        !white_space(s.last()),
    ensures
        trim_end(s + back) == s,
    decreases back.len(),
{
    let all = s + back;
    if back.len() > 0 {
        assert(white_space(back[back.len() - 1]));
        let rest = back.drop_last();
        assert(blank(rest)) by {
            assert forall|i: int| 0 <= i < rest.len() implies white_space(#[trigger] rest[i]) by {
                assert(white_space(back[i]));
            }
        }
        assert(all.drop_last() =~= s + rest);
        lemma_trim_end_strips(s, rest);
    } else {
        assert(all =~= s);
    }
}

} // verus!
