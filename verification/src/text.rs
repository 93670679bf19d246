//! Text as a sequence of characters: trimming, lines, prefixes, suffixes and
//! occurrences.

use vstd::prelude::*;

verus! {

/// The characters with the Unicode property `White_Space`.
pub open spec fn white_space(c: char) -> bool {
    let n = c as u32;
    ||| 0x9 <= n <= 0xd
    ||| n == 0x20
    ||| n == 0x85
    ||| n == 0xa0
    ||| n == 0x1680
    ||| 0x2000 <= n <= 0x200a
    ||| n == 0x2028
    ||| n == 0x2029
    ||| n == 0x202f
    ||| n == 0x205f
    ||| n == 0x3000
}

/// `s` without its leading white space.
pub open spec fn trimmed_start(s: Seq<char>) -> Seq<char>
    decreases s.len(),
{
    if s.len() > 0 && white_space(s[0]) {
        trimmed_start(s.drop_first())
    } else {
        s
    }
}

/// `s` without its trailing white space.
pub open spec fn trimmed_end(s: Seq<char>) -> Seq<char>
    decreases s.len(),
{
    if s.len() > 0 && white_space(s.last()) {
        trimmed_end(s.drop_last())
    } else {
        s
    }
}

/// `s` without the white space at its two ends.
pub open spec fn trimmed(s: Seq<char>) -> Seq<char> {
    trimmed_end(trimmed_start(s))
}

/// Nothing but white space.
pub open spec fn blank(s: Seq<char>) -> bool {
    forall|i: int| 0 <= i < s.len() ==> white_space(#[trigger] s[i])
}

/// The view of an optional string.
pub open spec fn opt_view(s: Option<String>) -> Option<Seq<char>> {
    match s {
        Some(t) => Some(t@),
        None => None,
    }
}

/// The views of the strings in `v`.
pub open spec fn string_views(v: Seq<String>) -> Seq<Seq<char>> {
    v.map_values(|s: String| s@)
}

/// A copy of an optional string.
pub fn copy_opt(s: &Option<String>) -> (res: Option<String>)
    ensures
        res == *s,
{
    match s {
        Some(t) => Some(t.clone()),
        None => None,
    }
}

/// Whether `a` and `b` hold the same characters.
pub fn same(a: &str, b: &str) -> (res: bool)
    ensures
        res == (a@ == b@),
{
    a.to_owned() == b.to_owned()
}

/// Whether `c` is white space.
pub fn is_white_space(c: char) -> (res: bool)
    ensures
        res == white_space(c),
{
    let n = c as u32;
    (0x9 <= n && n <= 0xd) || n == 0x20 || n == 0x85 || n == 0xa0 || n == 0x1680 || (0x2000 <= n
        && n <= 0x200a) || n == 0x2028 || n == 0x2029 || n == 0x202f || n == 0x205f || n == 0x3000
}

/// The characters of `s`.
pub fn chars_of(s: &str) -> (res: Vec<char>)
    ensures
        res@ == s@,
{
    let mut res: Vec<char> = Vec::new();
    for c in it: s.chars()
        invariant
            it.seq() == s@,
            res@ == s@.take(it.index() as int),
    {
        res.push(c);
    }
    res
}

/// `s` without its leading white space.
pub fn trim_start<'a>(s: &'a str) -> (res: &'a str)
    ensures
        res@ == trimmed_start(s@),
{
    let chars = chars_of(s);
    let mut i: usize = 0;
    assert(s@.skip(0) == s@);
    while i < chars.len() && is_white_space(chars[i])
        invariant
            chars@ == s@,
            i <= chars.len(),
            trimmed_start(s@) == trimmed_start(s@.skip(i as int)),
        decreases chars.len() - i,
    {
        assert(s@.skip(i as int).drop_first() == s@.skip(i + 1));
        i = i + 1;
    }
    assert(s@.skip(i as int) == s@.subrange(i as int, s@.len() as int));
    s.substring_char(i, chars.len())
}

/// `s` without its trailing white space.
pub fn trim_end<'a>(s: &'a str) -> (res: &'a str)
    ensures
        res@ == trimmed_end(s@),
{
    let chars = chars_of(s);
    let mut n: usize = chars.len();
    assert(s@.take(n as int) == s@);
    while n > 0 && is_white_space(chars[n - 1])
        invariant
            chars@ == s@,
            n <= chars.len(),
            trimmed_end(s@) == trimmed_end(s@.take(n as int)),
        decreases n,
    {
        assert(s@.take(n as int).drop_last() == s@.take(n - 1));
        n = n - 1;
    }
    assert(s@.take(n as int) == s@.subrange(0, n as int));
    s.substring_char(0, n)
}

/// `s` without the white space at its two ends.
pub fn trim<'a>(s: &'a str) -> (res: &'a str)
    ensures
        res@ == trimmed(s@),
{
    trim_end(trim_start(s))
}

/// Whether `s` is nothing but white space.
pub fn is_blank(s: &str) -> (res: bool)
    ensures
        res == (trimmed(s@).len() == 0),
{
    trim(s).is_empty()
}

/// The number of characters before the first line feed of `s`, or the length of
/// `s` where there is none.
pub open spec fn line_break(s: Seq<char>) -> int
    decreases s.len(),
{
    if s.len() == 0 || s[0] == '\n' {
        0
    } else {
        1 + line_break(s.drop_first())
    }
}

/// `s` without the one carriage return that it may end in.
pub open spec fn without_carriage_return(s: Seq<char>) -> Seq<char> {
    if s.len() > 0 && s.last() == '\r' {
        s.drop_last()
    } else {
        s
    }
}

/// The lines of `s`. A line ends before `"\n"` or `"\r\n"`, which are no part of it;
/// the last line may lack its end, and then keeps a carriage return.
pub open spec fn lines_of(s: Seq<char>) -> Seq<Seq<char>>
    decreases s.len(),
{
    if s.len() == 0 {
        Seq::empty()
    } else if 0 <= line_break(s) < s.len() {
        seq![without_carriage_return(s.take(line_break(s)))] + lines_of(s.skip(line_break(s) + 1))
    } else {
        seq![s]
    }
}

/// The views of the strings in `v`.
pub open spec fn str_views(v: Seq<&str>) -> Seq<Seq<char>> {
    v.map_values(|s: &str| s@)
}

proof fn lemma_line_break(s: Seq<char>, n: int)
    requires
        0 <= n <= s.len(),
        forall|j: int| 0 <= j < n ==> s[j] != '\n',
        n < s.len() ==> s[n] == '\n',
    ensures
        line_break(s) == n,
    decreases s.len(),
{
    if n > 0 {
        assert(s.drop_first()[n - 1] == s[n] || n == s.len());
        lemma_line_break(s.drop_first(), n - 1);
    }
}

/// The lines of `s`.
pub fn lines<'a>(s: &'a str) -> (res: Vec<&'a str>)
    ensures
        str_views(res@) == lines_of(s@),
{
    let chars = chars_of(s);
    let mut res: Vec<&'a str> = Vec::new();
    let mut start: usize = 0;
    let mut i: usize = 0;
    assert(s@.skip(0) == s@);
    assert(str_views(res@) == Seq::<Seq<char>>::empty());
    while i < chars.len()
        invariant
            chars@ == s@,
            start <= i <= chars.len(),
            forall|j: int| start <= j < i ==> s@[j] != '\n',
            lines_of(s@) == str_views(res@) + lines_of(s@.skip(start as int)),
        decreases chars.len() - i,
    {
        if chars[i] == '\n' {
            let ghost rest = s@.skip(start as int);
            let ghost before = res@;
            proof {
                lemma_line_break(rest, i - start);
                assert(rest.take(i - start) == s@.subrange(start as int, i as int));
                assert(rest.skip(i - start + 1) == s@.skip(i + 1));
            }
            let end: usize = if i > start && chars[i - 1] == '\r' {
                i - 1
            } else {
                i
            };
            let line = s.substring_char(start, end);
            proof {
                let whole = s@.subrange(start as int, i as int);
                if i > start {
                    assert(whole.last() == s@[i - 1]);
                    assert(whole.drop_last() == s@.subrange(start as int, i - 1));
                }
                assert(line@ == without_carriage_return(whole));
            }
            res.push(line);
            proof {
                assert(str_views(res@) == str_views(before).push(line@));
                assert(str_views(before) + (seq![line@] + lines_of(s@.skip(i + 1))) == str_views(
                    before,
                ).push(line@) + lines_of(s@.skip(i + 1)));
            }
            start = i + 1;
        }
        i = i + 1;
    }
    if start < chars.len() {
        let ghost rest = s@.skip(start as int);
        let ghost before = res@;
        proof {
            lemma_line_break(rest, rest.len() as int);
            assert(rest == s@.subrange(start as int, s@.len() as int));
        }
        let line = s.substring_char(start, chars.len());
        res.push(line);
        proof {
            assert(str_views(res@) == str_views(before).push(line@));
            assert(str_views(before) + seq![line@] == str_views(before).push(line@));
        }
    } else {
        assert(str_views(res@) + Seq::<Seq<char>>::empty() == str_views(res@));
    }
    res
}

/// What follows the first character of `s`, where that character is `c`.
pub fn strip_first<'a>(s: &'a str, c: char) -> (res: Option<&'a str>)
    ensures
        match res {
            Some(rest) => s@.len() > 0 && s@[0] == c && rest@ == s@.drop_first(),
            None => s@.len() == 0 || s@[0] != c,
        },
{
    let n = s.unicode_len();
    if n > 0 && s.get_char(0) == c {
        assert(s@.drop_first() == s@.subrange(1, n as int));
        Some(s.substring_char(1, n))
    } else {
        None
    }
}

/// What precedes the last character of `s`, where that character is `c`.
pub fn strip_last<'a>(s: &'a str, c: char) -> (res: Option<&'a str>)
    ensures
        match res {
            Some(rest) => s@.len() > 0 && s@.last() == c && rest@ == s@.drop_last(),
            None => s@.len() == 0 || s@.last() != c,
        },
{
    let n = s.unicode_len();
    if n > 0 && s.get_char(n - 1) == c {
        assert(s@.drop_last() == s@.subrange(0, n - 1));
        Some(s.substring_char(0, n - 1))
    } else {
        None
    }
}

/// `part` stands in `s` at position `i`.
pub open spec fn occurs_at(s: Seq<char>, part: Seq<char>, i: int) -> bool {
    &&& 0 <= i
    &&& i + part.len() <= s.len()
    &&& s.subrange(i, i + part.len()) == part
}

/// `part` stands somewhere in `s`.
pub open spec fn occurs_in(s: Seq<char>, part: Seq<char>) -> bool {
    exists|i: int| occurs_at(s, part, i)
}

/// Whether `part` stands in `chars` at position `i`.
fn is_at(chars: &Vec<char>, part: &Vec<char>, i: usize) -> (res: bool)
    requires
        i <= chars.len(),
    ensures
        res == occurs_at(chars@, part@, i as int),
{
    if chars.len() - i < part.len() {
        return false;
    }
    let mut k: usize = 0;
    while k < part.len()
        invariant
            i + part.len() <= chars.len(),
            k <= part.len(),
            forall|j: int| 0 <= j < k ==> chars@[i + j] == part@[j],
        decreases part.len() - k,
    {
        if chars[i + k] != part[k] {
            assert(chars@.subrange(i as int, i + part@.len())[k as int] != part@[k as int]);
            return false;
        }
        k = k + 1;
    }
    assert(chars@.subrange(i as int, i + part@.len()) == part@);
    true
}

/// Whether `part` stands somewhere in `s`.
pub fn contains(s: &str, part: &str) -> (res: bool)
    ensures
        res == occurs_in(s@, part@),
{
    let chars = chars_of(s);
    let wanted = chars_of(part);
    let mut i: usize = 0;
    while i < chars.len()
        invariant
            chars@ == s@,
            wanted@ == part@,
            i <= chars.len(),
            forall|j: int| 0 <= j < i ==> !occurs_at(s@, part@, j),
        decreases chars.len() - i,
    {
        if is_at(&chars, &wanted, i) {
            return true;
        }
        i = i + 1;
    }
    is_at(&chars, &wanted, i)
}

/// The last position at which `part` stands in `s`.
pub fn last_occurrence(s: &str, part: &str) -> (res: Option<usize>)
    ensures
        match res {
            Some(i) => occurs_at(s@, part@, i as int) && (forall|j: int|
                i < j ==> !occurs_at(s@, part@, j)),
            None => !occurs_in(s@, part@),
        },
{
    let chars = chars_of(s);
    let wanted = chars_of(part);
    let mut i: usize = chars.len();
    loop
        invariant
            chars@ == s@,
            wanted@ == part@,
            i <= chars.len(),
            forall|j: int| i < j ==> !occurs_at(s@, part@, j),
        decreases i,
    {
        if is_at(&chars, &wanted, i) {
            return Some(i);
        }
        if i == 0 {
            return None;
        }
        i = i - 1;
    }
}

/// What is left of `s` without its leading white space is an end of `s`, and does not
/// begin with white space.
pub proof fn lemma_trimmed_start(s: Seq<char>) -> (n: int)
    ensures
        0 <= n <= s.len(),
        trimmed_start(s) == s.skip(n),
        blank(s.take(n)),
        n < s.len() ==> !white_space(s[n]),
    decreases s.len(),
{
    if s.len() > 0 && white_space(s[0]) {
        let m = lemma_trimmed_start(s.drop_first());
        assert(s.drop_first().skip(m) == s.skip(m + 1));
        assert forall|i: int| 0 <= i < m + 1 implies white_space(#[trigger] s.take(m + 1)[i]) by {
            if i > 0 {
                assert(s.drop_first().take(m)[i - 1] == s[i]);
            }
        }
        m + 1
    } else {
        assert(s.skip(0) == s);
        0
    }
}

/// What is left of `s` without its trailing white space is a beginning of `s`, and does
/// not end in white space.
proof fn lemma_trimmed_end(s: Seq<char>) -> (n: int)
    ensures
        0 <= n <= s.len(),
        trimmed_end(s) == s.take(n),
        blank(s.skip(n)),
        n > 0 ==> !white_space(s[n - 1]),
    decreases s.len(),
{
    if s.len() > 0 && white_space(s.last()) {
        let m = lemma_trimmed_end(s.drop_last());
        assert(s.drop_last().take(m) == s.take(m));
        assert forall|i: int| 0 <= i < s.len() - m implies white_space(#[trigger] s.skip(m)[i]) by {
            if i < s.len() - m - 1 {
                assert(s.drop_last().skip(m)[i] == s[m + i]);
            }
        }
        m
    } else {
        assert(s.take(s.len() as int) == s);
        s.len() as int
    }
}

/// Trimming cuts white space off the two ends of a text, and nothing else: what is left
/// neither begins nor ends with white space, and all that was cut off is white space.
pub proof fn theorem_trimmed(s: Seq<char>) -> (window: (int, int))
    ensures
        0 <= window.0 <= window.1 <= s.len(),
        trimmed(s) == s.subrange(window.0, window.1),
        blank(s.take(window.0)),
        blank(s.skip(window.1)),
        trimmed(s).len() > 0 ==> !white_space(trimmed(s)[0]) && !white_space(trimmed(s).last()),
{
    let a = lemma_trimmed_start(s);
    let t = s.skip(a);
    let n = lemma_trimmed_end(t);
    assert(t.take(n) == s.subrange(a, a + n));
    assert(s.skip(a + n) == t.skip(n));
    if n > 0 {
        assert(trimmed(s)[0] == s[a]);
        assert(trimmed(s).last() == t[n - 1]);
    }
    (a, a + n)
}

/// Nothing is left of a text by trimming if and only if it is nothing but white space.
pub proof fn theorem_blank(s: Seq<char>)
    ensures
        trimmed(s).len() == 0 <==> blank(s),
{
    let w = theorem_trimmed(s);
    if trimmed(s).len() == 0 {
        assert forall|i: int| 0 <= i < s.len() implies white_space(#[trigger] s[i]) by {
            if i < w.0 {
                assert(s.take(w.0)[i] == s[i]);
            } else {
                assert(s.skip(w.1)[i - w.1] == s[i]);
            }
        }
    } else {
        assert(trimmed(s)[0] == s[w.0]);
    }
}

/// Trimming a trimmed text changes nothing.
pub proof fn theorem_trimmed_twice(s: Seq<char>)
    ensures
        trimmed(trimmed(s)) == trimmed(s),
{
    let w = theorem_trimmed(s);
}

/// A part of a part of a text is a part of the text.
pub proof fn lemma_occurs_within(s: Seq<char>, a: int, b: int, part: Seq<char>)
    requires
        0 <= a <= b <= s.len(),
        occurs_in(s.subrange(a, b), part),
    ensures
        occurs_in(s, part),
{
    let i = choose|i: int| occurs_at(s.subrange(a, b), part, i);
    assert(s.subrange(a + i, a + i + part.len()) == s.subrange(a, b).subrange(i, i + part.len()));
    assert(occurs_at(s, part, a + i));
}

/// A subrange of a text is a part of it.
pub proof fn lemma_subrange_occurs(s: Seq<char>, a: int, b: int)
    requires
        0 <= a <= b <= s.len(),
    ensures
        occurs_in(s, s.subrange(a, b)),
{
    assert(occurs_at(s, s.subrange(a, b), a));
}

/// The line break of a text is its first line feed.
proof fn lemma_line_break_first(s: Seq<char>)
    ensures
        0 <= line_break(s) <= s.len(),
        forall|j: int| 0 <= j < line_break(s) ==> s[j] != '\n',
        line_break(s) < s.len() ==> s[line_break(s)] == '\n',
    decreases s.len(),
{
    if s.len() > 0 && s[0] != '\n' {
        lemma_line_break_first(s.drop_first());
        assert forall|j: int| 0 <= j < line_break(s) implies s[j] != '\n' by {
            if j > 0 {
                assert(s.drop_first()[j - 1] == s[j]);
            }
        }
    }
}

/// Every line of a text is a part of the text, and holds no line feed.
pub proof fn theorem_lines_occur(s: Seq<char>, i: int)
    requires
        0 <= i < lines_of(s).len(),
    ensures
        occurs_in(s, lines_of(s)[i]),
        forall|j: int| 0 <= j < lines_of(s)[i].len() ==> lines_of(s)[i][j] != '\n',
    decreases s.len(),
{
    lemma_line_break_first(s);
    let n = line_break(s);
    if n < s.len() {
        let first = s.take(n);
        let rest = s.skip(n + 1);
        if i == 0 {
            assert(lines_of(s)[0] == without_carriage_return(first));
            if n > 0 && first.last() == '\r' {
                assert(first.drop_last() == s.subrange(0, n - 1));
                lemma_subrange_occurs(s, 0, n - 1);
            } else {
                assert(first == s.subrange(0, n));
                lemma_subrange_occurs(s, 0, n);
            }
        } else {
            theorem_lines_occur(rest, i - 1);
            assert(lines_of(s)[i] == lines_of(rest)[i - 1]);
            assert(rest == s.subrange(n + 1, s.len() as int));
            lemma_occurs_within(s, n + 1, s.len() as int, lines_of(rest)[i - 1]);
        }
    } else {
        assert(s == s.subrange(0, s.len() as int));
        lemma_subrange_occurs(s, 0, s.len() as int);
    }
}

/// The lines of two texts with a line feed between them are those of the one, ended by the
/// line feed, and then those of the other.
pub proof fn theorem_lines_joined(a: Seq<char>, b: Seq<char>)
    ensures
        lines_of(a.push('\n') + b) == lines_of(a.push('\n')) + lines_of(b),
    decreases a.len(),
{
    let ended = a.push('\n');
    let s = ended + b;
    lemma_line_break_first(ended);
    let n = line_break(ended);
    assert(ended[a.len() as int] == '\n');
    assert(n <= a.len());
    assert forall|j: int| 0 <= j < n implies s[j] != '\n' by {
        assert(s[j] == ended[j]);
    }
    assert(s[n] == ended[n]);
    lemma_line_break(s, n);
    assert(s.take(n) == ended.take(n));
    let first = without_carriage_return(ended.take(n));
    if n < a.len() {
        let rest = a.skip(n + 1);
        assert(ended.skip(n + 1) == rest.push('\n'));
        assert(s.skip(n + 1) == rest.push('\n') + b);
        theorem_lines_joined(rest, b);
        assert(seq![first] + (lines_of(rest.push('\n')) + lines_of(b)) == (seq![first] + lines_of(
            rest.push('\n'),
        )) + lines_of(b));
    } else {
        assert(ended.skip(n + 1) == Seq::<char>::empty());
        assert(lines_of(Seq::<char>::empty()) == Seq::<Seq<char>>::empty());
        assert(s.skip(n + 1) == b);
        assert(seq![first] + Seq::<Seq<char>>::empty() == seq![first]);
    }
}

/// A line feed at the end of a text ends its last line, or, behind another one or alone,
/// adds an empty line.
pub proof fn theorem_last_line_ended(a: Seq<char>)
    ensures
        ({
            let open = lines_of(a);
            let ended = lines_of(a.push('\n'));
            if a.len() == 0 || a.last() == '\n' {
                ended == open.push(Seq::empty())
            } else {
                &&& open.len() > 0
                &&& ended == open.drop_last().push(without_carriage_return(open.last()))
            }
        }),
    decreases a.len(),
{
    let ended = a.push('\n');
    lemma_line_break_first(ended);
    lemma_line_break_first(a);
    let n = line_break(ended);
    assert(ended[a.len() as int] == '\n');
    assert(n <= a.len());
    if n < a.len() {
        let rest = a.skip(n + 1);
        assert forall|j: int| 0 <= j < n implies a[j] != '\n' by {
            assert(a[j] == ended[j]);
        }
        assert(a[n] == ended[n]);
        lemma_line_break(a, n);
        assert(ended.take(n) == a.take(n));
        assert(ended.skip(n + 1) == rest.push('\n'));
        theorem_last_line_ended(rest);
        let first = without_carriage_return(a.take(n));
        assert(lines_of(a) == seq![first] + lines_of(rest));
        assert(lines_of(ended) == seq![first] + lines_of(rest.push('\n')));
        if rest.len() > 0 {
            assert(rest.last() == a.last());
        }
        if a.last() == '\n' {
            assert(lines_of(ended) == lines_of(a).push(Seq::empty()));
        } else {
            assert(rest.len() > 0);
            assert(lines_of(a).last() == lines_of(rest).last());
            assert(lines_of(a).drop_last() == seq![first] + lines_of(rest).drop_last());
            assert(lines_of(ended) == lines_of(a).drop_last().push(
                without_carriage_return(lines_of(a).last()),
            ));
        }
    } else {
        assert(ended.skip(n + 1) == Seq::<char>::empty());
        assert(lines_of(Seq::<char>::empty()) == Seq::<Seq<char>>::empty());
        assert(ended.take(n) == a);
        assert(lines_of(ended) == seq![without_carriage_return(a)]);
        if a.len() > 0 {
            assert(a.last() == ended[a.len() - 1]);
            assert forall|j: int| 0 <= j < a.len() implies a[j] != '\n' by {
                assert(a[j] == ended[j]);
            }
            lemma_line_break(a, a.len() as int);
            assert(lines_of(a) == seq![a]);
            assert(lines_of(a).drop_last().push(without_carriage_return(a)) == lines_of(ended));
        } else {
            assert(a == Seq::<char>::empty());
            assert(lines_of(ended) == lines_of(a).push(Seq::empty()));
        }
    }
}

/// White space behind a text does not count for what is left without leading white space,
/// unless nothing is left.
pub proof fn lemma_trimmed_start_push(s: Seq<char>, c: char)
    requires
        white_space(c),
    ensures
        trimmed_start(s.push(c)) == (if trimmed_start(s).len() == 0 {
            Seq::empty()
        } else {
            trimmed_start(s).push(c)
        }),
    decreases s.len(),
{
    reveal_with_fuel(trimmed_start, 2);
    if s.len() == 0 {
        assert(s.push(c).drop_first() == Seq::<char>::empty());
    } else if white_space(s[0]) {
        assert(s.push(c)[0] == s[0]);
        assert(s.push(c).drop_first() == s.drop_first().push(c));
        lemma_trimmed_start_push(s.drop_first(), c);
    } else {
        assert(s.push(c)[0] == s[0]);
    }
}

/// White space behind a text goes with trimming.
pub proof fn theorem_trimmed_push(s: Seq<char>, c: char)
    requires
        white_space(c),
    ensures
        trimmed(s.push(c)) == trimmed(s),
{
    lemma_trimmed_start_push(s, c);
    let t = trimmed_start(s);
    assert(t.push(c).drop_last() == t);
    assert(t.push(c).last() == c);
}

/// Trimming a line takes the carriage return at its end along.
pub proof fn lemma_trimmed_line(line: Seq<char>)
    ensures
        trimmed(without_carriage_return(line)) == trimmed(line),
{
    if line.len() > 0 && line.last() == '\r' {
        theorem_trimmed_push(line.drop_last(), '\r');
        assert(line.drop_last().push('\r') == line);
    }
}

/// A text is blank if and only if all its lines are.
pub proof fn theorem_blank_lines(s: Seq<char>)
    ensures
        blank(s) <==> forall|i: int| 0 <= i < lines_of(s).len() ==> blank(#[trigger] lines_of(s)[i]),
    decreases s.len(),
{
    lemma_line_break_first(s);
    let n = line_break(s);
    if s.len() == 0 {
    } else if n < s.len() {
        let first = s.take(n);
        let rest = s.skip(n + 1);
        let line = without_carriage_return(first);
        theorem_blank_lines(rest);
        assert(lines_of(s) == seq![line] + lines_of(rest));
        assert(lines_of(s)[0] == line);
        assert(forall|i: int| 0 <= i < lines_of(rest).len() ==> lines_of(s)[i + 1] == lines_of(rest)[i]);
        if blank(s) {
            assert forall|i: int| 0 <= i < line.len() implies white_space(#[trigger] line[i]) by {
                assert(line[i] == s[i]);
            }
            assert forall|i: int| 0 <= i < rest.len() implies white_space(#[trigger] rest[i]) by {
                assert(rest[i] == s[n + 1 + i]);
            }
            assert forall|i: int| 0 <= i < lines_of(s).len() implies blank(
                #[trigger] lines_of(s)[i],
            ) by {
                if i > 0 {
                    assert(lines_of(s)[i] == lines_of(rest)[i - 1]);
                }
            }
        }
        if forall|i: int| 0 <= i < lines_of(s).len() ==> blank(#[trigger] lines_of(s)[i]) {
            assert forall|i: int| 0 <= i < lines_of(rest).len() implies blank(
                #[trigger] lines_of(rest)[i],
            ) by {
                assert(lines_of(s)[i + 1] == lines_of(rest)[i]);
            }
            assert(blank(line));
            assert forall|i: int| 0 <= i < s.len() implies white_space(#[trigger] s[i]) by {
                if i < n {
                    if i < line.len() {
                        assert(line[i] == s[i]);
                    } else {
                        assert(first.last() == s[i]);
                    }
                } else if i > n {
                    assert(rest[i - n - 1] == s[i]);
                }
            }
        }
    } else {
        assert(lines_of(s) == seq![s]);
        assert(lines_of(s)[0] == s);
    }
}

/// A text without a line feed is one line, unless it is empty; and ended by a line feed it
/// is one line, without the one carriage return that may stand before the line feed.
pub proof fn theorem_one_line(a: Seq<char>)
    requires
        forall|i: int| 0 <= i < a.len() ==> a[i] != '\n',
    ensures
        a.len() == 0 ==> lines_of(a) == Seq::<Seq<char>>::empty(),
        a.len() > 0 ==> lines_of(a) == seq![a],
        a.len() > 0 && a.last() == '\r' ==> lines_of(a.push('\n')) == seq![a.drop_last()],
        a.len() == 0 || a.last() != '\r' ==> lines_of(a.push('\n')) == seq![a],
{
    lemma_line_break(a, a.len() as int);
    lemma_line_break(a.push('\n'), a.len() as int);
    assert(a.push('\n').take(a.len() as int) == a);
    assert(a.push('\n').skip(a.len() as int + 1) == Seq::<char>::empty());
    assert(lines_of(Seq::<char>::empty()) == Seq::<Seq<char>>::empty());
    assert(lines_of(a.push('\n')) == seq![without_carriage_return(a)]);
}

/// A part of a text is what stands between a beginning and an end of it.
pub proof fn theorem_occurs(s: Seq<char>, part: Seq<char>)
    ensures
        occurs_in(s, part) <==> exists|before: Seq<char>, behind: Seq<char>|
            s == #[trigger] (before + part + behind),
{
    if occurs_in(s, part) {
        let i = choose|i: int| occurs_at(s, part, i);
        assert(s == s.take(i) + part + s.skip(i + part.len()));
    }
    if exists|before: Seq<char>, behind: Seq<char>| s == #[trigger] (before + part + behind) {
        let (before, behind) = choose|before: Seq<char>, behind: Seq<char>|
            s == #[trigger] (before + part + behind);
        assert(s.subrange(before.len() as int, before.len() as int + part.len()) == part);
        assert(occurs_at(s, part, before.len() as int));
    }
}

/// What is left of a text between blank ends is all of it from its first to its last
/// character that is not white space.
pub proof fn theorem_trimmed_between(before: Seq<char>, s: Seq<char>, behind: Seq<char>)
    requires
        blank(before),
        blank(behind),
        s.len() > 0,
        !white_space(s[0]),
        !white_space(s.last()),
    ensures
        trimmed(before + s + behind) == s,
        trimmed_start(before + s) == s,
{
    let t = before + s + behind;
    let n = before.len() as int;
    let m = n + s.len();
    lemma_trimmed_start_at(t, n);
    lemma_trimmed_start_at(before + s, n);
    assert((before + s).skip(n) == s);
    let rest = t.skip(n);
    assert(rest == s + behind);
    lemma_trimmed_end_at(rest, s.len() as int);
    assert(rest.take(s.len() as int) == s);
}

proof fn lemma_trimmed_start_at(s: Seq<char>, n: int)
    requires
        0 <= n < s.len(),
        forall|i: int| 0 <= i < n ==> white_space(#[trigger] s[i]),
        !white_space(s[n]),
    ensures
        trimmed_start(s) == s.skip(n),
    decreases s.len(),
{
    if n > 0 {
        let r = s.drop_first();
        assert forall|i: int| 0 <= i < n - 1 implies white_space(#[trigger] r[i]) by {
            assert(r[i] == s[i + 1]);
        }
        assert(white_space(s[0]));
        lemma_trimmed_start_at(r, n - 1);
        assert(r.skip(n - 1) == s.skip(n));
    } else {
        assert(s.skip(0) == s);
    }
}

proof fn lemma_trimmed_end_at(s: Seq<char>, n: int)
    requires
        0 < n <= s.len(),
        forall|i: int| n <= i < s.len() ==> white_space(#[trigger] s[i]),
        !white_space(s[n - 1]),
    ensures
        trimmed_end(s) == s.take(n),
    decreases s.len(),
{
    if n < s.len() {
        let r = s.drop_last();
        assert forall|i: int| n <= i < r.len() implies white_space(#[trigger] r[i]) by {
            assert(r[i] == s[i]);
        }
        assert(white_space(s[s.len() - 1]));
        lemma_trimmed_end_at(r, n);
        assert(r.take(n) == s.take(n));
    } else {
        assert(s.take(n) == s);
    }
}

} // verus!
