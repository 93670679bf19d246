//! The assistant's reply as the terminal screen shows it.

use vstd::prelude::*;

use crate::text;

verus! {

/// The character that opens a line of the assistant on the screen.
pub const ASSISTANT_LINE_MARKER: char = '\u{23fa}';

/// A duration in seconds as the screen prints it: digits and points, then an `s`.
pub open spec fn is_duration(d: Seq<char>) -> bool {
    &&& d.len() > 0
    &&& d.last() == 's'
    &&& forall|i: int| 0 <= i < d.len() - 1 ==> duration_char(#[trigger] d[i])
}

/// A digit or a point.
pub open spec fn duration_char(c: char) -> bool {
    ('0' <= c && c <= '9') || c == '.'
}

/// `s` is its first `n` characters followed by a duration in parentheses, after a space.
pub open spec fn duration_after(s: Seq<char>, n: int) -> bool {
    &&& 0 <= n
    &&& n + 3 <= s.len()
    &&& s[n] == ' '
    &&& s[n + 1] == '('
    &&& is_duration(s.subrange(n + 2, s.len() - 1))
    &&& s.last() == ')'
}

/// `s` without the duration in parentheses that it may end in.
pub open spec fn without_duration(s: Seq<char>) -> Seq<char> {
    if exists|n: int| duration_after(s, n) {
        s.take(choose|n: int| duration_after(s, n))
    } else {
        s
    }
}

/// What the assistant says on one line of the screen: the line opens, after white
/// space, with the marker and a space, and something other than white space follows. A
/// duration in parentheses behind other text is dropped.
pub open spec fn line_text(line: Seq<char>) -> Option<Seq<char>> {
    let shown = text::trimmed_start(line);
    if shown.len() >= 2 && shown[0] == ASSISTANT_LINE_MARKER && shown[1] == ' ' {
        let said = text::trimmed(without_duration(text::trimmed(shown.skip(2))));
        if said.len() == 0 {
            None
        } else {
            Some(said)
        }
    } else {
        None
    }
}

/// What the assistant says on the last of `lines` on which it says something.
pub open spec fn latest_text(lines: Seq<Seq<char>>) -> Option<Seq<char>>
    decreases lines.len(),
{
    if lines.len() == 0 {
        None
    } else if line_text(lines.last()) is Some {
        line_text(lines.last())
    } else {
        latest_text(lines.drop_last())
    }
}

/// What the assistant says on the screen.
pub open spec fn screen_text(screen: Seq<char>) -> Option<Seq<char>> {
    latest_text(text::lines_of(screen))
}

/// A duration in parentheses starts at one position only.
proof fn lemma_duration_unique(s: Seq<char>, n: int, m: int)
    requires
        duration_after(s, n),
        duration_after(s, m),
    ensures
        n == m,
{
    if n < m {
        lemma_duration_not_later(s, n, m);
    } else if m < n {
        lemma_duration_not_later(s, m, n);
    }
}

/// After the position where a duration in parentheses starts, no `" ("` stands before the end.
proof fn lemma_duration_not_later(s: Seq<char>, n: int, m: int)
    requires
        duration_after(s, n),
        n < m,
        m + 2 < s.len(),
    ensures
        !(s[m] == ' ' && s[m + 1] == '('),
{
    let d = s.subrange(n + 2, s.len() - 1);
    if m > n + 1 {
        assert(d[m - n - 2] == s[m]);
        if m - n - 2 < d.len() - 1 {
            assert(duration_char(d[m - n - 2]));
        }
    }
}

/// `s` without the duration in parentheses that it may end in.
pub fn strip_duration_suffix<'a>(s: &'a str) -> (res: &'a str)
    ensures
        res@ == without_duration(s@),
{
    proof {
        reveal_strlit(" (");
    }
    let without_close = match text::strip_last(s, ')') {
        Some(t) => t,
        None => {
            return s;
        },
    };
    let at: usize = match text::last_occurrence(without_close, " (") {
        Some(at) => at,
        None => {
            proof {
                if exists|n: int| duration_after(s@, n) {
                    let n = choose|n: int| duration_after(s@, n);
                    assert(without_close@.subrange(n, n + 2) == " ("@);
                    assert(text::occurs_at(without_close@, " ("@, n));
                }
            }
            return s;
        },
    };
    let chars = text::chars_of(without_close);
    let ghost inner = without_close@;
    assert(inner.subrange(at as int, at + 2)[0] == ' ');
    assert(inner.subrange(at as int, at + 2)[1] == '(');
    let ghost d = s@.subrange(at + 2, s@.len() - 1);
    proof {
        assert forall|n: int| duration_after(s@, n) implies n == at by {
            if n < at {
                lemma_duration_not_later(s@, n, at as int);
            } else if at < n {
                assert(inner.subrange(n, n + 2) == " ("@);
                assert(text::occurs_at(inner, " ("@, n));
            }
        }
    }
    let end: usize = chars.len();
    if end <= at + 2 || chars[end - 1] != 's' {
        assert(!duration_after(s@, at as int));
        return s;
    }
    let mut i: usize = at + 2;
    while i < end - 1
        invariant
            chars@ == inner,
            s@.len() > 0,
            inner == s@.drop_last(),
            end == chars.len(),
            at + 2 <= i <= end - 1,
            d == s@.subrange(at + 2, s@.len() - 1),
            forall|j: int| at + 2 <= j < i ==> duration_char(#[trigger] inner[j]),
            forall|n: int| duration_after(s@, n) ==> n == at,
        decreases end - i,
    {
        let c = chars[i];
        if !(('0' <= c && c <= '9') || c == '.') {
            assert(d[i - at - 2] == inner[i as int]);
            assert(!duration_after(s@, at as int));
            return s;
        }
        i = i + 1;
    }
    assert(is_duration(d)) by {
        assert(d.last() == inner[end - 1]);
        assert forall|j: int| 0 <= j < d.len() - 1 implies duration_char(#[trigger] d[j]) by {
            assert(d[j] == inner[at + 2 + j]);
        }
    }
    assert(duration_after(s@, at as int));
    assert(s@.take(at as int) == inner.subrange(0, at as int));
    without_close.substring_char(0, at)
}

/// What the assistant says on one line of the screen.
pub fn assistant_text_from_line(line: &str) -> (res: Option<String>)
    ensures
        text::opt_view(res) == line_text(line@),
{
    let after_marker = match text::strip_first(text::trim_start(line), ASSISTANT_LINE_MARKER) {
        Some(t) => t,
        None => {
            return None;
        },
    };
    let after_space = match text::strip_first(after_marker, ' ') {
        Some(t) => t,
        None => {
            return None;
        },
    };
    assert(after_space@ == text::trimmed_start(line@).skip(2));
    let said = text::trim(strip_duration_suffix(text::trim(after_space)));
    if said.is_empty() {
        None
    } else {
        Some(said.to_owned())
    }
}

/// What the assistant says on the last line of the screen on which it says something.
pub fn assistant_text_from_screen(screen: &str) -> (res: Option<String>)
    ensures
        text::opt_view(res) == screen_text(screen@),
{
    let lines = text::lines(screen);
    let ghost views = text::str_views(lines@);
    let mut n: usize = lines.len();
    assert(views.take(n as int) == views);
    while n > 0
        invariant
            views == text::str_views(lines@),
            views == text::lines_of(screen@),
            n <= lines.len(),
            latest_text(views) == latest_text(views.take(n as int)),
        decreases n,
    {
        assert(views.take(n as int).last() == lines@[n - 1]@);
        assert(views.take(n as int).drop_last() == views.take(n - 1));
        let found = assistant_text_from_line(lines[n - 1]);
        if found.is_some() {
            return found;
        }
        n = n - 1;
    }
    None
}

/// A duration in parentheses at the end of a text is dropped, whatever stands before it.
pub proof fn theorem_duration_dropped(said: Seq<char>, duration: Seq<char>)
    requires
        is_duration(duration),
    ensures
        without_duration(said + " ("@ + duration + ")"@) == said,
{
    reveal_strlit(" (");
    reveal_strlit(")");
    let s = said + " ("@ + duration + ")"@;
    let n = said.len() as int;
    assert(s.subrange(n + 2, s.len() - 1) == duration);
    assert(duration_after(s, n));
    let m = choose|m: int| duration_after(s, m);
    lemma_duration_unique(s, n, m);
    assert(s.take(n) == said);
}

/// Dropping a duration leaves a beginning of the text, and leaves a text alone that does
/// not end in a parenthesis.
pub proof fn theorem_duration_prefix(s: Seq<char>) -> (n: int)
    ensures
        0 <= n <= s.len(),
        without_duration(s) == s.take(n),
        s.len() == 0 || s.last() != ')' ==> without_duration(s) == s,
{
    if exists|n: int| duration_after(s, n) {
        choose|n: int| duration_after(s, n)
    } else {
        assert(s.take(s.len() as int) == s);
        s.len() as int
    }
}

/// What the assistant says on a line is a part of the line, is not empty, and neither
/// begins nor ends with white space; and the line opens with the marker.
pub proof fn theorem_line_text(line: Seq<char>)
    ensures
        line_text(line) matches Some(said) ==> {
            &&& text::trimmed_start(line).len() > 0
            &&& text::trimmed_start(line)[0] == ASSISTANT_LINE_MARKER
            &&& said.len() > 0
            &&& !text::white_space(said[0])
            &&& !text::white_space(said.last())
            &&& text::occurs_in(line, said)
        },
{
    if line_text(line) is Some {
        let a = text::lemma_trimmed_start(line);
        let after = text::trimmed_start(line).skip(2);
        assert(after == line.subrange(a + 2, line.len() as int));
        lemma_said(after);
        text::lemma_occurs_within(
            line,
            a + 2,
            line.len() as int,
            text::trimmed(without_duration(text::trimmed(after))),
        );
    }
}

/// What is said in a text is a part of it.
proof fn lemma_said(after: Seq<char>)
    ensures
        ({
            let said = text::trimmed(without_duration(text::trimmed(after)));
            &&& text::occurs_in(after, said)
            &&& said.len() > 0 ==> !text::white_space(said[0]) && !text::white_space(said.last())
        }),
{
    let inner = text::trimmed(after);
    let kept = without_duration(inner);
    let said = text::trimmed(kept);
    let w = text::theorem_trimmed(after);
    let n = theorem_duration_prefix(inner);
    let v = text::theorem_trimmed(kept);
    assert(text::occurs_in(kept, said)) by {
        text::lemma_subrange_occurs(kept, v.0, v.1);
    }
    assert(text::occurs_in(inner, said)) by {
        assert(kept == inner.subrange(0, n));
        text::lemma_occurs_within(inner, 0, n, said);
    }
    assert(text::occurs_in(after, said)) by {
        text::lemma_occurs_within(after, w.0, w.1, said);
    }
}

/// Of two stretches of lines the later one counts, unless the assistant says nothing on
/// it.
pub proof fn theorem_latest_text(earlier: Seq<Seq<char>>, later: Seq<Seq<char>>)
    ensures
        latest_text(earlier + later) == (if latest_text(later) is Some {
            latest_text(later)
        } else {
            latest_text(earlier)
        }),
    decreases later.len(),
{
    if later.len() == 0 {
        assert(earlier + later == earlier);
    } else {
        assert((earlier + later).last() == later.last());
        assert((earlier + later).drop_last() == earlier + later.drop_last());
        theorem_latest_text(earlier, later.drop_last());
    }
}

/// The assistant says something on a screen if and only if it does so on one of its
/// lines, and what it says is what it says on the last such line.
pub proof fn theorem_screen_text(screen: Seq<char>)
    ensures
        match screen_text(screen) {
            Some(said) => exists|i: int|
                0 <= i < text::lines_of(screen).len() && line_text(
                    #[trigger] text::lines_of(screen)[i],
                ) == Some(said) && forall|j: int|
                    i < j < text::lines_of(screen).len() ==> line_text(
                        #[trigger] text::lines_of(screen)[j],
                    ) is None,
            None => forall|j: int|
                0 <= j < text::lines_of(screen).len() ==> line_text(
                    #[trigger] text::lines_of(screen)[j],
                ) is None,
        },
{
    lemma_latest_text(text::lines_of(screen));
}

proof fn lemma_latest_text(lines: Seq<Seq<char>>)
    ensures
        match latest_text(lines) {
            Some(said) => exists|i: int|
                0 <= i < lines.len() && line_text(#[trigger] lines[i]) == Some(said) && forall|
                    j: int,
                |
                    i < j < lines.len() ==> line_text(#[trigger] lines[j]) is None,
            None => forall|j: int| 0 <= j < lines.len() ==> line_text(#[trigger] lines[j]) is None,
        },
    decreases lines.len(),
{
    if lines.len() == 0 {
    } else if line_text(lines.last()) is Some {
        assert(lines[lines.len() - 1] == lines.last());
    } else {
        let init = lines.drop_last();
        lemma_latest_text(init);
        assert forall|j: int| 0 <= j < lines.len() implies (j == lines.len() - 1 || init[j]
            == #[trigger] lines[j]) by {}
        if latest_text(init) is Some {
            let said = latest_text(init)->Some_0;
            let i = choose|i: int|
                0 <= i < init.len() && line_text(#[trigger] init[i]) == Some(said) && forall|j: int|
                    i < j < init.len() ==> line_text(#[trigger] init[j]) is None;
            assert(line_text(lines[i]) == Some(said));
            assert forall|j: int| i < j < lines.len() implies line_text(
                #[trigger] lines[j],
            ) is None by {
                if j < lines.len() - 1 {
                    assert(init[j] == lines[j]);
                }
            }
        }
    }
}

/// A carriage return at the end of a line has no say in what the assistant says on it.
proof fn lemma_line_text_ended(line: Seq<char>)
    ensures
        line_text(text::without_carriage_return(line)) == line_text(line),
{
    if line.len() > 0 && line.last() == '\r' {
        let kept = line.drop_last();
        let t = text::trimmed_start(kept);
        assert(kept.push('\r') == line);
        text::lemma_trimmed_start_push(kept, '\r');
        if t.len() >= 2 {
            assert(t.push('\r')[0] == t[0] && t.push('\r')[1] == t[1]);
            assert(t.push('\r').skip(2) == t.skip(2).push('\r'));
            text::theorem_trimmed_push(t.skip(2), '\r');
        }
    }
}

/// Of two screens, one below the other, the lower one counts, unless the assistant says
/// nothing on it.
pub proof fn theorem_screens_joined(upper: Seq<char>, lower: Seq<char>)
    ensures
        screen_text(upper.push('\n') + lower) == (if screen_text(lower) is Some {
            screen_text(lower)
        } else {
            screen_text(upper)
        }),
{
    let open = text::lines_of(upper);
    let ended = text::lines_of(upper.push('\n'));
    text::theorem_lines_joined(upper, lower);
    text::theorem_last_line_ended(upper);
    theorem_latest_text(ended, text::lines_of(lower));
    if upper.len() == 0 || upper.last() == '\n' {
        assert(ended.drop_last() == open);
        assert(ended.last() == Seq::<char>::empty());
    } else {
        lemma_line_text_ended(open.last());
        assert(ended.drop_last() == open.drop_last());
        assert(ended.last() == text::without_carriage_return(open.last()));
    }
}

/// A number as a duration prints it: nothing but digits and points.
pub open spec fn duration_number(number: Seq<char>) -> bool {
    forall|i: int| 0 <= i < number.len() ==> {
        ||| '0' <= #[trigger] number[i] <= '9'
        ||| number[i] == '.'
    }
}

/// A duration behind a text is dropped; and where something is dropped, it was one.
pub proof fn theorem_durations(said: Seq<char>, number: Seq<char>, s: Seq<char>)
    ensures
        duration_number(number) ==> without_duration(said + " ("@ + number + "s)"@) == said,
        without_duration(s) != s ==> exists|n: Seq<char>| #[trigger]
            duration_number(n) && s == without_duration(s) + " ("@ + n + "s)"@,
{
    reveal_strlit(" (");
    reveal_strlit(")");
    reveal_strlit("s)");
    if duration_number(number) {
        let d = number.push('s');
        assert forall|i: int| 0 <= i < d.len() - 1 implies duration_char(#[trigger] d[i]) by {
            assert(d[i] == number[i]);
        }
        assert(is_duration(d));
        theorem_duration_dropped(said, d);
        assert(said + " ("@ + number + "s)"@ == said + " ("@ + d + ")"@);
    }
    if without_duration(s) != s {
        let m = choose|m: int| duration_after(s, m);
        let d = s.subrange(m + 2, s.len() - 1);
        let n = d.drop_last();
        assert forall|i: int| 0 <= i < n.len() implies ('0' <= #[trigger] n[i] <= '9' || n[i]
            == '.') by {
            assert(n[i] == d[i]);
            assert(duration_char(d[i]));
        }
        assert(duration_number(n));
        assert(s =~= s.take(m) + " ("@ + n + "s)"@) by {
            assert(d == n.push('s'));
            assert(d[d.len() - 1] == s[s.len() - 2]);
            assert forall|i: int| 0 <= i < n.len() implies n[i] == s[m + 2 + i] by {
                assert(d[i] == s[m + 2 + i]);
            }
        }
    }
}

/// What stands on a line behind white space, the marker and a space is what the assistant
/// says, without the white space around it and without a duration behind it; and on no other
/// line does it say anything.
pub proof fn theorem_said(lead: Seq<char>, gap: Seq<char>, said: Seq<char>, end: Seq<char>)
    requires
        text::blank(lead),
        text::blank(gap),
        text::blank(end),
        said.len() > 0,
        !text::white_space(said[0]),
        !text::white_space(said.last()),
    ensures
        said.last() != ')' ==> line_text(lead + seq!['\u{23fa}', ' '] + gap + said + end) == Some(
            said,
        ),
        forall|number: Seq<char>| #[trigger]
            duration_number(number) ==> line_text(
                lead + seq!['\u{23fa}', ' '] + gap + (said + " ("@ + number + "s)"@) + end,
            ) == Some(said),
{
    reveal_strlit(" (");
    reveal_strlit("s)");
    if said.last() != ')' {
        lemma_shown(lead, gap, said, end);
        let n = theorem_duration_prefix(said);
        let none: Seq<char> = Seq::empty();
        text::theorem_trimmed_between(none, said, none);
        assert(none + said + none == said);
    }
    assert forall|number: Seq<char>| #[trigger] duration_number(number) implies line_text(
        lead + seq!['\u{23fa}', ' '] + gap + (said + " ("@ + number + "s)"@) + end,
    ) == Some(said) by {
        let shown = said + " ("@ + number + "s)"@;
        assert(shown[0] == said[0]);
        assert(shown.last() == ')');
        lemma_shown(lead, gap, shown, end);
        theorem_durations(said, number, said);
        let none: Seq<char> = Seq::empty();
        text::theorem_trimmed_between(none, said, none);
        assert(none + said + none == said);
    }
}

/// What follows the marker on a line, trimmed.
proof fn lemma_shown(lead: Seq<char>, gap: Seq<char>, shown: Seq<char>, end: Seq<char>)
    requires
        text::blank(lead),
        text::blank(gap),
        text::blank(end),
        shown.len() > 0,
        !text::white_space(shown[0]),
        !text::white_space(shown.last()),
    ensures
        line_text(lead + seq!['\u{23fa}', ' '] + gap + shown + end) == (if text::trimmed(
            without_duration(shown),
        ).len() == 0 {
            None
        } else {
            Some(text::trimmed(without_duration(shown)))
        }),
{
    let line = lead + seq!['\u{23fa}', ' '] + gap + shown + end;
    let rest = gap + shown + end;
    theorem_marked_line(lead, rest);
    assert(line == lead + seq!['\u{23fa}', ' '] + rest);
    text::theorem_trimmed_between(gap, shown, end);
}

/// A line says what follows the marker and a space on it, behind white space at most.
pub proof fn theorem_marked_line(lead: Seq<char>, rest: Seq<char>)
    requires
        text::blank(lead),
    ensures
        ({
            let said = text::trimmed(without_duration(text::trimmed(rest)));
            &&& said.len() > 0 ==> line_text(lead + seq!['\u{23fa}', ' '] + rest) == Some(said)
            &&& said.len() == 0 ==> line_text(lead + seq!['\u{23fa}', ' '] + rest) is None
        }),
{
    let line = lead + seq!['\u{23fa}', ' '] + rest;
    let n = text::lemma_trimmed_start(line);
    assert(line[lead.len() as int] == '\u{23fa}');
    if n < lead.len() {
        assert(line[n] == lead[n]);
    } else if n > lead.len() {
        assert(line.take(n)[lead.len() as int] == '\u{23fa}');
    }
    assert(line.skip(n).skip(2) == rest);
    assert(line.skip(n)[0] == '\u{23fa}' && line.skip(n)[1] == ' ');
}

/// A line on which the assistant says something opens, behind white space at most, with the
/// marker and a space.
pub proof fn theorem_only_marked_lines(line: Seq<char>)
    ensures
        line_text(line) is Some ==> exists|lead: Seq<char>, rest: Seq<char>|
            text::blank(lead) && line == #[trigger] (lead.push('\u{23fa}').push(' ') + rest),
{
    if line_text(line) is Some {
        let n = text::lemma_trimmed_start(line);
        let lead = line.take(n);
        let rest = line.skip(n + 2);
        assert(line.skip(n)[0] == line[n] && line.skip(n)[1] == line[n + 1]);
        assert(line == lead.push('\u{23fa}').push(' ') + rest);
    }
}

} // verus!
