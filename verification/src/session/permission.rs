//! Permission requests that a turn runs into.

use vstd::prelude::*;

use crate::terminal;
use crate::terminal::DialogModel;
use crate::terminal::OptionModel;
use crate::terminal::PermissionDialog;
use crate::text;

verus! {

/// How the standard library prints a string for debugging: between quotes, and escaped.
pub uninterp spec fn quoted(s: Seq<char>) -> Seq<char>;

/// Calls the `Debug` formatting of `str`. The result depends on the text alone; how the
/// text is escaped is left unsaid.
#[verifier::external_body]
fn quote(s: &str) -> (res: String)
    ensures
        res@ == quoted(s@),
{
    format!("{:?}", s)
}

/// A permission request that waits for a decision.
#[derive(Clone, Debug, PartialEq, Eq)]
pub struct PendingPermission {
    pub session_id: String,
    pub dialog: PermissionDialog,
}

/// A waiting permission request in contracts.
pub struct PendingModel {
    pub session_id: Seq<char>,
    pub dialog: DialogModel,
}

impl View for PendingPermission {
    type V = PendingModel;

    open spec fn view(&self) -> PendingModel {
        PendingModel { session_id: self.session_id@, dialog: self.dialog@ }
    }
}

/// What is said of a permission request of the agent that nobody decides on.
pub open spec fn unhandled_message(p: PendingModel, agent: Seq<char>) -> Seq<char> {
    agent + " requested permission before transcript completion for session "@ + p.session_id
        + ": "@ + p.dialog.title
}

impl PendingPermission {
    /// What is said of this request of the agent where nobody decides on it.
    pub fn unhandled_message(&self, agent: &str) -> (res: String)
        ensures
            res@ == unhandled_message(self@, agent@),
    {
        let mut message = agent.to_owned();
        message.append(" requested permission before transcript completion for session ");
        message.append(self.session_id.as_str());
        message.append(": ");
        message.append(self.dialog.title.as_str());
        message
    }
}

/// The entry of one answer in a fingerprint, with what identifies it printed already.
pub open spec fn entry_text(
    accelerator: Seq<char>,
    label: Seq<char>,
    decision: Seq<char>,
) -> Seq<char> {
    "("@ + accelerator + ", "@ + label + ", "@ + decision + ")"@
}

/// The entries, with a comma before each of them.
pub open spec fn further_entries(entries: Seq<Seq<char>>) -> Seq<char>
    decreases entries.len(),
{
    if entries.len() == 0 {
        Seq::empty()
    } else {
        ", "@ + entries[0] + further_entries(entries.drop_first())
    }
}

/// The entries, with commas between them.
pub open spec fn joined(entries: Seq<Seq<char>>) -> Seq<char> {
    if entries.len() == 0 {
        Seq::empty()
    } else {
        entries[0] + further_entries(entries.drop_first())
    }
}

/// The fingerprint of a request with this title and these entries.
pub open spec fn framed(title: Seq<char>, entries: Seq<Seq<char>>) -> Seq<char> {
    title + "::["@ + joined(entries) + "]"@
}

/// The print of one answer.
pub open spec fn option_print(o: OptionModel) -> Seq<char> {
    entry_text(quoted(o.accelerator), quoted(o.label), o.decision)
}

/// The prints of the answers.
pub open spec fn prints(options: Seq<OptionModel>) -> Seq<Seq<char>> {
    options.map_values(|o: OptionModel| option_print(o))
}

/// The text by which a permission request is known again: its title and its answers.
pub open spec fn fingerprint(d: DialogModel) -> Seq<char> {
    framed(d.title, prints(d.options))
}

/// The entry of one answer in a fingerprint, with what identifies it printed already.
pub fn option_entry(accelerator: &str, label: &str, decision: &str) -> (res: String)
    ensures
        res@ == "("@ + accelerator@ + ", "@ + label@ + ", "@ + decision@ + ")"@,
{
    let mut entry = "(".to_owned();
    entry.append(accelerator);
    entry.append(", ");
    entry.append(label);
    entry.append(", ");
    entry.append(decision);
    entry.append(")");
    entry
}

/// The fingerprint of a request with this title and these entries.
pub fn fingerprint_of(title: &str, entries: &Vec<String>) -> (res: String)
    ensures
        res@ == framed(title@, text::string_views(entries@)),
{
    let ghost views = text::string_views(entries@);
    let mut print = title.to_owned();
    print.append("::[");
    let ghost head = print@;
    if entries.len() > 0 {
        print.append(entries[0].as_str());
        assert(views.drop_first() == views.skip(1));
        let mut i: usize = 1;
        while i < entries.len()
            invariant
                views == text::string_views(entries@),
                1 <= i <= entries.len(),
                head + joined(views) == print@ + further_entries(views.skip(i as int)),
            decreases entries.len() - i,
        {
            let ghost before = print@;
            proof {
                assert(views.skip(i as int)[0] == entries@[i as int]@);
                assert(views.skip(i as int).drop_first() == views.skip(i + 1));
            }
            print.append(", ");
            print.append(entries[i].as_str());
            assert(before + (", "@ + entries@[i as int]@ + further_entries(views.skip(i + 1)))
                == print@ + further_entries(views.skip(i + 1)));
            i = i + 1;
        }
        assert(views.skip(i as int) == Seq::<Seq<char>>::empty());
        assert(print@ + Seq::<char>::empty() == print@);
    } else {
        assert(head + Seq::<char>::empty() == head);
    }
    print.append("]");
    print
}

/// The text by which a permission request is known again.
pub fn permission_fingerprint(dialog: &PermissionDialog) -> (res: String)
    ensures
        res@ == fingerprint(dialog@),
{
    let ghost wanted = prints(terminal::option_views(dialog.options@));
    let mut entries: Vec<String> = Vec::new();
    let mut i: usize = 0;
    while i < dialog.options.len()
        invariant
            wanted == prints(terminal::option_views(dialog.options@)),
            i <= dialog.options.len(),
            entries.len() == i,
            forall|j: int| 0 <= j < i ==> (#[trigger] entries@[j])@ == wanted[j],
        decreases dialog.options.len() - i,
    {
        let option = &dialog.options[i];
        assert(wanted[i as int] == option_print(option@));
        let accelerator = quote(option.accelerator.as_str());
        let label = quote(option.label.as_str());
        entries.push(
            option_entry(accelerator.as_str(), label.as_str(), option.decision.name.as_str()),
        );
        i = i + 1;
    }
    assert(text::string_views(entries@) == wanted);
    fingerprint_of(dialog.title.as_str(), &entries)
}

/// The fingerprint begins with the title. Requests with the same answers have the same
/// fingerprint if and only if they have the same title, and requests with the same title if
/// and only if their answers print alike, which the same answers do.
pub proof fn theorem_fingerprint(a: DialogModel, b: DialogModel)
    ensures
        fingerprint(a).take(a.title.len() as int + 2) == a.title + "::"@,
        a.options == b.options ==> (fingerprint(a) == fingerprint(b) <==> a.title == b.title),
        a.title == b.title ==> (fingerprint(a) == fingerprint(b) <==> joined(prints(a.options))
            == joined(prints(b.options))),
        a.title == b.title && a.options == b.options ==> fingerprint(a) == fingerprint(b),
{
    reveal_strlit("::[");
    reveal_strlit("::");
    reveal_strlit("]");
    let x = fingerprint(a);
    let y = fingerprint(b);
    let n = a.title.len() as int;
    assert(x.take(n + 2) == a.title + "::"@);
    assert(x.take(n) == a.title);
    assert(x.subrange(n + 3, x.len() - 1) == joined(prints(a.options)));
    assert(y.take(b.title.len() as int) == b.title);
    assert(y.subrange(b.title.len() as int + 3, y.len() - 1) == joined(prints(b.options)));
    if a.options == b.options && x == y {
        assert(a.title.len() == b.title.len());
    }
}

/// Two texts that agree before and behind a part are equal if and only if the part is.
proof fn lemma_part(before: Seq<char>, x: Seq<char>, y: Seq<char>, behind: Seq<char>)
    ensures
        before + x + behind == before + y + behind <==> x == y,
{
    let p = before + x + behind;
    let q = before + y + behind;
    assert(p.subrange(before.len() as int, p.len() - behind.len()) == x);
    assert(q.subrange(before.len() as int, q.len() - behind.len()) == y);
}

/// Lists of entries that agree in all but one are told apart by that one.
proof fn lemma_one_entry(a: Seq<Seq<char>>, b: Seq<Seq<char>>, k: int)
    requires
        a.len() == b.len(),
        0 <= k < a.len(),
        forall|j: int| 0 <= j < a.len() && j != k ==> #[trigger] a[j] == b[j],
    ensures
        further_entries(a) == further_entries(b) <==> a[k] == b[k],
        joined(a) == joined(b) <==> a[k] == b[k],
    decreases a.len(),
{
    let ra = a.drop_first();
    let rb = b.drop_first();
    let none: Seq<char> = Seq::empty();
    if k == 0 {
        assert(ra == rb) by {
            assert forall|j: int| 0 <= j < ra.len() implies ra[j] == rb[j] by {
                assert(a[j + 1] == b[j + 1]);
            }
        }
        lemma_part(", "@, a[0], b[0], further_entries(ra));
        lemma_part(none, a[0], b[0], further_entries(ra));
        assert(none + a[0] == a[0] && none + b[0] == b[0]);
    } else {
        assert forall|j: int| 0 <= j < ra.len() && j != k - 1 implies #[trigger] ra[j]
            == rb[j] by {
            assert(a[j + 1] == b[j + 1]);
        }
        lemma_one_entry(ra, rb, k - 1);
        assert(ra[k - 1] == a[k] && rb[k - 1] == b[k]);
        assert(a[0] == b[0]);
        let x = further_entries(ra);
        let y = further_entries(rb);
        lemma_part(", "@ + a[0], x, y, none);
        lemma_part(a[0], x, y, none);
        assert(", "@ + a[0] + x + none == ", "@ + a[0] + x);
        assert(", "@ + a[0] + y + none == ", "@ + a[0] + y);
        assert(a[0] + x + none == a[0] + x);
        assert(a[0] + y + none == a[0] + y);
    }
}

/// Requests with the same title whose answers agree in all but one are told apart by the
/// print of that answer; and where that answer differs in its decision at most, by its
/// decision.
pub proof fn theorem_one_answer(a: DialogModel, b: DialogModel, k: int)
    requires
        a.title == b.title,
        a.options.len() == b.options.len(),
        0 <= k < a.options.len(),
        forall|j: int| 0 <= j < a.options.len() && j != k ==> #[trigger] a.options[j] == b.options[j],
    ensures
        fingerprint(a) == fingerprint(b) <==> option_print(a.options[k]) == option_print(
            b.options[k],
        ),
        a.options[k].accelerator == b.options[k].accelerator && a.options[k].label
            == b.options[k].label ==> (fingerprint(a) == fingerprint(b) <==> a.options[k].decision
            == b.options[k].decision),
{
    let pa = prints(a.options);
    let pb = prints(b.options);
    assert forall|j: int| 0 <= j < pa.len() && j != k implies #[trigger] pa[j] == pb[j] by {
        assert(a.options[j] == b.options[j]);
    }
    lemma_one_entry(pa, pb, k);
    theorem_fingerprint(a, b);
    let o = a.options[k];
    let p = b.options[k];
    if o.accelerator == p.accelerator && o.label == p.label {
        lemma_part(
            "("@ + quoted(o.accelerator) + ", "@ + quoted(o.label) + ", "@,
            o.decision,
            p.decision,
            ")"@,
        );
    }
}

/// Printed texts can be read back from the front: where two of them begin one text, they
/// are of the same text.
pub open spec fn quotes_read_back() -> bool {
    forall|s: Seq<char>, t: Seq<char>, x: Seq<char>, y: Seq<char>|
        #![trigger quoted(s) + x, quoted(t) + y]
        quoted(s) + x == quoted(t) + y ==> s == t
}

/// The name of a decision, in which no parenthesis closes.
pub open spec fn plain_decision(name: Seq<char>) -> bool {
    forall|i: int| 0 <= i < name.len() ==> #[trigger] name[i] != ')'
}

/// The names of the decisions are such names.
pub open spec fn plain_decisions(options: Seq<OptionModel>) -> bool {
    forall|i: int| 0 <= i < options.len() ==> plain_decision((#[trigger] options[i]).decision)
}

/// What stands before the first closing parenthesis is known from the text, and so is what
/// stands behind it.
proof fn lemma_closed(d: Seq<char>, x: Seq<char>, e: Seq<char>, y: Seq<char>)
    requires
        plain_decision(d),
        plain_decision(e),
        d.push(')') + x == e.push(')') + y,
    ensures
        d == e,
        x == y,
{
    let p = d.push(')') + x;
    let q = e.push(')') + y;
    assert(p[d.len() as int] == ')');
    assert(q[e.len() as int] == ')');
    if d.len() < e.len() {
        assert(q[d.len() as int] == e[d.len() as int]);
    } else if e.len() < d.len() {
        assert(p[e.len() as int] == d[e.len() as int]);
    }
    assert(p.take(d.len() as int) == d);
    assert(q.take(e.len() as int) == e);
    assert(p.skip(d.len() as int + 1) == x);
    assert(q.skip(e.len() as int + 1) == y);
}

/// What stands behind a text is known from the whole.
proof fn lemma_behind(before: Seq<char>, x: Seq<char>, y: Seq<char>)
    requires
        before + x == before + y,
    ensures
        x == y,
{
    assert((before + x).skip(before.len() as int) == x);
    assert((before + y).skip(before.len() as int) == y);
}

/// The first of two answers is known from a text that begins with its print, and so is what
/// stands behind it.
proof fn lemma_answer_read_back(o: OptionModel, x: Seq<char>, p: OptionModel, y: Seq<char>)
    requires
        quotes_read_back(),
        plain_decision(o.decision),
        plain_decision(p.decision),
        option_print(o) + x == option_print(p) + y,
    ensures
        o == p,
        x == y,
{
    reveal_strlit(")");
    let ox = o.decision.push(')') + x;
    let py = p.decision.push(')') + y;
    let ol = quoted(o.label) + (", "@ + ox);
    let pl = quoted(p.label) + (", "@ + py);
    let oa = quoted(o.accelerator) + (", "@ + ol);
    let pa = quoted(p.accelerator) + (", "@ + pl);
    assert(option_print(o) + x == "("@ + oa);
    assert(option_print(p) + y == "("@ + pa);
    lemma_behind("("@, oa, pa);
    assert(o.accelerator == p.accelerator);
    lemma_behind(quoted(o.accelerator), ", "@ + ol, ", "@ + pl);
    lemma_behind(", "@, ol, pl);
    assert(o.label == p.label);
    lemma_behind(quoted(o.label), ", "@ + ox, ", "@ + py);
    lemma_behind(", "@, ox, py);
    lemma_closed(o.decision, x, p.decision, y);
}

/// Answers are known from their prints.
proof fn lemma_answers_read_back(a: Seq<OptionModel>, b: Seq<OptionModel>)
    requires
        quotes_read_back(),
        plain_decisions(a),
        plain_decisions(b),
    ensures
        further_entries(prints(a)) == further_entries(prints(b)) ==> a == b,
        joined(prints(a)) == joined(prints(b)) ==> a == b,
    decreases a.len(),
{
    reveal_strlit(", ");
    reveal_strlit("(");
    if a.len() > 0 && b.len() > 0 {
        let ra = a.drop_first();
        let rb = b.drop_first();
        assert(prints(a).drop_first() == prints(ra));
        assert(prints(b).drop_first() == prints(rb));
        assert(forall|i: int| 0 <= i < ra.len() ==> ra[i] == a[i + 1]);
        assert(forall|i: int| 0 <= i < rb.len() ==> rb[i] == b[i + 1]);
        lemma_answers_read_back(ra, rb);
        let x = further_entries(prints(ra));
        let y = further_entries(prints(rb));
        let p = option_print(a[0]);
        let q = option_print(b[0]);
        assert(prints(a)[0] == p && prints(b)[0] == q);
        if further_entries(prints(a)) == further_entries(prints(b)) {
            assert(", "@ + p + x == ", "@ + (p + x));
            assert(", "@ + q + y == ", "@ + (q + y));
            lemma_behind(", "@, p + x, q + y);
        }
        if p + x == q + y {
            lemma_answer_read_back(a[0], x, b[0], y);
            assert(a == seq![a[0]] + ra);
            assert(b == seq![b[0]] + rb);
        }
    } else if a.len() > 0 {
        assert(prints(a)[0] == option_print(a[0]));
        assert(joined(prints(a)).len() > 0);
        assert(further_entries(prints(a)).len() > 0);
    } else if b.len() > 0 {
        assert(prints(b)[0] == option_print(b[0]));
        assert(joined(prints(b)).len() > 0);
        assert(further_entries(prints(b)).len() > 0);
    } else {
        assert(a == b);
    }
}

/// Requests with the same title have the same fingerprint if and only if they have the same
/// answers, as far as printed texts can be read back, which is left to the standard library.
pub proof fn theorem_answers_told_apart(a: DialogModel, b: DialogModel)
    requires
        a.title == b.title,
        plain_decisions(a.options),
        plain_decisions(b.options),
    ensures
        quotes_read_back() ==> (fingerprint(a) == fingerprint(b) <==> a.options == b.options),
{
    theorem_fingerprint(a, b);
    if quotes_read_back() {
        lemma_answers_read_back(a.options, b.options);
    }
}

/// Entries are joined with a comma and a space between any two that follow each other, a
/// single one stands as it is, and the title stands before them all.
pub proof fn theorem_entries_joined(
    title: Seq<char>,
    a: Seq<Seq<char>>,
    entry: Seq<char>,
    b: Seq<Seq<char>>,
)
    ensures
        joined(Seq::<Seq<char>>::empty()) == Seq::<char>::empty(),
        joined(seq![entry]) == entry,
        a.len() > 0 && b.len() > 0 ==> joined(a + b) == joined(a) + ", "@ + joined(b),
        framed(title, a) == title + "::["@ + joined(a) + "]"@,
{
    assert(seq![entry].drop_first() == Seq::<Seq<char>>::empty());
    assert(entry + Seq::<char>::empty() == entry);
    if a.len() > 0 && b.len() > 0 {
        lemma_further_entries(a.drop_first(), b);
        assert((a + b).drop_first() == a.drop_first() + b);
        let x = further_entries(a.drop_first());
        let y = further_entries(b.drop_first());
        assert(a[0] + (x + (", "@ + b[0] + y)) == a[0] + x + ", "@ + (b[0] + y));
    }
}

proof fn lemma_further_entries(a: Seq<Seq<char>>, b: Seq<Seq<char>>)
    ensures
        further_entries(a + b) == further_entries(a) + further_entries(b),
    decreases a.len(),
{
    if a.len() == 0 {
        assert(a + b == b);
        assert(Seq::<char>::empty() + further_entries(b) == further_entries(b));
    } else {
        let rest = a.drop_first();
        assert((a + b).drop_first() == rest + b);
        lemma_further_entries(rest, b);
        assert(", "@ + a[0] + (further_entries(rest) + further_entries(b)) == (", "@ + a[0]
            + further_entries(rest)) + further_entries(b));
    }
}

/// Of an answer its accelerator and its label are printed between quotes, and its decision
/// as it is named, in this order; of a list of answers each one, in order.
pub proof fn theorem_prints(options: Seq<OptionModel>, i: int)
    requires
        0 <= i < options.len(),
    ensures
        prints(options).len() == options.len(),
        prints(options)[i] == "("@ + quoted(options[i].accelerator) + ", "@ + quoted(
            options[i].label,
        ) + ", "@ + options[i].decision + ")"@,
{
}

/// A request that nobody decides on is named by agent, session and title.
pub proof fn theorem_unhandled_message(p: PendingModel, agent: Seq<char>)
    ensures
        unhandled_message(p, agent) == agent
            + " requested permission before transcript completion for session "@ + p.session_id
            + ": "@ + p.dialog.title,
{
}

/// A request is seen as it is: its session, its title, and every answer, in order.
pub proof fn theorem_pending_view(p: PendingPermission, i: int)
    requires
        0 <= i < p.dialog.options@.len(),
    ensures
        p@.session_id == p.session_id@,
        p@.dialog.title == p.dialog.title@,
        p@.dialog.options.len() == p.dialog.options@.len(),
        p@.dialog.options[i].accelerator == p.dialog.options@[i].accelerator@,
        p@.dialog.options[i].label == p.dialog.options@[i].label@,
        p@.dialog.options[i].decision == p.dialog.options@[i].decision.name@,
{
}

} // verus!
