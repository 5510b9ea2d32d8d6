//! The body of a request in the text area and in an editor.

use vstd::prelude::*;

use crate::app::effects::{draft_name, EndView};
use crate::app::kinds::ExternalEdit;
use crate::app::state::{body_from, text_rows, AppView};
use crate::app::text_box::BoxView;
use crate::highlight::{lemma_lines_rejoin, syntax_of, Syntax};
use crate::text::{
    decimal, find, lacks, lemma_find_from, lines, split, trim, trim_end_char,
    without_return,
};

verus! {

proof fn lemma_pieces(s: Seq<char>, i: int)
    requires
        lacks(s, '\r'),
    ensures
        split(s, '\n').len() > 0,
        0 <= i < split(s, '\n').len() ==> lacks(split(s, '\n')[i], '\r'),
        s.len() > 0 && s.last() != '\n' ==> split(s, '\n').last().len() > 0,
    decreases s.len(),
{
    lemma_find_from(s, seq!['\n'], 0);
    match find(s, seq!['\n']) {
        Some(k) => {
            let head = s.take(k);
            let rest = s.skip(k + 1);
            assert(s.subrange(k, k + 1)[0] == s[k]);
            assert forall|j: int| 0 <= j < rest.len() implies #[trigger] rest[j] != '\r' by {
                assert(rest[j] == s[k + 1 + j]);
            }
            assert forall|j: int| 0 <= j < head.len() implies #[trigger] head[j] != '\r' by {
                assert(head[j] == s[j]);
            }
            lemma_pieces(rest, i - 1);
            let all = split(s, '\n');
            assert(all == seq![head] + split(rest, '\n'));
            if 0 < i < all.len() {
                assert(all[i] == split(rest, '\n')[i - 1]);
            }
            if s.last() != '\n' {
                assert(rest.len() > 0);
                assert(rest.last() == s.last());
                assert(all.last() == split(rest, '\n').last());
            }
        },
        None => {},
    }
}

/// A body put into the text area and taken out again is the same body. A trailing
/// line end and carriage returns are the text area's to drop.
pub proof fn lemma_bodies_survive_the_text_area(body: Seq<char>)
    requires
        trim(body).len() > 0,
        lacks(body, '\r'),
        body.len() > 0,
        body.last() != '\n',
    ensures
        body_from(BoxView::holding(text_rows(body)).lines) == Some(body),
{
    reveal_strlit("\n");
    assert("\n"@ =~= seq!['\n']);
    let pieces = split(body, '\n');
    lemma_pieces(body, 0);
    let rows = lines(body);
    assert forall|i: int| 0 <= i < pieces.len() implies without_return(#[trigger] pieces[i])
        == pieces[i] by {
        lemma_pieces(body, i);
        if pieces[i].len() > 0 {
            assert(pieces[i][pieces[i].len() - 1] != '\r');
        }
    }
    assert(rows =~= pieces);
    lemma_lines_rejoin(body);
    assert(trim_end_char(body, '\n') == body);
}

/// A blank text area is no body.
pub proof fn lemma_blank_bodies()
    ensures
        body_from(seq![Seq::<char>::empty()]) is None,
        BoxView::holding(text_rows(Seq::empty())).lines == seq![Seq::<char>::empty()],
{
    let t = Seq::<char>::empty();
    assert(crate::text::join(seq![t], "\n"@) == t);
    assert(trim_end_char(t, '\n') == t);
    assert(trim(t) == t);
}

/// What an editor leaves becomes the body of the open request and stands in the
/// text area; no other request changes.
pub proof fn lemma_edited_bodies(a: AppView, text: Seq<char>, i: usize)
    requires
        a.selected == Some(i),
        i < a.collection.requests.len(),
    ensures
        ({
            let b = a.edited_outside(ExternalEdit::Body, EndView::Done(text));
            &&& b.collection.requests[i as int].body == Some(text)
            &&& b.collection.requests[i as int].path == a.collection.requests[i as int].path
            &&& b.textarea == BoxView::holding(text_rows(text))
            &&& b.dirty
            &&& forall|k: int|
                0 <= k < a.collection.requests.len() && k != i ==> #[trigger] b.collection.requests[k]
                    == a.collection.requests[k]
        }),
{
    reveal(AppView::edited_outside);
}

/// An editor that fails or does not start leaves everything.
pub proof fn lemma_failed_edits(a: AppView, why: Seq<char>)
    ensures
        a.edited_outside(ExternalEdit::Body, EndView::Exited(why)).collection == a.collection,
        a.edited_outside(ExternalEdit::Body, EndView::Exited(why)).textarea == a.textarea,
        a.edited_outside(ExternalEdit::Body, EndView::NotStarted(why)).collection == a.collection,
        a.edited_outside(ExternalEdit::Body, EndView::NotStarted(why)).textarea == a.textarea,
{
    reveal(AppView::edited_outside);
}

/// An editor is handed the body as it stands in the text area, or the response.
pub proof fn lemma_drafts(a: AppView, i: usize)
    requires
        a.selected == Some(i),
        i < a.collection.requests.len(),
    ensures
        body_from(a.textarea.lines) matches Some(b) ==> a.draft_text(ExternalEdit::Body) == Some(b),
        body_from(a.textarea.lines) is None ==> a.draft_text(ExternalEdit::Body) == Some(
            Seq::<char>::empty(),
        ),
        a.response matches Some(r) ==> a.draft_text(ExternalEdit::Response) == Some(r.body),
        a.response is None ==> a.draft_text(ExternalEdit::Response) is None,
        a.drafted(ExternalEdit::Body).pending_external is None,
        a.drafted(ExternalEdit::Response).pending_external is None,
{
    reveal(AppView::drafted);
}

/// Empty lines at the end of the text area are not part of the body.
pub proof fn lemma_trailing_lines_go(rows: Seq<Seq<char>>)
    requires
        rows.len() > 0,
    ensures
        body_from(rows.push(Seq::empty())) == body_from(rows),
{
    reveal_strlit("\n");
    assert("\n"@ =~= seq!['\n']);
    let more = rows.push(Seq::empty());
    assert(more.drop_last() =~= rows);
    let text = crate::text::join(rows, "\n"@);
    let longer = crate::text::join(more, "\n"@);
    assert(longer =~= text.push('\n'));
    assert(longer.drop_last() =~= text);
}

/// A draft is named after what is edited, the process and the syntax of its text.
pub proof fn lemma_draft_names(text: Seq<char>, process: nat)
    ensures
        syntax_of(text) == Syntax::Json ==> draft_name(ExternalEdit::Body, text, process)
            == "cielago-"@ + "body"@ + "-"@ + decimal(process) + "."@ + "json"@,
        syntax_of(text) == Syntax::Xml ==> draft_name(ExternalEdit::Body, text, process)
            == "cielago-"@ + "body"@ + "-"@ + decimal(process) + "."@ + "xml"@,
        syntax_of(text) == Syntax::Plain ==> draft_name(ExternalEdit::Response, text, process)
            == "cielago-"@ + "response"@ + "-"@ + decimal(process) + "."@ + "txt"@,
{
}

} // verus!
