//! The Docs tab shows what the documentation of a request says.

use vstd::prelude::*;

use crate::app::state::AppView;
use crate::model::{FieldDocView, RequestView};
use crate::style::LineView;
use crate::text::{join, lines};
use crate::ui::{docs_text, field_lines, fields_at, section, sections};

verus! {

/// Whether the lines of `block` stand in `all`, one after another, from `at` on.
pub open spec fn stands_at(all: Seq<LineView>, block: Seq<LineView>, at: int) -> bool {
    0 <= at && at + block.len() <= all.len() && forall|i: int|
        0 <= i < block.len() ==> #[trigger] all[at + i] == block[i]
}

pub open spec fn has_block(all: Seq<LineView>, block: Seq<LineView>) -> bool {
    exists|at: int| #[trigger] stands_at(all, block, at)
}

proof fn lemma_block_kept(a: Seq<LineView>, b: Seq<LineView>, block: Seq<LineView>)
    ensures
        has_block(a, block) ==> has_block(a + b, block),
        has_block(b, block) ==> has_block(a + b, block),
{
    if has_block(a, block) {
        let at = choose|at: int| #[trigger] stands_at(a, block, at);
        assert(stands_at(a + b, block, at));
    }
    if has_block(b, block) {
        let at = choose|at: int| #[trigger] stands_at(b, block, at);
        assert forall|i: int| 0 <= i < block.len() implies #[trigger] (a + b)[a.len() + at + i]
            == block[i] by {
            assert(b[at + i] == block[i]);
        }
        assert(stands_at(a + b, block, a.len() + at));
    }
}

/// Whether `shown` is what a field looks like: its name, a star where it is
/// required, its type and its default on one line, then its accepted values, then
/// its description line by line.
pub open spec fn shows(shown: Seq<LineView>, d: FieldDocView) -> bool {
    let listed: int = if d.options.len() > 0 {
        1
    } else {
        0
    };
    let said = match d.description {
        Some(t) => lines(t),
        None => Seq::empty(),
    };
    &&& shown.len() == 1 + listed + said.len()
    &&& shown[0].spans.len() == (if d.default is Some {
        5int
    } else {
        4int
    })
    &&& shown[0].spans[0].text == "  "@ + d.name
    &&& shown[0].spans[1].text == (if d.required {
        "*"@
    } else {
        ""@
    })
    &&& shown[0].spans[3].text == d.ty
    &&& d.default is Some ==> shown[0].spans[4].text == "  = "@ + d.default->0
    &&& d.options.len() > 0 ==> shown[1].spans.len() == 2 && shown[1].spans[0].text == "    one of: "@
        && shown[1].spans[1].text == join(d.options, " | "@)
    &&& forall|i: int|
        0 <= i < said.len() ==> (#[trigger] shown[1 + listed + i]).spans.len() == 1 && shown[1 + listed
            + i].spans[0].text == "    "@ + said[i]
}

/// The lines of a field show all there is to say of it.
pub proof fn lemma_field_is_shown(d: FieldDocView)
    ensures
        shows(field_lines(d), d),
{
}

/// The fields of a place are those of a first part, then those of a second; a
/// single field counts just when it has that place.
pub proof fn lemma_fields_in_order(
    a: Seq<FieldDocView>,
    b: Seq<FieldDocView>,
    d: FieldDocView,
    location: Seq<char>,
)
    ensures
        fields_at(a + b, location) == fields_at(a, location) + fields_at(b, location),
        d.location == location ==> fields_at(seq![d], location) == field_lines(d),
        d.location != location ==> fields_at(seq![d], location).len() == 0,
    decreases b.len(),
{
    assert(seq![d].drop_last() =~= Seq::<FieldDocView>::empty());
    assert(fields_at(seq![d].drop_last(), location) =~= Seq::<LineView>::empty());
    if d.location == location {
        assert(fields_at(seq![d], location) =~= field_lines(d));
    }
    if b.len() == 0 {
        assert(a + b =~= a);
        assert(fields_at(b, location) =~= Seq::<LineView>::empty());
        assert(fields_at(a, location) + fields_at(b, location) =~= fields_at(a, location));
    } else {
        lemma_fields_in_order(a, b.drop_last(), d, location);
        assert((a + b).drop_last() =~= a + b.drop_last());
        assert(fields_at(a + b, location) =~= fields_at(a, location) + fields_at(b, location));
    }
}

proof fn lemma_field_at(docs: Seq<FieldDocView>, i: int)
    requires
        0 <= i < docs.len(),
    ensures
        has_block(fields_at(docs, docs[i].location), field_lines(docs[i])),
{
    let d = docs[i];
    let loc = d.location;
    let before = docs.take(i);
    let after = docs.skip(i + 1);
    assert(docs =~= before + seq![d] + after);
    lemma_fields_in_order(before + seq![d], after, d, loc);
    lemma_fields_in_order(before, seq![d], d, loc);
    let block = field_lines(d);
    assert(stands_at(block, block, 0));
    lemma_block_kept(fields_at(before, loc), block, block);
    lemma_block_kept(fields_at(before + seq![d], loc), fields_at(after, loc), block);
}

proof fn lemma_section(docs: Seq<FieldDocView>, i: int, heading: Seq<char>)
    requires
        0 <= i < docs.len(),
    ensures
        has_block(section(docs, docs[i].location, heading), field_lines(docs[i])),
        section(docs, docs[i].location, heading).len() > 2,
        section(docs, docs[i].location, heading)[1].spans.len() == 1,
        section(docs, docs[i].location, heading)[1].spans[0].text == heading,
{
    lemma_field_at(docs, i);
    let fields = fields_at(docs, docs[i].location);
    let block = field_lines(docs[i]);
    let all = section(docs, docs[i].location, heading);
    let at = choose|at: int| #[trigger] stands_at(fields, block, at);
    assert(fields.len() > 0);
    assert forall|k: int| 0 <= k < block.len() implies #[trigger] all[2 + at + k] == block[k] by {
        assert(fields[at + k] == block[k]);
    }
    assert(stands_at(all, block, 2 + at));
}

/// Every documented parameter and every documented field of a body or a response is
/// shown in the Docs tab.
pub proof fn lemma_every_field_is_shown(a: AppView, r: RequestView, i: int)
    requires
        a.request() == Some(r),
        0 <= i < r.docs.len(),
        ({
            let l = r.docs[i].location;
            l == "path"@ || l == "query"@ || l == "header"@ || l == "body"@ || l == "response"@
        }),
    ensures
        exists|block: Seq<LineView>| #[trigger]
            has_block(docs_text(a), block) && shows(block, r.docs[i]),
{
    let docs = r.docs;
    let d = docs[i];
    let block = field_lines(d);
    let s1 = section(docs, "path"@, "Path params"@);
    let s2 = section(docs, "query"@, "Query params"@);
    let s3 = section(docs, "header"@, "Headers"@);
    let s4 = section(docs, "body"@, "Body"@);
    let s5 = section(docs, "response"@, "Response"@);
    if d.location == "path"@ {
        lemma_section(docs, i, "Path params"@);
    } else if d.location == "query"@ {
        lemma_section(docs, i, "Query params"@);
    } else if d.location == "header"@ {
        lemma_section(docs, i, "Headers"@);
    } else if d.location == "body"@ {
        lemma_section(docs, i, "Body"@);
    } else {
        lemma_section(docs, i, "Response"@);
    }
    lemma_block_kept(s1, s2, block);
    lemma_block_kept(s1 + s2, s3, block);
    lemma_block_kept(s1 + s2 + s3, s4, block);
    lemma_block_kept(s1 + s2 + s3 + s4, s5, block);
    assert(has_block(sections(docs), block));
    let whole = docs_text(a);
    let front = whole.take(whole.len() - sections(docs).len());
    assert(whole =~= front + sections(docs));
    lemma_block_kept(front, sections(docs), block);
    lemma_field_is_shown(d);
    assert(has_block(docs_text(a), block) && shows(block, d));
}

/// The Docs tab begins with the verb, the path and the summary, and shows the
/// description of the operation line by line.
pub proof fn lemma_operation_is_shown(a: AppView, r: RequestView)
    requires
        a.request() == Some(r),
    ensures
        ({
            let all = docs_text(a);
            &&& all.len() > 0
            &&& all[0].spans.len() == 3
            &&& all[0].spans[0].text == r.method.verb() + " "@ + r.path
            &&& all[0].spans[2].text == (match r.summary {
                Some(s) => s,
                None => r.name,
            })
            &&& r.description matches Some(t) ==> forall|i: int|
                0 <= i < lines(t).len() ==> (#[trigger] all[2 + i]).spans.len() == 1
                    && all[2 + i].spans[0].text == ""@ + lines(t)[i]
        }),
{
}

/// A request without documentation says so.
pub proof fn lemma_missing_docs_are_told(a: AppView, r: RequestView)
    requires
        a.request() == Some(r),
        r.docs.len() == 0,
        r.description is None,
    ensures
        docs_text(a).len() == 4,
        docs_text(a)[2].spans[0].text
            == "No spec docs for this request. Hand-made requests have none;"@,
{
    assert(fields_at(r.docs, "path"@).len() == 0);
    assert(fields_at(r.docs, "query"@).len() == 0);
    assert(fields_at(r.docs, "header"@).len() == 0);
    assert(fields_at(r.docs, "body"@).len() == 0);
    assert(fields_at(r.docs, "response"@).len() == 0);
}

} // verus!
