//! Sending, saving, quitting and opening collections.

use vstd::prelude::*;

use crate::app::kinds::{EditorTab, Focus};
use crate::app::laws::requests::lemma_place_of_id;
use crate::app::sidebar::{groups_in, started};
use crate::app::state::{body_from, AppView, EffectView};
use crate::http::client::{status_line_of, ResponseView};
use crate::http::oauth::TokenView;
use crate::http::send::OutcomeView;
use crate::model::{CollectionView, RequestView};
use crate::store::ConfigView;

verus! {

// ----- sending -----

/// Sending hands out the open request, with the body as it stands in the text area,
/// to the active server, with the collection's variables and auth and the token
/// that is there.
pub proof fn lemma_what_is_sent(a: AppView, i: usize)
    requires
        a.selected == Some(i),
        i < a.collection.requests.len(),
        a.collection.active_server < a.collection.servers.len(),
    ensures
        ({
            let b = a.sent();
            let r = a.collection.requests[i as int];
            &&& b.sending
            &&& b.effect is Some && b.effect->0 is Send
            &&& {
                let job = b.effect->0->Send_0;
                &&& job.base == a.collection.servers[a.collection.active_server as int]
                &&& job.request == (RequestView { body: body_from(a.textarea.lines), ..r })
                &&& job.variables == a.collection.variables
                &&& job.auth == a.collection.auth
                &&& job.token == a.token
            }
        }),
{
    reveal(AppView::sent);
    let r = a.collection.requests[i as int];
    if r.body == body_from(a.textarea.lines) {
        assert(r == RequestView { body: body_from(a.textarea.lines), ..r });
    }
}

/// Without an open request or a server nothing is sent.
pub proof fn lemma_nothing_to_send(a: AppView)
    requires
        a.selected is None || a.collection.active_server >= a.collection.servers.len(),
    ensures
        a.sent().effect == a.effect,
        a.sent().sending == a.sending,
        a.sent().token == a.token,
{
    reveal(AppView::sent);
}

/// An answer is shown from its top, with its status line; the token that came with
/// it is kept, and no request changes.
pub proof fn lemma_answers_are_shown(a: AppView, resp: ResponseView, token: Option<TokenView>)
    ensures
        ({
            let b = a.answered(OutcomeView { result: Ok(resp), token });
            &&& b.response == Some(resp)
            &&& b.response_scroll == 0
            &&& b.status == status_line_of(resp)
            &&& b.token == token
            &&& !b.sending
            &&& b.collection == a.collection
        }),
{
    reveal(AppView::answered);
}

/// A failure is shown, and the token that came with it is kept.
pub proof fn lemma_failures_are_shown(a: AppView, why: Seq<char>, token: Option<TokenView>)
    ensures
        ({
            let b = a.answered(OutcomeView { result: Err(why), token });
            &&& b.status == why
            &&& b.token == token
            &&& b.collection == a.collection
        }),
{
    reveal(AppView::answered);
}

// ----- saving and quitting -----

/// Saving writes the text area back and records which request, pane and tab are
/// open.
pub proof fn lemma_what_is_saved(a: AppView, quit: bool, i: usize)
    requires
        a.selected == Some(i),
        i < a.collection.requests.len(),
    ensures
        ({
            let b = a.save_asked(quit);
            let r = a.collection.requests[i as int];
            &&& b.effect == Some(EffectView::Save { quit })
            &&& b.collection.last_request == Some(r.id)
            &&& b.collection.last_focus == Some(a.focus)
            &&& b.collection.last_tab == Some(a.tab)
            &&& b.collection.requests.len() == a.collection.requests.len()
            &&& b.collection.requests[i as int] == (RequestView {
                body: body_from(a.textarea.lines),
                ..r
            })
            &&& forall|k: int|
                0 <= k < a.collection.requests.len() && k != i ==> #[trigger] b.collection.requests[k]
                    == a.collection.requests[k]
            &&& b.collection.variables == a.collection.variables
            &&& b.collection.auth == a.collection.auth
            &&& b.collection.servers == a.collection.servers
        }),
{
    reveal(AppView::save_asked);
    let r = a.collection.requests[i as int];
    if r.body == body_from(a.textarea.lines) {
        assert(r == RequestView { body: body_from(a.textarea.lines), ..r });
    }
}

/// A save that worked leaves nothing unsaved, and ends the session where that was
/// asked; one that failed does neither.
pub proof fn lemma_saves_end(a: AppView, path: Seq<char>, why: Seq<char>, quit: bool)
    ensures
        !a.save_ended(Ok(path), quit).dirty,
        a.save_ended(Ok(path), quit).should_quit == (a.should_quit || quit),
        a.save_ended(Ok(path), quit).status == "Saved to "@ + path,
        a.save_ended(Err(why), quit).dirty == a.dirty,
        a.dirty ==> a.save_ended(Err(why), quit).should_quit == a.should_quit,
        a.save_ended(Err(why), quit).status == "Save failed: "@ + why,
{
    reveal(AppView::save_ended);
}

/// Quitting ends the session just when nothing is unsaved.
pub proof fn lemma_quitting(a: AppView)
    ensures
        !a.dirty ==> a.quit_tried().should_quit,
        a.quit_tried().collection == a.collection,
{
    reveal(AppView::quit_tried);
}

/// Another collection is created or opened under the name given, where nothing is
/// unsaved or that is to be dropped.
pub proof fn lemma_other_collections(a: AppView, name: Seq<char>, force: bool)
    requires
        name.len() > 0,
        !a.dirty || force,
    ensures
        a.new_asked(name, force).effect == Some(EffectView::Create(name)),
        a.open_asked(name, force).effect == Some(EffectView::Open(name)),
{
    reveal(AppView::new_asked);
    reveal(AppView::open_asked);
}

/// Without a name no other collection is asked for.
pub proof fn lemma_no_name(a: AppView, force: bool)
    ensures
        a.new_asked(Seq::empty(), force).effect == a.effect,
        a.open_asked(Seq::empty(), force).effect == a.effect,
{
    reveal(AppView::new_asked);
    reveal(AppView::open_asked);
}

// ----- opening a collection -----

/// A collection opens as it was saved: nothing in it changes, the request that was
/// open is open again with its body in the text area, and so are the tab and the
/// pane, except that there is no response to be in.
pub proof fn lemma_collections_open_as_saved(
    c: CollectionView,
    path: Seq<char>,
    config: ConfigView,
    i: int,
)
    requires
        0 <= i < c.requests.len() <= usize::MAX,
        c.last_request == Some(c.requests[i].id),
        forall|j: int| 0 <= j < i ==> (#[trigger] c.requests[j]).id != c.requests[i].id,
    ensures
        ({
            let a = started(c, path, config);
            &&& a.collection == c
            &&& a.path == path
            &&& a.config == config
            &&& a.selected == Some(i as usize)
            &&& !a.dirty
            &&& c.last_tab matches Some(t) ==> a.tab == t
            &&& c.last_focus == Some(Focus::Response) ==> a.focus == Focus::Editor
            &&& c.last_focus == Some(Focus::Editor) ==> a.focus == Focus::Editor
            &&& c.last_focus == Some(Focus::Sidebar) ==> a.focus == Focus::Sidebar
            &&& c.last_focus is None ==> a.focus == Focus::Sidebar
        }),
{
    reveal(AppView::opened);
    reveal(AppView::rebuilt);
    lemma_place_of_id(c.requests, i);
}

/// A collection that was never saved with a request open opens on its first
/// request; an empty one opens on none.
pub proof fn lemma_new_collections_open_on_the_first(
    c: CollectionView,
    path: Seq<char>,
    config: ConfigView,
)
    requires
        c.last_request is None,
    ensures
        ({
            let a = started(c, path, config);
            &&& a.collection == c
            &&& c.requests.len() > 0 ==> a.selected == Some(0usize)
            &&& c.requests.len() == 0 ==> a.selected is None
            &&& c.last_tab is None ==> a.tab == EditorTab::Params
        }),
{
    reveal(AppView::opened);
    reveal(AppView::rebuilt);
}

/// Switching opens the other collection and remembers it.
pub proof fn lemma_switching(a: AppView, c: CollectionView, path: Seq<char>)
    requires
        c.last_request is None,
    ensures
        a.switched(c, path).collection == c,
        a.switched(c, path).path == path,
        a.switched(c, path).config.last_collection == Some(c.name),
        a.switched(c, path).config.editor == a.config.editor,
        !a.switched(c, path).dirty,
{
    reveal(AppView::opened);
    reveal(AppView::rebuilt);
}

/// Groups start folded where the collection says so, and unfolded otherwise.
pub proof fn lemma_groups_start_folded(c: CollectionView, path: Seq<char>, config: ConfigView)
    requires
        c.last_request is None,
    ensures
        c.groups_collapsed ==> started(c, path, config).collapsed == groups_in(c.requests),
        !c.groups_collapsed ==> started(c, path, config).collapsed == Set::<Seq<char>>::empty(),
{
    reveal(AppView::opened);
    reveal(AppView::rebuilt);
}

} // verus!
