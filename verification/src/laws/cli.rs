//! What the command line decides and says.

use vstd::prelude::*;

use crate::app::sidebar::group_of;
use crate::cli::{
    edit_outcome, entered, fresh_collection, group_size, import_lines, info_counts,
    info_groups, info_head, label_chosen, list_text, move_of, normalized, opened_name, picked,
    place_of, server_lines, summary_of, EditOutcome, Move,
};
use crate::model::{active_base, AuthKind, AuthView, CollectionView, LabelMode, RequestView};
use crate::text::{decimal, join, trim};

verus! {

// ----- servers -----

/// The place of a server is the first one spelled like it.
pub proof fn lemma_place(servers: Seq<Seq<char>>, url: Seq<char>, from: int)
    requires
        0 <= from,
    ensures
        match place_of(servers, url, from) {
            Some(i) => from <= i < servers.len() && servers[i] == url && forall|k: int|
                from <= k < i ==> #[trigger] servers[k] != url,
            None => forall|k: int| from <= k < servers.len() ==> #[trigger] servers[k] != url,
        },
    decreases servers.len() - from,
{
    if from < servers.len() && servers[from] != url {
        lemma_place(servers, url, from + 1);
    }
}

/// A server picked from the list is the active one.
pub proof fn lemma_picked(c: CollectionView, choice: Seq<char>)
    requires
        c.servers.contains(choice),
        c.servers.len() <= usize::MAX,
    ensures
        active_base(picked(c, choice)) == Some(choice),
        picked(c, choice).servers == c.servers,
{
    lemma_place(c.servers, choice, 0);
    let k = choose|k: int| 0 <= k < c.servers.len() && c.servers[k] == choice;
    assert(c.servers[k] == choice);
}

/// A typed server is the active one, without blanks around it and slashes behind
/// it; the others stay.
pub proof fn lemma_entered(c: CollectionView, typed: Seq<char>)
    requires
        crate::text::trim_end_char(trim(typed), '/').len() > 0,
        c.servers.len() < usize::MAX,
    ensures
        active_base(entered(c, typed)) == Some(crate::text::trim_end_char(trim(typed), '/')),
        entered(c, typed).servers.len() >= c.servers.len(),
        forall|k: int|
            0 <= k < c.servers.len() ==> #[trigger] entered(c, typed).servers[k] == c.servers[k],
        entered(c, typed).requests == c.requests,
{
    lemma_place(c.servers, normalized(typed), 0);
}

/// A new collection is empty but for its name and the server that was given.
pub proof fn lemma_fresh(name: Seq<char>, server: Seq<char>)
    ensures
        ({
            let url = crate::text::trim_end_char(trim(server), '/');
            let c = fresh_collection(name, Some(server));
            &&& c.name == name
            &&& c.requests.len() == 0
            &&& url.len() > 0 ==> c.servers == seq![url] && active_base(c) == Some(url)
            &&& url.len() == 0 ==> c.servers.len() == 0
            &&& fresh_collection(name, None).name == name
            &&& fresh_collection(name, None).servers.len() == 0
        }),
{
}

// ----- editing and renaming -----

/// A collection stays in its file, goes to a free one, or is not moved onto
/// another.
pub proof fn lemma_moves(before: Seq<char>, after: Seq<char>, taken: bool)
    ensures
        before == after ==> move_of(before, after, taken) == Move::Stays,
        before != after && !taken ==> move_of(before, after, taken) == Move::Moves,
        before != after && taken ==> move_of(before, after, taken) == Move::Clashes,
{
}

/// An edit is saved just when the editor succeeded, something changed, the text
/// reads and its name is free.
pub proof fn lemma_edits(
    original: Seq<char>,
    edited: Seq<char>,
    parsed: Result<Seq<char>, Seq<char>>,
    before: Seq<char>,
    after: Seq<char>,
    taken: bool,
)
    ensures
        edit_outcome(false, original, edited, parsed, before, after, taken) == EditOutcome::Failed,
        edit_outcome(true, original, original, parsed, before, after, taken)
            == EditOutcome::Unchanged,
        edited != original && parsed is Err ==> edit_outcome(
            true,
            original,
            edited,
            parsed,
            before,
            after,
            taken,
        ) == EditOutcome::Unreadable,
        edited != original && parsed is Ok && before == after ==> edit_outcome(
            true,
            original,
            edited,
            parsed,
            before,
            after,
            taken,
        ) == (EditOutcome::Saved { moved: false }),
        edited != original && parsed is Ok && before != after && !taken ==> edit_outcome(
            true,
            original,
            edited,
            parsed,
            before,
            after,
            taken,
        ) == (EditOutcome::Saved { moved: true }),
        edited != original && parsed is Ok && before != after && taken ==> edit_outcome(
            true,
            original,
            edited,
            parsed,
            before,
            after,
            taken,
        ) == EditOutcome::Taken,
{
}

// ----- opening -----

/// The collection asked for is opened, else the last one, else the only one; where
/// there is no only one, that is said.
pub proof fn lemma_opened(
    asked: Option<Seq<char>>,
    last: Option<Seq<char>>,
    names: Seq<Seq<char>>,
)
    ensures
        asked matches Some(n) ==> opened_name(asked, last, names) == Ok::<Seq<char>, Seq<char>>(n),
        asked is None ==> (last matches Some(n) ==> opened_name(asked, last, names) == Ok::<
            Seq<char>,
            Seq<char>,
        >(n)),
        asked is None && last is None && names.len() == 1 ==> opened_name(asked, last, names) == Ok::<
            Seq<char>,
            Seq<char>,
        >(names[0]),
        asked is None && last is None && names.len() != 1 ==> opened_name(asked, last, names) is Err,
{
}

/// An answer about labels is the mode of that name.
pub proof fn lemma_label_answers()
    ensures
        label_chosen("summary"@) == LabelMode::Summary,
        label_chosen("path"@) == LabelMode::Path,
        label_chosen("name"@) == LabelMode::Name,
{
    reveal_strlit("summary");
    reveal_strlit("path");
    reveal_strlit("name");
    assert("summary"@[0] == 's' && "path"@[0] == 'p' && "name"@[0] == 'n');
}

// ----- reports -----

/// A report on an import names the collection, its file, how many requests it has,
/// its servers and its auth.
pub proof fn lemma_import_report(c: CollectionView, path: Seq<char>)
    ensures
        import_lines(c, path).len() == 4,
        import_lines(c, path)[0] == "Imported collection \""@ + c.name + "\" -> "@ + path,
        import_lines(c, path)[1] == "  "@ + decimal(c.requests.len()) + " requests"@,
        c.servers.len() == 0 ==> import_lines(c, path)[2] == "  servers: (none)"@,
        c.active_server < c.servers.len() ==> import_lines(c, path)[2] == "  servers: "@ + join(
            c.servers,
            ", "@,
        ) + " (active: "@ + c.servers[c.active_server as int] + ")"@,
        c.auth is None ==> import_lines(c, path)[3] == "  auth: none"@,
        c.auth matches Some(a) ==> import_lines(c, path)[3] == "  auth: "@ + summary_of(a),
{
}

/// A summary of auth names the scheme and what it goes by.
pub proof fn lemma_auth_summary(a: AuthView)
    ensures
        a.kind == AuthKind::Bearer && a.token.len() > 0 ==> summary_of(a) == "bearer"@ + ""@,
        a.kind == AuthKind::Oauth2 && a.client_id.len() > 0 ==> summary_of(a)
            == "oauth2 client-credentials, token url "@ + a.token_url + ""@,
        a.kind == AuthKind::ApiKey && a.token.len() > 0 && trim(a.header).len() > 0 ==> summary_of(a)
            == "api key in "@ + trim(a.header) + ""@,
{
}

/// The list stars the last collection and gives the number of requests and servers
/// of each, or why it cannot be read.
pub proof fn lemma_listing(
    name: Seq<char>,
    last: Option<Seq<char>>,
    path: Seq<char>,
    c: CollectionView,
    why: Seq<char>,
)
    ensures
        ({
            let mark = if last == Some(name) {
                "*"@
            } else {
                " "@
            };
            &&& list_text(name, last, path, Ok(c)) == mark + " "@ + name + "\n    "@ + (decimal(
                c.requests.len(),
            ) + " requests, "@ + decimal(c.servers.len()) + " server(s)"@ + (if c.auth is Some {
                ", oauth2"@
            } else {
                ""@
            })) + "\n    "@ + path
            &&& list_text(name, last, path, Err(why)) == mark + " "@ + name + "\n    "@ + (
            "unreadable: "@ + why) + "\n    "@ + path
        }),
{
}

/// The size of a group is that of its first part and its second; a single request
/// counts in its own group alone.
pub proof fn lemma_group_size(
    a: Seq<RequestView>,
    b: Seq<RequestView>,
    r: RequestView,
    tag: Seq<char>,
)
    ensures
        group_size(a + b, tag) == group_size(a, tag) + group_size(b, tag),
        group_size(seq![r], tag) == (if group_of(r) == tag {
            1nat
        } else {
            0nat
        }),
        r.tags.len() > 0 ==> group_of(r) == r.tags[0],
        r.tags.len() == 0 ==> group_of(r) == "default"@,
    decreases b.len(),
{
    assert(seq![r].drop_last() =~= Seq::<RequestView>::empty());
    assert(group_size(seq![r].drop_last(), tag) == 0);
    if b.len() == 0 {
        assert(a + b =~= a);
    } else {
        lemma_group_size(a, b.drop_last(), r, tag);
        assert((a + b).drop_last() =~= a + b.drop_last());
    }
}

/// The details name the collection, its file and its source, every server with the
/// active one starred, and how many requests and variables there are.
pub proof fn lemma_details(c: CollectionView, path: Seq<char>, i: int)
    ensures
        info_head(c, path)[0] == c.name,
        info_head(c, path)[1] == "  file:      "@ + path,
        c.spec_source matches Some(s) ==> info_head(c, path).len() == 3 && info_head(c, path)[2]
            == "  spec:      "@ + s,
        c.servers.len() > 0 ==> server_lines(c).len() == c.servers.len(),
        0 <= i < c.servers.len() && i == c.active_server ==> server_lines(c)[i] == "  server"@ + "*"@
            + "   "@ + c.servers[i],
        0 <= i < c.servers.len() && i != c.active_server ==> server_lines(c)[i] == "  server"@ + " "@
            + "   "@ + c.servers[i],
        info_counts(c)[0] == "  requests:  "@ + decimal(c.requests.len()),
        info_counts(c)[1] == "  variables: "@ + decimal(c.variables.len()),
        c.auth is None ==> info_counts(c)[2] == "  auth:      none"@,
{
}

/// The details list every group with its size.
pub proof fn lemma_group_lines(groups: Seq<(Seq<char>, usize)>, i: int)
    requires
        0 <= i < groups.len(),
    ensures
        info_groups(groups).len() == groups.len() + 1,
        info_groups(groups)[i + 1] == "    "@ + groups[i].0 + " ("@ + decimal(groups[i].1 as nat)
            + ")"@,
{
}

} // verus!
