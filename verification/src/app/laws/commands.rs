//! The commands of the command line.

use vstd::prelude::*;

use crate::app::editing::first_blank;
use crate::app::effects::{all_renamed, count_renamed, NameSource};
use crate::app::kinds::Mode;
use crate::app::state::{AppView, EffectView};
use crate::model::{LabelMode, RequestView};
use crate::text::{is_white, trim};

verus! {

/// The first word of a text ends at its first blank.
pub proof fn lemma_first_word(head: Seq<char>, rest: Seq<char>, from: int)
    requires
        0 <= from <= head.len(),
        forall|i: int| 0 <= i < head.len() ==> !is_white(#[trigger] head[i]),
    ensures
        first_blank(head + seq![' '] + rest, from) == head.len(),
    decreases head.len() - from,
{
    let all = head + seq![' '] + rest;
    if from < head.len() {
        assert(all[from] == head[from]);
        lemma_first_word(head, rest, from + 1);
    } else {
        assert(all[from] == ' ');
    }
}

/// `:w` saves, `:wq` saves and quits, `:q` quits unless something is unsaved, and
/// `:q!` quits.
pub proof fn lemma_saving_and_quitting(a: AppView)
    ensures
        a.commanded("w"@) == a.save_asked(false),
        a.commanded("wq"@) == a.save_asked(true),
        a.commanded("q"@) == a.quit_tried(),
        a.commanded("q!"@) == (AppView { should_quit: true, ..a }),
        a.commanded(Seq::empty()) == a,
{
    reveal(AppView::commanded);
    lemma_words();
    assert("w"@.len() == 1 && "q"@.len() == 1 && "q!"@.len() == 2 && "wq"@.len() == 2);
    assert("q!"@[0] == 'q' && "wq"@[0] == 'w');
}

proof fn lemma_words()
    ensures
        "w"@ == seq!['w'],
        "q"@ == seq!['q'],
        "q!"@ == seq!['q', '!'],
        "wq"@ == seq!['w', 'q'],
        "new"@ == seq!['n', 'e', 'w'],
        "new!"@ == seq!['n', 'e', 'w', '!'],
        "open"@ == seq!['o', 'p', 'e', 'n'],
        "open!"@ == seq!['o', 'p', 'e', 'n', '!'],
        "label"@ == seq!['l', 'a', 'b', 'e', 'l'],
        "groups"@ == seq!['g', 'r', 'o', 'u', 'p', 's'],
        "rename-all"@ == seq!['r', 'e', 'n', 'a', 'm', 'e', '-', 'a', 'l', 'l'],
        "w"@[0] == 'w',
        "q"@[0] == 'q',
{
    reveal_strlit("w");
    reveal_strlit("q");
    reveal_strlit("q!");
    reveal_strlit("wq");
    reveal_strlit("new");
    reveal_strlit("new!");
    reveal_strlit("open");
    reveal_strlit("open!");
    reveal_strlit("label");
    reveal_strlit("groups");
    reveal_strlit("rename-all");
    assert("w"@ =~= seq!['w']);
    assert("q"@ =~= seq!['q']);
    assert("q!"@ =~= seq!['q', '!']);
    assert("wq"@ =~= seq!['w', 'q']);
    assert("new"@ =~= seq!['n', 'e', 'w']);
    assert("new!"@ =~= seq!['n', 'e', 'w', '!']);
    assert("open"@ =~= seq!['o', 'p', 'e', 'n']);
    assert("open!"@ =~= seq!['o', 'p', 'e', 'n', '!']);
    assert("label"@ =~= seq!['l', 'a', 'b', 'e', 'l']);
    assert("groups"@ =~= seq!['g', 'r', 'o', 'u', 'p', 's']);
    assert("rename-all"@ =~= seq!['r', 'e', 'n', 'a', 'm', 'e', '-', 'a', 'l', 'l']);
}

/// A word, a blank and an argument are a command with that argument.
proof fn lemma_command_with_argument(a: AppView, head: Seq<char>, arg: Seq<char>)
    requires
        head == "new"@ || head == "new!"@ || head == "open"@ || head == "open!"@ || head == "label"@
            || head == "groups"@ || head == "rename-all"@,
    ensures
        a.commanded(head + seq![' '] + arg) == a.ordered(
            head + seq![' '] + arg,
            head,
            trim(arg),
        ),
{
    reveal(AppView::commanded);
    lemma_words();
    let cmd = head + seq![' '] + arg;
    let n = head.len() as int;
    assert(cmd[n] == ' ');
    assert(cmd[0] == head[0]);
    assert(forall|i: int| 0 <= i < head.len() ==> !is_white(#[trigger] head[i]));
    lemma_first_word(head, arg, 0);
    assert(cmd.take(n) =~= head);
    assert(cmd.skip(n + 1) =~= arg);
    if cmd == "new!"@ || cmd == "open"@ || cmd == "open!"@ || cmd == "new"@ {
        assert(cmd.len() > n);
        assert(cmd[n] != ' ');
    }
}

/// `:new NAME` and `:open NAME` ask for another collection, unless something is
/// unsaved; with `!` they ask in any case.
pub proof fn lemma_other_collections(a: AppView, arg: Seq<char>)
    requires
        trim(arg).len() > 0,
    ensures
        a.commanded("new!"@ + seq![' '] + arg).effect == Some(EffectView::Create(trim(arg))),
        a.commanded("open!"@ + seq![' '] + arg).effect == Some(EffectView::Open(trim(arg))),
        !a.dirty ==> a.commanded("new"@ + seq![' '] + arg).effect == Some(
            EffectView::Create(trim(arg)),
        ),
        !a.dirty ==> a.commanded("open"@ + seq![' '] + arg).effect == Some(
            EffectView::Open(trim(arg)),
        ),
        a.dirty ==> a.commanded("new"@ + seq![' '] + arg).effect == a.effect,
        a.dirty ==> a.commanded("open"@ + seq![' '] + arg).effect == a.effect,
{
    lemma_command_with_argument(a, "new"@, arg);
    lemma_command_with_argument(a, "new!"@, arg);
    lemma_command_with_argument(a, "open"@, arg);
    lemma_command_with_argument(a, "open!"@, arg);
    lemma_words();
    reveal(AppView::ordered);
    reveal(AppView::new_asked);
    reveal(AppView::open_asked);
    assert("new"@.len() == 3 && "new!"@.len() == 4 && "open"@.len() == 4 && "open!"@.len() == 5);
    assert("new!"@[0] != "open"@[0]);
}

/// `:label name`, `:label summary` and `:label path` set how requests are labelled.
pub proof fn lemma_labels(a: AppView)
    ensures
        a.commanded("label"@ + seq![' '] + "name"@).collection.label_mode == LabelMode::Name,
        a.commanded("label"@ + seq![' '] + "summary"@).collection.label_mode == LabelMode::Summary,
        a.commanded("label"@ + seq![' '] + "path"@).collection.label_mode == LabelMode::Path,
        a.commanded("label"@ + seq![' '] + "path"@).collection.requests == a.collection.requests,
        a.commanded("label"@ + seq![' '] + "path"@).dirty,
{
    lemma_command_with_argument(a, "label"@, "name"@);
    lemma_command_with_argument(a, "label"@, "summary"@);
    lemma_command_with_argument(a, "label"@, "path"@);
    lemma_words();
    reveal(AppView::ordered);
    reveal(AppView::label_set);
    reveal_strlit("name");
    reveal_strlit("summary");
    reveal_strlit("path");
    assert("name"@[0] == 'n' && "summary"@[0] == 's' && "path"@[0] == 'p');
    lemma_unpadded("name"@);
    lemma_unpadded("summary"@);
    lemma_unpadded("path"@);
    lemma_heads_differ();
}

/// A text without a blank at either end is left as it is.
proof fn lemma_unpadded(s: Seq<char>)
    requires
        s.len() > 0,
        !is_white(s[0]),
        !is_white(s.last()),
    ensures
        trim(s) == s,
{
    crate::text::lemma_trim_reaches(s, s.len() - 1);
    assert(s.take(s.len() as int) =~= s);
}

proof fn lemma_heads_differ()
    ensures
        "label"@ != "new"@ && "label"@ != "new!"@ && "label"@ != "open"@ && "label"@ != "open!"@,
        "groups"@ != "new"@ && "groups"@ != "new!"@ && "groups"@ != "open"@ && "groups"@ != "open!"@
            && "groups"@ != "label"@,
        "rename-all"@ != "new"@ && "rename-all"@ != "new!"@ && "rename-all"@ != "open"@
            && "rename-all"@ != "open!"@ && "rename-all"@ != "label"@ && "rename-all"@ != "groups"@,
{
    lemma_words();
    assert("label"@[0] == 'l' && "groups"@[0] == 'g' && "rename-all"@[0] == 'r' && "new"@[0] == 'n'
        && "new!"@[0] == 'n' && "open"@[0] == 'o' && "open!"@[0] == 'o');
}

/// `:groups collapsed` folds every group, now and when the collection is opened;
/// `:groups expanded` unfolds them.
pub proof fn lemma_groups(a: AppView)
    ensures
        ({
            let b = a.commanded("groups"@ + seq![' '] + "collapsed"@);
            &&& b.collection.groups_collapsed
            &&& b.collapsed == crate::app::sidebar::groups_in(a.collection.requests)
            &&& b.dirty
        }),
        ({
            let b = a.commanded("groups"@ + seq![' '] + "expanded"@);
            &&& !b.collection.groups_collapsed
            &&& b.collapsed == Set::<Seq<char>>::empty()
            &&& b.dirty
        }),
{
    lemma_command_with_argument(a, "groups"@, "collapsed"@);
    lemma_command_with_argument(a, "groups"@, "expanded"@);
    reveal(AppView::ordered);
    reveal(AppView::groups_set);
    reveal(AppView::rebuilt);
    reveal_strlit("collapsed");
    reveal_strlit("expanded");
    assert("collapsed"@[0] == 'c' && "expanded"@[0] == 'e');
    lemma_unpadded("collapsed"@);
    lemma_unpadded("expanded"@);
    lemma_heads_differ();
}

/// Every group of a collection is among its groups, and nothing else is.
pub proof fn lemma_groups_in(requests: Seq<RequestView>, tag: Seq<char>)
    ensures
        crate::app::sidebar::groups_in(requests).contains(tag) <==> exists|k: int|
            0 <= k < requests.len() && crate::app::sidebar::group_of(#[trigger] requests[k]) == tag,
    decreases requests.len(),
{
    if requests.len() > 0 {
        let init = requests.drop_last();
        let n = requests.len() - 1;
        lemma_groups_in(init, tag);
        if crate::app::sidebar::groups_in(init).contains(tag) {
            let k = choose|k: int|
                0 <= k < init.len() && crate::app::sidebar::group_of(#[trigger] init[k]) == tag;
            assert(requests[k] == init[k]);
        }
        if exists|k: int|
            0 <= k < requests.len() && crate::app::sidebar::group_of(#[trigger] requests[k]) == tag {
            let k = choose|k: int|
                0 <= k < requests.len() && crate::app::sidebar::group_of(#[trigger] requests[k])
                    == tag;
            if k < n {
                assert(init[k] == requests[k]);
            }
        }
        if crate::app::sidebar::group_of(requests.last()) == tag {
            assert(crate::app::sidebar::group_of(requests[n]) == tag);
        }
    }
}

/// A request is named after its summary, its operation, its path, or its verb and
/// path; one without that text keeps its name, and nothing but names changes.
pub proof fn lemma_renamed(requests: Seq<RequestView>, k: int)
    requires
        0 <= k < requests.len(),
    ensures
        ({
            let r = requests[k];
            let by_summary = all_renamed(requests, NameSource::Summary)[k];
            let by_operation = all_renamed(requests, NameSource::Operation)[k];
            &&& r.summary is Some && r.summary->0.len() > 0 ==> by_summary.name == r.summary->0
            &&& r.summary is None || r.summary->0.len() == 0 ==> by_summary == r
            &&& r.operation_id is Some && r.operation_id->0.len() > 0 ==> by_operation.name
                == r.operation_id->0
            &&& r.operation_id is None || r.operation_id->0.len() == 0 ==> by_operation == r
            &&& r.path.len() > 0 ==> all_renamed(requests, NameSource::Path)[k].name == r.path
            &&& all_renamed(requests, NameSource::MethodPath)[k].name == r.method.verb() + " "@
                + r.path
            &&& by_summary == (RequestView { name: by_summary.name, ..r })
            &&& by_operation == (RequestView { name: by_operation.name, ..r })
            &&& all_renamed(requests, NameSource::Path).len() == requests.len()
        }),
{
    reveal_strlit(" ");
    let r = requests[k];
    assert((r.method.verb() + " "@ + r.path).len() > 0);
}

/// The number of renamed requests is that of a first part and a second; a single
/// request counts just when its name changes.
pub proof fn lemma_renamed_are_counted(
    a: Seq<RequestView>,
    b: Seq<RequestView>,
    r: RequestView,
    source: NameSource,
)
    ensures
        count_renamed(a + b, source) == count_renamed(a, source) + count_renamed(b, source),
        count_renamed(seq![r], source) == (if all_renamed(seq![r], source)[0].name != r.name {
            1nat
        } else {
            0nat
        }),
    decreases b.len(),
{
    assert(seq![r].drop_last() =~= Seq::<RequestView>::empty());
    assert(count_renamed(seq![r].drop_last(), source) == 0);
    if b.len() == 0 {
        assert(a + b =~= a);
    } else {
        lemma_renamed_are_counted(a, b.drop_last(), r, source);
        assert((a + b).drop_last() =~= a + b.drop_last());
    }
}

/// `:rename-all` renames every request after the field it is given.
pub proof fn lemma_rename_all(a: AppView)
    ensures
        a.commanded("rename-all"@ + seq![' '] + "summary"@).collection.requests == all_renamed(
            a.collection.requests,
            NameSource::Summary,
        ),
        a.commanded("rename-all"@ + seq![' '] + "operation"@).collection.requests == all_renamed(
            a.collection.requests,
            NameSource::Operation,
        ),
        a.commanded("rename-all"@ + seq![' '] + "path"@).collection.requests == all_renamed(
            a.collection.requests,
            NameSource::Path,
        ),
        a.commanded("rename-all"@ + seq![' '] + "method-path"@).collection.requests == all_renamed(
            a.collection.requests,
            NameSource::MethodPath,
        ),
{
    lemma_command_with_argument(a, "rename-all"@, "summary"@);
    lemma_command_with_argument(a, "rename-all"@, "operation"@);
    lemma_command_with_argument(a, "rename-all"@, "path"@);
    lemma_command_with_argument(a, "rename-all"@, "method-path"@);
    reveal(AppView::ordered);
    reveal(AppView::names_rewritten);
    reveal_strlit("summary");
    reveal_strlit("operation");
    reveal_strlit("path");
    reveal_strlit("method-path");
    assert("summary"@[0] == 's' && "operation"@[0] == 'o' && "path"@[0] == 'p' && "method-path"@[0]
        == 'm');
    lemma_unpadded("summary"@);
    lemma_unpadded("operation"@);
    lemma_unpadded("path"@);
    lemma_unpadded("method-path"@);
    lemma_heads_differ();
}

/// Running the command line closes it and takes blanks off.
pub proof fn lemma_command_line_closes(a: AppView)
    ensures
        a.executed() == (AppView { command: Seq::empty(), mode: Mode::Normal, ..a }).commanded(
            trim(a.command),
        ),
{
    reveal(AppView::executed);
}

/// A renaming counts as a change just when a name changed.
pub proof fn lemma_renaming_is_a_change(a: AppView)
    ensures
        a.commanded("rename-all"@ + seq![' '] + "path"@).dirty == (a.dirty || count_renamed(
            a.collection.requests,
            NameSource::Path,
        ) > 0),
{
    lemma_command_with_argument(a, "rename-all"@, "path"@);
    reveal(AppView::ordered);
    reveal(AppView::names_rewritten);
    reveal_strlit("summary");
    reveal_strlit("operation");
    reveal_strlit("path");
    reveal_strlit("method-path");
    assert("summary"@[0] == 's' && "operation"@[0] == 'o' && "path"@[0] == 'p' && "method-path"@[0]
        == 'm');
    lemma_unpadded("path"@);
    lemma_heads_differ();
}

/// An argument that a command does not know changes nothing.
pub proof fn lemma_unknown_arguments(a: AppView, arg: Seq<char>)
    ensures
        arg != "name"@ && arg != "summary"@ && arg != "path"@ ==> a.label_set(arg).collection
            == a.collection && a.label_set(arg).dirty == a.dirty,
        arg != "collapsed"@ && arg != "expanded"@ ==> a.groups_set(arg).collection == a.collection
            && a.groups_set(arg).collapsed == a.collapsed,
        arg != "summary"@ && arg != "operation"@ && arg != "path"@ && arg != "method-path"@
            ==> a.names_rewritten(arg).collection == a.collection && a.names_rewritten(arg).dirty
            == a.dirty,
{
    reveal(AppView::label_set);
    reveal(AppView::groups_set);
    reveal(AppView::names_rewritten);
}

} // verus!
