//! Sending, saving, quitting, the command line and `$EDITOR` sessions: what the
//! state asks of the outside world, and what it makes of the answers.

use vstd::prelude::*;

use crate::app::editing::{first_blank, word_end};
use crate::app::kinds::{ExternalEdit, Mode};
use crate::app::state::{App, AppView, Effect, EffectView, JobView, SendJob};
use crate::highlight::{guess_extension, syntax_of, Syntax};
use crate::http::client::status_line_of;
use crate::http::oauth::OAuthToken;
use crate::http::send::{OutcomeView, SendOutcome};
use crate::model::{
    active_base, blank_collection, clone_rows, clone_text, Collection,
    CollectionView, LabelMode, OAuthConfig, RequestView, SavedRequest,
};
use crate::text::{
    cat, debug_text, dec, decimal, group_views, opt, part, quoted, replace, replace_all,
    rest, same, trim, trimmed, views,
};

verus! {

broadcast use group_views;

impl App {
    pub(crate) fn tell(&mut self, status: String)
        requires
            old(self).wf(),
        ensures
            final(self).wf(),
            final(self)@ == old(self)@.told(status@),
    {
        self.status = status;
    }
}

// ----- sending -----

impl AppView {
    /// The open request handed out for sending. The cached token goes along and
    /// comes back with the outcome.
    #[verifier::opaque]
    pub open spec fn sent(self) -> AppView {
        let a = self.body_committed();
        match (a.selected, active_base(a.collection)) {
            (None, _) => a.told("No request selected"@),
            (_, None) => a.told("No server configured — press E to add a base URL"@),
            (Some(i), Some(base)) => {
                let r = a.collection.requests[i as int];
                AppView {
                    sending: true,
                    token: None,
                    status: "Sending "@ + r.method.verb() + " "@ + r.path + " …"@,
                    effect: Some(
                        EffectView::Send(
                            JobView {
                                base,
                                request: r,
                                variables: a.collection.variables,
                                auth: a.collection.auth,
                                token: a.token,
                            },
                        ),
                    ),
                    ..a
                }
            },
        }
    }

    #[verifier::opaque]
    pub open spec fn answered(self, o: OutcomeView) -> AppView {
        match o.result {
            Ok(resp) => AppView {
                sending: false,
                token: o.token,
                status: status_line_of(resp),
                response: Some(resp),
                response_scroll: 0,
                ..self
            },
            Err(e) => AppView { sending: false, token: o.token, status: e, ..self },
        }
    }
}

fn clone_auth(a: &Option<OAuthConfig>) -> (r: Option<OAuthConfig>)
    ensures
        opt(r) == opt(*a),
{
    match a {
        Some(x) => Some(x.clone()),
        None => None,
    }
}

fn clone_token(t: &Option<OAuthToken>) -> (r: Option<OAuthToken>)
    ensures
        opt(r) == opt(*t),
{
    match t {
        Some(x) => Some(x.clone()),
        None => None,
    }
}

impl App {
    /// Everything needed to send request `i` to `base`.
    fn job_for(&self, i: usize, base: String) -> (r: SendJob)
        requires
            i < self@.collection.requests.len(),
        ensures
            r@ == (JobView {
                base: base@,
                request: self@.collection.requests[i as int],
                variables: self@.collection.variables,
                auth: self@.collection.auth,
                token: self@.token,
            }),
    {
        assert(self@.collection.requests[i as int] == self.collection.requests@[i as int]@);
        SendJob {
            base,
            request: self.collection.requests[i].clone(),
            variables: clone_rows(&self.collection.variables),
            auth: clone_auth(&self.collection.auth),
            token: clone_token(&self.token),
        }
    }

    pub fn send_selected(&mut self)
        requires
            old(self).wf(),
        ensures
            final(self).wf(),
            final(self)@ == old(self)@.sent(),
    {
        reveal(AppView::sent);
        self.commit_body();
        let i = match self.selected {
            Some(i) => i,
            None => {
                self.tell("No request selected".to_owned());
                return;
            },
        };
        let base: Option<String> = match self.collection.base_url() {
            Some(b) => Some(b.to_owned()),
            None => None,
        };
        let base = match base {
            Some(b) => b,
            None => {
                self.tell("No server configured — press E to add a base URL".to_owned());
                return;
            },
        };
        let job = self.job_for(i, base);
        let mut status = "Sending ".to_owned();
        status.append(job.request.method.as_str());
        status.append(" ");
        status.append(job.request.path.as_str());
        status.append(" …");
        self.token = None;
        self.sending = true;
        self.status = status;
        self.effect = Some(Effect::Send(job));
    }

    pub fn handle_outcome(&mut self, outcome: SendOutcome)
        requires
            old(self).wf(),
        ensures
            final(self).wf(),
            final(self)@ == old(self)@.answered(outcome@),
    {
        reveal(AppView::answered);
        self.sending = false;
        self.token = outcome.token;
        match outcome.result {
            Ok(resp) => {
                self.status = resp.status_line();
                self.response = Some(resp);
                self.response_scroll = 0;
                return;
            },
            Err(e) => {
                self.status = e;
                return;
            },
        }
    }

    /// Takes the work that is waiting to be done outside.
    pub fn take_effect(&mut self) -> (r: Option<Effect>)
        requires
            old(self).wf(),
        ensures
            final(self).wf(),
            opt(r) == old(self)@.effect,
            final(self)@ == (AppView { effect: None, ..old(self)@ }),
    {
        let mut e: Option<Effect> = None;
        std::mem::swap(&mut e, &mut self.effect);
        e
    }
}

// ----- saving and quitting -----

impl AppView {
    /// The collection brought up to date and handed out for saving.
    #[verifier::opaque]
    pub open spec fn save_asked(self, quit: bool) -> AppView {
        AppView {
            effect: Some(EffectView::Save { quit }),
            ..self.body_committed().view_recorded()
        }
    }

    /// A save that ended: on success with the path of the file.
    #[verifier::opaque]
    pub open spec fn save_ended(self, result: Result<Seq<char>, Seq<char>>, quit: bool) -> AppView {
        let dirty = self.dirty && result is Err;
        AppView {
            dirty,
            should_quit: self.should_quit || (quit && !dirty),
            status: match result {
                Ok(path) => "Saved to "@ + path,
                Err(e) => "Save failed: "@ + e,
            },
            ..self
        }
    }

    #[verifier::opaque]
    pub open spec fn quit_tried(self) -> AppView {
        if self.dirty {
            self.told("Unsaved changes — use :q! to discard, :w to save"@)
        } else {
            AppView { should_quit: true, ..self }
        }
    }
}

impl App {
    fn ask_save(&mut self, quit: bool)
        requires
            old(self).wf(),
        ensures
            final(self).wf(),
            final(self)@ == old(self)@.save_asked(quit),
    {
        reveal(AppView::save_asked);
        self.commit_body();
        self.record_view();
        self.effect = Some(Effect::Save { quit });
    }

    pub fn save(&mut self)
        requires
            old(self).wf(),
        ensures
            final(self).wf(),
            final(self)@ == old(self)@.save_asked(false),
    {
        self.ask_save(false);
    }

    /// Takes note of how a save ended. A save that was to be followed by quitting
    /// quits, unless changes are left unsaved.
    pub fn saved(&mut self, result: Result<String, String>, quit: bool)
        requires
            old(self).wf(),
        ensures
            final(self).wf(),
            final(self)@ == old(self)@.save_ended(crate::http::send::told(result), quit),
    {
        reveal(AppView::save_ended);
        let (ok, status): (bool, String) = match result {
            Ok(path) => (true, cat("Saved to ", path.as_str())),
            Err(e) => (false, cat("Save failed: ", e.as_str())),
        };
        self.dirty = self.dirty && !ok;
        self.should_quit = self.should_quit || (quit && !self.dirty);
        self.status = status;
    }

    pub fn try_quit(&mut self)
        requires
            old(self).wf(),
        ensures
            final(self).wf(),
            final(self)@ == old(self)@.quit_tried(),
    {
        reveal(AppView::quit_tried);
        if self.dirty {
            self.tell("Unsaved changes — use :q! to discard, :w to save".to_owned());
            return;
        }
        self.should_quit = true;
    }
}

// ----- other collections -----

impl AppView {
    #[verifier::opaque]
    pub open spec fn new_asked(self, name: Seq<char>, force: bool) -> AppView {
        if name.len() == 0 {
            self.told("Usage: :new <collection name>"@)
        } else if self.dirty && !force {
            self.told("Unsaved changes — :w first, or :new! to discard"@)
        } else {
            AppView { effect: Some(EffectView::Create(name)), ..self }
        }
    }

    #[verifier::opaque]
    pub open spec fn open_asked(self, name: Seq<char>, force: bool) -> AppView {
        if name.len() == 0 {
            self.told("Usage: :open <collection name>"@)
        } else if self.dirty && !force {
            self.told("Unsaved changes — :w first, or :open! to discard"@)
        } else {
            AppView { effect: Some(EffectView::Open(name)), ..self }
        }
    }
}

impl App {
    /// `:new <name>`: create an empty collection on disk and switch to it.
    fn new_collection(&mut self, name: &str, force: bool)
        requires
            old(self).wf(),
        ensures
            final(self).wf(),
            final(self)@ == old(self)@.new_asked(name@, force),
    {
        reveal(AppView::new_asked);
        if name.is_empty() {
            self.tell("Usage: :new <collection name>".to_owned());
            return;
        }
        if self.dirty && !force {
            self.tell("Unsaved changes — :w first, or :new! to discard".to_owned());
            return;
        }
        self.effect = Some(Effect::Create(name.to_owned()));
    }

    /// `:open <name>`: switch to another saved collection.
    fn open_collection(&mut self, name: &str, force: bool)
        requires
            old(self).wf(),
        ensures
            final(self).wf(),
            final(self)@ == old(self)@.open_asked(name@, force),
    {
        reveal(AppView::open_asked);
        if name.is_empty() {
            self.tell("Usage: :open <collection name>".to_owned());
            return;
        }
        if self.dirty && !force {
            self.tell("Unsaved changes — :w first, or :open! to discard".to_owned());
            return;
        }
        self.effect = Some(Effect::Open(name.to_owned()));
    }

    /// The empty collection `name` was written to `path`.
    pub fn created(&mut self, name: &str, path: String)
        ensures
            final(self).wf(),
            final(self)@ == old(self)@.switched(blank_collection(name@), path@),
    {
        self.switch_collection(Collection::new(name), path);
    }

    /// There is a file at the path of a collection that was to be created. Names
    /// that differ only in how they are written share a file, so this is where
    /// such a clash shows.
    pub fn create_refused(&mut self, path: &str)
        requires
            old(self).wf(),
        ensures
            final(self).wf(),
            final(self)@ == old(self)@.told("A collection already exists at "@ + path@),
    {
        self.tell(cat("A collection already exists at ", path));
    }

    /// A collection could not be written.
    pub fn create_failed(&mut self, name: &str, cause: &str)
        requires
            old(self).wf(),
        ensures
            final(self).wf(),
            final(self)@ == old(self)@.told(
                "Could not create "@ + debug_text(name@) + ": "@ + cause@,
            ),
    {
        let mut s = "Could not create ".to_owned();
        s.append(quoted(name).as_str());
        s.append(": ");
        s.append(cause);
        self.tell(s);
    }

    /// A collection could not be found or read. The cause may list what there
    /// is, on several lines; the status bar has one.
    pub fn open_failed(&mut self, cause: &str)
        requires
            old(self).wf(),
        ensures
            final(self).wf(),
            final(self)@ == old(self)@.told(replace_all(cause@, "\n"@, " "@)),
    {
        proof {
            reveal_strlit("\n");
        }
        self.tell(replace(cause, "\n", " "));
    }
}

// ----- the command line -----

/// The field that `:rename-all` takes names from.
#[derive(Debug, Clone, Copy, PartialEq, Eq, Structural)]
pub enum NameSource {
    Summary,
    Operation,
    Path,
    MethodPath,
}

pub open spec fn source_named(arg: Seq<char>) -> Option<NameSource> {
    if arg == "summary"@ {
        Some(NameSource::Summary)
    } else if arg == "operation"@ {
        Some(NameSource::Operation)
    } else if arg == "path"@ {
        Some(NameSource::Path)
    } else if arg == "method-path"@ {
        Some(NameSource::MethodPath)
    } else {
        None
    }
}

pub open spec fn name_from(r: RequestView, source: NameSource) -> Option<Seq<char>> {
    match source {
        NameSource::Summary => r.summary,
        NameSource::Operation => r.operation_id,
        NameSource::Path => Some(r.path),
        NameSource::MethodPath => Some(r.method.verb() + " "@ + r.path),
    }
}

/// Whether a request gets another name. A missing or empty field leaves it be.
pub open spec fn name_changes(r: RequestView, source: NameSource) -> bool {
    match name_from(r, source) {
        Some(n) => n.len() > 0 && n != r.name,
        None => false,
    }
}

pub open spec fn renamed_from(r: RequestView, source: NameSource) -> RequestView {
    if name_changes(r, source) {
        RequestView { name: name_from(r, source)->0, ..r }
    } else {
        r
    }
}

pub open spec fn all_renamed(requests: Seq<RequestView>, source: NameSource) -> Seq<RequestView> {
    requests.map_values(|r: RequestView| renamed_from(r, source))
}

pub open spec fn count_renamed(requests: Seq<RequestView>, source: NameSource) -> nat
    decreases requests.len(),
{
    if requests.len() == 0 {
        0
    } else {
        count_renamed(requests.drop_last(), source) + if name_changes(requests.last(), source) {
            1nat
        } else {
            0nat
        }
    }
}

pub open spec fn label_named(arg: Seq<char>) -> Option<LabelMode> {
    if arg == "name"@ {
        Some(LabelMode::Name)
    } else if arg == "summary"@ {
        Some(LabelMode::Summary)
    } else if arg == "path"@ {
        Some(LabelMode::Path)
    } else {
        None
    }
}

impl AppView {
    #[verifier::opaque]
    pub open spec fn label_set(self, arg: Seq<char>) -> AppView {
        match label_named(arg) {
            Some(mode) => AppView {
                collection: CollectionView { label_mode: mode, ..self.collection },
                dirty: true,
                status: "Sidebar labels: "@ + mode.title_spec(),
                ..self
            },
            None => self.told(
                "Usage: :label name|summary|path (got "@ + debug_text(arg) + ")"@,
            ),
        }
    }

    /// The state that groups start in, set and applied to the current view.
    pub open spec fn groups_folded(self, fold: bool) -> AppView {
        (AppView {
            collection: CollectionView { groups_collapsed: fold, ..self.collection },
            collapsed: if fold {
                crate::app::sidebar::groups_in(self.collection.requests)
            } else {
                Set::empty()
            },
            ..self
        }).rebuilt()
    }

    #[verifier::opaque]
    pub open spec fn groups_set(self, arg: Seq<char>) -> AppView {
        if arg == "collapsed"@ || arg == "expanded"@ {
            AppView {
                dirty: true,
                status: "Groups default: "@ + arg,
                ..self.groups_folded(arg == "collapsed"@)
            }
        } else {
            self.told("Usage: :groups collapsed|expanded (got "@ + debug_text(arg) + ")"@)
        }
    }

    /// Every request's name rewritten from another field. Where there is no
    /// request, no argument is wrong.
    #[verifier::opaque]
    pub open spec fn names_rewritten(self, arg: Seq<char>) -> AppView {
        let requests = self.collection.requests;
        match source_named(arg) {
            Some(source) => {
                let n = count_renamed(requests, source);
                AppView {
                    dirty: self.dirty || n > 0,
                    status: "Renamed "@ + decimal(n) + " request(s) from "@ + arg,
                    ..self.with_requests(all_renamed(requests, source))
                }
            },
            None => if requests.len() == 0 {
                self.told("Renamed 0 request(s) from "@ + arg)
            } else {
                self.told(
                    "Usage: :rename-all summary|operation|path|method-path (got "@ + debug_text(arg)
                        + ")"@,
                )
            },
        }
    }

    /// A command with an argument.
    #[verifier::opaque]
    pub open spec fn ordered(self, cmd: Seq<char>, head: Seq<char>, arg: Seq<char>) -> AppView {
        if head == "new"@ {
            self.new_asked(arg, false)
        } else if head == "new!"@ {
            self.new_asked(arg, true)
        } else if head == "open"@ {
            self.open_asked(arg, false)
        } else if head == "open!"@ {
            self.open_asked(arg, true)
        } else if head == "label"@ {
            self.label_set(arg)
        } else if head == "groups"@ {
            self.groups_set(arg)
        } else if head == "rename-all"@ {
            self.names_rewritten(arg)
        } else {
            self.told("Unknown command: "@ + cmd)
        }
    }

    #[verifier::opaque]
    pub open spec fn commanded(self, cmd: Seq<char>) -> AppView {
        let n = first_blank(cmd, 0);
        if cmd == "w"@ {
            self.save_asked(false)
        } else if cmd == "q"@ {
            self.quit_tried()
        } else if cmd == "q!"@ {
            AppView { should_quit: true, ..self }
        } else if cmd == "wq"@ {
            self.save_asked(true)
        } else if cmd == "new"@ || cmd == "new!"@ {
            self.new_asked(Seq::empty(), false)
        } else if cmd == "open"@ || cmd == "open!"@ {
            self.open_asked(Seq::empty(), false)
        } else if cmd.len() == 0 {
            self
        } else if n < cmd.len() {
            self.ordered(cmd, cmd.take(n), trim(cmd.skip(n + 1)))
        } else {
            self.told("Unknown command: "@ + cmd)
        }
    }

    /// The command line run and closed.
    #[verifier::opaque]
    pub open spec fn executed(self) -> AppView {
        (AppView { command: Seq::empty(), mode: Mode::Normal, ..self }).commanded(
            trim(self.command),
        )
    }
}

fn read_source(arg: &str) -> (r: Option<NameSource>)
    ensures
        r == source_named(arg@),
{
    if same(arg, "summary") {
        Some(NameSource::Summary)
    } else if same(arg, "operation") {
        Some(NameSource::Operation)
    } else if same(arg, "path") {
        Some(NameSource::Path)
    } else if same(arg, "method-path") {
        Some(NameSource::MethodPath)
    } else {
        None
    }
}

fn read_label(arg: &str) -> (r: Option<LabelMode>)
    ensures
        r == label_named(arg@),
{
    if same(arg, "name") {
        Some(LabelMode::Name)
    } else if same(arg, "summary") {
        Some(LabelMode::Summary)
    } else if same(arg, "path") {
        Some(LabelMode::Path)
    } else {
        None
    }
}

impl SavedRequest {
    fn name_by(&self, source: NameSource) -> (r: Option<String>)
        ensures
            opt(r) == name_from(self@, source),
    {
        match source {
            NameSource::Summary => clone_text(&self.summary),
            NameSource::Operation => clone_text(&self.operation_id),
            NameSource::Path => Some(self.path.clone()),
            NameSource::MethodPath => {
                let mut s = self.method.as_str().to_owned();
                s.append(" ");
                s.append(self.path.as_str());
                Some(s)
            },
        }
    }

    /// Takes the name from another field; returns whether it changed.
    fn rename_by(&mut self, source: NameSource) -> (changed: bool)
        ensures
            final(self)@ == renamed_from(old(self)@, source),
            changed == name_changes(old(self)@, source),
    {
        match self.name_by(source) {
            Some(n) => if !n.as_str().is_empty() && self.name != n {
                self.name = n;
                true
            } else {
                false
            },
            None => false,
        }
    }
}

fn rename_each(requests: &Vec<SavedRequest>, source: NameSource) -> (r: (Vec<SavedRequest>, usize))
    ensures
        views(r.0@) == all_renamed(views(requests@), source),
        r.1 == count_renamed(views(requests@), source),
{
    let ghost all = views(requests@);
    let mut out: Vec<SavedRequest> = Vec::new();
    let mut n: usize = 0;
    let mut i: usize = 0;
    while i < requests.len()
        invariant
            i <= requests@.len(),
            all == views(requests@),
            n <= i,
            views(out@) == all_renamed(all.take(i as int), source),
            n == count_renamed(all.take(i as int), source),
        decreases requests@.len() - i,
    {
        assert(all.take(i + 1).drop_last() =~= all.take(i as int));
        assert(all.take(i + 1).last() == requests@[i as int]@);
        let mut r = requests[i].clone();
        if r.rename_by(source) {
            n += 1;
        }
        out.push(r);
        i += 1;
        assert(views(out@) =~= all_renamed(all.take(i as int), source));
    }
    assert(all.take(all.len() as int) =~= all);
    (out, n)
}

fn usage(head: &str, arg: &str) -> (r: String)
    ensures
        r@ == head@ + debug_text(arg@) + ")"@,
{
    let mut s = head.to_owned();
    s.append(quoted(arg).as_str());
    s.append(")");
    s
}

impl App {
    fn set_label_mode(&mut self, arg: &str)
        requires
            old(self).wf(),
        ensures
            final(self).wf(),
            final(self)@ == old(self)@.label_set(arg@),
    {
        reveal(AppView::label_set);
        let mode = match read_label(arg) {
            Some(m) => m,
            None => {
                self.tell(usage("Usage: :label name|summary|path (got ", arg));
                return;
            },
        };
        self.collection.label_mode = mode;
        self.dirty = true;
        self.status = cat("Sidebar labels: ", mode.title());
    }

    fn fold_default(&mut self, fold: bool)
        requires
            old(self).wf(),
        ensures
            final(self).wf(),
            final(self)@ == old(self)@.groups_folded(fold),
    {
        self.collection.groups_collapsed = fold;
        self.fold_groups(fold);
        self.rebuild_sidebar();
    }

    /// Set whether groups start collapsed, and apply it to the current view so
    /// the effect is visible without reopening the collection.
    fn set_group_default(&mut self, arg: &str)
        requires
            old(self).wf(),
        ensures
            final(self).wf(),
            final(self)@ == old(self)@.groups_set(arg@),
    {
        reveal(AppView::groups_set);
        let fold = same(arg, "collapsed");
        if !fold && !same(arg, "expanded") {
            self.tell(usage("Usage: :groups collapsed|expanded (got ", arg));
            return;
        }
        self.fold_default(fold);
        let ghost folded = self@;
        self.dirty = true;
        self.status = cat("Groups default: ", arg);
        assert(self@ == (AppView { dirty: true, status: "Groups default: "@ + arg@, ..folded }));
    }

    /// Rewrite every request's name from an imported field. Unlike `:label`, this
    /// is destructive: it replaces the stored names.
    fn rename_all(&mut self, arg: &str)
        requires
            old(self).wf(),
        ensures
            final(self).wf(),
            final(self)@ == old(self)@.names_rewritten(arg@),
    {
        reveal(AppView::names_rewritten);
        let source = match read_source(arg) {
            Some(s) => s,
            None => {
                if self.collection.requests.len() == 0 {
                    self.tell(cat("Renamed 0 request(s) from ", arg));
                } else {
                    self.tell(
                        usage("Usage: :rename-all summary|operation|path|method-path (got ", arg),
                    );
                }
                return;
            },
        };
        let (requests, n) = rename_each(&self.collection.requests, source);
        let mut status = "Renamed ".to_owned();
        status.append(dec(n as u128).as_str());
        status.append(" request(s) from ");
        status.append(arg);
        self.collection.requests = requests;
        self.dirty = self.dirty || n > 0;
        self.status = status;
    }

    fn order(&mut self, cmd: &str, head: &str, arg: &str)
        requires
            old(self).wf(),
        ensures
            final(self).wf(),
            final(self)@ == old(self)@.ordered(cmd@, head@, arg@),
    {
        reveal(AppView::ordered);
        if same(head, "new") {
            self.new_collection(arg, false);
            return;
        }
        if same(head, "new!") {
            self.new_collection(arg, true);
            return;
        }
        if same(head, "open") {
            self.open_collection(arg, false);
            return;
        }
        if same(head, "open!") {
            self.open_collection(arg, true);
            return;
        }
        if same(head, "label") {
            self.set_label_mode(arg);
            return;
        }
        if same(head, "groups") {
            self.set_group_default(arg);
            return;
        }
        if same(head, "rename-all") {
            self.rename_all(arg);
            return;
        }
        self.tell(cat("Unknown command: ", cmd));
    }

    fn run_command(&mut self, cmd: &str)
        requires
            old(self).wf(),
        ensures
            final(self).wf(),
            final(self)@ == old(self)@.commanded(cmd@),
    {
        reveal(AppView::commanded);
        if same(cmd, "w") {
            self.ask_save(false);
            return;
        }
        if same(cmd, "q") {
            self.try_quit();
            return;
        }
        if same(cmd, "q!") {
            self.should_quit = true;
            return;
        }
        if same(cmd, "wq") {
            self.ask_save(true);
            return;
        }
        proof {
            reveal_strlit("");
            assert(""@ =~= Seq::<char>::empty());
        }
        if same(cmd, "new") || same(cmd, "new!") {
            self.new_collection("", false);
            return;
        }
        if same(cmd, "open") || same(cmd, "open!") {
            self.open_collection("", false);
            return;
        }
        if cmd.is_empty() {
            return;
        }
        let n = word_end(cmd);
        if n < cmd.unicode_len() {
            let head = part(cmd, 0, n);
            assert(head@ =~= cmd@.take(n as int));
            let arg = trimmed(rest(cmd, n + 1));
            self.order(cmd, head, arg);
            return;
        }
        self.tell(cat("Unknown command: ", cmd));
    }

    pub fn exec_command(&mut self)
        requires
            old(self).wf(),
        ensures
            final(self).wf(),
            final(self)@ == old(self)@.executed(),
    {
        reveal(AppView::executed);
        let cmd = trimmed(self.command.as_str()).to_owned();
        self.command = String::new();
        self.mode = Mode::Normal;
        self.run_command(cmd.as_str());
    }
}

// ----- `$EDITOR` sessions -----

/// A file for `$EDITOR`.
#[derive(Debug, PartialEq, Eq)]
pub struct Draft {
    pub content: String,
    pub file_name: String,
}

#[verifier::ext_equal]
pub struct DraftView {
    pub content: Seq<char>,
    pub file_name: Seq<char>,
}

impl View for Draft {
    type V = DraftView;

    open spec fn view(&self) -> DraftView {
        DraftView { content: self.content@, file_name: self.file_name@ }
    }
}

/// How an `$EDITOR` session ended.
#[derive(Debug, PartialEq, Eq)]
pub enum EditorEnd {
    /// The editor was closed in good order, and left this in the file.
    Done(String),
    /// The editor ended with this status.
    Exited(String),
    /// The editor could not be started.
    NotStarted(String),
}

#[verifier::ext_equal]
pub enum EndView {
    Done(Seq<char>),
    Exited(Seq<char>),
    NotStarted(Seq<char>),
}

impl View for EditorEnd {
    type V = EndView;

    open spec fn view(&self) -> EndView {
        match self {
            EditorEnd::Done(s) => EndView::Done(s@),
            EditorEnd::Exited(s) => EndView::Exited(s@),
            EditorEnd::NotStarted(s) => EndView::NotStarted(s@),
        }
    }
}

/// `cielago-body-<process>.json` and the like: the extension tells the editor
/// how to highlight the text.
pub open spec fn draft_name(target: ExternalEdit, content: Seq<char>, process: nat) -> Seq<char> {
    "cielago-"@ + (match target {
        ExternalEdit::Body => "body"@,
        ExternalEdit::Response => "response"@,
    }) + "-"@ + decimal(process) + "."@ + (match syntax_of(content) {
        Syntax::Json => "json"@,
        Syntax::Xml => "xml"@,
        Syntax::Plain => "txt"@,
    })
}

impl AppView {
    /// What `$EDITOR` gets to see, if there is anything.
    pub open spec fn draft_text(self, target: ExternalEdit) -> Option<Seq<char>> {
        match target {
            ExternalEdit::Body => Some(
                match self.body_committed().request() {
                    Some(r) => match r.body {
                        Some(b) => b,
                        None => Seq::empty(),
                    },
                    None => Seq::empty(),
                },
            ),
            ExternalEdit::Response => match self.response {
                Some(r) => Some(r.body),
                None => None,
            },
        }
    }

    #[verifier::opaque]
    pub open spec fn drafted(self, target: ExternalEdit) -> AppView {
        let a = AppView { pending_external: None, ..self };
        match target {
            ExternalEdit::Body => a.body_committed(),
            ExternalEdit::Response => if self.response is None {
                a.told("No response to open"@)
            } else {
                a
            },
        }
    }

    /// The open request's body replaced by what an editor left.
    pub open spec fn body_replaced(self, text: Seq<char>) -> AppView {
        match self.request() {
            Some(r) => AppView {
                dirty: true,
                ..self.with_open(RequestView { body: Some(text), ..r })
            },
            None => self,
        }
    }

    #[verifier::opaque]
    pub open spec fn edited_outside(self, target: ExternalEdit, end: EndView) -> AppView {
        match (target, end) {
            (_, EndView::NotStarted(e)) => self.told("Could not launch editor: "@ + e),
            (ExternalEdit::Body, EndView::Done(text)) => self.body_replaced(text).with_text(
                text,
            ).told("Body updated from editor"@),
            (ExternalEdit::Body, EndView::Exited(s)) => self.told(
                "Editor exited with "@ + s + "; body unchanged"@,
            ),
            (ExternalEdit::Response, _) => self.told("Response closed — unchanged"@),
        }
    }
}

fn name_draft(target: ExternalEdit, content: &str, process: u32) -> (r: String)
    ensures
        r@ == draft_name(target, content@, process as nat),
{
    let mut s = "cielago-".to_owned();
    match target {
        ExternalEdit::Body => {
            s.append("body");
        },
        ExternalEdit::Response => {
            s.append("response");
        },
    }
    s.append("-");
    s.append(dec(process as u128).as_str());
    s.append(".");
    s.append(guess_extension(content));
    s
}

impl App {
    fn body_text(&self) -> (r: String)
        requires
            self@.selection_exists(),
        ensures
            r@ == (match self@.request() {
                Some(q) => match q.body {
                    Some(b) => b,
                    None => Seq::empty(),
                },
                None => Seq::empty(),
            }),
    {
        match self.selected_request() {
            Some(q) => match &q.body {
                Some(b) => b.clone(),
                None => String::new(),
            },
            None => String::new(),
        }
    }

    /// Starts an `$EDITOR` session: the file to open, if there is anything to
    /// open. `process` keeps the files of two running programs apart.
    pub fn begin_external_edit(&mut self, target: ExternalEdit, process: u32) -> (r: Option<Draft>)
        requires
            old(self).wf(),
        ensures
            final(self).wf(),
            final(self)@ == old(self)@.drafted(target),
            match old(self)@.draft_text(target) {
                Some(text) => opt(r) == Some(
                    DraftView {
                        content: text,
                        file_name: draft_name(target, text, process as nat),
                    },
                ),
                None => r is None,
            },
    {
        reveal(AppView::drafted);
        self.pending_external = None;
        match target {
            ExternalEdit::Body => {
                self.commit_body();
                let content = self.body_text();
                let file_name = name_draft(target, content.as_str(), process);
                return Some(Draft { content, file_name });
            },
            ExternalEdit::Response => {
                let content = match &self.response {
                    Some(resp) => resp.body.clone(),
                    None => {
                        self.tell("No response to open".to_owned());
                        return None;
                    },
                };
                let file_name = name_draft(target, content.as_str(), process);
                return Some(Draft { content, file_name });
            },
        }
    }

    fn replace_body(&mut self, text: &str)
        requires
            old(self).wf(),
        ensures
            final(self).wf(),
            final(self)@ == old(self)@.body_replaced(text@),
    {
        match self.selected {
            Some(i) => {
                assert(self@.collection.requests[i as int] == self.collection.requests@[i as int]@);
                let mut r = self.collection.requests[i].clone();
                let ghost before = r@;
                r.body = Some(text.to_owned());
                assert(r@ == (RequestView { body: Some(text@), ..before }));
                self.put_request(i, r);
                self.dirty = true;
            },
            None => {},
        }
    }

    /// Takes note of how an `$EDITOR` session ended. Request bodies are taken
    /// over; nothing is read back of a response.
    pub fn finish_external_edit(&mut self, target: ExternalEdit, end: EditorEnd)
        requires
            old(self).wf(),
        ensures
            final(self).wf(),
            final(self)@ == old(self)@.edited_outside(target, end@),
    {
        reveal(AppView::edited_outside);
        match (target, end) {
            (_, EditorEnd::NotStarted(e)) => {
                self.tell(cat("Could not launch editor: ", e.as_str()));
                return;
            },
            (ExternalEdit::Body, EditorEnd::Done(text)) => {
                self.replace_body(text.as_str());
                self.set_textarea_text(text.as_str());
                self.tell("Body updated from editor".to_owned());
                return;
            },
            (ExternalEdit::Body, EditorEnd::Exited(s)) => {
                let mut m = "Editor exited with ".to_owned();
                m.append(s.as_str());
                m.append("; body unchanged");
                self.tell(m);
                return;
            },
            (ExternalEdit::Response, _) => {
                self.tell("Response closed — unchanged".to_owned());
                return;
            },
        }
    }
}

// ----- laws -----

/// Nothing unsaved is lost without being asked for: quitting, `:new` and `:open`
/// refuse while there are unsaved changes.
pub proof fn lemma_unsaved_changes_are_guarded(a: AppView, name: Seq<char>)
    requires
        a.dirty,
    ensures
        a.quit_tried().should_quit == a.should_quit,
        a.new_asked(name, false).effect == a.effect,
        a.open_asked(name, false).effect == a.effect,
        a.new_asked(name, false).collection == a.collection,
        a.open_asked(name, false).collection == a.collection,
{
    reveal(AppView::quit_tried);
    reveal(AppView::new_asked);
    reveal(AppView::open_asked);
}

/// A response never changes through an `$EDITOR` session.
pub proof fn lemma_responses_are_read_only(a: AppView, end: EndView)
    ensures
        a.edited_outside(ExternalEdit::Response, end).response == a.response,
        a.edited_outside(ExternalEdit::Response, end).collection == a.collection,
{
    reveal(AppView::edited_outside);
}

/// A failed send leaves the last response on screen.
pub proof fn lemma_failure_keeps_the_response(a: AppView, o: OutcomeView)
    requires
        o.result is Err,
    ensures
        a.answered(o).response == a.response,
        !a.answered(o).sending,
{
    reveal(AppView::answered);
}

/// Renaming all requests twice from the same field changes nothing the second
/// time.
pub proof fn lemma_rename_all_settles(requests: Seq<RequestView>, source: NameSource)
    ensures
        all_renamed(all_renamed(requests, source), source) == all_renamed(requests, source),
        count_renamed(all_renamed(requests, source), source) == 0,
    decreases requests.len(),
{
    assert(all_renamed(all_renamed(requests, source), source) =~= all_renamed(requests, source));
    if requests.len() > 0 {
        lemma_rename_all_settles(requests.drop_last(), source);
        assert(all_renamed(requests, source).drop_last() =~= all_renamed(
            requests.drop_last(),
            source,
        ));
    }
}

} // verus!
