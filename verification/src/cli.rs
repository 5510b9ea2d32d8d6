//! What the command line decides and says: the setup questions, reports, and
//! which collection a command is about.

use vstd::prelude::*;

use crate::app::sidebar::{group_of, group_tag};
use crate::http::send::told;
use crate::model::{
    active_base, blank_auth, blank_collection, contains_string, key_header, AuthKind, AuthStyle,
    AuthView, Collection, CollectionView, LabelMode, OAuthConfig, RequestView, SavedRequest,
};
use crate::store::{slug, slugify, sorted_names, sorts_before};
use crate::text::{
    cat, debug_text, dec, decimal, group_views, join, join_strings, opt, quoted, same, split_words,
    trim, trim_end_char, trimmed, views, without_trailing, words,
};

verus! {

broadcast use group_views;

// ----- auth -----

/// One-line description of an auth scheme.
pub open spec fn summary_of(a: AuthView) -> Seq<char> {
    match a.kind {
        AuthKind::Bearer => "bearer"@ + (if a.token.len() == 0 {
            " (no token set — set it with A in the TUI)"@
        } else {
            ""@
        }),
        AuthKind::ApiKey => "api key in "@ + key_header(a) + (if a.token.len() == 0 {
            " (no value set — set it with A in the TUI)"@
        } else {
            ""@
        }),
        AuthKind::Oauth2 => "oauth2 client-credentials, token url "@ + a.token_url + (
        if a.client_id.len() == 0 {
            " (set client id/secret with A in the TUI)"@
        } else {
            ""@
        }),
    }
}

pub fn auth_summary(auth: &OAuthConfig) -> (r: String)
    ensures
        r@ == summary_of(auth@),
{
    match auth.kind {
        AuthKind::Bearer => cat(
            "bearer",
            if auth.token.as_str().is_empty() {
                " (no token set — set it with A in the TUI)"
            } else {
                ""
            },
        ),
        AuthKind::ApiKey => cat(
            cat("api key in ", auth.api_key_header()).as_str(),
            if auth.token.as_str().is_empty() {
                " (no value set — set it with A in the TUI)"
            } else {
                ""
            },
        ),
        AuthKind::Oauth2 => cat(
            cat("oauth2 client-credentials, token url ", auth.token_url.as_str()).as_str(),
            if auth.client_id.as_str().is_empty() {
                " (set client id/secret with A in the TUI)"
            } else {
                ""
            },
        ),
    }
}

/// What can be answered to the question for a scheme.
#[derive(Debug, Clone, Copy, PartialEq, Eq, Structural)]
pub enum AuthChoice {
    Nothing,
    Scheme(AuthKind),
}

impl AuthChoice {
    /// The choices in the order in which they are offered.
    pub open spec fn order() -> Seq<AuthChoice> {
        seq![
            AuthChoice::Nothing,
            AuthChoice::Scheme(AuthKind::Bearer),
            AuthChoice::Scheme(AuthKind::ApiKey),
            AuthChoice::Scheme(AuthKind::Oauth2),
        ]
    }

    pub open spec fn title_spec(self) -> Seq<char> {
        match self {
            AuthChoice::Nothing => "none"@,
            AuthChoice::Scheme(AuthKind::Bearer) => "bearer token"@,
            AuthChoice::Scheme(AuthKind::ApiKey) => "api key"@,
            AuthChoice::Scheme(AuthKind::Oauth2) => "oauth2 client-credentials"@,
        }
    }

    pub fn all() -> (r: Vec<AuthChoice>)
        ensures
            r@ == Self::order(),
    {
        vec![
            AuthChoice::Nothing,
            AuthChoice::Scheme(AuthKind::Bearer),
            AuthChoice::Scheme(AuthKind::ApiKey),
            AuthChoice::Scheme(AuthKind::Oauth2),
        ]
    }

    pub fn title(self) -> (r: &'static str)
        ensures
            r@ == self.title_spec(),
    {
        match self {
            AuthChoice::Nothing => "none",
            AuthChoice::Scheme(AuthKind::Bearer) => "bearer token",
            AuthChoice::Scheme(AuthKind::ApiKey) => "api key",
            AuthChoice::Scheme(AuthKind::Oauth2) => "oauth2 client-credentials",
        }
    }
}

/// The choice that is offered first: the scheme that a collection has already.
pub fn auth_cursor(auth: &Option<OAuthConfig>) -> (r: usize)
    ensures
        r < AuthChoice::order().len(),
        AuthChoice::order()[r as int] == (match opt(*auth) {
            Some(a) => AuthChoice::Scheme(a.kind),
            None => AuthChoice::Nothing,
        }),
{
    match auth {
        Some(a) => match a.kind {
            AuthKind::Bearer => 1,
            AuthKind::ApiKey => 2,
            AuthKind::Oauth2 => 3,
        },
        None => 0,
    }
}

pub fn bearer_config(token: String) -> (r: OAuthConfig)
    ensures
        r@ == (AuthView { token: token@, ..blank_auth(AuthKind::Bearer) }),
{
    let mut r = OAuthConfig::blank(AuthKind::Bearer);
    r.token = token;
    r
}

pub fn api_key_config(header: String, token: String) -> (r: OAuthConfig)
    ensures
        r@ == (AuthView { header: header@, token: token@, ..blank_auth(AuthKind::ApiKey) }),
{
    let mut r = OAuthConfig::blank(AuthKind::ApiKey);
    r.header = header;
    r.token = token;
    r
}

/// The answers to the OAuth questions; what is not asked for stays as it was.
pub fn oauth_config(
    current: &Option<OAuthConfig>,
    token_url: String,
    client_id: String,
    client_secret: String,
    scopes: &str,
    style: AuthStyle,
) -> (r: OAuthConfig)
    ensures
        r@ == (AuthView {
            kind: AuthKind::Oauth2,
            token_url: token_url@,
            client_id: client_id@,
            client_secret: client_secret@,
            scopes: words(scopes@),
            auth_style: style,
            ..match opt(*current) {
                Some(a) => a,
                None => blank_auth(AuthKind::Oauth2),
            }
        }),
{
    let mut r = match current {
        Some(a) => a.clone(),
        None => OAuthConfig::default(),
    };
    r.kind = AuthKind::Oauth2;
    r.token_url = token_url;
    r.client_id = client_id;
    r.client_secret = client_secret;
    r.scopes = split_words(scopes);
    r.auth_style = style;
    r
}

// ----- servers -----

/// A typed URL in the form in which imported servers are kept: without blanks
/// around it and without trailing slashes.
pub open spec fn normalized(url: Seq<char>) -> Seq<char> {
    trim_end_char(trim(url), '/')
}

pub fn normalize_server(url: &str) -> (r: String)
    ensures
        r@ == normalized(url@),
{
    without_trailing(trimmed(url), '/').to_owned()
}

/// The first server spelled like `url`.
pub open spec fn place_of(servers: Seq<Seq<char>>, url: Seq<char>, from: int) -> Option<int>
    decreases servers.len() - from,
{
    if from < 0 || from >= servers.len() {
        None
    } else if servers[from] == url {
        Some(from)
    } else {
        place_of(servers, url, from + 1)
    }
}

fn find_place(servers: &Vec<String>, url: &str) -> (r: Option<usize>)
    ensures
        match r {
            Some(i) => place_of(views(servers@), url@, 0) == Some(i as int),
            None => place_of(views(servers@), url@, 0) is None,
        },
{
    let ghost all = views(servers@);
    let mut i: usize = 0;
    while i < servers.len()
        invariant
            i <= servers@.len(),
            all == views(servers@),
            place_of(all, url@, 0) == place_of(all, url@, i as int),
        decreases servers@.len() - i,
    {
        assert(all[i as int] == servers@[i as int]@);
        if same(servers[i].as_str(), url) {
            return Some(i);
        }
        i += 1;
    }
    None
}

/// The server that was picked from the list made active.
pub open spec fn picked(c: CollectionView, choice: Seq<char>) -> CollectionView {
    CollectionView {
        active_server: match place_of(c.servers, choice, 0) {
            Some(i) => i as usize,
            None => 0,
        },
        ..c
    }
}

/// The server that was typed made active, and added where it is not there yet.
/// A blank answer falls back on the first server.
pub open spec fn entered(c: CollectionView, typed: Seq<char>) -> CollectionView {
    let url = normalized(typed);
    if url.len() == 0 {
        CollectionView {
            active_server: if c.servers.len() == 0 {
                c.active_server
            } else {
                0
            },
            ..c
        }
    } else {
        match place_of(c.servers, url, 0) {
            Some(i) => CollectionView { active_server: i as usize, ..c },
            None => CollectionView {
                servers: c.servers.push(url),
                active_server: c.servers.len() as usize,
                ..c
            },
        }
    }
}

pub fn pick_server(c: &mut Collection, choice: &str)
    ensures
        final(c)@ == picked(old(c)@, choice@),
{
    c.active_server = match find_place(&c.servers, choice) {
        Some(i) => i,
        None => 0,
    };
}

pub fn enter_server(c: &mut Collection, typed: &str)
    ensures
        final(c)@ == entered(old(c)@, typed@),
{
    let url = normalize_server(typed);
    if url.as_str().is_empty() {
        if c.servers.len() > 0 {
            c.active_server = 0;
        }
        return;
    }
    match find_place(&c.servers, url.as_str()) {
        Some(i) => {
            c.active_server = i;
        },
        None => {
            let at: usize = c.servers.len();
            c.servers.push(url);
            c.active_server = at;
        },
    }
}

// ----- preferences -----

pub open spec fn label_chosen(answer: Seq<char>) -> LabelMode {
    if answer == "summary"@ {
        LabelMode::Summary
    } else if answer == "path"@ {
        LabelMode::Path
    } else {
        LabelMode::Name
    }
}

pub fn choose_label(answer: &str) -> (r: LabelMode)
    ensures
        r == label_chosen(answer@),
{
    if same(answer, "summary") {
        LabelMode::Summary
    } else if same(answer, "path") {
        LabelMode::Path
    } else {
        LabelMode::Name
    }
}

// ----- importing and creating -----

/// The servers of an imported collection on one line.
pub open spec fn import_servers(c: CollectionView) -> Seq<char> {
    if c.servers.len() == 0 {
        "  servers: (none)"@
    } else {
        "  servers: "@ + join(c.servers, ", "@) + " (active: "@ + (match active_base(c) {
            Some(b) => b,
            None => c.servers[0],
        }) + ")"@
    }
}

/// What is said of an imported collection.
pub open spec fn import_lines(c: CollectionView, path: Seq<char>) -> Seq<Seq<char>> {
    seq![
        "Imported collection \""@ + c.name + "\" -> "@ + path,
        "  "@ + decimal(c.requests.len()) + " requests"@,
        import_servers(c),
        match c.auth {
            Some(a) => "  auth: "@ + summary_of(a),
            None => "  auth: none"@,
        },
    ]
}

fn servers_line(c: &Collection) -> (r: String)
    ensures
        r@ == import_servers(c@),
{
    if c.servers.len() == 0 {
        return "  servers: (none)".to_owned();
    }
    let mut s = "  servers: ".to_owned();
    s.append(join_strings(&c.servers, ", ").as_str());
    s.append(" (active: ");
    match c.base_url() {
        Some(b) => {
            s.append(b);
        },
        None => {
            assert(c@.servers[0] == c.servers@[0]@);
            s.append(c.servers[0].as_str());
        },
    }
    s.append(")");
    s
}

fn arrow_line(what: &str, name: &str, path: &str) -> (r: String)
    ensures
        r@ == what@ + " \""@ + name@ + "\" -> "@ + path@,
{
    let mut s = what.to_owned();
    s.append(" \"");
    s.append(name);
    s.append("\" -> ");
    s.append(path);
    s
}

pub fn import_report(c: &Collection, path: &str) -> (r: Vec<String>)
    ensures
        views(r@) == import_lines(c@, path@),
{
    let mut out: Vec<String> = Vec::new();
    let mut head = "Imported collection \"".to_owned();
    head.append(c.name.as_str());
    head.append("\" -> ");
    head.append(path);
    out.push(head);
    out.push(cat(cat("  ", dec(c.requests.len() as u128).as_str()).as_str(), " requests"));
    out.push(servers_line(c));
    out.push(
        match &c.auth {
            Some(a) => cat("  auth: ", auth_summary(a).as_str()),
            None => "  auth: none".to_owned(),
        },
    );
    assert(views(out@) =~= import_lines(c@, path@));
    out
}

/// An empty collection, with a server where one was given.
pub open spec fn fresh_collection(name: Seq<char>, server: Option<Seq<char>>) -> CollectionView {
    match server {
        Some(s) => if normalized(s).len() > 0 {
            CollectionView { servers: seq![normalized(s)], ..blank_collection(name) }
        } else {
            blank_collection(name)
        },
        None => blank_collection(name),
    }
}

/// The collection that `new` makes. The server's trailing slashes go, as those of
/// imported servers do, so that pasting a URL later recognises this one.
pub fn start_collection(name: &str, server: Option<String>) -> (r: Collection)
    ensures
        r@ == fresh_collection(name@, opt(server)),
{
    let mut c = Collection::new(name);
    match server {
        Some(s) => {
            let url = normalize_server(s.as_str());
            if !url.as_str().is_empty() {
                c.servers.push(url);
                assert(views(c.servers@) =~= seq![normalized(s@)]);
            }
        },
        None => {},
    }
    c
}

pub fn new_refused(path: &str, name: &str) -> (r: String)
    ensures
        r@ == "a collection already exists at "@ + path@ + " — open it with `cielago open "@
            + debug_text(name@) + "` or pick another name"@,
{
    let mut s = "a collection already exists at ".to_owned();
    s.append(path);
    s.append(" — open it with `cielago open ");
    s.append(quoted(name).as_str());
    s.append("` or pick another name");
    s
}

pub fn created_line(name: &str, path: &str) -> (r: String)
    ensures
        r@ == "Created collection"@ + " \""@ + name@ + "\" -> "@ + path@,
{
    arrow_line("Created collection", name, path)
}

/// Refreshes a collection's requests from a description and leaves the rest of
/// it as it was; returns what there is to say.
pub fn update_from(c: &mut Collection, imported: Collection, source: &str, path: &str) -> (r: Vec<
    String,
>)
    ensures
        final(c)@ == (CollectionView {
            requests: imported@.requests,
            last_request: None,
            spec_source: Some(source@),
            ..old(c)@
        }),
        views(r@) == seq![
            "Updated collection"@ + " \""@ + old(c)@.name + "\" -> "@ + path@,
            "  "@ + decimal(old(c)@.requests.len()) + " -> "@ + decimal(imported@.requests.len())
                + " requests"@,
        ],
{
    let mut counts = "  ".to_owned();
    counts.append(dec(c.requests.len() as u128).as_str());
    counts.append(" -> ");
    counts.append(dec(imported.requests.len() as u128).as_str());
    counts.append(" requests");
    let mut out: Vec<String> = Vec::new();
    out.push(arrow_line("Updated collection", c.name.as_str(), path));
    out.push(counts);
    c.replace_requests_from(imported);
    c.spec_source = Some(source.to_owned());
    assert(views(out@) =~= seq![
        "Updated collection"@ + " \""@ + old(c)@.name + "\" -> "@ + path@,
        "  "@ + decimal(old(c)@.requests.len()) + " -> "@ + decimal(imported@.requests.len())
            + " requests"@,
    ]);
    out
}

// ----- listing -----

pub fn nothing_to_list() -> (r: &'static str)
    ensures
        r@ == "No collections yet. Import one: cielago import <spec>\n…or start from scratch:      cielago new <name>"@,
{
    "No collections yet. Import one: cielago import <spec>\n…or start from scratch:      cielago new <name>"
}

/// One collection in the long list; the last one opened is starred.
pub open spec fn list_text(
    name: Seq<char>,
    last: Option<Seq<char>>,
    path: Seq<char>,
    read: Result<CollectionView, Seq<char>>,
) -> Seq<char> {
    (if last == Some(name) {
        "*"@
    } else {
        " "@
    }) + " "@ + name + "\n    "@ + (match read {
        Ok(c) => decimal(c.requests.len()) + " requests, "@ + decimal(c.servers.len())
            + " server(s)"@ + (if c.auth is Some {
            ", oauth2"@
        } else {
            ""@
        }),
        Err(e) => "unreadable: "@ + e,
    }) + "\n    "@ + path
}

pub fn list_entry(
    name: &str,
    last: &Option<String>,
    path: &str,
    read: &Result<Collection, String>,
) -> (r: String)
    ensures
        r@ == list_text(name@, opt(*last), path@, crate::http::send::told(*read)),
{
    let starred: bool = match last {
        Some(l) => same(l.as_str(), name),
        None => false,
    };
    let mut s = if starred {
        "*".to_owned()
    } else {
        " ".to_owned()
    };
    s.append(" ");
    s.append(name);
    s.append("\n    ");
    let what = match read {
        Ok(c) => {
            let mut t = dec(c.requests.len() as u128);
            t.append(" requests, ");
            t.append(dec(c.servers.len() as u128).as_str());
            t.append(" server(s)");
            t.append(
                if c.auth.is_some() {
                    ", oauth2"
                } else {
                    ""
                },
            );
            t
        },
        Err(e) => cat("unreadable: ", e.as_str()),
    };
    s.append(what.as_str());
    s.append("\n    ");
    s.append(path);
    s
}

// ----- deleting -----

pub fn delete_question(name: &str, collection: &Option<Collection>) -> (r: String)
    ensures
        r@ == "Delete collection \""@ + name@ + "\""@ + (match opt(*collection) {
            Some(c) => " ("@ + decimal(c.requests.len()) + " requests)"@,
            None => Seq::empty(),
        }) + "? [y/N] "@,
{
    let mut s = "Delete collection \"".to_owned();
    s.append(name);
    s.append("\"");
    let count = match collection {
        Some(c) => {
            let mut t = " (".to_owned();
            t.append(dec(c.requests.len() as u128).as_str());
            t.append(" requests)");
            t
        },
        None => String::new(),
    };
    s.append(count.as_str());
    s.append("? [y/N] ");
    s
}

/// Whether an answer means yes.
pub fn confirmed(answer: &str) -> (r: bool)
    ensures
        r == ({
            let a = trim(answer@);
            a == "y"@ || a == "Y"@ || a == "yes"@ || a == "Yes"@
        }),
{
    let a = trimmed(answer);
    same(a, "y") || same(a, "Y") || same(a, "yes") || same(a, "Yes")
}

pub fn deleted_line(name: &str, path: &str) -> (r: String)
    ensures
        r@ == "Deleted \""@ + name@ + "\" ("@ + path@ + ")"@,
{
    let mut s = "Deleted \"".to_owned();
    s.append(name);
    s.append("\" (");
    s.append(path);
    s.append(")");
    s
}

// ----- editing and renaming -----

/// What becomes of a collection whose name may have changed.
#[derive(Debug, Clone, Copy, PartialEq, Eq, Structural)]
pub enum Move {
    /// It stays in its file.
    Stays,
    /// It goes to a file of its own, and the old one is removed.
    Moves,
    /// It would overwrite another collection, so nothing is done.
    Clashes,
}

pub open spec fn move_of(before: Seq<char>, after: Seq<char>, taken: bool) -> Move {
    if before == after {
        Move::Stays
    } else if taken {
        Move::Clashes
    } else {
        Move::Moves
    }
}

/// From the old path of a collection to the new one; `taken` says whether there
/// is a file at the new one.
pub fn plan_move(before: &str, after: &str, taken: bool) -> (r: Move)
    ensures
        r == move_of(before@, after@, taken),
{
    if same(before, after) {
        Move::Stays
    } else if taken {
        Move::Clashes
    } else {
        Move::Moves
    }
}

/// What comes of editing a collection's file.
#[derive(Debug, Clone, Copy, PartialEq, Eq, Structural)]
pub enum EditOutcome {
    /// The editor did not succeed, so nothing is taken over.
    Failed,
    /// Nothing was changed.
    Unchanged,
    /// What was written is no collection.
    Unreadable,
    /// The collection was given a name whose file another one has.
    Taken,
    /// The collection is saved, to a file of another name where it moved.
    Saved { moved: bool },
}

/// The first of these that applies decides: the editor failed, the text is as it
/// was, the text is no collection, the new name is taken.
pub open spec fn edit_outcome(
    success: bool,
    original: Seq<char>,
    edited: Seq<char>,
    parsed: Result<Seq<char>, Seq<char>>,
    before: Seq<char>,
    after: Seq<char>,
    taken: bool,
) -> EditOutcome {
    if !success {
        EditOutcome::Failed
    } else if edited == original {
        EditOutcome::Unchanged
    } else if parsed is Err {
        EditOutcome::Unreadable
    } else {
        match move_of(before, after, taken) {
            Move::Clashes => EditOutcome::Taken,
            Move::Stays => EditOutcome::Saved { moved: false },
            Move::Moves => EditOutcome::Saved { moved: true },
        }
    }
}

/// Decides what comes of an edit: whether the editor succeeded, the text before
/// and after, the name that was read from it or why it could not be read, the
/// collection's path before and after, and whether there is a file at the latter.
pub fn settle_edit(
    success: bool,
    original: &str,
    edited: &str,
    parsed: &Result<String, String>,
    before: &str,
    after: &str,
    taken: bool,
) -> (r: EditOutcome)
    ensures
        r == edit_outcome(success, original@, edited@, told(*parsed), before@, after@, taken),
{
    if !success {
        return EditOutcome::Failed;
    }
    if same(edited, original) {
        return EditOutcome::Unchanged;
    }
    match parsed {
        Err(_) => EditOutcome::Unreadable,
        Ok(_) => match plan_move(before, after, taken) {
            Move::Clashes => EditOutcome::Taken,
            Move::Stays => EditOutcome::Saved { moved: false },
            Move::Moves => EditOutcome::Saved { moved: true },
        },
    }
}

impl EditOutcome {
    /// Whether the edited text is kept for another try: where it was neither
    /// saved nor empty of changes, and the editor succeeded.
    pub fn keeps_edits(self) -> (r: bool)
        ensures
            r == (self is Unreadable || self is Taken),
    {
        matches!(self, EditOutcome::Unreadable | EditOutcome::Taken)
    }
}

/// The file that a collection is edited in.
pub fn edit_file_name(name: &str, process: u32) -> (r: String)
    ensures
        r@ == "cielago-"@ + slug(name@) + "-"@ + decimal(process as nat) + ".json"@,
{
    let mut s = "cielago-".to_owned();
    s.append(slugify(name).as_str());
    s.append("-");
    s.append(dec(process as u128).as_str());
    s.append(".json");
    s
}

pub fn edit_failed(status: &str) -> (r: String)
    ensures
        r@ == "editor exited with "@ + status@ + "; collection left unchanged"@,
{
    let mut s = "editor exited with ".to_owned();
    s.append(status);
    s.append("; collection left unchanged");
    s
}

pub fn edit_unreadable(cause: &str, kept: &str) -> (r: String)
    ensures
        r@ == "edited JSON is not a valid collection: "@ + cause@ + "\n\nYour edits are kept at "@
            + kept@ + "; the saved collection is unchanged."@,
{
    let mut s = "edited JSON is not a valid collection: ".to_owned();
    s.append(cause);
    s.append("\n\nYour edits are kept at ");
    s.append(kept);
    s.append("; the saved collection is unchanged.");
    s
}

pub fn edit_clashes(name: &str, path: &str, kept: &str) -> (r: String)
    ensures
        r@ == "renaming to "@ + debug_text(name@) + " would overwrite the collection at "@ + path@
            + ".\n\nYour edits are kept at "@ + kept@ + "; the saved collection is unchanged."@,
{
    let mut s = "renaming to ".to_owned();
    s.append(quoted(name).as_str());
    s.append(" would overwrite the collection at ");
    s.append(path);
    s.append(".\n\nYour edits are kept at ");
    s.append(kept);
    s.append("; the saved collection is unchanged.");
    s
}

pub fn edit_saved(before: &str, after: &str, path: &str, moved: bool) -> (r: String)
    ensures
        r@ == "Saved"@ + " \""@ + after@ + "\" -> "@ + path@ + (if moved {
            " (was \""@ + before@ + "\")"@
        } else {
            ""@
        }),
{
    let was = if moved {
        let mut t = " (was \"".to_owned();
        t.append(before);
        t.append("\")");
        t
    } else {
        "".to_owned()
    };
    cat(arrow_line("Saved", after, path).as_str(), was.as_str())
}

pub fn rename_clashes(path: &str) -> (r: String)
    ensures
        r@ == "a collection already exists at "@ + path@ + " — pick another name"@,
{
    let mut s = "a collection already exists at ".to_owned();
    s.append(path);
    s.append(" — pick another name");
    s
}

pub fn renamed_line(before: &str, after: &str, path: &str) -> (r: String)
    ensures
        r@ == "Renamed \""@ + before@ + "\" -> \""@ + after@ + "\" ("@ + path@ + ")"@,
{
    let mut s = "Renamed \"".to_owned();
    s.append(before);
    s.append("\" -> \"");
    s.append(after);
    s.append("\" (");
    s.append(path);
    s.append(")");
    s
}

// ----- details -----

/// How many requests are in a group.
pub open spec fn group_size(requests: Seq<RequestView>, tag: Seq<char>) -> nat
    decreases requests.len(),
{
    if requests.len() == 0 {
        0
    } else {
        group_size(requests.drop_last(), tag) + if group_of(requests.last()) == tag {
            1nat
        } else {
            0nat
        }
    }
}

/// Every group with its size, once, in order of names.
pub open spec fn groups_counted(
    requests: Seq<RequestView>,
    groups: Seq<(Seq<char>, usize)>,
) -> bool {
    &&& forall|i: int, j: int|
        0 <= i < j < groups.len() ==> (#[trigger] groups[i]).0 != (#[trigger] groups[j]).0
            && sorts_before(groups[i].0, groups[j].0)
    &&& forall|i: int|
        0 <= i < groups.len() ==> (#[trigger] groups[i]).1 == group_size(requests, groups[i].0)
            && groups[i].1 > 0
    &&& forall|k: int|
        0 <= k < requests.len() ==> listed_group(groups, group_of(#[trigger] requests[k]))
}

pub open spec fn listed_group(groups: Seq<(Seq<char>, usize)>, tag: Seq<char>) -> bool {
    exists|i: int| 0 <= i < groups.len() && (#[trigger] groups[i]).0 == tag
}

fn size_of_group(requests: &Vec<SavedRequest>, tag: &str) -> (r: usize)
    ensures
        r == group_size(views(requests@), tag@),
{
    let ghost all = views(requests@);
    let mut n: usize = 0;
    let mut i: usize = 0;
    while i < requests.len()
        invariant
            i <= requests@.len(),
            all == views(requests@),
            n <= i,
            n == group_size(all.take(i as int), tag@),
        decreases requests@.len() - i,
    {
        assert(all.take(i + 1).drop_last() =~= all.take(i as int));
        assert(all.take(i + 1).last() == requests@[i as int]@);
        if same(group_tag(&requests[i]).as_str(), tag) {
            n += 1;
        }
        i += 1;
    }
    assert(all.take(all.len() as int) =~= all);
    n
}

/// The groups of a collection, each once.
fn distinct_groups(requests: &Vec<SavedRequest>) -> (r: Vec<String>)
    ensures
        views(r@).no_duplicates(),
        forall|k: int|
            0 <= k < requests@.len() ==> views(r@).contains(
                group_of(#[trigger] views(requests@)[k]),
            ),
        forall|i: int|
            0 <= i < r@.len() ==> group_size(views(requests@), #[trigger] views(r@)[i]) > 0,
{
    let ghost all = views(requests@);
    let mut out: Vec<String> = Vec::new();
    let mut i: usize = 0;
    while i < requests.len()
        invariant
            i <= requests@.len(),
            all == views(requests@),
            views(out@).no_duplicates(),
            forall|k: int| 0 <= k < i ==> views(out@).contains(group_of(#[trigger] all[k])),
            forall|j: int|
                0 <= j < out@.len() ==> group_size(all.take(i as int), #[trigger] views(out@)[j])
                    > 0,
        decreases requests@.len() - i,
    {
        let ghost before = views(out@);
        assert(all.take(i + 1).drop_last() =~= all.take(i as int));
        assert(all.take(i + 1).last() == requests@[i as int]@);
        let tag = group_tag(&requests[i]);
        if !contains_string(&out, tag.as_str()) {
            out.push(tag);
            assert(views(out@).last() == tag@);
        }
        proof {
            let now = views(out@);
            assert forall|k: int| 0 <= k < i + 1 implies now.contains(
                group_of(#[trigger] all[k]),
            ) by {
                if k < i {
                    let j = choose|j: int| 0 <= j < before.len() && before[j] == group_of(all[k]);
                    assert(now[j] == before[j]);
                } else if now.len() > before.len() {
                    assert(now[before.len() as int] == tag@);
                }
            }
            assert forall|j: int| 0 <= j < now.len() implies group_size(
                all.take(i + 1),
                #[trigger] now[j],
            ) > 0 by {
                if j < before.len() {
                    assert(now[j] == before[j]);
                }
            }
        }
        i += 1;
    }
    assert(all.take(all.len() as int) =~= all);
    out
}

/// Keeping the same items without repetition in another order keeps them
/// without repetition.
proof fn lemma_reordered(a: Seq<Seq<char>>, b: Seq<Seq<char>>)
    requires
        a.no_duplicates(),
        a.to_multiset() == b.to_multiset(),
    ensures
        b.no_duplicates(),
        forall|x: Seq<char>| a.contains(x) <==> b.contains(x),
{
    broadcast use vstd::seq_lib::group_to_multiset_ensures;

    a.lemma_multiset_has_no_duplicates();
    assert forall|x: Seq<char>| b.to_multiset().contains(x) implies b.to_multiset().count(x)
        == 1 by {
        assert(a.to_multiset().contains(x));
    }
    b.lemma_multiset_has_no_duplicates_conv();
    assert forall|x: Seq<char>| a.contains(x) <==> b.contains(x) by {
        assert(a.contains(x) <==> a.to_multiset().count(x) > 0);
        assert(b.contains(x) <==> b.to_multiset().count(x) > 0);
    }
}

pub fn group_counts(requests: &Vec<SavedRequest>) -> (r: Vec<(String, usize)>)
    ensures
        groups_counted(views(requests@), views(r@)),
{
    let distinct = distinct_groups(requests);
    let names = sorted_names(&distinct);
    let ghost all = views(requests@);
    let ghost tags = views(names@);
    proof {
        lemma_reordered(views(distinct@), tags);
    }
    let mut out: Vec<(String, usize)> = Vec::new();
    let mut i: usize = 0;
    while i < names.len()
        invariant
            i <= names@.len(),
            all == views(requests@),
            tags == views(names@),
            out@.len() == i,
            forall|j: int|
                0 <= j < i ==> (#[trigger] views(out@)[j]).0 == tags[j] && views(out@)[j].1
                    == group_size(all, tags[j]),
        decreases names@.len() - i,
    {
        let ghost before = views(out@);
        assert(tags[i as int] == names@[i as int]@);
        let n = size_of_group(requests, names[i].as_str());
        out.push((names[i].clone(), n));
        i += 1;
        assert forall|j: int| 0 <= j < i implies (#[trigger] views(out@)[j]).0 == tags[j]
            && views(out@)[j].1 == group_size(all, tags[j]) by {
            if j < i - 1 {
                assert(views(out@)[j] == before[j]);
            }
        }
    }
    proof {
        let groups = views(out@);
        assert forall|k: int, j: int| 0 <= k < j < groups.len() implies (#[trigger] groups[k]).0
            != (#[trigger] groups[j]).0 && sorts_before(groups[k].0, groups[j].0) by {
            assert(sorts_before(tags[k], tags[j]));
        }
        assert forall|k: int| 0 <= k < groups.len() implies (#[trigger] groups[k]).1 == group_size(
            all,
            groups[k].0,
        ) && groups[k].1 > 0 by {
            assert(tags.contains(tags[k]));
            assert(views(distinct@).contains(tags[k]));
        }
        assert forall|k: int| 0 <= k < all.len() implies listed_group(
            groups,
            group_of(#[trigger] all[k]),
        ) by {
            assert(views(distinct@).contains(group_of(all[k])));
            assert(tags.contains(group_of(all[k])));
            let j = choose|j: int| 0 <= j < tags.len() && tags[j] == group_of(all[k]);
            assert(groups[j].0 == tags[j]);
        }
    }
    out
}

pub open spec fn server_lines(c: CollectionView) -> Seq<Seq<char>> {
    if c.servers.len() == 0 {
        seq!["  servers:   (none)"@]
    } else {
        Seq::new(
            c.servers.len(),
            |i: int|
                "  server"@ + (if i == c.active_server {
                    "*"@
                } else {
                    " "@
                }) + "   "@ + c.servers[i],
        )
    }
}

pub open spec fn info_head(c: CollectionView, path: Seq<char>) -> Seq<Seq<char>> {
    let head = seq![c.name, "  file:      "@ + path];
    match c.spec_source {
        Some(s) => head.push("  spec:      "@ + s),
        None => head,
    }
}

pub open spec fn info_counts(c: CollectionView) -> Seq<Seq<char>> {
    seq![
        "  requests:  "@ + decimal(c.requests.len()),
        "  variables: "@ + decimal(c.variables.len()),
        match c.auth {
            Some(a) => "  auth:      oauth2 client-credentials, token url "@ + a.token_url + " ("@ + (
            if a.client_id.len() == 0 {
                "no"@
            } else {
                "has"@
            }) + " client id)"@,
            None => "  auth:      none"@,
        },
    ]
}

pub open spec fn info_groups(groups: Seq<(Seq<char>, usize)>) -> Seq<Seq<char>> {
    if groups.len() == 0 {
        Seq::empty()
    } else {
        seq!["  groups:"@] + Seq::new(
            groups.len(),
            |i: int| "    "@ + groups[i].0 + " ("@ + decimal(groups[i].1 as nat) + ")"@,
        )
    }
}

/// Whether `lines` are the details of a collection.
pub open spec fn is_info(c: CollectionView, path: Seq<char>, lines: Seq<Seq<char>>) -> bool {
    exists|groups: Seq<(Seq<char>, usize)>| #[trigger]
        groups_counted(c.requests, groups) && lines == info_head(c, path) + server_lines(c)
            + info_counts(c) + info_groups(groups)
}

fn push_texts(out: &mut Vec<String>, more: Vec<String>)
    ensures
        views(final(out)@) == views(old(out)@) + views(more@),
{
    let mut more = more;
    out.append(&mut more);
}

fn draw_servers(c: &Collection) -> (r: Vec<String>)
    ensures
        views(r@) == server_lines(c@),
{
    let mut out: Vec<String> = Vec::new();
    if c.servers.len() == 0 {
        out.push("  servers:   (none)".to_owned());
        assert(views(out@) =~= server_lines(c@));
        return out;
    }
    let ghost goal = server_lines(c@);
    let mut i: usize = 0;
    while i < c.servers.len()
        invariant
            i <= c.servers@.len(),
            c.servers@.len() > 0,
            goal == server_lines(c@),
            views(out@) == goal.take(i as int),
        decreases c.servers@.len() - i,
    {
        assert(c@.servers[i as int] == c.servers@[i as int]@);
        let mut s = "  server".to_owned();
        s.append(
            if i == c.active_server {
                "*"
            } else {
                " "
            },
        );
        s.append("   ");
        s.append(c.servers[i].as_str());
        out.push(s);
        i += 1;
        assert(views(out@) =~= goal.take(i as int));
    }
    assert(goal.take(goal.len() as int) =~= goal);
    out
}

fn draw_groups(groups: &Vec<(String, usize)>) -> (r: Vec<String>)
    ensures
        views(r@) == info_groups(views(groups@)),
{
    let mut out: Vec<String> = Vec::new();
    if groups.len() == 0 {
        return out;
    }
    let ghost all = views(groups@);
    let ghost goal = info_groups(all);
    out.push("  groups:".to_owned());
    assert(views(out@) =~= goal.take(1));
    let mut i: usize = 0;
    while i < groups.len()
        invariant
            i <= groups@.len(),
            groups@.len() > 0,
            all == views(groups@),
            goal == info_groups(all),
            views(out@) == goal.take(i + 1),
        decreases groups@.len() - i,
    {
        assert(all[i as int] == groups@[i as int]@);
        let mut s = "    ".to_owned();
        s.append(groups[i].0.as_str());
        s.append(" (");
        s.append(dec(groups[i].1 as u128).as_str());
        s.append(")");
        out.push(s);
        i += 1;
        assert(views(out@) =~= goal.take(i + 1));
    }
    assert(goal.take(goal.len() as int) =~= goal);
    out
}

fn draw_info_head(c: &Collection, path: &str) -> (r: Vec<String>)
    ensures
        views(r@) == info_head(c@, path@),
{
    let mut out: Vec<String> = Vec::new();
    out.push(c.name.clone());
    out.push(cat("  file:      ", path));
    match &c.spec_source {
        Some(s) => {
            out.push(cat("  spec:      ", s.as_str()));
        },
        None => {},
    }
    assert(views(out@) =~= info_head(c@, path@));
    out
}

fn draw_info_counts(c: &Collection) -> (r: Vec<String>)
    ensures
        views(r@) == info_counts(c@),
{
    let mut out: Vec<String> = Vec::new();
    out.push(cat("  requests:  ", dec(c.requests.len() as u128).as_str()));
    out.push(cat("  variables: ", dec(c.variables.len() as u128).as_str()));
    let auth = match &c.auth {
        Some(a) => {
            let mut s = "  auth:      oauth2 client-credentials, token url ".to_owned();
            s.append(a.token_url.as_str());
            s.append(" (");
            s.append(
                if a.client_id.as_str().is_empty() {
                    "no"
                } else {
                    "has"
                },
            );
            s.append(" client id)");
            s
        },
        None => "  auth:      none".to_owned(),
    };
    out.push(auth);
    assert(views(out@) =~= info_counts(c@));
    out
}

/// The details of a collection, line by line.
pub fn info_lines(c: &Collection, path: &str) -> (r: Vec<String>)
    ensures
        is_info(c@, path@, views(r@)),
{
    let groups = group_counts(&c.requests);
    let mut out = draw_info_head(c, path);
    push_texts(&mut out, draw_servers(c));
    push_texts(&mut out, draw_info_counts(c));
    push_texts(&mut out, draw_groups(&groups));
    assert(groups_counted(c@.requests, views(groups@)));
    out
}

// ----- opening -----

/// Which collection to open: the one asked for, else the last one, else the only
/// one there is.
pub open spec fn opened_name(
    asked: Option<Seq<char>>,
    last: Option<Seq<char>>,
    names: Seq<Seq<char>>,
) -> Result<Seq<char>, Seq<char>> {
    match (asked, last) {
        (Some(n), _) => Ok(n),
        (None, Some(n)) => Ok(n),
        (None, None) => if names.len() == 0 {
            Err(
                "No collections yet. Import one first:\n\n  cielago import <spec.json|yaml|url>\n\nOr create an empty one:\n\n  cielago new <name>"@,
            )
        } else if names.len() == 1 {
            Ok(names[0])
        } else {
            Err(
                "Multiple collections exist; choose one:\n\n  cielago open <name>\n\nAvailable: "@
                    + join(names, ", "@),
            )
        },
    }
}

pub fn choose_open(
    asked: Option<String>,
    last: Option<String>,
    names: &Vec<String>,
) -> (r: Result<String, String>)
    ensures
        crate::http::send::told(r) == opened_name(opt(asked), opt(last), views(names@)),
{
    match asked {
        Some(n) => {
            return Ok(n);
        },
        None => {},
    }
    match last {
        Some(n) => {
            return Ok(n);
        },
        None => {},
    }
    if names.len() == 0 {
        return Err(
            "No collections yet. Import one first:\n\n  cielago import <spec.json|yaml|url>\n\nOr create an empty one:\n\n  cielago new <name>".to_owned(),
        );
    }
    if names.len() == 1 {
        assert(views(names@)[0] == names@[0]@);
        return Ok(names[0].clone());
    }
    Err(
        cat(
            "Multiple collections exist; choose one:\n\n  cielago open <name>\n\nAvailable: ",
            join_strings(names, ", ").as_str(),
        ),
    )
}

// ----- laws -----

/// Typing a server twice does not add it twice, however many slashes and blanks
/// are around it.
pub proof fn lemma_server_entered_once(c: CollectionView, typed: Seq<char>, again: Seq<char>)
    requires
        normalized(typed) == normalized(again),
        c.servers.len() < usize::MAX,
    ensures
        entered(entered(c, typed), again) == entered(c, typed),
{
    let url = normalized(typed);
    if url.len() > 0 {
        match place_of(c.servers, url, 0) {
            Some(i) => {},
            None => {
                lemma_pushed(c.servers, url, 0);
            },
        }
    }
}

proof fn lemma_pushed(servers: Seq<Seq<char>>, url: Seq<char>, from: int)
    requires
        0 <= from <= servers.len(),
        place_of(servers, url, from) is None,
    ensures
        place_of(servers.push(url), url, from) == Some(servers.len() as int),
    decreases servers.len() - from,
{
    if from < servers.len() {
        lemma_pushed(servers, url, from + 1);
    }
}

/// Editing never overwrites another collection, and a text that is no collection
/// never replaces one.
pub proof fn lemma_edits_are_safe(
    success: bool,
    original: Seq<char>,
    edited: Seq<char>,
    parsed: Result<Seq<char>, Seq<char>>,
    before: Seq<char>,
    after: Seq<char>,
    taken: bool,
)
    requires
        edit_outcome(success, original, edited, parsed, before, after, taken) is Saved,
    ensures
        success,
        parsed is Ok,
        after == before || !taken,
{
}

/// Renaming never overwrites another collection: a file that is there is only
/// written to when it is the collection's own.
pub proof fn lemma_no_overwrite(before: Seq<char>, after: Seq<char>)
    requires
        before != after,
    ensures
        move_of(before, after, true) == Move::Clashes,
{
}

} // verus!
