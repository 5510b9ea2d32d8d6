//! What is shown: sidebar, URL bar, editor tabs, response, status bar and
//! popups, as lines of styled text. Where they go on the screen is for the
//! terminal code to decide.

use vstd::prelude::*;

use crate::app::auth::{label_under, rows_under, style_title};
use crate::app::kinds::{
    AuthField, CellCol, EditTarget, Mode, SidebarRow, SidebarRowView, TableId,
};
use crate::app::line_edit::byte_len;
use crate::app::state::{App, AppView};
use crate::app::tables::{counted, one_less};
use crate::highlight::{highlight, highlighted};
use crate::http::client::status_line_of;
use crate::http::vars::{dynamic_table, dynamic_vars};
use crate::model::{
    active_base, label_of, AuthKind, AuthStyle, FieldDoc, FieldDocView, KeyValueRow, Method,
    RequestView, RowView, SavedRequest,
};
use crate::style::{line_of, raw_line, styled_line, Color, Line, LineView, Span, SpanView, Style};
use crate::text::{
    cat, group_views, join, join_strings, lines, opt, pad_right, pad_right_to, same, split_lines,
    views,
};

verus! {

broadcast use group_views;

// ----- shared styles -----

pub open spec fn border_of(focus: bool) -> Style {
    if focus {
        Style::colored(Color::Cyan)
    } else {
        Style::colored(Color::DarkGray)
    }
}

/// The border of a pane.
pub fn focused(focus: bool) -> (r: Style)
    ensures
        r == border_of(focus),
{
    if focus {
        Style::color(Color::Cyan)
    } else {
        Style::color(Color::DarkGray)
    }
}

pub open spec fn color_of(m: Method) -> Color {
    match m {
        Method::Get => Color::Green,
        Method::Post => Color::Yellow,
        Method::Put => Color::Blue,
        Method::Patch => Color::Magenta,
        Method::Delete => Color::Red,
        Method::Head => Color::Cyan,
        Method::Options => Color::Gray,
    }
}

pub fn method_color(m: Method) -> (r: Color)
    ensures
        r == color_of(m),
{
    match m {
        Method::Get => Color::Green,
        Method::Post => Color::Yellow,
        Method::Put => Color::Blue,
        Method::Patch => Color::Magenta,
        Method::Delete => Color::Red,
        Method::Head => Color::Cyan,
        Method::Options => Color::Gray,
    }
}

pub open spec fn box_text(enabled: bool) -> Seq<char> {
    if enabled {
        "[x]"@
    } else {
        "[ ]"@
    }
}

pub fn checkbox(enabled: bool) -> (r: &'static str)
    ensures
        r@ == box_text(enabled),
{
    if enabled {
        "[x]"
    } else {
        "[ ]"
    }
}

pub open spec fn vivid(c: Color) -> Style {
    Style { bold: true, ..Style::colored(c) }
}

fn strong_color(c: Color) -> (r: Style)
    ensures
        r == vivid(c),
{
    Style { fg: Some(c), bg: None, bold: true, italic: false, underlined: false }
}

pub open spec fn span(text: Seq<char>, style: Style) -> SpanView {
    SpanView { text, style }
}

/// A scroll offset that goes no further than `max`.
pub open spec fn at_most(at: usize, max: usize) -> usize {
    if at <= max {
        at
    } else {
        max
    }
}

fn limited(at: usize, max: usize) -> (r: usize)
    ensures
        r == at_most(at, max),
{
    if at <= max {
        at
    } else {
        max
    }
}

pub open spec fn rest_of(lines: nat, height: nat) -> usize {
    if lines <= height {
        0
    } else {
        (lines - height) as usize
    }
}

// ----- sidebar -----

pub open spec fn sidebar_heading(a: AppView) -> Seq<char> {
    if a.filter.len() == 0 {
        " "@ + a.collection.name + " "@
    } else {
        " "@ + a.collection.name + " — /"@ + a.filter + " "@
    }
}

pub open spec fn sidebar_line(a: AppView, row: SidebarRowView) -> LineView {
    match row {
        SidebarRowView::Group(tag) => line_of(
            seq![
                span(
                    (if a.collapsed.contains(tag) {
                        "▸"@
                    } else {
                        "▾"@
                    }) + " "@ + tag,
                    Style::strong(),
                ),
            ],
        ),
        SidebarRowView::Request(k) => {
            let r = a.collection.requests[k];
            line_of(
                seq![
                    span("  "@ + pad_right(r.method.verb(), 7), Style::colored(color_of(r.method))),
                    span(label_of(r, a.collection.label_mode), Style::none()),
                ],
            )
        },
    }
}

pub fn sidebar_title(app: &App) -> (r: String)
    ensures
        r@ == sidebar_heading(app@),
{
    let mut s = " ".to_owned();
    s.append(app.collection.name.as_str());
    if !app.filter.as_str().is_empty() {
        s.append(" — /");
        s.append(app.filter.as_str());
    }
    s.append(" ");
    s
}

fn two_spans(a: Span, b: Span) -> (r: Line)
    ensures
        r@ == line_of(seq![a@, b@]),
{
    let mut spans: Vec<Span> = Vec::new();
    spans.push(a);
    spans.push(b);
    assert(views(spans@) =~= seq![a@, b@]);
    Line::from_spans(spans)
}

fn one_span(a: Span) -> (r: Line)
    ensures
        r@ == line_of(seq![a@]),
{
    let mut spans: Vec<Span> = Vec::new();
    spans.push(a);
    assert(views(spans@) =~= seq![a@]);
    Line::from_spans(spans)
}

fn draw_row(app: &App, row: &SidebarRow) -> (r: Line)
    requires
        match row@ {
            SidebarRowView::Request(k) => 0 <= k < app@.collection.requests.len(),
            SidebarRowView::Group(_) => true,
        },
    ensures
        r@ == sidebar_line(app@, row@),
{
    match row {
        SidebarRow::Group(tag) => {
            let mut s = if app.collapsed.contains(tag.as_str()) {
                "▸".to_owned()
            } else {
                "▾".to_owned()
            };
            s.append(" ");
            s.append(tag.as_str());
            one_span(Span::styled(s.as_str(), Style::bold()))
        },
        SidebarRow::Request(i) => {
            assert(app@.collection.requests[*i as int] == app.collection.requests@[*i as int]@);
            let req = &app.collection.requests[*i];
            let verb = cat("  ", pad_right_to(req.method.as_str(), 7).as_str());
            two_spans(
                Span::styled(verb.as_str(), Style::color(method_color(req.method))),
                Span::raw(req.label(app.collection.label_mode)),
            )
        },
    }
}

pub fn sidebar_lines(app: &App) -> (r: Vec<Line>)
    requires
        app.wf(),
    ensures
        views(r@) == app@.sidebar_rows.map_values(|row: SidebarRowView| sidebar_line(app@, row)),
{
    let ghost rows = app@.sidebar_rows;
    let ghost goal = rows.map_values(|row: SidebarRowView| sidebar_line(app@, row));
    let mut out: Vec<Line> = Vec::new();
    let mut i: usize = 0;
    while i < app.sidebar_rows.len()
        invariant
            i <= app.sidebar_rows@.len(),
            app.wf(),
            rows == views(app.sidebar_rows@),
            goal == rows.map_values(|row: SidebarRowView| sidebar_line(app@, row)),
            views(out@) == goal.take(i as int),
        decreases app.sidebar_rows@.len() - i,
    {
        assert(rows[i as int] == app.sidebar_rows@[i as int]@);
        out.push(draw_row(app, &app.sidebar_rows[i]));
        i += 1;
        assert(views(out@) =~= goal.take(i as int));
    }
    assert(goal.take(rows.len() as int) =~= goal);
    out
}

/// The scroll offset that holds `sel` at the middle of a list that shows
/// `viewport` lines, kept so that neither end scrolls past the edges.
pub open spec fn middle_offset(sel: int, len: int, viewport: int) -> int {
    if viewport == 0 || len <= viewport || sel < viewport / 2 {
        0
    } else if sel - viewport / 2 > len - viewport {
        len - viewport
    } else {
        sel - viewport / 2
    }
}

pub fn centered_offset(sel: usize, len: usize, viewport: usize) -> (r: usize)
    ensures
        r == middle_offset(sel as int, len as int, viewport as int),
{
    if viewport == 0 || len <= viewport {
        return 0;
    }
    limited(sel.saturating_sub(viewport / 2), len - viewport)
}

/// The selected line is on screen, wherever it is in the list, and the list
/// fills the screen as long as it is long enough.
pub proof fn lemma_selection_on_screen(sel: int, len: int, viewport: int)
    requires
        0 <= sel < len,
        0 < viewport,
    ensures
        middle_offset(sel, len, viewport) <= sel < middle_offset(sel, len, viewport) + viewport,
        0 <= middle_offset(sel, len, viewport),
        len >= viewport ==> middle_offset(sel, len, viewport) + viewport <= len,
{
}

// ----- URL bar -----

pub open spec fn url_heading(a: AppView) -> Seq<char> {
    match a.request() {
        Some(r) => " "@ + r.name + " — p: edit url "@,
        None => " cielago "@,
    }
}

pub open spec fn url_text(a: AppView) -> LineView {
    match a.request() {
        Some(r) => line_of(
            seq![
                span(" "@ + pad_right(r.method.verb(), 7), vivid(color_of(r.method))),
                span(
                    (match active_base(a.collection) {
                        Some(b) => b,
                        None => "<no server — press E>"@,
                    }) + r.path,
                    Style::none(),
                ),
            ],
        ),
        None => raw_line("No request selected — pick one from the sidebar"@),
    }
}

pub fn url_title(app: &App) -> (r: String)
    requires
        app.wf(),
    ensures
        r@ == url_heading(app@),
{
    match app.selected_request() {
        Some(req) => {
            let mut s = " ".to_owned();
            s.append(req.name.as_str());
            s.append(" — p: edit url ");
            s
        },
        None => " cielago ".to_owned(),
    }
}

pub fn url_line(app: &App) -> (r: Line)
    requires
        app.wf(),
    ensures
        r@ == url_text(app@),
{
    match app.selected_request() {
        Some(req) => {
            let mut url = match app.collection.base_url() {
                Some(b) => b.to_owned(),
                None => "<no server — press E>".to_owned(),
            };
            url.append(req.path.as_str());
            let verb = cat(" ", pad_right_to(req.method.as_str(), 7).as_str());
            two_spans(
                Span::styled(verb.as_str(), strong_color(method_color(req.method))),
                Span::raw(url.as_str()),
            )
        },
        None => Line::raw("No request selected — pick one from the sidebar"),
    }
}

// ----- body -----

/// The body, highlighted. While it is being typed into there is nothing to show
/// here: the plain text area takes its place.
pub open spec fn body_text(a: AppView) -> Option<Seq<LineView>> {
    if a.mode == Mode::Insert && a.editing is None {
        None
    } else {
        Some(highlighted(join(a.textarea.lines, "\n"@), true))
    }
}

pub fn body_lines(app: &App) -> (r: Option<Vec<Line>>)
    ensures
        match r {
            Some(v) => body_text(app@) == Some(views(v@)),
            None => body_text(app@) is None,
        },
{
    if app.mode == Mode::Insert && app.editing.is_none() {
        return None;
    }
    let rows = app.textarea.lines();
    let text = join_strings(&rows, "\n");
    Some(highlight(text.as_str(), true))
}

/// How far a body of `lines` lines is scrolled: to the cursor, which marks the
/// place.
pub fn body_offset(app: &App, lines: usize) -> (r: usize)
    ensures
        r == at_most(app@.textarea.row as usize, one_less(lines)),
{
    limited(app.textarea.cursor().0, lines.saturating_sub(1))
}

// ----- docs -----

fn push_all(out: &mut Vec<Line>, more: Vec<Line>)
    ensures
        views(final(out)@) == views(old(out)@) + views(more@),
{
    let mut more = more;
    out.append(&mut more);
}

/// A text in one style, line by line, with something in front of each line.
pub open spec fn indented(text: Seq<char>, before: Seq<char>, style: Style) -> Seq<LineView> {
    lines(text).map_values(|l: Seq<char>| styled_line(before + l, style))
}

fn draw_text(text: &str, before: &str, style: Style) -> (r: Vec<Line>)
    ensures
        views(r@) == indented(text@, before@, style),
{
    let rows = split_lines(text);
    let ghost goal = indented(text@, before@, style);
    let mut out: Vec<Line> = Vec::new();
    let mut i: usize = 0;
    while i < rows.len()
        invariant
            i <= rows@.len(),
            views(rows@) == lines(text@),
            goal == indented(text@, before@, style),
            views(out@) == goal.take(i as int),
        decreases rows@.len() - i,
    {
        assert(views(rows@)[i as int] == rows@[i as int]@);
        out.push(Line::styled(cat(before, rows[i].as_str()).as_str(), style));
        i += 1;
        assert(views(out@) =~= goal.take(i as int));
    }
    assert(goal.take(goal.len() as int) =~= goal);
    out
}

/// Name, type and default of a field. Required fields are starred, as in most
/// API docs.
pub open spec fn field_head(d: FieldDocView) -> LineView {
    let head = seq![
        span("  "@ + d.name, Style::colored(Color::Cyan)),
        span(
            if d.required {
                "*"@
            } else {
                ""@
            },
            Style::colored(Color::Red),
        ),
        span("  "@, Style::none()),
        span(d.ty, Style::colored(Color::Yellow)),
    ];
    line_of(
        match d.default {
            Some(v) => head.push(span("  = "@ + v, Style::colored(Color::DarkGray))),
            None => head,
        },
    )
}

pub open spec fn field_options(d: FieldDocView) -> Seq<LineView> {
    if d.options.len() == 0 {
        Seq::empty()
    } else {
        seq![
            line_of(
                seq![
                    span("    one of: "@, Style::colored(Color::DarkGray)),
                    span(join(d.options, " | "@), Style::colored(Color::Magenta)),
                ],
            ),
        ]
    }
}

pub open spec fn field_description(d: FieldDocView) -> Seq<LineView> {
    match d.description {
        Some(t) => indented(t, "    "@, Style::colored(Color::Gray)),
        None => Seq::empty(),
    }
}

/// Everything there is to say of a field.
pub open spec fn field_lines(d: FieldDocView) -> Seq<LineView> {
    seq![field_head(d)] + field_options(d) + field_description(d)
}

/// The fields of one place, in order.
pub open spec fn fields_at(docs: Seq<FieldDocView>, location: Seq<char>) -> Seq<LineView>
    decreases docs.len(),
{
    if docs.len() == 0 {
        Seq::empty()
    } else if docs.last().location == location {
        fields_at(docs.drop_last(), location) + field_lines(docs.last())
    } else {
        fields_at(docs.drop_last(), location)
    }
}

/// The fields of one place under their heading; nothing where there are none.
pub open spec fn section(
    docs: Seq<FieldDocView>,
    location: Seq<char>,
    heading: Seq<char>,
) -> Seq<LineView> {
    let fields = fields_at(docs, location);
    if fields.len() == 0 {
        Seq::empty()
    } else {
        seq![raw_line(""@), styled_line(heading, Style::strong())] + fields
    }
}

pub open spec fn sections(docs: Seq<FieldDocView>) -> Seq<LineView> {
    section(docs, "path"@, "Path params"@) + section(docs, "query"@, "Query params"@) + section(
        docs,
        "header"@,
        "Headers"@,
    ) + section(docs, "body"@, "Body"@) + section(docs, "response"@, "Response"@)
}

pub open spec fn docs_heading(r: RequestView) -> LineView {
    line_of(
        seq![
            span(r.method.verb() + " "@ + r.path, vivid(color_of(r.method))),
            span("  "@, Style::none()),
            span(
                match r.summary {
                    Some(s) => s,
                    None => r.name,
                },
                Style::colored(Color::Gray),
            ),
        ],
    )
}

pub open spec fn docs_description(r: RequestView) -> Seq<LineView> {
    match r.description {
        Some(t) => seq![raw_line(""@)] + indented(t, ""@, Style::colored(Color::Gray)),
        None => Seq::empty(),
    }
}

pub open spec fn docs_missing(r: RequestView) -> Seq<LineView> {
    if r.docs.len() == 0 {
        seq![
            raw_line(""@),
            styled_line(
                "No spec docs for this request. Hand-made requests have none;"@,
                Style::colored(Color::DarkGray),
            ),
            styled_line(
                "for imported ones, re-import the spec to fill this in."@,
                Style::colored(Color::DarkGray),
            ),
        ]
    } else {
        Seq::empty()
    }
}

/// What the API description says about the open request: the description of the
/// operation, then every parameter and body field with its type, accepted
/// values and default.
pub open spec fn docs_text(a: AppView) -> Seq<LineView> {
    match a.request() {
        None => seq![raw_line("No request selected."@)],
        Some(r) => seq![docs_heading(r)] + docs_description(r) + docs_missing(r) + sections(r.docs),
    }
}

fn draw_field_head(d: &FieldDoc) -> (r: Line)
    ensures
        r@ == field_head(d@),
{
    let mut head: Vec<Span> = Vec::new();
    head.push(Span::styled(cat("  ", d.name.as_str()).as_str(), Style::color(Color::Cyan)));
    head.push(
        Span::styled(
            if d.required {
                "*"
            } else {
                ""
            },
            Style::color(Color::Red),
        ),
    );
    head.push(Span::raw("  "));
    head.push(Span::styled(d.ty.as_str(), Style::color(Color::Yellow)));
    match &d.default {
        Some(v) => {
            head.push(
                Span::styled(cat("  = ", v.as_str()).as_str(), Style::color(Color::DarkGray)),
            );
        },
        None => {},
    }
    assert(views(head@) =~= field_head(d@).spans);
    Line::from_spans(head)
}

fn draw_field(d: &FieldDoc) -> (r: Vec<Line>)
    ensures
        views(r@) == field_lines(d@),
{
    let mut out: Vec<Line> = Vec::new();
    out.push(draw_field_head(d));
    assert(views(out@) =~= seq![field_head(d@)]);
    if d.options.len() > 0 {
        let options = join_strings(&d.options, " | ");
        out.push(
            two_spans(
                Span::styled("    one of: ", Style::color(Color::DarkGray)),
                Span::styled(options.as_str(), Style::color(Color::Magenta)),
            ),
        );
    }
    assert(views(out@) =~= seq![field_head(d@)] + field_options(d@));
    match &d.description {
        Some(t) => {
            push_all(&mut out, draw_text(t.as_str(), "    ", Style::color(Color::Gray)));
        },
        None => {},
    }
    assert(views(out@) =~= field_lines(d@));
    out
}

fn draw_section(docs: &Vec<FieldDoc>, location: &str, heading: &str) -> (r: Vec<Line>)
    ensures
        views(r@) == section(views(docs@), location@, heading@),
{
    let ghost all = views(docs@);
    let mut fields: Vec<Line> = Vec::new();
    let mut i: usize = 0;
    while i < docs.len()
        invariant
            i <= docs@.len(),
            all == views(docs@),
            views(fields@) == fields_at(all.take(i as int), location@),
        decreases docs@.len() - i,
    {
        assert(all.take(i + 1).drop_last() =~= all.take(i as int));
        assert(all.take(i + 1).last() == docs@[i as int]@);
        if same(docs[i].location.as_str(), location) {
            push_all(&mut fields, draw_field(&docs[i]));
        }
        i += 1;
    }
    assert(all.take(all.len() as int) =~= all);
    let mut out: Vec<Line> = Vec::new();
    if fields.len() > 0 {
        out.push(Line::raw(""));
        out.push(Line::styled(heading, Style::bold()));
        push_all(&mut out, fields);
    }
    assert(views(out@) =~= section(all, location@, heading@));
    out
}

fn draw_sections(docs: &Vec<FieldDoc>) -> (r: Vec<Line>)
    ensures
        views(r@) == sections(views(docs@)),
{
    let mut out = draw_section(docs, "path", "Path params");
    push_all(&mut out, draw_section(docs, "query", "Query params"));
    push_all(&mut out, draw_section(docs, "header", "Headers"));
    push_all(&mut out, draw_section(docs, "body", "Body"));
    push_all(&mut out, draw_section(docs, "response", "Response"));
    out
}

fn draw_docs_heading(req: &SavedRequest) -> (r: Line)
    ensures
        r@ == docs_heading(req@),
{
    let mut what = req.method.as_str().to_owned();
    what.append(" ");
    what.append(req.path.as_str());
    let name: &str = match &req.summary {
        Some(s) => s.as_str(),
        None => req.name.as_str(),
    };
    let mut spans: Vec<Span> = Vec::new();
    spans.push(Span::styled(what.as_str(), strong_color(method_color(req.method))));
    spans.push(Span::raw("  "));
    spans.push(Span::styled(name, Style::color(Color::Gray)));
    assert(views(spans@) =~= docs_heading(req@).spans);
    Line::from_spans(spans)
}

fn draw_docs_intro(req: &SavedRequest) -> (r: Vec<Line>)
    ensures
        views(r@) == seq![docs_heading(req@)] + docs_description(req@) + docs_missing(req@),
{
    let mut out: Vec<Line> = Vec::new();
    out.push(draw_docs_heading(req));
    assert(views(out@) =~= seq![docs_heading(req@)]);
    match &req.description {
        Some(t) => {
            out.push(Line::raw(""));
            push_all(&mut out, draw_text(t.as_str(), "", Style::color(Color::Gray)));
        },
        None => {},
    }
    assert(views(out@) =~= seq![docs_heading(req@)] + docs_description(req@));
    if req.docs.len() == 0 {
        out.push(Line::raw(""));
        out.push(
            Line::styled(
                "No spec docs for this request. Hand-made requests have none;",
                Style::color(Color::DarkGray),
            ),
        );
        out.push(
            Line::styled(
                "for imported ones, re-import the spec to fill this in.",
                Style::color(Color::DarkGray),
            ),
        );
    }
    assert(views(out@) =~= seq![docs_heading(req@)] + docs_description(req@) + docs_missing(req@));
    out
}

pub fn docs_lines(app: &App) -> (r: Vec<Line>)
    requires
        app.wf(),
    ensures
        views(r@) == docs_text(app@),
{
    match app.selected_request() {
        None => {
            let mut out: Vec<Line> = Vec::new();
            out.push(Line::raw("No request selected."));
            assert(views(out@) =~= docs_text(app@));
            out
        },
        Some(req) => {
            let mut out = draw_docs_intro(req);
            push_all(&mut out, draw_sections(&req.docs));
            assert(views(out@) =~= docs_text(app@));
            out
        },
    }
}

/// Keeps the Docs tab's offset inside its text. Long lines are wrapped when they
/// are drawn, so the text takes at least this many lines and the last one stays
/// reachable.
pub fn settle_docs(app: &mut App, lines: usize, height: usize)
    requires
        old(app).wf(),
    ensures
        final(app).wf(),
        final(app)@ == (AppView {
            docs_scroll: at_most(old(app)@.docs_scroll, rest_of(lines as nat, height as nat)),
            ..old(app)@
        }),
{
    app.docs_scroll = limited(app.docs_scroll, lines.saturating_sub(height));
}

// ----- tables -----

/// One line of a table: its cells from left to right, greyed out where the row
/// is switched off.
#[derive(Debug, PartialEq, Eq)]
pub struct TableLine {
    pub cells: Vec<String>,
    pub enabled: bool,
}

#[verifier::ext_equal]
pub struct TableLineView {
    pub cells: Seq<Seq<char>>,
    pub enabled: bool,
}

impl View for TableLine {
    type V = TableLineView;

    open spec fn view(&self) -> TableLineView {
        TableLineView { cells: views(self.cells@), enabled: self.enabled }
    }
}

/// A row of a table. The parameters' table says where each one goes.
pub open spec fn table_line(r: RowView, place: Option<Seq<char>>) -> TableLineView {
    TableLineView {
        cells: match place {
            Some(p) => seq![box_text(r.enabled), p, r.key, r.value],
            None => seq![box_text(r.enabled), r.key, r.value],
        },
        enabled: r.enabled,
    }
}

pub open spec fn rows_text(rows: Seq<RowView>, place: Option<Seq<char>>) -> Seq<TableLineView> {
    rows.map_values(|r: RowView| table_line(r, place))
}

pub open spec fn table_text(a: AppView, table: TableId) -> Seq<TableLineView> {
    match (table, a.request()) {
        (TableId::Vars, _) => rows_text(a.collection.variables, None),
        (TableId::Headers, Some(r)) => rows_text(r.headers, None),
        (TableId::Params, Some(r)) => rows_text(r.path_params, Some("path"@)) + rows_text(
            r.query,
            Some("query"@),
        ),
        _ => Seq::empty(),
    }
}

fn draw_table_row(row: &KeyValueRow, place: Option<&str>) -> (r: TableLine)
    ensures
        r@ == table_line(row@, opt(place)),
{
    let mut cells: Vec<String> = Vec::new();
    cells.push(checkbox(row.enabled).to_owned());
    match place {
        Some(p) => {
            cells.push(p.to_owned());
        },
        None => {},
    }
    cells.push(row.key.clone());
    cells.push(row.value.clone());
    assert(views(cells@) =~= table_line(row@, opt(place)).cells);
    TableLine { cells, enabled: row.enabled }
}

fn draw_rows(rows: &Vec<KeyValueRow>, place: Option<&str>) -> (r: Vec<TableLine>)
    ensures
        views(r@) == rows_text(views(rows@), opt(place)),
{
    let ghost goal = rows_text(views(rows@), opt(place));
    let mut out: Vec<TableLine> = Vec::new();
    let mut i: usize = 0;
    while i < rows.len()
        invariant
            i <= rows@.len(),
            goal == rows_text(views(rows@), opt(place)),
            views(out@) == goal.take(i as int),
        decreases rows@.len() - i,
    {
        assert(views(rows@)[i as int] == rows@[i as int]@);
        out.push(draw_table_row(&rows[i], place));
        i += 1;
        assert(views(out@) =~= goal.take(i as int));
    }
    assert(goal.take(goal.len() as int) =~= goal);
    out
}

pub fn table_lines(app: &App, table: TableId) -> (r: Vec<TableLine>)
    requires
        app.wf(),
    ensures
        views(r@) == table_text(app@, table),
        views(r@).len() == app@.rows(table).len(),
{
    match table {
        TableId::Vars => draw_rows(&app.collection.variables, None),
        TableId::Headers => match app.selected_request() {
            Some(req) => draw_rows(&req.headers, None),
            None => Vec::new(),
        },
        TableId::Params => match app.selected_request() {
            Some(req) => {
                let mut out = draw_rows(&req.path_params, Some("path"));
                let mut query = draw_rows(&req.query, Some("query"));
                out.append(&mut query);
                out
            },
            None => Vec::new(),
        },
    }
}

/// The line that is marked; none in an empty table.
pub open spec fn marked_row(a: AppView, table: TableId) -> Option<usize> {
    if a.rows(table).len() == 0 {
        None
    } else {
        Some(a.table_row)
    }
}

pub fn table_selection(app: &App, table: TableId) -> (r: Option<usize>)
    requires
        app.wf(),
    ensures
        r == marked_row(app@, table),
{
    if app.table_len(table) == 0 {
        None
    } else {
        Some(app.table_row)
    }
}

pub open spec fn hint_for(table: TableId) -> Seq<char> {
    match table {
        TableId::Vars =>
            " Variables — {{name}} usable anywhere · space: toggle · a: add · i: edit · d: del "@,
        _ => " space: toggle · a: add · i: edit · d: del · Enter: send "@,
    }
}

pub fn table_hint(table: TableId) -> (r: &'static str)
    ensures
        r@ == hint_for(table),
{
    match table {
        TableId::Vars =>
            " Variables — {{name}} usable anywhere · space: toggle · a: add · i: edit · d: del ",
        _ => " space: toggle · a: add · i: edit · d: del · Enter: send ",
    }
}

// ----- response -----

pub open spec fn response_heading(a: AppView) -> Seq<char> {
    if a.sending {
        " Response — sending… "@
    } else {
        match a.response {
            Some(r) => " Response — "@ + status_line_of(r) + " "@,
            None => " Response "@,
        }
    }
}

pub open spec fn response_text(a: AppView) -> Seq<char> {
    match a.response {
        Some(r) => r.body,
        None => "No response yet — press Enter on the editor to send."@,
    }
}

pub fn response_title(app: &App) -> (r: String)
    ensures
        r@ == response_heading(app@),
{
    if app.sending {
        return " Response — sending… ".to_owned();
    }
    match &app.response {
        Some(resp) => {
            let mut s = " Response — ".to_owned();
            s.append(resp.status_line().as_str());
            s.append(" ");
            s
        },
        None => " Response ".to_owned(),
    }
}

fn response_body(app: &App) -> (r: &str)
    ensures
        r@ == response_text(app@),
{
    match &app.response {
        Some(resp) => resp.body.as_str(),
        None => "No response yet — press Enter on the editor to send.",
    }
}

/// The response, highlighted. `{{…}}` in it is literal server output, not
/// template syntax.
pub fn response_lines(app: &App) -> (r: Vec<Line>)
    ensures
        views(r@) == highlighted(response_text(app@), false),
{
    highlight(response_body(app), false)
}

/// Keeps the response's offset inside its text.
pub fn settle_response(app: &mut App)
    requires
        old(app).wf(),
    ensures
        final(app).wf(),
        final(app)@ == (AppView {
            response_scroll: at_most(
                old(app)@.response_scroll,
                one_less(lines(response_text(old(app)@)).len() as usize),
            ),
            ..old(app)@
        }),
{
    let count: usize = split_lines(response_body(app)).len();
    app.response_scroll = limited(app.response_scroll, count.saturating_sub(1));
}

// ----- status bar -----

/// The last line of the screen.
#[derive(Debug, PartialEq, Eq)]
pub enum StatusBar {
    /// A prompt with the cursor at this column.
    Prompt { text: String, cursor: usize },
    Info(Line),
}

#[verifier::ext_equal]
pub enum StatusView {
    Prompt { text: Seq<char>, cursor: usize },
    Info(LineView),
}

impl View for StatusBar {
    type V = StatusView;

    open spec fn view(&self) -> StatusView {
        match self {
            StatusBar::Prompt { text, cursor } => StatusView::Prompt { text: text@, cursor: *cursor },
            StatusBar::Info(l) => StatusView::Info(l@),
        }
    }
}

pub open spec fn prompt_label(t: EditTarget) -> Seq<char> {
    match t {
        EditTarget::Cell { table, row, col } => match col {
            CellCol::Key => "key"@,
            CellCol::Value => "value"@,
        },
        EditTarget::Rename => "rename"@,
        EditTarget::NewRequest => "new request"@,
        EditTarget::Url => "url"@,
        EditTarget::EnvNew => "server url"@,
        EditTarget::AuthField(_) => "auth"@,
    }
}

pub open spec fn badge(m: Mode) -> SpanView {
    match m {
        Mode::Normal => span(
            " NORMAL "@,
            Style { bg: Some(Color::Green), ..Style::colored(Color::Black) },
        ),
        Mode::Insert => span(
            " INSERT "@,
            Style { bg: Some(Color::Yellow), ..Style::colored(Color::Black) },
        ),
        Mode::Command | Mode::Search => span(""@, Style::none()),
    }
}

pub open spec fn info_text(a: AppView) -> Seq<char> {
    " "@ + a.collection.name + (if a.dirty {
        "*"@
    } else {
        ""@
    }) + " | "@ + (match active_base(a.collection) {
        Some(b) => b,
        None => "no server"@,
    }) + " | "@ + a.status + " "@
}

pub open spec fn status_text(a: AppView) -> StatusView {
    match (a.mode, a.editing) {
        (Mode::Command, _) => StatusView::Prompt {
            text: ":"@ + a.command,
            cursor: counted(byte_len(a.command) + 1),
        },
        (Mode::Search, _) => StatusView::Prompt {
            text: "/"@ + a.search.text,
            cursor: counted((a.search.at + 1) as nat),
        },
        (Mode::Insert, Some(t)) => StatusView::Prompt {
            text: prompt_label(t) + "> "@ + a.input.text,
            cursor: counted((prompt_label(t).len() + 2 + a.input.at) as nat),
        },
        _ => StatusView::Info(line_of(seq![badge(a.mode), span(info_text(a), Style::none())])),
    }
}

fn label_for(t: EditTarget) -> (r: &'static str)
    ensures
        r@ == prompt_label(t),
{
    match t {
        EditTarget::Cell { table: _, row: _, col } => match col {
            CellCol::Key => "key",
            CellCol::Value => "value",
        },
        EditTarget::Rename => "rename",
        EditTarget::NewRequest => "new request",
        EditTarget::Url => "url",
        EditTarget::EnvNew => "server url",
        EditTarget::AuthField(_) => "auth",
    }
}

fn draw_badge(m: Mode) -> (r: Span)
    ensures
        r@ == badge(m),
{
    match m {
        Mode::Normal => Span::styled(
            " NORMAL ",
            Style {
                fg: Some(Color::Black),
                bg: Some(Color::Green),
                bold: false,
                italic: false,
                underlined: false,
            },
        ),
        Mode::Insert => Span::styled(
            " INSERT ",
            Style {
                fg: Some(Color::Black),
                bg: Some(Color::Yellow),
                bold: false,
                italic: false,
                underlined: false,
            },
        ),
        Mode::Command | Mode::Search => Span::raw(""),
    }
}

fn draw_info(app: &App) -> (r: String)
    ensures
        r@ == info_text(app@),
{
    let mut s = " ".to_owned();
    s.append(app.collection.name.as_str());
    s.append(
        if app.dirty {
            "*"
        } else {
            ""
        },
    );
    s.append(" | ");
    match app.collection.base_url() {
        Some(b) => {
            s.append(b);
        },
        None => {
            s.append("no server");
        },
    }
    s.append(" | ");
    s.append(app.status.as_str());
    s.append(" ");
    s
}

fn draw_prompt(t: EditTarget, text: &str, at: usize) -> (r: StatusBar)
    ensures
        r@ == (StatusView::Prompt {
            text: prompt_label(t) + "> "@ + text@,
            cursor: counted((prompt_label(t).len() + 2 + at) as nat),
        }),
{
    let label = label_for(t);
    let n = label.unicode_len();
    let mut s = label.to_owned();
    s.append("> ");
    s.append(text);
    StatusBar::Prompt { text: s, cursor: n.saturating_add(2).saturating_add(at) }
}

pub fn status_bar(app: &App) -> (r: StatusBar)
    requires
        app.wf(),
    ensures
        r@ == status_text(app@),
{
    match app.mode {
        Mode::Command => {
            let cursor: usize = app.command.as_str().as_bytes().len().saturating_add(1);
            return StatusBar::Prompt { text: cat(":", app.command.as_str()), cursor };
        },
        Mode::Search => {
            return StatusBar::Prompt {
                text: cat("/", app.search.buf.as_str()),
                cursor: app.search.at.saturating_add(1),
            };
        },
        _ => {},
    }
    if app.mode == Mode::Insert {
        match app.editing {
            Some(t) => {
                return draw_prompt(t, app.input.buf.as_str(), app.input.at);
            },
            None => {},
        }
    }
    StatusBar::Info(two_spans(draw_badge(app.mode), Span::raw(draw_info(app).as_str())))
}

// ----- help -----

/// The help text up to the list of dynamic variables.
pub open spec fn help_head() -> Seq<&'static str> {
    seq![
        "Global",
        "  1/2/3, Tab   focus sidebar / editor / response",
        "  z            maximize the focused pane (z again to restore)",
        "  ] or L       next tab (Params/Headers/Body/Docs/Variables)",
        "  [ or H       previous editor tab",
        "  /            search / filter requests",
        "  E            servers / base URLs",
        "  A            auth config (bearer / API key / OAuth2)",
        "  :            command line (:w save, :q quit, :q! force, :wq)",
        "  q            quit (warns when unsaved)",
        "",
        "Sidebar",
        "  j/k, g/G     navigate",
        "  Enter/h/l    open request · collapse/expand group",
        "  n/r/d/y      new / rename / delete / duplicate request",
        "  /            filter (Enter keeps it, Esc clears)",
        "  t            cycle labels: name → summary → path",
        "",
        "Editor (tables)",
        "  Enter        send request",
        "  i            edit value of selected row",
        "  a            add row (key then value)",
        "  space        enable/disable row",
        "  d            delete row · m cycle method · r rename",
        "  p            edit URL / path (paste a full URL to set",
        "               the server; ?query fills the Params tab;",
        "               a leading verb sets the method, e.g.",
        "               `post /pets`)",
        "",
        "Body tab",
        "  j/k, d/u     scroll · g/G top/bottom",
        "  i            edit inline (Esc to finish)",
        "  e            edit in $EDITOR",
        "",
        "Docs tab",
        "  types, enums and descriptions from the spec (* = required)",
        "  j/k, d/u     scroll · g/G top/bottom",
        "",
        "Response",
        "  j/k, d/u     scroll · g/G top/bottom",
        "  e            open in $EDITOR (view only)",
        "",
        "Variables",
        "  {{name}} in paths, params, headers and bodies —",
        "  substituted at send time. Dynamic ones, computed",
        "  per send ({{$name}} to bypass a same-named variable):",
    ]
}

pub open spec fn help_tail() -> Seq<&'static str> {
    seq![
        "",
        "Commands",
        "  :new <name>                      create a collection",
        "  :open <name>                     switch collection",
        "  :label name|summary|path         sidebar label source",
        "  :groups collapsed|expanded       group state on open",
        "  :rename-all summary|operation|path|method-path",
    ]
}

/// Headings are what stands at the margin.
pub open spec fn help_line(text: Seq<char>) -> LineView {
    if text.len() > 0 && text[0] != ' ' {
        styled_line(text, Style::strong())
    } else {
        raw_line(text)
    }
}

pub open spec fn help_lines_of(texts: Seq<&'static str>) -> Seq<LineView> {
    texts.map_values(|t: &'static str| help_line(t@))
}

pub open spec fn variable_line(name: Seq<char>, help: Seq<char>) -> LineView {
    line_of(
        seq![
            span("  "@ + pad_right(name, 15), Style::colored(Color::Magenta)),
            span(help, Style::none()),
        ],
    )
}

pub open spec fn variable_lines() -> Seq<LineView> {
    dynamic_table().map_values(|e: (&'static str, &'static str)| variable_line(e.0@, e.1@))
}

pub open spec fn help_text() -> Seq<LineView> {
    help_lines_of(help_head()) + variable_lines() + help_lines_of(help_tail())
}

fn help_head_texts() -> (r: Vec<&'static str>)
    ensures
        r@ == help_head(),
{
    let r = vec![
        "Global",
        "  1/2/3, Tab   focus sidebar / editor / response",
        "  z            maximize the focused pane (z again to restore)",
        "  ] or L       next tab (Params/Headers/Body/Docs/Variables)",
        "  [ or H       previous editor tab",
        "  /            search / filter requests",
        "  E            servers / base URLs",
        "  A            auth config (bearer / API key / OAuth2)",
        "  :            command line (:w save, :q quit, :q! force, :wq)",
        "  q            quit (warns when unsaved)",
        "",
        "Sidebar",
        "  j/k, g/G     navigate",
        "  Enter/h/l    open request · collapse/expand group",
        "  n/r/d/y      new / rename / delete / duplicate request",
        "  /            filter (Enter keeps it, Esc clears)",
        "  t            cycle labels: name → summary → path",
        "",
        "Editor (tables)",
        "  Enter        send request",
        "  i            edit value of selected row",
        "  a            add row (key then value)",
        "  space        enable/disable row",
        "  d            delete row · m cycle method · r rename",
        "  p            edit URL / path (paste a full URL to set",
        "               the server; ?query fills the Params tab;",
        "               a leading verb sets the method, e.g.",
        "               `post /pets`)",
        "",
        "Body tab",
        "  j/k, d/u     scroll · g/G top/bottom",
        "  i            edit inline (Esc to finish)",
        "  e            edit in $EDITOR",
        "",
        "Docs tab",
        "  types, enums and descriptions from the spec (* = required)",
        "  j/k, d/u     scroll · g/G top/bottom",
        "",
        "Response",
        "  j/k, d/u     scroll · g/G top/bottom",
        "  e            open in $EDITOR (view only)",
        "",
        "Variables",
        "  {{name}} in paths, params, headers and bodies —",
        "  substituted at send time. Dynamic ones, computed",
        "  per send ({{$name}} to bypass a same-named variable):",
    ];
    assert(r@ =~= help_head());
    r
}

fn help_tail_texts() -> (r: Vec<&'static str>)
    ensures
        r@ == help_tail(),
{
    let r = vec![
        "",
        "Commands",
        "  :new <name>                      create a collection",
        "  :open <name>                     switch collection",
        "  :label name|summary|path         sidebar label source",
        "  :groups collapsed|expanded       group state on open",
        "  :rename-all summary|operation|path|method-path",
    ];
    assert(r@ =~= help_tail());
    r
}

fn draw_help_texts(texts: &Vec<&'static str>) -> (r: Vec<Line>)
    ensures
        views(r@) == help_lines_of(texts@),
{
    let ghost goal = help_lines_of(texts@);
    let mut out: Vec<Line> = Vec::new();
    let mut i: usize = 0;
    while i < texts.len()
        invariant
            i <= texts@.len(),
            goal == help_lines_of(texts@),
            views(out@) == goal.take(i as int),
        decreases texts@.len() - i,
    {
        let t: &str = texts[i];
        if t.unicode_len() > 0 && t.get_char(0) != ' ' {
            out.push(Line::styled(t, Style::bold()));
        } else {
            out.push(Line::raw(t));
        }
        i += 1;
        assert(views(out@) =~= goal.take(i as int));
    }
    assert(goal.take(goal.len() as int) =~= goal);
    out
}

fn draw_variables() -> (r: Vec<Line>)
    ensures
        views(r@) == variable_lines(),
{
    let table = dynamic_vars();
    let ghost goal = variable_lines();
    let mut out: Vec<Line> = Vec::new();
    let mut i: usize = 0;
    while i < table.len()
        invariant
            i <= table@.len(),
            table@ == dynamic_table(),
            goal == variable_lines(),
            views(out@) == goal.take(i as int),
        decreases table@.len() - i,
    {
        let (name, help) = table[i];
        let padded = cat("  ", pad_right_to(name, 15).as_str());
        out.push(
            two_spans(Span::styled(padded.as_str(), Style::color(Color::Magenta)), Span::raw(help)),
        );
        i += 1;
        assert(views(out@) =~= goal.take(i as int));
    }
    assert(goal.take(goal.len() as int) =~= goal);
    out
}

pub fn help_lines() -> (r: Vec<Line>)
    ensures
        views(r@) == help_text(),
{
    let mut out = draw_help_texts(&help_head_texts());
    push_all(&mut out, draw_variables());
    push_all(&mut out, draw_help_texts(&help_tail_texts()));
    out
}

/// The list outgrows short terminals, so the popup scrolls.
pub fn settle_help(app: &mut App, lines: usize, height: usize)
    requires
        old(app).wf(),
    ensures
        final(app).wf(),
        final(app)@ == (AppView {
            help_scroll: at_most(old(app)@.help_scroll, rest_of(lines as nat, height as nat)),
            ..old(app)@
        }),
{
    app.help_scroll = limited(app.help_scroll, lines.saturating_sub(height));
}

/// Says that there is more to see as long as there is.
pub fn help_title(app: &App, lines: usize, height: usize) -> (r: &'static str)
    ensures
        r@ == (if app@.help_scroll < rest_of(lines as nat, height as nat) {
            " Help — j/k scroll · Esc to close "@
        } else {
            " Help — Esc to close "@
        }),
{
    if app.help_scroll < lines.saturating_sub(height) {
        " Help — j/k scroll · Esc to close "
    } else {
        " Help — Esc to close "
    }
}

// ----- servers -----

pub open spec fn server_line(url: Seq<char>, active: bool) -> Seq<char> {
    (if active {
        "● "@
    } else {
        "  "@
    }) + url
}

pub open spec fn server_text(a: AppView) -> Seq<Seq<char>> {
    Seq::new(
        a.collection.servers.len(),
        |i: int| server_line(a.collection.servers[i], i == a.collection.active_server),
    )
}

pub fn server_lines(app: &App) -> (r: Vec<String>)
    ensures
        views(r@) == server_text(app@),
{
    let ghost goal = server_text(app@);
    let mut out: Vec<String> = Vec::new();
    let mut i: usize = 0;
    while i < app.collection.servers.len()
        invariant
            i <= app.collection.servers@.len(),
            goal == server_text(app@),
            views(out@) == goal.take(i as int),
        decreases app.collection.servers@.len() - i,
    {
        assert(app@.collection.servers[i as int] == app.collection.servers@[i as int]@);
        let marker: &str = if i == app.collection.active_server {
            "● "
        } else {
            "  "
        };
        out.push(cat(marker, app.collection.servers[i].as_str()));
        i += 1;
        assert(views(out@) =~= goal.take(i as int));
    }
    assert(goal.take(goal.len() as int) =~= goal);
    out
}

// ----- auth -----

/// One option of a toggle, in brackets where it is the active one.
pub open spec fn option_text(name: Seq<char>, active: bool) -> Seq<char> {
    if active {
        "["@ + name + "]"@
    } else {
        name
    }
}

/// A toggle with its options in order, the active one bracketed, e.g.
/// `[bearer]  apikey  oauth2`.
pub open spec fn toggle_text(names: Seq<Seq<char>>, active: int) -> Seq<char> {
    join(options_text(names, active), "  "@)
}

pub open spec fn options_text(names: Seq<Seq<char>>, active: int) -> Seq<Seq<char>> {
    Seq::new(names.len(), |i: int| option_text(names[i], i == active))
}

pub fn toggle_row(names: &Vec<&'static str>, active: usize) -> (r: String)
    ensures
        r@ == toggle_text(names@.map_values(|n: &'static str| n@), active as int),
{
    let ghost all = names@.map_values(|n: &'static str| n@);
    let ghost goal = options_text(all, active as int);
    let mut parts: Vec<String> = Vec::new();
    let mut i: usize = 0;
    while i < names.len()
        invariant
            i <= names@.len(),
            all == names@.map_values(|n: &'static str| n@),
            goal == options_text(all, active as int),
            views(parts@) == goal.take(i as int),
        decreases names@.len() - i,
    {
        if i == active {
            let mut s = "[".to_owned();
            s.append(names[i]);
            s.append("]");
            parts.push(s);
        } else {
            parts.push(names[i].to_owned());
        }
        i += 1;
        assert(views(parts@) =~= goal.take(i as int));
    }
    assert(goal.take(goal.len() as int) =~= goal);
    join_strings(&parts, "  ")
}

pub open spec fn kind_names() -> Seq<Seq<char>> {
    seq![
        AuthKind::Bearer.title_spec(),
        AuthKind::ApiKey.title_spec(),
        AuthKind::Oauth2.title_spec(),
    ]
}

pub open spec fn kind_place(k: AuthKind) -> int {
    match k {
        AuthKind::Bearer => 0,
        AuthKind::ApiKey => 1,
        AuthKind::Oauth2 => 2,
    }
}

pub open spec fn style_names() -> Seq<Seq<char>> {
    seq![style_title(AuthStyle::Basic), style_title(AuthStyle::Post)]
}

pub open spec fn style_place(s: AuthStyle) -> int {
    match s {
        AuthStyle::Basic => 0,
        AuthStyle::Post => 1,
    }
}

/// What a row of the auth popup shows. A secret that is filled in is masked.
pub open spec fn auth_shown(a: AppView, i: int) -> Seq<char> {
    let field = a.auth_row(i);
    let value = a.auth_form.value(field);
    match field {
        AuthField::Kind => toggle_text(kind_names(), kind_place(a.auth_form.kind)),
        AuthField::Style => toggle_text(style_names(), style_place(a.auth_form.auth_style)),
        _ => if field.secret() && value.len() > 0 {
            "••••••••"@
        } else {
            value
        },
    }
}

pub open spec fn auth_line(a: AppView, i: int) -> LineView {
    LineView {
        spans: seq![
            span(
                " "@ + pad_right(label_under(a.auth_form.kind, a.auth_row(i)), 28),
                Style::colored(Color::Gray),
            ),
            span(auth_shown(a, i), Style::none()),
        ],
        style: if i == a.auth_field {
            Style { bg: Some(Color::DarkGray), ..Style::strong() }
        } else {
            Style::none()
        },
    }
}

/// Every scheme has a secret, and secret fields understand `$(…)`.
pub open spec fn auth_hint() -> Seq<LineView> {
    seq![
        raw_line(""@),
        styled_line(
            " secret fields accept $(cmd), e.g. $(op read \"op://vault/item/field\")"@,
            Style::colored(Color::DarkGray),
        ),
    ]
}

pub open spec fn auth_text(a: AppView) -> Seq<LineView> {
    Seq::new(rows_under(a.auth_form.kind).len(), |i: int| auth_line(a, i)) + auth_hint()
}

fn kind_toggle(k: AuthKind) -> (r: String)
    ensures
        r@ == toggle_text(kind_names(), kind_place(k)),
{
    let names: Vec<&'static str> = vec![
        AuthKind::Bearer.title(),
        AuthKind::ApiKey.title(),
        AuthKind::Oauth2.title(),
    ];
    assert(names@.map_values(|n: &'static str| n@) =~= kind_names());
    let at: usize = match k {
        AuthKind::Bearer => 0,
        AuthKind::ApiKey => 1,
        AuthKind::Oauth2 => 2,
    };
    toggle_row(&names, at)
}

fn style_toggle(s: AuthStyle) -> (r: String)
    ensures
        r@ == toggle_text(style_names(), style_place(s)),
{
    let names: Vec<&'static str> = vec![AuthStyle::Basic.title(), AuthStyle::Post.title()];
    assert(names@.map_values(|n: &'static str| n@) =~= style_names());
    let at: usize = match s {
        AuthStyle::Basic => 0,
        AuthStyle::Post => 1,
    };
    toggle_row(&names, at)
}

fn draw_auth_value(app: &App, i: usize) -> (r: String)
    ensures
        r@ == auth_shown(app@, i as int),
{
    let field = app.auth_field_at(i);
    match field {
        AuthField::Kind => kind_toggle(app.auth_form.kind),
        AuthField::Style => style_toggle(app.auth_form.auth_style),
        _ => {
            let value = app.auth_field_value(i);
            if field.is_secret() && !value.as_str().is_empty() {
                "••••••••".to_owned()
            } else {
                value
            }
        },
    }
}

fn draw_auth_line(app: &App, i: usize) -> (r: Line)
    ensures
        r@ == auth_line(app@, i as int),
{
    let label = app.auth_field_label(app.auth_field_at(i));
    let padded = cat(" ", pad_right_to(label, 28).as_str());
    let value = draw_auth_value(app, i);
    let mut spans: Vec<Span> = Vec::new();
    spans.push(Span::styled(padded.as_str(), Style::color(Color::Gray)));
    spans.push(Span::raw(value.as_str()));
    assert(views(spans@) =~= auth_line(app@, i as int).spans);
    let style: Style = if i == app.auth_field {
        Style {
            fg: None,
            bg: Some(Color::DarkGray),
            bold: true,
            italic: false,
            underlined: false,
        }
    } else {
        Style::plain()
    };
    Line { spans, style }
}

pub fn auth_lines(app: &App) -> (r: Vec<Line>)
    ensures
        views(r@) == auth_text(app@),
{
    let n: usize = app.auth_fields().len();
    let ghost rows = Seq::new(n as nat, |i: int| auth_line(app@, i));
    let mut out: Vec<Line> = Vec::new();
    let mut i: usize = 0;
    while i < n
        invariant
            i <= n,
            rows == Seq::new(n as nat, |i: int| auth_line(app@, i)),
            views(out@) == rows.take(i as int),
        decreases n - i,
    {
        out.push(draw_auth_line(app, i));
        i += 1;
        assert(views(out@) =~= rows.take(i as int));
    }
    out.push(Line::raw(""));
    out.push(
        Line::styled(
            " secret fields accept $(cmd), e.g. $(op read \"op://vault/item/field\")",
            Style::color(Color::DarkGray),
        ),
    );
    assert(views(out@) =~= auth_text(app@));
    out
}

// ----- laws -----

/// A secret that is filled in is never on screen.
pub proof fn lemma_secrets_are_masked(a: AppView, i: int)
    requires
        a.auth_row(i).secret(),
    ensures
        a.auth_form.value(a.auth_row(i)).len() > 0 ==> auth_shown(a, i) == "••••••••"@,
{
}

/// Under every scheme there is a secret field, so the hint always applies.
pub proof fn lemma_every_scheme_has_a_secret(kind: AuthKind)
    ensures
        exists|i: int|
            0 <= i < rows_under(kind).len() && (#[trigger] rows_under(kind)[i]).secret(),
{
    match kind {
        AuthKind::Bearer => {
            assert(rows_under(kind)[0].secret());
        },
        AuthKind::ApiKey => {
            assert(rows_under(kind)[1].secret());
        },
        AuthKind::Oauth2 => {
            assert(rows_under(kind)[2].secret());
        },
    }
}

} // verus!
