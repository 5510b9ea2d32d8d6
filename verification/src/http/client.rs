//! What is sent for a [`SavedRequest`], and what is kept of the response.

use vstd::prelude::*;
use vstd::utf8::{encode_utf8, leading_byte_width_1};

use crate::http::vars::{substitute, substituted};
use crate::json::{json_reading, pretty, pretty_text, read_json, reading, Json, Node};
use crate::model::{KeyValueRow, Method, RequestView, RowView, SavedRequest, VarMap};
use crate::text::{
    cat, contains, debug_text, dec, decimal, group_views, has, hex_char, hex_digit, lacks, lower, opt,
    quoted, replace, replace_all, same, to_lower, trim, trim_end_char, trim_start_char, trimmed, views,
    without_leading, without_trailing,
};

verus! {

broadcast use group_views;

// ----- responses -----

#[derive(Debug, PartialEq, Eq)]
pub struct HttpResponse {
    pub status: u16,
    pub reason: String,
    /// How long the exchange took, in milliseconds.
    pub elapsed_ms: u128,
    pub headers: Vec<(String, String)>,
    pub body: String,
    pub size: usize,
}

#[verifier::ext_equal]
pub struct ResponseView {
    pub status: u16,
    pub reason: Seq<char>,
    pub elapsed_ms: u128,
    pub headers: Seq<(Seq<char>, Seq<char>)>,
    pub body: Seq<char>,
    pub size: usize,
}

impl View for HttpResponse {
    type V = ResponseView;

    open spec fn view(&self) -> ResponseView {
        ResponseView {
            status: self.status,
            reason: self.reason@,
            elapsed_ms: self.elapsed_ms,
            headers: views(self.headers@),
            body: self.body@,
            size: self.size,
        }
    }
}

pub fn clone_pairs(v: &Vec<(String, String)>) -> (r: Vec<(String, String)>)
    ensures
        views(r@) == views(v@),
{
    let mut out: Vec<(String, String)> = Vec::new();
    let mut i: usize = 0;
    while i < v.len()
        invariant
            i <= v@.len(),
            views(out@) == views(v@).take(i as int),
        decreases v@.len() - i,
    {
        out.push((v[i].0.clone(), v[i].1.clone()));
        i += 1;
        assert(views(out@) =~= views(v@).take(i as int));
    }
    assert(views(out@) =~= views(v@));
    out
}

impl Clone for HttpResponse {
    fn clone(&self) -> (r: Self)
        ensures
            r@ == self@,
    {
        HttpResponse {
            status: self.status,
            reason: self.reason.clone(),
            elapsed_ms: self.elapsed_ms,
            headers: clone_pairs(&self.headers),
            body: self.body.clone(),
            size: self.size,
        }
    }
}

/// `n / d` rounded to the nearest whole number, halves to the even one.
pub open spec fn half_even(n: nat, d: nat) -> nat
    recommends
        d > 0,
{
    let q = n / d;
    let twice = 2 * (n % d);
    if twice > d || (twice == d && q % 2 == 1) {
        q + 1
    } else {
        q
    }
}

/// The spacing of double-precision numbers around `n`, at least `u`.
pub open spec fn spacing(n: nat, u: nat) -> nat
    decreases n - u,
{
    if n < 0x20_0000_0000_0000 * u || u == 0 {
        u
    } else {
        spacing(n, 2 * u)
    }
}

/// The double-precision number nearest to `n`.
pub open spec fn nearest_double(n: nat) -> nat {
    half_even(n, spacing(n, 1)) * spacing(n, 1)
}

/// `n / unit` with one decimal.
pub open spec fn tenths(n: nat, unit: nat) -> Seq<char> {
    let t = half_even(10 * nearest_double(n), unit);
    decimal(t / 10) + "."@ + decimal(t % 10)
}

/// A size for people: bytes, then kilobytes and megabytes with one decimal.
pub open spec fn size_text(n: nat) -> Seq<char> {
    if n < 1024 {
        decimal(n) + "B"@
    } else if n < 1024 * 1024 {
        tenths(n, 1024) + "kB"@
    } else {
        tenths(n, 1024 * 1024) + "MB"@
    }
}

fn round_half_even(n: u128, d: u128) -> (r: u128)
    requires
        0 < d < 0x1_0000_0000_0000_0000,
        n < 0x1_0000_0000_0000_0000_0000,
    ensures
        r == half_even(n as nat, d as nat),
        r <= n / d + 1,
{
    let q: u128 = n / d;
    let twice: u128 = 2 * (n % d);
    if twice > d || (twice == d && q % 2 == 1) {
        q + 1
    } else {
        q
    }
}

fn as_double(n: u64) -> (r: u128)
    ensures
        r == nearest_double(n as nat),
        r <= n + 4096,
{
    let mut u: u128 = 1;
    while n as u128 >= 0x20_0000_0000_0000 * u
        invariant
            1 <= u <= 4096,
            spacing(n as nat, 1) == spacing(n as nat, u as nat),
        decreases 8192 - u,
    {
        u = 2 * u;
    }
    let q = round_half_even(n as u128, u);
    assert(q * u <= n + u) by (nonlinear_arith)
        requires
            q <= n as u128 / u + 1,
            1 <= u,
    ;
    q * u
}

fn tenths_text(n: u64, unit: u64) -> (r: String)
    requires
        unit > 0,
    ensures
        r@ == tenths(n as nat, unit as nat),
{
    let t = round_half_even(10 * as_double(n), unit as u128);
    let mut out = dec(t / 10);
    out.append(".");
    out.append(dec(t % 10).as_str());
    out
}

pub fn human_size(n: usize) -> (r: String)
    ensures
        r@ == size_text(n as nat),
{
    if n < 1024 {
        cat(dec(n as u128).as_str(), "B")
    } else if n < 1024 * 1024 {
        cat(tenths_text(n as u64, 1024).as_str(), "kB")
    } else {
        cat(tenths_text(n as u64, 1024 * 1024).as_str(), "MB")
    }
}

pub open spec fn status_line_of(r: ResponseView) -> Seq<char> {
    decimal(r.status as nat) + " "@ + r.reason + " · "@ + decimal(r.elapsed_ms as nat) + "ms · "@
        + size_text(r.size as nat)
}

impl HttpResponse {
    pub fn status_line(&self) -> (r: String)
        ensures
            r@ == status_line_of(self@),
    {
        let mut out = dec(self.status as u128);
        out.append(" ");
        out.append(self.reason.as_str());
        out.append(" · ");
        out.append(dec(self.elapsed_ms).as_str());
        out.append("ms · ");
        out.append(human_size(self.size).as_str());
        out
    }
}

/// The value of the first header called `name`.
pub open spec fn header_value(
    headers: Seq<(Seq<char>, Seq<char>)>,
    name: Seq<char>,
) -> Option<Seq<char>>
    decreases headers.len(),
{
    if headers.len() == 0 {
        None
    } else if lower(headers[0].0) == name {
        Some(headers[0].1)
    } else {
        header_value(headers.skip(1), name)
    }
}

/// Whether a response says that its body is JSON.
pub open spec fn says_json(headers: Seq<(Seq<char>, Seq<char>)>) -> bool {
    match header_value(headers, "content-type"@) {
        Some(v) => contains(v, "json"@),
        None => false,
    }
}

/// JSON is shown indented; anything else, and JSON that does not parse, as it
/// came.
pub open spec fn shown_body(
    raw: Seq<char>,
    json: bool,
    parsed: Result<Json, Seq<char>>,
) -> Seq<char> {
    match parsed {
        Ok(v) => if json {
            pretty_text(v)
        } else {
            raw
        },
        Err(_) => raw,
    }
}

fn find_header<'a>(headers: &'a Vec<(String, String)>, name: &str) -> (r: Option<&'a str>)
    ensures
        opt(r) == header_value(views(headers@), name@),
{
    let ghost all = views(headers@);
    let mut i: usize = 0;
    assert(all.skip(0) =~= all);
    while i < headers.len()
        invariant
            i <= headers@.len(),
            all == views(headers@),
            header_value(all, name@) == header_value(all.skip(i as int), name@),
        decreases headers@.len() - i,
    {
        assert(all.skip(i as int)[0] == (headers@[i as int].0@, headers@[i as int].1@));
        if same(to_lower(headers[i].0.as_str()).as_str(), name) {
            return Some(headers[i].1.as_str());
        }
        assert(all.skip(i as int).skip(1) =~= all.skip(i + 1));
        i += 1;
    }
    None
}

pub fn is_json(headers: &Vec<(String, String)>) -> (r: bool)
    ensures
        r == says_json(views(headers@)),
{
    match find_header(headers, "content-type") {
        Some(v) => has(v, "json"),
        None => false,
    }
}

/// What is shown of a body, given what the JSON parser says of it.
pub fn choose_body(raw: String, json: bool, parsed: Result<Node, String>) -> (r: String)
    ensures
        r@ == shown_body(raw@, json, reading(parsed)),
{
    match parsed {
        Ok(v) => if json {
            pretty(&v)
        } else {
            raw
        },
        Err(_) => raw,
    }
}

/// What is kept of a response with status `status`, canonical phrase `reason`
/// and a body of `size` bytes that reads `raw`.
pub fn receive(
    status: u16,
    reason: &str,
    elapsed_ms: u128,
    headers: Vec<(String, String)>,
    raw: String,
    size: usize,
) -> (r: HttpResponse)
    ensures
        r@ == (ResponseView {
            status,
            reason: reason@,
            elapsed_ms,
            headers: views(headers@),
            body: if says_json(views(headers@)) {
                shown_body(raw@, true, json_reading(raw@))
            } else {
                raw@
            },
            size,
        }),
{
    let body: String = if is_json(&headers) {
        let parsed = read_json(raw.as_str());
        choose_body(raw, true, parsed)
    } else {
        raw
    };
    HttpResponse { status, reason: reason.to_owned(), elapsed_ms, headers, body, size }
}

// ----- URLs -----

/// Characters that stand for themselves in a path segment.
pub open spec fn unreserved(b: u8) -> bool {
    ||| 65 <= b <= 90
    ||| 97 <= b <= 122
    ||| 48 <= b <= 57
    ||| b == 45
    ||| b == 46
    ||| b == 95
    ||| b == 126
}

pub open spec fn byte_text(b: u8) -> Seq<char> {
    if unreserved(b) {
        seq![b as char]
    } else {
        seq!['%', hex_char(b as nat / 16, true), hex_char(b as nat % 16, true)]
    }
}

pub open spec fn percent_encoded(b: Seq<u8>) -> Seq<char>
    decreases b.len(),
{
    if b.len() == 0 {
        Seq::empty()
    } else {
        percent_encoded(b.drop_last()) + byte_text(b.last())
    }
}

/// A path parameter value, percent-encoded byte by byte.
pub open spec fn encoded(s: Seq<char>) -> Seq<char> {
    percent_encoded(encode_utf8(s))
}

/// Percent-encode a path parameter value (unreserved characters kept as-is).
pub fn encode_path_segment(s: &str) -> (r: String)
    ensures
        r@ == encoded(s@),
{
    let b = s.as_bytes();
    let mut out = String::new();
    let mut i: usize = 0;
    while i < b.len()
        invariant
            i <= b@.len(),
            out@ == percent_encoded(b@.take(i as int)),
        decreases b@.len() - i,
    {
        let x: u8 = b[i];
        let ghost before = out@;
        assert(b@.take(i + 1).drop_last() =~= b@.take(i as int));
        if (65 <= x && x <= 90) || (97 <= x && x <= 122) || (48 <= x && x <= 57) || x == 45 || x == 46
            || x == 95 || x == 126 {
            out.push(x as char);
            assert(out@ =~= before + byte_text(x));
        } else {
            out.push('%');
            out.push(hex_digit(x / 16, true));
            out.push(hex_digit(x % 16, true));
            assert(out@ =~= before + byte_text(x));
        }
        i += 1;
    }
    assert(b@.take(b@.len() as int) =~= b@);
    out
}

/// The rows that are switched on.
pub open spec fn enabled(rows: Seq<RowView>) -> Seq<RowView>
    decreases rows.len(),
{
    if rows.len() == 0 {
        Seq::empty()
    } else if rows.last().enabled {
        enabled(rows.drop_last()).push(rows.last())
    } else {
        enabled(rows.drop_last())
    }
}

/// The rows that are switched on and named.
pub open spec fn live(rows: Seq<RowView>) -> Seq<RowView>
    decreases rows.len(),
{
    if rows.len() == 0 {
        Seq::empty()
    } else if rows.last().enabled && rows.last().key.len() > 0 {
        live(rows.drop_last()).push(rows.last())
    } else {
        live(rows.drop_last())
    }
}

/// `path` with each `{key}` replaced by its encoded value.
pub open spec fn filled(path: Seq<char>, rows: Seq<RowView>, values: Seq<Seq<char>>) -> Seq<char>
    decreases rows.len(),
{
    if rows.len() == 0 {
        path
    } else {
        replace_all(
            filled(path, rows.drop_last(), values.drop_last()),
            "{"@ + rows.last().key + "}"@,
            encoded(values.last()),
        )
    }
}

/// `base` and `path` with exactly one slash between them.
pub open spec fn joined(base: Seq<char>, path: Seq<char>) -> Seq<char> {
    trim_end_char(base, '/') + "/"@ + trim_start_char(path, '/')
}

/// The URL for a path and path-parameter values whose variables are filled in.
pub open spec fn url_of(
    base: Seq<char>,
    r: RequestView,
    path: Seq<char>,
    values: Seq<Seq<char>>,
) -> Seq<char> {
    joined(base, filled(path, enabled(r.path_params), values))
}

/// Composes a URL from texts whose variables are filled in.
pub fn compose_url(base_url: &str, req: &SavedRequest, path: &str, values: &Vec<String>) -> (r: String)
    requires
        values@.len() == enabled(req@.path_params).len(),
    ensures
        r@ == url_of(base_url@, req@, path@, views(values@)),
{
    let ghost rows = views(req.path_params@);
    let ghost vs = views(values@);
    let mut at = path.to_owned();
    let total: usize = values.len();
    let mut i: usize = 0;
    let mut n: usize = 0;
    assert(vs.take(0) =~= Seq::empty());
    while i < req.path_params.len()
        invariant
            i <= req.path_params@.len(),
            rows == views(req.path_params@),
            vs == views(values@),
            values@.len() == enabled(rows).len(),
            n == enabled(rows.take(i as int)).len(),
            n <= total == values@.len(),
            at@ == filled(path@, enabled(rows.take(i as int)), vs.take(n as int)),
        decreases req.path_params@.len() - i,
    {
        let row = &req.path_params[i];
        assert(rows.take(i + 1).drop_last() =~= rows.take(i as int));
        assert(rows.take(i + 1).last() == row@);
        proof {
            lemma_enabled_len(rows, i + 1);
        }
        if row.enabled {
            let mut pat = "{".to_owned();
            pat.append(row.key.as_str());
            pat.append("}");
            proof {
                reveal_strlit("{");
            }
            let ghost live_rows = enabled(rows.take(i + 1));
            assert(live_rows.drop_last() =~= enabled(rows.take(i as int)));
            assert(vs.take(n + 1).drop_last() =~= vs.take(n as int));
            at = replace(at.as_str(), pat.as_str(), encode_path_segment(values[n].as_str()).as_str());
            n += 1;
        }
        i += 1;
    }
    assert(rows.take(rows.len() as int) =~= rows);
    assert(vs.take(vs.len() as int) =~= vs);
    let mut out = without_trailing(base_url, '/').to_owned();
    out.append("/");
    out.append(without_leading(at.as_str(), '/'));
    out
}

proof fn lemma_enabled_len(rows: Seq<RowView>, n: int)
    requires
        0 <= n <= rows.len(),
    ensures
        enabled(rows.take(n)).len() <= enabled(rows).len(),
    decreases rows.len(),
{
    if n == rows.len() {
        assert(rows.take(n) =~= rows);
    } else {
        assert(rows.drop_last().take(n) =~= rows.take(n));
        lemma_enabled_len(rows.drop_last(), n);
    }
}

// ----- filling in variables -----

/// The texts of a request with their variables filled in.
#[derive(Debug)]
pub struct Texts {
    pub path: String,
    /// Values of the enabled path parameters.
    pub values: Vec<String>,
    /// Names and values of the live query rows.
    pub query: Vec<(String, String)>,
    /// Names and values of the live header rows.
    pub headers: Vec<(String, String)>,
    /// The body, unless it is blank.
    pub body: Option<String>,
}

#[verifier::ext_equal]
pub struct TextsView {
    pub path: Seq<char>,
    pub values: Seq<Seq<char>>,
    pub query: Seq<(Seq<char>, Seq<char>)>,
    pub headers: Seq<(Seq<char>, Seq<char>)>,
    pub body: Option<Seq<char>>,
}

impl View for Texts {
    type V = TextsView;

    open spec fn view(&self) -> TextsView {
        TextsView {
            path: self.path@,
            values: views(self.values@),
            query: views(self.query@),
            headers: views(self.headers@),
            body: opt(self.body),
        }
    }
}

pub open spec fn values_fit(
    rows: Seq<RowView>,
    vars: Map<Seq<char>, Seq<char>>,
    values: Seq<Seq<char>>,
) -> bool {
    &&& values.len() == rows.len()
    &&& forall|i: int|
        0 <= i < rows.len() ==> substituted(rows[i].value, vars, #[trigger] values[i])
}

pub open spec fn pairs_fit(
    rows: Seq<RowView>,
    vars: Map<Seq<char>, Seq<char>>,
    pairs: Seq<(Seq<char>, Seq<char>)>,
) -> bool {
    &&& pairs.len() == rows.len()
    &&& forall|i: int|
        0 <= i < rows.len() ==> substituted(rows[i].key, vars, (#[trigger] pairs[i]).0)
            && substituted(rows[i].value, vars, pairs[i].1)
}

/// The body that is sent at all: one that is not blank.
pub open spec fn sent_body(r: RequestView) -> Option<Seq<char>> {
    match r.body {
        Some(b) => if trim(b).len() > 0 {
            Some(b)
        } else {
            None
        },
        None => None,
    }
}

/// Whether `t` can come out of filling the variables of `r` in.
pub open spec fn texts_fit(r: RequestView, vars: Map<Seq<char>, Seq<char>>, t: TextsView) -> bool {
    &&& substituted(r.path, vars, t.path)
    &&& values_fit(enabled(r.path_params), vars, t.values)
    &&& pairs_fit(live(r.query), vars, t.query)
    &&& pairs_fit(live(r.headers), vars, t.headers)
    &&& match (sent_body(r), t.body) {
        (Some(b), Some(out)) => substituted(b, vars, out),
        (None, None) => true,
        _ => false,
    }
}

fn fill_values(rows: &Vec<KeyValueRow>, vars: &VarMap) -> (r: Vec<String>)
    ensures
        values_fit(enabled(views(rows@)), vars@, views(r@)),
{
    let ghost all = views(rows@);
    let mut out: Vec<String> = Vec::new();
    let mut i: usize = 0;
    while i < rows.len()
        invariant
            i <= rows@.len(),
            all == views(rows@),
            values_fit(enabled(all.take(i as int)), vars@, views(out@)),
        decreases rows@.len() - i,
    {
        assert(all.take(i + 1).drop_last() =~= all.take(i as int));
        assert(all.take(i + 1).last() == rows@[i as int]@);
        if rows[i].enabled {
            let ghost before = views(out@);
            let v = substitute(rows[i].value.as_str(), vars);
            out.push(v);
            assert(views(out@) == before.push(v@));
        }
        i += 1;
    }
    assert(all.take(rows@.len() as int) =~= all);
    out
}

fn fill_pairs(rows: &Vec<KeyValueRow>, vars: &VarMap) -> (r: Vec<(String, String)>)
    ensures
        pairs_fit(live(views(rows@)), vars@, views(r@)),
{
    let ghost all = views(rows@);
    let mut out: Vec<(String, String)> = Vec::new();
    let mut i: usize = 0;
    while i < rows.len()
        invariant
            i <= rows@.len(),
            all == views(rows@),
            pairs_fit(live(all.take(i as int)), vars@, views(out@)),
        decreases rows@.len() - i,
    {
        assert(all.take(i + 1).drop_last() =~= all.take(i as int));
        assert(all.take(i + 1).last() == rows@[i as int]@);
        if rows[i].enabled && !rows[i].key.as_str().is_empty() {
            let ghost before = views(out@);
            let k = substitute(rows[i].key.as_str(), vars);
            let v = substitute(rows[i].value.as_str(), vars);
            out.push((k, v));
            assert(views(out@) == before.push((k@, v@)));
        }
        i += 1;
    }
    assert(all.take(rows@.len() as int) =~= all);
    out
}

/// Fills the variables of a request in.
pub fn fill_texts(req: &SavedRequest, vars: &VarMap) -> (r: Texts)
    ensures
        texts_fit(req@, vars@, r@),
{
    let path = substitute(req.path.as_str(), vars);
    let values = fill_values(&req.path_params, vars);
    let query = fill_pairs(&req.query, vars);
    let headers = fill_pairs(&req.headers, vars);
    let body: Option<String> = match &req.body {
        Some(b) => if trimmed(b.as_str()).is_empty() {
            None
        } else {
            Some(substitute(b.as_str(), vars))
        },
        None => None,
    };
    Texts { path, values, query, headers, body }
}

/// Build the final URL: base and path with `{{vars}}` and `{pathParams}`
/// applied.
pub fn build_url(base_url: &str, req: &SavedRequest, vars: &VarMap) -> (r: String)
    ensures
        exists|path: Seq<char>, values: Seq<Seq<char>>| #[trigger]
            url_of(base_url@, req@, path, values) == r@ && substituted(req@.path, vars@, path)
                && values_fit(enabled(req@.path_params), vars@, values),
{
    let path = substitute(req.path.as_str(), vars);
    let values = fill_values(&req.path_params, vars);
    compose_url(base_url, req, path.as_str(), &values)
}

// ----- headers -----

/// Characters a header name may hold.
pub open spec fn token_char(c: char) -> bool {
    ||| crate::text::is_alnum(c)
    ||| c == '!'
    ||| '#' <= c <= '\''
    ||| c == '*'
    ||| c == '+'
    ||| c == '-'
    ||| c == '.'
    ||| '^' <= c <= '`'
    ||| c == '|'
    ||| c == '~'
}

pub open spec fn valid_name(s: Seq<char>) -> bool {
    0 < s.len() <= 65535 && forall|i: int| 0 <= i < s.len() ==> token_char(#[trigger] s[i])
}

/// Header values hold no control characters but the tab.
pub open spec fn valid_value(s: Seq<char>) -> bool {
    forall|i: int|
        0 <= i < s.len() ==> (#[trigger] s[i] == '\t' || (s[i] >= ' ' && s[i] != '\u{7f}'))
}

/// `HeaderName::from_bytes`: reads a token of 1 to 65535 characters, and holds
/// it in small letters.
#[verifier::external_body]
fn read_header_name(text: &str) -> (r: Option<String>)
    ensures
        match r {
            Some(n) => valid_name(text@) && n@ == lower(text@),
            None => !valid_name(text@),
        },
{
    reqwest::header::HeaderName::from_bytes(text.as_bytes()).ok().map(|n| n.as_str().to_owned())
}

/// `HeaderValue::from_str`: reads a text without control characters other than
/// the tab.
#[verifier::external_body]
fn read_header_value(text: &str) -> (r: bool)
    ensures
        r == valid_value(text@),
{
    reqwest::header::HeaderValue::from_str(text).is_ok()
}

/// Why a request cannot be put together.
#[derive(Debug, PartialEq, Eq)]
pub enum HeaderFault {
    /// The name of the row with this key is not a header name.
    Name(String),
    /// The value of the row with this key is not a header value.
    Value(String),
}

pub enum FaultView {
    Name(Seq<char>),
    Value(Seq<char>),
}

impl View for HeaderFault {
    type V = FaultView;

    open spec fn view(&self) -> FaultView {
        match self {
            HeaderFault::Name(k) => FaultView::Name(k@),
            HeaderFault::Value(k) => FaultView::Value(k@),
        }
    }
}

pub open spec fn fault_message(f: FaultView) -> Seq<char> {
    match f {
        FaultView::Name(k) => "invalid header name "@ + debug_text(k) + ": invalid HTTP header name"@,
        FaultView::Value(k) => "invalid value for header "@ + debug_text(k)
            + ": failed to parse header value"@,
    }
}

impl HeaderFault {
    pub fn message(&self) -> (r: String)
        ensures
            r@ == fault_message(self@),
    {
        match self {
            HeaderFault::Name(k) => {
                let mut s = "invalid header name ".to_owned();
                s.append(quoted(k.as_str()).as_str());
                s.append(": invalid HTTP header name");
                s
            },
            HeaderFault::Value(k) => {
                let mut s = "invalid value for header ".to_owned();
                s.append(quoted(k.as_str()).as_str());
                s.append(": failed to parse header value");
                s
            },
        }
    }
}

pub type Pairs = Seq<(Seq<char>, Seq<char>)>;

/// Sets header `name`: in place where it is there, at the end otherwise.
pub open spec fn set(h: Pairs, name: Seq<char>, value: Seq<char>) -> Pairs
    decreases h.len(),
{
    if h.len() == 0 {
        seq![(name, value)]
    } else if h[0].0 == name {
        h.update(0, (name, value))
    } else {
        seq![h[0]] + set(h.skip(1), name, value)
    }
}

pub open spec fn named(h: Pairs, name: Seq<char>) -> bool {
    exists|i: int| 0 <= i < h.len() && (#[trigger] h[i]).0 == name
}

/// `h` with a header that is checked first; `key` is what a fault is reported
/// under.
pub open spec fn checked_set(
    h: Pairs,
    key: Seq<char>,
    name: Seq<char>,
    value: Seq<char>,
) -> Result<Pairs, FaultView> {
    if !valid_name(name) {
        Err(FaultView::Name(key))
    } else if !valid_value(value) {
        Err(FaultView::Value(key))
    } else {
        Ok(set(h, lower(name), value))
    }
}

/// The headers of the live rows, whose filled-in texts are `pairs`. The first
/// bad row is reported; where a name occurs twice the later value counts.
pub open spec fn row_headers(rows: Seq<RowView>, pairs: Pairs) -> Result<Pairs, FaultView>
    decreases rows.len(),
{
    if rows.len() == 0 {
        Ok(Seq::empty())
    } else {
        match row_headers(rows.drop_last(), pairs.drop_last()) {
            Ok(h) => checked_set(h, rows.last().key, pairs.last().0, pairs.last().1),
            Err(e) => Err(e),
        }
    }
}

/// `h` with those of `extra` that the request does not define itself.
pub open spec fn with_extra(h: Pairs, extra: Pairs) -> Result<Pairs, FaultView>
    decreases extra.len(),
{
    if extra.len() == 0 {
        Ok(h)
    } else {
        match with_extra(h, extra.drop_last()) {
            Ok(before) => {
                let (name, value) = extra.last();
                if named(h, lower(name)) {
                    Ok(before)
                } else {
                    checked_set(before, name, name, value)
                }
            },
            Err(e) => Err(e),
        }
    }
}

fn set_header(h: &mut Vec<(String, String)>, name: &str, value: &str)
    ensures
        views(final(h)@) == set(views(old(h)@), name@, value@),
{
    let ghost all = views(h@);
    let mut i: usize = 0;
    assert(all.skip(0) =~= all);
    assert(all.take(0) + set(all, name@, value@) =~= set(all, name@, value@));
    while i < h.len()
        invariant
            i <= h@.len(),
            *h == *old(h),
            all == views(h@),
            set(all, name@, value@) == all.take(i as int) + set(all.skip(i as int), name@, value@),
        decreases h@.len() - i,
    {
        let ghost tail = all.skip(i as int);
        assert(tail[0] == (h@[i as int].0@, h@[i as int].1@));
        if same(h[i].0.as_str(), name) {
            h.set(i, (name.to_owned(), value.to_owned()));
            assert(views(h@) =~= all.take(i as int) + tail.update(0, (name@, value@)));
            return;
        }
        assert(tail.skip(1) =~= all.skip(i + 1));
        assert(all.take(i as int) + (seq![tail[0]] + set(tail.skip(1), name@, value@)) =~= all.take(
            i + 1,
        ) + set(all.skip(i + 1), name@, value@));
        i += 1;
    }
    h.push((name.to_owned(), value.to_owned()));
    assert(views(h@) =~= all.take(i as int) + seq![(name@, value@)]);
}

fn is_named(h: &Vec<(String, String)>, name: &str) -> (r: bool)
    ensures
        r == named(views(h@), name@),
{
    let ghost all = views(h@);
    let mut i: usize = 0;
    while i < h.len()
        invariant
            i <= h@.len(),
            all == views(h@),
            forall|j: int| 0 <= j < i ==> (#[trigger] all[j]).0 != name@,
        decreases h@.len() - i,
    {
        assert(all[i as int] == (h@[i as int].0@, h@[i as int].1@));
        if same(h[i].0.as_str(), name) {
            return true;
        }
        i += 1;
    }
    false
}

/// A fault, viewed.
pub open spec fn outcome<T: View>(r: Result<T, HeaderFault>) -> Result<T::V, FaultView> {
    match r {
        Ok(x) => Ok(x@),
        Err(e) => Err(e@),
    }
}

/// Headers, viewed.
pub open spec fn headers_view(r: Result<Vec<(String, String)>, HeaderFault>) -> Result<
    Pairs,
    FaultView,
> {
    match r {
        Ok(h) => Ok(views(h@)),
        Err(e) => Err(e@),
    }
}

fn check_header(h: Vec<(String, String)>, key: &str, name: &str, value: &str) -> (r: Result<
    Vec<(String, String)>,
    HeaderFault,
>)
    ensures
        headers_view(r) == checked_set(views(h@), key@, name@, value@),
{
    let mut h = h;
    match read_header_name(name) {
        Some(n) => if read_header_value(value) {
            set_header(&mut h, n.as_str(), value);
            Ok(h)
        } else {
            Err(HeaderFault::Value(key.to_owned()))
        },
        None => Err(HeaderFault::Name(key.to_owned())),
    }
}

fn live_headers(rows: &Vec<KeyValueRow>, pairs: &Vec<(String, String)>) -> (r: Result<
    Vec<(String, String)>,
    HeaderFault,
>)
    requires
        pairs@.len() == live(views(rows@)).len(),
    ensures
        headers_view(r) == row_headers(live(views(rows@)), views(pairs@)),
{
    let ghost all = views(rows@);
    let ghost ps = views(pairs@);
    let mut h: Vec<(String, String)> = Vec::new();
    let total: usize = pairs.len();
    let mut i: usize = 0;
    let mut n: usize = 0;
    assert(ps.take(0) =~= Seq::empty());
    while i < rows.len()
        invariant
            i <= rows@.len(),
            all == views(rows@),
            ps == views(pairs@),
            ps.len() == live(all).len(),
            n == live(all.take(i as int)).len(),
            n <= total == ps.len(),
            row_headers(live(all.take(i as int)), ps.take(n as int)) == Ok::<Pairs, FaultView>(
                views(h@),
            ),
        decreases rows@.len() - i,
    {
        assert(all.take(i + 1).drop_last() =~= all.take(i as int));
        assert(all.take(i + 1).last() == rows@[i as int]@);
        proof {
            lemma_live_prefix(all, ps, i + 1);
        }
        if rows[i].enabled && !rows[i].key.as_str().is_empty() {
            let ghost lr = live(all.take(i + 1));
            assert(lr.drop_last() =~= live(all.take(i as int)));
            assert(ps.take(n + 1).drop_last() =~= ps.take(n as int));
            assert(ps.take(n + 1).last() == (pairs@[n as int].0@, pairs@[n as int].1@));
            match check_header(
                h,
                rows[i].key.as_str(),
                pairs[n].0.as_str(),
                pairs[n].1.as_str(),
            ) {
                Ok(next) => {
                    h = next;
                },
                Err(e) => {
                    assert(row_headers(live(all), ps) == Err::<Pairs, FaultView>(e@));
                    return Err(e);
                },
            }
            n += 1;
        }
        i += 1;
    }
    assert(all.take(all.len() as int) =~= all);
    assert(ps.take(ps.len() as int) =~= ps);
    Ok(h)
}

/// A prefix of the rows has a prefix of the texts, and a fault in it is the
/// fault of the whole.
proof fn lemma_live_prefix(rows: Seq<RowView>, pairs: Pairs, n: int)
    requires
        0 <= n <= rows.len(),
        pairs.len() == live(rows).len(),
    ensures
        live(rows.take(n)).len() <= pairs.len(),
        match row_headers(live(rows.take(n)), pairs.take(live(rows.take(n)).len() as int)) {
            Ok(_) => true,
            Err(e) => row_headers(live(rows), pairs) == Err::<Pairs, FaultView>(e),
        },
    decreases rows.len(),
{
    if n == rows.len() {
        assert(rows.take(n) =~= rows);
        assert(pairs.take(pairs.len() as int) =~= pairs);
    } else {
        assert(rows.drop_last().take(n) =~= rows.take(n));
        let last = rows.last();
        if last.enabled && last.key.len() > 0 {
            lemma_live_prefix(rows.drop_last(), pairs.drop_last(), n);
            let k = live(rows.take(n)).len() as int;
            assert(pairs.drop_last().take(k) =~= pairs.take(k));
            assert(live(rows).drop_last() =~= live(rows.drop_last()));
        } else {
            lemma_live_prefix(rows.drop_last(), pairs, n);
        }
    }
}

fn extra_headers(h: Vec<(String, String)>, extra: &Vec<(String, String)>) -> (r: Result<
    Vec<(String, String)>,
    HeaderFault,
>)
    ensures
        headers_view(r) == with_extra(views(h@), views(extra@)),
{
    let ghost start = views(h@);
    let ghost all = views(extra@);
    let own = clone_pairs(&h);
    let mut out = h;
    let mut i: usize = 0;
    while i < extra.len()
        invariant
            i <= extra@.len(),
            all == views(extra@),
            views(own@) == start,
            start == views(h@),
            with_extra(start, all.take(i as int)) == Ok::<Pairs, FaultView>(views(out@)),
        decreases extra@.len() - i,
    {
        assert(all.take(i + 1).drop_last() =~= all.take(i as int));
        assert(all.take(i + 1).last() == (extra@[i as int].0@, extra@[i as int].1@));
        let name = extra[i].0.as_str();
        if !is_named(&own, to_lower(name).as_str()) {
            match check_header(out, name, name, extra[i].1.as_str()) {
                Ok(next) => {
                    out = next;
                },
                Err(e) => {
                    proof {
                        lemma_extra_fault(start, all, i + 1);
                    }
                    return Err(e);
                },
            }
        }
        i += 1;
    }
    assert(all.take(all.len() as int) =~= all);
    Ok(out)
}

proof fn lemma_extra_fault(h: Pairs, extra: Pairs, n: int)
    requires
        0 <= n <= extra.len(),
        with_extra(h, extra.take(n)) is Err,
    ensures
        with_extra(h, extra) == with_extra(h, extra.take(n)),
    decreases extra.len(),
{
    if n == extra.len() {
        assert(extra.take(n) =~= extra);
    } else {
        assert(extra.drop_last().take(n) =~= extra.take(n));
        lemma_extra_fault(h, extra.drop_last(), n);
    }
}

// ----- requests -----

/// A request that is ready to go out.
#[derive(Debug, PartialEq, Eq)]
pub struct Prepared {
    pub method: Method,
    pub url: String,
    pub query: Vec<(String, String)>,
    /// Header names are in small letters, and none occurs twice.
    pub headers: Vec<(String, String)>,
    /// Token for an `Authorization: Bearer` header.
    pub bearer: Option<String>,
    pub body: Option<String>,
}

#[verifier::ext_equal]
pub struct PreparedView {
    pub method: Method,
    pub url: Seq<char>,
    pub query: Pairs,
    pub headers: Pairs,
    pub bearer: Option<Seq<char>>,
    pub body: Option<Seq<char>>,
}

impl View for Prepared {
    type V = PreparedView;

    open spec fn view(&self) -> PreparedView {
        PreparedView {
            method: self.method,
            url: self.url@,
            query: views(self.query@),
            headers: views(self.headers@),
            bearer: opt(self.bearer),
            body: opt(self.body),
        }
    }
}

/// `h` with the default content type for a body, unless one is set.
pub open spec fn with_content_type(h: Pairs, body: Option<Seq<char>>) -> Pairs {
    if body is Some && !named(h, "content-type"@) {
        h.push(("content-type"@, "application/json"@))
    } else {
        h
    }
}

/// The request that goes out, given the texts that variables resolved to. A
/// bearer token or an extra header gives way to a header of that name that the
/// request defines itself.
pub open spec fn prepared(
    base: Seq<char>,
    r: RequestView,
    bearer: Option<Seq<char>>,
    extra: Pairs,
    t: TextsView,
) -> Result<PreparedView, FaultView> {
    match row_headers(live(r.headers), t.headers) {
        Err(e) => Err(e),
        Ok(own) => match with_extra(own, extra) {
            Err(e) => Err(e),
            Ok(all) => Ok(
                PreparedView {
                    method: r.method,
                    url: url_of(base, r, t.path, t.values),
                    query: t.query,
                    headers: with_content_type(all, t.body),
                    bearer: if named(own, "authorization"@) {
                        None
                    } else {
                        bearer
                    },
                    body: t.body,
                },
            ),
        },
    }
}

/// Puts a request together from texts whose variables are filled in.
pub fn compose_request(
    base_url: &str,
    req: &SavedRequest,
    bearer: Option<&str>,
    extra: &Vec<(String, String)>,
    texts: Texts,
) -> (r: Result<Prepared, HeaderFault>)
    requires
        texts@.values.len() == enabled(req@.path_params).len(),
        texts@.headers.len() == live(req@.headers).len(),
    ensures
        outcome(r) == prepared(base_url@, req@, opt(bearer), views(extra@), texts@),
{
    let own = match live_headers(&req.headers, &texts.headers) {
        Ok(h) => h,
        Err(e) => {
            return Err(e);
        },
    };
    let has_auth = is_named(&own, "authorization");
    let mut all = match extra_headers(own, extra) {
        Ok(h) => h,
        Err(e) => {
            return Err(e);
        },
    };
    if texts.body.is_some() && !is_named(&all, "content-type") {
        all.push(("content-type".to_owned(), "application/json".to_owned()));
    }
    let url = compose_url(base_url, req, texts.path.as_str(), &texts.values);
    let token: Option<String> = if has_auth {
        None
    } else {
        match bearer {
            Some(t) => Some(t.to_owned()),
            None => None,
        }
    };
    Ok(
        Prepared {
            method: req.method,
            url,
            query: texts.query,
            headers: all,
            bearer: token,
            body: texts.body,
        },
    )
}

/// The request that goes out against `base_url`, with `{{variable}}`
/// substitution and `{pathParam}` replacement applied. `bearer`, when present,
/// sets the Authorization header unless the request already defines one. A
/// header of `extra`, such as an API key, likewise gives way to an enabled row of
/// the request with the same name, whatever the case of its letters.
pub fn prepare_request(
    base_url: &str,
    req: &SavedRequest,
    vars: &VarMap,
    bearer: Option<&str>,
    extra: &Vec<(String, String)>,
) -> (r: Result<Prepared, HeaderFault>)
    ensures
        exists|t: TextsView| #[trigger]
            texts_fit(req@, vars@, t) && outcome(r) == prepared(
                base_url@,
                req@,
                opt(bearer),
                views(extra@),
                t,
            ),
        r matches Ok(p) ==> {
            &&& p@.method == req@.method
            &&& match req@.body {
                Some(b) => if trim(b).len() > 0 {
                    p@.body matches Some(out) && substituted(b, vars@, out)
                } else {
                    p@.body is None
                },
                None => p@.body is None,
            }
            &&& p@.query.len() == live(req@.query).len()
            &&& forall|i: int|
                0 <= i < p@.query.len() ==> substituted(
                    live(req@.query)[i].key,
                    vars@,
                    (#[trigger] p@.query[i]).0,
                ) && substituted(live(req@.query)[i].value, vars@, p@.query[i].1)
        },
{
    let texts = fill_texts(req, vars);
    compose_request(base_url, req, bearer, extra, texts)
}

// ----- laws -----

/// The value of a hexadecimal digit.
pub open spec fn hex_value(c: char) -> nat {
    if '0' <= c <= '9' {
        (c as nat - '0' as nat) as nat
    } else if 'A' <= c <= 'F' {
        (c as nat - 'A' as nat + 10) as nat
    } else {
        (c as nat - 'a' as nat + 10) as nat
    }
}

pub open spec fn is_hex_digit(c: char) -> bool {
    '0' <= c <= '9' || 'A' <= c <= 'F' || 'a' <= c <= 'f'
}

/// The bytes that a percent-encoded ASCII text stands for: `%` and two digits
/// are one byte, any other character is its own.
pub open spec fn percent_decoded(s: Seq<char>) -> Seq<u8>
    decreases s.len(),
{
    if s.len() == 0 {
        Seq::empty()
    } else if s[0] == '%' && s.len() >= 3 && is_hex_digit(s[1]) && is_hex_digit(s[2]) {
        seq![(16 * hex_value(s[1]) + hex_value(s[2])) as u8] + percent_decoded(s.skip(3))
    } else {
        seq![s[0] as u8] + percent_decoded(s.skip(1))
    }
}

proof fn lemma_encoded_from_front(b: Seq<u8>)
    requires
        b.len() > 0,
    ensures
        percent_encoded(b) == byte_text(b[0]) + percent_encoded(b.skip(1)),
    decreases b.len(),
{
    if b.len() == 1 {
        assert(b.drop_last() =~= Seq::empty());
        assert(b.skip(1) =~= Seq::empty());
        assert(percent_encoded(b) =~= byte_text(b[0]) + percent_encoded(b.skip(1)));
    } else {
        lemma_encoded_from_front(b.drop_last());
        assert(b.drop_last().skip(1) =~= b.skip(1).drop_last());
        assert(percent_encoded(b) =~= byte_text(b[0]) + percent_encoded(b.skip(1)));
    }
}

proof fn lemma_byte_text_decodes(b: u8, rest: Seq<char>)
    ensures
        percent_decoded(byte_text(b) + rest) == seq![b] + percent_decoded(rest),
{
    let s = byte_text(b) + rest;
    if unreserved(b) {
        assert(s.skip(1) =~= rest);
    } else {
        let hi = b as nat / 16;
        let lo = b as nat % 16;
        assert(s.skip(3) =~= rest);
        assert(hex_value(hex_char(hi, true)) == hi && is_hex_digit(hex_char(hi, true)));
        assert(hex_value(hex_char(lo, true)) == lo && is_hex_digit(hex_char(lo, true)));
        assert((16 * hi + lo) as u8 == b);
    }
}

proof fn lemma_bytes_decode(b: Seq<u8>)
    ensures
        percent_decoded(percent_encoded(b)) == b,
    decreases b.len(),
{
    if b.len() == 0 {
        assert(b =~= Seq::empty());
    } else {
        lemma_encoded_from_front(b);
        lemma_byte_text_decodes(b[0], percent_encoded(b.skip(1)));
        lemma_bytes_decode(b.skip(1));
        assert(seq![b[0]] + b.skip(1) =~= b);
    }
}

/// Percent-decoding what was encoded gives back the bytes of the text.
pub proof fn lemma_decoding_undoes_encoding(s: Seq<char>)
    ensures
        percent_decoded(encoded(s)) == encode_utf8(s),
{
    lemma_bytes_decode(encode_utf8(s));
}

/// A hexadecimal digit in capitals.
pub open spec fn is_capital_hex(c: char) -> bool {
    '0' <= c <= '9' || 'A' <= c <= 'F'
}

/// A letter or digit of ASCII, or one of `-`, `.`, `_` and `~`.
pub open spec fn unreserved_char(c: char) -> bool {
    'A' <= c <= 'Z' || 'a' <= c <= 'z' || '0' <= c <= '9' || c == '-' || c == '.' || c == '_' || c
        == '~'
}

/// Whether a text is made of unreserved characters and `%XX` alone.
pub open spec fn is_path_segment(s: Seq<char>) -> bool {
    forall|i: int|
        0 <= i < s.len() ==> {
            ||| unreserved_char(#[trigger] s[i])
            ||| s[i] == '%' && i + 2 < s.len() && is_capital_hex(s[i + 1]) && is_capital_hex(s[i + 2])
        }
}

proof fn lemma_bytes_stay_in_segment(b: Seq<u8>)
    ensures
        is_path_segment(percent_encoded(b)),
    decreases b.len(),
{
    if b.len() > 0 {
        let head = percent_encoded(b.drop_last());
        let tail = byte_text(b.last());
        let all = percent_encoded(b);
        lemma_bytes_stay_in_segment(b.drop_last());
        assert(all == head + tail);
        assert forall|i: int| 0 <= i < all.len() implies {
            ||| unreserved_char(#[trigger] all[i])
            ||| all[i] == '%' && i + 2 < all.len() && is_capital_hex(all[i + 1]) && is_capital_hex(
                all[i + 2],
            )
        } by {
            if i < head.len() {
                assert(all[i] == head[i]);
                if !unreserved_char(head[i]) {
                    assert(all[i + 1] == head[i + 1] && all[i + 2] == head[i + 2]);
                }
            } else {
                assert(all[i] == tail[i - head.len()]);
                if !unreserved(b.last()) && i == head.len() {
                    assert(all[i + 1] == tail[1] && all[i + 2] == tail[2]);
                }
            }
        }
    }
}

/// An encoded value is one path segment: it holds nothing but unreserved
/// characters and `%XX` in capitals, so no slash, `?`, `#`, brace or blank.
pub proof fn lemma_encoded_is_one_segment(s: Seq<char>)
    ensures
        is_path_segment(encoded(s)),
        lacks(encoded(s), '/'),
        lacks(encoded(s), '?'),
        lacks(encoded(s), '#'),
        lacks(encoded(s), '{'),
        lacks(encoded(s), ' '),
{
    lemma_bytes_stay_in_segment(encode_utf8(s));
}

/// Unreserved characters are never encoded.
pub proof fn lemma_unreserved_text_unchanged(s: Seq<char>)
    requires
        forall|i: int| 0 <= i < s.len() ==> unreserved_char(#[trigger] s[i]),
    ensures
        encoded(s) == s,
    decreases s.len(),
{
    if s.len() == 0 {
        assert(encoded(s) =~= s);
    } else {
        let c = s[0];
        let b = encode_utf8(s);
        assert(unreserved_char(c));
        let v = c as u32;
        assert(leading_byte_width_1(v) == v as u8) by {
            assert(v <= 0x7f);
            assert((v & 0x7F) as u8 == v as u8) by (bit_vector)
                requires
                    v <= 0x7f,
            ;
        }
        let tail = s.drop_first();
        assert forall|i: int| 0 <= i < tail.len() implies unreserved_char(#[trigger] tail[i]) by {
            assert(unreserved_char(s[i + 1]));
        }
        lemma_unreserved_text_unchanged(tail);
        lemma_encoded_from_front(b);
        assert(b.skip(1) =~= encode_utf8(tail));
        assert(b[0] == c as u8);
        assert(byte_text(b[0]) =~= seq![c]);
        assert(encoded(s) =~= s);
    }
}

/// A base without a trailing slash and a path with one leading slash are put
/// back together as they stood.
pub proof fn lemma_compose_undoes_split(base: Seq<char>, path: Seq<char>)
    requires
        base.len() == 0 || base.last() != '/',
        path.len() > 0 && path[0] == '/',
        path.len() == 1 || path[1] != '/',
    ensures
        joined(base, path) == base + path,
{
    reveal_strlit("/");
    let tail = path.skip(1);
    assert(trim_start_char(tail, '/') == tail);
    assert(trim_start_char(path, '/') == tail);
    assert("/"@ =~= seq!['/']);
    assert(base + "/"@ + tail =~= base + path);
}

/// However many slashes base and path bring along, one remains between them.
pub proof fn lemma_one_slash(base: Seq<char>, path: Seq<char>)
    ensures
        joined(base.push('/'), path) == joined(base, path),
        joined(base, seq!['/'] + path) == joined(base, path),
{
    assert(base.push('/').drop_last() =~= base);
    assert((seq!['/'] + path).skip(1) =~= path);
}

/// A bearer token never displaces an Authorization header that the request
/// defines.
pub proof fn lemma_own_authorization_wins(
    base: Seq<char>,
    r: RequestView,
    bearer: Option<Seq<char>>,
    extra: Pairs,
    t: TextsView,
)
    ensures
        match (row_headers(live(r.headers), t.headers), prepared(base, r, bearer, extra, t)) {
            (Ok(own), Ok(p)) => if named(own, "authorization"@) {
                p.bearer is None
            } else {
                p.bearer == bearer
            },
            _ => true,
        },
{
}

} // verus!
