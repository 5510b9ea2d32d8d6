//! `{{variable}}` substitution for paths, params, headers and bodies.
//!
//! Two kinds of variable resolve here:
//!
//! - **Collection variables**, looked up by (trimmed) name in the Variables tab.
//! - **Dynamic variables**, computed at send time: `{{uuid}}`, `{{timestamp}}`,
//!   `{{randomInt(1,100)}}` and so on; see [`dynamic_vars`].
//!
//! A collection variable shadows a dynamic one of the same name, so `uuid` can
//! be pinned to a fixed value for a debugging session. Prefixing with `$`
//! (`{{$uuid}}`) always takes the dynamic one.
//!
//! Unknown variables are left untouched so the user can see what failed to
//! resolve.

use vstd::prelude::*;

use crate::http::calendar::{is_stamp_of, iso_timestamp};
use crate::ids::{hyphenated, is_v4, new_v4, uuid_text};
use crate::model::VarMap;
use crate::text::{
    chars, dec, dec_int, decimal, decimal_int, find, find_char, find_str, finishes, group_views,
    hex_char, hex_digit, int_value, is_alnum, lacks, lemma_found_after, lower_char, nat_value, parse_i64, parse_u64, part, rest,
    same, split, split_str, string_of, to_lower_char, trim, trimmed, views,
};

verus! {

broadcast use group_views;

/// Dynamic variable names and their help text, in the order the help popup
/// lists them.
pub fn dynamic_vars() -> (r: Vec<(&'static str, &'static str)>)
    ensures
        r@ == dynamic_table(),
{
    let r = vec![
        ("uuid", "UUID v4, fresh per occurrence"),
        ("timestamp", "Unix time in seconds"),
        ("timestampMs", "Unix time in milliseconds"),
        ("isoTimestamp", "RFC 3339 UTC, e.g. 2026-08-06T12:34:56Z"),
        ("randomInt", "0–1000, or randomInt(min,max) inclusive"),
        ("randomHex", "16 hex chars, or randomHex(n)"),
        ("randomString", "16 alphanumerics, or randomString(n)"),
        ("randomBool", "true or false"),
    ];
    assert(r@ =~= dynamic_table());
    r
}

pub open spec fn dynamic_table() -> Seq<(&'static str, &'static str)> {
    seq![
        ("uuid", "UUID v4, fresh per occurrence"),
        ("timestamp", "Unix time in seconds"),
        ("timestampMs", "Unix time in milliseconds"),
        ("isoTimestamp", "RFC 3339 UTC, e.g. 2026-08-06T12:34:56Z"),
        ("randomInt", "0–1000, or randomInt(min,max) inclusive"),
        ("randomHex", "16 hex chars, or randomHex(n)"),
        ("randomString", "16 alphanumerics, or randomString(n)"),
        ("randomBool", "true or false"),
    ]
}

// ----- reading a call -----

/// The pieces trimmed, one by one.
pub open spec fn trim_each(parts: Seq<Seq<char>>) -> Seq<Seq<char>> {
    Seq::new(parts.len(), |i: int| trim(parts[i]))
}

/// `name` or `name(a, b)` as a name and its arguments. An empty argument makes
/// the whole call unreadable, so `name()` is not `name`.
pub open spec fn call_of(spec: Seq<char>) -> Option<(Seq<char>, Seq<Seq<char>>)> {
    match find(spec, seq!['(']) {
        None => Some((spec, Seq::empty())),
        Some(open) => if spec.last() != ')' {
            None
        } else {
            let args = trim_each(split(spec.subrange(open + 1, spec.len() - 1), ','));
            if exists|i: int| 0 <= i < args.len() && (#[trigger] args[i]).len() == 0 {
                None
            } else {
                Some((trim(spec.take(open)), args))
            }
        },
    }
}

pub fn split_call(spec: &str) -> (r: Option<(String, Vec<String>)>)
    ensures
        match r {
            Some((name, args)) => call_of(spec@) == Some((name@, views(args@))),
            None => call_of(spec@) is None,
        },
{
    match find_char(spec, '(') {
        None => {
            let args: Vec<String> = Vec::new();
            assert(views(args@) =~= Seq::empty());
            Some((spec.to_owned(), args))
        },
        Some(open) => {
            let n: usize = spec.unicode_len();
            proof {
                crate::text::lemma_find_from(spec@, seq!['('], 0);
                assert(spec@.subrange(open as int, open + 1)[0] == '(');
            }
            let closed = finishes(spec, ")");
            proof {
                reveal_strlit(")");
                assert(")"@ =~= seq![')']);
                let tail = spec@.subrange(n - 1, n as int);
                assert(tail.len() == 1 && tail[0] == spec@.last());
                if spec@.last() == ')' {
                    assert(tail =~= seq![')']);
                }
            }
            if !closed {
                return None;
            }
            let inner = part(spec, open + 1, n - 1);
            let raw = split_str(inner, ',');
            let mut args: Vec<String> = Vec::new();
            let ghost want = trim_each(split(inner@, ','));
            let mut i: usize = 0;
            while i < raw.len()
                invariant
                    i <= raw@.len(),
                    views(raw@) == split(inner@, ','),
                    want == trim_each(split(inner@, ',')),
                    views(args@) == want.take(i as int),
                    forall|j: int| 0 <= j < i ==> (#[trigger] want[j]).len() > 0,
                    call_of(spec@) is Some ==> forall|j: int|
                        0 <= j < want.len() ==> (#[trigger] want[j]).len() > 0,
                decreases raw@.len() - i,
            {
                let a = trimmed(raw[i].as_str());
                assert(views(raw@)[i as int] == raw@[i as int]@);
                assert(a@ == want[i as int]);
                if a.is_empty() {
                    return None;
                }
                args.push(a.to_owned());
                i += 1;
                assert(views(args@) =~= want.take(i as int));
            }
            assert(want.take(raw@.len() as int) =~= want);
            Some((trimmed(part(spec, 0, open)).to_owned(), args))
        },
    }
}

/// `char::to_lowercase`, the Unicode small-letter form of a character. Named
/// for any character and stated for ASCII in [`small`].
pub uninterp spec fn lowercase_of(c: char) -> Seq<char>;

#[verifier::external_body]
fn lowercase(c: char) -> (r: String)
    ensures
        r@ == lowercase_of(c),
{
    c.to_lowercase().collect()
}

/// The small-letter form of one character.
pub open spec fn small(c: char) -> Seq<char> {
    if c <= '\u{7f}' {
        seq![lower_char(c)]
    } else {
        lowercase_of(c)
    }
}

/// Names compare by this form: no underscores, all small letters.
pub open spec fn normal(name: Seq<char>) -> Seq<char>
    decreases name.len(),
{
    if name.len() == 0 {
        Seq::empty()
    } else if name.last() == '_' {
        normal(name.drop_last())
    } else {
        normal(name.drop_last()) + small(name.last())
    }
}

pub fn normalize(name: &str) -> (r: String)
    ensures
        r@ == normal(name@),
{
    let c = chars(name);
    let mut out = String::new();
    let mut i: usize = 0;
    while i < c.len()
        invariant
            i <= c@.len(),
            c@ == name@,
            out@ == normal(name@.take(i as int)),
        decreases c@.len() - i,
    {
        assert(name@.take(i + 1).drop_last() =~= name@.take(i as int));
        let ghost before = out@;
        if c[i] != '_' {
            if c[i] <= '\u{7f}' {
                out.push(to_lower_char(c[i]));
                assert(out@ =~= before + seq![lower_char(c@[i as int])]);
            } else {
                out.append(lowercase(c[i]).as_str());
            }
        }
        i += 1;
    }
    assert(name@.take(name@.len() as int) =~= name@);
    out
}

/// A name without its underscores.
pub open spec fn no_underscores(name: Seq<char>) -> Seq<char> {
    name.filter(|c: char| c != '_')
}

/// Names are matched ignoring case and underscores.
pub proof fn lemma_names_ignore_case_and_underscores(a: Seq<char>, b: Seq<char>)
    requires
        forall|i: int| 0 <= i < a.len() ==> #[trigger] a[i] <= '\u{7f}',
        forall|i: int| 0 <= i < b.len() ==> #[trigger] b[i] <= '\u{7f}',
        crate::text::lower(no_underscores(a)) == crate::text::lower(no_underscores(b)),
    ensures
        normal(a) == normal(b),
{
    lemma_normal_ascii(a);
    lemma_normal_ascii(b);
}

proof fn lemma_normal_ascii(a: Seq<char>)
    requires
        forall|i: int| 0 <= i < a.len() ==> #[trigger] a[i] <= '\u{7f}',
    ensures
        normal(a) == crate::text::lower(no_underscores(a)),
    decreases a.len(),
{
    reveal(Seq::filter);
    if a.len() > 0 {
        let p = a.drop_last();
        assert forall|i: int| 0 <= i < p.len() implies #[trigger] p[i] <= '\u{7f}' by {
            assert(a[i] <= '\u{7f}');
        }
        lemma_normal_ascii(p);
        assert(a.last() <= '\u{7f}') by {
            assert(a[a.len() - 1] <= '\u{7f}');
        }
        assert(normal(a) =~= crate::text::lower(no_underscores(a)));
    } else {
        assert(normal(a) =~= crate::text::lower(no_underscores(a)));
    }
}

// ----- dynamic variables -----

/// What a dynamic variable computes.
#[derive(Debug, Clone, Copy, PartialEq, Eq, Structural)]
pub enum Dynamic {
    Uuid,
    Timestamp,
    TimestampMs,
    IsoTimestamp,
    RandomInt { min: i64, max: i64 },
    RandomHex { len: usize },
    RandomString { len: usize },
    RandomBool,
}

/// Longest text a length argument may ask for.
pub const MAX_RANDOM_LEN: usize = 4096;

/// A length argument: a number from 1 to [`MAX_RANDOM_LEN`].
pub open spec fn len_arg(s: Seq<char>) -> Option<nat> {
    match nat_value(s) {
        Some(n) => if 1 <= n <= MAX_RANDOM_LEN {
            Some(n)
        } else {
            None
        },
        None => None,
    }
}

/// An integer argument that fits 64 bits.
pub open spec fn int_arg(s: Seq<char>) -> Option<int> {
    match int_value(s) {
        Some(n) => if i64::MIN <= n <= i64::MAX {
            Some(n)
        } else {
            None
        },
        None => None,
    }
}

/// Length arguments are capped: a stray `randomString(999999999)` shouldn't
/// build a gigabyte of request body.
pub fn parse_len(s: &str) -> (r: Option<usize>)
    ensures
        match r {
            Some(n) => len_arg(s@) == Some(n as nat),
            None => len_arg(s@) is None,
        },
{
    match parse_u64(s) {
        Some(n) => if 1 <= n && n <= 4096 {
            Some(n as usize)
        } else {
            None
        },
        None => None,
    }
}

/// The dynamic variable that a call names; `None` for an unknown name or
/// unusable arguments.
pub open spec fn dynamic_of(spec: Seq<char>) -> Option<Dynamic> {
    match call_of(spec) {
        None => None,
        Some((name, args)) => named_dynamic(normal(name), args),
    }
}

pub open spec fn named_dynamic(name: Seq<char>, args: Seq<Seq<char>>) -> Option<Dynamic> {
    if name == "uuid"@ && args.len() == 0 {
        Some(Dynamic::Uuid)
    } else if name == "timestamp"@ && args.len() == 0 {
        Some(Dynamic::Timestamp)
    } else if name == "timestampms"@ && args.len() == 0 {
        Some(Dynamic::TimestampMs)
    } else if name == "isotimestamp"@ && args.len() == 0 {
        Some(Dynamic::IsoTimestamp)
    } else if name == "randomint"@ && args.len() == 0 {
        Some(Dynamic::RandomInt { min: 0, max: 1000 })
    } else if name == "randomint"@ && args.len() == 2 {
        match (int_arg(args[0]), int_arg(args[1])) {
            (Some(min), Some(max)) => if min <= max {
                Some(Dynamic::RandomInt { min: min as i64, max: max as i64 })
            } else {
                None
            },
            _ => None,
        }
    } else if name == "randomhex"@ && args.len() == 0 {
        Some(Dynamic::RandomHex { len: 16 })
    } else if name == "randomhex"@ && args.len() == 1 {
        match len_arg(args[0]) {
            Some(n) => Some(Dynamic::RandomHex { len: n as usize }),
            None => None,
        }
    } else if name == "randomstring"@ && args.len() == 0 {
        Some(Dynamic::RandomString { len: 16 })
    } else if name == "randomstring"@ && args.len() == 1 {
        match len_arg(args[0]) {
            Some(n) => Some(Dynamic::RandomString { len: n as usize }),
            None => None,
        }
    } else if name == "randombool"@ && args.len() == 0 {
        Some(Dynamic::RandomBool)
    } else {
        None
    }
}

/// Reads a dynamic variable, with optional `name(arg,arg)` arguments.
pub fn parse_dynamic(spec: &str) -> (r: Option<Dynamic>)
    ensures
        r == dynamic_of(spec@),
        r matches Some(d) ==> d.wf(),
{
    match split_call(spec) {
        None => None,
        Some((raw, args)) => {
            let name = normalize(raw.as_str());
            let n = name.as_str();
            let ghost av = views(args@);
            if same(n, "uuid") && args.len() == 0 {
                Some(Dynamic::Uuid)
            } else if same(n, "timestamp") && args.len() == 0 {
                Some(Dynamic::Timestamp)
            } else if same(n, "timestampms") && args.len() == 0 {
                Some(Dynamic::TimestampMs)
            } else if same(n, "isotimestamp") && args.len() == 0 {
                Some(Dynamic::IsoTimestamp)
            } else if same(n, "randomint") && args.len() == 0 {
                Some(Dynamic::RandomInt { min: 0, max: 1000 })
            } else if same(n, "randomint") && args.len() == 2 {
                assert(av[0] == args@[0]@ && av[1] == args@[1]@);
                match (parse_i64(args[0].as_str()), parse_i64(args[1].as_str())) {
                    (Some(min), Some(max)) => if min <= max {
                        Some(Dynamic::RandomInt { min, max })
                    } else {
                        None
                    },
                    _ => None,
                }
            } else if same(n, "randomhex") && args.len() == 0 {
                Some(Dynamic::RandomHex { len: 16 })
            } else if same(n, "randomhex") && args.len() == 1 {
                assert(av[0] == args@[0]@);
                match parse_len(args[0].as_str()) {
                    Some(len) => Some(Dynamic::RandomHex { len }),
                    None => None,
                }
            } else if same(n, "randomstring") && args.len() == 0 {
                Some(Dynamic::RandomString { len: 16 })
            } else if same(n, "randomstring") && args.len() == 1 {
                assert(av[0] == args@[0]@);
                match parse_len(args[0].as_str()) {
                    Some(len) => Some(Dynamic::RandomString { len }),
                    None => None,
                }
            } else if same(n, "randombool") && args.len() == 0 {
                Some(Dynamic::RandomBool)
            } else {
                None
            }
        },
    }
}

impl Dynamic {
    pub open spec fn wf(self) -> bool {
        match self {
            Dynamic::RandomInt { min, max } => min <= max,
            Dynamic::RandomHex { len } => len <= MAX_RANDOM_LEN,
            Dynamic::RandomString { len } => len <= MAX_RANDOM_LEN,
            _ => true,
        }
    }

    pub open spec fn reads_clock(self) -> bool {
        self is Timestamp || self is TimestampMs || self is IsoTimestamp
    }

    /// Whether a clock variable comes out as `v` when the clock reads `ms`
    /// milliseconds after 1970.
    pub open spec fn gives_at(self, ms: u128, v: Seq<char>) -> bool {
        match self {
            Dynamic::Timestamp => v == decimal_int(whole_secs(ms)),
            Dynamic::TimestampMs => v == decimal(ms as nat),
            Dynamic::IsoTimestamp => is_stamp_of(whole_secs(ms), v),
            _ => false,
        }
    }

    /// Whether the variable can come out as `v`.
    pub open spec fn gives(self, v: Seq<char>) -> bool {
        match self {
            Dynamic::Uuid => exists|id: u128| #[trigger] is_v4(id) && v == hyphenated(id),
            Dynamic::Timestamp | Dynamic::TimestampMs | Dynamic::IsoTimestamp => exists|ms: u128|
                #[trigger] self.gives_at(ms, v),
            Dynamic::RandomInt { min, max } => exists|n: int|
                min <= n <= max && v == #[trigger] decimal_int(n),
            Dynamic::RandomHex { len } => v.len() == len && forall|i: int|
                0 <= i < v.len() ==> is_hex(#[trigger] v[i]),
            Dynamic::RandomString { len } => v.len() == len && forall|i: int|
                0 <= i < v.len() ==> is_alnum(#[trigger] v[i]),
            Dynamic::RandomBool => v == "true"@ || v == "false"@,
        }
    }

    /// Computes the variable now.
    pub fn value(self) -> (r: String)
        requires
            self.wf(),
        ensures
            self.gives(r@),
    {
        match self {
            Dynamic::Uuid => {
                let id = new_v4();
                assert(is_v4(id));
                uuid_text(id)
            },
            Dynamic::Timestamp | Dynamic::TimestampMs | Dynamic::IsoTimestamp => {
                let ms = unix_millis(read_clock());
                let r = clock_text(self, ms);
                assert(self.gives_at(ms, r@));
                r
            },
            Dynamic::RandomInt { min, max } => {
                let n = random_int(min, max);
                dec_int(n as i128)
            },
            Dynamic::RandomHex { len } => random_hex(len),
            Dynamic::RandomString { len } => random_string(len),
            Dynamic::RandomBool => {
                if random_int(0, 1) == 1 {
                    "true".to_owned()
                } else {
                    "false".to_owned()
                }
            },
        }
    }
}

/// A hexadecimal digit in small letters.
pub open spec fn is_hex(c: char) -> bool {
    '0' <= c <= '9' || 'a' <= c <= 'f'
}

// ----- clock -----

/// `SystemTime::elapsed` of `UNIX_EPOCH`: how long 1970 is ago, as whole seconds
/// and the milliseconds left over, which are less than a second. `None` for a
/// clock set before 1970. Nothing more is said of the result, which is the time.
#[verifier::external_body]
fn read_clock() -> (r: Option<(u64, u32)>)
    ensures
        r matches Some((_, millis)) ==> millis < 1000,
{
    std::time::UNIX_EPOCH.elapsed().ok().map(|d| (d.as_secs(), d.subsec_millis()))
}

/// A clock reading in milliseconds since 1970, zero for a clock set before that.
pub fn unix_millis(reading: Option<(u64, u32)>) -> (ms: u128)
    ensures
        ms == match reading {
            Some((secs, millis)) => secs * 1000 + millis,
            None => 0,
        },
{
    match reading {
        Some((secs, millis)) => secs as u128 * 1000 + millis as u128,
        None => 0,
    }
}

/// The whole seconds in `ms` milliseconds. What does not fit 64 bits wraps, some
/// 292 billion years from now.
pub open spec fn whole_secs(ms: u128) -> int {
    if ms / 1000 <= i64::MAX {
        ms as int / 1000
    } else {
        ((ms / 1000) as i64) as int
    }
}

fn unix_secs(ms: u128) -> (r: i64)
    ensures
        r == whole_secs(ms),
{
    (ms / 1000) as i64
}

/// A clock variable when the clock reads `ms` milliseconds after 1970: the whole
/// seconds, the milliseconds, or that second as an RFC 3339 text.
pub fn clock_text(d: Dynamic, ms: u128) -> (r: String)
    requires
        d.reads_clock(),
    ensures
        d.gives_at(ms, r@),
        ms <= u64::MAX ==> match d {
            Dynamic::Timestamp => r@ == decimal((ms / 1000) as nat),
            Dynamic::TimestampMs => r@ == decimal(ms as nat),
            _ => is_stamp_of((ms / 1000) as int, r@),
        },
{
    match d {
        Dynamic::Timestamp => dec_int(unix_secs(ms) as i128),
        Dynamic::TimestampMs => dec(ms),
        _ => iso_timestamp(unix_secs(ms)),
    }
}

// ----- randomness -----

/// Byte `i` of an identifier, most significant first.
pub open spec fn id_byte(id: u128, i: int) -> u8 {
    ((id as int / pow256(15 - i)) % 256) as u8
}

pub open spec fn pow256(n: int) -> int
    decreases n,
{
    if n <= 0 {
        1
    } else {
        256 * pow256(n - 1)
    }
}

/// The bytes of an identifier that are random: all but 6 and 8, which carry
/// the version and variant bits.
pub open spec fn random_part(id: u128) -> Seq<u8> {
    Seq::new(
        14,
        |k: int|
            id_byte(
                id,
                if k < 6 {
                    k
                } else if k == 6 {
                    7
                } else {
                    k + 2
                },
            ),
    )
}

pub fn usable_bytes(id: u128) -> (r: Vec<u8>)
    ensures
        r@ == random_part(id),
{
    let mut all: Vec<u8> = Vec::new();
    let mut left: u128 = id;
    let mut k: usize = 0;
    // Least significant byte first.
    assert(pow256(0) == 1);
    while k < 16
        invariant
            k <= 16,
            all@.len() == k,
            left == id as int / pow256(k as int),
            pow256(k as int) > 0,
            forall|j: int| 0 <= j < k ==> all@[j] == id_byte(id, 15 - j),
        decreases 16 - k,
    {
        all.push((left % 256) as u8);
        proof {
            assert(15 - (15 - k) == k);
            assert(all@[k as int] == id_byte(id, 15 - k));
            vstd::arithmetic::div_mod::lemma_div_denominator(id as int, pow256(k as int), 256);
            assert(pow256(k as int) * 256 == pow256(k + 1)) by (nonlinear_arith)
                requires
                    pow256(k + 1) == 256 * pow256(k as int),
            ;
        }
        left = left / 256;
        k += 1;
    }
    let mut out: Vec<u8> = Vec::new();
    let mut i: usize = 0;
    while i < 16
        invariant
            i <= 16,
            all@.len() == 16,
            forall|j: int| 0 <= j < 16 ==> all@[j] == id_byte(id, 15 - j),
            out@ =~= random_part(id).take(
                if i <= 6 {
                    i as int
                } else if i <= 8 {
                    i - 1
                } else {
                    i - 2
                },
            ),
        decreases 16 - i,
    {
        if i != 6 && i != 8 {
            assert(all@[15 - i] == id_byte(id, 15 - (15 - i)));
            out.push(all[15 - i]);
        }
        i += 1;
    }
    assert(out@ =~= random_part(id));
    out
}

/// Random bytes borrowed from UUID v4 generation.
pub fn random_bytes(n: usize) -> (r: Vec<u8>)
    requires
        n <= usize::MAX - 14,
    ensures
        r@.len() == n,
{
    let mut out: Vec<u8> = Vec::new();
    while out.len() < n
        invariant
            n <= usize::MAX - 14,
            out@.len() <= n + 14,
        decreases n + 14 - out@.len(),
    {
        let mut more = usable_bytes(new_v4());
        out.append(&mut more);
    }
    out.truncate(n);
    out
}

/// The number that bytes spell, least significant first.
pub open spec fn le_value(b: Seq<u8>) -> int
    decreases b.len(),
{
    if b.len() == 0 {
        0
    } else {
        b[0] + 256 * le_value(b.skip(1))
    }
}

pub fn le_number(b: &Vec<u8>) -> (r: u64)
    requires
        b@.len() == 8,
    ensures
        r == le_value(b@),
{
    let mut v: u128 = 0;
    let mut i: usize = 8;
    assert(pow256(0) == 1);
    assert(b@.skip(8) =~= Seq::empty());
    while i > 0
        invariant
            i <= 8,
            b@.len() == 8,
            v == le_value(b@.skip(i as int)),
            v < pow256(8 - i),
            pow256(8 - i) <= 0x1_0000_0000_0000_0000,
            i == 8 ==> pow256(8 - i) <= 1,
            i == 7 ==> pow256(8 - i) <= 0x100,
            i == 6 ==> pow256(8 - i) <= 0x1_0000,
            i == 5 ==> pow256(8 - i) <= 0x100_0000,
            i == 4 ==> pow256(8 - i) <= 0x1_0000_0000,
            i == 3 ==> pow256(8 - i) <= 0x100_0000_0000,
            i == 2 ==> pow256(8 - i) <= 0x1_0000_0000_0000,
            i == 1 ==> pow256(8 - i) <= 0x100_0000_0000_0000,
        decreases i,
    {
        assert(b@.skip(i - 1).skip(1) =~= b@.skip(i as int));
        assert(pow256(8 - (i - 1)) == 256 * pow256(8 - i));
        v = b[i - 1] as u128 + 256 * v;
        i -= 1;
    }
    assert(b@.skip(0) =~= b@);
    v as u64
}

/// The outcome of `randomInt(min,max)` for a random word.
pub fn int_in_range(min: i64, max: i64, word: u64) -> (r: i64)
    requires
        min <= max,
    ensures
        r == min + word as int % (max - min + 1),
        min <= r <= max,
{
    let span: i128 = max as i128 - min as i128 + 1;
    let step: i128 = (word as i128) % span;
    (min as i128 + step) as i64
}

/// Uniform-ish over `[min, max]`; the modulo bias is irrelevant for test data.
pub fn random_int(min: i64, max: i64) -> (r: i64)
    requires
        min <= max,
    ensures
        min <= r <= max,
{
    let b = random_bytes(8);
    int_in_range(min, max, le_number(&b))
}

/// The two hexadecimal digits of each byte, cut to `n` characters.
pub open spec fn hex_pairs(b: Seq<u8>) -> Seq<char>
    decreases b.len(),
{
    if b.len() == 0 {
        Seq::empty()
    } else {
        hex_pairs(b.drop_last()) + seq![
            hex_char(b.last() as nat / 16, false),
            hex_char(b.last() as nat % 16, false),
        ]
    }
}

pub fn hex_text(b: &Vec<u8>, n: usize) -> (r: String)
    requires
        n <= 2 * b@.len(),
    ensures
        r@ == hex_pairs(b@).take(n as int),
        r@.len() == n,
        forall|i: int| 0 <= i < r@.len() ==> is_hex(#[trigger] r@[i]),
{
    let mut v: Vec<char> = Vec::new();
    let mut i: usize = 0;
    while i < b.len()
        invariant
            i <= b@.len(),
            v@ == hex_pairs(b@.take(i as int)),
            v@.len() == 2 * i,
            forall|k: int| 0 <= k < v@.len() ==> is_hex(#[trigger] v@[k]),
        decreases b@.len() - i,
    {
        assert(b@.take(i + 1).drop_last() =~= b@.take(i as int));
        let x: u8 = b[i];
        let ghost before = v@;
        v.push(hex_digit(x / 16, false));
        v.push(hex_digit(x % 16, false));
        i += 1;
        assert(v@ =~= before + seq![hex_char(x as nat / 16, false), hex_char(x as nat % 16, false)]);
    }
    assert(b@.take(b@.len() as int) =~= b@);
    let out = string_of(vstd::slice::slice_subrange(v.as_slice(), 0, n));
    assert(out@ =~= hex_pairs(b@).take(n as int));
    out
}

pub fn random_hex(n: usize) -> (r: String)
    requires
        n <= MAX_RANDOM_LEN,
    ensures
        r@.len() == n,
        forall|i: int| 0 <= i < r@.len() ==> is_hex(#[trigger] r@[i]),
{
    let b = random_bytes((n + 1) / 2);
    hex_text(&b, n)
}

/// Letter or digit number `n` of the alphabet `a–z`, `A–Z`, `0–9`.
pub open spec fn alphabet(n: int) -> char {
    if n < 26 {
        (97 + n) as char
    } else if n < 52 {
        (65 + n - 26) as char
    } else {
        (48 + n - 52) as char
    }
}

pub open spec fn alphabet_text(b: Seq<u8>) -> Seq<char> {
    Seq::new(b.len(), |i: int| alphabet(b[i] as int % 62))
}

pub fn alphanumeric(b: &Vec<u8>) -> (r: String)
    ensures
        r@ == alphabet_text(b@),
        forall|i: int| 0 <= i < r@.len() ==> is_alnum(#[trigger] r@[i]),
{
    let mut out = String::new();
    let mut i: usize = 0;
    while i < b.len()
        invariant
            i <= b@.len(),
            out@ == alphabet_text(b@).take(i as int),
            forall|k: int| 0 <= k < out@.len() ==> is_alnum(#[trigger] out@[k]),
        decreases b@.len() - i,
    {
        let d: u8 = b[i] % 62;
        let c: char = if d < 26 {
            (97u8 + d) as char
        } else if d < 52 {
            (65u8 + (d - 26)) as char
        } else {
            (48u8 + (d - 52)) as char
        };
        out.push(c);
        i += 1;
        assert(out@ =~= alphabet_text(b@).take(i as int));
    }
    assert(alphabet_text(b@).take(b@.len() as int) =~= alphabet_text(b@));
    out
}

pub fn random_string(n: usize) -> (r: String)
    requires
        n <= MAX_RANDOM_LEN,
    ensures
        r@.len() == n,
        forall|i: int| 0 <= i < r@.len() ==> is_alnum(#[trigger] r@[i]),
{
    let b = random_bytes(n);
    alphanumeric(&b)
}

// ----- resolving -----

/// Whether the variable `key` can resolve to `r` (`None`: it cannot be
/// resolved). A `$` prefix forces the dynamic variable; otherwise the
/// collection wins.
pub open spec fn resolves(
    key: Seq<char>,
    vars: Map<Seq<char>, Seq<char>>,
    r: Option<Seq<char>>,
) -> bool {
    if key.len() > 0 && key[0] == '$' {
        dynamic_resolves(trim(key.skip(1)), r)
    } else if vars.contains_key(key) {
        r == Some(vars[key])
    } else {
        dynamic_resolves(key, r)
    }
}

pub open spec fn dynamic_resolves(spec: Seq<char>, r: Option<Seq<char>>) -> bool {
    match dynamic_of(spec) {
        Some(d) => match r {
            Some(v) => d.gives(v),
            None => false,
        },
        None => r is None,
    }
}

/// Evaluate a dynamic variable. `None` for an unknown name or unusable
/// arguments; the caller then leaves the placeholder visible.
pub fn dynamic(spec: &str) -> (r: Option<String>)
    ensures
        dynamic_resolves(spec@, crate::text::opt(r)),
{
    match parse_dynamic(spec) {
        Some(d) => Some(d.value()),
        None => None,
    }
}

/// A `$` prefix forces the dynamic variable; otherwise the collection wins.
pub fn resolve(key: &str, vars: &VarMap) -> (r: Option<String>)
    ensures
        resolves(key@, vars@, crate::text::opt(r)),
{
    let c = chars(key);
    if c.len() > 0 && c[0] == '$' {
        dynamic(trimmed(rest(key, 1)))
    } else {
        match vars.get(key) {
            Some(v) => Some(v.clone()),
            None => dynamic(key),
        }
    }
}

/// Whether `out` is `input` with its placeholders substituted, left to right.
/// What cannot be resolved stays as it stands, and so does everything from an
/// unclosed `{{` on.
pub open spec fn substituted(
    input: Seq<char>,
    vars: Map<Seq<char>, Seq<char>>,
    out: Seq<char>,
) -> bool {
    exists|vs: Seq<Option<Seq<char>>>| #[trigger]
        all_resolve(input, vars, vs) && out == render(input, vs)
}

/// Whether the placeholders of `input` can resolve to `vs`, one after another.
pub open spec fn all_resolve(
    input: Seq<char>,
    vars: Map<Seq<char>, Seq<char>>,
    vs: Seq<Option<Seq<char>>>,
) -> bool
    decreases input.len(),
{
    match next_placeholder(input) {
        None => vs.len() == 0,
        Some((start, end)) => {
            &&& 0 <= start && start + 4 <= end <= input.len()
            &&& vs.len() > 0
            &&& resolves(placeholder_key(input, start, end), vars, vs[0])
            &&& all_resolve(input.skip(end), vars, vs.skip(1))
        },
    }
}

/// `input` with its placeholders shown as `vs`, one after another.
pub open spec fn render(input: Seq<char>, vs: Seq<Option<Seq<char>>>) -> Seq<char>
    decreases input.len(),
{
    match next_placeholder(input) {
        None => input,
        Some((start, end)) => if 0 <= start && start + 4 <= end <= input.len() {
            input.take(start) + shown(input, start, end, vs[0]) + render(input.skip(end), vs.skip(1))
        } else {
            input
        },
    }
}

/// What stands in place of the placeholder at `start..end`.
pub open spec fn shown(input: Seq<char>, start: int, end: int, v: Option<Seq<char>>) -> Seq<char> {
    match v {
        Some(x) => x,
        None => input.subrange(start, end),
    }
}

/// Where the first `{{…}}` of `input` starts, and where it ends.
pub open spec fn next_placeholder(input: Seq<char>) -> Option<(int, int)> {
    match find(input, seq!['{', '{']) {
        None => None,
        Some(start) => match find(input.skip(start + 2), seq!['}', '}']) {
            None => None,
            Some(len) => Some((start, start + len + 4)),
        },
    }
}

/// The name between the braces of the placeholder at `start..end`.
pub open spec fn placeholder_key(input: Seq<char>, start: int, end: int) -> Seq<char> {
    trim(input.subrange(start + 2, end - 2))
}

/// The first `{{…}}` of a text, as character positions.
pub fn find_placeholder(input: &str) -> (r: Option<(usize, usize)>)
    ensures
        match r {
            Some((a, b)) => next_placeholder(input@) == Some((a as int, b as int)) && a + 4 <= b && b
                <= input@.len(),
            None => next_placeholder(input@) is None,
        },
{
    proof {
        reveal_strlit("{{");
        reveal_strlit("}}");
        assert("{{"@ =~= seq!['{', '{']);
        assert("}}"@ =~= seq!['}', '}']);
    }
    let n: usize = input.unicode_len();
    match find_str(input, "{{") {
        None => None,
        Some(start) => {
            let after = rest(input, start + 2);
            match find_str(after, "}}") {
                None => None,
                Some(len) => Some((start, start + 2 + len + 2)),
            }
        },
    }
}

pub fn substitute(input: &str, vars: &VarMap) -> (r: String)
    ensures
        substituted(input@, vars@, r@),
{
    let mut out = String::new();
    let mut tail: &str = input;
    let ghost mut done = Seq::<Option<Seq<char>>>::empty();
    assert forall|t: Seq<Option<Seq<char>>>| #[trigger] all_resolve(tail@, vars@, t) implies all_resolve(
        input@,
        vars@,
        done + t,
    ) && render(input@, done + t) == out@ + render(tail@, t) by {
        assert(done + t =~= t);
        assert(out@ + render(tail@, t) =~= render(tail@, t));
    }
    loop
        invariant
            forall|t: Seq<Option<Seq<char>>>| #[trigger]
                all_resolve(tail@, vars@, t) ==> all_resolve(input@, vars@, done + t) && render(
                    input@,
                    done + t,
                ) == out@ + render(tail@, t),
        decreases tail@.len(),
    {
        match find_placeholder(tail) {
            None => {
                assert(all_resolve(tail@, vars@, Seq::empty()));
                out.append(tail);
                return out;
            },
            Some((start, end)) => {
                let ghost before = out@;
                let ghost cur = tail@;
                let ghost had = done;
                out.append(part(tail, 0, start));
                let key = trimmed(part(tail, start + 2, end - 2));
                let found = resolve(key, vars);
                let ghost v = crate::text::opt(found);
                match found {
                    Some(x) => out.append(x.as_str()),
                    None => out.append(part(tail, start, end)),
                }
                tail = rest(tail, end);
                proof {
                    done = had.push(v);
                }
                assert forall|t: Seq<Option<Seq<char>>>| #[trigger] all_resolve(
                    tail@,
                    vars@,
                    t,
                ) implies all_resolve(input@, vars@, done + t) && render(input@, done + t) == out@
                    + render(tail@, t) by {
                    let u = seq![v] + t;
                    assert(u.skip(1) =~= t);
                    assert(all_resolve(cur, vars@, u));
                    assert(done + t =~= had + u);
                    assert(out@ + render(tail@, t) =~= before + render(cur, u));
                }
            },
        }
    }
}

// ----- laws -----

/// Text without a placeholder comes out unchanged.
pub proof fn lemma_plain_text_unchanged(
    input: Seq<char>,
    vars: Map<Seq<char>, Seq<char>>,
    out: Seq<char>,
)
    requires
        find(input, seq!['{', '{']) is None,
        substituted(input, vars, out),
    ensures
        out == input,
{
}

/// The three clock variables agree: read off the same clock they give its
/// milliseconds, the whole seconds in those, and that second as text.
pub proof fn lemma_one_clock(ms: u128, secs: Seq<char>, millis: Seq<char>, stamp: Seq<char>)
    requires
        ms <= u64::MAX,
        Dynamic::Timestamp.gives_at(ms, secs),
        Dynamic::TimestampMs.gives_at(ms, millis),
        Dynamic::IsoTimestamp.gives_at(ms, stamp),
    ensures
        secs == decimal((ms / 1000) as nat),
        millis == decimal(ms as nat),
        is_stamp_of((ms / 1000) as int, stamp),
{
}

/// Whether no placeholder of `input` can be resolved.
pub open spec fn none_resolves(input: Seq<char>, vars: Map<Seq<char>, Seq<char>>) -> bool
    decreases input.len(),
{
    match next_placeholder(input) {
        None => true,
        Some((start, end)) => {
            &&& resolves(placeholder_key(input, start, end), vars, None)
            &&& 0 <= start && start + 4 <= end <= input.len() ==> none_resolves(input.skip(end), vars)
        },
    }
}

/// Unknown variables are left untouched.
pub proof fn lemma_unknown_left_untouched(
    input: Seq<char>,
    vars: Map<Seq<char>, Seq<char>>,
    out: Seq<char>,
)
    requires
        none_resolves(input, vars),
        substituted(input, vars, out),
    ensures
        out == input,
    decreases input.len(),
{
    match next_placeholder(input) {
        None => {},
        Some((start, end)) => {
            let vs = choose|vs: Seq<Option<Seq<char>>>| #[trigger]
                all_resolve(input, vars, vs) && out == render(input, vs);
            let tail = render(input.skip(end), vs.skip(1));
            assert(all_resolve(input.skip(end), vars, vs.skip(1)));
            assert(vs[0] is None);
            lemma_unknown_left_untouched(input.skip(end), vars, tail);
            assert(out =~= input);
        },
    }
}

/// A collection variable shadows a dynamic one of the same name.
pub proof fn lemma_collection_shadows_dynamic(
    key: Seq<char>,
    vars: Map<Seq<char>, Seq<char>>,
    r: Option<Seq<char>>,
)
    requires
        vars.contains_key(key),
        key.len() == 0 || key[0] != '$',
    ensures
        resolves(key, vars, r) <==> r == Some(vars[key]),
{
}

/// A `$` prefix takes the dynamic variable, whatever the collection holds.
pub proof fn lemma_dollar_takes_dynamic(
    key: Seq<char>,
    vars: Map<Seq<char>, Seq<char>>,
    other: Map<Seq<char>, Seq<char>>,
    r: Option<Seq<char>>,
)
    requires
        key.len() > 0,
        key[0] == '$',
    ensures
        resolves(key, vars, r) == resolves(key, other, r),
{
}

/// A text with a first placeholder: what precedes it, the name in it, and the
/// rest.
pub open spec fn with_placeholder(before: Seq<char>, name: Seq<char>, rest: Seq<char>) -> Seq<char> {
    before + seq!['{', '{'] + name + seq!['}', '}'] + rest
}

/// Substitution goes from left to right: what precedes a collection variable
/// stays, its value is put in as it stands and not looked into again, and what
/// follows is substituted on its own.
pub proof fn lemma_value_put_in_verbatim(
    before: Seq<char>,
    name: Seq<char>,
    rest: Seq<char>,
    vars: Map<Seq<char>, Seq<char>>,
    out: Seq<char>,
)
    requires
        lacks(before, '{'),
        lacks(name, '}'),
        vars.contains_key(trim(name)),
        trim(name).len() == 0 || trim(name)[0] != '$',
    ensures
        substituted(with_placeholder(before, name, rest), vars, out) <==> exists|tail: Seq<char>| #[trigger]
            substituted(rest, vars, tail) && out == before + vars[trim(name)] + tail,
{
    let input = with_placeholder(before, name, rest);
    let v = vars[trim(name)];
    let start = before.len() as int;
    let end = start + name.len() + 4;
    lemma_first_placeholder(before, name, rest);
    assert(input.subrange(start + 2, end - 2) =~= name);
    assert(input.skip(end) =~= rest);
    assert(input.take(start) =~= before);
    if substituted(input, vars, out) {
        let vs = choose|vs: Seq<Option<Seq<char>>>| #[trigger]
            all_resolve(input, vars, vs) && out == render(input, vs);
        assert(vs[0] == Some(v));
        let tail = render(rest, vs.skip(1));
        assert(all_resolve(rest, vars, vs.skip(1)));
        assert(substituted(rest, vars, tail));
        assert(out =~= before + v + tail);
    }
    if exists|tail: Seq<char>| #[trigger]
        substituted(rest, vars, tail) && out == before + v + tail {
        let tail = choose|tail: Seq<char>| #[trigger]
            substituted(rest, vars, tail) && out == before + v + tail;
        let ts = choose|ts: Seq<Option<Seq<char>>>| #[trigger]
            all_resolve(rest, vars, ts) && tail == render(rest, ts);
        let vs = seq![Some(v)] + ts;
        assert(vs.skip(1) =~= ts);
        assert(all_resolve(input, vars, vs));
        assert(out =~= render(input, vs));
    }
}

/// A whole-text placeholder for a collection variable gives its value.
pub proof fn lemma_single_variable(
    name: Seq<char>,
    vars: Map<Seq<char>, Seq<char>>,
    out: Seq<char>,
)
    requires
        vars.contains_key(trim(name)),
        trim(name).len() == 0 || trim(name)[0] != '$',
        lacks(name, '}'),
        substituted(with_placeholder(Seq::empty(), name, Seq::empty()), vars, out),
    ensures
        out == vars[trim(name)],
{
    let none = Seq::<char>::empty();
    lemma_value_put_in_verbatim(none, name, none, vars, out);
    let tail = choose|tail: Seq<char>| #[trigger]
        substituted(none, vars, tail) && out == none + vars[trim(name)] + tail;
    assert(find(none, seq!['{', '{']) is None);
    lemma_plain_text_unchanged(none, vars, tail);
    assert(out =~= vars[trim(name)]);
}

proof fn lemma_first_placeholder(before: Seq<char>, name: Seq<char>, rest: Seq<char>)
    requires
        lacks(before, '{'),
        lacks(name, '}'),
    ensures
        next_placeholder(with_placeholder(before, name, rest)) == Some(
            (before.len() as int, before.len() as int + name.len() + 4),
        ),
{
    let open = seq!['{', '{'];
    let close = seq!['}', '}'];
    let input = with_placeholder(before, name, rest);
    assert(input =~= before + open + (name + close + rest));
    lemma_found_after(before, open, name + close + rest);
    assert(input.skip(before.len() as int + 2) =~= name + close + rest);
    lemma_found_after(name, close, rest);
}

} // verus!
