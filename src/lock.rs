//! The cutover lock: the JSON record at `<app_path>/shipit.lock` naming the
//! current and previous release of a host.

use vstd::prelude::*;
use crate::text::{chars_of, is_ws, is_ws_char, push_all};

verus! {

/// The persisted record of which release is current on a host.
#[derive(Debug)]
pub struct ShipitLock {
    pub current_release: String,
    pub previous_release: Option<String>,
    pub git_sha: String,
    pub deployed_at: String,
    pub secrets_hash: Option<String>,
}

/// The contents of a lock record.
pub struct LockView {
    pub current_release: Seq<char>,
    pub previous_release: Option<Seq<char>>,
    pub git_sha: Seq<char>,
    pub deployed_at: Seq<char>,
    pub secrets_hash: Option<Seq<char>>,
}

pub open spec fn opt_view(o: Option<String>) -> Option<Seq<char>> {
    match o {
        Some(s) => Some(s@),
        None => None,
    }
}

impl View for ShipitLock {
    type V = LockView;

    open spec fn view(&self) -> LockView {
        LockView {
            current_release: self.current_release@,
            previous_release: opt_view(self.previous_release),
            git_sha: self.git_sha@,
            deployed_at: self.deployed_at@,
            secrets_hash: opt_view(self.secrets_hash),
        }
    }
}

pub fn clone_opt(o: &Option<String>) -> (r: Option<String>)
    ensures
        opt_view(r) == opt_view(*o),
{
    match o {
        Some(s) => Some(s.clone()),
        None => None,
    }
}

// ---------------------------------------------------------------------------
// String literals of JSON
// ---------------------------------------------------------------------------

pub open spec fn hex_digit(n: int) -> char {
    if n < 10 {
        ((n + 48) as u8) as char
    } else {
        ((n + 87) as u8) as char
    }
}

pub open spec fn hex_val(c: char) -> Option<int> {
    if '0' <= c && c <= '9' {
        Some(c as int - 48)
    } else if 'a' <= c && c <= 'f' {
        Some(c as int - 87)
    } else if 'A' <= c && c <= 'F' {
        Some(c as int - 55)
    } else {
        None
    }
}

/// How one character is written inside a JSON string literal.
pub open spec fn esc_char(c: char) -> Seq<char> {
    if c == '"' {
        seq!['\\', '"']
    } else if c == '\\' {
        seq!['\\', '\\']
    } else if c == '\n' {
        seq!['\\', 'n']
    } else if c == '\r' {
        seq!['\\', 'r']
    } else if c == '\t' {
        seq!['\\', 't']
    } else if c == '\x08' {
        seq!['\\', 'b']
    } else if c == '\x0c' {
        seq!['\\', 'f']
    } else if (c as int) < 0x20 {
        seq!['\\', 'u', '0', '0', hex_digit(c as int / 16), hex_digit(c as int % 16)]
    } else {
        seq![c]
    }
}

pub open spec fn esc(x: Seq<char>) -> Seq<char>
    decreases x.len(),
{
    if x.len() == 0 {
        seq![]
    } else {
        esc_char(x[0]) + esc(x.drop_first())
    }
}

/// `x` as a JSON string literal.
pub open spec fn quote(x: Seq<char>) -> Seq<char> {
    seq!['"'] + esc(x) + seq!['"']
}

pub open spec fn unescape(e: char) -> Option<char> {
    if e == '"' {
        Some('"')
    } else if e == '\\' {
        Some('\\')
    } else if e == '/' {
        Some('/')
    } else if e == 'b' {
        Some('\x08')
    } else if e == 'f' {
        Some('\x0c')
    } else if e == 'n' {
        Some('\n')
    } else if e == 'r' {
        Some('\r')
    } else if e == 't' {
        Some('\t')
    } else {
        None
    }
}

/// The character of a `\uXXXX` escape with hex digits `h`; only ASCII
/// code points are read.
pub open spec fn unicode_escape(a: char, b: char, c: char, d: char) -> Option<char> {
    match (hex_val(a), hex_val(b), hex_val(c), hex_val(d)) {
        (Some(x), Some(y), Some(z), Some(w)) => {
            let v = x * 4096 + y * 256 + z * 16 + w;
            if v < 0x80 {
                Some((v as u8) as char)
            } else {
                None
            }
        },
        _ => None,
    }
}

pub open spec fn prepend(c: char, p: Option<(Seq<char>, Seq<char>)>) -> Option<(Seq<char>, Seq<char>)> {
    match p {
        Some(q) => Some((seq![c] + q.0, q.1)),
        None => None,
    }
}

/// Reads the rest of a string literal whose opening quote is consumed:
/// its text and what follows the closing quote.
pub open spec fn parse_str_body(s: Seq<char>) -> Option<(Seq<char>, Seq<char>)>
    decreases s.len(),
{
    if s.len() == 0 {
        None
    } else if s[0] == '"' {
        Some((seq![], s.drop_first()))
    } else if s[0] == '\\' {
        if s.len() < 2 {
            None
        } else if s[1] == 'u' {
            if s.len() < 6 {
                None
            } else {
                match unicode_escape(s[2], s[3], s[4], s[5]) {
                    Some(c) => prepend(c, parse_str_body(s.subrange(6, s.len() as int))),
                    None => None,
                }
            }
        } else {
            match unescape(s[1]) {
                Some(c) => prepend(c, parse_str_body(s.subrange(2, s.len() as int))),
                None => None,
            }
        }
    } else if (s[0] as int) < 0x20 {
        None
    } else {
        prepend(s[0], parse_str_body(s.drop_first()))
    }
}

// ---------------------------------------------------------------------------
// Tokens
// ---------------------------------------------------------------------------

pub open spec fn skip_ws(s: Seq<char>) -> Seq<char>
    decreases s.len(),
{
    if s.len() > 0 && is_ws(s[0]) {
        skip_ws(s.drop_first())
    } else {
        s
    }
}

/// After optional whitespace, the literal `t`; what follows it.
pub open spec fn expect_lit(s: Seq<char>, t: Seq<char>) -> Option<Seq<char>> {
    let u = skip_ws(s);
    if t.len() <= u.len() && u.subrange(0, t.len() as int) == t {
        Some(u.subrange(t.len() as int, u.len() as int))
    } else {
        None
    }
}

/// After optional whitespace, a string literal.
pub open spec fn parse_json_str(s: Seq<char>) -> Option<(Seq<char>, Seq<char>)> {
    match expect_lit(s, seq!['"']) {
        Some(r) => parse_str_body(r),
        None => None,
    }
}

/// After optional whitespace, a string literal or `null`.
pub open spec fn parse_opt_str(s: Seq<char>) -> Option<(Option<Seq<char>>, Seq<char>)> {
    match parse_json_str(s) {
        Some(p) => Some((Some(p.0), p.1)),
        None => match expect_lit(s, "null"@) {
            Some(r) => Some((None, r)),
            None => None,
        },
    }
}

pub open spec fn name_current() -> Seq<char> {
    "current_release"@
}

pub open spec fn name_previous() -> Seq<char> {
    "previous_release"@
}

pub open spec fn name_git_sha() -> Seq<char> {
    "git_sha"@
}

pub open spec fn name_deployed_at() -> Seq<char> {
    "deployed_at"@
}

pub open spec fn name_secrets_hash() -> Seq<char> {
    "secrets_hash"@
}

pub open spec fn key_current() -> Seq<char> {
    quote(name_current())
}

pub open spec fn key_previous() -> Seq<char> {
    quote(name_previous())
}

pub open spec fn key_git_sha() -> Seq<char> {
    quote(name_git_sha())
}

pub open spec fn key_deployed_at() -> Seq<char> {
    quote(name_deployed_at())
}

pub open spec fn key_secrets_hash() -> Seq<char> {
    quote(name_secrets_hash())
}

/// One member `"name": value`, the value a string or `null`.
pub open spec fn parse_member(s: Seq<char>) -> Option<((Seq<char>, Option<Seq<char>>), Seq<char>)> {
    match parse_json_str(s) {
        Some(k) => match expect_lit(k.1, ":"@) {
            Some(r) => match parse_opt_str(r) {
                Some(v) => Some(((k.0, v.0), v.1)),
                None => None,
            },
            None => None,
        },
        None => None,
    }
}

pub open spec fn prepend_member(
    m: (Seq<char>, Option<Seq<char>>),
    p: Option<(Seq<(Seq<char>, Option<Seq<char>>)>, Seq<char>)>,
) -> Option<(Seq<(Seq<char>, Option<Seq<char>>)>, Seq<char>)> {
    match p {
        Some(q) => Some((seq![m] + q.0, q.1)),
        None => None,
    }
}

/// What follows a member: the closing brace, or a comma and more members.
pub open spec fn parse_members_rest(s: Seq<char>) -> Option<(Seq<(Seq<char>, Option<Seq<char>>)>, Seq<char>)>
    decreases s.len(),
{
    match expect_lit(s, "}"@) {
        Some(r) => Some((seq![], r)),
        None => match expect_lit(s, ","@) {
            Some(r) => match parse_member(r) {
                Some(m) => if m.1.len() < s.len() {
                    prepend_member(m.0, parse_members_rest(m.1))
                } else {
                    None
                },
                None => None,
            },
            None => None,
        },
    }
}

/// The members of a JSON object whose values are strings or `null`, with
/// nothing but whitespace after it.
pub open spec fn parse_object(s: Seq<char>) -> Option<Seq<(Seq<char>, Option<Seq<char>>)>> {
    match expect_lit(s, "{"@) {
        Some(r) => {
            let body = match expect_lit(r, "}"@) {
                Some(r2) => Some((Seq::<(Seq<char>, Option<Seq<char>>)>::empty(), r2)),
                None => match parse_member(r) {
                    Some(m) => prepend_member(m.0, parse_members_rest(m.1)),
                    None => None,
                },
            };
            match body {
                Some(p) => if skip_ws(p.1).len() == 0 {
                    Some(p.0)
                } else {
                    None
                },
                None => None,
            }
        },
        None => None,
    }
}

/// The value of the first member named `name`.
pub open spec fn lookup(ms: Seq<(Seq<char>, Option<Seq<char>>)>, name: Seq<char>) -> Option<Option<Seq<char>>>
    decreases ms.len(),
{
    if ms.len() == 0 {
        None
    } else if ms[0].0 == name {
        Some(ms[0].1)
    } else {
        lookup(ms.drop_first(), name)
    }
}

/// An optional member: absent and `null` both read as none.
pub open spec fn optional(o: Option<Option<Seq<char>>>) -> Option<Seq<char>> {
    match o {
        Some(v) => v,
        None => None,
    }
}

/// The record that members describe: `current_release`, `git_sha` and
/// `deployed_at` must be strings; `previous_release` and `secrets_hash` may
/// be absent or `null`; other members are ignored.
pub open spec fn record_of(ms: Seq<(Seq<char>, Option<Seq<char>>)>) -> Option<LockView> {
    match (lookup(ms, name_current()), lookup(ms, name_git_sha()), lookup(ms, name_deployed_at())) {
        (Some(Some(c)), Some(Some(g)), Some(Some(d))) => Some(
            LockView {
                current_release: c,
                previous_release: optional(lookup(ms, name_previous())),
                git_sha: g,
                deployed_at: d,
                secrets_hash: optional(lookup(ms, name_secrets_hash())),
            },
        ),
        _ => None,
    }
}

/// The lock record that the text `s` holds: a JSON object with members in
/// any order, as described by `record_of`.
pub open spec fn parse_lock(s: Seq<char>) -> Option<LockView> {
    match parse_object(s) {
        Some(ms) => record_of(ms),
        None => None,
    }
}

pub open spec fn opt_json(o: Option<Seq<char>>) -> Seq<char> {
    match o {
        Some(x) => quote(x),
        None => "null"@,
    }
}

/// One `"key": value` line of the record, with what follows it.
pub open spec fn field_json(key: Seq<char>, value: Seq<char>, rest: Seq<char>) -> Seq<char> {
    "\n  "@ + (key + (":"@ + (" "@ + (value + rest))))
}

/// The text of a lock record: a JSON object, one field per line.
pub open spec fn lock_json(l: LockView) -> Seq<char> {
    "{"@ + field_json(
        key_current(),
        quote(l.current_release),
        ","@ + field_json(
            key_previous(),
            opt_json(l.previous_release),
            ","@ + field_json(
                key_git_sha(),
                quote(l.git_sha),
                ","@ + field_json(
                    key_deployed_at(),
                    quote(l.deployed_at),
                    ","@ + field_json(
                        key_secrets_hash(),
                        opt_json(l.secrets_hash),
                        "\n"@ + "}"@,
                    ),
                ),
            ),
        ),
    )
}

// ---------------------------------------------------------------------------
// Round trip
// ---------------------------------------------------------------------------

pub open spec fn all_ws(w: Seq<char>) -> bool {
    forall|j: int| 0 <= j < w.len() ==> is_ws(#[trigger] w[j])
}

proof fn lemma_skip_ws_prefix(w: Seq<char>, r: Seq<char>)
    requires
        all_ws(w),
        r.len() == 0 || !is_ws(r[0]),
    ensures
        skip_ws(w + r) == r,
    decreases w.len(),
{
    if w.len() == 0 {
        assert(w + r =~= r);
    } else {
        assert((w + r).drop_first() =~= w.drop_first() + r);
        assert(all_ws(w.drop_first())) by {
            assert forall|j: int| 0 <= j < w.drop_first().len() implies is_ws(
                #[trigger] w.drop_first()[j],
            ) by {
                assert(w.drop_first()[j] == w[j + 1]);
            }
        }
        lemma_skip_ws_prefix(w.drop_first(), r);
    }
}

proof fn lemma_expect(w: Seq<char>, t: Seq<char>, r: Seq<char>)
    requires
        all_ws(w),
        t.len() > 0,
        !is_ws(t[0]),
    ensures
        expect_lit(w + (t + r), t) == Some(r),
{
    lemma_skip_ws_prefix(w, t + r);
    assert((t + r).subrange(0, t.len() as int) =~= t);
    assert((t + r).subrange(t.len() as int, (t + r).len() as int) =~= r);
}

proof fn lemma_hex_digit(n: int)
    requires
        0 <= n < 16,
    ensures
        hex_val(hex_digit(n)) == Some(n),
{
}

proof fn lemma_esc_unicode(c: char, tail: Seq<char>)
    requires
        (c as int) < 0x20,
    ensures
        parse_str_body(esc_char(c) + tail) == prepend(c, parse_str_body(tail)),
{
    let s = esc_char(c) + tail;
    let n = c as int;
    assert(0 <= n / 16 < 2 && 0 <= n % 16 < 16 && n / 16 * 16 + n % 16 == n) by (nonlinear_arith)
        requires
            0 <= n < 32,
    ;
    lemma_hex_digit(n / 16);
    lemma_hex_digit(n % 16);
    if c == '"' || c == '\\' || c == '\n' || c == '\r' || c == '\t' || c == '\x08' || c == '\x0c' {
        assert(s.subrange(2, s.len() as int) =~= tail);
    } else {
        assert(s.subrange(6, s.len() as int) =~= tail);
        assert(unicode_escape(s[2], s[3], s[4], s[5]) == Some(c));
    }
}

/// Reading one escaped character back.
proof fn lemma_esc_step(c: char, tail: Seq<char>)
    ensures
        parse_str_body(esc_char(c) + tail) == prepend(c, parse_str_body(tail)),
{
    let s = esc_char(c) + tail;
    if (c as int) < 0x20 {
        lemma_esc_unicode(c, tail);
    } else if c == '"' || c == '\\' {
        assert(s.subrange(2, s.len() as int) =~= tail);
    } else {
        assert(s.drop_first() =~= tail);
    }
}

proof fn lemma_str_body(x: Seq<char>, r: Seq<char>)
    ensures
        parse_str_body(esc(x) + (seq!['"'] + r)) == Some((x, r)),
    decreases x.len(),
{
    let s = esc(x) + (seq!['"'] + r);
    if x.len() == 0 {
        assert(s =~= seq!['"'] + r);
        assert(s.drop_first() =~= r);
    } else {
        let c = x[0];
        let xt = x.drop_first();
        let tail = esc(xt) + (seq!['"'] + r);
        assert(s =~= esc_char(c) + tail);
        lemma_str_body(xt, r);
        lemma_esc_step(c, tail);
        assert(seq![c] + xt =~= x);
    }
}

proof fn lemma_json_str(w: Seq<char>, x: Seq<char>, r: Seq<char>)
    requires
        all_ws(w),
    ensures
        parse_json_str(w + (quote(x) + r)) == Some((x, r)),
{
    assert(quote(x) + r =~= seq!['"'] + (esc(x) + (seq!['"'] + r)));
    lemma_expect(w, seq!['"'], esc(x) + (seq!['"'] + r));
    lemma_str_body(x, r);
}

proof fn lemma_opt_str(w: Seq<char>, o: Option<Seq<char>>, r: Seq<char>)
    requires
        all_ws(w),
    ensures
        parse_opt_str(w + (opt_json(o) + r)) == Some((o, r)),
{
    match o {
        Some(x) => {
            lemma_json_str(w, x, r);
        },
        None => {
            reveal_strlit("null");
            lemma_expect(w, "null"@, r);
            lemma_skip_ws_prefix(w, "null"@ + r);
            assert(("null"@ + r)[0] == 'n');
        },
    }
}

proof fn lemma_ws_literals()
    ensures
        all_ws("\n  "@),
        all_ws(" "@),
        all_ws("\n"@),
        all_ws(seq![]),
        ":"@ == seq![':'],
        ","@ == seq![','],
        "{"@ == seq!['{'],
        "}"@ == seq!['}'],
        name_current().len() == 15,
        name_previous().len() == 16,
        name_git_sha().len() == 7,
        name_deployed_at().len() == 11,
        name_secrets_hash().len() == 12,
{
    reveal_strlit("\n  ");
    reveal_strlit(" ");
    reveal_strlit("\n");
    reveal_strlit(":");
    reveal_strlit(",");
    reveal_strlit("{");
    reveal_strlit("}");
    reveal_strlit("current_release");
    reveal_strlit("previous_release");
    reveal_strlit("git_sha");
    reveal_strlit("deployed_at");
    reveal_strlit("secrets_hash");
}

/// A member line written by `lock_json` reads back as that member.
proof fn lemma_member(name: Seq<char>, o: Option<Seq<char>>, rest: Seq<char>)
    ensures
        parse_member(field_json(quote(name), opt_json(o), rest)) == Some(((name, o), rest)),
        field_json(quote(name), opt_json(o), rest).len() > rest.len(),
{
    lemma_ws_literals();
    let after = ":"@ + (" "@ + (opt_json(o) + rest));
    lemma_json_str("\n  "@, name, after);
    assert(after =~= seq![] + (":"@ + (" "@ + (opt_json(o) + rest))));
    lemma_expect(seq![], ":"@, " "@ + (opt_json(o) + rest));
    lemma_opt_str(" "@, o, rest);
}

/// `,` then a member line: the member, then what follows it.
proof fn lemma_members_step(
    name: Seq<char>,
    o: Option<Seq<char>>,
    rest: Seq<char>,
)
    ensures
        parse_members_rest(","@ + field_json(quote(name), opt_json(o), rest)) == prepend_member(
            (name, o),
            parse_members_rest(rest),
        ),
{
    lemma_ws_literals();
    let f = field_json(quote(name), opt_json(o), rest);
    let s = ","@ + f;
    lemma_member(name, o, rest);
    lemma_skip_ws_prefix(seq![], s);
    assert(seq![] + s =~= s);
    assert(s[0] == ',');
    assert(s.subrange(0, 1)[0] == ',');
    assert(s.subrange(0, 1) != "}"@);
    assert(s =~= seq![] + (","@ + f));
    lemma_expect(seq![], ","@, f);
}

proof fn lemma_members_end()
    ensures
        parse_members_rest("\n"@ + "}"@) == Some((Seq::<(Seq<char>, Option<Seq<char>>)>::empty(), Seq::<char>::empty())),
{
    lemma_ws_literals();
    assert("\n"@ + "}"@ =~= "\n"@ + ("}"@ + seq![]));
    lemma_expect("\n"@, "}"@, seq![]);
}

/// Writing a lock record and reading the text back gives the same record.
pub proof fn lemma_lock_round_trip(l: LockView)
    ensures
        parse_lock(lock_json(l)) == Some(l),
{
    lemma_ws_literals();
    let end = "\n"@ + "}"@;
    let f5 = field_json(key_secrets_hash(), opt_json(l.secrets_hash), end);
    let f4 = field_json(key_deployed_at(), opt_json(Some(l.deployed_at)), ","@ + f5);
    let f3 = field_json(key_git_sha(), opt_json(Some(l.git_sha)), ","@ + f4);
    let f2 = field_json(key_previous(), opt_json(l.previous_release), ","@ + f3);
    let f1 = field_json(key_current(), opt_json(Some(l.current_release)), ","@ + f2);
    assert(lock_json(l) == "{"@ + f1);
    assert("{"@ + f1 =~= seq![] + ("{"@ + f1));
    lemma_expect(seq![], "{"@, f1);
    // the object is not empty: the first member line starts with a quote
    let q = quote(name_current()) + (":"@ + (" "@ + (opt_json(Some(l.current_release)) + (","@ + f2))));
    assert(f1 == "\n  "@ + q);
    assert(q[0] == '"');
    lemma_skip_ws_prefix("\n  "@, q);
    assert(q.subrange(0, 1)[0] == '"');
    assert(q.subrange(0, 1) != "}"@);
    lemma_member(name_current(), Some(l.current_release), ","@ + f2);
    lemma_members_end();
    lemma_members_step(name_secrets_hash(), l.secrets_hash, end);
    lemma_members_step(name_deployed_at(), Some(l.deployed_at), ","@ + f5);
    lemma_members_step(name_git_sha(), Some(l.git_sha), ","@ + f4);
    lemma_members_step(name_previous(), l.previous_release, ","@ + f3);
    let ms = seq![
        (name_current(), Some(l.current_release)),
        (name_previous(), l.previous_release),
        (name_git_sha(), Some(l.git_sha)),
        (name_deployed_at(), Some(l.deployed_at)),
        (name_secrets_hash(), l.secrets_hash),
    ];
    assert(parse_object(lock_json(l)) == Some(ms)) by {
        assert(seq![ms[4]] + Seq::<(Seq<char>, Option<Seq<char>>)>::empty() =~= ms.subrange(4, 5));
        assert(seq![ms[3]] + ms.subrange(4, 5) =~= ms.subrange(3, 5));
        assert(seq![ms[2]] + ms.subrange(3, 5) =~= ms.subrange(2, 5));
        assert(seq![ms[1]] + ms.subrange(2, 5) =~= ms.subrange(1, 5));
        assert(seq![ms[0]] + ms.subrange(1, 5) =~= ms);
    }
    reveal_with_fuel(lookup, 6);
    assert(ms.drop_first()[0] == ms[1]);
    assert(ms.drop_first().drop_first()[0] == ms[2]);
    assert(ms.drop_first().drop_first().drop_first()[0] == ms[3]);
    assert(ms.drop_first().drop_first().drop_first().drop_first()[0] == ms[4]);
    assert(lookup(ms, name_current()) == Some(Some(l.current_release)));
    assert(lookup(ms, name_previous()) == Some(l.previous_release));
    assert(lookup(ms, name_git_sha()) == Some(Some(l.git_sha)));
    assert(lookup(ms, name_deployed_at()) == Some(Some(l.deployed_at)));
    assert(lookup(ms, name_secrets_hash()) == Some(l.secrets_hash));
}

// ---------------------------------------------------------------------------
// Writing
// ---------------------------------------------------------------------------

fn hex_digit_exec(n: u32) -> (c: char)
    requires
        n < 16,
    ensures
        c == hex_digit(n as int),
{
    if n < 10 {
        ((n + 48) as u8) as char
    } else {
        ((n + 87) as u8) as char
    }
}

proof fn lemma_esc_push(x: Seq<char>, c: char)
    ensures
        esc(x.push(c)) == esc(x) + esc_char(c),
    decreases x.len(),
{
    if x.len() == 0 {
        assert(x.push(c).drop_first() =~= seq![]);
        assert(esc(x.push(c).drop_first()) =~= seq![]);
        assert(esc(x) =~= seq![]);
        assert(esc(x.push(c)) =~= esc_char(c));
        assert(esc(x) + esc_char(c) =~= esc_char(c));
    } else {
        assert(x.push(c).drop_first() =~= x.drop_first().push(c));
        lemma_esc_push(x.drop_first(), c);
        assert(esc(x.push(c)) =~= esc(x) + esc_char(c));
    }
}

fn push_esc_char(out: &mut String, c: char)
    ensures
        final(out)@ == old(out)@ + esc_char(c),
{
    let ghost o = out@;
    if c == '"' {
        out.push('\\');
        out.push('"');
    } else if c == '\\' {
        out.push('\\');
        out.push('\\');
    } else if c == '\n' {
        out.push('\\');
        out.push('n');
    } else if c == '\r' {
        out.push('\\');
        out.push('r');
    } else if c == '\t' {
        out.push('\\');
        out.push('t');
    } else if c == '\x08' {
        out.push('\\');
        out.push('b');
    } else if c == '\x0c' {
        out.push('\\');
        out.push('f');
    } else if (c as u32) < 0x20 {
        let n = c as u32;
        out.push('\\');
        out.push('u');
        out.push('0');
        out.push('0');
        out.push(hex_digit_exec(n / 16));
        out.push(hex_digit_exec(n % 16));
    } else {
        out.push(c);
    }
    assert(out@ =~= o + esc_char(c));
}

/// Appends `x` as a JSON string literal.
fn push_quoted(out: &mut String, x: &str)
    ensures
        final(out)@ == old(out)@ + quote(x@),
{
    let ghost o = out@;
    let v = chars_of(x);
    out.push('"');
    let mut i: usize = 0;
    while i < v.len()
        invariant
            v@ == x@,
            i <= v@.len(),
            out@ == o + seq!['"'] + esc(x@.subrange(0, i as int)),
        decreases v@.len() - i,
    {
        proof {
            assert(x@.subrange(0, i + 1) =~= x@.subrange(0, i as int).push(x@[i as int]));
            lemma_esc_push(x@.subrange(0, i as int), x@[i as int]);
        }
        push_esc_char(out, v[i]);
        i = i + 1;
    }
    out.push('"');
    assert(x@.subrange(0, x@.len() as int) =~= x@);
    assert(out@ =~= o + quote(x@));
}

fn push_opt(out: &mut String, o: &Option<String>)
    ensures
        final(out)@ == old(out)@ + opt_json(opt_view(*o)),
{
    match o {
        Some(x) => push_quoted(out, x.as_str()),
        None => push_all(out, "null"),
    }
}

// ---------------------------------------------------------------------------
// Reading
// ---------------------------------------------------------------------------

pub open spec fn suffix(v: Seq<char>, i: int) -> Seq<char> {
    v.subrange(i, v.len() as int)
}

fn skip_ws_at(v: &Vec<char>, i: usize) -> (j: usize)
    requires
        i <= v@.len(),
    ensures
        i <= j <= v@.len(),
        suffix(v@, j as int) == skip_ws(suffix(v@, i as int)),
{
    let mut j = i;
    while j < v.len() && is_ws_char(v[j])
        invariant
            i <= j <= v@.len(),
            skip_ws(suffix(v@, i as int)) == skip_ws(suffix(v@, j as int)),
        decreases v@.len() - j,
    {
        assert(suffix(v@, j as int).drop_first() =~= suffix(v@, j + 1));
        j = j + 1;
    }
    j
}

fn expect_at(v: &Vec<char>, i: usize, t: &str) -> (r: Option<usize>)
    requires
        i <= v@.len(),
    ensures
        match r {
            Some(j) => i + t@.len() <= j <= v@.len() && expect_lit(suffix(v@, i as int), t@) == Some(
                suffix(v@, j as int),
            ),
            None => expect_lit(suffix(v@, i as int), t@) is None,
        },
{
    let j = skip_ws_at(v, i);
    let tc = chars_of(t);
    let ghost u = suffix(v@, j as int);
    if tc.len() > v.len() - j {
        return None;
    }
    let n = v.len();
    let mut k: usize = 0;
    while k < tc.len()
        invariant
            n == v@.len(),
            tc@ == t@,
            i <= j <= v@.len(),
            j + tc@.len() <= v@.len(),
            u == suffix(v@, j as int),
            u == skip_ws(suffix(v@, i as int)),
            k <= tc@.len(),
            u.subrange(0, k as int) == tc@.subrange(0, k as int),
        decreases tc@.len() - k,
    {
        if v[j + k] != tc[k] {
            assert(u.subrange(0, tc@.len() as int)[k as int] != tc@[k as int]);
            return None;
        }
        assert(u.subrange(0, k + 1) =~= u.subrange(0, k as int).push(u[k as int]));
        assert(tc@.subrange(0, k + 1) =~= tc@.subrange(0, k as int).push(tc@[k as int]));
        k = k + 1;
    }
    assert(tc@.subrange(0, tc@.len() as int) =~= tc@);
    assert(u.subrange(tc@.len() as int, u.len() as int) =~= suffix(v@, j + tc@.len()));
    Some(j + tc.len())
}

fn hex_val_exec(c: char) -> (r: Option<u32>)
    ensures
        match r {
            Some(n) => hex_val(c) == Some(n as int),
            None => hex_val(c) is None,
        },
{
    if '0' <= c && c <= '9' {
        Some(c as u32 - 48)
    } else if 'a' <= c && c <= 'f' {
        Some(c as u32 - 87)
    } else if 'A' <= c && c <= 'F' {
        Some(c as u32 - 55)
    } else {
        None
    }
}

fn unescape_exec(e: char) -> (r: Option<char>)
    ensures
        r == unescape(e),
{
    if e == '"' {
        Some('"')
    } else if e == '\\' {
        Some('\\')
    } else if e == '/' {
        Some('/')
    } else if e == 'b' {
        Some('\x08')
    } else if e == 'f' {
        Some('\x0c')
    } else if e == 'n' {
        Some('\n')
    } else if e == 'r' {
        Some('\r')
    } else if e == 't' {
        Some('\t')
    } else {
        None
    }
}

fn unicode_escape_exec(a: char, b: char, c: char, d: char) -> (r: Option<char>)
    ensures
        r == unicode_escape(a, b, c, d),
{
    match (hex_val_exec(a), hex_val_exec(b), hex_val_exec(c), hex_val_exec(d)) {
        (Some(x), Some(y), Some(z), Some(w)) => {
            if x == 0 && y == 0 && z < 8 {
                let v = z * 16 + w;
                Some((v as u8) as char)
            } else {
                None
            }
        },
        _ => None,
    }
}

pub open spec fn prepend_all(a: Seq<char>, p: Option<(Seq<char>, Seq<char>)>) -> Option<
    (Seq<char>, Seq<char>),
> {
    match p {
        Some(q) => Some((a + q.0, q.1)),
        None => None,
    }
}

proof fn lemma_prepend_all(a: Seq<char>, c: char, p: Option<(Seq<char>, Seq<char>)>)
    ensures
        prepend_all(a, prepend(c, p)) == prepend_all(a.push(c), p),
{
    if let Some(q) = p {
        assert(a + (seq![c] + q.0) =~= a.push(c) + q.0);
    }
}

/// Reads a string literal whose opening quote is consumed, from `v[i..]`.
fn parse_str_body_at(v: &Vec<char>, i: usize) -> (r: Option<(String, usize)>)
    requires
        i <= v@.len(),
    ensures
        match r {
            Some((x, j)) => i < j <= v@.len() && parse_str_body(suffix(v@, i as int)) == Some(
                (x@, suffix(v@, j as int)),
            ),
            None => parse_str_body(suffix(v@, i as int)) is None,
        },
{
    let n = v.len();
    let mut acc = String::new();
    let mut k = i;
    while k < n
        invariant
            n == v@.len(),
            i <= k <= n,
            parse_str_body(suffix(v@, i as int)) == prepend_all(
                acc@,
                parse_str_body(suffix(v@, k as int)),
            ),
        decreases n - k,
    {
        let s = Ghost(suffix(v@, k as int));
        let c = v[k];
        let ghost a = acc@;
        if c == '"' {
            assert(a + seq![] =~= a);
            assert(s@.drop_first() =~= suffix(v@, k + 1));
            return Some((acc, k + 1));
        } else if c == '\\' {
            if n - k < 2 {
                return None;
            }
            let e = v[k + 1];
            assert(s@[0] == c && s@[1] == e);
            if e == 'u' {
                if n - k < 6 {
                    return None;
                }
                match unicode_escape_exec(v[k + 2], v[k + 3], v[k + 4], v[k + 5]) {
                    Some(d) => {
                        assert(s@[2] == v@[k + 2] && s@[3] == v@[k + 3] && s@[4] == v@[k + 4]
                            && s@[5] == v@[k + 5]);
                        assert(s@.subrange(6, s@.len() as int) =~= suffix(v@, k + 6));
                        assert(parse_str_body(s@) == prepend(d, parse_str_body(suffix(v@, k + 6))));
                        proof {
                            lemma_prepend_all(a, d, parse_str_body(suffix(v@, k + 6)));
                        }
                        acc.push(d);
                        k = k + 6;
                    },
                    None => {
                        return None;
                    },
                }
            } else {
                match unescape_exec(e) {
                    Some(d) => {
                        assert(s@.subrange(2, s@.len() as int) =~= suffix(v@, k + 2));
                        assert(parse_str_body(s@) == prepend(d, parse_str_body(suffix(v@, k + 2))));
                        proof {
                            lemma_prepend_all(a, d, parse_str_body(suffix(v@, k + 2)));
                        }
                        acc.push(d);
                        k = k + 2;
                    },
                    None => {
                        return None;
                    },
                }
            }
        } else if ' ' > c {
            return None;
        } else {
            assert(s@[0] == c);
            assert(s@.drop_first() =~= suffix(v@, k + 1));
            assert(parse_str_body(s@) == prepend(c, parse_str_body(suffix(v@, k + 1))));
            proof {
                lemma_prepend_all(a, c, parse_str_body(suffix(v@, k + 1)));
            }
            acc.push(c);
            k = k + 1;
        }
    }
    assert(suffix(v@, n as int) =~= seq![]);
    None
}

fn parse_json_str_at(v: &Vec<char>, i: usize) -> (r: Option<(String, usize)>)
    requires
        i <= v@.len(),
    ensures
        match r {
            Some((x, j)) => i < j <= v@.len() && parse_json_str(suffix(v@, i as int)) == Some(
                (x@, suffix(v@, j as int)),
            ),
            None => parse_json_str(suffix(v@, i as int)) is None,
        },
{
    proof {
        reveal_strlit("\"");
        assert("\""@ =~= seq!['"']);
    }
    match expect_at(v, i, "\"") {
        Some(j) => parse_str_body_at(v, j),
        None => None,
    }
}

fn parse_opt_str_at(v: &Vec<char>, i: usize) -> (r: Option<(Option<String>, usize)>)
    requires
        i <= v@.len(),
    ensures
        match r {
            Some((x, j)) => i < j <= v@.len() && parse_opt_str(suffix(v@, i as int)) == Some(
                (opt_view(x), suffix(v@, j as int)),
            ),
            None => parse_opt_str(suffix(v@, i as int)) is None,
        },
{
    proof {
        reveal_strlit("null");
    }
    match parse_json_str_at(v, i) {
        Some((x, j)) => Some((Some(x), j)),
        None => match expect_at(v, i, "null") {
            Some(j) => Some((None, j)),
            None => None,
        },
    }
}

pub open spec fn member_views(ms: Seq<(String, Option<String>)>) -> Seq<(Seq<char>, Option<Seq<char>>)> {
    Seq::new(ms.len(), |i: int| (ms[i].0@, opt_view(ms[i].1)))
}

fn parse_member_at(v: &Vec<char>, i: usize) -> (r: Option<((String, Option<String>), usize)>)
    requires
        i <= v@.len(),
    ensures
        match r {
            Some((m, j)) => i < j <= v@.len() && parse_member(suffix(v@, i as int)) == Some(
                ((m.0@, opt_view(m.1)), suffix(v@, j as int)),
            ),
            None => parse_member(suffix(v@, i as int)) is None,
        },
{
    match parse_json_str_at(v, i) {
        Some((k, j)) => match expect_at(v, j, ":") {
            Some(j2) => match parse_opt_str_at(v, j2) {
                Some((val, j3)) => Some(((k, val), j3)),
                None => None,
            },
            None => None,
        },
        None => None,
    }
}

/// The members of the object in `v`, if `v` holds one.
fn parse_object_at(v: &Vec<char>) -> (r: Option<Vec<(String, Option<String>)>>)
    ensures
        match r {
            Some(ms) => parse_object(v@) == Some(member_views(ms@)),
            None => parse_object(v@) is None,
        },
{
    assert(suffix(v@, 0) =~= v@);
    let i = match expect_at(v, 0, "{") {
        Some(i) => i,
        None => return None,
    };
    let mut ms: Vec<(String, Option<String>)> = Vec::new();
    let ghost mut body: Option<(Seq<(Seq<char>, Option<Seq<char>>)>, Seq<char>)>;
    let mut k: usize;
    match expect_at(v, i, "}") {
        Some(j) => {
            proof {
                body = Some((Seq::<(Seq<char>, Option<Seq<char>>)>::empty(), suffix(v@, j as int)));
                assert(member_views(ms@) =~= Seq::<(Seq<char>, Option<Seq<char>>)>::empty());
            }
            k = j;
        },
        None => {
            let (m, j) = match parse_member_at(v, i) {
                Some(p) => p,
                None => return None,
            };
            proof {
                body = prepend_member((m.0@, opt_view(m.1)), parse_members_rest(suffix(v@, j as int)));
            }
            ms.push(m);
            let ghost first = ms@;
            assert(member_views(ms@) =~= seq![(ms@[0].0@, opt_view(ms@[0].1))]);
            k = j;
            loop
                invariant_except_break
                    body == match parse_members_rest(suffix(v@, k as int)) {
                        Some(q) => Some((member_views(ms@) + q.0, q.1)),
                        None => None,
                    },
                invariant
                    k <= v@.len(),
                    parse_object(v@) == match body {
                        Some(p) => if skip_ws(p.1).len() == 0 {
                            Some(p.0)
                        } else {
                            None
                        },
                        None => None,
                    },
                ensures
                    k <= v@.len(),
                    body == Some((member_views(ms@), suffix(v@, k as int))),
                decreases v@.len() - k,
            {
                let ghost s = suffix(v@, k as int);
                match expect_at(v, k, "}") {
                    Some(j) => {
                        assert(member_views(ms@) + Seq::<(Seq<char>, Option<Seq<char>>)>::empty() =~= member_views(ms@));
                        k = j;
                        break;
                    },
                    None => {},
                }
                let j = match expect_at(v, k, ",") {
                    Some(j) => j,
                    None => return None,
                };
                assert(j > k) by {
                    reveal_strlit(",");
                }
                let (m, j2) = match parse_member_at(v, j) {
                    Some(p) => p,
                    None => return None,
                };
                assert(suffix(v@, j2 as int).len() < s.len());
                let ghost old_ms = ms@;
                ms.push(m);
                proof {
                    let mv = (m.0@, opt_view(m.1));
                    assert(member_views(ms@) =~= member_views(old_ms).push(mv));
                    match parse_members_rest(suffix(v@, j2 as int)) {
                        Some(q) => {
                            assert(member_views(old_ms) + (seq![mv] + q.0) =~= member_views(ms@) + q.0);
                        },
                        None => {},
                    }
                }
                k = j2;
            }
        },
    }

    let e = skip_ws_at(v, k);
    if e == v.len() {
        proof {
            assert(suffix(v@, e as int).len() == 0);
        }
        Some(ms)
    } else {
        None
    }
}

fn lookup_exec(ms: &Vec<(String, Option<String>)>, name: &str) -> (r: Option<Option<String>>)
    ensures
        match r {
            Some(o) => lookup(member_views(ms@), name@) == Some(opt_view(o)),
            None => lookup(member_views(ms@), name@) is None,
        },
{
    let mut i: usize = 0;
    assert(member_views(ms@).subrange(0, ms@.len() as int) =~= member_views(ms@));
    while i < ms.len()
        invariant
            i <= ms@.len(),
            lookup(member_views(ms@), name@) == lookup(member_views(ms@).subrange(i as int, ms@.len() as int), name@),
        decreases ms@.len() - i,
    {
        let ghost rest = member_views(ms@).subrange(i as int, ms@.len() as int);
        assert(rest.drop_first() =~= member_views(ms@).subrange(i + 1, ms@.len() as int));
        if crate::text::str_eq(ms[i].0.as_str(), name) {
            return Some(clone_opt(&ms[i].1));
        }
        i = i + 1;
    }
    None
}

fn quoted(x: &str) -> (r: String)
    ensures
        r@ == quote(x@),
{
    let mut r = String::new();
    push_quoted(&mut r, x);
    assert(r@ =~= quote(x@));
    r
}

/// `field_json(key, value, sep + rest)`.
fn field_text(key: &str, value: &String, sep: &str, rest: &String) -> (r: String)
    ensures
        r@ == field_json(key@, value@, sep@ + rest@),
{
    let mut s = String::new();
    push_all(&mut s, "\n  ");
    push_all(&mut s, key);
    push_all(&mut s, ":");
    push_all(&mut s, " ");
    push_all(&mut s, value.as_str());
    push_all(&mut s, sep);
    push_all(&mut s, rest.as_str());
    assert(s@ =~= field_json(key@, value@, sep@ + rest@));
    s
}

impl ShipitLock {
    /// The record as JSON text, one field per line.
    pub fn to_json(&self) -> (r: String)
        ensures
            r@ == lock_json(self@),
    {
        let mut end = String::new();
        push_all(&mut end, "\n");
        push_all(&mut end, "}");
        let mut v5 = String::new();
        push_opt(&mut v5, &self.secrets_hash);
        let f5 = field_text(quoted("secrets_hash").as_str(), &v5, "", &end);
        let mut v4 = String::new();
        push_quoted(&mut v4, self.deployed_at.as_str());
        let f4 = field_text(quoted("deployed_at").as_str(), &v4, ",", &f5);
        let mut v3 = String::new();
        push_quoted(&mut v3, self.git_sha.as_str());
        let f3 = field_text(quoted("git_sha").as_str(), &v3, ",", &f4);
        let mut v2 = String::new();
        push_opt(&mut v2, &self.previous_release);
        let f2 = field_text(quoted("previous_release").as_str(), &v2, ",", &f3);
        let mut v1 = String::new();
        push_quoted(&mut v1, self.current_release.as_str());
        let f1 = field_text(quoted("current_release").as_str(), &v1, ",", &f2);
        let mut out = String::new();
        push_all(&mut out, "{");
        push_all(&mut out, f1.as_str());
        assert(v5@ =~= opt_json(opt_view(self.secrets_hash)));
        assert(v2@ =~= opt_json(opt_view(self.previous_release)));
        assert(v4@ =~= quote(self.deployed_at@));
        assert(v3@ =~= quote(self.git_sha@));
        assert(v1@ =~= quote(self.current_release@));
        proof {
            reveal_strlit("");
            assert(""@ + end@ =~= end@);
        }
        assert(out@ =~= lock_json(self@));
        out
    }

    /// Reads a lock record from its JSON text; `None` when the text is not
    /// one.
    pub fn from_json(s: &str) -> (r: Option<ShipitLock>)
        ensures
            match r {
                Some(l) => parse_lock(s@) == Some(l@),
                None => parse_lock(s@) is None,
            },
    {
        let v = chars_of(s);
        let ms = match parse_object_at(&v) {
            Some(ms) => ms,
            None => return None,
        };
        let cur = match lookup_exec(&ms, "current_release") {
            Some(Some(c)) => c,
            _ => return None,
        };
        let sha = match lookup_exec(&ms, "git_sha") {
            Some(Some(g)) => g,
            _ => return None,
        };
        let at = match lookup_exec(&ms, "deployed_at") {
            Some(Some(d)) => d,
            _ => return None,
        };
        let prev = match lookup_exec(&ms, "previous_release") {
            Some(o) => o,
            None => None,
        };
        let hash = match lookup_exec(&ms, "secrets_hash") {
            Some(o) => o,
            None => None,
        };
        Some(
            ShipitLock {
                current_release: cur,
                previous_release: prev,
                git_sha: sha,
                deployed_at: at,
                secrets_hash: hash,
            },
        )
    }
}

// ---------------------------------------------------------------------------
// Records written by deploys and rollbacks
// ---------------------------------------------------------------------------

pub open spec fn current_of(l: Option<ShipitLock>) -> Option<Seq<char>> {
    match l {
        Some(l) => Some(l.current_release@),
        None => None,
    }
}

/// Where a host keeps its lock record.
pub fn lock_path(app_path: &str) -> (r: String)
    ensures
        r@ == app_path@ + "/shipit.lock"@,
{
    let mut r = String::new();
    push_all(&mut r, app_path);
    push_all(&mut r, "/shipit.lock");
    r
}

impl ShipitLock {
    /// A record naming `current` as the current release, stamped with the
    /// local time now.
    pub fn new(
        current: String,
        previous: Option<String>,
        git_sha: String,
        secrets_hash: Option<String>,
    ) -> (r: ShipitLock)
        ensures
            r.current_release@ == current@,
            opt_view(r.previous_release) == opt_view(previous),
            r.git_sha@ == git_sha@,
            opt_view(r.secrets_hash) == opt_view(secrets_hash),
    {
        let now = crate::release::local_now();
        ShipitLock::new_at(current, previous, git_sha, now.rfc3339, secrets_hash)
    }

    /// A record naming `current` as the current release, stamped with
    /// `deployed_at`.
    pub fn new_at(
        current: String,
        previous: Option<String>,
        git_sha: String,
        deployed_at: String,
        secrets_hash: Option<String>,
    ) -> (r: ShipitLock)
        ensures
            r.current_release@ == current@,
            opt_view(r.previous_release) == opt_view(previous),
            r.git_sha@ == git_sha@,
            r.deployed_at@ == deployed_at@,
            opt_view(r.secrets_hash) == opt_view(secrets_hash),
    {
        ShipitLock {
            current_release: current,
            previous_release: previous,
            git_sha,
            deployed_at,
            secrets_hash,
        }
    }
}

/// The record that a successful deploy of `release` writes: `release` is
/// current, and the previous record's current release (if there was a
/// record) becomes the previous one.
pub fn deploy_lock(
    previous_lock: &Option<ShipitLock>,
    release: &str,
    git_sha: String,
    deployed_at: String,
    secrets_hash: Option<String>,
) -> (r: ShipitLock)
    ensures
        r.current_release@ == release@,
        opt_view(r.previous_release) == current_of(*previous_lock),
        r.git_sha@ == git_sha@,
        r.deployed_at@ == deployed_at@,
        opt_view(r.secrets_hash) == opt_view(secrets_hash),
{
    let previous = match previous_lock {
        Some(l) => Some(l.current_release.clone()),
        None => None,
    };
    ShipitLock::new_at(release.to_owned(), previous, git_sha, deployed_at, secrets_hash)
}

/// The record that a successful rollback to `target` writes: `target` is
/// current, the release that was current becomes the previous one, and the
/// code revision and secrets hash are carried over.
pub fn rollback_lock(lock: &ShipitLock, target: &str, deployed_at: String) -> (r: ShipitLock)
    ensures
        r.current_release@ == target@,
        r.previous_release matches Some(p) && p@ == lock.current_release@,
        r.git_sha@ == lock.git_sha@,
        r.deployed_at@ == deployed_at@,
        opt_view(r.secrets_hash) == opt_view(lock.secrets_hash),
{
    ShipitLock::new_at(
        target.to_owned(),
        Some(lock.current_release.clone()),
        lock.git_sha.clone(),
        deployed_at,
        clone_opt(&lock.secrets_hash),
    )
}

/// Whether the shared environment file must be written again: unless the
/// previous record holds the same secrets hash as the current secrets.
pub fn secrets_need_update(previous_lock: &Option<ShipitLock>, current_hash: &Option<String>) -> (r: bool)
    ensures
        r == !(previous_lock matches Some(l) && current_hash matches Some(h) && opt_view(l.secrets_hash)
            == Some(h@)),
{
    match (previous_lock, current_hash) {
        (Some(l), Some(h)) => match &l.secrets_hash {
            Some(x) => !crate::text::str_eq(x.as_str(), h.as_str()),
            None => true,
        },
        _ => true,
    }
}

} // verus!
