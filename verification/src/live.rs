//! Helpers of the local live server: request routing, query parsing, JSON
//! replies, frame cadence and static-file replies. Sockets, the file
//! system and the simulations themselves stay with the caller.

use crate::error::Error;
use vstd::arithmetic::div_mod::{lemma_fundamental_div_mod, lemma_fundamental_div_mod_converse};
use crate::text::{chars_equal, chars_of, str_equal, string_from_chars};
use vstd::prelude::*;

verus! {

/// Body of an HTTP reply.
pub enum Body {
    Text(String),
    Bytes(Vec<u8>),
}

/// An HTTP reply: body, content type, status code.
pub type Reply = (Body, &'static str, u16);

/// `b` is a text body holding exactly `t`.
pub open spec fn is_text(b: Body, t: Seq<char>) -> bool {
    b matches Body::Text(s) && s@ == t
}

/// A `200` JSON reply with the given body.
pub fn ok_text(body: String) -> (r: Reply)
    ensures
        r.0 == Body::Text(body),
        r.1@ == "application/json"@,
        r.2 == 200,
{
    (Body::Text(body), "application/json", 200)
}

/// Body of the liveness probe.
pub open spec fn ping_body() -> Seq<char> {
    "{\"ok\":true,\"crate\":\"cymatrox\",\"version\":\"0.1\"}"@
}

/// Reply to the liveness probe: crate name and version.
pub fn ping_reply() -> (r: Reply)
    ensures
        is_text(r.0, ping_body()),
        r.1@ == "application/json"@,
        r.2 == 200,
{
    ok_text(String::from_str("{\"ok\":true,\"crate\":\"cymatrox\",\"version\":\"0.1\"}"))
}

/// How one character is written inside a JSON string literal: backslash
/// and quote are escaped, a newline becomes a space.
pub open spec fn escape_char(c: char) -> Seq<char> {
    if c == '\\' {
        seq!['\\', '\\']
    } else if c == '"' {
        seq!['\\', '"']
    } else if c == '\n' {
        seq![' ']
    } else {
        seq![c]
    }
}

/// `s` written inside a JSON string literal, character by character.
pub open spec fn escape_js_spec(s: Seq<char>) -> Seq<char>
    decreases s.len(),
{
    if s.len() == 0 {
        Seq::empty()
    } else {
        escape_js_spec(s.drop_last()) + escape_char(s.last())
    }
}

/// Escapes `s` for embedding in a JSON string literal.
pub fn escape_js(s: &str) -> (r: String)
    ensures
        r@ == escape_js_spec(s@),
{
    let cs = chars_of(s);
    let mut out: Vec<char> = Vec::new();
    for i in 0..cs.len()
        invariant
            cs@ == s@,
            out@ == escape_js_spec(cs@.take(i as int)),
    {
        let c = cs[i];
        if c == '\\' {
            out.push('\\');
            out.push('\\');
        } else if c == '"' {
            out.push('\\');
            out.push('"');
        } else if c == '\n' {
            out.push(' ');
        } else {
            out.push(c);
        }
        assert(cs@.take(i + 1).drop_last() =~= cs@.take(i as int));
        assert(out@ =~= escape_js_spec(cs@.take(i as int)) + escape_char(c));
    }
    assert(cs@.take(cs@.len() as int) =~= cs@);
    string_from_chars(&out)
}

/// Escaped text holds no newline, and every quote in it follows a backslash.
pub proof fn lemma_escape_js_safe(s: Seq<char>)
    ensures
        forall|i: int| 0 <= i < escape_js_spec(s).len() ==> #[trigger] escape_js_spec(s)[i] != '\n',
        forall|i: int|
            0 <= i < escape_js_spec(s).len() && #[trigger] escape_js_spec(s)[i] == '"' ==> i > 0
                && escape_js_spec(s)[i - 1] == '\\',
        escape_js_spec(s).len() >= s.len(),
    decreases s.len(),
{
    if s.len() > 0 {
        lemma_escape_js_safe(s.drop_last());
        let p = escape_js_spec(s.drop_last());
        let t = escape_char(s.last());
        assert(escape_js_spec(s) == p + t);
        assert forall|i: int| 0 <= i < (p + t).len() implies #[trigger] (p + t)[i] != '\n' by {
            if i >= p.len() {
                assert((p + t)[i] == t[i - p.len()]);
            }
        }
        assert forall|i: int| 0 <= i < (p + t).len() && #[trigger] (p + t)[i] == '"' implies i > 0
            && (p + t)[i - 1] == '\\' by {
            if i >= p.len() {
                assert((p + t)[i] == t[i - p.len()]);
                if i - p.len() == 1 {
                    assert((p + t)[i - 1] == t[0]);
                }
            }
        }
    }
}

/// How many characters of `s` escaping doubles: backslashes and quotes.
pub open spec fn escaped_count(s: Seq<char>) -> nat
    decreases s.len(),
{
    if s.len() == 0 {
        0
    } else {
        escaped_count(s.drop_last()) + if s.last() == '\\' || s.last() == '"' {
            1nat
        } else {
            0nat
        }
    }
}

/// `s` with every newline replaced by a space.
pub open spec fn newlines_to_spaces(s: Seq<char>) -> Seq<char> {
    Seq::new(s.len(), |i: int| if s[i] == '\n' { ' ' } else { s[i] })
}

/// Reads escaped text left to right: a backslash and the character after it
/// stand for that character; every other character stands for itself.
pub open spec fn unescape(t: Seq<char>) -> Seq<char>
    decreases t.len(),
{
    if t.len() == 0 {
        Seq::empty()
    } else if t[0] == '\\' && t.len() >= 2 {
        seq![t[1]] + unescape(t.skip(2))
    } else {
        seq![t[0]] + unescape(t.skip(1))
    }
}

/// Escaping adds one character per backslash or quote, and reading the
/// escaped text back gives `s` with its newlines turned into spaces.
pub proof fn lemma_escape_js_roundtrip(s: Seq<char>)
    ensures
        escape_js_spec(s).len() == s.len() + escaped_count(s),
        unescape(escape_js_spec(s)) == newlines_to_spaces(s),
    decreases s.len(),
{
    lemma_escape_js_length(s);
    if s.len() > 0 {
        let c = s[0];
        let rest = s.skip(1);
        lemma_escape_js_roundtrip(rest);
        assert(s =~= seq![c] + rest);
        lemma_escape_js_concat(seq![c], rest);
        assert(seq![c].drop_last() =~= Seq::<char>::empty());
        assert(seq![c].last() == c);
        assert(escape_js_spec(Seq::<char>::empty()) =~= Seq::<char>::empty());
        assert(escape_js_spec(seq![c]) == escape_js_spec(seq![c].drop_last()) + escape_char(c));
        assert(escape_js_spec(seq![c]) =~= escape_char(c));
        let e = escape_char(c);
        let t = e + escape_js_spec(rest);
        assert(t.skip(e.len() as int) =~= escape_js_spec(rest));
        assert(newlines_to_spaces(s) =~= seq![if c == '\n' { ' ' } else { c }]
            + newlines_to_spaces(rest));
        if c == '\\' || c == '"' {
            assert(t[0] == '\\' && t[1] == c);
        } else {
            assert(t[0] != '\\');
        }
    } else {
        assert(newlines_to_spaces(s) =~= Seq::<char>::empty());
    }
}

proof fn lemma_escape_js_length(s: Seq<char>)
    ensures
        escape_js_spec(s).len() == s.len() + escaped_count(s),
    decreases s.len(),
{
    if s.len() > 0 {
        lemma_escape_js_length(s.drop_last());
    }
}

/// Body of an error reply for a failed simulation request.
pub open spec fn error_body(module: Seq<char>, detail: Seq<char>) -> Seq<char> {
    "{\"error\":\""@ + module + " failed\",\"detail\":\""@ + escape_js_spec(detail) + "\"}"@
}

/// Opening of an error reply up to and including the escaped `detail`.
pub open spec fn error_opening(module: Seq<char>, detail: Seq<char>) -> Seq<char> {
    "{\"error\":\""@ + module + " failed\",\"detail\":\""@ + escape_js_spec(detail)
}

/// Escaping works piece by piece: the escape of a concatenation is the
/// concatenation of the escapes.
pub proof fn lemma_escape_js_concat(a: Seq<char>, b: Seq<char>)
    ensures
        escape_js_spec(a + b) == escape_js_spec(a) + escape_js_spec(b),
    decreases b.len(),
{
    if b.len() == 0 {
        assert(a + b =~= a);
        assert(escape_js_spec(a) + escape_js_spec(b) =~= escape_js_spec(a));
    } else {
        lemma_escape_js_concat(a, b.drop_last());
        assert((a + b).drop_last() =~= a + b.drop_last());
        assert((a + b).last() == b.last());
        assert(escape_js_spec(a) + escape_js_spec(b.drop_last()) + escape_char(b.last())
            =~= escape_js_spec(a) + (escape_js_spec(b.drop_last()) + escape_char(b.last())));
    }
}

/// JSON reply for the outcome of a simulation request: the frames on
/// success (`200`), otherwise an error object naming the module and the
/// escaped error message (`500`).
pub fn sim_reply(module: &str, inner: Result<String, Error>) -> (r: Reply)
    ensures
        r.1@ == "application/json"@,
        match inner {
            Ok(body) => r.0 == Body::Text(body) && r.2 == 200,
            Err(e) => r.2 == 500 && (r.0 matches Body::Text(s) && error_opening(
                module@,
                e.known_prefix(),
            ).is_prefix_of(s@) && "\"}"@.is_suffix_of(s@)) && (e.text() matches Some(t)
                ==> is_text(r.0, error_body(module@, t))),
        },
{
    match inner {
        Ok(body) => (Body::Text(body), "application/json", 200),
        Err(e) => {
            let msg = e.message();
            let detail = escape_js(msg.as_str());
            let mut text = String::from_str("{\"error\":\"");
            text.append(module);
            text.append(" failed\",\"detail\":\"");
            text.append(detail.as_str());
            let ghost opened = text@;
            text.append("\"}");
            proof {
                let p = e.known_prefix();
                let rest = msg@.subrange(p.len() as int, msg@.len() as int);
                assert(msg@ =~= p + rest);
                lemma_escape_js_concat(p, rest);
                let head = "{\"error\":\""@ + module@ + " failed\",\"detail\":\""@;
                assert(opened == head + escape_js_spec(msg@));
                let o = error_opening(module@, p);
                assert(o == head + escape_js_spec(p));
                assert(opened =~= o + escape_js_spec(rest));
                assert(o =~= text@.subrange(0, o.len() as int));
                reveal_strlit("\"}");
                assert("\"}"@ =~= text@.subrange(text@.len() - 2, text@.len() as int));
            }
            (Body::Text(text), "application/json", 500)
        },
    }
}

/// Where a request path is handled.
#[derive(Clone, Copy, Debug, PartialEq, Eq, Structural)]
pub enum Route {
    Ping,
    Granular,
    Fluid,
    Acoustic,
    Static,
}

pub open spec fn route_spec(path: Seq<char>) -> Route {
    if path == "/api/ping"@ {
        Route::Ping
    } else if path == "/api/granular"@ {
        Route::Granular
    } else if path == "/api/fluid"@ {
        Route::Fluid
    } else if path == "/api/acoustic"@ {
        Route::Acoustic
    } else {
        Route::Static
    }
}

/// The handler of a request path: the three simulation endpoints, the
/// liveness probe, or a static file.
pub fn route_target(path: &str) -> (r: Route)
    ensures
        r == route_spec(path@),
{
    if str_equal(path, "/api/ping") {
        Route::Ping
    } else if str_equal(path, "/api/granular") {
        Route::Granular
    } else if str_equal(path, "/api/fluid") {
        Route::Fluid
    } else if str_equal(path, "/api/acoustic") {
        Route::Acoustic
    } else {
        Route::Static
    }
}

/// Pieces of `s` between the separators `sep`, like `str::split`: `n`
/// separators give `n + 1` pieces, and the empty text gives one empty piece.
pub open spec fn split_segments(s: Seq<char>, sep: char) -> Seq<Seq<char>>
    decreases s.len(),
{
    if s.len() == 0 {
        seq![Seq::<char>::empty()]
    } else {
        let prev = split_segments(s.drop_last(), sep);
        if s.last() == sep {
            prev.push(Seq::<char>::empty())
        } else {
            prev.update(prev.len() - 1, prev.last().push(s.last()))
        }
    }
}

pub proof fn lemma_split_segments_nonempty(s: Seq<char>, sep: char)
    ensures
        split_segments(s, sep).len() >= 1,
    decreases s.len(),
{
    if s.len() > 0 {
        lemma_split_segments_nonempty(s.drop_last(), sep);
    }
}

/// `seg` split at its first `c`, like `str::split_once`.
pub open spec fn split_once_spec(seg: Seq<char>, c: char) -> Option<(Seq<char>, Seq<char>)> {
    if exists|i: int| 0 <= i < seg.len() && seg[i] == c {
        let i = choose|i: int|
            0 <= i < seg.len() && seg[i] == c && forall|j: int| 0 <= j < i ==> seg[j] != c;
        Some((seg.take(i), seg.skip(i + 1)))
    } else {
        None
    }
}

/// The `key=value` pairs of the pieces, in order; pieces without `=` are
/// skipped.
pub open spec fn query_pairs(segs: Seq<Seq<char>>) -> Seq<(Seq<char>, Seq<char>)>
    decreases segs.len(),
{
    if segs.len() == 0 {
        Seq::empty()
    } else {
        let prev = query_pairs(segs.drop_last());
        match split_once_spec(segs.last(), '=') {
            Some(p) => prev.push(p),
            None => prev,
        }
    }
}

/// The pairs of a query string `a=1&b=2`.
pub open spec fn parse_query_spec(q: Seq<char>) -> Seq<(Seq<char>, Seq<char>)> {
    query_pairs(split_segments(q, '&'))
}

/// The value of the last pair with `key`: a later duplicate overrides an
/// earlier one.
pub open spec fn lookup(pairs: Seq<(Seq<char>, Seq<char>)>, key: Seq<char>) -> Option<Seq<char>>
    decreases pairs.len(),
{
    if pairs.len() == 0 {
        None
    } else if pairs.last().0 == key {
        Some(pairs.last().1)
    } else {
        lookup(pairs.drop_last(), key)
    }
}

/// A parsed query string: a map from parameter names to values, kept as
/// its `key=value` pairs in query order. A name given more than once maps to
/// its last value, as a `HashMap` filled in query order would.
pub struct Query {
    pairs: Vec<(String, String)>,
}

pub open spec fn pairs_view(v: Seq<(String, String)>) -> Seq<(Seq<char>, Seq<char>)> {
    v.map_values(|p: (String, String)| (p.0@, p.1@))
}

impl View for Query {
    type V = Seq<(Seq<char>, Seq<char>)>;

    closed spec fn view(&self) -> Seq<(Seq<char>, Seq<char>)> {
        pairs_view(self.pairs@)
    }
}

/// The characters of `v` from `from` to `to`.
fn sub_chars(v: &Vec<char>, from: usize, to: usize) -> (r: Vec<char>)
    requires
        from <= to <= v@.len(),
    ensures
        r@ == v@.subrange(from as int, to as int),
{
    let mut r: Vec<char> = Vec::new();
    let mut i = from;
    while i < to
        invariant
            from <= i <= to <= v@.len(),
            r@ == v@.subrange(from as int, i as int),
        decreases to - i,
    {
        r.push(v[i]);
        i = i + 1;
        assert(r@ =~= v@.subrange(from as int, i as int));
    }
    r
}

/// Splits a piece at its first `sep`.
#[verifier::spinoff_prover]
#[verifier::rlimit(30)]
fn split_first(seg: &Vec<char>, sep: char) -> (r: Option<(String, String)>)
    ensures
        match split_once_spec(seg@, sep) {
            Some(p) => r matches Some(x) && x.0@ == p.0 && x.1@ == p.1,
            None => r is None,
        },
{
    let mut i: usize = 0;
    while i < seg.len()
        invariant
            0 <= i <= seg@.len(),
            forall|j: int| 0 <= j < i ==> seg@[j] != sep,
        decreases seg@.len() - i,
    {
        if seg[i] == sep {
            let key = sub_chars(seg, 0, i);
            let value = sub_chars(seg, i + 1, seg.len());
            proof {
                let i0 = i as int;
                assert(0 <= i0 < seg@.len() && seg@[i0] == sep);
                assert(forall|j: int| 0 <= j < i0 ==> seg@[j] != sep);
                let k = choose|k: int|
                    0 <= k < seg@.len() && seg@[k] == sep && forall|j: int|
                        0 <= j < k ==> seg@[j] != sep;
                assert(k == i0) by {
                    if k < i0 {
                        assert(seg@[k] != sep);
                    } else if k > i0 {
                        assert(seg@[i0] != sep);
                    }
                }
                assert(key@ =~= seg@.take(i0));
                assert(value@ =~= seg@.skip(i0 + 1));
            }
            return Some((string_from_chars(&key), string_from_chars(&value)));
        }
        i = i + 1;
    }
    None
}

fn push_pair(pairs: &mut Vec<(String, String)>, seg: &Vec<char>)
    ensures
        pairs_view(final(pairs)@) == match split_once_spec(seg@, '=') {
            Some(p) => pairs_view(old(pairs)@).push(p),
            None => pairs_view(old(pairs)@),
        },
{
    match split_first(seg, '=') {
        Some(p) => {
            pairs.push(p);
            assert(pairs_view(pairs@) =~= pairs_view(old(pairs)@).push((p.0@, p.1@)));
        },
        None => {},
    }
}

/// Parses a query string `a=1&b=2` (no percent-decoding: every accepted
/// parameter is numeric).
pub fn parse_query(q: &str) -> (r: Query)
    ensures
        r@ == parse_query_spec(q@),
{
    let cs = chars_of(q);
    let mut pairs: Vec<(String, String)> = Vec::new();
    let mut cur: Vec<char> = Vec::new();
    let mut i: usize = 0;
    proof {
        assert(cs@.take(0) =~= Seq::<char>::empty());
    }
    while i < cs.len()
        invariant
            cs@ == q@,
            0 <= i <= cs@.len(),
            split_segments(cs@.take(i as int), '&').len() >= 1,
            pairs_view(pairs@) == query_pairs(split_segments(cs@.take(i as int), '&').drop_last()),
            cur@ == split_segments(cs@.take(i as int), '&').last(),
        decreases cs@.len() - i,
    {
        let c = cs[i];
        let ghost old_segs = split_segments(cs@.take(i as int), '&');
        proof {
            assert(cs@.take(i + 1).drop_last() =~= cs@.take(i as int));
            assert(cs@.take(i + 1).last() == c);
        }
        if c == '&' {
            push_pair(&mut pairs, &cur);
            cur = Vec::new();
            proof {
                let segs = split_segments(cs@.take(i + 1), '&');
                assert(segs == old_segs.push(Seq::<char>::empty()));
                assert(segs.drop_last() =~= old_segs);
                assert(old_segs.drop_last().push(old_segs.last()) =~= old_segs);
                assert(cur@ =~= segs.last());
            }
        } else {
            cur.push(c);
            proof {
                let segs = split_segments(cs@.take(i + 1), '&');
                assert(segs == old_segs.update(old_segs.len() - 1, old_segs.last().push(c)));
                assert(segs.drop_last() =~= old_segs.drop_last());
            }
        }
        i = i + 1;
    }
    push_pair(&mut pairs, &cur);
    proof {
        let segs = split_segments(cs@.take(i as int), '&');
        assert(cs@.take(i as int) =~= cs@);
        assert(segs.drop_last().push(segs.last()) =~= segs);
    }
    Query { pairs }
}

/// A request URL split into its path and its parsed query: the query is
/// what follows the first `?`, and empty when there is none.
pub open spec fn url_parts(url: Seq<char>) -> (Seq<char>, Seq<(Seq<char>, Seq<char>)>) {
    match split_once_spec(url, '?') {
        Some(p) => (p.0, parse_query_spec(p.1)),
        None => (url, Seq::empty()),
    }
}

/// Splits a request URL into its path and its parsed query.
pub fn split_url(url: &str) -> (r: (String, Query))
    ensures
        (r.0@, r.1@) == url_parts(url@),
{
    let cs = chars_of(url);
    match split_first(&cs, '?') {
        Some((path, query)) => {
            let q = parse_query(query.as_str());
            (path, q)
        },
        None => {
            let q = Query { pairs: Vec::new() };
            proof {
                assert(q@ =~= Seq::<(Seq<char>, Seq<char>)>::empty());
            }
            (string_from_chars(&cs), q)
        },
    }
}

impl Query {
    /// The value of `key`; where the key repeats, the last one.
    pub fn get(&self, key: &str) -> (r: Option<&String>)
        ensures
            match lookup(self@, key@) {
                Some(v) => r matches Some(s) && s@ == v,
                None => r is None,
            },
    {
        let mut i = self.pairs.len();
        proof {
            assert(self@.take(i as int) =~= self@);
        }
        while i > 0
            invariant
                0 <= i <= self.pairs@.len(),
                self@ == pairs_view(self.pairs@),
                lookup(self@, key@) == lookup(self@.take(i as int), key@),
            decreases i,
        {
            let k = &self.pairs[i - 1].0;
            proof {
                assert(self@.take(i as int).last() == (k@, self.pairs@[i - 1].1@));
                assert(self@.take(i as int).drop_last() =~= self@.take(i - 1));
            }
            if str_equal(k.as_str(), key) {
                return Some(&self.pairs[i - 1].1);
            }
            i = i - 1;
        }
        None
    }
}

/// Frames kept out of `steps` when keeping every `every`-th one.
pub open spec fn frame_count(steps: u32, every: int) -> int {
    steps as int / every
}

/// The cadence at which frames are kept: the least value at or above the
/// requested `every` (and at least 1) that keeps at most `max_frames`
/// frames out of `steps`.
pub fn effective_every(steps: u32, every: u32, max_frames: u32) -> (e: u32)
    requires
        !(steps == u32::MAX && max_frames == 0),
    ensures
        e >= every,
        e >= 1,
        steps / e <= max_frames,
        forall|f: int| (if every >= 1 { every as int } else { 1 }) <= f < e ==> #[trigger] frame_count(steps, f) > max_frames,
{
    let start: u32 = if every >= 1 {
        every
    } else {
        1
    };
    let mut e = start;
    while steps / e > max_frames
        invariant
            start <= e,
            start >= 1,
            start == (if every >= 1 { every as int } else { 1 }),
            !(steps == u32::MAX && max_frames == 0),
            forall|f: int| start <= f < e ==> #[trigger] frame_count(steps, f) > max_frames,
        decreases steps as int + 1 - e as int,
    {
        assert(e <= steps) by (nonlinear_arith)
            requires
                steps / e > max_frames,
                e >= 1,
        ;
        assert(e < u32::MAX);
        e = e + 1;
    }
    e
}

/// How many of the steps `1..=steps` of a run keep a frame at cadence
/// `every`.
pub open spec fn kept_steps(steps: nat, every: int) -> nat
    decreases steps,
{
    if steps == 0 {
        0
    } else {
        kept_steps((steps - 1) as nat, every) + if steps as int % every == 0 {
            1nat
        } else {
            0nat
        }
    }
}

/// Whether the frame produced by step number `step` (counting from 1) is
/// kept at cadence `every`.
pub fn keeps_frame(step: u32, every: u32) -> (b: bool)
    requires
        every >= 1,
    ensures
        b == (step as int % every as int == 0),
{
    step % every == 0
}

/// A run of `steps` steps keeps exactly `frame_count(steps, every)` frames;
/// with the cadence of `effective_every` that is at most `max_frames`.
pub proof fn lemma_kept_steps(steps: u32, every: int)
    requires
        every >= 1,
    ensures
        kept_steps(steps as nat, every) == frame_count(steps, every),
{
    lemma_kept_steps_nat(steps as nat, every);
}

proof fn lemma_kept_steps_nat(n: nat, every: int)
    requires
        every >= 1,
    ensures
        kept_steps(n, every) == n as int / every,
    decreases n,
{
    if n > 0 {
        let m = (n - 1) as int;
        lemma_kept_steps_nat((n - 1) as nat, every);
        let q = m / every;
        let r = m % every;
        lemma_fundamental_div_mod(m, every);
        if r + 1 == every {
            assert(n as int == every * (q + 1) + 0) by (nonlinear_arith)
                requires
                    m == every * q + r,
                    r + 1 == every,
                    n as int == m + 1,
            ;
            lemma_fundamental_div_mod_converse(n as int, every, q + 1, 0);
        } else {
            assert(n as int == every * q + (r + 1)) by (nonlinear_arith)
                requires
                    m == every * q + r,
                    n as int == m + 1,
            ;
            lemma_fundamental_div_mod_converse(n as int, every, q, r + 1);
        }
    }
}

/// Extension of a path: the text after its last `.`, or the whole path
/// when it has none.
pub open spec fn extension(p: Seq<char>) -> Seq<char> {
    if exists|i: int| 0 <= i < p.len() && p[i] == '.' {
        let i = choose|i: int|
            0 <= i < p.len() && p[i] == '.' && forall|j: int| i < j < p.len() ==> p[j] != '.';
        p.skip(i + 1)
    } else {
        p
    }
}

/// Content type served for an extension.
pub open spec fn mime_spec(ext: Seq<char>) -> Seq<char> {
    if ext == "html"@ {
        "text/html"@
    } else if ext == "js"@ || ext == "mjs"@ {
        "text/javascript"@
    } else if ext == "css"@ {
        "text/css"@
    } else if ext == "json"@ {
        "application/json"@
    } else if ext == "gz"@ {
        "application/gzip"@
    } else if ext == "svg"@ {
        "image/svg+xml"@
    } else if ext == "png"@ {
        "image/png"@
    } else if ext == "ico"@ {
        "image/x-icon"@
    } else {
        "application/octet-stream"@
    }
}

fn is_ext(ext: &Vec<char>, name: &str) -> (r: bool)
    ensures
        r == (ext@ == name@),
{
    let n = chars_of(name);
    chars_equal(ext, &n)
}

/// Content type of a static file, chosen by its extension.
pub fn mime_of(path: &str) -> (m: &'static str)
    ensures
        m@ == mime_spec(extension(path@)),
{
    let cs = chars_of(path);
    let mut i = cs.len();
    while i > 0 && cs[i - 1] != '.'
        invariant
            cs@ == path@,
            0 <= i <= cs@.len(),
            forall|j: int| i <= j < cs@.len() ==> cs@[j] != '.',
        decreases i,
    {
        i = i - 1;
    }
    let ext = if i > 0 {
        sub_chars(&cs, i, cs.len())
    } else {
        sub_chars(&cs, 0, cs.len())
    };
    proof {
        if i > 0 {
            let d0 = i - 1;
            assert(0 <= d0 < cs@.len() && cs@[d0] == '.');
            assert(forall|j: int| d0 < j < cs@.len() ==> cs@[j] != '.');
            let k = choose|k: int|
                0 <= k < cs@.len() && cs@[k] == '.' && forall|j: int|
                    k < j < cs@.len() ==> cs@[j] != '.';
            assert(k == d0) by {
                if k < d0 {
                    assert(cs@[d0] != '.');
                } else if k > d0 {
                    assert(cs@[k] != '.');
                }
            }
            assert(ext@ =~= cs@.skip(d0 + 1));
        } else {
            assert(ext@ =~= cs@);
        }
    }
    if is_ext(&ext, "html") {
        "text/html"
    } else if is_ext(&ext, "js") || is_ext(&ext, "mjs") {
        "text/javascript"
    } else if is_ext(&ext, "css") {
        "text/css"
    } else if is_ext(&ext, "json") {
        "application/json"
    } else if is_ext(&ext, "gz") {
        "application/gzip"
    } else if is_ext(&ext, "svg") {
        "image/svg+xml"
    } else if is_ext(&ext, "png") {
        "image/png"
    } else if is_ext(&ext, "ico") {
        "image/x-icon"
    } else {
        "application/octet-stream"
    }
}

/// A path that every platform splits in the same way: it begins with one
/// `/` and holds no `\\` and no `:`, so it has no drive, verbatim or
/// network prefix, and `/` is its only separator.
pub open spec fn plain_absolute(p: Seq<char>) -> bool {
    &&& p.len() >= 1 && p[0] == '/'
    &&& !(p.len() >= 2 && p[1] == '/')
    &&& !p.contains('\\')
    &&& !p.contains(':')
}

/// The named components of a path: the pieces between `/` separators,
/// without the empty pieces that repeated or trailing separators leave and
/// without `.`.
pub open spec fn components(p: Seq<char>) -> Seq<Seq<char>> {
    split_segments(p, '/').filter(|c: Seq<char>| c.len() > 0 && c != seq!['.'])
}

/// Whether `path` lies under `base`, component by component
/// (`std::path::Path::starts_with`).
///
/// A path lies under itself. For two plain absolute paths (see
/// `plain_absolute`) the result is whether the components of `base` are the
/// first components of `path`, on every platform; other paths are split by
/// each platform's own separators and prefixes, and nothing more is claimed
/// of them.
#[verifier::external_body]
fn path_starts_with(path: &str, base: &str) -> (b: bool)
    ensures
        path@ == base@ ==> b,
        plain_absolute(path@) && plain_absolute(base@) ==> (b == components(base@).is_prefix_of(
            components(path@),
        )),
{
    std::path::Path::new(path).starts_with(base)
}

/// Whether a requested file may be served: `candidate` and `root` are the
/// canonical forms of the file and of the site root, `None` where
/// canonicalization failed. A file that does not exist is let through (the
/// read then fails); an unresolvable root refuses everything else; an
/// existing file is served only when it lies under the root, so one that a
/// `..` or a link leads outside it is refused.
pub fn safe_under(root: Option<&str>, candidate: Option<&str>) -> (ok: bool)
    ensures
        candidate is None ==> ok,
        candidate is Some && root is None ==> !ok,
        candidate matches Some(c) && root matches Some(r) && c@ == r@ ==> ok,
        match (candidate, root) {
            (Some(c), Some(r)) => plain_absolute(c@) && plain_absolute(r@) ==> ok == components(
                r@,
            ).is_prefix_of(components(c@)),
            _ => true,
        },
{
    match candidate {
        None => true,
        Some(c) => match root {
            None => false,
            Some(r) => path_starts_with(c, r),
        },
    }
}

/// The file a static request names: `/` serves the index page.
pub fn site_relative(path: &str) -> (rel: &str)
    ensures
        path@ == "/"@ ==> rel@ == "/index.html"@,
        path@ != "/"@ ==> rel@ == path@,
{
    if str_equal(path, "/") {
        "/index.html"
    } else {
        path
    }
}

/// Reply to a static request for `rel`: `403` outside the site root, the
/// file's bytes with its content type when it could be read, `404`
/// otherwise.
pub fn static_reply(rel: &str, safe: bool, contents: Option<Vec<u8>>) -> (r: Reply)
    ensures
        !safe ==> is_text(r.0, "forbidden"@) && r.1@ == "text/plain"@ && r.2 == 403,
        safe && contents is Some ==> r.0 == Body::Bytes(contents->0) && r.1@ == mime_spec(
            extension(rel@),
        ) && r.2 == 200,
        safe && contents is None ==> is_text(r.0, "not found"@) && r.1@ == "text/plain"@ && r.2
            == 404,
{
    if !safe {
        return (Body::Text(String::from_str("forbidden")), "text/plain", 403);
    }
    match contents {
        Some(bytes) => (Body::Bytes(bytes), mime_of(rel), 200),
        None => (Body::Text(String::from_str("not found")), "text/plain", 404),
    }
}

} // verus!
