//! AWS Signature Version 4 verification for the S3-compatible endpoint:
//! query-string decoding, canonical requests, string-to-sign, signing keys,
//! and the accept/reject decision for header and pre-signed-URL requests.

use vstd::prelude::*;
use crate::text;
use crate::text::{
    chars_eq, chars_from, chars_range, find_chars, join_chars, push_all, split_chars, str_chars,
    string_from_chars,
};

verus! {

broadcast use text::lemma_chars_deep_view;

// ---------------------------------------------------------------------------
// Percent decoding
// ---------------------------------------------------------------------------

/// Value of a hexadecimal digit.
pub open spec fn hex_digit_value(c: char) -> Option<nat> {
    if '0' <= c && c <= '9' {
        Some(((c as u32) - 48) as nat)
    } else if 'a' <= c && c <= 'f' {
        Some(((c as u32) - 87) as nat)
    } else if 'A' <= c && c <= 'F' {
        Some(((c as u32) - 55) as nat)
    } else {
        None
    }
}

/// What `u8::from_str_radix(h, 16)` gives for a string of at most two
/// characters: an optional `'+'` followed by one or two hex digits.
pub open spec fn hex_byte(h: Seq<char>) -> Option<u8> {
    let body = if h.len() > 0 && h[0] == '+' { h.drop_first() } else { h };
    if body.len() == 1 && hex_digit_value(body[0]) is Some {
        Some(hex_digit_value(body[0])->0 as u8)
    } else if body.len() == 2 && hex_digit_value(body[0]) is Some && hex_digit_value(body[1]) is Some {
        Some((hex_digit_value(body[0])->0 * 16 + hex_digit_value(body[1])->0) as u8)
    } else {
        None
    }
}

/// Percent decoding as the S3 endpoint does it: `%` takes up to two more
/// characters; when they form a hex byte the byte is emitted as the character
/// with that code, otherwise the `%` and the taken characters are dropped.
pub open spec fn url_decode_spec(s: Seq<char>) -> Seq<char>
    decreases s.len(),
{
    if s.len() == 0 {
        Seq::empty()
    } else if s[0] == '%' {
        let end: int = if s.len() >= 3 { 3 } else { s.len() as int };
        let rest = s.subrange(end, s.len() as int);
        match hex_byte(s.subrange(1, end)) {
            Some(b) => seq![(b as char)] + url_decode_spec(rest),
            None => url_decode_spec(rest),
        }
    } else {
        seq![s[0]] + url_decode_spec(s.drop_first())
    }
}

/// Decoding leaves a string without `%` unchanged.
pub proof fn lemma_url_decode_plain(s: Seq<char>)
    requires
        !s.contains('%'),
    ensures
        url_decode_spec(s) == s,
    decreases s.len(),
{
    if s.len() > 0 {
        assert(s[0] != '%') by {
            assert(s.contains(s[0]));
        }
        let t = s.drop_first();
        assert(!t.contains('%')) by {
            if t.contains('%') {
                let k = choose|k: int| 0 <= k < t.len() && t[k] == '%';
                assert(s[k + 1] == '%');
            }
        }
        lemma_url_decode_plain(t);
        assert(seq![s[0]] + t =~= s);
    }
}

fn hex_digit_of(c: char) -> (r: Option<u32>)
    ensures
        match r {
            Some(v) => hex_digit_value(c) == Some(v as nat) && v < 16,
            None => hex_digit_value(c) is None,
        },
{
    if '0' <= c && c <= '9' {
        Some((c as u32) - 48)
    } else if 'a' <= c && c <= 'f' {
        Some((c as u32) - 87)
    } else if 'A' <= c && c <= 'F' {
        Some((c as u32) - 55)
    } else {
        None
    }
}

/// `u8::from_str_radix(h, 16)` for the at most two characters after a `%`.
fn hex_byte_of(h: &[char]) -> (r: Option<u8>)
    requires
        h.len() <= 2,
    ensures
        r == hex_byte(h@),
{
    let start: usize = if h.len() > 0 && h[0] == '+' { 1 } else { 0 };
    let ghost body = if h@.len() > 0 && h@[0] == '+' { h@.drop_first() } else { h@ };
    assert(body =~= h@.subrange(start as int, h@.len() as int));
    let len = h.len() - start;
    if len == 1 {
        match hex_digit_of(h[start]) {
            Some(v) => {
                assert(body[0] == h@[start as int]);
                Some(v as u8)
            },
            None => {
                assert(body[0] == h@[start as int]);
                None
            },
        }
    } else if len == 2 {
        assert(body[0] == h@[start as int]);
        assert(body[1] == h@[start + 1]);
        match hex_digit_of(h[start]) {
            Some(a) => match hex_digit_of(h[start + 1]) {
                Some(b) => Some((a * 16 + b) as u8),
                None => None,
            },
            None => None,
        }
    } else {
        None
    }
}

/// Percent decoding (see [`url_decode_spec`]).
pub fn url_decode(s: &[char]) -> (r: Vec<char>)
    ensures
        r@ == url_decode_spec(s@),
{
    let mut out: Vec<char> = Vec::new();
    let mut i: usize = 0;
    let n = s.len();
    assert(s@.subrange(0, n as int) =~= s@);
    while i < n
        invariant
            i <= n,
            n == s.len(),
            out@ + url_decode_spec(s@.subrange(i as int, n as int)) == url_decode_spec(s@),
        decreases n - i,
    {
        let ghost t = s@.subrange(i as int, n as int);
        let c = s[i];
        assert(t[0] == c);
        if c == '%' {
            let end: usize = if n - i >= 3 { i + 3 } else { n };
            let h = chars_range(s, i + 1, end);
            assert(h@ =~= t.subrange(1, (end - i) as int));
            assert(t.subrange((end - i) as int, t.len() as int) =~= s@.subrange(end as int, n as int));
            let ghost pre = out@;
            match hex_byte_of(&h) {
                Some(b) => {
                    out.push(b as char);
                    assert(out@ + url_decode_spec(s@.subrange(end as int, n as int)) =~= pre + (seq![(b as char)] + url_decode_spec(s@.subrange(end as int, n as int))));
                },
                None => {},
            }
            i = end;
        } else {
            let ghost pre = out@;
            out.push(c);
            assert(t.drop_first() =~= s@.subrange(i + 1, n as int));
            assert(out@ + url_decode_spec(s@.subrange(i + 1, n as int)) =~= pre + (seq![c] + url_decode_spec(t.drop_first())));
            i = i + 1;
        }
    }
    assert(s@.subrange(n as int, n as int) =~= Seq::<char>::empty());
    assert(out@ + Seq::<char>::empty() =~= out@);
    out
}

// ---------------------------------------------------------------------------
// Query parameters
// ---------------------------------------------------------------------------

/// The map a list of key/value pairs builds when later pairs overwrite
/// earlier ones (as repeated `HashMap::insert`).
pub open spec fn pairs_map(ps: Seq<(Seq<char>, Seq<char>)>) -> Map<Seq<char>, Seq<char>>
    decreases ps.len(),
{
    if ps.len() == 0 {
        Map::empty()
    } else {
        pairs_map(ps.drop_last()).insert(ps.last().0, ps.last().1)
    }
}

/// `m` with the pairs inserted one after another (later pairs win).
pub open spec fn pairs_map_over(m: Map<Seq<char>, Seq<char>>, ps: Seq<(Seq<char>, Seq<char>)>) -> Map<Seq<char>, Seq<char>>
    decreases ps.len(),
{
    if ps.len() == 0 {
        m
    } else {
        pairs_map_over(m, ps.drop_last()).insert(ps.last().0, ps.last().1)
    }
}

/// One `key=value` piece of a query string, both sides percent-decoded; a
/// piece without `=` is a key with an empty value.
pub open spec fn decoded_query_pair(piece: Seq<char>) -> (Seq<char>, Seq<char>) {
    match text::find_from(piece, seq!['='], 0) {
        Some(i) => (
            url_decode_spec(piece.subrange(0, i)),
            url_decode_spec(piece.subrange(i + 1, piece.len() as int)),
        ),
        None => (url_decode_spec(piece), Seq::empty()),
    }
}

/// The decoded pairs of a query string, in order.
pub open spec fn decoded_query_pairs(query: Seq<char>) -> Seq<(Seq<char>, Seq<char>)> {
    text::split_by(query, seq!['&']).map_values(|p: Seq<char>| decoded_query_pair(p))
}

/// The parameters of a query string as `parse_query_string` reads them.
pub open spec fn spec_query_params(query: Seq<char>) -> Map<Seq<char>, Seq<char>> {
    pairs_map(decoded_query_pairs(query))
}

/// Decoded query parameters; a key that occurs more than once keeps its last
/// value.
pub struct QueryParams {
    pairs: Vec<(Vec<char>, Vec<char>)>,
}

impl View for QueryParams {
    type V = Map<Seq<char>, Seq<char>>;

    closed spec fn view(&self) -> Map<Seq<char>, Seq<char>> {
        pairs_map(self.pairs.deep_view())
    }
}

proof fn lemma_pairs_map_last(ps: Seq<(Seq<char>, Seq<char>)>, k: Seq<char>, j: int)
    requires
        0 <= j < ps.len(),
        ps[j].0 == k,
        forall|m: int| j < m < ps.len() ==> (#[trigger] ps[m]).0 != k,
    ensures
        pairs_map(ps).contains_key(k),
        pairs_map(ps)[k] == ps[j].1,
    decreases ps.len(),
{
    if j < ps.len() - 1 {
        lemma_pairs_map_last(ps.drop_last(), k, j);
        assert(ps.drop_last()[j] == ps[j]);
        assert forall|m: int| j < m < ps.drop_last().len() implies (#[trigger] ps.drop_last()[m]).0 != k by {
            assert(ps.drop_last()[m] == ps[m]);
        }
    }
}

proof fn lemma_pairs_map_absent(ps: Seq<(Seq<char>, Seq<char>)>, k: Seq<char>)
    requires
        forall|m: int| 0 <= m < ps.len() ==> (#[trigger] ps[m]).0 != k,
    ensures
        !pairs_map(ps).contains_key(k),
    decreases ps.len(),
{
    if ps.len() > 0 {
        assert forall|m: int| 0 <= m < ps.drop_last().len() implies (#[trigger] ps.drop_last()[m]).0 != k by {
            assert(ps.drop_last()[m] == ps[m]);
        }
        lemma_pairs_map_absent(ps.drop_last(), k);
    }
}

impl QueryParams {
    /// The value of `key`, if present.
    pub fn get(&self, key: &[char]) -> (r: Option<Vec<char>>)
        ensures
            match r {
                Some(v) => self@.contains_key(key@) && self@[key@] == v@,
                None => !self@.contains_key(key@),
            },
    {
        let ghost ps = self.pairs.deep_view();
        let mut i = self.pairs.len();
        while i > 0
            invariant
                i <= self.pairs.len(),
                ps == self.pairs.deep_view(),
                forall|m: int| i <= m < ps.len() ==> (#[trigger] ps[m]).0 != key@,
            decreases i,
        {
            let j = i - 1;
            if chars_eq(&self.pairs[j].0, key) {
                proof {
                    assert(ps[j as int].0 == self.pairs@[j as int].0@);
                    lemma_pairs_map_last(ps, key@, j as int);
                }
                let v = self.pairs[j].1.clone();
                assert(ps[j as int].1 == self.pairs@[j as int].1@);
                return Some(v);
            }
            assert(ps[j as int].0 == self.pairs@[j as int].0@);
            i = j;
        }
        proof {
            lemma_pairs_map_absent(ps, key@);
        }
        None
    }

    /// The value of `key` as a `String`, if present.
    pub fn get_str(&self, key: &str) -> (r: Option<String>)
        ensures
            match r {
                Some(v) => self@.contains_key(key@) && self@[key@] == v@,
                None => !self@.contains_key(key@),
            },
    {
        let k = str_chars(key);
        match self.get(&k) {
            Some(v) => Some(string_from_chars(&v)),
            None => None,
        }
    }
}

fn decode_query_pair(piece: &[char]) -> (r: (Vec<char>, Vec<char>))
    ensures
        (r.0@, r.1@) == decoded_query_pair(piece@),
{
    let eq: [char; 1] = ['='];
    assert(eq@ =~= seq!['=']);
    match find_chars(piece, &eq, 0) {
        Some(i) => {
            proof {
                text::lemma_find_from(piece@, seq!['='], 0);
            }
            let k = chars_range(piece, 0, i);
            let v = chars_from(piece, i + 1);
            (url_decode(&k), url_decode(&v))
        },
        None => (url_decode(piece), Vec::new()),
    }
}

/// Parse a query string into decoded key/value pairs; later keys overwrite
/// earlier ones.
pub fn parse_query_string(query: &str) -> (r: QueryParams)
    ensures
        r@ == spec_query_params(query@),
{
    let q = str_chars(query);
    let amp: [char; 1] = ['&'];
    assert(amp@ =~= seq!['&']);
    let pieces = split_chars(&q, &amp);
    let ghost pv = pieces.deep_view();
    let mut pairs: Vec<(Vec<char>, Vec<char>)> = Vec::new();
    let mut i: usize = 0;
    while i < pieces.len()
        invariant
            i <= pieces.len(),
            pv == pieces.deep_view(),
            pv == text::split_by(query@, seq!['&']),
            pairs.deep_view() == pv.subrange(0, i as int).map_values(|p: Seq<char>| decoded_query_pair(p)),
        decreases pieces.len() - i,
    {
        let pair = decode_query_pair(&pieces[i]);
        let ghost before = pairs.deep_view();
        let ghost pair_view = (pair.0@, pair.1@);
        pairs.push(pair);
        assert(pieces@[i as int]@ == pv[i as int]);
        assert(pairs.deep_view() =~= before.push(pair_view));
        assert(pv.subrange(0, i + 1).map_values(|p: Seq<char>| decoded_query_pair(p)) =~= pv.subrange(0, i as int).map_values(|p: Seq<char>| decoded_query_pair(p)).push(decoded_query_pair(pv[i as int])));
        i = i + 1;
    }
    assert(pv.subrange(0, i as int) =~= pv);
    QueryParams { pairs }
}

// ---------------------------------------------------------------------------
// Canonical query strings
// ---------------------------------------------------------------------------

/// Strict lexicographic order on character sequences by code point (the
/// order of `str` comparison).
pub open spec fn seq_lt(a: Seq<char>, b: Seq<char>) -> bool
    decreases a.len(),
{
    if a.len() == 0 {
        b.len() > 0
    } else if b.len() == 0 {
        false
    } else if a[0] < b[0] {
        true
    } else if a[0] > b[0] {
        false
    } else {
        seq_lt(a.drop_first(), b.drop_first())
    }
}

/// Where stable insertion puts `x` into `s`: after every element whose key
/// is not greater than the key of `x`, scanning from the end.
pub open spec fn insert_pos(s: Seq<(Seq<char>, Seq<char>)>, x: (Seq<char>, Seq<char>)) -> int
    decreases s.len(),
{
    if s.len() == 0 {
        0
    } else if seq_lt(x.0, s.last().0) {
        insert_pos(s.drop_last(), x)
    } else {
        s.len() as int
    }
}

/// Pairs stably sorted by key (as `sort_by(|a, b| a.0.cmp(b.0))`).
pub open spec fn sort_by_key(s: Seq<(Seq<char>, Seq<char>)>) -> Seq<(Seq<char>, Seq<char>)>
    decreases s.len(),
{
    if s.len() == 0 {
        s
    } else {
        let sorted = sort_by_key(s.drop_last());
        sorted.insert(insert_pos(sorted, s.last()), s.last())
    }
}

/// The raw (undecoded) pair of one query piece, split at the first `=`.
pub open spec fn raw_query_pair(piece: Seq<char>) -> (Seq<char>, Seq<char>) {
    match text::find_from(piece, seq!['='], 0) {
        Some(i) => (piece.subrange(0, i), piece.subrange(i + 1, piece.len() as int)),
        None => (piece, Seq::empty()),
    }
}

/// The raw pairs of a query string with every pair whose key is
/// `X-Amz-Signature` (and that has an `=`) left out.
pub open spec fn unsigned_query_pairs(pieces: Seq<Seq<char>>) -> Seq<(Seq<char>, Seq<char>)>
    decreases pieces.len(),
{
    if pieces.len() == 0 {
        Seq::empty()
    } else {
        let rest = unsigned_query_pairs(pieces.drop_last());
        let piece = pieces.last();
        let p = raw_query_pair(piece);
        if text::find_from(piece, seq!['='], 0) is Some && p.0 == "X-Amz-Signature"@ {
            rest
        } else {
            rest.push(p)
        }
    }
}

/// `key=value` pieces joined with `&`.
pub open spec fn render_pairs(ps: Seq<(Seq<char>, Seq<char>)>) -> Seq<char> {
    text::join_with(ps.map_values(|p: (Seq<char>, Seq<char>)| p.0 + seq!['='] + p.1), seq!['&'])
}

/// The canonical query string of a pre-signed URL: the raw pairs without the
/// signature, stably sorted by key, joined again.
pub open spec fn spec_canonical_query(query: Seq<char>) -> Seq<char> {
    render_pairs(sort_by_key(unsigned_query_pairs(text::split_by(query, seq!['&']))))
}

/// The canonical query string of a header-signed request: all raw pairs,
/// stably sorted by key; empty when the query is.
pub open spec fn spec_header_canonical_query(query: Seq<char>) -> Seq<char> {
    if query.len() == 0 {
        Seq::empty()
    } else {
        render_pairs(
            sort_by_key(text::split_by(query, seq!['&']).map_values(|p: Seq<char>| raw_query_pair(p))),
        )
    }
}

/// Whether `a` sorts strictly before `b`.
pub fn chars_lt(a: &[char], b: &[char]) -> (r: bool)
    ensures
        r == seq_lt(a@, b@),
{
    let mut i: usize = 0;
    assert(a@.subrange(0, a@.len() as int) =~= a@);
    assert(b@.subrange(0, b@.len() as int) =~= b@);
    while i < a.len() && i < b.len() && a[i] == b[i]
        invariant
            i <= a.len(),
            i <= b.len(),
            seq_lt(a@, b@) == seq_lt(a@.subrange(i as int, a@.len() as int), b@.subrange(i as int, b@.len() as int)),
        decreases a.len() - i,
    {
        assert(a@.subrange(i as int, a@.len() as int).drop_first() =~= a@.subrange(i + 1, a@.len() as int));
        assert(b@.subrange(i as int, b@.len() as int).drop_first() =~= b@.subrange(i + 1, b@.len() as int));
        i = i + 1;
    }
    let ghost sa = a@.subrange(i as int, a@.len() as int);
    let ghost sb = b@.subrange(i as int, b@.len() as int);
    if i == a.len() {
        assert(sa.len() == 0);
        i < b.len()
    } else if i == b.len() {
        assert(sb.len() == 0 && sa.len() > 0);
        false
    } else {
        assert(sa.len() > 0 && sb.len() > 0);
        assert(sa[0] == a@[i as int] && sb[0] == b@[i as int]);
        a[i] < b[i]
    }
}

/// Stable insertion sort of pairs by key.
fn sort_pairs_by_key(v: Vec<(Vec<char>, Vec<char>)>) -> (r: Vec<(Vec<char>, Vec<char>)>)
    ensures
        r.deep_view() == sort_by_key(v.deep_view()),
{
    let ghost vv = v.deep_view();
    let mut sorted: Vec<(Vec<char>, Vec<char>)> = Vec::new();
    let mut i: usize = 0;
    assert(vv.subrange(0, 0) =~= Seq::<(Seq<char>, Seq<char>)>::empty());
    while i < v.len()
        invariant
            i <= v.len(),
            vv == v.deep_view(),
            sorted.deep_view() == sort_by_key(vv.subrange(0, i as int)),
        decreases v.len() - i,
    {
        let x = (v[i].0.clone(), v[i].1.clone());
        let ghost xv = vv[i as int];
        assert(x.deep_view() == xv) by {
            assert(x.0@ == v@[i as int].0@);
            assert(x.1@ == v@[i as int].1@);
        }
        let ghost sv = sorted.deep_view();
        let mut j = sorted.len();
        assert(sv.subrange(0, j as int) =~= sv);
        while j > 0 && chars_lt(&x.0, &sorted[j - 1].0)
            invariant
                j <= sorted.len(),
                sv == sorted.deep_view(),
                x.deep_view() == xv,
                insert_pos(sv, xv) == insert_pos(sv.subrange(0, j as int), xv),
            decreases j,
        {
            assert(sv.subrange(0, j as int).drop_last() =~= sv.subrange(0, j - 1));
            assert(sv.subrange(0, j as int).last() == sv[j - 1]);
            assert(sorted@[j - 1].0@ == sv[j - 1].0);
            j = j - 1;
        }
        proof {
            if j > 0 {
                assert(sorted@[j - 1].0@ == sv[j - 1].0);
                assert(sv.subrange(0, j as int).last() == sv[j - 1]);
            }
            assert(insert_pos(sv.subrange(0, j as int), xv) == j as int);
        }
        sorted.insert(j, x);
        let ghost next = vv.subrange(0, i + 1);
        assert(next.drop_last() =~= vv.subrange(0, i as int));
        assert(next.last() == xv);
        assert(sorted.deep_view() =~= sv.insert(j as int, xv));
        i = i + 1;
    }
    assert(vv.subrange(0, i as int) =~= vv);
    sorted
}

/// Render pairs as `k=v` joined by `&`.
fn render_pair_list(ps: &Vec<(Vec<char>, Vec<char>)>) -> (r: Vec<char>)
    ensures
        r@ == render_pairs(ps.deep_view()),
{
    let mut pieces: Vec<Vec<char>> = Vec::new();
    let mut i: usize = 0;
    while i < ps.len()
        invariant
            i <= ps.len(),
            pieces.deep_view() == ps.deep_view().subrange(0, i as int).map_values(|p: (Seq<char>, Seq<char>)| p.0 + seq!['='] + p.1),
        decreases ps.len() - i,
    {
        let mut piece = ps[i].0.clone();
        piece.push('=');
        push_all(&mut piece, &ps[i].1);
        let ghost before = pieces.deep_view();
        let ghost pv = piece@;
        pieces.push(piece);
        assert(ps.deep_view()[i as int] == (ps@[i as int].0@, ps@[i as int].1@));
        assert(pv == ps@[i as int].0@ + seq!['='] + ps@[i as int].1@);
        assert(pieces.deep_view() =~= before.push(pv));
        assert(ps.deep_view().subrange(0, i + 1).map_values(|p: (Seq<char>, Seq<char>)| p.0 + seq!['='] + p.1)
            =~= ps.deep_view().subrange(0, i as int).map_values(|p: (Seq<char>, Seq<char>)| p.0 + seq!['='] + p.1).push(pv));
        i = i + 1;
    }
    assert(ps.deep_view().subrange(0, i as int) =~= ps.deep_view());
    let amp: [char; 1] = ['&'];
    assert(amp@ =~= seq!['&']);
    join_chars(&pieces, &amp)
}

fn split_raw_pair(piece: &[char]) -> (r: (Option<usize>, Vec<char>, Vec<char>))
    ensures
        (r.1@, r.2@) == raw_query_pair(piece@),
        match r.0 {
            Some(i) => text::find_from(piece@, seq!['='], 0) == Some(i as int),
            None => text::find_from(piece@, seq!['='], 0) == None::<int>,
        },
{
    let eq: [char; 1] = ['='];
    assert(eq@ =~= seq!['=']);
    match find_chars(piece, &eq, 0) {
        Some(i) => {
            proof {
                text::lemma_find_from(piece@, seq!['='], 0);
            }
            (Some(i), chars_range(piece, 0, i), chars_from(piece, i + 1))
        },
        None => {
            let mut k: Vec<char> = Vec::new();
            push_all(&mut k, piece);
            (None, k, Vec::new())
        },
    }
}

/// The canonical query string of a pre-signed URL, built from the raw query
/// (no decode and re-encode): pairs other than `X-Amz-Signature`, stably
/// sorted by key, as `k=v` joined with `&`. The decoded parameters are not
/// consulted.
pub fn build_canonical_query_string(query: &str, params: &QueryParams) -> (r: String)
    ensures
        r@ == spec_canonical_query(query@),
{
    let q = str_chars(query);
    let amp: [char; 1] = ['&'];
    assert(amp@ =~= seq!['&']);
    let pieces = split_chars(&q, &amp);
    let ghost pv = pieces.deep_view();
    let sig = str_chars("X-Amz-Signature");
    let mut pairs: Vec<(Vec<char>, Vec<char>)> = Vec::new();
    let mut i: usize = 0;
    assert(pv.subrange(0, 0) =~= Seq::<Seq<char>>::empty());
    while i < pieces.len()
        invariant
            i <= pieces.len(),
            pv == pieces.deep_view(),
            sig@ == "X-Amz-Signature"@,
            pairs.deep_view() == unsigned_query_pairs(pv.subrange(0, i as int)),
        decreases pieces.len() - i,
    {
        let (found, k, v) = split_raw_pair(&pieces[i]);
        let ghost next = pv.subrange(0, i + 1);
        assert(next.drop_last() =~= pv.subrange(0, i as int));
        assert(next.last() == pieces@[i as int]@);
        let drop = found.is_some() && chars_eq(&k, &sig);
        if !drop {
            let ghost before = pairs.deep_view();
            let ghost kv = (k@, v@);
            pairs.push((k, v));
            assert(pairs.deep_view() =~= before.push(kv));
        }
        i = i + 1;
    }
    assert(pv.subrange(0, i as int) =~= pv);
    let sorted = sort_pairs_by_key(pairs);
    let out = render_pair_list(&sorted);
    string_from_chars(&out)
}

/// The canonical query string of a header-signed request (all pairs, sorted
/// by key; empty for an empty query).
pub fn header_canonical_query(query: &[char]) -> (r: Vec<char>)
    ensures
        r@ == spec_header_canonical_query(query@),
{
    if query.len() == 0 {
        return Vec::new();
    }
    let amp: [char; 1] = ['&'];
    assert(amp@ =~= seq!['&']);
    let pieces = split_chars(query, &amp);
    let ghost pv = pieces.deep_view();
    let mut pairs: Vec<(Vec<char>, Vec<char>)> = Vec::new();
    let mut i: usize = 0;
    while i < pieces.len()
        invariant
            i <= pieces.len(),
            pv == pieces.deep_view(),
            pairs.deep_view() == pv.subrange(0, i as int).map_values(|p: Seq<char>| raw_query_pair(p)),
        decreases pieces.len() - i,
    {
        let (_found, k, v) = split_raw_pair(&pieces[i]);
        let ghost before = pairs.deep_view();
        let ghost kv = (k@, v@);
        pairs.push((k, v));
        assert(pieces@[i as int]@ == pv[i as int]);
        assert(pairs.deep_view() =~= before.push(kv));
        assert(pv.subrange(0, i + 1).map_values(|p: Seq<char>| raw_query_pair(p)) =~= pv.subrange(0, i as int).map_values(|p: Seq<char>| raw_query_pair(p)).push(raw_query_pair(pv[i as int])));
        i = i + 1;
    }
    assert(pv.subrange(0, i as int) =~= pv);
    let sorted = sort_pairs_by_key(pairs);
    render_pair_list(&sorted)
}

} // verus!
