//! Request routing and listing parameters of the S3-compatible endpoint:
//! which operation a method and path select, how bucket and key are decoded,
//! how `ListObjects` reads its query, and how listing fields are rendered.

use vstd::prelude::*;
use crate::text;
use crate::text::{chars_eq, push_all, str_chars, string_from_chars};

verus! {

broadcast use text::lemma_chars_deep_view;

// ---------------------------------------------------------------------------
// Percent encoding
// ---------------------------------------------------------------------------

/// An ASCII hexadecimal digit byte.
pub open spec fn is_hex_byte(b: u8) -> bool {
    (48 <= b && b <= 57) || (65 <= b && b <= 70) || (97 <= b && b <= 102)
}

/// The value of a hexadecimal digit byte.
pub open spec fn hex_byte_value(b: u8) -> int {
    if 48 <= b && b <= 57 {
        b - 48
    } else if 65 <= b && b <= 70 {
        b - 55
    } else {
        b - 87
    }
}

/// Percent decoding of bytes: `%` followed by two hex digits becomes that
/// byte; every other byte, a lone `%` included, is kept.
pub open spec fn pct_decode(s: Seq<u8>) -> Seq<u8>
    decreases s.len(),
{
    if s.len() == 0 {
        Seq::empty()
    } else if s[0] == 37 && s.len() >= 3 && is_hex_byte(s[1]) && is_hex_byte(s[2]) {
        seq![(hex_byte_value(s[1]) * 16 + hex_byte_value(s[2])) as u8] + pct_decode(s.subrange(3, s.len() as int))
    } else {
        seq![s[0]] + pct_decode(s.drop_first())
    }
}

/// Calls `urlencoding::decode_binary`. Claimed (from its source): a `%`
/// with two hex digits after it becomes the byte they denote; every other
/// byte is copied.
#[verifier::external_body]
fn decode_binary(data: &[u8]) -> (r: Vec<u8>)
    ensures
        r@ == pct_decode(data@),
{
    urlencoding::decode_binary(data).into_owned()
}

/// The text `String::from_utf8_lossy` makes of a byte string.
pub uninterp spec fn utf8_lossy(b: Seq<u8>) -> Seq<char>;

/// Calls `String::from_utf8_lossy`. Claimed: a function of the bytes alone;
/// valid UTF-8 decodes to its characters (its documentation).
#[verifier::external_body]
fn from_utf8_lossy(b: &[u8]) -> (r: String)
    ensures
        r@ == utf8_lossy(b@),
        vstd::utf8::valid_utf8(b@) ==> r@ == vstd::utf8::decode_utf8(b@),
{
    String::from_utf8_lossy(b).into_owned()
}

/// A byte string read as UTF-8, invalid sequences replaced.
pub fn lossy_text(b: &[u8]) -> (r: String)
    ensures
        r@ == utf8_lossy(b@),
{
    from_utf8_lossy(b)
}

/// A path segment or parameter value decoded: percent-decoded bytes read as
/// UTF-8, invalid sequences replaced.
pub open spec fn decoded_text(s: Seq<char>) -> Seq<char> {
    utf8_lossy(pct_decode(vstd::utf8::encode_utf8(s)))
}

/// Decode a percent-encoded path segment or parameter value.
pub fn decode_component(s: &str) -> (r: String)
    ensures
        r@ == decoded_text(s@),
{
    from_utf8_lossy(&decode_binary(s.as_bytes()))
}

/// Bytes that percent encoding leaves alone: ASCII letters, digits and
/// `-`, `.`, `_`, `~`.
pub open spec fn is_unreserved(b: u8) -> bool {
    (48 <= b && b <= 57) || (65 <= b && b <= 90) || (97 <= b && b <= 122) || b == 45 || b == 46
        || b == 95 || b == 126
}

/// An upper-case hexadecimal digit.
pub open spec fn upper_hex(n: int) -> char {
    if n < 10 {
        ((n + 48) as u32) as char
    } else {
        ((n + 55) as u32) as char
    }
}

/// Percent encoding of bytes: unreserved bytes as themselves, every other
/// byte as `%` and two upper-case hex digits.
pub open spec fn pct_encode(b: Seq<u8>) -> Seq<char>
    decreases b.len(),
{
    if b.len() == 0 {
        Seq::empty()
    } else if is_unreserved(b[0]) {
        seq![b[0] as char] + pct_encode(b.drop_first())
    } else {
        seq!['%', upper_hex((b[0] / 16) as int), upper_hex((b[0] % 16) as int)] + pct_encode(b.drop_first())
    }
}

/// The bytes of characters below 128, one per character.
pub open spec fn ascii_bytes(c: Seq<char>) -> Seq<u8> {
    c.map_values(|ch: char| ch as u8)
}

proof fn lemma_upper_hex(n: int)
    requires
        0 <= n < 16,
    ensures
        is_hex_byte(upper_hex(n) as u8),
        hex_byte_value(upper_hex(n) as u8) == n,
        '\0' <= upper_hex(n) <= '\u{7f}',
{
}

proof fn lemma_pct_encode_ascii(b: Seq<u8>)
    ensures
        vstd::utf8::is_ascii_chars(pct_encode(b)),
        pct_decode(ascii_bytes(pct_encode(b))) == b,
    decreases b.len(),
{
    if b.len() > 0 {
        let rest = b.drop_first();
        lemma_pct_encode_ascii(rest);
        let er = pct_encode(rest);
        if is_unreserved(b[0]) {
            let e = seq![b[0] as char] + er;
            assert(e == pct_encode(b));
            assert(vstd::utf8::is_ascii_chars(e)) by {
                assert forall|i: int| 0 <= i < e.len() implies '\0' <= #[trigger] e[i] <= '\u{7f}' by {
                    if i > 0 {
                        assert(e[i] == er[i - 1]);
                    }
                }
            }
            let bs = ascii_bytes(e);
            assert(bs[0] == b[0]);
            assert(bs.drop_first() =~= ascii_bytes(er));
            assert(pct_decode(bs) =~= seq![b[0]] + pct_decode(ascii_bytes(er)));
            assert(pct_decode(bs) =~= b);
        } else {
            let hi = (b[0] / 16) as int;
            let lo = (b[0] % 16) as int;
            lemma_upper_hex(hi);
            lemma_upper_hex(lo);
            let e = seq!['%', upper_hex(hi), upper_hex(lo)] + er;
            assert(e == pct_encode(b));
            assert(vstd::utf8::is_ascii_chars(e)) by {
                assert forall|i: int| 0 <= i < e.len() implies '\0' <= #[trigger] e[i] <= '\u{7f}' by {
                    if i >= 3 {
                        assert(e[i] == er[i - 3]);
                    }
                }
            }
            let bs = ascii_bytes(e);
            assert(bs[0] == 37);
            assert(bs[1] == upper_hex(hi) as u8);
            assert(bs[2] == upper_hex(lo) as u8);
            assert(bs.subrange(3, bs.len() as int) =~= ascii_bytes(er));
            assert(hi * 16 + lo == b[0]);
            assert(pct_decode(bs) =~= seq![b[0]] + pct_decode(ascii_bytes(er)));
            assert(pct_decode(bs) =~= b);
        }
    } else {
        assert(pct_decode(ascii_bytes(pct_encode(b))) =~= b);
    }
}

/// Percent decoding undoes percent encoding: the UTF-8 bytes of an encoded
/// byte string decode back to that byte string.
pub proof fn law_percent_roundtrip(b: Seq<u8>)
    ensures
        pct_decode(vstd::utf8::encode_utf8(pct_encode(b))) == b,
{
    lemma_pct_encode_ascii(b);
    let e = pct_encode(b);
    vstd::utf8::is_ascii_chars_encode_utf8(e);
    assert(vstd::utf8::encode_utf8(e) =~= ascii_bytes(e));
}

/// Calls `urlencoding::encode`. Claimed (from its source): the UTF-8 bytes
/// of `s`, unreserved ones as they are, the others as `%XX` in upper case.
#[verifier::external_body]
fn url_encode(s: &str) -> (r: String)
    ensures
        r@ == pct_encode(vstd::utf8::encode_utf8(s@)),
{
    urlencoding::encode(s).into_owned()
}

/// Percent-encode a key, prefix or marker for a listing response.
pub fn encode_component(s: &str) -> (r: String)
    ensures
        r@ == pct_encode(vstd::utf8::encode_utf8(s@)),
{
    url_encode(s)
}

// ---------------------------------------------------------------------------
// Routing
// ---------------------------------------------------------------------------

/// The operation a request selects.
pub enum S3Route {
    ListBuckets,
    ListObjects { bucket: String },
    HeadBucket { bucket: String },
    CreateBucket { bucket: String },
    DeleteBucket { bucket: String },
    GetObject { bucket: String, key: String },
    HeadObject { bucket: String, key: String },
    PutObject { bucket: String, key: String },
    DeleteObject { bucket: String, key: String },
    /// The method is not served on this path.
    MethodNotAllowed,
    /// The bucket segment decodes to nothing.
    EmptyBucket,
}

/// An operation with its names as character sequences.
pub enum S3RouteView {
    ListBuckets,
    ListObjects { bucket: Seq<char> },
    HeadBucket { bucket: Seq<char> },
    CreateBucket { bucket: Seq<char> },
    DeleteBucket { bucket: Seq<char> },
    GetObject { bucket: Seq<char>, key: Seq<char> },
    HeadObject { bucket: Seq<char>, key: Seq<char> },
    PutObject { bucket: Seq<char>, key: Seq<char> },
    DeleteObject { bucket: Seq<char>, key: Seq<char> },
    MethodNotAllowed,
    EmptyBucket,
}

impl View for S3Route {
    type V = S3RouteView;

    open spec fn view(&self) -> S3RouteView {
        match self {
            S3Route::ListBuckets => S3RouteView::ListBuckets,
            S3Route::ListObjects { bucket } => S3RouteView::ListObjects { bucket: bucket@ },
            S3Route::HeadBucket { bucket } => S3RouteView::HeadBucket { bucket: bucket@ },
            S3Route::CreateBucket { bucket } => S3RouteView::CreateBucket { bucket: bucket@ },
            S3Route::DeleteBucket { bucket } => S3RouteView::DeleteBucket { bucket: bucket@ },
            S3Route::GetObject { bucket, key } => S3RouteView::GetObject { bucket: bucket@, key: key@ },
            S3Route::HeadObject { bucket, key } => S3RouteView::HeadObject { bucket: bucket@, key: key@ },
            S3Route::PutObject { bucket, key } => S3RouteView::PutObject { bucket: bucket@, key: key@ },
            S3Route::DeleteObject { bucket, key } => S3RouteView::DeleteObject { bucket: bucket@, key: key@ },
            S3Route::MethodNotAllowed => S3RouteView::MethodNotAllowed,
            S3Route::EmptyBucket => S3RouteView::EmptyBucket,
        }
    }
}

/// `s` without its trailing `/` characters.
pub open spec fn trim_end_slashes(s: Seq<char>) -> Seq<char>
    decreases s.len(),
{
    if s.len() > 0 && s.last() == '/' {
        trim_end_slashes(s.drop_last())
    } else {
        s
    }
}

/// `s` without its leading `/` characters.
pub open spec fn trim_start_slashes(s: Seq<char>) -> Seq<char>
    decreases s.len(),
{
    if s.len() > 0 && s[0] == '/' {
        trim_start_slashes(s.drop_first())
    } else {
        s
    }
}

/// The path with trailing slashes removed, except for the root path `/`.
pub open spec fn normalized_path(path: Seq<char>) -> Seq<char> {
    if path != seq!['/'] && path.len() > 0 && path.last() == '/' {
        trim_end_slashes(path)
    } else {
        path
    }
}

/// The operation for a method and path: the root lists buckets (`GET`
/// only); `/{bucket}` serves `GET` (list), `HEAD`, `PUT` (create) and
/// `DELETE`; `/{bucket}/{key...}` serves the object operations. Bucket and
/// key are percent-decoded; the key is everything after the first `/` that
/// follows the bucket.
pub open spec fn spec_route(method: Seq<char>, path: Seq<char>) -> S3RouteView {
    let p = normalized_path(path);
    if p == seq!['/'] || p.len() == 0 {
        if method == "GET"@ {
            S3RouteView::ListBuckets
        } else {
            S3RouteView::MethodNotAllowed
        }
    } else {
        let rest = trim_start_slashes(p);
        let bucket_raw = match text::find_from(rest, seq!['/'], 0) {
            Some(i) => rest.subrange(0, i),
            None => rest,
        };
        let bucket = decoded_text(bucket_raw);
        if bucket.len() == 0 {
            S3RouteView::EmptyBucket
        } else {
            match text::find_from(rest, seq!['/'], 0) {
                None => if method == "GET"@ {
                    S3RouteView::ListObjects { bucket }
                } else if method == "HEAD"@ {
                    S3RouteView::HeadBucket { bucket }
                } else if method == "PUT"@ {
                    S3RouteView::CreateBucket { bucket }
                } else if method == "DELETE"@ {
                    S3RouteView::DeleteBucket { bucket }
                } else {
                    S3RouteView::MethodNotAllowed
                },
                Some(i) => {
                    let key = decoded_text(rest.subrange(i + 1, rest.len() as int));
                    if method == "GET"@ {
                        S3RouteView::GetObject { bucket, key }
                    } else if method == "HEAD"@ {
                        S3RouteView::HeadObject { bucket, key }
                    } else if method == "PUT"@ {
                        S3RouteView::PutObject { bucket, key }
                    } else if method == "DELETE"@ {
                        S3RouteView::DeleteObject { bucket, key }
                    } else {
                        S3RouteView::MethodNotAllowed
                    }
                },
            }
        }
    }
}

fn trim_end_slashes_chars(s: &[char]) -> (r: Vec<char>)
    ensures
        r@ == trim_end_slashes(s@),
{
    let mut j = s.len();
    assert(s@.subrange(0, j as int) =~= s@);
    while j > 0 && s[j - 1] == '/'
        invariant
            j <= s.len(),
            trim_end_slashes(s@) == trim_end_slashes(s@.subrange(0, j as int)),
        decreases j,
    {
        assert(s@.subrange(0, j as int).drop_last() =~= s@.subrange(0, j - 1));
        j = j - 1;
    }
    text::chars_range(s, 0, j)
}

fn trim_start_slashes_chars(s: &[char]) -> (r: Vec<char>)
    ensures
        r@ == trim_start_slashes(s@),
{
    let mut i: usize = 0;
    assert(s@.subrange(0, s@.len() as int) =~= s@);
    while i < s.len() && s[i] == '/'
        invariant
            i <= s.len(),
            trim_start_slashes(s@) == trim_start_slashes(s@.subrange(i as int, s@.len() as int)),
        decreases s.len() - i,
    {
        assert(s@.subrange(i as int, s@.len() as int).drop_first() =~= s@.subrange(i + 1, s@.len() as int));
        i = i + 1;
    }
    text::chars_from(s, i)
}

fn method_is(m: &[char], lit: &str) -> (r: bool)
    ensures
        r == (m@ == lit@),
{
    chars_eq(m, &str_chars(lit))
}

/// Select the operation for a request.
pub fn route_request(method: &str, path: &str) -> (r: S3Route)
    ensures
        r@ == spec_route(method@, path@),
{
    let m = str_chars(method);
    let p0 = str_chars(path);
    let slash: [char; 1] = ['/'];
    assert(slash@ =~= seq!['/']);
    let p = if !chars_eq(&p0, &slash) && p0.len() > 0 && p0[p0.len() - 1] == '/' {
        trim_end_slashes_chars(&p0)
    } else {
        p0
    };
    assert(p@ == normalized_path(path@));
    if chars_eq(&p, &slash) || p.len() == 0 {
        if method_is(&m, "GET") {
            return S3Route::ListBuckets;
        }
        return S3Route::MethodNotAllowed;
    }
    let rest = trim_start_slashes_chars(&p);
    let found = text::find_chars(&rest, &slash, 0);
    proof {
        text::lemma_find_from(rest@, seq!['/'], 0);
    }
    assert(found matches Some(i) ==> i + 1 <= rest.len());
    let bucket_raw = match found {
        Some(i) => text::chars_range(&rest, 0, i),
        None => text::chars_from(&rest, 0),
    };
    assert(rest@.subrange(0, rest@.len() as int) =~= rest@);
    let bucket = decode_component(string_from_chars(&bucket_raw).as_str());
    if bucket.as_str().is_empty() {
        return S3Route::EmptyBucket;
    }
    match found {
        None => {
            if method_is(&m, "GET") {
                S3Route::ListObjects { bucket }
            } else if method_is(&m, "HEAD") {
                S3Route::HeadBucket { bucket }
            } else if method_is(&m, "PUT") {
                S3Route::CreateBucket { bucket }
            } else if method_is(&m, "DELETE") {
                S3Route::DeleteBucket { bucket }
            } else {
                S3Route::MethodNotAllowed
            }
        },
        Some(i) => {
            let key_raw = text::chars_from(&rest, i + 1);
            let key = decode_component(string_from_chars(&key_raw).as_str());
            if method_is(&m, "GET") {
                S3Route::GetObject { bucket, key }
            } else if method_is(&m, "HEAD") {
                S3Route::HeadObject { bucket, key }
            } else if method_is(&m, "PUT") {
                S3Route::PutObject { bucket, key }
            } else if method_is(&m, "DELETE") {
                S3Route::DeleteObject { bucket, key }
            } else {
                S3Route::MethodNotAllowed
            }
        },
    }
}

/// `不支持的 HTTP 方法: {method}`, the message of a refused method.
pub fn method_not_allowed_message(method: &str) -> (r: String)
    ensures
        r@ == "不支持的 HTTP 方法: "@ + method@,
{
    let mut s = str_chars("不支持的 HTTP 方法: ");
    push_all(&mut s, &str_chars(method));
    string_from_chars(&s)
}

/// A bucket name is accepted for creation when it is 1 to 63 bytes long.
pub open spec fn spec_valid_bucket_name(bucket: Seq<char>) -> bool {
    0 < vstd::utf8::encode_utf8(bucket).len() <= 63
}

/// Whether a bucket may be created under this name.
pub fn valid_bucket_name(bucket: &str) -> (r: bool)
    ensures
        r == spec_valid_bucket_name(bucket@),
{
    let n = bucket.as_bytes().len();
    n > 0 && n <= 63
}

// ---------------------------------------------------------------------------
// ListObjects parameters
// ---------------------------------------------------------------------------

/// The default page size of a listing.
pub fn default_max_keys() -> (r: i32)
    ensures
        r == 1000,
{
    1000
}

/// A page size limited to 1..=1000.
pub open spec fn spec_clamp_max_keys(v: i32) -> i32 {
    if v < 1 {
        1
    } else if v > 1000 {
        1000
    } else {
        v
    }
}

/// Limit a requested page size to 1..=1000.
pub fn clamp_max_keys(v: i32) -> (r: i32)
    ensures
        r == spec_clamp_max_keys(v),
{
    if v < 1 {
        1
    } else if v > 1000 {
        1000
    } else {
        v
    }
}

/// The `k=v` pieces of a query, split at the first `=`; pieces without `=`
/// are left out. Nothing is decoded.
pub open spec fn raw_param_pairs(pieces: Seq<Seq<char>>) -> Seq<(Seq<char>, Seq<char>)>
    decreases pieces.len(),
{
    if pieces.len() == 0 {
        Seq::empty()
    } else {
        let rest = raw_param_pairs(pieces.drop_last());
        let p = pieces.last();
        match text::find_from(p, seq!['='], 0) {
            Some(i) => rest.push((p.subrange(0, i), p.subrange(i + 1, p.len() as int))),
            None => rest,
        }
    }
}

/// The raw value of the first pair named `name`.
pub open spec fn first_value(pairs: Seq<(Seq<char>, Seq<char>)>, name: Seq<char>) -> Option<Seq<char>>
    decreases pairs.len(),
{
    if pairs.len() == 0 {
        None
    } else if pairs[0].0 == name {
        Some(pairs[0].1)
    } else {
        first_value(pairs.drop_first(), name)
    }
}

/// A listing parameter: the decoded value of the first pair with that
/// (raw) name, or empty.
pub open spec fn list_param(query: Seq<char>, name: Seq<char>) -> Seq<char> {
    match first_value(raw_param_pairs(text::split_by(query, seq!['&'])), name) {
        Some(v) => decoded_text(v),
        None => Seq::empty(),
    }
}

/// The parameters of a `ListObjects` request.
pub struct ListObjectsParams {
    pub prefix: String,
    pub delimiter: String,
    pub max_keys: i32,
    pub marker: String,
    pub is_v2: bool,
}

/// `max-keys` parsed as an `i32` (1000 when absent or not a number), limited
/// to 1..=1000.
pub open spec fn spec_max_keys(query: Seq<char>) -> i32 {
    match text::spec_parse_i32(list_param(query, "max-keys"@)) {
        Some(v) => spec_clamp_max_keys(v),
        None => 1000,
    }
}

/// The marker: `continuation-token` when it is not empty, else `marker`.
pub open spec fn spec_marker(query: Seq<char>) -> Seq<char> {
    if list_param(query, "continuation-token"@).len() > 0 {
        list_param(query, "continuation-token"@)
    } else {
        list_param(query, "marker"@)
    }
}

fn raw_pairs_of(query: &str) -> (r: Vec<(Vec<char>, Vec<char>)>)
    ensures
        r.deep_view() == raw_param_pairs(text::split_by(query@, seq!['&'])),
{
    let amp: [char; 1] = ['&'];
    let eq: [char; 1] = ['='];
    assert(amp@ =~= seq!['&']);
    assert(eq@ =~= seq!['=']);
    let pieces = text::split_chars(&str_chars(query), &amp);
    let ghost pv = pieces.deep_view();
    let mut pairs: Vec<(Vec<char>, Vec<char>)> = Vec::new();
    let mut i: usize = 0;
    assert(pv.subrange(0, 0) =~= Seq::<Seq<char>>::empty());
    while i < pieces.len()
        invariant
            i <= pieces.len(),
            pv == pieces.deep_view(),
            eq@ == seq!['='],
            pairs.deep_view() == raw_param_pairs(pv.subrange(0, i as int)),
        decreases pieces.len() - i,
    {
        let piece = &pieces[i];
        let ghost next = pv.subrange(0, i + 1);
        assert(next.drop_last() =~= pv.subrange(0, i as int));
        assert(next.last() == piece@);
        proof {
            text::lemma_find_from(piece@, seq!['='], 0);
        }
        let found = text::find_chars(piece, &eq, 0);
        assert(found matches Some(k) ==> k + 1 <= piece.len());
        match found {
            Some(k) => {
                let a = text::chars_range(piece, 0, k);
                let b = text::chars_from(piece, k + 1);
                let ghost before = pairs.deep_view();
                let ghost kv = (a@, b@);
                pairs.push((a, b));
                assert(pairs.deep_view() =~= before.push(kv));
            },
            None => {},
        }
        i = i + 1;
    }
    assert(pv.subrange(0, i as int) =~= pv);
    pairs
}

fn param_value(pairs: &Vec<(Vec<char>, Vec<char>)>, name: &str) -> (r: String)
    ensures
        r@ == match first_value(pairs.deep_view(), name@) {
            Some(v) => decoded_text(v),
            None => Seq::<char>::empty(),
        },
{
    let n = str_chars(name);
    let ghost pv = pairs.deep_view();
    let mut i: usize = 0;
    assert(pv.subrange(0, pv.len() as int) =~= pv);
    while i < pairs.len()
        invariant
            i <= pairs.len(),
            pv == pairs.deep_view(),
            n@ == name@,
            first_value(pv, name@) == first_value(pv.subrange(i as int, pv.len() as int), name@),
        decreases pairs.len() - i,
    {
        let ghost t = pv.subrange(i as int, pv.len() as int);
        assert(t[0] == (pairs@[i as int].0@, pairs@[i as int].1@));
        if chars_eq(&pairs[i].0, &n) {
            return decode_component(string_from_chars(&pairs[i].1).as_str());
        }
        assert(t.drop_first() =~= pv.subrange(i + 1, pv.len() as int));
        i = i + 1;
    }
    String::new()
}

/// Read the `ListObjects` parameters from a raw query string.
pub fn parse_list_objects_params(query: &str) -> (r: ListObjectsParams)
    ensures
        r.prefix@ == list_param(query@, "prefix"@),
        r.delimiter@ == list_param(query@, "delimiter"@),
        r.max_keys == spec_max_keys(query@),
        r.marker@ == spec_marker(query@),
        r.is_v2 == (list_param(query@, "list-type"@) == "2"@),
{
    let pairs = raw_pairs_of(query);
    let prefix = param_value(&pairs, "prefix");
    let delimiter = param_value(&pairs, "delimiter");
    let mk = param_value(&pairs, "max-keys");
    let max_keys = match text::parse_i32(&str_chars(mk.as_str())) {
        Some(v) => clamp_max_keys(v),
        None => 1000,
    };
    let ct = param_value(&pairs, "continuation-token");
    let marker = if ct.as_str().is_empty() {
        param_value(&pairs, "marker")
    } else {
        ct
    };
    let lt = param_value(&pairs, "list-type");
    let is_v2 = chars_eq(&str_chars(lt.as_str()), &str_chars("2"));
    ListObjectsParams { prefix, delimiter, max_keys, marker, is_v2 }
}

/// The optional fields of a listing response, percent-encoded.
pub struct ListingFields {
    pub prefix: String,
    pub marker: Option<String>,
    pub next_marker: Option<String>,
    pub next_continuation_token: Option<String>,
    pub delimiter: Option<String>,
}

/// `s` percent-encoded.
pub open spec fn enc(s: Seq<char>) -> Seq<char> {
    pct_encode(vstd::utf8::encode_utf8(s))
}

/// An optional field: absent when empty, else encoded.
pub open spec fn optional_encoded(s: Seq<char>) -> Option<Seq<char>> {
    if s.len() == 0 {
        None
    } else {
        Some(enc(s))
    }
}

fn optional_field(s: &str) -> (r: Option<String>)
    ensures
        match r {
            Some(t) => optional_encoded(s@) == Some(t@),
            None => optional_encoded(s@) == None::<Seq<char>>,
        },
{
    if s.is_empty() {
        None
    } else {
        Some(url_encode(s))
    }
}

/// The listing fields: the prefix (encoded, or empty), the marker when one
/// was given, the next marker when the listing is truncated and one exists,
/// the continuation token likewise for version-2 listings, and the
/// delimiter when one was given.
pub fn listing_fields(params: &ListObjectsParams, is_truncated: bool, next_marker: &str) -> (r: ListingFields)
    ensures
        r.prefix@ == (if params.prefix@.len() == 0 { Seq::<char>::empty() } else { enc(params.prefix@) }),
        match r.marker {
            Some(t) => optional_encoded(params.marker@) == Some(t@),
            None => optional_encoded(params.marker@) == None::<Seq<char>>,
        },
        match r.next_marker {
            Some(t) => is_truncated && next_marker@.len() > 0 && t@ == enc(next_marker@),
            None => !(is_truncated && next_marker@.len() > 0),
        },
        match r.next_continuation_token {
            Some(t) => params.is_v2 && is_truncated && next_marker@.len() > 0 && t@ == enc(next_marker@),
            None => !(params.is_v2 && is_truncated && next_marker@.len() > 0),
        },
        match r.delimiter {
            Some(t) => optional_encoded(params.delimiter@) == Some(t@),
            None => optional_encoded(params.delimiter@) == None::<Seq<char>>,
        },
{
    let prefix = if params.prefix.as_str().is_empty() {
        String::new()
    } else {
        url_encode(params.prefix.as_str())
    };
    let has_next = is_truncated && !next_marker.is_empty();
    let next = if has_next {
        Some(url_encode(next_marker))
    } else {
        None
    };
    let token = if params.is_v2 && has_next {
        Some(url_encode(next_marker))
    } else {
        None
    };
    ListingFields {
        prefix,
        marker: optional_field(params.marker.as_str()),
        next_marker: next,
        next_continuation_token: token,
        delimiter: optional_field(params.delimiter.as_str()),
    }
}

// ---------------------------------------------------------------------------
// Timestamps
// ---------------------------------------------------------------------------

/// The RFC 3339 text of a Unix time in UTC, when the `time` crate can
/// represent and format it.
pub uninterp spec fn rfc3339_of_unix(secs: i64) -> Option<Seq<char>>;

/// Calls `time::OffsetDateTime::from_unix_timestamp` and formats the result
/// with `Rfc3339`. Claimed: the outcome is a function of `secs` alone.
#[verifier::external_body]
fn unix_to_rfc3339(secs: i64) -> (r: Option<String>)
    ensures
        match r {
            Some(t) => rfc3339_of_unix(secs) == Some(t@),
            None => rfc3339_of_unix(secs) == None::<Seq<char>>,
        },
{
    match time::OffsetDateTime::from_unix_timestamp(secs) {
        Ok(dt) => dt.format(&time::format_description::well_known::Rfc3339).ok(),
        Err(_) => None,
    }
}

/// The `Last-Modified` text (`%a, %d %b %Y %H:%M:%S GMT`) of a Unix time;
/// out-of-range times read as the epoch.
pub uninterp spec fn rfc7231_of_unix(secs: i64) -> Seq<char>;

/// Calls `chrono::NaiveDateTime::from_timestamp_opt` (the epoch when out of
/// range) and formats it as `%a, %d %b %Y %H:%M:%S GMT`. Claimed: a function
/// of `secs` alone.
#[verifier::external_body]
#[allow(deprecated)]
fn unix_to_rfc7231(secs: i64) -> (r: String)
    ensures
        r@ == rfc7231_of_unix(secs),
{
    let naive = chrono::NaiveDateTime::from_timestamp_opt(secs, 0).unwrap_or_default();
    let utc: chrono::DateTime<chrono::Utc> = chrono::DateTime::from_naive_utc_and_offset(naive, chrono::Utc);
    utc.format("%a, %d %b %Y %H:%M:%S GMT").to_string()
}

/// A stored timestamp (Unix seconds as text) in ISO 8601 form; text that is
/// not a number, or a time that cannot be formatted, is returned unchanged.
pub open spec fn spec_timestamp_to_iso(ts: Seq<char>) -> Seq<char> {
    match text::spec_parse_i64(ts) {
        Some(secs) => match rfc3339_of_unix(secs) {
            Some(t) => t,
            None => ts,
        },
        None => ts,
    }
}

/// Convert a stored Unix timestamp to ISO 8601.
pub fn timestamp_to_iso(timestamp: &str) -> (r: String)
    ensures
        r@ == spec_timestamp_to_iso(timestamp@),
{
    let c = str_chars(timestamp);
    match text::parse_i64(&c) {
        Some(secs) => match unix_to_rfc3339(secs) {
            Some(t) => t,
            None => string_from_chars(&c),
        },
        None => string_from_chars(&c),
    }
}

/// A stored timestamp as an HTTP date; text that is not a number gives the
/// epoch.
pub open spec fn spec_timestamp_to_rfc7231(ts: Seq<char>) -> Seq<char> {
    match text::spec_parse_i64(ts) {
        Some(secs) => rfc7231_of_unix(secs),
        None => "Thu, 01 Jan 1970 00:00:00 GMT"@,
    }
}

/// Convert a stored Unix timestamp to an HTTP date (`Last-Modified`).
pub fn timestamp_to_rfc7231(timestamp: &str) -> (r: String)
    ensures
        r@ == spec_timestamp_to_rfc7231(timestamp@),
{
    match text::parse_i64(&str_chars(timestamp)) {
        Some(secs) => unix_to_rfc7231(secs),
        None => "Thu, 01 Jan 1970 00:00:00 GMT".to_string(),
    }
}

} // verus!
