//! Request authentication for the S3-compatible endpoint (AWS Signature
//! Version 4): the header model, digests, canonical requests, signing keys
//! and the accept/reject decision.

use vstd::prelude::*;
use hmac::{Hmac, Mac};
use sha2::{Digest, Sha256};
use crate::text;
use crate::text::{
    chars_eq, chars_from, join_chars, push_all, split_chars, starts_with, str_chars,
    string_from_chars, to_lowercase_chars, trim_chars, ascii_lower_chars,
};
use crate::sigv4;
use crate::sigv4::{build_canonical_query_string, header_canonical_query, parse_query_string};

verus! {

broadcast use text::lemma_chars_deep_view;

// ---------------------------------------------------------------------------
// Headers
// ---------------------------------------------------------------------------

/// The headers of a request as the authenticator reads them: names in ASCII
/// lower case (the form in which an HTTP header map keeps them) with the raw
/// value bytes, in arrival order.
pub struct HeaderList {
    entries: Vec<(Vec<char>, Vec<u8>)>,
}

impl View for HeaderList {
    type V = Seq<(Seq<char>, Seq<u8>)>;

    closed spec fn view(&self) -> Seq<(Seq<char>, Seq<u8>)> {
        self.entries@.map_values(|e: (Vec<char>, Vec<u8>)| (e.0@, e.1@))
    }
}

/// The value a header map gives for `name`: the first entry whose name is
/// `name` in ASCII lower case.
pub open spec fn header_lookup(hs: Seq<(Seq<char>, Seq<u8>)>, name: Seq<char>) -> Option<Seq<u8>>
    decreases hs.len(),
{
    if hs.len() == 0 {
        None
    } else if hs[0].0 == text::ascii_lower(name) {
        Some(hs[0].1)
    } else {
        header_lookup(hs.drop_first(), name)
    }
}

/// A header value is text (`HeaderValue::to_str` succeeds) when every byte is
/// visible ASCII or a tab.
pub open spec fn is_visible_ascii(v: Seq<u8>) -> bool {
    forall|i: int| 0 <= i < v.len() ==> ((32 <= #[trigger] v[i] && v[i] < 127) || v[i] == 9)
}

/// The characters of a byte string read one byte per character.
pub open spec fn bytes_text(v: Seq<u8>) -> Seq<char> {
    Seq::new(v.len(), |i: int| v[i] as char)
}

/// A header value as text, or empty when it is not text
/// (`to_str().unwrap_or("")`).
pub open spec fn value_text(v: Seq<u8>) -> Seq<char> {
    if is_visible_ascii(v) {
        bytes_text(v)
    } else {
        Seq::empty()
    }
}

impl HeaderList {
    /// No headers.
    pub fn new() -> (r: HeaderList)
        ensures
            r@ == Seq::<(Seq<char>, Seq<u8>)>::empty(),
    {
        let r = HeaderList { entries: Vec::new() };
        assert(r@ =~= Seq::<(Seq<char>, Seq<u8>)>::empty());
        r
    }

    /// Add a header; the name is kept in ASCII lower case.
    pub fn append(&mut self, name: &str, value: &[u8])
        ensures
            final(self)@ == old(self)@.push((text::ascii_lower(name@), value@)),
    {
        let n = str_chars(name);
        let lower = ascii_lower_chars(&n);
        let mut v: Vec<u8> = Vec::new();
        let mut i: usize = 0;
        while i < value.len()
            invariant
                i <= value.len(),
                v@ == value@.subrange(0, i as int),
            decreases value.len() - i,
        {
            v.push(value[i]);
            i = i + 1;
        }
        assert(value@.subrange(0, i as int) =~= value@);
        let ghost before = self@;
        self.entries.push((lower, v));
        assert(self@ =~= before.push((text::ascii_lower(name@), value@)));
    }

    /// The value of the first header named `name` (compared in ASCII lower
    /// case), if any.
    pub fn get(&self, name: &[char]) -> (r: Option<Vec<u8>>)
        ensures
            match r {
                Some(v) => header_lookup(self@, name@) == Some(v@),
                None => header_lookup(self@, name@) == None::<Seq<u8>>,
            },
    {
        let key = ascii_lower_chars(name);
        let ghost hs = self@;
        let mut i: usize = 0;
        assert(hs.subrange(0, hs.len() as int) =~= hs);
        while i < self.entries.len()
            invariant
                i <= self.entries.len(),
                hs == self@,
                hs.len() == self.entries.len(),
                key@ == text::ascii_lower(name@),
                header_lookup(hs, name@) == header_lookup(hs.subrange(i as int, hs.len() as int), name@),
            decreases self.entries.len() - i,
        {
            let ghost t = hs.subrange(i as int, hs.len() as int);
            assert(t[0] == (self.entries@[i as int].0@, self.entries@[i as int].1@));
            if chars_eq(&self.entries[i].0, &key) {
                return Some(self.entries[i].1.clone());
            }
            assert(t.drop_first() =~= hs.subrange(i + 1, hs.len() as int));
            i = i + 1;
        }
        None
    }
}

/// `HeaderValue::to_str`: the value as text when it is visible ASCII.
pub fn value_as_text(v: &[u8]) -> (r: Option<Vec<char>>)
    ensures
        match r {
            Some(t) => is_visible_ascii(v@) && t@ == bytes_text(v@),
            None => !is_visible_ascii(v@),
        },
{
    let mut t: Vec<char> = Vec::new();
    let mut i: usize = 0;
    while i < v.len()
        invariant
            i <= v.len(),
            t@ == bytes_text(v@.subrange(0, i as int)),
            forall|k: int| 0 <= k < i ==> ((32 <= #[trigger] v@[k] && v@[k] < 127) || v@[k] == 9),
        decreases v.len() - i,
    {
        let b = v[i];
        if !((32 <= b && b < 127) || b == 9) {
            return None;
        }
        t.push(b as char);
        assert(t@ =~= bytes_text(v@.subrange(0, i + 1)));
        i = i + 1;
    }
    assert(v@.subrange(0, i as int) =~= v@);
    Some(t)
}

/// `to_str().unwrap_or("")`.
fn value_text_or_empty(v: &[u8]) -> (r: Vec<char>)
    ensures
        r@ == value_text(v@),
{
    match value_as_text(v) {
        Some(t) => t,
        None => Vec::new(),
    }
}

// ---------------------------------------------------------------------------
// Digests and hex
// ---------------------------------------------------------------------------

/// The SHA-256 digest of a byte string.
pub uninterp spec fn sha256_of(data: Seq<u8>) -> Seq<u8>;

/// The HMAC-SHA256 tag of `data` under `key`.
pub uninterp spec fn hmac_sha256_of(key: Seq<u8>, data: Seq<u8>) -> Seq<u8>;

/// Calls `sha2::Sha256::digest`. Claimed: the result is the digest of
/// `data`, a function of `data` alone, 32 bytes long.
#[verifier::external_body]
fn sha256_digest(data: &[u8]) -> (r: Vec<u8>)
    ensures
        r@ == sha256_of(data@),
        r@.len() == 32,
{
    Sha256::digest(data).to_vec()
}

/// Calls `Hmac::<Sha256>::new_from_slice`, `update` and `finalize`.
/// Claimed: the tag is a function of key and data alone, 32 bytes long; the
/// key setup never fails (HMAC takes keys of any length).
#[verifier::external_body]
fn hmac_sha256(key: &[u8], data: &[u8]) -> (r: Vec<u8>)
    ensures
        r@ == hmac_sha256_of(key@, data@),
        r@.len() == 32,
{
    let mut mac = Hmac::<Sha256>::new_from_slice(key).expect("HMAC accepts keys of any length");
    mac.update(data);
    mac.finalize().into_bytes().to_vec()
}

/// Lower-case hexadecimal digit.
pub open spec fn hex_digit_char(n: int) -> char {
    if n < 10 {
        ((n + 48) as u32) as char
    } else {
        ((n + 87) as u32) as char
    }
}

/// Lower-case hexadecimal rendering, two digits per byte, high nibble first.
pub open spec fn hex_lower(b: Seq<u8>) -> Seq<char>
    decreases b.len(),
{
    if b.len() == 0 {
        Seq::empty()
    } else {
        hex_lower(b.drop_last()) + seq![hex_digit_char((b.last() / 16) as int), hex_digit_char((b.last() % 16) as int)]
    }
}

/// Calls `hex::encode`. Claimed (from its source): each byte becomes two
/// characters of `0123456789abcdef`, high nibble first.
#[verifier::external_body]
fn hex_encode(data: &[u8]) -> (r: String)
    ensures
        r@ == hex_lower(data@),
{
    hex::encode(data)
}

/// The UTF-8 bytes of a character sequence.
pub open spec fn utf8(s: Seq<char>) -> Seq<u8> {
    vstd::utf8::encode_utf8(s)
}

fn chars_utf8(s: &[char]) -> (r: Vec<u8>)
    ensures
        r@ == utf8(s@),
{
    let st = string_from_chars(s);
    let b = st.as_str().as_bytes();
    let mut r: Vec<u8> = Vec::new();
    let mut i: usize = 0;
    while i < b.len()
        invariant
            i <= b.len(),
            r@ == b@.subrange(0, i as int),
        decreases b.len() - i,
    {
        r.push(b[i]);
        i = i + 1;
    }
    assert(b@.subrange(0, i as int) =~= b@);
    r
}

// ---------------------------------------------------------------------------
// Signing
// ---------------------------------------------------------------------------

/// `{date}/{region}/{service}/aws4_request`.
pub open spec fn credential_scope(date: Seq<char>, region: Seq<char>, service: Seq<char>) -> Seq<char> {
    date + seq!['/'] + region + seq!['/'] + service + "/aws4_request"@
}

/// `AWS4-HMAC-SHA256\n{timestamp}\n{scope}\n{hex sha256 of the canonical request}`.
pub open spec fn string_to_sign(timestamp: Seq<char>, scope: Seq<char>, canonical_request: Seq<char>) -> Seq<char> {
    "AWS4-HMAC-SHA256\n"@ + timestamp + seq!['\n'] + scope + seq!['\n'] + hex_lower(
        sha256_of(utf8(canonical_request)),
    )
}

/// The signing key: HMAC chain over date, region, service and
/// `aws4_request`, starting from `AWS4{secret}`.
pub open spec fn signing_key(secret: Seq<char>, date: Seq<char>, region: Seq<char>, service: Seq<char>) -> Seq<u8> {
    let k_date = hmac_sha256_of(utf8("AWS4"@ + secret), utf8(date));
    let k_region = hmac_sha256_of(k_date, utf8(region));
    let k_service = hmac_sha256_of(k_region, utf8(service));
    hmac_sha256_of(k_service, utf8("aws4_request"@))
}

/// The hex signature of a string to sign under a signing key.
pub open spec fn signature_of(key: Seq<u8>, sts: Seq<char>) -> Seq<char> {
    hex_lower(hmac_sha256_of(key, utf8(sts)))
}

/// Build the string to sign.
pub fn build_string_to_sign(timestamp: &str, credential_scope: &str, canonical_request: &str) -> (r: String)
    ensures
        r@ == string_to_sign(timestamp@, credential_scope@, canonical_request@),
{
    let digest = sha256_digest(canonical_request.as_bytes());
    let hash = hex_encode(&digest);
    let mut out = str_chars("AWS4-HMAC-SHA256\n");
    push_all(&mut out, &str_chars(timestamp));
    out.push('\n');
    push_all(&mut out, &str_chars(credential_scope));
    out.push('\n');
    push_all(&mut out, &str_chars(hash.as_str()));
    assert(out@ =~= string_to_sign(timestamp@, credential_scope@, canonical_request@));
    string_from_chars(&out)
}

/// Derive the signing key from the secret key and the credential scope.
pub fn compute_signing_key(secret_key: &str, date: &str, region: &str, service: &str) -> (r: Vec<u8>)
    ensures
        r@ == signing_key(secret_key@, date@, region@, service@),
        r@.len() == 32,
{
    let mut k_secret = str_chars("AWS4");
    push_all(&mut k_secret, &str_chars(secret_key));
    let k_date = hmac_sha256(&chars_utf8(&k_secret), date.as_bytes());
    let k_region = hmac_sha256(&k_date, region.as_bytes());
    let k_service = hmac_sha256(&k_region, service.as_bytes());
    let tail = str_chars("aws4_request");
    hmac_sha256(&k_service, &chars_utf8(&tail))
}

/// The hex signature of `string_to_sign` under `signing_key`.
pub fn compute_signature(signing_key: &[u8], string_to_sign: &str) -> (r: String)
    ensures
        r@ == signature_of(signing_key@, string_to_sign@),
{
    let tag = hmac_sha256(signing_key, string_to_sign.as_bytes());
    hex_encode(&tag)
}


// ---------------------------------------------------------------------------
// Request pieces
// ---------------------------------------------------------------------------

/// The request time: `x-amz-date`, else `date`, else an error.
pub open spec fn spec_timestamp(hs: Seq<(Seq<char>, Seq<u8>)>) -> Result<Seq<char>, Seq<char>> {
    match header_lookup(hs, "x-amz-date"@) {
        Some(v) => Ok(value_text(v)),
        None => match header_lookup(hs, "date"@) {
            Some(v) => Ok(value_text(v)),
            None => Err("缺少 x-amz-date 或 date 头"@),
        },
    }
}

/// The payload hash: `x-amz-content-sha256`, else the hex SHA-256 of the body.
pub open spec fn spec_payload_hash(hs: Seq<(Seq<char>, Seq<u8>)>, body: Seq<u8>) -> Seq<char> {
    match header_lookup(hs, "x-amz-content-sha256"@) {
        Some(v) => value_text(v),
        None => hex_lower(sha256_of(body)),
    }
}

/// One canonical header line `name:value\n` for a signed header that is
/// present with a text value; nothing otherwise. `lookup` is the name the
/// header map is asked for, `shown` the name written.
pub open spec fn header_line(hs: Seq<(Seq<char>, Seq<u8>)>, lookup: Seq<char>, shown: Seq<char>) -> Seq<char> {
    match header_lookup(hs, lookup) {
        Some(v) => if is_visible_ascii(v) {
            shown + seq![':'] + text::trim_spec(bytes_text(v)) + seq!['\n']
        } else {
            Seq::empty()
        },
        None => Seq::empty(),
    }
}

/// The canonical header block for the signed header names. With
/// `lower_first`, each name is lower-cased before the lookup (pre-signed
/// URLs); otherwise it is looked up as given (`Authorization` header).
pub open spec fn canonical_headers(hs: Seq<(Seq<char>, Seq<u8>)>, names: Seq<Seq<char>>, lower_first: bool) -> Seq<char>
    decreases names.len(),
{
    if names.len() == 0 {
        Seq::empty()
    } else {
        let n = names.last();
        let lookup = if lower_first { text::lowercase_of(n) } else { n };
        canonical_headers(hs, names.drop_last(), lower_first) + header_line(hs, lookup, text::lowercase_of(n))
    }
}

/// The signed header names, lower-cased, joined with `;`.
pub open spec fn signed_headers_line(names: Seq<Seq<char>>) -> Seq<char> {
    text::join_with(names.map_values(|n: Seq<char>| text::lowercase_of(n)), seq![';'])
}

/// The six lines of a canonical request.
pub open spec fn canonical_request_text(
    method: Seq<char>,
    path: Seq<char>,
    query: Seq<char>,
    headers: Seq<char>,
    signed: Seq<char>,
    payload_hash: Seq<char>,
) -> Seq<char> {
    method + seq!['\n'] + path + seq!['\n'] + query + seq!['\n'] + headers + seq!['\n'] + signed
        + seq!['\n'] + payload_hash
}

/// The canonical request of a header-signed request.
pub open spec fn spec_canonical_request(
    method: Seq<char>,
    path: Seq<char>,
    query: Seq<char>,
    signed: Seq<Seq<char>>,
    hs: Seq<(Seq<char>, Seq<u8>)>,
    payload_hash: Seq<char>,
) -> Seq<char> {
    canonical_request_text(
        method,
        path,
        sigv4::spec_header_canonical_query(query),
        canonical_headers(hs, signed, false),
        signed_headers_line(signed),
        payload_hash,
    )
}

/// Read the request time from the headers.
pub fn get_timestamp(headers: &HeaderList) -> (r: Result<String, String>)
    ensures
        match r {
            Ok(t) => spec_timestamp(headers@) == Ok::<Seq<char>, Seq<char>>(t@),
            Err(e) => spec_timestamp(headers@) == Err::<Seq<char>, Seq<char>>(e@),
        },
{
    match headers.get(&str_chars("x-amz-date")) {
        Some(v) => {
            return Ok(string_from_chars(&value_text_or_empty(&v)));
        },
        None => {},
    }
    match headers.get(&str_chars("date")) {
        Some(v) => Ok(string_from_chars(&value_text_or_empty(&v))),
        None => Err("缺少 x-amz-date 或 date 头".to_string()),
    }
}

/// The payload hash the signature covers.
pub fn get_payload_hash(headers: &HeaderList, body: &[u8]) -> (r: String)
    ensures
        r@ == spec_payload_hash(headers@, body@),
{
    match headers.get(&str_chars("x-amz-content-sha256")) {
        Some(v) => string_from_chars(&value_text_or_empty(&v)),
        None => hex_encode(&sha256_digest(body)),
    }
}

/// Append the canonical header line for one signed header.
fn push_header_line(out: &mut Vec<char>, headers: &HeaderList, lookup: &[char], shown: &[char])
    ensures
        final(out)@ == old(out)@ + header_line(headers@, lookup@, shown@),
{
    match headers.get(lookup) {
        Some(v) => match value_as_text(&v) {
            Some(t) => {
                let ghost before = out@;
                push_all(out, shown);
                out.push(':');
                push_all(out, &trim_chars(&t));
                out.push('\n');
                assert(out@ =~= before + header_line(headers@, lookup@, shown@));
            },
            None => {
                assert(header_line(headers@, lookup@, shown@) =~= Seq::<char>::empty());
                assert(out@ =~= old(out)@ + Seq::<char>::empty());
            },
        },
        None => {
            assert(out@ =~= old(out)@ + Seq::<char>::empty());
        },
    }
}

/// The canonical header block and the signed-headers line.
fn canonical_header_block(headers: &HeaderList, names: &Vec<Vec<char>>, lower_first: bool) -> (r: (Vec<char>, Vec<char>))
    ensures
        r.0@ == canonical_headers(headers@, names.deep_view(), lower_first),
        r.1@ == signed_headers_line(names.deep_view()),
{
    let ghost nv = names.deep_view();
    let mut block: Vec<char> = Vec::new();
    let mut lowered: Vec<Vec<char>> = Vec::new();
    let mut i: usize = 0;
    while i < names.len()
        invariant
            i <= names.len(),
            nv == names.deep_view(),
            block@ == canonical_headers(headers@, nv.subrange(0, i as int), lower_first),
            lowered.deep_view() == nv.subrange(0, i as int).map_values(|n: Seq<char>| text::lowercase_of(n)),
        decreases names.len() - i,
    {
        let ghost next = nv.subrange(0, i + 1);
        assert(next.drop_last() =~= nv.subrange(0, i as int));
        assert(next.last() == names@[i as int]@);
        let lower = to_lowercase_chars(&names[i]);
        if lower_first {
            push_header_line(&mut block, headers, &lower, &lower);
        } else {
            push_header_line(&mut block, headers, &names[i], &lower);
        }
        let ghost before = lowered.deep_view();
        let ghost lv = lower@;
        lowered.push(lower);
        assert(lowered.deep_view() =~= before.push(lv));
        assert(next.map_values(|n: Seq<char>| text::lowercase_of(n)) =~= nv.subrange(0, i as int).map_values(|n: Seq<char>| text::lowercase_of(n)).push(lv));
        i = i + 1;
    }
    assert(nv.subrange(0, i as int) =~= nv);
    let semi = str_chars(";");
    proof {
        reveal_strlit(";");
    }
    assert(semi@ =~= seq![';']);
    let line = join_chars(&lowered, &semi);
    (block, line)
}

/// Assemble the six canonical-request lines.
fn assemble_canonical_request(
    method: &[char],
    path: &[char],
    query: &[char],
    headers: &[char],
    signed: &[char],
    payload_hash: &[char],
) -> (r: Vec<char>)
    ensures
        r@ == canonical_request_text(method@, path@, query@, headers@, signed@, payload_hash@),
{
    let mut out: Vec<char> = Vec::new();
    push_all(&mut out, method);
    out.push('\n');
    push_all(&mut out, path);
    out.push('\n');
    push_all(&mut out, query);
    out.push('\n');
    push_all(&mut out, headers);
    out.push('\n');
    push_all(&mut out, signed);
    out.push('\n');
    push_all(&mut out, payload_hash);
    assert(out@ =~= canonical_request_text(method@, path@, query@, headers@, signed@, payload_hash@));
    out
}

fn strings_to_chars(v: &[String]) -> (r: Vec<Vec<char>>)
    ensures
        r.deep_view() == v@.map_values(|s: String| s@),
{
    let mut r: Vec<Vec<char>> = Vec::new();
    let mut i: usize = 0;
    while i < v.len()
        invariant
            i <= v.len(),
            r.deep_view() == v@.subrange(0, i as int).map_values(|s: String| s@),
        decreases v.len() - i,
    {
        let c = str_chars(v[i].as_str());
        let ghost before = r.deep_view();
        let ghost cv = c@;
        r.push(c);
        assert(r.deep_view() =~= before.push(cv));
        assert(v@.subrange(0, i + 1).map_values(|s: String| s@) =~= v@.subrange(0, i as int).map_values(|s: String| s@).push(cv));
        i = i + 1;
    }
    assert(v@.subrange(0, i as int) =~= v@);
    r
}

/// Build the canonical request of a header-signed request: method, path,
/// sorted raw query, the signed headers that are present, the signed header
/// names and the payload hash, one per line.
pub fn build_canonical_request(
    method: &str,
    path: &str,
    query: Option<&str>,
    signed_headers: &[String],
    headers: &HeaderList,
    payload_hash: &str,
) -> (r: String)
    ensures
        r@ == spec_canonical_request(
            method@,
            path@,
            match query {
                Some(q) => q@,
                None => Seq::<char>::empty(),
            },
            signed_headers@.map_values(|s: String| s@),
            headers@,
            payload_hash@,
        ),
{
    let q = match query {
        Some(q) => str_chars(q),
        None => Vec::new(),
    };
    let cq = header_canonical_query(&q);
    let names = strings_to_chars(signed_headers);
    let (block, line) = canonical_header_block(headers, &names, false);
    let out = assemble_canonical_request(
        &str_chars(method),
        &str_chars(path),
        &cq,
        &block,
        &line,
        &str_chars(payload_hash),
    );
    string_from_chars(&out)
}


// ---------------------------------------------------------------------------
// Authorization header
// ---------------------------------------------------------------------------

/// The fields of an `Authorization: AWS4-HMAC-SHA256 ...` header.
pub struct AwsV4Auth {
    pub access_key: String,
    pub date: String,
    pub region: String,
    pub service: String,
    pub signed_headers: Vec<String>,
    pub signature: String,
}

/// What an `AwsV4Auth` holds, as character sequences.
pub struct AuthView {
    pub access_key: Seq<char>,
    pub date: Seq<char>,
    pub region: Seq<char>,
    pub service: Seq<char>,
    pub signed_headers: Seq<Seq<char>>,
    pub signature: Seq<char>,
}

impl View for AwsV4Auth {
    type V = AuthView;

    open spec fn view(&self) -> AuthView {
        AuthView {
            access_key: self.access_key@,
            date: self.date@,
            region: self.region@,
            service: self.service@,
            signed_headers: self.signed_headers@.map_values(|s: String| s@),
            signature: self.signature@,
        }
    }
}

/// All fields empty.
pub open spec fn empty_auth() -> AuthView {
    AuthView {
        access_key: Seq::empty(),
        date: Seq::empty(),
        region: Seq::empty(),
        service: Seq::empty(),
        signed_headers: Seq::empty(),
        signature: Seq::empty(),
    }
}

/// One `, `-separated part of the header applied to the fields read so far:
/// `Credential=` sets the first four credential fields when it has at least
/// five `/`-separated pieces, `SignedHeaders=` sets the `;`-separated names,
/// `Signature=` sets the signature; anything else changes nothing.
pub open spec fn auth_step(a: AuthView, part: Seq<char>) -> AuthView {
    if text::has_prefix(part, "Credential="@) {
        let cps = text::split_by(part.subrange("Credential="@.len() as int, part.len() as int), seq!['/']);
        if cps.len() >= 5 {
            AuthView {
                access_key: cps[0],
                date: cps[1],
                region: cps[2],
                service: cps[3],
                signed_headers: a.signed_headers,
                signature: a.signature,
            }
        } else {
            a
        }
    } else if text::has_prefix(part, "SignedHeaders="@) {
        AuthView {
            access_key: a.access_key,
            date: a.date,
            region: a.region,
            service: a.service,
            signed_headers: text::split_by(
                part.subrange("SignedHeaders="@.len() as int, part.len() as int),
                seq![';'],
            ),
            signature: a.signature,
        }
    } else if text::has_prefix(part, "Signature="@) {
        AuthView {
            access_key: a.access_key,
            date: a.date,
            region: a.region,
            service: a.service,
            signed_headers: a.signed_headers,
            signature: part.subrange("Signature="@.len() as int, part.len() as int),
        }
    } else {
        a
    }
}

/// The fields after reading the parts left to right.
pub open spec fn auth_fold(parts: Seq<Seq<char>>) -> AuthView
    decreases parts.len(),
{
    if parts.len() == 0 {
        empty_auth()
    } else {
        auth_step(auth_fold(parts.drop_last()), parts.last())
    }
}

/// Parsing an `Authorization` header: the algorithm prefix must be
/// `AWS4-HMAC-SHA256 `; the rest is split at `, `; the access key and the
/// signature must come out non-empty.
pub open spec fn spec_parse_authorization(header: Seq<char>) -> Result<AuthView, Seq<char>> {
    if !text::has_prefix(header, "AWS4-HMAC-SHA256 "@) {
        Err("不支持的签名算法"@)
    } else {
        let a = auth_fold(
            text::split_by(header.subrange("AWS4-HMAC-SHA256 "@.len() as int, header.len() as int), ", "@),
        );
        if a.access_key.len() == 0 || a.signature.len() == 0 {
            Err("Authorization 头格式无效"@)
        } else {
            Ok(a)
        }
    }
}

/// The rest of `s` after the prefix `p`, if `s` starts with it.
fn strip_prefix_chars(s: &[char], p: &[char]) -> (r: Option<Vec<char>>)
    ensures
        match r {
            Some(t) => text::has_prefix(s@, p@) && t@ == s@.subrange(p@.len() as int, s@.len() as int),
            None => !text::has_prefix(s@, p@),
        },
{
    if starts_with(s, p) {
        Some(chars_from(s, p.len()))
    } else {
        None
    }
}

/// Parse an `Authorization` header of the form
/// `AWS4-HMAC-SHA256 Credential=<ak>/<date>/<region>/<service>/aws4_request, SignedHeaders=<h1>;<h2>, Signature=<sig>`.
pub fn parse_authorization_header(header: &str) -> (r: Result<AwsV4Auth, String>)
    ensures
        match r {
            Ok(a) => spec_parse_authorization(header@) == Ok::<AuthView, Seq<char>>(a@),
            Err(e) => spec_parse_authorization(header@) == Err::<AuthView, Seq<char>>(e@),
        },
{
    let h = str_chars(header);
    let algo = str_chars("AWS4-HMAC-SHA256 ");
    let rest = match strip_prefix_chars(&h, &algo) {
        Some(rest) => rest,
        None => {
            return Err("不支持的签名算法".to_string());
        },
    };
    let sep = str_chars(", ");
    proof {
        reveal_strlit(", ");
    }
    let parts = split_chars(&rest, &sep);
    let ghost pv = parts.deep_view();
    let cred_p = str_chars("Credential=");
    let sh_p = str_chars("SignedHeaders=");
    let sig_p = str_chars("Signature=");
    let slash: [char; 1] = ['/'];
    let semi: [char; 1] = [';'];
    assert(slash@ =~= seq!['/']);
    assert(semi@ =~= seq![';']);
    let mut access_key: Vec<char> = Vec::new();
    let mut date: Vec<char> = Vec::new();
    let mut region: Vec<char> = Vec::new();
    let mut service: Vec<char> = Vec::new();
    let mut signed: Vec<Vec<char>> = Vec::new();
    let mut signature: Vec<char> = Vec::new();
    let mut i: usize = 0;
    assert(pv.subrange(0, 0) =~= Seq::<Seq<char>>::empty());
    assert(signed.deep_view() =~= Seq::<Seq<char>>::empty());
    while i < parts.len()
        invariant
            i <= parts.len(),
            pv == parts.deep_view(),
            cred_p@ == "Credential="@,
            sh_p@ == "SignedHeaders="@,
            sig_p@ == "Signature="@,
            slash@ == seq!['/'],
            semi@ == seq![';'],
            auth_fold(pv.subrange(0, i as int)) == (AuthView {
                access_key: access_key@,
                date: date@,
                region: region@,
                service: service@,
                signed_headers: signed.deep_view(),
                signature: signature@,
            }),
        decreases parts.len() - i,
    {
        let ghost next = pv.subrange(0, i + 1);
        assert(next.drop_last() =~= pv.subrange(0, i as int));
        assert(next.last() == parts@[i as int]@);
        let part = &parts[i];
        match strip_prefix_chars(part, &cred_p) {
            Some(value) => {
                let cps = split_chars(&value, &slash);
                if cps.len() >= 5 {
                    assert(cps.deep_view()[0] == cps@[0]@);
                    assert(cps.deep_view()[1] == cps@[1]@);
                    assert(cps.deep_view()[2] == cps@[2]@);
                    assert(cps.deep_view()[3] == cps@[3]@);
                    access_key = cps[0].clone();
                    date = cps[1].clone();
                    region = cps[2].clone();
                    service = cps[3].clone();
                }
            },
            None => match strip_prefix_chars(part, &sh_p) {
                Some(value) => {
                    signed = split_chars(&value, &semi);
                },
                None => match strip_prefix_chars(part, &sig_p) {
                    Some(value) => {
                        signature = value;
                    },
                    None => {},
                },
            },
        }
        i = i + 1;
    }
    assert(pv.subrange(0, i as int) =~= pv);
    if access_key.len() == 0 || signature.len() == 0 {
        return Err("Authorization 头格式无效".to_string());
    }
    let signed_headers = text::strings_from_char_vecs(&signed);
    Ok(AwsV4Auth {
        access_key: string_from_chars(&access_key),
        date: string_from_chars(&date),
        region: string_from_chars(&region),
        service: string_from_chars(&service),
        signed_headers,
        signature: string_from_chars(&signature),
    })
}


// ---------------------------------------------------------------------------
// Verification
// ---------------------------------------------------------------------------

/// Credentials and region of the S3 endpoint.
pub struct S3Config {
    pub access_key: String,
    pub secret_key: String,
    pub region: String,
}

impl Default for S3Config {
    fn default() -> (r: S3Config)
        ensures
            r.access_key@ == "admin"@,
            r.secret_key@ == "laoflchdb"@,
            r.region@ == "us-east-1"@,
    {
        S3Config {
            access_key: "admin".to_string(),
            secret_key: "laoflchdb".to_string(),
            region: "us-east-1".to_string(),
        }
    }
}

/// `Access Key 无效 (期望={expected}, 实际={actual})`.
pub open spec fn access_key_error(expected: Seq<char>, actual: Seq<char>) -> Seq<char> {
    "Access Key 无效 (期望="@ + expected + ", 实际="@ + actual + seq![')']
}

/// `签名验证失败 (期望={expected}, 实际={actual})`.
pub open spec fn signature_error(expected: Seq<char>, actual: Seq<char>) -> Seq<char> {
    "签名验证失败 (期望="@ + expected + ", 实际="@ + actual + seq![')']
}

/// The final comparison: the signature computed for the request must equal
/// the one presented.
pub open spec fn signature_check(expected: Seq<char>, presented: Seq<char>) -> Result<(), Seq<char>> {
    if expected != presented {
        Err(signature_error(expected, presented))
    } else {
        Ok(())
    }
}

/// The decision for a request that carries an `Authorization` header.
pub open spec fn spec_header_auth(
    access_key: Seq<char>,
    secret_key: Seq<char>,
    method: Seq<char>,
    path: Seq<char>,
    query: Seq<char>,
    hs: Seq<(Seq<char>, Seq<u8>)>,
    body: Seq<u8>,
    auth_header: Seq<char>,
) -> Result<(), Seq<char>> {
    match spec_parse_authorization(auth_header) {
        Err(e) => Err(e),
        Ok(a) => if a.access_key != access_key {
            Err(access_key_error(access_key, a.access_key))
        } else {
            match spec_timestamp(hs) {
                Err(e) => Err(e),
                Ok(ts) => {
                    let cr = spec_canonical_request(
                        method,
                        path,
                        query,
                        a.signed_headers,
                        hs,
                        spec_payload_hash(hs, body),
                    );
                    let sts = string_to_sign(ts, credential_scope(a.date, a.region, a.service), cr);
                    let key = signing_key(secret_key, a.date, a.region, a.service);
                    signature_check(signature_of(key, sts), a.signature)
                },
            }
        },
    }
}

fn message_with_pair(head: &str, expected: &[char], actual: &[char]) -> (r: Vec<char>)
    ensures
        r@ == head@ + expected@ + ", 实际="@ + actual@ + seq![')'],
{
    let mut m = str_chars(head);
    push_all(&mut m, expected);
    push_all(&mut m, &str_chars(", 实际="));
    push_all(&mut m, actual);
    m.push(')');
    m
}

/// Compare the computed signature with the presented one.
fn check_signature(expected: &[char], presented: &[char]) -> (r: Result<(), String>)
    ensures
        match r {
            Ok(_) => signature_check(expected@, presented@) == Ok::<(), Seq<char>>(()),
            Err(e) => signature_check(expected@, presented@) == Err::<(), Seq<char>>(e@),
        },
{
    if !chars_eq(expected, presented) {
        let m = message_with_pair("签名验证失败 (期望=", expected, presented);
        return Err(string_from_chars(&m));
    }
    Ok(())
}

/// Verify a request signed in its `Authorization` header.
pub fn verify_header_auth(
    config: &S3Config,
    method: &str,
    path: &str,
    query: Option<&str>,
    headers: &HeaderList,
    body: &[u8],
    auth_header: &str,
) -> (r: Result<(), String>)
    ensures
        match r {
            Ok(_) => spec_header_auth(
                config.access_key@,
                config.secret_key@,
                method@,
                path@,
                match query {
                    Some(q) => q@,
                    None => Seq::<char>::empty(),
                },
                headers@,
                body@,
                auth_header@,
            ) == Ok::<(), Seq<char>>(()),
            Err(e) => spec_header_auth(
                config.access_key@,
                config.secret_key@,
                method@,
                path@,
                match query {
                    Some(q) => q@,
                    None => Seq::<char>::empty(),
                },
                headers@,
                body@,
                auth_header@,
            ) == Err::<(), Seq<char>>(e@),
        },
{
    let auth = match parse_authorization_header(auth_header) {
        Ok(a) => a,
        Err(e) => {
            return Err(e);
        },
    };
    let ak = str_chars(auth.access_key.as_str());
    let cfg_ak = str_chars(config.access_key.as_str());
    if !chars_eq(&ak, &cfg_ak) {
        let m = message_with_pair("Access Key 无效 (期望=", &cfg_ak, &ak);
        return Err(string_from_chars(&m));
    }
    let timestamp = match get_timestamp(headers) {
        Ok(t) => t,
        Err(e) => {
            return Err(e);
        },
    };
    let mut scope = str_chars(auth.date.as_str());
    scope.push('/');
    push_all(&mut scope, &str_chars(auth.region.as_str()));
    scope.push('/');
    push_all(&mut scope, &str_chars(auth.service.as_str()));
    push_all(&mut scope, &str_chars("/aws4_request"));
    let scope_s = string_from_chars(&scope);
    let payload_hash = get_payload_hash(headers, body);
    let canonical_request = build_canonical_request(
        method,
        path,
        query,
        &auth.signed_headers,
        headers,
        payload_hash.as_str(),
    );
    let sts = build_string_to_sign(timestamp.as_str(), scope_s.as_str(), canonical_request.as_str());
    let key = compute_signing_key(
        config.secret_key.as_str(),
        auth.date.as_str(),
        auth.region.as_str(),
        auth.service.as_str(),
    );
    let expected = compute_signature(&key, sts.as_str());
    proof {
        assert(scope@ =~= credential_scope(auth.date@, auth.region@, auth.service@));
    }
    check_signature(&str_chars(expected.as_str()), &str_chars(auth.signature.as_str()))
}


/// The decision for a pre-signed URL (signature in the query string).
pub open spec fn spec_query_auth(
    access_key: Seq<char>,
    secret_key: Seq<char>,
    method: Seq<char>,
    path: Seq<char>,
    hs: Seq<(Seq<char>, Seq<u8>)>,
    query: Seq<char>,
) -> Result<(), Seq<char>> {
    let m = sigv4::spec_query_params(query);
    if !m.contains_key("X-Amz-Signature"@) {
        Err("缺少 X-Amz-Signature"@)
    } else if !m.contains_key("X-Amz-Credential"@) {
        Err("缺少 X-Amz-Credential"@)
    } else if !m.contains_key("X-Amz-SignedHeaders"@) {
        Err("缺少 X-Amz-SignedHeaders"@)
    } else if !m.contains_key("X-Amz-Date"@) {
        Err("缺少 X-Amz-Date"@)
    } else if !m.contains_key("X-Amz-Algorithm"@) {
        Err("缺少 X-Amz-Algorithm"@)
    } else {
        let cps = text::split_by(m["X-Amz-Credential"@], seq!['/']);
        let algorithm = m["X-Amz-Algorithm"@];
        if cps.len() < 5 {
            Err("X-Amz-Credential 格式无效"@)
        } else if cps[0] != access_key {
            Err(access_key_error(access_key, cps[0]))
        } else if algorithm != "AWS4-HMAC-SHA256"@ {
            Err("不支持的签名算法: "@ + algorithm)
        } else {
            let names = text::split_by(m["X-Amz-SignedHeaders"@], seq![';']).map_values(
                |n: Seq<char>| text::trim_spec(n),
            );
            let cr = canonical_request_text(
                method,
                path,
                sigv4::spec_canonical_query(query),
                canonical_headers(hs, names, true),
                signed_headers_line(names),
                "UNSIGNED-PAYLOAD"@,
            );
            let sts = string_to_sign(m["X-Amz-Date"@], credential_scope(cps[1], cps[2], cps[3]), cr);
            let key = signing_key(secret_key, cps[1], cps[2], cps[3]);
            signature_check(signature_of(key, sts), m["X-Amz-Signature"@])
        }
    }
}

/// Verify a pre-signed URL: the signature, credential, signed headers, date
/// and algorithm come from the query parameters and the payload is
/// `UNSIGNED-PAYLOAD`.
pub fn verify_query_auth(
    config: &S3Config,
    method: &str,
    path: &str,
    headers: &HeaderList,
    query: &str,
) -> (r: Result<(), String>)
    ensures
        match r {
            Ok(_) => spec_query_auth(config.access_key@, config.secret_key@, method@, path@, headers@, query@)
                == Ok::<(), Seq<char>>(()),
            Err(e) => spec_query_auth(config.access_key@, config.secret_key@, method@, path@, headers@, query@)
                == Err::<(), Seq<char>>(e@),
        },
{
    let params = parse_query_string(query);
    let signature = match params.get_str("X-Amz-Signature") {
        Some(v) => v,
        None => {
            return Err("缺少 X-Amz-Signature".to_string());
        },
    };
    let credential = match params.get_str("X-Amz-Credential") {
        Some(v) => v,
        None => {
            return Err("缺少 X-Amz-Credential".to_string());
        },
    };
    let signed_headers_str = match params.get_str("X-Amz-SignedHeaders") {
        Some(v) => v,
        None => {
            return Err("缺少 X-Amz-SignedHeaders".to_string());
        },
    };
    let date = match params.get_str("X-Amz-Date") {
        Some(v) => v,
        None => {
            return Err("缺少 X-Amz-Date".to_string());
        },
    };
    let algorithm = match params.get_str("X-Amz-Algorithm") {
        Some(v) => v,
        None => {
            return Err("缺少 X-Amz-Algorithm".to_string());
        },
    };
    let slash: [char; 1] = ['/'];
    assert(slash@ =~= seq!['/']);
    let cps = split_chars(&str_chars(credential.as_str()), &slash);
    if cps.len() < 5 {
        return Err("X-Amz-Credential 格式无效".to_string());
    }
    assert(cps.deep_view()[0] == cps@[0]@);
    assert(cps.deep_view()[1] == cps@[1]@);
    assert(cps.deep_view()[2] == cps@[2]@);
    assert(cps.deep_view()[3] == cps@[3]@);
    let cfg_ak = str_chars(config.access_key.as_str());
    if !chars_eq(&cps[0], &cfg_ak) {
        let m = message_with_pair("Access Key 无效 (期望=", &cfg_ak, &cps[0]);
        return Err(string_from_chars(&m));
    }
    let alg = str_chars(algorithm.as_str());
    if !chars_eq(&alg, &str_chars("AWS4-HMAC-SHA256")) {
        let mut m = str_chars("不支持的签名算法: ");
        push_all(&mut m, &alg);
        return Err(string_from_chars(&m));
    }
    let canonical_query = build_canonical_query_string(query, &params);
    let semi: [char; 1] = [';'];
    assert(semi@ =~= seq![';']);
    let raw_names = split_chars(&str_chars(signed_headers_str.as_str()), &semi);
    let ghost rv = raw_names.deep_view();
    let mut names: Vec<Vec<char>> = Vec::new();
    let mut i: usize = 0;
    while i < raw_names.len()
        invariant
            i <= raw_names.len(),
            rv == raw_names.deep_view(),
            names.deep_view() == rv.subrange(0, i as int).map_values(|n: Seq<char>| text::trim_spec(n)),
        decreases raw_names.len() - i,
    {
        let t = trim_chars(&raw_names[i]);
        let ghost before = names.deep_view();
        let ghost tv = t@;
        names.push(t);
        assert(names.deep_view() =~= before.push(tv));
        assert(rv.subrange(0, i + 1).map_values(|n: Seq<char>| text::trim_spec(n)) =~= rv.subrange(0, i as int).map_values(|n: Seq<char>| text::trim_spec(n)).push(text::trim_spec(rv[i as int])));
        i = i + 1;
    }
    assert(rv.subrange(0, i as int) =~= rv);
    let (block, line) = canonical_header_block(headers, &names, true);
    let canonical_request = assemble_canonical_request(
        &str_chars(method),
        &str_chars(path),
        &str_chars(canonical_query.as_str()),
        &block,
        &line,
        &str_chars("UNSIGNED-PAYLOAD"),
    );
    let mut scope = cps[1].clone();
    scope.push('/');
    push_all(&mut scope, &cps[2]);
    scope.push('/');
    push_all(&mut scope, &cps[3]);
    push_all(&mut scope, &str_chars("/aws4_request"));
    proof {
        assert(scope@ =~= credential_scope(cps@[1]@, cps@[2]@, cps@[3]@));
    }
    let sts = build_string_to_sign(
        date.as_str(),
        string_from_chars(&scope).as_str(),
        string_from_chars(&canonical_request).as_str(),
    );
    let key = compute_signing_key(
        config.secret_key.as_str(),
        string_from_chars(&cps[1]).as_str(),
        string_from_chars(&cps[2]).as_str(),
        string_from_chars(&cps[3]).as_str(),
    );
    let expected = compute_signature(&key, sts.as_str());
    check_signature(&str_chars(expected.as_str()), &str_chars(signature.as_str()))
}

/// The decision for any request: an `Authorization` header with a text value
/// selects header verification; otherwise the query string is checked as a
/// pre-signed URL.
pub open spec fn spec_verify_request(
    access_key: Seq<char>,
    secret_key: Seq<char>,
    method: Seq<char>,
    path: Seq<char>,
    query: Seq<char>,
    hs: Seq<(Seq<char>, Seq<u8>)>,
    body: Seq<u8>,
) -> Result<(), Seq<char>> {
    match header_lookup(hs, "authorization"@) {
        Some(v) => if is_visible_ascii(v) {
            spec_header_auth(access_key, secret_key, method, path, query, hs, body, bytes_text(v))
        } else {
            spec_query_auth(access_key, secret_key, method, path, hs, query)
        },
        None => spec_query_auth(access_key, secret_key, method, path, hs, query),
    }
}

/// Verify the AWS Signature V4 of a request, by its `Authorization` header
/// or, without one, as a pre-signed URL. The header name is matched without
/// regard to ASCII case.
pub fn verify_aws_v4_signature(
    config: &S3Config,
    method: &str,
    path: &str,
    query: Option<&str>,
    headers: &HeaderList,
    body: &[u8],
) -> (r: Result<(), String>)
    ensures
        match r {
            Ok(_) => spec_verify_request(
                config.access_key@,
                config.secret_key@,
                method@,
                path@,
                match query {
                    Some(q) => q@,
                    None => Seq::<char>::empty(),
                },
                headers@,
                body@,
            ) == Ok::<(), Seq<char>>(()),
            Err(e) => spec_verify_request(
                config.access_key@,
                config.secret_key@,
                method@,
                path@,
                match query {
                    Some(q) => q@,
                    None => Seq::<char>::empty(),
                },
                headers@,
                body@,
            ) == Err::<(), Seq<char>>(e@),
        },
{
    match headers.get(&str_chars("authorization")) {
        Some(v) => match value_as_text(&v) {
            Some(t) => {
                let auth = string_from_chars(&t);
                return verify_header_auth(config, method, path, query, headers, body, auth.as_str());
            },
            None => {},
        },
        None => {},
    }
    let q = match query {
        Some(q) => q,
        None => "",
    };
    proof {
        reveal_strlit("");
    }
    assert(q@ == match query {
        Some(q) => q@,
        None => Seq::<char>::empty(),
    });
    verify_query_auth(config, method, path, headers, q)
}

} // verus!
