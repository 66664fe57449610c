use vstd::prelude::*;
use base64::Engine;
use rsa::pkcs8::{DecodePrivateKey, DecodePublicKey};
use rsa::sha2::Digest;
use rsa::signature::{SignatureEncoding, Signer, Verifier};
use vstd::string::*;
use crate::http::{HttpRequest, header_value, hview, insert_header, lookup_header, set_header, HeaderView, lemma_header_value_push};
use crate::text::cat2;

verus! {

/// The SHA-256 digest of `b`.
pub uninterp spec fn sha256_of(b: Seq<u8>) -> Seq<u8>;

/// The standard (padded) base64 text of `b`.
pub uninterp spec fn base64_of(b: Seq<u8>) -> Seq<char>;

/// The bytes that the standard (padded) base64 text `s` stands for, if it is valid.
pub uninterp spec fn base64_decoded_of(s: Seq<char>) -> Option<Seq<u8>>;

/// The RFC 1123 rendering (`%a, %d %b %Y %H:%M:%S GMT`) of a Unix time in
/// seconds; `None` for a time outside the calendar's range.
pub uninterp spec fn http_date_of(secs: i64) -> Option<Seq<char>>;

/// The RSASSA-PKCS1-v1_5 SHA-256 signature of `msg` under the private key in
/// the PKCS#8 PEM text `pem`; `None` when the key cannot be read or is too
/// small for the digest.
pub uninterp spec fn rsa_signature_of(pem: Seq<char>, msg: Seq<u8>) -> Option<Seq<u8>>;

/// The `Date` text the signer writes for `now` (empty when it has none).
pub open spec fn date_text(now: i64) -> Seq<char> {
    match http_date_of(now) {
        Some(d) => d,
        None => Seq::empty(),
    }
}

/// `c` with an ASCII capital lowered.
pub open spec fn lower_char(c: char) -> char {
    if 'A' <= c <= 'Z' {
        ((c as u32) + 32) as char
    } else {
        c
    }
}

/// `s` with its ASCII capitals lowered.
pub open spec fn ascii_lower_of(s: Seq<char>) -> Seq<char> {
    Seq::new(s.len(), |i: int| lower_char(s[i]))
}

/// Whether the RSASSA-PKCS1-v1_5 SHA-256 signature `sig` of `msg` checks out
/// under the public key in the PEM text `pem`; `None` when the key or the
/// signature cannot be read.
pub uninterp spec fn rsa_check_of(pem: Seq<char>, msg: Seq<u8>, sig: Seq<u8>) -> Option<bool>;

/// Relies on sha2's `Sha256::digest`: the 32-byte digest of the input.
#[verifier::external_body]
pub(crate) fn sha256(b: &[u8]) -> (r: Vec<u8>)
    ensures
        r@ == sha256_of(b@),
{
    rsa::sha2::Sha256::digest(b).to_vec()
}

/// A character of the standard base64 alphabet, padding included.
pub open spec fn is_base64_char(c: char) -> bool {
    ('A' <= c <= 'Z') || ('a' <= c <= 'z') || ('0' <= c <= '9') || c == '+' || c == '/' || c == '='
}

/// Text made of base64 characters only.
pub open spec fn is_base64_text(s: Seq<char>) -> bool {
    forall|i: int| 0 <= i < s.len() ==> is_base64_char(#[trigger] s[i])
}

/// Relies on base64's `STANDARD.encode`, which writes the standard alphabet
/// with `=` padding, and which `STANDARD.decode` reads back to the same bytes.
#[verifier::external_body]
pub(crate) fn base64_encode(b: &[u8]) -> (r: String)
    ensures
        r@ == base64_of(b@),
        is_base64_text(r@),
        base64_decoded_of(r@) == Some(b@),
{
    base64::engine::general_purpose::STANDARD.encode(b)
}

/// Relies on base64's `STANDARD.decode`, which refuses text that is not
/// valid padded base64.
#[verifier::external_body]
pub(crate) fn base64_decode(s: &str) -> (r: Option<Vec<u8>>)
    ensures
        match base64_decoded_of(s@) {
            Some(b) => r matches Some(v) && v@ == b,
            None => r is None,
        },
{
    base64::engine::general_purpose::STANDARD.decode(s.as_bytes()).ok()
}

/// Relies on chrono's `DateTime::<Utc>::from_timestamp` (which has no value
/// for instants out of its range) and `format`.
#[verifier::external_body]
pub(crate) fn http_date(secs: i64) -> (r: Option<String>)
    ensures
        match http_date_of(secs) {
            Some(d) => r matches Some(t) && t@ == d,
            None => r is None,
        },
{
    chrono::DateTime::<chrono::Utc>::from_timestamp(secs, 0).map(
        |d| d.format("%a, %d %b %Y %H:%M:%S GMT").to_string(),
    )
}

/// Relies on `String::push`: appends one character.
#[verifier::external_body]
fn push_char(s: &mut String, c: char)
    ensures
        final(s)@ == old(s)@.push(c),
{
    s.push(c)
}

/// `s` with its ASCII capitals lowered.
pub fn ascii_lower(s: &str) -> (r: String)
    ensures
        r@ == ascii_lower_of(s@),
{
    let n = s.unicode_len();
    let mut out = String::new();
    let mut i: usize = 0;
    while i < n
        invariant
            n == s@.len(),
            i <= n,
            out@ =~= ascii_lower_of(s@.subrange(0, i as int)),
        decreases n - i,
    {
        let c = s.get_char(i);
        let l = if 'A' <= c && c <= 'Z' {
            (((c as u32) + 32) as u8) as char
        } else {
            c
        };
        push_char(&mut out, l);
        assert(ascii_lower_of(s@.subrange(0, i + 1)) =~= ascii_lower_of(s@.subrange(0, i as int)).push(l));
        i = i + 1;
    }
    assert(s@.subrange(0, n as int) =~= s@);
    out
}

/// Relies on rsa's `RsaPrivateKey::from_pkcs8_pem`,
/// `pkcs1v15::SigningKey::<Sha256>::new` and `Signer::try_sign`: PKCS#1 v1.5
/// signing draws no random numbers, so the result depends on the key and the
/// message alone.
#[verifier::external_body]
pub(crate) fn rsa_sign(pem: &str, msg: &[u8]) -> (r: Option<Vec<u8>>)
    ensures
        match rsa_signature_of(pem@, msg@) {
            Some(sig) => r matches Some(v) && v@ == sig,
            None => r is None,
        },
{
    let key = rsa::RsaPrivateKey::from_pkcs8_pem(pem).ok()?;
    rsa::pkcs1v15::SigningKey::<rsa::sha2::Sha256>::new(key).try_sign(msg).ok().map(|s| s.to_vec())
}

/// Relies on rsa's `RsaPublicKey::from_public_key_pem`, `Signature::try_from`
/// and `VerifyingKey::<Sha256>::verify`.
#[verifier::external_body]
pub(crate) fn rsa_check(pem: &str, msg: &[u8], sig: &[u8]) -> (r: Option<bool>)
    ensures
        r == rsa_check_of(pem@, msg@, sig@),
{
    let key = rsa::RsaPublicKey::from_public_key_pem(pem).ok()?;
    let sig = rsa::pkcs1v15::Signature::try_from(sig).ok()?;
    let key = rsa::pkcs1v15::VerifyingKey::<rsa::sha2::Sha256>::new(key);
    Some(key.verify(msg, &sig).is_ok())
}

/// `SHA-256=<base64 of the body's SHA-256>`: the `Digest` header of a body.
pub open spec fn digest_line(body: Seq<u8>) -> Seq<char> {
    "SHA-256="@ + base64_of(sha256_of(body))
}

/// The covered string of the fixed signed-header list
/// `(request-target) date host digest`.
pub open spec fn covered_string(
    method: Seq<char>,
    path: Seq<char>,
    date: Seq<char>,
    host: Seq<char>,
    digest: Seq<char>,
) -> Seq<char> {
    "(request-target): "@ + ascii_lower_of(method) + " "@ + path + "\ndate: "@ + date + "\nhost: "@
        + host + "\ndigest: "@ + digest
}

/// The `Signature` header of a request signed with `key_id`.
pub open spec fn signature_line(key_id: Seq<char>, sig_b64: Seq<char>) -> Seq<char> {
    "keyId=\""@ + key_id
        + "\",algorithm=\"rsa-sha256\",headers=\"(request-target) date host digest\",signature=\""@
        + sig_b64 + "\""@
}

/// The header fields once `Host` and `Date` are filled in where missing and
/// `Digest` is set.
pub open spec fn prepared_headers(
    hs: HeaderView,
    authority: Seq<char>,
    date: Seq<char>,
    body: Seq<u8>,
) -> HeaderView {
    let h1 = if header_value(hs, "host"@) is None {
        hs.push(("host"@, authority))
    } else {
        hs
    };
    let h2 = if header_value(h1, "date"@) is None {
        h1.push(("date"@, date))
    } else {
        h1
    };
    set_header(h2, "digest"@, digest_line(body))
}

pub fn digest_header(body: &[u8]) -> (r: String)
    ensures
        r@ == digest_line(body@),
{
    let d = sha256(body);
    let b = base64_encode(d.as_slice());
    cat2("SHA-256=", b.as_str())
}

pub fn covered_string_of(method: &str, path: &str, date: &str, host: &str, digest: &str) -> (r: String)
    ensures
        r@ == covered_string(method@, path@, date@, host@, digest@),
{
    let mut s = String::from_str("(request-target): ");
    s.append(ascii_lower(method).as_str());
    s.append(" ");
    s.append(path);
    s.append("\ndate: ");
    s.append(date);
    s.append("\nhost: ");
    s.append(host);
    s.append("\ndigest: ");
    s.append(digest);
    s
}

pub fn signature_header(key_id: &str, sig_b64: &str) -> (r: String)
    ensures
        r@ == signature_line(key_id@, sig_b64@),
{
    let mut s = String::from_str("keyId=\"");
    s.append(key_id);
    s.append("\",algorithm=\"rsa-sha256\",headers=\"(request-target) date host digest\",signature=\"");
    s.append(sig_b64);
    s.append("\"");
    s
}

/// The string that `sign` signs for `req` at Unix time `now`: the covered
/// string over the request's `Date` and `Host` once filled in, and the digest
/// of its body.
pub open spec fn signing_string(req: HttpRequest, now: i64) -> Seq<char> {
    let hs = hview(req.headers@);
    let h1 = if header_value(hs, "host"@) is None {
        hs.push(("host"@, req.authority@))
    } else {
        hs
    };
    let h2 = if header_value(h1, "date"@) is None {
        h1.push(("date"@, date_text(now)))
    } else {
        h1
    };
    covered_string(
        req.method@,
        req.path_and_query@,
        header_value(h2, "date"@).unwrap(),
        header_value(h2, "host"@).unwrap(),
        digest_line(req.body@),
    )
}

/// The header fields of `req` once `sign` has signed it with `key_id` and
/// signature bytes `sig`.
pub open spec fn signed_headers(req: HttpRequest, key_id: Seq<char>, now: i64, sig: Seq<u8>) -> HeaderView {
    set_header(
        prepared_headers(hview(req.headers@), req.authority@, date_text(now), req.body@),
        "signature"@,
        signature_line(key_id, base64_of(sig)),
    )
}

/// `req` has no `Date` field, so the signer must render one.
pub open spec fn lacks_date(req: HttpRequest) -> bool {
    let hs = hview(req.headers@);
    let h1 = if header_value(hs, "host"@) is None {
        hs.push(("host"@, req.authority@))
    } else {
        hs
    };
    header_value(h1, "date"@) is None
}

/// Why a request could not be signed.
#[derive(Debug, Clone, Copy, PartialEq, Eq, Structural)]
pub enum SignError {
    /// The request has no `Date` and the timestamp has no calendar date.
    InvalidTimestamp,
    /// The key refused to sign.
    KeyRejected,
}

/// Fills in `Host` (from the URI authority) and `Date` (from `date`, if the
/// request has none and `date` is given), sets `Digest`, and returns the
/// covered string to sign; `None`, with the request untouched, when `Date` is
/// missing and no `date` is given.
pub fn prepare_signing(req: &mut HttpRequest, date: Option<String>) -> (r: Option<String>)
    ensures
        final(req).method == old(req).method,
        final(req).authority == old(req).authority,
        final(req).path_and_query == old(req).path_and_query,
        final(req).body == old(req).body,
        ({
            let hs = hview(old(req).headers@);
            let h1 = if header_value(hs, "host"@) is None {
                hs.push(("host"@, old(req).authority@))
            } else {
                hs
            };
            if header_value(h1, "date"@) is None && date is None {
                r is None && final(req).headers@ == old(req).headers@
            } else {
                let d = match date {
                    Some(d) => d@,
                    None => Seq::empty(),
                };
                let h2 = if header_value(h1, "date"@) is None {
                    h1.push(("date"@, d))
                } else {
                    h1
                };
                &&& hview(final(req).headers@) == prepared_headers(
                    hs,
                    old(req).authority@,
                    d,
                    old(req).body@,
                )
                &&& r matches Some(c) && c@ == covered_string(
                    old(req).method@,
                    old(req).path_and_query@,
                    header_value(h2, "date"@).unwrap(),
                    header_value(h2, "host"@).unwrap(),
                    digest_line(old(req).body@),
                )
            }
        }),
{
    let ghost hs = hview(req.headers@);
    let host_missing = lookup_header(&req.headers, "host").is_none();
    if host_missing {
        let pair = ("host".to_owned(), req.authority.clone());
        req.headers.push(pair);
        proof {
            assert(hview(req.headers@) =~= hs.push(("host"@, req.authority@)));
            lemma_header_value_push(hs, ("host"@, req.authority@), "host"@);
        }
    }
    let ghost h1 = hview(req.headers@);
    let date_missing = lookup_header(&req.headers, "date").is_none();
    if date_missing {
        match date {
            None => {
                if host_missing {
                    req.headers.pop();
                    assert(hview(req.headers@) =~= hs);
                    assert(req.headers@ =~= old(req).headers@);
                }
                return None;
            },
            Some(d) => {
                let ghost dv = d@;
                req.headers.push(("date".to_owned(), d));
                proof {
                    assert(hview(req.headers@) =~= h1.push(("date"@, dv)));
                    lemma_header_value_push(h1, ("date"@, dv), "date"@);
                    lemma_header_value_push(h1, ("date"@, dv), "host"@);
                }
            },
        }
    }
    let date_value = match lookup_header(&req.headers, "date") {
        Some(v) => v.clone(),
        None => String::new(),
    };
    let host_value = match lookup_header(&req.headers, "host") {
        Some(v) => v.clone(),
        None => String::new(),
    };
    let digest = digest_header(req.body.as_slice());
    let covered = covered_string_of(
        req.method.as_str(),
        req.path_and_query.as_str(),
        date_value.as_str(),
        host_value.as_str(),
        digest.as_str(),
    );
    insert_header(&mut req.headers, "digest", digest);
    Some(covered)
}

/// Sets the `Signature` header for `key_id` and the signature bytes `sig`.
pub fn attach_signature(req: &mut HttpRequest, key_id: &str, sig: &[u8])
    ensures
        final(req).method == old(req).method,
        final(req).authority == old(req).authority,
        final(req).path_and_query == old(req).path_and_query,
        final(req).body == old(req).body,
        hview(final(req).headers@) == set_header(
            hview(old(req).headers@),
            "signature"@,
            signature_line(key_id@, base64_of(sig@)),
        ),
        is_base64_text(base64_of(sig@)),
        base64_decoded_of(base64_of(sig@)) == Some(sig@),
{
    let b64 = base64_encode(sig);
    insert_header(&mut req.headers, "signature", signature_header(key_id, b64.as_str()));
}

/// How signing `request` with `key_id`, the key in `key_pem` and Unix time
/// `now` ends: the signature bytes, or why there are none.  A request without
/// `Date` needs `now` rendered; the key must sign `signing_string(request,
/// now)`.
pub open spec fn sign_outcome(request: HttpRequest, key_pem: Seq<char>, now: i64) -> Result<Seq<u8>, SignError> {
    if lacks_date(request) && http_date_of(now) is None {
        Err(SignError::InvalidTimestamp)
    } else {
        match rsa_signature_of(key_pem, vstd::utf8::encode_utf8(signing_string(request, now))) {
            Some(sig) => Ok(sig),
            None => Err(SignError::KeyRejected),
        }
    }
}

/// Signs an outbound request: fills in `Host` (the URI authority) and `Date`
/// (the RFC 1123 form of `now`, in Unix seconds) where missing, sets `Digest`
/// to the SHA-256 of the body, and sets `Signature` with `key_id` and the
/// RSA signature, under the PKCS#8 PEM key `key_pem`, of
/// `signing_string(request, now)`.  Other fields are left as they are.
pub fn sign(request: HttpRequest, key_id: &str, key_pem: &str, now: i64) -> (r: Result<
    HttpRequest,
    SignError,
>)
    ensures
        match sign_outcome(request, key_pem@, now) {
            Ok(sig) => r matches Ok(out) && {
                &&& out.method == request.method
                &&& out.authority == request.authority
                &&& out.path_and_query == request.path_and_query
                &&& out.body == request.body
                &&& hview(out.headers@) == signed_headers(request, key_id@, now, sig)
                &&& is_base64_text(base64_of(sig))
                &&& base64_decoded_of(base64_of(sig)) == Some(sig)
            },
            Err(e) => r == Err::<HttpRequest, SignError>(e),
        },
{
    let ghost unsigned = request;
    let mut req = request;
    let date = http_date(now);
    let covered = match prepare_signing(&mut req, date) {
        Some(c) => c,
        None => {
            return Err(SignError::InvalidTimestamp);
        },
    };
    assert(covered@ == signing_string(unsigned, now));
    let sig = match rsa_sign(key_pem, covered.as_str().as_bytes()) {
        Some(s) => s,
        None => {
            return Err(SignError::KeyRejected);
        },
    };
    attach_signature(&mut req, key_id, sig.as_slice());
    Ok(req)
}

} // verus!
