use vstd::prelude::*;
use vstd::string::*;
use crate::http::{header_value, hview, lookup_header, lemma_header_value_push, lemma_set_header_lookup, set_header, HeaderView, HttpRequest};
use crate::signature::{ascii_lower, ascii_lower_of, base64_decode, base64_of, covered_string, digest_header, digest_line, date_text, prepared_headers, rsa_check, rsa_check_of, base64_decoded_of, signature_line, signed_headers, signing_string};
use crate::text::{
    eq_nocase, find_char, find_space, first_of, lemma_first_of_bounds, lemma_space_end_bounds,
    lemma_space_start_at, lemma_space_start_bounds, range_eq, range_eq_nocase, run_end, run_trim_end, skip_run,
    skip_spaces, space_end, space_start, str_eq, trim_run_end, trim_spaces_end, trimmed_end,
};

verus! {

/// The verdict on an inbound request's signature.
#[derive(Debug, Clone, Copy, PartialEq, Eq, Structural)]
pub enum VerifyResult {
    /// The signature is good: the body can be trusted once its digest matches.
    Verified,
    /// The signature is missing or cannot be evaluated.
    CannotVerify,
    /// The signature is present but wrong.
    Failed,
}

/// The fields of a `Signature` header, each as last given.
#[derive(Debug)]
pub struct SignatureParams {
    pub key_id: Option<String>,
    pub algorithm: Option<String>,
    pub headers: Option<String>,
    pub signature: Option<String>,
}

pub type ParamsView = (Option<Seq<char>>, Option<Seq<char>>, Option<Seq<char>>, Option<Seq<char>>);

pub open spec fn opt_view(o: Option<String>) -> Option<Seq<char>> {
    match o {
        Some(s) => Some(s@),
        None => None,
    }
}

impl SignatureParams {
    pub open spec fn view(self) -> ParamsView {
        (opt_view(self.key_id), opt_view(self.algorithm), opt_view(self.headers), opt_view(self.signature))
    }
}

/// The key of the `key=value` part in `[a, b)`, spaces trimmed.
pub open spec fn part_key(s: Seq<char>, a: int, b: int) -> Seq<char> {
    let ps = space_end(s, a, b);
    let pe = trimmed_end(s, ps, b);
    s.subrange(ps, first_of(s, '=', ps, pe))
}

/// The value of the `key=value` part in `[a, b)`, spaces and then surrounding
/// double quotes trimmed; empty when the part has no `=`.
pub open spec fn part_value(s: Seq<char>, a: int, b: int) -> Seq<char> {
    let ps = space_end(s, a, b);
    let pe = trimmed_end(s, ps, b);
    let e = first_of(s, '=', ps, pe);
    if e < pe {
        let vs = run_end(s, '"', e + 1, pe);
        s.subrange(vs, run_trim_end(s, '"', vs, pe))
    } else {
        Seq::empty()
    }
}

pub open spec fn apply_part(acc: ParamsView, k: Seq<char>, v: Seq<char>) -> ParamsView {
    if k == "keyId"@ {
        (Some(v), acc.1, acc.2, acc.3)
    } else if k == "algorithm"@ {
        (acc.0, Some(v), acc.2, acc.3)
    } else if k == "headers"@ {
        (acc.0, acc.1, Some(v), acc.3)
    } else if k == "signature"@ {
        (acc.0, acc.1, acc.2, Some(v))
    } else {
        acc
    }
}

/// The fields of the comma-separated parts of `s` from index `i` on, over `acc`.
pub open spec fn params_from(s: Seq<char>, i: int, acc: ParamsView) -> ParamsView
    decreases s.len() - i,
{
    if i > s.len() {
        acc
    } else {
        let j = first_of(s, ',', i, s.len() as int);
        let next = apply_part(acc, part_key(s, i, j), part_value(s, i, j));
        if j < s.len() {
            proof {
                lemma_first_of_bounds(s, ',', i, s.len() as int);
            }
            params_from(s, j + 1, next)
        } else {
            next
        }
    }
}

/// The fields of a `Signature` header value.
pub open spec fn signature_params(s: Seq<char>) -> ParamsView {
    params_from(s, 0, (None, None, None, None))
}

fn set_param(acc: &mut SignatureParams, s: &str, ks: usize, ke: usize, v: String)
    requires
        ks <= ke <= s@.len(),
    ensures
        final(acc)@ == apply_part(old(acc)@, s@.subrange(ks as int, ke as int), v@),
{
    if range_eq(s, ks, ke, "keyId") {
        acc.key_id = Some(v);
    } else if range_eq(s, ks, ke, "algorithm") {
        acc.algorithm = Some(v);
    } else if range_eq(s, ks, ke, "headers") {
        acc.headers = Some(v);
    } else if range_eq(s, ks, ke, "signature") {
        acc.signature = Some(v);
    }
}

/// Reads a `Signature` header value: comma-separated `key=value` parts whose
/// values may be quoted; a field given twice keeps its last value.
pub fn parse_signature_header(s: &str) -> (r: SignatureParams)
    ensures
        r@ == signature_params(s@),
{
    let n = s.unicode_len();
    let mut acc = SignatureParams { key_id: None, algorithm: None, headers: None, signature: None };
    let mut i: usize = 0;
    loop
        invariant
            n == s@.len(),
            i <= n,
            params_from(s@, i as int, acc@) == signature_params(s@),
        decreases n - i,
    {
        let j = find_char(s, ',', i, n);
        let ps = skip_spaces(s, i, j);
        let pe = trim_spaces_end(s, ps, j);
        let e = find_char(s, '=', ps, pe);
        let v = if e < pe {
            let vs = skip_run(s, '"', e + 1, pe);
            let ve = trim_run_end(s, '"', vs, pe);
            s.substring_char(vs, ve).to_owned()
        } else {
            String::new()
        };
        set_param(&mut acc, s, ps, e, v);
        if j >= n {
            return acc;
        }
        i = j + 1;
    }
}

/// The covered-string line of the signed header name `tok`.
pub open spec fn covered_line(tok: Seq<char>, method: Seq<char>, path: Seq<char>, hs: HeaderView) -> Option<
    Seq<char>,
> {
    if eq_nocase(tok, "(request-target)"@) {
        Some("(request-target): "@ + ascii_lower_of(method) + " "@ + path)
    } else {
        match header_value(hs, tok) {
            Some(v) => Some(ascii_lower_of(tok) + ": "@ + v),
            None => None,
        }
    }
}

/// The covered string of the space-separated header names of `names` from
/// index `i` on, appended to `text`, with the `Digest` value seen so far; `None`
/// when a named header is missing.
pub open spec fn rebuild_from(
    names: Seq<char>,
    i: int,
    method: Seq<char>,
    path: Seq<char>,
    hs: HeaderView,
    text: Seq<char>,
    digest: Option<Seq<char>>,
) -> Option<(Seq<char>, Option<Seq<char>>)>
    decreases names.len() - i,
{
    if i < 0 || i >= names.len() {
        Some((text, digest))
    } else {
        let n = names.len() as int;
        let t = space_end(names, i, n);
        if t >= n {
            Some((text, digest))
        } else {
            proof {
                lemma_space_end_bounds(names, i, n);
                lemma_space_start_bounds(names, t + 1, n);
            }
            let e = space_start(names, t, n);
            let tok = names.subrange(t, e);
            match covered_line(tok, method, path, hs) {
                None => None,
                Some(line) => {
                    let text2 = if text.len() == 0 {
                        line
                    } else {
                        text + "\n"@ + line
                    };
                    let digest2 = if !eq_nocase(tok, "(request-target)"@) && eq_nocase(
                        tok,
                        "digest"@,
                    ) {
                        header_value(hs, tok)
                    } else {
                        digest
                    };
                    rebuild_from(names, e, method, path, hs, text2, digest2)
                },
            }
        }
    }
}

/// The covered string that the header list `names` asks for, with the value
/// of `Digest` if it is among them.
pub open spec fn rebuild_covered(names: Seq<char>, method: Seq<char>, path: Seq<char>, hs: HeaderView) -> Option<
    (Seq<char>, Option<Seq<char>>),
> {
    rebuild_from(names, 0, method, path, hs, Seq::empty(), None)
}

pub fn covered_line_of(tok: &str, method: &str, path: &str, hs: &Vec<(String, String)>) -> (r: Option<
    String,
>)
    ensures
        opt_view(r) == covered_line(tok@, method@, path@, hview(hs@)),
{
    let n = tok.unicode_len();
    assert(tok@.subrange(0, n as int) =~= tok@);
    if range_eq_nocase(tok, 0, n, "(request-target)") {
        let mut s = String::from_str("(request-target): ");
        s.append(ascii_lower(method).as_str());
        s.append(" ");
        s.append(path);
        Some(s)
    } else {
        match lookup_header(hs, tok) {
            Some(v) => {
                let mut s = ascii_lower(tok);
                s.append(": ");
                s.append(v.as_str());
                Some(s)
            },
            None => None,
        }
    }
}

/// Rebuilds the covered string from the `headers` field of a signature, in
/// the order given there.
pub fn rebuild_covered_of(names: &str, method: &str, path: &str, hs: &Vec<(String, String)>) -> (r:
    Option<(String, Option<String>)>)
    ensures
        match rebuild_covered(names@, method@, path@, hview(hs@)) {
            Some((c, d)) => r matches Some((x, y)) && x@ == c && opt_view(y) == d,
            None => r is None,
        },
{
    let n = names.unicode_len();
    let mut text = String::new();
    let mut digest: Option<String> = None;
    let mut i: usize = 0;
    while i < n
        invariant
            n == names@.len(),
            i <= n,
            rebuild_from(names@, i as int, method@, path@, hview(hs@), text@, opt_view(digest))
                == rebuild_covered(names@, method@, path@, hview(hs@)),
        decreases n - i,
    {
        let t = skip_spaces(names, i, n);
        if t >= n {
            return Some((text, digest));
        }
        proof {
            lemma_space_end_bounds(names@, i as int, n as int);
            lemma_space_start_bounds(names@, t + 1, n as int);
        }
        let e = find_space(names, t, n);
        let tok = names.substring_char(t, e);
        match covered_line_of(tok, method, path, hs) {
            None => {
                return None;
            },
            Some(line) => {
                if text.unicode_len() == 0 {
                    text = line;
                } else {
                    text.append("\n");
                    text.append(line.as_str());
                }
                let tn = tok.unicode_len();
                assert(tok@.subrange(0, tn as int) =~= tok@);
                if !range_eq_nocase(tok, 0, tn, "(request-target)") && range_eq_nocase(
                    tok,
                    0,
                    tn,
                    "digest",
                ) {
                    digest = match lookup_header(hs, tok) {
                        Some(v) => Some(v.clone()),
                        None => None,
                    };
                }
            },
        }
        i = e;
    }
    Some((text, digest))
}

/// What is needed to finish checking a signed request once the signer's
/// public key is fetched.
#[derive(Debug)]
pub struct VerifyPlan {
    /// The `keyId` of the signature.
    pub key_id: String,
    /// The actor document to fetch: `keyId` without its `#fragment`.
    pub actor_url: String,
    /// The rebuilt covered string.
    pub covered: String,
    /// The base64 signature.
    pub signature: String,
    /// The `Digest` header, if the signature covers it.
    pub expected_digest: Option<String>,
}

/// `key_id` up to its first `#`.
pub open spec fn actor_of_key(key_id: Seq<char>) -> Seq<char> {
    key_id.subrange(0, first_of(key_id, '#', 0, key_id.len() as int))
}

/// The plan for a request with header fields `hs`, or `None` when its
/// signature cannot be evaluated: no `Signature` header, a field of it missing,
/// an algorithm other than `rsa-sha256`, or a covered header missing.
pub open spec fn plan_of(hs: HeaderView, method: Seq<char>, path: Seq<char>) -> Option<
    (Seq<char>, Seq<char>, Seq<char>, Option<Seq<char>>),
> {
    match header_value(hs, "signature"@) {
        None => None,
        Some(h) => match signature_params(h) {
            (Some(k), Some(a), Some(names), Some(sig)) => if a == "rsa-sha256"@ {
                match rebuild_covered(names, method, path, hs) {
                    Some((c, d)) => Some((k, c, sig, d)),
                    None => None,
                }
            } else {
                None
            },
            _ => None,
        },
    }
}

impl VerifyPlan {
    /// The plan holds what `plan_of` gives.
    pub open spec fn matches(self, p: (Seq<char>, Seq<char>, Seq<char>, Option<Seq<char>>)) -> bool {
        &&& self.key_id@ == p.0
        &&& self.actor_url@ == actor_of_key(p.0)
        &&& self.covered@ == p.1
        &&& self.signature@ == p.2
        &&& opt_view(self.expected_digest) == p.3
    }
}

/// The first steps of checking an inbound request's signature, from its header
/// fields, method and path with query: read the `Signature` header, require
/// `rsa-sha256`, and rebuild the covered string.  `Err(CannotVerify)` when that
/// fails; otherwise the actor whose key is to be fetched.
pub fn verify_request(headers: &Vec<(String, String)>, method: &str, path: &str) -> (r: Result<
    VerifyPlan,
    VerifyResult,
>)
    ensures
        match plan_of(hview(headers@), method@, path@) {
            Some(p) => r matches Ok(plan) && plan.matches(p),
            None => r == Err::<VerifyPlan, VerifyResult>(VerifyResult::CannotVerify),
        },
{
    let h = match lookup_header(headers, "signature") {
        Some(h) => h,
        None => {
            return Err(VerifyResult::CannotVerify);
        },
    };
    let params = parse_signature_header(h.as_str());
    let (key_id, algorithm, names, signature) = match params {
        SignatureParams {
            key_id: Some(k),
            algorithm: Some(a),
            headers: Some(n),
            signature: Some(s),
        } => (k, a, n, s),
        _ => {
            return Err(VerifyResult::CannotVerify);
        },
    };
    if !str_eq(algorithm.as_str(), "rsa-sha256") {
        return Err(VerifyResult::CannotVerify);
    }
    let (covered, expected_digest) = match rebuild_covered_of(names.as_str(), method, path, headers) {
        Some(x) => x,
        None => {
            return Err(VerifyResult::CannotVerify);
        },
    };
    let kn = key_id.unicode_len();
    let hash = find_char(key_id.as_str(), '#', 0, kn);
    let actor_url = key_id.as_str().substring_char(0, hash).to_owned();
    Ok(VerifyPlan { key_id, actor_url, covered, signature, expected_digest })
}

/// The verdict from the outcome of the RSA check: `None` when the key or the
/// signature could not be read.
pub fn verdict_of(check: Option<bool>) -> (r: VerifyResult)
    ensures
        r == match check {
            None => VerifyResult::CannotVerify,
            Some(true) => VerifyResult::Verified,
            Some(false) => VerifyResult::Failed,
        },
{
    match check {
        None => VerifyResult::CannotVerify,
        Some(true) => VerifyResult::Verified,
        Some(false) => VerifyResult::Failed,
    }
}

/// The body check that goes with a verdict.
#[derive(Debug)]
pub struct VerifyBody {
    /// The `Digest` value the body must have; `None` when there is nothing to check.
    pub expected_digest: Option<String>,
}

impl VerifyBody {
    /// Takes the whole body and reports whether its digest is the expected one.
    pub fn collect_to_bytes(self, body: Vec<u8>) -> (r: (Vec<u8>, bool))
        ensures
            r.0@ == body@,
            r.1 == digest_ok(opt_view(self.expected_digest), body@),
    {
        let ok = match &self.expected_digest {
            Some(e) => {
                let d = digest_header(body.as_slice());
                str_eq(d.as_str(), e.as_str())
            },
            None => true,
        };
        (body, ok)
    }
}

/// The verdict on a planned check whose actor document gave `pem` (`None`: the
/// actor, or a key in it, could not be had): only a good signature hands on
/// the expected `Digest` for the body check.
pub open spec fn check_outcome(plan: VerifyPlan, pem: Option<Seq<char>>) -> (VerifyResult, Option<Seq<char>>) {
    match pem {
        None => (VerifyResult::CannotVerify, None),
        Some(k) => match base64_decoded_of(plan.signature@) {
            None => (VerifyResult::CannotVerify, None),
            Some(sig) => match rsa_check_of(k, vstd::utf8::encode_utf8(plan.covered@), sig) {
                Some(true) => (VerifyResult::Verified, opt_view(plan.expected_digest)),
                Some(false) => (VerifyResult::Failed, None),
                None => (VerifyResult::CannotVerify, None),
            },
        },
    }
}

impl VerifyPlan {
    /// Finishes the check with the public key PEM of the signer's actor
    /// document (`None`: it could not be fetched or read).
    pub fn check(self, pem: Option<String>) -> (r: (VerifyResult, VerifyBody))
        ensures
            ({
                let pv = opt_view(pem);
                r.0 == check_outcome(self, pv).0 && opt_view(r.1.expected_digest) == check_outcome(
                    self,
                    pv,
                ).1
            }),
    {
        let key = match pem {
            Some(k) => k,
            None => {
                return (VerifyResult::CannotVerify, VerifyBody { expected_digest: None });
            },
        };
        let sig = match base64_decode(self.signature.as_str()) {
            Some(s) => s,
            None => {
                return (VerifyResult::CannotVerify, VerifyBody { expected_digest: None });
            },
        };
        let verdict = verdict_of(rsa_check(key.as_str(), self.covered.as_str().as_bytes(), sig.as_slice()));
        match verdict {
            VerifyResult::Verified => (verdict, VerifyBody { expected_digest: self.expected_digest }),
            _ => (verdict, VerifyBody { expected_digest: None }),
        }
    }
}

/// The verdict once the body was read: a good signature over a body whose
/// digest does not match counts as failed.
pub fn final_verdict(verdict: VerifyResult, body_ok: bool) -> (r: VerifyResult)
    ensures
        r == settled_verdict(verdict, body_ok),
{
    if verdict == VerifyResult::Verified && !body_ok {
        VerifyResult::Failed
    } else {
        verdict
    }
}

/// Whether a body meets the expected `Digest` (nothing expected: it does).
pub open spec fn digest_ok(expected: Option<Seq<char>>, body: Seq<u8>) -> bool {
    match expected {
        Some(e) => digest_line(body) == e,
        None => true,
    }
}

/// The verdict once the body was read.
pub open spec fn settled_verdict(verdict: VerifyResult, ok: bool) -> VerifyResult {
    if verdict == VerifyResult::Verified && !ok {
        VerifyResult::Failed
    } else {
        verdict
    }
}

/// A body is held to the `Digest` that was signed: after a good signature, a
/// delivered body whose digest differs from that of the signed body ends as
/// `Failed`, and the signed body itself stays `Verified`.
pub proof fn lemma_digest_tamper(signed_body: Seq<u8>, delivered_body: Seq<u8>)
    ensures
        digest_line(delivered_body) != digest_line(signed_body) ==> settled_verdict(
            VerifyResult::Verified,
            digest_ok(Some(digest_line(signed_body)), delivered_body),
        ) == VerifyResult::Failed,
        settled_verdict(VerifyResult::Verified, digest_ok(Some(digest_line(signed_body)), signed_body))
            == VerifyResult::Verified,
{
}

/// The header list that the signer names.
pub open spec fn signed_names() -> Seq<char> {
    "(request-target) date host digest"@
}

proof fn lemma_rebuild_signed_names(method: Seq<char>, path: Seq<char>, hs: HeaderView, date: Seq<char>, host: Seq<char>, digest: Seq<char>)
    requires
        header_value(hs, "date"@) == Some(date),
        header_value(hs, "host"@) == Some(host),
        header_value(hs, "digest"@) == Some(digest),
    ensures
        rebuild_covered(signed_names(), method, path, hs) == Some(
            (covered_string(method, path, date, host, digest), Some(digest)),
        ),
{
    let names = signed_names();
    reveal_strlit("(request-target) date host digest");
    reveal_strlit("(request-target)");
    reveal_strlit("date");
    reveal_strlit("host");
    reveal_strlit("digest");
    reveal_strlit("(request-target): ");
    reveal_strlit(" ");
    reveal_strlit(": ");
    reveal_strlit("\n");
    reveal_strlit("\ndate: ");
    reveal_strlit("\nhost: ");
    reveal_strlit("\ndigest: ");
    let n: int = 33;
    assert(names.len() == n);
    let t0 = "(request-target)"@;
    let t1 = "date"@;
    let t2 = "host"@;
    let t3 = "digest"@;
    assert(names.subrange(0, 16) =~= t0);
    assert(names.subrange(17, 21) =~= t1);
    assert(names.subrange(22, 26) =~= t2);
    assert(names.subrange(27, 33) =~= t3);
    lemma_space_start_at(names, 0, 16, n);
    lemma_space_start_at(names, 17, 21, n);
    lemma_space_start_at(names, 22, 26, n);
    lemma_space_start_at(names, 27, 33, n);
    assert(space_end(names, 17, n) == 17);
    assert(space_end(names, 16, n) == 17);
    assert(space_end(names, 22, n) == 22);
    assert(space_end(names, 21, n) == 22);
    assert(space_end(names, 27, n) == 27);
    assert(space_end(names, 26, n) == 27);
    assert(eq_nocase(t0, t0));
    assert(eq_nocase(t3, t3));
    assert(!eq_nocase(t1, t0));
    assert(!eq_nocase(t2, t0));
    assert(!eq_nocase(t3, t0));
    assert(!eq_nocase(t1, t3));
    assert(!eq_nocase(t2, t3));
    assert(ascii_lower_of(t1) =~= t1);
    assert(ascii_lower_of(t2) =~= t2);
    assert(ascii_lower_of(t3) =~= t3);
    let l0 = "(request-target): "@ + ascii_lower_of(method) + " "@ + path;
    let l1 = t1 + ": "@ + date;
    let l2 = t2 + ": "@ + host;
    let l3 = t3 + ": "@ + digest;
    assert(covered_line(t0, method, path, hs) == Some(l0));
    assert(covered_line(t1, method, path, hs) == Some(l1));
    assert(covered_line(t2, method, path, hs) == Some(l2));
    assert(covered_line(t3, method, path, hs) == Some(l3));
    assert(l0.len() > 0);
    let x1 = l0 + "\n"@ + l1;
    let x2 = x1 + "\n"@ + l2;
    let x3 = x2 + "\n"@ + l3;
    assert(rebuild_from(names, 33, method, path, hs, x3, Some(digest)) == Some((x3, Some(digest))));
    assert(rebuild_from(names, 26, method, path, hs, x2, None) == Some((x3, Some(digest))));
    assert(rebuild_from(names, 21, method, path, hs, x1, None) == Some((x3, Some(digest))));
    assert(rebuild_from(names, 16, method, path, hs, l0, None) == Some((x3, Some(digest))));
    assert(rebuild_from(names, 0, method, path, hs, Seq::empty(), None) == Some((x3, Some(digest))));
    assert(x3 =~= covered_string(method, path, date, host, digest));
}

/// What the verifier reads back from a request that `sign` produced: the
/// `Signature` header is the one the signer wrote, and the signer's header
/// list rebuilds exactly the string that was signed, with the body digest as
/// the `Digest` to check the delivered body against.
pub proof fn lemma_signed_request_rebuilds(req: HttpRequest, key_id: Seq<char>, now: i64, sig: Seq<u8>)
    ensures
        header_value(signed_headers(req, key_id, now, sig), "signature"@) == Some(
            signature_line(key_id, base64_of(sig)),
        ),
        rebuild_covered(signed_names(), req.method@, req.path_and_query@, signed_headers(req, key_id, now, sig))
            == Some((signing_string(req, now), Some(digest_line(req.body@)))),
{
    reveal_strlit("date");
    reveal_strlit("host");
    reveal_strlit("digest");
    reveal_strlit("signature");
    let hs = hview(req.headers@);
    let h1 = if header_value(hs, "host"@) is None {
        hs.push(("host"@, req.authority@))
    } else {
        hs
    };
    let h2 = if header_value(h1, "date"@) is None {
        h1.push(("date"@, date_text(now)))
    } else {
        h1
    };
    assert(eq_nocase("host"@, "host"@));
    assert(eq_nocase("date"@, "date"@));
    assert(!crate::text::same_nocase("host"@[0], "date"@[0]));
    assert(!crate::text::same_nocase("date"@[0], "host"@[0]));
    assert(!eq_nocase("host"@, "date"@));
    assert(!eq_nocase("date"@, "host"@));
    lemma_header_value_push(hs, ("host"@, req.authority@), "host"@);
    lemma_header_value_push(hs, ("host"@, req.authority@), "date"@);
    lemma_header_value_push(h1, ("date"@, date_text(now)), "date"@);
    lemma_header_value_push(h1, ("date"@, date_text(now)), "host"@);
    assert(header_value(h2, "date"@) is Some);
    assert(header_value(h2, "host"@) is Some);
    let prepared = set_header(h2, "digest"@, digest_line(req.body@));
    assert(prepared == prepared_headers(hs, req.authority@, date_text(now), req.body@));
    lemma_set_header_lookup(h2, "digest"@, digest_line(req.body@), "date"@);
    lemma_set_header_lookup(h2, "digest"@, digest_line(req.body@), "host"@);
    let line = signature_line(key_id, base64_of(sig));
    lemma_set_header_lookup(prepared, "signature"@, line, "date"@);
    lemma_set_header_lookup(prepared, "signature"@, line, "host"@);
    lemma_set_header_lookup(prepared, "signature"@, line, "digest"@);
    lemma_rebuild_signed_names(
        req.method@,
        req.path_and_query@,
        signed_headers(req, key_id, now, sig),
        header_value(h2, "date"@).unwrap(),
        header_value(h2, "host"@).unwrap(),
        digest_line(req.body@),
    );
}

} // verus!
