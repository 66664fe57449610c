use vstd::prelude::*;
use crate::signature::{
    base64_decoded_of, base64_of, digest_line, is_base64_text, rsa_signature_of, sign_outcome, signature_line, signed_headers,
    signing_string, SignError,
};
use crate::http::HttpRequest;
use crate::text::{first_of, is_space, run_end, run_trim_end, space_end, trimmed_end};
use crate::verify::{
    apply_part, lemma_signed_request_rebuilds, params_from, part_key, part_value, plan_of, signature_params,
    signed_names, ParamsView,
};

verus! {

/// `t` stands in `s` from index `o` on.
pub open spec fn agree(s: Seq<char>, o: int, t: Seq<char>) -> bool {
    &&& 0 <= o
    &&& o + t.len() <= s.len()
    &&& forall|k: int| 0 <= k < t.len() ==> s[o + k] == t[k]
}

/// `s` does not hold `c`.
pub open spec fn lacks(s: Seq<char>, c: char) -> bool {
    forall|k: int| 0 <= k < s.len() ==> s[k] != c
}

proof fn lemma_shift_first_of(s: Seq<char>, o: int, t: Seq<char>, c: char, i: int, hi: int)
    requires
        agree(s, o, t),
        0 <= i <= hi <= t.len(),
    ensures
        first_of(s, c, o + i, o + hi) == o + first_of(t, c, i, hi),
    decreases hi - i,
{
    if i < hi {
        assert(s[o + i] == t[i]);
        lemma_shift_first_of(s, o, t, c, i + 1, hi);
    }
}

proof fn lemma_shift_space_end(s: Seq<char>, o: int, t: Seq<char>, i: int, hi: int)
    requires
        agree(s, o, t),
        0 <= i <= hi <= t.len(),
    ensures
        space_end(s, o + i, o + hi) == o + space_end(t, i, hi),
        i <= space_end(t, i, hi) <= hi,
    decreases hi - i,
{
    if i < hi {
        assert(s[o + i] == t[i]);
        lemma_shift_space_end(s, o, t, i + 1, hi);
    }
}

proof fn lemma_shift_trimmed_end(s: Seq<char>, o: int, t: Seq<char>, lo: int, hi: int)
    requires
        agree(s, o, t),
        0 <= lo <= hi <= t.len(),
    ensures
        trimmed_end(s, o + lo, o + hi) == o + trimmed_end(t, lo, hi),
        lo <= trimmed_end(t, lo, hi) <= hi,
    decreases hi - lo,
{
    if lo < hi {
        assert(s[o + hi - 1] == t[hi - 1]);
        lemma_shift_trimmed_end(s, o, t, lo, hi - 1);
    }
}

proof fn lemma_shift_run_end(s: Seq<char>, o: int, t: Seq<char>, c: char, i: int, hi: int)
    requires
        agree(s, o, t),
        0 <= i <= hi <= t.len(),
    ensures
        run_end(s, c, o + i, o + hi) == o + run_end(t, c, i, hi),
        i <= run_end(t, c, i, hi) <= hi,
    decreases hi - i,
{
    if i < hi {
        assert(s[o + i] == t[i]);
        lemma_shift_run_end(s, o, t, c, i + 1, hi);
    }
}

proof fn lemma_shift_run_trim_end(s: Seq<char>, o: int, t: Seq<char>, c: char, lo: int, hi: int)
    requires
        agree(s, o, t),
        0 <= lo <= hi <= t.len(),
    ensures
        run_trim_end(s, c, o + lo, o + hi) == o + run_trim_end(t, c, lo, hi),
        lo <= run_trim_end(t, c, lo, hi) <= hi,
    decreases hi - lo,
{
    if lo < hi {
        assert(s[o + hi - 1] == t[hi - 1]);
        lemma_shift_run_trim_end(s, o, t, c, lo, hi - 1);
    }
}

proof fn lemma_shift_part(s: Seq<char>, o: int, t: Seq<char>, a: int, b: int)
    requires
        agree(s, o, t),
        0 <= a <= b <= t.len(),
    ensures
        part_key(s, o + a, o + b) == part_key(t, a, b),
        part_value(s, o + a, o + b) == part_value(t, a, b),
{
    lemma_shift_space_end(s, o, t, a, b);
    let ps = space_end(t, a, b);
    lemma_shift_trimmed_end(s, o, t, ps, b);
    let pe = trimmed_end(t, ps, b);
    lemma_shift_first_of(s, o, t, '=', ps, pe);
    crate::text::lemma_first_of_bounds(t, '=', ps, pe);
    let e = first_of(t, '=', ps, pe);
    assert(s.subrange(o + ps, o + e) =~= t.subrange(ps, e));
    if e < pe {
        lemma_shift_run_end(s, o, t, '"', e + 1, pe);
        let vs = run_end(t, '"', e + 1, pe);
        lemma_shift_run_trim_end(s, o, t, '"', vs, pe);
        let ve = run_trim_end(t, '"', vs, pe);
        assert(s.subrange(o + vs, o + ve) =~= t.subrange(vs, ve));
    }
}

proof fn lemma_shift_params(s: Seq<char>, o: int, t: Seq<char>, i: int, acc: ParamsView)
    requires
        agree(s, o, t),
        o + t.len() == s.len(),
        0 <= i <= t.len(),
    ensures
        params_from(s, o + i, acc) == params_from(t, i, acc),
    decreases t.len() - i,
{
    lemma_shift_first_of(s, o, t, ',', i, t.len() as int);
    crate::text::lemma_first_of_bounds(t, ',', i, t.len() as int);
    let j = first_of(t, ',', i, t.len() as int);
    lemma_shift_part(s, o, t, i, j);
    let next = apply_part(acc, part_key(t, i, j), part_value(t, i, j));
    if j < t.len() {
        lemma_shift_params(s, o, t, j + 1, next);
    }
}

proof fn lemma_first_of_absent(t: Seq<char>, c: char, i: int)
    requires
        0 <= i <= t.len(),
        lacks(t, c),
    ensures
        first_of(t, c, i, t.len() as int) == t.len(),
    decreases t.len() - i,
{
    if i < t.len() {
        lemma_first_of_absent(t, c, i + 1);
    }
}

proof fn lemma_first_of_at(s: Seq<char>, c: char, i: int, m: int, hi: int)
    requires
        0 <= i <= m < hi <= s.len(),
        forall|k: int| i <= k < m ==> s[k] != c,
        s[m] == c,
    ensures
        first_of(s, c, i, hi) == m,
    decreases m - i,
{
    if i < m {
        lemma_first_of_at(s, c, i + 1, m, hi);
    }
}

/// A string of comma-separated parts is read one part at a time.
proof fn lemma_params_split(x: Seq<char>, y: Seq<char>, acc: ParamsView)
    requires
        lacks(x, ','),
    ensures
        params_from(x + seq![','] + y, 0, acc) == params_from(
            y,
            0,
            apply_part(acc, part_key(x, 0, x.len() as int), part_value(x, 0, x.len() as int)),
        ),
{
    let s = x + seq![','] + y;
    assert(s[x.len() as int] == ',');
    lemma_first_of_at(s, ',', 0, x.len() as int, s.len() as int);
    assert(agree(s, 0, x));
    lemma_shift_part(s, 0, x, 0, x.len() as int);
    let next = apply_part(acc, part_key(x, 0, x.len() as int), part_value(x, 0, x.len() as int));
    assert(agree(s, x.len() + 1int, y));
    lemma_shift_params(s, x.len() + 1int, y, 0, next);
}

/// The part `name="v"` reads as `name` and `v`.
proof fn lemma_part(name: Seq<char>, v: Seq<char>)
    requires
        name.len() > 0,
        !is_space(name[0]),
        lacks(name, '='),
        lacks(v, '"'),
    ensures
        ({
            let p = name + seq!['=', '"'] + v + seq!['"'];
            part_key(p, 0, p.len() as int) == name && part_value(p, 0, p.len() as int) == v
        }),
{
    let p = name + seq!['=', '"'] + v + seq!['"'];
    let n = p.len() as int;
    let m = name.len() as int;
    assert(p[0] == name[0]);
    assert(space_end(p, 0, n) == 0);
    assert(p[n - 1] == '"');
    assert(trimmed_end(p, 0, n) == n);
    assert(p[m] == '=');
    lemma_first_of_at(p, '=', 0, m, n);
    assert(p[m + 1] == '"');
    if v.len() > 0 {
        assert(p[m + 2] == v[0]);
        assert(run_end(p, '"', m + 2, n) == m + 2);
        assert(run_end(p, '"', m + 1, n) == m + 2);
        assert(p[n - 2] == v.last());
        assert(run_trim_end(p, '"', m + 2, n - 1) == n - 1);
        assert(run_trim_end(p, '"', m + 2, n) == n - 1);
        assert(p.subrange(m + 2, n - 1) =~= v);
    } else {
        assert(p[m + 2] == '"');
        assert(run_end(p, '"', n, n) == n);
        assert(run_end(p, '"', m + 2, n) == n);
        assert(run_end(p, '"', m + 1, n) == n);
        assert(p.subrange(n, n) =~= v);
    }
    assert(p.subrange(0, m) =~= name);
}

/// `s` holds neither a comma nor a double quote.
pub open spec fn plain_field(s: Seq<char>) -> bool {
    lacks(s, ',') && lacks(s, '"')
}

proof fn lemma_concat_lacks(a: Seq<char>, b: Seq<char>, c: char)
    requires
        lacks(a, c),
        lacks(b, c),
    ensures
        lacks(a + b, c),
{
    assert forall|k: int| 0 <= k < (a + b).len() implies (a + b)[k] != c by {
        if k >= a.len() {
            assert((a + b)[k] == b[k - a.len()]);
        }
    }
}

/// The `Signature` header that the signer writes reads back as its key id,
/// algorithm, header list and signature.
proof fn lemma_signature_line_params(key_id: Seq<char>, sig_b64: Seq<char>)
    requires
        plain_field(key_id),
        plain_field(sig_b64),
    ensures
        signature_params(signature_line(key_id, sig_b64)) == (
            Some(key_id),
            Some("rsa-sha256"@),
            Some(signed_names()),
            Some(sig_b64),
        ),
{
    reveal_strlit("keyId=\"");
    reveal_strlit("\",algorithm=\"rsa-sha256\",headers=\"(request-target) date host digest\",signature=\"");
    reveal_strlit("\"");
    reveal_strlit("keyId");
    reveal_strlit("algorithm");
    reveal_strlit("rsa-sha256");
    reveal_strlit("headers");
    reveal_strlit("(request-target) date host digest");
    reveal_strlit("signature");
    let eq = seq!['=', '"'];
    let q = seq!['"'];
    let comma = seq![','];
    let n0 = "keyId"@;
    let n1 = "algorithm"@;
    let n2 = "headers"@;
    let n3 = "signature"@;
    let v1 = "rsa-sha256"@;
    let v2 = signed_names();
    let part0 = n0 + eq + key_id + q;
    let part1 = n1 + eq + v1 + q;
    let part2 = n2 + eq + v2 + q;
    let part3 = n3 + eq + sig_b64 + q;
    let line = signature_line(key_id, sig_b64);
    assert(line =~= part0 + comma + (part1 + comma + (part2 + comma + part3)));
    assert(lacks(n0, ',') && lacks(n0, '=') && lacks(eq, ',') && lacks(q, ','));
    assert(lacks(n1, ',') && lacks(n1, '=') && lacks(v1, ',') && lacks(v1, '"'));
    assert(lacks(n2, ',') && lacks(n2, '=') && lacks(v2, ',') && lacks(v2, '"'));
    assert(lacks(n3, ',') && lacks(n3, '='));
    lemma_concat_lacks(n0, eq, ',');
    lemma_concat_lacks(n0 + eq, key_id, ',');
    lemma_concat_lacks(n0 + eq + key_id, q, ',');
    lemma_concat_lacks(n1, eq, ',');
    lemma_concat_lacks(n1 + eq, v1, ',');
    lemma_concat_lacks(n1 + eq + v1, q, ',');
    lemma_concat_lacks(n2, eq, ',');
    lemma_concat_lacks(n2 + eq, v2, ',');
    lemma_concat_lacks(n2 + eq + v2, q, ',');
    lemma_concat_lacks(n3, eq, ',');
    lemma_concat_lacks(n3 + eq, sig_b64, ',');
    lemma_concat_lacks(n3 + eq + sig_b64, q, ',');
    lemma_part(n0, key_id);
    lemma_part(n1, v1);
    lemma_part(n2, v2);
    lemma_part(n3, sig_b64);
    let a0: ParamsView = (None, None, None, None);
    let a1 = apply_part(a0, n0, key_id);
    let a2 = apply_part(a1, n1, v1);
    let a3 = apply_part(a2, n2, v2);
    let a4 = apply_part(a3, n3, sig_b64);
    assert(n1 != n0);
    assert(n2 != n0 && n2 != n1);
    assert(n3 != n0 && n3 != n1 && n3 != n2);
    lemma_params_split(part0, part1 + comma + (part2 + comma + part3), a0);
    lemma_params_split(part1, part2 + comma + part3, a1);
    lemma_params_split(part2, part3, a2);
    lemma_first_of_absent(part3, ',', 0);
    assert(params_from(part3, 0, a3) == a4);
}

/// A request signed by `sign` verifies up to the RSA check: when signing
/// succeeded with signature bytes `sig` and the key id holds no comma or
/// double quote, the verifier reads back the key id and the signature, and
/// rebuilds exactly the string that was signed, whose RSA signature under the
/// signing key is `sig` and whose base64 text decodes back to `sig`, with the
/// body digest as the `Digest` to check the body against.
pub proof fn lemma_signature_round_trip(
    req: HttpRequest,
    key_id: Seq<char>,
    key_pem: Seq<char>,
    now: i64,
    sig: Seq<u8>,
)
    requires
        plain_field(key_id),
        sign_outcome(req, key_pem, now) == Ok::<Seq<u8>, SignError>(sig),
        is_base64_text(base64_of(sig)),
        base64_decoded_of(base64_of(sig)) == Some(sig),
    ensures
        plan_of(signed_headers(req, key_id, now, sig), req.method@, req.path_and_query@) == Some(
            (key_id, signing_string(req, now), base64_of(sig), Some(digest_line(req.body@))),
        ),
        rsa_signature_of(key_pem, vstd::utf8::encode_utf8(signing_string(req, now))) == Some(sig),
        base64_decoded_of(base64_of(sig)) == Some(sig),
{
    let b = base64_of(sig);
    assert forall|k: int| 0 <= k < b.len() implies b[k] != ',' && b[k] != '"' by {
        assert(crate::signature::is_base64_char(b[k]));
    }
    lemma_signed_request_rebuilds(req, key_id, now, sig);
    lemma_signature_line_params(key_id, b);
}

} // verus!
