use vstd::prelude::*;
use vstd::string::*;
use crate::text::{eq_nocase, range_eq_nocase};

verus! {

/// Header fields as (name, value) pairs, in order.
pub type HeaderView = Seq<(Seq<char>, Seq<char>)>;

/// The character view of a list of header fields.
pub open spec fn hview(v: Seq<(String, String)>) -> HeaderView {
    v.map_values(|p: (String, String)| (p.0@, p.1@))
}

/// The value of the first field called `name` (up to ASCII case).
pub open spec fn header_value(hs: HeaderView, name: Seq<char>) -> Option<Seq<char>>
    decreases hs.len(),
{
    if hs.len() == 0 {
        None
    } else if eq_nocase(hs[0].0, name) {
        Some(hs[0].1)
    } else {
        header_value(hs.drop_first(), name)
    }
}

/// The fields other than those called `name` (up to ASCII case), in order.
pub open spec fn without_header(hs: HeaderView, name: Seq<char>) -> HeaderView
    decreases hs.len(),
{
    if hs.len() == 0 {
        hs
    } else {
        let rest = without_header(hs.drop_last(), name);
        if eq_nocase(hs.last().0, name) {
            rest
        } else {
            rest.push(hs.last())
        }
    }
}

/// The fields with every field called `name` replaced by one `name: value` at the end.
pub open spec fn set_header(hs: HeaderView, name: Seq<char>, value: Seq<char>) -> HeaderView {
    without_header(hs, name).push((name, value))
}

/// An HTTP request as the signer and the verifier see it.
#[derive(Debug)]
pub struct HttpRequest {
    /// The method, as written (`POST`).
    pub method: String,
    /// The authority of the request URI.
    pub authority: String,
    /// The path and query of the request URI.
    pub path_and_query: String,
    /// The header fields, in order.
    pub headers: Vec<(String, String)>,
    pub body: Vec<u8>,
}

pub fn lookup_header<'a>(hs: &'a Vec<(String, String)>, name: &str) -> (r: Option<&'a String>)
    ensures
        match header_value(hview(hs@), name@) {
            Some(v) => r matches Some(x) && x@ == v,
            None => r is None,
        },
{
    let n = hs.len();
    let mut i: usize = 0;
    assert(hview(hs@).subrange(0, n as int) =~= hview(hs@));
    while i < n
        invariant
            n == hs@.len(),
            i <= n,
            header_value(hview(hs@), name@) == header_value(hview(hs@).subrange(i as int, n as int), name@),
        decreases n - i,
    {
        let k = hs[i].0.as_str();
        let kn = k.unicode_len();
        assert(hview(hs@).subrange(i as int, n as int).drop_first() =~= hview(hs@).subrange(i + 1, n as int));
        assert(k@.subrange(0, kn as int) =~= k@);
        if range_eq_nocase(k, 0, kn, name) {
            return Some(&hs[i].1);
        }
        i = i + 1;
    }
    None
}

/// Sets the field `name` to `value`, dropping every earlier field of that name.
pub fn insert_header(hs: &mut Vec<(String, String)>, name: &str, value: String)
    ensures
        hview(final(hs)@) == set_header(hview(old(hs)@), name@, value@),
{
    let n = hs.len();
    let mut out: Vec<(String, String)> = Vec::new();
    let mut i: usize = 0;
    assert(hview(out@) =~= without_header(hview(hs@).subrange(0, 0), name@));
    while i < n
        invariant
            n == hs@.len(),
            i <= n,
            hview(out@) == without_header(hview(hs@).subrange(0, i as int), name@),
        decreases n - i,
    {
        let k = hs[i].0.as_str();
        let kn = k.unicode_len();
        assert(k@.subrange(0, kn as int) =~= k@);
        assert(hview(hs@).subrange(0, i + 1).drop_last() =~= hview(hs@).subrange(0, i as int));
        if !range_eq_nocase(k, 0, kn, name) {
            let pair = (hs[i].0.clone(), hs[i].1.clone());
            out.push(pair);
            assert(hview(out@) =~= without_header(hview(hs@).subrange(0, i as int), name@).push(
                hview(hs@)[i as int],
            ));
        }
        i = i + 1;
    }
    assert(hview(hs@).subrange(0, n as int) =~= hview(hs@));
    let ghost before = out@;
    out.push((name.to_owned(), value));
    assert(hview(out@) =~= hview(before).push((name@, value@)));
    *hs = out;
}

/// Looking a field up after one more field was appended.
pub proof fn lemma_header_value_push(hs: HeaderView, x: (Seq<char>, Seq<char>), n: Seq<char>)
    ensures
        header_value(hs.push(x), n) == match header_value(hs, n) {
            Some(v) => Some(v),
            None => if eq_nocase(x.0, n) {
                Some(x.1)
            } else {
                None
            },
        },
    decreases hs.len(),
{
    assert(eq_nocase(n, n));
    if hs.len() > 0 {
        assert(hs.push(x).drop_first() =~= hs.drop_first().push(x));
        lemma_header_value_push(hs.drop_first(), x, n);
    } else {
        assert(hs.push(x).drop_first() =~= Seq::<(Seq<char>, Seq<char>)>::empty());
        assert(header_value(Seq::<(Seq<char>, Seq<char>)>::empty(), n) is None);
    }
}

/// Dropping the fields of one name leaves the lookups of a name of another
/// length as they were.
pub proof fn lemma_without_header_lookup(hs: HeaderView, n: Seq<char>, m: Seq<char>)
    requires
        n.len() != m.len(),
    ensures
        header_value(without_header(hs, n), m) == header_value(hs, m),
    decreases hs.len(),
{
    if hs.len() > 0 {
        let init = hs.drop_last();
        let x = hs.last();
        assert(hs =~= init.push(x));
        lemma_without_header_lookup(init, n, m);
        lemma_header_value_push(init, x, m);
        if !eq_nocase(x.0, n) {
            lemma_header_value_push(without_header(init, n), x, m);
        }
    }
}

/// After dropping the fields called `n`, none is found.
pub proof fn lemma_without_header_absent(hs: HeaderView, n: Seq<char>)
    ensures
        header_value(without_header(hs, n), n) is None,
    decreases hs.len(),
{
    if hs.len() > 0 {
        let init = hs.drop_last();
        let x = hs.last();
        assert(hs =~= init.push(x));
        lemma_without_header_absent(init, n);
        if !eq_nocase(x.0, n) {
            lemma_header_value_push(without_header(init, n), x, n);
        }
    } else {
        assert(without_header(hs, n) =~= hs);
    }
}

/// Looking fields up after `set_header`.
pub proof fn lemma_set_header_lookup(hs: HeaderView, n: Seq<char>, v: Seq<char>, m: Seq<char>)
    ensures
        header_value(set_header(hs, n, v), n) == Some(v),
        n.len() != m.len() ==> header_value(set_header(hs, n, v), m) == header_value(hs, m),
{
    lemma_without_header_absent(hs, n);
    lemma_header_value_push(without_header(hs, n), (n, v), n);
    lemma_header_value_push(without_header(hs, n), (n, v), m);
    if n.len() != m.len() {
        lemma_without_header_lookup(hs, n, m);
    }
}

} // verus!
