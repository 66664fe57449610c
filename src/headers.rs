use vstd::prelude::*;
use vstd::string::*;
use crate::order::{lemma_str_lt_irreflexive, lemma_str_lt_transitive, lemma_str_lt_trichotomy, str_less, str_lt};
use crate::text::{find_char, first_of, run_end, run_trim_end, skip_run, str_eq, trim_run_end};

verus! {

/// The request header value that asks a peer for an ActivityStreams document.
pub const AP_ACCEPT: &'static str = "application/activity+json, application/ld+json; profile=\"https://www.w3.org/ns/activitystreams\"";

/// The content type of every ActivityPub response.
pub const AP_RESPONSE_MIME: &'static str = "application/activity+json";

/// One of the response representations an endpoint can offer.  The variants
/// are listed from lowest to highest priority.
#[derive(Debug, Clone, Copy, PartialEq, Eq, Structural, Hash)]
pub enum AcceptMime {
    Xml,
    Json,
    AP,
    Html,
}

/// The priority of a representation: `Html > AP > Json > Xml`.
pub open spec fn rank(m: AcceptMime) -> int {
    match m {
        AcceptMime::Xml => 0,
        AcceptMime::Json => 1,
        AcceptMime::AP => 2,
        AcceptMime::Html => 3,
    }
}

/// A set of representations.
#[derive(Debug, Clone, Copy, PartialEq, Eq, Structural, Hash)]
pub struct AcceptMimeSet {
    pub html: bool,
    pub ap: bool,
    pub json: bool,
    pub xml: bool,
}

/// The set with the given members.
pub open spec fn mime_set(html: bool, ap: bool, json: bool, xml: bool) -> AcceptMimeSet {
    AcceptMimeSet { html, ap, json, xml }
}

impl AcceptMimeSet {
    pub fn empty() -> (r: AcceptMimeSet)
        ensures
            r == mime_set(false, false, false, false),
            forall|m: AcceptMime| !#[trigger] r.has(m),
    {
        AcceptMimeSet { html: false, ap: false, json: false, xml: false }
    }

    pub fn html() -> (r: AcceptMimeSet)
        ensures
            r == mime_set(true, false, false, false),
            forall|m: AcceptMime| #[trigger] r.has(m) == (m == AcceptMime::Html),
    {
        AcceptMimeSet { html: true, ap: false, json: false, xml: false }
    }

    pub fn ap() -> (r: AcceptMimeSet)
        ensures
            r == mime_set(false, true, false, false),
            forall|m: AcceptMime| #[trigger] r.has(m) == (m == AcceptMime::AP),
    {
        AcceptMimeSet { html: false, ap: true, json: false, xml: false }
    }

    pub fn json() -> (r: AcceptMimeSet)
        ensures
            r == mime_set(false, false, true, false),
            forall|m: AcceptMime| #[trigger] r.has(m) == (m == AcceptMime::Json),
    {
        AcceptMimeSet { html: false, ap: false, json: true, xml: false }
    }

    pub fn xml() -> (r: AcceptMimeSet)
        ensures
            r == mime_set(false, false, false, true),
            forall|m: AcceptMime| #[trigger] r.has(m) == (m == AcceptMime::Xml),
    {
        AcceptMimeSet { html: false, ap: false, json: false, xml: true }
    }

    /// Whether `m` is in the set.
    pub open spec fn has(self, m: AcceptMime) -> bool {
        match m {
            AcceptMime::Html => self.html,
            AcceptMime::AP => self.ap,
            AcceptMime::Json => self.json,
            AcceptMime::Xml => self.xml,
        }
    }

    /// Every member of `self` is a member of `other`.
    pub open spec fn subset_of(self, other: AcceptMimeSet) -> bool {
        forall|m: AcceptMime| #[trigger] self.has(m) ==> other.has(m)
    }

    pub fn contains(&self, other: AcceptMimeSet) -> (r: bool)
        ensures
            r == other.subset_of(*self),
    {
        let r = (!other.html || self.html) && (!other.ap || self.ap) && (!other.json || self.json)
            && (!other.xml || self.xml);
        proof {
            if !r {
                if other.html && !self.html {
                    assert(other.has(AcceptMime::Html));
                } else if other.ap && !self.ap {
                    assert(other.has(AcceptMime::AP));
                } else if other.json && !self.json {
                    assert(other.has(AcceptMime::Json));
                } else {
                    assert(other.has(AcceptMime::Xml));
                }
            }
        }
        r
    }

    pub fn has_mime(&self, m: AcceptMime) -> (r: bool)
        ensures
            r == self.has(m),
    {
        match m {
            AcceptMime::Html => self.html,
            AcceptMime::AP => self.ap,
            AcceptMime::Json => self.json,
            AcceptMime::Xml => self.xml,
        }
    }

    pub fn union(self, other: AcceptMimeSet) -> (r: AcceptMimeSet)
        ensures
            forall|m: AcceptMime| #[trigger] r.has(m) == (self.has(m) || other.has(m)),
            r == mime_set(self.html || other.html, self.ap || other.ap, self.json || other.json, self.xml || other.xml),
    {
        AcceptMimeSet {
            html: self.html || other.html,
            ap: self.ap || other.ap,
            json: self.json || other.json,
            xml: self.xml || other.xml,
        }
    }
}

impl AcceptMime {
    /// The set that holds `self` alone.
    pub fn to_singleton(self) -> (r: AcceptMimeSet)
        ensures
            forall|m: AcceptMime| #[trigger] r.has(m) == (m == self),
    {
        match self {
            AcceptMime::Xml => AcceptMimeSet::xml(),
            AcceptMime::Json => AcceptMimeSet::json(),
            AcceptMime::AP => AcceptMimeSet::ap(),
            AcceptMime::Html => AcceptMimeSet::html(),
        }
    }

    pub fn rank(self) -> (r: u8)
        ensures
            r as int == rank(self),
    {
        match self {
            AcceptMime::Xml => 0,
            AcceptMime::Json => 1,
            AcceptMime::AP => 2,
            AcceptMime::Html => 3,
        }
    }
}

/// A media range as mime reads it: type, subtype, suffix, and the values of
/// its `q` and `profile` parameters.
pub type RangeView = (Seq<char>, Seq<char>, Option<Seq<char>>, Option<Seq<char>>, Option<Seq<char>>);

/// A media range as mime reads it.
#[derive(Debug)]
pub struct MediaRange {
    pub ty: String,
    pub subtype: String,
    pub suffix: Option<String>,
    pub q: Option<String>,
    pub profile: Option<String>,
}

pub open spec fn opt_str(o: Option<String>) -> Option<Seq<char>> {
    match o {
        Some(s) => Some(s@),
        None => None,
    }
}

impl MediaRange {
    pub open spec fn view(self) -> RangeView {
        (self.ty@, self.subtype@, opt_str(self.suffix), opt_str(self.q), opt_str(self.profile))
    }
}

/// The views of what `media_ranges` returns.
pub open spec fn ranges_view(v: Seq<Option<MediaRange>>) -> Seq<Option<RangeView>> {
    v.map_values(|o: Option<MediaRange>| match o {
        Some(m) => Some(m.view()),
        None => None,
    })
}

/// The media ranges of an `Accept` value as mime's `MimeIter` reads them, in
/// order; `None` for one it cannot read.
pub uninterp spec fn media_ranges_of(s: Seq<char>) -> Seq<Option<RangeView>>;

/// A `Content-Type` value as mime's `Mime::from_str` reads it.
pub uninterp spec fn mime_of(s: Seq<char>) -> Option<RangeView>;

/// Relies on mime's `MimeIter::new` and the `Mime` accessors `type_`,
/// `subtype`, `suffix` and `get_param`.  `MimeIter::next` slices the text
/// byte by byte after an invalid leading byte and recurses once per such
/// byte, so it is given short ASCII text only.
#[verifier::external_body]
fn media_ranges(s: &str) -> (r: Vec<Option<MediaRange>>)
    requires
        accept_readable(s@),
    ensures
        ranges_view(r@) == media_ranges_of(s@),
{
    mime::MimeIter::new(s).map(|m| m.ok().map(|m| MediaRange {
        ty: m.type_().as_str().to_owned(),
        subtype: m.subtype().as_str().to_owned(),
        suffix: m.suffix().map(|n| n.as_str().to_owned()),
        q: m.get_param("q").map(|n| n.as_str().to_owned()),
        profile: m.get_param("profile").map(|n| n.as_str().to_owned()),
    })).collect()
}

/// Relies on mime's `Mime::from_str` and the `Mime` accessors `type_`,
/// `subtype`, `suffix` and `get_param`.
#[verifier::external_body]
fn parse_mime(s: &str) -> (r: Option<MediaRange>)
    ensures
        opt_range(r) == mime_of(s@),
{
    s.parse::<mime::Mime>().ok().map(|m| MediaRange {
        ty: m.type_().as_str().to_owned(),
        subtype: m.subtype().as_str().to_owned(),
        suffix: m.suffix().map(|n| n.as_str().to_owned()),
        q: m.get_param("q").map(|n| n.as_str().to_owned()),
        profile: m.get_param("profile").map(|n| n.as_str().to_owned()),
    })
}

pub open spec fn opt_range(o: Option<MediaRange>) -> Option<RangeView> {
    match o {
        Some(m) => Some(m.view()),
        None => None,
    }
}

pub open spec fn is_digit(c: char) -> bool {
    '0' <= c <= '9'
}

/// Every character of `s` is a decimal digit.
pub open spec fn all_digits(s: Seq<char>) -> bool {
    forall|k: int| 0 <= k < s.len() ==> is_digit(#[trigger] s[k])
}

/// A quality weight as an exact decimal: its integer digits without leading
/// zeros, and its fraction digits without trailing zeros.
pub type Weight = (Seq<char>, Seq<char>);

/// A quality value written as decimal digits with at most one `.` (`0.5`,
/// `.5`, `1`, `0.1234`, `5.`), read as an exact decimal; `None` for any
/// other text.
pub open spec fn q_weight(v: Seq<char>) -> Option<Weight> {
    let d = first_of(v, '.', 0, v.len() as int);
    let i = v.subrange(0, d);
    let f = if d < v.len() {
        v.subrange(d + 1, v.len() as int)
    } else {
        Seq::empty()
    };
    if all_digits(i) && all_digits(f) && (i.len() > 0 || f.len() > 0) {
        Some(
            (
                i.subrange(run_end(i, '0', 0, i.len() as int), i.len() as int),
                f.subrange(0, run_trim_end(f, '0', 0, f.len() as int)),
            ),
        )
    } else {
        None
    }
}

/// The weight 1.
pub open spec fn unit_weight() -> Weight {
    (seq!['1'], Seq::empty())
}

/// The weight of a media range: that of its `q` parameter, or 1 when it has
/// none or an unreadable one.
pub open spec fn range_quality(m: RangeView) -> Weight {
    match m.3 {
        Some(v) => match q_weight(v) {
            Some(w) => w,
            None => unit_weight(),
        },
        None => unit_weight(),
    }
}

/// `a` is a smaller decimal than `b`: its integer part has fewer digits, or as
/// many and sorts first, or is the same and its fraction sorts first.
pub open spec fn weight_lt(a: Weight, b: Weight) -> bool {
    a.0.len() < b.0.len() || (a.0.len() == b.0.len() && str_lt(a.0, b.0)) || (a.0 == b.0 && str_lt(
        a.1,
        b.1,
    ))
}

/// The representation a media type without wildcards names: `text/html`,
/// `text/xml`, `application/activity+json`, `application/ld+json` with the
/// ActivityStreams profile, `application/json`.
pub open spec fn range_kind(m: RangeView) -> Option<AcceptMime> {
    if m.0 == "text"@ {
        if m.1 == "html"@ {
            Some(AcceptMime::Html)
        } else if m.1 == "xml"@ {
            Some(AcceptMime::Xml)
        } else {
            None
        }
    } else if m.0 == "application"@ {
        if m.1 == "activity"@ && m.2 == Some("json"@) {
            Some(AcceptMime::AP)
        } else if m.1 == "ld"@ && m.2 == Some("json"@) && m.4 == Some(
            "https://www.w3.org/ns/activitystreams"@,
        ) {
            Some(AcceptMime::AP)
        } else if m.1 == "json"@ && m.2 is None {
            Some(AcceptMime::Json)
        } else {
            None
        }
    } else {
        None
    }
}

/// The member of `cand` of highest priority.
pub open spec fn first_of_all(cand: AcceptMimeSet) -> Option<AcceptMime> {
    if cand.has(AcceptMime::Html) {
        Some(AcceptMime::Html)
    } else if cand.has(AcceptMime::AP) {
        Some(AcceptMime::AP)
    } else if cand.has(AcceptMime::Json) {
        Some(AcceptMime::Json)
    } else if cand.has(AcceptMime::Xml) {
        Some(AcceptMime::Xml)
    } else {
        None
    }
}

/// The member of `cand` among `{Html, Xml}` of highest priority.
pub open spec fn first_of_text(cand: AcceptMimeSet) -> Option<AcceptMime> {
    if cand.has(AcceptMime::Html) {
        Some(AcceptMime::Html)
    } else if cand.has(AcceptMime::Xml) {
        Some(AcceptMime::Xml)
    } else {
        None
    }
}

/// What a media range offers from `cand`: `*` as type stands for the best
/// candidate, `text/*` for the best textual one; a named type counts only if
/// it is a candidate.
pub open spec fn range_media(m: RangeView, cand: AcceptMimeSet) -> Option<AcceptMime> {
    if m.0 == "*"@ {
        first_of_all(cand)
    } else if m.0 == "text"@ && m.1 == "*"@ {
        first_of_text(cand)
    } else {
        match range_kind(m) {
            Some(k) => if cand.has(k) {
                Some(k)
            } else {
                None
            },
            None => None,
        }
    }
}

/// The quality and representation that a media range offers.
pub open spec fn entry_choice(m: RangeView, cand: AcceptMimeSet) -> Option<(Weight, AcceptMime)> {
    match range_media(m, cand) {
        Some(k) => Some((range_quality(m), k)),
        None => None,
    }
}

/// The better of two offers: higher quality first, then higher priority.
pub open spec fn better(acc: Option<(Weight, AcceptMime)>, x: Option<(Weight, AcceptMime)>) -> Option<
    (Weight, AcceptMime),
> {
    match x {
        None => acc,
        Some((q, m)) => match acc {
            None => x,
            Some((q0, m0)) => if weight_lt(q0, q) || (q == q0 && rank(m) >= rank(m0)) {
                x
            } else {
                acc
            },
        },
    }
}

/// The best offer of the media ranges `rs` from index `i` on, starting from
/// the offer `acc`; unreadable ranges are passed over.
pub open spec fn best_from(
    rs: Seq<Option<RangeView>>,
    cand: AcceptMimeSet,
    i: int,
    acc: Option<(Weight, AcceptMime)>,
) -> Option<(Weight, AcceptMime)>
    decreases rs.len() - i,
{
    if i < 0 || i >= rs.len() {
        acc
    } else {
        let next = match rs[i] {
            Some(m) => better(acc, entry_choice(m, cand)),
            None => acc,
        };
        best_from(rs, cand, i + 1, next)
    }
}

/// The longest `Accept` value that is read.
pub const ACCEPT_LIMIT: usize = 1024;

/// An `Accept` value that is read: ASCII only and at most `ACCEPT_LIMIT`
/// characters.
pub open spec fn accept_readable(s: Seq<char>) -> bool {
    s.len() <= ACCEPT_LIMIT && forall|i: int| 0 <= i < s.len() ==> (#[trigger] s[i] as u32) < 128
}

/// The best offer of an `Accept` value `s` for the candidates `cand`.
pub open spec fn best_offer(s: Seq<char>, cand: AcceptMimeSet) -> Option<(Weight, AcceptMime)> {
    if accept_readable(s) {
        best_from(media_ranges_of(s), cand, 0, None)
    } else {
        None
    }
}

/// The representation negotiated from an `Accept` value, `None` when no
/// offered media range meets the candidates.  A value that is not readable
/// (see `accept_readable`) offers nothing, as an absent header does.
pub open spec fn negotiate(s: Seq<char>, cand: AcceptMimeSet) -> Option<AcceptMime> {
    match best_offer(s, cand) {
        Some((_, m)) => Some(m),
        None => None,
    }
}

/// Whether a `Content-Type` value names an ActivityStreams document.
pub open spec fn content_type_is_ap(s: Seq<char>) -> bool {
    match mime_of(s) {
        Some(m) => range_kind(m) == Some(AcceptMime::AP),
        None => false,
    }
}

fn all_digits_in(s: &str, lo: usize, hi: usize) -> (r: bool)
    requires
        lo <= hi <= s@.len(),
    ensures
        r == all_digits(s@.subrange(lo as int, hi as int)),
{
    let mut k: usize = lo;
    while k < hi
        invariant
            lo <= k <= hi <= s@.len(),
            forall|t: int| lo <= t < k ==> is_digit(#[trigger] s@[t]),
        decreases hi - k,
    {
        let c = s.get_char(k);
        if !('0' <= c && c <= '9') {
            assert(!is_digit(s@.subrange(lo as int, hi as int)[k - lo]));
            return false;
        }
        k = k + 1;
    }
    assert forall|t: int| 0 <= t < hi - lo implies is_digit(#[trigger] s@.subrange(lo as int, hi as int)[t]) by {
        assert(s@.subrange(lo as int, hi as int)[t] == s@[lo + t]);
    }
    true
}

fn weight_from(v: &str) -> (r: Option<(String, String)>)
    ensures
        match q_weight(v@) {
            Some(w) => r matches Some((a, b)) && a@ == w.0 && b@ == w.1,
            None => r is None,
        },
{
    let n = v.unicode_len();
    let d = find_char(v, '.', 0, n);
    let fs = if d < n {
        d + 1
    } else {
        n
    };
    if !all_digits_in(v, 0, d) || !all_digits_in(v, fs, n) || (d == 0 && fs == n) {
        proof {
            if d < n {
                assert(v@.subrange(d + 1, n as int) == v@.subrange(fs as int, n as int));
            } else {
                assert(v@.subrange(fs as int, n as int) =~= Seq::<char>::empty());
            }
        }
        return None;
    }
    let int_part = v.substring_char(0, d);
    let frac = v.substring_char(fs, n);
    proof {
        if d >= n {
            assert(frac@ =~= Seq::<char>::empty());
        }
    }
    let a = skip_run(int_part, '0', 0, d);
    let b = trim_run_end(frac, '0', 0, n - fs);
    Some((int_part.substring_char(a, d).to_owned(), frac.substring_char(0, b).to_owned()))
}

fn quality_of(m: &MediaRange) -> (r: (String, String))
    ensures
        (r.0@, r.1@) == range_quality(m.view()),
{
    let unit = (String::from_str("1"), String::new());
    proof {
        reveal_strlit("1");
        assert(unit.0@ =~= unit_weight().0);
    }
    match &m.q {
        Some(v) => match weight_from(v.as_str()) {
            Some(w) => w,
            None => unit,
        },
        None => unit,
    }
}

/// Whether the weight `a` is smaller than `b`.
fn weight_less(a: &(String, String), b: &(String, String)) -> (r: bool)
    ensures
        r == weight_lt((a.0@, a.1@), (b.0@, b.1@)),
{
    let la = a.0.unicode_len();
    let lb = b.0.unicode_len();
    if la != lb {
        return la < lb;
    }
    if str_less(a.0.as_str(), b.0.as_str()) {
        return true;
    }
    str_eq(a.0.as_str(), b.0.as_str()) && str_less(a.1.as_str(), b.1.as_str())
}

fn opt_is(o: &Option<String>, w: &str) -> (r: bool)
    ensures
        r == (opt_str(*o) == Some(w@)),
{
    match o {
        Some(x) => str_eq(x.as_str(), w),
        None => false,
    }
}

fn kind_of(m: &MediaRange) -> (r: Option<AcceptMime>)
    ensures
        r == range_kind(m.view()),
{
    let ty = m.ty.as_str();
    let sub = m.subtype.as_str();
    if str_eq(ty, "text") {
        if str_eq(sub, "html") {
            Some(AcceptMime::Html)
        } else if str_eq(sub, "xml") {
            Some(AcceptMime::Xml)
        } else {
            None
        }
    } else if str_eq(ty, "application") {
        if str_eq(sub, "activity") && opt_is(&m.suffix, "json") {
            Some(AcceptMime::AP)
        } else if str_eq(sub, "ld") && opt_is(&m.suffix, "json") && opt_is(
            &m.profile,
            "https://www.w3.org/ns/activitystreams",
        ) {
            Some(AcceptMime::AP)
        } else if str_eq(sub, "json") && m.suffix.is_none() {
            Some(AcceptMime::Json)
        } else {
            None
        }
    } else {
        None
    }
}

fn best_candidate(cand: AcceptMimeSet, text_only: bool) -> (r: Option<AcceptMime>)
    ensures
        text_only ==> r == first_of_text(cand),
        !text_only ==> r == first_of_all(cand),
{
    if cand.html {
        Some(AcceptMime::Html)
    } else if !text_only && cand.ap {
        Some(AcceptMime::AP)
    } else if !text_only && cand.json {
        Some(AcceptMime::Json)
    } else if cand.xml {
        Some(AcceptMime::Xml)
    } else {
        None
    }
}

/// The view of an offer as the exec code holds it.
pub open spec fn offer_view(o: Option<(String, String, AcceptMime)>) -> Option<(Weight, AcceptMime)> {
    match o {
        Some((a, b, m)) => Some(((a@, b@), m)),
        None => None,
    }
}

fn choice_of(m: &MediaRange, cand: AcceptMimeSet) -> (r: Option<(String, String, AcceptMime)>)
    ensures
        offer_view(r) == entry_choice(m.view(), cand),
{
    let media = if str_eq(m.ty.as_str(), "*") {
        best_candidate(cand, false)
    } else if str_eq(m.ty.as_str(), "text") && str_eq(m.subtype.as_str(), "*") {
        best_candidate(cand, true)
    } else {
        match kind_of(m) {
            Some(k) => if cand.has_mime(k) {
                Some(k)
            } else {
                None
            },
            None => None,
        }
    };
    match media {
        Some(k) => {
            let (a, b) = quality_of(m);
            Some((a, b, k))
        },
        None => None,
    }
}

fn better_of(acc: Option<(String, String, AcceptMime)>, x: Option<(String, String, AcceptMime)>) -> (r:
    Option<(String, String, AcceptMime)>)
    ensures
        offer_view(r) == better(offer_view(acc), offer_view(x)),
{
    match x {
        None => acc,
        Some((qa, qb, m)) => match acc {
            None => Some((qa, qb, m)),
            Some((pa, pb, m0)) => {
                let q = (qa, qb);
                let p = (pa, pb);
                let same = str_eq(q.0.as_str(), p.0.as_str()) && str_eq(q.1.as_str(), p.1.as_str());
                if weight_less(&p, &q) || (same && m.rank() >= m0.rank()) {
                    Some((q.0, q.1, m))
                } else {
                    Some((p.0, p.1, m0))
                }
            },
        },
    }
}

fn readable(s: &str) -> (r: bool)
    ensures
        r == accept_readable(s@),
{
    let n = s.unicode_len();
    if n > ACCEPT_LIMIT {
        return false;
    }
    let mut i: usize = 0;
    while i < n
        invariant
            n == s@.len() <= ACCEPT_LIMIT,
            i <= n,
            forall|k: int| 0 <= k < i ==> (#[trigger] s@[k] as u32) < 128,
        decreases n - i,
    {
        if (s.get_char(i) as u32) >= 128 {
            return false;
        }
        i = i + 1;
    }
    true
}

/// The best offer of an `Accept` value for the candidates `cand`.
fn best_offer_of(s: &str, cand: AcceptMimeSet) -> (r: Option<(String, String, AcceptMime)>)
    ensures
        offer_view(r) == best_offer(s@, cand),
{
    if !readable(s) {
        return None;
    }
    let ranges = media_ranges(s);
    let ghost rs = ranges_view(ranges@);
    let n = ranges.len();
    let mut best: Option<(String, String, AcceptMime)> = None;
    let mut i: usize = 0;
    while i < n
        invariant
            n == ranges@.len(),
            rs == ranges_view(ranges@),
            rs == media_ranges_of(s@),
            accept_readable(s@),
            i <= n,
            best_from(rs, cand, i as int, offer_view(best)) == best_offer(s@, cand),
        decreases n - i,
    {
        match &ranges[i] {
            Some(m) => {
                best = better_of(best, choice_of(m, cand));
            },
            None => {},
        }
        i = i + 1;
    }
    best
}

/// Reads the `Accept` header of a request.
pub struct HeaderReader {
    pub accept: String,
}

impl HeaderReader {
    /// A reader of the `Accept` value `accept` (empty when the request has none).
    pub fn new(accept: &str) -> (r: HeaderReader)
        ensures
            r.accept@ == accept@,
    {
        HeaderReader { accept: accept.to_owned() }
    }

    /// The representation to answer with, chosen among `candidate` by quality
    /// and then priority; `None` when nothing acceptable is offered.
    pub fn select(&self, candidate: AcceptMimeSet) -> (r: Option<AcceptMime>)
        ensures
            r == negotiate(self.accept@, candidate),
    {
        match best_offer_of(self.accept.as_str(), candidate) {
            Some((_, _, m)) => Some(m),
            None => None,
        }
    }
}

/// Whether a `Content-Type` value names an ActivityStreams document:
/// `application/activity+json`, or `application/ld+json` with the
/// ActivityStreams profile.
pub fn is_content_type_ap(ty: &str) -> (r: bool)
    ensures
        r == content_type_is_ap(ty@),
{
    match parse_mime(ty) {
        Some(m) => match kind_of(&m) {
            Some(AcceptMime::AP) => true,
            _ => false,
        },
        None => false,
    }
}

/// Offer `x` is at least as good as offer `y`: by weight, then by priority.
pub open spec fn offer_at_least(x: Option<(Weight, AcceptMime)>, y: Option<(Weight, AcceptMime)>) -> bool {
    match y {
        None => true,
        Some((q1, m1)) => match x {
            None => false,
            Some((q2, m2)) => weight_lt(q1, q2) || (q2 == q1 && rank(m2) >= rank(m1)),
        },
    }
}

/// The offer holds a member of `cand`, or nothing.
pub open spec fn offer_within(x: Option<(Weight, AcceptMime)>, cand: AcceptMimeSet) -> bool {
    match x {
        Some((_, m)) => cand.has(m),
        None => true,
    }
}

proof fn lemma_weight_order(a: Weight, b: Weight, c: Weight)
    ensures
        !weight_lt(a, a),
        a == b || weight_lt(a, b) || weight_lt(b, a),
        !(weight_lt(a, b) && weight_lt(b, a)),
        weight_lt(a, b) && weight_lt(b, c) ==> weight_lt(a, c),
{
    lemma_str_lt_irreflexive(a.0);
    lemma_str_lt_irreflexive(a.1);
    lemma_str_lt_trichotomy(a.0, b.0);
    lemma_str_lt_trichotomy(a.1, b.1);
    if a.0 == b.0 && a.1 == b.1 {
        assert(a == b);
    }
    if weight_lt(a, b) && weight_lt(b, c) {
        if str_lt(a.0, b.0) && str_lt(b.0, c.0) {
            lemma_str_lt_transitive(a.0, b.0, c.0);
        }
        if str_lt(a.1, b.1) && str_lt(b.1, c.1) {
            lemma_str_lt_transitive(a.1, b.1, c.1);
        }
    }
}

proof fn lemma_offer_order(x: Option<(Weight, AcceptMime)>, y: Option<(Weight, AcceptMime)>, z: Option<(Weight, AcceptMime)>)
    ensures
        offer_at_least(x, y) || offer_at_least(y, x),
        offer_at_least(x, y) && offer_at_least(y, z) ==> offer_at_least(x, z),
{
    if let (Some(a), Some(b), Some(c)) = (x, y, z) {
        lemma_weight_order(a.0, b.0, c.0);
        lemma_weight_order(c.0, b.0, a.0);
        lemma_weight_order(a.0, c.0, b.0);
    } else if let (Some(a), Some(b)) = (x, y) {
        lemma_weight_order(a.0, b.0, b.0);
    }
}

proof fn lemma_better(a: Option<(Weight, AcceptMime)>, e: Option<(Weight, AcceptMime)>)
    ensures
        offer_at_least(better(a, e), a),
        offer_at_least(better(a, e), e),
        better(a, e) == a || better(a, e) == e,
{
    lemma_offer_order(a, e, e);
    lemma_offer_order(a, a, a);
    lemma_offer_order(e, e, e);
    if let (Some(x), Some(y)) = (a, e) {
        lemma_weight_order(x.0, y.0, y.0);
    }
}

proof fn lemma_better_mono(
    a_small: Option<(Weight, AcceptMime)>,
    a_large: Option<(Weight, AcceptMime)>,
    e_small: Option<(Weight, AcceptMime)>,
    e_large: Option<(Weight, AcceptMime)>,
)
    requires
        offer_at_least(a_large, a_small),
        offer_at_least(e_large, e_small),
    ensures
        offer_at_least(better(a_large, e_large), better(a_small, e_small)),
{
    lemma_better(a_small, e_small);
    lemma_better(a_large, e_large);
    let bl = better(a_large, e_large);
    lemma_offer_order(bl, a_large, a_small);
    lemma_offer_order(bl, e_large, e_small);
}

proof fn lemma_entry_choice(m: RangeView, small: AcceptMimeSet, large: AcceptMimeSet)
    requires
        small.subset_of(large),
    ensures
        offer_within(entry_choice(m, small), small),
        offer_at_least(entry_choice(m, large), entry_choice(m, small)),
{
    assert(small.has(AcceptMime::Html) ==> large.has(AcceptMime::Html));
    assert(small.has(AcceptMime::AP) ==> large.has(AcceptMime::AP));
    assert(small.has(AcceptMime::Json) ==> large.has(AcceptMime::Json));
    assert(small.has(AcceptMime::Xml) ==> large.has(AcceptMime::Xml));
    lemma_weight_order(range_quality(m), range_quality(m), range_quality(m));
}

proof fn lemma_best_from(
    rs: Seq<Option<RangeView>>,
    small: AcceptMimeSet,
    large: AcceptMimeSet,
    i: int,
    acc_small: Option<(Weight, AcceptMime)>,
    acc_large: Option<(Weight, AcceptMime)>,
)
    requires
        small.subset_of(large),
        offer_within(acc_small, small),
        offer_at_least(acc_large, acc_small),
    ensures
        offer_within(best_from(rs, small, i, acc_small), small),
        offer_at_least(best_from(rs, large, i, acc_large), best_from(rs, small, i, acc_small)),
    decreases rs.len() - i,
{
    if 0 <= i < rs.len() {
        match rs[i] {
            Some(m) => {
                lemma_entry_choice(m, small, large);
                let next_small = better(acc_small, entry_choice(m, small));
                let next_large = better(acc_large, entry_choice(m, large));
                lemma_better(acc_small, entry_choice(m, small));
                lemma_better_mono(acc_small, acc_large, entry_choice(m, small), entry_choice(m, large));
                lemma_best_from(rs, small, large, i + 1, next_small, next_large);
            },
            None => {
                lemma_best_from(rs, small, large, i + 1, acc_small, acc_large);
            },
        }
    }
}

/// Negotiation picks only among the candidates, and offering more candidates
/// never yields a worse choice: the offer negotiated from a larger candidate
/// set is at least as good, by weight and then priority, as the one from a
/// smaller set.
pub proof fn lemma_negotiation_monotone(s: Seq<char>, small: AcceptMimeSet, large: AcceptMimeSet)
    requires
        small.subset_of(large),
    ensures
        negotiate(s, small) matches Some(m) ==> small.has(m),
        offer_at_least(best_offer(s, large), best_offer(s, small)),
        negotiate(s, small) is Some ==> negotiate(s, large) is Some,
{
    lemma_best_from(media_ranges_of(s), small, large, 0, None, None);
}

} // verus!
