use vstd::prelude::*;
use vstd::string::*;

verus! {

/// The hexadecimal digit of `n < 16`, in lower case.
pub open spec fn hex_lower(n: int) -> char {
    if n < 10 {
        ((n + 48) as u32) as char
    } else {
        ((n + 87) as u32) as char
    }
}

/// The hexadecimal digit of `n < 16`, in upper case.
pub open spec fn hex_upper(n: int) -> char {
    if n < 10 {
        ((n + 48) as u32) as char
    } else {
        ((n + 55) as u32) as char
    }
}

/// How a JSON string writes the character `c`: `"` and `\` and the control
/// characters below U+0020 are escaped (`\b`, `\t`, `\n`, `\f`, `\r`, else
/// `\u00xx`); every other character stands as it is.
pub open spec fn json_escape_char(c: char) -> Seq<char> {
    if c == '"' {
        seq!['\\', '"']
    } else if c == '\\' {
        seq!['\\', '\\']
    } else if c == '\u{8}' {
        seq!['\\', 'b']
    } else if c == '\t' {
        seq!['\\', 't']
    } else if c == '\n' {
        seq!['\\', 'n']
    } else if c == '\u{c}' {
        seq!['\\', 'f']
    } else if c == '\r' {
        seq!['\\', 'r']
    } else if (c as u32) < 0x20 {
        seq!['\\', 'u', '0', '0', hex_lower((c as u32) as int / 16), hex_lower((c as u32) as int % 16)]
    } else {
        seq![c]
    }
}

/// The escaped characters of `s`.
pub open spec fn json_escape(s: Seq<char>) -> Seq<char>
    decreases s.len(),
{
    if s.len() == 0 {
        Seq::empty()
    } else {
        json_escape(s.drop_last()) + json_escape_char(s.last())
    }
}

/// The JSON string literal of `s`, quotes included, as serde_json writes it.
pub open spec fn json_string_of(s: Seq<char>) -> Seq<char> {
    seq!['"'] + json_escape(s) + seq!['"']
}

/// How the form-urlencoded serializer writes the byte `b`: ASCII letters and
/// digits and `*-._` as they are, a space as `+`, any other byte as `%XX`.
pub open spec fn urlencode_byte(b: u8) -> Seq<char> {
    if (0x30 <= b <= 0x39) || (0x41 <= b <= 0x5a) || (0x61 <= b <= 0x7a) || b == 0x2a || b == 0x2d || b
        == 0x2e || b == 0x5f {
        seq![(b as u32) as char]
    } else if b == 0x20 {
        seq!['+']
    } else {
        seq!['%', hex_upper((b as int) / 16), hex_upper((b as int) % 16)]
    }
}

/// The form-urlencoded text of the bytes `bs`.
pub open spec fn urlencode_bytes(bs: Seq<u8>) -> Seq<char>
    decreases bs.len(),
{
    if bs.len() == 0 {
        Seq::empty()
    } else {
        urlencode_bytes(bs.drop_last()) + urlencode_byte(bs.last())
    }
}

/// The `application/x-www-form-urlencoded` form of the UTF-8 bytes of `s`.
pub open spec fn form_urlencoded_of(s: Seq<char>) -> Seq<char> {
    urlencode_bytes(vstd::utf8::encode_utf8(s))
}

/// Relies on serde_json::to_string on a `str` (`format_escaped_str` and its
/// `ESCAPE` table): one JSON string literal, and no failure case for a `str`.
#[verifier::external_body]
pub(crate) fn json_quote(s: &str) -> (r: String)
    ensures
        r@ == json_string_of(s@),
{
    serde_json::to_string(s).unwrap_or_default()
}

/// Relies on url::form_urlencoded::byte_serialize (`byte_serialized_unchanged`
/// and `percent_encode_byte`) over the UTF-8 bytes of `s`.
#[verifier::external_body]
pub(crate) fn form_urlencode(s: &str) -> (r: String)
    ensures
        r@ == form_urlencoded_of(s@),
{
    url::form_urlencoded::byte_serialize(s.as_bytes()).collect::<String>()
}

/// `a + b` as a new string.
pub fn cat2(a: &str, b: &str) -> (r: String)
    ensures
        r@ == a@ + b@,
{
    let mut s = a.to_owned();
    s.append(b);
    s
}

/// `a + b + c` as a new string.
pub fn cat3(a: &str, b: &str, c: &str) -> (r: String)
    ensures
        r@ == a@ + b@ + c@,
{
    let mut s = a.to_owned();
    s.append(b);
    s.append(c);
    s
}

/// `a + b + c + d` as a new string.
pub fn cat4(a: &str, b: &str, c: &str, d: &str) -> (r: String)
    ensures
        r@ == a@ + b@ + c@ + d@,
{
    let mut s = a.to_owned();
    s.append(b);
    s.append(c);
    s.append(d);
    s
}

/// Whether `a` and `b` hold the same characters.
pub fn str_eq(a: &str, b: &str) -> (r: bool)
    ensures
        r == (a@ == b@),
{
    let n = a.unicode_len();
    if n != b.unicode_len() {
        return false;
    }
    let mut i: usize = 0;
    while i < n
        invariant
            n == a@.len() == b@.len(),
            i <= n,
            a@.subrange(0, i as int) == b@.subrange(0, i as int),
        decreases n - i,
    {
        if a.get_char(i) != b.get_char(i) {
            assert(a@[i as int] != b@[i as int]);
            return false;
        }
        assert(a@.subrange(0, i + 1) == a@.subrange(0, i as int).push(a@[i as int]));
        assert(b@.subrange(0, i + 1) == b@.subrange(0, i as int).push(b@[i as int]));
        i = i + 1;
    }
    assert(a@ == a@.subrange(0, n as int));
    assert(b@ == b@.subrange(0, n as int));
    true
}

/// `s` begins with `p`.
pub open spec fn has_prefix(s: Seq<char>, p: Seq<char>) -> bool {
    p.len() <= s.len() && s.subrange(0, p.len() as int) == p
}

/// Whether `s` begins with `p`.
pub fn starts_with(s: &str, p: &str) -> (r: bool)
    ensures
        r == has_prefix(s@, p@),
{
    let n = p.unicode_len();
    if n > s.unicode_len() {
        return false;
    }
    let head = s.substring_char(0, n);
    str_eq(head, p)
}

/// What follows the prefix `p` in `s`, if `s` begins with it.
pub fn strip_prefix(s: &str, p: &str) -> (r: Option<String>)
    ensures
        has_prefix(s@, p@) ==> (r matches Some(t) && t@ == s@.subrange(p@.len() as int, s@.len() as int)),
        !has_prefix(s@, p@) ==> r is None,
{
    if starts_with(s, p) {
        let n = p.unicode_len();
        let m = s.unicode_len();
        Some(s.substring_char(n, m).to_owned())
    } else {
        None
    }
}

/// The first index in `[i, hi)` that holds `c`, or `hi` when none does.
pub open spec fn first_of(s: Seq<char>, c: char, i: int, hi: int) -> int
    decreases hi - i,
{
    if i >= hi {
        hi
    } else if s[i] == c {
        i
    } else {
        first_of(s, c, i + 1, hi)
    }
}

pub proof fn lemma_first_of_bounds(s: Seq<char>, c: char, i: int, hi: int)
    requires
        i <= hi,
    ensures
        i <= first_of(s, c, i, hi) <= hi,
    decreases hi - i,
{
    if i < hi && s[i] != c {
        lemma_first_of_bounds(s, c, i + 1, hi);
    }
}

/// Space or horizontal tab.
pub open spec fn is_space(c: char) -> bool {
    c == ' ' || c == '\t'
}

/// The first index in `[i, hi)` that is not a space, or `hi`.
pub open spec fn space_end(s: Seq<char>, i: int, hi: int) -> int
    decreases hi - i,
{
    if i >= hi {
        hi
    } else if is_space(s[i]) {
        space_end(s, i + 1, hi)
    } else {
        i
    }
}

/// The end of `[lo, hi)` once trailing spaces are cut off.
pub open spec fn trimmed_end(s: Seq<char>, lo: int, hi: int) -> int
    decreases hi - lo,
{
    if hi <= lo {
        lo
    } else if is_space(s[hi - 1]) {
        trimmed_end(s, lo, hi - 1)
    } else {
        hi
    }
}

pub fn find_char(s: &str, c: char, i: usize, hi: usize) -> (r: usize)
    requires
        i <= hi <= s@.len(),
    ensures
        r as int == first_of(s@, c, i as int, hi as int),
        i <= r <= hi,
{
    let mut j: usize = i;
    while j < hi
        invariant
            i <= j <= hi,
            hi <= s@.len(),
            first_of(s@, c, i as int, hi as int) == first_of(s@, c, j as int, hi as int),
        decreases hi - j,
    {
        if s.get_char(j) == c {
            return j;
        }
        j = j + 1;
    }
    j
}

pub fn skip_spaces(s: &str, i: usize, hi: usize) -> (r: usize)
    requires
        i <= hi <= s@.len(),
    ensures
        r as int == space_end(s@, i as int, hi as int),
        i <= r <= hi,
{
    let mut j: usize = i;
    while j < hi
        invariant
            i <= j <= hi,
            hi <= s@.len(),
            space_end(s@, i as int, hi as int) == space_end(s@, j as int, hi as int),
        decreases hi - j,
    {
        let ch = s.get_char(j);
        if !(ch == ' ' || ch == '\t') {
            return j;
        }
        j = j + 1;
    }
    j
}

pub fn trim_spaces_end(s: &str, lo: usize, hi: usize) -> (r: usize)
    requires
        lo <= hi <= s@.len(),
    ensures
        r as int == trimmed_end(s@, lo as int, hi as int),
        lo <= r <= hi,
{
    let mut j: usize = hi;
    while j > lo
        invariant
            lo <= j <= hi,
            hi <= s@.len(),
            trimmed_end(s@, lo as int, hi as int) == trimmed_end(s@, lo as int, j as int),
        decreases j - lo,
    {
        let ch = s.get_char(j - 1);
        if !(ch == ' ' || ch == '\t') {
            return j;
        }
        j = j - 1;
    }
    j
}

/// `x` and `y` are the same character up to ASCII case.
pub open spec fn same_nocase(x: char, y: char) -> bool {
    x == y || ('A' <= x <= 'Z' && y as u32 == x as u32 + 32) || ('A' <= y <= 'Z' && x as u32
        == y as u32 + 32)
}

/// `a` and `b` are equal up to ASCII case.
pub open spec fn eq_nocase(a: Seq<char>, b: Seq<char>) -> bool {
    a.len() == b.len() && forall|k: int| 0 <= k < a.len() ==> same_nocase(#[trigger] a[k], b[k])
}

/// Whether the characters of `s` in `[lo, hi)` spell `w` up to ASCII case.
pub fn range_eq_nocase(s: &str, lo: usize, hi: usize, w: &str) -> (r: bool)
    requires
        lo <= hi <= s@.len(),
    ensures
        r == eq_nocase(s@.subrange(lo as int, hi as int), w@),
{
    let n = w.unicode_len();
    if hi - lo != n {
        return false;
    }
    let ghost a = s@.subrange(lo as int, hi as int);
    let mut k: usize = 0;
    while k < n
        invariant
            n == w@.len() == hi - lo,
            lo <= hi <= s@.len(),
            a == s@.subrange(lo as int, hi as int),
            k <= n,
            forall|t: int| 0 <= t < k ==> same_nocase(#[trigger] a[t], w@[t]),
        decreases n - k,
    {
        let x = s.get_char(lo + k);
        let y = w.get_char(k);
        let same = x == y || ('A' <= x && x <= 'Z' && y as u32 == x as u32 + 32) || ('A' <= y && y
            <= 'Z' && x as u32 == y as u32 + 32);
        if !same {
            assert(!same_nocase(a[k as int], w@[k as int]));
            return false;
        }
        k = k + 1;
    }
    true
}

/// Whether the characters of `s` in `[lo, hi)` are exactly `w`.
pub fn range_eq(s: &str, lo: usize, hi: usize, w: &str) -> (r: bool)
    requires
        lo <= hi <= s@.len(),
    ensures
        r == (s@.subrange(lo as int, hi as int) == w@),
{
    str_eq(s.substring_char(lo, hi), w)
}

pub proof fn lemma_space_end_bounds(s: Seq<char>, i: int, hi: int)
    requires
        i <= hi,
    ensures
        i <= space_end(s, i, hi) <= hi,
        space_end(s, i, hi) < hi ==> !is_space(s[space_end(s, i, hi)]),
    decreases hi - i,
{
    if i < hi && is_space(s[i]) {
        lemma_space_end_bounds(s, i + 1, hi);
    }
}

/// The first index in `[i, hi)` that holds a space, or `hi`.
pub open spec fn space_start(s: Seq<char>, i: int, hi: int) -> int
    decreases hi - i,
{
    if i >= hi {
        hi
    } else if is_space(s[i]) {
        i
    } else {
        space_start(s, i + 1, hi)
    }
}

pub proof fn lemma_space_start_bounds(s: Seq<char>, i: int, hi: int)
    requires
        i <= hi,
    ensures
        i <= space_start(s, i, hi) <= hi,
    decreases hi - i,
{
    if i < hi && !is_space(s[i]) {
        lemma_space_start_bounds(s, i + 1, hi);
    }
}

pub fn find_space(s: &str, i: usize, hi: usize) -> (r: usize)
    requires
        i <= hi <= s@.len(),
    ensures
        r as int == space_start(s@, i as int, hi as int),
        i <= r <= hi,
{
    let mut j: usize = i;
    while j < hi
        invariant
            i <= j <= hi,
            hi <= s@.len(),
            space_start(s@, i as int, hi as int) == space_start(s@, j as int, hi as int),
        decreases hi - j,
    {
        let ch = s.get_char(j);
        if ch == ' ' || ch == '\t' {
            return j;
        }
        j = j + 1;
    }
    j
}

/// The first index in `[i, hi)` that does not hold `c`, or `hi`.
pub open spec fn run_end(s: Seq<char>, c: char, i: int, hi: int) -> int
    decreases hi - i,
{
    if i >= hi {
        hi
    } else if s[i] == c {
        run_end(s, c, i + 1, hi)
    } else {
        i
    }
}

/// The end of `[lo, hi)` once trailing `c`s are cut off.
pub open spec fn run_trim_end(s: Seq<char>, c: char, lo: int, hi: int) -> int
    decreases hi - lo,
{
    if hi <= lo {
        lo
    } else if s[hi - 1] == c {
        run_trim_end(s, c, lo, hi - 1)
    } else {
        hi
    }
}

pub fn skip_run(s: &str, c: char, i: usize, hi: usize) -> (r: usize)
    requires
        i <= hi <= s@.len(),
    ensures
        r as int == run_end(s@, c, i as int, hi as int),
        i <= r <= hi,
{
    let mut j: usize = i;
    while j < hi
        invariant
            i <= j <= hi,
            hi <= s@.len(),
            run_end(s@, c, i as int, hi as int) == run_end(s@, c, j as int, hi as int),
        decreases hi - j,
    {
        if s.get_char(j) != c {
            return j;
        }
        j = j + 1;
    }
    j
}

pub fn trim_run_end(s: &str, c: char, lo: usize, hi: usize) -> (r: usize)
    requires
        lo <= hi <= s@.len(),
    ensures
        r as int == run_trim_end(s@, c, lo as int, hi as int),
        lo <= r <= hi,
{
    let mut j: usize = hi;
    while j > lo
        invariant
            lo <= j <= hi,
            hi <= s@.len(),
            run_trim_end(s@, c, lo as int, hi as int) == run_trim_end(s@, c, lo as int, j as int),
        decreases j - lo,
    {
        if s.get_char(j - 1) != c {
            return j;
        }
        j = j - 1;
    }
    j
}

/// The decimal digit `d` as text.
pub open spec fn digit_text(d: nat) -> Seq<char> {
    if d == 0 {
        "0"@
    } else if d == 1 {
        "1"@
    } else if d == 2 {
        "2"@
    } else if d == 3 {
        "3"@
    } else if d == 4 {
        "4"@
    } else if d == 5 {
        "5"@
    } else if d == 6 {
        "6"@
    } else if d == 7 {
        "7"@
    } else if d == 8 {
        "8"@
    } else {
        "9"@
    }
}

/// The decimal rendering of `n`, without leading zeros.
pub open spec fn decimal_of(n: nat) -> Seq<char>
    decreases n,
{
    if n < 10 {
        digit_text(n)
    } else {
        decimal_of(n / 10) + digit_text(n % 10)
    }
}

fn digit_str(d: u64) -> (r: &'static str)
    requires
        d < 10,
    ensures
        r@ == digit_text(d as nat),
{
    if d == 0 {
        "0"
    } else if d == 1 {
        "1"
    } else if d == 2 {
        "2"
    } else if d == 3 {
        "3"
    } else if d == 4 {
        "4"
    } else if d == 5 {
        "5"
    } else if d == 6 {
        "6"
    } else if d == 7 {
        "7"
    } else if d == 8 {
        "8"
    } else {
        "9"
    }
}

/// `n` in decimal.
pub fn decimal(n: u64) -> (r: String)
    ensures
        r@ == decimal_of(n as nat),
    decreases n,
{
    if n < 10 {
        String::from_str(digit_str(n))
    } else {
        let mut s = decimal(n / 10);
        s.append(digit_str(n % 10));
        s
    }
}

/// The JSON array of the JSON strings of `items`, without spaces.
pub open spec fn json_array_of(items: Seq<Seq<char>>) -> Seq<char> {
    "["@ + json_list(items) + "]"@
}

/// The comma-separated JSON strings of `items`.
pub open spec fn json_list(items: Seq<Seq<char>>) -> Seq<char>
    decreases items.len(),
{
    if items.len() == 0 {
        Seq::empty()
    } else if items.len() == 1 {
        json_string_of(items[0])
    } else {
        json_list(items.drop_last()) + ","@ + json_string_of(items.last())
    }
}

/// A JSON array of strings.
pub fn json_string_array(items: &Vec<String>) -> (r: String)
    ensures
        r@ == json_array_of(items@.map_values(|s: String| s@)),
{
    let ghost v = items@.map_values(|s: String| s@);
    let n = items.len();
    let mut body = String::new();
    let mut i: usize = 0;
    while i < n
        invariant
            n == items@.len(),
            v == items@.map_values(|s: String| s@),
            i <= n,
            body@ == json_list(v.subrange(0, i as int)),
        decreases n - i,
    {
        let q = json_quote(items[i].as_str());
        assert(v.subrange(0, i + 1).drop_last() =~= v.subrange(0, i as int));
        if i > 0 {
            body.append(",");
        } else {
            assert(json_list(v.subrange(0, 0)) == Seq::<char>::empty());
            assert(body@ =~= Seq::<char>::empty());
        }
        body.append(q.as_str());
        proof {
            if i == 0 {
                assert(body@ =~= json_string_of(v[0]));
            }
        }
        i = i + 1;
    }
    assert(v.subrange(0, n as int) =~= v);
    let mut s = String::from_str("[");
    s.append(body.as_str());
    s.append("]");
    s
}

pub proof fn lemma_space_start_at(s: Seq<char>, t: int, e: int, n: int)
    requires
        t <= e <= n,
        forall|k: int| t <= k < e ==> !is_space(#[trigger] s[k]),
        e == n || is_space(s[e]),
    ensures
        space_start(s, t, n) == e,
    decreases e - t,
{
    if t < e {
        lemma_space_start_at(s, t + 1, e, n);
    }
}

} // verus!
