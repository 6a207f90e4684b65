//! Parsing of WHOIS route-object answers.
//!
//! The TCP exchange itself is plain line I/O and lives in the
//! application shell; this module holds the verified part: deciding,
//! from the lines a WHOIS service sent back, whether a route object was
//! present and what ASN and maintainer it names. The service's answer
//! is a header line followed by colon-separated `key: value` lines;
//! `origin` carries the ASN behind a two-character prefix, `mnt-by` the
//! maintainer. Whitespace around values is ASCII whitespace.

use vstd::prelude::*;
use crate::models::WhoisModel;
use crate::text::{parse_u32_dec, valid_number, radix_value, stripped_digits};

verus! {

/// Network-ownership metadata attached to a post at creation time:
/// the announcing AS number and the maintainer object of the route.
#[derive(Debug, Clone, PartialEq)]
pub struct WhoisResult {
    pub asn: u32,
    pub mnt: String,
}

impl View for WhoisResult {
    type V = WhoisModel;

    open spec fn view(&self) -> WhoisModel {
        WhoisModel { asn: self.asn, mnt: self.mnt@ }
    }
}

/// The answer could not be parsed: an `origin` value does not have the
/// expected shape of a two-character prefix followed by a decimal AS
/// number that fits.
#[derive(Debug, PartialEq, Eq)]
pub enum WhoisError {
    BadAsn,
}

/// The line that opens a route object in the service's answer.
pub open spec fn route_header() -> Seq<char> {
    "% Information related to 'route/"@
}

/// A line announcing a route object.
pub open spec fn is_route_header(l: Seq<char>) -> bool {
    l.len() >= route_header().len() && l.subrange(0, route_header().len() as int)
        == route_header()
}

/// ASCII whitespace, as trimmed around WHOIS values.
pub open spec fn is_space(c: char) -> bool {
    c == ' ' || c == '\t' || c == '\n' || c == '\r' || c == '\u{b}' || c == '\u{c}'
}

/// The sequence without its leading whitespace.
pub open spec fn trim_front(l: Seq<char>) -> Seq<char>
    decreases l.len(),
{
    if l.len() > 0 && is_space(l[0]) {
        trim_front(l.drop_first())
    } else {
        l
    }
}

/// The sequence without its trailing whitespace.
pub open spec fn trim_back(l: Seq<char>) -> Seq<char>
    decreases l.len(),
{
    if l.len() > 0 && is_space(l.last()) {
        trim_back(l.drop_last())
    } else {
        l
    }
}

/// The sequence without whitespace at either end.
pub open spec fn spec_trim(l: Seq<char>) -> Seq<char> {
    trim_back(trim_front(l))
}

/// Position `i` holds the first colon of the line.
pub open spec fn is_first_colon(l: Seq<char>, i: int) -> bool {
    0 <= i < l.len() && l[i] == ':' && (forall|j: int| 0 <= j < i ==> l[j] != ':')
}

/// What one `origin` value denotes: the AS number after the
/// two-character prefix, or nothing parseable.
pub open spec fn origin_asn(value: Seq<char>) -> Option<u32> {
    let t = spec_trim(value);
    if t.len() < 2 {
        None
    } else {
        let digits = t.subrange(2, t.len() as int);
        if valid_number(digits, 10, u32::MAX as int) {
            Some(radix_value(stripped_digits(digits), 10) as u32)
        } else {
            None
        }
    }
}

/// Folds the lines after the route header: `origin` and `mnt-by` values
/// overwrite the state (the last occurrence wins, as a line-by-line
/// reader leaves it), a malformed `origin` aborts, anything else is
/// passed over.
pub open spec fn scan_route(lines: Seq<Seq<char>>, i: int, asn: Option<u32>,
    mnt: Option<Seq<char>>) -> Result<(Option<u32>, Option<Seq<char>>), ()>
    decreases lines.len() - i,
{
    if i < 0 || i >= lines.len() {
        Ok((asn, mnt))
    } else {
        let l = lines[i];
        if exists|c: int| is_first_colon(l, c) {
            let c = choose|c: int| is_first_colon(l, c);
            let key = l.subrange(0, c);
            let value = l.subrange(c + 1, l.len() as int);
            if key == "origin"@ {
                match origin_asn(value) {
                    Some(a) => scan_route(lines, i + 1, Some(a), mnt),
                    None => Err(()),
                }
            } else if key == "mnt-by"@ {
                scan_route(lines, i + 1, asn, Some(spec_trim(value)))
            } else {
                scan_route(lines, i + 1, asn, mnt)
            }
        } else {
            scan_route(lines, i + 1, asn, mnt)
        }
    }
}

/// What a whole answer denotes: nothing when no route header ever
/// arrives; otherwise the scan of the lines after the first header,
/// kept only when both an ASN and a maintainer were found.
pub open spec fn spec_whois(lines: Seq<Seq<char>>) -> Result<Option<WhoisModel>, ()> {
    if exists|h: int| 0 <= h < lines.len() && is_route_header(#[trigger] lines[h]) {
        let h = choose|h: int| 0 <= h < lines.len()
            && is_route_header(#[trigger] lines[h])
            && (forall|k: int| 0 <= k < h ==> !is_route_header(#[trigger] lines[k]));
        match scan_route(lines, h + 1, None, None) {
            Ok((Some(a), Some(m))) => Ok(Some(WhoisModel { asn: a, mnt: m })),
            Ok(_) => Ok(None),
            Err(_) => Err(()),
        }
    } else {
        Ok(None)
    }
}

/// Whether this line opens a route object.
fn line_is_header(s: &str) -> (r: bool)
    ensures
        r == is_route_header(s@),
{
    let header = "% Information related to 'route/";
    proof {
        reveal_strlit("% Information related to 'route/");
    }
    let hlen = header.unicode_len();
    if s.unicode_len() < hlen {
        return false;
    }
    let mut k: usize = 0;
    while k < hlen
        invariant
            hlen == route_header().len(),
            header@ == route_header(),
            s@.len() >= hlen,
            k <= hlen,
            forall|j: int| 0 <= j < k ==> s@[j] == route_header()[j],
        decreases hlen - k,
    {
        if s.get_char(k) != header.get_char(k) {
            return false;
        }
        k += 1;
    }
    assert(s@.subrange(0, route_header().len() as int) =~= route_header());
    true
}

/// The first colon of the line, if any.
fn find_colon(s: &str) -> (r: Option<usize>)
    ensures
        match r {
            Some(i) => is_first_colon(s@, i as int),
            None => !(exists|c: int| is_first_colon(s@, c)),
        },
{
    let n = s.unicode_len();
    let mut i: usize = 0;
    while i < n
        invariant
            n == s@.len(),
            i <= n,
            forall|j: int| 0 <= j < i ==> s@[j] != ':',
        decreases n - i,
    {
        if s.get_char(i) == ':' {
            return Some(i);
        }
        i += 1;
    }
    proof {
        if exists|c: int| is_first_colon(s@, c) {
            let c = choose|c: int| is_first_colon(s@, c);
            assert(s@[c] != ':');
        }
    }
    None
}

/// The bounds of the value with its whitespace trimmed: characters
/// `a .. b` of `s@` taken from `from ..`, equal to `spec_trim` of that
/// suffix.
fn trim_bounds(s: &str, from: usize) -> (r: (usize, usize))
    requires
        from <= s@.len(),
    ensures
        from <= r.0 <= r.1 <= s@.len(),
        s@.subrange(r.0 as int, r.1 as int)
            == spec_trim(s@.subrange(from as int, s@.len() as int)),
{
    let n = s.unicode_len();
    let mut a = from;
    while a < n && is_space_char(s.get_char(a))
        invariant
            n == s@.len(),
            from <= a <= n,
            forall|j: int| from <= j < a ==> is_space(#[trigger] s@[j]),
        decreases n - a,
    {
        a += 1;
    }
    let mut b = n;
    while b > a && is_space_char(s.get_char(b - 1))
        invariant
            n == s@.len(),
            a <= b <= n,
            a == n || !is_space(s@[a as int]),
            forall|j: int| b <= j < n ==> is_space(#[trigger] s@[j]),
        decreases b,
    {
        b -= 1;
    }
    proof {
        lemma_trim_front_range(s@.subrange(from as int, s@.len() as int), a - from);
        let t = s@.subrange(from as int, s@.len() as int)
            .subrange(a - from, (s@.len() - from) as int);
        assert(t =~= s@.subrange(a as int, s@.len() as int));
        lemma_trim_back_range(t, b - a);
        assert(t.subrange(0, b - a) =~= s@.subrange(a as int, b as int));
    }
    (a, b)
}

/// ASCII-whitespace test on one character.
fn is_space_char(c: char) -> (r: bool)
    ensures
        r == is_space(c),
{
    c == ' ' || c == '\t' || c == '\n' || c == '\r' || c == '\u{b}' || c == '\u{c}'
}

/// Dropping exactly the leading whitespace is what `trim_front` does.
proof fn lemma_trim_front_range(l: Seq<char>, a: int)
    requires
        0 <= a <= l.len(),
        forall|j: int| 0 <= j < a ==> is_space(#[trigger] l[j]),
        a == l.len() || !is_space(l[a]),
    ensures
        trim_front(l) == l.subrange(a, l.len() as int),
    decreases a,
{
    if a == 0 {
        if l.len() > 0 && is_space(l[0]) {
            assert(false);
        }
        assert(l.subrange(0, l.len() as int) =~= l);
    } else {
        assert(is_space(l[0]));
        let rest = l.drop_first();
        assert forall|j: int| 0 <= j < a - 1 implies is_space(#[trigger] rest[j]) by {
            assert(rest[j] == l[j + 1]);
        }
        assert(a - 1 == rest.len() || !is_space(rest[a - 1]));
        lemma_trim_front_range(rest, a - 1);
        assert(rest.subrange(a - 1, rest.len() as int) =~= l.subrange(a, l.len() as int));
    }
}

/// Dropping exactly the trailing whitespace is what `trim_back` does.
proof fn lemma_trim_back_range(l: Seq<char>, b: int)
    requires
        0 <= b <= l.len(),
        forall|j: int| b <= j < l.len() ==> is_space(#[trigger] l[j]),
        b == 0 || !is_space(l[b - 1]),
    ensures
        trim_back(l) == l.subrange(0, b),
    decreases l.len() - b,
{
    if b == l.len() {
        if l.len() > 0 && is_space(l.last()) {
            assert(false);
        }
        assert(l.subrange(0, l.len() as int) =~= l);
    } else {
        assert(is_space(l.last()));
        let rest = l.drop_last();
        assert forall|j: int| b <= j < rest.len() implies is_space(#[trigger] rest[j]) by {
            assert(rest[j] == l[j]);
        }
        lemma_trim_back_range(rest, b);
        assert(rest.subrange(0, b) =~= l.subrange(0, b));
    }
}

/// Compares a character range of a line against a short literal.
fn range_eq(s: &str, from: usize, to: usize, lit: &str) -> (r: bool)
    requires
        from <= to <= s@.len(),
    ensures
        r == (s@.subrange(from as int, to as int) == lit@),
{
    let llen = lit.unicode_len();
    if to - from != llen {
        proof {
            assert(s@.subrange(from as int, to as int).len() != lit@.len());
        }
        return false;
    }
    let mut k: usize = 0;
    while k < llen
        invariant
            llen == lit@.len(),
            from + llen == to,
            to <= s@.len(),
            k <= llen,
            forall|j: int| 0 <= j < k ==> s@[from + j] == lit@[j],
        decreases llen - k,
    {
        if s.get_char(from + k) != lit.get_char(k) {
            proof {
                assert(s@.subrange(from as int, to as int)[k as int] != lit@[k as int]);
            }
            return false;
        }
        k += 1;
    }
    assert(s@.subrange(from as int, to as int) =~= lit@);
    true
}

/// When `h` is the first route header, the header the specification
/// picks is `h`.
proof fn lemma_first_header(gl: Seq<Seq<char>>, h: int)
    requires
        0 <= h < gl.len(),
        is_route_header(gl[h]),
        forall|k: int| 0 <= k < h ==> !is_route_header(#[trigger] gl[k]),
    ensures
        (choose|c: int| 0 <= c < gl.len() && is_route_header(#[trigger] gl[c])
            && (forall|k: int| 0 <= k < c ==> !is_route_header(#[trigger] gl[k]))) == h,
{
    let p = |c: int| 0 <= c < gl.len() && is_route_header(gl[c])
        && (forall|k: int| 0 <= k < c ==> !is_route_header(#[trigger] gl[k]));
    assert(0 <= h < gl.len() && is_route_header(#[trigger] gl[h])
        && (forall|k: int| 0 <= k < h ==> !is_route_header(#[trigger] gl[k])));
    let c = choose|c: int| 0 <= c < gl.len() && is_route_header(#[trigger] gl[c])
        && (forall|k: int| 0 <= k < c ==> !is_route_header(#[trigger] gl[k]));
    if c != h {
        if c < h {
            assert(!is_route_header(gl[c]));
        } else {
            assert(!is_route_header(gl[h]));
        }
    }
}

/// Decides what a WHOIS answer said: `Ok(None)` when no route header
/// ever arrived or when the route object lacked an `origin` or a
/// `mnt-by` line, `Ok(Some(..))` with the announced ASN and maintainer,
/// and `Err` when an `origin` value was malformed. The last `origin`
/// and `mnt-by` lines win, as in a line-by-line read.
pub fn whois_from_lines(lines: &Vec<String>) -> (r: Result<Option<WhoisResult>, WhoisError>)
    ensures
        match r {
            Ok(Some(w)) => spec_whois(lines@.map_values(|s: String| s@))
                == Ok::<Option<WhoisModel>, ()>(Some(w@)),
            Ok(None) => spec_whois(lines@.map_values(|s: String| s@))
                == Ok::<Option<WhoisModel>, ()>(None::<WhoisModel>),
            Err(e) => spec_whois(lines@.map_values(|s: String| s@)).is_err(),
        },
{
    let ghost gl = lines@.map_values(|s: String| s@);
    let n = lines.len();
    let mut h: usize = 0;
    while h < n && !line_is_header(lines[h].as_str())
        invariant
            n == lines.len(),
            gl == lines@.map_values(|s: String| s@),
            h <= n,
            forall|k: int| 0 <= k < h ==> !is_route_header(#[trigger] gl[k]),
        decreases n - h,
    {
        h += 1;
    }
    if h == n {
        proof {
            if exists|k: int| 0 <= k < gl.len() && is_route_header(#[trigger] gl[k]) {
                let k = choose|k: int| 0 <= k < gl.len()
                    && is_route_header(#[trigger] gl[k]);
                assert(!is_route_header(gl[k]));
            }
        }
        return Ok(None);
    }
    proof {
        assert(is_route_header(gl[h as int]));
        let h2 = choose|c: int| 0 <= c < gl.len() && is_route_header(#[trigger] gl[c])
            && (forall|k: int| 0 <= k < c ==> !is_route_header(#[trigger] gl[k]));
        if h2 != h as int {
            if h2 < h as int {
                assert(!is_route_header(gl[h2]));
            } else {
                assert(!is_route_header(gl[h as int]));
            }
        }
    }
    let mut asn: Option<u32> = None;
    let mut mnt: Option<String> = None;
    let mut i = h + 1;
    while i < n
        invariant
            n == lines.len(),
            gl == lines@.map_values(|s: String| s@),
            h < n,
            h < i <= n,
            is_route_header(gl[h as int]),
            forall|k: int| 0 <= k < h ==> !is_route_header(#[trigger] gl[k]),
            (match mnt {
                Some(m) => scan_route(gl, h + 1, None, None)
                    == scan_route(gl, i as int, asn, Some(m@)),
                None => scan_route(gl, h + 1, None, None)
                    == scan_route(gl, i as int, asn, None::<Seq<char>>),
            }),
        decreases n - i,
    {
        let line = lines[i].as_str();
        let ghost l = gl[i as int];
        assert(l == line@);
        match find_colon(line) {
            Some(c) => {
                let llen = line.unicode_len();
                let ghost key = l.subrange(0, c as int);
                let ghost value = l.subrange(c as int + 1, l.len() as int);
                proof {
                    let c2 = choose|c2: int| is_first_colon(l, c2);
                    assert(c2 == c as int);
                }
                if range_eq(line, 0, c, "origin") {
                    let (a, b) = trim_bounds(line, c + 1);
                    proof {
                        assert(l.subrange(c + 1, l.len() as int)
                            =~= line@.subrange(c + 1, line@.len() as int));
                    }
                    if b - a < 2 {
                        proof {
                            assert(spec_trim(value).len() < 2);
                            assert(origin_asn(value) is None);
                            lemma_first_header(gl, h as int);
                        }
                        return Err(WhoisError::BadAsn);
                    }
                    let digits = line.substring_char(a + 2, b);
                    proof {
                        assert(digits@ =~= spec_trim(value).subrange(2,
                            spec_trim(value).len() as int));
                    }
                    match parse_u32_dec(digits) {
                        Some(v) => {
                            asn = Some(v);
                        },
                        None => {
                            proof {
                                assert(origin_asn(value) is None);
                                lemma_first_header(gl, h as int);
                            }
                            return Err(WhoisError::BadAsn);
                        },
                    }
                } else if range_eq(line, 0, c, "mnt-by") {
                    let (a, b) = trim_bounds(line, c + 1);
                    proof {
                        assert(l.subrange(c + 1, l.len() as int)
                            =~= line@.subrange(c + 1, line@.len() as int));
                    }
                    let m = line.substring_char(a, b);
                    mnt = Some(String::from_str(m));
                    proof {
                        assert(m@ == spec_trim(value));
                    }
                }
            },
            None => {},
        }
        i += 1;
    }
    match (asn, mnt) {
        (Some(a), Some(m)) => Ok(Some(WhoisResult { asn: a, mnt: m })),
        _ => Ok(None),
    }
}

} // verus!
