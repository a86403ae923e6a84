//! A parser for multipart/form-data request bodies.
//!
//! A body is a sequence of parts. Each part opens with a delimiter line
//! (`--` and the boundary), carries a `Content-Disposition` header naming
//! its field (and, for an uploaded file, a filename), and holds its
//! content bytes up to the next delimiter; the final delimiter ends in
//! `--`. The grammar is stated by the `spec_parse_*` functions below, and
//! the executable parser returns exactly what they describe. Quotes in
//! field names carry no escaping, and header lines after the
//! `Content-Disposition` line (such as a part's `Content-Type`) are
//! skipped.

use vstd::prelude::*;
use vstd::slice::{slice_subrange, slice_to_vec};
use vstd::string::StringSliceAdditionalSpecFns;

verus! {

/// A line break.
pub open spec fn crlf() -> Seq<u8> {
    seq![13u8, 10u8]
}

/// The two dashes that open a delimiter and close the final one.
pub open spec fn dashes() -> Seq<u8> {
    seq![45u8, 45u8]
}

/// The blank line that separates a part's headers from its content.
pub open spec fn headers_end() -> Seq<u8> {
    seq![13u8, 10u8, 13u8, 10u8]
}

/// The bytes that precede the boundary in every delimiter after the first.
pub open spec fn sep_prefix() -> Seq<u8> {
    seq![13u8, 10u8, 45u8, 45u8]
}

/// A double quote.
pub open spec fn quote() -> Seq<u8> {
    seq![34u8]
}

/// The opening of a part's Content-Disposition header line, up to and
/// including the quote that starts the field name.
pub open spec fn cd_prefix() -> Seq<u8> {
    "Content-Disposition: form-data; name=\"".spec_bytes()
}

/// The bytes between the field name's closing quote and the filename's
/// opening quote on a file part's header line.
pub open spec fn filename_mid() -> Seq<u8> {
    "; filename=\"".spec_bytes()
}

/// The delimiter the body must open with: `--` and the boundary.
pub open spec fn open_delim(boundary: Seq<u8>) -> Seq<u8> {
    dashes() + boundary
}

/// A delimiter between parts: a line break, `--`, and the boundary.
pub open spec fn sep(boundary: Seq<u8>) -> Seq<u8> {
    sep_prefix() + boundary
}

/// Does `pat` occur in `s` at position `i`?
pub open spec fn is_match(s: Seq<u8>, pat: Seq<u8>, i: int) -> bool {
    &&& 0 <= i
    &&& i + pat.len() <= s.len()
    &&& forall|k: int| 0 <= k < pat.len() ==> s[i + k] == #[trigger] pat[k]
}

/// The first position at or after `i` where `pat` occurs in `s`.
pub open spec fn find_spec(s: Seq<u8>, pat: Seq<u8>, i: int) -> Option<int>
    decreases s.len() - i,
{
    if i < 0 || i + pat.len() > s.len() {
        None
    } else if is_match(s, pat, i) {
        Some(i)
    } else {
        find_spec(s, pat, i + 1)
    }
}

/// A found position lies at or after the start of the search and its
/// occurrence fits inside `s`.
pub proof fn lemma_find_spec_some(s: Seq<u8>, pat: Seq<u8>, i: int)
    ensures
        match find_spec(s, pat, i) {
            Some(j) => i <= j && is_match(s, pat, j),
            None => true,
        },
    decreases s.len() - i,
{
    if i < 0 || i + pat.len() > s.len() {
    } else if is_match(s, pat, i) {
    } else {
        lemma_find_spec_some(s, pat, i + 1);
    }
}

/// One part of a multipart body: the field name, the filename where the
/// part carries an uploaded file, and the content bytes.
pub struct Part {
    pub name: Vec<u8>,
    pub filename: Option<Vec<u8>>,
    pub content: Vec<u8>,
}

/// The mathematical value of a part.
pub ghost struct PartV {
    pub name: Seq<u8>,
    pub filename: Option<Seq<u8>>,
    pub content: Seq<u8>,
}

impl View for Part {
    type V = PartV;

    open spec fn view(&self) -> PartV {
        PartV {
            name: self.name@,
            filename: match self.filename {
                Some(f) => Some(f@),
                None => None,
            },
            content: self.content@,
        }
    }
}

/// The values of a sequence of parts.
pub open spec fn parts_view(v: Seq<Part>) -> Seq<PartV> {
    v.map_values(|p: Part| p@)
}

/// The values of an optional sequence of parts.
pub open spec fn opt_parts_view(r: Option<Vec<Part>>) -> Option<Seq<PartV>> {
    match r {
        Some(v) => Some(parts_view(v@)),
        None => None,
    }
}

/// The name and filename on a Content-Disposition header line that spans
/// positions `i` (inclusive) to `l` (the line's terminating line break),
/// or `None` where the line is not of that shape.
pub open spec fn spec_parse_cd(s: Seq<u8>, i: int, l: int) -> Option<(Seq<u8>, Option<Seq<u8>>)> {
    if !is_match(s, cd_prefix(), i) {
        None
    } else {
        let ns = i + cd_prefix().len();
        match find_spec(s, quote(), ns) {
            None => None,
            Some(q) => if q >= l {
                None
            } else if q + 1 == l {
                Some((s.subrange(ns, q), None))
            } else if is_match(s, filename_mid(), q + 1) {
                let fs = q + 1 + filename_mid().len();
                match find_spec(s, quote(), fs) {
                    None => None,
                    Some(q2) => if q2 + 1 == l {
                        Some((s.subrange(ns, q), Some(s.subrange(fs, q2))))
                    } else {
                        None
                    },
                }
            } else {
                None
            },
        }
    }
}

/// The parts of `s` from position `i`, where `i` stands right after a
/// delimiter: either the closing dashes follow, or a line break and a part.
pub open spec fn spec_parse_after_delim(s: Seq<u8>, boundary: Seq<u8>, i: int) -> Option<
    Seq<PartV>,
>
    decreases s.len() - i, 1int,
{
    if is_match(s, dashes(), i) {
        Some(Seq::empty())
    } else if is_match(s, crlf(), i) {
        spec_parse_part(s, boundary, i + 2)
    } else {
        None
    }
}

/// The parts of `s` from position `i`, where `i` opens a part's header
/// section: the Content-Disposition line, any further header lines up to
/// the blank line, the content up to the next delimiter, and the parts
/// after that delimiter.
pub open spec fn spec_parse_part(s: Seq<u8>, boundary: Seq<u8>, i: int) -> Option<Seq<PartV>>
    decreases s.len() - i, 0int,
    via spec_parse_part_decreases
{
    match find_spec(s, headers_end(), i) {
        None => None,
        Some(h) => match find_spec(s, crlf(), i) {
            None => None,
            Some(l) => match spec_parse_cd(s, i, l) {
                None => None,
                Some(nf) => {
                    let cstart = h + headers_end().len();
                    match find_spec(s, sep(boundary), cstart) {
                        None => None,
                        Some(e) => match spec_parse_after_delim(
                            s,
                            boundary,
                            e + sep(boundary).len(),
                        ) {
                            None => None,
                            Some(rest) => Some(
                                seq![
                                    PartV {
                                        name: nf.0,
                                        filename: nf.1,
                                        content: s.subrange(cstart, e),
                                    },
                                ] + rest,
                            ),
                        },
                    }
                },
            },
        },
    }
}

#[via_fn]
proof fn spec_parse_part_decreases(s: Seq<u8>, boundary: Seq<u8>, i: int) {
    lemma_find_spec_some(s, headers_end(), i);
    if let Some(h) = find_spec(s, headers_end(), i) {
        lemma_find_spec_some(s, sep(boundary), h + headers_end().len());
    }
}

/// The parts of a whole multipart body: the opening delimiter, then the
/// part list. `None` where the body does not follow the grammar.
pub open spec fn spec_parse_body(s: Seq<u8>, boundary: Seq<u8>) -> Option<Seq<PartV>> {
    if is_match(s, open_delim(boundary), 0) {
        spec_parse_after_delim(s, boundary, open_delim(boundary).len() as int)
    } else {
        None
    }
}

/// Does `pat` occur in `s` at position `i`?
fn match_at(s: &[u8], pat: &[u8], i: usize) -> (r: bool)
    ensures
        r == is_match(s@, pat@, i as int),
{
    if pat.len() > s.len() || i > s.len() - pat.len() {
        return false;
    }
    let sl = s.len();
    let m = pat.len();
    let mut k: usize = 0;
    while k < m
        invariant
            sl == s@.len(),
            m == pat@.len(),
            i + m <= s@.len(),
            0 <= k <= m,
            forall|t: int| 0 <= t < k ==> s@[i + t] == #[trigger] pat@[t],
        decreases m - k,
    {
        if s[i + k] != pat[k] {
            proof {
                assert(!is_match(s@, pat@, i as int)) by {
                    assert(s@[i + k as int] != pat@[k as int]);
                }
            }
            return false;
        }
        k += 1;
    }
    true
}

/// The first position at or after `i` where `pat` occurs in `s`.
fn find_at(s: &[u8], pat: &[u8], i: usize) -> (r: Option<usize>)
    ensures
        match r {
            Some(j) => i <= j && is_match(s@, pat@, j as int) && find_spec(s@, pat@, i as int)
                == Some(j as int),
            None => find_spec(s@, pat@, i as int) is None,
        },
{
    let mut j: usize = i;
    loop
        invariant
            i <= j,
            find_spec(s@, pat@, i as int) == find_spec(s@, pat@, j as int),
        decreases s@.len() + 1 - j,
    {
        if pat.len() > s.len() || j > s.len() - pat.len() {
            return None;
        }
        if match_at(s, pat, j) {
            return Some(j);
        }
        j += 1;
    }
}

/// Are the bytes of `a` exactly the bytes of `b`?
pub fn bytes_eq(a: &[u8], b: &[u8]) -> (r: bool)
    ensures
        r == (a@ == b@),
{
    if a.len() != b.len() {
        return false;
    }
    let r = match_at(a, b, 0);
    proof {
        if r {
            assert(a@ =~= b@);
        } else {
            if a@ == b@ {
                assert(is_match(a@, b@, 0));
            }
        }
    }
    r
}

/// The name and filename on the Content-Disposition line from `i` to the
/// line break at `l`.
fn parse_cd(s: &[u8], i: usize, l: usize) -> (r: Option<(Vec<u8>, Option<Vec<u8>>)>)
    ensures
        match r {
            Some(nf) => spec_parse_cd(s@, i as int, l as int) matches Some(nfv) && nfv.0 == nf.0@
                && nfv.1 == (match nf.1 {
                Some(f) => Some(f@),
                None => None,
            }),
            None => spec_parse_cd(s@, i as int, l as int) is None,
        },
{
    let pat = "Content-Disposition: form-data; name=\"".as_bytes();
    if !match_at(s, pat, i) {
        return None;
    }
    let sl = s.len();
    proof {
        assert(i + pat@.len() <= sl);
    }
    let ns = i + pat.len();
    let mut qt: Vec<u8> = Vec::new();
    qt.push(34u8);
    proof {
        assert(qt@ =~= quote());
    }
    let q = match find_at(s, qt.as_slice(), ns) {
        Some(q) => q,
        None => {
            return None;
        },
    };
    if q >= l {
        return None;
    }
    if q + 1 == l {
        let name = slice_to_vec(slice_subrange(s, ns, q));
        return Some((name, None));
    }
    let fm = "; filename=\"".as_bytes();
    if match_at(s, fm, q + 1) {
        proof {
            assert(q + 1 + fm@.len() <= sl);
        }
        let fs = q + 1 + fm.len();
        let q2 = match find_at(s, qt.as_slice(), fs) {
            Some(x) => x,
            None => {
                return None;
            },
        };
        if q2 + 1 == l {
            let name = slice_to_vec(slice_subrange(s, ns, q));
            let fname = slice_to_vec(slice_subrange(s, fs, q2));
            return Some((name, Some(fname)));
        }
        return None;
    }
    None
}

/// The parts of `s` from `i`, right after a delimiter.
fn parse_after_delim(s: &[u8], boundary: &[u8], i: usize) -> (r: Option<Vec<Part>>)
    requires
        i <= s@.len(),
    ensures
        opt_parts_view(r) == spec_parse_after_delim(s@, boundary@, i as int),
    decreases s@.len() - i, 1int,
{
    let mut dd: Vec<u8> = Vec::new();
    dd.push(45u8);
    dd.push(45u8);
    proof {
        assert(dd@ =~= dashes());
    }
    if match_at(s, dd.as_slice(), i) {
        let v: Vec<Part> = Vec::new();
        proof {
            assert(parts_view(v@) =~= Seq::<PartV>::empty());
        }
        return Some(v);
    }
    let mut cr: Vec<u8> = Vec::new();
    cr.push(13u8);
    cr.push(10u8);
    proof {
        assert(cr@ =~= crlf());
    }
    if match_at(s, cr.as_slice(), i) {
        proof {
            assert(i + crlf().len() <= s@.len());
            assert(s@.len() <= s.len());
        }
        return parse_part(s, boundary, i + 2);
    }
    None
}

/// The parts of `s` from `i`, where a part's header section opens.
fn parse_part(s: &[u8], boundary: &[u8], i: usize) -> (r: Option<Vec<Part>>)
    requires
        i <= s@.len(),
    ensures
        opt_parts_view(r) == spec_parse_part(s@, boundary@, i as int),
    decreases s@.len() - i, 0int,
{
    let mut he: Vec<u8> = Vec::new();
    he.push(13u8);
    he.push(10u8);
    he.push(13u8);
    he.push(10u8);
    proof {
        assert(he@ =~= headers_end());
    }
    let h = match find_at(s, he.as_slice(), i) {
        Some(h) => h,
        None => {
            return None;
        },
    };
    let mut cr: Vec<u8> = Vec::new();
    cr.push(13u8);
    cr.push(10u8);
    proof {
        assert(cr@ =~= crlf());
    }
    let l = match find_at(s, cr.as_slice(), i) {
        Some(l) => l,
        None => {
            return None;
        },
    };
    let nf = match parse_cd(s, i, l) {
        Some(nf) => nf,
        None => {
            return None;
        },
    };
    let sl = s.len();
    proof {
        assert(h + headers_end().len() <= sl);
    }
    let cstart = h + he.len();
    let mut sp: Vec<u8> = Vec::new();
    sp.push(13u8);
    sp.push(10u8);
    sp.push(45u8);
    sp.push(45u8);
    sp.extend_from_slice(boundary);
    proof {
        assert(sp@ =~= sep(boundary@));
    }
    let e = match find_at(s, sp.as_slice(), cstart) {
        Some(e) => e,
        None => {
            return None;
        },
    };
    proof {
        assert(e + sep(boundary@).len() <= sl);
    }
    let rest = match parse_after_delim(s, boundary, e + sp.len()) {
        Some(v) => v,
        None => {
            return None;
        },
    };
    let content = slice_to_vec(slice_subrange(s, cstart, e));
    let part = Part { name: nf.0, filename: nf.1, content };
    let ghost rest0 = rest@;
    let ghost partv = part@;
    let mut out = rest;
    out.insert(0, part);
    proof {
        assert(out@ =~= seq![part].add(rest0));
        assert(parts_view(out@) =~= seq![partv] + parts_view(rest0));
    }
    Some(out)
}

/// The parts of the whole body `body` under the boundary `boundary`, or
/// `None` where the body does not follow the multipart grammar.
pub fn parse_multipart(body: &[u8], boundary: &[u8]) -> (r: Option<Vec<Part>>)
    ensures
        opt_parts_view(r) == spec_parse_body(body@, boundary@),
{
    let mut od: Vec<u8> = Vec::new();
    od.push(45u8);
    od.push(45u8);
    od.extend_from_slice(boundary);
    proof {
        assert(od@ =~= open_delim(boundary@));
    }
    if match_at(body, od.as_slice(), 0) {
        parse_after_delim(body, boundary, od.len())
    } else {
        None
    }
}

/// Is the name `n` one of the names in `allowed`?
pub open spec fn name_allowed(n: Seq<u8>, allowed: Seq<Seq<u8>>) -> bool {
    exists|k: int| 0 <= k < allowed.len() && allowed[k] == n
}

/// Does every part of `ps` carry an allowed field name?
pub open spec fn all_names_allowed(ps: Seq<PartV>, allowed: Seq<Seq<u8>>) -> bool {
    forall|j: int| 0 <= j < ps.len() ==> name_allowed(#[trigger] ps[j].name, allowed)
}

/// The values of a list of allowed names.
pub open spec fn allowed_view(a: Seq<Vec<u8>>) -> Seq<Seq<u8>> {
    a.map_values(|v: Vec<u8>| v@)
}

/// Why a form was rejected: the body does not follow the multipart
/// grammar, or a part carries a field name outside the allowed set.
#[derive(Debug, PartialEq, Eq, Structural, Clone, Copy)]
pub enum FormError {
    Malformed,
    FieldNotAllowed,
}

/// Parse `body` as a multipart form and check every field name against
/// `allowed`. A disallowed field is rejected, and a malformed body is
/// told apart from it.
pub fn parse_form(body: &[u8], boundary: &[u8], allowed: &Vec<Vec<u8>>) -> (r: Result<
    Vec<Part>,
    FormError,
>)
    ensures
        match r {
            Ok(ps) => spec_parse_body(body@, boundary@) == Some(parts_view(ps@))
                && all_names_allowed(parts_view(ps@), allowed_view(allowed@)),
            Err(FormError::Malformed) => spec_parse_body(body@, boundary@) is None,
            Err(FormError::FieldNotAllowed) => match spec_parse_body(body@, boundary@) {
                Some(ps) => !all_names_allowed(ps, allowed_view(allowed@)),
                None => false,
            },
        },
{
    let parts = match parse_multipart(body, boundary) {
        Some(ps) => ps,
        None => {
            return Err(FormError::Malformed);
        },
    };
    let n = parts.len();
    let mut j: usize = 0;
    while j < n
        invariant
            n == parts@.len(),
            0 <= j <= n,
            spec_parse_body(body@, boundary@) == Some(parts_view(parts@)),
            forall|t: int|
                0 <= t < j ==> name_allowed(
                    #[trigger] parts_view(parts@)[t].name,
                    allowed_view(allowed@),
                ),
        decreases n - j,
    {
        if !name_in(allowed, parts[j].name.as_slice()) {
            proof {
                assert(parts_view(parts@)[j as int].name == parts@[j as int].name@);
            }
            return Err(FormError::FieldNotAllowed);
        }
        proof {
            assert(parts_view(parts@)[j as int].name == parts@[j as int].name@);
        }
        j += 1;
    }
    Ok(parts)
}

/// Is `name` one of the names in `allowed`?
fn name_in(allowed: &Vec<Vec<u8>>, name: &[u8]) -> (r: bool)
    ensures
        r == name_allowed(name@, allowed_view(allowed@)),
{
    let m = allowed.len();
    let mut k: usize = 0;
    while k < m
        invariant
            m == allowed@.len(),
            0 <= k <= m,
            forall|t: int| 0 <= t < k ==> allowed_view(allowed@)[t] != name@,
        decreases m - k,
    {
        if bytes_eq(allowed[k].as_slice(), name) {
            proof {
                assert(allowed_view(allowed@)[k as int] == name@);
            }
            return true;
        }
        k += 1;
    }
    false
}

} // verus!
