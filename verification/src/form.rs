//! Field extraction from a parsed form: the first value of each named
//! text field, the uploaded photo, and the defaulting rules — a missing
//! fantasy name becomes a placeholder, a missing real name stays unknown,
//! and a missing or unparsable strength level becomes 0.

use vstd::prelude::*;
use vstd::slice::{slice_subrange, slice_to_vec};
use vstd::string::{StringExecFns, StringSliceAdditionalSpecFns};
use vstd::utf8::{decode_utf8, valid_utf8};

use crate::models::{NewHero, NewHeroV};
use crate::multipart::{bytes_eq, parts_view, Part, PartV};

verus! {

/// The field that carries the uploaded photo.
pub open spec fn photo_field() -> Seq<u8> {
    "spotted_photo".spec_bytes()
}

/// The field that carries the hero's fantasy name.
pub open spec fn fantasy_field() -> Seq<u8> {
    "fantasy_name".spec_bytes()
}

/// The field that carries the hero's real name.
pub open spec fn real_field() -> Seq<u8> {
    "real_name".spec_bytes()
}

/// The field that carries the hero's strength level.
pub open spec fn strength_field() -> Seq<u8> {
    "strength_level".spec_bytes()
}

/// The field that names the record an update targets.
pub open spec fn id_field() -> Seq<u8> {
    "id".spec_bytes()
}

/// The content of the first text part (a part without a filename) named
/// `name`, or `None` where the form has no such part.
pub open spec fn first_text_spec(ps: Seq<PartV>, name: Seq<u8>) -> Option<Seq<u8>>
    decreases ps.len(),
{
    if ps.len() == 0 {
        None
    } else if ps[0].name == name && ps[0].filename is None {
        Some(ps[0].content)
    } else {
        first_text_spec(ps.drop_first(), name)
    }
}

/// The first file part (a part with a filename) named `name`, or `None`
/// where the form has no such part.
pub open spec fn first_file_spec(ps: Seq<PartV>, name: Seq<u8>) -> Option<PartV>
    decreases ps.len(),
{
    if ps.len() == 0 {
        None
    } else if ps[0].name == name && ps[0].filename is Some {
        Some(ps[0])
    } else {
        first_file_spec(ps.drop_first(), name)
    }
}

/// The content of the first text part named `name`.
pub fn first_text<'a>(parts: &'a [Part], name: &[u8]) -> (r: Option<&'a Vec<u8>>)
    ensures
        match r {
            Some(v) => first_text_spec(parts_view(parts@), name@) == Some(v@),
            None => first_text_spec(parts_view(parts@), name@) is None,
        },
    decreases parts@.len(),
{
    if parts.len() == 0 {
        return None;
    }
    let p = &parts[0];
    proof {
        assert(parts_view(parts@)[0] == parts@[0]@);
    }
    if p.filename.is_none() && bytes_eq(p.name.as_slice(), name) {
        return Some(&p.content);
    }
    let rest = slice_subrange(parts, 1, parts.len());
    let r = first_text(rest, name);
    proof {
        assert(parts_view(parts@).drop_first() =~= parts_view(rest@));
    }
    r
}

/// The first file part named `name`.
pub fn first_file<'a>(parts: &'a [Part], name: &[u8]) -> (r: Option<&'a Part>)
    ensures
        match r {
            Some(p) => first_file_spec(parts_view(parts@), name@) == Some(p@)
                && p@.filename is Some,
            None => first_file_spec(parts_view(parts@), name@) is None,
        },
    decreases parts@.len(),
{
    if parts.len() == 0 {
        return None;
    }
    let p = &parts[0];
    proof {
        assert(parts_view(parts@)[0] == parts@[0]@);
    }
    if p.filename.is_some() && bytes_eq(p.name.as_slice(), name) {
        return Some(p);
    }
    let rest = slice_subrange(parts, 1, parts.len());
    let r = first_file(rest, name);
    proof {
        assert(parts_view(parts@).drop_first() =~= parts_view(rest@));
    }
    r
}

/// Is `b` the code of a decimal digit?
pub open spec fn is_digit(b: u8) -> bool {
    48 <= b && b <= 57
}

/// Is `s` made of decimal digits only?
pub open spec fn all_digits(s: Seq<u8>) -> bool {
    forall|k: int| 0 <= k < s.len() ==> is_digit(#[trigger] s[k])
}

/// The value of a sequence of decimal digits.
pub open spec fn digits_val(s: Seq<u8>) -> int
    decreases s.len(),
{
    if s.len() == 0 {
        0
    } else {
        digits_val(s.drop_last()) * 10 + (s.last() - 48)
    }
}

/// `s` without its optional leading sign.
pub open spec fn spec_digits_of(s: Seq<u8>) -> Seq<u8> {
    if s.len() > 0 && (s[0] == 43 || s[0] == 45) {
        s.drop_first()
    } else {
        s
    }
}

/// Does `s` open with a minus sign?
pub open spec fn spec_is_negative(s: Seq<u8>) -> bool {
    s.len() > 0 && s[0] == 45
}

/// The signed value `s` denotes, its sign applied to its digits.
pub open spec fn spec_signed_val(s: Seq<u8>) -> int {
    if spec_is_negative(s) {
        -digits_val(spec_digits_of(s))
    } else {
        digits_val(spec_digits_of(s))
    }
}

/// The signed decimal number `s` denotes, within the range of `i32`:
/// an optional sign, then at least one digit, as `str::parse` reads it.
pub open spec fn spec_parse_i32(s: Seq<u8>) -> Option<int> {
    if spec_digits_of(s).len() > 0 && all_digits(spec_digits_of(s)) && i32::MIN
        <= spec_signed_val(s) && spec_signed_val(s) <= i32::MAX {
        Some(spec_signed_val(s))
    } else {
        None
    }
}

/// The strength level a form value yields: the number it denotes, or 0
/// where the field is missing or unparsable.
pub open spec fn strength_of(t: Option<Seq<u8>>) -> int {
    match t {
        None => 0,
        Some(v) => match spec_parse_i32(v) {
            Some(x) => x,
            None => 0,
        },
    }
}

/// A digit string's value is never negative.
proof fn lemma_digits_val_nonneg(s: Seq<u8>)
    requires
        all_digits(s),
    ensures
        digits_val(s) >= 0,
    decreases s.len(),
{
    if s.len() > 0 {
        assert(all_digits(s.drop_last())) by {
            assert(forall|k: int|
                0 <= k < s.len() - 1 ==> #[trigger] s.drop_last()[k] == s[k]);
        }
        lemma_digits_val_nonneg(s.drop_last());
        assert(is_digit(s.last()));
    }
}

/// A digit string's value is at least the value of any of its prefixes.
proof fn lemma_digits_val_prefix_le(s: Seq<u8>, m: int)
    requires
        all_digits(s),
        0 <= m <= s.len(),
    ensures
        digits_val(s.subrange(0, m)) <= digits_val(s),
    decreases s.len() - m,
{
    if m == s.len() {
        assert(s.subrange(0, m) =~= s);
    } else {
        let a = s.subrange(0, m);
        let b = s.subrange(0, m + 1);
        assert(b.drop_last() =~= a);
        assert(all_digits(a)) by {
            assert(forall|k: int| 0 <= k < m ==> #[trigger] a[k] == s[k]);
        }
        lemma_digits_val_nonneg(a);
        assert(is_digit(s[m]));
        assert(digits_val(b) == digits_val(a) * 10 + (s[m] - 48));
        lemma_digits_val_prefix_le(s, m + 1);
    }
}

/// The `i32` the bytes `s` denote as a signed decimal number, or `None`
/// where they denote none.
pub fn parse_i32(s: &[u8]) -> (r: Option<i32>)
    ensures
        match r {
            Some(x) => spec_parse_i32(s@) == Some(x as int),
            None => spec_parse_i32(s@) is None,
        },
{
    let n = s.len();
    if n == 0 {
        return None;
    }
    let neg = s[0] == 45u8;
    let start: usize = if s[0] == 45u8 || s[0] == 43u8 {
        1
    } else {
        0
    };
    if start == n {
        return None;
    }
    let ghost ds = spec_digits_of(s@);
    proof {
        assert(ds =~= s@.subrange(start as int, n as int));
    }
    let mut acc: i64 = 0;
    let mut k: usize = start;
    while k < n
        invariant
            n == s@.len(),
            start <= k <= n,
            start < n,
            (start == 1) == (s@[0] == 43 || s@[0] == 45),
            neg == spec_is_negative(s@),
            ds == spec_digits_of(s@),
            ds =~= s@.subrange(start as int, n as int),
            all_digits(s@.subrange(start as int, k as int)),
            acc == digits_val(s@.subrange(start as int, k as int)),
            0 <= acc <= 2147483648,
        decreases n - k,
    {
        let b = s[k];
        if b < 48u8 || b > 57u8 {
            proof {
                assert(ds[k - start] == s@[k as int]);
                assert(!all_digits(ds));
            }
            return None;
        }
        let d = (b - 48u8) as i64;
        acc = acc * 10 + d;
        proof {
            let pre = s@.subrange(start as int, k as int);
            let cur = s@.subrange(start as int, k as int + 1);
            assert(cur.drop_last() =~= pre);
            assert(cur.last() == s@[k as int]);
            assert(acc == digits_val(cur));
            assert(all_digits(cur)) by {
                assert(forall|t: int|
                    0 <= t < cur.len() - 1 ==> #[trigger] cur[t] == pre[t]);
            }
        }
        if acc > 2147483648i64 {
            proof {
                if all_digits(ds) {
                    let cur = s@.subrange(start as int, k as int + 1);
                    assert(acc == digits_val(cur));
                    assert(cur =~= ds.subrange(0, k as int + 1 - start));
                    lemma_digits_val_prefix_le(ds, k as int + 1 - start);
                    assert(digits_val(ds) >= digits_val(cur));
                    assert(digits_val(ds) > 2147483648);
                    if spec_is_negative(s@) {
                        assert(-digits_val(ds) < i32::MIN);
                    } else {
                        assert(digits_val(ds) > i32::MAX);
                    }
                    assert(spec_parse_i32(s@) is None);
                }
            }
            return None;
        }
        k += 1;
    }
    proof {
        assert(s@.subrange(start as int, k as int) =~= ds);
    }
    if neg {
        if acc == 2147483648i64 {
            return Some(i32::MIN);
        }
        Some(-(acc as i32))
    } else {
        if acc > 2147483647i64 {
            return None;
        }
        Some(acc as i32)
    }
}

/// The strength level the optional form value `v` yields.
pub fn parse_strength(v: Option<&Vec<u8>>) -> (r: i32)
    ensures
        r as int == strength_of(
            match v {
                Some(b) => Some(b@),
                None => None,
            },
        ),
{
    match v {
        None => 0,
        Some(b) => match parse_i32(b.as_slice()) {
            Some(x) => x,
            None => 0,
        },
    }
}

/// Relies on `core::str::from_utf8`: it succeeds exactly on well-formed
/// UTF-8 and returns the decoding of those bytes.
#[verifier::external_body]
fn utf8_decode<'a>(b: &'a [u8]) -> (r: Option<&'a str>)
    ensures
        match r {
            Some(t) => valid_utf8(b@) && t@ == decode_utf8(b@) && t.spec_bytes() == b@,
            None => !valid_utf8(b@),
        },
{
    core::str::from_utf8(b).ok()
}

/// An uploaded file to be written to disk: the destination path and the
/// uploaded bytes.
pub struct FileSave {
    pub path: String,
    pub content: Vec<u8>,
}

/// The mathematical value of a pending file write.
pub ghost struct FileSaveV {
    pub path: Seq<char>,
    pub content: Seq<u8>,
}

impl View for FileSave {
    type V = FileSaveV;

    open spec fn view(&self) -> FileSaveV {
        FileSaveV { path: self.path@, content: self.content@ }
    }
}

/// Does the form's photo part carry a UTF-8 filename, and every present
/// text name field a UTF-8 value?
pub open spec fn fields_decodable(ps: Seq<PartV>) -> bool {
    &&& match first_file_spec(ps, photo_field()) {
        Some(p) => p.filename matches Some(f) && valid_utf8(f),
        None => false,
    }
    &&& match first_text_spec(ps, fantasy_field()) {
        Some(v) => valid_utf8(v),
        None => true,
    }
    &&& match first_text_spec(ps, real_field()) {
        Some(v) => valid_utf8(v),
        None => true,
    }
}

/// `f` is the file write the form's photo part calls for: the uploaded
/// bytes, destined for the image directory under the uploaded filename.
pub open spec fn file_matches(ps: Seq<PartV>, f: FileSaveV) -> bool {
    match first_file_spec(ps, photo_field()) {
        Some(p) => p.filename matches Some(fname) && f.path == "imgs/"@ + decode_utf8(fname)
            && f.content == p.content,
        None => false,
    }
}

/// `h` holds exactly the text fields the form yields under the
/// defaulting rules: a missing fantasy name becomes "No Name.", a missing
/// real name stays unknown rather than empty, and a missing or unparsable
/// strength level becomes 0.
pub open spec fn fields_match(ps: Seq<PartV>, h: NewHeroV) -> bool {
    &&& h.fantasy_name == (match first_text_spec(ps, fantasy_field()) {
        Some(v) => decode_utf8(v),
        None => "No Name."@,
    })
    &&& h.real_name == (match first_text_spec(ps, real_field()) {
        Some(v) => Some(decode_utf8(v)),
        None => None::<Seq<char>>,
    })
    &&& h.strength_level == strength_of(first_text_spec(ps, strength_field()))
}

/// The full extraction contract: the file write matches the photo part,
/// the text fields follow the defaulting rules, and the stored photo path
/// is the file write's destination.
pub open spec fn extract_matches(ps: Seq<PartV>, h: NewHeroV, f: FileSaveV) -> bool {
    &&& file_matches(ps, f)
    &&& fields_match(ps, h)
    &&& h.spotted_photo == f.path
}

/// Why a parsed form yields no record: it carries no photo, or a field
/// that should be text is not UTF-8.
#[derive(Debug, PartialEq, Eq, Structural, Clone, Copy)]
pub enum ExtractError {
    MissingPhoto,
    Undecodable,
}

/// Turn a parsed form into the field set of a hero and the file write it
/// calls for. A form without a photo part is rejected — a record never
/// stores a missing photo — and so is one whose filename or text values
/// are not UTF-8.
pub fn extract_new_hero(parts: &Vec<Part>) -> (r: Result<(NewHero, FileSave), ExtractError>)
    ensures
        match r {
            Ok(p) => fields_decodable(parts_view(parts@)) && extract_matches(
                parts_view(parts@),
                p.0@,
                p.1@,
            ),
            Err(ExtractError::MissingPhoto) => first_file_spec(
                parts_view(parts@),
                photo_field(),
            ) is None,
            Err(ExtractError::Undecodable) => first_file_spec(parts_view(parts@), photo_field())
                is Some && !fields_decodable(parts_view(parts@)),
        },
{
    let file = match first_file(parts.as_slice(), "spotted_photo".as_bytes()) {
        Some(p) => p,
        None => {
            return Err(ExtractError::MissingPhoto);
        },
    };
    let fname = match &file.filename {
        Some(f) => f,
        None => {
            proof {
                assert(false);
            }
            return Err(ExtractError::MissingPhoto);
        },
    };
    let fname_str = match utf8_decode(fname.as_slice()) {
        Some(t) => t,
        None => {
            return Err(ExtractError::Undecodable);
        },
    };
    let path = String::from_str("imgs/").concat(fname_str);
    let fantasy = match first_text(parts.as_slice(), "fantasy_name".as_bytes()) {
        Some(v) => match utf8_decode(v.as_slice()) {
            Some(t) => t.to_owned(),
            None => {
                return Err(ExtractError::Undecodable);
            },
        },
        None => String::from_str("No Name."),
    };
    let realname = match first_text(parts.as_slice(), "real_name".as_bytes()) {
        Some(v) => match utf8_decode(v.as_slice()) {
            Some(t) => Some(t.to_owned()),
            None => {
                return Err(ExtractError::Undecodable);
            },
        },
        None => None,
    };
    let strength = parse_strength(first_text(parts.as_slice(), "strength_level".as_bytes()));
    let save = FileSave { path: path.clone(), content: slice_to_vec(file.content.as_slice()) };
    Ok(
        (
            NewHero {
                fantasy_name: fantasy,
                real_name: realname,
                spotted_photo: path,
                strength_level: strength,
            },
            save,
        ),
    )
}

/// The id an update form targets: the number its `id` field denotes, or
/// `None` where the field is missing or unparsable.
pub open spec fn id_of(ps: Seq<PartV>) -> Option<int> {
    match first_text_spec(ps, id_field()) {
        Some(v) => spec_parse_i32(v),
        None => None,
    }
}

/// The id an update form targets.
pub fn extract_id(parts: &Vec<Part>) -> (r: Option<i32>)
    ensures
        match r {
            Some(x) => id_of(parts_view(parts@)) == Some(x as int),
            None => id_of(parts_view(parts@)) is None,
        },
{
    match first_text(parts.as_slice(), "id".as_bytes()) {
        Some(v) => parse_i32(v.as_slice()),
        None => None,
    }
}

} // verus!
