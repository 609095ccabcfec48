//! Text-level helpers for file metadata: UTF-16 and UTF-8 decoding of tag
//! payloads, keyword-list splitting, rating digits, timestamp strings, and
//! the reduction of raw metadata entry values to strings, timestamps and
//! numbers.

use vstd::prelude::*;
use vstd::slice::slice_index_get;
use crate::text::{
    trim_spec, trim, split_by, lemma_run_len_at, seq_views, is_digit, digits_value,
    lemma_digits_value_nonneg,
};

verus! {

/// What `String::from_utf16` yields for these code units: a string when they
/// are valid UTF-16, nothing otherwise; a function of the units alone.
pub uninterp spec fn utf16_decode(units: Seq<u16>) -> Option<Seq<char>>;

/// Relies on `String::from_utf16`.
#[verifier::external_body]
fn utf16_to_string(units: &Vec<u16>) -> (r: Option<String>)
    ensures
        (r is Some) == (utf16_decode(units@) is Some),
        r matches Some(s) ==> utf16_decode(units@) == Some(s@),
{
    String::from_utf16(units.as_slice()).ok()
}

/// What `String::from_utf8` yields for these bytes: a string when they are
/// valid UTF-8, nothing otherwise; a function of the bytes alone.
pub uninterp spec fn utf8_decode(bytes: Seq<u8>) -> Option<Seq<char>>;

/// Relies on `String::from_utf8`.
#[verifier::external_body]
fn utf8_to_string(bytes: &Vec<u8>) -> (r: Option<String>)
    ensures
        (r is Some) == (utf8_decode(bytes@) is Some),
        r matches Some(s) ==> utf8_decode(bytes@) == Some(s@),
{
    String::from_utf8(bytes.clone()).ok()
}

/// The code units before the first NUL.
pub open spec fn nul_prefix(s: Seq<u16>) -> Seq<u16>
    decreases s.len(),
{
    if s.len() == 0 || s[0] == 0 {
        Seq::empty()
    } else {
        seq![s[0]] + nul_prefix(s.skip(1))
    }
}

pub proof fn lemma_nul_prefix_at(s: Seq<u16>, k: int)
    requires
        0 <= k <= s.len(),
        forall|x: int| 0 <= x < k ==> s[x] != 0,
        k < s.len() ==> s[k] == 0,
    ensures
        nul_prefix(s) == s.take(k),
    decreases k,
{
    if k == 0 {
        assert(s.take(0) =~= Seq::<u16>::empty());
    } else {
        lemma_nul_prefix_at(s.skip(1), k - 1);
        assert(seq![s[0]] + s.skip(1).take(k - 1) =~= s.take(k));
    }
}

/// What decoding a NUL-terminated UTF-16 payload yields: the units before
/// the first NUL, decoded; nothing when they are empty or invalid.
pub open spec fn decode_utf16_spec(vals: Seq<u16>) -> Option<Seq<char>> {
    let c = nul_prefix(vals);
    if c.len() == 0 {
        None
    } else {
        utf16_decode(c)
    }
}

/// Decode a NUL-terminated UTF-16 payload.
pub fn decode_utf16(values: &[u16]) -> (r: Option<String>)
    ensures
        match r {
            Some(s) => decode_utf16_spec(values@) == Some(s@),
            None => decode_utf16_spec(values@) is None,
        },
{
    let n = values.len();
    let mut cleaned: Vec<u16> = Vec::new();
    let mut i: usize = 0;
    while i < n && *slice_index_get(values, i) != 0
        invariant
            i <= n,
            n == values@.len(),
            forall|k: int| 0 <= k < i ==> values@[k] != 0,
            cleaned@ == values@.take(i as int),
        decreases n - i,
    {
        cleaned.push(*slice_index_get(values, i));
        proof {
            assert(cleaned@ =~= values@.take(i + 1));
        }
        i = i + 1;
    }
    proof {
        lemma_nul_prefix_at(values@, i as int);
    }
    if cleaned.len() == 0 {
        None
    } else {
        utf16_to_string(&cleaned)
    }
}

/// The sixteen-bit words read little-endian from a byte payload.
pub open spec fn le_words(bytes: Seq<u8>) -> Seq<u16> {
    Seq::new(bytes.len() / 2, |i: int| (bytes[2 * i] + 256 * bytes[2 * i + 1]) as u16)
}

/// What decoding a little-endian UTF-16 byte payload yields: nothing for an
/// odd length, else the decoded words.
pub open spec fn decode_bytes_spec(bytes: Seq<u8>) -> Option<Seq<char>> {
    if bytes.len() % 2 != 0 {
        None
    } else {
        decode_utf16_spec(le_words(bytes))
    }
}

/// Decode a little-endian UTF-16 byte payload.
pub fn decode_bytes_utf16(bytes: &[u8]) -> (r: Option<String>)
    ensures
        match r {
            Some(s) => decode_bytes_spec(bytes@) == Some(s@),
            None => decode_bytes_spec(bytes@) is None,
        },
{
    let n = bytes.len();
    if n % 2 != 0 {
        return None;
    }
    let half = n / 2;
    let mut words: Vec<u16> = Vec::new();
    let mut w: usize = 0;
    while w < half
        invariant
            w <= half,
            half == n / 2,
            n == bytes@.len(),
            words@.len() == w,
            forall|k: int| 0 <= k < w ==> words@[k] == le_words(bytes@)[k],
        decreases half - w,
    {
        let lo = *slice_index_get(bytes, 2 * w);
        let hi = *slice_index_get(bytes, 2 * w + 1);
        let word = lo as u16 + 256 * (hi as u16);
        words.push(word);
        w = w + 1;
    }
    proof {
        assert(words@ =~= le_words(bytes@));
    }
    match decode_utf16(words.as_slice()) {
        Some(s) => Some(s),
        None => None,
    }
}

/// The characters that separate keywords in a metadata tag list.
pub open spec fn tag_sep_pred() -> spec_fn(char) -> bool {
    |c: char| c == ';' || c == ','
}

/// The kept tags among the split pieces: each piece trimmed, empty ones
/// dropped, order kept.
pub open spec fn kept_tags(pieces: Seq<Seq<char>>) -> Seq<Seq<char>>
    decreases pieces.len(),
{
    if pieces.len() == 0 {
        Seq::empty()
    } else {
        kept_tags(pieces.drop_last()) + (if trim_spec(pieces.last()).len() > 0 {
            seq![trim_spec(pieces.last())]
        } else {
            Seq::empty()
        })
    }
}

/// The keywords of a tag list: the text split on `;` and `,`, each piece
/// trimmed, empty pieces dropped.
pub open spec fn tags_of(s: Seq<char>) -> Seq<Seq<char>> {
    kept_tags(split_by(s, tag_sep_pred()))
}

fn is_tag_sep_exec(c: char) -> (r: bool)
    ensures
        r == tag_sep_pred()(c),
{
    c == ';' || c == ','
}

/// Split a keyword list on `;` and `,`, trimming each keyword and dropping
/// empty ones.
pub fn parse_exif_tags(value: &str) -> (r: Vec<String>)
    ensures
        seq_views(r@) == tags_of(value@),
{
    let n = value.unicode_len();
    let mut pieces: Vec<String> = Vec::new();
    let mut i: usize = 0;
    proof {
        assert(value@.skip(0) =~= value@);
        assert(seq_views(pieces@) + split_by(value@, tag_sep_pred()) =~= split_by(
            value@,
            tag_sep_pred(),
        ));
    }
    while i < n
        invariant
            i <= n,
            n == value@.len(),
            split_by(value@, tag_sep_pred()) == seq_views(pieces@) + split_by(
                value@.skip(i as int),
                tag_sep_pred(),
            ),
        decreases n - i,
    {
        let c = value.get_char(i);
        if is_tag_sep_exec(c) {
            proof {
                let p = tag_sep_pred();
                let t = value@.skip(i as int);
                assert(p(t[0]) == (c == ';' || c == ','));
                assert(t.skip(1) =~= value@.skip(i as int + 1));
            }
            i = i + 1;
        } else {
            let mut j = i + 1;
            while j < n && !is_tag_sep_exec(value.get_char(j))
                invariant
                    i < j <= n,
                    n == value@.len(),
                    forall|x: int| i <= x < j ==> !(tag_sep_pred()(value@[x])),
                decreases n - j,
            {
                proof {
                    let p = tag_sep_pred();
                    assert(forall|c: char| #[trigger] p(c) == (c == ';' || c == ','));
                }
                j = j + 1;
            }
            proof {
                let p = tag_sep_pred();
                assert(forall|c: char| #[trigger] p(c) == (c == ';' || c == ','));
                let t = value@.skip(i as int);
                assert(forall|x: int| 0 <= x < j - i ==> !p(#[trigger] t[x]));
                assert(j < n ==> p(t[j - i]) == p(value@[j as int]));
                lemma_run_len_at(t, p, j - i);
                assert(split_by(t, p) == seq![t.take(j - i)] + split_by(t.skip(j - i), p));
                assert(t.take(j - i) =~= value@.subrange(i as int, j as int));
                assert(t.skip(j - i) =~= value@.skip(j as int));
            }
            let piece = value.substring_char(i, j).to_owned();
            proof {
                let p = tag_sep_pred();
                assert(seq_views(pieces@.push(piece)) =~= seq_views(pieces@).push(piece@));
                assert(seq_views(pieces@.push(piece)) + split_by(value@.skip(j as int), p)
                    =~= seq_views(pieces@) + (seq![value@.subrange(i as int, j as int)] + split_by(
                    value@.skip(j as int),
                    p,
                )));
            }
            pieces.push(piece);
            i = j;
        }
    }
    proof {
        assert(value@.skip(n as int) =~= Seq::<char>::empty());
        assert(seq_views(pieces@) + split_by(Seq::<char>::empty(), tag_sep_pred()) =~= seq_views(
            pieces@,
        ));
    }
    let ghost all = seq_views(pieces@);
    let mut out: Vec<String> = Vec::new();
    let mut k: usize = 0;
    proof {
        assert(seq_views(out@) =~= kept_tags(all.take(0)));
    }
    while k < pieces.len()
        invariant
            k <= pieces@.len(),
            all == seq_views(pieces@),
            all.len() == pieces@.len(),
            forall|x: int| 0 <= x < all.len() ==> all[x] == pieces@[x]@,
            seq_views(out@) == kept_tags(all.take(k as int)),
        decreases pieces@.len() - k,
    {
        proof {
            assert(all.take(k + 1).drop_last() =~= all.take(k as int));
            assert(all.take(k + 1).last() == all[k as int]);
        }
        let ghost pre = seq_views(out@);
        let t = trim(pieces[k].as_str());
        if !t.as_str().is_empty() {
            proof {
                assert(pre.push(t@) =~= pre + seq![t@]);
            }
            out.push(t);
            proof {
                assert(seq_views(out@) =~= pre.push(out@.last()@));
            }
        } else {
            proof {
                assert(pre + Seq::<Seq<char>>::empty() =~= pre);
            }
        }
        k = k + 1;
    }
    proof {
        assert(all.take(pieces@.len() as int) =~= all);
    }
    out
}

pub open spec fn digit_pred() -> spec_fn(char) -> bool {
    |c: char| is_digit(c)
}

/// The rating read from free text: its decimal digits gathered in order and
/// read as one number; nothing when there is no digit or the number does not
/// fit.
pub open spec fn rating_spec(s: Seq<char>) -> Option<u32> {
    let ds = s.filter(digit_pred());
    if ds.len() == 0 {
        None
    } else if digits_value(ds) > u32::MAX {
        None
    } else {
        Some(digits_value(ds) as u32)
    }
}

/// Read a rating from free text by its digits.
pub fn parse_exif_rating(value: &str) -> (r: Option<u32>)
    ensures
        r == rating_spec(value@),
{
    let n = value.unicode_len();
    let mut acc: u32 = 0;
    let mut seen = false;
    let mut overflow = false;
    let mut i: usize = 0;
    proof {
        reveal(Seq::filter);
        assert(value@.take(0).filter(digit_pred()) =~= Seq::<char>::empty());
    }
    while i < n
        invariant
            i <= n,
            n == value@.len(),
            seen == (value@.take(i as int).filter(digit_pred()).len() > 0),
            !overflow ==> acc == digits_value(value@.take(i as int).filter(digit_pred())),
            overflow ==> digits_value(value@.take(i as int).filter(digit_pred())) > u32::MAX,
        decreases n - i,
    {
        let ghost pre = value@.take(i as int).filter(digit_pred());
        proof {
            let p = digit_pred();
            assert(forall|c: char| #[trigger] p(c) == is_digit(c));
            reveal(Seq::filter);
            assert(value@.take(i + 1).drop_last() =~= value@.take(i as int));
            assert(value@.take(i + 1).last() == value@[i as int]);
        }
        let c = value.get_char(i);
        let u = c as u32;
        if 48 <= u && u <= 57 {
            let ghost post = value@.take(i + 1).filter(digit_pred());
            proof {
                let p = digit_pred();
                assert(forall|c: char| #[trigger] p(c) == is_digit(c));
                reveal(Seq::filter);
                assert(is_digit(value@[i as int]));
                assert(post == value@.take(i as int).filter(p).push(value@[i as int]));
                assert(post =~= pre.push(value@[i as int]));
                assert(post.drop_last() =~= pre);
                assert(digits_value(post) == digits_value(pre) * 10 + (u - 48));
            }
            seen = true;
            if !overflow {
                let tmp: u64 = (acc as u64) * 10 + ((u - 48) as u64);
                if tmp > u32::MAX as u64 {
                    overflow = true;
                } else {
                    acc = tmp as u32;
                }
            } else {
                proof {
                    let v = digits_value(pre);
                    assert(forall|k: int| 0 <= k < pre.len() ==> is_digit(#[trigger] pre[k]));
                    lemma_digits_value_nonneg(pre);
                    assert(v * 10 >= v) by (nonlinear_arith)
                        requires
                            v >= 0,
                    ;
                }
            }
        } else {
            proof {
                let p = digit_pred();
                assert(forall|c: char| #[trigger] p(c) == is_digit(c));
                reveal(Seq::filter);
                assert(!is_digit(value@[i as int]));
                assert(value@.take(i + 1).filter(p) == value@.take(i as int).filter(p));
            }
        }
        i = i + 1;
    }
    proof {
        assert(value@.take(n as int) =~= value@);
    }
    if !seen {
        None
    } else if overflow {
        None
    } else {
        Some(acc)
    }
}

/// What chrono reads from an EXIF timestamp text: epoch milliseconds when
/// the text matches either EXIF layout, nothing otherwise; a function of the
/// text alone.
pub uninterp spec fn exif_datetime_millis(s: Seq<char>) -> Option<i64>;

/// Relies on `chrono::NaiveDateTime::parse_from_str` with the two EXIF
/// layouts (`%Y:%m:%d %H:%M:%S`, then `%Y-%m-%d %H:%M:%S`) and on
/// `NaiveDateTime::and_utc` / `DateTime::timestamp_millis`.
#[verifier::external_body]
fn datetime_millis_of(s: &str) -> (r: Option<i64>)
    ensures
        r == exif_datetime_millis(s@),
{
    match chrono::NaiveDateTime::parse_from_str(s, "%Y:%m:%d %H:%M:%S") {
        Ok(dt) => Some(dt.and_utc().timestamp_millis()),
        Err(_) => match chrono::NaiveDateTime::parse_from_str(s, "%Y-%m-%d %H:%M:%S") {
            Ok(dt) => Some(dt.and_utc().timestamp_millis()),
            Err(_) => None,
        },
    }
}

/// What an EXIF timestamp text yields: nothing when blank, else whatever the
/// date parser reads from the trimmed text.
pub open spec fn datetime_spec(text: Seq<char>) -> Option<i64> {
    let t = trim_spec(text);
    if t.len() == 0 {
        None
    } else {
        exif_datetime_millis(t)
    }
}

/// Read epoch milliseconds from an EXIF timestamp text.
pub fn parse_exif_datetime(value: &str) -> (r: Option<i64>)
    ensures
        r == datetime_spec(value@),
{
    let t = trim(value);
    if t.as_str().is_empty() {
        None
    } else {
        datetime_millis_of(t.as_str())
    }
}

/// A raw metadata entry value, reduced to plain values: the caller converts
/// each entry it reads into this shape (a date-valued entry arrives with
/// both its canonical text and its epoch milliseconds).
pub enum MetaValue {
    Text(String),
    Timestamped { formatted: String, millis: i64 },
    U16Array(Vec<u16>),
    U8Array(Vec<u8>),
    Undefined(Vec<u8>),
    Unsigned(u64),
    Signed(i64),
    Other,
}

/// The mathematical value of a [`MetaValue`].
pub enum MetaView {
    Text(Seq<char>),
    Timestamped { formatted: Seq<char>, millis: i64 },
    U16Array(Seq<u16>),
    U8Array(Seq<u8>),
    Undefined(Seq<u8>),
    Unsigned(u64),
    Signed(i64),
    Other,
}

impl View for MetaValue {
    type V = MetaView;

    open spec fn view(&self) -> MetaView {
        match self {
            MetaValue::Text(t) => MetaView::Text(t@),
            MetaValue::Timestamped { formatted, millis } => MetaView::Timestamped {
                formatted: formatted@,
                millis: *millis,
            },
            MetaValue::U16Array(v) => MetaView::U16Array(v@),
            MetaValue::U8Array(v) => MetaView::U8Array(v@),
            MetaValue::Undefined(v) => MetaView::Undefined(v@),
            MetaValue::Unsigned(u) => MetaView::Unsigned(*u),
            MetaValue::Signed(i) => MetaView::Signed(*i),
            MetaValue::Other => MetaView::Other,
        }
    }
}

/// The text of an entry: its own text or canonical date text, a decoded
/// UTF-16 payload, a decoded UTF-8 payload, or for an undefined payload
/// UTF-16 first and UTF-8 second; numbers carry no text.
pub open spec fn entry_string_spec(v: MetaView) -> Option<Seq<char>> {
    match v {
        MetaView::Text(t) => Some(t),
        MetaView::Timestamped { formatted, .. } => Some(formatted),
        MetaView::U16Array(vals) => decode_utf16_spec(vals),
        MetaView::U8Array(vals) => utf8_decode(vals),
        MetaView::Undefined(vals) => {
            let w = decode_bytes_spec(vals);
            if w is Some {
                w
            } else {
                utf8_decode(vals)
            }
        },
        _ => None,
    }
}

/// The text of a metadata entry, if it carries one.
pub fn entry_to_string(value: &MetaValue) -> (r: Option<String>)
    ensures
        match r {
            Some(s) => entry_string_spec(value@) == Some(s@),
            None => entry_string_spec(value@) is None,
        },
{
    match value {
        MetaValue::Text(t) => Some(t.clone()),
        MetaValue::Timestamped { formatted, millis: _ } => Some(formatted.clone()),
        MetaValue::U16Array(vals) => decode_utf16(vals.as_slice()),
        MetaValue::U8Array(vals) => utf8_to_string(vals),
        MetaValue::Undefined(vals) => match decode_bytes_utf16(vals.as_slice()) {
            Some(s) => Some(s),
            None => utf8_to_string(vals),
        },
        _ => None,
    }
}

/// The timestamp of an entry: a date-valued entry's own milliseconds, else
/// whatever the date parser reads from the entry's text.
pub open spec fn entry_timestamp_spec(v: MetaView) -> Option<i64> {
    match v {
        MetaView::Timestamped { millis, .. } => Some(millis),
        _ => match entry_string_spec(v) {
            Some(text) => datetime_spec(text),
            None => None,
        },
    }
}

/// The epoch milliseconds of a metadata entry, if any can be read.
pub fn entry_to_timestamp(value: &MetaValue) -> (r: Option<i64>)
    ensures
        r == entry_timestamp_spec(value@),
{
    match value {
        MetaValue::Timestamped { formatted: _, millis } => Some(*millis),
        _ => match entry_to_string(value) {
            Some(text) => parse_exif_datetime(text.as_str()),
            None => None,
        },
    }
}

/// The low 32 bits of an unsigned number.
pub open spec fn low32_of_u64(u: u64) -> u32 {
    (u % 0x1_0000_0000) as u32
}

/// The low 32 bits of a signed number, read as unsigned (two's complement).
pub open spec fn low32_of_i64(i: i64) -> u32 {
    if i >= 0 {
        ((i as int) % 0x1_0000_0000) as u32
    } else {
        (0xFFFF_FFFF - ((-(i + 1) as int) % 0x1_0000_0000)) as u32
    }
}

fn low32_u64(u: u64) -> (r: u32)
    ensures
        r == low32_of_u64(u),
{
    (u % 0x1_0000_0000) as u32
}

fn low32_i64(i: i64) -> (r: u32)
    ensures
        r == low32_of_i64(i),
{
    if i >= 0 {
        ((i as u64) % 0x1_0000_0000) as u32
    } else {
        let pos = (-(i + 1)) as u64;
        (0xFFFF_FFFFu64 - (pos % 0x1_0000_0000)) as u32
    }
}

/// The number of an entry: a numeric entry's value truncated to 32 bits,
/// else whatever rating the entry's text carries in its digits.
pub open spec fn entry_u32_spec(v: MetaView) -> Option<u32> {
    match v {
        MetaView::Unsigned(u) => Some(low32_of_u64(u)),
        MetaView::Signed(i) => Some(low32_of_i64(i)),
        _ => match entry_string_spec(v) {
            Some(text) => rating_spec(text),
            None => None,
        },
    }
}

/// The numeric value of a metadata entry, if any can be read.
pub fn entry_to_u32(value: &MetaValue) -> (r: Option<u32>)
    ensures
        r == entry_u32_spec(value@),
{
    match value {
        MetaValue::Unsigned(u) => Some(low32_u64(*u)),
        MetaValue::Signed(i) => Some(low32_i64(*i)),
        _ => match entry_to_string(value) {
            Some(text) => parse_exif_rating(text.as_str()),
            None => None,
        },
    }
}

} // verus!
