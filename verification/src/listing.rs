//! Directory-listing parser: turns raw server listing lines (Unix `ls -l`
//! style or DOS/Windows style) into structured entries, with a degraded
//! whole-line entry for lines of neither shape.

use vstd::prelude::*;
use crate::text::{
    trim_spec, trim, tokens_of, tokenize, seq_views, join_with_spaces, join_tokens_from,
    contains_char, str_contains_char, parse_u64_spec, parse_u64,
};

verus! {

/// One parsed listing entry.
pub struct FtpEntry {
    /// Entry name, never empty.
    pub name: String,
    /// Size in bytes where the line carries one; directories have none.
    pub size: Option<u64>,
    /// Modification timestamp exactly as the server printed it.
    pub modified: Option<String>,
    pub is_dir: bool,
    /// The trimmed source line, kept for display fallback.
    pub raw: Option<String>,
}

/// The mathematical value of an [`FtpEntry`].
pub struct EntryView {
    pub name: Seq<char>,
    pub size: Option<u64>,
    pub modified: Option<Seq<char>>,
    pub is_dir: bool,
    pub raw: Option<Seq<char>>,
}

impl View for FtpEntry {
    type V = EntryView;

    open spec fn view(&self) -> EntryView {
        EntryView {
            name: self.name@,
            size: self.size,
            modified: match self.modified {
                Some(m) => Some(m@),
                None => None,
            },
            is_dir: self.is_dir,
            raw: match self.raw {
                Some(r) => Some(r@),
                None => None,
            },
        }
    }
}

/// The names that stand for the directory itself and its parent.
pub open spec fn is_dot_name(t: Seq<char>) -> bool {
    (t.len() == 1 && t[0] == '.') || (t.len() == 2 && t[0] == '.' && t[1] == '.')
}

pub fn is_dot_name_exec(s: &str) -> (r: bool)
    ensures
        r == is_dot_name(s@),
{
    let n = s.unicode_len();
    (n == 1 && s.get_char(0) == '.') || (n == 2 && s.get_char(0) == '.' && s.get_char(1) == '.')
}

/// A candidate entry name, trimmed, with `.` and `..` mapped to the empty
/// name (the parser drops entries whose resolved name is empty).
pub open spec fn normalize_name_spec(s: Seq<char>) -> Seq<char> {
    let t = trim_spec(s);
    if is_dot_name(t) {
        Seq::empty()
    } else {
        t
    }
}

/// Trim a raw name and map `.` and `..` to the empty string.
pub fn normalize_line_name(name: String) -> (r: String)
    ensures
        r@ == normalize_name_spec(name@),
{
    let t = trim(name.as_str());
    let s = t.as_str();
    let n = s.unicode_len();
    let dot1 = n == 1 && s.get_char(0) == '.';
    let dot2 = n == 2 && s.get_char(0) == '.' && s.get_char(1) == '.';
    if dot1 || dot2 {
        String::new()
    } else {
        t
    }
}

/// The case-insensitive `<DIR>` marker of DOS-style listings.
pub open spec fn is_dir_marker(t: Seq<char>) -> bool {
    t.len() == 5 && t[0] == '<' && (t[1] == 'D' || t[1] == 'd') && (t[2] == 'I' || t[2] == 'i')
        && (t[3] == 'R' || t[3] == 'r') && t[4] == '>'
}

pub fn is_dir_marker_exec(t: &str) -> (r: bool)
    ensures
        r == is_dir_marker(t@),
{
    let n = t.unicode_len();
    n == 5 && t.get_char(0) == '<' && (t.get_char(1) == 'D' || t.get_char(1) == 'd') && (t.get_char(
        2,
    ) == 'I' || t.get_char(2) == 'i') && (t.get_char(3) == 'R' || t.get_char(3) == 'r')
        && t.get_char(4) == '>'
}

/// The DOS/Windows heuristic: at least four tokens, a dash in the first
/// (a date) and a colon in the second (a time).
pub open spec fn dos_shape(toks: Seq<Seq<char>>) -> bool {
    toks.len() >= 4 && contains_char(toks[0], '-') && contains_char(toks[1], ':')
}

/// The entry a DOS-shaped token list yields, `None` when the resolved name
/// is empty.
pub open spec fn dos_entry(t: Seq<char>, toks: Seq<Seq<char>>) -> Option<EntryView> {
    let dir = is_dir_marker(toks[2]);
    let size = if dir {
        None
    } else {
        parse_u64_spec(toks[2])
    };
    let name = normalize_name_spec(join_with_spaces(toks.skip(3)));
    if name.len() == 0 {
        None
    } else {
        Some(
            EntryView {
                name,
                size,
                modified: Some(toks[0] + seq![' '] + toks[1]),
                is_dir: dir,
                raw: Some(t),
            },
        )
    }
}

/// The entry a Unix `ls -l`-shaped token list (at least nine tokens) yields,
/// `None` when the resolved name is empty. Only files carry a size:
/// directories report none, whatever the size column held.
pub open spec fn unix_entry(t: Seq<char>, toks: Seq<Seq<char>>) -> Option<EntryView> {
    let dir = toks[0].len() > 0 && toks[0][0] == 'd';
    let size = if dir {
        None
    } else {
        parse_u64_spec(toks[4])
    };
    let name = normalize_name_spec(join_with_spaces(toks.skip(8)));
    if name.len() == 0 {
        None
    } else {
        Some(
            EntryView {
                name,
                size,
                modified: Some(toks[5] + seq![' '] + toks[6] + seq![' '] + toks[7]),
                is_dir: dir,
                raw: Some(t),
            },
        )
    }
}

/// What one raw listing line parses to: the DOS heuristic first, then the
/// Unix heuristic, then the whole trimmed line as a bare name; blank lines,
/// bare `.`/`..` lines, and entries with an empty resolved name yield
/// nothing.
pub open spec fn parse_line_spec(line: Seq<char>) -> Option<EntryView> {
    let t = trim_spec(line);
    if t.len() == 0 {
        None
    } else {
        let toks = tokens_of(t);
        if dos_shape(toks) {
            dos_entry(t, toks)
        } else if toks.len() >= 9 {
            unix_entry(t, toks)
        } else if is_dot_name(t) {
            None
        } else {
            Some(EntryView { name: t, size: None, modified: None, is_dir: false, raw: Some(t) })
        }
    }
}

/// Parse one raw listing line.
pub fn parse_list_entry(line: &str) -> (r: Option<FtpEntry>)
    ensures
        match r {
            Some(e) => parse_line_spec(line@) == Some(e@),
            None => parse_line_spec(line@) is None,
        },
{
    let trimmed = trim(line);
    let ghost t = trim_spec(line@);
    if trimmed.as_str().is_empty() {
        return None;
    }
    let toks = tokenize(trimmed.as_str());
    let ghost tv = tokens_of(t);
    proof {
        assert(forall|k: int| 0 <= k < toks@.len() ==> seq_views(toks@)[k] == toks@[k]@);
    }
    if toks.len() >= 4 && str_contains_char(toks[0].as_str(), '-') && str_contains_char(
        toks[1].as_str(),
        ':',
    ) {
        assert(dos_shape(tv));
        let dir = is_dir_marker_exec(toks[2].as_str());
        let size: Option<u64> = if dir {
            None
        } else {
            parse_u64(toks[2].as_str())
        };
        let name = normalize_line_name(join_tokens_from(&toks, 3));
        if name.as_str().is_empty() {
            return None;
        }
        let mut modified = toks[0].clone();
        modified.append(" ");
        modified.append(toks[1].as_str());
        proof {
            reveal_strlit(" ");
            assert(modified@ =~= tv[0] + seq![' '] + tv[1]);
        }
        Some(FtpEntry { name, size, modified: Some(modified), is_dir: dir, raw: Some(trimmed) })
    } else if toks.len() >= 9 {
        assert(!dos_shape(tv));
        let marker = toks[0].as_str();
        let dir = marker.unicode_len() > 0 && marker.get_char(0) == 'd';
        let size: Option<u64> = if dir {
            None
        } else {
            parse_u64(toks[4].as_str())
        };
        let name = normalize_line_name(join_tokens_from(&toks, 8));
        if name.as_str().is_empty() {
            return None;
        }
        let mut modified = toks[5].clone();
        modified.append(" ");
        modified.append(toks[6].as_str());
        modified.append(" ");
        modified.append(toks[7].as_str());
        proof {
            reveal_strlit(" ");
            assert(modified@ =~= tv[5] + seq![' '] + tv[6] + seq![' '] + tv[7]);
        }
        Some(FtpEntry { name, size, modified: Some(modified), is_dir: dir, raw: Some(trimmed) })
    } else if is_dot_name_exec(trimmed.as_str()) {
        None
    } else {
        let raw = trimmed.clone();
        Some(FtpEntry { name: trimmed, size: None, modified: None, is_dir: false, raw: Some(raw) })
    }
}

/// The views of a sequence of parsed entries.
pub open spec fn entry_views(es: Seq<FtpEntry>) -> Seq<EntryView> {
    es.map_values(|e: FtpEntry| e@)
}

/// What a whole listing parses to: the entries of the lines that yield one,
/// in order.
pub open spec fn parse_lines_spec(lines: Seq<Seq<char>>) -> Seq<EntryView>
    decreases lines.len(),
{
    if lines.len() == 0 {
        Seq::empty()
    } else {
        parse_lines_spec(lines.drop_last()) + match parse_line_spec(lines.last()) {
            Some(v) => seq![v],
            None => Seq::empty(),
        }
    }
}

/// Parse a whole raw listing, line by line.
pub fn parse_list_entries(lines: Vec<String>) -> (r: Vec<FtpEntry>)
    ensures
        entry_views(r@) == parse_lines_spec(seq_views(lines@)),
{
    let ghost lv = seq_views(lines@);
    let mut out: Vec<FtpEntry> = Vec::new();
    let mut i: usize = 0;
    proof {
        assert(entry_views(out@) =~= parse_lines_spec(lv.take(0)));
    }
    while i < lines.len()
        invariant
            i <= lines@.len(),
            lv == seq_views(lines@),
            lv.len() == lines@.len(),
            forall|k: int| 0 <= k < lv.len() ==> lv[k] == lines@[k]@,
            entry_views(out@) == parse_lines_spec(lv.take(i as int)),
        decreases lines@.len() - i,
    {
        let ghost pre = lv.take(i as int);
        proof {
            assert(lv.take(i + 1).drop_last() =~= pre);
            assert(lv.take(i + 1).last() == lv[i as int]);
        }
        match parse_list_entry(lines[i].as_str()) {
            Some(e) => {
                proof {
                    assert(entry_views(out@.push(e)) =~= entry_views(out@).push(e@));
                    assert(parse_lines_spec(pre) + seq![e@] =~= entry_views(out@).push(e@));
                }
                out.push(e);
            },
            None => {
                proof {
                    assert(parse_lines_spec(pre) + Seq::<EntryView>::empty() =~= parse_lines_spec(
                        pre,
                    ));
                }
            },
        }
        i = i + 1;
    }
    proof {
        assert(lv.take(lines@.len() as int) =~= lv);
    }
    out
}

/// DOS heuristic law: for a line whose tokens match the DOS shape, a parsed
/// entry is a directory exactly when the third token is the case-insensitive
/// `<DIR>` marker, and the line is dropped only for an empty resolved name.
pub proof fn lemma_dos_is_dir(line: Seq<char>)
    requires
        dos_shape(tokens_of(trim_spec(line))),
    ensures
        parse_line_spec(line) matches Some(v) ==> v.is_dir == is_dir_marker(
            tokens_of(trim_spec(line))[2],
        ),
        parse_line_spec(line) is None ==> normalize_name_spec(
            join_with_spaces(tokens_of(trim_spec(line)).skip(3)),
        ).len() == 0,
{
    let t = trim_spec(line);
    if t.len() == 0 {
        assert(tokens_of(t).len() == 0);
    }
}

/// Unix heuristic law: for a line of at least nine tokens that does not match
/// the DOS shape, a parsed entry is a directory exactly when the first token
/// starts with `d`, and the line is dropped only for an empty resolved name.
pub proof fn lemma_unix_is_dir(line: Seq<char>)
    requires
        !dos_shape(tokens_of(trim_spec(line))),
        tokens_of(trim_spec(line)).len() >= 9,
    ensures
        parse_line_spec(line) matches Some(v) ==> v.is_dir == (tokens_of(trim_spec(line))[0][0]
            == 'd'),
        parse_line_spec(line) is None ==> normalize_name_spec(
            join_with_spaces(tokens_of(trim_spec(line)).skip(8)),
        ).len() == 0,
{
    let t = trim_spec(line);
    if t.len() == 0 {
        assert(tokens_of(t).len() == 0);
    }
    crate::text::lemma_split_by_nonempty(t, crate::text::space_pred());
}

/// No parsed entry carries an empty or dot name, and a blank line yields no
/// entry.
pub proof fn lemma_no_empty_names(line: Seq<char>)
    ensures
        parse_line_spec(line) matches Some(v) ==> v.name.len() > 0 && !is_dot_name(v.name),
        trim_spec(line).len() == 0 ==> parse_line_spec(line) is None,
{
}

/// Every entry a whole listing parses to carries a nonempty name that is
/// neither `.` nor `..`.
pub proof fn lemma_parsed_names_nonempty(lines: Seq<Seq<char>>)
    ensures
        forall|i: int|
            0 <= i < parse_lines_spec(lines).len() ==> #[trigger] parse_lines_spec(
                lines,
            )[i].name.len() > 0 && !is_dot_name(parse_lines_spec(lines)[i].name),
    decreases lines.len(),
{
    if lines.len() > 0 {
        lemma_parsed_names_nonempty(lines.drop_last());
        lemma_no_empty_names(lines.last());
        let pre = parse_lines_spec(lines.drop_last());
        let whole = parse_lines_spec(lines);
        assert forall|i: int|
            0 <= i < whole.len() implies #[trigger] whole[i].name.len() > 0 && !is_dot_name(
            whole[i].name,
        ) by {
            if i < pre.len() {
                assert(whole[i] == pre[i]);
            } else {
                match parse_line_spec(lines.last()) {
                    Some(v) => {
                        assert(whole[i] == v);
                    },
                    None => {},
                }
            }
        }
    }
}

} // verus!
