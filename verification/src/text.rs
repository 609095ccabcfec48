//! Character-level text utilities shared by the parsing modules: whitespace
//! classification, trimming, splitting a line into tokens, and joining tokens
//! back together with single spaces.

use vstd::prelude::*;

verus! {

/// Unicode whitespace, the separator set of `str::trim` and
/// `str::split_whitespace`: the control whitespace, the space, NEL, NBSP,
/// the Ogham space mark, the typographic spaces, the line and paragraph
/// separators, the narrow and medium mathematical spaces, and the
/// ideographic space.
pub open spec fn is_space(c: char) -> bool {
    let u = c as u32;
    (9 <= u <= 13) || u == 32 || u == 0x85 || u == 0xA0 || u == 0x1680 || (0x2000 <= u <= 0x200A)
        || u == 0x2028 || u == 0x2029 || u == 0x202F || u == 0x205F || u == 0x3000
}

/// The whitespace predicate as a first-class spec function, for the generic
/// splitting machinery below.
pub open spec fn space_pred() -> spec_fn(char) -> bool {
    |c: char| is_space(c)
}

pub fn is_space_exec(c: char) -> (r: bool)
    ensures
        r == is_space(c),
{
    let u = c as u32;
    (9 <= u && u <= 13) || u == 32 || u == 0x85 || u == 0xA0 || u == 0x1680 || (0x2000 <= u && u
        <= 0x200A) || u == 0x2028 || u == 0x2029 || u == 0x202F || u == 0x205F || u == 0x3000
}

/// `s` without its leading characters satisfying `p`.
pub open spec fn trim_start_by(s: Seq<char>, p: spec_fn(char) -> bool) -> Seq<char>
    decreases s.len(),
{
    if s.len() == 0 {
        s
    } else if p(s[0]) {
        trim_start_by(s.drop_first(), p)
    } else {
        s
    }
}

/// `s` without its trailing characters satisfying `p`.
pub open spec fn trim_end_by(s: Seq<char>, p: spec_fn(char) -> bool) -> Seq<char>
    decreases s.len(),
{
    if s.len() == 0 {
        s
    } else if p(s.last()) {
        trim_end_by(s.drop_last(), p)
    } else {
        s
    }
}

/// `s` without leading and trailing whitespace.
pub open spec fn trim_spec(s: Seq<char>) -> Seq<char> {
    trim_end_by(trim_start_by(s, space_pred()), space_pred())
}

pub proof fn lemma_trim_start_by_at(s: Seq<char>, p: spec_fn(char) -> bool, i: int)
    requires
        0 <= i <= s.len(),
        forall|k: int| 0 <= k < i ==> p(s[k]),
        i < s.len() ==> !p(s[i]),
    ensures
        trim_start_by(s, p) == s.skip(i),
    decreases i,
{
    if i == 0 {
        assert(s.skip(0) =~= s);
    } else {
        lemma_trim_start_by_at(s.drop_first(), p, i - 1);
        assert(s.drop_first().skip(i - 1) =~= s.skip(i));
    }
}

pub proof fn lemma_trim_end_by_at(s: Seq<char>, p: spec_fn(char) -> bool, j: int)
    requires
        0 <= j <= s.len(),
        forall|k: int| j <= k < s.len() ==> p(s[k]),
        j > 0 ==> !p(s[j - 1]),
    ensures
        trim_end_by(s, p) == s.take(j),
    decreases s.len() - j,
{
    if j == s.len() {
        assert(s.take(j) =~= s);
    } else {
        lemma_trim_end_by_at(s.drop_last(), p, j);
        assert(s.drop_last().take(j) =~= s.take(j));
    }
}

/// Length of the maximal leading run of characters that do not satisfy `p`.
pub open spec fn run_len(s: Seq<char>, p: spec_fn(char) -> bool) -> int
    decreases s.len(),
{
    if s.len() == 0 || p(s[0]) {
        0
    } else {
        1 + run_len(s.drop_first(), p)
    }
}

pub proof fn lemma_run_len_bounds(s: Seq<char>, p: spec_fn(char) -> bool)
    ensures
        0 <= run_len(s, p) <= s.len(),
        s.len() > 0 && !p(s[0]) ==> run_len(s, p) >= 1,
    decreases s.len(),
{
    if s.len() > 0 && !p(s[0]) {
        lemma_run_len_bounds(s.drop_first(), p);
    }
}

/// `run_len` is exactly the position of the first separator.
pub proof fn lemma_run_len_at(s: Seq<char>, p: spec_fn(char) -> bool, k: int)
    requires
        0 <= k <= s.len(),
        forall|x: int| 0 <= x < k ==> !p(s[x]),
        k < s.len() ==> p(s[k]),
    ensures
        run_len(s, p) == k,
    decreases k,
{
    if k == 0 {
    } else {
        lemma_run_len_at(s.drop_first(), p, k - 1);
    }
}

/// The maximal runs of non-separator characters of `s`, in order: the result
/// of splitting `s` on `p` and dropping the empty pieces.
pub open spec fn split_by(s: Seq<char>, p: spec_fn(char) -> bool) -> Seq<Seq<char>>
    decreases s.len(),
    via split_by_dec
{
    if s.len() == 0 {
        Seq::empty()
    } else if p(s[0]) {
        split_by(s.skip(1), p)
    } else {
        seq![s.take(run_len(s, p))] + split_by(s.skip(run_len(s, p)), p)
    }
}

#[via_fn]
proof fn split_by_dec(s: Seq<char>, p: spec_fn(char) -> bool) {
    lemma_run_len_bounds(s, p);
}

/// Every piece produced by `split_by` is nonempty.
pub proof fn lemma_split_by_nonempty(s: Seq<char>, p: spec_fn(char) -> bool)
    ensures
        forall|i: int| 0 <= i < split_by(s, p).len() ==> #[trigger] split_by(s, p)[i].len() > 0,
    decreases s.len(),
{
    lemma_run_len_bounds(s, p);
    if s.len() == 0 {
        assert(split_by(s, p) =~= Seq::<Seq<char>>::empty());
    } else if p(s[0]) {
        lemma_split_by_nonempty(s.skip(1), p);
        assert(split_by(s, p) == split_by(s.skip(1), p));
    } else {
        let rest = split_by(s.skip(run_len(s, p)), p);
        lemma_split_by_nonempty(s.skip(run_len(s, p)), p);
        assert forall|i: int| 0 <= i < split_by(s, p).len() implies #[trigger] split_by(s, p)[i].len()
            > 0 by {
            if i == 0 {
                assert(split_by(s, p)[0] =~= s.take(run_len(s, p)));
            } else {
                assert(split_by(s, p)[i] == rest[i - 1]);
            }
        }
    }
}

/// The whitespace-separated tokens of `s`.
pub open spec fn tokens_of(s: Seq<char>) -> Seq<Seq<char>> {
    split_by(s, space_pred())
}

/// The views of a sequence of owned strings.
pub open spec fn seq_views(v: Seq<String>) -> Seq<Seq<char>> {
    v.map_values(|t: String| t@)
}

pub proof fn lemma_seq_views_push(v: Seq<String>, t: String)
    ensures
        seq_views(v.push(t)) =~= seq_views(v).push(t@),
{
}

/// The tokens of `ts` joined with single spaces.
pub open spec fn join_with_spaces(ts: Seq<Seq<char>>) -> Seq<char>
    decreases ts.len(),
{
    if ts.len() == 0 {
        Seq::empty()
    } else if ts.len() == 1 {
        ts[0]
    } else {
        ts[0] + seq![' '] + join_with_spaces(ts.drop_first())
    }
}

pub proof fn lemma_join_with_spaces_push(ts: Seq<Seq<char>>, t: Seq<char>)
    ensures
        ts.len() == 0 ==> join_with_spaces(ts.push(t)) == t,
        ts.len() > 0 ==> join_with_spaces(ts.push(t)) =~= join_with_spaces(ts) + seq![' '] + t,
    decreases ts.len(),
{
    if ts.len() == 0 {
        assert(ts.push(t)[0] == t);
    } else {
        lemma_join_with_spaces_push(ts.drop_first(), t);
        assert(ts.push(t).drop_first() =~= ts.drop_first().push(t));
        if ts.len() == 1 {
            assert(join_with_spaces(ts.drop_first().push(t)) == t);
            assert(join_with_spaces(ts) == ts[0]);
            assert(join_with_spaces(ts.push(t)) =~= ts[0] + seq![' '] + t);
        } else {
            assert(join_with_spaces(ts.push(t)) == ts[0] + seq![' '] + join_with_spaces(
                ts.drop_first().push(t),
            ));
            assert(ts[0] + seq![' '] + (join_with_spaces(ts.drop_first()) + seq![' '] + t) =~= (
            ts[0] + seq![' '] + join_with_spaces(ts.drop_first())) + seq![' '] + t);
        }
    }
}

/// Whether `c` occurs in `s`.
pub open spec fn contains_char(s: Seq<char>, c: char) -> bool {
    exists|i: int| 0 <= i < s.len() && s[i] == c
}

pub fn str_contains_char(s: &str, c: char) -> (r: bool)
    ensures
        r == contains_char(s@, c),
{
    let n = s.unicode_len();
    let mut i: usize = 0;
    while i < n
        invariant
            i <= n,
            n == s@.len(),
            forall|k: int| 0 <= k < i ==> s@[k] != c,
        decreases n - i,
    {
        if s.get_char(i) == c {
            return true;
        }
        i = i + 1;
    }
    false
}

/// ASCII decimal digits.
pub open spec fn is_digit(c: char) -> bool {
    48 <= c as u32 <= 57
}

pub open spec fn digit_val(c: char) -> int {
    c as u32 - 48
}

pub open spec fn all_digits(s: Seq<char>) -> bool {
    forall|i: int| 0 <= i < s.len() ==> is_digit(s[i])
}

/// The value of a decimal digit string, most significant digit first.
pub open spec fn digits_value(s: Seq<char>) -> int
    decreases s.len(),
{
    if s.len() == 0 {
        0
    } else {
        digits_value(s.drop_last()) * 10 + digit_val(s.last())
    }
}

pub proof fn lemma_digits_value_nonneg(s: Seq<char>)
    requires
        all_digits(s),
    ensures
        digits_value(s) >= 0,
    decreases s.len(),
{
    if s.len() > 0 {
        lemma_digits_value_nonneg(s.drop_last());
        let v = digits_value(s.drop_last());
        assert(v * 10 >= v) by (nonlinear_arith)
            requires
                v >= 0,
        ;
    }
}

/// The digits of an unsigned decimal token: everything after an optional
/// leading `+`.
pub open spec fn unsigned_body(s: Seq<char>) -> Seq<char> {
    if s.len() > 0 && s[0] == '+' {
        s.skip(1)
    } else {
        s
    }
}

/// What `str::parse` into an unsigned integer accepts: an optional leading
/// `+`, then one or more decimal digits whose value fits; here for `u64`.
pub open spec fn parse_u64_spec(s: Seq<char>) -> Option<u64> {
    let body = unsigned_body(s);
    if body.len() == 0 || !all_digits(body) {
        None
    } else if digits_value(body) > u64::MAX {
        None
    } else {
        Some(digits_value(body) as u64)
    }
}

/// Parse a decimal `u64` token, `None` on a malformed token or overflow.
pub fn parse_u64(t: &str) -> (r: Option<u64>)
    ensures
        r == parse_u64_spec(t@),
{
    let n = t.unicode_len();
    let start: usize = if n > 0 && t.get_char(0) == '+' {
        1
    } else {
        0
    };
    let ghost body = unsigned_body(t@);
    proof {
        assert(body.len() == n - start);
        assert(forall|k: int| 0 <= k < body.len() ==> body[k] == t@[k + start]);
    }
    if start == n {
        return None;
    }
    let mut acc: u64 = 0;
    let mut overflow = false;
    let mut i: usize = start;
    while i < n
        invariant
            start <= i <= n,
            n == t@.len(),
            body == unsigned_body(t@),
            body.len() == n - start,
            forall|k: int| 0 <= k < body.len() ==> body[k] == t@[k + start],
            all_digits(body.take(i - start)),
            !overflow ==> acc == digits_value(body.take(i - start)),
            overflow ==> digits_value(body.take(i - start)) > u64::MAX,
        decreases n - i,
    {
        let c = t.get_char(i);
        let u = c as u32;
        if !(48 <= u && u <= 57) {
            assert(!is_digit(body[i - start]));
            assert(!all_digits(body));
            return None;
        }
        let d = (u - 48) as u64;
        let ghost pre = body.take(i - start);
        let ghost post = body.take(i + 1 - start);
        proof {
            assert(post.drop_last() =~= pre);
            assert(post.last() == body[i - start]);
            assert(digits_value(post) == digits_value(pre) * 10 + d);
            assert(all_digits(post));
        }
        if !overflow {
            match acc.checked_mul(10) {
                Some(m) => {
                    match m.checked_add(d) {
                        Some(v) => {
                            acc = v;
                        },
                        None => {
                            overflow = true;
                        },
                    }
                },
                None => {
                    proof {
                        let v = digits_value(pre);
                        assert(digits_value(post) >= v * 10);
                    }
                    overflow = true;
                },
            }
        } else {
            proof {
                let v = digits_value(pre);
                lemma_digits_value_nonneg(pre);
                assert(v * 10 >= v) by (nonlinear_arith)
                    requires
                        v >= 0,
                ;
            }
        }
        i = i + 1;
    }
    proof {
        assert(body.take(n - start) =~= body);
    }
    if overflow {
        None
    } else {
        Some(acc)
    }
}

/// The tokens of `toks` from position `k` on, joined with single spaces.
pub fn join_tokens_from(toks: &Vec<String>, k: usize) -> (r: String)
    requires
        k <= toks@.len(),
    ensures
        r@ == join_with_spaces(seq_views(toks@).skip(k as int)),
{
    let ghost all = seq_views(toks@);
    let mut r = String::new();
    let mut m = k;
    proof {
        assert(all.subrange(k as int, k as int) =~= Seq::<Seq<char>>::empty());
    }
    while m < toks.len()
        invariant
            k <= m <= toks@.len(),
            all == seq_views(toks@),
            all.len() == toks@.len(),
            forall|x: int| 0 <= x < all.len() ==> all[x] == toks@[x]@,
            r@ == join_with_spaces(all.subrange(k as int, m as int)),
        decreases toks@.len() - m,
    {
        let ghost pre = all.subrange(k as int, m as int);
        if m > k {
            r.append(" ");
        }
        r.append(toks[m].as_str());
        proof {
            reveal_strlit(" ");
            lemma_join_with_spaces_push(pre, all[m as int]);
            assert(pre.push(all[m as int]) =~= all.subrange(k as int, m as int + 1));
            if m > k {
                assert(r@ =~= join_with_spaces(pre) + seq![' '] + all[m as int]);
            } else {
                assert(r@ =~= all[m as int]);
            }
        }
        m = m + 1;
    }
    proof {
        assert(all.subrange(k as int, toks@.len() as int) =~= all.skip(k as int));
    }
    r
}

/// `s` with surrounding whitespace removed.
pub fn trim(s: &str) -> (r: String)
    ensures
        r@ == trim_spec(s@),
{
    let n = s.unicode_len();
    let mut i: usize = 0;
    while i < n && is_space_exec(s.get_char(i))
        invariant
            0 <= i <= n,
            n == s@.len(),
            forall|k: int| 0 <= k < i ==> is_space(s@[k]),
        decreases n - i,
    {
        i = i + 1;
    }
    let mut j = n;
    while j > i && is_space_exec(s.get_char(j - 1))
        invariant
            i <= j <= n,
            n == s@.len(),
            forall|k: int| j <= k < n ==> is_space(s@[k]),
        decreases j,
    {
        j = j - 1;
    }
    proof {
        let p = space_pred();
        assert(forall|c: char| #[trigger] p(c) == is_space(c));
        lemma_trim_start_by_at(s@, p, i as int);
        let t = s@.skip(i as int);
        assert(forall|k: int| j - i <= k < t.len() ==> is_space(#[trigger] t[k]));
        lemma_trim_end_by_at(t, p, j - i);
        assert(t.take(j - i) =~= s@.subrange(i as int, j as int));
    }
    s.substring_char(i, j).to_owned()
}

/// The whitespace-separated tokens of `s`, as owned strings.
pub fn tokenize(s: &str) -> (r: Vec<String>)
    ensures
        seq_views(r@) == tokens_of(s@),
{
    let n = s.unicode_len();
    let mut toks: Vec<String> = Vec::new();
    let mut i: usize = 0;
    proof {
        assert(s@.skip(0) =~= s@);
        assert(seq_views(toks@) + tokens_of(s@) =~= tokens_of(s@));
    }
    while i < n
        invariant
            i <= n,
            n == s@.len(),
            tokens_of(s@) == seq_views(toks@) + split_by(s@.skip(i as int), space_pred()),
        decreases n - i,
    {
        let ghost p = space_pred();
        let c = s.get_char(i);
        if is_space_exec(c) {
            proof {
                let t = s@.skip(i as int);
                assert(p(t[0]) == is_space(c));
                assert(t.skip(1) =~= s@.skip(i as int + 1));
            }
            i = i + 1;
        } else {
            let mut j = i + 1;
            while j < n && !is_space_exec(s.get_char(j))
                invariant
                    i < j <= n,
                    n == s@.len(),
                    forall|x: int| i <= x < j ==> !is_space(s@[x]),
                decreases n - j,
            {
                j = j + 1;
            }
            proof {
                let t = s@.skip(i as int);
                assert(forall|x: int| 0 <= x < j - i ==> !p(#[trigger] t[x]));
                assert(j < n ==> p(t[j - i]) == is_space(s@[j as int]));
                lemma_run_len_at(t, p, j - i);
                assert(split_by(t, p) == seq![t.take(j - i)] + split_by(t.skip(j - i), p));
                assert(t.take(j - i) =~= s@.subrange(i as int, j as int));
                assert(t.skip(j - i) =~= s@.skip(j as int));
            }
            let tok = s.substring_char(i, j).to_owned();
            proof {
                lemma_seq_views_push(toks@, tok);
                assert(seq_views(toks@.push(tok)) + split_by(s@.skip(j as int), p) =~= seq_views(
                    toks@,
                ) + (seq![s@.subrange(i as int, j as int)] + split_by(s@.skip(j as int), p)));
            }
            toks.push(tok);
            i = j;
        }
    }
    proof {
        assert(s@.skip(n as int) =~= Seq::<char>::empty());
        assert(seq_views(toks@) + split_by(Seq::<char>::empty(), space_pred()) =~= seq_views(
            toks@,
        ));
    }
    toks
}

} // verus!
