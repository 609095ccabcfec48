//! Remote path handling: slash-joining of path segments and normalization of
//! the working directory string reported by the server.

use vstd::prelude::*;
use crate::text::{
    space_pred, trim_start_by, trim_end_by, trim_spec, lemma_trim_start_by_at,
    lemma_trim_end_by_at, is_space, is_space_exec,
};

verus! {

pub open spec fn ends_with_slash(s: Seq<char>) -> bool {
    s.len() > 0 && s.last() == '/'
}

/// `base` and `name` joined by exactly one `/` unless `base` already ends in
/// one: then they are simply concatenated.
pub open spec fn join_remote_spec(base: Seq<char>, name: Seq<char>) -> Seq<char> {
    if ends_with_slash(base) {
        base + name
    } else {
        base + seq!['/'] + name
    }
}

/// Join a remote directory and a child name without doubling the separator.
pub fn join_remote(base: &str, name: &str) -> (r: String)
    ensures
        r@ == join_remote_spec(base@, name@),
{
    let n = base.unicode_len();
    let mut r = base.to_owned();
    if n == 0 || base.get_char(n - 1) != '/' {
        r.append("/");
        proof {
            reveal_strlit("/");
            assert(base@ + "/"@ =~= base@ + seq!['/']);
        }
    }
    r.append(name);
    proof {
        if ends_with_slash(base@) {
            assert(r@ =~= base@ + name@);
        } else {
            assert(r@ =~= base@ + seq!['/'] + name@);
        }
    }
    r
}

/// Normalizing a single trailing slash onto the base does not change the
/// joined path: the join never doubles the separator.
pub proof fn lemma_join_remote_trailing_slash(base: Seq<char>, name: Seq<char>)
    requires
        !ends_with_slash(base),
    ensures
        join_remote_spec(base.push('/'), name) == join_remote_spec(base, name),
{
    assert(base.push('/') + name =~= base + seq!['/'] + name);
}

pub open spec fn quote_pred() -> spec_fn(char) -> bool {
    |c: char| c == '"'
}

/// `s` without surrounding double quotes.
pub open spec fn strip_quotes(s: Seq<char>) -> Seq<char> {
    trim_end_by(trim_start_by(s, quote_pred()), quote_pred())
}

/// The working directory the session tracks for a raw `PWD` reply: the reply
/// with surrounding whitespace and quotes removed, or `/` when nothing is
/// left.
pub open spec fn normalize_cwd_spec(s: Seq<char>) -> Seq<char> {
    let t = strip_quotes(trim_spec(s));
    if t.len() == 0 {
        "/"@
    } else {
        t
    }
}

/// Normalize a raw `PWD` reply to the directory string the session tracks.
pub fn normalize_cwd(cwd: String) -> (r: String)
    ensures
        r@ == normalize_cwd_spec(cwd@),
{
    let s = cwd.as_str();
    let n = s.unicode_len();
    let mut i: usize = 0;
    while i < n && is_space_exec(s.get_char(i))
        invariant
            0 <= i <= n,
            n == s@.len(),
            forall|k: int| 0 <= k < i ==> is_space(s@[k]),
        decreases n - i,
    {
        i = i + 1;
    }
    let mut j = n;
    while j > i && is_space_exec(s.get_char(j - 1))
        invariant
            i <= j <= n,
            n == s@.len(),
            forall|k: int| j <= k < n ==> is_space(s@[k]),
        decreases j,
    {
        j = j - 1;
    }
    let ghost t = s@.subrange(i as int, j as int);
    proof {
        let p = space_pred();
        assert(forall|c: char| #[trigger] p(c) == is_space(c));
        lemma_trim_start_by_at(s@, p, i as int);
        let sk = s@.skip(i as int);
        assert(forall|k: int| j - i <= k < sk.len() ==> is_space(#[trigger] sk[k]));
        lemma_trim_end_by_at(sk, p, j - i);
        assert(sk.take(j - i) =~= t);
    }
    let mut qi = i;
    while qi < j && s.get_char(qi) == '"'
        invariant
            i <= qi <= j <= n,
            n == s@.len(),
            forall|k: int| i <= k < qi ==> s@[k] == '"',
        decreases j - qi,
    {
        qi = qi + 1;
    }
    let mut qj = j;
    while qj > qi && s.get_char(qj - 1) == '"'
        invariant
            qi <= qj <= j <= n,
            n == s@.len(),
            forall|k: int| qj <= k < j ==> s@[k] == '"',
        decreases qj,
    {
        qj = qj - 1;
    }
    proof {
        let q = quote_pred();
        assert(forall|c: char| #[trigger] q(c) == (c == '"'));
        assert(forall|k: int| 0 <= k < qi - i ==> q(#[trigger] t[k]));
        lemma_trim_start_by_at(t, q, qi - i);
        let tk = t.skip(qi - i);
        assert(forall|k: int| qj - qi <= k < tk.len() ==> q(#[trigger] tk[k]));
        lemma_trim_end_by_at(tk, q, qj - qi);
        assert(tk.take(qj - qi) =~= s@.subrange(qi as int, qj as int));
    }
    if qi == qj {
        "/".to_owned()
    } else {
        s.substring_char(qi, qj).to_owned()
    }
}

/// A reply made of nothing but quotes (the empty reply included) normalizes
/// to the root directory.
pub proof fn lemma_normalize_cwd_all_quotes(s: Seq<char>)
    requires
        forall|i: int| 0 <= i < s.len() ==> s[i] == '"',
    ensures
        normalize_cwd_spec(s) == "/"@,
{
    let p = space_pred();
    let q = quote_pred();
    assert(forall|c: char| #[trigger] p(c) == is_space(c));
    assert(forall|c: char| #[trigger] q(c) == (c == '"'));
    lemma_trim_start_by_at(s, p, 0);
    assert(s.skip(0) =~= s);
    lemma_trim_end_by_at(s, p, s.len() as int);
    assert(s.take(s.len() as int) =~= s);
    assert(trim_spec(s) == s);
    lemma_trim_start_by_at(s, q, s.len() as int);
    assert(s.skip(s.len() as int) =~= Seq::<char>::empty());
    assert(strip_quotes(s).len() == 0);
}

} // verus!
