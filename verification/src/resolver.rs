//! Connection-candidate handling: resolved addresses are tried IPv4 first
//! (resolver order kept within each family), sequentially, and the first
//! success wins; when every candidate fails, the last error is surfaced.

use vstd::prelude::*;
use crate::error::CoreError;

verus! {

/// The indices of `flags` whose value is `want`, in order.
pub open spec fn indices_with(flags: Seq<bool>, want: bool) -> Seq<int>
    decreases flags.len(),
{
    if flags.len() == 0 {
        Seq::empty()
    } else {
        indices_with(flags.drop_last(), want) + if flags.last() == want {
            seq![flags.len() - 1]
        } else {
            Seq::empty()
        }
    }
}

/// The order candidates are tried in: every IPv4 index, then every other
/// index — a stable partition of `0..len` by address family.
pub open spec fn ordered_indices(is_v4: Seq<bool>) -> Seq<int> {
    indices_with(is_v4, true) + indices_with(is_v4, false)
}

pub open spec fn idx_views(v: Seq<usize>) -> Seq<int> {
    v.map_values(|u: usize| u as int)
}

/// Order the candidate addresses, given each one's family (`true` for IPv4):
/// the returned indices are the order to try them in.
pub fn order_candidates(is_v4: &Vec<bool>) -> (order: Vec<usize>)
    ensures
        idx_views(order@) == ordered_indices(is_v4@),
{
    let n = is_v4.len();
    let mut order: Vec<usize> = Vec::new();
    let mut i: usize = 0;
    proof {
        assert(idx_views(order@) =~= indices_with(is_v4@.take(0), true));
    }
    while i < n
        invariant
            i <= n,
            n == is_v4@.len(),
            idx_views(order@) == indices_with(is_v4@.take(i as int), true),
        decreases n - i,
    {
        proof {
            assert(is_v4@.take(i + 1).drop_last() =~= is_v4@.take(i as int));
            assert(is_v4@.take(i + 1).last() == is_v4@[i as int]);
        }
        if is_v4[i] {
            let ghost pre = order@;
            order.push(i);
            proof {
                assert(idx_views(order@) =~= idx_views(pre).push(i as int));
                assert(indices_with(is_v4@.take(i as int), true) + seq![i as int] =~= idx_views(
                    pre,
                ).push(i as int));
            }
        } else {
            proof {
                assert(indices_with(is_v4@.take(i as int), true) + Seq::<int>::empty()
                    =~= indices_with(is_v4@.take(i as int), true));
            }
        }
        i = i + 1;
    }
    proof {
        assert(is_v4@.take(n as int) =~= is_v4@);
    }
    let ghost v4_part = indices_with(is_v4@, true);
    let mut j: usize = 0;
    proof {
        assert(idx_views(order@) =~= v4_part + indices_with(is_v4@.take(0), false));
    }
    while j < n
        invariant
            j <= n,
            n == is_v4@.len(),
            v4_part == indices_with(is_v4@, true),
            idx_views(order@) == v4_part + indices_with(is_v4@.take(j as int), false),
        decreases n - j,
    {
        proof {
            assert(is_v4@.take(j + 1).drop_last() =~= is_v4@.take(j as int));
            assert(is_v4@.take(j + 1).last() == is_v4@[j as int]);
        }
        if !is_v4[j] {
            let ghost pre = order@;
            order.push(j);
            proof {
                assert(idx_views(order@) =~= idx_views(pre).push(j as int));
                assert(v4_part + (indices_with(is_v4@.take(j as int), false) + seq![j as int])
                    =~= idx_views(pre).push(j as int));
            }
        } else {
            proof {
                assert(indices_with(is_v4@.take(j as int), false) + Seq::<int>::empty()
                    =~= indices_with(is_v4@.take(j as int), false));
            }
        }
        j = j + 1;
    }
    proof {
        assert(is_v4@.take(n as int) =~= is_v4@);
    }
    order
}

/// Order the candidates, failing with the resolve error when resolution
/// produced none.
pub fn connection_plan(is_v4: &Vec<bool>, host: &str, port: u16) -> (r: Result<
    Vec<usize>,
    CoreError,
>)
    ensures
        match r {
            Ok(order) => is_v4@.len() > 0 && idx_views(order@) == ordered_indices(is_v4@),
            Err(e) => is_v4@.len() == 0 && (e matches CoreError::ResolveFailed {
                host: h,
                port: p,
            } && h@ == host@ && p == port),
        },
{
    if is_v4.len() == 0 {
        Err(CoreError::ResolveFailed { host: host.to_owned(), port })
    } else {
        Ok(order_candidates(is_v4))
    }
}

/// Decide a connection round from the per-candidate attempt results, in the
/// order tried: `None` stands for a successful connect (trying stops there),
/// `Some(message)` for that candidate's failure. The first success wins;
/// when every candidate failed the last error is returned, and when there
/// was no candidate at all, a generic failure.
pub fn connect_outcome(attempts: &Vec<Option<String>>) -> (r: Result<usize, CoreError>)
    ensures
        match r {
            Ok(i) => 0 <= i < attempts@.len() && attempts@[i as int] is None && (forall|k: int|
                0 <= k < i ==> attempts@[k] is Some),
            Err(e) => (forall|k: int| 0 <= k < attempts@.len() ==> attempts@[k] is Some) && (
            e matches CoreError::ConnectFailed { message } && if attempts@.len() > 0 {
                message@ == attempts@.last()->Some_0@
            } else {
                message@ == "Failed to connect"@
            }),
        },
{
    let n = attempts.len();
    let mut i: usize = 0;
    while i < n
        invariant
            i <= n,
            n == attempts@.len(),
            forall|k: int| 0 <= k < i ==> attempts@[k] is Some,
        decreases n - i,
    {
        match &attempts[i] {
            None => {
                return Ok(i);
            },
            Some(_) => {},
        }
        i = i + 1;
    }
    if n == 0 {
        Err(CoreError::ConnectFailed { message: "Failed to connect".to_owned() })
    } else {
        match &attempts[n - 1] {
            Some(m) => Err(CoreError::ConnectFailed { message: m.clone() }),
            None => {
                proof {
                    assert(attempts@[n - 1] is Some);
                }
                unreached()
            },
        }
    }
}

} // verus!
