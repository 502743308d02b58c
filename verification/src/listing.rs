//! Listing stored surfaces: which files hold surfaces, how many to list, and
//! in which order.
use vstd::prelude::*;

use crate::surface::SurfaceSummary;
use crate::text::{chars_of, lex_lt, str_lt, lemma_lex_transitive, lemma_lex_irreflexive,
    lemma_lex_asymmetric};

verus! {

/// How many surfaces a list call returns: the requested number (20 when none
/// is given), at most 100.
pub open spec fn list_limit_spec(limit: Option<u64>) -> nat {
    let n = match limit {
        Some(v) => v as nat,
        None => 20,
    };
    if n < 100 {
        n
    } else {
        100
    }
}

/// The number of surfaces to list for a requested limit.
pub fn list_limit(limit: Option<u64>) -> (res: usize)
    ensures
        res == list_limit_spec(limit),
        res <= 100,
{
    let n: u64 = match limit {
        Some(v) => v,
        None => 20,
    };
    if n < 100 {
        n as usize
    } else {
        100
    }
}

/// A list call returns the requested number of surfaces, but never more than
/// 100: the limit is at most 100 and at most the request, and it is the
/// request itself unless it is cut to 100. Without a request it is 20.
pub proof fn lemma_list_limit(limit: Option<u64>)
    ensures
        list_limit_spec(limit) <= 100,
        match limit {
            Some(n) => list_limit_spec(limit) <= n && (list_limit_spec(limit) == n || list_limit_spec(limit)
                == 100),
            None => list_limit_spec(limit) == 20,
        },
{
}

/// Index of the last `.` in `s`, if any.
pub open spec fn last_dot(s: Seq<char>) -> Option<int>
    decreases s.len(),
{
    if s.len() == 0 {
        None
    } else if s.last() == '.' {
        Some(s.len() - 1)
    } else {
        last_dot(s.drop_last())
    }
}

/// `Path::extension` of a file name: the text after the last `.`, unless
/// there is no `.` or the only one starts the name.
pub open spec fn extension_spec(file_name: Seq<char>) -> Option<Seq<char>> {
    match last_dot(file_name) {
        Some(i) => if i > 0 {
            Some(file_name.skip(i + 1))
        } else {
            None
        },
        None => None,
    }
}

/// Whether a file name has the extension `json`, which marks a stored surface.
pub fn has_json_extension(file_name: &str) -> (res: bool)
    ensures
        res == (extension_spec(file_name@) == Some("json"@)),
{
    let cs = chars_of(file_name);
    let mut j = cs.len();
    assert(cs@.take(j as int) =~= cs@);
    while j > 0 && cs[j - 1] != '.'
        invariant
            cs@ == file_name@,
            j <= cs@.len(),
            last_dot(cs@) == last_dot(cs@.take(j as int)),
        decreases j,
    {
        assert(cs@.take(j as int).drop_last() =~= cs@.take(j - 1));
        j = j - 1;
    }
    proof {
        reveal_strlit("json");
        if j == 0 {
            assert(cs@.take(0) =~= Seq::<char>::empty());
        } else {
            assert(cs@.take(j as int).last() == cs@[j - 1]);
        }
    }
    if j <= 1 {
        return false;
    }
    let n = cs.len();
    let r = n - j == 4 && cs[j] == 'j' && cs[j + 1] == 's' && cs[j + 2] == 'o' && cs[j + 3] == 'n';
    proof {
        let ext = cs@.skip(j as int);
        if r {
            assert(ext =~= "json"@);
        } else if ext.len() == 4 {
            assert(ext[0] == cs@[j as int]);
            assert(ext[1] == cs@[j + 1]);
            assert(ext[2] == cs@[j + 2]);
            assert(ext[3] == cs@[j + 3]);
        }
    }
    r
}

// ---------------------------------------------------------------------------
// Order of a listing
// ---------------------------------------------------------------------------

/// The update times of the summaries.
pub open spec fn update_keys(s: Seq<SurfaceSummary>) -> Seq<Seq<char>> {
    s.map_values(|x: SurfaceSummary| x.updated_at@)
}

/// In a listing, entry `i` comes before entry `j` when it was updated later
/// (by string order of the update times), or at the same time and it came
/// first in the input.
pub open spec fn listed_before(keys: Seq<Seq<char>>, i: int, j: int) -> bool {
    lex_lt(keys[j], keys[i]) || (keys[i] == keys[j] && i < j)
}

/// `order` lists every index of `keys` once, most recently updated first.
pub open spec fn is_listing_order(keys: Seq<Seq<char>>, order: Seq<int>) -> bool {
    &&& order.len() == keys.len()
    &&& forall|k: int| 0 <= k < order.len() ==> 0 <= #[trigger] order[k] < keys.len()
    &&& forall|a: int, b: int|
        0 <= a < b < order.len() ==> listed_before(keys, #[trigger] order[a], #[trigger] order[b])
}

/// `out` is `input` reordered most recently updated first, keeping the input
/// order among equal update times.
pub open spec fn is_recent_first(input: Seq<SurfaceSummary>, out: Seq<SurfaceSummary>) -> bool {
    exists|order: Seq<int>|
        #![trigger is_listing_order(update_keys(input), order)]
        is_listing_order(update_keys(input), order) && out.len() == order.len() && forall|k: int|
            0 <= k < out.len() ==> #[trigger] out[k] == input[order[k]]
}

proof fn lemma_le_transitive(a: Seq<char>, b: Seq<char>, c: Seq<char>)
    requires
        lex_lt(a, b) || a == b,
        lex_lt(b, c) || b == c,
    ensures
        lex_lt(a, c) || a == c,
{
    if lex_lt(a, b) && lex_lt(b, c) {
        lemma_lex_transitive(a, b, c);
    }
}

/// The most recently updated surfaces first (ties in input order), at most
/// `limit` of them.
pub fn list_recent(summaries: Vec<SurfaceSummary>, limit: usize) -> (res: Vec<SurfaceSummary>)
    ensures
        exists|full: Seq<SurfaceSummary>|
            is_recent_first(summaries@, full) && res@ == full.take(
                if limit < summaries@.len() {
                    limit as int
                } else {
                    summaries@.len() as int
                },
            ),
{
    let ghost input = summaries@;
    let ghost keys = update_keys(input);
    let ghost n = input.len() as int;
    let mut rest = summaries;
    let mut out: Vec<SurfaceSummary> = Vec::new();
    let ghost mut order: Seq<int> = seq![];
    while rest.len() > 0
        invariant
            n == input.len(),
            keys == update_keys(input),
            rest@ == input.take(rest@.len() as int),
            rest@.len() <= n,
            out@.len() == order.len(),
            out@.len() + rest@.len() == n,
            forall|k: int|
                0 <= k < order.len() ==> rest@.len() <= #[trigger] order[k] < n && out@[k]
                    == input[order[k]],
            forall|a: int, b: int|
                0 <= a < b < order.len() ==> listed_before(
                    keys,
                    #[trigger] order[a],
                    #[trigger] order[b],
                ),
        decreases rest@.len(),
    {
        let x = rest.pop().unwrap();
        let ghost i = rest@.len() as int;
        assert(input.take(i + 1).drop_last() =~= input.take(i));
        assert(x == input[i]);
        assert(keys[i] == x.updated_at@);
        // first position whose entry was not updated later than `x`
        let mut p: usize = 0;
        while p < out.len() && str_lt(x.updated_at.as_str(), out[p].updated_at.as_str())
            invariant
                p <= out@.len(),
                forall|k: int| 0 <= k < p ==> lex_lt(x.updated_at@, (#[trigger] out@[k]).updated_at@),
            decreases out@.len() - p,
        {
            p = p + 1;
        }
        let ghost old_out = out@;
        let ghost old_order = order;
        proof {
            assert forall|k: int| 0 <= k < old_order.len() implies keys[#[trigger] old_order[k]]
                == old_out[k].updated_at@ by {}
            // everything from `p` on was updated no later than `x`
            if p < old_out.len() {
                assert forall|k: int| p <= k < old_out.len() implies lex_lt(
                    (#[trigger] old_out[k]).updated_at@,
                    x.updated_at@,
                ) || old_out[k].updated_at@ == x.updated_at@ by {
                    let kp = keys[old_order[p as int]];
                    let kk = keys[old_order[k]];
                    assert(kp == old_out[p as int].updated_at@);
                    assert(kk == old_out[k].updated_at@);
                    if k > p {
                        assert(listed_before(keys, old_order[p as int], old_order[k]));
                    }
                    crate::text::lemma_lex_total(x.updated_at@, old_out[p as int].updated_at@);
                    lemma_le_transitive(kk, kp, x.updated_at@);
                }
            }
            order = old_order.insert(p as int, i);
        }
        out.insert(p, x);
        proof {
            assert forall|k: int| 0 <= k < order.len() implies rest@.len() <= #[trigger] order[k]
                < n && out@[k] == input[order[k]] by {
                if k < p {
                    assert(order[k] == old_order[k]);
                } else if k > p {
                    assert(order[k] == old_order[k - 1]);
                }
            }
            assert forall|a: int, b: int| 0 <= a < b < order.len() implies listed_before(
                keys,
                #[trigger] order[a],
                #[trigger] order[b],
            ) by {
                if a < p && b < p {
                    assert(order[a] == old_order[a] && order[b] == old_order[b]);
                } else if a < p && b == p {
                    assert(order[a] == old_order[a]);
                    assert(lex_lt(x.updated_at@, old_out[a].updated_at@));
                } else if a < p && b > p {
                    assert(order[a] == old_order[a] && order[b] == old_order[b - 1]);
                } else if a == p {
                    assert(order[b] == old_order[b - 1]);
                    assert(keys[old_order[b - 1]] == old_out[b - 1].updated_at@);
                } else {
                    assert(order[a] == old_order[a - 1] && order[b] == old_order[b - 1]);
                }
            }
        }
    }
    proof {
        assert(is_listing_order(keys, order));
        assert(is_recent_first(input, out@));
    }
    let ghost full = out@;
    let m = if limit < out.len() {
        limit
    } else {
        out.len()
    };
    out.truncate(m);
    assert(out@ =~= full.take(m as int));
    out
}

/// A listing has each surface's update time no earlier than the next one's,
/// so the first entry is the most recently updated surface.
pub proof fn lemma_listing_newest_first(input: Seq<SurfaceSummary>, out: Seq<SurfaceSummary>, a: int, b: int)
    requires
        is_recent_first(input, out),
        0 <= a < b < out.len(),
    ensures
        !lex_lt(out[a].updated_at@, out[b].updated_at@),
{
    let order = choose|order: Seq<int>|
        #![trigger is_listing_order(update_keys(input), order)]
        is_listing_order(update_keys(input), order) && out.len() == order.len() && forall|k: int|
            0 <= k < out.len() ==> #[trigger] out[k] == input[order[k]];
    let keys = update_keys(input);
    assert(listed_before(keys, order[a], order[b]));
    assert(out[a] == input[order[a]]);
    assert(out[b] == input[order[b]]);
    assert(keys[order[a]] == out[a].updated_at@);
    assert(keys[order[b]] == out[b].updated_at@);
    if lex_lt(keys[order[b]], keys[order[a]]) {
        lemma_lex_asymmetric(keys[order[b]], keys[order[a]]);
    } else {
        lemma_lex_irreflexive(keys[order[a]]);
    }
}

} // verus!
