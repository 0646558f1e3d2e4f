//! A string-keyed association list with unique keys: the in-memory
//! form of the per-job command map and the job-health map.

use vstd::prelude::*;
use vstd::pervasive::VecAdditionalExecFns;
use crate::strings::str_eq;

verus! {

/// The keys of the list are pairwise distinct.
pub open spec fn kv_unique(m: Seq<(Seq<char>, Seq<char>)>) -> bool {
    forall|j1: int, j2: int|
        0 <= j1 < j2 < m.len() ==> (#[trigger] m[j1]).0 != (#[trigger] m[j2]).0
}

/// Whether some entry carries the key.
pub open spec fn kv_has(m: Seq<(Seq<char>, Seq<char>)>, k: Seq<char>) -> bool {
    exists|j: int| 0 <= j < m.len() && (#[trigger] m[j]).0 == k
}

/// The index of the entry carrying the key.
pub open spec fn kv_index(m: Seq<(Seq<char>, Seq<char>)>, k: Seq<char>) -> int {
    choose|j: int| 0 <= j < m.len() && (#[trigger] m[j]).0 == k
}

/// The value stored under the key, if any.
pub open spec fn kv_get(m: Seq<(Seq<char>, Seq<char>)>, k: Seq<char>) -> Option<Seq<char>> {
    if kv_has(m, k) {
        Option::Some(m[kv_index(m, k)].1)
    } else {
        Option::None
    }
}

/// Finds the entry holding key `k`.
pub fn kv_find(m: &Vec<(String, String)>, k: &str) -> (r: Option<usize>)
    ensures
        (r is Some) == kv_has(m.deep_view(), k@),
        r is Some ==> r->Some_0 < m@.len() && m.deep_view()[r->Some_0 as int].0 == k@,
{
    let mut i: usize = 0;
    while i < m.len()
        invariant
            i <= m.len(),
            forall|j: int| 0 <= j < i ==> (#[trigger] m.deep_view()[j]).0 != k@,
        decreases m.len() - i,
    {
        if str_eq(m[i].0.as_str(), k) {
            assert(m.deep_view()[i as int].0 == k@);
            return Option::Some(i);
        }
        i += 1;
    }
    Option::None
}

/// Reads the value stored under `k`, cloned out.
pub fn kv_lookup(m: &Vec<(String, String)>, k: &str) -> (r: Option<String>)
    requires
        kv_unique(m.deep_view()),
    ensures
        r.deep_view() == kv_get(m.deep_view(), k@),
{
    match kv_find(m, k) {
        Option::Some(i) => {
            let v = m[i].1.clone();
            proof {
                let dv = m.deep_view();
                let j = kv_index(dv, k@);
                assert(dv[j].0 == k@);
                assert(dv[i as int].0 == k@);
                if j != i as int {
                    assert(false);
                }
            }
            Option::Some(v)
        },
        Option::None => Option::None,
    }
}

/// Sets `k` to `v`: replaces the entry carrying `k`, or appends one.
pub fn kv_set(m: &mut Vec<(String, String)>, k: String, v: String)
    requires
        kv_unique(old(m).deep_view()),
    ensures
        kv_unique(final(m).deep_view()),
        kv_get(final(m).deep_view(), k@) == Option::Some(v@),
        forall|k2: Seq<char>|
            k2 != k@ ==> kv_get(final(m).deep_view(), k2) == kv_get(old(m).deep_view(), k2),
{
    let ghost pre = m.deep_view();
    let found = kv_find(m, k.as_str());
    match found {
        Option::Some(i) => {
            let ghost kview = k@;
            let ghost vview = v@;
            m.set(i, (k, v));
            proof {
                let post = m.deep_view();
                assert(post =~= pre.update(i as int, (kview, vview)));
                assert forall|j1: int, j2: int| 0 <= j1 < j2 < post.len() implies (
                #[trigger] post[j1]).0 != (#[trigger] post[j2]).0 by {
                    assert(pre[j1].0 != pre[j2].0);
                    assert(pre[i as int].0 == kview);
                }
                assert(post[i as int].0 == kview);
                assert(kv_has(post, kview));
                let j = kv_index(post, kview);
                assert(post[j].0 == kview);
                if j != i as int {
                    assert(pre[j].0 == kview);
                    assert(false);
                }
                assert(kv_get(post, kview) == Option::Some(vview));
                assert forall|k2: Seq<char>| k2 != kview implies kv_get(post, k2) == kv_get(
                    pre,
                    k2,
                ) by {
                    if kv_has(pre, k2) {
                        let j2 = kv_index(pre, k2);
                        assert(pre[j2].0 == k2);
                        assert(j2 != i as int);
                        assert(post[j2].0 == k2);
                        assert(kv_has(post, k2));
                        let j3 = kv_index(post, k2);
                        assert(post[j3].0 == k2);
                        if j3 != j2 {
                            assert(false);
                        }
                    } else {
                        if kv_has(post, k2) {
                            let j3 = kv_index(post, k2);
                            assert(post[j3].0 == k2);
                            assert(j3 != i as int);
                            assert(pre[j3].0 == k2);
                            assert(false);
                        }
                    }
                }
            }
        },
        Option::None => {
            let ghost kview = k@;
            let ghost vview = v@;
            m.push((k, v));
            proof {
                let post = m.deep_view();
                assert(post =~= pre.push((kview, vview)));
                assert(!kv_has(pre, kview));
                assert forall|j1: int, j2: int| 0 <= j1 < j2 < post.len() implies (
                #[trigger] post[j1]).0 != (#[trigger] post[j2]).0 by {
                    if j2 == pre.len() {
                        assert(post[j1] == pre[j1]);
                        if post[j1].0 == kview {
                            assert(kv_has(pre, kview));
                        }
                    } else {
                        assert(pre[j1].0 != pre[j2].0);
                    }
                }
                assert(post[pre.len() as int].0 == kview);
                assert(kv_has(post, kview));
                let j = kv_index(post, kview);
                assert(post[j].0 == kview);
                if j != pre.len() as int {
                    assert(pre[j].0 == kview);
                    assert(false);
                }
                assert(kv_get(post, kview) == Option::Some(vview));
                assert forall|k2: Seq<char>| k2 != kview implies kv_get(post, k2) == kv_get(
                    pre,
                    k2,
                ) by {
                    if kv_has(pre, k2) {
                        let j2 = kv_index(pre, k2);
                        assert(pre[j2].0 == k2);
                        assert(post[j2].0 == k2);
                        assert(kv_has(post, k2));
                        let j3 = kv_index(post, k2);
                        assert(post[j3].0 == k2);
                        if j3 == pre.len() as int {
                            assert(false);
                        }
                        if j3 != j2 {
                            assert(false);
                        }
                    } else {
                        if kv_has(post, k2) {
                            let j3 = kv_index(post, k2);
                            assert(post[j3].0 == k2);
                            if j3 == pre.len() as int {
                                assert(post[j3].0 == kview);
                            } else {
                                assert(pre[j3].0 == k2);
                            }
                            assert(false);
                        }
                    }
                }
            }
        },
    }
}

} // verus!
