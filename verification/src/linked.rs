//! Traversal of the intrusive linked lists that order pool entities.
//!
//! Every pool entity carries `prev`/`next` slot references; the live lists
//! (active bullets, lone sprites, fog sprites) are threaded through them.
//! A save walks such a list once to build the pointer directory and once
//! more to emit records, so the walk must visit the same slots in the same
//! order both times, and it must reject a list that revisits a slot or
//! leaves the pool: the host would never create one, so such a list is a
//! corrupted representation, not a longer list.

use vstd::prelude::*;
use vstd::seq_lib::*;
use vstd::set_lib::*;

use crate::arena::RawVec;
use crate::errors::SaveError;
use crate::mapping::SaveMapping;

verus! {

/// An entity that sits in an intrusive doubly-linked list.
pub trait ListNode: Sized {
    /// The slot of the next list entry, if any.
    spec fn next_of(&self) -> Option<usize>;

    /// The slot of the previous list entry, if any.
    spec fn prev_of(&self) -> Option<usize>;

    fn next_link(&self) -> (r: Option<usize>)
        ensures
            r == self.next_of(),
    ;
}

/// The slots a forward walk of the list starting at `cur` visits, after the
/// slots of `acc`. The walk fails where a link leaves the pool or returns to
/// a slot already visited; otherwise it ends at the first null link.
pub open spec fn spec_walk<T: ListNode>(
    pool: Seq<T>,
    cur: Option<usize>,
    acc: Seq<usize>,
) -> Result<Seq<usize>, SaveError>
    decreases pool.len() - acc.len()
        when acc.no_duplicates() && (forall|k: int| 0 <= k < acc.len() ==> acc[k] < pool.len())
        via spec_walk_decreases::<T>
{
    match cur {
        None => Ok(acc),
        Some(i) => {
            if i >= pool.len() || acc.contains(i) {
                Err(SaveError::InvalidPointer)
            } else {
                spec_walk(pool, pool[i as int].next_of(), acc.push(i))
            }
        },
    }
}

#[via_fn]
proof fn spec_walk_decreases<T: ListNode>(pool: Seq<T>, cur: Option<usize>, acc: Seq<usize>) {
    if let Some(i) = cur {
        if i < pool.len() && !acc.contains(i) {
            lemma_distinct_bounded(acc.push(i), pool.len());
        }
    }
}

/// A sequence of distinct slot numbers below `n` has at most `n` entries.
pub proof fn lemma_distinct_bounded(acc: Seq<usize>, n: nat)
    requires
        acc.no_duplicates(),
        forall|k: int| 0 <= k < acc.len() ==> acc[k] < n,
    ensures
        acc.len() <= n,
{
    let ints = acc.map_values(|x: usize| x as int);
    assert(ints.no_duplicates()) by {
        assert forall|i: int, j: int|
            0 <= i < ints.len() && 0 <= j < ints.len() && i != j implies ints[i] != ints[j] by {
            assert(acc[i] != acc[j]);
        }
    }
    ints.unique_seq_to_set();
    lemma_int_range(0, n as int);
    lemma_len_subset(ints.to_set(), set_int_range(0, n as int));
}

/// Walks the list that starts at `first`, returning the visited slots in
/// order. A link that leaves the pool or revisits a slot is reported as an
/// invalid pointer: live lists never alias, so the walk is exactly the list.
pub fn collect_list<T: ListNode>(pool: &RawVec<T>, first: Option<usize>) -> (r: Result<
    Vec<usize>,
    SaveError,
>)
    ensures
        match r {
            Ok(order) => spec_walk(pool@, first, Seq::<usize>::empty()) == Ok::<_, SaveError>(
                order@,
            ),
            Err(e) => spec_walk(pool@, first, Seq::<usize>::empty()) == Err::<Seq<usize>, _>(e),
        },
{
    let pool_len = pool.len();
    let mut seen: Vec<bool> = Vec::new();
    let mut i: usize = 0;
    while i < pool_len
        invariant
            seen@.len() == i,
            i <= pool_len,
            forall|k: int| 0 <= k < i ==> seen@[k] == false,
        decreases pool_len - i,
    {
        seen.push(false);
        i = i + 1;
    }
    let mut order: Vec<usize> = Vec::new();
    let mut cur = first;
    loop
        invariant
            pool_len == pool@.len(),
            seen@.len() == pool_len,
            order@.no_duplicates(),
            forall|k: int| 0 <= k < order@.len() ==> order@[k] < pool_len,
            forall|s: int|
                0 <= s < pool_len ==> (seen@[s] == order@.contains(s as usize)),
            spec_walk(pool@, first, Seq::<usize>::empty()) == spec_walk(pool@, cur, order@),
        decreases pool@.len() - order@.len() + 1, (if cur is Some {
            1int
        } else {
            0int
        }),
    {
        proof {
            lemma_distinct_bounded(order@, pool_len as nat);
        }
        match cur {
            None => {
                return Ok(order);
            },
            Some(s) => {
                if s >= pool_len {
                    return Err(SaveError::InvalidPointer);
                }
                if seen[s] {
                    return Err(SaveError::InvalidPointer);
                }
                let ghost prior = order@;
                seen[s] = true;
                order.push(s);
                proof {
                    assert(order@ == prior.push(s));
                    assert(order@.no_duplicates()) by {
                        assert forall|a: int, b: int|
                            0 <= a < order@.len() && 0 <= b < order@.len() && a != b implies order@[a]
                            != order@[b] by {
                            if a < prior.len() && b < prior.len() {
                                assert(prior[a] != prior[b]);
                            } else if a < prior.len() {
                                assert(!prior.contains(s) && prior[a] == order@[a]);
                            } else {
                                assert(!prior.contains(s) && prior[b] == order@[b]);
                            }
                        }
                    }
                    assert forall|x: int| 0 <= x < pool_len implies seen@[x] == order@.contains(
                        x as usize,
                    ) by {
                        if x == s {
                            assert(order@[order@.len() - 1] == s);
                        } else {
                            if order@.contains(x as usize) {
                                let idx = choose|idx: int|
                                    0 <= idx < order@.len() && order@[idx] == x as usize;
                                assert(idx < prior.len());
                                assert(prior[idx] == x as usize);
                            }
                            if prior.contains(x as usize) {
                                let idx = choose|idx: int|
                                    0 <= idx < prior.len() && prior[idx] == x as usize;
                                assert(order@[idx] == x as usize);
                            }
                        }
                    }
                }
                cur = pool.get(s).next_link();
            },
        }
    }
}

/// Builds the save directory for one list: walks it from `first` and gives
/// the k-th visited slot the id k+1. Returns the traversal order together
/// with the directory so record emission can reuse the exact same order.
pub fn build_save_directory<T: ListNode>(pool: &RawVec<T>, first: Option<usize>) -> (r: Result<
    (Vec<usize>, SaveMapping),
    SaveError,
>)
    requires
        pool@.len() < 0xffff_ffff,
    ensures
        match r {
            Ok(p) => {
                &&& spec_walk(pool@, first, Seq::<usize>::empty()) == Ok::<_, SaveError>(p.0@)
                &&& p.1@.len() == pool@.len()
                &&& p.1.spec_len() == p.0@.len()
                &&& forall|k: int| 0 <= k < p.0@.len() ==> p.1@[p.0@[k] as int] == k + 1
                &&& forall|s: int|
                    0 <= s < pool@.len() && !p.0@.contains(s as usize) ==> p.1@[s] == 0
            },
            Err(e) => spec_walk(pool@, first, Seq::<usize>::empty()) == Err::<Seq<usize>, _>(e),
        },
{
    let order = match collect_list(pool, first) {
        Ok(o) => o,
        Err(e) => {
            return Err(e);
        },
    };
    proof {
        lemma_walk_order_valid(pool@, first, Seq::<usize>::empty());
    }
    let mapping = SaveMapping::from_order(&order, pool.len());
    Ok((order, mapping))
}

/// A successful walk yields distinct, in-pool slots.
pub proof fn lemma_walk_order_valid<T: ListNode>(pool: Seq<T>, cur: Option<usize>, acc: Seq<usize>)
    requires
        acc.no_duplicates(),
        forall|k: int| 0 <= k < acc.len() ==> acc[k] < pool.len(),
        spec_walk(pool, cur, acc) is Ok,
    ensures
        spec_walk(pool, cur, acc)->Ok_0.no_duplicates(),
        forall|k: int|
            0 <= k < spec_walk(pool, cur, acc)->Ok_0.len() ==> spec_walk(pool, cur, acc)->Ok_0[k]
                < pool.len(),
        spec_walk(pool, cur, acc)->Ok_0.len() <= pool.len(),
    decreases pool.len() - acc.len(),
{
    lemma_distinct_bounded(acc, pool.len());
    match cur {
        None => {},
        Some(i) => {
            if i < pool.len() && !acc.contains(i) {
                lemma_distinct_bounded(acc.push(i), pool.len());
                lemma_walk_order_valid(pool, pool[i as int].next_of(), acc.push(i));
            }
        },
    }
}

/// What a successful walk says of the links: the visited slots continue
/// `acc`, each visited entry's next link points at the following visited
/// slot and the last one at null, and `cur` is the first unvisited slot.
pub proof fn lemma_walk_links<T: ListNode>(pool: Seq<T>, cur: Option<usize>, acc: Seq<usize>)
    requires
        acc.no_duplicates(),
        forall|k: int| 0 <= k < acc.len() ==> acc[k] < pool.len(),
        spec_walk(pool, cur, acc) is Ok,
    ensures
        ({
            let full = spec_walk(pool, cur, acc)->Ok_0;
            &&& full.len() >= acc.len()
            &&& full.subrange(0, acc.len() as int) == acc
            &&& cur == (if full.len() > acc.len() {
                Some(full[acc.len() as int])
            } else {
                None::<usize>
            })
            &&& forall|k: int|
                acc.len() <= k < full.len() ==> (#[trigger] pool[full[k] as int].next_of()) == (
                if k + 1 < full.len() {
                    Some(full[k + 1])
                } else {
                    None::<usize>
                })
        }),
    decreases pool.len() - acc.len(),
{
    lemma_distinct_bounded(acc, pool.len());
    match cur {
        None => {
            assert(spec_walk(pool, cur, acc)->Ok_0.subrange(0, acc.len() as int) =~= acc);
        },
        Some(i) => {
            if i < pool.len() && !acc.contains(i) {
                lemma_distinct_bounded(acc.push(i), pool.len());
                lemma_walk_links(pool, pool[i as int].next_of(), acc.push(i));
                let full = spec_walk(pool, cur, acc)->Ok_0;
                assert(full.subrange(0, acc.len() as int + 1) == acc.push(i));
                assert(full[acc.len() as int] == acc.push(i)[acc.len() as int]);
                assert(full.subrange(0, acc.len() as int) =~= acc) by {
                    assert forall|k: int| 0 <= k < acc.len() implies full.subrange(
                        0,
                        acc.len() as int,
                    )[k] == acc[k] by {
                        assert(full.subrange(0, acc.len() as int + 1)[k] == acc.push(i)[k]);
                    }
                }
            }
        },
    }
}

} // verus!
