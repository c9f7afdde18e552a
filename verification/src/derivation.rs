//! Derived completion in general: children that each name one parent, facts
//! that a learner has completed a child, and the facts about parents that
//! follow from them. Lessons under modules and modules under courses are the
//! two cases of it.
use vstd::prelude::*;
use crate::rules::all_children_done;

verus! {

/// A fact about a learner and one course, module or lesson: the learner's id
/// and the subject's id.
pub type Fact = (Seq<char>, i64);

/// The sequence with `item` added at its end unless it is already in it.
pub open spec fn insert_unique<T>(items: Seq<T>, item: T) -> Seq<T> {
    if items.contains(item) {
        items
    } else {
        items.push(item)
    }
}

/// Child `child` exists and names `parent`. Children are numbered from 1 and
/// `parents[child - 1]` is the parent of child `child`.
pub open spec fn child_of(parents: Seq<i64>, child: i64, parent: i64) -> bool {
    1 <= child <= parents.len() && parents[child - 1] == parent
}

/// The learner has completed every child of the parent.
pub open spec fn every_child_done(
    parents: Seq<i64>,
    done: Seq<Fact>,
    learner: Seq<char>,
    parent: i64,
) -> bool {
    forall|child: i64| #[trigger] child_of(parents, child, parent) ==> done.contains((learner, child))
}

/// The parent has at least one child.
pub open spec fn has_child(parents: Seq<i64>, parent: i64) -> bool {
    exists|child: i64| child_of(parents, child, parent)
}

/// The parent has a child and the learner has completed all of its children.
pub open spec fn children_complete(
    parents: Seq<i64>,
    done: Seq<Fact>,
    learner: Seq<char>,
    parent: i64,
) -> bool {
    has_child(parents, parent) && every_child_done(parents, done, learner, parent)
}

/// The facts about parents are exactly those that the facts about children
/// call for.
pub open spec fn parents_derived(
    parents: Seq<i64>,
    child_done: Seq<Fact>,
    parent_done: Seq<Fact>,
) -> bool {
    forall|learner: Seq<char>, parent: i64|
        #![trigger parent_done.contains((learner, parent))]
        #![trigger children_complete(parents, child_done, learner, parent)]
        parent_done.contains((learner, parent)) <==> children_complete(
            parents,
            child_done,
            learner,
            parent,
        )
}

/// The facts about parents after the one about `parent` that the learner's
/// completed children call for has been added, if they call for one.
pub open spec fn derive_parent(
    parents: Seq<i64>,
    child_done: Seq<Fact>,
    parent_done: Seq<Fact>,
    learner: Seq<char>,
    parent: i64,
) -> Seq<Fact> {
    if children_complete(parents, child_done, learner, parent) {
        insert_unique(parent_done, (learner, parent))
    } else {
        parent_done
    }
}

/// How many of the first `n` children name `parent`.
pub open spec fn child_count(parents: Seq<i64>, parent: i64, n: nat) -> nat
    decreases n,
{
    if n == 0 {
        0
    } else {
        child_count(parents, parent, (n - 1) as nat) + if parents[n - 1] == parent {
            1nat
        } else {
            0nat
        }
    }
}

/// How many of the first `n` children name `parent` and are completed by the
/// learner.
pub open spec fn done_child_count(
    parents: Seq<i64>,
    done: Seq<Fact>,
    learner: Seq<char>,
    parent: i64,
    n: nat,
) -> nat
    decreases n,
{
    if n == 0 {
        0
    } else {
        done_child_count(parents, done, learner, parent, (n - 1) as nat) + if parents[n - 1]
            == parent && done.contains((learner, n as i64)) {
            1nat
        } else {
            0nat
        }
    }
}

/// What `insert_unique` holds afterwards: the old items and the new one, and
/// nothing twice if nothing was there twice.
pub proof fn lemma_insert_unique<T>(items: Seq<T>, item: T)
    ensures
        insert_unique(items, item).contains(item),
        forall|other: T| #[trigger]
            insert_unique(items, item).contains(other) <==> (items.contains(other) || other
                == item),
        items.no_duplicates() ==> insert_unique(items, item).no_duplicates(),
        forall|i: int| 0 <= i < items.len() ==> #[trigger] insert_unique(items, item)[i] == items[i],
        items.len() <= insert_unique(items, item).len() <= items.len() + 1,
        insert_unique(insert_unique(items, item), item) == insert_unique(items, item),
{
    let after = insert_unique(items, item);
    if items.contains(item) {
    } else {
        assert(after[items.len() as int] == item);
        assert forall|other: T| #[trigger] after.contains(other) implies (items.contains(other)
            || other == item) by {
            let i = choose|i: int| 0 <= i < after.len() && after[i] == other;
            if i < items.len() {
                assert(items[i] == other);
            }
        }
        assert forall|other: T| (items.contains(other) || other == item) implies #[trigger]
            after.contains(other) by {
            if items.contains(other) {
                let i = choose|i: int| 0 <= i < items.len() && items[i] == other;
                assert(after[i] == other);
            }
        }
    }
}

/// The counts over a prefix: no more completed children than children, the
/// two are equal exactly when every child in the prefix is completed, and
/// the count of children is positive exactly when the prefix holds one.
pub proof fn lemma_counts_upto(
    parents: Seq<i64>,
    done: Seq<Fact>,
    learner: Seq<char>,
    parent: i64,
    n: nat,
)
    requires
        n <= parents.len() <= i64::MAX,
    ensures
        done_child_count(parents, done, learner, parent, n) <= child_count(parents, parent, n) <= n,
        done_child_count(parents, done, learner, parent, n) == child_count(parents, parent, n)
            <==> forall|child: i64|
            #![trigger child_of(parents, child, parent)]
            child <= n && child_of(parents, child, parent) ==> done.contains((learner, child)),
        child_count(parents, parent, n) > 0 <==> exists|child: i64|
            child <= n && child_of(parents, child, parent),
    decreases n,
{
    if n > 0 {
        let m = (n - 1) as nat;
        lemma_counts_upto(parents, done, learner, parent, m);
        let last = n as i64;
        let all_m = forall|child: i64|
            #![trigger child_of(parents, child, parent)]
            child <= m && child_of(parents, child, parent) ==> done.contains((learner, child));
        let all_n = forall|child: i64|
            #![trigger child_of(parents, child, parent)]
            child <= n && child_of(parents, child, parent) ==> done.contains((learner, child));
        let some_m = exists|child: i64| child <= m && child_of(parents, child, parent);
        let some_n = exists|child: i64| child <= n && child_of(parents, child, parent);
        if all_n {
            assert(all_m);
        }
        if some_m {
            let c = choose|c: i64| c <= m && child_of(parents, c, parent);
            assert(c <= n && child_of(parents, c, parent));
        }
        if parents[n - 1] == parent {
            assert(last <= n && child_of(parents, last, parent));
            if done.contains((learner, last)) {
                if all_m {
                    assert forall|child: i64|
                        #![trigger child_of(parents, child, parent)]
                        child <= n && child_of(parents, child, parent) implies done.contains(
                        (learner, child),
                    ) by {
                        if child != last {
                            assert(child <= m);
                        }
                    }
                }
            }
        } else {
            if all_m {
                assert forall|child: i64|
                    #![trigger child_of(parents, child, parent)]
                    child <= n && child_of(parents, child, parent) implies done.contains(
                    (learner, child),
                ) by {
                    assert(child <= m);
                }
            }
            if some_n {
                let c = choose|c: i64| c <= n && child_of(parents, c, parent);
                assert(c <= m && child_of(parents, c, parent));
            }
        }
    }
}

/// Counting decides completion: the parent's children are complete exactly
/// when the rule on counts says so of the number of its children and the
/// number of those that the learner has completed.
pub proof fn lemma_counts_decide(
    parents: Seq<i64>,
    done: Seq<Fact>,
    learner: Seq<char>,
    parent: i64,
)
    requires
        parents.len() <= i64::MAX,
    ensures
        children_complete(parents, done, learner, parent) <==> all_children_done(
            child_count(parents, parent, parents.len()) as int,
            done_child_count(parents, done, learner, parent, parents.len()) as int,
        ),
{
    lemma_counts_upto(parents, done, learner, parent, parents.len());
    if has_child(parents, parent) {
        let c = choose|c: i64| child_of(parents, c, parent);
        assert(c <= parents.len() && child_of(parents, c, parent));
    }
    if every_child_done(parents, done, learner, parent) {
        assert(forall|child: i64|
            #![trigger child_of(parents, child, parent)]
            child <= parents.len() && child_of(parents, child, parent) ==> done.contains(
                (learner, child),
            ));
    }
}

/// The learner completed one more child of `parent`: every other fact about
/// parents is still called for exactly as before, and a fact about `parent`
/// that was called for still is.
pub proof fn lemma_child_completed(
    parents: Seq<i64>,
    child_done: Seq<Fact>,
    parent_done: Seq<Fact>,
    learner: Seq<char>,
    child: i64,
    parent: i64,
)
    requires
        parents_derived(parents, child_done, parent_done),
        child_of(parents, child, parent),
    ensures
        parents_derived(
            parents,
            insert_unique(child_done, (learner, child)),
            derive_parent(
                parents,
                insert_unique(child_done, (learner, child)),
                parent_done,
                learner,
                parent,
            ),
        ),
{
    let after = insert_unique(child_done, (learner, child));
    let derived = derive_parent(parents, after, parent_done, learner, parent);
    lemma_insert_unique(child_done, (learner, child));
    lemma_insert_unique(parent_done, (learner, parent));
    assert forall|l: Seq<char>, p: i64|
        #![trigger derived.contains((l, p))]
        #![trigger children_complete(parents, after, l, p)]
        derived.contains((l, p)) <==> children_complete(parents, after, l, p) by {
        assert(parent_done.contains((l, p)) <==> children_complete(parents, child_done, l, p));
        if every_child_done(parents, child_done, l, p) {
            assert forall|c: i64| #[trigger] child_of(parents, c, p) implies after.contains(
                (l, c),
            ) by {
                assert(child_done.contains((l, c)));
            }
        }
        if l != learner || p != parent {
            assert((l, p) != (learner, parent));
            if every_child_done(parents, after, l, p) {
                assert forall|c: i64| #[trigger] child_of(parents, c, p) implies child_done.contains(
                    (l, c),
                ) by {
                    assert(after.contains((l, c)));
                    assert((l, c) != (learner, child));
                }
            }
        }
    }
}

/// Facts about parents that are derived stay derived when the fact that a
/// parent's children call for is added.
pub proof fn lemma_derive_again(
    parents: Seq<i64>,
    child_done: Seq<Fact>,
    parent_done: Seq<Fact>,
    learner: Seq<char>,
    parent: i64,
)
    requires
        parents_derived(parents, child_done, parent_done),
    ensures
        derive_parent(parents, child_done, parent_done, learner, parent) == parent_done,
{
    assert(parent_done.contains((learner, parent)) <==> children_complete(
        parents,
        child_done,
        learner,
        parent,
    ));
}

} // verus!
