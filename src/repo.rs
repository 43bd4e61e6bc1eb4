use vstd::prelude::*;

use crate::order::Order;

verus! {

/// Some row of `s` is named `name`.
pub open spec fn has_name(s: Seq<Order>, name: Seq<char>) -> bool {
    exists|i: int| 0 <= i < s.len() && #[trigger] s[i].name@ == name
}

/// `i` is the position of the first row of `s` named `name`.
pub open spec fn is_first_match(s: Seq<Order>, name: Seq<char>, i: int) -> bool {
    &&& 0 <= i < s.len()
    &&& s[i].name@ == name
    &&& forall|j: int| 0 <= j < i ==> #[trigger] s[j].name@ != name
}

/// How many rows of `s` are named `name`.
pub open spec fn count_named(s: Seq<Order>, name: Seq<char>) -> nat
    decreases s.len(),
{
    if s.len() == 0 {
        0
    } else {
        count_named(s.drop_last(), name) + if s.last().name@ == name {
            1nat
        } else {
            0nat
        }
    }
}

proof fn lemma_count_after_remove(s: Seq<Order>, name: Seq<char>, j: int)
    requires
        0 <= j < s.len(),
        s[j].name@ == name,
    ensures
        count_named(s.remove(j), name) + 1 == count_named(s, name),
    decreases s.len(),
{
    if j == s.len() - 1 {
        assert(s.remove(j) =~= s.drop_last());
    } else {
        lemma_count_after_remove(s.drop_last(), name, j);
        assert(s.remove(j).drop_last() =~= s.drop_last().remove(j));
        assert(s.remove(j).last() == s.last());
    }
}

/// Removing the first row named `name` removes that row alone: the rows before
/// it stay in place, each row after it moves up by one, and exactly one fewer
/// row bears the name.
pub proof fn lemma_delete_first_only(s: Seq<Order>, name: Seq<char>, j: int)
    requires
        is_first_match(s, name, j),
    ensures
        s.remove(j).len() == s.len() - 1,
        s.remove(j).subrange(0, j) == s.subrange(0, j),
        forall|k: int| j < k < s.len() ==> #[trigger] s.remove(j)[k - 1] == s[k],
        count_named(s.remove(j), name) + 1 == count_named(s, name),
{
    assert(s.remove(j).subrange(0, j) =~= s.subrange(0, j));
    lemma_count_after_remove(s, name, j);
}

/// Finds the first row whose name equals `name` exactly.
pub fn find_index(orders: &Vec<Order>, name: &String) -> (r: Option<usize>)
    ensures
        match r {
            Some(i) => is_first_match(orders@, name@, i as int),
            None => !has_name(orders@, name@),
        },
{
    let mut i: usize = 0;
    while i < orders.len()
        invariant
            i <= orders@.len(),
            forall|j: int| 0 <= j < i ==> #[trigger] orders@[j].name@ != name@,
        decreases orders@.len() - i,
    {
        if orders[i].name == *name {
            return Some(i);
        }
        i = i + 1;
    }
    None
}

/// Removes the first row named `name`; returns where it stood, or `None`
/// (and leaves `orders` as it was) when no row has that name.
pub fn delete_order(orders: &mut Vec<Order>, name: &String) -> (r: Option<usize>)
    ensures
        match r {
            Some(i) => {
                &&& is_first_match(old(orders)@, name@, i as int)
                &&& final(orders)@ == old(orders)@.remove(i as int)
                &&& final(orders)@.len() == old(orders)@.len() - 1
            },
            None => {
                &&& !has_name(old(orders)@, name@)
                &&& final(orders)@ == old(orders)@
            },
        },
{
    match find_index(orders, name) {
        Some(i) => {
            orders.remove(i);
            Some(i)
        },
        None => None,
    }
}

/// Overwrites the first row named `name` with `new_order`, whose name may
/// differ; returns where it stands, or `None` (and leaves `orders` as it was)
/// when no row has that name.
pub fn replace_order(orders: &mut Vec<Order>, name: &String, new_order: Order) -> (r: Option<
    usize,
>)
    ensures
        match r {
            Some(i) => {
                &&& is_first_match(old(orders)@, name@, i as int)
                &&& final(orders)@ == old(orders)@.update(i as int, new_order)
                &&& final(orders)@.len() == old(orders)@.len()
                &&& forall|j: int|
                    0 <= j < old(orders)@.len() && j != i ==> #[trigger] final(orders)@[j]
                        == old(orders)@[j]
            },
            None => {
                &&& !has_name(old(orders)@, name@)
                &&& final(orders)@ == old(orders)@
            },
        },
{
    match find_index(orders, name) {
        Some(i) => {
            orders.set(i, new_order);
            Some(i)
        },
        None => None,
    }
}

/// Inserts `new_order` immediately before the first row named `name`; returns
/// the new row's position, or `None` (and leaves `orders` as it was) when no
/// row has that name.
pub fn insert_before(orders: &mut Vec<Order>, name: &String, new_order: Order) -> (r: Option<
    usize,
>)
    ensures
        match r {
            Some(i) => {
                &&& is_first_match(old(orders)@, name@, i as int)
                &&& final(orders)@ == old(orders)@.insert(i as int, new_order)
                &&& final(orders)@.len() == old(orders)@.len() + 1
                &&& final(orders)@[i as int] == new_order
                &&& final(orders)@[i + 1] == old(orders)@[i as int]
            },
            None => {
                &&& !has_name(old(orders)@, name@)
                &&& final(orders)@ == old(orders)@
            },
        },
{
    match find_index(orders, name) {
        Some(i) => {
            orders.insert(i, new_order);
            Some(i)
        },
        None => None,
    }
}

} // verus!
