use vstd::prelude::*;

use crate::order::{views, Order};
use crate::render::{
    create_table_rows, edit_row_markup, format_edit_order, format_order, page_markup,
    row_markup, PAGE_END, PAGE_START,
};
use crate::repo::{delete_order, find_index, has_name, insert_before, is_first_match, replace_order};

verus! {

/// What the edit request answers when no row has the name.
pub const EDIT_NOT_FOUND: &'static str = "<p>IDK0</p>";

/// What the row request answers when no row has the name.
pub const GET_NOT_FOUND: &'static str = "<p>IDK1</p>";

/// What the update request answers when no row has the name.
pub const PUT_NOT_FOUND: &'static str = "<p>IDK2</p>";

/// What the add-row request answers when no row has the name.
pub const ADD_NOT_FOUND: &'static str = "<p>IDK3</p>";

/// The answer to a request that may change the table: the fragment to send,
/// and whether the table changed and must be saved.
#[derive(Debug)]
pub struct Reply {
    pub html: String,
    pub save: bool,
}

/// The full page for the table `orders`.
pub fn index(orders: Vec<Order>) -> (r: String)
    ensures
        r@ == page_markup(views(orders@)),
{
    let mut page = String::from_str(PAGE_START);
    page.append(create_table_rows(orders).as_str());
    page.append(PAGE_END);
    page
}

/// The edit row of the first order named `row_name`, or the edit request's
/// not-found fragment.
pub fn edit_item(orders: &Vec<Order>, row_name: &String) -> (r: String)
    ensures
        has_name(orders@, row_name@) ==> exists|i: int|
            is_first_match(orders@, row_name@, i) && r@ == edit_row_markup(#[trigger] orders@[i]@),
        !has_name(orders@, row_name@) ==> r@ == EDIT_NOT_FOUND@,
{
    match find_index(orders, row_name) {
        Some(i) => format_edit_order(&orders[i]),
        None => String::from_str(EDIT_NOT_FOUND),
    }
}

/// The read-only row of the first order named `row_name`, or the row
/// request's not-found fragment.
pub fn order_get(orders: &Vec<Order>, row_name: &String) -> (r: String)
    ensures
        has_name(orders@, row_name@) ==> exists|i: int|
            is_first_match(orders@, row_name@, i) && r@ == row_markup(#[trigger] orders@[i]@),
        !has_name(orders@, row_name@) ==> r@ == GET_NOT_FOUND@,
{
    match find_index(orders, row_name) {
        Some(i) => format_order(orders[i].duplicate()),
        None => String::from_str(GET_NOT_FOUND),
    }
}

/// Replaces the first order named `row_name` by the submitted `form_order`
/// and answers with its read-only row; with no such order, changes nothing
/// and answers with the update request's not-found fragment.
pub fn order_put(orders: &mut Vec<Order>, row_name: &String, form_order: Order) -> (r: Reply)
    ensures
        r.save == has_name(old(orders)@, row_name@),
        r.save ==> r.html@ == row_markup(form_order@),
        r.save ==> exists|i: int|
            #[trigger] is_first_match(old(orders)@, row_name@, i) && final(orders)@ == old(
                orders,
            )@.update(i, form_order),
        !r.save ==> r.html@ == PUT_NOT_FOUND@ && final(orders)@ == old(orders)@,
{
    let html = format_order(form_order.duplicate());
    match replace_order(orders, row_name, form_order) {
        Some(_) => Reply { html, save: true },
        None => Reply { html: String::from_str(PUT_NOT_FOUND), save: false },
    }
}

/// Inserts a placeholder order immediately before the first order named
/// `row_name` and answers with the placeholder's read-only row; with no such
/// order, changes nothing and answers with the add-row request's not-found
/// fragment.
pub fn order_add_row(orders: &mut Vec<Order>, row_name: &String) -> (r: Reply)
    ensures
        r.save == has_name(old(orders)@, row_name@),
        r.save ==> r.html@ == row_markup(Order::placeholder_view()),
        r.save ==> exists|i: int|
            #[trigger] is_first_match(old(orders)@, row_name@, i) && {
                &&& final(orders)@.len() == old(orders)@.len() + 1
                &&& final(orders)@[i]@ == Order::placeholder_view()
                &&& final(orders)@.subrange(0, i) == old(orders)@.subrange(0, i)
                &&& final(orders)@.subrange(i + 1, final(orders)@.len() as int) == old(orders)@.subrange(
                    i,
                    old(orders)@.len() as int,
                )
            },
        !r.save ==> r.html@ == ADD_NOT_FOUND@ && final(orders)@ == old(orders)@,
{
    let placeholder = Order::placeholder();
    let html = format_order(placeholder.duplicate());
    match insert_before(orders, row_name, placeholder) {
        Some(i) => {
            proof {
                assert(final(orders)@.subrange(0, i as int) =~= old(orders)@.subrange(0, i as int));
                assert(final(orders)@.subrange(i + 1, final(orders)@.len() as int) =~= old(
                    orders,
                )@.subrange(i as int, old(orders)@.len() as int));
            }
            Reply { html, save: true }
        },
        None => Reply { html: String::from_str(ADD_NOT_FOUND), save: false },
    }
}

/// Removes the first order named `row_name`; returns whether the table
/// changed and must be saved. The request is answered with success either
/// way.
pub fn delete_items(orders: &mut Vec<Order>, row_name: &String) -> (r: bool)
    ensures
        r == has_name(old(orders)@, row_name@),
        r ==> exists|i: int|
            #[trigger] is_first_match(old(orders)@, row_name@, i) && final(orders)@ == old(
                orders,
            )@.remove(i),
        !r ==> final(orders)@ == old(orders)@,
{
    delete_order(orders, row_name).is_some()
}

} // verus!
