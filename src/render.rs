use vstd::prelude::*;

use crate::decimal::{decimal, decimal_string};
use crate::order::{views, Order, OrderView};

verus! {

/// Opens a read-only row, up to its name.
pub const ROW_OPEN: &'static str = "\n<tr>\n    <th>";

/// Between the name and the first quantity.
pub const ROW_FIRST_DAY: &'static str = "</th>\n        <td>";

/// Between two quantities.
pub const ROW_NEXT_DAY: &'static str = "</td>\n        <td>";

/// After the last quantity, up to the name that the delete control sends.
pub const ROW_DELETE: &'static str = "</td>\n        <td>\n        <button class=\"btn btn-danger\" hx-delete=\"order/delete/";

/// Up to the name that the edit control asks for.
pub const ROW_EDIT: &'static str = "\">\n            Delete\n        </button>\n        </td>\n        <td>\n            <button hx-get=\"/order/edit/";

/// Up to the name that the add-row control asks for.
pub const ROW_ADD: &'static str = "\">\n            Edit\n        </td>\n        <td>\n            <button hx-get=\"/order/addRow/";

/// Closes a read-only row.
pub const ROW_CLOSE: &'static str = "\" hx-swap=\"afterend\">\n            Add row below\n        </td>\n</tr>";

/// Opens an edit row, up to the name that cancelling asks for.
pub const EDIT_OPEN: &'static str = "\n        <tr hx-trigger=\"cancel\" hx-get=\"/order/";

/// Up to the value of the name input.
pub const EDIT_NAME: &'static str = "\">\n            <td><input name=\"name\" value=\"";

/// Up to the value of the monday input.
pub const EDIT_MONDAY: &'static str = "\"</td>\n            <td><input name=\"monday\" value=\"";

/// Up to the value of the tuesday input.
pub const EDIT_TUESDAY: &'static str = "\"</td>\n            <td><input name=\"tuesday\" value=\"";

/// Up to the value of the wednesday input.
pub const EDIT_WEDNESDAY: &'static str = "\"</td>\n            <td><input name=\"wednesday\" value=\"";

/// Up to the value of the thursday input.
pub const EDIT_THURSDAY: &'static str = "\"</td>\n            <td><input name=\"thursday\" value=\"";

/// Up to the value of the friday input.
pub const EDIT_FRIDAY: &'static str = "\"</td>\n            <td><input name=\"friday\" value=\"";

/// Up to the value of the saturday input.
pub const EDIT_SATURDAY: &'static str = "\"</td>\n            <td><input name=\"saturday\" value=\"";

/// Up to the value of the sunday input.
pub const EDIT_SUNDAY: &'static str = "\"</td>\n            <td><input name=\"sunday\" value=\"";

/// Up to the name that the cancel control asks for.
pub const EDIT_CANCEL: &'static str = "\"</td>\n            <td>\n                <button hx-get=\"/order/";

/// Up to the name that the save control sends to.
pub const EDIT_SAVE: &'static str = "\">Cancel</button>\n            </td>\n            <td>\n                <button hx-put=\"/order/";

/// Ends an edit row.
pub const EDIT_CLOSE: &'static str = "\" hx-include=\"closest tr\">Save</button>\n            </td>\n            ";

/// The page up to the first row: head, script and table header.
pub const PAGE_START: &'static str = "<html>\n        <head>\n    <meta charset=\"UTF-8\">\n    <meta name=\"viewport\" content=\"width=device-width, initial-scale=1.0\">\n    <title>Document</title>\n    <script src=\"https://unpkg.com/htmx.org@1.9.10\" integrity=\"sha384-D1Kt99CQMDuVetoL1lrYwg5t+9QdHe7NLX/SoJYkXDFfX37iInKRy5xLSi8nO7UC\" crossorigin=\"anonymous\"></script>\n            </head>\n            <body>\n                <table>\n                    <thead>\n                        <tr>\n                            <th></th>\n                            <th>Monday</th>\n                            <th>Tuesday</th>\n                            <th>Wednesday</th>\n                            <th>Thursday</th>\n                            <th>Friday</th>\n                            <th>Saturday</th>\n                            <th>Sunday</th>\n                        </tr>\n                    </thead>\n                    <tbody hx-target=\"closest tr\" hx-swap=\"outerHTML\">\n    ";

/// Ends the page after the last row.
pub const PAGE_END: &'static str = "</tbody></body></html>";

/// The read-only row of an order: its name and quantities as cells, then
/// delete, edit and add-row controls keyed by its name.
pub open spec fn row_markup(o: OrderView) -> Seq<char> {
    ROW_OPEN@ + o.name + ROW_FIRST_DAY@ + decimal(o.days[0] as int) + ROW_NEXT_DAY@ + decimal(
        o.days[1] as int,
    ) + ROW_NEXT_DAY@ + decimal(o.days[2] as int) + ROW_NEXT_DAY@ + decimal(o.days[3] as int)
        + ROW_NEXT_DAY@ + decimal(o.days[4] as int) + ROW_NEXT_DAY@ + decimal(o.days[5] as int)
        + ROW_NEXT_DAY@ + decimal(o.days[6] as int) + ROW_DELETE@ + o.name + ROW_EDIT@ + o.name
        + ROW_ADD@ + o.name + ROW_CLOSE@
}

/// The edit row of an order: its eight fields as inputs holding their current
/// values, then cancel and save controls keyed by its name.
pub open spec fn edit_row_markup(o: OrderView) -> Seq<char> {
    EDIT_OPEN@ + o.name + EDIT_NAME@ + o.name + EDIT_MONDAY@ + decimal(o.days[0] as int)
        + EDIT_TUESDAY@ + decimal(o.days[1] as int) + EDIT_WEDNESDAY@ + decimal(o.days[2] as int)
        + EDIT_THURSDAY@ + decimal(o.days[3] as int) + EDIT_FRIDAY@ + decimal(o.days[4] as int)
        + EDIT_SATURDAY@ + decimal(o.days[5] as int) + EDIT_SUNDAY@ + decimal(o.days[6] as int)
        + EDIT_CANCEL@ + o.name + EDIT_SAVE@ + o.name + EDIT_CLOSE@
}

/// The read-only rows of a table, in its order.
pub open spec fn rows_markup(os: Seq<OrderView>) -> Seq<char>
    decreases os.len(),
{
    if os.len() == 0 {
        Seq::empty()
    } else {
        rows_markup(os.drop_last()) + row_markup(os.last())
    }
}

/// The whole page: head and table header, the rows, and the closing tags.
pub open spec fn page_markup(os: Seq<OrderView>) -> Seq<char> {
    PAGE_START@ + rows_markup(os) + PAGE_END@
}

/// Renders the read-only row of `order`.
pub fn format_order(order: Order) -> (r: String)
    ensures
        r@ == row_markup(order@),
{
    let mut s = String::from_str(ROW_OPEN);
    s.append(order.name.as_str());
    s.append(ROW_FIRST_DAY);
    s.append(decimal_string(order.monday).as_str());
    s.append(ROW_NEXT_DAY);
    s.append(decimal_string(order.tuesday).as_str());
    s.append(ROW_NEXT_DAY);
    s.append(decimal_string(order.wednesday).as_str());
    s.append(ROW_NEXT_DAY);
    s.append(decimal_string(order.thursday).as_str());
    s.append(ROW_NEXT_DAY);
    s.append(decimal_string(order.friday).as_str());
    s.append(ROW_NEXT_DAY);
    s.append(decimal_string(order.saturday).as_str());
    s.append(ROW_NEXT_DAY);
    s.append(decimal_string(order.sunday).as_str());
    s.append(ROW_DELETE);
    s.append(order.name.as_str());
    s.append(ROW_EDIT);
    s.append(order.name.as_str());
    s.append(ROW_ADD);
    s.append(order.name.as_str());
    s.append(ROW_CLOSE);
    s
}

/// Renders the edit row of `order`.
pub fn format_edit_order(order: &Order) -> (r: String)
    ensures
        r@ == edit_row_markup(order@),
{
    let mut s = String::from_str(EDIT_OPEN);
    s.append(order.name.as_str());
    s.append(EDIT_NAME);
    s.append(order.name.as_str());
    s.append(EDIT_MONDAY);
    s.append(decimal_string(order.monday).as_str());
    s.append(EDIT_TUESDAY);
    s.append(decimal_string(order.tuesday).as_str());
    s.append(EDIT_WEDNESDAY);
    s.append(decimal_string(order.wednesday).as_str());
    s.append(EDIT_THURSDAY);
    s.append(decimal_string(order.thursday).as_str());
    s.append(EDIT_FRIDAY);
    s.append(decimal_string(order.friday).as_str());
    s.append(EDIT_SATURDAY);
    s.append(decimal_string(order.saturday).as_str());
    s.append(EDIT_SUNDAY);
    s.append(decimal_string(order.sunday).as_str());
    s.append(EDIT_CANCEL);
    s.append(order.name.as_str());
    s.append(EDIT_SAVE);
    s.append(order.name.as_str());
    s.append(EDIT_CLOSE);
    s
}

/// Renders the read-only rows of `orders`, in order.
pub fn create_table_rows(orders: Vec<Order>) -> (r: String)
    ensures
        r@ == rows_markup(views(orders@)),
{
    let mut rows = String::new();
    let mut i: usize = 0;
    while i < orders.len()
        invariant
            i <= orders@.len(),
            rows@ == rows_markup(views(orders@.subrange(0, i as int))),
        decreases orders@.len() - i,
    {
        proof {
            let next = views(orders@.subrange(0, i + 1));
            assert(next.drop_last() =~= views(orders@.subrange(0, i as int)));
            assert(next.last() == orders@[i as int]@);
        }
        rows.append(format_order(orders[i].duplicate()).as_str());
        i = i + 1;
    }
    assert(orders@.subrange(0, i as int) =~= orders@);
    rows
}

} // verus!
