use weekly_orders::decimal::{decimal_string, parse_quantity};
use weekly_orders::handlers::{
    delete_items, edit_item, index, order_add_row, order_get, order_put, ADD_NOT_FOUND,
    EDIT_NOT_FOUND, GET_NOT_FOUND, PUT_NOT_FOUND,
};
use weekly_orders::order::Order;
use weekly_orders::render::{create_table_rows, format_edit_order, format_order};
use weekly_orders::repo::{delete_order, find_index, insert_before, replace_order};
use weekly_orders::store::{decode_orders, encode_orders, StorageError};

const HEADER: &str = "name,monday,tuesday,wednesday,thursday,friday,saturday,sunday\n";

fn order(name: &str, q: [i32; 7]) -> Order {
    Order {
        name: name.to_string(),
        monday: q[0],
        tuesday: q[1],
        wednesday: q[2],
        thursday: q[3],
        friday: q[4],
        saturday: q[5],
        sunday: q[6],
    }
}

fn names(orders: &[Order]) -> Vec<&str> {
    orders.iter().map(|o| o.name.as_str()).collect()
}

fn expected_row(o: &Order) -> String {
    format!(
        "
<tr>
    <th>{}</th>
        <td>{}</td>
        <td>{}</td>
        <td>{}</td>
        <td>{}</td>
        <td>{}</td>
        <td>{}</td>
        <td>{}</td>
        <td>
        <button class=\"btn btn-danger\" hx-delete=\"order/delete/{}\">
            Delete
        </button>
        </td>
        <td>
            <button hx-get=\"/order/edit/{}\">
            Edit
        </td>
        <td>
            <button hx-get=\"/order/addRow/{}\" hx-swap=\"afterend\">
            Add row below
        </td>
</tr>",
        o.name, o.monday, o.tuesday, o.wednesday, o.thursday, o.friday, o.saturday, o.sunday,
        o.name, o.name, o.name,
    )
}

#[test]
fn get_row_by_name_and_missing_name() {
    let text = format!("{}Alice,1,2,3,4,5,6,7\n", HEADER);
    let orders = decode_orders(text.as_bytes()).unwrap();
    let html = order_get(&orders, &"Alice".to_string());
    assert!(html.contains("Alice"));
    let mut at = 0;
    for d in ["1", "2", "3", "4", "5", "6", "7"] {
        let cell = format!("<td>{}</td>", d);
        let found = html[at..].find(&cell).unwrap();
        at += found + cell.len();
    }
    assert_eq!(html, expected_row(&order("Alice", [1, 2, 3, 4, 5, 6, 7])));
    assert_eq!(order_get(&orders, &"Bob".to_string()), GET_NOT_FOUND);
}

#[test]
fn put_replaces_row_and_file_follows() {
    let text = format!("{}Alice,1,2,3,4,5,6,7\n", HEADER);
    let mut orders = decode_orders(text.as_bytes()).unwrap();
    let form = order("Alice", [9, 2, 3, 4, 5, 6, 7]);
    let reply = order_put(&mut orders, &"Alice".to_string(), form);
    assert!(reply.save);
    assert_eq!(orders[0].monday, 9);
    assert!(reply.html.contains("<td>9</td>"));
    let saved = encode_orders(&orders).unwrap();
    assert_eq!(String::from_utf8(saved).unwrap(), format!("{}Alice,9,2,3,4,5,6,7\n", HEADER));
}

#[test]
fn put_on_missing_name_changes_nothing() {
    let mut orders = vec![order("Alice", [1; 7])];
    let reply = order_put(&mut orders, &"Bob".to_string(), order("Bob", [2; 7]));
    assert!(!reply.save);
    assert_eq!(reply.html, PUT_NOT_FOUND);
    assert_eq!(orders, vec![order("Alice", [1; 7])]);
}

#[test]
fn add_row_inserts_placeholder_before_reference() {
    let mut orders = vec![order("Alice", [1; 7]), order("Carol", [3; 7])];
    let reply = order_add_row(&mut orders, &"Alice".to_string());
    assert!(reply.save);
    assert_eq!(names(&orders), vec!["Placeholder", "Alice", "Carol"]);
    assert_eq!(orders[0], order("Placeholder", [0; 7]));
    assert_eq!(reply.html, expected_row(&order("Placeholder", [0; 7])));
    let missing = order_add_row(&mut orders, &"Dave".to_string());
    assert!(!missing.save);
    assert_eq!(missing.html, ADD_NOT_FOUND);
    assert_eq!(orders.len(), 3);
}

#[test]
fn delete_twice_succeeds_then_finds_nothing() {
    let mut orders = vec![order("Alice", [1; 7]), order("Carol", [3; 7])];
    assert!(delete_items(&mut orders, &"Alice".to_string()));
    assert_eq!(names(&orders), vec!["Carol"]);
    assert!(!delete_items(&mut orders, &"Alice".to_string()));
    assert_eq!(names(&orders), vec!["Carol"]);
}

#[test]
fn absent_name_is_reported_and_table_kept() {
    let before = vec![order("Alice", [1; 7]), order("Carol", [3; 7])];
    let mut orders = vec![order("Alice", [1; 7]), order("Carol", [3; 7])];
    let bob = "Bob".to_string();
    assert_eq!(find_index(&orders, &bob), None);
    assert_eq!(delete_order(&mut orders, &bob), None);
    assert_eq!(orders, before);
    assert_eq!(insert_before(&mut orders, &bob, order("X", [0; 7])), None);
    assert_eq!(orders, before);
    assert_eq!(replace_order(&mut orders, &bob, order("X", [0; 7])), None);
    assert_eq!(orders, before);
}

#[test]
fn delete_removes_only_first_match() {
    let mut orders = vec![
        order("Ann", [0; 7]),
        order("Dup", [1; 7]),
        order("Dup", [2; 7]),
    ];
    assert_eq!(find_index(&orders, &"Dup".to_string()), Some(1));
    assert_eq!(delete_order(&mut orders, &"Dup".to_string()), Some(1));
    assert_eq!(orders, vec![order("Ann", [0; 7]), order("Dup", [2; 7])]);
}

#[test]
fn replace_may_rename_and_keeps_order() {
    let mut orders = vec![order("A", [1; 7]), order("B", [2; 7]), order("C", [3; 7])];
    assert_eq!(replace_order(&mut orders, &"B".to_string(), order("Z", [5; 7])), Some(1));
    assert_eq!(orders, vec![order("A", [1; 7]), order("Z", [5; 7]), order("C", [3; 7])]);
}

#[test]
fn insert_before_places_row_ahead_of_match() {
    let mut orders = vec![order("A", [1; 7]), order("B", [2; 7]), order("C", [3; 7])];
    assert_eq!(insert_before(&mut orders, &"C".to_string(), order("N", [4; 7])), Some(2));
    assert_eq!(names(&orders), vec!["A", "B", "N", "C"]);
}

#[test]
fn stored_table_reads_back_unchanged() {
    let orders = vec![
        order("Alice", [1, -2, 3, 0, 5, i32::MAX, i32::MIN]),
        order("Smith, \"J\"", [7; 7]),
    ];
    let text = encode_orders(&orders).unwrap();
    assert_eq!(decode_orders(&text).unwrap(), orders);
    let again = encode_orders(&decode_orders(&text).unwrap()).unwrap();
    assert_eq!(again, text);
}

#[test]
fn file_text_survives_load_then_save() {
    let text = format!("{}Alice,1,2,3,4,5,6,7\nBob,0,0,0,0,0,0,10\n", HEADER);
    let orders = decode_orders(text.as_bytes()).unwrap();
    assert_eq!(orders.len(), 2);
    assert_eq!(encode_orders(&orders).unwrap(), text.as_bytes().to_vec());
}

#[test]
fn name_with_comma_is_quoted() {
    let text = encode_orders(&vec![order("a,b", [1; 7])]).unwrap();
    assert_eq!(
        String::from_utf8(text).unwrap(),
        format!("{}\"a,b\",1,1,1,1,1,1,1\n", HEADER)
    );
}

#[test]
fn empty_table_is_written_as_header() {
    assert_eq!(encode_orders(&Vec::new()).unwrap(), HEADER.as_bytes().to_vec());
    assert_eq!(decode_orders(b"").unwrap(), Vec::new());
    let loaded = decode_orders(HEADER.as_bytes()).unwrap();
    assert_eq!(loaded, Vec::new());
    assert_eq!(encode_orders(&loaded).unwrap(), HEADER.as_bytes().to_vec());
}

#[test]
fn deleting_last_row_keeps_header() {
    let text = format!("{}Alice,1,2,3,4,5,6,7\n", HEADER);
    let mut orders = decode_orders(text.as_bytes()).unwrap();
    assert!(delete_items(&mut orders, &"Alice".to_string()));
    assert_eq!(encode_orders(&orders).unwrap(), HEADER.as_bytes().to_vec());
}

#[test]
fn wrong_header_is_rejected() {
    let text = "name,mon,tuesday,wednesday,thursday,friday,saturday,sunday\nA,1,2,3,4,5,6,7\n";
    assert_eq!(decode_orders(text.as_bytes()), Err(StorageError::Header));
}

#[test]
fn bad_quantity_names_its_row() {
    let text = format!("{}A,1,2,3,4,5,6,7\nB,1,x,3,4,5,6,7\nC,1,2,3,4,5,6,oops\n", HEADER);
    assert_eq!(decode_orders(text.as_bytes()), Err(StorageError::Row(1)));
    let overflow = format!("{}A,2147483648,2,3,4,5,6,7\n", HEADER);
    assert_eq!(decode_orders(overflow.as_bytes()), Err(StorageError::Row(0)));
}

#[test]
fn ragged_or_invalid_text_is_a_csv_error() {
    let ragged = format!("{}A,1,2,3,4,5,6,7,8\n", HEADER);
    assert_eq!(decode_orders(ragged.as_bytes()), Err(StorageError::Csv));
    let mut bad = HEADER.as_bytes().to_vec();
    bad.extend_from_slice(&[0xff, 0xfe, b',', b'1', b'\n']);
    assert_eq!(decode_orders(&bad), Err(StorageError::Csv));
}

#[test]
fn quantities_are_written_in_decimal() {
    assert_eq!(decimal_string(0), "0");
    assert_eq!(decimal_string(42), "42");
    assert_eq!(decimal_string(-7), "-7");
    assert_eq!(decimal_string(i32::MAX), "2147483647");
    assert_eq!(decimal_string(i32::MIN), "-2147483648");
}

#[test]
fn quantities_are_read_as_i32() {
    assert_eq!(parse_quantity("9"), Some(9));
    assert_eq!(parse_quantity("+5"), Some(5));
    assert_eq!(parse_quantity("-12"), Some(-12));
    assert_eq!(parse_quantity("007"), Some(7));
    assert_eq!(parse_quantity("2147483647"), Some(i32::MAX));
    assert_eq!(parse_quantity("-2147483648"), Some(i32::MIN));
    assert_eq!(parse_quantity("2147483648"), None);
    assert_eq!(parse_quantity("99999999999"), None);
    assert_eq!(parse_quantity(""), None);
    assert_eq!(parse_quantity("-"), None);
    assert_eq!(parse_quantity("1a"), None);
    assert_eq!(parse_quantity(" 1"), None);
}

#[test]
fn edit_row_holds_inputs() {
    let o = order("Alice", [1, 2, 3, 4, 5, 6, 7]);
    let expected = "
        <tr hx-trigger=\"cancel\" hx-get=\"/order/Alice\">
            <td><input name=\"name\" value=\"Alice\"</td>
            <td><input name=\"monday\" value=\"1\"</td>
            <td><input name=\"tuesday\" value=\"2\"</td>
            <td><input name=\"wednesday\" value=\"3\"</td>
            <td><input name=\"thursday\" value=\"4\"</td>
            <td><input name=\"friday\" value=\"5\"</td>
            <td><input name=\"saturday\" value=\"6\"</td>
            <td><input name=\"sunday\" value=\"7\"</td>
            <td>
                <button hx-get=\"/order/Alice\">Cancel</button>
            </td>
            <td>
                <button hx-put=\"/order/Alice\" hx-include=\"closest tr\">Save</button>
            </td>
            ";
    assert_eq!(format_edit_order(&o), expected);
    let orders = vec![o];
    assert_eq!(edit_item(&orders, &"Alice".to_string()), expected);
    assert_eq!(edit_item(&orders, &"Bob".to_string()), EDIT_NOT_FOUND);
}

#[test]
fn rows_and_page_follow_table_order() {
    let a = order("A", [1; 7]);
    let b = order("B", [-3; 7]);
    assert_eq!(format_order(order("A", [1; 7])), expected_row(&a));
    let rows = create_table_rows(vec![order("A", [1; 7]), order("B", [-3; 7])]);
    assert_eq!(rows, format!("{}{}", expected_row(&a), expected_row(&b)));
    assert_eq!(create_table_rows(Vec::new()), "");
    let page = index(vec![a, b]);
    assert!(page.starts_with("<html>"));
    assert!(page.contains("<th>Monday</th>"));
    assert!(page.ends_with(&format!("{}</tbody></body></html>", rows)));
}
