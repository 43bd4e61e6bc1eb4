use vstd::prelude::*;

use crate::decimal::{decimal, decimal_string, parse_quantity, quantity_of};
use crate::order::{all_wf, views, Order, OrderView};

verus! {

/// Why the order table could not be loaded or saved.
#[derive(Debug, PartialEq, Eq, Structural)]
pub enum StorageError {
    /// The file could not be opened, read or written.
    Io,
    /// The text is not well-formed comma-separated data, or could not be written as such.
    Csv,
    /// The first record is not the fixed header.
    Header,
    /// The data row at this position (0 for the first one after the header) does
    /// not have eight fields, or one of its quantities is not an `i32`.
    Row(usize),
}

/// The values of records of text fields.
pub open spec fn rows_view(v: Seq<Vec<String>>) -> Seq<Seq<Seq<char>>> {
    v.map_values(|r: Vec<String>| r@.map_values(|f: String| f@))
}

/// The fields of the header record, in the order in which every row holds them.
pub open spec fn header_fields() -> Seq<Seq<char>> {
    seq![
        "name"@,
        "monday"@,
        "tuesday"@,
        "wednesday"@,
        "thursday"@,
        "friday"@,
        "saturday"@,
        "sunday"@,
    ]
}

/// The record that stores an order: its name, then its quantities in decimal.
pub open spec fn fields_of(o: OrderView) -> Seq<Seq<char>> {
    seq![o.name] + o.days.map_values(|q: i32| decimal(q as int))
}

/// The order a record stores, when it has eight fields and the last seven are
/// quantities.
pub open spec fn order_of_fields(f: Seq<Seq<char>>) -> Option<OrderView> {
    if f.len() == 8 && forall|k: int| 1 <= k < 8 ==> #[trigger] quantity_of(f[k]) is Some {
        Some(OrderView { name: f[0], days: Seq::new(7, |k: int| quantity_of(f[k + 1])->Some_0) })
    } else {
        None
    }
}

/// The records that store a table: the header, then one record per order, in
/// order.
pub open spec fn records_of(os: Seq<OrderView>) -> Seq<Seq<Seq<char>>> {
    seq![header_fields()] + os.map_values(|o: OrderView| fields_of(o))
}

/// The table that records store: empty for no records; else the first must
/// be the header and every later one must store an order.
pub open spec fn orders_of_records(recs: Seq<Seq<Seq<char>>>) -> Option<Seq<OrderView>> {
    if recs.len() == 0 {
        Some(Seq::empty())
    } else if recs[0] == header_fields() && forall|i: int|
        1 <= i < recs.len() ==> #[trigger] order_of_fields(recs[i]) is Some {
        Some(Seq::new((recs.len() - 1) as nat, |i: int| order_of_fields(recs[i + 1])->Some_0))
    } else {
        None
    }
}

/// `e` is the error that loading `recs` reports: a wrong header, or else the
/// first data row that stores no order.
pub open spec fn is_load_error(recs: Seq<Seq<Seq<char>>>, e: StorageError) -> bool {
    match e {
        StorageError::Header => recs.len() > 0 && recs[0] != header_fields(),
        StorageError::Row(i) => {
            &&& recs.len() > 0
            &&& recs[0] == header_fields()
            &&& i + 1 < recs.len()
            &&& order_of_fields(recs[i + 1]) is None
            &&& forall|j: int| 0 <= j < i ==> #[trigger] order_of_fields(recs[j + 1]) is Some
        },
        _ => false,
    }
}

/// `s` is a quantity written in its shortest form.
pub open spec fn canonical_quantity(s: Seq<char>) -> bool {
    match quantity_of(s) {
        Some(q) => decimal(q as int) == s,
        None => false,
    }
}

/// Every quantity in `recs` after the header is written in its shortest form.
pub open spec fn canonical_records(recs: Seq<Seq<Seq<char>>>) -> bool {
    forall|i: int, k: int|
        1 <= i < recs.len() && 1 <= k < recs[i].len() ==> canonical_quantity(#[trigger] recs[i][k])
}

/// What the csv crate reads from `text` (no header handling, default dialect).
pub uninterp spec fn csv_records_of(text: Seq<u8>) -> Option<Seq<Seq<Seq<char>>>>;

/// What the csv crate writes for `records` (default dialect).
pub uninterp spec fn csv_text_of(records: Seq<Seq<Seq<char>>>) -> Option<Seq<u8>>;

/// Relies on `csv::ReaderBuilder` with `has_headers(false)` and
/// `csv::Reader::records`: splits comma-separated text into records of fields,
/// or fails; the outcome depends on the text alone.
#[verifier::external_body]
fn read_csv_records(text: &[u8]) -> (r: Option<Vec<Vec<String>>>)
    ensures
        match r {
            Some(v) => csv_records_of(text@) == Some(rows_view(v@)),
            None => csv_records_of(text@) is None,
        },
{
    let mut reader = csv::ReaderBuilder::new().has_headers(false).from_reader(text);
    let mut rows = Vec::new();
    for record in reader.records() {
        let record = record.ok()?;
        rows.push(record.iter().map(String::from).collect());
    }
    Some(rows)
}

/// Relies on `csv::Writer::write_record` and `csv::Writer::into_inner`, writing
/// into memory: joins records of fields into comma-separated text, or fails;
/// the outcome depends on the records alone.
#[verifier::external_body]
fn write_csv_records(records: &Vec<Vec<String>>) -> (r: Option<Vec<u8>>)
    ensures
        match r {
            Some(b) => csv_text_of(rows_view(records@)) == Some(b@),
            None => csv_text_of(rows_view(records@)) is None,
        },
{
    let mut writer = csv::Writer::from_writer(Vec::new());
    for record in records {
        writer.write_record(record).ok()?;
    }
    writer.into_inner().ok()
}

/// The header record.
pub fn header_record() -> (r: Vec<String>)
    ensures
        r@.map_values(|f: String| f@) == header_fields(),
{
    let r = vec![
        String::from_str("name"),
        String::from_str("monday"),
        String::from_str("tuesday"),
        String::from_str("wednesday"),
        String::from_str("thursday"),
        String::from_str("friday"),
        String::from_str("saturday"),
        String::from_str("sunday"),
    ];
    assert(r@.map_values(|f: String| f@) =~= header_fields());
    r
}

/// The record that stores `order`.
pub fn order_fields(order: &Order) -> (r: Vec<String>)
    ensures
        r@.map_values(|f: String| f@) == fields_of(order@),
{
    let r = vec![
        order.name.clone(),
        decimal_string(order.monday),
        decimal_string(order.tuesday),
        decimal_string(order.wednesday),
        decimal_string(order.thursday),
        decimal_string(order.friday),
        decimal_string(order.saturday),
        decimal_string(order.sunday),
    ];
    assert(r@.map_values(|f: String| f@) =~= fields_of(order@));
    r
}

/// The order that a record stores, or `None` when it has not eight fields or a
/// quantity is not an `i32`.
pub fn order_from_fields(fields: &Vec<String>) -> (r: Option<Order>)
    ensures
        match r {
            Some(o) => order_of_fields(fields@.map_values(|f: String| f@)) == Some(o@),
            None => order_of_fields(fields@.map_values(|f: String| f@)) is None,
        },
{
    let ghost f = fields@.map_values(|f: String| f@);
    if fields.len() != 8 {
        return None;
    }
    let q1 = parse_quantity(fields[1].as_str());
    let q2 = parse_quantity(fields[2].as_str());
    let q3 = parse_quantity(fields[3].as_str());
    let q4 = parse_quantity(fields[4].as_str());
    let q5 = parse_quantity(fields[5].as_str());
    let q6 = parse_quantity(fields[6].as_str());
    let q7 = parse_quantity(fields[7].as_str());
    assert(forall|k: int| 0 <= k < 8 ==> #[trigger] f[k] == fields@[k]@);
    match (q1, q2, q3, q4, q5, q6, q7) {
        (Some(monday), Some(tuesday), Some(wednesday), Some(thursday), Some(friday), Some(saturday), Some(sunday)) => {
            let o = Order {
                name: fields[0].clone(),
                monday,
                tuesday,
                wednesday,
                thursday,
                friday,
                saturday,
                sunday,
            };
            assert(forall|k: int| 1 <= k < 8 ==> #[trigger] quantity_of(f[k]) is Some);
            assert(o@.days =~= Seq::new(7, |k: int| quantity_of(f[k + 1])->Some_0));
            Some(o)
        },
        _ => {
            proof {
                if q1 is None {
                    assert(quantity_of(f[1]) is None);
                } else if q2 is None {
                    assert(quantity_of(f[2]) is None);
                } else if q3 is None {
                    assert(quantity_of(f[3]) is None);
                } else if q4 is None {
                    assert(quantity_of(f[4]) is None);
                } else if q5 is None {
                    assert(quantity_of(f[5]) is None);
                } else if q6 is None {
                    assert(quantity_of(f[6]) is None);
                } else {
                    assert(quantity_of(f[7]) is None);
                }
            }
            None
        },
    }
}

/// The records that store `orders`: the header, then one record per order.
pub fn records_from_orders(orders: &Vec<Order>) -> (r: Vec<Vec<String>>)
    ensures
        rows_view(r@) == records_of(views(orders@)),
{
    let mut r: Vec<Vec<String>> = Vec::new();
    r.push(header_record());
    assert(orders@.subrange(0, 0) =~= Seq::<Order>::empty());
    assert(rows_view(r@) =~= seq![header_fields()] + views(orders@.subrange(0, 0)).map_values(
        |o: OrderView| fields_of(o),
    ));
    let mut i: usize = 0;
    while i < orders.len()
        invariant
            0 <= i <= orders@.len(),
            rows_view(r@) == seq![header_fields()] + views(orders@.subrange(0, i as int)).map_values(
                |o: OrderView| fields_of(o),
            ),
        decreases orders@.len() - i,
    {
        let fields = order_fields(&orders[i]);
        let ghost before = r@;
        r.push(fields);
        proof {
            assert(orders@.subrange(0, i + 1) =~= orders@.subrange(0, i as int).push(orders@[i as int]));
            assert(rows_view(r@) =~= rows_view(before).push(fields_of(orders@[i as int]@)));
            assert(views(orders@.subrange(0, i + 1)).map_values(|o: OrderView| fields_of(o))
                =~= views(orders@.subrange(0, i as int)).map_values(|o: OrderView| fields_of(o)).push(
                fields_of(orders@[i as int]@),
            ));
        }
        i = i + 1;
    }
    assert(orders@.subrange(0, i as int) =~= orders@);
    assert(rows_view(r@) =~= records_of(views(orders@)));
    r
}

/// The orders that `records` store, in order, or the error that loading them
/// reports.
pub fn orders_from_records(records: &Vec<Vec<String>>) -> (r: Result<Vec<Order>, StorageError>)
    ensures
        match r {
            Ok(v) => orders_of_records(rows_view(records@)) == Some(views(v@)),
            Err(e) => {
                &&& orders_of_records(rows_view(records@)) is None
                &&& is_load_error(rows_view(records@), e)
            },
        },
{
    let ghost recs = rows_view(records@);
    let mut v: Vec<Order> = Vec::new();
    if records.len() == 0 {
        assert(views(v@) =~= Seq::<OrderView>::empty());
        return Ok(v);
    }
    let header = header_record();
    if !same_fields(&records[0], &header) {
        return Err(StorageError::Header);
    }
    let mut i: usize = 1;
    while i < records.len()
        invariant
            1 <= i <= records@.len(),
            recs == rows_view(records@),
            recs[0] == header_fields(),
            v@.len() == i - 1,
            forall|j: int| 1 <= j < i ==> #[trigger] order_of_fields(recs[j]) is Some,
            forall|j: int| 0 <= j < i - 1 ==> order_of_fields(recs[j + 1]) == Some(#[trigger] v@[j]@),
        decreases records@.len() - i,
    {
        match order_from_fields(&records[i]) {
            Some(o) => {
                v.push(o);
            },
            None => {
                assert(forall|j: int| 0 <= j < i - 1 ==> #[trigger] order_of_fields(recs[j + 1]) is Some);
                assert(is_load_error(recs, StorageError::Row((i - 1) as usize)));
                return Err(StorageError::Row(i - 1));
            },
        }
        i = i + 1;
    }
    assert(views(v@) =~= Seq::new((recs.len() - 1) as nat, |j: int| order_of_fields(recs[j + 1])->Some_0));
    Ok(v)
}

/// Whether two records hold the same fields.
pub fn same_fields(a: &Vec<String>, b: &Vec<String>) -> (r: bool)
    ensures
        r == (a@.map_values(|f: String| f@) == b@.map_values(|f: String| f@)),
{
    if a.len() != b.len() {
        proof {
            if a@.map_values(|f: String| f@) == b@.map_values(|f: String| f@) {
                assert(a@.map_values(|f: String| f@).len() == a@.len());
            }
        }
        return false;
    }
    let mut i: usize = 0;
    while i < a.len()
        invariant
            i <= a@.len(),
            a@.len() == b@.len(),
            forall|j: int| 0 <= j < i ==> #[trigger] a@[j]@ == b@[j]@,
        decreases a@.len() - i,
    {
        if a[i] != b[i] {
            assert(a@.map_values(|f: String| f@)[i as int] != b@.map_values(|f: String| f@)[i as int]);
            return false;
        }
        i = i + 1;
    }
    assert(a@.map_values(|f: String| f@) =~= b@.map_values(|f: String| f@));
    true
}

/// The text of the file that stores `orders`.
pub fn encode_orders(orders: &Vec<Order>) -> (r: Result<Vec<u8>, StorageError>)
    ensures
        match r {
            Ok(b) => csv_text_of(records_of(views(orders@))) == Some(b@),
            Err(e) => e == StorageError::Csv && csv_text_of(records_of(views(orders@))) is None,
        },
{
    let records = records_from_orders(orders);
    match write_csv_records(&records) {
        Some(b) => Ok(b),
        None => Err(StorageError::Csv),
    }
}

/// The orders that the file text `text` stores, or why it stores none.
pub fn decode_orders(text: &[u8]) -> (r: Result<Vec<Order>, StorageError>)
    ensures
        match csv_records_of(text@) {
            None => r == Err::<Vec<Order>, StorageError>(StorageError::Csv),
            Some(recs) => match r {
                Ok(v) => orders_of_records(recs) == Some(views(v@)),
                Err(e) => orders_of_records(recs) is None && is_load_error(recs, e),
            },
        },
{
    match read_csv_records(text) {
        Some(records) => orders_from_records(&records),
        None => Err(StorageError::Csv),
    }
}

proof fn lemma_fields_round_trip(o: OrderView)
    requires
        o.wf(),
    ensures
        order_of_fields(fields_of(o)) == Some(o),
        forall|k: int| 1 <= k < 8 ==> canonical_quantity(#[trigger] fields_of(o)[k]),
{
    let f = fields_of(o);
    assert forall|k: int| 1 <= k < 8 implies #[trigger] quantity_of(f[k]) == Some(o.days[k - 1]) by {
        assert(f[k] == decimal(o.days[k - 1] as int));
        crate::decimal::lemma_quantity_round_trip(o.days[k - 1]);
    }
    assert(forall|k: int| 1 <= k < 8 ==> #[trigger] quantity_of(f[k]) is Some);
    let back = order_of_fields(f)->Some_0;
    assert(back.days =~= o.days);
    assert(back.name == o.name);
}

/// Storing a table and reading it back gives the same orders: nothing is lost
/// between an order and its record.
pub proof fn lemma_records_round_trip(os: Seq<OrderView>)
    requires
        all_wf(os),
    ensures
        orders_of_records(records_of(os)) == Some(os),
        canonical_records(records_of(os)),
{
    let recs = records_of(os);
    assert forall|i: int| 1 <= i < recs.len() implies #[trigger] order_of_fields(recs[i]) == Some(os[i - 1]) by {
        assert(recs[i] == fields_of(os[i - 1]));
        assert(os[i - 1].wf());
        lemma_fields_round_trip(os[i - 1]);
    }
    assert(forall|i: int| 1 <= i < recs.len() ==> #[trigger] order_of_fields(recs[i]) is Some);
    assert(Seq::new((recs.len() - 1) as nat, |i: int| order_of_fields(recs[i + 1])->Some_0) =~= os);
    assert forall|i: int, k: int| 1 <= i < recs.len() && 1 <= k < recs[i].len() implies canonical_quantity(#[trigger] recs[i][k]) by {
        assert(recs[i] == fields_of(os[i - 1]));
        assert(os[i - 1].wf());
        lemma_fields_round_trip(os[i - 1]);
    }
}

/// Storing the orders that records hold writes those records again, where every
/// quantity was written in its shortest form and there is at least the header
/// (no records at all load as an empty table, which is stored as the header).
pub proof fn lemma_reload_stable(recs: Seq<Seq<Seq<char>>>)
    requires
        orders_of_records(recs) is Some,
        canonical_records(recs),
        recs.len() > 0,
    ensures
        records_of(orders_of_records(recs)->Some_0) == recs,
{
    let os = orders_of_records(recs)->Some_0;
    let again = records_of(os);
    assert forall|i: int| 1 <= i < recs.len() implies #[trigger] fields_of(os[i - 1]) == recs[i] by {
        let f = recs[i];
        assert(order_of_fields(f) is Some);
        let o = os[i - 1];
        assert(o == order_of_fields(recs[(i - 1) + 1])->Some_0);
        assert forall|k: int| 0 <= k < 8 implies #[trigger] fields_of(o)[k] == f[k] by {
            if k > 0 {
                assert(canonical_quantity(recs[i][k]));
            }
        }
        assert(fields_of(o) =~= f);
    }
    assert(again.len() == recs.len());
    assert forall|i: int| 0 <= i < recs.len() implies #[trigger] again[i] == recs[i] by {
        if i > 0 {
            assert(again[i] == fields_of(os[i - 1]));
        }
    }
    assert(again =~= recs);
}

/// Saving what was loaded leaves the file's text as it was, where the csv
/// crate writes the records back as the text held them, every quantity was
/// written in its shortest form, and the file holds at least the header.
pub proof fn lemma_save_after_load(text: Seq<u8>)
    requires
        csv_records_of(text) matches Some(recs) && orders_of_records(recs) is Some
            && canonical_records(recs) && recs.len() > 0 && csv_text_of(recs) == Some(text),
    ensures
        csv_text_of(records_of(orders_of_records(csv_records_of(text)->Some_0)->Some_0)) == Some(
            text,
        ),
{
    lemma_reload_stable(csv_records_of(text)->Some_0);
}

} // verus!
