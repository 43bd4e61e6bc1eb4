use vstd::prelude::*;

verus! {

/// One named row of seven day-keyed quantities.
#[derive(Debug, PartialEq, Eq)]
pub struct Order {
    pub name: String,
    pub monday: i32,
    pub tuesday: i32,
    pub wednesday: i32,
    pub thursday: i32,
    pub friday: i32,
    pub saturday: i32,
    pub sunday: i32,
}

/// The mathematical value of an `Order`: its name and its seven quantities,
/// Monday first.
pub struct OrderView {
    pub name: Seq<char>,
    pub days: Seq<i32>,
}

impl OrderView {
    pub open spec fn wf(self) -> bool {
        self.days.len() == 7
    }
}

impl View for Order {
    type V = OrderView;

    open spec fn view(&self) -> OrderView {
        OrderView {
            name: self.name@,
            days: seq![
                self.monday,
                self.tuesday,
                self.wednesday,
                self.thursday,
                self.friday,
                self.saturday,
                self.sunday,
            ],
        }
    }
}

/// The values of a sequence of orders, in the same order.
pub open spec fn views(s: Seq<Order>) -> Seq<OrderView> {
    s.map_values(|o: Order| o@)
}

pub open spec fn all_wf(s: Seq<OrderView>) -> bool {
    forall|i: int| 0 <= i < s.len() ==> #[trigger] s[i].wf()
}

impl Order {
    /// The value of the placeholder row.
    pub open spec fn placeholder_view() -> OrderView {
        OrderView { name: "Placeholder"@, days: seq![0i32, 0i32, 0i32, 0i32, 0i32, 0i32, 0i32] }
    }

    /// The row that "add row" inserts: named `Placeholder`, every quantity zero.
    pub fn placeholder() -> (r: Order)
        ensures
            r@ == Order::placeholder_view(),
    {
        Order {
            name: String::from_str("Placeholder"),
            monday: 0,
            tuesday: 0,
            wednesday: 0,
            thursday: 0,
            friday: 0,
            saturday: 0,
            sunday: 0,
        }
    }

    /// A copy of this order with the same name and quantities.
    pub fn duplicate(&self) -> (r: Order)
        ensures
            r == *self,
    {
        Order {
            name: self.name.clone(),
            monday: self.monday,
            tuesday: self.tuesday,
            wednesday: self.wednesday,
            thursday: self.thursday,
            friday: self.friday,
            saturday: self.saturday,
            sunday: self.sunday,
        }
    }
}

} // verus!
