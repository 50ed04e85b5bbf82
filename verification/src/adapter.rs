//! How the Bluetooth controllers are shared.
//!
//! The link to the car and the link to a phone share one controller on most
//! boards, and then they contend for it. The controllers come from the kernel's
//! list; no index is taken for granted.

use vstd::prelude::*;
use vstd::string::*;

use crate::board;
use crate::order;
use crate::text;

verus! {

/// Where the kernel lists the controllers that are present.
pub const SYS_BLUETOOTH_ROOT: &'static str = "/sys/class/bluetooth";

/// How the link to the car and the links to phones use the controllers.
pub trait RadioTopology: Send + Sync {
    /// The controller of the link to the car.
    spec fn car(&self) -> Seq<char>;

    /// The controller of the links to phones.
    spec fn phone(&self) -> Seq<char>;

    /// The two contend for one controller.
    spec fn contends(&self) -> bool;

    /// Name of the controller that the link to the car uses, such as `hci0`.
    fn car_adapter(&self) -> (res: &str)
        ensures
            res@ == self.car(),
    ;

    /// Name of the controller that links to phones use.
    fn phone_adapter(&self) -> (res: &str)
        ensures
            res@ == self.phone(),
    ;

    /// Whether a phone has to be given the car's controller, for a while.
    fn phone_contends_with_car(&self) -> (res: bool)
        ensures
            res == self.contends(),
    ;
}

/// One controller for the car and for phones.
#[derive(Debug, Clone)]
pub struct SingleRadio {
    adapter: String,
}

impl SingleRadio {
    /// Share one controller.
    pub fn new(adapter: &str) -> (res: SingleRadio)
        ensures
            res.car() == adapter@,
            res.phone() == adapter@,
            res.contends(),
    {
        SingleRadio { adapter: adapter.to_owned() }
    }
}

impl RadioTopology for SingleRadio {
    closed spec fn car(&self) -> Seq<char> {
        self.adapter@
    }

    closed spec fn phone(&self) -> Seq<char> {
        self.adapter@
    }

    open spec fn contends(&self) -> bool {
        true
    }

    fn car_adapter(&self) -> &str {
        self.adapter.as_str()
    }

    fn phone_adapter(&self) -> &str {
        self.adapter.as_str()
    }

    fn phone_contends_with_car(&self) -> bool {
        true
    }
}

/// One controller for the car and another one for phones. Detection does not
/// choose this topology: that both work side by side is not validated.
#[derive(Debug, Clone)]
pub struct DualRadio {
    car: String,
    phone: String,
}

impl DualRadio {
    /// Use separate controllers.
    pub fn new(car: &str, phone: &str) -> (res: DualRadio)
        ensures
            res.car() == car@,
            res.phone() == phone@,
            !res.contends(),
    {
        DualRadio { car: car.to_owned(), phone: phone.to_owned() }
    }
}

impl RadioTopology for DualRadio {
    closed spec fn car(&self) -> Seq<char> {
        self.car@
    }

    closed spec fn phone(&self) -> Seq<char> {
        self.phone@
    }

    open spec fn contends(&self) -> bool {
        false
    }

    fn car_adapter(&self) -> &str {
        self.car.as_str()
    }

    fn phone_adapter(&self) -> &str {
        self.phone.as_str()
    }

    fn phone_contends_with_car(&self) -> bool {
        false
    }
}

/// The names of controllers among the entries of a listing.
pub open spec fn controllers(entries: Seq<Seq<char>>) -> Seq<Seq<char>>
    decreases entries.len(),
{
    if entries.len() == 0 {
        Seq::empty()
    } else {
        let before = controllers(entries.drop_last());
        if text::begins_with(entries.last(), "hci"@) {
            before.push(entries.last())
        } else {
            before
        }
    }
}

/// The controllers that a listing of [`SYS_BLUETOOTH_ROOT`] shows, sorted.
pub open spec fn present_controllers(entries: Option<&Vec<String>>) -> Seq<Seq<char>> {
    match entries {
        Some(names) => order::sorted(controllers(text::views(names@))),
        None => Seq::empty(),
    }
}

/// The controllers that are present, sorted by name; none where the list could
/// not be read.
pub fn list_adapters(entries: Option<&Vec<String>>) -> (res: Vec<String>)
    ensures
        text::views(res@) == present_controllers(entries),
{
    let names = match entries {
        Some(names) => names,
        None => {
            let none: Vec<String> = Vec::new();
            assert(text::views(none@) =~= Seq::empty());
            return none;
        },
    };
    let ghost all = text::views(names@);
    let mut found: Vec<String> = Vec::new();
    let mut i: usize = 0;
    assert(text::views(found@) =~= controllers(all.take(0)));
    while i < names.len()
        invariant
            i <= names.len(),
            all == text::views(names@),
            text::views(found@) == controllers(all.take(i as int)),
        decreases names.len() - i,
    {
        let ghost before = text::views(found@);
        assert(all.take(i + 1).drop_last() =~= all.take(i as int));
        if text::has_prefix(&names[i], "hci") {
            found.push(names[i].clone());
            assert(text::views(found@) =~= before.push(all[i as int]));
        }
        i += 1;
    }
    assert(all.take(i as int) =~= all);
    order::sort_names(&found)
}

/// The controller for the car: the configured one where it is present, else the
/// first one that is, else `hci0`.
pub open spec fn car_choice(present: Seq<Seq<char>>, configured: Option<Seq<char>>) -> Seq<char> {
    match configured {
        Some(c) if present.contains(c) => c,
        _ => if present.len() > 0 {
            present[0]
        } else {
            "hci0"@
        },
    }
}

/// The car and phones share the controller that is chosen for the car.
pub open spec fn shares(
    radio: SingleRadio,
    present: Seq<Seq<char>>,
    configured: Option<Seq<char>>,
) -> bool {
    &&& radio.car() == car_choice(present, configured)
    &&& radio.phone() == radio.car()
    &&& radio.contends()
}

/// Decide the topology from the controllers that are present and the
/// configured one.
pub fn topology_from_adapters(present: &[String], configured: Option<&str>) -> (res: SingleRadio)
    ensures
        shares(res, text::views(present@), board::opt_str_view(configured)),
{
    let ghost all = text::views(present@);
    match configured {
        Some(c) => {
            let mut i: usize = 0;
            while i < present.len()
                invariant
                    i <= present.len(),
                    all == text::views(present@),
                    configured == Some(c),
                    forall|j: int| 0 <= j < i ==> #[trigger] all[j] != c@,
                decreases present.len() - i,
            {
                if text::same_text(&present[i], c) {
                    assert(all[i as int] == c@);
                    return SingleRadio::new(c);
                }
                i += 1;
            }
            assert(!all.contains(c@));
        },
        None => {},
    }
    if present.len() > 0 {
        assert(all[0] == present@[0]@);
        SingleRadio::new(&present[0])
    } else {
        SingleRadio::new("hci0")
    }
}

/// Detect the topology from the entries of [`SYS_BLUETOOTH_ROOT`] and the
/// configured controller.
pub fn detect_topology(entries: Option<&Vec<String>>, configured: Option<&str>) -> (res:
    SingleRadio)
    ensures
        shares(res, present_controllers(entries), board::opt_str_view(configured)),
{
    let present = list_adapters(entries);
    topology_from_adapters(present.as_slice(), configured)
}

// ---------------------------------------------------------------------------
// Laws
// ---------------------------------------------------------------------------

/// Where any controller is present, the car's controller is a present one; the
/// default is for when the kernel lists none.
pub proof fn law_car_controller_is_present(
    present: Seq<Seq<char>>,
    configured: Option<Seq<char>>,
)
    ensures
        present.len() > 0 ==> present.contains(car_choice(present, configured)),
        present.len() == 0 ==> car_choice(present, configured) == "hci0"@,
{
    if present.len() > 0 {
        assert(present.contains(present[0]));
    }
}

/// The name is that of a controller.
pub open spec fn is_controller() -> spec_fn(Seq<char>) -> bool {
    |name: Seq<char>| text::begins_with(name, "hci"@)
}

proof fn lemma_controllers_of_multiset(entries: Seq<Seq<char>>)
    ensures
        controllers(entries).to_multiset() == entries.to_multiset().filter(is_controller()),
    decreases entries.len(),
{
    broadcast use vstd::multiset::group_multiset_axioms;
    broadcast use vstd::seq_lib::group_to_multiset_ensures;

    if entries.len() == 0 {
        assert(controllers(entries).to_multiset() =~= entries.to_multiset().filter(
            is_controller(),
        ));
    } else {
        let before = entries.drop_last();
        let last = entries.last();
        lemma_controllers_of_multiset(before);
        assert(entries =~= before.push(last));
        assert(controllers(entries).to_multiset() =~= entries.to_multiset().filter(
            is_controller(),
        ));
    }
}

/// Two listings of the same entries give the same controllers, whatever order
/// the kernel listed them in.
pub proof fn law_listing_order_does_not_matter(a: Seq<Seq<char>>, b: Seq<Seq<char>>)
    requires
        a.to_multiset() == b.to_multiset(),
    ensures
        order::sorted(controllers(a)) == order::sorted(controllers(b)),
{
    lemma_controllers_of_multiset(a);
    lemma_controllers_of_multiset(b);
    order::lemma_sorted_ignores_arrival_order(controllers(a), controllers(b));
}

proof fn lemma_controllers_are_listed(entries: Seq<Seq<char>>, name: Seq<char>)
    ensures
        controllers(entries).contains(name) <==> entries.contains(name) && text::begins_with(
            name,
            "hci"@,
        ),
    decreases entries.len(),
{
    if entries.len() > 0 {
        let (front, last) = (entries.drop_last(), entries.last());
        let (before, all) = (controllers(front), controllers(entries));
        lemma_controllers_are_listed(front, name);
        if all.contains(name) {
            let i = choose|i: int| 0 <= i < all.len() && all[i] == name;
            if i < before.len() {
                assert(before[i] == name);
                let j = choose|j: int| 0 <= j < front.len() && front[j] == name;
                assert(entries[j] == name);
            } else {
                assert(entries[entries.len() - 1] == name);
            }
        }
        if entries.contains(name) && text::begins_with(name, "hci"@) {
            let j = choose|j: int| 0 <= j < entries.len() && entries[j] == name;
            if j < front.len() {
                assert(front[j] == name);
                let i = choose|i: int| 0 <= i < before.len() && before[i] == name;
                assert(all[i] == name);
            } else {
                assert(all.last() == name);
            }
        }
    }
}

/// The controllers that are present are the listed entries whose names begin
/// with `hci`, each as often as it is listed, in the order of their names.
pub proof fn law_present_controllers_are_listed(
    entries: Seq<Seq<char>>,
    name: Seq<char>,
    i: int,
    j: int,
)
    ensures
        ({
            let present = order::sorted(controllers(entries));
            &&& present.contains(name) <==> entries.contains(name) && text::begins_with(
                name,
                "hci"@,
            )
            &&& present.to_multiset().count(name) == (if text::begins_with(name, "hci"@) {
                entries.to_multiset().count(name)
            } else {
                0
            })
            &&& 0 <= i <= j < present.len() ==> order::lex_le(present[i], present[j])
        }),
{
    broadcast use vstd::multiset::group_multiset_axioms;

    let found = controllers(entries);
    lemma_controllers_are_listed(entries, name);
    lemma_controllers_of_multiset(entries);
    order::lemma_sorted_members(found, name);
    order::law_sorting_orders_and_keeps(found, i, j);
}

/// Detection gives the car the configured controller where it is a listed one;
/// else the listed controller whose name comes first; and `hci0` where no
/// controller is listed. What is listed beside controllers does not matter.
pub proof fn law_car_gets_the_configured_or_first(
    entries: &Vec<String>,
    configured: Option<Seq<char>>,
    other: Seq<char>,
)
    ensures
        ({
            let listed = text::views(entries@);
            let is_listed = |n: Seq<char>| listed.contains(n) && text::begins_with(n, "hci"@);
            let car = car_choice(present_controllers(Some(entries)), configured);
            &&& configured matches Some(c) ==> (is_listed(c) ==> car == c)
            &&& !(configured matches Some(c) && is_listed(c)) ==> (is_listed(other) ==> is_listed(
                car,
            ) && order::lex_le(car, other))
            &&& (forall|n: Seq<char>| !#[trigger] is_listed(n)) ==> car == "hci0"@
        }),
        car_choice(present_controllers(None), configured) == "hci0"@,
{
    let listed = text::views(entries@);
    let present = present_controllers(Some(entries));
    let found = controllers(listed);
    let is_listed = |n: Seq<char>| listed.contains(n) && text::begins_with(n, "hci"@);
    assert forall|n: Seq<char>| present.contains(n) == #[trigger] is_listed(n) by {
        lemma_controllers_are_listed(listed, n);
        order::lemma_sorted_members(found, n);
    }
    match configured {
        Some(c) => {
            assert(present.contains(c) == is_listed(c));
        },
        None => {},
    }
    assert(present.contains(other) == is_listed(other));
    if is_listed(other) {
        let k = choose|k: int| 0 <= k < present.len() && present[k] == other;
        order::law_sorting_orders_and_keeps(found, 0, k);
        assert(present.contains(present[0]));
        assert(present.contains(present[0]) == is_listed(present[0]));
    }
    if forall|n: Seq<char>| !#[trigger] is_listed(n) {
        if present.len() > 0 {
            assert(present.contains(present[0]));
            assert(present.contains(present[0]) == is_listed(present[0]));
        }
    }
}

/// One controller for both means contention, and the same name for both; two
/// controllers mean none.
pub proof fn law_shared_controllers_contend(single: SingleRadio, dual: DualRadio)
    ensures
        single.car() == single.phone(),
        single.contends(),
        !dual.contends(),
{
}

/// Where the kernel lists the controllers.
pub proof fn law_controllers_come_from_the_kernel()
    ensures
        SYS_BLUETOOTH_ROOT@ == "/sys/class/bluetooth"@,
{
}

/// A detected topology is one shared controller: the car's choice is the
/// phone's, and the two contend.
pub proof fn law_detected_controllers_are_shared(
    radio: SingleRadio,
    present: Seq<Seq<char>>,
    configured: Option<Seq<char>>,
)
    requires
        shares(radio, present, configured),
    ensures
        radio.car() == car_choice(present, configured),
        radio.phone() == car_choice(present, configured),
        radio.contends(),
{
}

} // verus!
