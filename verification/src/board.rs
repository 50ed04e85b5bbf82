//! Per-board USB gadget hardware abstraction.
//!
//! A gadget is brought up with a handful of constants that differ between
//! boards: the current it may draw, the kernel modules it needs, how long the
//! LUN files take to settle, which controller to bind. [`GadgetBoard`] gathers
//! them. [`GenericBoard`] carries the conservative values that suit a sole
//! `dwc2` controller, so a board that nobody has measured is never worse off;
//! Rockchip boards, which can list a `dwc3` peripheral controller next to an
//! `xhci` host controller, override the ones that are wrong for them.
//!
//! Nothing here touches `/sys` or `/proc`: callers hand in what they read.

use vstd::prelude::*;
use vstd::string::*;

use crate::order;
use crate::text;

verus! {

/// Where the device tree keeps the board's model name.
pub const MODEL_PATH: &'static str = "/sys/firmware/devicetree/base/model";

/// Where the kernel lists the USB device controllers.
pub const UDC_DIR: &'static str = "/sys/class/udc";

/// The driver family behind a USB device controller.
#[derive(Debug, Clone, Copy, PartialEq, Eq, Structural)]
pub enum UdcFamily {
    /// Synopsys DesignWare USB 2.0 OTG: Raspberry Pi.
    Dwc2,
    /// Synopsys DesignWare USB 3.x: Rockchip and friends.
    Dwc3,
    /// Anything else, or undetectable.
    Other,
}

/// The text after the first `driver=` that begins a line, or nothing.
pub open spec fn driver_among(lines: Seq<Seq<char>>) -> Seq<char>
    decreases lines.len(),
{
    if lines.len() == 0 {
        Seq::empty()
    } else if text::begins_with(lines[0], "driver="@) {
        lines[0].skip("driver="@.len() as int)
    } else {
        driver_among(lines.skip(1))
    }
}

/// The family that a controller's `uevent` file tells.
pub open spec fn family_of_uevent(uevent: Seq<char>) -> UdcFamily {
    let driver = driver_among(text::lines(text::lower(uevent)));
    if text::contains_text(driver, "dwc3"@) {
        UdcFamily::Dwc3
    } else if text::contains_text(driver, "dwc2"@) {
        UdcFamily::Dwc2
    } else {
        UdcFamily::Other
    }
}

impl UdcFamily {
    /// Classify a controller by the `DRIVER=` line of its `uevent` file. The
    /// match is by substring and ignores case, so `dwc3-rockchip` resolves too.
    pub fn from_uevent_contents(uevent: &str) -> (res: UdcFamily)
        ensures
            res == family_of_uevent(uevent@),
    {
        let lower = text::to_lower(uevent);
        let lines = text::lines_of(&lower);
        let ghost all = text::views(lines@);
        let mut driver = String::new();
        let mut found = false;
        let mut i: usize = 0;
        assert(all.skip(0) =~= all);
        assert(driver@ =~= Seq::<char>::empty());
        while i < lines.len() && !found
            invariant
                i <= lines.len(),
                all == text::views(lines@),
                found ==> driver@ == driver_among(all),
                !found ==> driver@ == Seq::<char>::empty() && driver_among(all.skip(i as int))
                    == driver_among(all),
            decreases lines.len() - i,
        {
            let prefix = "driver=";
            assert(all.skip(i as int)[0] == lines@[i as int]@);
            assert(all.skip(i as int).skip(1) =~= all.skip(i + 1));
            if text::has_prefix(&lines[i], prefix) {
                let v = text::chars_of(&lines[i]);
                let n = text::chars_of(prefix).len();
                driver = text::string_of(&v, n, v.len());
                assert(driver@ =~= lines@[i as int]@.skip(prefix@.len() as int));
                found = true;
            }
            i += 1;
        }
        assert(all.skip(all.len() as int).len() == 0);
        if text::contains(&driver, "dwc3") {
            UdcFamily::Dwc3
        } else if text::contains(&driver, "dwc2") {
            UdcFamily::Dwc2
        } else {
            UdcFamily::Other
        }
    }
}

// ---------------------------------------------------------------------------
// Board identity
// ---------------------------------------------------------------------------

/// Identifying facts about the running board. Never guesses: every field is
/// what was read, with an empty model or [`UdcFamily::Other`] for "unknown".
#[derive(Debug, Clone, PartialEq, Eq)]
pub struct BoardId {
    /// Device-tree `model` string, without NULs and outer white space.
    pub model: String,
    /// Predominant driver family over all controllers.
    pub udc_family: UdcFamily,
}

/// The model name in what the device-tree file holds: NULs and outer white
/// space are padding.
pub open spec fn model_name(raw: Seq<char>) -> Seq<char> {
    text::trim(text::without(raw, '\0'))
}

/// The path of a controller's `uevent` file.
pub open spec fn uevent_path(dir: Seq<char>, name: Seq<char>) -> Seq<char> {
    text::path_below(text::path_below(dir, name), "uevent"@)
}

/// `read`, asked for the file at `path`, may answer `answer`.
pub open spec fn may_read<R: Fn(&str) -> Option<String>>(
    read: R,
    path: Seq<char>,
    answer: Option<String>,
) -> bool {
    exists|p: &str| p@ == path && #[trigger] call_ensures(read, (p,), answer)
}

/// The path is that of the `uevent` file of one of the controllers `names`.
pub open spec fn is_uevent(dir: Seq<char>, names: Seq<Seq<char>>, path: Seq<char>) -> bool {
    exists|i: int| 0 <= i < names.len() && path == uevent_path(dir, #[trigger] names[i])
}

/// The files that detection looks at: the model, and the `uevent` files of the
/// listed controllers.
pub open spec fn looked_at(entries: Seq<Seq<char>>, path: Seq<char>) -> bool {
    path == MODEL_PATH@ || is_uevent(UDC_DIR@, entries, path)
}

/// `read` can be asked for every file that detection looks at.
pub open spec fn reads_device<R: Fn(&str) -> Option<String>>(
    read: R,
    entries: Seq<Seq<char>>,
) -> bool {
    forall|p: &str| looked_at(entries, p@) ==> #[trigger] call_requires(read, (p,))
}

/// The family that one answered read tells; an unreadable file tells nothing.
pub open spec fn family_of_answer(answer: Option<String>) -> UdcFamily {
    match answer {
        Some(contents) => family_of_uevent(contents@),
        None => UdcFamily::Other,
    }
}

/// The predominant family: `dwc3` wins over `dwc2`, which wins over the rest.
pub open spec fn family_among(answers: Seq<Option<String>>) -> UdcFamily {
    if exists|i: int| 0 <= i < answers.len() && family_of_answer(#[trigger] answers[i])
        == UdcFamily::Dwc3 {
        UdcFamily::Dwc3
    } else if exists|i: int| 0 <= i < answers.len() && family_of_answer(#[trigger] answers[i])
        == UdcFamily::Dwc2 {
        UdcFamily::Dwc2
    } else {
        UdcFamily::Other
    }
}

/// The answers that a walk over the controllers `names` in `dir` gathers: one
/// for each controller in turn, up to the first `dwc3` one.
pub open spec fn walk_answers<R: Fn(&str) -> Option<String>>(
    read: R,
    dir: Seq<char>,
    names: Seq<Seq<char>>,
    answers: Seq<Option<String>>,
) -> bool {
    &&& answers.len() <= names.len()
    &&& forall|i: int|
        0 <= i < answers.len() ==> may_read(read, uevent_path(dir, names[i]), #[trigger] answers[i])
    &&& forall|i: int|
        0 <= i < answers.len() - 1 ==> family_of_answer(#[trigger] answers[i]) != UdcFamily::Dwc3
    &&& answers.len() < names.len() ==> answers.len() > 0 && family_of_answer(answers.last())
        == UdcFamily::Dwc3
}

/// Classify the family over a set of controllers, given a reader that maps the
/// path of a `uevent` file to its contents. No other path is read.
pub fn classify_udc_family<R: Fn(&str) -> Option<String>>(
    udc_dir: &str,
    names: &[String],
    read_uevent: R,
) -> (res: UdcFamily)
    requires
        forall|p: &str|
            is_uevent(udc_dir@, text::views(names@), p@) ==> #[trigger] call_requires(
                read_uevent,
                (p,),
            ),
    ensures
        exists|answers: Seq<Option<String>>|
            #[trigger] walk_answers(read_uevent, udc_dir@, text::views(names@), answers) && res
                == family_among(answers),
{
    let mut saw_dwc2 = false;
    let mut i: usize = 0;
    let ghost mut answers: Seq<Option<String>> = Seq::empty();
    let ghost all = text::views(names@);
    while i < names.len()
        invariant
            i <= names.len(),
            all == text::views(names@),
            answers.len() == i,
            forall|p: &str|
                is_uevent(udc_dir@, all, p@) ==> #[trigger] call_requires(read_uevent, (p,)),
            forall|j: int|
                0 <= j < i ==> may_read(
                    read_uevent,
                    uevent_path(udc_dir@, all[j]),
                    #[trigger] answers[j],
                ),
            forall|j: int|
                0 <= j < i ==> family_of_answer(#[trigger] answers[j]) != UdcFamily::Dwc3,
            saw_dwc2 <==> exists|j: int|
                0 <= j < i && family_of_answer(#[trigger] answers[j]) == UdcFamily::Dwc2,
        decreases names.len() - i,
    {
        let dir = text::join_path(udc_dir, &names[i]);
        let path = text::join_path(&dir, "uevent");
        let p: &str = path.as_str();
        assert(all[i as int] == names@[i as int]@);
        assert(is_uevent(udc_dir@, all, p@));
        let answer = read_uevent(p);
        let ghost before = answers;
        proof {
            answers = answers.push(answer);
            assert(call_ensures(read_uevent, (p,), answer));
            assert(may_read(read_uevent, uevent_path(udc_dir@, all[i as int]), answer));
            assert(answers[i as int] == answer);
        }
        if let Some(contents) = answer {
            match UdcFamily::from_uevent_contents(&contents) {
                UdcFamily::Dwc3 => {
                    assert(family_of_answer(answers[i as int]) == UdcFamily::Dwc3);
                    assert(walk_answers(read_uevent, udc_dir@, all, answers));
                    return UdcFamily::Dwc3;
                },
                UdcFamily::Dwc2 => {
                    assert(family_of_answer(answers[i as int]) == UdcFamily::Dwc2);
                    saw_dwc2 = true;
                },
                UdcFamily::Other => {
                    assert(family_of_answer(answers[i as int]) == UdcFamily::Other);
                },
            }
        } else {
            assert(family_of_answer(answers[i as int]) == UdcFamily::Other);
        }
        proof {
            assert forall|j: int| 0 <= j < i implies #[trigger] answers[j] == before[j] by {}
            if exists|j: int| 0 <= j < i && family_of_answer(#[trigger] before[j])
                == UdcFamily::Dwc2 {
                let w = choose|j: int|
                    0 <= j < i && family_of_answer(#[trigger] before[j]) == UdcFamily::Dwc2;
                assert(answers[w] == before[w]);
            }
        }
        i += 1;
    }
    assert(walk_answers(read_uevent, udc_dir@, all, answers));
    if saw_dwc2 {
        UdcFamily::Dwc2
    } else {
        UdcFamily::Other
    }
}

/// The model marks a Raspberry Pi: it begins with these words, so that a board
/// whose model merely has "Pi" in it is not taken for one.
pub open spec fn names_raspberry_pi(model: Seq<char>) -> bool {
    text::begins_with(text::lower(model), "raspberry pi"@)
}

/// Whether a model marks a Raspberry Pi.
pub fn is_pi_model(model: &str) -> (res: bool)
    ensures
        res == names_raspberry_pi(model@),
{
    text::has_prefix(&text::to_lower(model), "raspberry pi")
}

/// The model names a Rockchip part or a board family built on one.
pub open spec fn names_rockchip(model: Seq<char>) -> bool {
    let m = text::lower(model);
    ||| text::contains_text(m, "rockchip"@)
    ||| text::contains_text(m, "rk3399"@)
    ||| text::contains_text(m, "rk3566"@)
    ||| text::contains_text(m, "rk3568"@)
    ||| text::contains_text(m, "radxa"@)
    ||| text::contains_text(m, "rock"@)
}

/// What detection finds: the model file's answer gives the model, and a walk
/// over the sorted controllers gives the family.
pub open spec fn detected<R: Fn(&str) -> Option<String>>(
    read: R,
    entries: Seq<Seq<char>>,
    id: BoardId,
) -> bool {
    &&& exists|raw: Option<String>|
        #[trigger] may_read(read, MODEL_PATH@, raw) && id.model@ == (match raw {
            Some(r) => model_name(r@),
            None => Seq::empty(),
        })
    &&& exists|answers: Seq<Option<String>>|
        #[trigger] walk_answers(read, UDC_DIR@, order::sorted(entries), answers) && id.udc_family
            == family_among(answers)
}

/// The identity has this model and this family.
pub open spec fn identifies(id: BoardId, model: Seq<char>, family: UdcFamily) -> bool {
    id.model@ == model && id.udc_family == family
}

impl BoardId {
    /// Detect the running board from `read`, which maps a path to the text of
    /// the file there, and from the names that `/sys/class/udc` lists, in any
    /// order. Where nothing can be read the model is empty and the family is
    /// [`UdcFamily::Other`], which callers treat as the generic board.
    pub fn detect<R: Fn(&str) -> Option<String>>(udc_entries: &Vec<String>, read: R) -> (res:
        BoardId)
        requires
            reads_device(read, text::views(udc_entries@)),
        ensures
            detected(read, text::views(udc_entries@), res),
    {
        let p: &str = MODEL_PATH;
        assert(looked_at(text::views(udc_entries@), p@));
        let raw = read(p);
        assert(may_read(read, MODEL_PATH@, raw)) by {
            assert(call_ensures(read, (p,), raw));
        }
        let model = match &raw {
            Some(r) => text::trimmed(&text::remove_char(r, '\0')),
            None => String::new(),
        };
        let names = order::sort_names(udc_entries);
        proof {
            let listed = text::views(udc_entries@);
            let sorted = order::sorted(listed);
            assert forall|q: &str| is_uevent(UDC_DIR@, sorted, q@) implies #[trigger] call_requires(
                read,
                (q,),
            ) by {
                let i = choose|i: int|
                    0 <= i < sorted.len() && q@ == uevent_path(UDC_DIR@, #[trigger] sorted[i]);
                order::lemma_sorted_members(listed, sorted[i]);
                let j = choose|j: int| 0 <= j < listed.len() && listed[j] == sorted[i];
                assert(q@ == uevent_path(UDC_DIR@, listed[j]));
                assert(looked_at(listed, q@));
            }
        }
        let udc_family = classify_udc_family(UDC_DIR, names.as_slice(), read);
        BoardId { model, udc_family }
    }

    /// A board identity from strings that were read already.
    pub fn from_parts(model: &str, udc_family: UdcFamily) -> (res: BoardId)
        ensures
            identifies(res, model@, udc_family),
    {
        BoardId { model: model.to_owned(), udc_family }
    }

    /// The model in ASCII lower case.
    pub fn model_lower(&self) -> (res: String)
        ensures
            res@ == text::lower(self.model@),
    {
        text::to_lower(&self.model)
    }

    /// Whether the device-tree model marks this as a Raspberry Pi.
    pub fn is_raspberry_pi(&self) -> (res: bool)
        ensures
            res == names_raspberry_pi(self.model@),
    {
        is_pi_model(&self.model)
    }

    /// Whether this is a Rockchip part with a `dwc3` peripheral controller. The
    /// family is asked for beside the name, so that a Rockchip board with
    /// another controller does not inherit the `dwc3` overrides by name alone.
    pub fn is_rockchip_dwc3(&self) -> (res: bool)
        ensures
            res == (names_rockchip(self.model@) && self.udc_family == UdcFamily::Dwc3),
    {
        let m = self.model_lower();
        let rockchip_name = text::contains(&m, "rockchip") || text::contains(&m, "rk3399")
            || text::contains(&m, "rk3566") || text::contains(&m, "rk3568") || text::contains(
            &m,
            "radxa",
        ) || text::contains(&m, "rock");
        rockchip_name && self.udc_family == UdcFamily::Dwc3
    }
}

// ---------------------------------------------------------------------------
// Boards
// ---------------------------------------------------------------------------

/// Everything a board says about itself, but for the choice of a controller.
#[verifier::ext_equal]
pub struct Knobs {
    /// Human-readable name for logs.
    pub name: Seq<char>,
    /// `MaxPower` of the USB configuration, in milliamps.
    pub max_power_ma: u32,
    /// Kernel modules to load, in order.
    pub modules: Seq<Seq<char>>,
    /// Milliseconds between the last LUN write and the bind.
    pub lun_settle_ms: u64,
    /// Speed cap to write to the controller before the bind.
    pub max_speed: Option<Seq<char>>,
    /// Whether to issue an explicit pull-up after the bind.
    pub soft_connect: bool,
    /// Whether early bind is validated on this board.
    pub early_bind: bool,
    /// Whether the board picks its controller by role and not by position.
    pub by_role: bool,
}

/// The modules that every gadget needs.
pub open spec fn default_modules() -> Seq<Seq<char>> {
    seq!["libcomposite"@, "usb_f_mass_storage"@]
}

/// The conservative values for a board called `name`.
pub open spec fn default_knobs(name: Seq<char>) -> Knobs {
    Knobs {
        name,
        max_power_ma: 100,
        modules: default_modules(),
        lun_settle_ms: 3000,
        max_speed: None,
        soft_connect: false,
        early_bind: false,
        by_role: false,
    }
}

/// The characters of an optional string.
pub open spec fn opt_view(s: Option<String>) -> Option<Seq<char>> {
    match s {
        Some(x) => Some(x@),
        None => None,
    }
}

/// The characters of an optional string slice.
pub open spec fn opt_str_view(s: Option<&str>) -> Option<Seq<char>> {
    match s {
        Some(x) => Some(x@),
        None => None,
    }
}

/// Per-board USB gadget knobs.
pub trait GadgetBoard: Send + Sync {
    /// What the board says.
    spec fn knobs(&self) -> Knobs;

    /// The controller the board binds among `names`.
    spec fn choice(&self, names: Seq<Seq<char>>) -> Option<Seq<char>>;

    /// Human-readable board name for logs.
    fn name(&self) -> (res: &str)
        ensures
            res@ == self.knobs().name,
    ;

    /// USB configuration `MaxPower` in milliamps.
    fn max_power_ma(&self) -> (res: u32)
        ensures
            res == self.knobs().max_power_ma,
    ;

    /// Choose the controller to bind from the enumerated names.
    fn select_udc(&self, udc_names: &[String]) -> (res: Option<String>)
        ensures
            opt_view(res) == self.choice(text::views(udc_names@)),
    ;

    /// Kernel modules to load before assembling the gadget, in order.
    fn load_modules(&self) -> (res: Vec<&'static str>)
        ensures
            res@.map_values(|m: &'static str| m@) == self.knobs().modules,
    ;

    /// Milliseconds to wait after the LUN files are written and before the bind.
    fn lun_settle_ms(&self) -> (res: u64)
        ensures
            res == self.knobs().lun_settle_ms,
    ;

    /// Speed cap to write to the controller before the bind; `None` leaves the
    /// kernel default.
    fn max_speed(&self) -> (res: Option<&str>)
        ensures
            opt_str_view(res) == self.knobs().max_speed,
    ;

    /// Whether to issue an explicit pull-up after the bind.
    fn needs_soft_connect(&self) -> (res: bool)
        ensures
            res == self.knobs().soft_connect,
    ;

    /// Whether this board has validated early-bind support. This is the only
    /// gate of the early-bind path.
    fn supports_early_bind(&self) -> (res: bool)
        ensures
            res == self.knobs().early_bind,
    ;

    /// Whether the board picks its controller by role. One that does not takes
    /// the first controller, in the order of the listing.
    fn selects_by_role(&self) -> (res: bool)
        ensures
            res == self.knobs().by_role,
    ;
}

/// The first of the names, if there is one.
pub open spec fn first_choice(names: Seq<Seq<char>>) -> Option<Seq<char>> {
    if names.len() == 0 {
        None
    } else {
        Some(names[0])
    }
}

fn first_name(udc_names: &[String]) -> (res: Option<String>)
    ensures
        opt_view(res) == first_choice(text::views(udc_names@)),
{
    if udc_names.len() == 0 {
        None
    } else {
        assert(text::views(udc_names@)[0] == udc_names@[0]@);
        Some(udc_names[0].clone())
    }
}

fn default_module_names() -> (res: Vec<&'static str>)
    ensures
        res@.map_values(|m: &'static str| m@) == default_modules(),
{
    let mut v: Vec<&'static str> = Vec::new();
    v.push("libcomposite");
    v.push("usb_f_mass_storage");
    assert(v@.map_values(|m: &'static str| m@) =~= default_modules());
    v
}

/// `model`, or `fallback` where the model is unknown.
pub open spec fn name_or(model: Seq<char>, fallback: Seq<char>) -> Seq<char> {
    if model.len() == 0 {
        fallback
    } else {
        model
    }
}

/// Raspberry Pi (`dwc2`): the defaults, but for the real current per model.
pub struct Dwc2PiBoard {
    max_power: u32,
    name: String,
}

/// `MaxPower` in milliamps for a model name in lower case.
pub open spec fn power_ladder(model: Seq<char>) -> u32 {
    if text::contains_text(model, "pi 5"@) {
        600
    } else if text::contains_text(model, "pi 4"@) {
        500
    } else if text::contains_text(model, "pi 3"@) {
        300
    } else if text::contains_text(model, "pi 2"@) || text::contains_text(model, "zero 2"@) {
        200
    } else {
        100
    }
}

/// `MaxPower` in milliamps for a Raspberry Pi model.
pub fn pi_max_power_ma(model: &str) -> (res: u32)
    ensures
        res == power_ladder(text::lower(model@)),
{
    let lowered = text::to_lower(model);
    let m = lowered.as_str();
    if text::contains(m, "pi 5") {
        600
    } else if text::contains(m, "pi 4") {
        500
    } else if text::contains(m, "pi 3") {
        300
    } else if text::contains(m, "pi 2") || text::contains(m, "zero 2") {
        200
    } else {
        100
    }
}

impl Dwc2PiBoard {
    /// What the board of a given model says.
    pub open spec fn knobs_of(model: Seq<char>) -> Knobs {
        Knobs {
            max_power_ma: power_ladder(text::lower(model)),
            ..default_knobs(name_or(model, "Raspberry Pi"@))
        }
    }

    /// The board of a given model.
    pub fn from_model(model: &str) -> (res: Dwc2PiBoard)
        ensures
            res.knobs() == Dwc2PiBoard::knobs_of(model@),
    {
        Dwc2PiBoard {
            max_power: pi_max_power_ma(model),
            name: if model.is_empty() {
                "Raspberry Pi".to_owned()
            } else {
                model.to_owned()
            },
        }
    }
}

impl GadgetBoard for Dwc2PiBoard {
    closed spec fn knobs(&self) -> Knobs {
        Knobs { max_power_ma: self.max_power, ..default_knobs(self.name@) }
    }

    open spec fn choice(&self, names: Seq<Seq<char>>) -> Option<Seq<char>> {
        first_choice(names)
    }

    fn name(&self) -> &str {
        &self.name
    }

    fn max_power_ma(&self) -> u32 {
        self.max_power
    }

    fn select_udc(&self, udc_names: &[String]) -> Option<String> {
        first_name(udc_names)
    }

    fn load_modules(&self) -> Vec<&'static str> {
        default_module_names()
    }

    fn lun_settle_ms(&self) -> u64 {
        3000
    }

    fn max_speed(&self) -> Option<&str> {
        None
    }

    fn needs_soft_connect(&self) -> bool {
        false
    }

    fn supports_early_bind(&self) -> bool {
        false
    }

    fn selects_by_role(&self) -> bool {
        false
    }
}

/// Rockchip board with a `dwc3` peripheral controller. It differs from the
/// defaults in three ways: it picks the controller by role and not by position,
/// it caps the speed to high speed, since the SuperSpeed PHY is flaky on a cold
/// attach, and it needs the explicit pull-up.
pub struct Dwc3RockchipBoard {
    name: String,
}

/// The controller's name says `dwc3`.
pub open spec fn says_dwc3(name: Seq<char>) -> bool {
    text::contains_text(text::lower(name), "dwc3"@)
}

/// The controller's name says that it is a host controller.
pub open spec fn says_host(name: Seq<char>) -> bool {
    ||| text::contains_text(text::lower(name), "xhci"@)
    ||| text::contains_text(text::lower(name), "host"@)
}

/// The first of the names of which `p` holds.
pub open spec fn first_where(names: Seq<Seq<char>>, p: spec_fn(Seq<char>) -> bool) -> Option<
    Seq<char>,
>
    decreases names.len(),
{
    if names.len() == 0 {
        None
    } else if p(names[0]) {
        Some(names[0])
    } else {
        first_where(names.skip(1), p)
    }
}

/// The peripheral-role controller: the first that says `dwc3`, else the first
/// that does not look like a host controller.
pub open spec fn peripheral_choice(names: Seq<Seq<char>>) -> Option<Seq<char>> {
    match first_where(names, |n: Seq<char>| says_dwc3(n)) {
        Some(n) => Some(n),
        None => first_where(names, |n: Seq<char>| !says_host(n)),
    }
}

impl Dwc3RockchipBoard {
    /// What the board of a given model says.
    pub open spec fn knobs_of(model: Seq<char>) -> Knobs {
        Knobs {
            max_speed: Some("high-speed"@),
            soft_connect: true,
            by_role: true,
            ..default_knobs(name_or(model, "Rockchip (dwc3)"@))
        }
    }

    /// The board of a given model.
    pub fn from_model(model: &str) -> (res: Dwc3RockchipBoard)
        ensures
            res.knobs() == Dwc3RockchipBoard::knobs_of(model@),
    {
        Dwc3RockchipBoard {
            name: if model.is_empty() {
                "Rockchip (dwc3)".to_owned()
            } else {
                model.to_owned()
            },
        }
    }

    /// Pick the peripheral-role controller from a list of names:
    /// 1. one that says `dwc3`, preferred;
    /// 2. otherwise one that says neither `xhci` nor `host`, since many `dwc3`
    ///    controllers are named by their address (`fe800000.usb`);
    /// 3. where all look like host controllers, none, rather than bind a host
    ///    controller as a gadget.
    pub fn select_peripheral_udc(udc_names: &[String]) -> (res: Option<String>)
        ensures
            opt_view(res) == peripheral_choice(text::views(udc_names@)),
    {
        let ghost all = text::views(udc_names@);
        let ghost dwc3 = |n: Seq<char>| says_dwc3(n);
        let ghost device = |n: Seq<char>| !says_host(n);
        let mut i: usize = 0;
        assert(all.skip(0) =~= all);
        while i < udc_names.len()
            invariant
                i <= udc_names.len(),
                all == text::views(udc_names@),
                dwc3 == (|n: Seq<char>| says_dwc3(n)),
                first_where(all.skip(i as int), dwc3) == first_where(all, dwc3),
            decreases udc_names.len() - i,
        {
            assert(all.skip(i as int)[0] == udc_names@[i as int]@);
            if text::contains(&text::to_lower(&udc_names[i]), "dwc3") {
                return Some(udc_names[i].clone());
            }
            assert(all.skip(i as int).skip(1) =~= all.skip(i + 1));
            i += 1;
        }
        assert(first_where(all, dwc3) is None);
        let mut k: usize = 0;
        while k < udc_names.len()
            invariant
                k <= udc_names.len(),
                all == text::views(udc_names@),
                dwc3 == (|n: Seq<char>| says_dwc3(n)),
                device == (|n: Seq<char>| !says_host(n)),
                first_where(all, dwc3) is None,
                first_where(all.skip(k as int), device) == first_where(all, device),
            decreases udc_names.len() - k,
        {
            assert(all.skip(k as int)[0] == udc_names@[k as int]@);
            let l = text::to_lower(&udc_names[k]);
            if !text::contains(&l, "xhci") && !text::contains(&l, "host") {
                return Some(udc_names[k].clone());
            }
            assert(all.skip(k as int).skip(1) =~= all.skip(k + 1));
            k += 1;
        }
        None
    }
}

impl GadgetBoard for Dwc3RockchipBoard {
    closed spec fn knobs(&self) -> Knobs {
        Knobs {
            max_speed: Some("high-speed"@),
            soft_connect: true,
            by_role: true,
            ..default_knobs(self.name@)
        }
    }

    open spec fn choice(&self, names: Seq<Seq<char>>) -> Option<Seq<char>> {
        peripheral_choice(names)
    }

    fn name(&self) -> &str {
        &self.name
    }

    fn max_power_ma(&self) -> u32 {
        100
    }

    fn select_udc(&self, udc_names: &[String]) -> Option<String> {
        Self::select_peripheral_udc(udc_names)
    }

    fn load_modules(&self) -> Vec<&'static str> {
        default_module_names()
    }

    fn lun_settle_ms(&self) -> u64 {
        3000
    }

    fn max_speed(&self) -> Option<&str> {
        Some("high-speed")
    }

    fn needs_soft_connect(&self) -> bool {
        true
    }

    fn supports_early_bind(&self) -> bool {
        false
    }

    fn selects_by_role(&self) -> bool {
        true
    }
}

/// Conservative fallback for any board that is not recognised.
pub struct GenericBoard;

impl GadgetBoard for GenericBoard {
    open spec fn knobs(&self) -> Knobs {
        default_knobs("Generic board"@)
    }

    open spec fn choice(&self, names: Seq<Seq<char>>) -> Option<Seq<char>> {
        first_choice(names)
    }

    fn name(&self) -> &str {
        "Generic board"
    }

    fn max_power_ma(&self) -> u32 {
        100
    }

    fn select_udc(&self, udc_names: &[String]) -> Option<String> {
        first_name(udc_names)
    }

    fn load_modules(&self) -> Vec<&'static str> {
        default_module_names()
    }

    fn lun_settle_ms(&self) -> u64 {
        3000
    }

    fn max_speed(&self) -> Option<&str> {
        None
    }

    fn needs_soft_connect(&self) -> bool {
        false
    }

    fn supports_early_bind(&self) -> bool {
        false
    }

    fn selects_by_role(&self) -> bool {
        false
    }
}

/// A recognised board.
pub enum Board {
    Pi(Dwc2PiBoard),
    Rockchip(Dwc3RockchipBoard),
    Generic(GenericBoard),
}

impl GadgetBoard for Board {
    open spec fn knobs(&self) -> Knobs {
        match self {
            Board::Pi(b) => b.knobs(),
            Board::Rockchip(b) => b.knobs(),
            Board::Generic(b) => b.knobs(),
        }
    }

    open spec fn choice(&self, names: Seq<Seq<char>>) -> Option<Seq<char>> {
        match self {
            Board::Pi(b) => b.choice(names),
            Board::Rockchip(b) => b.choice(names),
            Board::Generic(b) => b.choice(names),
        }
    }

    fn name(&self) -> &str {
        match self {
            Board::Pi(b) => b.name(),
            Board::Rockchip(b) => b.name(),
            Board::Generic(b) => b.name(),
        }
    }

    fn max_power_ma(&self) -> u32 {
        match self {
            Board::Pi(b) => b.max_power_ma(),
            Board::Rockchip(b) => b.max_power_ma(),
            Board::Generic(b) => b.max_power_ma(),
        }
    }

    fn select_udc(&self, udc_names: &[String]) -> Option<String> {
        match self {
            Board::Pi(b) => b.select_udc(udc_names),
            Board::Rockchip(b) => b.select_udc(udc_names),
            Board::Generic(b) => b.select_udc(udc_names),
        }
    }

    fn load_modules(&self) -> Vec<&'static str> {
        match self {
            Board::Pi(b) => b.load_modules(),
            Board::Rockchip(b) => b.load_modules(),
            Board::Generic(b) => b.load_modules(),
        }
    }

    fn lun_settle_ms(&self) -> u64 {
        match self {
            Board::Pi(b) => b.lun_settle_ms(),
            Board::Rockchip(b) => b.lun_settle_ms(),
            Board::Generic(b) => b.lun_settle_ms(),
        }
    }

    fn max_speed(&self) -> Option<&str> {
        match self {
            Board::Pi(b) => b.max_speed(),
            Board::Rockchip(b) => b.max_speed(),
            Board::Generic(b) => b.max_speed(),
        }
    }

    fn needs_soft_connect(&self) -> bool {
        match self {
            Board::Pi(b) => b.needs_soft_connect(),
            Board::Rockchip(b) => b.needs_soft_connect(),
            Board::Generic(b) => b.needs_soft_connect(),
        }
    }

    fn supports_early_bind(&self) -> bool {
        match self {
            Board::Pi(b) => b.supports_early_bind(),
            Board::Rockchip(b) => b.supports_early_bind(),
            Board::Generic(b) => b.supports_early_bind(),
        }
    }

    fn selects_by_role(&self) -> bool {
        match self {
            Board::Pi(b) => b.selects_by_role(),
            Board::Rockchip(b) => b.selects_by_role(),
            Board::Generic(b) => b.selects_by_role(),
        }
    }
}

/// The board that an identity stands for.
pub open spec fn maps_to(model: Seq<char>, family: UdcFamily, board: Board) -> bool {
    if names_raspberry_pi(model) {
        board is Pi && board.knobs() == Dwc2PiBoard::knobs_of(model)
    } else if names_rockchip(model) && family == UdcFamily::Dwc3 {
        board is Rockchip && board.knobs() == Dwc3RockchipBoard::knobs_of(model)
    } else {
        board is Generic
    }
}

/// Map a detected identity to its board.
pub fn board_for(id: &BoardId) -> (res: Board)
    ensures
        maps_to(id.model@, id.udc_family, res),
{
    if id.is_raspberry_pi() {
        Board::Pi(Dwc2PiBoard::from_model(&id.model))
    } else if id.is_rockchip_dwc3() {
        Board::Rockchip(Dwc3RockchipBoard::from_model(&id.model))
    } else {
        Board::Generic(GenericBoard)
    }
}

/// What selection finds: the board that stands for a detected identity.
pub open spec fn selected<R: Fn(&str) -> Option<String>>(
    read: R,
    entries: Seq<Seq<char>>,
    board: Board,
) -> bool {
    exists|id: BoardId|
        #[trigger] detected(read, entries, id) && maps_to(id.model@, id.udc_family, board)
}

/// Detect the running board and return its gadget implementation; see
/// [`BoardId::detect`] for the parameters.
pub fn select_board<R: Fn(&str) -> Option<String>>(udc_entries: &Vec<String>, read: R) -> (res:
    Board)
    requires
        reads_device(read, text::views(udc_entries@)),
    ensures
        selected(read, text::views(udc_entries@), res),
{
    let id = BoardId::detect(udc_entries, read);
    board_for(&id)
}

// ---------------------------------------------------------------------------
// Laws
// ---------------------------------------------------------------------------

proof fn lemma_first_where(names: Seq<Seq<char>>, p: spec_fn(Seq<char>) -> bool)
    ensures
        match first_where(names, p) {
            Some(n) => names.contains(n) && p(n),
            None => forall|i: int| 0 <= i < names.len() ==> !p(#[trigger] names[i]),
        },
    decreases names.len(),
{
    if names.len() > 0 && p(names[0]) {
        assert(names.contains(names[0]));
    } else if names.len() > 0 {
        let rest = names.skip(1);
        lemma_first_where(rest, p);
        match first_where(names, p) {
            Some(n) => {
                let i = choose|i: int| 0 <= i < rest.len() && rest[i] == n;
                assert(names[i + 1] == n);
            },
            None => {
                assert forall|i: int| 0 <= i < names.len() implies !p(#[trigger] names[i]) by {
                    if i > 0 {
                        assert(rest[i - 1] == names[i]);
                    }
                }
            },
        }
    }
}

/// A Rockchip board binds one of the listed controllers, and never one that
/// looks like a host controller unless its name says `dwc3`. It refuses exactly
/// where every listed controller looks like a host controller and none says
/// `dwc3`.
pub proof fn law_rockchip_never_binds_a_host(names: Seq<Seq<char>>)
    ensures
        match peripheral_choice(names) {
            Some(n) => names.contains(n) && (says_dwc3(n) || !says_host(n)),
            None => forall|i: int|
                0 <= i < names.len() ==> says_host(#[trigger] names[i]) && !says_dwc3(names[i]),
        },
{
    lemma_first_where(names, |n: Seq<char>| says_dwc3(n));
    lemma_first_where(names, |n: Seq<char>| !says_host(n));
}

/// Where some listed controller says `dwc3`, a Rockchip board binds one that
/// does, wherever it stands in the list.
pub proof fn law_rockchip_prefers_dwc3(names: Seq<Seq<char>>, i: int)
    requires
        0 <= i < names.len(),
        says_dwc3(names[i]),
    ensures
        peripheral_choice(names) is Some,
        says_dwc3(peripheral_choice(names)->0),
{
    lemma_first_where(names, |n: Seq<char>| says_dwc3(n));
}

/// No board supports early bind today.
pub proof fn law_no_board_binds_early(board: Board)
    ensures
        !board.knobs().early_bind,
{
}

/// No board is worse off than the generic one: it loads the same modules, waits
/// as long for the LUN files, and never asks for less current.
pub proof fn law_never_worse_than_generic(board: Board, model: Seq<char>, family: UdcFamily)
    requires
        maps_to(model, family, board),
    ensures
        board.knobs().modules == GenericBoard.knobs().modules,
        board.knobs().lun_settle_ms == GenericBoard.knobs().lun_settle_ms,
        board.knobs().max_power_ma >= GenericBoard.knobs().max_power_ma,
{
}

/// A board that names no Raspberry Pi and reports no `dwc3` controller carries
/// the generic values and binds the first controller, whatever its name says.
pub proof fn law_unrecognised_board_is_generic(board: Board, model: Seq<char>, family: UdcFamily)
    requires
        maps_to(model, family, board),
        !names_raspberry_pi(model),
        family != UdcFamily::Dwc3,
    ensures
        board.knobs() == GenericBoard.knobs(),
        forall|names: Seq<Seq<char>>| #[trigger]
            board.choice(names) == GenericBoard.choice(names),
{
}

/// A `uevent` file is read line by line: a line that does not begin with
/// `driver=`, in whatever case, tells nothing.
pub proof fn law_other_lines_tell_nothing(line: Seq<char>, rest: Seq<char>)
    requires
        forall|i: int| 0 <= i < line.len() ==> #[trigger] line[i] != '\n' && line[i] != '\r',
        !text::begins_with(text::lower(line), "driver="@),
    ensures
        family_of_uevent(line + seq!['\n'] + rest) == family_of_uevent(rest),
{
    lemma_first_line(line, rest);
    let all = text::lines(text::lower(line + seq!['\n'] + rest));
    assert(all[0] == text::lower(line));
    assert(all.skip(1) =~= text::lines(text::lower(rest)));
}

/// The first line that names a driver decides: `dwc3` in the name wins, then
/// `dwc2`, in whatever case; any other driver is of neither family. A file that
/// names no driver is of neither family as well.
pub proof fn law_driver_line_decides(line: Seq<char>, rest: Seq<char>)
    requires
        forall|i: int| 0 <= i < line.len() ==> #[trigger] line[i] != '\n' && line[i] != '\r',
        text::lower(line.take(7)) == "driver="@,
        line.len() >= 7,
    ensures
        ({
            let name = text::lower(line.skip(7));
            let family = family_of_uevent(line + seq!['\n'] + rest);
            &&& family is Dwc3 <==> text::contains_text(name, "dwc3"@)
            &&& family is Dwc2 <==> text::contains_text(name, "dwc2"@) && !text::contains_text(
                name,
                "dwc3"@,
            )
        }),
        family_of_uevent(Seq::empty()) is Other,
{
    reveal_strlit("driver=");
    reveal_strlit("dwc3");
    reveal_strlit("dwc2");
    lemma_first_line(line, rest);
    let low = text::lower(line);
    let all = text::lines(text::lower(line + seq!['\n'] + rest));
    assert(all[0] == low);
    assert(low.subrange(0, 7) =~= text::lower(line.take(7)));
    assert(text::begins_with(low, "driver="@));
    assert(low.skip(7) =~= text::lower(line.skip(7)));
    assert(text::lower(Seq::empty()) =~= Seq::<char>::empty());
    assert(driver_among(text::lines(Seq::empty())) =~= Seq::<char>::empty());
    assert(!text::contains_text(Seq::empty(), "dwc3"@));
    assert(!text::contains_text(Seq::empty(), "dwc2"@));
}

proof fn lemma_first_line(line: Seq<char>, rest: Seq<char>)
    requires
        forall|i: int| 0 <= i < line.len() ==> #[trigger] line[i] != '\n' && line[i] != '\r',
    ensures
        text::lines(text::lower(line + seq!['\n'] + rest)) == seq![text::lower(line)] + text::lines(
            text::lower(rest),
        ),
{
    let low = text::lower(line);
    text::law_lower_of_parts(line + seq!['\n'], rest);
    text::law_lower_of_parts(line, seq!['\n']);
    assert(text::lower(seq!['\n']) =~= seq!['\n']);
    assert forall|i: int| 0 <= i < low.len() implies #[trigger] low[i] != '\n' && low[i]
        != '\r' by {
        assert(low[i] == text::lower_char(line[i]));
        assert(line[i] != '\n' && line[i] != '\r');
    }
    text::law_lines_end_in_line_feeds(low, text::lower(rest));
}

/// `dwc3` wins over `dwc2`, which wins over anything else, wherever they stand
/// among the controllers.
pub proof fn law_families_are_ranked(answers: Seq<Option<String>>)
    ensures
        family_among(answers) is Dwc3 <==> exists|i: int|
            0 <= i < answers.len() && ((#[trigger] answers[i]) matches Some(s) && family_of_uevent(
                s@,
            ) is Dwc3),
        family_among(answers) is Dwc2 <==> (exists|i: int|
            0 <= i < answers.len() && ((#[trigger] answers[i]) matches Some(s) && family_of_uevent(
                s@,
            ) is Dwc2)) && !(exists|i: int|
            0 <= i < answers.len() && ((#[trigger] answers[i]) matches Some(s) && family_of_uevent(
                s@,
            ) is Dwc3)),
{
}

/// What a file says to detection: its family, where it can be read.
pub open spec fn says_family(
    files: spec_fn(Seq<char>) -> Option<Seq<char>>,
    path: Seq<char>,
    family: UdcFamily,
) -> bool {
    files(path) matches Some(s) && family_of_uevent(s) == family
}

/// Detection tells what the device's files say: the model is the model file's,
/// and the family is `dwc3` where any listed controller's `uevent` file says so,
/// else `dwc2` where any says that. An unreadable file says nothing.
pub proof fn law_detection_tells_the_device<R: Fn(&str) -> Option<String>>(
    read: R,
    files: spec_fn(Seq<char>) -> Option<Seq<char>>,
    entries: Seq<Seq<char>>,
    id: BoardId,
)
    requires
        forall|p: &str, a: Option<String>| #[trigger]
            call_ensures(read, (p,), a) ==> opt_view(a) == files(p@),
        detected(read, entries, id),
    ensures
        id.model@ == (match files("/sys/firmware/devicetree/base/model"@) {
            Some(raw) => model_name(raw),
            None => Seq::empty(),
        }),
        id.udc_family is Dwc3 <==> exists|i: int|
            0 <= i < entries.len() && says_family(
                files,
                uevent_path("/sys/class/udc"@, #[trigger] entries[i]),
                UdcFamily::Dwc3,
            ),
        id.udc_family is Dwc2 <==> (exists|i: int|
            0 <= i < entries.len() && says_family(
                files,
                uevent_path("/sys/class/udc"@, #[trigger] entries[i]),
                UdcFamily::Dwc2,
            )) && !(id.udc_family is Dwc3),
{
    let raw = choose|raw: Option<String>|
        #[trigger] may_read(read, MODEL_PATH@, raw) && id.model@ == (match raw {
            Some(r) => model_name(r@),
            None => Seq::empty(),
        });
    assert(opt_view(raw) == files(MODEL_PATH@));
    let sorted = order::sorted(entries);
    let answers = choose|answers: Seq<Option<String>>|
        #[trigger] walk_answers(read, UDC_DIR@, sorted, answers) && id.udc_family == family_among(
            answers,
        );
    assert forall|i: int| 0 <= i < answers.len() implies opt_view(#[trigger] answers[i]) == files(
        uevent_path(UDC_DIR@, sorted[i]),
    ) by {
        assert(may_read(read, uevent_path(UDC_DIR@, sorted[i]), answers[i]));
    }
    // A controller that was asked is listed.
    assert forall|i: int| 0 <= i < answers.len() implies exists|j: int|
        0 <= j < entries.len() && says_family(
            files,
            uevent_path(UDC_DIR@, #[trigger] entries[j]),
            family_of_answer(#[trigger] answers[i]),
        ) || answers[i] is None by {
        order::lemma_sorted_members(entries, sorted[i]);
        assert(sorted.contains(sorted[i]));
        let j = choose|j: int| 0 <= j < entries.len() && entries[j] == sorted[i];
        assert(opt_view(answers[i]) == files(uevent_path(UDC_DIR@, entries[j])));
    }
    // A listed controller was asked, unless a `dwc3` one came before it.
    assert forall|j: int, family: UdcFamily|
        0 <= j < entries.len() && says_family(
            files,
            uevent_path(UDC_DIR@, #[trigger] entries[j]),
            family,
        ) && !(id.udc_family is Dwc3) && #[trigger] is_family(family) implies exists|i: int|
        0 <= i < answers.len() && family_of_answer(#[trigger] answers[i]) == family by {
        order::lemma_sorted_members(entries, entries[j]);
        assert(entries.contains(entries[j]));
        let i = choose|i: int| 0 <= i < sorted.len() && sorted[i] == entries[j];
        if answers.len() < sorted.len() {
            assert(family_of_answer(answers[answers.len() - 1]) == UdcFamily::Dwc3);
            assert(false);
        }
        assert(opt_view(answers[i]) == files(uevent_path(UDC_DIR@, sorted[i])));
        assert(family_of_answer(answers[i]) == family);
    }
    assert(is_family(UdcFamily::Dwc3) && is_family(UdcFamily::Dwc2));
}

/// Holds of every family: a term to instantiate a quantifier over families by.
spec fn is_family(family: UdcFamily) -> bool {
    true
}

/// The `uevent` file of a controller stands in the controller's directory.
pub proof fn law_uevent_files_stand_below(name: Seq<char>)
    requires
        name.len() > 0,
        name[0] != '/',
        name.last() != '/',
    ensures
        uevent_path("/sys/class/udc"@, name) == "/sys/class/udc/"@ + name + "/uevent"@,
{
    reveal_strlit("/sys/class/udc");
    reveal_strlit("/sys/class/udc/");
    reveal_strlit("uevent");
    reveal_strlit("/uevent");
    assert(uevent_path("/sys/class/udc"@, name) =~= "/sys/class/udc/"@ + name + "/uevent"@);
}

/// The padding of a model name is NULs and white space; the name itself is kept.
pub proof fn law_model_name_loses_its_padding(
    before: Seq<char>,
    name: Seq<char>,
    after: Seq<char>,
)
    requires
        forall|i: int|
            0 <= i < before.len() ==> text::is_space(#[trigger] before[i]) || before[i] == '\0',
        forall|i: int|
            0 <= i < after.len() ==> text::is_space(#[trigger] after[i]) || after[i] == '\0',
        forall|i: int| 0 <= i < name.len() ==> #[trigger] name[i] != '\0',
        name.len() > 0 ==> !text::is_space(name[0]) && !text::is_space(name.last()),
    ensures
        model_name(before + name + after) == name,
{
    lemma_without_parts(before + name, after);
    lemma_without_parts(before, name);
    lemma_without_padding(before);
    lemma_without_padding(after);
    lemma_without_none(name);
    text::law_trim_keeps_the_rest(text::without(before, '\0'), name, text::without(after, '\0'));
}

proof fn lemma_without_parts(a: Seq<char>, b: Seq<char>)
    ensures
        text::without(a + b, '\0') == text::without(a, '\0') + text::without(b, '\0'),
    decreases b.len(),
{
    if b.len() == 0 {
        assert(a + b =~= a);
        assert(b =~= Seq::empty());
        text::law_without_drops_one_character(a, '\0', 'a');
        assert(text::without(a, '\0') + text::without(b, '\0') =~= text::without(a, '\0'));
    } else {
        let (front, c) = (b.drop_last(), b.last());
        lemma_without_parts(a, front);
        text::law_without_drops_one_character(a + front, '\0', c);
        text::law_without_drops_one_character(front, '\0', c);
        assert((a + front).push(c) =~= a + b);
        assert(front.push(c) =~= b);
        assert(text::without(a + b, '\0') =~= text::without(a, '\0') + text::without(b, '\0'));
    }
}

proof fn lemma_without_padding(s: Seq<char>)
    requires
        forall|i: int| 0 <= i < s.len() ==> text::is_space(#[trigger] s[i]) || s[i] == '\0',
    ensures
        text::all_space(text::without(s, '\0')),
    decreases s.len(),
{
    if s.len() > 0 {
        let (front, c) = (s.drop_last(), s.last());
        assert forall|i: int| 0 <= i < front.len() implies text::is_space(#[trigger] front[i])
            || front[i] == '\0' by {
            assert(front[i] == s[i]);
        }
        lemma_without_padding(front);
        text::law_without_drops_one_character(front, '\0', c);
        assert(front.push(c) =~= s);
        assert(text::is_space(s[s.len() - 1]) || s[s.len() - 1] == '\0');
    } else {
        assert(s =~= Seq::empty());
        text::law_without_drops_one_character(s, '\0', 'a');
    }
}

proof fn lemma_without_none(s: Seq<char>)
    requires
        forall|i: int| 0 <= i < s.len() ==> #[trigger] s[i] != '\0',
    ensures
        text::without(s, '\0') == s,
    decreases s.len(),
{
    if s.len() > 0 {
        let (front, c) = (s.drop_last(), s.last());
        assert forall|i: int| 0 <= i < front.len() implies #[trigger] front[i] != '\0' by {
            assert(front[i] == s[i]);
        }
        lemma_without_none(front);
        text::law_without_drops_one_character(front, '\0', c);
        assert(front.push(c) =~= s);
        assert(s[s.len() - 1] != '\0');
    } else {
        assert(s =~= Seq::empty());
        text::law_without_drops_one_character(s, '\0', 'a');
    }
}

/// A board with a `dwc3` controller whose model says any of `rockchip`,
/// `rk3399`, `rk3566`, `rk3568`, `radxa` or `rock`, in whatever case, and that
/// is no Raspberry Pi, is capped to high speed, pulled up explicitly and binds a
/// controller by its role.
pub proof fn law_rockchip_models_bind_by_role(
    model: Seq<char>,
    word: Seq<char>,
    board: Board,
    names: Seq<Seq<char>>,
)
    requires
        word == "rockchip"@ || word == "rk3399"@ || word == "rk3566"@ || word == "rk3568"@ || word
            == "radxa"@ || word == "rock"@,
        text::contains_text(text::lower(model), word),
        !text::begins_with(text::lower(model), "raspberry pi"@),
        maps_to(model, UdcFamily::Dwc3, board),
    ensures
        board.knobs().max_speed == Some("high-speed"@),
        board.knobs().soft_connect,
        board.knobs().by_role,
        board.knobs().max_power_ma == 100,
        board.knobs().name == model,
        board.knobs().modules == seq!["libcomposite"@, "usb_f_mass_storage"@],
        board.knobs().lun_settle_ms == 3000,
        board.choice(names) == peripheral_choice(names),
{
    reveal_strlit("rockchip");
    reveal_strlit("rk3399");
    reveal_strlit("rk3566");
    reveal_strlit("rk3568");
    reveal_strlit("radxa");
    reveal_strlit("rock");
    let i = choose|i: int| text::occurs_at(text::lower(model), word, i);
    assert(model.len() > 0);
}

/// A board whose model begins with `raspberry pi`, in whatever case, keeps the
/// kernel's speed, needs no pull-up and binds the first controller, whatever
/// family its controller is of.
pub proof fn law_pi_models_bind_the_first(
    model: Seq<char>,
    family: UdcFamily,
    board: Board,
    names: Seq<Seq<char>>,
)
    requires
        text::begins_with(text::lower(model), "raspberry pi"@),
        maps_to(model, family, board),
    ensures
        board.knobs().max_speed is None,
        !board.knobs().soft_connect,
        !board.knobs().by_role,
        board.knobs().name == model,
        board.knobs().modules == seq!["libcomposite"@, "usb_f_mass_storage"@],
        board.knobs().lun_settle_ms == 3000,
        names.len() > 0 ==> board.choice(names) == Some(names[0]),
        names.len() == 0 ==> board.choice(names) is None,
{
    reveal_strlit("raspberry pi");
    assert(model.len() > 0);
}

/// Any other board is the generic one: it draws 100 mA, keeps the kernel's
/// speed, needs no pull-up and binds the first controller.
pub proof fn law_other_models_are_generic(
    model: Seq<char>,
    family: UdcFamily,
    board: Board,
    names: Seq<Seq<char>>,
)
    requires
        !text::begins_with(text::lower(model), "raspberry pi"@),
        !(family is Dwc3) || (!text::contains_text(text::lower(model), "rockchip"@)
            && !text::contains_text(text::lower(model), "rk3399"@) && !text::contains_text(
            text::lower(model),
            "rk3566"@,
        ) && !text::contains_text(text::lower(model), "rk3568"@) && !text::contains_text(
            text::lower(model),
            "radxa"@,
        ) && !text::contains_text(text::lower(model), "rock"@)),
        maps_to(model, family, board),
    ensures
        board.knobs().max_speed is None,
        !board.knobs().soft_connect,
        !board.knobs().by_role,
        board.knobs().max_power_ma == 100,
        board.knobs().name == "Generic board"@,
        board.knobs().modules == seq!["libcomposite"@, "usb_f_mass_storage"@],
        board.knobs().lun_settle_ms == 3000,
        names.len() > 0 ==> board.choice(names) == Some(names[0]),
        names.len() == 0 ==> board.choice(names) is None,
{
}

/// A board made without a model has a name all the same; one made with a model
/// goes by it.
pub proof fn law_boards_have_names(model: Seq<char>)
    ensures
        model.len() == 0 ==> Dwc2PiBoard::knobs_of(model).name == "Raspberry Pi"@,
        model.len() == 0 ==> Dwc3RockchipBoard::knobs_of(model).name == "Rockchip (dwc3)"@,
        model.len() > 0 ==> Dwc2PiBoard::knobs_of(model).name == model,
        model.len() > 0 ==> Dwc3RockchipBoard::knobs_of(model).name == model,
{
}

proof fn lemma_first_where_at(names: Seq<Seq<char>>, p: spec_fn(Seq<char>) -> bool, i: int)
    requires
        0 <= i < names.len(),
        p(names[i]),
        forall|j: int| 0 <= j < i ==> !p(#[trigger] names[j]),
    ensures
        first_where(names, p) == Some(names[i]),
    decreases names.len(),
{
    if i > 0 {
        let rest = names.skip(1);
        assert(rest[i - 1] == names[i]);
        assert forall|j: int| 0 <= j < i - 1 implies !p(#[trigger] rest[j]) by {
            assert(rest[j] == names[j + 1]);
        }
        assert(!p(names[0]));
        lemma_first_where_at(rest, p, i - 1);
    }
}

/// The controller that is bound by role is the first whose name says `dwc3`, in
/// whatever case.
pub proof fn law_first_dwc3_is_bound(names: Seq<Seq<char>>, i: int)
    requires
        0 <= i < names.len(),
        text::contains_text(text::lower(names[i]), "dwc3"@),
        forall|j: int|
            0 <= j < i ==> !text::contains_text(text::lower(#[trigger] names[j]), "dwc3"@),
    ensures
        peripheral_choice(names) == Some(names[i]),
{
    lemma_first_where_at(names, |n: Seq<char>| says_dwc3(n), i);
}

/// Where no name says `dwc3`, the first one that says neither `xhci` nor `host`
/// is bound; where every one says either, none is.
pub proof fn law_first_device_is_bound(names: Seq<Seq<char>>, i: int)
    requires
        0 <= i <= names.len(),
        forall|j: int|
            0 <= j < names.len() ==> !text::contains_text(
                text::lower(#[trigger] names[j]),
                "dwc3"@,
            ),
        forall|j: int|
            0 <= j < i ==> text::contains_text(text::lower(#[trigger] names[j]), "xhci"@)
                || text::contains_text(text::lower(names[j]), "host"@),
        i < names.len() ==> !text::contains_text(text::lower(names[i]), "xhci"@)
            && !text::contains_text(text::lower(names[i]), "host"@),
    ensures
        i < names.len() ==> peripheral_choice(names) == Some(names[i]),
        i == names.len() ==> peripheral_choice(names) is None,
{
    let device = |n: Seq<char>| !says_host(n);
    lemma_first_where(names, |n: Seq<char>| says_dwc3(n));
    match first_where(names, |n: Seq<char>| says_dwc3(n)) {
        Some(n) => {
            let k = choose|k: int| 0 <= k < names.len() && names[k] == n;
            assert(!text::contains_text(text::lower(names[k]), "dwc3"@));
        },
        None => {},
    }
    if i < names.len() {
        lemma_first_where_at(names, device, i);
    } else {
        lemma_first_where(names, device);
        match first_where(names, device) {
            Some(n) => {
                let k = choose|k: int| 0 <= k < names.len() && names[k] == n;
                assert(says_host(names[k]));
            },
            None => {},
        }
    }
}

/// An optional string says what it holds.
pub proof fn law_optional_strings_say_what_they_hold(s: Option<String>, t: Option<&str>)
    ensures
        s matches Some(x) ==> opt_view(s) == Some(x@),
        s is None ==> opt_view(s) is None,
        t matches Some(x) ==> opt_str_view(t) == Some(x@),
        t is None ==> opt_str_view(t) is None,
{
}

/// The board that is selected is the one for the model that the model file has
/// and for the family that the controllers' files tell.
pub proof fn law_selection_follows_the_files<R: Fn(&str) -> Option<String>>(
    read: R,
    files: spec_fn(Seq<char>) -> Option<Seq<char>>,
    entries: Seq<Seq<char>>,
    raw: Seq<char>,
    board: Board,
)
    requires
        forall|p: &str, a: Option<String>| #[trigger]
            call_ensures(read, (p,), a) ==> opt_view(a) == files(p@),
        files("/sys/firmware/devicetree/base/model"@) == Some(raw),
        selected(read, entries, board),
    ensures
        (exists|i: int|
            0 <= i < entries.len() && says_family(
                files,
                uevent_path("/sys/class/udc"@, #[trigger] entries[i]),
                UdcFamily::Dwc3,
            )) ==> maps_to(model_name(raw), UdcFamily::Dwc3, board),
        (forall|i: int|
            0 <= i < entries.len() ==> !says_family(
                files,
                uevent_path("/sys/class/udc"@, #[trigger] entries[i]),
                UdcFamily::Dwc3,
            )) ==> maps_to(model_name(raw), UdcFamily::Other, board),
{
    let id = choose|id: BoardId|
        #[trigger] detected(read, entries, id) && maps_to(id.model@, id.udc_family, board);
    law_detection_tells_the_device(read, files, entries, id);
}

/// An identity from strings that were read is just those.
pub proof fn law_identities_are_not_guessed(model: Seq<char>, family: UdcFamily, id: BoardId)
    requires
        identifies(id, model, family),
    ensures
        id.model@ == model,
        id.udc_family == family,
{
}

} // verus!
