//! The life cycle of the USB mass-storage gadget.
//!
//! The gadget is a directory tree in configfs. This module works out which
//! steps bring it up, refresh it or take it down; the caller carries them out
//! in order. A step that may fail without harm is a `Try` step; where another
//! step fails, the caller stops there.

use vstd::prelude::*;
use vstd::string::*;

use crate::board;
use crate::board::GadgetBoard;
use crate::order;
use crate::serial;
use crate::text;

verus! {

/// Name of the gadget's directory below `usb_gadget`.
pub const GADGET_NAME: &'static str = "sentryusb";

/// US English. The kernel takes `0x0409` for the same language but keeps the
/// spelling that was created first, so everyone has to spell it alike.
pub const LANG: &'static str = "0x409";

/// The other spelling of [`LANG`], which may have been left behind.
pub const LANG_LONG: &'static str = "0x0409";

/// Name of the gadget's configuration directory below `configs`.
pub const CONFIG_NAME: &'static str = "c.1";

/// Disk images that can be exposed as LUNs.
pub const DISK_IMAGES: [&'static str; 4] = [
    "/backingfiles/cam_disk.bin",
    "/backingfiles/music_disk.bin",
    "/backingfiles/lightshow_disk.bin",
    "/backingfiles/boombox_disk.bin",
];

/// The labels of [`DISK_IMAGES`].
pub const DISK_LABELS: [&'static str; 4] = ["CAM", "MUSIC", "LIGHTSHOW", "BOOMBOX"];

/// Why the gadget could not be brought up or taken down.
#[derive(Debug, Clone, PartialEq, Eq)]
pub enum GadgetError {
    /// `/proc/mounts` could not be read.
    MountsUnreadable,
    /// No configfs is mounted.
    ConfigfsNotMounted,
    /// `/sys/class/udc` lists no controller.
    NoUdc,
    /// The board binds none of the listed controllers.
    NoUdcSelected { board: String, names: Vec<String> },
    /// The kernel took the name of the controller and did not keep it.
    BindRejected { udc: String, readback: String },
    /// The kernel refused the name of the controller.
    BindFailed { udc: String, cause: String },
}

// ---------------------------------------------------------------------------
// Steps
// ---------------------------------------------------------------------------

/// One thing for the caller to do.
#[derive(Debug, Clone, PartialEq, Eq)]
pub enum Step {
    /// Run `modprobe` with these arguments; its outcome does not matter.
    Modprobe(Vec<String>),
    /// Create a directory and its parents. `label` is how an error names it.
    CreateDir { path: String, label: String },
    /// Write a file.
    Write { path: String, content: String },
    /// Write a file if that is possible.
    TryWrite { path: String, content: String },
    /// Remove a file if that is possible.
    TryRemoveFile(String),
    /// Remove an empty directory if that is possible.
    TryRemoveDir(String),
    /// Make `link` point to `target`, in place of whatever is there.
    Link { target: String, link: String },
    /// Wait this many milliseconds.
    Sleep(u64),
}

/// What a [`Step`] says.
pub enum StepView {
    Modprobe(Seq<Seq<char>>),
    CreateDir { path: Seq<char>, label: Seq<char> },
    Write { path: Seq<char>, content: Seq<char> },
    TryWrite { path: Seq<char>, content: Seq<char> },
    TryRemoveFile(Seq<char>),
    TryRemoveDir(Seq<char>),
    Link { target: Seq<char>, link: Seq<char> },
    Sleep(u64),
}

impl View for Step {
    type V = StepView;

    open spec fn view(&self) -> StepView {
        match self {
            Step::Modprobe(args) => StepView::Modprobe(text::views(args@)),
            Step::CreateDir { path, label } => StepView::CreateDir { path: path@, label: label@ },
            Step::Write { path, content } => StepView::Write { path: path@, content: content@ },
            Step::TryWrite { path, content } => StepView::TryWrite {
                path: path@,
                content: content@,
            },
            Step::TryRemoveFile(path) => StepView::TryRemoveFile(path@),
            Step::TryRemoveDir(path) => StepView::TryRemoveDir(path@),
            Step::Link { target, link } => StepView::Link { target: target@, link: link@ },
            Step::Sleep(ms) => StepView::Sleep(*ms),
        }
    }
}

/// What a list of steps says.
pub open spec fn script(steps: Seq<Step>) -> Seq<StepView> {
    steps.map_values(|s: Step| s@)
}

/// Append a step.
fn add_step(steps: &mut Vec<Step>, step: Step)
    ensures
        script(final(steps)@) == script(old(steps)@).push(step@),
{
    steps.push(step);
    assert(script(steps@) =~= script(old(steps)@).push(step@));
}

/// Append all of `rest`.
fn add_steps(steps: &mut Vec<Step>, rest: &mut Vec<Step>)
    ensures
        script(final(steps)@) == script(old(steps)@) + script(old(rest)@),
{
    steps.append(rest);
    assert(script(steps@) =~= script(old(steps)@) + script(old(rest)@));
}

fn add_write(steps: &mut Vec<Step>, dir: &str, name: &str, content: &str)
    ensures
        script(final(steps)@) == script(old(steps)@).push(
            StepView::Write { path: text::path_below(dir@, name@), content: content@ },
        ),
{
    add_step(
        steps,
        Step::Write { path: text::join_path(dir, name), content: content.to_owned() },
    );
}

fn add_try_write(steps: &mut Vec<Step>, path: &str, content: &str)
    ensures
        script(final(steps)@) == script(old(steps)@).push(
            StepView::TryWrite { path: path@, content: content@ },
        ),
{
    add_step(steps, Step::TryWrite { path: path.to_owned(), content: content.to_owned() });
}

fn add_create_dir(steps: &mut Vec<Step>, path: &str)
    ensures
        script(final(steps)@) == script(old(steps)@).push(
            StepView::CreateDir { path: path@, label: path@ },
        ),
{
    add_step(steps, Step::CreateDir { path: path.to_owned(), label: path.to_owned() });
}

fn add_sleep(steps: &mut Vec<Step>, ms: u64)
    ensures
        script(final(steps)@) == script(old(steps)@).push(StepView::Sleep(ms)),
{
    add_step(steps, Step::Sleep(ms));
}

// ---------------------------------------------------------------------------
// Places
// ---------------------------------------------------------------------------

/// The mount point in the first line of a mount table whose third field says
/// `configfs`.
pub open spec fn configfs_among(lines: Seq<Seq<char>>) -> Option<Seq<char>>
    decreases lines.len(),
{
    if lines.len() == 0 {
        None
    } else {
        let f = text::fields(lines[0]);
        if f.len() >= 3 && f[2] == "configfs"@ {
            Some(f[1])
        } else {
            configfs_among(lines.skip(1))
        }
    }
}

/// What looking for the configfs mount point finds.
pub open spec fn finds_configfs(mounts: Option<&str>, res: Result<String, GadgetError>) -> bool {
    match mounts {
        None => res matches Err(GadgetError::MountsUnreadable),
        Some(m) => match configfs_among(text::lines(m@)) {
            Some(root) => res matches Ok(r) && r@ == root,
            None => res matches Err(GadgetError::ConfigfsNotMounted),
        },
    }
}

/// Find the configfs mount point in the text of `/proc/mounts`.
pub fn find_configfs_root(mounts: Option<&str>) -> (res: Result<String, GadgetError>)
    ensures
        finds_configfs(mounts, res),
{
    let m = match mounts {
        Some(m) => m,
        None => {
            return Err(GadgetError::MountsUnreadable);
        },
    };
    let lines = text::lines_of(m);
    let ghost all = text::views(lines@);
    let mut i: usize = 0;
    assert(all.skip(0) =~= all);
    while i < lines.len()
        invariant
            i <= lines.len(),
            all == text::views(lines@),
            all == text::lines(m@),
            mounts == Some(m),
            configfs_among(all.skip(i as int)) == configfs_among(all),
        decreases lines.len() - i,
    {
        assert(all.skip(i as int)[0] == lines@[i as int]@);
        let fields = text::fields_of(&lines[i]);
        let ghost f = text::fields(lines@[i as int]@);
        assert(f.len() == fields.len());
        if fields.len() >= 3 {
            assert(f[2] == fields@[2]@);
            assert(f[1] == fields@[1]@);
            if text::same_text(&fields[2], "configfs") {
                return Ok(fields[1].clone());
            }
        }
        assert(all.skip(i as int).skip(1) =~= all.skip(i + 1));
        i += 1;
    }
    Err(GadgetError::ConfigfsNotMounted)
}

/// The gadget's directory below the configfs mount point.
pub open spec fn gadget_path(root: Seq<char>) -> Seq<char> {
    text::path_below(text::path_below(root, "usb_gadget"@), GADGET_NAME@)
}

/// The gadget's directory below the configfs mount point.
pub fn gadget_dir(root: &str) -> (res: String)
    ensures
        res@ == gadget_path(root@),
{
    text::join_path(&text::join_path(root, "usb_gadget"), GADGET_NAME)
}

/// The gadget's configuration directory.
pub open spec fn config_path(gadget: Seq<char>) -> Seq<char> {
    text::path_below(text::path_below(gadget, "configs"@), CONFIG_NAME@)
}

fn config_dir(gadget: &str) -> (res: String)
    ensures
        res@ == config_path(gadget@),
{
    text::join_path(&text::join_path(gadget, "configs"), CONFIG_NAME)
}

/// The directory of strings in some language.
pub open spec fn strings_path(dir: Seq<char>, lang: Seq<char>) -> Seq<char> {
    text::path_below(text::path_below(dir, "strings"@), lang)
}

fn strings_dir(dir: &str, lang: &str) -> (res: String)
    ensures
        res@ == strings_path(dir@, lang@),
{
    text::join_path(&text::join_path(dir, "strings"), lang)
}

/// The gadget's mass-storage function.
pub open spec fn function_path(gadget: Seq<char>) -> Seq<char> {
    text::path_below(gadget, "functions/mass_storage.0"@)
}

fn function_dir(gadget: &str) -> (res: String)
    ensures
        res@ == function_path(gadget@),
{
    text::join_path(gadget, "functions/mass_storage.0")
}

/// The name of the LUN with a given number.
pub open spec fn lun_name(n: nat) -> Seq<char> {
    "lun."@ + text::decimal(n)
}

fn lun_name_of(n: u64) -> (res: String)
    ensures
        res@ == lun_name(n as nat),
{
    text::cat("lun.", &text::decimal_of(n))
}

/// The directory of the LUN with a given number.
pub open spec fn lun_path(gadget: Seq<char>, n: nat) -> Seq<char> {
    text::path_below(function_path(gadget), lun_name(n))
}

fn lun_dir(gadget: &str, n: u64) -> (res: String)
    ensures
        res@ == lun_path(gadget@, n as nat),
{
    text::join_path(&function_dir(gadget), &lun_name_of(n))
}

/// The attribute that names the backing file of the LUN with a given number.
pub open spec fn lun_file_path(gadget: Seq<char>, n: nat) -> Seq<char> {
    text::path_below(lun_path(gadget, n), "file"@)
}

/// The attribute that names the backing file of the LUN with a given number.
pub fn lun_file(gadget: &str, n: u64) -> (res: String)
    ensures
        res@ == lun_file_path(gadget@, n as nat),
{
    text::join_path(&lun_dir(gadget, n), "file")
}

// ---------------------------------------------------------------------------
// Liveness
// ---------------------------------------------------------------------------

/// The file could be read and holds more than white space.
pub open spec fn populated(contents: Option<&str>) -> bool {
    contents matches Some(s) && text::trim(s@).len() > 0
}

fn is_populated(contents: Option<&str>) -> (res: bool)
    ensures
        res == populated(contents),
{
    match contents {
        Some(s) => !text::trimmed(s).as_str().is_empty(),
        None => false,
    }
}

/// The backing file that a LUN's `file` attribute names, if it names one.
pub open spec fn named_file(lun_file: Option<&str>) -> Option<Seq<char>> {
    match lun_file {
        Some(s) => if text::trim(s@).len() > 0 {
            Some(text::trim(s@))
        } else {
            None
        },
        None => None,
    }
}

/// The backing file that a LUN's `file` attribute names, if it names one.
pub fn backing_file(lun_file: Option<&str>) -> (res: Option<String>)
    ensures
        board::opt_view(res) == named_file(lun_file),
{
    match lun_file {
        Some(s) => {
            let name = text::trimmed(s);
            if name.as_str().is_empty() {
                None
            } else {
                Some(name)
            }
        },
        None => None,
    }
}

/// Whether a configured gadget looks complete enough to bind again: the first
/// LUN names a backing file, and that file exists. Anything weaker means that
/// the gadget was left half built.
pub fn gadget_dir_is_complete(lun0_file: Option<&str>, backing_exists: bool) -> (res: bool)
    ensures
        res == (populated(lun0_file) && backing_exists),
{
    is_populated(lun0_file) && backing_exists
}

/// The gadget is bound to a controller and its first LUN names a backing file.
pub open spec fn active(udc: Option<&str>, lun0_file: Option<&str>) -> bool {
    populated(udc) && populated(lun0_file)
}

/// Whether the gadget is bound to a controller and its first LUN names a
/// backing file. A gadget that lost its LUN is not active, so that the next
/// enable rebuilds it.
pub fn gadget_two_signal_active(udc: Option<&str>, lun0_file: Option<&str>) -> (res: bool)
    ensures
        res == active(udc, lun0_file),
{
    is_populated(udc) && is_populated(lun0_file)
}

/// Liveness on the native path. The board has no say in it.
pub fn is_active_with<B: GadgetBoard>(
    _board: &B,
    udc: Option<&str>,
    lun0_file: Option<&str>,
) -> (res: bool)
    ensures
        res == active(udc, lun0_file),
{
    gadget_two_signal_active(udc, lun0_file)
}

/// Liveness on the hardcoded path.
pub fn legacy_is_active(udc: Option<&str>, lun0_file: Option<&str>) -> (res: bool)
    ensures
        res == active(udc, lun0_file),
{
    gadget_two_signal_active(udc, lun0_file)
}

/// Whether the gadget is active and healthy, from the contents of its `UDC` and
/// `lun.0/file` attributes. The answer is the same on both paths.
pub fn is_active<R: Fn(&str) -> Option<String>>(
    experimental: bool,
    udc_entries: &Vec<String>,
    read: R,
    udc: Option<&str>,
    lun0_file: Option<&str>,
) -> (res: bool)
    requires
        experimental ==> board::reads_device(read, text::views(udc_entries@)),
    ensures
        res == active(udc, lun0_file),
{
    if experimental {
        is_active_with(&board::select_board(udc_entries, read), udc, lun0_file)
    } else {
        legacy_is_active(udc, lun0_file)
    }
}

// ---------------------------------------------------------------------------
// Bringing the gadget up
// ---------------------------------------------------------------------------

/// What the caller found about one of the [`DISK_IMAGES`].
#[derive(Debug, Clone, Copy, PartialEq, Eq, Structural)]
pub struct ImageFact {
    /// The image file exists.
    pub present: bool,
    /// Its size in bytes, where that can be told.
    pub size: Option<u64>,
    /// The LUN whose number is the image's position has a `file` attribute.
    pub lun_file_present: bool,
}

/// What the caller found about the gadget and the machine.
pub struct DeviceFacts {
    /// The gadget's directory exists.
    pub gadget_exists: bool,
    /// The contents of its `lun.0/file` attribute.
    pub lun0_file: Option<String>,
    /// The file that this attribute names exists.
    pub lun0_backing_exists: bool,
    /// The contents of `/etc/machine-id`.
    pub machine_id: Option<String>,
    /// The facts about each of the [`DISK_IMAGES`].
    pub images: [ImageFact; 4],
}

/// What a [`DeviceFacts`] says.
pub struct FactsView {
    pub gadget_exists: bool,
    pub complete: bool,
    pub serial: Seq<char>,
    pub images: Seq<ImageFact>,
}

impl View for DeviceFacts {
    type V = FactsView;

    open spec fn view(&self) -> FactsView {
        FactsView {
            gadget_exists: self.gadget_exists,
            complete: self.lun0_backing_exists && (self.lun0_file matches Some(s) && text::trim(
                s@,
            ).len() > 0),
            serial: serial::machine_serial(
                match self.machine_id {
                    Some(s) => s@,
                    None => Seq::empty(),
                },
            ),
            images: self.images@,
        }
    }
}

impl DeviceFacts {
    /// The gadget stands and is complete.
    pub open spec fn kept(&self) -> bool {
        self@.gadget_exists && self@.complete
    }

    /// The machine id is short enough to be digested, where a serial number is
    /// needed.
    pub open spec fn digestible(&self) -> bool {
        self.kept() || serial::digestible(board::opt_view(self.machine_id))
    }

    fn is_kept(&self) -> (res: bool)
        ensures
            res == self.kept(),
    {
        let complete = match &self.lun0_file {
            Some(s) => gadget_dir_is_complete(Some(s.as_str()), self.lun0_backing_exists),
            None => gadget_dir_is_complete(None, self.lun0_backing_exists),
        };
        self.gadget_exists && complete
    }

    /// Whether the machine id is short enough to be digested, where a serial
    /// number is needed.
    pub fn is_digestible(&self) -> (res: bool)
        ensures
            res == self.digestible(),
    {
        if self.is_kept() {
            return true;
        }
        match &self.machine_id {
            Some(s) => serial::is_digestible(Some(s.as_str())),
            None => true,
        }
    }
}

/// A byte count in the largest unit that goes into it, rounded down.
pub open spec fn size_text(bytes: nat) -> Seq<char> {
    if bytes >= 1_073_741_824 {
        text::decimal(bytes / 1_073_741_824).push('G')
    } else if bytes >= 1_048_576 {
        text::decimal(bytes / 1_048_576).push('M')
    } else if bytes >= 1024 {
        text::decimal(bytes / 1024).push('K')
    } else {
        text::decimal(bytes).push('B')
    }
}

/// Format a byte count for humans, such as `32G` or `512M`.
pub fn format_size(bytes: u64) -> (res: String)
    ensures
        res@ == size_text(bytes as nat),
{
    if bytes >= 1_073_741_824 {
        let mut s = text::decimal_of(bytes / 1_073_741_824);
        s.push('G');
        s
    } else if bytes >= 1_048_576 {
        let mut s = text::decimal_of(bytes / 1_048_576);
        s.push('M');
        s
    } else if bytes >= 1024 {
        let mut s = text::decimal_of(bytes / 1024);
        s.push('K');
        s
    } else {
        let mut s = text::decimal_of(bytes);
        s.push('B');
        s
    }
}

/// How an image's size is shown; `?` where it cannot be told.
pub open spec fn shown_size(size: Option<u64>) -> Seq<char> {
    match size {
        Some(n) => size_text(n as nat),
        None => "?"@,
    }
}

/// What a LUN answers when it is asked what it is.
pub open spec fn inquiry(label: Seq<char>, size: Option<u64>) -> Seq<char> {
    "SentryUSB "@ + label + " "@ + shown_size(size)
}

fn inquiry_of(label: &str, size: Option<u64>) -> (res: String)
    ensures
        res@ == inquiry(label@, size),
{
    let shown = match size {
        Some(n) => format_size(n),
        None => "?".to_owned(),
    };
    text::cat(&text::cat(&text::cat("SentryUSB ", label), " "), &shown)
}

/// How many of the first `i` images exist.
pub open spec fn present_before(images: Seq<ImageFact>, i: nat) -> nat
    decreases i,
{
    if i == 0 {
        0
    } else {
        present_before(images, (i - 1) as nat) + (if images[i - 1].present {
            1nat
        } else {
            0nat
        })
    }
}

/// The steps that expose the image at position `i` as LUN number `lun`. Every
/// LUN directory is created, the first one too: not every kernel has made it by
/// then, and a write to `lun.0/file` would be lost.
pub open spec fn lun_steps(gadget: Seq<char>, i: int, lun: nat, size: Option<u64>) -> Seq<
    StepView,
> {
    let dir = lun_path(gadget, lun);
    seq![
        StepView::CreateDir { path: dir, label: lun_name(lun) + " at "@ + dir },
        StepView::Write { path: text::path_below(dir, "file"@), content: DISK_IMAGES@[i]@ },
        StepView::Write {
            path: text::path_below(dir, "inquiry_string"@),
            content: inquiry(DISK_LABELS@[i]@, size),
        },
    ]
}

/// The steps that expose those of the first `i` images that exist, as LUNs
/// numbered from zero on.
pub open spec fn luns_script(gadget: Seq<char>, images: Seq<ImageFact>, i: nat) -> Seq<StepView>
    decreases i,
{
    if i == 0 {
        Seq::empty()
    } else {
        let before = luns_script(gadget, images, (i - 1) as nat);
        let image = images[i - 1];
        if image.present {
            before + lun_steps(gadget, i - 1, present_before(images, (i - 1) as nat), image.size)
        } else {
            before
        }
    }
}

/// The steps that load the modules, one `modprobe` for each: two names on one
/// command line are taken for a module and its parameter.
pub open spec fn modules_script(modules: Seq<Seq<char>>) -> Seq<StepView> {
    modules.map_values(|m: Seq<char>| StepView::Modprobe(seq![m]))
}

/// The steps that set up the gadget's directories and descriptors.
pub open spec fn descriptor_script(gadget: Seq<char>, power: u32, serial: Seq<char>) -> Seq<
    StepView,
> {
    let config = config_path(gadget);
    let strings = strings_path(gadget, LANG@);
    let config_strings = strings_path(config, LANG@);
    seq![
        StepView::CreateDir { path: config, label: config },
        StepView::Write { path: text::path_below(gadget, "idVendor"@), content: "0x1d6b"@ },
        StepView::Write { path: text::path_below(gadget, "idProduct"@), content: "0x0104"@ },
        StepView::Write { path: text::path_below(gadget, "bcdDevice"@), content: "0x0100"@ },
        StepView::Write { path: text::path_below(gadget, "bcdUSB"@), content: "0x0200"@ },
        StepView::CreateDir { path: strings, label: strings },
        StepView::CreateDir { path: config_strings, label: config_strings },
        StepView::Write { path: text::path_below(strings, "serialnumber"@), content: serial },
        StepView::Write {
            path: text::path_below(strings, "manufacturer"@),
            content: "SentryUSB"@,
        },
        StepView::Write {
            path: text::path_below(strings, "product"@),
            content: "SentryUSB Composite Gadget"@,
        },
        StepView::Write {
            path: text::path_below(config_strings, "configuration"@),
            content: "SentryUSB Config"@,
        },
        StepView::Write {
            path: text::path_below(config, "MaxPower"@),
            content: text::decimal(power as nat),
        },
        StepView::CreateDir { path: function_path(gadget), label: function_path(gadget) },
    ]
}

/// The steps that build the gadget from scratch, up to the bind.
pub open spec fn build_script(
    gadget: Seq<char>,
    power: u32,
    modules: Seq<Seq<char>>,
    settle_ms: u64,
    facts: FactsView,
) -> Seq<StepView> {
    modules_script(modules) + descriptor_script(gadget, power, facts.serial) + luns_script(
        gadget,
        facts.images,
        4,
    ) + seq![
        StepView::Link {
            target: function_path(gadget),
            link: text::path_below(config_path(gadget), "mass_storage.0"@),
        },
        StepView::Sleep(settle_ms),
    ]
}

fn build_steps(
    gadget: &str,
    power: u32,
    modules: &Vec<&'static str>,
    settle_ms: u64,
    facts: &DeviceFacts,
) -> (res: Vec<Step>)
    requires
        serial::digestible(board::opt_view(facts.machine_id)),
    ensures
        script(res@) == build_script(
            gadget@,
            power,
            modules@.map_values(|m: &'static str| m@),
            settle_ms,
            facts@,
        ),
{
    let mut steps: Vec<Step> = Vec::new();
    let ghost names = modules@.map_values(|m: &'static str| m@);
    let mut i: usize = 0;
    assert(script(steps@) =~= modules_script(names).take(0));
    while i < modules.len()
        invariant
            i <= modules.len(),
            names == modules@.map_values(|m: &'static str| m@),
            script(steps@) == modules_script(names).take(i as int),
        decreases modules.len() - i,
    {
        let mut args: Vec<String> = Vec::new();
        args.push(modules[i].to_owned());
        assert(text::views(args@) =~= seq![names[i as int]]);
        add_step(&mut steps, Step::Modprobe(args));
        assert(modules_script(names).take(i + 1) =~= modules_script(names).take(i as int).push(
            StepView::Modprobe(seq![names[i as int]]),
        ));
        i += 1;
    }
    assert(modules_script(names).take(i as int) =~= modules_script(names));
    let ghost loaded = script(steps@);

    let config = config_dir(gadget);
    let strings = strings_dir(gadget, LANG);
    let config_strings = strings_dir(&config, LANG);
    let serial = match &facts.machine_id {
        Some(s) => serial::get_machine_serial(Some(s.as_str())),
        None => serial::get_machine_serial(None),
    };
    let function = function_dir(gadget);
    add_create_dir(&mut steps, &config);
    add_write(&mut steps, gadget, "idVendor", "0x1d6b");
    add_write(&mut steps, gadget, "idProduct", "0x0104");
    add_write(&mut steps, gadget, "bcdDevice", "0x0100");
    add_write(&mut steps, gadget, "bcdUSB", "0x0200");
    add_create_dir(&mut steps, &strings);
    add_create_dir(&mut steps, &config_strings);
    add_write(&mut steps, &strings, "serialnumber", &serial);
    add_write(&mut steps, &strings, "manufacturer", "SentryUSB");
    add_write(&mut steps, &strings, "product", "SentryUSB Composite Gadget");
    add_write(&mut steps, &config_strings, "configuration", "SentryUSB Config");
    add_write(&mut steps, &config, "MaxPower", &text::decimal_of(power as u64));
    add_create_dir(&mut steps, &function);
    assert(script(steps@) =~= loaded + descriptor_script(gadget@, power, facts@.serial));
    let ghost described = script(steps@);

    let mut lun: u64 = 0;
    let mut k: usize = 0;
    assert(described + luns_script(gadget@, facts@.images, 0) =~= described);
    while k < 4
        invariant
            k <= 4,
            lun == present_before(facts@.images, k as nat),
            lun <= k,
            script(steps@) == described + luns_script(gadget@, facts@.images, k as nat),
        decreases 4 - k,
    {
        let image = facts.images[k];
        if image.present {
            let dir = lun_dir(gadget, lun);
            let label = text::cat(&text::cat(&lun_name_of(lun), " at "), &dir);
            let ghost before = script(steps@);
            let inquiry = inquiry_of(DISK_LABELS[k], image.size);
            add_step(&mut steps, Step::CreateDir { path: dir.clone(), label });
            add_write(&mut steps, &dir, "file", DISK_IMAGES[k]);
            add_write(&mut steps, &dir, "inquiry_string", &inquiry);
            assert(script(steps@) =~= before + lun_steps(
                gadget@,
                k as int,
                lun as nat,
                image.size,
            ));
            assert(script(steps@) =~= described + luns_script(
                gadget@,
                facts@.images,
                (k + 1) as nat,
            ));
            lun += 1;
        }
        k += 1;
    }
    add_step(
        &mut steps,
        Step::Link { target: function, link: text::join_path(&config, "mass_storage.0") },
    );
    add_sleep(&mut steps, settle_ms);
    assert(script(steps@) =~= build_script(gadget@, power, names, settle_ms, facts@));
    steps
}

/// The steps that make the kernel open the backing files of the first `i` LUNs
/// again. Some kernels close them when the gadget is unbound.
pub open spec fn reopen_script(gadget: Seq<char>, images: Seq<ImageFact>, i: nat) -> Seq<StepView>
    decreases i,
{
    if i == 0 {
        Seq::empty()
    } else {
        let before = reopen_script(gadget, images, (i - 1) as nat);
        let image = images[i - 1];
        let file = lun_file_path(gadget, (i - 1) as nat);
        if image.lun_file_present && image.present {
            before + seq![
                StepView::TryWrite { path: file, content: "\n"@ },
                StepView::Sleep(1000),
                StepView::TryWrite { path: file, content: DISK_IMAGES@[i - 1]@ },
            ]
        } else {
            before
        }
    }
}

/// The steps that make a complete gadget ready to be bound again.
pub open spec fn refresh_script(gadget: Seq<char>, settle_ms: u64, images: Seq<ImageFact>) -> Seq<
    StepView,
> {
    reopen_script(gadget, images, 4).push(StepView::Sleep(settle_ms))
}

fn refresh_steps(gadget: &str, settle_ms: u64, images: &[ImageFact; 4]) -> (res: Vec<Step>)
    ensures
        script(res@) == refresh_script(gadget@, settle_ms, images@),
{
    let mut steps: Vec<Step> = Vec::new();
    assert(script(steps@) =~= reopen_script(gadget@, images@, 0));
    let mut k: usize = 0;
    while k < 4
        invariant
            k <= 4,
            script(steps@) == reopen_script(gadget@, images@, k as nat),
        decreases 4 - k,
    {
        let image = images[k];
        if image.lun_file_present && image.present {
            let file = lun_file(gadget, k as u64);
            let ghost before = script(steps@);
            add_try_write(&mut steps, &file, "\n");
            add_sleep(&mut steps, 1000);
            add_try_write(&mut steps, &file, DISK_IMAGES[k]);
            assert(script(steps@) =~= reopen_script(gadget@, images@, (k + 1) as nat));
        }
        k += 1;
    }
    add_sleep(&mut steps, settle_ms);
    steps
}

// ---------------------------------------------------------------------------
// Taking the gadget down
// ---------------------------------------------------------------------------

/// What [`release_step`] says.
pub open spec fn release_view() -> StepView {
    StepView::Modprobe(seq!["-q"@, "-r"@, "g_mass_storage"@])
}

/// The step that makes the single-function gadget let go of the controller. It
/// comes first whenever the gadget is brought up or taken down; taking the
/// gadget down, it is carried out even where no configfs is found.
pub fn release_step() -> (res: Step)
    ensures
        res@ == release_view(),
{
    let mut args: Vec<String> = Vec::new();
    args.push("-q".to_owned());
    args.push("-r".to_owned());
    args.push("g_mass_storage".to_owned());
    assert(text::views(args@) =~= seq!["-q"@, "-r"@, "g_mass_storage"@]);
    Step::Modprobe(args)
}

/// The modules that the teardown sweeps on every board.
pub const SWEPT_MODULES: [&'static str; 3] = ["g_ether", "usb_f_ecm", "usb_f_rndis"];

/// What the hardcoded teardown passes to `modprobe`.
pub open spec fn legacy_unload() -> Seq<Seq<char>> {
    seq![
        "-r"@,
        "usb_f_mass_storage"@,
        "g_ether"@,
        "usb_f_ecm"@,
        "usb_f_rndis"@,
        "libcomposite"@,
    ]
}

/// The modules other than the composite one.
pub open spec fn dependents(modules: Seq<Seq<char>>) -> Seq<Seq<char>>
    decreases modules.len(),
{
    if modules.len() == 0 {
        Seq::empty()
    } else {
        let before = dependents(modules.drop_last());
        if modules.last() == "libcomposite"@ {
            before
        } else {
            before.push(modules.last())
        }
    }
}

/// The first `i` of the [`SWEPT_MODULES`], without those among `modules`.
pub open spec fn swept(modules: Seq<Seq<char>>, i: nat) -> Seq<Seq<char>>
    decreases i,
{
    if i == 0 {
        Seq::empty()
    } else {
        let before = swept(modules, (i - 1) as nat);
        let name = SWEPT_MODULES@[i - 1]@;
        if modules.contains(name) {
            before
        } else {
            before.push(name)
        }
    }
}

/// What the teardown passes to `modprobe` on a board that loads `modules`. The
/// composite module comes last, so that those which depend on it go first.
pub open spec fn board_unload(modules: Seq<Seq<char>>) -> Seq<Seq<char>> {
    seq!["-r"@] + dependents(modules) + swept(modules, 3) + seq!["libcomposite"@]
}

fn is_among(modules: &Vec<&'static str>, name: &str) -> (res: bool)
    ensures
        res == modules@.map_values(|m: &'static str| m@).contains(name@),
{
    let ghost names = modules@.map_values(|m: &'static str| m@);
    let mut i: usize = 0;
    while i < modules.len()
        invariant
            i <= modules.len(),
            names == modules@.map_values(|m: &'static str| m@),
            forall|j: int| 0 <= j < i ==> names[j] != name@,
        decreases modules.len() - i,
    {
        if text::same_text(modules[i], name) {
            assert(names[i as int] == name@);
            return true;
        }
        i += 1;
    }
    false
}

fn board_unload_args(modules: &Vec<&'static str>) -> (res: Vec<String>)
    ensures
        text::views(res@) == board_unload(modules@.map_values(|m: &'static str| m@)),
{
    let ghost names = modules@.map_values(|m: &'static str| m@);
    let mut args: Vec<String> = Vec::new();
    args.push("-r".to_owned());
    let mut i: usize = 0;
    assert(text::views(args@) =~= seq!["-r"@] + dependents(names.take(0)));
    while i < modules.len()
        invariant
            i <= modules.len(),
            names == modules@.map_values(|m: &'static str| m@),
            text::views(args@) == seq!["-r"@] + dependents(names.take(i as int)),
        decreases modules.len() - i,
    {
        let ghost before = text::views(args@);
        assert(names.take(i + 1).drop_last() =~= names.take(i as int));
        if !text::same_text(modules[i], "libcomposite") {
            args.push(modules[i].to_owned());
            assert(text::views(args@) =~= before.push(names[i as int]));
            assert(text::views(args@) =~= seq!["-r"@] + dependents(names.take(i + 1)));
        }
        i += 1;
    }
    assert(names.take(i as int) =~= names);
    let ghost own = text::views(args@);
    let mut k: usize = 0;
    assert(own + swept(names, 0) =~= own);
    while k < 3
        invariant
            k <= 3,
            names == modules@.map_values(|m: &'static str| m@),
            text::views(args@) == own + swept(names, k as nat),
        decreases 3 - k,
    {
        let ghost before = text::views(args@);
        if !is_among(modules, SWEPT_MODULES[k]) {
            args.push(SWEPT_MODULES[k].to_owned());
            assert(text::views(args@) =~= before.push(SWEPT_MODULES@[k as int]@));
            assert(text::views(args@) =~= own + swept(names, (k + 1) as nat));
        }
        k += 1;
    }
    args.push("libcomposite".to_owned());
    assert(text::views(args@) =~= board_unload(names));
    args
}

/// The steps that empty the first `i` LUNs.
pub open spec fn empty_script(gadget: Seq<char>, i: nat) -> Seq<StepView> {
    Seq::new(
        i,
        |n: int| StepView::TryWrite { path: lun_file_path(gadget, n as nat), content: "\n"@ },
    )
}

/// The steps that remove the LUNs number 1 to `i`. The first LUN belongs to the
/// function and goes with it.
pub open spec fn drop_script(gadget: Seq<char>, i: nat) -> Seq<StepView> {
    Seq::new(i, |n: int| StepView::TryRemoveDir(lun_path(gadget, (n + 1) as nat)))
}

/// The steps that take a gadget down, with the last `modprobe`'s arguments.
/// The link goes first: while it is there the function counts as in use, its
/// LUNs cannot be emptied and nothing below can be removed.
pub open spec fn teardown_script(gadget: Seq<char>, unload: Seq<Seq<char>>) -> Seq<StepView> {
    let config = config_path(gadget);
    seq![
        StepView::TryWrite { path: text::path_below(gadget, "UDC"@), content: "\n"@ },
        StepView::TryRemoveFile(text::path_below(config, "mass_storage.0"@)),
        StepView::TryRemoveDir(strings_path(config, LANG@)),
        StepView::TryRemoveDir(strings_path(config, LANG_LONG@)),
    ] + empty_script(gadget, 5) + drop_script(gadget, 4) + seq![
        StepView::TryRemoveDir(function_path(gadget)),
        StepView::TryRemoveDir(config),
        StepView::TryRemoveDir(strings_path(gadget, LANG@)),
        StepView::TryRemoveDir(strings_path(gadget, LANG_LONG@)),
        StepView::TryRemoveDir(gadget),
        StepView::Modprobe(unload),
    ]
}

fn teardown_steps(gadget: &str, unload: Vec<String>) -> (res: Vec<Step>)
    ensures
        script(res@) == teardown_script(gadget@, text::views(unload@)),
{
    let config = config_dir(gadget);
    let mut steps: Vec<Step> = Vec::new();
    add_try_write(&mut steps, &text::join_path(gadget, "UDC"), "\n");
    add_step(&mut steps, Step::TryRemoveFile(text::join_path(&config, "mass_storage.0")));
    add_step(&mut steps, Step::TryRemoveDir(strings_dir(&config, LANG)));
    add_step(&mut steps, Step::TryRemoveDir(strings_dir(&config, LANG_LONG)));
    let ghost detached = script(steps@);
    assert(detached + empty_script(gadget@, 0) =~= detached);
    let mut i: u64 = 0;
    while i < 5
        invariant
            i <= 5,
            script(steps@) == detached + empty_script(gadget@, i as nat),
        decreases 5 - i,
    {
        let ghost before = script(steps@);
        add_try_write(&mut steps, &lun_file(gadget, i), "\n");
        i += 1;
        assert(script(steps@) =~= detached + empty_script(gadget@, i as nat));
    }
    let ghost emptied = script(steps@);
    assert(emptied + drop_script(gadget@, 0) =~= emptied);
    let mut k: u64 = 0;
    while k < 4
        invariant
            k <= 4,
            script(steps@) == emptied + drop_script(gadget@, k as nat),
        decreases 4 - k,
    {
        add_step(&mut steps, Step::TryRemoveDir(lun_dir(gadget, k + 1)));
        k += 1;
        assert(script(steps@) =~= emptied + drop_script(gadget@, k as nat));
    }
    add_step(&mut steps, Step::TryRemoveDir(function_dir(gadget)));
    add_step(&mut steps, Step::TryRemoveDir(config));
    add_step(&mut steps, Step::TryRemoveDir(strings_dir(gadget, LANG)));
    add_step(&mut steps, Step::TryRemoveDir(strings_dir(gadget, LANG_LONG)));
    add_step(&mut steps, Step::TryRemoveDir(gadget.to_owned()));
    let ghost args = text::views(unload@);
    add_step(&mut steps, Step::Modprobe(unload));
    assert(script(steps@) =~= teardown_script(gadget@, args));
    steps
}

/// How a gadget is taken down. Where there is none, only the single-function
/// gadget lets go of the controller.
pub open spec fn disable_script(
    gadget: Seq<char>,
    gadget_exists: bool,
    unload: Seq<Seq<char>>,
) -> Seq<StepView> {
    if gadget_exists {
        seq![release_view()] + teardown_script(gadget, unload)
    } else {
        seq![release_view()]
    }
}

fn disable_steps(gadget: &str, unload: Vec<String>) -> (res: Vec<Step>)
    ensures
        script(res@) == disable_script(gadget@, true, text::views(unload@)),
{
    let mut steps: Vec<Step> = Vec::new();
    add_step(&mut steps, release_step());
    assert(script(steps@) =~= seq![release_view()]);
    let mut rest = teardown_steps(gadget, unload);
    add_steps(&mut steps, &mut rest);
    steps
}

fn nothing_to_disable() -> (res: Vec<Step>)
    ensures
        script(res@) == seq![release_view()],
{
    let mut steps: Vec<Step> = Vec::new();
    add_step(&mut steps, release_step());
    assert(script(steps@) =~= seq![release_view()]);
    steps
}

fn legacy_unload_args() -> (res: Vec<String>)
    ensures
        text::views(res@) == legacy_unload(),
{
    let mut args: Vec<String> = Vec::new();
    args.push("-r".to_owned());
    args.push("usb_f_mass_storage".to_owned());
    args.push("g_ether".to_owned());
    args.push("usb_f_ecm".to_owned());
    args.push("usb_f_rndis".to_owned());
    args.push("libcomposite".to_owned());
    assert(text::views(args@) =~= legacy_unload());
    args
}

/// Take the gadget down and unload the hardcoded modules.
pub fn legacy_disable(gadget: &str, gadget_exists: bool) -> (res: Vec<Step>)
    ensures
        script(res@) == disable_script(gadget@, gadget_exists, legacy_unload()),
{
    if gadget_exists {
        disable_steps(gadget, legacy_unload_args())
    } else {
        nothing_to_disable()
    }
}

/// Take the gadget down and unload what the board loads.
pub fn disable_with<B: GadgetBoard>(board: &B, gadget: &str, gadget_exists: bool) -> (res: Vec<
    Step,
>)
    ensures
        script(res@) == disable_script(
            gadget@,
            gadget_exists,
            board_unload(board.knobs().modules),
        ),
{
    if gadget_exists {
        disable_steps(gadget, board_unload_args(&board.load_modules()))
    } else {
        nothing_to_disable()
    }
}

// ---------------------------------------------------------------------------
// The plan to bring the gadget up
// ---------------------------------------------------------------------------

/// How to bring the gadget up. The bind, for which see [`bind_plan`], comes
/// after the steps in either case.
pub enum EnablePlan {
    /// The gadget stands; only its LUNs have to be opened again.
    Rebind { steps: Vec<Step> },
    /// Build the gadget, once `clear` has made room for it.
    Build { clear: Vec<Step>, steps: Vec<Step> },
}

/// What an [`EnablePlan`] says.
pub enum EnableView {
    Rebind { steps: Seq<StepView> },
    Build { clear: Seq<StepView>, steps: Seq<StepView> },
}

impl View for EnablePlan {
    type V = EnableView;

    open spec fn view(&self) -> EnableView {
        match self {
            EnablePlan::Rebind { steps } => EnableView::Rebind { steps: script(steps@) },
            EnablePlan::Build { clear, steps } => EnableView::Build {
                clear: script(clear@),
                steps: script(steps@),
            },
        }
    }
}

/// How the gadget at `gadget` is brought up with the given knobs. The
/// single-function gadget has to let go of the controller first. A complete
/// gadget is kept; one that is incomplete would enumerate without its LUNs, so
/// it is taken down and built again.
pub open spec fn enable_plan(
    gadget: Seq<char>,
    power: u32,
    modules: Seq<Seq<char>>,
    unload: Seq<Seq<char>>,
    settle_ms: u64,
    facts: FactsView,
) -> EnableView {
    if facts.gadget_exists && facts.complete {
        EnableView::Rebind {
            steps: seq![release_view()] + refresh_script(gadget, settle_ms, facts.images),
        }
    } else {
        EnableView::Build {
            clear: if facts.gadget_exists {
                seq![release_view()] + disable_script(gadget, true, unload)
            } else {
                seq![release_view()]
            },
            steps: build_script(gadget, power, modules, settle_ms, facts),
        }
    }
}

/// How the hardcoded path brings the gadget up.
pub open spec fn legacy_enable_plan(
    gadget: Seq<char>,
    model: Seq<char>,
    facts: FactsView,
) -> EnableView {
    enable_plan(
        gadget,
        serial::model_power(model),
        board::default_modules(),
        legacy_unload(),
        3000,
        facts,
    )
}

/// How a board with these knobs brings the gadget up.
pub open spec fn board_enable_plan(
    knobs: board::Knobs,
    gadget: Seq<char>,
    facts: FactsView,
) -> EnableView {
    enable_plan(
        gadget,
        knobs.max_power_ma,
        knobs.modules,
        board_unload(knobs.modules),
        knobs.lun_settle_ms,
        facts,
    )
}

fn plan_enable(
    gadget: &str,
    power: u32,
    modules: &Vec<&'static str>,
    unload: Vec<String>,
    settle_ms: u64,
    facts: &DeviceFacts,
) -> (res: EnablePlan)
    requires
        facts.digestible(),
    ensures
        res@ == enable_plan(
            gadget@,
            power,
            modules@.map_values(|m: &'static str| m@),
            text::views(unload@),
            settle_ms,
            facts@,
        ),
{
    let mut first: Vec<Step> = Vec::new();
    add_step(&mut first, release_step());
    assert(script(first@) =~= seq![release_view()]);
    if facts.is_kept() {
        let mut rest = refresh_steps(gadget, settle_ms, &facts.images);
        add_steps(&mut first, &mut rest);
        return EnablePlan::Rebind { steps: first };
    }
    if facts.gadget_exists {
        let mut rest = disable_steps(gadget, unload);
        add_steps(&mut first, &mut rest);
    }
    EnablePlan::Build {
        clear: first,
        steps: build_steps(gadget, power, modules, settle_ms, facts),
    }
}

/// Bring the gadget up with the hardcoded knobs. `model` is the text of
/// `/proc/device-tree/model`.
pub fn legacy_enable(gadget: &str, model: Option<&str>, facts: &DeviceFacts) -> (res: EnablePlan)
    requires
        facts.digestible(),
    ensures
        res@ == legacy_enable_plan(gadget@, serial::text_or_empty(model), facts@),
{
    let mut modules: Vec<&'static str> = Vec::new();
    modules.push("libcomposite");
    modules.push("usb_f_mass_storage");
    assert(modules@.map_values(|m: &'static str| m@) =~= board::default_modules());
    let power: u32 = serial::get_max_power(model);
    plan_enable(gadget, power, &modules, legacy_unload_args(), 3000, facts)
}

/// Bring the gadget up with the knobs of a board.
pub fn enable_with<B: GadgetBoard>(board: &B, gadget: &str, facts: &DeviceFacts) -> (res:
    EnablePlan)
    requires
        facts.digestible(),
    ensures
        res@ == board_enable_plan(board.knobs(), gadget@, facts@),
{
    let modules = board.load_modules();
    let unload = board_unload_args(&modules);
    let power: u32 = board.max_power_ma();
    let settle_ms: u64 = board.lun_settle_ms();
    plan_enable(gadget, power, &modules, unload, settle_ms, facts)
}

// ---------------------------------------------------------------------------
// Dispatch
// ---------------------------------------------------------------------------

/// The plan of [`enable`]: that of the detected board where the experimental flag
/// is on, and the hardcoded one otherwise.
pub open spec fn enables<R: Fn(&str) -> Option<String>>(
    experimental: bool,
    entries: Seq<Seq<char>>,
    read: R,
    gadget: Seq<char>,
    model: Seq<char>,
    facts: FactsView,
    plan: EnableView,
) -> bool {
    if experimental {
        exists|b: board::Board| #[trigger]
            board::selected(read, entries, b) && plan == board_enable_plan(
                b.knobs(),
                gadget,
                facts,
            )
    } else {
        plan == legacy_enable_plan(gadget, model, facts)
    }
}

/// The steps of [`disable`], with the same dispatch.
pub open spec fn disables<R: Fn(&str) -> Option<String>>(
    experimental: bool,
    entries: Seq<Seq<char>>,
    read: R,
    gadget: Seq<char>,
    gadget_exists: bool,
    steps: Seq<StepView>,
) -> bool {
    if experimental {
        exists|b: board::Board| #[trigger]
            board::selected(read, entries, b) && steps == disable_script(
                gadget,
                gadget_exists,
                board_unload(b.knobs().modules),
            )
    } else {
        steps == disable_script(gadget, gadget_exists, legacy_unload())
    }
}

/// Bring the gadget up: with the knobs of the detected board where the
/// experimental flag is on, and with the hardcoded ones otherwise.
pub fn enable<R: Fn(&str) -> Option<String>>(
    experimental: bool,
    udc_entries: &Vec<String>,
    read: R,
    gadget: &str,
    model: Option<&str>,
    facts: &DeviceFacts,
) -> (res: EnablePlan)
    requires
        experimental ==> board::reads_device(read, text::views(udc_entries@)),
        facts.digestible(),
    ensures
        enables(
            experimental,
            text::views(udc_entries@),
            read,
            gadget@,
            serial::text_or_empty(model),
            facts@,
            res@,
        ),
{
    if experimental {
        enable_with(&board::select_board(udc_entries, read), gadget, facts)
    } else {
        legacy_enable(gadget, model, facts)
    }
}

/// Take the gadget down, with the same dispatch as [`enable`].
pub fn disable<R: Fn(&str) -> Option<String>>(
    experimental: bool,
    udc_entries: &Vec<String>,
    read: R,
    gadget: &str,
    gadget_exists: bool,
) -> (res: Vec<Step>)
    requires
        experimental ==> board::reads_device(read, text::views(udc_entries@)),
    ensures
        disables(
            experimental,
            text::views(udc_entries@),
            read,
            gadget@,
            gadget_exists,
            script(res@),
        ),
{
    if experimental {
        disable_with(&board::select_board(udc_entries, read), gadget, gadget_exists)
    } else {
        legacy_disable(gadget, gadget_exists)
    }
}

// ---------------------------------------------------------------------------
// Binding
// ---------------------------------------------------------------------------

/// Find the first available controller in a listing of `/sys/class/udc`, in the
/// order in which it was listed.
pub fn find_udc(entries: Option<&Vec<String>>) -> (res: Result<String, GadgetError>)
    ensures
        match entries {
            Some(names) if names@.len() > 0 => res matches Ok(udc) && udc@ == names@[0]@,
            _ => res matches Err(GadgetError::NoUdc),
        },
{
    match entries {
        Some(names) => if names.len() > 0 {
            Ok(names[0].clone())
        } else {
            Err(GadgetError::NoUdc)
        },
        None => Err(GadgetError::NoUdc),
    }
}

/// The names of the controllers for a board to choose from by role, sorted.
pub fn list_udc_names_for_bind(entries: Option<&Vec<String>>) -> (res: Result<
    Vec<String>,
    GadgetError,
>)
    ensures
        match entries {
            Some(names) if names@.len() > 0 => res matches Ok(listed) && text::views(listed@)
                == order::sorted(text::views(names@)),
            _ => res matches Err(GadgetError::NoUdc),
        },
{
    match entries {
        Some(names) => if names.len() > 0 {
            Ok(order::sort_names(names))
        } else {
            Err(GadgetError::NoUdc)
        },
        None => Err(GadgetError::NoUdc),
    }
}

/// How to bind the gadget: the steps before the first attempt, the controller
/// to write to the gadget's `UDC` attribute, and the steps once it is bound.
pub struct BindPlan {
    pub udc: String,
    pub before: Vec<Step>,
    pub after: Vec<Step>,
}

/// What a [`BindPlan`] says.
pub struct BindView {
    pub udc: Seq<char>,
    pub before: Seq<StepView>,
    pub after: Seq<StepView>,
}

impl View for BindPlan {
    type V = BindView;

    open spec fn view(&self) -> BindView {
        BindView { udc: self.udc@, before: script(self.before@), after: script(self.after@) }
    }
}

/// The gadget's attribute that names the controller it is bound to.
pub open spec fn udc_attribute(gadget: Seq<char>) -> Seq<char> {
    text::path_below(gadget, "UDC"@)
}

/// The gadget's attribute that names the controller it is bound to.
pub fn udc_file(gadget: &str) -> (res: String)
    ensures
        res@ == udc_attribute(gadget@),
{
    text::join_path(gadget, "UDC")
}

/// An attribute of the device behind a controller.
pub open spec fn device_attribute(udc: Seq<char>, name: Seq<char>) -> Seq<char> {
    text::path_below(text::path_below(board::UDC_DIR@, udc), name)
}

fn device_file(udc: &str, name: &str) -> (res: String)
    ensures
        res@ == device_attribute(udc@, name@),
{
    text::join_path(&text::join_path(board::UDC_DIR, udc), name)
}

/// The step that clears the gadget's binding.
pub open spec fn unbind_step(gadget: Seq<char>) -> StepView {
    StepView::TryWrite { path: udc_attribute(gadget), content: ""@ }
}

/// How the hardcoded path binds to `udc`.
pub open spec fn legacy_bind(gadget: Seq<char>, udc: Seq<char>) -> BindView {
    BindView { udc, before: seq![unbind_step(gadget)], after: Seq::empty() }
}

/// How a board binds to `udc`: its speed cap comes before the bind and its
/// pull-up after it.
pub open spec fn board_bind(knobs: board::Knobs, gadget: Seq<char>, udc: Seq<char>) -> BindView {
    BindView {
        udc,
        before: match knobs.max_speed {
            Some(speed) => seq![
                StepView::TryWrite {
                    path: device_attribute(udc, "device/maximum_speed"@),
                    content: speed,
                },
                unbind_step(gadget),
            ],
            None => seq![unbind_step(gadget)],
        },
        after: if knobs.soft_connect {
            seq![
                StepView::TryWrite {
                    path: device_attribute(udc, "device/soft_connect"@),
                    content: "connect"@,
                },
            ]
        } else {
            Seq::empty()
        },
    }
}

/// What comes of choosing a controller and planning the bind.
pub enum BindChoice {
    /// No controller is listed.
    NoUdc,
    /// The board chose none of those that it was offered.
    NoneSelected { board: Seq<char>, names: Seq<Seq<char>> },
    Plan(BindView),
}

/// The result says this choice.
pub open spec fn binds_as(res: Result<BindPlan, GadgetError>, choice: BindChoice) -> bool {
    match choice {
        BindChoice::NoUdc => res matches Err(GadgetError::NoUdc),
        BindChoice::NoneSelected { board, names } => {
            res matches Err(GadgetError::NoUdcSelected { board: b, names: n }) && b@ == board
                && text::views(n@) == names
        },
        BindChoice::Plan(view) => res matches Ok(plan) && plan@ == view,
    }
}

/// The names in a listing of controllers.
pub open spec fn listed_names(entries: Option<&Vec<String>>) -> Seq<Seq<char>> {
    match entries {
        Some(names) => text::views(names@),
        None => Seq::empty(),
    }
}

/// How the hardcoded path binds: to the first controller listed.
pub open spec fn legacy_choice(gadget: Seq<char>, listed: Seq<Seq<char>>) -> BindChoice {
    if listed.len() == 0 {
        BindChoice::NoUdc
    } else {
        BindChoice::Plan(legacy_bind(gadget, listed[0]))
    }
}

/// The controllers as a board gets to see them: as they were listed, unless it
/// picks by role. A board for which the first controller wins then takes the
/// one that the hardcoded path takes.
pub open spec fn offered(knobs: board::Knobs, listed: Seq<Seq<char>>) -> Seq<Seq<char>> {
    if knobs.by_role {
        order::sorted(listed)
    } else {
        listed
    }
}

/// How a board binds.
pub open spec fn board_choice<B: GadgetBoard>(
    board: &B,
    gadget: Seq<char>,
    listed: Seq<Seq<char>>,
) -> BindChoice {
    let names = offered(board.knobs(), listed);
    if listed.len() == 0 {
        BindChoice::NoUdc
    } else {
        match board.choice(names) {
            Some(udc) => BindChoice::Plan(board_bind(board.knobs(), gadget, udc)),
            None => BindChoice::NoneSelected { board: board.knobs().name, names },
        }
    }
}

/// Bind to the first controller listed.
pub fn bind_udc(gadget: &str, entries: Option<&Vec<String>>) -> (res: Result<
    BindPlan,
    GadgetError,
>)
    ensures
        binds_as(res, legacy_choice(gadget@, listed_names(entries))),
{
    let udc = match find_udc(entries) {
        Ok(udc) => udc,
        Err(e) => {
            return Err(e);
        },
    };
    assert(listed_names(entries)[0] == udc@);
    let mut before: Vec<Step> = Vec::new();
    let after: Vec<Step> = Vec::new();
    add_try_write(&mut before, &udc_file(gadget), "");
    assert(script(before@) =~= seq![unbind_step(gadget@)]);
    assert(script(after@) =~= Seq::empty());
    Ok(BindPlan { udc, before, after })
}

/// The pull-up that a board needs after the bind, if it needs one.
fn maybe_soft_connect<B: GadgetBoard>(board: &B, udc: &str) -> (res: Vec<Step>)
    ensures
        script(res@) == board_bind(board.knobs(), Seq::empty(), udc@).after,
{
    let mut after: Vec<Step> = Vec::new();
    if board.needs_soft_connect() {
        add_try_write(&mut after, &device_file(udc, "device/soft_connect"), "connect");
    }
    assert(script(after@) =~= board_bind(board.knobs(), Seq::empty(), udc@).after);
    after
}

fn offered_names<B: GadgetBoard>(board: &B, entries: Option<&Vec<String>>) -> (res: Result<
    Vec<String>,
    GadgetError,
>)
    ensures
        if listed_names(entries).len() == 0 {
            res matches Err(GadgetError::NoUdc)
        } else {
            res matches Ok(names) && text::views(names@) == offered(
                board.knobs(),
                listed_names(entries),
            )
        },
{
    if board.selects_by_role() {
        return list_udc_names_for_bind(entries);
    }
    match entries {
        Some(names) => if names.len() > 0 {
            Ok(copy_names(names))
        } else {
            Err(GadgetError::NoUdc)
        },
        None => Err(GadgetError::NoUdc),
    }
}

fn copy_names(names: &Vec<String>) -> (res: Vec<String>)
    ensures
        text::views(res@) == text::views(names@),
{
    let mut out: Vec<String> = Vec::new();
    let mut i: usize = 0;
    while i < names.len()
        invariant
            i <= names.len(),
            text::views(out@) == text::views(names@).take(i as int),
        decreases names.len() - i,
    {
        let ghost before = text::views(out@);
        out.push(names[i].clone());
        assert(text::views(out@) =~= before.push(names@[i as int]@));
        i += 1;
        assert(text::views(out@) =~= text::views(names@).take(i as int));
    }
    assert(text::views(names@).take(i as int) =~= text::views(names@));
    out
}

/// Bind to the controller that the board chooses.
pub fn bind_udc_with<B: GadgetBoard>(
    board: &B,
    gadget: &str,
    entries: Option<&Vec<String>>,
) -> (res: Result<BindPlan, GadgetError>)
    ensures
        binds_as(res, board_choice(board, gadget@, listed_names(entries))),
{
    let names = match offered_names(board, entries) {
        Ok(names) => names,
        Err(e) => {
            return Err(e);
        },
    };
    let udc = match board.select_udc(names.as_slice()) {
        Some(udc) => udc,
        None => {
            return Err(GadgetError::NoUdcSelected { board: board.name().to_owned(), names });
        },
    };
    let mut before: Vec<Step> = Vec::new();
    match board.max_speed() {
        Some(speed) => {
            add_try_write(&mut before, &device_file(&udc, "device/maximum_speed"), speed);
        },
        None => {},
    }
    add_try_write(&mut before, &udc_file(gadget), "");
    let after = maybe_soft_connect(board, &udc);
    assert(script(before@) =~= board_bind(board.knobs(), gadget@, udc@).before);
    Ok(BindPlan { udc, before, after })
}

/// The bind of [`bind_plan`], with the same dispatch as [`enable`].
pub open spec fn binds<R: Fn(&str) -> Option<String>>(
    experimental: bool,
    entries: Seq<Seq<char>>,
    read: R,
    gadget: Seq<char>,
    listed: Seq<Seq<char>>,
    res: Result<BindPlan, GadgetError>,
) -> bool {
    if experimental {
        exists|b: board::Board| #[trigger]
            board::selected(read, entries, b) && binds_as(res, board_choice(&b, gadget, listed))
    } else {
        binds_as(res, legacy_choice(gadget, listed))
    }
}

/// Plan the bind that follows [`enable`], with the same dispatch. `listed` is
/// the listing of `/sys/class/udc` once the steps have been carried out.
pub fn bind_plan<R: Fn(&str) -> Option<String>>(
    experimental: bool,
    udc_entries: &Vec<String>,
    read: R,
    gadget: &str,
    listed: Option<&Vec<String>>,
) -> (res: Result<BindPlan, GadgetError>)
    requires
        experimental ==> board::reads_device(read, text::views(udc_entries@)),
    ensures
        binds(
            experimental,
            text::views(udc_entries@),
            read,
            gadget@,
            listed_names(listed),
            res,
        ),
{
    if experimental {
        bind_udc_with(&board::select_board(udc_entries, read), gadget, listed)
    } else {
        bind_udc(gadget, listed)
    }
}

/// What came of writing the controller's name to the `UDC` attribute.
pub enum BindEvent {
    /// The write went through, and the attribute now reads like this.
    ReadBack(String),
    /// The write went through, and the attribute cannot be read.
    Unreadable,
    /// The write failed, for this reason.
    WriteFailed(String),
}

/// What a [`BindEvent`] says.
pub enum BindEventView {
    ReadBack(Seq<char>),
    Unreadable,
    WriteFailed(Seq<char>),
}

impl View for BindEvent {
    type V = BindEventView;

    open spec fn view(&self) -> BindEventView {
        match self {
            BindEvent::ReadBack(s) => BindEventView::ReadBack(s@),
            BindEvent::Unreadable => BindEventView::Unreadable,
            BindEvent::WriteFailed(s) => BindEventView::WriteFailed(s@),
        }
    }
}

/// What to do after an attempt to bind.
pub enum BindNext {
    /// The gadget is bound.
    Bound,
    /// Carry out these steps and make the attempt with this number.
    Retry { attempt: u32, steps: Vec<Step> },
    /// Give up.
    GiveUp(GadgetError),
}

/// How many attempts to bind are made.
pub const BIND_ATTEMPTS: u32 = 5;

/// Whether the attempt bound the gadget. A write can go through although the
/// kernel rejected the controller, so what the attribute reads decides; where
/// it cannot be read, the write is trusted.
pub open spec fn accepted(udc: Seq<char>, event: BindEventView) -> bool {
    match event {
        BindEventView::ReadBack(s) => text::trim(s) == text::trim(udc),
        BindEventView::Unreadable => true,
        BindEventView::WriteFailed(_) => false,
    }
}

/// What follows an attempt to bind.
pub enum Verdict {
    Bound,
    Retry,
    GiveUp,
}

/// What follows attempt number `attempt`, counted from 1.
pub open spec fn bind_verdict(udc: Seq<char>, attempt: u32, event: BindEventView) -> Verdict {
    if accepted(udc, event) {
        Verdict::Bound
    } else if attempt < BIND_ATTEMPTS {
        Verdict::Retry
    } else {
        Verdict::GiveUp
    }
}

/// How the caller is told that the last attempt failed.
pub open spec fn tells_failure(err: GadgetError, udc: Seq<char>, event: BindEventView) -> bool {
    match event {
        BindEventView::ReadBack(s) => err matches GadgetError::BindRejected { udc: u, readback }
            && u@ == udc && readback@ == text::trim(s),
        BindEventView::Unreadable => false,
        BindEventView::WriteFailed(e) => err matches GadgetError::BindFailed { udc: u, cause }
            && u@ == udc && cause@ == e,
    }
}

/// The steps between two attempts to bind.
pub open spec fn retry_script(gadget: Seq<char>) -> Seq<StepView> {
    seq![unbind_step(gadget), StepView::Sleep(500)]
}

/// What follows attempt number `attempt`, counted from 1.
pub open spec fn follows_attempt(
    gadget: Seq<char>,
    udc: Seq<char>,
    attempt: u32,
    event: BindEventView,
    next: BindNext,
) -> bool {
    match next {
        BindNext::Bound => bind_verdict(udc, attempt, event) is Bound,
        BindNext::Retry { attempt: number, steps } => {
            &&& bind_verdict(udc, attempt, event) is Retry
            &&& number == attempt + 1
            &&& script(steps@) == retry_script(gadget)
        },
        BindNext::GiveUp(err) => bind_verdict(udc, attempt, event) is GiveUp && tells_failure(
            err,
            udc,
            event,
        ),
    }
}

/// Decide what follows attempt number `attempt`, counted from 1.
pub fn after_bind_attempt(gadget: &str, udc: &str, attempt: u32, event: &BindEvent) -> (res:
    BindNext)
    ensures
        follows_attempt(gadget@, udc@, attempt, event@, res),
{
    let failure = match event {
        BindEvent::ReadBack(s) => {
            let readback = text::trimmed(s);
            if text::same_text(&readback, &text::trimmed(udc)) {
                return BindNext::Bound;
            }
            GadgetError::BindRejected { udc: udc.to_owned(), readback }
        },
        BindEvent::Unreadable => {
            return BindNext::Bound;
        },
        BindEvent::WriteFailed(cause) => GadgetError::BindFailed {
            udc: udc.to_owned(),
            cause: cause.clone(),
        },
    };
    if attempt < BIND_ATTEMPTS {
        let mut steps: Vec<Step> = Vec::new();
        add_try_write(&mut steps, &udc_file(gadget), "");
        add_sleep(&mut steps, 500);
        assert(script(steps@) =~= retry_script(gadget@));
        BindNext::Retry { attempt: attempt + 1, steps }
    } else {
        BindNext::GiveUp(failure)
    }
}

/// What stands where a link is to be made. A dangling link counts as present.
pub enum LinkEntry {
    Present,
    Missing,
    Unknown,
}

/// What to do about it.
#[derive(Debug, Clone, Copy, PartialEq, Eq, Structural)]
pub enum LinkAction {
    /// Remove what is there, then create the link.
    Replace,
    /// Create the link.
    Create,
    /// Fail: it cannot be told what is there.
    Fail,
}

/// Decide how to make a link in place of whatever is there.
pub fn ensure_symlink(entry: &LinkEntry) -> (res: LinkAction)
    ensures
        res == (match entry {
            LinkEntry::Present => LinkAction::Replace,
            LinkEntry::Missing => LinkAction::Create,
            LinkEntry::Unknown => LinkAction::Fail,
        }),
{
    match entry {
        LinkEntry::Present => LinkAction::Replace,
        LinkEntry::Missing => LinkAction::Create,
        LinkEntry::Unknown => LinkAction::Fail,
    }
}

// ---------------------------------------------------------------------------
// Laws
// ---------------------------------------------------------------------------

proof fn lemma_unload_names_differ()
    ensures
        "usb_f_mass_storage"@ != "libcomposite"@,
        "g_ether"@ != "libcomposite"@,
        "usb_f_ecm"@ != "libcomposite"@,
        "usb_f_rndis"@ != "libcomposite"@,
        "g_ether"@ != "usb_f_mass_storage"@,
        "usb_f_ecm"@ != "usb_f_mass_storage"@,
        "usb_f_rndis"@ != "usb_f_mass_storage"@,
        "-r"@ != "libcomposite"@,
{
    reveal_strlit("usb_f_mass_storage");
    reveal_strlit("g_ether");
    reveal_strlit("usb_f_ecm");
    reveal_strlit("usb_f_rndis");
    reveal_strlit("libcomposite");
    reveal_strlit("-r");
    assert("usb_f_mass_storage"@.len() == 18);
    assert("g_ether"@.len() == 7);
    assert("usb_f_ecm"@.len() == 9);
    assert("usb_f_rndis"@.len() == 11);
    assert("libcomposite"@.len() == 12);
    assert("-r"@.len() == 2);
}

/// A board that loads the usual modules unloads exactly what the hardcoded
/// teardown unloads, in the same order.
pub proof fn law_usual_modules_unload_alike()
    ensures
        board_unload(board::default_modules()) == legacy_unload(),
{
    let m = board::default_modules();
    lemma_unload_names_differ();
    assert(m.drop_last() =~= seq!["libcomposite"@]);
    assert(m.drop_last().drop_last() =~= Seq::<Seq<char>>::empty());
    assert(dependents(m.drop_last().drop_last()) =~= Seq::empty());
    assert(dependents(m.drop_last()) =~= Seq::empty());
    assert(dependents(m) =~= seq!["usb_f_mass_storage"@]);
    assert(swept(m, 0) =~= Seq::empty());
    assert(swept(m, 1) =~= seq!["g_ether"@]);
    assert(swept(m, 2) =~= seq!["g_ether"@, "usb_f_ecm"@]);
    assert(swept(m, 3) =~= seq!["g_ether"@, "usb_f_ecm"@, "usb_f_rndis"@]);
    assert(board_unload(m) =~= legacy_unload());
}

/// Either path takes down what the other has built: on every recognised board
/// the teardown is the hardcoded one.
pub proof fn law_board_disable_is_the_hardcoded_one(
    board: board::Board,
    model: Seq<char>,
    family: board::UdcFamily,
    gadget: Seq<char>,
    gadget_exists: bool,
)
    requires
        board::maps_to(model, family, board),
    ensures
        disable_script(gadget, gadget_exists, board_unload(board.knobs().modules))
            == disable_script(gadget, gadget_exists, legacy_unload()),
{
    board::law_never_worse_than_generic(board, model, family);
    law_usual_modules_unload_alike();
}

/// Turning the experimental flag on does not change how the gadget is built,
/// refreshed or cleared: on every recognised board the plan is the hardcoded
/// one for the same model.
pub proof fn law_board_enable_is_the_hardcoded_one(
    board: board::Board,
    model: Seq<char>,
    family: board::UdcFamily,
    gadget: Seq<char>,
    facts: FactsView,
)
    requires
        board::maps_to(model, family, board),
    ensures
        board_enable_plan(board.knobs(), gadget, facts) == legacy_enable_plan(
            gadget,
            model,
            facts,
        ),
{
    board::law_never_worse_than_generic(board, model, family);
    serial::law_both_paths_ask_for_the_same_current(board, model, family);
    law_usual_modules_unload_alike();
}

/// A board for which the first controller wins binds as the hardcoded path does,
/// in whatever order the controllers are listed: so does every recognised board
/// that is no Rockchip board, and the generic board above all.
pub proof fn law_first_wins_bind_is_the_hardcoded_one(
    board: board::Board,
    model: Seq<char>,
    family: board::UdcFamily,
    gadget: Seq<char>,
    listed: Seq<Seq<char>>,
)
    requires
        board::maps_to(model, family, board),
        !(board is Rockchip),
    ensures
        board_choice(&board, gadget, listed) == legacy_choice(gadget, listed),
        board_choice(&board::GenericBoard, gadget, listed) == legacy_choice(gadget, listed),
{
}

proof fn lemma_dependents(modules: Seq<Seq<char>>)
    ensures
        !dependents(modules).contains("libcomposite"@),
        forall|i: int|
            0 <= i < modules.len() && #[trigger] modules[i] != "libcomposite"@ ==> dependents(
                modules,
            ).contains(modules[i]),
    decreases modules.len(),
{
    if modules.len() > 0 {
        let before = dependents(modules.drop_last());
        lemma_dependents(modules.drop_last());
        assert forall|i: int|
            0 <= i < modules.len() && #[trigger] modules[i] != "libcomposite"@ implies dependents(
            modules,
        ).contains(modules[i]) by {
            if i < modules.len() - 1 {
                assert(modules.drop_last()[i] == modules[i]);
                let j = choose|j: int| 0 <= j < before.len() && before[j] == modules[i];
                assert(dependents(modules)[j] == modules[i]);
            } else {
                assert(dependents(modules).last() == modules[i]);
            }
        }
    }
}

/// Whatever a board loads, its teardown unloads all of it, and the composite
/// module last, and only there.
pub proof fn law_composite_module_unloads_last(modules: Seq<Seq<char>>)
    ensures
        board_unload(modules).last() == "libcomposite"@,
        forall|i: int|
            0 <= i < board_unload(modules).len() - 1 ==> #[trigger] board_unload(modules)[i]
                != "libcomposite"@,
        forall|i: int|
            0 <= i < modules.len() ==> board_unload(modules).contains(#[trigger] modules[i]),
{
    let all = board_unload(modules);
    let own = dependents(modules);
    let rest = swept(modules, 3);
    lemma_unload_names_differ();
    lemma_dependents(modules);
    assert(!swept(modules, 0).contains("libcomposite"@));
    assert(!swept(modules, 1).contains("libcomposite"@));
    assert(!swept(modules, 2).contains("libcomposite"@));
    assert(!rest.contains("libcomposite"@));
    assert forall|i: int| 0 <= i < all.len() - 1 implies #[trigger] all[i] != "libcomposite"@ by {
        if 1 <= i < 1 + own.len() {
            assert(all[i] == own[i - 1]);
        } else if i >= 1 + own.len() {
            assert(all[i] == rest[i - 1 - own.len()]);
        }
    }
    assert forall|i: int| 0 <= i < modules.len() implies all.contains(#[trigger] modules[i]) by {
        if modules[i] == "libcomposite"@ {
            assert(all.last() == modules[i]);
        } else {
            let j = choose|j: int| 0 <= j < own.len() && own[j] == modules[i];
            assert(all[j + 1] == modules[i]);
        }
    }
}

proof fn lemma_luns_len(gadget: Seq<char>, images: Seq<ImageFact>, i: nat)
    ensures
        luns_script(gadget, images, i).len() == 3 * present_before(images, i),
    decreases i,
{
    if i > 0 {
        lemma_luns_len(gadget, images, (i - 1) as nat);
    }
}

/// The images that exist become LUNs without a gap: LUN number `k` is the image
/// with `k` existing ones before it, and there are as many LUNs as images.
pub proof fn law_luns_have_no_gap(gadget: Seq<char>, images: Seq<ImageFact>, n: nat, i: int)
    requires
        0 <= i < n,
        images[i].present,
    ensures
        luns_script(gadget, images, n).len() == 3 * present_before(images, n),
        present_before(images, i as nat) < present_before(images, n),
        luns_script(gadget, images, n).subrange(
            3 * present_before(images, i as nat) as int,
            3 * present_before(images, i as nat) as int + 3,
        ) == lun_steps(gadget, i, present_before(images, i as nat), images[i].size),
    decreases n,
{
    let k = present_before(images, i as nat);
    let all = luns_script(gadget, images, n);
    lemma_luns_len(gadget, images, n);
    lemma_luns_len(gadget, images, (n - 1) as nat);
    if i == n - 1 {
        assert(all.subrange(3 * k as int, 3 * k as int + 3) =~= lun_steps(
            gadget,
            i,
            k,
            images[i].size,
        ));
    } else {
        law_luns_have_no_gap(gadget, images, (n - 1) as nat, i);
        let before = luns_script(gadget, images, (n - 1) as nat);
        assert(all.subrange(3 * k as int, 3 * k as int + 3) =~= before.subrange(
            3 * k as int,
            3 * k as int + 3,
        ));
    }
}

proof fn lemma_luns_create(gadget: Seq<char>, images: Seq<ImageFact>, n: nat, i: int)
    requires
        0 <= i < luns_script(gadget, images, n).len(),
    ensures
        !(luns_script(gadget, images, n)[i] is Link),
        luns_script(gadget, images, n)[i] is CreateDir ==> exists|k: nat|
            k < n && luns_script(gadget, images, n)[i]->CreateDir_path == #[trigger] lun_path(
                gadget,
                k,
            ),
    decreases n,
{
    let before = luns_script(gadget, images, (n - 1) as nat);
    if i < before.len() {
        lemma_luns_create(gadget, images, (n - 1) as nat, i);
        assert(luns_script(gadget, images, n)[i] == before[i]);
        if before[i] is CreateDir {
            let k: nat = choose|k: nat|
                k < n - 1 && before[i]->CreateDir_path == #[trigger] lun_path(gadget, k);
            assert(luns_script(gadget, images, n)[i]->CreateDir_path == lun_path(gadget, k));
        }
    } else {
        lemma_present_bound(images, (n - 1) as nat);
        let k = present_before(images, (n - 1) as nat);
        assert(luns_script(gadget, images, n)[i] == lun_steps(
            gadget,
            n - 1,
            k,
            images[n - 1].size,
        )[i - before.len()]);
        if i == before.len() {
            assert(luns_script(gadget, images, n)[i]->CreateDir_path == lun_path(gadget, k));
        }
    }
}

proof fn lemma_present_bound(images: Seq<ImageFact>, n: nat)
    ensures
        present_before(images, n) <= n,
    decreases n,
{
    if n > 0 {
        lemma_present_bound(images, (n - 1) as nat);
    }
}

/// The teardown asks for the removal of every directory that a build creates,
/// but for the first LUN, which goes with its function; and of the link.
pub proof fn law_teardown_removes_what_was_built(
    gadget: Seq<char>,
    power: u32,
    modules: Seq<Seq<char>>,
    settle_ms: u64,
    facts: FactsView,
    unload: Seq<Seq<char>>,
    i: int,
)
    requires
        0 <= i < build_script(gadget, power, modules, settle_ms, facts).len(),
    ensures
        match build_script(gadget, power, modules, settle_ms, facts)[i] {
            StepView::CreateDir { path, .. } => path == lun_path(gadget, 0) || teardown_script(
                gadget,
                unload,
            ).contains(StepView::TryRemoveDir(path)),
            StepView::Link { link, .. } => teardown_script(gadget, unload).contains(
                StepView::TryRemoveFile(link),
            ),
            _ => true,
        },
{
    let build = build_script(gadget, power, modules, settle_ms, facts);
    let down = teardown_script(gadget, unload);
    let loads = modules_script(modules);
    let described = descriptor_script(gadget, power, facts.serial);
    let luns = luns_script(gadget, facts.images, 4);
    let config = config_path(gadget);
    assert(down[1] == StepView::TryRemoveFile(text::path_below(config, "mass_storage.0"@)));
    assert(down[2] == StepView::TryRemoveDir(strings_path(config, LANG@)));
    assert(down[13] == StepView::TryRemoveDir(function_path(gadget)));
    assert(down[14] == StepView::TryRemoveDir(config));
    assert(down[15] == StepView::TryRemoveDir(strings_path(gadget, LANG@)));
    if i < loads.len() {
        assert(build[i] == loads[i]);
    } else if i < loads.len() + described.len() {
        let d = i - loads.len();
        assert(build[i] == described[d]);
        if d == 0 {
            assert(described[d]->CreateDir_path == config);
        } else if d == 5 {
            assert(described[d]->CreateDir_path == strings_path(gadget, LANG@));
        } else if d == 6 {
            assert(described[d]->CreateDir_path == strings_path(config, LANG@));
        } else if d == 12 {
            assert(described[d]->CreateDir_path == function_path(gadget));
        } else {
            assert(described[d] is Write);
        }
    } else if i < loads.len() + described.len() + luns.len() {
        let j = i - loads.len() - described.len();
        assert(build[i] == luns[j]);
        lemma_luns_create(gadget, facts.images, 4, j);
        if luns[j] is CreateDir {
            let k: nat = choose|k: nat|
                k < 4 && luns[j]->CreateDir_path == #[trigger] lun_path(gadget, k);
            if k > 0 {
                assert(down[8 + k as int] == drop_script(gadget, 4)[k - 1]);
                assert(down[8 + k as int] == StepView::TryRemoveDir(lun_path(gadget, k)));
            }
        }
    } else {
        let j = i - loads.len() - described.len() - luns.len();
        if j == 0 {
            assert(build[i] is Link);
            assert(build[i]->link == text::path_below(config, "mass_storage.0"@));
        } else {
            assert(build[i] is Sleep);
        }
    }
}

proof fn lemma_none_before(images: Seq<ImageFact>, i: nat)
    requires
        forall|j: int| 0 <= j < i ==> !(#[trigger] images[j]).present,
    ensures
        present_before(images, i) == 0,
    decreases i,
{
    if i > 0 {
        lemma_none_before(images, (i - 1) as nat);
    }
}

proof fn lemma_image_names_are_not_blank(i: int)
    requires
        0 <= i < 4,
    ensures
        text::trim(DISK_IMAGES@[i]@).len() > 0,
{
    reveal_strlit("/backingfiles/cam_disk.bin");
    reveal_strlit("/backingfiles/music_disk.bin");
    reveal_strlit("/backingfiles/lightshow_disk.bin");
    reveal_strlit("/backingfiles/boombox_disk.bin");
    let s = DISK_IMAGES@[i]@;
    assert(s.len() > 0 && s[0] == '/' && s.last() == 'n');
}

/// A build that exposes an image writes the name of an image that is present to
/// the first LUN, and the name is not blank. That makes the gadget complete, so
/// the next enable keeps it.
pub proof fn law_built_gadget_is_complete(
    gadget: Seq<char>,
    power: u32,
    modules: Seq<Seq<char>>,
    settle_ms: u64,
    facts: FactsView,
    i: int,
)
    requires
        0 <= i < 4,
        facts.images[i].present,
        forall|j: int| 0 <= j < i ==> !(#[trigger] facts.images[j]).present,
    ensures
        build_script(gadget, power, modules, settle_ms, facts).contains(
            StepView::Write { path: lun_file_path(gadget, 0), content: DISK_IMAGES@[i]@ },
        ),
        text::trim(DISK_IMAGES@[i]@).len() > 0,
{
    let build = build_script(gadget, power, modules, settle_ms, facts);
    let start = modules_script(modules).len() + descriptor_script(
        gadget,
        power,
        facts.serial,
    ).len();
    let luns = luns_script(gadget, facts.images, 4);
    lemma_none_before(facts.images, i as nat);
    law_luns_have_no_gap(gadget, facts.images, 4, i);
    lemma_image_names_are_not_blank(i);
    let steps = lun_steps(gadget, i, 0, facts.images[i].size);
    assert(luns.subrange(0, 3)[1] == steps[1]);
    assert(luns[1] == steps[1]);
    assert(build[start as int + 1] == luns[1]);
}

/// A gadget that is active, and whose backing file exists, is never torn down by
/// enabling it again.
pub proof fn law_active_gadget_is_kept(
    gadget: Seq<char>,
    power: u32,
    modules: Seq<Seq<char>>,
    unload: Seq<Seq<char>>,
    settle_ms: u64,
    facts: DeviceFacts,
    udc: Option<&str>,
    lun0_file: &str,
)
    requires
        facts.gadget_exists,
        facts.lun0_backing_exists,
        facts.lun0_file matches Some(s) && s@ == lun0_file@,
        populated(udc) && populated(Some(lun0_file)),
    ensures
        enable_plan(gadget, power, modules, unload, settle_ms, facts@) is Rebind,
{
}

/// An attempt is accepted where the attribute reads back the controller's name,
/// with whatever white space the kernel puts around it.
pub proof fn law_readback_ignores_outer_space(
    udc: Seq<char>,
    before: Seq<char>,
    after: Seq<char>,
)
    requires
        text::all_space(before),
        text::all_space(after),
    ensures
        accepted(udc, BindEventView::ReadBack(before + udc + after)),
{
    text::lemma_trim_padded(before, udc, after);
}

/// How a series of attempts to bind ends, given what came of each: `None` where
/// it has not ended yet.
pub open spec fn bind_ends(udc: Seq<char>, attempt: u32, events: Seq<BindEventView>) -> Option<bool>
    decreases events.len(),
{
    if events.len() == 0 {
        None
    } else {
        match bind_verdict(udc, attempt, events[0]) {
            Verdict::Bound => Some(true),
            Verdict::Retry => bind_ends(udc, (attempt + 1) as u32, events.skip(1)),
            Verdict::GiveUp => Some(false),
        }
    }
}

proof fn lemma_bind_ends(udc: Seq<char>, attempt: u32, events: Seq<BindEventView>)
    requires
        1 <= attempt <= BIND_ATTEMPTS,
        events.len() >= BIND_ATTEMPTS - attempt + 1,
    ensures
        bind_ends(udc, attempt, events) == Some(
            exists|i: int|
                0 <= i < BIND_ATTEMPTS - attempt + 1 && accepted(udc, #[trigger] events[i]),
        ),
    decreases events.len(),
{
    if !accepted(udc, events[0]) && attempt < BIND_ATTEMPTS {
        let rest = events.skip(1);
        lemma_bind_ends(udc, (attempt + 1) as u32, rest);
        if exists|i: int| 0 <= i < BIND_ATTEMPTS - attempt && accepted(udc, #[trigger] rest[i]) {
            let i = choose|i: int|
                0 <= i < BIND_ATTEMPTS - attempt && accepted(udc, #[trigger] rest[i]);
            assert(accepted(udc, events[i + 1]));
        }
        if exists|i: int|
            0 <= i < BIND_ATTEMPTS - attempt + 1 && accepted(udc, #[trigger] events[i]) {
            let i = choose|i: int|
                0 <= i < BIND_ATTEMPTS - attempt + 1 && accepted(udc, #[trigger] events[i]);
            assert(accepted(udc, rest[i - 1]));
        }
    }
}

/// Binding ends after five attempts at the latest, and it succeeds exactly
/// where one of the first five attempts was accepted.
pub proof fn law_five_attempts_decide(udc: Seq<char>, events: Seq<BindEventView>)
    requires
        events.len() >= BIND_ATTEMPTS,
    ensures
        bind_ends(udc, 1, events) == Some(
            exists|i: int| 0 <= i < BIND_ATTEMPTS && accepted(udc, #[trigger] events[i]),
        ),
{
    lemma_bind_ends(udc, 1, events);
}

/// What a step writes to a file.
pub open spec fn writes(step: StepView, path: Seq<char>, content: Seq<char>) -> bool {
    step == (StepView::Write { path, content }) || step == (StepView::TryWrite { path, content })
}

/// The step writes to the file.
pub open spec fn touches(step: StepView, path: Seq<char>) -> bool {
    match step {
        StepView::Write { path: p, .. } => p == path,
        StepView::TryWrite { path: p, .. } => p == path,
        _ => false,
    }
}

/// The file holds this once the steps have been carried out: the last of them
/// that writes to it writes this.
pub open spec fn leaves(steps: Seq<StepView>, path: Seq<char>, content: Seq<char>) -> bool {
    exists|k: int|
        {
            &&& 0 <= k < steps.len()
            &&& writes(#[trigger] steps[k], path, content)
            &&& forall|j: int| k < j < steps.len() ==> !touches(#[trigger] steps[j], path)
        }
}

/// None of the steps writes to the file.
pub open spec fn spares(steps: Seq<StepView>, path: Seq<char>) -> bool {
    forall|k: int| 0 <= k < steps.len() ==> !touches(#[trigger] steps[k], path)
}

/// The file below the function's directory that belongs to the LUN with a given
/// number.
pub open spec fn lun_tail(n: nat, name: Seq<char>) -> Seq<char> {
    "functions/mass_storage.0/lun."@ + text::decimal(n) + "/"@ + name
}

proof fn lemma_lun_paths(gadget: Seq<char>, n: nat)
    ensures
        lun_path(gadget, n) == text::path_below(
            gadget,
            "functions/mass_storage.0/lun."@ + text::decimal(n),
        ),
        lun_file_path(gadget, n) == text::path_below(gadget, lun_tail(n, "file"@)),
        text::path_below(lun_path(gadget, n), "inquiry_string"@) == text::path_below(
            gadget,
            lun_tail(n, "inquiry_string"@),
        ),
{
    reveal_strlit("functions/mass_storage.0");
    reveal_strlit("functions/mass_storage.0/lun.");
    reveal_strlit("lun.");
    reveal_strlit("file");
    reveal_strlit("inquiry_string");
    reveal_strlit("/");
    text::lemma_decimal_reads_back(n);
    let number = text::decimal(n);
    assert(text::is_digit(number[number.len() - 1]));
    let f = "functions/mass_storage.0"@;
    let dir = f + seq!['/'] + lun_name(n);
    text::lemma_below_twice(gadget, f, lun_name(n));
    assert(dir =~= "functions/mass_storage.0/lun."@ + number);
    text::lemma_below_twice(gadget, dir, "file"@);
    assert(dir + seq!['/'] + "file"@ =~= lun_tail(n, "file"@));
    text::lemma_below_twice(gadget, dir, "inquiry_string"@);
    assert(dir + seq!['/'] + "inquiry_string"@ =~= lun_tail(n, "inquiry_string"@));
}

/// Where the parts of the gadget stand below its directory.
pub proof fn law_places_of_the_gadget(gadget: Seq<char>, n: nat)
    ensures
        config_path(gadget) == text::path_below(gadget, "configs/c.1"@),
        strings_path(gadget, LANG@) == text::path_below(gadget, "strings/0x409"@),
        strings_path(gadget, LANG_LONG@) == text::path_below(gadget, "strings/0x0409"@),
        strings_path(config_path(gadget), LANG@) == text::path_below(
            gadget,
            "configs/c.1/strings/0x409"@,
        ),
        strings_path(config_path(gadget), LANG_LONG@) == text::path_below(
            gadget,
            "configs/c.1/strings/0x0409"@,
        ),
        function_path(gadget) == text::path_below(gadget, "functions/mass_storage.0"@),
        lun_path(gadget, n) == text::path_below(
            gadget,
            "functions/mass_storage.0/lun."@ + text::decimal(n),
        ),
        lun_file_path(gadget, n) == text::path_below(
            gadget,
            "functions/mass_storage.0/lun."@ + text::decimal(n) + "/"@ + "file"@,
        ),
        udc_attribute(gadget) == text::path_below(gadget, "UDC"@),
{
    lemma_lun_paths(gadget, n);
    lemma_directory_tails(gadget);
}

proof fn lemma_directory_tails(gadget: Seq<char>)
    ensures
        config_path(gadget) == text::path_below(gadget, "configs/c.1"@),
        strings_path(gadget, LANG@) == text::path_below(gadget, "strings/0x409"@),
        strings_path(gadget, LANG_LONG@) == text::path_below(gadget, "strings/0x0409"@),
        strings_path(config_path(gadget), LANG@) == text::path_below(
            gadget,
            "configs/c.1/strings/0x409"@,
        ),
        strings_path(config_path(gadget), LANG_LONG@) == text::path_below(
            gadget,
            "configs/c.1/strings/0x0409"@,
        ),
{
    reveal_strlit("configs");
    reveal_strlit("c.1");
    reveal_strlit("configs/c.1");
    reveal_strlit("strings");
    reveal_strlit("0x409");
    reveal_strlit("0x0409");
    reveal_strlit("strings/0x409");
    reveal_strlit("strings/0x0409");
    reveal_strlit("configs/c.1/strings");
    reveal_strlit("configs/c.1/strings/0x409");
    reveal_strlit("configs/c.1/strings/0x0409");
    text::lemma_below_twice(gadget, "configs"@, "c.1"@);
    assert("configs"@ + seq!['/'] + "c.1"@ =~= "configs/c.1"@);
    text::lemma_below_twice(gadget, "strings"@, "0x409"@);
    assert("strings"@ + seq!['/'] + "0x409"@ =~= "strings/0x409"@);
    text::lemma_below_twice(gadget, "strings"@, "0x0409"@);
    assert("strings"@ + seq!['/'] + "0x0409"@ =~= "strings/0x0409"@);
    text::lemma_below_twice(gadget, "configs/c.1"@, "strings"@);
    assert("configs/c.1"@ + seq!['/'] + "strings"@ =~= "configs/c.1/strings"@);
    text::lemma_below_twice(gadget, "configs/c.1/strings"@, "0x409"@);
    assert("configs/c.1/strings"@ + seq!['/'] + "0x409"@ =~= "configs/c.1/strings/0x409"@);
    text::lemma_below_twice(gadget, "configs/c.1/strings"@, "0x0409"@);
    assert("configs/c.1/strings"@ + seq!['/'] + "0x0409"@ =~= "configs/c.1/strings/0x0409"@);
}

/// The gadget's directory, and the attributes of a controller, by their paths.
pub proof fn law_places_outside_the_gadget(root: Seq<char>, udc: Seq<char>)
    requires
        root.len() > 0 && root.last() != '/',
        udc.len() > 0 && udc[0] != '/' && udc.last() != '/',
    ensures
        gadget_path(root) == root + "/usb_gadget/sentryusb"@,
        device_attribute(udc, "device/maximum_speed"@) == "/sys/class/udc/"@ + udc
            + "/device/maximum_speed"@,
        device_attribute(udc, "device/soft_connect"@) == "/sys/class/udc/"@ + udc
            + "/device/soft_connect"@,
{
    reveal_strlit("usb_gadget");
    reveal_strlit("sentryusb");
    reveal_strlit("/usb_gadget/sentryusb");
    reveal_strlit("/sys/class/udc");
    reveal_strlit("/sys/class/udc/");
    reveal_strlit("device/maximum_speed");
    reveal_strlit("/device/maximum_speed");
    reveal_strlit("device/soft_connect");
    reveal_strlit("/device/soft_connect");
    assert(gadget_path(root) =~= root + "/usb_gadget/sentryusb"@);
    assert(device_attribute(udc, "device/maximum_speed"@) =~= "/sys/class/udc/"@ + udc
        + "/device/maximum_speed"@);
    assert(device_attribute(udc, "device/soft_connect"@) =~= "/sys/class/udc/"@ + udc
        + "/device/soft_connect"@);
}

proof fn lemma_lun_tails_differ(gadget: Seq<char>, a: nat, b: nat, x: Seq<char>, y: Seq<char>)
    requires
        x == "file"@ || x == "inquiry_string"@,
        y == "file"@ || y == "inquiry_string"@,
        a != b || x != y,
    ensures
        text::path_below(gadget, lun_tail(a, x)) != text::path_below(gadget, lun_tail(b, y)),
{
    reveal_strlit("functions/mass_storage.0/lun.");
    reveal_strlit("file");
    reveal_strlit("inquiry_string");
    reveal_strlit("/");
    let (p, q) = (lun_tail(a, x), lun_tail(b, y));
    assert(p[0] == 'f' && q[0] == 'f');
    if text::path_below(gadget, p) == text::path_below(gadget, q) {
        text::lemma_below_differs(gadget, p, q);
        assert(p.last() == x.last() && q.last() == y.last());
        assert("file"@.last() == 'e' && "inquiry_string"@.last() == 'g');
        assert(x == y);
        let n = "functions/mass_storage.0/lun."@.len() as int;
        assert(text::decimal(a) =~= p.subrange(n, p.len() - 1 - x.len()));
        assert(text::decimal(b) =~= q.subrange(n, q.len() - 1 - y.len()));
        text::law_decimals_differ(a, b);
    }
}

proof fn lemma_lun_files_differ(gadget: Seq<char>, a: nat, b: nat)
    requires
        a != b,
    ensures
        lun_file_path(gadget, a) != lun_file_path(gadget, b),
{
    lemma_lun_paths(gadget, a);
    lemma_lun_paths(gadget, b);
    lemma_lun_tails_differ(gadget, a, b, "file"@, "file"@);
}

/// The steps write an end of line to the file, wait a second and then write the
/// content.
pub open spec fn reopens(steps: Seq<StepView>, path: Seq<char>, content: Seq<char>) -> bool {
    exists|k: int|
        {
            &&& 0 <= k < steps.len() - 2
            &&& #[trigger] steps[k] == (StepView::TryWrite { path, content: "\n"@ })
            &&& steps[k + 1] == StepView::Sleep(1000)
            &&& steps[k + 2] == (StepView::TryWrite { path, content })
        }
}

proof fn lemma_reopen(gadget: Seq<char>, images: Seq<ImageFact>, n: nat, i: int)
    requires
        0 <= i,
    ensures
        ({
            let steps = reopen_script(gadget, images, n);
            let file = lun_file_path(gadget, i as nat);
            let reopened = i < n && images[i].present && images[i].lun_file_present;
            &&& reopened ==> leaves(steps, file, DISK_IMAGES@[i]@)
            &&& reopened ==> reopens(steps, file, DISK_IMAGES@[i]@)
            &&& !reopened ==> spares(steps, file)
        }),
    decreases n,
{
    if n > 0 {
        let before = reopen_script(gadget, images, (n - 1) as nat);
        let steps = reopen_script(gadget, images, n);
        let file = lun_file_path(gadget, i as nat);
        let image = images[n - 1];
        let len = before.len() as int;
        lemma_reopen(gadget, images, (n - 1) as nat, i);
        assert forall|k: int| 0 <= k < len implies steps[k] == before[k] by {}
        if image.lun_file_present && image.present {
            assert(steps.len() == len + 3);
            if i == n - 1 {
                assert(writes(steps[len + 2], file, DISK_IMAGES@[i]@));
                assert(leaves(steps, file, DISK_IMAGES@[i]@));
                assert(steps[len] == (StepView::TryWrite { path: file, content: "\n"@ }));
                assert(reopens(steps, file, DISK_IMAGES@[i]@));
            } else {
                lemma_lun_files_differ(gadget, i as nat, (n - 1) as nat);
                assert forall|k: int| len <= k < steps.len() implies !touches(
                    #[trigger] steps[k],
                    file,
                ) by {}
                if i < n - 1 && images[i].present && images[i].lun_file_present {
                    let content = DISK_IMAGES@[i]@;
                    let k = choose|k: int|
                        {
                            &&& 0 <= k < before.len()
                            &&& writes(#[trigger] before[k], file, content)
                            &&& forall|j: int|
                                k < j < before.len() ==> !touches(#[trigger] before[j], file)
                        };
                    assert(writes(steps[k], file, content));
                    assert forall|j: int| k < j < steps.len() implies !touches(
                        #[trigger] steps[j],
                        file,
                    ) by {
                        if j < len {
                            assert(!touches(before[j], file));
                        }
                    }
                    assert(leaves(steps, file, content));
                    let m = choose|m: int|
                        {
                            &&& 0 <= m < before.len() - 2
                            &&& #[trigger] before[m] == (StepView::TryWrite {
                                path: file,
                                content: "\n"@,
                            })
                            &&& before[m + 1] == StepView::Sleep(1000)
                            &&& before[m + 2] == (StepView::TryWrite { path: file, content })
                        };
                    assert(steps[m] == before[m]);
                    assert(reopens(steps, file, content));
                } else {
                    assert forall|k: int| 0 <= k < steps.len() implies !touches(
                        #[trigger] steps[k],
                        file,
                    ) by {
                        if k < len {
                            assert(!touches(before[k], file));
                        }
                    }
                }
            }
        } else {
            assert(steps == before);
        }
    }
}

/// Putting steps that do not write to a file around others does not change what
/// those leave in it.
proof fn lemma_leaves_within(
    front: Seq<StepView>,
    steps: Seq<StepView>,
    back: Seq<StepView>,
    path: Seq<char>,
    content: Seq<char>,
)
    requires
        spares(back, path),
    ensures
        leaves(steps, path, content) ==> leaves(front + steps + back, path, content),
        spares(front, path) && spares(steps, path) ==> spares(front + steps + back, path),
{
    let all = front + steps + back;
    let (f, m) = (front.len() as int, front.len() + steps.len());
    assert forall|k: int| m <= k < all.len() implies !touches(#[trigger] all[k], path) by {
        assert(all[k] == back[k - m]);
    }
    if leaves(steps, path, content) {
        let k = choose|k: int|
            {
                &&& 0 <= k < steps.len()
                &&& writes(#[trigger] steps[k], path, content)
                &&& forall|j: int| k < j < steps.len() ==> !touches(#[trigger] steps[j], path)
            };
        assert(all[f + k] == steps[k]);
        assert forall|j: int| f + k < j < all.len() implies !touches(#[trigger] all[j], path) by {
            if j < m {
                assert(all[j] == steps[j - f]);
            }
        }
        assert(leaves(all, path, content));
    }
    if spares(front, path) && spares(steps, path) {
        assert forall|k: int| 0 <= k < all.len() implies !touches(#[trigger] all[k], path) by {
            if k < f {
                assert(all[k] == front[k]);
            } else if k < m {
                assert(all[k] == steps[k - f]);
            }
        }
    }
}

proof fn lemma_reopens_within(
    front: Seq<StepView>,
    steps: Seq<StepView>,
    back: Seq<StepView>,
    path: Seq<char>,
    content: Seq<char>,
)
    requires
        reopens(steps, path, content),
    ensures
        reopens(front + steps + back, path, content),
{
    let all = front + steps + back;
    let f = front.len() as int;
    let k = choose|k: int|
        {
            &&& 0 <= k < steps.len() - 2
            &&& #[trigger] steps[k] == (StepView::TryWrite { path, content: "\n"@ })
            &&& steps[k + 1] == StepView::Sleep(1000)
            &&& steps[k + 2] == (StepView::TryWrite { path, content })
        };
    assert(all[f + k] == steps[k]);
    assert(all[f + k + 1] == steps[k + 1]);
    assert(all[f + k + 2] == steps[k + 2]);
}

/// Binding a complete gadget again gives each LUN its own image: where the LUN
/// with an image's number has a `file` attribute and the image is there, the
/// attribute is emptied, and a second later it names that image and stays so. No
/// other LUN is written to. The single-function gadget goes first, and the
/// settling time comes last.
pub proof fn law_rebind_gives_each_lun_its_image(
    gadget: Seq<char>,
    power: u32,
    modules: Seq<Seq<char>>,
    unload: Seq<Seq<char>>,
    settle_ms: u64,
    facts: FactsView,
    i: nat,
)
    requires
        facts.gadget_exists,
        facts.complete,
    ensures
        enable_plan(
            gadget,
            power,
            modules,
            unload,
            settle_ms,
            facts,
        ) matches EnableView::Rebind { steps } && {
            let file = text::path_below(
                gadget,
                "functions/mass_storage.0/lun."@ + text::decimal(i) + "/"@ + "file"@,
            );
            let image = if i == 0 {
                "/backingfiles/cam_disk.bin"@
            } else if i == 1 {
                "/backingfiles/music_disk.bin"@
            } else if i == 2 {
                "/backingfiles/lightshow_disk.bin"@
            } else {
                "/backingfiles/boombox_disk.bin"@
            };
            let reopened = i < 4 && facts.images[i as int].present
                && facts.images[i as int].lun_file_present;
            &&& reopened ==> leaves(steps, file, image)
            &&& reopened ==> reopens(steps, file, image)
            &&& !reopened ==> spares(steps, file)
            &&& steps[0] == StepView::Modprobe(seq!["-q"@, "-r"@, "g_mass_storage"@])
            &&& steps.last() == StepView::Sleep(settle_ms)
        },
{
    let file = lun_file_path(gadget, i);
    let middle = reopen_script(gadget, facts.images, 4);
    let front = seq![release_view()];
    let back = seq![StepView::Sleep(settle_ms)];
    lemma_lun_paths(gadget, i);
    lemma_reopen(gadget, facts.images, 4, i as int);
    let steps = front + refresh_script(gadget, settle_ms, facts.images);
    assert(steps =~= front + middle + back);
    let reopened = i < 4 && facts.images[i as int].present
        && facts.images[i as int].lun_file_present;
    if reopened {
        lemma_leaves_within(front, middle, back, file, DISK_IMAGES@[i as int]@);
        lemma_reopens_within(front, middle, back, file, DISK_IMAGES@[i as int]@);
    } else {
        lemma_leaves_within(front, middle, back, file, ""@);
    }
}

proof fn lemma_images_differ()
    ensures
        "/backingfiles/cam_disk.bin"@.len() == 26,
        "/backingfiles/music_disk.bin"@.len() == 28,
        "/backingfiles/lightshow_disk.bin"@.len() == 32,
        "/backingfiles/boombox_disk.bin"@.len() == 30,
{
    reveal_strlit("/backingfiles/cam_disk.bin");
    reveal_strlit("/backingfiles/music_disk.bin");
    reveal_strlit("/backingfiles/lightshow_disk.bin");
    reveal_strlit("/backingfiles/boombox_disk.bin");
}

/// No two LUNs of a gadget that is bound again end up with the same image.
pub proof fn law_rebound_luns_differ(
    gadget: Seq<char>,
    power: u32,
    modules: Seq<Seq<char>>,
    unload: Seq<Seq<char>>,
    settle_ms: u64,
    facts: FactsView,
    i: nat,
    j: nat,
    image: Seq<char>,
)
    requires
        facts.gadget_exists,
        facts.complete,
        i < j,
    ensures
        enable_plan(
            gadget,
            power,
            modules,
            unload,
            settle_ms,
            facts,
        ) matches EnableView::Rebind { steps } && !(leaves(steps, lun_file_path(gadget, i), image)
            && leaves(steps, lun_file_path(gadget, j), image)),
{
    law_rebind_gives_each_lun_its_image(gadget, power, modules, unload, settle_ms, facts, i);
    law_rebind_gives_each_lun_its_image(gadget, power, modules, unload, settle_ms, facts, j);
    lemma_lun_paths(gadget, i);
    lemma_lun_paths(gadget, j);
    lemma_images_differ();
    let steps = enable_plan(
        gadget,
        power,
        modules,
        unload,
        settle_ms,
        facts,
    )->Rebind_steps;
    lemma_one_content(steps, lun_file_path(gadget, i));
    lemma_one_content(steps, lun_file_path(gadget, j));
}

/// A file is left with one content, and with none where it is not written to.
proof fn lemma_one_content(steps: Seq<StepView>, path: Seq<char>)
    ensures
        forall|a: Seq<char>, b: Seq<char>| #[trigger]
            leaves(steps, path, a) && #[trigger] leaves(steps, path, b) ==> a == b,
        spares(steps, path) ==> forall|a: Seq<char>| !#[trigger] leaves(steps, path, a),
{
    assert forall|a: Seq<char>, b: Seq<char>| #[trigger]
        leaves(steps, path, a) && #[trigger] leaves(steps, path, b) implies a == b by {
        let k = choose|k: int|
            {
                &&& 0 <= k < steps.len()
                &&& writes(#[trigger] steps[k], path, a)
                &&& forall|j: int| k < j < steps.len() ==> !touches(#[trigger] steps[j], path)
            };
        let m = choose|m: int|
            {
                &&& 0 <= m < steps.len()
                &&& writes(#[trigger] steps[m], path, b)
                &&& forall|j: int| m < j < steps.len() ==> !touches(#[trigger] steps[j], path)
            };
        assert(touches(steps[k], path) && touches(steps[m], path));
        assert(k == m);
    }
    assert forall|a: Seq<char>| spares(steps, path) implies !#[trigger] leaves(steps, path, a) by {
        if leaves(steps, path, a) {
            let k = choose|k: int|
                {
                    &&& 0 <= k < steps.len()
                    &&& writes(#[trigger] steps[k], path, a)
                    &&& forall|j: int| k < j < steps.len() ==> !touches(#[trigger] steps[j], path)
                };
            assert(touches(steps[k], path));
        }
    }
}

proof fn lemma_descriptor_tails()
    ensures
        "idVendor"@.len() == 8,
        "idProduct"@.len() == 9,
        "bcdDevice"@.len() == 9,
        "bcdUSB"@.len() == 6,
        "strings/0x409/serialnumber"@.len() == 26,
        "strings/0x409/manufacturer"@.len() == 26,
        "strings/0x409/product"@.len() == 21,
        "configs/c.1/strings/0x409/configuration"@.len() == 39,
        "configs/c.1/MaxPower"@.len() == 20,
        "bcdDevice"@[0] == 'b',
        "bcdUSB"@[0] == 'b',
        "configs/c.1/MaxPower"@[0] == 'c',
        "configs/c.1/strings/0x409/configuration"@[0] == 'c',
        "idProduct"@[0] == 'i',
        "idVendor"@[0] == 'i',
        "strings/0x409/manufacturer"@[0] == 's',
        "strings/0x409/manufacturer"@[14] == 'm',
        "strings/0x409/product"@[0] == 's',
        "strings/0x409/serialnumber"@[0] == 's',
        "strings/0x409/serialnumber"@[14] == 's',
{
    reveal_strlit("idVendor");
    reveal_strlit("idProduct");
    reveal_strlit("bcdDevice");
    reveal_strlit("bcdUSB");
    reveal_strlit("strings/0x409/serialnumber");
    reveal_strlit("strings/0x409/manufacturer");
    reveal_strlit("strings/0x409/product");
    reveal_strlit("configs/c.1/strings/0x409/configuration");
    reveal_strlit("configs/c.1/MaxPower");
}

proof fn lemma_descriptor_paths(gadget: Seq<char>, power: u32, serial: Seq<char>)
    ensures
        descriptor_script(gadget, power, serial).len() == 13,
        descriptor_script(gadget, power, serial)[1] == (StepView::Write {
            path: text::path_below(gadget, "idVendor"@),
            content: "0x1d6b"@,
        }),
        descriptor_script(gadget, power, serial)[2] == (StepView::Write {
            path: text::path_below(gadget, "idProduct"@),
            content: "0x0104"@,
        }),
        descriptor_script(gadget, power, serial)[3] == (StepView::Write {
            path: text::path_below(gadget, "bcdDevice"@),
            content: "0x0100"@,
        }),
        descriptor_script(gadget, power, serial)[4] == (StepView::Write {
            path: text::path_below(gadget, "bcdUSB"@),
            content: "0x0200"@,
        }),
        descriptor_script(gadget, power, serial)[7] == (StepView::Write {
            path: text::path_below(gadget, "strings/0x409/serialnumber"@),
            content: serial,
        }),
        descriptor_script(gadget, power, serial)[8] == (StepView::Write {
            path: text::path_below(gadget, "strings/0x409/manufacturer"@),
            content: "SentryUSB"@,
        }),
        descriptor_script(gadget, power, serial)[9] == (StepView::Write {
            path: text::path_below(gadget, "strings/0x409/product"@),
            content: "SentryUSB Composite Gadget"@,
        }),
        descriptor_script(gadget, power, serial)[10] == (StepView::Write {
            path: text::path_below(gadget, "configs/c.1/strings/0x409/configuration"@),
            content: "SentryUSB Config"@,
        }),
        descriptor_script(gadget, power, serial)[11] == (StepView::Write {
            path: text::path_below(gadget, "configs/c.1/MaxPower"@),
            content: text::decimal(power as nat),
        }),
        forall|d: int|
            d == 0 || d == 5 || d == 6 || d == 12 ==> (#[trigger] descriptor_script(
                gadget,
                power,
                serial,
            )[d]) is CreateDir,
{
    reveal_strlit("MaxPower");
    reveal_strlit("configs/c.1");
    reveal_strlit("configs/c.1/MaxPower");
    reveal_strlit("configs/c.1/strings/0x409");
    reveal_strlit("configs/c.1/strings/0x409/configuration");
    reveal_strlit("configuration");
    reveal_strlit("manufacturer");
    reveal_strlit("product");
    reveal_strlit("serialnumber");
    reveal_strlit("strings/0x409");
    reveal_strlit("strings/0x409/manufacturer");
    reveal_strlit("strings/0x409/product");
    reveal_strlit("strings/0x409/serialnumber");
    lemma_directory_tails(gadget);
    text::lemma_below_twice(gadget, "strings/0x409"@, "serialnumber"@);
    assert("strings/0x409"@ + seq!['/'] + "serialnumber"@ =~= "strings/0x409/serialnumber"@);
    text::lemma_below_twice(gadget, "strings/0x409"@, "manufacturer"@);
    assert("strings/0x409"@ + seq!['/'] + "manufacturer"@ =~= "strings/0x409/manufacturer"@);
    text::lemma_below_twice(gadget, "strings/0x409"@, "product"@);
    assert("strings/0x409"@ + seq!['/'] + "product"@ =~= "strings/0x409/product"@);
    text::lemma_below_twice(gadget, "configs/c.1/strings/0x409"@, "configuration"@);
    assert("configs/c.1/strings/0x409"@ + seq!['/'] + "configuration"@ =~= "configs/c.1/strings/0x409/configuration"@);
    text::lemma_below_twice(gadget, "configs/c.1"@, "MaxPower"@);
    assert("configs/c.1"@ + seq!['/'] + "MaxPower"@ =~= "configs/c.1/MaxPower"@);
}

/// The name below the gadget's directory that the descriptor step at a position
/// writes to.
spec fn descriptor_tail(d: int) -> Seq<char> {
    if d == 1 {
        "idVendor"@
    } else if d == 2 {
        "idProduct"@
    } else if d == 3 {
        "bcdDevice"@
    } else if d == 4 {
        "bcdUSB"@
    } else if d == 7 {
        "strings/0x409/serialnumber"@
    } else if d == 8 {
        "strings/0x409/manufacturer"@
    } else if d == 9 {
        "strings/0x409/product"@
    } else if d == 10 {
        "configs/c.1/strings/0x409/configuration"@
    } else if d == 11 {
        "configs/c.1/MaxPower"@
    } else {
        Seq::empty()
    }
}

proof fn lemma_lun_step(gadget: Seq<char>, images: Seq<ImageFact>, n: nat, j: int)
    requires
        0 <= j < luns_script(gadget, images, n).len(),
    ensures
        ({
            let step = luns_script(gadget, images, n)[j];
            let lun = (j / 3) as nat;
            &&& j % 3 == 0 ==> step is CreateDir && step->CreateDir_path == text::path_below(
                gadget,
                "functions/mass_storage.0/lun."@ + text::decimal(lun),
            )
            &&& j % 3 == 0 ==> step->label == "lun."@ + text::decimal(lun) + " at "@
                + step->CreateDir_path
            &&& j % 3 == 1 ==> step is Write && step->Write_path == text::path_below(
                gadget,
                lun_tail(lun, "file"@),
            )
            &&& j % 3 == 2 ==> step is Write && step->Write_path == text::path_below(
                gadget,
                lun_tail(lun, "inquiry_string"@),
            )
        }),
    decreases n,
{
    let before = luns_script(gadget, images, (n - 1) as nat);
    lemma_luns_len(gadget, images, n);
    lemma_luns_len(gadget, images, (n - 1) as nat);
    if j < before.len() {
        lemma_lun_step(gadget, images, (n - 1) as nat, j);
        assert(luns_script(gadget, images, n)[j] == before[j]);
    } else {
        let k = present_before(images, (n - 1) as nat);
        lemma_lun_paths(gadget, k);
        assert(luns_script(gadget, images, n)[j] == lun_steps(
            gadget,
            n - 1,
            k,
            images[n - 1].size,
        )[j - before.len()]);
    }
}

proof fn lemma_luns_spare(gadget: Seq<char>, images: Seq<ImageFact>, n: nat, tail: Seq<char>)
    requires
        tail.len() > 0 && tail[0] != '/' && tail[0] != 'f',
    ensures
        spares(luns_script(gadget, images, n), text::path_below(gadget, tail)),
{
    reveal_strlit("functions/mass_storage.0/lun.");
    let path = text::path_below(gadget, tail);
    let steps = luns_script(gadget, images, n);
    assert forall|j: int| 0 <= j < steps.len() implies !touches(#[trigger] steps[j], path) by {
        lemma_lun_step(gadget, images, n, j);
        let lun = (j / 3) as nat;
        assert(lun_tail(lun, "file"@)[0] == 'f');
        assert(lun_tail(lun, "inquiry_string"@)[0] == 'f');
        text::lemma_below_differs(gadget, lun_tail(lun, "file"@), tail);
        text::lemma_below_differs(gadget, lun_tail(lun, "inquiry_string"@), tail);
        assert(j % 3 == 0 || j % 3 == 1 || j % 3 == 2);
    }
}

spec fn build_end(gadget: Seq<char>, settle_ms: u64) -> Seq<StepView> {
    seq![
        StepView::Link {
            target: function_path(gadget),
            link: text::path_below(config_path(gadget), "mass_storage.0"@),
        },
        StepView::Sleep(settle_ms),
    ]
}

proof fn lemma_descriptor_left(
    gadget: Seq<char>,
    power: u32,
    modules: Seq<Seq<char>>,
    settle_ms: u64,
    facts: FactsView,
    d: int,
    tail: Seq<char>,
    content: Seq<char>,
)
    requires
        0 <= d < 13,
        tail == descriptor_tail(d),
        tail.len() > 0,
        descriptor_script(gadget, power, facts.serial)[d] == (StepView::Write {
            path: text::path_below(gadget, tail),
            content,
        }),
    ensures
        leaves(
            build_script(gadget, power, modules, settle_ms, facts),
            text::path_below(gadget, tail),
            content,
        ),
{
    lemma_descriptor_tails();
    lemma_descriptor_paths(gadget, power, facts.serial);
    let path = text::path_below(gadget, tail);
    let loads = modules_script(modules);
    let described = descriptor_script(gadget, power, facts.serial);
    let luns = luns_script(gadget, facts.images, 4);
    let end = build_end(gadget, settle_ms);
    assert forall|j: int| d < j < described.len() implies !touches(
        #[trigger] described[j],
        path,
    ) by {
        if descriptor_tail(j).len() > 0 {
            text::lemma_below_differs(gadget, descriptor_tail(j), tail);
            assert(descriptor_tail(j) != tail);
        } else {
            assert(described[j] is CreateDir);
        }
    }
    assert(writes(described[d], path, content));
    assert(leaves(described, path, content));
    lemma_luns_spare(gadget, facts.images, 4, tail);
    lemma_leaves_within(Seq::empty(), luns, end, path, content);
    assert(Seq::<StepView>::empty() + luns + end =~= luns + end);
    lemma_leaves_within(loads, described, luns + end, path, content);
    assert(loads + described + (luns + end) =~= build_script(
        gadget,
        power,
        modules,
        settle_ms,
        facts,
    ));
}

/// A gadget that was built says who it is: its vendor and product, its serial
/// number, its names, and the current that it draws, each in its own file.
pub proof fn law_build_describes_the_gadget(
    gadget: Seq<char>,
    power: u32,
    modules: Seq<Seq<char>>,
    settle_ms: u64,
    facts: FactsView,
)
    ensures
        ({
            let build = build_script(gadget, power, modules, settle_ms, facts);
            &&& leaves(build, text::path_below(gadget, "idVendor"@), "0x1d6b"@)
            &&& leaves(build, text::path_below(gadget, "idProduct"@), "0x0104"@)
            &&& leaves(build, text::path_below(gadget, "bcdDevice"@), "0x0100"@)
            &&& leaves(build, text::path_below(gadget, "bcdUSB"@), "0x0200"@)
            &&& leaves(build, text::path_below(gadget, "strings/0x409/serialnumber"@), facts.serial)
            &&& leaves(build, text::path_below(gadget, "strings/0x409/manufacturer"@), "SentryUSB"@)
            &&& leaves(build, text::path_below(gadget, "strings/0x409/product"@), "SentryUSB Composite Gadget"@)
            &&& leaves(build, text::path_below(gadget, "configs/c.1/strings/0x409/configuration"@), "SentryUSB Config"@)
            &&& leaves(build, text::path_below(gadget, "configs/c.1/MaxPower"@), text::decimal(power as nat))
        }),
{
    lemma_descriptor_tails();
    lemma_descriptor_paths(gadget, power, facts.serial);
    lemma_descriptor_left(gadget, power, modules, settle_ms, facts, 1, "idVendor"@, "0x1d6b"@);
    lemma_descriptor_left(gadget, power, modules, settle_ms, facts, 2, "idProduct"@, "0x0104"@);
    lemma_descriptor_left(gadget, power, modules, settle_ms, facts, 3, "bcdDevice"@, "0x0100"@);
    lemma_descriptor_left(gadget, power, modules, settle_ms, facts, 4, "bcdUSB"@, "0x0200"@);
    lemma_descriptor_left(gadget, power, modules, settle_ms, facts, 7, "strings/0x409/serialnumber"@, facts.serial);
    lemma_descriptor_left(gadget, power, modules, settle_ms, facts, 8, "strings/0x409/manufacturer"@, "SentryUSB"@);
    lemma_descriptor_left(gadget, power, modules, settle_ms, facts, 9, "strings/0x409/product"@, "SentryUSB Composite Gadget"@);
    lemma_descriptor_left(gadget, power, modules, settle_ms, facts, 10, "configs/c.1/strings/0x409/configuration"@, "SentryUSB Config"@);
    lemma_descriptor_left(gadget, power, modules, settle_ms, facts, 11, "configs/c.1/MaxPower"@, text::decimal(power as nat));
}

/// How a label stands in what a LUN says of itself.
spec fn lun_content(i: int, size: Option<u64>, name: Seq<char>) -> Seq<char> {
    if name == "file"@ {
        DISK_IMAGES@[i]@
    } else {
        inquiry(DISK_LABELS@[i]@, size)
    }
}

proof fn lemma_lun_left(
    gadget: Seq<char>,
    power: u32,
    modules: Seq<Seq<char>>,
    settle_ms: u64,
    facts: FactsView,
    i: int,
    name: Seq<char>,
)
    requires
        0 <= i < 4,
        facts.images[i].present,
        name == "file"@ || name == "inquiry_string"@,
    ensures
        leaves(
            build_script(gadget, power, modules, settle_ms, facts),
            text::path_below(gadget, lun_tail(present_before(facts.images, i as nat), name)),
            lun_content(i, facts.images[i].size, name),
        ),
{
    reveal_strlit("file");
    reveal_strlit("inquiry_string");
    assert("file"@.len() == 4 && "inquiry_string"@.len() == 14);
    let k = present_before(facts.images, i as nat);
    let path = text::path_below(gadget, lun_tail(k, name));
    let content = lun_content(i, facts.images[i].size, name);
    let luns = luns_script(gadget, facts.images, 4);
    let steps = lun_steps(gadget, i, k, facts.images[i].size);
    law_luns_have_no_gap(gadget, facts.images, 4, i);
    lemma_lun_paths(gadget, k);
    let r: int = if name == "file"@ {
        1
    } else {
        2
    };
    let m = 3 * k + r;
    assert(luns.subrange(3 * k as int, 3 * k as int + 3)[r] == steps[r]);
    assert(luns[m] == steps[r]);
    assert(writes(luns[m], path, content));
    assert forall|j: int| m < j < luns.len() implies !touches(#[trigger] luns[j], path) by {
        lemma_lun_step(gadget, facts.images, 4, j);
        let lun = (j / 3) as nat;
        let other = if j % 3 == 1 {
            "file"@
        } else {
            "inquiry_string"@
        };
        if j % 3 != 0 {
            assert(j % 3 == 1 || j % 3 == 2);
            assert(lun != k || other != name);
            lemma_lun_tails_differ(gadget, lun, k, other, name);
        }
    }
    assert(leaves(luns, path, content));
    let front = modules_script(modules) + descriptor_script(gadget, power, facts.serial);
    let end = build_end(gadget, settle_ms);
    lemma_leaves_within(front, luns, end, path, content);
    assert(front + luns + end =~= build_script(gadget, power, modules, settle_ms, facts));
}

/// One where it holds, else zero.
pub open spec fn one_if(b: bool) -> nat {
    if b {
        1
    } else {
        0
    }
}

proof fn lemma_present_counts(images: Seq<ImageFact>, n: nat)
    ensures
        n == 0 ==> present_before(images, n) == 0,
        n == 1 ==> present_before(images, n) == one_if(images[0].present),
        n == 2 ==> present_before(images, n) == one_if(images[0].present) + one_if(
            images[1].present,
        ),
        n == 3 ==> present_before(images, n) == one_if(images[0].present) + one_if(
            images[1].present,
        ) + one_if(images[2].present),
        n == 4 ==> present_before(images, n) == one_if(images[0].present) + one_if(
            images[1].present,
        ) + one_if(images[2].present) + one_if(images[3].present),
{
    reveal_with_fuel(present_before, 5);
}

/// A gadget that was built exposes each image that is there as a LUN of its own,
/// numbered by how many images come before it: the LUN's file is the image, and
/// what it says of itself is the image's label and size.
pub proof fn law_build_exposes_each_image(
    gadget: Seq<char>,
    power: u32,
    modules: Seq<Seq<char>>,
    settle_ms: u64,
    facts: FactsView,
)
    ensures
        ({
            let build = build_script(gadget, power, modules, settle_ms, facts);
            let image = |i: int| facts.images[i];
            let first = one_if(image(0).present);
            let second = first + one_if(image(1).present);
            let third = second + one_if(image(2).present);
            let file = |n: nat| text::path_below(gadget, lun_tail(n, "file"@));
            let says = |n: nat| text::path_below(gadget, lun_tail(n, "inquiry_string"@));
            &&& image(0).present ==> leaves(build, file(0), "/backingfiles/cam_disk.bin"@)
            &&& image(0).present ==> leaves(
                build,
                says(0),
                "SentryUSB CAM "@ + shown_size(image(0).size),
            )
            &&& image(1).present ==> leaves(build, file(first), "/backingfiles/music_disk.bin"@)
            &&& image(1).present ==> leaves(
                build,
                says(first),
                "SentryUSB MUSIC "@ + shown_size(image(1).size),
            )
            &&& image(2).present ==> leaves(
                build,
                file(second),
                "/backingfiles/lightshow_disk.bin"@,
            )
            &&& image(2).present ==> leaves(
                build,
                says(second),
                "SentryUSB LIGHTSHOW "@ + shown_size(image(2).size),
            )
            &&& image(3).present ==> leaves(build, file(third), "/backingfiles/boombox_disk.bin"@)
            &&& image(3).present ==> leaves(
                build,
                says(third),
                "SentryUSB BOOMBOX "@ + shown_size(image(3).size),
            )
        }),
{
    reveal_strlit("file");
    reveal_strlit("inquiry_string");
    assert("file"@.len() == 4 && "inquiry_string"@.len() == 14);
    lemma_present_counts(facts.images, 0);
    lemma_present_counts(facts.images, 1);
    lemma_present_counts(facts.images, 2);
    lemma_present_counts(facts.images, 3);
    lemma_inquiries(facts.images);
    if facts.images[0].present {
        lemma_lun_left(gadget, power, modules, settle_ms, facts, 0, "file"@);
        lemma_lun_left(gadget, power, modules, settle_ms, facts, 0, "inquiry_string"@);
    }
    if facts.images[1].present {
        lemma_lun_left(gadget, power, modules, settle_ms, facts, 1, "file"@);
        lemma_lun_left(gadget, power, modules, settle_ms, facts, 1, "inquiry_string"@);
    }
    if facts.images[2].present {
        lemma_lun_left(gadget, power, modules, settle_ms, facts, 2, "file"@);
        lemma_lun_left(gadget, power, modules, settle_ms, facts, 2, "inquiry_string"@);
    }
    if facts.images[3].present {
        lemma_lun_left(gadget, power, modules, settle_ms, facts, 3, "file"@);
        lemma_lun_left(gadget, power, modules, settle_ms, facts, 3, "inquiry_string"@);
    }
}

proof fn lemma_inquiries(images: Seq<ImageFact>)
    ensures
        inquiry(DISK_LABELS@[0]@, images[0].size) == "SentryUSB CAM "@ + shown_size(images[0].size),
        inquiry(DISK_LABELS@[1]@, images[1].size) == "SentryUSB MUSIC "@ + shown_size(
            images[1].size,
        ),
        inquiry(DISK_LABELS@[2]@, images[2].size) == "SentryUSB LIGHTSHOW "@ + shown_size(
            images[2].size,
        ),
        inquiry(DISK_LABELS@[3]@, images[3].size) == "SentryUSB BOOMBOX "@ + shown_size(
            images[3].size,
        ),
{
    reveal_strlit("SentryUSB ");
    reveal_strlit(" ");
    reveal_strlit("CAM");
    reveal_strlit("MUSIC");
    reveal_strlit("LIGHTSHOW");
    reveal_strlit("BOOMBOX");
    reveal_strlit("SentryUSB CAM ");
    reveal_strlit("SentryUSB MUSIC ");
    reveal_strlit("SentryUSB LIGHTSHOW ");
    reveal_strlit("SentryUSB BOOMBOX ");
    assert("SentryUSB "@ + "CAM"@ + " "@ =~= "SentryUSB CAM "@);
    assert("SentryUSB "@ + "MUSIC"@ + " "@ =~= "SentryUSB MUSIC "@);
    assert("SentryUSB "@ + "LIGHTSHOW"@ + " "@ =~= "SentryUSB LIGHTSHOW "@);
    assert("SentryUSB "@ + "BOOMBOX"@ + " "@ =~= "SentryUSB BOOMBOX "@);
}

/// A build exposes nothing else: the LUNs beyond the number of images that are
/// there are not written to.
pub proof fn law_build_exposes_nothing_else(
    gadget: Seq<char>,
    power: u32,
    modules: Seq<Seq<char>>,
    settle_ms: u64,
    facts: FactsView,
    n: nat,
)
    requires
        n >= one_if(facts.images[0].present) + one_if(facts.images[1].present) + one_if(
            facts.images[2].present,
        ) + one_if(facts.images[3].present),
    ensures
        spares(
            build_script(gadget, power, modules, settle_ms, facts),
            text::path_below(gadget, lun_tail(n, "file"@)),
        ),
{
    reveal_strlit("functions/mass_storage.0/lun.");
    let tail = lun_tail(n, "file"@);
    let path = text::path_below(gadget, tail);
    let luns = luns_script(gadget, facts.images, 4);
    let loads = modules_script(modules);
    let described = descriptor_script(gadget, power, facts.serial);
    let end = build_end(gadget, settle_ms);
    lemma_present_counts(facts.images, 4);
    lemma_luns_len(gadget, facts.images, 4);
    lemma_descriptor_tails();
    lemma_descriptor_paths(gadget, power, facts.serial);
    assert(tail[0] == 'f');
    assert forall|j: int| 0 <= j < luns.len() implies !touches(#[trigger] luns[j], path) by {
        lemma_lun_step(gadget, facts.images, 4, j);
        let lun = (j / 3) as nat;
        assert(lun < n);
        lemma_lun_tails_differ(gadget, lun, n, "file"@, "file"@);
        lemma_lun_tails_differ(gadget, lun, n, "inquiry_string"@, "file"@);
        assert(j % 3 == 0 || j % 3 == 1 || j % 3 == 2);
    }
    assert forall|j: int| 0 <= j < described.len() implies !touches(
        #[trigger] described[j],
        path,
    ) by {
        if descriptor_tail(j).len() > 0 {
            text::lemma_below_differs(gadget, descriptor_tail(j), tail);
            assert(descriptor_tail(j)[0] != 'f');
        } else {
            assert(described[j] is CreateDir);
        }
    }
    assert(spares(loads, path));
    lemma_leaves_within(loads, described, luns, path, ""@);
    lemma_leaves_within(loads + described, luns, end, path, ""@);
    assert forall|j: int| 0 <= j < (loads + described).len() implies !touches(
        #[trigger] (loads + described)[j],
        path,
    ) by {
        assert((loads + described + luns)[j] == (loads + described)[j]);
    }
    assert(loads + described + luns + end =~= build_script(
        gadget,
        power,
        modules,
        settle_ms,
        facts,
    ));
}

/// A build goes in order: each module is loaded by a command of its own; the
/// function's directory is there before its LUNs, and each LUN's before its
/// files; then the function is linked to the configuration, and last comes the
/// settling time.
pub proof fn law_build_goes_in_order(
    gadget: Seq<char>,
    power: u32,
    modules: Seq<Seq<char>>,
    settle_ms: u64,
    facts: FactsView,
    i: int,
)
    ensures
        ({
            let build = build_script(gadget, power, modules, settle_ms, facts);
            let link = StepView::Link {
                target: text::path_below(gadget, "functions/mass_storage.0"@),
                link: text::path_below(gadget, "configs/c.1/mass_storage.0"@),
            };
            &&& 0 <= i < modules.len() ==> build[i] == StepView::Modprobe(seq![modules[i]])
            &&& build.last() == StepView::Sleep(settle_ms)
            &&& build[build.len() - 2] == link
            &&& modules.len() <= i < build.len() - 2 ==> build[i] is CreateDir || build[i] is Write
            &&& modules.len() <= i < build.len() && touches(
                build[i],
                text::path_below(gadget, lun_tail(0, "file"@)),
            ) ==> exists|j: int|
                0 <= j < i && ((#[trigger] build[j]) matches StepView::CreateDir { path, .. }
                    && path == text::path_below(gadget, "functions/mass_storage.0"@))
        }),
{
    reveal_strlit("configs/c.1");
    reveal_strlit("mass_storage.0");
    reveal_strlit("configs/c.1/mass_storage.0");
    reveal_strlit("functions/mass_storage.0/lun.");
    lemma_directory_tails(gadget);
    lemma_descriptor_tails();
    lemma_descriptor_paths(gadget, power, facts.serial);
    text::lemma_below_twice(gadget, "configs/c.1"@, "mass_storage.0"@);
    assert("configs/c.1"@ + seq!['/'] + "mass_storage.0"@ =~= "configs/c.1/mass_storage.0"@);
    let build = build_script(gadget, power, modules, settle_ms, facts);
    let loads = modules_script(modules);
    let described = descriptor_script(gadget, power, facts.serial);
    let luns = luns_script(gadget, facts.images, 4);
    let n = loads.len() as int;
    if 0 <= i < n {
        assert(build[i] == loads[i]);
    }
    if n <= i < n + 13 {
        assert(build[i] == described[i - n]);
        let tail = lun_tail(0, "file"@);
        assert(tail[0] == 'f');
        if descriptor_tail(i - n).len() > 0 {
            text::lemma_below_differs(gadget, descriptor_tail(i - n), tail);
            assert(descriptor_tail(i - n)[0] != 'f');
        }
    }
    if n + 13 <= i < build.len() - 2 {
        assert(build[i] == luns[i - n - 13]);
        lemma_lun_step(gadget, facts.images, 4, i - n - 13);
        assert((i - n - 13) % 3 == 0 || (i - n - 13) % 3 == 1 || (i - n - 13) % 3 == 2);
        assert(build[n + 12] == described[12]);
    }
}

proof fn lemma_removed_tails()
    ensures
        "configs/c.1/strings/0x409"@.len() == 25,
        "configs/c.1/strings/0x0409"@.len() == 26,
        "functions/mass_storage.0/lun.1"@.len() == 30,
        "functions/mass_storage.0/lun.2"@.len() == 30,
        "functions/mass_storage.0/lun.3"@.len() == 30,
        "functions/mass_storage.0/lun.4"@.len() == 30,
        "functions/mass_storage.0"@.len() == 24,
        "configs/c.1"@.len() == 11,
        "strings/0x409"@.len() == 13,
        "strings/0x0409"@.len() == 14,
        "configs/c.1"@[0] == 'c',
        "configs/c.1/strings/0x0409"@[0] == 'c',
        "configs/c.1/strings/0x0409"@[22] == '0',
        "configs/c.1/strings/0x409"@[0] == 'c',
        "configs/c.1/strings/0x409"@[22] == '4',
        "functions/mass_storage.0"@[0] == 'f',
        "functions/mass_storage.0/lun.1"@[0] == 'f',
        "functions/mass_storage.0/lun.2"@[0] == 'f',
        "functions/mass_storage.0/lun.3"@[0] == 'f',
        "functions/mass_storage.0/lun.4"@[0] == 'f',
        "strings/0x0409"@[0] == 's',
        "strings/0x0409"@[10] == '0',
        "strings/0x409"@[0] == 's',
        "strings/0x409"@[10] == '4',
{
    reveal_strlit("configs/c.1/strings/0x409");
    reveal_strlit("configs/c.1/strings/0x0409");
    reveal_strlit("functions/mass_storage.0/lun.1");
    reveal_strlit("functions/mass_storage.0/lun.2");
    reveal_strlit("functions/mass_storage.0/lun.3");
    reveal_strlit("functions/mass_storage.0/lun.4");
    reveal_strlit("functions/mass_storage.0");
    reveal_strlit("configs/c.1");
    reveal_strlit("strings/0x409");
    reveal_strlit("strings/0x0409");
}

/// The name below the gadget's directory that the teardown step at a position
/// removes.
spec fn removed_tail(i: int) -> Seq<char> {
    if i == 2 {
        "configs/c.1/strings/0x409"@
    } else if i == 3 {
        "configs/c.1/strings/0x0409"@
    } else if i == 9 {
        "functions/mass_storage.0/lun.1"@
    } else if i == 10 {
        "functions/mass_storage.0/lun.2"@
    } else if i == 11 {
        "functions/mass_storage.0/lun.3"@
    } else if i == 12 {
        "functions/mass_storage.0/lun.4"@
    } else if i == 13 {
        "functions/mass_storage.0"@
    } else if i == 14 {
        "configs/c.1"@
    } else if i == 15 {
        "strings/0x409"@
    } else if i == 16 {
        "strings/0x0409"@
    } else {
        Seq::empty()
    }
}

proof fn lemma_removals(gadget: Seq<char>, unload: Seq<Seq<char>>, i: int)
    requires
        0 <= i < 19,
    ensures
        teardown_script(gadget, unload).len() == 19,
        removed_tail(i).len() > 0 ==> teardown_script(gadget, unload)[i] == StepView::TryRemoveDir(
            text::path_below(gadget, removed_tail(i)),
        ),
        removed_tail(i).len() == 0 && i != 17 ==> !(teardown_script(
            gadget,
            unload,
        )[i] is TryRemoveDir),
        teardown_script(gadget, unload)[17] == StepView::TryRemoveDir(gadget),
{
    let down = teardown_script(gadget, unload);
    reveal_strlit("functions/mass_storage.0/lun.");
    lemma_removed_tails();
    lemma_directory_tails(gadget);
    if 9 <= i <= 12 {
        let n = (i - 8) as nat;
        lemma_lun_paths(gadget, n);
        text::law_decimal_is_positional(0, n);
        let name = "functions/mass_storage.0/lun."@ + text::decimal(n);
        reveal_strlit("functions/mass_storage.0/lun.1");
        reveal_strlit("functions/mass_storage.0/lun.2");
        reveal_strlit("functions/mass_storage.0/lun.3");
        reveal_strlit("functions/mass_storage.0/lun.4");
        assert(text::decimal(n)[0] as int == 48 + n);
        assert(text::decimal(n) =~= seq![text::decimal(n)[0]]);
        assert(text::decimal(n)[0] == (if n == 1 {
            '1'
        } else if n == 2 {
            '2'
        } else if n == 3 {
            '3'
        } else {
            '4'
        }));
        assert(name =~= removed_tail(i));
        assert(down[i] == drop_script(gadget, 4)[i - 9]);
    } else if 4 <= i <= 8 {
        assert(down[i] == empty_script(gadget, 5)[i - 4]);
    }
}

/// The path stands inside the directory.
pub open spec fn is_inside(path: Seq<char>, dir: Seq<char>) -> bool {
    text::begins_with(path, dir + "/"@)
}

proof fn lemma_not_inside(gadget: Seq<char>, dir: Seq<char>, name: Seq<char>)
    requires
        gadget.len() > 0 && gadget.last() != '/',
        dir.len() > 0 && dir[0] != '/',
        name.len() > 0 && name[0] != '/',
        name.len() <= dir.len() || exists|k: int|
            0 <= k < dir.len() && #[trigger] dir[k] != name[k],
    ensures
        !is_inside(text::path_below(gadget, name), text::path_below(gadget, dir)),
        !is_inside(gadget, text::path_below(gadget, dir)),
{
    reveal_strlit("/");
    let (p, q) = (text::path_below(gadget, dir), text::path_below(gadget, name));
    let pat = p + "/"@;
    let n = gadget.len() as int + 1;
    assert(p.len() == n + dir.len() && q.len() == n + name.len());
    if is_inside(q, p) {
        let k = choose|k: int| 0 <= k < dir.len() && #[trigger] dir[k] != name[k];
        assert(q.subrange(0, pat.len() as int)[n + k] == pat[n + k]);
        assert(pat[n + k] == dir[k]);
        assert(q[n + k] == name[k]);
    }
}

/// The teardown removes what is inside a directory before the directory: nothing
/// that is removed later stands inside something that is removed earlier. The
/// gadget's own directory goes last.
pub proof fn law_teardown_empties_before_it_removes(
    gadget: Seq<char>,
    unload: Seq<Seq<char>>,
    i: int,
    j: int,
    earlier: Seq<char>,
    later: Seq<char>,
)
    requires
        gadget.len() > 0 && gadget.last() != '/',
        0 <= i < j < teardown_script(gadget, unload).len(),
        teardown_script(gadget, unload)[i] == StepView::TryRemoveDir(earlier),
        teardown_script(gadget, unload)[j] == StepView::TryRemoveDir(later),
    ensures
        !is_inside(later, earlier),
        later == gadget || earlier != gadget,
{
    lemma_removals(gadget, unload, 0);
    lemma_removals(gadget, unload, i);
    lemma_removals(gadget, unload, j);
    lemma_removed_tails();
    let (dir, name) = (removed_tail(i), removed_tail(j));
    if i == 17 {
        assert(j == 18);
        assert(false);
    }
    assert(dir.len() > 0);
    if j == 17 {
        lemma_not_inside(gadget, dir, dir);
    } else {
        assert(name.len() > 0);
        if name.len() > dir.len() {
            if i == 2 && j == 3 {
                assert(dir[22] != name[22]);
            } else if i == 2 && j == 9 {
                assert(dir[0] != name[0]);
            } else if i == 2 && j == 10 {
                assert(dir[0] != name[0]);
            } else if i == 2 && j == 11 {
                assert(dir[0] != name[0]);
            } else if i == 2 && j == 12 {
                assert(dir[0] != name[0]);
            } else if i == 3 && j == 9 {
                assert(dir[0] != name[0]);
            } else if i == 3 && j == 10 {
                assert(dir[0] != name[0]);
            } else if i == 3 && j == 11 {
                assert(dir[0] != name[0]);
            } else if i == 3 && j == 12 {
                assert(dir[0] != name[0]);
            } else if i == 14 && j == 15 {
                assert(dir[0] != name[0]);
            } else if i == 14 && j == 16 {
                assert(dir[0] != name[0]);
            } else if i == 15 && j == 16 {
                assert(dir[10] != name[10]);
            }
        }
        lemma_not_inside(gadget, dir, name);
    }
    assert(earlier.len() > gadget.len());
}

/// A teardown lets go of the controller first and of the function next; only
/// then are the LUNs emptied, all five that there can be, and only after that is
/// anything of the function removed. It ends in unloading the modules.
pub proof fn law_teardown_lets_go_first(
    gadget: Seq<char>,
    unload: Seq<Seq<char>>,
    i: int,
    n: nat,
)
    ensures
        ({
            let down = teardown_script(gadget, unload);
            let file = text::path_below(gadget, lun_tail(n, "file"@));
            &&& down[0] == (StepView::TryWrite {
                path: text::path_below(gadget, "UDC"@),
                content: "\n"@,
            })
            &&& down[1] == StepView::TryRemoveFile(
                text::path_below(gadget, "configs/c.1/mass_storage.0"@),
            )
            &&& n < 5 ==> leaves(down, file, "\n"@)
            &&& n < 5 && 0 <= i < down.len() && touches(down[i], file) ==> 1 < i < 13
            &&& 0 <= i < down.len() && down[i] == StepView::TryRemoveDir(
                text::path_below(gadget, "functions/mass_storage.0"@),
            ) ==> i >= 13
            &&& down.last() == StepView::Modprobe(unload)
            &&& 0 <= i < down.len() - 1 ==> !(down[i] is Modprobe)
        }),
{
    let down = teardown_script(gadget, unload);
    reveal_strlit("configs/c.1");
    reveal_strlit("mass_storage.0");
    reveal_strlit("configs/c.1/mass_storage.0");
    reveal_strlit("UDC");
    reveal_strlit("functions/mass_storage.0/lun.");
    lemma_directory_tails(gadget);
    lemma_removed_tails();
    text::lemma_below_twice(gadget, "configs/c.1"@, "mass_storage.0"@);
    assert("configs/c.1"@ + seq!['/'] + "mass_storage.0"@ =~= "configs/c.1/mass_storage.0"@);
    lemma_lun_paths(gadget, n);
    let file = text::path_below(gadget, lun_tail(n, "file"@));
    assert(lun_tail(n, "file"@)[0] == 'f');
    text::lemma_below_differs(gadget, lun_tail(n, "file"@), "UDC"@);
    lemma_removals(gadget, unload, 0);
    if 0 <= i < 19 {
        lemma_removals(gadget, unload, i);
        if removed_tail(i).len() > 0 && i < 13 {
            text::lemma_below_differs(gadget, removed_tail(i), "functions/mass_storage.0"@);
        }
    }
    assert forall|k: int| 0 <= k < 19 implies (#[trigger] down[k] is TryWrite ==> k == 0 || 4 <= k
        <= 8) && !(down[k] is Write) && (4 <= k <= 8 ==> down[k] == (StepView::TryWrite {
        path: lun_file_path(gadget, (k - 4) as nat),
        content: "\n"@,
    })) by {
        lemma_removals(gadget, unload, k);
        if 4 <= k <= 8 {
            assert(down[k] == empty_script(gadget, 5)[k - 4]);
        } else if 9 <= k <= 12 {
            assert(down[k] == drop_script(gadget, 4)[k - 9]);
        }
    }
    if n < 5 {
        let k = 4 + n as int;
        assert(writes(down[k], file, "\n"@));
        assert forall|j: int| k < j < down.len() implies !touches(#[trigger] down[j], file) by {
            if j <= 8 {
                lemma_lun_files_differ(gadget, n, (j - 4) as nat);
            }
        }
        assert(leaves(down, file, "\n"@));
        if 0 <= i < 19 && touches(down[i], file) {
            assert(down[i] is TryWrite || down[i] is Write);
        }
    }
}

/// The teardown unloads what the board loads and the network modules that older
/// versions used, by one command, and nothing else.
pub proof fn law_teardown_unloads_no_more(modules: Seq<Seq<char>>, name: Seq<char>)
    ensures
        board_unload(modules)[0] == "-r"@,
        name == "g_ether"@ || name == "usb_f_ecm"@ || name == "usb_f_rndis"@ || name
            == "libcomposite"@ ==> board_unload(modules).contains(name),
        board_unload(modules).contains(name) ==> name == "-r"@ || modules.contains(name) || name
            == "g_ether"@ || name == "usb_f_ecm"@ || name == "usb_f_rndis"@ || name
            == "libcomposite"@,
        legacy_unload() == seq![
            "-r"@,
            "usb_f_mass_storage"@,
            "g_ether"@,
            "usb_f_ecm"@,
            "usb_f_rndis"@,
            "libcomposite"@,
        ],
{
    let all = board_unload(modules);
    let own = dependents(modules);
    let rest = swept(modules, 3);
    lemma_unload_names_differ();
    lemma_dependents(modules);
    lemma_dependents_are_modules(modules);
    lemma_swept(modules, 3);
    lemma_swept_names();
    law_composite_module_unloads_last(modules);
    if name == "g_ether"@ || name == "usb_f_ecm"@ || name == "usb_f_rndis"@ {
        let k: int = if name == "g_ether"@ {
            0
        } else if name == "usb_f_ecm"@ {
            1
        } else {
            2
        };
        assert(SWEPT_MODULES@[k]@ == name);
        if modules.contains(name) {
            let i = choose|i: int| 0 <= i < modules.len() && modules[i] == name;
            assert(all.contains(modules[i]));
        } else {
            assert(rest.contains(SWEPT_MODULES@[k]@));
            let i = choose|i: int| 0 <= i < rest.len() && rest[i] == name;
            assert(all[1 + own.len() + i] == name);
        }
    }
    if name == "libcomposite"@ {
        assert(all[all.len() - 1] == name);
    }
    if all.contains(name) {
        let i = choose|i: int| 0 <= i < all.len() && all[i] == name;
        if 1 <= i < 1 + own.len() {
            assert(own[i - 1] == name);
            assert(own.contains(name));
        } else if 1 + own.len() <= i < all.len() - 1 {
            assert(rest[i - 1 - own.len()] == name);
            assert(rest.contains(name));
        }
    }
}

proof fn lemma_swept_names()
    ensures
        SWEPT_MODULES@[0]@ == "g_ether"@,
        SWEPT_MODULES@[1]@ == "usb_f_ecm"@,
        SWEPT_MODULES@[2]@ == "usb_f_rndis"@,
{
}

proof fn lemma_dependents_are_modules(modules: Seq<Seq<char>>)
    ensures
        forall|name: Seq<char>| #[trigger]
            dependents(modules).contains(name) ==> modules.contains(name),
    decreases modules.len(),
{
    if modules.len() > 0 {
        let front = modules.drop_last();
        lemma_dependents_are_modules(front);
        assert forall|name: Seq<char>| #[trigger]
            dependents(modules).contains(name) implies modules.contains(name) by {
            let all = dependents(modules);
            let i = choose|i: int| 0 <= i < all.len() && all[i] == name;
            if i < dependents(front).len() {
                assert(dependents(front)[i] == name);
                assert(dependents(front).contains(name));
                let j = choose|j: int| 0 <= j < front.len() && front[j] == name;
                assert(modules[j] == name);
            } else {
                assert(modules[modules.len() - 1] == name);
            }
        }
    }
}

proof fn lemma_swept(modules: Seq<Seq<char>>, n: nat)
    requires
        n <= 3,
    ensures
        forall|k: int|
            0 <= k < n && !modules.contains(#[trigger] SWEPT_MODULES@[k]@) ==> swept(
                modules,
                n,
            ).contains(SWEPT_MODULES@[k]@),
        forall|name: Seq<char>| #[trigger]
            swept(modules, n).contains(name) ==> exists|k: int|
                0 <= k < n && #[trigger] SWEPT_MODULES@[k]@ == name,
    decreases n,
{
    if n > 0 {
        let before = swept(modules, (n - 1) as nat);
        let all = swept(modules, n);
        lemma_swept(modules, (n - 1) as nat);
        assert forall|k: int|
            0 <= k < n && !modules.contains(#[trigger] SWEPT_MODULES@[k]@) implies all.contains(
            SWEPT_MODULES@[k]@,
        ) by {
            if k < n - 1 {
                let i = choose|i: int| 0 <= i < before.len() && before[i] == SWEPT_MODULES@[k]@;
                assert(all[i] == SWEPT_MODULES@[k]@);
            } else {
                assert(all.last() == SWEPT_MODULES@[k]@);
            }
        }
        assert forall|name: Seq<char>| #[trigger] all.contains(name) implies exists|k: int|
            0 <= k < n && #[trigger] SWEPT_MODULES@[k]@ == name by {
            let i = choose|i: int| 0 <= i < all.len() && all[i] == name;
            if i < before.len() {
                assert(before[i] == name);
                assert(before.contains(name));
                let k = choose|k: int| 0 <= k < n - 1 && #[trigger] SWEPT_MODULES@[k]@ == name;
                assert(SWEPT_MODULES@[k]@ == name);
            } else {
                assert(SWEPT_MODULES@[n - 1]@ == name);
            }
        }
    }
}

/// A gadget is kept exactly where it stands, its first LUN names a file, and
/// that file is there. Its serial number is that of the machine id, or the one
/// for an unknown machine.
pub proof fn law_facts_are_taken_as_found(facts: DeviceFacts)
    ensures
        facts.kept() <==> facts.gadget_exists && facts.lun0_backing_exists && (
        facts.lun0_file matches Some(s) && exists|i: int|
            0 <= i < s@.len() && !text::is_space(#[trigger] s@[i])),
        facts@.gadget_exists == facts.gadget_exists,
        facts@.images == facts.images@,
        facts.machine_id matches Some(raw) ==> facts@.serial == serial::machine_serial(raw@),
        facts.machine_id is None ==> facts@.serial == "SentryUSB-unknown"@,
{
    match facts.lun0_file {
        Some(s) => {
            text::law_trim_empties_blank_text(s@);
        },
        None => {},
    }
    assert(text::trim(Seq::empty()).len() == 0);
}

/// A complete gadget is only refreshed. One that stands but is incomplete is
/// taken down altogether, its directory too, before it is built; where none
/// stands, nothing is taken down. The single-function gadget goes first.
pub proof fn law_only_incomplete_gadgets_are_taken_down(
    gadget: Seq<char>,
    power: u32,
    modules: Seq<Seq<char>>,
    unload: Seq<Seq<char>>,
    settle_ms: u64,
    facts: FactsView,
)
    ensures
        ({
            let plan = enable_plan(gadget, power, modules, unload, settle_ms, facts);
            &&& plan is Rebind <==> facts.gadget_exists && facts.complete
            &&& plan matches EnableView::Build { clear, steps } ==> {
                &&& clear[0] == StepView::Modprobe(seq!["-q"@, "-r"@, "g_mass_storage"@])
                &&& clear.contains(StepView::TryRemoveDir(gadget)) <==> facts.gadget_exists
                &&& facts.gadget_exists ==> clear.last() == StepView::Modprobe(unload)
                &&& facts.gadget_exists ==> clear.skip(2) == teardown_script(gadget, unload)
                &&& !facts.gadget_exists ==> clear.len() == 1
                &&& steps == build_script(gadget, power, modules, settle_ms, facts)
            }
        }),
{
    let plan = enable_plan(gadget, power, modules, unload, settle_ms, facts);
    match plan {
        EnableView::Build { clear, steps } => {
            if facts.gadget_exists {
                let down = teardown_script(gadget, unload);
                assert(clear =~= seq![release_view(), release_view()] + down);
                assert(clear.skip(2) =~= down);
                lemma_removals(gadget, unload, 0);
                assert(clear[19] == down[17]);
                assert(down.last() == StepView::Modprobe(unload));
            }
        },
        EnableView::Rebind { .. } => {},
    }
}

/// The hardcoded path loads the two usual modules, asks for the current that the
/// model is granted and waits three seconds before the bind.
pub proof fn law_hardcoded_values(gadget: Seq<char>, model: Seq<char>, facts: FactsView)
    ensures
        match legacy_enable_plan(gadget, model, facts) {
            EnableView::Rebind { steps } => steps.last() == StepView::Sleep(3000),
            EnableView::Build { clear, steps } => {
                &&& steps[0] == StepView::Modprobe(seq!["libcomposite"@])
                &&& steps[1] == StepView::Modprobe(seq!["usb_f_mass_storage"@])
                &&& steps.last() == StepView::Sleep(3000)
                &&& leaves(
                    steps,
                    text::path_below(gadget, "configs/c.1/MaxPower"@),
                    text::decimal(serial::model_power(model) as nat),
                )
                &&& facts.gadget_exists ==> clear.last() == StepView::Modprobe(
                    seq![
                        "-r"@,
                        "usb_f_mass_storage"@,
                        "g_ether"@,
                        "usb_f_ecm"@,
                        "usb_f_rndis"@,
                        "libcomposite"@,
                    ],
                )
            },
        },
{
    let power = serial::model_power(model);
    let modules = board::default_modules();
    law_build_describes_the_gadget(gadget, power, modules, 3000, facts);
    law_build_goes_in_order(gadget, power, modules, 3000, facts, 0);
    law_build_goes_in_order(gadget, power, modules, 3000, facts, 1);
    law_only_incomplete_gadgets_are_taken_down(
        gadget,
        power,
        modules,
        legacy_unload(),
        3000,
        facts,
    );
    law_teardown_unloads_no_more(modules, ""@);
}

/// Taking a gadget down lets the single-function gadget go first. Where none
/// stands, that is all; else its directory is removed, and unloading the modules
/// comes last.
pub proof fn law_disable_takes_down_what_stands(
    gadget: Seq<char>,
    gadget_exists: bool,
    unload: Seq<Seq<char>>,
)
    ensures
        ({
            let steps = disable_script(gadget, gadget_exists, unload);
            &&& steps[0] == StepView::Modprobe(seq!["-q"@, "-r"@, "g_mass_storage"@])
            &&& !gadget_exists ==> steps.len() == 1
            &&& gadget_exists ==> steps.contains(StepView::TryRemoveDir(gadget))
            &&& gadget_exists ==> steps.last() == StepView::Modprobe(unload)
            &&& gadget_exists ==> steps.skip(1) == teardown_script(gadget, unload)
        }),
{
    let steps = disable_script(gadget, gadget_exists, unload);
    if gadget_exists {
        let down = teardown_script(gadget, unload);
        lemma_removals(gadget, unload, 0);
        assert(steps.skip(1) =~= down);
        assert(steps[18] == down[17]);
        assert(down.last() == StepView::Modprobe(unload));
    }
}

/// A size is shown as a whole number of the largest unit that goes into it,
/// rounded down, with the letter of the unit behind it.
pub proof fn law_sizes_are_rounded_down(bytes: u64)
    ensures
        ({
            let shown = shown_size(Some(bytes));
            let number = text::digits_value(shown.drop_last());
            &&& shown.len() >= 2
            &&& shown.last() == 'G' ==> 1 <= number && number * 1_073_741_824 <= bytes < (number
                + 1) * 1_073_741_824
            &&& shown.last() == 'M' ==> 1 <= number < 1024 && number * 1_048_576 <= bytes < (number
                + 1) * 1_048_576
            &&& shown.last() == 'K' ==> 1 <= number < 1024 && number * 1024 <= bytes < (number + 1)
                * 1024
            &&& shown.last() == 'B' ==> number < 1024 && number == bytes
            &&& shown.last() == 'G' || shown.last() == 'M' || shown.last() == 'K' || shown.last()
                == 'B'
            &&& text::all_digits(shown.drop_last())
            &&& shown.drop_last() == text::decimal(number)
        }),
        shown_size(None) == "?"@,
{
    let n = bytes as nat;
    let number = if n >= 1_073_741_824 {
        n / 1_073_741_824
    } else if n >= 1_048_576 {
        n / 1_048_576
    } else if n >= 1024 {
        n / 1024
    } else {
        n
    };
    text::lemma_decimal_reads_back(number);
    assert(shown_size(Some(bytes)).drop_last() =~= text::decimal(number));
}

/// A file is populated where it could be read and has a character that is no
/// white space. The gadget is active where its `UDC` attribute and the file of
/// its first LUN both are.
pub proof fn law_active_means_bound_and_backed(udc: Option<&str>, lun0_file: Option<&str>)
    ensures
        active(udc, lun0_file) <==> (udc matches Some(u) && exists|i: int|
            0 <= i < u@.len() && !text::is_space(#[trigger] u@[i])) && (lun0_file matches Some(f)
            && exists|i: int| 0 <= i < f@.len() && !text::is_space(#[trigger] f@[i])),
{
    match udc {
        Some(u) => {
            text::law_trim_empties_blank_text(u@);
        },
        None => {},
    }
    match lun0_file {
        Some(f) => {
            text::law_trim_empties_blank_text(f@);
        },
        None => {},
    }
}

/// The file that an attribute names is what stands in it between the white
/// space; a blank or unreadable attribute names none.
pub proof fn law_attributes_name_their_file(
    attribute: &str,
    before: Seq<char>,
    name: Seq<char>,
    after: Seq<char>,
)
    requires
        attribute@ == before + name + after,
        text::all_space(before),
        text::all_space(after),
        name.len() > 0 ==> !text::is_space(name[0]) && !text::is_space(name.last()),
    ensures
        named_file(Some(attribute)) == (if name.len() > 0 {
            Some(name)
        } else {
            None
        }),
        named_file(None) is None,
{
    text::law_trim_keeps_the_rest(before, name, after);
}

/// The mount point of configfs is the second field of the first line whose third
/// field says so; a line with fewer fields, or another third one, is passed
/// over.
pub proof fn law_first_configfs_line_counts(line: Seq<char>, rest: Seq<Seq<char>>)
    ensures
        ({
            let f = text::fields(line);
            let found = configfs_among(seq![line] + rest);
            &&& f.len() >= 3 && f[2] == "configfs"@ ==> found == Some(f[1])
            &&& !(f.len() >= 3 && f[2] == "configfs"@) ==> found == configfs_among(rest)
        }),
        configfs_among(Seq::empty()) is None,
{
    assert((seq![line] + rest)[0] == line);
    assert((seq![line] + rest).skip(1) =~= rest);
}

/// A line of the mount table that says where configfs is mounted is understood,
/// whatever stands behind that.
pub proof fn law_configfs_line_is_understood(
    device: Seq<char>,
    mount: Seq<char>,
    options: Seq<char>,
    rest: Seq<Seq<char>>,
)
    requires
        device.len() > 0,
        mount.len() > 0,
        forall|i: int| 0 <= i < device.len() ==> !text::is_space(#[trigger] device[i]),
        forall|i: int| 0 <= i < mount.len() ==> !text::is_space(#[trigger] mount[i]),
        options.len() > 0 ==> text::is_space(options[0]),
    ensures
        configfs_among(
            seq![device + " "@ + mount + " "@ + "configfs"@ + options] + rest,
        ) == Some(mount),
{
    reveal_strlit(" ");
    reveal_strlit("configfs");
    let kind = "configfs"@;
    let gap = " "@;
    let none = Seq::<char>::empty();
    let third = gap + kind + options;
    let second = gap + mount + third;
    let line = device + gap + mount + gap + kind + options;
    assert(line =~= none + device + second);
    text::law_fields_are_the_words(none, device, second);
    text::law_fields_are_the_words(gap, mount, third);
    assert forall|i: int| 0 <= i < kind.len() implies !text::is_space(#[trigger] kind[i]) by {}
    text::law_fields_are_the_words(gap, kind, options);
    assert(text::fields(line) =~= seq![device, mount, kind] + text::fields(options));
    law_first_configfs_line_counts(line, rest);
}

// ---------------------------------------------------------------------------
// What a bind does
// ---------------------------------------------------------------------------

/// The hardcoded path binds to the first controller that is listed, once the
/// gadget's binding is cleared, and does nothing else; with none listed it says
/// so.
pub proof fn law_hardcoded_bind_takes_the_first(gadget: Seq<char>, listed: Seq<Seq<char>>)
    ensures
        listed.len() == 0 <==> legacy_choice(gadget, listed) is NoUdc,
        listed.len() > 0 ==> (legacy_choice(gadget, listed) matches BindChoice::Plan(plan)
            && plan.udc == listed[0] && plan.before.len() == 1 && leaves(
            plan.before,
            text::path_below(gadget, "UDC"@),
            ""@,
        ) && plan.after.len() == 0),
{
    if listed.len() > 0 {
        let plan = legacy_bind(gadget, listed[0]);
        assert(writes(plan.before[0], text::path_below(gadget, "UDC"@), ""@));
    }
}

/// A board's bind goes to the controller that was chosen: its speed cap, where
/// it has one, is written to that controller before the gadget's binding is
/// cleared, and its pull-up, where it needs one, is given to that controller
/// once the gadget is bound. Nothing else is written.
pub proof fn law_board_bind_prepares_its_controller(
    knobs: board::Knobs,
    gadget: Seq<char>,
    udc: Seq<char>,
)
    ensures
        ({
            let plan = board_bind(knobs, gadget, udc);
            let cap = device_attribute(udc, "device/maximum_speed"@);
            let pull = device_attribute(udc, "device/soft_connect"@);
            let unbound = StepView::TryWrite {
                path: text::path_below(gadget, "UDC"@),
                content: ""@,
            };
            &&& plan.udc == udc
            &&& plan.before.last() == unbound
            &&& knobs.max_speed matches Some(speed) ==> plan.before.len() == 2 && plan.before[0]
                == (StepView::TryWrite { path: cap, content: speed })
            &&& knobs.max_speed is None ==> plan.before.len() == 1
            &&& knobs.soft_connect ==> plan.after.len() == 1 && plan.after[0]
                == (StepView::TryWrite { path: pull, content: "connect"@ })
            &&& !knobs.soft_connect ==> plan.after.len() == 0
        }),
{
}

/// A board binds where it chooses a controller among those that are listed. With
/// none listed it says so; where it chooses none it tells its name and what it
/// was offered. A board that picks by role is offered the controllers in the
/// order of their names, any other as they are listed.
pub proof fn law_boards_choose_among_the_listed<B: GadgetBoard>(
    board: &B,
    gadget: Seq<char>,
    listed: Seq<Seq<char>>,
)
    ensures
        ({
            let names = if board.knobs().by_role {
                order::sorted(listed)
            } else {
                listed
            };
            let choice = board_choice(board, gadget, listed);
            &&& choice is NoUdc <==> listed.len() == 0
            &&& listed.len() > 0 ==> (board.choice(names) matches Some(udc) ==> (
            choice matches BindChoice::Plan(plan) && plan.udc == udc && plan == board_bind(
                board.knobs(),
                gadget,
                udc,
            )))
            &&& listed.len() > 0 && board.choice(names) is None ==> choice
                == (BindChoice::NoneSelected { board: board.knobs().name, names })
        }),
{
}

/// What a Rockchip board binds does not depend on the order of the listing: of
/// the controllers whose name says `dwc3` it is the one whose name comes first,
/// capped to high speed and pulled up.
pub proof fn law_rockchip_binds_the_least_dwc3(
    board: board::Board,
    model: Seq<char>,
    gadget: Seq<char>,
    listed: Seq<Seq<char>>,
    name: Seq<char>,
)
    requires
        board::maps_to(model, board::UdcFamily::Dwc3, board),
        text::contains_text(text::lower(model), "rock"@) || text::contains_text(
            text::lower(model),
            "radxa"@,
        ) || text::contains_text(text::lower(model), "rk3399"@) || text::contains_text(
            text::lower(model),
            "rk3566"@,
        ) || text::contains_text(text::lower(model), "rk3568"@),
        !text::begins_with(text::lower(model), "raspberry pi"@),
        listed.contains(name),
        text::contains_text(text::lower(name), "dwc3"@),
    ensures
        board_choice(&board, gadget, listed) matches BindChoice::Plan(plan) && {
            &&& listed.contains(plan.udc)
            &&& text::contains_text(text::lower(plan.udc), "dwc3"@)
            &&& order::lex_le(plan.udc, name)
            &&& plan.before[0] == (StepView::TryWrite {
                path: device_attribute(plan.udc, "device/maximum_speed"@),
                content: "high-speed"@,
            })
            &&& plan.after == seq![
                StepView::TryWrite {
                    path: device_attribute(plan.udc, "device/soft_connect"@),
                    content: "connect"@,
                },
            ]
        },
{
    let names = order::sorted(listed);
    let word = if text::contains_text(text::lower(model), "rock"@) {
        "rock"@
    } else if text::contains_text(text::lower(model), "radxa"@) {
        "radxa"@
    } else if text::contains_text(text::lower(model), "rk3399"@) {
        "rk3399"@
    } else if text::contains_text(text::lower(model), "rk3566"@) {
        "rk3566"@
    } else {
        "rk3568"@
    };
    board::law_rockchip_models_bind_by_role(model, word, board, names);
    order::lemma_sorted_members(listed, name);
    let j = choose|j: int| 0 <= j < names.len() && names[j] == name;
    let i = lemma_first_dwc3(names, j);
    board::law_first_dwc3_is_bound(names, i);
    order::law_sorting_orders_and_keeps(listed, i, j);
    order::lemma_sorted_members(listed, names[i]);
    assert(names.contains(names[i]));
    law_boards_choose_among_the_listed(&board, gadget, listed);
    assert(listed.len() > 0);
}

proof fn lemma_first_dwc3(names: Seq<Seq<char>>, j: int) -> (i: int)
    requires
        0 <= j < names.len(),
        text::contains_text(text::lower(names[j]), "dwc3"@),
    ensures
        0 <= i <= j,
        text::contains_text(text::lower(names[i]), "dwc3"@),
        forall|k: int|
            0 <= k < i ==> !text::contains_text(text::lower(#[trigger] names[k]), "dwc3"@),
    decreases j,
{
    if exists|k: int| 0 <= k < j && text::contains_text(text::lower(#[trigger] names[k]), "dwc3"@) {
        let k = choose|k: int|
            0 <= k < j && text::contains_text(text::lower(#[trigger] names[k]), "dwc3"@);
        lemma_first_dwc3(names, k)
    } else {
        j
    }
}

/// An attempt is accepted exactly where the attribute reads as the controller's
/// name, but for white space around either, or cannot be read; a write that
/// failed is never accepted.
pub proof fn law_readback_decides(udc: Seq<char>, event: BindEventView)
    ensures
        accepted(udc, event) <==> event is Unreadable || (event matches BindEventView::ReadBack(s)
            && text::trim(s) == text::trim(udc)),
{
}

/// What follows an attempt: an accepted one ends the bind. After any other, the
/// binding is cleared, half a second passes and the next attempt is made, up to
/// the fifth; then the failure is told, with the controller and with what the
/// attribute read or why the write failed.
pub proof fn law_attempts_go_on_to_the_fifth(
    gadget: Seq<char>,
    udc: Seq<char>,
    attempt: u32,
    event: BindEventView,
    next: BindNext,
)
    requires
        follows_attempt(gadget, udc, attempt, event, next),
    ensures
        next is Bound <==> accepted(udc, event),
        next is Retry <==> !accepted(udc, event) && attempt < 5,
        next is GiveUp <==> !accepted(udc, event) && attempt >= 5,
        next matches BindNext::Retry { attempt: number, steps } ==> number == attempt + 1 && script(
            steps@,
        ).len() == 2 && script(steps@)[0] == (StepView::TryWrite {
            path: text::path_below(gadget, "UDC"@),
            content: ""@,
        }) && script(steps@)[1] == StepView::Sleep(500),
        next matches BindNext::GiveUp(err) ==> match event {
            BindEventView::ReadBack(s) => err matches GadgetError::BindRejected { udc: u, readback }
                && u@ == udc && readback@ == text::trim(s),
            BindEventView::WriteFailed(e) => err matches GadgetError::BindFailed { udc: u, cause }
                && u@ == udc && cause@ == e,
            BindEventView::Unreadable => false,
        },
{
}

// ---------------------------------------------------------------------------
// What the views say
// ---------------------------------------------------------------------------

/// A step says what it carries.
pub proof fn law_steps_say_what_they_carry(step: Step)
    ensures
        step matches Step::Modprobe(args) ==> step@ == StepView::Modprobe(text::views(args@)),
        step matches Step::CreateDir { path, label } ==> step@ == (StepView::CreateDir {
            path: path@,
            label: label@,
        }),
        step matches Step::Write { path, content } ==> step@ == (StepView::Write {
            path: path@,
            content: content@,
        }),
        step matches Step::TryWrite { path, content } ==> step@ == (StepView::TryWrite {
            path: path@,
            content: content@,
        }),
        step matches Step::TryRemoveFile(path) ==> step@ == StepView::TryRemoveFile(path@),
        step matches Step::TryRemoveDir(path) ==> step@ == StepView::TryRemoveDir(path@),
        step matches Step::Link { target, link } ==> step@ == (StepView::Link {
            target: target@,
            link: link@,
        }),
        step matches Step::Sleep(ms) ==> step@ == StepView::Sleep(ms),
{
}

/// A script has each of its steps, in order.
pub proof fn law_scripts_keep_their_steps(steps: Seq<Step>, i: int)
    ensures
        script(steps).len() == steps.len(),
        0 <= i < steps.len() ==> script(steps)[i] == steps[i]@,
{
}

/// Plans and events say what they carry.
pub proof fn law_plans_say_what_they_carry(plan: EnablePlan, bind: BindPlan, event: BindEvent)
    ensures
        plan matches EnablePlan::Rebind { steps } ==> plan@ == (EnableView::Rebind {
            steps: script(steps@),
        }),
        plan matches EnablePlan::Build { clear, steps } ==> plan@ == (EnableView::Build {
            clear: script(clear@),
            steps: script(steps@),
        }),
        bind@ == (BindView {
            udc: bind.udc@,
            before: script(bind.before@),
            after: script(bind.after@),
        }),
        event matches BindEvent::ReadBack(s) ==> event@ == BindEventView::ReadBack(s@),
        event matches BindEvent::WriteFailed(s) ==> event@ == BindEventView::WriteFailed(s@),
        event is Unreadable <==> event@ is Unreadable,
{
}

/// The result of planning a bind is what the choice says: the plan, or why there
/// is none.
pub proof fn law_bind_results_follow_the_choice(
    res: Result<BindPlan, GadgetError>,
    choice: BindChoice,
)
    requires
        binds_as(res, choice),
    ensures
        res is Ok <==> choice is Plan,
        res matches Ok(plan) ==> (choice matches BindChoice::Plan(view) && plan.udc@ == view.udc
            && script(plan.before@) == view.before && script(plan.after@) == view.after),
        res matches Err(e) ==> match choice {
            BindChoice::NoUdc => e is NoUdc,
            BindChoice::NoneSelected { board, names } => e matches GadgetError::NoUdcSelected {
                board: b,
                names: n,
            } && b@ == board && text::views(n@) == names,
            BindChoice::Plan(_) => false,
        },
{
}

/// A machine id has to be digestible only where the gadget is not kept.
pub proof fn law_kept_gadgets_need_no_serial(facts: DeviceFacts)
    ensures
        facts.kept() ==> facts.digestible(),
        !facts.kept() ==> (facts.digestible() <==> (facts.machine_id matches Some(raw)
            ==> serial::digestible(Some(raw@)))),
{
}

// ---------------------------------------------------------------------------
// What the scripts have besides
// ---------------------------------------------------------------------------

proof fn lemma_reopen_steps(gadget: Seq<char>, images: Seq<ImageFact>, n: nat, k: int)
    requires
        n <= 4,
    ensures
        n == 4 ==> reopen_script(gadget, images, n).len() == 3 * (one_if(
            images[0].present && images[0].lun_file_present,
        ) + one_if(images[1].present && images[1].lun_file_present) + one_if(
            images[2].present && images[2].lun_file_present,
        ) + one_if(images[3].present && images[3].lun_file_present)),
        0 <= k < reopen_script(gadget, images, n).len() ==> reopen_script(
            gadget,
            images,
            n,
        )[k] is TryWrite || reopen_script(gadget, images, n)[k] == StepView::Sleep(1000),
    decreases n,
{
    reveal_with_fuel(reopen_script, 5);
    if n > 0 {
        lemma_reopen_steps(gadget, images, (n - 1) as nat, k);
    }
}

/// Refreshing a complete gadget does nothing but reopen LUNs: three steps for
/// each, after the single-function gadget was let go and before the settling
/// time.
pub proof fn law_rebind_does_nothing_else(
    gadget: Seq<char>,
    power: u32,
    modules: Seq<Seq<char>>,
    unload: Seq<Seq<char>>,
    settle_ms: u64,
    facts: FactsView,
    k: int,
)
    requires
        facts.gadget_exists,
        facts.complete,
    ensures
        enable_plan(
            gadget,
            power,
            modules,
            unload,
            settle_ms,
            facts,
        ) matches EnableView::Rebind { steps } && {
            let reopened = |i: int| facts.images[i].present && facts.images[i].lun_file_present;
            &&& steps.len() == 2 + 3 * (one_if(reopened(0)) + one_if(reopened(1)) + one_if(
                reopened(2),
            ) + one_if(reopened(3)))
            &&& 0 < k < steps.len() - 1 ==> steps[k] is TryWrite || steps[k] == StepView::Sleep(
                1000,
            )
        },
{
    let middle = reopen_script(gadget, facts.images, 4);
    lemma_reopen_steps(gadget, facts.images, 4, k - 1);
    let steps = seq![release_view()] + refresh_script(gadget, settle_ms, facts.images);
    if 0 < k < steps.len() - 1 {
        assert(steps[k] == middle[k - 1]);
    }
}

/// A build does nothing else: it has a command for each module, thirteen steps
/// for the directories and descriptors, three for each image that is there, the
/// link and the settling time. A directory is named by its path where it cannot
/// be created, and a LUN's by its number as well.
pub proof fn law_build_does_nothing_else(
    gadget: Seq<char>,
    power: u32,
    modules: Seq<Seq<char>>,
    settle_ms: u64,
    facts: FactsView,
    i: int,
)
    ensures
        ({
            let build = build_script(gadget, power, modules, settle_ms, facts);
            &&& build.len() == modules.len() + 15 + 3 * (one_if(facts.images[0].present) + one_if(
                facts.images[1].present,
            ) + one_if(facts.images[2].present) + one_if(facts.images[3].present))
            &&& 0 <= i < build.len() ==> (build[i] matches StepView::CreateDir { path, label }
                ==> label == path || exists|n: nat|
                path == text::path_below(
                    gadget,
                    "functions/mass_storage.0/lun."@ + #[trigger] text::decimal(n),
                ) && label == "lun."@ + text::decimal(n) + " at "@ + path)
        }),
{
    let build = build_script(gadget, power, modules, settle_ms, facts);
    let loads = modules_script(modules);
    let described = descriptor_script(gadget, power, facts.serial);
    let luns = luns_script(gadget, facts.images, 4);
    let n = loads.len() as int;
    lemma_luns_len(gadget, facts.images, 4);
    lemma_present_counts(facts.images, 4);
    if 0 <= i < n {
        assert(build[i] == loads[i]);
    } else if n <= i < n + 13 {
        assert(build[i] == described[i - n]);
    } else if n + 13 <= i < build.len() - 2 {
        assert(build[i] == luns[i - n - 13]);
        lemma_lun_step(gadget, facts.images, 4, i - n - 13);
        let number = text::decimal(((i - n - 13) / 3) as nat);
        assert((i - n - 13) % 3 == 0 || (i - n - 13) % 3 == 1 || (i - n - 13) % 3 == 2);
    }
}

/// A file is written only once its directory was created: the strings of the
/// gadget, the configuration and its strings, and every LUN.
pub proof fn law_directories_come_before_their_files(
    gadget: Seq<char>,
    power: u32,
    modules: Seq<Seq<char>>,
    settle_ms: u64,
    facts: FactsView,
    i: int,
    dir: Seq<char>,
    name: Seq<char>,
    lun: nat,
)
    requires
        dir == "strings/0x409"@ || dir == "configs/c.1"@ || dir == "configs/c.1/strings/0x409"@,
        name.len() > 0 && name[0] != '/',
        0 <= i < build_script(gadget, power, modules, settle_ms, facts).len(),
    ensures
        ({
            let build = build_script(gadget, power, modules, settle_ms, facts);
            &&& touches(build[i], text::path_below(gadget, dir + "/"@ + name)) ==> exists|j: int|
                0 <= j < i && ((#[trigger] build[j]) matches StepView::CreateDir { path, .. }
                    && path == text::path_below(gadget, dir))
            &&& touches(build[i], text::path_below(gadget, lun_tail(lun, "file"@))) || touches(
                build[i],
                text::path_below(gadget, lun_tail(lun, "inquiry_string"@)),
            ) ==> exists|j: int|
                0 <= j < i && ((#[trigger] build[j]) matches StepView::CreateDir { path, .. }
                    && path == text::path_below(
                    gadget,
                    "functions/mass_storage.0/lun."@ + text::decimal(lun),
                ))
        }),
{
    reveal_strlit("strings/0x409");
    reveal_strlit("configs/c.1");
    reveal_strlit("configs/c.1/strings/0x409");
    reveal_strlit("functions/mass_storage.0/lun.");
    reveal_strlit("/");
    reveal_strlit("file");
    reveal_strlit("inquiry_string");
    lemma_directory_tails(gadget);
    lemma_descriptor_tails();
    lemma_descriptor_paths(gadget, power, facts.serial);
    let build = build_script(gadget, power, modules, settle_ms, facts);
    let loads = modules_script(modules);
    let described = descriptor_script(gadget, power, facts.serial);
    let luns = luns_script(gadget, facts.images, 4);
    let n = loads.len() as int;
    let tail = dir + "/"@ + name;
    assert(tail.len() >= 13 && tail[0] != '/' && tail[0] != 'f');
    assert(build[n] == described[0] && build[n + 5] == described[5] && build[n + 6]
        == described[6]);
    assert(described[0]->CreateDir_path == text::path_below(gadget, "configs/c.1"@));
    assert(described[5]->CreateDir_path == text::path_below(gadget, "strings/0x409"@));
    assert(described[6]->CreateDir_path == text::path_below(gadget, "configs/c.1/strings/0x409"@));
    let at = if dir == "configs/c.1"@ {
        n
    } else if dir == "strings/0x409"@ {
        n + 5
    } else {
        n + 6
    };
    if i < n {
        assert(build[i] == loads[i]);
    } else if i < n + 13 {
        let d = i - n;
        assert(build[i] == described[d]);
        let (own, file, says) = (
            descriptor_tail(d),
            lun_tail(lun, "file"@),
            lun_tail(lun, "inquiry_string"@),
        );
        assert(file[0] == 'f' && says[0] == 'f');
        if own.len() > 0 {
            assert(own[0] != 'f' && own[0] != '/');
            text::lemma_below_differs(gadget, own, tail);
            text::lemma_below_differs(gadget, own, file);
            text::lemma_below_differs(gadget, own, says);
            if d < 7 {
                assert(own.len() < 13);
            } else {
                assert(build[at] is CreateDir);
            }
        }
    } else if i < build.len() - 2 {
        let j = i - n - 13;
        assert(build[i] == luns[j]);
        assert(build[at] is CreateDir);
        lemma_lun_step(gadget, facts.images, 4, j);
        assert(j % 3 == 0 || j % 3 == 1 || j % 3 == 2);
        if j % 3 != 0 {
            let own = (j / 3) as nat;
            let kind = if j % 3 == 1 {
                "file"@
            } else {
                "inquiry_string"@
            };
            if own != lun {
                lemma_lun_tails_differ(gadget, own, lun, kind, "file"@);
                lemma_lun_tails_differ(gadget, own, lun, kind, "inquiry_string"@);
            } else {
                let first = j - j % 3;
                lemma_lun_step(gadget, facts.images, 4, first);
                assert(first / 3 == j / 3 && first % 3 == 0);
                assert(build[n + 13 + first] == luns[first]);
            }
        }
    }
}

/// A teardown has nineteen steps, and it removes every directory that a gadget
/// can have, in either spelling of the language, and the four LUNs that can be
/// removed by themselves.
pub proof fn law_teardown_removes_every_directory(
    gadget: Seq<char>,
    unload: Seq<Seq<char>>,
    tail: Seq<char>,
)
    requires
        tail == "configs/c.1/strings/0x409"@ || tail == "configs/c.1/strings/0x0409"@ || tail
            == "functions/mass_storage.0/lun.1"@ || tail == "functions/mass_storage.0/lun.2"@
            || tail == "functions/mass_storage.0/lun.3"@ || tail
            == "functions/mass_storage.0/lun.4"@ || tail == "functions/mass_storage.0"@ || tail
            == "configs/c.1"@ || tail == "strings/0x409"@ || tail == "strings/0x0409"@,
    ensures
        teardown_script(gadget, unload).len() == 19,
        teardown_script(gadget, unload).contains(
            StepView::TryRemoveDir(text::path_below(gadget, tail)),
        ),
{
    lemma_removed_tails();
    let i: int = if tail == "configs/c.1/strings/0x409"@ {
        2
    } else if tail == "configs/c.1/strings/0x0409"@ {
        3
    } else if tail == "functions/mass_storage.0/lun.1"@ {
        9
    } else if tail == "functions/mass_storage.0/lun.2"@ {
        10
    } else if tail == "functions/mass_storage.0/lun.3"@ {
        11
    } else if tail == "functions/mass_storage.0/lun.4"@ {
        12
    } else if tail == "functions/mass_storage.0"@ {
        13
    } else if tail == "configs/c.1"@ {
        14
    } else if tail == "strings/0x409"@ {
        15
    } else {
        16
    };
    lemma_removals(gadget, unload, i);
    assert(teardown_script(gadget, unload)[i] == StepView::TryRemoveDir(
        text::path_below(gadget, tail),
    ));
}

/// A mount table with a line for configfs is understood; where lines without one
/// come before it, they are passed over. A table that cannot be read is told
/// apart from one without configfs.
pub proof fn law_mount_table_is_understood(
    mounts: &str,
    device: Seq<char>,
    mount: Seq<char>,
    options: Seq<char>,
    rest: Seq<char>,
    res: Result<String, GadgetError>,
    unread: Result<String, GadgetError>,
)
    requires
        mounts@ == device + " "@ + mount + " "@ + "configfs"@ + options + seq!['\n'] + rest,
        device.len() > 0,
        mount.len() > 0,
        forall|i: int| 0 <= i < device.len() ==> !text::is_space(#[trigger] device[i]),
        forall|i: int| 0 <= i < mount.len() ==> !text::is_space(#[trigger] mount[i]),
        options.len() > 0 ==> text::is_space(options[0]),
        forall|i: int|
            0 <= i < options.len() ==> #[trigger] options[i] != '\n' && options[i] != '\r',
        finds_configfs(Some(mounts), res),
        finds_configfs(None, unread),
    ensures
        res matches Ok(root) && root@ == mount,
        unread matches Err(GadgetError::MountsUnreadable),
{
    reveal_strlit(" ");
    reveal_strlit("configfs");
    let line = device + " "@ + mount + " "@ + "configfs"@ + options;
    assert forall|i: int| 0 <= i < line.len() implies #[trigger] line[i] != '\n' && line[i]
        != '\r' by {
        let (d, m) = (device.len() as int, mount.len() as int);
        if i < d {
            assert(line[i] == device[i]);
        } else if d < i < d + 1 + m {
            assert(line[i] == mount[i - d - 1]);
        } else if i >= d + m + 10 {
            assert(line[i] == options[i - d - m - 10]);
        }
    }
    text::law_lines_end_in_line_feeds(line, rest);
    law_configfs_line_is_understood(device, mount, options, text::lines(rest));
}

/// Where no line of the mount table has configfs as its third field, none is
/// found.
pub proof fn law_missing_configfs_is_told(mounts: &str, res: Result<String, GadgetError>)
    requires
        finds_configfs(Some(mounts), res),
    ensures
        res is Ok <==> exists|i: int|
            {
                let f = text::fields(#[trigger] text::lines(mounts@)[i]);
                0 <= i < text::lines(mounts@).len() && f.len() >= 3 && f[2] == "configfs"@
            },
        res is Err ==> (res matches Err(GadgetError::ConfigfsNotMounted)),
{
    lemma_configfs_among(text::lines(mounts@));
}

proof fn lemma_configfs_among(lines: Seq<Seq<char>>)
    ensures
        configfs_among(lines) is Some <==> exists|i: int|
            {
                let f = text::fields(#[trigger] lines[i]);
                0 <= i < lines.len() && f.len() >= 3 && f[2] == "configfs"@
            },
    decreases lines.len(),
{
    if lines.len() > 0 {
        let rest = lines.skip(1);
        lemma_configfs_among(rest);
        let f = text::fields(lines[0]);
        if f.len() >= 3 && f[2] == "configfs"@ {
        } else {
            if configfs_among(rest) is Some {
                let i = choose|i: int|
                    {
                        let f = text::fields(#[trigger] rest[i]);
                        0 <= i < rest.len() && f.len() >= 3 && f[2] == "configfs"@
                    };
                assert(lines[i + 1] == rest[i]);
            }
            if exists|i: int|
                {
                    let f = text::fields(#[trigger] lines[i]);
                    0 <= i < lines.len() && f.len() >= 3 && f[2] == "configfs"@
                } {
                let i = choose|i: int|
                    {
                        let f = text::fields(#[trigger] lines[i]);
                        0 <= i < lines.len() && f.len() >= 3 && f[2] == "configfs"@
                    };
                assert(rest[i - 1] == lines[i]);
            }
        }
    }
}

/// The experimental flag does not change how the gadget is brought up or taken
/// down, but for the model that the current goes by: with the flag on it is the
/// model that detection finds.
pub proof fn law_flag_changes_only_the_model<R: Fn(&str) -> Option<String>>(
    experimental: bool,
    entries: Seq<Seq<char>>,
    read: R,
    gadget: Seq<char>,
    model: Seq<char>,
    facts: FactsView,
    plan: EnableView,
    gadget_exists: bool,
    steps: Seq<StepView>,
)
    requires
        enables(experimental, entries, read, gadget, model, facts, plan),
        disables(experimental, entries, read, gadget, gadget_exists, steps),
    ensures
        !experimental ==> plan == legacy_enable_plan(gadget, model, facts),
        experimental ==> exists|id: board::BoardId| #[trigger]
            board::detected(read, entries, id) && plan == legacy_enable_plan(
                gadget,
                id.model@,
                facts,
            ),
        steps == disable_script(gadget, gadget_exists, legacy_unload()),
{
    if experimental {
        let b = choose|b: board::Board| #[trigger]
            board::selected(read, entries, b) && plan == board_enable_plan(
                b.knobs(),
                gadget,
                facts,
            );
        let id = choose|id: board::BoardId| #[trigger]
            board::detected(read, entries, id) && board::maps_to(id.model@, id.udc_family, b);
        law_board_enable_is_the_hardcoded_one(b, id.model@, id.udc_family, gadget, facts);
        assert(board::detected(read, entries, id));
        let c = choose|c: board::Board| #[trigger]
            board::selected(read, entries, c) && steps == disable_script(
                gadget,
                gadget_exists,
                board_unload(c.knobs().modules),
            );
        let other = choose|id: board::BoardId| #[trigger]
            board::detected(read, entries, id) && board::maps_to(id.model@, id.udc_family, c);
        law_board_disable_is_the_hardcoded_one(
            c,
            other.model@,
            other.udc_family,
            gadget,
            gadget_exists,
        );
    }
}

/// With the flag off the first listed controller is bound. With it on, so it is
/// on every board that picks none by role; only a board for which detection
/// finds a `dwc3` controller picks by role.
pub proof fn law_flag_binds_by_role_only_on_dwc3<R: Fn(&str) -> Option<String>>(
    experimental: bool,
    entries: Seq<Seq<char>>,
    read: R,
    gadget: Seq<char>,
    listed: Seq<Seq<char>>,
    res: Result<BindPlan, GadgetError>,
)
    requires
        binds(experimental, entries, read, gadget, listed, res),
        experimental ==> forall|id: board::BoardId| #[trigger]
            board::detected(read, entries, id) ==> !(id.udc_family is Dwc3),
    ensures
        listed.len() == 0 <==> res is Err,
        res matches Err(e) ==> e is NoUdc,
        res matches Ok(plan) ==> plan.udc@ == listed[0] && plan.after@.len() == 0,
{
    if experimental {
        let b = choose|b: board::Board| #[trigger]
            board::selected(read, entries, b) && binds_as(res, board_choice(&b, gadget, listed));
        let id = choose|id: board::BoardId| #[trigger]
            board::detected(read, entries, id) && board::maps_to(id.model@, id.udc_family, b);
        law_first_wins_bind_is_the_hardcoded_one(b, id.model@, id.udc_family, gadget, listed);
    }
    match res {
        Ok(plan) => {
            assert(script(plan.after@).len() == 0);
        },
        Err(_) => {},
    }
}

/// The names in a listing are its entries, in order; a listing that cannot be
/// read has none.
pub proof fn law_listed_names_are_the_entries(entries: &Vec<String>)
    ensures
        listed_names(Some(entries)) == text::views(entries@),
        listed_names(None).len() == 0,
{
}

} // verus!
