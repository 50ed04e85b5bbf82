//! Checks before the device is set up.
//!
//! They come in three phases, since some of what they look at is only there
//! once an earlier phase of the setup is done: the hardware and configuration
//! before anything is touched, the USB controller after the overlay is loaded,
//! and the disk space after the root partition has been shrunk.

use vstd::prelude::*;
use vstd::string::*;

use crate::board;
use crate::text;

verus! {

/// Minimum usable space on the SD card after the root partition has been
/// shrunk, 8 GiB.
pub const MIN_SD_SPACE_BYTES: u64 = 8_589_934_592;

/// Minimum size of an external USB drive, 59 GiB.
pub const MIN_USB_SIZE_BYTES: u64 = 63_350_767_616;

/// What a setup step says when it fails.
#[derive(Debug, Clone, PartialEq, Eq)]
pub enum SetupError {
    /// The configuration is wrong: a retry fails in the same way, so the setup
    /// halts and shows the message.
    Config(String),
    /// Anything else; the setup retries by itself.
    Transient(String),
}

impl SetupError {
    /// What the error says.
    pub open spec fn text(&self) -> Seq<char> {
        match self {
            SetupError::Config(s) => s@,
            SetupError::Transient(s) => s@,
        }
    }

    /// What the error says.
    pub fn message(&self) -> (res: &str)
        ensures
            res@ == self.text(),
    {
        match self {
            SetupError::Config(s) => s.as_str(),
            SetupError::Transient(s) => s.as_str(),
        }
    }
}

/// The error is transient and says `message`.
pub open spec fn is_transient(err: SetupError, message: Seq<char>) -> bool {
    err matches SetupError::Transient(s) && s@ == message
}

/// The Raspberry Pi model that the setup runs on.
#[derive(Debug, Clone, Copy, PartialEq, Eq, Structural)]
pub enum PiModel {
    Pi5,
    Pi4,
    Pi3,
    PiZero2,
    PiZeroW,
    Pi2,
    /// No Raspberry Pi, or one that is not known.
    Other,
}

/// What the setup knows about the device.
#[derive(Debug, Clone, PartialEq, Eq)]
pub struct SetupEnv {
    pub pi_model: PiModel,
    pub boot_path: String,
    pub cmdline_path: Option<String>,
    pub piconfig_path: Option<String>,
    pub boot_disk: Option<String>,
    pub root_partition: Option<String>,
    pub data_drive: Option<String>,
    /// The configured keys and their values.
    pub config: Vec<(String, String)>,
}

// ---------------------------------------------------------------------------
// Hardware and configuration
// ---------------------------------------------------------------------------

/// What a Pi Zero W is told.
pub const ZERO_W_UNSUPPORTED: &'static str = "STOP: unsupported hardware: Raspberry Pi Zero W. SentryUSB requires Pi Zero 2 W or newer (Pi 3, Pi 4, Pi 5).";

/// What a Pi 2 is told.
pub const PI_2_UNSUPPORTED: &'static str = "STOP: unsupported hardware: Raspberry Pi 2. (only Pi Zero 2 W, Pi 3, Pi 4, and Pi 5 have the necessary hardware to run SentryUSB)";

/// What a configuration without `CAM_SIZE` is told.
pub const CAM_SIZE_MISSING: &'static str = "STOP: Define the variable CAM_SIZE in sentryusb.conf like this: export CAM_SIZE=32";

/// The objection to a model, if there is one.
pub open spec fn hardware_objection(model: PiModel) -> Option<Seq<char>> {
    match model {
        PiModel::PiZeroW => Some(ZERO_W_UNSUPPORTED@),
        PiModel::Pi2 => Some(PI_2_UNSUPPORTED@),
        _ => None,
    }
}

/// Check that the hardware can run the device. Boards other than a Raspberry Pi
/// pass: they have setup paths of their own.
pub fn check_supported_hardware(env: &SetupEnv) -> (res: Result<(), SetupError>)
    ensures
        objects(res, hardware_objection(env.pi_model)),
{
    match env.pi_model {
        PiModel::PiZeroW => Err(SetupError::Transient(ZERO_W_UNSUPPORTED.to_owned())),
        PiModel::Pi2 => Err(SetupError::Transient(PI_2_UNSUPPORTED.to_owned())),
        _ => Ok(()),
    }
}

/// The configuration sets `key`.
pub open spec fn has_key(config: Seq<(String, String)>, key: Seq<char>) -> bool {
    exists|i: int| 0 <= i < config.len() && (#[trigger] config[i]).0@ == key
}

/// What comes of checking the configuration.
pub open spec fn config_verdict(config: Seq<(String, String)>, res: Result<(), SetupError>) -> bool {
    if has_key(config, "CAM_SIZE"@) {
        res is Ok
    } else {
        res matches Err(SetupError::Config(s)) && s@ == CAM_SIZE_MISSING@
    }
}

/// Check that the configuration sets what it must. An empty or zero `CAM_SIZE`
/// passes; a missing one is an error of the configuration.
pub fn check_required_config(env: &SetupEnv) -> (res: Result<(), SetupError>)
    ensures
        config_verdict(env.config@, res),
{
    let mut i: usize = 0;
    while i < env.config.len()
        invariant
            i <= env.config.len(),
            forall|j: int| 0 <= j < i ==> (#[trigger] env.config@[j]).0@ != "CAM_SIZE"@,
        decreases env.config.len() - i,
    {
        if text::same_text(&env.config[i].0, "CAM_SIZE") {
            return Ok(());
        }
        i += 1;
    }
    Err(SetupError::Config(CAM_SIZE_MISSING.to_owned()))
}

/// What came of the checks that run before anything is touched.
#[derive(Debug, PartialEq, Eq)]
pub struct EarlyVerdict {
    /// A backing file system is to be probed for, before the outcome is told.
    pub probes: bool,
    /// How the checks end. The probe has no say in it: it always finds one.
    pub outcome: Result<(), SetupError>,
}

/// What comes of the checks that run before anything is touched.
pub open spec fn early_outcome(
    model: PiModel,
    config: Seq<(String, String)>,
    verdict: EarlyVerdict,
) -> bool {
    &&& verdict.probes == (hardware_objection(model) is None)
    &&& match hardware_objection(model) {
        Some(message) => verdict.outcome matches Err(e) && is_transient(e, message),
        None => config_verdict(config, verdict.outcome),
    }
}

/// The checks that run before anything is touched: the hardware, and then the
/// configuration. The probe for a backing file system comes between the two, so
/// an objection to the hardware is told without it.
pub fn early_verify(env: &SetupEnv) -> (res: EarlyVerdict)
    ensures
        early_outcome(env.pi_model, env.config@, res),
{
    match check_supported_hardware(env) {
        Ok(_) => EarlyVerdict { probes: true, outcome: check_required_config(env) },
        Err(e) => EarlyVerdict { probes: false, outcome: Err(e) },
    }
}

/// What a device without a controller is told.
pub open spec fn no_udc_message(model: Seq<char>) -> Seq<char> {
    "STOP: this device ("@ + text::trim(text::without(model, '\0'))
        + ") does not have a UDC driver. Check that dtoverlay=dwc2 is in the correct section of config.txt for your Pi model"@
}

/// How many of the entries are links.
pub open spec fn links_among(kinds: Seq<bool>) -> nat
    decreases kinds.len(),
{
    if kinds.len() == 0 {
        0
    } else {
        links_among(kinds.drop_last()) + (if kinds.last() {
            1nat
        } else {
            0nat
        })
    }
}

/// Count the links among the entries of a directory; each entry says whether it
/// is one.
pub fn count_links(kinds: &Vec<bool>) -> (res: usize)
    ensures
        res == links_among(kinds@),
{
    let mut n: usize = 0;
    let mut i: usize = 0;
    while i < kinds.len()
        invariant
            n <= i <= kinds.len(),
            n == links_among(kinds@.take(i as int)),
        decreases kinds.len() - i,
    {
        assert(kinds@.take(i + 1).drop_last() =~= kinds@.take(i as int));
        if kinds[i] {
            n += 1;
        }
        i += 1;
    }
    assert(kinds@.take(i as int) =~= kinds@);
    n
}

/// The objection to a device whose `/sys/class/udc` lists these entries, if
/// there is one: only links stand for controllers, and an unreadable directory
/// has none.
pub open spec fn udc_objection(kinds: Option<Seq<bool>>, model: Option<&str>) -> Option<Seq<char>> {
    let links = match kinds {
        Some(k) => links_among(k),
        None => 0,
    };
    if links == 0 {
        Some(
            no_udc_message(
                match model {
                    Some(m) => m@,
                    None => Seq::empty(),
                },
            ),
        )
    } else {
        None
    }
}

/// The flags of a directory's entries.
pub open spec fn kinds_view(kinds: Option<&Vec<bool>>) -> Option<Seq<bool>> {
    match kinds {
        Some(k) => Some(k@),
        None => None,
    }
}

/// Check that there is a controller. `kinds` says of each entry of
/// `/sys/class/udc` whether it is a link, and `model` is the text of the model
/// file.
pub fn verify_udc(kinds: Option<&Vec<bool>>, model: Option<&str>) -> (res: Result<(), SetupError>)
    ensures
        objects(res, udc_objection(kinds_view(kinds), model)),
{
    check_udc(kinds, model)
}

fn check_udc(kinds: Option<&Vec<bool>>, model: Option<&str>) -> (res: Result<(), SetupError>)
    ensures
        objects(res, udc_objection(kinds_view(kinds), model)),
{
    let links: usize = match kinds {
        Some(k) => count_links(k),
        None => 0,
    };
    if links == 0 {
        let raw = match model {
            Some(m) => m.to_owned(),
            None => String::new(),
        };
        let name = text::trimmed(&text::remove_char(&raw, '\0'));
        let message = text::cat(
            &text::cat("STOP: this device (", &name),
            ") does not have a UDC driver. Check that dtoverlay=dwc2 is in the correct section of config.txt for your Pi model",
        );
        return Err(SetupError::Transient(message));
    }
    Ok(())
}

// ---------------------------------------------------------------------------
// The backing file system
// ---------------------------------------------------------------------------

/// File system of the backing-files partition.
#[derive(Debug, Clone, Copy, PartialEq, Eq, Structural)]
pub enum BackingFs {
    /// XFS with reflink: copy-on-write snapshots.
    XfsReflink,
    /// Btrfs: copy-on-write as well, for kernels without XFS.
    Btrfs,
    /// XFS without its newer features; snapshots are full copies.
    XfsPlain,
    /// ext4, which every kernel mounts; snapshots are full copies.
    Ext4,
}

impl BackingFs {
    /// Snapshots are cheap.
    pub open spec fn cow(self) -> bool {
        self is XfsReflink || self is Btrfs
    }

    /// The type as `blkid` and `fstab` spell it.
    pub open spec fn kind_name(self) -> Seq<char> {
        match self {
            BackingFs::Ext4 => "ext4"@,
            BackingFs::Btrfs => "btrfs"@,
            _ => "xfs"@,
        }
    }

    /// The type as `blkid` and `fstab` spell it.
    pub fn fstype(self) -> (res: &'static str)
        ensures
            res@ == self.kind_name(),
    {
        match self {
            BackingFs::Ext4 => "ext4",
            BackingFs::Btrfs => "btrfs",
            _ => "xfs",
        }
    }

    /// The program that formats it.
    pub open spec fn formatter(self) -> Seq<char> {
        match self {
            BackingFs::Ext4 => "mkfs.ext4"@,
            BackingFs::Btrfs => "mkfs.btrfs"@,
            _ => "mkfs.xfs"@,
        }
    }

    /// The program that formats it.
    pub fn mkfs_bin(self) -> (res: &'static str)
        ensures
            res@ == self.formatter(),
    {
        match self {
            BackingFs::Ext4 => "mkfs.ext4",
            BackingFs::Btrfs => "mkfs.btrfs",
            _ => "mkfs.xfs",
        }
    }

    /// Whether snapshots are cheap.
    pub fn is_cow(self) -> (res: bool)
        ensures
            res == self.cow(),
    {
        match self {
            BackingFs::XfsReflink => true,
            BackingFs::Btrfs => true,
            _ => false,
        }
    }

    /// The arguments that format `dev` with the `backingfiles` label.
    pub open spec fn format_args(self, dev: Seq<char>) -> Seq<Seq<char>> {
        match self {
            BackingFs::XfsReflink => seq![
                "-f"@,
                "-K"@,
                "-m"@,
                "reflink=1"@,
                "-L"@,
                "backingfiles"@,
                dev,
            ],
            BackingFs::XfsPlain => seq![
                "-f"@,
                "-K"@,
                "-m"@,
                "reflink=0,bigtime=0,inobtcount=0"@,
                "-L"@,
                "backingfiles"@,
                dev,
            ],
            BackingFs::Btrfs => seq!["-f"@, "-L"@, "backingfiles"@, dev],
            BackingFs::Ext4 => seq!["-F"@, "-L"@, "backingfiles"@, dev],
        }
    }

    /// The arguments that format `dev`, a block device or a file, with the
    /// `backingfiles` label, over whatever is there.
    pub fn mkfs_args(self, dev: &str) -> (res: Vec<String>)
        ensures
            text::views(res@) == self.format_args(dev@),
    {
        let mut v: Vec<String> = Vec::new();
        match self {
            BackingFs::XfsReflink => {
                v.push("-f".to_owned());
                v.push("-K".to_owned());
                v.push("-m".to_owned());
                v.push("reflink=1".to_owned());
            },
            BackingFs::XfsPlain => {
                v.push("-f".to_owned());
                v.push("-K".to_owned());
                v.push("-m".to_owned());
                v.push("reflink=0,bigtime=0,inobtcount=0".to_owned());
            },
            BackingFs::Btrfs => {
                v.push("-f".to_owned());
            },
            BackingFs::Ext4 => {
                v.push("-F".to_owned());
            },
        }
        v.push("-L".to_owned());
        v.push("backingfiles".to_owned());
        v.push(dev.to_owned());
        assert(text::views(v@) =~= self.format_args(dev@));
        v
    }

    /// The choice in words.
    pub open spec fn words(self) -> Seq<char> {
        match self {
            BackingFs::XfsReflink => "XFS with reflink (copy-on-write snapshots)"@,
            BackingFs::Btrfs => "Btrfs (copy-on-write snapshots — no XFS in this kernel)"@,
            BackingFs::XfsPlain => "XFS without reflink (full-copy snapshots)"@,
            BackingFs::Ext4 => "ext4 (full-copy snapshots — no XFS/Btrfs in this kernel)"@,
        }
    }

    /// The choice in words.
    pub fn human(self) -> (res: &'static str)
        ensures
            res@ == self.words(),
    {
        match self {
            BackingFs::XfsReflink => "XFS with reflink (copy-on-write snapshots)",
            BackingFs::Btrfs => "Btrfs (copy-on-write snapshots — no XFS in this kernel)",
            BackingFs::XfsPlain => "XFS without reflink (full-copy snapshots)",
            BackingFs::Ext4 => "ext4 (full-copy snapshots — no XFS/Btrfs in this kernel)",
        }
    }
}

/// Where the probe for a backing file system stands.
#[derive(Debug, Clone, Copy, PartialEq, Eq, Structural)]
pub enum ProbeState {
    FindXfs,
    InstallXfs,
    RecheckXfs,
    FindBtrfs { xfs: bool },
    InstallBtrfs { xfs: bool },
    RecheckBtrfs { xfs: bool },
    Scratch { xfs: bool, btrfs: bool },
    /// Formatting and mounting the scratch image. `xfs` and `btrfs` say which
    /// tools there are.
    Try { fs: BackingFs, xfs: bool, btrfs: bool },
    Done(BackingFs),
}

/// What the caller does next. It reports back whether that worked.
#[derive(Debug, Clone, Copy, PartialEq, Eq)]
pub enum ProbeAction {
    /// Look for a program on the path.
    Which(&'static str),
    /// Show the message and install a package.
    Install { package: &'static str, message: &'static str },
    /// Create the sparse scratch image.
    MakeScratch,
    /// Format the scratch image with [`BackingFs::mkfs_bin`] and
    /// [`probe_args`], and mount it. A kernel can lack the driver for what its
    /// tools can format, so both have to work.
    Mount(BackingFs),
    /// Nothing; this is the choice.
    Finish(BackingFs),
}

/// What a [`ProbeAction`] says.
pub enum ProbeActionView {
    Which(Seq<char>),
    Install { package: Seq<char>, message: Seq<char> },
    MakeScratch,
    Mount(BackingFs),
    Finish(BackingFs),
}

impl View for ProbeAction {
    type V = ProbeActionView;

    open spec fn view(&self) -> ProbeActionView {
        match self {
            ProbeAction::Which(bin) => ProbeActionView::Which(bin@),
            ProbeAction::Install { package, message } => ProbeActionView::Install {
                package: package@,
                message: message@,
            },
            ProbeAction::MakeScratch => ProbeActionView::MakeScratch,
            ProbeAction::Mount(fs) => ProbeActionView::Mount(*fs),
            ProbeAction::Finish(fs) => ProbeActionView::Finish(*fs),
        }
    }
}

/// The start of a probe.
pub fn probe_backing_fs() -> (res: ProbeState)
    ensures
        res == ProbeState::FindXfs,
{
    ProbeState::FindXfs
}

impl ProbeState {
    /// What the caller does in this state.
    pub open spec fn asks(self) -> ProbeActionView {
        match self {
            ProbeState::FindXfs => ProbeActionView::Which("mkfs.xfs"@),
            ProbeState::InstallXfs => ProbeActionView::Install {
                package: "xfsprogs"@,
                message: "Installing xfsprogs (this can take 30-60 seconds)..."@,
            },
            ProbeState::RecheckXfs => ProbeActionView::Which("mkfs.xfs"@),
            ProbeState::FindBtrfs { .. } => ProbeActionView::Which("mkfs.btrfs"@),
            ProbeState::InstallBtrfs { .. } => ProbeActionView::Install {
                package: "btrfs-progs"@,
                message: "Installing btrfs-progs..."@,
            },
            ProbeState::RecheckBtrfs { .. } => ProbeActionView::Which("mkfs.btrfs"@),
            ProbeState::Scratch { .. } => ProbeActionView::MakeScratch,
            ProbeState::Try { fs, .. } => ProbeActionView::Mount(fs),
            ProbeState::Done(fs) => ProbeActionView::Finish(fs),
        }
    }

    /// What the caller does in this state.
    pub fn action(&self) -> (res: ProbeAction)
        ensures
            res@ == self.asks(),
    {
        match *self {
            ProbeState::FindXfs => ProbeAction::Which("mkfs.xfs"),
            ProbeState::InstallXfs => ProbeAction::Install {
                package: "xfsprogs",
                message: "Installing xfsprogs (this can take 30-60 seconds)...",
            },
            ProbeState::RecheckXfs => ProbeAction::Which("mkfs.xfs"),
            ProbeState::FindBtrfs { .. } => ProbeAction::Which("mkfs.btrfs"),
            ProbeState::InstallBtrfs { .. } => ProbeAction::Install {
                package: "btrfs-progs",
                message: "Installing btrfs-progs...",
            },
            ProbeState::RecheckBtrfs { .. } => ProbeAction::Which("mkfs.btrfs"),
            ProbeState::Scratch { .. } => ProbeAction::MakeScratch,
            ProbeState::Try { fs, .. } => ProbeAction::Mount(fs),
            ProbeState::Done(fs) => ProbeAction::Finish(fs),
        }
    }

    /// The first candidate, from `fs` on, whose tools there are: XFS with
    /// reflink, plain XFS, Btrfs for kernels without XFS, and ext4.
    pub open spec fn candidate(fs: BackingFs, xfs: bool, btrfs: bool) -> ProbeState {
        if fs == BackingFs::XfsReflink && xfs {
            ProbeState::Try { fs: BackingFs::XfsReflink, xfs, btrfs }
        } else if fs == BackingFs::XfsPlain && xfs {
            ProbeState::Try { fs: BackingFs::XfsPlain, xfs, btrfs }
        } else if fs != BackingFs::Ext4 && btrfs {
            ProbeState::Try { fs: BackingFs::Btrfs, xfs, btrfs }
        } else {
            ProbeState::Done(BackingFs::Ext4)
        }
    }

    fn from_candidate(fs: BackingFs, xfs: bool, btrfs: bool) -> (res: ProbeState)
        ensures
            res == ProbeState::candidate(fs, xfs, btrfs),
    {
        if fs == BackingFs::XfsReflink && xfs {
            ProbeState::Try { fs: BackingFs::XfsReflink, xfs, btrfs }
        } else if fs == BackingFs::XfsPlain && xfs {
            ProbeState::Try { fs: BackingFs::XfsPlain, xfs, btrfs }
        } else if fs != BackingFs::Ext4 && btrfs {
            ProbeState::Try { fs: BackingFs::Btrfs, xfs, btrfs }
        } else {
            ProbeState::Done(BackingFs::Ext4)
        }
    }

    /// The state after the caller has reported back. An installation may fail:
    /// what counts is whether the program is there afterwards. Without a
    /// scratch image nothing can be tried, and ext4 it is.
    pub open spec fn after(self, ok: bool) -> ProbeState {
        match self {
            ProbeState::FindXfs => if ok {
                ProbeState::RecheckXfs
            } else {
                ProbeState::InstallXfs
            },
            ProbeState::InstallXfs => ProbeState::RecheckXfs,
            ProbeState::RecheckXfs => ProbeState::FindBtrfs { xfs: ok },
            ProbeState::FindBtrfs { xfs } => if ok {
                ProbeState::RecheckBtrfs { xfs }
            } else {
                ProbeState::InstallBtrfs { xfs }
            },
            ProbeState::InstallBtrfs { xfs } => ProbeState::RecheckBtrfs { xfs },
            ProbeState::RecheckBtrfs { xfs } => ProbeState::Scratch { xfs, btrfs: ok },
            ProbeState::Scratch { xfs, btrfs } => if ok {
                ProbeState::candidate(BackingFs::XfsReflink, xfs, btrfs)
            } else {
                ProbeState::Done(BackingFs::Ext4)
            },
            ProbeState::Try { fs, xfs, btrfs } => if ok {
                ProbeState::Done(fs)
            } else {
                ProbeState::candidate(
                    match fs {
                        BackingFs::XfsReflink => BackingFs::XfsPlain,
                        BackingFs::XfsPlain => BackingFs::Btrfs,
                        _ => BackingFs::Ext4,
                    },
                    xfs,
                    btrfs,
                )
            },
            ProbeState::Done(fs) => ProbeState::Done(fs),
        }
    }

    /// The state after the caller has reported back.
    pub fn next(&self, ok: bool) -> (res: ProbeState)
        ensures
            res == self.after(ok),
    {
        match *self {
            ProbeState::FindXfs => if ok {
                ProbeState::RecheckXfs
            } else {
                ProbeState::InstallXfs
            },
            ProbeState::InstallXfs => ProbeState::RecheckXfs,
            ProbeState::RecheckXfs => ProbeState::FindBtrfs { xfs: ok },
            ProbeState::FindBtrfs { xfs } => if ok {
                ProbeState::RecheckBtrfs { xfs }
            } else {
                ProbeState::InstallBtrfs { xfs }
            },
            ProbeState::InstallBtrfs { xfs } => ProbeState::RecheckBtrfs { xfs },
            ProbeState::RecheckBtrfs { xfs } => ProbeState::Scratch { xfs, btrfs: ok },
            ProbeState::Scratch { xfs, btrfs } => if ok {
                ProbeState::from_candidate(BackingFs::XfsReflink, xfs, btrfs)
            } else {
                ProbeState::Done(BackingFs::Ext4)
            },
            ProbeState::Try { fs, xfs, btrfs } => {
                if ok {
                    return ProbeState::Done(fs);
                }
                let following = match fs {
                    BackingFs::XfsReflink => BackingFs::XfsPlain,
                    BackingFs::XfsPlain => BackingFs::Btrfs,
                    _ => BackingFs::Ext4,
                };
                ProbeState::from_candidate(following, xfs, btrfs)
            },
            ProbeState::Done(fs) => ProbeState::Done(fs),
        }
    }
}

/// The arguments that format the scratch image `img` as a candidate.
pub open spec fn trial_args(fs: BackingFs, img: Seq<char>) -> Seq<Seq<char>> {
    match fs {
        BackingFs::XfsReflink => seq!["-q"@, "-f"@, "-m"@, "reflink=1"@, img],
        BackingFs::XfsPlain => seq![
            "-q"@,
            "-f"@,
            "-m"@,
            "reflink=0,bigtime=0,inobtcount=0"@,
            img,
        ],
        _ => seq!["-q"@, "-f"@, img],
    }
}

/// The arguments that format the scratch image `img` as a candidate.
pub fn probe_args(fs: BackingFs, img: &str) -> (res: Vec<String>)
    ensures
        text::views(res@) == trial_args(fs, img@),
{
    let mut v: Vec<String> = Vec::new();
    v.push("-q".to_owned());
    v.push("-f".to_owned());
    match fs {
        BackingFs::XfsReflink => {
            v.push("-m".to_owned());
            v.push("reflink=1".to_owned());
        },
        BackingFs::XfsPlain => {
            v.push("-m".to_owned());
            v.push("reflink=0,bigtime=0,inobtcount=0".to_owned());
        },
        _ => {},
    }
    v.push(img.to_owned());
    assert(text::views(v@) =~= trial_args(fs, img@));
    v
}

/// What is shown once the choice is made.
pub open spec fn choice_message(fs: BackingFs) -> Seq<char> {
    "Backing filesystem: "@ + fs.words()
}

/// What is shown once the choice is made.
pub fn chosen_message(fs: BackingFs) -> (res: String)
    ensures
        res@ == choice_message(fs),
{
    text::cat("Backing filesystem: ", fs.human())
}

/// Where a probe that starts in `state` stands after `steps` reports, each of
/// them as `world` has it for the state it was made in.
pub open spec fn probed(
    world: spec_fn(ProbeState) -> bool,
    state: ProbeState,
    steps: nat,
) -> ProbeState
    decreases steps,
{
    if steps == 0 {
        state
    } else {
        probed(world, state.after(world(state)), (steps - 1) as nat)
    }
}

/// The best file system in the order of preference: XFS with reflink, then plain
/// XFS, then Btrfs for kernels without XFS, then ext4. `mounts` says which
/// candidates the kernel mounts.
pub open spec fn best_fs(
    xfs: bool,
    btrfs: bool,
    scratch: bool,
    mounts: spec_fn(BackingFs) -> bool,
) -> BackingFs {
    if !scratch {
        BackingFs::Ext4
    } else if xfs && mounts(BackingFs::XfsReflink) {
        BackingFs::XfsReflink
    } else if xfs && mounts(BackingFs::XfsPlain) {
        BackingFs::XfsPlain
    } else if btrfs && mounts(BackingFs::Btrfs) {
        BackingFs::Btrfs
    } else {
        BackingFs::Ext4
    }
}

proof fn lemma_probe_done(world: spec_fn(ProbeState) -> bool, fs: BackingFs, steps: nat)
    ensures
        probed(world, ProbeState::Done(fs), steps) == ProbeState::Done(fs),
    decreases steps,
{
    if steps > 0 {
        lemma_probe_done(world, fs, (steps - 1) as nat);
    }
}

proof fn lemma_probe_btrfs(
    world: spec_fn(ProbeState) -> bool,
    xfs: bool,
    btrfs: bool,
    mounts: spec_fn(BackingFs) -> bool,
    steps: nat,
)
    requires
        steps >= 1,
        forall|fs: BackingFs| #[trigger]
            mounts(fs) == world(ProbeState::Try { fs, xfs, btrfs }),
    ensures
        probed(world, ProbeState::candidate(BackingFs::Btrfs, xfs, btrfs), steps)
            == ProbeState::Done(
            if btrfs && mounts(BackingFs::Btrfs) {
                BackingFs::Btrfs
            } else {
                BackingFs::Ext4
            },
        ),
{
    lemma_probe_done(world, BackingFs::Btrfs, (steps - 1) as nat);
    lemma_probe_done(world, BackingFs::Ext4, (steps - 1) as nat);
    lemma_probe_done(world, BackingFs::Ext4, steps);
}

proof fn lemma_probe_plain(
    world: spec_fn(ProbeState) -> bool,
    xfs: bool,
    btrfs: bool,
    mounts: spec_fn(BackingFs) -> bool,
    steps: nat,
)
    requires
        steps >= 2,
        forall|fs: BackingFs| #[trigger]
            mounts(fs) == world(ProbeState::Try { fs, xfs, btrfs }),
    ensures
        probed(world, ProbeState::candidate(BackingFs::XfsPlain, xfs, btrfs), steps)
            == ProbeState::Done(
            if xfs && mounts(BackingFs::XfsPlain) {
                BackingFs::XfsPlain
            } else if btrfs && mounts(BackingFs::Btrfs) {
                BackingFs::Btrfs
            } else {
                BackingFs::Ext4
            },
        ),
{
    lemma_probe_btrfs(world, xfs, btrfs, mounts, (steps - 1) as nat);
    lemma_probe_btrfs(world, xfs, btrfs, mounts, steps);
    lemma_probe_done(world, BackingFs::XfsPlain, (steps - 1) as nat);
}

proof fn lemma_probe_candidates(
    world: spec_fn(ProbeState) -> bool,
    xfs: bool,
    btrfs: bool,
    mounts: spec_fn(BackingFs) -> bool,
    steps: nat,
)
    requires
        steps >= 3,
        forall|fs: BackingFs| #[trigger]
            mounts(fs) == world(ProbeState::Try { fs, xfs, btrfs }),
    ensures
        probed(world, ProbeState::candidate(BackingFs::XfsReflink, xfs, btrfs), steps)
            == ProbeState::Done(best_fs(xfs, btrfs, true, mounts)),
{
    lemma_probe_plain(world, xfs, btrfs, mounts, (steps - 1) as nat);
    lemma_probe_plain(world, xfs, btrfs, mounts, steps);
    lemma_probe_done(world, BackingFs::XfsReflink, (steps - 1) as nat);
}

proof fn lemma_probe_tools_found(
    world: spec_fn(ProbeState) -> bool,
    xfs: bool,
    mounts: spec_fn(BackingFs) -> bool,
    steps: nat,
)
    requires
        steps >= 5,
        forall|fs: BackingFs| #[trigger]
            mounts(fs) == world(
                ProbeState::Try { fs, xfs, btrfs: world(ProbeState::RecheckBtrfs { xfs }) },
            ),
    ensures
        ({
            let btrfs = world(ProbeState::RecheckBtrfs { xfs });
            probed(world, ProbeState::RecheckBtrfs { xfs }, steps) == ProbeState::Done(
                best_fs(xfs, btrfs, world(ProbeState::Scratch { xfs, btrfs }), mounts),
            )
        }),
{
    let btrfs = world(ProbeState::RecheckBtrfs { xfs });
    let scratch = ProbeState::Scratch { xfs, btrfs };
    lemma_probe_candidates(world, xfs, btrfs, mounts, (steps - 2) as nat);
    lemma_probe_done(world, BackingFs::Ext4, (steps - 2) as nat);
    assert(probed(world, scratch, (steps - 1) as nat) == probed(
        world,
        scratch.after(world(scratch)),
        (steps - 2) as nat,
    ));
}

/// A probe always ends with a choice, after ten reports at the latest, and the
/// choice is the best file system that can be formatted and mounted.
pub proof fn law_probe_finds_the_best(world: spec_fn(ProbeState) -> bool)
    ensures
        ({
            let xfs = world(ProbeState::RecheckXfs);
            let btrfs = world(ProbeState::RecheckBtrfs { xfs });
            probed(world, ProbeState::FindXfs, 10) == ProbeState::Done(
                best_fs(
                    xfs,
                    btrfs,
                    world(ProbeState::Scratch { xfs, btrfs }),
                    |fs: BackingFs| world(ProbeState::Try { fs, xfs, btrfs }),
                ),
            )
        }),
{
    let xfs = world(ProbeState::RecheckXfs);
    let btrfs = world(ProbeState::RecheckBtrfs { xfs });
    let mounts = |fs: BackingFs| world(ProbeState::Try { fs, xfs, btrfs });
    lemma_probe_tools_found(world, xfs, mounts, 5);
    lemma_probe_tools_found(world, xfs, mounts, 6);
    lemma_probe_tools_found(world, xfs, mounts, 7);
    let find = ProbeState::FindBtrfs { xfs };
    let install = ProbeState::InstallBtrfs { xfs };
    let found = probed(world, ProbeState::RecheckBtrfs { xfs }, 5);
    assert(probed(world, install, 6) == found);
    assert(probed(world, install, 7) == found);
    assert(probed(world, find, 7) == found);
    assert(probed(world, find, 8) == found);
    assert(probed(world, ProbeState::RecheckXfs, 8) == found);
    assert(probed(world, ProbeState::RecheckXfs, 9) == found);
    assert(probed(world, ProbeState::InstallXfs, 9) == found);
}

/// Btrfs is for kernels without XFS, and ext4 for those with neither: each is
/// chosen exactly where nothing before it can be formatted and mounted.
pub proof fn law_fallbacks_come_last(xfs: bool, btrfs: bool, mounts: spec_fn(BackingFs) -> bool)
    ensures
        ({
            let xfs_mounts = xfs && (mounts(BackingFs::XfsReflink) || mounts(BackingFs::XfsPlain));
            let btrfs_mounts = btrfs && mounts(BackingFs::Btrfs);
            let best = best_fs(xfs, btrfs, true, mounts);
            &&& best is Btrfs <==> !xfs_mounts && btrfs_mounts
            &&& best is Ext4 <==> !xfs_mounts && !btrfs_mounts
            &&& best is XfsReflink <==> xfs && mounts(BackingFs::XfsReflink)
        }),
{
}

// ---------------------------------------------------------------------------
// Disk space
// ---------------------------------------------------------------------------

/// The digits at the end of a text.
pub open spec fn trailing_digits(s: Seq<char>) -> Seq<char>
    decreases s.len(),
{
    if s.len() > 0 && text::is_digit(s.last()) {
        trailing_digits(s.drop_last()).push(s.last())
    } else {
        Seq::empty()
    }
}

/// A digit and then ` bytes` stand at the end of a number: the digit right
/// before position `i`, the word from there on.
pub open spec fn bytes_at(line: Seq<char>, i: int) -> bool {
    0 < i && text::is_digit(line[i - 1]) && text::occurs_at(line, " bytes"@, i)
}

/// `i` is where the first number with ` bytes` behind it ends.
pub open spec fn first_bytes_at(line: Seq<char>, i: int) -> bool {
    bytes_at(line, i) && forall|j: int| 0 <= j < i ==> !bytes_at(line, j)
}

/// The first number of a line with ` bytes` right behind it, if there is one and
/// it fits.
pub open spec fn bytes_in_line(line: Seq<char>) -> Option<u64> {
    if exists|i: int| bytes_at(line, i) {
        let i = choose|i: int| first_bytes_at(line, i);
        text::parsed(trailing_digits(line.take(i)))
    } else {
        None
    }
}

proof fn lemma_trailing_digits(s: Seq<char>, from: int)
    requires
        0 <= from <= s.len(),
        forall|j: int| from <= j < s.len() ==> text::is_digit(#[trigger] s[j]),
        from > 0 ==> !text::is_digit(s[from - 1]),
    ensures
        trailing_digits(s) == s.skip(from),
    decreases s.len(),
{
    if from < s.len() {
        lemma_trailing_digits(s.drop_last(), from);
        assert(s.drop_last().skip(from).push(s.last()) =~= s.skip(from));
    } else {
        assert(s.skip(from) =~= Seq::empty());
    }
}

/// The position at which the first number with ` bytes` behind it ends.
fn find_bytes(v: &Vec<char>) -> (res: Option<usize>)
    ensures
        match res {
            Some(i) => first_bytes_at(v@, i as int),
            None => forall|i: int| !bytes_at(v@, i),
        },
{
    let word = text::chars_of(" bytes");
    proof {
        reveal_strlit(" bytes");
        assert(" bytes"@.len() == 6);
    }
    let mut i: usize = 1;
    while i < v.len()
        invariant
            1 <= i,
            i <= v.len() || i == 1,
            word@ == " bytes"@,
            forall|j: int| 0 <= j < i ==> !bytes_at(v@, j),
        decreases v.len() - i,
    {
        if '0' <= v[i - 1] && v[i - 1] <= '9' && text::matches_at(v, &word, i) {
            assert(bytes_at(v@, i as int));
            return Some(i);
        }
        i += 1;
    }
    assert forall|j: int| !bytes_at(v@, j) by {
        if bytes_at(v@, j) {
            assert(j + 6 <= v@.len());
            assert(j < i);
        }
    }
    None
}

proof fn lemma_first_bytes(line: Seq<char>, i: int)
    requires
        first_bytes_at(line, i),
    ensures
        bytes_in_line(line) == text::parsed(trailing_digits(line.take(i))),
{
    assert(bytes_at(line, i));
    let k = choose|k: int| first_bytes_at(line, k);
    assert(bytes_at(line, k));
    assert(k == i);
}

/// Parse the first number of a line with ` bytes` right behind it, such as in
/// `Unpartitioned space /dev/mmcblk0: 10737418240 bytes, 10.7 GiB`.
pub fn parse_bytes_from_line(line: &str) -> (res: Option<u64>)
    ensures
        res == bytes_in_line(line@),
{
    let v = text::chars_of(line);
    let i: usize = match find_bytes(&v) {
        Some(i) => i,
        None => {
            return None;
        },
    };
    proof {
        lemma_first_bytes(line@, i as int);
    }
    let mut from: usize = i;
    while from > 0 && '0' <= v[from - 1] && v[from - 1] <= '9'
        invariant
            from <= i <= v.len(),
            forall|j: int| from <= j < i ==> text::is_digit(#[trigger] v@[j]),
        decreases from,
    {
        from -= 1;
    }
    let mut digits: Vec<char> = Vec::new();
    let mut k: usize = from;
    while k < i
        invariant
            from <= k <= i <= v.len(),
            digits@ == v@.subrange(from as int, k as int),
        decreases i - k,
    {
        digits.push(v[k]);
        k += 1;
        assert(digits@ =~= v@.subrange(from as int, k as int));
    }
    proof {
        lemma_trailing_digits(v@.take(i as int), from as int);
        assert(v@.take(i as int).skip(from as int) =~= digits@);
        assert(digits@.skip(0) =~= digits@);
        assert(from < i);
        assert(text::is_digit(v@[from as int]));
    }
    text::parse_chars(&digits, 0)
}

/// A line that has its first number with ` bytes` behind it after `before`, with
/// no other digit right before it, is read as that number.
pub proof fn law_reported_bytes_read_back(before: Seq<char>, n: u64, after: Seq<char>)
    requires
        before.len() > 0 ==> !text::is_digit(before.last()),
        forall|j: int|
            0 <= j < before.len() ==> !bytes_at(
                before + text::decimal(n as nat) + " bytes"@ + after,
                j,
            ),
    ensures
        bytes_in_line(before + text::decimal(n as nat) + " bytes"@ + after) == Some(n),
{
    let number = text::decimal(n as nat);
    let line = before + number + " bytes"@ + after;
    let head = before + number;
    let end = head.len() as int;
    text::lemma_parse_decimal(n);
    text::lemma_decimal_reads_back(n as nat);
    reveal_strlit(" bytes");
    assert forall|j: int| before.len() <= j < end implies text::is_digit(#[trigger] head[j]) by {
        assert(head[j] == number[j - before.len()]);
    }
    assert(line[end - 1] == head[end - 1]);
    assert(line.subrange(end, end + " bytes"@.len()) =~= " bytes"@);
    assert(bytes_at(line, end));
    assert forall|j: int| 0 <= j < end implies !bytes_at(line, j) by {
        if j >= before.len() {
            assert(line[j] == head[j]);
            if text::occurs_at(line, " bytes"@, j) {
                assert(line.subrange(j, j + " bytes"@.len())[0] == line[j]);
            }
        }
    }
    lemma_first_bytes(line, end);
    assert(line.take(end) =~= head);
    lemma_trailing_digits(head, before.len() as int);
    assert(head.skip(before.len() as int) =~= number);
}

/// The number of the first line that has one; zero where none has.
pub open spec fn first_bytes(lines: Seq<Seq<char>>) -> u64
    decreases lines.len(),
{
    if lines.len() == 0 {
        0
    } else {
        match bytes_in_line(lines[0]) {
            Some(n) => n,
            None => first_bytes(lines.skip(1)),
        }
    }
}

/// The free space in bytes that the report of `sfdisk -F` gives.
pub open spec fn reported_free(report: Seq<char>) -> u64 {
    first_bytes(text::lines(report))
}

/// The free space in bytes that the report of `sfdisk -F` gives.
pub fn free_space(report: &str) -> (res: u64)
    ensures
        res == reported_free(report@),
{
    let lines = text::lines_of(report);
    let ghost all = text::views(lines@);
    let mut i: usize = 0;
    assert(all.skip(0) =~= all);
    while i < lines.len()
        invariant
            i <= lines.len(),
            all == text::views(lines@),
            all == text::lines(report@),
            first_bytes(all.skip(i as int)) == first_bytes(all),
        decreases lines.len() - i,
    {
        assert(all.skip(i as int)[0] == lines@[i as int]@);
        match parse_bytes_from_line(&lines[i]) {
            Some(n) => {
                return n;
            },
            None => {},
        }
        assert(all.skip(i as int).skip(1) =~= all.skip(i + 1));
        i += 1;
    }
    0
}

/// The size that `blockdev --getsize64` reports; zero where it is no number.
pub open spec fn reported_size(output: Seq<char>) -> u64 {
    match text::parsed(text::trim(output)) {
        Some(n) => n,
        None => 0,
    }
}

/// The size that `blockdev --getsize64` reports.
pub fn device_size(output: &str) -> (res: u64)
    ensures
        res == reported_size(output@),
{
    match text::parse_u64(&text::trimmed(output)) {
        Some(n) => n,
        None => 0,
    }
}

/// A byte count in whole GiB.
pub open spec fn whole_gib(bytes: u64) -> Seq<char> {
    text::decimal(bytes as nat / 1024 / 1024 / 1024)
}

fn gib_of(bytes: u64) -> (res: String)
    ensures
        res@ == whole_gib(bytes),
{
    text::decimal_of(bytes / 1024 / 1024 / 1024)
}

/// Where the space is to be looked for.
#[derive(Debug, Clone, PartialEq, Eq)]
pub enum SpaceCheck {
    /// On the SD card.
    Sd,
    /// On this drive.
    Usb(String),
}

impl SpaceCheck {
    /// What the user is told.
    pub open spec fn told(&self) -> Seq<char> {
        match self {
            SpaceCheck::Sd => "DATA_DRIVE is not set. SD card will be used."@,
            SpaceCheck::Usb(drive) => "DATA_DRIVE is set to "@ + drive@
                + ". This will be used for /mutable and /backingfiles."@,
        }
    }

    /// What the user is told.
    pub fn announcement(&self) -> (res: String)
        ensures
            res@ == self.told(),
    {
        match self {
            SpaceCheck::Sd => "DATA_DRIVE is not set. SD card will be used.".to_owned(),
            SpaceCheck::Usb(drive) => text::cat(
                &text::cat("DATA_DRIVE is set to ", drive),
                ". This will be used for /mutable and /backingfiles.",
            ),
        }
    }
}

/// What a missing drive is told.
pub open spec fn drive_missing(drive: Seq<char>) -> Seq<char> {
    "STOP: DATA_DRIVE is set to "@ + drive + ", which does not exist."@
}

/// Where the space is looked for.
pub open spec fn space_plan(
    data_drive: Option<String>,
    drive_exists: bool,
    res: Result<SpaceCheck, SetupError>,
) -> bool {
    match data_drive {
        None => res matches Ok(SpaceCheck::Sd),
        Some(drive) => if drive_exists {
            res matches Ok(SpaceCheck::Usb(d)) && d@ == drive@
        } else {
            res matches Err(e) && is_transient(e, drive_missing(drive@))
        },
    }
}

/// Decide where to look for space. `drive_exists` says whether the configured
/// data drive is there. A drive that is not there may only be slow to come up,
/// so its absence is transient.
pub fn check_available_space(env: &SetupEnv, drive_exists: bool) -> (res: Result<
    SpaceCheck,
    SetupError,
>)
    ensures
        space_plan(env.data_drive, drive_exists, res),
{
    match &env.data_drive {
        None => Ok(SpaceCheck::Sd),
        Some(drive) => if drive_exists {
            Ok(SpaceCheck::Usb(drive.clone()))
        } else {
            Err(
                SetupError::Transient(
                    text::cat(
                        &text::cat("STOP: DATA_DRIVE is set to ", drive),
                        ", which does not exist.",
                    ),
                ),
            )
        },
    }
}

/// The check that runs once the root partition has been shrunk; see
/// [`check_available_space`].
pub fn verify_disk_space(env: &SetupEnv, drive_exists: bool) -> (res: Result<
    SpaceCheck,
    SetupError,
>)
    ensures
        space_plan(env.data_drive, drive_exists, res),
{
    check_available_space(env, drive_exists)
}

/// What is asked about the SD card.
#[derive(Debug, Clone, PartialEq, Eq)]
pub enum SdQuery {
    /// The size of the backing-files partition, which is there already.
    PartitionSize,
    /// The free space on this disk.
    FreeSpace(String),
}

/// What is asked about the SD card.
pub open spec fn card_plan(
    boot_disk: Option<String>,
    both_exist: bool,
    res: Result<SdQuery, SetupError>,
) -> bool {
    if both_exist {
        res matches Ok(SdQuery::PartitionSize)
    } else {
        match boot_disk {
            Some(disk) => res matches Ok(SdQuery::FreeSpace(d)) && d@ == disk@,
            None => res matches Err(e) && is_transient(
                e,
                "check_available_space_sd: BOOT_DISK is not set"@,
            ),
        }
    }
}

/// Decide what to ask about the SD card. Where both partitions are there from
/// an earlier run, the size of the first one decides.
pub fn check_available_space_sd(
    env: &SetupEnv,
    backingfiles_exists: bool,
    mutable_exists: bool,
) -> (res: Result<SdQuery, SetupError>)
    ensures
        card_plan(env.boot_disk, backingfiles_exists && mutable_exists, res),
{
    if backingfiles_exists && mutable_exists {
        return Ok(SdQuery::PartitionSize);
    }
    match &env.boot_disk {
        Some(disk) => Ok(SdQuery::FreeSpace(disk.clone())),
        None => Err(
            SetupError::Transient("check_available_space_sd: BOOT_DISK is not set".to_owned()),
        ),
    }
}

/// What a backing-files partition that is too small is told.
pub open spec fn partition_too_small(size: u64) -> Seq<char> {
    "STOP: Existing backingfiles partition is too small ("@ + whole_gib(size)
        + "GB, need at least "@ + whole_gib(MIN_SD_SPACE_BYTES) + "GB)"@
}

/// The objection to a backing-files partition, if there is one.
pub open spec fn partition_objection(size: u64) -> Option<Seq<char>> {
    if size < MIN_SD_SPACE_BYTES {
        Some(partition_too_small(size))
    } else {
        None
    }
}

/// The result is this objection, as a transient error, or success.
pub open spec fn objects(res: Result<(), SetupError>, objection: Option<Seq<char>>) -> bool {
    match objection {
        Some(message) => res matches Err(e) && is_transient(e, message),
        None => res is Ok,
    }
}

/// Check the size of the backing-files partition, as `blockdev` reported it.
pub fn check_existing_partition(size_output: &str) -> (res: Result<(), SetupError>)
    ensures
        objects(res, partition_objection(reported_size(size_output@))),
{
    let size: u64 = device_size(size_output);
    if size < MIN_SD_SPACE_BYTES {
        let head = text::cat(
            "STOP: Existing backingfiles partition is too small (",
            &gib_of(size),
        );
        let need = text::cat(
            &text::cat(&head, "GB, need at least "),
            &gib_of(MIN_SD_SPACE_BYTES),
        );
        return Err(SetupError::Transient(text::cat(&need, "GB)")));
    }
    Ok(())
}

/// What an SD card that is too small is told.
pub open spec fn card_too_small(available: u64, parted: Seq<char>) -> Seq<char> {
    "STOP: The MicroSD card is too small: "@ + whole_gib(available)
        + "GB available, need at least "@ + whole_gib(MIN_SD_SPACE_BYTES) + "GB.\n"@ + parted
}

/// The objection to the free space on an SD card, if there is one.
pub open spec fn card_objection(available: u64, parted: Seq<char>) -> Option<Seq<char>> {
    if available < MIN_SD_SPACE_BYTES {
        Some(card_too_small(available, parted))
    } else {
        None
    }
}

/// Check the free space on the SD card. `parted` is the partition listing that
/// goes with the objection; it is not looked at where there is none.
pub fn check_card_space(available: u64, parted: &str) -> (res: Result<(), SetupError>)
    ensures
        objects(res, card_objection(available, parted@)),
{
    if available < MIN_SD_SPACE_BYTES {
        let head = text::cat("STOP: The MicroSD card is too small: ", &gib_of(available));
        let need = text::cat(
            &text::cat(&head, "GB available, need at least "),
            &gib_of(MIN_SD_SPACE_BYTES),
        );
        return Err(SetupError::Transient(text::cat(&text::cat(&need, "GB.\n"), parted)));
    }
    Ok(())
}

/// The type of a drive: the first line of what `lsblk` lists, without white
/// space around it.
pub open spec fn listed_type(lsblk: Seq<char>) -> Seq<char> {
    let lines = text::lines(lsblk);
    if lines.len() > 0 {
        text::trim(lines[0])
    } else {
        Seq::empty()
    }
}

/// What a drive that is no disk is told.
pub open spec fn not_a_disk(drive: Seq<char>, kind: Seq<char>) -> Seq<char> {
    "STOP: The specified drive ("@ + drive + ") is not a disk (TYPE="@ + kind
        + "). Please specify path to the disk."@
}

/// The objection to the type of a data drive, if there is one.
pub open spec fn type_objection(drive: Seq<char>, lsblk: Seq<char>) -> Option<Seq<char>> {
    if listed_type(lsblk) == "disk"@ {
        None
    } else {
        Some(not_a_disk(drive, listed_type(lsblk)))
    }
}

/// Check that the data drive is a whole disk, from what `lsblk` lists for it.
pub fn check_drive_type(drive: &str, lsblk: &str) -> (res: Result<(), SetupError>)
    ensures
        objects(res, type_objection(drive@, lsblk@)),
{
    let lines = text::lines_of(lsblk);
    let kind = if lines.len() > 0 {
        assert(text::lines(lsblk@)[0] == lines@[0]@);
        text::trimmed(&lines[0])
    } else {
        String::new()
    };
    if !text::same_text(&kind, "disk") {
        let named = text::cat("STOP: The specified drive (", drive);
        let head = text::cat(&named, ") is not a disk (TYPE=");
        return Err(
            SetupError::Transient(
                text::cat(&text::cat(&head, &kind), "). Please specify path to the disk."),
            ),
        );
    }
    Ok(())
}

/// What a drive that is too small is told.
pub open spec fn drive_too_small(size: u64, parted: Seq<char>) -> Seq<char> {
    "STOP: The USB drive is too small: "@ + whole_gib(size)
        + "GB available. Expected at least 64GB\n"@ + parted
}

/// The objection to the size of a data drive, if there is one.
pub open spec fn size_objection(size: u64, parted: Seq<char>) -> Option<Seq<char>> {
    if size < MIN_USB_SIZE_BYTES {
        Some(drive_too_small(size, parted))
    } else {
        None
    }
}

/// Check the size of the data drive. `parted` is the partition listing that
/// goes with the objection; it is not looked at where there is none.
pub fn check_drive_size(size: u64, parted: &str) -> (res: Result<(), SetupError>)
    ensures
        objects(res, size_objection(size, parted@)),
{
    if size < MIN_USB_SIZE_BYTES {
        let head = text::cat("STOP: The USB drive is too small: ", &gib_of(size));
        return Err(
            SetupError::Transient(
                text::cat(&text::cat(&head, "GB available. Expected at least 64GB\n"), parted),
            ),
        );
    }
    Ok(())
}

// ---------------------------------------------------------------------------
// Laws
// ---------------------------------------------------------------------------

/// The only hardware that is turned away is the Pi Zero W and the Pi 2. Hardware
/// comes first, and no probe is made for one that is turned away; a retry may
/// help there, while a configuration without `CAM_SIZE` has to be mended.
pub proof fn law_early_checks_come_in_order(
    model: PiModel,
    config: Seq<(String, String)>,
    verdict: EarlyVerdict,
)
    requires
        early_outcome(model, config, verdict),
    ensures
        ({
            let turned_away = model is PiZeroW || model is Pi2;
            let sized = exists|i: int|
                0 <= i < config.len() && (#[trigger] config[i]).0@ == "CAM_SIZE"@;
            &&& verdict.probes <==> !turned_away
            &&& verdict.outcome is Ok <==> !turned_away && sized
            &&& verdict.outcome matches Err(SetupError::Transient(m)) ==> turned_away
            &&& verdict.outcome matches Err(SetupError::Config(m)) ==> !turned_away && !sized
            &&& model is PiZeroW ==> (verdict.outcome matches Err(SetupError::Transient(m)) && m@
                == ZERO_W_UNSUPPORTED@)
            &&& model is Pi2 ==> (verdict.outcome matches Err(SetupError::Transient(m)) && m@
                == PI_2_UNSUPPORTED@)
            &&& verdict.outcome matches Err(SetupError::Config(m)) ==> m@ == CAM_SIZE_MISSING@
        }),
{
}

/// What a user who is turned away reads names the hardware, and what is missing.
pub proof fn law_objections_name_their_cause()
    ensures
        text::begins_with(
            ZERO_W_UNSUPPORTED@,
            "STOP: unsupported hardware: Raspberry Pi Zero W."@,
        ),
        text::begins_with(PI_2_UNSUPPORTED@, "STOP: unsupported hardware: Raspberry Pi 2."@),
        text::begins_with(CAM_SIZE_MISSING@, "STOP: Define the variable CAM_SIZE"@),
{
    reveal_strlit(
        "STOP: unsupported hardware: Raspberry Pi Zero W. SentryUSB requires Pi Zero 2 W or newer (Pi 3, Pi 4, Pi 5).",
    );
    reveal_strlit("STOP: unsupported hardware: Raspberry Pi Zero W.");
    reveal_strlit(
        "STOP: unsupported hardware: Raspberry Pi 2. (only Pi Zero 2 W, Pi 3, Pi 4, and Pi 5 have the necessary hardware to run SentryUSB)",
    );
    reveal_strlit("STOP: unsupported hardware: Raspberry Pi 2.");
    reveal_strlit(
        "STOP: Define the variable CAM_SIZE in sentryusb.conf like this: export CAM_SIZE=32",
    );
    reveal_strlit("STOP: Define the variable CAM_SIZE");
    let (a, b, c) = (ZERO_W_UNSUPPORTED@, PI_2_UNSUPPORTED@, CAM_SIZE_MISSING@);
    assert(a.subrange(0, "STOP: unsupported hardware: Raspberry Pi Zero W."@.len() as int)
        =~= "STOP: unsupported hardware: Raspberry Pi Zero W."@);
    assert(b.subrange(0, "STOP: unsupported hardware: Raspberry Pi 2."@.len() as int)
        =~= "STOP: unsupported hardware: Raspberry Pi 2."@);
    assert(c.subrange(0, "STOP: Define the variable CAM_SIZE"@.len() as int)
        =~= "STOP: Define the variable CAM_SIZE"@);
}

proof fn lemma_links(kinds: Seq<bool>)
    ensures
        links_among(kinds) > 0 <==> exists|i: int| 0 <= i < kinds.len() && #[trigger] kinds[i],
        links_among(kinds) <= kinds.len(),
    decreases kinds.len(),
{
    if kinds.len() > 0 {
        let front = kinds.drop_last();
        lemma_links(front);
        if links_among(front) > 0 {
            let i = choose|i: int| 0 <= i < front.len() && #[trigger] front[i];
            assert(kinds[i]);
        }
        if kinds.last() {
            assert(kinds[kinds.len() - 1]);
        }
        if exists|i: int| 0 <= i < kinds.len() && #[trigger] kinds[i] {
            let i = choose|i: int| 0 <= i < kinds.len() && #[trigger] kinds[i];
            if i < front.len() {
                assert(front[i]);
            }
        }
    }
}

/// A device has a controller where any entry of the listing is a link; a listing
/// that cannot be read has none.
pub proof fn law_links_are_controllers(kinds: Option<Seq<bool>>, model: Option<&str>)
    ensures
        udc_objection(kinds, model) is None <==> (kinds matches Some(k) && exists|i: int|
            0 <= i < k.len() && #[trigger] k[i]),
{
    match kinds {
        Some(k) => {
            lemma_links(k);
        },
        None => {},
    }
}

/// Each link is counted once, and nothing else is.
pub proof fn law_links_are_counted(kinds: Seq<bool>)
    ensures
        links_among(Seq::empty()) == 0,
        links_among(kinds.push(true)) == links_among(kinds) + 1,
        links_among(kinds.push(false)) == links_among(kinds),
{
    assert(kinds.push(true).drop_last() =~= kinds);
    assert(kinds.push(false).drop_last() =~= kinds);
}

/// What a device without a controller is told names the model, without the NULs
/// and the white space around it.
pub proof fn law_missing_controller_names_the_model(
    before: Seq<char>,
    name: Seq<char>,
    after: Seq<char>,
)
    requires
        forall|i: int|
            0 <= i < before.len() ==> text::is_space(#[trigger] before[i]) || before[i] == '\0',
        forall|i: int|
            0 <= i < after.len() ==> text::is_space(#[trigger] after[i]) || after[i] == '\0',
        forall|i: int| 0 <= i < name.len() ==> #[trigger] name[i] != '\0',
        name.len() > 0 ==> !text::is_space(name[0]) && !text::is_space(name.last()),
    ensures
        no_udc_message(before + name + after) == "STOP: this device ("@ + name
            + ") does not have a UDC driver. Check that dtoverlay=dwc2 is in the correct section of config.txt for your Pi model"@,
{
    board::law_model_name_loses_its_padding(before, name, after);
}

/// The program that formats a file system is named after its type.
pub proof fn law_formatters_are_named_after_the_type(fs: BackingFs)
    ensures
        fs.formatter() == "mkfs."@ + fs.kind_name(),
        fs.kind_name() == "xfs"@ <==> fs is XfsReflink || fs is XfsPlain,
        fs.kind_name() == "btrfs"@ <==> fs is Btrfs,
        fs.kind_name() == "ext4"@ <==> fs is Ext4,
{
    reveal_strlit("mkfs.");
    reveal_strlit("xfs");
    reveal_strlit("btrfs");
    reveal_strlit("ext4");
    reveal_strlit("mkfs.xfs");
    reveal_strlit("mkfs.btrfs");
    reveal_strlit("mkfs.ext4");
    assert("mkfs."@ + "xfs"@ =~= "mkfs.xfs"@);
    assert("mkfs."@ + "btrfs"@ =~= "mkfs.btrfs"@);
    assert("mkfs."@ + "ext4"@ =~= "mkfs.ext4"@);
    assert("xfs"@.len() == 3 && "btrfs"@.len() == 5 && "ext4"@.len() == 4);
}

/// The arguments, but for the last one, have `value` right behind the option,
/// and nothing else behind it.
pub open spec fn option_is(args: Seq<Seq<char>>, option: Seq<char>, value: Seq<char>) -> bool {
    &&& exists|i: int| 0 <= i < args.len() - 2 && #[trigger] args[i] == option
    &&& forall|i: int|
        0 <= i < args.len() - 1 && #[trigger] args[i] == option ==> args[i + 1] == value
}

/// The arguments, but for the last one, have the flag.
pub open spec fn has_flag(args: Seq<Seq<char>>, flag: Seq<char>) -> bool {
    exists|i: int| 0 <= i < args.len() - 1 && #[trigger] args[i] == flag
}

proof fn lemma_flags_differ()
    ensures
        "-f"@ != "-m"@ && "-K"@ != "-m"@ && "-L"@ != "-m"@ && "-q"@ != "-m"@ && "-F"@ != "-m"@,
        "-f"@ != "-L"@ && "-K"@ != "-L"@ && "-F"@ != "-L"@,
        "-f"@ != "-F"@ && "-K"@ != "-F"@ && "-L"@ != "-F"@ && "-m"@ != "-F"@,
        "-F"@ != "-f"@ && "-K"@ != "-f"@,
        "-f"@ != "-K"@ && "-F"@ != "-K"@ && "-L"@ != "-K"@,
        "backingfiles"@.len() == 12,
        "reflink=1"@.len() == 9,
        "reflink=0,bigtime=0,inobtcount=0"@.len() == 32,
        "-m"@.len() == 2 && "-L"@.len() == 2 && "-K"@.len() == 2 && "-f"@.len() == 2
            && "-F"@.len() == 2,
{
    reveal_strlit("-f");
    reveal_strlit("-K");
    reveal_strlit("-m");
    reveal_strlit("-L");
    reveal_strlit("-q");
    reveal_strlit("-F");
    reveal_strlit("backingfiles");
    reveal_strlit("reflink=1");
    reveal_strlit("reflink=0,bigtime=0,inobtcount=0");
    assert("-f"@[1] == 'f' && "-K"@[1] == 'K' && "-m"@[1] == 'm' && "-L"@[1] == 'L' && "-q"@[1]
        == 'q' && "-F"@[1] == 'F');
}

/// Formatting a partition labels it `backingfiles`, goes over whatever is there
/// and takes the device last. The copy-on-write features are those that the
/// choice stands for: reflink is on for the reflink kind of XFS and off, with
/// the newer features, for the plain kind; no other file system gets features.
pub proof fn law_formatting_makes_the_choice(fs: BackingFs, dev: Seq<char>)
    ensures
        ({
            let args = fs.format_args(dev);
            &&& args.last() == dev
            &&& option_is(args, "-L"@, "backingfiles"@)
            &&& fs is XfsReflink ==> option_is(args, "-m"@, "reflink=1"@)
            &&& fs is XfsPlain ==> option_is(args, "-m"@, "reflink=0,bigtime=0,inobtcount=0"@)
            &&& fs is Btrfs || fs is Ext4 ==> !has_flag(args, "-m"@)
            &&& fs is Ext4 <==> has_flag(args, "-F"@)
            &&& !(fs is Ext4) <==> has_flag(args, "-f"@)
            &&& fs is XfsReflink || fs is XfsPlain <==> has_flag(args, "-K"@)
            &&& args.len() == (if fs is XfsReflink || fs is XfsPlain {
                7nat
            } else {
                4nat
            })
        }),
{
    let args = fs.format_args(dev);
    lemma_flags_differ();
    match fs {
        BackingFs::XfsReflink => {
            assert(args[0] == "-f"@ && args[1] == "-K"@ && args[2] == "-m"@ && args[4] == "-L"@);
        },
        BackingFs::XfsPlain => {
            assert(args[0] == "-f"@ && args[1] == "-K"@ && args[2] == "-m"@ && args[4] == "-L"@);
        },
        BackingFs::Btrfs => {
            assert(args[0] == "-f"@ && args[1] == "-L"@);
        },
        BackingFs::Ext4 => {
            assert(args[0] == "-F"@ && args[1] == "-L"@);
        },
    }
}

/// What is formatted is what the probe tried: both ask for the same features, so
/// a kernel that mounted the trial mounts the partition. The trial is quiet,
/// goes over whatever is there and takes the image last.
pub proof fn law_formatting_matches_the_trial(
    fs: BackingFs,
    dev: Seq<char>,
    img: Seq<char>,
    features: Seq<char>,
)
    ensures
        ({
            let trial = trial_args(fs, img);
            &&& option_is(trial, "-m"@, features) <==> option_is(
                fs.format_args(dev),
                "-m"@,
                features,
            )
            &&& has_flag(trial, "-m"@) <==> has_flag(fs.format_args(dev), "-m"@)
            &&& fs.cow() <==> fs is Btrfs || option_is(trial, "-m"@, "reflink=1"@)
            &&& trial.last() == img
            &&& has_flag(trial, "-q"@)
            &&& has_flag(trial, "-f"@)
            &&& trial.len() == (if fs is XfsReflink || fs is XfsPlain {
                5nat
            } else {
                3nat
            })
        }),
{
    let (trial, args) = (trial_args(fs, img), fs.format_args(dev));
    lemma_flags_differ();
    law_formatting_makes_the_choice(fs, dev);
    assert(trial[0] == "-q"@ && trial[1] == "-f"@);
    if fs is XfsReflink || fs is XfsPlain {
        assert(trial[2] == "-m"@);
        assert(args[2] == "-m"@);
        assert(trial[3] == args[3]);
        assert(option_is(trial, "-m"@, trial[3]));
        if option_is(trial, "-m"@, features) {
            assert(trial[3] == features);
        }
        if option_is(args, "-m"@, features) {
            assert(args[3] == features);
        }
        assert(fs is XfsPlain ==> trial[3] != "reflink=1"@);
    }
}

/// In words, a choice with cheap snapshots says so, and one without says that it
/// copies; each goes by the name of its file system.
pub proof fn law_words_tell_the_snapshots(fs: BackingFs)
    ensures
        fs is XfsReflink ==> text::begins_with(fs.words(), "XFS with reflink (copy-on-write"@),
        fs is Btrfs ==> text::begins_with(fs.words(), "Btrfs (copy-on-write"@),
        fs is XfsPlain ==> text::begins_with(fs.words(), "XFS without reflink (full-copy"@),
        fs is Ext4 ==> text::begins_with(fs.words(), "ext4 (full-copy"@),
{
    reveal_strlit("XFS with reflink (copy-on-write snapshots)");
    reveal_strlit("XFS with reflink (copy-on-write");
    reveal_strlit("Btrfs (copy-on-write snapshots — no XFS in this kernel)");
    reveal_strlit("Btrfs (copy-on-write");
    reveal_strlit("XFS without reflink (full-copy snapshots)");
    reveal_strlit("XFS without reflink (full-copy");
    reveal_strlit("ext4 (full-copy snapshots — no XFS/Btrfs in this kernel)");
    reveal_strlit("ext4 (full-copy");
    let w = fs.words();
    match fs {
        BackingFs::XfsReflink => {
            assert(w.subrange(0, "XFS with reflink (copy-on-write"@.len() as int)
                =~= "XFS with reflink (copy-on-write"@);
        },
        BackingFs::Btrfs => {
            assert(w.subrange(0, "Btrfs (copy-on-write"@.len() as int) =~= "Btrfs (copy-on-write"@);
        },
        BackingFs::XfsPlain => {
            assert(w.subrange(0, "XFS without reflink (full-copy"@.len() as int)
                =~= "XFS without reflink (full-copy"@);
        },
        BackingFs::Ext4 => {
            assert(w.subrange(0, "ext4 (full-copy"@.len() as int) =~= "ext4 (full-copy"@);
        },
    }
}

/// The choice by what can be formatted and mounted, candidate by candidate.
pub proof fn law_choice_is_the_first_that_mounts(
    xfs: bool,
    btrfs: bool,
    scratch: bool,
    mounts: spec_fn(BackingFs) -> bool,
)
    ensures
        ({
            let best = best_fs(xfs, btrfs, scratch, mounts);
            let reflink = scratch && xfs && mounts(BackingFs::XfsReflink);
            let plain = scratch && xfs && mounts(BackingFs::XfsPlain);
            let tree = scratch && btrfs && mounts(BackingFs::Btrfs);
            &&& best is XfsReflink <==> reflink
            &&& best is XfsPlain <==> !reflink && plain
            &&& best is Btrfs <==> !reflink && !plain && tree
            &&& best is Ext4 <==> !reflink && !plain && !tree
        }),
{
}

/// The probe looks for the formatter of what it would try, installs its package
/// only where it is missing, and mounts, or ends with, what its state names.
pub proof fn law_probe_looks_for_its_tools(state: ProbeState, ok: bool)
    ensures
        state is FindXfs || state is RecheckXfs ==> state.asks() == ProbeActionView::Which(
            BackingFs::XfsReflink.formatter(),
        ) && state.asks() == ProbeActionView::Which("mkfs.xfs"@),
        state is FindBtrfs || state is RecheckBtrfs ==> state.asks() == ProbeActionView::Which(
            BackingFs::Btrfs.formatter(),
        ) && state.asks() == ProbeActionView::Which("mkfs.btrfs"@),
        state is InstallXfs ==> (state.asks() matches ProbeActionView::Install { package, .. }
            && package == "xfsprogs"@),
        state is InstallBtrfs ==> (state.asks() matches ProbeActionView::Install { package, .. }
            && package == "btrfs-progs"@),
        state is FindXfs ==> (state.after(ok) is InstallXfs <==> !ok),
        state is FindBtrfs ==> (state.after(ok) is InstallBtrfs <==> !ok),
        state matches ProbeState::Try { fs, .. } ==> state.asks() == ProbeActionView::Mount(fs),
        state matches ProbeState::Done(fs) ==> state.asks() == ProbeActionView::Finish(fs),
        state is Scratch <==> state.asks() is MakeScratch,
{
}

/// A line has a number of bytes only where a digit stands right before
/// ` bytes`; a line whose first digits stand there is read as their number.
pub proof fn law_bytes_follow_a_digit(line: Seq<char>, before: Seq<char>, n: u64, after: Seq<char>)
    ensures
        (forall|i: int|
            0 < i <= line.len() && 48 <= (#[trigger] line[i - 1]) as int <= 57
                ==> !text::occurs_at(line, " bytes"@, i)) ==> bytes_in_line(line) is None,
        (forall|i: int| 0 <= i < before.len() ==> !(48 <= (#[trigger] before[i]) as int <= 57))
            ==> bytes_in_line(before + text::decimal(n as nat) + " bytes"@ + after) == Some(n),
{
    if forall|i: int|
        0 < i <= line.len() && 48 <= (#[trigger] line[i - 1]) as int <= 57 ==> !text::occurs_at(
            line,
            " bytes"@,
            i,
        ) {
        assert forall|i: int| !bytes_at(line, i) by {
            if bytes_at(line, i) {
                reveal_strlit(" bytes");
                assert(48 <= line[i - 1] as int <= 57);
            }
        }
    }
    if forall|i: int| 0 <= i < before.len() ==> !(48 <= (#[trigger] before[i]) as int <= 57) {
        let all = before + text::decimal(n as nat) + " bytes"@ + after;
        assert forall|j: int| 0 <= j < before.len() implies !bytes_at(all, j) by {
            if j > 0 {
                assert(all[j - 1] == before[j - 1]);
            }
        }
        law_reported_bytes_read_back(before, n, after);
    }
}

/// The free space is that of the first line that has a number of bytes; where no
/// line has one, there is none.
pub proof fn law_first_report_counts(lines: Seq<Seq<char>>, line: Seq<char>)
    ensures
        first_bytes(Seq::empty()) == 0,
        bytes_in_line(line) matches Some(n) ==> first_bytes(seq![line] + lines) == n,
        bytes_in_line(line) is None ==> first_bytes(seq![line] + lines) == first_bytes(lines),
{
    assert((seq![line] + lines)[0] == line);
    assert((seq![line] + lines).skip(1) =~= lines);
}

/// A reported size is the number itself, whatever white space stands around it;
/// a report with anything else in it counts as zero.
pub proof fn law_sizes_are_plain_numbers(
    before: Seq<char>,
    n: u64,
    after: Seq<char>,
    output: Seq<char>,
    i: int,
)
    requires
        text::all_space(before),
        text::all_space(after),
    ensures
        reported_size(before + text::decimal(n as nat) + after) == n,
        0 < i < output.len() && !(48 <= output[i] as int <= 57) && !text::is_space(output[i])
            && !text::is_space(output[0]) ==> reported_size(output) == 0,
{
    let number = text::decimal(n as nat);
    text::lemma_decimal_reads_back(n as nat);
    assert(text::is_digit(number[0]) && text::is_digit(number[number.len() - 1]));
    text::law_trim_keeps_the_rest(before, number, after);
    text::lemma_parse_decimal(n);
    if 0 < i < output.len() && !(48 <= output[i] as int <= 57) && !text::is_space(output[i])
        && !text::is_space(output[0]) {
        text::law_trim_takes_outer_space(output);
        let (x, y) = choose|x: Seq<char>, y: Seq<char>|
            #![trigger text::all_space(x), text::all_space(y)]
            text::all_space(x) && text::all_space(y) && output == x + text::trim(output) + y;
        let t = text::trim(output);
        assert(x.len() == 0) by {
            if x.len() > 0 {
                assert(output[0] == x[0]);
            }
        }
        assert(i < t.len()) by {
            if i >= t.len() {
                assert(output[i] == y[i - t.len()]);
            }
        }
        assert(t[i] == output[i]);
        text::law_only_numbers_parse(0, t, i);
    }
}

/// Sizes are shown in whole GiB, rounded down.
pub proof fn law_gib_are_rounded_down(bytes: u64)
    ensures
        ({
            let shown = text::digits_value(whole_gib(bytes));
            shown * 1_073_741_824 <= bytes < (shown + 1) * 1_073_741_824
        }),
{
    text::lemma_decimal_reads_back(bytes as nat / 1024 / 1024 / 1024);
}

/// A partition or an SD card is objected to exactly where it has less than
/// 8 GiB, and a data drive exactly where it has less than 59.
pub proof fn law_space_limits(bytes: u64, parted: Seq<char>)
    ensures
        partition_objection(bytes) is Some <==> bytes < 8 * 1_073_741_824,
        card_objection(bytes, parted) is Some <==> bytes < 8 * 1_073_741_824,
        size_objection(bytes, parted) is Some <==> bytes < 59 * 1_073_741_824,
{
}

/// What is told of too little space has how much there is, and for a card or a
/// drive ends in the listing of its partitions.
pub proof fn law_space_objections_tell_the_size(bytes: u64, parted: Seq<char>)
    ensures
        partition_objection(bytes) matches Some(m) ==> m
            == "STOP: Existing backingfiles partition is too small ("@ + whole_gib(bytes)
            + "GB, need at least 8GB)"@,
        card_objection(bytes, parted) matches Some(m) ==> m
            == "STOP: The MicroSD card is too small: "@ + whole_gib(bytes)
            + "GB available, need at least 8GB.\n"@ + parted,
        size_objection(bytes, parted) matches Some(m) ==> m
            == "STOP: The USB drive is too small: "@ + whole_gib(bytes)
            + "GB available. Expected at least 64GB\n"@ + parted,
{
    let eight = whole_gib(MIN_SD_SPACE_BYTES);
    assert(MIN_SD_SPACE_BYTES as nat / 1024 / 1024 / 1024 == 8);
    assert(eight =~= seq!['8']) by {
        text::law_decimal_is_positional(0, 8);
        assert(eight[0] as int == '8' as int);
    }
    reveal_strlit("GB, need at least ");
    reveal_strlit("GB)");
    reveal_strlit("GB, need at least 8GB)");
    assert("GB, need at least "@ + eight + "GB)"@ =~= "GB, need at least 8GB)"@);
    assert(partition_too_small(bytes)
        =~= "STOP: Existing backingfiles partition is too small ("@ + whole_gib(bytes)
        + "GB, need at least 8GB)"@);
    reveal_strlit("GB available, need at least ");
    reveal_strlit("GB.\n");
    reveal_strlit("GB available, need at least 8GB.\n");
    assert("GB available, need at least "@ + eight + "GB.\n"@
        =~= "GB available, need at least 8GB.\n"@);
    assert(card_too_small(bytes, parted) =~= "STOP: The MicroSD card is too small: "@ + whole_gib(
        bytes,
    ) + "GB available, need at least 8GB.\n"@ + parted);
}

/// A drive is taken exactly where the first line of the listing says `disk`,
/// with whatever white space around it; otherwise the drive and its type are
/// told.
pub proof fn law_only_disks_are_taken(
    drive: Seq<char>,
    before: Seq<char>,
    kind: Seq<char>,
    after: Seq<char>,
    rest: Seq<char>,
)
    requires
        text::all_space(before),
        text::all_space(after),
        kind.len() > 0 ==> !text::is_space(kind[0]) && !text::is_space(kind.last()),
        forall|i: int|
            0 <= i < (before + kind + after).len() ==> #[trigger] (before + kind + after)[i]
                != '\n',
    ensures
        ({
            let objection = type_objection(drive, before + kind + after + seq!['\r', '\n'] + rest);
            &&& objection is None <==> kind == "disk"@
            &&& objection matches Some(m) ==> m == "STOP: The specified drive ("@ + drive
                + ") is not a disk (TYPE="@ + kind + "). Please specify path to the disk."@
        }),
        type_objection(drive, Seq::empty()) is Some,
{
    let line = before + kind + after;
    text::law_lines_end_in_line_feeds(line, rest);
    text::law_trim_keeps_the_rest(before, kind, after);
    let lsblk = line + seq!['\r', '\n'] + rest;
    assert(text::lines(lsblk)[0] == line);
    reveal_strlit("disk");
    assert(text::lines(Seq::empty()).len() == 0);
    assert("disk"@.len() == 4);
}

/// The space is looked for on the SD card exactly where no data drive is set; a
/// data drive is used where it is there, and its absence is told, and may pass.
pub proof fn law_data_drive_decides(
    data_drive: Option<String>,
    drive_exists: bool,
    res: Result<SpaceCheck, SetupError>,
)
    requires
        space_plan(data_drive, drive_exists, res),
    ensures
        res matches Ok(SpaceCheck::Sd) <==> data_drive is None,
        data_drive matches Some(d) ==> {
            &&& drive_exists ==> (res matches Ok(SpaceCheck::Usb(u)) && u@ == d@)
            &&& !drive_exists ==> (res matches Err(SetupError::Transient(m)) && m@
                == "STOP: DATA_DRIVE is set to "@ + d@ + ", which does not exist."@)
        },
        res matches Ok(check) ==> check.told() == (match data_drive {
            None => "DATA_DRIVE is not set. SD card will be used."@,
            Some(d) => "DATA_DRIVE is set to "@ + d@
                + ". This will be used for /mutable and /backingfiles."@,
        }),
{
}

/// The size of the partition is asked for exactly where both partitions are
/// there; else the free space of the boot disk, where that is known.
pub proof fn law_existing_partitions_decide(
    boot_disk: Option<String>,
    both_exist: bool,
    res: Result<SdQuery, SetupError>,
)
    requires
        card_plan(boot_disk, both_exist, res),
    ensures
        res matches Ok(SdQuery::PartitionSize) <==> both_exist,
        !both_exist ==> (boot_disk matches Some(d) ==> (res matches Ok(SdQuery::FreeSpace(f)) && f@
            == d@)),
        res is Err <==> !both_exist && boot_disk is None,
        res matches Err(e) ==> e is Transient,
{
}

/// An objection is told as it is, and may pass; without one the check passes.
pub proof fn law_objections_are_told(res: Result<(), SetupError>, objection: Option<Seq<char>>)
    requires
        objects(res, objection),
    ensures
        res is Ok <==> objection is None,
        res matches Err(e) ==> e is Transient && objection == Some(e.text()),
        res matches Err(SetupError::Transient(m)) ==> objection == Some(m@),
{
}

/// An error says its message, of whichever kind it is.
pub proof fn law_errors_say_their_message(err: SetupError, kinds: Option<&Vec<bool>>)
    ensures
        err matches SetupError::Config(s) ==> err.text() == s@,
        err matches SetupError::Transient(s) ==> err.text() == s@,
        kinds matches Some(k) ==> kinds_view(kinds) == Some(k@),
        kinds is None ==> kinds_view(kinds) is None,
{
}

/// The choice is announced with what it is in words.
pub proof fn law_choices_are_announced(fs: BackingFs)
    ensures
        fs is XfsReflink ==> choice_message(fs)
            == "Backing filesystem: XFS with reflink (copy-on-write snapshots)"@,
        fs is XfsPlain ==> choice_message(fs)
            == "Backing filesystem: XFS without reflink (full-copy snapshots)"@,
        text::begins_with(choice_message(fs), "Backing filesystem: "@),
{
    reveal_strlit("Backing filesystem: ");
    reveal_strlit("XFS with reflink (copy-on-write snapshots)");
    reveal_strlit("XFS without reflink (full-copy snapshots)");
    reveal_strlit("Backing filesystem: XFS with reflink (copy-on-write snapshots)");
    reveal_strlit("Backing filesystem: XFS without reflink (full-copy snapshots)");
    assert("Backing filesystem: "@ + "XFS with reflink (copy-on-write snapshots)"@
        =~= "Backing filesystem: XFS with reflink (copy-on-write snapshots)"@);
    assert("Backing filesystem: "@ + "XFS without reflink (full-copy snapshots)"@
        =~= "Backing filesystem: XFS without reflink (full-copy snapshots)"@);
    let p = "Backing filesystem: "@;
    assert(choice_message(fs).subrange(0, p.len() as int) =~= p);
}

/// The report is read line by line: the first line that has a number of bytes
/// counts, whatever comes after it.
pub proof fn law_reports_are_read_by_line(line: Seq<char>, rest: Seq<char>)
    requires
        forall|i: int| 0 <= i < line.len() ==> #[trigger] line[i] != '\n' && line[i] != '\r',
    ensures
        bytes_in_line(line) matches Some(n) ==> reported_free(line + seq!['\n'] + rest) == n,
        bytes_in_line(line) is None ==> reported_free(line + seq!['\n'] + rest) == reported_free(
            rest,
        ),
        reported_free(Seq::empty()) == 0,
{
    text::law_lines_end_in_line_feeds(line, rest);
    law_first_report_counts(text::lines(rest), line);
}

} // verus!
