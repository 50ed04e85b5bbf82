//! Early bind from the initramfs.
//!
//! On boards with a `dwc3` controller the gadget has to be bound while the
//! controller probes, or the vehicle's port can be left unusable after a cold
//! boot. This module renders the shell scripts that do so. It enables nothing:
//! [`install_early_bind`] refuses every board that has not been validated for
//! it, and the scripts check the experimental flag again at boot.

use vstd::prelude::*;
use vstd::string::*;

use crate::board;
use crate::board::GadgetBoard;

verus! {

/// Where the initramfs hook is installed.
pub const HOOK_PATH: &'static str = "/etc/initramfs-tools/hooks/sentryusb-gadget";

/// Where the bind script that the hook stages is installed.
pub const BIND_SCRIPT_PATH: &'static str =
    "/etc/initramfs-tools/scripts/init-top/sentryusb-gadget";

/// The initramfs hook. It reads the experimental flag from the boot partition
/// and does nothing where the flag is off.
pub const HOOK_SCRIPT: &'static str = r#"#!/bin/sh
# SentryUSB initramfs early-bind hook (scaffold — hardware-gated).
# Binds the USB mass-storage gadget at dwc3 probe time on boards that need it,
# so the Tesla port is not poisoned by a late (userspace-time) bind on cold boot.
#
# SAFETY: this hook no-ops unless SENTRYUSB_EXPERIMENTAL is affirmatively set in
# the boot-partition config. The master flag is re-read here at boot so that
# reverting the flag fully disables early-bind without removing the hook.
set -e

PREREQ=""
prereqs() { echo "$PREREQ"; }
case "$1" in
    prereqs) prereqs; exit 0 ;;
esac

. /usr/share/initramfs-tools/hook-functions

# Re-check the master experimental flag from the boot partition. If it is not
# affirmatively enabled, do nothing — the gadget will be bound later by
# userspace exactly as on a legacy install.
SENTRYUSB_CONF="${rootmnt:-}/boot/firmware/sentryusb.conf"
[ -f "$SENTRYUSB_CONF" ] || SENTRYUSB_CONF="/boot/firmware/sentryusb.conf"
[ -f "$SENTRYUSB_CONF" ] || SENTRYUSB_CONF="/boot/sentryusb.conf"
if [ -f "$SENTRYUSB_CONF" ]; then
    FLAG="$(grep -E '^[[:space:]]*SENTRYUSB_EXPERIMENTAL[[:space:]]*=' "$SENTRYUSB_CONF" | tail -n1 | cut -d= -f2- | tr -d '[:space:]\"'\'' ')"
    case "$(printf '%s' "$FLAG" | tr 'A-Z' 'a-z')" in
        yes|true|1) ;;
        *) exit 0 ;;
    esac
else
    exit 0
fi

# Stage the bind script and the tools it needs into the initramfs image.
copy_exec /etc/initramfs-tools/scripts/init-top/sentryusb-gadget /scripts/init-top/sentryusb-gadget || true

exit 0
"#;

/// The bind script that the hook copies into the initramfs. Like the hook, it
/// does nothing where the experimental flag is off.
pub const BIND_SCRIPT: &'static str = r#"#!/bin/sh
# SentryUSB early-bind boot script (scaffold — hardware-gated).
# Re-checks SENTRYUSB_EXPERIMENTAL and binds the gadget at dwc3 probe time.
set -e

PREREQ=""
prereqs() { echo "$PREREQ"; }
case "$1" in
    prereqs) prereqs; exit 0 ;;
esac

# Re-check the master experimental flag from the boot partition; no-op if off.
SENTRYUSB_CONF="/boot/firmware/sentryusb.conf"
[ -f "$SENTRYUSB_CONF" ] || SENTRYUSB_CONF="/boot/sentryusb.conf"
if [ -f "$SENTRYUSB_CONF" ]; then
    FLAG="$(grep -E '^[[:space:]]*SENTRYUSB_EXPERIMENTAL[[:space:]]*=' "$SENTRYUSB_CONF" | tail -n1 | cut -d= -f2- | tr -d '[:space:]\"'\'' ')"
    case "$(printf '%s' "$FLAG" | tr 'A-Z' 'a-z')" in
        yes|true|1) ;;
        *) exit 0 ;;
    esac
else
    exit 0
fi

# Bind the already-configured gadget to its UDC as soon as the controller has
# probed. Userspace later reconciles/repairs LUNs; this only wins the cold-boot
# race so the Tesla port is not poisoned.
GADGET=/sys/kernel/config/usb_gadget/sentryusb
# TODO(early-bind activation): this is first-wins, the exact host-controller
# mis-bind the runtime select_udc()/select_peripheral_udc() refactor fixes.
# Inert today (this script is scaffold-only, never installed), but BEFORE any
# board's supports_early_bind() flips true this must adopt peripheral-role
# selection (mirror Dwc3RockchipBoard::select_peripheral_udc) so a multi-UDC
# Rockchip board doesn't bind its xhci host controller as the gadget.
if [ -d "$GADGET" ] && [ -d /sys/class/udc ]; then
    UDC="$(ls /sys/class/udc 2>/dev/null | head -n1)"
    [ -n "$UDC" ] && printf '%s' "$UDC" > "$GADGET/UDC" 2>/dev/null || true
fi

exit 0
"#;

/// Why [`install_early_bind`] declined.
#[derive(Debug, Clone, Copy, PartialEq, Eq, Structural)]
pub enum EarlyBindRefusal {
    /// The board has not been validated for early bind.
    Unsupported,
}

impl EarlyBindRefusal {
    /// The refusal in words.
    pub fn message(&self) -> (res: &'static str)
        ensures
            res@ == "early-bind refused: board not validated for cold-cold early-bind"@,
    {
        match self {
            EarlyBindRefusal::Unsupported =>
                "early-bind refused: board not validated for cold-cold early-bind",
        }
    }
}

/// The rendered scripts, ready to be written to disk.
#[derive(Debug)]
pub struct RenderedEarlyBind {
    pub hook_path: &'static str,
    pub hook_script: &'static str,
    pub bind_script_path: &'static str,
    pub bind_script: &'static str,
}

/// What [`install_early_bind`] may answer for a board: the scripts where the
/// board supports early bind, and a refusal everywhere else.
pub open spec fn installs(
    supported: bool,
    res: Result<RenderedEarlyBind, EarlyBindRefusal>,
) -> bool {
    match res {
        Ok(r) => {
            &&& supported
            &&& r.hook_path@ == HOOK_PATH@
            &&& r.hook_script@ == HOOK_SCRIPT@
            &&& r.bind_script_path@ == BIND_SCRIPT_PATH@
            &&& r.bind_script@ == BIND_SCRIPT@
        },
        Err(e) => !supported && e == EarlyBindRefusal::Unsupported,
    }
}

/// Render the early-bind scripts for a board, unless the board does not support
/// early bind.
pub fn install_early_bind<B: GadgetBoard>(board: &B) -> (res: Result<
    RenderedEarlyBind,
    EarlyBindRefusal,
>)
    ensures
        installs(board.knobs().early_bind, res),
{
    if !board.supports_early_bind() {
        return Err(EarlyBindRefusal::Unsupported);
    }
    Ok(
        RenderedEarlyBind {
            hook_path: HOOK_PATH,
            hook_script: HOOK_SCRIPT,
            bind_script_path: BIND_SCRIPT_PATH,
            bind_script: BIND_SCRIPT,
        },
    )
}

/// What came of removing a file.
#[derive(Debug, Clone, PartialEq, Eq)]
pub enum Removal {
    Removed,
    /// There was no such file.
    Missing,
    /// The file could not be removed, for this reason.
    Failed(String),
}

/// `remove`, asked to remove the file at `path`, may answer `answer`.
pub open spec fn may_remove<F: Fn(&str) -> Removal>(
    remove: F,
    path: Seq<char>,
    answer: Removal,
) -> bool {
    exists|p: &str| p@ == path && #[trigger] call_ensures(remove, (p,), answer)
}

/// The hook's removal may end without a failure.
pub open spec fn hook_may_go<F: Fn(&str) -> Removal>(remove: F) -> bool {
    exists|a: Removal| #[trigger] may_remove(remove, HOOK_PATH@, a) && !(a is Failed)
}

/// What [`remove_early_bind`] may answer: success where neither removal failed,
/// and otherwise the first failure.
pub open spec fn removes<F: Fn(&str) -> Removal>(remove: F, res: Result<(), String>) -> bool {
    match res {
        Ok(_) => {
            &&& hook_may_go(remove)
            &&& exists|a: Removal| #[trigger]
                may_remove(remove, BIND_SCRIPT_PATH@, a) && !(a is Failed)
        },
        Err(e) => {
            ||| may_remove(remove, HOOK_PATH@, Removal::Failed(e))
            ||| may_remove(remove, BIND_SCRIPT_PATH@, Removal::Failed(e)) && hook_may_go(remove)
        },
    }
}

/// Remove the hook and the bind script, where they are installed, and nothing
/// else. A missing file is no error. The first failure ends the removal: `remove`
/// need only answer for the bind script where the hook's removal did not fail.
pub fn remove_early_bind<F: Fn(&str) -> Removal>(remove: F) -> (res: Result<(), String>)
    requires
        forall|p: &str| p@ == HOOK_PATH@ ==> #[trigger] call_requires(remove, (p,)),
        hook_may_go(remove) ==> forall|p: &str|
            p@ == BIND_SCRIPT_PATH@ ==> #[trigger] call_requires(remove, (p,)),
    ensures
        removes(remove, res),
{
    let hook: &str = HOOK_PATH;
    let first = remove(hook);
    assert(may_remove(remove, HOOK_PATH@, first)) by {
        assert(call_ensures(remove, (hook,), first));
    }
    match first {
        Removal::Failed(e) => {
            return Err(e);
        },
        _ => {},
    }
    let script: &str = BIND_SCRIPT_PATH;
    let second = remove(script);
    assert(may_remove(remove, BIND_SCRIPT_PATH@, second)) by {
        assert(call_ensures(remove, (script,), second));
    }
    match second {
        Removal::Failed(e) => Err(e),
        _ => Ok(()),
    }
}

/// Removing is idempotent: where both files are gone, so that each removal finds
/// its file missing, removing again succeeds and removes nothing.
pub proof fn law_second_removal_finds_nothing<F: Fn(&str) -> Removal>(
    remove: F,
    res: Result<(), String>,
)
    requires
        removes(remove, res),
        forall|p: &str, a: Removal|
            (p@ == HOOK_PATH@ || p@ == BIND_SCRIPT_PATH@) && #[trigger] call_ensures(
                remove,
                (p,),
                a,
            ) ==> a == Removal::Missing,
    ensures
        res is Ok,
        forall|a: Removal| #[trigger]
            may_remove(remove, HOOK_PATH@, a) || may_remove(remove, BIND_SCRIPT_PATH@, a) ==> a
                == Removal::Missing,
{
}

/// A missing file is never an error: where no removal can fail, the whole
/// succeeds.
pub proof fn law_removal_without_failures_succeeds<F: Fn(&str) -> Removal>(
    remove: F,
    res: Result<(), String>,
)
    requires
        removes(remove, res),
        forall|p: &str, a: Removal|
            (p@ == HOOK_PATH@ || p@ == BIND_SCRIPT_PATH@) && #[trigger] call_ensures(
                remove,
                (p,),
                a,
            ) ==> !(a is Failed),
    ensures
        res is Ok,
{
}

/// Early bind is refused on every recognised board: no flag turns it on.
pub proof fn law_every_board_is_refused(
    board: board::Board,
    res: Result<RenderedEarlyBind, EarlyBindRefusal>,
)
    requires
        installs(board.knobs().early_bind, res),
    ensures
        res == Err::<RenderedEarlyBind, EarlyBindRefusal>(EarlyBindRefusal::Unsupported),
{
    board::law_no_board_binds_early(board);
}

/// Where what a removal answers depends on the path alone, the outcome is told:
/// a failure to remove the hook; else a failure to remove the bind script; else
/// success.
pub proof fn law_first_failure_is_told<F: Fn(&str) -> Removal>(
    remove: F,
    answers: spec_fn(Seq<char>) -> Removal,
    res: Result<(), String>,
)
    requires
        forall|p: &str, a: Removal| #[trigger] call_ensures(remove, (p,), a) ==> a == answers(p@),
        removes(remove, res),
    ensures
        ({
            let hook = answers("/etc/initramfs-tools/hooks/sentryusb-gadget"@);
            let script = answers("/etc/initramfs-tools/scripts/init-top/sentryusb-gadget"@);
            &&& hook matches Removal::Failed(e) ==> (res matches Err(m) && m == e)
            &&& !(hook is Failed) ==> (script matches Removal::Failed(e) ==> (res matches Err(m)
                && m == e))
            &&& res is Ok <==> !(hook is Failed) && !(script is Failed)
        }),
{
    assert forall|path: Seq<char>, a: Removal| #[trigger] may_remove(remove, path, a) implies a
        == answers(path) by {
        let p = choose|p: &str| p@ == path && #[trigger] call_ensures(remove, (p,), a);
        assert(call_ensures(remove, (p,), a));
    }
    match res {
        Ok(_) => {
            let a = choose|a: Removal| #[trigger] may_remove(remove, HOOK_PATH@, a) && !(
            a is Failed);
            let b = choose|b: Removal| #[trigger] may_remove(remove, BIND_SCRIPT_PATH@, b) && !(
            b is Failed);
        },
        Err(e) => {
            if !may_remove(remove, HOOK_PATH@, Removal::Failed(e)) {
                let a = choose|a: Removal| #[trigger] may_remove(remove, HOOK_PATH@, a) && !(
                a is Failed);
            }
        },
    }
}

/// A board that supports early bind gets two scripts, each with its own place.
pub proof fn law_supported_boards_get_the_scripts(
    res: Result<RenderedEarlyBind, EarlyBindRefusal>,
)
    requires
        installs(true, res),
    ensures
        res matches Ok(r) && {
            &&& r.hook_path@ == "/etc/initramfs-tools/hooks/sentryusb-gadget"@
            &&& r.bind_script_path@ == "/etc/initramfs-tools/scripts/init-top/sentryusb-gadget"@
            &&& r.hook_script@ == HOOK_SCRIPT@
            &&& r.bind_script@ == BIND_SCRIPT@
        },
{
}

} // verus!
