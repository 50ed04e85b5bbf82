//! The command surface.
//!
//! [`Command`] is the one description of what the device does on behalf of a
//! user. Every transport reads the same type and goes through the same two
//! functions: [`command_action`] says what the caller performs, and
//! [`command_response`] says what it answers once that is done. So no transport
//! can offer another set of actions or read a parameter differently.

use vstd::prelude::*;
use vstd::string::*;

use crate::overview;
use crate::text;

verus! {

/// The program that sends a verb to the vehicle.
pub const BLE_ACTION_BIN: &'static str = "/root/bin/sentryusb-ble-action";

/// How many seconds [`BLE_ACTION_BIN`] may take.
pub const BLE_ACTION_TIMEOUT_SECS: u64 = 30;

/// How many seconds signalling the sampler may take.
pub const SIGNAL_TIMEOUT_SECS: u64 = 5;

/// An action that the device exposes.
#[derive(Debug, Clone, PartialEq, Eq)]
pub enum Command {
    /// Reboot the device.
    Reboot,
    /// Power the device off.
    Shutdown,
    /// Toggle the USB mass-storage gadget.
    ToggleDrives,
    /// Start an archive cycle now.
    TriggerSync,
    /// Keep the car's accessory rail powered, or release it.
    KeepAccessory { on: bool },
    /// Ask the sampler for a full poll now.
    BleForcePoll,
    /// Wake the vehicle.
    VehicleWake,
    /// Turn the vehicle's Sentry mode on or off.
    VehicleSentry { on: bool },
    /// Open or close the charge port.
    VehicleChargePort { open: bool },
    /// Start a keep-awake session. The mode is a label and defaults to
    /// `manual`; the duration defaults to ten minutes.
    KeepAwakeStart { mode: Option<String>, duration_min: Option<u32> },
    /// End the keep-awake session.
    KeepAwakeStop,
    /// Enable Away Mode for some minutes.
    AwayModeEnable { duration_min: u32 },
    /// Disable Away Mode.
    AwayModeDisable,
}

/// The answer to a [`Command`].
#[derive(Debug, Clone, PartialEq, Eq)]
pub struct CommandResponse {
    pub ok: bool,
    pub message: String,
}

impl CommandResponse {
    /// The response has this outcome and message.
    pub open spec fn says(&self, ok: bool, message: Seq<char>) -> bool {
        self.ok == ok && self.message@ == message
    }

    fn ok(message: String) -> (res: CommandResponse)
        ensures
            res.says(true, message@),
    {
        CommandResponse { ok: true, message }
    }

    fn err(message: String) -> (res: CommandResponse)
        ensures
            res.says(false, message@),
    {
        CommandResponse { ok: false, message }
    }
}

// ---------------------------------------------------------------------------
// Actions
// ---------------------------------------------------------------------------

/// What the caller performs for a command.
#[derive(Debug, Clone, PartialEq, Eq)]
pub enum Action {
    /// Call the reboot handler.
    Reboot,
    /// Call the shutdown handler.
    Shutdown,
    /// Call the handler that toggles the drives.
    ToggleDrives,
    /// Call the handler that starts an archive cycle.
    TriggerSync,
    /// Run [`BLE_ACTION_BIN`] with this verb.
    BleAction(&'static str),
    /// Send the sampler its wake-up signal.
    SignalSampler,
    /// Start a keep-awake session with this label, for this many seconds.
    KeepAwakeStart { mode: String, secs: u64 },
    /// End the keep-awake session.
    KeepAwakeStop,
    /// Call the handler that enables Away Mode with this request body.
    AwayModeEnable { body: String },
    /// Call the handler that disables Away Mode.
    AwayModeDisable,
}

/// What an [`Action`] says.
pub enum ActionView {
    Reboot,
    Shutdown,
    ToggleDrives,
    TriggerSync,
    BleAction(Seq<char>),
    SignalSampler,
    KeepAwakeStart { mode: Seq<char>, secs: u64 },
    KeepAwakeStop,
    AwayModeEnable { body: Seq<char> },
    AwayModeDisable,
}

impl View for Action {
    type V = ActionView;

    open spec fn view(&self) -> ActionView {
        match self {
            Action::Reboot => ActionView::Reboot,
            Action::Shutdown => ActionView::Shutdown,
            Action::ToggleDrives => ActionView::ToggleDrives,
            Action::TriggerSync => ActionView::TriggerSync,
            Action::BleAction(verb) => ActionView::BleAction(verb@),
            Action::SignalSampler => ActionView::SignalSampler,
            Action::KeepAwakeStart { mode, secs } => ActionView::KeepAwakeStart {
                mode: mode@,
                secs: *secs,
            },
            Action::KeepAwakeStop => ActionView::KeepAwakeStop,
            Action::AwayModeEnable { body } => ActionView::AwayModeEnable { body: body@ },
            Action::AwayModeDisable => ActionView::AwayModeDisable,
        }
    }
}

/// What `systemctl` is called with to signal the sampler.
pub const SIGNAL_ARGS: [&'static str; 4] = ["kill", "-s", "SIGUSR1", "sentryusb-telemetry"];

/// A key that stands in a JSON text as it is: lower-case letters and
/// underscores alone.
pub open spec fn plain_key(key: Seq<char>) -> bool {
    forall|i: int|
        0 <= i < key.len() ==> ('a' <= (#[trigger] key[i]) && key[i] <= 'z') || key[i] == '_'
}

/// The JSON text of an object with one number.
pub open spec fn object_text(key: Seq<char>, n: nat) -> Seq<char> {
    "{\""@ + key + "\":"@ + text::decimal(n) + "}"@
}

/// `serde_json::Value::to_string` on an object that holds `n` under `key`: the
/// compact form, with the key in quotes and the number in decimal. A key of
/// lower-case letters and underscores has nothing to escape.
#[verifier::external_body]
fn json_object(key: &str, n: u32) -> (res: String)
    requires
        plain_key(key@),
    ensures
        res@ == object_text(key@, n as nat),
{
    let mut fields = serde_json::Map::new();
    fields.insert(key.to_string(), serde_json::Value::from(n));
    serde_json::Value::Object(fields).to_string()
}

/// How long a keep-awake session lasts, in seconds: at least one.
pub open spec fn awake_secs(duration_min: Option<u32>) -> u64 {
    let minutes = match duration_min {
        Some(n) => n,
        None => 10u32,
    };
    if minutes == 0 {
        1
    } else {
        (minutes * 60) as u64
    }
}

/// The label of a keep-awake session.
pub open spec fn awake_mode(mode: Option<String>) -> Seq<char> {
    match mode {
        Some(m) => m@,
        None => "manual"@,
    }
}

/// The action of a command.
pub open spec fn action_of(cmd: Command) -> ActionView {
    match cmd {
        Command::Reboot => ActionView::Reboot,
        Command::Shutdown => ActionView::Shutdown,
        Command::ToggleDrives => ActionView::ToggleDrives,
        Command::TriggerSync => ActionView::TriggerSync,
        Command::KeepAccessory { on } => ActionView::BleAction(
            if on {
                "keep-accessory-on"@
            } else {
                "keep-accessory-off"@
            },
        ),
        Command::BleForcePoll => ActionView::SignalSampler,
        Command::VehicleWake => ActionView::BleAction("wake"@),
        Command::VehicleSentry { on } => ActionView::BleAction(
            if on {
                "sentry-on"@
            } else {
                "sentry-off"@
            },
        ),
        Command::VehicleChargePort { open } => ActionView::BleAction(
            if open {
                "charge-port-open"@
            } else {
                "charge-port-close"@
            },
        ),
        Command::KeepAwakeStart { mode, duration_min } => ActionView::KeepAwakeStart {
            mode: awake_mode(mode),
            secs: awake_secs(duration_min),
        },
        Command::KeepAwakeStop => ActionView::KeepAwakeStop,
        Command::AwayModeEnable { duration_min } => ActionView::AwayModeEnable {
            body: object_text("duration_min"@, duration_min as nat),
        },
        Command::AwayModeDisable => ActionView::AwayModeDisable,
    }
}

/// Say what to perform for a command.
pub fn command_action(cmd: &Command) -> (res: Action)
    ensures
        res@ == action_of(*cmd),
{
    match cmd {
        Command::Reboot => Action::Reboot,
        Command::Shutdown => Action::Shutdown,
        Command::ToggleDrives => Action::ToggleDrives,
        Command::TriggerSync => Action::TriggerSync,
        Command::KeepAccessory { on } => if *on {
            Action::BleAction("keep-accessory-on")
        } else {
            Action::BleAction("keep-accessory-off")
        },
        Command::BleForcePoll => Action::SignalSampler,
        Command::VehicleWake => Action::BleAction("wake"),
        Command::VehicleSentry { on } => if *on {
            Action::BleAction("sentry-on")
        } else {
            Action::BleAction("sentry-off")
        },
        Command::VehicleChargePort { open } => if *open {
            Action::BleAction("charge-port-open")
        } else {
            Action::BleAction("charge-port-close")
        },
        Command::KeepAwakeStart { mode, duration_min } => {
            let label = match mode {
                Some(m) => m.clone(),
                None => "manual".to_owned(),
            };
            let minutes: u32 = match duration_min {
                Some(n) => *n,
                None => 10,
            };
            let whole: u64 = (minutes as u64) * 60;
            let secs: u64 = if whole < 1 {
                1
            } else {
                whole
            };
            Action::KeepAwakeStart { mode: label, secs }
        },
        Command::KeepAwakeStop => Action::KeepAwakeStop,
        Command::AwayModeEnable { duration_min } => {
            proof {
                reveal_strlit("duration_min");
            }
            Action::AwayModeEnable { body: json_object("duration_min", *duration_min) }
        },
        Command::AwayModeDisable => Action::AwayModeDisable,
    }
}

// ---------------------------------------------------------------------------
// Responses
// ---------------------------------------------------------------------------

/// What came of an action. A response looks only at what its action reports.
#[derive(Debug, PartialEq, Eq)]
pub struct Outcome {
    /// The status that a handler answered with.
    pub status: u16,
    /// The `error` text in a handler's answer, where it has one.
    pub error: Option<String>,
    /// Why a program failed, where it did.
    pub failure: Option<String>,
    /// The state of a session, where it could be told.
    pub state: Option<String>,
}

impl Outcome {
    /// What a handler's answer reports.
    pub open spec fn of_answer(status: u16, error: Option<String>) -> Outcome {
        Outcome { status, error, failure: None, state: None }
    }

    /// What a program's run reports.
    pub open spec fn of_program(failure: Option<String>) -> Outcome {
        Outcome { status: 200, error: None, failure, state: None }
    }

    /// What the start of a session reports.
    pub open spec fn of_session(state: Option<String>) -> Outcome {
        Outcome { status: 200, error: None, failure: None, state }
    }

    /// The action was asked for; there is nothing more to tell.
    pub fn requested() -> (res: Outcome)
        ensures
            res == (Outcome { status: 200, error: None, failure: None, state: None }),
    {
        Outcome { status: 200, error: None, failure: None, state: None }
    }

    /// A handler answered.
    pub fn answered(status: u16, error: Option<String>) -> (res: Outcome)
        ensures
            res == Outcome::of_answer(status, error),
    {
        Outcome { status, error, failure: None, state: None }
    }

    /// A program ran, or failed for this reason.
    pub fn ran(failure: Option<String>) -> (res: Outcome)
        ensures
            res == Outcome::of_program(failure),
    {
        Outcome { status: 200, error: None, failure, state: None }
    }

    /// A session was started and is in this state.
    pub fn session(state: Option<String>) -> (res: Outcome)
        ensures
            res == Outcome::of_session(state),
    {
        Outcome { status: 200, error: None, failure: None, state }
    }
}

/// How a BLE command is called in its response.
pub open spec fn ble_label(cmd: Command) -> Seq<char> {
    match cmd {
        Command::KeepAccessory { .. } => "keep-accessory"@,
        Command::VehicleWake => "vehicle wake"@,
        Command::VehicleSentry { .. } => "vehicle sentry"@,
        _ => "vehicle charge-port"@,
    }
}

/// Whether the command succeeded, and what is said about it.
pub open spec fn response_of(cmd: Command, outcome: Outcome) -> (bool, Seq<char>) {
    match cmd {
        Command::Reboot => (true, "reboot requested"@),
        Command::Shutdown => (true, "shutdown requested"@),
        Command::ToggleDrives => if overview::is_success(outcome.status) {
            (true, "drives toggled"@)
        } else {
            (false, "drive toggle failed"@)
        },
        Command::TriggerSync => (true, "sync triggered"@),
        Command::BleForcePoll => match outcome.failure {
            None => (true, "state poll queued"@),
            Some(e) => (false, "force-poll signal failed: "@ + e@),
        },
        Command::KeepAwakeStart { .. } => match outcome.state {
            Some(state) => (true, "keep-awake "@ + state@),
            None => (true, "keep-awake "@ + "started"@),
        },
        Command::KeepAwakeStop => (true, "keep-awake stopped"@),
        Command::AwayModeEnable { .. } => if overview::is_success(outcome.status) {
            (true, "away mode enabled"@)
        } else {
            match outcome.error {
                Some(e) => (false, e@),
                None => (false, "away mode enable failed"@),
            }
        },
        Command::AwayModeDisable => (true, "away mode disabled"@),
        _ => match outcome.failure {
            None => (true, ble_label(cmd) + " ok"@),
            Some(e) => (false, ble_label(cmd) + " failed: "@ + e@),
        },
    }
}

/// The response to a verb that was sent to the vehicle.
fn run_ble_action(label: &str, outcome: &Outcome) -> (res: CommandResponse)
    ensures
        match outcome.failure {
            None => res.says(true, label@ + " ok"@),
            Some(e) => res.says(false, label@ + " failed: "@ + e@),
        },
{
    match &outcome.failure {
        None => CommandResponse::ok(text::cat(label, " ok")),
        Some(e) => CommandResponse::err(text::cat(&text::cat(label, " failed: "), e)),
    }
}

/// Say what to answer to a command, once its action has had this outcome.
pub fn command_response(cmd: &Command, outcome: &Outcome) -> (res: CommandResponse)
    ensures
        res.says(response_of(*cmd, *outcome).0, response_of(*cmd, *outcome).1),
{
    let good = 200 <= outcome.status && outcome.status < 300;
    match cmd {
        Command::Reboot => CommandResponse::ok("reboot requested".to_owned()),
        Command::Shutdown => CommandResponse::ok("shutdown requested".to_owned()),
        Command::ToggleDrives => if good {
            CommandResponse::ok("drives toggled".to_owned())
        } else {
            CommandResponse::err("drive toggle failed".to_owned())
        },
        Command::TriggerSync => CommandResponse::ok("sync triggered".to_owned()),
        Command::KeepAccessory { .. } => run_ble_action("keep-accessory", outcome),
        Command::VehicleWake => run_ble_action("vehicle wake", outcome),
        Command::VehicleSentry { .. } => run_ble_action("vehicle sentry", outcome),
        Command::VehicleChargePort { .. } => run_ble_action("vehicle charge-port", outcome),
        Command::BleForcePoll => match &outcome.failure {
            None => CommandResponse::ok("state poll queued".to_owned()),
            Some(e) => CommandResponse::err(text::cat("force-poll signal failed: ", e)),
        },
        Command::KeepAwakeStart { .. } => match &outcome.state {
            Some(state) => CommandResponse::ok(text::cat("keep-awake ", state)),
            None => CommandResponse::ok(text::cat("keep-awake ", "started")),
        },
        Command::KeepAwakeStop => CommandResponse::ok("keep-awake stopped".to_owned()),
        Command::AwayModeEnable { .. } => if good {
            CommandResponse::ok("away mode enabled".to_owned())
        } else {
            match &outcome.error {
                Some(e) => CommandResponse::err(e.clone()),
                None => CommandResponse::err("away mode enable failed".to_owned()),
            }
        },
        Command::AwayModeDisable => CommandResponse::ok("away mode disabled".to_owned()),
    }
}

/// The response to a command whose action is performed by `perform`.
pub open spec fn executes<P: FnOnce(&Action) -> Outcome>(
    cmd: Command,
    perform: P,
    res: CommandResponse,
) -> bool {
    exists|a: &Action, o: Outcome|
        a@ == action_of(cmd) && #[trigger] call_ensures(perform, (a,), o) && res.says(
            response_of(cmd, o).0,
            response_of(cmd, o).1,
        )
}

/// Dispatch a command: have its action performed, once and no other, and answer
/// with what came of it.
pub fn execute<P: FnOnce(&Action) -> Outcome>(cmd: &Command, perform: P) -> (res: CommandResponse)
    requires
        forall|a: &Action| a@ == action_of(*cmd) ==> #[trigger] call_requires(perform, (a,)),
    ensures
        executes(*cmd, perform, res),
{
    let action = command_action(cmd);
    let outcome = perform(&action);
    assert(call_ensures(perform, (&action,), outcome));
    command_response(cmd, &outcome)
}

// ---------------------------------------------------------------------------
// The endpoint
// ---------------------------------------------------------------------------

/// The body of an answer.
#[derive(Debug, Clone, PartialEq, Eq)]
pub enum ReplyBody {
    /// An object whose `error` is this message.
    Error(&'static str),
    /// A response.
    Response(CommandResponse),
}

/// An answer of the endpoint.
#[derive(Debug, Clone, PartialEq, Eq)]
pub struct Reply {
    pub status: u16,
    pub body: ReplyBody,
}

/// What is done with a request.
pub open spec fn admits(
    experimental: bool,
    parsed: Result<Command, String>,
    res: Result<Command, Reply>,
) -> bool {
    if !experimental {
        res matches Err(r) && r.status == 404 && (r.body matches ReplyBody::Error(m) && m@
            == "experimental command surface disabled"@)
    } else {
        match parsed {
            Ok(cmd) => res == Ok::<Command, Reply>(cmd),
            Err(e) => res matches Err(r) && r.status == 400 && (
            r.body matches ReplyBody::Response(c) && c.says(false, "invalid command: "@ + e@)),
        }
    }
}

/// Decide what to do with a request: `parsed` is the command that its body
/// says, or why it says none. Where the experimental flag is off, or the body
/// says no command, nothing is performed and the request is answered at once.
pub fn command_endpoint(experimental: bool, parsed: Result<Command, String>) -> (res: Result<
    Command,
    Reply,
>)
    ensures
        admits(experimental, parsed, res),
{
    if !experimental {
        return Err(
            Reply {
                status: 404,
                body: ReplyBody::Error("experimental command surface disabled"),
            },
        );
    }
    match parsed {
        Ok(cmd) => Ok(cmd),
        Err(e) => Err(
            Reply {
                status: 400,
                body: ReplyBody::Response(
                    CommandResponse::err(text::cat("invalid command: ", &e)),
                ),
            },
        ),
    }
}

/// How a request whose command was performed is answered.
pub open spec fn replies(response: CommandResponse, reply: Reply) -> bool {
    &&& reply.status == (if response.ok {
        200u16
    } else {
        502u16
    })
    &&& reply.body == ReplyBody::Response(response)
}

/// Answer a request whose command was performed: 200 where it succeeded, 502
/// where it failed.
pub fn command_reply(response: CommandResponse) -> (res: Reply)
    ensures
        replies(response, res),
{
    let status: u16 = if response.ok {
        200
    } else {
        502
    };
    Reply { status, body: ReplyBody::Response(response) }
}

// ---------------------------------------------------------------------------
// Laws
// ---------------------------------------------------------------------------

/// Two commands that send the vehicle the same verb are the same command.
pub proof fn law_verbs_tell_commands_apart(a: Command, b: Command, verb: Seq<char>)
    requires
        action_of(a) == ActionView::BleAction(verb),
        action_of(b) == ActionView::BleAction(verb),
    ensures
        a == b,
{
    reveal_strlit("keep-accessory-on");
    reveal_strlit("keep-accessory-off");
    reveal_strlit("wake");
    reveal_strlit("sentry-on");
    reveal_strlit("sentry-off");
    reveal_strlit("charge-port-open");
    reveal_strlit("charge-port-close");
    assert("keep-accessory-on"@.len() == 17 && "keep-accessory-on"@[0] == 'k');
    assert("keep-accessory-off"@.len() == 18);
    assert("wake"@.len() == 4);
    assert("sentry-on"@.len() == 9);
    assert("sentry-off"@.len() == 10);
    assert("charge-port-open"@.len() == 16);
    assert("charge-port-close"@.len() == 17 && "charge-port-close"@[0] == 'c');
}

/// A keep-awake session lasts as many minutes as asked for, ten where no number
/// is given, and a second at the least.
pub proof fn law_sessions_last(duration_min: Option<u32>)
    ensures
        awake_secs(duration_min) >= 1,
        duration_min matches Some(n) ==> (n > 0 ==> awake_secs(duration_min) == n * 60),
        duration_min is None ==> awake_secs(duration_min) == 600,
{
}

/// Away Mode is asked for as many minutes as the command says: the body is a
/// JSON object whose only key is `duration_min`, and its digits read back as
/// that number.
pub proof fn law_away_mode_lasts_as_asked(n: u32)
    ensures
        action_of(Command::AwayModeEnable { duration_min: n }) matches ActionView::AwayModeEnable {
            body,
        } && {
            let digits = body.subrange(16, body.len() - 1);
            &&& body.len() >= 18
            &&& body.take(16) == "{\"duration_min\":"@
            &&& body.last() == '}'
            &&& forall|i: int|
                0 <= i < digits.len() ==> 48 <= (#[trigger] digits[i]) as int <= 57
            &&& digits.len() > 1 ==> digits[0] != '0'
            &&& text::digits_value(digits) == n
        },
{
    let body = object_text("duration_min"@, n as nat);
    let number = text::decimal(n as nat);
    reveal_strlit("{\"");
    reveal_strlit("duration_min");
    reveal_strlit("\":");
    reveal_strlit("{\"duration_min\":");
    reveal_strlit("}");
    text::lemma_decimal_reads_back(n as nat);
    if n > 0 {
        text::law_decimal_is_positional(n as nat, 0);
    }
    assert(body.take(16) =~= "{\"duration_min\":"@);
    assert(body.subrange(16, body.len() - 1) =~= number);
}

/// Two durations of Away Mode never make the same request.
pub proof fn law_away_requests_differ(a: u32, b: u32)
    ensures
        action_of(Command::AwayModeEnable { duration_min: a }) == action_of(
            Command::AwayModeEnable { duration_min: b },
        ) ==> a == b,
{
    law_away_mode_lasts_as_asked(a);
    law_away_mode_lasts_as_asked(b);
}

/// A keep-awake session goes by the label it was given, or `manual`, and lasts
/// sixty seconds for each minute asked for: ten minutes where none are given,
/// and one second where none are wanted.
pub proof fn law_keep_awake_as_asked(mode: Option<String>, duration_min: Option<u32>)
    ensures
        action_of(
            Command::KeepAwakeStart { mode, duration_min },
        ) matches ActionView::KeepAwakeStart { mode: label, secs } && {
            &&& mode matches Some(m) ==> label == m@
            &&& mode is None ==> label == "manual"@
            &&& duration_min matches Some(n) ==> (n > 0 ==> secs == n * 60)
            &&& duration_min == Some(0u32) ==> secs == 1
            &&& duration_min is None ==> secs == 10 * 60
        },
{
}

/// Each command has its action, and no other command has the same kind of
/// action but for the verbs that are sent to the vehicle.
pub proof fn law_actions_belong_to_commands(cmd: Command)
    ensures
        action_of(cmd) is Reboot <==> cmd is Reboot,
        action_of(cmd) is Shutdown <==> cmd is Shutdown,
        action_of(cmd) is ToggleDrives <==> cmd is ToggleDrives,
        action_of(cmd) is TriggerSync <==> cmd is TriggerSync,
        action_of(cmd) is SignalSampler <==> cmd is BleForcePoll,
        action_of(cmd) is KeepAwakeStart <==> cmd is KeepAwakeStart,
        action_of(cmd) is KeepAwakeStop <==> cmd is KeepAwakeStop,
        action_of(cmd) is AwayModeEnable <==> cmd is AwayModeEnable,
        action_of(cmd) is AwayModeDisable <==> cmd is AwayModeDisable,
        action_of(cmd) is BleAction <==> (cmd is KeepAccessory || cmd is VehicleWake
            || cmd is VehicleSentry || cmd is VehicleChargePort),
{
}

/// The verb that is sent to the vehicle says what is acted on and which way: its
/// end is `on` or `off`, `open` or `close`, as the command has it.
pub proof fn law_verbs_say_which_way(on: bool)
    ensures
        action_of(Command::KeepAccessory { on }) == ActionView::BleAction(
            "keep-accessory-"@ + (if on {
                "on"@
            } else {
                "off"@
            }),
        ),
        action_of(Command::VehicleSentry { on }) == ActionView::BleAction(
            "sentry-"@ + (if on {
                "on"@
            } else {
                "off"@
            }),
        ),
        action_of(Command::VehicleChargePort { open: on }) == ActionView::BleAction(
            "charge-port-"@ + (if on {
                "open"@
            } else {
                "close"@
            }),
        ),
        action_of(Command::VehicleWake) == ActionView::BleAction("wake"@),
{
    reveal_strlit("keep-accessory-");
    reveal_strlit("keep-accessory-on");
    reveal_strlit("keep-accessory-off");
    reveal_strlit("sentry-");
    reveal_strlit("sentry-on");
    reveal_strlit("sentry-off");
    reveal_strlit("charge-port-");
    reveal_strlit("charge-port-open");
    reveal_strlit("charge-port-close");
    reveal_strlit("on");
    reveal_strlit("off");
    reveal_strlit("open");
    reveal_strlit("close");
    assert("keep-accessory-"@ + "on"@ =~= "keep-accessory-on"@);
    assert("keep-accessory-"@ + "off"@ =~= "keep-accessory-off"@);
    assert("sentry-"@ + "on"@ =~= "sentry-on"@);
    assert("sentry-"@ + "off"@ =~= "sentry-off"@);
    assert("charge-port-"@ + "open"@ =~= "charge-port-open"@);
    assert("charge-port-"@ + "close"@ =~= "charge-port-close"@);
}

/// A command succeeds exactly where what it had done succeeded: a handler by its
/// status, a program by having run; what is only asked for always succeeds.
pub proof fn law_success_follows_the_outcome(cmd: Command, outcome: Outcome)
    ensures
        cmd is ToggleDrives || cmd is AwayModeEnable ==> (response_of(cmd, outcome).0 <==> 200
            <= outcome.status <= 299),
        cmd is KeepAccessory || cmd is BleForcePoll || cmd is VehicleWake || cmd is VehicleSentry
            || cmd is VehicleChargePort ==> (response_of(cmd, outcome).0
            <==> outcome.failure is None),
        cmd is Reboot || cmd is Shutdown || cmd is TriggerSync || cmd is KeepAwakeStart
            || cmd is KeepAwakeStop || cmd is AwayModeDisable ==> response_of(cmd, outcome).0,
{
}

/// What is said of a failure ends in its cause, whatever the cause is; a cause
/// that nobody told is not made up.
pub proof fn law_failures_tell_their_cause(cmd: Command, outcome: Outcome)
    ensures
        ({
            let said = response_of(cmd, outcome).1;
            &&& outcome.failure matches Some(e) ==> {
                &&& cmd is BleForcePoll ==> said == "force-poll signal failed: "@ + e@
                &&& cmd is KeepAccessory ==> said == "keep-accessory failed: "@ + e@
                &&& cmd is VehicleWake ==> said == "vehicle wake failed: "@ + e@
                &&& cmd is VehicleSentry ==> said == "vehicle sentry failed: "@ + e@
                &&& cmd is VehicleChargePort ==> said == "vehicle charge-port failed: "@ + e@
            }
            &&& cmd is AwayModeEnable && !(200 <= outcome.status <= 299) ==> {
                &&& outcome.error matches Some(e) ==> said == e@
                &&& outcome.error is None ==> said == "away mode enable failed"@
            }
            &&& cmd is ToggleDrives && !(200 <= outcome.status <= 299) ==> said
                == "drive toggle failed"@
        }),
{
    reveal_strlit(" failed: ");
    reveal_strlit("keep-accessory");
    reveal_strlit("keep-accessory failed: ");
    reveal_strlit("vehicle wake");
    reveal_strlit("vehicle wake failed: ");
    reveal_strlit("vehicle sentry");
    reveal_strlit("vehicle sentry failed: ");
    reveal_strlit("vehicle charge-port");
    reveal_strlit("vehicle charge-port failed: ");
    assert("keep-accessory"@ + " failed: "@ =~= "keep-accessory failed: "@);
    assert("vehicle wake"@ + " failed: "@ =~= "vehicle wake failed: "@);
    assert("vehicle sentry"@ + " failed: "@ =~= "vehicle sentry failed: "@);
    assert("vehicle charge-port"@ + " failed: "@ =~= "vehicle charge-port failed: "@);
}

/// What is said of a success names what was done; a session tells its state
/// where that could be told.
pub proof fn law_successes_are_named(cmd: Command, outcome: Outcome)
    requires
        response_of(cmd, outcome).0,
    ensures
        ({
            let said = response_of(cmd, outcome).1;
            &&& cmd is Reboot ==> said == "reboot requested"@
            &&& cmd is Shutdown ==> said == "shutdown requested"@
            &&& cmd is ToggleDrives ==> said == "drives toggled"@
            &&& cmd is TriggerSync ==> said == "sync triggered"@
            &&& cmd is KeepAccessory ==> said == "keep-accessory ok"@
            &&& cmd is BleForcePoll ==> said == "state poll queued"@
            &&& cmd is VehicleWake ==> said == "vehicle wake ok"@
            &&& cmd is VehicleSentry ==> said == "vehicle sentry ok"@
            &&& cmd is VehicleChargePort ==> said == "vehicle charge-port ok"@
            &&& cmd is KeepAwakeStart ==> {
                &&& outcome.state matches Some(state) ==> said == "keep-awake "@ + state@
                &&& outcome.state is None ==> said == "keep-awake started"@
            }
            &&& cmd is KeepAwakeStop ==> said == "keep-awake stopped"@
            &&& cmd is AwayModeEnable ==> said == "away mode enabled"@
            &&& cmd is AwayModeDisable ==> said == "away mode disabled"@
        }),
{
    reveal_strlit(" ok");
    reveal_strlit("keep-accessory");
    reveal_strlit("keep-accessory ok");
    reveal_strlit("vehicle wake");
    reveal_strlit("vehicle wake ok");
    reveal_strlit("vehicle sentry");
    reveal_strlit("vehicle sentry ok");
    reveal_strlit("vehicle charge-port");
    reveal_strlit("vehicle charge-port ok");
    reveal_strlit("keep-awake ");
    reveal_strlit("started");
    reveal_strlit("keep-awake started");
    assert("keep-accessory"@ + " ok"@ =~= "keep-accessory ok"@);
    assert("vehicle wake"@ + " ok"@ =~= "vehicle wake ok"@);
    assert("vehicle sentry"@ + " ok"@ =~= "vehicle sentry ok"@);
    assert("vehicle charge-port"@ + " ok"@ =~= "vehicle charge-port ok"@);
    assert("keep-awake "@ + "started"@ =~= "keep-awake started"@);
}

/// A command goes through exactly where the experimental flag is on and the body
/// says one, and it goes through as it is. A request is not even judged where
/// the flag is off; a body that says no command is told why.
pub proof fn law_requests_are_admitted(
    experimental: bool,
    parsed: Result<Command, String>,
    res: Result<Command, Reply>,
)
    requires
        admits(experimental, parsed, res),
    ensures
        res is Ok <==> experimental && parsed is Ok,
        res matches Ok(cmd) ==> (parsed matches Ok(c) && c == cmd),
        !experimental ==> (res matches Err(r) && r.status == 404 && r.body is Error),
        experimental ==> (parsed matches Err(e) ==> (res matches Err(r) && r.status == 400 && (
        r.body matches ReplyBody::Response(c) && !c.ok && c.message@ == "invalid command: "@
            + e@))),
{
}

/// The status of an answer tells whether the command succeeded, and the answer
/// carries the response as it is.
pub proof fn law_replies_carry_the_response(response: CommandResponse, reply: Reply)
    requires
        replies(response, reply),
    ensures
        reply.status == 200 <==> response.ok,
        reply.status == 502 <==> !response.ok,
        reply.body == ReplyBody::Response(response),
{
}

/// The outside programs and how they are called.
pub proof fn law_outside_programs()
    ensures
        BLE_ACTION_BIN@ == "/root/bin/sentryusb-ble-action"@,
        BLE_ACTION_TIMEOUT_SECS == 30,
        SIGNAL_TIMEOUT_SECS == 5,
        SIGNAL_ARGS@[0]@ == "kill"@ && SIGNAL_ARGS@[1]@ == "-s"@,
        SIGNAL_ARGS@[2]@ == "SIGUSR1"@,
        SIGNAL_ARGS@[3]@ == "sentryusb-telemetry"@,
{
}

/// A response says what is in it, and nothing else.
pub proof fn law_responses_say_what_they_hold(
    response: CommandResponse,
    ok: bool,
    message: Seq<char>,
)
    ensures
        response.says(ok, message) <==> response.ok == ok && response.message@ == message,
{
}

/// Where performing a command's action has one outcome, the command is answered
/// with what that outcome calls for; the action is the command's own.
pub proof fn law_commands_are_answered_by_their_outcome<P: FnOnce(&Action) -> Outcome>(
    cmd: Command,
    perform: P,
    outcome: Outcome,
    res: CommandResponse,
)
    requires
        executes(cmd, perform, res),
        forall|a: &Action, o: Outcome| #[trigger] call_ensures(perform, (a,), o) ==> o == outcome,
    ensures
        res.ok == response_of(cmd, outcome).0,
        res.message@ == response_of(cmd, outcome).1,
        exists|a: &Action| a@ == action_of(cmd) && #[trigger] call_ensures(
            perform,
            (a,),
            outcome,
        ),
{
}

/// What is reported of an action is what came of it: a handler's status and
/// error, a program's failure, a session's state.
pub proof fn law_outcomes_report_what_came(
    status: u16,
    error: Option<String>,
    failure: Option<String>,
    state: Option<String>,
    cmd: Command,
)
    ensures
        Outcome::of_answer(status, error).status == status,
        Outcome::of_answer(status, error).error == error,
        Outcome::of_program(failure).failure == failure,
        Outcome::of_session(state).state == state,
        cmd is ToggleDrives ==> (response_of(cmd, Outcome::of_answer(status, error)).0 <==> 200
            <= status <= 299),
        cmd is VehicleWake ==> (response_of(cmd, Outcome::of_program(failure)).0
            <==> failure is None),
{
}

/// An action says what it carries.
pub proof fn law_actions_say_what_they_carry(action: Action)
    ensures
        action matches Action::BleAction(verb) ==> action@ == ActionView::BleAction(verb@),
        action matches Action::KeepAwakeStart { mode, secs } ==> action@
            == (ActionView::KeepAwakeStart { mode: mode@, secs }),
        action matches Action::AwayModeEnable { body } ==> action@ == (ActionView::AwayModeEnable {
            body: body@,
        }),
        action is Reboot <==> action@ is Reboot,
        action is Shutdown <==> action@ is Shutdown,
        action is ToggleDrives <==> action@ is ToggleDrives,
        action is TriggerSync <==> action@ is TriggerSync,
        action is SignalSampler <==> action@ is SignalSampler,
        action is KeepAwakeStop <==> action@ is KeepAwakeStop,
        action is AwayModeDisable <==> action@ is AwayModeDisable,
{
}

} // verus!
