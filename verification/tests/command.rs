use sentryusb::command::{
    command_action, command_endpoint, command_reply, command_response, execute, Action,
    Command, CommandResponse, Outcome, Reply, ReplyBody,
};

fn response(ok: bool, message: &str) -> CommandResponse {
    CommandResponse { ok, message: message.to_string() }
}

fn ran() -> Outcome {
    Outcome::ran(None)
}

fn failed(e: &str) -> Outcome {
    Outcome::ran(Some(e.to_string()))
}

#[test]
fn ble_commands_run_their_verbs() {
    for (cmd, verb, label) in [
        (Command::KeepAccessory { on: true }, "keep-accessory-on", "keep-accessory"),
        (Command::KeepAccessory { on: false }, "keep-accessory-off", "keep-accessory"),
        (Command::VehicleWake, "wake", "vehicle wake"),
        (Command::VehicleSentry { on: true }, "sentry-on", "vehicle sentry"),
        (Command::VehicleSentry { on: false }, "sentry-off", "vehicle sentry"),
        (Command::VehicleChargePort { open: true }, "charge-port-open", "vehicle charge-port"),
        (Command::VehicleChargePort { open: false }, "charge-port-close", "vehicle charge-port"),
    ] {
        assert_eq!(command_action(&cmd), Action::BleAction(verb));
        assert_eq!(
            command_response(&cmd, &ran()),
            response(true, &format!("{} ok", label))
        );
        assert_eq!(
            command_response(&cmd, &failed("no radio")),
            response(false, &format!("{} failed: no radio", label))
        );
    }
}

#[test]
fn handlers_are_acknowledged() {
    for (cmd, action, message) in [
        (Command::Reboot, Action::Reboot, "reboot requested"),
        (Command::Shutdown, Action::Shutdown, "shutdown requested"),
        (Command::TriggerSync, Action::TriggerSync, "sync triggered"),
        (Command::KeepAwakeStop, Action::KeepAwakeStop, "keep-awake stopped"),
        (Command::AwayModeDisable, Action::AwayModeDisable, "away mode disabled"),
    ] {
        assert_eq!(command_action(&cmd), action);
        assert_eq!(
            command_response(&cmd, &Outcome::requested()),
            response(true, message)
        );
    }
}

#[test]
fn toggle_follows_the_status() {
    let cmd = Command::ToggleDrives;
    assert_eq!(command_action(&cmd), Action::ToggleDrives);
    let good = Outcome::answered(200, None);
    let bad = Outcome::answered(500, Some("busy".to_string()));
    assert_eq!(command_response(&cmd, &good), response(true, "drives toggled"));
    assert_eq!(command_response(&cmd, &bad), response(false, "drive toggle failed"));
}

#[test]
fn force_poll_signals_the_sampler() {
    let cmd = Command::BleForcePoll;
    assert_eq!(command_action(&cmd), Action::SignalSampler);
    assert_eq!(command_response(&cmd, &ran()), response(true, "state poll queued"));
    assert_eq!(
        command_response(&cmd, &failed("timeout")),
        response(false, "force-poll signal failed: timeout")
    );
}

#[test]
fn keep_awake_defaults() {
    let plain = Command::KeepAwakeStart { mode: None, duration_min: None };
    assert_eq!(
        command_action(&plain),
        Action::KeepAwakeStart { mode: "manual".to_string(), secs: 600 }
    );
    let zero = Command::KeepAwakeStart { mode: Some("drive".to_string()), duration_min: Some(0) };
    assert_eq!(
        command_action(&zero),
        Action::KeepAwakeStart { mode: "drive".to_string(), secs: 1 }
    );
    let most = Command::KeepAwakeStart { mode: None, duration_min: Some(u32::MAX) };
    assert_eq!(
        command_action(&most),
        Action::KeepAwakeStart { mode: "manual".to_string(), secs: 257_698_037_700 }
    );
    assert_eq!(
        command_response(&plain, &Outcome::session(Some("pending".to_string()))),
        response(true, "keep-awake pending")
    );
    assert_eq!(
        command_response(&plain, &Outcome::session(None)),
        response(true, "keep-awake started")
    );
}

#[test]
fn away_mode_body_is_json() {
    let cmd = Command::AwayModeEnable { duration_min: 45 };
    assert_eq!(
        command_action(&cmd),
        Action::AwayModeEnable { body: "{\"duration_min\":45}".to_string() }
    );
    assert_eq!(
        command_action(&Command::AwayModeEnable { duration_min: u32::MAX }),
        Action::AwayModeEnable { body: "{\"duration_min\":4294967295}".to_string() }
    );
    assert_eq!(
        command_response(&cmd, &Outcome::answered(200, None)),
        response(true, "away mode enabled")
    );
    assert_eq!(
        command_response(
            &cmd,
            &Outcome::answered(400, Some("no AP profile".to_string()))
        ),
        response(false, "no AP profile")
    );
    assert_eq!(
        command_response(&cmd, &Outcome::answered(500, None)),
        response(false, "away mode enable failed")
    );
}

#[test]
fn execute_performs_the_action_once() {
    let mut performed = Vec::new();
    let res = execute(&Command::VehicleWake, |a: &Action| {
        performed.push(a.clone());
        Outcome::ran(None)
    });
    assert_eq!(res, response(true, "vehicle wake ok"));
    assert_eq!(performed, vec![Action::BleAction("wake")]);

    let mut performed = Vec::new();
    let start = Command::KeepAwakeStart { mode: None, duration_min: None };
    let res = execute(&start, |a: &Action| {
        performed.push(a.clone());
        Outcome::session(Some("active".to_string()))
    });
    assert!(res.ok);
    assert_eq!(
        performed,
        vec![Action::KeepAwakeStart { mode: "manual".to_string(), secs: 600 }]
    );
}

#[test]
fn endpoint_statuses() {
    assert_eq!(
        command_endpoint(false, Ok(Command::Reboot)),
        Err(Reply {
            status: 404,
            body: ReplyBody::Error("experimental command surface disabled"),
        })
    );
    assert_eq!(
        command_endpoint(true, Err("unknown variant".to_string())),
        Err(Reply {
            status: 400,
            body: ReplyBody::Response(response(false, "invalid command: unknown variant")),
        })
    );
    assert_eq!(command_endpoint(true, Ok(Command::Reboot)), Ok(Command::Reboot));
    assert_eq!(command_reply(response(true, "x")).status, 200);
    assert_eq!(command_reply(response(false, "x")).status, 502);
}
