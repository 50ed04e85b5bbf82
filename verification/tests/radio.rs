use sentryusb::radio::{
    clamp_lease, hold_lease, lease_answer, max_phone_lease, phone_job, run_radio_job, PollKind, Priority,
    RadioJob, RadioStep, Span, ACTION_REFUSED, ACTOR_STOPPED, LEASE_DROPPED,
    MAX_PHONE_LEASE_SECS,
};

#[test]
fn phone_outranks_sampler() {
    assert!(Priority::Phone > Priority::Sampler);
    let mut v = [Priority::Sampler, Priority::Phone, Priority::Sampler];
    v.sort();
    assert_eq!(v.last(), Some(&Priority::Phone), "phone sorts highest");
}

#[test]
fn job_priority_mapping() {
    let (tx, _rx) = tokio::sync::oneshot::channel::<()>();
    let job: RadioJob<(), _> = RadioJob::PhonePreempt {
        lease: Span::from_secs(5),
        ack: tx,
    };
    assert_eq!(job.priority(), Priority::Phone);
    assert_eq!(
        RadioJob::<(), ()>::Poll(PollKind::Drive).priority(),
        Priority::Sampler
    );
    assert_eq!(RadioJob::<(), ()>::Action(()).priority(), Priority::Sampler);
}

#[test]
fn lease_is_capped_at_30s() {
    assert_eq!(clamp_lease(Span::from_secs(5)), Span::from_secs(5));
    assert_eq!(clamp_lease(Span::from_secs(30)), max_phone_lease());
    assert_eq!(
        clamp_lease(Span::from_secs(120)),
        max_phone_lease(),
        "an over-long request must clamp to 30s so a held lease can't \
         drift the session key to TIME_EXPIRED",
    );
    assert!(MAX_PHONE_LEASE_SECS <= 30);
}

#[test]
fn lease_is_capped_to_the_nanosecond() {
    let just_over = Span { secs: 30, nanos: 1 };
    let just_under = Span { secs: 29, nanos: 999_999_999 };
    assert_eq!(clamp_lease(just_over), Span::from_secs(30));
    assert_eq!(clamp_lease(just_under), just_under);
    assert_eq!(clamp_lease(clamp_lease(just_over)), clamp_lease(just_over));
    assert_eq!(
        clamp_lease(Span { secs: u64::MAX, nanos: 999_999_999 }),
        Span::from_secs(30)
    );
}

#[test]
fn golden_actor_order_equals_legacy_schedule_order() {
    let legacy_literal = [
        PollKind::Drive,
        PollKind::Climate,
        PollKind::Charge,
        PollKind::Closures,
        PollKind::Tires,
    ];
    assert_eq!(
        PollKind::LEGACY_ORDER,
        legacy_literal,
        "actor sub-sampler order must match the legacy tick() walk \
         order byte-for-byte",
    );
}

#[test]
fn golden_actor_order_is_a_total_priority_chain() {
    let mut sorted = PollKind::LEGACY_ORDER;
    sorted.sort();
    assert_eq!(
        sorted,
        PollKind::LEGACY_ORDER,
        "LEGACY_ORDER must be ascending by enum discriminant, matching \
         drive-first .. tires-last priority",
    );
    for pair in PollKind::LEGACY_ORDER.windows(2) {
        assert!(pair[0] < pair[1]);
    }
}

#[test]
fn actor_steps() {
    assert!(matches!(
        run_radio_job(RadioJob::<(), ()>::Poll(PollKind::Tires)),
        RadioStep::Tick(PollKind::Tires)
    ));
    match run_radio_job(RadioJob::<u8, ()>::Action(7)) {
        RadioStep::Refuse { action, error } => {
            assert_eq!(action, 7);
            assert_eq!(error, ACTION_REFUSED);
        }
        _ => panic!("an action is refused"),
    }
    match run_radio_job(phone_job::<(), u8>(Span::from_secs(90), 3)) {
        RadioStep::Grant { hold, ack } => {
            assert_eq!(hold, Span::from_secs(30));
            assert_eq!(ack, 3);
        }
        _ => panic!("a phone is granted a lease"),
    }
    assert_eq!(hold_lease(false, Span::from_secs(3)), None);
    assert_eq!(hold_lease(true, Span::from_secs(3)), Some(Span::from_secs(3)));
}

#[test]
fn lease_answers() {
    assert_eq!(lease_answer(true, Some(5)), Ok(5));
    assert_eq!(lease_answer::<u8>(true, None), Err(LEASE_DROPPED));
    assert_eq!(lease_answer(false, Some(5)), Err(ACTOR_STOPPED));
    assert_eq!(ACTOR_STOPPED, "radio actor task has stopped");
    assert_eq!(LEASE_DROPPED, "radio actor dropped the lease ack");
}
