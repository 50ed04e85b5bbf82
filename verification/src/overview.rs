//! The page-load aggregate.
//!
//! One request stands for the burst of small reads that a dashboard makes when
//! it opens. Each part is the body that its own endpoint would have answered,
//! carried through untouched: the type of bodies is a parameter here. A part
//! that failed is null and is recorded among the errors; it takes nothing else
//! with it.

use vstd::prelude::*;
use vstd::string::*;

use crate::text;

verus! {

/// The HTTP status says success.
pub open spec fn is_success(status: u16) -> bool {
    200 <= status < 300
}

/// What went wrong with a part.
#[derive(Debug, Clone, PartialEq, Eq)]
pub enum ErrorBody<V> {
    /// The body that the handler answered with.
    Answered(V),
    /// An object whose `error` is this message.
    Message(String),
}

/// An error as the client sees it: an object with a `status` and a `body`.
#[derive(Debug, Clone, PartialEq, Eq)]
pub struct ErrorRecord<V> {
    pub status: u16,
    pub body: ErrorBody<V>,
}

/// The outcome of one handler. A missing body is null.
#[derive(Debug, Clone, PartialEq, Eq)]
pub struct Part<V> {
    pub body: Option<V>,
    pub error: Option<ErrorRecord<V>>,
}

impl<V> Part<V> {
    /// The part is a body or an error, and not both.
    pub open spec fn well_formed(&self) -> bool {
        self.body is Some <==> self.error is None
    }

    /// The part failed with this status and message.
    pub open spec fn failed_with(&self, status: u16, message: Seq<char>) -> bool {
        &&& self.body is None
        &&& self.error matches Some(e) && e.status == status && (e.body matches ErrorBody::Message(
            m,
        ) && m@ == message)
    }
}

/// The part that a handler's answer makes: a success is its body, anything else
/// is an error with the status and the body.
pub open spec fn part_of<V>(status: u16, body: V) -> Part<V> {
    if is_success(status) {
        Part { body: Some(body), error: None }
    } else {
        Part {
            body: None,
            error: Some(ErrorRecord { status, body: ErrorBody::Answered(body) }),
        }
    }
}

/// Fold a handler's answer into a part.
pub fn part_from_tuple<V>(status: u16, body: V) -> (res: Part<V>)
    ensures
        res == part_of(status, body),
        res.well_formed(),
{
    if 200 <= status && status < 300 {
        Part { body: Some(body), error: None }
    } else {
        Part {
            body: None,
            error: Some(ErrorRecord { status, body: ErrorBody::Answered(body) }),
        }
    }
}

/// The part that what came of a handler's task makes.
pub open spec fn joins<V>(outcome: Result<(u16, V), String>, part: Part<V>) -> bool {
    match outcome {
        Ok((status, body)) => part == part_of(status, body),
        Err(e) => part.failed_with(500, "handler did not complete: "@ + e@),
    }
}

/// Fold what came of a handler's task into a part. A task that did not complete
/// fails like a handler that answered 500.
pub fn join_part<V>(outcome: Result<(u16, V), String>) -> (res: Part<V>)
    ensures
        joins(outcome, res),
        res.well_formed(),
{
    match outcome {
        Ok((status, body)) => part_from_tuple(status, body),
        Err(e) => Part {
            body: None,
            error: Some(
                ErrorRecord {
                    status: 500,
                    body: ErrorBody::Message(text::cat("handler did not complete: ", &e)),
                },
            ),
        },
    }
}

/// The part that the merged configuration makes.
pub open spec fn shows_config<V>(merged: Result<V, String>, part: Part<V>) -> bool {
    match merged {
        Ok(body) => part == (Part { body: Some(body), error: None }),
        Err(e) => part.failed_with(500, "Failed to read config: "@ + e@),
    }
}

/// Fold the merged configuration into a part.
pub fn config_part<V>(merged: Result<V, String>) -> (res: Part<V>)
    ensures
        shows_config(merged, res),
        res.well_formed(),
{
    match merged {
        Ok(body) => Part { body: Some(body), error: None },
        Err(e) => Part {
            body: None,
            error: Some(
                ErrorRecord {
                    status: 500,
                    body: ErrorBody::Message(text::cat("Failed to read config: ", &e)),
                },
            ),
        },
    }
}

/// The parts of the page.
pub struct Parts<V> {
    pub status: Part<V>,
    pub storage: Part<V>,
    pub drive_stats: Part<V>,
    pub drive_status: Part<V>,
    pub config: Part<V>,
    pub update_status: Part<V>,
}

impl<V> Parts<V> {
    /// The parts with their keys, in order.
    pub open spec fn keyed(&self) -> Seq<(Seq<char>, Part<V>)> {
        seq![
            ("status"@, self.status),
            ("storageBreakdown"@, self.storage),
            ("driveStats"@, self.drive_stats),
            ("driveStatus"@, self.drive_status),
            ("config"@, self.config),
            ("updateStatus"@, self.update_status),
        ]
    }
}

/// The body of the answer: an object with the parts under their keys, and the
/// `errors` under theirs.
#[derive(Debug, Clone, PartialEq, Eq)]
pub struct Envelope<V> {
    pub parts: Vec<(&'static str, Option<V>)>,
    pub errors: Vec<(&'static str, ErrorRecord<V>)>,
}

impl<V> Envelope<V> {
    /// The keys and bodies of the parts.
    pub open spec fn bodies(&self) -> Seq<(Seq<char>, Option<V>)> {
        self.parts@.map_values(|p: (&'static str, Option<V>)| (p.0@, p.1))
    }

    /// The keys and records of the errors.
    pub open spec fn failures(&self) -> Seq<(Seq<char>, ErrorRecord<V>)> {
        self.errors@.map_values(|p: (&'static str, ErrorRecord<V>)| (p.0@, p.1))
    }

    fn add_part(&mut self, key: &'static str, part: Part<V>)
        ensures
            final(self).bodies() == old(self).bodies().push((key@, part.body)),
            final(self).failures() == (match part.error {
                Some(e) => old(self).failures().push((key@, e)),
                None => old(self).failures(),
            }),
    {
        let ghost before = *self;
        self.parts.push((key, part.body));
        match part.error {
            Some(e) => {
                self.errors.push((key, e));
                assert(self.failures() =~= before.failures().push((key@, e)));
            },
            None => {},
        }
        assert(self.bodies() =~= before.bodies().push((key@, part.body)));
    }
}

/// The bodies of keyed parts.
pub open spec fn bodies_of<V>(parts: Seq<(Seq<char>, Part<V>)>) -> Seq<(Seq<char>, Option<V>)> {
    parts.map_values(|p: (Seq<char>, Part<V>)| (p.0, p.1.body))
}

/// The errors of keyed parts, without the parts that have none.
pub open spec fn failures_of<V>(parts: Seq<(Seq<char>, Part<V>)>) -> Seq<
    (Seq<char>, ErrorRecord<V>),
>
    decreases parts.len(),
{
    if parts.len() == 0 {
        Seq::empty()
    } else {
        let before = failures_of(parts.drop_last());
        match parts.last().1.error {
            Some(e) => before.push((parts.last().0, e)),
            None => before,
        }
    }
}

/// Put the parts together.
pub fn assemble<V>(parts: Parts<V>) -> (res: Envelope<V>)
    ensures
        res.bodies() == bodies_of(parts.keyed()),
        res.failures() == failures_of(parts.keyed()),
{
    let ghost k = parts.keyed();
    let mut envelope: Envelope<V> = Envelope { parts: Vec::new(), errors: Vec::new() };
    assert(envelope.bodies() =~= Seq::empty());
    assert(envelope.failures() =~= Seq::empty());
    envelope.add_part("status", parts.status);
    envelope.add_part("storageBreakdown", parts.storage);
    envelope.add_part("driveStats", parts.drive_stats);
    envelope.add_part("driveStatus", parts.drive_status);
    envelope.add_part("config", parts.config);
    envelope.add_part("updateStatus", parts.update_status);
    assert(envelope.bodies() =~= bodies_of(k));
    proof {
        assert(k.take(6) =~= k);
        assert(k.take(6).drop_last() =~= k.take(5));
        assert(k.take(5).drop_last() =~= k.take(4));
        assert(k.take(4).drop_last() =~= k.take(3));
        assert(k.take(3).drop_last() =~= k.take(2));
        assert(k.take(2).drop_last() =~= k.take(1));
        assert(k.take(1).drop_last() =~= k.take(0));
        reveal_with_fuel(failures_of, 8);
    }
    envelope
}

/// How long the answer may be reused: outright for two seconds, and for eight
/// more while it is fetched again.
pub const CACHE_CONTROL: &'static str = "private, max-age=2, stale-while-revalidate=8";

/// What the endpoint answers where it is turned off: an object whose `error` is
/// the message.
#[derive(Debug, Clone, Copy, PartialEq, Eq)]
pub struct Refusal {
    pub status: u16,
    pub error: &'static str,
}

/// Whether the endpoint is turned off. The caller asks this before it runs any
/// handler.
pub fn refuse_overview(experimental: bool) -> (res: Option<Refusal>)
    ensures
        match res {
            Some(r) => !experimental && r.status == 404 && r.error@
                == "experimental overview disabled"@,
            None => experimental,
        },
{
    if experimental {
        None
    } else {
        Some(Refusal { status: 404, error: "experimental overview disabled" })
    }
}

/// What the endpoint answers.
pub struct Overview<V> {
    pub status: u16,
    pub cache_control: &'static str,
    pub envelope: Envelope<V>,
}

/// How the request is answered.
pub open spec fn answers<V>(parts: Parts<V>, page: Overview<V>) -> bool {
    &&& page.status == 200
    &&& page.cache_control@ == CACHE_CONTROL@
    &&& page.envelope.bodies() == bodies_of(parts.keyed())
    &&& page.envelope.failures() == failures_of(parts.keyed())
}

/// Answer the request: 200, whatever became of the parts.
pub fn get_overview<V>(parts: Parts<V>) -> (res: Overview<V>)
    ensures
        answers(parts, res),
{
    Overview { status: 200, cache_control: CACHE_CONTROL, envelope: assemble(parts) }
}

// ---------------------------------------------------------------------------
// Laws
// ---------------------------------------------------------------------------

proof fn lemma_failures<V>(parts: Seq<(Seq<char>, Part<V>)>, key: Seq<char>, e: ErrorRecord<V>)
    ensures
        failures_of(parts).contains((key, e)) <==> exists|i: int|
            0 <= i < parts.len() && (#[trigger] parts[i]).0 == key && parts[i].1.error == Some(e),
    decreases parts.len(),
{
    if parts.len() > 0 {
        let before = parts.drop_last();
        let all = failures_of(parts);
        lemma_failures(before, key, e);
        if all.contains((key, e)) {
            let j = choose|j: int| 0 <= j < all.len() && all[j] == (key, e);
            if j < failures_of(before).len() {
                assert(failures_of(before)[j] == (key, e));
                let i = choose|i: int|
                    0 <= i < before.len() && (#[trigger] before[i]).0 == key && before[i].1.error
                        == Some(e);
                assert(parts[i].0 == key);
            } else {
                assert(parts[parts.len() - 1].0 == key);
            }
        }
        if exists|i: int|
            0 <= i < parts.len() && (#[trigger] parts[i]).0 == key && parts[i].1.error == Some(e) {
            let i = choose|i: int|
                0 <= i < parts.len() && (#[trigger] parts[i]).0 == key && parts[i].1.error == Some(
                    e,
                );
            if i < parts.len() - 1 {
                assert(before[i].0 == key);
                let j = choose|j: int|
                    0 <= j < failures_of(before).len() && failures_of(before)[j] == (key, e);
                assert(all[j] == (key, e));
            } else {
                assert(all.last() == (key, e));
            }
        }
    }
}

/// No part touches another: a part shows up with its own body under its own
/// key, whatever the others are, and an error is recorded under a key exactly
/// where the part with that key failed with it.
pub proof fn law_parts_are_isolated<V>(
    parts: Seq<(Seq<char>, Part<V>)>,
    i: int,
    key: Seq<char>,
    e: ErrorRecord<V>,
)
    requires
        0 <= i < parts.len(),
    ensures
        bodies_of(parts).len() == parts.len(),
        bodies_of(parts)[i] == (parts[i].0, parts[i].1.body),
        failures_of(parts).contains((key, e)) <==> exists|j: int|
            0 <= j < parts.len() && (#[trigger] parts[j]).0 == key && parts[j].1.error == Some(e),
{
    lemma_failures(parts, key, e);
}

/// A handler's answer is either the body of its part, untouched, or the body of
/// its error, untouched, according to its status.
pub proof fn law_bodies_are_verbatim<V>(status: u16, body: V)
    ensures
        is_success(status) ==> part_of(status, body).body == Some(body),
        !is_success(status) ==> part_of(status, body).error == Some(
            ErrorRecord { status, body: ErrorBody::Answered(body) },
        ),
        part_of(status, body).well_formed(),
{
}

/// Every part of the page stands under its own key, six in all, with its body or
/// null.
pub proof fn law_page_shows_each_part<V>(parts: Parts<V>)
    ensures
        ({
            let page = bodies_of(parts.keyed());
            &&& page.len() == 6
            &&& page.contains(("status"@, parts.status.body))
            &&& page.contains(("storageBreakdown"@, parts.storage.body))
            &&& page.contains(("driveStats"@, parts.drive_stats.body))
            &&& page.contains(("driveStatus"@, parts.drive_status.body))
            &&& page.contains(("config"@, parts.config.body))
            &&& page.contains(("updateStatus"@, parts.update_status.body))
        }),
{
    let page = bodies_of(parts.keyed());
    assert(page[0] == ("status"@, parts.status.body));
    assert(page[1] == ("storageBreakdown"@, parts.storage.body));
    assert(page[2] == ("driveStats"@, parts.drive_stats.body));
    assert(page[3] == ("driveStatus"@, parts.drive_status.body));
    assert(page[4] == ("config"@, parts.config.body));
    assert(page[5] == ("updateStatus"@, parts.update_status.body));
}

proof fn lemma_page_keys_differ()
    ensures
        "status"@.len() == 6,
        "storageBreakdown"@.len() == 16,
        "driveStats"@.len() == 10,
        "driveStatus"@.len() == 11,
        "config"@.len() == 6,
        "updateStatus"@.len() == 12,
        "status"@[0] == 's',
        "config"@[0] == 'c',
{
    reveal_strlit("status");
    reveal_strlit("storageBreakdown");
    reveal_strlit("driveStats");
    reveal_strlit("driveStatus");
    reveal_strlit("config");
    reveal_strlit("updateStatus");
}

/// An error stands under a part's key exactly where that part failed with it.
pub proof fn law_page_records_each_failure<V>(parts: Parts<V>, e: ErrorRecord<V>)
    ensures
        ({
            let errors = failures_of(parts.keyed());
            &&& errors.contains(("status"@, e)) <==> parts.status.error == Some(e)
            &&& errors.contains(("storageBreakdown"@, e)) <==> parts.storage.error == Some(e)
            &&& errors.contains(("driveStats"@, e)) <==> parts.drive_stats.error == Some(e)
            &&& errors.contains(("driveStatus"@, e)) <==> parts.drive_status.error == Some(e)
            &&& errors.contains(("config"@, e)) <==> parts.config.error == Some(e)
            &&& errors.contains(("updateStatus"@, e)) <==> parts.update_status.error == Some(e)
        }),
{
    let k = parts.keyed();
    lemma_page_keys_differ();
    lemma_failures(k, "status"@, e);
    lemma_failures(k, "storageBreakdown"@, e);
    lemma_failures(k, "driveStats"@, e);
    lemma_failures(k, "driveStatus"@, e);
    lemma_failures(k, "config"@, e);
    lemma_failures(k, "updateStatus"@, e);
    assert(k[0] == ("status"@, parts.status));
    assert(k[1] == ("storageBreakdown"@, parts.storage));
    assert(k[2] == ("driveStats"@, parts.drive_stats));
    assert(k[3] == ("driveStatus"@, parts.drive_status));
    assert(k[4] == ("config"@, parts.config));
    assert(k[5] == ("updateStatus"@, parts.update_status));
}

/// A handler answers with success exactly where its status is one of the two
/// hundreds; otherwise the status is recorded as it was.
pub proof fn law_status_decides<V>(status: u16, body: V)
    ensures
        200 <= status <= 299 ==> part_of(status, body) == (Part { body: Some(body), error: None }),
        status < 200 || status > 299 ==> part_of(status, body) == (Part {
            body: None,
            error: Some(ErrorRecord { status, body: ErrorBody::Answered(body) }),
        }),
{
}

/// A task that did not complete, or a configuration that cannot be read, is a
/// failure with status 500 that tells the cause at its end; what did come back
/// is judged by its own status.
pub proof fn law_lost_parts_are_500s<V>(
    outcome: Result<(u16, V), String>,
    joined: Part<V>,
    merged: Result<V, String>,
    config: Part<V>,
)
    requires
        joins(outcome, joined),
        shows_config(merged, config),
    ensures
        joined.body is Some <==> (outcome matches Ok((status, _)) && 200 <= status <= 299),
        outcome matches Ok((_, body)) ==> (joined.body is Some ==> joined.body == Some(body)),
        outcome matches Err(e) ==> (joined.error matches Some(r) && r.status == 500 && (
        r.body matches ErrorBody::Message(m) && m@ == "handler did not complete: "@ + e@)),
        merged matches Ok(body) ==> config.body == Some(body) && config.error is None,
        merged matches Err(e) ==> config.body is None && (config.error matches Some(r) && r.status
            == 500 && (r.body matches ErrorBody::Message(m) && m@ == "Failed to read config: "@
            + e@)),
{
}

/// How long the answer may be reused.
pub proof fn law_answers_are_reused_briefly()
    ensures
        CACHE_CONTROL@ == "private, max-age=2, stale-while-revalidate=8"@,
{
}

/// The body of the answer says what it holds, in order.
pub proof fn law_envelopes_say_what_they_hold<V>(envelope: Envelope<V>, i: int)
    ensures
        envelope.bodies().len() == envelope.parts@.len(),
        0 <= i < envelope.parts@.len() ==> envelope.bodies()[i] == (
            envelope.parts@[i].0@,
            envelope.parts@[i].1,
        ),
        envelope.failures().len() == envelope.errors@.len(),
        0 <= i < envelope.errors@.len() ==> envelope.failures()[i] == (
            envelope.errors@[i].0@,
            envelope.errors@[i].1,
        ),
{
}

/// The page is answered with 200 and may be reused, however many of its parts
/// failed, and it has exactly those parts and failures.
pub proof fn law_page_is_answered_whatever_failed<V>(parts: Parts<V>, page: Overview<V>)
    requires
        answers(parts, page),
    ensures
        page.status == 200,
        page.cache_control@ == "private, max-age=2, stale-while-revalidate=8"@,
        page.envelope.bodies() == bodies_of(parts.keyed()),
        page.envelope.failures() == failures_of(parts.keyed()),
{
}

} // verus!
