//! The settings read at start-up, the connection check's conclusions, and the
//! decisions of the update loop.
use vstd::prelude::*;
use vstd::string::*;
use crate::fetch::success_status;
use crate::text::{decimal, parse_unsigned, parse_unsigned_text};

verus! {

broadcast use vstd::string::group_string_axioms;

// ------------------------------------------------------------------ settings

/// A setting that should be a number is not one.
#[derive(Debug, Clone, Copy, PartialEq, Eq, Structural)]
pub enum SettingError {
    NotANumber,
}

/// The text of a setting, or the default when it is not set.
pub open spec fn setting_text(value: Option<Seq<char>>, default: Seq<char>) -> Seq<char> {
    match value {
        Some(v) => v,
        None => default,
    }
}

/// A number of seconds read from `text`, raised to at least one second.
pub open spec fn seconds_from(text: Seq<char>) -> Option<nat> {
    match parse_unsigned(text, u64::MAX as nat) {
        Some(n) => Some(if n == 0 { 1 } else { n }),
        None => None,
    }
}

/// A number of seconds read from a setting is never zero.
pub proof fn law_seconds_positive(text: Seq<char>)
    ensures
        seconds_from(text) matches Some(n) ==> n >= 1,
{
}

/// The seconds read are the number written, raised only from 0 to 1: any text that
/// parses as a `u64` gives that number (or 1 for 0), never a capped or changed one,
/// and the decimal text of any `1 <= n <= u64::MAX` gives back exactly `n`.
pub proof fn law_seconds_are_the_number_given(text: Seq<char>, n: nat)
    ensures
        parse_unsigned(text, u64::MAX as nat) is None ==> seconds_from(text) is None,
        parse_unsigned(text, u64::MAX as nat) matches Some(m) ==> seconds_from(text) == Some(
            if m == 0 { 1nat } else { m },
        ),
        (parse_unsigned(text, u64::MAX as nat) matches Some(m) && m >= 1) ==> seconds_from(text) == parse_unsigned(text, u64::MAX as nat),
        1 <= n <= u64::MAX ==> seconds_from(decimal(n)) == Some(n),
        seconds_from(decimal(0)) == Some(1nat),
{
    if n <= u64::MAX {
        crate::text::law_decimal_round_trip(n, u64::MAX as nat);
    }
    crate::text::law_decimal_round_trip(0, u64::MAX as nat);
}

fn at_least_one_second(text: &str) -> (r: Result<u64, SettingError>)
    ensures
        match seconds_from(text@) {
            Some(n) => r == Ok::<u64, SettingError>(n as u64),
            None => r is Err,
        },
{
    match parse_unsigned_text(text, u64::MAX) {
        Some(n) => Ok(if n == 0 { 1 } else { n }),
        None => Err(SettingError::NotANumber),
    }
}

/// The per-request timeout in seconds (`ADGUARD_TIMEOUT`, by default 5), at least 1.
pub fn timeout_secs(value: Option<&str>) -> (r: Result<u64, SettingError>)
    ensures
        match seconds_from(setting_text(match value { Some(v) => Some(v@), None => None }, "5"@)) {
            Some(n) => r == Ok::<u64, SettingError>(n as u64),
            None => r is Err,
        },
{
    match value {
        Some(v) => at_least_one_second(v),
        None => at_least_one_second("5"),
    }
}

/// The update interval in seconds (`ADGUARD_UPDATE_INTERVAL`, by default 2), at least 1.
pub fn update_interval_secs(value: Option<&str>) -> (r: Result<u64, SettingError>)
    ensures
        match seconds_from(setting_text(match value { Some(v) => Some(v@), None => None }, "2"@)) {
            Some(n) => r == Ok::<u64, SettingError>(n as u64),
            None => r is Err,
        },
{
    match value {
        Some(v) => at_least_one_second(v),
        None => at_least_one_second("2"),
    }
}

/// The most query-log entries fetched per update (`ADGUARD_QUERYLOG_LIMIT`, by default 100).
pub fn query_log_limit(value: Option<&str>) -> (r: Result<u32, SettingError>)
    ensures
        match parse_unsigned(setting_text(match value { Some(v) => Some(v@), None => None }, "100"@), u32::MAX as nat) {
            Some(n) => r == Ok::<u32, SettingError>(n as u32),
            None => r is Err,
        },
{
    let text = match value {
        Some(v) => v,
        None => "100",
    };
    match parse_unsigned_text(text, u32::MAX as u64) {
        Some(n) => Ok(n as u32),
        None => Err(SettingError::NotANumber),
    }
}

/// The protocol to reach the instance with (`ADGUARD_PROTOCOL`, by default `http`).
pub fn protocol_or_default(value: Option<&str>) -> (r: String)
    ensures
        r@ == setting_text(match value { Some(v) => Some(v@), None => None }, "http"@),
{
    match value {
        Some(v) => v.to_owned(),
        None => "http".to_owned(),
    }
}

// -------------------------------------------------------- connection check

/// What the connection check concludes from the reply to the status request.
#[derive(Debug, Clone, Copy, PartialEq, Eq, Structural)]
pub enum ConnectionOutcome {
    /// The instance answered with success: check its version.
    Connected,
    /// The instance answered with another status: the credentials were refused.
    AuthRejected,
    /// No reply came: the check may be retried.
    Unreachable,
}

/// The conclusion for a reply with status `status`, or for no reply (`None`).
pub open spec fn connection_outcome_of(status: Option<u16>) -> ConnectionOutcome {
    match status {
        Some(code) => if success_status(code) {
            ConnectionOutcome::Connected
        } else {
            ConnectionOutcome::AuthRejected
        },
        None => ConnectionOutcome::Unreachable,
    }
}

/// Only a success status (200..=299) connects; every other status a reply can carry,
/// such as 401 or 403 for wrong credentials, is a rejection; no reply at all is
/// "unreachable", the one outcome that is retried.
pub proof fn law_only_success_connects(code: u16)
    ensures
        (connection_outcome_of(Some(code)) == ConnectionOutcome::Connected) <==> (200 <= code && code <= 299),
        !(200 <= code && code <= 299) ==> connection_outcome_of(Some(code)) == ConnectionOutcome::AuthRejected,
        connection_outcome_of(Some(code)) != ConnectionOutcome::Unreachable,
        connection_outcome_of(None) == ConnectionOutcome::Unreachable,
{
}

/// Classifies the reply of the connection check.
pub fn connection_outcome(status: Option<u16>) -> (r: ConnectionOutcome)
    ensures
        r == connection_outcome_of(status),
        r == ConnectionOutcome::Connected <==> (status matches Some(code) && 200 <= code && code <= 299),
        r == ConnectionOutcome::Unreachable <==> status is None,
{
    match status {
        Some(code) => if 200 <= code && code <= 299 {
            ConnectionOutcome::Connected
        } else {
            ConnectionOutcome::AuthRejected
        },
        None => ConnectionOutcome::Unreachable,
    }
}

/// The success message: `AdGuard (VERSION) connection successful!` and a new line,
/// with `mystery version` when the instance reported none.
pub fn connected_message(version: Option<&str>) -> (r: String)
    ensures
        r@ == "AdGuard ("@ + match version {
            Some(v) => v@,
            None => "mystery version"@,
        } + ") connection successful!\n"@,
{
    let mut r = "AdGuard (".to_owned();
    match version {
        Some(v) => r.append(v),
        None => r.append("mystery version"),
    }
    r.append(") connection successful!\n");
    r
}

// ----------------------------------------------------------- update loop

/// The three kinds of data the update loop hands to the interface, in the order
/// it hands them over.
#[derive(Debug, Clone, Copy, PartialEq, Eq, Structural)]
pub enum Channel {
    Queries,
    Stats,
    Status,
}

/// What the update loop learns.
#[derive(Debug, Clone, Copy, PartialEq, Eq, Structural)]
pub enum LoopEvent {
    /// The update interval elapsed.
    Tick,
    /// The interface asked to stop, or went away.
    Shutdown,
    /// Fetching the query log, statistics and status ended; `ok` when all three came.
    Fetched { ok: bool },
    /// Handing one kind of data to the interface ended; `ok` when it was taken.
    Sent { channel: Channel, ok: bool },
}

/// What the update loop does next.
#[derive(Debug, Clone, Copy, PartialEq, Eq, Structural)]
pub enum LoopAction {
    /// Fetch the query log, statistics and status, all or nothing.
    FetchAll,
    /// Hand this kind of the fetched data to the interface.
    Send(Channel),
    /// Wait for the next tick or for shutdown.
    Wait,
    /// Leave the loop.
    Stop,
}

/// The loop's decision on an event: a tick starts a fetch; fetched data is handed
/// over as query log, then statistics, then status, while a failed fetch only skips
/// this update; the loop stops on shutdown or when the interface no longer takes data.
pub open spec fn loop_decision(e: LoopEvent) -> LoopAction {
    match e {
        LoopEvent::Tick => LoopAction::FetchAll,
        LoopEvent::Shutdown => LoopAction::Stop,
        LoopEvent::Fetched { ok } => if ok { LoopAction::Send(Channel::Queries) } else { LoopAction::Wait },
        LoopEvent::Sent { channel, ok } => if !ok {
            LoopAction::Stop
        } else {
            match channel {
                Channel::Queries => LoopAction::Send(Channel::Stats),
                Channel::Stats => LoopAction::Send(Channel::Status),
                Channel::Status => LoopAction::Wait,
            }
        },
    }
}

/// Decides the update loop's next step.
pub fn next_action(e: LoopEvent) -> (a: LoopAction)
    ensures
        a == loop_decision(e),
{
    match e {
        LoopEvent::Tick => LoopAction::FetchAll,
        LoopEvent::Shutdown => LoopAction::Stop,
        LoopEvent::Fetched { ok } => if ok { LoopAction::Send(Channel::Queries) } else { LoopAction::Wait },
        LoopEvent::Sent { channel, ok } => if !ok {
            LoopAction::Stop
        } else {
            match channel {
                Channel::Queries => LoopAction::Send(Channel::Stats),
                Channel::Stats => LoopAction::Send(Channel::Status),
                Channel::Status => LoopAction::Wait,
            }
        },
    }
}

/// Following the loop's decisions from `action`, where the hand-overs it asks for
/// succeed or fail as `sends` says: the data taken by the interface, in order, and
/// whether the loop stopped.
pub open spec fn follow(action: LoopAction, sends: Seq<bool>) -> (Seq<Channel>, bool)
    decreases sends.len(),
{
    match action {
        LoopAction::Send(c) => if sends.len() == 0 {
            (Seq::empty(), false)
        } else {
            let ok = sends[0];
            let (rest, stopped) = follow(loop_decision(LoopEvent::Sent { channel: c, ok }), sends.drop_first());
            (if ok { seq![c] + rest } else { rest }, stopped)
        },
        LoopAction::Stop => (Seq::empty(), true),
        _ => (Seq::empty(), false),
    }
}

/// One update round after a tick: the fetch succeeds or fails as `fetch_ok` says,
/// then the hand-overs go as `sends` says.
pub open spec fn round(fetch_ok: bool, sends: Seq<bool>) -> (Seq<Channel>, bool) {
    follow(loop_decision(LoopEvent::Fetched { ok: fetch_ok }), sends)
}

/// A run of rounds, each a fetch outcome and the outcomes of its hand-overs, up to
/// the round in which the loop stops: all the data taken, in order, and whether it stopped.
pub open spec fn rounds(rs: Seq<(bool, Seq<bool>)>) -> (Seq<Channel>, bool)
    decreases rs.len(),
{
    if rs.len() == 0 {
        (Seq::empty(), false)
    } else {
        let (sent, stopped) = round(rs[0].0, rs[0].1);
        if stopped {
            (sent, true)
        } else {
            let (rest, st) = rounds(rs.drop_first());
            (sent + rest, st)
        }
    }
}

/// The `i`-th kind of data in the repeating order query log, statistics, status.
pub open spec fn channel_at(i: int) -> Channel {
    if i % 3 == 0 {
        Channel::Queries
    } else if i % 3 == 1 {
        Channel::Stats
    } else {
        Channel::Status
    }
}

/// The data taken is the order query log, statistics, status, repeated and cut off
/// somewhere.
pub open spec fn in_cycle(sent: Seq<Channel>) -> bool {
    forall|i: int| 0 <= i < sent.len() ==> #[trigger] sent[i] == channel_at(i)
}

#[verifier::spinoff_prover]
proof fn lemma_round(fetch_ok: bool, sends: Seq<bool>)
    requires
        sends.len() >= 3,
    ensures
        in_cycle(round(fetch_ok, sends).0),
        !fetch_ok ==> round(fetch_ok, sends) == (Seq::<Channel>::empty(), false),
        !round(fetch_ok, sends).1 ==> round(fetch_ok, sends).0.len() == 0 || round(fetch_ok, sends).0.len() == 3,
        fetch_ok && sends[0] && sends[1] && sends[2] ==> round(fetch_ok, sends) == (
            seq![Channel::Queries, Channel::Stats, Channel::Status], false),
        fetch_ok && !(sends[0] && sends[1] && sends[2]) ==> round(fetch_ok, sends).1,
{
    let s1 = sends.drop_first();
    let s2 = s1.drop_first();
    let s3 = s2.drop_first();
    assert(s1[0] == sends[1]);
    assert(s2[0] == sends[2]);
    let f3 = follow(loop_decision(LoopEvent::Sent { channel: Channel::Status, ok: sends[2] }), s3);
    assert(f3 == (Seq::<Channel>::empty(), !sends[2]));
    let f2 = follow(LoopAction::Send(Channel::Status), s2);
    let f1 = follow(LoopAction::Send(Channel::Stats), s1);
    let f0 = follow(LoopAction::Send(Channel::Queries), sends);
    assert(f2.0 =~= if sends[2] { seq![Channel::Status] } else { Seq::empty() });
    assert(follow(LoopAction::Stop, s2) == (Seq::<Channel>::empty(), true));
    assert(follow(LoopAction::Stop, s1) == (Seq::<Channel>::empty(), true));
    if sends[1] {
        assert(loop_decision(LoopEvent::Sent { channel: Channel::Stats, ok: true }) == LoopAction::Send(Channel::Status));
        assert(f1.0 =~= seq![Channel::Stats] + f2.0);
        assert(f1.1 == f2.1);
    } else {
        assert(loop_decision(LoopEvent::Sent { channel: Channel::Stats, ok: false }) == LoopAction::Stop);
        assert(f1 == (Seq::<Channel>::empty(), true));
    }
    if sends[0] {
        assert(loop_decision(LoopEvent::Sent { channel: Channel::Queries, ok: true }) == LoopAction::Send(Channel::Stats));
        assert(f0.0 =~= seq![Channel::Queries] + f1.0);
        assert(f0.1 == f1.1);
    } else {
        assert(loop_decision(LoopEvent::Sent { channel: Channel::Queries, ok: false }) == LoopAction::Stop);
        assert(f0 == (Seq::<Channel>::empty(), true));
    }
    if sends[0] && sends[1] && sends[2] {
        assert(f0.0 =~= seq![Channel::Queries, Channel::Stats, Channel::Status]);
    }
    assert forall|i: int| 0 <= i < f0.0.len() implies #[trigger] f0.0[i] == channel_at(i) by {
        if sends[0] {
            if i == 0 {
            } else if sends[1] {
                if i == 1 {
                } else {
                    assert(f0.0[i] == f2.0[i - 2]);
                }
            }
        }
    }
}

/// Each update is handed over all or nothing: a round whose fetch failed hands
/// nothing over, a round that ends with the loop still running has handed over the
/// query log, then the statistics, then the status, one each, and a round in which a
/// hand-over fails stops the loop. Over any run of rounds the data taken is the order
/// query log, statistics, status repeated, so until the loop stops as many query logs
/// as statistics and statuses have been taken.
#[verifier::spinoff_prover]
pub proof fn law_updates_all_or_nothing(rs: Seq<(bool, Seq<bool>)>)
    requires
        forall|k: int| 0 <= k < rs.len() ==> (#[trigger] rs[k]).1.len() >= 3,
    ensures
        in_cycle(rounds(rs).0),
        !rounds(rs).1 ==> rounds(rs).0.len() % 3 == 0,
        forall|k: int| 0 <= k < rs.len() && !(#[trigger] rs[k]).0 ==> round(rs[k].0, rs[k].1) == (
            Seq::<Channel>::empty(), false),
    decreases rs.len(),
{
    if rs.len() > 0 {
        let r0 = rs[0];
        assert(r0.1.len() >= 3);
        lemma_round(r0.0, r0.1);
        let (sent, stopped) = round(r0.0, r0.1);
        let tail = rs.drop_first();
        assert forall|k: int| 0 <= k < tail.len() implies (#[trigger] tail[k]).1.len() >= 3 by {
            assert(tail[k] == rs[k + 1]);
        }
        law_updates_all_or_nothing(tail);
        if !stopped {
            let rest = rounds(tail).0;
            let all = sent + rest;
            assert forall|i: int| 0 <= i < all.len() implies #[trigger] all[i] == channel_at(i) by {
                if i >= sent.len() {
                    assert(all[i] == rest[i - sent.len()]);
                    assert(rest[i - sent.len()] == channel_at(i - sent.len()));
                    assert((i - sent.len()) % 3 == i % 3);
                }
            }
        }
        assert forall|k: int| 0 <= k < rs.len() && !(#[trigger] rs[k]).0 implies round(rs[k].0, rs[k].1) == (
            Seq::<Channel>::empty(), false) by {
            if k > 0 {
                assert(rs[k] == tail[k - 1]);
            } else {
                lemma_round(rs[0].0, rs[0].1);
            }
        }
    }
}

} // verus!
