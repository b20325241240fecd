//! Spa-heating push notifications: which milestones to announce on each
//! controller update, and the state that keeps each one from repeating.
//!
//! The daemon reduces every update to a [`SpaHeatReading`] (plain integers and
//! flags, with the trusted-session progress already compared against its
//! thresholds) and feeds it through [`next_milestones`], which advances a
//! [`SpaHeatNotificationState`] and returns the milestones to announce.

use vstd::prelude::*;
use crate::text::{ends_with, int_string, int_text, push_int};

verus! {

#[derive(Debug, Clone, Copy, PartialEq, Eq, Structural)]
pub enum SpaHeatMilestone {
    HeatingStarted,
    EstimateReady,
    Halfway,
    AlmostReady,
    AtTemp,
}

/// Where the spa is in its heating cycle, and which milestones of the current
/// heating session were already announced.
#[derive(Debug, Clone, Copy, PartialEq, Eq, Structural)]
pub enum SpaHeatNotificationState {
    Idle,
    Heating {
        heating_started_sent: bool,
        estimate_ready_sent: bool,
        halfway_sent: bool,
        almost_ready_sent: bool,
        at_temp_sent: bool,
        trusted_session_id: Option<i64>,
    },
    Maintaining { setpoint: i32 },
}

impl Default for SpaHeatNotificationState {
    fn default() -> (s: Self)
        ensures
            s == SpaHeatNotificationState::Idle,
    {
        SpaHeatNotificationState::Idle
    }
}

/// Which notifications are switched on (the flags of the `[notifications.spa_heat]`
/// configuration).
#[derive(Debug, Clone, Copy, PartialEq, Eq, Structural)]
pub struct MilestoneSwitches {
    pub enabled: bool,
    pub heating_started: bool,
    pub estimate_ready: bool,
    pub halfway: bool,
    pub almost_ready: bool,
    pub at_temp: bool,
}

/// Progress of a trusted heating session, already compared with the
/// thresholds: at least half way, at least nine tenths of the way, and whether
/// the session's planned rise is large enough to announce progress at all.
#[derive(Debug, Clone, Copy, PartialEq, Eq, Structural)]
pub struct TrustedProgress {
    pub halfway_reached: bool,
    pub almost_ready_reached: bool,
    pub rise_large_enough: bool,
}

/// One controller update, as the notification logic reads it.
#[derive(Debug, Clone, Copy, PartialEq, Eq, Structural)]
pub struct SpaHeatReading {
    pub spa_on: bool,
    pub heat_mode_off: bool,
    pub heating_active: bool,
    pub current_temp: i32,
    pub target_temp: i32,
    pub minutes_remaining: Option<u32>,
    pub trusted_session_id: Option<i64>,
    /// `None` when there is no trusted session with a positive planned rise.
    pub progress: Option<TrustedProgress>,
}

/// A fresh heating session, announcing `HeatingStarted` when switched on.
pub open spec fn fresh_heating(sw: MilestoneSwitches) -> (SpaHeatNotificationState, Seq<
    SpaHeatMilestone,
>) {
    (
        SpaHeatNotificationState::Heating {
            heating_started_sent: sw.heating_started,
            estimate_ready_sent: false,
            halfway_sent: false,
            almost_ready_sent: false,
            at_temp_sent: false,
            trusted_session_id: None,
        },
        if sw.heating_started {
            seq![SpaHeatMilestone::HeatingStarted]
        } else {
            Seq::empty()
        },
    )
}

/// The progress part of a heating update once the start and estimate
/// milestones are out of the way: a new trusted session re-arms the progress
/// milestones, then halfway / almost-ready / at-temp fire in that order.
pub open spec fn heating_progress_step(
    sw: MilestoneSwitches,
    r: SpaHeatReading,
    hs: bool,
    es: bool,
    half: bool,
    almost: bool,
    at: bool,
    tid: Option<i64>,
) -> (SpaHeatNotificationState, Seq<SpaHeatMilestone>) {
    let new_session = r.trusted_session_id is Some && tid != r.trusted_session_id;
    let tid1 = if new_session {
        r.trusted_session_id
    } else {
        tid
    };
    let half1 = if new_session {
        false
    } else {
        half
    };
    let almost1 = if new_session {
        false
    } else {
        almost
    };
    let at1 = if new_session {
        false
    } else {
        at
    };
    let progress_ok = r.progress is Some && r.progress->0.rise_large_enough;
    let fire_half = progress_ok && sw.halfway && !half1 && r.progress->0.halfway_reached;
    let fire_almost = progress_ok && sw.almost_ready && !almost1
        && r.progress->0.almost_ready_reached;
    let fire_at = sw.at_temp && !at1 && r.current_temp >= r.target_temp;
    let ev = (if fire_half {
        seq![SpaHeatMilestone::Halfway]
    } else {
        Seq::empty()
    }) + (if fire_almost {
        seq![SpaHeatMilestone::AlmostReady]
    } else {
        Seq::empty()
    }) + (if fire_at {
        seq![SpaHeatMilestone::AtTemp]
    } else {
        Seq::empty()
    });
    if fire_at {
        (SpaHeatNotificationState::Maintaining { setpoint: r.target_temp }, ev)
    } else {
        (
            SpaHeatNotificationState::Heating {
                heating_started_sent: hs,
                estimate_ready_sent: es,
                halfway_sent: half1 || fire_half,
                almost_ready_sent: almost1 || fire_almost,
                at_temp_sent: at1,
                trusted_session_id: tid1,
            },
            ev,
        )
    }
}

/// How one update moves the notification state, and what it announces.
pub open spec fn spa_step(
    sw: MilestoneSwitches,
    r: SpaHeatReading,
    st: SpaHeatNotificationState,
) -> (SpaHeatNotificationState, Seq<SpaHeatMilestone>) {
    if !sw.enabled || !r.spa_on || r.heat_mode_off {
        (SpaHeatNotificationState::Idle, Seq::empty())
    } else {
        match st {
            SpaHeatNotificationState::Idle => if r.heating_active {
                fresh_heating(sw)
            } else {
                (st, Seq::empty())
            },
            SpaHeatNotificationState::Heating {
                heating_started_sent: hs,
                estimate_ready_sent: es,
                halfway_sent: half,
                almost_ready_sent: almost,
                at_temp_sent: at,
                trusted_session_id: tid,
            } => if !r.heating_active {
                // Heater cycled off with the spa still on: hold the phase.
                (st, Seq::empty())
            } else if !hs && sw.heating_started {
                (
                    SpaHeatNotificationState::Heating {
                        heating_started_sent: true,
                        estimate_ready_sent: es,
                        halfway_sent: half,
                        almost_ready_sent: almost,
                        at_temp_sent: at,
                        trusted_session_id: tid,
                    },
                    seq![SpaHeatMilestone::HeatingStarted],
                )
            } else if !es && r.minutes_remaining is Some && sw.estimate_ready {
                (
                    SpaHeatNotificationState::Heating {
                        heating_started_sent: hs,
                        estimate_ready_sent: true,
                        halfway_sent: half,
                        almost_ready_sent: almost,
                        at_temp_sent: at,
                        trusted_session_id: tid,
                    },
                    seq![SpaHeatMilestone::EstimateReady],
                )
            } else {
                heating_progress_step(sw, r, hs, es, half, almost, at, tid)
            },
            SpaHeatNotificationState::Maintaining { setpoint } => if r.target_temp > setpoint {
                // Setpoint raised: a new heating intent.
                fresh_heating(sw)
            } else {
                // Reheat cycles and lowered setpoints are silent; the stored
                // setpoint follows the latest target.
                (SpaHeatNotificationState::Maintaining { setpoint: r.target_temp }, Seq::empty())
            },
        }
    }
}

/// Advance the notification state for one controller update and return the
/// milestones to announce, in order.
pub fn next_milestones(
    sw: &MilestoneSwitches,
    r: &SpaHeatReading,
    state: &mut SpaHeatNotificationState,
) -> (events: Vec<SpaHeatMilestone>)
    ensures
        (*final(state), events@) == spa_step(*sw, *r, *old(state)),
{
    if !sw.enabled || !r.spa_on || r.heat_mode_off {
        *state = SpaHeatNotificationState::Idle;
        return Vec::new();
    }
    let mut events: Vec<SpaHeatMilestone> = Vec::new();
    match *state {
        SpaHeatNotificationState::Idle => {
            if r.heating_active {
                if sw.heating_started {
                    events.push(SpaHeatMilestone::HeatingStarted);
                }
                *state = SpaHeatNotificationState::Heating {
                    heating_started_sent: sw.heating_started,
                    estimate_ready_sent: false,
                    halfway_sent: false,
                    almost_ready_sent: false,
                    at_temp_sent: false,
                    trusted_session_id: None,
                };
                assert(events@ =~= fresh_heating(*sw).1);
            }
            events
        },
        SpaHeatNotificationState::Heating {
            heating_started_sent: hs,
            estimate_ready_sent: es,
            halfway_sent: half,
            almost_ready_sent: almost,
            at_temp_sent: at,
            trusted_session_id: tid,
        } => {
            if !r.heating_active {
                return events;
            }
            if !hs && sw.heating_started {
                *state = SpaHeatNotificationState::Heating {
                    heating_started_sent: true,
                    estimate_ready_sent: es,
                    halfway_sent: half,
                    almost_ready_sent: almost,
                    at_temp_sent: at,
                    trusted_session_id: tid,
                };
                events.push(SpaHeatMilestone::HeatingStarted);
                assert(events@ =~= seq![SpaHeatMilestone::HeatingStarted]);
                return events;
            }
            if !es && r.minutes_remaining.is_some() && sw.estimate_ready {
                *state = SpaHeatNotificationState::Heating {
                    heating_started_sent: hs,
                    estimate_ready_sent: true,
                    halfway_sent: half,
                    almost_ready_sent: almost,
                    at_temp_sent: at,
                    trusted_session_id: tid,
                };
                events.push(SpaHeatMilestone::EstimateReady);
                assert(events@ =~= seq![SpaHeatMilestone::EstimateReady]);
                return events;
            }
            let mut tid1 = tid;
            let mut half1 = half;
            let mut almost1 = almost;
            let mut at1 = at;
            match r.trusted_session_id {
                Some(session_id) => {
                    if tid != Some(session_id) {
                        tid1 = Some(session_id);
                        half1 = false;
                        almost1 = false;
                        at1 = false;
                    }
                },
                None => {},
            }
            let mut fire_half = false;
            let mut fire_almost = false;
            match r.progress {
                Some(p) => {
                    if p.rise_large_enough {
                        if sw.halfway && !half1 && p.halfway_reached {
                            fire_half = true;
                            events.push(SpaHeatMilestone::Halfway);
                        }
                        if sw.almost_ready && !almost1 && p.almost_ready_reached {
                            fire_almost = true;
                            events.push(SpaHeatMilestone::AlmostReady);
                        }
                    }
                },
                None => {},
            }
            let ghost before_at = events@;
            let fire_at = sw.at_temp && !at1 && r.current_temp >= r.target_temp;
            if fire_at {
                events.push(SpaHeatMilestone::AtTemp);
                *state = SpaHeatNotificationState::Maintaining { setpoint: r.target_temp };
            } else {
                *state = SpaHeatNotificationState::Heating {
                    heating_started_sent: hs,
                    estimate_ready_sent: es,
                    halfway_sent: half1 || fire_half,
                    almost_ready_sent: almost1 || fire_almost,
                    at_temp_sent: at1,
                    trusted_session_id: tid1,
                };
            }
            proof {
                let step = heating_progress_step(*sw, *r, hs, es, half, almost, at, tid);
                let e1: Seq<SpaHeatMilestone> = if fire_half {
                    seq![SpaHeatMilestone::Halfway]
                } else {
                    Seq::empty()
                };
                let e2: Seq<SpaHeatMilestone> = if fire_almost {
                    seq![SpaHeatMilestone::AlmostReady]
                } else {
                    Seq::empty()
                };
                let e3: Seq<SpaHeatMilestone> = if fire_at {
                    seq![SpaHeatMilestone::AtTemp]
                } else {
                    Seq::empty()
                };
                assert(before_at =~= e1 + e2);
                assert(events@ =~= e1 + e2 + e3);
                assert(step.1 =~= e1 + e2 + e3);
            }
            events
        },
        SpaHeatNotificationState::Maintaining { setpoint } => {
            if r.target_temp > setpoint {
                if sw.heating_started {
                    events.push(SpaHeatMilestone::HeatingStarted);
                }
                *state = SpaHeatNotificationState::Heating {
                    heating_started_sent: sw.heating_started,
                    estimate_ready_sent: false,
                    halfway_sent: false,
                    almost_ready_sent: false,
                    at_temp_sent: false,
                    trusted_session_id: None,
                };
                assert(events@ =~= fresh_heating(*sw).1);
            } else {
                *state = SpaHeatNotificationState::Maintaining { setpoint: r.target_temp };
            }
            events
        },
    }
}

// ── Laws of the notification state machine ──────────────────────────────

/// Spa off, heat mode off, or notifications disabled: the machine returns to
/// `Idle` and stays silent.
pub proof fn lemma_off_resets(sw: MilestoneSwitches, r: SpaHeatReading, st: SpaHeatNotificationState)
    requires
        !sw.enabled || !r.spa_on || r.heat_mode_off,
    ensures
        spa_step(sw, r, st) == (SpaHeatNotificationState::Idle, Seq::<SpaHeatMilestone>::empty()),
{
}

/// No update announces the same milestone twice.
pub proof fn lemma_no_duplicate_in_update(
    sw: MilestoneSwitches,
    r: SpaHeatReading,
    st: SpaHeatNotificationState,
)
    ensures
        forall|i: int, j: int|
            0 <= i < j < spa_step(sw, r, st).1.len() ==> spa_step(sw, r, st).1[i] != spa_step(
                sw,
                r,
                st,
            ).1[j],
{
    let ev = spa_step(sw, r, st).1;
    assert forall|i: int, j: int| 0 <= i < j < ev.len() implies ev[i] != ev[j] by {
        match st {
            SpaHeatNotificationState::Heating {
                heating_started_sent: hs,
                estimate_ready_sent: es,
                halfway_sent: half,
                almost_ready_sent: almost,
                at_temp_sent: at,
                trusted_session_id: tid,
            } => {
                if sw.enabled && r.spa_on && !r.heat_mode_off && r.heating_active && !(!hs
                    && sw.heating_started) && !(!es && r.minutes_remaining is Some
                    && sw.estimate_ready) {
                    let step = heating_progress_step(sw, r, hs, es, half, almost, at, tid);
                    assert(ev == step.1);
                }
            },
            _ => {},
        }
    }
}

/// While heating, a milestone already announced in the current heating
/// session is not announced again: `HeatingStarted` and `EstimateReady` once
/// per session, the progress milestones once per trusted session.
pub proof fn lemma_heating_sent_flags_suppress(
    sw: MilestoneSwitches,
    r: SpaHeatReading,
    hs: bool,
    es: bool,
    half: bool,
    almost: bool,
    at: bool,
    tid: Option<i64>,
)
    ensures
        ({
            let st = SpaHeatNotificationState::Heating {
                heating_started_sent: hs,
                estimate_ready_sent: es,
                halfway_sent: half,
                almost_ready_sent: almost,
                at_temp_sent: at,
                trusted_session_id: tid,
            };
            let ev = spa_step(sw, r, st).1;
            let same_session = r.trusted_session_id is None || r.trusted_session_id == tid;
            &&& hs ==> !ev.contains(SpaHeatMilestone::HeatingStarted)
            &&& es ==> !ev.contains(SpaHeatMilestone::EstimateReady)
            &&& half && same_session ==> !ev.contains(SpaHeatMilestone::Halfway)
            &&& almost && same_session ==> !ev.contains(SpaHeatMilestone::AlmostReady)
            &&& at && same_session ==> !ev.contains(SpaHeatMilestone::AtTemp)
        }),
{
}

/// Announcing `AtTemp` moves the machine to `Maintaining` at the target that
/// was reached.
pub proof fn lemma_at_temp_enters_maintaining(
    sw: MilestoneSwitches,
    r: SpaHeatReading,
    st: SpaHeatNotificationState,
)
    ensures
        spa_step(sw, r, st).1.contains(SpaHeatMilestone::AtTemp) ==> spa_step(sw, r, st).0
            == (SpaHeatNotificationState::Maintaining { setpoint: r.target_temp }),
{
    let ev = spa_step(sw, r, st).1;
    if ev.contains(SpaHeatMilestone::AtTemp) {
        let k = choose|k: int| 0 <= k < ev.len() && ev[k] == SpaHeatMilestone::AtTemp;
    }
}

/// While maintaining, only a raised setpoint produces an announcement, and
/// then only `HeatingStarted`.
pub proof fn lemma_maintaining_silent_unless_raised(
    sw: MilestoneSwitches,
    r: SpaHeatReading,
    setpoint: i32,
)
    ensures
        ({
            let out = spa_step(sw, r, (SpaHeatNotificationState::Maintaining { setpoint }));
            &&& r.target_temp <= setpoint ==> out.1.len() == 0
            &&& forall|i: int| 0 <= i < out.1.len() ==> out.1[i] == SpaHeatMilestone::HeatingStarted
        }),
{
}

/// A heater that cycles off while the spa stays on leaves the machine where
/// it was.
pub proof fn lemma_heater_pause_holds_state(
    sw: MilestoneSwitches,
    r: SpaHeatReading,
    st: SpaHeatNotificationState,
)
    requires
        sw.enabled,
        r.spa_on,
        !r.heat_mode_off,
        !r.heating_active,
        !(st is Maintaining),
    ensures
        spa_step(sw, r, st) == (st, Seq::<SpaHeatMilestone>::empty()),
{
}

// ── Notification text ───────────────────────────────────────────────────

/// Title and body of the push notification for a milestone.
pub open spec fn milestone_text(
    m: SpaHeatMilestone,
    current_temp: int,
    target_temp: int,
    minutes_remaining: Option<u32>,
    unit: Seq<char>,
) -> (Seq<char>, Seq<char>) {
    match m {
        SpaHeatMilestone::HeatingStarted => (
            "Spa heating started"@,
            "Heating to "@ + int_text(target_temp) + unit,
        ),
        SpaHeatMilestone::EstimateReady => match minutes_remaining {
            Some(min) => (
                "Spa ready in about "@ + int_text(min as int) + " min"@,
                "Current temperature "@ + int_text(current_temp) + unit,
            ),
            None => (
                "Spa is heating — estimate calculating..."@,
                "Current temperature "@ + int_text(current_temp) + unit,
            ),
        },
        SpaHeatMilestone::Halfway => (
            "Spa warming up"@,
            "About halfway to "@ + int_text(target_temp) + unit,
        ),
        SpaHeatMilestone::AlmostReady => (
            "Spa almost ready"@,
            "About 10% left to "@ + int_text(target_temp) + unit,
        ),
        SpaHeatMilestone::AtTemp => ("Spa ready"@, "Spa has reached "@ + int_text(target_temp) + unit),
    }
}

/// Text ending in `tail`, however it begins.
proof fn lemma_ends_with_tail(lead: Seq<char>, middle: Seq<char>, tail: Seq<char>)
    ensures
        ends_with(lead + middle + tail, middle + tail),
{
    let s = lead + middle + tail;
    assert(s =~= lead + (middle + tail));
    assert(s.subrange(s.len() - (middle + tail).len(), s.len() as int) =~= middle + tail);
}

/// Which temperature a notification names, and where. The estimate
/// announcement's body ends with the current temperature and its unit, and
/// its title with the minutes left; every other milestone's body ends with
/// the target temperature and its unit. Each text reads only that one
/// temperature: changing the other leaves title and body as they are. The
/// titles and bodies read: "Spa heating started" / "Heating to T"; "Spa
/// ready in about N min" (or "Spa is heating — estimate calculating...") /
/// "Current temperature C"; "Spa warming up" / "About halfway to T"; "Spa
/// almost ready" / "About 10% left to T"; "Spa ready" / "Spa has reached T",
/// each temperature followed by the unit.
pub proof fn lemma_notification_names_its_temperature(
    m: SpaHeatMilestone,
    current_temp: int,
    target_temp: int,
    minutes_remaining: Option<u32>,
    unit: Seq<char>,
    other_temp: int,
)
    ensures
        m is EstimateReady ==> ends_with(
            milestone_text(m, current_temp, target_temp, minutes_remaining, unit).1,
            int_text(current_temp) + unit,
        ),
        (m is EstimateReady && minutes_remaining is Some) ==> ends_with(
            milestone_text(m, current_temp, target_temp, minutes_remaining, unit).0,
            int_text(minutes_remaining->0 as int) + " min"@,
        ),
        !(m is EstimateReady) ==> ends_with(
            milestone_text(m, current_temp, target_temp, minutes_remaining, unit).1,
            int_text(target_temp) + unit,
        ),
        m is EstimateReady ==> milestone_text(m, current_temp, target_temp, minutes_remaining, unit)
            == milestone_text(m, current_temp, other_temp, minutes_remaining, unit),
        m is HeatingStarted ==> milestone_text(m, current_temp, target_temp, minutes_remaining, unit)
            == ("Spa heating started"@, "Heating to "@ + int_text(target_temp) + unit),
        m is Halfway ==> milestone_text(m, current_temp, target_temp, minutes_remaining, unit)
            == ("Spa warming up"@, "About halfway to "@ + int_text(target_temp) + unit),
        m is AlmostReady ==> milestone_text(m, current_temp, target_temp, minutes_remaining, unit)
            == ("Spa almost ready"@, "About 10% left to "@ + int_text(target_temp) + unit),
        m is AtTemp ==> milestone_text(m, current_temp, target_temp, minutes_remaining, unit)
            == ("Spa ready"@, "Spa has reached "@ + int_text(target_temp) + unit),
        (m is EstimateReady && minutes_remaining is Some) ==> milestone_text(m, current_temp, target_temp, minutes_remaining, unit)
            == ("Spa ready in about "@ + int_text(minutes_remaining->0 as int) + " min"@,
                "Current temperature "@ + int_text(current_temp) + unit),
        (m is EstimateReady && minutes_remaining is None) ==> milestone_text(m, current_temp, target_temp, minutes_remaining, unit)
            == ("Spa is heating — estimate calculating..."@, "Current temperature "@ + int_text(current_temp) + unit),
        !(m is EstimateReady) ==> milestone_text(m, current_temp, target_temp, minutes_remaining, unit)
            == milestone_text(m, other_temp, target_temp, minutes_remaining, unit),
{
    match m {
        SpaHeatMilestone::HeatingStarted => lemma_ends_with_tail("Heating to "@, int_text(target_temp), unit),
        SpaHeatMilestone::EstimateReady => {
            lemma_ends_with_tail("Current temperature "@, int_text(current_temp), unit);
            if minutes_remaining is Some {
                lemma_ends_with_tail("Spa ready in about "@, int_text(minutes_remaining->0 as int), " min"@);
            }
        },
        SpaHeatMilestone::Halfway => lemma_ends_with_tail("About halfway to "@, int_text(target_temp), unit),
        SpaHeatMilestone::AlmostReady => lemma_ends_with_tail("About 10% left to "@, int_text(target_temp), unit),
        SpaHeatMilestone::AtTemp => lemma_ends_with_tail("Spa has reached "@, int_text(target_temp), unit),
    }
}

/// `lead` + decimal `n` + `tail`.
fn text_with_int(lead: &str, n: i64, tail: &str) -> (s: String)
    ensures
        s@ == lead@ + int_text(n as int) + tail@,
{
    let mut s = String::from_str(lead);
    push_int(&mut s, n);
    s.append(tail);
    s
}

/// Title and body of the push notification announcing `milestone`.
pub fn notification_text(
    milestone: SpaHeatMilestone,
    current_temp: i32,
    target_temp: i32,
    minutes_remaining: Option<u32>,
    temp_unit: &str,
) -> (t: (String, String))
    ensures
        (t.0@, t.1@) == milestone_text(
            milestone,
            current_temp as int,
            target_temp as int,
            minutes_remaining,
            temp_unit@,
        ),
{
    match milestone {
        SpaHeatMilestone::HeatingStarted => (
            String::from_str("Spa heating started"),
            text_with_int("Heating to ", target_temp as i64, temp_unit),
        ),
        SpaHeatMilestone::EstimateReady => match minutes_remaining {
            Some(minutes) => (
                text_with_int("Spa ready in about ", minutes as i64, " min"),
                text_with_int("Current temperature ", current_temp as i64, temp_unit),
            ),
            None => (
                String::from_str("Spa is heating — estimate calculating..."),
                text_with_int("Current temperature ", current_temp as i64, temp_unit),
            ),
        },
        SpaHeatMilestone::Halfway => (
            String::from_str("Spa warming up"),
            text_with_int("About halfway to ", target_temp as i64, temp_unit),
        ),
        SpaHeatMilestone::AlmostReady => (
            String::from_str("Spa almost ready"),
            text_with_int("About 10% left to ", target_temp as i64, temp_unit),
        ),
        SpaHeatMilestone::AtTemp => (
            String::from_str("Spa ready"),
            text_with_int("Spa has reached ", target_temp as i64, temp_unit),
        ),
    }
}


// ── Session labels ──────────────────────────────────────────────────────

/// The RFC 3339 text chrono gives for the UTC instant `secs` seconds after
/// the epoch (`DateTime::from_timestamp(secs, 0)` then `to_rfc3339()`);
/// `None` where the instant is out of chrono's range.
pub uninterp spec fn rfc3339_utc(secs: int) -> Option<Seq<char>>;

/// Calls `chrono::DateTime::from_timestamp(secs, 0)` and `to_rfc3339()` on
/// the result; the outcome is named by `rfc3339_utc`.
#[verifier::external_body]
fn rfc3339_of(secs: i64) -> (r: Option<String>)
    ensures
        match r {
            Some(t) => rfc3339_utc(secs as int) == Some(t@),
            None => rfc3339_utc(secs as int) is None,
        },
{
    match chrono::DateTime::from_timestamp(secs, 0) {
        Some(dt) => Some(dt.to_rfc3339()),
        None => None,
    }
}

/// How a heating session is named in an event: no session gives an empty
/// label; an id is its start instant, as RFC 3339 text where chrono can
/// represent it and as the plain number otherwise.
pub open spec fn session_label_spec(id: Option<i64>, formatted: Option<Seq<char>>) -> Seq<char> {
    match id {
        None => Seq::empty(),
        Some(secs) => match formatted {
            Some(t) => t,
            None => int_text(secs as int),
        },
    }
}

/// The label from the id and what formatting it gave.
pub fn label_from_format(id: Option<i64>, formatted: Option<String>) -> (l: String)
    ensures
        l@ == session_label_spec(
            id,
            match formatted {
                Some(t) => Some(t@),
                None => None,
            },
        ),
{
    match id {
        None => String::new(),
        Some(secs) => match formatted {
            Some(t) => t,
            None => int_string(secs),
        },
    }
}

/// The label of the trusted heating session `id` (unix seconds).
pub fn session_label(id: Option<i64>) -> (l: String)
    ensures
        l@ == session_label_spec(
            id,
            match id {
                Some(secs) => rfc3339_utc(secs as int),
                None => None,
            },
        ),
{
    match id {
        None => String::new(),
        Some(secs) => {
            let f = rfc3339_of(secs);
            label_from_format(id, f)
        },
    }
}

/// Whole seconds in `ms` milliseconds, rounded toward zero as Rust's integer
/// division does.
pub open spec fn secs_toward_zero(ms: int) -> int {
    if ms >= 0 {
        ms / 1000
    } else {
        -((-ms) / 1000)
    }
}

/// How the progress card names the session that started at `started_ms`:
/// the whole second it started in as RFC 3339 text where chrono can
/// represent it (`formatted`), else the milliseconds as a plain number.
pub open spec fn progress_session_id_spec(started_ms: i64, formatted: Option<Seq<char>>) -> Seq<char> {
    match formatted {
        Some(t) => t,
        None => int_text(started_ms as int),
    }
}

/// The id the progress card gives the session that started at
/// `started_at_unix_ms`.
pub fn progress_session_id(started_at_unix_ms: i64) -> (l: String)
    ensures
        l@ == progress_session_id_spec(
            started_at_unix_ms,
            rfc3339_utc(secs_toward_zero(started_at_unix_ms as int)),
        ),
{
    let secs: i64 = started_at_unix_ms / 1000;
    assert(secs == secs_toward_zero(started_at_unix_ms as int));
    match rfc3339_of(secs) {
        Some(t) => t,
        None => int_string(started_at_unix_ms),
    }
}


// ── Heating progress card ───────────────────────────────────────────────

/// The phase the progress card shows.
#[derive(Debug, Clone, Copy, PartialEq, Eq, Structural)]
pub enum ProgressPhase {
    /// Heating, no estimate yet.
    Started,
    /// Heating with an available estimate.
    Tracking,
    /// At or above the setpoint.
    Reached,
}

impl ProgressPhase {
    pub fn as_str(&self) -> (s: &'static str)
        ensures
            s@ == (match *self {
                ProgressPhase::Started => "started"@,
                ProgressPhase::Tracking => "tracking"@,
                ProgressPhase::Reached => "reached"@,
            }),
    {
        match self {
            ProgressPhase::Started => "started",
            ProgressPhase::Tracking => "tracking",
            ProgressPhase::Reached => "reached",
        }
    }
}

pub open spec fn progress_phase_spec(current: int, target: int, estimate_available: bool) -> ProgressPhase {
    if current >= target {
        ProgressPhase::Reached
    } else if estimate_available {
        ProgressPhase::Tracking
    } else {
        ProgressPhase::Started
    }
}

/// The phase of a heating spa: reached at or above the setpoint, tracking
/// while an estimate is available, else just started.
pub fn progress_phase(current: i32, target: i32, estimate_available: bool) -> (p: ProgressPhase)
    ensures
        p == progress_phase_spec(current as int, target as int, estimate_available),
{
    if current >= target {
        ProgressPhase::Reached
    } else if estimate_available {
        ProgressPhase::Tracking
    } else {
        ProgressPhase::Started
    }
}

pub open spec fn progress_milestone_spec(phase: ProgressPhase, pct: int, minutes: Option<u32>) -> Option<Seq<char>> {
    if phase == ProgressPhase::Reached {
        Some("at_temp"@)
    } else if pct >= 90 {
        Some("almost_ready"@)
    } else if pct >= 50 {
        Some("halfway"@)
    } else if pct < 5 && minutes is None {
        Some("heating_started"@)
    } else {
        None
    }
}

/// The milestone the card names, from its phase and percentage.
pub fn progress_milestone(phase: ProgressPhase, pct: u8, minutes: Option<u32>) -> (m: Option<&'static str>)
    ensures
        match m {
            Some(t) => progress_milestone_spec(phase, pct as int, minutes) == Some(t@),
            None => progress_milestone_spec(phase, pct as int, minutes) is None,
        },
{
    if phase == ProgressPhase::Reached {
        Some("at_temp")
    } else if pct >= 90 {
        Some("almost_ready")
    } else if pct >= 50 {
        Some("halfway")
    } else if pct < 5 && minutes.is_none() {
        Some("heating_started")
    } else {
        None
    }
}

/// Whether the spa heater is working: on, heat mode not off, and the
/// controller reports a heat source other than off or unknown.
pub fn heating_active(on: bool, heat_mode: &str, heating: &str) -> (b: bool)
    ensures
        b == (on && heat_mode@ != "off"@ && heating@ != "off"@ && heating@ != "unknown"@),
{
    on && !crate::text::str_eq(heat_mode, "off") && !crate::text::str_eq(heating, "off")
        && !crate::text::str_eq(heating, "unknown")
}

} // verus!
