//! Decisions of the adapter task: where to connect, how long to wait between
//! attempts, what a light command leaves as the light mode, and which state
//! changes between two controller snapshots become push notifications.

use vstd::prelude::*;
use crate::routes::light_command_spec;
use crate::text::{chars_contain, chars_of, concat2, concat3, int_text, owned, push_int, push_nat};

verus! {

/// Push triggers sent to WebSocket subscribers.
#[derive(Debug, Clone, Copy, PartialEq, Eq, Structural)]
pub enum PushEvent {
    StatusChanged,
    MatterRecommission,
}

// ── Reconnect backoff ───────────────────────────────────────────────────

/// The first wait after a failure, and the wait after a success, in seconds.
pub const INITIAL_BACKOFF_SECS: u64 = 1;

/// The longest wait between attempts, in seconds.
pub const MAX_BACKOFF_SECS: u64 = 60;

pub open spec fn next_backoff_spec(secs: int) -> int {
    if secs * 2 < MAX_BACKOFF_SECS {
        secs * 2
    } else {
        MAX_BACKOFF_SECS as int
    }
}

/// The wait after another failed attempt: doubled, at most a minute.
pub fn next_backoff(secs: u64) -> (n: u64)
    requires
        secs <= MAX_BACKOFF_SECS,
    ensures
        n == next_backoff_spec(secs as int),
{
    let doubled = secs * 2;
    if doubled < MAX_BACKOFF_SECS {
        doubled
    } else {
        MAX_BACKOFF_SECS
    }
}

/// Backoff never leaves `[1, 60]` seconds, and doubling from the first wait
/// reaches the cap and stays there.
pub proof fn lemma_backoff_bounded(secs: int)
    requires
        INITIAL_BACKOFF_SECS <= secs <= MAX_BACKOFF_SECS,
    ensures
        INITIAL_BACKOFF_SECS <= next_backoff_spec(secs) <= MAX_BACKOFF_SECS,
        next_backoff_spec(secs) >= secs,
        secs == MAX_BACKOFF_SECS ==> next_backoff_spec(secs) == MAX_BACKOFF_SECS,
{
}

// ── Where to connect ────────────────────────────────────────────────────

/// The address for a configured adapter host: as given when it names a port,
/// else port 80. An empty host means "discover it" (`None`).
pub open spec fn adapter_address_spec(host: Seq<char>) -> Option<Seq<char>> {
    if host.len() == 0 {
        None
    } else if host.contains(':') {
        Some(host)
    } else {
        Some(host + ":80"@)
    }
}

pub fn adapter_address(host: &str) -> (r: Option<String>)
    ensures
        match r {
            Some(a) => adapter_address_spec(host@) == Some(a@),
            None => adapter_address_spec(host@) is None,
        },
{
    if host.unicode_len() == 0 {
        return None;
    }
    let cs = chars_of(host);
    if chars_contain(&cs, ':') {
        Some(owned(host))
    } else {
        Some(concat2(host, ":80"))
    }
}

/// `a.b.c.d:port` for a discovered adapter.
pub open spec fn discovered_address_spec(ip: Seq<u8>, port: u16) -> Seq<char> {
    crate::text::nat_text(ip[0] as nat) + "."@ + crate::text::nat_text(ip[1] as nat) + "."@
        + crate::text::nat_text(ip[2] as nat) + "."@ + crate::text::nat_text(ip[3] as nat) + ":"@
        + crate::text::nat_text(port as nat)
}

pub fn discovered_address(ip: &[u8; 4], port: u16) -> (a: String)
    ensures
        a@ == discovered_address_spec(ip@, port),
{
    let mut a = String::new();
    push_nat(&mut a, ip[0] as u64);
    a.append(".");
    push_nat(&mut a, ip[1] as u64);
    a.append(".");
    push_nat(&mut a, ip[2] as u64);
    a.append(".");
    push_nat(&mut a, ip[3] as u64);
    a.append(":");
    push_nat(&mut a, port as u64);
    a
}

// ── Light modes ─────────────────────────────────────────────────────────

/// The light mode a successful light command leaves.
pub open spec fn light_name_spec(command: int) -> Seq<char> {
    if command == 0 {
        "off"@
    } else if command == 1 {
        "on"@
    } else if command == 2 {
        "set"@
    } else if command == 3 {
        "sync"@
    } else if command == 4 {
        "swim"@
    } else if command == 5 {
        "party"@
    } else if command == 6 {
        "romantic"@
    } else if command == 7 {
        "caribbean"@
    } else if command == 8 {
        "american"@
    } else if command == 9 {
        "sunset"@
    } else if command == 10 {
        "royal"@
    } else if command == 11 {
        "save"@
    } else if command == 12 {
        "recall"@
    } else if command == 13 {
        "blue"@
    } else if command == 14 {
        "green"@
    } else if command == 15 {
        "red"@
    } else if command == 16 {
        "white"@
    } else if command == 17 {
        "purple"@
    } else {
        "unknown"@
    }
}

pub fn light_mode_name(command: i32) -> (s: &'static str)
    ensures
        s@ == light_name_spec(command as int),
{
    if command == 0 {
        "off"
    } else if command == 1 {
        "on"
    } else if command == 2 {
        "set"
    } else if command == 3 {
        "sync"
    } else if command == 4 {
        "swim"
    } else if command == 5 {
        "party"
    } else if command == 6 {
        "romantic"
    } else if command == 7 {
        "caribbean"
    } else if command == 8 {
        "american"
    } else if command == 9 {
        "sunset"
    } else if command == 10 {
        "royal"
    } else if command == 11 {
        "save"
    } else if command == 12 {
        "recall"
    } else if command == 13 {
        "blue"
    } else if command == 14 {
        "green"
    } else if command == 15 {
        "red"
    } else if command == 16 {
        "white"
    } else if command == 17 {
        "purple"
    } else {
        "unknown"
    }
}

/// Setting a light mode by name and reading the mode back gives that name:
/// every mode name the API accepts maps to a command whose recorded mode is
/// the same name.
pub proof fn lemma_light_mode_round_trip(m: Seq<char>)
    requires
        light_command_spec(m) is Some,
    ensures
        light_name_spec(light_command_spec(m)->0 as int) == m,
{
}

/// The controller's IntelliBrite light command codes: off 0, on 1, set 2,
/// sync 3, swim 4, party 5, romantic 6, caribbean 7, american 8, sunset 9,
/// royal 10, save 11, recall 12, blue 13, green 14, red 15, white 16,
/// purple 17. Each name the API accepts is sent as its protocol code, and a
/// command of that code is recorded as that name; no other name is accepted,
/// and a code outside the table is recorded as "unknown".
pub proof fn lemma_light_codes_follow_protocol(m: Seq<char>)
    ensures
        light_name_spec(11) == "save"@ && light_name_spec(12) == "recall"@,
        forall|c: int| (c < 0 || c > 17) ==> #[trigger] light_name_spec(c) == "unknown"@,
        light_command_spec("off"@) == Some(0i32) && light_name_spec(0) == "off"@,
        light_command_spec("on"@) == Some(1i32) && light_name_spec(1) == "on"@,
        light_command_spec("set"@) == Some(2i32) && light_name_spec(2) == "set"@,
        light_command_spec("sync"@) == Some(3i32) && light_name_spec(3) == "sync"@,
        light_command_spec("swim"@) == Some(4i32) && light_name_spec(4) == "swim"@,
        light_command_spec("party"@) == Some(5i32) && light_name_spec(5) == "party"@,
        light_command_spec("romantic"@) == Some(6i32) && light_name_spec(6) == "romantic"@,
        light_command_spec("caribbean"@) == Some(7i32) && light_name_spec(7) == "caribbean"@,
        light_command_spec("american"@) == Some(8i32) && light_name_spec(8) == "american"@,
        light_command_spec("sunset"@) == Some(9i32) && light_name_spec(9) == "sunset"@,
        light_command_spec("royal"@) == Some(10i32) && light_name_spec(10) == "royal"@,
        light_command_spec("blue"@) == Some(13i32) && light_name_spec(13) == "blue"@,
        light_command_spec("green"@) == Some(14i32) && light_name_spec(14) == "green"@,
        light_command_spec("red"@) == Some(15i32) && light_name_spec(15) == "red"@,
        light_command_spec("white"@) == Some(16i32) && light_name_spec(16) == "white"@,
        light_command_spec("purple"@) == Some(17i32) && light_name_spec(17) == "purple"@,
        light_command_spec(m) is Some <==> (m == "off"@ || m == "on"@ || m == "set"@ || m == "sync"@ || m == "swim"@ || m == "party"@ || m == "romantic"@ || m == "caribbean"@ || m == "american"@ || m == "sunset"@ || m == "royal"@ || m == "blue"@ || m == "green"@ || m == "red"@ || m == "white"@ || m == "purple"@),
{
    assert(light_command_spec("off"@) == Some(0i32)) by {
        reveal_strlit("off");
    }
    assert(light_command_spec("on"@) == Some(1i32)) by {
        reveal_strlit("on");
        reveal_strlit("off");
        assert("on"@.len() != "off"@.len());
    }
    assert(light_command_spec("set"@) == Some(2i32)) by {
        reveal_strlit("set");
        reveal_strlit("off");
        assert("set"@[0] != "off"@[0]);
        reveal_strlit("on");
        assert("set"@.len() != "on"@.len());
    }
    assert(light_command_spec("sync"@) == Some(3i32)) by {
        reveal_strlit("sync");
        reveal_strlit("off");
        assert("sync"@.len() != "off"@.len());
        reveal_strlit("on");
        assert("sync"@.len() != "on"@.len());
        reveal_strlit("set");
        assert("sync"@.len() != "set"@.len());
    }
    assert(light_command_spec("swim"@) == Some(4i32)) by {
        reveal_strlit("swim");
        reveal_strlit("off");
        assert("swim"@.len() != "off"@.len());
        reveal_strlit("on");
        assert("swim"@.len() != "on"@.len());
        reveal_strlit("set");
        assert("swim"@.len() != "set"@.len());
        reveal_strlit("sync");
        assert("swim"@[1] != "sync"@[1]);
    }
    assert(light_command_spec("party"@) == Some(5i32)) by {
        reveal_strlit("party");
        reveal_strlit("off");
        assert("party"@.len() != "off"@.len());
        reveal_strlit("on");
        assert("party"@.len() != "on"@.len());
        reveal_strlit("set");
        assert("party"@.len() != "set"@.len());
        reveal_strlit("sync");
        assert("party"@.len() != "sync"@.len());
        reveal_strlit("swim");
        assert("party"@.len() != "swim"@.len());
    }
    assert(light_command_spec("romantic"@) == Some(6i32)) by {
        reveal_strlit("romantic");
        reveal_strlit("off");
        assert("romantic"@.len() != "off"@.len());
        reveal_strlit("on");
        assert("romantic"@.len() != "on"@.len());
        reveal_strlit("set");
        assert("romantic"@.len() != "set"@.len());
        reveal_strlit("sync");
        assert("romantic"@.len() != "sync"@.len());
        reveal_strlit("swim");
        assert("romantic"@.len() != "swim"@.len());
        reveal_strlit("party");
        assert("romantic"@.len() != "party"@.len());
    }
    assert(light_command_spec("caribbean"@) == Some(7i32)) by {
        reveal_strlit("caribbean");
        reveal_strlit("off");
        assert("caribbean"@.len() != "off"@.len());
        reveal_strlit("on");
        assert("caribbean"@.len() != "on"@.len());
        reveal_strlit("set");
        assert("caribbean"@.len() != "set"@.len());
        reveal_strlit("sync");
        assert("caribbean"@.len() != "sync"@.len());
        reveal_strlit("swim");
        assert("caribbean"@.len() != "swim"@.len());
        reveal_strlit("party");
        assert("caribbean"@.len() != "party"@.len());
        reveal_strlit("romantic");
        assert("caribbean"@.len() != "romantic"@.len());
    }
    assert(light_command_spec("american"@) == Some(8i32)) by {
        reveal_strlit("american");
        reveal_strlit("off");
        assert("american"@.len() != "off"@.len());
        reveal_strlit("on");
        assert("american"@.len() != "on"@.len());
        reveal_strlit("set");
        assert("american"@.len() != "set"@.len());
        reveal_strlit("sync");
        assert("american"@.len() != "sync"@.len());
        reveal_strlit("swim");
        assert("american"@.len() != "swim"@.len());
        reveal_strlit("party");
        assert("american"@.len() != "party"@.len());
        reveal_strlit("romantic");
        assert("american"@[0] != "romantic"@[0]);
        reveal_strlit("caribbean");
        assert("american"@.len() != "caribbean"@.len());
    }
    assert(light_command_spec("sunset"@) == Some(9i32)) by {
        reveal_strlit("sunset");
        reveal_strlit("off");
        assert("sunset"@.len() != "off"@.len());
        reveal_strlit("on");
        assert("sunset"@.len() != "on"@.len());
        reveal_strlit("set");
        assert("sunset"@.len() != "set"@.len());
        reveal_strlit("sync");
        assert("sunset"@.len() != "sync"@.len());
        reveal_strlit("swim");
        assert("sunset"@.len() != "swim"@.len());
        reveal_strlit("party");
        assert("sunset"@.len() != "party"@.len());
        reveal_strlit("romantic");
        assert("sunset"@.len() != "romantic"@.len());
        reveal_strlit("caribbean");
        assert("sunset"@.len() != "caribbean"@.len());
        reveal_strlit("american");
        assert("sunset"@.len() != "american"@.len());
    }
    assert(light_command_spec("royal"@) == Some(10i32)) by {
        reveal_strlit("royal");
        reveal_strlit("off");
        assert("royal"@.len() != "off"@.len());
        reveal_strlit("on");
        assert("royal"@.len() != "on"@.len());
        reveal_strlit("set");
        assert("royal"@.len() != "set"@.len());
        reveal_strlit("sync");
        assert("royal"@.len() != "sync"@.len());
        reveal_strlit("swim");
        assert("royal"@.len() != "swim"@.len());
        reveal_strlit("party");
        assert("royal"@[0] != "party"@[0]);
        reveal_strlit("romantic");
        assert("royal"@.len() != "romantic"@.len());
        reveal_strlit("caribbean");
        assert("royal"@.len() != "caribbean"@.len());
        reveal_strlit("american");
        assert("royal"@.len() != "american"@.len());
        reveal_strlit("sunset");
        assert("royal"@.len() != "sunset"@.len());
    }
    assert(light_command_spec("blue"@) == Some(13i32)) by {
        reveal_strlit("blue");
        reveal_strlit("off");
        assert("blue"@.len() != "off"@.len());
        reveal_strlit("on");
        assert("blue"@.len() != "on"@.len());
        reveal_strlit("set");
        assert("blue"@.len() != "set"@.len());
        reveal_strlit("sync");
        assert("blue"@[0] != "sync"@[0]);
        reveal_strlit("swim");
        assert("blue"@[0] != "swim"@[0]);
        reveal_strlit("party");
        assert("blue"@.len() != "party"@.len());
        reveal_strlit("romantic");
        assert("blue"@.len() != "romantic"@.len());
        reveal_strlit("caribbean");
        assert("blue"@.len() != "caribbean"@.len());
        reveal_strlit("american");
        assert("blue"@.len() != "american"@.len());
        reveal_strlit("sunset");
        assert("blue"@.len() != "sunset"@.len());
        reveal_strlit("royal");
        assert("blue"@.len() != "royal"@.len());
    }
    assert(light_command_spec("green"@) == Some(14i32)) by {
        reveal_strlit("green");
        reveal_strlit("off");
        assert("green"@.len() != "off"@.len());
        reveal_strlit("on");
        assert("green"@.len() != "on"@.len());
        reveal_strlit("set");
        assert("green"@.len() != "set"@.len());
        reveal_strlit("sync");
        assert("green"@.len() != "sync"@.len());
        reveal_strlit("swim");
        assert("green"@.len() != "swim"@.len());
        reveal_strlit("party");
        assert("green"@[0] != "party"@[0]);
        reveal_strlit("romantic");
        assert("green"@.len() != "romantic"@.len());
        reveal_strlit("caribbean");
        assert("green"@.len() != "caribbean"@.len());
        reveal_strlit("american");
        assert("green"@.len() != "american"@.len());
        reveal_strlit("sunset");
        assert("green"@.len() != "sunset"@.len());
        reveal_strlit("royal");
        assert("green"@[0] != "royal"@[0]);
        reveal_strlit("blue");
        assert("green"@.len() != "blue"@.len());
    }
    assert(light_command_spec("red"@) == Some(15i32)) by {
        reveal_strlit("red");
        reveal_strlit("off");
        assert("red"@[0] != "off"@[0]);
        reveal_strlit("on");
        assert("red"@.len() != "on"@.len());
        reveal_strlit("set");
        assert("red"@[0] != "set"@[0]);
        reveal_strlit("sync");
        assert("red"@.len() != "sync"@.len());
        reveal_strlit("swim");
        assert("red"@.len() != "swim"@.len());
        reveal_strlit("party");
        assert("red"@.len() != "party"@.len());
        reveal_strlit("romantic");
        assert("red"@.len() != "romantic"@.len());
        reveal_strlit("caribbean");
        assert("red"@.len() != "caribbean"@.len());
        reveal_strlit("american");
        assert("red"@.len() != "american"@.len());
        reveal_strlit("sunset");
        assert("red"@.len() != "sunset"@.len());
        reveal_strlit("royal");
        assert("red"@.len() != "royal"@.len());
        reveal_strlit("blue");
        assert("red"@.len() != "blue"@.len());
        reveal_strlit("green");
        assert("red"@.len() != "green"@.len());
    }
    assert(light_command_spec("white"@) == Some(16i32)) by {
        reveal_strlit("white");
        reveal_strlit("off");
        assert("white"@.len() != "off"@.len());
        reveal_strlit("on");
        assert("white"@.len() != "on"@.len());
        reveal_strlit("set");
        assert("white"@.len() != "set"@.len());
        reveal_strlit("sync");
        assert("white"@.len() != "sync"@.len());
        reveal_strlit("swim");
        assert("white"@.len() != "swim"@.len());
        reveal_strlit("party");
        assert("white"@[0] != "party"@[0]);
        reveal_strlit("romantic");
        assert("white"@.len() != "romantic"@.len());
        reveal_strlit("caribbean");
        assert("white"@.len() != "caribbean"@.len());
        reveal_strlit("american");
        assert("white"@.len() != "american"@.len());
        reveal_strlit("sunset");
        assert("white"@.len() != "sunset"@.len());
        reveal_strlit("royal");
        assert("white"@[0] != "royal"@[0]);
        reveal_strlit("blue");
        assert("white"@.len() != "blue"@.len());
        reveal_strlit("green");
        assert("white"@[0] != "green"@[0]);
        reveal_strlit("red");
        assert("white"@.len() != "red"@.len());
    }
    assert(light_command_spec("purple"@) == Some(17i32)) by {
        reveal_strlit("purple");
        reveal_strlit("off");
        assert("purple"@.len() != "off"@.len());
        reveal_strlit("on");
        assert("purple"@.len() != "on"@.len());
        reveal_strlit("set");
        assert("purple"@.len() != "set"@.len());
        reveal_strlit("sync");
        assert("purple"@.len() != "sync"@.len());
        reveal_strlit("swim");
        assert("purple"@.len() != "swim"@.len());
        reveal_strlit("party");
        assert("purple"@.len() != "party"@.len());
        reveal_strlit("romantic");
        assert("purple"@.len() != "romantic"@.len());
        reveal_strlit("caribbean");
        assert("purple"@.len() != "caribbean"@.len());
        reveal_strlit("american");
        assert("purple"@.len() != "american"@.len());
        reveal_strlit("sunset");
        assert("purple"@[0] != "sunset"@[0]);
        reveal_strlit("royal");
        assert("purple"@.len() != "royal"@.len());
        reveal_strlit("blue");
        assert("purple"@.len() != "blue"@.len());
        reveal_strlit("green");
        assert("purple"@.len() != "green"@.len());
        reveal_strlit("red");
        assert("purple"@.len() != "red"@.len());
        reveal_strlit("white");
        assert("purple"@.len() != "white"@.len());
    }
}

// ── Notifications on state changes ──────────────────────────────────────

/// What the notifications look at of one body.
#[derive(Debug)]
pub struct BodySnapshot {
    pub on: bool,
    pub temperature: i32,
    pub setpoint: i32,
    /// "off", or the heat source that is running.
    pub heating: String,
}

/// What the notifications look at of one controller snapshot.
#[derive(Debug)]
pub struct SystemSnapshot {
    pub pool: Option<BodySnapshot>,
    pub spa: Option<BodySnapshot>,
    pub freeze_protection: bool,
    /// "°F" or "°C".
    pub temp_unit: String,
}

/// A push notification: title and body.
#[derive(Debug)]
pub struct Notice {
    pub title: String,
    pub body: String,
}

pub open spec fn spa_ready(s: SystemSnapshot) -> bool {
    s.spa matches Some(spa) && spa.on && spa.temperature >= spa.setpoint
}

pub open spec fn heater_started(prev: Option<BodySnapshot>, curr: Option<BodySnapshot>) -> bool {
    prev matches Some(p) && curr matches Some(c) && p.heating@ == "off"@ && c.heating@ != "off"@
}

/// The notices for the change from `prev` to `curr`, in order: spa ready,
/// freeze protection on, spa heater started, pool heater started.
pub open spec fn transition_notices(prev: SystemSnapshot, curr: SystemSnapshot) -> Seq<(Seq<char>, Seq<char>)> {
    let a: Seq<(Seq<char>, Seq<char>)> = if spa_ready(curr) && !spa_ready(prev) {
        seq![
            ("Spa Ready"@, "Spa has reached "@ + int_text(curr.spa->0.temperature as int)
                + curr.temp_unit@ + "."@),
        ]
    } else {
        Seq::empty()
    };
    let b = if curr.freeze_protection && !prev.freeze_protection {
        a.push(("Freeze Protection"@, "Freeze protection has been activated."@))
    } else {
        a
    };
    let c = if heater_started(prev.spa, curr.spa) {
        b.push(("Spa Heater Started"@, "Spa heater is now active ("@ + curr.spa->0.heating@ + ")."@))
    } else {
        b
    };
    if heater_started(prev.pool, curr.pool) {
        c.push(("Pool Heater Started"@, "Pool heater is now active ("@ + curr.pool->0.heating@ + ")."@))
    } else {
        c
    }
}

pub open spec fn notices_view(v: Seq<Notice>) -> Seq<(Seq<char>, Seq<char>)> {
    v.map_values(|n: Notice| (n.title@, n.body@))
}

fn is_off(s: &String) -> (b: bool)
    ensures
        b == (s@ == "off"@),
{
    crate::text::str_eq(s.as_str(), "off")
}

fn body_heater_started(prev: &Option<BodySnapshot>, curr: &Option<BodySnapshot>) -> (b: bool)
    ensures
        b == heater_started(*prev, *curr),
{
    match (prev, curr) {
        (Some(p), Some(c)) => is_off(&p.heating) && !is_off(&c.heating),
        _ => false,
    }
}

fn spa_is_ready(s: &SystemSnapshot) -> (b: bool)
    ensures
        b == spa_ready(*s),
{
    match &s.spa {
        Some(spa) => spa.on && spa.temperature >= spa.setpoint,
        None => false,
    }
}

/// The notices to send for the change from `prev` to `curr`.
pub fn detect_transitions(prev: &SystemSnapshot, curr: &SystemSnapshot) -> (v: Vec<Notice>)
    ensures
        notices_view(v@) == transition_notices(*prev, *curr),
{
    let mut v: Vec<Notice> = Vec::new();
    if spa_is_ready(curr) && !spa_is_ready(prev) {
        match &curr.spa {
            Some(spa) => {
                let mut body = owned("Spa has reached ");
                push_int(&mut body, spa.temperature as i64);
                body.append(curr.temp_unit.as_str());
                body.append(".");
                v.push(Notice { title: owned("Spa Ready"), body });
            },
            None => {},
        }
    }
    let ghost a = notices_view(v@);
    if curr.freeze_protection && !prev.freeze_protection {
        v.push(
            Notice {
                title: owned("Freeze Protection"),
                body: owned("Freeze protection has been activated."),
            },
        );
    }
    let ghost b = notices_view(v@);
    if body_heater_started(&prev.spa, &curr.spa) {
        match &curr.spa {
            Some(spa) => {
                v.push(
                    Notice {
                        title: owned("Spa Heater Started"),
                        body: concat3("Spa heater is now active (", spa.heating.as_str(), ")."),
                    },
                );
            },
            None => {},
        }
    }
    let ghost c = notices_view(v@);
    if body_heater_started(&prev.pool, &curr.pool) {
        match &curr.pool {
            Some(pool) => {
                v.push(
                    Notice {
                        title: owned("Pool Heater Started"),
                        body: concat3("Pool heater is now active (", pool.heating.as_str(), ")."),
                    },
                );
            },
            None => {},
        }
    }
    proof {
        assert(notices_view(v@) =~= transition_notices(*prev, *curr));
    }
    v
}

/// The notice sent when the adapter link drops.
pub fn connection_lost_notice() -> (n: Notice)
    ensures
        n.title@ == "Connection Lost"@,
        n.body@ == "Lost connection to pool adapter"@,
{
    Notice { title: owned("Connection Lost"), body: owned("Lost connection to pool adapter") }
}

/// A notice fires on the change into a state, not while it lasts: with the
/// same snapshot before and after, nothing is sent.
pub proof fn lemma_no_notice_without_change(s: SystemSnapshot)
    ensures
        transition_notices(s, s).len() == 0,
{
}


// ── Commands and the link ───────────────────────────────────────────────

/// A controller command, by what follows it.
#[derive(Debug, Clone, Copy, PartialEq, Eq, Structural)]
pub enum CommandKind {
    SetCircuit,
    SetHeatSetpoint,
    SetHeatMode,
    SetCoolSetpoint,
    SetLightCommand { command: i32 },
    SetScgConfig,
    CancelDelay,
    RefreshAll,
}

/// Which controller state is re-read after a command.
#[derive(Debug, Clone, Copy, PartialEq, Eq, Structural)]
pub enum Refresh {
    Nothing,
    Runtime,
    Everything,
}

/// What the adapter does after a command ran (`ok` is whether the
/// controller accepted it): what it re-reads, whether subscribers are told,
/// the light mode it records, and whether the link is still taken as up.
pub struct CommandFollowup {
    pub refresh: Refresh,
    pub push_status: bool,
    pub light_mode: Option<&'static str>,
    pub keep_connection: bool,
}

pub open spec fn followup_spec(kind: CommandKind, ok: bool) -> (Refresh, bool, Option<Seq<char>>, bool) {
    match kind {
        CommandKind::SetCircuit | CommandKind::SetHeatSetpoint | CommandKind::SetHeatMode => if ok {
            (Refresh::Runtime, true, None, true)
        } else {
            (Refresh::Nothing, false, None, false)
        },
        CommandKind::SetLightCommand { command } => if ok {
            (Refresh::Nothing, false, Some(light_name_spec(command as int)), true)
        } else {
            (Refresh::Nothing, false, None, false)
        },
        CommandKind::RefreshAll => (Refresh::Everything, true, None, true),
        _ => (Refresh::Nothing, false, None, ok),
    }
}

pub open spec fn followup_view(f: CommandFollowup) -> (Refresh, bool, Option<Seq<char>>, bool) {
    (
        f.refresh,
        f.push_status,
        match f.light_mode {
            Some(m) => Some(m@),
            None => None,
        },
        f.keep_connection,
    )
}

/// Circuit and heat commands re-read the runtime state and tell subscribers;
/// a light command records the mode it set; a full refresh always succeeds;
/// any refused command means the link is lost.
pub fn command_followup(kind: CommandKind, ok: bool) -> (f: CommandFollowup)
    ensures
        followup_view(f) == followup_spec(kind, ok),
{
    match kind {
        CommandKind::SetCircuit | CommandKind::SetHeatSetpoint | CommandKind::SetHeatMode => {
            if ok {
                CommandFollowup { refresh: Refresh::Runtime, push_status: true, light_mode: None, keep_connection: true }
            } else {
                CommandFollowup { refresh: Refresh::Nothing, push_status: false, light_mode: None, keep_connection: false }
            }
        },
        CommandKind::SetLightCommand { command } => {
            if ok {
                CommandFollowup {
                    refresh: Refresh::Nothing,
                    push_status: false,
                    light_mode: Some(light_mode_name(command)),
                    keep_connection: true,
                }
            } else {
                CommandFollowup { refresh: Refresh::Nothing, push_status: false, light_mode: None, keep_connection: false }
            }
        },
        CommandKind::RefreshAll => CommandFollowup {
            refresh: Refresh::Everything,
            push_status: true,
            light_mode: None,
            keep_connection: true,
        },
        _ => CommandFollowup { refresh: Refresh::Nothing, push_status: false, light_mode: None, keep_connection: ok },
    }
}

/// What happened on the adapter link.
#[derive(Debug, Clone, Copy, PartialEq, Eq, Structural)]
pub enum LinkEvent {
    /// Auto-discovery found no adapter.
    DiscoveryFailed,
    /// The connection attempt failed.
    ConnectFailed,
    /// Connected: the session runs until the link is lost.
    Connected,
    /// A running session lost the link.
    SessionEnded,
}

/// What the adapter task does next: wait this long before the next attempt
/// (none while connected), and whether to notify that the link was lost.
#[derive(Debug, Clone, Copy, PartialEq, Eq, Structural)]
pub struct LinkStep {
    pub sleep_secs: Option<u64>,
    pub notify_lost: bool,
}

/// The reconnect loop's state: the wait before the next attempt.
#[derive(Debug, Clone, Copy, PartialEq, Eq, Structural)]
pub struct Reconnect {
    pub backoff_secs: u64,
}

pub open spec fn reconnect_wf(r: Reconnect) -> bool {
    INITIAL_BACKOFF_SECS <= r.backoff_secs <= MAX_BACKOFF_SECS
}

pub open spec fn link_step_spec(r: Reconnect, e: LinkEvent) -> (Reconnect, LinkStep) {
    match e {
        LinkEvent::Connected => (
            Reconnect { backoff_secs: INITIAL_BACKOFF_SECS },
            LinkStep { sleep_secs: None, notify_lost: false },
        ),
        LinkEvent::SessionEnded => (
            Reconnect { backoff_secs: next_backoff_spec(r.backoff_secs as int) as u64 },
            LinkStep { sleep_secs: Some(r.backoff_secs), notify_lost: true },
        ),
        _ => (
            Reconnect { backoff_secs: next_backoff_spec(r.backoff_secs as int) as u64 },
            LinkStep { sleep_secs: Some(r.backoff_secs), notify_lost: false },
        ),
    }
}

impl Reconnect {
    pub fn new() -> (r: Self)
        ensures
            r.backoff_secs == INITIAL_BACKOFF_SECS,
            reconnect_wf(r),
    {
        Reconnect { backoff_secs: INITIAL_BACKOFF_SECS }
    }

    /// Advance on a link event: a connection resets the wait; a failure or a
    /// lost session waits the current time and doubles it (at most a
    /// minute); a lost session is also announced.
    pub fn step(&mut self, e: LinkEvent) -> (s: LinkStep)
        requires
            reconnect_wf(*old(self)),
        ensures
            (*final(self), s) == link_step_spec(*old(self), e),
            reconnect_wf(*final(self)),
    {
        match e {
            LinkEvent::Connected => {
                self.backoff_secs = INITIAL_BACKOFF_SECS;
                LinkStep { sleep_secs: None, notify_lost: false }
            },
            LinkEvent::SessionEnded => {
                let wait = self.backoff_secs;
                self.backoff_secs = next_backoff(wait);
                LinkStep { sleep_secs: Some(wait), notify_lost: true }
            },
            _ => {
                let wait = self.backoff_secs;
                self.backoff_secs = next_backoff(wait);
                LinkStep { sleep_secs: Some(wait), notify_lost: false }
            },
        }
    }
}

/// Every wait the loop takes lies in `[1, 60]` seconds, and after a
/// connection the next wait is one second again.
pub proof fn lemma_reconnect_waits_bounded(r: Reconnect, e: LinkEvent)
    requires
        reconnect_wf(r),
    ensures
        reconnect_wf(link_step_spec(r, e).0),
        link_step_spec(r, e).1.sleep_secs matches Some(w) ==> INITIAL_BACKOFF_SECS <= w <= MAX_BACKOFF_SECS,
        e == LinkEvent::Connected ==> link_step_spec(r, e).0.backoff_secs == INITIAL_BACKOFF_SECS,
{
}

} // verus!
