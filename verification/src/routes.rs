//! What the HTTP API decides: light and heat names to controller codes, the
//! checks and command order of a heat request, how a scene command is
//! dispatched, the replies each outcome gets, goodnight's report, the LAN
//! approval redirect, and the fill-in of the web pages.

use vstd::prelude::*;
use base64::Engine;
use crate::config::WebConfig;
use crate::scheduled_heat::{setpoint_in_range, HeatStep};
use crate::text::{
    chars_ends_with, chars_of, concat2, concat3, int_error_message, int_error_text, nat_text,
    opt_text, owned, parse_i32, parse_int, push_nat, replace_all, replace_str, str_eq, ends_with,
    IntErrorKind,
};

verus! {

// ── Names and codes ─────────────────────────────────────────────────────

/// The light command code of each light mode name.
pub open spec fn light_command_spec(m: Seq<char>) -> Option<i32> {
    if m == "off"@ {
        Some(0)
    } else if m == "on"@ {
        Some(1)
    } else if m == "set"@ {
        Some(2)
    } else if m == "sync"@ {
        Some(3)
    } else if m == "swim"@ {
        Some(4)
    } else if m == "party"@ {
        Some(5)
    } else if m == "romantic"@ {
        Some(6)
    } else if m == "caribbean"@ {
        Some(7)
    } else if m == "american"@ {
        Some(8)
    } else if m == "sunset"@ {
        Some(9)
    } else if m == "royal"@ {
        Some(10)
    } else if m == "blue"@ {
        Some(13)
    } else if m == "green"@ {
        Some(14)
    } else if m == "red"@ {
        Some(15)
    } else if m == "white"@ {
        Some(16)
    } else if m == "purple"@ {
        Some(17)
    } else {
        None
    }
}

/// Map a light mode name to its protocol command code.
pub fn light_mode_to_command(mode: &str) -> (r: Option<i32>)
    ensures
        r == light_command_spec(mode@),
{
    if str_eq(mode, "off") {
        Some(0)
    } else if str_eq(mode, "on") {
        Some(1)
    } else if str_eq(mode, "set") {
        Some(2)
    } else if str_eq(mode, "sync") {
        Some(3)
    } else if str_eq(mode, "swim") {
        Some(4)
    } else if str_eq(mode, "party") {
        Some(5)
    } else if str_eq(mode, "romantic") {
        Some(6)
    } else if str_eq(mode, "caribbean") {
        Some(7)
    } else if str_eq(mode, "american") {
        Some(8)
    } else if str_eq(mode, "sunset") {
        Some(9)
    } else if str_eq(mode, "royal") {
        Some(10)
    } else if str_eq(mode, "blue") {
        Some(13)
    } else if str_eq(mode, "green") {
        Some(14)
    } else if str_eq(mode, "red") {
        Some(15)
    } else if str_eq(mode, "white") {
        Some(16)
    } else if str_eq(mode, "purple") {
        Some(17)
    } else {
        None
    }
}

/// The controller's number for a body: pool 0, spa 1.
pub open spec fn body_type_spec(name: Seq<char>) -> Option<i32> {
    if name == "pool"@ {
        Some(0)
    } else if name == "spa"@ {
        Some(1)
    } else {
        None
    }
}

pub fn heat_body_type(name: &str) -> (r: Option<i32>)
    ensures
        r == body_type_spec(name@),
{
    if str_eq(name, "pool") {
        Some(0)
    } else if str_eq(name, "spa") {
        Some(1)
    } else {
        None
    }
}

/// The controller's heat mode codes by name; "heat-pump" and "heater" are
/// the same mode.
pub open spec fn heat_mode_spec(name: Seq<char>) -> Option<i32> {
    if name == "off"@ {
        Some(0)
    } else if name == "solar"@ {
        Some(1)
    } else if name == "solar-preferred"@ {
        Some(2)
    } else if name == "heat-pump"@ || name == "heater"@ {
        Some(3)
    } else {
        None
    }
}

pub fn heat_mode_code(name: &str) -> (r: Option<i32>)
    ensures
        r == heat_mode_spec(name@),
{
    if str_eq(name, "off") {
        Some(0)
    } else if str_eq(name, "solar") {
        Some(1)
    } else if str_eq(name, "solar-preferred") {
        Some(2)
    } else if str_eq(name, "heat-pump") || str_eq(name, "heater") {
        Some(3)
    } else {
        None
    }
}

// ── Replies ─────────────────────────────────────────────────────────────

/// An API reply: the HTTP status and the `{"ok": .., "error": ..}` body.
#[derive(Debug)]
pub struct ApiReply {
    pub status: u16,
    pub ok: bool,
    pub error: Option<String>,
}

/// A reply as plain values: status, ok, error text.
pub open spec fn reply_view(r: ApiReply) -> (u16, bool, Option<Seq<char>>) {
    (r.status, r.ok, opt_text(r.error))
}

pub open spec fn ok_view(status: u16) -> (u16, bool, Option<Seq<char>>) {
    (status, true, None)
}

pub open spec fn err_view(status: u16, text: Seq<char>) -> (u16, bool, Option<Seq<char>>) {
    (status, false, Some(text))
}

pub fn ok_reply() -> (r: ApiReply)
    ensures
        reply_view(r) == ok_view(200),
{
    ApiReply { status: 200, ok: true, error: None }
}

pub fn error_reply(status: u16, error: String) -> (r: ApiReply)
    ensures
        reply_view(r) == err_view(status, error@),
{
    ApiReply { status, ok: false, error: Some(error) }
}

/// How a command's outcome reads back: `None` when the adapter went away
/// before answering.
pub open spec fn command_reply_spec(outcome: Option<Result<(), Seq<char>>>) -> (u16, bool, Option<Seq<char>>) {
    match outcome {
        Some(Ok(())) => ok_view(200),
        Some(Err(e)) => err_view(200, e),
        None => err_view(200, "adapter disconnected"@),
    }
}

pub open spec fn outcome_view(outcome: Option<Result<(), String>>) -> Option<Result<(), Seq<char>>> {
    match outcome {
        Some(Ok(())) => Some(Ok(())),
        Some(Err(e)) => Some(Err(e@)),
        None => None,
    }
}

/// The reply to a circuit or light command once the adapter answered (or not).
pub fn command_reply(outcome: Option<Result<(), String>>) -> (r: ApiReply)
    ensures
        reply_view(r) == command_reply_spec(outcome_view(outcome)),
{
    match outcome {
        Some(Ok(())) => ok_reply(),
        Some(Err(e)) => error_reply(200, e),
        None => error_reply(200, owned("adapter disconnected")),
    }
}

/// The reply for a device name that resolves to no circuit.
pub fn unknown_device_reply(id: &str) -> (r: ApiReply)
    ensures
        reply_view(r) == err_view(200, "unknown device: "@ + id@),
{
    error_reply(200, concat2("unknown device: ", id))
}

/// The reply when a heat command fails: the adapter's error (500), or the
/// adapter gone (503).
pub open spec fn heat_failure_spec(error: Option<Seq<char>>) -> (u16, bool, Option<Seq<char>>) {
    match error {
        Some(e) => err_view(500, e),
        None => err_view(503, "adapter unavailable"@),
    }
}

pub fn heat_failure_reply(error: Option<String>) -> (r: ApiReply)
    ensures
        reply_view(r) == heat_failure_spec(opt_text(error)),
{
    match error {
        Some(e) => error_reply(500, e),
        None => error_reply(503, owned("adapter unavailable")),
    }
}

/// Read a reply back as success, or its error (`"unknown error"` when it
/// carries none).
pub open spec fn reply_result_spec(ok: bool, error: Option<Seq<char>>) -> Result<(), Seq<char>> {
    if ok {
        Ok(())
    } else {
        match error {
            Some(e) => Err(e),
            None => Err("unknown error"@),
        }
    }
}

pub open spec fn unit_result_view(r: Result<(), String>) -> Result<(), Seq<char>> {
    match r {
        Ok(()) => Ok(()),
        Err(e) => Err(e@),
    }
}

pub fn json_to_result(reply: &ApiReply) -> (r: Result<(), String>)
    ensures
        unit_result_view(r) == reply_result_spec(reply.ok, opt_text(reply.error)),
{
    if reply.ok {
        Ok(())
    } else {
        match &reply.error {
            Some(e) => Err(e.clone()),
            None => Err(owned("unknown error")),
        }
    }
}

// ── Heat requests ───────────────────────────────────────────────────────

/// A heat request for one body: the commands to send in order, and the
/// reply once they all succeeded. A refused request sends the commands
/// before the refusal and then gives the refusal.
pub open spec fn heat_plan_spec(
    body: Seq<char>,
    setpoint: Option<i32>,
    mode: Option<Seq<char>>,
) -> (Seq<HeatStep>, (u16, bool, Option<Seq<char>>)) {
    match body_type_spec(body) {
        None => (Seq::empty(), err_view(400, "unknown body"@)),
        Some(bt) => {
            if setpoint matches Some(s) && !setpoint_in_range(s as int) {
                (Seq::empty(), err_view(400, "setpoint must be 40-104"@))
            } else {
                let first = match setpoint {
                    Some(s) => seq![HeatStep::SetHeatSetpoint { body_type: bt, temp: s }],
                    None => Seq::empty(),
                };
                match mode {
                    None => (first, ok_view(200)),
                    Some(m) => match heat_mode_spec(m) {
                        None => (first, err_view(400, "unknown heat mode: "@ + m)),
                        Some(code) => (
                            first.push(HeatStep::SetHeatMode { body_type: bt, mode: code }),
                            ok_view(200),
                        ),
                    },
                }
            }
        },
    }
}

/// The steps of a heat request and its final reply.
#[derive(Debug)]
pub struct HeatPlan {
    pub steps: Vec<HeatStep>,
    pub reply: ApiReply,
}

/// Check a heat request for `body_name` ("pool" or "spa") and lay out the
/// commands it sends: the setpoint (40-104 F), then the heat mode.
pub fn plan_heat(body_name: &str, setpoint: Option<i32>, mode: &Option<String>) -> (p: HeatPlan)
    ensures
        (p.steps@, reply_view(p.reply)) == heat_plan_spec(body_name@, setpoint, opt_text(*mode)),
{
    let bt = match heat_body_type(body_name) {
        Some(b) => b,
        None => {
            return HeatPlan { steps: Vec::new(), reply: error_reply(400, owned("unknown body")) };
        },
    };
    let mut steps: Vec<HeatStep> = Vec::new();
    match setpoint {
        Some(s) => {
            if !(40 <= s && s <= 104) {
                return HeatPlan {
                    steps: Vec::new(),
                    reply: error_reply(400, owned("setpoint must be 40-104")),
                };
            }
            steps.push(HeatStep::SetHeatSetpoint { body_type: bt, temp: s });
        },
        None => {},
    }
    let ghost first = steps@;
    match mode {
        None => {
            HeatPlan { steps, reply: ok_reply() }
        },
        Some(m) => match heat_mode_code(m.as_str()) {
            None => HeatPlan { steps, reply: error_reply(400, concat2("unknown heat mode: ", m.as_str())) },
            Some(code) => {
                steps.push(HeatStep::SetHeatMode { body_type: bt, mode: code });
                proof {
                    assert(steps@ =~= first.push(HeatStep::SetHeatMode { body_type: bt, mode: code }));
                }
                HeatPlan { steps, reply: ok_reply() }
            },
        },
    }
}

/// The controller's numbers for heat requests: body pool 0 and spa 1; heat
/// mode off 0, solar 1, solar-preferred 2, and heat-pump or heater 3.
pub proof fn lemma_heat_codes_follow_protocol()
    ensures
        body_type_spec("pool"@) == Some(0i32),
        body_type_spec("spa"@) == Some(1i32),
        heat_mode_spec("off"@) == Some(0i32),
        heat_mode_spec("solar"@) == Some(1i32),
        heat_mode_spec("solar-preferred"@) == Some(2i32),
        heat_mode_spec("heat-pump"@) == Some(3i32),
        heat_mode_spec("heater"@) == Some(3i32),
{
    assert(body_type_spec("pool"@) == Some(0i32)) by {
        reveal_strlit("pool");
    }
    assert(body_type_spec("spa"@) == Some(1i32)) by {
        reveal_strlit("spa");
        reveal_strlit("pool");
        assert("spa"@.len() != "pool"@.len());
    }
    assert(heat_mode_spec("off"@) == Some(0i32)) by {
        reveal_strlit("off");
    }
    assert(heat_mode_spec("solar"@) == Some(1i32)) by {
        reveal_strlit("solar");
        reveal_strlit("off");
        assert("solar"@.len() != "off"@.len());
    }
    assert(heat_mode_spec("solar-preferred"@) == Some(2i32)) by {
        reveal_strlit("solar-preferred");
        reveal_strlit("off");
        assert("solar-preferred"@.len() != "off"@.len());
        reveal_strlit("solar");
        assert("solar-preferred"@.len() != "solar"@.len());
    }
    assert(heat_mode_spec("heat-pump"@) == Some(3i32)) by {
        reveal_strlit("heat-pump");
        reveal_strlit("off");
        assert("heat-pump"@.len() != "off"@.len());
        reveal_strlit("solar");
        assert("heat-pump"@.len() != "solar"@.len());
        reveal_strlit("solar-preferred");
        assert("heat-pump"@.len() != "solar-preferred"@.len());
    }
    assert(heat_mode_spec("heater"@) == Some(3i32)) by {
        reveal_strlit("heater");
        reveal_strlit("off");
        assert("heater"@.len() != "off"@.len());
        reveal_strlit("solar");
        assert("heater"@.len() != "solar"@.len());
        reveal_strlit("solar-preferred");
        assert("heater"@.len() != "solar-preferred"@.len());
        reveal_strlit("heat-pump");
        assert("heater"@.len() != "heat-pump"@.len());
    }
}

/// What a heat request sends, in order. A request refused for its body
/// ("unknown body") or its setpoint ("setpoint must be 40-104") sends
/// nothing and gets a 400; an unknown mode gets a 400 naming it, after the
/// setpoint alone. For a known body and an
/// in-range setpoint, the first command sets that body's setpoint to it,
/// whatever the mode; without a setpoint no setpoint command is sent. A
/// known mode is sent last, to the same body, and the request succeeds; with
/// no mode the request succeeds after the setpoint alone.
pub proof fn lemma_heat_plan_order(body: Seq<char>, setpoint: Option<i32>, mode: Option<Seq<char>>)
    ensures
        body_type_spec(body) is None ==> heat_plan_spec(body, setpoint, mode).1 == err_view(400, "unknown body"@),
        (body_type_spec(body) is Some && setpoint is Some && !setpoint_in_range(setpoint->0 as int))
            ==> heat_plan_spec(body, setpoint, mode).1 == err_view(400, "setpoint must be 40-104"@),
        (body_type_spec(body) is Some && (setpoint is Some ==> setpoint_in_range(setpoint->0 as int))
            && mode is Some && heat_mode_spec(mode->0) is None)
            ==> heat_plan_spec(body, setpoint, mode).0.len() == (if setpoint is Some { 1int } else { 0int })
            && heat_plan_spec(body, setpoint, mode).1 == err_view(400, "unknown heat mode: "@ + mode->0),
        (body_type_spec(body) is None || (setpoint is Some && !setpoint_in_range(setpoint->0 as int)))
            ==> heat_plan_spec(body, setpoint, mode).0.len() == 0 && heat_plan_spec(body, setpoint, mode).1.0 == 400
            && !heat_plan_spec(body, setpoint, mode).1.1,
        (body_type_spec(body) is Some && setpoint is Some && setpoint_in_range(setpoint->0 as int))
            ==> heat_plan_spec(body, setpoint, mode).0.len() >= 1 && heat_plan_spec(body, setpoint, mode).0[0]
            == (HeatStep::SetHeatSetpoint { body_type: body_type_spec(body)->0, temp: setpoint->0 }),
        setpoint is None ==> forall|i: int|
            0 <= i < heat_plan_spec(body, setpoint, mode).0.len() ==> !(#[trigger] heat_plan_spec(body, setpoint, mode).0[i] is SetHeatSetpoint),
        (body_type_spec(body) is Some && (setpoint is Some ==> setpoint_in_range(setpoint->0 as int))
            && mode is Some && heat_mode_spec(mode->0) is Some)
            ==> heat_plan_spec(body, setpoint, mode).0.len() == (if setpoint is Some { 2int } else { 1int })
            && heat_plan_spec(body, setpoint, mode).0.last()
            == (HeatStep::SetHeatMode { body_type: body_type_spec(body)->0, mode: heat_mode_spec(mode->0)->0 })
            && heat_plan_spec(body, setpoint, mode).1 == ok_view(200),
        (body_type_spec(body) is Some && (setpoint is Some ==> setpoint_in_range(setpoint->0 as int)) && mode is None)
            ==> heat_plan_spec(body, setpoint, mode).0.len() == (if setpoint is Some { 1int } else { 0int })
            && heat_plan_spec(body, setpoint, mode).1 == ok_view(200),
{
}

// ── Light mode requests ─────────────────────────────────────────────────

/// The light command for a mode name, or the reply refusing it.
pub fn plan_light_mode(mode: &str) -> (r: Result<i32, ApiReply>)
    ensures
        match light_command_spec(mode@) {
            Some(c) => r == Ok::<i32, ApiReply>(c),
            None => r matches Err(e) && reply_view(e) == err_view(200, "unknown light mode: "@ + mode@),
        },
{
    match light_mode_to_command(mode) {
        Some(c) => Ok(c),
        None => Err(error_reply(200, concat2("unknown light mode: ", mode))),
    }
}

// ── Scene commands ──────────────────────────────────────────────────────

/// What a scene command does, run through the same paths as the API.
#[derive(Debug)]
pub enum SceneAction {
    /// Switch a named circuit.
    Circuit { id: String, on: bool },
    /// Jets off, then spa off.
    SpaOff,
    /// Spa on first if it is off, then jets on.
    JetsOn,
    /// A heat request setting only the setpoint of `body`.
    Heat { body: String, setpoint: i32 },
    /// A light command.
    Light { command: i32 },
}

/// A scene action as plain values.
pub enum PlannedAction {
    Circuit { id: Seq<char>, on: bool },
    SpaOff,
    JetsOn,
    Heat { body: Seq<char>, setpoint: int },
    Light { command: int },
}

pub open spec fn action_view(a: SceneAction) -> PlannedAction {
    match a {
        SceneAction::Circuit { id, on } => PlannedAction::Circuit { id: id@, on },
        SceneAction::SpaOff => PlannedAction::SpaOff,
        SceneAction::JetsOn => PlannedAction::JetsOn,
        SceneAction::Heat { body, setpoint } => PlannedAction::Heat { body: body@, setpoint: setpoint as int },
        SceneAction::Light { command } => PlannedAction::Light { command: command as int },
    }
}

pub open spec fn action_result_view(r: Result<SceneAction, String>) -> Result<PlannedAction, Seq<char>> {
    match r {
        Ok(a) => Ok(action_view(a)),
        Err(e) => Err(e@),
    }
}

pub open spec fn opt_str_view(o: Option<&str>) -> Option<Seq<char>> {
    match o {
        Some(s) => Some(s@),
        None => None,
    }
}

/// How the scene command `(target, action, value)` is dispatched.
pub open spec fn scene_action_spec(
    target: Seq<char>,
    action: Seq<char>,
    value: Option<Seq<char>>,
) -> Result<PlannedAction, Seq<char>> {
    if action == "on"@ {
        if target == "jets"@ {
            Ok(PlannedAction::JetsOn)
        } else {
            Ok(PlannedAction::Circuit { id: target, on: true })
        }
    } else if action == "off"@ {
        if target == "spa"@ {
            Ok(PlannedAction::SpaOff)
        } else {
            Ok(PlannedAction::Circuit { id: target, on: false })
        }
    } else if action == "heat"@ && (target == "spa"@ || target == "pool"@) {
        match value {
            None => Err(target + " heat requires a value (setpoint)"@),
            Some(v) => match parse_int(v, i32::MIN as int, i32::MAX as int) {
                Ok(n) => Ok(PlannedAction::Heat { body: target, setpoint: n }),
                Err(k) => Err("invalid setpoint: "@ + int_error_text(k)),
            },
        }
    } else if action == "mode"@ && target == "lights"@ {
        match value {
            None => Err("lights mode requires a value"@),
            Some(m) => match light_command_spec(m) {
                Some(c) => Ok(PlannedAction::Light { command: c as int }),
                None => Err("unknown light mode: "@ + m),
            },
        }
    } else {
        Err("unsupported command: "@ + target + " "@ + action)
    }
}

/// Decide what a scene command does, or why it cannot run.
pub fn scene_action(target: &str, action: &str, value: Option<&str>) -> (r: Result<SceneAction, String>)
    ensures
        action_result_view(r) == scene_action_spec(target@, action@, opt_str_view(value)),
{
    if str_eq(action, "on") {
        if str_eq(target, "jets") {
            Ok(SceneAction::JetsOn)
        } else {
            Ok(SceneAction::Circuit { id: owned(target), on: true })
        }
    } else if str_eq(action, "off") {
        if str_eq(target, "spa") {
            Ok(SceneAction::SpaOff)
        } else {
            Ok(SceneAction::Circuit { id: owned(target), on: false })
        }
    } else if str_eq(action, "heat") && (str_eq(target, "spa") || str_eq(target, "pool")) {
        match value {
            None => Err(concat2(target, " heat requires a value (setpoint)")),
            Some(v) => {
                let cs = chars_of(v);
                match parse_i32(&cs) {
                    Ok(n) => Ok(SceneAction::Heat { body: owned(target), setpoint: n }),
                    Err(k) => Err(concat2("invalid setpoint: ", int_error_message(k))),
                }
            },
        }
    } else if str_eq(action, "mode") && str_eq(target, "lights") {
        match value {
            None => Err(owned("lights mode requires a value")),
            Some(m) => match light_mode_to_command(m) {
                Some(c) => Ok(SceneAction::Light { command: c }),
                None => Err(concat2("unknown light mode: ", m)),
            },
        }
    } else {
        let mut t = concat3("unsupported command: ", target, " ");
        t.append(action);
        Err(t)
    }
}

/// Jets need the spa: the circuits a jets-on turns on, in order.
pub open spec fn jets_on_circuits(spa_on: bool) -> Seq<Seq<char>> {
    if spa_on {
        seq!["jets"@]
    } else {
        seq!["spa"@, "jets"@]
    }
}

pub fn jets_on_order(spa_on: bool) -> (v: Vec<&'static str>)
    ensures
        v@.len() == jets_on_circuits(spa_on).len(),
        forall|i: int| 0 <= i < v@.len() ==> v@[i]@ == jets_on_circuits(spa_on)[i],
{
    let mut v: Vec<&'static str> = Vec::new();
    if !spa_on {
        v.push("spa");
    }
    v.push("jets");
    v
}

// ── Goodnight ───────────────────────────────────────────────────────────

/// The devices goodnight failed to turn off, in the order it tried them.
pub open spec fn goodnight_failures(spa_on: bool, spa_ok: bool, lights_on: bool, lights_ok: bool) -> Seq<
    Seq<char>,
> {
    let a: Seq<Seq<char>> = if spa_on && !spa_ok {
        seq!["spa"@]
    } else {
        Seq::empty()
    };
    if lights_on && !lights_ok {
        a.push("lights"@)
    } else {
        a
    }
}

pub open spec fn goodnight_spec(spa_on: bool, spa_ok: bool, lights_on: bool, lights_ok: bool) -> (
    u16,
    bool,
    Option<Seq<char>>,
) {
    let f = goodnight_failures(spa_on, spa_ok, lights_on, lights_ok);
    if f.len() == 0 {
        ok_view(200)
    } else if f.len() == 1 {
        err_view(200, "failed to turn off: "@ + f[0])
    } else {
        err_view(200, "failed to turn off: "@ + f[0] + ", "@ + f[1])
    }
}

/// Goodnight's report: it turns the spa (after the jets) and the lights off
/// where they are on, and names the ones that failed.
pub fn goodnight_reply(spa_on: bool, spa_ok: bool, lights_on: bool, lights_ok: bool) -> (r: ApiReply)
    ensures
        reply_view(r) == goodnight_spec(spa_on, spa_ok, lights_on, lights_ok),
{
    let spa_failed = spa_on && !spa_ok;
    let lights_failed = lights_on && !lights_ok;
    if spa_failed && lights_failed {
        let mut t = concat3("failed to turn off: ", "spa", ", ");
        t.append("lights");
        error_reply(200, t)
    } else if spa_failed {
        error_reply(200, concat2("failed to turn off: ", "spa"))
    } else if lights_failed {
        error_reply(200, concat2("failed to turn off: ", "lights"))
    } else {
        ok_reply()
    }
}

// ── Origins and hosts ───────────────────────────────────────────────────

/// A host belongs to `domain` when it is the domain or one of its
/// subdomains (a dot before the domain, not just a common suffix).
pub open spec fn host_in_domain(host: Seq<char>, domain: Seq<char>) -> bool {
    host == domain || ends_with(host, "."@ + domain)
}

pub fn host_matches_domain(host: &str, domain: &str) -> (b: bool)
    ensures
        b == host_in_domain(host@, domain@),
{
    if str_eq(host, domain) {
        return true;
    }
    let h = chars_of(host);
    let d = chars_of(concat2(".", domain).as_str());
    chars_ends_with(&h, &d)
}

/// The host part `url::Url::parse` finds in `s`; `None` when `s` does not
/// parse as a URL or has no host.
pub uninterp spec fn url_host(s: Seq<char>) -> Option<Seq<char>>;

/// Calls `url::Url::parse(s)` and reads `host_str()` of the result; the
/// outcome is named by `url_host`.
#[verifier::external_body]
fn parse_url_host(s: &str) -> (r: Option<String>)
    ensures
        opt_text(r) == url_host(s@),
{
    match url::Url::parse(s) {
        Ok(u) => u.host_str().map(|h| h.to_string()),
        Err(_) => None,
    }
}

/// Whether an origin whose URL host came out as `host` may be redirected to
/// for `remote_domain`; an empty domain allows nothing.
pub open spec fn origin_allowed(host: Option<Seq<char>>, remote_domain: Seq<char>) -> bool {
    remote_domain.len() > 0 && match host {
        Some(h) => host_in_domain(h, remote_domain),
        None => false,
    }
}

pub fn origin_host_allowed(host: &Option<String>, remote_domain: &str) -> (b: bool)
    ensures
        b == origin_allowed(opt_text(*host), remote_domain@),
{
    if remote_domain.unicode_len() == 0 {
        return false;
    }
    match host {
        Some(h) => host_matches_domain(h.as_str(), remote_domain),
        None => false,
    }
}

/// Validate that a redirect origin matches the configured remote domain.
/// Empty remote_domain rejects all origins (safe default for LAN-only use).
pub fn is_valid_redirect_origin(origin: &str, remote_domain: &str) -> (b: bool)
    ensures
        b == origin_allowed(url_host(origin@), remote_domain@),
{
    let host = parse_url_host(origin);
    origin_host_allowed(&host, remote_domain)
}

// ── LAN approval ────────────────────────────────────────────────────────

/// What an approval request gets: a refusal, or the redirect to the signed
/// callback.
#[derive(Debug)]
pub enum ApproveOutcome {
    Refused { status: u16, message: String },
    Redirect { location: String },
}

/// An ASCII letter or digit, as a byte.
pub open spec fn is_ascii_alphanumeric_byte(b: u8) -> bool {
    (0x30 <= b <= 0x39) || (0x41 <= b <= 0x5a) || (0x61 <= b <= 0x7a)
}

/// The upper-case hex digit of a nibble.
pub open spec fn upper_hex_digit(n: int) -> char {
    if n < 10 {
        (('0' as int) + n) as char
    } else {
        (('A' as int) + n - 10) as char
    }
}

/// One byte percent-encoded against the non-alphanumeric set: an ASCII
/// letter or digit stands for itself, any other byte is `%` and its two
/// upper-case hex digits.
pub open spec fn percent_encoded_byte(b: u8) -> Seq<char> {
    if is_ascii_alphanumeric_byte(b) {
        seq![b as char]
    } else {
        seq!['%', upper_hex_digit(b as int / 16), upper_hex_digit(b as int % 16)]
    }
}

/// Bytes percent-encoded one by one, in order.
pub open spec fn percent_encoded_bytes(bytes: Seq<u8>) -> Seq<char>
    decreases bytes.len(),
{
    if bytes.len() == 0 {
        Seq::empty()
    } else {
        percent_encoded_bytes(bytes.drop_last()) + percent_encoded_byte(bytes.last())
    }
}

/// Text percent-encoded: its UTF-8 bytes, each encoded as above.
pub open spec fn percent_encoded(s: Seq<char>) -> Seq<char> {
    percent_encoded_bytes(vstd::utf8::encode_utf8(s))
}

/// Calls `percent_encoding::utf8_percent_encode(s, NON_ALPHANUMERIC)` and
/// collects the text. Claimed, as the crate's source shows it: every byte of
/// the UTF-8 encoding of `s` that is not an ASCII letter or digit (all
/// non-ASCII bytes, and every ASCII byte that `NON_ALPHANUMERIC` lists) is
/// written as `%` and two upper-case hex digits; the letters and digits stay.
#[verifier::external_body]
fn percent_encode_component(s: &str) -> (r: String)
    ensures
        r@ == percent_encoded(s@),
{
    percent_encoding::utf8_percent_encode(s, percent_encoding::NON_ALPHANUMERIC).to_string()
}

/// The host the signed callback goes to: the request's own host when it
/// belongs to the remote domain, else the remote domain.
pub open spec fn callback_host(host_header: Option<Seq<char>>, remote_domain: Seq<char>) -> Seq<char> {
    match host_header {
        Some(h) => if host_in_domain(h, remote_domain) {
            h
        } else {
            remote_domain
        },
        None => remote_domain,
    }
}

pub open spec fn callback_location(host: Seq<char>, email: Seq<char>, ts: nat, sig: Seq<char>) -> Seq<char> {
    "https://"@ + host + "/api/approve-callback?email="@ + percent_encoded(email) + "&ts="@
        + nat_text(ts) + "&sig="@ + sig
}

/// Whether the requester is on the home network: its public address (as the
/// tunnel reports it) equals ours.
pub open spec fn same_network(client_ip: Option<Seq<char>>, public_ip: Option<Seq<char>>) -> bool {
    client_ip is Some && public_ip is Some && client_ip == public_ip
}

/// An approval outcome as plain values.
pub enum ApproveView {
    Refused { status: u16, message: Seq<char> },
    Redirect { location: Seq<char> },
}

pub open spec fn approve_view(r: ApproveOutcome) -> ApproveView {
    match r {
        ApproveOutcome::Refused { status, message } => ApproveView::Refused { status, message: message@ },
        ApproveOutcome::Redirect { location } => ApproveView::Redirect { location: location@ },
    }
}

/// Approval needs a configured remote domain (else 400) and a requester on
/// the home network (else 403); then it redirects to the signed callback.
pub open spec fn approve_spec(
    remote_domain: Seq<char>,
    client_ip: Option<Seq<char>>,
    public_ip: Option<Seq<char>>,
    host_header: Option<Seq<char>>,
    email: Seq<char>,
    ts: nat,
    signature: Seq<char>,
) -> ApproveView {
    if remote_domain.len() == 0 {
        ApproveView::Refused { status: 400, message: "Remote domain not configured"@ }
    } else if !same_network(client_ip, public_ip) {
        ApproveView::Refused { status: 403, message: "You must be on the home network to approve access."@ }
    } else {
        ApproveView::Redirect {
            location: callback_location(callback_host(host_header, remote_domain), email, ts, signature),
        }
    }
}

/// Decide an approval request. `signature` is the callback signature for
/// `email` at `ts` (see `network_secret::sign`).
pub fn approve_outcome(
    remote_domain: &str,
    client_ip: Option<&str>,
    public_ip: Option<&str>,
    host_header: Option<&str>,
    email: &str,
    ts: u64,
    signature: &str,
) -> (r: ApproveOutcome)
    ensures
        approve_view(r) == approve_spec(
            remote_domain@,
            opt_str_view(client_ip),
            opt_str_view(public_ip),
            opt_str_view(host_header),
            email@,
            ts as nat,
            signature@,
        ),
{
    if remote_domain.unicode_len() == 0 {
        return ApproveOutcome::Refused { status: 400, message: owned("Remote domain not configured") };
    }
    let local = match (client_ip, public_ip) {
        (Some(c), Some(p)) => str_eq(c, p),
        _ => false,
    };
    if !local {
        return ApproveOutcome::Refused {
            status: 403,
            message: owned("You must be on the home network to approve access."),
        };
    }
    let host: &str = match host_header {
        Some(h) => if host_matches_domain(h, remote_domain) {
            h
        } else {
            remote_domain
        },
        None => remote_domain,
    };
    let mut loc = concat3("https://", host, "/api/approve-callback?email=");
    let enc = percent_encode_component(email);
    loc.append(enc.as_str());
    loc.append("&ts=");
    push_nat(&mut loc, ts);
    loc.append("&sig=");
    loc.append(signature);
    ApproveOutcome::Redirect { location: loc }
}


// ── Pages ───────────────────────────────────────────────────────────────

/// Text made safe to place in HTML: `&`, `<`, `>` and `"` become entities
/// (`&` first, so entities are not escaped twice).
pub open spec fn html_escape_spec(s: Seq<char>) -> Seq<char> {
    replace_all(
        replace_all(replace_all(replace_all(s, "&"@, "&amp;"@), "<"@, "&lt;"@), ">"@, "&gt;"@),
        "\""@,
        "&quot;"@,
    )
}

pub fn html_escape(s: &str) -> (r: String)
    ensures
        r@ == html_escape_spec(s@),
{
    proof {
        reveal_strlit("&");
        reveal_strlit("<");
        reveal_strlit(">");
        reveal_strlit("\"");
    }
    let a = replace_str(s, "&", "&amp;");
    let b = replace_str(a.as_str(), "<", "&lt;");
    let c = replace_str(b.as_str(), ">", "&gt;");
    replace_str(c.as_str(), "\"", "&quot;")
}

proof fn lemma_replace_keeps_absent(s: Seq<char>, from: Seq<char>, to: Seq<char>, c: char)
    requires
        !s.contains(c),
        !to.contains(c),
    ensures
        !replace_all(s, from, to).contains(c),
    decreases s.len(),
{
    if from.len() == 0 || s.len() < from.len() {
    } else if s.subrange(0, from.len() as int) == from {
        let rest = s.subrange(from.len() as int, s.len() as int);
        assert(!rest.contains(c)) by {
            if rest.contains(c) {
                let j = choose|j: int| 0 <= j < rest.len() && rest[j] == c;
                assert(s[j + from.len()] == c);
            }
        }
        lemma_replace_keeps_absent(rest, from, to, c);
        let r = to + replace_all(rest, from, to);
        assert(!r.contains(c)) by {
            if r.contains(c) {
                let j = choose|j: int| 0 <= j < r.len() && r[j] == c;
                if j < to.len() {
                    assert(to[j] == c);
                } else {
                    assert(replace_all(rest, from, to)[j - to.len()] == c);
                }
            }
        }
    } else {
        let rest = s.drop_first();
        assert(!rest.contains(c)) by {
            if rest.contains(c) {
                let j = choose|j: int| 0 <= j < rest.len() && rest[j] == c;
                assert(s[j + 1] == c);
            }
        }
        lemma_replace_keeps_absent(rest, from, to, c);
        let r = seq![s[0]] + replace_all(rest, from, to);
        assert(!r.contains(c)) by {
            if r.contains(c) {
                let j = choose|j: int| 0 <= j < r.len() && r[j] == c;
                if j == 0 {
                    assert(s[0] == c);
                } else {
                    assert(replace_all(rest, from, to)[j - 1] == c);
                }
            }
        }
    }
}

proof fn lemma_replace_removes(s: Seq<char>, c: char, to: Seq<char>)
    requires
        !to.contains(c),
    ensures
        !replace_all(s, seq![c], to).contains(c),
    decreases s.len(),
{
    let from = seq![c];
    if s.len() < 1 {
    } else if s.subrange(0, 1) == from {
        let rest = s.subrange(1, s.len() as int);
        lemma_replace_removes(rest, c, to);
        let r = to + replace_all(rest, from, to);
        assert(!r.contains(c)) by {
            if r.contains(c) {
                let j = choose|j: int| 0 <= j < r.len() && r[j] == c;
                if j < to.len() {
                    assert(to[j] == c);
                } else {
                    assert(replace_all(rest, from, to)[j - to.len()] == c);
                }
            }
        }
    } else {
        assert(s[0] != c) by {
            if s[0] == c {
                assert(s.subrange(0, 1) =~= from);
            }
        }
        let rest = s.drop_first();
        lemma_replace_removes(rest, c, to);
        let r = seq![s[0]] + replace_all(rest, from, to);
        assert(!r.contains(c)) by {
            if r.contains(c) {
                let j = choose|j: int| 0 <= j < r.len() && r[j] == c;
                if j > 0 {
                    assert(replace_all(rest, from, to)[j - 1] == c);
                }
            }
        }
    }
}

/// Escaped text holds no raw `<`, `>` or `"`: a value put into a page
/// cannot open a tag or close an attribute.
pub proof fn lemma_escaped_has_no_markup(s: Seq<char>)
    ensures
        !html_escape_spec(s).contains('<'),
        !html_escape_spec(s).contains('>'),
        !html_escape_spec(s).contains('"'),
{
    reveal_strlit("&");
    reveal_strlit("<");
    reveal_strlit(">");
    reveal_strlit("\"");
    reveal_strlit("&amp;");
    reveal_strlit("&lt;");
    reveal_strlit("&gt;");
    reveal_strlit("&quot;");
    let a = replace_all(s, "&"@, "&amp;"@);
    let b = replace_all(a, "<"@, "&lt;"@);
    let c = replace_all(b, ">"@, "&gt;"@);
    assert("<"@ =~= seq!['<']);
    assert(">"@ =~= seq!['>']);
    assert("\""@ =~= seq!['"']);
    assert(!"&lt;"@.contains('<')) by {
        if "&lt;"@.contains('<') {
            let j = choose|j: int| 0 <= j < 4 && "&lt;"@[j] == '<';
        }
    }
    assert(!"&gt;"@.contains('<') && !"&gt;"@.contains('>')) by {
        if "&gt;"@.contains('<') {
            let j = choose|j: int| 0 <= j < 4 && "&gt;"@[j] == '<';
        }
        if "&gt;"@.contains('>') {
            let j = choose|j: int| 0 <= j < 4 && "&gt;"@[j] == '>';
        }
    }
    assert(!"&quot;"@.contains('<') && !"&quot;"@.contains('>') && !"&quot;"@.contains('"')) by {
        if "&quot;"@.contains('<') {
            let j = choose|j: int| 0 <= j < 6 && "&quot;"@[j] == '<';
        }
        if "&quot;"@.contains('>') {
            let j = choose|j: int| 0 <= j < 6 && "&quot;"@[j] == '>';
        }
        if "&quot;"@.contains('"') {
            let j = choose|j: int| 0 <= j < 6 && "&quot;"@[j] == '"';
        }
    }
    lemma_replace_removes(a, '<', "&lt;"@);
    lemma_replace_keeps_absent(b, ">"@, "&gt;"@, '<');
    lemma_replace_removes(b, '>', "&gt;"@);
    lemma_replace_keeps_absent(c, "\""@, "&quot;"@, '<');
    lemma_replace_keeps_absent(c, "\""@, "&quot;"@, '>');
    lemma_replace_removes(c, '"', "&quot;"@);
}

/// The web UI page with the Firebase settings and remote domain filled in.
pub open spec fn index_page_spec(
    template: Seq<char>,
    api_key: Seq<char>,
    auth_domain: Seq<char>,
    project_id: Seq<char>,
    remote_domain: Seq<char>,
) -> Seq<char> {
    replace_all(
        replace_all(
            replace_all(
                replace_all(template, "{{FIREBASE_API_KEY}}"@, api_key),
                "{{FIREBASE_AUTH_DOMAIN}}"@,
                auth_domain,
            ),
            "{{FIREBASE_PROJECT_ID}}"@,
            project_id,
        ),
        "{{REMOTE_DOMAIN}}"@,
        remote_domain,
    )
}

pub fn fill_index_page(template: &str, web: &WebConfig) -> (html: String)
    ensures
        html@ == index_page_spec(
            template@,
            web.firebase.api_key@,
            web.firebase.auth_domain@,
            web.firebase.project_id@,
            web.remote_domain@,
        ),
{
    proof {
        reveal_strlit("{{FIREBASE_API_KEY}}");
        reveal_strlit("{{FIREBASE_AUTH_DOMAIN}}");
        reveal_strlit("{{FIREBASE_PROJECT_ID}}");
        reveal_strlit("{{REMOTE_DOMAIN}}");
    }
    let a = replace_str(template, "{{FIREBASE_API_KEY}}", web.firebase.api_key.as_str());
    let b = replace_str(a.as_str(), "{{FIREBASE_AUTH_DOMAIN}}", web.firebase.auth_domain.as_str());
    let c = replace_str(b.as_str(), "{{FIREBASE_PROJECT_ID}}", web.firebase.project_id.as_str());
    replace_str(c.as_str(), "{{REMOTE_DOMAIN}}", web.remote_domain.as_str())
}

/// The approval page for `email` and `origin`, both escaped.
pub fn fill_approve_page(template: &str, email: &str, origin: &str) -> (html: String)
    ensures
        html@ == replace_all(
            replace_all(template@, "{{EMAIL}}"@, html_escape_spec(email@)),
            "{{ORIGIN}}"@,
            html_escape_spec(origin@),
        ),
{
    proof {
        reveal_strlit("{{EMAIL}}");
        reveal_strlit("{{ORIGIN}}");
    }
    let e = html_escape(email);
    let o = html_escape(origin);
    let a = replace_str(template, "{{EMAIL}}", e.as_str());
    replace_str(a.as_str(), "{{ORIGIN}}", o.as_str())
}

/// The pairing page with the QR image inlined and the manual code filled in.
pub fn fill_matter_page(template: &str, qr_data_url: &str, manual_code: &str) -> (html: String)
    ensures
        html@ == replace_all(
            replace_all(template@, "/api/matter/qr"@, qr_data_url@),
            "{{MANUAL_CODE}}"@,
            manual_code@,
        ),
{
    proof {
        reveal_strlit("/api/matter/qr");
        reveal_strlit("{{MANUAL_CODE}}");
    }
    let a = replace_str(template, "/api/matter/qr", qr_data_url);
    replace_str(a.as_str(), "{{MANUAL_CODE}}", manual_code)
}

/// The character of the standard base64 alphabet
/// (`A`–`Z`, `a`–`z`, `0`–`9`, `+`, `/`) for a six-bit value.
pub open spec fn base64_digit(n: int) -> char {
    if n < 26 {
        (('A' as int) + n) as char
    } else if n < 52 {
        (('a' as int) + n - 26) as char
    } else if n < 62 {
        (('0' as int) + n - 52) as char
    } else if n == 62 {
        '+'
    } else {
        '/'
    }
}

/// `bytes` in standard base64 with padding: each group of three bytes, read
/// as a 24-bit number, becomes four digits of six bits, high bits first; a
/// last group of one or two bytes is filled out with zero bits and the
/// missing digits are written as `=`.
pub open spec fn base64_standard(bytes: Seq<u8>) -> Seq<char>
    decreases bytes.len(),
{
    if bytes.len() == 0 {
        Seq::empty()
    } else if bytes.len() == 1 {
        let n = bytes[0] as int * 65536;
        seq![base64_digit(n / 262144), base64_digit((n / 4096) % 64), '=', '=']
    } else if bytes.len() == 2 {
        let n = bytes[0] as int * 65536 + bytes[1] as int * 256;
        seq![base64_digit(n / 262144), base64_digit((n / 4096) % 64), base64_digit((n / 64) % 64), '=']
    } else {
        let n = bytes[0] as int * 65536 + bytes[1] as int * 256 + bytes[2] as int;
        seq![
            base64_digit(n / 262144),
            base64_digit((n / 4096) % 64),
            base64_digit((n / 64) % 64),
            base64_digit(n % 64),
        ] + base64_standard(bytes.subrange(3, bytes.len() as int))
    }
}

/// Calls `base64::engine::general_purpose::STANDARD.encode`. Claimed, as the
/// crate's source shows it (`STANDARD` is the standard alphabet with
/// padding): the text is `base64_standard` of the bytes. The length check
/// inside `encode` cannot fail for the length of a `Vec`, which std keeps
/// within `isize::MAX` bytes.
#[verifier::external_body]
fn base64_encode(bytes: &Vec<u8>) -> (s: String)
    ensures
        s@ == base64_standard(bytes@),
{
    base64::engine::general_purpose::STANDARD.encode(bytes)
}

/// The QR image as a `data:` URL, or nothing when it could not be made.
pub fn qr_data_url(png: &Result<Vec<u8>, String>) -> (u: String)
    ensures
        match png {
            Ok(b) => u@ == "data:image/png;base64,"@ + base64_standard(b@),
            Err(_) => u@.len() == 0,
        },
{
    match png {
        Ok(b) => concat2("data:image/png;base64,", base64_encode(b).as_str()),
        Err(_) => String::new(),
    }
}

// ── Matter pairing ──────────────────────────────────────────────────────

/// Default Matter setup code (test credentials: discriminator 3840, passcode
/// 20202021, vendor 0xFFF1, product 0x8001).
pub const DEFAULT_MATTER_SETUP_CODE: &'static str = "MT:-24J0AFN00KA064IJ3P04A5D08CIH28QIB2OJKJ1K-XS0";

/// Default manual pairing code for the test credentials.
pub const DEFAULT_MATTER_MANUAL_CODE: &'static str = "3497-0112-332";

/// A setting from the environment, or its default when unset.
pub fn setting_or_default(value: Option<String>, default: &str) -> (s: String)
    ensures
        match value {
            Some(v) => s@ == v@,
            None => s@ == default@,
        },
{
    match value {
        Some(v) => v,
        None => owned(default),
    }
}

/// Why a QR image could not be made: the encoder refused the data, or the
/// PNG writer failed (each with its error text).
pub enum QrFailure {
    Encode(String),
    Png(String),
}

/// What making a QR PNG of `data` yields: the PNG bytes, or the failure as
/// (whether the encoder refused, error text).
pub uninterp spec fn qr_png_of(data: Seq<char>) -> Result<Seq<u8>, (bool, Seq<char>)>;

/// Encodes `data` with `qrcode::QrCode::new`, renders it as an 8-bit luma
/// image with a quiet zone, and writes it as PNG with the image crate. The
/// outcome is named by `qr_png_of`.
#[verifier::external_body]
fn qr_png(data: &str) -> (r: Result<Vec<u8>, QrFailure>)
    ensures
        match r {
            Ok(b) => qr_png_of(data@) == Ok::<Seq<u8>, (bool, Seq<char>)>(b@),
            Err(QrFailure::Encode(e)) => qr_png_of(data@) == Err::<Seq<u8>, (bool, Seq<char>)>((true, e@)),
            Err(QrFailure::Png(e)) => qr_png_of(data@) == Err::<Seq<u8>, (bool, Seq<char>)>((false, e@)),
        },
{
    let code = match qrcode::QrCode::new(data.as_bytes()) {
        Ok(c) => c,
        Err(e) => return Err(QrFailure::Encode(e.to_string())),
    };
    let image = code.render::<image::Luma<u8>>().quiet_zone(true).build();
    let mut png = std::io::Cursor::new(Vec::new());
    match image.write_to(&mut png, image::ImageFormat::Png) {
        Ok(()) => Ok(png.into_inner()),
        Err(e) => Err(QrFailure::Png(e.to_string())),
    }
}

/// What a QR outcome means for the caller: the bytes, or an error text
/// saying which stage failed.
pub open spec fn qr_result_spec(outcome: Result<Seq<u8>, (bool, Seq<char>)>) -> Result<Seq<u8>, Seq<char>> {
    match outcome {
        Ok(b) => Ok(b),
        Err((true, e)) => Err("QR: "@ + e),
        Err((false, e)) => Err("PNG: "@ + e),
    }
}

pub open spec fn bytes_result_view(r: Result<Vec<u8>, String>) -> Result<Seq<u8>, Seq<char>> {
    match r {
        Ok(b) => Ok(b@),
        Err(e) => Err(e@),
    }
}

/// Turn a QR outcome into the bytes or the caller-facing error.
pub fn qr_result(outcome: Result<Vec<u8>, QrFailure>) -> (r: Result<Vec<u8>, String>)
    ensures
        bytes_result_view(r) == qr_result_spec(
            match outcome {
                Ok(b) => Ok(b@),
                Err(QrFailure::Encode(e)) => Err((true, e@)),
                Err(QrFailure::Png(e)) => Err((false, e@)),
            },
        ),
{
    match outcome {
        Ok(b) => Ok(b),
        Err(QrFailure::Encode(e)) => Err(concat2("QR: ", e.as_str())),
        Err(QrFailure::Png(e)) => Err(concat2("PNG: ", e.as_str())),
    }
}

/// The pairing QR code for `setup_code` as PNG bytes.
pub fn generate_matter_qr_png(setup_code: &str) -> (r: Result<Vec<u8>, String>)
    ensures
        bytes_result_view(r) == qr_result_spec(qr_png_of(setup_code@)),
{
    let outcome = qr_png(setup_code);
    qr_result(outcome)
}

/// The pairing details the API reports.
pub struct MatterInfo {
    pub setup_code: String,
    pub manual_code: String,
    pub discriminator: u16,
    pub passcode: u32,
    pub vendor_id: &'static str,
    pub product_id: &'static str,
    pub commissioned: bool,
}

pub fn matter_info(setup_code: String, manual_code: String, commissioned: bool) -> (m: MatterInfo)
    ensures
        m.setup_code@ == setup_code@,
        m.manual_code@ == manual_code@,
        m.discriminator == 3840,
        m.passcode == 20202021,
        m.vendor_id@ == "0xFFF1"@,
        m.product_id@ == "0x8001"@,
        m.commissioned == commissioned,
{
    MatterInfo {
        setup_code,
        manual_code,
        discriminator: 3840,
        passcode: 20202021,
        vendor_id: "0xFFF1",
        product_id: "0x8001",
        commissioned,
    }
}

/// The pairing state sent to every client: once paired, no pairing code or
/// QR is offered and a reset is; before, the opposite.
pub struct MatterStatus {
    pub commissioned: bool,
    pub status_display: &'static str,
    pub can_reset: bool,
    pub pairing_code: Option<String>,
    pub pairing_qr_url: Option<&'static str>,
}

pub fn matter_status(commissioned: bool, manual_code: &str) -> (m: MatterStatus)
    ensures
        m.commissioned == commissioned,
        m.can_reset == commissioned,
        commissioned ==> m.status_display@ == "Paired"@ && m.pairing_code is None && m.pairing_qr_url is None,
        !commissioned ==> m.status_display@ == "Not paired"@ && opt_text(m.pairing_code) == Some(manual_code@)
            && (match m.pairing_qr_url {
            Some(u) => u@ == "/api/matter/qr"@,
            None => false,
        }),
{
    if commissioned {
        MatterStatus {
            commissioned,
            status_display: "Paired",
            can_reset: true,
            pairing_code: None,
            pairing_qr_url: None,
        }
    } else {
        MatterStatus {
            commissioned,
            status_display: "Not paired",
            can_reset: false,
            pairing_code: Some(owned(manual_code)),
            pairing_qr_url: Some("/api/matter/qr"),
        }
    }
}

} // verus!
