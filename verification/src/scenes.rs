//! Scenes: named lists of commands run in order (e.g. "pool party": spa on,
//! jets on, lights to caribbean), the built-in defaults, lookup, and the
//! per-command result report of a run.

use vstd::prelude::*;
use crate::adapter::lemma_light_codes_follow_protocol;
use crate::routes::light_command_spec;
use crate::text::{concat2, copy_opt, opt_text, str_eq};

verus! {

/// A single command within a scene (e.g. "turn spa on" or "set lights to caribbean").
#[derive(Debug, Clone)]
pub struct SceneCommand {
    /// The target device: "spa", "pool", "jets", "lights", or an auxiliary circuit name.
    pub target: String,
    /// The action to perform: "on", "off", "mode" (lights) or "heat".
    pub action: String,
    /// Optional value for actions that need one (light mode name, heat setpoint).
    pub value: Option<String>,
}

/// A configured scene: a named list of commands to execute sequentially.
#[derive(Debug, Clone)]
pub struct SceneConfig {
    /// URL-safe identifier (e.g. "pool-party").
    pub name: String,
    /// Human-readable label (e.g. "Pool Party").
    pub label: String,
    /// Commands to execute in order.
    pub commands: Vec<SceneCommand>,
}

/// Result of executing a single command within a scene.
#[derive(Debug, Clone)]
pub struct CommandResult {
    pub target: String,
    pub action: String,
    pub value: Option<String>,
    pub ok: bool,
    pub error: Option<String>,
}

/// Result of executing an entire scene.
#[derive(Debug, Clone)]
pub struct SceneResult {
    pub scene: String,
    pub label: String,
    pub ok: bool,
    pub commands: Vec<CommandResult>,
}

/// The abstract content of a command: target, action, value.
pub open spec fn command_view(c: SceneCommand) -> (Seq<char>, Seq<char>, Option<Seq<char>>) {
    (c.target@, c.action@, opt_text(c.value))
}

/// The abstract content of a scene: name, label, commands.
pub open spec fn scene_view(s: SceneConfig) -> (Seq<char>, Seq<char>, Seq<
    (Seq<char>, Seq<char>, Option<Seq<char>>),
>) {
    (s.name@, s.label@, s.commands@.map_values(|c: SceneCommand| command_view(c)))
}

impl SceneCommand {
    /// A field-for-field copy.
    pub fn duplicate(&self) -> (r: Self)
        ensures
            r == *self,
    {
        SceneCommand {
            target: self.target.clone(),
            action: self.action.clone(),
            value: copy_opt(&self.value),
        }
    }
}

impl SceneConfig {
    /// A field-for-field copy.
    pub fn duplicate(&self) -> (r: Self)
        ensures
            r.name == self.name,
            r.label == self.label,
            r.commands@ == self.commands@,
    {
        let mut commands: Vec<SceneCommand> = Vec::new();
        let mut i: usize = 0;
        while i < self.commands.len()
            invariant
                i <= self.commands@.len(),
                commands@ == self.commands@.subrange(0, i as int),
            decreases self.commands.len() - i,
        {
            commands.push(self.commands[i].duplicate());
            i = i + 1;
            assert(commands@ =~= self.commands@.subrange(0, i as int));
        }
        assert(self.commands@.subrange(0, self.commands@.len() as int) =~= self.commands@);
        SceneConfig { name: self.name.clone(), label: self.label.clone(), commands }
    }
}

fn cmd(target: &str, action: &str, value: Option<&str>) -> (c: SceneCommand)
    ensures
        c.target@ == target@,
        c.action@ == action@,
        opt_text(c.value) == (match value {
            Some(v) => Some(v@),
            None => None,
        }),
{
    SceneCommand {
        target: String::from_str(target),
        action: String::from_str(action),
        value: match value {
            Some(v) => Some(String::from_str(v)),
            None => None,
        },
    }
}

/// The built-in scenes: pool party, relax, all off.
pub open spec fn default_scene_views() -> Seq<
    (Seq<char>, Seq<char>, Seq<(Seq<char>, Seq<char>, Option<Seq<char>>)>),
> {
    seq![
        (
            "pool-party"@,
            "Pool Party"@,
            seq![
                ("spa"@, "on"@, None),
                ("jets"@, "on"@, None),
                ("lights"@, "mode"@, Some("caribbean"@)),
            ],
        ),
        (
            "relax"@,
            "Relax"@,
            seq![("spa"@, "on"@, None), ("lights"@, "mode"@, Some("romantic"@))],
        ),
        ("all-off"@, "All Off"@, seq![("spa"@, "off"@, None), ("lights"@, "off"@, None)]),
    ]
}

/// What each built-in scene does, command by command. "pool-party" ("Pool
/// Party") turns the spa on, then the jets on, then sets the lights to
/// caribbean; "relax" ("Relax") turns the spa on, then sets the lights to
/// romantic; "all-off" ("All Off") turns the spa off, then the lights off.
/// Every light mode a built-in scene sets is one the controller has a code
/// for.
pub proof fn lemma_default_scenes_do_what_they_say()
    ensures
        default_scene_views().len() == 3,
        default_scene_views()[0].0 == "pool-party"@ && default_scene_views()[0].1 == "Pool Party"@,
        default_scene_views()[0].2.len() == 3,
        default_scene_views()[0].2[0] == ("spa"@, "on"@, None::<Seq<char>>),
        default_scene_views()[0].2[1] == ("jets"@, "on"@, None::<Seq<char>>),
        default_scene_views()[0].2[2] == ("lights"@, "mode"@, Some("caribbean"@)),
        default_scene_views()[1].0 == "relax"@ && default_scene_views()[1].1 == "Relax"@,
        default_scene_views()[1].2.len() == 2,
        default_scene_views()[1].2[0] == ("spa"@, "on"@, None::<Seq<char>>),
        default_scene_views()[1].2[1] == ("lights"@, "mode"@, Some("romantic"@)),
        default_scene_views()[2].0 == "all-off"@ && default_scene_views()[2].1 == "All Off"@,
        default_scene_views()[2].2.len() == 2,
        default_scene_views()[2].2[0] == ("spa"@, "off"@, None::<Seq<char>>),
        default_scene_views()[2].2[1] == ("lights"@, "off"@, None::<Seq<char>>),
        forall|i: int, j: int|
            0 <= i < default_scene_views().len() && 0 <= j < default_scene_views()[i].2.len()
                && #[trigger] default_scene_views()[i].2[j].1 == "mode"@
                ==> default_scene_views()[i].2[j].2 is Some
                && light_command_spec(default_scene_views()[i].2[j].2->0) is Some,
{
    lemma_light_codes_follow_protocol("romantic"@);
    reveal_strlit("mode");
    reveal_strlit("on");
    reveal_strlit("off");
    assert("on"@.len() != "mode"@.len());
    assert("off"@[0] != "mode"@[0]);
}

/// Returns the built-in default scenes, used when the configuration defines none.
pub fn default_scenes() -> (v: Vec<SceneConfig>)
    ensures
        v@.map_values(|s: SceneConfig| scene_view(s)) == default_scene_views(),
{
    let mut party: Vec<SceneCommand> = Vec::new();
    party.push(cmd("spa", "on", None));
    party.push(cmd("jets", "on", None));
    party.push(cmd("lights", "mode", Some("caribbean")));
    let mut relax: Vec<SceneCommand> = Vec::new();
    relax.push(cmd("spa", "on", None));
    relax.push(cmd("lights", "mode", Some("romantic")));
    let mut off: Vec<SceneCommand> = Vec::new();
    off.push(cmd("spa", "off", None));
    off.push(cmd("lights", "off", None));
    let mut v: Vec<SceneConfig> = Vec::new();
    v.push(
        SceneConfig {
            name: String::from_str("pool-party"),
            label: String::from_str("Pool Party"),
            commands: party,
        },
    );
    v.push(
        SceneConfig {
            name: String::from_str("relax"),
            label: String::from_str("Relax"),
            commands: relax,
        },
    );
    v.push(
        SceneConfig {
            name: String::from_str("all-off"),
            label: String::from_str("All Off"),
            commands: off,
        },
    );
    proof {
        let views = v@.map_values(|s: SceneConfig| scene_view(s));
        assert(views[0].2 =~= default_scene_views()[0].2);
        assert(views[1].2 =~= default_scene_views()[1].2);
        assert(views[2].2 =~= default_scene_views()[2].2);
        assert(views =~= default_scene_views());
    }
    v
}

/// The scene list in effect: the configured scenes when there are any (the
/// user chose their list), otherwise the built-in defaults.
pub fn resolve_scenes(configured: &[SceneConfig]) -> (v: Vec<SceneConfig>)
    ensures
        configured@.len() == 0 ==> v@.map_values(|s: SceneConfig| scene_view(s))
            == default_scene_views(),
        configured@.len() > 0 ==> v@.map_values(|s: SceneConfig| scene_view(s))
            == configured@.map_values(|s: SceneConfig| scene_view(s)),
{
    if configured.len() == 0 {
        return default_scenes();
    }
    let mut v: Vec<SceneConfig> = Vec::new();
    let mut i: usize = 0;
    while i < configured.len()
        invariant
            i <= configured@.len(),
            v@.len() == i,
            forall|j: int|
                0 <= j < i ==> scene_view(#[trigger] v@[j]) == scene_view(configured@[j]),
        decreases configured.len() - i,
    {
        let s = configured[i].duplicate();
        proof {
            assert(s.commands@.map_values(|c: SceneCommand| command_view(c))
                =~= configured@[i as int].commands@.map_values(|c: SceneCommand| command_view(c)));
        }
        v.push(s);
        i = i + 1;
    }
    assert(v@.map_values(|s: SceneConfig| scene_view(s)) =~= configured@.map_values(
        |s: SceneConfig| scene_view(s),
    ));
    v
}

/// Index of the first scene named `name`.
pub open spec fn first_scene_named(scenes: Seq<SceneConfig>, name: Seq<char>) -> Option<int>
    decreases scenes.len(),
{
    if scenes.len() == 0 {
        None
    } else {
        match first_scene_named(scenes.drop_last(), name) {
            Some(k) => Some(k),
            None => if scenes.last().name@ == name {
                Some(scenes.len() - 1)
            } else {
                None
            },
        }
    }
}

proof fn lemma_first_scene_found(scenes: Seq<SceneConfig>, name: Seq<char>, k: int)
    requires
        0 <= k < scenes.len(),
        scenes[k].name@ == name,
        forall|j: int| 0 <= j < k ==> scenes[j].name@ != name,
    ensures
        first_scene_named(scenes, name) == Some(k),
    decreases scenes.len(),
{
    if k < scenes.len() - 1 {
        lemma_first_scene_found(scenes.drop_last(), name, k);
    } else {
        lemma_first_scene_absent(scenes.drop_last(), name);
    }
}

proof fn lemma_first_scene_absent(scenes: Seq<SceneConfig>, name: Seq<char>)
    requires
        forall|j: int| 0 <= j < scenes.len() ==> scenes[j].name@ != name,
    ensures
        first_scene_named(scenes, name) == None::<int>,
    decreases scenes.len(),
{
    if scenes.len() > 0 {
        lemma_first_scene_absent(scenes.drop_last(), name);
    }
}

/// Look up a scene by name: the first one so named.
pub fn find_scene<'a>(scenes: &'a [SceneConfig], name: &str) -> (r: Option<&'a SceneConfig>)
    ensures
        match first_scene_named(scenes@, name@) {
            Some(k) => r matches Some(s) && *s == scenes@[k],
            None => r is None,
        },
{
    let mut i: usize = 0;
    while i < scenes.len()
        invariant
            i <= scenes@.len(),
            forall|j: int| 0 <= j < i ==> scenes@[j].name@ != name@,
        decreases scenes.len() - i,
    {
        if str_eq(scenes[i].name.as_str(), name) {
            proof {
                lemma_first_scene_found(scenes@, name@, i as int);
            }
            return Some(&scenes[i]);
        }
        i = i + 1;
    }
    proof {
        lemma_first_scene_absent(scenes@, name@);
    }
    None
}

/// The scene list the daemon serves.
#[derive(Debug, Clone)]
pub struct SceneStore {
    pub scenes: Vec<SceneConfig>,
}

impl SceneStore {
    pub fn new(scenes: Vec<SceneConfig>) -> (s: Self)
        ensures
            s.scenes@ == scenes@,
    {
        SceneStore { scenes }
    }

    pub fn list(&self) -> (l: &[SceneConfig])
        ensures
            l@ == self.scenes@,
    {
        self.scenes.as_slice()
    }

    pub fn find(&self, name: &str) -> (r: Option<&SceneConfig>)
        ensures
            match first_scene_named(self.scenes@, name@) {
                Some(k) => r matches Some(s) && *s == self.scenes@[k],
                None => r is None,
            },
    {
        find_scene(self.scenes.as_slice(), name)
    }
}

// ── Running a scene ─────────────────────────────────────────────────────

/// The report of a scene before any command ran: named after the scene, ok,
/// no command results yet.
pub fn start_scene_result(scene: &SceneConfig) -> (r: SceneResult)
    ensures
        r.scene@ == scene.name@,
        r.label@ == scene.label@,
        r.ok,
        r.commands@.len() == 0,
{
    SceneResult {
        scene: scene.name.clone(),
        label: scene.label.clone(),
        ok: true,
        commands: Vec::new(),
    }
}

/// Record the outcome of one scene command. A failure marks the whole scene
/// as not ok; the remaining commands still run.
pub fn record_command(result: &mut SceneResult, command: &SceneCommand, outcome: Result<(), String>)
    ensures
        final(result).scene == old(result).scene,
        final(result).label == old(result).label,
        final(result).ok == (old(result).ok && outcome is Ok),
        final(result).commands@.len() == old(result).commands@.len() + 1,
        final(result).commands@.drop_last() == old(result).commands@,
        ({
            let c = final(result).commands@.last();
            &&& c.target == command.target
            &&& c.action == command.action
            &&& c.value == command.value
            &&& c.ok == (outcome is Ok)
            &&& c.error == (match outcome {
                Ok(_) => None,
                Err(e) => Some(e),
            })
        }),
{
    let (ok, error) = match outcome {
        Ok(()) => (true, None),
        Err(e) => (false, Some(e)),
    };
    if !ok {
        result.ok = false;
    }
    let ghost before = result.commands@;
    result.commands.push(
        CommandResult {
            target: command.target.clone(),
            action: command.action.clone(),
            value: copy_opt(&command.value),
            ok,
            error,
        },
    );
    assert(result.commands@.drop_last() =~= before);
}

/// The report of a scene run, given each command's outcome in order: one
/// result per command, the scene ok exactly when every command was.
pub fn scene_result(scene: &SceneConfig, outcomes: Vec<Result<(), String>>) -> (r: SceneResult)
    requires
        outcomes@.len() == scene.commands@.len(),
    ensures
        r.scene@ == scene.name@,
        r.label@ == scene.label@,
        r.ok == (forall|i: int| 0 <= i < outcomes@.len() ==> (#[trigger] outcomes@[i]) is Ok),
        r.commands@.len() == scene.commands@.len(),
        forall|i: int|
            0 <= i < r.commands@.len() ==> {
                let c = #[trigger] r.commands@[i];
                &&& c.target == scene.commands@[i].target
                &&& c.action == scene.commands@[i].action
                &&& c.value == scene.commands@[i].value
                &&& c.ok == (outcomes@[i] is Ok)
                &&& c.error == (match outcomes@[i] {
                    Ok(_) => None,
                    Err(e) => Some(e),
                })
            },
{
    let mut r = start_scene_result(scene);
    let mut i: usize = 0;
    while i < outcomes.len()
        invariant
            outcomes@.len() == scene.commands@.len(),
            i <= outcomes@.len(),
            r.scene@ == scene.name@,
            r.label@ == scene.label@,
            r.ok == (forall|j: int| 0 <= j < i ==> (#[trigger] outcomes@[j]) is Ok),
            r.commands@.len() == i,
            forall|j: int|
                0 <= j < i ==> {
                    let c = #[trigger] r.commands@[j];
                    &&& c.target == scene.commands@[j].target
                    &&& c.action == scene.commands@[j].action
                    &&& c.value == scene.commands@[j].value
                    &&& c.ok == (outcomes@[j] is Ok)
                    &&& c.error == (match outcomes@[j] {
                        Ok(_) => None,
                        Err(e) => Some(e),
                    })
                },
        decreases outcomes.len() - i,
    {
        let o = match &outcomes[i] {
            Ok(()) => Ok(()),
            Err(e) => Err(e.clone()),
        };
        let ghost before = r.commands@;
        let ghost ok_before = r.ok;
        record_command(&mut r, &scene.commands[i], o);
        proof {
            assert forall|j: int| 0 <= j < i + 1 implies {
                let c = #[trigger] r.commands@[j];
                &&& c.target == scene.commands@[j].target
                &&& c.action == scene.commands@[j].action
                &&& c.value == scene.commands@[j].value
                &&& c.ok == (outcomes@[j] is Ok)
                &&& c.error == (match outcomes@[j] {
                    Ok(_) => None,
                    Err(e) => Some(e),
                })
            } by {
                if j < i {
                    assert(r.commands@[j] == before[j]);
                }
            }
            assert(r.ok == (forall|j: int| 0 <= j < i + 1 ==> (#[trigger] outcomes@[j]) is Ok)) by {
                if ok_before && outcomes@[i as int] is Ok {
                    assert forall|j: int| 0 <= j < i + 1 implies (#[trigger] outcomes@[j]) is Ok by {}
                }
            }
        }
        i = i + 1;
    }
    r
}

/// Running a scene never drops a command and reports failure exactly when
/// some command failed: the report's per-command results follow the scene's
/// command order one for one.
pub proof fn lemma_scene_result_complete(
    scene: SceneConfig,
    outcomes: Seq<Result<(), String>>,
    r: SceneResult,
)
    requires
        outcomes.len() == scene.commands@.len(),
        r.commands@.len() == scene.commands@.len(),
        r.ok == (forall|i: int| 0 <= i < outcomes.len() ==> (#[trigger] outcomes[i]) is Ok),
        forall|i: int| 0 <= i < r.commands@.len() ==> (#[trigger] r.commands@[i]).ok == (outcomes[i] is Ok),
    ensures
        !r.ok <==> exists|i: int| 0 <= i < r.commands@.len() && !(#[trigger] r.commands@[i]).ok,
{
    if !r.ok {
        let i = choose|i: int| 0 <= i < outcomes.len() && !(#[trigger] outcomes[i] is Ok);
        assert(!r.commands@[i].ok);
    }
}

} // verus!
