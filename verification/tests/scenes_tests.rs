use pentair_daemon::scenes::{
    default_scenes, find_scene, record_command, resolve_scenes, scene_result, start_scene_result,
    SceneCommand, SceneConfig, SceneStore,
};

#[test]
fn default_scenes_are_present() {
    let scenes = default_scenes();
    assert_eq!(scenes.len(), 3);
    let names: Vec<&str> = scenes.iter().map(|s| s.name.as_str()).collect();
    assert!(names.contains(&"pool-party"));
    assert!(names.contains(&"relax"));
    assert!(names.contains(&"all-off"));
}

#[test]
fn default_scenes_have_correct_commands() {
    let scenes = default_scenes();
    let party = find_scene(&scenes, "pool-party").unwrap();
    assert_eq!(party.label, "Pool Party");
    assert_eq!(party.commands.len(), 3);
    assert_eq!(party.commands[0].target, "spa");
    assert_eq!(party.commands[0].action, "on");
    assert_eq!(party.commands[1].target, "jets");
    assert_eq!(party.commands[1].action, "on");
    assert_eq!(party.commands[2].target, "lights");
    assert_eq!(party.commands[2].action, "mode");
    assert_eq!(party.commands[2].value.as_deref(), Some("caribbean"));
    let relax = find_scene(&scenes, "relax").unwrap();
    assert_eq!(relax.commands.len(), 2);
    let all_off = find_scene(&scenes, "all-off").unwrap();
    assert_eq!(all_off.commands.len(), 2);
    assert_eq!(all_off.commands[0].action, "off");
    assert_eq!(all_off.commands[1].action, "off");
}

#[test]
fn resolve_scenes_returns_defaults_when_empty() {
    let scenes = resolve_scenes(&[]);
    assert_eq!(scenes.len(), 3);
}

fn custom() -> Vec<SceneConfig> {
    vec![SceneConfig {
        name: "custom".to_string(),
        label: "Custom Scene".to_string(),
        commands: vec![SceneCommand {
            target: "pool".to_string(),
            action: "on".to_string(),
            value: None,
        }],
    }]
}

#[test]
fn resolve_scenes_uses_configured_when_provided() {
    let scenes = resolve_scenes(&custom());
    assert_eq!(scenes.len(), 1);
    assert_eq!(scenes[0].name, "custom");
}

#[test]
fn find_scene_returns_none_for_unknown() {
    let scenes = default_scenes();
    assert!(find_scene(&scenes, "nonexistent").is_none());
}

#[test]
fn scene_store_list_and_find() {
    let store = SceneStore::new(default_scenes());
    assert_eq!(store.list().len(), 3);
    assert!(store.find("pool-party").is_some());
    assert!(store.find("nope").is_none());
}

#[test]
fn find_scene_returns_first_of_duplicates() {
    let mut scenes = custom();
    scenes.push(SceneConfig { name: "custom".to_string(), label: "Second".to_string(), commands: vec![] });
    assert_eq!(find_scene(&scenes, "custom").unwrap().label, "Custom Scene");
}

#[test]
fn execute_scene_all_succeed() {
    let scene = &default_scenes()[0];
    let result = scene_result(scene, vec![Ok(()), Ok(()), Ok(())]);
    assert!(result.ok);
    assert_eq!(result.scene, "pool-party");
    assert_eq!(result.commands.len(), 3);
    assert!(result.commands.iter().all(|c| c.ok && c.error.is_none()));
}

#[test]
fn execute_scene_partial_failure() {
    let scene = &default_scenes()[0];
    let result = scene_result(scene, vec![Ok(()), Err("jets failed".to_string()), Ok(())]);
    assert!(!result.ok);
    assert!(result.commands[0].ok);
    assert!(!result.commands[1].ok);
    assert_eq!(result.commands[1].error.as_deref(), Some("jets failed"));
    assert!(result.commands[2].ok, "remaining commands still run");
}

#[test]
fn execute_scene_preserves_command_order() {
    let scene = &default_scenes()[0];
    let mut result = start_scene_result(scene);
    for (i, cmd) in scene.commands.iter().enumerate() {
        record_command(&mut result, cmd, if i == 2 { Err("x".to_string()) } else { Ok(()) });
    }
    let targets: Vec<&str> = result.commands.iter().map(|c| c.target.as_str()).collect();
    assert_eq!(targets, vec!["spa", "jets", "lights"]);
    assert_eq!(result.commands[2].value.as_deref(), Some("caribbean"));
    assert!(!result.ok);
}
