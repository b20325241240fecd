use pentair_daemon::config::WebConfig;
use pentair_daemon::routes::{
    approve_outcome, command_reply, fill_approve_page, fill_index_page, fill_matter_page,
    generate_matter_qr_png, goodnight_reply, heat_body_type, heat_failure_reply, heat_mode_code,
    html_escape, is_valid_redirect_origin, jets_on_order, json_to_result, light_mode_to_command,
    matter_info, matter_status, origin_host_allowed, plan_heat, plan_light_mode, qr_data_url,
    scene_action, setting_or_default, unknown_device_reply, ApiReply, ApproveOutcome, SceneAction,
    DEFAULT_MATTER_MANUAL_CODE, DEFAULT_MATTER_SETUP_CODE,
};
use pentair_daemon::scheduled_heat::HeatStep;

#[test]
fn approve_rejects_wrong_domain() {
    assert!(!is_valid_redirect_origin("https://evil.com/callback", "example.com"));
}

#[test]
fn approve_accepts_configured_domain() {
    assert!(is_valid_redirect_origin("https://example.com/callback", "example.com"));
}

#[test]
fn approve_accepts_subdomain() {
    assert!(is_valid_redirect_origin("https://pool.example.com/callback", "example.com"));
}

#[test]
fn approve_rejects_all_when_domain_empty() {
    assert!(!is_valid_redirect_origin("https://example.com/callback", ""));
    assert!(!is_valid_redirect_origin("https://anything.com", ""));
    assert!(!is_valid_redirect_origin("https://localhost", ""));
}

#[test]
fn approve_rejects_suffix_attack() {
    assert!(!is_valid_redirect_origin("https://evilexample.com/callback", "example.com"));
}

#[test]
fn origin_check_on_parsed_host() {
    assert!(origin_host_allowed(&Some("a.b.example.com".to_string()), "example.com"));
    assert!(!origin_host_allowed(&None, "example.com"));
    assert!(!is_valid_redirect_origin("not a url", "example.com"));
}

#[test]
fn default_setup_code_is_valid() {
    assert!(DEFAULT_MATTER_SETUP_CODE.starts_with("MT:"));
    assert!(DEFAULT_MATTER_SETUP_CODE.len() > 10);
}

#[test]
fn default_manual_code_is_valid() {
    assert!(DEFAULT_MATTER_MANUAL_CODE.chars().all(|c| c.is_ascii_digit() || c == '-'));
    assert_eq!(DEFAULT_MATTER_MANUAL_CODE.replace('-', "").len(), 11);
}

#[test]
fn qr_code_generates_valid_png() {
    let bytes = generate_matter_qr_png(DEFAULT_MATTER_SETUP_CODE).unwrap();
    assert!(bytes.len() > 100, "PNG too small: {} bytes", bytes.len());
    assert_eq!(&bytes[..4], &[0x89, 0x50, 0x4E, 0x47], "not a valid PNG");
}

#[test]
fn qr_data_url_inlines_png() {
    let url = qr_data_url(&Ok(vec![0x89, 0x50, 0x4E, 0x47]));
    assert_eq!(url, "data:image/png;base64,iVBORw==");
    assert_eq!(qr_data_url(&Err("QR: too long".to_string())), "");
}

#[test]
fn qr_data_url_pads_each_remainder() {
    assert_eq!(qr_data_url(&Ok(vec![])), "data:image/png;base64,");
    assert_eq!(qr_data_url(&Ok(b"Man".to_vec())), "data:image/png;base64,TWFu");
    assert_eq!(qr_data_url(&Ok(b"Ma".to_vec())), "data:image/png;base64,TWE=");
    assert_eq!(qr_data_url(&Ok(vec![0xFB, 0xFF, 0xBF, 0x00])), "data:image/png;base64,+/+/AA==");
}

#[test]
fn matter_info_returns_expected_fields() {
    let info = matter_info(
        DEFAULT_MATTER_SETUP_CODE.to_string(),
        DEFAULT_MATTER_MANUAL_CODE.to_string(),
        false,
    );
    assert_eq!(info.setup_code, DEFAULT_MATTER_SETUP_CODE);
    assert_eq!(info.manual_code, DEFAULT_MATTER_MANUAL_CODE);
    assert_eq!(info.discriminator, 3840);
    assert_eq!(info.passcode, 20202021);
    assert!(info.vendor_id.starts_with("0x"));
    assert!(info.product_id.starts_with("0x"));
}

#[test]
fn matter_status_before_and_after_pairing() {
    let open = matter_status(false, "1234");
    assert_eq!(open.status_display, "Not paired");
    assert_eq!(open.pairing_code.as_deref(), Some("1234"));
    assert_eq!(open.pairing_qr_url, Some("/api/matter/qr"));
    assert!(!open.can_reset);
    let paired = matter_status(true, "1234");
    assert_eq!(paired.status_display, "Paired");
    assert!(paired.pairing_code.is_none());
    assert!(paired.can_reset);
}

#[test]
fn settings_fall_back_to_defaults() {
    assert_eq!(setting_or_default(None, DEFAULT_MATTER_MANUAL_CODE), "3497-0112-332");
    assert_eq!(setting_or_default(Some("9".to_string()), DEFAULT_MATTER_MANUAL_CODE), "9");
}

#[test]
fn light_modes_map_to_codes() {
    assert_eq!(light_mode_to_command("off"), Some(0));
    assert_eq!(light_mode_to_command("caribbean"), Some(7));
    assert_eq!(light_mode_to_command("purple"), Some(17));
    assert_eq!(light_mode_to_command("save"), None);
    assert_eq!(light_mode_to_command("Caribbean"), None);
}

#[test]
fn bodies_and_heat_modes_map_to_codes() {
    assert_eq!(heat_body_type("pool"), Some(0));
    assert_eq!(heat_body_type("spa"), Some(1));
    assert_eq!(heat_body_type("hot tub"), None);
    assert_eq!(heat_mode_code("off"), Some(0));
    assert_eq!(heat_mode_code("solar"), Some(1));
    assert_eq!(heat_mode_code("solar-preferred"), Some(2));
    assert_eq!(heat_mode_code("heat-pump"), Some(3));
    assert_eq!(heat_mode_code("heater"), Some(3));
    assert_eq!(heat_mode_code("gas"), None);
}

fn view(r: &ApiReply) -> (u16, bool, Option<&str>) {
    (r.status, r.ok, r.error.as_deref())
}

#[test]
fn heat_plans_check_then_order_commands() {
    let p = plan_heat("spa", Some(102), &Some("heater".to_string()));
    assert_eq!(
        p.steps,
        vec![
            HeatStep::SetHeatSetpoint { body_type: 1, temp: 102 },
            HeatStep::SetHeatMode { body_type: 1, mode: 3 },
        ]
    );
    assert_eq!(view(&p.reply), (200, true, None));
    let p = plan_heat("sauna", Some(102), &None);
    assert!(p.steps.is_empty());
    assert_eq!(view(&p.reply), (400, false, Some("unknown body")));
    let p = plan_heat("pool", Some(39), &Some("solar".to_string()));
    assert!(p.steps.is_empty());
    assert_eq!(view(&p.reply), (400, false, Some("setpoint must be 40-104")));
    // The setpoint is still sent before an unknown mode is refused.
    let p = plan_heat("pool", Some(80), &Some("gas".to_string()));
    assert_eq!(p.steps, vec![HeatStep::SetHeatSetpoint { body_type: 0, temp: 80 }]);
    assert_eq!(view(&p.reply), (400, false, Some("unknown heat mode: gas")));
    let p = plan_heat("pool", None, &None);
    assert!(p.steps.is_empty());
    assert_eq!(view(&p.reply), (200, true, None));
}

#[test]
fn replies_for_each_outcome() {
    assert_eq!(view(&command_reply(Some(Ok(())))), (200, true, None));
    assert_eq!(view(&command_reply(Some(Err("busy".to_string())))), (200, false, Some("busy")));
    assert_eq!(view(&command_reply(None)), (200, false, Some("adapter disconnected")));
    assert_eq!(view(&unknown_device_reply("slide")), (200, false, Some("unknown device: slide")));
    assert_eq!(view(&heat_failure_reply(Some("nope".to_string()))), (500, false, Some("nope")));
    assert_eq!(view(&heat_failure_reply(None)), (503, false, Some("adapter unavailable")));
    assert_eq!(
        view(&plan_light_mode("disco").unwrap_err()),
        (200, false, Some("unknown light mode: disco"))
    );
    assert_eq!(plan_light_mode("red").ok(), Some(15));
}

#[test]
fn replies_read_back_as_results() {
    assert_eq!(json_to_result(&ApiReply { status: 200, ok: true, error: None }), Ok(()));
    assert_eq!(
        json_to_result(&ApiReply { status: 200, ok: false, error: Some("x".to_string()) }),
        Err("x".to_string())
    );
    assert_eq!(
        json_to_result(&ApiReply { status: 500, ok: false, error: None }),
        Err("unknown error".to_string())
    );
}

#[test]
fn command_mapping_covers_all_targets_and_actions() {
    assert!(matches!(scene_action("spa", "on", None), Ok(SceneAction::Circuit { ref id, on: true }) if id == "spa"));
    assert!(matches!(scene_action("spa", "off", None), Ok(SceneAction::SpaOff)));
    assert!(matches!(scene_action("pool", "off", None), Ok(SceneAction::Circuit { ref id, on: false }) if id == "pool"));
    assert!(matches!(scene_action("jets", "on", None), Ok(SceneAction::JetsOn)));
    assert!(matches!(scene_action("jets", "off", None), Ok(SceneAction::Circuit { ref id, on: false }) if id == "jets"));
    assert!(matches!(scene_action("aux1", "on", None), Ok(SceneAction::Circuit { ref id, on: true }) if id == "aux1"));
    assert!(matches!(scene_action("spa", "heat", Some("101")), Ok(SceneAction::Heat { ref body, setpoint: 101 }) if body == "spa"));
    assert!(matches!(scene_action("lights", "mode", Some("caribbean")), Ok(SceneAction::Light { command: 7 })));
    assert_eq!(
        scene_action("pool", "heat", None).unwrap_err(),
        "pool heat requires a value (setpoint)"
    );
    assert_eq!(
        scene_action("spa", "heat", Some("warm")).unwrap_err(),
        "invalid setpoint: invalid digit found in string"
    );
    assert_eq!(
        scene_action("spa", "heat", Some("")).unwrap_err(),
        "invalid setpoint: cannot parse integer from empty string"
    );
    assert_eq!(scene_action("lights", "mode", None).unwrap_err(), "lights mode requires a value");
    assert_eq!(scene_action("lights", "mode", Some("disco")).unwrap_err(), "unknown light mode: disco");
    assert_eq!(scene_action("jets", "heat", Some("90")).unwrap_err(), "unsupported command: jets heat");
    assert_eq!(scene_action("spa", "dim", None).unwrap_err(), "unsupported command: spa dim");
}

#[test]
fn jets_need_the_spa_first() {
    assert_eq!(jets_on_order(true), vec!["jets"]);
    assert_eq!(jets_on_order(false), vec!["spa", "jets"]);
}

#[test]
fn goodnight_reports_failures_in_order() {
    assert_eq!(view(&goodnight_reply(true, true, true, true)), (200, true, None));
    assert_eq!(view(&goodnight_reply(false, false, false, false)), (200, true, None));
    assert_eq!(view(&goodnight_reply(true, false, false, false)), (200, false, Some("failed to turn off: spa")));
    assert_eq!(view(&goodnight_reply(true, true, true, false)), (200, false, Some("failed to turn off: lights")));
    assert_eq!(
        view(&goodnight_reply(true, false, true, false)),
        (200, false, Some("failed to turn off: spa, lights"))
    );
}

fn outcome(o: &ApproveOutcome) -> (u16, String) {
    match o {
        ApproveOutcome::Refused { status, message } => (*status, message.clone()),
        ApproveOutcome::Redirect { location } => (303, location.clone()),
    }
}

#[test]
fn approve_rejects_when_remote_domain_empty() {
    let o = approve_outcome("", Some("1.2.3.4"), Some("1.2.3.4"), None, "user@test.com", 1, "sig");
    assert_eq!(outcome(&o), (400, "Remote domain not configured".to_string()));
}

#[test]
fn approve_rejects_missing_cf_connecting_ip() {
    let o = approve_outcome("example.com", None, Some("1.2.3.4"), None, "user@test.com", 1, "sig");
    assert_eq!(outcome(&o).0, 403);
}

#[test]
fn approve_rejects_wrong_ip() {
    let o = approve_outcome("example.com", Some("9.9.9.9"), Some("1.2.3.4"), None, "user@test.com", 1, "sig");
    assert_eq!(outcome(&o), (403, "You must be on the home network to approve access.".to_string()));
}

#[test]
fn approve_rejects_when_public_ip_unknown() {
    let o = approve_outcome("example.com", Some("1.2.3.4"), None, None, "user@test.com", 1, "sig");
    assert_eq!(outcome(&o).0, 403);
}

#[test]
fn approve_succeeds_when_ip_matches() {
    let o = approve_outcome("example.com", Some("1.2.3.4"), Some("1.2.3.4"), None, "user@test.com", 1700000000, "abc");
    let (status, location) = outcome(&o);
    assert_eq!(status, 303);
    assert!(location.starts_with("https://example.com/api/approve-callback?"), "got {location}");
    assert!(location.contains("email=user%40test%2Ecom"));
    assert!(location.contains("&ts=1700000000"));
    assert!(location.contains("&sig=abc"));
}

#[test]
fn approve_callback_uses_matching_host_only() {
    let o = approve_outcome("example.com", Some("1.2.3.4"), Some("1.2.3.4"), Some("pool.example.com"), "a", 5, "s");
    assert_eq!(outcome(&o).1, "https://pool.example.com/api/approve-callback?email=a&ts=5&sig=s");
    let o = approve_outcome("example.com", Some("1.2.3.4"), Some("1.2.3.4"), Some("evil.com"), "a", 5, "s");
    assert_eq!(outcome(&o).1, "https://example.com/api/approve-callback?email=a&ts=5&sig=s");
}

#[test]
fn approve_callback_percent_encodes_every_non_alphanumeric_byte() {
    let o = approve_outcome("example.com", Some("1.2.3.4"), Some("1.2.3.4"), None, "Zoë a+b_9~", 7, "s");
    assert_eq!(
        outcome(&o).1,
        "https://example.com/api/approve-callback?email=Zo%C3%AB%20a%2Bb%5F9%7E&ts=7&sig=s"
    );
}

#[test]
fn html_escape_neutralises_markup() {
    assert_eq!(html_escape("a<b>&\"c\""), "a&lt;b&gt;&amp;&quot;c&quot;");
    assert_eq!(html_escape("&lt;"), "&amp;lt;");
    assert_eq!(html_escape("plain"), "plain");
}

#[test]
fn serve_ui_substitutes_all_vars() {
    let mut web = WebConfig::default();
    web.remote_domain = "example.com".to_string();
    web.firebase.api_key = "KEY".to_string();
    web.firebase.auth_domain = "app.firebaseapp.com".to_string();
    web.firebase.project_id = "proj".to_string();
    let template = "k={{FIREBASE_API_KEY}} d={{FIREBASE_AUTH_DOMAIN}} p={{FIREBASE_PROJECT_ID}} r={{REMOTE_DOMAIN}} again={{REMOTE_DOMAIN}}";
    assert_eq!(
        fill_index_page(template, &web),
        "k=KEY d=app.firebaseapp.com p=proj r=example.com again=example.com"
    );
}

#[test]
fn approve_page_escapes_values() {
    let html = fill_approve_page("<p>{{EMAIL}}</p><a data-o=\"{{ORIGIN}}\">", "<x>@y", "\"o\"");
    assert_eq!(html, "<p>&lt;x&gt;@y</p><a data-o=\"&quot;o&quot;\">");
}

#[test]
fn matter_page_inlines_qr_and_code() {
    let html = fill_matter_page("<img src=\"/api/matter/qr\"> {{MANUAL_CODE}}", "data:x", "3497");
    assert_eq!(html, "<img src=\"data:x\"> 3497");
}
