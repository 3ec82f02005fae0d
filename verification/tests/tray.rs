use nordlayer_kde::cli::NordLayerCli;
use nordlayer_kde::parser::{ConnectionStatus, Gateway, GATEWAYS_TEMPLATE};
use nordlayer_kde::tray::{
    action_steps, format_action_details, format_notification_summary, gateways_query_args,
    notice_body_text, startup_steps, status_color, status_query_args, ActionItem, MenuAction,
    MenuEntry, NordLayerTray, Step, StatusSnapshot,
};

fn tray() -> NordLayerTray {
    NordLayerTray::new(NordLayerCli::with_binary(None))
}

#[test]
fn notification_summary_success_contains_action_and_status() {
    let summary = format_notification_summary("connect", "connected: nl", false);
    assert_eq!(summary, "NordLayer: connect (connected: nl)");
}

#[test]
fn notification_summary_error_contains_failed_marker() {
    let summary = format_notification_summary("connect", "unknown", true);
    assert_eq!(summary, "NordLayer: connect failed (unknown)");
}

#[test]
fn action_details_uses_fallback_when_cli_output_empty() {
    let details = format_action_details("disconnect", "", "disconnected");
    assert_eq!(details, "disconnect completed\nStatus: disconnected");
}

#[test]
fn action_details_truncates_to_eight_lines_and_appends_status() {
    let output = ["l1", "l2", "l3", "l4", "l5", "l6", "l7", "l8", "l9", "l10"].join("\n");
    let details = format_action_details("connect", &output, "connected: nl");
    assert!(details.contains("l1\nl2\nl3\nl4\nl5\nl6\nl7\nl8"));
    assert!(!details.contains("l9"));
    assert!(details.ends_with("Status: connected: nl"));
}

#[test]
fn action_details_keeps_short_output_whole() {
    let details = format_action_details("login", "line one\r\nline two\n", "connected");
    assert_eq!(details, "line one\nline two\nStatus: connected");
    let details = format_action_details("login", " \n\t", "unknown");
    assert_eq!(details, "login completed\nStatus: unknown");
}

#[test]
fn notice_body_replaces_blank_details() {
    assert_eq!(notice_body_text("  \n"), "No details available");
    assert_eq!(notice_body_text("done"), "done");
}

#[test]
fn snapshot_of_connected_status_names_gateway() {
    let s = StatusSnapshot::from_status_output("Login: me\nStatus: Connected\nGateway: nl-ams-1");
    assert_eq!(s.connection_status, ConnectionStatus::Connected);
    assert_eq!(s.last_status, "connected: nl-ams-1");
    assert_eq!(s.current_gateway, Some("nl-ams-1".to_string()));
    assert_eq!(s.is_logged_in, Some(true));
    let s = StatusSnapshot::from_status_output("Status: Connected");
    assert_eq!(s.last_status, "connected");
    assert_eq!(s.current_gateway, None);
}

#[test]
fn snapshot_of_other_states_uses_label() {
    let s = StatusSnapshot::from_status_output("Status: Disconnected\nGateway: nl-ams-1");
    assert_eq!(s.connection_status, ConnectionStatus::Disconnected);
    assert_eq!(s.last_status, "disconnected");
    assert_eq!(s.current_gateway, None);
    let u = StatusSnapshot::unknown();
    assert_eq!(u.connection_status, ConnectionStatus::Unknown);
    assert_eq!(u.last_status, "unknown");
    assert_eq!(u.is_logged_in, None);
}

#[test]
fn new_tray_is_idle() {
    let t = tray();
    assert_eq!(t.last_status, "idle");
    assert_eq!(t.connection_status, ConnectionStatus::Unknown);
    assert!(t.gateways.is_empty());
    assert_eq!(t.current_gateway, None);
    assert_eq!(t.is_logged_in, None);
}

#[test]
fn status_reply_updates_or_resets_status() {
    let mut t = tray();
    t.apply_status_reply(&Ok("Status: Connected\nServer: de-ber-1".to_string()));
    assert_eq!(t.connection_status, ConnectionStatus::Connected);
    assert_eq!(t.last_status, "connected: de-ber-1");
    assert_eq!(t.current_gateway, Some("de-ber-1".to_string()));
    t.apply_status_reply(&Err("boom".to_string()));
    assert_eq!(t.connection_status, ConnectionStatus::Unknown);
    assert_eq!(t.last_status, "unknown");
    assert_eq!(t.current_gateway, None);
}

#[test]
fn gateways_reply_lists_or_notifies() {
    let mut t = tray();
    let n = t.apply_gateways_reply(Ok("PRIVATE|nl|Netherlands\nSHARED|us|United States\n".to_string()));
    assert!(n.is_none());
    assert_eq!(t.gateways.len(), 2);
    let n = t.apply_gateways_reply(Err("no daemon".to_string())).unwrap();
    assert_eq!(n.summary, "NordLayer: refresh gateways failed (idle)");
    assert_eq!(n.body, "no daemon");
    assert!(t.gateways.is_empty());
}

#[test]
fn action_notice_reports_output_or_error() {
    let mut t = tray();
    t.apply_status_reply(&Ok("Status: Disconnected".to_string()));
    let n = t.action_notice("disconnect", &Ok(String::new()));
    assert_eq!(n.summary, "NordLayer: disconnect (disconnected)");
    assert_eq!(n.body, "disconnect completed\nStatus: disconnected");
    let n = t.action_notice("connect", &Err("command failed: nordlayer connect nl".to_string()));
    assert_eq!(n.summary, "NordLayer: connect failed (disconnected)");
    assert_eq!(n.body, "connect failed: command failed: nordlayer connect nl\nStatus: disconnected");
}

#[test]
fn gateway_label_marks_connected_gateway() {
    let mut t = tray();
    t.apply_status_reply(&Ok("Status: Connected\nGateway: nl".to_string()));
    let nl = Gateway { id: "nl".into(), name: "Netherlands".into(), is_private: true };
    let be = Gateway { id: "be".into(), name: "Belgium".into(), is_private: true };
    assert_eq!(t.gateway_label(&nl), "\u{2713} Netherlands");
    assert_eq!(t.gateway_label(&be), "Belgium");
}

fn run(action: &str, args: &[&str]) -> Option<MenuAction> {
    Some(MenuAction::Run {
        action: action.to_string(),
        args: args.iter().map(|a| a.to_string()).collect(),
    })
}

fn item(label: &str, enabled: bool, action: Option<MenuAction>) -> ActionItem {
    ActionItem { label: label.to_string(), enabled, action }
}

#[test]
fn menu_separates_private_and_shared_gateways() {
    let mut t = tray();
    t.apply_gateways_reply(Ok(
        "PRIVATE|nl|Netherlands\nSHARED|us|United States\nPRIVATE|be|Belgium\n".to_string(),
    ));
    t.apply_status_reply(&Ok("Login: me\nStatus: Connected\nGateway: be".to_string()));
    let m = t.menu();
    assert_eq!(
        m,
        vec![
            MenuEntry::Item(item("Status: connected: be", false, None)),
            MenuEntry::Submenu(
                "Private Gateways".to_string(),
                vec![
                    item("Netherlands", true, run("connect", &["connect", "nl"])),
                    item("\u{2713} Belgium", true, run("connect", &["connect", "be"])),
                ]
            ),
            MenuEntry::Submenu(
                "Shared Gateways".to_string(),
                vec![item("United States", true, run("connect", &["connect", "us"]))]
            ),
            MenuEntry::Item(item("Disconnect", true, run("disconnect", &["disconnect"]))),
            MenuEntry::Item(item("Logged in", false, None)),
            MenuEntry::Item(item("Refresh Status", true, Some(MenuAction::RefreshStatus))),
            MenuEntry::Item(item("Refresh Gateways", true, Some(MenuAction::RefreshGateways))),
            MenuEntry::Item(item("Quit", true, Some(MenuAction::Quit))),
        ]
    );
}

#[test]
fn menu_shows_placeholders_and_login() {
    let t = tray();
    let m = t.menu();
    assert_eq!(m.len(), 8);
    assert_eq!(m[0], MenuEntry::Item(item("Status: idle", false, None)));
    assert_eq!(
        m[1],
        MenuEntry::Submenu("Private Gateways".to_string(), vec![item("No private gateways", false, None)])
    );
    assert_eq!(
        m[2],
        MenuEntry::Submenu("Shared Gateways".to_string(), vec![item("No shared gateways", false, None)])
    );
    assert_eq!(m[4], MenuEntry::Item(item("Login", true, run("login", &["login"]))));
}

#[test]
fn actions_read_status_after_running() {
    assert_eq!(
        action_steps(&run("connect", &["connect", "nl"]).unwrap()),
        vec![
            Step::RunClient(vec!["connect".to_string(), "nl".to_string()]),
            Step::ReadStatus,
            Step::NotifyActionResult("connect".to_string()),
        ]
    );
    assert_eq!(action_steps(&MenuAction::RefreshStatus), vec![Step::ReadStatus]);
    assert_eq!(
        action_steps(&MenuAction::RefreshGateways),
        vec![Step::ReadGateways, Step::ReadStatus]
    );
    assert_eq!(action_steps(&MenuAction::Quit), vec![Step::Exit]);
    assert_eq!(startup_steps(), vec![Step::ReadStatus, Step::ReadGateways]);
}

#[test]
fn query_arguments() {
    assert_eq!(status_query_args(), vec!["status".to_string()]);
    assert_eq!(
        gateways_query_args(),
        vec!["gateways".to_string(), "-f".to_string(), GATEWAYS_TEMPLATE.to_string()]
    );
}

#[test]
fn icon_colours_follow_status() {
    assert_eq!(status_color(ConnectionStatus::Connected), (76, 175, 80));
    assert_eq!(status_color(ConnectionStatus::Connecting), (255, 152, 0));
    assert_eq!(status_color(ConnectionStatus::Reconnecting), (255, 152, 0));
    assert_eq!(status_color(ConnectionStatus::Disconnected), (229, 57, 53));
    assert_eq!(status_color(ConnectionStatus::NotLoggedIn), (255, 193, 7));
    assert_eq!(status_color(ConnectionStatus::Unknown), (158, 158, 158));
}
