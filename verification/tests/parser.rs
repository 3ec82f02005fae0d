use nordlayer_kde::parser::{
    parse_connection_status, parse_gateway_from_status, parse_gateway_records, parse_gateways,
    parse_gateways_output, parse_login_state, parse_status_output, ConnectionStatus, Gateway,
};

fn gw(id: &str, name: &str, is_private: bool) -> Gateway {
    Gateway { id: id.to_string(), name: name.to_string(), is_private }
}

// Template-based parsers
#[test]
fn template_status_connected_with_gateway() {
    let output = "Connected\tus-east-1";
    let (status, gw) = parse_status_output(output);
    assert_eq!(status, ConnectionStatus::Connected);
    assert_eq!(gw, Some("us-east-1".to_string()));
}

#[test]
fn template_status_disconnected_no_gateway() {
    let output = "Disconnected\t";
    let (status, gw) = parse_status_output(output);
    assert_eq!(status, ConnectionStatus::Disconnected);
    assert_eq!(gw, None);
}

#[test]
fn template_gateways_one_per_line() {
    let output = "us-east-1\nuk-lon-1\nde-ber-1\n";
    assert_eq!(
        parse_gateways_output(output),
        vec!["us-east-1", "uk-lon-1", "de-ber-1"]
    );
}

#[test]
fn template_gateways_ignores_blank_lines() {
    let output = "us-east-1\n\nuk-lon-1\n";
    assert_eq!(parse_gateways_output(output), vec!["us-east-1", "uk-lon-1"]);
}

// Marker-based gateway records
#[test]
fn parser_template_gateways_one_per_line() {
    let out = "PRIVATE|nl|Netherlands\nPRIVATE|be|Belgium\nSHARED|us|United States\n";
    let gws = parse_gateway_records(out);
    assert_eq!(
        gws,
        vec![
            Gateway {
                id: "nl".into(),
                name: "Netherlands".into(),
                is_private: true
            },
            Gateway {
                id: "be".into(),
                name: "Belgium".into(),
                is_private: true
            },
            Gateway {
                id: "us".into(),
                name: "United States".into(),
                is_private: false
            },
        ]
    );
}

#[test]
fn parser_template_gateways_ignores_blank_lines() {
    let out = "PRIVATE|id1|Private\n\nSHARED|id2|Shared\n";
    let gws = parse_gateway_records(out);
    assert_eq!(gws.len(), 2);
    assert!(gws[0].is_private);
    assert!(!gws[1].is_private);
}

#[test]
fn gateway_records_escaped_newlines_read_like_lines() {
    let lines = "PRIVATE|nl|Netherlands\nSHARED|us|United States\n";
    let escaped = "PRIVATE|nl|Netherlands\\nSHARED|us|United States\\n";
    let expected = vec![gw("nl", "Netherlands", true), gw("us", "United States", false)];
    assert_eq!(parse_gateway_records(lines), expected);
    assert_eq!(parse_gateway_records(escaped), expected);
}

#[test]
fn gateway_records_glued_read_like_lines() {
    let glued = "PRIVATE|nl|NetherlandsPRIVATE|be|BelgiumSHARED|us|United States";
    assert_eq!(
        parse_gateway_records(glued),
        vec![
            gw("nl", "Netherlands", true),
            gw("be", "Belgium", true),
            gw("us", "United States", false)
        ]
    );
}

#[test]
fn gateway_records_trim_fields_and_skip_malformed() {
    let out = "header line\nPRIVATE| nl | Netherlands \r\nSHARED|no-separator\nSHARED| |blank id\nSHARED|x|a|b";
    assert_eq!(
        parse_gateway_records(out),
        vec![gw("nl", "Netherlands", true), gw("x", "a|b", false)]
    );
}

#[test]
fn gateway_records_of_empty_output() {
    assert_eq!(parse_gateway_records(""), Vec::<Gateway>::new());
    assert_eq!(parse_gateway_records("no gateways\n"), Vec::<Gateway>::new());
}

// Heuristic parsers (plain-text fallback)
#[test]
fn parses_connected_status() {
    let output = "Status: Connected\nGateway: us-east-1";
    assert_eq!(parse_connection_status(output), ConnectionStatus::Connected);
}

#[test]
fn extracts_gateway_from_status_output() {
    let output = "Status: Connected\nGateway: us-east-1";
    assert_eq!(
        parse_gateway_from_status(output),
        Some("us-east-1".to_string())
    );
}

#[test]
fn extracts_gateway_with_current_prefix() {
    let output = "Status: Connected\nCurrent gateway: de-ber-1";
    assert_eq!(
        parse_gateway_from_status(output),
        Some("de-ber-1".to_string())
    );
}

#[test]
fn returns_none_when_disconnected_no_gateway() {
    let output = "Status: Disconnected";
    assert_eq!(parse_gateway_from_status(output), None);
}

#[test]
fn parses_not_logged_in_status() {
    let output = "Error: not logged in";
    assert_eq!(parse_connection_status(output), ConnectionStatus::NotLoggedIn);
}

#[test]
fn parses_unknown_status() {
    assert_eq!(parse_connection_status("mystery state"), ConnectionStatus::Unknown);
}

#[test]
fn parses_simple_rows() {
    let output = "us-east-1 online\nuk-lon-1 online\n";
    assert_eq!(parse_gateways(output), vec!["us-east-1", "uk-lon-1"]);
}

#[test]
fn skips_header_and_separators() {
    let output = "Gateway | City\n------- | ----\n| de-ber-1 | Berlin\n";
    assert_eq!(parse_gateways(output), vec!["de-ber-1"]);
}

#[test]
fn parses_disconnected_status() {
    let output = "Status: Disconnected";
    assert_eq!(
        parse_connection_status(output),
        ConnectionStatus::Disconnected
    );
}

#[test]
fn parses_connecting_status() {
    let output = "Status: Connecting";
    assert_eq!(
        parse_connection_status(output),
        ConnectionStatus::Connecting
    );
}

#[test]
fn extracts_gateway_when_connected() {
    let output = "Status: Connected\nGateway: uk-lon-1";
    assert_eq!(
        parse_gateway_from_status(output),
        Some("uk-lon-1".to_string())
    );
}

// Further cases
#[test]
fn classification_order_and_case() {
    assert_eq!(parse_connection_status("LOGGED OUT, was Connected"), ConnectionStatus::NotLoggedIn);
    assert_eq!(parse_connection_status("Status: Reconnecting"), ConnectionStatus::Reconnecting);
    assert_eq!(parse_connection_status("Status: Not Connected"), ConnectionStatus::Disconnected);
    assert_eq!(parse_connection_status(""), ConnectionStatus::Unknown);
}

#[test]
fn labels_classify_as_their_state() {
    for s in [
        ConnectionStatus::Connected,
        ConnectionStatus::Disconnected,
        ConnectionStatus::Connecting,
        ConnectionStatus::Reconnecting,
        ConnectionStatus::NotLoggedIn,
        ConnectionStatus::Unknown,
    ] {
        assert_eq!(parse_connection_status(s.label()), s);
    }
    assert_eq!(ConnectionStatus::NotLoggedIn.label(), "not logged in");
}

#[test]
fn status_output_trims_and_splits_at_first_tab() {
    let (status, gw) = parse_status_output("  Connected \t us-east-1 \t extra \n");
    assert_eq!(status, ConnectionStatus::Connected);
    assert_eq!(gw, Some("us-east-1 \t extra".to_string()));
    let (status, gw) = parse_status_output("Connecting");
    assert_eq!(status, ConnectionStatus::Connecting);
    assert_eq!(gw, None);
    let (status, gw) = parse_status_output("\u{a0}Disconnected\u{3000}");
    assert_eq!(status, ConnectionStatus::Disconnected);
    assert_eq!(gw, None);
}

#[test]
fn gateways_output_handles_crlf_and_whitespace() {
    assert_eq!(parse_gateways_output("a\r\n  b  \r\n\t\r\n"), vec!["a", "b"]);
    assert_eq!(parse_gateways_output(""), Vec::<String>::new());
}

#[test]
fn gateway_from_status_reads_only_the_key() {
    let output = "Status: Connected to server\nGateway: nl-1";
    assert_eq!(parse_gateway_from_status(output), Some("nl-1".to_string()));
    assert_eq!(parse_gateway_from_status("Note: gateway is down"), None);
}

#[test]
fn gateway_from_status_needs_a_value() {
    assert_eq!(parse_gateway_from_status("Server:\nServer: nl-1"), Some("nl-1".to_string()));
    assert_eq!(parse_gateway_from_status("Gateway us-east-1"), None);
    assert_eq!(parse_gateway_from_status("SERVER IP: 10.0.0.1:51820"), Some("10.0.0.1:51820".to_string()));
}

#[test]
fn table_rows_take_the_first_cell() {
    let output = "+-----+\n* nl-ams-1 | Amsterdam\n|  | empty\n   \n-|-x";
    assert_eq!(parse_gateways(output), vec!["nl-ams-1", "empty", "x"]);
}

#[test]
fn login_state_from_status_text() {
    assert_eq!(parse_login_state("Error: not logged in"), Some(false));
    assert_eq!(parse_login_state("Status: Logged out"), Some(false));
    assert_eq!(parse_login_state("Login: user@example.com\nStatus: Connected"), Some(true));
    assert_eq!(parse_login_state("Login:   \nStatus: Connected"), None);
    assert_eq!(parse_login_state("Status: Connected"), None);
    assert_eq!(parse_login_state("Status: login: pending"), None);
}

#[test]
fn one_per_line_output_of_joined_texts() {
    let a = "us-east-1\r\n\n uk-lon-1 \r";
    let b = "\nde-ber-1\n";
    let joined = format!("{}\n{}", a, b);
    let mut expected = parse_gateways_output(a);
    expected.extend(parse_gateways_output(b));
    assert_eq!(parse_gateways_output(&joined), expected);
    assert_eq!(expected, vec!["us-east-1", "uk-lon-1", "de-ber-1"]);
}
