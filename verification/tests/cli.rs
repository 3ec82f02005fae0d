use nordlayer_kde::cli::NordLayerCli;

#[test]
fn binary_defaults_to_nordlayer() {
    assert_eq!(NordLayerCli::with_binary(None).bin(), "nordlayer");
    assert_eq!(NordLayerCli::with_binary(Some("/opt/nl".to_string())).bin(), "/opt/nl");
}

#[test]
fn successful_run_gives_trimmed_stdout() {
    let cli = NordLayerCli::with_binary(None);
    assert_eq!(cli.run_outcome(&["status"], true, "  Connected\n", "warn"), Ok("Connected".to_string()));
}

#[test]
fn failed_run_gives_stderr_or_command_line() {
    let cli = NordLayerCli::with_binary(None);
    assert_eq!(
        cli.run_outcome(&["connect", "nl"], false, "out", " not logged in \n"),
        Err("not logged in".to_string())
    );
    assert_eq!(
        cli.run_outcome(&["connect", "nl"], false, "out", " \n"),
        Err("command failed: nordlayer connect nl".to_string())
    );
    assert_eq!(cli.run_outcome(&[], false, "", ""), Err("command failed: nordlayer ".to_string()));
}

#[test]
fn start_failure_names_binary() {
    let cli = NordLayerCli::with_binary(Some("nl-bin".to_string()));
    assert_eq!(cli.start_failure_message(), "failed to start 'nl-bin'");
}
