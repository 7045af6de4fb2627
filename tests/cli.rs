use wtg_cli::input::Cli;

#[test]
fn sanitizes_plain_query_inputs() {
    let cli = Cli {
        input: Some("   \n".into()),
        repo: Some("owner/repo".into()),
        help: None,
    };
    assert!(cli.parse_input().is_none());

    let cli = Cli {
        input: Some("  #99  ".into()),
        repo: Some("owner/repo".into()),
        help: None,
    };
    let parsed = cli.parse_input().unwrap();
    assert_eq!(parsed.query(), "#99");
}
