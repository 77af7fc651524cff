use principia_aves::config::parse_dotenv;

#[test]
fn parses_dotenv_values() {
    let values = parse_dotenv(
        r#"
            # ignored
            R2_ENABLED=true
            export BROKER_HOST=host.docker.internal
            EMPTY=
            QUOTED="bots"
            SINGLE='warmbot_1,warmbot_2'
            "#,
    );

    assert_eq!(values.get("R2_ENABLED").map(String::as_str), Some("true"));
    assert_eq!(
        values.get("BROKER_HOST").map(String::as_str),
        Some("host.docker.internal")
    );
    assert_eq!(values.get("EMPTY").map(String::as_str), Some(""));
    assert_eq!(values.get("QUOTED").map(String::as_str), Some("bots"));
    assert_eq!(
        values.get("SINGLE").map(String::as_str),
        Some("warmbot_1,warmbot_2")
    );
}
