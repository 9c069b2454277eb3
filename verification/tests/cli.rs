use arcella::arcella_cli::{command_output, default_socket_path, exec_reply, request_for, shell_output, Commands};
use arcella::arcella_types::alme::{log_lines, AlmeCommand, AlmeRequest, AlmeResponse, JsonValue};

#[test]
fn each_command_sends_its_request() {
    assert_eq!(request_for(&Commands::Ping), Some(AlmeRequest { command: AlmeCommand::Ping }));
    assert_eq!(
        request_for(&Commands::LogTail { n: 100 }),
        Some(AlmeRequest { command: AlmeCommand::LogTail { n: 100 } })
    );
    assert_eq!(
        request_for(&Commands::Status),
        Some(AlmeRequest { command: AlmeCommand::Status { deployment_id: None } })
    );
    assert_eq!(
        request_for(&Commands::ModuleInstall { path: "/x/app.wasm".to_string() }),
        Some(AlmeRequest { command: AlmeCommand::ModuleInstall { path: "/x/app.wasm".to_string() } })
    );
    assert_eq!(
        request_for(&Commands::ModuleStop { deployment_id: "web-v1".to_string() }),
        Some(AlmeRequest { command: AlmeCommand::ModuleStop { deployment_id: "web-v1".to_string() } })
    );
    assert_eq!(request_for(&Commands::Shell), None);
}

#[test]
fn replies_are_printed() {
    let ok = AlmeResponse::success("pong", None);
    let out = exec_reply(&ok, "", None);
    assert_eq!(out.stdout, vec!["pong".to_string()]);
    assert!(out.stderr.is_empty());
    assert!(!out.exit_failure);

    let with_data = AlmeResponse::success("", Some(JsonValue::Bool(true)));
    let out = exec_reply(&with_data, "Done", Some("true".to_string()));
    assert_eq!(out.stdout, vec!["Done".to_string(), "Details: true".to_string()]);

    let failed = AlmeResponse::error("no such module");
    let out = command_output(&Commands::ModuleList, &failed, None);
    assert!(out.stdout.is_empty());
    assert_eq!(out.stderr, vec!["Error: no such module".to_string()]);
    assert!(out.exit_failure);

    let shell = shell_output();
    assert_eq!(
        shell.stderr,
        vec!["Interactive shell not implemented yet (use single commands)".to_string()]
    );
    assert!(shell.exit_failure);
}

#[test]
fn log_tail_prints_the_string_lines() {
    let data = JsonValue::Object(vec![(
        "lines".to_string(),
        JsonValue::Array(vec![
            JsonValue::Text("second".to_string()),
            JsonValue::Number("3".to_string()),
            JsonValue::Text("first".to_string()),
        ]),
    )]);
    let resp = AlmeResponse::success("", Some(data));
    let out = command_output(&Commands::LogTail { n: 2 }, &resp, None);
    assert_eq!(out.stdout, vec!["second".to_string(), "first".to_string()]);
    assert!(!out.exit_failure);

    assert!(log_lines(&Some(JsonValue::Null)).is_empty());
    assert!(log_lines(&None).is_empty());
    let no_array = JsonValue::Object(vec![("lines".to_string(), JsonValue::Text("x".to_string()))]);
    assert!(log_lines(&Some(no_array)).is_empty());
}

#[test]
fn socket_under_home() {
    assert_eq!(default_socket_path("/home/u"), "/home/u/.arcella/alme");
}
