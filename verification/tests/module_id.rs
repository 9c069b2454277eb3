use arcella::arcella_types::error::ArcellaError;
use arcella::arcella_types::module_id::{is_valid_name, is_valid_simple_version, ModuleId, ModuleIdInput};

#[test]
fn test_valid_module_ids() {
    let cases = vec!["logger@1.0.0", "http_handler@2.10.5", "a@0.0.1", "my_mod_v2@1.2.3", "test-1@9.9.9"];

    for case in cases {
        let id = ModuleId::from_str(case).unwrap_or_else(|_| panic!("Failed to parse: {case}"));
        assert_eq!(id.to_string(), case);
    }
}

#[test]
fn test_invalid_names() {
    let invalid_names = vec![
        "",
        "logger@",
        "@1.0.0",
        "logger@1.0",
        "logger@1.0.0.0",
        "logger@1.02.0",
        "logger@1.0.00",
        "logger@1.0.0a",
        "logger with space@1.0.0",
        "logger!@1.0.0",
    ];

    for name in invalid_names {
        assert!(ModuleId::from_str(name).is_err(), "Should fail: {name}");
    }
}

#[test]
fn test_is_valid_simple_version() {
    assert!(is_valid_simple_version("1.0.0"));
    assert!(is_valid_simple_version("0.0.0"));
    assert!(is_valid_simple_version("123.45.6"));

    assert!(!is_valid_simple_version("1.0"));
    assert!(!is_valid_simple_version("1.0.0.0"));
    assert!(!is_valid_simple_version("1.02.0"));
    assert!(!is_valid_simple_version("1.0.00"));
    assert!(!is_valid_simple_version("1.a.0"));
    assert!(!is_valid_simple_version("1..0"));
    assert!(!is_valid_simple_version(""));
    assert!(!is_valid_simple_version("01.0.0"));
}

#[test]
fn test_is_valid_name() {
    assert!(is_valid_name("a"));
    assert!(is_valid_name("logger"));
    assert!(is_valid_name("http_handler"));
    assert!(is_valid_name("test-123"));
    assert!(is_valid_name("123mod"));

    assert!(!is_valid_name(""));
    assert!(!is_valid_name("logger!"));
    assert!(!is_valid_name("logger with space"));
    assert!(!is_valid_name(&"x".repeat(129)));
}

#[test]
fn module_id_errors_name_the_offending_part() {
    assert_eq!(
        ModuleId::from_str("bad@@version"),
        Err(ArcellaError::InvalidModuleIdFormat("bad@@version".to_string()))
    );
    assert_eq!(
        ModuleId::new("in valid".to_string(), "1.0.0".to_string()),
        Err(ArcellaError::InvalidModuleIdName("in valid".to_string()))
    );
    assert_eq!(
        ModuleId::new("ok".to_string(), "1.0".to_string()),
        Err(ArcellaError::InvalidModuleIdVersion("1.0".to_string()))
    );
    assert_eq!(
        ModuleId::from_str("logger@1.02.0"),
        Err(ArcellaError::InvalidModuleIdVersion("1.02.0".to_string()))
    );
    let e = ModuleId::new("in valid".to_string(), "1.0.0".to_string()).unwrap_err();
    assert!(e.message().contains("Invalid module ID name"));
}

#[test]
fn module_id_from_both_serialized_forms() {
    let a = ModuleId::from_input(ModuleIdInput::Text("test@1.0.0".to_string())).unwrap();
    assert_eq!(a.name, "test");
    assert_eq!(a.version, "1.0.0");
    let b = ModuleId::from_input(ModuleIdInput::Fields {
        name: "my_mod".to_string(),
        version: "2.10.5".to_string(),
    })
    .unwrap();
    assert_eq!(b.to_string(), "my_mod@2.10.5");
    let c = ModuleId::from_input(ModuleIdInput::Fields {
        name: "in valid".to_string(),
        version: "1.0.0".to_string(),
    });
    assert!(c.unwrap_err().message().contains("Invalid module ID name"));
}

#[test]
fn module_id_text_roundtrip() {
    let id = ModuleId::new("web-handler".to_string(), "2.0.0".to_string()).unwrap();
    let again = ModuleId::from_str(&id.to_string()).unwrap();
    assert_eq!(id, again);
}
