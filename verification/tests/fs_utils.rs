use arcella::arcella_core::fs::{
    base_name_strip_ext, choose_app_dirs, exe_relative_dirs, fresh_temp_subdir_name, get_app_dirs,
    plan_copies, temp_subdir_name, validate_base_name, AppDirs, ArcellaUtilsError,
};

#[test]
fn test_base_name_strip_ext() {
    assert_eq!(base_name_strip_ext("app.wasm", "wasm").unwrap(), "app");
    assert_eq!(
        base_name_strip_ext("hello-world@1.0.0.deployment.toml", "deployment.toml").unwrap(),
        "hello-world@1.0.0"
    );
    assert!(base_name_strip_ext("bad.txt", "wasm").is_err());
    assert!(base_name_strip_ext(".wasm", "wasm").is_err());
}

#[test]
fn test_validate_base_name() {
    assert!(validate_base_name("valid_mod").is_ok());
    assert!(validate_base_name("test-123").is_ok());
    assert!(validate_base_name("").is_err());
    assert!(validate_base_name("invalid name!").is_err());
    assert!(validate_base_name(&"x".repeat(129)).is_err());
}

fn invalid(message: &str) -> ArcellaUtilsError {
    ArcellaUtilsError::InvalidArgument { message: message.to_string() }
}

#[test]
fn base_name_errors_in_order() {
    assert_eq!(validate_base_name(""), Err(invalid("Base name is empty or too long")));
    assert_eq!(
        validate_base_name("bad name"),
        Err(invalid("Base name contains invalid characters (allowed: a-z, A-Z, 0-9, -, _)"))
    );
    // The rule is the module-name rule: hyphens may stand anywhere.
    assert!(validate_base_name("-lead").is_ok());
    assert!(validate_base_name("trail-").is_ok());
    assert!(validate_base_name(&"x".repeat(128)).is_ok());
    // 65 two-byte characters are 130 bytes: too long before being invalid.
    assert_eq!(validate_base_name(&"é".repeat(65)), Err(invalid("Base name is empty or too long")));
}

#[test]
fn strip_ext_messages() {
    assert_eq!(base_name_strip_ext("/x/app.wasm", "wasm"), Ok("app".to_string()));
    assert_eq!(
        base_name_strip_ext("dir/bad.txt", "wasm"),
        Err(invalid("File 'bad.txt' does not have extension 'wasm'"))
    );
    assert_eq!(base_name_strip_ext("appwasm", "wasm"), Err(invalid("File 'appwasm' does not have extension 'wasm'")));
    assert_eq!(base_name_strip_ext("/", "wasm"), Err(invalid("File has no valid UTF-8 name")));
}

#[test]
fn exe_relative_candidates() {
    let d = exe_relative_dirs("/opt/arcella/bin/arcella").unwrap();
    assert_eq!(d, AppDirs { base: "/opt/arcella".to_string(), config: "/opt/arcella/config".to_string() });
    let d = exe_relative_dirs("/opt/arcella/arcella").unwrap();
    assert_eq!(d.base, "/opt/arcella");
    assert_eq!(d.config, "/opt/arcella/config");
    // `/bin` directly under the root is not an installation.
    assert_eq!(exe_relative_dirs("/bin/arcella"), None);
    assert_eq!(exe_relative_dirs("arcella"), None);
}

#[test]
fn app_dirs_fall_back_in_order() {
    let exe = AppDirs { base: "/opt/a".to_string(), config: "/opt/a/config".to_string() };
    assert_eq!(choose_app_dirs(Some(exe.clone()), None, None, None), Ok(exe));
    let both = choose_app_dirs(
        None,
        Some("/home/u/.config".to_string()),
        Some("/home/u/.local/share".to_string()),
        Some("/home/u".to_string()),
    )
    .unwrap();
    assert_eq!(both.base, "/home/u/.local/share/arcella");
    assert_eq!(both.config, "/home/u/.config/arcella");
    let no_data =
        choose_app_dirs(None, Some("/home/u/.config".to_string()), None, Some("/home/u".to_string()))
            .unwrap();
    assert_eq!(no_data.base, "/home/u/.arcella");
    assert_eq!(no_data.config, "/home/u/.config/arcella");
    let home_only = choose_app_dirs(None, None, None, Some("/home/u".to_string())).unwrap();
    assert_eq!(home_only.base, "/home/u/.arcella");
    assert_eq!(home_only.config, "/home/u/.arcella/config");
    assert_eq!(
        choose_app_dirs(None, None, Some("/data".to_string()), None),
        Err(ArcellaUtilsError::Internal("Cannot determine app directories".to_string()))
    );
}

#[test]
fn temp_names_are_sanitized() {
    assert_eq!(temp_subdir_name(None, "0123"), "tmp-0123");
    assert_eq!(temp_subdir_name(Some("my mod/x"), "ab"), "my_mod_x.tmp-ab");
    let fresh = fresh_temp_subdir_name(Some("pkg"), [0u8; 16]);
    // The version and variant bits are set over the random bytes.
    assert_eq!(fresh, "pkg.tmp-00000000000040008000000000000000");
    let other = fresh_temp_subdir_name(None, [0xffu8; 16]);
    assert_eq!(other, "tmp-ffffffffffff4fffbfffffffffffffff");
    let uuid = &other["tmp-".len()..];
    assert_eq!(uuid.len(), 32);
    assert!(uuid.chars().all(|c| c.is_ascii_hexdigit() && !c.is_ascii_uppercase()));
}

#[test]
fn copy_plans() {
    assert_eq!(plan_copies(&vec![], "/nowhere", false), Ok(vec![]));
    assert_eq!(
        plan_copies(&vec!["a/x.wasm".to_string()], "/t", false),
        Err(invalid("Target is not a directory: '/t'"))
    );
    assert_eq!(
        plan_copies(&vec!["a/x.wasm".to_string(), "b/y.toml".to_string()], "/t", true),
        Ok(vec![
            ("a/x.wasm".to_string(), "/t/x.wasm".to_string()),
            ("b/y.toml".to_string(), "/t/y.toml".to_string())
        ])
    );
    assert_eq!(
        plan_copies(&vec!["a/x.wasm".to_string(), "/".to_string(), "..".to_string()], "/t", true),
        Err(invalid("File has no name: '/'"))
    );
}

#[test]
fn app_dirs_prefer_the_installation() {
    let exe = AppDirs { base: "/opt/a".to_string(), config: "/opt/a/config".to_string() };
    assert_eq!(get_app_dirs(Some(exe.clone())), Ok(exe));
    if let Ok(d) = get_app_dirs(None) {
        assert!(d.base.ends_with("arcella"));
        assert!(d.config.ends_with("arcella") || d.config.ends_with("config"));
    }
}

#[test]
fn accepted_base_names_are_module_names() {
    for name in ["valid_mod", "test-123", "a", "X_9", "-a", "b-"] {
        assert!(validate_base_name(name).is_ok());
        assert!(arcella::arcella_types::module_id::is_valid_name(name));
    }
    for name in ["", "a b", "é"] {
        assert!(validate_base_name(name).is_err());
        assert!(!arcella::arcella_types::module_id::is_valid_name(name));
    }
}

#[test]
fn temp_names_carry_the_v4_uuid_of_the_bytes() {
    let bytes: [u8; 16] = [0x00, 0x11, 0x22, 0x33, 0x44, 0x55, 0x66, 0x77, 0x88, 0x99, 0xaa, 0xbb, 0xcc, 0xdd, 0xee, 0xff];
    let expected = uuid::Builder::from_random_bytes(bytes).into_uuid().simple().to_string();
    assert_eq!(expected, "00112233445546778899aabbccddeeff");
    assert_eq!(fresh_temp_subdir_name(None, bytes), format!("tmp-{}", expected));
}
