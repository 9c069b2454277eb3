use arcella::arcella_core::component::{component_manifest_from_wasm, ArcellaWasmtimeError};
use arcella::arcella_core::error::ArcellaError;
use arcella::arcella_core::runtime::{
    check_module_not_installed, record_installation, ArcellaMutation, ArcellaState, DeployModule,
    DeploymentSpec, InstallModule,
};
use arcella::arcella_types::error::ArcellaError as TypeError;
use arcella::arcella_types::interface_list::InterfaceList;
use arcella::arcella_types::manifest::{ComponentCapabilities, ComponentManifest, ManifestInput};
use arcella::arcella_types::module_id::ModuleId;

fn create_test_manifest() -> Option<ComponentManifest> {
    let input = ManifestInput::Flat {
        name: "test-component".to_string(),
        version: "0.1.0".to_string(),
        description: Some("A test component".to_string()),
        exports: InterfaceList::from_names(vec!["foo:bar@1.0".to_string()]),
        imports: InterfaceList::from_names(vec!["wasi:cli@0.2.0".to_string()]),
        capabilities: ComponentCapabilities::default(),
    };
    ComponentManifest::from_input(input).ok()
}

#[test]
fn test_install_module() {
    let mut state = ArcellaState::default();
    let manifest = create_test_manifest().unwrap();
    let module_id = manifest.id.to_string();

    let mutation = InstallModule { manifest: manifest.clone() };
    mutation.apply(&mut state);

    assert!(state.is_installed(&module_id));
    assert_eq!(state.installed(&module_id).unwrap(), &manifest);
}

#[test]
fn test_install_module_idempotent() {
    let mut state = ArcellaState::default();
    let manifest = create_test_manifest().unwrap();
    let module_id = manifest.id.to_string();

    let mutation = InstallModule { manifest: manifest.clone() };
    mutation.clone().apply(&mut state);
    mutation.apply(&mut state);

    assert_eq!(state.installed_count(), 1);
    assert_eq!(state.installed(&module_id).unwrap(), &manifest);
}

#[test]
fn installation_refuses_duplicates_and_leaves_state() {
    let mut state = ArcellaState::default();
    let manifest = create_test_manifest().unwrap();
    let id = record_installation(&mut state, manifest.clone(), false).unwrap();
    assert_eq!(id.to_string(), "test-component@0.1.0");
    assert_eq!(state.installed_count(), 1);

    let again = record_installation(&mut state, manifest.clone(), false);
    assert_eq!(again, Err(ArcellaError::ModuleAlreadyInstalled("test-component@0.1.0".to_string())));
    assert_eq!(state.installed_count(), 1);

    let mut fresh = ArcellaState::default();
    assert!(record_installation(&mut fresh, manifest.clone(), true).is_err());
    assert_eq!(fresh.installed_count(), 0);
    assert!(check_module_not_installed(&fresh, &manifest.id, false).is_ok());
}

#[test]
fn install_keeps_other_modules() {
    let mut state = ArcellaState::default();
    let a = create_test_manifest().unwrap();
    let mut b = create_test_manifest().unwrap();
    b.id = ModuleId::new("other".to_string(), "2.0.0".to_string()).unwrap();
    ArcellaMutation::InstallModule(InstallModule { manifest: a.clone() }).apply(&mut state);
    ArcellaMutation::InstallModule(InstallModule { manifest: b.clone() }).apply(&mut state);
    assert_eq!(state.installed_count(), 2);
    assert_eq!(state.installed("test-component@0.1.0"), Some(&a));
    assert_eq!(state.installed("other@2.0.0"), Some(&b));
    assert_eq!(state.installed("missing@1.0.0"), None);
}

#[test]
fn deploy_records_by_module() {
    let mut state = ArcellaState::default();
    let spec = DeploymentSpec {
        module_id: ModuleId::new("web".to_string(), "1.0.0".to_string()).unwrap(),
        group: "edge".to_string(),
    };
    ArcellaMutation::DeployModule(DeployModule { spec: spec.clone() }).apply(&mut state);
    assert_eq!(state.deployment("web@1.0.0"), Some(&spec));
    assert_eq!(state.installed_count(), 0);
}

#[test]
fn manifest_from_component_binary_takes_the_file_name() {
    let m = component_manifest_from_wasm("/x/http-logger@0.1.0.wasm").unwrap();
    assert_eq!(m.id, ModuleId::new("http-logger".to_string(), "0.1.0".to_string()).unwrap());
    assert!(m.description.is_none());
    assert!(m.exports.is_empty());
    assert!(m.imports.is_empty());
    assert_eq!(
        component_manifest_from_wasm("/x/app.wasm"),
        Err(ArcellaWasmtimeError::ArcellaTypeError(TypeError::InvalidModuleIdFormat("app".to_string())))
    );
    assert_eq!(
        component_manifest_from_wasm("/x/app@1.0.0.txt"),
        Err(ArcellaWasmtimeError::Manifest("File 'app@1.0.0.txt' does not have extension 'wasm'".to_string()))
    );
}

#[test]
fn wasmtime_errors_convert() {
    let e: ArcellaWasmtimeError = "no exports".to_string().into();
    assert_eq!(e, ArcellaWasmtimeError::Introspection("no exports".to_string()));
    let t: ArcellaWasmtimeError = TypeError::Manifest("x".to_string()).into();
    assert_eq!(t, ArcellaWasmtimeError::ArcellaTypeError(TypeError::Manifest("x".to_string())));
}
