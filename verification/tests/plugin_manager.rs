use openforensic::plugins::{
    loader_for_extension, merge_plugin_results, unsupported_extension_message, PluginInfo, PluginLoader,
    PluginManager, PluginOutput, PluginType, StringMap,
};

fn info(name: &str, version: &str) -> PluginInfo {
    PluginInfo {
        name: name.to_string(),
        version: version.to_string(),
        plugin_type: PluginType::Analyzer,
        source_path: format!("/plugins/{}.wasm", name),
        loader: "WebAssembly".to_string(),
    }
}

#[test]
fn test_plugin_manager_empty() {
    let mgr: PluginManager<()> = PluginManager::new();
    assert!(mgr.list_plugins().is_empty());
    assert!(mgr.get_active_plugins().is_empty());
}

#[test]
fn test_unload_nonexistent_plugin() {
    let mut mgr: PluginManager<()> = PluginManager::new();
    assert!(mgr.unload_plugin("non-existent").is_err());
}

#[test]
fn unload_error_names_the_plugin() {
    let mut mgr: PluginManager<u32> = PluginManager::new();
    assert_eq!(mgr.unload_plugin("ghost"), Err("Plugin 'ghost' not found".to_string()));
}

#[test]
fn registering_a_name_again_replaces_the_plugin() {
    let mut mgr: PluginManager<u32> = PluginManager::new();
    mgr.register(info("entropy", "1.0"), 1);
    mgr.register(info("carver", "0.3"), 2);
    mgr.register(info("entropy", "2.0"), 3);
    let listed = mgr.list_plugins();
    assert_eq!(listed.len(), 2);
    assert_eq!(listed[0].name, "carver");
    assert_eq!(listed[1].name, "entropy");
    assert_eq!(listed[1].version, "2.0");
    let active = mgr.get_active_plugins();
    assert_eq!(active.len(), 2);
    assert_eq!(active[0].1, 2);
    assert_eq!(active[1].1, 3);
    assert_eq!(active[1].0.source_path, "/plugins/entropy.wasm");
}

#[test]
fn unload_removes_only_that_plugin() {
    let mut mgr: PluginManager<u32> = PluginManager::new();
    mgr.register(info("entropy", "1.0"), 1);
    mgr.register(info("carver", "0.3"), 2);
    assert_eq!(mgr.unload_plugin("entropy"), Ok(()));
    assert_eq!(mgr.len(), 1);
    assert_eq!(mgr.list_plugins()[0].name, "carver");
    assert!(mgr.unload_plugin("entropy").is_err());
}

#[test]
fn plugin_results_are_reported_under_the_plugin_name() {
    let mut output = PluginOutput::new();
    output.insert("blocks_processed".to_string(), "2".to_string());
    output.insert("entropy".to_string(), "7.9".to_string());
    let mut target = StringMap::new();
    target.insert("other.key".to_string(), "x".to_string());
    merge_plugin_results(&mut target, "mock-plugin", &output);
    assert_eq!(target.len(), 3);
    assert_eq!(target.get("mock-plugin.blocks_processed"), Some(&"2".to_string()));
    assert_eq!(target.get("mock-plugin.entropy"), Some(&"7.9".to_string()));
    assert_eq!(target.get("other.key"), Some(&"x".to_string()));
    assert_eq!(target.get("blocks_processed"), None);
}

#[test]
fn string_map_insert_overwrites() {
    let mut m = StringMap::new();
    assert!(m.is_empty());
    m.insert("a".to_string(), "1".to_string());
    m.insert("a".to_string(), "2".to_string());
    assert_eq!(m.len(), 1);
    assert_eq!(m.get("a"), Some(&"2".to_string()));
    assert_eq!(m.entries(), vec![("a".to_string(), "2".to_string())]);
}

#[test]
fn extensions_choose_the_loader_in_any_case() {
    assert_eq!(loader_for_extension("DLL"), Some(PluginLoader::Native));
    assert_eq!(loader_for_extension("so"), Some(PluginLoader::Native));
    assert_eq!(loader_for_extension("Dylib"), Some(PluginLoader::Native));
    assert_eq!(loader_for_extension("WASM"), Some(PluginLoader::WebAssembly));
    assert_eq!(loader_for_extension("exe"), None);
    assert_eq!(PluginLoader::WebAssembly.name(), "WebAssembly");
    assert_eq!(PluginType::AcquisitionModule.name(), "AcquisitionModule");
}

#[test]
fn unsupported_extension_is_reported_in_lower_case() {
    assert_eq!(
        unsupported_extension_message("EXE", "C:\\tools\\x.EXE"),
        "Unsupported plugin file extension '.exe' for file C:\\tools\\x.EXE"
    );
}
