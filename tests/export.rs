use wasix_journal::export::{
    wasmer_import_export_kind, wasmer_limit_option_t, wasmer_limits_t, NamedExportDescriptor,
    NamedExportDescriptors,
};

#[test]
fn kind_names() {
    assert_eq!(wasmer_import_export_kind::WASM_FUNCTION.to_str(), "function");
    assert_eq!(wasmer_import_export_kind::WASM_GLOBAL.to_str(), "global");
    assert_eq!(wasmer_import_export_kind::WASM_MEMORY.to_str(), "memory");
    assert_eq!(wasmer_import_export_kind::WASM_TABLE.to_str(), "table");
}

#[test]
fn kind_codes() {
    assert_eq!(wasmer_import_export_kind::try_from(0), Ok(wasmer_import_export_kind::WASM_FUNCTION));
    assert_eq!(wasmer_import_export_kind::try_from(2), Ok(wasmer_import_export_kind::WASM_MEMORY));
    assert_eq!(wasmer_import_export_kind::try_from(3), Ok(wasmer_import_export_kind::WASM_TABLE));
    assert_eq!(wasmer_import_export_kind::try_from(4), Err(()));
}

#[test]
fn export_descriptors() {
    let ds = NamedExportDescriptors::new(vec![
        NamedExportDescriptor::new("sum".to_string(), wasmer_import_export_kind::WASM_FUNCTION),
        NamedExportDescriptor::new("mem".to_string(), wasmer_import_export_kind::WASM_MEMORY),
    ]);
    assert_eq!(ds.len(), 2);
    assert_eq!(ds.get(1).unwrap().name(), "mem");
    assert_eq!(ds.get(0).unwrap().kind(), wasmer_import_export_kind::WASM_FUNCTION);
    assert!(ds.get(2).is_none());
}

#[test]
fn limits() {
    let l = wasmer_limits_t { min: 1, max: wasmer_limit_option_t { has_some: true, some: 4 } };
    assert_eq!(l.max.some, 4);
    assert!(l.max.has_some);
}
