use ui5_dts::driver::{endpoint_url, mentions_resource_model};
use ui5_dts::model::{Kinds, Symbol, Visibility};

fn symbol(basename: &str) -> Symbol {
    Symbol {
        kind: Kinds::Class,
        name: basename.to_string(),
        basename: basename.to_string(),
        resource: String::new(),
        module: String::new(),
        export: None,
        _static: None,
        visibility: Visibility::Public,
        properties: None,
        methods: None,
        extends: None,
        ui_5_metamodel: None,
        ui_5_metadata: None,
        constructor: None,
        since: None,
        events: None,
        implements: None,
        _abstract: None,
        deprecated: None,
        experimental: None,
        references: None,
        _final: None,
    }
}

#[test]
fn endpoint_url_trims_the_endpoint() {
    assert_eq!(
        endpoint_url("https://sapui5.hana.ondemand.com/test-resources/", "\n      sap/ui/core/designtime/api.json"),
        "https://sapui5.hana.ondemand.com/test-resources/sap/ui/core/designtime/api.json"
    );
    assert_eq!(endpoint_url("r/", "  x  "), "r/x");
    assert_eq!(endpoint_url(" r ", ""), " r ");
}

#[test]
fn resource_model_symbols_are_echoed() {
    assert!(mentions_resource_model(&symbol("ResourceModel")));
    assert!(mentions_resource_model(&symbol("sap/ui/model/resource/ResourceModel")));
    assert!(!mentions_resource_model(&symbol("ResourceBundle")));
    assert!(!mentions_resource_model(&symbol("")));
}
