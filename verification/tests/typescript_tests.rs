use ui5_dts::model::{
    Constructor, FilePath, Kinds, Method, MultiParam, Parameter, ReturnValue, Symbol, Visibility,
};
use ui5_dts::typescript::{echoes_of_symbols, echoes_of_type, echoes_of_types};
use ui5_dts::typescript::{
    convert_ui5_type_to_ts_type, convert_ui5_types_to_ts_types, extract_type_def,
    extract_type_defs, param_to_ts, params_to_ts, return_val_to_ts, symbol_can_convert,
    symbols_can_convert, to_ts_function, type_panics, types_can_convert,
};

fn param(name: &str, ty: &str, optional: bool) -> Parameter {
    Parameter {
        name: name.to_string(),
        _type: ty.to_string(),
        optional,
        description: None,
        parameter_properties: None,
    }
}

fn method(name: &str, ret: Option<&str>, params: Option<Vec<Parameter>>, is_static: Option<bool>) -> Method {
    Method {
        name: name.to_string(),
        visibility: Visibility::Public,
        return_value: Some(ReturnValue { _type: ret.map(|t| t.to_string()) }),
        parameters: params,
        since: None,
        _static: is_static,
    }
}

fn symbol(kind: Kinds, basename: &str, module: &str) -> Symbol {
    Symbol {
        kind,
        name: basename.to_string(),
        basename: basename.to_string(),
        resource: String::new(),
        module: module.to_string(),
        export: None,
        _static: None,
        visibility: Visibility::Public,
        properties: None,
        methods: None,
        extends: None,
        ui_5_metamodel: None,
        ui_5_metadata: None,
        constructor: None,
        since: None,
        events: None,
        implements: None,
        _abstract: None,
        deprecated: None,
        experimental: None,
        references: None,
        _final: None,
    }
}

fn button() -> Symbol {
    let mut s = symbol(Kinds::Class, "Button", "sap/m/Button");
    s.constructor = Some(Constructor {
        visibility: Visibility::Public,
        parameters: Some(MultiParam::Multi(vec![
            param("sId", "string", true),
            param("mSettings", "object", true),
        ])),
        description: None,
    });
    s.methods = Some(vec![
        method("getText", Some("string"), Some(vec![]), None),
        method("getMetadata", Some("sap.ui.base.Metadata"), None, Some(true)),
        method("setText", Some("sap.m.Button"), Some(vec![param("sText", "string", false)]), Some(false)),
    ]);
    s
}

#[test]
fn visibility_maps_to_public_or_private() {
    assert_eq!(Visibility::Public.to_ts_visibility(), "public");
    assert_eq!(Visibility::Private.to_ts_visibility(), "private");
    assert_eq!(Visibility::Protected.to_ts_visibility(), "private");
    assert_eq!(Visibility::Hidden.to_ts_visibility(), "private");
    assert_eq!(Visibility::Restricted.to_ts_visibility(), "private");
}

#[test]
fn full_path_joins_with_slash() {
    let p = FilePath { path: "sap/m".to_string(), file_name: "Button.d.ts".to_string() };
    assert_eq!(p.full_path(), "sap/m/Button.d.ts");
    let q = FilePath { path: String::new(), file_name: "x".to_string() };
    assert_eq!(q.full_path(), "/x");
}

#[test]
fn get_name_takes_last_segment() {
    assert_eq!(symbol(Kinds::Class, "sap/m/Button", "m").get_name(), "Button");
    assert_eq!(symbol(Kinds::Class, "Button", "m").get_name(), "Button");
    assert_eq!(symbol(Kinds::Class, "a/b/", "m").get_name(), "");
    assert_eq!(symbol(Kinds::Class, "", "m").get_name(), "");
}

#[test]
fn multi_param_to_vec() {
    let one = MultiParam::Param(param("a", "string", false));
    let v = one.to_vec();
    assert_eq!(v.len(), 1);
    assert_eq!(v[0].name, "a");
    let many = MultiParam::Multi(vec![param("a", "int", false), param("b", "string", true)]);
    let w = many.to_vec();
    assert_eq!(w.len(), 2);
    assert_eq!(w[0].name, "a");
    assert_eq!(w[1].name, "b");
    assert!(w[1].optional);
    assert_eq!(w[1]._type, "string");
    let none = MultiParam::Multi(vec![]);
    assert!(none.to_vec().is_empty());
}

#[test]
fn sap_types_become_self_or_any() {
    assert_eq!(convert_ui5_type_to_ts_type("sap.m.Button", "Button"), "Button");
    assert_eq!(convert_ui5_type_to_ts_type("sap.m.Button", "Label"), "any");
    assert_eq!(convert_ui5_type_to_ts_type("  sap.m.Button\t", "Button"), "Button");
    assert_eq!(convert_ui5_type_to_ts_type("sap", "sap"), "sap");
}

#[test]
fn promise_types() {
    assert_eq!(
        convert_ui5_type_to_ts_type("Promise.<module:sap/base/i18n/ResourceBundle>", "ResourceBundle"),
        "Promise<ResourceBundle>"
    );
    assert_eq!(
        convert_ui5_type_to_ts_type("Promise.<module:sap/base/i18n/ResourceBundle>", "X"),
        "Promise<any>"
    );
    // the text handed on starts at `<`, so a `sap.` type inside is a dotted name
    assert_eq!(convert_ui5_type_to_ts_type("Promise.<sap.m.Button>", "Button"), "Promise<any>");
    assert_eq!(convert_ui5_type_to_ts_type("Promise.<string>", "X"), "Promise<<string>");
    assert_eq!(convert_ui5_type_to_ts_type("Promise.string", "X"), "Promise<any>");
    assert_eq!(convert_ui5_type_to_ts_type("Promise.<string", "X"), "Promise<any>");
    assert_eq!(convert_ui5_type_to_ts_type("Promise", "X"), "Promise<any>");
    assert_eq!(convert_ui5_type_to_ts_type(" Promise ", "X"), "Promise<any>");
}

#[test]
fn module_and_jquery_types() {
    assert_eq!(convert_ui5_type_to_ts_type("module:sap/ui/core/Control", "Control"), "Control");
    assert_eq!(convert_ui5_type_to_ts_type("module:sap/ui/core/Control", "X"), "any");
    assert_eq!(convert_ui5_type_to_ts_type("jQuery", "jQuery"), "jQuery");
    assert_eq!(convert_ui5_type_to_ts_type("jQuery", "X"), "any");
    assert_eq!(convert_ui5_type_to_ts_type("jQuery.Event", "X"), "any");
}

#[test]
fn plain_types() {
    assert_eq!(convert_ui5_type_to_ts_type("Object.<string,any>", "X"), "any");
    assert_eq!(convert_ui5_type_to_ts_type("function", "X"), "Function");
    assert_eq!(convert_ui5_type_to_ts_type("function()", "X"), "Function");
    assert_eq!(convert_ui5_type_to_ts_type("string", "X"), "string");
    assert_eq!(convert_ui5_type_to_ts_type(" string ", "X"), " string ");
    assert_eq!(convert_ui5_type_to_ts_type("", "X"), "");
    assert_eq!(convert_ui5_type_to_ts_type("\u{3000}function\u{a0}", "X"), "Function");
}

#[test]
fn union_types() {
    assert_eq!(
        convert_ui5_types_to_ts_types("string|sap.m.Button|function", "Button"),
        "string|Button|Function"
    );
    assert_eq!(convert_ui5_types_to_ts_types("Promise.<string|int>", "X"), "Promise<any>|int>");
    assert_eq!(convert_ui5_types_to_ts_types("a||b", "X"), "a||b");
    assert_eq!(convert_ui5_types_to_ts_types("", "X"), "");
    assert_eq!(convert_ui5_types_to_ts_types("sap.m.Input", "Input"), convert_ui5_type_to_ts_type("sap.m.Input", "Input"));
}

#[test]
fn panicking_input_is_detected() {
    assert!(type_panics("Promise.>x<"));
    assert!(type_panics("  Promise.>x<"));
    assert!(!type_panics("Promise.<x>"));
    assert!(!type_panics("sap.Promise.>x<"));
    assert!(!type_panics(">x<"));
    assert!(!types_can_convert("string|Promise.>x<"));
    assert!(types_can_convert("string|Promise.<x>"));
}

#[test]
fn return_values() {
    assert_eq!(return_val_to_ts(&None, "X"), "void");
    assert_eq!(return_val_to_ts(&Some(ReturnValue { _type: None }), "X"), "void");
    assert_eq!(
        return_val_to_ts(&Some(ReturnValue { _type: Some("sap.m.Button".to_string()) }), "Button"),
        "Button"
    );
    assert_eq!(
        return_val_to_ts(&Some(ReturnValue { _type: Some("int|function".to_string()) }), "X"),
        "int|Function"
    );
}

#[test]
fn parameters() {
    assert_eq!(param_to_ts(&param("oControl", "sap.ui.core.Control", true)), "oControl?:any");
    assert_eq!(param_to_ts(&param("sText", "string", false)), "sText:string");
    // parameters are translated with the class name `DUMMY`
    assert_eq!(param_to_ts(&param("o", "sap.x.DUMMY", false)), "o:DUMMY");
    assert_eq!(params_to_ts(&None), "");
    assert_eq!(params_to_ts(&Some(vec![])), "");
    assert_eq!(
        params_to_ts(&Some(vec![param("a", "string", false), param("b", "int", true)])),
        "a:string, b?:int"
    );
}

#[test]
fn function_signatures() {
    assert_eq!(
        to_ts_function(&Visibility::Public, "getText", &Some(vec![]), Some("string".to_string()), false),
        "    public getText(): string"
    );
    assert_eq!(
        to_ts_function(&Visibility::Protected, "getText", &None, Some("string".to_string()), true),
        "    private static getText(): string"
    );
    assert_eq!(
        to_ts_function(&Visibility::Public, "constructor", &Some(vec![param("a", "int", true)]), None, false),
        "    public constructor(a?:int)"
    );
}

#[test]
fn class_declaration_file() {
    let (path, text) = extract_type_def(&button());
    assert_eq!(path.path, "sap/m");
    assert_eq!(path.file_name, "Button.d.ts");
    assert_eq!(
        text,
        "export default Button;\n\
         declare class Button {\n    \
         public constructor(sId?:string, mSettings?:object)\n    \
         public getText(): string\n    \
         public static getMetadata(): any\n    \
         public setText(sText:string): Button\n\
         }"
    );
}

#[test]
fn class_without_members() {
    let mut s = symbol(Kinds::Class, "sap/ui/core/Element", "sap/ui/core/Element");
    s.constructor = Some(Constructor {
        visibility: Visibility::Hidden,
        parameters: Some(MultiParam::Param(param("x", "int", false))),
        description: None,
    });
    let (path, text) = extract_type_def(&s);
    assert_eq!(path.full_path(), "sap/ui/core/Element.d.ts");
    assert_eq!(
        text,
        "export default Element;\ndeclare class Element {\n    private constructor(x:int)\n}"
    );
}

#[test]
fn non_class_declaration_is_empty() {
    let (path, text) = extract_type_def(&symbol(Kinds::Enum, "sap.m.ButtonType", "sap/m/library"));
    assert_eq!(path.path, "sap/m");
    assert_eq!(path.file_name, "library.d.ts");
    assert_eq!(text, "");
}

#[test]
fn module_without_slash() {
    let (path, _) = extract_type_def(&symbol(Kinds::Class, "Foo", "Foo"));
    assert_eq!(path.path, "");
    assert_eq!(path.file_name, "Foo.d.ts");
    assert_eq!(path.full_path(), "/Foo.d.ts");
}

#[test]
fn only_sap_classes_are_extracted() {
    let syms = vec![
        button(),
        symbol(Kinds::Class, "Foo", "jquery/Foo"),
        symbol(Kinds::Enum, "Bar", "sap/m/Bar"),
        symbol(Kinds::Class, "Baz", "sapx/Baz"),
        symbol(Kinds::Interface, "Qux", "sap/m/Qux"),
        symbol(Kinds::Class, "Top", "Top"),
    ];
    let defs = extract_type_defs(&syms);
    assert_eq!(defs.len(), 2);
    assert_eq!(defs[0].0.full_path(), "sap/m/Button.d.ts");
    assert_eq!(defs[1].0.full_path(), "sapx/Baz.d.ts");
    assert_eq!(defs[1].1, "export default Baz;\ndeclare class Baz {\n}");
    for d in &defs {
        assert!(d.0.path.starts_with("sap"));
    }
    assert!(extract_type_defs(&[]).is_empty());
}

#[test]
fn full_path_restores_module() {
    for m in ["sap/m/Button", "sap/ui/core/mvc/View", "a/", "/x"] {
        let (path, _) = extract_type_def(&symbol(Kinds::Class, "N", m));
        assert_eq!(path.full_path(), format!("{}.d.ts", m));
    }
}

#[test]
fn convertibility_of_symbols() {
    assert!(symbol_can_convert(&button()));
    let mut bad = button();
    bad.methods = Some(vec![method("load", Some("Promise.>x<"), None, None)]);
    assert!(!symbol_can_convert(&bad));
    let mut bad_enum = symbol(Kinds::Enum, "E", "sap/E");
    bad_enum.methods = Some(vec![method("load", Some("Promise.>x<"), None, None)]);
    assert!(symbol_can_convert(&bad_enum));
    let mut bad_ctor = button();
    bad_ctor.constructor = Some(Constructor {
        visibility: Visibility::Public,
        parameters: Some(MultiParam::Param(param("p", "Promise.>x<", false))),
        description: None,
    });
    assert!(!symbol_can_convert(&bad_ctor));
    assert!(!symbols_can_convert(&[button(), bad]));
    assert!(symbols_can_convert(&[button(), bad_enum]));
}

#[test]
fn alternatives_are_translated_one_for_one() {
    let input = "string|sap.m.Button|Promise.<x>|jQuery";
    let out = convert_ui5_types_to_ts_types(input, "Button");
    let ins: Vec<&str> = input.split('|').collect();
    let outs: Vec<&str> = out.split('|').collect();
    assert_eq!(ins.len(), outs.len());
    for (i, o) in ins.iter().zip(outs.iter()) {
        assert_eq!(convert_ui5_type_to_ts_type(i, "Button"), *o);
    }
    assert_eq!(out, "string|Button|Promise<<x>|any");
}

#[test]
fn promise_types_are_echoed_in_translation_order() {
    assert_eq!(echoes_of_type("string"), Vec::<String>::new());
    assert_eq!(echoes_of_type("sap.Promise.x"), Vec::<String>::new());
    assert_eq!(echoes_of_type(" Promise.<x> "), vec![" Promise.<x> "]);
    assert_eq!(echoes_of_type("Promise.<Promise.x>"), vec!["Promise.<Promise.x>"]);
    assert_eq!(echoes_of_types("Promise.<a|Promise.b>|Promise.c"), vec!["Promise.<a", "Promise.b>", "Promise.c"]);
    assert_eq!(echoes_of_types("Promise.>x<"), vec!["Promise.>x<"]);

    let mut s = button();
    s.constructor = Some(Constructor {
        visibility: Visibility::Public,
        parameters: Some(MultiParam::Param(param("p", "Promise.<c>", false))),
        description: None,
    });
    s.methods = Some(vec![
        method("m", Some("Promise.<r>"), Some(vec![param("q", "int|Promise.<q>", false)]), None),
        method("n", Some("string"), None, None),
    ]);
    let mut e = symbol(Kinds::Enum, "E", "sap/E");
    e.methods = Some(vec![method("z", Some("Promise.<z>"), None, None)]);
    let mut other = symbol(Kinds::Class, "O", "jquery/O");
    other.methods = Some(vec![method("o", Some("Promise.<o>"), None, None)]);
    assert_eq!(
        echoes_of_symbols(&[s, e, other]),
        vec!["Promise.<c>", "Promise.<r>", "Promise.<q>", "Promise.<o>"]
    );
}

#[test]
fn translating_twice_changes_nothing() {
    for t in [
        "string", "sap.m.Button", "sap.m.Input", "Promise.<module:sap/x/Button>", "Promise.<x|y>",
        "module:sap/ui/Control", "jQuery", "a.b", "function", "function()", "Promise", " int ",
        "Promise.<sap.x|function>", "Promise.nothing",
    ] {
        let once = convert_ui5_types_to_ts_types(t, "Button");
        let twice = convert_ui5_types_to_ts_types(&once, "Button");
        assert_eq!(once, twice, "{}", t);
        let one = convert_ui5_type_to_ts_type(t, "Button");
        assert_eq!(convert_ui5_type_to_ts_type(&one, "Button"), one, "{}", t);
    }
}
