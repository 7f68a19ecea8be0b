use tsx_props::{
    Component, ComponentPartsParser, Key, NamedProps, ObjectType, Props, TSXContent,
    TSXTokenType, Type,
};

#[test]
fn test_alias_with_optional_field_resolved() {
    let content = TSXContent(
        "type X = { a: number; b?: string }\nexport const Y: FC<X> = (props: X) => null;"
            .to_string(),
    );
    let component = content.to_component().unwrap().unwrap();
    let mut obj = ObjectType::new();
    obj.insert(Key("a".to_string()), Type::Alias("number".to_string()));
    obj.insert(Key("b?".to_string()), Type::Alias("string".to_string()));
    let expect = Component::new("Y", Props::Named(NamedProps::new("X", obj)));
    assert_eq!(component, expect);
    assert_eq!(component.props_name(), Some("X"));
    assert_eq!(component.expand_str(), "{ a: number,b?: string, }");
}

#[test]
fn test_no_export_yields_none() {
    let content = TSXContent("type X = { a: number };\nconst x = 5;".to_string());
    assert_eq!(content.to_component().unwrap(), None);
    let empty = TSXContent(String::new());
    assert_eq!(empty.to_component().unwrap(), None);
}

#[test]
fn test_propless_arrow_component() {
    let content = TSXContent("export const Footer = () => <div/>".to_string());
    let component = content.to_component().unwrap().unwrap();
    let expect = Component::new("Footer", Props::Expand(ObjectType::new()));
    assert_eq!(component, expect);
    // the rendered sample of the empty props object is the empty-object literal
    assert_eq!(component.fill_sample(), "{  }");
    assert_eq!(component.props_str(), "{  }");
}

#[test]
fn test_nested_generic_depth_tracking() {
    let content = TSXContent(
        "export const C = (props: { setOpen: Dispatch<SetStateAction<boolean>>; }) => null;"
            .to_string(),
    );
    let component = content.to_component().unwrap().unwrap();
    let mut obj = ObjectType::new();
    obj.insert(
        Key("setOpen".to_string()),
        Type::Alias("Dispatch<SetStateAction<boolean>>".to_string()),
    );
    let expect = Component::new("C", Props::Expand(obj));
    assert_eq!(component, expect);
    // the annotation text is reproduced exactly, across the merged `>>`
    assert_eq!(
        component.expand_str(),
        "{ setOpen: Dispatch<SetStateAction<boolean>>, }"
    );
}

#[test]
fn test_rendering_idempotent() {
    let content = TSXContent(
        "type P = { a: number; b: (x) => void }\nexport const C: FC<P> = (props: P) => null;"
            .to_string(),
    );
    let component = content.to_component().unwrap().unwrap();
    let a1 = component.expand_str();
    let a2 = component.expand_str();
    assert_eq!(a1, a2);
    let s1 = component.fill_sample();
    let s2 = component.fill_sample();
    assert_eq!(s1, s2);
}

#[test]
fn test_union_field_concatenated() {
    let content = TSXContent(
        "export const C = (props: { setOpen: Dispatch<SetStateAction<boolean>> | OtherType; }) => null;"
            .to_string(),
    );
    let component = content.to_component().unwrap().unwrap();
    let mut obj = ObjectType::new();
    obj.insert(
        Key("setOpen".to_string()),
        Type::Alias("Dispatch<SetStateAction<boolean>>|OtherType".to_string()),
    );
    let expect = Component::new("C", Props::Expand(obj));
    assert_eq!(component, expect);
}

#[test]
fn test_alias_claimed_once() {
    // the first component consumes the alias; a second component naming the
    // same alias falls back to the empty-shaped stub
    let content = TSXContent(
        "type X = { a: number };\nexport const A = (props: X) => null;\nexport const B = (props: X) => null;"
            .to_string(),
    );
    let mut parser = ComponentPartsParser::new(&content);
    let first = parser.search_component().unwrap().unwrap();
    let mut obj = ObjectType::new();
    obj.insert(Key("a".to_string()), Type::Alias("number".to_string()));
    assert_eq!(
        first,
        Component::new("A", Props::Named(NamedProps::new("X", obj)))
    );
    let second = parser.search_component().unwrap().unwrap();
    assert_eq!(
        second,
        Component::new("B", Props::Named(NamedProps::new("X", ObjectType::new())))
    );
}

#[test]
fn test_error_missing_type_name() {
    let content = TSXContent("type = 5".to_string());
    let err = content.to_component().unwrap_err();
    assert_eq!(err.expected, Some(TSXTokenType::Ident));
    assert_eq!(err.found.token_type, TSXTokenType::Assign);
}

#[test]
fn test_error_missing_assign() {
    let content = TSXContent("type X { a: number }".to_string());
    let err = content.to_component().unwrap_err();
    assert_eq!(err.expected, Some(TSXTokenType::Assign));
    assert_eq!(err.found.token_type, TSXTokenType::LCurlyBracket);
}

#[test]
fn test_error_missing_colon_in_props() {
    let content = TSXContent("export const X = (a, b) => a".to_string());
    let err = content.to_component().unwrap_err();
    assert_eq!(err.expected, Some(TSXTokenType::Colon));
    assert_eq!(err.found.token_type, TSXTokenType::Comma);
}

#[test]
fn test_error_missing_arrow_in_function_type() {
    let content = TSXContent("type X = { f: (a) 5 }".to_string());
    let err = content.to_component().unwrap_err();
    assert_eq!(err.expected, Some(TSXTokenType::Arrow));
    assert_eq!(err.found.token_type, TSXTokenType::NumberLiteral);
}

#[test]
fn test_error_unclosed_parameter_list() {
    let content = TSXContent("type X = { f: (a".to_string());
    let err = content.to_component().unwrap_err();
    assert_eq!(err.expected, Some(TSXTokenType::RParentheses));
    assert_eq!(err.found.token_type, TSXTokenType::Eof);
}

#[test]
fn test_error_function_without_parameter_list() {
    let content = TSXContent("export function F x".to_string());
    let err = content.to_component().unwrap_err();
    assert_eq!(err.expected, Some(TSXTokenType::LParentheses));
    assert_eq!(err.found.token_type, TSXTokenType::Ident);
}

#[test]
fn test_error_unexpected_type_value() {
    let content = TSXContent("type X = { a: , }".to_string());
    let err = content.to_component().unwrap_err();
    assert_eq!(err.expected, None);
    assert_eq!(err.found.token_type, TSXTokenType::Comma);
}

#[test]
fn test_export_function_component() {
    let content = TSXContent("export function Card(props: { title: string; }) { return null; }".to_string());
    let component = content.to_component().unwrap().unwrap();
    let mut obj = ObjectType::new();
    obj.insert(Key("title".to_string()), Type::Alias("string".to_string()));
    let expect = Component::new("Card", Props::Expand(obj));
    assert_eq!(component, expect);
}

#[test]
fn test_non_component_export_is_skipped() {
    // a bare const export is not a component: the scan goes on and finds
    // the later arrow component
    let content = TSXContent(
        "export const version = 3;\nexport const App = () => null;".to_string(),
    );
    let component = content.to_component().unwrap().unwrap();
    assert_eq!(component, Component::new("App", Props::Expand(ObjectType::new())));
}

#[test]
fn test_unknown_alias_gives_stub() {
    let content = TSXContent("export const A = (props: Imported) => null;".to_string());
    let component = content.to_component().unwrap().unwrap();
    assert_eq!(
        component,
        Component::new("A", Props::Named(NamedProps::new("Imported", ObjectType::new())))
    );
    assert_eq!(component.props_name(), Some("Imported"));
    assert_eq!(component.expand_str(), "{  }");
    assert_eq!(component.fill_sample(), "{  }");
}
