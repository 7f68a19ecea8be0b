use tsx_props::{Key, ObjectType, PrimitiveType, Type};

#[test]
fn test_expand_str() {
    let mut props = ObjectType::new();
    props.insert(
        Key("timeOut".to_string()),
        Type::Primitive(PrimitiveType::Number),
    );
    props.insert(
        Key("errorMessage".to_string()),
        Type::Primitive(PrimitiveType::String),
    );
    assert!(props.to_str() == "{ errorMessage: string,timeOut: number, }");
}

#[test]
fn test_insert_replaces_same_key() {
    let mut props = ObjectType::new();
    props.insert(Key("a".to_string()), Type::Primitive(PrimitiveType::Number));
    props.insert(Key("a".to_string()), Type::Primitive(PrimitiveType::String));
    assert_eq!(props.to_str(), "{ a: string, }");
}

#[test]
fn test_primitive_renderings() {
    assert_eq!(Type::Primitive(PrimitiveType::Number).to_str(), "number");
    assert_eq!(Type::Primitive(PrimitiveType::String).to_str(), "string");
    assert_eq!(Type::Primitive(PrimitiveType::Boolean).to_str(), "boolean");
    assert_eq!(Type::Primitive(PrimitiveType::Number).sample(), "0");
    assert_eq!(Type::Primitive(PrimitiveType::String).sample(), "\"\"");
    assert_eq!(Type::Primitive(PrimitiveType::Boolean).sample(), "false");
}

#[test]
fn test_structured_renderings() {
    let arr = Type::Array(Box::new(Type::Primitive(PrimitiveType::Number)));
    assert_eq!(arr.to_str(), "number[]");
    assert_eq!(arr.sample(), "[0]");

    let union = Type::Union(vec![
        Type::Primitive(PrimitiveType::Number),
        Type::Primitive(PrimitiveType::String),
    ]);
    assert_eq!(union.to_str(), "number | string");
    // the sample of a union is the sample of its first branch
    assert_eq!(union.sample(), "0");

    let inter = Type::Intersection(vec![
        Type::Primitive(PrimitiveType::Boolean),
        Type::Alias("Other".to_string()),
    ]);
    assert_eq!(inter.to_str(), "boolean & Other");
    assert_eq!(inter.sample(), "false");

    // an opaque alias cannot be synthesized: it samples as null
    assert_eq!(Type::Alias("Other".to_string()).sample(), "null");
    assert_eq!(Type::Literal("'on'".to_string()).to_str(), "'on'");
    assert_eq!(Type::Literal("'on'".to_string()).sample(), "'on'");
}

#[test]
fn test_rendering_deterministic_and_sorted() {
    let mut props = ObjectType::new();
    props.insert(Key("zeta".to_string()), Type::Primitive(PrimitiveType::Number));
    props.insert(Key("alpha".to_string()), Type::Primitive(PrimitiveType::String));
    props.insert(Key("mid".to_string()), Type::Primitive(PrimitiveType::Boolean));
    let once = props.to_str();
    let twice = props.to_str();
    assert_eq!(once, twice);
    assert_eq!(once, "{ alpha: string,mid: boolean,zeta: number, }");
    let s_once = props.fill_sample();
    let s_twice = props.fill_sample();
    assert_eq!(s_once, s_twice);
    assert_eq!(s_once, "{ alpha: \"\",mid: false,zeta: 0, }");
}
