use tsx_props::{
    is_stories, is_tsx, Component, Key, NamedProps, ObjectType, PrimitiveType, Props,
    StoryBookContent, Type,
};

#[test]
fn test_make_storybook_content() {
    let mut props = ObjectType::new();
    props.insert(
        Key("timeOut".to_string()),
        Type::Primitive(PrimitiveType::Number),
    );
    props.insert(
        Key("errorMessage".to_string()),
        Type::Primitive(PrimitiveType::String),
    );

    let props = NamedProps::new("Props", props);
    let component = Component::new("ErrorAlert", Props::Named(props));

    let storybook_content = StoryBookContent::new("Sample/ErrorAlert", component);
    assert_eq!(
        storybook_content.to_file_content(),
        r#"import React from "react";
import { StoryFn } from "@storybook/react";
import { ErrorAlert } from "./ErrorAlert";

export default {
    title: "Sample/ErrorAlert",
    component: ErrorAlert,
};

const Template: StoryFn<Props> = (args) => (
  <ErrorAlert {...args} />
);

export const Primary = Template.bind({});

Primary.args = { errorMessage: "",timeOut: 0, };
"#
    );
}

#[test]
fn test_is_stories() {
    let dir_name = "test_all_file_path";
    assert!(is_stories("test.stories.tsx"));
    assert!(is_stories(&format!("{dir_name}/test.stories.tsx")));
    assert!(!is_stories("test.ts"));
    assert!(!is_stories("test.rs"));
    assert!(!is_stories("test.tsx"));
}

#[test]
fn test_is_tsx() {
    let dir_name = "test_all_file_path2";
    assert!(is_tsx("test.tsx"));
    assert!(is_tsx(&format!("{dir_name}/test.tsx")));
    assert!(!is_tsx("test.ts"));
    assert!(!is_tsx("test.rs"));
    assert!(!is_tsx("test.stories.tsx"));
}
