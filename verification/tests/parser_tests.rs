use tsx_props::{Component, Key, NamedProps, ObjectType, Props, TSXContent, Type};

#[test]
fn test_to_and_type() {
    let content = r#"
import React from "react";
import { InputField, InputFieldProps } from "./InputField";
import { styled } from "styled-components";

export type InputFieldWithButtonProps = {
  button: React.ReactNode;
} & InputFieldProps;

export const InputFieldWithButton = (props: InputFieldWithButtonProps) => {
  return (
    <Container>
      <InputField {...props} />
      {props.button}
    </Container>
  );
};

const Container = styled.div`
  display: flex;
  flex-direction: row;
  position: relative;
`;
"#;
    let content = TSXContent(content.to_string());
    let component = content.to_component().unwrap();
    let mut props = ObjectType::new();
    props.insert(
        Key("button".to_string()),
        Type::Alias("React.ReactNode".to_string()),
    );
    let expect = Component::new(
        "InputFieldWithButton",
        Props::Named(NamedProps::new_intersection_type(
            "InputFieldWithButtonProps",
            vec![
                Type::Object(props),
                Type::Alias("InputFieldProps".to_string()),
            ],
        )),
    );
    assert_eq!(component.unwrap(), expect);
}

#[test]
fn test_to_union_generic() {
    let content = r#"
import * as React from "react";
import AddIcon from "@mui/icons-material/Add";
import { Fab } from "@mui/material";

export const DeleteConfirmModal = (props: {
  deleteHandler: () => Promise<void>;
  setOpen: React.Dispatch<React.SetStateAction<boolean>> | union;
  open: boolean;
}) => {
  return (
    <Fab color="primary" aria-label="add" size="small">
      <AddIcon sx={{}} onClick={props.handler}></AddIcon>
    </Fab>
  );
};
"#;
    let content = TSXContent(content.to_string());
    let component = content.to_component().unwrap();
    let mut props = ObjectType::new();
    props.insert(
        Key("deleteHandler".to_string()),
        Type::Alias("() => Promise<void>".to_string()),
    );
    props.insert(Key("open".to_string()), Type::Alias("boolean".to_string()));
    props.insert(
        Key("setOpen".to_string()),
        Type::Alias("React.Dispatch<React.SetStateAction<boolean>>|union".to_string()),
    );
    let expect = Component::new("DeleteConfirmModal", Props::Expand(props));
    assert_eq!(component.unwrap(), expect);
}

#[test]
fn test_to_func_generic() {
    let content = r#"
import * as React from "react";
import AddIcon from "@mui/icons-material/Add";
import { Fab } from "@mui/material";

export const DeleteConfirmModal = (props: {
  deleteHandler: () => Promise<void>;
  open: boolean;
  setOpen: React.Dispatch<React.SetStateAction<boolean>>;
}) => {
  return (
    <Fab color="primary" aria-label="add" size="small">
      <AddIcon sx={{}} onClick={props.handler}></AddIcon>
    </Fab>
  );
};
"#;
    let content = TSXContent(content.to_string());
    let component = content.to_component().unwrap();
    let mut props = ObjectType::new();
    props.insert(
        Key("deleteHandler".to_string()),
        Type::Alias("() => Promise<void>".to_string()),
    );
    props.insert(Key("open".to_string()), Type::Alias("boolean".to_string()));
    props.insert(
        Key("setOpen".to_string()),
        Type::Alias("React.Dispatch<React.SetStateAction<boolean>>".to_string()),
    );
    let expect = Component::new("DeleteConfirmModal", Props::Expand(props));
    assert_eq!(component.unwrap(), expect);
}

#[test]
fn test_to_component4() {
    let content = r#"
import * as React from "react";
import AddIcon from "@mui/icons-material/Add";
import { Fab } from "@mui/material";

export type ButtonProps = {
  generics: React<Hoge>
  noGenerics: React
};

export const RegisterButtons = (props: ButtonProps) => {
  return (
    <Fab color="primary" aria-label="add" size="small">
      <AddIcon sx={{}} onClick={props.handler}></AddIcon>
    </Fab>
  );
};
"#;
    let content = TSXContent(content.to_string());
    let component = content.to_component().unwrap();
    let mut props = ObjectType::new();
    props.insert(
        Key("generics".to_string()),
        Type::Alias("React<Hoge>".to_string()),
    );
    props.insert(
        Key("noGenerics".to_string()),
        Type::Alias("React".to_string()),
    );
    let expect = Component::new(
        "RegisterButtons",
        Props::Named(NamedProps::new_object_type("ButtonProps", props)),
    );
    assert_eq!(component.unwrap(), expect);
}

#[test]
fn test_to_component3() {
    let content = r#"
import * as React from "react";
import AddIcon from "@mui/icons-material/Add";
import { Fab } from "@mui/material";

type ButtonProps = {
  handler: () => void;
};

export const RegisterButtons = (props: ButtonProps) => {
  return (
    <Fab color="primary" aria-label="add" size="small">
      <AddIcon sx={{}} onClick={props.handler}></AddIcon>
    </Fab>
  );
};
"#;
    let content = TSXContent(content.to_string());
    let component = content.to_component().unwrap();
    let mut props = ObjectType::new();
    props.insert(
        Key("handler".to_string()),
        Type::Alias("() => void".to_string()),
    );
    let expect = Component::new(
        "RegisterButtons",
        Props::Named(NamedProps::new_object_type("ButtonProps", props)),
    );
    assert_eq!(component.unwrap(), expect);
}

#[test]
fn test_to_react_dot_fc() {
    let content = r#"
import React from "react";
import { AppFooter } from "./elements/Footer";

export type Props = {
  timeOut: number;
};

export const Footer:React.FC<Props> = (props) => {
  return <AppFooter></AppFooter>;
};
"#;
    let content = TSXContent(content.to_string());
    let component = content.to_component().unwrap();
    let mut obj = ObjectType::new();
    obj.insert(Key("timeOut".to_string()), Type::Alias("number".to_string()));
    let expect = Component::new(
        "Footer",
        Props::Named(NamedProps::new_object_type("Props", obj)),
    );
    assert_eq!(component.unwrap(), expect);
}

#[test]
fn test_to_component2() {
    let content = r#"
import React from "react";
import { AppFooter } from "./elements/Footer";

export const Footer = () => {
  return <AppFooter></AppFooter>;
};
"#;
    let content = TSXContent(content.to_string());
    let component = content.to_component().unwrap();
    let expect = Component::new("Footer", Props::Expand(ObjectType::new()));
    assert_eq!(component.unwrap(), expect);
}

#[test]
fn test_to_component() {
    let content = r#"
    type Props = {
      timeOut: number;
      errorMessage?: string;
      size: number;
    };
    export const ErrorAlert: FC<Props> = (props: Props) => {
      const { appError, setAppError } = useContext(AppErrorContext);
      useEffect(() => {
        if (appError !== undefined) {
          setTimeout(() => {
            setAppError(undefined);
          }, props.timeOut);
        }
      }, [appError, setAppError]);

      return (
        <>
          {appError !== undefined || props.errorMessage ? (
            <Alert severity="error">
              <AlertTitle>Error</AlertTitle>
              {props.errorMessage ?? appError.message}
            </Alert>
          ) : null}
        </>
      );
    };
    "#;
    let content = TSXContent(content.to_string());
    let component = content.to_component().unwrap();
    let mut props = ObjectType::new();
    props.insert(Key("timeOut".to_string()), Type::Alias("number".to_string()));
    props.insert(
        Key("errorMessage?".to_string()),
        Type::Alias("string".to_string()),
    );
    props.insert(Key("size".to_string()), Type::Alias("number".to_string()));
    let expect = Component::new(
        "ErrorAlert",
        Props::Named(NamedProps::new_object_type("Props", props)),
    );
    assert_eq!(component.unwrap(), expect);
}
