use tsx_props::{Lexer, TSXToken, TSXTokenType};

#[test]
fn test_lexer() {
    let content = r#"
import { Alert, AlertTitle } from "@mui/material";

type Props = {
  timeOut: number;
  errorMessage?: string;
  size: number;
};
export const ErrorAlert: FC<Props> = (props: Props) => {}
"#;
    let mut lexer = Lexer::new(content);
    assert_eq!(
        lexer.next_token(),
        TSXToken::new(TSXTokenType::Import, "import")
    );
    assert_eq!(
        lexer.next_token(),
        TSXToken::new(TSXTokenType::LCurlyBracket, "{")
    );
    assert_eq!(
        lexer.next_token(),
        TSXToken::new(TSXTokenType::Ident, "Alert")
    );
    assert_eq!(lexer.next_token(), TSXToken::new(TSXTokenType::Comma, ","));
    assert_eq!(
        lexer.next_token(),
        TSXToken::new(TSXTokenType::Ident, "AlertTitle")
    );
    assert_eq!(
        lexer.next_token(),
        TSXToken::new(TSXTokenType::RCurlyBracket, "}")
    );
    assert_eq!(lexer.next_token(), TSXToken::new(TSXTokenType::From, "from"));
    assert_eq!(
        lexer.next_token(),
        TSXToken::new(TSXTokenType::StringLiteral, "@mui/material")
    );
    assert_eq!(
        lexer.next_token(),
        TSXToken::new(TSXTokenType::Semicolon, ";")
    );
    assert_eq!(lexer.next_token(), TSXToken::new(TSXTokenType::Type, "type"));
    assert_eq!(
        lexer.next_token(),
        TSXToken::new(TSXTokenType::Ident, "Props")
    );
    assert_eq!(lexer.next_token(), TSXToken::new(TSXTokenType::Assign, "="));
    assert_eq!(
        lexer.next_token(),
        TSXToken::new(TSXTokenType::LCurlyBracket, "{")
    );
    assert_eq!(
        lexer.next_token(),
        TSXToken::new(TSXTokenType::Ident, "timeOut")
    );
    assert_eq!(lexer.next_token(), TSXToken::new(TSXTokenType::Colon, ":"));
    assert_eq!(
        lexer.next_token(),
        TSXToken::new(TSXTokenType::Ident, "number")
    );
    assert_eq!(
        lexer.next_token(),
        TSXToken::new(TSXTokenType::Semicolon, ";")
    );
    assert_eq!(
        lexer.next_token(),
        TSXToken::new(TSXTokenType::Ident, "errorMessage")
    );
    assert_eq!(
        lexer.next_token(),
        TSXToken::new(TSXTokenType::Question, "?")
    );
    assert_eq!(lexer.next_token(), TSXToken::new(TSXTokenType::Colon, ":"));
    assert_eq!(
        lexer.next_token(),
        TSXToken::new(TSXTokenType::Ident, "string")
    );
    assert_eq!(
        lexer.next_token(),
        TSXToken::new(TSXTokenType::Semicolon, ";")
    );
    assert_eq!(lexer.next_token(), TSXToken::new(TSXTokenType::Ident, "size"));
    assert_eq!(lexer.next_token(), TSXToken::new(TSXTokenType::Colon, ":"));
    assert_eq!(
        lexer.next_token(),
        TSXToken::new(TSXTokenType::Ident, "number")
    );
    assert_eq!(
        lexer.next_token(),
        TSXToken::new(TSXTokenType::Semicolon, ";")
    );
    assert_eq!(
        lexer.next_token(),
        TSXToken::new(TSXTokenType::RCurlyBracket, "}")
    );
    assert_eq!(
        lexer.next_token(),
        TSXToken::new(TSXTokenType::Semicolon, ";")
    );
    assert_eq!(
        lexer.next_token(),
        TSXToken::new(TSXTokenType::Export, "export")
    );
    assert_eq!(
        lexer.next_token(),
        TSXToken::new(TSXTokenType::Const, "const")
    );
    assert_eq!(
        lexer.next_token(),
        TSXToken::new(TSXTokenType::Ident, "ErrorAlert")
    );
    assert_eq!(lexer.next_token(), TSXToken::new(TSXTokenType::Colon, ":"));
    assert_eq!(lexer.next_token(), TSXToken::new(TSXTokenType::Ident, "FC"));
    assert_eq!(lexer.next_token(), TSXToken::new(TSXTokenType::LTag, "<"));
    assert_eq!(
        lexer.next_token(),
        TSXToken::new(TSXTokenType::Ident, "Props")
    );
    assert_eq!(lexer.next_token(), TSXToken::new(TSXTokenType::RTag, ">"));
    assert_eq!(lexer.next_token(), TSXToken::new(TSXTokenType::Assign, "="));
    assert_eq!(
        lexer.next_token(),
        TSXToken::new(TSXTokenType::LParentheses, "(")
    );
    assert_eq!(
        lexer.next_token(),
        TSXToken::new(TSXTokenType::Ident, "props")
    );
    assert_eq!(lexer.next_token(), TSXToken::new(TSXTokenType::Colon, ":"));
    assert_eq!(
        lexer.next_token(),
        TSXToken::new(TSXTokenType::Ident, "Props")
    );
    assert_eq!(
        lexer.next_token(),
        TSXToken::new(TSXTokenType::RParentheses, ")")
    );
    assert_eq!(lexer.next_token(), TSXToken::new(TSXTokenType::Arrow, "=>"));
    assert_eq!(
        lexer.next_token(),
        TSXToken::new(TSXTokenType::LCurlyBracket, "{")
    );
    assert_eq!(
        lexer.next_token(),
        TSXToken::new(TSXTokenType::RCurlyBracket, "}")
    );
    assert_eq!(lexer.next_token(), TSXToken::new(TSXTokenType::Eof, ""));
}

#[test]
fn test_lexer_multichar_operators() {
    let mut lexer = Lexer::new("== => <= >= </ /> ++ -- += -= *= /= ?? != ||");
    assert_eq!(lexer.next_token(), TSXToken::new(TSXTokenType::Eq, "=="));
    assert_eq!(lexer.next_token(), TSXToken::new(TSXTokenType::Arrow, "=>"));
    assert_eq!(lexer.next_token(), TSXToken::new(TSXTokenType::LtEq, "<="));
    assert_eq!(lexer.next_token(), TSXToken::new(TSXTokenType::GtEq, ">="));
    assert_eq!(
        lexer.next_token(),
        TSXToken::new(TSXTokenType::CloseLTag, "</")
    );
    assert_eq!(
        lexer.next_token(),
        TSXToken::new(TSXTokenType::CloseRTag, "/>")
    );
    assert_eq!(
        lexer.next_token(),
        TSXToken::new(TSXTokenType::Increment, "++")
    );
    assert_eq!(
        lexer.next_token(),
        TSXToken::new(TSXTokenType::Decrement, "--")
    );
    assert_eq!(
        lexer.next_token(),
        TSXToken::new(TSXTokenType::IncrementEqual, "+=")
    );
    assert_eq!(
        lexer.next_token(),
        TSXToken::new(TSXTokenType::DecrementEqual, "-=")
    );
    assert_eq!(
        lexer.next_token(),
        TSXToken::new(TSXTokenType::CrossEqual, "*=")
    );
    assert_eq!(
        lexer.next_token(),
        TSXToken::new(TSXTokenType::SlashEqual, "/=")
    );
    assert_eq!(
        lexer.next_token(),
        TSXToken::new(TSXTokenType::NullishCoalescing, "??")
    );
    assert_eq!(lexer.next_token(), TSXToken::new(TSXTokenType::NotEq, "!="));
    assert_eq!(lexer.next_token(), TSXToken::new(TSXTokenType::Or, "||"));
    assert_eq!(lexer.next_token(), TSXToken::new(TSXTokenType::Eof, ""));
}

#[test]
fn test_lexer_number_and_unrecognized() {
    let mut lexer = Lexer::new("word 123 @");
    assert_eq!(lexer.next_token(), TSXToken::new(TSXTokenType::Ident, "word"));
    assert_eq!(
        lexer.next_token(),
        TSXToken::new(TSXTokenType::NumberLiteral, "123")
    );
    // an unrecognized character degrades to an end-of-input token
    assert_eq!(lexer.next_token(), TSXToken::new(TSXTokenType::Eof, ""));
}

#[test]
fn test_lexer_comment_keeps_newline() {
    let mut lexer = Lexer::new("a // rest\nb");
    assert_eq!(lexer.next_token(), TSXToken::new(TSXTokenType::Ident, "a"));
    assert_eq!(
        lexer.next_token(),
        TSXToken::new(TSXTokenType::Comment, " rest\n")
    );
    assert_eq!(lexer.next_token(), TSXToken::new(TSXTokenType::Ident, "b"));
    assert_eq!(lexer.next_token(), TSXToken::new(TSXTokenType::Eof, ""));
}
