use rugments::token::{Token, TokenType};

#[test]
fn names_and_codes() {
    assert_eq!(TokenType::NameTag.as_str(), "Name.Tag");
    assert_eq!(TokenType::NameTag.as_short_str(), "nt");
    assert_eq!(TokenType::Text.as_short_str(), "");
    assert_eq!(TokenType::Error.as_str(), "Error");
    assert_eq!(TokenType::Error.as_short_str(), "err");
    assert_eq!(TokenType::NumberIntegerLong.as_str(), "Number.Integer.Long");
    assert_eq!(TokenType::NumberIntegerLong.as_short_str(), "il");
    assert_eq!(TokenType::GenericTraceback.as_str(), "Generic.Traceback");
    assert_eq!(TokenType::String.as_short_str(), "s");
}

#[test]
fn from_str_known_names() {
    assert_eq!(TokenType::from_str("Name.Tag"), TokenType::NameTag);
    assert_eq!(TokenType::from_str("Error"), TokenType::Error);
    assert_eq!(TokenType::from_str("Generic.Traceback"), TokenType::GenericTraceback);
    assert_eq!(TokenType::from_str("Comment.Preproc.File"), TokenType::CommentPreprocFile);
}

#[test]
fn from_str_unknown_is_custom() {
    assert_eq!(TokenType::from_str("Name.Tagx"), TokenType::Custom("Name.Tagx"));
    assert_eq!(TokenType::from_str(""), TokenType::Custom(""));
    assert_eq!(TokenType::from_str("name.tag"), TokenType::Custom("name.tag"));
    let c = TokenType::Custom("My.Kind");
    assert_eq!(c.as_str(), "My.Kind");
    assert_eq!(c.as_short_str(), "My.Kind");
    assert_ne!(c, TokenType::Name);
}

#[test]
fn names_round_trip() {
    let all = [
        TokenType::Error, TokenType::Other, TokenType::Escape, TokenType::Text,
        TokenType::Whitespace, TokenType::Punctuation, TokenType::Keyword,
        TokenType::KeywordConstant, TokenType::KeywordDeclaration, TokenType::KeywordNamespace,
        TokenType::KeywordPseudo, TokenType::KeywordReserved, TokenType::KeywordType,
        TokenType::Name, TokenType::NameAttribute, TokenType::NameBuiltin,
        TokenType::NameBuiltinPseudo, TokenType::NameClass, TokenType::NameConstant,
        TokenType::NameDecorator, TokenType::NameEntity, TokenType::NameException,
        TokenType::NameFunction, TokenType::NameFunctionMagic, TokenType::NameProperty,
        TokenType::NameLabel, TokenType::NameNamespace, TokenType::NameOther, TokenType::NameTag,
        TokenType::NameVariable, TokenType::NameVariableClass, TokenType::NameVariableGlobal,
        TokenType::NameVariableInstance, TokenType::NameVariableMagic, TokenType::String,
        TokenType::StringAffix, TokenType::StringBacktick, TokenType::StringChar,
        TokenType::StringDelimiter, TokenType::StringDoc, TokenType::StringDouble,
        TokenType::StringEscape, TokenType::StringHeredoc, TokenType::StringInterpol,
        TokenType::StringOther, TokenType::StringRegex, TokenType::StringSingle,
        TokenType::StringSymbol, TokenType::Number, TokenType::NumberBin, TokenType::NumberFloat,
        TokenType::NumberHex, TokenType::NumberInteger, TokenType::NumberIntegerLong,
        TokenType::NumberOct, TokenType::Literal, TokenType::LiteralDate, TokenType::Operator,
        TokenType::OperatorWord, TokenType::Comment, TokenType::CommentHashbang,
        TokenType::CommentMultiline, TokenType::CommentPreproc, TokenType::CommentPreprocFile,
        TokenType::CommentSingle, TokenType::CommentSpecial, TokenType::Generic,
        TokenType::GenericDeleted, TokenType::GenericEmph, TokenType::GenericError,
        TokenType::GenericHeading, TokenType::GenericInserted, TokenType::GenericOutput,
        TokenType::GenericPrompt, TokenType::GenericStrong, TokenType::GenericSubheading,
        TokenType::GenericTraceback,
    ];
    assert_eq!(all.len(), 77);
    for t in all {
        assert_eq!(TokenType::from_str(t.as_str()), t);
    }
}

#[test]
fn token_holds_a_slice() {
    let input = String::from("abc");
    let t = Token { text: &input[1..2], ttype: TokenType::Name };
    assert_eq!(t.text, "b");
    assert_eq!(t.ttype, TokenType::Name);
}
