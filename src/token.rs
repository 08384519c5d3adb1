//! Token types and the tokens that a lexer emits.

use vstd::prelude::*;
use vstd::string::*;
use crate::text::str_eq;

verus! {
/// A classified span of the input text.
pub struct Token<'t> {
    pub text: &'t str,
    pub ttype: TokenType,
}

impl<'t> Token<'t> {
    /// The token as its text and its type.
    pub open spec fn view(&self) -> (Seq<char>, TokenType) {
        (self.text@, self.ttype)
    }
}

/// Defines all allowable token types.  `Error`, `Other` and `Escape`
/// are special types that shouldn't be emitted from a lexer, but are
/// used by the system.
#[derive(Clone, Copy, Debug, PartialEq, Eq, Hash)]
pub enum TokenType {
    /// Lexing error.
    Error,
    /// Text that doesn't belong to the used lexer.
    Other,
    /// Special: treated specially by formatters.
    Escape,

    /// General type for text.
    Text,
    /// Insignificant whitespace.
    Whitespace,
    /// Significant punctuation.
    Punctuation,
    /// Keywords.
    Keyword,
    KeywordConstant,
    KeywordDeclaration,
    KeywordNamespace,
    KeywordPseudo,
    KeywordReserved,
    KeywordType,
    /// Names.
    Name,
    NameAttribute,
    NameBuiltin,
    NameBuiltinPseudo,
    NameClass,
    NameConstant,
    NameDecorator,
    NameEntity,
    NameException,
    NameFunction,
    NameFunctionMagic,
    NameProperty,
    NameLabel,
    NameNamespace,
    NameOther,
    NameTag,
    NameVariable,
    NameVariableClass,
    NameVariableGlobal,
    NameVariableInstance,
    NameVariableMagic,
    /// String literals.
    String,
    StringAffix,
    StringBacktick,
    StringChar,
    StringDelimiter,
    StringDoc,
    StringDouble,
    StringEscape,
    StringHeredoc,
    StringInterpol,
    StringOther,
    StringRegex,
    StringSingle,
    StringSymbol,
    /// Number literals.
    Number,
    NumberBin,
    NumberFloat,
    NumberHex,
    NumberInteger,
    NumberIntegerLong,
    NumberOct,
    /// Other literals.
    Literal,
    LiteralDate,
    /// Operators (punctuation and words).
    Operator,
    OperatorWord,
    /// Comments.
    Comment,
    CommentHashbang,
    CommentMultiline,
    CommentPreproc,
    CommentPreprocFile,
    CommentSingle,
    CommentSpecial,

    /// Generic types.
    Generic,
    GenericDeleted,
    GenericEmph,
    GenericError,
    GenericHeading,
    GenericInserted,
    GenericOutput,
    GenericPrompt,
    GenericStrong,
    GenericSubheading,
    GenericTraceback,

    /// Custom type.
    Custom(&'static str),
}
/// The canonical dotted name of a token type.
pub open spec fn canonical_name(t: TokenType) -> Seq<char> {
    match t {
        TokenType::Error => "Error"@,
        TokenType::Other => "Other"@,
        TokenType::Escape => "Escape"@,
        TokenType::Text => "Text"@,
        TokenType::Whitespace => "Whitespace"@,
        TokenType::Punctuation => "Punctuation"@,
        TokenType::Keyword => "Keyword"@,
        TokenType::KeywordConstant => "Keyword.Constant"@,
        TokenType::KeywordDeclaration => "Keyword.Declaration"@,
        TokenType::KeywordNamespace => "Keyword.Namespace"@,
        TokenType::KeywordPseudo => "Keyword.Pseudo"@,
        TokenType::KeywordReserved => "Keyword.Reserved"@,
        TokenType::KeywordType => "Keyword.Type"@,
        TokenType::Name => "Name"@,
        TokenType::NameAttribute => "Name.Attribute"@,
        TokenType::NameBuiltin => "Name.Builtin"@,
        TokenType::NameBuiltinPseudo => "Name.Builtin.Pseudo"@,
        TokenType::NameClass => "Name.Class"@,
        TokenType::NameConstant => "Name.Constant"@,
        TokenType::NameDecorator => "Name.Decorator"@,
        TokenType::NameEntity => "Name.Entity"@,
        TokenType::NameException => "Name.Exception"@,
        TokenType::NameFunction => "Name.Function"@,
        TokenType::NameFunctionMagic => "Name.Function.Magic"@,
        TokenType::NameProperty => "Name.Property"@,
        TokenType::NameLabel => "Name.Label"@,
        TokenType::NameNamespace => "Name.Namespace"@,
        TokenType::NameOther => "Name.Other"@,
        TokenType::NameTag => "Name.Tag"@,
        TokenType::NameVariable => "Name.Variable"@,
        TokenType::NameVariableClass => "Name.Variable.Class"@,
        TokenType::NameVariableGlobal => "Name.Variable.Global"@,
        TokenType::NameVariableInstance => "Name.Variable.Instance"@,
        TokenType::NameVariableMagic => "Name.Variable.Magic"@,
        TokenType::String => "String"@,
        TokenType::StringAffix => "String.Affix"@,
        TokenType::StringBacktick => "String.Backtick"@,
        TokenType::StringChar => "String.Char"@,
        TokenType::StringDelimiter => "String.Delimiter"@,
        TokenType::StringDoc => "String.Doc"@,
        TokenType::StringDouble => "String.Double"@,
        TokenType::StringEscape => "String.Escape"@,
        TokenType::StringHeredoc => "String.Heredoc"@,
        TokenType::StringInterpol => "String.Interpol"@,
        TokenType::StringOther => "String.Other"@,
        TokenType::StringRegex => "String.Regex"@,
        TokenType::StringSingle => "String.Single"@,
        TokenType::StringSymbol => "String.Symbol"@,
        TokenType::Number => "Number"@,
        TokenType::NumberBin => "Number.Bin"@,
        TokenType::NumberFloat => "Number.Float"@,
        TokenType::NumberHex => "Number.Hex"@,
        TokenType::NumberInteger => "Number.Integer"@,
        TokenType::NumberIntegerLong => "Number.Integer.Long"@,
        TokenType::NumberOct => "Number.Oct"@,
        TokenType::Literal => "Literal"@,
        TokenType::LiteralDate => "Literal.Date"@,
        TokenType::Operator => "Operator"@,
        TokenType::OperatorWord => "Operator.Word"@,
        TokenType::Comment => "Comment"@,
        TokenType::CommentHashbang => "Comment.Hashbang"@,
        TokenType::CommentMultiline => "Comment.Multiline"@,
        TokenType::CommentPreproc => "Comment.Preproc"@,
        TokenType::CommentPreprocFile => "Comment.Preproc.File"@,
        TokenType::CommentSingle => "Comment.Single"@,
        TokenType::CommentSpecial => "Comment.Special"@,
        TokenType::Generic => "Generic"@,
        TokenType::GenericDeleted => "Generic.Deleted"@,
        TokenType::GenericEmph => "Generic.Emph"@,
        TokenType::GenericError => "Generic.Error"@,
        TokenType::GenericHeading => "Generic.Heading"@,
        TokenType::GenericInserted => "Generic.Inserted"@,
        TokenType::GenericOutput => "Generic.Output"@,
        TokenType::GenericPrompt => "Generic.Prompt"@,
        TokenType::GenericStrong => "Generic.Strong"@,
        TokenType::GenericSubheading => "Generic.Subheading"@,
        TokenType::GenericTraceback => "Generic.Traceback"@,
        TokenType::Custom(s) => s@,
    }
}

/// The short code of a token type, used as a style class.
pub open spec fn short_code(t: TokenType) -> Seq<char> {
    match t {
        TokenType::Error => "err"@,
        TokenType::Other => "x"@,
        TokenType::Escape => "esc"@,
        TokenType::Text => ""@,
        TokenType::Whitespace => "w"@,
        TokenType::Punctuation => "p"@,
        TokenType::Keyword => "k"@,
        TokenType::KeywordConstant => "kc"@,
        TokenType::KeywordDeclaration => "kd"@,
        TokenType::KeywordNamespace => "kn"@,
        TokenType::KeywordPseudo => "kp"@,
        TokenType::KeywordReserved => "kr"@,
        TokenType::KeywordType => "kt"@,
        TokenType::Name => "n"@,
        TokenType::NameAttribute => "na"@,
        TokenType::NameBuiltin => "nb"@,
        TokenType::NameBuiltinPseudo => "np"@,
        TokenType::NameClass => "nc"@,
        TokenType::NameConstant => "no"@,
        TokenType::NameDecorator => "nd"@,
        TokenType::NameEntity => "ni"@,
        TokenType::NameException => "ne"@,
        TokenType::NameFunction => "nf"@,
        TokenType::NameFunctionMagic => "fm"@,
        TokenType::NameProperty => "py"@,
        TokenType::NameLabel => "nl"@,
        TokenType::NameNamespace => "nn"@,
        TokenType::NameOther => "nx"@,
        TokenType::NameTag => "nt"@,
        TokenType::NameVariable => "nv"@,
        TokenType::NameVariableClass => "vc"@,
        TokenType::NameVariableGlobal => "vg"@,
        TokenType::NameVariableInstance => "vi"@,
        TokenType::NameVariableMagic => "vm"@,
        TokenType::String => "s"@,
        TokenType::StringAffix => "s"@,
        TokenType::StringBacktick => "sb"@,
        TokenType::StringChar => "sc"@,
        TokenType::StringDelimiter => "dl"@,
        TokenType::StringDoc => "sd"@,
        TokenType::StringDouble => "s2"@,
        TokenType::StringEscape => "se"@,
        TokenType::StringHeredoc => "sh"@,
        TokenType::StringInterpol => "si"@,
        TokenType::StringOther => "sx"@,
        TokenType::StringRegex => "sr"@,
        TokenType::StringSingle => "s1"@,
        TokenType::StringSymbol => "ss"@,
        TokenType::Number => "m"@,
        TokenType::NumberBin => "mb"@,
        TokenType::NumberFloat => "mf"@,
        TokenType::NumberHex => "mh"@,
        TokenType::NumberInteger => "mi"@,
        TokenType::NumberIntegerLong => "il"@,
        TokenType::NumberOct => "mo"@,
        TokenType::Literal => "l"@,
        TokenType::LiteralDate => "ld"@,
        TokenType::Operator => "o"@,
        TokenType::OperatorWord => "ow"@,
        TokenType::Comment => "c"@,
        TokenType::CommentHashbang => "ch"@,
        TokenType::CommentMultiline => "cm"@,
        TokenType::CommentPreproc => "cp"@,
        TokenType::CommentPreprocFile => "cpf"@,
        TokenType::CommentSingle => "c1"@,
        TokenType::CommentSpecial => "cs"@,
        TokenType::Generic => "g"@,
        TokenType::GenericDeleted => "gd"@,
        TokenType::GenericEmph => "ge"@,
        TokenType::GenericError => "gr"@,
        TokenType::GenericHeading => "gh"@,
        TokenType::GenericInserted => "gi"@,
        TokenType::GenericOutput => "go"@,
        TokenType::GenericPrompt => "gp"@,
        TokenType::GenericStrong => "gs"@,
        TokenType::GenericSubheading => "gu"@,
        TokenType::GenericTraceback => "gt"@,
        TokenType::Custom(s) => s@,
    }
}

/// The token type that a canonical name stands for; any other name is a custom type.
pub open spec fn type_of_name(s: &'static str) -> TokenType {
    if s@ == "Error"@ {
        TokenType::Error
    } else if s@ == "Other"@ {
        TokenType::Other
    } else if s@ == "Escape"@ {
        TokenType::Escape
    } else if s@ == "Text"@ {
        TokenType::Text
    } else if s@ == "Whitespace"@ {
        TokenType::Whitespace
    } else if s@ == "Punctuation"@ {
        TokenType::Punctuation
    } else if s@ == "Keyword"@ {
        TokenType::Keyword
    } else if s@ == "Keyword.Constant"@ {
        TokenType::KeywordConstant
    } else if s@ == "Keyword.Declaration"@ {
        TokenType::KeywordDeclaration
    } else if s@ == "Keyword.Namespace"@ {
        TokenType::KeywordNamespace
    } else if s@ == "Keyword.Pseudo"@ {
        TokenType::KeywordPseudo
    } else if s@ == "Keyword.Reserved"@ {
        TokenType::KeywordReserved
    } else if s@ == "Keyword.Type"@ {
        TokenType::KeywordType
    } else if s@ == "Name"@ {
        TokenType::Name
    } else if s@ == "Name.Attribute"@ {
        TokenType::NameAttribute
    } else if s@ == "Name.Builtin"@ {
        TokenType::NameBuiltin
    } else if s@ == "Name.Builtin.Pseudo"@ {
        TokenType::NameBuiltinPseudo
    } else if s@ == "Name.Class"@ {
        TokenType::NameClass
    } else if s@ == "Name.Constant"@ {
        TokenType::NameConstant
    } else if s@ == "Name.Decorator"@ {
        TokenType::NameDecorator
    } else if s@ == "Name.Entity"@ {
        TokenType::NameEntity
    } else if s@ == "Name.Exception"@ {
        TokenType::NameException
    } else if s@ == "Name.Function"@ {
        TokenType::NameFunction
    } else if s@ == "Name.Function.Magic"@ {
        TokenType::NameFunctionMagic
    } else if s@ == "Name.Property"@ {
        TokenType::NameProperty
    } else if s@ == "Name.Label"@ {
        TokenType::NameLabel
    } else if s@ == "Name.Namespace"@ {
        TokenType::NameNamespace
    } else if s@ == "Name.Other"@ {
        TokenType::NameOther
    } else if s@ == "Name.Tag"@ {
        TokenType::NameTag
    } else if s@ == "Name.Variable"@ {
        TokenType::NameVariable
    } else if s@ == "Name.Variable.Class"@ {
        TokenType::NameVariableClass
    } else if s@ == "Name.Variable.Global"@ {
        TokenType::NameVariableGlobal
    } else if s@ == "Name.Variable.Instance"@ {
        TokenType::NameVariableInstance
    } else if s@ == "Name.Variable.Magic"@ {
        TokenType::NameVariableMagic
    } else if s@ == "String"@ {
        TokenType::String
    } else if s@ == "String.Affix"@ {
        TokenType::StringAffix
    } else if s@ == "String.Backtick"@ {
        TokenType::StringBacktick
    } else if s@ == "String.Char"@ {
        TokenType::StringChar
    } else if s@ == "String.Delimiter"@ {
        TokenType::StringDelimiter
    } else if s@ == "String.Doc"@ {
        TokenType::StringDoc
    } else if s@ == "String.Double"@ {
        TokenType::StringDouble
    } else if s@ == "String.Escape"@ {
        TokenType::StringEscape
    } else if s@ == "String.Heredoc"@ {
        TokenType::StringHeredoc
    } else if s@ == "String.Interpol"@ {
        TokenType::StringInterpol
    } else if s@ == "String.Other"@ {
        TokenType::StringOther
    } else if s@ == "String.Regex"@ {
        TokenType::StringRegex
    } else if s@ == "String.Single"@ {
        TokenType::StringSingle
    } else if s@ == "String.Symbol"@ {
        TokenType::StringSymbol
    } else if s@ == "Number"@ {
        TokenType::Number
    } else if s@ == "Number.Bin"@ {
        TokenType::NumberBin
    } else if s@ == "Number.Float"@ {
        TokenType::NumberFloat
    } else if s@ == "Number.Hex"@ {
        TokenType::NumberHex
    } else if s@ == "Number.Integer"@ {
        TokenType::NumberInteger
    } else if s@ == "Number.Integer.Long"@ {
        TokenType::NumberIntegerLong
    } else if s@ == "Number.Oct"@ {
        TokenType::NumberOct
    } else if s@ == "Literal"@ {
        TokenType::Literal
    } else if s@ == "Literal.Date"@ {
        TokenType::LiteralDate
    } else if s@ == "Operator"@ {
        TokenType::Operator
    } else if s@ == "Operator.Word"@ {
        TokenType::OperatorWord
    } else if s@ == "Comment"@ {
        TokenType::Comment
    } else if s@ == "Comment.Hashbang"@ {
        TokenType::CommentHashbang
    } else if s@ == "Comment.Multiline"@ {
        TokenType::CommentMultiline
    } else if s@ == "Comment.Preproc"@ {
        TokenType::CommentPreproc
    } else if s@ == "Comment.Preproc.File"@ {
        TokenType::CommentPreprocFile
    } else if s@ == "Comment.Single"@ {
        TokenType::CommentSingle
    } else if s@ == "Comment.Special"@ {
        TokenType::CommentSpecial
    } else if s@ == "Generic"@ {
        TokenType::Generic
    } else if s@ == "Generic.Deleted"@ {
        TokenType::GenericDeleted
    } else if s@ == "Generic.Emph"@ {
        TokenType::GenericEmph
    } else if s@ == "Generic.Error"@ {
        TokenType::GenericError
    } else if s@ == "Generic.Heading"@ {
        TokenType::GenericHeading
    } else if s@ == "Generic.Inserted"@ {
        TokenType::GenericInserted
    } else if s@ == "Generic.Output"@ {
        TokenType::GenericOutput
    } else if s@ == "Generic.Prompt"@ {
        TokenType::GenericPrompt
    } else if s@ == "Generic.Strong"@ {
        TokenType::GenericStrong
    } else if s@ == "Generic.Subheading"@ {
        TokenType::GenericSubheading
    } else if s@ == "Generic.Traceback"@ {
        TokenType::GenericTraceback
    } else {
        TokenType::Custom(s)
    }
}

impl TokenType {
    pub fn as_str(&self) -> (r: &'static str)
        ensures
            r@ == canonical_name(*self),
    {
        match *self {
            TokenType::Error => "Error",
            TokenType::Other => "Other",
            TokenType::Escape => "Escape",
            TokenType::Text => "Text",
            TokenType::Whitespace => "Whitespace",
            TokenType::Punctuation => "Punctuation",
            TokenType::Keyword => "Keyword",
            TokenType::KeywordConstant => "Keyword.Constant",
            TokenType::KeywordDeclaration => "Keyword.Declaration",
            TokenType::KeywordNamespace => "Keyword.Namespace",
            TokenType::KeywordPseudo => "Keyword.Pseudo",
            TokenType::KeywordReserved => "Keyword.Reserved",
            TokenType::KeywordType => "Keyword.Type",
            TokenType::Name => "Name",
            TokenType::NameAttribute => "Name.Attribute",
            TokenType::NameBuiltin => "Name.Builtin",
            TokenType::NameBuiltinPseudo => "Name.Builtin.Pseudo",
            TokenType::NameClass => "Name.Class",
            TokenType::NameConstant => "Name.Constant",
            TokenType::NameDecorator => "Name.Decorator",
            TokenType::NameEntity => "Name.Entity",
            TokenType::NameException => "Name.Exception",
            TokenType::NameFunction => "Name.Function",
            TokenType::NameFunctionMagic => "Name.Function.Magic",
            TokenType::NameProperty => "Name.Property",
            TokenType::NameLabel => "Name.Label",
            TokenType::NameNamespace => "Name.Namespace",
            TokenType::NameOther => "Name.Other",
            TokenType::NameTag => "Name.Tag",
            TokenType::NameVariable => "Name.Variable",
            TokenType::NameVariableClass => "Name.Variable.Class",
            TokenType::NameVariableGlobal => "Name.Variable.Global",
            TokenType::NameVariableInstance => "Name.Variable.Instance",
            TokenType::NameVariableMagic => "Name.Variable.Magic",
            TokenType::String => "String",
            TokenType::StringAffix => "String.Affix",
            TokenType::StringBacktick => "String.Backtick",
            TokenType::StringChar => "String.Char",
            TokenType::StringDelimiter => "String.Delimiter",
            TokenType::StringDoc => "String.Doc",
            TokenType::StringDouble => "String.Double",
            TokenType::StringEscape => "String.Escape",
            TokenType::StringHeredoc => "String.Heredoc",
            TokenType::StringInterpol => "String.Interpol",
            TokenType::StringOther => "String.Other",
            TokenType::StringRegex => "String.Regex",
            TokenType::StringSingle => "String.Single",
            TokenType::StringSymbol => "String.Symbol",
            TokenType::Number => "Number",
            TokenType::NumberBin => "Number.Bin",
            TokenType::NumberFloat => "Number.Float",
            TokenType::NumberHex => "Number.Hex",
            TokenType::NumberInteger => "Number.Integer",
            TokenType::NumberIntegerLong => "Number.Integer.Long",
            TokenType::NumberOct => "Number.Oct",
            TokenType::Literal => "Literal",
            TokenType::LiteralDate => "Literal.Date",
            TokenType::Operator => "Operator",
            TokenType::OperatorWord => "Operator.Word",
            TokenType::Comment => "Comment",
            TokenType::CommentHashbang => "Comment.Hashbang",
            TokenType::CommentMultiline => "Comment.Multiline",
            TokenType::CommentPreproc => "Comment.Preproc",
            TokenType::CommentPreprocFile => "Comment.Preproc.File",
            TokenType::CommentSingle => "Comment.Single",
            TokenType::CommentSpecial => "Comment.Special",
            TokenType::Generic => "Generic",
            TokenType::GenericDeleted => "Generic.Deleted",
            TokenType::GenericEmph => "Generic.Emph",
            TokenType::GenericError => "Generic.Error",
            TokenType::GenericHeading => "Generic.Heading",
            TokenType::GenericInserted => "Generic.Inserted",
            TokenType::GenericOutput => "Generic.Output",
            TokenType::GenericPrompt => "Generic.Prompt",
            TokenType::GenericStrong => "Generic.Strong",
            TokenType::GenericSubheading => "Generic.Subheading",
            TokenType::GenericTraceback => "Generic.Traceback",
            TokenType::Custom(s) => s,
        }
    }

    pub fn as_short_str(&self) -> (r: &'static str)
        ensures
            r@ == short_code(*self),
    {
        match *self {
            TokenType::Error => "err",
            TokenType::Other => "x",
            TokenType::Escape => "esc",
            TokenType::Text => "",
            TokenType::Whitespace => "w",
            TokenType::Punctuation => "p",
            TokenType::Keyword => "k",
            TokenType::KeywordConstant => "kc",
            TokenType::KeywordDeclaration => "kd",
            TokenType::KeywordNamespace => "kn",
            TokenType::KeywordPseudo => "kp",
            TokenType::KeywordReserved => "kr",
            TokenType::KeywordType => "kt",
            TokenType::Name => "n",
            TokenType::NameAttribute => "na",
            TokenType::NameBuiltin => "nb",
            TokenType::NameBuiltinPseudo => "np",
            TokenType::NameClass => "nc",
            TokenType::NameConstant => "no",
            TokenType::NameDecorator => "nd",
            TokenType::NameEntity => "ni",
            TokenType::NameException => "ne",
            TokenType::NameFunction => "nf",
            TokenType::NameFunctionMagic => "fm",
            TokenType::NameProperty => "py",
            TokenType::NameLabel => "nl",
            TokenType::NameNamespace => "nn",
            TokenType::NameOther => "nx",
            TokenType::NameTag => "nt",
            TokenType::NameVariable => "nv",
            TokenType::NameVariableClass => "vc",
            TokenType::NameVariableGlobal => "vg",
            TokenType::NameVariableInstance => "vi",
            TokenType::NameVariableMagic => "vm",
            TokenType::String => "s",
            TokenType::StringAffix => "s",
            TokenType::StringBacktick => "sb",
            TokenType::StringChar => "sc",
            TokenType::StringDelimiter => "dl",
            TokenType::StringDoc => "sd",
            TokenType::StringDouble => "s2",
            TokenType::StringEscape => "se",
            TokenType::StringHeredoc => "sh",
            TokenType::StringInterpol => "si",
            TokenType::StringOther => "sx",
            TokenType::StringRegex => "sr",
            TokenType::StringSingle => "s1",
            TokenType::StringSymbol => "ss",
            TokenType::Number => "m",
            TokenType::NumberBin => "mb",
            TokenType::NumberFloat => "mf",
            TokenType::NumberHex => "mh",
            TokenType::NumberInteger => "mi",
            TokenType::NumberIntegerLong => "il",
            TokenType::NumberOct => "mo",
            TokenType::Literal => "l",
            TokenType::LiteralDate => "ld",
            TokenType::Operator => "o",
            TokenType::OperatorWord => "ow",
            TokenType::Comment => "c",
            TokenType::CommentHashbang => "ch",
            TokenType::CommentMultiline => "cm",
            TokenType::CommentPreproc => "cp",
            TokenType::CommentPreprocFile => "cpf",
            TokenType::CommentSingle => "c1",
            TokenType::CommentSpecial => "cs",
            TokenType::Generic => "g",
            TokenType::GenericDeleted => "gd",
            TokenType::GenericEmph => "ge",
            TokenType::GenericError => "gr",
            TokenType::GenericHeading => "gh",
            TokenType::GenericInserted => "gi",
            TokenType::GenericOutput => "go",
            TokenType::GenericPrompt => "gp",
            TokenType::GenericStrong => "gs",
            TokenType::GenericSubheading => "gu",
            TokenType::GenericTraceback => "gt",
            TokenType::Custom(s) => s,
        }
    }

    pub fn from_str(s: &'static str) -> (r: TokenType)
        ensures
            r == type_of_name(s),
    {
        if str_eq(s, "Error") {
            return TokenType::Error;
        }
        if str_eq(s, "Other") {
            return TokenType::Other;
        }
        if str_eq(s, "Escape") {
            return TokenType::Escape;
        }
        if str_eq(s, "Text") {
            return TokenType::Text;
        }
        if str_eq(s, "Whitespace") {
            return TokenType::Whitespace;
        }
        if str_eq(s, "Punctuation") {
            return TokenType::Punctuation;
        }
        if str_eq(s, "Keyword") {
            return TokenType::Keyword;
        }
        if str_eq(s, "Keyword.Constant") {
            return TokenType::KeywordConstant;
        }
        if str_eq(s, "Keyword.Declaration") {
            return TokenType::KeywordDeclaration;
        }
        if str_eq(s, "Keyword.Namespace") {
            return TokenType::KeywordNamespace;
        }
        if str_eq(s, "Keyword.Pseudo") {
            return TokenType::KeywordPseudo;
        }
        if str_eq(s, "Keyword.Reserved") {
            return TokenType::KeywordReserved;
        }
        if str_eq(s, "Keyword.Type") {
            return TokenType::KeywordType;
        }
        if str_eq(s, "Name") {
            return TokenType::Name;
        }
        if str_eq(s, "Name.Attribute") {
            return TokenType::NameAttribute;
        }
        if str_eq(s, "Name.Builtin") {
            return TokenType::NameBuiltin;
        }
        if str_eq(s, "Name.Builtin.Pseudo") {
            return TokenType::NameBuiltinPseudo;
        }
        if str_eq(s, "Name.Class") {
            return TokenType::NameClass;
        }
        if str_eq(s, "Name.Constant") {
            return TokenType::NameConstant;
        }
        if str_eq(s, "Name.Decorator") {
            return TokenType::NameDecorator;
        }
        if str_eq(s, "Name.Entity") {
            return TokenType::NameEntity;
        }
        if str_eq(s, "Name.Exception") {
            return TokenType::NameException;
        }
        if str_eq(s, "Name.Function") {
            return TokenType::NameFunction;
        }
        if str_eq(s, "Name.Function.Magic") {
            return TokenType::NameFunctionMagic;
        }
        if str_eq(s, "Name.Property") {
            return TokenType::NameProperty;
        }
        if str_eq(s, "Name.Label") {
            return TokenType::NameLabel;
        }
        if str_eq(s, "Name.Namespace") {
            return TokenType::NameNamespace;
        }
        if str_eq(s, "Name.Other") {
            return TokenType::NameOther;
        }
        if str_eq(s, "Name.Tag") {
            return TokenType::NameTag;
        }
        if str_eq(s, "Name.Variable") {
            return TokenType::NameVariable;
        }
        if str_eq(s, "Name.Variable.Class") {
            return TokenType::NameVariableClass;
        }
        if str_eq(s, "Name.Variable.Global") {
            return TokenType::NameVariableGlobal;
        }
        if str_eq(s, "Name.Variable.Instance") {
            return TokenType::NameVariableInstance;
        }
        if str_eq(s, "Name.Variable.Magic") {
            return TokenType::NameVariableMagic;
        }
        if str_eq(s, "String") {
            return TokenType::String;
        }
        if str_eq(s, "String.Affix") {
            return TokenType::StringAffix;
        }
        if str_eq(s, "String.Backtick") {
            return TokenType::StringBacktick;
        }
        if str_eq(s, "String.Char") {
            return TokenType::StringChar;
        }
        if str_eq(s, "String.Delimiter") {
            return TokenType::StringDelimiter;
        }
        if str_eq(s, "String.Doc") {
            return TokenType::StringDoc;
        }
        if str_eq(s, "String.Double") {
            return TokenType::StringDouble;
        }
        if str_eq(s, "String.Escape") {
            return TokenType::StringEscape;
        }
        if str_eq(s, "String.Heredoc") {
            return TokenType::StringHeredoc;
        }
        if str_eq(s, "String.Interpol") {
            return TokenType::StringInterpol;
        }
        if str_eq(s, "String.Other") {
            return TokenType::StringOther;
        }
        if str_eq(s, "String.Regex") {
            return TokenType::StringRegex;
        }
        if str_eq(s, "String.Single") {
            return TokenType::StringSingle;
        }
        if str_eq(s, "String.Symbol") {
            return TokenType::StringSymbol;
        }
        if str_eq(s, "Number") {
            return TokenType::Number;
        }
        if str_eq(s, "Number.Bin") {
            return TokenType::NumberBin;
        }
        if str_eq(s, "Number.Float") {
            return TokenType::NumberFloat;
        }
        if str_eq(s, "Number.Hex") {
            return TokenType::NumberHex;
        }
        if str_eq(s, "Number.Integer") {
            return TokenType::NumberInteger;
        }
        if str_eq(s, "Number.Integer.Long") {
            return TokenType::NumberIntegerLong;
        }
        if str_eq(s, "Number.Oct") {
            return TokenType::NumberOct;
        }
        if str_eq(s, "Literal") {
            return TokenType::Literal;
        }
        if str_eq(s, "Literal.Date") {
            return TokenType::LiteralDate;
        }
        if str_eq(s, "Operator") {
            return TokenType::Operator;
        }
        if str_eq(s, "Operator.Word") {
            return TokenType::OperatorWord;
        }
        if str_eq(s, "Comment") {
            return TokenType::Comment;
        }
        if str_eq(s, "Comment.Hashbang") {
            return TokenType::CommentHashbang;
        }
        if str_eq(s, "Comment.Multiline") {
            return TokenType::CommentMultiline;
        }
        if str_eq(s, "Comment.Preproc") {
            return TokenType::CommentPreproc;
        }
        if str_eq(s, "Comment.Preproc.File") {
            return TokenType::CommentPreprocFile;
        }
        if str_eq(s, "Comment.Single") {
            return TokenType::CommentSingle;
        }
        if str_eq(s, "Comment.Special") {
            return TokenType::CommentSpecial;
        }
        if str_eq(s, "Generic") {
            return TokenType::Generic;
        }
        if str_eq(s, "Generic.Deleted") {
            return TokenType::GenericDeleted;
        }
        if str_eq(s, "Generic.Emph") {
            return TokenType::GenericEmph;
        }
        if str_eq(s, "Generic.Error") {
            return TokenType::GenericError;
        }
        if str_eq(s, "Generic.Heading") {
            return TokenType::GenericHeading;
        }
        if str_eq(s, "Generic.Inserted") {
            return TokenType::GenericInserted;
        }
        if str_eq(s, "Generic.Output") {
            return TokenType::GenericOutput;
        }
        if str_eq(s, "Generic.Prompt") {
            return TokenType::GenericPrompt;
        }
        if str_eq(s, "Generic.Strong") {
            return TokenType::GenericStrong;
        }
        if str_eq(s, "Generic.Subheading") {
            return TokenType::GenericSubheading;
        }
        if str_eq(s, "Generic.Traceback") {
            return TokenType::GenericTraceback;
        }
        TokenType::Custom(s)
    }
}

} // verus!
