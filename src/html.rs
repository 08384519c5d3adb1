//! A grammar for HTML: text, entities, comments, tags with their
//! attributes, and the raw content of script and style elements.

use vstd::prelude::*;
use crate::grammar::{def_names, def_targets_known, MachineDef, MatchAction, RuleDef, StateAction};
use crate::token::TokenType;

verus! {

/// The rule table of the HTML grammar. Every pattern matches letters of
/// either case, and `.` matches line breaks too. Its states are these six,
/// `root` among them, and every push names one of them.
pub fn html_machine_def() -> (r: MachineDef)
    ensures
        def_names(r@) == seq![
            "root"@,
            "comment"@,
            "tag"@,
            "attr"@,
            "script-content"@,
            "style-content"@,
        ],
        forall|i: int, k: int|
            0 <= i < r@.len() && 0 <= k < r@[i].1@.len() ==> def_targets_known(
                #[trigger] r@[i].1@[k],
                def_names(r@),
            ),
{
    let r: MachineDef = &[
        (
            "root",
            &[
                RuleDef::Regex(r"(?is)[^<&]+", MatchAction::Single(TokenType::Text), StateAction::Stay),
                RuleDef::Regex(r"(?is)&[^\s;]*;", MatchAction::Single(TokenType::NameEntity), StateAction::Stay),
                RuleDef::Regex(r"(?is)<!\[CDATA\[.*?\]\]>", MatchAction::Single(TokenType::CommentPreproc), StateAction::Stay),
                RuleDef::Regex(r"(?is)<!--", MatchAction::Single(TokenType::Comment), StateAction::Push("comment")),
                RuleDef::Regex(r"(?is)<\?.*?\?>", MatchAction::Single(TokenType::CommentPreproc), StateAction::Stay),
                RuleDef::Regex(r"(?is)<![^>]*>", MatchAction::Single(TokenType::CommentPreproc), StateAction::Stay),
                RuleDef::Regex(r"(?is)(<)(\s*)(script)(\s*)", MatchAction::ByGroups(&[TokenType::Punctuation, TokenType::Text, TokenType::NameTag, TokenType::Text]), StateAction::PushMulti(&["script-content", "tag"])),
                RuleDef::Regex(r"(?is)(<)(\s*)(style)(\s*)", MatchAction::ByGroups(&[TokenType::Punctuation, TokenType::Text, TokenType::NameTag, TokenType::Text]), StateAction::PushMulti(&["style-content", "tag"])),
                RuleDef::Regex(r"(?is)(<)(\s*)([\w:.-]+)", MatchAction::ByGroups(&[TokenType::Punctuation, TokenType::Text, TokenType::NameTag]), StateAction::Push("tag")),
                RuleDef::Regex(r"(?is)(<)(\s*)(/)(\s*)([\w:.-]+)(\s*)(>)", MatchAction::ByGroups(&[TokenType::Punctuation, TokenType::Text, TokenType::Punctuation, TokenType::Text, TokenType::NameTag, TokenType::Text, TokenType::Punctuation]), StateAction::Stay),
            ],
        ),
        (
            "comment",
            &[
                RuleDef::Regex(r"(?is)[^-]+", MatchAction::Single(TokenType::Comment), StateAction::Stay),
                RuleDef::Regex(r"(?is)-->", MatchAction::Single(TokenType::Comment), StateAction::Pop),
                RuleDef::Regex(r"(?is)-", MatchAction::Single(TokenType::Comment), StateAction::Stay),
            ],
        ),
        (
            "tag",
            &[
                RuleDef::Regex(r"(?is)\s+", MatchAction::Single(TokenType::Text), StateAction::Stay),
                RuleDef::Regex(r"(?is)([\w:-]+\s*)(=)(\s*)", MatchAction::ByGroups(&[TokenType::NameAttribute, TokenType::Operator, TokenType::Text]), StateAction::Push("attr")),
                RuleDef::Regex(r"(?is)[\w:-]+", MatchAction::Single(TokenType::NameAttribute), StateAction::Stay),
                RuleDef::Regex(r"(?is)(/)(\s*)(>)", MatchAction::ByGroups(&[TokenType::Punctuation, TokenType::Text, TokenType::Punctuation]), StateAction::Pop),
                RuleDef::Regex(r"(?is)>", MatchAction::Single(TokenType::Punctuation), StateAction::Pop),
            ],
        ),
        (
            "attr",
            &[
                RuleDef::Regex(r#"(?is)"[^"]*""#, MatchAction::Single(TokenType::String), StateAction::Pop),
                RuleDef::Regex(r"(?is)'[^']*'", MatchAction::Single(TokenType::String), StateAction::Pop),
                RuleDef::Regex(r"(?is)[^\s>]+", MatchAction::Single(TokenType::String), StateAction::Pop),
            ],
        ),
        (
            "script-content",
            &[
                RuleDef::Regex(r"(?is)[^<]+", MatchAction::Single(TokenType::Text), StateAction::Stay),
                RuleDef::Regex(r"(?is)(<)(\s*)(/)(\s*)(script)(\s*)(>)", MatchAction::ByGroups(&[TokenType::Punctuation, TokenType::Text, TokenType::Punctuation, TokenType::Text, TokenType::NameTag, TokenType::Text, TokenType::Punctuation]), StateAction::Pop),
                RuleDef::Regex(r"(?is)<", MatchAction::Single(TokenType::Text), StateAction::Stay),
            ],
        ),
        (
            "style-content",
            &[
                RuleDef::Regex(r"(?is)[^<]+", MatchAction::Single(TokenType::Text), StateAction::Stay),
                RuleDef::Regex(r"(?is)(<)(\s*)(/)(\s*)(style)(\s*)(>)", MatchAction::ByGroups(&[TokenType::Punctuation, TokenType::Text, TokenType::Punctuation, TokenType::Text, TokenType::NameTag, TokenType::Text, TokenType::Punctuation]), StateAction::Pop),
                RuleDef::Regex(r"(?is)<", MatchAction::Single(TokenType::Text), StateAction::Stay),
            ],
        ),    ];
    proof {
        assert(def_names(r@) =~= seq![
            "root"@,
            "comment"@,
            "tag"@,
            "attr"@,
            "script-content"@,
            "style-content"@,
        ]);
    }
    r
}

} // verus!
