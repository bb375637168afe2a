//! The tokens of a source file, as far as the file parser reads them: the
//! kind of each token, the name of an identifier, and the comments that
//! stand before and behind it.

use crate::text::str_equals;
use vhdl_lang::{kind_str, NullDiagnostics, Source, VHDLParser};
use vstd::prelude::*;

verus! {

/// The kinds of token that the file parser tells apart.
#[derive(Debug, Clone, Copy, PartialEq, Eq, Structural)]
pub enum TokenKind {
    Entity,
    Architecture,
    Of,
    Is,
    Signal,
    Begin,
    Colon,
    SemiColon,
    Identifier,
    Other,
}

/// One token of a source file.
#[derive(Debug, Clone, PartialEq, Eq)]
pub struct Token {
    pub kind: TokenKind,
    /// The name, where the token is an identifier.
    pub name: String,
    /// The comments on the lines before the token.
    pub leading: Vec<String>,
    /// The comment behind the token on its line.
    pub trailing: Option<String>,
}

/// The mathematical value of a [`Token`].
pub struct TokenView {
    pub kind: TokenKind,
    pub name: Seq<char>,
    pub leading: Seq<Seq<char>>,
    pub trailing: Option<Seq<char>>,
}

/// The values of a list of texts, in order.
pub open spec fn text_views(texts: Seq<String>) -> Seq<Seq<char>> {
    texts.map_values(|text: String| text@)
}

impl View for Token {
    type V = TokenView;

    open spec fn view(&self) -> TokenView {
        TokenView {
            kind: self.kind,
            name: self.name@,
            leading: text_views(self.leading@),
            trailing: match self.trailing {
                Some(text) => Some(text@),
                None => None,
            },
        }
    }
}

/// The values of a list of tokens, in order.
pub open spec fn token_views(tokens: Seq<Token>) -> Seq<TokenView> {
    tokens.map_values(|token: Token| token@)
}

/// The kind that a token's spelling stands for.
pub open spec fn kind_of(spelling: Seq<char>) -> TokenKind {
    if spelling == "entity"@ {
        TokenKind::Entity
    } else if spelling == "architecture"@ {
        TokenKind::Architecture
    } else if spelling == "of"@ {
        TokenKind::Of
    } else if spelling == "is"@ {
        TokenKind::Is
    } else if spelling == "signal"@ {
        TokenKind::Signal
    } else if spelling == "begin"@ {
        TokenKind::Begin
    } else if spelling == ":"@ {
        TokenKind::Colon
    } else if spelling == ";"@ {
        TokenKind::SemiColon
    } else if spelling == "{identifier}"@ {
        TokenKind::Identifier
    } else {
        TokenKind::Other
    }
}

/// A token as the VHDL parser hands it out: the spelling of its kind, its
/// name where it is an identifier, and the texts of its comments.
#[derive(Debug, Clone, PartialEq, Eq)]
pub struct SourceToken {
    pub spelling: String,
    pub name: Option<String>,
    pub leading: Vec<String>,
    pub trailing: Option<String>,
}

/// The mathematical value of a [`SourceToken`].
pub struct SourceTokenView {
    pub spelling: Seq<char>,
    pub name: Option<Seq<char>>,
    pub leading: Seq<Seq<char>>,
    pub trailing: Option<Seq<char>>,
}

impl View for SourceToken {
    type V = SourceTokenView;

    open spec fn view(&self) -> SourceTokenView {
        SourceTokenView {
            spelling: self.spelling@,
            name: match self.name {
                Some(name) => Some(name@),
                None => None,
            },
            leading: text_views(self.leading@),
            trailing: match self.trailing {
                Some(text) => Some(text@),
                None => None,
            },
        }
    }
}

/// The values of a list of source tokens, in order.
pub open spec fn source_token_views(tokens: Seq<SourceToken>) -> Seq<SourceTokenView> {
    tokens.map_values(|token: SourceToken| token@)
}

/// The token that the file parser sees in a source token: the kind that the
/// spelling stands for, and the name, which is empty where there is none.
pub open spec fn classified(token: SourceTokenView) -> TokenView {
    TokenView {
        kind: kind_of(token.spelling),
        name: match token.name {
            Some(name) => name,
            None => Seq::empty(),
        },
        leading: token.leading,
        trailing: token.trailing,
    }
}

/// The tokens that the file parser sees in a list of source tokens.
pub open spec fn classified_tokens(tokens: Seq<SourceTokenView>) -> Seq<TokenView> {
    tokens.map_values(|token: SourceTokenView| classified(token))
}

/// The tokens that the VHDL parser reads out of a source text.
pub uninterp spec fn source_tokens(text: Seq<char>) -> Seq<SourceTokenView>;

impl Token {
    /// The kind that a token's spelling stands for.
    pub fn kind_for(spelling: &str) -> (kind: TokenKind)
        ensures
            kind == kind_of(spelling@),
    {
        if str_equals(spelling, "entity") {
            TokenKind::Entity
        } else if str_equals(spelling, "architecture") {
            TokenKind::Architecture
        } else if str_equals(spelling, "of") {
            TokenKind::Of
        } else if str_equals(spelling, "is") {
            TokenKind::Is
        } else if str_equals(spelling, "signal") {
            TokenKind::Signal
        } else if str_equals(spelling, "begin") {
            TokenKind::Begin
        } else if str_equals(spelling, ":") {
            TokenKind::Colon
        } else if str_equals(spelling, ";") {
            TokenKind::SemiColon
        } else if str_equals(spelling, "{identifier}") {
            TokenKind::Identifier
        } else {
            TokenKind::Other
        }
    }

    /// The token that the file parser sees in a source token.
    pub fn from_source(token: SourceToken) -> (classed: Token)
        ensures
            classed@ == classified(token@),
    {
        let kind = Self::kind_for(token.spelling.as_str());
        let name = match token.name {
            Some(name) => name,
            None => String::new(),
        };
        Token { kind, name, leading: token.leading, trailing: token.trailing }
    }
}

/// The tokens that the file parser sees in a list of source tokens.
pub fn classify_tokens(tokens: Vec<SourceToken>) -> (classed: Vec<Token>)
    ensures
        token_views(classed@) == classified_tokens(source_token_views(tokens@)),
{
    let ghost all = classified_tokens(source_token_views(tokens@));
    let mut classed: Vec<Token> = Vec::new();
    assert(token_views(classed@) =~= all.take(0));
    for token in it: tokens.into_iter()
        invariant
            it.seq() == tokens@,
            all == classified_tokens(source_token_views(tokens@)),
            token_views(classed@) == all.take(it.index() as int),
    {
        let next = Token::from_source(token);
        proof {
            assert(all.take(it.index() + 1) =~= all.take(it.index() as int).push(next@));
            assert(token_views(classed@.push(next)) =~= token_views(classed@).push(next@));
        }
        classed.push(next);
    }
    assert(all.take(all.len() as int) =~= all);
    classed
}

/// `VHDLParser::parse_design_source` on an in-memory source: the tokens of
/// the design units that the parser reads out of `text`, unit after unit.
/// Messages of the parser are dropped. Of each token the result holds the
/// spelling of its kind (`kind_str`), its name where it is an identifier
/// (`Token::to_identifier_value`, `Symbol::name_utf8`), and the texts of
/// its comments.
#[verifier::external_body]
pub(crate) fn read_tokens(text: &str) -> (tokens: Vec<SourceToken>)
    ensures
        source_token_views(tokens@) == source_tokens(text@),
{
    let source = Source::inline(std::path::Path::new("source.vhd"), text);
    let file = VHDLParser::default().parse_design_source(&source, &mut NullDiagnostics);
    let read = file.design_units.into_iter().flat_map(|unit| unit.0);
    read.map(|token| {
        let comments = token.comments.as_deref();
        SourceToken {
            spelling: kind_str(token.kind).to_owned(),
            name: token.to_identifier_value().ok().map(|name| name.item.name_utf8()),
            leading: comments.map(|c| c.leading.iter().map(|l| l.value.clone()).collect())
                .unwrap_or_default(),
            trailing: comments.and_then(|c| c.trailing.as_ref().map(|t| t.value.clone())),
        }
    }).collect()
}

} // verus!
