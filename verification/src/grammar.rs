//! What the file parser reads out of a list of tokens, stated position by
//! position. A step either fails or gives what it read and the position
//! behind it.

use crate::file_parser::{
    ArchitectureView, EntityView, ParseError, PartView, SignalView, SyntaxError,
};
use crate::tokens::{TokenKind, TokenView};
use vstd::prelude::*;

verus! {

/// The error for a token of kind `expected` that is missing at `position`.
pub open spec fn syntax_error(expected: TokenKind, position: int) -> ParseError {
    ParseError::ParsingError(SyntaxError { expected, position: position as usize })
}

/// The first position from `from` on that holds a token of kind `kind`, or
/// the length of the list where there is none.
pub open spec fn find_kind(tokens: Seq<TokenView>, from: int, kind: TokenKind) -> int
    decreases tokens.len() - from,
{
    if from >= tokens.len() {
        tokens.len() as int
    } else if tokens[from].kind == kind {
        from
    } else {
        find_kind(tokens, from + 1, kind)
    }
}

/// Whether a token begins a design unit that the parser reads.
pub open spec fn begins_unit(token: TokenView) -> bool {
    token.kind == TokenKind::Entity || token.kind == TokenKind::Architecture
}

/// The first position from `from` on that begins a unit, or the length of
/// the list where there is none.
pub open spec fn find_unit(tokens: Seq<TokenView>, from: int) -> int
    decreases tokens.len() - from,
{
    if from >= tokens.len() {
        tokens.len() as int
    } else if begins_unit(tokens[from]) {
        from
    } else {
        find_unit(tokens, from + 1)
    }
}

/// Steps over a token of kind `kind`.
pub open spec fn expect_kind(tokens: Seq<TokenView>, pos: int, kind: TokenKind) -> Result<
    int,
    ParseError,
> {
    if 0 <= pos < tokens.len() && tokens[pos].kind == kind {
        Ok(pos + 1)
    } else {
        Err(syntax_error(kind, pos))
    }
}

/// Reads an identifier.
pub open spec fn identifier(tokens: Seq<TokenView>, pos: int) -> Result<(Seq<char>, int), ParseError> {
    if 0 <= pos < tokens.len() && tokens[pos].kind == TokenKind::Identifier {
        Ok((tokens[pos].name, pos + 1))
    } else {
        Err(syntax_error(TokenKind::Identifier, pos))
    }
}

/// Moves to the next token of kind `kind`, which may be the one at `pos`.
pub open spec fn skip_until(tokens: Seq<TokenView>, pos: int, kind: TokenKind) -> Result<
    int,
    ParseError,
> {
    let found = find_kind(tokens, pos, kind);
    if found < tokens.len() {
        Ok(found)
    } else {
        Err(syntax_error(kind, tokens.len() as int))
    }
}

/// Reads an entity from the word `entity` on: its name, up to the semicolon
/// behind the second `entity`. The position given is that of the semicolon.
pub open spec fn entity(tokens: Seq<TokenView>, pos: int) -> Result<(Seq<char>, int), ParseError> {
    match expect_kind(tokens, pos, TokenKind::Entity) {
        Err(error) => Err(error),
        Ok(step1) => match identifier(tokens, step1) {
            Err(error) => Err(error),
            Ok((name, step2)) => match skip_until(tokens, step2, TokenKind::Entity) {
                Err(error) => Err(error),
                Ok(step3) => match skip_until(tokens, step3, TokenKind::SemiColon) {
                    Err(error) => Err(error),
                    Ok(step4) => Ok((name, step4)),
                },
            },
        },
    }
}

/// Reads the names that follow the first name of a declaration, up to the
/// colon. Before each of them stands one token, which is not looked at.
pub open spec fn more_names(tokens: Seq<TokenView>, pos: int) -> Result<
    (Seq<Seq<char>>, int),
    ParseError,
>
    decreases tokens.len() - pos,
{
    if pos < 0 || pos >= tokens.len() {
        Err(ParseError::EndOfFile)
    } else if tokens[pos].kind == TokenKind::Colon {
        Ok((Seq::empty(), pos))
    } else {
        match identifier(tokens, pos + 1) {
            Err(error) => Err(error),
            Ok((name, _)) => match more_names(tokens, pos + 2) {
                Err(error) => Err(error),
                Ok((names, colon)) => Ok((seq![name] + names, colon)),
            },
        }
    }
}

/// One signal for each name, all of one type and with one comment.
pub open spec fn declared(
    names: Seq<Seq<char>>,
    signal_type: Seq<char>,
    comment: Option<Seq<char>>,
) -> Seq<SignalView> {
    names.map_values(|name: Seq<char>| SignalView { name, signal_type, comment })
}

/// Reads a signal declaration from the word `signal` on: the names, the
/// type behind the colon, and the comment that trails the semicolon. The
/// position given is that of the semicolon.
pub open spec fn signals(tokens: Seq<TokenView>, pos: int) -> Result<
    (Seq<SignalView>, int),
    ParseError,
> {
    match expect_kind(tokens, pos, TokenKind::Signal) {
        Err(error) => Err(error),
        Ok(step1) => match identifier(tokens, step1) {
            Err(error) => Err(error),
            Ok((first, step2)) => match more_names(tokens, step2) {
                Err(error) => Err(error),
                Ok((names, colon)) => match identifier(tokens, colon + 1) {
                    Err(error) => Err(error),
                    Ok((signal_type, step3)) => match skip_until(tokens, step3, TokenKind::SemiColon) {
                        Err(error) => Err(error),
                        Ok(end) => Ok(
                            (declared(seq![first] + names, signal_type, tokens[end].trailing), end),
                        ),
                    },
                },
            },
        },
    }
}

/// The comments before a token, as parts.
pub open spec fn comment_parts(comments: Seq<Seq<char>>) -> Seq<PartView> {
    comments.map_values(|text: Seq<char>| PartView::Comment(text))
}

/// Signals as parts.
pub open spec fn signal_parts(signals: Seq<SignalView>) -> Seq<PartView> {
    signals.map_values(|signal: SignalView| PartView::Signal(signal))
}

/// Reads the declarations of an architecture up to the word `begin`: the
/// comments before each token that the walk comes to, and the signals. The
/// position given is that of `begin`.
pub open spec fn declarations(tokens: Seq<TokenView>, pos: int) -> Result<
    (Seq<PartView>, int),
    ParseError,
>
    decreases tokens.len() - pos,
{
    if pos < 0 || pos >= tokens.len() {
        Err(ParseError::EndOfFile)
    } else {
        let comments = comment_parts(tokens[pos].leading);
        if tokens[pos].kind == TokenKind::Begin {
            Ok((comments, pos))
        } else if tokens[pos].kind == TokenKind::Signal {
            match signals(tokens, pos) {
                Err(error) => Err(error),
                Ok((read, end)) => {
                    proof {
                        lemma_signals_advance(tokens, pos);
                    }
                    match declarations(tokens, end) {
                        Err(error) => Err(error),
                        Ok((parts, begin)) => Ok((comments + signal_parts(read) + parts, begin)),
                    }
                },
            }
        } else {
            match declarations(tokens, pos + 1) {
                Err(error) => Err(error),
                Ok((parts, begin)) => Ok((comments + parts, begin)),
            }
        }
    }
}

/// Reads an architecture from the word `architecture` on: its name, the
/// name of its entity, its declarations, up to the semicolon behind the
/// second `architecture`. The position given is that of the semicolon.
pub open spec fn architecture(tokens: Seq<TokenView>, pos: int) -> Result<
    (ArchitectureView, int),
    ParseError,
> {
    match expect_kind(tokens, pos, TokenKind::Architecture) {
        Err(error) => Err(error),
        Ok(step1) => match identifier(tokens, step1) {
            Err(error) => Err(error),
            Ok((name, step2)) => match expect_kind(tokens, step2, TokenKind::Of) {
                Err(error) => Err(error),
                Ok(step3) => match identifier(tokens, step3) {
                    Err(error) => Err(error),
                    Ok((entity_name, step4)) => match expect_kind(tokens, step4, TokenKind::Is) {
                        Err(error) => Err(error),
                        Ok(step5) => match declarations(tokens, step5) {
                            Err(error) => Err(error),
                            Ok((parts, begin)) => match skip_until(
                                tokens,
                                begin,
                                TokenKind::Architecture,
                            ) {
                                Err(error) => Err(error),
                                Ok(step6) => match skip_until(tokens, step6, TokenKind::SemiColon) {
                                    Err(error) => Err(error),
                                    Ok(end) => Ok(
                                        (ArchitectureView { name, entity_name, parts }, end),
                                    ),
                                },
                            },
                        },
                    },
                },
            },
        },
    }
}

/// Reads the units from `pos` on: the names of the entities and the
/// architectures, each in source order. What stands between units is
/// passed over.
pub open spec fn units(tokens: Seq<TokenView>, pos: int) -> Result<
    (Seq<Seq<char>>, Seq<ArchitectureView>),
    ParseError,
>
    decreases tokens.len() - pos,
{
    let start = find_unit(tokens, pos);
    if pos < 0 || start >= tokens.len() {
        Ok((Seq::empty(), Seq::empty()))
    } else if tokens[start].kind == TokenKind::Entity {
        match entity(tokens, start) {
            Err(error) => Err(error),
            Ok((name, end)) => {
                proof {
                    lemma_find_unit_bounds(tokens, pos);
                    lemma_entity_advance(tokens, start);
                }
                match units(tokens, end) {
                    Err(error) => Err(error),
                    Ok((names, architectures)) => Ok((seq![name] + names, architectures)),
                }
            },
        }
    } else {
        match architecture(tokens, start) {
            Err(error) => Err(error),
            Ok((read, end)) => {
                proof {
                    lemma_find_unit_bounds(tokens, pos);
                    lemma_architecture_advance(tokens, start);
                }
                match units(tokens, end) {
                    Err(error) => Err(error),
                    Ok((names, architectures)) => Ok((names, seq![read] + architectures)),
                }
            },
        }
    }
}

/// The position of the first entity called `name`, or the number of
/// entities where there is none.
pub open spec fn first_named(entities: Seq<EntityView>, name: Seq<char>) -> int
    decreases entities.len(),
{
    if entities.len() == 0 || entities[0].name == name {
        0
    } else {
        1 + first_named(entities.drop_first(), name)
    }
}

/// Entities without architectures, one for each name.
pub open spec fn bare_entities(names: Seq<Seq<char>>) -> Seq<EntityView> {
    names.map_values(|name: Seq<char>| EntityView { name, architecture: None })
}

/// Gives each architecture, in source order, to the first entity that has
/// the name it asks for. An entity keeps the last architecture it is given.
pub open spec fn link(entities: Seq<EntityView>, architectures: Seq<ArchitectureView>) -> Result<
    Seq<EntityView>,
    ParseError,
>
    decreases architectures.len(),
{
    if architectures.len() == 0 {
        Ok(entities)
    } else {
        let at = first_named(entities, architectures[0].entity_name);
        if at >= entities.len() {
            Err(ParseError::ArchitectureWithoutEntity)
        } else {
            link(
                entities.update(
                    at,
                    EntityView { name: entities[at].name, architecture: Some(architectures[0]) },
                ),
                architectures.drop_first(),
            )
        }
    }
}

/// The entities of a file, each with its architecture if the file holds
/// one for it. An architecture may stand before or behind its entity.
pub open spec fn parse_tokens(tokens: Seq<TokenView>) -> Result<Seq<EntityView>, ParseError> {
    match units(tokens, 0) {
        Err(error) => Err(error),
        Ok((names, architectures)) => link(bare_entities(names), architectures),
    }
}

/// A search ends at or behind where it began, and within the list.
pub proof fn lemma_find_kind_bounds(tokens: Seq<TokenView>, from: int, kind: TokenKind)
    requires
        0 <= from <= tokens.len(),
    ensures
        from <= find_kind(tokens, from, kind) <= tokens.len(),
        find_kind(tokens, from, kind) < tokens.len() ==> tokens[find_kind(tokens, from, kind)].kind
            == kind,
        forall|i: int|
            from <= i < find_kind(tokens, from, kind) ==> (#[trigger] tokens[i]).kind != kind,
    decreases tokens.len() - from,
{
    if from < tokens.len() && tokens[from].kind != kind {
        lemma_find_kind_bounds(tokens, from + 1, kind);
    }
}

/// A search for a unit ends at or behind where it began, and within the list.
pub proof fn lemma_find_unit_bounds(tokens: Seq<TokenView>, from: int)
    requires
        0 <= from <= tokens.len(),
    ensures
        from <= find_unit(tokens, from) <= tokens.len(),
        find_unit(tokens, from) < tokens.len() ==> begins_unit(tokens[find_unit(tokens, from)]),
        forall|i: int| from <= i < find_unit(tokens, from) ==> !begins_unit(#[trigger] tokens[i]),
    decreases tokens.len() - from,
{
    if from < tokens.len() && !begins_unit(tokens[from]) {
        lemma_find_unit_bounds(tokens, from + 1);
    }
}

/// A search that passes a token of another kind goes on behind it.
pub proof fn lemma_find_kind_from(tokens: Seq<TokenView>, from: int, at: int, kind: TokenKind)
    requires
        0 <= from <= at <= tokens.len(),
        forall|i: int| from <= i < at ==> (#[trigger] tokens[i]).kind != kind,
    ensures
        find_kind(tokens, from, kind) == find_kind(tokens, at, kind),
    decreases at - from,
{
    if from < at {
        lemma_find_kind_from(tokens, from + 1, at, kind);
    }
}

/// A search for a unit that passes other tokens goes on behind them.
pub proof fn lemma_find_unit_from(tokens: Seq<TokenView>, from: int, at: int)
    requires
        0 <= from <= at <= tokens.len(),
        forall|i: int| from <= i < at ==> !begins_unit(#[trigger] tokens[i]),
    ensures
        find_unit(tokens, from) == find_unit(tokens, at),
    decreases at - from,
{
    if from < at {
        lemma_find_unit_from(tokens, from + 1, at);
    }
}

/// The colon behind the names stands within the list, at or behind `pos`.
pub proof fn lemma_more_names_advance(tokens: Seq<TokenView>, pos: int)
    requires
        0 <= pos,
    ensures
        more_names(tokens, pos) matches Ok(read) ==> pos <= read.1 < tokens.len(),
    decreases tokens.len() - pos,
{
    if pos < tokens.len() && tokens[pos].kind != TokenKind::Colon {
        if identifier(tokens, pos + 1) is Ok {
            lemma_more_names_advance(tokens, pos + 2);
        }
    }
}

/// A declaration that was read ends behind where it began, within the list.
pub proof fn lemma_signals_advance(tokens: Seq<TokenView>, pos: int)
    ensures
        signals(tokens, pos) matches Ok(read) ==> 0 <= pos < read.1 < tokens.len(),
{
    if signals(tokens, pos) is Ok {
        lemma_more_names_advance(tokens, pos + 2);
        let colon = more_names(tokens, pos + 2)->Ok_0.1;
        lemma_find_kind_bounds(tokens, colon + 2, TokenKind::SemiColon);
    }
}

/// The word `begin` behind the declarations stands within the list, at or
/// behind `pos`.
pub proof fn lemma_declarations_advance(tokens: Seq<TokenView>, pos: int)
    ensures
        declarations(tokens, pos) matches Ok(read) ==> 0 <= pos <= read.1 < tokens.len(),
    decreases tokens.len() - pos,
{
    if 0 <= pos < tokens.len() {
        if tokens[pos].kind == TokenKind::Begin {
        } else if tokens[pos].kind == TokenKind::Signal {
            lemma_signals_advance(tokens, pos);
            if signals(tokens, pos) is Ok {
                lemma_declarations_advance(tokens, signals(tokens, pos)->Ok_0.1);
            }
        } else {
            lemma_declarations_advance(tokens, pos + 1);
        }
    }
}

/// An entity that was read ends behind where it began, within the list.
pub proof fn lemma_entity_advance(tokens: Seq<TokenView>, pos: int)
    ensures
        entity(tokens, pos) matches Ok(read) ==> 0 <= pos < read.1 < tokens.len(),
{
    if entity(tokens, pos) is Ok {
        lemma_find_kind_bounds(tokens, pos + 2, TokenKind::Entity);
        let second = find_kind(tokens, pos + 2, TokenKind::Entity);
        lemma_find_kind_bounds(tokens, second, TokenKind::SemiColon);
    }
}

/// An architecture that was read ends behind where it began, within the list.
pub proof fn lemma_architecture_advance(tokens: Seq<TokenView>, pos: int)
    ensures
        architecture(tokens, pos) matches Ok(read) ==> 0 <= pos < read.1 < tokens.len(),
{
    if architecture(tokens, pos) is Ok {
        lemma_declarations_advance(tokens, pos + 5);
        let begin = declarations(tokens, pos + 5)->Ok_0.1;
        lemma_find_kind_bounds(tokens, begin, TokenKind::Architecture);
        let second = find_kind(tokens, begin, TokenKind::Architecture);
        lemma_find_kind_bounds(tokens, second, TokenKind::SemiColon);
    }
}

} // verus!
