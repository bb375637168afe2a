//! What is read out of a source file: entities, their architectures, and in
//! each architecture the signal declarations and comments in source order.

use crate::grammar;
use crate::text::str_equals;
use crate::tokens::{
    classified_tokens, classify_tokens, read_tokens, source_tokens, text_views, token_views, Token,
    TokenKind,
};
use vstd::prelude::*;

verus! {

/// A declared signal with the comment that trails its declaration.
#[derive(PartialEq, Eq, Debug, Clone)]
pub struct ParsedSignal {
    name: String,
    signal_type: String,
    comment: Option<String>,
}

/// The mathematical value of a [`ParsedSignal`].
pub struct SignalView {
    pub name: Seq<char>,
    pub signal_type: Seq<char>,
    pub comment: Option<Seq<char>>,
}

/// One part of an architecture's declarations.
#[derive(PartialEq, Eq, Debug, Clone)]
pub enum ParsedArchitecturePart {
    Signal(ParsedSignal),
    Comment(String),
}

/// The mathematical value of a [`ParsedArchitecturePart`].
pub enum PartView {
    Signal(SignalView),
    Comment(Seq<char>),
}

/// An architecture with the parts of its declarations in source order.
#[derive(Eq, PartialEq, Debug, Clone)]
pub struct ParsedArchitecture {
    name: String,
    entity_name: String,
    parts: Vec<ParsedArchitecturePart>,
}

/// The mathematical value of a [`ParsedArchitecture`].
pub struct ArchitectureView {
    pub name: Seq<char>,
    pub entity_name: Seq<char>,
    pub parts: Seq<PartView>,
}

/// An entity and the architecture that was found for it, if any.
#[derive(Eq, PartialEq, Debug, Clone)]
pub struct ParsedEntity {
    name: String,
    architecture: Option<ParsedArchitecture>,
}

/// The mathematical value of a [`ParsedEntity`].
pub struct EntityView {
    pub name: Seq<char>,
    pub architecture: Option<ArchitectureView>,
}

/// The value of an optional text.
pub open spec fn option_view(text: Option<String>) -> Option<Seq<char>> {
    match text {
        Some(text) => Some(text@),
        None => None,
    }
}

/// The values of a list of parts, in order.
pub open spec fn part_views(parts: Seq<ParsedArchitecturePart>) -> Seq<PartView> {
    parts.map_values(|part: ParsedArchitecturePart| part@)
}

/// The values of a list of entities, in order.
pub open spec fn entity_views(entities: Seq<ParsedEntity>) -> Seq<EntityView> {
    entities.map_values(|entity: ParsedEntity| entity@)
}

impl View for ParsedSignal {
    type V = SignalView;

    closed spec fn view(&self) -> SignalView {
        SignalView {
            name: self.name@,
            signal_type: self.signal_type@,
            comment: option_view(self.comment),
        }
    }
}

impl View for ParsedArchitecturePart {
    type V = PartView;

    open spec fn view(&self) -> PartView {
        match *self {
            ParsedArchitecturePart::Signal(signal) => PartView::Signal(signal@),
            ParsedArchitecturePart::Comment(text) => PartView::Comment(text@),
        }
    }
}

impl View for ParsedArchitecture {
    type V = ArchitectureView;

    closed spec fn view(&self) -> ArchitectureView {
        ArchitectureView {
            name: self.name@,
            entity_name: self.entity_name@,
            parts: part_views(self.parts@),
        }
    }
}

impl View for ParsedEntity {
    type V = EntityView;

    closed spec fn view(&self) -> EntityView {
        EntityView {
            name: self.name@,
            architecture: match self.architecture {
                Some(architecture) => Some(architecture@),
                None => None,
            },
        }
    }
}

impl ParsedEntity {
    /// An entity with its architecture, if it has one.
    pub fn new(name: String, architecture: Option<ParsedArchitecture>) -> (entity: Self)
        ensures
            entity@.name == name@,
            entity@.architecture == match architecture {
                Some(architecture) => Some(architecture@),
                None => None,
            },
    {
        Self { name, architecture }
    }

    pub fn name(&self) -> (name: &str)
        ensures
            name@ == self@.name,
    {
        self.name.as_str()
    }

    pub fn architecture(&self) -> (architecture: Option<&ParsedArchitecture>)
        ensures
            match architecture {
                Some(architecture) => self@.architecture == Some(architecture@),
                None => self@.architecture is None,
            },
    {
        self.architecture.as_ref()
    }

    /// Gives the entity `architecture`, in place of the one it had.
    pub fn set_architecture(&mut self, architecture: ParsedArchitecture)
        ensures
            final(self)@.name == old(self)@.name,
            final(self)@.architecture == Some(architecture@),
    {
        self.architecture = Some(architecture);
    }
}

impl ParsedArchitecture {
    /// An architecture of the entity called `entity_name`.
    pub fn new(name: String, entity_name: String, parts: Vec<ParsedArchitecturePart>) -> (architecture:
        Self)
        ensures
            architecture@.name == name@,
            architecture@.entity_name == entity_name@,
            architecture@.parts == part_views(parts@),
    {
        Self { name, entity_name, parts }
    }

    pub fn name(&self) -> (name: &str)
        ensures
            name@ == self@.name,
    {
        self.name.as_str()
    }

    pub fn entity_name(&self) -> (entity_name: &str)
        ensures
            entity_name@ == self@.entity_name,
    {
        self.entity_name.as_str()
    }

    pub fn parts(&self) -> (parts: &Vec<ParsedArchitecturePart>)
        ensures
            part_views(parts@) == self@.parts,
    {
        &self.parts
    }
}

impl ParsedSignal {
    /// A signal of type `signal_type` with its trailing comment, if any.
    pub fn new(name: String, signal_type: String, comment: Option<String>) -> (signal: Self)
        ensures
            signal@.name == name@,
            signal@.signal_type == signal_type@,
            signal@.comment == option_view(comment),
    {
        Self { name, signal_type, comment }
    }

    pub fn name(&self) -> (name: &str)
        ensures
            name@ == self@.name,
    {
        self.name.as_str()
    }

    pub fn signal_type(&self) -> (signal_type: &str)
        ensures
            signal_type@ == self@.signal_type,
    {
        self.signal_type.as_str()
    }

    pub fn comment(&self) -> (comment: Option<&str>)
        ensures
            match comment {
                Some(text) => self@.comment == Some(text@),
                None => self@.comment is None,
            },
    {
        match &self.comment {
            Some(text) => Some(text.as_str()),
            None => None,
        }
    }
}

/// A token that the parser did not expect, or the end where it expected one.
#[derive(Debug, Clone, Copy, PartialEq, Eq, Structural)]
pub struct SyntaxError {
    /// The kind of token that should have stood there.
    pub expected: TokenKind,
    /// The position in the token list; its length where the list ended.
    pub position: usize,
}

/// Why a list of tokens could not be read.
#[derive(Debug, Clone, Copy, PartialEq, Eq, Structural)]
pub enum ParseError {
    /// An architecture names an entity that the file does not declare.
    ArchitectureWithoutEntity,
    /// A token of the wrong kind, or none where one had to stand.
    ParsingError(SyntaxError),
    /// The list ended inside the declarations of an architecture.
    EndOfFile,
}

/// The values of a list of signals, in order.
pub open spec fn signal_views(signals: Seq<ParsedSignal>) -> Seq<SignalView> {
    signals.map_values(|signal: ParsedSignal| signal@)
}

/// The values of a list of architectures, in order.
pub open spec fn architecture_views(architectures: Seq<ParsedArchitecture>) -> Seq<
    ArchitectureView,
> {
    architectures.map_values(|architecture: ParsedArchitecture| architecture@)
}

/// What was read so far, followed by what the rest of a step gives.
spec fn names_then(
    read: Seq<Seq<char>>,
    rest: Result<(Seq<Seq<char>>, int), ParseError>,
) -> Result<(Seq<Seq<char>>, int), ParseError> {
    match rest {
        Ok((names, end)) => Ok((read + names, end)),
        Err(error) => Err(error),
    }
}

/// The parts read so far, followed by what the rest of the declarations gives.
spec fn parts_then(
    read: Seq<PartView>,
    rest: Result<(Seq<PartView>, int), ParseError>,
) -> Result<(Seq<PartView>, int), ParseError> {
    match rest {
        Ok((parts, end)) => Ok((read + parts, end)),
        Err(error) => Err(error),
    }
}

/// The units read so far, followed by what the rest of the file gives.
spec fn units_then(
    names: Seq<Seq<char>>,
    architectures: Seq<ArchitectureView>,
    rest: Result<(Seq<Seq<char>>, Seq<ArchitectureView>), ParseError>,
) -> Result<(Seq<Seq<char>>, Seq<ArchitectureView>), ParseError> {
    match rest {
        Ok((more_names, more_architectures)) => Ok(
            (names + more_names, architectures + more_architectures),
        ),
        Err(error) => Err(error),
    }
}

/// Reads entities and architectures out of the tokens of a source file.
pub struct FileParser {}

impl FileParser {
    /// Reads the entities of a source text, each with its architecture if
    /// the text holds one for it.
    pub fn parse_file(text: &str) -> (r: Result<Vec<ParsedEntity>, ParseError>)
        ensures
            match r {
                Ok(entities) => grammar::parse_tokens(classified_tokens(source_tokens(text@)))
                    == Ok::<Seq<EntityView>, ParseError>(entity_views(entities@)),
                Err(error) => grammar::parse_tokens(classified_tokens(source_tokens(text@)))
                    == Err::<Seq<EntityView>, ParseError>(error),
            },
    {
        let tokens = classify_tokens(read_tokens(text));
        Self::parse_tokens(tokens.as_slice())
    }

    /// Reads the entities of a list of tokens, each with its architecture
    /// if the list holds one for it.
    #[verifier::loop_isolation(false)]
    pub fn parse_tokens(tokens: &[Token]) -> (r: Result<Vec<ParsedEntity>, ParseError>)
        ensures
            match r {
                Ok(entities) => grammar::parse_tokens(token_views(tokens@)) == Ok::<
                    Seq<EntityView>,
                    ParseError,
                >(entity_views(entities@)),
                Err(error) => grammar::parse_tokens(token_views(tokens@)) == Err::<
                    Seq<EntityView>,
                    ParseError,
                >(error),
            },
    {
        let ghost views = token_views(tokens@);
        let n = tokens.len();
        let mut entities: Vec<ParsedEntity> = Vec::new();
        let mut architectures: Vec<ParsedArchitecture> = Vec::new();
        let ghost mut names: Seq<Seq<char>> = Seq::empty();
        let mut pos: usize = 0;
        proof {
            assert(entity_views(entities@) =~= grammar::bare_entities(names));
            assert(architecture_views(architectures@) =~= Seq::<ArchitectureView>::empty());
            let rest = grammar::units(views, 0);
            assert(units_then(names, architecture_views(architectures@), rest) == rest) by {
                if rest is Ok {
                    assert(names + rest->Ok_0.0 =~= rest->Ok_0.0);
                    assert(architecture_views(architectures@) + rest->Ok_0.1 =~= rest->Ok_0.1);
                }
            }
        }
        let mut done = false;
        while !done
            invariant
                views == token_views(tokens@),
                n == tokens@.len(),
                pos <= n,
                entity_views(entities@) == grammar::bare_entities(names),
                !done ==> units_then(
                    names,
                    architecture_views(architectures@),
                    grammar::units(views, pos as int),
                ) == grammar::units(views, 0),
                done ==> grammar::units(views, 0) == Ok::<
                    (Seq<Seq<char>>, Seq<ArchitectureView>),
                    ParseError,
                >((names, architecture_views(architectures@))),
            decreases n - pos + (if done { 0int } else { 1int }),
        {
            let mut start = pos;
            while start < n && !(tokens[start].kind == TokenKind::Entity || tokens[start].kind
                == TokenKind::Architecture)
                invariant
                    views == token_views(tokens@),
                    n == tokens@.len(),
                    pos <= start <= n,
                    forall|i: int| pos <= i < start ==> !grammar::begins_unit(#[trigger] views[i]),
                decreases n - start,
            {
                start = start + 1;
            }
            proof {
                grammar::lemma_find_unit_from(views, pos as int, start as int);
                assert(grammar::find_unit(views, pos as int) == start);
            }
            if start >= n {
                proof {
                    assert(names + Seq::<Seq<char>>::empty() =~= names);
                    assert(architecture_views(architectures@) + Seq::<ArchitectureView>::empty()
                        =~= architecture_views(architectures@));
                }
                done = true;
            } else if tokens[start].kind == TokenKind::Entity {
                match Self::parse_entity(tokens, start) {
                    Err(error) => {
                        return Err(error);
                    },
                    Ok((entity, end)) => {
                        proof {
                            grammar::lemma_entity_advance(views, start as int);
                            let rest = grammar::units(views, end as int);
                            if rest is Ok {
                                assert(names + (seq![entity@.name] + rest->Ok_0.0) =~= names.push(
                                    entity@.name,
                                ) + rest->Ok_0.0);
                            }
                            assert(entity@ == EntityView {
                                name: entity@.name,
                                architecture: None,
                            });
                            assert(entity_views(entities@.push(entity)) =~= entity_views(
                                entities@,
                            ).push(entity@));
                            assert(entity_views(entities@).push(entity@)
                                =~= grammar::bare_entities(names.push(entity@.name)));
                            names = names.push(entity@.name);
                        }
                        entities.push(entity);
                        pos = end;
                    },
                }
            } else {
                match Self::parse_architecture(tokens, start) {
                    Err(error) => {
                        return Err(error);
                    },
                    Ok((architecture, end)) => {
                        proof {
                            grammar::lemma_architecture_advance(views, start as int);
                            let rest = grammar::units(views, end as int);
                            let read = architecture_views(architectures@);
                            assert(architecture_views(architectures@.push(architecture))
                                =~= read.push(architecture@));
                            if rest is Ok {
                                assert(read + (seq![architecture@] + rest->Ok_0.1) =~= read.push(
                                    architecture@,
                                ) + rest->Ok_0.1);
                            }
                        }
                        architectures.push(architecture);
                        pos = end;
                    },
                }
            }
        }
        Self::link(entities, architectures)
    }

    /// Gives each architecture, in order, to the first entity of the name
    /// that it asks for.
    #[verifier::loop_isolation(false)]
    fn link(entities: Vec<ParsedEntity>, architectures: Vec<ParsedArchitecture>) -> (r: Result<
        Vec<ParsedEntity>,
        ParseError,
    >)
        ensures
            match r {
                Ok(linked) => grammar::link(
                    entity_views(entities@),
                    architecture_views(architectures@),
                ) == Ok::<Seq<EntityView>, ParseError>(entity_views(linked@)),
                Err(error) => grammar::link(
                    entity_views(entities@),
                    architecture_views(architectures@),
                ) == Err::<Seq<EntityView>, ParseError>(error),
            },
    {
        let ghost all = architecture_views(architectures@);
        let ghost given = entity_views(entities@);
        let mut linked = entities;
        assert(all.skip(0) =~= all);
        for architecture in it: architectures.into_iter()
            invariant
                it.seq() == architectures@,
                all == architecture_views(architectures@),
                grammar::link(entity_views(linked@), all.skip(it.index() as int)) == grammar::link(
                    given,
                    all,
                ),
        {
            let ghost rest = all.skip(it.index() as int);
            proof {
                assert(rest[0] == architecture@);
                assert(rest.drop_first() =~= all.skip(it.index() + 1));
            }
            let at = Self::find_entity(&linked, architecture.entity_name());
            if at >= linked.len() {
                return Err(ParseError::ArchitectureWithoutEntity);
            }
            let ghost before = entity_views(linked@);
            let mut entity = linked.remove(at);
            entity.set_architecture(architecture);
            linked.insert(at, entity);
            assert(entity_views(linked@) =~= before.update(
                at as int,
                EntityView { name: before[at as int].name, architecture: Some(architecture@) },
            ));
        }
        assert(all.skip(all.len() as int) =~= Seq::<ArchitectureView>::empty());
        Ok(linked)
    }

    /// The position of the first entity called `name`, or the number of
    /// entities where there is none.
    pub fn find_entity(entities: &Vec<ParsedEntity>, name: &str) -> (at: usize)
        ensures
            at == grammar::first_named(entity_views(entities@), name@),
            at <= entities@.len(),
    {
        let ghost views = entity_views(entities@);
        let n = entities.len();
        let mut at: usize = 0;
        assert(views.skip(0) =~= views);
        while at < n && !str_equals(entities[at].name(), name)
            invariant
                views == entity_views(entities@),
                n == entities@.len(),
                at <= n,
                grammar::first_named(views, name@) == at + grammar::first_named(
                    views.skip(at as int),
                    name@,
                ),
            decreases n - at,
        {
            proof {
                let rest = views.skip(at as int);
                assert(rest[0] == views[at as int]);
                assert(rest.drop_first() =~= views.skip(at + 1));
            }
            at = at + 1;
        }
        proof {
            let rest = views.skip(at as int);
            if at < n {
                assert(rest[0] == views[at as int]);
            }
        }
        at
    }

    /// Steps over a token of kind `kind`.
    fn expect_kind(tokens: &[Token], pos: usize, kind: TokenKind) -> (r: Result<usize, ParseError>)
        requires
            pos <= tokens@.len(),
        ensures
            match r {
                Ok(next) => grammar::expect_kind(token_views(tokens@), pos as int, kind) == Ok::<
                    int,
                    ParseError,
                >(next as int),
                Err(error) => grammar::expect_kind(token_views(tokens@), pos as int, kind) == Err::<
                    int,
                    ParseError,
                >(error),
            },
    {
        if pos < tokens.len() && tokens[pos].kind == kind {
            Ok(pos + 1)
        } else {
            Err(ParseError::ParsingError(SyntaxError { expected: kind, position: pos }))
        }
    }

    /// Moves to the next token of kind `kind`.
    fn skip_until(tokens: &[Token], pos: usize, kind: TokenKind) -> (r: Result<usize, ParseError>)
        requires
            pos <= tokens@.len(),
        ensures
            match r {
                Ok(next) => grammar::skip_until(token_views(tokens@), pos as int, kind) == Ok::<
                    int,
                    ParseError,
                >(next as int),
                Err(error) => grammar::skip_until(token_views(tokens@), pos as int, kind) == Err::<
                    int,
                    ParseError,
                >(error),
            },
    {
        let ghost views = token_views(tokens@);
        let n = tokens.len();
        let mut at = pos;
        while at < n && tokens[at].kind != kind
            invariant
                views == token_views(tokens@),
                n == tokens@.len(),
                pos <= at <= n,
                forall|i: int| pos <= i < at ==> (#[trigger] views[i]).kind != kind,
            decreases n - at,
        {
            at = at + 1;
        }
        proof {
            grammar::lemma_find_kind_from(views, pos as int, at as int, kind);
        }
        if at < n {
            Ok(at)
        } else {
            Err(ParseError::ParsingError(SyntaxError { expected: kind, position: n }))
        }
    }

    /// Reads an identifier.
    fn parse_identifier(tokens: &[Token], pos: usize) -> (r: Result<(String, usize), ParseError>)
        requires
            pos <= tokens@.len(),
        ensures
            match r {
                Ok((name, next)) => grammar::identifier(token_views(tokens@), pos as int) == Ok::<
                    (Seq<char>, int),
                    ParseError,
                >((name@, next as int)),
                Err(error) => grammar::identifier(token_views(tokens@), pos as int) == Err::<
                    (Seq<char>, int),
                    ParseError,
                >(error),
            },
    {
        if pos < tokens.len() && tokens[pos].kind == TokenKind::Identifier {
            Ok((tokens[pos].name.clone(), pos + 1))
        } else {
            Err(
                ParseError::ParsingError(
                    SyntaxError { expected: TokenKind::Identifier, position: pos },
                ),
            )
        }
    }

    /// Reads an entity from the word `entity` on.
    fn parse_entity(tokens: &[Token], pos: usize) -> (r: Result<(ParsedEntity, usize), ParseError>)
        requires
            pos <= tokens@.len(),
        ensures
            match r {
                Ok((entity, next)) => grammar::entity(token_views(tokens@), pos as int) == Ok::<
                    (Seq<char>, int),
                    ParseError,
                >((entity@.name, next as int)) && entity@.architecture is None,
                Err(error) => grammar::entity(token_views(tokens@), pos as int) == Err::<
                    (Seq<char>, int),
                    ParseError,
                >(error),
            },
    {
        let ghost views = token_views(tokens@);
        let step1 = Self::expect_kind(tokens, pos, TokenKind::Entity)?;
        let (name, step2) = Self::parse_identifier(tokens, step1)?;
        proof {
            grammar::lemma_find_kind_bounds(views, step2 as int, TokenKind::Entity);
        }
        let step3 = Self::skip_until(tokens, step2, TokenKind::Entity)?;
        let step4 = Self::skip_until(tokens, step3, TokenKind::SemiColon)?;
        Ok((ParsedEntity { name, architecture: None }, step4))
    }

    /// Reads a signal declaration from the word `signal` on: one signal for
    /// each name.
    #[verifier::loop_isolation(false)]
    fn parse_signals(tokens: &[Token], pos: usize) -> (r: Result<
        (Vec<ParsedSignal>, usize),
        ParseError,
    >)
        requires
            pos <= tokens@.len(),
        ensures
            match r {
                Ok((signals, next)) => grammar::signals(token_views(tokens@), pos as int) == Ok::<
                    (Seq<SignalView>, int),
                    ParseError,
                >((signal_views(signals@), next as int)),
                Err(error) => grammar::signals(token_views(tokens@), pos as int) == Err::<
                    (Seq<SignalView>, int),
                    ParseError,
                >(error),
            },
    {
        let ghost views = token_views(tokens@);
        let n = tokens.len();
        let step1 = Self::expect_kind(tokens, pos, TokenKind::Signal)?;
        let (first, step2) = Self::parse_identifier(tokens, step1)?;
        let mut names: Vec<String> = Vec::new();
        names.push(first);
        let mut at = step2;
        let ghost mut read: Seq<Seq<char>> = Seq::empty();
        proof {
            let rest = grammar::more_names(views, step2 as int);
            if rest is Ok {
                assert(read + rest->Ok_0.0 =~= rest->Ok_0.0);
            }
            assert(text_views(names@) =~= seq![first@] + read);
        }
        let mut found = false;
        while !found
            invariant
                step2 <= at <= n,
                names@.len() > 0,
                names@[0]@ == first@,
                text_views(names@) == seq![first@] + read,
                !found ==> names_then(read, grammar::more_names(views, at as int))
                    == grammar::more_names(views, step2 as int),
                found ==> at < n && grammar::more_names(views, step2 as int) == Ok::<
                    (Seq<Seq<char>>, int),
                    ParseError,
                >((read, at as int)),
            decreases n - at + (if found { 0int } else { 1int }),
        {
            if at >= n {
                return Err(ParseError::EndOfFile);
            }
            if tokens[at].kind == TokenKind::Colon {
                proof {
                    assert(read + Seq::<Seq<char>>::empty() =~= read);
                }
                found = true;
            } else {
                let (name, next) = Self::parse_identifier(tokens, at + 1)?;
                proof {
                    let rest = grammar::more_names(views, at + 2);
                    if rest is Ok {
                        assert(read + (seq![name@] + rest->Ok_0.0) =~= read.push(name@)
                            + rest->Ok_0.0);
                    }
                    assert(text_views(names@.push(name)) =~= text_views(names@).push(name@));
                    assert(text_views(names@).push(name@) =~= seq![first@] + read.push(name@));
                    read = read.push(name@);
                }
                names.push(name);
                at = next;
            }
        }
        let (signal_type, step3) = Self::parse_identifier(tokens, at + 1)?;
        proof {
            grammar::lemma_find_kind_bounds(views, step3 as int, TokenKind::SemiColon);
        }
        let end = Self::skip_until(tokens, step3, TokenKind::SemiColon)?;
        let ghost comment = views[end as int].trailing;
        let ghost all = text_views(names@);
        let mut signals: Vec<ParsedSignal> = Vec::new();
        assert(signal_views(signals@) =~= grammar::declared(all.take(0), signal_type@, comment));
        for name in it: names.into_iter()
            invariant
                it.seq() == names@,
                all == text_views(names@),
                views == token_views(tokens@),
                end < tokens@.len(),
                comment == views[end as int].trailing,
                signal_views(signals@) == grammar::declared(
                    all.take(it.index() as int),
                    signal_type@,
                    comment,
                ),
        {
            let trailing = match &tokens[end].trailing {
                Some(text) => Some(text.clone()),
                None => None,
            };
            let signal = ParsedSignal { name, signal_type: signal_type.clone(), comment: trailing };
            proof {
                assert(all.take(it.index() + 1) =~= all.take(it.index() as int).push(name@));
                assert(signal@ == SignalView {
                    name: name@,
                    signal_type: signal_type@,
                    comment,
                });
                assert(signal_views(signals@.push(signal)) =~= signal_views(signals@).push(
                    signal@,
                ));
                assert(signal_views(signals@).push(signal@) =~= grammar::declared(
                    all.take(it.index() + 1),
                    signal_type@,
                    comment,
                ));
            }
            signals.push(signal);
        }
        assert(all.take(all.len() as int) =~= all);
        Ok((signals, end))
    }

    /// Reads the declarations of an architecture up to the word `begin`.
    #[verifier::loop_isolation(false)]
    fn parse_declarations(tokens: &[Token], pos: usize) -> (r: Result<
        (Vec<ParsedArchitecturePart>, usize),
        ParseError,
    >)
        requires
            pos <= tokens@.len(),
        ensures
            match r {
                Ok((parts, next)) => grammar::declarations(token_views(tokens@), pos as int)
                    == Ok::<(Seq<PartView>, int), ParseError>((part_views(parts@), next as int)),
                Err(error) => grammar::declarations(token_views(tokens@), pos as int) == Err::<
                    (Seq<PartView>, int),
                    ParseError,
                >(error),
            },
    {
        let ghost views = token_views(tokens@);
        let n = tokens.len();
        let mut parts: Vec<ParsedArchitecturePart> = Vec::new();
        let mut at = pos;
        proof {
            let rest = grammar::declarations(views, pos as int);
            if rest is Ok {
                assert(part_views(parts@) + rest->Ok_0.0 =~= rest->Ok_0.0);
            }
        }
        loop
            invariant
                views == token_views(tokens@),
                n == tokens@.len(),
                pos <= at <= n,
                parts_then(part_views(parts@), grammar::declarations(views, at as int))
                    == grammar::declarations(views, pos as int),
            decreases n - at,
        {
            if at >= n {
                return Err(ParseError::EndOfFile);
            }
            let ghost before = part_views(parts@);
            let token = &tokens[at];
            let ghost comments = grammar::comment_parts(views[at as int].leading);
            let count = token.leading.len();
            let mut i: usize = 0;
            assert(comments.take(0) =~= Seq::<PartView>::empty());
            assert(part_views(parts@) =~= before + comments.take(0));
            while i < count
                invariant
                    count == token.leading@.len(),
                    i <= count,
                    comments == grammar::comment_parts(text_views(token.leading@)),
                    part_views(parts@) == before + comments.take(i as int),
                decreases count - i,
            {
                let part = ParsedArchitecturePart::Comment(token.leading[i].clone());
                proof {
                    assert(comments.take(i + 1) =~= comments.take(i as int).push(part@));
                    assert(part_views(parts@.push(part)) =~= part_views(parts@).push(part@));
                    assert(part_views(parts@).push(part@) =~= before + comments.take(i + 1));
                }
                parts.push(part);
                i = i + 1;
            }
            assert(comments.take(count as int) =~= comments);
            if token.kind == TokenKind::Begin {
                return Ok((parts, at));
            }
            if token.kind == TokenKind::Signal {
                let (signals, end) = Self::parse_signals(tokens, at)?;
                proof {
                    grammar::lemma_signals_advance(views, at as int);
                }
                let ghost commented = part_views(parts@);
                let ghost read = grammar::signal_parts(signal_views(signals@));
                assert(read.take(0) =~= Seq::<PartView>::empty());
                assert(part_views(parts@) =~= commented + read.take(0));
                for signal in it: signals.into_iter()
                    invariant
                        it.seq() == signals@,
                        read == grammar::signal_parts(signal_views(signals@)),
                        part_views(parts@) == commented + read.take(it.index() as int),
                {
                    let part = ParsedArchitecturePart::Signal(signal);
                    proof {
                        assert(read.take(it.index() + 1) =~= read.take(it.index() as int).push(
                            part@,
                        ));
                        assert(part_views(parts@.push(part)) =~= part_views(parts@).push(part@));
                        assert(part_views(parts@).push(part@) =~= commented + read.take(
                            it.index() + 1,
                        ));
                    }
                    parts.push(part);
                }
                proof {
                    assert(read.take(read.len() as int) =~= read);
                    let rest = grammar::declarations(views, end as int);
                    if rest is Ok {
                        assert(before + (comments + read + rest->Ok_0.0) =~= (before + comments
                            + read) + rest->Ok_0.0);
                    }
                    assert(part_views(parts@) =~= before + comments + read);
                }
                at = end;
            } else {
                proof {
                    let rest = grammar::declarations(views, at + 1);
                    if rest is Ok {
                        assert(before + (comments + rest->Ok_0.0) =~= (before + comments)
                            + rest->Ok_0.0);
                    }
                }
                at = at + 1;
            }
        }
    }

    /// Reads an architecture from the word `architecture` on.
    fn parse_architecture(tokens: &[Token], pos: usize) -> (r: Result<
        (ParsedArchitecture, usize),
        ParseError,
    >)
        requires
            pos <= tokens@.len(),
        ensures
            match r {
                Ok((architecture, next)) => grammar::architecture(
                    token_views(tokens@),
                    pos as int,
                ) == Ok::<(ArchitectureView, int), ParseError>((architecture@, next as int)),
                Err(error) => grammar::architecture(token_views(tokens@), pos as int) == Err::<
                    (ArchitectureView, int),
                    ParseError,
                >(error),
            },
    {
        let ghost views = token_views(tokens@);
        let step1 = Self::expect_kind(tokens, pos, TokenKind::Architecture)?;
        let (name, step2) = Self::parse_identifier(tokens, step1)?;
        let step3 = Self::expect_kind(tokens, step2, TokenKind::Of)?;
        let (entity_name, step4) = Self::parse_identifier(tokens, step3)?;
        let step5 = Self::expect_kind(tokens, step4, TokenKind::Is)?;
        let (parts, begin) = Self::parse_declarations(tokens, step5)?;
        proof {
            grammar::lemma_declarations_advance(views, step5 as int);
            grammar::lemma_find_kind_bounds(views, begin as int, TokenKind::Architecture);
        }
        let step6 = Self::skip_until(tokens, begin, TokenKind::Architecture)?;
        let end = Self::skip_until(tokens, step6, TokenKind::SemiColon)?;
        Ok((ParsedArchitecture { name, entity_name, parts }, end))
    }
}

} // verus!
