//! The walk over an architecture's declarations: every signal is resolved
//! against the context that the comments before it have built, and against
//! the comment that trails its own declaration.

use crate::comment_parser::{
    operation_views, spec_parse_comment, CommentParser, Operation, OperationView,
};
use crate::context::{is_vector_type, lemma_omit_persists, restores, Context};
use crate::display_elements::{DisplayColor, DisplayFormat};
use crate::file_parser::{
    entity_views, part_views, EntityView, FileParser, ParsedArchitecturePart, ParsedEntity,
    PartView, SignalView,
};
use crate::grammar::first_named;
use crate::tcl_generator::{directive_for, render_script, DirectiveView, TclGenerator};
use vstd::prelude::*;
use vstd::string::StringExecFns;

verus! {

/// Why no script could be written for an entity.
#[derive(Debug, Clone, Copy, PartialEq, Eq, Structural)]
pub enum LookupError {
    /// No entity of the requested name is among those given.
    EntityNotPresent,
    /// The entity was found, but no architecture belongs to it.
    EntityWithoutArchitecture,
}

/// The value of an optional piece of text.
pub open spec fn text_view(text: Option<&str>) -> Option<Seq<char>> {
    match text {
        Some(text) => Some(text@),
        None => None,
    }
}

/// The values of an optional list of operations.
pub open spec fn operations_view(operations: Option<&[Operation]>) -> Option<Seq<OperationView>> {
    match operations {
        Some(operations) => Some(operation_views(operations@)),
        None => None,
    }
}

/// What a signal of type `declared_type` is shown with. Its own operations
/// change the context for this signal alone. The name plays no part.
pub open spec fn resolved_options(
    context: Context,
    declared_type: Option<Seq<char>>,
    operations: Option<Seq<OperationView>>,
) -> (Option<DisplayColor>, DisplayFormat, bool) {
    let scoped = match operations {
        Some(operations) => context.spec_update(operations),
        None => context,
    };
    scoped.spec_resolve(declared_type)
}

/// The directives that one signal contributes. An omitted signal
/// contributes nothing, unless the omit flag is overridden.
pub open spec fn signal_directives(
    context: Context,
    name: Seq<char>,
    declared_type: Option<Seq<char>>,
    operations: Option<Seq<OperationView>>,
    override_omit: bool,
) -> Seq<DirectiveView> {
    let resolved = resolved_options(context, declared_type, operations);
    if override_omit || !resolved.2 {
        seq![directive_for(name, resolved.0, Some(resolved.1))]
    } else {
        Seq::empty()
    }
}

/// One empty row for every operation that asks for one.
pub open spec fn blank_rows(operations: Seq<OperationView>) -> Seq<DirectiveView>
    decreases operations.len(),
{
    if operations.len() == 0 {
        Seq::empty()
    } else if operations.last() is AddEmpty {
        blank_rows(operations.drop_last()).push(DirectiveView::Blank)
    } else {
        blank_rows(operations.drop_last())
    }
}

/// Whether a comment adds a signal of its own: its first operation says so.
pub open spec fn adds_signal(operations: Seq<OperationView>) -> bool {
    operations.len() > 0 && operations[0] is AddSignal
}

/// The directives of a comment. One that adds a signal shows it, whatever
/// the omit flag says, with the context that its other operations lead to.
/// Any other comment gives its empty rows.
pub open spec fn comment_directives(context: Context, operations: Seq<OperationView>) -> Seq<
    DirectiveView,
> {
    if adds_signal(operations) {
        signal_directives(context, operations[0]->AddSignal_0, None, Some(operations.skip(1)), true)
    } else {
        blank_rows(operations)
    }
}

/// The context behind a comment. One that adds a signal leaves the context
/// as it is; any other changes it by its operations.
pub open spec fn comment_context(context: Context, operations: Seq<OperationView>) -> Context {
    if adds_signal(operations) {
        context
    } else {
        context.spec_update(operations)
    }
}

/// The directives of one part, in the context before it.
pub open spec fn part_directives(context: Context, part: PartView) -> Seq<DirectiveView> {
    match part {
        PartView::Comment(text) => comment_directives(context, spec_parse_comment(text)),
        PartView::Signal(signal) => signal_directives(
            context,
            signal.name,
            Some(signal.signal_type),
            match signal.comment {
                Some(text) => Some(spec_parse_comment(text)),
                None => None,
            },
            false,
        ),
    }
}

/// The context behind one part. A declaration leaves it as it is.
pub open spec fn part_context(context: Context, part: PartView) -> Context {
    match part {
        PartView::Comment(text) => comment_context(context, spec_parse_comment(text)),
        PartView::Signal(_) => context,
    }
}

/// The context behind a list of parts, from the zero context on.
pub open spec fn walk_context(parts: Seq<PartView>) -> Context
    decreases parts.len(),
{
    if parts.len() == 0 {
        Context::zero()
    } else {
        part_context(walk_context(parts.drop_last()), parts.last())
    }
}

/// The directives of a list of parts, in source order.
pub open spec fn walk_directives(parts: Seq<PartView>) -> Seq<DirectiveView>
    decreases parts.len(),
{
    if parts.len() == 0 {
        Seq::empty()
    } else {
        walk_directives(parts.drop_last()) + part_directives(
            walk_context(parts.drop_last()),
            parts.last(),
        )
    }
}

/// The prefix of every signal of the entity called `name`.
pub open spec fn signal_prefix_of(name: Seq<char>) -> Seq<char> {
    "top."@ + name + "."@
}

/// What writing the script of an entity gives.
pub open spec fn spec_generate_tcl(entity: EntityView) -> Result<Seq<char>, LookupError> {
    match entity.architecture {
        Some(architecture) => Ok(
            render_script(signal_prefix_of(entity.name), walk_directives(architecture.parts)),
        ),
        None => Err(LookupError::EntityWithoutArchitecture),
    }
}

/// What writing the script of the first entity called `testbench` gives.
pub open spec fn spec_generate_for(entities: Seq<EntityView>, testbench: Seq<char>) -> Result<
    Seq<char>,
    LookupError,
> {
    let at = first_named(entities, testbench);
    if at < entities.len() {
        spec_generate_tcl(entities[at])
    } else {
        Err(LookupError::EntityNotPresent)
    }
}

/// A declaration leaves the context as it is, whatever its comment says:
/// the comment is meant for its own signal only.
pub proof fn lemma_declaration_keeps_context(context: Context, signal: SignalView)
    ensures
        part_context(context, PartView::Signal(signal)) == context,
{
}

/// A comment that adds a signal shows that signal, omitted or not, and
/// leaves the context as it is.
pub proof fn lemma_added_signal_is_isolated(context: Context, comment: Seq<char>)
    requires
        adds_signal(spec_parse_comment(comment)),
    ensures
        part_context(context, PartView::Comment(comment)) == context,
        part_directives(context, PartView::Comment(comment)).len() == 1,
{
}

/// A signal of a vector type for which no format is set is shown in binary.
pub proof fn lemma_vector_default(
    context: Context,
    declared_type: Seq<char>,
    operations: Option<Seq<OperationView>>,
)
    requires
        is_vector_type(declared_type),
        match operations {
            Some(operations) => context.spec_update(operations).format is None,
            None => context.format is None,
        },
    ensures
        resolved_options(context, Some(declared_type), operations).1 == DisplayFormat::Binary,
{
}

/// The signals of one declaration are shown alike: what two signals of one
/// type and with one comment contribute differs in the name only.
pub proof fn lemma_names_share_options(
    context: Context,
    first: Seq<char>,
    second: Seq<char>,
    declared_type: Option<Seq<char>>,
    operations: Option<Seq<OperationView>>,
    override_omit: bool,
)
    requires
        first.len() > 0,
        second.len() > 0,
    ensures
        signal_directives(context, first, declared_type, operations, override_omit).len()
            == signal_directives(context, second, declared_type, operations, override_omit).len(),
        signal_directives(context, first, declared_type, operations, override_omit).len() == 1
            ==> {
            let a = signal_directives(context, first, declared_type, operations, override_omit)[0];
            let b = signal_directives(context, second, declared_type, operations, override_omit)[0];
            &&& a matches DirectiveView::Show { name: shown, color, format }
            &&& shown == first
            &&& b == (DirectiveView::Show { name: second, color, format })
        },
{
}

/// While the context omits, a declaration contributes nothing, unless its
/// own comment restores.
pub proof fn lemma_omitted_declaration_gives_nothing(context: Context, signal: SignalView)
    requires
        context.omit,
        signal.comment matches Some(text) ==> forall|i: int|
            0 <= i < spec_parse_comment(text).len() ==> !restores(
                #[trigger] spec_parse_comment(text)[i],
            ),
    ensures
        part_directives(context, PartView::Signal(signal)) == Seq::<DirectiveView>::empty(),
{
    if let Some(text) = signal.comment {
        lemma_omit_persists(context, spec_parse_comment(text));
    }
}

/// A comment that adds no signal and does not restore leaves an omitting
/// context omitting.
pub proof fn lemma_omit_outlasts_comment(context: Context, comment: Seq<char>)
    requires
        context.omit,
        forall|i: int|
            0 <= i < spec_parse_comment(comment).len() ==> !restores(
                #[trigger] spec_parse_comment(comment)[i],
            ),
    ensures
        part_context(context, PartView::Comment(comment)).omit,
{
    lemma_omit_persists(context, spec_parse_comment(comment));
}

/// Resolves one signal and appends its directive, unless it is omitted.
pub fn add_signal(
    generator: &mut TclGenerator,
    signal: String,
    signal_type: Option<&str>,
    operations: Option<&[Operation]>,
    context: &Context,
    override_omit: bool,
)
    ensures
        final(generator).spec_prefix() == old(generator).spec_prefix(),
        final(generator).spec_directives() == old(generator).spec_directives() + signal_directives(
            *context,
            signal@,
            text_view(signal_type),
            operations_view(operations),
            override_omit,
        ),
{
    let scoped = match operations {
        Some(operations) => context.fork(operations),
        None => *context,
    };
    let (color, format, omit) = scoped.resolve(signal_type);
    if override_omit || !omit {
        generator.add_signal(signal, color, Some(format));
        assert(generator.spec_directives() =~= old(generator).spec_directives() + seq![
            directive_for(signal@, color, Some(format)),
        ]);
    } else {
        assert(generator.spec_directives() =~= old(generator).spec_directives()
            + Seq::<DirectiveView>::empty());
    }
}

/// Appends one empty row for every operation that asks for one.
fn add_blank_rows(generator: &mut TclGenerator, operations: &[Operation])
    ensures
        final(generator).spec_prefix() == old(generator).spec_prefix(),
        final(generator).spec_directives() == old(generator).spec_directives() + blank_rows(
            operation_views(operations@),
        ),
{
    let ghost views = operation_views(operations@);
    let n = operations.len();
    let mut i: usize = 0;
    assert(views.take(0) =~= Seq::<OperationView>::empty());
    assert(generator.spec_directives() =~= old(generator).spec_directives() + blank_rows(
        views.take(0),
    ));
    while i < n
        invariant
            n == operations@.len(),
            i <= n,
            views == operation_views(operations@),
            generator.spec_prefix() == old(generator).spec_prefix(),
            generator.spec_directives() == old(generator).spec_directives() + blank_rows(
                views.take(i as int),
            ),
        decreases n - i,
    {
        proof {
            let next = views.take(i + 1);
            assert(next.drop_last() =~= views.take(i as int));
            assert(next.last() == operations@[i as int]@);
        }
        match &operations[i] {
            Operation::AddEmpty => {
                generator.add_empty();
                assert(generator.spec_directives() =~= old(generator).spec_directives()
                    + blank_rows(views.take(i + 1)));
            },
            _ => {},
        }
        i = i + 1;
    }
    assert(views.take(n as int) =~= views);
}

/// Takes one part of an architecture: appends its directives to `generator`
/// and moves `context` behind it.
pub fn walk_part(generator: &mut TclGenerator, context: &mut Context, part: &ParsedArchitecturePart)
    ensures
        final(generator).spec_prefix() == old(generator).spec_prefix(),
        final(generator).spec_directives() == old(generator).spec_directives() + part_directives(
            *old(context),
            part@,
        ),
        *final(context) == part_context(*old(context), part@),
{
    match part {
        ParsedArchitecturePart::Comment(comment) => {
            let operations = CommentParser::parse_comment(comment.as_str());
            let n = operations.len();
            let ghost views = operation_views(operations@);
            if n > 0 {
                if let Operation::AddSignal(name) = &operations[0] {
                    let rest = vstd::slice::slice_subrange(operations.as_slice(), 1, n);
                    assert(operation_views(rest@) =~= views.skip(1));
                    add_signal(generator, name.clone(), None, Some(rest), context, true);
                    return ;
                }
            }
            add_blank_rows(generator, operations.as_slice());
            context.update(operations.as_slice());
        },
        ParsedArchitecturePart::Signal(signal) => {
            match signal.comment() {
                Some(comment) => {
                    let operations = CommentParser::parse_comment(comment);
                    add_signal(
                        generator,
                        signal.name().to_owned(),
                        Some(signal.signal_type()),
                        Some(operations.as_slice()),
                        context,
                        false,
                    );
                },
                None => {
                    add_signal(
                        generator,
                        signal.name().to_owned(),
                        Some(signal.signal_type()),
                        None,
                        context,
                        false,
                    );
                },
            }
        },
    }
}

/// Walks the parts of an architecture from the zero context on and appends
/// their directives to `generator`.
pub fn walk_parts(generator: &mut TclGenerator, parts: &Vec<ParsedArchitecturePart>)
    ensures
        final(generator).spec_prefix() == old(generator).spec_prefix(),
        final(generator).spec_directives() == old(generator).spec_directives() + walk_directives(
            part_views(parts@),
        ),
{
    let ghost views = part_views(parts@);
    let mut context = Context::new();
    let n = parts.len();
    let mut i: usize = 0;
    assert(views.take(0) =~= Seq::<PartView>::empty());
    assert(generator.spec_directives() =~= old(generator).spec_directives() + walk_directives(
        views.take(0),
    ));
    while i < n
        invariant
            n == parts@.len(),
            i <= n,
            views == part_views(parts@),
            generator.spec_prefix() == old(generator).spec_prefix(),
            context == walk_context(views.take(i as int)),
            generator.spec_directives() == old(generator).spec_directives() + walk_directives(
                views.take(i as int),
            ),
        decreases n - i,
    {
        walk_part(generator, &mut context, &parts[i]);
        proof {
            let next = views.take(i + 1);
            assert(next.drop_last() =~= views.take(i as int));
            assert(next.last() == parts@[i as int]@);
            assert(generator.spec_directives() =~= old(generator).spec_directives()
                + walk_directives(next));
        }
        i = i + 1;
    }
    assert(views.take(n as int) =~= views);
}

/// Writes the script that shows the signals of `entity`.
pub fn generate_tcl(entity: ParsedEntity) -> (script: Result<String, LookupError>)
    ensures
        match script {
            Ok(text) => spec_generate_tcl(entity@) == Ok::<Seq<char>, LookupError>(text@),
            Err(error) => spec_generate_tcl(entity@) == Err::<Seq<char>, LookupError>(error),
        },
{
    script_of(&entity)
}

/// Writes the script of the first entity called `testbench`.
pub fn generate_for(entities: &Vec<ParsedEntity>, testbench: &str) -> (script: Result<
    String,
    LookupError,
>)
    ensures
        match script {
            Ok(text) => spec_generate_for(entity_views(entities@), testbench@) == Ok::<
                Seq<char>,
                LookupError,
            >(text@),
            Err(error) => spec_generate_for(entity_views(entities@), testbench@) == Err::<
                Seq<char>,
                LookupError,
            >(error),
        },
{
    let at = FileParser::find_entity(entities, testbench);
    if at < entities.len() {
        script_of(&entities[at])
    } else {
        Err(LookupError::EntityNotPresent)
    }
}

/// Writes the script that shows the signals of `entity`.
fn script_of(entity: &ParsedEntity) -> (script: Result<String, LookupError>)
    ensures
        match script {
            Ok(text) => spec_generate_tcl(entity@) == Ok::<Seq<char>, LookupError>(text@),
            Err(error) => spec_generate_tcl(entity@) == Err::<Seq<char>, LookupError>(error),
        },
{
    match entity.architecture() {
        Some(architecture) => {
            let prefix = "top.".to_owned().concat(entity.name()).concat(".");
            let mut generator = TclGenerator::new(prefix);
            walk_parts(&mut generator, architecture.parts());
            assert(generator.spec_directives() =~= walk_directives(architecture@.parts));
            Ok(generator.generate())
        },
        None => Err(LookupError::EntityWithoutArchitecture),
    }
}

} // verus!
