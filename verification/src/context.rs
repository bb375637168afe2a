//! The display context: the color, the format and the omit flag in effect at
//! one point of an architecture body.

use crate::comment_parser::{operation_views, ContextUpdate, Operation, OperationView};
use crate::display_elements::{DisplayColor, DisplayFormat};
use crate::text::{char_is_whitespace, has_prefix, is_whitespace, match_prefix, to_chars};
use vstd::prelude::*;

verus! {

/// The display settings in effect. A color or format that is `None` is
/// inherited from the viewer; `omit` is always set, one way or the other.
#[derive(Eq, PartialEq, Clone, Copy, Debug, Structural)]
pub struct Context {
    pub color: Option<DisplayColor>,
    pub format: Option<DisplayFormat>,
    pub omit: bool,
}

/// Whether a declared type is a vector of logic values: the type mark
/// `std_logic_vector`, alone or followed by a constraint.
pub open spec fn is_vector_type(declared: Seq<char>) -> bool {
    let mark = "std_logic_vector"@;
    has_prefix(declared, mark) && (declared.len() == mark.len() || declared[mark.len() as int]
        == '(' || is_whitespace(declared[mark.len() as int]))
}

impl Context {
    /// The context at the start of a body: nothing set, nothing omitted.
    pub open spec fn zero() -> Context {
        Context { color: None, format: None, omit: false }
    }

    /// The context after one change.
    pub open spec fn apply(self, update: ContextUpdate) -> Context {
        match update {
            ContextUpdate::Reset => Context::zero(),
            ContextUpdate::SetOmit(omit) => Context { omit, ..self },
            ContextUpdate::UpdateColor(color) => Context { color, ..self },
            ContextUpdate::UpdateFormat(format) => Context { format: Some(format), ..self },
        }
    }

    /// The context after one operation. Only context updates change it.
    pub open spec fn apply_operation(self, op: OperationView) -> Context {
        match op {
            OperationView::UpdateContext(update) => self.apply(update),
            _ => self,
        }
    }

    /// The context after a list of operations, applied first to last.
    pub open spec fn spec_update(self, ops: Seq<OperationView>) -> Context {
        ops.fold_left(self, |ctx: Context, op: OperationView| ctx.apply_operation(op))
    }

    /// What a signal is shown with: the color if one is set, the format, and
    /// the omit flag. Without a format a vector type is shown in binary and
    /// anything else in decimal.
    pub open spec fn spec_resolve(self, declared_type: Option<Seq<char>>) -> (
        Option<DisplayColor>,
        DisplayFormat,
        bool,
    ) {
        let format = match self.format {
            Some(format) => format,
            None => if declared_type is Some && is_vector_type(declared_type->0) {
                DisplayFormat::Binary
            } else {
                DisplayFormat::Decimal
            },
        };
        (self.color, format, self.omit)
    }

    /// The context at the start of a body.
    pub fn new() -> (ctx: Context)
        ensures
            ctx == Context::zero(),
    {
        Context { color: None, format: None, omit: false }
    }

    /// Applies `operations` in order. Operations that are no context update
    /// leave the context as it is.
    pub fn update(&mut self, operations: &[Operation])
        ensures
            *final(self) == old(self).spec_update(operation_views(operations@)),
    {
        let ghost views = operation_views(operations@);
        let n = operations.len();
        let mut i: usize = 0;
        assert(views.take(0) =~= Seq::<OperationView>::empty());
        while i < n
            invariant
                n == operations@.len(),
                views == operation_views(operations@),
                i <= n,
                *self == old(self).spec_update(views.take(i as int)),
            decreases n - i,
        {
            proof {
                let next = views.take(i + 1);
                assert(next.drop_last() =~= views.take(i as int));
                assert(next.last() == operations@[i as int]@);
            }
            match &operations[i] {
                Operation::UpdateContext(update) => match update {
                    ContextUpdate::Reset => {
                        self.color = None;
                        self.format = None;
                        self.omit = false;
                    },
                    ContextUpdate::SetOmit(omit) => {
                        self.omit = *omit;
                    },
                    ContextUpdate::UpdateColor(color) => {
                        self.color = *color;
                    },
                    ContextUpdate::UpdateFormat(format) => {
                        self.format = Some(*format);
                    },
                },
                _ => {},
            }
            i = i + 1;
        }
        assert(views.take(n as int) =~= views);
    }

    /// The context that `operations` lead to from this one. This context
    /// stays as it is.
    pub fn fork(&self, operations: &[Operation]) -> (forked: Context)
        ensures
            forked == self.spec_update(operation_views(operations@)),
    {
        let mut forked = *self;
        forked.update(operations);
        forked
    }

    /// The three settings as they stand.
    pub fn decompose(&self) -> (parts: (Option<DisplayColor>, Option<DisplayFormat>, bool))
        ensures
            parts == (self.color, self.format, self.omit),
    {
        (self.color, self.format, self.omit)
    }

    /// What a signal of type `declared_type` is shown with in this context.
    pub fn resolve(&self, declared_type: Option<&str>) -> (resolved: (
        Option<DisplayColor>,
        DisplayFormat,
        bool,
    ))
        ensures
            resolved == self.spec_resolve(
                match declared_type {
                    Some(text) => Some(text@),
                    None => None,
                },
            ),
    {
        let format = match self.format {
            Some(format) => format,
            None => {
                let vector = match declared_type {
                    Some(text) => names_vector_type(text),
                    None => false,
                };
                if vector {
                    DisplayFormat::Binary
                } else {
                    DisplayFormat::Decimal
                }
            },
        };
        (self.color, format, self.omit)
    }
}

/// Whether `declared` is a vector of logic values.
pub fn names_vector_type(declared: &str) -> (r: bool)
    ensures
        r == is_vector_type(declared@),
{
    let chars = to_chars(declared);
    match match_prefix(&chars, "std_logic_vector") {
        Some(k) => k == chars.len() || chars[k] == '(' || char_is_whitespace(chars[k]),
        None => false,
    }
}

/// A reset leads to the zero context from every context, and a second reset
/// changes nothing.
pub proof fn lemma_reset_is_absorbing(ctx: Context)
    ensures
        ctx.spec_update(seq![OperationView::UpdateContext(ContextUpdate::Reset)])
            == Context::zero(),
        ctx.spec_update(seq![OperationView::UpdateContext(ContextUpdate::Reset)]).spec_update(
            seq![OperationView::UpdateContext(ContextUpdate::Reset)],
        ) == ctx.spec_update(seq![OperationView::UpdateContext(ContextUpdate::Reset)]),
{
    lemma_update_one(ctx, OperationView::UpdateContext(ContextUpdate::Reset));
    lemma_update_one(Context::zero(), OperationView::UpdateContext(ContextUpdate::Reset));
}

/// Of two color updates in a row the second decides the color.
pub proof fn lemma_last_color_wins(
    ctx: Context,
    first: Option<DisplayColor>,
    second: Option<DisplayColor>,
)
    ensures
        ctx.spec_update(
            seq![
                OperationView::UpdateContext(ContextUpdate::UpdateColor(first)),
                OperationView::UpdateContext(ContextUpdate::UpdateColor(second)),
            ],
        ) == (Context { color: second, ..ctx }),
{
    let a = OperationView::UpdateContext(ContextUpdate::UpdateColor(first));
    let b = OperationView::UpdateContext(ContextUpdate::UpdateColor(second));
    lemma_update_one(ctx, a);
    lemma_update_push(ctx, seq![a], b);
    assert(seq![a].push(b) =~= seq![a, b]);
}

/// Updating by one operation applies it.
pub proof fn lemma_update_one(ctx: Context, op: OperationView)
    ensures
        ctx.spec_update(seq![op]) == ctx.apply_operation(op),
{
    lemma_update_push(ctx, Seq::empty(), op);
    assert(Seq::<OperationView>::empty().push(op) =~= seq![op]);
}

/// Updating by a list and one more operation applies that operation last.
pub proof fn lemma_update_push(ctx: Context, ops: Seq<OperationView>, op: OperationView)
    ensures
        ctx.spec_update(ops.push(op)) == ctx.spec_update(ops).apply_operation(op),
{
    assert(ops.push(op).drop_last() =~= ops);
}

/// Updating by two lists in a row is updating by their concatenation.
pub proof fn lemma_update_concat(ctx: Context, first: Seq<OperationView>, second: Seq<OperationView>)
    ensures
        ctx.spec_update(first + second) == ctx.spec_update(first).spec_update(second),
    decreases second.len(),
{
    if second.len() == 0 {
        assert(first + second =~= first);
    } else {
        lemma_update_concat(ctx, first, second.drop_last());
        assert((first + second).drop_last() =~= first + second.drop_last());
        assert((first + second).last() == second.last());
    }
}

/// Whether an operation shows signals again: a reset, or an omit flag set to
/// false.
pub open spec fn restores(op: OperationView) -> bool {
    op == OperationView::UpdateContext(ContextUpdate::Reset) || op == OperationView::UpdateContext(
        ContextUpdate::SetOmit(false),
    )
}

/// A context that omits goes on omitting until an operation restores.
pub proof fn lemma_omit_persists(ctx: Context, ops: Seq<OperationView>)
    requires
        ctx.omit,
        forall|i: int| 0 <= i < ops.len() ==> !restores(#[trigger] ops[i]),
    ensures
        ctx.spec_update(ops).omit,
    decreases ops.len(),
{
    if ops.len() > 0 {
        let front = ops.drop_last();
        assert forall|i: int| 0 <= i < front.len() implies !restores(#[trigger] front[i]) by {
            assert(front[i] == ops[i]);
        }
        lemma_omit_persists(ctx, front);
        assert(!restores(ops[ops.len() - 1]));
    }
}

} // verus!
