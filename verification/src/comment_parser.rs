//! The annotation language written in comments: one comment text becomes an
//! ordered list of operations.
//!
//! A comment is cut at every newline and comma. Each piece is trimmed and read
//! on its own; a piece that is no instruction is left out.

use crate::display_elements::{DisplayColor, DisplayFormat};
use crate::text::{has_prefix, match_prefix, str_equals, to_chars, trim, char_is_whitespace,
    is_whitespace, lemma_trim_bounds};
use vstd::prelude::*;
use vstd::string::StrSliceExecFns;

verus! {

/// One instruction of an annotation.
#[derive(Debug, Clone, PartialEq, Eq)]
pub enum Operation {
    /// Changes the display context.
    UpdateContext(ContextUpdate),
    /// Inserts an empty row.
    AddEmpty,
    /// Shows a signal that no declaration names.
    AddSignal(String),
}

/// A change to the display context.
#[derive(Debug, Clone, Copy, PartialEq, Eq)]
pub enum ContextUpdate {
    /// Sets the color; `None` clears it.
    UpdateColor(Option<DisplayColor>),
    /// Sets the numeric format.
    UpdateFormat(DisplayFormat),
    /// Sets whether the following signals are left out.
    SetOmit(bool),
    /// Clears color and format and shows signals again.
    Reset,
}

/// The mathematical value of an [`Operation`].
pub enum OperationView {
    UpdateContext(ContextUpdate),
    AddEmpty,
    AddSignal(Seq<char>),
}

impl View for Operation {
    type V = OperationView;

    open spec fn view(&self) -> OperationView {
        match *self {
            Operation::UpdateContext(update) => OperationView::UpdateContext(update),
            Operation::AddEmpty => OperationView::AddEmpty,
            Operation::AddSignal(name) => OperationView::AddSignal(name@),
        }
    }
}

/// The values of a list of operations, in order.
pub open spec fn operation_views(ops: Seq<Operation>) -> Seq<OperationView> {
    ops.map_values(|op: Operation| op@)
}

/// Whether `c` ends an instruction.
pub open spec fn is_separator(c: char) -> bool {
    c == '\n' || c == ','
}

/// The number of characters of `s` before its first separator.
pub open spec fn first_token_len(s: Seq<char>) -> nat
    decreases s.len(),
{
    if s.len() == 0 || is_separator(s[0]) {
        0
    } else {
        1 + first_token_len(s.skip(1))
    }
}

/// The pieces that the separators cut `s` into. There is one more piece than
/// there are separators; a piece may be empty.
pub open spec fn split_tokens(s: Seq<char>) -> Seq<Seq<char>>
    decreases s.len(),
{
    let n = first_token_len(s) as int;
    if n >= s.len() {
        seq![s]
    } else {
        seq![s.take(n)] + split_tokens(s.skip(n + 1))
    }
}

/// The format that a word names; a word that names none stands for decimal.
pub open spec fn format_of(word: Seq<char>) -> DisplayFormat {
    if word == "hex"@ {
        DisplayFormat::Hex
    } else if word == "decimal"@ {
        DisplayFormat::Decimal
    } else if word == "signed decimal"@ {
        DisplayFormat::SignedDecimal
    } else if word == "binary"@ {
        DisplayFormat::Binary
    } else {
        DisplayFormat::Decimal
    }
}

/// The color that a word names, if it names one. Color words are lower case.
pub open spec fn color_of(word: Seq<char>) -> Option<DisplayColor> {
    if word == "normal"@ {
        Some(DisplayColor::Normal)
    } else if word == "red"@ {
        Some(DisplayColor::Red)
    } else if word == "orange"@ {
        Some(DisplayColor::Orange)
    } else if word == "yellow"@ {
        Some(DisplayColor::Yellow)
    } else if word == "green"@ {
        Some(DisplayColor::Green)
    } else if word == "blue"@ {
        Some(DisplayColor::Blue)
    } else if word == "indigo"@ {
        Some(DisplayColor::Indigo)
    } else if word == "violet"@ {
        Some(DisplayColor::Violet)
    } else if word == "cycle"@ {
        Some(DisplayColor::Cycle)
    } else {
        None
    }
}

/// The operation that a trimmed piece of a comment stands for, if any.
///
/// `omit`, `empty` and `reset` are whole words. `add signal `, `format ` and
/// `color ` are followed by their argument, which is taken as it stands. A
/// format word that names no format gives decimal; a color word that names
/// no color makes the piece no instruction.
pub open spec fn classify_token(token: Seq<char>) -> Option<OperationView> {
    if token == "omit"@ {
        Some(OperationView::UpdateContext(ContextUpdate::SetOmit(true)))
    } else if token == "empty"@ {
        Some(OperationView::AddEmpty)
    } else if token == "reset"@ {
        Some(OperationView::UpdateContext(ContextUpdate::Reset))
    } else if has_prefix(token, "add signal "@) {
        Some(OperationView::AddSignal(token.skip("add signal "@.len() as int)))
    } else if has_prefix(token, "format "@) {
        Some(
            OperationView::UpdateContext(
                ContextUpdate::UpdateFormat(format_of(token.skip("format "@.len() as int))),
            ),
        )
    } else if has_prefix(token, "color "@) {
        match color_of(token.skip("color "@.len() as int)) {
            Some(color) => Some(
                OperationView::UpdateContext(ContextUpdate::UpdateColor(Some(color))),
            ),
            None => None,
        }
    } else {
        None
    }
}

/// The operations that one piece of a comment contributes: one or none.
pub open spec fn token_operations(piece: Seq<char>) -> Seq<OperationView> {
    match classify_token(trim(piece)) {
        Some(op) => seq![op],
        None => Seq::empty(),
    }
}

/// The operations of a list of pieces, in order.
pub open spec fn operations_of(pieces: Seq<Seq<char>>) -> Seq<OperationView>
    decreases pieces.len(),
{
    if pieces.len() == 0 {
        Seq::empty()
    } else {
        token_operations(pieces[0]) + operations_of(pieces.drop_first())
    }
}

/// The operations that a comment holds, in the order in which it names them.
pub open spec fn spec_parse_comment(comment: Seq<char>) -> Seq<OperationView> {
    operations_of(split_tokens(comment))
}

/// A run of characters without a separator, followed by a separator or by
/// the end, is the first piece.
pub proof fn lemma_first_token_len(s: Seq<char>, n: int)
    requires
        0 <= n <= s.len(),
        forall|i: int| 0 <= i < n ==> !is_separator(#[trigger] s[i]),
        n < s.len() ==> is_separator(s[n]),
    ensures
        first_token_len(s) == n,
    decreases n,
{
    if n > 0 {
        let t = s.skip(1);
        assert forall|i: int| 0 <= i < n - 1 implies !is_separator(#[trigger] t[i]) by {
            assert(t[i] == s[i + 1]);
        }
        if n < s.len() {
            assert(t[n - 1] == s[n]);
        }
        lemma_first_token_len(t, n - 1);
    }
}

/// What a comment holds from `start` on is what its first piece from there
/// holds, followed by what the comment holds behind the separator.
pub proof fn lemma_parse_step(s: Seq<char>, start: int, end: int)
    requires
        0 <= start <= end <= s.len(),
        forall|i: int| start <= i < end ==> !is_separator(#[trigger] s[i]),
        end < s.len() ==> is_separator(s[end]),
    ensures
        spec_parse_comment(s.skip(start)) == token_operations(s.subrange(start, end)) + (if end
            < s.len() {
            spec_parse_comment(s.skip(end + 1))
        } else {
            Seq::empty()
        }),
{
    let rest = s.skip(start);
    let n = end - start;
    assert forall|i: int| 0 <= i < n implies !is_separator(#[trigger] rest[i]) by {
        assert(rest[i] == s[start + i]);
    }
    if end < s.len() {
        assert(rest[n] == s[end]);
    }
    lemma_first_token_len(rest, n);
    if end < s.len() {
        let head = seq![rest.take(n)];
        let tail = split_tokens(rest.skip(n + 1));
        assert(rest.take(n) =~= s.subrange(start, end));
        assert(rest.skip(n + 1) =~= s.skip(end + 1));
        let pieces = head + tail;
        assert(split_tokens(rest) == pieces);
        assert(pieces[0] == rest.take(n));
        assert(pieces.drop_first() =~= tail);
    } else {
        assert(rest =~= s.subrange(start, end));
        let pieces = seq![rest];
        assert(split_tokens(rest) == pieces);
        assert(pieces[0] == rest);
        assert(pieces.drop_first() =~= Seq::<Seq<char>>::empty());
        assert(operations_of(pieces.drop_first()) =~= Seq::<OperationView>::empty());
    }
}

/// A comment none of whose pieces is an instruction holds no operation.
pub proof fn lemma_unrecognized_pieces_give_nothing(pieces: Seq<Seq<char>>)
    requires
        forall|i: int| 0 <= i < pieces.len() ==> classify_token(trim(#[trigger] pieces[i])) is None,
    ensures
        operations_of(pieces) == Seq::<OperationView>::empty(),
    decreases pieces.len(),
{
    if pieces.len() > 0 {
        let tail = pieces.drop_first();
        assert forall|i: int| 0 <= i < tail.len() implies classify_token(
            trim(#[trigger] tail[i]),
        ) is None by {
            assert(tail[i] == pieces[i + 1]);
        }
        lemma_unrecognized_pieces_give_nothing(tail);
        assert(classify_token(trim(pieces[0])) is None);
    }
}

/// A comment without a recognized instruction parses to the empty list.
pub proof fn lemma_unrecognized_comment_is_empty(comment: Seq<char>)
    requires
        forall|i: int|
            0 <= i < split_tokens(comment).len() ==> classify_token(
                trim(#[trigger] split_tokens(comment)[i]),
            ) is None,
    ensures
        spec_parse_comment(comment) == Seq::<OperationView>::empty(),
{
    lemma_unrecognized_pieces_give_nothing(split_tokens(comment));
}

/// Reads annotations out of comment text.
pub struct CommentParser {}

impl CommentParser {
    /// Reads the operations that `comment` holds, in order.
    pub fn parse_comment(comment: &str) -> (ops: Vec<Operation>)
        ensures
            operation_views(ops@) == spec_parse_comment(comment@),
    {
        let chars = to_chars(comment);
        let n = chars.len();
        let mut ops: Vec<Operation> = Vec::new();
        let mut start: usize = 0;
        let mut done = false;
        assert(chars@.skip(0) =~= chars@);
        while !done
            invariant
                chars@ == comment@,
                n == chars@.len(),
                start <= n,
                !done ==> operation_views(ops@) + spec_parse_comment(chars@.skip(start as int))
                    == spec_parse_comment(chars@),
                done ==> operation_views(ops@) == spec_parse_comment(chars@),
            decreases n - start + (if done { 0int } else { 1int }),
        {
            let mut end = start;
            while end < n && !(chars[end] == '\n' || chars[end] == ',')
                invariant
                    n == chars@.len(),
                    start <= end <= n,
                    forall|i: int| start <= i < end ==> !is_separator(#[trigger] chars@[i]),
                decreases n - end,
            {
                end = end + 1;
            }
            let mut from = start;
            while from < end && char_is_whitespace(chars[from])
                invariant
                    n == chars@.len(),
                    start <= from <= end <= n,
                    forall|i: int| start <= i < from ==> is_whitespace(#[trigger] chars@[i]),
                decreases end - from,
            {
                from = from + 1;
            }
            let mut to = end;
            while from < to && char_is_whitespace(chars[to - 1])
                invariant
                    n == chars@.len(),
                    start <= from <= to <= end <= n,
                    forall|i: int| to <= i < end ==> is_whitespace(#[trigger] chars@[i]),
                decreases to - from,
            {
                to = to - 1;
            }
            let token = comment.substring_char(from, to);
            let parsed = Self::parse_token(token);
            proof {
                let piece = chars@.subrange(start as int, end as int);
                assert forall|i: int| 0 <= i < from - start implies is_whitespace(
                    #[trigger] piece[i],
                ) by {
                    assert(piece[i] == chars@[start + i]);
                }
                assert forall|i: int| to - start <= i < piece.len() implies is_whitespace(
                    #[trigger] piece[i],
                ) by {
                    assert(piece[i] == chars@[start + i]);
                }
                if from < to {
                    assert(piece[from - start] == chars@[from as int]);
                    assert(piece[to - start - 1] == chars@[to - 1]);
                }
                lemma_trim_bounds(piece, from - start, to - start);
                assert(piece.subrange(from - start, to - start) =~= chars@.subrange(
                    from as int,
                    to as int,
                ));
                assert(token@ == trim(piece));
                lemma_parse_step(chars@, start as int, end as int);
            }
            let ghost before = operation_views(ops@);
            match parsed {
                Some(op) => {
                    ops.push(op);
                    assert(operation_views(ops@) =~= before + seq![op@]);
                },
                None => {
                    assert(operation_views(ops@) =~= before + Seq::<OperationView>::empty());
                },
            }
            assert(operation_views(ops@) == before + token_operations(
                chars@.subrange(start as int, end as int),
            ));
            if end < n {
                assert(before + (token_operations(chars@.subrange(start as int, end as int))
                    + spec_parse_comment(chars@.skip(end + 1))) =~= (before + token_operations(
                    chars@.subrange(start as int, end as int),
                )) + spec_parse_comment(chars@.skip(end + 1)));
                start = end + 1;
            } else {
                assert(before + (token_operations(chars@.subrange(start as int, end as int))
                    + Seq::<OperationView>::empty()) =~= before + token_operations(
                    chars@.subrange(start as int, end as int),
                ));
                done = true;
            }
        }
        ops
    }

    /// Reads one trimmed piece of a comment.
    pub fn parse_token(token: &str) -> (r: Option<Operation>)
        ensures
            match r {
                Some(op) => classify_token(token@) == Some(op@),
                None => classify_token(token@) is None,
            },
    {
        if str_equals(token, "omit") {
            return Some(Operation::UpdateContext(ContextUpdate::SetOmit(true)));
        }
        if str_equals(token, "empty") {
            return Some(Operation::AddEmpty);
        }
        if str_equals(token, "reset") {
            return Some(Operation::UpdateContext(ContextUpdate::Reset));
        }
        let chars = to_chars(token);
        let n = chars.len();
        if let Some(k) = match_prefix(&chars, "add signal ") {
            let name = token.substring_char(k, n);
            assert(name@ =~= token@.skip(k as int));
            return Some(Operation::AddSignal(name.to_owned()));
        }
        if let Some(k) = match_prefix(&chars, "format ") {
            let word = token.substring_char(k, n);
            assert(word@ =~= token@.skip(k as int));
            return Some(
                Operation::UpdateContext(ContextUpdate::UpdateFormat(Self::parse_format(word))),
            );
        }
        if let Some(k) = match_prefix(&chars, "color ") {
            let word = token.substring_char(k, n);
            assert(word@ =~= token@.skip(k as int));
            return match Self::parse_color(word) {
                Some(color) => Some(
                    Operation::UpdateContext(ContextUpdate::UpdateColor(Some(color))),
                ),
                None => None,
            };
        }
        None
    }

    /// The format that `format` names; decimal where it names none.
    pub fn parse_format(format: &str) -> (r: DisplayFormat)
        ensures
            r == format_of(format@),
    {
        if str_equals(format, "hex") {
            DisplayFormat::Hex
        } else if str_equals(format, "decimal") {
            DisplayFormat::Decimal
        } else if str_equals(format, "signed decimal") {
            DisplayFormat::SignedDecimal
        } else if str_equals(format, "binary") {
            DisplayFormat::Binary
        } else {
            DisplayFormat::Decimal
        }
    }

    /// The color that `color` names, if it names one.
    pub fn parse_color(color: &str) -> (r: Option<DisplayColor>)
        ensures
            r == color_of(color@),
    {
        if str_equals(color, "normal") {
            Some(DisplayColor::Normal)
        } else if str_equals(color, "red") {
            Some(DisplayColor::Red)
        } else if str_equals(color, "orange") {
            Some(DisplayColor::Orange)
        } else if str_equals(color, "yellow") {
            Some(DisplayColor::Yellow)
        } else if str_equals(color, "green") {
            Some(DisplayColor::Green)
        } else if str_equals(color, "blue") {
            Some(DisplayColor::Blue)
        } else if str_equals(color, "indigo") {
            Some(DisplayColor::Indigo)
        } else if str_equals(color, "violet") {
            Some(DisplayColor::Violet)
        } else if str_equals(color, "cycle") {
            Some(DisplayColor::Cycle)
        } else {
            None
        }
    }
}

} // verus!
