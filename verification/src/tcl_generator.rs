//! The viewer script: an ordered list of display directives and the text
//! that they are written out as.

use crate::builder::{append_str, builder_bytes, into_string, new_builder};
use crate::display_elements::{DisplayColor, DisplayFormat};
use string_builder::Builder;
use vstd::prelude::*;
use vstd::utf8::{encode_utf8, encode_utf8_decode_utf8, encode_utf8_valid_utf8};

verus! {

/// One line of the display: an empty row, or a signal with what it is shown
/// with.
#[derive(Debug, Clone, PartialEq, Eq)]
pub enum Directive {
    Blank,
    Show { name: String, color: Option<DisplayColor>, format: Option<DisplayFormat> },
}

/// The mathematical value of a [`Directive`].
pub enum DirectiveView {
    Blank,
    Show { name: Seq<char>, color: Option<DisplayColor>, format: Option<DisplayFormat> },
}

impl View for Directive {
    type V = DirectiveView;

    open spec fn view(&self) -> DirectiveView {
        match *self {
            Directive::Blank => DirectiveView::Blank,
            Directive::Show { name, color, format } => DirectiveView::Show {
                name: name@,
                color,
                format,
            },
        }
    }
}

/// The values of a list of directives, in order.
pub open spec fn directive_views(directives: Seq<Directive>) -> Seq<DirectiveView> {
    directives.map_values(|d: Directive| d@)
}

/// The directive that shows `name`. A signal without a name is an empty row.
pub open spec fn directive_for(
    name: Seq<char>,
    color: Option<DisplayColor>,
    format: Option<DisplayFormat>,
) -> DirectiveView {
    if name.len() == 0 {
        DirectiveView::Blank
    } else {
        DirectiveView::Show { name, color, format }
    }
}

/// The commands that every script begins with.
pub open spec fn script_header() -> Seq<char> {
    "gtkwave::nop\n"@ + "gtkwave::/Edit/Set_Trace_Max_Hier 2\n"@
        + "gtkwave::/View/Show_Filled_High_Values 1\n"@ + "gtkwave::/View/Show_Wave_Highlight 1\n"@
        + "gtkwave::/View/Show_Mouseover 1\n"@
}

/// The command that every script ends with.
pub open spec fn script_footer() -> Seq<char> {
    "gtkwave::/Time/Zoom/Zoom_Best_Fit\n"@
}

/// The command that sets the color, where one is set.
pub open spec fn color_command(color: Option<DisplayColor>) -> Seq<char> {
    match color {
        Some(color) => "gtkwave::/Edit/Color_Format/"@ + color.spec_label() + "\n"@,
        None => Seq::empty(),
    }
}

/// The command that sets the format, where one is set.
pub open spec fn format_command(format: Option<DisplayFormat>) -> Seq<char> {
    match format {
        Some(format) => "gtkwave::/Edit/Data_Format/"@ + format.spec_label() + "\n"@,
        None => Seq::empty(),
    }
}

/// A command that takes the prefixed name of a signal in quotes.
pub open spec fn named_command(command: Seq<char>, prefix: Seq<char>, name: Seq<char>) -> Seq<
    char,
> {
    command + prefix + name + "\"\n"@
}

/// The commands of one directive. A signal is added and highlighted under
/// its prefixed name, given its color and format, and released again.
pub open spec fn render_directive(prefix: Seq<char>, directive: DirectiveView) -> Seq<char> {
    match directive {
        DirectiveView::Blank => "gtkwave::/Edit/Insert_Blank\n"@,
        DirectiveView::Show { name, color, format } => named_command(
            "gtkwave::addSignalsFromList \""@,
            prefix,
            name,
        ) + named_command("gtkwave::highlightSignalsFromList \""@, prefix, name) + color_command(
            color,
        ) + format_command(format) + "gtkwave::/Edit/UnHighlight_All\n"@,
    }
}

/// The commands of a list of directives, in order.
pub open spec fn render_directives(prefix: Seq<char>, directives: Seq<DirectiveView>) -> Seq<char>
    decreases directives.len(),
{
    if directives.len() == 0 {
        Seq::empty()
    } else {
        render_directives(prefix, directives.drop_last()) + render_directive(
            prefix,
            directives.last(),
        )
    }
}

/// The whole script: header, directives, footer.
pub open spec fn render_script(prefix: Seq<char>, directives: Seq<DirectiveView>) -> Seq<char> {
    script_header() + render_directives(prefix, directives) + script_footer()
}

/// The encoding of two texts in a row is the two encodings in a row.
pub proof fn lemma_encode_concat(first: Seq<char>, second: Seq<char>)
    ensures
        encode_utf8(first + second) == encode_utf8(first) + encode_utf8(second),
    decreases first.len(),
{
    if first.len() == 0 {
        assert(first + second =~= second);
        assert(encode_utf8(first) + encode_utf8(second) =~= encode_utf8(second));
    } else {
        lemma_encode_concat(first.drop_first(), second);
        assert((first + second).drop_first() =~= first.drop_first() + second);
        assert((first + second)[0] == first[0]);
        assert(encode_utf8(first + second) =~= encode_utf8(first) + encode_utf8(second));
    }
}

/// Appends `piece` to a builder that holds the encoding of `text`.
fn append_piece(builder: &mut Builder, piece: &str, Ghost(text): Ghost<Seq<char>>)
    requires
        builder_bytes(*old(builder)) == encode_utf8(text),
    ensures
        builder_bytes(*final(builder)) == encode_utf8(text + piece@),
{
    proof {
        lemma_encode_concat(text, piece@);
    }
    append_str(builder, piece);
}

/// The text of a builder that holds the encoding of `text`.
fn finish(builder: Builder, Ghost(text): Ghost<Seq<char>>) -> (r: String)
    requires
        builder_bytes(builder) == encode_utf8(text),
    ensures
        r@ == text,
{
    proof {
        encode_utf8_valid_utf8(text);
        encode_utf8_decode_utf8(text);
    }
    match into_string(builder) {
        Ok(s) => s,
        Err(_) => {
            assert(false);
            String::new()
        },
    }
}

/// Appends a command that takes the prefixed name of a signal.
fn append_named(
    builder: &mut Builder,
    command: &str,
    prefix: &str,
    name: &str,
    Ghost(text): Ghost<Seq<char>>,
)
    requires
        builder_bytes(*old(builder)) == encode_utf8(text),
    ensures
        builder_bytes(*final(builder)) == encode_utf8(
            text + named_command(command@, prefix@, name@),
        ),
{
    append_piece(builder, command, Ghost(text));
    append_piece(builder, prefix, Ghost(text + command@));
    append_piece(builder, name, Ghost(text + command@ + prefix@));
    append_piece(builder, "\"\n", Ghost(text + command@ + prefix@ + name@));
    assert(text + command@ + prefix@ + name@ + "\"\n"@ =~= text + named_command(
        command@,
        prefix@,
        name@,
    ));
}

/// Appends the command that sets the color, where one is set.
fn append_color(builder: &mut Builder, color: Option<DisplayColor>, Ghost(text): Ghost<Seq<char>>)
    requires
        builder_bytes(*old(builder)) == encode_utf8(text),
    ensures
        builder_bytes(*final(builder)) == encode_utf8(text + color_command(color)),
{
    match color {
        Some(color) => {
            let head = "gtkwave::/Edit/Color_Format/";
            append_piece(builder, head, Ghost(text));
            append_piece(builder, color.label(), Ghost(text + head@));
            append_piece(builder, "\n", Ghost(text + head@ + color.spec_label()));
            assert(text + head@ + color.spec_label() + "\n"@ =~= text + color_command(
                Some(color),
            ));
        },
        None => {
            assert(text + color_command(color) =~= text);
        },
    }
}

/// Appends the command that sets the format, where one is set.
fn append_format(
    builder: &mut Builder,
    format: Option<DisplayFormat>,
    Ghost(text): Ghost<Seq<char>>,
)
    requires
        builder_bytes(*old(builder)) == encode_utf8(text),
    ensures
        builder_bytes(*final(builder)) == encode_utf8(text + format_command(format)),
{
    match format {
        Some(format) => {
            let head = "gtkwave::/Edit/Data_Format/";
            append_piece(builder, head, Ghost(text));
            append_piece(builder, format.label(), Ghost(text + head@));
            append_piece(builder, "\n", Ghost(text + head@ + format.spec_label()));
            assert(text + head@ + format.spec_label() + "\n"@ =~= text + format_command(
                Some(format),
            ));
        },
        None => {
            assert(text + format_command(format) =~= text);
        },
    }
}

/// Appends the commands of one directive.
fn append_directive(
    builder: &mut Builder,
    prefix: &str,
    directive: &Directive,
    Ghost(text): Ghost<Seq<char>>,
)
    requires
        builder_bytes(*old(builder)) == encode_utf8(text),
    ensures
        builder_bytes(*final(builder)) == encode_utf8(text + render_directive(prefix@, directive@)),
{
    match directive {
        Directive::Blank => {
            append_piece(builder, "gtkwave::/Edit/Insert_Blank\n", Ghost(text));
        },
        Directive::Show { name, color, format } => {
            let ghost add = named_command("gtkwave::addSignalsFromList \""@, prefix@, name@);
            let ghost highlight = named_command(
                "gtkwave::highlightSignalsFromList \""@,
                prefix@,
                name@,
            );
            append_named(
                builder,
                "gtkwave::addSignalsFromList \"",
                prefix,
                name.as_str(),
                Ghost(text),
            );
            append_named(
                builder,
                "gtkwave::highlightSignalsFromList \"",
                prefix,
                name.as_str(),
                Ghost(text + add),
            );
            append_color(builder, *color, Ghost(text + add + highlight));
            append_format(builder, *format, Ghost(text + add + highlight + color_command(*color)));
            append_piece(
                builder,
                "gtkwave::/Edit/UnHighlight_All\n",
                Ghost(text + add + highlight + color_command(*color) + format_command(*format)),
            );
            assert(text + add + highlight + color_command(*color) + format_command(*format)
                + "gtkwave::/Edit/UnHighlight_All\n"@ =~= text + render_directive(
                prefix@,
                directive@,
            ));
        },
    }
}

/// Collects directives and writes them out as a script.
pub struct TclGenerator {
    signals: Vec<Directive>,
    signal_prefix: String,
}

impl TclGenerator {
    /// The directives collected so far.
    pub closed spec fn spec_directives(&self) -> Seq<DirectiveView> {
        directive_views(self.signals@)
    }

    /// The text put before every signal name.
    pub closed spec fn spec_prefix(&self) -> Seq<char> {
        self.signal_prefix@
    }

    /// A generator without directives.
    pub fn new(signal_prefix: String) -> (generator: Self)
        ensures
            generator.spec_prefix() == signal_prefix@,
            generator.spec_directives() == Seq::<DirectiveView>::empty(),
    {
        let generator = Self { signals: Vec::new(), signal_prefix };
        assert(generator.spec_directives() =~= Seq::<DirectiveView>::empty());
        generator
    }

    /// Appends the directive that shows `signal`.
    pub fn add_signal(
        &mut self,
        signal: String,
        color: Option<DisplayColor>,
        format: Option<DisplayFormat>,
    ) -> (generator: &mut Self)
        ensures
            generator.spec_prefix() == old(self).spec_prefix(),
            generator.spec_directives() == old(self).spec_directives().push(
                directive_for(signal@, color, format),
            ),
            *final(self) == *final(generator),
    {
        let directive = if signal.as_str().is_empty() {
            Directive::Blank
        } else {
            Directive::Show { name: signal, color, format }
        };
        self.signals.push(directive);
        assert(self.spec_directives() =~= old(self).spec_directives().push(
            directive_for(signal@, color, format),
        ));
        self
    }

    /// Appends an empty row.
    pub fn add_empty(&mut self) -> (generator: &mut Self)
        ensures
            generator.spec_prefix() == old(self).spec_prefix(),
            generator.spec_directives() == old(self).spec_directives().push(
                DirectiveView::Blank,
            ),
            *final(self) == *final(generator),
    {
        self.signals.push(Directive::Blank);
        assert(self.spec_directives() =~= old(self).spec_directives().push(DirectiveView::Blank));
        self
    }

    /// The directives collected so far.
    pub fn directives(&self) -> (directives: &Vec<Directive>)
        ensures
            directive_views(directives@) == self.spec_directives(),
    {
        &self.signals
    }

    /// The text put before every signal name.
    pub fn signal_prefix(&self) -> (prefix: &str)
        ensures
            prefix@ == self.spec_prefix(),
    {
        self.signal_prefix.as_str()
    }

    /// Writes the script out.
    pub fn generate(self) -> (script: String)
        ensures
            script@ == render_script(self.spec_prefix(), self.spec_directives()),
    {
        let mut builder = new_builder(300);
        let ghost mut text: Seq<char> = Seq::empty();
        let ghost prefix = self.signal_prefix@;
        let ghost views = directive_views(self.signals@);
        proof {
            assert(encode_utf8(text) =~= Seq::<u8>::empty());
        }
        append_piece(&mut builder, "gtkwave::nop\n", Ghost(text));
        proof {
            text = text + "gtkwave::nop\n"@;
        }
        append_piece(&mut builder, "gtkwave::/Edit/Set_Trace_Max_Hier 2\n", Ghost(text));
        proof {
            text = text + "gtkwave::/Edit/Set_Trace_Max_Hier 2\n"@;
        }
        append_piece(&mut builder, "gtkwave::/View/Show_Filled_High_Values 1\n", Ghost(text));
        proof {
            text = text + "gtkwave::/View/Show_Filled_High_Values 1\n"@;
        }
        append_piece(&mut builder, "gtkwave::/View/Show_Wave_Highlight 1\n", Ghost(text));
        proof {
            text = text + "gtkwave::/View/Show_Wave_Highlight 1\n"@;
        }
        append_piece(&mut builder, "gtkwave::/View/Show_Mouseover 1\n", Ghost(text));
        proof {
            text = text + "gtkwave::/View/Show_Mouseover 1\n"@;
            assert(text =~= script_header());
            assert(views.take(0) =~= Seq::<DirectiveView>::empty());
            assert(text =~= script_header() + render_directives(prefix, views.take(0)));
        }
        let n = self.signals.len();
        let mut i: usize = 0;
        while i < n
            invariant
                n == self.signals@.len(),
                i <= n,
                prefix == self.signal_prefix@,
                views == directive_views(self.signals@),
                builder_bytes(builder) == encode_utf8(text),
                text == script_header() + render_directives(prefix, views.take(i as int)),
            decreases n - i,
        {
            let ghost before = text;
            append_directive(
                &mut builder,
                self.signal_prefix.as_str(),
                &self.signals[i],
                Ghost(text),
            );
            proof {
                text = text + render_directive(prefix, self.signals@[i as int]@);
            }
            proof {
                let next = views.take(i + 1);
                assert(next.drop_last() =~= views.take(i as int));
                assert(next.last() == self.signals@[i as int]@);
                assert(text =~= before + render_directive(prefix, next.last()));
                assert(text =~= script_header() + render_directives(prefix, next));
            }
            i = i + 1;
        }
        append_piece(&mut builder, "gtkwave::/Time/Zoom/Zoom_Best_Fit\n", Ghost(text));
        proof {
            assert(views.take(n as int) =~= views);
            text = text + "gtkwave::/Time/Zoom/Zoom_Best_Fit\n"@;
        }
        finish(builder, Ghost(text))
    }
}

} // verus!
