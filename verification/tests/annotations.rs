use vhdl_waves::comment_parser::{CommentParser, ContextUpdate, Operation};
use vhdl_waves::display_elements::{DisplayColor, DisplayFormat};

fn color(color: DisplayColor) -> Operation {
    Operation::UpdateContext(ContextUpdate::UpdateColor(Some(color)))
}

fn format(format: DisplayFormat) -> Operation {
    Operation::UpdateContext(ContextUpdate::UpdateFormat(format))
}

#[test]
fn empty_comment_holds_nothing() {
    assert_eq!(CommentParser::parse_comment(""), vec![]);
}

#[test]
fn unrecognized_comment_holds_nothing() {
    assert_eq!(CommentParser::parse_comment("the clock of the bus, rising edge\nsee above"), vec![]);
    assert_eq!(CommentParser::parse_comment(",,\n,"), vec![]);
    assert_eq!(CommentParser::parse_comment("omitted, resets, emptying"), vec![]);
}

#[test]
fn whole_words_are_recognized() {
    assert_eq!(
        CommentParser::parse_comment("omit"),
        vec![Operation::UpdateContext(ContextUpdate::SetOmit(true))]
    );
    assert_eq!(
        CommentParser::parse_comment("reset"),
        vec![Operation::UpdateContext(ContextUpdate::Reset)]
    );
    assert_eq!(CommentParser::parse_comment("empty"), vec![Operation::AddEmpty]);
}

#[test]
fn pieces_are_cut_at_commas_and_newlines() {
    assert_eq!(
        CommentParser::parse_comment("omit,empty\nreset"),
        vec![
            Operation::UpdateContext(ContextUpdate::SetOmit(true)),
            Operation::AddEmpty,
            Operation::UpdateContext(ContextUpdate::Reset),
        ]
    );
}

#[test]
fn pieces_are_trimmed() {
    assert_eq!(
        CommentParser::parse_comment(" add signal foo, color red "),
        vec![Operation::AddSignal("foo".to_owned()), color(DisplayColor::Red)]
    );
    assert_eq!(
        CommentParser::parse_comment("\t omit \r\n  empty\u{a0}\n\u{3000}reset\u{2003}"),
        vec![
            Operation::UpdateContext(ContextUpdate::SetOmit(true)),
            Operation::AddEmpty,
            Operation::UpdateContext(ContextUpdate::Reset),
        ]
    );
}

#[test]
fn unknown_pieces_are_dropped_between_known_ones() {
    assert_eq!(
        CommentParser::parse_comment("omit, what, empty"),
        vec![Operation::UpdateContext(ContextUpdate::SetOmit(true)), Operation::AddEmpty]
    );
}

#[test]
fn signal_name_is_taken_as_it_stands() {
    assert_eq!(
        CommentParser::parse_comment("add signal  top.dut.x y"),
        vec![Operation::AddSignal(" top.dut.x y".to_owned())]
    );
    assert_eq!(CommentParser::parse_comment("add signal"), vec![]);
    assert_eq!(CommentParser::parse_comment("add signal "), vec![]);
    assert_eq!(CommentParser::parse_comment("add signalfoo"), vec![]);
}

#[test]
fn every_color_word_is_known() {
    let words = [
        ("normal", DisplayColor::Normal),
        ("red", DisplayColor::Red),
        ("orange", DisplayColor::Orange),
        ("yellow", DisplayColor::Yellow),
        ("green", DisplayColor::Green),
        ("blue", DisplayColor::Blue),
        ("indigo", DisplayColor::Indigo),
        ("violet", DisplayColor::Violet),
        ("cycle", DisplayColor::Cycle),
    ];
    for (word, expected) in words {
        assert_eq!(CommentParser::parse_color(word), Some(expected));
        assert_eq!(
            CommentParser::parse_comment(&format!("color {word}")),
            vec![color(expected)]
        );
    }
}

#[test]
fn unknown_color_is_dropped() {
    assert_eq!(CommentParser::parse_color("purple"), None);
    assert_eq!(CommentParser::parse_comment("color purple"), vec![]);
    assert_eq!(CommentParser::parse_comment("color  red"), vec![]);
    assert_eq!(CommentParser::parse_comment("color"), vec![]);
}

#[test]
fn color_words_are_lower_case() {
    assert_eq!(CommentParser::parse_comment("color indigo"), vec![color(DisplayColor::Indigo)]);
    assert_eq!(CommentParser::parse_comment("color violet"), vec![color(DisplayColor::Violet)]);
    assert_eq!(CommentParser::parse_comment("color cycle"), vec![color(DisplayColor::Cycle)]);
    assert_eq!(CommentParser::parse_comment("color Indigo"), vec![]);
    assert_eq!(CommentParser::parse_comment("color Violet"), vec![]);
    assert_eq!(CommentParser::parse_comment("color Cycle"), vec![]);
    assert_eq!(CommentParser::parse_comment("Color indigo"), vec![]);
    assert_eq!(CommentParser::parse_comment("OMIT"), vec![]);
}

#[test]
fn every_format_word_is_known() {
    assert_eq!(CommentParser::parse_format("hex"), DisplayFormat::Hex);
    assert_eq!(CommentParser::parse_format("decimal"), DisplayFormat::Decimal);
    assert_eq!(CommentParser::parse_format("signed decimal"), DisplayFormat::SignedDecimal);
    assert_eq!(CommentParser::parse_format("binary"), DisplayFormat::Binary);
    assert_eq!(
        CommentParser::parse_comment("format signed decimal, format hex"),
        vec![format(DisplayFormat::SignedDecimal), format(DisplayFormat::Hex)]
    );
}

#[test]
fn unknown_format_is_decimal() {
    assert_eq!(CommentParser::parse_format("octal"), DisplayFormat::Decimal);
    assert_eq!(CommentParser::parse_format("Hex"), DisplayFormat::Decimal);
    assert_eq!(CommentParser::parse_comment("format octal"), vec![format(DisplayFormat::Decimal)]);
    assert_eq!(CommentParser::parse_comment("format"), vec![]);
}

#[test]
fn token_is_read_without_trimming() {
    assert_eq!(CommentParser::parse_token("empty"), Some(Operation::AddEmpty));
    assert_eq!(CommentParser::parse_token(" empty"), None);
    assert_eq!(CommentParser::parse_token(""), None);
    assert_eq!(
        CommentParser::parse_token("add signal é"),
        Some(Operation::AddSignal("é".to_owned()))
    );
}

#[test]
fn labels_are_the_menu_names() {
    assert_eq!(DisplayColor::Normal.label(), "Normal");
    assert_eq!(DisplayColor::Indigo.label(), "Indigo");
    assert_eq!(DisplayColor::Cycle.label(), "Cycle");
    assert_eq!(DisplayFormat::Hex.label(), "Hex");
    assert_eq!(DisplayFormat::SignedDecimal.label(), "SignedDecimal");
    assert_eq!(DisplayFormat::Binary.label(), "Binary");
}
