use vhdl_waves::display_elements::{DisplayColor, DisplayFormat};
use vhdl_waves::tcl_generator::{Directive, TclGenerator};

const HEADER: &str = "gtkwave::nop\n\
gtkwave::/Edit/Set_Trace_Max_Hier 2\n\
gtkwave::/View/Show_Filled_High_Values 1\n\
gtkwave::/View/Show_Wave_Highlight 1\n\
gtkwave::/View/Show_Mouseover 1\n";

const FOOTER: &str = "gtkwave::/Time/Zoom/Zoom_Best_Fit\n";

#[test]
fn empty_script_is_header_and_footer() {
    let generator = TclGenerator::new("top.tb.".to_owned());
    assert_eq!(generator.signal_prefix(), "top.tb.");
    assert_eq!(generator.directives(), &Vec::<Directive>::new());
    assert_eq!(generator.generate(), format!("{HEADER}{FOOTER}"));
}

#[test]
fn signal_without_options() {
    let mut generator = TclGenerator::new("top.tb.".to_owned());
    generator.add_signal("clk".to_owned(), None, None);
    assert_eq!(
        generator.generate(),
        format!(
            "{HEADER}gtkwave::addSignalsFromList \"top.tb.clk\"\n\
gtkwave::highlightSignalsFromList \"top.tb.clk\"\n\
gtkwave::/Edit/UnHighlight_All\n{FOOTER}"
        )
    );
}

#[test]
fn signal_with_color_and_format() {
    let mut generator = TclGenerator::new("p.".to_owned());
    generator.add_signal(
        "d".to_owned(),
        Some(DisplayColor::Yellow),
        Some(DisplayFormat::SignedDecimal),
    );
    assert_eq!(
        generator.generate(),
        format!(
            "{HEADER}gtkwave::addSignalsFromList \"p.d\"\n\
gtkwave::highlightSignalsFromList \"p.d\"\n\
gtkwave::/Edit/Color_Format/Yellow\n\
gtkwave::/Edit/Data_Format/SignedDecimal\n\
gtkwave::/Edit/UnHighlight_All\n{FOOTER}"
        )
    );
}

#[test]
fn adders_chain_and_keep_order() {
    let mut generator = TclGenerator::new(String::new());
    generator
        .add_signal("a".to_owned(), Some(DisplayColor::Red), None)
        .add_empty()
        .add_signal("b".to_owned(), None, Some(DisplayFormat::Hex));
    assert_eq!(
        generator.directives(),
        &vec![
            Directive::Show { name: "a".to_owned(), color: Some(DisplayColor::Red), format: None },
            Directive::Blank,
            Directive::Show { name: "b".to_owned(), color: None, format: Some(DisplayFormat::Hex) },
        ]
    );
    assert_eq!(
        generator.generate(),
        format!(
            "{HEADER}gtkwave::addSignalsFromList \"a\"\n\
gtkwave::highlightSignalsFromList \"a\"\n\
gtkwave::/Edit/Color_Format/Red\n\
gtkwave::/Edit/UnHighlight_All\n\
gtkwave::/Edit/Insert_Blank\n\
gtkwave::addSignalsFromList \"b\"\n\
gtkwave::highlightSignalsFromList \"b\"\n\
gtkwave::/Edit/Data_Format/Hex\n\
gtkwave::/Edit/UnHighlight_All\n{FOOTER}"
        )
    );
}

#[test]
fn signal_without_name_is_an_empty_row() {
    let mut generator = TclGenerator::new("top.".to_owned());
    generator.add_signal(String::new(), Some(DisplayColor::Red), Some(DisplayFormat::Hex));
    assert_eq!(generator.directives(), &vec![Directive::Blank]);
    assert_eq!(generator.generate(), format!("{HEADER}gtkwave::/Edit/Insert_Blank\n{FOOTER}"));
}

#[test]
fn names_beyond_ascii_are_written_out() {
    let mut generator = TclGenerator::new("töp.".to_owned());
    generator.add_signal("zähler€".to_owned(), None, None);
    assert_eq!(
        generator.generate(),
        format!(
            "{HEADER}gtkwave::addSignalsFromList \"töp.zähler€\"\n\
gtkwave::highlightSignalsFromList \"töp.zähler€\"\n\
gtkwave::/Edit/UnHighlight_All\n{FOOTER}"
        )
    );
}
