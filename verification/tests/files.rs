use vhdl_waves::file_parser::{
    FileParser, ParsedArchitecture, ParsedArchitecturePart, ParsedEntity, ParsedSignal,
};
use vhdl_waves::file_parser::{ParseError, SyntaxError};
use vhdl_waves::tokens::{classify_tokens, SourceToken, Token, TokenKind};
use vhdl_waves::walker::generate_for;

fn word(kind: TokenKind) -> Token {
    Token { kind, name: String::new(), leading: vec![], trailing: None }
}

fn ident(name: &str) -> Token {
    Token { kind: TokenKind::Identifier, name: name.to_owned(), leading: vec![], trailing: None }
}

fn entity(name: &str) -> Vec<Token> {
    vec![
        word(TokenKind::Entity),
        ident(name),
        word(TokenKind::Is),
        word(TokenKind::Other),
        word(TokenKind::Entity),
        ident(name),
        word(TokenKind::SemiColon),
    ]
}

fn architecture(name: &str, of: &str, declarations: Vec<Token>) -> Vec<Token> {
    let mut tokens = vec![
        word(TokenKind::Architecture),
        ident(name),
        word(TokenKind::Of),
        ident(of),
        word(TokenKind::Is),
    ];
    tokens.extend(declarations);
    tokens.extend(vec![
        word(TokenKind::Begin),
        word(TokenKind::Other),
        word(TokenKind::Architecture),
        ident(name),
        word(TokenKind::SemiColon),
    ]);
    tokens
}

fn syntax(expected: TokenKind, position: usize) -> ParseError {
    ParseError::ParsingError(SyntaxError { expected, position })
}

fn signal(name: &str, signal_type: &str, comment: Option<&str>) -> ParsedArchitecturePart {
    ParsedArchitecturePart::Signal(ParsedSignal::new(
        name.to_owned(),
        signal_type.to_owned(),
        comment.map(|text| text.to_owned()),
    ))
}

#[test]
fn no_tokens_no_entities() {
    assert_eq!(FileParser::parse_tokens(&[]), Ok(vec![]));
    assert_eq!(FileParser::parse_tokens(&[word(TokenKind::Other), ident("x")]), Ok(vec![]));
}

#[test]
fn entity_alone_has_no_architecture() {
    let entities = FileParser::parse_tokens(&entity("tb")).unwrap();
    assert_eq!(entities, vec![ParsedEntity::new("tb".to_owned(), None)]);
    assert_eq!(entities[0].name(), "tb");
    assert_eq!(entities[0].architecture(), None);
}

#[test]
fn architecture_is_given_to_its_entity() {
    let mut declared = vec![
        Token {
            kind: TokenKind::Signal,
            name: String::new(),
            leading: vec!["color red".to_owned(), "empty".to_owned()],
            trailing: None,
        },
        ident("a"),
        word(TokenKind::Other),
        ident("b"),
        word(TokenKind::Colon),
        ident("std_logic_vector"),
        word(TokenKind::Other),
        ident("seven"),
        Token {
            kind: TokenKind::SemiColon,
            name: String::new(),
            leading: vec![],
            trailing: Some("format hex".to_owned()),
        },
    ];
    declared.push(Token {
        kind: TokenKind::Other,
        name: String::new(),
        leading: vec!["omit".to_owned()],
        trailing: Some("not read".to_owned()),
    });
    let mut tokens = entity("dut");
    tokens.extend(entity("tb"));
    tokens.extend(architecture("sim", "tb", declared));
    let entities = FileParser::parse_tokens(&tokens).unwrap();
    assert_eq!(entities.len(), 2);
    assert_eq!(entities[0], ParsedEntity::new("dut".to_owned(), None));
    let found = entities[1].architecture().unwrap();
    assert_eq!(found.name(), "sim");
    assert_eq!(found.entity_name(), "tb");
    assert_eq!(
        found.parts(),
        &vec![
            ParsedArchitecturePart::Comment("color red".to_owned()),
            ParsedArchitecturePart::Comment("empty".to_owned()),
            signal("a", "std_logic_vector", Some("format hex")),
            signal("b", "std_logic_vector", Some("format hex")),
            ParsedArchitecturePart::Comment("omit".to_owned()),
        ]
    );
    match &found.parts()[2] {
        ParsedArchitecturePart::Signal(signal) => {
            assert_eq!(signal.name(), "a");
            assert_eq!(signal.signal_type(), "std_logic_vector");
            assert_eq!(signal.comment(), Some("format hex"));
        }
        ParsedArchitecturePart::Comment(_) => panic!("a signal stands here"),
    }
}

#[test]
fn comments_before_begin_are_read() {
    let begin_with_comment = Token {
        kind: TokenKind::Other,
        name: String::new(),
        leading: vec!["reset".to_owned()],
        trailing: None,
    };
    let mut tokens = entity("tb");
    tokens.extend(architecture("sim", "tb", vec![begin_with_comment]));
    let entities = FileParser::parse_tokens(&tokens).unwrap();
    assert_eq!(
        entities[0].architecture().unwrap().parts(),
        &vec![ParsedArchitecturePart::Comment("reset".to_owned())]
    );
}

#[test]
fn architecture_may_stand_before_its_entity() {
    let mut tokens = architecture("sim", "tb", vec![]);
    tokens.extend(entity("tb"));
    let entities = FileParser::parse_tokens(&tokens).unwrap();
    assert_eq!(
        entities,
        vec![ParsedEntity::new(
            "tb".to_owned(),
            Some(ParsedArchitecture::new("sim".to_owned(), "tb".to_owned(), vec![])),
        )]
    );
}

#[test]
fn last_architecture_of_an_entity_stays() {
    let mut tokens = entity("tb");
    tokens.extend(architecture("first", "tb", vec![]));
    tokens.extend(entity("tb"));
    tokens.extend(architecture("second", "tb", vec![]));
    let entities = FileParser::parse_tokens(&tokens).unwrap();
    assert_eq!(entities.len(), 2);
    assert_eq!(entities[0].architecture().unwrap().name(), "second");
    assert_eq!(entities[1].architecture(), None);
}

#[test]
fn architecture_without_entity_is_an_error() {
    let mut tokens = entity("tb");
    tokens.extend(architecture("sim", "other", vec![]));
    assert_eq!(FileParser::parse_tokens(&tokens), Err(ParseError::ArchitectureWithoutEntity));
    assert_eq!(
        FileParser::parse_tokens(&architecture("sim", "tb", vec![])),
        Err(ParseError::ArchitectureWithoutEntity)
    );
}

#[test]
fn end_inside_declarations_is_end_of_file() {
    let tokens = vec![
        word(TokenKind::Architecture),
        ident("sim"),
        word(TokenKind::Of),
        ident("tb"),
        word(TokenKind::Is),
        word(TokenKind::Other),
    ];
    assert_eq!(FileParser::parse_tokens(&tokens), Err(ParseError::EndOfFile));
    let mut names = tokens.clone();
    names.extend(vec![word(TokenKind::Signal), ident("a"), word(TokenKind::Other), ident("b")]);
    assert_eq!(FileParser::parse_tokens(&names), Err(ParseError::EndOfFile));
}

#[test]
fn wrong_token_is_a_parsing_error() {
    assert_eq!(
        FileParser::parse_tokens(&[word(TokenKind::Entity), word(TokenKind::Is)]),
        Err(syntax(TokenKind::Identifier, 1))
    );
    assert_eq!(
        FileParser::parse_tokens(&[word(TokenKind::Entity)]),
        Err(syntax(TokenKind::Identifier, 1))
    );
    assert_eq!(
        FileParser::parse_tokens(&[word(TokenKind::Entity), ident("tb"), word(TokenKind::Is)]),
        Err(syntax(TokenKind::Entity, 3))
    );
    assert_eq!(
        FileParser::parse_tokens(&[
            word(TokenKind::Entity),
            ident("tb"),
            word(TokenKind::Entity),
            ident("tb"),
        ]),
        Err(syntax(TokenKind::SemiColon, 4))
    );
    assert_eq!(
        FileParser::parse_tokens(&[
            word(TokenKind::Architecture),
            ident("sim"),
            word(TokenKind::Is),
        ]),
        Err(syntax(TokenKind::Of, 2))
    );
    assert_eq!(
        FileParser::parse_tokens(&[
            word(TokenKind::Architecture),
            ident("sim"),
            word(TokenKind::Of),
            ident("tb"),
            word(TokenKind::Begin),
        ]),
        Err(syntax(TokenKind::Is, 4))
    );
}

#[test]
fn broken_declaration_is_a_parsing_error() {
    let head = vec![
        word(TokenKind::Architecture),
        ident("sim"),
        word(TokenKind::Of),
        ident("tb"),
        word(TokenKind::Is),
    ];
    let mut no_name = head.clone();
    no_name.extend(vec![word(TokenKind::Signal), word(TokenKind::Colon)]);
    assert_eq!(FileParser::parse_tokens(&no_name), Err(syntax(TokenKind::Identifier, 6)));
    let mut no_type = head.clone();
    no_type.extend(vec![word(TokenKind::Signal), ident("a"), word(TokenKind::Colon)]);
    assert_eq!(FileParser::parse_tokens(&no_type), Err(syntax(TokenKind::Identifier, 8)));
    let mut no_end = head.clone();
    no_end.extend(vec![word(TokenKind::Signal), ident("a"), word(TokenKind::Colon), ident("bit")]);
    assert_eq!(FileParser::parse_tokens(&no_end), Err(syntax(TokenKind::SemiColon, 9)));
    let mut no_second = head.clone();
    no_second.extend(vec![word(TokenKind::Begin), word(TokenKind::Other)]);
    assert_eq!(FileParser::parse_tokens(&no_second), Err(syntax(TokenKind::Architecture, 7)));
}

#[test]
fn entity_is_found_by_name() {
    let entities = vec![
        ParsedEntity::new("a".to_owned(), None),
        ParsedEntity::new("b".to_owned(), None),
        ParsedEntity::new("a".to_owned(), None),
    ];
    assert_eq!(FileParser::find_entity(&entities, "a"), 0);
    assert_eq!(FileParser::find_entity(&entities, "b"), 1);
    assert_eq!(FileParser::find_entity(&entities, "c"), 3);
    assert_eq!(FileParser::find_entity(&Vec::new(), "a"), 0);
}

#[test]
fn token_kinds_by_spelling() {
    assert_eq!(Token::kind_for("entity"), TokenKind::Entity);
    assert_eq!(Token::kind_for("architecture"), TokenKind::Architecture);
    assert_eq!(Token::kind_for("of"), TokenKind::Of);
    assert_eq!(Token::kind_for("is"), TokenKind::Is);
    assert_eq!(Token::kind_for("signal"), TokenKind::Signal);
    assert_eq!(Token::kind_for("begin"), TokenKind::Begin);
    assert_eq!(Token::kind_for(":"), TokenKind::Colon);
    assert_eq!(Token::kind_for(";"), TokenKind::SemiColon);
    assert_eq!(Token::kind_for("{identifier}"), TokenKind::Identifier);
    assert_eq!(Token::kind_for("end"), TokenKind::Other);
    assert_eq!(Token::kind_for(""), TokenKind::Other);
}

#[test]
fn source_tokens_are_classified() {
    let keyword = SourceToken {
        spelling: "signal".to_owned(),
        name: None,
        leading: vec!["c".to_owned()],
        trailing: Some("t".to_owned()),
    };
    let name = SourceToken {
        spelling: "{identifier}".to_owned(),
        name: Some("x".to_owned()),
        leading: vec![],
        trailing: None,
    };
    assert_eq!(
        Token::from_source(keyword.clone()),
        Token {
            kind: TokenKind::Signal,
            name: String::new(),
            leading: vec!["c".to_owned()],
            trailing: Some("t".to_owned()),
        }
    );
    assert_eq!(
        classify_tokens(vec![name, keyword.clone()]),
        vec![ident("x"), Token::from_source(keyword)]
    );
    assert_eq!(classify_tokens(vec![]), vec![]);
}

const SOURCE: &str = "\
library ieee;
use ieee.std_logic_1164.all;

entity tb is
end entity tb;

architecture sim of tb is
  -- color indigo
  signal clk : std_logic;
  signal rst : std_logic; -- omit
  signal a, b : std_logic_vector(3 downto 0); -- format hex
begin
end architecture sim;
";

#[test]
fn source_text_is_read() {
    let entities = FileParser::parse_file(SOURCE).unwrap();
    assert_eq!(entities.len(), 1);
    assert_eq!(entities[0].name(), "tb");
    let found = entities[0].architecture().unwrap();
    assert_eq!(found.name(), "sim");
    assert_eq!(found.entity_name(), "tb");
    assert_eq!(
        found.parts(),
        &vec![
            ParsedArchitecturePart::Comment(" color indigo".to_owned()),
            signal("clk", "std_logic", None),
            signal("rst", "std_logic", Some(" omit")),
            signal("a", "std_logic_vector", Some(" format hex")),
            signal("b", "std_logic_vector", Some(" format hex")),
        ]
    );
}

#[test]
fn source_text_becomes_a_script() {
    let entities = FileParser::parse_file(SOURCE).unwrap();
    let script = generate_for(&entities, "tb").unwrap();
    let expected = "gtkwave::nop\n\
gtkwave::/Edit/Set_Trace_Max_Hier 2\n\
gtkwave::/View/Show_Filled_High_Values 1\n\
gtkwave::/View/Show_Wave_Highlight 1\n\
gtkwave::/View/Show_Mouseover 1\n\
gtkwave::addSignalsFromList \"top.tb.clk\"\n\
gtkwave::highlightSignalsFromList \"top.tb.clk\"\n\
gtkwave::/Edit/Color_Format/Indigo\n\
gtkwave::/Edit/Data_Format/Decimal\n\
gtkwave::/Edit/UnHighlight_All\n\
gtkwave::addSignalsFromList \"top.tb.a\"\n\
gtkwave::highlightSignalsFromList \"top.tb.a\"\n\
gtkwave::/Edit/Color_Format/Indigo\n\
gtkwave::/Edit/Data_Format/Hex\n\
gtkwave::/Edit/UnHighlight_All\n\
gtkwave::addSignalsFromList \"top.tb.b\"\n\
gtkwave::highlightSignalsFromList \"top.tb.b\"\n\
gtkwave::/Edit/Color_Format/Indigo\n\
gtkwave::/Edit/Data_Format/Hex\n\
gtkwave::/Edit/UnHighlight_All\n\
gtkwave::/Time/Zoom/Zoom_Best_Fit\n";
    assert_eq!(script, expected);
}

#[test]
fn text_without_units_has_no_entities() {
    assert_eq!(FileParser::parse_file(""), Ok(vec![]));
    assert_eq!(FileParser::parse_file("-- nothing but a comment\n"), Ok(vec![]));
}
