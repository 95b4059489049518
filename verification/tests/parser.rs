use life_sim::parser::ParseFault;
use life_sim::parser::Parser;
use life_sim::parser::ParserError;
use life_sim::text::parse_u64;
use life_sim::text::split_char;
use life_sim::text::text_eq;
use life_sim::text::tokenize;
use life_sim::types::Action;
use life_sim::types::Coordinate;
use life_sim::types::Message;
use life_sim::types::Move;
use life_sim::types::Setting;
use life_sim::types::Square;
use life_sim::types::Update;

#[test]
fn settings_lines() {
    let mut p = Parser::new();
    assert_eq!(
        Ok(Message::Setting(Setting::TimeBank(10000))),
        p.parse_line("settings timebank 10000")
    );
    assert_eq!(
        Ok(Message::Setting(Setting::TimePerMove(100))),
        p.parse_line("settings time_per_move 100")
    );
    assert_eq!(
        Ok(Message::Setting(Setting::PlayerNames(vec![
            "player0".to_string(),
            "player1".to_string()
        ]))),
        p.parse_line("settings player_names player0,player1")
    );
    assert_eq!(
        Ok(Message::Setting(Setting::YourBot("player0".to_string()))),
        p.parse_line("settings your_bot player0")
    );
    assert_eq!(
        Ok(Message::Setting(Setting::YourBotId(0))),
        p.parse_line("settings your_botid 0")
    );
    assert_eq!(
        Ok(Message::Setting(Setting::FieldWidth(18))),
        p.parse_line("settings field_width 18")
    );
    assert_eq!(
        Ok(Message::Setting(Setting::FieldHeight(16))),
        p.parse_line("settings field_height 16")
    );
    assert_eq!(
        Ok(Message::Setting(Setting::MaxRounds(80))),
        p.parse_line("settings max_rounds 80")
    );
}

#[test]
fn update_lines() {
    let mut p = Parser::new();
    assert_eq!(
        Ok(Message::Update(Update::GameRound { round: 5 })),
        p.parse_line("update game round 5")
    );
    assert_eq!(
        Ok(Message::Update(Update::GameField {
            field: vec![
                Square::Empty,
                Square::Player1,
                Square::Player2,
                Square::Empty
            ]
        })),
        p.parse_line("update game field .,0,1,.")
    );
    assert_eq!(
        Ok(Message::Update(Update::LivingCells {
            player: "player0".to_string(),
            cells: 42
        })),
        p.parse_line("update player0 living_cells 42")
    );
    assert_eq!(
        Ok(Message::Update(Update::Move {
            player: "player1".to_string(),
            mov: Move::Kill {
                loc: Coordinate { x: 1, y: 2 }
            }
        })),
        p.parse_line("update player1 move kill_1,2")
    );
    assert_eq!(
        Ok(Message::Update(Update::Move {
            player: "player1".to_string(),
            mov: Move::Birth {
                birth: Coordinate { x: 1, y: 2 },
                sacrifice: [Coordinate { x: 3, y: 4 }, Coordinate { x: 5, y: 6 }]
            }
        })),
        p.parse_line("update player1 move birth_1,2_3,4_5,6")
    );
    assert_eq!(
        Ok(Message::Update(Update::Move {
            player: "player0".to_string(),
            mov: Move::Pass
        })),
        p.parse_line("update player0 move pass")
    );
    assert_eq!(
        Ok(Message::Update(Update::Move {
            player: "player0".to_string(),
            mov: Move::Null
        })),
        p.parse_line("update player0 move null")
    );
}

#[test]
fn action_line() {
    let mut p = Parser::new();
    assert_eq!(
        Ok(Message::Action(Action::Move { time: 10000 })),
        p.parse_line("action move 10000")
    );
}

#[test]
fn error_lines() {
    let mut p = Parser::new();
    // A missing first token is stamped with the line count before the
    // line; everything else with the count after it.
    assert_eq!(
        Err(ParserError {
            fault: ParseFault::MissingToken,
            line: 0
        }),
        p.parse_line("   ")
    );
    assert_eq!(
        Err(ParserError {
            fault: ParseFault::UnknownOption,
            line: 2
        }),
        p.parse_line("garbage in")
    );
    assert_eq!(
        Err(ParserError {
            fault: ParseFault::InvalidSettings,
            line: 3
        }),
        p.parse_line("settings timebank")
    );
    assert_eq!(
        Err(ParserError {
            fault: ParseFault::InvalidUpdate,
            line: 4
        }),
        p.parse_line("update game round")
    );
    assert_eq!(
        Err(ParserError {
            fault: ParseFault::InvalidAction,
            line: 5
        }),
        p.parse_line("action move")
    );
    assert_eq!(
        Err(ParserError {
            fault: ParseFault::InvalidNumber,
            line: 6
        }),
        p.parse_line("settings timebank soon")
    );
    assert_eq!(
        Err(ParserError {
            fault: ParseFault::InvalidNumber,
            line: 7
        }),
        p.parse_line("settings timebank 18446744073709551616")
    );
    assert_eq!(
        Err(ParserError {
            fault: ParseFault::UnknownOption,
            line: 8
        }),
        p.parse_line("settings volume 11")
    );
    assert_eq!(
        Err(ParserError {
            fault: ParseFault::UnknownOption,
            line: 9
        }),
        p.parse_line("update game field .,x,.")
    );
    assert_eq!(
        Err(ParserError {
            fault: ParseFault::UnknownOption,
            line: 10
        }),
        p.parse_line("update game field .,,.")
    );
    assert_eq!(
        Err(ParserError {
            fault: ParseFault::MissingCoordinate,
            line: 11
        }),
        p.parse_line("update player0 move kill_5")
    );
    assert_eq!(
        Err(ParserError {
            fault: ParseFault::InvalidNumber,
            line: 12
        }),
        p.parse_line("update player0 move kill_a,2")
    );
    assert_eq!(
        Err(ParserError {
            fault: ParseFault::ExpectedOneCoordinate,
            line: 13
        }),
        p.parse_line("update player0 move kill_1,2_3,4")
    );
    assert_eq!(
        Err(ParserError {
            fault: ParseFault::ExpectedThreeCoordinates,
            line: 14
        }),
        p.parse_line("update player0 move birth_1,2")
    );
    assert_eq!(
        Err(ParserError {
            fault: ParseFault::UnknownOption,
            line: 15
        }),
        p.parse_line("update player0 move resign")
    );
    assert_eq!(
        Err(ParserError {
            fault: ParseFault::UnknownOption,
            line: 16
        }),
        p.parse_line("update player0 lives 3")
    );
}

#[test]
fn numerals() {
    assert_eq!(Some(0), parse_u64("0"));
    assert_eq!(Some(7), parse_u64("007"));
    assert_eq!(Some(u64::MAX), parse_u64("18446744073709551615"));
    assert_eq!(None, parse_u64("18446744073709551616"));
    assert_eq!(None, parse_u64(""));
    assert_eq!(None, parse_u64("12a"));
    assert_eq!(None, parse_u64("-1"));
}

#[test]
fn tokenization() {
    assert_eq!(
        vec!["a".to_string(), "bb".to_string()],
        tokenize("  a \t bb\n")
    );
    assert_eq!(Vec::<String>::new(), tokenize(""));
    assert_eq!(Vec::<String>::new(), tokenize(" \t "));
}

#[test]
fn splitting() {
    assert_eq!(
        vec!["a".to_string(), "".to_string(), "b".to_string()],
        split_char("a,,b", ',')
    );
    assert_eq!(vec!["".to_string()], split_char("", ','));
    assert_eq!(vec!["x".to_string(), "".to_string()], split_char("x,", ','));
}

#[test]
fn text_comparison() {
    assert!(text_eq("abc", "abc"));
    assert!(!text_eq("abc", "abd"));
    assert!(!text_eq("abc", "ab"));
    assert!(text_eq("", ""));
}

#[test]
fn line_counting() {
    let mut p = Parser::new();
    assert_eq!(0, p.line_count());
    let _ = p.parse_line("action move 1");
    let _ = p.parse_line("nonsense");
    assert_eq!(2, p.line_count());
}
