use uci_front::options::{Data, Option, OptionError};

fn spin(name: &str, value: i64, min: i64, max: i64) -> Option {
    Option { name: String::from(name), data: Data::Spin { value, min, max } }
}

#[test]
fn parse_options() {
    assert_eq!(
        Option::parse("option name nodestime type spin default 0 min 0 max 10000"),
        Ok(Option {
            name: String::from("nodestime"),
            data: Data::Spin { value: 0, min: 0, max: 10000 }
        })
    );
}

#[test]
fn spin_line_with_line_feed() {
    assert_eq!(
        Option::parse("option name nodestime type spin default 0 min 0 max 10000\n"),
        Ok(spin("nodestime", 0, 0, 10000))
    );
}

#[test]
fn spin_lines_of_an_engine() {
    assert_eq!(
        Option::parse("option name Threads type spin default 1 min 1 max 1024"),
        Ok(spin("Threads", 1, 1, 1024))
    );
    assert_eq!(
        Option::parse("option name Hash type spin default 16 min 1 max 33554432"),
        Ok(spin("Hash", 16, 1, 33554432))
    );
    assert_eq!(
        Option::parse("option name UCI_Elo type spin default 1320 min 1320 max 3190"),
        Ok(spin("UCI_Elo", 1320, 1320, 3190))
    );
}

#[test]
fn name_keeps_its_inner_space() {
    assert_eq!(
        Option::parse("option name Move Overhead type spin default 10 min 0 max 5000"),
        Ok(spin("Move Overhead", 10, 0, 5000))
    );
    assert_eq!(
        Option::parse("option name  Skill \t Level   type spin default 20 min 0 max 20"),
        Ok(spin("Skill Level", 20, 0, 20))
    );
}

#[test]
fn spin_fields_in_any_order_and_signed() {
    assert_eq!(
        Option::parse("option name x type spin max +7 min -7 default 0"),
        Ok(spin("x", 0, -7, 7))
    );
    assert_eq!(
        Option::parse(
            "option name wide type spin min -9223372036854775808 max 9223372036854775807 default -1"
        ),
        Ok(spin("wide", -1, i64::MIN, i64::MAX))
    );
}

#[test]
fn later_spin_field_replaces_earlier() {
    assert_eq!(
        Option::parse("option name x type spin default 1 min 0 max 9 default 5"),
        Ok(spin("x", 5, 0, 9))
    );
}

#[test]
fn check_lines() {
    assert_eq!(
        Option::parse("option name Ponder type check default false"),
        Ok(Option { name: String::from("Ponder"), data: Data::Check { value: false } })
    );
    assert_eq!(
        Option::parse("option name Use NNUE type check default true"),
        Ok(Option { name: String::from("Use NNUE"), data: Data::Check { value: true } })
    );
}

#[test]
fn button_line() {
    assert_eq!(
        Option::parse("option name Clear Hash type button"),
        Ok(Option { name: String::from("Clear Hash"), data: Data::Button })
    );
}

#[test]
fn string_lines() {
    assert_eq!(
        Option::parse("option name EvalFile type string default nn-5af11540bbfe.nnue"),
        Ok(Option {
            name: String::from("EvalFile"),
            data: Data::String { value: String::from("nn-5af11540bbfe.nnue") }
        })
    );
    assert_eq!(
        Option::parse("option name Debug Log File type string default"),
        Ok(Option {
            name: String::from("Debug Log File"),
            data: Data::String { value: String::new() }
        })
    );
    assert_eq!(
        Option::parse("option name Book type string default my  opening book"),
        Ok(Option {
            name: String::from("Book"),
            data: Data::String { value: String::from("my opening book") }
        })
    );
    assert_eq!(
        Option::parse("option name Path type string"),
        Ok(Option { name: String::from("Path"), data: Data::String { value: String::new() } })
    );
}

#[test]
fn empty_name_is_read() {
    assert_eq!(
        Option::parse("option name type button"),
        Ok(Option { name: String::new(), data: Data::Button })
    );
}

#[test]
fn not_an_option() {
    assert_eq!(Option::parse(""), Err(OptionError::NotAnOption));
    assert_eq!(Option::parse("   \n"), Err(OptionError::NotAnOption));
    assert_eq!(Option::parse("uciok\n"), Err(OptionError::NotAnOption));
    assert_eq!(Option::parse("id name Stockfish"), Err(OptionError::NotAnOption));
    assert_eq!(Option::parse("Option name x type button"), Err(OptionError::NotAnOption));
}

#[test]
fn name_expected() {
    assert_eq!(Option::parse("option"), Err(OptionError::NameExpected));
    assert_eq!(
        Option::parse("option nodestime type spin default 0 min 0 max 10000"),
        Err(OptionError::NameExpected)
    );
}

#[test]
fn keyword_before_type() {
    assert_eq!(
        Option::parse("option name x default 1 type spin min 0 max 2"),
        Err(OptionError::KeywordBeforeType)
    );
    assert_eq!(Option::parse("option name x min 1"), Err(OptionError::KeywordBeforeType));
    assert_eq!(Option::parse("option name x max 1"), Err(OptionError::KeywordBeforeType));
    assert_eq!(Option::parse("option name x var a"), Err(OptionError::KeywordBeforeType));
}

#[test]
fn type_missing() {
    assert_eq!(Option::parse("option name"), Err(OptionError::TypeMissing));
    assert_eq!(Option::parse("option name Hash"), Err(OptionError::TypeMissing));
    assert_eq!(Option::parse("option name Hash type"), Err(OptionError::TypeMissing));
}

#[test]
fn unsupported_type() {
    assert_eq!(
        Option::parse("option name Style type combo default Normal var Solid var Normal"),
        Err(OptionError::UnsupportedType)
    );
    assert_eq!(
        Option::parse("option name x type slider default 1"),
        Err(OptionError::UnsupportedType)
    );
    assert_eq!(
        Option::parse("option name x type Spin default 1 min 0 max 2"),
        Err(OptionError::UnsupportedType)
    );
}

#[test]
fn bad_check() {
    assert_eq!(Option::parse("option name x type check"), Err(OptionError::BadCheck));
    assert_eq!(Option::parse("option name x type check default"), Err(OptionError::BadCheck));
    assert_eq!(
        Option::parse("option name x type check default yes"),
        Err(OptionError::BadCheck)
    );
    assert_eq!(Option::parse("option name x type check true"), Err(OptionError::BadCheck));
}

#[test]
fn bad_spin() {
    assert_eq!(
        Option::parse("option name x type spin default 1 min 0 max"),
        Err(OptionError::BadSpin)
    );
    assert_eq!(
        Option::parse("option name x type spin default 1 min 0 var 2"),
        Err(OptionError::BadSpin)
    );
    assert_eq!(
        Option::parse("option name x type spin default one min 0 max 2"),
        Err(OptionError::BadSpin)
    );
    assert_eq!(
        Option::parse("option name x type spin default 1 min 0 max 9223372036854775808"),
        Err(OptionError::BadSpin)
    );
    assert_eq!(
        Option::parse("option name x type spin default 1.5 min 0 max 2"),
        Err(OptionError::BadSpin)
    );
}

#[test]
fn spin_incomplete() {
    assert_eq!(Option::parse("option name x type spin"), Err(OptionError::SpinIncomplete));
    assert_eq!(
        Option::parse("option name x type spin default 1 min 0"),
        Err(OptionError::SpinIncomplete)
    );
    assert_eq!(
        Option::parse("option name x type spin min 0 max 3"),
        Err(OptionError::SpinIncomplete)
    );
}

#[test]
fn spin_out_of_bounds() {
    assert_eq!(
        Option::parse("option name x type spin default 5 min 0 max 4"),
        Err(OptionError::SpinOutOfBounds)
    );
    assert_eq!(
        Option::parse("option name x type spin default -1 min 0 max 4"),
        Err(OptionError::SpinOutOfBounds)
    );
    assert_eq!(
        Option::parse("option name x type spin default 3 min 4 max 2"),
        Err(OptionError::SpinOutOfBounds)
    );
}

#[test]
fn data_parse_reads_from_the_type_keyword() {
    let tokens: Vec<String> =
        ["type", "spin", "default", "3", "min", "1", "max", "5"].iter().map(|t| t.to_string()).collect();
    assert_eq!(Data::parse(&tokens), Ok(Data::Spin { value: 3, min: 1, max: 5 }));
    let tokens: Vec<String> = ["spin", "default", "3"].iter().map(|t| t.to_string()).collect();
    assert_eq!(Data::parse(&tokens), Err(OptionError::TypeMissing));
    let none: Vec<String> = Vec::new();
    assert_eq!(Data::parse(&none), Err(OptionError::TypeMissing));
}

#[test]
fn data_parse_check_and_spin_on_their_fields() {
    let fields: Vec<String> = ["default", "true", "extra"].iter().map(|t| t.to_string()).collect();
    assert_eq!(Data::parse_check(&fields), Ok(Data::Check { value: true }));
    let fields: Vec<String> =
        ["min", "-2", "default", "0", "max", "2"].iter().map(|t| t.to_string()).collect();
    assert_eq!(Data::parse_spin(&fields), Ok(Data::Spin { value: 0, min: -2, max: 2 }));
}

#[test]
fn round_trip_of_written_declarations() {
    for (value, min, max) in [(0i64, 0i64, 0i64), (-5, -10, 10), (i64::MAX, i64::MIN, i64::MAX)] {
        for name in ["a", "Move Overhead", "UCI_Elo x y"] {
            let line = format!("option name {name} type spin default {value} min {min} max {max}");
            assert_eq!(Option::parse(&line), Ok(spin(name, value, min, max)));
        }
    }
    for value in [true, false] {
        let line = format!("option name Ponder type check default {value}");
        assert_eq!(
            Option::parse(&line),
            Ok(Option { name: String::from("Ponder"), data: Data::Check { value } })
        );
    }
}
