use ev::{parse_and_print, EvError, OutputStyle};

#[test]
fn description_of_each_error() {
    assert_eq!(EvError::InvalidFormat.description(), "invalid format");
    assert_eq!(EvError::MissingNumberOfDice.description(), "missing number of dice");
    assert_eq!(EvError::MissingNumberOfSides.description(), "missing number of sides");
    assert_eq!(EvError::MissingExtra.description(), "missing bonus");
    assert_eq!(EvError::TooManyDice.description(), "too many dice");
    assert_eq!(EvError::TooManySides.description(), "too many sides");
    assert_eq!(EvError::ExtraTooLarge.description(), "bonus too large");
}

#[test]
fn a_roll_is_printed_on_one_line() {
    let style = OutputStyle::SingleLine;
    assert_eq!(parse_and_print("1d6", &style), Ok(String::from("1d6 1 6 3.5")));
    assert_eq!(parse_and_print("2d4+1", &style), Ok(String::from("2d4+1 3 9 6")));
    assert_eq!(parse_and_print("3d10-1", &style), Ok(String::from("3d10-1 2 29 15.5")));
}

#[test]
fn a_roll_is_printed_on_four_lines() {
    let style = OutputStyle::MultiLine;
    assert_eq!(
        parse_and_print("1d6", &style),
        Ok(String::from("1d6:\n\tmin: 1\n\tmax: 6\n\tev : 3.5"))
    );
    assert_eq!(
        parse_and_print("3d10-1", &style),
        Ok(String::from("3d10-1:\n\tmin: 2\n\tmax: 29\n\tev : 15.5"))
    );
}

#[test]
fn a_bad_line_is_complained_about() {
    for style in [OutputStyle::SingleLine, OutputStyle::MultiLine] {
        assert_eq!(
            parse_and_print("3d4*4", &style),
            Err(String::from("invalid format: 3d4*4"))
        );
        assert_eq!(
            parse_and_print("", &style),
            Err(String::from("missing number of dice: "))
        );
        assert_eq!(
            parse_and_print("5d", &style),
            Err(String::from("missing number of sides: 5d"))
        );
        assert_eq!(
            parse_and_print("3d4+", &style),
            Err(String::from("missing bonus: 3d4+"))
        );
        assert_eq!(
            parse_and_print("99999d2", &style),
            Err(String::from("too many dice: 99999d2"))
        );
        assert_eq!(
            parse_and_print("2d99999", &style),
            Err(String::from("too many sides: 2d99999"))
        );
        assert_eq!(
            parse_and_print("1d6-99999", &style),
            Err(String::from("bonus too large: 1d6-99999"))
        );
    }
}

#[test]
fn the_complaint_repeats_the_line_as_it_is() {
    let style = OutputStyle::SingleLine;
    assert_eq!(
        parse_and_print("deux dés à six faces", &style),
        Err(String::from("missing number of dice: deux dés à six faces"))
    );
    assert_eq!(
        parse_and_print("1d6: no", &style),
        Err(String::from("invalid format: 1d6: no"))
    );
}

#[test]
fn output_styles_differ() {
    assert_ne!(OutputStyle::SingleLine, OutputStyle::MultiLine);
    assert_ne!(
        parse_and_print("1d6", &OutputStyle::SingleLine),
        parse_and_print("1d6", &OutputStyle::MultiLine)
    );
}
