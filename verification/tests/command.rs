use ev::{command, usage_brief, Command, OutputStyle};

#[test]
fn help_comes_first() {
    assert_eq!(command(true, false, false), Command::Help);
    assert_eq!(command(true, true, false), Command::Help);
    assert_eq!(command(true, false, true), Command::Help);
    assert_eq!(command(true, true, true), Command::Help);
}

#[test]
fn version_comes_before_the_rolls() {
    assert_eq!(command(false, true, false), Command::Version);
    assert_eq!(command(false, true, true), Command::Version);
}

#[test]
fn rolls_are_printed_on_several_lines_unless_asked() {
    assert_eq!(command(false, false, false), Command::Rolls(OutputStyle::MultiLine));
    assert_eq!(command(false, false, true), Command::Rolls(OutputStyle::SingleLine));
}

#[test]
fn usage_brief_names_the_program() {
    assert_eq!(
        usage_brief("ev"),
        "Usage: ev [options] [rolls ...]\n\troll: XdY, XdY+Z, XdY-Z (e.g. 1d6, 2d4+1, 3d8-1)"
    );
    assert_eq!(
        usage_brief("./target/dés"),
        "Usage: ./target/dés [options] [rolls ...]\n\troll: XdY, XdY+Z, XdY-Z (e.g. 1d6, 2d4+1, 3d8-1)"
    );
    assert_eq!(
        usage_brief(""),
        "Usage:  [options] [rolls ...]\n\troll: XdY, XdY+Z, XdY-Z (e.g. 1d6, 2d4+1, 3d8-1)"
    );
}
