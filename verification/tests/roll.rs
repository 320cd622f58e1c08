use ev::decimal::{push_decimal, push_halves_decimal, push_signed_decimal};
use ev::{parse, ExpectedValue, OutputStyle, Roll};

#[test]
fn test_roll() {
    let r = Roll::new(1, 6, 0);
    assert_eq!(r.min() as f32, 1.0);
    assert_eq!(r.max() as f32, 6.0);
    assert_eq!(r.ev().doubled as f32 / 2.0, 3.5);

    let r = Roll::new(2, 6, 0);
    assert_eq!(r.min() as f32, 2.0);
    assert_eq!(r.max() as f32, 12.0);
    assert_eq!(r.ev().doubled as f32 / 2.0, 7.0);

    let r = Roll::new(1, 6, 1);
    assert_eq!(r.min() as f32, 2.0);
    assert_eq!(r.max() as f32, 7.0);
    assert_eq!(r.ev().doubled as f32 / 2.0, 4.5);

    let r = Roll::new(1, 6, -1);
    assert_eq!(r.min() as f32, 0.0);
    assert_eq!(r.max() as f32, 5.0);
    assert_eq!(r.ev().doubled as f32 / 2.0, 2.5);
}

#[test]
fn test_print() {
    let r = Roll::new(1, 6, 0);
    assert_eq!(r.to_string(), "1d6");
    let r = Roll::new(2, 4, 1);
    assert_eq!(r.to_string(), "2d4+1");
    let r = Roll::new(3, 10, -1);
    assert_eq!(r.to_string(), "3d10-1");
}

#[test]
fn new_keeps_its_arguments() {
    let r = Roll::new(7, 20, -3);
    assert_eq!(r.num_dice, 7);
    assert_eq!(r.num_faces, 20);
    assert_eq!(r.extra, -3);
    assert_eq!(r, Roll { num_dice: 7, num_faces: 20, extra: -3 });
    assert_ne!(r, Roll::new(7, 20, 3));
}

#[test]
fn statistics_are_whole_numbers_and_halves() {
    let r = Roll::new(2, 4, 1);
    assert_eq!(r.min(), 3);
    assert_eq!(r.max(), 9);
    assert_eq!(r.ev(), ExpectedValue { doubled: 12 });

    let r = Roll::new(3, 10, -1);
    assert_eq!(r.min(), 2);
    assert_eq!(r.max(), 29);
    assert_eq!(r.ev().doubled, 31);

    let r = Roll::new(5, 1, 0);
    assert_eq!(r.min(), 5);
    assert_eq!(r.max(), 5);
    assert_eq!(r.ev().doubled, 10);
}

#[test]
fn bonus_is_added_once() {
    let r = Roll::new(10, 6, 4);
    assert_eq!(r.min(), 14);
    assert_eq!(r.max(), 64);
    assert_eq!(r.ev().doubled, 78);
    assert_eq!(r.ev().to_string(), "39");
}

#[test]
fn statistics_can_be_negative() {
    let r = Roll::new(1, 1, -5);
    assert_eq!(r.min(), -4);
    assert_eq!(r.max(), -4);
    assert_eq!(r.ev().doubled, -8);
    assert_eq!(r.print(), "1d1-5 -4 -4 -4");

    let r = Roll::new(1, 2, -2);
    assert_eq!(r.min(), -1);
    assert_eq!(r.max(), 0);
    assert_eq!(r.ev().doubled, -1);
    assert_eq!(r.print(), "1d2-2 -1 0 -0.5");
}

#[test]
fn statistics_of_the_largest_roll() {
    let r = Roll::new(65535, 65535, 32767);
    assert_eq!(r.min(), 98302);
    assert_eq!(r.max(), 4294868992);
    assert_eq!(r.ev().doubled, 4294967294);
    assert_eq!(r.print(), "65535d65535+32767 98302 4294868992 2147483647");
}

#[test]
fn statistics_of_the_smallest_roll() {
    let r = Roll::new(1, 1, -32768);
    assert_eq!(r.min(), -32767);
    assert_eq!(r.max(), -32767);
    assert_eq!(r.ev().doubled, -65534);
    assert_eq!(r.print(), "1d1-32768 -32767 -32767 -32767");
}

#[test]
fn scenario_one_die_of_six() {
    let r = parse("1d6").unwrap();
    assert_eq!(r.min(), 1);
    assert_eq!(r.max(), 6);
    assert_eq!(r.ev().to_string(), "3.5");
    assert_eq!(r.ev().doubled as f64 / 2.0, 3.5);
}

#[test]
fn scenario_two_dice_of_four_plus_one() {
    let r = parse("2d4+1").unwrap();
    assert_eq!(r.min(), 3);
    assert_eq!(r.max(), 9);
    assert_eq!(r.ev().to_string(), "6");
    assert_eq!(r.ev().doubled as f64 / 2.0, 6.0);
}

#[test]
fn scenario_three_dice_of_ten_minus_one() {
    let r = parse("3d10-1").unwrap();
    assert_eq!(r.min(), 2);
    assert_eq!(r.max(), 29);
    assert_eq!(r.ev().to_string(), "15.5");
    assert_eq!(r.ev().doubled as f64 / 2.0, 15.5);
}

#[test]
fn to_string_leaves_a_zero_bonus_out() {
    assert_eq!(Roll::new(12, 34, 0).to_string(), "12d34");
    assert_eq!(Roll::new(1, 1, 0).to_string(), "1d1");
}

#[test]
fn to_string_always_shows_the_sign() {
    assert_eq!(Roll::new(1, 6, 5).to_string(), "1d6+5");
    assert_eq!(Roll::new(1, 6, -5).to_string(), "1d6-5");
    assert_eq!(Roll::new(65535, 65535, 32767).to_string(), "65535d65535+32767");
    assert_eq!(Roll::new(65535, 65535, -32768).to_string(), "65535d65535-32768");
    assert_eq!(Roll::new(100, 1000, 10).to_string(), "100d1000+10");
}

#[test]
fn print_is_one_line() {
    assert_eq!(Roll::new(1, 6, 0).print(), "1d6 1 6 3.5");
    assert_eq!(Roll::new(2, 4, 1).print(), "2d4+1 3 9 6");
    assert_eq!(Roll::new(3, 10, -1).print(), "3d10-1 2 29 15.5");
}

#[test]
fn pretty_print_is_four_lines() {
    assert_eq!(Roll::new(1, 6, 0).pretty_print(), "1d6:\n\tmin: 1\n\tmax: 6\n\tev : 3.5");
    assert_eq!(Roll::new(2, 4, 1).pretty_print(), "2d4+1:\n\tmin: 3\n\tmax: 9\n\tev : 6");
    assert_eq!(
        Roll::new(3, 10, -1).pretty_print(),
        "3d10-1:\n\tmin: 2\n\tmax: 29\n\tev : 15.5"
    );
}

#[test]
fn render_follows_the_style() {
    let r = Roll::new(4, 8, 2);
    assert_eq!(r.render(&OutputStyle::SingleLine), r.print());
    assert_eq!(r.render(&OutputStyle::MultiLine), r.pretty_print());
    assert_eq!(r.render(&OutputStyle::SingleLine), "4d8+2 6 34 20");
    assert_eq!(r.render(&OutputStyle::MultiLine), "4d8+2:\n\tmin: 6\n\tmax: 34\n\tev : 20");
}

#[test]
fn large_statistics_are_written_in_full() {
    let r = Roll::new(65535, 65535, 0);
    assert_eq!(r.print(), "65535d65535 65535 4294836225 2147450880");
    let r = Roll::new(5000, 9999, 0);
    assert_eq!(r.print(), "5000d9999 5000 49995000 25000000");
    let r = Roll::new(4097, 4096, 0);
    assert_eq!(r.print(), "4097d4096 4097 16781312 8392704.5");
}

#[test]
fn expected_value_to_string() {
    assert_eq!(ExpectedValue { doubled: 7 }.to_string(), "3.5");
    assert_eq!(ExpectedValue { doubled: 12 }.to_string(), "6");
    assert_eq!(ExpectedValue { doubled: 0 }.to_string(), "0");
    assert_eq!(ExpectedValue { doubled: 1 }.to_string(), "0.5");
    assert_eq!(ExpectedValue { doubled: -1 }.to_string(), "-0.5");
    assert_eq!(ExpectedValue { doubled: -7 }.to_string(), "-3.5");
    assert_eq!(ExpectedValue { doubled: -12 }.to_string(), "-6");
    assert_eq!(ExpectedValue { doubled: 201 }.to_string(), "100.5");
}

#[test]
fn expected_value_to_string_at_the_ends() {
    assert_eq!(ExpectedValue { doubled: i64::MAX }.to_string(), "4611686018427387903.5");
    assert_eq!(ExpectedValue { doubled: i64::MIN }.to_string(), "-4611686018427387904");
}

#[test]
fn push_decimal_appends_the_numeral() {
    let mut out = String::new();
    push_decimal(&mut out, 0);
    assert_eq!(out, "0");
    push_decimal(&mut out, 10);
    assert_eq!(out, "010");
    let mut out = String::from("n=");
    push_decimal(&mut out, 9);
    assert_eq!(out, "n=9");
    let mut out = String::new();
    push_decimal(&mut out, 1002003);
    assert_eq!(out, "1002003");
    let mut out = String::new();
    push_decimal(&mut out, u64::MAX);
    assert_eq!(out, "18446744073709551615");
}

#[test]
fn push_decimal_writes_as_std_does() {
    let mut n: u64 = 1;
    for _ in 0..19 {
        for m in [n - 1, n, n + 1, n * 9] {
            let mut out = String::new();
            push_decimal(&mut out, m);
            assert_eq!(out, format!("{}", m));
        }
        n *= 10;
    }
}

#[test]
fn push_signed_decimal_appends_sign_and_numeral() {
    let mut out = String::new();
    push_signed_decimal(&mut out, 0);
    assert_eq!(out, "0");
    let mut out = String::new();
    push_signed_decimal(&mut out, -1);
    assert_eq!(out, "-1");
    let mut out = String::from("x ");
    push_signed_decimal(&mut out, 250);
    assert_eq!(out, "x 250");
    let mut out = String::new();
    push_signed_decimal(&mut out, i64::MIN);
    assert_eq!(out, "-9223372036854775808");
    let mut out = String::new();
    push_signed_decimal(&mut out, i64::MAX);
    assert_eq!(out, "9223372036854775807");
}

#[test]
fn push_halves_decimal_appends_whole_and_half() {
    let mut out = String::from("ev ");
    push_halves_decimal(&mut out, 31);
    assert_eq!(out, "ev 15.5");
    let mut out = String::new();
    push_halves_decimal(&mut out, -31);
    assert_eq!(out, "-15.5");
    let mut out = String::new();
    push_halves_decimal(&mut out, 30);
    assert_eq!(out, "15");
}
