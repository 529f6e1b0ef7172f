use property_preview::color::{color_to_data, rgba_to_color, Brush, Color};
use property_preview::number::Number;
use property_preview::text::int_to_string;
use property_preview::units::{
    angle_units, duration_units, length_units, percent_units, position_of, unit_model, Unit,
};

fn samples() -> Vec<f64> {
    vec![
        0.0,
        -0.0,
        0.5,
        -0.5,
        0.999_999_9,
        1.0,
        -1.0,
        1.5,
        -1.5,
        42.0,
        -42.7,
        255.0,
        65_536.25,
        16_777_217.0,
        2_147_483_646.5,
        2_147_483_647.0,
        2_147_483_648.0,
        -2_147_483_648.0,
        -2_147_483_649.0,
        4_294_967_295.0,
        4_294_967_295.5,
        4_294_967_296.0,
        -4_294_967_296.0,
        1e10,
        -1e10,
        1e300,
        -1e300,
        5e-324,
        f64::MIN_POSITIVE,
        f64::MAX,
        f64::MIN,
        f64::INFINITY,
        f64::NEG_INFINITY,
        f64::NAN,
        -f64::NAN,
    ]
}

#[test]
fn a_number_truncates_to_a_signed_integer_as_a_cast_does() {
    for value in samples() {
        assert_eq!(Number::from_bits(value.to_bits()).to_i32(), value as i32, "{value}");
    }
}

#[test]
fn a_number_truncates_to_an_unsigned_integer_as_a_cast_does() {
    for value in samples() {
        assert_eq!(Number::from_bits(value.to_bits()).to_u32(), value as u32, "{value}");
    }
}

#[test]
fn negation_turns_the_sign_and_nothing_else() {
    for value in samples() {
        let negated = Number::from_bits(value.to_bits()).negated();
        assert_eq!(negated.bits, (-value).to_bits(), "{value}");
        assert_eq!(negated.negated().bits, value.to_bits());
    }
    assert_eq!(Number::zero().bits, 0f64.to_bits());
}

#[test]
fn integers_are_rendered_in_decimal() {
    for n in [0, 1, 9, 10, 12, 23, 99, 100, 1000, -1, -10, -42, i32::MAX, i32::MIN] {
        assert_eq!(int_to_string(n), n.to_string());
    }
    assert_eq!(int_to_string(i32::MIN), "-2147483648");
    assert_eq!(int_to_string(1_000_000_007), "1000000007");
}

#[test]
fn a_color_is_taken_apart_and_put_together() {
    let c = Color::from_argb_u8(0xff, 0xaa, 0xbb, 0xcc);
    assert_eq!(c.as_argb_encoded(), 0xffaabbcc);
    assert_eq!((c.alpha(), c.red(), c.green(), c.blue()), (0xff, 0xaa, 0xbb, 0xcc));
    assert_eq!(c.to_text(), "#aabbccff");
    assert_eq!(Color::from_rgb_u8(1, 2, 3).as_argb_encoded(), 0xff010203);
    assert_eq!(Color::from_argb_encoded(0x0a0b0c0d).to_text(), "#0b0c0d0a");
    assert_eq!(Color::transparent().to_text(), "#00000000");
    assert_eq!(Brush::transparent().color(), Color::transparent());
    assert_eq!(Brush::SolidColor(c).color(), c);

    let data = color_to_data(Color::from_argb_encoded(0x40102030));
    assert_eq!((data.a, data.r, data.g, data.b), (0x40, 0x10, 0x20, 0x30));
    assert_eq!(data.text, "#10203040");
}

#[test]
fn channels_out_of_range_give_the_default_color() {
    assert_eq!(rgba_to_color(0x10, 0x20, 0x30, 0x40), Color::from_argb_encoded(0x40102030));
    assert_eq!(rgba_to_color(255, 255, 255, 255), Color::from_argb_encoded(0xffffffff));
    assert_eq!(rgba_to_color(0, 0, 0, 0), Color::transparent());
    assert_eq!(rgba_to_color(256, 0, 0, 255), Color::transparent());
    assert_eq!(rgba_to_color(0, -1, 0, 255), Color::transparent());
    assert_eq!(rgba_to_color(0, 0, 1000, 255), Color::transparent());
    assert_eq!(rgba_to_color(0, 0, 0, 256), Color::transparent());
}

#[test]
fn the_unit_table_lists_the_default_unit_first() {
    assert_eq!(unit_model(&duration_units()), vec!["s", "ms"]);
    assert_eq!(unit_model(&length_units()), vec!["px", "cm", "mm", "in", "pt", "phx", "rem"]);
    assert_eq!(unit_model(&angle_units()), vec!["deg", "grad", "turn", "rad"]);
    assert_eq!(unit_model(&percent_units()), vec!["%"]);
    assert_eq!(unit_model(&vec![]), Vec::<String>::new());
    assert_eq!(Unit::Unitless.name(), "");
    assert_eq!(position_of(&length_units(), Unit::Phx), Some(5));
    assert_eq!(position_of(&length_units(), Unit::S), None);
    assert_eq!(position_of(&vec![Unit::S, Unit::Ms, Unit::S], Unit::S), Some(0));
}
