use applet_framework::data::Color3;

#[test]
fn css_hex_of_color() {
    let c = Color3 { red: 218, green: 153, blue: 41 };
    assert_eq!(c.as_css_hex(), "#da9929");
    assert_eq!(Color3 { red: 0, green: 0, blue: 0 }.as_css_hex(), "#000000");
    assert_eq!(Color3 { red: 255, green: 255, blue: 255 }.as_css_hex(), "#ffffff");
    assert_eq!(Color3 { red: 1, green: 16, blue: 171 }.as_css_hex(), "#0110ab");
}

#[test]
fn parse_color_from_hex() {
    assert_eq!(Color3::parse_from_hex("#da9929"), Some(Color3 { red: 218, green: 153, blue: 41 }));
    assert_eq!(Color3::parse_from_hex("#000000"), Some(Color3 { red: 0, green: 0, blue: 0 }));
    assert_eq!(Color3::parse_from_hex("#ff10a0"), Some(Color3 { red: 255, green: 16, blue: 160 }));
}

#[test]
fn color_round_trip_over_many_values() {
    for red in (0..=255u16).step_by(5) {
        for green in [0u8, 1, 9, 10, 15, 16, 127, 128, 200, 254, 255] {
            for blue in [0u8, 17, 34, 99, 255] {
                let c = Color3 { red: red as u8, green, blue };
                assert_eq!(Color3::parse_from_hex(&c.as_css_hex()), Some(c));
            }
        }
    }
}

#[test]
fn parse_color_rejects_malformed_strings() {
    assert_eq!(Color3::parse_from_hex("da9929"), None);
    assert_eq!(Color3::parse_from_hex("#da992"), None);
    assert_eq!(Color3::parse_from_hex("#da99290"), None);
    assert_eq!(Color3::parse_from_hex(""), None);
    assert_eq!(Color3::parse_from_hex("#"), None);
    assert_eq!(Color3::parse_from_hex("#zz9929"), None);
    assert_eq!(Color3::parse_from_hex("#DA9929"), None);
    assert_eq!(Color3::parse_from_hex("xda9929"), None);
    assert_eq!(Color3::parse_from_hex("#da99g9"), None);
    assert_eq!(Color3::parse_from_hex("#da99é"), None);
}
