use img2laser::SinusoidShadingConfig;

#[test]
fn set_counts_from_text() {
    let mut c = SinusoidShadingConfig::default();
    c.set_field("lines", "32");
    assert_eq!(c.lines, 32);
    c.set_field("width", "+640");
    assert_eq!(c.width, 640);
    c.set_field("height", "abc");
    assert_eq!(c.height, 512);
    c.set_field("lines", "4294967296");
    assert_eq!(c.lines, 64);
    c.set_field("lines", "");
    assert_eq!(c.lines, 64);
    c.set_field("width", "-3");
    assert_eq!(c.width, 512);
}

#[test]
fn set_decimals_from_text() {
    let mut c = SinusoidShadingConfig::default();
    c.set_field("amplitude", "0.25");
    assert_eq!(c.amplitude, 250_000);
    c.set_field("min_freq", ".5");
    assert_eq!(c.min_freq, 500_000);
    c.set_field("max_freq", "3.");
    assert_eq!(c.max_freq, 3_000_000);
    c.set_field("sample_freq", "1.2345678");
    assert_eq!(c.sample_freq, 1_234_567);
    c.set_field("amplitude", "4294.967295");
    assert_eq!(c.amplitude, 4_294_967_295);
    c.set_field("amplitude", "4294.967296");
    assert_eq!(c.amplitude, 400_000);
    c.set_field("min_freq", "-0.3");
    assert_eq!(c.min_freq, 1_000);
    c.set_field("max_freq", ".");
    assert_eq!(c.max_freq, 2_000_000);
    c.set_field("sample_freq", "1.2.3");
    assert_eq!(c.sample_freq, 5_000_000);
}

#[test]
fn unknown_field_is_ignored() {
    let mut c = SinusoidShadingConfig::default();
    c.set_field("colour", "7");
    assert_eq!(c, SinusoidShadingConfig::default());
}

#[test]
fn get_fields_as_text() {
    let mut c = SinusoidShadingConfig::default();
    assert_eq!(c.get_field("lines"), "64");
    assert_eq!(c.get_field("width"), "512");
    assert_eq!(c.get_field("height"), "512");
    assert_eq!(c.get_field("sample_freq"), "5");
    assert_eq!(c.get_field("min_freq"), "0.001");
    assert_eq!(c.get_field("max_freq"), "2");
    assert_eq!(c.get_field("amplitude"), "0.4");
    assert_eq!(c.get_field("nothing"), "0");
    c.sample_freq = 1_234_567;
    assert_eq!(c.get_field("sample_freq"), "1.234567");
    c.amplitude = 1_500_000;
    assert_eq!(c.get_field("amplitude"), "1.5");
    c.lines = 0;
    assert_eq!(c.get_field("lines"), "0");
}

#[test]
fn text_round_trip() {
    let mut c = SinusoidShadingConfig::default();
    for v in ["0.05", "12.5", "7", "0.000001"] {
        c.set_field("max_freq", v);
        assert_eq!(c.get_field("max_freq"), v);
    }
}
