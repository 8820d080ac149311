use hn_core::theme::capitalize_ascii_like;
use hn_core::theme::toggle_dark_light;

#[test]
fn toggle_dark_to_light() {
    let got = toggle_dark_light("Flexoki Dark", Some(false));
    assert_eq!(got, "Flexoki Light");
}

#[test]
fn toggle_light_to_dark() {
    let got = toggle_dark_light("Flexoki Light", Some(true));
    assert_eq!(got, "Flexoki Dark");
}

#[test]
fn append_light_when_runtime_dark_and_no_token() {
    let got = toggle_dark_light("Flexoki", Some(true));
    assert_eq!(got, "Flexoki Light");
}

#[test]
fn append_dark_when_runtime_light_and_no_token() {
    let got = toggle_dark_light("Flexoki", Some(false));
    assert_eq!(got, "Flexoki Dark");
}

#[test]
fn replace_only_first_occurrence() {
    let got = toggle_dark_light("Darkness Dark", Some(false));
    assert_eq!(got, "Darkness Light");
}

#[test]
fn test_ghost_in_the_shell_toggle() {
    let dark = "Ghost in the Shell Dark";
    let light = "Ghost in the Shell Light";

    // Test Dark -> Light
    let toggled_light = toggle_dark_light(dark, Some(true));
    assert_eq!(toggled_light, light, "Failed to toggle Dark -> Light");

    // Test Light -> Dark
    let toggled_dark = toggle_dark_light(light, Some(false));
    assert_eq!(toggled_dark, dark, "Failed to toggle Light -> Dark");
}

#[test]
fn test_ghost_in_the_shell_lowercase_toggle() {
    // Simulate user error or manual config with lowercase 's'
    let dark = "Ghost in the shell Dark";
    let light = "Ghost in the shell Light";

    // Test Dark -> Light
    let toggled_light = toggle_dark_light(dark, Some(true));
    assert_eq!(
        toggled_light, light,
        "Failed to toggle lowercase Dark -> Light"
    );

    // Test Light -> Dark
    let toggled_dark = toggle_dark_light(light, Some(false));
    assert_eq!(
        toggled_dark, dark,
        "Failed to toggle lowercase Light -> Dark"
    );
}

#[test]
fn toggle_preserves_casing() {
    assert_eq!(toggle_dark_light("SOLARIZED DARK", None), "SOLARIZED LIGHT");
    assert_eq!(toggle_dark_light("solarized light", None), "solarized dark");
    assert_eq!(toggle_dark_light("Solarized Light", None), "Solarized Dark");
    assert_eq!(toggle_dark_light("Solarized dArK", None), "Solarized Light");
    assert_eq!(toggle_dark_light("Solarized lIGHT", None), "Solarized Dark");
}

#[test]
fn toggle_needs_a_word_that_stands_alone() {
    assert_eq!(toggle_dark_light("FlexokiDark", Some(true)), "FlexokiDark Light");
    assert_eq!(toggle_dark_light("FlexokiDark", Some(false)), "FlexokiDark Dark");
    assert_eq!(toggle_dark_light("FlexokiDark", None), "FlexokiDark Dark");
    assert_eq!(toggle_dark_light("Darker", None), "Darker Dark");
    assert_eq!(toggle_dark_light("Caf\u{e9}Dark", None), "Caf\u{e9}Dark Dark");
    assert_eq!(toggle_dark_light("Caf\u{e9} Dark", None), "Caf\u{e9} Light");
    assert_eq!(toggle_dark_light("Dark-Theme", None), "Light-Theme");
    assert_eq!(toggle_dark_light("theme_dark_2", None), "theme_light_2");
    assert_eq!(toggle_dark_light("dark", None), "light");
    assert_eq!(toggle_dark_light("", None), " Dark");
    assert_eq!(toggle_dark_light("", Some(true)), " Light");
}

#[test]
fn toggle_prefers_dark_over_light() {
    assert_eq!(toggle_dark_light("Light Dark", None), "Light Light");
    assert_eq!(toggle_dark_light("Dark Light", None), "Light Light");
    assert_eq!(toggle_dark_light("Dark Dark", None), "Light Dark");
}

#[test]
fn toggle_search_goes_on_behind_a_word_that_does_not_stand_alone() {
    assert_eq!(toggle_dark_light("darkdark dark", None), "darkdark light");
    assert_eq!(toggle_dark_light("xdark dark", None), "xdark light");
    assert_eq!(toggle_dark_light("darkdark", None), "darkdark Dark");
}

#[test]
fn capitalize_first_upper_rest_lower() {
    assert_eq!(capitalize_ascii_like("light"), "Light");
    assert_eq!(capitalize_ascii_like("DARK"), "Dark");
    assert_eq!(capitalize_ascii_like("d"), "D");
    assert_eq!(capitalize_ascii_like(""), "");
    assert_eq!(capitalize_ascii_like("1aB"), "1ab");
}
