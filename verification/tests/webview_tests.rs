use hn_core::webview::build_init_script;
use hn_core::webview::domain_of;
use hn_core::webview::inject_theme;
use hn_core::webview::make_init_script;
use hn_core::webview::style_block;
use hn_core::webview::WebviewConfig;
use hn_core::webview::CSS_VARS_STYLE;
use hn_core::webview::INVASIVE_STYLE;

fn mock_config(theme_injection: &str) -> WebviewConfig {
    WebviewConfig {
        webview_theme_injection: theme_injection.to_string(),
        webview_theme_mode: "invasive".to_string(),
        webview_trusted_domains: Vec::new(),
    }
}

fn trusting(domains: &[&str]) -> WebviewConfig {
    WebviewConfig {
        webview_theme_injection: "both".to_string(),
        webview_theme_mode: "invasive".to_string(),
        webview_trusted_domains: domains.iter().map(|d| d.to_string()).collect(),
    }
}

#[test]
fn test_zoom_always_included() {
    let config = mock_config("none");
    let script = make_init_script(&config, false, "#FFFFFF", "#000000", "#0000FF", 100, None);

    // Verify zoom is included
    assert!(script.contains("var zoom = \"100%\""));
    assert!(script.contains("document.body.style.zoom = zoom"));
}

#[test]
fn test_zoom_levels() {
    let config = mock_config("none");

    let script_100 =
        make_init_script(&config, false, "#FFFFFF", "#000000", "#0000FF", 100, None);
    assert!(script_100.contains("\"100%\""));

    let script_120 =
        make_init_script(&config, false, "#FFFFFF", "#000000", "#0000FF", 120, None);
    assert!(script_120.contains("\"120%\""));

    let script_150 =
        make_init_script(&config, false, "#FFFFFF", "#000000", "#0000FF", 150, None);
    assert!(script_150.contains("\"150%\""));
}

#[test]
fn test_theme_injection_none() {
    let config = mock_config("none");

    // Should not inject theme for either dark or light
    let script_dark =
        make_init_script(&config, true, "#000000", "#FFFFFF", "#0000FF", 120, None);
    assert!(!script_dark.contains("createElement('style')"));

    let script_light =
        make_init_script(&config, false, "#FFFFFF", "#000000", "#0000FF", 120, None);
    assert!(!script_light.contains("createElement('style')"));
}

#[test]
fn test_theme_injection_light_only() {
    let config = mock_config("light");

    // Should inject for light theme only
    let script_light =
        make_init_script(&config, false, "#FFFFFF", "#000000", "#0000FF", 120, None);
    assert!(script_light.contains("createElement('style')"));
    assert!(script_light.contains("data-gpui-theme"));

    // Should NOT inject for dark theme
    let script_dark =
        make_init_script(&config, true, "#000000", "#FFFFFF", "#0000FF", 120, None);
    assert!(!script_dark.contains("createElement('style')"));
}

#[test]
fn test_theme_injection_dark_only() {
    let config = mock_config("dark");

    // Should inject for dark theme only
    let script_dark =
        make_init_script(&config, true, "#000000", "#FFFFFF", "#0000FF", 120, None);
    assert!(script_dark.contains("createElement('style')"));
    assert!(script_dark.contains("data-gpui-theme"));

    // Should NOT inject for light theme
    let script_light =
        make_init_script(&config, false, "#FFFFFF", "#000000", "#0000FF", 120, None);
    assert!(!script_light.contains("createElement('style')"));
}

#[test]
fn test_theme_injection_both() {
    let config = mock_config("both");

    // Should inject for both dark and light themes
    let script_dark =
        make_init_script(&config, true, "#000000", "#FFFFFF", "#0000FF", 120, None);
    assert!(script_dark.contains("createElement('style')"));

    let script_light =
        make_init_script(&config, false, "#FFFFFF", "#000000", "#0000FF", 120, None);
    assert!(script_light.contains("createElement('style')"));
}

#[test]
fn test_theme_injection_invalid_mode() {
    let config = mock_config("invalid_mode");

    // Unknown modes should be treated as "none"
    let script = make_init_script(&config, false, "#FFFFFF", "#000000", "#0000FF", 120, None);
    assert!(!script.contains("createElement('style')"));
}

#[test]
fn test_color_values_in_script() {
    let config = mock_config("both");
    let script = make_init_script(&config, true, "#123456", "#ABCDEF", "#FF00FF", 120, None);

    // Verify colors are JSON-encoded and present
    assert!(script.contains("var bgColor = \"#123456\""));
    assert!(script.contains("var fgColor = \"#ABCDEF\""));
    assert!(script.contains("var linkColor = \"#FF00FF\""));
}

#[test]
fn test_dark_theme_flag() {
    let config = mock_config("none");

    let script_dark =
        make_init_script(&config, true, "#000000", "#FFFFFF", "#0000FF", 120, None);
    assert!(script_dark.contains("var isDarkTheme = true"));

    let script_light =
        make_init_script(&config, false, "#FFFFFF", "#000000", "#0000FF", 120, None);
    assert!(script_light.contains("var isDarkTheme = false"));
}

#[test]
fn test_css_selectors_present() {
    let config = mock_config("both");
    let script = make_init_script(&config, true, "#000000", "#FFFFFF", "#0000FF", 120, None);

    // Verify CSS selectors are included when theme injection is enabled
    assert!(script.contains("html {"));
    assert!(script.contains("body {"));
    // Check for enhanced selectors with :not() clauses
    assert!(script.contains("main:not([style*=\"background\"]):not([class*=\"bg-\"])"));
    assert!(script.contains("article:not([style*=\"background\"]):not([class*=\"bg-\"])"));
    assert!(script.contains("a, a:link, a:visited {"));
}

#[test]
fn test_script_has_iife_structure() {
    let config = mock_config("none");
    let script = make_init_script(&config, false, "#FFFFFF", "#000000", "#0000FF", 120, None);

    // Verify the script has IIFE (Immediately Invoked Function Expression) structure
    assert!(script.contains("(function() {"));
    assert!(script.contains("})();"));
}

#[test]
fn test_dom_ready_handling() {
    let config = mock_config("none");
    let script = make_init_script(&config, false, "#FFFFFF", "#000000", "#0000FF", 120, None);

    // Verify DOMContentLoaded event handling
    assert!(script.contains("if (document.readyState === 'loading')"));
    assert!(script.contains("document.addEventListener('DOMContentLoaded', applyStyles)"));
    assert!(script.contains("applyStyles();"));
}

#[test]
fn test_case_insensitive_injection_mode() {
    // Test that uppercase "BOTH" works
    let config_upper = mock_config("BOTH");
    let script_upper = make_init_script(
        &config_upper,
        true,
        "#000000",
        "#FFFFFF",
        "#0000FF",
        120,
        None,
    );
    assert!(script_upper.contains("createElement('style')"));

    // Test that mixed case "Dark" works
    let config_mixed = mock_config("Dark");
    let script_mixed = make_init_script(
        &config_mixed,
        true,
        "#000000",
        "#FFFFFF",
        "#0000FF",
        120,
        None,
    );
    assert!(script_mixed.contains("createElement('style')"));
}

#[test]
fn test_background_image_detection() {
    let config = mock_config("both");
    let script = make_init_script(&config, true, "#000000", "#FFFFFF", "#0000FF", 120, None);

    // Verify background image detection is included
    assert!(script.contains("getComputedStyle(document.documentElement)"));
    assert!(script.contains("htmlBgImage"));
    assert!(script.contains("bodyBgImage"));
    assert!(script.contains("htmlBgImage === 'none'"));
}

#[test]
fn test_transparency_detection_helper() {
    let config = mock_config("both");
    let script = make_init_script(&config, true, "#000000", "#FFFFFF", "#0000FF", 120, None);

    // Verify isTransparent helper function is included
    assert!(script.contains("function isTransparent(color)"));
    assert!(script.contains("color === 'transparent'"));
    assert!(script.contains("rgba(0, 0, 0, 0)"));
}

#[test]
fn test_selective_selector_targeting() {
    let config = mock_config("both");
    let script = make_init_script(&config, true, "#000000", "#FFFFFF", "#0000FF", 120, None);

    // Verify :not() selectors are used to avoid overriding existing styles
    assert!(script.contains(":not([style*=\"background\"])"));
    assert!(script.contains(":not([class*=\"bg-\"])"));

    // Check that content selectors use the selective targeting
    assert!(script.contains(".content:not([style*=\"background\"]):not([class*=\"bg-\"])"));
    assert!(script.contains(".post:not([style*=\"background\"]):not([class*=\"bg-\"])"));
}

#[test]
fn test_css_vars_mode() {
    let mut config = mock_config("both");
    config.webview_theme_mode = "css-vars".to_string();
    let script = make_init_script(&config, true, "#000000", "#FFFFFF", "#0000FF", 120, None);

    // Verify CSS variables are set
    assert!(script.contains("'data-gpui-theme', 'css-vars'"));
    assert!(script.contains(":root {"));
    assert!(script.contains("--gpui-bg-color:"));
    assert!(script.contains("--gpui-fg-color:"));
    assert!(script.contains("--gpui-link-color:"));
}

#[test]
fn test_invasive_mode_default() {
    let config = mock_config("both");
    let script = make_init_script(&config, true, "#000000", "#FFFFFF", "#0000FF", 120, None);

    // Verify invasive mode is used by default
    assert!(script.contains("'data-gpui-theme', 'invasive'"));
    assert!(script.contains("!important"));
}

#[test]
fn test_css_vars_no_important() {
    let mut config = mock_config("both");
    config.webview_theme_mode = "css-vars".to_string();
    let script = make_init_script(&config, true, "#000000", "#FFFFFF", "#0000FF", 120, None);

    // Verify CSS vars mode does NOT use !important for theme colors
    assert!(!script.contains("background-color:' + bgColor + ' !important"));
    assert!(!script.contains("color:' + fgColor + ' !important"));
}

#[test]
fn test_css_vars_root_selector() {
    let mut config = mock_config("both");
    config.webview_theme_mode = "css-vars".to_string();
    let script = make_init_script(&config, true, "#000000", "#FFFFFF", "#0000FF", 120, None);

    // Verify :root selector is used for CSS variables
    assert!(script.contains(":root {"));
    assert!(script.contains("var(--gpui-bg-color)"));
    assert!(script.contains("var(--gpui-fg-color)"));
    assert!(script.contains("var(--gpui-link-color)"));
}

#[test]
fn test_css_vars_respects_injection_mode() {
    let mut config = mock_config("none");
    config.webview_theme_mode = "css-vars".to_string();
    let script = make_init_script(&config, true, "#000000", "#FFFFFF", "#0000FF", 120, None);

    // If injection is "none", CSS vars should not be injected either
    assert!(!script.contains(":root"));
    assert!(!script.contains("--gpui-bg-color"));
}

#[test]
fn test_css_vars_case_insensitive() {
    let mut config = mock_config("both");
    config.webview_theme_mode = "CSS-VARS".to_string();
    let script = make_init_script(&config, true, "#000000", "#FFFFFF", "#0000FF", 120, None);

    // Verify mode detection is case-insensitive
    assert!(script.contains("'data-gpui-theme', 'css-vars'"));
    assert!(script.contains(":root {"));
}

#[test]
fn init_script_puts_the_values_in_their_places() {
    let script = build_init_script("\"120%\"", true, "\"#111111\"", "\"#222222\"", "\"#333333\"", "STYLE");
    assert!(script.starts_with("\n            (function() {\n                var zoom = \"120%\";\n"));
    assert!(script.contains("var isDarkTheme = true;\n"));
    assert!(script.contains("var bgColor = \"#111111\";\n"));
    assert!(script.contains("var fgColor = \"#222222\";\n"));
    assert!(script.contains("var linkColor = \"#333333\";\n"));
    assert!(script.contains("app theme.\n                    STYLE\n                };"));
    assert!(script.ends_with("            })();\n        "));
    let plain = make_init_script(&mock_config("none"), false, "#FFFFFF", "#000000", "#0000FF", 120, None);
    assert_eq!(
        plain,
        build_init_script("\"120%\"", false, "\"#FFFFFF\"", "\"#000000\"", "\"#0000FF\"", "")
    );
    let styled = make_init_script(&mock_config("both"), false, "#FFFFFF", "#000000", "#0000FF", 0, None);
    assert_eq!(
        styled,
        build_init_script("\"0%\"", false, "\"#FFFFFF\"", "\"#000000\"", "\"#0000FF\"", INVASIVE_STYLE)
    );
}

#[test]
fn init_script_escapes_what_it_is_given() {
    let script = make_init_script(&mock_config("none"), false, "a\"b", "c\\d", "e\nf", 4294967295, None);
    assert!(script.contains("var zoom = \"4294967295%\";"));
    assert!(script.contains("var bgColor = \"a\\\"b\";"));
    assert!(script.contains("var fgColor = \"c\\\\d\";"));
    assert!(script.contains("var linkColor = \"e\\nf\";"));
}

#[test]
fn style_block_by_mode() {
    assert_eq!(style_block(&mock_config("none"), true, None), "");
    assert_eq!(style_block(&mock_config("both"), true, None), INVASIVE_STYLE);
    let mut config = mock_config("both");
    config.webview_theme_mode = "Css-Vars".to_string();
    assert_eq!(style_block(&config, true, None), CSS_VARS_STYLE);
    config.webview_theme_mode = "css_vars".to_string();
    assert_eq!(style_block(&config, true, None), INVASIVE_STYLE);
}

#[test]
fn domain_of_a_url() {
    let text = |d: Vec<char>| d.into_iter().collect::<String>();
    assert_eq!(text(domain_of("https://example.com/path?q=1")), "example.com");
    assert_eq!(text(domain_of("http://example.com")), "example.com");
    assert_eq!(text(domain_of("example.com/a/b")), "example.com");
    assert_eq!(text(domain_of("https://https://http://http://x.org/")), "x.org");
    assert_eq!(text(domain_of("http://https://x.org/")), "https:");
    assert_eq!(text(domain_of("https:///x")), "");
    assert_eq!(text(domain_of("")), "");
    assert_eq!(text(domain_of("ftp://x.org/")), "ftp:");
}

#[test]
fn trusted_domains_limit_the_injection() {
    let config = trusting(&["example.com", "rust-lang.org"]);
    assert!(inject_theme(&config, true, Some("https://example.com/page")));
    assert!(inject_theme(&config, false, Some("http://www.example.com")));
    assert!(inject_theme(&config, false, Some("https://doc.rust-lang.org/std/")));
    assert!(!inject_theme(&config, false, Some("https://notexample.com/")));
    assert!(!inject_theme(&config, false, Some("https://example.com.evil.net/")));
    assert!(!inject_theme(&config, false, Some("https://example.org/")));
    assert!(!inject_theme(&config, false, Some("")));
    assert!(!inject_theme(&config, false, None));
    // Without trusted domains every page gets the colors.
    assert!(inject_theme(&trusting(&[]), false, None));
    assert!(inject_theme(&trusting(&[]), false, Some("https://anything.net/")));
    // The setting of the theme comes first.
    let mut light_only = trusting(&["example.com"]);
    light_only.webview_theme_injection = "light".to_string();
    assert!(!inject_theme(&light_only, true, Some("https://example.com/")));
    assert!(inject_theme(&light_only, false, Some("https://example.com/")));
    assert!(make_init_script(&config, true, "#000000", "#FFFFFF", "#0000FF", 120, Some("https://example.com/"))
        .contains("createElement('style')"));
    assert!(!make_init_script(&config, true, "#000000", "#FFFFFF", "#0000FF", 120, Some("https://example.org/"))
        .contains("createElement('style')"));
}
