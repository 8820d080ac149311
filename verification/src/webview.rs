//! The script that a web view runs when a page starts to load: it sets the
//! zoom and, where the settings ask for it, puts the colors of the theme on
//! the page.

use crate::text::chars_of;
use crate::text::decimal_string;
use crate::text::ends_with;
use crate::text::join2;
use crate::text::lowercase;
use crate::text::matches_at;
use crate::text::spec_decimal;
use crate::text::spec_ends_with;
use crate::text::spec_matches_at;
use crate::text::unicode_lowercase;
use vstd::prelude::*;
use vstd::string::StringExecFns;

verus! {

/// The settings that the script depends on.
#[derive(Debug)]
pub struct WebviewConfig {
    /// For which themes the colors are put on the page: `none`, `light`,
    /// `dark` or `both`, in letters of either case. Anything else counts as
    /// `none`.
    pub webview_theme_injection: String,
    /// How the colors are put on the page: `css-vars` for custom properties
    /// that leave the styles of the page alone, anything else for styles
    /// that override them.
    pub webview_theme_mode: String,
    /// The domains on whose pages colors are put; on all pages if empty.
    pub webview_trusted_domains: Vec<String>,
}

/// The style block that sets custom properties and leaves the styles of the
/// page alone.
pub const CSS_VARS_STYLE: &'static str = r#"
                var style = document.createElement('style');
                style.setAttribute('data-gpui-theme', 'css-vars');
                var css = '';

                // Set CSS custom properties on :root that sites can optionally use
                css += ':root {' +
                    '--gpui-bg-color: ' + bgColor + ';' +
                    '--gpui-fg-color: ' + fgColor + ';' +
                    '--gpui-link-color: ' + linkColor + ';' +
                '}';

                // Gentle application without !important - respects existing site styles
                css += 'body:not([style*="background"]) {' +
                    'background-color: var(--gpui-bg-color);' +
                    'color: var(--gpui-fg-color);' +
                '}';

                css += 'a:not([style*="color"]) {' +
                    'color: var(--gpui-link-color);' +
                    '}' +
                '}';

                // Content containers can also optionally pick up the variables
                css += 
                    'main:not([style*="background"]), ' +
                    'article:not([style*="background"]), ' +
                    '.content:not([style*="background"]) {' +
                    'background-color: var(--gpui-bg-color);' +
                    'color: var(--gpui-fg-color);' +
                '}';

                style.textContent = css;
                document.head.appendChild(style);
            "#;

/// The style block that overrides the styles of the page.
pub const INVASIVE_STYLE: &'static str = r#"
                // Helper function to check if a color is transparent
                function isTransparent(color) {
                    if (!color || color === 'transparent') return true;
                    if (color === 'rgba(0, 0, 0, 0)') return true;
                    if (color.startsWith('rgba')) {
                        // Check if alpha channel is 0
                        var match = color.match(/rgba?\([^)]+,\s*([0-9.]+)\)/);
                        return match && parseFloat(match[1]) === 0;
                    }
                    return false;
                }

                var style = document.createElement('style');
                style.setAttribute('data-gpui-theme', 'invasive');
                var css = '';

                // Check if html element has a background image
                var htmlStyle = getComputedStyle(document.documentElement);
                var htmlBgImage = htmlStyle.backgroundImage;
                var htmlBgColor = htmlStyle.backgroundColor;

                // Only apply to html if it has no background image
                if (!htmlBgImage || htmlBgImage === 'none') {
                    css += 'html { background-color: ' + bgColor + ' !important; min-height: 100%; }';
                }

                // Check body background
                if (document.body) {
                    var bodyStyle = getComputedStyle(document.body);
                    var bodyBgImage = bodyStyle.backgroundImage;
                    var bodyBgColor = bodyStyle.backgroundColor;

                    // Only apply to body if it has no background image and is transparent
                    if ((!bodyBgImage || bodyBgImage === 'none') && isTransparent(bodyBgColor)) {
                        css += 'body { background-color: transparent !important; }';
                    }
                }

                // Apply to content containers using :not() selectors to avoid overriding
                // elements with inline styles, background classes, or existing background images
                css += 
                    'main:not([style*="background"]):not([class*="bg-"]), ' +
                    'article:not([style*="background"]):not([class*="bg-"]), ' +
                    '.content:not([style*="background"]):not([class*="bg-"]), ' +
                    '.post:not([style*="background"]):not([class*="bg-"]), ' +
                    '.post-content:not([style*="background"]):not([class*="bg-"]), ' +
                    '#content:not([style*="background"]):not([class*="bg-"]) { ' +
                    '    background-color: ' + bgColor + ' !important; ' +
                    '    color: ' + fgColor + ' !important; ' +
                    '}';

                // Apply link colors with more specificity
                css += 
                    'a, a:link, a:visited { ' +
                    '    color: ' + linkColor + ' !important; ' +
                    '}';

                style.textContent = css;
                document.head.appendChild(style);
            "#;

/// The script up to the zoom.
pub const SCRIPT_UP_TO_ZOOM: &'static str = r#"
            (function() {
                var zoom = "#;

/// The script between the zoom and the flag of a dark theme.
pub const SCRIPT_UP_TO_DARK: &'static str = r#";
                var isDarkTheme = "#;

/// The script between the flag of a dark theme and the background color.
pub const SCRIPT_UP_TO_BACKGROUND: &'static str = r#";
                var bgColor = "#;

/// The script between the background color and the foreground color.
pub const SCRIPT_UP_TO_FOREGROUND: &'static str = r#";
                var fgColor = "#;

/// The script between the foreground color and the link color.
pub const SCRIPT_UP_TO_LINK: &'static str = r#";
                var linkColor = "#;

/// The script between the link color and the style block.
pub const SCRIPT_UP_TO_STYLE: &'static str = r#";

                var applyStyles = function() {
                    // Apply zoom to body or html, whichever exists.
                    if (document.body) {
                        document.body.style.zoom = zoom;
                    } else if (document.documentElement) {
                        document.documentElement.style.zoom = zoom;
                    }

                    // Conditionally inject a scoped stylesheet to align WebView content with app theme.
                    "#;

/// The script behind the style block.
pub const SCRIPT_END: &'static str = r#"
                };

                if (document.readyState === 'loading') {
                    document.addEventListener('DOMContentLoaded', applyStyles);
                } else {
                    applyStyles();
                }
            })();
        "#;

/// The text that `serde_json::to_string` makes of a text: the text as a
/// string of JSON, in double quotes and with escapes.
pub uninterp spec fn json_text(text: Seq<char>) -> Seq<char>;

/// `serde_json::to_string` on a text: where it succeeds, the text that it
/// gives is the JSON string of the text, which depends on the text alone.
#[verifier::external_body]
fn json_encode(text: &str) -> (encoded: Result<String, serde_json::Error>)
    ensures
        encoded matches Ok(json) ==> json@ == json_text(text@),
{
    serde_json::to_string(text)
}

/// Whether `got` stands for `text` in the script: its JSON string, or
/// `fallback` where none could be made.
pub open spec fn spec_encodes(got: Seq<char>, text: Seq<char>, fallback: Seq<char>) -> bool {
    got == json_text(text) || got == fallback
}

/// Whether colors are put on pages under the setting `mode`, given in lower
/// case, while the theme is dark or light.
pub open spec fn spec_mode_enabled(mode: Seq<char>, is_dark_theme: bool) -> bool {
    if mode == "light"@ {
        !is_dark_theme
    } else if mode == "dark"@ {
        is_dark_theme
    } else {
        mode == "both"@
    }
}

/// The text without `prefix` at its start, as often as it stands there.
pub open spec fn spec_strip_prefixes(text: Seq<char>, prefix: Seq<char>) -> Seq<char>
    decreases text.len(),
{
    if prefix.len() > 0 && spec_matches_at(text, 0, prefix) {
        spec_strip_prefixes(text.subrange(prefix.len() as int, text.len() as int), prefix)
    } else {
        text
    }
}

/// The text up to its first slash; all of it if it has none.
pub open spec fn spec_until_slash(text: Seq<char>) -> Seq<char>
    decreases text.len(),
{
    if text.len() == 0 || text[0] == '/' {
        Seq::empty()
    } else {
        seq![text[0]] + spec_until_slash(text.drop_first())
    }
}

/// The domain of a URL: what stands between `https://` or `http://` and
/// the first slash.
pub open spec fn spec_domain(url: Seq<char>) -> Seq<char> {
    spec_until_slash(spec_strip_prefixes(spec_strip_prefixes(url, "https://"@), "http://"@))
}

/// Whether a domain is one of the trusted domains or a subdomain of one.
pub open spec fn spec_trusted(domain: Seq<char>, trusted: Seq<String>) -> bool {
    exists|i: int|
        0 <= i < trusted.len() && (domain == (#[trigger] trusted[i])@ || spec_ends_with(
            domain,
            "."@ + trusted[i]@,
        ))
}

/// The characters of a URL that may be missing.
pub open spec fn spec_url(url: Option<&str>) -> Option<Seq<char>> {
    match url {
        Some(url) => Some(url@),
        None => None,
    }
}

/// Whether colors are put on the page at `current_url`: the setting has to
/// allow it for the theme, and where domains are trusted the page has to be
/// on one of them.
pub open spec fn spec_inject_theme(
    config: WebviewConfig,
    is_dark_theme: bool,
    current_url: Option<Seq<char>>,
) -> bool {
    &&& spec_mode_enabled(unicode_lowercase(config.webview_theme_injection@), is_dark_theme)
    &&& config.webview_trusted_domains@.len() == 0 || match current_url {
        Some(url) => spec_trusted(spec_domain(url), config.webview_trusted_domains@),
        None => false,
    }
}

/// The style block of the script: empty where no colors are put on the
/// page.
pub open spec fn spec_style_block(
    config: WebviewConfig,
    is_dark_theme: bool,
    current_url: Option<Seq<char>>,
) -> Seq<char> {
    if !spec_inject_theme(config, is_dark_theme, current_url) {
        Seq::empty()
    } else if unicode_lowercase(config.webview_theme_mode@) == "css-vars"@ {
        CSS_VARS_STYLE@
    } else {
        INVASIVE_STYLE@
    }
}

/// The script with the given values in their places. `zoom`, `background`,
/// `foreground` and `link` are JavaScript literals.
pub open spec fn spec_init_script(
    zoom: Seq<char>,
    is_dark_theme: bool,
    background: Seq<char>,
    foreground: Seq<char>,
    link: Seq<char>,
    style_block: Seq<char>,
) -> Seq<char> {
    SCRIPT_UP_TO_ZOOM@ + zoom + SCRIPT_UP_TO_DARK@ + (if is_dark_theme {
        "true"@
    } else {
        "false"@
    }) + SCRIPT_UP_TO_BACKGROUND@ + background + SCRIPT_UP_TO_FOREGROUND@ + foreground
        + SCRIPT_UP_TO_LINK@ + link + SCRIPT_UP_TO_STYLE@ + style_block + SCRIPT_END@
}

fn strip_prefixes(text: &Vec<char>, from: usize, prefix: &Vec<char>) -> (start: usize)
    requires
        from <= text@.len(),
    ensures
        from <= start <= text@.len(),
        text@.subrange(start as int, text@.len() as int) == spec_strip_prefixes(
            text@.subrange(from as int, text@.len() as int),
            prefix@,
        ),
{
    let n = text.len();
    let m = prefix.len();
    let mut start = from;
    if m == 0 {
        return start;
    }
    while matches_at(text, start, prefix)
        invariant
            from <= start <= n,
            n == text@.len(),
            m == prefix@.len(),
            m > 0,
            spec_strip_prefixes(text@.subrange(start as int, n as int), prefix@)
                == spec_strip_prefixes(text@.subrange(from as int, n as int), prefix@),
        decreases n - start,
    {
        let ghost rest = text@.subrange(start as int, n as int);
        assert(rest.subrange(0, m as int) =~= text@.subrange(start as int, start + m));
        assert(rest.subrange(m as int, rest.len() as int) =~= text@.subrange(start + m, n as int));
        start += m;
    }
    proof {
        let rest = text@.subrange(start as int, n as int);
        if m <= rest.len() {
            assert(rest.subrange(0, m as int) =~= text@.subrange(start as int, start + m));
        }
    }
    start
}

fn until_slash(text: &Vec<char>, from: usize) -> (end: usize)
    requires
        from <= text@.len(),
    ensures
        from <= end <= text@.len(),
        text@.subrange(from as int, end as int) == spec_until_slash(
            text@.subrange(from as int, text@.len() as int),
        ),
{
    let n = text.len();
    let mut end = from;
    while end < n && text[end] != '/'
        invariant
            from <= end <= n,
            n == text@.len(),
            text@.subrange(from as int, end as int) + spec_until_slash(
                text@.subrange(end as int, n as int),
            ) == spec_until_slash(text@.subrange(from as int, n as int)),
        decreases n - end,
    {
        let ghost rest = text@.subrange(end as int, n as int);
        assert(rest[0] == text@[end as int]);
        assert(rest.drop_first() =~= text@.subrange(end + 1, n as int));
        assert(text@.subrange(from as int, end + 1) =~= text@.subrange(from as int, end as int)
            + seq![text@[end as int]]);
        assert(text@.subrange(from as int, end + 1) + spec_until_slash(
            text@.subrange(end + 1, n as int),
        ) =~= text@.subrange(from as int, end as int) + spec_until_slash(rest));
        end += 1;
    }
    proof {
        let rest = text@.subrange(end as int, n as int);
        if end < n {
            assert(rest[0] == text@[end as int]);
        }
        assert(spec_until_slash(rest) =~= Seq::<char>::empty());
        assert(text@.subrange(from as int, end as int) + Seq::<char>::empty() =~= text@.subrange(
            from as int,
            end as int,
        ));
    }
    end
}

/// The domain of a URL: what stands between `https://` or `http://` and
/// the first slash.
pub fn domain_of(url: &str) -> (domain: Vec<char>)
    ensures
        domain@ == spec_domain(url@),
{
    let chars = chars_of(url);
    let n = chars.len();
    let https = chars_of("https://");
    let http = chars_of("http://");
    assert(chars@.subrange(0, n as int) =~= chars@);
    let first = strip_prefixes(&chars, 0, &https);
    let second = strip_prefixes(&chars, first, &http);
    let end = until_slash(&chars, second);
    let mut domain: Vec<char> = Vec::new();
    let mut i = second;
    while i < end
        invariant
            second <= i <= end <= chars@.len(),
            domain@ == chars@.subrange(second as int, i as int),
        decreases end - i,
    {
        domain.push(chars[i]);
        assert(domain@ =~= chars@.subrange(second as int, i + 1));
        i += 1;
    }
    domain
}

fn is_trusted(domain: &Vec<char>, trusted: &Vec<String>) -> (found: bool)
    ensures
        found == spec_trusted(domain@, trusted@),
{
    let mut i: usize = 0;
    while i < trusted.len()
        invariant
            i <= trusted@.len(),
            forall|k: int|
                0 <= k < i ==> !(domain@ == (#[trigger] trusted@[k])@ || spec_ends_with(
                    domain@,
                    "."@ + trusted@[k]@,
                )),
        decreases trusted@.len() - i,
    {
        let name = chars_of(trusted[i].as_str());
        let same = domain.len() == name.len() && matches_at(domain, 0, &name);
        proof {
            if domain@.len() == name@.len() {
                assert(domain@.subrange(0, name@.len() as int) =~= domain@);
            }
        }
        let dotted = join2(".", trusted[i].as_str());
        let suffix = chars_of(dotted.as_str());
        if same || ends_with(domain, &suffix) {
            return true;
        }
        i += 1;
    }
    false
}

/// Whether colors are put on the page at `current_url`.
pub fn inject_theme(config: &WebviewConfig, is_dark_theme: bool, current_url: Option<&str>) -> (inject:
    bool)
    ensures
        inject == spec_inject_theme(
            *config,
            is_dark_theme,
            spec_url(current_url),
        ),
{
    let mode = lowercase(config.webview_theme_injection.as_str());
    let enabled = if mode.as_str().eq("light") {
        !is_dark_theme
    } else if mode.as_str().eq("dark") {
        is_dark_theme
    } else {
        mode.as_str().eq("both")
    };
    if !enabled {
        false
    } else if config.webview_trusted_domains.len() == 0 {
        true
    } else {
        match current_url {
            Some(url) => {
                let domain = domain_of(url);
                is_trusted(&domain, &config.webview_trusted_domains)
            },
            None => false,
        }
    }
}

/// The style block of the script: empty where no colors are put on the
/// page.
pub fn style_block(config: &WebviewConfig, is_dark_theme: bool, current_url: Option<&str>) -> (block:
    &'static str)
    ensures
        block@ == spec_style_block(
            *config,
            is_dark_theme,
            spec_url(current_url),
        ),
{
    if !inject_theme(config, is_dark_theme, current_url) {
        proof {
            reveal_strlit("");
        }
        let block = "";
        assert(block@ =~= Seq::<char>::empty());
        block
    } else {
        let mode = lowercase(config.webview_theme_mode.as_str());
        if mode.as_str().eq("css-vars") {
            CSS_VARS_STYLE
        } else {
            INVASIVE_STYLE
        }
    }
}

/// Writes the script with the given values in their places. `zoom`,
/// `background`, `foreground` and `link` are JavaScript literals.
pub fn build_init_script(
    zoom: &str,
    is_dark_theme: bool,
    background: &str,
    foreground: &str,
    link: &str,
    style_block: &str,
) -> (script: String)
    ensures
        script@ == spec_init_script(
            zoom@,
            is_dark_theme,
            background@,
            foreground@,
            link@,
            style_block@,
        ),
{
    let mut script = String::from_str(SCRIPT_UP_TO_ZOOM);
    script.append(zoom);
    script.append(SCRIPT_UP_TO_DARK);
    script.append(
        if is_dark_theme {
            "true"
        } else {
            "false"
        },
    );
    script.append(SCRIPT_UP_TO_BACKGROUND);
    script.append(background);
    script.append(SCRIPT_UP_TO_FOREGROUND);
    script.append(foreground);
    script.append(SCRIPT_UP_TO_LINK);
    script.append(link);
    script.append(SCRIPT_UP_TO_STYLE);
    script.append(style_block);
    script.append(SCRIPT_END);
    script
}

fn encoded(text: &str, fallback: &str) -> (got: String)
    ensures
        spec_encodes(got@, text@, fallback@),
{
    match json_encode(text) {
        Ok(json) => json,
        Err(_) => String::from_str(fallback),
    }
}

/// Writes the script that sets the zoom to `zoom_level` percent and, where
/// the settings ask for it at `current_url`, puts the colors on the page.
///
/// Zoom and colors stand in the script as strings of JSON; where one cannot
/// be made, `"100%"` stands for the zoom, `"#000000"` for the background
/// and the foreground and `"#0000FF"` for the links.
pub fn make_init_script(
    config: &WebviewConfig,
    is_dark_theme: bool,
    bg_color: &str,
    fg_color: &str,
    link_color: &str,
    zoom_level: u32,
    current_url: Option<&str>,
) -> (script: String)
    ensures
        exists|zoom: Seq<char>, background: Seq<char>, foreground: Seq<char>, link: Seq<char>|
            {
                &&& spec_encodes(zoom, spec_decimal(zoom_level as nat) + "%"@, "\"100%\""@)
                &&& spec_encodes(background, bg_color@, "\"#000000\""@)
                &&& spec_encodes(foreground, fg_color@, "\"#000000\""@)
                &&& spec_encodes(link, link_color@, "\"#0000FF\""@)
                &&& script@ == #[trigger] spec_init_script(
                    zoom,
                    is_dark_theme,
                    background,
                    foreground,
                    link,
                    spec_style_block(
                        *config,
                        is_dark_theme,
                        spec_url(current_url),
                    ),
                )
            },
{
    let number = decimal_string(zoom_level as u64);
    let zoom_text = join2(number.as_str(), "%");
    let zoom = encoded(zoom_text.as_str(), "\"100%\"");
    let background = encoded(bg_color, "\"#000000\"");
    let foreground = encoded(fg_color, "\"#000000\"");
    let link = encoded(link_color, "\"#0000FF\"");
    let block = style_block(config, is_dark_theme, current_url);
    let script = build_init_script(
        zoom.as_str(),
        is_dark_theme,
        background.as_str(),
        foreground.as_str(),
        link.as_str(),
        block,
    );
    assert(script@ == spec_init_script(
        zoom@,
        is_dark_theme,
        background@,
        foreground@,
        link@,
        block@,
    ));
    script
}

} // verus!
