//! Settings of the application and the values they take when none are
//! given.

use crate::text::join2;
use std::collections::HashMap;
use vstd::prelude::*;
use vstd::string::StringExecFns;

verus! {

/// What a key binding triggers.
#[derive(Debug, Clone, Copy, PartialEq, Eq, Hash, Structural)]
pub enum Action {
    Quit,
    Back,
    FocusSearch,
    CycleSearchMode,
    CycleSortOption,
    ToggleSortOrder,
    ScrollDown,
    ScrollUp,
    ScrollToTop,
    ToggleBookmark,
    ShowBookmarks,
    ShowHistory,
    ClearHistory,
    OpenThemeEditor,
    ShowLogViewer,
    /// Nothing: a key bound to it triggers no action.
    Unbound,
}

/// Settings of the log.
#[derive(Debug)]
pub struct LogConfig {
    pub log_level: String,
    pub log_dir: String,
    pub module_filters: HashMap<String, String>,
    pub enable_performance_metrics: bool,
}

/// Settings of accessibility.
#[derive(Debug, Clone, Copy, PartialEq, Eq, Structural)]
pub struct AccessibilityConfig {
    pub high_contrast_mode: bool,
    pub verbose_status: bool,
}

/// The format of the status bar.
pub fn default_status_bar_format() -> (format: String)
    ensures
        format@ == "{mode} | {category} | {count} items"@,
{
    "{mode} | {category} | {count} items".to_owned()
}

/// The items shown for a story in the list view, in their order.
pub fn default_list_view_items() -> (items: Vec<String>)
    ensures
        items@.len() == 5,
        items@[0]@ == "score"@,
        items@[1]@ == "comments"@,
        items@[2]@ == "domain"@,
        items@[3]@ == "age"@,
        items@[4]@ == "author"@,
{
    let mut items: Vec<String> = Vec::new();
    items.push("score".to_owned());
    items.push("comments".to_owned());
    items.push("domain".to_owned());
    items.push("age".to_owned());
    items.push("author".to_owned());
    items
}

/// The number of retries.
pub fn default_max_retries() -> (retries: u32)
    ensures
        retries == 3,
{
    3
}

/// The wait before the first retry, in milliseconds.
pub fn default_initial_retry_delay_ms() -> (delay: u64)
    ensures
        delay == 1000,
{
    1000
}

/// The longest wait between retries, in milliseconds.
pub fn default_max_retry_delay_ms() -> (delay: u64)
    ensures
        delay == 30000,
{
    30000
}

/// The log level.
pub fn default_log_level() -> (level: String)
    ensures
        level@ == "info"@,
{
    "info".to_owned()
}

/// The directory of the log files.
pub fn default_log_dir() -> (dir: String)
    ensures
        dir@ == "./logs"@,
{
    "./logs".to_owned()
}

/// Whether performance metrics are logged.
pub fn default_enable_performance_metrics() -> (enabled: bool)
    ensures
        !enabled,
{
    false
}

/// For which themes colors are injected into web pages: for none.
pub fn default_webview_theme_injection() -> (mode: String)
    ensures
        mode@ == "none"@,
{
    "none".to_owned()
}

/// The zoom of web pages, in percent.
pub fn default_webview_zoom() -> (zoom: u32)
    ensures
        zoom == 120,
{
    120
}

/// How theme colors are injected into web pages.
pub fn default_webview_theme_mode() -> (mode: String)
    ensures
        mode@ == "invasive"@,
{
    "invasive".to_owned()
}

/// The run of characters after which a break opportunity is inserted.
pub fn default_soft_wrap_max_run() -> (run: usize)
    ensures
        run == 20,
{
    20
}

/// The name of the theme.
pub fn default_theme_name() -> (name: String)
    ensures
        name@ == "Flexoki Light"@,
{
    "Flexoki Light".to_owned()
}

/// The file or directory of the themes.
pub fn default_theme_file() -> (file: String)
    ensures
        file@ == "./themes"@,
{
    "./themes".to_owned()
}

/// The key bindings, as pairs of key and action.
pub open spec fn spec_default_keybindings() -> Seq<(Seq<char>, Action)> {
    seq![
        ("q"@, Action::Quit),
        ("escape"@, Action::Back),
        ("ctrl+r"@, Action::FocusSearch),
        ("ctrl+m"@, Action::CycleSearchMode),
        ("ctrl+s"@, Action::CycleSortOption),
        ("o"@, Action::ToggleSortOrder),
        ("j"@, Action::ScrollDown),
        ("k"@, Action::ScrollUp),
        ("g"@, Action::ScrollToTop),
        ("b"@, Action::ToggleBookmark),
        ("shift+b"@, Action::ShowBookmarks),
        ("shift+h"@, Action::ShowHistory),
        ("shift+x"@, Action::ClearHistory),
        ("t"@, Action::OpenThemeEditor),
        ("shift+l"@, Action::ShowLogViewer),
    ]
}

/// The texts of the keys and their actions.
pub open spec fn spec_bindings(bindings: Seq<(String, Action)>) -> Seq<(Seq<char>, Action)> {
    bindings.map_values(|binding: (String, Action)| (binding.0@, binding.1))
}

/// The key bindings, as pairs of key and action.
pub fn default_keybindings() -> (bindings: Vec<(String, Action)>)
    ensures
        spec_bindings(bindings@) == spec_default_keybindings(),
{
    let mut bindings: Vec<(String, Action)> = Vec::new();
    bindings.push(("q".to_owned(), Action::Quit));
    bindings.push(("escape".to_owned(), Action::Back));
    bindings.push(("ctrl+r".to_owned(), Action::FocusSearch));
    bindings.push(("ctrl+m".to_owned(), Action::CycleSearchMode));
    bindings.push(("ctrl+s".to_owned(), Action::CycleSortOption));
    bindings.push(("o".to_owned(), Action::ToggleSortOrder));
    bindings.push(("j".to_owned(), Action::ScrollDown));
    bindings.push(("k".to_owned(), Action::ScrollUp));
    bindings.push(("g".to_owned(), Action::ScrollToTop));
    bindings.push(("b".to_owned(), Action::ToggleBookmark));
    bindings.push(("shift+b".to_owned(), Action::ShowBookmarks));
    bindings.push(("shift+h".to_owned(), Action::ShowHistory));
    bindings.push(("shift+x".to_owned(), Action::ClearHistory));
    bindings.push(("t".to_owned(), Action::OpenThemeEditor));
    bindings.push(("shift+l".to_owned(), Action::ShowLogViewer));
    assert(spec_bindings(bindings@) =~= spec_default_keybindings());
    bindings
}

/// Whether one of `bindings` is for `key`.
pub open spec fn spec_binds(bindings: Seq<(Seq<char>, Action)>, key: Seq<char>) -> bool {
    exists|i: int| 0 <= i < bindings.len() && (#[trigger] bindings[i]).0 == key
}

/// The bindings of the user completed by the default ones: the bindings of
/// the user as they are, and behind them each default binding for a key
/// that the user has not bound. A key that the user has bound to
/// [`Action::Unbound`] stays unbound.
pub open spec fn spec_with_defaults(
    user: Seq<(Seq<char>, Action)>,
    defaults: Seq<(Seq<char>, Action)>,
) -> Seq<(Seq<char>, Action)> {
    user + defaults.filter(|binding: (Seq<char>, Action)| !spec_binds(user, binding.0))
}

/// Completes the bindings of the user by the default ones.
pub fn with_default_keybindings(user: Vec<(String, Action)>, defaults: Vec<(String, Action)>) -> (merged:
    Vec<(String, Action)>)
    ensures
        spec_bindings(merged@) == spec_with_defaults(spec_bindings(user@), spec_bindings(defaults@)),
{
    let ghost mine = spec_bindings(user@);
    let ghost all = spec_bindings(defaults@);
    let ghost unbound = |binding: (Seq<char>, Action)| !spec_binds(mine, binding.0);
    let user_len = user.len();
    let mut merged = user;
    let ghost given = defaults@;
    for binding in it: defaults
        invariant
            it.seq() == given,
            all == spec_bindings(given),
            user_len <= merged@.len(),
            spec_bindings(merged@).take(user_len as int) == mine,
            mine.len() == user_len,
            unbound == (|binding: (Seq<char>, Action)| !spec_binds(mine, binding.0)),
            spec_bindings(merged@) == mine + all.take(it.index() as int).filter(unbound),
    {
        let ghost at = it.index() as int;
        let ghost earlier = merged@;
        let mut bound = false;
        let mut i: usize = 0;
        while i < user_len && !bound
            invariant
                i <= user_len <= merged@.len(),
                merged@ == earlier,
                mine.len() == user_len,
                spec_bindings(merged@).take(user_len as int) == mine,
                bound ==> spec_binds(mine, binding.0@),
                !bound ==> forall|j: int| 0 <= j < i ==> (#[trigger] mine[j]).0 != binding.0@,
            decreases user_len - i + if bound { 0int } else { 1int },
        {
            assert(mine[i as int] == spec_bindings(merged@)[i as int]);
            if merged[i].0 == binding.0 {
                bound = true;
                assert(mine[i as int].0 == binding.0@);
            } else {
                i += 1;
            }
        }
        proof {
            reveal(Seq::filter);
            let upto = all.take(at + 1);
            assert(upto.drop_last() =~= all.take(at));
            assert(upto.last() == (binding.0@, binding.1));
            assert(upto.filter(unbound) == if unbound(upto.last()) {
                all.take(at).filter(unbound).push(upto.last())
            } else {
                all.take(at).filter(unbound)
            });
        }
        assert(bound == spec_binds(mine, binding.0@));
        assert(unbound((binding.0@, binding.1)) == !bound);
        if !bound {
            merged.push(binding);
            assert(spec_bindings(merged@) =~= spec_bindings(earlier).push((binding.0@, binding.1)));
        }
        assert(spec_bindings(merged@) =~= mine + all.take(at + 1).filter(unbound));
        assert(spec_bindings(merged@).take(user_len as int) =~= mine);
    }
    assert(all.take(all.len() as int) =~= all);
    merged
}

/// The modifier keys that are held while a key is pressed.
#[derive(Debug, Clone, Copy, PartialEq, Eq, Structural)]
pub struct Modifiers {
    pub control: bool,
    pub alt: bool,
    pub shift: bool,
    /// The platform key: Command on a Mac.
    pub platform: bool,
}

/// The name under which a key pressed with modifiers is bound: the names of
/// the modifiers that are held, in the order `ctrl`, `alt`, `shift`, `cmd`,
/// and the key, joined by `+`.
pub open spec fn spec_key_string(modifiers: Modifiers, key: Seq<char>) -> Seq<char> {
    (if modifiers.control {
        "ctrl+"@
    } else {
        Seq::empty()
    }) + (if modifiers.alt {
        "alt+"@
    } else {
        Seq::empty()
    }) + (if modifiers.shift {
        "shift+"@
    } else {
        Seq::empty()
    }) + (if modifiers.platform {
        "cmd+"@
    } else {
        Seq::empty()
    }) + key
}

/// The action of the first of `bindings` that is for `key`;
/// [`Action::Unbound`] where none is.
pub open spec fn spec_bound_action(bindings: Seq<(Seq<char>, Action)>, key: Seq<char>) -> Action
    decreases bindings.len(),
{
    if bindings.len() == 0 {
        Action::Unbound
    } else if bindings[0].0 == key {
        bindings[0].1
    } else {
        spec_bound_action(bindings.drop_first(), key)
    }
}

/// The action that a key pressed with modifiers triggers: to quit for `q`
/// with the platform key, whatever the bindings say; else the action that
/// the bindings give its name.
pub open spec fn spec_resolve(
    bindings: Seq<(Seq<char>, Action)>,
    modifiers: Modifiers,
    key: Seq<char>,
) -> Action {
    if modifiers.platform && key == "q"@ {
        Action::Quit
    } else {
        spec_bound_action(bindings, spec_key_string(modifiers, key))
    }
}

/// Writes the name under which a key pressed with modifiers is bound.
pub fn key_string(modifiers: Modifiers, key: &str) -> (name: String)
    ensures
        name@ == spec_key_string(modifiers, key@),
{
    let mut name = String::new();
    if modifiers.control {
        name.append("ctrl+");
    }
    if modifiers.alt {
        name.append("alt+");
    }
    if modifiers.shift {
        name.append("shift+");
    }
    if modifiers.platform {
        name.append("cmd+");
    }
    name.append(key);
    assert(name@ =~= spec_key_string(modifiers, key@));
    name
}

/// Finds the action that a key pressed with modifiers triggers.
pub fn resolve_action(bindings: &Vec<(String, Action)>, modifiers: Modifiers, key: &str) -> (action:
    Action)
    ensures
        action == spec_resolve(spec_bindings(bindings@), modifiers, key@),
{
    if modifiers.platform && key.eq("q") {
        return Action::Quit;
    }
    let name = key_string(modifiers, key);
    let ghost all = spec_bindings(bindings@);
    let n = bindings.len();
    let mut i: usize = 0;
    assert(all.subrange(0, n as int) =~= all);
    while i < n
        invariant
            i <= n,
            n == bindings@.len(),
            all == spec_bindings(bindings@),
            !(modifiers.platform && key@ == "q"@),
            name@ == spec_key_string(modifiers, key@),
            spec_bound_action(all, name@) == spec_bound_action(
                all.subrange(i as int, n as int),
                name@,
            ),
        decreases n - i,
    {
        let ghost rest = all.subrange(i as int, n as int);
        assert(rest[0] == all[i as int]);
        assert(rest.drop_first() =~= all.subrange(i + 1, n as int));
        assert(all[i as int] == (bindings@[i as int].0@, bindings@[i as int].1));
        if bindings[i].0.as_str().eq(name.as_str()) {
            return bindings[i].1;
        }
        i += 1;
    }
    Action::Unbound
}

/// The bindings of the user come first: where the user has bound a key, the
/// completed bindings give it the action of the user, and any other key the
/// action of the defaults.
pub proof fn law_user_bindings_first(
    user: Seq<(Seq<char>, Action)>,
    defaults: Seq<(Seq<char>, Action)>,
    key: Seq<char>,
)
    ensures
        spec_bound_action(spec_with_defaults(user, defaults), key) == if spec_binds(user, key) {
            spec_bound_action(user, key)
        } else {
            spec_bound_action(defaults, key)
        },
    decreases user.len(),
{
    let unbound = |binding: (Seq<char>, Action)| !spec_binds(user, binding.0);
    let extra = defaults.filter(unbound);
    if user.len() == 0 {
        assert(!spec_binds(user, key));
        assert(extra =~= defaults) by {
            lemma_filter_all(defaults, unbound);
        }
        assert(user + extra =~= extra);
    } else {
        lemma_bound_action_concat(user, extra, key);
        if !spec_binds(user, key) {
            lemma_unbound_action(user, key);
            lemma_bound_action_filter(defaults, user, key);
        }
    }
}

proof fn lemma_filter_all<A>(s: Seq<A>, pred: spec_fn(A) -> bool)
    requires
        forall|i: int| 0 <= i < s.len() ==> pred(#[trigger] s[i]),
    ensures
        s.filter(pred) == s,
    decreases s.len(),
{
    reveal(Seq::filter);
    if s.len() > 0 {
        lemma_filter_all(s.drop_last(), pred);
        assert(s.drop_last().push(s.last()) =~= s);
    }
}

proof fn lemma_unbound_action(bindings: Seq<(Seq<char>, Action)>, key: Seq<char>)
    requires
        !spec_binds(bindings, key),
    ensures
        spec_bound_action(bindings, key) == Action::Unbound,
    decreases bindings.len(),
{
    if bindings.len() > 0 {
        assert(bindings[0].0 != key);
        let rest = bindings.drop_first();
        assert(!spec_binds(rest, key)) by {
            if spec_binds(rest, key) {
                let i = choose|i: int| 0 <= i < rest.len() && (#[trigger] rest[i]).0 == key;
                assert(bindings[i + 1].0 == key);
            }
        }
        lemma_unbound_action(rest, key);
    }
}

proof fn lemma_bound_action_concat(
    first: Seq<(Seq<char>, Action)>,
    second: Seq<(Seq<char>, Action)>,
    key: Seq<char>,
)
    ensures
        spec_bound_action(first + second, key) == if spec_binds(first, key) {
            spec_bound_action(first, key)
        } else {
            spec_bound_action(second, key)
        },
    decreases first.len(),
{
    if first.len() == 0 {
        assert(first + second =~= second);
    } else {
        let rest = first.drop_first();
        assert((first + second).drop_first() =~= rest + second);
        assert((first + second)[0] == first[0]);
        if first[0].0 != key {
            lemma_bound_action_concat(rest, second, key);
            assert(spec_binds(first, key) == spec_binds(rest, key)) by {
                if spec_binds(first, key) {
                    let i = choose|i: int| 0 <= i < first.len() && (#[trigger] first[i]).0 == key;
                    assert(rest[i - 1].0 == key);
                }
                if spec_binds(rest, key) {
                    let i = choose|i: int| 0 <= i < rest.len() && (#[trigger] rest[i]).0 == key;
                    assert(first[i + 1].0 == key);
                }
            }
        }
    }
}

proof fn lemma_bound_action_filter(
    defaults: Seq<(Seq<char>, Action)>,
    user: Seq<(Seq<char>, Action)>,
    key: Seq<char>,
)
    requires
        !spec_binds(user, key),
    ensures
        spec_bound_action(
            defaults.filter(|binding: (Seq<char>, Action)| !spec_binds(user, binding.0)),
            key,
        ) == spec_bound_action(defaults, key),
    decreases defaults.len(),
{
    let unbound = |binding: (Seq<char>, Action)| !spec_binds(user, binding.0);
    reveal_with_fuel(Seq::filter, 3);
    if defaults.len() > 0 {
        let head = seq![defaults[0]];
        let rest = defaults.drop_first();
        assert(head + rest =~= defaults);
        Seq::filter_distributes_over_add(head, rest, unbound);
        lemma_bound_action_filter(rest, user, key);
        assert(head.drop_last() =~= Seq::<(Seq<char>, Action)>::empty());
        if unbound(defaults[0]) {
            assert(head.filter(unbound) =~= head);
            assert((head + rest.filter(unbound)).drop_first() =~= rest.filter(unbound));
        } else {
            assert(head.filter(unbound) =~= Seq::<(Seq<char>, Action)>::empty());
            assert(head.filter(unbound) + rest.filter(unbound) =~= rest.filter(unbound));
            assert(defaults[0].0 != key);
        }
    }
}

impl Default for LogConfig {
    fn default() -> (config: LogConfig)
        ensures
            config.log_level@ == "info"@,
            config.log_dir@ == "./logs"@,
            !config.enable_performance_metrics,
    {
        LogConfig {
            log_level: default_log_level(),
            log_dir: default_log_dir(),
            module_filters: HashMap::new(),
            enable_performance_metrics: default_enable_performance_metrics(),
        }
    }
}

impl Default for AccessibilityConfig {
    fn default() -> (config: AccessibilityConfig)
        ensures
            config == (AccessibilityConfig { high_contrast_mode: false, verbose_status: false }),
    {
        AccessibilityConfig { high_contrast_mode: false, verbose_status: false }
    }
}

} // verus!
