//! The settings of the interface: which keys do what, how many items a view
//! asks for, which view is shown first, and whether the selection may pass the
//! end of the list.
//!
//! The settings are read from the text of an ini file. Reading and writing the
//! file itself belongs to the program around this library.

use vstd::prelude::*;
use crate::ini::{document_view, ini_document, ini_parses, items_view, parse_ini, IniSection};
use crate::keys::{first_unknown, parse_shortcut, shortcut_key, shortcut_keys, Key, KeySet};
use crate::menu::MenuItem;
use crate::parse::{bounded_value, parse_unsigned, pieces, same_text, split, texts_view};

verus! {

/// The most items that a view may ask for: the source returns no more.
pub const MAX_ITEMS_LIMIT: u16 = 500;

/// Why a configuration could not be read.
#[derive(Clone, Debug, PartialEq, Eq)]
pub enum ConfigError {
    /// The text is no ini document.
    Syntax,
    /// The value of `max_items`, which is no number from 1 to 500.
    InvalidMaxItems(String),
    /// A shortcut that names no key.
    InvalidShortcut(String),
}

/// A `ConfigError` as contracts see it.
pub enum ConfigFault {
    Syntax,
    InvalidMaxItems(Seq<char>),
    InvalidShortcut(Seq<char>),
}

impl View for ConfigError {
    type V = ConfigFault;

    open spec fn view(&self) -> ConfigFault {
        match self {
            ConfigError::Syntax => ConfigFault::Syntax,
            ConfigError::InvalidMaxItems(value) => ConfigFault::InvalidMaxItems(value@),
            ConfigError::InvalidShortcut(shortcut) => ConfigFault::InvalidShortcut(shortcut@),
        }
    }
}

/// What a key asks for.
#[derive(Copy, Clone, Debug, PartialEq, Eq, Structural)]
pub enum Action {
    ViewComments,
    Quit,
    OpenArticle,
    SwitchView,
    Previous,
    Next,
    Refresh,
    Nothing,
}

/// The settings.
#[derive(Debug)]
pub struct Config {
    pub view_comments: KeySet,
    pub quit: KeySet,
    pub down: KeySet,
    pub up: KeySet,
    pub left: KeySet,
    pub right: KeySet,
    pub open_article: KeySet,
    pub refresh: KeySet,
    pub max_items: u16,
    pub default_view: MenuItem,
    pub scroll_past_list: bool,
}

/// The settings as contracts see them.
pub struct ConfigView {
    pub view_comments: Set<Key>,
    pub quit: Set<Key>,
    pub down: Set<Key>,
    pub up: Set<Key>,
    pub left: Set<Key>,
    pub right: Set<Key>,
    pub open_article: Set<Key>,
    pub refresh: Set<Key>,
    pub max_items: u16,
    pub default_view: MenuItem,
    pub scroll_past_list: bool,
}

impl View for Config {
    type V = ConfigView;

    open spec fn view(&self) -> ConfigView {
        ConfigView {
            view_comments: self.view_comments@,
            quit: self.quit@,
            down: self.down@,
            up: self.up@,
            left: self.left@,
            right: self.right@,
            open_article: self.open_article@,
            refresh: self.refresh@,
            max_items: self.max_items,
            default_view: self.default_view,
            scroll_past_list: self.scroll_past_list,
        }
    }
}

/// The text in lower case, as `str::to_lowercase` gives it.
pub uninterp spec fn lowercase(text: Seq<char>) -> Seq<char>;

/// Calls `str::to_lowercase`.
///
/// Trusted: that the same text gives the same result.
#[verifier::external_body]
fn to_lowercase(text: &str) -> (lowered: String)
    ensures
        lowered@ == lowercase(text@),
{
    text.to_lowercase()
}

/// The settings of a fresh installation.
pub open spec fn default_config() -> ConfigView {
    ConfigView {
        view_comments: set![Key::Char('c')],
        quit: set![Key::Char('q'), Key::Esc],
        down: set![Key::Char('j'), Key::Down],
        up: set![Key::Char('k'), Key::Up],
        left: set![Key::Char('h'), Key::Left],
        right: set![Key::Char('l'), Key::Right],
        open_article: set![Key::Enter],
        refresh: set![Key::Char('r')],
        max_items: 30,
        default_view: MenuItem::Top,
        scroll_past_list: false,
    }
}

/// The view that a value of `default_view` names, once in lower case: `new`
/// names the view of new items, anything else the view of top items.
pub open spec fn view_named(lowered: Seq<char>) -> MenuItem {
    if lowered == "new"@ {
        MenuItem::New
    } else {
        MenuItem::Top
    }
}

/// The number of items that a value of `max_items` gives: a decimal number
/// from 1 to 500.
pub open spec fn max_items_of(value: Seq<char>) -> Option<u16> {
    match bounded_value(value, 500) {
        Some(count) => if count >= 1 {
            Some(count as u16)
        } else {
            None
        },
        None => None,
    }
}

/// The keys that the value of a key binding names: its shortcuts stand between
/// a comma and a space. The fault is the first shortcut that names no key.
pub open spec fn keys_of(value: Seq<char>) -> Result<Set<Key>, ConfigFault> {
    let shortcuts = pieces(value, ", "@);
    if first_unknown(shortcuts) == shortcuts.len() {
        Ok(shortcut_keys(shortcuts))
    } else {
        Err(ConfigFault::InvalidShortcut(shortcuts[first_unknown(shortcuts)]))
    }
}

/// The settings after one key binding has been read.
pub open spec fn bind(config: ConfigView, key: Seq<char>, keys: Set<Key>) -> ConfigView {
    if key == "view_comments"@ {
        ConfigView { view_comments: keys, ..config }
    } else if key == "quit"@ {
        ConfigView { quit: keys, ..config }
    } else if key == "down"@ {
        ConfigView { down: keys, ..config }
    } else if key == "up"@ {
        ConfigView { up: keys, ..config }
    } else if key == "left"@ {
        ConfigView { left: keys, ..config }
    } else if key == "right"@ {
        ConfigView { right: keys, ..config }
    } else if key == "open_article"@ {
        ConfigView { open_article: keys, ..config }
    } else if key == "refresh"@ {
        ConfigView { refresh: keys, ..config }
    } else {
        config
    }
}

/// Whether the key of an item in the section `keybindings` is one that binds
/// keys.
pub open spec fn binds(key: Seq<char>) -> bool {
    key == "view_comments"@ || key == "quit"@ || key == "down"@ || key == "up"@ || key == "left"@
        || key == "right"@ || key == "open_article"@ || key == "refresh"@
}

/// The settings after one item of a section has been read. Sections and keys
/// that the settings do not know are passed over.
pub open spec fn apply_item(
    config: ConfigView,
    section: Seq<char>,
    key: Seq<char>,
    value: Seq<char>,
) -> Result<ConfigView, ConfigFault> {
    if section == "keybindings"@ {
        if binds(key) {
            match keys_of(value) {
                Ok(keys) => Ok(bind(config, key, keys)),
                Err(fault) => Err(fault),
            }
        } else {
            Ok(config)
        }
    } else if section == "general"@ {
        if key == "max_items"@ {
            match max_items_of(value) {
                Some(count) => Ok(ConfigView { max_items: count, ..config }),
                None => Err(ConfigFault::InvalidMaxItems(value)),
            }
        } else if key == "default_view"@ {
            Ok(ConfigView { default_view: view_named(lowercase(value)), ..config })
        } else if key == "scroll_past_list"@ {
            Ok(ConfigView { scroll_past_list: lowercase(value) == "true"@, ..config })
        } else {
            Ok(config)
        }
    } else {
        Ok(config)
    }
}

/// The settings after the items of a section have been read in order, up to the
/// first fault.
pub open spec fn apply_items(
    config: ConfigView,
    section: Seq<char>,
    items: Seq<(Seq<char>, Seq<char>)>,
) -> Result<ConfigView, ConfigFault>
    decreases items.len(),
{
    if items.len() == 0 {
        Ok(config)
    } else {
        match apply_items(config, section, items.drop_last()) {
            Ok(before) => apply_item(before, section, items.last().0, items.last().1),
            Err(fault) => Err(fault),
        }
    }
}

/// The settings after the sections of a document have been read in order, up to
/// the first fault.
pub open spec fn apply_sections(
    config: ConfigView,
    sections: Seq<(Seq<char>, Seq<(Seq<char>, Seq<char>)>)>,
) -> Result<ConfigView, ConfigFault>
    decreases sections.len(),
{
    if sections.len() == 0 {
        Ok(config)
    } else {
        match apply_sections(config, sections.drop_last()) {
            Ok(before) => apply_items(before, sections.last().0, sections.last().1),
            Err(fault) => Err(fault),
        }
    }
}

/// The settings after a document has been read over them. A document that does
/// not set `default_view` sets it to the view of top items.
pub open spec fn read_document(
    config: ConfigView,
    sections: Seq<(Seq<char>, Seq<(Seq<char>, Seq<char>)>)>,
) -> Result<ConfigView, ConfigFault> {
    apply_sections(ConfigView { default_view: MenuItem::Top, ..config }, sections)
}

/// The settings after the text of an ini file has been read over them.
pub open spec fn read_text(config: ConfigView, text: Seq<char>) -> Result<ConfigView, ConfigFault> {
    if ini_parses(text) {
        read_document(config, ini_document(text))
    } else {
        Err(ConfigFault::Syntax)
    }
}

/// What a key asks for under the settings. Where a key is bound more than once,
/// the first of these wins: comments, quit, open, switch view, up, down,
/// refresh.
pub open spec fn action_for(config: ConfigView, key: Key) -> Action {
    if config.view_comments.contains(key) {
        Action::ViewComments
    } else if config.quit.contains(key) {
        Action::Quit
    } else if config.open_article.contains(key) {
        Action::OpenArticle
    } else if config.left.contains(key) || config.right.contains(key) {
        Action::SwitchView
    } else if config.up.contains(key) {
        Action::Previous
    } else if config.down.contains(key) {
        Action::Next
    } else if config.refresh.contains(key) {
        Action::Refresh
    } else {
        Action::Nothing
    }
}

/// Once a shortcut names no key, the first such shortcut stays the same however
/// the list goes on.
proof fn lemma_first_unknown_prefix(shortcuts: Seq<Seq<char>>, n: int)
    requires
        0 <= n <= shortcuts.len(),
    ensures
        first_unknown(shortcuts.take(n)) < n ==> first_unknown(shortcuts) == first_unknown(
            shortcuts.take(n),
        ),
        first_unknown(shortcuts.take(n)) <= n,
    decreases shortcuts.len() - n,
{
    lemma_first_unknown_bound(shortcuts.take(n));
    if n < shortcuts.len() {
        assert(shortcuts.take(n + 1).drop_last() =~= shortcuts.take(n));
        lemma_first_unknown_prefix(shortcuts, n + 1);
    } else {
        assert(shortcuts.take(n) =~= shortcuts);
    }
}

proof fn lemma_first_unknown_bound(shortcuts: Seq<Seq<char>>)
    ensures
        0 <= first_unknown(shortcuts) <= shortcuts.len(),
    decreases shortcuts.len(),
{
    if shortcuts.len() > 0 {
        lemma_first_unknown_bound(shortcuts.drop_last());
    }
}

/// Reads a list of shortcuts into the set of keys that they name. Fails on the
/// first shortcut that names no key.
pub fn parse_shortcuts(shortcuts: &Vec<&str>) -> (keys: Result<KeySet, ConfigError>)
    ensures
        match keys {
            Ok(set) => first_unknown(texts_view(shortcuts@)) == shortcuts@.len() && set@
                == shortcut_keys(texts_view(shortcuts@)),
            Err(error) => first_unknown(texts_view(shortcuts@)) < shortcuts@.len() && error@
                == ConfigFault::InvalidShortcut(
                texts_view(shortcuts@)[first_unknown(texts_view(shortcuts@))],
            ),
        },
{
    let ghost texts = texts_view(shortcuts@);
    let mut set = KeySet::new();
    let mut i: usize = 0;
    assert(set@ =~= shortcut_keys(texts.take(0)));
    while i < shortcuts.len()
        invariant
            i <= shortcuts@.len(),
            texts == texts_view(shortcuts@),
            first_unknown(texts.take(i as int)) == i,
            set@ == shortcut_keys(texts.take(i as int)),
        decreases shortcuts@.len() - i,
    {
        proof {
            assert(texts.take(i + 1).drop_last() =~= texts.take(i as int));
            assert(texts.take(i + 1).last() == shortcuts@[i as int]@);
            lemma_first_unknown_prefix(texts, i + 1);
        }
        match parse_shortcut(shortcuts[i]) {
            Some(key) => {
                set.insert(key);
                assert(set@ =~= shortcut_keys(texts.take(i + 1))) by {
                    let before = texts.take(i as int);
                    let after = texts.take(i + 1);
                    assert forall|k: Key| shortcut_keys(before).insert(key).contains(
                        k,
                    ) implies shortcut_keys(after).contains(k) by {
                        if k == key {
                            assert(shortcut_key(after[i as int]) == Some(k));
                        } else {
                            let j = choose|j: int|
                                0 <= j < before.len() && #[trigger] shortcut_key(before[j]) == Some(
                                    k,
                                );
                            assert(shortcut_key(after[j]) == Some(k));
                        }
                    }
                    assert forall|k: Key| shortcut_keys(after).contains(k) implies shortcut_keys(
                        before,
                    ).insert(key).contains(k) by {
                        let j = choose|j: int|
                            0 <= j < after.len() && #[trigger] shortcut_key(after[j]) == Some(k);
                        if j < i {
                            assert(shortcut_key(before[j]) == Some(k));
                        }
                    }
                }
            },
            None => {
                return Err(ConfigError::InvalidShortcut(shortcuts[i].to_owned()));
            },
        }
        i = i + 1;
    }
    assert(texts.take(i as int) =~= texts);
    Ok(set)
}

/// Reads the value of `max_items`.
pub fn parse_max_items(value: &str) -> (count: Option<u16>)
    ensures
        count == max_items_of(value@),
{
    match parse_unsigned(value, 500) {
        Some(count) => if count >= 1 {
            Some(count as u16)
        } else {
            None
        },
        None => None,
    }
}

/// The view that a value of `default_view` names, given the value in lower
/// case.
pub fn parse_view(lowered: &str) -> (view: MenuItem)
    ensures
        view == view_named(lowered@),
{
    if same_text(lowered, "new") {
        MenuItem::New
    } else {
        MenuItem::Top
    }
}

impl Clone for Config {
    fn clone(&self) -> (config: Config)
        ensures
            config@ == self@,
    {
        Config {
            view_comments: self.view_comments.clone(),
            quit: self.quit.clone(),
            down: self.down.clone(),
            up: self.up.clone(),
            left: self.left.clone(),
            right: self.right.clone(),
            open_article: self.open_article.clone(),
            refresh: self.refresh.clone(),
            max_items: self.max_items,
            default_view: self.default_view,
            scroll_past_list: self.scroll_past_list,
        }
    }
}

fn single(key: Key) -> (set: KeySet)
    ensures
        set@ == set![key],
{
    let mut set = KeySet::new();
    set.insert(key);
    set
}

fn pair(first: Key, second: Key) -> (set: KeySet)
    ensures
        set@ == set![first, second],
{
    let mut set = KeySet::new();
    set.insert(first);
    set.insert(second);
    set
}

impl Default for Config {
    /// The settings of a fresh installation.
    fn default() -> (config: Config)
        ensures
            config@ == default_config(),
    {
        Config {
            view_comments: single(Key::Char('c')),
            quit: pair(Key::Char('q'), Key::Esc),
            down: pair(Key::Char('j'), Key::Down),
            up: pair(Key::Char('k'), Key::Up),
            left: pair(Key::Char('h'), Key::Left),
            right: pair(Key::Char('l'), Key::Right),
            open_article: single(Key::Enter),
            refresh: single(Key::Char('r')),
            max_items: 30,
            default_view: MenuItem::Top,
            scroll_past_list: false,
        }
    }
}

impl Config {
    /// Reads one key binding over the settings.
    fn bind(&mut self, key: &str, keys: KeySet)
        ensures
            final(self)@ == bind(old(self)@, key@, keys@),
    {
        if same_text(key, "view_comments") {
            self.view_comments = keys;
        } else if same_text(key, "quit") {
            self.quit = keys;
        } else if same_text(key, "down") {
            self.down = keys;
        } else if same_text(key, "up") {
            self.up = keys;
        } else if same_text(key, "left") {
            self.left = keys;
        } else if same_text(key, "right") {
            self.right = keys;
        } else if same_text(key, "open_article") {
            self.open_article = keys;
        } else if same_text(key, "refresh") {
            self.refresh = keys;
        }
    }

    /// Reads one item of a section over the settings. On a fault the settings
    /// stay as they were.
    pub fn apply_item(&mut self, section: &str, key: &str, value: &str) -> (done: Result<
        (),
        ConfigError,
    >)
        ensures
            match done {
                Ok(()) => apply_item(old(self)@, section@, key@, value@) == Ok::<
                    ConfigView,
                    ConfigFault,
                >(final(self)@),
                Err(error) => apply_item(old(self)@, section@, key@, value@) == Err::<
                    ConfigView,
                    ConfigFault,
                >(error@) && final(self)@ == old(self)@,
            },
    {
        if same_text(section, "keybindings") {
            let known = same_text(key, "view_comments") || same_text(key, "quit") || same_text(
                key,
                "down",
            ) || same_text(key, "up") || same_text(key, "left") || same_text(key, "right")
                || same_text(key, "open_article") || same_text(key, "refresh");
            if known {
                let shortcuts = split(value, ", ");
                match parse_shortcuts(&shortcuts) {
                    Ok(keys) => {
                        self.bind(key, keys);
                        Ok(())
                    },
                    Err(error) => Err(error),
                }
            } else {
                Ok(())
            }
        } else if same_text(section, "general") {
            if same_text(key, "max_items") {
                match parse_max_items(value) {
                    Some(count) => {
                        self.max_items = count;
                        Ok(())
                    },
                    None => Err(ConfigError::InvalidMaxItems(value.to_owned())),
                }
            } else if same_text(key, "default_view") {
                self.default_view = parse_view(to_lowercase(value).as_str());
                Ok(())
            } else if same_text(key, "scroll_past_list") {
                self.scroll_past_list = same_text(to_lowercase(value).as_str(), "true");
                Ok(())
            } else {
                Ok(())
            }
        } else {
            Ok(())
        }
    }

    /// Reads a document over the settings: each section in order, and in each
    /// its items in order. On a fault the settings stay as they were.
    pub fn apply(&mut self, sections: &Vec<IniSection>) -> (done: Result<(), ConfigError>)
        ensures
            match done {
                Ok(()) => read_document(old(self)@, document_view(sections@)) == Ok::<
                    ConfigView,
                    ConfigFault,
                >(final(self)@),
                Err(error) => read_document(old(self)@, document_view(sections@)) == Err::<
                    ConfigView,
                    ConfigFault,
                >(error@) && final(self)@ == old(self)@,
            },
    {
        let ghost document = document_view(sections@);
        let ghost entered = self@;
        let ghost start = ConfigView { default_view: MenuItem::Top, ..self@ };
        let mut next = self.clone();
        next.default_view = MenuItem::Top;
        let mut s: usize = 0;
        while s < sections.len()
            invariant
                s <= sections@.len(),
                self@ == entered,
                start == (ConfigView { default_view: MenuItem::Top, ..entered }),
                document == document_view(sections@),
                apply_sections(start, document.take(s as int)) == Ok::<ConfigView, ConfigFault>(
                    next@,
                ),
            decreases sections@.len() - s,
        {
            let section = &sections[s];
            let ghost items = items_view(section.items@);
            let ghost before = next@;
            proof {
                assert(document.take(s + 1).drop_last() =~= document.take(s as int));
                assert(document.take(s + 1).last() == (section.name@, items));
                lemma_sections_fault(start, document, s + 1);
            }
            let mut i: usize = 0;
            while i < section.items.len()
                invariant
                    i <= section.items@.len(),
                    self@ == entered,
                    start == (ConfigView { default_view: MenuItem::Top, ..entered }),
                    document == document_view(sections@),
                    items == items_view(section.items@),
                    apply_items(before, section.name@, items.take(i as int)) == Ok::<
                        ConfigView,
                        ConfigFault,
                    >(next@),
                    apply_sections(start, document.take(s + 1)) == apply_items(
                        before,
                        section.name@,
                        items,
                    ),
                    apply_sections(start, document.take(s + 1)) is Err ==> apply_sections(
                        start,
                        document,
                    ) == apply_sections(start, document.take(s + 1)),
                decreases section.items@.len() - i,
            {
                let item = &section.items[i];
                proof {
                    assert(items.take(i + 1).drop_last() =~= items.take(i as int));
                    assert(items.take(i + 1).last() == (item.0@, item.1@));
                    lemma_items_fault(before, section.name@, items, i + 1);
                }
                match next.apply_item(section.name.as_str(), item.0.as_str(), item.1.as_str()) {
                    Ok(()) => {},
                    Err(error) => {
                        return Err(error);
                    },
                }
                i = i + 1;
            }
            assert(items.take(i as int) =~= items);
            s = s + 1;
        }
        assert(document.take(s as int) =~= document);
        *self = next;
        Ok(())
    }

    /// Reads the text of an ini file over the settings. On a fault the settings
    /// stay as they were.
    pub fn read(&mut self, text: &str) -> (done: Result<(), ConfigError>)
        ensures
            match done {
                Ok(()) => read_text(old(self)@, text@) == Ok::<ConfigView, ConfigFault>(
                    final(self)@,
                ),
                Err(error) => read_text(old(self)@, text@) == Err::<ConfigView, ConfigFault>(
                    error@,
                ) && final(self)@ == old(self)@,
            },
    {
        match parse_ini(text) {
            Ok(sections) => self.apply(&sections),
            Err(_) => Err(ConfigError::Syntax),
        }
    }

    /// What a key asks for.
    pub fn action(&self, key: Key) -> (action: Action)
        ensures
            action == action_for(self@, key),
    {
        if self.view_comments.contains(key) {
            Action::ViewComments
        } else if self.quit.contains(key) {
            Action::Quit
        } else if self.open_article.contains(key) {
            Action::OpenArticle
        } else if self.left.contains(key) || self.right.contains(key) {
            Action::SwitchView
        } else if self.up.contains(key) {
            Action::Previous
        } else if self.down.contains(key) {
            Action::Next
        } else if self.refresh.contains(key) {
            Action::Refresh
        } else {
            Action::Nothing
        }
    }
}

/// The document that is written out where no configuration file exists: the
/// key bindings of a fresh installation by their shortcuts, and its general
/// settings.
pub open spec fn default_sections() -> Seq<(Seq<char>, Seq<(Seq<char>, Seq<char>)>)> {
    seq![
        (
            "keybindings"@,
            seq![
                ("view_comments"@, "c"@),
                ("quit"@, "q, esc"@),
                ("down"@, "j, arrow_down"@),
                ("up"@, "k, arrow_up"@),
                ("left"@, "h, arrow_left"@),
                ("right"@, "l, arrow_right"@),
                ("open_article"@, "enter"@),
                ("refresh"@, "r"@),
            ],
        ),
        ("general"@, seq![("max_items"@, "30"@), ("default_view"@, "top"@)]),
    ]
}

fn item(key: &str, value: &str) -> (item: (String, String))
    ensures
        item.0@ == key@,
        item.1@ == value@,
{
    (String::from_str(key), String::from_str(value))
}

/// The document that is written out where no configuration file exists.
pub fn default_document() -> (sections: Vec<IniSection>)
    ensures
        document_view(sections@) == default_sections(),
{
    let mut bindings: Vec<(String, String)> = Vec::new();
    bindings.push(item("view_comments", "c"));
    bindings.push(item("quit", "q, esc"));
    bindings.push(item("down", "j, arrow_down"));
    bindings.push(item("up", "k, arrow_up"));
    bindings.push(item("left", "h, arrow_left"));
    bindings.push(item("right", "l, arrow_right"));
    bindings.push(item("open_article", "enter"));
    bindings.push(item("refresh", "r"));
    let mut general: Vec<(String, String)> = Vec::new();
    general.push(item("max_items", "30"));
    general.push(item("default_view", "top"));
    let ghost expected = default_sections();
    assert(items_view(bindings@) =~= expected[0].1);
    assert(items_view(general@) =~= expected[1].1);
    let mut sections: Vec<IniSection> = Vec::new();
    sections.push(IniSection { name: String::from_str("keybindings"), items: bindings });
    sections.push(IniSection { name: String::from_str("general"), items: general });
    assert(document_view(sections@) =~= expected);
    sections
}

/// A fault among the first items of a section is the fault of the whole
/// section.
proof fn lemma_items_fault(
    config: ConfigView,
    section: Seq<char>,
    items: Seq<(Seq<char>, Seq<char>)>,
    n: int,
)
    requires
        0 <= n <= items.len(),
    ensures
        apply_items(config, section, items.take(n)) is Err ==> apply_items(config, section, items)
            == apply_items(config, section, items.take(n)),
    decreases items.len() - n,
{
    if n < items.len() {
        assert(items.take(n + 1).drop_last() =~= items.take(n));
        lemma_items_fault(config, section, items, n + 1);
    } else {
        assert(items.take(n) =~= items);
    }
}

/// A fault among the first sections of a document is the fault of the whole
/// document.
proof fn lemma_sections_fault(
    config: ConfigView,
    sections: Seq<(Seq<char>, Seq<(Seq<char>, Seq<char>)>)>,
    n: int,
)
    requires
        0 <= n <= sections.len(),
    ensures
        apply_sections(config, sections.take(n)) is Err ==> apply_sections(config, sections)
            == apply_sections(config, sections.take(n)),
    decreases sections.len() - n,
{
    if n < sections.len() {
        assert(sections.take(n + 1).drop_last() =~= sections.take(n));
        lemma_sections_fault(config, sections, n + 1);
    } else {
        assert(sections.take(n) =~= sections);
    }
}

} // verus!
