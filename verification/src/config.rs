use crate::action::{same_binding, KeyAction};
use crate::text::{lowercase, string_push, to_lowercase};
use vstd::hash_map::StringHashMap;
use vstd::prelude::*;
use vstd::string::*;

verus! {

/// The key under which a binding for a key name in a mode is stored: the key
/// name followed by the mode's character.
pub open spec fn keymap_key(code: Seq<char>, mode: char) -> Seq<char> {
    code.push(mode)
}

/// The last character of a mode's name, NUL for an empty name.
pub open spec fn mode_char(mode: Seq<char>) -> char {
    if mode.len() > 0 {
        mode.last()
    } else {
        '\0'
    }
}

/// Settings: key bindings per mode, commands, the leader key and the look.
pub struct ConfigInner {
    pub theme: String,
    /// Bindings, each under `keymap_key` of its key name and mode.
    pub keymaps: StringHashMap<KeyAction>,
    pub leader: char,
    pub commands: StringHashMap<KeyAction>,
    pub tab_width: u16,
    pub use_tabs: bool,
}

/// The editor's settings.
pub struct Config(pub ConfigInner);

impl Default for Config {
    fn default() -> (c: Config)
        ensures
            c.0.theme@ == Seq::<char>::empty(),
            c.0.keymaps@ == Map::<Seq<char>, KeyAction>::empty(),
            c.0.leader == ' ',
            c.0.commands@ == Map::<Seq<char>, KeyAction>::empty(),
            c.0.tab_width == 2,
            !c.0.use_tabs,
    {
        Config(
            ConfigInner {
                theme: String::new(),
                keymaps: StringHashMap::new(),
                leader: ' ',
                commands: StringHashMap::new(),
                tab_width: 2,
                use_tabs: false,
            },
        )
    }
}

impl Config {
    /// The binding of a key name in a mode, if any.
    pub open spec fn binding(&self, code: Seq<char>, mode: char) -> Option<KeyAction> {
        if self.0.keymaps@.contains_key(keymap_key(code, mode)) {
            Some(self.0.keymaps@[keymap_key(code, mode)])
        } else {
            None
        }
    }

    /// The binding of a command name, if any.
    pub open spec fn command(&self, name: Seq<char>) -> Option<KeyAction> {
        if self.0.commands@.contains_key(name) {
            Some(self.0.commands@[name])
        } else {
            None
        }
    }

    /// Binds `ka` to the key name, lowercased, in the mode named by the last
    /// character of `mode`; returns a copy of what was bound there before.
    pub fn add_keymap(&mut self, key_code: String, mode: String, ka: KeyAction) -> (prev: Option<
        KeyAction,
    >)
        ensures
            final(self).0.keymaps@ == old(self).0.keymaps@.insert(
                keymap_key(lowercase(key_code@), mode_char(mode@)),
                ka,
            ),
            final(self).0.commands@ == old(self).0.commands@,
            final(self).0.leader == old(self).0.leader,
            final(self).0.theme@ == old(self).0.theme@,
            final(self).0.tab_width == old(self).0.tab_width,
            final(self).0.use_tabs == old(self).0.use_tabs,
            match old(self).binding(lowercase(key_code@), mode_char(mode@)) {
                Some(b) => prev matches Some(p) && same_binding(b, p),
                None => prev is None,
            },
    {
        let key = to_lowercase(key_code.as_str());
        self.insert_keymap(key, mode.as_str(), ka)
    }

    /// Binds `ka` to a key name, taken as it is, in the mode named by the
    /// last character of `mode`; returns a copy of what was bound there
    /// before.
    pub fn insert_keymap(&mut self, key: String, mode: &str, ka: KeyAction) -> (prev: Option<
        KeyAction,
    >)
        ensures
            final(self).0.keymaps@ == old(self).0.keymaps@.insert(
                keymap_key(key@, mode_char(mode@)),
                ka,
            ),
            final(self).0.commands@ == old(self).0.commands@,
            final(self).0.leader == old(self).0.leader,
            final(self).0.theme@ == old(self).0.theme@,
            final(self).0.tab_width == old(self).0.tab_width,
            final(self).0.use_tabs == old(self).0.use_tabs,
            match old(self).binding(key@, mode_char(mode@)) {
                Some(b) => prev matches Some(p) && same_binding(b, p),
                None => prev is None,
            },
    {
        let mut key = key;
        let n = mode.unicode_len();
        let m = if n > 0 {
            mode.get_char(n - 1)
        } else {
            '\0'
        };
        string_push(&mut key, m);
        let prev = match self.0.keymaps.get(key.as_str()) {
            Some(p) => Some(p.duplicate()),
            None => None,
        };
        self.0.keymaps.insert(key, ka);
        prev
    }

    /// Binds `ka` to the command name, lowercased; returns a copy of what was
    /// bound to it before.
    pub fn add_command(&mut self, key_code: String, ka: KeyAction) -> (prev: Option<KeyAction>)
        ensures
            final(self).0.commands@ == old(self).0.commands@.insert(lowercase(key_code@), ka),
            final(self).0.keymaps@ == old(self).0.keymaps@,
            final(self).0.leader == old(self).0.leader,
            final(self).0.theme@ == old(self).0.theme@,
            final(self).0.tab_width == old(self).0.tab_width,
            final(self).0.use_tabs == old(self).0.use_tabs,
            match old(self).command(lowercase(key_code@)) {
                Some(b) => prev matches Some(p) && same_binding(b, p),
                None => prev is None,
            },
    {
        let key = to_lowercase(key_code.as_str());
        self.insert_command(key, ka)
    }

    /// Binds `ka` to a command name, taken as it is; returns a copy of what
    /// was bound to it before.
    pub fn insert_command(&mut self, key: String, ka: KeyAction) -> (prev: Option<KeyAction>)
        ensures
            final(self).0.commands@ == old(self).0.commands@.insert(key@, ka),
            final(self).0.keymaps@ == old(self).0.keymaps@,
            final(self).0.leader == old(self).0.leader,
            final(self).0.theme@ == old(self).0.theme@,
            final(self).0.tab_width == old(self).0.tab_width,
            final(self).0.use_tabs == old(self).0.use_tabs,
            match old(self).command(key@) {
                Some(b) => prev matches Some(p) && same_binding(b, p),
                None => prev is None,
            },
    {
        let prev = match self.0.commands.get(key.as_str()) {
            Some(p) => Some(p.duplicate()),
            None => None,
        };
        self.0.commands.insert(key, ka);
        prev
    }

    /// The binding of a key name in a mode, copied.
    pub fn keymap(&self, key_code: &str, mode: char) -> (r: Option<KeyAction>)
        ensures
            match self.binding(key_code@, mode) {
                Some(b) => r matches Some(x) && same_binding(b, x),
                None => r is None,
            },
    {
        let mut key = key_code.to_string();
        string_push(&mut key, mode);
        match self.0.keymaps.get(key.as_str()) {
            Some(b) => Some(b.duplicate()),
            None => None,
        }
    }

    /// The binding of a command name, copied.
    pub fn command_action(&self, name: &str) -> (r: Option<KeyAction>)
        ensures
            match self.command(name@) {
                Some(b) => r matches Some(x) && same_binding(b, x),
                None => r is None,
            },
    {
        match self.0.commands.get(name) {
            Some(b) => Some(b.duplicate()),
            None => None,
        }
    }
}

} // verus!
