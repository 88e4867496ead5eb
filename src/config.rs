use vstd::prelude::*;

use crate::sync::{policy_of, sync, ConflictResolver, DirContent};
use crate::text::{lower_of, lowercase, same_text, trim, trimmed};

verus! {

/// Why a configuration is refused. Each of these stops the whole run before
/// anything is linked.
#[derive(Clone, Copy, Debug, PartialEq, Eq, Structural)]
pub enum ConfigError {
    /// A line that is neither blank nor a comment has no `=`.
    MissingEquals,
    /// Nothing stands left of the `=`.
    MissingKey,
    /// Nothing stands right of the `=`.
    MissingValue,
    /// The key is not `home`, `config` or `conflict_resolver`.
    UnknownKeyword,
    /// The value of `conflict_resolver` names no policy.
    InvalidResolver,
    /// No line sets `home`.
    NoHome,
    /// No line sets `config`.
    NoConfig,
}

/// What one line of a configuration says.
pub ghost enum Entry {
    Blank,
    Home(Seq<char>),
    Config(Seq<char>),
    Resolver(ConflictResolver),
    Invalid(ConfigError),
}

/// The settings that a configuration holds.
pub ghost struct Settings {
    pub home: Seq<char>,
    pub config: Seq<char>,
    pub resolver: ConflictResolver,
}

/// What a key and a value, both trimmed and lowercased, set.
pub open spec fn entry_of_pair(key: Seq<char>, value: Seq<char>) -> Entry {
    if key.len() == 0 {
        Entry::Invalid(ConfigError::MissingKey)
    } else if value.len() == 0 {
        Entry::Invalid(ConfigError::MissingValue)
    } else if key == "home"@ {
        Entry::Home(value)
    } else if key == "config"@ {
        Entry::Config(value)
    } else if key == "conflict_resolver"@ {
        match policy_of(lower_of(value)) {
            Some(p) => Entry::Resolver(p),
            None => Entry::Invalid(ConfigError::InvalidResolver),
        }
    } else {
        Entry::Invalid(ConfigError::UnknownKeyword)
    }
}

/// The index of the first `=` in `s` at or after `i`; `s.len()` if there is none.
pub open spec fn first_eq_from(s: Seq<char>, i: int) -> int
    decreases s.len() - i,
{
    if i < 0 || i >= s.len() {
        s.len() as int
    } else if s[i] == '=' {
        i
    } else {
        first_eq_from(s, i + 1)
    }
}

/// What a line says. Whitespace around the line, the key and the value is
/// dropped, and key and value are lowercased. A line that is empty or starts
/// with `#` says nothing; the key is what stands before the first `=`.
pub open spec fn entry_of_line(line: Seq<char>) -> Entry {
    let t = trimmed(line);
    if t.len() == 0 || t[0] == '#' {
        Entry::Blank
    } else {
        let i = first_eq_from(t, 0);
        if i == t.len() {
            Entry::Invalid(ConfigError::MissingEquals)
        } else {
            entry_of_pair(
                lower_of(trimmed(t.subrange(0, i))),
                lower_of(trimmed(t.subrange(i + 1, t.len() as int))),
            )
        }
    }
}

/// The settings after the lines `lines`, read in order; a later line
/// overrides an earlier one, and the first invalid line ends the reading.
/// Unset paths are empty and the policy is `Prompt` by default.
pub open spec fn settings_of(lines: Seq<Seq<char>>) -> Result<Settings, ConfigError>
    decreases lines.len(),
{
    if lines.len() == 0 {
        Ok(Settings { home: seq![], config: seq![], resolver: ConflictResolver::Prompt })
    } else {
        match settings_of(lines.drop_last()) {
            Err(e) => Err(e),
            Ok(s) => match entry_of_line(lines.last()) {
                Entry::Blank => Ok(s),
                Entry::Home(h) => Ok(Settings { home: h, config: s.config, resolver: s.resolver }),
                Entry::Config(c) => Ok(Settings { home: s.home, config: c, resolver: s.resolver }),
                Entry::Resolver(p) => Ok(Settings { home: s.home, config: s.config, resolver: p }),
                Entry::Invalid(e) => Err(e),
            },
        }
    }
}

/// The settings of a whole configuration, which must set both paths.
pub open spec fn config_of(lines: Seq<Seq<char>>) -> Result<Settings, ConfigError> {
    match settings_of(lines) {
        Err(e) => Err(e),
        Ok(s) => if s.home.len() == 0 {
            Err(ConfigError::NoHome)
        } else if s.config.len() == 0 {
            Err(ConfigError::NoConfig)
        } else {
            Ok(s)
        },
    }
}

/// Once a line is invalid, the lines after it do not matter.
proof fn lemma_error_stays(lines: Seq<Seq<char>>, k: int)
    requires
        0 <= k <= lines.len(),
        settings_of(lines.subrange(0, k)) is Err,
    ensures
        settings_of(lines) == settings_of(lines.subrange(0, k)),
    decreases lines.len(),
{
    if k == lines.len() {
        assert(lines.subrange(0, k) =~= lines);
    } else {
        assert(lines.drop_last().subrange(0, k) =~= lines.subrange(0, k));
        lemma_error_stays(lines.drop_last(), k);
    }
}

/// A configuration is refused as soon as a line names no known policy for
/// `conflict_resolver`: no later line can make up for it, so no run starts.
pub proof fn law_unknown_policy_refused(lines: Seq<Seq<char>>, k: int)
    requires
        0 <= k < lines.len(),
        settings_of(lines.subrange(0, k)) is Ok,
        entry_of_line(lines[k]) == Entry::Invalid(ConfigError::InvalidResolver),
    ensures
        config_of(lines) == Err::<Settings, ConfigError>(ConfigError::InvalidResolver),
{
    let upto = lines.subrange(0, k + 1);
    assert(upto.drop_last() =~= lines.subrange(0, k));
    assert(upto.last() == lines[k]);
    lemma_error_stays(lines, k + 1);
}

/// The text of each line.
pub open spec fn texts(lines: Seq<String>) -> Seq<Seq<char>> {
    lines.map_values(|l: String| l@)
}

/// One setting of a configuration line.
#[derive(Clone, Debug)]
pub enum Setting {
    Home(String),
    Config(String),
    Resolver(ConflictResolver),
}

impl View for Setting {
    type V = Entry;

    open spec fn view(&self) -> Entry {
        match self {
            Setting::Home(h) => Entry::Home(h@),
            Setting::Config(c) => Entry::Config(c@),
            Setting::Resolver(p) => Entry::Resolver(*p),
        }
    }
}

/// What a line says, as the result of parsing it.
pub open spec fn parsed(r: Result<Option<Setting>, ConfigError>) -> Entry {
    match r {
        Ok(None) => Entry::Blank,
        Ok(Some(s)) => s@,
        Err(e) => Entry::Invalid(e),
    }
}

impl Setting {
    /// The setting of a key and a value that are already trimmed and
    /// lowercased.
    pub fn from_pair(key: &str, value: &str) -> (r: Result<Setting, ConfigError>)
        ensures
            entry_of_pair(key@, value@) == match r {
                Ok(s) => s@,
                Err(e) => Entry::Invalid(e),
            },
    {
        if key.unicode_len() == 0 {
            Err(ConfigError::MissingKey)
        } else if value.unicode_len() == 0 {
            Err(ConfigError::MissingValue)
        } else if same_text(key, "home") {
            Ok(Setting::Home(String::from_str(value)))
        } else if same_text(key, "config") {
            Ok(Setting::Config(String::from_str(value)))
        } else if same_text(key, "conflict_resolver") {
            match ConflictResolver::from_str(value) {
                Ok(p) => Ok(Setting::Resolver(p)),
                Err(()) => Err(ConfigError::InvalidResolver),
            }
        } else {
            Err(ConfigError::UnknownKeyword)
        }
    }
}

/// The index of the first `=` in `s`, or the length of `s` if there is none.
fn find_eq(s: &str) -> (r: usize)
    ensures
        r == first_eq_from(s@, 0),
        r <= s@.len(),
{
    let n = s.unicode_len();
    let mut i: usize = 0;
    while i < n
        invariant
            n == s@.len(),
            i <= n,
            first_eq_from(s@, 0) == first_eq_from(s@, i as int),
        decreases n - i,
    {
        if s.get_char(i) == '=' {
            return i;
        }
        i = i + 1;
    }
    i
}

/// Parses one line of a configuration: `None` for a blank line or a comment.
pub fn parse_line(line: &str) -> (r: Result<Option<Setting>, ConfigError>)
    ensures
        parsed(r) == entry_of_line(line@),
{
    let t = trim(line);
    let n = t.unicode_len();
    if n == 0 || t.get_char(0) == '#' {
        return Ok(None);
    }
    let i = find_eq(t);
    if i == n {
        return Err(ConfigError::MissingEquals);
    }
    let key = lowercase(trim(t.substring_char(0, i)));
    let value = lowercase(trim(t.substring_char(i + 1, n)));
    match Setting::from_pair(key.as_str(), value.as_str()) {
        Ok(s) => Ok(Some(s)),
        Err(e) => Err(e),
    }
}

/// Where the entries of the home source directory are linked, before the
/// leading `~` is expanded.
pub const HOME_DESTINATION: &'static str = "~";

/// Where the entries of the config source directory are linked, before the
/// leading `~` is expanded.
pub const CONFIG_DESTINATION: &'static str = "~/.config";

/// The settings of the program: the source directory of the entries that go
/// to the home directory, that of those that go to the config directory,
/// and the policy for existing destinations.
#[derive(Clone, Debug)]
pub struct App {
    pub home: String,
    pub config: String,
    pub resolver: ConflictResolver,
}

impl View for App {
    type V = Settings;

    open spec fn view(&self) -> Settings {
        Settings { home: self.home@, config: self.config@, resolver: self.resolver }
    }
}

impl App {
    /// Reads the settings from the lines of a configuration file: `key = value`
    /// lines with the keys `home`, `config` and `conflict_resolver`, blank
    /// lines and `#` comments. Both paths are required; the policy is `Prompt`
    /// unless the file names another.
    pub fn from_config_file(lines: &Vec<String>) -> (r: Result<App, ConfigError>)
        ensures
            config_of(texts(lines@)) == match r {
                Ok(app) => Ok(app@),
                Err(e) => Err::<Settings, ConfigError>(e),
            },
    {
        let mut home = String::new();
        let mut config = String::new();
        let mut resolver = ConflictResolver::Prompt;
        let ghost all = texts(lines@);
        let mut i: usize = 0;
        proof {
            assert(all.subrange(0, 0) =~= Seq::<Seq<char>>::empty());
        }
        while i < lines.len()
            invariant
                all == texts(lines@),
                i <= lines@.len(),
                settings_of(all.subrange(0, i as int)) == Ok::<Settings, ConfigError>(
                    Settings { home: home@, config: config@, resolver },
                ),
            decreases lines@.len() - i,
        {
            let entry = parse_line(lines[i].as_str());
            proof {
                let before = all.subrange(0, i as int);
                let after = all.subrange(0, i + 1);
                assert(after.drop_last() =~= before);
                assert(after.last() == lines@[i as int]@);
            }
            match entry {
                Ok(None) => {},
                Ok(Some(Setting::Home(h))) => {
                    home = h;
                },
                Ok(Some(Setting::Config(c))) => {
                    config = c;
                },
                Ok(Some(Setting::Resolver(p))) => {
                    resolver = p;
                },
                Err(e) => {
                    proof {
                        lemma_error_stays(all, i + 1);
                    }
                    return Err(e);
                },
            }
            i = i + 1;
        }
        proof {
            assert(all.subrange(0, i as int) =~= all);
        }
        if home.as_str().unicode_len() == 0 {
            return Err(ConfigError::NoHome);
        }
        if config.as_str().unicode_len() == 0 {
            return Err(ConfigError::NoConfig);
        }
        Ok(App { home, config, resolver })
    }

    /// The requests for linking the entries of the home source directory
    /// into `destination`, the home directory.
    pub fn sync_home(&self, destination: &str) -> (r: DirContent)
        ensures
            r.source@ == self.home@,
            r.dir@ == destination@,
            r.resolver == self.resolver,
    {
        sync(self.home.as_str(), destination, self.resolver)
    }

    /// The requests for linking the entries of the config source directory
    /// into `destination`, the config directory.
    pub fn sync_config(&self, destination: &str) -> (r: DirContent)
        ensures
            r.source@ == self.config@,
            r.dir@ == destination@,
            r.resolver == self.resolver,
    {
        sync(self.config.as_str(), destination, self.resolver)
    }
}

} // verus!
