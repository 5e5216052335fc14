//! User configuration: the settings, their defaults, and the text rules by
//! which an older configuration file is brought up to date.

use crate::text::{is_whitespace, is_whitespace_spec, push_char, to_chars};
use vstd::prelude::*;
use vstd::string::StringExecFns;

verus! {

/// Runtime configuration: language, timestamp format and the number of
/// worker threads.
#[derive(Debug)]
pub struct Config {
    /// Language code used for messages ("auto", "en", "it", ...).
    pub language: String,
    /// Timestamp format used in logs (strftime syntax).
    pub timestamp_format: String,
    /// Number of worker threads for parallel operations.
    pub jobs: usize,
}

/// The number of worker threads of a fresh configuration.
pub const DEFAULT_JOBS: usize = 4;

/// The text of a fresh configuration file.
pub const DEFAULT_CONFIG_TEMPLATE: &'static str =
    "\n# RBackup configuration file\n# --------------------------\n\n# Language for messages.\n# Supported values:\n# - auto   -> uses system locale\n# - en     -> English\n# - it     -> Italian\nlanguage: auto\n\n# Timestamp format for log entries (uses `strftime` syntax)\n# Common placeholders:\n# - %Y -> year (e.g. 2025)\n# - %m -> month (01-12)\n# - %d -> day (01-31)\n# - %H -> hour (00-23)\n# - %M -> minute (00-59)\n# - %S -> second (00-59)\n# Full reference: https://docs.rs/chrono/latest/chrono/format/strftime/index.html\ntimestamp_format: '%Y-%m-%d %H:%M:%S'\n\n# Number of worker threads used for parallel copy operations.\n# Set to an integer > 0. Default: 4\njobs: 4\n";

/// What is appended to a configuration file that does not set the language.
pub const LANGUAGE_BLOCK: &'static str =
    "\n# Language for messages.\n# Supported values:\n# - auto   -> uses system locale\n# - en     -> English\n# - it     -> Italian\nlanguage: auto\n";

/// What is appended to a configuration file that does not set the
/// timestamp format.
pub const TIMESTAMP_BLOCK: &'static str =
    "\n# Timestamp format for log entries (uses `strftime` syntax)\n# Common placeholders: %Y, %m, %d, %H, %M, %S\ntimestamp_format: '%Y-%m-%d %H:%M:%S'\n";

/// What is appended to a configuration file that does not set the number
/// of worker threads.
pub const JOBS_BLOCK: &'static str =
    "\n# Number of worker threads used for parallel copy operations.\n# Set to an integer > 0. Default: 4\njobs: 4\n";

/// The number of characters of `s` before its first line feed.
pub open spec fn line_len(s: Seq<char>) -> nat
    decreases s.len(),
{
    if s.len() == 0 || s[0] == '\n' {
        0
    } else {
        1 + line_len(s.skip(1))
    }
}

/// `s` without the white space it starts with.
pub open spec fn trim_start_spec(s: Seq<char>) -> Seq<char>
    decreases s.len(),
{
    if s.len() > 0 && is_whitespace_spec(s[0]) {
        trim_start_spec(s.skip(1))
    } else {
        s
    }
}

/// The line sets `key`: after the white space it starts with comes the key
/// and a colon. A line that starts with `#` there is a comment and sets
/// nothing.
pub open spec fn line_sets_key(line: Seq<char>, key: Seq<char>) -> bool {
    let text = trim_start_spec(line);
    text.len() > 0 && text[0] != '#' && key.push(':').is_prefix_of(text)
}

/// Some line of `content` sets `key`.
pub open spec fn has_key_spec(content: Seq<char>, key: Seq<char>) -> bool
    decreases content.len(),
{
    if content.len() == 0 {
        false
    } else {
        let n = line_len(content) as int;
        line_sets_key(content.take(n), key) || (n < content.len() && has_key_spec(
            content.skip(n + 1),
            key,
        ))
    }
}

/// A stretch without line feed that ends at a line feed or at the end of
/// the text is the first line.
pub proof fn lemma_line_len(s: Seq<char>, n: int)
    requires
        0 <= n <= s.len(),
        forall|j: int| 0 <= j < n ==> s[j] != '\n',
        n == s.len() || s[n] == '\n',
    ensures
        line_len(s) == n,
    decreases n,
{
    if n > 0 {
        lemma_line_len(s.skip(1), n - 1);
    }
}

/// A stretch of white space followed by something else, or by the end of
/// the text, is what trimming takes off.
pub proof fn lemma_trim_start(s: Seq<char>, n: int)
    requires
        0 <= n <= s.len(),
        forall|j: int| 0 <= j < n ==> is_whitespace_spec(s[j]),
        n == s.len() || !is_whitespace_spec(s[n]),
    ensures
        trim_start_spec(s) == s.skip(n),
    decreases n,
{
    if n > 0 {
        lemma_trim_start(s.skip(1), n - 1);
        assert(s.skip(1).skip(n - 1) =~= s.skip(n));
    } else {
        assert(s.skip(0) =~= s);
    }
}

/// Whether `v[from..to]` starts with `key` and a colon.
fn sets_key_at(v: &Vec<char>, from: usize, to: usize, key: &Vec<char>) -> (r: bool)
    requires
        from <= to <= v.len(),
    ensures
        r == key@.push(':').is_prefix_of(v@.subrange(from as int, to as int)),
{
    let ghost text = v@.subrange(from as int, to as int);
    let ghost want = key@.push(':');
    if key.len() >= to - from {
        return false;
    }
    let mut i: usize = 0;
    while i < key.len()
        invariant
            i <= key.len(),
            from <= to <= v.len(),
            key.len() < to - from,
            text == v@.subrange(from as int, to as int),
            want == key@.push(':'),
            forall|j: int| 0 <= j < i ==> want[j] == text[j],
        decreases key.len() - i,
    {
        if key[i] != v[from + i] {
            proof {
                assert(want[i as int] != text[i as int]);
                assert(want.len() <= text.len());
                if want.is_prefix_of(text) {
                    assert(text.subrange(0, want.len() as int)[i as int] == text[i as int]);
                }
            }
            return false;
        }
        i = i + 1;
    }
    if v[from + key.len()] == ':' {
        proof {
            assert(want =~= text.subrange(0, want.len() as int));
        }
        true
    } else {
        proof {
            let k = key.len() as int;
            assert(want[k] != text[k]);
            if want.is_prefix_of(text) {
                assert(text.subrange(0, want.len() as int)[k] == text[k]);
            }
        }
        false
    }
}

/// Whether some line of `content` sets `key`, lines that are comments
/// left aside.
pub fn has_key_uncommented(content: &str, key: &str) -> (r: bool)
    ensures
        r == has_key_spec(content@, key@),
{
    let v = to_chars(content);
    let k = to_chars(key);
    let mut pos: usize = 0;
    proof {
        assert(v@.skip(0) =~= v@);
    }
    while pos < v.len()
        invariant
            pos <= v.len(),
            v@ == content@,
            k@ == key@,
            has_key_spec(content@, key@) == has_key_spec(v@.skip(pos as int), key@),
        decreases v.len() - pos,
    {
        let ghost rest = v@.skip(pos as int);
        let mut end: usize = pos;
        while end < v.len() && v[end] != '\n'
            invariant
                pos <= end <= v.len(),
                forall|j: int| pos <= j < end ==> v@[j] != '\n',
            decreases v.len() - end,
        {
            end = end + 1;
        }
        proof {
            lemma_line_len(rest, end - pos);
            assert(rest.take(end - pos) =~= v@.subrange(pos as int, end as int));
        }
        let mut start: usize = pos;
        while start < end && is_whitespace(v[start])
            invariant
                pos <= start <= end <= v.len(),
                forall|j: int| pos <= j < start ==> is_whitespace_spec(v@[j]),
            decreases end - start,
        {
            start = start + 1;
        }
        proof {
            let line = v@.subrange(pos as int, end as int);
            lemma_trim_start(line, start - pos);
            assert(line.skip(start - pos) =~= v@.subrange(start as int, end as int));
        }
        if start < end && v[start] != '#' && sets_key_at(&v, start, end, &k) {
            return true;
        }
        if end < v.len() {
            proof {
                assert(rest.skip(end - pos + 1) =~= v@.skip(end + 1));
            }
            pos = end + 1;
        } else {
            proof {
                assert(v@.skip(v@.len() as int) =~= Seq::<char>::empty());
            }
            pos = end;
        }
    }
    false
}

/// What is to be done to a configuration file to bring it up to date.
#[derive(Debug)]
pub enum ConfigUpgrade {
    /// There is no file: write one with this text.
    Create(String),
    /// Append this text, which sets what the file does not.
    Append(String),
    /// The file sets everything.
    Unchanged,
}

/// The text to append to `content` so that it sets the language, the
/// timestamp format and the number of worker threads: one block for each
/// that it does not set, in this order.
pub open spec fn additions_spec(content: Seq<char>) -> Seq<char> {
    let language = if has_key_spec(content, "language"@) {
        Seq::empty()
    } else {
        LANGUAGE_BLOCK@
    };
    let timestamp = if has_key_spec(content, "timestamp_format"@) {
        Seq::empty()
    } else {
        TIMESTAMP_BLOCK@
    };
    let jobs = if has_key_spec(content, "jobs"@) {
        Seq::empty()
    } else {
        JOBS_BLOCK@
    };
    language + timestamp + jobs
}

/// Whether `content` sets all three settings.
pub open spec fn is_complete(content: Seq<char>) -> bool {
    &&& has_key_spec(content, "language"@)
    &&& has_key_spec(content, "timestamp_format"@)
    &&& has_key_spec(content, "jobs"@)
}

impl Config {
    /// Whether `self` holds the settings of a fresh configuration.
    pub open spec fn is_default(self) -> bool {
        &&& self.language@ == "auto"@
        &&& self.timestamp_format@ == "%Y-%m-%d %H:%M:%S"@
        &&& self.jobs == DEFAULT_JOBS
    }

    /// The text of the default configuration file.
    pub fn default_config() -> (text: String)
        ensures
            text@ == DEFAULT_CONFIG_TEMPLATE@,
    {
        String::from_str(DEFAULT_CONFIG_TEMPLATE)
    }

    /// Decides how to upgrade the configuration file with the text
    /// `content`, `None` standing for a missing file: a missing file is
    /// created from the default text, and a file that lacks settings gets
    /// them appended with their defaults.
    pub fn upgrade_config_file(content: Option<&str>) -> (r: ConfigUpgrade)
        ensures
            match r {
                ConfigUpgrade::Create(text) => content is None && text@ == DEFAULT_CONFIG_TEMPLATE@,
                ConfigUpgrade::Append(text) => content matches Some(c) && !is_complete(c@) && text@
                    == additions_spec(c@),
                ConfigUpgrade::Unchanged => content matches Some(c) && is_complete(c@),
            },
    {
        match content {
            None => ConfigUpgrade::Create(Config::default_config()),
            Some(c) => {
                let mut additions = String::new();
                let mut changed = false;
                if !has_key_uncommented(c, "language") {
                    additions.append(LANGUAGE_BLOCK);
                    changed = true;
                }
                if !has_key_uncommented(c, "timestamp_format") {
                    additions.append(TIMESTAMP_BLOCK);
                    changed = true;
                }
                if !has_key_uncommented(c, "jobs") {
                    additions.append(JOBS_BLOCK);
                    changed = true;
                }
                proof {
                    assert(additions@ =~= additions_spec(c@));
                }
                if changed {
                    ConfigUpgrade::Append(additions)
                } else {
                    ConfigUpgrade::Unchanged
                }
            },
        }
    }

    /// The place of the configuration file below `base`, the directory that
    /// the environment names for the user (`.` where it names none):
    /// `rbackup\rbackup.conf` on Windows, `.rbackup/rbackup.conf` elsewhere.
    pub open spec fn config_file_spec(base: Option<Seq<char>>, windows: bool) -> Seq<char> {
        let dir = match base {
            Some(b) => b,
            None => seq!['.'],
        };
        if windows {
            dir + "\\rbackup\\rbackup.conf"@
        } else {
            dir + "/.rbackup/rbackup.conf"@
        }
    }

    /// Compute the location of the configuration file. `base` is the value
    /// of `APPDATA` on Windows and of `HOME` elsewhere.
    pub fn config_file(base: Option<&str>, windows: bool) -> (path: String)
        ensures
            path@ == Config::config_file_spec(
                match base {
                    Some(b) => Some(b@),
                    None => None,
                },
                windows,
            ),
    {
        let mut path = String::new();
        match base {
            Some(b) => {
                path.append(b);
            },
            None => {
                push_char(&mut path, '.');
            },
        }
        if windows {
            path.append("\\rbackup\\rbackup.conf");
        } else {
            path.append("/.rbackup/rbackup.conf");
        }
        path
    }

    /// The configuration that was loaded, or the defaults where loading the
    /// configuration file failed (`None`).
    pub fn load_or_default(loaded: Option<Config>) -> (c: Config)
        ensures
            match loaded {
                Some(l) => c == l,
                None => c.is_default(),
            },
    {
        match loaded {
            Some(l) => l,
            None => Config {
                language: String::from_str("auto"),
                timestamp_format: String::from_str("%Y-%m-%d %H:%M:%S"),
                jobs: DEFAULT_JOBS,
            },
        }
    }

    /// The editor to open the configuration file with: the one asked for,
    /// else the one that `EDITOR` names, else the one that `VISUAL` names,
    /// else `notepad` on Windows and `vi` elsewhere.
    pub open spec fn editor_spec(
        editor: Option<String>,
        env_editor: Option<String>,
        env_visual: Option<String>,
        windows: bool,
    ) -> Seq<char> {
        match editor {
            Some(e) => e@,
            None => match env_editor {
                Some(e) => e@,
                None => match env_visual {
                    Some(e) => e@,
                    None => if windows {
                        "notepad"@
                    } else {
                        "vi"@
                    },
                },
            },
        }
    }

    /// Chooses the editor to open the configuration file with.
    pub fn edit(
        editor: Option<String>,
        env_editor: Option<String>,
        env_visual: Option<String>,
        windows: bool,
    ) -> (command: String)
        ensures
            command@ == Config::editor_spec(editor, env_editor, env_visual, windows),
    {
        match editor {
            Some(e) => e,
            None => match env_editor {
                Some(e) => e,
                None => match env_visual {
                    Some(e) => e,
                    None => if windows {
                        String::from_str("notepad")
                    } else {
                        String::from_str("vi")
                    },
                },
            },
        }
    }
}

} // verus!
