//! The run's arguments, as plain values, and the reading of a local config file's words.
use vstd::prelude::*;

use crate::text::{chars_of, string_of};

verus! {

/// The arguments of a run.
pub struct Args {
    /// The filetypes to scan; all known ones where empty.
    pub filetypes: Vec<String>,
    /// Names of directories not to walk into.
    pub ignore_dirs: Vec<String>,
    /// Keywords that crumbs must carry.
    pub keywords: Option<Vec<String>>,
    /// Path of a JSON file that extends the comment-symbol table.
    pub jsonx: Option<String>,
    /// Files and directories to scan.
    pub targets: Vec<String>,
    /// Delete the crumbs.
    pub delete: bool,
    /// Restore the crumbs back to plain comments.
    pub restore: bool,
    /// Format command to run on changed files.
    pub fmt_command: Option<String>,
    /// Output format: json or list.
    pub output_format: Option<String>,
    /// Show ignored crumbs.
    pub show_ignore: bool,
    /// Folder of the local config file.
    pub config_location: String,
}

impl Args {
    /// Overwrites this args' values with those set in `other`; ignored directories are merged
    /// instead, and `show_ignore` is always taken from `other`.
    pub fn cover(&mut self, other: Self)
        ensures
            final(self).filetypes == if other.filetypes.len() != 0 {
                other.filetypes
            } else {
                old(self).filetypes
            },
            final(self).ignore_dirs@ == old(self).ignore_dirs@ + other.ignore_dirs@,
            final(self).keywords == if other.keywords is Some {
                other.keywords
            } else {
                old(self).keywords
            },
            final(self).jsonx == if other.jsonx is Some {
                other.jsonx
            } else {
                old(self).jsonx
            },
            final(self).targets == if other.targets.len() != 0 {
                other.targets
            } else {
                old(self).targets
            },
            final(self).delete == (old(self).delete || other.delete),
            final(self).restore == (old(self).restore || other.restore),
            final(self).fmt_command == if other.fmt_command is Some {
                other.fmt_command
            } else {
                old(self).fmt_command
            },
            final(self).output_format == if other.output_format is Some {
                other.output_format
            } else {
                old(self).output_format
            },
            final(self).show_ignore == other.show_ignore,
            final(self).config_location == old(self).config_location,
    {
        let mut other = other;
        if other.filetypes.len() != 0 {
            self.filetypes = other.filetypes;
        }
        self.ignore_dirs.append(&mut other.ignore_dirs);
        if other.keywords.is_some() {
            self.keywords = other.keywords;
        }
        if other.jsonx.is_some() {
            self.jsonx = other.jsonx;
        }
        if other.targets.len() != 0 {
            self.targets = other.targets;
        }
        if other.delete {
            self.delete = other.delete;
        }
        if other.restore {
            self.restore = other.restore;
        }
        if other.fmt_command.is_some() {
            self.fmt_command = other.fmt_command;
        }
        if other.output_format.is_some() {
            self.output_format = other.output_format;
        }
        self.show_ignore = other.show_ignore;
    }

    pub fn fmt_command(&self) -> (r: Option<&String>)
        ensures
            r is Some == self.fmt_command is Some,
            r matches Some(s) ==> *s == self.fmt_command->0,
    {
        match &self.fmt_command {
            Some(s) => Some(s),
            None => None,
        }
    }

    pub fn config_location(&self) -> (r: String)
        ensures
            r@ == self.config_location@,
    {
        self.config_location.clone()
    }
}

/// The words of a config line so far, the word being read, and whether a quote is open.
pub struct SplitState {
    pub words: Seq<Seq<char>>,
    pub buf: Seq<char>,
    pub in_string: bool,
}

/// The split of `cs` so far: a space outside quotes ends a non-empty word, a `"` opens or
/// closes a quote and is dropped, any other char is added to the word.
pub open spec fn split_scan(cs: Seq<char>) -> SplitState
    decreases cs.len(),
{
    if cs.len() == 0 {
        SplitState { words: Seq::empty(), buf: Seq::empty(), in_string: false }
    } else {
        let s = split_scan(cs.drop_last());
        let c = cs.last();
        if c == ' ' && !s.in_string {
            if s.buf.len() > 0 {
                SplitState { words: s.words.push(s.buf), buf: Seq::empty(), in_string: false }
            } else {
                s
            }
        } else if c == '"' {
            SplitState { in_string: !s.in_string, ..s }
        } else {
            SplitState { buf: s.buf.push(c), ..s }
        }
    }
}

/// The words of `cs`: split at spaces outside double quotes, quotes dropped, empty words left
/// out.
pub open spec fn split_words(cs: Seq<char>) -> Seq<Seq<char>> {
    let s = split_scan(cs);
    if s.buf.len() > 0 {
        s.words.push(s.buf)
    } else {
        s.words
    }
}

pub open spec fn strings_view(v: Seq<String>) -> Seq<Seq<char>> {
    v.map_values(|s: String| s@)
}

/// Splits `s` at spaces outside double quotes, dropping the quotes and empty words.
pub fn split_space_exclude_those_in_inner_string(s: &str) -> (r: Result<Vec<String>, String>)
    ensures
        r matches Ok(v) && strings_view(v@) == split_words(s@),
{
    let cs = chars_of(s);
    let mut result: Vec<String> = Vec::new();
    let mut buf: Vec<char> = Vec::new();
    let mut in_string = false;
    let mut i: usize = 0;
    while i < cs.len()
        invariant
            i <= cs.len(),
            cs@ == s@,
            strings_view(result@) == split_scan(cs@.take(i as int)).words,
            buf@ == split_scan(cs@.take(i as int)).buf,
            in_string == split_scan(cs@.take(i as int)).in_string,
        decreases cs.len() - i,
    {
        assert(cs@.take(i + 1).drop_last() =~= cs@.take(i as int));
        let b = cs[i];
        if b == ' ' && !in_string {
            if buf.len() > 0 {
                let w = string_of(&buf);
                let ghost prev = result@;
                result.push(w);
                assert(strings_view(result@) =~= strings_view(prev).push(buf@));
                buf = Vec::new();
            }
        } else if b == '"' {
            in_string = !in_string;
        } else {
            buf.push(b);
        }
        i = i + 1;
    }
    assert(cs@.take(i as int) =~= s@);
    if buf.len() > 0 {
        let w = string_of(&buf);
        let ghost prev = result@;
        result.push(w);
        assert(strings_view(result@) =~= strings_view(prev).push(buf@));
    }
    Ok(result)
}

/// The program name that heads the words of a config file.
pub open spec fn program_name() -> Seq<char> {
    seq!['c', 'o', 'd', 'e', 'i', 't', 'l', 'a', 't', 'e', 'r']
}

/// The words of the config lines `ls`, empty lines skipped.
pub open spec fn config_words(ls: Seq<Seq<char>>) -> Seq<Seq<char>>
    decreases ls.len(),
{
    if ls.len() == 0 {
        Seq::empty()
    } else if ls.last().len() == 0 {
        config_words(ls.drop_last())
    } else {
        config_words(ls.drop_last()) + split_words(ls.last())
    }
}

/// The program name, then the words of each non-empty line of a config file, as command-line
/// arguments.
pub fn read_config_raw_content(lines: &Vec<String>) -> (r: Vec<String>)
    ensures
        strings_view(r@) == seq![program_name()] + config_words(strings_view(lines@)),
{
    let mut name: Vec<char> = Vec::new();
    name.push('c');
    name.push('o');
    name.push('d');
    name.push('e');
    name.push('i');
    name.push('t');
    name.push('l');
    name.push('a');
    name.push('t');
    name.push('e');
    name.push('r');
    assert(name@ =~= program_name());
    let mut a: Vec<String> = vec![string_of(&name)];
    let ghost ls = strings_view(lines@);
    let mut i: usize = 0;
    assert(strings_view(a@) =~= seq![program_name()] + config_words(ls.take(0)));
    while i < lines.len()
        invariant
            i <= lines.len(),
            ls == strings_view(lines@),
            strings_view(a@) == seq![program_name()] + config_words(ls.take(i as int)),
        decreases lines.len() - i,
    {
        assert(ls.take(i + 1).drop_last() =~= ls.take(i as int));
        let cs = chars_of(lines[i].as_str());
        if cs.len() > 0 {
            match split_space_exclude_those_in_inner_string(lines[i].as_str()) {
                Ok(words) => {
                    let mut j: usize = 0;
                    let ghost base = a@;
                    while j < words.len()
                        invariant
                            j <= words.len(),
                            strings_view(a@) == strings_view(base) + strings_view(words@).take(
                                j as int,
                            ),
                        decreases words.len() - j,
                    {
                        let ghost prev = a@;
                        a.push(words[j].clone());
                        assert(strings_view(a@) =~= strings_view(prev).push(words@[j as int]@));
                        j = j + 1;
                        assert(strings_view(a@) =~= strings_view(base) + strings_view(
                            words@,
                        ).take(j as int));
                    }
                    assert(strings_view(words@).take(j as int) =~= strings_view(words@));
                },
                Err(_) => {},
            }
        }
        i = i + 1;
        assert(strings_view(a@) =~= seq![program_name()] + config_words(ls.take(i as int)));
    }
    assert(ls.take(i as int) =~= ls);
    a
}

} // verus!
