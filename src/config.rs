//! The comment-symbol table, the expressions built from it and from keywords, and the
//! configuration of a run.
use vstd::prelude::*;

use crate::args::{strings_view, Args};
use crate::matcher::{regex_compiles, Matcher};
use crate::text::{chars_of, push_str_chars, string_of};

verus! {

/// The inner table of comment symbols, as JSON: a file extension to its comment symbols, each
/// written as a regular expression.
pub const DICT: &'static str = r#"
{
"rs":["//", "/\\*"],
"go":["//", "/\\*", "// "],
"lisp":[";"],
"asd":[";"],
"asdf":[";"],
"py":["\\#"],
"hs":["-- "],
"el":[";"],
"clj":[";"],
"js":["//"]
}
"#;

/// Each symbol followed by `+`, joined by `|`.
pub open spec fn symbol_alternation(syms: Seq<Seq<char>>) -> Seq<char>
    decreases syms.len(),
{
    if syms.len() == 0 {
        Seq::empty()
    } else if syms.len() == 1 {
        syms[0] + seq!['+']
    } else {
        symbol_alternation(syms.drop_last()) + seq!['|'] + syms.last() + seq!['+']
    }
}

/// The comment expression for the symbols `syms`: `(sym1+|sym2+|...):=\s+(.*)`.
pub open spec fn comment_regex(syms: Seq<Seq<char>>) -> Seq<char> {
    seq!['('] + symbol_alternation(syms) + seq![')', ':', '=', '\\', 's', '+', '(', '.', '*', ')']
}

/// The keywords joined by `|`.
pub open spec fn keyword_alternation(kws: Seq<Seq<char>>) -> Seq<char>
    decreases kws.len(),
{
    if kws.len() == 0 {
        Seq::empty()
    } else if kws.len() == 1 {
        kws[0]
    } else {
        keyword_alternation(kws.drop_last()) + seq!['|'] + kws.last()
    }
}

/// The case-insensitive keyword expression for `kws`: `(?i)(kw1|kw2|...):\s*(.*)`.
pub open spec fn keyword_regex(kws: Seq<Seq<char>>) -> Seq<char> {
    seq!['(', '?', 'i', ')', '('] + keyword_alternation(kws) + seq![
        ')',
        ':',
        '\\',
        's',
        '*',
        '(',
        '.',
        '*',
        ')',
    ]
}

/// The comment expression for the symbols `com_syms`.
pub fn make_regex(com_syms: &Vec<String>) -> (r: String)
    requires
        com_syms.len() > 0,
    ensures
        r@ == comment_regex(strings_view(com_syms@)),
{
    let ghost ss = strings_view(com_syms@);
    let mut head: Vec<char> = Vec::new();
    head.push('(');
    let mut i: usize = 0;
    while i < com_syms.len()
        invariant
            i <= com_syms.len(),
            ss == strings_view(com_syms@),
            head@ == seq!['('] + symbol_alternation(ss.take(i as int)),
        decreases com_syms.len() - i,
    {
        assert(ss.take(i + 1).drop_last() =~= ss.take(i as int));
        if i > 0 {
            head.push('|');
        }
        push_str_chars(&mut head, com_syms[i].as_str());
        head.push('+');
        i = i + 1;
        assert(head@ =~= seq!['('] + symbol_alternation(ss.take(i as int)));
    }
    assert(ss.take(i as int) =~= ss);
    head.push(')');
    head.push(':');
    head.push('=');
    head.push('\\');
    head.push('s');
    head.push('+');
    head.push('(');
    head.push('.');
    head.push('*');
    head.push(')');
    assert(head@ =~= comment_regex(ss));
    string_of(&head)
}

/// The case-insensitive keyword expression for `keywords`.
pub fn make_key_regex(keywords: &Vec<String>) -> (r: String)
    requires
        keywords.len() > 0,
    ensures
        r@ == keyword_regex(strings_view(keywords@)),
{
    let ghost ks = strings_view(keywords@);
    let mut ss: Vec<char> = Vec::new();
    ss.push('(');
    ss.push('?');
    ss.push('i');
    ss.push(')');
    ss.push('(');
    let mut i: usize = 0;
    while i < keywords.len()
        invariant
            i <= keywords.len(),
            ks == strings_view(keywords@),
            ss@ == seq!['(', '?', 'i', ')', '('] + keyword_alternation(ks.take(i as int)),
        decreases keywords.len() - i,
    {
        assert(ks.take(i + 1).drop_last() =~= ks.take(i as int));
        if i > 0 {
            ss.push('|');
        }
        push_str_chars(&mut ss, keywords[i].as_str());
        i = i + 1;
        assert(ss@ =~= seq!['(', '?', 'i', ')', '('] + keyword_alternation(ks.take(i as int)));
    }
    assert(ks.take(i as int) =~= ks);
    ss.push(')');
    ss.push(':');
    ss.push('\\');
    ss.push('s');
    ss.push('*');
    ss.push('(');
    ss.push('.');
    ss.push('*');
    ss.push(')');
    assert(ss@ =~= keyword_regex(ks));
    string_of(&ss)
}

/// What is wrong with a configuration.
#[derive(Debug, PartialEq, Eq)]
pub enum ConfigError {
    /// The table text is not a JSON object from strings to arrays of strings.
    InvalidJson,
    /// The filetype is given no comment symbol.
    NoSymbols(String),
    /// The expression does not compile.
    InvalidPattern(String),
    /// Keywords were asked for, but none was given.
    NoKeywords,
}

/// The entries of a comment-symbol table that a JSON text holds, in the order of their keys,
/// as (filetype, symbols); `None` where the text is not a JSON object from strings to arrays of
/// strings.
pub uninterp spec fn json_table(raw: Seq<char>) -> Option<Seq<(Seq<char>, Seq<Seq<char>>)>>;

pub open spec fn entries_view(es: Seq<(String, Vec<String>)>) -> Seq<(Seq<char>, Seq<Seq<char>>)> {
    es.map_values(|e: (String, Vec<String>)| (e.0@, strings_view(e.1@)))
}

/// Relies on `serde_json::from_str` into a `BTreeMap<String, Vec<String>>`: the object's
/// entries, in key order, or an error where the text is not such an object.
#[verifier::external_body]
fn parse_table_json(raw: &str) -> (r: Option<Vec<(String, Vec<String>)>>)
    ensures
        match r {
            Some(es) => json_table(raw@) == Some(entries_view(es@)),
            None => json_table(raw@) is None,
        },
{
    serde_json::from_str::<std::collections::BTreeMap<String, Vec<String>>>(raw).ok().map(
        |m| m.into_iter().collect(),
    )
}

/// The JSON table `raw` gives filetype `ft` no symbol.
pub open spec fn json_lacks_symbols(raw: Seq<char>, ft: Seq<char>) -> bool {
    match json_table(raw) {
        Some(es) => exists|i: int| 0 <= i < es.len() && es[i].1.len() == 0 && es[i].0 == ft,
        None => false,
    }
}

/// The JSON table `raw` gives some filetype the symbols whose comment expression is `p`.
pub open spec fn json_has_pattern(raw: Seq<char>, p: Seq<char>) -> bool {
    match json_table(raw) {
        Some(es) => exists|i: int| 0 <= i < es.len() && p == comment_regex(es[i].1),
        None => false,
    }
}

/// The JSON table `raw` parses, gives every filetype at least one symbol, and the comment
/// expression of each filetype compiles.
pub open spec fn json_table_usable(raw: Seq<char>) -> bool {
    match json_table(raw) {
        Some(es) => forall|i: int|
            0 <= i < es.len() ==> #[trigger] es[i].1.len() > 0 && regex_compiles(
                comment_regex(es[i].1),
            ),
        None => false,
    }
}

/// The symbols of filetype `ft` in the table `t`, if it has them.
pub open spec fn lookup(t: Seq<(Seq<char>, Seq<Seq<char>>)>, ft: Seq<char>) -> Option<
    Seq<Seq<char>>,
>
    decreases t.len(),
{
    if t.len() == 0 {
        None
    } else if t.last().0 == ft {
        Some(t.last().1)
    } else {
        lookup(t.drop_last(), ft)
    }
}

/// The table `t` with the entry of `ft` set to `syms`: replaced where `ft` has one, appended
/// where not.
pub open spec fn table_set(t: Seq<(Seq<char>, Seq<Seq<char>>)>, ft: Seq<char>, syms: Seq<
    Seq<char>,
>) -> Seq<(Seq<char>, Seq<Seq<char>>)> {
    if exists|i: int| 0 <= i < t.len() && t[i].0 == ft {
        let i = choose|i: int| 0 <= i < t.len() && t[i].0 == ft;
        t.update(i, (ft, syms))
    } else {
        t.push((ft, syms))
    }
}

/// The table `t` with each of the entries `es` set in turn.
pub open spec fn table_merge(t: Seq<(Seq<char>, Seq<Seq<char>>)>, es: Seq<
    (Seq<char>, Seq<Seq<char>>),
>) -> Seq<(Seq<char>, Seq<Seq<char>>)>
    decreases es.len(),
{
    if es.len() == 0 {
        t
    } else {
        table_set(table_merge(t, es.drop_last()), es.last().0, es.last().1)
    }
}

/// The filetypes of `t` are distinct.
pub open spec fn keys_distinct(t: Seq<(Seq<char>, Seq<Seq<char>>)>) -> bool {
    forall|i: int, j: int| 0 <= i < j < t.len() ==> t[i].0 != t[j].0
}

/// One filetype of the table, its symbols and their compiled comment expression.
pub struct TableEntry {
    filetype: String,
    symbols: Vec<String>,
    matcher: Matcher,
}

impl TableEntry {
    pub closed spec fn view_entry(&self) -> (Seq<char>, Seq<Seq<char>>) {
        (self.filetype@, strings_view(self.symbols@))
    }

    pub closed spec fn wf(&self) -> bool {
        &&& self.symbols.len() > 0
        &&& self.matcher.pattern() == comment_regex(strings_view(self.symbols@))
    }
}

/// The comment-symbol table: for each filetype, its symbols and the compiled comment
/// expression made from them.
pub struct CommentTable {
    entries: Vec<TableEntry>,
}

impl View for CommentTable {
    type V = Seq<(Seq<char>, Seq<Seq<char>>)>;

    closed spec fn view(&self) -> Seq<(Seq<char>, Seq<Seq<char>>)> {
        self.entries@.map_values(|e: TableEntry| e.view_entry())
    }
}

/// Tests two strings for equality.
fn same_text(a: &String, b: &String) -> (r: bool)
    ensures
        r == (a@ == b@),
{
    (*a).eq(b)
}

impl CommentTable {
    #[verifier::type_invariant]
    closed spec fn inv(&self) -> bool {
        &&& forall|i: int| 0 <= i < self.entries.len() ==> #[trigger] self.entries[i].wf()
        &&& keys_distinct(self@)
    }

    /// A table with no filetype.
    pub fn empty() -> (r: Self)
        ensures
            r@ == Seq::<(Seq<char>, Seq<Seq<char>>)>::empty(),
    {
        let r = CommentTable { entries: Vec::new() };
        assert(r@ =~= Seq::<(Seq<char>, Seq<Seq<char>>)>::empty());
        r
    }

    /// The inner table, read from `DICT`.
    pub fn new() -> (r: Result<Self, ConfigError>)
        ensures
            (r == Err::<Self, ConfigError>(ConfigError::InvalidJson)) <==> json_table(DICT@) is None,
            json_table_usable(DICT@) ==> r is Ok,
            !(r matches Err(ConfigError::NoKeywords)),
            r matches Err(ConfigError::NoSymbols(ft)) ==> json_lacks_symbols(DICT@, ft@),
            r matches Err(ConfigError::InvalidPattern(p)) ==> json_has_pattern(DICT@, p@)
                && !regex_compiles(p@),
            r matches Ok(t) ==> (json_table(DICT@) matches Some(es) && t@ == table_merge(
                Seq::empty(),
                es,
            )),
    {
        let mut t = CommentTable::empty();
        match t.update_table(DICT) {
            Ok(()) => Ok(t),
            Err(e) => Err(e),
        }
    }

    /// The index of the entry of filetype `ft`, if any.
    fn find(&self, ft: &String) -> (r: Option<usize>)
        ensures
            match r {
                Some(i) => i < self@.len() && self@[i as int].0 == ft@,
                None => forall|i: int| 0 <= i < self@.len() ==> self@[i].0 != ft@,
            },
    {
        let mut i: usize = 0;
        while i < self.entries.len()
            invariant
                i <= self.entries.len(),
                forall|j: int| 0 <= j < i ==> self@[j].0 != ft@,
            decreases self.entries.len() - i,
        {
            if same_text(&self.entries[i].filetype, ft) {
                return Some(i);
            }
            i = i + 1;
        }
        None
    }

    proof fn lemma_lookup_at(t: Seq<(Seq<char>, Seq<Seq<char>>)>, i: int)
        requires
            keys_distinct(t),
            0 <= i < t.len(),
        ensures
            lookup(t, t[i].0) == Some(t[i].1),
        decreases t.len(),
    {
        if i != t.len() - 1 {
            Self::lemma_lookup_at(t.drop_last(), i);
        }
    }

    proof fn lemma_lookup_none(t: Seq<(Seq<char>, Seq<Seq<char>>)>, ft: Seq<char>)
        requires
            forall|i: int| 0 <= i < t.len() ==> t[i].0 != ft,
        ensures
            lookup(t, ft) is None,
        decreases t.len(),
    {
        if t.len() > 0 {
            Self::lemma_lookup_none(t.drop_last(), ft);
        }
    }

    /// The compiled comment expression of filetype `ext`, if the table has it.
    pub fn pattern_for(&self, ext: &String) -> (r: Option<&Matcher>)
        ensures
            r is Some == lookup(self@, ext@) is Some,
            r matches Some(m) ==> m.pattern() == comment_regex(lookup(self@, ext@)->0),
    {
        proof {
            use_type_invariant(self);
        }
        match self.find(ext) {
            Some(i) => {
                proof {
                    Self::lemma_lookup_at(self@, i as int);
                    assert(self.entries[i as int].wf());
                }
                Some(&self.entries[i].matcher)
            },
            None => {
                proof {
                    Self::lemma_lookup_none(self@, ext@);
                }
                None
            },
        }
    }

    /// The comment symbols of filetype `ext`, if the table has it.
    pub fn symbols_for(&self, ext: &String) -> (r: Option<&Vec<String>>)
        ensures
            r is Some == lookup(self@, ext@) is Some,
            r matches Some(v) ==> strings_view(v@) == lookup(self@, ext@)->0,
    {
        proof {
            use_type_invariant(self);
        }
        match self.find(ext) {
            Some(i) => {
                proof {
                    Self::lemma_lookup_at(self@, i as int);
                }
                Some(&self.entries[i].symbols)
            },
            None => {
                proof {
                    Self::lemma_lookup_none(self@, ext@);
                }
                None
            },
        }
    }

    /// Sets the symbols of filetype `ft` to those of `e`, replacing its entry or adding one.
    fn set_entry(&mut self, e: TableEntry)
        requires
            e.wf(),
        ensures
            final(self)@ == table_set(old(self)@, e.view_entry().0, e.view_entry().1),
    {
        proof {
            use_type_invariant(&*self);
        }
        let ghost ev = e.view_entry();
        let found = self.find(&e.filetype);
        let ghost t = self@;
        let mut tmp = CommentTable::empty();
        std::mem::swap(self, &mut tmp);
        proof {
            use_type_invariant(&tmp);
        }
        let mut entries = tmp.entries;
        assert(entries@.map_values(|x: TableEntry| x.view_entry()) == t);
        match found {
            Some(i) => {
                proof {
                    assert(exists|j: int| 0 <= j < t.len() && t[j].0 == ev.0);
                    let k = choose|j: int| 0 <= j < t.len() && t[j].0 == ev.0;
                    assert(k == i) by {
                        if k != i {
                            if k < i {
                                assert(t[k].0 != t[i as int].0);
                            } else {
                                assert(t[i as int].0 != t[k].0);
                            }
                        }
                    }
                }
                entries.set(i, e);
            },
            None => {
                entries.push(e);
            },
        }
        let ghost nt = table_set(t, ev.0, ev.1);
        assert(entries@.map_values(|x: TableEntry| x.view_entry()) =~= nt);
        assert(forall|a: int| 0 <= a < entries.len() ==> #[trigger] entries[a].wf());
        assert(keys_distinct(nt)) by {
            assert forall|a: int, b: int| 0 <= a < b < nt.len() implies nt[a].0 != nt[b].0 by {
                if found is None {
                    if b == t.len() {
                        assert(t[a].0 != ev.0);
                    }
                }
            }
        }
        *self = CommentTable { entries };
        assert(self@ =~= nt);
    }

    /// Merges the JSON table `raw_json` into this one: each filetype it names gets exactly the
    /// symbols it gives, and its comment expression is compiled anew. On an error the table is
    /// left as it was.
    pub fn update_table(&mut self, raw_json: &str) -> (r: Result<(), ConfigError>)
        ensures
            (r == Err::<(), ConfigError>(ConfigError::InvalidJson)) <==> json_table(raw_json@) is None,
            json_table(raw_json@) matches Some(es) && (exists|i: int|
                0 <= i < es.len() && es[i].1.len() == 0) ==> r is Err,
            json_table_usable(raw_json@) ==> r is Ok,
            !(r matches Err(ConfigError::NoKeywords)),
            r matches Err(ConfigError::NoSymbols(ft)) ==> json_lacks_symbols(raw_json@, ft@),
            r matches Err(ConfigError::InvalidPattern(p)) ==> json_has_pattern(raw_json@, p@)
                && !regex_compiles(p@),
            r is Ok ==> (json_table(raw_json@) matches Some(es) && final(self)@ == table_merge(
                old(self)@,
                es,
            )),
            r is Err ==> final(self)@ == old(self)@,
    {
        let es = match parse_table_json(raw_json) {
            Some(es) => es,
            None => {
                return Err(ConfigError::InvalidJson);
            },
        };
        let ghost ev = entries_view(es@);
        let mut k: usize = 0;
        while k < es.len()
            invariant
                k <= es.len(),
                ev == entries_view(es@),
                json_table(raw_json@) == Some(ev),
                forall|j: int| 0 <= j < k ==> ev[j].1.len() > 0,
            decreases es.len() - k,
        {
            if es[k].1.len() == 0 {
                let ft = es[k].0.clone();
                assert(ev[k as int].1.len() == 0 && ev[k as int].0 == ft@);
                assert(exists|j: int| 0 <= j < ev.len() && ev[j].1.len() == 0 && ev[j].0 == ft@);
                return Err(ConfigError::NoSymbols(ft));
            }
            k = k + 1;
        }
        let mut compiled: Vec<TableEntry> = Vec::new();
        let mut i: usize = 0;
        while i < es.len()
            invariant
                i <= es.len(),
                ev == entries_view(es@),
                json_table(raw_json@) == Some(ev),
                forall|j: int| 0 <= j < es.len() ==> ev[j].1.len() > 0,
                compiled.len() == i,
                forall|j: int|
                    0 <= j < i ==> #[trigger] compiled[j].wf() && compiled[j].view_entry()
                        == ev[j],
            decreases es.len() - i,
        {
            assert(ev[i as int].1.len() == es[i as int].1.len());
            let source = make_regex(&es[i].1);
            match Matcher::compile(source.as_str()) {
                Some(m) => {
                    let e = TableEntry {
                        filetype: es[i].0.clone(),
                        symbols: es[i].1.clone(),
                        matcher: m,
                    };
                    assert(e.view_entry() == ev[i as int]);
                    compiled.push(e);
                },
                None => {
                    assert(source@ == comment_regex(ev[i as int].1));
                    assert(exists|j: int| 0 <= j < ev.len() && source@ == comment_regex(ev[j].1));
                    return Err(ConfigError::InvalidPattern(source));
                },
            }
            i = i + 1;
        }
        let ghost start = self@;
        let ghost all = compiled@;
        let mut m: usize = 0;
        while compiled.len() > 0
            invariant
                m + compiled.len() == all.len(),
                all.len() == ev.len(),
                ev.len() == es.len(),
                compiled@ == all.skip(m as int),
                forall|j: int| 0 <= j < all.len() ==> #[trigger] all[j].wf() && all[j].view_entry()
                    == ev[j],
                self@ == table_merge(start, ev.take(m as int)),
            decreases compiled.len(),
        {
            let e = compiled.remove(0);
            assert(e == all[m as int]);
            assert(ev.take(m + 1).drop_last() =~= ev.take(m as int));
            assert(ev.take(m + 1).last() == ev[m as int]);
            assert(all[m as int].wf());
            assert(e.view_entry() == ev[m as int]);
            self.set_entry(e);
            m = m + 1;
            assert(compiled@ =~= all.skip(m as int));
        }
        assert(ev.take(m as int) =~= ev);
        Ok(())
    }

    /// The comment expression of a file with extension `ext`: where `filetypes` is not empty,
    /// only for an extension it lists; and only for one the table has.
    pub fn file_checker(&self, ext: &String, filetypes: &Vec<String>) -> (r: Option<&Matcher>)
        ensures
            r is Some == ((filetypes.len() == 0 || strings_view(filetypes@).contains(ext@))
                && lookup(self@, ext@) is Some),
            r matches Some(m) ==> m.pattern() == comment_regex(lookup(self@, ext@)->0),
    {
        if filetypes.len() != 0 && !contains_text(filetypes, ext) {
            return None;
        }
        self.pattern_for(ext)
    }
}

/// Whether `v` holds a string equal to `s`.
pub fn contains_text(v: &Vec<String>, s: &String) -> (r: bool)
    ensures
        r == strings_view(v@).contains(s@),
{
    let mut i: usize = 0;
    while i < v.len()
        invariant
            i <= v.len(),
            forall|j: int| 0 <= j < i ==> v@[j]@ != s@,
        decreases v.len() - i,
    {
        if same_text(&v[i], s) {
            assert(strings_view(v@)[i as int] == s@);
            return true;
        }
        i = i + 1;
    }
    assert(!strings_view(v@).contains(s@)) by {
        if strings_view(v@).contains(s@) {
            let j = choose|j: int| 0 <= j < strings_view(v@).len() && strings_view(v@)[j] == s@;
            assert(v@[j]@ == s@);
        }
    }
    false
}

/// Whether a directory named `name` is walked into: always where `ignore_dirs` is empty, else
/// where it has a name that `ignore_dirs` does not list.
pub fn keep_dir(name: &Option<String>, ignore_dirs: &Vec<String>) -> (r: bool)
    ensures
        r == (ignore_dirs.len() == 0 || (name matches Some(n) && !strings_view(
            ignore_dirs@,
        ).contains(n@))),
{
    if ignore_dirs.len() == 0 {
        return true;
    }
    match name {
        Some(n) => !contains_text(ignore_dirs, n),
        None => false,
    }
}

/// The compiled comment expression for the symbols `symbols`.
pub fn comment_matcher(symbols: &Vec<String>) -> (r: Result<Matcher, ConfigError>)
    ensures
        symbols.len() == 0 <==> r matches Err(ConfigError::NoSymbols(_)),
        r matches Ok(m) ==> m.pattern() == comment_regex(strings_view(symbols@)),
        r matches Err(ConfigError::InvalidPattern(p)) ==> p@ == comment_regex(
            strings_view(symbols@),
        ),
        symbols.len() > 0 ==> (r is Ok <==> regex_compiles(comment_regex(strings_view(symbols@)))),
        r is Err ==> r matches Err(ConfigError::NoSymbols(_)) || r matches Err(
            ConfigError::InvalidPattern(_),
        ),
{
    if symbols.len() == 0 {
        return Err(ConfigError::NoSymbols(String::new()));
    }
    let source = make_regex(symbols);
    match Matcher::compile(source.as_str()) {
        Some(m) => Ok(m),
        None => Err(ConfigError::InvalidPattern(source)),
    }
}

/// The compiled keyword expression for `keywords`.
pub fn keyword_matcher(keywords: &Vec<String>) -> (r: Result<Matcher, ConfigError>)
    ensures
        keywords.len() == 0 <==> r == Err::<Matcher, ConfigError>(ConfigError::NoKeywords),
        keywords.len() > 0 ==> (r is Ok <==> regex_compiles(keyword_regex(strings_view(keywords@)))),
        r matches Ok(m) ==> m.pattern() == keyword_regex(strings_view(keywords@)),
        r matches Err(ConfigError::InvalidPattern(p)) ==> keywords.len() > 0 && p@
            == keyword_regex(strings_view(keywords@)),
        r is Err ==> r == Err::<Matcher, ConfigError>(ConfigError::NoKeywords) || r matches Err(
            ConfigError::InvalidPattern(_),
        ),
{
    if keywords.len() == 0 {
        return Err(ConfigError::NoKeywords);
    }
    let source = make_key_regex(keywords);
    match Matcher::compile(source.as_str()) {
        Some(m) => Ok(m),
        None => Err(ConfigError::InvalidPattern(source)),
    }
}

/// The lower-case form of `s`, as `str::to_lowercase` gives it.
pub uninterp spec fn lower_of(s: Seq<char>) -> Seq<char>;

/// Relies on `str::to_lowercase`: the result depends on the chars of `s` alone.
#[verifier::external_body]
fn lowercase(s: &str) -> (r: String)
    ensures
        r@ == lower_of(s@),
{
    s.to_lowercase()
}

/// How the crumbs found are printed.
#[derive(Clone, Copy, Debug, PartialEq, Eq, Structural)]
pub enum OutputFormat {
    /// A tree of files and their crumbs.
    Tree,
    Json,
    List,
}

impl Default for OutputFormat {
    fn default() -> (r: Self)
        ensures
            r == OutputFormat::Tree,
    {
        OutputFormat::Tree
    }
}

/// The output format that an `--output-format` value names: `json` or `list` in any case, the
/// tree otherwise.
pub open spec fn output_format_spec(v: Option<Seq<char>>) -> OutputFormat {
    match v {
        Some(s) => if lower_of(s) == seq!['j', 's', 'o', 'n'] {
            OutputFormat::Json
        } else if lower_of(s) == seq!['l', 'i', 's', 't'] {
            OutputFormat::List
        } else {
            OutputFormat::Tree
        },
        None => OutputFormat::Tree,
    }
}

/// The output format that the value `v` names.
pub fn output_format_of(v: &Option<String>) -> (r: OutputFormat)
    ensures
        r == output_format_spec(crate::datatypes::opt_view(*v)),
{
    match v {
        Some(s) => {
            let l = chars_of(lowercase(s.as_str()).as_str());
            if l.len() == 4 && l[0] == 'j' && l[1] == 's' && l[2] == 'o' && l[3] == 'n' {
                assert(l@ =~= seq!['j', 's', 'o', 'n']);
                OutputFormat::Json
            } else if l.len() == 4 && l[0] == 'l' && l[1] == 'i' && l[2] == 's' && l[3] == 't' {
                assert(l@ =~= seq!['l', 'i', 's', 't']);
                OutputFormat::List
            } else {
                OutputFormat::Tree
            }
        },
        None => OutputFormat::Tree,
    }
}

/// The configuration of a run: what to scan, what to do, and the expressions to scan with.
pub struct Config {
    pub filetypes: Vec<String>,
    pub ignore_dirs: Vec<String>,
    pub files: Vec<String>,
    /// Delete the crumbs.
    pub delete: bool,
    /// Restore the crumbs; never set together with `delete`.
    pub restore: bool,
    pub output: OutputFormat,
    pub show_ignored: bool,
    /// The comment-symbol table.
    pub table: CommentTable,
    /// The keyword expression, if keywords were given.
    pub keywords: Option<Matcher>,
}

/// Copies a list of strings.
fn copy_strings(v: &Vec<String>) -> (r: Vec<String>)
    ensures
        strings_view(r@) == strings_view(v@),
{
    let mut r: Vec<String> = Vec::new();
    let mut i: usize = 0;
    while i < v.len()
        invariant
            i <= v.len(),
            strings_view(r@) == strings_view(v@).take(i as int),
        decreases v.len() - i,
    {
        let ghost prev = r@;
        r.push(v[i].clone());
        assert(strings_view(r@) =~= strings_view(prev).push(v@[i as int]@));
        i = i + 1;
        assert(strings_view(r@) =~= strings_view(v@).take(i as int));
    }
    assert(strings_view(v@).take(i as int) =~= strings_view(v@));
    r
}

impl Config {
    /// The configuration that the arguments `a` give, with `jsonx` the text of the file that
    /// `a.jsonx` names, if any: the inner table merged with that file's table, the keyword
    /// expression of `a.keywords`, the output format named, and `restore` dropped where `delete`
    /// is set.
    pub fn from_args(a: &Args, jsonx: &Option<String>) -> (r: Result<Config, ConfigError>)
        ensures
            r matches Ok(c) ==> {
                &&& strings_view(c.filetypes@) == strings_view(a.filetypes@)
                &&& strings_view(c.ignore_dirs@) == strings_view(a.ignore_dirs@)
                &&& strings_view(c.files@) == strings_view(a.targets@)
                &&& c.delete == a.delete
                &&& c.restore == (!a.delete && a.restore)
                &&& c.output == output_format_spec(crate::datatypes::opt_view(a.output_format))
                &&& c.show_ignored == a.show_ignore
                &&& json_table(DICT@) is Some
                &&& c.table@ == match jsonx {
                    Some(j) => table_merge(
                        table_merge(Seq::empty(), json_table(DICT@)->0),
                        json_table(j@)->0,
                    ),
                    None => table_merge(Seq::empty(), json_table(DICT@)->0),
                }
                &&& jsonx matches Some(j) ==> json_table(j@) is Some
                &&& c.keywords is Some == a.keywords is Some
                &&& c.keywords matches Some(m) ==> m.pattern() == keyword_regex(
                    strings_view(a.keywords->0@),
                )
            },
            json_table_usable(DICT@) && (jsonx matches Some(j) ==> json_table_usable(j@)) && (
            a.keywords matches Some(k) ==> k.len() > 0 && regex_compiles(
                keyword_regex(strings_view(k@)),
            )) ==> r is Ok,
            jsonx matches Some(j) && json_table(DICT@) is Some && json_table(j@) is None ==> r
                is Err,
            a.keywords matches Some(k) && k.len() == 0 ==> r is Err,
            r == Err::<Config, ConfigError>(ConfigError::InvalidJson) ==> json_table(DICT@) is None
                || (jsonx matches Some(j) && json_table(j@) is None),
            r matches Err(ConfigError::NoSymbols(ft)) ==> json_lacks_symbols(DICT@, ft@) || (
            jsonx matches Some(j) && json_lacks_symbols(j@, ft@)),
            r matches Err(ConfigError::InvalidPattern(p)) ==> !regex_compiles(p@),
            r == Err::<Config, ConfigError>(ConfigError::NoKeywords) ==> (a.keywords matches Some(
                k,
            ) && k.len() == 0),
    {
        let mut table = match CommentTable::new() {
            Ok(t) => t,
            Err(e) => {
                return Err(e);
            },
        };
        match jsonx {
            Some(j) => {
                match table.update_table(j.as_str()) {
                    Ok(()) => {},
                    Err(e) => {
                        return Err(e);
                    },
                }
            },
            None => {},
        }
        let keywords = match &a.keywords {
            Some(kk) => match keyword_matcher(kk) {
                Ok(m) => Some(m),
                Err(e) => {
                    return Err(e);
                },
            },
            None => None,
        };
        let output = output_format_of(&a.output_format);
        Ok(
            Config {
                filetypes: copy_strings(&a.filetypes),
                ignore_dirs: copy_strings(&a.ignore_dirs),
                files: copy_strings(&a.targets),
                delete: a.delete,
                restore: if a.delete {
                    false
                } else {
                    a.restore
                },
                output,
                show_ignored: a.show_ignore,
                table,
                keywords,
            },
        )
    }
}

/// Drops the keyword expression of `conf`: from then on every crumb is kept.
pub fn clean_keywords_table(conf: &mut Config)
    ensures
        final(conf).keywords is None,
        final(conf).filetypes == old(conf).filetypes,
        final(conf).ignore_dirs == old(conf).ignore_dirs,
        final(conf).files == old(conf).files,
        final(conf).delete == old(conf).delete,
        final(conf).restore == old(conf).restore,
        final(conf).output == old(conf).output,
        final(conf).show_ignored == old(conf).show_ignored,
        final(conf).table@ == old(conf).table@,
{
    conf.keywords = None;
}

} // verus!
