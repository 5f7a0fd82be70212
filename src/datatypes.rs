//! Crumbs (tagged comments) and breads (the crumbs of one file).
use vstd::prelude::*;

use crate::matcher::{regex_captures, Matcher};
use vstd::utf8::encode_utf8;
use crate::text::{
    chars_of, decimal, ends_with_dots, has_dots_at_end, push_all, push_decimal, push_str_chars,
    string_of, trim_end_dots, trim_end_white, trim_white_then_dots,
};

verus! {

/// One physical line on which the comment pattern matched.
pub struct CommentHit {
    /// 1-based line number.
    pub line_num: nat,
    /// Byte offset in the line where the match starts.
    pub position: nat,
    /// The comment symbols that were matched.
    pub header: Seq<char>,
    /// The text captured after the `:=` marker.
    pub content: Seq<char>,
}

/// The model of a `Crumb`. A tail counts by its line, position, symbols and content.
pub struct CrumbView {
    pub line_num: nat,
    pub position: nat,
    pub tails: Seq<CommentHit>,
    pub keyword: Option<Seq<char>>,
    pub view_content: Seq<char>,
    pub content: Seq<char>,
    pub comment_symbol_header: Seq<char>,
    pub ignore: bool,
}

/// The model of a `Bread`.
pub struct BreadView {
    pub file_path: Seq<char>,
    pub crumbs: Seq<CrumbView>,
}

pub open spec fn opt_view(s: Option<String>) -> Option<Seq<char>> {
    match s {
        Some(k) => Some(k@),
        None => None,
    }
}

/// What `add_tail` makes of crumb `c` and a following line `h`: the text shown loses its
/// trailing white space and `...` markers, then a space and the line's content are appended.
pub open spec fn merged(c: CrumbView, h: CommentHit) -> CrumbView {
    CrumbView {
        tails: c.tails.push(h),
        view_content: trim_end_dots(trim_end_white(c.view_content)) + seq![' '] + h.content,
        ..c
    }
}

/// The text of a captured group, empty for one that took no part in the match.
pub open spec fn group_text(g: Option<(nat, Seq<char>)>) -> Seq<char> {
    match g {
        Some(m) => m.1,
        None => Seq::empty(),
    }
}

/// The byte offset where a captured group starts, 0 for one that took no part in the match.
pub open spec fn group_offset(g: Option<(nat, Seq<char>)>) -> nat {
    match g {
        Some(m) => m.0,
        None => 0,
    }
}

/// The byte just before byte offset `pos` of the UTF-8 form of `s` is the ignore sentinel `!`.
pub open spec fn bang_before(s: Seq<char>, pos: nat) -> bool {
    0 < pos <= encode_utf8(s).len() && encode_utf8(s)[pos - 1] == 0x21u8
}

/// What the keyword expression `pattern` makes of crumb `c`: where it matches the text shown,
/// its first group becomes the keyword and its second the text shown, and the crumb is flagged
/// as ignored exactly when `!` comes directly before the keyword; `None` where it does not
/// match.
pub open spec fn keyword_filtered(c: CrumbView, pattern: Seq<char>) -> Option<CrumbView> {
    match regex_captures(pattern, c.view_content) {
        Some(g) => {
            if g.len() >= 3 && g[1] is Some && g[2] is Some {
                Some(
                    CrumbView {
                        keyword: Some(group_text(g[1])),
                        view_content: group_text(g[2]),
                        ignore: bang_before(c.view_content, group_offset(g[1])),
                        ..c
                    },
                )
            } else {
                None
            }
        },
        None => None,
    }
}

/// The line numbers a crumb covers: its own, then each tail's.
pub open spec fn all_lines(c: CrumbView) -> Seq<nat> {
    seq![c.line_num] + c.tails.map_values(|h: CommentHit| h.line_num)
}

/// The (line number, position) pairs a crumb covers: its own, then each tail's.
pub open spec fn all_pairs(c: CrumbView) -> Seq<(nat, nat)> {
    seq![(c.line_num, c.position)] + c.tails.map_values(|h: CommentHit| (h.line_num, h.position))
}

/// The keyword part of a listing: `"K: "`, or nothing.
pub open spec fn keyword_prefix(k: Option<Seq<char>>) -> Seq<char> {
    match k {
        Some(k) => k + seq![':', ' '],
        None => Seq::empty(),
    }
}

/// `"{line_num}: {keyword}: {view_content}"`, the keyword part left out where there is none.
pub open spec fn list_line(c: CrumbView) -> Seq<char> {
    decimal(c.line_num) + seq![':', ' '] + keyword_prefix(c.keyword) + c.view_content
}

/// `"Line {line_num}: {keyword}: {view_content}\n"`, the keyword part left out where there is
/// none.
pub open spec fn tree_line(c: CrumbView) -> Seq<char> {
    seq!['L', 'i', 'n', 'e', ' '] + decimal(c.line_num) + seq![':', ' '] + keyword_prefix(
        c.keyword,
    ) + c.view_content + seq!['\n']
}

/// `"{keyword} {view_content}"`, for a crumb with a keyword.
pub open spec fn org_line(c: CrumbView) -> Option<Seq<char>> {
    match c.keyword {
        Some(k) => Some(k + seq![' '] + c.view_content),
        None => None,
    }
}

/// The org heading of each crumb that has a keyword, each as `"** {org}\n"`.
pub open spec fn org_items(cs: Seq<CrumbView>) -> Seq<char>
    decreases cs.len(),
{
    if cs.len() == 0 {
        Seq::empty()
    } else {
        org_items(cs.drop_last()) + match org_line(cs.last()) {
            Some(o) => seq!['*', '*', ' '] + o + seq!['\n'],
            None => Seq::empty(),
        }
    }
}

/// `"* {file_path}\n"` followed by the org heading of each crumb with a keyword.
pub open spec fn bread_org(b: BreadView) -> Seq<char> {
    seq!['*', ' '] + b.file_path + seq!['\n'] + org_items(b.crumbs)
}

/// The listing of each crumb, each as `"  |-- {tree line}"`.
pub open spec fn tree_items(cs: Seq<CrumbView>) -> Seq<char>
    decreases cs.len(),
{
    if cs.len() == 0 {
        Seq::empty()
    } else {
        tree_items(cs.drop_last()) + seq![' ', ' ', '|', '-', '-', ' '] + tree_line(cs.last())
    }
}

/// `"|-- {file_path}\n"` followed by the listing of each crumb.
pub open spec fn bread_tree(b: BreadView) -> Seq<char> {
    seq!['|', '-', '-', ' '] + b.file_path + seq!['\n'] + tree_items(b.crumbs)
}

/// One tagged comment, which may span several contiguous lines.
#[derive(Debug, PartialEq, Eq)]
pub struct Crumb {
    /// 1-based number of the first line.
    pub line_num: usize,
    /// Byte offset in the first line where the comment starts.
    pub position: usize,
    /// The continuation lines merged into this crumb.
    pub tails: Vec<Crumb>,
    /// The keyword that matched, if keywords were given.
    pub keyword: Option<String>,
    /// The text shown: continuation lines joined, keyword stripped.
    pub view_content: String,
    /// The raw text captured after the `:=` marker of the first line.
    pub content: String,
    /// The comment symbols matched on the first line.
    pub comment_symbol_header: String,
    /// Set when the content starts with the ignore sentinel `!`.
    pub ignore: bool,
}

/// The crumbs found in one file, in line order.
#[derive(Debug, PartialEq, Eq)]
pub struct Bread {
    pub file_path: String,
    pub crumbs: Vec<Crumb>,
}

impl View for Crumb {
    type V = CrumbView;

    open spec fn view(&self) -> CrumbView {
        CrumbView {
            line_num: self.line_num as nat,
            position: self.position as nat,
            tails: self.tails@.map_values(|t: Crumb| t.hit()),
            keyword: opt_view(self.keyword),
            view_content: self.view_content@,
            content: self.content@,
            comment_symbol_header: self.comment_symbol_header@,
            ignore: self.ignore,
        }
    }
}

impl View for Bread {
    type V = BreadView;

    open spec fn view(&self) -> BreadView {
        BreadView {
            file_path: self.file_path@,
            crumbs: self.crumbs@.map_values(|c: Crumb| c@),
        }
    }
}

fn clone_opt(s: &Option<String>) -> (r: Option<String>)
    ensures
        opt_view(r) == opt_view(*s),
{
    match s {
        Some(k) => Some(k.clone()),
        None => None,
    }
}

impl Crumb {
    /// This crumb's first line, as a line hit.
    pub open spec fn hit(&self) -> CommentHit {
        CommentHit {
            line_num: self.line_num as nat,
            position: self.position as nat,
            header: self.comment_symbol_header@,
            content: self.content@,
        }
    }

    /// A crumb of one line, with no comment symbols recorded and no ignore flag.
    pub fn new(line_num: usize, position: usize, keyword: Option<String>, content: String) -> (r:
        Self)
        ensures
            r@ == (CrumbView {
                line_num: line_num as nat,
                position: position as nat,
                tails: Seq::empty(),
                keyword: opt_view(keyword),
                view_content: content@,
                content: content@,
                comment_symbol_header: Seq::empty(),
                ignore: false,
            }),
    {
        let view_content = content.clone();
        let r = Crumb {
            line_num,
            position,
            tails: Vec::new(),
            keyword,
            view_content,
            content,
            comment_symbol_header: String::new(),
            ignore: false,
        };
        assert(r@.tails =~= Seq::empty());
        r
    }

    /// Whether the text shown ends with the continuation marker `...`.
    pub fn has_tail(&self) -> (r: bool)
        ensures
            r == ends_with_dots(self.view_content@),
    {
        let cs = chars_of(self.view_content.as_str());
        has_dots_at_end(&cs)
    }

    /// Merges the following line `tail` into this crumb.
    pub fn add_tail(&mut self, tail: Self)
        ensures
            final(self)@ == merged(old(self)@, tail.hit()),
    {
        let cs = chars_of(self.view_content.as_str());
        let mut v = trim_white_then_dots(&cs);
        v.push(' ');
        push_str_chars(&mut v, tail.content.as_str());
        assert(v@ =~= merged(old(self)@, tail.hit()).view_content);
        self.view_content = string_of(&v);
        let ghost h = tail.hit();
        self.tails.push(tail);
        assert(self@.tails =~= old(self)@.tails.push(h));
    }

    /// Applies the keyword expression `re` to the text shown: on a match, sets the keyword,
    /// narrows the text shown and flags the crumb as ignored exactly when `!` comes directly
    /// before the keyword; otherwise leaves the crumb as it was.
    pub fn filter_keywords(&mut self, re: &Matcher) -> (r: bool)
        ensures
            r == keyword_filtered(old(self)@, re.pattern()) is Some,
            r ==> final(self)@ == keyword_filtered(old(self)@, re.pattern())->0,
            !r ==> *final(self) == *old(self),
    {
        match re.captures(self.view_content.as_str()) {
            Some(groups) => {
                if groups.len() >= 3 {
                    match (&groups[1], &groups[2]) {
                        (Some(k), Some(v)) => {
                            let bs = self.view_content.as_str().as_bytes();
                            let p = k.0;
                            let bang = p > 0 && p <= bs.len() && bs[p - 1] == 0x21u8;
                            self.ignore = bang;
                            self.keyword = Some(k.1.clone());
                            self.view_content = v.1.clone();
                            assert(self@.tails =~= old(self)@.tails);
                            true
                        },
                        _ => false,
                    }
                } else {
                    false
                }
            },
            None => false,
        }
    }

    /// `"{keyword} {view_content}"` for a crumb with a keyword, `None` for one without.
    pub fn to_org(&self) -> (r: Option<String>)
        ensures
            opt_view(r) == org_line(self@),
    {
        match &self.keyword {
            Some(k) => {
                let mut v = chars_of(k.as_str());
                v.push(' ');
                push_str_chars(&mut v, self.view_content.as_str());
                Some(string_of(&v))
            },
            None => None,
        }
    }

    /// This crumb's line number, then each tail's.
    pub fn all_lines_num(&self) -> (r: Vec<usize>)
        ensures
            r@.map_values(|x: usize| x as nat) == all_lines(self@),
    {
        let mut a: Vec<usize> = vec![self.line_num];
        let mut i: usize = 0;
        while i < self.tails.len()
            invariant
                i <= self.tails.len(),
                a.len() == i + 1,
                a[0] == self.line_num,
                forall|j: int| 0 <= j < i ==> a[j + 1] == self.tails@[j].line_num,
            decreases self.tails.len() - i,
        {
            a.push(self.tails[i].line_num);
            i = i + 1;
        }
        assert(a@.map_values(|x: usize| x as nat) =~= all_lines(self@));
        a
    }

    /// This crumb's (line number, position) pair, then each tail's.
    pub fn all_lines_num_postion_pair(&self) -> (r: Vec<(usize, usize)>)
        ensures
            r@.map_values(|p: (usize, usize)| (p.0 as nat, p.1 as nat)) == all_pairs(self@),
    {
        let mut a: Vec<(usize, usize)> = vec![(self.line_num, self.position)];
        let mut i: usize = 0;
        while i < self.tails.len()
            invariant
                i <= self.tails.len(),
                a.len() == i + 1,
                a[0] == (self.line_num, self.position),
                forall|j: int|
                    0 <= j < i ==> a[j + 1] == (self.tails@[j].line_num, self.tails@[j].position),
            decreases self.tails.len() - i,
        {
            a.push((self.tails[i].line_num, self.tails[i].position));
            i = i + 1;
        }
        assert(a@.map_values(|p: (usize, usize)| (p.0 as nat, p.1 as nat)) =~= all_pairs(self@));
        a
    }

    /// This crumb, flagged as ignored.
    pub fn add_ignore_flag(self) -> (r: Self)
        ensures
            r@ == (CrumbView { ignore: true, ..self@ }),
    {
        let mut s = self;
        s.ignore = true;
        s
    }

    pub fn is_ignore(&self) -> (r: bool)
        ensures
            r == self.ignore,
    {
        self.ignore
    }

    /// `"{line_num}: {keyword}: {view_content}"`.
    pub fn list_format(&self) -> (r: String)
        ensures
            r@ == list_line(self@),
    {
        let mut v: Vec<char> = Vec::new();
        push_decimal(&mut v, self.line_num);
        v.push(':');
        v.push(' ');
        self.push_keyword_prefix(&mut v);
        push_str_chars(&mut v, self.view_content.as_str());
        assert(v@ =~= list_line(self@));
        string_of(&v)
    }

    /// `"Line {line_num}: {keyword}: {view_content}\n"`.
    pub fn tree_format(&self) -> (r: String)
        ensures
            r@ == tree_line(self@),
    {
        let mut v: Vec<char> = Vec::new();
        self.push_tree_line(&mut v);
        assert(v@ =~= tree_line(self@));
        string_of(&v)
    }

    fn push_keyword_prefix(&self, v: &mut Vec<char>)
        ensures
            final(v)@ == old(v)@ + keyword_prefix(self@.keyword),
    {
        match &self.keyword {
            Some(k) => {
                push_str_chars(v, k.as_str());
                v.push(':');
                v.push(' ');
            },
            None => {},
        }
        assert(v@ =~= old(v)@ + keyword_prefix(self@.keyword));
    }

    fn push_tree_line(&self, v: &mut Vec<char>)
        ensures
            final(v)@ == old(v)@ + tree_line(self@),
    {
        v.push('L');
        v.push('i');
        v.push('n');
        v.push('e');
        v.push(' ');
        push_decimal(v, self.line_num);
        v.push(':');
        v.push(' ');
        self.push_keyword_prefix(v);
        push_str_chars(v, self.view_content.as_str());
        v.push('\n');
        assert(v@ =~= old(v)@ + tree_line(self@));
    }
}

impl Bread {
    pub fn new(f: String, crumbs: Vec<Crumb>) -> (r: Self)
        ensures
            r@ == (BreadView { file_path: f@, crumbs: crumbs@.map_values(|c: Crumb| c@) }),
    {
        Bread { file_path: f, crumbs }
    }

    /// `"* {file_path}\n"`, then `"** {keyword} {view_content}\n"` for each crumb with a
    /// keyword.
    pub fn to_org(&self) -> (r: String)
        ensures
            r@ == bread_org(self@),
    {
        let mut v: Vec<char> = Vec::new();
        v.push('*');
        v.push(' ');
        push_str_chars(&mut v, self.file_path.as_str());
        v.push('\n');
        let ghost cs = self@.crumbs;
        let mut i: usize = 0;
        while i < self.crumbs.len()
            invariant
                i <= self.crumbs.len(),
                cs == self@.crumbs,
                v@ == seq!['*', ' '] + self.file_path@ + seq!['\n'] + org_items(cs.take(i as int)),
            decreases self.crumbs.len() - i,
        {
            assert(cs.take(i + 1).drop_last() =~= cs.take(i as int));
            match self.crumbs[i].to_org() {
                Some(o) => {
                    v.push('*');
                    v.push('*');
                    v.push(' ');
                    push_str_chars(&mut v, o.as_str());
                    v.push('\n');
                },
                None => {},
            }
            i = i + 1;
            assert(v@ =~= seq!['*', ' '] + self.file_path@ + seq!['\n'] + org_items(
                cs.take(i as int),
            ));
        }
        assert(cs.take(i as int) =~= cs);
        string_of(&v)
    }

    /// `"|-- {file_path}\n"`, then `"  |-- "` and the listing line of each crumb.
    pub fn tree_format(&self) -> (r: String)
        ensures
            r@ == bread_tree(self@),
    {
        let mut v: Vec<char> = Vec::new();
        v.push('|');
        v.push('-');
        v.push('-');
        v.push(' ');
        push_str_chars(&mut v, self.file_path.as_str());
        v.push('\n');
        let ghost cs = self@.crumbs;
        let mut i: usize = 0;
        while i < self.crumbs.len()
            invariant
                i <= self.crumbs.len(),
                cs == self@.crumbs,
                v@ == seq!['|', '-', '-', ' '] + self.file_path@ + seq!['\n'] + tree_items(
                    cs.take(i as int),
                ),
            decreases self.crumbs.len() - i,
        {
            assert(cs.take(i + 1).drop_last() =~= cs.take(i as int));
            v.push(' ');
            v.push(' ');
            v.push('|');
            v.push('-');
            v.push('-');
            v.push(' ');
            self.crumbs[i].push_tree_line(&mut v);
            i = i + 1;
            assert(v@ =~= seq!['|', '-', '-', ' '] + self.file_path@ + seq!['\n'] + tree_items(
                cs.take(i as int),
            ));
        }
        assert(cs.take(i as int) =~= cs);
        string_of(&v)
    }
}

} // verus!
