//! Finding crumbs in the lines of a file, and rewriting the lines without them.
use vstd::prelude::*;

use crate::datatypes::{
    all_lines, all_pairs, keyword_filtered, merged, Bread, BreadView, CommentHit, Crumb, CrumbView,
};
use crate::matcher::{regex_captures, Matcher};
use crate::text::{ends_with_dots, starts_with_bang};
use vstd::utf8::encode_utf8;
use std::collections::{HashMap, HashSet};
use vstd::std_specs::iter::IteratorSpec;

verus! {

/// The byte offset where a captured group starts, 0 for one that took no part in the match.
pub open spec fn group_start(g: Option<(nat, Seq<char>)>) -> nat {
    match g {
        Some(m) => m.0,
        None => 0,
    }
}

/// The text of a captured group, empty for one that took no part in the match.
pub open spec fn group_body(g: Option<(nat, Seq<char>)>) -> Seq<char> {
    match g {
        Some(m) => m.1,
        None => Seq::empty(),
    }
}

/// The comment hit on line `line_num`, whose text is `line`: where the comment expression
/// `pattern` matches with its two groups, the match's start, the symbols (group 1) and the
/// content (group 2).
pub open spec fn line_hit(pattern: Seq<char>, line: Seq<char>, line_num: nat) -> Option<
    CommentHit,
> {
    match regex_captures(pattern, line) {
        Some(g) => {
            if g.len() >= 3 && g[0] is Some && g[1] is Some && g[2] is Some {
                Some(
                    CommentHit {
                        line_num,
                        position: group_start(g[0]),
                        header: group_body(g[1]),
                        content: group_body(g[2]),
                    },
                )
            } else {
                None
            }
        },
        None => None,
    }
}

/// The one-line crumb that a hit starts; it is flagged as ignored when its content starts with
/// `!` (a keyword expression, where there is one, decides the flag afresh).
pub open spec fn new_crumb(h: CommentHit) -> CrumbView {
    CrumbView {
        line_num: h.line_num,
        position: h.position,
        tails: Seq::empty(),
        keyword: None,
        view_content: h.content,
        content: h.content,
        comment_symbol_header: h.header,
        ignore: starts_with_bang(h.content),
    }
}

/// What the keyword expression, if any, makes of a finished crumb: `None` where it rejects it.
pub open spec fn finalized(c: CrumbView, keywords: Option<Seq<char>>) -> Option<CrumbView> {
    match keywords {
        Some(k) => keyword_filtered(c, k),
        None => Some(c),
    }
}

/// `out` after the finished crumb `c` is offered to it: kept where the keywords accept it and
/// it is not ignored, or ignored crumbs are shown.
pub open spec fn emitted(
    out: Seq<CrumbView>,
    c: CrumbView,
    keywords: Option<Seq<char>>,
    show_ignored: bool,
) -> Seq<CrumbView> {
    match finalized(c, keywords) {
        Some(f) => if show_ignored || !f.ignore {
            out.push(f)
        } else {
            out
        },
        None => out,
    }
}

/// The state of the scan of a file: the crumbs kept so far, and the crumb still open, if any.
pub struct ScanState {
    pub out: Seq<CrumbView>,
    pub head: Option<CrumbView>,
}

/// One step of the scan, on a line with the given hit (or none).
/// - No hit: the open crumb, if any, is finished.
/// - A hit while the open crumb's text ends with `...`: the hit becomes its tail.
/// - Otherwise the open crumb, if any, is finished, and the hit starts a crumb that stays open
///   when its content ends with `...` and is finished at once when not.
pub open spec fn step(
    s: ScanState,
    hit: Option<CommentHit>,
    keywords: Option<Seq<char>>,
    show_ignored: bool,
) -> ScanState {
    match hit {
        None => match s.head {
            Some(h) => ScanState { out: emitted(s.out, h, keywords, show_ignored), head: None },
            None => s,
        },
        Some(c) => {
            if s.head is Some && ends_with_dots(s.head->0.view_content) {
                ScanState { out: s.out, head: Some(merged(s.head->0, c)) }
            } else {
                let out1 = match s.head {
                    Some(h) => emitted(s.out, h, keywords, show_ignored),
                    None => s.out,
                };
                if ends_with_dots(c.content) {
                    ScanState { out: out1, head: Some(new_crumb(c)) }
                } else {
                    ScanState {
                        out: emitted(out1, new_crumb(c), keywords, show_ignored),
                        head: None,
                    }
                }
            }
        },
    }
}

/// The state of the scan after the given lines; line `i` (0-based) has number `i + 1`.
pub open spec fn scan(
    pattern: Seq<char>,
    lines: Seq<Seq<char>>,
    keywords: Option<Seq<char>>,
    show_ignored: bool,
) -> ScanState
    decreases lines.len(),
{
    if lines.len() == 0 {
        ScanState { out: Seq::empty(), head: None }
    } else {
        step(
            scan(pattern, lines.drop_last(), keywords, show_ignored),
            line_hit(pattern, lines.last(), lines.len() as nat),
            keywords,
            show_ignored,
        )
    }
}

/// The crumbs of a file with the given lines: the scan's, with the crumb still open at the end
/// finished.
pub open spec fn extract(
    pattern: Seq<char>,
    lines: Seq<Seq<char>>,
    keywords: Option<Seq<char>>,
    show_ignored: bool,
) -> Seq<CrumbView> {
    let s = scan(pattern, lines, keywords, show_ignored);
    match s.head {
        Some(h) => emitted(s.out, h, keywords, show_ignored),
        None => s.out,
    }
}

pub open spec fn opt_pattern(m: Option<Matcher>) -> Option<Seq<char>> {
    match m {
        Some(m) => Some(m.pattern()),
        None => None,
    }
}

pub open spec fn crumbs_view(v: Seq<Crumb>) -> Seq<CrumbView> {
    v.map_values(|c: Crumb| c@)
}

pub open spec fn opt_crumb_view(c: Option<Crumb>) -> Option<CrumbView> {
    match c {
        Some(c) => Some(c@),
        None => None,
    }
}

pub open spec fn lines_view(lines: Seq<String>) -> Seq<Seq<char>> {
    lines.map_values(|l: String| l@)
}

/// The crumb that line `line_num`, whose text is `line`, starts, if the comment expression `re`
/// matches it.
pub fn filter_line(line: &str, line_num: usize, re: &Matcher) -> (r: Option<Crumb>)
    ensures
        opt_crumb_view(r) == match line_hit(re.pattern(), line@, line_num as nat) {
            Some(h) => Some(new_crumb(h)),
            None => None,
        },
{
    match re.captures(line) {
        Some(g) => {
            if g.len() >= 3 {
                match (&g[0], &g[1], &g[2]) {
                    (Some(m), Some(h), Some(c)) => {
                        let content = c.1.clone();
                        let cs = crate::text::chars_of(content.as_str());
                        let ignore = cs.len() > 0 && cs[0] == '!';
                        let r = Crumb {
                            line_num,
                            position: m.0,
                            tails: Vec::new(),
                            keyword: None,
                            view_content: c.1.clone(),
                            content,
                            comment_symbol_header: h.1.clone(),
                            ignore,
                        };
                        assert(r@.tails =~= Seq::empty());
                        Some(r)
                    },
                    _ => None,
                }
            } else {
                None
            }
        },
        None => None,
    }
}

/// Offers the finished crumb `cb` to `result`.
fn keyword_checker_and_push(
    result: &mut Vec<Crumb>,
    cb: Crumb,
    keywords: &Option<Matcher>,
    show_ignored: bool,
)
    ensures
        crumbs_view(final(result)@) == emitted(
            crumbs_view(old(result)@),
            cb@,
            opt_pattern(*keywords),
            show_ignored,
        ),
{
    let mut cb = cb;
    let accepted = match keywords {
        Some(re) => cb.filter_keywords(re),
        None => true,
    };
    if accepted && (show_ignored || !cb.ignore) {
        let ghost prev = result@;
        result.push(cb);
        assert(crumbs_view(result@) =~= crumbs_view(prev).push(cb@));
    }
}

/// Starts a crumb at `cb`: it stays open (returned) when its text ends with `...`, and is
/// offered to `result` at once otherwise.
fn start_crumb(result: &mut Vec<Crumb>, cb: Crumb, keywords: &Option<Matcher>, show_ignored: bool) -> (r:
    Option<Crumb>)
    ensures
        ends_with_dots(cb@.view_content) ==> crumbs_view(final(result)@) == crumbs_view(
            old(result)@,
        ) && r == Some(cb),
        !ends_with_dots(cb@.view_content) ==> crumbs_view(final(result)@) == emitted(
            crumbs_view(old(result)@),
            cb@,
            opt_pattern(*keywords),
            show_ignored,
        ) && r is None,
{
    if cb.has_tail() {
        Some(cb)
    } else {
        keyword_checker_and_push(result, cb, keywords, show_ignored);
        None
    }
}

/// The crumbs of the file at `file_path`, whose lines (each with its line terminator) are
/// `lines`, found with the comment expression `pattern` and the keyword expression `keywords`;
/// ignored crumbs are kept only when `show_ignored` is set. `None` where no crumb is kept.
pub fn bake_bread(
    file_path: String,
    lines: &Vec<String>,
    pattern: &Matcher,
    keywords: &Option<Matcher>,
    show_ignored: bool,
) -> (r: Option<Bread>)
    ensures
        r is None <==> extract(
            pattern.pattern(),
            lines_view(lines@),
            opt_pattern(*keywords),
            show_ignored,
        ).len() == 0,
        r matches Some(b) ==> b@ == (BreadView {
            file_path: file_path@,
            crumbs: extract(pattern.pattern(), lines_view(lines@), opt_pattern(*keywords), show_ignored),
        }),
{
    let ghost pat = pattern.pattern();
    let ghost kw = opt_pattern(*keywords);
    let ghost ls = lines_view(lines@);
    let mut result: Vec<Crumb> = Vec::new();
    let mut head: Option<Crumb> = None;
    let mut i: usize = 0;
    while i < lines.len()
        invariant
            i <= lines.len(),
            pat == pattern.pattern(),
            kw == opt_pattern(*keywords),
            ls == lines_view(lines@),
            crumbs_view(result@) == scan(pat, ls.take(i as int), kw, show_ignored).out,
            opt_crumb_view(head) == scan(pat, ls.take(i as int), kw, show_ignored).head,
        decreases lines.len() - i,
    {
        assert(ls.take(i + 1).drop_last() =~= ls.take(i as int));
        assert(ls.take(i + 1).last() == lines@[i as int]@);
        let hit = filter_line(lines[i].as_str(), i + 1, pattern);
        let prev = head;
        match hit {
            None => {
                match prev {
                    Some(h) => keyword_checker_and_push(&mut result, h, keywords, show_ignored),
                    None => {},
                }
                head = None;
            },
            Some(cb) => {
                match prev {
                    Some(h) => {
                        let mut h = h;
                        if h.has_tail() {
                            h.add_tail(cb);
                            head = Some(h);
                        } else {
                            keyword_checker_and_push(&mut result, h, keywords, show_ignored);
                            head = start_crumb(&mut result, cb, keywords, show_ignored);
                        }
                    },
                    None => {
                        head = start_crumb(&mut result, cb, keywords, show_ignored);
                    },
                }
            },
        }
        i = i + 1;
    }
    assert(ls.take(i as int) =~= ls);
    match head {
        Some(h) => keyword_checker_and_push(&mut result, h, keywords, show_ignored),
        None => {},
    }
    if result.len() == 0 {
        None
    } else {
        Some(Bread::new(file_path, result))
    }
}

/// `line` cut at byte offset `pos`; unchanged where `pos` is not below its length.
pub open spec fn truncated(line: Seq<u8>, pos: nat) -> Seq<u8> {
    if pos < line.len() {
        line.take(pos as int)
    } else {
        line
    }
}

/// The lines that remain of `lines` when each line whose number `n` (1-based) is a key of `nm`
/// is cut at byte `nm[n]`, and dropped where nothing is left of it.
pub open spec fn deleted_lines(lines: Seq<Seq<u8>>, nm: Map<usize, usize>) -> Seq<Seq<u8>>
    decreases lines.len(),
{
    if lines.len() == 0 {
        Seq::empty()
    } else {
        let prev = deleted_lines(lines.drop_last(), nm);
        let n = lines.len() as usize;
        if nm.contains_key(n) {
            let t = truncated(lines.last(), nm[n] as nat);
            if t.len() == 0 {
                prev
            } else {
                prev.push(t)
            }
        } else {
            prev.push(lines.last())
        }
    }
}

/// The map from line number to cutting position that the pairs give, a later pair for a line
/// overriding an earlier one.
pub open spec fn pairs_map(pairs: Seq<(nat, nat)>) -> Map<usize, usize>
    decreases pairs.len(),
{
    if pairs.len() == 0 {
        Map::empty()
    } else {
        pairs_map(pairs.drop_last()).insert(pairs.last().0 as usize, pairs.last().1 as usize)
    }
}

/// The (line number, position) pairs of the crumbs `cs`, crumb after crumb.
pub open spec fn crumbs_pairs(cs: Seq<CrumbView>) -> Seq<(nat, nat)>
    decreases cs.len(),
{
    if cs.len() == 0 {
        Seq::empty()
    } else {
        crumbs_pairs(cs.drop_last()) + all_pairs(cs.last())
    }
}

/// The (line number, position) pairs of those crumbs of `cs` whose index is in `sel`, in index
/// order.
pub open spec fn selected_pairs(cs: Seq<CrumbView>, sel: Set<usize>) -> Seq<(nat, nat)>
    decreases cs.len(),
{
    if cs.len() == 0 {
        Seq::empty()
    } else if sel.contains((cs.len() - 1) as usize) {
        selected_pairs(cs.drop_last(), sel) + all_pairs(cs.last())
    } else {
        selected_pairs(cs.drop_last(), sel)
    }
}

pub open spec fn bytes_view(lines: Seq<Vec<u8>>) -> Seq<Seq<u8>> {
    lines.map_values(|l: Vec<u8>| l@)
}

pub open spec fn pairs_view(pairs: Seq<(usize, usize)>) -> Seq<(nat, nat)> {
    pairs.map_values(|p: (usize, usize)| (p.0 as nat, p.1 as nat))
}

/// Why crumbs could not be deleted.
#[derive(Debug, PartialEq, Eq)]
pub enum CleanError {
    /// A selected index names no crumb of the bread.
    NoSuchCrumb(usize),
}

/// The first `pos` bytes of `line`, or all of it where it is shorter.
fn truncate_line(line: &Vec<u8>, pos: usize) -> (r: Vec<u8>)
    ensures
        r@ == truncated(line@, pos as nat),
{
    let end = if pos < line.len() {
        pos
    } else {
        line.len()
    };
    let mut r: Vec<u8> = Vec::new();
    let mut i: usize = 0;
    while i < end
        invariant
            end <= line.len(),
            i <= end,
            r@ == line@.take(i as int),
        decreases end - i,
    {
        r.push(line[i]);
        i = i + 1;
        assert(r@ =~= line@.take(i as int));
    }
    assert(line@.take(end as int) =~= truncated(line@, pos as nat));
    r
}

/// Copies a line.
fn copy_line(line: &Vec<u8>) -> (r: Vec<u8>)
    ensures
        r@ == line@,
{
    let mut r: Vec<u8> = Vec::new();
    let mut i: usize = 0;
    while i < line.len()
        invariant
            i <= line.len(),
            r@ == line@.take(i as int),
        decreases line.len() - i,
    {
        r.push(line[i]);
        i = i + 1;
        assert(r@ =~= line@.take(i as int));
    }
    assert(line@.take(i as int) =~= line@);
    r
}

/// The lines that remain of `f` (without their line terminators) once each line whose number is
/// a key of `nm` is cut at the position it maps to; a line with nothing left is dropped.
pub fn delete_nth_lines(f: &Vec<Vec<u8>>, nm: &HashMap<usize, usize>) -> (r: Vec<Vec<u8>>)
    ensures
        bytes_view(r@) == deleted_lines(bytes_view(f@), nm@),
{
    broadcast use vstd::std_specs::hash::group_hash_axioms;

    let ghost ls = bytes_view(f@);
    let mut result: Vec<Vec<u8>> = Vec::new();
    let mut i: usize = 0;
    while i < f.len()
        invariant
            i <= f.len(),
            ls == bytes_view(f@),
            bytes_view(result@) == deleted_lines(ls.take(i as int), nm@),
        decreases f.len() - i,
    {
        assert(ls.take(i + 1).drop_last() =~= ls.take(i as int));
        let ghost prev = result@;
        let n: usize = i + 1;
        match nm.get(&n) {
            Some(pos) => {
                let new_l = truncate_line(&f[i], *pos);
                if new_l.len() > 0 {
                    result.push(new_l);
                }
            },
            None => {
                result.push(copy_line(&f[i]));
            },
        }
        assert(bytes_view(result@) =~= deleted_lines(ls.take(i + 1), nm@));
        i = i + 1;
    }
    assert(ls.take(i as int) =~= ls);
    result
}

/// The map from line number to cutting position given by `pairs`, a later pair for a line
/// overriding an earlier one.
pub fn line_position_map(pairs: &Vec<(usize, usize)>) -> (r: HashMap<usize, usize>)
    ensures
        r@ == pairs_map(pairs_view(pairs@)),
{
    broadcast use vstd::std_specs::hash::group_hash_axioms;

    let ghost ps = pairs_view(pairs@);
    let mut m: HashMap<usize, usize> = HashMap::new();
    let mut i: usize = 0;
    while i < pairs.len()
        invariant
            i <= pairs.len(),
            ps == pairs_view(pairs@),
            m@ == pairs_map(ps.take(i as int)),
        decreases pairs.len() - i,
    {
        assert(ps.take(i + 1).drop_last() =~= ps.take(i as int));
        m.insert(pairs[i].0, pairs[i].1);
        i = i + 1;
    }
    assert(ps.take(i as int) =~= ps);
    m
}

/// The lines that remain of `lines` once each line named in `line_num_pos_pairs` is cut at its
/// position (a later pair for a line overriding an earlier one).
pub fn delete_lines_on(lines: &Vec<Vec<u8>>, line_num_pos_pairs: &Vec<(usize, usize)>) -> (r: Vec<
    Vec<u8>,
>)
    ensures
        bytes_view(r@) == deleted_lines(
            bytes_view(lines@),
            pairs_map(pairs_view(line_num_pos_pairs@)),
        ),
{
    let nm = line_position_map(line_num_pos_pairs);
    delete_nth_lines(lines, &nm)
}

/// Appends the (line number, position) pairs of `c` to `pairs`.
fn push_crumb_pairs(pairs: &mut Vec<(usize, usize)>, c: &Crumb)
    ensures
        pairs_view(final(pairs)@) == pairs_view(old(pairs)@) + all_pairs(c@),
{
    let ps = c.all_lines_num_postion_pair();
    let mut j: usize = 0;
    while j < ps.len()
        invariant
            j <= ps.len(),
            pairs_view(ps@) == all_pairs(c@),
            pairs_view(pairs@) == pairs_view(old(pairs)@) + pairs_view(ps@).take(j as int),
        decreases ps.len() - j,
    {
        let ghost prev = pairs@;
        pairs.push(ps[j]);
        assert(pairs_view(pairs@) =~= pairs_view(prev).push(pairs_view(ps@)[j as int]));
        assert(pairs_view(ps@).take(j + 1) =~= pairs_view(ps@).take(j as int).push(
            pairs_view(ps@)[j as int],
        ));
        j = j + 1;
        assert(pairs_view(pairs@) =~= pairs_view(old(pairs)@) + pairs_view(ps@).take(j as int));
    }
    assert(pairs_view(ps@).take(j as int) =~= pairs_view(ps@));
}

/// The lines that remain of the file of `bread`, whose lines (without their terminators) are
/// `lines`, once every line of every crumb is cut at the crumb's position.
pub fn clean_the_crumbs(bread: &Bread, lines: &Vec<Vec<u8>>) -> (r: Vec<Vec<u8>>)
    ensures
        bytes_view(r@) == deleted_lines(bytes_view(lines@), pairs_map(crumbs_pairs(bread@.crumbs))),
{
    let ghost cs = bread@.crumbs;
    let mut pairs: Vec<(usize, usize)> = Vec::new();
    let mut i: usize = 0;
    while i < bread.crumbs.len()
        invariant
            i <= bread.crumbs.len(),
            cs == bread@.crumbs,
            pairs_view(pairs@) == crumbs_pairs(cs.take(i as int)),
        decreases bread.crumbs.len() - i,
    {
        assert(cs.take(i + 1).drop_last() =~= cs.take(i as int));
        push_crumb_pairs(&mut pairs, &bread.crumbs[i]);
        i = i + 1;
    }
    assert(cs.take(i as int) =~= cs);
    delete_lines_on(lines, &pairs)
}

/// The lines that remain of the file of `bread` once every line of each crumb whose index is in
/// `indexes` is cut at the crumb's position; an error where an index names no crumb.
pub fn clean_the_crumbs_on_special_index(
    bread: &Bread,
    indexes: &HashSet<usize>,
    lines: &Vec<Vec<u8>>,
) -> (r: Result<Vec<Vec<u8>>, CleanError>)
    ensures
        r is Err <==> exists|k: usize| indexes@.contains(k) && k >= bread.crumbs.len(),
        r matches Err(CleanError::NoSuchCrumb(k)) ==> indexes@.contains(k) && k
            >= bread.crumbs.len(),
        r matches Ok(v) ==> bytes_view(v@) == deleted_lines(
            bytes_view(lines@),
            pairs_map(selected_pairs(bread@.crumbs, indexes@)),
        ),
{
    broadcast use vstd::std_specs::hash::group_hash_axioms;

    let n = bread.crumbs.len();
    let ghost ks = vstd::std_specs::hash::spec_hash_keys_iter(indexes).remaining();
    for k in it: indexes.iter()
        invariant
            n == bread.crumbs.len(),
            it.seq() == ks,
            ks.unref().to_set() == indexes@,
            forall|j: int| 0 <= j < it.index() ==> *ks[j] < n,
    {
        if *k >= n {
            assert(indexes@.contains(*k)) by {
                assert(ks.unref()[it.index() as int] == *k);
            }
            return Err(CleanError::NoSuchCrumb(*k));
        }
    }
    assert(forall|j: int| 0 <= j < ks.len() ==> *ks[j] < n);
    assert(forall|k: usize| indexes@.contains(k) ==> k < n) by {
        assert forall|k: usize| indexes@.contains(k) implies k < n by {
            assert(ks.unref().to_set().contains(k));
            let j = choose|j: int| 0 <= j < ks.unref().len() && ks.unref()[j] == k;
            assert(*ks[j] == k);
        }
    }
    let ghost cs = bread@.crumbs;
    let mut pairs: Vec<(usize, usize)> = Vec::new();
    let mut i: usize = 0;
    while i < n
        invariant
            i <= n,
            n == bread.crumbs.len(),
            cs == bread@.crumbs,
            pairs_view(pairs@) == selected_pairs(cs.take(i as int), indexes@),
        decreases n - i,
    {
        assert(cs.take(i + 1).drop_last() =~= cs.take(i as int));
        if indexes.contains(&i) {
            push_crumb_pairs(&mut pairs, &bread.crumbs[i]);
        }
        i = i + 1;
    }
    assert(cs.take(i as int) =~= cs);
    Ok(delete_lines_on(lines, &pairs))
}

/// The lines of the crumbs `cs`, crumb after crumb: each crumb's first line, then its tails.
pub open spec fn crumbs_hits(cs: Seq<CrumbView>) -> Seq<CommentHit>
    decreases cs.len(),
{
    if cs.len() == 0 {
        Seq::empty()
    } else {
        let c = cs.last();
        crumbs_hits(cs.drop_last()) + seq![
            CommentHit {
                line_num: c.line_num,
                position: c.position,
                header: c.comment_symbol_header,
                content: c.content,
            },
        ] + c.tails
    }
}

/// The last of the hits `hs` on line `n`, if any.
pub open spec fn last_hit_on(hs: Seq<CommentHit>, n: nat) -> Option<CommentHit>
    decreases hs.len(),
{
    if hs.len() == 0 {
        None
    } else if hs.last().line_num == n {
        Some(hs.last())
    } else {
        last_hit_on(hs.drop_last(), n)
    }
}

/// `line` with its tagged comment `h` turned back into a plain one: the line up to the hit's
/// position, then the comment symbols, then the content.
pub open spec fn restored_line(line: Seq<u8>, h: CommentHit) -> Seq<u8> {
    truncated(line, h.position) + encode_utf8(h.header) + encode_utf8(h.content)
}

/// `lines` with each line that carries one of the hits `hs` (the last one, where several do)
/// turned back into a plain comment.
pub open spec fn restored_lines(lines: Seq<Seq<u8>>, hs: Seq<CommentHit>) -> Seq<Seq<u8>> {
    Seq::new(
        lines.len(),
        |i: int|
            match last_hit_on(hs, (i + 1) as nat) {
                Some(h) => restored_line(lines[i], h),
                None => lines[i],
            },
    )
}

/// Appends the UTF-8 bytes of `s` to `dst`.
fn push_bytes(dst: &mut Vec<u8>, s: &str)
    ensures
        final(dst)@ == old(dst)@ + encode_utf8(s@),
{
    let b = s.as_bytes();
    let mut i: usize = 0;
    while i < b.len()
        invariant
            i <= b@.len(),
            b@ == encode_utf8(s@),
            dst@ == old(dst)@ + b@.take(i as int),
        decreases b@.len() - i,
    {
        dst.push(b[i]);
        i = i + 1;
        assert(dst@ =~= old(dst)@ + b@.take(i as int));
    }
    assert(b@.take(i as int) =~= b@);
}

/// The last line of the crumbs of `bread` (first lines and tails) with number `n`, as
/// (position, symbols, content).
fn find_last_hit<'a>(bread: &'a Bread, n: usize) -> (r: Option<(usize, &'a String, &'a String)>)
    ensures
        match last_hit_on(crumbs_hits(bread@.crumbs), n as nat) {
            Some(h) => r matches Some(t) && t.0 as nat == h.position && t.1@ == h.header && t.2@
                == h.content,
            None => r is None,
        },
{
    let ghost cs = bread@.crumbs;
    let mut i: usize = bread.crumbs.len();
    assert(cs.take(i as int) =~= cs);
    while i > 0
        invariant
            i <= bread.crumbs.len(),
            cs == bread@.crumbs,
            last_hit_on(crumbs_hits(cs), n as nat) == last_hit_on(
                crumbs_hits(cs.take(i as int)),
                n as nat,
            ),
        decreases i,
    {
        let c = &bread.crumbs[i - 1];
        let ghost pre = crumbs_hits(cs.take(i - 1));
        let ghost hc = CommentHit {
            line_num: c.line_num as nat,
            position: c.position as nat,
            header: c.comment_symbol_header@,
            content: c.content@,
        };
        assert(cs.take(i as int).drop_last() =~= cs.take(i - 1));
        assert(crumbs_hits(cs.take(i as int)) == pre + seq![hc] + c@.tails);
        let mut j: usize = c.tails.len();
        assert(c@.tails.take(j as int) =~= c@.tails);
        while j > 0
            invariant
                j <= c.tails.len(),
                cs == bread@.crumbs,
                last_hit_on(crumbs_hits(cs), n as nat) == last_hit_on(
                    pre + seq![hc] + c@.tails.take(j as int),
                    n as nat,
                ),
            decreases j,
        {
            let t = &c.tails[j - 1];
            let ghost whole = pre + seq![hc] + c@.tails.take(j as int);
            assert(whole.drop_last() =~= pre + seq![hc] + c@.tails.take(j - 1));
            assert(whole.last() == c@.tails[j - 1]);
            assert(c@.tails[j - 1] == t.hit());
            if t.line_num == n {
                assert(whole.len() > 0);
                assert(last_hit_on(whole, n as nat) == Some(whole.last()));
                return Some((t.position, &t.comment_symbol_header, &t.content));
            }
            j = j - 1;
        }
        let ghost whole = pre + seq![hc];
        assert(pre + seq![hc] + c@.tails.take(0) =~= whole);
        assert(whole.drop_last() =~= pre);
        if c.line_num == n {
            return Some((c.position, &c.comment_symbol_header, &c.content));
        }
        i = i - 1;
    }
    assert(cs.take(0) =~= Seq::<CrumbView>::empty());
    None
}

/// The lines of the file of `bread` (without their terminators) with every crumb line turned
/// back into a plain comment: the line up to the crumb's position, then its comment symbols,
/// then its content. Other lines are kept as they are.
pub fn restore_the_crumb(bread: &Bread, lines: &Vec<Vec<u8>>) -> (r: Vec<Vec<u8>>)
    ensures
        bytes_view(r@) == restored_lines(bytes_view(lines@), crumbs_hits(bread@.crumbs)),
{
    let ghost ls = bytes_view(lines@);
    let ghost hs = crumbs_hits(bread@.crumbs);
    let mut result: Vec<Vec<u8>> = Vec::new();
    let mut i: usize = 0;
    while i < lines.len()
        invariant
            i <= lines.len(),
            ls == bytes_view(lines@),
            hs == crumbs_hits(bread@.crumbs),
            bytes_view(result@) == restored_lines(ls, hs).take(i as int),
        decreases lines.len() - i,
    {
        let ghost prev = result@;
        match find_last_hit(bread, i + 1) {
            Some((pos, header, content)) => {
                let mut l = truncate_line(&lines[i], pos);
                push_bytes(&mut l, header.as_str());
                push_bytes(&mut l, content.as_str());
                result.push(l);
            },
            None => {
                result.push(copy_line(&lines[i]));
            },
        }
        assert(bytes_view(result@) =~= bytes_view(prev).push(restored_lines(ls, hs)[i as int]));
        i = i + 1;
        assert(bytes_view(result@) =~= restored_lines(ls, hs).take(i as int));
    }
    assert(restored_lines(ls, hs).take(i as int) =~= restored_lines(ls, hs));
    result
}

/// The lines of crumb `c` follow one another: its `k`-th line (0-based) is `c.line_num + k`.
pub open spec fn lines_contiguous(c: CrumbView) -> bool {
    forall|k: int| 0 <= k < c.tails.len() ==> #[trigger] c.tails[k].line_num == c.line_num + k + 1
}

/// The number of the last line of a crumb whose lines follow one another.
pub open spec fn last_line(c: CrumbView) -> nat {
    c.line_num + c.tails.len()
}

/// A crumb that keeps continuing (its text ends with `...`) was closed by a line without a hit:
/// the line after its last one, among the first `n` of `lines`, carries none.
pub open spec fn closed_by_plain_line(
    pattern: Seq<char>,
    lines: Seq<Seq<char>>,
    n: nat,
    c: CrumbView,
) -> bool {
    c.tails.len() > 0 && ends_with_dots(c.view_content) ==> last_line(c) < n && line_hit(
        pattern,
        lines[last_line(c) as int],
        last_line(c) + 1,
    ) is None
}

proof fn lemma_finalized_keeps_lines(c: CrumbView, keywords: Option<Seq<char>>)
    ensures
        finalized(c, keywords) matches Some(f) ==> f.line_num == c.line_num && f.tails
            == c.tails,
        keywords is None ==> finalized(c, keywords) == Some(c),
{
}

proof fn lemma_scan_shape(
    pattern: Seq<char>,
    lines: Seq<Seq<char>>,
    keywords: Option<Seq<char>>,
    show_ignored: bool,
    n: nat,
)
    requires
        n <= lines.len(),
    ensures
        ({
            let st = scan(pattern, lines.take(n as int), keywords, show_ignored);
            &&& forall|i: int|
                0 <= i < st.out.len() ==> lines_contiguous(#[trigger] st.out[i]) && last_line(
                    st.out[i],
                ) <= n
            &&& st.head matches Some(h) ==> lines_contiguous(h) && last_line(h) == n
                && h.keyword is None && forall|i: int|
                0 <= i < st.out.len() ==> last_line(#[trigger] st.out[i]) < h.line_num
            &&& forall|i: int, j: int|
                0 <= i < j < st.out.len() ==> last_line(#[trigger] st.out[i]) < (
                #[trigger] st.out[j]).line_num
            &&& keywords is None ==> forall|i: int|
                0 <= i < st.out.len() ==> closed_by_plain_line(
                    pattern,
                    lines,
                    n,
                    #[trigger] st.out[i],
                )
        }),
    decreases n,
{
    if n > 0 {
        let ls = lines.take(n as int);
        assert(ls.drop_last() =~= lines.take(n - 1));
        lemma_scan_shape(pattern, lines, keywords, show_ignored, (n - 1) as nat);
        let prev = scan(pattern, lines.take(n - 1), keywords, show_ignored);
        let hit = line_hit(pattern, lines[n - 1], n);
        assert(ls.last() == lines[n - 1]);
        let st = scan(pattern, ls, keywords, show_ignored);
        assert(st == step(prev, hit, keywords, show_ignored));
        match prev.head {
            Some(h) => lemma_finalized_keeps_lines(h, keywords),
            None => {},
        }
        match hit {
            Some(c) => {
                lemma_finalized_keeps_lines(new_crumb(c), keywords);
                if prev.head is Some && ends_with_dots(prev.head->0.view_content) {
                    let h = prev.head->0;
                    let m = merged(h, c);
                    assert(lines_contiguous(m)) by {
                        assert forall|k: int| 0 <= k < m.tails.len() implies #[trigger] m.tails[k].line_num
                            == m.line_num + k + 1 by {
                            if k < h.tails.len() {
                                assert(m.tails[k] == h.tails[k]);
                            }
                        }
                    }
                }
            },
            None => {},
        }
    }
}

/// Every crumb found has lines that follow one another: its first line, then each tail on
/// the next line. Without keywords, a crumb with tails whose text still ends with `...` was
/// closed by the end of the file or by a line without a hit; so where the line after its last
/// one carries a hit, its text has no trailing `...`.
pub proof fn lemma_crumb_lines_contiguous(
    pattern: Seq<char>,
    lines: Seq<Seq<char>>,
    keywords: Option<Seq<char>>,
    show_ignored: bool,
    i: int,
)
    requires
        0 <= i < extract(pattern, lines, keywords, show_ignored).len(),
    ensures
        ({
            let c = extract(pattern, lines, keywords, show_ignored)[i];
            &&& forall|k: int|
                0 <= k < all_lines(c).len() ==> #[trigger] all_lines(c)[k] == c.line_num + k
            &&& keywords is None && c.tails.len() > 0 && last_line(c) < lines.len() && line_hit(
                pattern,
                lines[last_line(c) as int],
                last_line(c) + 1,
            ) is Some ==> !ends_with_dots(c.view_content)
        }),
{
    lemma_scan_shape(pattern, lines, keywords, show_ignored, lines.len());
    assert(lines.take(lines.len() as int) =~= lines);
    let st = scan(pattern, lines, keywords, show_ignored);
    match st.head {
        Some(h) => lemma_finalized_keeps_lines(h, keywords),
        None => {},
    }
    let c = extract(pattern, lines, keywords, show_ignored)[i];
    assert(lines_contiguous(c));
    assert forall|k: int| 0 <= k < all_lines(c).len() implies #[trigger] all_lines(c)[k]
        == c.line_num + k by {
        if k > 0 {
            assert(c.tails[k - 1].line_num == c.line_num + k);
        }
    }
}

/// A file on none of whose lines the comment expression matches has no crumb, so that no
/// bread is made of it.
pub proof fn lemma_no_match_no_crumbs(
    pattern: Seq<char>,
    lines: Seq<Seq<char>>,
    keywords: Option<Seq<char>>,
    show_ignored: bool,
)
    requires
        forall|i: int| 0 <= i < lines.len() ==> regex_captures(pattern, #[trigger] lines[i]) is None,
    ensures
        extract(pattern, lines, keywords, show_ignored) == Seq::<CrumbView>::empty(),
    decreases lines.len(),
{
    if lines.len() > 0 {
        let prefix = lines.drop_last();
        assert forall|i: int| 0 <= i < prefix.len() implies regex_captures(
            pattern,
            #[trigger] prefix[i],
        ) is None by {
            assert(prefix[i] == lines[i]);
        }
        lemma_no_match_no_crumbs(pattern, prefix, keywords, show_ignored);
        let prev = scan(pattern, prefix, keywords, show_ignored);
        assert(regex_captures(pattern, lines[lines.len() - 1]) is None);
        if prev.head is Some {
            let h = prev.head->0;
            assert(extract(pattern, prefix, keywords, show_ignored) == emitted(
                prev.out,
                h,
                keywords,
                show_ignored,
            ));
        }
    }
}

/// The crumbs of a file come in line order, and none overlaps the next: each one's last line
/// comes before the next one's first.
pub proof fn lemma_crumbs_in_line_order(
    pattern: Seq<char>,
    lines: Seq<Seq<char>>,
    keywords: Option<Seq<char>>,
    show_ignored: bool,
    i: int,
    j: int,
)
    requires
        0 <= i < j < extract(pattern, lines, keywords, show_ignored).len(),
    ensures
        ({
            let cs = extract(pattern, lines, keywords, show_ignored);
            &&& cs[i].line_num < cs[j].line_num
            &&& forall|k: int|
                0 <= k < all_lines(cs[i]).len() ==> #[trigger] all_lines(cs[i])[k] < cs[j].line_num
        }),
{
    lemma_scan_shape(pattern, lines, keywords, show_ignored, lines.len());
    assert(lines.take(lines.len() as int) =~= lines);
    let st = scan(pattern, lines, keywords, show_ignored);
    match st.head {
        Some(h) => lemma_finalized_keeps_lines(h, keywords),
        None => {},
    }
    let cs = extract(pattern, lines, keywords, show_ignored);
    assert(last_line(cs[i]) < cs[j].line_num);
    assert(lines_contiguous(cs[i]));
    assert forall|k: int| 0 <= k < all_lines(cs[i]).len() implies #[trigger] all_lines(cs[i])[k]
        < cs[j].line_num by {
        if k > 0 {
            assert(cs[i].tails[k - 1].line_num == cs[i].line_num + k);
        }
    }
}

/// Extraction is a function of the file's lines and the expressions: scanning the same lines
/// twice finds the same crumbs.
pub proof fn lemma_extract_deterministic(
    pattern: Seq<char>,
    lines1: Seq<Seq<char>>,
    lines2: Seq<Seq<char>>,
    keywords: Option<Seq<char>>,
    show_ignored: bool,
)
    requires
        lines1 == lines2,
    ensures
        extract(pattern, lines1, keywords, show_ignored) == extract(
            pattern,
            lines2,
            keywords,
            show_ignored,
        ),
{
}

proof fn lemma_no_cut_keeps_lines(lines: Seq<Seq<u8>>)
    ensures
        deleted_lines(lines, Map::empty()) == lines,
    decreases lines.len(),
{
    if lines.len() > 0 {
        lemma_no_cut_keeps_lines(lines.drop_last());
        assert(lines.drop_last().push(lines.last()) =~= lines);
    }
}

proof fn lemma_nothing_selected(cs: Seq<CrumbView>)
    ensures
        selected_pairs(cs, Set::empty()) == Seq::<(nat, nat)>::empty(),
    decreases cs.len(),
{
    if cs.len() > 0 {
        lemma_nothing_selected(cs.drop_last());
    }
}

/// Deleting an empty selection of crumbs, or all the crumbs of a bread that has none, leaves
/// every line as it was.
pub proof fn lemma_empty_selection_is_no_op(cs: Seq<CrumbView>, lines: Seq<Seq<u8>>)
    ensures
        deleted_lines(lines, pairs_map(selected_pairs(cs, Set::empty()))) == lines,
        cs.len() == 0 ==> deleted_lines(lines, pairs_map(crumbs_pairs(cs))) == lines,
{
    lemma_nothing_selected(cs);
    assert(pairs_map(Seq::<(nat, nat)>::empty()) == Map::<usize, usize>::empty());
    lemma_no_cut_keeps_lines(lines);
}

} // verus!
