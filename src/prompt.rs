//! The decisions of the interactive confirmation, and the splitting of the format command.
use vstd::prelude::*;

use crate::args::strings_view;
use crate::text::{chars_of, string_of};

verus! {

/// An answer to a confirmation question.
#[derive(Clone, Copy, Debug, PartialEq, Eq, Structural)]
pub enum Reply {
    /// `y`: go ahead.
    Yes,
    /// `n`: leave it.
    No,
    /// `s`: show it again and ask once more.
    Show,
    /// `i`: ask item by item.
    Individual,
}

/// The answer that the line `s` gives; `i` only where `allow_individual` is set.
pub open spec fn reply_spec(s: Seq<char>, allow_individual: bool) -> Option<Reply> {
    if s == seq!['y'] {
        Some(Reply::Yes)
    } else if s == seq!['n'] {
        Some(Reply::No)
    } else if s == seq!['s'] {
        Some(Reply::Show)
    } else if s == seq!['i'] && allow_individual {
        Some(Reply::Individual)
    } else {
        None
    }
}

/// The answer that the line `s` gives, `None` for one not understood.
pub fn parse_reply(s: &str, allow_individual: bool) -> (r: Option<Reply>)
    ensures
        r == reply_spec(s@, allow_individual),
{
    let cs = chars_of(s);
    if cs.len() != 1 {
        assert(s@ != seq!['y'] && s@ != seq!['n'] && s@ != seq!['s'] && s@ != seq!['i']) by {
            assert(seq!['y'].len() == 1);
        }
        return None;
    }
    let c = cs[0];
    assert(s@ =~= seq![c]);
    if c == 'y' {
        Some(Reply::Yes)
    } else if c == 'n' {
        Some(Reply::No)
    } else if c == 's' {
        Some(Reply::Show)
    } else if c == 'i' && allow_individual {
        Some(Reply::Individual)
    } else {
        assert(s@ != seq!['y'] && s@ != seq!['n'] && s@ != seq!['s']);
        None
    }
}

/// What to do with a bread, or with all of them, after an answer.
#[derive(Clone, Copy, Debug, PartialEq, Eq, Structural)]
pub enum BreadStep {
    /// Apply the operation to every crumb.
    Apply,
    /// Leave the crumbs as they are.
    Leave,
    /// Show the crumbs again and ask once more.
    AskAgain,
    /// Ask crumb by crumb.
    ItemByItem,
}

/// The step that an answer about a bread leads to; an answer not understood is asked again.
pub open spec fn bread_step_spec(reply: Option<Reply>) -> BreadStep {
    match reply {
        Some(Reply::Yes) => BreadStep::Apply,
        Some(Reply::No) => BreadStep::Leave,
        Some(Reply::Individual) => BreadStep::ItemByItem,
        Some(Reply::Show) | None => BreadStep::AskAgain,
    }
}

/// The step that the answer `reply` about a bread leads to.
pub fn bread_reply_step(reply: Option<Reply>) -> (r: BreadStep)
    ensures
        r == bread_step_spec(reply),
{
    match reply {
        Some(Reply::Yes) => BreadStep::Apply,
        Some(Reply::No) => BreadStep::Leave,
        Some(Reply::Individual) => BreadStep::ItemByItem,
        Some(Reply::Show) => BreadStep::AskAgain,
        None => BreadStep::AskAgain,
    }
}

/// Takes the answer `reply` about the crumb at `index`: a yes adds the index to `chosen`; a
/// request to show it again, or an answer not understood, means asking again.
pub fn crumb_reply_step(chosen: &mut Vec<usize>, index: usize, reply: Option<Reply>) -> (ask_again:
    bool)
    ensures
        ask_again == (reply == Some(Reply::Show) || reply is None),
        reply == Some(Reply::Yes) ==> final(chosen)@ == old(chosen)@.push(index),
        reply != Some(Reply::Yes) ==> final(chosen)@ == old(chosen)@,
{
    match reply {
        Some(Reply::Yes) => {
            chosen.push(index);
            false
        },
        Some(Reply::Show) => true,
        None => true,
        Some(_) => false,
    }
}

/// The pieces of `cs` between single spaces, empty pieces included: the last piece is the one
/// being read.
pub open spec fn space_pieces(cs: Seq<char>) -> Seq<Seq<char>>
    decreases cs.len(),
{
    if cs.len() == 0 {
        seq![Seq::empty()]
    } else {
        let p = space_pieces(cs.drop_last());
        if cs.last() == ' ' {
            p.push(Seq::empty())
        } else {
            p.update(p.len() - 1, p.last().push(cs.last()))
        }
    }
}

proof fn lemma_space_pieces_not_empty(cs: Seq<char>)
    ensures
        space_pieces(cs).len() >= 1,
    decreases cs.len(),
{
    if cs.len() > 0 {
        lemma_space_pieces_not_empty(cs.drop_last());
    }
}

/// The format command split at each space, as `str::split(' ')` splits it: the program, then
/// its arguments. There is always a first piece.
pub fn split_command(fmt_command: &str) -> (r: Vec<String>)
    ensures
        strings_view(r@) == space_pieces(fmt_command@),
        r.len() >= 1,
{
    let cs = chars_of(fmt_command);
    let mut done: Vec<String> = Vec::new();
    let mut buf: Vec<char> = Vec::new();
    let mut i: usize = 0;
    while i < cs.len()
        invariant
            i <= cs.len(),
            cs@ == fmt_command@,
            strings_view(done@).push(buf@) == space_pieces(cs@.take(i as int)),
        decreases cs.len() - i,
    {
        assert(cs@.take(i + 1).drop_last() =~= cs@.take(i as int));
        proof {
            lemma_space_pieces_not_empty(cs@.take(i as int));
        }
        if cs[i] == ' ' {
            let ghost prev = done@;
            done.push(string_of(&buf));
            assert(strings_view(done@) =~= strings_view(prev).push(buf@));
            buf = Vec::new();
            i = i + 1;
            assert(strings_view(done@).push(buf@) =~= space_pieces(cs@.take(i as int)));
        } else {
            let ghost pb = buf@;
            buf.push(cs[i]);
            i = i + 1;
            assert(strings_view(done@).push(buf@) =~= strings_view(done@).push(pb).update(
                strings_view(done@).len() as int,
                pb.push(cs@[i - 1]),
            ));
        }
    }
    assert(cs@.take(i as int) =~= fmt_command@);
    let ghost prev = done@;
    done.push(string_of(&buf));
    assert(strings_view(done@) =~= strings_view(prev).push(buf@));
    done
}

} // verus!
