//! Splitting raw geometry text into lines and lines into tokens.
//!
//! The geometry format is line oriented; each line is a sequence of tokens
//! separated by blanks.  Both splits are specified by recursive functions
//! over byte sequences and the executable code is proved to match them.

use vstd::prelude::*;

verus! {

/// A byte that separates tokens within a line: space, tab, or the carriage
/// return left by Windows line endings.
pub open spec fn is_blank(b: u8) -> bool {
    b == 32 || b == 9 || b == 13
}

/// The tokens of `s`, given that the bytes of an unfinished token `cur`
/// come directly before `s`.
pub open spec fn tokens_acc(s: Seq<u8>, cur: Seq<u8>) -> Seq<Seq<u8>>
    decreases s.len(),
{
    if s.len() == 0 {
        if cur.len() == 0 {
            Seq::empty()
        } else {
            seq![cur]
        }
    } else if is_blank(s[0]) {
        if cur.len() == 0 {
            tokens_acc(s.drop_first(), Seq::empty())
        } else {
            seq![cur] + tokens_acc(s.drop_first(), Seq::empty())
        }
    } else {
        tokens_acc(s.drop_first(), cur.push(s[0]))
    }
}

/// The blank-separated tokens of one line, in order, with empty runs of
/// blanks contributing nothing.
pub open spec fn spec_tokens(s: Seq<u8>) -> Seq<Seq<u8>> {
    tokens_acc(s, Seq::empty())
}

/// The lines of `text`, split at each line feed, given that the bytes of
/// an unfinished line `cur` come directly before `text`.
pub open spec fn lines_acc(text: Seq<u8>, cur: Seq<u8>) -> Seq<Seq<u8>>
    decreases text.len(),
{
    if text.len() == 0 {
        seq![cur]
    } else if text[0] == 10 {
        seq![cur] + lines_acc(text.drop_first(), Seq::empty())
    } else {
        lines_acc(text.drop_first(), cur.push(text[0]))
    }
}

/// The lines of `text`, split at each line feed.  A trailing line feed
/// yields a final empty line, which the parser ignores.
pub open spec fn spec_lines(text: Seq<u8>) -> Seq<Seq<u8>> {
    lines_acc(text, Seq::empty())
}

/// The views of a sequence of byte vectors.
pub open spec fn byte_views(ts: Seq<Vec<u8>>) -> Seq<Seq<u8>> {
    ts.map_values(|t: Vec<u8>| t@)
}

/// Split one line into its blank-separated tokens.
pub fn tokenize(line: &[u8]) -> (r: Vec<Vec<u8>>)
    ensures
        byte_views(r@) == spec_tokens(line@),
{
    let ghost all = line@;
    let mut out: Vec<Vec<u8>> = Vec::new();
    let mut cur: Vec<u8> = Vec::new();
    let mut i: usize = 0;
    proof {
        assert(all.skip(0) =~= all);
        assert(byte_views(out@) + tokens_acc(all, cur@) =~= tokens_acc(all, cur@));
    }
    while i < line.len()
        invariant
            i <= all.len(),
            line@ == all,
            byte_views(out@) + tokens_acc(all.skip(i as int), cur@) == spec_tokens(all),
        decreases all.len() - i,
    {
        let b = line[i];
        proof {
            assert(all.skip(i as int).drop_first() =~= all.skip(i as int + 1));
            assert(all.skip(i as int)[0] == all[i as int]);
        }
        if b == 32 || b == 9 || b == 13 {
            if cur.len() > 0 {
                let ghost pre_out = out@;
                let ghost pre_cur = cur@;
                let finished = cur;
                cur = Vec::new();
                out.push(finished);
                proof {
                    assert(tokens_acc(all.skip(i as int), pre_cur) == seq![pre_cur] + tokens_acc(
                        all.skip(i as int + 1),
                        Seq::empty(),
                    ));
                    assert(byte_views(out@) =~= byte_views(pre_out).push(pre_cur));
                    assert(byte_views(out@) + tokens_acc(all.skip(i as int + 1), cur@)
                        =~= byte_views(pre_out) + tokens_acc(all.skip(i as int), pre_cur));
                }
            } else {
                proof {
                    assert(cur@ =~= Seq::<u8>::empty());
                }
            }
        } else {
            cur.push(b);
        }
        i = i + 1;
    }
    proof {
        assert(all.skip(all.len() as int) =~= Seq::<u8>::empty());
    }
    if cur.len() > 0 {
        let ghost pre_out = out@;
        let ghost pre_cur = cur@;
        out.push(cur);
        proof {
            assert(tokens_acc(Seq::empty(), pre_cur) == seq![pre_cur]);
            assert(byte_views(out@) =~= byte_views(pre_out).push(pre_cur));
            assert(byte_views(out@) =~= byte_views(pre_out) + seq![pre_cur]);
        }
    } else {
        proof {
            assert(byte_views(out@) + tokens_acc(Seq::empty(), cur@) =~= byte_views(out@));
        }
    }
    out
}

/// Split raw text into its lines.
pub fn split_lines(text: &[u8]) -> (r: Vec<Vec<u8>>)
    ensures
        byte_views(r@) == spec_lines(text@),
{
    let ghost all = text@;
    let mut out: Vec<Vec<u8>> = Vec::new();
    let mut cur: Vec<u8> = Vec::new();
    let mut i: usize = 0;
    proof {
        assert(all.skip(0) =~= all);
        assert(byte_views(out@) + lines_acc(all, cur@) =~= lines_acc(all, cur@));
    }
    while i < text.len()
        invariant
            i <= all.len(),
            text@ == all,
            byte_views(out@) + lines_acc(all.skip(i as int), cur@) == spec_lines(all),
        decreases all.len() - i,
    {
        let b = text[i];
        proof {
            assert(all.skip(i as int).drop_first() =~= all.skip(i as int + 1));
            assert(all.skip(i as int)[0] == all[i as int]);
        }
        if b == 10 {
            let ghost pre_out = out@;
            let ghost pre_cur = cur@;
            let finished = cur;
            cur = Vec::new();
            out.push(finished);
            proof {
                assert(lines_acc(all.skip(i as int), pre_cur) == seq![pre_cur] + lines_acc(
                    all.skip(i as int + 1),
                    Seq::empty(),
                ));
                assert(byte_views(out@) =~= byte_views(pre_out).push(pre_cur));
                assert(byte_views(out@) + lines_acc(all.skip(i as int + 1), cur@)
                    =~= byte_views(pre_out) + lines_acc(all.skip(i as int), pre_cur));
            }
        } else {
            cur.push(b);
        }
        i = i + 1;
    }
    proof {
        assert(all.skip(all.len() as int) =~= Seq::<u8>::empty());
    }
    let ghost pre_out = out@;
    let ghost pre_cur = cur@;
    out.push(cur);
    proof {
        assert(lines_acc(Seq::empty(), pre_cur) == seq![pre_cur]);
        assert(byte_views(out@) =~= byte_views(pre_out).push(pre_cur));
        assert(byte_views(out@) =~= byte_views(pre_out) + seq![pre_cur]);
    }
    out
}

} // verus!
