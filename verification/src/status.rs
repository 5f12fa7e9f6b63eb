//! Reading the resident set size out of a process status text (the format of
//! `/proc/self/status`: one `Key:   value unit` per line).

use vstd::prelude::*;

use crate::text::{chars_of, split_words, starts_with, starts_with_chars, string_of, words};

verus! {

/// The pieces of `s` between newline characters, in order: one more than
/// there are newlines.
pub open spec fn newline_pieces(s: Seq<char>) -> Seq<Seq<char>>
    decreases s.len(),
{
    if s.len() == 0 {
        seq![seq![]]
    } else {
        let prev = newline_pieces(s.drop_last());
        if s.last() == '\n' {
            prev.push(seq![])
        } else {
            prev.drop_last().push(prev.last().push(s.last()))
        }
    }
}

/// A line ended by a newline, without the carriage return before it.
pub open spec fn strip_cr(piece: Seq<char>) -> Seq<char> {
    if piece.len() > 0 && piece.last() == '\r' {
        piece.drop_last()
    } else {
        piece
    }
}

/// The lines of `s`, as `str::lines` gives them: the pieces between
/// newlines, a carriage return before a newline dropped, and no last line
/// where `s` ends in a newline or is empty.
pub open spec fn text_lines(s: Seq<char>) -> Seq<Seq<char>> {
    let pieces = newline_pieces(s);
    let n = if pieces.last().len() == 0 {
        pieces.len() - 1
    } else {
        pieces.len() as int
    };
    Seq::new(
        n as nat,
        |i: int|
            if i < pieces.len() - 1 {
                strip_cr(pieces[i])
            } else {
                pieces[i]
            },
    )
}

/// `k` is the first of `lines` that starts with `key`.
pub open spec fn first_keyed(lines: Seq<Seq<char>>, key: Seq<char>, k: int) -> bool {
    &&& 0 <= k < lines.len()
    &&& starts_with(lines[k], key)
    &&& forall|j: int| 0 <= j < k ==> !starts_with(#[trigger] lines[j], key)
}

/// There is always at least one piece, and the pieces of a prefix that a
/// newline ended stay the pieces of every longer prefix.
proof fn lemma_pieces_extend(s: Seq<char>, n: int, m: int)
    requires
        0 <= n <= m <= s.len(),
    ensures
        newline_pieces(s.take(n)).len() >= 1,
        newline_pieces(s.take(m)).len() >= newline_pieces(s.take(n)).len(),
        forall|j: int|
            0 <= j < newline_pieces(s.take(n)).len() - 1 ==> #[trigger] newline_pieces(s.take(m))[j]
                == newline_pieces(s.take(n))[j],
    decreases m,
{
    if m == 0 {
        assert(s.take(0) =~= Seq::<char>::empty());
    } else if n == m {
        lemma_pieces_extend(s, n - 1, m - 1);
        assert(s.take(m).drop_last() =~= s.take(m - 1));
    } else {
        lemma_pieces_extend(s, n, m - 1);
        assert(s.take(m).drop_last() =~= s.take(m - 1));
    }
}

/// The key of the resident set size.
pub open spec fn rss_key() -> Seq<char> {
    "VmRSS:"@
}

/// The value of the resident set size in a process status text: the second
/// word of the first line that starts with `VmRSS:`, where that line has one.
pub fn rss_field(status: &str) -> (r: Option<String>)
    ensures
        match r {
            Some(t) => exists|k: int|
                first_keyed(text_lines(status@), rss_key(), k) && words(text_lines(status@)[k]).len()
                    > 1 && t@ == words(text_lines(status@)[k])[1],
            None => forall|k: int|
                first_keyed(text_lines(status@), rss_key(), k) ==> words(
                    #[trigger] text_lines(status@)[k],
                ).len() <= 1,
        },
{
    let key = chars_of("VmRSS:");
    let cs = chars_of(status);
    let ghost lines = text_lines(status@);
    let mut done: Ghost<Seq<Seq<char>>> = Ghost(Seq::empty());
    let mut cur: Vec<char> = Vec::new();
    let mut i: usize = 0;
    while i < cs.len()
        invariant
            cs@ == status@,
            key@ == rss_key(),
            lines == text_lines(status@),
            i <= cs@.len(),
            newline_pieces(cs@.take(i as int)) == done@.push(cur@),
            forall|j: int| 0 <= j < done@.len() ==> !starts_with(strip_cr(#[trigger] done@[j]), key@),
        decreases cs@.len() - i,
    {
        let c = cs[i];
        assert(cs@.take(i + 1).drop_last() =~= cs@.take(i as int));
        if c == '\n' {
            let mut line = cur;
            let ghost piece = line@;
            if line.len() > 0 && line[line.len() - 1] == '\r' {
                line.pop();
            }
            assert(line@ == strip_cr(piece));
            proof {
                let d = done@.len() as int;
                lemma_pieces_extend(cs@, i + 1, cs@.len() as int);
                assert(cs@.take(cs@.len() as int) =~= status@);
                let short = newline_pieces(cs@.take(i + 1));
                assert(short =~= done@.push(piece).push(seq![]));
                assert(short[d] == piece);
                let full = newline_pieces(status@);
                assert(full[d] == piece);
                assert(lines[d] == line@);
                assert forall|j: int| 0 <= j < d implies !starts_with(#[trigger] lines[j], key@) by {
                    assert(short[j] == done@[j]);
                    assert(full[j] == done@[j]);
                }
            }
            if starts_with_chars(&line, &key) {
                assert(first_keyed(lines, rss_key(), done@.len() as int));
                let ws = split_words(&line);
                if ws.len() > 1 {
                    return Some(string_of(&ws[1]));
                }
                return None;
            }
            proof {
                done@ = done@.push(piece);
            }
            cur = Vec::new();
        } else {
            cur.push(c);
        }
        i += 1;
    }
    proof {
        let d = done@.len() as int;
        assert(cs@.take(cs@.len() as int) =~= status@);
        let full = newline_pieces(status@);
        assert(full == done@.push(cur@));
        assert forall|j: int| 0 <= j < d implies !starts_with(#[trigger] lines[j], key@) by {
            assert(full[j] == done@[j]);
        }
    }
    if cur.len() > 0 && starts_with_chars(&cur, &key) {
        assert(first_keyed(lines, rss_key(), done@.len() as int));
        assert(lines[done@.len() as int] == cur@);
        let ws = split_words(&cur);
        if ws.len() > 1 {
            return Some(string_of(&ws[1]));
        }
        return None;
    }
    None
}

} // verus!
