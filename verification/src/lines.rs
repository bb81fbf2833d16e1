//! Splitting a text's bytes into one payload per line, as the
//! newline-delimited loader requires: lines end at a line feed or at a
//! carriage return followed by a line feed, terminators are stripped, empty
//! lines are kept, and a trailing terminator adds no empty final line.

use vstd::prelude::*;
use crate::views_of;
use crate::lemma_views_of_push;

verus! {

/// A terminated line's body with a trailing carriage return removed: the
/// terminator `\r\n` strips both of its bytes.
pub open spec fn strip_cr(line: Seq<u8>) -> Seq<u8> {
    if line.len() > 0 && line[line.len() - 1] == 13 {
        line.take(line.len() - 1)
    } else {
        line
    }
}

/// The lines of `s` given that `cur` holds the bytes of the current line
/// read so far: a line feed ends a line (with `strip_cr` applied), and a
/// final unterminated line is kept as written, lone carriage return
/// included.
pub open spec fn lines_from(s: Seq<u8>, cur: Seq<u8>) -> Seq<Seq<u8>>
    decreases s.len(),
{
    if s.len() == 0 {
        if cur.len() == 0 {
            seq![]
        } else {
            seq![cur]
        }
    } else if s[0] == 10 {
        seq![strip_cr(cur)] + lines_from(s.drop_first(), seq![])
    } else {
        lines_from(s.drop_first(), cur.push(s[0]))
    }
}

/// The line payloads of the byte sequence `s`. This is the splitting that
/// `str::lines` performs, stated over a string's UTF-8 bytes: a line feed
/// byte occurs in UTF-8 only as the character `\n` itself.
pub open spec fn spec_lines(s: Seq<u8>) -> Seq<Seq<u8>> {
    lines_from(s, seq![])
}

/// A non-empty input always yields at least one line payload.
pub proof fn lemma_lines_from_nonempty(s: Seq<u8>, cur: Seq<u8>)
    requires
        s.len() + cur.len() > 0,
    ensures
        lines_from(s, cur).len() > 0,
    decreases s.len(),
{
    if s.len() == 0 {
    } else if s[0] == 10 {
    } else {
        lemma_lines_from_nonempty(s.drop_first(), cur.push(s[0]));
    }
}

/// Split `bytes` into line payloads, exactly as `spec_lines` describes.
pub fn split_lines(bytes: &Vec<u8>) -> (r: Vec<Vec<u8>>)
    ensures
        views_of(r@) == spec_lines(bytes@),
{
    let mut out: Vec<Vec<u8>> = Vec::new();
    let mut cur: Vec<u8> = Vec::new();
    let mut i: usize = 0;
    proof {
        assert(views_of(out@) =~= Seq::<Seq<u8>>::empty());
        assert(bytes@.skip(0) =~= bytes@);
        assert(views_of(out@) + lines_from(bytes@.skip(0), cur@) =~= spec_lines(bytes@));
    }
    while i < bytes.len()
        invariant
            i <= bytes.len(),
            views_of(out@) + lines_from(bytes@.skip(i as int), cur@) == spec_lines(bytes@),
        decreases bytes.len() - i,
    {
        let ghost tail = bytes@.skip(i as int);
        proof {
            assert(tail[0] == bytes@[i as int]);
            assert(tail.drop_first() =~= bytes@.skip(i as int + 1));
        }
        let b = bytes[i];
        if b == 10 {
            let ghost cur0 = cur@;
            if cur.len() > 0 && cur[cur.len() - 1] == 13 {
                let _dropped = cur.pop();
            }
            proof {
                assert(cur@ =~= strip_cr(cur0));
            }
            let ghost outv0 = out@;
            let ghost views0 = views_of(out@);
            out.push(cur);
            cur = Vec::new();
            proof {
                lemma_views_of_push(outv0, out@.last());
                assert(outv0.push(out@.last()) == out@);
                assert(views_of(out@) =~= views0.push(strip_cr(cur0)));
                assert(views0.push(strip_cr(cur0)) + lines_from(tail.drop_first(), cur@) =~= views0
                    + (seq![strip_cr(cur0)] + lines_from(tail.drop_first(), seq![])));
            }
        } else {
            cur.push(b);
        }
        i = i + 1;
    }
    proof {
        assert(bytes@.skip(i as int) =~= Seq::<u8>::empty());
    }
    if cur.len() > 0 {
        let ghost outv0 = out@;
        let ghost views0 = views_of(out@);
        let ghost cur0 = cur@;
        out.push(cur);
        proof {
            lemma_views_of_push(outv0, out@.last());
            assert(outv0.push(out@.last()) == out@);
            assert(views_of(out@) =~= views0.push(cur0));
            assert(views0.push(cur0) =~= views0 + seq![cur0]);
            assert(views0 + seq![cur0] =~= views0 + lines_from(Seq::<u8>::empty(), cur0));
        }
    } else {
        proof {
            assert(views_of(out@) + lines_from(Seq::<u8>::empty(), cur@) =~= views_of(out@));
        }
    }
    out
}

} // verus!
