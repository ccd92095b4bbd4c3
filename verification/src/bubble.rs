//! The core of the speech-bubble renderer: an in-progress row is filled
//! character by character and flushed into an output buffer as a bordered,
//! padded row whenever a line break is seen, the row becomes full, or a
//! word-wrap boundary is reached.

use vstd::prelude::*;

verus! {

/// `n` copies of the character `c`.
pub open spec fn repeat_char(c: char, n: int) -> Seq<char>
    decreases n,
{
    if n <= 0 {
        Seq::empty()
    } else {
        repeat_char(c, n - 1).push(c)
    }
}

/// A completed interior line painted as one bordered row: `"| "`, the line,
/// padding up to the interior width `iw`, then `" |"` and a newline.
/// An empty line paints nothing: no blank interior rows are ever drawn.
pub open spec fn painted(line: Seq<char>, iw: int) -> Seq<char> {
    if line.len() == 0 {
        Seq::empty()
    } else {
        seq!['|', ' '] + line + repeat_char(' ', iw - line.len()) + seq![' ', '|', '\n']
    }
}

/// All rows painted and concatenated, in order.
pub open spec fn painted_all(rows: Seq<Seq<char>>, iw: int) -> Seq<char>
    decreases rows.len(),
{
    if rows.len() == 0 {
        Seq::empty()
    } else {
        painted(rows[0], iw) + painted_all(rows.skip(1), iw)
    }
}

/// Feeds the characters `cs` into the pending row `pending`, one at a time.
/// A newline completes the pending row; any other character extends it, and
/// a row that reaches the interior width `iw` is completed at once (the hard
/// cutoff). Returns the completed row interiors in order, and the final
/// pending row.
pub open spec fn feed(cs: Seq<char>, pending: Seq<char>, iw: int) -> (Seq<Seq<char>>, Seq<char>)
    decreases cs.len(),
{
    if cs.len() == 0 {
        (Seq::empty(), pending)
    } else if cs[0] == '\n' {
        let rest = feed(cs.skip(1), Seq::empty(), iw);
        (seq![pending] + rest.0, rest.1)
    } else {
        let p = pending.push(cs[0]);
        if p.len() == iw {
            let rest = feed(cs.skip(1), Seq::empty(), iw);
            (seq![p] + rest.0, rest.1)
        } else {
            feed(cs.skip(1), p, iw)
        }
    }
}

/// Feeds a sequence of wrapped lines. Every line but the last is followed by
/// a forced completion of the pending row (the word-wrap break made real);
/// the last line is left pending so a later chunk can continue it.
pub open spec fn feed_lines(
    lines: Seq<Seq<char>>,
    pending: Seq<char>,
    iw: int,
) -> (Seq<Seq<char>>, Seq<char>)
    decreases lines.len(),
{
    if lines.len() == 0 {
        (Seq::empty(), pending)
    } else {
        let fl = feed(lines[0], pending, iw);
        if lines.len() == 1 {
            fl
        } else {
            let rest = feed_lines(lines.skip(1), Seq::empty(), iw);
            (fl.0.push(fl.1) + rest.0, rest.1)
        }
    }
}

pub proof fn lemma_repeat_char_len(c: char, n: int)
    ensures
        repeat_char(c, n).len() == if n <= 0 { 0int } else { n },
    decreases n,
{
    if n > 0 {
        lemma_repeat_char_len(c, n - 1);
    }
}

pub proof fn lemma_painted_all_app(a: Seq<Seq<char>>, b: Seq<Seq<char>>, iw: int)
    ensures
        painted_all(a + b, iw) == painted_all(a, iw) + painted_all(b, iw),
    decreases a.len(),
{
    if a.len() == 0 {
        assert(a + b =~= b);
        assert(painted_all(a, iw) + painted_all(b, iw) =~= painted_all(b, iw));
    } else {
        assert((a + b).skip(1) =~= a.skip(1) + b);
        lemma_painted_all_app(a.skip(1), b, iw);
        assert(painted_all(a + b, iw) =~= painted_all(a, iw) + painted_all(b, iw));
    }
}

pub proof fn lemma_painted_all_one(row: Seq<char>, iw: int)
    ensures
        painted_all(seq![row], iw) == painted(row, iw),
{
    assert(seq![row].skip(1) =~= Seq::<Seq<char>>::empty());
    assert(painted_all(seq![row], iw) == painted(seq![row][0], iw) + painted_all(
        seq![row].skip(1),
        iw,
    ));
    assert(painted(row, iw) + painted_all(Seq::<Seq<char>>::empty(), iw) =~= painted(row, iw));
}

/// The non-newline characters of `cs`, in order: exactly the characters the
/// machine ever moves into a row.
pub open spec fn content(cs: Seq<char>) -> Seq<char>
    decreases cs.len(),
{
    if cs.len() == 0 {
        Seq::empty()
    } else if cs[0] == '\n' {
        content(cs.skip(1))
    } else {
        seq![cs[0]] + content(cs.skip(1))
    }
}

/// The non-newline characters of a list of lines, concatenated.
pub open spec fn content_lines(lines: Seq<Seq<char>>) -> Seq<char>
    decreases lines.len(),
{
    if lines.len() == 0 {
        Seq::empty()
    } else {
        content(lines[0]) + content_lines(lines.skip(1))
    }
}

/// Row interiors concatenated, without borders or padding.
pub open spec fn cat(rows: Seq<Seq<char>>) -> Seq<char>
    decreases rows.len(),
{
    if rows.len() == 0 {
        Seq::empty()
    } else {
        rows[0] + cat(rows.skip(1))
    }
}

pub proof fn lemma_cat_app(a: Seq<Seq<char>>, b: Seq<Seq<char>>)
    ensures
        cat(a + b) == cat(a) + cat(b),
    decreases a.len(),
{
    if a.len() == 0 {
        assert(a + b =~= b);
        assert(cat(a) + cat(b) =~= cat(b));
    } else {
        assert((a + b).skip(1) =~= a.skip(1) + b);
        lemma_cat_app(a.skip(1), b);
        assert(cat(a + b) =~= cat(a) + cat(b));
    }
}

pub proof fn lemma_cat_one(row: Seq<char>)
    ensures
        cat(seq![row]) == row,
{
    assert(seq![row].skip(1) =~= Seq::<Seq<char>>::empty());
    assert(cat(seq![row]) == seq![row][0] + cat(seq![row].skip(1)));
    assert(row + cat(Seq::<Seq<char>>::empty()) =~= row);
}

/// The machine never lets the pending row reach the interior width, and
/// every row it completes fits in it.
pub proof fn lemma_feed_bounds(cs: Seq<char>, pending: Seq<char>, iw: int)
    requires
        1 <= iw,
        pending.len() < iw,
    ensures
        ({
            let r = feed(cs, pending, iw);
            &&& r.1.len() < iw
            &&& forall|k: int| 0 <= k < r.0.len() ==> (#[trigger] r.0[k]).len() <= iw
        }),
    decreases cs.len(),
{
    let r = feed(cs, pending, iw);
    if cs.len() == 0 {
    } else if cs[0] == '\n' {
        lemma_feed_bounds(cs.skip(1), Seq::empty(), iw);
        let rest = feed(cs.skip(1), Seq::empty(), iw);
        assert forall|k: int| 0 <= k < r.0.len() implies (#[trigger] r.0[k]).len() <= iw by {
            if k == 0 {
                assert(r.0[k] == pending);
            } else {
                assert(r.0[k] == rest.0[k - 1]);
            }
        }
    } else {
        let p = pending.push(cs[0]);
        if p.len() == iw {
            lemma_feed_bounds(cs.skip(1), Seq::empty(), iw);
            let rest = feed(cs.skip(1), Seq::empty(), iw);
            assert forall|k: int| 0 <= k < r.0.len() implies (#[trigger] r.0[k]).len() <= iw by {
                if k == 0 {
                    assert(r.0[k] == p);
                } else {
                    assert(r.0[k] == rest.0[k - 1]);
                }
            }
        } else {
            lemma_feed_bounds(cs.skip(1), p, iw);
        }
    }
}

/// As `lemma_feed_bounds`, lifted to a list of wrapped lines.
pub proof fn lemma_feed_lines_bounds(lines: Seq<Seq<char>>, pending: Seq<char>, iw: int)
    requires
        1 <= iw,
        pending.len() < iw,
    ensures
        ({
            let r = feed_lines(lines, pending, iw);
            &&& r.1.len() < iw
            &&& forall|k: int| 0 <= k < r.0.len() ==> (#[trigger] r.0[k]).len() <= iw
        }),
    decreases lines.len(),
{
    let r = feed_lines(lines, pending, iw);
    if lines.len() == 0 {
    } else {
        let fl = feed(lines[0], pending, iw);
        lemma_feed_bounds(lines[0], pending, iw);
        if lines.len() == 1 {
        } else {
            lemma_feed_lines_bounds(lines.skip(1), Seq::empty(), iw);
            let rest = feed_lines(lines.skip(1), Seq::empty(), iw);
            assert forall|k: int| 0 <= k < r.0.len() implies (#[trigger] r.0[k]).len() <= iw by {
                if k < fl.0.len() {
                    assert(r.0[k] == fl.0[k]);
                } else if k == fl.0.len() {
                    assert(r.0[k] == fl.1);
                } else {
                    assert(r.0[k] == rest.0[k - fl.0.len() - 1]);
                }
            }
        }
    }
}

/// A nonempty completed row that fits the interior is painted as a row of
/// exactly `iw + 4` characters plus its line terminator.
pub proof fn lemma_painted_row_width(line: Seq<char>, iw: int)
    requires
        0 < line.len() <= iw,
    ensures
        painted(line, iw).len() == iw + 5,
{
    lemma_repeat_char_len(' ', iw - line.len());
}

/// Fixed row geometry: whatever chunks arrive in whatever order, every row
/// the machine completes paints to exactly `iw + 4` characters and one line
/// terminator (empty completions paint nothing at all).
pub proof fn lemma_rows_exact_width(lines: Seq<Seq<char>>, pending: Seq<char>, iw: int)
    requires
        1 <= iw,
        pending.len() < iw,
    ensures
        ({
            let r = feed_lines(lines, pending, iw);
            forall|k: int|
                0 <= k < r.0.len() && (#[trigger] r.0[k]).len() > 0 ==> painted(r.0[k], iw).len()
                    == iw + 5
        }),
{
    let r = feed_lines(lines, pending, iw);
    lemma_feed_lines_bounds(lines, pending, iw);
    assert forall|k: int|
        0 <= k < r.0.len() && (#[trigger] r.0[k]).len() > 0 implies painted(r.0[k], iw).len() == iw
        + 5 by {
        lemma_painted_row_width(r.0[k], iw);
    }
}

/// The machine loses and invents no characters: the completed row interiors
/// followed by the final pending row are the old pending row followed by the
/// chunk's non-newline characters.
pub proof fn lemma_feed_content(cs: Seq<char>, pending: Seq<char>, iw: int)
    ensures
        ({
            let r = feed(cs, pending, iw);
            cat(r.0) + r.1 == pending + content(cs)
        }),
    decreases cs.len(),
{
    let r = feed(cs, pending, iw);
    if cs.len() == 0 {
        assert(cat(r.0) + r.1 =~= pending + content(cs));
    } else if cs[0] == '\n' {
        lemma_feed_content(cs.skip(1), Seq::empty(), iw);
        let rest = feed(cs.skip(1), Seq::empty(), iw);
        lemma_cat_app(seq![pending], rest.0);
        lemma_cat_one(pending);
        assert(Seq::<char>::empty() + content(cs.skip(1)) =~= content(cs.skip(1)));
        assert(cat(r.0) + r.1 =~= pending + content(cs));
    } else {
        let p = pending.push(cs[0]);
        assert(p =~= pending + seq![cs[0]]);
        if p.len() == iw {
            lemma_feed_content(cs.skip(1), Seq::empty(), iw);
            let rest = feed(cs.skip(1), Seq::empty(), iw);
            lemma_cat_app(seq![p], rest.0);
            lemma_cat_one(p);
            assert(Seq::<char>::empty() + content(cs.skip(1)) =~= content(cs.skip(1)));
            assert(cat(r.0) + r.1 =~= pending + content(cs));
        } else {
            lemma_feed_content(cs.skip(1), p, iw);
            assert(cat(r.0) + r.1 =~= pending + content(cs));
        }
    }
}

/// As `lemma_feed_content`, lifted to a list of wrapped lines: forced breaks
/// between lines move characters into rows but never change them.
pub proof fn lemma_feed_lines_content(lines: Seq<Seq<char>>, pending: Seq<char>, iw: int)
    ensures
        ({
            let r = feed_lines(lines, pending, iw);
            cat(r.0) + r.1 == pending + content_lines(lines)
        }),
    decreases lines.len(),
{
    let r = feed_lines(lines, pending, iw);
    if lines.len() == 0 {
        assert(cat(r.0) + r.1 =~= pending + content_lines(lines));
    } else {
        let fl = feed(lines[0], pending, iw);
        lemma_feed_content(lines[0], pending, iw);
        if lines.len() == 1 {
            assert(content_lines(lines.skip(1)) =~= Seq::<char>::empty());
            assert(cat(r.0) + r.1 =~= pending + content_lines(lines));
        } else {
            lemma_feed_lines_content(lines.skip(1), Seq::empty(), iw);
            let rest = feed_lines(lines.skip(1), Seq::empty(), iw);
            lemma_cat_app(fl.0.push(fl.1), rest.0);
            assert(fl.0.push(fl.1) =~= fl.0 + seq![fl.1]);
            lemma_cat_app(fl.0, seq![fl.1]);
            lemma_cat_one(fl.1);
            assert(Seq::<char>::empty() + content_lines(lines.skip(1)) =~= content_lines(
                lines.skip(1),
            ));
            assert(cat(r.0) + r.1 =~= pending + content_lines(lines));
        }
    }
}

/// Splitting one append into two moves only the wrap-chosen row boundaries:
/// as long as the two wrappings carry the same non-newline characters, the
/// stream of emitted characters (completed interiors followed by the pending
/// row) is identical.
pub proof fn lemma_split_append(
    l1: Seq<Seq<char>>,
    l2: Seq<Seq<char>>,
    l12: Seq<Seq<char>>,
    pending: Seq<char>,
    iw: int,
)
    requires
        content_lines(l1) + content_lines(l2) == content_lines(l12),
    ensures
        ({
            let a = feed_lines(l1, pending, iw);
            let b = feed_lines(l2, a.1, iw);
            let c = feed_lines(l12, pending, iw);
            cat(a.0) + cat(b.0) + b.1 == cat(c.0) + c.1
        }),
{
    let a = feed_lines(l1, pending, iw);
    let b = feed_lines(l2, a.1, iw);
    let c = feed_lines(l12, pending, iw);
    lemma_feed_lines_content(l1, pending, iw);
    lemma_feed_lines_content(l2, a.1, iw);
    lemma_feed_lines_content(l12, pending, iw);
    assert(cat(a.0) + cat(b.0) + b.1 =~= cat(a.0) + (cat(b.0) + b.1));
    assert(cat(a.0) + (a.1 + content_lines(l2)) =~= (cat(a.0) + a.1) + content_lines(l2));
    assert((pending + content_lines(l1)) + content_lines(l2) =~= pending + (content_lines(l1)
        + content_lines(l2)));
}

/// A chunk that wraps to one empty line completes no row and leaves the
/// pending row untouched: appending nothing emits nothing.
pub proof fn lemma_feed_empty_line(pending: Seq<char>, iw: int)
    ensures
        feed_lines(seq![Seq::<char>::empty()], pending, iw) == (
            Seq::<Seq<char>>::empty(),
            pending,
        ),
        painted_all(Seq::<Seq<char>>::empty(), iw) == Seq::<char>::empty(),
{
    assert(seq![Seq::<char>::empty()].len() == 1);
    assert(feed(seq![Seq::<char>::empty()][0], pending, iw) == (
        Seq::<Seq<char>>::empty(),
        pending,
    ));
}

/// Exec: appends `n` copies of `c` to `buf`.
pub(crate) fn push_repeat(buf: &mut Vec<char>, c: char, n: u16)
    ensures
        final(buf)@ == old(buf)@ + repeat_char(c, n as int),
{
    let mut i: u16 = 0;
    while i < n
        invariant
            i <= n,
            buf@ == old(buf)@ + repeat_char(c, i as int),
        decreases n - i,
    {
        buf.push(c);
        i = i + 1;
    }
    assert(buf@ =~= old(buf)@ + repeat_char(c, n as int));
}

/// Exec: paints the pending row `line` into `buf` as one bordered row padded
/// to the interior width `iw`, then clears it. Painting an empty pending row
/// is a no-op.
pub(crate) fn flush_pending(buf: &mut Vec<char>, line: &mut Vec<char>, iw: u16)
    requires
        old(line)@.len() <= iw,
    ensures
        final(buf)@ == old(buf)@ + painted(old(line)@, iw as int),
        final(line)@ == Seq::<char>::empty(),
{
    if line.len() > 0 {
        buf.push('|');
        buf.push(' ');
        let n = line.len();
        let mut i: usize = 0;
        while i < n
            invariant
                i <= n,
                n == line@.len(),
                line@ == old(line)@,
                buf@ == old(buf)@ + seq!['|', ' '] + line@.subrange(0, i as int),
            decreases n - i,
        {
            buf.push(line[i]);
            assert(line@.subrange(0, i + 1 as int) =~= line@.subrange(0, i as int).push(
                line@[i as int],
            ));
            i = i + 1;
        }
        assert(line@.subrange(0, n as int) =~= line@);
        let pad = iw - (line.len() as u16);
        push_repeat(buf, ' ', pad);
        buf.push(' ');
        buf.push('|');
        buf.push('\n');
        line.clear();
        assert(buf@ =~= old(buf)@ + painted(old(line)@, iw as int));
    } else {
        assert(buf@ =~= old(buf)@ + painted(old(line)@, iw as int));
        assert(line@ =~= Seq::<char>::empty());
    }
}

/// Exec: feeds the characters of `cs` into the pending row, painting each
/// completed row into `buf`, exactly as the spec `feed` describes.
pub(crate) fn feed_chars(buf: &mut Vec<char>, line: &mut Vec<char>, cs: &Vec<char>, iw: u16)
    requires
        1 <= iw,
        old(line)@.len() < iw,
    ensures
        ({
            let r = feed(cs@, old(line)@, iw as int);
            &&& final(buf)@ == old(buf)@ + painted_all(r.0, iw as int)
            &&& final(line)@ == r.1
            &&& final(line)@.len() < iw
        }),
{
    let ghost total = feed(cs@, old(line)@, iw as int);
    let ghost mut rows: Seq<Seq<char>> = Seq::empty();
    let n = cs.len();
    let mut j: usize = 0;
    proof {
        assert(cs@.skip(0) =~= cs@);
        assert(rows + total.0 =~= total.0);
    }
    while j < n
        invariant
            j <= n,
            n == cs@.len(),
            1 <= iw,
            line@.len() < iw,
            buf@ == old(buf)@ + painted_all(rows, iw as int),
            total == feed(cs@, old(line)@, iw as int),
            ({
                let r = feed(cs@.skip(j as int), line@, iw as int);
                total.0 == rows + r.0 && total.1 == r.1
            }),
        decreases n - j,
    {
        let ghost pre_line = line@;
        let ghost rem = cs@.skip(j as int);
        proof {
            assert(rem[0] == cs@[j as int]);
            assert(rem.skip(1) =~= cs@.skip(j + 1 as int));
        }
        let c = cs[j];
        if c == '\n' {
            proof {
                lemma_painted_all_app(rows, seq![pre_line], iw as int);
                lemma_painted_all_one(pre_line, iw as int);
            }
            flush_pending(buf, line, iw);
            proof {
                rows = rows + seq![pre_line];
                let r2 = feed(cs@.skip(j + 1 as int), Seq::empty(), iw as int);
                assert(seq![pre_line] + r2.0 =~= feed(rem, pre_line, iw as int).0);
                assert(rows + r2.0 =~= total.0);
            }
        } else {
            line.push(c);
            if line.len() == iw as usize {
                let ghost full = pre_line.push(c);
                proof {
                    lemma_painted_all_app(rows, seq![full], iw as int);
                    lemma_painted_all_one(full, iw as int);
                }
                flush_pending(buf, line, iw);
                proof {
                    rows = rows + seq![full];
                    let r2 = feed(cs@.skip(j + 1 as int), Seq::empty(), iw as int);
                    assert(seq![full] + r2.0 =~= feed(rem, pre_line, iw as int).0);
                    assert(rows + r2.0 =~= total.0);
                }
            } else {
                proof {
                    assert(feed(rem, pre_line, iw as int) == feed(
                        cs@.skip(j + 1 as int),
                        pre_line.push(c),
                        iw as int,
                    ));
                }
            }
        }
        j = j + 1;
    }
    proof {
        assert(cs@.skip(n as int) =~= Seq::<char>::empty());
        assert(total.0 =~= rows + Seq::<Seq<char>>::empty());
        assert(total.0 =~= rows);
    }
}

/// Exec: feeds a list of wrapped lines, forcing a row break after every line
/// but the last, exactly as the spec `feed_lines` describes.
pub(crate) fn feed_wrapped(
    buf: &mut Vec<char>,
    line: &mut Vec<char>,
    lines: &Vec<Vec<char>>,
    iw: u16,
)
    requires
        1 <= iw,
        old(line)@.len() < iw,
    ensures
        ({
            let r = feed_lines(lines.deep_view(), old(line)@, iw as int);
            &&& final(buf)@ == old(buf)@ + painted_all(r.0, iw as int)
            &&& final(line)@ == r.1
            &&& final(line)@.len() < iw
        }),
{
    let ghost lv = lines.deep_view();
    let ghost total = feed_lines(lv, old(line)@, iw as int);
    let ghost mut rows: Seq<Seq<char>> = Seq::empty();
    let n = lines.len();
    let mut i: usize = 0;
    proof {
        assert(lv.len() == n);
        assert(lv.skip(0) =~= lv);
        assert(rows + total.0 =~= total.0);
    }
    while i < n
        invariant
            i <= n,
            n == lines@.len(),
            lv == lines.deep_view(),
            lv.len() == n,
            1 <= iw,
            line@.len() < iw,
            buf@ == old(buf)@ + painted_all(rows, iw as int),
            total == feed_lines(lv, old(line)@, iw as int),
            ({
                let r = feed_lines(lv.skip(i as int), line@, iw as int);
                total.0 == rows + r.0 && total.1 == r.1
            }),
        decreases n - i,
    {
        let ghost pre_line = line@;
        let ghost rem = lv.skip(i as int);
        proof {
            assert(rem[0] == lv[i as int]);
            assert(lv[i as int] == lines@[i as int]@);
            assert(rem.skip(1) =~= lv.skip(i + 1 as int));
        }
        feed_chars(buf, line, &lines[i], iw);
        let ghost fl = feed(lv[i as int], pre_line, iw as int);
        proof {
            lemma_painted_all_app(rows, fl.0, iw as int);
            rows = rows + fl.0;
        }
        if i + 1 < n {
            proof {
                lemma_painted_all_app(rows, seq![fl.1], iw as int);
                lemma_painted_all_one(fl.1, iw as int);
            }
            flush_pending(buf, line, iw);
            proof {
                rows = rows + seq![fl.1];
                let r2 = feed_lines(lv.skip(i + 1 as int), Seq::empty(), iw as int);
                assert(fl.0.push(fl.1) + r2.0 =~= fl.0 + seq![fl.1] + r2.0);
                assert(total.0 =~= rows + r2.0);
            }
        } else {
            proof {
                assert(rem.len() == 1);
                let r2 = feed_lines(lv.skip(i + 1 as int), line@, iw as int);
                assert(lv.skip(i + 1 as int).len() == 0);
                assert(r2.0 =~= Seq::<Seq<char>>::empty());
                assert(total.0 =~= rows + r2.0);
            }
        }
        i = i + 1;
    }
    proof {
        assert(lv.skip(n as int).len() == 0);
        assert(total.0 =~= rows + Seq::<Seq<char>>::empty());
        assert(total.0 =~= rows);
    }
}

} // verus!
