//! A speech bubble drawn around streamed text: a fixed piece of ASCII art,
//! a top border, word-wrapped interior rows, and a bottom border, all sized
//! to a configurable exterior width. Rows are buffered as they complete and
//! handed out through `drain`.

use vstd::prelude::*;

use crate::bubble::{
    feed_lines, feed_wrapped, flush_pending, painted, painted_all, push_repeat, repeat_char,
};
use crate::textconv::{chars_of, string_of};
use crate::wrapping::{wrap_lines, wrap_of};

verus! {

/// The fixed drawing that precedes the first top border.
pub open spec fn art() -> Seq<char> {
    "/\u{203E}\u{203E}\\\n|  |\n@  @\n|| |/\n|| ||\n|\\_/|\n\\___/\n  /\\\n"@
}

/// The exterior width never goes below this drawable minimum.
pub open spec fn min_width() -> u16 {
    5u16
}

/// The width actually used: the requested width, raised to the minimum.
pub open spec fn clamp_width(w: u16) -> u16 {
    if w < min_width() {
        min_width()
    } else {
        w
    }
}

/// The top border row: `"/‾  "` padded with overline characters out to the
/// exterior width `w`, closed by a backslash and a newline.
pub open spec fn top_border(w: int) -> Seq<char> {
    seq!['/', '\u{203E}', ' ', ' '] + repeat_char('\u{203E}', w - 5) + seq!['\\', '\n']
}

/// The bottom border row: a backslash, `w - 2` underscores, a slash and a
/// newline — exactly `w` characters before the terminator.
pub open spec fn bottom_border(w: int) -> Seq<char> {
    seq!['\\'] + repeat_char('_', w - 2) + seq!['/', '\n']
}

/// Inputs a string and buffers ASCII art of a paper-clip assistant saying
/// the text.
///
/// Call `add_str()` to input strings and call `finish()` at the end after
/// all text has been added; `drain()` hands out whatever rows are complete.
#[derive(Default, Clone, PartialOrd, PartialEq)]
pub struct ClippyOutput {
    // Completed output not yet drained.
    buf: Vec<char>,
    // Exterior width; at least `min_width()`.
    output_width: u16,
    // Incomplete last line without vertical bars.
    line: Vec<char>,
    // Length of `line` in characters. Since this is the number of
    // characters, the displayed width may differ: combining characters make
    // rows appear shorter. That approximation is deliberate.
    line_char_length: u16,
}

impl ClippyOutput {
    /// Characters available between the borders of a row.
    pub open spec fn interior(self) -> int {
        self.width() as int - 4
    }

    /// The drained output so far.
    pub closed spec fn buffered(self) -> Seq<char> {
        self.buf@
    }

    /// The pending, not yet emitted row.
    pub closed spec fn pending(self) -> Seq<char> {
        self.line@
    }

    /// The exterior width in use.
    pub closed spec fn width(self) -> u16 {
        self.output_width
    }

    /// Well-formedness: the width is clamped, the cached character count is
    /// the pending row's length, and the pending row is strictly inside the
    /// interior (a full row is flushed the moment it fills).
    pub closed spec fn wf(self) -> bool {
        &&& self.output_width >= min_width()
        &&& self.line@.len() == self.line_char_length
        &&& self.line@.len() < self.interior()
    }

    /// What well-formedness guarantees to a caller: the width is at least
    /// the minimum and the pending row is strictly inside the interior.
    pub proof fn lemma_wf(self)
        requires
            self.wf(),
        ensures
            self.width() >= min_width(),
            self.pending().len() < self.interior(),
    {
    }

    /// Builds the renderer: the art and the top border for the clamped
    /// width are already buffered, and no row is pending.
    pub fn new(output_width: u16) -> (r: ClippyOutput)
        ensures
            r.wf(),
            r.width() == clamp_width(output_width),
            r.buffered() == art() + top_border(clamp_width(output_width) as int),
            r.pending() == Seq::<char>::empty(),
    {
        let w = if output_width < 5 {
            5u16
        } else {
            output_width
        };
        let mut buf = chars_of(
            "/\u{203E}\u{203E}\\\n|  |\n@  @\n|| |/\n|| ||\n|\\_/|\n\\___/\n  /\\\n",
        );
        buf.push('/');
        buf.push('\u{203E}');
        buf.push(' ');
        buf.push(' ');
        push_repeat(&mut buf, '\u{203E}', w - 5);
        buf.push('\\');
        buf.push('\n');
        assert(buf@ =~= art() + top_border(w as int));
        ClippyOutput { buf, output_width: w, line: Vec::new(), line_char_length: 0 }
    }

    /// Adds text to be processed: the chunk is word-wrapped to the interior
    /// width and fed through the row machine; completed rows are painted
    /// into the buffer and the last wrapped line stays pending.
    pub fn add_str(&mut self, s: &str)
        requires
            old(self).wf(),
        ensures
            final(self).wf(),
            final(self).width() == old(self).width(),
            ({
                let r = feed_lines(
                    wrap_of(s@, old(self).interior()),
                    old(self).pending(),
                    old(self).interior(),
                );
                &&& final(self).buffered() == old(self).buffered() + painted_all(
                    r.0,
                    old(self).interior(),
                )
                &&& final(self).pending() == r.1
            }),
            s@.len() == 0 ==> final(self).buffered() == old(self).buffered()
                && final(self).pending() == old(self).pending(),
    {
        let iw = self.output_width - 4;
        let lines = wrap_lines(s, iw as usize);
        feed_wrapped(&mut self.buf, &mut self.line, &lines, iw);
        self.line_char_length = self.line.len() as u16;
        proof {
            if s@.len() == 0 {
                crate::bubble::lemma_feed_empty_line(old(self).pending(), old(self).interior());
            }
        }
    }

    /// Closes the bubble: any pending row is painted (padded) and the
    /// bottom border is appended.
    ///
    /// A later `add_str` starts a fresh run of rows and a later `finish`
    /// draws another bottom border; neither is rejected.
    pub fn finish(&mut self)
        requires
            old(self).wf(),
        ensures
            final(self).wf(),
            final(self).width() == old(self).width(),
            final(self).buffered() == old(self).buffered() + painted(
                old(self).pending(),
                old(self).interior(),
            ) + bottom_border(old(self).width() as int),
            final(self).pending() == Seq::<char>::empty(),
    {
        let iw = self.output_width - 4;
        flush_pending(&mut self.buf, &mut self.line, iw);
        self.line_char_length = 0;
        let ghost mid = self.buf@;
        self.buf.push('\\');
        push_repeat(&mut self.buf, '_', self.output_width - 2);
        self.buf.push('/');
        self.buf.push('\n');
        assert(self.buf@ =~= mid + bottom_border(old(self).width() as int));
    }

    /// Takes everything buffered so far, or signals emptiness: `Some` holds
    /// the complete rows (and, the first time, the art and top border) and
    /// clears the buffer; `None` means nothing was ready.
    pub fn drain(&mut self) -> (r: Option<String>)
        ensures
            final(self).width() == old(self).width(),
            final(self).pending() == old(self).pending(),
            final(self).buffered() == Seq::<char>::empty(),
            old(self).wf() ==> final(self).wf(),
            match r {
                Option::None => old(self).buffered().len() == 0,
                Option::Some(s) => s@ == old(self).buffered() && old(self).buffered().len() > 0,
            },
    {
        if self.buf.len() == 0 {
            Option::None
        } else {
            let s = string_of(&self.buf);
            self.buf = Vec::new();
            Option::Some(s)
        }
    }
}

/// Width-minimum clamp: every requested width at or below the minimum is
/// clamped to the same value, so a renderer built with width 0 is, by the
/// construction contract, identical to one built with the minimum.
pub proof fn lemma_width_clamp(w: u16)
    requires
        w <= min_width(),
    ensures
        clamp_width(w) == clamp_width(min_width()),
{
}

/// Fixed row geometry for a bubble of exterior width `w`: whatever chunks
/// arrive in whatever order, every nonempty row the machine completes
/// paints to exactly `w` characters plus the line terminator, as do the
/// top and bottom borders.
pub proof fn lemma_rows_match_width(lines: Seq<Seq<char>>, pending: Seq<char>, w: u16)
    requires
        w >= min_width(),
        pending.len() < w - 4,
    ensures
        ({
            let r = feed_lines(lines, pending, w - 4);
            forall|k: int|
                0 <= k < r.0.len() && (#[trigger] r.0[k]).len() > 0 ==> painted(
                    r.0[k],
                    w - 4,
                ).len() == w + 1
        }),
        top_border(w as int).len() == w + 1,
        bottom_border(w as int).len() == w + 1,
{
    crate::bubble::lemma_rows_exact_width(lines, pending, w - 4);
    crate::bubble::lemma_repeat_char_len('\u{203E}', w - 5);
    crate::bubble::lemma_repeat_char_len('_', w - 2);
}

} // verus!
