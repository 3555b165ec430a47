//! The image: a grid of colours, and its text in the plain pixmap format.

use crate::fixed::Fixed;
use crate::text::{append_decimal, append_signed, decimal, signed};
use crate::vec3::Vec3;
use vstd::prelude::*;
use vstd::string::*;

verus! {

/// An image of `width` by `height` colours, stored row by row. The row
/// `y == 0` is the bottom one.
pub struct P3 {
    width: usize,
    height: usize,
    texels: Vec<Vec3>,
}

/// The whole number of 255ths that a colour channel is written as: the
/// channel times 255, rounded up.
pub open spec fn channel(c: Fixed) -> int {
    let n = c@ * 255;
    if n >= 0 {
        (n + 99_999) / 100_000
    } else {
        -((-n) / 100_000)
    }
}

/// The text of one colour: its three channels, each followed by a space.
pub open spec fn texel_text(c: Vec3) -> Seq<char> {
    signed(channel(c.0)).push(' ') + signed(channel(c.1)).push(' ') + signed(channel(c.2)).push(
        ' ',
    )
}

/// The first lines of an image's text: the format, the size and the
/// largest channel value.
pub open spec fn header_text(width: usize, height: usize) -> Seq<char> {
    seq!['P', '3', '\n'] + decimal(width as nat).push(' ') + decimal(height as nat).push('\n')
        + seq!['2', '5', '5', '\n']
}

impl P3 {
    /// The number of columns.
    pub closed spec fn columns(self) -> usize {
        self.width
    }

    /// The number of rows.
    pub closed spec fn rows(self) -> usize {
        self.height
    }

    /// The colours, row by row from the bottom one, each row from the left.
    pub closed spec fn view(self) -> Seq<Vec3> {
        self.texels@
    }

    /// The grid is complete: it holds one colour for each place.
    pub open spec fn wf(self) -> bool {
        self@.len() == self.columns() * self.rows()
    }

    /// The colour in column `x` of row `y`.
    pub open spec fn pixel(self, x: int, y: int) -> Vec3 {
        self@[y * self.columns() + x]
    }

    /// The text of the first `n` colours of row `y`.
    pub open spec fn row_text(self, y: int, n: nat) -> Seq<char>
        decreases n,
    {
        if n == 0 {
            Seq::empty()
        } else {
            self.row_text(y, (n - 1) as nat) + texel_text(self.pixel(n - 1, y))
        }
    }

    /// The text of the `k` topmost rows, the top one first, each closed
    /// by a line feed.
    pub open spec fn rows_text(self, k: nat) -> Seq<char>
        decreases k,
    {
        if k == 0 {
            Seq::empty()
        } else {
            self.rows_text((k - 1) as nat) + self.row_text(
                self.rows() - k,
                self.columns() as nat,
            ).push('\n')
        }
    }

    /// The image in the plain pixmap format: the header, then the rows
    /// from the top one down.
    pub open spec fn text(self) -> Seq<char> {
        header_text(self.columns(), self.rows()) + self.rows_text(self.rows() as nat)
    }
}

impl P3 {
    /// Every place of a complete grid holds a colour: the place of column
    /// `x` in row `y` is an index into the colours.
    pub proof fn lemma_place_in_grid(self, x: int, y: int)
        requires
            self.wf(),
            0 <= x < self.columns(),
            0 <= y < self.rows(),
        ensures
            0 <= y * self.columns() + x < self@.len(),
    {
        let (width, height) = (self.columns() as int, self.rows() as int);
        assert(0 <= y * width && y * width + width <= width * height) by (nonlinear_arith)
            requires
                0 <= y < height,
                0 < width,
        ;
    }
}

impl P3 {
    /// An image of the given size, white all over.
    pub fn new(width: usize, height: usize) -> (res: P3)
        requires
            width * height <= usize::MAX,
        ensures
            res.wf(),
            res.columns() == width,
            res.rows() == height,
            res@.len() == width * height,
            forall|i: int| 0 <= i < res@.len() ==> res@[i] == Vec3::unit_spec(),
    {
        let count: usize = width * height;
        let mut texels: Vec<Vec3> = Vec::with_capacity(count);
        let mut i: usize = 0;
        while i < count
            invariant
                i <= count,
                texels.len() == i,
                forall|j: int| 0 <= j < i ==> texels@[j] == Vec3::unit_spec(),
            decreases count - i,
        {
            texels.push(Vec3::unit());
            i = i + 1;
        }
        P3 { width, height, texels }
    }

    /// The number of columns.
    pub fn width(&self) -> (res: usize)
        ensures
            res == self.columns(),
    {
        self.width
    }

    /// The number of rows.
    pub fn height(&self) -> (res: usize)
        ensures
            res == self.rows(),
    {
        self.height
    }

    /// The colour in column `x` of row `y`.
    pub fn color_at(&self, x: usize, y: usize) -> (res: Vec3)
        requires
            self.wf(),
            x < self.columns(),
            y < self.rows(),
        ensures
            res == self.pixel(x as int, y as int),
    {
        proof {
            self.lemma_place_in_grid(x as int, y as int);
            assert(y * self.width + x < self.texels.len());
        }
        self.texels[y * self.width + x]
    }

    /// Puts `color` in column `x` of row `y` and leaves the rest as it is.
    pub fn set_color_at(&mut self, x: usize, y: usize, color: Vec3)
        requires
            old(self).wf(),
            x < old(self).columns(),
            y < old(self).rows(),
        ensures
            final(self).wf(),
            final(self).columns() == old(self).columns(),
            final(self).rows() == old(self).rows(),
            final(self)@ == old(self)@.update(y * old(self).columns() + x, color),
            final(self).pixel(x as int, y as int) == color,
    {
        proof {
            self.lemma_place_in_grid(x as int, y as int);
            assert(y * self.width + x < self.texels.len());
        }
        let place: usize = y * self.width + x;
        self.texels.set(place, color);
    }
}

impl P3 {
    /// Two places of a grid share an index only where they are the same
    /// place.
    pub proof fn lemma_places_differ(self, x: int, y: int, x2: int, y2: int)
        requires
            0 <= x < self.columns(),
            0 <= x2 < self.columns(),
            0 <= y,
            0 <= y2,
            y * self.columns() + x == y2 * self.columns() + x2,
        ensures
            x == x2,
            y == y2,
    {
        let width = self.columns() as int;
        assert(y == y2) by (nonlinear_arith)
            requires
                0 <= x < width,
                0 <= x2 < width,
                y * width + x == y2 * width + x2,
        ;
    }

    /// What `set_color_at` does to each place: a colour that is read at
    /// the place where one was written is the colour written, and a
    /// colour that is read at any other place is the one that was there.
    pub proof fn lemma_set_then_get(self, after: P3, x: int, y: int, color: Vec3, x2: int, y2: int)
        requires
            self.wf(),
            0 <= x < self.columns(),
            0 <= y < self.rows(),
            0 <= x2 < self.columns(),
            0 <= y2 < self.rows(),
            after.columns() == self.columns(),
            after@ == self@.update(y * self.columns() + x, color),
        ensures
            after.pixel(x2, y2) == if x2 == x && y2 == y {
                color
            } else {
                self.pixel(x2, y2)
            },
    {
        self.lemma_place_in_grid(x, y);
        self.lemma_place_in_grid(x2, y2);
        if y * self.columns() + x == y2 * self.columns() + x2 {
            self.lemma_places_differ(x, y, x2, y2);
        }
    }
}

/// The whole number of 255ths that the channel `c` is written as.
pub fn channel_of(c: Fixed) -> (res: i64)
    ensures
        res == channel(c),
        -600_000_000 < res < 600_000_000,
{
    let n: i64 = c.raw() as i64 * 255;
    if n >= 0 {
        (n + 99_999) / 100_000
    } else {
        -((-n) / 100_000)
    }
}

/// Writes the three channels of `c` at the end of `out`, each followed by
/// a space.
fn append_texel(out: &mut String, c: Vec3)
    ensures
        final(out)@ == old(out)@ + texel_text(c),
{
    proof {
        reveal_strlit(" ");
    }
    append_signed(out, channel_of(c.r()));
    out.append(" ");
    append_signed(out, channel_of(c.g()));
    out.append(" ");
    append_signed(out, channel_of(c.b()));
    out.append(" ");
    assert(out@ =~= old(out)@ + texel_text(c));
}

impl P3 {
    /// The image in the plain pixmap format: the lines `P3`, width and
    /// height, and `255`, then one line for each row from the top one
    /// down, with the three channels of each colour in 255ths, rounded up.
    pub fn to_string(&self) -> (res: String)
        requires
            self.wf(),
        ensures
            res@ == self.text(),
    {
        let mut out = String::new();
        proof {
            reveal_strlit("P3\n");
            reveal_strlit(" ");
            reveal_strlit("\n255\n");
        }
        out.append("P3\n");
        append_decimal(&mut out, self.width as u64);
        out.append(" ");
        append_decimal(&mut out, self.height as u64);
        out.append("\n255\n");
        assert(out@ =~= header_text(self.columns(), self.rows()));
        let mut k: usize = 0;
        while k < self.height
            invariant
                self.wf(),
                k <= self.height,
                out@ == header_text(self.columns(), self.rows()) + self.rows_text(k as nat),
            decreases self.height - k,
        {
            let y: usize = self.height - 1 - k;
            let ghost before = out@;
            let mut x: usize = 0;
            while x < self.width
                invariant
                    self.wf(),
                    y < self.height,
                    x <= self.width,
                    out@ == before + self.row_text(y as int, x as nat),
                decreases self.width - x,
            {
                append_texel(&mut out, self.color_at(x, y));
                x = x + 1;
                assert(out@ =~= before + self.row_text(y as int, x as nat));
            }
            proof {
                reveal_strlit("\n");
            }
            out.append("\n");
            k = k + 1;
            assert(self.rows_text(k as nat) == self.rows_text((k - 1) as nat) + self.row_text(
                self.rows() - k,
                self.columns() as nat,
            ).push('\n'));
            assert(out@ =~= header_text(self.columns(), self.rows()) + self.rows_text(k as nat));
        }
        out
    }
}

} // verus!
