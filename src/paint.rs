use crate::terminal::Size;
use vstd::prelude::*;

verus! {

/// A painted region: one row of characters per screen line.
pub type PaintOutput = Vec<Vec<char>>;

/// `s` cut or extended to exactly `n` items, extended with copies of `fill`.
pub open spec fn resized<A>(s: Seq<A>, n: nat, fill: A) -> Seq<A> {
    if s.len() >= n {
        s.take(n as int)
    } else {
        s + Seq::new((n - s.len()) as nat, |i: int| fill)
    }
}

/// `n` if it is at most `m`, else `m`.
pub open spec fn at_most(n: nat, m: nat) -> nat {
    if n <= m {
        n
    } else {
        m
    }
}

/// A row of `width` copies of `c`.
pub open spec fn filled(c: char, width: nat) -> Seq<char> {
    Seq::new(width, |i: int| c)
}

/// `rows` has exactly the height and width of `size`.
pub open spec fn is_grid(rows: Seq<Seq<char>>, size: Size) -> bool {
    &&& rows.len() == size.height
    &&& forall|i: int| 0 <= i < rows.len() ==> #[trigger] rows[i].len() == size.width
}

/// A region of the screen that can draw itself into a grid of any size.
pub trait Painter {
    /// The region's own consistency, which painting relies on.
    spec fn inv(&self) -> bool;

    /// The rows that the region shows at `size`.
    spec fn rows(&self, size: Size) -> Seq<Seq<char>>;

    /// Draws the region; the result is exactly `size.height` rows of `size.width` characters.
    fn paint(&self, size: Size) -> (r: PaintOutput)
        requires
            self.inv(),
        ensures
            r.deep_view() == self.rows(size),
            is_grid(r.deep_view(), size),
    ;
}

/// Rows of one width, cut or padded with a row of that width, keep that width.
pub proof fn lemma_resized_grid(rows: Seq<Seq<char>>, fill: Seq<char>, size: Size)
    requires
        forall|i: int| 0 <= i < rows.len() ==> #[trigger] rows[i].len() == size.width,
        fill.len() == size.width,
    ensures
        is_grid(resized(rows, size.height as nat, fill), size),
{
    let r = resized(rows, size.height as nat, fill);
    assert forall|i: int| 0 <= i < r.len() implies #[trigger] r[i].len() == size.width by {
        if i < rows.len() {
            assert(r[i] == rows[i]);
        }
    }
}

/// Appends `src[from..to]` to `out`.
pub fn push_range(out: &mut Vec<char>, src: &Vec<char>, from: usize, to: usize)
    requires
        from <= to <= src.len(),
    ensures
        final(out)@ == old(out)@ + src@.subrange(from as int, to as int),
{
    let ghost start = out@;
    let mut i: usize = from;
    while i < to
        invariant
            from <= i <= to <= src.len(),
            out@ == start + src@.subrange(from as int, i as int),
        decreases to - i,
    {
        out.push(src[i]);
        i = i + 1;
        assert(out@ =~= start + src@.subrange(from as int, i as int));
    }
}

/// A fresh row of `width` copies of `c`.
pub fn filled_row(c: char, width: usize) -> (r: Vec<char>)
    ensures
        r@ == filled(c, width as nat),
{
    let mut r: Vec<char> = Vec::new();
    while r.len() < width
        invariant
            r.len() <= width,
            forall|i: int| 0 <= i < r.len() ==> r@[i] == c,
        decreases width - r.len(),
    {
        r.push(c);
    }
    assert(r@ =~= filled(c, width as nat));
    r
}

/// Appends the characters of `s` to `out`.
pub fn push_str(out: &mut Vec<char>, s: &str)
    ensures
        final(out)@ == old(out)@ + s@,
{
    let ghost start = out@;
    let n = s.unicode_len();
    let mut i: usize = 0;
    while i < n
        invariant
            n == s@.len(),
            i <= n,
            out@ == start + s@.take(i as int),
        decreases n - i,
    {
        out.push(s.get_char(i));
        i = i + 1;
        assert(out@ =~= start + s@.take(i as int));
    }
    assert(s@.take(n as int) =~= s@);
}

/// Cuts `line` to `width` characters, or pads it with `fill` up to `width`.
pub fn fit_row(line: &mut Vec<char>, width: usize, fill: char)
    ensures
        final(line)@ == resized(old(line)@, width as nat, fill),
{
    if line.len() >= width {
        line.truncate(width);
    } else {
        let ghost start = line@;
        while line.len() < width
            invariant
                start.len() <= line.len() <= width,
                line@.take(start.len() as int) == start,
                forall|i: int| start.len() <= i < line.len() ==> line@[i] == fill,
            decreases width - line.len(),
        {
            line.push(fill);
            assert(line@.take(start.len() as int) =~= start);
        }
        assert(line@ =~= resized(start, width as nat, fill));
    }
}

/// A copy of `row`.
pub fn copy_row(row: &Vec<char>) -> (r: Vec<char>)
    ensures
        r@ == row@,
{
    let mut r: Vec<char> = Vec::new();
    push_range(&mut r, row, 0, row.len());
    assert(row@.subrange(0, row.len() as int) =~= row@);
    r
}

/// Cuts `rows` to `height` rows, or adds copies of `fill` up to `height`.
pub fn fit_rows(rows: &mut PaintOutput, height: usize, fill: &Vec<char>)
    ensures
        final(rows).deep_view() == resized(old(rows).deep_view(), height as nat, fill@),
{
    if rows.len() >= height {
        rows.truncate(height);
        assert(rows.deep_view() =~= resized(old(rows).deep_view(), height as nat, fill@));
    } else {
        let ghost start = rows.deep_view();
        while rows.len() < height
            invariant
                start.len() <= rows.len() <= height,
                rows.deep_view().take(start.len() as int) == start,
                forall|i: int| start.len() <= i < rows.len() ==> rows.deep_view()[i] == fill@,
            decreases height - rows.len(),
        {
            let row = copy_row(fill);
            let ghost before = rows.deep_view();
            assert(row.deep_view() =~= row@);
            rows.push(row);
            assert(rows.deep_view() =~= before.push(fill@));
            assert(rows.deep_view().take(start.len() as int) =~= start);
        }
        assert(rows.deep_view() =~= resized(start, height as nat, fill@));
    }
}

} // verus!
