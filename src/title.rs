use crate::paint::{filled, filled_row, fit_row, fit_rows, lemma_resized_grid, push_range, push_str, resized, PaintOutput, Painter};
use crate::terminal::Size;
use vstd::prelude::*;

verus! {

/// The decimal digit for a value below 10 (48 is the code of `0`).
pub open spec fn decimal_digit(n: nat) -> char {
    ((n + 48) as u8) as char
}

/// `n` written in decimal, without leading zeros.
pub open spec fn decimal(n: nat) -> Seq<char>
    decreases n,
{
    if n < 10 {
        seq![decimal_digit(n)]
    } else {
        decimal(n / 10).push(decimal_digit(n % 10))
    }
}

/// The banner naming the peer.
pub open spec fn banner(host: Seq<char>, port: nat) -> Seq<char> {
    "HexCat. Connected to "@ + host + " (on port "@ + decimal(port) + ")."@
}

/// The divider under the banner.
pub open spec fn title_divider(width: nat) -> Seq<char> {
    resized(seq!['─', '─', '─', '─', '─', '─', '─', '─', '┬'], width, '─')
}

/// The rows of the title region: the banner, the divider, then blank rows.
pub open spec fn title_rows(host: Seq<char>, port: nat, size: Size) -> Seq<Seq<char>> {
    resized(
        seq![resized(banner(host, port), size.width as nat, ' '), title_divider(size.width as nat)],
        size.height as nat,
        filled(' ', size.width as nat),
    )
}

/// Appends `n` in decimal to `out`.
pub fn push_decimal(out: &mut Vec<char>, n: u16)
    ensures
        final(out)@ == old(out)@ + decimal(n as nat),
    decreases n,
{
    if n >= 10 {
        push_decimal(out, n / 10);
    }
    out.push(((n % 10) as u8 + 48) as char);
    assert(out@ =~= old(out)@ + decimal(n as nat));
}

/// The title bar, naming the peer that the program is connected to.
pub struct Title {
    host: Vec<char>,
    port: u16,
}

/// The address of the peer: its host as text, and its port.
pub struct TitleView {
    pub host: Seq<char>,
    pub port: nat,
}

impl View for Title {
    type V = TitleView;

    closed spec fn view(&self) -> TitleView {
        TitleView { host: self.host@, port: self.port as nat }
    }
}

impl Title {
    /// The title for a peer at `host`, on `port`.
    pub fn new(host: &str, port: u16) -> (r: Self)
        ensures
            r@ == (TitleView { host: host@, port: port as nat }),
    {
        let mut text: Vec<char> = Vec::new();
        push_str(&mut text, host);
        assert(text@ =~= host@);
        Self { host: text, port }
    }
}

impl Painter for Title {
    open spec fn inv(&self) -> bool {
        true
    }

    open spec fn rows(&self, size: Size) -> Seq<Seq<char>> {
        title_rows(self@.host, self@.port, size)
    }

    fn paint(&self, size: Size) -> (r: PaintOutput) {
        let mut line: Vec<char> = Vec::new();
        push_str(&mut line, "HexCat. Connected to ");
        push_range(&mut line, &self.host, 0, self.host.len());
        push_str(&mut line, " (on port ");
        push_decimal(&mut line, self.port);
        push_str(&mut line, ").");
        proof {
            assert(self.host@.subrange(0, self.host.len() as int) =~= self.host@);
            assert(line@ =~= banner(self@.host, self@.port));
        }
        fit_row(&mut line, size.width, ' ');
        let mut divider = vec!['─', '─', '─', '─', '─', '─', '─', '─', '┬'];
        fit_row(&mut divider, size.width, '─');
        let ghost l = line@;
        let ghost d = divider@;
        assert(line.deep_view() =~= l);
        assert(divider.deep_view() =~= d);
        let mut output: PaintOutput = Vec::new();
        output.push(line);
        output.push(divider);
        let ghost two = output.deep_view();
        assert(two =~= seq![l, d]);
        let blank = filled_row(' ', size.width);
        fit_rows(&mut output, size.height, &blank);
        proof {
            assert(d == title_divider(size.width as nat));
            lemma_resized_grid(two, blank@, size);
        }
        output
    }
}

} // verus!
