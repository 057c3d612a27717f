use crate::hex::{decode_hex_pairs, decode_pairs, hex_digits, is_hex_digit, is_hex_digit_char, keep_hex_digits, lemma_hex_digits_are_digits};
use crate::paint::{at_most, filled, filled_row, fit_row, fit_rows, lemma_resized_grid, push_range, resized, PaintOutput, Painter};
use crate::terminal::{Key, Size};
use vstd::prelude::*;

verus! {

/// The text in front of the input line.
pub open spec fn prompt() -> Seq<char> {
    seq![' ', 'I', 'n', 'p', 'u', 't', ':', ' ', '│', ' ']
}

/// The characters that the input line takes: hex digits and spaces.
pub open spec fn accepts(c: char) -> bool {
    is_hex_digit(c) || c == ' '
}

/// What the input line holds: its characters, the cursor (an index between characters,
/// `0..=chars.len()`) and the index of the first character shown.
pub struct InputView {
    pub chars: Seq<char>,
    pub cursor: nat,
    pub scroll: nat,
}

/// The empty input line.
pub open spec fn empty_input() -> InputView {
    InputView { chars: Seq::empty(), cursor: 0, scroll: 0 }
}

/// How many characters of the buffer fit on a line `width` wide, beside the prompt and
/// the cell that the cursor stands on after the last character.
pub open spec fn visible_width(width: nat) -> nat {
    if width > prompt().len() + 1 {
        (width - prompt().len() - 1) as nat
    } else {
        0
    }
}

/// The first character shown when `visible` characters fit: the scroll offset, moved
/// right just as far as needed for the cursor to stay on screen, and moved back left
/// where that leaves room at the end, so that the line never shows less than fits.
pub open spec fn window_start(v: InputView, visible: nat) -> nat {
    let follow = if v.cursor > v.scroll + visible {
        (v.cursor - visible) as nat
    } else {
        v.scroll
    };
    let last = if v.chars.len() > visible {
        (v.chars.len() - visible) as nat
    } else {
        0
    };
    if follow > last {
        last
    } else {
        follow
    }
}

/// The input line is consistent: the scroll offset never passes the cursor, the cursor
/// never passes the end, and the buffer holds only hex digits and spaces.
pub open spec fn valid(v: InputView) -> bool {
    &&& v.scroll <= v.cursor <= v.chars.len()
    &&& forall|i: int| 0 <= i < v.chars.len() ==> accepts(#[trigger] v.chars[i])
}

/// The characters of the buffer shown on a line `width` wide.
pub open spec fn shown_chars(v: InputView, width: nat) -> Seq<char> {
    let start = window_start(v, visible_width(width));
    let end = if start + visible_width(width) < v.chars.len() {
        start + visible_width(width)
    } else {
        v.chars.len()
    };
    v.chars.subrange(start as int, end as int)
}

/// The screen column of the cursor on a line `width` wide: the prompt's width, plus the
/// cursor's place among the shown characters, less one.
pub open spec fn cursor_column(v: InputView, width: nat) -> nat {
    (prompt().len() + v.cursor - window_start(v, visible_width(width)) - 1) as nat
}

/// The divider above the input line.
pub open spec fn input_divider(width: nat) -> Seq<char> {
    resized(seq!['─', '─', '─', '─', '─', '─', '─', '─', '┼'], width, '─')
}

/// The rows of the input region: the divider, then the prompt and the shown characters.
pub open spec fn input_rows(v: InputView, size: Size) -> Seq<Seq<char>> {
    resized(
        seq![
            input_divider(size.width as nat),
            resized(prompt() + shown_chars(v, size.width as nat), size.width as nat, ' '),
        ],
        size.height as nat,
        filled(' ', size.width as nat),
    )
}

/// The input line after `key`, and whether it changed in a way that needs a repaint.
pub open spec fn key_step(v: InputView, key: Key) -> (InputView, bool) {
    match key {
        Key::Char(c) => if accepts(c) {
            (InputView { chars: v.chars.insert(v.cursor as int, c), cursor: v.cursor + 1, scroll: v.scroll }, true)
        } else {
            (v, false)
        },
        Key::Backspace => if v.cursor > 0 {
            let cursor = (v.cursor - 1) as nat;
            (InputView {
                chars: v.chars.remove(cursor as int),
                cursor,
                scroll: if v.scroll < cursor { v.scroll } else { cursor },
            }, true)
        } else {
            (v, false)
        },
        Key::Left => if v.cursor > 0 {
            let cursor = (v.cursor - 1) as nat;
            (InputView { chars: v.chars, cursor, scroll: if v.scroll < cursor { v.scroll } else { cursor } }, true)
        } else {
            (v, false)
        },
        Key::Right => if v.cursor < v.chars.len() {
            (InputView { chars: v.chars, cursor: v.cursor + 1, scroll: v.scroll }, true)
        } else {
            (v, false)
        },
        Key::Home => (InputView { chars: v.chars, cursor: 0, scroll: 0 }, true),
        Key::End => (InputView { chars: v.chars, cursor: v.chars.len(), scroll: v.scroll }, true),
        _ => (v, false),
    }
}

/// Backspace on an empty line changes nothing and asks for no repaint; Home always
/// brings the cursor and the scroll offset back to the start, keeping the characters.
pub proof fn lemma_backspace_empty_and_home(v: InputView)
    requires
        valid(v),
    ensures
        v.chars.len() == 0 ==> key_step(v, Key::Backspace) == (v, false),
        key_step(v, Key::Home).0 == (InputView { chars: v.chars, cursor: 0, scroll: 0 }),
{
}

/// With the cursor at the end of the line, the line shows the last characters that fit,
/// and the cursor stands at the prompt's width plus the number shown, less one.
pub proof fn lemma_cursor_at_end(v: InputView, width: nat)
    requires
        valid(v),
        v.cursor == v.chars.len(),
    ensures
        shown_chars(v, width) == v.chars.subrange(
            v.chars.len() - at_most(v.chars.len(), visible_width(width)),
            v.chars.len() as int,
        ),
        cursor_column(v, width) == prompt().len() + at_most(v.chars.len(), visible_width(width)) - 1,
{
}

/// The single-line editor for hex input.
pub struct Input {
    input: Vec<char>,
    cursor: usize,
    scroll: usize,
    prompt: Vec<char>,
}

impl View for Input {
    type V = InputView;

    closed spec fn view(&self) -> InputView {
        InputView { chars: self.input@, cursor: self.cursor as nat, scroll: self.scroll as nat }
    }
}

impl Input {
    /// The scroll offset never passes the cursor, the cursor never passes the end, and
    /// the buffer holds only hex digits and spaces.
    pub closed spec fn wf(&self) -> bool {
        &&& self.scroll <= self.cursor <= self.input.len()
        &&& self.prompt@ == prompt()
        &&& forall|i: int| 0 <= i < self.input.len() ==> accepts(#[trigger] self.input@[i])
    }

    /// A well-formed input line has a consistent view.
    pub proof fn lemma_valid(&self)
        requires
            self.wf(),
        ensures
            valid(self@),
    {
    }

    /// An empty input line.
    pub fn new() -> (r: Self)
        ensures
            r.wf(),
            r@ == empty_input(),
    {
        let text = vec![' ', 'I', 'n', 'p', 'u', 't', ':', ' ', '│', ' '];
        let r = Self { input: Vec::new(), cursor: 0, scroll: 0, prompt: text };
        assert(r@ =~= empty_input());
        assert(r.prompt@ =~= prompt());
        r
    }

    /// Takes the message typed so far. The spaces are dropped; an odd number of digits
    /// is refused and leaves the line as it was; an even number is decoded, two digits
    /// to a byte with the first as the high nibble, and the line is emptied.
    pub fn drain_user_message(&mut self) -> (r: Option<Vec<u8>>)
        requires
            old(self).wf(),
        ensures
            final(self).wf(),
            hex_digits(old(self)@.chars).len() % 2 == 0 ==> {
                &&& r is Some
                &&& r->0@ == decode_pairs(hex_digits(old(self)@.chars))
                &&& final(self)@ == empty_input()
            },
            hex_digits(old(self)@.chars).len() % 2 != 0 ==> {
                &&& r is None
                &&& final(self)@ == old(self)@
            },
    {
        let digits = keep_hex_digits(&self.input);
        if digits.len() % 2 != 0 {
            return None;
        }
        proof {
            lemma_hex_digits_are_digits(self.input@);
        }
        let bytes = decode_hex_pairs(&digits);
        self.input.clear();
        self.cursor = 0;
        self.scroll = 0;
        assert(self@ =~= empty_input());
        Some(bytes)
    }

    /// Applies a key; returns whether the line needs a repaint.
    pub fn handle_key(&mut self, key: Key) -> (r: bool)
        requires
            old(self).wf(),
        ensures
            final(self).wf(),
            (final(self)@, r) == key_step(old(self)@, key),
    {
        let ghost v = self@;
        match key {
            Key::Char(c) => {
                if is_hex_digit_char(c) || c == ' ' {
                    self.input.insert(self.cursor, c);
                    assert(self.input.len() == v.chars.len() + 1);
                    self.cursor = self.cursor + 1;
                    assert(self@ =~= key_step(v, key).0);
                    true
                } else {
                    false
                }
            },
            Key::Backspace => {
                if self.cursor > 0 {
                    self.cursor = self.cursor - 1;
                    self.input.remove(self.cursor);
                    if self.scroll > self.cursor {
                        self.scroll = self.cursor;
                    }
                    assert(self@ =~= key_step(v, key).0);
                    true
                } else {
                    false
                }
            },
            Key::Left => {
                if self.cursor > 0 {
                    self.cursor = self.cursor - 1;
                    if self.scroll > self.cursor {
                        self.scroll = self.cursor;
                    }
                    true
                } else {
                    false
                }
            },
            Key::Right => {
                if self.cursor < self.input.len() {
                    self.cursor = self.cursor + 1;
                    true
                } else {
                    false
                }
            },
            Key::Home => {
                self.cursor = 0;
                self.scroll = 0;
                true
            },
            Key::End => {
                self.cursor = self.input.len();
                true
            },
            _ => false,
        }
    }
}

impl Input {
    /// The characters typed so far.
    pub fn text(&self) -> (r: Vec<char>)
        ensures
            r@ == self@.chars,
    {
        let mut r: Vec<char> = Vec::new();
        push_range(&mut r, &self.input, 0, self.input.len());
        assert(self.input@.subrange(0, self.input.len() as int) =~= self.input@);
        r
    }

    /// The cursor, as an index between characters.
    pub fn cursor(&self) -> (r: usize)
        ensures
            r == self@.cursor,
    {
        self.cursor
    }

    /// The index of the first character shown.
    pub fn scroll(&self) -> (r: usize)
        ensures
            r == self@.scroll,
    {
        self.scroll
    }

    /// How many buffer characters fit beside the prompt on a line `width` wide.
    fn visible(&self, width: usize) -> (r: usize)
        requires
            self.wf(),
        ensures
            r == visible_width(width as nat),
    {
        if width > self.prompt.len() + 1 {
            width - self.prompt.len() - 1
        } else {
            0
        }
    }

    /// The first character shown when `visible` characters fit.
    fn start(&self, visible: usize) -> (r: usize)
        requires
            self.wf(),
        ensures
            r == window_start(self@, visible as nat),
            r <= self@.cursor,
    {
        let follow = if self.cursor - self.scroll > visible {
            self.cursor - visible
        } else {
            self.scroll
        };
        let last = if self.input.len() > visible {
            self.input.len() - visible
        } else {
            0
        };
        if follow > last {
            last
        } else {
            follow
        }
    }

    /// The screen column of the cursor on a terminal `terminal_width` wide (at most `u16::MAX`).
    pub fn get_cursor_x_position(&self, terminal_width: usize) -> (r: u16)
        requires
            self.wf(),
        ensures
            r == (if cursor_column(self@, terminal_width as nat) <= u16::MAX {
                cursor_column(self@, terminal_width as nat)
            } else {
                u16::MAX as nat
            }),
    {
        let start = self.start(self.visible(terminal_width));
        let offset = self.cursor - start;
        if offset > 65536 - self.prompt.len() {
            u16::MAX
        } else {
            (self.prompt.len() + offset - 1) as u16
        }
    }

    /// Keeps the window where it stands on a terminal `terminal_width` wide, so that
    /// later cursor moves to the left scroll only once the cursor leaves it. Nothing
    /// painted changes.
    pub fn scroll_into_view(&mut self, terminal_width: usize)
        requires
            old(self).wf(),
        ensures
            final(self).wf(),
            final(self)@ == (InputView {
                scroll: window_start(old(self)@, visible_width(terminal_width as nat)),
                ..old(self)@
            }),
            forall|size: Size| size.width == terminal_width ==>
                input_rows(#[trigger] final(self)@, size) == input_rows(old(self)@, size),
            cursor_column(final(self)@, terminal_width as nat) == cursor_column(old(self)@, terminal_width as nat),
    {
        let start = self.start(self.visible(terminal_width));
        self.scroll = start;
    }
}

impl Painter for Input {
    open spec fn inv(&self) -> bool {
        self.wf()
    }

    open spec fn rows(&self, size: Size) -> Seq<Seq<char>> {
        input_rows(self@, size)
    }

    fn paint(&self, size: Size) -> (r: PaintOutput) {
        let mut output: PaintOutput = Vec::new();
        let mut divider = vec!['─', '─', '─', '─', '─', '─', '─', '─', '┼'];
        fit_row(&mut divider, size.width, '─');
        let visible = self.visible(size.width);
        let start = self.start(visible);
        let end = if visible < self.input.len() - start {
            start + visible
        } else {
            self.input.len()
        };
        let mut line: Vec<char> = Vec::new();
        push_range(&mut line, &self.prompt, 0, self.prompt.len());
        push_range(&mut line, &self.input, start, end);
        fit_row(&mut line, size.width, ' ');
        proof {
            assert(self.prompt@.subrange(0, self.prompt.len() as int) =~= prompt());
            assert(divider@ == input_divider(size.width as nat));
            assert(line@ == resized(prompt() + shown_chars(self@, size.width as nat), size.width as nat, ' '));
        }
        let ghost d = divider@;
        let ghost l = line@;
        assert(divider.deep_view() =~= d);
        assert(line.deep_view() =~= l);
        output.push(divider);
        output.push(line);
        let ghost two = output.deep_view();
        assert(two =~= seq![d, l]);
        let blank = filled_row(' ', size.width);
        fit_rows(&mut output, size.height, &blank);
        proof {
            assert(two =~= seq![
                input_divider(size.width as nat),
                resized(prompt() + shown_chars(self@, size.width as nat), size.width as nat, ' '),
            ]);
            lemma_resized_grid(two, blank@, size);
        }
        output
    }
}

} // verus!
