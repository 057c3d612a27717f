use crate::error::AppError;
use crate::hex::{decode_pairs, hex_digits};
use crate::input::{cursor_column, empty_input, input_rows, key_step, valid, visible_width, window_start, Input, InputView};
use crate::messages::{log_rows, Message, MessageOrigin, Messages};
use crate::paint::{copy_row, PaintOutput, Painter};
use crate::terminal::{Key, Position, Size};
use crate::title::{title_rows, Title, TitleView};
use vstd::prelude::*;

verus! {

/// What a poll of a channel found.
pub enum ChannelPoll<T> {
    /// Nothing was waiting.
    Empty,
    /// The next value sent.
    Value(T),
    /// The sending side is gone.
    Disconnected,
}

/// What the event loop is to do after a tick.
pub struct Tick {
    /// The screen must be painted again.
    pub redraw: bool,
    /// Bytes to write to the connection.
    pub send: Option<Vec<u8>>,
}

/// A row to write at a place on the screen.
pub struct Blit {
    pub at: Position,
    pub row: Vec<char>,
}

/// Everything one repaint writes: the rows in order, then where the cursor goes.
pub struct Frame {
    pub blits: Vec<Blit>,
    pub cursor: Position,
}

/// The state of the interface: the title, the log, the input line, and whether the
/// user asked to quit.
pub struct WindowView {
    pub title: TitleView,
    pub log: Seq<Message>,
    pub input: InputView,
    pub quit: bool,
}

/// `n - k`, or 0 where `k` is larger.
pub open spec fn minus(n: nat, k: nat) -> nat {
    if n >= k {
        (n - k) as nat
    } else {
        0
    }
}

/// The title region: the top two rows.
pub open spec fn title_size(size: Size) -> Size {
    Size { width: size.width, height: 2 }
}

/// The log region: from the third row, all but four rows of the screen.
pub open spec fn log_size(size: Size) -> Size {
    Size { width: size.width, height: minus(size.height as nat, 4) as usize }
}

/// The input region: two rows, starting three rows from the bottom.
pub open spec fn input_size(size: Size) -> Size {
    Size { width: size.width, height: 2 }
}

/// The first row of the input region.
pub open spec fn input_top(size: Size) -> nat {
    minus(size.height as nat, 3)
}

/// `rows` placed one under the other, the first at row `y` in the leftmost column.
pub open spec fn placed(rows: Seq<Seq<char>>, y: nat) -> Seq<(Position, Seq<char>)> {
    Seq::new(rows.len(), |i: int| (Position { x: 0, y: (y + i) as usize }, rows[i]))
}

/// The rows of a repaint of `v` on a screen of `size`: title, log, then input.
pub open spec fn frame_rows(v: WindowView, size: Size) -> Seq<(Position, Seq<char>)> {
    placed(title_rows(v.title.host, v.title.port, title_size(size)), 0)
        + placed(log_rows(v.log, log_size(size)), 2)
        + placed(input_rows(v.input, input_size(size)), input_top(size))
}

/// Where the cursor stands after a repaint: on the input line, after what is typed.
pub open spec fn frame_cursor(v: InputView, size: Size) -> Position {
    let column = cursor_column(v, size.width as nat);
    Position {
        x: if column <= u16::MAX { column as usize } else { u16::MAX as usize },
        y: minus(size.height as nat, 2) as usize,
    }
}

/// The log with a message received from the peer.
pub open spec fn message_step(v: WindowView, bytes: Seq<u8>) -> WindowView {
    WindowView { log: v.log.push(Message { local: false, payload: bytes }), ..v }
}

/// The state after a key, whether it needs a repaint, and the bytes to send if any.
/// Ctrl-C asks to quit; Enter commits the input line, which is logged as sent when it
/// decodes; every other key goes to the input line.
pub open spec fn key_outcome(v: WindowView, key: Key) -> (WindowView, bool, Option<Seq<u8>>) {
    if key == Key::Ctrl('c') {
        (WindowView { quit: true, ..v }, false, None)
    } else if key == Key::Char('\n') {
        let digits = hex_digits(v.input.chars);
        if digits.len() % 2 == 0 {
            let bytes = decode_pairs(digits);
            (
                WindowView {
                    log: v.log.push(Message { local: true, payload: bytes }),
                    input: empty_input(),
                    ..v
                },
                true,
                Some(bytes),
            )
        } else {
            (v, false, None)
        }
    } else {
        (WindowView { input: key_step(v.input, key).0, ..v }, key_step(v.input, key).1, None)
    }
}

/// The bytes of an optional payload.
pub open spec fn payload_view(p: Option<Vec<u8>>) -> Option<Seq<u8>> {
    match p {
        Some(b) => Some(b@),
        None => None,
    }
}

/// The state after what a poll of the connection's channel found, where it was not closed.
pub open spec fn after_message(v: WindowView, poll: ChannelPoll<Vec<u8>>) -> WindowView {
    match poll {
        ChannelPoll::Value(bytes) => message_step(v, bytes@),
        _ => v,
    }
}

/// The rows of a frame, with their places.
pub open spec fn blits_view(blits: Seq<Blit>) -> Seq<(Position, Seq<char>)> {
    blits.map_values(|b: Blit| (b.at, b.row@))
}

/// Appends `rows` to `out`, placed one under the other from row `y`.
fn place(out: &mut Vec<Blit>, rows: &PaintOutput, y: usize)
    requires
        y + rows.len() <= usize::MAX,
    ensures
        blits_view(final(out)@) == blits_view(old(out)@) + placed(rows.deep_view(), y as nat),
{
    let ghost start = blits_view(out@);
    let mut i: usize = 0;
    while i < rows.len()
        invariant
            y + rows.len() <= usize::MAX,
            i <= rows.len(),
            blits_view(out@) == start + placed(rows.deep_view(), y as nat).take(i as int),
        decreases rows.len() - i,
    {
        let row = copy_row(&rows[i]);
        assert(rows.deep_view()[i as int] =~= rows@[i as int]@);
        let ghost before = out@;
        out.push(Blit { at: Position { x: 0, y: y + i }, row });
        assert(blits_view(out@) =~= blits_view(before).push((Position { x: 0, y: (y + i) as usize }, row@)));
        i = i + 1;
        assert(blits_view(out@) =~= start + placed(rows.deep_view(), y as nat).take(i as int));
    }
    assert(placed(rows.deep_view(), y as nat).take(i as int) =~= placed(rows.deep_view(), y as nat));
}

/// The whole interface: the three regions and the quit request.
pub struct Window {
    title: Title,
    messages: Messages,
    input: Input,
    should_quit: bool,
}

impl View for Window {
    type V = WindowView;

    closed spec fn view(&self) -> WindowView {
        WindowView { title: self.title@, log: self.messages@, input: self.input@, quit: self.should_quit }
    }
}

impl Window {
    /// The input line is consistent.
    pub closed spec fn wf(&self) -> bool {
        self.input.wf()
    }

    /// A well-formed interface has a consistent input line.
    pub proof fn lemma_valid(&self)
        requires
            self.wf(),
        ensures
            valid(self@.input),
    {
        self.input.lemma_valid();
    }

    /// A fresh interface for a peer at `host` on `port`: an empty log and input line.
    pub fn new(host: &str, port: u16) -> (r: Self)
        ensures
            r.wf(),
            r@ == (WindowView {
                title: TitleView { host: host@, port: port as nat },
                log: Seq::empty(),
                input: empty_input(),
                quit: false,
            }),
    {
        let r = Self { title: Title::new(host, port), messages: Messages::new(), input: Input::new(), should_quit: false };
        r
    }

    /// Whether the user asked to quit.
    pub fn should_quit(&self) -> (r: bool)
        ensures
            r == self@.quit,
    {
        self.should_quit
    }

    /// Takes what a poll of the connection's channel found: a message is logged as
    /// received and asks for a repaint; a closed channel is fatal.
    pub fn receive_message(&mut self, poll: ChannelPoll<Vec<u8>>) -> (r: Result<bool, AppError>)
        requires
            old(self).wf(),
        ensures
            final(self).wf(),
            match poll {
                ChannelPoll::Empty => r == Ok::<bool, AppError>(false) && final(self)@ == old(self)@,
                ChannelPoll::Value(bytes) => r == Ok::<bool, AppError>(true) && final(self)@ == message_step(
                    old(self)@,
                    bytes@,
                ),
                ChannelPoll::Disconnected => r == Err::<bool, AppError>(AppError::ChannelBroken)
                    && final(self)@ == old(self)@,
            },
    {
        match poll {
            ChannelPoll::Empty => Ok(false),
            ChannelPoll::Value(bytes) => {
                self.messages.handle_message(MessageOrigin::Remote(bytes));
                Ok(true)
            },
            ChannelPoll::Disconnected => Err(AppError::ChannelBroken),
        }
    }

    /// Takes what a poll of the keyboard's channel found: the key is applied as
    /// `key_outcome` says; a closed channel is fatal.
    pub fn receive_key(&mut self, poll: ChannelPoll<Key>) -> (r: Result<Tick, AppError>)
        requires
            old(self).wf(),
        ensures
            final(self).wf(),
            match poll {
                ChannelPoll::Empty => r matches Ok(t) && !t.redraw && t.send is None && final(self)@ == old(
                    self,
                )@,
                ChannelPoll::Value(key) => r matches Ok(t) && (final(self)@, t.redraw, payload_view(t.send))
                    == key_outcome(old(self)@, key),
                ChannelPoll::Disconnected => r == Err::<Tick, AppError>(AppError::ChannelBroken)
                    && final(self)@ == old(self)@,
            },
    {
        match poll {
            ChannelPoll::Empty => Ok(Tick { redraw: false, send: None }),
            ChannelPoll::Value(key) => {
                if key == Key::Ctrl('c') {
                    self.should_quit = true;
                    Ok(Tick { redraw: false, send: None })
                } else if key == Key::Char('\n') {
                    match self.input.drain_user_message() {
                        Some(bytes) => {
                            let copy = bytes.clone();
                            assert(copy@ =~= bytes@);
                            self.messages.handle_message(MessageOrigin::Local(copy));
                            Ok(Tick { redraw: true, send: Some(bytes) })
                        },
                        None => Ok(Tick { redraw: false, send: None }),
                    }
                } else {
                    let redraw = self.input.handle_key(key);
                    Ok(Tick { redraw, send: None })
                }
            },
            ChannelPoll::Disconnected => Err(AppError::ChannelBroken),
        }
    }

    /// One tick of the event loop: first what the connection's channel gave, then what
    /// the keyboard's gave. A closed channel is fatal. A repaint is due when either
    /// changed the screen.
    pub fn tick(&mut self, message: ChannelPoll<Vec<u8>>, key: ChannelPoll<Key>) -> (r: Result<Tick, AppError>)
        requires
            old(self).wf(),
        ensures
            final(self).wf(),
            message is Disconnected ==> r == Err::<Tick, AppError>(AppError::ChannelBroken)
                && final(self)@ == old(self)@,
            !(message is Disconnected) ==> {
                let mid = after_message(old(self)@, message);
                match key {
                    ChannelPoll::Empty => r matches Ok(t) && t.redraw == (message is Value) && t.send is None
                        && final(self)@ == mid,
                    ChannelPoll::Value(k) => r matches Ok(t) && final(self)@ == key_outcome(mid, k).0 && t.redraw
                        == (message is Value || key_outcome(mid, k).1) && payload_view(t.send) == key_outcome(
                        mid,
                        k,
                    ).2,
                    ChannelPoll::Disconnected => r == Err::<Tick, AppError>(AppError::ChannelBroken)
                        && final(self)@ == mid,
                }
            },
    {
        let got_message = match self.receive_message(message) {
            Ok(got) => got,
            Err(e) => {
                return Err(e);
            },
        };
        match self.receive_key(key) {
            Ok(t) => Ok(Tick { redraw: got_message || t.redraw, send: t.send }),
            Err(e) => Err(e),
        }
    }

    /// Keeps the input line's window where it stands on a screen `width` wide, so that
    /// later cursor moves to the left scroll only once the cursor leaves it. Nothing that
    /// a repaint draws changes.
    pub fn scroll_input_into_view(&mut self, width: usize)
        requires
            old(self).wf(),
        ensures
            final(self).wf(),
            final(self)@ == (WindowView {
                input: InputView {
                    scroll: window_start(old(self)@.input, visible_width(width as nat)),
                    ..old(self)@.input
                },
                ..old(self)@
            }),
            forall|size: Size| size.width == width ==> frame_rows(#[trigger] final(self)@, size) == frame_rows(
                old(self)@,
                size,
            ) && frame_cursor(final(self)@.input, size) == frame_cursor(old(self)@.input, size),
    {
        self.input.scroll_into_view(width);
    }

    /// Lays the interface out on a screen of `size`: the title on the top two rows, the
    /// log below it, and the input region three rows from the bottom, with the cursor on
    /// the input line. The state is only read.
    pub fn compose(&self, size: Size) -> (r: Frame)
        requires
            self.wf(),
        ensures
            blits_view(r.blits@) == frame_rows(self@, size),
            r.cursor == frame_cursor(self@.input, size),
    {
        let ghost v = self@;
        let mut blits: Vec<Blit> = Vec::new();
        let title = self.title.paint(Size { width: size.width, height: 2 });
        place(&mut blits, &title, 0);
        let log_height: usize = if size.height >= 4 { size.height - 4 } else { 0 };
        let log = self.messages.paint(Size { width: size.width, height: log_height });
        place(&mut blits, &log, 2);
        let top: usize = if size.height >= 3 { size.height - 3 } else { 0 };
        let input = self.input.paint(Size { width: size.width, height: 2 });
        place(&mut blits, &input, top);
        let column = self.input.get_cursor_x_position(size.width);
        let row: usize = if size.height >= 2 { size.height - 2 } else { 0 };
        proof {
            assert(blits_view(blits@) =~= frame_rows(v, size));
        }
        Frame { blits, cursor: Position { x: column as usize, y: row } }
    }
}

} // verus!
