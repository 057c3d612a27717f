use crate::hex::{hex_dump, push_hex_dump};
use crate::paint::{at_most, fit_row, fit_rows, is_grid, lemma_resized_grid, push_str, resized, PaintOutput, Painter};
use crate::terminal::Size;
use vstd::prelude::*;

verus! {

/// A message of the log: sent from here, or received from the peer.
pub enum MessageOrigin {
    Local(Vec<u8>),
    Remote(Vec<u8>),
}

/// What a message is: where it came from and its bytes.
pub struct Message {
    pub local: bool,
    pub payload: Seq<u8>,
}

impl View for MessageOrigin {
    type V = Message;

    open spec fn view(&self) -> Message {
        match self {
            MessageOrigin::Local(bytes) => Message { local: true, payload: bytes@ },
            MessageOrigin::Remote(bytes) => Message { local: false, payload: bytes@ },
        }
    }
}

/// The label in front of a message row.
pub open spec fn label(local: bool) -> Seq<char> {
    if local {
        "  LOCAL │ "@
    } else {
        " REMOTE │ "@
    }
}

/// How many characters of the hex dump fit on a row `width` wide, beside the label and
/// the trailing space.
pub open spec fn dump_width(width: nat) -> nat {
    if width > 11 {
        (width - 11) as nat
    } else {
        0
    }
}

/// The row of a message on a log `width` wide: the label, the hex dump cut to what fits,
/// a space, and padding up to exactly `width`.
pub open spec fn message_row(m: Message, width: nat) -> Seq<char> {
    let dump = hex_dump(m.payload);
    resized(
        label(m.local) + dump.take(at_most(dump_width(width), dump.len()) as int) + seq![' '],
        width,
        ' ',
    )
}

/// The row that stands for no message.
pub open spec fn empty_row(width: nat) -> Seq<char> {
    resized("        │"@, width, ' ')
}

/// How many of `n` messages a log `height` rows tall shows: one row is always left free.
pub open spec fn shown_count(n: nat, height: nat) -> nat {
    if height == 0 {
        0
    } else {
        at_most(n, (height - 1) as nat)
    }
}

/// The rows of the log: the newest messages that fit, oldest first, then empty rows.
pub open spec fn log_rows(log: Seq<Message>, size: Size) -> Seq<Seq<char>> {
    let k = shown_count(log.len(), size.height as nat);
    resized(
        log.subrange(log.len() - k, log.len() as int).map_values(|m: Message| message_row(m, size.width as nat)),
        size.height as nat,
        empty_row(size.width as nat),
    )
}

/// The log paints exactly `size.height` rows of exactly `size.width` characters, whatever
/// the number of messages.
pub proof fn lemma_log_rows_grid(log: Seq<Message>, size: Size)
    ensures
        is_grid(log_rows(log, size), size),
{
    let k = shown_count(log.len(), size.height as nat);
    let shown = log.subrange(log.len() - k, log.len() as int).map_values(
        |m: Message| message_row(m, size.width as nat),
    );
    assert forall|j: int| 0 <= j < shown.len() implies #[trigger] shown[j].len() == size.width by {}
    lemma_resized_grid(shown, empty_row(size.width as nat), size);
}

/// The log of messages, in the order they came.
pub struct Messages {
    messages: Vec<MessageOrigin>,
}

impl View for Messages {
    type V = Seq<Message>;

    closed spec fn view(&self) -> Seq<Message> {
        self.messages@.map_values(|m: MessageOrigin| m@)
    }
}

impl Messages {
    /// An empty log.
    pub fn new() -> (r: Self)
        ensures
            r@ == Seq::<Message>::empty(),
    {
        let r = Self { messages: Vec::new() };
        assert(r@ =~= Seq::<Message>::empty());
        r
    }

    /// Appends a message at the end of the log.
    pub fn handle_message(&mut self, message: MessageOrigin)
        ensures
            final(self)@ == old(self)@.push(message@),
    {
        let ghost m = message@;
        self.messages.push(message);
        assert(self@ =~= old(self)@.push(m));
    }

    /// The number of messages.
    pub fn len(&self) -> (r: usize)
        ensures
            r == self@.len(),
    {
        self.messages.len()
    }
}

/// The row of one message on a log `width` wide.
fn message_line(message: &MessageOrigin, width: usize) -> (r: Vec<char>)
    ensures
        r@ == message_row(message@, width as nat),
{
    let mut line: Vec<char> = Vec::new();
    let avail: usize = if width > 11 { width - 11 } else { 0 };
    match message {
        MessageOrigin::Local(bytes) => {
            push_str(&mut line, "  LOCAL │ ");
            push_hex_dump(&mut line, bytes, avail);
        },
        MessageOrigin::Remote(bytes) => {
            push_str(&mut line, " REMOTE │ ");
            push_hex_dump(&mut line, bytes, avail);
        },
    }
    line.push(' ');
    let ghost before = line@;
    fit_row(&mut line, width, ' ');
    proof {
        assert(before =~= label(message@.local) + hex_dump(message@.payload).take(
            at_most(dump_width(width as nat), hex_dump(message@.payload).len()) as int,
        ) + seq![' ']);
    }
    line
}

/// The row that stands for no message, on a log `width` wide.
fn empty_line(width: usize) -> (r: Vec<char>)
    ensures
        r@ == empty_row(width as nat),
{
    let mut line: Vec<char> = Vec::new();
    push_str(&mut line, "        │");
    fit_row(&mut line, width, ' ');
    line
}

impl Painter for Messages {
    open spec fn inv(&self) -> bool {
        true
    }

    open spec fn rows(&self, size: Size) -> Seq<Seq<char>> {
        log_rows(self@, size)
    }

    fn paint(&self, size: Size) -> (r: PaintOutput) {
        let n = self.messages.len();
        let keep: usize = if size.height == 0 {
            0
        } else if n <= size.height - 1 {
            n
        } else {
            size.height - 1
        };
        let ghost shown = self@.subrange(n - keep, n as int).map_values(
            |m: Message| message_row(m, size.width as nat),
        );
        let mut output: PaintOutput = Vec::new();
        let mut i: usize = n - keep;
        while i < n
            invariant
                n == self.messages.len(),
                keep <= n,
                n - keep <= i <= n,
                shown == self@.subrange(n - keep, n as int).map_values(
                    |m: Message| message_row(m, size.width as nat),
                ),
                output.deep_view() == shown.take(i - (n - keep)),
            decreases n - i,
        {
            let line = message_line(&self.messages[i], size.width);
            let ghost before = output.deep_view();
            assert(self@[i as int] == self.messages@[i as int]@);
            assert(shown[i - (n - keep)] == line@);
            assert(line.deep_view() =~= line@);
            output.push(line);
            assert(output.deep_view() =~= before.push(line@));
            i = i + 1;
            assert(output.deep_view() =~= shown.take(i - (n - keep)));
        }
        let empty = empty_line(size.width);
        let ghost rows = output.deep_view();
        fit_rows(&mut output, size.height, &empty);
        proof {
            assert(rows =~= shown);
            assert forall|j: int| 0 <= j < rows.len() implies #[trigger] rows[j].len() == size.width by {}
            lemma_resized_grid(rows, empty@, size);
        }
        output
    }
}

/// How one read from the connection ended.
pub enum ReadOutcome {
    /// The read gave this many bytes; none means the peer closed the stream.
    Read(usize),
    /// No data was there yet.
    WouldBlock,
    /// The read failed.
    Failed,
}

/// What the connection reader does after a read.
pub enum ReaderStep {
    /// Hand these bytes to the event loop as one message and read again.
    Forward(Vec<u8>),
    /// Read again.
    Retry,
    /// The stream is over: stop reading.
    Stop,
}

/// Decides what follows a read into `buffer`: the bytes read go on as one message,
/// a read that would block is tried again, and the end of the stream or a failure stops.
pub fn reader_step(outcome: ReadOutcome, buffer: &[u8]) -> (r: ReaderStep)
    requires
        outcome matches ReadOutcome::Read(n) ==> n <= buffer@.len(),
    ensures
        match outcome {
            ReadOutcome::Read(n) => if n == 0 {
                r is Stop
            } else {
                r matches ReaderStep::Forward(bytes) && bytes@ == buffer@.take(n as int)
            },
            ReadOutcome::WouldBlock => r is Retry,
            ReadOutcome::Failed => r is Stop,
        },
{
    match outcome {
        ReadOutcome::Read(n) => {
            if n == 0 {
                ReaderStep::Stop
            } else {
                let mut bytes: Vec<u8> = Vec::new();
                let mut i: usize = 0;
                while i < n
                    invariant
                        n <= buffer@.len(),
                        i <= n,
                        bytes@ == buffer@.take(i as int),
                    decreases n - i,
                {
                    bytes.push(buffer[i]);
                    i = i + 1;
                    assert(bytes@ =~= buffer@.take(i as int));
                }
                ReaderStep::Forward(bytes)
            }
        },
        ReadOutcome::WouldBlock => ReaderStep::Retry,
        ReadOutcome::Failed => ReaderStep::Stop,
    }
}

} // verus!
