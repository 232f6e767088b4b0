use vstd::prelude::*;
use vstd::string::*;

use crate::decimal::decimal;
use crate::framer::{
    framed_lines, leftover, lemma_framing_in_chunks, lemma_leftover_has_no_line_feed,
    lemma_no_line_feed_frames_nothing, no_line_feed, split_lines, views_of,
};
use crate::results::{ascii_chars, decimal_text, ReadResult, SerialResult};

verus! {

/// What the session holds, as the contracts see it: whether a channel is
/// open, and the bytes received but not yet handed out as lines.
pub struct SessionModel {
    pub connected: bool,
    pub buffer: Seq<u8>,
}

/// A session is well formed when its buffer holds no complete line.
pub open spec fn well_formed(s: SessionModel) -> bool {
    no_line_feed(s.buffer)
}

/// The session once its channel is closed; the buffer stays.
pub open spec fn closed(s: SessionModel) -> SessionModel {
    SessionModel { connected: false, buffer: s.buffer }
}

/// The session after an attempt to open a channel: a new channel and an
/// empty buffer where it opened, the session unchanged where it failed.
pub open spec fn opened(s: SessionModel, ok: bool) -> SessionModel {
    if ok {
        SessionModel { connected: true, buffer: Seq::empty() }
    } else {
        s
    }
}

/// The session after a disconnect: no channel and an empty buffer.
pub open spec fn disconnected(s: SessionModel) -> SessionModel {
    SessionModel { connected: false, buffer: Seq::empty() }
}

/// The buffer with what a read drained from the channel appended; without a
/// channel nothing is read and the buffer stays as it is.
pub open spec fn received(s: SessionModel, incoming: Seq<u8>) -> Seq<u8> {
    if s.connected {
        s.buffer + incoming
    } else {
        s.buffer
    }
}

/// The complete lines that a read hands out.
pub open spec fn lines_read(s: SessionModel, incoming: Seq<u8>) -> Seq<Seq<u8>> {
    framed_lines(received(s, incoming))
}

/// The session after a read: the partial line that follows the last line
/// feed stays buffered.
pub open spec fn after_read(s: SessionModel, incoming: Seq<u8>) -> SessionModel {
    SessionModel { connected: s.connected, buffer: leftover(received(s, incoming)) }
}

/// Reading in two parts hands out the same lines, in the same order, and
/// leaves the same buffer as one read of all the bytes: each line comes out
/// of the read that brings its line feed, and a partial line waits in the
/// buffer until then.
pub proof fn lemma_reads_compose(s: SessionModel, a: Seq<u8>, b: Seq<u8>)
    requires
        s.connected,
    ensures
        lines_read(s, a + b) == lines_read(s, a) + lines_read(after_read(s, a), b),
        after_read(after_read(s, a), b) == after_read(s, a + b),
{
    assert(s.buffer + (a + b) =~= (s.buffer + a) + b);
    lemma_framing_in_chunks(s.buffer + a, b);
}

/// Without a channel a read hands out nothing and leaves the session as it
/// was, buffer included.
pub proof fn lemma_read_without_channel(s: SessionModel, incoming: Seq<u8>)
    requires
        well_formed(s),
        !s.connected,
    ensures
        lines_read(s, incoming) == Seq::<Seq<u8>>::empty(),
        after_read(s, incoming) == s,
{
    lemma_no_line_feed_frames_nothing(s.buffer);
}

/// After a disconnect the session has no channel, and a read hands out
/// nothing and changes nothing.
pub proof fn lemma_disconnect_then_read(s: SessionModel, incoming: Seq<u8>)
    ensures
        !disconnected(s).connected,
        lines_read(disconnected(s), incoming) == Seq::<Seq<u8>>::empty(),
        after_read(disconnected(s), incoming) == disconnected(s),
{
    lemma_read_without_channel(disconnected(s), incoming);
}

/// A connect closes the old channel before it opens the new one: whatever
/// was open before, a channel is open afterwards exactly when the new one
/// opened, and a failed open leaves no channel.
pub proof fn lemma_connect_replaces_channel(s: SessionModel, ok: bool)
    ensures
        opened(closed(s), ok).connected == ok,
        !ok ==> opened(closed(s), ok) == closed(s),
{
}

/// The message of a successful connect.
pub open spec fn connected_message(port_name: Seq<char>, baud_rate: u32) -> Seq<char> {
    "Connected to "@ + port_name + " @ "@ + ascii_chars(decimal(baud_rate as nat))
}

/// Text of the bytes `b`, decoded as UTF-8 with every invalid sequence
/// replaced by U+FFFD.
pub uninterp spec fn lossy_text(b: Seq<u8>) -> Seq<char>;

/// Relies on `String::from_utf8_lossy`: the text depends on the bytes alone,
/// and decoding never fails.
#[verifier::external_body]
fn decode_lossy(b: &Vec<u8>) -> (r: String)
    ensures
        r@ == lossy_text(b@),
{
    String::from_utf8_lossy(b.as_slice()).into_owned()
}

/// The result of an operation that needs a channel where none is open.
pub fn not_connected() -> (r: SerialResult)
    ensures
        !r.success,
        r.message@ == "Not connected"@,
{
    SerialResult { success: false, message: String::from_str("Not connected") }
}

/// The result of writing `command` to the channel, given what the write
/// returned (its error as text).
pub fn command_outcome(command: &str, written: Result<usize, String>) -> (r: SerialResult)
    ensures
        r.success == written.is_ok(),
        r.message@ == match written {
            Ok(_) => "Sent: "@ + command@,
            Err(e) => "Write failed: "@ + e@,
        },
{
    match written {
        Ok(_) => SerialResult { success: true, message: String::from_str("Sent: ").concat(command) },
        Err(e) => SerialResult {
            success: false,
            message: String::from_str("Write failed: ").concat(e.as_str()),
        },
    }
}

/// The one session of the program: the open channel, if any, and the bytes
/// read from it that do not yet form a complete line. `P` is the channel.
pub struct SerialState<P> {
    port: Option<P>,
    buffer: Vec<u8>,
}

impl<P> SerialState<P> {
    /// The session as the contracts see it.
    pub closed spec fn model(&self) -> SessionModel {
        SessionModel { connected: self.port.is_some(), buffer: self.buffer@ }
    }

    /// The open channel, if any.
    pub closed spec fn channel(&self) -> Option<P> {
        self.port
    }

    /// The buffer holds no complete line.
    pub open spec fn wf(&self) -> bool {
        well_formed(self.model())
    }

    /// A session with no channel and an empty buffer.
    pub fn new() -> (r: Self)
        ensures
            r.model() == (SessionModel { connected: false, buffer: Seq::empty() }),
            r.wf(),
    {
        SerialState { port: None, buffer: Vec::new() }
    }

    /// Whether a channel is open.
    pub fn is_connected(&self) -> (r: bool)
        ensures
            r == self.model().connected,
    {
        self.port.is_some()
    }

    /// Closes the open channel, if any, by dropping it. The buffer stays.
    pub fn close_port(&mut self)
        requires
            old(self).wf(),
        ensures
            final(self).model() == closed(old(self).model()),
            final(self).wf(),
    {
        self.port = None;
    }

    /// Completes a connect to `port_name` at `baud_rate`, once the old
    /// channel is closed, given the outcome of opening the new one (its
    /// error as text). A channel that opened is installed and the buffer
    /// cleared; a failure leaves the session without a channel.
    pub fn connect_outcome(
        &mut self,
        port_name: &str,
        baud_rate: u32,
        opened_port: Result<P, String>,
    ) -> (r: SerialResult)
        requires
            !old(self).model().connected,
            old(self).wf(),
        ensures
            final(self).model() == opened(old(self).model(), opened_port.is_ok()),
            final(self).wf(),
            opened_port.is_ok() ==> final(self).channel() == Some(opened_port->Ok_0),
            r.success == opened_port.is_ok(),
            r.message@ == match opened_port {
                Ok(_) => connected_message(port_name@, baud_rate),
                Err(e) => "Failed to connect: "@ + e@,
            },
    {
        match opened_port {
            Ok(port) => {
                self.port = Some(port);
                self.buffer = Vec::new();
                let message = String::from_str("Connected to ").concat(port_name).concat(
                    " @ ",
                ).concat(decimal_text(baud_rate).as_str());
                SerialResult { success: true, message }
            },
            Err(e) => SerialResult {
                success: false,
                message: String::from_str("Failed to connect: ").concat(e.as_str()),
            },
        }
    }

    /// Drops the channel and the buffer.
    pub fn disconnect(&mut self) -> (r: SerialResult)
        ensures
            final(self).model() == disconnected(old(self).model()),
            final(self).wf(),
            r.success,
            r.message@ == "Disconnected"@,
    {
        self.port = None;
        self.buffer = Vec::new();
        SerialResult { success: true, message: String::from_str("Disconnected") }
    }

    /// The open channel, for the caller to read from or write to.
    pub fn port_mut(&mut self) -> (r: Option<&mut P>)
        ensures
            r.is_some() == old(self).model().connected,
            final(self).model().buffer == old(self).model().buffer,
            final(self).model().connected == old(self).model().connected,
            r.is_some() ==> *r.unwrap() == old(self).channel().unwrap() && final(self).channel()
                == Some(*final(r.unwrap())),
    {
        self.port.as_mut()
    }

    /// What to write for `command`: its bytes where a channel is open,
    /// otherwise the "Not connected" result. The session does not change.
    pub fn begin_command(&self, command: &str) -> (r: Result<Vec<u8>, SerialResult>)
        ensures
            self.model().connected ==> r is Ok && r->Ok_0@ == command.spec_bytes(),
            !self.model().connected ==> r is Err && !r->Err_0.success
                && r->Err_0.message@ == "Not connected"@,
    {
        if self.port.is_some() {
            Ok(command.as_bytes_vec())
        } else {
            Err(not_connected())
        }
    }

    /// Takes in the bytes `incoming` that were drained from the channel and
    /// hands out the complete lines of the buffer, decoded; the partial line
    /// after them stays buffered. Without a channel nothing is taken in.
    pub fn take_lines(&mut self, incoming: &Vec<u8>) -> (r: ReadResult)
        requires
            old(self).wf(),
        ensures
            final(self).model() == after_read(old(self).model(), incoming@),
            final(self).wf(),
            r.lines@.len() == lines_read(old(self).model(), incoming@).len(),
            forall|i: int|
                0 <= i < r.lines@.len() ==> #[trigger] r.lines@[i]@ == lossy_text(
                    lines_read(old(self).model(), incoming@)[i],
                ),
    {
        if self.port.is_some() {
            let mut i: usize = 0;
            let ghost start = self.buffer@;
            while i < incoming.len()
                invariant
                    i <= incoming@.len(),
                    self.buffer@ == start + incoming@.take(i as int),
                    self.port == old(self).port,
                decreases incoming.len() - i,
            {
                self.buffer.push(incoming[i]);
                i = i + 1;
                assert(self.buffer@ =~= start + incoming@.take(i as int));
            }
            assert(incoming@.take(incoming@.len() as int) =~= incoming@);
        } else {
            proof {
                lemma_no_line_feed_frames_nothing(self.buffer@);
            }
        }
        let (frames, rest) = split_lines(&self.buffer);
        proof {
            lemma_leftover_has_no_line_feed(received(old(self).model(), incoming@));
        }
        self.buffer = rest;
        let mut lines: Vec<String> = Vec::new();
        let mut k: usize = 0;
        while k < frames.len()
            invariant
                k <= frames@.len(),
                views_of(frames@) == lines_read(old(self).model(), incoming@),
                lines@.len() == k,
                forall|j: int| 0 <= j < k ==> #[trigger] lines@[j]@ == lossy_text(frames@[j]@),
            decreases frames.len() - k,
        {
            lines.push(decode_lossy(&frames[k]));
            k = k + 1;
        }
        ReadResult { lines }
    }
}

} // verus!
