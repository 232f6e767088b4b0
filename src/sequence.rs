use vstd::prelude::*;
use vstd::string::*;

use crate::decimal::{format_word, word_field};
use crate::results::SerialResult;

verus! {

/// How many words one programming sequence carries.
pub const WORD_COUNT: usize = 8;

/// How many writes a complete sequence makes: the command, then a word and
/// its confirm byte for each word.
pub const STEP_COUNT: usize = 17;

/// The byte that accepts a word: ASCII `y`.
pub const CONFIRM_BYTE: u8 = 121;

/// Milliseconds to wait after the command, for the device to enter
/// programming mode.
pub const COMMAND_SETTLE_MS: u64 = 50;

/// Milliseconds to wait after a word field.
pub const WORD_SETTLE_MS: u64 = 10;

/// Milliseconds to wait after a confirm byte.
pub const CONFIRM_SETTLE_MS: u64 = 20;

/// What a write of the sequence carries.
#[derive(PartialEq, Eq, Structural)]
pub enum WriteKind {
    Command,
    Word,
    Confirm,
}

/// The kind of write number `i` of a sequence: the command first, then for
/// each word its field and then its confirm byte.
pub open spec fn step_kind(i: nat) -> WriteKind {
    if i == 0 {
        WriteKind::Command
    } else if i % 2 == 1 {
        WriteKind::Word
    } else {
        WriteKind::Confirm
    }
}

/// The index of the word that write number `i` (a word or its confirm)
/// belongs to.
pub open spec fn step_word(i: nat) -> int {
    (i as int - 1) / 2
}

/// The bytes of write number `i`.
pub open spec fn step_bytes(command: Seq<u8>, words: Seq<u16>, i: nat) -> Seq<u8> {
    match step_kind(i) {
        WriteKind::Command => command,
        WriteKind::Word => word_field(words[step_word(i)]),
        WriteKind::Confirm => seq![CONFIRM_BYTE],
    }
}

/// The wait after write number `i`, in milliseconds.
pub open spec fn step_settle_ms(i: nat) -> u64 {
    match step_kind(i) {
        WriteKind::Command => COMMAND_SETTLE_MS,
        WriteKind::Word => WORD_SETTLE_MS,
        WriteKind::Confirm => CONFIRM_SETTLE_MS,
    }
}

/// The message of a sequence that stopped at write number `i` on the error
/// `e`: it names what failed to go out.
pub open spec fn failure_message(i: nat, e: Seq<char>) -> Seq<char> {
    match step_kind(i) {
        WriteKind::Command => "Failed to send command: "@ + e,
        WriteKind::Word => "Failed to send word: "@ + e,
        WriteKind::Confirm => "Failed to send confirm: "@ + e,
    }
}

/// A sequence as the contracts see it: what it sends, how many writes went
/// out, and whether one failed.
pub struct SequenceModel {
    pub command: Seq<u8>,
    pub words: Seq<u16>,
    pub sent: nat,
    pub failed: bool,
}

/// A sequence makes no more writes once one failed or all went out.
pub open spec fn finished(m: SequenceModel) -> bool {
    m.failed || m.sent >= STEP_COUNT
}

/// The sequence after the pending write succeeded (`ok`) or failed: it
/// moves on to the next write, or stops for good.
pub open spec fn advanced(m: SequenceModel, ok: bool) -> SequenceModel {
    if ok {
        SequenceModel { sent: m.sent + 1, ..m }
    } else {
        SequenceModel { failed: true, ..m }
    }
}

/// A failed write ends the sequence: it makes no more writes, whatever was
/// sent before.
pub proof fn lemma_failure_is_final(m: SequenceModel)
    ensures
        finished(advanced(m, false)),
        advanced(m, false).sent == m.sent,
{
}

/// A sequence whose write fails at the confirm byte of word `w` reports a
/// failed confirm and ends there: every word write made belongs to word `w`
/// or an earlier one, so no later word is attempted.
pub proof fn lemma_stop_at_confirm(m: SequenceModel, w: int, e: Seq<char>)
    requires
        0 <= w < WORD_COUNT,
        m.sent == 2 * w + 2,
        !m.failed,
    ensures
        step_kind(m.sent) == WriteKind::Confirm,
        step_word(m.sent) == w,
        finished(advanced(m, false)),
        failure_message(m.sent, e) == "Failed to send confirm: "@ + e,
        forall|i: nat| i <= m.sent && step_kind(i) != WriteKind::Command ==> step_word(i) <= w,
{
}

/// One write on the wire and the wait that follows it.
pub struct WireWrite {
    pub bytes: Vec<u8>,
    pub settle_ms: u64,
}

/// What the caller does next: make a write, or report the result.
pub enum SequenceStep {
    Write(WireWrite),
    Finished(SerialResult),
}

/// The programming exchange that pushes eight words into the device: the
/// command, then each word as a five-byte field followed by a confirm byte.
/// The caller performs each write and, where it succeeds, waits as told
/// before it reports back; the first failure ends the sequence, and what
/// went out stays sent.
pub struct MemorySequence {
    command: Vec<u8>,
    words: Vec<u16>,
    sent: usize,
    failed: bool,
}

impl MemorySequence {
    /// The sequence as the contracts see it.
    pub closed spec fn model(&self) -> SequenceModel {
        SequenceModel {
            command: self.command@,
            words: self.words@,
            sent: self.sent as nat,
            failed: self.failed,
        }
    }

    /// Eight words, and no more writes counted than the sequence has.
    pub closed spec fn wf(&self) -> bool {
        &&& self.words@.len() == WORD_COUNT
        &&& self.sent <= STEP_COUNT
    }

    /// Starts a sequence of `command` and `words` on a session whose channel
    /// is open (`connected`). Fewer or more than eight words are refused
    /// before anything else, then a session without a channel; no write is
    /// made in either case.
    pub fn start(command: &str, words: &Vec<u16>, connected: bool) -> (r: Result<
        MemorySequence,
        SerialResult,
    >)
        ensures
            words@.len() != WORD_COUNT ==> r is Err && !r->Err_0.success
                && r->Err_0.message@ == "Need exactly 8 words"@,
            words@.len() == WORD_COUNT && !connected ==> r is Err && !r->Err_0.success
                && r->Err_0.message@ == "Not connected"@,
            words@.len() == WORD_COUNT && connected ==> r is Ok && r->Ok_0.wf() && r->Ok_0.model()
                == (SequenceModel {
                command: command.spec_bytes(),
                words: words@,
                sent: 0,
                failed: false,
            }),
    {
        if words.len() != WORD_COUNT {
            return Err(
                SerialResult { success: false, message: String::from_str("Need exactly 8 words") },
            );
        }
        if !connected {
            return Err(SerialResult { success: false, message: String::from_str("Not connected") });
        }
        Ok(
            MemorySequence {
                command: command.as_bytes_vec(),
                words: words.clone(),
                sent: 0,
                failed: false,
            },
        )
    }

    /// Write number `i` of this sequence.
    fn write_at(&self, i: usize) -> (r: WireWrite)
        requires
            self.wf(),
            i < STEP_COUNT,
        ensures
            r.bytes@ == step_bytes(self.model().command, self.model().words, i as nat),
            r.settle_ms == step_settle_ms(i as nat),
    {
        if i == 0 {
            WireWrite { bytes: self.command.clone(), settle_ms: COMMAND_SETTLE_MS }
        } else if i % 2 == 1 {
            WireWrite { bytes: format_word(self.words[(i - 1) / 2]), settle_ms: WORD_SETTLE_MS }
        } else {
            WireWrite { bytes: vec![CONFIRM_BYTE], settle_ms: CONFIRM_SETTLE_MS }
        }
    }

    /// The write that is due now.
    pub fn pending(&self) -> (r: WireWrite)
        requires
            self.wf(),
            !finished(self.model()),
        ensures
            r.bytes@ == step_bytes(self.model().command, self.model().words, self.model().sent),
            r.settle_ms == step_settle_ms(self.model().sent),
    {
        self.write_at(self.sent)
    }

    /// Takes the outcome of the pending write (its error as text) and says
    /// what comes next: the following write; the success result once the
    /// last one went out; or, on a failure, a result that names what failed
    /// to go out, after which the sequence makes no more writes.
    pub fn advance(&mut self, written: Result<(), String>) -> (r: SequenceStep)
        requires
            old(self).wf(),
            !finished(old(self).model()),
        ensures
            final(self).wf(),
            final(self).model() == advanced(old(self).model(), written is Ok),
            ({
                let m = final(self).model();
                match written {
                    Ok(_) => if m.sent < STEP_COUNT {
                        r is Write && r->Write_0.bytes@ == step_bytes(m.command, m.words, m.sent)
                            && r->Write_0.settle_ms == step_settle_ms(m.sent)
                    } else {
                        r is Finished && r->Finished_0.success && r->Finished_0.message@
                            == "Memory sequence sent"@
                    },
                    Err(e) => r is Finished && !r->Finished_0.success && r->Finished_0.message@
                        == failure_message(old(self).model().sent, e@),
                }
            }),
    {
        match written {
            Ok(()) => {
                self.sent = self.sent + 1;
                if self.sent < STEP_COUNT {
                    SequenceStep::Write(self.write_at(self.sent))
                } else {
                    SequenceStep::Finished(
                        SerialResult {
                            success: true,
                            message: String::from_str("Memory sequence sent"),
                        },
                    )
                }
            },
            Err(e) => {
                self.failed = true;
                let prefix = if self.sent == 0 {
                    "Failed to send command: "
                } else if self.sent % 2 == 1 {
                    "Failed to send word: "
                } else {
                    "Failed to send confirm: "
                };
                SequenceStep::Finished(
                    SerialResult {
                        success: false,
                        message: String::from_str(prefix).concat(e.as_str()),
                    },
                )
            },
        }
    }
}

} // verus!
