//! What a payment-channel node built on this engine computes for itself:
//! the lines it logs and the fixed-width values it hands to its peers'
//! protocol. Reading the clock, the disk and the network is the caller's.

use vstd::prelude::*;
use vstd::string::*;

use crate::text::{decimal, push_decimal};

verus! {

/// Width to which the level of a log line is filled up.
pub const LEVEL_WIDTH: usize = 5;

/// Writes the lines of the node's log.
#[derive(Clone, Copy, Debug)]
pub struct RLNLogger;

/// Receives the events of the node. It decides nothing: whoever runs the
/// node shows each event as it comes.
#[derive(Clone, Copy, Debug)]
pub struct RLNEventHandler;

/// `count` spaces.
pub open spec fn spaces(count: nat) -> Seq<char> {
    Seq::new(count, |i: int| ' ')
}

/// A text filled up with spaces on the right to `width` characters; a text
/// that is longer stays as it is.
pub open spec fn filled(text: Seq<char>, width: nat) -> Seq<char> {
    if text.len() < width {
        text + spaces((width - text.len()) as nat)
    } else {
        text
    }
}

/// A line of the log: the time, the level filled up to `LEVEL_WIDTH`, the
/// place in brackets, the message, and a line end.
pub open spec fn log_line(
    time: Seq<char>,
    level: Seq<char>,
    origin: Seq<char>,
    line: u32,
    message: Seq<char>,
) -> Seq<char> {
    time + seq![' '] + filled(level, LEVEL_WIDTH as nat) + seq![' ', '['] + origin + seq![':']
        + decimal(line as nat) + seq![']', ' '] + message + seq!['\n']
}

impl RLNLogger {
    /// The line to log for a message of `level` that came from line `line`
    /// of `origin` at `time`.
    pub fn format(&self, time: &str, level: &str, origin: &str, line: u32, message: &str) -> (text:
        String)
        ensures
            text@ == log_line(time@, level@, origin@, line, message@),
    {
        proof {
            reveal_strlit(" ");
            reveal_strlit(" [");
            reveal_strlit(":");
            reveal_strlit("] ");
            reveal_strlit("\n");
        }
        let mut text = String::from_str(time);
        text.append(" ");
        text.append(level);
        let width = level.unicode_len();
        let mut at: usize = width;
        assert(spaces(0) =~= Seq::<char>::empty());
        assert(text@ =~= time@ + seq![' '] + level@ + spaces(0));
        while at < LEVEL_WIDTH
            invariant
                width <= at,
                at == width || at <= LEVEL_WIDTH,
                width == level@.len(),
                text@ == time@ + seq![' '] + level@ + spaces((at - width) as nat),
            decreases LEVEL_WIDTH - at,
        {
            proof {
                reveal_strlit(" ");
                assert(spaces((at - width) as nat) + seq![' '] =~= spaces((at + 1 - width) as nat));
            }
            text.append(" ");
            at += 1;
        }
        assert(spaces(0) =~= Seq::<char>::empty());
        assert(text@ =~= time@ + seq![' '] + filled(level@, LEVEL_WIDTH as nat));
        text.append(" [");
        text.append(origin);
        text.append(":");
        push_decimal(&mut text, line as usize);
        text.append("] ");
        text.append(message);
        text.append("\n");
        assert(text@ =~= log_line(time@, level@, origin@, line, message@));
        text
    }
}

/// The seed of the node's keys from what was read back from disk: the 32
/// bytes themselves, and nothing where there are more or fewer.
pub fn seed_from_bytes(bytes: &[u8]) -> (seed: Option<[u8; 32]>)
    ensures
        match seed {
            Some(key) => bytes@.len() == 32 && key@ == bytes@,
            None => bytes@.len() != 32,
        },
{
    if bytes.len() != 32 {
        return None;
    }
    let mut key = [0u8;32];
    let mut i: usize = 0;
    while i < 32
        invariant
            i <= 32,
            bytes@.len() == 32,
            forall|j: int| 0 <= j < i ==> key@[j] == bytes@[j],
        decreases 32 - i,
    {
        key.set(i, bytes[i]);
        i += 1;
    }
    assert(key@ =~= bytes@);
    Some(key)
}

/// The accumulated work of a chain as the 32 bytes a block header is
/// reported with: the bytes given, followed by zeros. More than 32 bytes
/// have no such form.
pub fn chainwork_bytes(work: &[u8]) -> (filled: Option<[u8; 32]>)
    ensures
        match filled {
            Some(bytes) => {
                &&& work@.len() <= 32
                &&& forall|j: int| 0 <= j < work@.len() ==> bytes@[j] == work@[j]
                &&& forall|j: int| work@.len() <= j < 32 ==> bytes@[j] == 0
            },
            None => work@.len() > 32,
        },
{
    if work.len() > 32 {
        return None;
    }
    let mut filled = [0u8;32];
    let mut i: usize = 0;
    while i < work.len()
        invariant
            i <= work@.len() <= 32,
            forall|j: int| 0 <= j < i ==> filled@[j] == work@[j],
            forall|j: int| i <= j < 32 ==> filled@[j] == 0,
        decreases work.len() - i,
    {
        filled.set(i, work[i]);
        i += 1;
    }
    Some(filled)
}

} // verus!
