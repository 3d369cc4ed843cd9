//! Length rules for MIDI wire messages, keyed on the status byte.

use vstd::prelude::*;

verus! {

/// The message class of a status byte: its high nibble.
pub open spec fn status_class(status: u8) -> u8 {
    status & 0xF0
}

/// Channel-voice classes whose messages carry two data bytes:
/// Note Off, Note On, Poly Pressure, Control Change and Pitch Bend.
pub open spec fn is_two_data_class(class: u8) -> bool {
    class == 0x80 || class == 0x90 || class == 0xA0 || class == 0xB0 || class == 0xE0
}

/// Channel-voice classes whose messages carry one data byte:
/// Program Change and Channel Pressure.
pub open spec fn is_one_data_class(class: u8) -> bool {
    class == 0xC0 || class == 0xD0
}

/// System bytes that stand alone, as one-byte messages: Tune Request, End
/// of Exclusive, Clock, Start, Continue and Stop.
pub open spec fn is_single_byte_system(kind: u8) -> bool {
    kind == 0xF6 || kind == 0xF7 || kind == 0xF8 || kind == 0xFA || kind == 0xFB || kind == 0xFC
}

/// Whether a buffer of the system class is well formed. The second byte
/// names the message, so a buffer without one is not: a SysEx start admits
/// any length, Time Code and Song Select take two bytes, Song Position
/// three. A stand-alone system byte is a message of one byte, which no
/// buffer that names it in its second byte is: such a buffer is never
/// well formed.
pub open spec fn system_message_valid(msg: Seq<u8>) -> bool {
    if msg.len() < 2 {
        false
    } else if msg[1] == 0xF0 {
        true
    } else if msg[1] == 0xF1 || msg[1] == 0xF3 {
        msg.len() == 2
    } else if msg[1] == 0xF2 {
        msg.len() == 3
    } else if is_single_byte_system(msg[1]) {
        msg.len() == 1
    } else {
        false
    }
}

/// Whether a buffer is one well-formed MIDI message.
pub open spec fn message_valid(msg: Seq<u8>) -> bool {
    if msg.len() == 0 {
        false
    } else if is_two_data_class(status_class(msg[0])) {
        msg.len() == 3
    } else if is_one_data_class(status_class(msg[0])) {
        msg.len() == 2
    } else if status_class(msg[0]) == 0xF0 {
        system_message_valid(msg)
    } else {
        false
    }
}

/// Whether a buffer starts with a Program Change status byte.
pub open spec fn program_change(msg: Seq<u8>) -> bool {
    msg.len() > 0 && status_class(msg[0]) == 0xC0
}

/// A Program Change cut down to its status and program bytes; any other
/// buffer as it is.
pub open spec fn normalized(msg: Seq<u8>) -> Seq<u8> {
    if program_change(msg) && msg.len() >= 2 {
        msg.subrange(0, 2)
    } else {
        msg
    }
}

/// Checks a system-class buffer against the rule for its second byte.
pub fn validate_system_message(msg: &[u8]) -> (valid: bool)
    ensures
        valid == system_message_valid(msg@),
{
    if msg.len() < 2 {
        return false;
    }
    let kind: u8 = msg[1];
    if kind == 0xF0 {
        true
    } else if kind == 0xF1 || kind == 0xF3 {
        msg.len() == 2
    } else if kind == 0xF2 {
        msg.len() == 3
    } else if kind == 0xF6 || kind == 0xF7 || kind == 0xF8 || kind == 0xFA || kind == 0xFB
        || kind == 0xFC {
        msg.len() == 1
    } else {
        false
    }
}

/// Checks the length of a MIDI message against its status byte.
/// An empty buffer is never valid.
pub fn is_valid_midi_message(msg: &[u8]) -> (valid: bool)
    ensures
        valid == message_valid(msg@),
{
    if msg.len() == 0 {
        return false;
    }
    let status: u8 = msg[0] & 0xF0;
    if status == 0x80 || status == 0x90 || status == 0xA0 || status == 0xB0 || status == 0xE0 {
        msg.len() == 3
    } else if status == 0xC0 || status == 0xD0 {
        msg.len() == 2
    } else if status == 0xF0 {
        validate_system_message(msg)
    } else {
        false
    }
}

/// Tells a Program Change by its status byte alone, whatever follows it.
pub fn is_program_change(msg: &[u8]) -> (yes: bool)
    ensures
        yes == program_change(msg@),
{
    msg.len() > 0 && (msg[0] & 0xF0) == 0xC0
}

/// Drops whatever some sources append to a Program Change after its second
/// byte. Every other buffer is copied unchanged.
pub fn normalize_program_change(msg: &[u8]) -> (out: Vec<u8>)
    ensures
        out@ == normalized(msg@),
{
    let mut out: Vec<u8> = Vec::new();
    let keep: usize = if is_program_change(msg) && msg.len() >= 2 {
        2
    } else {
        msg.len()
    };
    let mut i: usize = 0;
    while i < keep
        invariant
            i <= keep <= msg.len(),
            out@ == msg@.subrange(0, i as int),
        decreases keep - i,
    {
        out.push(msg[i]);
        i += 1;
    }
    assert(msg@.subrange(0, msg@.len() as int) == msg@);
    out
}

/// A buffer of a two-data-byte class is valid exactly when it has three bytes.
pub proof fn lemma_two_data_class_length(msg: Seq<u8>)
    requires
        msg.len() > 0,
        is_two_data_class(status_class(msg[0])),
    ensures
        message_valid(msg) <==> msg.len() == 3,
{
}

/// A buffer of a one-data-byte class is valid exactly when it has two bytes.
pub proof fn lemma_one_data_class_length(msg: Seq<u8>)
    requires
        msg.len() > 0,
        is_one_data_class(status_class(msg[0])),
    ensures
        message_valid(msg) <==> msg.len() == 2,
{
}

/// A buffer of the system class is valid exactly when its second byte
/// starts a SysEx, or names Time Code or Song Select and is the last, or
/// names Song Position and one byte follows it. No buffer that names a
/// stand-alone system byte is valid.
pub proof fn lemma_system_class_valid(msg: Seq<u8>)
    requires
        msg.len() > 0,
        status_class(msg[0]) == 0xF0,
    ensures
        message_valid(msg) <==> msg.len() >= 2 && (msg[1] == 0xF0 || ((msg[1] == 0xF1 || msg[1]
            == 0xF3) && msg.len() == 2) || (msg[1] == 0xF2 && msg.len() == 3)),
        msg.len() >= 2 && is_single_byte_system(msg[1]) ==> !message_valid(msg),
{
}

/// Normalizing twice changes nothing more than normalizing once.
pub proof fn lemma_normalize_idempotent(msg: Seq<u8>)
    ensures
        normalized(normalized(msg)) == normalized(msg),
{
    if program_change(msg) && msg.len() >= 2 {
        let once = msg.subrange(0, 2);
        assert(once[0] == msg[0]);
        assert(once.subrange(0, 2) == once);
    }
}

/// A normalized Program Change of two or more bytes is a valid message.
pub proof fn lemma_normalized_program_change_valid(msg: Seq<u8>)
    requires
        program_change(msg),
        msg.len() >= 2,
    ensures
        message_valid(normalized(msg)),
{
    let once = msg.subrange(0, 2);
    assert(once[0] == msg[0]);
}

/// Whether a buffer is a Program Change depends on its first byte only:
/// bytes appended to a non-empty buffer do not change the answer.
pub proof fn lemma_program_change_ignores_tail(msg: Seq<u8>, tail: Seq<u8>)
    requires
        msg.len() > 0,
    ensures
        program_change(msg + tail) == program_change(msg),
{
    assert((msg + tail)[0] == msg[0]);
}

} // verus!
