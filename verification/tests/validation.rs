use midi_cable::midi::validation::{
    is_program_change, is_valid_midi_message, normalize_program_change,
};

#[test]
fn test_note_on() {
    // Note On with 3 bytes (valid)
    assert!(is_valid_midi_message(&[0x90, 0x3C, 0x64]));

    // Note On with wrong length
    assert!(!is_valid_midi_message(&[0x90, 0x3C]));
    assert!(!is_valid_midi_message(&[0x90]));
}

#[test]
fn test_program_change() {
    // Program Change with 2 bytes (valid)
    assert!(is_valid_midi_message(&[0xC0, 0x05]));

    // Program Change with wrong length
    assert!(!is_valid_midi_message(&[0xC0]));
    assert!(!is_valid_midi_message(&[0xC0, 0x05, 0x00]));

    // Check program change detection
    assert!(is_program_change(&[0xC0, 0x05]));
    assert!(is_program_change(&[0xC0, 0x05, 0x00]));
    assert!(!is_program_change(&[0x90, 0x3C, 0x64]));

    // Normalize program change
    assert_eq!(normalize_program_change(&[0xC0, 0x05, 0x00]), vec![0xC0, 0x05]);
    assert_eq!(normalize_program_change(&[0xC0, 0x05]), vec![0xC0, 0x05]);
}

#[test]
fn test_control_change() {
    // Control Change with 3 bytes (valid)
    assert!(is_valid_midi_message(&[0xB0, 0x07, 0x7F]));

    // Control Change with wrong length
    assert!(!is_valid_midi_message(&[0xB0, 0x07]));
}

#[test]
fn test_system_messages() {
    // MIDI Time Code (2 bytes)
    assert!(is_valid_midi_message(&[0xF0, 0xF1]));

    // Song Position Pointer (3 bytes)
    assert!(is_valid_midi_message(&[0xF0, 0xF2, 0x00]));

    // Clock is a message of one byte, which a buffer that has a second
    // byte to name it is not
    assert!(!is_valid_midi_message(&[0xF0, 0xF8]));
}

#[test]
fn test_system_message_wrong_length() {
    // MIDI Time Code with a byte too many
    assert!(!is_valid_midi_message(&[0xF0, 0xF1, 0x00]));
    // Song Select takes two bytes as well
    assert!(is_valid_midi_message(&[0xF0, 0xF3]));
    assert!(!is_valid_midi_message(&[0xF0, 0xF3, 0x01]));
    // Song Position Pointer with a byte too few
    assert!(!is_valid_midi_message(&[0xF0, 0xF2]));
    // a system byte alone has no second byte to go by
    assert!(!is_valid_midi_message(&[0xF0]));
    assert!(!is_valid_midi_message(&[0xF8]));
}

#[test]
fn test_sysex_start_has_any_length() {
    assert!(is_valid_midi_message(&[0xF0, 0xF0]));
    assert!(is_valid_midi_message(&[0xF0, 0xF0, 0x01, 0x02, 0x03, 0x04, 0x05]));
    assert!(is_valid_midi_message(&[0xF7, 0xF0, 0x01]));
}

#[test]
fn test_standalone_system_bytes() {
    // a stand-alone system byte asks for a buffer of one byte, and the
    // second byte is what names it: no length is right
    for kind in [0xF6u8, 0xF7, 0xF8, 0xFA, 0xFB, 0xFC] {
        assert!(!is_valid_midi_message(&[kind]));
        assert!(!is_valid_midi_message(&[0xF0, kind]));
        assert!(!is_valid_midi_message(&[0xF0, kind, 0x00]));
    }
    // other second bytes name no system message
    for kind in [0x00u8, 0x7F, 0xF4, 0xF5, 0xF9, 0xFD, 0xFE, 0xFF] {
        assert!(!is_valid_midi_message(&[0xF0, kind]));
        assert!(!is_valid_midi_message(&[0xF0, kind, 0x00]));
    }
}

#[test]
fn test_empty_and_data_bytes_are_invalid() {
    assert!(!is_valid_midi_message(&[]));
    assert!(!is_valid_midi_message(&[0x00, 0x01, 0x02]));
    assert!(!is_valid_midi_message(&[0x7F, 0x01]));
    assert!(!is_program_change(&[]));
}

#[test]
fn test_lengths_for_every_channel_status() {
    for status in 0x80u8..=0xEF {
        let class = status & 0xF0;
        let wanted = if class == 0xC0 || class == 0xD0 { 2 } else { 3 };
        for len in 1usize..=5 {
            let mut msg = vec![0u8; len];
            msg[0] = status;
            assert_eq!(is_valid_midi_message(&msg), len == wanted);
        }
    }
}

#[test]
fn test_program_change_on_every_channel() {
    for channel in 0u8..16 {
        assert!(is_program_change(&[0xC0 | channel]));
        assert!(is_program_change(&[0xC0 | channel, 0x01, 0x02, 0x03]));
        assert!(!is_program_change(&[0xD0 | channel, 0x01]));
        assert!(!is_program_change(&[0xB0 | channel, 0x01, 0x02]));
    }
}

#[test]
fn test_normalize_leaves_other_messages_alone() {
    assert_eq!(normalize_program_change(&[0x90, 0x3C, 0x64]), vec![0x90, 0x3C, 0x64]);
    assert_eq!(normalize_program_change(&[0x90, 0x3C, 0x64, 0x00]), vec![0x90, 0x3C, 0x64, 0x00]);
    assert_eq!(normalize_program_change(&[0xC5]), vec![0xC5]);
    assert_eq!(normalize_program_change(&[]), Vec::<u8>::new());
    assert_eq!(normalize_program_change(&[0xCF, 0x7F, 0x01, 0x02]), vec![0xCF, 0x7F]);
}

#[test]
fn test_normalize_is_idempotent() {
    let samples: [&[u8]; 5] =
        [&[0xC0, 0x05, 0x00], &[0xC0, 0x05], &[0xC0], &[0x90, 0x01, 0x02, 0x03], &[]];
    for sample in samples {
        let once = normalize_program_change(sample);
        let twice = normalize_program_change(&once);
        assert_eq!(once, twice);
    }
}
