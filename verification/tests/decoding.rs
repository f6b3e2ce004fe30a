use bf_interpreter::{get_instructions, Instruction, Instructions};

const RECOGNIZED: [u8; 8] = [b'>', b'<', b'+', b'-', b'[', b']', b',', b'.'];

#[test]
fn decodes_the_eight_instruction_characters() {
    assert_eq!(Instruction::new(b'>'), Instruction::IncPoint);
    assert_eq!(Instruction::new(b'<'), Instruction::DecPoint);
    assert_eq!(Instruction::new(b'+'), Instruction::IncValue);
    assert_eq!(Instruction::new(b'-'), Instruction::DecValue);
    assert_eq!(Instruction::new(b'['), Instruction::LoopBegin);
    assert_eq!(Instruction::new(b']'), Instruction::LoopEnd);
    assert_eq!(Instruction::new(b','), Instruction::GetChar);
    assert_eq!(Instruction::new(b'.'), Instruction::PutChar);
}

#[test]
fn decodes_the_ascii_codes_of_the_table() {
    assert_eq!(Instruction::new(62), Instruction::IncPoint);
    assert_eq!(Instruction::new(60), Instruction::DecPoint);
    assert_eq!(Instruction::new(43), Instruction::IncValue);
    assert_eq!(Instruction::new(45), Instruction::DecValue);
    assert_eq!(Instruction::new(91), Instruction::LoopBegin);
    assert_eq!(Instruction::new(93), Instruction::LoopEnd);
    assert_eq!(Instruction::new(44), Instruction::GetChar);
    assert_eq!(Instruction::new(46), Instruction::PutChar);
}

#[test]
fn every_other_byte_is_a_comment() {
    let mut comments = 0;
    for byte in 0..=255u8 {
        if !RECOGNIZED.contains(&byte) {
            assert_eq!(Instruction::new(byte), Instruction::Comment, "byte {}", byte);
            comments += 1;
        } else {
            assert_ne!(Instruction::new(byte), Instruction::Comment, "byte {}", byte);
        }
    }
    assert_eq!(comments, 248);
}

#[test]
fn neighbours_of_instruction_characters_are_comments() {
    for byte in [0u8, 42, 47, 59, 61, 63, 90, 92, 94, 255] {
        assert_eq!(Instruction::new(byte), Instruction::Comment);
    }
}

#[test]
fn encodes_each_instruction_as_its_character() {
    assert_eq!(Instruction::IncPoint.to_byte(), b'>');
    assert_eq!(Instruction::DecPoint.to_byte(), b'<');
    assert_eq!(Instruction::IncValue.to_byte(), b'+');
    assert_eq!(Instruction::DecValue.to_byte(), b'-');
    assert_eq!(Instruction::LoopBegin.to_byte(), b'[');
    assert_eq!(Instruction::LoopEnd.to_byte(), b']');
    assert_eq!(Instruction::GetChar.to_byte(), b',');
    assert_eq!(Instruction::PutChar.to_byte(), b'.');
    assert_eq!(Instruction::Comment.to_byte(), b' ');
}

#[test]
fn decoding_keeps_the_order_of_the_source() {
    let program = get_instructions(b"+a[->.<],]");
    assert_eq!(
        program.instructions(),
        &vec![
            Instruction::IncValue,
            Instruction::Comment,
            Instruction::LoopBegin,
            Instruction::DecValue,
            Instruction::IncPoint,
            Instruction::PutChar,
            Instruction::DecPoint,
            Instruction::LoopEnd,
            Instruction::GetChar,
            Instruction::LoopEnd,
        ]
    );
}

#[test]
fn decoding_an_empty_source_gives_an_empty_program() {
    let program = get_instructions(b"");
    assert!(program.instructions().is_empty());
    assert!(program.to_source().is_empty());
}

#[test]
fn encoding_then_decoding_gives_the_program_back() {
    let all = vec![
        Instruction::IncPoint,
        Instruction::DecPoint,
        Instruction::IncValue,
        Instruction::DecValue,
        Instruction::LoopBegin,
        Instruction::LoopEnd,
        Instruction::GetChar,
        Instruction::PutChar,
        Instruction::Comment,
        Instruction::Comment,
        Instruction::IncValue,
    ];
    let program = Instructions::new(all.clone());
    let source = program.to_source();
    assert_eq!(source, b"><+-[],.  +".to_vec());
    assert_eq!(get_instructions(&source).instructions(), &all);
}

#[test]
fn every_single_instruction_survives_the_round_trip() {
    for byte in 0..=255u8 {
        let instruction = Instruction::new(byte);
        assert_eq!(Instruction::new(instruction.to_byte()), instruction);
    }
}

#[test]
fn distinct_comment_bytes_collapse_to_one_encoding() {
    let first = get_instructions(b"a+b");
    let second = get_instructions(b"\n+#");
    assert_eq!(first.instructions(), second.instructions());
    assert_eq!(first.to_source(), b" + ".to_vec());
    assert_eq!(second.to_source(), b" + ".to_vec());
    let again = get_instructions(&first.to_source());
    assert_eq!(again.instructions(), first.instructions());
}
