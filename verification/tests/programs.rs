use compute_engine::{Program, ProgramError};

/// A minimal compute module: a header, one entry point named "main", and
/// one binding declaration per requested slot.
fn module_with_slots(slots: &[u32]) -> Vec<u32> {
    let mut words: Vec<u32> = vec![0x0723_0203, 0x0001_0000, 0, 100, 0];
    words.push((5 << 16) | 15); // entry point, 5 words
    words.push(5); // compute execution model
    words.push(1); // entry function id
    words.push(0x6E69_616D); // "main"
    words.push(0); // terminator and padding
    for (k, slot) in slots.iter().enumerate() {
        words.push((4 << 16) | 71); // decorate, 4 words
        words.push(10 + k as u32); // target id
        words.push(33); // binding decoration
        words.push(*slot);
    }
    words
}

#[test]
fn compile() {
    let words = module_with_slots(&[]);
    assert!(Program::new(&words, "test.glsl", "main").is_ok());
}

#[test]
fn compile_syntax_error() {
    // An instruction whose declared length runs past the end of the module.
    let mut words = module_with_slots(&[]);
    words.push((9 << 16) | 71);
    assert!(Program::new(&words, "test.glsl", "main").is_err());
}

#[test]
fn compile_entry_point_error() {
    let words = module_with_slots(&[]);
    assert!(Program::new(&words, "test.glsl", "not_main").is_err());
}

#[test]
fn bad_magic_rejected() {
    let mut words = module_with_slots(&[]);
    words[0] = 0x1234_5678;
    let err = Program::new(&words, "test.glsl", "main").unwrap_err();
    assert!(matches!(err, ProgramError::ShaderModuleCreationFailed));
}

#[test]
fn truncated_header_rejected() {
    let words = vec![0x0723_0203, 0x0001_0000];
    let err = Program::new(&words, "test.glsl", "main").unwrap_err();
    assert!(matches!(err, ProgramError::ShaderModuleCreationFailed));
}

#[test]
fn zero_length_instruction_rejected() {
    let mut words = module_with_slots(&[]);
    words.push(71); // word count of zero
    let err = Program::new(&words, "test.glsl", "main").unwrap_err();
    assert!(matches!(err, ProgramError::ShaderModuleCreationFailed));
}

#[test]
fn missing_entry_point_names_the_request() {
    let words = module_with_slots(&[0]);
    let err = Program::new(&words, "test.glsl", "not_main").unwrap_err();
    match err {
        ProgramError::EntryPointNotFound(name) => assert_eq!(name, "not_main"),
        _ => panic!("expected a missing entry point"),
    }
}

#[test]
fn derived_layout_lists_declared_slots() {
    let words = module_with_slots(&[2, 0, 1]);
    let program = Program::new(&words, "test.glsl", "main").unwrap();
    assert_eq!(program.slots, vec![2, 0, 1]);
}

#[test]
fn duplicate_slot_declaration_rejected() {
    let words = module_with_slots(&[0, 0]);
    let err = Program::new(&words, "test.glsl", "main").unwrap_err();
    assert!(matches!(err, ProgramError::PipelineLayoutCreationFailed));
}

#[test]
fn warnings_start_empty() {
    let words = module_with_slots(&[]);
    let program = Program::new(&words, "test.glsl", "main").unwrap();
    assert_eq!(program.get_warnings(), String::new());
}
