use gal31::{parse_source, Instruction, ScriptError};

fn s(x: &str) -> String {
    x.to_string()
}

#[test]
fn parses_each_kind_in_order() {
    let insts = parse_source("scene bg1\nsay Greetings Alice\nlabel start\nswitch start\n").unwrap();
    assert_eq!(
        insts,
        vec![
            Instruction::Scene { resource: s("bg1") },
            Instruction::Say { saying: s("Greetings"), character: Some(s("Alice")) },
            Instruction::Label { label: s("start") },
            Instruction::Switch { label: s("start") },
        ]
    );
}

#[test]
fn say_without_speaker_has_no_character() {
    let insts = parse_source("say Hello").unwrap();
    assert_eq!(insts, vec![Instruction::Say { saying: s("Hello"), character: None }]);
}

#[test]
fn extra_tokens_are_ignored() {
    let insts = parse_source("say Hi Bob and more\nscene a b").unwrap();
    assert_eq!(
        insts,
        vec![
            Instruction::Say { saying: s("Hi"), character: Some(s("Bob")) },
            Instruction::Scene { resource: s("a") },
        ]
    );
}

#[test]
fn blank_runs_and_empty_lines_are_skipped() {
    let insts = parse_source("\n   \n  scene \t  bg1  \r\n\nlabel   x").unwrap();
    assert_eq!(
        insts,
        vec![Instruction::Scene { resource: s("bg1") }, Instruction::Label { label: s("x") }]
    );
}

#[test]
fn unknown_first_words_are_ignored() {
    let insts = parse_source("# a comment\nSay Upper case\nwait 3\nsay ok").unwrap();
    assert_eq!(insts, vec![Instruction::Say { saying: s("ok"), character: None }]);
}

#[test]
fn escape_becomes_line_feed() {
    let insts = parse_source("say Hello\\nWorld Alice").unwrap();
    assert_eq!(
        insts,
        vec![Instruction::Say { saying: s("Hello\nWorld"), character: Some(s("Alice")) }]
    );
}

#[test]
fn escape_scan_goes_left_to_right() {
    let insts = parse_source("say a\\\\nb\\n").unwrap();
    assert_eq!(insts, vec![Instruction::Say { saying: s("a\\\nb\n"), character: None }]);
}

#[test]
fn empty_source_has_no_instructions() {
    assert_eq!(parse_source("").unwrap(), vec![]);
}

#[test]
fn say_without_text_is_malformed() {
    assert_eq!(
        parse_source("scene bg\nsay\nsay ok"),
        Err(ScriptError::MalformedInstruction { line: 2 })
    );
}

#[test]
fn each_keyword_needs_its_argument() {
    assert_eq!(parse_source("scene"), Err(ScriptError::MalformedInstruction { line: 1 }));
    assert_eq!(parse_source("say a\nswitch  "), Err(ScriptError::MalformedInstruction { line: 2 }));
    assert_eq!(parse_source("\n\nlabel"), Err(ScriptError::MalformedInstruction { line: 3 }));
}

#[test]
fn first_malformed_line_is_reported() {
    assert_eq!(
        parse_source("say ok\nlabel\nscene"),
        Err(ScriptError::MalformedInstruction { line: 2 })
    );
}

#[test]
fn non_ascii_text_is_kept() {
    let insts = parse_source("say こんにちは 花子").unwrap();
    assert_eq!(
        insts,
        vec![Instruction::Say { saying: s("こんにちは"), character: Some(s("花子")) }]
    );
}
