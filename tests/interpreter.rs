use gal31::{Action, Content, Instruction, Script, ScriptError};

fn s(x: &str) -> String {
    x.to_string()
}

fn loaded(name: &str, source: &str) -> Script {
    let mut script = Script::new();
    script.parse(name, source).unwrap();
    script
}

/// Runs like a host whose scenes always load, until a pause or an error.
fn advance(script: &mut Script, content: &mut Content) -> Result<Action, ScriptError> {
    loop {
        match script.execute_script(content)? {
            Action::ShowScene { resource } => content.set_scene(resource),
            Action::Continue => {}
            other => return Ok(other),
        }
    }
}

#[test]
fn new_script_is_empty() {
    let script = Script::new();
    assert_eq!(script.position(), 0);
    assert_eq!(script.name_str(), "");
    assert!(script.insts.is_empty());
}

#[test]
fn parse_installs_program_at_start() {
    let mut script = Script::new();
    script.switch_to(3);
    script.parse("main", "say a\nsay b").unwrap();
    assert_eq!(script.name_str(), "main");
    assert_eq!(script.position(), 0);
    assert_eq!(script.insts.len(), 2);
}

#[test]
fn failed_parse_keeps_previous_program() {
    let mut script = loaded("main", "say a");
    assert_eq!(
        script.parse("other", "say ok\nscene"),
        Err(ScriptError::MalformedInstruction { line: 2 })
    );
    assert_eq!(script.name_str(), "main");
    assert_eq!(script.insts, vec![Instruction::Say { saying: s("a"), character: None }]);
}

#[test]
fn scenes_then_dialogue() {
    let mut script = loaded("main", "scene bg1\nsay Greetings Alice\nscene bg2\nsay Bye Bob");
    let mut content = Content::new();

    assert_eq!(script.execute_script(&mut content), Ok(Action::ShowScene { resource: s("bg1") }));
    assert_eq!(content.scene, "");
    content.set_scene(s("bg1"));
    assert_eq!(script.execute_script(&mut content), Ok(Action::Pause));
    assert_eq!(content.scene, "bg1");
    assert_eq!(content.saying, "Greetings");
    assert_eq!(content.character, Some(s("Alice")));

    assert_eq!(advance(&mut script, &mut content), Ok(Action::Pause));
    assert_eq!(content.scene, "bg2");
    assert_eq!(content.saying, "Bye");
    assert_eq!(content.character, Some(s("Bob")));

    assert_eq!(advance(&mut script, &mut content), Err(ScriptError::ScriptExhausted));
}

#[test]
fn jump_loop_never_pauses() {
    let mut script = loaded("main", "label start\nswitch start");
    let mut content = Content::new();
    for _ in 0..1000 {
        assert_eq!(script.execute_script(&mut content), Ok(Action::Continue));
        assert!(script.position() <= 2);
    }
    assert_eq!(content.saying, "");
    assert_eq!(content.character, None);
}

#[test]
fn switch_to_other_script() {
    let mut script = loaded("main", "label here\nswitch otherscript:intro\nsay never");
    let mut content = Content::new();
    assert_eq!(
        advance(&mut script, &mut content),
        Ok(Action::LoadScript { script: s("otherscript"), label: s("intro") })
    );
    let other = "say before\nlabel intro\nsay Welcome Carol";
    script.switch_script("otherscript", other, "intro").unwrap();
    assert_eq!(script.name_str(), "otherscript");
    assert_eq!(script.position(), 2);
    assert_eq!(script.get_label("intro"), Some(2));
    assert_eq!(script.get_label("here"), None);
    assert_eq!(advance(&mut script, &mut content), Ok(Action::Pause));
    assert_eq!(content.saying, "Welcome");
    assert_eq!(content.character, Some(s("Carol")));
}

#[test]
fn switch_target_splits_at_first_colon() {
    let mut script = loaded("main", "switch a:b:c");
    let mut content = Content::new();
    assert_eq!(
        script.execute_script(&mut content),
        Ok(Action::LoadScript { script: s("a"), label: s("b:c") })
    );
}

#[test]
fn undefined_label_keeps_position() {
    let mut script = loaded("main", "say one\nswitch nowhere\nsay two");
    let mut content = Content::new();
    assert_eq!(script.execute_script(&mut content), Ok(Action::Pause));
    assert_eq!(script.position(), 1);
    assert_eq!(
        script.execute_script(&mut content),
        Err(ScriptError::UndefinedLabel { script: s("main"), label: s("nowhere") })
    );
    assert_eq!(script.position(), 1);
    assert_eq!(content.saying, "one");
}

#[test]
fn narration_has_no_speaker() {
    let mut script = loaded("main", "say Alice Hi\nsay Quiet");
    let mut content = Content::new();
    assert_eq!(script.execute_script(&mut content), Ok(Action::Pause));
    assert_eq!(content.character, Some(s("Hi")));
    assert_eq!(script.execute_script(&mut content), Ok(Action::Pause));
    assert_eq!(content.saying, "Quiet");
    assert_eq!(content.character, None);
}

#[test]
fn one_line_of_dialogue_per_call() {
    let mut script = loaded("main", "say a\nsay b\nsay c");
    let mut content = Content::new();
    for (i, want) in ["a", "b", "c"].iter().enumerate() {
        assert_eq!(script.execute_script(&mut content), Ok(Action::Pause));
        assert_eq!(content.saying, *want);
        assert_eq!(script.position(), i + 1);
    }
    assert_eq!(script.execute_script(&mut content), Err(ScriptError::ScriptExhausted));
}

#[test]
fn jumps_and_labels_run_through() {
    let mut script = loaded("main", "switch end\nsay skipped\nlabel end\nlabel more\nsay done");
    let mut content = Content::new();
    assert_eq!(script.execute_script(&mut content), Ok(Action::Pause));
    assert_eq!(content.saying, "done");
    assert_eq!(script.position(), 5);
}

#[test]
fn empty_script_is_exhausted() {
    let mut script = Script::new();
    let mut content = Content::new();
    assert_eq!(script.execute_script(&mut content), Err(ScriptError::ScriptExhausted));
    assert_eq!(content.saying, "");
}

#[test]
fn label_resolves_after_first_match() {
    let script = loaded("main", "say a\nlabel x\nsay b\nlabel x\nlabel y");
    assert_eq!(script.get_label("x"), Some(2));
    assert_eq!(script.get_label("y"), Some(5));
    assert_eq!(script.get_label("z"), None);
    assert_eq!(script.get_label("say"), None);
}

#[test]
fn step_and_current_inst_walk_the_program() {
    let mut script = loaded("main", "scene bg\nsay hi");
    assert_eq!(script.current_inst(), &Instruction::Scene { resource: s("bg") });
    assert_eq!(script.step(), &Instruction::Scene { resource: s("bg") });
    assert_eq!(script.position(), 1);
    assert_eq!(script.current_inst(), &Instruction::Say { saying: s("hi"), character: None });
    script.switch_to(0);
    assert_eq!(script.position(), 0);
}

#[test]
fn switch_script_with_undefined_label_changes_nothing() {
    let mut script = loaded("main", "say a");
    assert_eq!(
        script.switch_script("other", "say b\nlabel here", "there"),
        Err(ScriptError::UndefinedLabel { script: s("other"), label: s("there") })
    );
    assert_eq!(script.name_str(), "main");
    assert_eq!(script.insts, vec![Instruction::Say { saying: s("a"), character: None }]);
}

#[test]
fn switch_script_with_malformed_source_changes_nothing() {
    let mut script = loaded("main", "say a");
    assert_eq!(
        script.switch_script("other", "label here\nsay", "here"),
        Err(ScriptError::MalformedInstruction { line: 2 })
    );
    assert_eq!(script.name_str(), "main");
}
