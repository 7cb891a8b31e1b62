use vstd::prelude::*;
use crate::instruction::{
    Instruction, InstModel, insts_view, label_target, lemma_label_target, opt_view,
};
use crate::parse::{chars_of, parse_source, parse_spec};

verus! {

/// What can stop a script.
#[derive(Debug, Clone, PartialEq, Eq)]
pub enum ScriptError {
    /// The asset store has no script of this name.
    ScriptNotFound { name: String },
    /// The asset store has no resource of this name.
    ResourceNotFound { name: String },
    /// A keyword lacks its required argument on this line (counted from 1).
    MalformedInstruction { line: usize },
    /// A jump names a label that the script does not define.
    UndefinedLabel { script: String, label: String },
    /// Execution reached the end of the script without a line of dialogue.
    ScriptExhausted,
}

/// What is on screen: the dialogue, its speaker and the background.
#[derive(Debug, Clone)]
pub struct Content {
    /// The speaker of the current line; `None` for narration.
    pub character: Option<String>,
    /// The current line of dialogue.
    pub saying: String,
    /// The current background resource; empty for none.
    pub scene: String,
}

impl Content {
    /// Nothing shown yet.
    pub fn new() -> (r: Content)
        ensures
            r.character is None,
            r.saying@ == Seq::<char>::empty(),
            r.scene@ == Seq::<char>::empty(),
    {
        Content { character: None, saying: String::new(), scene: String::new() }
    }

    /// Records the background once the host has drawn it.
    pub fn set_scene(&mut self, resource: String)
        ensures
            final(self).scene == resource,
            final(self).saying == old(self).saying,
            final(self).character == old(self).character,
    {
        self.scene = resource;
    }
}

/// What the host is asked to do after the interpreter has run.
#[derive(Debug, Clone, PartialEq, Eq)]
pub enum Action {
    /// A line of dialogue was put into the content: redraw everything and
    /// wait for the player.
    Pause,
    /// Execution may go on: run again.
    Continue,
    /// Load this resource, draw it as the background, record it with
    /// `Content::set_scene`, then run again.
    ShowScene { resource: String },
    /// Load this script's source, enter it at `label` with
    /// `Script::switch_script`, then run again.
    LoadScript { script: String, label: String },
}

/// The mathematical value of what one run of the interpreter reports.
pub enum Outcome {
    Pause(Seq<char>, Option<Seq<char>>),
    Continue,
    Scene(Seq<char>),
    Load(Seq<char>, Seq<char>),
    Exhausted,
    Undefined(Seq<char>, Seq<char>),
    Other,
}

/// The outcome that a result reports. A `Pause` carries no text of its own:
/// `said` reads the text from the content.
pub open spec fn outcome_of(r: Result<Action, ScriptError>, shown: Content) -> Outcome {
    match r {
        Ok(Action::Pause) => Outcome::Pause(shown.saying@, opt_view(shown.character)),
        Ok(Action::Continue) => Outcome::Continue,
        Ok(Action::ShowScene { resource }) => Outcome::Scene(resource@),
        Ok(Action::LoadScript { script, label }) => Outcome::Load(script@, label@),
        Err(ScriptError::ScriptExhausted) => Outcome::Exhausted,
        Err(ScriptError::UndefinedLabel { script, label }) => Outcome::Undefined(script@, label@),
        Err(_) => Outcome::Other,
    }
}

/// The position of the first `:` of `s`.
pub open spec fn first_colon(s: Seq<char>) -> Option<int>
    decreases s.len(),
{
    if s.len() == 0 {
        None
    } else if s[0] == ':' {
        Some(0)
    } else {
        match first_colon(s.drop_first()) {
            Some(k) => Some(k + 1),
            None => None,
        }
    }
}

/// One instruction executed at `pc` of the script `name`: what it reports,
/// and where the program counter stands afterwards.
pub open spec fn step_spec(name: Seq<char>, insts: Seq<InstModel>, pc: int) -> (Outcome, int) {
    if pc < 0 || pc >= insts.len() {
        (Outcome::Exhausted, pc)
    } else {
        match insts[pc] {
            InstModel::Say { saying, character } => (Outcome::Pause(saying, character), pc + 1),
            InstModel::Scene { resource } => (Outcome::Scene(resource), pc + 1),
            InstModel::Label { .. } => (Outcome::Continue, pc + 1),
            InstModel::Switch { label } => match first_colon(label) {
                Some(k) => (Outcome::Load(label.take(k), label.skip(k + 1)), pc + 1),
                None => match label_target(insts, label) {
                    Some(t) => (Outcome::Continue, t),
                    None => (Outcome::Undefined(name, label), pc),
                },
            },
        }
    }
}

/// Up to `fuel` instructions executed from `pc`, as long as each one lets
/// execution go on: the report of the last one, and the program counter.
pub open spec fn run_spec(name: Seq<char>, insts: Seq<InstModel>, pc: int, fuel: nat) -> (
    Outcome,
    int,
)
    decreases fuel,
{
    let (o, next) = step_spec(name, insts, pc);
    if o == Outcome::Continue && fuel > 1 {
        run_spec(name, insts, next, (fuel - 1) as nat)
    } else {
        (o, next)
    }
}

/// The content after a report: a line of dialogue changes the text and the
/// speaker and keeps the background; anything else changes nothing.
pub open spec fn said(before: Content, after: Content, o: Outcome) -> bool {
    match o {
        Outcome::Pause(saying, character) => {
            &&& after.saying@ == saying
            &&& opt_view(after.character) == character
            &&& after.scene == before.scene
        },
        _ => after == before,
    }
}

/// A compiled script: its name, its instructions and the program counter.
#[derive(Debug)]
pub struct Script {
    script: String,
    step: usize,
    pub insts: Vec<Instruction>,
}

impl Script {
    /// The script's name as a character sequence.
    pub closed spec fn name(&self) -> Seq<char> {
        self.script@
    }

    /// The program counter.
    pub closed spec fn pc(&self) -> int {
        self.step as int
    }

    /// The instructions' models.
    pub closed spec fn program(&self) -> Seq<InstModel> {
        insts_view(self.insts@)
    }

    /// An empty script, positioned at its start.
    pub fn new() -> (r: Script)
        ensures
            r.name() == Seq::<char>::empty(),
            r.pc() == 0,
            r.program().len() == 0,
    {
        Script { script: String::new(), step: 0, insts: Vec::new() }
    }

    /// The name of the script.
    pub fn name_str(&self) -> (r: &str)
        ensures
            r@ == self.name(),
    {
        self.script.as_str()
    }

    /// The program counter.
    pub fn position(&self) -> (r: usize)
        ensures
            r == self.pc(),
    {
        self.step
    }

    /// Installs the script `name` whose source text is `source`, positioned
    /// at its start. On a malformed source nothing changes.
    pub fn parse(&mut self, name: &str, source: &str) -> (r: Result<(), ScriptError>)
        ensures
            match parse_spec(source@) {
                Ok(p) => {
                    &&& r is Ok
                    &&& final(self).name() == name@
                    &&& final(self).pc() == 0
                    &&& final(self).program() == p
                },
                Err(n) => {
                    &&& r == Err::<(), ScriptError>(
                        ScriptError::MalformedInstruction { line: n as usize },
                    )
                    &&& *final(self) == *old(self)
                },
            },
    {
        let insts = parse_source(source)?;
        self.script = name.to_owned();
        self.step = 0;
        self.insts = insts;
        Ok(())
    }

    /// Moves past the current instruction and returns it.
    pub fn step(&mut self) -> (r: &Instruction)
        requires
            old(self).pc() < old(self).program().len(),
        ensures
            final(self).pc() == old(self).pc() + 1,
            final(self).name() == old(self).name(),
            final(self).program() == old(self).program(),
            r@ == old(self).program()[old(self).pc()],
    {
        assert(self.program().len() == self.insts@.len());
        assert(self.step < self.insts.len());
        self.step = self.step + 1;
        &self.insts[self.step - 1]
    }

    /// The instruction at the program counter.
    pub fn current_inst(&self) -> (r: &Instruction)
        requires
            self.pc() < self.program().len(),
        ensures
            r@ == self.program()[self.pc()],
    {
        assert(self.program().len() == self.insts@.len());
        &self.insts[self.step]
    }

    /// Where execution resumes after a jump to `label`: just after the first
    /// `Label` of that name.
    pub fn get_label(&self, label: &str) -> (r: Option<usize>)
        ensures
            match label_target(self.program(), label@) {
                Some(k) => r matches Some(t) && t == k,
                None => r is None,
            },
    {
        let ghost insts = self.program();
        let target = label.to_owned();
        let mut i: usize = 0;
        assert(insts.skip(0) =~= insts);
        while i < self.insts.len()
            invariant
                i <= self.insts.len(),
                insts == self.program(),
                target@ == label@,
                label_target(insts, label@) == match label_target(insts.skip(i as int), label@) {
                    Some(k) => Some(k + i),
                    None => None::<int>,
                },
            decreases self.insts.len() - i,
        {
            let ghost rest = insts.skip(i as int);
            assert(insts[i as int] == self.insts@[i as int]@);
            assert(rest[0] == insts[i as int]);
            assert(rest.drop_first() =~= insts.skip(i + 1));
            if let Instruction::Label { label: this } = &self.insts[i] {
                if this.eq(&target) {
                    assert(label_target(rest, label@) == Some(1int));
                    return Some(i + 1);
                }
            }
            i = i + 1;
        }
        assert(insts.skip(i as int).len() == 0);
        None
    }

    /// Sets the program counter.
    pub fn switch_to(&mut self, step: usize)
        ensures
            final(self).pc() == step,
            final(self).name() == old(self).name(),
            final(self).program() == old(self).program(),
    {
        self.step = step;
    }

    /// Installs the script `name` whose source text is `source`, positioned
    /// just after its label `label`. The previous program is dropped whole:
    /// its labels no longer resolve. On a malformed source or an undefined
    /// label nothing changes.
    pub fn switch_script(&mut self, name: &str, source: &str, label: &str) -> (r: Result<
        (),
        ScriptError,
    >)
        ensures
            match parse_spec(source@) {
                Err(n) => {
                    &&& r == Err::<(), ScriptError>(
                        ScriptError::MalformedInstruction { line: n as usize },
                    )
                    &&& *final(self) == *old(self)
                },
                Ok(p) => match label_target(p, label@) {
                    Some(t) => {
                        &&& r is Ok
                        &&& final(self).name() == name@
                        &&& final(self).program() == p
                        &&& final(self).pc() == t
                    },
                    None => {
                        &&& r matches Err(ScriptError::UndefinedLabel { script, label: l })
                            && script@ == name@ && l@ == label@
                        &&& *final(self) == *old(self)
                    },
                },
            },
    {
        let insts = match parse_source(source) {
            Ok(insts) => insts,
            Err(e) => {
                return Err(e);
            },
        };
        let mut next = Script { script: name.to_owned(), step: 0, insts };
        match next.get_label(label) {
            Some(t) => {
                next.step = t;
                *self = next;
                Ok(())
            },
            None => Err(ScriptError::UndefinedLabel { script: name.to_owned(), label: label.to_owned() }),
        }
    }

    /// Executes the instruction at the program counter. A line of dialogue
    /// goes into `content` and pauses; a background or another script is
    /// handed to the host; a label, or a jump within the script, lets
    /// execution go on. A jump to an undefined label leaves the program
    /// counter where it was.
    fn exec_single_inst(&mut self, content: &mut Content) -> (r: Result<Action, ScriptError>)
        ensures
            (outcome_of(r, *final(content)), final(self).pc()) == step_spec(
                old(self).name(),
                old(self).program(),
                old(self).pc(),
            ),
            said(*old(content), *final(content), outcome_of(r, *final(content))),
            final(self).name() == old(self).name(),
            final(self).program() == old(self).program(),
    {
        assert(self.program().len() == self.insts@.len());
        if self.step >= self.insts.len() {
            return Err(ScriptError::ScriptExhausted);
        }
        let pc = self.step;
        assert(self.program()[pc as int] == self.insts@[pc as int]@);
        match &self.insts[pc] {
            Instruction::Say { saying, character } => {
                let text = saying.clone();
                let speaker = clone_name(character);
                self.step = pc + 1;
                content.saying = text;
                content.character = speaker;
                Ok(Action::Pause)
            },
            Instruction::Scene { resource } => {
                let resource = resource.clone();
                self.step = pc + 1;
                Ok(Action::ShowScene { resource })
            },
            Instruction::Label { .. } => {
                self.step = pc + 1;
                Ok(Action::Continue)
            },
            Instruction::Switch { label } => {
                let target = label.clone();
                match find_colon(target.as_str()) {
                    Some(k) => {
                        let len = target.as_str().unicode_len();
                        let script = target.as_str().substring_char(0, k).to_owned();
                        let label = target.as_str().substring_char(k + 1, len).to_owned();
                        assert(script@ =~= target@.take(k as int));
                        assert(label@ =~= target@.skip(k + 1));
                        self.step = pc + 1;
                        Ok(Action::LoadScript { script, label })
                    },
                    None => match self.get_label(target.as_str()) {
                        Some(t) => {
                            self.step = t;
                            Ok(Action::Continue)
                        },
                        None => Err(
                            ScriptError::UndefinedLabel { script: self.script.clone(), label: target },
                        ),
                    },
                }
            },
        }
    }

    /// Runs the script until the host has something to do: a line of
    /// dialogue was shown (`Pause`), a background or another script must be
    /// loaded, or an error stopped it. Each call executes at most one more
    /// instruction than the script has; a script that keeps jumping without
    /// showing anything then reports `Continue`, and running it again goes on
    /// where it stopped. At most one line of dialogue is shown per call.
    pub fn execute_script(&mut self, content: &mut Content) -> (r: Result<Action, ScriptError>)
        ensures
            (outcome_of(r, *final(content)), final(self).pc()) == run_spec(
                old(self).name(),
                old(self).program(),
                old(self).pc(),
                (old(self).program().len() + 1) as nat,
            ),
            said(*old(content), *final(content), outcome_of(r, *final(content))),
            final(self).name() == old(self).name(),
            final(self).program() == old(self).program(),
    {
        let ghost name = self.name();
        let ghost prog = self.program();
        let ghost start = self.pc();
        assert(self.program().len() == self.insts@.len());
        let bound = self.insts.len();
        let mut n: usize = 0;
        loop
            invariant
                n <= bound,
                bound == prog.len(),
                name == old(self).name(),
                prog == old(self).program(),
                start == old(self).pc(),
                self.name() == name,
                self.program() == prog,
                *content == *old(content),
                run_spec(name, prog, start, (bound + 1) as nat) == run_spec(
                    name,
                    prog,
                    self.pc(),
                    (bound + 1 - n) as nat,
                ),
            decreases bound - n,
        {
            let r = self.exec_single_inst(content);
            match r {
                Ok(Action::Continue) => {
                    if n == bound {
                        return r;
                    }
                    n = n + 1;
                },
                _ => {
                    return r;
                },
            }
        }
    }
}

/// A copy of a speaker's name.
fn clone_name(o: &Option<String>) -> (r: Option<String>)
    ensures
        opt_view(r) == opt_view(*o),
{
    match o {
        Some(s) => Some(s.clone()),
        None => None,
    }
}

/// The position of the first `:` of `s`.
fn find_colon(s: &str) -> (r: Option<usize>)
    ensures
        match first_colon(s@) {
            Some(k) => r matches Some(i) && i == k,
            None => r is None,
        },
        r matches Some(k) ==> k < s@.len(),
{
    let cs = chars_of(s);
    let mut i: usize = 0;
    assert(s@.skip(0) =~= s@);
    while i < cs.len()
        invariant
            i <= cs.len(),
            cs@ == s@,
            first_colon(s@) == match first_colon(s@.skip(i as int)) {
                Some(k) => Some(k + i),
                None => None::<int>,
            },
        decreases cs.len() - i,
    {
        assert(s@.skip(i as int).drop_first() =~= s@.skip(i + 1));
        if cs[i] == ':' {
            return Some(i);
        }
        i = i + 1;
    }
    assert(s@.skip(i as int).len() == 0);
    None
}

/// Entering a script replaces the whole label universe: in the program that
/// `switch_script` installs from `source`, a label resolves exactly when that
/// program defines it, whatever the previous program defined.
pub proof fn lemma_switch_replaces_labels(source: Seq<char>, name: Seq<char>)
    requires
        parse_spec(source) is Ok,
    ensures
        label_target(parse_spec(source)->Ok_0, name) is Some <==> exists|j: int|
            0 <= j < (parse_spec(source)->Ok_0).len() && (parse_spec(source)->Ok_0)[j] == (
            InstModel::Label { label: name }),
{
    let p = parse_spec(source)->Ok_0;
    lemma_label_target(p, name);
    if let Some(k) = label_target(p, name) {
        assert(p[k - 1] == (InstModel::Label { label: name }));
    }
}

/// A run pauses only on a line of dialogue: when it reports a pause, the
/// instruction just before the new program counter is the `Say` whose text
/// and speaker it reports. With `said`, each call of
/// `Script::execute_script` thus shows exactly one line when it pauses and
/// none otherwise.
pub proof fn lemma_pause_follows_say(name: Seq<char>, insts: Seq<InstModel>, pc: int, fuel: nat)
    ensures
        match run_spec(name, insts, pc, fuel) {
            (Outcome::Pause(saying, character), q) => {
                &&& 1 <= q <= insts.len()
                &&& insts[q - 1] == (InstModel::Say { saying, character })
            },
            _ => true,
        },
    decreases fuel,
{
    let (o, next) = step_spec(name, insts, pc);
    if o == Outcome::Continue && fuel > 1 {
        lemma_pause_follows_say(name, insts, next, (fuel - 1) as nat);
    }
}

} // verus!
