use vstd::prelude::*;

verus! {

/// One directive of a script.
#[derive(Debug, Clone, PartialEq, Eq)]
pub enum Instruction {
    /// Show a line of dialogue, optionally with the speaker's name. This is
    /// the only instruction that pauses execution.
    Say { saying: String, character: Option<String> },
    /// Change the background to the named resource.
    Scene { resource: String },
    /// Jump to a label, either `name` in the current script or
    /// `script:name` in another one.
    Switch { label: String },
    /// A jump target; executing it has no effect.
    Label { label: String },
}

/// The mathematical value of an [`Instruction`]: its strings as character
/// sequences.
pub enum InstModel {
    Say { saying: Seq<char>, character: Option<Seq<char>> },
    Scene { resource: Seq<char> },
    Switch { label: Seq<char> },
    Label { label: Seq<char> },
}

pub open spec fn opt_view(o: Option<String>) -> Option<Seq<char>> {
    match o {
        Some(s) => Some(s@),
        None => None,
    }
}

impl View for Instruction {
    type V = InstModel;

    open spec fn view(&self) -> InstModel {
        match self {
            Instruction::Say { saying, character } => InstModel::Say {
                saying: saying@,
                character: opt_view(*character),
            },
            Instruction::Scene { resource } => InstModel::Scene { resource: resource@ },
            Instruction::Switch { label } => InstModel::Switch { label: label@ },
            Instruction::Label { label } => InstModel::Label { label: label@ },
        }
    }
}

/// The models of a sequence of instructions.
pub open spec fn insts_view(v: Seq<Instruction>) -> Seq<InstModel> {
    v.map_values(|i: Instruction| i@)
}

/// Where execution resumes after a jump to `name`: the position just after the
/// first `Label { name }` of `insts`, or `None` when there is no such label.
pub open spec fn label_target(insts: Seq<InstModel>, name: Seq<char>) -> Option<int>
    decreases insts.len(),
{
    if insts.len() == 0 {
        None
    } else if insts[0] == (InstModel::Label { label: name }) {
        Some(1)
    } else {
        match label_target(insts.drop_first(), name) {
            Some(k) => Some(k + 1),
            None => None,
        }
    }
}

/// Label resolution depends on the instruction sequence alone: it yields the
/// position right after the first `Label` of that name in source order, and
/// nothing exactly when no such label exists.
pub proof fn lemma_label_target(insts: Seq<InstModel>, name: Seq<char>)
    ensures
        match label_target(insts, name) {
            Some(k) => {
                &&& 1 <= k <= insts.len()
                &&& insts[k - 1] == (InstModel::Label { label: name })
                &&& forall|j: int| 0 <= j < k - 1 ==> insts[j] != (InstModel::Label { label: name })
            },
            None => forall|j: int|
                0 <= j < insts.len() ==> insts[j] != (InstModel::Label { label: name }),
        },
    decreases insts.len(),
{
    if insts.len() > 0 && insts[0] != (InstModel::Label { label: name }) {
        let rest = insts.drop_first();
        assert(rest.len() == insts.len() - 1);
        assert(forall|j: int| 0 < j < insts.len() ==> insts[j] == #[trigger] rest[j - 1]);
        lemma_label_target(rest, name);
        match label_target(rest, name) {
            Some(k) => {
                assert forall|j: int| 0 <= j < k implies insts[j] != (InstModel::Label {
                    label: name,
                }) by {
                    if j > 0 {
                        assert(insts[j] == rest[j - 1]);
                    }
                }
            },
            None => {
                assert forall|j: int| 0 <= j < insts.len() implies insts[j] != (InstModel::Label {
                    label: name,
                }) by {
                    if j > 0 {
                        assert(insts[j] == rest[j - 1]);
                    }
                }
            },
        }
    }
}

} // verus!
