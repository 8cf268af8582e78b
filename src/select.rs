use vstd::prelude::*;

verus! {

/// The character sequences held by a sequence of strings.
pub open spec fn strs(v: Seq<String>) -> Seq<Seq<char>> {
    v.map_values(|s: String| s@)
}

/// A multiple-choice question for the user: a title, the message shown when
/// nothing is picked, the labelled options and which of them start checked.
/// Whoever shows it answers with the positions picked, at least one.
pub struct SelectionPrompt {
    pub title: String,
    pub empty_error: String,
    pub options: Vec<String>,
    pub defaults: Vec<bool>,
}

pub struct PromptView {
    pub title: Seq<char>,
    pub empty_error: Seq<char>,
    pub options: Seq<Seq<char>>,
    pub defaults: Seq<bool>,
}

impl View for SelectionPrompt {
    type V = PromptView;

    open spec fn view(&self) -> PromptView {
        PromptView {
            title: self.title@,
            empty_error: self.empty_error@,
            options: strs(self.options@),
            defaults: self.defaults@,
        }
    }
}

/// Whether `picks` is an answer to a question with `n` options: at least one
/// position, each of them in range.
pub open spec fn valid_picks(picks: Seq<usize>, n: nat) -> bool {
    &&& picks.len() > 0
    &&& forall|i: int| 0 <= i < picks.len() ==> #[trigger] picks[i] < n
}

} // verus!
