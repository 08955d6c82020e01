//! The language-model capability, and a scripted model for tests and demos.
use std::collections::VecDeque;

use vstd::prelude::*;

verus! {

/// A language model's failure, with a human-readable cause.
#[derive(Debug, PartialEq)]
pub struct ModelError {
    pub message: String,
}

/// Anything that turns a prompt into a completion, or fails.
pub trait LanguageModel {
    fn complete(&mut self, prompt: &str) -> Result<String, ModelError>;
}

/// The cause given once a scripted model has no response left.
pub open spec fn exhausted_message() -> Seq<char> {
    "StubModel ran out of scripted responses"@
}

/// A deterministic model: it hands out its scripted responses in order,
/// whatever the prompt, and fails once they are used up.
pub struct StubModel {
    responses: VecDeque<String>,
}

impl StubModel {
    /// The responses not yet handed out, in order.
    pub closed spec fn remaining(&self) -> Seq<Seq<char>> {
        self.responses@.map_values(|s: String| s@)
    }

    /// A model that will answer with `responses`, in order.
    pub fn new(responses: Vec<String>) -> (r: StubModel)
        ensures
            r.remaining() == responses@.map_values(|s: String| s@),
    {
        let mut queue: VecDeque<String> = VecDeque::new();
        let mut i: usize = 0;
        while i < responses.len()
            invariant
                0 <= i <= responses.len(),
                queue@ =~= responses@.take(i as int),
            decreases responses.len() - i,
        {
            queue.push_back(responses[i].clone());
            i = i + 1;
        }
        assert(responses@.take(i as int) =~= responses@);
        StubModel { responses: queue }
    }

    /// How many responses are left.
    pub fn remaining_count(&self) -> (r: usize)
        ensures
            r == self.remaining().len(),
    {
        self.responses.len()
    }

    /// Hands out the next scripted response, or fails when none is left.
    pub fn next_response(&mut self) -> (r: Result<String, ModelError>)
        ensures
            old(self).remaining().len() > 0 ==> r is Ok && r->Ok_0@ == old(self).remaining()[0]
                && final(self).remaining() == old(self).remaining().drop_first(),
            old(self).remaining().len() == 0 ==> r is Err && r->Err_0.message@ == exhausted_message()
                && final(self).remaining() == old(self).remaining(),
    {
        let ghost before = self.remaining();
        match self.responses.pop_front() {
            Some(r) => {
                assert(self.remaining() =~= before.drop_first());
                Ok(r)
            },
            None => {
                let message = "StubModel ran out of scripted responses".to_owned();
                Err(ModelError { message })
            },
        }
    }
}

impl LanguageModel for StubModel {
    /// The prompt is never read: the next scripted response is handed out.
    fn complete(&mut self, prompt: &str) -> (r: Result<String, ModelError>)
        ensures
            old(self).remaining().len() > 0 ==> r is Ok && r->Ok_0@ == old(self).remaining()[0]
                && final(self).remaining() == old(self).remaining().drop_first(),
            old(self).remaining().len() == 0 ==> r is Err && r->Err_0.message@ == exhausted_message()
                && final(self).remaining() == old(self).remaining(),
    {
        self.next_response()
    }
}

} // verus!
