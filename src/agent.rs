//! The agent loop: ask the model, read its directive, call a tool or answer.
//!
//! `AgentLoop` holds the decisions, one method per event; `Agent` drives them
//! with a model and a registry of tools.
use vstd::prelude::*;

use crate::directive::{outline_of_result, outline_of_text, parse_directive, text_field, Directive, DirectiveParseError, Outline};
use crate::error::{result_view, AgentError, Failure};
use crate::json::{json_object_entries, value_text};
use crate::model::{LanguageModel, ModelError};
use vstd::string::StringExecFns;
use crate::tool::{Tool, ToolRegistry};

verus! {

/// The number of model calls that one call of `respond` may make by default.
pub const DEFAULT_MAX_ITERATIONS: usize = 10;

/// The plain-value state of a loop: the prompt so far, the model calls made,
/// and the most that may be made.
pub struct LoopState {
    pub prompt: Seq<char>,
    pub iterations: nat,
    pub cap: nat,
}

/// The state in which a loop on `message` begins.
pub open spec fn start(message: Seq<char>, cap: nat) -> LoopState {
    LoopState { prompt: message, iterations: 0, cap }
}

/// Asking the model: the prompt to send, or the end of the loop at the cap.
pub open spec fn ask(s: LoopState) -> (LoopState, Result<Seq<char>, Failure>) {
    if s.iterations < s.cap {
        (LoopState { iterations: s.iterations + 1, ..s }, Ok(s.prompt))
    } else {
        (s, Err(Failure::LoopLimitExceeded))
    }
}

/// The text that a tool's output adds to the prompt.
pub open spec fn observation(name: Seq<char>, output: Seq<char>) -> Seq<char> {
    "\nObservation from "@ + name + ": "@ + output
}

/// The state once a tool's output is recorded.
pub open spec fn observe(s: LoopState, name: Seq<char>, output: Seq<char>) -> LoopState {
    LoopState { prompt: s.prompt + observation(name, output), ..s }
}

/// The state after one round per entry: the model is asked, and the output
/// of the tool `names[i]` is recorded.
pub open spec fn rounds(s: LoopState, names: Seq<Seq<char>>, outputs: Seq<Seq<char>>) -> LoopState
    decreases outputs.len(),
{
    if outputs.len() == 0 || names.len() != outputs.len() {
        s
    } else {
        observe(
            ask(rounds(s, names.drop_last(), outputs.drop_last())).0,
            names.last(),
            outputs.last(),
        )
    }
}

/// What the loop does next after a completion.
#[derive(Debug, PartialEq)]
pub enum Step {
    /// Call the registered tool `name` with `arguments`.
    CallTool { name: String, arguments: serde_json::Value },
    /// The loop is over, with this result.
    Finish(Result<String, AgentError>),
}

/// The plain-value form of a step, without the tool arguments.
pub enum StepView {
    CallTool(Seq<char>),
    Finish(Result<Seq<char>, Failure>),
}

impl View for Step {
    type V = StepView;

    open spec fn view(&self) -> StepView {
        match self {
            Step::CallTool { name, .. } => StepView::CallTool(name@),
            Step::Finish(r) => StepView::Finish(result_view(*r)),
        }
    }
}

/// The step for a directive, given the registered names.
pub open spec fn directive_step(names: Seq<Seq<char>>, d: Outline) -> StepView {
    match d {
        Outline::Invalid(f) => StepView::Finish(Err(Failure::DirectiveParse(f))),
        Outline::Respond(c) => StepView::Finish(Ok(c)),
        Outline::CallTool(n) => if names.contains(n) {
            StepView::CallTool(n)
        } else {
            StepView::Finish(Err(Failure::ToolNotFound(n)))
        },
    }
}

/// The step for a completion, or for the model's failure.
pub open spec fn completion_step(names: Seq<Seq<char>>, c: Result<Seq<char>, Seq<char>>) -> StepView {
    match c {
        Err(m) => StepView::Finish(Err(Failure::LanguageModel(m))),
        Ok(text) => directive_step(names, outline_of_text(text)),
    }
}

/// A directive that calls a registered tool is dispatched to that tool.
pub proof fn lemma_registered_tool_dispatched(names: Seq<Seq<char>>, name: Seq<char>)
    requires
        names.contains(name),
    ensures
        directive_step(names, Outline::CallTool(name)) == StepView::CallTool(name),
{
}

/// A directive that calls a tool not registered ends the loop with
/// `ToolNotFound` for that name, and no tool is called.
pub proof fn lemma_unregistered_tool_not_found(names: Seq<Seq<char>>, name: Seq<char>)
    requires
        !names.contains(name),
    ensures
        directive_step(names, Outline::CallTool(name)) == StepView::Finish(
            Err(Failure::ToolNotFound(name)),
        ),
{
}

/// A completion that is no JSON object, or whose object lacks a string
/// `action` or holds an action other than `call_tool` and `respond`, ends the
/// loop with a parse failure, and no tool is called.
pub proof fn lemma_invalid_action_fails_parse(names: Seq<Seq<char>>, text: Seq<char>)
    requires
        match json_object_entries(text) {
            None => true,
            Some(entries) => match text_field(entries, "action"@) {
                None => true,
                Some(a) => a != "call_tool"@ && a != "respond"@,
            },
        },
    ensures
        completion_step(names, Ok(text)) matches StepView::Finish(Err(Failure::DirectiveParse(_))),
{
}

/// Where every completion calls a registered tool and every call succeeds,
/// a loop with cap `cap` asks the model exactly `cap` times and then ends
/// with `LoopLimitExceeded`.
pub proof fn lemma_loop_stops_at_cap(
    message: Seq<char>,
    cap: nat,
    names: Seq<Seq<char>>,
    calls: Seq<Seq<char>>,
    outputs: Seq<Seq<char>>,
)
    requires
        calls.len() == cap,
        outputs.len() == cap,
        forall|i: int| 0 <= i < cap ==> names.contains(#[trigger] calls[i]),
    ensures
        forall|k: int|
            0 <= k < cap ==> (#[trigger] ask(rounds(start(message, cap), calls.take(k), outputs.take(k)))).1 is Ok
                && directive_step(names, Outline::CallTool(calls[k])) == StepView::CallTool(calls[k]),
        ask(rounds(start(message, cap), calls, outputs)).1 == Err::<Seq<char>, Failure>(
            Failure::LoopLimitExceeded,
        ),
{
    assert forall|k: int| 0 <= k < cap implies (#[trigger] ask(rounds(start(message, cap), calls.take(k), outputs.take(k)))).1 is Ok
        && directive_step(names, Outline::CallTool(calls[k])) == StepView::CallTool(calls[k]) by {
        lemma_rounds_count(start(message, cap), calls, outputs, k);
    }
    lemma_rounds_count(start(message, cap), calls, outputs, cap as int);
    assert(calls.take(cap as int) =~= calls);
    assert(outputs.take(cap as int) =~= outputs);
}

/// From a fresh count, `k` rounds within the cap leave `k` model calls made.
proof fn lemma_rounds_count(s: LoopState, calls: Seq<Seq<char>>, outputs: Seq<Seq<char>>, k: int)
    requires
        s.iterations == 0,
        calls.len() == outputs.len(),
        0 <= k <= calls.len(),
        k <= s.cap,
    ensures
        rounds(s, calls.take(k), outputs.take(k)).iterations == k,
        rounds(s, calls.take(k), outputs.take(k)).cap == s.cap,
    decreases k,
{
    if k > 0 {
        lemma_rounds_count(s, calls, outputs, k - 1);
        assert(calls.take(k).drop_last() =~= calls.take(k - 1));
        assert(outputs.take(k).drop_last() =~= outputs.take(k - 1));
    }
}

/// What one call of `respond` exchanged with its collaborators: the prompts
/// sent to the model, what the model returned (its text, or its failure's
/// message), and what each tool call returned (its output as text, or its
/// failure's cause).
pub struct Transcript {
    pub prompts: Seq<Seq<char>>,
    pub completions: Seq<Result<Seq<char>, Seq<char>>>,
    pub outputs: Seq<Result<Seq<char>, Seq<char>>>,
}

/// The transcript of nothing.
pub open spec fn empty_transcript() -> Transcript {
    Transcript { prompts: Seq::empty(), completions: Seq::empty(), outputs: Seq::empty() }
}

/// `a` followed by `b`.
pub open spec fn then(a: Transcript, b: Transcript) -> Transcript {
    Transcript {
        prompts: a.prompts + b.prompts,
        completions: a.completions + b.completions,
        outputs: a.outputs + b.outputs,
    }
}

pub open spec fn is_empty_transcript(t: Transcript) -> bool {
    t.prompts.len() == 0 && t.completions.len() == 0 && t.outputs.len() == 0
}

/// The result of a loop from `s` whose exchanges are exactly `t`, or `None`
/// where `t` is not what such a loop exchanges: each round sends the current
/// prompt, reads the completion, and on a tool call records the tool's
/// output, until an answer, a failure, or the cap.
pub open spec fn run_loop(s: LoopState, names: Seq<Seq<char>>, t: Transcript) -> Option<Result<Seq<char>, Failure>>
    decreases t.completions.len(),
{
    if s.iterations >= s.cap {
        if is_empty_transcript(t) {
            Some(Err(Failure::LoopLimitExceeded))
        } else {
            None
        }
    } else if t.completions.len() == 0 || t.prompts.len() == 0 || t.prompts[0] != s.prompt {
        None
    } else {
        let rest = Transcript {
            prompts: t.prompts.drop_first(),
            completions: t.completions.drop_first(),
            outputs: t.outputs,
        };
        match completion_step(names, t.completions[0]) {
            StepView::Finish(r) => if is_empty_transcript(rest) {
                Some(r)
            } else {
                None
            },
            StepView::CallTool(n) => if t.outputs.len() == 0 {
                None
            } else {
                let after = Transcript { outputs: t.outputs.drop_first(), ..rest };
                match t.outputs[0] {
                    Err(cause) => if is_empty_transcript(after) {
                        Some(Err(Failure::ToolExecution(n, cause)))
                    } else {
                        None
                    },
                    Ok(out) => run_loop(observe(ask(s).0, n, out), names, after),
                }
            },
        }
    }
}

/// Where every completion of a run calls a registered tool and every tool
/// call succeeds, the run ends with `LoopLimitExceeded` after exactly as many
/// model calls as the cap leaves.
pub proof fn lemma_always_calling_hits_cap(s: LoopState, names: Seq<Seq<char>>, t: Transcript)
    requires
        run_loop(s, names, t) is Some,
        s.iterations <= s.cap,
        forall|i: int| 0 <= i < t.completions.len() ==> #[trigger] completion_step(names, t.completions[i]) is CallTool,
        forall|i: int| 0 <= i < t.outputs.len() ==> #[trigger] t.outputs[i] is Ok,
    ensures
        run_loop(s, names, t) == Some(Err::<Seq<char>, Failure>(Failure::LoopLimitExceeded)),
        t.completions.len() == s.cap - s.iterations,
    decreases t.completions.len(),
{
    if s.iterations < s.cap {
        assert(completion_step(names, t.completions[0]) is CallTool);
        assert(t.outputs[0] is Ok);
        let n = completion_step(names, t.completions[0])->CallTool_0;
        let after = Transcript {
            prompts: t.prompts.drop_first(),
            completions: t.completions.drop_first(),
            outputs: t.outputs.drop_first(),
        };
        assert forall|i: int| 0 <= i < after.completions.len() implies #[trigger] completion_step(names, after.completions[i]) is CallTool by {
            assert(completion_step(names, t.completions[i + 1]) is CallTool);
        }
        assert forall|i: int| 0 <= i < after.outputs.len() implies #[trigger] after.outputs[i] is Ok by {
            assert(t.outputs[i + 1] is Ok);
        }
        lemma_always_calling_hits_cap(observe(ask(s).0, n, t.outputs[0]->Ok_0), names, after);
    }
}

/// Where the first `k` completions of a run call registered tools whose
/// calls succeed and completion `k` ends the loop (an answer, an unknown
/// tool, a parse failure, a model failure), the run's result is what that
/// completion gives, after exactly `k + 1` model calls and `k` tool calls.
pub proof fn lemma_run_ends_at_finishing_completion(s: LoopState, names: Seq<Seq<char>>, t: Transcript, k: int)
    requires
        run_loop(s, names, t) is Some,
        0 <= k < t.completions.len(),
        forall|i: int| 0 <= i < k ==> #[trigger] completion_step(names, t.completions[i]) is CallTool,
        forall|i: int| 0 <= i < k ==> i < t.outputs.len() && #[trigger] t.outputs[i] is Ok,
        completion_step(names, t.completions[k]) is Finish,
    ensures
        run_loop(s, names, t) == Some(completion_step(names, t.completions[k])->Finish_0),
        t.completions.len() == k + 1,
        t.outputs.len() == k,
    decreases k,
{
    if k > 0 {
        assert(completion_step(names, t.completions[0]) is CallTool);
        assert(t.outputs[0] is Ok);
        let n = completion_step(names, t.completions[0])->CallTool_0;
        let after = Transcript {
            prompts: t.prompts.drop_first(),
            completions: t.completions.drop_first(),
            outputs: t.outputs.drop_first(),
        };
        assert forall|i: int| 0 <= i < k - 1 implies #[trigger] completion_step(names, after.completions[i]) is CallTool by {
            assert(completion_step(names, t.completions[i + 1]) is CallTool);
        }
        assert forall|i: int| 0 <= i < k - 1 implies i < after.outputs.len() && #[trigger] after.outputs[i] is Ok by {
            assert(t.outputs[i + 1] is Ok);
        }
        assert(after.completions[k - 1] == t.completions[k]);
        lemma_run_ends_at_finishing_completion(observe(ask(s).0, n, t.outputs[0]->Ok_0), names, after, k - 1);
    }
}

/// The plain-value form of what the model returned.
pub open spec fn completion_view(c: Result<String, ModelError>) -> Result<Seq<char>, Seq<char>> {
    match c {
        Ok(t) => Ok(t@),
        Err(e) => Err(e.message@),
    }
}

/// The plain-value form of what a tool call returned.
pub open spec fn output_view(o: Result<String, String>) -> Result<Seq<char>, Seq<char>> {
    match o {
        Ok(t) => Ok(t@),
        Err(c) => Err(c@),
    }
}

/// The state of one call of the loop.
pub struct AgentLoop {
    prompt: String,
    iterations: usize,
    cap: usize,
}

impl View for AgentLoop {
    type V = LoopState;

    closed spec fn view(&self) -> LoopState {
        LoopState { prompt: self.prompt@, iterations: self.iterations as nat, cap: self.cap as nat }
    }
}

impl AgentLoop {
    pub closed spec fn wf(&self) -> bool {
        self.iterations <= self.cap
    }

    /// A loop on `message` that may ask the model at most `cap` times.
    pub fn new(message: &str, cap: usize) -> (r: AgentLoop)
        ensures
            r.wf(),
            r@ == start(message@, cap as nat),
    {
        AgentLoop { prompt: message.to_owned(), iterations: 0, cap }
    }

    /// The prompt for the next model call, counted against the cap; past the
    /// cap, `LoopLimitExceeded`.
    pub fn next_prompt(&mut self) -> (r: Result<String, AgentError>)
        requires
            old(self).wf(),
        ensures
            final(self).wf(),
            (final(self)@, result_view(r)) == ask(old(self)@),
    {
        if self.iterations < self.cap {
            self.iterations = self.iterations + 1;
            Ok(self.prompt.clone())
        } else {
            Err(AgentError::LoopLimitExceeded)
        }
    }

    /// The step for a parsed directive: a registered tool to call with the
    /// directive's own arguments, or the end of the loop.
    pub fn on_directive<T: Tool>(&self, tools: &ToolRegistry<T>, d: Result<Directive, DirectiveParseError>) -> (r: Step)
        requires
            tools.wf(),
        ensures
            r@ == directive_step(tools.names(), outline_of_result(d)),
            d matches Ok(Directive::CallTool { arguments, .. }) ==> (r matches Step::CallTool { arguments: a, .. } ==> a == arguments),
    {
        match d {
            Ok(Directive::Respond { content }) => Step::Finish(Ok(content)),
            Ok(Directive::CallTool { name, arguments }) => {
                match tools.resolve(name.as_str()) {
                    Some(_) => Step::CallTool { name, arguments },
                    None => Step::Finish(Err(AgentError::ToolNotFound { name })),
                }
            },
            Err(e) => Step::Finish(Err(AgentError::DirectiveParse(e))),
        }
    }

    /// The step for what the model returned.
    pub fn on_completion<T: Tool>(&self, tools: &ToolRegistry<T>, completion: Result<String, ModelError>) -> (r: Step)
        requires
            tools.wf(),
        ensures
            r@ == completion_step(tools.names(), completion_view(completion)),
    {
        match completion {
            Ok(text) => self.on_directive(tools, parse_directive(text.as_str())),
            Err(e) => Step::Finish(Err(AgentError::LanguageModel(e.message))),
        }
    }

    /// Records a tool's result: its output text joins the prompt; its failure
    /// ends the loop with `ToolExecution`.
    pub fn on_tool_output(&mut self, name: &str, output: Result<String, String>) -> (r: Result<(), AgentError>)
        requires
            old(self).wf(),
        ensures
            final(self).wf(),
            match output {
                Ok(text) => r is Ok && final(self)@ == observe(old(self)@, name@, text@),
                Err(cause) => r matches Err(e) && e@ == Failure::ToolExecution(name@, cause@)
                    && final(self)@ == old(self)@,
            },
    {
        match output {
            Ok(text) => {
                let ghost before = self.prompt@;
                self.prompt.append("\nObservation from ");
                self.prompt.append(name);
                self.prompt.append(": ");
                self.prompt.append(text.as_str());
                assert(self.prompt@ =~= before + observation(name@, text@));
                Ok(())
            },
            Err(cause) => Err(AgentError::ToolExecution { name: name.to_owned(), cause }),
        }
    }
}

/// A language model and a registry of tools, driven by the loop.
pub struct Agent<M: LanguageModel, T: Tool> {
    model: M,
    tools: ToolRegistry<T>,
    max_iterations: usize,
    last_run: Ghost<Transcript>,
}

impl<M: LanguageModel, T: Tool> Agent<M, T> {
    /// The model.
    pub closed spec fn model(&self) -> M {
        self.model
    }

    /// The tools that directives may call.
    pub closed spec fn registry(&self) -> ToolRegistry<T> {
        self.tools
    }

    /// The most model calls that one `respond` makes.
    pub closed spec fn max_iterations(&self) -> nat {
        self.max_iterations as nat
    }

    /// What the latest call of `respond` exchanged with the model and tools.
    pub closed spec fn last_run(&self) -> Transcript {
        self.last_run@
    }

    pub open spec fn wf(&self) -> bool {
        self.registry().wf()
    }

    /// The model, as it stands.
    pub fn model_ref(&self) -> (r: &M)
        ensures
            *r == self.model(),
    {
        &self.model
    }

    /// The registry of tools.
    pub fn tools(&self) -> (r: &ToolRegistry<T>)
        ensures
            *r == self.registry(),
    {
        &self.tools
    }

    /// An agent over `model` with no tools and the default cap.
    pub fn new(model: M) -> (r: Agent<M, T>)
        ensures
            r.wf(),
            r.model() == model,
            r.registry().tools() == Seq::<T>::empty(),
            r.max_iterations() == DEFAULT_MAX_ITERATIONS as nat,
    {
        Agent {
            model,
            tools: ToolRegistry::new(),
            max_iterations: DEFAULT_MAX_ITERATIONS,
            last_run: Ghost(empty_transcript()),
        }
    }

    /// The same agent with `tools` as its registry.
    pub fn with_tools(self, tools: ToolRegistry<T>) -> (r: Agent<M, T>)
        requires
            tools.wf(),
        ensures
            r.wf(),
            r.model() == self.model(),
            r.registry() == tools,
            r.max_iterations() == self.max_iterations(),
    {
        Agent { tools, ..self }
    }

    /// The same agent with `cap` as its iteration cap.
    pub fn with_max_iterations(self, cap: usize) -> (r: Agent<M, T>)
        ensures
            r.model() == self.model(),
            r.registry() == self.registry(),
            r.max_iterations() == cap as nat,
    {
        Agent { max_iterations: cap, ..self }
    }

    /// Answers `message`: asks the model, and while its completions call
    /// registered tools, calls them and adds their output to the prompt,
    /// until a completion responds, a stage fails, or the cap is reached.
    /// A failed tool call ends the loop with `ToolExecution`. The exchanges
    /// of the call are kept as `last_run`, and the result is what the loop
    /// gives on them.
    pub fn respond(&mut self, message: &str) -> (r: Result<String, AgentError>)
        requires
            old(self).wf(),
        ensures
            final(self).wf(),
            final(self).registry() == old(self).registry(),
            final(self).max_iterations() == old(self).max_iterations(),
            run_loop(
                start(message@, old(self).max_iterations()),
                old(self).registry().names(),
                final(self).last_run(),
            ) == Some(result_view(r)),
            final(self).last_run().completions.len() <= old(self).max_iterations(),
    {
        let (r, Ghost(t)) = self.drive(message);
        self.last_run = Ghost(t);
        r
    }

    /// Runs the loop, and hands back with the result what it exchanged.
    fn drive(&mut self, message: &str) -> (out: (Result<String, AgentError>, Ghost<Transcript>))
        requires
            old(self).wf(),
        ensures
            final(self).wf(),
            final(self).registry() == old(self).registry(),
            final(self).max_iterations() == old(self).max_iterations(),
            final(self).last_run() == old(self).last_run(),
            run_loop(start(message@, old(self).max_iterations()), old(self).registry().names(), out.1@)
                == Some(result_view(out.0)),
            out.1@.completions.len() <= old(self).max_iterations(),
    {
        let mut state = AgentLoop::new(message, self.max_iterations);
        let ghost names = self.registry().names();
        let ghost s0 = state@;
        let ghost mut log = empty_transcript();
        assert forall|x: Transcript| run_loop(s0, names, then(log, x)) == #[trigger] run_loop(state@, names, x) by {
            assert(then(log, x).prompts =~= x.prompts);
            assert(then(log, x).completions =~= x.completions);
            assert(then(log, x).outputs =~= x.outputs);
        }
        loop
            invariant
                state.wf(),
                self.wf(),
                self.registry() == old(self).registry(),
                self.max_iterations() == old(self).max_iterations(),
                self.last_run() == old(self).last_run(),
                names == self.registry().names(),
                s0 == start(message@, self.max_iterations()),
                state@.cap == self.max_iterations(),
                log.completions.len() == state@.iterations,
                forall|x: Transcript| run_loop(s0, names, then(log, x)) == #[trigger] run_loop(state@, names, x),
            decreases state@.cap - state@.iterations,
        {
            let ghost before = state@;
            let prompt = match state.next_prompt() {
                Ok(p) => p,
                Err(e) => {
                    assert(run_loop(state@, names, empty_transcript()) == Some(result_view(Err::<String, AgentError>(e))));
                    assert(then(log, empty_transcript()) == log) by {
                        assert(then(log, empty_transcript()).prompts =~= log.prompts);
                        assert(then(log, empty_transcript()).completions =~= log.completions);
                        assert(then(log, empty_transcript()).outputs =~= log.outputs);
                    }
                    return (Err(e), Ghost(log));
                },
            };
            let completion = self.model.complete(prompt.as_str());
            let ghost c = completion_view(completion);
            let ghost asked = Transcript { prompts: seq![prompt@], completions: seq![c], outputs: Seq::empty() };
            match state.on_completion(&self.tools, completion) {
                Step::Finish(r) => {
                    assert(run_loop(before, names, asked) == Some(result_view(r)));
                    return (r, Ghost(then(log, asked)));
                },
                Step::CallTool { name, arguments } => {
                    let output = match self.tools.resolve(name.as_str()) {
                        Some(tool) => match tool.call(arguments) {
                            Ok(v) => Ok(value_text(&v)),
                            Err(cause) => Err(cause),
                        },
                        None => {
                            assert(false);
                            return (Err(AgentError::ToolNotFound { name }), Ghost(log));
                        },
                    };
                    let ghost o = output_view(output);
                    let ghost round = Transcript { prompts: seq![prompt@], completions: seq![c], outputs: seq![o] };
                    let ghost mid = state@;
                    match state.on_tool_output(name.as_str(), output) {
                        Ok(()) => {
                            assert forall|x: Transcript| run_loop(s0, names, then(then(log, round), x)) == #[trigger] run_loop(state@, names, x) by {
                                let y = then(round, x);
                                assert(then(then(log, round), x) == then(log, y)) by {
                                    assert(then(then(log, round), x).prompts =~= then(log, y).prompts);
                                    assert(then(then(log, round), x).completions =~= then(log, y).completions);
                                    assert(then(then(log, round), x).outputs =~= then(log, y).outputs);
                                }
                                assert(run_loop(s0, names, then(log, y)) == run_loop(before, names, y));
                                assert(y.prompts.drop_first() =~= x.prompts);
                                assert(y.completions.drop_first() =~= x.completions);
                                assert(y.outputs.drop_first() =~= x.outputs);
                                let rest = Transcript { prompts: y.prompts.drop_first(), completions: y.completions.drop_first(), outputs: y.outputs };
                                let after = Transcript { outputs: y.outputs.drop_first(), ..rest };
                                assert(after == x);
                            }
                            proof { log = then(log, round); }
                        },
                        Err(e) => {
                            assert(run_loop(before, names, round) == Some(result_view(Err::<String, AgentError>(e))));
                            return (Err(e), Ghost(then(log, round)));
                        },
                    }
                },
            }
        }
    }
}

} // verus!
