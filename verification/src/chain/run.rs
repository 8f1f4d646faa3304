//! Running a chain, one decision at a time: which step comes next, what
//! to ask the model, and what a reply or the user's choice changes. The
//! caller asks the model and the user, and hands back what they said.
use vstd::prelude::*;

use crate::chain::condition::{condition_holds, evaluate_condition};
use crate::chain::config::{is_completion_mode, step_position, position_spec, ChainConfig, StepModel};
use crate::chain::memory::{bind, lookup, Memory};
use crate::chain::template::{apply_template, fill_spec};
use crate::strings::lowercase_of;
use crate::text::same_text;

verus! {

/// `m` with each of `entries` bound in turn.
pub open spec fn bind_all(
    m: Seq<(Seq<char>, Seq<char>)>,
    entries: Seq<(Seq<char>, Seq<char>)>,
) -> Seq<(Seq<char>, Seq<char>)>
    decreases entries.len(),
{
    if entries.len() == 0 {
        m
    } else {
        bind_all(bind(m, entries[0].0, entries[0].1), entries.drop_first())
    }
}

/// Whether the user reviews replies: when the output is a terminal and not
/// JSON, or when the chain asks for it anyway.
pub open spec fn interactive_spec(is_pipe: bool, json_output: bool, auto_start: bool) -> bool {
    (!is_pipe && !json_output) || auto_start
}

/// Whether the user reviews the replies of this chain.
pub fn is_interactive(config: &ChainConfig, is_pipe: bool, json_output: bool) -> (b: bool)
    ensures
        b == interactive_spec(is_pipe, json_output, config.interactive_config.auto_start),
{
    (!is_pipe && !json_output) || config.interactive_config.auto_start
}

/// Whether a prompt the user changed is asked again as a completion: only in
/// a run with several providers, for a step in completion mode; a run with
/// one provider asks it as a chat.
pub fn reask_as_completion(multi_provider: bool, completion: bool) -> (b: bool)
    ensures
        b == (multi_provider && completion),
{
    multi_provider && completion
}

/// Whether the end of a run tells the user that saving the history is yet
/// to come: a reviewed run with several providers, on a terminal, not JSON,
/// with a save path set.
pub fn announces_history_saving(
    config: &ChainConfig,
    multi_provider: bool,
    interactive: bool,
    is_pipe: bool,
    json_output: bool,
) -> (b: bool)
    ensures
        b == (multi_provider && interactive && !is_pipe && !json_output
            && config.interactive_config.save_path is Some),
{
    multi_provider && interactive && !is_pipe && !json_output
        && config.interactive_config.save_path.is_some()
}

/// The abstract state of a run.
pub struct RunModel {
    /// The index of the step to consider next.
    pub step: int,
    /// The variables templates and conditions read.
    pub memory: Seq<(Seq<char>, Seq<char>)>,
    /// The replies of the steps run so far, by step name.
    pub results: Seq<(Seq<char>, Seq<char>)>,
    /// Whether the user reviews replies.
    pub interactive: bool,
}

/// A run of a chain.
#[derive(Debug)]
pub struct ChainRun {
    step: usize,
    memory: Memory,
    results: Memory,
    interactive: bool,
}

impl View for ChainRun {
    type V = RunModel;

    closed spec fn view(&self) -> RunModel {
        RunModel {
            step: self.step as int,
            memory: self.memory@,
            results: self.results@,
            interactive: self.interactive,
        }
    }
}

/// What to do next.
#[derive(Debug)]
pub enum ChainAction {
    /// The step at `index` is skipped: its condition does not hold.
    Skip(usize),
    /// Ask the model, for the step at `index`, with `prompt`, as a completion
    /// or a chat; the user reviews the reply when `review`.
    Ask { index: usize, prompt: String, completion: bool, review: bool },
    /// No step is left.
    Done,
}

/// What the user chose after reading a reply.
#[derive(Debug, Clone)]
pub enum InteractiveChoice {
    /// Keep the reply.
    Accept,
    /// Keep this text in place of the reply.
    EditResponse(String),
    /// Ask again with this prompt, and keep that reply.
    ModifyPrompt(String),
    /// Go on with the step of this name (the reply is dropped).
    SkipToStep(String),
    /// Keep the reply (the variables were shown).
    ViewVars,
    /// Stop the chain.
    Quit,
}

/// What follows the user's choice.
#[derive(Debug)]
pub enum ChoiceOutcome {
    /// Go on with the next action.
    Continue,
    /// Ask the model again with this prompt and record that reply.
    Reask(String),
    /// Stop, showing the results so far.
    Stop,
}

/// The run with the reply `text` recorded for its current step, which is then done.
pub open spec fn recorded(r: RunModel, steps: Seq<StepModel>, text: Seq<char>) -> RunModel {
    RunModel {
        step: r.step + 1,
        memory: bind(r.memory, steps[r.step].id, text),
        results: bind(r.results, steps[r.step].id, text),
        interactive: r.interactive,
    }
}

/// Every variable of `results` names a step.
pub open spec fn results_name_steps(
    results: Seq<(Seq<char>, Seq<char>)>,
    steps: Seq<StepModel>,
) -> bool {
    forall|i: int|
        0 <= i < results.len() ==> exists|j: int|
            0 <= j < steps.len() && #[trigger] steps[j].id == #[trigger] results[i].0
}

impl ChainRun {
    /// The index of the step to consider next.
    pub fn step(&self) -> (i: usize)
        ensures
            i == self@.step,
    {
        self.step
    }

    /// The variables.
    pub fn memory(&self) -> (m: &Memory)
        ensures
            m@ == self@.memory,
    {
        &self.memory
    }

    /// The replies recorded so far.
    pub fn results(&self) -> (m: &Memory)
        ensures
            m@ == self@.results,
    {
        &self.results
    }

    /// A run at the first step, with the input bound to the chain's input
    /// variable (empty when nothing was piped) and then the system variables.
    pub fn start(config: &ChainConfig, piped_input: Option<String>, system_vars: &Memory, interactive: bool) -> (r: Self)
        ensures
            r@ == (RunModel {
                step: 0,
                memory: bind_all(
                    bind(
                        Seq::empty(),
                        config.input_var@,
                        match piped_input {
                            Some(s) => s@,
                            None => Seq::<char>::empty(),
                        },
                    ),
                    system_vars@,
                ),
                results: Seq::empty(),
                interactive,
            }),
    {
        let mut memory = Memory::new();
        let input = match piped_input {
            Some(s) => s,
            None => String::new(),
        };
        memory.insert(config.input_var.clone(), input);
        let entries = system_vars.entries();
        let ghost all = system_vars@;
        let ghost first = memory@;
        let mut i: usize = 0;
        assert(all.subrange(0, all.len() as int) =~= all);
        while i < entries.len()
            invariant
                0 <= i <= entries.len(),
                entries@.map_values(|p: (String, String)| (p.0@, p.1@)) == all,
                bind_all(memory@, all.subrange(i as int, all.len() as int)) == bind_all(first, all),
            decreases entries.len() - i,
        {
            let (k, v) = &entries[i];
            assert(all[i as int] == (k@, v@));
            let ghost tail = all.subrange(i as int, all.len() as int);
            assert(tail.drop_first() =~= all.subrange(i + 1, all.len() as int));
            memory.insert(k.clone(), v.clone());
            i = i + 1;
        }
        assert(all.subrange(i as int, all.len() as int) =~= Seq::<(Seq<char>, Seq<char>)>::empty());
        ChainRun { step: 0, memory, results: Memory::new(), interactive }
    }

    /// The next action: done past the last step; a skip (moving on) when the
    /// step's condition does not hold; else the step's prompt, filled from
    /// the variables, to ask the model.
    pub fn next(&mut self, config: &ChainConfig) -> (a: ChainAction)
        ensures
            ({
                let steps = config.steps_view();
                let r = old(self)@;
                if r.step >= steps.len() {
                    a is Done && final(self)@ == r
                } else if !condition_holds(steps[r.step].condition, r.memory) {
                    a == ChainAction::Skip(r.step as usize) && final(self)@ == (RunModel {
                        step: r.step + 1,
                        ..r
                    })
                } else {
                    &&& final(self)@ == r
                    &&& a matches ChainAction::Ask { index, prompt, completion, review }
                    &&& index == r.step
                    &&& prompt@ == fill_spec(steps[r.step].template, r.memory)
                    &&& completion == (lowercase_of(steps[r.step].mode) == "completion"@)
                    &&& review == (r.interactive && (steps[r.step].interactive
                        || config.default_steps_view().contains(steps[r.step].id)))
                }
            }),
    {
        let ghost steps = config.steps_view();
        if self.step >= config.steps.len() {
            return ChainAction::Done;
        }
        let step = &config.steps[self.step];
        assert(steps[self.step as int] == step@);
        if !evaluate_condition(&step.condition, &self.memory) {
            let index = self.step;
            self.step = self.step + 1;
            return ChainAction::Skip(index);
        }
        let prompt = apply_template(step.template.as_str(), &self.memory);
        let completion = is_completion_mode(step.mode.as_str());
        let review = self.interactive && (step.interactive || reviewed_by_default(config, step.id.as_str()));
        ChainAction::Ask { index: self.step, prompt, completion, review }
    }

    /// Records `response` as the reply of the current step, binding it to
    /// the step's name, and moves to the next step.
    pub fn record(&mut self, config: &ChainConfig, response: String)
        requires
            old(self)@.step < config.steps@.len(),
        ensures
            final(self)@ == recorded(old(self)@, config.steps_view(), response@),
    {
        let ghost steps = config.steps_view();
        let i = self.step;
        let n = config.steps.len();
        assert(i < n);
        let id = &config.steps[i].id;
        assert(steps[i as int].id == id@);
        self.results.insert(id.clone(), response.clone());
        self.memory.insert(id.clone(), response);
        self.step = i + 1;
    }

    /// Acts on the user's choice about `response`, the reply of the current
    /// step: keep it or an edited text, ask again, jump to a named step
    /// (keeping the reply when no step has that name), or stop.
    pub fn apply_choice(&mut self, config: &ChainConfig, choice: InteractiveChoice, response: String) -> (o:
        ChoiceOutcome)
        requires
            old(self)@.step < config.steps@.len(),
        ensures
            ({
                let steps = config.steps_view();
                let r = old(self)@;
                match choice {
                    InteractiveChoice::Accept => o is Continue && final(self)@ == recorded(
                        r,
                        steps,
                        response@,
                    ),
                    InteractiveChoice::ViewVars => o is Continue && final(self)@ == recorded(
                        r,
                        steps,
                        response@,
                    ),
                    InteractiveChoice::EditResponse(t) => o is Continue && final(self)@ == recorded(
                        r,
                        steps,
                        t@,
                    ),
                    InteractiveChoice::ModifyPrompt(p) => (o matches ChoiceOutcome::Reask(q) && q@
                        == p@) && final(self)@ == r,
                    InteractiveChoice::SkipToStep(target) => o is Continue && match position_spec(
                        steps,
                        target@,
                    ) {
                        Some(i) => final(self)@ == (RunModel { step: i, ..r }),
                        None => final(self)@ == recorded(r, steps, response@),
                    },
                    InteractiveChoice::Quit => o is Stop && final(self)@ == r,
                }
            }),
    {
        match choice {
            InteractiveChoice::Accept => {
                self.record(config, response);
                ChoiceOutcome::Continue
            },
            InteractiveChoice::ViewVars => {
                self.record(config, response);
                ChoiceOutcome::Continue
            },
            InteractiveChoice::EditResponse(t) => {
                self.record(config, t);
                ChoiceOutcome::Continue
            },
            InteractiveChoice::ModifyPrompt(p) => ChoiceOutcome::Reask(p),
            InteractiveChoice::SkipToStep(target) => {
                match step_position(config, target.as_str()) {
                    Some(i) => {
                        self.step = i;
                    },
                    None => {
                        self.record(config, response);
                    },
                }
                ChoiceOutcome::Continue
            },
            InteractiveChoice::Quit => ChoiceOutcome::Stop,
        }
    }

    /// The reply of the chain's last step, if it was recorded: what a piped
    /// run prints and a JSON run reports as the result.
    pub fn final_result<'a>(&'a self, config: &ChainConfig) -> (r: Option<&'a String>)
        ensures
            ({
                let steps = config.steps_view();
                if steps.len() == 0 {
                    r is None
                } else {
                    match r {
                        Some(v) => lookup(self@.results, steps.last().id) == Some(v@),
                        None => lookup(self@.results, steps.last().id) is None,
                    }
                }
            }),
    {
        let n = config.steps.len();
        if n == 0 {
            return None;
        }
        assert(config.steps_view()[n - 1] == config.steps@[n - 1]@);
        self.results.get(config.steps[n - 1].id.as_str())
    }
}

/// Whether the chain's settings have the user review step `id` by default.
fn reviewed_by_default(config: &ChainConfig, id: &str) -> (b: bool)
    ensures
        b == config.default_steps_view().contains(id@),
{
    let ghost names = config.default_steps_view();
    let mut i: usize = 0;
    while i < config.interactive_config.default_steps.len()
        invariant
            0 <= i <= config.interactive_config.default_steps@.len(),
            names == config.default_steps_view(),
            forall|j: int| 0 <= j < i ==> names[j] != id@,
        decreases config.interactive_config.default_steps.len() - i,
    {
        assert(names[i as int] == config.interactive_config.default_steps@[i as int]@);
        if same_text(config.interactive_config.default_steps[i].as_str(), id) {
            assert(names[i as int] == id@);
            return true;
        }
        i = i + 1;
    }
    false
}

/// Recording a reply only ever binds the name of a step: the results of a
/// run name steps of the chain, whatever replies come back.
pub proof fn law_results_name_steps(r: RunModel, steps: Seq<StepModel>, text: Seq<char>)
    requires
        0 <= r.step < steps.len(),
        results_name_steps(r.results, steps),
    ensures
        results_name_steps(recorded(r, steps, text).results, steps),
{
    let key = steps[r.step].id;
    let b = bind(r.results, key, text);
    crate::chain::memory::lemma_key_index(r.results, key);
    assert forall|i: int| 0 <= i < b.len() implies exists|j: int|
        0 <= j < steps.len() && #[trigger] steps[j].id == #[trigger] b[i].0 by {
        if b[i].0 == key {
            assert(steps[r.step].id == b[i].0);
        } else {
            assert(b[i] == r.results[i]);
        }
    }
}

/// A recorded reply can be read back under the step's name, both as a
/// result and as a variable later templates and conditions see.
pub proof fn law_recorded_reply_reads_back(r: RunModel, steps: Seq<StepModel>, text: Seq<char>)
    requires
        0 <= r.step < steps.len(),
        crate::chain::memory::keys_distinct(r.memory),
        crate::chain::memory::keys_distinct(r.results),
    ensures
        lookup(recorded(r, steps, text).results, steps[r.step].id) == Some(text),
        lookup(recorded(r, steps, text).memory, steps[r.step].id) == Some(text),
{
    crate::chain::memory::law_bind_then_lookup(r.results, steps[r.step].id, text, steps[r.step].id);
    crate::chain::memory::law_bind_then_lookup(r.memory, steps[r.step].id, text, steps[r.step].id);
}

} // verus!
