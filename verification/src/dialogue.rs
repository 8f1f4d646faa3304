//! Dialogues between several models: their modes, their participants, the
//! colours participants are shown in, and why a dialogue stops.
use vstd::prelude::*;

use crate::strings::{chars_of, string_from_chars};

verus! {

/// How the participants of a dialogue deal with each other.
#[derive(Debug, Clone, Copy, PartialEq, Eq, Structural)]
pub enum DialogueMode {
    /// The models work together toward a common goal.
    Collaboration,
    /// The models defend opposing positions.
    Debate,
    /// One model writes, the others critique and improve.
    Critique,
    /// Open conversation without constraints.
    FreeForm,
    /// Behaviour set by the user's system prompts.
    Custom,
}

impl Default for DialogueMode {
    fn default() -> (m: Self)
        ensures
            m == DialogueMode::FreeForm,
    {
        DialogueMode::FreeForm
    }
}

/// The name a mode is shown under.
pub open spec fn mode_name(m: DialogueMode) -> Seq<char> {
    match m {
        DialogueMode::Collaboration => "Collaboration"@,
        DialogueMode::Debate => "Debate"@,
        DialogueMode::Critique => "Critique"@,
        DialogueMode::FreeForm => "Free"@,
        DialogueMode::Custom => "Custom"@,
    }
}

/// A mode's one-line description.
pub open spec fn mode_description(m: DialogueMode) -> Seq<char> {
    match m {
        DialogueMode::Collaboration => "LLMs work together toward a common goal"@,
        DialogueMode::Debate => "LLMs defend opposing positions"@,
        DialogueMode::Critique => "One generates, others critique and improve"@,
        DialogueMode::FreeForm => "Open conversation without constraints"@,
        DialogueMode::Custom => "User-defined behavior via system prompts"@,
    }
}

impl DialogueMode {
    /// The name the mode is shown under.
    pub fn display_name(&self) -> (s: &'static str)
        ensures
            s@ == mode_name(*self),
    {
        match self {
            DialogueMode::Collaboration => "Collaboration",
            DialogueMode::Debate => "Debate",
            DialogueMode::Critique => "Critique",
            DialogueMode::FreeForm => "Free",
            DialogueMode::Custom => "Custom",
        }
    }

    /// A short description of the mode.
    pub fn description(&self) -> (s: &'static str)
        ensures
            s@ == mode_description(*self),
    {
        match self {
            DialogueMode::Collaboration => "LLMs work together toward a common goal",
            DialogueMode::Debate => "LLMs defend opposing positions",
            DialogueMode::Critique => "One generates, others critique and improve",
            DialogueMode::FreeForm => "Open conversation without constraints",
            DialogueMode::Custom => "User-defined behavior via system prompts",
        }
    }
}

/// Why a dialogue stopped.
#[derive(Debug, Clone)]
pub enum StopReason {
    /// The user asked it to stop.
    UserRequested,
    /// An error it could not recover from.
    Error(String),
    /// Every participant has left.
    AllParticipantsLeft,
    /// It came to its end.
    Completed,
}

/// How a stop reason reads.
pub open spec fn stop_text(r: StopReason) -> Seq<char> {
    match r {
        StopReason::UserRequested => "User requested stop"@,
        StopReason::Error(msg) => "Error: "@ + msg@,
        StopReason::AllParticipantsLeft => "All participants left"@,
        StopReason::Completed => "Dialogue completed"@,
    }
}

impl StopReason {
    /// The reason as it is shown to the user.
    pub fn to_string(&self) -> (s: String)
        ensures
            s@ == stop_text(*self),
    {
        match self {
            StopReason::UserRequested => String::from_str("User requested stop"),
            StopReason::Error(msg) => {
                let mut s = String::from_str("Error: ");
                s.append(msg.as_str());
                s
            },
            StopReason::AllParticipantsLeft => String::from_str("All participants left"),
            StopReason::Completed => String::from_str("Dialogue completed"),
        }
    }
}

/// The identifier of a dialogue participant.
#[derive(Debug, Clone, Copy, PartialEq, Eq, Hash, Structural)]
pub struct ParticipantId(pub u64);

/// The colour a participant is shown in.
#[derive(Debug, Clone, Copy, PartialEq, Eq, Structural)]
pub enum ParticipantColor {
    Orange,
    Cyan,
    Green,
    Magenta,
    Yellow,
    Blue,
    Red,
    White,
}

impl Default for ParticipantColor {
    fn default() -> (c: Self)
        ensures
            c == ParticipantColor::Orange,
    {
        ParticipantColor::Orange
    }
}

/// The red, green and blue values of each colour.
pub open spec fn color_rgb(c: ParticipantColor) -> (u8, u8, u8) {
    match c {
        ParticipantColor::Orange => (217, 119, 87),
        ParticipantColor::Cyan => (80, 180, 200),
        ParticipantColor::Green => (120, 200, 140),
        ParticipantColor::Magenta => (200, 120, 180),
        ParticipantColor::Yellow => (233, 182, 89),
        ParticipantColor::Blue => (100, 150, 220),
        ParticipantColor::Red => (220, 100, 100),
        ParticipantColor::White => (220, 220, 220),
    }
}

/// The colours in the order participants are given them.
pub open spec fn palette() -> Seq<ParticipantColor> {
    seq![
        ParticipantColor::Orange,
        ParticipantColor::Cyan,
        ParticipantColor::Green,
        ParticipantColor::Magenta,
        ParticipantColor::Yellow,
        ParticipantColor::Blue,
        ParticipantColor::Red,
        ParticipantColor::White,
    ]
}

impl ParticipantColor {
    /// The colour's red, green and blue values.
    pub fn rgb(&self) -> (c: (u8, u8, u8))
        ensures
            c == color_rgb(*self),
    {
        match self {
            ParticipantColor::Orange => (217, 119, 87),
            ParticipantColor::Cyan => (80, 180, 200),
            ParticipantColor::Green => (120, 200, 140),
            ParticipantColor::Magenta => (200, 120, 180),
            ParticipantColor::Yellow => (233, 182, 89),
            ParticipantColor::Blue => (100, 150, 220),
            ParticipantColor::Red => (220, 100, 100),
            ParticipantColor::White => (220, 220, 220),
        }
    }

    /// The colour of the participant at `index`: the palette, over and over.
    pub fn for_index(index: usize) -> (c: Self)
        ensures
            c == palette()[index as int % 8],
    {
        let colors = [
            ParticipantColor::Orange,
            ParticipantColor::Cyan,
            ParticipantColor::Green,
            ParticipantColor::Magenta,
            ParticipantColor::Yellow,
            ParticipantColor::Blue,
            ParticipantColor::Red,
            ParticipantColor::White,
        ];
        assert(colors@ =~= palette());
        colors[index % 8]
    }
}

/// The palette goes round: participants eight apart share a colour.
pub proof fn law_colors_cycle(index: int)
    requires
        0 <= index,
    ensures
        palette()[index % 8] == palette()[(index + 8) % 8],
{
}

/// A participant's generation limits (its sampling temperature and
/// penalties, being floats, are kept by the caller).
#[derive(Debug, Clone)]
pub struct ParticipantParams {
    /// The most tokens to generate.
    pub max_tokens: Option<u32>,
    /// Texts that end generation.
    pub stop_sequences: Vec<String>,
}

impl Default for ParticipantParams {
    /// No limit and no stop sequences.
    fn default() -> (p: Self)
        ensures
            p.max_tokens is None,
            p.stop_sequences@.len() == 0,
    {
        ParticipantParams { max_tokens: None, stop_sequences: Vec::new() }
    }
}

impl ParticipantParams {
    /// A builder starting from the defaults.
    pub fn builder() -> (b: ParticipantParamsBuilder)
        ensures
            b.params.max_tokens is None,
            b.params.stop_sequences@.len() == 0,
    {
        ParticipantParamsBuilder { params: ParticipantParams::default() }
    }
}

/// Builds a participant's parameters one setting at a time.
#[derive(Debug)]
pub struct ParticipantParamsBuilder {
    pub params: ParticipantParams,
}

impl ParticipantParamsBuilder {
    /// Sets the token limit.
    pub fn max_tokens(self, tokens: u32) -> (b: Self)
        ensures
            b.params.max_tokens == Some(tokens),
            b.params.stop_sequences == self.params.stop_sequences,
    {
        let mut b = self;
        b.params.max_tokens = Some(tokens);
        b
    }

    /// Sets the stop sequences.
    pub fn stop_sequences(self, sequences: Vec<String>) -> (b: Self)
        ensures
            b.params.stop_sequences == sequences,
            b.params.max_tokens == self.params.max_tokens,
    {
        let mut b = self;
        b.params.stop_sequences = sequences;
        b
    }

    /// The parameters set.
    pub fn build(self) -> (p: ParticipantParams)
        ensures
            p == self.params,
    {
        self.params
    }
}

/// A participant of a dialogue.
#[derive(Debug, Clone)]
pub struct DialogueParticipant {
    pub id: ParticipantId,
    /// The provider, such as "openai".
    pub provider_id: String,
    /// The model, such as "gpt-4".
    pub model_id: String,
    /// The name it is shown under.
    pub display_name: String,
    pub system_prompt: Option<String>,
    pub params: ParticipantParams,
    pub color: ParticipantColor,
    /// Whether it still takes turns.
    pub active: bool,
}

/// Builds a participant one setting at a time.
#[derive(Debug)]
pub struct ParticipantBuilder {
    pub participant: DialogueParticipant,
}

impl ParticipantBuilder {
    /// A participant for `provider_id` and `model_id` with identifier `id`,
    /// shown under the model's name, with no system prompt, default
    /// parameters, the first colour, and active.
    pub fn new(provider_id: String, model_id: String, id: ParticipantId) -> (b: Self)
        ensures
            b.participant.id == id,
            b.participant.provider_id == provider_id,
            b.participant.model_id == model_id,
            b.participant.display_name@ == model_id@,
            b.participant.system_prompt is None,
            b.participant.params.max_tokens is None,
            b.participant.params.stop_sequences@.len() == 0,
            b.participant.color == ParticipantColor::Orange,
            b.participant.active,
    {
        let display_name = model_id.clone();
        ParticipantBuilder {
            participant: DialogueParticipant {
                id,
                provider_id,
                model_id,
                display_name,
                system_prompt: None,
                params: ParticipantParams::default(),
                color: ParticipantColor::Orange,
                active: true,
            },
        }
    }

    /// Sets the name it is shown under.
    pub fn display_name(self, name: String) -> (b: Self)
        ensures
            b.participant == (DialogueParticipant { display_name: name, ..self.participant }),
    {
        let mut b = self;
        b.participant.display_name = name;
        b
    }

    /// Sets the system prompt.
    pub fn system_prompt(self, prompt: String) -> (b: Self)
        ensures
            b.participant == (DialogueParticipant { system_prompt: Some(prompt), ..self.participant }),
    {
        let mut b = self;
        b.participant.system_prompt = Some(prompt);
        b
    }

    /// Sets the parameters.
    pub fn params(self, params: ParticipantParams) -> (b: Self)
        ensures
            b.participant == (DialogueParticipant { params, ..self.participant }),
    {
        let mut b = self;
        b.participant.params = params;
        b
    }

    /// Sets the colour.
    pub fn color(self, color: ParticipantColor) -> (b: Self)
        ensures
            b.participant == (DialogueParticipant { color, ..self.participant }),
    {
        let mut b = self;
        b.participant.color = color;
        b
    }

    /// Sets the colour for position `index`.
    pub fn color_index(self, index: usize) -> (b: Self)
        ensures
            b.participant == (DialogueParticipant {
                color: palette()[index as int % 8],
                ..self.participant
            }),
    {
        let mut b = self;
        b.participant.color = ParticipantColor::for_index(index);
        b
    }

    /// The participant built.
    pub fn build(self) -> (p: DialogueParticipant)
        ensures
            p == self.participant,
    {
        self.participant
    }
}

/// The number of `:` in `s`.
pub open spec fn colon_count(s: Seq<char>) -> nat
    decreases s.len(),
{
    if s.len() == 0 {
        0
    } else {
        colon_count(s.drop_last()) + if s.last() == ':' {
            1nat
        } else {
            0nat
        }
    }
}

/// `s` is `provider:model`, with exactly one colon; its position.
pub open spec fn single_colon_at(s: Seq<char>, i: int) -> bool {
    0 <= i < s.len() && s[i] == ':' && colon_count(s) == 1
}

impl DialogueParticipant {
    /// A participant from `provider:model` (exactly one colon), shown under
    /// the model's name, in the colour for `index`, active, with identifier `id`.
    pub fn from_provider_model(provider_model: &str, index: usize, id: ParticipantId) -> (r: Option<
        Self,
    >)
        ensures
            match r {
                Some(p) => exists|i: int|
                    #[trigger] single_colon_at(provider_model@, i) && p.provider_id@
                        == provider_model@.subrange(0, i) && p.model_id@ == provider_model@.subrange(
                        i + 1,
                        provider_model@.len() as int,
                    ) && p.display_name@ == p.model_id@ && p.id == id && p.system_prompt is None
                        && p.params.max_tokens is None && p.params.stop_sequences@.len() == 0
                        && p.color == palette()[index as int % 8] && p.active,
                None => colon_count(provider_model@) != 1,
            },
    {
        let v = chars_of(provider_model);
        let mut count: usize = 0;
        let mut pos: usize = 0;
        let mut i: usize = 0;
        while i < v.len()
            invariant
                0 <= i <= v.len(),
                v@ == provider_model@,
                count == colon_count(v@.subrange(0, i as int)),
                count <= i,
                count >= 1 ==> pos < i && v@[pos as int] == ':' && colon_count(
                    v@.subrange(0, pos as int),
                ) == 0,
            decreases v.len() - i,
        {
            assert(v@.subrange(0, i + 1).drop_last() =~= v@.subrange(0, i as int));
            if v[i] == ':' {
                if count == 0 {
                    pos = i;
                }
                count = count + 1;
            }
            i = i + 1;
        }
        assert(v@.subrange(0, v.len() as int) =~= v@);
        if count != 1 {
            return None;
        }
        let provider_id = string_from_chars(&v.as_slice()[0..pos]);
        let model_id = string_from_chars(&v.as_slice()[pos + 1..v.len()]);
        let display_name = string_from_chars(&v.as_slice()[pos + 1..v.len()]);
        assert(single_colon_at(provider_model@, pos as int));
        Some(
            DialogueParticipant {
                id,
                provider_id,
                model_id,
                display_name,
                system_prompt: None,
                params: ParticipantParams::default(),
                color: ParticipantColor::for_index(index),
                active: true,
            },
        )
    }

    /// A builder for a participant of `provider_id` and `model_id` (see
    /// [`ParticipantBuilder::new`]).
    pub fn builder(provider_id: String, model_id: String, id: ParticipantId) -> (b: ParticipantBuilder)
        ensures
            b.participant.id == id,
            b.participant.provider_id == provider_id,
            b.participant.model_id == model_id,
            b.participant.display_name@ == model_id@,
            b.participant.system_prompt is None,
            b.participant.params.max_tokens is None,
            b.participant.params.stop_sequences@.len() == 0,
            b.participant.color == ParticipantColor::Orange,
            b.participant.active,
    {
        ParticipantBuilder::new(provider_id, model_id, id)
    }

    /// The participant's `provider:model`.
    pub fn provider_model(&self) -> (s: String)
        ensures
            s@ == self.provider_id@ + ":"@ + self.model_id@,
    {
        let mut s = self.provider_id.clone();
        s.append(":");
        s.append(self.model_id.as_str());
        s
    }
}

} // verus!
