//! Actions taken on a matched concept: a response per kind of concept, a
//! bounded log of recent actions, and optional co-creation rounds.
use vstd::prelude::*;
use vstd::string::*;
use crate::agent_orchestrator::{counts_have_room, is_round, texts, AgentOrchestrator};
use crate::concepts::ConceptVector;

verus! {

/// How many recent actions the log keeps.
pub const ACTION_LOG_LIMIT: usize = 50;

/// The kinds of action, resolved from a concept's name.
#[derive(Debug, Clone, Copy, PartialEq, Eq, Structural)]
pub enum ActionKind {
    Curiosity,
    Aesthetics,
    Verification,
    Fallback,
}

/// The kind of action for a concept named `name`.
pub open spec fn kind_of(name: Seq<char>) -> ActionKind {
    if name == "Curiosity"@ {
        ActionKind::Curiosity
    } else if name == "Aesthetics"@ {
        ActionKind::Aesthetics
    } else if name == "Verification"@ {
        ActionKind::Verification
    } else {
        ActionKind::Fallback
    }
}

/// The text of a decimal digit.
pub open spec fn digit_text(d: int) -> Seq<char> {
    if d == 0 {
        "0"@
    } else if d == 1 {
        "1"@
    } else if d == 2 {
        "2"@
    } else if d == 3 {
        "3"@
    } else if d == 4 {
        "4"@
    } else if d == 5 {
        "5"@
    } else if d == 6 {
        "6"@
    } else if d == 7 {
        "7"@
    } else if d == 8 {
        "8"@
    } else {
        "9"@
    }
}

/// The curiosity boost for an input of `n` bytes, in hundredths: one per
/// byte, limited to `[10, 50]`.
pub open spec fn boost_hundredths(n: nat) -> int {
    if n < 10 {
        10
    } else if n > 50 {
        50
    } else {
        n as int
    }
}

/// The response for an action of kind `k` on `input` (of `n` bytes).
pub open spec fn response_text(k: ActionKind, input: Seq<char>, n: nat) -> Seq<char> {
    match k {
        ActionKind::Curiosity => "🔍 Curiosity matched (score: 0."@ + digit_text(
            boost_hundredths(n) / 10,
        ) + digit_text(boost_hundredths(n) % 10) + "). Researching deeper aspects of: "@ + input,
        ActionKind::Aesthetics => "🎨 Aesthetics matched. Considering artistic interpretations for: "@
            + input,
        ActionKind::Verification => "🔬 Verification matched. Cross-referencing facts about: "@
            + input,
        ActionKind::Fallback => "Standard response generated."@,
    }
}

/// The log entry for an action of kind `k` on `input`.
pub open spec fn log_text(k: ActionKind, input: Seq<char>) -> Seq<char> {
    match k {
        ActionKind::Curiosity => "[Curiosity] Researching: "@ + input,
        ActionKind::Aesthetics => "[Aesthetics] Creating: "@ + input,
        ActionKind::Verification => "[Verification] Verifying: "@ + input,
        ActionKind::Fallback => "[Default] Processing: "@ + input,
    }
}

/// `log` with `entry` appended, dropping the oldest entry when the log is full.
pub open spec fn logged(log: Seq<Seq<char>>, entry: Seq<char>) -> Seq<Seq<char>> {
    if log.len() >= ACTION_LOG_LIMIT {
        log.drop_first().push(entry)
    } else {
        log.push(entry)
    }
}

/// The kind of action for a concept named `name`.
pub fn action_kind(name: &String) -> (r: ActionKind)
    ensures
        r == kind_of(name@),
{
    if *name == String::from_str("Curiosity") {
        ActionKind::Curiosity
    } else if *name == String::from_str("Aesthetics") {
        ActionKind::Aesthetics
    } else if *name == String::from_str("Verification") {
        ActionKind::Verification
    } else {
        ActionKind::Fallback
    }
}

fn digit(d: usize) -> (r: &'static str)
    requires
        d < 10,
    ensures
        r@ == digit_text(d as int),
{
    if d == 0 {
        "0"
    } else if d == 1 {
        "1"
    } else if d == 2 {
        "2"
    } else if d == 3 {
        "3"
    } else if d == 4 {
        "4"
    } else if d == 5 {
        "5"
    } else if d == 6 {
        "6"
    } else if d == 7 {
        "7"
    } else if d == 8 {
        "8"
    } else {
        "9"
    }
}

/// Carries out actions on matched concepts and remembers them.
pub struct ActionSystem {
    pub memory: Vec<String>,
    pub action_log: Vec<String>,
    pub orchestrator: AgentOrchestrator,
    pub co_creation_mode: bool,
}

impl ActionSystem {
    /// The inputs received so far, oldest first.
    pub open spec fn memory_view(&self) -> Seq<Seq<char>> {
        texts(self.memory@)
    }

    /// The logged actions, oldest first.
    pub open spec fn log_view(&self) -> Seq<Seq<char>> {
        texts(self.action_log@)
    }

    /// The log holds at most `ACTION_LOG_LIMIT` entries.
    pub open spec fn wf(&self) -> bool {
        self.log_view().len() <= ACTION_LOG_LIMIT
    }

    /// Nothing remembered or logged, a fresh orchestrator, co-creation off.
    pub fn new() -> (r: ActionSystem)
        ensures
            r.wf(),
            r.memory_view().len() == 0,
            r.log_view().len() == 0,
            r.orchestrator.modules@.len() == 0,
            !r.co_creation_mode,
    {
        let r = ActionSystem {
            memory: Vec::new(),
            action_log: Vec::new(),
            orchestrator: AgentOrchestrator::new(),
            co_creation_mode: false,
        };
        assert(r.log_view() =~= Seq::empty());
        assert(r.memory_view() =~= Seq::empty());
        r
    }

    fn log_action(&mut self, entry: String)
        requires
            old(self).wf(),
        ensures
            final(self).wf(),
            final(self).log_view() == logged(old(self).log_view(), entry@),
            final(self).memory_view() == old(self).memory_view(),
            final(self).orchestrator == old(self).orchestrator,
            final(self).co_creation_mode == old(self).co_creation_mode,
    {
        let ghost before = self.action_log@;
        if self.action_log.len() >= ACTION_LOG_LIMIT {
            let _oldest = self.action_log.remove(0);
        }
        self.action_log.push(entry);
        proof {
            if before.len() >= ACTION_LOG_LIMIT {
                assert(texts(self.action_log@) =~= texts(before).drop_first().push(
                    entry@,
                ));
            } else {
                assert(texts(self.action_log@) =~= texts(before).push(entry@));
            }
        }
    }

    /// The curiosity response for `input`, with its boost as a two-digit decimal.
    fn curiosity_action(&self, input: &str) -> (r: String)
        ensures
            r@ == response_text(ActionKind::Curiosity, input@, input.len() as nat),
    {
        let n = input.len();
        let h: usize = if n < 10 {
            10
        } else if n > 50 {
            50
        } else {
            n
        };
        assert(h as int == boost_hundredths(input.len() as nat));
        let mut r = String::from_str("🔍 Curiosity matched (score: 0.");
        r.append(digit(h / 10));
        r.append(digit(h % 10));
        r.append("). Researching deeper aspects of: ");
        r.append(input);
        r
    }

    /// Remembers `input`, logs and answers the action for `concept`'s kind,
    /// and, in co-creation mode, appends the report of a co-creation round
    /// with the concept's name as primary module.
    pub fn trigger_action(&mut self, concept: &ConceptVector, input: &str) -> (r: String)
        requires
            old(self).wf(),
            counts_have_room(old(self).orchestrator),
        ensures
            final(self).wf(),
            final(self).memory_view() == old(self).memory_view().push(input@),
            final(self).log_view() == logged(
                old(self).log_view(),
                log_text(kind_of(concept.name@), input@),
            ),
            final(self).co_creation_mode == old(self).co_creation_mode,
            !old(self).co_creation_mode ==> r@ == response_text(
                kind_of(concept.name@),
                input@,
                input.len() as nat,
            ) && final(self).orchestrator == old(self).orchestrator,
            old(self).co_creation_mode ==> exists|report: Seq<char>|
                is_round(old(self).orchestrator, concept.name@, input@, final(self).orchestrator, report)
                    && r@ == response_text(kind_of(concept.name@), input@, input.len() as nat)
                    + "\n\n🤝 Co-Creation:\n"@ + report,
    {
        let ghost mem = self.memory@;
        self.memory.push(input.to_owned());
        assert(texts(self.memory@) =~= texts(mem).push(input@));
        let kind = action_kind(&concept.name);
        let mut entry = String::new();
        let mut action = String::new();
        match kind {
            ActionKind::Curiosity => {
                action = self.curiosity_action(input);
                entry = String::from_str("[Curiosity] Researching: ");
            },
            ActionKind::Aesthetics => {
                entry = String::from_str("[Aesthetics] Creating: ");
                action = String::from_str(
                    "🎨 Aesthetics matched. Considering artistic interpretations for: ",
                );
                action.append(input);
            },
            ActionKind::Verification => {
                entry = String::from_str("[Verification] Verifying: ");
                action = String::from_str("🔬 Verification matched. Cross-referencing facts about: ");
                action.append(input);
            },
            ActionKind::Fallback => {
                entry = String::from_str("[Default] Processing: ");
                action = String::from_str("Standard response generated.");
            },
        }
        assert(action@ == response_text(kind, input@, input.len() as nat));
        entry.append(input);
        self.log_action(entry);
        if self.co_creation_mode {
            let co_creation = self.orchestrator.co_create(concept.name.as_str(), input);
            action.append("\n\n🤝 Co-Creation:\n");
            action.append(co_creation.as_str());
            assert(is_round(
                old(self).orchestrator,
                concept.name@,
                input@,
                self.orchestrator,
                co_creation@,
            ));
        }
        action
    }

    /// A copy of the logged actions, oldest first.
    pub fn get_recent_actions(&self) -> (r: Vec<String>)
        ensures
            texts(r@) == self.log_view(),
    {
        let mut r: Vec<String> = Vec::new();
        let mut i: usize = 0;
        while i < self.action_log.len()
            invariant
                i <= self.action_log@.len(),
                r@.len() == i,
                forall|j: int| 0 <= j < i ==> (#[trigger] r@[j])@ == self.action_log@[j]@,
            decreases self.action_log@.len() - i,
        {
            r.push(self.action_log[i].clone());
            i = i + 1;
        }
        assert(texts(r@) =~= texts(self.action_log@));
        r
    }

    /// Switches co-creation mode and logs the new mode.
    pub fn toggle_co_creation(&mut self)
        requires
            old(self).wf(),
        ensures
            final(self).wf(),
            final(self).co_creation_mode == !old(self).co_creation_mode,
            final(self).log_view() == logged(
                old(self).log_view(),
                if final(self).co_creation_mode {
                    "Co-creation mode ENABLED"@
                } else {
                    "Co-creation mode DISABLED"@
                },
            ),
            final(self).memory_view() == old(self).memory_view(),
            final(self).orchestrator == old(self).orchestrator,
    {
        self.co_creation_mode = !self.co_creation_mode;
        let entry = if self.co_creation_mode {
            String::from_str("Co-creation mode ENABLED")
        } else {
            String::from_str("Co-creation mode DISABLED")
        };
        self.log_action(entry);
    }
}

impl Default for ActionSystem {
    fn default() -> (r: ActionSystem)
        ensures
            r.wf(),
            r.memory_view().len() == 0,
            r.log_view().len() == 0,
            r.orchestrator.modules@.len() == 0,
            !r.co_creation_mode,
    {
        ActionSystem::new()
    }
}

} // verus!
