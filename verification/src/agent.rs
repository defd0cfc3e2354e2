//! The agent daemon's decisions: the conversation loop in which the local model
//! chooses actions until it answers, the notes that report each action back to
//! the model, the model-detection retries and the status report.
use crate::recorder::MacroRecorder;
use crate::text::{concat2, concat3, debug_quote, debug_quoted, from_utf8_lossy, str_eq, to_string, utf8_lossy};
use crate::types::{messages_view, AgentAction, ChatMessage, ChatResponse, DaemonStatus, MessageView};
use vstd::prelude::*;

verus! {

/// The instructions given to the model at the head of every conversation.
pub const SYSTEM_PROMPT: &'static str = r#"You are AuraOS Agent, a built-in AI assistant running inside a custom Linux distribution. You run with ROOT privileges.
You have the power to run shell commands, record input macros, play back macros, and assist the user.
You MUST output your responses in the following JSON format ONLY:
{
  "thought": "Your internal thinking process outlining what you need to do next",
  "action": "execute" | "record_macro" | "play_macro" | "respond",
  "command": "The shell command to run (required ONLY if action is 'execute')",
  "macro_name": "The macro name (required ONLY if action is 'record_macro' or 'play_macro')",
  "response": "The final message explaining what you did, your findings, or answering the user (required ONLY if action is 'respond')"
}

Guidelines:
1. Use "execute" to run standard Linux bash commands (e.g., install packages using pacman, edit configurations, start services, query status).
2. Use "record_macro" to start recording physical keyboard and mouse events. The user will perform the action after you prompt them. Make sure to respond and instruct them after launching the record.
3. Use "play_macro" to replay a recorded macro.
4. Use "respond" when you have finished your tasks or want to answer a question.
5. You operate in an Agentic Loop: if you use "execute", "record_macro", or "play_macro", the system will run the action and feed the result back into your context as a new message, allowing you to react and run more commands if needed.
6. Only output valid JSON. Do not add markdown quotes around the JSON, just print the JSON directly."#;

/// The most times the model is asked within one conversation.
pub const MAX_AGENT_STEPS: u64 = 8;

/// The instructions given to the model at the head of every conversation.
pub fn get_system_prompt() -> (r: String)
    ensures
        r@ == SYSTEM_PROMPT@,
{
    to_string(SYSTEM_PROMPT)
}

/// The view of an action chosen by the model.
pub struct ActionView {
    pub thought: Seq<char>,
    pub action: Seq<char>,
    pub command: Seq<char>,
    pub macro_name: Seq<char>,
    pub response: Seq<char>,
}

impl View for AgentAction {
    type V = ActionView;

    open spec fn view(&self) -> ActionView {
        ActionView {
            thought: self.thought@,
            action: self.action@,
            command: self.command@,
            macro_name: self.macro_name@,
            response: self.response@,
        }
    }
}

/// What the agent does next in a conversation.
#[derive(Debug, Clone)]
pub enum AgentStep {
    /// Send the conversation so far to the model.
    QueryModel,
    /// Run this shell command and report its output.
    Execute(String),
    /// Start recording the macro of this name and report the outcome.
    RecordMacro(String),
    /// Play the macro of this name and report the outcome.
    PlayMacro(String),
    /// End the conversation with this answer.
    Finish(String),
}

/// The view of a step.
pub enum StepView {
    QueryModel,
    Execute(Seq<char>),
    RecordMacro(Seq<char>),
    PlayMacro(Seq<char>),
    Finish(Seq<char>),
}

impl View for AgentStep {
    type V = StepView;

    open spec fn view(&self) -> StepView {
        match self {
            AgentStep::QueryModel => StepView::QueryModel,
            AgentStep::Execute(c) => StepView::Execute(c@),
            AgentStep::RecordMacro(n) => StepView::RecordMacro(n@),
            AgentStep::PlayMacro(n) => StepView::PlayMacro(n@),
            AgentStep::Finish(t) => StepView::Finish(t@),
        }
    }
}

/// Why no usable reply came from the model.
#[derive(Debug, Clone)]
pub enum ModelFailure {
    /// The request did not reach the model service; the text says why.
    Unreachable(String),
    /// The service's reply was not the expected JSON; the text says why.
    BadReply(String),
}

/// The answer when the model asked for more steps than a conversation allows.
pub open spec fn steps_exceeded_note() -> Seq<char> {
    "Agent loop exceeded maximum execution steps."@
}

/// The answer when the model service failed.
pub open spec fn failure_note(f: ModelFailure) -> Seq<char> {
    match f {
        ModelFailure::Unreachable(e) => "Error communicating with local Ollama service: "@ + e@,
        ModelFailure::BadReply(e) => "Failed to parse JSON response from Ollama: "@ + e@,
    }
}

/// What the agent does with the model's reply `content`, read as `action`
/// (none when the content is not a valid action).
pub open spec fn decide(action: Option<ActionView>, content: Seq<char>) -> StepView {
    match action {
        None => StepView::Finish("AI hallucinated invalid JSON format. Raw output: "@ + content),
        Some(a) => if a.action == "respond"@ {
            StepView::Finish(a.response)
        } else if a.action == "execute"@ {
            StepView::Execute(a.command)
        } else if a.action == "record_macro"@ {
            StepView::RecordMacro(a.macro_name)
        } else if a.action == "play_macro"@ {
            StepView::PlayMacro(a.macro_name)
        } else {
            StepView::Finish("Agent attempted unknown action: "@ + a.action)
        },
    }
}

/// Which reply leads to which step: a command is run only when the model
/// chose `execute`, and it is the command the model gave; a macro is recorded
/// only for `record_macro` and played only for `play_macro`, with the name the
/// model gave; the conversation ends with the model's answer for `respond`;
/// a reply that is not an action ends it with the raw reply; and no reply asks
/// the model again without a report.
pub proof fn lemma_step_follows_choice(action: Option<ActionView>, content: Seq<char>)
    ensures
        decide(action, content) matches StepView::Execute(c) ==> action matches Some(a) && a.action == "execute"@
            && c == a.command,
        decide(action, content) matches StepView::RecordMacro(n) ==> action matches Some(a) && a.action
            == "record_macro"@ && n == a.macro_name,
        decide(action, content) matches StepView::PlayMacro(n) ==> action matches Some(a) && a.action
            == "play_macro"@ && n == a.macro_name,
        action matches Some(a) ==> (a.action == "respond"@ ==> decide(action, content) == StepView::Finish(
            a.response,
        )),
        action is None ==> decide(action, content) == StepView::Finish(
            "AI hallucinated invalid JSON format. Raw output: "@ + content,
        ),
        !(decide(action, content) is QueryModel),
{
}

/// The note that reports a command's output back to the model.
pub open spec fn execution_note(command: Seq<char>, output: Seq<char>) -> Seq<char> {
    "{\"action_result\": \"executed\", \"command\": "@ + debug_quoted(command) + ", \"output\": "@
        + debug_quoted(output) + "}"@
}

/// The note that reports the start of a macro recording back to the model.
pub open spec fn recording_note(name: Seq<char>, result: Seq<char>) -> Seq<char> {
    "{\"action_result\": \"record_macro_triggered\", \"macro_name\": "@ + debug_quoted(name) + ", \"result\": "@
        + debug_quoted(result) + "}"@
}

/// The note that reports a macro playback back to the model.
pub open spec fn playback_note(name: Seq<char>, result: Seq<char>) -> Seq<char> {
    "{\"action_result\": \"play_macro_completed\", \"macro_name\": "@ + debug_quoted(name) + ", \"result\": "@
        + debug_quoted(result) + "}"@
}

/// An action that the model asked for and whose outcome is still to be
/// reported back to it.
#[derive(Debug, Clone)]
pub enum PendingAction {
    Execute(String),
    RecordMacro(String),
    PlayMacro(String),
}

/// The view of a pending action.
pub enum PendingView {
    Execute(Seq<char>),
    RecordMacro(Seq<char>),
    PlayMacro(Seq<char>),
}

/// Where a conversation stands.
#[derive(Debug, Clone)]
pub enum Phase {
    /// Ready to begin a turn.
    AwaitingTurn,
    /// The model was asked; its reply is awaited.
    AwaitingReply,
    /// The model asked for this action; its outcome is to be reported.
    AwaitingReport(PendingAction),
    /// The conversation has its answer.
    Finished,
}

/// The view of where a conversation stands.
pub enum PhaseView {
    AwaitingTurn,
    AwaitingReply,
    AwaitingReport(PendingView),
    Finished,
}

impl View for Phase {
    type V = PhaseView;

    open spec fn view(&self) -> PhaseView {
        match self {
            Phase::AwaitingTurn => PhaseView::AwaitingTurn,
            Phase::AwaitingReply => PhaseView::AwaitingReply,
            Phase::AwaitingReport(PendingAction::Execute(c)) => PhaseView::AwaitingReport(PendingView::Execute(c@)),
            Phase::AwaitingReport(PendingAction::RecordMacro(n)) => PhaseView::AwaitingReport(
                PendingView::RecordMacro(n@),
            ),
            Phase::AwaitingReport(PendingAction::PlayMacro(n)) => PhaseView::AwaitingReport(
                PendingView::PlayMacro(n@),
            ),
            Phase::Finished => PhaseView::Finished,
        }
    }
}

/// Where a conversation stands after the agent decided on `step` from a reply:
/// finished, or awaiting the report of the action asked for.
pub open spec fn phase_after(step: StepView) -> PhaseView {
    match step {
        StepView::Execute(c) => PhaseView::AwaitingReport(PendingView::Execute(c)),
        StepView::RecordMacro(n) => PhaseView::AwaitingReport(PendingView::RecordMacro(n)),
        StepView::PlayMacro(n) => PhaseView::AwaitingReport(PendingView::PlayMacro(n)),
        _ => PhaseView::Finished,
    }
}

/// The view of a conversation: its messages, the number of times the model
/// was asked, the user's prompt, and where it stands.
pub struct SessionView {
    pub history: Seq<MessageView>,
    pub turns: nat,
    pub prompt: Seq<char>,
    pub phase: PhaseView,
}

/// The system message that heads every conversation.
pub open spec fn system_message() -> MessageView {
    MessageView { role: "system"@, content: SYSTEM_PROMPT@ }
}

/// Whether a text is one of the notes by which the agent reports an action's
/// outcome to the model.
pub open spec fn is_action_note(c: Seq<char>) -> bool {
    exists|a: Seq<char>, b: Seq<char>|
        #![trigger execution_note(a, b)]
        #![trigger recording_note(a, b)]
        #![trigger playback_note(a, b)]
        c == execution_note(a, b) || c == recording_note(a, b) || c == playback_note(a, b)
}

/// A conversation between the user, the model and the agent.
pub struct ChatSession {
    history: Vec<ChatMessage>,
    turns: u64,
    prompt: Ghost<Seq<char>>,
    phase: Phase,
}

impl View for ChatSession {
    type V = SessionView;

    closed spec fn view(&self) -> SessionView {
        SessionView {
            history: messages_view(self.history@),
            turns: self.turns as nat,
            prompt: self.prompt@,
            phase: self.phase@,
        }
    }
}

/// A well-formed conversation: headed by the system message and the user's
/// prompt, which stay there; after them the model's replies and the agent's reports alternate,
/// each report a user message holding an action note; the model has replied
/// at most as often as it was asked, and was asked at most `MAX_AGENT_STEPS`
/// times; and the phase agrees with the messages: a report is awaited right
/// after a reply, and otherwise a turn begins after a report.
pub open spec fn session_wf(v: SessionView) -> bool {
    &&& v.history.len() >= 2
    &&& v.history[0] == system_message()
    &&& v.history[1] == (MessageView { role: "user"@, content: v.prompt })
    &&& v.turns <= MAX_AGENT_STEPS
    &&& forall|i: int|
        2 <= i < v.history.len() && i % 2 == 1 ==> (#[trigger] v.history[i]).role == "user"@ && is_action_note(
            v.history[i].content,
        )
    &&& v.history.len() <= 2 + 2 * v.turns
    &&& match v.phase {
        PhaseView::AwaitingTurn => v.history.len() % 2 == 0,
        PhaseView::AwaitingReply => v.history.len() % 2 == 0 && v.history.len() + 2 <= 2 + 2 * v.turns,
        PhaseView::AwaitingReport(_) => v.history.len() % 2 == 1,
        PhaseView::Finished => true,
    }
}

fn message(role: &str, content: &str) -> (m: ChatMessage)
    ensures
        m@ == (MessageView { role: role@, content: content@ }),
{
    ChatMessage { role: to_string(role), content: to_string(content) }
}

impl ChatSession {
    /// A conversation that starts from the user's `prompt`: the system message,
    /// then the prompt; the model not yet asked.
    pub fn new(prompt: &str) -> (s: ChatSession)
        ensures
            s@.history == seq![system_message(), MessageView { role: "user"@, content: prompt@ }],
            s@.turns == 0,
            s@.prompt == prompt@,
            s@.phase == PhaseView::AwaitingTurn,
            session_wf(s@),
    {
        let mut history: Vec<ChatMessage> = Vec::new();
        history.push(message("system", SYSTEM_PROMPT));
        history.push(message("user", prompt));
        let s = ChatSession { history, turns: 0, prompt: Ghost(prompt@), phase: Phase::AwaitingTurn };
        assert(s@.history =~= seq![system_message(), MessageView { role: "user"@, content: prompt@ }]);
        s
    }

    /// The messages so far.
    pub fn history(&self) -> (h: &Vec<ChatMessage>)
        ensures
            messages_view(h@) == self@.history,
    {
        &self.history
    }

    /// The number of times the model was asked so far.
    pub fn turns(&self) -> (t: u64)
        ensures
            t == self@.turns,
    {
        self.turns
    }

    /// Whether the conversation has its answer.
    pub fn is_finished(&self) -> (r: bool)
        ensures
            r == (self@.phase is Finished),
    {
        match self.phase {
            Phase::Finished => true,
            _ => false,
        }
    }

    /// Begins a turn: asks the model again while fewer than `MAX_AGENT_STEPS`
    /// turns were taken, and otherwise ends the conversation.
    pub fn start_turn(&mut self) -> (step: AgentStep)
        requires
            session_wf(old(self)@),
            old(self)@.phase is AwaitingTurn,
        ensures
            session_wf(final(self)@),
            final(self)@.history == old(self)@.history,
            final(self)@.prompt == old(self)@.prompt,
            old(self)@.turns < MAX_AGENT_STEPS ==> step@ == StepView::QueryModel && final(self)@.turns
                == old(self)@.turns + 1 && final(self)@.phase == PhaseView::AwaitingReply,
            old(self)@.turns >= MAX_AGENT_STEPS ==> step@ == StepView::Finish(steps_exceeded_note())
                && final(self)@.turns == old(self)@.turns && final(self)@.phase == PhaseView::Finished,
    {
        if self.turns < MAX_AGENT_STEPS {
            self.turns = self.turns + 1;
            self.phase = Phase::AwaitingReply;
            AgentStep::QueryModel
        } else {
            self.phase = Phase::Finished;
            AgentStep::Finish(to_string("Agent loop exceeded maximum execution steps."))
        }
    }

    /// Ends the conversation when the model service failed.
    pub fn on_model_failure(&mut self, failure: &ModelFailure) -> (step: AgentStep)
        requires
            session_wf(old(self)@),
            old(self)@.phase is AwaitingReply,
        ensures
            session_wf(final(self)@),
            final(self)@.history == old(self)@.history,
            final(self)@.turns == old(self)@.turns,
            final(self)@.prompt == old(self)@.prompt,
            final(self)@.phase == PhaseView::Finished,
            step@ == StepView::Finish(failure_note(*failure)),
    {
        self.phase = Phase::Finished;
        match failure {
            ModelFailure::Unreachable(e) => AgentStep::Finish(
                concat2("Error communicating with local Ollama service: ", e.as_str()),
            ),
            ModelFailure::BadReply(e) => AgentStep::Finish(
                concat2("Failed to parse JSON response from Ollama: ", e.as_str()),
            ),
        }
    }

    /// Takes the model's reply, with the action read from its content (none
    /// when the content is not a valid action): the reply joins the
    /// conversation, and the action decides the next step; an action to take
    /// then awaits its report.
    pub fn on_model_reply(&mut self, reply: ChatMessage, action: Option<AgentAction>) -> (step: AgentStep)
        requires
            session_wf(old(self)@),
            old(self)@.phase is AwaitingReply,
        ensures
            session_wf(final(self)@),
            final(self)@.history == old(self)@.history.push(reply@),
            final(self)@.turns == old(self)@.turns,
            final(self)@.prompt == old(self)@.prompt,
            step@ == decide(
                match action {
                    Some(a) => Some(a@),
                    None => None,
                },
                reply@.content,
            ),
            final(self)@.phase == phase_after(step@),
    {
        let step = match &action {
            None => AgentStep::Finish(
                concat2("AI hallucinated invalid JSON format. Raw output: ", reply.content.as_str()),
            ),
            Some(a) => {
                let kind = a.action.as_str();
                if str_eq(kind, "respond") {
                    AgentStep::Finish(to_string(a.response.as_str()))
                } else if str_eq(kind, "execute") {
                    AgentStep::Execute(to_string(a.command.as_str()))
                } else if str_eq(kind, "record_macro") {
                    AgentStep::RecordMacro(to_string(a.macro_name.as_str()))
                } else if str_eq(kind, "play_macro") {
                    AgentStep::PlayMacro(to_string(a.macro_name.as_str()))
                } else {
                    AgentStep::Finish(concat2("Agent attempted unknown action: ", kind))
                }
            },
        };
        self.phase = match &step {
            AgentStep::Execute(c) => Phase::AwaitingReport(PendingAction::Execute(to_string(c.as_str()))),
            AgentStep::RecordMacro(n) => Phase::AwaitingReport(PendingAction::RecordMacro(to_string(n.as_str()))),
            AgentStep::PlayMacro(n) => Phase::AwaitingReport(PendingAction::PlayMacro(to_string(n.as_str()))),
            _ => Phase::Finished,
        };
        let ghost before = self.history@;
        self.history.push(reply);
        proof {
            let h = messages_view(self.history@);
            let b = messages_view(before);
            assert(h =~= b.push(self.history@.last()@));
            assert forall|i: int| 2 <= i < h.len() && i % 2 == 1 implies (#[trigger] h[i]).role == "user"@
                && is_action_note(h[i].content) by {
                assert(h[i] == b[i]);
            }
        }
        step
    }

    fn push_note(&mut self, note: String)
        requires
            session_wf(old(self)@),
            old(self)@.phase is AwaitingReport,
            is_action_note(note@),
        ensures
            session_wf(final(self)@),
            final(self)@.history == old(self)@.history.push(MessageView { role: "user"@, content: note@ }),
            final(self)@.turns == old(self)@.turns,
            final(self)@.prompt == old(self)@.prompt,
            final(self)@.phase == PhaseView::AwaitingTurn,
    {
        let m = ChatMessage { role: to_string("user"), content: note };
        let ghost before = self.history@;
        self.history.push(m);
        self.phase = Phase::AwaitingTurn;
        proof {
            let h = messages_view(self.history@);
            let b = messages_view(before);
            assert(h =~= b.push(self.history@.last()@));
            assert forall|i: int| 2 <= i < h.len() && i % 2 == 1 implies (#[trigger] h[i]).role == "user"@
                && is_action_note(h[i].content) by {
                if i < b.len() {
                    assert(h[i] == b[i]);
                }
            }
        }
    }

    /// Reports to the model the output of the command it asked to run.
    pub fn on_executed(&mut self, command: &str, output: &str)
        requires
            session_wf(old(self)@),
            old(self)@.phase == PhaseView::AwaitingReport(PendingView::Execute(command@)),
        ensures
            session_wf(final(self)@),
            final(self)@.history == old(self)@.history.push(
                MessageView { role: "user"@, content: execution_note(command@, output@) },
            ),
            final(self)@.turns == old(self)@.turns,
            final(self)@.prompt == old(self)@.prompt,
            final(self)@.phase == PhaseView::AwaitingTurn,
    {
        let mut note = to_string("{\"action_result\": \"executed\", \"command\": ");
        note.append(debug_quote(command).as_str());
        note.append(", \"output\": ");
        note.append(debug_quote(output).as_str());
        note.append("}");
        assert(is_action_note(note@)) by {
            assert(note@ == execution_note(command@, output@));
        }
        self.push_note(note);
    }

    /// Reports to the model how starting the recording it asked for went.
    pub fn on_recording_started(&mut self, name: &str, result: &str)
        requires
            session_wf(old(self)@),
            old(self)@.phase == PhaseView::AwaitingReport(PendingView::RecordMacro(name@)),
        ensures
            session_wf(final(self)@),
            final(self)@.history == old(self)@.history.push(
                MessageView { role: "user"@, content: recording_note(name@, result@) },
            ),
            final(self)@.turns == old(self)@.turns,
            final(self)@.prompt == old(self)@.prompt,
            final(self)@.phase == PhaseView::AwaitingTurn,
    {
        let mut note = to_string("{\"action_result\": \"record_macro_triggered\", \"macro_name\": ");
        note.append(debug_quote(name).as_str());
        note.append(", \"result\": ");
        note.append(debug_quote(result).as_str());
        note.append("}");
        assert(is_action_note(note@)) by {
            assert(note@ == recording_note(name@, result@));
        }
        self.push_note(note);
    }

    /// Reports to the model how playing the macro it asked for went.
    pub fn on_macro_played(&mut self, name: &str, result: &str)
        requires
            session_wf(old(self)@),
            old(self)@.phase == PhaseView::AwaitingReport(PendingView::PlayMacro(name@)),
        ensures
            session_wf(final(self)@),
            final(self)@.history == old(self)@.history.push(
                MessageView { role: "user"@, content: playback_note(name@, result@) },
            ),
            final(self)@.turns == old(self)@.turns,
            final(self)@.prompt == old(self)@.prompt,
            final(self)@.phase == PhaseView::AwaitingTurn,
    {
        let mut note = to_string("{\"action_result\": \"play_macro_completed\", \"macro_name\": ");
        note.append(debug_quote(name).as_str());
        note.append(", \"result\": ");
        note.append(debug_quote(result).as_str());
        note.append("}");
        assert(is_action_note(note@)) by {
            assert(note@ == playback_note(name@, result@));
        }
        self.push_note(note);
    }

    /// Ends the finished conversation with the answer `response`, handing out
    /// the whole conversation with it.
    pub fn into_response(self, response: String) -> (r: ChatResponse)
        requires
            session_wf(self@),
            self@.phase is Finished,
        ensures
            r.response@ == response@,
            messages_view(r.history@) == self@.history,
            messages_view(r.history@)[0] == system_message(),
            messages_view(r.history@)[1] == (MessageView { role: "user"@, content: self@.prompt }),
    {
        ChatResponse { response, history: self.history }
    }
}

/// A well-formed conversation begins with the system message and the user's
/// prompt; every reply of the model that is not the
/// last message is followed by exactly one report of the agent, a user message
/// holding an action note; the model replied at most `MAX_AGENT_STEPS` times;
/// and while a report is awaited the last message is a reply.
pub proof fn lemma_replies_followed_by_reports(v: SessionView)
    requires
        session_wf(v),
    ensures
        forall|i: int|
            2 <= i && i + 1 < v.history.len() && i % 2 == 0 ==> (#[trigger] v.history[i + 1]).role == "user"@
                && is_action_note(v.history[i + 1].content),
        (v.history.len() - 1) / 2 <= MAX_AGENT_STEPS,
        v.history[0] == system_message(),
        v.history[1] == (MessageView { role: "user"@, content: v.prompt }),
        v.phase is AwaitingReport ==> (v.history.len() - 1) % 2 == 0,
{
    assert forall|i: int| 2 <= i && i + 1 < v.history.len() && i % 2 == 0 implies (#[trigger] v.history[i
        + 1]).role == "user"@ && is_action_note(v.history[i + 1].content) by {
        assert((i + 1) % 2 == 1);
    }
}

/// How many of `attempts` further turns the model is granted, from `turns`
/// turns already taken.
pub open spec fn turns_granted(turns: nat, attempts: nat) -> nat
    decreases attempts,
{
    if attempts == 0 {
        0
    } else if turns < MAX_AGENT_STEPS {
        1 + turns_granted(turns + 1, (attempts - 1) as nat)
    } else {
        turns_granted(turns, (attempts - 1) as nat)
    }
}

/// However long a conversation goes on, the model is asked at most
/// `MAX_AGENT_STEPS` times in it.
pub proof fn lemma_turns_bounded(turns: nat, attempts: nat)
    requires
        turns <= MAX_AGENT_STEPS,
    ensures
        turns + turns_granted(turns, attempts) <= MAX_AGENT_STEPS,
    decreases attempts,
{
    if attempts > 0 {
        if turns < MAX_AGENT_STEPS {
            lemma_turns_bounded(turns + 1, (attempts - 1) as nat);
        } else {
            lemma_turns_bounded(turns, (attempts - 1) as nat);
        }
    }
}

/// What a finished shell command reports: its standard output and its
/// standard error, each decoded as `String::from_utf8_lossy` does.
pub open spec fn shell_report_spec(stdout: Seq<u8>, stderr: Seq<u8>) -> Seq<char> {
    "STDOUT:\n"@ + utf8_lossy(stdout) + "\nSTDERR:\n"@ + utf8_lossy(stderr)
}

/// The report of a shell command that ran, from the bytes it wrote.
pub fn shell_output_report(stdout: &[u8], stderr: &[u8]) -> (r: String)
    ensures
        r@ == shell_report_spec(stdout@, stderr@),
{
    let mut r = to_string("STDOUT:\n");
    r.append(from_utf8_lossy(stdout).as_str());
    r.append("\nSTDERR:\n");
    r.append(from_utf8_lossy(stderr).as_str());
    r
}

/// The report of a shell command that could not be started, from the error's
/// text.
pub fn shell_error_report(error: &str) -> (r: String)
    ensures
        r@ == "Execution Error: "@ + error@,
{
    concat2("Execution Error: ", error)
}

/// The model the daemon uses until the model service names one.
pub open spec fn default_model() -> Seq<char> {
    "qwen2.5:1.5b"@
}

/// The model the daemon uses until the model service names one.
pub fn default_model_name() -> (r: String)
    ensures
        r@ == default_model(),
{
    to_string("qwen2.5:1.5b")
}

/// How many times the daemon asks the model service for its models.
pub const MODEL_PROBE_ATTEMPTS: u32 = 10;

/// What the daemon does after asking the model service for its models.
#[derive(Debug, Clone)]
pub enum ProbeStep {
    /// Use the model of this name.
    Adopt(String),
    /// Wait, then ask again if attempts are left.
    Retry,
}

/// Tracks the daemon's attempts to learn the installed models.
pub struct ModelProbe {
    pub attempts: u32,
}

impl ModelProbe {
    /// No attempt made yet.
    pub fn new() -> (p: ModelProbe)
        ensures
            p.attempts == 0,
    {
        ModelProbe { attempts: 0 }
    }

    /// Whether another attempt may be made.
    pub fn may_retry(&self) -> (r: bool)
        ensures
            r == (self.attempts < MODEL_PROBE_ATTEMPTS),
    {
        self.attempts < MODEL_PROBE_ATTEMPTS
    }

    /// Takes the outcome of one attempt: the names of the installed models, or
    /// none when the service could not be asked or its answer not read. The
    /// first listed model is adopted; an empty list or a failure means retry.
    pub fn on_listing(&mut self, models: &Option<Vec<String>>) -> (step: ProbeStep)
        requires
            old(self).attempts < MODEL_PROBE_ATTEMPTS,
        ensures
            final(self).attempts == old(self).attempts + 1,
            match models {
                Some(names) => if names@.len() > 0 {
                    step matches ProbeStep::Adopt(n) && n@ == names@[0]@
                } else {
                    step is Retry
                },
                None => step is Retry,
            },
    {
        self.attempts = self.attempts + 1;
        match models {
            Some(names) => if names.len() > 0 {
                ProbeStep::Adopt(to_string(names[0].as_str()))
            } else {
                ProbeStep::Retry
            },
            None => ProbeStep::Retry,
        }
    }
}

/// What the daemon reports of itself: the recorder's state, the model in use
/// and the stored macros.
pub fn daemon_status(recorder: &MacroRecorder, model: &str, available_macros: Vec<String>) -> (s: DaemonStatus)
    ensures
        s.is_recording == recorder@.recording,
        s.current_macro_name@ == recorder@.name,
        s.model@ == model@,
        s.available_macros == available_macros,
{
    DaemonStatus {
        is_recording: recorder.is_recording(),
        current_macro_name: recorder.macro_name(),
        model: to_string(model),
        available_macros,
    }
}

} // verus!
