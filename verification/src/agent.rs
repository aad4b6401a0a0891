//! The decisions of the ReAct agent loop: what each step asks the model, which tools it
//! offers, where the tool calls of a reply come from, and how a step ends. Sending
//! requests and running tools is left to the caller, who reports back.
use vstd::prelude::*;

use crate::json::str_eq;
use crate::text::{decimal, decimal_string};
use crate::tool_calls::{
    advance, calls_built, extract_text_tool_calls, text_call_targets, CallIdCounter, TextToolCall,
};

verus! {

/// Which tools a request offers the model.
#[derive(Debug, Clone, Copy, PartialEq, Eq, Structural)]
pub enum ToolOffer {
    /// Only the tool that submits the final answer.
    SubmitOnly,
    /// Every tool.
    All,
}

/// What the caller sends for one step: the user message and the tools to offer.
#[derive(Debug)]
pub struct StepRequest {
    pub step: usize,
    pub is_last_turn: bool,
    pub user_message: String,
    pub offer: ToolOffer,
}

/// Progress through the steps of one run.
#[derive(Debug)]
pub struct AgentLoop {
    max_loop_count: usize,
    step: usize,
}

/// "You are in step {current} of {max}."
pub open spec fn step_line(current: nat, max: nat) -> Seq<char> {
    "You are in step "@ + decimal(current) + " of "@ + decimal(max) + "."@
}

/// The user message of step `step` of `max`: the first carries the user's prompt, the
/// last (when it is not also the first) asks for the submit tool.
pub open spec fn user_message_text(step: nat, max: nat, user_prompt: Seq<char>, submit: Seq<char>) -> Seq<char> {
    if step == 1 {
        step_line(1, max) + "\n"@ + user_prompt
    } else if step == max {
        step_line(step, max) + "\nThis is the final step. Make sure to call the '"@ + submit
            + "' tool if you haven't already."@
    } else {
        step_line(step, max)
    }
}

/// The message of the recovery request that follows a last step without a submission.
pub open spec fn recovery_text(submit: Seq<char>) -> Seq<char> {
    "This is the final recovery step. You MUST call `"@ + submit
        + "` now. Respond with ONLY a JSON object shaped like {\"name\":\""@ + submit
        + "\",\"arguments\":{...}} using the context gathered so far."@
}

impl AgentLoop {
    /// Steps begun so far.
    pub closed spec fn steps_taken(&self) -> nat {
        self.step as nat
    }

    /// Steps a run may take.
    pub closed spec fn max_steps(&self) -> nat {
        self.max_loop_count as nat
    }

    /// A run of at most `max_loop_count` steps, none begun yet.
    pub fn new(max_loop_count: usize) -> (r: Self)
        ensures
            r.steps_taken() == 0,
            r.max_steps() == max_loop_count,
    {
        AgentLoop { max_loop_count, step: 0 }
    }

    /// "You are in step {current} of {max_loop_count}."
    pub fn step_worder(&self, current: usize) -> (r: String)
        ensures
            r@ == step_line(current as nat, self.max_steps()),
            r@ == "You are in step "@ + decimal(current as nat) + " of "@ + decimal(self.max_steps())
                + "."@,
    {
        let mut s = String::from_str("You are in step ");
        let c = decimal_string(current as u64);
        s.append(c.as_str());
        s.append(" of ");
        let m = decimal_string(self.max_loop_count as u64);
        s.append(m.as_str());
        s.append(".");
        s
    }

    /// Begins the next step, if the run has one left; `None` means the run has used all
    /// its steps without a submission and fails. The last step offers only the submit
    /// tool.
    pub fn begin_step(&mut self, user_prompt: &str, submit_tool_name: &str) -> (r: Option<
        StepRequest,
    >)
        ensures
            final(self).max_steps() == old(self).max_steps(),
            old(self).steps_taken() < old(self).max_steps() ==> {
                &&& final(self).steps_taken() == old(self).steps_taken() + 1
                &&& r matches Some(req) && {
                    &&& req.step == final(self).steps_taken()
                    &&& req.is_last_turn == (req.step == old(self).max_steps())
                    &&& req.user_message@ == user_message_text(
                        req.step as nat,
                        old(self).max_steps(),
                        user_prompt@,
                        submit_tool_name@,
                    )
                    &&& req.step == 1 ==> req.user_message@ == "You are in step "@ + decimal(1)
                        + " of "@ + decimal(old(self).max_steps()) + "."@ + "\n"@ + user_prompt@
                    &&& req.step == old(self).max_steps() && req.step != 1 ==> req.user_message@
                        == "You are in step "@ + decimal(req.step as nat) + " of "@ + decimal(
                        old(self).max_steps(),
                    ) + "."@ + "\nThis is the final step. Make sure to call the '"@
                        + submit_tool_name@ + "' tool if you haven't already."@
                    &&& 1 < req.step < old(self).max_steps() ==> req.user_message@
                        == "You are in step "@ + decimal(req.step as nat) + " of "@ + decimal(
                        old(self).max_steps(),
                    ) + "."@
                    &&& req.offer == if req.is_last_turn {
                        ToolOffer::SubmitOnly
                    } else {
                        ToolOffer::All
                    }
                }
            },
            old(self).steps_taken() >= old(self).max_steps() ==> r is None
                && final(self).steps_taken() == old(self).steps_taken(),
    {
        if self.step >= self.max_loop_count {
            return None;
        }
        self.step = self.step + 1;
        let i = self.step;
        let is_last_turn = i == self.max_loop_count;
        let user_message = if i == 1 {
            let mut m = self.step_worder(1);
            m.append("\n");
            m.append(user_prompt);
            m
        } else if is_last_turn {
            let mut m = self.step_worder(i);
            m.append("\nThis is the final step. Make sure to call the '");
            m.append(submit_tool_name);
            m.append("' tool if you haven't already.");
            m
        } else {
            self.step_worder(i)
        };
        let offer = if is_last_turn {
            ToolOffer::SubmitOnly
        } else {
            ToolOffer::All
        };
        Some(StepRequest { step: i, is_last_turn, user_message, offer })
    }
}

/// The message that asks the model, in a last recovery request, to call the submit tool.
pub fn recovery_message(submit_tool_name: &str) -> (r: String)
    ensures
        r@ == recovery_text(submit_tool_name@),
{
    let mut m = String::from_str("This is the final recovery step. You MUST call `");
    m.append(submit_tool_name);
    m.append("` now. Respond with ONLY a JSON object shaped like {\"name\":\"");
    m.append(submit_tool_name);
    m.append("\",\"arguments\":{...}} using the context gathered so far.");
    m
}

/// Where the tool calls of a reply come from.
#[derive(Debug)]
pub enum ReplyCalls {
    /// The reply's structured tool calls (possibly none).
    Structured,
    /// The reply had no structured calls; these were read from its first text.
    FromText(Vec<TextToolCall>),
}

/// How the reply is recorded in the conversation.
#[derive(Debug, Clone, Copy, PartialEq, Eq, Structural)]
pub enum AssistantMessage {
    /// As the tool calls read from its text.
    FromToolCalls,
    /// As the reply's own content.
    FromResponse,
}

/// Decides where the tool calls of a reply come from: its structured calls, or, when it
/// has none, the calls written as JSON in its first text (see `extract_text_tool_calls`).
pub fn reply_calls(structured_count: usize, first_text: Option<&str>, ids: &mut CallIdCounter) -> (r:
    ReplyCalls)
    ensures
        match first_text {
            Some(text) => structured_count == 0 ==> (r matches ReplyCalls::FromText(calls)
                && calls_built(calls@, text_call_targets(text@), old(ids)@) && final(ids)@
                == advance(old(ids)@, calls@.len())),
            None => true,
        },
        !(structured_count == 0 && first_text is Some) ==> r is Structured && final(ids)@ == old(
            ids,
        )@,
{
    if structured_count == 0 {
        if let Some(text) = first_text {
            return ReplyCalls::FromText(extract_text_tool_calls(text, ids));
        }
    }
    ReplyCalls::Structured
}

impl ReplyCalls {
    /// Calls read from text stand in the conversation in place of the reply's content;
    /// otherwise the reply's content stands.
    pub fn assistant_message(&self) -> (r: AssistantMessage)
        ensures
            r == if self matches ReplyCalls::FromText(calls) && calls@.len() > 0 {
                AssistantMessage::FromToolCalls
            } else {
                AssistantMessage::FromResponse
            },
    {
        match self {
            ReplyCalls::FromText(calls) => if calls.len() > 0 {
                AssistantMessage::FromToolCalls
            } else {
                AssistantMessage::FromResponse
            },
            ReplyCalls::Structured => AssistantMessage::FromResponse,
        }
    }
}

/// The position of the first of `names` equal to `name`.
pub fn find_named(names: &Vec<String>, name: &str) -> (r: Option<usize>)
    ensures
        match r {
            Some(i) => i < names@.len() && names@[i as int]@ == name@ && forall|k: int|
                0 <= k < i ==> (#[trigger] names@[k])@ != name@,
            None => forall|k: int| 0 <= k < names@.len() ==> (#[trigger] names@[k])@ != name@,
        },
{
    let n = names.len();
    let mut i: usize = 0;
    while i < n
        invariant
            i <= n,
            n == names@.len(),
            forall|k: int| 0 <= k < i ==> (#[trigger] names@[k])@ != name@,
        decreases n - i,
    {
        if str_eq(names[i].as_str(), name) {
            return Some(i);
        }
        i = i + 1;
    }
    None
}

/// How a step ends once its tool calls are known.
#[derive(Debug, Clone, Copy, PartialEq, Eq, Structural)]
pub enum TurnOutcome {
    /// The marker call at this position submits the answer: the run returns its arguments.
    Submit(usize),
    /// The last step passed without a submission: ask once more (see `recovery_message`).
    Recover,
    /// Run the other tools and go on.
    RunTools,
}

/// Decides how a step ends, given the names of its marker calls: the first one named
/// like the submit tool ends the run; without one, the last step tries a recovery and
/// any other step runs its tools.
pub fn turn_outcome(marker_names: &Vec<String>, submit_tool_name: &str, is_last_turn: bool) -> (r:
    TurnOutcome)
    ensures
        match r {
            TurnOutcome::Submit(i) => i < marker_names@.len() && marker_names@[i as int]@
                == submit_tool_name@ && forall|k: int|
                0 <= k < i ==> (#[trigger] marker_names@[k])@ != submit_tool_name@,
            _ => (forall|k: int|
                0 <= k < marker_names@.len() ==> (#[trigger] marker_names@[k])@
                    != submit_tool_name@) && (r is Recover <==> is_last_turn),
        },
{
    match find_named(marker_names, submit_tool_name) {
        Some(i) => TurnOutcome::Submit(i),
        None => if is_last_turn {
            TurnOutcome::Recover
        } else {
            TurnOutcome::RunTools
        },
    }
}

/// The user message of a step: the first carries the step line and then the user's
/// prompt on the next line; the last one of a run of more than one step reminds the
/// model to call the submit tool; any other step is the step line alone.
pub proof fn law_user_message_text(step: nat, max: nat, user_prompt: Seq<char>, submit: Seq<char>)
    requires
        1 <= step <= max,
    ensures
        step == 1 ==> user_message_text(step, max, user_prompt, submit) == "You are in step "@
            + decimal(1) + " of "@ + decimal(max) + "."@ + "\n"@ + user_prompt,
        step == max && max > 1 ==> user_message_text(step, max, user_prompt, submit)
            == "You are in step "@ + decimal(step) + " of "@ + decimal(max) + "."@
            + "\nThis is the final step. Make sure to call the '"@ + submit
            + "' tool if you haven't already."@,
        1 < step < max ==> user_message_text(step, max, user_prompt, submit) == "You are in step "@
            + decimal(step) + " of "@ + decimal(max) + "."@,
{
}

} // verus!
