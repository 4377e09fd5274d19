//! Programming a device in full: the inputs first and, once they are in, the
//! configuration.

use vstd::prelude::*;
use crate::error::ProgramError;
use crate::session::{Payload, Progress, Reply, Request, Session, Timeout};
use crate::transfer::{Action, Event, Transfer};

verus! {

/// Which of the two transfers is running.
#[derive(PartialEq, Eq, Structural, Debug, Clone, Copy)]
pub enum Stage {
    Inputs,
    Config,
}

/// The state of programming a device: the two transfers and which of them is
/// running.
pub struct Plan {
    pub stage: Stage,
    pub inputs: Session,
    pub config: Session,
}

impl Plan {
    /// A plan of which nothing has begun.
    pub open spec fn start(inputs: Seq<Seq<u8>>, config: Seq<Seq<u8>>, saved: Timeout) -> Plan {
        Plan {
            stage: Stage::Inputs,
            inputs: Session::start(Payload::Inputs, inputs, saved),
            config: Session::start(Payload::Config, config, saved),
        }
    }

    /// The transfer that is running.
    pub open spec fn current(self) -> Session {
        match self.stage {
            Stage::Inputs => self.inputs,
            Stage::Config => self.config,
        }
    }

    /// What every state that a plan can reach satisfies: the configuration
    /// has not begun while the inputs run, and runs only behind inputs that
    /// went in.
    pub open spec fn wf(self) -> bool {
        &&& self.inputs.wf()
        &&& self.config.wf()
        &&& self.inputs.payload is Inputs
        &&& self.config.payload is Config
        &&& self.inputs.saved == self.config.saved
        &&& self.stage is Inputs ==> self.config.phase is Idle
        &&& self.stage is Config ==> self.inputs.phase is Done && self.inputs.outcome is Ok
    }

    /// What the plan asks for in this state: what the running transfer asks
    /// for.
    pub open spec fn request(self) -> Request {
        self.current().request()
    }

    /// The state after `reply`. The reply goes to the running transfer; when
    /// it ends the inputs with success, the configuration is next.
    pub open spec fn next(self, reply: Reply) -> Plan {
        match self.stage {
            Stage::Inputs => {
                let inputs = self.inputs.next(reply);
                if inputs.phase is Done && inputs.outcome is Ok {
                    Plan { stage: Stage::Config, inputs, ..self }
                } else {
                    Plan { inputs, ..self }
                }
            },
            Stage::Config => Plan { config: self.config.next(reply), ..self },
        }
    }

    /// What is to be told the user when `reply` arrives in this state.
    pub open spec fn reports(self, reply: Reply) -> Seq<Progress> {
        self.current().reports(reply)
    }
}

/// Every step keeps a well-formed plan well-formed.
pub proof fn lemma_plan_next_wf(plan: Plan, reply: Reply)
    requires
        plan.wf(),
    ensures
        plan.next(reply).wf(),
{
    crate::session::lemma_next_wf(plan.inputs, reply);
    crate::session::lemma_next_wf(plan.config, reply);
}

/// Inputs that fail end the plan: it asks for nothing but to finish with
/// their error, and the configuration never begins.
pub proof fn lemma_failed_inputs_end_plan(plan: Plan, reply: Reply)
    requires
        plan.wf(),
        plan.stage is Inputs,
        plan.inputs.next(reply).phase is Done,
        plan.inputs.next(reply).outcome is Err,
    ensures
        plan.next(reply).stage is Inputs,
        plan.next(reply).request() == Request::Finish(plan.next(reply).inputs.outcome),
        plan.next(reply).config == plan.config,
        plan.next(reply).next(reply) == plan.next(reply),
{
}

/// Inputs that go in hand over to the configuration: the plan's next request
/// is the first of the configuration transfer, to clear the channel, and from
/// then on every reply goes to that transfer.
pub proof fn lemma_config_follows_inputs(plan: Plan, reply: Reply)
    requires
        plan.wf(),
        plan.stage is Inputs,
        plan.inputs.next(reply).phase is Done,
        plan.inputs.next(reply).outcome is Ok,
    ensures
        plan.next(reply).stage is Config,
        plan.next(reply).request() == Request::Clear,
        plan.next(reply).config == plan.config,
        forall|later: Reply| #[trigger]
            plan.next(reply).next(later).config == plan.config.next(later) && plan.next(reply).next(
                later,
            ).inputs == plan.next(reply).inputs,
{
}

/// Programming a device, in progress.
#[derive(Debug)]
pub struct Programming {
    stage: Stage,
    inputs: Transfer,
    config: Transfer,
}

impl View for Programming {
    type V = Plan;

    closed spec fn view(&self) -> Plan {
        Plan { stage: self.stage, inputs: self.inputs@, config: self.config@ }
    }
}

impl Programming {
    /// Programming that runs `inputs` and then `config`.
    pub(crate) fn new(inputs: Transfer, config: Transfer) -> (programming: Programming)
        ensures
            programming@ == (Plan { stage: Stage::Inputs, inputs: inputs@, config: config@ }),
    {
        Programming { stage: Stage::Inputs, inputs, config }
    }

    /// What is to be done next.
    pub fn pending(&self) -> (action: Action)
        ensures
            action@ == self@.request(),
    {
        match self.stage {
            Stage::Inputs => self.inputs.pending(),
            Stage::Config => self.config.pending(),
        }
    }

    /// Takes what came of the pending action, tells `sink` what is worth
    /// telling, and returns what is to be done next.
    pub fn step(&mut self, event: Event, sink: &mut Vec<Progress>) -> (action: Action)
        ensures
            final(self)@ == old(self)@.next(event@),
            action@ == final(self)@.request(),
            final(sink)@ == old(sink)@ + old(self)@.reports(event@),
            old(self)@.wf() ==> final(self)@.wf(),
    {
        proof {
            if self@.wf() {
                lemma_plan_next_wf(self@, event@);
            }
        }
        match self.stage {
            Stage::Inputs => {
                let action = self.inputs.step(event, sink);
                match action {
                    Action::Finish(Ok(_)) => {
                        self.stage = Stage::Config;
                        self.config.pending()
                    },
                    other => other,
                }
            },
            Stage::Config => self.config.step(event, sink),
        }
    }

    /// The result: `None` while programming runs; once it is over, the error
    /// of the inputs if they failed, else the outcome of the configuration.
    pub fn result(&self) -> (result: Option<Result<(), ProgramError>>)
        ensures
            self@.current().phase is Done ==> result == Some(self@.current().outcome),
            !(self@.current().phase is Done) ==> result is None,
    {
        match self.stage {
            Stage::Inputs => self.inputs.result(),
            Stage::Config => self.config.result(),
        }
    }

    /// Which of the two transfers is running.
    pub fn stage(&self) -> (stage: Stage)
        ensures
            stage == self@.stage,
    {
        self.stage
    }

    /// The transfer of the inputs.
    pub fn inputs(&self) -> (transfer: &Transfer)
        ensures
            transfer@ == self@.inputs,
    {
        &self.inputs
    }

    /// The transfer of the configuration.
    pub fn config(&self) -> (transfer: &Transfer)
        ensures
            transfer@ == self@.config,
    {
        &self.config
    }
}

} // verus!
