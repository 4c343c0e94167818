//! The machine of the main network.

use crate::handler::context;
use crate::handler::context::Context;
use crate::handler::evm::{EvmTr, FrameTr, ItemOrResult};
use crate::handler::frame_stack::FrameStack;
use crate::host::Host;
use crate::instructions::table;
use crate::instructions::table::{instruction_table, Instruction};
use crate::interpreter::action::{ActionState, FrameRequest, InterpreterAction, InterpreterResult};
use crate::interpreter::machine::Interpreter;
use crate::interpreter::run;
use crate::journal::database::{Database, EmptyDB};
use crate::journal::model::JournalState;
use crate::primitives::SpecId;
use vstd::prelude::*;

verus! {

/// A frame of the main network: an interpreter, and whether it has come to its end.
#[derive(Debug)]
pub struct EthFrame {
    /// The interpreter.
    pub interpreter: Interpreter,
    /// Whether the frame has come to its end.
    pub is_finished: bool,
}

impl FrameTr for EthFrame {
    type FrameResult = InterpreterResult;

    type FrameInit = FrameRequest;

    open spec fn finished(&self) -> bool {
        self.is_finished
    }

    fn is_finished(&self) -> (r: bool) {
        self.is_finished
    }
}

/// The instructions of the main network.
#[derive(Debug)]
pub struct EthInstructions {
    /// The table.
    pub instruction_table: Vec<Instruction>,
}

impl EthInstructions {
    /// The table has the entry of each byte.
    pub open spec fn standard(&self) -> bool {
        self.instruction_table@.len() == 256 && forall|byte: u8|
            table::is_default_entry(#[trigger] self.instruction_table@[byte as int], byte)
    }
}

impl Default for EthInstructions {
    fn default() -> (r: EthInstructions)
        ensures
            r.standard(),
    {
        EthInstructions { instruction_table: instruction_table() }
    }
}

/// The precompiles of the main network in a fork.
#[derive(Clone, Copy, Debug, PartialEq, Eq, Structural)]
pub struct EthPrecompiles {
    /// The fork.
    pub spec: SpecId,
}

impl Default for EthPrecompiles {
    fn default() -> (r: EthPrecompiles)
        ensures
            r.spec == SpecId::PRAGUE,
    {
        EthPrecompiles { spec: SpecId::default() }
    }
}

/// A machine.
#[derive(Debug)]
pub struct Evm<CTX, INSP, I, P, F> {
    /// What the frames run in.
    pub ctx: CTX,
    /// What looks on.
    pub inspector: INSP,
    /// The instructions.
    pub instruction: I,
    /// The precompiles.
    pub precompiles: P,
    /// The frames that are under way.
    pub frame_stack: FrameStack<F>,
}

/// The machine of the main network.
pub type MainnetEvm<CTX, INSP> = Evm<CTX, INSP, EthInstructions, EthPrecompiles, EthFrame>;

impl<CTX, INSP, I, P, F: FrameTr> EvmTr for Evm<CTX, INSP, I, P, F> {
    type Context = CTX;

    type Instructions = I;

    type Precompiles = P;

    type Frame = F;

    open spec fn context(&self) -> CTX {
        self.ctx
    }

    open spec fn instructions(&self) -> I {
        self.instruction
    }

    open spec fn precompiles(&self) -> P {
        self.precompiles
    }

    open spec fn frames(&self) -> Seq<F> {
        self.frame_stack@
    }

    fn all(&self) -> (r: (&CTX, &I, &P, &FrameStack<F>)) {
        (&self.ctx, &self.instruction, &self.precompiles, &self.frame_stack)
    }

    fn all_mut(&mut self) -> (r: (&mut CTX, &mut I, &mut P, &mut FrameStack<F>)) {
        (&mut self.ctx, &mut self.instruction, &mut self.precompiles, &mut self.frame_stack)
    }
}

/// What an action asks for, or the result that it is.
pub open spec fn outcome(action: ActionState, r: ItemOrResult<FrameRequest, InterpreterResult>) -> bool {
    match action {
        ActionState::NewFrame(request) => r matches ItemOrResult::Item(x) && x == request,
        ActionState::Return(result) => r matches ItemOrResult::Result(x) && x@ == result,
    }
}

/// A frame ran: its interpreter did, and the frame has come to its end if the run ended with a
/// result.
pub open spec fn frame_ran<CTX: Host>(
    before: EthFrame,
    pre: &CTX,
    after: EthFrame,
    post: &CTX,
    r: ItemOrResult<FrameRequest, InterpreterResult>,
) -> bool {
    exists|action: ActionState| #[trigger]
        run::ran(before.interpreter@, pre, after.interpreter@, post, action) && outcome(action, r)
            && after.is_finished == (before.is_finished || action is Return)
}

impl EthFrame {
    /// Takes the action that ended a run: the frame has come to its end if the action is a
    /// result.
    pub fn process_next_action(&mut self, action: InterpreterAction) -> (r: ItemOrResult<
        FrameRequest,
        InterpreterResult,
    >)
        ensures
            outcome(action@, r),
            final(self).interpreter == old(self).interpreter,
            final(self).is_finished == (old(self).is_finished || action@ is Return),
    {
        match action {
            InterpreterAction::NewFrame(request) => ItemOrResult::Item(request),
            InterpreterAction::Return(result) => {
                self.is_finished = true;
                ItemOrResult::Result(result)
            },
        }
    }
}

impl<CTX: Host, INSP, P> Evm<CTX, INSP, EthInstructions, P, EthFrame> {
    /// Runs the innermost frame until it ends or asks for a new one.
    pub fn frame_run(&mut self) -> (r: ItemOrResult<FrameRequest, InterpreterResult>)
        requires
            old(self).frame_stack@.len() > 0,
            old(self).frame_stack@.last().interpreter.ready(),
            old(self).frame_stack@.last().interpreter@.at_instruction(),
            run::has_randomness(
                old(self).frame_stack@.last().interpreter@,
                old(self).ctx.env(),
            ),
        ensures
            final(self).frame_stack@.len() == old(self).frame_stack@.len(),
            final(self).frame_stack@.drop_last() == old(self).frame_stack@.drop_last(),
            frame_ran(
                old(self).frame_stack@.last(),
                &old(self).ctx,
                final(self).frame_stack@.last(),
                &final(self).ctx,
                r,
            ),
            final(self).ctx.env() == old(self).ctx.env(),
            final(self).instruction == old(self).instruction,
            final(self).precompiles == old(self).precompiles,
            final(self).inspector == old(self).inspector,
            r is Item ==> final(self).frame_stack@.last().interpreter.ready()
                && final(self).frame_stack@.last().interpreter@.at_instruction(),
    {
        let frame = self.frame_stack.get();
        let action = frame.interpreter.run_plain(
            self.instruction.instruction_table.as_slice(),
            &mut self.ctx,
        );
        let r = frame.process_next_action(action);
        assert(self.frame_stack@.drop_last() =~= old(self).frame_stack@.drop_last());
        r
    }
}

/// Makes machines of the main network.
pub trait MainBuilder: Sized {
    /// What the frames run in.
    type Context;

    /// The context that the machine gets.
    spec fn given(self) -> Self::Context;

    /// A machine that nothing looks on.
    fn build_mainnet(self) -> (r: MainnetEvm<Self::Context, ()>)
        ensures
            r.ctx == self.given(),
            r.instruction.standard(),
            r.precompiles.spec == SpecId::PRAGUE,
            r.frame_stack@ == Seq::<EthFrame>::empty(),
    ;

    /// A machine that an inspector looks on.
    fn build_mainnet_with_inspector<INSP>(self, inspector: INSP) -> (r: MainnetEvm<
        Self::Context,
        INSP,
    >)
        ensures
            r.ctx == self.given(),
            r.inspector == inspector,
            r.instruction.standard(),
            r.precompiles.spec == SpecId::PRAGUE,
            r.frame_stack@ == Seq::<EthFrame>::empty(),
    ;
}

impl<DB: Database> MainBuilder for Context<DB> {
    type Context = Context<DB>;

    open spec fn given(self) -> Context<DB> {
        self
    }

    fn build_mainnet(self) -> (r: MainnetEvm<Context<DB>, ()>) {
        self.build_mainnet_with_inspector(())
    }

    fn build_mainnet_with_inspector<INSP>(self, inspector: INSP) -> (r: MainnetEvm<
        Context<DB>,
        INSP,
    >) {
        Evm {
            ctx: self,
            inspector,
            instruction: EthInstructions::default(),
            precompiles: EthPrecompiles::default(),
            frame_stack: FrameStack::new_prealloc(8),
        }
    }
}

/// Makes contexts of the main network.
pub trait MainContext: Sized {
    /// Whether the context is that of an empty network.
    spec fn blank(self) -> bool;

    /// A context in the current fork.
    fn mainnet() -> (r: Self)
        ensures
            r.blank(),
    ;
}

impl MainContext for Context<EmptyDB> {
    open spec fn blank(self) -> bool {
        self.db == EmptyDB && self.journaled_state@ == JournalState::fresh() && self.env@
            == context::blank_env()
    }

    fn mainnet() -> (r: Context<EmptyDB>) {
        Context::new(EmptyDB::new(), SpecId::default())
    }
}

} // verus!
