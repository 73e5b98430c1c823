//! The enter/resume state machine of an enclave thread, the table of
//! requests handled without the host, and the pool of thread slots.
//!
//! The hardware transition itself happens outside this module: the caller
//! enters the enclave in the thread's current mode, reports how control came
//! back with `after_exit`, and carries out the action that it returns.

use vstd::prelude::*;

verus! {

/// Exception vector of an invalid-opcode trap, by which the enclave asks for
/// a privileged operation.
pub const INVALID_OPCODE: u8 = 6;

/// Request number: fetch an attestation quote.
pub const SYS_ENARX_GETATT: i64 = 0xEA01;

/// Request number: emulate the CPU identification instruction.
pub const SYS_ENARX_CPUID: i64 = 0xEA02;

/// Request number: nothing to do, resume the enclave.
pub const SYS_ENARX_ERESUME: i64 = -1;

/// How to transition into the enclave next.
#[derive(Clone, Copy, Debug, PartialEq, Eq, Structural)]
pub enum Entry {
    /// A fresh call of the thread's entry point.
    Enter,
    /// Continuation after an exit.
    Resume,
}

/// How control came back from the enclave.
#[derive(Clone, Copy, Debug, PartialEq, Eq, Structural)]
pub enum Exit {
    /// The enclave exited on its own.
    Returned,
    /// The enclave trapped with this exception vector.
    Exception(u8),
}

/// Who serves a request.
#[derive(Clone, Copy, Debug, PartialEq, Eq, Structural)]
pub enum Handler {
    Cpuid,
    Attest,
    Resume,
    /// The host serves it.
    Forward,
}

/// The four argument words of a request.
#[derive(Clone, Copy, Debug, PartialEq, Eq, Structural)]
pub struct Args(pub usize, pub usize, pub usize, pub usize);

/// The request half of the shared block: a number and four arguments.
#[derive(Clone, Copy, Debug, PartialEq, Eq, Structural)]
pub struct Request {
    pub num: i64,
    pub arg: Args,
}

/// The reply half of the shared block.
#[derive(Clone, Copy, Debug, PartialEq, Eq, Structural)]
pub enum Reply {
    /// A successful call with its two result words.
    Success(usize, usize),
    /// A failed call with its error number.
    Failure(i64),
}

/// The block shared between the enclave and the host.
#[derive(Clone, Copy, Debug, PartialEq, Eq, Structural)]
pub struct Block {
    pub req: Request,
    pub rep: Reply,
}

impl Block {
    /// An empty block: request number zero, zero arguments, a zero reply.
    pub fn new() -> (r: Block)
        ensures
            r.req.num == 0,
            r.req.arg == Args(0, 0, 0, 0),
            r.rep == Reply::Success(0, 0),
    {
        Block { req: Request { num: 0, arg: Args(0, 0, 0, 0) }, rep: Reply::Success(0, 0) }
    }
}

/// A violation of the protocol between enclave and host, after which the
/// thread cannot go on.
#[derive(Clone, Copy, Debug, PartialEq, Eq, Structural)]
pub enum Fatal {
    /// A trap other than an invalid opcode.
    UnexpectedException(u8),
    /// A resume at nesting depth zero.
    DepthUnderflow,
    /// An enter at the largest representable depth.
    DepthOverflow,
    /// An identification request whose leaf or subleaf is not 32 bits wide.
    BadCpuidArgs,
}

/// What the caller does after an exit.
#[derive(Clone, Copy, Debug, PartialEq, Eq, Structural)]
pub enum Action {
    /// Transition again, in the thread's current mode.
    Continue,
    /// Run the identification query on the host and report it with
    /// `complete_cpuid`.
    Cpuid { leaf: u32, subleaf: u32 },
    /// Fetch an attestation with these arguments and report it with
    /// `complete_attestation`.
    Attest(Args),
    /// Hand the block to the host as a system call.
    SysCall,
    /// Stop the thread.
    Fatal(Fatal),
}

/// Who serves request number `num`.
pub open spec fn handler_of(num: i64) -> Handler {
    if num == SYS_ENARX_CPUID {
        Handler::Cpuid
    } else if num == SYS_ENARX_GETATT {
        Handler::Attest
    } else if num == SYS_ENARX_ERESUME {
        Handler::Resume
    } else {
        Handler::Forward
    }
}

/// Looks up who serves request number `num`.
pub fn dispatch(num: i64) -> (r: Handler)
    ensures
        r == handler_of(num),
{
    if num == SYS_ENARX_CPUID {
        Handler::Cpuid
    } else if num == SYS_ENARX_GETATT {
        Handler::Attest
    } else if num == SYS_ENARX_ERESUME {
        Handler::Resume
    } else {
        Handler::Forward
    }
}

/// Identification and attestation requests are served in the enclave's
/// host process and never forwarded; every number outside the table is
/// forwarded.
pub proof fn lemma_dispatch_complete(num: i64)
    ensures
        num == SYS_ENARX_CPUID ==> handler_of(num) == Handler::Cpuid,
        num == SYS_ENARX_GETATT ==> handler_of(num) == Handler::Attest,
        num == SYS_ENARX_ERESUME ==> handler_of(num) == Handler::Resume,
        handler_of(num) == Handler::Forward <==> (num != SYS_ENARX_CPUID && num != SYS_ENARX_GETATT && num
            != SYS_ENARX_ERESUME),
{
}

/// What a request that has just been exchanged asks of the caller.
pub open spec fn request_action(req: Request) -> Action {
    match handler_of(req.num) {
        Handler::Cpuid => if req.arg.0 <= u32::MAX && req.arg.1 <= u32::MAX {
            Action::Cpuid { leaf: req.arg.0 as u32, subleaf: req.arg.1 as u32 }
        } else {
            Action::Fatal(Fatal::BadCpuidArgs)
        },
        Handler::Attest => Action::Attest(req.arg),
        Handler::Resume => Action::Continue,
        Handler::Forward => Action::SysCall,
    }
}

/// The nesting depth after a transition of kind `e` from depth `d`.
pub open spec fn next_depth(d: int, e: Entry) -> int {
    match e {
        Entry::Enter => d + 1,
        Entry::Resume => d - 1,
    }
}

/// The nesting depth after the transitions `es`, from depth `d`.
pub open spec fn depth_after(d: int, es: Seq<Entry>) -> int
    decreases es.len(),
{
    if es.len() == 0 {
        d
    } else {
        next_depth(depth_after(d, es.drop_last()), es.last())
    }
}

/// No transition in `es` resumes at depth zero.
pub open spec fn follows_protocol(d: int, es: Seq<Entry>) -> bool {
    forall|i: int| 0 <= i < es.len() && es[i] == Entry::Resume ==> depth_after(d, #[trigger] es.take(i)) > 0
}

/// From a non-negative depth, any sequence of transitions that never
/// resumes at depth zero leaves the depth non-negative.
pub proof fn lemma_depth_nonnegative(d: int, es: Seq<Entry>)
    requires
        d >= 0,
        follows_protocol(d, es),
    ensures
        depth_after(d, es) >= 0,
    decreases es.len(),
{
    if es.len() > 0 {
        let init = es.drop_last();
        assert forall|i: int| 0 <= i < init.len() && init[i] == Entry::Resume implies depth_after(
            d,
            #[trigger] init.take(i),
        ) > 0 by {
            assert(init.take(i) =~= es.take(i));
            assert(es[i] == init[i]);
        }
        lemma_depth_nonnegative(d, init);
        let last = es.len() - 1;
        assert(es.take(last) =~= init);
    }
}

/// `es` followed by `e` still never resumes at depth zero, where `e` does
/// not resume at depth zero after `es`.
pub proof fn lemma_protocol_push(d: int, es: Seq<Entry>, e: Entry)
    requires
        follows_protocol(d, es),
        e == Entry::Resume ==> depth_after(d, es) > 0,
    ensures
        follows_protocol(d, es.push(e)),
        depth_after(d, es.push(e)) == next_depth(depth_after(d, es), e),
{
    let longer = es.push(e);
    assert(longer.drop_last() =~= es);
    assert forall|i: int| 0 <= i < longer.len() && longer[i] == Entry::Resume implies depth_after(
        d,
        #[trigger] longer.take(i),
    ) > 0 by {
        if i < es.len() {
            assert(longer.take(i) =~= es.take(i));
            assert(longer[i] == es[i]);
        } else {
            assert(longer.take(i) =~= es);
        }
    }
}

/// An exit at depth `cssa` is a transition of the protocol: an
/// invalid-opcode trap below the largest depth, or a return above depth
/// zero.
pub open spec fn transitions(cssa: usize, exit: Exit) -> bool {
    ||| exit == Exit::Exception(INVALID_OPCODE) && cssa < usize::MAX
    ||| exit == Exit::Returned && cssa > 0
}

/// One hardware thread of an enclave: the slot it holds, the mode of its
/// next transition, its nesting depth, its shared block, and the
/// transitions it has made.
pub struct Thread {
    pub slot: usize,
    pub how: Entry,
    pub cssa: usize,
    pub block: Block,
    pub history: Ghost<Seq<Entry>>,
}

impl Thread {
    /// The depth counts the transitions made so far, and none of them
    /// resumed at depth zero.
    pub open spec fn wf(&self) -> bool {
        &&& self.cssa == depth_after(0, self.history@)
        &&& follows_protocol(0, self.history@)
    }

    /// The next transition's mode.
    pub fn mode(&self) -> (r: Entry)
        ensures
            r == self.how,
    {
        self.how
    }

    /// The nesting depth.
    pub fn depth(&self) -> (r: usize)
        ensures
            r == self.cssa,
    {
        self.cssa
    }

    /// Takes in how control came back from a transition made in the current
    /// mode, updates mode and depth, and says what to do next. An
    /// invalid-opcode trap makes the next transition an enter and deepens
    /// the nesting; a return makes it a resume and lessens it. Only a
    /// return right after an enter has exchanged a request: then the
    /// request's number picks the action. Any other trap, and a resume at
    /// depth zero, is fatal and leaves the thread as it was.
    pub fn after_exit(&mut self, exit: Exit) -> (r: Action)
        requires
            old(self).wf(),
        ensures
            final(self).wf(),
            transitions(old(self).cssa, exit) ==> final(self).history@ == old(self).history@.push(final(self).how),
            !transitions(old(self).cssa, exit) ==> final(self).history@ == old(self).history@,
            final(self).slot == old(self).slot,
            final(self).block == old(self).block,
            exit is Exception && exit->0 != INVALID_OPCODE ==> r == Action::Fatal(Fatal::UnexpectedException(exit->0))
                && final(self).how == old(self).how && final(self).cssa == old(self).cssa,
            exit == Exit::Exception(INVALID_OPCODE) ==> if old(self).cssa == usize::MAX {
                r == Action::Fatal(Fatal::DepthOverflow) && final(self).how == old(self).how && final(self).cssa
                    == old(self).cssa
            } else {
                r == Action::Continue && final(self).how == Entry::Enter && final(self).cssa == next_depth(
                    old(self).cssa as int,
                    Entry::Enter,
                )
            },
            exit == Exit::Returned ==> if old(self).cssa == 0 {
                r == Action::Fatal(Fatal::DepthUnderflow) && final(self).how == old(self).how && final(self).cssa
                    == old(self).cssa
            } else {
                &&& final(self).how == Entry::Resume
                &&& final(self).cssa == next_depth(old(self).cssa as int, Entry::Resume)
                &&& r == if old(self).how == Entry::Enter {
                    request_action(old(self).block.req)
                } else {
                    Action::Continue
                }
            },
    {
        let prev = self.how;
        match exit {
            Exit::Exception(v) => {
                if v != INVALID_OPCODE {
                    return Action::Fatal(Fatal::UnexpectedException(v));
                }
                if self.cssa == usize::MAX {
                    return Action::Fatal(Fatal::DepthOverflow);
                }
                proof {
                    lemma_protocol_push(0, self.history@, Entry::Enter);
                }
                self.how = Entry::Enter;
                self.cssa = self.cssa + 1;
                self.history = Ghost(self.history@.push(Entry::Enter));
                Action::Continue
            },
            Exit::Returned => {
                if self.cssa == 0 {
                    return Action::Fatal(Fatal::DepthUnderflow);
                }
                proof {
                    lemma_protocol_push(0, self.history@, Entry::Resume);
                }
                self.how = Entry::Resume;
                self.cssa = self.cssa - 1;
                self.history = Ghost(self.history@.push(Entry::Resume));
                match prev {
                    Entry::Enter => self.request(),
                    Entry::Resume => Action::Continue,
                }
            },
        }
    }

    /// What the request in the block asks of the caller.
    pub fn request(&self) -> (r: Action)
        ensures
            r == request_action(self.block.req),
    {
        let req = self.block.req;
        match dispatch(req.num) {
            Handler::Cpuid => {
                if req.arg.0 <= 0xffff_ffffusize && req.arg.1 <= 0xffff_ffffusize {
                    Action::Cpuid { leaf: req.arg.0 as u32, subleaf: req.arg.1 as u32 }
                } else {
                    Action::Fatal(Fatal::BadCpuidArgs)
                }
            },
            Handler::Attest => Action::Attest(req.arg),
            Handler::Resume => Action::Continue,
            Handler::Forward => Action::SysCall,
        }
    }

    /// Writes the four registers of an identification query into the
    /// request's arguments.
    pub fn complete_cpuid(&mut self, eax: u32, ebx: u32, ecx: u32, edx: u32)
        ensures
            final(self).slot == old(self).slot,
            final(self).how == old(self).how,
            final(self).cssa == old(self).cssa,
            final(self).history == old(self).history,
            final(self).block.rep == old(self).block.rep,
            final(self).block.req.num == old(self).block.req.num,
            final(self).block.req.arg == Args(eax as usize, ebx as usize, ecx as usize, edx as usize),
    {
        self.block.req.arg = Args(eax as usize, ebx as usize, ecx as usize, edx as usize);
    }

    /// Takes in the outcome of an attestation request. A quote of `len`
    /// bytes becomes the reply `(len, 0)`; a failure is handed back
    /// unchanged and the block is left as it was, so that the caller stops
    /// without resuming the enclave.
    pub fn complete_attestation(&mut self, outcome: Result<usize, i64>) -> (r: Result<(), i64>)
        ensures
            final(self).slot == old(self).slot,
            final(self).how == old(self).how,
            final(self).cssa == old(self).cssa,
            final(self).history == old(self).history,
            final(self).block.req == old(self).block.req,
            match outcome {
                Ok(len) => r is Ok && final(self).block.rep == Reply::Success(len, 0),
                Err(e) => r == Err::<(), i64>(e) && final(self).block.rep == old(self).block.rep,
            },
    {
        match outcome {
            Ok(len) => {
                self.block.rep = Reply::Success(len, 0);
                Ok(())
            },
            Err(e) => Err(e),
        }
    }
}

/// Why no thread could be added.
#[derive(Clone, Copy, Debug, PartialEq, Eq, Structural)]
pub enum KeepError {
    /// Every thread slot is taken.
    OutOfThreads,
}

/// The free thread slots of a built enclave, each named by the address of
/// its thread-control page.
#[derive(Debug)]
pub struct Keep {
    pub free: Vec<usize>,
}

impl Keep {
    /// A keep whose slots are all free.
    pub fn new(slots: Vec<usize>) -> (r: Keep)
        ensures
            r.free@ == slots@,
    {
        Keep { free: slots }
    }

    /// Claims a free slot for a new thread, which starts in enter mode at
    /// depth zero with an empty block; fails when no slot is free.
    pub fn add_thread(&mut self) -> (r: Result<Thread, KeepError>)
        ensures
            old(self).free@.len() == 0 <==> r == Err::<Thread, KeepError>(KeepError::OutOfThreads),
            old(self).free@.len() == 0 ==> final(self).free@ == old(self).free@,
            old(self).free@.len() > 0 ==> ({
                let t = r->Ok_0;
                &&& r is Ok
                &&& final(self).free@ == old(self).free@.drop_last()
                &&& t.slot == old(self).free@.last()
                &&& t.how == Entry::Enter
                &&& t.cssa == 0
                &&& t.history@ == Seq::<Entry>::empty()
                &&& t.wf()
                &&& t.block.req.num == 0
                &&& t.block.req.arg == Args(0, 0, 0, 0)
                &&& t.block.rep == Reply::Success(0, 0)
            }),
    {
        match self.free.pop() {
            Some(slot) => Ok(
                Thread { slot, how: Entry::Enter, cssa: 0, block: Block::new(), history: Ghost(Seq::empty()) },
            ),
            None => Err(KeepError::OutOfThreads),
        }
    }

    /// Gives a thread's slot back.
    pub fn release(&mut self, thread: Thread)
        ensures
            final(self).free@ == old(self).free@.push(thread.slot),
    {
        self.free.push(thread.slot);
    }
}

} // verus!
