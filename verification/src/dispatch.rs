//! The service's single-threaded dispatch loop, as a state machine.
//!
//! One dedicated thread receives inbound scalar events and routes them by
//! opcode: suspend/resume requests go through the coordinator, characters
//! from the UART and the key matrix go through the command assembler, a
//! self-directed `DoCmd` event executes the next completed line, and `Quit`
//! starts the shutdown sequence. The loop decides; the unverified shell
//! around it performs the returned `Action` (device calls, the blocking
//! resume wait, message sends, teardown) and feeds the next event back in.

use vstd::prelude::*;

use crate::assembler::{push_spec, norm_code, scalar_ok, code_of, decode_scalar, CommandAssembler};
use crate::command::{parses_to, parse_command, CommandAction};
use crate::power::{PowerState, SuspendResumeCoordinator};

verus! {

/// The closed set of event kinds the service accepts.
#[derive(Clone, Copy, Debug, PartialEq, Eq, Structural)]
pub enum Opcode {
    /// The OS granted a suspend request; the first word carries the token.
    SuspendResume,
    /// Self-directed: execute the next completed command line.
    DoCmd,
    /// One character code arrived over the debug UART.
    KeyboardChar,
    /// The key matrix wants to be polled for newly resolved characters.
    HandlerTrigger,
    /// Shut the service down.
    Quit,
}

/// The opcode a scalar message identifier names, if any.
pub open spec fn opcode_of(id: int) -> Option<Opcode> {
    if id == 0 {
        Some(Opcode::SuspendResume)
    } else if id == 1 {
        Some(Opcode::DoCmd)
    } else if id == 2 {
        Some(Opcode::KeyboardChar)
    } else if id == 3 {
        Some(Opcode::HandlerTrigger)
    } else if id == 4 {
        Some(Opcode::Quit)
    } else {
        None
    }
}

/// Decode a message identifier into its opcode; unknown identifiers are
/// reported, never fatal.
pub fn opcode_from_id(id: usize) -> (r: Option<Opcode>)
    ensures
        r == opcode_of(id as int),
{
    if id == 0 {
        Some(Opcode::SuspendResume)
    } else if id == 1 {
        Some(Opcode::DoCmd)
    } else if id == 2 {
        Some(Opcode::KeyboardChar)
    } else if id == 3 {
        Some(Opcode::HandlerTrigger)
    } else if id == 4 {
        Some(Opcode::Quit)
    } else {
        None
    }
}

/// The message identifier that names `op`.
pub fn opcode_to_id(op: Opcode) -> (r: usize)
    ensures
        opcode_of(r as int) == Some(op),
{
    match op {
        Opcode::SuspendResume => 0,
        Opcode::DoCmd => 1,
        Opcode::KeyboardChar => 2,
        Opcode::HandlerTrigger => 3,
        Opcode::Quit => 4,
    }
}

/// The lifecycle of the dispatch loop.
#[derive(Clone, Copy, Debug, PartialEq, Eq, Structural)]
pub enum LoopState {
    /// Setting up: registering with the OS and wiring the sub-devices.
    Initializing,
    /// Blocking for the next inbound event and dispatching it.
    Serving,
    /// `Quit` arrived; the shell unregisters the service's public name,
    /// releases the event queue, and terminates the process.
    ShuttingDown,
    /// Teardown is complete.
    Terminated,
}

/// What the unverified shell must do after one dispatch step.
#[derive(Debug, PartialEq, Eq)]
pub enum Action {
    /// Run a full suspend cycle: suspend the sub-devices in the
    /// coordinator's order, block on the OS rendezvous with `token`, then
    /// resume them in reverse.
    RunSuspendCycle { token: usize },
    /// Send the service `count` self-directed `DoCmd` events, one per
    /// command line that just completed.
    EnqueueDoCmd { count: usize },
    /// Perform one parsed command (log, connect the core, print registers).
    Execute(CommandAction),
    /// Log an event that carried an unknown identifier.
    ReportUnknown { id: usize },
    /// Tear the service down.
    Shutdown,
    /// Nothing to do.
    Nothing,
}

/// What feeding the characters `keys`, in order, does to a line buffer:
/// the final buffer, and the completed command lines in completion order.
pub open spec fn feed_spec(buf: Seq<char>, keys: Seq<char>) -> (Seq<char>, Seq<Seq<char>>)
    decreases keys.len(),
{
    if keys.len() == 0 {
        (buf, Seq::<Seq<char>>::empty())
    } else {
        let first = push_spec(buf, keys[0]);
        let rest = feed_spec(first.0, keys.drop_first());
        let done = match first.1 {
            Some(cmd) => seq![cmd] + rest.1,
            None => rest.1,
        };
        (rest.0, done)
    }
}

proof fn lemma_feed_spec_snoc(buf: Seq<char>, keys: Seq<char>, c: char)
    ensures
        ({
            let pre = feed_spec(buf, keys);
            let step = push_spec(pre.0, c);
            &&& feed_spec(buf, keys.push(c)).0 == step.0
            &&& feed_spec(buf, keys.push(c)).1 == (match step.1 {
                Some(cmd) => pre.1.push(cmd),
                None => pre.1,
            })
        }),
    decreases keys.len(),
{
    let snoc = keys.push(c);
    if keys.len() == 0 {
        assert(snoc[0] == c);
        assert(snoc.drop_first() =~= Seq::<char>::empty());
        let step = push_spec(buf, c);
        assert(feed_spec(step.0, snoc.drop_first()) == (
            step.0,
            Seq::<Seq<char>>::empty(),
        ));
        match step.1 {
            Some(cmd) => {
                assert(seq![cmd] + Seq::<Seq<char>>::empty() =~= Seq::<Seq<char>>::empty().push(
                    cmd,
                ));
            },
            None => {},
        }
    } else {
        assert(snoc[0] == keys[0]);
        assert(snoc.drop_first() =~= keys.drop_first().push(c));
        let first = push_spec(buf, keys[0]);
        lemma_feed_spec_snoc(first.0, keys.drop_first(), c);
        let pre_rest = feed_spec(first.0, keys.drop_first());
        let pre = feed_spec(buf, keys);
        let step = push_spec(pre.0, c);
        match step.1 {
            Some(cmd) => {
                match first.1 {
                    Some(cmd0) => {
                        assert(seq![cmd0] + pre_rest.1.push(cmd) =~= (seq![cmd0]
                            + pre_rest.1).push(cmd));
                    },
                    None => {},
                }
            },
            None => {},
        }
    }
}

/// The whole dispatch step for one key that reached the assembler: the new
/// line buffer follows `push_spec`, a completed line is queued for the next
/// `DoCmd`, and the action tells the shell whether to enqueue one.
pub open spec fn key_steps(
    pre_line: Seq<char>,
    pre_pending: Seq<Seq<char>>,
    post_line: Seq<char>,
    post_pending: Seq<Seq<char>>,
    r: Action,
    c: char,
) -> bool {
    let step = push_spec(pre_line, c);
    &&& post_line == step.0
    &&& match step.1 {
        Some(cmd) => post_pending == pre_pending.push(cmd) && r == (Action::EnqueueDoCmd {
            count: 1,
        }),
        None => post_pending == pre_pending && r == Action::Nothing,
    }
}

/// The service's single control loop: routes inbound events, drives the
/// assembler, the parser and the suspend/resume coordinator, and tells the
/// unverified shell what to perform after each step.
pub struct ServiceDispatchLoop {
    assembler: CommandAssembler,
    coordinator: SuspendResumeCoordinator,
    pending: Vec<Vec<char>>,
    state: LoopState,
}

impl ServiceDispatchLoop {
    /// The command line under assembly.
    pub closed spec fn line(&self) -> Seq<char> {
        self.assembler@
    }

    /// The completed command lines awaiting their `DoCmd` events, oldest
    /// first.
    pub closed spec fn pending_lines(&self) -> Seq<Seq<char>> {
        self.pending@.map_values(|v: Vec<char>| v@)
    }

    /// The registered sub-devices, in registration order.
    pub closed spec fn devices(&self) -> Seq<u32> {
        self.coordinator@
    }

    /// Where the coordinator stands in a power transition.
    pub closed spec fn power_state(&self) -> PowerState {
        self.coordinator.power_state()
    }

    /// Where the loop stands in its lifecycle.
    pub closed spec fn loop_state(&self) -> LoopState {
        self.state
    }

    /// The loop's invariant: the assembler's line is within its cap.
    pub open spec fn wf(&self) -> bool {
        self.line().len() <= crate::assembler::LINE_CAPACITY
    }

    /// A fresh loop: nothing assembled, nothing pending, no sub-devices,
    /// initializing, running.
    pub fn new() -> (r: ServiceDispatchLoop)
        ensures
            r.wf(),
            r.line() == Seq::<char>::empty(),
            r.pending_lines() == Seq::<Seq<char>>::empty(),
            r.devices() == Seq::<u32>::empty(),
            r.power_state() == PowerState::Running,
            r.loop_state() == LoopState::Initializing,
    {
        let r = ServiceDispatchLoop {
            assembler: CommandAssembler::new(),
            coordinator: SuspendResumeCoordinator::new(),
            pending: Vec::new(),
            state: LoopState::Initializing,
        };
        proof {
            assert(r.pending_lines() =~= Seq::<Seq<char>>::empty());
        }
        r
    }

    /// Setup is done: the service is registered and starts blocking for
    /// inbound events.
    pub fn begin_serving(&mut self)
        requires
            old(self).loop_state() == LoopState::Initializing,
        ensures
            final(self).loop_state() == LoopState::Serving,
            final(self).line() == old(self).line(),
            final(self).pending_lines() == old(self).pending_lines(),
            final(self).devices() == old(self).devices(),
            final(self).power_state() == old(self).power_state(),
            old(self).wf() ==> final(self).wf(),
    {
        self.state = LoopState::Serving;
    }

    /// Register one more sub-device with the coordinator.
    pub fn register_device(&mut self, device: u32)
        ensures
            final(self).devices() == old(self).devices().push(device),
            final(self).power_state() == old(self).power_state(),
            final(self).line() == old(self).line(),
            final(self).pending_lines() == old(self).pending_lines(),
            final(self).loop_state() == old(self).loop_state(),
            old(self).wf() ==> final(self).wf(),
    {
        self.coordinator.register(device);
    }

    /// Accept the suspend request: returns the sub-devices in the order
    /// their `suspend()` calls must be made.
    pub fn begin_suspend(&mut self) -> (order: Vec<u32>)
        requires
            old(self).power_state() == PowerState::Running,
        ensures
            final(self).power_state() == PowerState::SuspendPending,
            order@ == old(self).devices(),
            final(self).devices() == old(self).devices(),
            final(self).line() == old(self).line(),
            final(self).pending_lines() == old(self).pending_lines(),
            final(self).loop_state() == old(self).loop_state(),
            old(self).wf() ==> final(self).wf(),
    {
        self.coordinator.begin_suspend()
    }

    /// Note that every sub-device is quiesced and the blocking wait on the
    /// OS's resume rendezvous begins.
    pub fn enter_suspended(&mut self)
        requires
            old(self).power_state() == PowerState::SuspendPending,
        ensures
            final(self).power_state() == PowerState::Suspended,
            final(self).devices() == old(self).devices(),
            final(self).line() == old(self).line(),
            final(self).pending_lines() == old(self).pending_lines(),
            final(self).loop_state() == old(self).loop_state(),
            old(self).wf() ==> final(self).wf(),
    {
        self.coordinator.enter_suspended();
    }

    /// Resume permission arrived: returns the sub-devices in the order
    /// their `resume()` calls must be made — the reverse of the suspend
    /// order.
    pub fn finish_resume(&mut self) -> (order: Vec<u32>)
        requires
            old(self).power_state() == PowerState::Suspended,
        ensures
            final(self).power_state() == PowerState::Running,
            order@ == old(self).devices().reverse(),
            final(self).devices() == old(self).devices(),
            final(self).line() == old(self).line(),
            final(self).pending_lines() == old(self).pending_lines(),
            final(self).loop_state() == old(self).loop_state(),
            old(self).wf() ==> final(self).wf(),
    {
        self.coordinator.finish_resume()
    }

    /// Feed one decoded character into the assembler; a completed line is
    /// queued and one `DoCmd` event is requested for it.
    pub fn handle_key(&mut self, key: char) -> (r: Action)
        requires
            old(self).wf(),
        ensures
            final(self).wf(),
            key_steps(
                old(self).line(),
                old(self).pending_lines(),
                final(self).line(),
                final(self).pending_lines(),
                r,
                key,
            ),
            final(self).devices() == old(self).devices(),
            final(self).power_state() == old(self).power_state(),
            final(self).loop_state() == old(self).loop_state(),
    {
        let ghost pre_pending = self.pending_lines();
        match self.assembler.push_char(key) {
            Some(cmd) => {
                self.pending.push(cmd);
                proof {
                    assert(self.pending_lines() =~= pre_pending.push(
                        push_spec(old(self).line(), key).1->Some_0,
                    ));
                }
                Action::EnqueueDoCmd { count: 1 }
            },
            None => Action::Nothing,
        }
    }

    /// One character code arrived over the UART: decode it (delete becomes
    /// backspace, anything that is not a Unicode scalar value or is null is
    /// dropped) and feed it to the assembler.
    pub fn handle_uart_scalar(&mut self, code: usize) -> (r: Action)
        requires
            old(self).wf(),
        ensures
            final(self).wf(),
            !(scalar_ok(norm_code(code as int)) && norm_code(code as int) != 0) ==> {
                &&& r == Action::Nothing
                &&& final(self).line() == old(self).line()
                &&& final(self).pending_lines() == old(self).pending_lines()
            },
            (scalar_ok(norm_code(code as int)) && norm_code(code as int) != 0)
                ==> exists|c: char|
                {
                    &&& #[trigger] code_of(c) == norm_code(code as int)
                    &&& key_steps(
                        old(self).line(),
                        old(self).pending_lines(),
                        final(self).line(),
                        final(self).pending_lines(),
                        r,
                        c,
                    )
                },
            final(self).devices() == old(self).devices(),
            final(self).power_state() == old(self).power_state(),
            final(self).loop_state() == old(self).loop_state(),
    {
        match decode_scalar(code) {
            Some(key) => {
                let r = self.handle_key(key);
                proof {
                    assert(code_of(key) == norm_code(code as int));
                }
                r
            },
            None => Action::Nothing,
        }
    }

    /// A key-matrix scan tick resolved the characters `keys`: feed each
    /// through the assembler and request one `DoCmd` event per completed
    /// line.
    pub fn handle_matrix_keys(&mut self, keys: &Vec<char>) -> (r: Action)
        requires
            old(self).wf(),
        ensures
            final(self).wf(),
            final(self).line() == feed_spec(old(self).line(), keys@).0,
            final(self).pending_lines() == old(self).pending_lines() + feed_spec(
                old(self).line(),
                keys@,
            ).1,
            r matches Action::EnqueueDoCmd { count } && count == feed_spec(
                old(self).line(),
                keys@,
            ).1.len(),
            final(self).devices() == old(self).devices(),
            final(self).power_state() == old(self).power_state(),
            final(self).loop_state() == old(self).loop_state(),
    {
        let ghost line0 = self.line();
        let ghost pending0 = self.pending_lines();
        let n = keys.len();
        let mut j: usize = 0;
        let mut count: usize = 0;
        while j < n
            invariant
                self.wf(),
                n == keys@.len(),
                0 <= j <= n,
                count <= j,
                self.line() == feed_spec(line0, keys@.take(j as int)).0,
                self.pending_lines() == pending0 + feed_spec(line0, keys@.take(j as int)).1,
                count == feed_spec(line0, keys@.take(j as int)).1.len(),
                self.devices() == old(self).devices(),
                self.power_state() == old(self).power_state(),
                self.loop_state() == old(self).loop_state(),
            decreases n - j,
        {
            let ghost taken = keys@.take(j as int);
            let ghost pre = feed_spec(line0, taken);
            let key = keys[j];
            match self.assembler.push_char(key) {
                Some(cmd) => {
                    self.pending.push(cmd);
                    count = count + 1;
                    proof {
                        assert(self.pending_lines() =~= (pending0 + pre.1).push(
                            push_spec(pre.0, key).1->Some_0,
                        ));
                    }
                },
                None => {},
            }
            proof {
                assert(keys@.take(j as int + 1) =~= taken.push(keys@[j as int]));
                lemma_feed_spec_snoc(line0, taken, keys@[j as int]);
                match push_spec(pre.0, key).1 {
                    Some(cmd) => {
                        assert((pending0 + pre.1).push(cmd) =~= pending0 + pre.1.push(cmd));
                    },
                    None => {},
                }
            }
            j = j + 1;
        }
        proof {
            assert(keys@.take(n as int) =~= keys@);
        }
        Action::EnqueueDoCmd { count }
    }

    /// A self-directed `DoCmd` event: parse the oldest completed line (or
    /// the empty line, which is unrecognized, when none is queued) and hand
    /// the resulting command to the shell.
    pub fn handle_do_cmd(&mut self) -> (r: Action)
        requires
            old(self).wf(),
        ensures
            final(self).wf(),
            old(self).pending_lines().len() > 0 ==> {
                &&& r matches Action::Execute(a) && parses_to(old(self).pending_lines()[0], a)
                &&& final(self).pending_lines() == old(self).pending_lines().drop_first()
            },
            old(self).pending_lines().len() == 0 ==> {
                &&& r matches Action::Execute(a) && a == CommandAction::Unknown
                &&& final(self).pending_lines() == old(self).pending_lines()
            },
            final(self).line() == old(self).line(),
            final(self).devices() == old(self).devices(),
            final(self).power_state() == old(self).power_state(),
            final(self).loop_state() == old(self).loop_state(),
    {
        if self.pending.len() > 0 {
            let ghost pre = self.pending_lines();
            let line = self.pending.remove(0);
            proof {
                assert(self.pending_lines() =~= pre.drop_first());
            }
            Action::Execute(parse_command(&line))
        } else {
            let empty: Vec<char> = Vec::new();
            let a = parse_command(&empty);
            proof {
                crate::command::lemma_empty_line_unknown(empty@, a);
            }
            Action::Execute(a)
        }
    }

    /// Dispatch one inbound scalar event, as the serving loop does: `id` is
    /// the message identifier, `arg` its first word (the suspend token or
    /// the UART character code), and `matrix_keys` the characters the key
    /// matrix resolved when the event is a scan tick (empty otherwise).
    pub fn handle_event(&mut self, id: usize, arg: usize, matrix_keys: &Vec<char>) -> (r: Action)
        requires
            old(self).wf(),
            old(self).loop_state() == LoopState::Serving,
        ensures
            final(self).wf(),
            final(self).devices() == old(self).devices(),
            final(self).power_state() == old(self).power_state(),
            opcode_of(id as int) == Some(Opcode::Quit) ==> {
                &&& r == Action::Shutdown
                &&& final(self).loop_state() == LoopState::ShuttingDown
                &&& final(self).line() == old(self).line()
                &&& final(self).pending_lines() == old(self).pending_lines()
            },
            opcode_of(id as int) != Some(Opcode::Quit) ==> final(self).loop_state()
                == LoopState::Serving,
            opcode_of(id as int) is None ==> {
                &&& r == (Action::ReportUnknown { id })
                &&& final(self).line() == old(self).line()
                &&& final(self).pending_lines() == old(self).pending_lines()
            },
            opcode_of(id as int) == Some(Opcode::SuspendResume) ==> {
                &&& r == (Action::RunSuspendCycle { token: arg })
                &&& final(self).line() == old(self).line()
                &&& final(self).pending_lines() == old(self).pending_lines()
            },
            opcode_of(id as int) == Some(Opcode::DoCmd) ==> {
                &&& old(self).pending_lines().len() > 0 ==> {
                    &&& r matches Action::Execute(a) && parses_to(old(self).pending_lines()[0], a)
                    &&& final(self).pending_lines() == old(self).pending_lines().drop_first()
                }
                &&& old(self).pending_lines().len() == 0 ==> {
                    &&& r matches Action::Execute(a) && a == CommandAction::Unknown
                    &&& final(self).pending_lines() == old(self).pending_lines()
                }
                &&& final(self).line() == old(self).line()
            },
            opcode_of(id as int) == Some(Opcode::KeyboardChar) ==> {
                &&& !(scalar_ok(norm_code(arg as int)) && norm_code(arg as int) != 0) ==> {
                    &&& r == Action::Nothing
                    &&& final(self).line() == old(self).line()
                    &&& final(self).pending_lines() == old(self).pending_lines()
                }
                &&& (scalar_ok(norm_code(arg as int)) && norm_code(arg as int) != 0)
                    ==> exists|c: char|
                    {
                        &&& #[trigger] code_of(c) == norm_code(arg as int)
                        &&& key_steps(
                            old(self).line(),
                            old(self).pending_lines(),
                            final(self).line(),
                            final(self).pending_lines(),
                            r,
                            c,
                        )
                    }
            },
            opcode_of(id as int) == Some(Opcode::HandlerTrigger) ==> {
                &&& final(self).line() == feed_spec(old(self).line(), matrix_keys@).0
                &&& final(self).pending_lines() == old(self).pending_lines() + feed_spec(
                    old(self).line(),
                    matrix_keys@,
                ).1
                &&& r matches Action::EnqueueDoCmd { count } && count == feed_spec(
                    old(self).line(),
                    matrix_keys@,
                ).1.len()
            },
    {
        match opcode_from_id(id) {
            Some(Opcode::SuspendResume) => Action::RunSuspendCycle { token: arg },
            Some(Opcode::DoCmd) => self.handle_do_cmd(),
            Some(Opcode::KeyboardChar) => self.handle_uart_scalar(arg),
            Some(Opcode::HandlerTrigger) => self.handle_matrix_keys(matrix_keys),
            Some(Opcode::Quit) => {
                self.state = LoopState::ShuttingDown;
                Action::Shutdown
            },
            None => Action::ReportUnknown { id },
        }
    }

    /// The loop's lifecycle state, readable at run time.
    pub fn lifecycle(&self) -> (r: LoopState)
        ensures
            r == self.loop_state(),
    {
        self.state
    }

    /// Teardown is done: the shell unregistered the public name and
    /// released the event queue; the process is about to exit with success.
    pub fn finalize(&mut self)
        requires
            old(self).loop_state() == LoopState::ShuttingDown,
        ensures
            final(self).loop_state() == LoopState::Terminated,
            final(self).line() == old(self).line(),
            final(self).pending_lines() == old(self).pending_lines(),
            final(self).devices() == old(self).devices(),
            final(self).power_state() == old(self).power_state(),
            old(self).wf() ==> final(self).wf(),
    {
        self.state = LoopState::Terminated;
    }
}

} // verus!
