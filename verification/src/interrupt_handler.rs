//! Exceptions and interrupts of the guest: a vector table from exception
//! types to handler addresses, a controller of pending interrupts, and the
//! manager that combines them.

use vstd::prelude::*;
use crate::error::VmError;
use crate::ir::{GuestAddr, GuestArch};
use crate::keyed::{get, has_key, lemma_pos, lemma_put, put, unique};
use crate::text::{dec, push_text, push_u64, text};

verus! {

/// Kinds of synchronous exceptions.
#[derive(Debug, Clone, Copy, PartialEq, Eq, Structural, Hash)]
pub enum ExceptionType {
    InstructionAccessFault,
    LoadAccessFault,
    StoreAccessFault,
    InstructionAddressMisaligned,
    LoadAddressMisaligned,
    StoreAddressMisaligned,
    IllegalInstruction,
    Breakpoint,
    EnvironmentCall,
    InstructionPageFault,
    LoadPageFault,
    StorePageFault,
    Other(u32),
}

/// Kinds of asynchronous interrupts.
#[derive(Debug, Clone, Copy, PartialEq, Eq, Structural, Hash)]
pub enum InterruptType {
    Software(u32),
    Timer,
    External(u32),
    Other(u32),
}

/// The `Debug` text of an exception type.
pub open spec fn exception_text(e: ExceptionType) -> Seq<char> {
    match e {
        ExceptionType::InstructionAccessFault => "InstructionAccessFault"@,
        ExceptionType::LoadAccessFault => "LoadAccessFault"@,
        ExceptionType::StoreAccessFault => "StoreAccessFault"@,
        ExceptionType::InstructionAddressMisaligned => "InstructionAddressMisaligned"@,
        ExceptionType::LoadAddressMisaligned => "LoadAddressMisaligned"@,
        ExceptionType::StoreAddressMisaligned => "StoreAddressMisaligned"@,
        ExceptionType::IllegalInstruction => "IllegalInstruction"@,
        ExceptionType::Breakpoint => "Breakpoint"@,
        ExceptionType::EnvironmentCall => "EnvironmentCall"@,
        ExceptionType::InstructionPageFault => "InstructionPageFault"@,
        ExceptionType::LoadPageFault => "LoadPageFault"@,
        ExceptionType::StorePageFault => "StorePageFault"@,
        ExceptionType::Other(c) => "Other("@ + dec(c as nat) + ")"@,
    }
}

/// Appends the `Debug` text of an exception type.
pub fn push_exception_text(s: &mut String, e: ExceptionType)
    ensures
        final(s)@ == old(s)@ + exception_text(e),
{
    match e {
        ExceptionType::InstructionAccessFault => push_text(s, "InstructionAccessFault"),
        ExceptionType::LoadAccessFault => push_text(s, "LoadAccessFault"),
        ExceptionType::StoreAccessFault => push_text(s, "StoreAccessFault"),
        ExceptionType::InstructionAddressMisaligned => push_text(s, "InstructionAddressMisaligned"),
        ExceptionType::LoadAddressMisaligned => push_text(s, "LoadAddressMisaligned"),
        ExceptionType::StoreAddressMisaligned => push_text(s, "StoreAddressMisaligned"),
        ExceptionType::IllegalInstruction => push_text(s, "IllegalInstruction"),
        ExceptionType::Breakpoint => push_text(s, "Breakpoint"),
        ExceptionType::EnvironmentCall => push_text(s, "EnvironmentCall"),
        ExceptionType::InstructionPageFault => push_text(s, "InstructionPageFault"),
        ExceptionType::LoadPageFault => push_text(s, "LoadPageFault"),
        ExceptionType::StorePageFault => push_text(s, "StorePageFault"),
        ExceptionType::Other(c) => {
            push_text(s, "Other(");
            push_u64(s, c as u64);
            push_text(s, ")");
            assert(final(s)@ =~= old(s)@ + exception_text(e));
        },
    }
}

/// The state of the machine when an exception was raised.
#[derive(Debug, Clone, Copy)]
pub struct ExceptionContext {
    pub exception_type: ExceptionType,
    pub fault_addr: GuestAddr,
    pub fault_value: u64,
    pub instruction_addr: GuestAddr,
    pub cause_code: u32,
}

/// Handler addresses per exception type, with an optional default.
pub struct ExceptionVectorTable {
    handlers: Vec<(ExceptionType, GuestAddr)>,
    default_handler: Option<GuestAddr>,
}

pub struct VectorView {
    pub handlers: Seq<(ExceptionType, GuestAddr)>,
    pub default_handler: Option<GuestAddr>,
}

impl View for ExceptionVectorTable {
    type V = VectorView;

    closed spec fn view(&self) -> VectorView {
        VectorView { handlers: self.handlers@, default_handler: self.default_handler }
    }
}

/// The handler of `e`: its own, or else the default.
pub open spec fn handler_of(t: VectorView, e: ExceptionType) -> Option<GuestAddr> {
    match get(t.handlers, e) {
        Some(a) => Some(a),
        None => t.default_handler,
    }
}

impl ExceptionVectorTable {
    pub open spec fn wf(&self) -> bool {
        unique(self@.handlers)
    }

    pub fn new() -> (t: Self)
        ensures
            t.wf(),
            t@ == (VectorView { handlers: Seq::empty(), default_handler: None }),
    {
        let t = ExceptionVectorTable { handlers: Vec::new(), default_handler: None };
        assert(t@.handlers =~= Seq::<(ExceptionType, GuestAddr)>::empty());
        t
    }

    /// Sets the handler of `exception_type`, replacing any earlier one.
    pub fn register_handler(&mut self, exception_type: ExceptionType, handler_addr: GuestAddr)
        requires
            old(self).wf(),
        ensures
            final(self).wf(),
            final(self)@ == (VectorView { handlers: put(old(self)@.handlers, exception_type, handler_addr), ..old(self)@ }),
    {
        let ghost h = self.handlers@;
        proof {
            lemma_put(h, exception_type, handler_addr);
        }
        let mut i: usize = 0;
        while i < self.handlers.len()
            invariant
                self.handlers@ == h,
                self.default_handler == old(self).default_handler,
                h == old(self)@.handlers,
                unique(h),
                i <= h.len(),
                forall|j: int| 0 <= j < i ==> (#[trigger] h[j]).0 != exception_type,
            decreases self.handlers.len() - i,
        {
            if self.handlers[i].0 == exception_type {
                proof {
                    lemma_pos(h, i as int);
                }
                self.handlers.set(i, (exception_type, handler_addr));
                assert(self.handlers@ =~= put(h, exception_type, handler_addr));
                return;
            }
            i += 1;
        }
        self.handlers.push((exception_type, handler_addr));
        assert(self.handlers@ =~= put(h, exception_type, handler_addr));
    }

    pub fn set_default_handler(&mut self, handler_addr: GuestAddr)
        ensures
            final(self)@ == (VectorView { default_handler: Some(handler_addr), ..old(self)@ }),
    {
        self.default_handler = Some(handler_addr);
    }

    /// The handler of `exception_type` (see `handler_of`).
    pub fn get_handler(&self, exception_type: &ExceptionType) -> (r: Option<GuestAddr>)
        requires
            self.wf(),
        ensures
            r == handler_of(self@, *exception_type),
    {
        let mut i: usize = 0;
        while i < self.handlers.len()
            invariant
                unique(self@.handlers),
                i <= self@.handlers.len(),
                forall|j: int| 0 <= j < i ==> (#[trigger] self@.handlers[j]).0 != *exception_type,
            decreases self.handlers.len() - i,
        {
            if self.handlers[i].0 == *exception_type {
                proof {
                    lemma_pos(self@.handlers, i as int);
                }
                return Some(self.handlers[i].1);
            }
            i += 1;
        }
        self.default_handler
    }
}

impl Default for ExceptionVectorTable {
    fn default() -> (t: Self)
        ensures
            t.wf(),
            t@ == (VectorView { handlers: Seq::empty(), default_handler: None }),
    {
        Self::new()
    }
}

/// Pending interrupts, a queue: taken in the order they were raised.
pub struct InterruptController {
    pending_interrupts: Vec<InterruptType>,
    interrupts_enabled: bool,
    interrupt_mask: u64,
}

pub struct ControllerView {
    pub pending: Seq<InterruptType>,
    pub enabled: bool,
    pub mask: u64,
}

impl View for InterruptController {
    type V = ControllerView;

    closed spec fn view(&self) -> ControllerView {
        ControllerView { pending: self.pending_interrupts@, enabled: self.interrupts_enabled, mask: self.interrupt_mask }
    }
}

impl InterruptController {
    pub fn new() -> (c: Self)
        ensures
            c@ == (ControllerView { pending: Seq::empty(), enabled: true, mask: 0 }),
    {
        InterruptController { pending_interrupts: Vec::new(), interrupts_enabled: true, interrupt_mask: 0 }
    }

    /// Queues an interrupt while interrupts are enabled; ignores it otherwise.
    pub fn inject_interrupt(&mut self, interrupt: InterruptType)
        ensures
            final(self)@ == if old(self)@.enabled {
                ControllerView { pending: old(self)@.pending.push(interrupt), ..old(self)@ }
            } else {
                old(self)@
            },
    {
        if self.interrupts_enabled {
            self.pending_interrupts.push(interrupt);
        }
    }

    /// Takes the interrupt queued first.
    pub fn pop_interrupt(&mut self) -> (r: Option<InterruptType>)
        ensures
            old(self)@.pending.len() == 0 ==> r is None && final(self)@ == old(self)@,
            old(self)@.pending.len() > 0 ==> r == Some(old(self)@.pending[0]) && final(self)@ == (ControllerView {
                pending: old(self)@.pending.drop_first(),
                ..old(self)@
            }),
    {
        if self.pending_interrupts.len() == 0 {
            None
        } else {
            Some(self.pending_interrupts.remove(0))
        }
    }

    pub fn enable_interrupts(&mut self)
        ensures
            final(self)@ == (ControllerView { enabled: true, ..old(self)@ }),
    {
        self.interrupts_enabled = true;
    }

    pub fn disable_interrupts(&mut self)
        ensures
            final(self)@ == (ControllerView { enabled: false, ..old(self)@ }),
    {
        self.interrupts_enabled = false;
    }

    pub fn has_pending_interrupts(&self) -> (b: bool)
        ensures
            b == (self@.pending.len() > 0),
    {
        self.pending_interrupts.len() != 0
    }
}

impl Default for InterruptController {
    fn default() -> (c: Self)
        ensures
            c@ == (ControllerView { pending: Seq::empty(), enabled: true, mask: 0 }),
    {
        Self::new()
    }
}

/// `e` is the error for an exception type without any handler.
pub open spec fn is_no_handler_error(e: VmError, t: ExceptionType) -> bool {
    e matches VmError::InvalidState { message, current, expected } && message@ == "No handler for exception "@
        + exception_text(t) && current@ == "Exception handling"@ && expected@ == "Registered handler"@
}

/// Dispatches exceptions through a vector table.
pub struct ExceptionHandler {
    pub vector_table: ExceptionVectorTable,
    pub arch: GuestArch,
}

/// Handler address that every table starts with as its default.
pub const DEFAULT_HANDLER: GuestAddr = 0x1000;

impl ExceptionHandler {
    /// A handler whose table sends every exception to `DEFAULT_HANDLER`.
    pub fn new(arch: GuestArch) -> (h: Self)
        ensures
            h.vector_table.wf(),
            h.arch == arch,
            h.vector_table@ == (VectorView { handlers: Seq::empty(), default_handler: Some(DEFAULT_HANDLER) }),
    {
        let mut h = ExceptionHandler { vector_table: ExceptionVectorTable::new(), arch };
        h.init_default_handlers();
        h
    }

    fn init_default_handlers(&mut self)
        ensures
            final(self).arch == old(self).arch,
            final(self).vector_table@ == (VectorView { default_handler: Some(DEFAULT_HANDLER), ..old(self).vector_table@ }),
    {
        self.vector_table.set_default_handler(DEFAULT_HANDLER);
    }

    /// The handler address for the exception, or an `InvalidState` error
    /// when the table has none.
    pub fn handle_exception(&self, exception: ExceptionContext) -> (r: Result<GuestAddr, VmError>)
        requires
            self.vector_table.wf(),
        ensures
            match handler_of(self.vector_table@, exception.exception_type) {
                Some(a) => r == Ok::<GuestAddr, VmError>(a),
                None => r is Err && is_no_handler_error(r->Err_0, exception.exception_type),
            },
    {
        match self.vector_table.get_handler(&exception.exception_type) {
            Some(a) => Ok(a),
            None => {
                let mut message = text("No handler for exception ");
                push_exception_text(&mut message, exception.exception_type);
                Err(
                    VmError::InvalidState {
                        message,
                        current: text("Exception handling"),
                        expected: text("Registered handler"),
                    },
                )
            },
        }
    }

    pub fn register_handler(&mut self, exception_type: ExceptionType, handler_addr: GuestAddr)
        requires
            old(self).vector_table.wf(),
        ensures
            final(self).vector_table.wf(),
            final(self).arch == old(self).arch,
            final(self).vector_table@ == (VectorView {
                handlers: put(old(self).vector_table@.handlers, exception_type, handler_addr),
                ..old(self).vector_table@
            }),
    {
        self.vector_table.register_handler(exception_type, handler_addr);
    }
}

/// Exceptions and interrupts of one guest.
pub struct CrossArchInterruptManager {
    pub exception_handler: ExceptionHandler,
    pub interrupt_controller: InterruptController,
    pub guest_arch: GuestArch,
}

impl CrossArchInterruptManager {
    pub fn new(guest_arch: GuestArch) -> (m: Self)
        ensures
            m.exception_handler.vector_table.wf(),
            m.exception_handler.vector_table@ == (VectorView { handlers: Seq::empty(), default_handler: Some(DEFAULT_HANDLER) }),
            m.interrupt_controller@ == (ControllerView { pending: Seq::empty(), enabled: true, mask: 0 }),
            m.guest_arch == guest_arch,
    {
        CrossArchInterruptManager {
            exception_handler: ExceptionHandler::new(guest_arch),
            interrupt_controller: InterruptController::new(),
            guest_arch,
        }
    }

    pub fn handle_exception(&self, exception: ExceptionContext) -> (r: Result<GuestAddr, VmError>)
        requires
            self.exception_handler.vector_table.wf(),
        ensures
            match handler_of(self.exception_handler.vector_table@, exception.exception_type) {
                Some(a) => r == Ok::<GuestAddr, VmError>(a),
                None => r is Err && is_no_handler_error(r->Err_0, exception.exception_type),
            },
    {
        self.exception_handler.handle_exception(exception)
    }

    pub fn inject_interrupt(&mut self, interrupt: InterruptType)
        ensures
            final(self).exception_handler == old(self).exception_handler,
            final(self).guest_arch == old(self).guest_arch,
            final(self).interrupt_controller@ == if old(self).interrupt_controller@.enabled {
                ControllerView {
                    pending: old(self).interrupt_controller@.pending.push(interrupt),
                    ..old(self).interrupt_controller@
                }
            } else {
                old(self).interrupt_controller@
            },
    {
        self.interrupt_controller.inject_interrupt(interrupt);
    }

    /// Takes every pending interrupt, in the order they were raised, and
    /// leaves none.
    pub fn process_pending_interrupts(&mut self) -> (v: Vec<InterruptType>)
        ensures
            final(self).exception_handler == old(self).exception_handler,
            final(self).guest_arch == old(self).guest_arch,
            final(self).interrupt_controller@ == (ControllerView {
                pending: Seq::empty(),
                ..old(self).interrupt_controller@
            }),
            v@ == old(self).interrupt_controller@.pending,
    {
        let ghost p = self.interrupt_controller@.pending;
        let mut interrupts: Vec<InterruptType> = Vec::new();
        assert(p.subrange(0, p.len() as int) =~= p);
        while self.interrupt_controller.has_pending_interrupts()
            invariant
                self.exception_handler == old(self).exception_handler,
                self.guest_arch == old(self).guest_arch,
                p == old(self).interrupt_controller@.pending,
                interrupts@.len() <= p.len(),
                self.interrupt_controller@ == (ControllerView {
                    pending: p.subrange(interrupts@.len() as int, p.len() as int),
                    ..old(self).interrupt_controller@
                }),
                interrupts@ == p.subrange(0, interrupts@.len() as int),
            decreases p.len() - interrupts@.len(),
        {
            let ghost n = interrupts@.len();
            let i = self.interrupt_controller.pop_interrupt().unwrap();
            interrupts.push(i);
            assert(p.subrange(n as int, p.len() as int).drop_first() =~= p.subrange(n as int + 1, p.len() as int));
            assert(interrupts@ =~= p.subrange(0, n as int + 1));
        }
        assert(self.interrupt_controller@.pending =~= Seq::<InterruptType>::empty());
        assert(interrupts@ =~= p);
        interrupts
    }

    pub fn enable_interrupts(&mut self)
        ensures
            final(self).exception_handler == old(self).exception_handler,
            final(self).interrupt_controller@ == (ControllerView { enabled: true, ..old(self).interrupt_controller@ }),
    {
        self.interrupt_controller.enable_interrupts();
    }

    pub fn disable_interrupts(&mut self)
        ensures
            final(self).exception_handler == old(self).exception_handler,
            final(self).interrupt_controller@ == (ControllerView { enabled: false, ..old(self).interrupt_controller@ }),
    {
        self.interrupt_controller.disable_interrupts();
    }

    pub fn register_exception_handler(&mut self, exception_type: ExceptionType, handler_addr: GuestAddr)
        requires
            old(self).exception_handler.vector_table.wf(),
        ensures
            final(self).exception_handler.vector_table.wf(),
            final(self).interrupt_controller == old(self).interrupt_controller,
            final(self).exception_handler.vector_table@ == (VectorView {
                handlers: put(old(self).exception_handler.vector_table@.handlers, exception_type, handler_addr),
                ..old(self).exception_handler.vector_table@
            }),
    {
        self.exception_handler.register_handler(exception_type, handler_addr);
    }
}

/// A registered handler is the one dispatched to, and other exception types
/// keep theirs.
pub proof fn lemma_register_then_dispatch(t: VectorView, e: ExceptionType, a: GuestAddr, e2: ExceptionType)
    requires
        unique(t.handlers),
    ensures
        handler_of(VectorView { handlers: put(t.handlers, e, a), ..t }, e) == Some(a),
        e2 != e ==> handler_of(VectorView { handlers: put(t.handlers, e, a), ..t }, e2) == handler_of(t, e2),
{
    lemma_put(t.handlers, e, a);
}

/// A table with a default handler dispatches every exception type.
pub proof fn lemma_default_always_dispatches(t: VectorView, e: ExceptionType)
    requires
        t.default_handler is Some,
    ensures
        handler_of(t, e) is Some,
{
}

} // verus!
