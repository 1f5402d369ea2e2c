//! The CPU control interface: configuration, reset, single-stepping and the
//! observable execution state.
//!
//! Decoding and executing instructions is the business of an injected
//! [`InstructionEngine`]; this module decides when the engine runs and folds
//! what it reports into the execution state.
use vstd::prelude::*;
use crate::bus::{BusView, ConfigurationError, MemoryBus, Rejected, opt_bytes, rom_fits};
use crate::memory::{MaskedStore, RwMemory};

verus! {

/// The lifecycle of a processor.
#[derive(Debug, Clone, Copy, PartialEq, Eq, Structural)]
pub enum Phase {
    /// No memory has been bound yet.
    Unconfigured,
    /// Memory is bound; the processor has not been reset since.
    Ready,
    /// Instructions execute on each step.
    Running,
    /// A halt was reached; steps do nothing until the next reset.
    Stopped,
}

/// A control operation was invoked before any memory was bound.
#[derive(Debug, Clone, Copy, PartialEq, Eq, Structural)]
pub enum ControlError {
    PreconditionViolation,
}

/// What the instruction engine reports after executing one instruction.
#[derive(Debug, Clone, Copy, PartialEq, Eq, Structural)]
pub struct StepOutcome {
    /// The program counter after the instruction.
    pub next_pc: u64,
    /// The instruction's cost in cycles.
    pub cycles: u32,
    /// Whether the instruction halted the machine.
    pub halted: bool,
}

/// The execution state owned by a processor.
#[derive(Debug, Clone, Copy, PartialEq, Eq, Structural)]
pub struct CpuState {
    pub program_counter: u64,
    /// Cycles executed since the last reset, wrapping on overflow.
    pub cycles: u32,
    pub phase: Phase,
    /// The trace flag handed to the engine at the last reset.
    pub trace_enabled: bool,
}

impl CpuState {
    pub open spec fn is_configured(self) -> bool {
        self.phase != Phase::Unconfigured
    }

    /// The state after memory is (re)bound.
    pub open spec fn with_memory(self) -> CpuState {
        CpuState { phase: Phase::Ready, ..self }
    }

    /// The state after a reset to `vector` with the given trace flag.
    pub open spec fn reset_to(self, vector: u64, trace: bool) -> CpuState {
        CpuState { program_counter: vector, cycles: 0, phase: Phase::Running, trace_enabled: trace }
    }

    /// The state after an executed instruction reported `o`.
    pub open spec fn stepped(self, o: StepOutcome) -> CpuState {
        CpuState {
            program_counter: o.next_pc,
            cycles: self.cycles.wrapping_add(o.cycles),
            phase: if o.halted {
                Phase::Stopped
            } else {
                Phase::Running
            },
            ..self
        }
    }

    /// The state of a processor that has never been configured.
    pub open spec fn power_on() -> CpuState {
        CpuState { program_counter: 0, cycles: 0, phase: Phase::Unconfigured, trace_enabled: false }
    }

    /// The state of a processor that has never been configured.
    pub fn unconfigured() -> (r: CpuState)
        ensures
            r == CpuState::power_on(),
    {
        CpuState { program_counter: 0, cycles: 0, phase: Phase::Unconfigured, trace_enabled: false }
    }

    /// The state after memory is (re)bound: ready, all else kept.
    pub fn configured(self) -> (r: CpuState)
        ensures
            r == self.with_memory(),
    {
        CpuState { phase: Phase::Ready, ..self }
    }

    /// The state after a reset to `vector`: running from it, no cycles counted.
    pub fn after_reset(self, vector: u64, trace: bool) -> (r: CpuState)
        ensures
            r == self.reset_to(vector, trace),
    {
        CpuState { program_counter: vector, cycles: 0, phase: Phase::Running, trace_enabled: trace }
    }

    /// Folds one executed instruction into the state.
    pub fn after_step(self, o: StepOutcome) -> (r: CpuState)
        ensures
            r == self.stepped(o),
    {
        CpuState {
            program_counter: o.next_pc,
            cycles: self.cycles.wrapping_add(o.cycles),
            phase: if o.halted {
                Phase::Stopped
            } else {
                Phase::Running
            },
            trace_enabled: self.trace_enabled,
        }
    }

    /// Whether a halt has been reached since the last reset.
    pub fn is_stopped(&self) -> (r: bool)
        ensures
            r == (self.phase == Phase::Stopped),
    {
        match self.phase {
            Phase::Stopped => true,
            _ => false,
        }
    }
}

/// The instruction decode/execute engine driven by a processor over memory `M`.
///
/// The engine is generic over the memory it is handed: it reaches memory only
/// through [`RwMemory`] accesses, and cannot replace the bound backend.
pub trait InstructionEngine {
    /// Prepares the engine for a fresh run, with per-step tracing on or off,
    /// and returns the reset vector (the first program counter).
    fn reset<M: RwMemory>(&mut self, memory: &mut M, trace: bool) -> u64;

    /// Executes the instruction at `pc`, accessing memory as it needs.
    fn execute<M: RwMemory>(&mut self, memory: &mut M, pc: u64) -> StepOutcome;
}

/// A processor: bound memory, an instruction engine, and the execution state.
pub struct Processor65x64<M, E> {
    memory: Option<M>,
    engine: E,
    state: CpuState,
}

impl<M, E> Processor65x64<M, E> {
    /// The phase as seen from outside: `Unconfigured` exactly when no memory is bound.
    closed spec fn phase_spec(&self) -> Phase {
        if self.memory is None {
            Phase::Unconfigured
        } else if self.state.phase == Phase::Unconfigured {
            Phase::Ready
        } else {
            self.state.phase
        }
    }
}

impl<M, E> View for Processor65x64<M, E> {
    type V = CpuState;

    closed spec fn view(&self) -> CpuState {
        CpuState { phase: self.phase_spec(), ..self.state }
    }
}

impl<M: RwMemory, E: InstructionEngine> Processor65x64<M, E> {
    pub closed spec fn memory_spec(&self) -> Option<M> {
        self.memory
    }

    /// A processor with no memory bound yet.
    pub fn new(engine: E) -> (r: Self)
        ensures
            r@ == CpuState::power_on(),
            r.memory_spec() is None,
    {
        Processor65x64 { memory: None, engine, state: CpuState::unconfigured() }
    }

    /// Binds `memory`, replacing any earlier binding; the processor becomes ready.
    pub fn attach_memory(&mut self, memory: M)
        ensures
            final(self)@ == old(self)@.with_memory(),
            final(self).memory_spec() == Some(memory),
    {
        self.memory = Some(memory);
        self.state = self.state.configured();
    }

    /// Resets to the engine's reset vector: cycles to zero, running, with the
    /// given trace flag. Fails if no memory is bound.
    pub fn reset(&mut self, trace: bool) -> (r: Result<(), ControlError>)
        ensures
            r is Ok <==> old(self)@.is_configured(),
            r is Err ==> *final(self) == *old(self),
            r is Ok ==> exists|v: u64| final(self)@ == old(self)@.reset_to(v, trace),
            r is Ok ==> final(self)@.cycles == 0 && final(self)@.phase == Phase::Running,
    {
        match &mut self.memory {
            None => Err(ControlError::PreconditionViolation),
            Some(m) => {
                let vector = self.engine.reset(m, trace);
                self.state = self.state.after_reset(vector, trace);
                assert(self.memory is Some);
                assert(self@ == old(self)@.reset_to(vector, trace));
                Ok(())
            },
        }
    }

    /// Executes one instruction, unless the machine is stopped, in which case
    /// nothing changes. Fails if no memory is bound.
    pub fn step(&mut self) -> (r: Result<(), ControlError>)
        ensures
            r is Ok <==> old(self)@.is_configured(),
            r is Err ==> *final(self) == *old(self),
            old(self)@.phase == Phase::Stopped ==> *final(self) == *old(self),
            r is Ok && old(self)@.phase != Phase::Stopped ==> exists|o: StepOutcome|
                final(self)@ == old(self)@.stepped(o),
    {
        let stopped = self.is_stopped();
        match &mut self.memory {
            None => Err(ControlError::PreconditionViolation),
            Some(m) => {
                if stopped {
                    return Ok(());
                }
                let outcome = self.engine.execute(m, self.state.program_counter);
                self.state = self.state.after_step(outcome);
                assert(self.memory is Some);
                assert(self@ == old(self)@.stepped(outcome));
                Ok(())
            },
        }
    }

    /// Overrides the program counter; all else is kept. Fails if no memory is bound.
    pub fn set_pc(&mut self, value: u64) -> (r: Result<(), ControlError>)
        ensures
            r is Ok <==> old(self)@.is_configured(),
            r is Err ==> *final(self) == *old(self),
            r is Ok ==> final(self)@ == (CpuState { program_counter: value, ..old(self)@ }),
            final(self).memory_spec() == old(self).memory_spec(),
    {
        if self.memory.is_none() {
            return Err(ControlError::PreconditionViolation);
        }
        self.state.program_counter = value;
        Ok(())
    }

    /// Cycles executed since the last reset.
    pub fn get_cycles(&self) -> (r: u32)
        ensures
            r == self@.cycles,
    {
        self.state.cycles
    }

    /// Whether a halt has been reached since the last reset.
    pub fn is_stopped(&self) -> (r: bool)
        ensures
            r == (self@.phase == Phase::Stopped),
    {
        match self.phase() {
            Phase::Stopped => true,
            _ => false,
        }
    }

    /// The current program counter.
    pub fn get_pc(&self) -> (r: u64)
        ensures
            r == self@.program_counter,
    {
        self.state.program_counter
    }

    /// The whole execution state.
    pub fn state(&self) -> (r: CpuState)
        ensures
            r == self@,
    {
        CpuState { phase: self.phase(), ..self.state }
    }

    /// The phase of the lifecycle.
    pub fn phase(&self) -> (r: Phase)
        ensures
            r == self@.phase,
    {
        if self.memory.is_none() {
            Phase::Unconfigured
        } else {
            match self.state.phase {
                Phase::Unconfigured => Phase::Ready,
                p => p,
            }
        }
    }

    /// Unbinds the memory and hands it back; the processor is unconfigured
    /// again, its other state kept.
    pub fn detach_memory(&mut self) -> (r: Option<M>)
        ensures
            r == old(self).memory_spec(),
            final(self).memory_spec() is None,
            final(self)@ == (CpuState { phase: Phase::Unconfigured, ..old(self)@ }),
    {
        let mut memory: Option<M> = None;
        std::mem::swap(&mut memory, &mut self.memory);
        self.state.phase = Phase::Unconfigured;
        memory
    }

    /// The bound memory, if any.
    pub fn memory(&self) -> (r: Option<&M>)
        ensures
            r is Some <==> self.memory_spec() is Some,
            r matches Some(m) ==> self.memory_spec() == Some(*m),
    {
        self.memory.as_ref()
    }

    /// The bound memory, for the host to inspect or stage between steps.
    pub fn memory_mut(&mut self) -> (r: &mut M)
        requires
            old(self)@.is_configured(),
        ensures
            *r == old(self).memory_spec()->0,
            final(self).memory_spec() == Some(*final(r)),
            final(self)@ == old(self)@,
    {
        self.memory.as_mut().unwrap()
    }
}

impl<E: InstructionEngine> Processor65x64<MemoryBus, E> {
    /// Binds a read-only memory: no RAM, and `rom` (if any) mapped from
    /// `ram_size` up. On error nothing changes and the ROM is handed back.
    pub fn set_memory(&mut self, mem_mask: u64, ram_size: u64, rom: Option<Vec<u8>>) -> (r: Result<
        (),
        Rejected,
    >)
        ensures
            r is Ok <==> rom_fits(ram_size, rom),
            r matches Err(e) ==> e.error == (ConfigurationError::RomOutOfRange {
                ram_size,
                rom_len: rom->0.len(),
            }) && e.ram is None && opt_bytes(e.rom) == opt_bytes(rom),
            r is Err ==> *final(self) == *old(self),
            r is Ok ==> final(self)@ == old(self)@.with_memory(),
            r is Ok ==> final(self).memory_spec() is Some,
            r is Ok ==> final(self).memory_spec()->0@ == (BusView {
                mem_mask,
                ram_size,
                ram: None,
                rom: opt_bytes(rom),
            }),
    {
        match MemoryBus::read_only(mem_mask, ram_size, rom) {
            Ok(bus) => {
                self.attach_memory(bus);
                Ok(())
            },
            Err(e) => Err(e),
        }
    }

    /// Binds `ram_size` bytes of `ram` as read/write RAM with `rom` (if any)
    /// mapped directly above it. On error nothing changes and the buffers are
    /// handed back.
    pub fn set_memory_ram(
        &mut self,
        mem_mask: u64,
        ram_size: u64,
        ram: Vec<u8>,
        rom: Option<Vec<u8>>,
    ) -> (r: Result<(), Rejected>)
        ensures
            r is Ok <==> ram_size <= ram.len() && rom_fits(ram_size, rom),
            r is Err ==> *final(self) == *old(self),
            r is Err ==> opt_bytes(r->Err_0.ram) == Some(ram@),
            r is Err ==> opt_bytes(r->Err_0.rom) == opt_bytes(rom),
            ram.len() < ram_size ==> r is Err,
            ram.len() < ram_size ==> r->Err_0.error == (ConfigurationError::RamTooSmall {
                ram_size,
                ram_len: ram.len(),
            }),
            ram_size <= ram.len() && !rom_fits(ram_size, rom) ==> r is Err,
            ram_size <= ram.len() && !rom_fits(ram_size, rom) ==> r->Err_0.error == (
            ConfigurationError::RomOutOfRange { ram_size, rom_len: rom->0.len() }),
            r is Ok ==> final(self)@ == old(self)@.with_memory(),
            r is Ok ==> final(self).memory_spec() is Some,
            r is Ok ==> final(self).memory_spec()->0@ == (BusView {
                mem_mask,
                ram_size,
                ram: Some(ram@),
                rom: opt_bytes(rom),
            }),
    {
        match MemoryBus::with_ram(mem_mask, ram_size, ram, rom) {
            Ok(bus) => {
                self.attach_memory(bus);
                Ok(())
            },
            Err(e) => Err(e),
        }
    }
}

impl<S: RwMemory, E: InstructionEngine> Processor65x64<MaskedStore<S>, E> {
    /// Binds storage owned by the host, reached through `mem_mask`.
    pub fn set_memory_store(&mut self, mem_mask: u64, store: S)
        ensures
            final(self)@ == old(self)@.with_memory(),
            final(self).memory_spec() is Some,
            final(self).memory_spec()->0.mem_mask() == mem_mask,
            final(self).memory_spec()->0.store() == store,
    {
        self.attach_memory(MaskedStore::new(mem_mask, store));
    }
}

} // verus!
