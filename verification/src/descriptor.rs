//! The descriptor-table subsystem: code/task segments and the exception
//! vector table, brought up in a strict order.  The double-fault handler
//! must run on a dedicated stack registered with the task segment, because
//! a double fault frequently means the normal stack is already exhausted.
//! Nothing that can fault may run before the subsystem is ready.

use vstd::prelude::*;

verus! {

/// Architectural vector number of the breakpoint exception.
pub const BREAKPOINT_VECTOR: u8 = 3;

/// Architectural vector number of the double-fault exception.
pub const DOUBLE_FAULT_VECTOR: u8 = 8;

/// Architectural vector number of the page-fault exception.
pub const PAGE_FAULT_VECTOR: u8 = 14;

/// Slot in the task segment's interrupt-stack table that holds the
/// dedicated double-fault stack.
pub const DOUBLE_FAULT_IST_INDEX: u8 = 0;

/// Bring-up stages, in order; transitions never go back.
#[derive(Clone, Copy, PartialEq, Eq, Structural, Debug)]
pub enum DtStage {
    Uninitialized,
    SegmentsLoaded,
    VectorsLoaded,
    Ready,
}

/// One installed exception handler: whether the fault is recoverable
/// (execution resumes afterwards) and the dedicated-stack slot it runs
/// on, if any.
#[derive(Clone, Copy, PartialEq, Eq, Structural, Debug)]
pub struct VectorEntry {
    pub installed: bool,
    pub recoverable: bool,
    pub stack_index: Option<u8>,
}

impl VectorEntry {
    /// An empty vector-table slot.
    pub open spec fn vacant() -> VectorEntry {
        VectorEntry { installed: false, recoverable: false, stack_index: None }
    }
}

/// The state of the descriptor-table subsystem: the bring-up stage, the
/// number of dedicated exception stacks the task segment provides, and
/// the three exception vectors the boot stage installs.
pub struct DescriptorTables {
    pub stage: DtStage,
    pub exception_stack_slots: u8,
    pub breakpoint: VectorEntry,
    pub double_fault: VectorEntry,
    pub page_fault: VectorEntry,
}

impl DescriptorTables {
    /// What each stage guarantees: segments bring at least one dedicated
    /// exception stack; loaded vectors mean all three handlers are in
    /// place, with the double-fault handler on the registered dedicated
    /// stack and only the breakpoint handler recoverable.
    pub open spec fn wf(self) -> bool {
        match self.stage {
            DtStage::Uninitialized => {
                &&& self.exception_stack_slots == 0
                &&& self.breakpoint == VectorEntry::vacant()
                &&& self.double_fault == VectorEntry::vacant()
                &&& self.page_fault == VectorEntry::vacant()
            },
            DtStage::SegmentsLoaded => {
                &&& self.exception_stack_slots > 0
                &&& self.breakpoint == VectorEntry::vacant()
                &&& self.double_fault == VectorEntry::vacant()
                &&& self.page_fault == VectorEntry::vacant()
            },
            DtStage::VectorsLoaded | DtStage::Ready => {
                &&& self.exception_stack_slots > 0
                &&& DOUBLE_FAULT_IST_INDEX < self.exception_stack_slots
                &&& self.breakpoint == (VectorEntry {
                    installed: true,
                    recoverable: true,
                    stack_index: None,
                })
                &&& self.double_fault == (VectorEntry {
                    installed: true,
                    recoverable: false,
                    stack_index: Some(DOUBLE_FAULT_IST_INDEX),
                })
                &&& self.page_fault == (VectorEntry {
                    installed: true,
                    recoverable: false,
                    stack_index: None,
                })
            },
        }
    }

    /// A fresh subsystem: nothing loaded, nothing installed.
    pub fn new() -> (r: DescriptorTables)
        ensures
            r.wf(),
            r.stage == DtStage::Uninitialized,
    {
        DescriptorTables {
            stage: DtStage::Uninitialized,
            exception_stack_slots: 0,
            breakpoint: VectorEntry { installed: false, recoverable: false, stack_index: None },
            double_fault: VectorEntry { installed: false, recoverable: false, stack_index: None },
            page_fault: VectorEntry { installed: false, recoverable: false, stack_index: None },
        }
    }
}

/// Loads the code and task segments, registering one dedicated exception
/// stack sized to survive a fault on an exhausted normal stack.  First
/// step of the bring-up; nothing may be loaded before it.
pub fn init_gdt(dt: &mut DescriptorTables)
    requires
        old(dt).wf(),
        old(dt).stage == DtStage::Uninitialized,
    ensures
        final(dt).wf(),
        final(dt).stage == DtStage::SegmentsLoaded,
        final(dt).exception_stack_slots == 1,
{
    dt.stage = DtStage::SegmentsLoaded;
    dt.exception_stack_slots = 1;
}

/// Installs the exception vector table: breakpoint (the only recoverable
/// vector), double fault on the dedicated stack registered by
/// [`init_gdt`], and page fault.  Requires the segments to be loaded
/// first — the double-fault entry refers to the task segment's stack
/// table.
pub fn init_idt(dt: &mut DescriptorTables)
    requires
        old(dt).wf(),
        old(dt).stage == DtStage::SegmentsLoaded,
    ensures
        final(dt).wf(),
        final(dt).stage == DtStage::VectorsLoaded,
        final(dt).exception_stack_slots == old(dt).exception_stack_slots,
        final(dt).breakpoint.installed && final(dt).breakpoint.recoverable,
        final(dt).double_fault.installed && !final(dt).double_fault.recoverable,
        final(dt).double_fault.stack_index == Some(DOUBLE_FAULT_IST_INDEX),
        final(dt).page_fault.installed && !final(dt).page_fault.recoverable,
{
    dt.breakpoint = VectorEntry { installed: true, recoverable: true, stack_index: None };
    dt.double_fault = VectorEntry {
        installed: true,
        recoverable: false,
        stack_index: Some(DOUBLE_FAULT_IST_INDEX),
    };
    dt.page_fault = VectorEntry { installed: true, recoverable: false, stack_index: None };
    dt.stage = DtStage::VectorsLoaded;
}

/// Marks the subsystem ready: from here on, faults are handled, and the
/// later boot steps that might fault are allowed to run.
pub fn mark_ready(dt: &mut DescriptorTables)
    requires
        old(dt).wf(),
        old(dt).stage == DtStage::VectorsLoaded,
    ensures
        final(dt).wf(),
        final(dt).stage == DtStage::Ready,
        final(dt).exception_stack_slots == old(dt).exception_stack_slots,
        final(dt).breakpoint == old(dt).breakpoint,
        final(dt).double_fault == old(dt).double_fault,
        final(dt).page_fault == old(dt).page_fault,
{
    dt.stage = DtStage::Ready;
}

} // verus!
