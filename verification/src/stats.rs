//! Interrupt and exception counters. Each counter wraps around, as an atomic add does.

use vstd::prelude::*;

verus! {

/// Interrupt counts.
pub struct IrqStats {
    pub timer: u64,
    pub keyboard: u64,
    pub total: u64,
}

impl IrqStats {
    /// All counts zero.
    pub fn new() -> (s: IrqStats)
        ensures
            s.timer == 0 && s.keyboard == 0 && s.total == 0,
    {
        IrqStats { timer: 0, keyboard: 0, total: 0 }
    }

    /// Count a timer interrupt.
    pub fn record_timer(&mut self)
        ensures
            final(self).timer == old(self).timer.wrapping_add(1),
            final(self).keyboard == old(self).keyboard,
            final(self).total == old(self).total.wrapping_add(1),
    {
        self.timer = self.timer.wrapping_add(1);
        self.total = self.total.wrapping_add(1);
    }

    /// Count a keyboard interrupt.
    pub fn record_keyboard(&mut self)
        ensures
            final(self).timer == old(self).timer,
            final(self).keyboard == old(self).keyboard.wrapping_add(1),
            final(self).total == old(self).total.wrapping_add(1),
    {
        self.keyboard = self.keyboard.wrapping_add(1);
        self.total = self.total.wrapping_add(1);
    }

    /// Timer interrupts counted.
    pub fn get_timer(&self) -> (n: u64)
        ensures
            n == self.timer,
    {
        self.timer
    }

    /// Keyboard interrupts counted.
    pub fn get_keyboard(&self) -> (n: u64)
        ensures
            n == self.keyboard,
    {
        self.keyboard
    }

    /// All interrupts counted.
    pub fn get_total(&self) -> (n: u64)
        ensures
            n == self.total,
    {
        self.total
    }
}

/// Exception counts.
pub struct ExceptionStats {
    pub divide_error: u64,
    pub page_fault: u64,
    pub general_protection: u64,
    pub total: u64,
}

impl ExceptionStats {
    /// All counts zero.
    pub fn new() -> (s: ExceptionStats)
        ensures
            s.divide_error == 0 && s.page_fault == 0 && s.general_protection == 0 && s.total == 0,
    {
        ExceptionStats { divide_error: 0, page_fault: 0, general_protection: 0, total: 0 }
    }

    /// Count a divide error.
    pub fn record_divide_error(&mut self)
        ensures
            final(self).divide_error == old(self).divide_error.wrapping_add(1),
            final(self).page_fault == old(self).page_fault,
            final(self).general_protection == old(self).general_protection,
            final(self).total == old(self).total.wrapping_add(1),
    {
        self.divide_error = self.divide_error.wrapping_add(1);
        self.total = self.total.wrapping_add(1);
    }

    /// Count a page fault.
    pub fn record_page_fault(&mut self)
        ensures
            final(self).divide_error == old(self).divide_error,
            final(self).page_fault == old(self).page_fault.wrapping_add(1),
            final(self).general_protection == old(self).general_protection,
            final(self).total == old(self).total.wrapping_add(1),
    {
        self.page_fault = self.page_fault.wrapping_add(1);
        self.total = self.total.wrapping_add(1);
    }

    /// Count a general protection fault.
    pub fn record_general_protection(&mut self)
        ensures
            final(self).divide_error == old(self).divide_error,
            final(self).page_fault == old(self).page_fault,
            final(self).general_protection == old(self).general_protection.wrapping_add(1),
            final(self).total == old(self).total.wrapping_add(1),
    {
        self.general_protection = self.general_protection.wrapping_add(1);
        self.total = self.total.wrapping_add(1);
    }

    /// Count any other exception.
    pub fn record_other(&mut self)
        ensures
            final(self).divide_error == old(self).divide_error,
            final(self).page_fault == old(self).page_fault,
            final(self).general_protection == old(self).general_protection,
            final(self).total == old(self).total.wrapping_add(1),
    {
        self.total = self.total.wrapping_add(1);
    }

    /// Divide errors counted.
    pub fn get_divide_error(&self) -> (n: u64)
        ensures
            n == self.divide_error,
    {
        self.divide_error
    }

    /// Page faults counted.
    pub fn get_page_fault(&self) -> (n: u64)
        ensures
            n == self.page_fault,
    {
        self.page_fault
    }

    /// General protection faults counted.
    pub fn get_general_protection(&self) -> (n: u64)
        ensures
            n == self.general_protection,
    {
        self.general_protection
    }

    /// All exceptions counted.
    pub fn get_total(&self) -> (n: u64)
        ensures
            n == self.total,
    {
        self.total
    }
}

/// While no counter has wrapped, the total of interrupts is the sum of the timer and
/// keyboard counts: recording keeps that.
pub proof fn law_irq_total_is_sum(before: IrqStats, after_timer: IrqStats, after_keyboard: IrqStats)
    requires
        before.total == before.timer + before.keyboard,
        before.total < u64::MAX,
        after_timer.timer == before.timer.wrapping_add(1),
        after_timer.keyboard == before.keyboard,
        after_timer.total == before.total.wrapping_add(1),
        after_keyboard.timer == before.timer,
        after_keyboard.keyboard == before.keyboard.wrapping_add(1),
        after_keyboard.total == before.total.wrapping_add(1),
    ensures
        after_timer.total == after_timer.timer + after_timer.keyboard,
        after_keyboard.total == after_keyboard.timer + after_keyboard.keyboard,
{
}

} // verus!
