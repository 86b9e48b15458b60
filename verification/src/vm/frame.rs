use vstd::prelude::*;

use super::model::{cycle, cycle_executable, Machine};
use super::VirtualMachine;

verus! {

/// The machine after one cycle per byte of `randoms`, in order, each cycle
/// given that byte as the one `Cxkk` would draw.
pub open spec fn run(m: Machine, randoms: Seq<u8>) -> Machine
    decreases randoms.len(),
{
    if randoms.len() == 0 {
        m
    } else {
        cycle(run(m, randoms.drop_last()), randoms.last())
    }
}

/// Whether each of the cycles of `run(m, randoms)` stays within what the
/// interpreter can do.
pub open spec fn run_executable(m: Machine, randoms: Seq<u8>) -> bool
    decreases randoms.len(),
{
    randoms.len() == 0 || (run_executable(m, randoms.drop_last()) && cycle_executable(
        run(m, randoms.drop_last()),
    ))
}

/// The timers after one tick of the 60 Hz clock: each counts down to zero and
/// stays there.
pub open spec fn ticked(m: Machine) -> Machine {
    Machine {
        delay_timer: if m.delay_timer > 0 { (m.delay_timer - 1) as u8 } else { 0 },
        sound_timer: if m.sound_timer > 0 { (m.sound_timer - 1) as u8 } else { 0 },
        ..m
    }
}

impl VirtualMachine {
    /// Counts each timer down by one tick of the 60 Hz clock, stopping at zero.
    pub fn tick_timers(&mut self)
        ensures
            final(self)@ == ticked(old(self)@),
    {
        if self.delay_timer != 0 {
            self.delay_timer -= 1;
        }
        if self.sound_timer != 0 {
            self.sound_timer -= 1;
        }
    }

    /// Runs the cycles of one displayed frame: none when the machine is not
    /// running; else up to `cycles_per_frame` cycles, stopping early only
    /// before a cycle that would leave what the interpreter can do. Returns how
    /// many cycles ran.
    pub fn run_frame(&mut self, cycles_per_frame: u32) -> (cycles_run: u32)
        ensures
            !old(self).is_running ==> final(self)@ == old(self)@ && cycles_run == 0,
            old(self).is_running ==> exists|randoms: Seq<u8>|
                {
                    &&& randoms.len() == cycles_run
                    &&& run_executable(old(self)@, randoms)
                    &&& final(self)@ == #[trigger] run(old(self)@, randoms)
                },
            cycles_run <= cycles_per_frame,
            old(self).is_running && cycles_run < cycles_per_frame ==> !cycle_executable(final(self)@),
    {
        if !self.is_running {
            return 0;
        }
        let ghost start = self@;
        let ghost mut randoms: Seq<u8> = Seq::empty();
        let mut count: u32 = 0;
        assert(run(start, randoms) == start);
        while count < cycles_per_frame
            invariant_except_break
                count <= cycles_per_frame,
                randoms.len() == count,
                run_executable(start, randoms),
                self@ == run(start, randoms),
            ensures
                count <= cycles_per_frame,
                randoms.len() == count,
                run_executable(start, randoms),
                self@ == run(start, randoms),
                count < cycles_per_frame ==> !cycle_executable(self@),
            decreases cycles_per_frame - count,
        {
            if !self.can_cycle() {
                break;
            }
            let ghost before = self@;
            self.fde_cycle();
            proof {
                let random = choose|random: u8| self@ == #[trigger] cycle(before, random);
                let extended = randoms.push(random);
                assert(extended.drop_last() =~= randoms);
                randoms = extended;
            }
            count += 1;
        }
        proof {
            assert(randoms.len() == count && run_executable(start, randoms) && self@ == run(start, randoms));
        }
        count
    }
}

} // verus!
