//! The first code of a kernel to run once the bootloader has switched to
//! 64-bit mode: it reads the boot information block that the bootloader left
//! in memory and reports what it finds on the text display.
//!
//! - [`multiboot`] decodes the boot information block from its bytes: the
//!   walk over its tagged records, the memory map and the table of the
//!   kernel's ELF sections.
//! - [`drivers::vga`] drives the text display: a model of what the grid of
//!   80 by 25 cells shows, the writer that keeps the hardware buffer to that
//!   model, and the lock that all who print share.
//! - [`text`] renders numbers and pieces of text; [`report`] puts together
//!   the lines that the kernel prints; [`wire`] reads little-endian integers.
//!
//! The functions of this file are the kernel's way through boot and its way
//! out on a panic. Nothing here stops the processor: both return in the
//! state [`KernelState::Idle`], and whoever called has to stay there.

use vstd::prelude::*;

pub mod drivers;
pub mod multiboot;
pub mod report;
pub mod text;
pub mod wire;

use drivers::vga::{Console, Screen, Writer, DEFAULT_ATTRIBUTE};
use multiboot::MultibootInfo;
use report::{panic_lines, panic_report_of, report_lines, report_of};
use text::{lines_of, text_of};

verus! {

/// Where the kernel stands on its way through boot.
#[derive(Clone, Copy, Debug, PartialEq, Eq, Structural)]
pub enum KernelState {
    /// Entered, nothing done yet. Leaving this state initialises the display.
    Booting,
    /// The display is ready. Leaving this state prints the report.
    Reporting,
    /// Everything is said. The kernel stays here for good.
    Idle,
}

impl KernelState {
    /// The state that follows this one.
    pub open spec fn spec_next(self) -> KernelState {
        match self {
            KernelState::Booting => KernelState::Reporting,
            KernelState::Reporting => KernelState::Idle,
            KernelState::Idle => KernelState::Idle,
        }
    }

    /// The state that follows this one.
    #[verifier::when_used_as_spec(spec_next)]
    pub fn next(self) -> (next: KernelState)
        ensures
            next == self.spec_next(),
    {
        match self {
            KernelState::Booting => KernelState::Reporting,
            KernelState::Reporting => KernelState::Idle,
            KernelState::Idle => KernelState::Idle,
        }
    }

    /// How many steps lie between this state and `Idle`.
    pub open spec fn steps_left(self) -> nat {
        match self {
            KernelState::Booting => 2,
            KernelState::Reporting => 1,
            KernelState::Idle => 0,
        }
    }
}

/// What the kernel does to the display on leaving a state.
pub enum Action {
    /// Initialise the display: every cell blank, the initial attribute, the
    /// cursor at the origin.
    InitDisplay,
    /// Print these lines, each in a row of its own.
    Print(Vec<Vec<u8>>),
    /// Nothing any more.
    Halt,
}

impl Action {
    /// Whether this is what leaving `state` asks for, given the boot
    /// information block `data`: to initialise the display on leaving
    /// `Booting`, to print the report on leaving `Reporting`, and nothing
    /// in `Idle`.
    pub open spec fn fits(self, state: KernelState, data: Seq<u8>) -> bool {
        match state {
            KernelState::Booting => self is InitDisplay,
            KernelState::Reporting => self matches Action::Print(lines) && lines_of(lines@)
                == report_of(data),
            KernelState::Idle => self is Halt,
        }
    }

    /// What the display shows after this action, if it showed `screen`
    /// before.
    pub open spec fn effect(self, screen: Screen) -> Screen {
        match self {
            Action::InitDisplay => Screen::cleared(DEFAULT_ATTRIBUTE),
            Action::Print(lines) => screen.write(text_of(lines_of(lines@))),
            Action::Halt => screen,
        }
    }

    /// Does to `display` what this action says.
    pub fn perform(&self, display: &mut Writer)
        ensures
            final(display)@ == self.effect(old(display)@),
    {
        match self {
            Action::InitDisplay => {
                display.clear();
            },
            Action::Print(lines) => {
                display.write_lines(lines.as_slice());
            },
            Action::Halt => {},
        }
    }
}

/// One step of the kernel: the state that follows `state`, and what is to
/// be done to the display on the way there. The boot information block is
/// read here, before anybody holds the display.
pub fn plan(state: KernelState, info: &MultibootInfo) -> (planned: (KernelState, Action))
    ensures
        planned.0 == state.next(),
        planned.1.fits(state, info@),
{
    match state {
        KernelState::Booting => (KernelState::Reporting, Action::InitDisplay),
        KernelState::Reporting => (KernelState::Idle, Action::Print(report_lines(info))),
        KernelState::Idle => (KernelState::Idle, Action::Halt),
    }
}

/// Once the kernel has gone from `Booting` to `Idle`, the display shows the
/// report on the boot information block and nothing else, whatever it
/// showed before, provided that nobody else printed meanwhile: leaving
/// `Booting` clears it, and leaving `Reporting` writes the report line by
/// line from the origin.
pub proof fn lemma_boot_shows_the_report(data: Seq<u8>, screen: Screen, first: Action, second: Action)
    requires
        first.fits(KernelState::Booting, data),
        second.fits(KernelState::Reporting, data),
    ensures
        KernelState::Booting.next().next() == KernelState::Idle,
        second.effect(first.effect(screen)) == Screen::cleared(DEFAULT_ATTRIBUTE).write(
            text_of(report_of(data)),
        ),
{
}

/// The entry into the kernel and its way through boot, from `Booting` to
/// `Idle`: step by step it initialises the display and prints the report on
/// the boot information block `boot_info`, the usable memory areas and the
/// sections of the kernel. It returns in the state `Idle`, where the caller
/// has to stay.
///
/// The display is taken for each step and let go after it. What a step does
/// to the display while it holds it, `plan` and `Action::perform` say; what
/// `console` shows in the end depends on who else printed meanwhile.
pub fn kernel_main(boot_info: &[u8], console: &Console) -> (state: KernelState)
    ensures
        state == KernelState::Idle,
{
    let info = MultibootInfo::new(boot_info);
    let mut state = KernelState::Booting;
    while state != KernelState::Idle
        decreases state.steps_left(),
    {
        let (next, action) = plan(state, &info);
        let mut held = console.lock();
        action.perform(held.writer());
        state = next;
    }
    state
}

/// Prints on `display` where a panic was raised, in line `line` of the
/// file `file`, and what its message is.
pub fn panic_report(display: &mut Writer, message: &str, file: &str, line: u32)
    ensures
        final(display)@ == old(display)@.write(text_of(panic_report_of(message, file, line))),
{
    let lines = panic_lines(message, file, line);
    display.write_lines(lines.as_slice());
}

/// The one way out of an error: takes the display, prints where the panic
/// was raised and its message as `panic_report` does, and returns in the
/// state `Idle`, where the caller has to stay.
pub fn panic_fmt(console: &Console, message: &str, file: &str, line: u32) -> (state: KernelState)
    ensures
        state == KernelState::Idle,
{
    let mut held = console.lock();
    panic_report(held.writer(), message, file, line);
    KernelState::Idle
}

} // verus!
