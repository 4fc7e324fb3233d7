//! The shared display: one writer behind a spin lock, so that whoever
//! prints, the boot code or a fault that interrupts it, holds the grid and
//! the cursor alone while it does.

use core::ops::DerefMut;
use spin::{Mutex, MutexGuard};
use vstd::prelude::*;
use volatile::Volatile;

use crate::drivers::vga::screen::{Screen, BUFFER_CELLS};
use crate::drivers::vga::writer::Writer;

verus! {

/// `spin::Mutex`, a lock that is taken by busy-waiting.
#[verifier::external_type_specification]
#[verifier::external_body]
#[verifier::reject_recursive_types(T)]
pub struct ExMutex<T: ?Sized>(Mutex<T>);

/// `spin::MutexGuard`, which gives access to the locked value and frees the
/// lock when it is dropped.
#[verifier::external_type_specification]
#[verifier::external_body]
#[verifier::reject_recursive_types(T)]
pub struct ExMutexGuard<'a, T: ?Sized + 'a>(MutexGuard<'a, T>);

/// `Mutex::new`: a free lock around `user_data`. Nothing is claimed of it.
pub assume_specification<T>[ Mutex::<T>::new ](user_data: T) -> (mutex: Mutex<T>)
;

/// `Mutex::lock`: spins until the lock is free, takes it and returns the
/// guard. Nothing is claimed of the value behind it: whoever held the lock
/// before may have changed it. A caller that holds the lock already never
/// gets it, and the call does not return.
pub assume_specification<T: ?Sized>[ Mutex::<T>::lock ](mutex: &Mutex<T>) -> (guard: MutexGuard<
    '_,
    T,
>)
;

/// What the display shows whose lock `guard` holds: the view of the writer
/// that the guard leads to. The guard holds the one reference to that
/// writer, so nothing but the guard's own holder changes it.
pub uninterp spec fn behind(guard: MutexGuard<Writer>) -> Screen;

/// `DerefMut::deref_mut` of the guard: a reference to the writer that the
/// guard leads to, for as long as the guard is borrowed. The writer shows
/// what the display behind the guard shows, and what is done to the writer
/// is done to the display behind the guard. Nothing is claimed of what the
/// display shows when the lock is taken.
#[verifier::external_body]
fn locked<'a, 'b, 'c>(guard: &'b mut MutexGuard<'c, Writer<'a>>) -> (writer: &'b mut Writer<'a>)
    ensures
        writer@ == behind(*old(guard)),
        behind(*final(guard)) == final(writer)@,
{
    guard.deref_mut()
}

/// The display as all of the kernel shares it. To print is to take the
/// lock, to work on the writer behind it, and to let the lock go again.
pub struct Console<'a> {
    writer: Mutex<Writer<'a>>,
}

/// The display while its lock is held. Dropping this value frees the lock.
pub struct ConsoleGuard<'c, 'a> {
    guard: MutexGuard<'c, Writer<'a>>,
}

impl<'c, 'a> View for ConsoleGuard<'c, 'a> {
    type V = Screen;

    /// What the display shows while this guard holds it.
    closed spec fn view(&self) -> Screen {
        behind(self.guard)
    }
}

impl<'a> Console<'a> {
    /// Puts `writer` behind a lock.
    pub fn new(writer: Writer<'a>) -> (console: Console<'a>) {
        Console { writer: Mutex::new(writer) }
    }

    /// Waits until nobody else holds the display, and takes it. What the
    /// display shows by then is up to those who held it before; whoever
    /// they were, it is a grid of 80 by 25 cells with the cursor inside,
    /// since nothing but a writer's own operations has ever changed it.
    ///
    /// There is no timeout: to call this while holding the lock is to wait
    /// for good.
    pub fn lock<'c>(&'c self) -> (held: ConsoleGuard<'c, 'a>)
        ensures
            held@.wf(),
    {
        let mut held = ConsoleGuard { guard: self.writer.lock() };
        // The shape of the grid is the writer's own invariant: asking the
        // writer for its cursor is the way to learn it.
        let _column: usize = held.writer().column();
        held
    }
}

impl<'c, 'a> ConsoleGuard<'c, 'a> {
    /// The writer, which nobody else can reach while the lock is held. It
    /// shows what the display showed when this guard was last used, and
    /// what is written through it stays on the display for the guard's next
    /// use: between two uses of one guard nobody else prints.
    pub fn writer<'b>(&'b mut self) -> (writer: &'b mut Writer<'a>)
        ensures
            writer@ == old(self)@,
            final(self)@ == final(writer)@,
    {
        locked(&mut self.guard)
    }
}

/// Sets up the display on `buffer`: every cell blank, the initial
/// attribute, the cursor at the origin, and the whole behind a lock.
pub fn init<'a>(buffer: &'a mut [Volatile<u16>; BUFFER_CELLS]) -> (console: Console<'a>) {
    Console::new(Writer::new(buffer))
}

} // verus!
