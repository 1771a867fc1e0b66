use vstd::prelude::*;

verus! {

/// Relies on tokio_signal::unix::SIGINT, libc's constant, which is 2 on every
/// platform that libc covers.
#[verifier::external_body]
fn sigint() -> (r: i32)
    ensures
        r == 2,
{
    tokio_signal::unix::SIGINT
}

/// Relies on tokio_signal::unix::SIGTERM, libc's constant, which is 15 on every
/// platform that libc covers.
#[verifier::external_body]
fn sigterm() -> (r: i32)
    ensures
        r == 15,
{
    tokio_signal::unix::SIGTERM
}

/// The set of Unix signals on which a run ends early, in the order they were added.
///
/// `Safeword::default()` watches SIGINT (Ctrl-C) and SIGTERM (what init systems
/// normally send to terminate a process).
#[derive(Debug)]
pub struct Safeword {
    signals: Vec<i32>,
}

impl View for Safeword {
    type V = Seq<i32>;

    closed spec fn view(&self) -> Seq<i32> {
        self.signals@
    }
}

impl Safeword {
    /// A `Safeword` with no configured signals.
    pub fn new() -> (r: Safeword)
        ensures
            r@ == Seq::<i32>::empty(),
    {
        Safeword { signals: Vec::new() }
    }

    /// Also end early on the Unix signal `signal`.
    pub fn signal(self, signal: i32) -> (r: Safeword)
        ensures
            r@ == self@.push(signal),
    {
        let mut signals = self.signals;
        signals.push(signal);
        Safeword { signals }
    }

    /// Give up the configured signals, in the order they were added.
    pub fn into_signals(self) -> (r: Vec<i32>)
        ensures
            r@ == self@,
    {
        self.signals
    }

    /// The configured signals, in the order they were added.
    pub fn signals(&self) -> (r: &[i32])
        ensures
            r@ == self@,
    {
        self.signals.as_slice()
    }
}

impl Default for Safeword {
    fn default() -> (r: Safeword)
        ensures
            r@ == seq![2i32, 15i32],
    {
        Safeword { signals: vec![sigint(), sigterm()] }
    }
}

} // verus!
