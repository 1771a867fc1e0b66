use vstd::prelude::*;

verus! {

/// The error type that creating a runtime or watching a signal reports.
#[verifier::external_type_specification]
#[verifier::external_body]
pub struct ExIoError(std::io::Error);

/// Why a run stopped other than by a configured signal.
#[derive(Debug)]
pub enum Shutdown<T, E> {
    /// The workload finished of its own accord, with this value.
    FutureFinished(T),
    /// The workload failed with this error.
    FutureErr(E),
    /// The runtime that drives the workload could not be created.
    NoRuntime(std::io::Error),
    /// Registering or listening to a signal failed.
    SignalError(std::io::Error),
}

/// The error underneath a [`Shutdown`].
#[derive(Debug)]
pub enum Cause<'a, E> {
    /// The workload's own error.
    Workload(&'a E),
    /// An error of the runtime or of a signal watcher.
    Io(&'a std::io::Error),
}

impl<T, E> Shutdown<T, E> {
    /// The error that caused this shutdown; none where the workload finished.
    pub fn cause(&self) -> (r: Option<Cause<'_, E>>)
        ensures
            match self {
                Shutdown::FutureFinished(_) => r is None,
                Shutdown::FutureErr(e) => r == Some(Cause::Workload(e)),
                Shutdown::NoRuntime(e) => r == Some(Cause::<E>::Io(e)),
                Shutdown::SignalError(e) => r == Some(Cause::<E>::Io(e)),
            },
    {
        match self {
            Shutdown::FutureFinished(_) => None,
            Shutdown::FutureErr(e) => Some(Cause::Workload(e)),
            Shutdown::NoRuntime(e) => Some(Cause::Io(e)),
            Shutdown::SignalError(e) => Some(Cause::Io(e)),
        }
    }
}

} // verus!
