use vstd::prelude::*;

verus! {

/// Errors surfaced by the UMEM and ring lifecycle.
///
/// `Rustix` carries the errno of a failed system call made by the unverified
/// kernel-facing layer. `XskMapError` carries the message of a failed XSKMAP
/// mutation.
#[derive(Debug)]
pub enum Error {
    Rustix(i32),
    MarkerAlreadyUsed,
    Wip,
    XskMapError(String),
}

impl Error {
    /// Human-readable description, in place of a `Display` implementation.
    pub fn message(&self) -> (r: String)
        ensures
            self is XskMapError ==> r@ == self->XskMapError_0@,
    {
        match self {
            Error::Rustix(_) => "Rustix error".to_owned(),
            Error::MarkerAlreadyUsed => "marker already used to create UMEM".to_owned(),
            Error::Wip => "wip".to_owned(),
            Error::XskMapError(m) => m.clone(),
        }
    }
}

} // verus!
