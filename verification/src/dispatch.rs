//! Which way to compute the product.
//!
//! Some processors have an instruction for the carry-less product. It may be
//! used only where the code for it was compiled in and the running processor
//! has been found to support it. This module holds that rule as a function
//! from what is known about the machine to the path to take, so that the rule
//! can be checked, and exercised on any combination of answers, apart from
//! the hardware. Every path returns the same product; the choice affects
//! speed alone.

use vstd::prelude::*;

verus! {

/// A way of computing the carry-less product.
#[derive(Clone, Copy, Debug, PartialEq, Eq, Structural)]
pub enum Path {
    /// The polynomial multiply of AArch64 (`vmull_p64`; NEON with AES).
    Pmull,
    /// The carry-less multiply of x86-64 (`pclmulqdq`).
    Pclmulqdq,
    /// Shift-and-XOR in ordinary integer code.
    Portable,
}

/// The two answers about one accelerated path.
#[derive(Clone, Copy, Debug, PartialEq, Eq, Structural)]
pub struct Support {
    /// The target the code was built for has the path compiled in.
    pub compiled: bool,
    /// The processor was probed at run time and has the instruction.
    pub detected: bool,
}

/// What is known about the machine: the support for each accelerated path.
#[derive(Clone, Copy, Debug, PartialEq, Eq, Structural)]
pub struct Capabilities {
    pub pmull: Support,
    pub pclmulqdq: Support,
}

impl Support {
    /// A path may be taken when both answers are yes. Having the code
    /// compiled in is not enough: the program may run on an older processor.
    pub open spec fn is_usable(self) -> bool {
        self.compiled && self.detected
    }

    /// Whether the path may be taken.
    pub fn usable(&self) -> (yes: bool)
        ensures
            yes == self.is_usable(),
    {
        self.compiled && self.detected
    }
}

impl Capabilities {
    /// The path that the answers call for: the first usable accelerated path,
    /// in the order `Pmull`, `Pclmulqdq`, and the portable path when neither
    /// is usable.
    pub open spec fn choice(self) -> Path {
        if self.pmull.is_usable() {
            Path::Pmull
        } else if self.pclmulqdq.is_usable() {
            Path::Pclmulqdq
        } else {
            Path::Portable
        }
    }

    /// Chooses the path.
    ///
    /// An accelerated path is chosen only if it is usable, so that its
    /// instruction is never run unless it was compiled in and detected; the
    /// portable path is chosen exactly when no other is usable.
    pub fn select(&self) -> (path: Path)
        ensures
            path == self.choice(),
            path == Path::Pmull ==> self.pmull.compiled && self.pmull.detected,
            path == Path::Pclmulqdq ==> self.pclmulqdq.compiled && self.pclmulqdq.detected,
            path == Path::Portable <==> !self.pmull.is_usable() && !self.pclmulqdq.is_usable(),
    {
        if self.pmull.usable() {
            Path::Pmull
        } else if self.pclmulqdq.usable() {
            Path::Pclmulqdq
        } else {
            Path::Portable
        }
    }
}

} // verus!
