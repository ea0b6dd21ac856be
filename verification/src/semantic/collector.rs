//! An append-only collector of semantic diagnostics, shared by mutable
//! reference across all phases.

use vstd::prelude::*;

use crate::semantic::errors::SemanticError;
use crate::semantic::errors::ErrorV;

verus! {

/// The error sink: phases append diagnostics strictly sequentially and the
/// driver inspects the sink between phases.
#[derive(Debug, Default)]
pub struct ErrorCollector {
    pub errors: Vec<SemanticError>,
}

impl View for ErrorCollector {
    type V = Seq<ErrorV>;

    open spec fn view(&self) -> Seq<ErrorV> {
        self.errors@.map_values(|e: SemanticError| e@)
    }
}

impl ErrorCollector {
    /// Append one diagnostic; nothing already collected is touched.
    pub fn add(&mut self, err: SemanticError)
        ensures
            final(self)@ == old(self)@.push(err@),
    {
        self.errors.push(err);
        proof {
            assert(self@ =~= old(self)@.push(err@));
        }
    }

    /// Whether any diagnostic has been collected so far.
    pub fn has_errors(&self) -> (r: bool)
        ensures
            r == (self@.len() > 0),
    {
        self.errors.len() > 0
    }
}

} // verus!
