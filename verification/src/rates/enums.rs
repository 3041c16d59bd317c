//! Compounding conventions.
use vstd::prelude::*;

use crate::errors::QSError;
use crate::text::str_eq;

verus! {

/// # Compounding
/// The different compounding methods.
#[derive(Debug, Copy, Clone, PartialEq, Eq, Hash, Structural)]
pub enum Compounding {
    Simple,
    Compounded,
    Continuous,
    SimpleThenCompounded,
    CompoundedThenSimple,
}

/// The name under which a compounding method is written.
pub open spec fn compounding_name(c: Compounding) -> Seq<char> {
    match c {
        Compounding::Simple => "Simple"@,
        Compounding::Compounded => "Compounded"@,
        Compounding::Continuous => "Continuous"@,
        Compounding::SimpleThenCompounded => "SimpleThenCompounded"@,
        Compounding::CompoundedThenSimple => "CompoundedThenSimple"@,
    }
}

impl Compounding {
    /// Parses the name of a compounding method (case sensitive).
    pub fn from_str(s: &str) -> (r: Result<Compounding, QSError>)
        ensures
            r matches Ok(c) ==> compounding_name(c) == s@,
            r is Ok <==> (exists|c: Compounding| compounding_name(c) == s@),
            r matches Err(e) ==> (e matches QSError::InvalidValue(t) && t@ == s@),
    {
        if str_eq(s, "Simple") {
            assert(compounding_name(Compounding::Simple) == s@);
            Ok(Compounding::Simple)
        } else if str_eq(s, "Compounded") {
            assert(compounding_name(Compounding::Compounded) == s@);
            Ok(Compounding::Compounded)
        } else if str_eq(s, "Continuous") {
            assert(compounding_name(Compounding::Continuous) == s@);
            Ok(Compounding::Continuous)
        } else if str_eq(s, "SimpleThenCompounded") {
            assert(compounding_name(Compounding::SimpleThenCompounded) == s@);
            Ok(Compounding::SimpleThenCompounded)
        } else if str_eq(s, "CompoundedThenSimple") {
            assert(compounding_name(Compounding::CompoundedThenSimple) == s@);
            Ok(Compounding::CompoundedThenSimple)
        } else {
            proof {
                assert forall|c: Compounding| compounding_name(c) != s@ by {
                    match c {
                        Compounding::Simple => {},
                        Compounding::Compounded => {},
                        Compounding::Continuous => {},
                        Compounding::SimpleThenCompounded => {},
                        Compounding::CompoundedThenSimple => {},
                    }
                }
            }
            Err(QSError::InvalidValue(s.to_owned()))
        }
    }
}

} // verus!
