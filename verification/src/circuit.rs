//! The circuit that the toolchain compiles.

use vstd::prelude::*;

verus! {

/// The program of the circuit: a check that the private inputs `a` and `b`
/// equal the public inputs `c` and `d`.
pub open spec fn circuit_text() -> Seq<char> {
    "\ndef main(private field a, private field b, public field c, public field d) -> bool{\n    assert(a == c);\n    assert(b == d);\n    return true;\n}\n"@
}

/// The program of the circuit, as it is written to the circuit file.
pub fn circuit_source() -> (r: &'static str)
    ensures
        r@ == circuit_text(),
{
    "\ndef main(private field a, private field b, public field c, public field d) -> bool{\n    assert(a == c);\n    assert(b == d);\n    return true;\n}\n"
}

} // verus!
