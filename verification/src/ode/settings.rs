//! The snapshot of user-chosen inputs that one solve attempt reads: the
//! coordinate frame, the expression sources with their parse results, the
//! initial conditions and the integration length.  A solve only ever reads
//! such a snapshot; it never mutates one.

use vstd::prelude::*;

use crate::expr::PExpr;
use crate::expr::expr_view;
use crate::expr::parse;
use crate::expr::parse_spec;
use crate::fixed::Fx;
use crate::fixed::SCALE;
use crate::ode::schemes::EmbeddedMethod;
use crate::ode::schemes::OdeSolver;

verus! {

/// The variable basis in which an equation is written: `(x, y)` or
/// `(r, theta)`.
#[derive(Debug, Clone, Copy, PartialEq, Eq, Structural)]
pub enum CoordinateFrame {
    Cartesian,
    Polar,
}

/// The name `x` as a byte sequence.
pub open spec fn x_name() -> Seq<u8> {
    seq![120u8]
}

/// The name `y` as a byte sequence.
pub open spec fn y_name() -> Seq<u8> {
    seq![121u8]
}

/// The name `r` as a byte sequence.
pub open spec fn r_name() -> Seq<u8> {
    seq![114u8]
}

/// The name `theta` as a byte sequence.
pub open spec fn theta_name() -> Seq<u8> {
    seq![116u8, 104u8, 101u8, 116u8, 97u8]
}

/// The fixed set of variable names available for binding into expressions,
/// each interned at a numeric slot.  Uniqueness of the names is the table's
/// invariant.
#[derive(Debug)]
pub struct SymbolTable {
    pub names: Vec<Vec<u8>>,
}

impl SymbolTable {
    /// All names in the table are distinct.
    pub open spec fn wf(self) -> bool {
        forall|i: int, j: int|
            0 <= i < self.names@.len() && 0 <= j < self.names@.len() && i != j
                ==> self.names@[i]@ != self.names@[j]@
    }

    /// The table holding `x`, `y`, `r` and `theta`, in slot order.
    pub fn standard() -> (t: SymbolTable)
        ensures
            t.wf(),
            t.names@.len() == 4,
            t.names@[0]@ == x_name(),
            t.names@[1]@ == y_name(),
            t.names@[2]@ == r_name(),
            t.names@[3]@ == theta_name(),
    {
        let mut names: Vec<Vec<u8>> = Vec::new();
        let mut n0: Vec<u8> = Vec::new();
        n0.push(120);
        let mut n1: Vec<u8> = Vec::new();
        n1.push(121);
        let mut n2: Vec<u8> = Vec::new();
        n2.push(114);
        let mut n3: Vec<u8> = Vec::new();
        n3.push(116);
        n3.push(104);
        n3.push(101);
        n3.push(116);
        n3.push(97);
        proof {
            assert(n0@ =~= x_name());
            assert(n1@ =~= y_name());
            assert(n2@ =~= r_name());
            assert(n3@ =~= theta_name());
        }
        names.push(n0);
        names.push(n1);
        names.push(n2);
        names.push(n3);
        let t = SymbolTable { names };
        proof {
            assert(t.names@[0]@[0] == 120u8);
            assert(t.names@[1]@[0] == 121u8);
            assert(t.names@[2]@[0] == 114u8);
            assert(t.names@[3]@.len() == 5);
        }
        t
    }

    /// Find the slot bound to a name, if any.  The returned slot is the
    /// unique index holding that name whenever the table is well formed.
    pub fn slot(&self, name: &Vec<u8>) -> (r: Option<usize>)
        ensures
            r matches Some(k) ==> k < self.names@.len() && self.names@[k as int]@ == name@,
            r is None ==> forall|k: int|
                0 <= k < self.names@.len() ==> self.names@[k]@ != name@,
    {
        let mut k: usize = 0;
        while k < self.names.len()
            invariant
                k <= self.names@.len(),
                forall|j: int| 0 <= j < k ==> self.names@[j]@ != name@,
            decreases self.names@.len() - k,
        {
            if bytes_equal(&self.names[k], name) {
                return Some(k);
            }
            k = k + 1;
        }
        None
    }
}

/// Compare two byte vectors for equality of contents.
pub fn bytes_equal(a: &Vec<u8>, b: &Vec<u8>) -> (r: bool)
    ensures
        r == (a@ == b@),
{
    if a.len() != b.len() {
        return false;
    }
    let mut i: usize = 0;
    while i < a.len()
        invariant
            i <= a.len(),
            a@.len() == b@.len(),
            forall|j: int| 0 <= j < i ==> a@[j] == b@[j],
        decreases a.len() - i,
    {
        if a[i] != b[i] {
            return false;
        }
        i = i + 1;
    }
    proof {
        assert(a@ =~= b@);
    }
    true
}

/// The editable expression sources, together with the parsed form of each,
/// re-derived as a whole whenever a source changes.
#[derive(Debug)]
pub struct OdeInputs {
    pub inputs: Vec<Vec<u8>>,
    pub parsed_expressions: Result<Vec<PExpr>, String>,
}

impl OdeInputs {
    /// Re-parse every source text, replacing the stored parse result
    /// wholesale.  The first failing source determines the error; the
    /// parse succeeds exactly when every source parses, and then the
    /// stored forms are exactly the parses of the sources.
    pub fn parse_expressions(&mut self)
        ensures
            final(self).inputs == old(self).inputs,
            (final(self).parsed_expressions is Ok) == (forall|k: int|
                0 <= k < old(self).inputs@.len() ==> #[trigger] parse_spec(
                    old(self).inputs@[k]@,
                ) is Some),
            final(self).parsed_expressions matches Ok(es) ==> es@.len()
                == old(self).inputs@.len() && (forall|k: int|
                0 <= k < es@.len() ==> #[trigger] parse_spec(old(self).inputs@[k]@) == Some(
                    expr_view(es@[k]),
                )),
    {
        let mut parsed: Vec<PExpr> = Vec::new();
        let mut i: usize = 0;
        while i < self.inputs.len()
            invariant
                i <= self.inputs@.len(),
                parsed@.len() == i,
                self == old(self),
                forall|j: int|
                    0 <= j < i ==> #[trigger] parse_spec(self.inputs@[j]@) == Some(
                        expr_view(parsed@[j]),
                    ),
            decreases self.inputs@.len() - i,
        {
            match parse(&self.inputs[i]) {
                Ok(e) => {
                    parsed.push(e);
                },
                Err(m) => {
                    proof {
                        assert(!(parse_spec(self.inputs@[i as int]@) is Some));
                    }
                    self.parsed_expressions = Err(m);
                    return ;
                },
            }
            i = i + 1;
        }
        self.parsed_expressions = Ok(parsed);
    }
}

/// One solve attempt's snapshot of the user-chosen settings.
#[derive(Debug)]
pub struct OdeSettings {
    pub integration_length: Fx,
    pub ode_solver: OdeSolver,
    pub ics: Vec<Fx>,
    pub coordinate: CoordinateFrame,
    pub dimensions: u8,
    pub inputs: OdeInputs,
    pub symbols: SymbolTable,
}

impl Default for OdeSettings {
    /// The startup settings: the sample equation `x^2 - 7y - 10` in the
    /// Cartesian frame, initial point `(1, 1)`, integration length `10`.
    fn default() -> (r: Self)
        ensures
            r.integration_length == Fx::of(10 * SCALE),
            r.ics@.len() == 2,
            r.ics@[0] == Fx::of(1 * SCALE),
            r.ics@[1] == Fx::of(1 * SCALE),
            r.coordinate == CoordinateFrame::Cartesian,
            r.dimensions == 1u8,
            r.ode_solver == OdeSolver::Embedded(EmbeddedMethod::RKF45),
            r.inputs.inputs@.len() == 1,
            r.symbols.wf(),
    {
        let text: Vec<u8> = vec![120, 94, 50, 32, 45, 32, 55, 121, 32, 45, 32, 49, 48];
        let mut inputs = OdeInputs {
            inputs: vec![text],
            parsed_expressions: Err("not yet parsed".to_string()),
        };
        inputs.parse_expressions();
        let mut ics: Vec<Fx> = Vec::new();
        ics.push(Fx::from_int(false, 1));
        ics.push(Fx::from_int(false, 1));
        OdeSettings {
            integration_length: Fx::from_int(false, 10),
            ode_solver: OdeSolver::Embedded(EmbeddedMethod::RKF45),
            ics,
            coordinate: CoordinateFrame::Cartesian,
            dimensions: 1,
            inputs,
            symbols: SymbolTable::standard(),
        }
    }
}

} // verus!
