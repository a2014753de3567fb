//! The constraint adapter: an R1CS description, optionally bound to a witness,
//! turned into the variables and linear combinations of a Groth16 backend.
use vstd::prelude::*;

verus! {

/// A sparse linear combination: pairs of wire index and coefficient.
pub type LinearTerms<F> = Vec<(usize, F)>;

/// One rank-1 constraint `A * B = C`.
pub type Constraint<F> = (LinearTerms<F>, LinearTerms<F>, LinearTerms<F>);

/// A rank-1 constraint system as read from a circuit file.
///
/// Wire `0` is the constant one, wires `1..num_inputs` are public and wires
/// `num_inputs..num_inputs + num_aux` are private. `wire_mapping`, when present,
/// sends a wire to its slot in the witness vector.
#[derive(Clone, Debug)]
pub struct R1CS<F> {
    pub num_inputs: usize,
    pub num_aux: usize,
    pub constraints: Vec<Constraint<F>>,
    pub wire_mapping: Option<Vec<usize>>,
}

/// A backend variable: the public input or the private witness at a position.
#[derive(Clone, Copy, Debug, PartialEq, Eq, Structural)]
pub enum Variable {
    Instance(usize),
    Witness(usize),
}

/// A linear combination over backend variables, in the order of its terms.
pub type VariableTerms<F> = Vec<(F, Variable)>;

/// What a backend must be told to build the circuit: the values of the public
/// inputs after the constant one, the values of the private witnesses, and the
/// constraints over backend variables, in the order of the description.
pub struct Synthesis<F> {
    pub inputs: Vec<F>,
    pub witnesses: Vec<F>,
    pub constraints: Vec<(VariableTerms<F>, VariableTerms<F>, VariableTerms<F>)>,
}

/// An R1CS description with an optional witness. Without a witness every
/// variable is given the value one, which is enough for key generation.
#[derive(Clone, Debug)]
pub struct CircomCircuit<F> {
    pub r1cs: R1CS<F>,
    pub witness: Option<Vec<F>>,
}

/// The backend variable that a wire index denotes.
pub open spec fn variable_of(num_inputs: nat, index: nat) -> Variable {
    if index < num_inputs {
        Variable::Instance(index as usize)
    } else {
        Variable::Witness((index - num_inputs) as usize)
    }
}

/// A linear combination with each wire index replaced by its backend variable.
pub open spec fn terms_over_variables<F>(num_inputs: nat, lc: Seq<(usize, F)>) -> Seq<(F, Variable)> {
    Seq::new(lc.len(), |k: int| (lc[k].1, variable_of(num_inputs, lc[k].0 as nat)))
}

impl<F: Copy> CircomCircuit<F> {
    /// The witness slot of wire `i`: through the wire mapping when there is one.
    pub open spec fn slot(&self, i: int) -> int {
        match self.r1cs.wire_mapping {
            Some(m) => m@[i] as int,
            None => i,
        }
    }

    /// Every wire from 1 up to below `n` has a slot inside the witness, if
    /// there is one. Wire 0, the constant, is never read.
    pub open spec fn slots_in_bounds(&self, n: int) -> bool {
        match self.witness {
            None => true,
            Some(w) => {
                &&& (self.r1cs.wire_mapping matches Some(m) ==> n <= m@.len())
                &&& forall|i: int| 1 <= i < n ==> 0 <= #[trigger] self.slot(i) < w@.len()
            },
        }
    }

    /// Whether every wire from 1 up to below `n` has a slot inside the witness.
    pub fn slots_fit(&self, n: usize) -> (r: bool)
        ensures
            r == self.slots_in_bounds(n as int),
    {
        match &self.witness {
            None => true,
            Some(w) => {
                if let Some(m) = &self.r1cs.wire_mapping {
                    if n > m.len() {
                        return false;
                    }
                } else if n > w.len() {
                    assert(n >= 2 ==> !(0 <= self.slot(n - 1) < w@.len()));
                    return n <= 1;
                }
                let mut i: usize = 1;
                while i < n
                    invariant
                        1 <= i,
                        self.witness == Some(*w),
                        self.r1cs.wire_mapping matches Some(m) ==> n <= m@.len(),
                        forall|k: int| 1 <= k < i ==> 0 <= #[trigger] self.slot(k) < w@.len(),
                    decreases n - i,
                {
                    let slot = match &self.r1cs.wire_mapping {
                        Some(m) => m[i],
                        None => i,
                    };
                    assert(slot as int == self.slot(i as int));
                    if slot >= w.len() {
                        return false;
                    }
                    i = i + 1;
                }
                true
            },
        }
    }

    /// The value that wire `i` is given: its witness entry, or `one` without a witness.
    pub open spec fn wire_value(&self, i: int, one: F) -> F {
        match self.witness {
            None => one,
            Some(w) => w@[self.slot(i)],
        }
    }

    /// The public inputs: the witness values of wires `1..num_inputs`.
    pub open spec fn public_inputs(&self) -> Option<Seq<F>> {
        match self.witness {
            None => None,
            Some(w) => Some(
                Seq::new((self.r1cs.num_inputs - 1) as nat, |k: int| w@[self.slot(k + 1)]),
            ),
        }
    }

    /// The public inputs of the bound witness, without the constant one;
    /// `None` when no witness is bound.
    pub fn get_public_inputs(&self) -> (r: Option<Vec<F>>)
        requires
            self.r1cs.num_inputs >= 1,
            self.slots_in_bounds(self.r1cs.num_inputs as int),
        ensures
            r matches Some(v) ==> self.public_inputs() == Some(v@),
            r is None <==> self.public_inputs() is None,
    {
        match &self.witness {
            None => None,
            Some(w) => {
                let n = self.r1cs.num_inputs;
                let mut out: Vec<F> = Vec::new();
                let mut i: usize = 1;
                while i < n
                    invariant
                        1 <= i <= n,
                        self.witness == Some(*w),
                        n == self.r1cs.num_inputs,
                        self.slots_in_bounds(n as int),
                        out@.len() == i - 1,
                        forall|k: int| 0 <= k < i - 1 ==> out@[k] == w@[self.slot(k + 1)],
                    decreases n - i,
                {
                    let slot = match &self.r1cs.wire_mapping {
                        Some(m) => m[i],
                        None => i,
                    };
                    assert(slot as int == self.slot(i as int));
                    out.push(w[slot]);
                    i = i + 1;
                }
                assert(out@ =~= Seq::new((n - 1) as nat, |k: int| w@[self.slot(k + 1)]));
                Some(out)
            },
        }
    }

    /// The value of wire `i`, or `one` when no witness is bound.
    fn wire_value_at(&self, i: usize, one: F) -> (r: F)
        requires
            i >= 1,
            self.slots_in_bounds(i + 1),
        ensures
            r == self.wire_value(i as int, one),
    {
        match &self.witness {
            None => one,
            Some(w) => {
                let slot = match &self.r1cs.wire_mapping {
                    Some(m) => m[i],
                    None => i,
                };
                assert(slot as int == self.slot(i as int));
                w[slot]
            },
        }
    }

    /// The backend variable of a wire index.
    pub fn make_index(&self, index: usize) -> (r: Variable)
        ensures
            r == variable_of(self.r1cs.num_inputs as nat, index as nat),
    {
        if index < self.r1cs.num_inputs {
            Variable::Instance(index)
        } else {
            Variable::Witness(index - self.r1cs.num_inputs)
        }
    }

    /// A linear combination over wires, written over backend variables.
    pub fn make_lc(&self, lc: &LinearTerms<F>) -> (r: VariableTerms<F>)
        ensures
            r@ == terms_over_variables(self.r1cs.num_inputs as nat, lc@),
    {
        let mut out: VariableTerms<F> = Vec::new();
        let mut k: usize = 0;
        while k < lc.len()
            invariant
                k <= lc@.len(),
                out@ =~= terms_over_variables(self.r1cs.num_inputs as nat, lc@.subrange(0, k as int)),
            decreases lc@.len() - k,
        {
            let (index, coeff) = lc[k];
            let v = self.make_index(index);
            out.push((coeff, v));
            k = k + 1;
            assert(out@ =~= terms_over_variables(
                self.r1cs.num_inputs as nat,
                lc@.subrange(0, k as int),
            ));
        }
        assert(lc@.subrange(0, k as int) =~= lc@);
        out
    }

    /// The variables and constraints of the circuit. Public inputs `1..num_inputs`
    /// come first, then the private wires, each with its witness value, or with
    /// `one` when no witness is bound; every constraint is rewritten over variables, in order.
    pub fn generate_constraints(&self, one: F) -> (r: Synthesis<F>)
        requires
            self.r1cs.num_inputs >= 1,
            self.r1cs.num_inputs + self.r1cs.num_aux <= usize::MAX,
            self.slots_in_bounds(self.r1cs.num_inputs + self.r1cs.num_aux),
        ensures
            r.inputs@.len() == self.r1cs.num_inputs - 1,
            forall|k: int|
                0 <= k < r.inputs@.len() ==> r.inputs@[k] == self.wire_value(k + 1, one),
            r.witnesses@.len() == self.r1cs.num_aux,
            forall|k: int|
                0 <= k < r.witnesses@.len() ==> r.witnesses@[k] == self.wire_value(
                    self.r1cs.num_inputs + k,
                    one,
                ),
            r.constraints@.len() == self.r1cs.constraints@.len(),
            forall|c: int|
                0 <= c < r.constraints@.len() ==> {
                    let (a, b, cc) = #[trigger] r.constraints@[c];
                    let (la, lb, lcc) = self.r1cs.constraints@[c];
                    &&& a@ == terms_over_variables(self.r1cs.num_inputs as nat, la@)
                    &&& b@ == terms_over_variables(self.r1cs.num_inputs as nat, lb@)
                    &&& cc@ == terms_over_variables(self.r1cs.num_inputs as nat, lcc@)
                },
    {
        let n = self.r1cs.num_inputs;
        let total = n + self.r1cs.num_aux;
        let mut inputs: Vec<F> = Vec::new();
        let mut i: usize = 1;
        while i < n
            invariant
                1 <= i <= n,
                n == self.r1cs.num_inputs,
                total == n + self.r1cs.num_aux,
                self.slots_in_bounds(total as int),
                inputs@.len() == i - 1,
                forall|k: int| 0 <= k < i - 1 ==> inputs@[k] == self.wire_value(k + 1, one),
            decreases n - i,
        {
            let v = self.wire_value_at(i, one);
            inputs.push(v);
            i = i + 1;
        }
        let mut witnesses: Vec<F> = Vec::new();
        let mut j: usize = 0;
        while j < self.r1cs.num_aux
            invariant
                j <= self.r1cs.num_aux,
                n == self.r1cs.num_inputs,
                n >= 1,
                total == n + self.r1cs.num_aux,
                self.slots_in_bounds(total as int),
                witnesses@.len() == j,
                forall|k: int|
                    0 <= k < j ==> witnesses@[k] == self.wire_value(n + k, one),
            decreases self.r1cs.num_aux - j,
        {
            let v = self.wire_value_at(n + j, one);
            witnesses.push(v);
            j = j + 1;
        }
        let mut constraints: Vec<(VariableTerms<F>, VariableTerms<F>, VariableTerms<F>)> =
            Vec::new();
        let mut c: usize = 0;
        while c < self.r1cs.constraints.len()
            invariant
                c <= self.r1cs.constraints@.len(),
                constraints@.len() == c,
                forall|q: int|
                    0 <= q < c ==> {
                        let (a, b, cc) = #[trigger] constraints@[q];
                        let (la, lb, lcc) = self.r1cs.constraints@[q];
                        &&& a@ == terms_over_variables(self.r1cs.num_inputs as nat, la@)
                        &&& b@ == terms_over_variables(self.r1cs.num_inputs as nat, lb@)
                        &&& cc@ == terms_over_variables(self.r1cs.num_inputs as nat, lcc@)
                    },
            decreases self.r1cs.constraints@.len() - c,
        {
            let con = &self.r1cs.constraints[c];
            let a = self.make_lc(&con.0);
            let b = self.make_lc(&con.1);
            let cc = self.make_lc(&con.2);
            constraints.push((a, b, cc));
            c = c + 1;
        }
        Synthesis { inputs, witnesses, constraints }
    }
}

/// With a witness bound, the public inputs are exactly the values that
/// `generate_constraints` gives the public variables, in the same order.
pub proof fn lemma_public_inputs_are_instance_values<F: Copy>(c: CircomCircuit<F>, one: F)
    requires
        c.witness is Some,
        c.r1cs.num_inputs >= 1,
    ensures
        c.public_inputs() == Some(
            Seq::new((c.r1cs.num_inputs - 1) as nat, |k: int| c.wire_value(k + 1, one)),
        ),
{
    assert(c.public_inputs()->0 =~= Seq::new(
        (c.r1cs.num_inputs - 1) as nat,
        |k: int| c.wire_value(k + 1, one),
    ));
}

} // verus!
