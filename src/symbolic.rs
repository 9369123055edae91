use vstd::prelude::*;

verus! {

/// `y` is what `rule` gives for a vector holding `x`.
pub open spec fn gives<T, F: Fn(&[T]) -> T>(rule: F, x: Seq<T>, y: T) -> bool {
    exists|s: &[T]| s@ == x && #[trigger] call_ensures(rule, (s,), y)
}

/// No two entries of `names` are equal.
pub open spec fn distinct(names: Seq<Seq<char>>) -> bool {
    forall|i: int, j: int| 0 <= i < names.len() && 0 <= j < names.len() && i != j ==> names[i] != names[j]
}

/// A set of named rules, each mapping a vector to one value, kept in the order
/// in which their names were first added. The overlay appends the rules'
/// outputs to the vector it is given, and remembers that vector.
pub struct NeuroSymbolicLayer<T, F> {
    names: Vec<String>,
    rules: Vec<F>,
    neural_output: Vec<T>,
}

impl<T: Copy, F: Fn(&[T]) -> T> NeuroSymbolicLayer<T, F> {
    /// The rule names, in enumeration order.
    pub closed spec fn names(&self) -> Seq<Seq<char>> {
        self.names@.map_values(|s: String| s@)
    }

    /// The rules, in enumeration order.
    pub closed spec fn rules(&self) -> Seq<F> {
        self.rules@
    }

    /// The vector most recently given to `process`.
    pub closed spec fn cached(&self) -> Seq<T> {
        self.neural_output@
    }

    pub closed spec fn wf(&self) -> bool {
        &&& self.names@.len() == self.rules@.len()
        &&& distinct(self.names())
        &&& forall|k: int, s: &[T]| 0 <= k < self.rules@.len() ==> #[trigger] call_requires(self.rules@[k], (s,))
    }

    /// The output slot of the rule at position `rank`, after a vector of
    /// `neural_len` values.
    pub open spec fn slot_spec(neural_len: nat, rank: nat) -> nat {
        neural_len + rank
    }

    /// An overlay with no rules and nothing cached.
    pub fn new() -> (r: Self)
        ensures
            r.wf(),
            r.names() == Seq::<Seq<char>>::empty(),
            r.cached() == Seq::<T>::empty(),
    {
        let r = NeuroSymbolicLayer { names: Vec::new(), rules: Vec::new(), neural_output: Vec::new() };
        assert(r.names() =~= Seq::<Seq<char>>::empty());
        r
    }

    /// The number of rules.
    pub fn num_rules(&self) -> (r: usize)
        requires
            self.wf(),
        ensures
            r == self.rules().len(),
            r == self.names().len(),
    {
        self.rules.len()
    }

    /// The position of the rule named `name`, if there is one.
    pub fn position(&self, name: &str) -> (r: Option<usize>)
        requires
            self.wf(),
        ensures
            r matches Some(k) ==> k < self.names().len() && self.names()[k as int] == name@,
            r is None ==> !self.names().contains(name@),
    {
        let key = name.to_owned();
        let mut k: usize = 0;
        while k < self.names.len()
            invariant
                self.wf(),
                key@ == name@,
                0 <= k <= self.names@.len(),
                forall|j: int| 0 <= j < k ==> self.names()[j] != name@,
            decreases self.names@.len() - k,
        {
            if self.names[k] == key {
                return Some(k);
            }
            k = k + 1;
        }
        None
    }

    /// The name of the rule at position `k`.
    pub fn name(&self, k: usize) -> (r: &String)
        requires
            self.wf(),
            k < self.names().len(),
        ensures
            r@ == self.names()[k as int],
    {
        &self.names[k]
    }

    /// The rule at position `k`.
    pub fn rule(&self, k: usize) -> (r: &F)
        requires
            self.wf(),
            k < self.rules().len(),
        ensures
            *r == self.rules()[k as int],
    {
        &self.rules[k]
    }

    /// The vector most recently given to `process`.
    pub fn neural_output(&self) -> (r: &Vec<T>)
        ensures
            r@ == self.cached(),
    {
        &self.neural_output
    }

    /// Registers `rule` under `name`. A new name goes after all others; a name
    /// already present keeps its position and gets the new rule.
    pub fn add_rule(&mut self, name: &str, rule: F)
        requires
            old(self).wf(),
            forall|s: &[T]| #[trigger] call_requires(rule, (s,)),
        ensures
            final(self).wf(),
            final(self).cached() == old(self).cached(),
            old(self).names().contains(name@) ==> final(self).names() == old(self).names() && exists|k: int|
                0 <= k < old(self).names().len() && old(self).names()[k] == name@ && final(self).rules() == old(self).rules().update(k, rule),
            !old(self).names().contains(name@) ==> final(self).names() == old(self).names().push(name@) && final(self).rules()
                == old(self).rules().push(rule),
    {
        match self.position(name) {
            Some(k) => {
                self.rules.set(k, rule);
                assert(self.names() == old(self).names());
            },
            None => {
                let key = name.to_owned();
                self.names.push(key);
                self.rules.push(rule);
                assert(self.names() =~= old(self).names().push(name@));
                assert forall|k: int, s: &[T]| 0 <= k < self.rules@.len() implies #[trigger] call_requires(self.rules@[k], (s,)) by {
                    if k < old(self).rules@.len() {
                        assert(self.rules@[k] == old(self).rules@[k]);
                    }
                }
            },
        }
    }

    /// The position in the overlay's output of the value of the rule at
    /// position `rank`, after a vector of `neural_len` values.
    pub fn slot(&self, neural_len: usize, rank: usize) -> (r: usize)
        requires
            self.wf(),
            rank < self.rules().len(),
            neural_len + self.rules().len() <= usize::MAX,
        ensures
            r == Self::slot_spec(neural_len as nat, rank as nat),
    {
        neural_len + rank
    }

    /// Caches a copy of `input` and returns `input` followed by the value of
    /// each rule on it, in enumeration order.
    pub fn process(&mut self, input: Vec<T>) -> (r: Vec<T>)
        requires
            old(self).wf(),
            input@.len() + old(self).rules().len() <= usize::MAX,
        ensures
            final(self).wf(),
            final(self).names() == old(self).names(),
            final(self).rules() == old(self).rules(),
            final(self).cached() == input@,
            r@.len() == input@.len() + old(self).rules().len(),
            r@.subrange(0, input@.len() as int) == input@,
            forall|k: int|
                0 <= k < old(self).rules().len() ==> gives(old(self).rules()[k], input@, #[trigger] r@[input@.len() + k]),
    {
        let n = input.len();
        let mut cache: Vec<T> = Vec::new();
        let mut i: usize = 0;
        while i < n
            invariant
                n == input@.len(),
                0 <= i <= n,
                cache@ == input@.subrange(0, i as int),
            decreases n - i,
        {
            cache.push(input[i]);
            i = i + 1;
            assert(cache@ =~= input@.subrange(0, i as int));
        }
        assert(cache@ =~= input@);
        self.neural_output = cache;
        let mut out = input;
        let mut k: usize = 0;
        while k < self.rules.len()
            invariant
                self.wf(),
                self.names() == old(self).names(),
                self.rules() == old(self).rules(),
                self.neural_output@ == input@,
                n + self.rules@.len() <= usize::MAX,
                0 <= k <= self.rules@.len(),
                out@.len() == n + k,
                out@.subrange(0, n as int) == input@,
                forall|j: int| 0 <= j < k ==> gives(self.rules@[j], input@, #[trigger] out@[n + j]),
            decreases self.rules@.len() - k,
        {
            let y = (self.rules[k])(self.neural_output.as_slice());
            let ghost prev = out@;
            out.push(y);
            assert(out@.subrange(0, n as int) =~= prev.subrange(0, n as int));
            assert forall|j: int| 0 <= j < k + 1 implies gives(self.rules@[j], input@, #[trigger] out@[n + j]) by {
                if j < k {
                    assert(out@[n + j] == prev[n + j]);
                }
            }
            k = k + 1;
        }
        out
    }

    /// The value of each rule on the cached vector, in enumeration order.
    pub fn rule_outputs(&self) -> (r: Vec<T>)
        requires
            self.wf(),
        ensures
            r@.len() == self.rules().len(),
            forall|k: int| 0 <= k < self.rules().len() ==> gives(self.rules()[k], self.cached(), #[trigger] r@[k]),
    {
        let mut out: Vec<T> = Vec::new();
        let mut k: usize = 0;
        while k < self.rules.len()
            invariant
                self.wf(),
                0 <= k <= self.rules@.len(),
                out@.len() == k,
                forall|j: int| 0 <= j < k ==> gives(self.rules@[j], self.neural_output@, #[trigger] out@[j]),
            decreases self.rules@.len() - k,
        {
            let y = (self.rules[k])(self.neural_output.as_slice());
            out.push(y);
            k = k + 1;
        }
        out
    }
}

} // verus!
