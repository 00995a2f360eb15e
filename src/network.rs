use crate::matrix::{entries_of, shape_of, Matrix};
use crate::random::next_draw;
use vstd::prelude::*;

verus! {

/// Entries are fixed-point fractions: an entry `n` stands for the real number
/// `n / FRACTION_SCALE`, so the entries below `FRACTION_SCALE` are the reals of `[0, 1)`.
pub const FRACTION_SCALE: u64 = 9007199254740992;

/// Dividing a 64-bit draw by this drops its 11 low-order bits and keeps the 53 high ones.
pub const DROPPED_BITS_DIVISOR: u64 = 2048;

/// The fraction made from a uniformly drawn 64-bit word: its 53 most significant bits.
/// This is the construction by which `rand` turns one such word into an `f64` in `[0, 1)`.
pub open spec fn fraction_of(draw: u64) -> u64 {
    draw / DROPPED_BITS_DIVISOR
}

/// Computes `fraction_of(draw)`.
pub fn fraction_of_draw(draw: u64) -> (r: u64)
    ensures
        r == fraction_of(draw),
        r < FRACTION_SCALE,
{
    draw / DROPPED_BITS_DIVISOR
}

/// Why a network could not be built.
#[derive(Debug, PartialEq, Eq, Structural)]
pub enum TopologyError {
    /// The layer sizes are fewer than two, or one of them is zero.
    InvalidTopology,
}

/// A topology: at least two layers (the input layer and one more), none of them empty.
pub open spec fn valid_topology(sizes: Seq<usize>) -> bool {
    sizes.len() >= 2 && forall|i: int| 0 <= i < sizes.len() ==> sizes[i] > 0
}

/// The number of biases of the first `n` layers after the input layer.
pub open spec fn bias_count(sizes: Seq<usize>, n: nat) -> nat
    decreases n,
{
    if n == 0 {
        0
    } else {
        (bias_count(sizes, (n - 1) as nat) + sizes[n as int]) as nat
    }
}

/// The number of weights of the first `n` transitions between consecutive layers.
pub open spec fn weight_count(sizes: Seq<usize>, n: nat) -> nat
    decreases n,
{
    if n == 0 {
        0
    } else {
        (weight_count(sizes, (n - 1) as nat) + sizes[n as int] * sizes[n - 1]) as nat
    }
}

/// The number of transitions between consecutive layers.
pub open spec fn transitions(sizes: Seq<usize>) -> nat {
    if sizes.len() == 0 {
        0
    } else {
        (sizes.len() - 1) as nat
    }
}

/// The number of biases and weights of a network of the given topology.
pub open spec fn parameter_count(sizes: Seq<usize>) -> nat {
    bias_count(sizes, transitions(sizes)) + weight_count(sizes, transitions(sizes))
}

/// Where the draws for the biases of transition `i` begin: biases come first, layer by
/// layer.
pub open spec fn bias_offset(sizes: Seq<usize>, i: int) -> int {
    bias_count(sizes, i as nat) as int
}

/// Where the draws for the weights of transition `i` begin: after all biases, layer by
/// layer.
pub open spec fn weight_offset(sizes: Seq<usize>, i: int) -> int {
    (bias_count(sizes, transitions(sizes)) + weight_count(sizes, i as nat)) as int
}

/// The fractions made from `len` consecutive draws starting at `start`.
pub open spec fn fractions(draws: Seq<u64>, start: int, len: int) -> Seq<u64> {
    draws.subrange(start, start + len).map_values(|d: u64| fraction_of(d))
}

proof fn lemma_counts_grow(sizes: Seq<usize>, a: nat, b: nat)
    requires
        a <= b < sizes.len(),
    ensures
        bias_count(sizes, a) <= bias_count(sizes, b),
        weight_count(sizes, a) <= weight_count(sizes, b),
    decreases b - a,
{
    if a < b {
        lemma_counts_grow(sizes, a, (b - 1) as nat);
        assert(sizes[b as int] * sizes[b - 1] >= 0) by (nonlinear_arith);
    }
}

/// A matrix of `rows * cols` fractions, made in row-major order from the draws that start
/// at `start`.
fn fraction_matrix(rows: usize, cols: usize, draws: &Vec<u64>, start: usize) -> (r: Matrix)
    requires
        rows > 0,
        cols > 0,
        start + rows * cols <= draws@.len(),
    ensures
        shape_of(r) == (rows, cols),
        entries_of(r) == fractions(draws@, start as int, rows * cols),
{
    assert(rows * cols >= 0) by (nonlinear_arith);
    let total: usize = draws.len();
    let len: usize = rows * cols;
    let mut v: Vec<u64> = Vec::new();
    let mut k: usize = 0;
    while k < len
        invariant
            len == rows * cols,
            start + len <= draws@.len(),
            total == draws@.len(),
            k <= len,
            v@ == fractions(draws@, start as int, k as int),
        decreases len - k,
    {
        v.push(fraction_of_draw(draws[start + k]));
        k += 1;
        assert(v@ =~= fractions(draws@, start as int, k as int));
    }
    Matrix::from_shape_vec(rows, cols, v)
}

/// Every entry of `m` lies in `[0, 1)`.
pub open spec fn fractions_only(m: Matrix) -> bool {
    forall|k: int| 0 <= k < entries_of(m).len() ==> #[trigger] entries_of(m)[k] < FRACTION_SCALE
}

/// Appends `n` fresh draws of `rng` to `draws`.
fn push_draws(rng: &mut rand::rngs::ThreadRng, draws: &mut Vec<u64>, n: usize)
    ensures
        final(draws)@.len() == old(draws)@.len() + n,
{
    let ghost start = draws@.len();
    let mut k: usize = 0;
    while k < n
        invariant
            k <= n,
            draws@.len() == start + k,
        decreases n - k,
    {
        draws.push(next_draw(rng));
        k += 1;
    }
}

/// The parameters of a feedforward network: for each transition `i` from layer `i` to
/// layer `i + 1`, a bias column `biases[i]` of shape `(sizes[i + 1], 1)` and a weight
/// matrix `weights[i]` of shape `(sizes[i + 1], sizes[i])` (row: destination neuron,
/// column: source neuron). Every entry is a fraction (see `FRACTION_SCALE`).
#[derive(Debug)]
pub struct Network {
    pub num_layers: usize,
    pub sizes: Vec<usize>,
    pub biases: Vec<Matrix>,
    pub weights: Vec<Matrix>,
}

impl Network {
    /// One bias matrix and one weight matrix per transition, with the shapes that the
    /// topology gives, each holding as many entries as its shape says.
    pub open spec fn shapes_fit(&self) -> bool {
        let sizes = self.sizes@;
        &&& self.num_layers == sizes.len()
        &&& self.biases@.len() == transitions(sizes)
        &&& self.weights@.len() == transitions(sizes)
        &&& forall|i: int|
            0 <= i < transitions(sizes) ==> {
                &&& #[trigger] shape_of(self.biases@[i]) == (sizes[i + 1], 1usize)
                &&& entries_of(self.biases@[i]).len() == sizes[i + 1]
            }
        &&& forall|i: int|
            0 <= i < transitions(sizes) ==> {
                &&& #[trigger] shape_of(self.weights@[i]) == (sizes[i + 1], sizes[i])
                &&& entries_of(self.weights@[i]).len() == sizes[i + 1] * sizes[i]
            }
    }

    /// Every bias and every weight lies in `[0, 1)`.
    pub open spec fn entries_are_fractions(&self) -> bool {
        &&& forall|i: int| 0 <= i < self.biases@.len() ==> fractions_only(#[trigger] self.biases@[i])
        &&& forall|i: int|
            0 <= i < self.weights@.len() ==> fractions_only(#[trigger] self.weights@[i])
    }

    /// The network's invariant.
    pub open spec fn wf(&self) -> bool {
        valid_topology(self.sizes@) && self.shapes_fit() && self.entries_are_fractions()
    }

    /// The entries are the fractions of `draws` taken in order: all biases layer by layer,
    /// then all weights layer by layer, each matrix in row-major order.
    pub open spec fn made_from(&self, draws: Seq<u64>) -> bool {
        let sizes = self.sizes@;
        &&& forall|i: int|
            0 <= i < transitions(sizes) ==> #[trigger] entries_of(self.biases@[i]) == fractions(
                draws,
                bias_offset(sizes, i),
                sizes[i + 1] as int,
            )
        &&& forall|i: int|
            0 <= i < transitions(sizes) ==> #[trigger] entries_of(self.weights@[i]) == fractions(
                draws,
                weight_offset(sizes, i),
                sizes[i + 1] * sizes[i],
            )
    }

    /// Builds the network of topology `sizes` whose entries are the fractions of `draws`
    /// taken in order: all biases layer by layer, then all weights layer by layer, each
    /// matrix in row-major order. Fails exactly on an invalid topology.
    pub fn from_draws(sizes: Vec<usize>, draws: &Vec<u64>) -> (r: Result<Network, TopologyError>)
        requires
            valid_topology(sizes@) ==> parameter_count(sizes@) <= draws@.len(),
        ensures
            r is Err <==> !valid_topology(sizes@),
            r matches Err(e) ==> e == TopologyError::InvalidTopology,
            r matches Ok(net) ==> net.wf() && net.sizes@ == sizes@ && net.made_from(draws@),
    {
        if !is_valid_topology(&sizes) {
            return Err(TopologyError::InvalidTopology);
        }
        let ghost s = sizes@;
        let total: usize = draws.len();
        let n: usize = sizes.len();
        let t: usize = n - 1;
        let mut pos: usize = 0;
        let mut biases: Vec<Matrix> = Vec::new();
        let mut i: usize = 0;
        while i < t
            invariant
                s == sizes@,
                valid_topology(s),
                n == s.len(),
                t == transitions(s),
                i <= t,
                parameter_count(s) <= draws@.len(),
                total == draws@.len(),
                pos == bias_count(s, i as nat),
                biases@.len() == i,
                forall|j: int|
                    0 <= j < i ==> {
                        &&& #[trigger] shape_of(biases@[j]) == (s[j + 1], 1usize)
                        &&& entries_of(biases@[j]) == fractions(
                            draws@,
                            bias_offset(s, j),
                            s[j + 1] as int,
                        )
                    },
            decreases t - i,
        {
            proof {
                lemma_counts_grow(s, (i + 1) as nat, t as nat);
            }
            let rows: usize = sizes[i + 1];
            let m = fraction_matrix(rows, 1, draws, pos);
            biases.push(m);
            pos = pos + rows;
            i += 1;
        }
        let mut weights: Vec<Matrix> = Vec::new();
        i = 0;
        while i < t
            invariant
                s == sizes@,
                valid_topology(s),
                n == s.len(),
                t == transitions(s),
                i <= t,
                parameter_count(s) <= draws@.len(),
                total == draws@.len(),
                pos == bias_count(s, t as nat) + weight_count(s, i as nat),
                weights@.len() == i,
                forall|j: int|
                    0 <= j < i ==> {
                        &&& #[trigger] shape_of(weights@[j]) == (s[j + 1], s[j])
                        &&& entries_of(weights@[j]) == fractions(
                            draws@,
                            weight_offset(s, j),
                            s[j + 1] * s[j],
                        )
                    },
            decreases t - i,
        {
            proof {
                lemma_counts_grow(s, (i + 1) as nat, t as nat);
            }
            let rows: usize = sizes[i + 1];
            let cols: usize = sizes[i];
            let m = fraction_matrix(rows, cols, draws, pos);
            weights.push(m);
            pos = pos + rows * cols;
            i += 1;
        }
        let net = Network { num_layers: n, sizes, biases, weights };
        proof {
            assert forall|j: int| 0 <= j < t implies {
                &&& entries_of(net.biases@[j]).len() == s[j + 1]
                &&& forall|k: int|
                    0 <= k < entries_of(net.biases@[j]).len()
                        ==> entries_of(net.biases@[j])[k] < FRACTION_SCALE
            } by {
                assert(shape_of(net.biases@[j]) == (s[j + 1], 1usize));
                lemma_counts_grow(s, (j + 1) as nat, t as nat);
                lemma_fractions_below_scale(draws@, bias_offset(s, j), s[j + 1] as int);
            }
            assert forall|j: int| 0 <= j < t implies {
                &&& entries_of(net.weights@[j]).len() == s[j + 1] * s[j]
                &&& forall|k: int|
                    0 <= k < entries_of(net.weights@[j]).len()
                        ==> entries_of(net.weights@[j])[k] < FRACTION_SCALE
            } by {
                assert(shape_of(net.weights@[j]) == (s[j + 1], s[j]));
                lemma_counts_grow(s, (j + 1) as nat, t as nat);
                assert(s[j + 1] * s[j] >= 0) by (nonlinear_arith);
                lemma_fractions_below_scale(draws@, weight_offset(s, j), s[j + 1] * s[j]);
            }
            assert forall|j: int| 0 <= j < t implies #[trigger] entries_of(net.biases@[j])
                == fractions(draws@, bias_offset(s, j), s[j + 1] as int) by {
                assert(shape_of(net.biases@[j]) == (s[j + 1], 1usize));
            }
            assert forall|j: int| 0 <= j < t implies #[trigger] entries_of(net.weights@[j])
                == fractions(draws@, weight_offset(s, j), s[j + 1] * s[j]) by {
                assert(shape_of(net.weights@[j]) == (s[j + 1], s[j]));
            }
        }
        Ok(net)
    }

    /// Builds a network of topology `sizes` with every bias and weight drawn independently
    /// and uniformly from `[0, 1)` by the thread's random generator: all biases layer by
    /// layer, then all weights layer by layer, each matrix in row-major order. Fails
    /// exactly on an invalid topology.
    pub fn new(sizes: Vec<usize>) -> (r: Result<Network, TopologyError>)
        ensures
            r is Err <==> !valid_topology(sizes@),
            r matches Err(e) ==> e == TopologyError::InvalidTopology,
            r matches Ok(net) ==> net.wf() && net.sizes@ == sizes@,
    {
        if !is_valid_topology(&sizes) {
            return Err(TopologyError::InvalidTopology);
        }
        let ghost s = sizes@;
        let t: usize = sizes.len() - 1;
        let mut rng = rand::thread_rng();
        let mut draws: Vec<u64> = Vec::new();
        let mut i: usize = 0;
        while i < t
            invariant
                s == sizes@,
                t == transitions(s),
                i <= t,
                draws@.len() == bias_count(s, i as nat),
            decreases t - i,
        {
            push_draws(&mut rng, &mut draws, sizes[i + 1]);
            i += 1;
        }
        i = 0;
        while i < t
            invariant
                s == sizes@,
                t == transitions(s),
                i <= t,
                draws@.len() == bias_count(s, t as nat) + weight_count(s, i as nat),
            decreases t - i,
        {
            let rows: usize = sizes[i + 1];
            let cols: usize = sizes[i];
            let mut row: usize = 0;
            while row < rows
                invariant
                    s == sizes@,
                    t == transitions(s),
                    i < t,
                    rows == s[i + 1],
                    cols == s[i as int],
                    row <= rows,
                    draws@.len() == bias_count(s, t as nat) + weight_count(s, i as nat) + row
                        * cols,
                decreases rows - row,
            {
                push_draws(&mut rng, &mut draws, cols);
                assert(row * cols + cols == (row + 1) * cols) by (nonlinear_arith);
                row += 1;
            }
            i += 1;
        }
        Network::from_draws(sizes, &draws)
    }

    /// The shape of the bias column of transition `layer`: one row per neuron of layer
    /// `layer + 1`.
    pub fn bias_shape(&self, layer: usize) -> (r: (usize, usize))
        requires
            self.wf(),
            layer < self.biases@.len(),
        ensures
            r == (self.sizes@[layer + 1], 1usize),
    {
        self.biases[layer].dim()
    }

    /// The shape of the weight matrix of transition `layer`: one row per neuron of layer
    /// `layer + 1`, one column per neuron of layer `layer`.
    pub fn weight_shape(&self, layer: usize) -> (r: (usize, usize))
        requires
            self.wf(),
            layer < self.weights@.len(),
        ensures
            r == (self.sizes@[layer + 1], self.sizes@[layer as int]),
    {
        self.weights[layer].dim()
    }

    /// The bias of neuron `neuron` of layer `layer + 1`.
    pub fn bias(&self, layer: usize, neuron: usize) -> (r: u64)
        requires
            self.wf(),
            layer < self.biases@.len(),
            neuron < self.sizes@[layer + 1],
        ensures
            r == entries_of(self.biases@[layer as int])[neuron as int],
            r < FRACTION_SCALE,
    {
        assert(shape_of(self.biases@[layer as int]) == (self.sizes@[layer + 1], 1usize));
        self.biases[layer].get(neuron, 0)
    }

    /// The weight from neuron `from` of layer `layer` to neuron `to` of layer `layer + 1`.
    pub fn weight(&self, layer: usize, to: usize, from: usize) -> (r: u64)
        requires
            self.wf(),
            layer < self.weights@.len(),
            to < self.sizes@[layer + 1],
            from < self.sizes@[layer as int],
        ensures
            r == entries_of(self.weights@[layer as int])[to * self.sizes@[layer as int] + from],
            r < FRACTION_SCALE,
    {
        let ghost s = self.sizes@;
        let ghost l = layer as int;
        assert(shape_of(self.weights@[l]) == (s[l + 1], s[l]));
        assert(to * s[l] + from < s[l + 1] * s[l]) by (nonlinear_arith)
            requires
                to < s[l + 1],
                from < s[l],
        ;
        self.weights[layer].get(to, from)
    }
}

proof fn lemma_fractions_below_scale(draws: Seq<u64>, start: int, len: int)
    requires
        0 <= start,
        0 <= len,
        start + len <= draws.len(),
    ensures
        fractions(draws, start, len).len() == len,
        forall|k: int|
            0 <= k < len ==> #[trigger] fractions(draws, start, len)[k] < FRACTION_SCALE,
{
    assert forall|k: int| 0 <= k < len implies #[trigger] fractions(draws, start, len)[k]
        < FRACTION_SCALE by {
        let d = draws[start + k];
        assert(d / DROPPED_BITS_DIVISOR < FRACTION_SCALE);
    }
}

/// The number of biases and weights of a network of topology `sizes`, that is, how many
/// draws `Network::from_draws` reads; `None` where it does not fit in `usize`.
pub fn count_parameters(sizes: &Vec<usize>) -> (r: Option<usize>)
    ensures
        r == (if parameter_count(sizes@) <= usize::MAX {
            Some(parameter_count(sizes@) as usize)
        } else {
            None::<usize>
        }),
{
    if sizes.len() == 0 {
        return Some(0);
    }
    let t: usize = sizes.len() - 1;
    let mut biases: usize = 0;
    let mut i: usize = 0;
    while i < t
        invariant
            t == transitions(sizes@),
            i <= t,
            biases == bias_count(sizes@, i as nat),
        decreases t - i,
    {
        proof {
            lemma_counts_grow(sizes@, (i + 1) as nat, t as nat);
        }
        match biases.checked_add(sizes[i + 1]) {
            Some(b) => biases = b,
            None => return None,
        }
        i += 1;
    }
    let mut total: usize = biases;
    i = 0;
    while i < t
        invariant
            t == transitions(sizes@),
            i <= t,
            total == bias_count(sizes@, t as nat) + weight_count(sizes@, i as nat),
        decreases t - i,
    {
        proof {
            lemma_counts_grow(sizes@, (i + 1) as nat, t as nat);
        }
        match sizes[i + 1].checked_mul(sizes[i]) {
            Some(w) => match total.checked_add(w) {
                Some(sum) => total = sum,
                None => return None,
            },
            None => return None,
        }
        i += 1;
    }
    Some(total)
}

/// Tells whether `sizes` is a valid topology.
pub fn is_valid_topology(sizes: &Vec<usize>) -> (r: bool)
    ensures
        r == valid_topology(sizes@),
{
    if sizes.len() < 2 {
        return false;
    }
    let mut i: usize = 0;
    while i < sizes.len()
        invariant
            i <= sizes@.len(),
            forall|j: int| 0 <= j < i ==> sizes@[j] > 0,
        decreases sizes@.len() - i,
    {
        if sizes[i] == 0 {
            return false;
        }
        i += 1;
    }
    true
}

} // verus!
