//! A feed-forward network of fully connected layers, and its encoding as a
//! flat sequence of weights: for each layer, for each output neuron, its bias
//! followed by the weights of its row.
use vstd::prelude::*;

verus! {

/// The width of one layer of a network.
#[derive(Clone, Copy, Debug)]
pub struct LayerTopology {
    pub neurons: usize,
}

/// A layer as values: the bias of each output neuron, and its row of weights,
/// one for each input.
pub type LayerParts<T> = (Seq<T>, Seq<Seq<T>>);

/// The widths of a topology, in order.
pub open spec fn widths(layers: Seq<LayerTopology>) -> Seq<usize> {
    layers.map_values(|l: LayerTopology| l.neurons)
}

/// The number of weights, biases included, of a layer from `input` to
/// `output` neurons.
pub open spec fn layer_size(input: int, output: int) -> int {
    output * (input + 1)
}

/// The number of weights, biases included, of a network of these widths.
pub open spec fn total_weights(widths: Seq<usize>) -> int
    decreases widths.len(),
{
    if widths.len() < 2 {
        0
    } else {
        total_weights(widths.drop_last()) + layer_size(
            widths[widths.len() - 2] as int,
            widths[widths.len() - 1] as int,
        )
    }
}

/// A layer has a bias and a row of `input` weights for each of its `output`
/// neurons.
pub open spec fn layer_fits<T>(layer: LayerParts<T>, input: int, output: int) -> bool {
    &&& layer.0.len() == output
    &&& layer.1.len() == output
    &&& forall|r: int| 0 <= r < output ==> (#[trigger] layer.1[r]).len() == input
}

/// The layers follow one another as the widths say.
pub open spec fn network_fits<T>(layers: Seq<LayerParts<T>>, widths: Seq<usize>) -> bool {
    &&& widths.len() == layers.len() + 1
    &&& forall|i: int|
        0 <= i < layers.len() ==> layer_fits(#[trigger] layers[i], widths[i] as int, widths[i + 1] as int)
}

/// The flat weights of the first `rows.len()` neurons of a layer: each bias
/// followed by its row.
pub open spec fn encode_rows<T>(biases: Seq<T>, rows: Seq<Seq<T>>) -> Seq<T>
    decreases rows.len(),
{
    if rows.len() == 0 {
        seq![]
    } else {
        encode_rows(biases.take(rows.len() - 1), rows.drop_last()) + seq![biases[rows.len() - 1]]
            + rows.last()
    }
}

/// The flat weights of a layer.
pub open spec fn encode_layer<T>(layer: LayerParts<T>) -> Seq<T> {
    encode_rows(layer.0, layer.1)
}

/// The flat weights of a network: its layers' weights, one layer after the
/// other.
pub open spec fn encode_network<T>(layers: Seq<LayerParts<T>>) -> Seq<T>
    decreases layers.len(),
{
    if layers.len() == 0 {
        seq![]
    } else {
        encode_network(layers.drop_last()) + encode_layer(layers.last())
    }
}

proof fn lemma_encode_rows_len<T>(biases: Seq<T>, rows: Seq<Seq<T>>, input: int)
    requires
        input >= 0,
        biases.len() >= rows.len(),
        forall|r: int| 0 <= r < rows.len() ==> (#[trigger] rows[r]).len() == input,
    ensures
        encode_rows(biases, rows).len() == layer_size(input, rows.len() as int),
    decreases rows.len(),
{
    let n = rows.len() as int;
    if n > 0 {
        let prev = rows.drop_last();
        assert forall|r: int| 0 <= r < prev.len() implies (#[trigger] prev[r]).len() == input by {
            assert(prev[r] == rows[r]);
        }
        lemma_encode_rows_len(biases.take(n - 1), prev, input);
        assert(rows[n - 1].len() == input);
        assert((n - 1) * (input + 1) + 1 + input == n * (input + 1)) by (nonlinear_arith);
    }
}

proof fn lemma_encode_rows_injective<T>(
    b1: Seq<T>,
    r1: Seq<Seq<T>>,
    b2: Seq<T>,
    r2: Seq<Seq<T>>,
    input: int,
)
    requires
        input >= 0,
        layer_fits((b1, r1), input, r1.len() as int),
        layer_fits((b2, r2), input, r1.len() as int),
        encode_rows(b1, r1) == encode_rows(b2, r2),
    ensures
        b1 == b2,
        r1 == r2,
    decreases r1.len(),
{
    let n = r1.len() as int;
    if n == 0 {
        assert(b1 =~= b2);
        assert(r1 =~= r2);
    } else {
        let (p1, q1) = (b1.take(n - 1), r1.drop_last());
        let (p2, q2) = (b2.take(n - 1), r2.drop_last());
        assert forall|r: int| 0 <= r < n - 1 implies (#[trigger] q1[r]).len() == input by {
            assert(q1[r] == r1[r]);
        }
        assert forall|r: int| 0 <= r < n - 1 implies (#[trigger] q2[r]).len() == input by {
            assert(q2[r] == r2[r]);
        }
        lemma_encode_rows_len(p1, q1, input);
        lemma_encode_rows_len(p2, q2, input);
        let e = encode_rows(b1, r1);
        let k = encode_rows(p1, q1).len() as int;
        let t1 = seq![b1[n - 1]] + r1.last();
        let t2 = seq![b2[n - 1]] + r2.last();
        assert(e == encode_rows(p1, q1) + t1);
        assert(e == encode_rows(p2, q2) + t2);
        assert(encode_rows(p1, q1) =~= e.take(k));
        assert(encode_rows(p2, q2) =~= e.take(k));
        assert(t1 =~= e.skip(k));
        assert(t2 =~= e.skip(k));
        assert(b1[n - 1] == t1[0] && b2[n - 1] == t2[0]);
        assert(r1.last() =~= t1.skip(1));
        assert(r2.last() =~= t2.skip(1));
        lemma_encode_rows_injective(p1, q1, p2, q2, input);
        assert(b1 =~= b2) by {
            assert forall|i: int| 0 <= i < n implies b1[i] == b2[i] by {
                if i < n - 1 {
                    assert(p1[i] == b1[i] && p2[i] == b2[i]);
                }
            }
        }
        assert(r1 =~= r2) by {
            assert forall|i: int| 0 <= i < n implies r1[i] == r2[i] by {
                if i < n - 1 {
                    assert(q1[i] == r1[i] && q2[i] == r2[i]);
                }
            }
        }
    }
}

proof fn lemma_encode_network_len<T>(layers: Seq<LayerParts<T>>, widths: Seq<usize>)
    requires
        network_fits(layers, widths),
    ensures
        encode_network(layers).len() == total_weights(widths),
    decreases layers.len(),
{
    let n = layers.len() as int;
    if n > 0 {
        let prev = layers.drop_last();
        let w = widths.drop_last();
        assert forall|i: int| 0 <= i < prev.len() implies layer_fits(
            #[trigger] prev[i],
            w[i] as int,
            w[i + 1] as int,
        ) by {
            assert(prev[i] == layers[i]);
        }
        lemma_encode_network_len(prev, w);
        let last = layers.last();
        assert(layer_fits(layers[n - 1], widths[n - 1] as int, widths[n] as int));
        lemma_encode_rows_len(last.0, last.1, widths[n - 1] as int);
    }
}

/// Decoding is exact: two networks of the same topology whose flat weights
/// are equal are the same network. Reading a network back from its own
/// weights (`Network::from_weights` on `Network::weights`) therefore gives
/// every weight and bias back in place.
pub proof fn lemma_round_trip<T>(
    network: Seq<LayerParts<T>>,
    decoded: Seq<LayerParts<T>>,
    widths: Seq<usize>,
)
    requires
        network_fits(network, widths),
        network_fits(decoded, widths),
        encode_network(decoded) == encode_network(network),
    ensures
        decoded == network,
    decreases network.len(),
{
    let n = network.len() as int;
    if n == 0 {
        assert(decoded =~= network);
    } else {
        let w = widths.drop_last();
        let (p1, p2) = (network.drop_last(), decoded.drop_last());
        assert forall|i: int| 0 <= i < n - 1 implies layer_fits(
            #[trigger] p1[i],
            w[i] as int,
            w[i + 1] as int,
        ) by {
            assert(p1[i] == network[i]);
        }
        assert forall|i: int| 0 <= i < n - 1 implies layer_fits(
            #[trigger] p2[i],
            w[i] as int,
            w[i + 1] as int,
        ) by {
            assert(p2[i] == decoded[i]);
        }
        lemma_encode_network_len(p1, w);
        lemma_encode_network_len(p2, w);
        let e = encode_network(network);
        let k = total_weights(w);
        assert(encode_network(p1) =~= e.take(k));
        assert(encode_network(p2) =~= e.take(k));
        assert(encode_layer(network.last()) =~= e.skip(k));
        assert(encode_layer(decoded.last()) =~= e.skip(k));
        lemma_round_trip(p1, p2, w);
        let (l1, l2) = (network.last(), decoded.last());
        assert(layer_fits(network[n - 1], widths[n - 1] as int, widths[n] as int));
        assert(layer_fits(decoded[n - 1], widths[n - 1] as int, widths[n] as int));
        lemma_encode_rows_injective(l1.0, l1.1, l2.0, l2.1, widths[n - 1] as int);
        assert(l1 == l2);
        assert forall|i: int| 0 <= i < n implies decoded[i] == network[i] by {
            if i < n - 1 {
                assert(p1[i] == network[i] && p2[i] == decoded[i]);
            }
        }
        assert(decoded =~= network);
    }
}

/// One fully connected layer: a bias and a row of input weights for each
/// output neuron.
#[derive(Debug)]
pub struct Layer<T> {
    biases: Vec<T>,
    rows: Vec<Vec<T>>,
}

impl<T> View for Layer<T> {
    type V = LayerParts<T>;

    closed spec fn view(&self) -> LayerParts<T> {
        (self.biases@, self.rows@.map_values(|row: Vec<T>| row@))
    }
}

impl<T> Layer<T> {
    /// Each output neuron has a bias and a row.
    #[verifier::type_invariant]
    spec fn inv(&self) -> bool {
        self.biases@.len() == self.rows@.len()
    }
}

impl<T: Copy> Layer<T> {
    /// Reads a layer from `input_neurons` to `output_neurons` out of `weights`,
    /// starting at `*cursor`, in the order of `weights()`, and moves the cursor
    /// past what it read.
    pub fn from_weights(
        input_neurons: usize,
        output_neurons: usize,
        weights: &Vec<T>,
        cursor: &mut usize,
    ) -> (r: Layer<T>)
        requires
            *old(cursor) + layer_size(input_neurons as int, output_neurons as int) <= weights@.len(),
        ensures
            *final(cursor) == *old(cursor) + layer_size(input_neurons as int, output_neurons as int),
            layer_fits(r@, input_neurons as int, output_neurons as int),
            encode_layer(r@) == weights@.subrange(*old(cursor) as int, *final(cursor) as int),
    {
        let total = weights.len();
        let start = *cursor;
        let ghost width = input_neurons + 1;
        let mut pos = start;
        let mut biases: Vec<T> = Vec::with_capacity(output_neurons);
        let mut rows: Vec<Vec<T>> = Vec::with_capacity(output_neurons);
        let mut r: usize = 0;
        while r < output_neurons
            invariant
                r <= output_neurons,
                start + layer_size(input_neurons as int, output_neurons as int) <= weights@.len(),
                width == input_neurons + 1,
                pos == start + r * width,
                pos <= total,
                total == weights@.len(),
                biases@.len() == r,
                rows@.len() == r,
                forall|j: int| 0 <= j < r ==> (#[trigger] rows@[j])@.len() == input_neurons,
                encode_rows(biases@, rows@.map_values(|row: Vec<T>| row@)) == weights@.subrange(
                    start as int,
                    pos as int,
                ),
            decreases output_neurons - r,
        {
            assert(r * width + width <= output_neurons * width) by (nonlinear_arith)
                requires
                    r < output_neurons,
                    width >= 1,
            ;
            let ghost row_start = pos;
            let bias = weights[pos];
            pos = pos + 1;
            let mut row: Vec<T> = Vec::with_capacity(input_neurons);
            let mut c: usize = 0;
            while c < input_neurons
                invariant
                    c <= input_neurons,
                    pos == row_start + 1 + c,
                    row_start + width <= weights@.len(),
                    total == weights@.len(),
                    width == input_neurons + 1,
                    row@ == weights@.subrange(row_start + 1, pos as int),
                decreases input_neurons - c,
            {
                row.push(weights[pos]);
                pos = pos + 1;
                c = c + 1;
                assert(row@ =~= weights@.subrange(row_start + 1, pos as int));
            }
            let ghost old_biases = biases@;
            let ghost old_rows = rows@.map_values(|row: Vec<T>| row@);
            let ghost new_row = row@;
            biases.push(bias);
            rows.push(row);
            r = r + 1;
            proof {
                let rv = rows@.map_values(|row: Vec<T>| row@);
                assert(rv.drop_last() =~= old_rows);
                assert(biases@.take(r - 1) =~= old_biases);
                assert(rv.last() == new_row);
                assert(encode_rows(biases@, rv) == encode_rows(old_biases, old_rows) + seq![bias]
                    + new_row);
                assert(weights@.subrange(start as int, pos as int) =~= weights@.subrange(
                    start as int,
                    row_start as int,
                ) + seq![bias] + new_row);
                assert(pos == start + r * width) by (nonlinear_arith)
                    requires
                        pos == row_start + 1 + input_neurons,
                        row_start == start + (r - 1) * width,
                        width == input_neurons + 1,
                ;
            }
        }
        *cursor = pos;
        Layer { biases, rows }
    }

    /// The layer's flat weights: for each output neuron, its bias and then
    /// its row.
    pub fn weights(&self) -> (r: Vec<T>)
        ensures
            r@ == encode_layer(self@),
    {
        proof {
            use_type_invariant(self);
        }
        let ghost rv = self.rows@.map_values(|row: Vec<T>| row@);
        let n = self.rows.len();
        let mut out: Vec<T> = Vec::new();
        let mut r: usize = 0;
        while r < n
            invariant
                r <= n,
                n == self.rows@.len(),
                n == self.biases@.len(),
                rv == self.rows@.map_values(|row: Vec<T>| row@),
                out@ == encode_rows(self.biases@.take(r as int), rv.take(r as int)),
            decreases n - r,
        {
            let ghost before = out@;
            out.push(self.biases[r]);
            let row = &self.rows[r];
            let mut c: usize = 0;
            while c < row.len()
                invariant
                    r < n,
                    n == self.biases@.len(),
                    c <= row@.len(),
                    out@ == before + seq![self.biases@[r as int]] + row@.take(c as int),
                decreases row@.len() - c,
            {
                out.push(row[c]);
                c = c + 1;
                assert(out@ =~= before + seq![self.biases@[r as int]] + row@.take(c as int));
            }
            proof {
                let (b, q) = (self.biases@.take(r + 1), rv.take(r + 1));
                assert(b.take(r as int) =~= self.biases@.take(r as int));
                assert(q.drop_last() =~= rv.take(r as int));
                assert(row@.take(c as int) =~= row@);
                assert(q.last() == row@);
            }
            r = r + 1;
        }
        assert(rv.take(r as int) =~= rv);
        assert(self.biases@.take(r as int) =~= self.biases@);
        out
    }

    /// The bias of each output neuron.
    pub fn biases(&self) -> (r: &Vec<T>)
        ensures
            r@ == self@.0,
    {
        &self.biases
    }

    /// The row of input weights of each output neuron.
    pub fn rows(&self) -> (r: &Vec<Vec<T>>)
        ensures
            r@.map_values(|row: Vec<T>| row@) == self@.1,
    {
        &self.rows
    }
}

proof fn lemma_total_weights_step(widths: Seq<usize>, i: int)
    requires
        2 <= i <= widths.len(),
    ensures
        total_weights(widths.take(i)) == total_weights(widths.take(i - 1)) + layer_size(
            widths[i - 2] as int,
            widths[i - 1] as int,
        ),
{
    assert(widths.take(i).drop_last() =~= widths.take(i - 1));
}

proof fn lemma_total_weights_prefix(widths: Seq<usize>, i: int)
    requires
        1 <= i <= widths.len(),
    ensures
        total_weights(widths.take(i)) <= total_weights(widths),
    decreases widths.len() - i,
{
    if i < widths.len() {
        lemma_total_weights_prefix(widths, i + 1);
        lemma_total_weights_step(widths, i + 1);
        let (x, y) = (widths[i - 1] as int, widths[i as int] as int);
        assert(layer_size(x, y) >= 0) by (nonlinear_arith)
            requires
                x >= 0,
                y >= 0,
        ;
    } else {
        assert(widths.take(i) =~= widths);
    }
}

/// A stack of fully connected layers, each feeding the next.
#[derive(Debug)]
pub struct Network<T> {
    layers: Vec<Layer<T>>,
}

impl<T> View for Network<T> {
    type V = Seq<LayerParts<T>>;

    closed spec fn view(&self) -> Seq<LayerParts<T>> {
        self.layers@.map_values(|layer: Layer<T>| layer@)
    }
}

impl<T: Copy> Network<T> {
    /// How many weights, biases included, a network of this topology holds;
    /// `None` when the number does not fit in `usize`.
    pub fn weight_count(layers: &Vec<LayerTopology>) -> (r: Option<usize>)
        ensures
            r matches Some(n) ==> n == total_weights(widths(layers@)),
            r is None ==> total_weights(widths(layers@)) > usize::MAX,
    {
        let ghost w = widths(layers@);
        if layers.len() < 2 {
            return Some(0);
        }
        let mut count: usize = 0;
        let mut i: usize = 1;
        while i < layers.len()
            invariant
                1 <= i <= layers@.len(),
                w == widths(layers@),
                count == total_weights(w.take(i as int)),
            decreases layers@.len() - i,
        {
            proof {
                lemma_total_weights_step(w, i + 1);
                lemma_total_weights_prefix(w, i + 1);
            }
            let input = layers[i - 1].neurons;
            let output = layers[i].neurons;
            let size: Option<usize> = if output == 0 {
                Some(0)
            } else {
                match input.checked_add(1) {
                    Some(width) => output.checked_mul(width),
                    None => None,
                }
            };
            proof {
                if output == 0 {
                    assert(layer_size(input as int, 0) == 0) by (nonlinear_arith);
                }
                assert(size matches Some(z) ==> z == layer_size(input as int, output as int));
            }
            match size {
                Some(size) => match count.checked_add(size) {
                    Some(next) => count = next,
                    None => return None,
                },
                None => {
                    proof {
                        assert(output * (input + 1) >= input + 1) by (nonlinear_arith)
                            requires
                                output >= 1,
                                input >= 0,
                        ;
                    }
                    return None;
                },
            }
            i = i + 1;
        }
        assert(w.take(i as int) =~= w);
        Some(count)
    }

    /// Rebuilds a network of the given topology from flat weights in the
    /// order of `weights()`. Every weight is read, none is left over.
    pub fn from_weights(layers: &Vec<LayerTopology>, weights: Vec<T>) -> (r: Network<T>)
        requires
            layers@.len() > 1,
            weights@.len() == total_weights(widths(layers@)),
        ensures
            network_fits(r@, widths(layers@)),
            encode_network(r@) == weights@,
    {
        let ghost w = widths(layers@);
        let mut built: Vec<Layer<T>> = Vec::with_capacity(layers.len() - 1);
        let mut pos: usize = 0;
        let mut i: usize = 1;
        assert(w.take(1).len() < 2);
        assert(weights@.take(0) =~= seq![]);
        while i < layers.len()
            invariant
                1 <= i <= layers@.len(),
                w == widths(layers@),
                weights@.len() == total_weights(w),
                built@.len() == i - 1,
                pos == total_weights(w.take(i as int)),
                network_fits(built@.map_values(|layer: Layer<T>| layer@), w.take(i as int)),
                encode_network(built@.map_values(|layer: Layer<T>| layer@)) == weights@.take(
                    pos as int,
                ),
            decreases layers@.len() - i,
        {
            proof {
                lemma_total_weights_step(w, i + 1);
                lemma_total_weights_prefix(w, i + 1);
            }
            let ghost before = built@.map_values(|layer: Layer<T>| layer@);
            let ghost old_pos = pos;
            let layer = Layer::from_weights(layers[i - 1].neurons, layers[i].neurons, &weights, &mut pos);
            let ghost lv = layer@;
            built.push(layer);
            i = i + 1;
            proof {
                let now = built@.map_values(|layer: Layer<T>| layer@);
                assert(now.drop_last() =~= before);
                assert(now.last() == lv);
                assert(weights@.take(pos as int) =~= weights@.take(old_pos as int)
                    + weights@.subrange(old_pos as int, pos as int));
                let wt = w.take(i as int);
                assert forall|j: int| 0 <= j < now.len() implies layer_fits(
                    #[trigger] now[j],
                    wt[j] as int,
                    wt[j + 1] as int,
                ) by {
                    if j < now.len() - 1 {
                        assert(now[j] == before[j]);
                    }
                }
            }
        }
        assert(w.take(i as int) =~= w);
        assert(weights@.take(pos as int) =~= weights@);
        Network { layers: built }
    }

    /// The network's flat weights: each layer's weights, in order.
    pub fn weights(&self) -> (r: Vec<T>)
        ensures
            r@ == encode_network(self@),
    {
        let ghost v = self@;
        let mut out: Vec<T> = Vec::new();
        let mut i: usize = 0;
        while i < self.layers.len()
            invariant
                i <= self.layers@.len(),
                v == self@,
                v == self.layers@.map_values(|layer: Layer<T>| layer@),
                out@ == encode_network(v.take(i as int)),
            decreases self.layers@.len() - i,
        {
            let mut part = self.layers[i].weights();
            let ghost before = out@;
            out.append(&mut part);
            proof {
                assert(v.take(i + 1).drop_last() =~= v.take(i as int));
                assert(v.take(i + 1).last() == v[i as int]);
            }
            i = i + 1;
        }
        assert(v.take(i as int) =~= v);
        out
    }

    /// The layers, first to last.
    pub fn layers(&self) -> (r: &Vec<Layer<T>>)
        ensures
            r@.map_values(|layer: Layer<T>| layer@) == self@,
    {
        &self.layers
    }
}

} // verus!
