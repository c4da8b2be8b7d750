use vstd::prelude::*;

verus! {

/// A function that registers VPI tasks, waiting in a collection until the
/// simulator starts.
pub struct VpiFunctionNode<F> {
    f: F,
}

impl<F> VpiFunctionNode<F> {
    /// A node that holds `f`.
    pub fn new(f: F) -> (r: Self)
        ensures
            r.function() == f,
    {
        VpiFunctionNode { f }
    }

    /// The function that the node holds.
    pub closed spec fn function(self) -> F {
        self.f
    }
}

/// The functions that register VPI tasks. The most recently pushed comes
/// first.
pub struct VpiFunctionCollection<F> {
    nodes: Vec<VpiFunctionNode<F>>,
}

impl<F> View for VpiFunctionCollection<F> {
    type V = Seq<F>;

    /// The functions in the order in which they are called: the most
    /// recently pushed first.
    closed spec fn view(&self) -> Seq<F> {
        Seq::new(self.nodes@.len(), |i: int| self.nodes@[self.nodes@.len() - 1 - i].f)
    }
}

impl<F> VpiFunctionCollection<F> {
    /// An empty collection.
    pub fn new() -> (r: Self)
        ensures
            r@ == Seq::<F>::empty(),
    {
        let r = VpiFunctionCollection { nodes: Vec::new() };
        proof {
            assert(r@ =~= Seq::<F>::empty());
        }
        r
    }

    /// Puts the node's function in front of the others.
    pub fn push(&mut self, vpi_function_node: VpiFunctionNode<F>)
        ensures
            final(self)@ == seq![vpi_function_node.function()] + old(self)@,
    {
        let ghost f = vpi_function_node.f;
        self.nodes.push(vpi_function_node);
        proof {
            assert(self@ =~= seq![f] + old(self)@);
        }
    }

    /// Calls every function of the collection once, the most recently
    /// pushed first.
    pub fn register_vpi_functions(&self)
        where
            F: Fn(),
        requires
            forall|i: int| 0 <= i < self@.len() ==> call_requires(#[trigger] self@[i], ()),
        ensures
            forall|i: int| 0 <= i < self@.len() ==> call_ensures(#[trigger] self@[i], (), ()),
    {
        let n = self.nodes.len();
        let mut k: usize = 0;
        while k < n
            invariant
                k <= n,
                n == self.nodes@.len(),
                n == self@.len(),
                forall|i: int| 0 <= i < self@.len() ==> call_requires(#[trigger] self@[i], ()),
                forall|i: int| 0 <= i < k ==> call_ensures(#[trigger] self@[i], (), ()),
            decreases n - k,
        {
            let node = &self.nodes[n - 1 - k];
            proof {
                assert(self@[k as int] == node.f);
            }
            (node.f)();
            k = k + 1;
        }
    }
}

/// Pushing `fs[0]`, `fs[1]`, ... in that order onto an empty collection
/// leaves every function in it once, the most recently pushed first:
/// after the pushes the collection is `fs` reversed. `views[i]` is the
/// collection after the first `i` pushes, each related to the one before
/// as `push` states.
pub proof fn law_push_order<F>(fs: Seq<F>, views: Seq<Seq<F>>)
    requires
        views.len() == fs.len() + 1,
        views[0] == Seq::<F>::empty(),
        forall|i: int| 0 <= i < fs.len() ==> #[trigger] views[i + 1] == seq![fs[i]] + views[i],
    ensures
        forall|i: int| 0 <= i <= fs.len() ==> #[trigger] views[i] == fs.take(i).reverse(),
        views[fs.len() as int] == fs.reverse(),
{
    lemma_push_order_prefix(fs, views, fs.len());
    assert(fs.take(fs.len() as int) =~= fs);
}

proof fn lemma_push_order_prefix<F>(fs: Seq<F>, views: Seq<Seq<F>>, n: nat)
    requires
        n <= fs.len(),
        views.len() == fs.len() + 1,
        views[0] == Seq::<F>::empty(),
        forall|i: int| 0 <= i < fs.len() ==> #[trigger] views[i + 1] == seq![fs[i]] + views[i],
    ensures
        forall|i: int| 0 <= i <= n ==> #[trigger] views[i] == fs.take(i).reverse(),
    decreases n,
{
    if n == 0 {
        assert(fs.take(0).reverse() =~= Seq::<F>::empty());
    } else {
        lemma_push_order_prefix(fs, views, (n - 1) as nat);
        let m = n - 1;
        assert(views[m + 1] == seq![fs[m]] + views[m]);
        assert(fs.take(n as int).reverse() =~= seq![fs[m]] + fs.take(m).reverse());
    }
}

} // verus!
