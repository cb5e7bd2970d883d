//! How a node of the registration center is configured.

use vstd::prelude::*;

verus! {

/// The configuration of one node of the registration center: its own
/// address, the addresses of all nodes of the cluster, and how many shares
/// of the master key it takes to put the key together again.
#[derive(Debug)]
pub struct RcConfig {
    pub addr: String,
    pub nodes: Vec<String>,
    pub threshold: usize,
}

/// The addresses among `nodes` that differ from `addr`, in their order.
pub open spec fn other_nodes(nodes: Seq<Seq<char>>, addr: Seq<char>) -> Seq<Seq<char>> {
    nodes.filter(|node: Seq<char>| node != addr)
}

impl RcConfig {
    /// The addresses of the other nodes: every node but this one, in the
    /// order of the configuration.
    pub fn peers(&self) -> (r: Vec<String>)
        ensures
            r.deep_view() == other_nodes(self.nodes.deep_view(), self.addr@),
    {
        let ghost keep = |node: Seq<char>| node != self.addr@;
        let ghost all = self.nodes.deep_view();
        let mut out: Vec<String> = Vec::new();
        let mut i: usize = 0;
        proof {
            reveal_with_fuel(Seq::filter, 1);
            assert(all.subrange(0, 0) =~= Seq::<Seq<char>>::empty());
            assert(out.deep_view() =~= Seq::<Seq<char>>::empty());
        }
        while i < self.nodes.len()
            invariant
                i <= self.nodes.len(),
                all == self.nodes.deep_view(),
                all.len() == self.nodes.len(),
                keep == |node: Seq<char>| node != self.addr@,
                out.deep_view() == all.subrange(0, i as int).filter(keep),
            decreases self.nodes.len() - i,
        {
            let node = &self.nodes[i];
            let ghost before = out.deep_view();
            proof {
                let next = all.subrange(0, i + 1);
                assert(next.drop_last() =~= all.subrange(0, i as int));
                assert(next.last() == node@);
                reveal_with_fuel(Seq::filter, 1);
            }
            if *node != self.addr {
                out.push(node.clone());
                assert(out.deep_view() =~= before.push(node@));
            }
            i += 1;
        }
        assert(all.subrange(0, i as int) =~= all);
        out
    }
}

} // verus!
