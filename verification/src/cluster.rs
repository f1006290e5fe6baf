//! The cluster manifest: the one node that this server is, with the whole
//! range of slots.

use vstd::prelude::*;
use vstd::string::*;
use crate::configuration::SodiumConfig;
use crate::node_id::{are_picks, generate_node_id, is_node_id, node_id_of};
use crate::text::decimal;

verus! {

/// The last slot of a cluster.
pub const LAST_SLOT: u32 = 16383;

/// One node of the cluster.
#[derive(Debug, Clone, PartialEq, Eq)]
pub struct ClusterNode {
    pub node_id: String,
    pub node_validation: u32,
    pub address: String,
    pub slots: [u32; 2],
}

/// The cluster as the manifest describes it.
#[derive(Debug, Clone, PartialEq, Eq)]
pub struct ClusterConfig {
    pub cluster_validation: u32,
    pub nodes: Vec<ClusterNode>,
}

impl ClusterNode {
    /// The node that serves every slot at `address` under the name
    /// `node_id`.
    pub fn new(node_id: String, address: String) -> (node: ClusterNode)
        ensures
            node.node_id == node_id,
            node.address == address,
            node.node_validation == 0,
            node.slots@ == seq![0u32, LAST_SLOT],
    {
        let node = ClusterNode { node_id, node_validation: 0, address, slots: [0, LAST_SLOT] };
        assert(node.slots@ =~= seq![0u32, LAST_SLOT]);
        node
    }
}

impl ClusterConfig {
    /// The cluster of one node.
    pub fn single(node: ClusterNode) -> (cluster: ClusterConfig)
        ensures
            cluster.cluster_validation == 0,
            cluster.nodes@ == seq![node],
    {
        let mut nodes: Vec<ClusterNode> = Vec::new();
        nodes.push(node);
        assert(nodes@ =~= seq![node]);
        ClusterConfig { cluster_validation: 0, nodes }
    }
}

/// Describes the cluster that a server with these settings forms alone
/// under the identifier `node_id`: one node, at the server's address,
/// serving every slot.
pub fn manifest_for(config: &SodiumConfig, node_id: String) -> (cluster: ClusterConfig)
    ensures
        cluster.cluster_validation == 0,
        cluster.nodes@.len() == 1,
        cluster.nodes@[0].node_id == node_id,
        cluster.nodes@[0].node_validation == 0,
        cluster.nodes@[0].address@ == config@.bind_ip + ":"@ + decimal(config@.bind_port as nat),
        cluster.nodes@[0].slots@ == seq![0u32, LAST_SLOT],
{
    let node = ClusterNode::new(node_id, config.bind_address());
    ClusterConfig::single(node)
}

/// Describes the cluster that a server with these settings forms alone: one
/// node with a freshly drawn identifier, at the server's address, serving
/// every slot.
pub fn cluster_manifest(config: &SodiumConfig) -> (cluster: ClusterConfig)
    ensures
        cluster.cluster_validation == 0,
        cluster.nodes@.len() == 1,
        is_node_id(cluster.nodes@[0].node_id@),
        exists|picks: Seq<int>|
            are_picks(picks) && cluster.nodes@[0].node_id@ == node_id_of(picks),
        cluster.nodes@[0].node_validation == 0,
        cluster.nodes@[0].address@ == config@.bind_ip + ":"@ + decimal(config@.bind_port as nat),
        cluster.nodes@[0].slots@ == seq![0u32, LAST_SLOT],
{
    let node_id = generate_node_id();
    let ghost picks = choose|picks: Seq<int>| are_picks(picks) && node_id@ == node_id_of(picks);
    let cluster = manifest_for(config, node_id);
    assert(are_picks(picks) && cluster.nodes@[0].node_id@ == node_id_of(picks));
    cluster
}

} // verus!
