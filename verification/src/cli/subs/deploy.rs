//! Deploying to nodes: which nodes, and how each is addressed.

use vstd::prelude::*;
use vstd::string::*;
use crate::bitte::node::find::{client_of, named_by_any, Needle, NeedleView};
use crate::bitte::node::{BitteNodeView, BitteNodes};
use crate::bitte::{BitteCluster, BitteFind};

verus! {

/// Deploy core and client nodes
#[derive(Debug)]
pub struct Deploy {
    /// (re-)deploy all client nodes
    pub clients: bool,
    /// nodes to deploy; takes one or more needles to match against:
    /// private & public ip, node name and aws client id
    pub nodes: Vec<Needle>,
    /// the Nomad node class to filter clients against
    pub class: Option<String>,
}

/// What a [`Deploy`] holds.
pub struct DeployView {
    pub clients: bool,
    pub nodes: Seq<NeedleView>,
    pub class: Option<Seq<char>>,
}

impl View for Deploy {
    type V = DeployView;

    open spec fn view(&self) -> DeployView {
        DeployView {
            clients: self.clients,
            nodes: self.nodes.deep_view(),
            class: self.class.deep_view(),
        }
    }
}

/// The nodes that a deployment goes to: the client nodes where those are
/// asked for, else the nodes that the needles name.
pub open spec fn deployed(opts: DeployView, nodes: Seq<BitteNodeView>) -> Seq<BitteNodeView> {
    if opts.clients {
        nodes.filter(client_of(opts.class))
    } else {
        nodes.filter(named_by_any(opts.nodes))
    }
}

/// The flake attribute of the script that makes the secrets of the system
/// configuration `nixos`.
pub open spec fn secrets_attribute(nixos: Seq<char>) -> Seq<char> {
    ".#nixosConfigurations.'"@ + nixos + "'.config.secrets.generateScript"@
}

/// The deployment target of the system configuration `nixos` on the host
/// `host`: the configuration's flake attribute, the host and the SSH port.
pub open spec fn target(nixos: Seq<char>, host: Seq<char>) -> Seq<char> {
    ".#"@ + nixos + "@"@ + host + ":22"@
}

/// Picks the nodes of `cluster` that a deployment goes to.
pub fn deploy(opts: Deploy, cluster: BitteCluster) -> (instances: BitteNodes)
    ensures
        instances.deep_view() == deployed(opts@, cluster@.nodes),
{
    if opts.clients {
        cluster.nodes.find_clients(opts.class)
    } else {
        cluster.nodes.find_needles(&opts.nodes)
    }
}

/// Names the script that makes the secrets of the system configuration
/// `nixos`.
pub fn secrets_script(nixos: &str) -> (attribute: String)
    ensures
        attribute@ == secrets_attribute(nixos@),
{
    let mut attribute = String::from_str(".#nixosConfigurations.'");
    attribute.append(nixos);
    attribute.append("'.config.secrets.generateScript");
    attribute
}

/// Names the deployment target of the system configuration `nixos` on the
/// host `host`.
pub fn deploy_target(nixos: &str, host: &str) -> (text: String)
    ensures
        text@ == target(nixos@, host@),
{
    let mut text = String::from_str(".#");
    text.append(nixos);
    text.append("@");
    text.append(host);
    text.append(":22");
    text
}

} // verus!
