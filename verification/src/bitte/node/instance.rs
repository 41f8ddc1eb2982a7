//! Instance records of the cloud inventory, and the nodes made from them.

use vstd::prelude::*;
use vstd::string::*;
use vstd::std_specs::convert::FromSpecImpl;
use crate::address::IpAddress;
use crate::bitte::node::{BitteNode, BitteNodeView};
use crate::search::first_of;
use crate::text::{copy_or_empty, copy_text, holds_text, or_empty};

verus! {

/// A label on an instance.
#[derive(Debug, PartialEq, Eq)]
pub struct Tag {
    pub key: Option<String>,
    pub value: Option<String>,
}

/// Where an instance has been placed.
#[derive(Debug, PartialEq, Eq)]
pub struct Placement {
    pub availability_zone: Option<String>,
}

/// One instance as the cloud inventory describes it. An address is missing
/// where the inventory gave none, or gave a text that is no IP address.
#[derive(Debug, PartialEq, Eq)]
pub struct Instance {
    pub instance_id: Option<String>,
    pub tags: Option<Vec<Tag>>,
    pub private_ip_address: Option<IpAddress>,
    pub public_ip_address: Option<IpAddress>,
    pub instance_type: Option<String>,
    pub placement: Option<Placement>,
}

/// What a [`Tag`] holds.
pub struct TagView {
    pub key: Option<Seq<char>>,
    pub value: Option<Seq<char>>,
}

/// What a [`Placement`] holds.
pub struct PlacementView {
    pub availability_zone: Option<Seq<char>>,
}

/// What an [`Instance`] holds.
pub struct InstanceView {
    pub instance_id: Option<Seq<char>>,
    pub tags: Option<Seq<TagView>>,
    pub private_ip_address: Option<IpAddress>,
    pub public_ip_address: Option<IpAddress>,
    pub instance_type: Option<Seq<char>>,
    pub placement: Option<PlacementView>,
}

impl View for Tag {
    type V = TagView;

    open spec fn view(&self) -> TagView {
        TagView { key: self.key.deep_view(), value: self.value.deep_view() }
    }
}

impl DeepView for Tag {
    type V = TagView;

    open spec fn deep_view(&self) -> TagView {
        self@
    }
}

impl View for Placement {
    type V = PlacementView;

    open spec fn view(&self) -> PlacementView {
        PlacementView { availability_zone: self.availability_zone.deep_view() }
    }
}

impl DeepView for Placement {
    type V = PlacementView;

    open spec fn deep_view(&self) -> PlacementView {
        self@
    }
}

impl View for Instance {
    type V = InstanceView;

    open spec fn view(&self) -> InstanceView {
        InstanceView {
            instance_id: self.instance_id.deep_view(),
            tags: self.tags.deep_view(),
            private_ip_address: self.private_ip_address,
            public_ip_address: self.public_ip_address,
            instance_type: self.instance_type.deep_view(),
            placement: self.placement.deep_view(),
        }
    }
}

impl DeepView for Instance {
    type V = InstanceView;

    open spec fn deep_view(&self) -> InstanceView {
        self@
    }
}

/// The test that a tag has the key `key`.
pub open spec fn keyed(key: Seq<char>) -> spec_fn(TagView) -> bool {
    |tag: TagView| tag.key == Some(key)
}

/// The value of the first tag in `tags` whose key is `key`; none where no
/// tag has that key, or where the first that has it holds no value.
pub open spec fn tag_value(tags: Seq<TagView>, key: Seq<char>) -> Option<Seq<char>> {
    match first_of(tags, keyed(key)) {
        Some(tag) => tag.value,
        None => None,
    }
}

/// The tags of an instance; none where the record holds no list.
pub open spec fn tags_of(instance: InstanceView) -> Seq<TagView> {
    match instance.tags {
        Some(tags) => tags,
        None => Seq::empty(),
    }
}

/// The availability zone of an instance, where its placement names one.
pub open spec fn zone_of(instance: InstanceView) -> Option<Seq<char>> {
    match instance.placement {
        Some(placement) => placement.availability_zone,
        None => None,
    }
}

/// The node that an instance record describes, before the scheduler's view of
/// it is attached. Its name, its build and its autoscaling group are the
/// values of the tags `Name`, `UID` and `aws:autoscaling:groupName`; a missing
/// name, build or id is the empty text, and a missing address is `0.0.0.0`.
pub open spec fn node_of(instance: InstanceView) -> BitteNodeView {
    BitteNodeView {
        id: or_empty(instance.instance_id),
        name: or_empty(tag_value(tags_of(instance), "Name"@)),
        priv_ip: IpAddress::or_unspecified(instance.private_ip_address),
        pub_ip: IpAddress::or_unspecified(instance.public_ip_address),
        nixos: or_empty(tag_value(tags_of(instance), "UID"@)),
        nomad_client: None,
        node_type: instance.instance_type,
        zone: zone_of(instance),
        asg: tag_value(tags_of(instance), "aws:autoscaling:groupName"@),
    }
}

/// A node made from an instance whose private or public address is missing
/// has `0.0.0.0` in its place, and a node is made from every instance.
pub proof fn lemma_missing_address_is_unspecified(instance: InstanceView)
    ensures
        instance.private_ip_address is None ==> node_of(instance).priv_ip == IpAddress::V4(0),
        instance.public_ip_address is None ==> node_of(instance).pub_ip == IpAddress::V4(0),
        instance.private_ip_address matches Some(addr) ==> node_of(instance).priv_ip == addr,
        instance.public_ip_address matches Some(addr) ==> node_of(instance).pub_ip == addr,
        node_of(instance).asg is Some <==> tag_value(
            tags_of(instance),
            "aws:autoscaling:groupName"@,
        ) is Some,
{
}

/// Looks up the value of the first tag whose key is `key`.
pub fn find_tag(tags: &Vec<Tag>, key: &str) -> (value: Option<String>)
    ensures
        value.deep_view() == tag_value(tags.deep_view(), key@),
{
    let mut i: usize = 0;
    assert(tags.deep_view().skip(0) =~= tags.deep_view());
    while i < tags.len()
        invariant
            i <= tags.len(),
            first_of(tags.deep_view(), keyed(key@)) == first_of(
                tags.deep_view().skip(i as int),
                keyed(key@),
            ),
        decreases tags.len() - i,
    {
        let ghost rest = tags.deep_view().skip(i as int);
        proof {
            assert(rest[0] == tags[i as int]@);
            assert(rest.drop_first() =~= tags.deep_view().skip(i + 1));
        }
        if holds_text(&tags[i].key, key) {
            return copy_text(&tags[i].value);
        }
        i += 1;
    }
    None
}

impl From<Instance> for BitteNode {
    fn from(instance: Instance) -> (node: Self)
        ensures
            node@ == node_of(instance@),
    {
        let name: Option<String>;
        let nixos: Option<String>;
        let asg: Option<String>;
        match &instance.tags {
            Some(tags) => {
                name = find_tag(tags, "Name");
                nixos = find_tag(tags, "UID");
                asg = find_tag(tags, "aws:autoscaling:groupName");
            },
            None => {
                name = None;
                nixos = None;
                asg = None;
            },
        }
        let zone = match &instance.placement {
            Some(placement) => copy_text(&placement.availability_zone),
            None => None,
        };
        BitteNode {
            id: copy_or_empty(&instance.instance_id),
            name: copy_or_empty(&name),
            priv_ip: IpAddress::or_unspecified(instance.private_ip_address),
            pub_ip: IpAddress::or_unspecified(instance.public_ip_address),
            nomad_client: None,
            nixos: copy_or_empty(&nixos),
            node_type: instance.instance_type,
            zone,
            asg,
        }
    }
}

/// The conversion is stated over what node and instance hold, by the
/// `ensures` of `from`; no node is singled out as the one that it returns.
impl FromSpecImpl<Instance> for BitteNode {
    open spec fn obeys_from_spec() -> bool {
        false
    }

    open spec fn from_spec(instance: Instance) -> BitteNode {
        arbitrary()
    }
}

} // verus!
