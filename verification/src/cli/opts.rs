//! The options that every command takes.

use vstd::prelude::*;
use vstd::string::*;
use crate::bitte::BitteProvider;
use crate::text::{
    distinct, lemma_distinct_counts_the_set, lemma_distinct_has_no_repetition, push_distinct,
};

verus! {

/// What every command is told about the cluster.
#[derive(Debug)]
pub struct Globals {
    /// The cluster infrastructure provider
    pub provider: BitteProvider,
    /// The public domain of the cluster
    pub domain: String,
    /// The unique name of the cluster
    pub name: String,
    /// The default AWS region
    pub aws_region: Option<String>,
    /// Regions containing Nomad clients
    pub aws_asg_regions: Option<Vec<String>>,
}

/// The token that a command is given for the scheduler.
#[derive(Debug)]
pub struct Nomad {
    /// The Nomad token used to query node information
    pub nomad: Option<u128>,
}

/// The regions that were named, those of the clients before the default
/// region.
pub open spec fn named_regions(default: Option<Seq<char>>, others: Option<Seq<Seq<char>>>) -> Seq<
    Seq<char>,
> {
    let others = match others {
        Some(others) => others,
        None => Seq::empty(),
    };
    match default {
        Some(default) => others.push(default),
        None => others,
    }
}

impl Globals {
    /// The regions of the cluster: the default region and those that hold
    /// clients, each once.
    pub open spec fn spec_regions(&self) -> Seq<Seq<char>> {
        distinct(named_regions(self.aws_region.deep_view(), self.aws_asg_regions.deep_view()))
    }

    /// The regions of the cluster, each once.
    pub fn regions(&self) -> (regions: Vec<String>)
        ensures
            regions.deep_view() == self.spec_regions(),
    {
        let ghost named = named_regions(
            self.aws_region.deep_view(),
            self.aws_asg_regions.deep_view(),
        );
        let mut regions: Vec<String> = Vec::new();
        let ghost others = match self.aws_asg_regions.deep_view() {
            Some(list) => list,
            None => Seq::empty(),
        };
        assert(regions.deep_view() =~= distinct(others.take(0)));
        match &self.aws_asg_regions {
            Some(list) => {
                let mut i: usize = 0;
                while i < list.len()
                    invariant
                        i <= list.len(),
                        others == list.deep_view(),
                        regions.deep_view() == distinct(others.take(i as int)),
                    decreases list.len() - i,
                {
                    proof {
                        let upto = others.take(i + 1);
                        assert(upto.drop_last() =~= others.take(i as int));
                        assert(upto.last() == list[i as int]@);
                    }
                    push_distinct(&mut regions, list[i].as_str());
                    i += 1;
                }
                assert(others.take(list.len() as int) =~= others);
            },
            None => {
                assert(others.take(0) =~= others);
            },
        }
        match &self.aws_region {
            Some(default) => {
                proof {
                    assert(named.drop_last() =~= others);
                    assert(named.last() == default@);
                }
                push_distinct(&mut regions, default.as_str());
            },
            None => {},
        }
        regions
    }
}

/// The regions of a cluster are the regions that were named, each once.
pub proof fn lemma_each_region_once(default: Option<Seq<char>>, others: Option<Seq<Seq<char>>>)
    ensures
        distinct(named_regions(default, others)).no_duplicates(),
        distinct(named_regions(default, others)).to_set() == named_regions(
            default,
            others,
        ).to_set(),
        default matches Some(region) ==> distinct(named_regions(default, others)).contains(region),
{
    lemma_distinct_counts_the_set(named_regions(default, others));
    lemma_distinct_has_no_repetition(named_regions(default, others));
    if default is Some {
        let named = named_regions(default, others);
        assert(named[named.len() - 1] == default->0);
        assert(named.contains(default->0));
    }
}

impl Default for Globals {
    fn default() -> (globals: Self)
        ensures
            globals.provider == BitteProvider::AWS,
            globals.domain@ == Seq::<char>::empty(),
            globals.name@ == Seq::<char>::empty(),
            globals.aws_region is None,
            globals.aws_asg_regions is None,
    {
        Globals {
            provider: BitteProvider::AWS,
            domain: String::new(),
            name: String::new(),
            aws_region: None,
            aws_asg_regions: None,
        }
    }
}

impl Default for Nomad {
    fn default() -> (nomad: Self)
        ensures
            nomad.nomad is None,
    {
        Nomad { nomad: None }
    }
}

} // verus!
