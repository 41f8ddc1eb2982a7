//! Allocations: placements of a job's task group on a client.

use vstd::prelude::*;
use vstd::string::*;
use crate::error::{Error, ErrorView, Malformed, MalformedView, Remote, RemoteView};
use crate::nomad::{endpoint, endpoint_url, Request, RequestView, Response};
use crate::text::{all_digits, decimal_u32, is_ascii_digit, is_digit, parse_digits};

verus! {

/// The placement index of an allocation as the scheduler encodes it: a bare
/// integer, or a text that still has to be normalized.
#[derive(Debug, PartialEq, Eq)]
pub enum AllocIndex {
    Int(u32),
    String(String),
}

/// What an [`AllocIndex`] holds.
pub enum AllocIndexView {
    Int(u32),
    String(Seq<char>),
}

impl View for AllocIndex {
    type V = AllocIndexView;

    open spec fn view(&self) -> AllocIndexView {
        match self {
            AllocIndex::Int(i) => AllocIndexView::Int(*i),
            AllocIndex::String(s) => AllocIndexView::String(s@),
        }
    }
}

impl DeepView for AllocIndex {
    type V = AllocIndexView;

    open spec fn deep_view(&self) -> AllocIndexView {
        self@
    }
}

impl AllocIndexView {
    /// The integer of a normalized index; none for a text.
    pub open spec fn get(self) -> Option<u32> {
        match self {
            AllocIndexView::Int(i) => Some(i),
            AllocIndexView::String(_) => None,
        }
    }
}

impl AllocIndex {
    /// The integer of a normalized index; none for a text.
    pub fn get(&self) -> (index: Option<u32>)
        ensures
            index == self@.get(),
    {
        match self {
            Self::Int(i) => Some(*i),
            Self::String(_) => None,
        }
    }
}

impl Clone for AllocIndex {
    fn clone(&self) -> (copy: Self)
        ensures
            copy@ == self@,
    {
        match self {
            AllocIndex::Int(i) => AllocIndex::Int(*i),
            AllocIndex::String(s) => AllocIndex::String(s.clone()),
        }
    }
}

/// Where the run of ASCII digits that ends just before position `end` of
/// `text` begins; `end` itself where no digit stands before it.
pub open spec fn digits_start(text: Seq<char>, end: int) -> int
    decreases end,
{
    if 0 < end <= text.len() && is_digit(text[end - 1]) {
        digits_start(text, end - 1)
    } else {
        end
    }
}

/// The integer at the end of a text of the form `name[n]`: the text ends in
/// `]`, the digits before it are preceded by `[`, and they spell a number
/// that fits in 32 bits.
pub open spec fn bracketed(text: Seq<char>) -> Option<u32> {
    let close = text.len() - 1;
    let first = digits_start(text, close);
    if close >= 1 && text[close] == ']' && first >= 1 && text[first - 1] == '[' {
        decimal_u32(text.subrange(first, close))
    } else {
        None
    }
}

/// The placement index that a text encodes: the bracketed number that it
/// ends in. A text encodes none without it, be it a text of digits alone.
pub open spec fn normalized(text: Seq<char>) -> Option<u32> {
    bracketed(text)
}

impl AllocIndexView {
    /// The placement index that this encodes, where it encodes one.
    pub open spec fn index(self) -> Option<u32> {
        match self {
            AllocIndexView::Int(i) => Some(i),
            AllocIndexView::String(text) => normalized(text),
        }
    }
}

/// The text `name[digits]`.
pub open spec fn indexed(name: Seq<char>, digits: Seq<char>) -> Seq<char> {
    name + seq!['['] + digits + seq![']']
}

/// A name followed by digits in square brackets encodes the number that
/// those digits spell, whatever the name is.
pub proof fn lemma_normalized(name: Seq<char>, digits: Seq<char>)
    requires
        decimal_u32(digits) is Some,
    ensures
        normalized(indexed(name, digits)) == decimal_u32(digits),
{
    let text = indexed(name, digits);
    let close = text.len() - 1;
    let open = name.len() as int;
    assert(text[open] == '[');
    assert(text.subrange(open + 1, close) =~= digits);
    lemma_digits_start(text, open + 1, close);
}

/// No other text encodes a placement index: a text that encodes one is a
/// name followed by digits in square brackets that spell it. So a text
/// that does not end in a closing bracket encodes none.
pub proof fn lemma_normalized_only(text: Seq<char>)
    ensures
        normalized(text) is Some ==> exists|name: Seq<char>, digits: Seq<char>|
            text == #[trigger] indexed(name, digits) && decimal_u32(digits) == normalized(text),
        text.len() == 0 || text.last() != ']' ==> normalized(text) is None,
        all_digits(text) ==> normalized(text) is None,
{
    if normalized(text) is Some {
        let close = text.len() - 1;
        let first = digits_start(text, close);
        lemma_digits_start_is_within(text, close);
        let name = text.take(first - 1);
        let digits = text.subrange(first, close);
        assert(text =~= indexed(name, digits));
    }
    if all_digits(text) && text.len() > 0 {
        assert(is_digit(text[text.len() - 1]));
    }
}

/// The run of digits that ends before `end` begins at or before `end`, and
/// not before the beginning of the text.
pub proof fn lemma_digits_start_is_within(text: Seq<char>, end: int)
    requires
        0 <= end <= text.len(),
    ensures
        0 <= digits_start(text, end) <= end,
    decreases end,
{
    if 0 < end && is_digit(text[end - 1]) {
        lemma_digits_start_is_within(text, end - 1);
    }
}

/// The run of digits that ends before `end` begins at `start` where digits
/// stand from `start` up to `end` and no digit stands before `start`.
pub proof fn lemma_digits_start(text: Seq<char>, start: int, end: int)
    requires
        0 <= start <= end <= text.len(),
        all_digits(text.subrange(start, end)),
        start > 0 ==> !is_digit(text[start - 1]),
    ensures
        digits_start(text, end) == start,
    decreases end - start,
{
    if start < end {
        assert(text.subrange(start, end)[end - 1 - start] == text[end - 1]);
        assert forall|i: int| 0 <= i < end - 1 - start implies is_digit(
            #[trigger] text.subrange(start, end - 1)[i],
        ) by {
            assert(text.subrange(start, end)[i] == text.subrange(start, end - 1)[i]);
        }
        lemma_digits_start(text, start, end - 1);
    }
}

/// Reads the bracketed number that `text` ends in.
pub fn read_bracketed(text: &str) -> (index: Option<u32>)
    ensures
        index == bracketed(text@),
{
    let len = text.unicode_len();
    if len < 2 {
        return None;
    }
    let close = len - 1;
    if text.get_char(close) != ']' {
        return None;
    }
    let mut first: usize = close;
    while first > 0 && is_ascii_digit(text.get_char(first - 1))
        invariant
            first <= close < text@.len(),
            digits_start(text@, close as int) == digits_start(text@, first as int),
        decreases first,
    {
        first -= 1;
    }
    if first == 0 {
        return None;
    }
    if text.get_char(first - 1) != '[' {
        return None;
    }
    parse_digits(text, first, close)
}

/// Normalizes a placement index to an integer. An integer stays as it is. A
/// text is read as a name that ends in a bracketed number; any other text is
/// rejected as a decode failure that holds the text.
pub fn pull_index(raw: AllocIndex) -> (index: Result<AllocIndex, Error>)
    ensures
        match index {
            Ok(normal) => raw@.index() matches Some(n) && normal@ == AllocIndexView::Int(n),
            Err(error) => {
                &&& raw@.index() is None
                &&& raw@ matches AllocIndexView::String(text)
                &&& error@ == ErrorView::DecodeFailure(MalformedView::Index(text))
            },
        },
{
    match raw {
        AllocIndex::Int(i) => Ok(AllocIndex::Int(i)),
        AllocIndex::String(s) => match read_bracketed(s.as_str()) {
            Some(n) => Ok(AllocIndex::Int(n)),
            None => Err(Error::DecodeFailure(Malformed::Index(s))),
        },
    }
}

/// Information about an allocation placed in the cluster.
#[derive(Debug, PartialEq, Eq)]
pub struct NomadAlloc {
    pub id: u128,
    pub job_id: String,
    pub namespace: String,
    pub task_group: String,
    pub status: String,
    pub index: AllocIndex,
    pub node_id: u128,
}

/// What a [`NomadAlloc`] holds.
pub struct NomadAllocView {
    pub id: u128,
    pub job_id: Seq<char>,
    pub namespace: Seq<char>,
    pub task_group: Seq<char>,
    pub status: Seq<char>,
    pub index: AllocIndexView,
    pub node_id: u128,
}

impl View for NomadAlloc {
    type V = NomadAllocView;

    open spec fn view(&self) -> NomadAllocView {
        NomadAllocView {
            id: self.id,
            job_id: self.job_id@,
            namespace: self.namespace@,
            task_group: self.task_group@,
            status: self.status@,
            index: self.index@,
            node_id: self.node_id,
        }
    }
}

impl DeepView for NomadAlloc {
    type V = NomadAllocView;

    open spec fn deep_view(&self) -> NomadAllocView {
        self@
    }
}

impl Clone for NomadAlloc {
    fn clone(&self) -> (copy: Self)
        ensures
            copy@ == self@,
    {
        NomadAlloc {
            id: self.id,
            job_id: self.job_id.clone(),
            namespace: self.namespace.clone(),
            task_group: self.task_group.clone(),
            status: self.status.clone(),
            index: self.index.clone(),
            node_id: self.node_id,
        }
    }
}

/// Collection of allocations.
pub type NomadAllocs = Vec<NomadAlloc>;

/// The allocation `alloc` with its placement index normalized; none where
/// the index encodes no integer.
pub open spec fn normal(alloc: NomadAllocView) -> Option<NomadAllocView> {
    match alloc.index.index() {
        Some(index) => Some(NomadAllocView { index: AllocIndexView::Int(index), ..alloc }),
        None => None,
    }
}

/// Whether the placement index of each of `allocs` encodes an integer.
pub open spec fn all_normal(allocs: Seq<NomadAllocView>) -> bool {
    forall|i: int| 0 <= i < allocs.len() ==> (#[trigger] normal(allocs[i])) is Some
}

/// The allocations `allocs`, each with its placement index normalized.
pub open spec fn normal_all(allocs: Seq<NomadAllocView>) -> Seq<NomadAllocView> {
    Seq::new(allocs.len(), |i: int| normal(allocs[i])->0)
}

/// The path of the endpoint that lists the allocations.
pub open spec fn allocations_path() -> Seq<char> {
    "/v1/allocations"@
}

/// The allocations that an answer of the scheduler holds. An answer that
/// did not come is a network failure, and one that could not be decoded, or
/// that holds a placement index which encodes no integer, is a decode
/// failure; both name the endpoint.
pub open spec fn decoded_allocs(domain: Seq<char>, response: Response<Seq<NomadAllocView>>) -> Result<
    Seq<NomadAllocView>,
    ErrorView,
> {
    let url = endpoint(domain, allocations_path());
    match response {
        Response::Unreachable => Err(ErrorView::NetworkFailure(RemoteView::Endpoint(url))),
        Response::Undecodable => Err(ErrorView::DecodeFailure(MalformedView::Response(url))),
        Response::Body(allocs) => if all_normal(allocs) {
            Ok(normal_all(allocs))
        } else {
            Err(ErrorView::DecodeFailure(MalformedView::Response(url)))
        },
    }
}

/// What a response that lists allocations holds.
pub open spec fn listed(response: Response<NomadAllocs>) -> Response<Seq<NomadAllocView>> {
    match response {
        Response::Unreachable => Response::Unreachable,
        Response::Undecodable => Response::Undecodable,
        Response::Body(allocs) => Response::Body(allocs.deep_view()),
    }
}

impl NomadAlloc {
    /// The query that lists the allocations of all namespaces, without the
    /// states of their tasks.
    pub open spec fn spec_request(domain: Seq<char>) -> RequestView {
        RequestView {
            url: endpoint(domain, allocations_path()),
            query: seq![("namespace"@, "*"@), ("task_states"@, "false"@)],
        }
    }

    /// The query that lists the allocations of the cluster of the public
    /// domain `domain`.
    pub fn request(domain: &str) -> (request: Request)
        ensures
            request@ == Self::spec_request(domain@),
    {
        let mut query: Vec<(String, String)> = Vec::new();
        query.push((String::from_str("namespace"), String::from_str("*")));
        query.push((String::from_str("task_states"), String::from_str("false")));
        let request = Request { url: endpoint_url(domain, "/v1/allocations"), query };
        assert(request@.query =~= seq![("namespace"@, "*"@), ("task_states"@, "false"@)]);
        request
    }

    /// The allocation with its placement index normalized.
    pub fn normalize(self) -> (alloc: Result<NomadAlloc, Error>)
        ensures
            match alloc {
                Ok(alloc) => normal(self@) == Some(alloc@),
                Err(error) => {
                    &&& normal(self@) is None
                    &&& self@.index matches AllocIndexView::String(text)
                    &&& error@ == ErrorView::DecodeFailure(MalformedView::Index(text))
                },
            },
    {
        match pull_index(self.index) {
            Ok(index) => Ok(
                NomadAlloc {
                    id: self.id,
                    job_id: self.job_id,
                    namespace: self.namespace,
                    task_group: self.task_group,
                    status: self.status,
                    index,
                    node_id: self.node_id,
                },
            ),
            Err(error) => Err(error),
        }
    }

    /// Takes the allocations out of the scheduler's answer to the query that
    /// lists them, and normalizes the placement index of each.
    pub fn find_allocs(domain: &str, response: Response<NomadAllocs>) -> (allocs: Result<
        NomadAllocs,
        Error,
    >)
        ensures
            match allocs {
                Ok(allocs) => decoded_allocs(domain@, listed(response)) == Ok::<
                    Seq<NomadAllocView>,
                    ErrorView,
                >(allocs.deep_view()),
                Err(error) => decoded_allocs(domain@, listed(response)) == Err::<
                    Seq<NomadAllocView>,
                    ErrorView,
                >(error@),
            },
    {
        let url = endpoint_url(domain, "/v1/allocations");
        match response {
            Response::Unreachable => Err(Error::NetworkFailure(Remote::Endpoint(url))),
            Response::Undecodable => Err(Error::DecodeFailure(Malformed::Response(url))),
            Response::Body(raw) => {
                let ghost all = raw.deep_view();
                let ghost items = raw@;
                let mut allocs: NomadAllocs = Vec::new();
                for alloc in it: raw.into_iter()
                    invariant
                        it.seq() == items,
                        items == raw@,
                        all == raw.deep_view(),
                        listed(response) == Response::Body(all),
                        url@ == endpoint(domain@, allocations_path()),
                        allocs.deep_view() == normal_all(all.take(it.index() as int)),
                        all_normal(all.take(it.index() as int)),
                {
                    let ghost k = it.index() as int;
                    let ghost before = allocs.deep_view();
                    match alloc.normalize() {
                        Ok(alloc) => {
                            allocs.push(alloc);
                            proof {
                                assert(all.take(k + 1) =~= all.take(k).push(all[k]));
                                assert(allocs.deep_view() =~= before.push(alloc@));
                                assert(allocs.deep_view() =~= normal_all(all.take(k + 1)));
                            }
                        },
                        Err(_) => {
                            assert(normal(all[k]) is None);
                            return Err(Error::DecodeFailure(Malformed::Response(url)));
                        },
                    }
                }
                proof {
                    assert(all.take(all.len() as int) =~= all);
                }
                Ok(allocs)
            },
        }
    }
}

/// The test that an allocation names `client` as the client that owns it.
pub open spec fn owner_is(client: u128) -> spec_fn(NomadAllocView) -> bool {
    |alloc: NomadAllocView| alloc.node_id == client
}

/// The allocations among `allocs` that the client `client` owns, in their
/// order.
pub open spec fn owned_by(allocs: Seq<NomadAllocView>, client: u128) -> Seq<NomadAllocView> {
    allocs.filter(owner_is(client))
}

/// Copies out of `allocs` the allocations that the client `client` owns.
pub fn allocs_of(allocs: &NomadAllocs, client: u128) -> (owned: NomadAllocs)
    ensures
        owned.deep_view() == owned_by(allocs.deep_view(), client),
{
    let mut owned: NomadAllocs = Vec::new();
    let mut i: usize = 0;
    proof {
        reveal(Seq::filter);
        assert(allocs.deep_view().take(0) =~= Seq::<NomadAllocView>::empty());
        assert(owned.deep_view() =~= Seq::<NomadAllocView>::empty());
    }
    while i < allocs.len()
        invariant
            i <= allocs.len(),
            owned.deep_view() == owned_by(allocs.deep_view().take(i as int), client),
        decreases allocs.len() - i,
    {
        let ghost before = owned.deep_view();
        let ghost seen = allocs.deep_view().take(i as int);
        proof {
            assert(allocs.deep_view().take(i + 1) =~= seen.push(allocs[i as int]@));
            seen.lemma_filter_push(allocs[i as int]@, owner_is(client));
        }
        if allocs[i].node_id == client {
            let copy = allocs[i].clone();
            owned.push(copy);
            assert(owned.deep_view() =~= before.push(allocs[i as int]@));
        }
        i += 1;
    }
    proof {
        assert(allocs.deep_view().take(allocs.len() as int) =~= allocs.deep_view());
    }
    owned
}

} // verus!
