//! The client of the placement directory: finding its members and its
//! leader, and asking the leader where a key lives.

use super::context::{PeerMeta, Region, RegionMeta};
use super::tikv_db::Error;
use vstd::prelude::*;

verus! {

/// The views of the strings in `v`, in order.
pub open spec fn string_views(v: Seq<String>) -> Seq<Seq<char>> {
    Seq::new(v.len(), |i: int| v[i]@)
}

/// Whether two lists hold the same strings in the same order.
pub fn strings_eq(a: &Vec<String>, b: &Vec<String>) -> (same: bool)
    ensures
        same == (string_views(a@) == string_views(b@)),
{
    if a.len() != b.len() {
        assert(string_views(a@).len() != string_views(b@).len());
        return false;
    }
    let mut i: usize = 0;
    while i < a.len()
        invariant
            i <= a@.len(),
            a@.len() == b@.len(),
            forall|j: int| 0 <= j < i ==> a@[j]@ == b@[j]@,
        decreases a.len() - i,
    {
        if a[i] != b[i] {
            assert(string_views(a@)[i as int] != string_views(b@)[i as int]);
            return false;
        }
        i += 1;
    }
    assert(string_views(a@) =~= string_views(b@));
    true
}

/// A member of the placement directory as the directory describes it.
#[derive(Debug, Default)]
pub struct Member {
    pub name: String,
    pub member_id: u64,
    pub peer_urls: Vec<String>,
    pub client_urls: Vec<String>,
}

/// A `Member` over mathematical strings.
pub struct MemberModel {
    pub name: Seq<char>,
    pub member_id: u64,
    pub peer_urls: Seq<Seq<char>>,
    pub client_urls: Seq<Seq<char>>,
}

impl View for Member {
    type V = MemberModel;

    open spec fn view(&self) -> MemberModel {
        MemberModel {
            name: self.name@,
            member_id: self.member_id,
            peer_urls: string_views(self.peer_urls@),
            client_urls: string_views(self.client_urls@),
        }
    }
}

impl Clone for Member {
    fn clone(&self) -> (copy: Self)
        ensures
            copy@ == self@,
    {
        let mut peer_urls: Vec<String> = Vec::new();
        push_all(&mut peer_urls, &self.peer_urls);
        let mut client_urls: Vec<String> = Vec::new();
        push_all(&mut client_urls, &self.client_urls);
        Member { name: self.name.clone(), member_id: self.member_id, peer_urls, client_urls }
    }
}

impl Member {
    /// Whether `self` and `other` describe the same member: every field of
    /// the one is that of the other.
    pub fn same(&self, other: &Member) -> (same: bool)
        ensures
            same == (self@ == other@),
    {
        self.member_id == other.member_id && self.name == other.name && strings_eq(
            &self.peer_urls,
            &other.peer_urls,
        ) && strings_eq(&self.client_urls, &other.client_urls)
    }
}

/// What a member of the directory answers when it is asked for the
/// members: the cluster it belongs to, the members it knows and the one
/// that leads them.
#[derive(Debug, Default)]
pub struct MembersResponse {
    pub cluster_id: u64,
    pub members: Vec<Member>,
    pub leader: Member,
}

/// The views of the members in `v`, in order.
pub open spec fn member_views(v: Seq<Member>) -> Seq<MemberModel> {
    Seq::new(v.len(), |i: int| v[i]@)
}

impl Clone for MembersResponse {
    fn clone(&self) -> (copy: Self)
        ensures
            copy.cluster_id == self.cluster_id,
            member_views(copy.members@) == member_views(self.members@),
            copy.leader@ == self.leader@,
    {
        let mut members: Vec<Member> = Vec::new();
        let mut i: usize = 0;
        while i < self.members.len()
            invariant
                i <= self.members@.len(),
                members@.len() == i,
                forall|j: int| 0 <= j < i ==> members@[j]@ == self.members@[j]@,
            decreases self.members.len() - i,
        {
            members.push(self.members[i].clone());
            i += 1;
        }
        MembersResponse { cluster_id: self.cluster_id, members, leader: self.leader.clone() }
    }
}

/// The client URLs of those of `members` that are not `leader`, member by
/// member in the order of the list.
pub open spec fn other_urls(members: Seq<MemberModel>, leader: MemberModel) -> Seq<Seq<char>>
    decreases members.len(),
{
    if members.len() == 0 {
        seq![]
    } else if members.last() != leader {
        other_urls(members.drop_last(), leader) + members.last().client_urls
    } else {
        other_urls(members.drop_last(), leader)
    }
}

/// The URLs at which a new leader is asked for, in the order in which they
/// are tried: those of every member that was not the leader, then those of
/// the member that was.
pub open spec fn probe_order(members: Seq<MemberModel>, leader: MemberModel) -> Seq<Seq<char>> {
    other_urls(members, leader) + leader.client_urls
}

/// Appends copies of the strings in `from` to `out`.
fn push_all(out: &mut Vec<String>, from: &Vec<String>)
    ensures
        string_views(final(out)@) == string_views(old(out)@) + string_views(from@),
{
    let mut i: usize = 0;
    while i < from.len()
        invariant
            i <= from@.len(),
            string_views(out@) == string_views(old(out)@) + string_views(from@).take(i as int),
        decreases from.len() - i,
    {
        let ghost before = out@;
        out.push(from[i].clone());
        proof {
            assert(string_views(out@) =~= string_views(before).push(from@[i as int]@));
            assert(string_views(from@).take(i + 1) =~= string_views(from@).take(i as int).push(
                from@[i as int]@,
            ));
        }
        i += 1;
    }
}

/// The URLs at which a new leader is asked for after `previous` was the
/// last answer, in the order in which they are tried.
pub fn candidates(previous: &MembersResponse) -> (urls: Vec<String>)
    ensures
        string_views(urls@) == probe_order(member_views(previous.members@), previous.leader@),
{
    let ghost members = member_views(previous.members@);
    let mut urls: Vec<String> = Vec::new();
    let mut i: usize = 0;
    while i < previous.members.len()
        invariant
            i <= previous.members@.len(),
            members == member_views(previous.members@),
            string_views(urls@) == other_urls(members.take(i as int), previous.leader@),
        decreases previous.members.len() - i,
    {
        proof {
            assert(members.take(i + 1).drop_last() =~= members.take(i as int));
        }
        if !previous.members[i].same(&previous.leader) {
            push_all(&mut urls, &previous.members[i].client_urls);
        }
        i += 1;
    }
    assert(members.take(previous.members@.len() as int) =~= members);
    push_all(&mut urls, &previous.leader.client_urls);
    urls
}

/// Whether a string stands twice in `endpoints`.
pub open spec fn has_duplicate(endpoints: Seq<Seq<char>>) -> bool {
    exists|i: int, j: int| 0 <= i < j < endpoints.len() && endpoints[i] == endpoints[j]
}

/// Whether an endpoint is named twice in `endpoints`.
pub fn find_duplicate(endpoints: &Vec<String>) -> (found: bool)
    ensures
        found == has_duplicate(string_views(endpoints@)),
{
    let ghost names = string_views(endpoints@);
    let mut j: usize = 0;
    while j < endpoints.len()
        invariant
            j <= endpoints@.len(),
            names == string_views(endpoints@),
            forall|a: int, b: int| 0 <= a < b < j ==> names[a] != names[b],
        decreases endpoints.len() - j,
    {
        let mut i: usize = 0;
        while i < j
            invariant
                i <= j < endpoints@.len(),
                names == string_views(endpoints@),
                forall|a: int| 0 <= a < i ==> names[a] != names[j as int],
            decreases j - i,
        {
            if endpoints[i] == endpoints[j] {
                assert(names[i as int] == names[j as int]);
                return true;
            }
            i += 1;
        }
        j += 1;
    }
    false
}

/// What the validation of the seed endpoints does next.
#[derive(Debug)]
pub enum ValidationAction {
    /// Connect to this endpoint and ask it for the members.
    Connect(String),
    /// Every endpoint that answered belongs to one cluster; this is the
    /// first answer, from which the leader is to be found.
    Accept(MembersResponse),
    /// The endpoints cannot be used.
    Reject(Error),
}

/// The validation of the seed endpoints: each is asked for the members in
/// turn. One that cannot be reached is passed over; every one that answers
/// has to name the same cluster.
#[derive(Debug)]
pub struct Validation {
    /// The seed endpoints.
    pub endpoints: Vec<String>,
    /// The place of the endpoint that is being asked; the number of
    /// endpoints once the validation has ended.
    pub next: usize,
    /// The cluster that the first answer named.
    pub cluster_id: Option<u64>,
    /// The first answer.
    pub members: Option<MembersResponse>,
}

/// The cluster that the answers so far agree on, `answer` included; `None`
/// where none has answered. Where `answer` names another cluster than the
/// one before, the one before stays.
pub open spec fn cluster_after(cluster_id: Option<u64>, answer: Option<MembersResponse>) -> Option<
    u64,
> {
    match (cluster_id, answer) {
        (None, Some(response)) => Some(response.cluster_id),
        _ => cluster_id,
    }
}

/// The first answer so far, `answer` included.
pub open spec fn first_after(
    members: Option<MembersResponse>,
    answer: Option<MembersResponse>,
) -> Option<MembersResponse> {
    match members {
        Some(_) => members,
        None => answer,
    }
}

/// Whether `answer` names another cluster than the answers before it.
pub open spec fn mismatch(cluster_id: Option<u64>, answer: Option<MembersResponse>) -> bool {
    cluster_id is Some && answer is Some && answer->0.cluster_id != cluster_id->0
}

impl Validation {
    /// The validation of `endpoints` before any of them is asked.
    pub open spec fn initial(endpoints: Vec<String>) -> Validation {
        Validation { endpoints, next: 0, cluster_id: None, members: None }
    }

    /// What the validation of `endpoints` does first.
    pub open spec fn first_action(endpoints: Vec<String>) -> ValidationAction {
        if endpoints@.len() > 0 {
            ValidationAction::Connect(endpoints@[0])
        } else {
            ValidationAction::Reject(Error::DirectoryUnavailable)
        }
    }

    /// Whether the validation has ended.
    pub open spec fn ended(&self) -> bool {
        self.next >= self.endpoints.len()
    }

    /// What is done once `answer` has come from the endpoint that was
    /// asked.
    pub open spec fn action_after(&self, answer: Option<MembersResponse>) -> ValidationAction {
        if self.ended() {
            ValidationAction::Reject(Error::DirectoryUnavailable)
        } else if mismatch(self.cluster_id, answer) {
            ValidationAction::Reject(Error::ClusterMismatch)
        } else if self.next + 1 < self.endpoints.len() {
            ValidationAction::Connect(self.endpoints@[self.next + 1])
        } else {
            match first_after(self.members, answer) {
                Some(first) => ValidationAction::Accept(first),
                None => ValidationAction::Reject(Error::DirectoryUnavailable),
            }
        }
    }

    /// The state once `answer` has come from the endpoint that was asked.
    pub open spec fn state_after(&self, answer: Option<MembersResponse>) -> Validation {
        if self.ended() {
            *self
        } else if mismatch(self.cluster_id, answer) {
            Validation {
                endpoints: self.endpoints,
                next: self.endpoints.len(),
                cluster_id: self.cluster_id,
                members: self.members,
            }
        } else if self.next + 1 < self.endpoints.len() {
            Validation {
                endpoints: self.endpoints,
                next: (self.next + 1) as usize,
                cluster_id: cluster_after(self.cluster_id, answer),
                members: first_after(self.members, answer),
            }
        } else {
            Validation {
                endpoints: self.endpoints,
                next: self.endpoints.len(),
                cluster_id: cluster_after(self.cluster_id, answer),
                members: None,
            }
        }
    }

    /// Begins the validation of `endpoints`. An endpoint that is named
    /// twice ends it before any endpoint is asked.
    pub fn start(endpoints: Vec<String>) -> (res: Result<(Validation, ValidationAction), Error>)
        ensures
            has_duplicate(string_views(endpoints@)) ==> res == Err::<
                (Validation, ValidationAction),
                Error,
            >(Error::DuplicateMember),
            !has_duplicate(string_views(endpoints@)) ==> res == Ok::<
                (Validation, ValidationAction),
                Error,
            >((Validation::initial(endpoints), Validation::first_action(endpoints))),
    {
        if find_duplicate(&endpoints) {
            return Err(Error::DuplicateMember);
        }
        let action = if endpoints.len() > 0 {
            ValidationAction::Connect(endpoints[0].clone())
        } else {
            ValidationAction::Reject(Error::DirectoryUnavailable)
        };
        Ok((Validation { endpoints, next: 0, cluster_id: None, members: None }, action))
    }

    /// Takes the answer of the endpoint that was asked, `None` where it
    /// could not be reached, and says what to do next.
    pub fn on_answer(&mut self, answer: Option<MembersResponse>) -> (action: ValidationAction)
        ensures
            action == old(self).action_after(answer),
            *final(self) == old(self).state_after(answer),
    {
        let n = self.endpoints.len();
        if self.next >= n {
            return ValidationAction::Reject(Error::DirectoryUnavailable);
        }
        if let Some(response) = &answer {
            if let Some(sample) = self.cluster_id {
                if sample != response.cluster_id {
                    self.next = n;
                    return ValidationAction::Reject(Error::ClusterMismatch);
                }
            } else {
                self.cluster_id = Some(response.cluster_id);
            }
        }
        if self.members.is_none() {
            self.members = answer;
        }
        if n - self.next > 1 {
            self.next = self.next + 1;
            ValidationAction::Connect(self.endpoints[self.next].clone())
        } else {
            self.next = n;
            match self.members.take() {
                Some(first) => ValidationAction::Accept(first),
                None => ValidationAction::Reject(Error::DirectoryUnavailable),
            }
        }
    }
}

/// What the validation comes to where the endpoints answer with `answers`,
/// one for each in order, from the state `validation` on: the action at which
/// it ends, or the last of its actions where the answers run out before.
pub open spec fn validation_result(
    validation: Validation,
    answers: Seq<Option<MembersResponse>>,
) -> ValidationAction
    decreases answers.len(),
{
    if answers.len() == 0 {
        ValidationAction::Reject(Error::DirectoryUnavailable)
    } else if answers.len() == 1 || validation.state_after(answers[0]).ended() {
        validation.action_after(answers[0])
    } else {
        validation_result(validation.state_after(answers[0]), answers.drop_first())
    }
}

/// Once one endpoint has named a cluster, an answer that names another
/// ends the validation with `ClusterMismatch`.
pub proof fn lemma_mismatch_is_rejected(
    validation: Validation,
    answers: Seq<Option<MembersResponse>>,
    j: int,
)
    requires
        validation.next + answers.len() == validation.endpoints.len(),
        validation.cluster_id is Some,
        0 <= j < answers.len(),
        answers[j] is Some,
        answers[j]->0.cluster_id != validation.cluster_id->0,
    ensures
        validation_result(validation, answers) == ValidationAction::Reject(Error::ClusterMismatch),
    decreases answers.len(),
{
    if !mismatch(validation.cluster_id, answers[0]) {
        let next = validation.state_after(answers[0]);
        lemma_mismatch_is_rejected(next, answers.drop_first(), j - 1);
    }
}

/// Endpoints of different clusters are refused: where no cluster was named
/// yet and two of the answers name different clusters, the validation ends
/// with `ClusterMismatch`.
pub proof fn lemma_clusters_must_agree(
    validation: Validation,
    answers: Seq<Option<MembersResponse>>,
    i: int,
    j: int,
)
    requires
        validation.next + answers.len() == validation.endpoints.len(),
        validation.cluster_id is None,
        0 <= i < j < answers.len(),
        answers[i] is Some,
        answers[j] is Some,
        answers[i]->0.cluster_id != answers[j]->0.cluster_id,
    ensures
        validation_result(validation, answers) == ValidationAction::Reject(Error::ClusterMismatch),
    decreases answers.len(),
{
    let next = validation.state_after(answers[0]);
    let rest = answers.drop_first();
    if answers[0] is Some {
        if i == 0 {
            lemma_mismatch_is_rejected(next, rest, j - 1);
        } else {
            if answers[i]->0.cluster_id != answers[0]->0.cluster_id {
                lemma_mismatch_is_rejected(next, rest, i - 1);
            } else {
                lemma_mismatch_is_rejected(next, rest, j - 1);
            }
        }
    } else {
        lemma_clusters_must_agree(next, rest, i - 1, j - 1);
    }
}

/// Seed endpoints of different clusters are refused: where each endpoint
/// answers with one of `answers`, or not at all, and two of the answers
/// name different clusters, the validation of the endpoints ends with
/// `ClusterMismatch`.
pub proof fn lemma_mixed_seeds_are_refused(
    endpoints: Vec<String>,
    answers: Seq<Option<MembersResponse>>,
    i: int,
    j: int,
)
    requires
        answers.len() == endpoints.len(),
        0 <= i < j < answers.len(),
        answers[i] is Some,
        answers[j] is Some,
        answers[i]->0.cluster_id != answers[j]->0.cluster_id,
    ensures
        validation_result(Validation::initial(endpoints), answers) == ValidationAction::Reject(
            Error::ClusterMismatch,
        ),
{
    lemma_clusters_must_agree(Validation::initial(endpoints), answers, i, j);
}

/// What the search for the leader does next.
#[derive(Debug)]
pub enum FailoverAction {
    /// Connect to this URL and ask for the members.
    Connect(String),
    /// The leader answered at this URL with these members.
    Done(String, MembersResponse),
    /// No leader could be reached.
    Failed(Error),
}

/// The search for the leader of the directory after the last answer:
/// first a member that still answers for the cluster is looked for, among
/// the members that were not the leader and then at the old leader; then
/// the leader that this member names is connected to.
#[derive(Debug)]
pub struct Failover {
    /// The cluster that an answer has to name.
    pub cluster_id: u64,
    /// The URLs that are tried in this part of the search, in order.
    pub urls: Vec<String>,
    /// The place of the URL that is being tried; the number of URLs once
    /// the search has ended.
    pub next: usize,
    /// Whether the URLs are those of the leader that a member named.
    pub at_leader: bool,
}

impl Failover {
    /// Whether the search has ended.
    pub open spec fn ended(&self) -> bool {
        self.next >= self.urls.len()
    }

    /// Whether `answer` is an answer for the cluster.
    pub open spec fn accepts(&self, answer: Option<MembersResponse>) -> bool {
        answer is Some && answer->0.cluster_id == self.cluster_id
    }

    /// What the search does once `answer` has come from the URL that was
    /// tried: `None` where it could not be reached.
    pub open spec fn action_after(&self, answer: Option<MembersResponse>) -> FailoverAction {
        if self.ended() {
            FailoverAction::Failed(Error::DirectoryUnavailable)
        } else if self.accepts(answer) {
            if self.at_leader {
                FailoverAction::Done(self.urls@[self.next as int], answer->0)
            } else if answer->0.leader.client_urls.len() > 0 {
                FailoverAction::Connect(answer->0.leader.client_urls@[0])
            } else {
                FailoverAction::Failed(Error::DirectoryUnavailable)
            }
        } else if self.next + 1 < self.urls.len() {
            FailoverAction::Connect(self.urls@[self.next + 1])
        } else {
            FailoverAction::Failed(Error::DirectoryUnavailable)
        }
    }

    /// The search once `answer` has come from the URL that was tried.
    pub open spec fn state_after(&self, answer: Option<MembersResponse>) -> Failover {
        if self.ended() {
            *self
        } else if self.accepts(answer) {
            if self.at_leader {
                Failover {
                    cluster_id: self.cluster_id,
                    urls: self.urls,
                    next: self.urls.len(),
                    at_leader: true,
                }
            } else {
                Failover {
                    cluster_id: self.cluster_id,
                    urls: answer->0.leader.client_urls,
                    next: 0,
                    at_leader: true,
                }
            }
        } else if self.next + 1 < self.urls.len() {
            Failover {
                cluster_id: self.cluster_id,
                urls: self.urls,
                next: (self.next + 1) as usize,
                at_leader: self.at_leader,
            }
        } else {
            Failover {
                cluster_id: self.cluster_id,
                urls: self.urls,
                next: self.urls.len(),
                at_leader: self.at_leader,
            }
        }
    }

    /// Begins the search after `previous` was the last answer.
    pub fn start(previous: &MembersResponse) -> (res: (Failover, FailoverAction))
        ensures
            res.0.cluster_id == previous.cluster_id,
            string_views(res.0.urls@) == probe_order(
                member_views(previous.members@),
                previous.leader@,
            ),
            res.0.next == 0,
            !res.0.at_leader,
            res.1 == if res.0.urls.len() > 0 {
                FailoverAction::Connect(res.0.urls@[0])
            } else {
                FailoverAction::Failed(Error::DirectoryUnavailable)
            },
    {
        let urls = candidates(previous);
        let action = if urls.len() > 0 {
            FailoverAction::Connect(urls[0].clone())
        } else {
            FailoverAction::Failed(Error::DirectoryUnavailable)
        };
        (Failover { cluster_id: previous.cluster_id, urls, next: 0, at_leader: false }, action)
    }

    /// Takes the answer of the URL that was tried, `None` where it could
    /// not be reached, and says what to do next.
    pub fn on_answer(&mut self, answer: Option<MembersResponse>) -> (action: FailoverAction)
        ensures
            action == old(self).action_after(answer),
            *final(self) == old(self).state_after(answer),
    {
        let n = self.urls.len();
        if self.next >= n {
            return FailoverAction::Failed(Error::DirectoryUnavailable);
        }
        if let Some(response) = answer {
            if response.cluster_id == self.cluster_id {
                if self.at_leader {
                    let url = self.urls[self.next].clone();
                    self.next = n;
                    return FailoverAction::Done(url, response);
                }
                let MembersResponse { cluster_id: _, members: _, leader } = response;
                self.urls = leader.client_urls;
                self.next = 0;
                self.at_leader = true;
                return if self.urls.len() > 0 {
                    FailoverAction::Connect(self.urls[0].clone())
                } else {
                    FailoverAction::Failed(Error::DirectoryUnavailable)
                };
            }
        }
        if n - self.next > 1 {
            self.next = self.next + 1;
            FailoverAction::Connect(self.urls[self.next].clone())
        } else {
            self.next = n;
            FailoverAction::Failed(Error::DirectoryUnavailable)
        }
    }
}

/// While a member is looked for, the URLs are tried in their order: after
/// an answer that is not one for the cluster, the next URL is tried, and
/// after the last the search has failed.
pub proof fn lemma_failover_keeps_order(search: Failover, answer: Option<MembersResponse>)
    requires
        !search.ended(),
        !search.accepts(answer),
    ensures
        search.state_after(answer).urls == search.urls,
        search.state_after(answer).at_leader == search.at_leader,
        search.next + 1 < search.urls.len() ==> search.state_after(answer).next == search.next + 1
            && search.action_after(answer) == FailoverAction::Connect(
            search.urls@[search.next + 1],
        ),
        search.next + 1 == search.urls.len() ==> search.state_after(answer).ended()
            && search.action_after(answer) == FailoverAction::Failed(Error::DirectoryUnavailable),
{
}

/// The leader of the directory as this process knows it: the URL at which
/// it answered, the members it named and their cluster.
#[derive(Debug)]
pub struct LeaderClient {
    pub client: String,
    pub members: MembersResponse,
    pub cluster_id: u64,
}

impl LeaderClient {
    /// The leader that answered at `client` with `members`.
    pub fn new(client: String, members: MembersResponse) -> (leader: Self)
        ensures
            leader.client == client,
            leader.members == members,
            leader.cluster_id == members.cluster_id,
    {
        let cluster_id = members.cluster_id;
        LeaderClient { client, members, cluster_id }
    }

    pub fn cluster_id(&self) -> (id: u64)
        ensures
            id == self.cluster_id,
    {
        self.cluster_id
    }

    /// Begins the validation of the seed endpoints from which the leader
    /// is found. An endpoint that is named twice ends it before any
    /// endpoint is asked.
    pub fn validate_endpoints(endpoints: Vec<String>) -> (res: Result<
        (Validation, ValidationAction),
        Error,
    >)
        ensures
            has_duplicate(string_views(endpoints@)) ==> res == Err::<
                (Validation, ValidationAction),
                Error,
            >(Error::DuplicateMember),
            !has_duplicate(string_views(endpoints@)) ==> res == Ok::<
                (Validation, ValidationAction),
                Error,
            >((Validation::initial(endpoints), Validation::first_action(endpoints))),
    {
        Validation::start(endpoints)
    }

    /// Takes the leader that a search has found.
    pub fn update(&mut self, client: String, members: MembersResponse)
        ensures
            final(self).client == client,
            final(self).members == members,
            final(self).cluster_id == old(self).cluster_id,
    {
        self.client = client;
        self.members = members;
    }
}

/// A question to the leader: which region holds `region_key`?
#[derive(Debug)]
pub struct GetRegionRequest {
    pub cluster_id: u64,
    pub region_key: Vec<u8>,
}

/// The leader's answer to a `GetRegionRequest`.
#[derive(Debug)]
pub struct GetRegionResponse {
    pub region: Option<RegionMeta>,
    pub leader: Option<PeerMeta>,
}

/// A question to the leader for the cluster `cluster_id`, with no key yet.
pub fn new_pd_request(cluster_id: u64) -> (request: GetRegionRequest)
    ensures
        request.cluster_id == cluster_id,
        request.region_key@ == Seq::<u8>::empty(),
{
    GetRegionRequest { cluster_id, region_key: Vec::new() }
}

/// How often one question is put to the directory before it is given up.
pub const LOOKUP_RETRY_LIMIT: u32 = 3;

/// What happened to a question to the directory.
#[derive(Clone, Copy, Debug, PartialEq, Eq, Structural)]
pub enum LookupEvent {
    /// The leader could not be reached.
    TransportFailed,
    /// A search found a leader.
    Refreshed,
    /// A search found no leader.
    RefreshFailed,
}

/// What to do about a question to the directory.
#[derive(Debug)]
pub enum LookupAction {
    /// Put the question to the leader.
    Ask,
    /// Search for the leader.
    Refresh,
    /// Give the question up.
    GiveUp(Error),
}

/// A question to the directory and how often it was put.
#[derive(Clone, Copy, Debug, PartialEq, Eq, Structural)]
pub struct Lookup {
    /// How often the question was put, this time included.
    pub attempts: u32,
    /// Whether a search for the leader is under way.
    pub refreshing: bool,
}

impl Lookup {
    /// The state after `event`.
    pub open spec fn state_after(self, event: LookupEvent) -> Lookup {
        match event {
            LookupEvent::TransportFailed => if !self.refreshing && self.attempts
                < LOOKUP_RETRY_LIMIT {
                Lookup { attempts: self.attempts, refreshing: true }
            } else {
                self
            },
            LookupEvent::Refreshed => if self.refreshing && self.attempts < LOOKUP_RETRY_LIMIT {
                Lookup { attempts: (self.attempts + 1) as u32, refreshing: false }
            } else {
                self
            },
            LookupEvent::RefreshFailed => self,
        }
    }

    /// Whether the question is put again after `event`.
    pub open spec fn asks_after(self, event: LookupEvent) -> bool {
        event == LookupEvent::Refreshed && self.refreshing && self.attempts < LOOKUP_RETRY_LIMIT
    }

    /// Whether the leader is searched for after `event`.
    pub open spec fn refreshes_after(self, event: LookupEvent) -> bool {
        event == LookupEvent::TransportFailed && !self.refreshing && self.attempts
            < LOOKUP_RETRY_LIMIT
    }

    /// A question that is put for the first time.
    pub fn start() -> (res: (Lookup, LookupAction))
        ensures
            res.0 == (Lookup { attempts: 1, refreshing: false }),
            res.1 is Ask,
    {
        (Lookup { attempts: 1, refreshing: false }, LookupAction::Ask)
    }

    /// Takes `event` and says what to do next. A question that cannot be
    /// put is followed by a search for the leader and put again, up to
    /// `LOOKUP_RETRY_LIMIT` times in all; then, and where no leader is
    /// found, it is given up with `DirectoryUnavailable`.
    pub fn step(&mut self, event: LookupEvent) -> (action: LookupAction)
        ensures
            *final(self) == old(self).state_after(event),
            old(self).asks_after(event) ==> action is Ask,
            old(self).refreshes_after(event) ==> action is Refresh,
            !old(self).asks_after(event) && !old(self).refreshes_after(event) ==> action
                == LookupAction::GiveUp(Error::DirectoryUnavailable),
    {
        match event {
            LookupEvent::TransportFailed => {
                if !self.refreshing && self.attempts < LOOKUP_RETRY_LIMIT {
                    self.refreshing = true;
                    LookupAction::Refresh
                } else {
                    LookupAction::GiveUp(Error::DirectoryUnavailable)
                }
            },
            LookupEvent::Refreshed => {
                if self.refreshing && self.attempts < LOOKUP_RETRY_LIMIT {
                    self.attempts = self.attempts + 1;
                    self.refreshing = false;
                    LookupAction::Ask
                } else {
                    LookupAction::GiveUp(Error::DirectoryUnavailable)
                }
            },
            LookupEvent::RefreshFailed => LookupAction::GiveUp(Error::DirectoryUnavailable),
        }
    }
}

/// A question is put `LOOKUP_RETRY_LIMIT` times at most.
pub proof fn lemma_lookup_is_bounded(lookup: Lookup, event: LookupEvent)
    requires
        1 <= lookup.attempts <= LOOKUP_RETRY_LIMIT,
    ensures
        1 <= lookup.state_after(event).attempts <= LOOKUP_RETRY_LIMIT,
        lookup.asks_after(event) ==> lookup.state_after(event).attempts == lookup.attempts + 1,
        !lookup.asks_after(event) ==> lookup.state_after(event).attempts == lookup.attempts,
{
}

/// The client of the placement directory: the cluster and its leader.
#[derive(Debug)]
pub struct PDClient {
    cluster_id: u64,
    leader: LeaderClient,
}

impl PDClient {
    pub closed spec fn spec_cluster_id(&self) -> u64 {
        self.cluster_id
    }

    pub closed spec fn spec_leader(&self) -> LeaderClient {
        self.leader
    }

    /// A client that asks `leader`.
    pub fn new(leader: LeaderClient) -> (client: Self)
        ensures
            client.spec_leader() == leader,
            client.cluster_id() == leader.cluster_id,
    {
        let cluster_id = leader.cluster_id();
        PDClient { cluster_id, leader }
    }

    #[verifier::when_used_as_spec(spec_cluster_id)]
    pub fn cluster_id(&self) -> (id: u64)
        ensures
            id == self.spec_cluster_id(),
    {
        self.cluster_id
    }

    /// The leader as it is known.
    pub fn leader(&self) -> (leader: &LeaderClient)
        ensures
            *leader == self.spec_leader(),
    {
        &self.leader
    }

    /// The member that leads the directory.
    pub fn get_leader(&self) -> (leader: &Member)
        ensures
            *leader == self.spec_leader().members.leader,
    {
        &self.leader.members.leader
    }

    /// Takes the leader that a search has found.
    pub fn set_leader(&mut self, client: String, members: MembersResponse)
        ensures
            final(self).cluster_id() == old(self).cluster_id(),
            final(self).spec_leader().client == client,
            final(self).spec_leader().members == members,
            final(self).spec_leader().cluster_id == old(self).spec_leader().cluster_id,
    {
        self.leader.update(client, members);
    }

    /// The question to the leader for the region that holds `key`.
    pub fn region_request(&self, key: &[u8]) -> (request: GetRegionRequest)
        ensures
            request.cluster_id == self.cluster_id(),
            request.region_key@ == key@,
    {
        let mut request = new_pd_request(self.cluster_id);
        request.region_key = crate::wire::copy_range(key, 0, key.len());
        request
    }

    /// The region and its leader in the answer to a question; an error
    /// where the answer names no region.
    pub fn get_region_and_leader(response: GetRegionResponse) -> (res: Result<
        (RegionMeta, Option<PeerMeta>),
        Error,
    >)
        ensures
            match response.region {
                Some(region) => res == Ok::<(RegionMeta, Option<PeerMeta>), Error>(
                    (region, response.leader),
                ),
                None => res matches Err(e) && e is PdError,
            },
    {
        let GetRegionResponse { region, leader } = response;
        match region {
            Some(region) => Ok((region, leader)),
            None => Err(Error::PdError(String::new())),
        }
    }

    /// The region that the answer to a question names; an error where it
    /// names none.
    pub fn get_region(response: GetRegionResponse) -> (res: Result<Region, Error>)
        ensures
            match response.region {
                Some(region) => res matches Ok(found) && found.region == region && found.leader
                    == match response.leader {
                    Some(peer) => Some(super::context::Peer(peer)),
                    None => None,
                },
                None => res matches Err(e) && e is PdError,
            },
    {
        match PDClient::get_region_and_leader(response) {
            Ok((region, leader)) => Ok(Region::new(region, leader)),
            Err(e) => Err(e),
        }
    }
}

} // verus!
