//! The post workflow: what a participant can ask of the ledger. The caller's
//! identity is an argument of each operation.

use vstd::prelude::*;
use crate::address::{anchor, anchor_of, digest, Address};
use crate::ledger::{
    after_remove, after_update, remove_outcome, update_outcome, Ledger, LedgerView,
};
use crate::links::{link_views, selected, LinkMatch, LinkType, LinkView};
use crate::lists::{lemma_push_absent, lemma_take_next_to_set};
use crate::moderation::is_banned;
use crate::types::{
    Agent, AgentAddress, Content, Entry, InvalidPost, LedgerError, Post, PostView, MAX_MESSAGE_LEN,
};
use crate::validation::too_long;

verus! {

/// The post that `caller` makes of a message and a timestamp.
pub open spec fn post_by(caller: Seq<char>, message: Seq<char>, timestamp: u64) -> PostView {
    PostView { message, timestamp, author: caller }
}

/// The link from an agent's anchor to a record of the given content, with
/// the empty tag.
pub open spec fn anchor_link(agent: Seq<char>, content: Content, link_type: LinkType) -> LinkView {
    LinkView { base: anchor(agent), target: digest(content), link_type, tag: Seq::empty() }
}

/// What `create_post` returns: `TooLong` for a message of more than
/// `MAX_MESSAGE_LEN` characters, else `AuthorBanned` for a banned caller,
/// else the address of the post.
pub open spec fn create_post_outcome(
    state: LedgerView,
    caller: Seq<char>,
    message: Seq<char>,
    timestamp: u64,
) -> Result<Seq<u8>, LedgerError> {
    if message.len() > MAX_MESSAGE_LEN {
        Err(LedgerError::TooLong)
    } else if is_banned(state.links, caller) {
        Err(LedgerError::AuthorBanned)
    } else {
        Ok(digest(Content::Post(post_by(caller, message, timestamp))))
    }
}

/// The state after `create_post`. The caller's anchor is there in any case.
/// An accepted post is stored and linked from the anchor as `AuthorPost`. A
/// post refused for its length is quarantined: stored inside a quarantine
/// record that is linked from the anchor as `InvalidPosts`. A post refused
/// because its author is banned leaves nothing else behind.
pub open spec fn after_create_post(
    state: LedgerView,
    caller: Seq<char>,
    message: Seq<char>,
    timestamp: u64,
) -> LedgerView {
    let post = post_by(caller, message, timestamp);
    let anchored = state.entries.insert(anchor(caller), Content::AgentIndex(caller));
    if message.len() > MAX_MESSAGE_LEN {
        LedgerView {
            entries: anchored.insert(digest(Content::InvalidPost(post)), Content::InvalidPost(post)),
            links: state.links.insert(
                anchor_link(caller, Content::InvalidPost(post), LinkType::InvalidPosts),
            ),
            retired: state.retired,
        }
    } else if is_banned(state.links, caller) {
        LedgerView { entries: anchored, ..state }
    } else {
        LedgerView {
            entries: anchored.insert(digest(Content::Post(post)), Content::Post(post)),
            links: state.links.insert(anchor_link(caller, Content::Post(post), LinkType::AuthorPost)),
            retired: state.retired,
        }
    }
}

/// The posts of an agent: each pair of an address and a post such that an
/// `AuthorPost` link leaves the agent's anchor for the address and the
/// address resolves to the post.
pub open spec fn posts_of(state: LedgerView, agent: Seq<char>) -> Set<(Seq<u8>, PostView)> {
    linked_posts(
        selected(state.links, anchor(agent), LinkMatch::Exactly(LinkType::AuthorPost), LinkMatch::Any),
        state.entries,
    )
}

/// The pairs of an address and a post such that one of the links leads to
/// the address and the address resolves to the post.
pub open spec fn linked_posts(links: Set<LinkView>, entries: Map<Seq<u8>, Content>) -> Set<
    (Seq<u8>, PostView),
> {
    Set::new(
        |pair: (Seq<u8>, PostView)|
            {
                &&& exists|link: LinkView| #[trigger] links.contains(link) && link.target == pair.0
                &&& entries.dom().contains(pair.0)
                &&& entries[pair.0] == Content::Post(pair.1)
            },
    )
}

/// A list of addressed posts as mathematical values.
pub open spec fn post_views(posts: Seq<(Address, Post)>) -> Seq<(Seq<u8>, PostView)> {
    posts.map_values(|pair: (Address, Post)| (pair.0@, pair.1@))
}

/// One step of publishing a post: what is asked of the ledger next, with
/// what the steps before have brought.
#[derive(Debug)]
pub enum Step {
    /// Store the caller's anchor.
    PutAnchor,
    /// Store the post.
    PutPost { anchor: Address },
    /// Link the accepted post from the anchor as `AuthorPost`.
    LinkPost { anchor: Address, post: Address },
    /// Store the quarantine record of the post, which was refused with
    /// `refusal`.
    PutInvalidPost { anchor: Address, refusal: LedgerError },
    /// Link the quarantine record from the anchor as `InvalidPosts`.
    LinkInvalidPost { anchor: Address, record: Address, refusal: LedgerError },
    /// Nothing is left to do: `outcome` is what the caller gets.
    Done { outcome: Result<Address, LedgerError> },
}

/// A step as a mathematical value.
pub ghost enum StepView {
    PutAnchor,
    PutPost { anchor: Seq<u8> },
    LinkPost { anchor: Seq<u8>, post: Seq<u8> },
    PutInvalidPost { anchor: Seq<u8>, refusal: LedgerError },
    LinkInvalidPost { anchor: Seq<u8>, record: Seq<u8>, refusal: LedgerError },
    Done { outcome: Result<Seq<u8>, LedgerError> },
}

impl View for Step {
    type V = StepView;

    open spec fn view(&self) -> StepView {
        match self {
            Step::PutAnchor => StepView::PutAnchor,
            Step::PutPost { anchor } => StepView::PutPost { anchor: anchor@ },
            Step::LinkPost { anchor, post } => StepView::LinkPost { anchor: anchor@, post: post@ },
            Step::PutInvalidPost { anchor, refusal } => StepView::PutInvalidPost {
                anchor: anchor@,
                refusal: *refusal,
            },
            Step::LinkInvalidPost { anchor, record, refusal } => StepView::LinkInvalidPost {
                anchor: anchor@,
                record: record@,
                refusal: *refusal,
            },
            Step::Done { outcome } => StepView::Done {
                outcome: match outcome {
                    Ok(address) => Ok(address@),
                    Err(error) => Err(*error),
                },
            },
        }
    }
}

/// What the ledger answered to a step.
#[derive(Debug)]
pub enum Reply {
    /// The record was stored, under this address.
    Stored(Address),
    /// The link was added.
    Linked,
    /// The step failed, for this reason.
    Failed(LedgerError),
}

/// A reply as a mathematical value.
pub ghost enum ReplyView {
    Stored(Seq<u8>),
    Linked,
    Failed(LedgerError),
}

impl View for Reply {
    type V = ReplyView;

    open spec fn view(&self) -> ReplyView {
        match self {
            Reply::Stored(address) => ReplyView::Stored(address@),
            Reply::Linked => ReplyView::Linked,
            Reply::Failed(error) => ReplyView::Failed(*error),
        }
    }
}

impl Reply {
    /// The reply that the result of storing a record makes.
    pub fn stored(result: Result<Address, LedgerError>) -> (reply: Reply)
        ensures
            reply@ == match result {
                Ok(address) => ReplyView::Stored(address@),
                Err(error) => ReplyView::Failed(error),
            },
    {
        match result {
            Ok(address) => Reply::Stored(address),
            Err(error) => Reply::Failed(error),
        }
    }

    /// The reply that the result of adding a link makes.
    pub fn linked(result: Result<(), LedgerError>) -> (reply: Reply)
        ensures
            reply@ == match result {
                Ok(_) => ReplyView::Linked,
                Err(error) => ReplyView::Failed(error),
            },
    {
        match result {
            Ok(()) => Reply::Linked,
            Err(error) => Reply::Failed(error),
        }
    }
}

/// How many steps can follow a step at most.
pub open spec fn steps_left(step: StepView) -> nat {
    match step {
        StepView::PutAnchor => 4,
        StepView::PutPost { .. } => 3,
        StepView::PutInvalidPost { .. } => 2,
        StepView::LinkPost { .. } => 1,
        StepView::LinkInvalidPost { .. } => 1,
        StepView::Done { .. } => 0,
    }
}

/// The step that follows `step` once the ledger has answered with `reply`.
///
/// A failure ends the work and is handed on as it is, with one exception:
/// when the post is refused and its message is too long, the post is
/// quarantined first. A post refused for any other reason is not. After
/// the quarantine the caller gets the refusal of the post. A reply that is
/// no answer to the step ends the work with `StoreUnavailable`.
pub open spec fn following(step: StepView, reply: ReplyView, message: Seq<char>) -> StepView {
    match (step, reply) {
        (StepView::Done { outcome }, _) => StepView::Done { outcome },
        (_, ReplyView::Failed(error)) => match step {
            StepView::PutPost { anchor } if message.len() > MAX_MESSAGE_LEN => StepView::PutInvalidPost {
                anchor,
                refusal: error,
            },
            _ => StepView::Done { outcome: Err(error) },
        },
        (StepView::PutAnchor, ReplyView::Stored(anchor)) => StepView::PutPost { anchor },
        (StepView::PutPost { anchor }, ReplyView::Stored(post)) => StepView::LinkPost { anchor, post },
        (StepView::LinkPost { anchor, post }, ReplyView::Linked) => StepView::Done {
            outcome: Ok(post),
        },
        (StepView::PutInvalidPost { anchor, refusal }, ReplyView::Stored(record)) => StepView::LinkInvalidPost {
            anchor,
            record,
            refusal,
        },
        (StepView::LinkInvalidPost { anchor, record, refusal }, ReplyView::Linked) => StepView::Done {
            outcome: Err(refusal),
        },
        _ => StepView::Done { outcome: Err(LedgerError::StoreUnavailable) },
    }
}

/// Decides the next step of publishing a post with the given message from
/// the step that was taken and the ledger's reply to it. The work starts
/// with `Step::PutAnchor` and ends after at most four more steps in
/// `Step::Done`.
pub fn next_step(step: Step, reply: Reply, message: &String) -> (next: Step)
    ensures
        next@ == following(step@, reply@, message@),
        !(step@ is Done) ==> steps_left(next@) < steps_left(step@),
{
    match (step, reply) {
        (Step::Done { outcome }, _) => Step::Done { outcome },
        (Step::PutPost { anchor }, Reply::Failed(error)) => {
            if too_long(message.clone()).is_err() {
                Step::PutInvalidPost { anchor, refusal: error }
            } else {
                Step::Done { outcome: Err(error) }
            }
        },
        (_, Reply::Failed(error)) => Step::Done { outcome: Err(error) },
        (Step::PutAnchor, Reply::Stored(anchor)) => Step::PutPost { anchor },
        (Step::PutPost { anchor }, Reply::Stored(post)) => Step::LinkPost { anchor, post },
        (Step::LinkPost { anchor, post }, Reply::Linked) => Step::Done { outcome: Ok(post) },
        (Step::PutInvalidPost { anchor, refusal }, Reply::Stored(record)) => Step::LinkInvalidPost {
            anchor,
            record,
            refusal,
        },
        (Step::LinkInvalidPost { anchor, record, refusal }, Reply::Linked) => Step::Done {
            outcome: Err(refusal),
        },
        _ => Step::Done { outcome: Err(LedgerError::StoreUnavailable) },
    }
}

/// Whether the ledger is where the step says the work is: each step before
/// it was taken on the ledger and answered as the ledger answers.
pub open spec fn on_track(
    step: StepView,
    start: LedgerView,
    now: LedgerView,
    caller: Seq<char>,
    message: Seq<char>,
    timestamp: u64,
) -> bool {
    let post = post_by(caller, message, timestamp);
    let anchored = LedgerView {
        entries: start.entries.insert(anchor(caller), Content::AgentIndex(caller)),
        ..start
    };
    match step {
        StepView::PutAnchor => now == start,
        StepView::PutPost { anchor: base } => base == anchor(caller) && now == anchored,
        StepView::LinkPost { anchor: base, post: address } => {
            &&& base == anchor(caller)
            &&& address == digest(Content::Post(post))
            &&& create_post_outcome(start, caller, message, timestamp) is Ok
            &&& now == LedgerView {
                entries: anchored.entries.insert(address, Content::Post(post)),
                ..start
            }
        },
        StepView::PutInvalidPost { anchor: base, refusal } => {
            &&& base == anchor(caller)
            &&& message.len() > MAX_MESSAGE_LEN
            &&& refusal == LedgerError::TooLong
            &&& now == anchored
        },
        StepView::LinkInvalidPost { anchor: base, record, refusal } => {
            &&& base == anchor(caller)
            &&& message.len() > MAX_MESSAGE_LEN
            &&& refusal == LedgerError::TooLong
            &&& record == digest(Content::InvalidPost(post))
            &&& now == LedgerView {
                entries: anchored.entries.insert(record, Content::InvalidPost(post)),
                ..start
            }
        },
        StepView::Done { outcome } => {
            &&& outcome == create_post_outcome(start, caller, message, timestamp)
            &&& now == after_create_post(start, caller, message, timestamp)
        },
    }
}

/// Publishes a post in the caller's name and returns its address.
///
/// The caller's anchor is stored first. Then the post is put to the ledger.
/// An accepted post is linked from the anchor. A refused post whose message
/// is too long is quarantined and the quarantine record linked from the
/// anchor; the refusal is returned all the same. A post refused for a
/// banned author is not quarantined.
pub fn create_post(ledger: &mut Ledger, caller: &AgentAddress, message: String, timestamp: u64) -> (outcome:
    Result<Address, LedgerError>)
    requires
        old(ledger).wf(),
    ensures
        final(ledger).wf(),
        final(ledger)@ == after_create_post(old(ledger)@, caller@, message@, timestamp),
        match outcome {
            Ok(address) => create_post_outcome(old(ledger)@, caller@, message@, timestamp) == Ok::<
                Seq<u8>,
                LedgerError,
            >(address@),
            Err(error) => create_post_outcome(old(ledger)@, caller@, message@, timestamp) == Err::<
                Seq<u8>,
                LedgerError,
            >(error),
        },
{
    let post = Post::new(message.clone(), timestamp, caller.clone());
    let mut step = Step::PutAnchor;
    loop
        invariant
            ledger.wf(),
            post@ == post_by(caller@, message@, timestamp),
            on_track(step@, old(ledger)@, ledger@, caller@, message@, timestamp),
        decreases steps_left(step@),
    {
        let ghost before = ledger@;
        let reply = match &step {
            Step::PutAnchor => Reply::stored(ledger.put(Entry::AgentIndex(Agent::of(caller)))),
            Step::PutPost { .. } => Reply::stored(ledger.put(Entry::Post(post.clone()))),
            Step::PutInvalidPost { .. } => Reply::stored(
                ledger.put(Entry::InvalidPost(InvalidPost::new(post.clone()))),
            ),
            Step::LinkPost { anchor, post } => Reply::linked(
                ledger.link(anchor, post, LinkType::AuthorPost, String::new()),
            ),
            Step::LinkInvalidPost { anchor, record, .. } => Reply::linked(
                ledger.link(anchor, record, LinkType::InvalidPosts, String::new()),
            ),
            Step::Done { outcome } => {
                return match outcome {
                    Ok(address) => Ok(address.clone()),
                    Err(error) => Err(*error),
                };
            },
        };
        let ghost taken = step@;
        step = next_step(step, reply, &message);
        assert(on_track(step@, old(ledger)@, ledger@, caller@, message@, timestamp)) by {
            if step@ is Done {
                assert(ledger@ =~= after_create_post(old(ledger)@, caller@, message@, timestamp));
            }
        }
    }
}

/// What a link contributes to the posts of an agent: its target with the
/// post that the target resolves to. A target that does not resolve, or
/// resolves to something else than a post, contributes nothing.
pub fn linked_post(target: &Address, resolved: Option<Entry>) -> (found: Option<(Address, Post)>)
    ensures
        match found {
            Some(pair) => pair.0@ == target@ && resolved == Some(Entry::Post(pair.1)),
            None => !(resolved is Some && resolved->Some_0 is Post),
        },
{
    match resolved {
        Some(Entry::Post(post)) => Some((target.clone(), post)),
        _ => None,
    }
}

/// Whether one of the posts has the address.
fn holds_address(posts: &Vec<(Address, Post)>, address: &Address) -> (found: bool)
    ensures
        found == exists|i: int| 0 <= i < posts@.len() && (#[trigger] posts@[i]).0@ == address@,
{
    let mut i: usize = 0;
    while i < posts.len()
        invariant
            i <= posts.len(),
            forall|j: int| 0 <= j < i ==> (#[trigger] posts@[j]).0@ != address@,
        decreases posts.len() - i,
    {
        if posts[i].0 == *address {
            return true;
        }
        i += 1;
    }
    false
}

/// The posts of the agent with the given address, each with its address,
/// each once, in no particular order. The agent's anchor is computed from
/// the agent's address. A link whose target does not resolve to a post is
/// passed over.
pub fn retrieve_posts(ledger: &Ledger, address: &AgentAddress) -> (posts: Vec<(Address, Post)>)
    requires
        ledger.wf(),
    ensures
        post_views(posts@).no_duplicates(),
        post_views(posts@).to_set() == posts_of(ledger@, address@),
{
    let agent_address = anchor_of(address);
    let found = ledger.get_links(
        &agent_address,
        &LinkMatch::Exactly(LinkType::AuthorPost),
        &LinkMatch::Any,
    );
    let ghost links = link_views(found@);
    let ghost entries = ledger@.entries;
    let mut posts: Vec<(Address, Post)> = Vec::new();
    let mut i: usize = 0;
    proof {
        assert(post_views(posts@) =~= Seq::empty());
        assert(post_views(posts@).to_set() =~= linked_posts(links.take(0).to_set(), entries));
    }
    while i < found.len()
        invariant
            ledger.wf(),
            i <= found.len(),
            links == link_views(found@),
            entries == ledger@.entries,
            post_views(posts@).no_duplicates(),
            post_views(posts@).to_set() == linked_posts(links.take(i as int).to_set(), entries),
        decreases found.len() - i,
    {
        let target = found[i].target();
        let ghost before = post_views(posts@);
        let ghost seen = links.take(i as int).to_set();
        let ghost next = links.take(i + 1).to_set();
        proof {
            lemma_take_next_to_set(links, i as int);
            assert(links[i as int].target == target@);
            assert(next.contains(links[i as int]));
            assert forall|link: LinkView| seen.contains(link) implies next.contains(link) by {}
        }
        match linked_post(target, ledger.get(target)) {
            Some(found) => {
                if !holds_address(&posts, target) {
                    let ghost pair = (found.0@, found.1@);
                    let ghost prior = posts@;
                    posts.push(found);
                    proof {
                        let after = post_views(posts@);
                        assert(after =~= before.push(pair));
                        assert forall|j: int| 0 <= j < before.len() implies before[j] != pair by {
                            assert(prior[j].0@ == before[j].0);
                        }
                        lemma_push_absent(before, pair);
                        assert(after.to_set() =~= linked_posts(next, entries));
                    }
                } else {
                    proof {
                        let j = choose|j: int|
                            0 <= j < posts@.len() && (#[trigger] posts@[j]).0@ == target@;
                        assert(before[j].0 == target@);
                        assert(before.to_set().contains(before[j]));
                        assert(before.to_set() =~= linked_posts(next, entries));
                    }
                }
            },
            None => {
                assert(before.to_set() =~= linked_posts(next, entries));
            },
        }
        i += 1;
    }
    assert(links.take(i as int) =~= links);
    posts
}

/// Submits a new post in the caller's name as a modification of the record
/// at `post_address` and returns the address of the new post. The new post
/// is judged as a created one would be.
pub fn update_post(
    ledger: &mut Ledger,
    caller: &AgentAddress,
    post_address: &Address,
    message: String,
    timestamp: u64,
) -> (outcome: Result<Address, LedgerError>)
    requires
        old(ledger).wf(),
    ensures
        final(ledger).wf(),
        final(ledger)@ == after_update(
            old(ledger)@,
            post_address@,
            Content::Post(post_by(caller@, message@, timestamp)),
        ),
        match outcome {
            Ok(address) => update_outcome(
                old(ledger)@,
                post_address@,
                Content::Post(post_by(caller@, message@, timestamp)),
            ) == Ok::<Seq<u8>, LedgerError>(address@),
            Err(error) => update_outcome(
                old(ledger)@,
                post_address@,
                Content::Post(post_by(caller@, message@, timestamp)),
            ) == Err::<Seq<u8>, LedgerError>(error),
        },
{
    let post = Post::new(message, timestamp, caller.clone());
    ledger.update(post_address, Entry::Post(post))
}

/// Submits the deletion of the record at `post_address`.
pub fn delete_post(ledger: &mut Ledger, post_address: &Address) -> (outcome: Result<(), LedgerError>)
    requires
        old(ledger).wf(),
    ensures
        final(ledger).wf(),
        final(ledger)@ == after_remove(old(ledger)@, post_address@),
        outcome == remove_outcome(old(ledger)@, post_address@),
{
    ledger.remove(post_address)
}

/// The address of the calling agent.
pub fn get_agent_id(caller: &AgentAddress) -> (agent: AgentAddress)
    ensures
        agent@ == caller@,
{
    caller.clone()
}

/// A greeting, to see that the ledger answers.
pub fn hello_holo() -> (greeting: String)
    ensures
        greeting@ == "Hello Holo"@,
{
    "Hello Holo".to_owned()
}

} // verus!
