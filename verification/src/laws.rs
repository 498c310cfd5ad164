//! What holds of the ledger as a whole, stated over its mathematical
//! state and proved of every state and every request.

use vstd::prelude::*;
use vstd::set_lib::lemma_len_subset;
use crate::address::{anchor, digest, lemma_digest_injective};
use crate::ledger::{
    after_link, after_put, after_remove, after_update, empty_ledger, put_outcome, remove_outcome,
    sound, update_outcome, LedgerView,
};
use crate::links::{selected, selects, LinkMatch, LinkType, LinkView};
use crate::lists::lemma_take_next_to_set;
use crate::moderation::{
    is_banned, is_banned_by_history, is_violation, violations, violations_in_history,
    ChainRecordView,
};
use crate::types::{Content, LedgerError, PostView, MAX_MESSAGE_LEN};
use crate::workflow::{
    after_create_post, anchor_link, create_post_outcome, following, post_by, posts_of, steps_left,
    ReplyView, StepView,
};

verus! {

/// A request that may change a ledger. `update_post` is an `Update` with a
/// post; `delete_post` is a `Remove`.
pub ghost enum Request {
    CreatePost { caller: Seq<char>, message: Seq<char>, timestamp: u64 },
    Put { content: Content },
    Update { address: Seq<u8>, content: Content },
    Remove { address: Seq<u8> },
    Link { link: LinkView },
}

/// The state after one request.
pub open spec fn apply(state: LedgerView, request: Request) -> LedgerView {
    match request {
        Request::CreatePost { caller, message, timestamp } => after_create_post(
            state,
            caller,
            message,
            timestamp,
        ),
        Request::Put { content } => after_put(state, content),
        Request::Update { address, content } => after_update(state, address, content),
        Request::Remove { address } => after_remove(state, address),
        Request::Link { link } => after_link(state, link),
    }
}

/// The state after a sequence of requests, the first of them first.
pub open spec fn run(state: LedgerView, requests: Seq<Request>) -> LedgerView
    decreases requests.len(),
{
    if requests.len() == 0 {
        state
    } else {
        apply(run(state, requests.drop_last()), requests.last())
    }
}

/// Whether everything in the first state is in the second as it was: each
/// address resolves as before, each link and each recorded deletion is
/// still there.
pub open spec fn extends(before: LedgerView, after: LedgerView) -> bool {
    &&& forall|address: Seq<u8>| #[trigger]
        before.entries.dom().contains(address) ==> after.entries.dom().contains(address)
            && after.entries[address] == before.entries[address]
    &&& before.links.subset_of(after.links)
    &&& before.retired.subset_of(after.retired)
}

/// A record under the address of its content is the content itself.
proof fn lemma_resolves_to_itself(state: LedgerView, content: Content)
    requires
        sound(state),
        state.entries.dom().contains(digest(content)),
    ensures
        state.entries[digest(content)] == content,
{
    lemma_digest_injective(state.entries[digest(content)], content);
}

/// No request takes a ledger out of the sound states: after any request
/// every record still sits under the address of its content, every stored
/// post has a message of at most `MAX_MESSAGE_LEN` characters, and every
/// quarantine record wraps a longer one.
pub proof fn law_requests_keep_sound(state: LedgerView, request: Request)
    requires
        sound(state),
    ensures
        sound(apply(state, request)),
{
}

/// History is immutable: no request removes a record, a link or a recorded
/// deletion, and none changes what an address resolves to.
pub proof fn law_requests_only_add(state: LedgerView, request: Request)
    requires
        sound(state),
    ensures
        extends(state, apply(state, request)),
{
    let after = apply(state, request);
    assert forall|address: Seq<u8>| #[trigger]
        state.entries.dom().contains(address) implies after.entries.dom().contains(address)
        && after.entries[address] == state.entries[address] by {
        let content = state.entries[address];
        lemma_resolves_to_itself(state, content);
        match request {
            Request::CreatePost { caller, message, timestamp } => {
                let post = post_by(caller, message, timestamp);
                if address == anchor(caller) {
                    lemma_digest_injective(content, Content::AgentIndex(caller));
                }
                if address == digest(Content::Post(post)) {
                    lemma_digest_injective(content, Content::Post(post));
                }
                if address == digest(Content::InvalidPost(post)) {
                    lemma_digest_injective(content, Content::InvalidPost(post));
                }
            },
            Request::Put { content: new } => {
                if address == digest(new) {
                    lemma_digest_injective(content, new);
                }
            },
            Request::Update { address: _, content: new } => {
                if address == digest(new) {
                    lemma_digest_injective(content, new);
                }
            },
            _ => {},
        }
    }
}

/// The same, of any sequence of requests; and the state stays sound.
pub proof fn law_history_is_immutable(state: LedgerView, requests: Seq<Request>)
    requires
        sound(state),
    ensures
        sound(run(state, requests)),
        extends(state, run(state, requests)),
    decreases requests.len(),
{
    if requests.len() > 0 {
        let middle = run(state, requests.drop_last());
        law_history_is_immutable(state, requests.drop_last());
        law_requests_keep_sound(middle, requests.last());
        law_requests_only_add(middle, requests.last());
    }
}

/// More links show no fewer violations.
pub proof fn lemma_violations_grow_with_links(
    fewer: Set<LinkView>,
    more: Set<LinkView>,
    author: Seq<char>,
)
    requires
        more.finite(),
        fewer.subset_of(more),
    ensures
        violations(fewer, author) <= violations(more, author),
{
    let pick = |link: LinkView|
        selects(
            anchor(author),
            LinkMatch::Exactly(LinkType::InvalidPosts),
            LinkMatch::Any,
            link,
        );
    more.lemma_len_filter(pick);
    lemma_len_subset(fewer.filter(pick), more.filter(pick));
}

/// A longer history shows no fewer violations, so an author whom a
/// snapshot of their history shows to be banned is banned by every later
/// snapshot. Where no snapshot is supplied, no one is banned.
pub proof fn law_history_ban_is_permanent(
    history: Seq<ChainRecordView>,
    later: Seq<ChainRecordView>,
    author: Seq<char>,
)
    ensures
        violations_in_history(history, author) <= violations_in_history(history + later, author),
        is_banned_by_history(Some(history), author) ==> is_banned_by_history(
            Some(history + later),
            author,
        ),
        !is_banned_by_history(None, author),
{
    Seq::filter_distributes_over_add(
        history,
        later,
        |record: ChainRecordView| is_violation(record, author),
    );
}

/// Putting a content twice is putting it once: the second call returns what
/// the first returned and changes nothing.
pub proof fn law_put_is_idempotent(state: LedgerView, content: Content)
    ensures
        put_outcome(after_put(state, content), content) == put_outcome(state, content),
        after_put(after_put(state, content), content) == after_put(state, content),
{
    let once = after_put(state, content);
    if put_outcome(state, content) is Ok {
        assert(once.entries.insert(digest(content), content) =~= once.entries);
    }
}

/// Committing the anchor of an agent always succeeds and yields the same
/// address each time, whatever the ledger holds: the address is a function
/// of the agent's address alone.
pub proof fn law_anchor_is_stable(first: LedgerView, second: LedgerView, agent: Seq<char>)
    ensures
        put_outcome(first, Content::AgentIndex(agent)) == Ok::<Seq<u8>, LedgerError>(anchor(agent)),
        put_outcome(second, Content::AgentIndex(agent)) == put_outcome(
            first,
            Content::AgentIndex(agent),
        ),
        put_outcome(after_put(first, Content::AgentIndex(agent)), Content::AgentIndex(agent))
            == put_outcome(first, Content::AgentIndex(agent)),
{
}

/// A post of at most `MAX_MESSAGE_LEN` characters by an author who is not
/// banned is accepted: `create_post` returns its address, the address
/// resolves to the post with that very message, and an `AuthorPost` link
/// leads from the caller's anchor to it.
pub proof fn law_short_post_is_published(
    state: LedgerView,
    caller: Seq<char>,
    message: Seq<char>,
    timestamp: u64,
)
    requires
        message.len() <= MAX_MESSAGE_LEN,
        !is_banned(state.links, caller),
    ensures
        ({
            let post = post_by(caller, message, timestamp);
            let address = digest(Content::Post(post));
            let after = after_create_post(state, caller, message, timestamp);
            &&& create_post_outcome(state, caller, message, timestamp) == Ok::<
                Seq<u8>,
                LedgerError,
            >(address)
            &&& after.entries.dom().contains(address)
            &&& after.entries[address] == Content::Post(post)
            &&& after.entries.dom().contains(anchor(caller))
            &&& after.links.contains(
                LinkView {
                    base: anchor(caller),
                    target: address,
                    link_type: LinkType::AuthorPost,
                    tag: Seq::empty(),
                },
            )
            &&& posts_of(after, caller).contains((address, post))
        }),
{
    let post = post_by(caller, message, timestamp);
    let after = after_create_post(state, caller, message, timestamp);
    let link = anchor_link(caller, Content::Post(post), LinkType::AuthorPost);
    assert(after.links.contains(link));
    assert(selected(
        after.links,
        anchor(caller),
        LinkMatch::Exactly(LinkType::AuthorPost),
        LinkMatch::Any,
    ).contains(link));
}

/// A post of more than `MAX_MESSAGE_LEN` characters is refused as
/// `TooLong`, whoever sends it, and quarantined: a quarantine record that
/// wraps the post with that very message is stored, and an `InvalidPosts`
/// link leads from the caller's anchor to it. The post itself is not
/// stored by this call, and the caller's violations go up by one unless
/// the same post was quarantined before.
pub proof fn law_long_post_is_quarantined(
    state: LedgerView,
    caller: Seq<char>,
    message: Seq<char>,
    timestamp: u64,
)
    requires
        sound(state),
        message.len() > MAX_MESSAGE_LEN,
    ensures
        ({
            let post = post_by(caller, message, timestamp);
            let record = digest(Content::InvalidPost(post));
            let after = after_create_post(state, caller, message, timestamp);
            let link = LinkView {
                base: anchor(caller),
                target: record,
                link_type: LinkType::InvalidPosts,
                tag: Seq::empty(),
            };
            &&& create_post_outcome(state, caller, message, timestamp) == Err::<
                Seq<u8>,
                LedgerError,
            >(LedgerError::TooLong)
            &&& after.entries.dom().contains(record)
            &&& after.entries[record] == Content::InvalidPost(post)
            &&& after.entries.dom().contains(anchor(caller))
            &&& after.links.contains(link)
            &&& !after.entries.dom().contains(digest(Content::Post(post)))
            &&& violations(after.links, caller) == violations(state.links, caller) + (if state.links.contains(
                link,
            ) {
                0nat
            } else {
                1nat
            })
        }),
{
    let post = post_by(caller, message, timestamp);
    let after = after_create_post(state, caller, message, timestamp);
    let link = anchor_link(caller, Content::InvalidPost(post), LinkType::InvalidPosts);
    let pick = |link: LinkView|
        selects(
            anchor(caller),
            LinkMatch::Exactly(LinkType::InvalidPosts),
            LinkMatch::Any,
            link,
        );
    state.links.lemma_len_filter(pick);
    assert(after.links.filter(pick) =~= state.links.filter(pick).insert(link));
    if after.entries.dom().contains(digest(Content::Post(post))) {
        let address = digest(Content::Post(post));
        if address == digest(Content::InvalidPost(post)) {
            lemma_digest_injective(Content::Post(post), Content::InvalidPost(post));
        } else if address == anchor(caller) {
            lemma_digest_injective(Content::Post(post), Content::AgentIndex(caller));
        } else {
            lemma_resolves_to_itself(state, Content::Post(post));
        }
    }
}

/// No request lowers the number of an author's violations.
pub proof fn law_violations_never_decrease(state: LedgerView, request: Request, author: Seq<char>)
    requires
        sound(state),
    ensures
        violations(state.links, author) <= violations(apply(state, request).links, author),
{
    law_requests_keep_sound(state, request);
    law_requests_only_add(state, request);
    lemma_violations_grow_with_links(state.links, apply(state, request).links, author);
}

/// A ban is for good. Once an author has more than `BAN_THRESHOLD`
/// violations, they are banned after any sequence of requests by anyone,
/// and every post they then send is refused: as `AuthorBanned` where the
/// message has at most `MAX_MESSAGE_LEN` characters, as `TooLong` where it
/// is longer, since the length is judged first.
pub proof fn law_ban_is_permanent(
    state: LedgerView,
    requests: Seq<Request>,
    author: Seq<char>,
    message: Seq<char>,
    timestamp: u64,
)
    requires
        sound(state),
        is_banned(state.links, author),
    ensures
        is_banned(run(state, requests).links, author),
        create_post_outcome(run(state, requests), author, message, timestamp) == Err::<
            Seq<u8>,
            LedgerError,
        >(
            if message.len() <= MAX_MESSAGE_LEN {
                LedgerError::AuthorBanned
            } else {
                LedgerError::TooLong
            },
        ),
{
    law_history_is_immutable(state, requests);
    lemma_violations_grow_with_links(state.links, run(state, requests).links, author);
}

/// A quarantine record is immutable: a modification or a deletion aimed at
/// its address is refused as `ImmutableRecord`, and so is any modification
/// that would put a quarantine record in place of another record. The
/// ledger stays as it was.
pub proof fn law_quarantine_is_immutable(state: LedgerView, address: Seq<u8>, content: Content)
    requires
        state.entries.dom().contains(address),
    ensures
        state.entries[address] is InvalidPost ==> {
            &&& update_outcome(state, address, content) == Err::<Seq<u8>, LedgerError>(
                LedgerError::ImmutableRecord,
            )
            &&& remove_outcome(state, address) == Err::<(), LedgerError>(
                LedgerError::ImmutableRecord,
            )
            &&& after_update(state, address, content) == state
            &&& after_remove(state, address) == state
        },
        content is InvalidPost ==> {
            &&& update_outcome(state, address, content) == Err::<Seq<u8>, LedgerError>(
                LedgerError::ImmutableRecord,
            )
            &&& after_update(state, address, content) == state
        },
{
}

/// The step in which the work is after the ledger has answered each step
/// in turn with the replies, the first of them first.
pub open spec fn follow(step: StepView, replies: Seq<ReplyView>, message: Seq<char>) -> StepView
    decreases replies.len(),
{
    if replies.len() == 0 {
        step
    } else {
        following(follow(step, replies.drop_last(), message), replies.last(), message)
    }
}

/// Publishing a post ends: whatever the ledger answers, the work is done
/// after four replies at most, and each reply before that brings it a step
/// nearer.
pub proof fn law_publishing_ends(replies: Seq<ReplyView>, message: Seq<char>)
    ensures
        follow(StepView::PutAnchor, replies, message) is Done || steps_left(
            follow(StepView::PutAnchor, replies, message),
        ) + replies.len() <= 4,
        replies.len() >= 4 ==> follow(StepView::PutAnchor, replies, message) is Done,
    decreases replies.len(),
{
    if replies.len() > 0 {
        law_publishing_ends(replies.drop_last(), message);
    }
}

/// A failure is handed on as it is and nothing is tried again. When a step
/// fails, the work is done and the caller gets that failure, with the one
/// exception of a refused post whose message is too long: it is
/// quarantined first.
pub proof fn law_failure_ends_publishing(step: StepView, error: LedgerError, message: Seq<char>)
    requires
        !(step is Done),
        !(step is PutPost && message.len() > MAX_MESSAGE_LEN),
    ensures
        following(step, ReplyView::Failed(error), message) == (StepView::Done {
            outcome: Err(error),
        }),
{
}

/// The caller gets the address of the post only after the post was stored
/// and linked: the work ends in success only from the step that links an
/// accepted post, and then with the address under which it was stored.
pub proof fn law_success_needs_the_link(step: StepView, reply: ReplyView, message: Seq<char>)
    requires
        !(step is Done),
        following(step, reply, message) is Done,
        following(step, reply, message)->outcome is Ok,
    ensures
        step is LinkPost,
        reply is Linked,
        following(step, reply, message)->outcome == Ok::<Seq<u8>, LedgerError>(step->LinkPost_post),
{
}

/// A message with its timestamp: what an author hands to `create_post`.
pub type Draft = (Seq<char>, u64);

/// The state after the author has sent the drafts one after the other.
pub open spec fn publish_all(state: LedgerView, caller: Seq<char>, drafts: Seq<Draft>) -> LedgerView
    decreases drafts.len(),
{
    if drafts.len() == 0 {
        state
    } else {
        after_create_post(
            publish_all(state, caller, drafts.drop_last()),
            caller,
            drafts.last().0,
            drafts.last().1,
        )
    }
}

/// The post that the author makes of a draft, with its address.
pub open spec fn addressed_post(caller: Seq<char>, draft: Draft) -> (Seq<u8>, PostView) {
    let post = post_by(caller, draft.0, draft.1);
    (digest(Content::Post(post)), post)
}

/// The posts that the author makes of the drafts, each with its address.
pub open spec fn published(caller: Seq<char>, drafts: Seq<Draft>) -> Set<(Seq<u8>, PostView)> {
    drafts.map_values(|draft: Draft| addressed_post(caller, draft)).to_set()
}

/// An agent has finitely many posts.
pub proof fn lemma_posts_are_finite(state: LedgerView, agent: Seq<char>)
    requires
        state.links.finite(),
    ensures
        posts_of(state, agent).finite(),
{
    let pick = |link: LinkView|
        selects(
            anchor(agent),
            LinkMatch::Exactly(LinkType::AuthorPost),
            LinkMatch::Any,
            link,
        );
    let pair_of = |link: LinkView|
        (
            link.target,
            match state.entries[link.target] {
                Content::Post(post) => post,
                _ => arbitrary(),
            },
        );
    let chosen = state.links.filter(pick);
    state.links.lemma_len_filter(pick);
    chosen.lemma_map_finite(pair_of);
    assert forall|pair: (Seq<u8>, PostView)| posts_of(state, agent).contains(pair) implies chosen.map(
        pair_of,
    ).contains(pair) by {
        let link = choose|link: LinkView| #[trigger] chosen.contains(link) && link.target == pair.0;
        assert(pair_of(link) == pair);
    }
    lemma_len_subset(posts_of(state, agent), chosen.map(pair_of));
}

/// A published post is retrieved: after an accepted `create_post` the
/// author's posts are those of before and the new one, under the address
/// that the call returned. The author is as little banned as before.
pub proof fn law_published_post_is_retrieved(
    state: LedgerView,
    caller: Seq<char>,
    message: Seq<char>,
    timestamp: u64,
)
    requires
        sound(state),
        message.len() <= MAX_MESSAGE_LEN,
        !is_banned(state.links, caller),
    ensures
        posts_of(after_create_post(state, caller, message, timestamp), caller) == posts_of(
            state,
            caller,
        ).insert(addressed_post(caller, (message, timestamp))),
        violations(after_create_post(state, caller, message, timestamp).links, caller)
            == violations(state.links, caller),
{
    let post = post_by(caller, message, timestamp);
    let address = digest(Content::Post(post));
    let after = after_create_post(state, caller, message, timestamp);
    let link = anchor_link(caller, Content::Post(post), LinkType::AuthorPost);
    let before_links = selected(
        state.links,
        anchor(caller),
        LinkMatch::Exactly(LinkType::AuthorPost),
        LinkMatch::Any,
    );
    let after_links = selected(
        after.links,
        anchor(caller),
        LinkMatch::Exactly(LinkType::AuthorPost),
        LinkMatch::Any,
    );
    law_requests_only_add(state, Request::CreatePost { caller, message, timestamp });
    law_short_post_is_published(state, caller, message, timestamp);
    assert(after_links =~= before_links.insert(link));
    assert forall|pair: (Seq<u8>, PostView)|
        posts_of(after, caller).contains(pair) <==> posts_of(state, caller).insert(
            (address, post),
        ).contains(pair) by {
        if posts_of(after, caller).contains(pair) && pair != (address, post) {
            let via = choose|via: LinkView| #[trigger]
                after_links.contains(via) && via.target == pair.0;
            if pair.0 == address {
            } else {
                assert(before_links.contains(via));
                if pair.0 == anchor(caller) {
                } else {
                    assert(state.entries.dom().contains(pair.0));
                }
            }
        }
        if posts_of(state, caller).contains(pair) {
            let via = choose|via: LinkView| #[trigger]
                before_links.contains(via) && via.target == pair.0;
            assert(after_links.contains(via));
        }
    }
    assert(posts_of(after, caller) =~= posts_of(state, caller).insert((address, post)));
    assert(selected(
        after.links,
        anchor(caller),
        LinkMatch::Exactly(LinkType::InvalidPosts),
        LinkMatch::Any,
    ) =~= selected(
        state.links,
        anchor(caller),
        LinkMatch::Exactly(LinkType::InvalidPosts),
        LinkMatch::Any,
    ));
}

/// Round trip. When an author who is not banned sends drafts of at most
/// `MAX_MESSAGE_LEN` characters each, every call is accepted, and the
/// author's posts are then those of before and the posts made of the
/// drafts, each under its address.
pub proof fn law_round_trip(state: LedgerView, caller: Seq<char>, drafts: Seq<Draft>)
    requires
        sound(state),
        !is_banned(state.links, caller),
        forall|i: int| 0 <= i < drafts.len() ==> (#[trigger] drafts[i]).0.len() <= MAX_MESSAGE_LEN,
    ensures
        sound(publish_all(state, caller, drafts)),
        violations(publish_all(state, caller, drafts).links, caller) == violations(
            state.links,
            caller,
        ),
        forall|i: int|
            0 <= i < drafts.len() ==> create_post_outcome(
                #[trigger] publish_all(state, caller, drafts.take(i)),
                caller,
                drafts[i].0,
                drafts[i].1,
            ) == Ok::<Seq<u8>, LedgerError>(addressed_post(caller, drafts[i]).0),
        posts_of(publish_all(state, caller, drafts), caller) == posts_of(state, caller).union(
            published(caller, drafts),
        ),
    decreases drafts.len(),
{
    let pairs = drafts.map_values(|draft: Draft| addressed_post(caller, draft));
    if drafts.len() == 0 {
        assert(pairs.to_set() =~= Set::empty());
        assert(posts_of(state, caller).union(published(caller, drafts)) =~= posts_of(state, caller));
    } else {
        let front = drafts.drop_last();
        let last = drafts.last();
        let middle = publish_all(state, caller, front);
        let front_pairs = front.map_values(|draft: Draft| addressed_post(caller, draft));
        law_round_trip(state, caller, front);
        law_requests_keep_sound(
            middle,
            Request::CreatePost { caller, message: last.0, timestamp: last.1 },
        );
        law_published_post_is_retrieved(middle, caller, last.0, last.1);
        assert forall|i: int| 0 <= i < drafts.len() implies create_post_outcome(
            #[trigger] publish_all(state, caller, drafts.take(i)),
            caller,
            drafts[i].0,
            drafts[i].1,
        ) == Ok::<Seq<u8>, LedgerError>(addressed_post(caller, drafts[i]).0) by {
            if i < front.len() {
                assert(drafts.take(i) =~= front.take(i));
                assert(front[i] == drafts[i]);
            } else {
                assert(drafts.take(i) =~= front);
            }
        }
        assert(pairs =~= front_pairs.push(addressed_post(caller, last)));
        assert(pairs.to_set() =~= front_pairs.to_set().insert(addressed_post(caller, last))) by {
            assert(pairs.take(front_pairs.len() as int) =~= front_pairs);
            assert(pairs.take(pairs.len() as int) =~= pairs);
            lemma_take_next_to_set(pairs, front_pairs.len() as int);
        }
        assert(posts_of(publish_all(state, caller, drafts), caller) =~= posts_of(state, caller).union(
            published(caller, drafts),
        ));
    }
}

/// Round trip, counted. After `n` accepted calls with drafts that differ
/// from each other and from what the author had published before, the
/// author has `n` posts more.
pub proof fn law_round_trip_count(state: LedgerView, caller: Seq<char>, drafts: Seq<Draft>)
    requires
        sound(state),
        !is_banned(state.links, caller),
        forall|i: int| 0 <= i < drafts.len() ==> (#[trigger] drafts[i]).0.len() <= MAX_MESSAGE_LEN,
        drafts.no_duplicates(),
        posts_of(state, caller).disjoint(published(caller, drafts)),
    ensures
        posts_of(publish_all(state, caller, drafts), caller).finite(),
        posts_of(publish_all(state, caller, drafts), caller).len() == posts_of(state, caller).len()
            + drafts.len(),
    decreases drafts.len(),
{
    lemma_posts_are_finite(state, caller);
    if drafts.len() > 0 {
        let front = drafts.drop_last();
        let last = drafts.last();
        let middle = publish_all(state, caller, front);
        let pair = addressed_post(caller, last);
        let pairs = drafts.map_values(|draft: Draft| addressed_post(caller, draft));
        let front_pairs = front.map_values(|draft: Draft| addressed_post(caller, draft));
        assert forall|other: (Seq<u8>, PostView)| published(caller, front).contains(
            other,
        ) implies published(caller, drafts).contains(other) && other != pair by {
            let j = choose|j: int| 0 <= j < front_pairs.len() && front_pairs[j] == other;
            assert(pairs[j] == other);
            assert(front[j] == drafts[j]);
            assert(drafts[j] != drafts[drafts.len() - 1]);
            assert(drafts[j].0 != last.0 || drafts[j].1 != last.1);
        }
        assert(published(caller, drafts).contains(pair)) by {
            assert(pairs[drafts.len() - 1] == pair);
        }
        law_round_trip_count(state, caller, front);
        law_round_trip(state, caller, front);
        law_published_post_is_retrieved(middle, caller, last.0, last.1);
        assert(!posts_of(middle, caller).contains(pair));
    }
}

/// Round trip from nothing: after `n` calls by one author with drafts of at
/// most `MAX_MESSAGE_LEN` characters that differ from each other, on a
/// ledger that held nothing, the author has exactly `n` posts, and they are
/// the posts made of the drafts.
pub proof fn law_round_trip_from_empty(caller: Seq<char>, drafts: Seq<Draft>)
    requires
        forall|i: int| 0 <= i < drafts.len() ==> (#[trigger] drafts[i]).0.len() <= MAX_MESSAGE_LEN,
        drafts.no_duplicates(),
    ensures
        posts_of(publish_all(empty_ledger(), caller, drafts), caller) == published(
            caller,
            drafts,
        ),
        posts_of(publish_all(empty_ledger(), caller, drafts), caller).len()
            == drafts.len(),
{
    let state = empty_ledger();
    let none = selected(
        state.links,
        anchor(caller),
        LinkMatch::Exactly(LinkType::InvalidPosts),
        LinkMatch::Any,
    );
    assert(none =~= Set::empty());
    assert(posts_of(state, caller) =~= Set::empty());
    law_round_trip(state, caller, drafts);
    law_round_trip_count(state, caller, drafts);
    assert(posts_of(state, caller).union(published(caller, drafts)) =~= published(caller, drafts));
}

/// The link that publishing puts on a record: from the author's anchor to
/// the record, `AuthorPost` for a post, `InvalidPosts` for a quarantine
/// record, with the empty tag. An anchor has none.
pub open spec fn home_link(content: Content) -> Option<LinkView> {
    match content {
        Content::Post(post) => Some(anchor_link(post.author, content, LinkType::AuthorPost)),
        Content::InvalidPost(post) => Some(anchor_link(post.author, content, LinkType::InvalidPosts)),
        Content::AgentIndex(_) => None,
    }
}

/// Whether records and links go together as publishing leaves them: every
/// post and every quarantine record has its link, and there is no other
/// link.
pub open spec fn tidy(state: LedgerView) -> bool {
    &&& forall|address: Seq<u8>| #[trigger]
        state.entries.dom().contains(address) ==> home_link(state.entries[address]) is None
            || state.links.contains(home_link(state.entries[address])->Some_0)
    &&& forall|link: LinkView| #[trigger]
        state.links.contains(link) ==> state.entries.dom().contains(link.target) && home_link(
            state.entries[link.target],
        ) == Some(link)
}

/// Whether the request is one of the post workflow that writes no record
/// without its link: `create_post` or `delete_post`.
pub open spec fn publishes(request: Request) -> bool {
    request is CreatePost || request is Remove
}

/// Publishing and deleting keep a ledger tidy.
pub proof fn law_publishing_keeps_tidy(state: LedgerView, request: Request)
    requires
        sound(state),
        tidy(state),
        publishes(request),
    ensures
        tidy(apply(state, request)),
{
    let after = apply(state, request);
    law_requests_only_add(state, request);
    match request {
        Request::CreatePost { caller, message, timestamp } => {
            let post = post_by(caller, message, timestamp);
            assert forall|address: Seq<u8>| #[trigger]
                after.entries.dom().contains(address) implies home_link(after.entries[address]) is None
                || after.links.contains(home_link(after.entries[address])->Some_0) by {
                if state.entries.dom().contains(address) {
                    assert(after.entries[address] == state.entries[address]);
                }
            }
            assert forall|link: LinkView| #[trigger]
                after.links.contains(link) implies after.entries.dom().contains(link.target)
                && home_link(after.entries[link.target]) == Some(link) by {
                if state.links.contains(link) {
                    assert(state.entries.dom().contains(link.target));
                }
            }
        },
        _ => {},
    }
}

/// In a ledger that was filled by publishing alone, every post has exactly
/// one link: whatever link leads to a post is the `AuthorPost` link from
/// its author's anchor, and that link is there. Likewise every quarantine
/// record has exactly one link, the `InvalidPosts` link from its author's
/// anchor.
pub proof fn law_one_link_for_each_record(requests: Seq<Request>, address: Seq<u8>, link: LinkView)
    requires
        forall|i: int| 0 <= i < requests.len() ==> publishes(#[trigger] requests[i]),
        run(empty_ledger(), requests).entries.dom().contains(address),
        !(run(empty_ledger(), requests).entries[address] is AgentIndex),
    ensures
        sound(run(empty_ledger(), requests)),
        tidy(run(empty_ledger(), requests)),
        ({
            let state = run(empty_ledger(), requests);
            let own = home_link(state.entries[address])->Some_0;
            &&& state.links.contains(own)
            &&& own.target == address
            &&& state.links.contains(link) && link.target == address ==> link == own
        }),
{
    lemma_published_ledger_is_tidy(requests);
    let state = run(empty_ledger(), requests);
    assert(sound(state));
    lemma_resolves_to_itself(state, state.entries[address]);
}

/// A ledger that was filled by publishing alone is sound and tidy.
pub proof fn lemma_published_ledger_is_tidy(requests: Seq<Request>)
    requires
        forall|i: int| 0 <= i < requests.len() ==> publishes(#[trigger] requests[i]),
    ensures
        sound(run(empty_ledger(), requests)),
        tidy(run(empty_ledger(), requests)),
    decreases requests.len(),
{
    if requests.len() > 0 {
        let front = requests.drop_last();
        assert forall|i: int| 0 <= i < front.len() implies publishes(#[trigger] front[i]) by {
            assert(front[i] == requests[i]);
        }
        lemma_published_ledger_is_tidy(front);
        let middle = run(empty_ledger(), front);
        law_requests_keep_sound(middle, requests.last());
        law_publishing_keeps_tidy(middle, requests.last());
    }
}

} // verus!
