//! The link index: directed, typed, tagged edges between addresses, found
//! again by their base.

use vstd::prelude::*;
use crate::address::Address;
use crate::lists::{lemma_push_absent, lemma_take_next_to_set};

verus! {

/// What a link says of its target.
#[derive(Clone, Copy, Debug, PartialEq, Eq, Structural)]
pub enum LinkType {
    /// From an agent's anchor to a post that the agent published.
    AuthorPost,
    /// From an agent's anchor to the quarantine record of a refused post.
    InvalidPosts,
}

/// A filter on one property of a link: any value, or exactly one.
#[derive(Debug)]
pub enum LinkMatch<T> {
    Any,
    Exactly(T),
}

/// A link as a mathematical value.
pub ghost struct LinkView {
    pub base: Seq<u8>,
    pub target: Seq<u8>,
    pub link_type: LinkType,
    pub tag: Seq<char>,
}

/// A directed edge from `base` to `target`.
#[derive(Debug)]
pub struct Link {
    base: Address,
    target: Address,
    link_type: LinkType,
    tag: String,
}

impl View for Link {
    type V = LinkView;

    closed spec fn view(&self) -> LinkView {
        LinkView {
            base: self.base@,
            target: self.target@,
            link_type: self.link_type,
            tag: self.tag@,
        }
    }
}

impl Clone for Link {
    fn clone(&self) -> (copy: Self)
        ensures
            copy@ == self@,
    {
        Link {
            base: self.base.clone(),
            target: self.target.clone(),
            link_type: self.link_type,
            tag: self.tag.clone(),
        }
    }
}

impl Link {
    pub fn new(base: Address, target: Address, link_type: LinkType, tag: String) -> (link: Self)
        ensures
            link@ == (LinkView { base: base@, target: target@, link_type, tag: tag@ }),
    {
        Link { base, target, link_type, tag }
    }

    pub fn base(&self) -> (base: &Address)
        ensures
            base@ == self@.base,
    {
        &self.base
    }

    pub fn target(&self) -> (target: &Address)
        ensures
            target@ == self@.target,
    {
        &self.target
    }

    pub fn link_type(&self) -> (link_type: LinkType)
        ensures
            link_type == self@.link_type,
    {
        self.link_type
    }

    pub fn tag(&self) -> (tag: &String)
        ensures
            tag@ == self@.tag,
    {
        &self.tag
    }

}

impl PartialEq for Link {
    fn eq(&self, other: &Self) -> (equal: bool) {
        self.base == other.base && self.target == other.target && self.link_type
            == other.link_type && self.tag == other.tag
    }
}

impl Eq for Link {

}

impl vstd::std_specs::cmp::PartialEqSpecImpl for Link {
    open spec fn obeys_eq_spec() -> bool {
        true
    }

    open spec fn eq_spec(&self, other: &Self) -> bool {
        self@ == other@
    }
}

/// A tag filter as a mathematical value.
pub open spec fn tag_filter(tags: &LinkMatch<String>) -> LinkMatch<Seq<char>> {
    match tags {
        LinkMatch::Any => LinkMatch::Any,
        LinkMatch::Exactly(tag) => LinkMatch::Exactly(tag@),
    }
}

/// Whether a query by base, type and tag selects the link.
pub open spec fn selects(
    base: Seq<u8>,
    types: LinkMatch<LinkType>,
    tags: LinkMatch<Seq<char>>,
    link: LinkView,
) -> bool {
    &&& link.base == base
    &&& match types {
        LinkMatch::Any => true,
        LinkMatch::Exactly(link_type) => link.link_type == link_type,
    }
    &&& match tags {
        LinkMatch::Any => true,
        LinkMatch::Exactly(tag) => link.tag == tag,
    }
}

/// The links that a query selects.
pub open spec fn selected(
    links: Set<LinkView>,
    base: Seq<u8>,
    types: LinkMatch<LinkType>,
    tags: LinkMatch<Seq<char>>,
) -> Set<LinkView> {
    links.filter(|link: LinkView| selects(base, types, tags, link))
}

/// The links of a list as mathematical values, in the list's order.
pub open spec fn link_views(links: Seq<Link>) -> Seq<LinkView> {
    links.map_values(|link: Link| link@)
}

/// The set of links. No link is held twice.
#[derive(Debug)]
pub struct LinkIndex {
    links: Vec<Link>,
}

impl View for LinkIndex {
    type V = Set<LinkView>;

    closed spec fn view(&self) -> Set<LinkView> {
        link_views(self.links@).to_set()
    }
}

impl LinkIndex {
    /// The invariant of the index: it holds each link once.
    pub closed spec fn wf(&self) -> bool {
        link_views(self.links@).no_duplicates()
    }

    /// A well-formed index holds finitely many links.
    pub proof fn lemma_finite(&self)
        ensures
            self@.finite(),
    {
        vstd::seq_lib::seq_to_set_is_finite(link_views(self.links@));
    }

    /// The empty index.
    pub fn new() -> (index: Self)
        ensures
            index.wf(),
            index@ == Set::<LinkView>::empty(),
    {
        let index = LinkIndex { links: Vec::new() };
        assert(link_views(index.links@) =~= Seq::<LinkView>::empty());
        assert(index@ =~= Set::<LinkView>::empty());
        index
    }

    /// Whether the index holds the link.
    pub fn contains(&self, link: &Link) -> (found: bool)
        ensures
            found == self@.contains(link@),
    {
        let ghost views = link_views(self.links@);
        let mut i: usize = 0;
        while i < self.links.len()
            invariant
                i <= self.links.len(),
                views == link_views(self.links@),
                forall|j: int| 0 <= j < i ==> views[j] != link@,
            decreases self.links.len() - i,
        {
            if self.links[i] == *link {
                assert(views[i as int] == link@);
                return true;
            }
            i += 1;
        }
        false
    }

    /// Adds the link. Adding a link that is there already changes nothing.
    pub fn insert(&mut self, link: Link)
        requires
            old(self).wf(),
        ensures
            final(self).wf(),
            final(self)@ == old(self)@.insert(link@),
    {
        let ghost before = link_views(self.links@);
        if !self.contains(&link) {
            let ghost view = link@;
            self.links.push(link);
            proof {
                assert(link_views(self.links@) =~= before.push(view));
                lemma_push_absent(before, view);
            }
        } else {
            assert(self@ =~= old(self)@.insert(link@));
        }
    }

    /// How many links the query selects.
    pub fn count_links(
        &self,
        base: &Address,
        types: &LinkMatch<LinkType>,
        tags: &LinkMatch<String>,
    ) -> (count: usize)
        requires
            self.wf(),
        ensures
            count == selected(self@, base@, *types, tag_filter(tags)).len(),
    {
        let ghost views = link_views(self.links@);
        let ghost pick = |link: LinkView| selects(base@, *types, tag_filter(tags), link);
        let mut count: usize = 0;
        let mut i: usize = 0;
        proof {
            assert(views.take(0).to_set() =~= Set::<LinkView>::empty());
            assert(views.take(0).to_set().filter(pick) =~= Set::<LinkView>::empty());
        }
        while i < self.links.len()
            invariant
                i <= self.links.len(),
                views == link_views(self.links@),
                views.no_duplicates(),
                pick == |link: LinkView| selects(base@, *types, tag_filter(tags), link),
                count <= i,
                count == views.take(i as int).to_set().filter(pick).len(),
            decreases self.links.len() - i,
        {
            let hit = link_selected(&self.links[i], base, types, tags);
            proof {
                let seen = views.take(i as int).to_set();
                lemma_take_next_to_set(views, i as int);
                vstd::seq_lib::seq_to_set_is_finite(views.take(i as int));
                seen.lemma_len_filter(pick);
                if hit {
                    assert(views.take(i + 1).to_set().filter(pick) =~= seen.filter(pick).insert(
                        views[i as int],
                    ));
                } else {
                    assert(views.take(i + 1).to_set().filter(pick) =~= seen.filter(pick));
                }
            }
            if hit {
                count += 1;
            }
            i += 1;
        }
        assert(views.take(i as int) =~= views);
        count
    }

    /// The links that the query selects, each once, in no particular order.
    pub fn get_links(
        &self,
        base: &Address,
        types: &LinkMatch<LinkType>,
        tags: &LinkMatch<String>,
    ) -> (found: Vec<Link>)
        requires
            self.wf(),
        ensures
            link_views(found@).no_duplicates(),
            link_views(found@).to_set() == selected(self@, base@, *types, tag_filter(tags)),
    {
        let ghost views = link_views(self.links@);
        let ghost pick = |link: LinkView| selects(base@, *types, tag_filter(tags), link);
        let mut found: Vec<Link> = Vec::new();
        let mut i: usize = 0;
        proof {
            assert(views.take(0).to_set() =~= Set::<LinkView>::empty());
            assert(link_views(found@) =~= Seq::<LinkView>::empty());
            assert(link_views(found@).to_set() =~= views.take(0).to_set().filter(pick));
        }
        while i < self.links.len()
            invariant
                i <= self.links.len(),
                views == link_views(self.links@),
                views.no_duplicates(),
                pick == |link: LinkView| selects(base@, *types, tag_filter(tags), link),
                link_views(found@).no_duplicates(),
                link_views(found@).to_set() == views.take(i as int).to_set().filter(pick),
            decreases self.links.len() - i,
        {
            let hit = link_selected(&self.links[i], base, types, tags);
            proof {
                lemma_take_next_to_set(views, i as int);
            }
            if hit {
                let ghost before = link_views(found@);
                found.push(self.links[i].clone());
                proof {
                    let after = link_views(found@);
                    assert(after =~= before.push(views[i as int]));
                    assert(!before.to_set().contains(views[i as int]));
                    lemma_push_absent(before, views[i as int]);
                    assert(after.to_set() =~= views.take(i + 1).to_set().filter(pick));
                }
            } else {
                assert(link_views(found@).to_set() =~= views.take(i + 1).to_set().filter(pick));
            }
            i += 1;
        }
        assert(views.take(i as int) =~= views);
        found
    }
}

/// Whether the query selects the link.
fn link_selected(
    link: &Link,
    base: &Address,
    types: &LinkMatch<LinkType>,
    tags: &LinkMatch<String>,
) -> (hit: bool)
    ensures
        hit == selects(base@, *types, tag_filter(tags), link@),
{
    let type_fits = match types {
        LinkMatch::Any => true,
        LinkMatch::Exactly(link_type) => link.link_type() == *link_type,
    };
    let tag_fits = match tags {
        LinkMatch::Any => true,
        LinkMatch::Exactly(tag) => *link.tag() == *tag,
    };
    *link.base() == *base && type_fits && tag_fits
}

} // verus!
