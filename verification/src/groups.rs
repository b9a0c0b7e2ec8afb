//! Links to URLs, grouped by the resource they point to, so that each
//! resource is checked once however many links lead to it.

use crate::link::{link_views, LinkContext, LinkContextView};
use crate::target::{CanonicalUrl, CanonicalUrlView};
use vstd::prelude::*;

verus! {

/// One resource and the links that lead to it.
#[derive(Debug, PartialEq)]
pub struct UrlGroup {
    pub url: CanonicalUrl,
    pub links: Vec<LinkContext>,
}

/// What a [`UrlGroup`] holds.
pub struct UrlGroupView {
    pub url: CanonicalUrlView,
    pub links: Seq<LinkContextView>,
}

impl View for UrlGroup {
    type V = UrlGroupView;

    open spec fn view(&self) -> UrlGroupView {
        UrlGroupView { url: self.url@, links: link_views(self.links@) }
    }
}

/// What each of `groups` holds, in order.
pub open spec fn group_views(groups: Seq<UrlGroup>) -> Seq<UrlGroupView> {
    groups.map_values(|group: UrlGroup| group@)
}

/// A link and the URL that it leads to.
pub struct UrlLink {
    pub url: CanonicalUrlView,
    pub link: LinkContextView,
}

/// The position of the first group for `key`, or the number of groups where
/// none is for it.
pub open spec fn key_position(groups: Seq<UrlGroupView>, key: Seq<char>) -> int
    decreases groups.len(),
{
    if groups.len() == 0 || groups[0].url.key == key {
        0
    } else {
        1 + key_position(groups.skip(1), key)
    }
}

/// The groups once one more link is filed: with the group for its URL where
/// there is one, else with a new group at the end.
pub open spec fn inserted(groups: Seq<UrlGroupView>, entry: UrlLink) -> Seq<UrlGroupView> {
    let at = key_position(groups, entry.url.key);
    if at < groups.len() {
        groups.update(at, UrlGroupView { url: groups[at].url, links: groups[at].links.push(entry.link) })
    } else {
        groups.push(UrlGroupView { url: entry.url, links: seq![entry.link] })
    }
}

/// The groups that filing `entries` one after the other gives.
pub open spec fn grouped(entries: Seq<UrlLink>) -> Seq<UrlGroupView>
    decreases entries.len(),
{
    if entries.len() == 0 {
        Seq::empty()
    } else {
        inserted(grouped(entries.drop_last()), entries.last())
    }
}

/// The links among `entries` that lead to `key`, in order.
pub open spec fn links_to(entries: Seq<UrlLink>, key: Seq<char>) -> Seq<LinkContextView>
    decreases entries.len(),
{
    if entries.len() == 0 {
        Seq::empty()
    } else if entries.last().url.key == key {
        links_to(entries.drop_last(), key).push(entries.last().link)
    } else {
        links_to(entries.drop_last(), key)
    }
}

/// No two groups are for the same key.
pub open spec fn distinct_keys(groups: Seq<UrlGroupView>) -> bool {
    forall|i: int, j: int| 0 <= i < j < groups.len() ==> groups[i].url.key != groups[j].url.key
}

/// The number of links in all groups together.
pub open spec fn total_links(groups: Seq<UrlGroupView>) -> nat
    decreases groups.len(),
{
    if groups.len() == 0 {
        0
    } else {
        total_links(groups.drop_last()) + groups.last().links.len()
    }
}

/// The position of a key is that of a group for it, with none before it, or
/// the number of groups.
pub proof fn lemma_key_position(groups: Seq<UrlGroupView>, key: Seq<char>)
    ensures
        0 <= key_position(groups, key) <= groups.len(),
        key_position(groups, key) < groups.len() ==> groups[key_position(groups, key)].url.key
            == key,
        forall|i: int| 0 <= i < key_position(groups, key) ==> groups[i].url.key != key,
    decreases groups.len(),
{
    if groups.len() != 0 && groups[0].url.key != key {
        let rest = groups.skip(1);
        lemma_key_position(rest, key);
        assert forall|i: int| 0 <= i < key_position(groups, key) implies groups[i].url.key
            != key by {
            if i > 0 {
                assert(rest[i - 1] == groups[i]);
            }
        }
    }
}

/// A group for the key, with none before it, stands at the position of the
/// key.
pub proof fn lemma_key_position_is(groups: Seq<UrlGroupView>, key: Seq<char>, at: int)
    requires
        0 <= at <= groups.len(),
        at < groups.len() ==> groups[at].url.key == key,
        forall|i: int| 0 <= i < at ==> groups[i].url.key != key,
    ensures
        key_position(groups, key) == at,
    decreases groups.len(),
{
    if groups.len() != 0 && groups[0].url.key != key {
        let rest = groups.skip(1);
        assert forall|i: int| 0 <= i < at - 1 implies rest[i].url.key != key by {
            assert(rest[i] == groups[i + 1]);
        }
        lemma_key_position_is(rest, key, at - 1);
    }
}

/// Where no link leads to a key, the links to it are none.
proof fn lemma_no_links_to(entries: Seq<UrlLink>, key: Seq<char>)
    requires
        forall|i: int| 0 <= i < entries.len() ==> #[trigger] entries[i].url.key != key,
    ensures
        links_to(entries, key) == Seq::<LinkContextView>::empty(),
    decreases entries.len(),
{
    if entries.len() > 0 {
        let earlier = entries.drop_last();
        assert forall|i: int| 0 <= i < earlier.len() implies #[trigger] earlier[i].url.key
            != key by {
            assert(earlier[i] == entries[i]);
        }
        lemma_no_links_to(earlier, key);
        assert(entries.last() == entries[entries.len() - 1]);
    }
}

/// Changing the links of one group adds the difference to the total.
proof fn lemma_total_links_update(groups: Seq<UrlGroupView>, at: int, group: UrlGroupView)
    requires
        0 <= at < groups.len(),
    ensures
        total_links(groups.update(at, group)) == total_links(groups) - groups[at].links.len()
            + group.links.len(),
    decreases groups.len(),
{
    let changed = groups.update(at, group);
    if at == groups.len() - 1 {
        assert(changed.drop_last() =~= groups.drop_last());
    } else {
        assert(changed.drop_last() =~= groups.drop_last().update(at, group));
        lemma_total_links_update(groups.drop_last(), at, group);
    }
}

/// Filing one link keeps the keys apart, keeps every group's links in the
/// order in which they came, and adds one link to the total.
pub proof fn lemma_inserted(entries: Seq<UrlLink>, entry: UrlLink)
    requires
        grouping_holds(entries, grouped(entries)),
    ensures
        grouping_holds(entries.push(entry), inserted(grouped(entries), entry)),
{
    let groups = grouped(entries);
    let after = inserted(groups, entry);
    let more = entries.push(entry);
    let at = key_position(groups, entry.url.key);
    lemma_key_position(groups, entry.url.key);
    assert(more.drop_last() =~= entries);
    if at < groups.len() {
        lemma_total_links_update(
            groups,
            at,
            UrlGroupView { url: groups[at].url, links: groups[at].links.push(entry.link) },
        );
    } else {
        assert(after.drop_last() =~= groups);
    }
    assert forall|g: int| 0 <= g < after.len() implies #[trigger] after[g].links == links_to(
        more,
        after[g].url.key,
    ) && after[g].links.len() > 0 by {
        let key = after[g].url.key;
        assert(more.last() == entry);
        if g < groups.len() {
            assert(groups[g].links == links_to(entries, groups[g].url.key));
            assert(key == groups[g].url.key);
            if g != at {
                assert(key != entry.url.key) by {
                    if at < groups.len() {
                        if g < at {
                            assert(groups[g].url.key != groups[at].url.key);
                        } else {
                            assert(groups[at].url.key != groups[g].url.key);
                        }
                    }
                }
            }
        } else {
            assert(links_to(entries, entry.url.key) =~= Seq::empty()) by {
                assert forall|i: int| 0 <= i < entries.len() implies #[trigger] entries[i].url.key
                    != entry.url.key by {
                    lemma_key_position(groups, entries[i].url.key);
                }
                lemma_no_links_to(entries, entry.url.key);
            }
            assert(after[g].links =~= links_to(more, key));
        }
    }
    assert forall|i: int| 0 <= i < more.len() implies key_position(after, #[trigger] more[i].url.key)
        < after.len() by {
        let key = more[i].url.key;
        let found = if i < entries.len() {
            assert(more[i] == entries[i]);
            assert(key_position(groups, entries[i].url.key) < groups.len());
            key_position(groups, key)
        } else {
            at
        };
        lemma_key_position(groups, key);
        assert(0 <= found < after.len());
        assert(after[found].url.key == key);
        lemma_key_position(after, key);
    }
}

/// What holds of the groups of `entries`: no key has two groups, every group
/// holds the links to its key in the order in which they came, and at least
/// one, every link has a group, and no link is lost or doubled.
pub open spec fn grouping_holds(entries: Seq<UrlLink>, groups: Seq<UrlGroupView>) -> bool {
    &&& distinct_keys(groups)
    &&& forall|g: int|
        0 <= g < groups.len() ==> #[trigger] groups[g].links == links_to(entries, groups[g].url.key)
            && groups[g].links.len() > 0
    &&& forall|i: int|
        0 <= i < entries.len() ==> key_position(groups, #[trigger] entries[i].url.key)
            < groups.len()
    &&& total_links(groups) == entries.len()
}

/// Grouping puts every link into exactly one group, that of its URL: no key
/// has two groups, every group holds just the links to its key, in order,
/// every link has a group, and the groups hold as many links as were filed.
pub proof fn lemma_grouped(entries: Seq<UrlLink>)
    ensures
        grouping_holds(entries, grouped(entries)),
    decreases entries.len(),
{
    if entries.len() > 0 {
        lemma_grouped(entries.drop_last());
        lemma_inserted(entries.drop_last(), entries.last());
        assert(entries.drop_last().push(entries.last()) =~= entries);
    }
}

/// Two links whose URLs differ at most in what canonical form takes away are
/// in one group, and two links whose keys differ are in two.
pub proof fn lemma_same_key_same_group(entries: Seq<UrlLink>, first: int, second: int)
    requires
        0 <= first < entries.len(),
        0 <= second < entries.len(),
    ensures
        (entries[first].url.key == entries[second].url.key) <==> key_position(
            grouped(entries),
            entries[first].url.key,
        ) == key_position(grouped(entries), entries[second].url.key),
        key_position(grouped(entries), entries[first].url.key) < grouped(entries).len(),
{
    lemma_grouped(entries);
    lemma_key_position(grouped(entries), entries[first].url.key);
    lemma_key_position(grouped(entries), entries[second].url.key);
}

/// The groups of the links filed so far, in the order in which their URLs
/// first came.
pub struct UrlGroups {
    groups: Vec<UrlGroup>,
    filed: Ghost<Seq<UrlLink>>,
}

impl View for UrlGroups {
    type V = Seq<UrlGroupView>;

    closed spec fn view(&self) -> Seq<UrlGroupView> {
        group_views(self.groups@)
    }
}

impl UrlGroups {
    #[verifier::type_invariant]
    spec fn well_formed(self) -> bool {
        group_views(self.groups@) == grouped(self.filed@)
    }

    /// The links filed so far, each with its URL, in the order of filing.
    pub closed spec fn entries(self) -> Seq<UrlLink> {
        self.filed@
    }

    /// No groups.
    pub fn new() -> (groups: UrlGroups)
        ensures
            groups.entries() == Seq::<UrlLink>::empty(),
            groups@ == grouped(groups.entries()),
    {
        let groups: Vec<UrlGroup> = Vec::new();
        assert(group_views(groups@) =~= grouped(Seq::empty()));
        UrlGroups { groups, filed: Ghost(Seq::empty()) }
    }

    /// The number of groups: of URLs that no two links share a key with.
    pub fn len(&self) -> (count: usize)
        ensures
            count == self@.len(),
    {
        self.groups.len()
    }

    /// Files `link` under `url`.
    pub fn add(&mut self, url: CanonicalUrl, link: LinkContext)
        ensures
            final(self).entries() == old(self).entries().push(UrlLink { url: url@, link: link@ }),
            final(self)@ == grouped(final(self).entries()),
            final(self)@ == inserted(old(self)@, UrlLink { url: url@, link: link@ }),
    {
        let mut taken = UrlGroups::new();
        std::mem::swap(self, &mut taken);
        proof {
            use_type_invariant(&taken);
        }
        let UrlGroups { mut groups, filed } = taken;
        let ghost entry = UrlLink { url: url@, link: link@ };
        let ghost before = group_views(groups@);
        let ghost more = filed@.push(entry);
        let mut at: usize = 0;
        while at < groups.len() && !groups[at].url.same_resource(&url)
            invariant
                at <= groups@.len(),
                before == group_views(groups@),
                forall|i: int| 0 <= i < at ==> before[i].url.key != url@.key,
            decreases groups@.len() - at,
        {
            at = at + 1;
        }
        proof {
            lemma_key_position_is(before, url@.key, at as int);
            assert(more.drop_last() =~= filed@);
        }
        if at < groups.len() {
            let ghost links_before = groups[at as int].links@;
            groups[at].links.push(link);
            assert(link_views(groups[at as int].links@) =~= link_views(links_before).push(link@));
            assert(group_views(groups@) =~= inserted(before, entry));
        } else {
            let mut links = Vec::new();
            links.push(link);
            assert(link_views(links@) =~= seq![link@]);
            groups.push(UrlGroup { url, links });
            assert(group_views(groups@) =~= inserted(before, entry));
        }
        *self = UrlGroups { groups, filed: Ghost(more) };
    }

    /// Hands the groups out, in the order in which their URLs first came.
    pub fn into_groups(self) -> (groups: Vec<UrlGroup>)
        ensures
            group_views(groups@) == self@,
            group_views(groups@) == grouped(self.entries()),
    {
        proof {
            use_type_invariant(&self);
        }
        self.groups
    }
}

} // verus!
