//! What holds of discovery over whole walks.
use crate::request::ScrapeError;
use crate::scraper::pool_unit;
use crate::scraper::tag_units;
use crate::scraper::PoolWalkView;
use crate::scraper::PostView;
use crate::scraper::TagWalkView;
use crate::text::decimal_text;
use crate::text::lemma_decimal_injective;
use crate::unit::UnitView;
use vstd::prelude::*;

verus! {

/// The units of a sequence of pages of a tag: page after page, each in its
/// own order.
pub open spec fn all_tag_units(tag: Seq<char>, pages: Seq<Seq<PostView>>) -> Seq<UnitView>
    decreases pages.len(),
{
    if pages.len() == 0 {
        Seq::empty()
    } else {
        all_tag_units(tag, pages.drop_last()) + tag_units(tag, pages.last())
    }
}

/// The number of posts on a sequence of pages.
pub open spec fn total_posts(pages: Seq<Seq<PostView>>) -> nat
    decreases pages.len(),
{
    if pages.len() == 0 {
        0
    } else {
        total_posts(pages.drop_last()) + pages.last().len()
    }
}

/// There are as many units as posts.
pub proof fn lemma_all_tag_units_len(tag: Seq<char>, pages: Seq<Seq<PostView>>)
    ensures
        all_tag_units(tag, pages).len() == total_posts(pages),
    decreases pages.len(),
{
    if pages.len() > 0 {
        lemma_all_tag_units_len(tag, pages.drop_last());
    }
}

/// While the pages that come are not empty, the walk goes on: it holds the
/// units of every page so far, in the order received, and asks for what
/// follows the first post of the last page.
pub proof fn lemma_tag_walk_goes_on(tag: Seq<char>, sfw: bool, pages: Seq<Seq<PostView>>)
    requires
        forall|i: int| 0 <= i < pages.len() ==> (#[trigger] pages[i]).len() > 0,
    ensures
        TagWalkView::start(tag, sfw).absorb_all(pages) == (TagWalkView {
            tag,
            sfw,
            head: if pages.len() == 0 {
                0
            } else {
                pages.last()[0].id
            },
            units: all_tag_units(tag, pages),
            done: false,
        }),
    decreases pages.len(),
{
    if pages.len() > 0 {
        let before = pages.drop_last();
        assert forall|i: int| 0 <= i < before.len() implies (#[trigger] before[i]).len() > 0 by {
            assert(before[i] == pages[i]);
        }
        lemma_tag_walk_goes_on(tag, sfw, before);
    }
}

/// A walk ends with the first empty page. It then holds one unit for every
/// post of the pages before, asks for nothing more, and no later page
/// changes it.
pub proof fn lemma_tag_walk_ends(
    tag: Seq<char>,
    sfw: bool,
    pages: Seq<Seq<PostView>>,
    later: Seq<PostView>,
)
    requires
        forall|i: int| 0 <= i < pages.len() ==> (#[trigger] pages[i]).len() > 0,
    ensures
        ({
            let end = TagWalkView::start(tag, sfw).absorb_all(pages.push(Seq::empty()));
            &&& end.done
            &&& end.units == all_tag_units(tag, pages)
            &&& end.units.len() == total_posts(pages)
            &&& end.request() == Ok::<Option<Seq<char>>, ScrapeError>(None)
            &&& end.absorb(later) == end
        }),
{
    let all = pages.push(Seq::empty());
    assert(all.drop_last() =~= pages);
    assert(all.last() =~= Seq::<PostView>::empty());
    lemma_tag_walk_goes_on(tag, sfw, pages);
    lemma_all_tag_units_len(tag, pages);
}

/// `true` if the answer to the lookup of the member at `place` holds that
/// member.
pub open spec fn found_at(ids: Seq<u64>, batches: Seq<Seq<PostView>>, place: int) -> bool {
    &&& 0 <= place < ids.len()
    &&& place < batches.len()
    &&& batches[place].len() > 0
    &&& batches[place][0].id == ids[place]
}

/// The places of the members that the first `n` lookups found, in the order
/// of the pool.
pub open spec fn found_places(ids: Seq<u64>, batches: Seq<Seq<PostView>>, n: nat) -> Seq<int>
    decreases n,
{
    if n == 0 {
        Seq::empty()
    } else {
        let before = found_places(ids, batches, (n - 1) as nat);
        if found_at(ids, batches, n - 1) {
            before.push(n - 1)
        } else {
            before
        }
    }
}

/// The units of the members at the given places, each named by its place.
pub open spec fn units_at(name: Seq<char>, batches: Seq<Seq<PostView>>, places: Seq<int>) -> Seq<
    UnitView,
> {
    Seq::new(places.len(), |j: int| pool_unit(name, places[j] as nat, batches[places[j]][0]))
}

/// The places found are places of the pool, in rising order, and hold
/// exactly the members whose lookup found them.
pub proof fn lemma_found_places(ids: Seq<u64>, batches: Seq<Seq<PostView>>, n: nat)
    ensures
        found_places(ids, batches, n).len() <= n,
        forall|j: int|
            0 <= j < found_places(ids, batches, n).len() ==> {
                &&& j <= #[trigger] found_places(ids, batches, n)[j] < n
                &&& found_at(ids, batches, found_places(ids, batches, n)[j])
            },
        forall|i: int, j: int|
            0 <= i < j < found_places(ids, batches, n).len() ==> found_places(ids, batches, n)[i]
                < found_places(ids, batches, n)[j],
        forall|k: int|
            0 <= k < n && found_at(ids, batches, k) ==> found_places(ids, batches, n).contains(k),
    decreases n,
{
    if n > 0 {
        let before = found_places(ids, batches, (n - 1) as nat);
        let places = found_places(ids, batches, n);
        lemma_found_places(ids, batches, (n - 1) as nat);
        if found_at(ids, batches, n - 1) {
            assert(places[places.len() - 1] == n - 1);
        }
        assert forall|k: int| 0 <= k < n && found_at(ids, batches, k) implies places.contains(
            k,
        ) by {
            if k < n - 1 {
                assert(before.contains(k));
                let j = choose|j: int| 0 <= j < before.len() && before[j] == k;
                assert(places[j] == k);
            } else {
                assert(places[places.len() - 1] == k);
            }
        }
    }
}

/// A walk through a pool ends with one unit for each member that its lookup
/// found, in the order of the pool, and each is named by the member's place
/// in the pool: a member that was not found, because the answer held
/// another post or none, leaves a gap in the names.
pub proof fn lemma_pool_walk(w: PoolWalkView, batches: Seq<Seq<PostView>>)
    requires
        w.next == 0,
        w.units == Seq::<UnitView>::empty(),
        batches.len() <= w.post_ids.len(),
    ensures
        w.absorb_all(batches) == (PoolWalkView {
            next: batches.len(),
            units: units_at(w.name, batches, found_places(w.post_ids, batches, batches.len())),
            ..w
        }),
    decreases batches.len(),
{
    let n = batches.len();
    if n == 0 {
        assert(units_at(w.name, batches, found_places(w.post_ids, batches, 0)) =~= Seq::empty());
    } else {
        let before = batches.drop_last();
        lemma_pool_walk(w, before);
        lemma_same_places(w.post_ids, before, batches, (n - 1) as nat);
        lemma_found_places(w.post_ids, batches, (n - 1) as nat);
        let places = found_places(w.post_ids, batches, (n - 1) as nat);
        assert(units_at(w.name, before, places) =~= units_at(w.name, batches, places));
        let all = found_places(w.post_ids, batches, n);
        if found_at(w.post_ids, batches, n - 1) {
            assert(units_at(w.name, batches, all) =~= units_at(w.name, batches, places).push(
                pool_unit(w.name, (n - 1) as nat, batches[n - 1][0]),
            ));
        }
    }
}

/// The places found among the first `n` lookups depend on the first `n`
/// answers only.
proof fn lemma_same_places(ids: Seq<u64>, a: Seq<Seq<PostView>>, b: Seq<Seq<PostView>>, n: nat)
    requires
        n <= a.len(),
        n <= b.len(),
        forall|i: int| 0 <= i < n ==> a[i] == b[i],
    ensures
        found_places(ids, a, n) == found_places(ids, b, n),
    decreases n,
{
    if n > 0 {
        lemma_same_places(ids, a, b, (n - 1) as nat);
    }
}

/// Where every lookup finds its member, the walk ends with one unit for each
/// member, and the unit of the member at place `k` stands at place `k` and
/// is named `k` in decimal.
pub proof fn lemma_pool_all_found(w: PoolWalkView, batches: Seq<Seq<PostView>>)
    requires
        w.next == 0,
        w.units == Seq::<UnitView>::empty(),
        batches.len() == w.post_ids.len(),
        forall|i: int| 0 <= i < batches.len() ==> found_at(w.post_ids, batches, i),
    ensures
        w.absorb_all(batches).done(),
        w.absorb_all(batches).units.len() == w.post_ids.len(),
        forall|k: int|
            0 <= k < batches.len() ==> (#[trigger] w.absorb_all(batches).units[k]) == pool_unit(
                w.name,
                k as nat,
                batches[k][0],
            ),
{
    lemma_pool_walk(w, batches);
    lemma_all_places(w.post_ids, batches, batches.len());
}

/// Where each of the first `n` lookups finds its member, the places found
/// are all of the first `n`.
proof fn lemma_all_places(ids: Seq<u64>, batches: Seq<Seq<PostView>>, n: nat)
    requires
        forall|i: int| 0 <= i < n ==> found_at(ids, batches, i),
    ensures
        found_places(ids, batches, n) == Seq::new(n, |k: int| k),
    decreases n,
{
    if n > 0 {
        lemma_all_places(ids, batches, (n - 1) as nat);
        assert(found_places(ids, batches, n) =~= Seq::new(n, |k: int| k));
    }
}

/// Two units of one pool walk never share a name.
pub proof fn lemma_pool_names_differ(w: PoolWalkView, batches: Seq<Seq<PostView>>, i: int, j: int)
    requires
        w.next == 0,
        w.units == Seq::<UnitView>::empty(),
        batches.len() <= w.post_ids.len(),
        0 <= i < j < w.absorb_all(batches).units.len(),
    ensures
        w.absorb_all(batches).units[i].name != w.absorb_all(batches).units[j].name,
{
    lemma_pool_walk(w, batches);
    lemma_found_places(w.post_ids, batches, batches.len());
    let places = found_places(w.post_ids, batches, batches.len());
    if decimal_text(places[i] as nat) == decimal_text(places[j] as nat) {
        lemma_decimal_injective(places[i] as nat, places[j] as nat);
    }
}

} // verus!
