//! Discovery: from a query to the container of its units.
//!
//! The listing service is asked by whoever drives the walk. A walk names the
//! address of the next request and takes the answer in; it does no request
//! itself.
use crate::request::post_lookup_address;
use crate::request::post_lookup_url;
use crate::request::tag_page_address;
use crate::request::tag_page_url;
use crate::request::ScrapeError;
use crate::text::decimal;
use crate::text::decimal_text;
use crate::unit::unit_views;
use crate::unit::Config;
use crate::unit::Container;
use crate::unit::Unit;
use crate::unit::UnitView;
use std::collections::VecDeque;
use vstd::prelude::*;
use vstd::string::StringExecFns;

verus! {

/// The file of a post, as the listing describes it.
#[derive(Debug, Clone, PartialEq, Eq)]
pub struct File {
    pub ext: String,
    pub md5: String,
    pub url: Option<String>,
}

/// A post, as the listing describes it.
#[derive(Debug, Clone, PartialEq, Eq)]
pub struct Post {
    pub id: u64,
    pub file: File,
}

/// One page of the listing of posts.
#[derive(Debug, Clone, PartialEq, Eq)]
pub struct TagPayload {
    pub posts: Vec<Post>,
}

/// A pool, as the listing of pools describes it.
#[derive(Debug, Clone, PartialEq, Eq)]
pub struct Pool {
    pub id: u64,
    pub name: String,
    pub post_ids: Vec<u64>,
}

/// What the contracts say of a [`Post`].
pub struct PostView {
    pub id: u64,
    pub ext: Seq<char>,
    pub md5: Seq<char>,
    pub url: Option<Seq<char>>,
}

impl View for Post {
    type V = PostView;

    open spec fn view(&self) -> PostView {
        PostView {
            id: self.id,
            ext: self.file.ext@,
            md5: self.file.md5@,
            url: crate::unit::opt_text(self.file.url),
        }
    }
}

impl View for TagPayload {
    type V = Seq<PostView>;

    open spec fn view(&self) -> Seq<PostView> {
        Seq::new(self.posts@.len(), |i: int| self.posts@[i]@)
    }
}

/// The unit that a post found under a tag becomes: named by its hash.
pub open spec fn tag_unit(tag: Seq<char>, post: PostView) -> UnitView {
    UnitView { dir_tag: tag, name: post.md5, ext: post.ext, url: post.url }
}

/// The unit that a member of a pool becomes: named by its place in the pool.
pub open spec fn pool_unit(dir_tag: Seq<char>, post_num: nat, post: PostView) -> UnitView {
    UnitView { dir_tag, name: decimal_text(post_num), ext: post.ext, url: post.url }
}

/// The units of one page of a tag, in the order of the page.
pub open spec fn tag_units(tag: Seq<char>, page: Seq<PostView>) -> Seq<UnitView> {
    Seq::new(page.len(), |i: int| tag_unit(tag, page[i]))
}

fn text_copy(s: &Option<String>) -> (r: Option<String>)
    ensures
        crate::unit::opt_text(r) == crate::unit::opt_text(*s),
{
    match s {
        Some(t) => Some(t.clone()),
        None => None,
    }
}

/// The state of a walk through the pages of a tag, as the contracts see it.
pub struct TagWalkView {
    pub tag: Seq<char>,
    pub sfw: bool,
    /// Id that the next page is asked to start after.
    pub head: u64,
    /// Units found so far.
    pub units: Seq<UnitView>,
    /// Set once an empty page has come.
    pub done: bool,
}

impl TagWalkView {
    /// The walk before its first page.
    pub open spec fn start(tag: Seq<char>, sfw: bool) -> TagWalkView {
        TagWalkView { tag, sfw, head: 0, units: Seq::empty(), done: false }
    }

    /// The address of the next page, while there is one to ask for.
    pub open spec fn request(self) -> Result<Option<Seq<char>>, ScrapeError> {
        if self.done {
            Ok(None)
        } else {
            match tag_page_address(self.tag, self.head as nat, self.sfw) {
                Ok(address) => Ok(Some(address)),
                Err(e) => Err(e),
            }
        }
    }

    /// The walk after one more page. An empty page ends it. Any other page
    /// adds its units in the order received and moves the head to the id of
    /// its first post. A page that comes after the end changes nothing.
    pub open spec fn absorb(self, page: Seq<PostView>) -> TagWalkView {
        if self.done {
            self
        } else if page.len() == 0 {
            TagWalkView { done: true, ..self }
        } else {
            TagWalkView {
                head: page[0].id,
                units: self.units + tag_units(self.tag, page),
                ..self
            }
        }
    }

    /// The walk after a sequence of pages, taken in one after the other.
    pub open spec fn absorb_all(self, pages: Seq<Seq<PostView>>) -> TagWalkView
        decreases pages.len(),
    {
        if pages.len() == 0 {
            self
        } else {
            self.absorb_all(pages.drop_last()).absorb(pages.last())
        }
    }
}

/// The text of an optional address, or the error in its place.
pub open spec fn request_text(r: Result<Option<String>, ScrapeError>) -> Result<
    Option<Seq<char>>,
    ScrapeError,
> {
    match r {
        Ok(Some(s)) => Ok(Some(s@)),
        Ok(None) => Ok(None),
        Err(e) => Err(e),
    }
}

/// A walk through the pages of one tag.
#[derive(Debug)]
pub struct TagWalk {
    tag: String,
    sfw: bool,
    head: u64,
    queue: VecDeque<Unit>,
    done: bool,
}

impl View for TagWalk {
    type V = TagWalkView;

    closed spec fn view(&self) -> TagWalkView {
        TagWalkView {
            tag: self.tag@,
            sfw: self.sfw,
            head: self.head,
            units: unit_views(self.queue@),
            done: self.done,
        }
    }
}

impl TagWalk {
    /// Starts the walk for `tag`.
    pub fn new(tag: &str, config: &Config) -> (w: TagWalk)
        ensures
            w@ == TagWalkView::start(tag@, config.sfw),
    {
        let w = TagWalk {
            tag: String::from_str(tag),
            sfw: config.sfw,
            head: 0,
            queue: VecDeque::new(),
            done: false,
        };
        assert(w@.units =~= Seq::empty());
        w
    }

    /// `true` once an empty page has ended the walk.
    pub fn is_done(&self) -> (b: bool)
        ensures
            b == self@.done,
    {
        self.done
    }

    /// Id that the next page is asked to start after.
    pub fn head(&self) -> (id: u64)
        ensures
            id == self@.head,
    {
        self.head
    }

    /// Number of units found so far.
    pub fn len(&self) -> (n: usize)
        ensures
            n == self@.units.len(),
    {
        self.queue.len()
    }

    /// The address of the page to fetch next, or `None` once the walk is done.
    pub fn request(&self) -> (r: Result<Option<String>, ScrapeError>)
        ensures
            request_text(r) == self@.request(),
    {
        if self.done {
            return Ok(None);
        }
        match tag_page_url(self.tag.as_str(), self.head, self.sfw) {
            Ok(address) => Ok(Some(address)),
            Err(e) => Err(e),
        }
    }

    /// Takes in the page that came back for the last request.
    pub fn absorb(&mut self, page: &TagPayload)
        ensures
            final(self)@ == old(self)@.absorb(page@),
    {
        let n = page.posts.len();
        if self.done {
            return ;
        }
        if n == 0 {
            self.done = true;
            return ;
        }
        self.head = page.posts[0].id;
        let ghost before = old(self)@;
        let mut i: usize = 0;
        while i < n
            invariant
                i <= n,
                n == page.posts@.len(),
                self.tag@ == before.tag,
                self.sfw == before.sfw,
                self.head == page@[0].id,
                !self.done,
                unit_views(self.queue@) =~= before.units + tag_units(before.tag, page@.take(
                    i as int,
                )),
            decreases n - i,
        {
            let post = &page.posts[i];
            let unit = Unit {
                dir_tag: self.tag.clone(),
                name: post.file.md5.clone(),
                ext: post.file.ext.clone(),
                url: text_copy(&post.file.url),
            };
            assert(unit@ == tag_unit(before.tag, page@[i as int]));
            let ghost found = self.queue@;
            self.queue.push_back(unit);
            i = i + 1;
            assert(unit_views(self.queue@) =~= unit_views(found).push(unit@));
            assert(tag_units(before.tag, page@.take(i as int)) =~= tag_units(
                before.tag,
                page@.take(i - 1),
            ).push(tag_unit(before.tag, page@[i - 1])));
        }
        assert(page@.take(n as int) =~= page@);
    }

    /// Ends the walk and hands over what it found.
    pub fn into_container(self) -> (c: Container)
        ensures
            c@.tag_name == self@.tag,
            c@.units == self@.units,
    {
        Container { tag_name: self.tag, queue: self.queue }
    }
}

/// `true` if the answer to the lookup of the member `post_id` holds that
/// member: its first post has the member's id.
pub open spec fn holds_member(post_id: u64, batch: Seq<PostView>) -> bool {
    batch.len() > 0 && batch[0].id == post_id
}

/// What [`build_pool_post`] makes of the units found so far and the answer
/// to the lookup of one member: the member is added under its place in the
/// pool. An answer without a post, or with a post of another id, leaves the
/// units as they are.
pub open spec fn pool_post(
    units: Seq<UnitView>,
    post_id: u64,
    dir_tag: Seq<char>,
    post_num: nat,
    batch: Seq<PostView>,
) -> Seq<UnitView> {
    if holds_member(post_id, batch) {
        units.push(pool_unit(dir_tag, post_num, batch[0]))
    } else {
        units
    }
}

/// Adds the member `post_id` of a pool to `queue`, given the answer to its
/// lookup. `post_num` is the member's place in the pool, counted from zero.
/// A member that the answer does not hold is passed over.
pub fn build_pool_post(
    post_id: u64,
    dir_tag: String,
    post_num: usize,
    queue: &mut VecDeque<Unit>,
    batch: &TagPayload,
)
    ensures
        unit_views(final(queue)@) == pool_post(
            unit_views(old(queue)@),
            post_id,
            dir_tag@,
            post_num as nat,
            batch@,
        ),
{
    if batch.posts.len() == 0 {
        return ;
    }
    let post = &batch.posts[0];
    if post.id != post_id {
        return ;
    }
    let unit = Unit {
        dir_tag,
        name: decimal(post_num as u64),
        ext: post.file.ext.clone(),
        url: text_copy(&post.file.url),
    };
    assert(unit@ == pool_unit(dir_tag@, post_num as nat, batch@[0]));
    queue.push_back(unit);
    assert(unit_views(queue@) =~= unit_views(old(queue)@).push(unit@));
}

/// What the contracts say of a [`Pool`].
pub struct PoolView {
    pub id: u64,
    pub name: Seq<char>,
    pub post_ids: Seq<u64>,
}

impl View for Pool {
    type V = PoolView;

    open spec fn view(&self) -> PoolView {
        PoolView { id: self.id, name: self.name@, post_ids: self.post_ids@ }
    }
}

/// The views of a list of pools.
pub open spec fn pool_views(pools: Seq<Pool>) -> Seq<PoolView> {
    Seq::new(pools.len(), |i: int| pools[i]@)
}

/// The state of a walk through the members of a pool, as the contracts see it.
pub struct PoolWalkView {
    /// Display name of the pool.
    pub name: Seq<char>,
    /// Ids of the members, in the order of the pool.
    pub post_ids: Seq<u64>,
    /// Place of the member to look up next.
    pub next: nat,
    pub sfw: bool,
    /// Units found so far.
    pub units: Seq<UnitView>,
}

impl PoolWalkView {
    /// The walk before its first lookup, from the answer to the request for
    /// the pool: its first entry is the pool.
    pub open spec fn start(pools: Seq<PoolView>, sfw: bool) -> Result<PoolWalkView, ScrapeError> {
        if pools.len() == 0 {
            Err(ScrapeError::NoPool)
        } else {
            Ok(
                PoolWalkView {
                    name: pools[0].name,
                    post_ids: pools[0].post_ids,
                    next: 0,
                    sfw,
                    units: Seq::empty(),
                },
            )
        }
    }

    /// `true` once every member has been looked up.
    pub open spec fn done(self) -> bool {
        self.next >= self.post_ids.len()
    }

    /// The address of the next lookup, while there is a member left.
    pub open spec fn request(self) -> Result<Option<Seq<char>>, ScrapeError> {
        if self.done() {
            Ok(None)
        } else {
            match post_lookup_address(self.post_ids[self.next as int] as nat, self.sfw) {
                Ok(address) => Ok(Some(address)),
                Err(e) => Err(e),
            }
        }
    }

    /// The walk after the answer to the lookup of the next member. The place
    /// moves on whether or not the member was found. An answer that comes
    /// after the last member changes nothing.
    pub open spec fn absorb(self, batch: Seq<PostView>) -> PoolWalkView {
        if self.done() {
            self
        } else {
            PoolWalkView {
                units: pool_post(
                    self.units,
                    self.post_ids[self.next as int],
                    self.name,
                    self.next,
                    batch,
                ),
                next: self.next + 1,
                ..self
            }
        }
    }
}

impl PoolWalkView {
    /// The walk after a sequence of answers, taken in one after the other.
    pub open spec fn absorb_all(self, batches: Seq<Seq<PostView>>) -> PoolWalkView
        decreases batches.len(),
    {
        if batches.len() == 0 {
            self
        } else {
            self.absorb_all(batches.drop_last()).absorb(batches.last())
        }
    }
}

/// A walk through the members of one pool.
#[derive(Debug)]
pub struct PoolWalk {
    name: String,
    post_ids: Vec<u64>,
    next: usize,
    sfw: bool,
    queue: VecDeque<Unit>,
}

impl View for PoolWalk {
    type V = PoolWalkView;

    closed spec fn view(&self) -> PoolWalkView {
        PoolWalkView {
            name: self.name@,
            post_ids: self.post_ids@,
            next: self.next as nat,
            sfw: self.sfw,
            units: unit_views(self.queue@),
        }
    }
}

impl PoolWalk {
    /// Starts the walk from the answer to the request for the pool.
    pub fn new(pools: Vec<Pool>, config: &Config) -> (r: Result<PoolWalk, ScrapeError>)
        ensures
            match PoolWalkView::start(pool_views(pools@), config.sfw) {
                Ok(w) => r is Ok && r->Ok_0@ == w,
                Err(e) => r is Err && r->Err_0 == e,
            },
    {
        let mut pools = pools;
        if pools.len() == 0 {
            return Err(ScrapeError::NoPool);
        }
        let pool = pools.remove(0);
        let w = PoolWalk {
            name: pool.name,
            post_ids: pool.post_ids,
            next: 0,
            sfw: config.sfw,
            queue: VecDeque::new(),
        };
        assert(w@.units =~= Seq::empty());
        Ok(w)
    }

    /// `true` once every member has been looked up.
    pub fn is_done(&self) -> (b: bool)
        ensures
            b == self@.done(),
    {
        self.next >= self.post_ids.len()
    }

    /// The address of the lookup to make next, or `None` once the walk is done.
    pub fn request(&self) -> (r: Result<Option<String>, ScrapeError>)
        ensures
            request_text(r) == self@.request(),
    {
        if self.next >= self.post_ids.len() {
            return Ok(None);
        }
        match post_lookup_url(self.post_ids[self.next], self.sfw) {
            Ok(address) => Ok(Some(address)),
            Err(e) => Err(e),
        }
    }

    /// Takes in the answer to the last lookup.
    pub fn absorb(&mut self, batch: &TagPayload)
        ensures
            final(self)@ == old(self)@.absorb(batch@),
    {
        if self.next >= self.post_ids.len() {
            return ;
        }
        build_pool_post(
            self.post_ids[self.next],
            self.name.clone(),
            self.next,
            &mut self.queue,
            batch,
        );
        self.next = self.next + 1;
    }

    /// Ends the walk and hands over what it found, under the pool's name.
    pub fn into_container(self) -> (c: Container)
        ensures
            c@.tag_name == self@.name,
            c@.units == self@.units,
    {
        Container { tag_name: self.name, queue: self.queue }
    }
}

/// The container that [`build_single_post`] makes of the answer to the lookup
/// of a post: whatever post the answer holds first, named by its hash and
/// without a directory of its own. The container is labelled with the id
/// that was asked for.
pub open spec fn single_post(post_id: u64, batch: Seq<PostView>) -> Result<
    crate::unit::ContainerView,
    ScrapeError,
> {
    if post_id == 0 {
        Err(ScrapeError::ZeroId)
    } else if batch.len() == 0 {
        Err(ScrapeError::EmptyPage)
    } else {
        Ok(
            crate::unit::ContainerView {
                tag_name: decimal_text(post_id as nat),
                units: seq![tag_unit(Seq::empty(), batch[0])],
            },
        )
    }
}

/// Builds the container for the single post `post_id`, given the answer to
/// its lookup.
pub fn build_single_post(post_id: u64, batch: &TagPayload) -> (r: Result<Container, ScrapeError>)
    ensures
        match single_post(post_id, batch@) {
            Ok(c) => r is Ok && r->Ok_0@ == c,
            Err(e) => r is Err && r->Err_0 == e,
        },
{
    if post_id == 0 {
        return Err(ScrapeError::ZeroId);
    }
    if batch.posts.len() == 0 {
        return Err(ScrapeError::EmptyPage);
    }
    let post = &batch.posts[0];
    let mut queue: VecDeque<Unit> = VecDeque::new();
    let unit = Unit {
        dir_tag: String::new(),
        name: post.file.md5.clone(),
        ext: post.file.ext.clone(),
        url: text_copy(&post.file.url),
    };
    assert(unit@ == tag_unit(Seq::empty(), batch@[0]));
    queue.push_back(unit);
    let c = Container { tag_name: decimal(post_id), queue };
    assert(c@.units =~= seq![tag_unit(Seq::empty(), batch@[0])]);
    Ok(c)
}

} // verus!
