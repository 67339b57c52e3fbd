//! Doubly-linked intrusive lists.
//!
//! A value that can be put in a list embeds a link. Here the links of all the
//! values are kept in one table, indexed by the value's number; a list refers
//! to its values by their numbers and threads them through their links.
use vstd::prelude::*;

verus! {

/// The link that a value embeds to be put in a list.
#[derive(Debug)]
pub struct AtomicLink {
    next: Option<usize>,
    prev: Option<usize>,
    linked: bool,
}

impl AtomicLink {
    /// Whether the link is taken by a list.
    pub closed spec fn spec_linked(&self) -> bool {
        self.linked
    }

    /// The value after this one in its list.
    pub closed spec fn spec_next(&self) -> Option<usize> {
        self.next
    }

    /// The value before this one in its list.
    pub closed spec fn spec_prev(&self) -> Option<usize> {
        self.prev
    }

    /// The link is free, and holds no neighbours.
    pub open spec fn spec_free(&self) -> bool {
        !self.spec_linked() && self.spec_next() is None && self.spec_prev() is None
    }

    /// A link that no list holds.
    pub fn new() -> (r: Self)
        ensures
            !r.spec_linked(),
            r.spec_next() is None,
            r.spec_prev() is None,
    {
        AtomicLink { next: None, prev: None, linked: false }
    }

    /// The value after this one in its list.
    pub(crate) fn next(&self) -> (r: Option<usize>)
        ensures
            r == self.spec_next(),
    {
        self.next
    }

    /// The value before this one in its list.
    pub(crate) fn prev(&self) -> (r: Option<usize>)
        ensures
            r == self.spec_prev(),
    {
        self.prev
    }

    pub fn is_linked(&self) -> (r: bool)
        ensures
            r == self.spec_linked(),
    {
        self.linked
    }

    /// Marks the link as free, whether or not a list still holds it.
    pub fn force_unlink(&mut self)
        ensures
            !final(self).spec_linked(),
            final(self).spec_next() == old(self).spec_next(),
            final(self).spec_prev() == old(self).spec_prev(),
    {
        self.linked = false;
    }

    /// Takes the link for a list, unless a list already holds it.
    pub(crate) fn acquire(&mut self) -> (r: bool)
        ensures
            r == !old(self).spec_linked(),
            final(self).spec_linked(),
            final(self).spec_next() == old(self).spec_next(),
            final(self).spec_prev() == old(self).spec_prev(),
    {
        if self.linked {
            false
        } else {
            self.linked = true;
            true
        }
    }
}

/// Sets the `next` link of value `i`.
pub(crate) fn set_next(links: &mut Vec<AtomicLink>, i: usize, next: Option<usize>)
    requires
        i < old(links)@.len(),
    ensures
        final(links)@.len() == old(links)@.len(),
        final(links)@[i as int].spec_next() == next,
        final(links)@[i as int].spec_prev() == old(links)@[i as int].spec_prev(),
        final(links)@[i as int].spec_linked() == old(links)@[i as int].spec_linked(),
        forall|j: int| 0 <= j < final(links)@.len() && j != i ==> #[trigger] final(links)@[j] == old(links)@[j],
{
    let l = AtomicLink { next, prev: links[i].prev, linked: links[i].linked };
    links.set(i, l);
}

/// Sets the `prev` link of value `i`.
pub(crate) fn set_prev(links: &mut Vec<AtomicLink>, i: usize, prev: Option<usize>)
    requires
        i < old(links)@.len(),
    ensures
        final(links)@.len() == old(links)@.len(),
        final(links)@[i as int].spec_prev() == prev,
        final(links)@[i as int].spec_next() == old(links)@[i as int].spec_next(),
        final(links)@[i as int].spec_linked() == old(links)@[i as int].spec_linked(),
        forall|j: int| 0 <= j < final(links)@.len() && j != i ==> #[trigger] final(links)@[j] == old(links)@[j],
{
    let l = AtomicLink { next: links[i].next, prev, linked: links[i].linked };
    links.set(i, l);
}

/// Frees the link of value `i` and clears its neighbours.
pub(crate) fn release(links: &mut Vec<AtomicLink>, i: usize)
    requires
        i < old(links)@.len(),
    ensures
        final(links)@.len() == old(links)@.len(),
        !final(links)@[i as int].spec_linked(),
        final(links)@[i as int].spec_next() is None,
        final(links)@[i as int].spec_prev() is None,
        forall|j: int| 0 <= j < final(links)@.len() && j != i ==> #[trigger] final(links)@[j] == old(links)@[j],
{
    links.set(i, AtomicLink { next: None, prev: None, linked: false });
}

/// The neighbour after position `k` of the list `nodes`.
pub open spec fn next_of(nodes: Seq<usize>, k: int) -> Option<usize> {
    if k + 1 < nodes.len() {
        Some(nodes[k + 1])
    } else {
        None
    }
}

/// The neighbour before position `k` of the list `nodes`.
pub open spec fn prev_of(nodes: Seq<usize>, k: int) -> Option<usize> {
    if k > 0 {
        Some(nodes[k - 1])
    } else {
        None
    }
}

/// `nodes` is a list whose first value is `head`, threaded through `links`:
/// each value occurs once, holds its link, and its links point to its neighbours.
pub open spec fn is_chain(links: Seq<AtomicLink>, nodes: Seq<usize>, head: Option<usize>) -> bool {
    &&& nodes.no_duplicates()
    &&& head == (if nodes.len() == 0 { None } else { Some(nodes[0]) })
    &&& forall|k: int| 0 <= k < nodes.len() ==> {
        &&& #[trigger] nodes[k] < links.len()
        &&& links[nodes[k] as int].spec_linked()
        &&& links[nodes[k] as int].spec_next() == next_of(nodes, k)
        &&& links[nodes[k] as int].spec_prev() == prev_of(nodes, k)
    }
}

/// Takes the value `v` out of the chain `nodes` from `head` that runs through
/// `links`, freeing its link and joining its neighbours; gives the new head.
#[verifier::rlimit(40)]
pub(crate) fn unlink_at(links: &mut Vec<AtomicLink>, head: Option<usize>, nodes: Ghost<Seq<usize>>, v: usize) -> (r: Option<usize>)
    requires
        is_chain(old(links)@, nodes@, head),
        nodes@.contains(v),
    ensures
        is_chain(final(links)@, nodes@.remove(nodes@.index_of(v)), r),
        final(links)@.len() == old(links)@.len(),
        !final(links)@[v as int].spec_linked(),
        final(links)@[v as int].spec_next() is None,
        final(links)@[v as int].spec_prev() is None,
        forall|j: int| 0 <= j < final(links)@.len() && j != v && !nodes@.contains(j as usize)
            ==> #[trigger] final(links)@[j] == old(links)@[j],
{
    let ghost ns = nodes@;
    let ghost old_links = links@;
    let ghost k = ns.index_of(v);
    let ghost nn = ns.remove(k);
    proof {
        assert(0 <= k < ns.len() && ns[k] == v);
    }
    let next = links[v].next();
    let prev = links[v].prev();
    if let Some(nx) = next {
        set_prev(links, nx, prev);
    }
    if let Some(pv) = prev {
        set_next(links, pv, next);
    }
    let new_head = if head == Some(v) {
        proof {
            if k > 0 {
                assert(ns[0] == v);
            }
        }
        next
    } else {
        proof {
            assert(k != 0);
        }
        head
    };
    set_next(links, v, None);
    set_prev(links, v, None);
    release(links, v);
    proof {
        let new_links = links@;
        assert forall|j: int| 0 <= j < new_links.len() && j != v && !ns.contains(j as usize)
            implies #[trigger] new_links[j] == old_links[j] by {
            if k + 1 < ns.len() {
                assert(ns[k + 1] == next->Some_0);
            }
            if k > 0 {
                assert(ns[k - 1] == prev->Some_0);
            }
        }
        assert forall|i: int| 0 <= i < nn.len() implies {
            &&& #[trigger] nn[i] < new_links.len()
            &&& new_links[nn[i] as int].spec_linked()
            &&& new_links[nn[i] as int].spec_next() == next_of(nn, i)
            &&& new_links[nn[i] as int].spec_prev() == prev_of(nn, i)
        } by {
            if i < k {
                assert(nn[i] == ns[i]);
                assert(nn[i] != v);
                if i + 1 < k {
                    assert(nn[i + 1] == ns[i + 1]);
                }
                if i > 0 {
                    assert(nn[i - 1] == ns[i - 1]);
                }
                if i == k - 1 && k + 1 < ns.len() {
                    assert(nn[i + 1] == ns[k + 1]);
                }
                if k + 1 < ns.len() {
                    assert(ns[k + 1] != ns[i]);
                }
            } else {
                assert(nn[i] == ns[i + 1]);
                assert(nn[i] != v);
                if i + 1 < nn.len() {
                    assert(nn[i + 1] == ns[i + 2]);
                }
                if i > k {
                    assert(nn[i - 1] == ns[i]);
                }
                if i == k && k > 0 {
                    assert(nn[i - 1] == ns[k - 1]);
                }
                if k > 0 {
                    assert(ns[k - 1] != ns[i + 1]);
                }
            }
        }
        assert(nn.no_duplicates()) by {
            assert forall|x: int, y: int| 0 <= x < nn.len() && 0 <= y < nn.len() && x != y
                implies nn[x] != nn[y] by {
                let xo = if x < k { x } else { x + 1 };
                let yo = if y < k { y } else { y + 1 };
                assert(nn[x] == ns[xo] && nn[y] == ns[yo]);
            }
        }
    }
    new_head
}

/// A value at a position before `done` of a list without duplicates does not
/// occur in the list's suffix from `done` on.
proof fn lemma_not_in_suffix(nodes: Seq<usize>, done: int, k: int)
    requires
        nodes.no_duplicates(),
        0 <= k < done <= nodes.len(),
    ensures
        !nodes.subrange(done, nodes.len() as int).contains(nodes[k]),
{
    let suffix = nodes.subrange(done, nodes.len() as int);
    if suffix.contains(nodes[k]) {
        let i = choose|i: int| 0 <= i < suffix.len() && suffix[i] == nodes[k];
        assert(nodes[done + i] == nodes[k]);
    }
}

/// A value of a suffix of a list is a value of the list.
proof fn lemma_suffix_contains(nodes: Seq<usize>, done: int, v: usize)
    requires
        0 <= done <= nodes.len(),
        nodes.subrange(done, nodes.len() as int).contains(v),
    ensures
        nodes.contains(v),
{
    let suffix = nodes.subrange(done, nodes.len() as int);
    let i = choose|i: int| 0 <= i < suffix.len() && suffix[i] == v;
    assert(nodes[done + i] == v);
}

/// The values of `nodes` before position `done` have free links.
#[verifier::opaque]
pub open spec fn prefix_unlinked(links: Seq<AtomicLink>, nodes: Seq<usize>, done: int) -> bool {
    forall|k: int| 0 <= k < done ==> #[trigger] links[nodes[k] as int].spec_free()
}

/// The links of the values that are not in `nodes` are as they were.
#[verifier::opaque]
pub open spec fn same_outside(links: Seq<AtomicLink>, old_links: Seq<AtomicLink>, nodes: Seq<usize>) -> bool {
    forall|j: int| 0 <= j < links.len() && !nodes.contains(j as usize) ==> #[trigger] links[j] == old_links[j]
}

/// Taking the next value off a list that is being cleared frees one more link
/// and leaves the links of the values outside the list as they were.
proof fn lemma_clear_step(
    nodes: Seq<usize>,
    old_links: Seq<AtomicLink>,
    before: Seq<AtomicLink>,
    after: Seq<AtomicLink>,
    done: int,
)
    requires
        nodes.no_duplicates(),
        0 <= done < nodes.len(),
        forall|k: int| 0 <= k < nodes.len() ==> #[trigger] nodes[k] < before.len(),
        before.len() == old_links.len(),
        after.len() == before.len(),
        prefix_unlinked(before, nodes, done),
        same_outside(before, old_links, nodes),
        after[nodes[done] as int].spec_free(),
        forall|j: int| 0 <= j < after.len() && !nodes.subrange(done, nodes.len() as int).contains(j as usize)
            ==> #[trigger] after[j] == before[j],
    ensures
        prefix_unlinked(after, nodes, done + 1),
        same_outside(after, old_links, nodes),
{
    reveal(prefix_unlinked);
    reveal(same_outside);
    assert forall|k: int| 0 <= k < done + 1 implies #[trigger] after[nodes[k] as int].spec_free() by {
        if k < done {
            lemma_not_in_suffix(nodes, done, k);
            let n = nodes[k];
            let jj = n as int;
            assert(jj as usize == n);
            assert(!nodes.subrange(done, nodes.len() as int).contains(jj as usize));
            assert(after[jj] == before[jj]);
        }
    }
    assert forall|j: int| 0 <= j < after.len() && !nodes.contains(j as usize)
        implies #[trigger] after[j] == old_links[j] by {
        if nodes.subrange(done, nodes.len() as int).contains(j as usize) {
            lemma_suffix_contains(nodes, done, j as usize);
        }
    }
}

/// A list whose first element is at its head, threaded through the links of
/// its values.
pub struct HList {
    head: Option<usize>,
    nodes: Ghost<Seq<usize>>,
}

impl HList {
    /// The values of the list, from the head on.
    pub closed spec fn view(&self) -> Seq<usize> {
        self.nodes@
    }

    /// The list is consistent with the links of its values: each value occurs
    /// once, holds its link, and its links point to its neighbours.
    #[verifier::opaque]
    pub closed spec fn wf(&self, links: Seq<AtomicLink>) -> bool {
        let nodes = self.nodes@;
        &&& nodes.no_duplicates()
        &&& self.head == (if nodes.len() == 0 { None } else { Some(nodes[0]) })
        &&& forall|k: int| 0 <= k < nodes.len() ==> {
            &&& #[trigger] nodes[k] < links.len()
            &&& links[nodes[k] as int].spec_linked()
            &&& links[nodes[k] as int].spec_next() == next_of(nodes, k)
            &&& links[nodes[k] as int].spec_prev() == prev_of(nodes, k)
        }
    }

    /// An empty list.
    pub fn new() -> (r: Self)
        ensures
            r.view() == Seq::<usize>::empty(),
            forall|links: Seq<AtomicLink>| r.wf(links),
    {
        proof { reveal(HList::wf); }
        HList { head: None, nodes: Ghost(Seq::empty()) }
    }

    /// Puts value `v` at the head of the list, unless its link is already
    /// taken, in which case `v` is handed back.
    pub fn try_push_front(&mut self, links: &mut Vec<AtomicLink>, v: usize) -> (r: Result<(), usize>)
        requires
            old(self).wf(old(links)@),
            v < old(links)@.len(),
        ensures
            final(self).wf(final(links)@),
            final(links)@.len() == old(links)@.len(),
            old(links)@[v as int].spec_linked() ==> r == Err::<(), usize>(v)
                && final(self).view() == old(self).view() && final(links)@ == old(links)@,
            !old(links)@[v as int].spec_linked() ==> r == Ok::<(), usize>(())
                && final(self).view() == seq![v] + old(self).view()
                && final(links)@[v as int].spec_linked(),
            forall|k: int| 0 <= k < old(self).view().len() ==>
                #[trigger] final(links)@[old(self).view()[k] as int].spec_linked(),
            forall|j: int| 0 <= j < final(links)@.len() && j != v && !old(self).view().contains(j as usize)
                ==> #[trigger] final(links)@[j] == old(links)@[j],
    {
        proof { reveal(HList::wf); }
        let linked = links[v].linked;
        if linked {
            return Err(v);
        }
        let ghost old_nodes = self.nodes@;
        let ghost old_links = links@;
        proof {
            assert(!old_nodes.contains(v)) by {
                if old_nodes.contains(v) {
                    let k = choose|k: int| 0 <= k < old_nodes.len() && old_nodes[k] == v;
                    assert(old_links[old_nodes[k] as int].spec_linked());
                }
            }
        }
        let mut l = AtomicLink { next: links[v].next, prev: links[v].prev, linked: links[v].linked };
        let _ = l.acquire();
        links.set(v, l);
        match self.head {
            Some(head) => {
                proof { assert(old_nodes[0] == head); }
                let before_prev = links[head].prev;
                set_next(links, v, Some(head));
                set_prev(links, v, before_prev);
                set_prev(links, head, Some(v));
            }
            None => {
                set_next(links, v, None);
                set_prev(links, v, None);
            }
        }
        self.head = Some(v);
        proof {
            let nodes = seq![v] + old_nodes;
            self.nodes = Ghost(nodes);
            assert(nodes.no_duplicates()) by {
                assert forall|a: int, b: int| 0 <= a < b < nodes.len() implies nodes[a] != nodes[b] by {
                    if a == 0 {
                        assert(old_nodes.contains(nodes[b]));
                    } else {
                        assert(nodes[a] == old_nodes[a - 1] && nodes[b] == old_nodes[b - 1]);
                    }
                }
            }
            assert forall|k: int| 0 <= k < nodes.len() implies {
                &&& #[trigger] nodes[k] < links@.len()
                &&& links@[nodes[k] as int].spec_linked()
                &&& links@[nodes[k] as int].spec_next() == next_of(nodes, k)
                &&& links@[nodes[k] as int].spec_prev() == prev_of(nodes, k)
            } by {
                if k > 0 {
                    let n = nodes[k];
                    assert(n == old_nodes[k - 1]);
                    assert(n != v);
                    assert(old_links[n as int].spec_next() == next_of(old_nodes, k - 1));
                    assert(old_links[n as int].spec_prev() == prev_of(old_nodes, k - 1));
                    if k + 1 < nodes.len() {
                        assert(next_of(nodes, k) == Some(old_nodes[k]));
                    }
                }
            }
            assert forall|j: int| 0 <= j < links@.len() && j != v && !old_nodes.contains(j as usize)
                implies #[trigger] links@[j] == old_links[j] by {
                if old_nodes.len() > 0 {
                    assert(old_nodes.contains(old_nodes[0]));
                }
            }
        }
        Ok(())
    }

    /// Puts value `v`, whose link no list holds, at the head of the list.
    pub fn push_front(&mut self, links: &mut Vec<AtomicLink>, v: usize)
        requires
            old(self).wf(old(links)@),
            v < old(links)@.len(),
            !old(links)@[v as int].spec_linked(),
        ensures
            final(self).wf(final(links)@),
            final(links)@.len() == old(links)@.len(),
            final(self).view() == seq![v] + old(self).view(),
            final(links)@[v as int].spec_linked(),
            forall|k: int| 0 <= k < old(self).view().len() ==>
                #[trigger] final(links)@[old(self).view()[k] as int].spec_linked(),
            forall|j: int| 0 <= j < final(links)@.len() && j != v && !old(self).view().contains(j as usize)
                ==> #[trigger] final(links)@[j] == old(links)@[j],
    {
        let _ = self.try_push_front(links, v);
    }
    /// Takes the value at the head of the list off it, freeing its link.
    pub fn pop_front(&mut self, links: &mut Vec<AtomicLink>) -> (r: Option<usize>)
        requires
            old(self).wf(old(links)@),
        ensures
            final(self).wf(final(links)@),
            final(links)@.len() == old(links)@.len(),
            old(self).view().len() == 0 ==> r is None && final(self).view() == old(self).view()
                && final(links)@ == old(links)@,
            old(self).view().len() > 0 ==> r == Some(old(self).view()[0])
                && final(self).view() == old(self).view().drop_first()
                && !final(links)@[old(self).view()[0] as int].spec_linked()
                && final(links)@[old(self).view()[0] as int].spec_next() is None
                && final(links)@[old(self).view()[0] as int].spec_prev() is None,
            forall|j: int| 0 <= j < final(links)@.len() && !old(self).view().contains(j as usize)
                ==> #[trigger] final(links)@[j] == old(links)@[j],
    {
        proof { reveal(HList::wf); }
        match self.head {
            None => None,
            Some(h) => {
                let ghost old_nodes = self.nodes@;
                let ghost old_links = links@;
                proof {
                    assert(old_nodes[0] == h);
                    assert(h < links@.len());
                }
                let next = links[h].next;
                let prev = links[h].prev;
                self.head = next;
                if let Some(p) = prev {
                    set_next(links, p, next);
                }
                if let Some(n) = next {
                    proof { assert(n == old_nodes[1]); }
                    set_prev(links, n, prev);
                }
                release(links, h);
                proof {
                    let nodes = old_nodes.drop_first();
                    self.nodes = Ghost(nodes);
                    assert forall|k: int| 0 <= k < nodes.len() implies {
                        &&& #[trigger] nodes[k] < links@.len()
                        &&& links@[nodes[k] as int].spec_linked()
                        &&& links@[nodes[k] as int].spec_next() == next_of(nodes, k)
                        &&& links@[nodes[k] as int].spec_prev() == prev_of(nodes, k)
                    } by {
                        assert(nodes[k] == old_nodes[k + 1]);
                        assert(old_nodes[k + 1] != old_nodes[0]);
                        if k + 2 < old_nodes.len() {
                            assert(next_of(old_nodes, k + 1) == Some(old_nodes[k + 2]));
                        }
                    }
                    assert forall|j: int| 0 <= j < links@.len() && !old_nodes.contains(j as usize)
                        implies #[trigger] links@[j] == old_links[j] by {
                        assert(old_nodes.contains(old_nodes[0]));
                        if old_nodes.len() > 1 {
                            assert(old_nodes.contains(old_nodes[1]));
                        }
                    }
                }
                Some(h)
            }
        }
    }

    /// The first value of the list.
    pub closed spec fn spec_head(&self) -> Option<usize> {
        self.head
    }

    /// A list is well formed exactly when it is a chain from its head.
    pub proof fn lemma_wf_chain(&self, links: Seq<AtomicLink>)
        ensures
            self.wf(links) <==> is_chain(links, self.view(), self.spec_head()),
    {
        reveal(HList::wf);
    }

    /// Every value of a well-formed list has a link in `links`, taken by the
    /// list, and no value occurs twice.
    pub proof fn lemma_members_linked(&self, links: Seq<AtomicLink>)
        requires
            self.wf(links),
        ensures
            self.view().no_duplicates(),
            forall|k: int| 0 <= k < self.view().len() ==> #[trigger] self.view()[k] < links.len()
                && links[self.view()[k] as int].spec_linked(),
    {
        reveal(HList::wf);
    }

    /// The list with head `head` and values `nodes`.
    pub(crate) fn from_parts(head: Option<usize>, nodes: Ghost<Seq<usize>>) -> (r: Self)
        ensures
            r.view() == nodes@,
            r.spec_head() == head,
    {
        HList { head, nodes }
    }

    /// The first value of the list.
    pub(crate) fn head(&self) -> (r: Option<usize>)
        ensures
            r == self.spec_head(),
    {
        self.head
    }

    /// The head is set exactly when the list holds values.
    proof fn lemma_head(&self, links: Seq<AtomicLink>)
        requires
            self.wf(links),
        ensures
            self.head is Some <==> self.view().len() > 0,
            self.view().no_duplicates(),
    {
        reveal(HList::wf);
    }

    /// Takes every value off the list, freeing their links.
    pub fn clear(&mut self, links: &mut Vec<AtomicLink>)
        requires
            old(self).wf(old(links)@),
        ensures
            final(self).wf(final(links)@),
            final(self).view() == Seq::<usize>::empty(),
            final(links)@.len() == old(links)@.len(),
            forall|k: int| 0 <= k < old(self).view().len() ==>
                #[trigger] final(links)@[old(self).view()[k] as int].spec_free(),
            forall|j: int| 0 <= j < final(links)@.len() && !old(self).view().contains(j as usize)
                ==> #[trigger] final(links)@[j] == old(links)@[j],
    {
        let ghost old_nodes = self.nodes@;
        let ghost old_links = links@;
        let ghost mut done: int = 0;
        proof {
            self.lemma_head(links@);
            reveal(HList::wf);
            assert(old_nodes.subrange(0, old_nodes.len() as int) =~= old_nodes);
            reveal(prefix_unlinked);
            reveal(same_outside);
        }
        while self.head.is_some()
            invariant
                self.wf(links@),
                links@.len() == old_links.len(),
                0 <= done <= old_nodes.len(),
                self.view() == old_nodes.subrange(done, old_nodes.len() as int),
                prefix_unlinked(links@, old_nodes, done),
                same_outside(links@, old_links, old_nodes),
                old_nodes.no_duplicates(),
                forall|k: int| 0 <= k < old_nodes.len() ==> #[trigger] old_nodes[k] < old_links.len(),
            decreases old_nodes.len() - done,
        {
            let ghost before_links = links@;
            proof { self.lemma_head(links@); }
            let _ = self.pop_front(links);
            proof {
                lemma_clear_step(old_nodes, old_links, before_links, links@, done);
                done = done + 1;
                assert(self.view() =~= old_nodes.subrange(done, old_nodes.len() as int));
            }
        }
        proof {
            self.lemma_head(links@);
            assert(done == old_nodes.len());
            reveal(prefix_unlinked);
            reveal(same_outside);
        }
    }

    /// Forgets every value of the list without freeing their links.
    pub fn fast_clear(&mut self)
        ensures
            final(self).view() == Seq::<usize>::empty(),
            forall|links: Seq<AtomicLink>| final(self).wf(links),
    {
        proof { reveal(HList::wf); }
        self.head = None;
        self.nodes = Ghost(Seq::empty());
    }

    /// Moves the values of the list into a new list, leaving this one empty.
    pub fn take(&mut self) -> (r: Self)
        ensures
            r.view() == old(self).view(),
            final(self).view() == Seq::<usize>::empty(),
            forall|links: Seq<AtomicLink>| old(self).wf(links) ==> r.wf(links) && final(self).wf(links),
    {
        proof { reveal(HList::wf); }
        let r = HList { head: self.head.take(), nodes: Ghost(self.nodes@) };
        self.nodes = Ghost(Seq::empty());
        r
    }

    /// An iterator that takes the values off the list from the head on.
    pub fn into_iter(self) -> (r: HListIntoIter)
        ensures
            r.spec_list() == self,
    {
        HListIntoIter { list: self }
    }

    /// Takes the value `v` off the list, freeing its link.
    pub fn unlink(&mut self, links: &mut Vec<AtomicLink>, v: usize)
        requires
            old(self).wf(old(links)@),
            old(self).view().contains(v),
        ensures
            final(self).wf(final(links)@),
            final(self).view() == old(self).view().remove(old(self).view().index_of(v)),
            final(links)@.len() == old(links)@.len(),
            !final(links)@[v as int].spec_linked(),
            forall|j: int| 0 <= j < final(links)@.len() && j != v && !old(self).view().contains(j as usize)
                ==> #[trigger] final(links)@[j] == old(links)@[j],
    {
        proof {
            reveal(HList::wf);
        }
        let ghost nodes = self.nodes@;
        let head = unlink_at(links, self.head, Ghost(nodes), v);
        self.head = head;
        self.nodes = Ghost(nodes.remove(nodes.index_of(v)));
    }

    /// Iterates over the values of the list, from the head on.
    pub fn iter<'a>(&'a self, links: &Vec<AtomicLink>) -> (r: HListIter<'a>)
        requires
            self.wf(links@),
        ensures
            r.spec_list() == *self,
            r.spec_pos() == 0,
    {
        proof {
            reveal(HList::wf);
        }
        HListIter { cur: self.head, pos: Ghost(0), list: self }
    }

    /// A cursor on the value at the head of the list, if there is one.
    pub fn front<'a>(&'a self, links: &Vec<AtomicLink>) -> (r: Option<HListCursor<'a>>)
        requires
            self.wf(links@),
        ensures
            r is Some <==> self.view().len() > 0,
            r matches Some(c) ==> c.spec_list() == *self && c.spec_cur() == self.view()[0],
    {
        proof {
            reveal(HList::wf);
        }
        match self.head {
            Some(cur) => Some(HListCursor { cur, list: self }),
            None => None,
        }
    }
}

/// Iterates over the values of a list, from the head on.
pub struct HListIter<'a> {
    cur: Option<usize>,
    pos: Ghost<int>,
    list: &'a HList,
}

impl<'a> HListIter<'a> {
    #[verifier::type_invariant]
    closed spec fn inv(self) -> bool {
        &&& -1 <= self.pos@ <= self.list.nodes@.len()
        &&& self.cur == if 0 <= self.pos@ < self.list.nodes@.len() {
            Some(self.list.nodes@[self.pos@])
        } else {
            None::<usize>
        }
    }

    /// The list that the iterator walks.
    pub closed spec fn spec_list(&self) -> HList {
        *self.list
    }

    /// The position of the value that the iterator gives next: before the
    /// head or past the last value when it is out of the list's bounds.
    pub closed spec fn spec_pos(&self) -> int {
        self.pos@
    }

    /// Gives the value at the iterator and moves it to the next value.
    pub fn next(&mut self, links: &Vec<AtomicLink>) -> (r: Option<usize>)
        requires
            old(self).spec_list().wf(links@),
        ensures
            final(self).spec_list() == old(self).spec_list(),
            0 <= old(self).spec_pos() < old(self).spec_list().view().len() ==> r == Some(
                old(self).spec_list().view()[old(self).spec_pos()],
            ) && final(self).spec_pos() == old(self).spec_pos() + 1,
            !(0 <= old(self).spec_pos() < old(self).spec_list().view().len()) ==> r is None
                && final(self).spec_pos() == old(self).spec_pos(),
    {
        proof {
            use_type_invariant(&*self);
            reveal(HList::wf);
        }
        match self.cur {
            Some(v) => {
                let next = links[v].next();
                *self = HListIter { cur: next, pos: Ghost(self.pos@ + 1), list: self.list };
                Some(v)
            },
            None => None,
        }
    }

    /// Gives the value at the iterator and moves it to the previous value.
    pub fn next_back(&mut self, links: &Vec<AtomicLink>) -> (r: Option<usize>)
        requires
            old(self).spec_list().wf(links@),
        ensures
            final(self).spec_list() == old(self).spec_list(),
            0 <= old(self).spec_pos() < old(self).spec_list().view().len() ==> r == Some(
                old(self).spec_list().view()[old(self).spec_pos()],
            ) && final(self).spec_pos() == old(self).spec_pos() - 1,
            !(0 <= old(self).spec_pos() < old(self).spec_list().view().len()) ==> r is None
                && final(self).spec_pos() == old(self).spec_pos(),
    {
        proof {
            use_type_invariant(&*self);
            reveal(HList::wf);
        }
        match self.cur {
            Some(v) => {
                let prev = links[v].prev();
                *self = HListIter { cur: prev, pos: Ghost(self.pos@ - 1), list: self.list };
                Some(v)
            },
            None => None,
        }
    }
}

/// A cursor on a value of a list.
pub struct HListCursor<'a> {
    cur: usize,
    list: &'a HList,
}

impl<'a> Clone for HListCursor<'a> {
    fn clone(&self) -> (r: Self)
        ensures
            r == *self,
    {
        HListCursor { cur: self.cur, list: self.list }
    }
}

impl<'a> HListCursor<'a> {
    /// The list that the cursor walks.
    pub closed spec fn spec_list(&self) -> HList {
        *self.list
    }

    /// The value under the cursor.
    pub closed spec fn spec_cur(&self) -> usize {
        self.cur
    }

    /// The value under the cursor.
    pub fn get(&self) -> (r: usize)
        ensures
            r == self.spec_cur(),
    {
        self.cur
    }

    /// A cursor on the next value of the list, if there is one.
    pub fn next(self, links: &Vec<AtomicLink>) -> (r: Option<Self>)
        requires
            self.spec_list().wf(links@),
            self.spec_list().view().contains(self.spec_cur()),
        ensures
            ({
                let nodes = self.spec_list().view();
                let k = nodes.index_of(self.spec_cur());
                match r {
                    Some(c) => k + 1 < nodes.len() && c.spec_cur() == nodes[k + 1] && c.spec_list() == self.spec_list(),
                    None => k + 1 == nodes.len(),
                }
            }),
    {
        proof {
            reveal(HList::wf);
            let nodes = self.list.nodes@;
            let k = nodes.index_of(self.cur);
            assert(0 <= k < nodes.len() && nodes[k] == self.cur);
        }
        match links[self.cur].next() {
            Some(n) => Some(HListCursor { cur: n, list: self.list }),
            None => None,
        }
    }

    /// A cursor on the previous value of the list, if there is one.
    pub fn prev(self, links: &Vec<AtomicLink>) -> (r: Option<Self>)
        requires
            self.spec_list().wf(links@),
            self.spec_list().view().contains(self.spec_cur()),
        ensures
            ({
                let nodes = self.spec_list().view();
                let k = nodes.index_of(self.spec_cur());
                match r {
                    Some(c) => k > 0 && c.spec_cur() == nodes[k - 1] && c.spec_list() == self.spec_list(),
                    None => k == 0,
                }
            }),
    {
        proof {
            reveal(HList::wf);
            let nodes = self.list.nodes@;
            let k = nodes.index_of(self.cur);
            assert(0 <= k < nodes.len() && nodes[k] == self.cur);
        }
        match links[self.cur].prev() {
            Some(p) => Some(HListCursor { cur: p, list: self.list }),
            None => None,
        }
    }

    /// Moves the cursor to the next value, unless it is on the last one.
    pub fn move_next(&mut self, links: &Vec<AtomicLink>) -> (r: bool)
        requires
            old(self).spec_list().wf(links@),
            old(self).spec_list().view().contains(old(self).spec_cur()),
        ensures
            final(self).spec_list() == old(self).spec_list(),
            ({
                let nodes = old(self).spec_list().view();
                let k = nodes.index_of(old(self).spec_cur());
                &&& r <==> k + 1 < nodes.len()
                &&& r ==> final(self).spec_cur() == nodes[k + 1]
                &&& !r ==> final(self).spec_cur() == old(self).spec_cur()
            }),
    {
        match self.clone().next(links) {
            Some(c) => {
                self.cur = c.cur;
                true
            },
            None => false,
        }
    }

    /// Moves the cursor to the previous value, unless it is on the first one.
    pub fn move_prev(&mut self, links: &Vec<AtomicLink>) -> (r: bool)
        requires
            old(self).spec_list().wf(links@),
            old(self).spec_list().view().contains(old(self).spec_cur()),
        ensures
            final(self).spec_list() == old(self).spec_list(),
            ({
                let nodes = old(self).spec_list().view();
                let k = nodes.index_of(old(self).spec_cur());
                &&& r <==> k > 0
                &&& r ==> final(self).spec_cur() == nodes[k - 1]
                &&& !r ==> final(self).spec_cur() == old(self).spec_cur()
            }),
    {
        match self.clone().prev(links) {
            Some(c) => {
                self.cur = c.cur;
                true
            },
            None => false,
        }
    }
}

/// Takes the values off a list from the head on.
pub struct HListIntoIter {
    list: HList,
}

impl HListIntoIter {
    /// The list that remains to be taken.
    pub closed spec fn spec_list(&self) -> HList {
        self.list
    }

    /// Takes the value at the head of the remaining list off it, freeing its link.
    pub fn next(&mut self, links: &mut Vec<AtomicLink>) -> (r: Option<usize>)
        requires
            old(self).spec_list().wf(old(links)@),
        ensures
            final(self).spec_list().wf(final(links)@),
            final(links)@.len() == old(links)@.len(),
            old(self).spec_list().view().len() == 0 ==> r is None
                && final(self).spec_list().view() == old(self).spec_list().view(),
            old(self).spec_list().view().len() > 0 ==> r == Some(old(self).spec_list().view()[0])
                && final(self).spec_list().view() == old(self).spec_list().view().drop_first()
                && !final(links)@[old(self).spec_list().view()[0] as int].spec_linked(),
            forall|j: int| 0 <= j < final(links)@.len() && !old(self).spec_list().view().contains(j as usize)
                ==> #[trigger] final(links)@[j] == old(links)@[j],
    {
        self.list.pop_front(links)
    }
}


/// A list hands its values back in the reverse order of their pushing: the
/// value pushed last is the next one popped, and popping it gives back the
/// list as it was before the push.
pub proof fn lemma_push_pop(nodes: Seq<usize>, v: usize)
    ensures
        (seq![v] + nodes)[0] == v,
        (seq![v] + nodes).drop_first() == nodes,
{
    assert((seq![v] + nodes).drop_first() =~= nodes);
}

} // verus!
