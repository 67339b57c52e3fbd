//! Singly-linked intrusive lists.
//!
//! As for the doubly-linked lists, the links of all the values are kept in
//! one table indexed by the value's number.
use vstd::prelude::*;

use super::list::next_of;

verus! {

/// The link that a value embeds to be put in a singly-linked list. A link
/// whose successor is absent counts as unlinked.
#[derive(Debug, Clone, Copy)]
pub struct Link {
    next: Option<usize>,
}

impl Link {
    /// The value after this one in its list.
    pub closed spec fn spec_next(&self) -> Option<usize> {
        self.next
    }

    /// The link whose successor is `next`.
    pub closed spec fn with_next(next: Option<usize>) -> Link {
        Link { next }
    }

    /// The successor of the link built from `next` is `next`.
    pub proof fn lemma_with_next(next: Option<usize>)
        ensures
            #[trigger] Link::with_next(next).spec_next() == next,
    {
    }

    /// A link that no list holds.
    pub fn unlinked() -> (r: Self)
        ensures
            r.spec_next() is None,
    {
        Link { next: None }
    }

    pub fn is_unlinked(&self) -> (r: bool)
        ensures
            r == (self.spec_next() is None),
    {
        self.next.is_none()
    }
}

/// A singly-linked list threaded through the links of its values.
pub struct SList {
    head: Option<usize>,
    nodes: Ghost<Seq<usize>>,
}

impl SList {
    /// The values of the list, from the head on.
    pub closed spec fn view(&self) -> Seq<usize> {
        self.nodes@
    }

    /// The list is consistent with the links of its values: each value
    /// occurs once and its link points to the next value.
    pub closed spec fn wf(&self, links: Seq<Link>) -> bool {
        let nodes = self.nodes@;
        &&& nodes.no_duplicates()
        &&& self.head == (if nodes.len() == 0 { None } else { Some(nodes[0]) })
        &&& forall|k: int| 0 <= k < nodes.len() ==> {
            &&& #[trigger] nodes[k] < links.len()
            &&& links[nodes[k] as int].spec_next() == next_of(nodes, k)
        }
    }

    /// An empty list.
    pub fn new() -> (r: Self)
        ensures
            r.view() == Seq::<usize>::empty(),
            forall|links: Seq<Link>| r.wf(links),
    {
        SList { head: None, nodes: Ghost(Seq::empty()) }
    }

    /// Puts value `v`, whose link is unlinked and which is not in the list,
    /// at the head of the list.
    pub fn push_front(&mut self, links: &mut Vec<Link>, v: usize)
        requires
            old(self).wf(old(links)@),
            v < old(links)@.len(),
            old(links)@[v as int].spec_next() is None,
            !old(self).view().contains(v),
        ensures
            final(self).wf(final(links)@),
            final(self).view() == seq![v] + old(self).view(),
            final(links)@ == old(links)@.update(v as int, Link::with_next(
                if old(self).view().len() == 0 { None } else { Some(old(self).view()[0]) })),
    {
        let ghost old_nodes = self.nodes@;
        let ghost old_links = links@;
        links.set(v, Link { next: self.head });
        self.head = Some(v);
        proof {
            let nodes = seq![v] + old_nodes;
            self.nodes = Ghost(nodes);
            assert(nodes.no_duplicates()) by {
                assert forall|a: int, b: int| 0 <= a < b < nodes.len() implies nodes[a] != nodes[b] by {
                    if a == 0 {
                        assert(old_nodes.contains(nodes[b]));
                    } else {
                        assert(nodes[a] == old_nodes[a - 1] && nodes[b] == old_nodes[b - 1]);
                    }
                }
            }
            assert forall|k: int| 0 <= k < nodes.len() implies {
                &&& #[trigger] nodes[k] < links@.len()
                &&& links@[nodes[k] as int].spec_next() == next_of(nodes, k)
            } by {
                if k > 0 {
                    let n = nodes[k];
                    assert(n == old_nodes[k - 1]);
                    assert(n != v) by {
                        assert(old_nodes.contains(n));
                    }
                    if k + 1 < nodes.len() {
                        assert(next_of(nodes, k) == Some(old_nodes[k]));
                    }
                } else if old_nodes.len() > 0 {
                    assert(next_of(nodes, 0) == Some(old_nodes[0]));
                }
            }
        }
    }

    /// Takes the value at the head of the list off it, unlinking it.
    pub fn pop_front(&mut self, links: &mut Vec<Link>) -> (r: Option<usize>)
        requires
            old(self).wf(old(links)@),
        ensures
            final(self).wf(final(links)@),
            old(self).view().len() == 0 ==> r is None && final(self).view() == old(self).view()
                && final(links)@ == old(links)@,
            old(self).view().len() > 0 ==> r == Some(old(self).view()[0])
                && final(self).view() == old(self).view().drop_first()
                && final(links)@ == old(links)@.update(old(self).view()[0] as int, Link::with_next(None)),
    {
        match self.head {
            None => None,
            Some(h) => {
                let ghost old_nodes = self.nodes@;
                proof {
                    assert(old_nodes[0] == h);
                    assert(h < links@.len());
                }
                let next = links[h].next;
                self.head = next;
                links.set(h, Link { next: None });
                proof {
                    let nodes = old_nodes.drop_first();
                    self.nodes = Ghost(nodes);
                    assert forall|k: int| 0 <= k < nodes.len() implies {
                        &&& #[trigger] nodes[k] < links@.len()
                        &&& links@[nodes[k] as int].spec_next() == next_of(nodes, k)
                    } by {
                        assert(nodes[k] == old_nodes[k + 1]);
                        assert(old_nodes[k + 1] != old_nodes[0]);
                        if k + 2 < old_nodes.len() {
                            assert(next_of(old_nodes, k + 1) == Some(old_nodes[k + 2]));
                        }
                    }
                    if old_nodes.len() > 1 {
                        assert(next_of(old_nodes, 0) == Some(old_nodes[1]));
                    }
                }
                Some(h)
            }
        }
    }

    /// A cursor on the value at the head of the list, or on no value.
    pub fn front<'a>(&'a self, links: &Vec<Link>) -> (r: Cursor<'a>)
        requires
            self.wf(links@),
        ensures
            r.spec_list() == *self,
            r.spec_pos() == 0,
    {
        Cursor { list: self, cur: self.head, pos: Ghost(0) }
    }

    /// Iterates over the values of the list, from the head on.
    pub fn iter<'a>(&'a self, links: &Vec<Link>) -> (r: Iter<'a>)
        requires
            self.wf(links@),
        ensures
            r.spec_cursor().spec_list() == *self,
            r.spec_cursor().spec_pos() == 0,
    {
        Iter { cursor: self.front(links) }
    }
}

/// A cursor on a value of a singly-linked list, or past its last value.
#[derive(Clone, Copy)]
pub struct Cursor<'a> {
    list: &'a SList,
    cur: Option<usize>,
    pos: Ghost<int>,
}

impl<'a> Cursor<'a> {
    #[verifier::type_invariant]
    closed spec fn inv(self) -> bool {
        &&& 0 <= self.pos@ <= self.list.nodes@.len()
        &&& self.cur == if self.pos@ < self.list.nodes@.len() {
            Some(self.list.nodes@[self.pos@])
        } else {
            None::<usize>
        }
    }

    /// The list that the cursor walks.
    pub closed spec fn spec_list(&self) -> SList {
        *self.list
    }

    /// The position of the cursor in the list: past the last value when it
    /// equals the length of the list.
    pub closed spec fn spec_pos(&self) -> int {
        self.pos@
    }

    /// Moves the cursor to the next value, or past the last one.
    pub fn move_next(&mut self, links: &Vec<Link>)
        requires
            old(self).spec_list().wf(links@),
        ensures
            final(self).spec_list() == old(self).spec_list(),
            final(self).spec_pos() == if old(self).spec_pos() < old(self).spec_list().view().len() {
                old(self).spec_pos() + 1
            } else {
                old(self).spec_pos()
            },
    {
        proof {
            use_type_invariant(&*self);
        }
        if let Some(c) = self.cur {
            let next = links[c].next;
            *self = Cursor { list: self.list, cur: next, pos: Ghost(self.pos@ + 1) };
        }
    }

    /// The value under the cursor, if any.
    pub fn try_get_ref(&self) -> (r: Option<usize>)
        ensures
            0 <= self.spec_pos() < self.spec_list().view().len() ==> r == Some(self.spec_list().view()[self.spec_pos()]),
            !(0 <= self.spec_pos() < self.spec_list().view().len()) ==> r is None,
    {
        proof {
            use_type_invariant(self);
        }
        self.cur
    }

    /// Whether the cursor is on a value that another value follows.
    pub fn is_tail(&self, links: &Vec<Link>) -> (r: bool)
        requires
            self.spec_list().wf(links@),
        ensures
            r == (0 <= self.spec_pos() && self.spec_pos() + 1 < self.spec_list().view().len()),
    {
        proof {
            use_type_invariant(self);
        }
        match self.cur {
            Some(c) => links[c].next.is_some(),
            None => false,
        }
    }

    /// Whether the cursor is on a value.
    pub fn is_valid(&self) -> (r: bool)
        ensures
            r == (0 <= self.spec_pos() < self.spec_list().view().len()),
    {
        proof {
            use_type_invariant(self);
        }
        self.cur.is_some()
    }
}

/// Iterates over the values of a singly-linked list, from the head on.
pub struct Iter<'a> {
    cursor: Cursor<'a>,
}

impl<'a> Iter<'a> {
    /// The cursor on the value that the iterator gives next.
    pub closed spec fn spec_cursor(&self) -> Cursor<'a> {
        self.cursor
    }

    /// Gives the next value of the list.
    pub fn next(&mut self, links: &Vec<Link>) -> (r: Option<usize>)
        requires
            old(self).spec_cursor().spec_list().wf(links@),
        ensures
            final(self).spec_cursor().spec_list() == old(self).spec_cursor().spec_list(),
            ({
                let c = old(self).spec_cursor();
                let nodes = c.spec_list().view();
                &&& c.spec_pos() < nodes.len() ==> r == Some(nodes[c.spec_pos()])
                    && final(self).spec_cursor().spec_pos() == c.spec_pos() + 1
                &&& c.spec_pos() >= nodes.len() ==> r is None && final(self).spec_cursor().spec_pos() == c.spec_pos()
            }),
    {
        proof {
            use_type_invariant(&self.cursor);
        }
        let r = self.cursor.try_get_ref();
        self.cursor.move_next(links);
        r
    }
}

} // verus!
