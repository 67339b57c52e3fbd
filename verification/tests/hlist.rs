use chos_lib::intrusive::list::{AtomicLink, HList};
use chos_lib::intrusive::slist::{Link, SList};

fn links(n: usize) -> Vec<AtomicLink> {
    (0..n).map(|_| AtomicLink::new()).collect()
}

#[test]
fn hlist_into_iter() {
    let mut values = vec![0u32, 1, 2];
    let mut links = links(3);
    let mut list = HList::new();
    list.push_front(&mut links, 0);
    list.push_front(&mut links, 1);
    list.push_front(&mut links, 2);
    let mut iter = list.into_iter();
    while let Some(a) = iter.next(&mut links) {
        values[a] += 1;
    }
    assert_eq!(values[0], 1);
    assert_eq!(values[1], 2);
    assert_eq!(values[2], 3);
}

#[test]
fn hlist_clear() {
    let mut links = links(3);
    let mut list = HList::new();
    list.push_front(&mut links, 0);
    list.push_front(&mut links, 1);
    list.push_front(&mut links, 2);
    list.clear(&mut links);
    assert!(!links[0].is_linked());
    assert!(!links[1].is_linked());
    assert!(!links[2].is_linked());
}

#[test]
fn hlist_fast_clear() {
    let mut links = links(3);
    let mut list = HList::new();
    list.push_front(&mut links, 0);
    list.push_front(&mut links, 1);
    list.push_front(&mut links, 2);
    list.fast_clear();
    assert!(links[0].is_linked());
    assert!(links[1].is_linked());
    assert!(links[2].is_linked());
    assert!(list.iter(&links).next(&links).is_none());
}

#[test]
fn hlist_push_front_dup() {
    let mut links = links(1);
    let mut list = HList::new();
    assert!(list.try_push_front(&mut links, 0).is_ok());
    assert!(list.try_push_front(&mut links, 0).is_err());
}

#[test]
fn hlist_pop_front() {
    let mut links = links(3);
    let mut list = HList::new();
    list.push_front(&mut links, 0);
    list.push_front(&mut links, 1);
    list.push_front(&mut links, 2);
    assert_eq!(list.pop_front(&mut links), Some(2));
    assert_eq!(list.pop_front(&mut links), Some(1));
    assert_eq!(list.pop_front(&mut links), Some(0));
    assert_eq!(list.pop_front(&mut links), None);
    assert!(!links[2].is_linked());
}

#[test]
fn link_force_unlink() {
    let mut links = links(1);
    let mut list = HList::new();
    list.push_front(&mut links, 0);
    list.fast_clear();
    assert!(links[0].is_linked());
    links[0].force_unlink();
    assert!(!links[0].is_linked());
}

#[test]
fn hlist_take_moves_values() {
    let mut links = links(2);
    let mut list = HList::new();
    list.push_front(&mut links, 0);
    list.push_front(&mut links, 1);
    let mut other = list.take();
    assert_eq!(list.pop_front(&mut links), None);
    assert_eq!(other.pop_front(&mut links), Some(1));
    assert_eq!(other.pop_front(&mut links), Some(0));
}

#[test]
fn hlist_relink_after_pop() {
    let mut links = links(2);
    let mut list = HList::new();
    list.push_front(&mut links, 0);
    assert_eq!(list.pop_front(&mut links), Some(0));
    assert!(list.try_push_front(&mut links, 0).is_ok());
    assert_eq!(list.pop_front(&mut links), Some(0));
}

#[test]
fn slist_push_pop() {
    let mut links = vec![Link::unlinked(), Link::unlinked(), Link::unlinked()];
    let mut list = SList::new();
    list.push_front(&mut links, 0);
    list.push_front(&mut links, 2);
    assert!(!links[2].is_unlinked());
    assert_eq!(list.pop_front(&mut links), Some(2));
    assert!(links[2].is_unlinked());
    assert_eq!(list.pop_front(&mut links), Some(0));
    assert_eq!(list.pop_front(&mut links), None);
}

#[test]
fn hlist_cursor_walk() {
    let mut links = links(3);
    let mut list = HList::new();
    for v in 0..3 {
        list.push_front(&mut links, v);
    }
    let mut c = list.front(&links).unwrap();
    assert_eq!(c.get(), 2);
    assert!(!c.move_prev(&links));
    assert!(c.move_next(&links));
    assert_eq!(c.get(), 1);
    assert!(c.move_next(&links));
    assert_eq!(c.get(), 0);
    assert!(!c.move_next(&links));
    assert_eq!(c.get(), 0);
    assert_eq!(c.clone().prev(&links).map(|p| p.get()), Some(1));
    assert!(c.next(&links).is_none());
    assert!(HList::new().front(&links).is_none());
}

#[test]
fn hlist_unlink_middle_and_head() {
    let mut links = links(3);
    let mut list = HList::new();
    for v in 0..3 {
        list.push_front(&mut links, v);
    }
    list.unlink(&mut links, 1);
    assert!(!links[1].is_linked());
    let c = list.front(&links).unwrap();
    assert_eq!(c.get(), 2);
    assert_eq!(c.next(&links).map(|n| n.get()), Some(0));
    list.unlink(&mut links, 2);
    assert_eq!(list.front(&links).map(|c| c.get()), Some(0));
    assert_eq!(list.pop_front(&mut links), Some(0));
    assert!(list.front(&links).is_none());
}

/// The list of the values 2, 1 and 0, in that order, and the links of the three values.
fn with_hlist<R>(f: impl FnOnce(&mut HList, &mut Vec<AtomicLink>) -> R) -> R {
    let mut links = links(3);
    let mut list = HList::new();
    list.push_front(&mut links, 0);
    list.push_front(&mut links, 1);
    list.push_front(&mut links, 2);
    f(&mut list, &mut links)
}

fn values_of(list: &HList, links: &Vec<AtomicLink>, values: &[u32]) -> Vec<u32> {
    let mut it = list.iter(links);
    let mut v = Vec::new();
    while let Some(a) = it.next(links) {
        v.push(values[a]);
    }
    v
}

#[test]
fn hlist_push_front() {
    with_hlist(|list, links| {
        assert_eq!(values_of(list, links, &[0, 1, 2]), [2, 1, 0]);
    });
}

#[test]
fn hlist_iter() {
    with_hlist(|list, links| {
        let values = [0u32, 1, 2];
        let mut iter = list.iter(links);
        assert_eq!(iter.next(links).map(|a| values[a]), Some(2));
        assert_eq!(iter.next(links).map(|a| values[a]), Some(1));
        assert_eq!(iter.next(links).map(|a| values[a]), Some(0));
        assert_eq!(iter.next(links).map(|a| values[a]), None);
    });
}

#[test]
fn hlist_cursor() {
    with_hlist(|list, links| {
        let values = [0u32, 1, 2];
        let mut cur = list.front(links);
        assert_eq!(cur.as_ref().map(|c| values[c.get()]), Some(2));
        cur = cur.unwrap().next(links);
        assert_eq!(cur.as_ref().map(|c| values[c.get()]), Some(1));
        cur = cur.unwrap().next(links);
        assert_eq!(cur.as_ref().map(|c| values[c.get()]), Some(0));
        cur = cur.unwrap().next(links);
        assert_eq!(cur.as_ref().map(|c| values[c.get()]), None);
    });
}

#[test]
fn hlist_cursor_mut() {
    with_hlist(|list, links| {
        let mut values = [0u32, 1, 2];
        let mut cur = list.front(links);
        assert!(cur.is_some());
        values[cur.as_ref().unwrap().get()] += 1;
        cur = cur.unwrap().next(links);
        assert!(cur.is_some());
        values[cur.as_ref().unwrap().get()] += 1;
        cur = cur.unwrap().next(links);
        assert!(cur.is_some());
        values[cur.as_ref().unwrap().get()] += 1;
        cur = cur.unwrap().next(links);
        assert!(cur.is_none());
        assert_eq!(values_of(list, links, &values), [3, 2, 1]);
    });
}

#[test]
fn hlist_cursor_unlink() {
    with_hlist(|list, links| {
        let cur = list.front(links);
        let second = cur.unwrap().next(links).unwrap().get();
        list.unlink(links, second);
        assert_eq!(values_of(list, links, &[0, 1, 2]), [2, 0]);
    });
}

#[test]
fn slist_cursor_and_iter() {
    let mut links: Vec<Link> = (0..3).map(|_| Link::unlinked()).collect();
    let mut list = SList::new();
    list.push_front(&mut links, 0);
    list.push_front(&mut links, 1);
    list.push_front(&mut links, 2);
    let mut c = list.front(&links);
    assert!(c.is_valid() && c.is_tail(&links));
    assert_eq!(c.try_get_ref(), Some(2));
    c.move_next(&links);
    c.move_next(&links);
    assert_eq!(c.try_get_ref(), Some(0));
    assert!(c.is_valid() && !c.is_tail(&links));
    c.move_next(&links);
    assert!(!c.is_valid());
    assert_eq!(c.try_get_ref(), None);
    c.move_next(&links);
    assert!(!c.is_valid());

    let mut it = list.iter(&links);
    let mut seen = Vec::new();
    while let Some(v) = it.next(&links) {
        seen.push(v);
    }
    assert_eq!(seen, vec![2, 1, 0]);
}

#[test]
fn hlist_iter_back_and_forth() {
    with_hlist(|list, links| {
        let mut iter = list.iter(links);
        assert_eq!(iter.next(links), Some(2));
        assert_eq!(iter.next(links), Some(1));
        assert_eq!(iter.next_back(links), Some(0));
        assert_eq!(iter.next_back(links), Some(1));
        assert_eq!(iter.next_back(links), Some(2));
        assert_eq!(iter.next_back(links), None);
        assert_eq!(iter.next(links), None);
    });
}
