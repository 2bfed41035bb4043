//! A sequence held as a linked list, so that two lists are equal exactly
//! when they hold the same elements in the same order.

use vstd::prelude::*;

verus! {

/// One link of a list: an element and the links after it.
pub struct Link<T> {
    pub elem: T,
    pub next: Option<Box<Link<T>>>,
}

/// A linked list.
pub struct List<T> {
    pub head: Option<Box<Link<T>>>,
}

/// The elements of a chain of links, first to last.
pub open spec fn chain_view<T>(chain: Option<Box<Link<T>>>) -> Seq<T>
    decreases chain,
{
    match chain {
        None => Seq::empty(),
        Some(link) => seq![link.elem] + chain_view(link.next),
    }
}

/// The chain of links that holds the elements of `s`.
pub open spec fn chain_of<T>(s: Seq<T>) -> Option<Box<Link<T>>>
    decreases s.len(),
{
    if s.len() == 0 {
        None
    } else {
        Some(Box::new(Link { elem: s[0], next: chain_of(s.subrange(1, s.len() as int)) }))
    }
}

/// A chain made from a sequence holds that sequence.
pub proof fn lemma_view_of_chain<T>(s: Seq<T>)
    ensures
        chain_view(chain_of(s)) == s,
    decreases s.len(),
{
    if s.len() > 0 {
        lemma_view_of_chain(s.subrange(1, s.len() as int));
        assert(seq![s[0]] + s.subrange(1, s.len() as int) =~= s);
    } else {
        assert(chain_view(chain_of(s)) =~= s);
    }
}

/// A list is taken apart link by link, however long it is.
impl<T> Drop for List<T> {
    fn drop(&mut self)
        opens_invariants none
        no_unwind
    {
        let mut cur: Option<Box<Link<T>>> = None;
        core::mem::swap(&mut self.head, &mut cur);
        loop
            decreases cur,
        {
            match cur {
                Some(mut link) => {
                    let mut next: Option<Box<Link<T>>> = None;
                    core::mem::swap(&mut link.next, &mut next);
                    cur = next;
                },
                None => {
                    break ;
                },
            }
        }
    }
}

impl<T: Copy> List<T> {
    /// The elements of the list, first to last.
    pub open spec fn view(self) -> Seq<T> {
        chain_view(self.head)
    }

    /// The list that holds the elements of `s`.
    pub open spec fn from_seq(s: Seq<T>) -> Self {
        List { head: chain_of(s) }
    }

    /// A list made from a sequence holds that sequence.
    pub proof fn lemma_view_of_from_seq(s: Seq<T>)
        ensures
            Self::from_seq(s).view() == s,
    {
        lemma_view_of_chain(s);
    }

    /// Whether the list is empty.
    pub fn is_empty(&self) -> (b: bool)
        ensures
            b == (self.view().len() == 0),
    {
        self.head.is_none()
    }

    /// Copies a vector into a list.
    pub fn from_vec(v: &Vec<T>) -> (list: Self)
        ensures
            list == Self::from_seq(v@),
            list.view() == v@,
    {
        let mut head: Option<Box<Link<T>>> = None;
        let mut i: usize = v.len();
        assert(v@.subrange(i as int, v@.len() as int) =~= Seq::<T>::empty());
        while i > 0
            invariant
                i <= v@.len(),
                head == chain_of(v@.subrange(i as int, v@.len() as int)),
            decreases i,
        {
            i -= 1;
            proof {
                let rest = v@.subrange(i as int, v@.len() as int);
                assert(rest.subrange(1, rest.len() as int) =~= v@.subrange(
                    i + 1,
                    v@.len() as int,
                ));
            }
            head = Some(Box::new(Link { elem: v[i], next: head }));
        }
        proof {
            assert(v@.subrange(0, v@.len() as int) =~= v@);
            lemma_view_of_chain(v@);
        }
        List { head }
    }

    /// Copies the list into a vector.
    pub fn to_vec(&self) -> (v: Vec<T>)
        ensures
            v@ == self.view(),
    {
        let mut v: Vec<T> = Vec::new();
        let mut cur: &Option<Box<Link<T>>> = &self.head;
        assert(v@ + chain_view(*cur) =~= self.view());
        loop
            invariant
                v@ + chain_view(*cur) == self.view(),
            ensures
                v@ == self.view(),
            decreases *cur,
        {
            match cur {
                None => {
                    assert(v@ + chain_view(*cur) =~= v@);
                    break ;
                },
                Some(link) => {
                    let ghost before = v@;
                    v.push(link.elem);
                    assert(v@ + chain_view(link.next) =~= before + chain_view(*cur));
                    cur = &link.next;
                },
            }
        }
        v
    }
}

} // verus!
