//! A singly linked list of any element type, growing and shrinking at the
//! front, with a borrowing iterator that hands out clones.

use vstd::pervasive::cloned;
use vstd::prelude::*;
use vstd::std_specs::cmp::{PartialEqSpec, PartialEqSpecImpl};
use vstd::string::{to_string_from_display_ensures, StringExecFns};

verus! {

/// One cell of a list: an element and the cells behind it.
pub struct Node<T> {
    value: T,
    next: Option<Box<Node<T>>>,
}

/// The elements reachable from `link`, front first.
pub closed spec fn elements<T>(link: Option<Box<Node<T>>>) -> Seq<T>
    decreases link,
{
    match link {
        None => Seq::empty(),
        Some(node) => seq![node.value] + elements(node.next),
    }
}

impl<T> Node<T> {
    /// A cell that holds `value` in front of `next`.
    pub fn new(value: T, next: Option<Box<Node<T>>>) -> (r: Node<T>)
        ensures
            r.value() == value,
            r.next() == next,
            r.chain() == seq![value] + elements(next),
    {
        Node { value, next }
    }

    /// The cell's element.
    pub closed spec fn value(self) -> T {
        self.value
    }

    /// The cells behind this one.
    pub closed spec fn next(self) -> Option<Box<Node<T>>> {
        self.next
    }

    /// The elements from this cell on, front first.
    pub closed spec fn chain(self) -> Seq<T> {
        seq![self.value] + elements(self.next)
    }
}

/// A list of `T`; its view is the sequence of its elements, front first.
pub struct LinkedList<T> {
    head: Option<Box<Node<T>>>,
    size: usize,
}

impl<T> View for LinkedList<T> {
    type V = Seq<T>;

    closed spec fn view(&self) -> Seq<T> {
        elements(self.head)
    }
}

impl<T> LinkedList<T> {
    /// The recorded size is the number of elements.
    pub closed spec fn wf(&self) -> bool {
        self.size == elements(self.head).len()
    }

    /// The size that the list has on record.
    pub closed spec fn recorded_size(&self) -> usize {
        self.size
    }

    /// The empty list.
    pub fn new() -> (r: LinkedList<T>)
        ensures
            r.wf(),
            r@ == Seq::<T>::empty(),
    {
        LinkedList { head: None, size: 0 }
    }

    /// Number of elements.
    pub fn get_size(&self) -> (r: usize)
        requires
            self.wf(),
        ensures
            r == self@.len(),
    {
        self.size
    }

    /// Whether the list holds no element.
    pub fn is_empty(&self) -> (r: bool)
        requires
            self.wf(),
        ensures
            r == (self@.len() == 0),
    {
        self.get_size() == 0
    }

    /// Puts `value` in front of the list.
    pub fn push_front(&mut self, value: T)
        requires
            old(self).wf(),
            old(self)@.len() < usize::MAX,
        ensures
            final(self).wf(),
            final(self)@ == seq![value] + old(self)@,
    {
        let rest = self.head.take();
        let new_node: Box<Node<T>> = Box::new(Node::new(value, rest));
        self.head = Some(new_node);
        self.size += 1;
    }

    /// Takes the front element off the list; `None` where the list is empty.
    pub fn pop_front(&mut self) -> (r: Option<T>)
        requires
            old(self).wf(),
        ensures
            final(self).wf(),
            old(self)@.len() == 0 ==> r is None && final(self)@ == old(self)@,
            old(self)@.len() > 0 ==> r == Some(old(self)@[0]) && final(self)@ == old(self)@.skip(1),
    {
        match self.head.take() {
            None => None,
            Some(node) => {
                let node = *node;
                proof {
                    assert((seq![node.value] + elements(node.next)).skip(1) =~= elements(
                        node.next,
                    ));
                }
                self.head = node.next;
                self.size -= 1;
                Some(node.value)
            },
        }
    }

    /// Takes the front element off the list, so that repeated calls walk the
    /// list from front to back and empty it.
    pub fn next(&mut self) -> (r: Option<T>)
        requires
            old(self).wf(),
        ensures
            final(self).wf(),
            old(self)@.len() == 0 ==> r is None && final(self)@ == old(self)@,
            old(self)@.len() > 0 ==> r == Some(old(self)@[0]) && final(self)@ == old(self)@.skip(1),
    {
        self.pop_front()
    }
}

impl<T: Clone> Clone for Node<T> {
    /// A copy of this cell and of every cell behind it, each element cloned.
    fn clone(&self) -> (r: Self)
        ensures
            r.chain().len() == self.chain().len(),
            forall|i: int| 0 <= i < self.chain().len() ==> cloned(#[trigger] self.chain()[i], r.chain()[i]),
        decreases self,
    {
        let r = Node {
            value: self.value.clone(),
            next: (match &self.next {
                Some(node) => Some(Box::new((&**node).clone())),
                None => None,
            }),
        };
        proof {
            let mine = self.chain();
            let theirs = r.chain();
            if self.next is Some {
                assert(elements(self.next) == self.next->0.chain());
                assert(elements(r.next) == r.next->0.chain());
            }
            assert forall|i: int| 0 <= i < mine.len() implies cloned(
                #[trigger] mine[i],
                theirs[i],
            ) by {
                if i > 0 {
                    assert(mine[i] == elements(self.next)[i - 1]);
                    assert(theirs[i] == elements(r.next)[i - 1]);
                }
            }
        }
        r
    }
}

impl<T: Clone> Clone for LinkedList<T> {
    /// A list of the same length whose elements are clones of this list's,
    /// in the same order.
    fn clone(&self) -> (r: Self)
        ensures
            self.wf() ==> r.wf(),
            r@.len() == self@.len(),
            forall|i: int| 0 <= i < self@.len() ==> cloned(#[trigger] self@[i], r@[i]),
    {
        let head = match &self.head {
            Some(node) => Some(Box::new((&**node).clone())),
            None => None,
        };
        LinkedList { head, size: self.size }
    }
}

/// A walk over a borrowed list, front to back; its view is what is still to
/// come.
pub struct LinkedListIter<'a, T> where T: Clone {
    current: &'a Option<Box<Node<T>>>,
}

impl<'a, T: Clone> View for LinkedListIter<'a, T> {
    type V = Seq<T>;

    closed spec fn view(&self) -> Seq<T> {
        elements(*self.current)
    }
}

impl<T: Clone> LinkedList<T> {
    /// A walk over the list that leaves it as it is.
    pub fn iter(&self) -> (r: LinkedListIter<'_, T>)
        ensures
            r@ == self@,
    {
        LinkedListIter { current: &self.head }
    }

    /// Clones of the elements, front first.
    pub fn to_vec(&self) -> (r: Vec<T>)
        ensures
            r@.len() == self@.len(),
            forall|i: int| 0 <= i < self@.len() ==> cloned(#[trigger] self@[i], r@[i]),
    {
        let mut out: Vec<T> = Vec::new();
        let mut walk = self.iter();
        loop
            invariant
                out@.len() + walk@.len() == self@.len(),
                walk@ == self@.skip(out@.len() as int),
                forall|i: int| 0 <= i < out@.len() ==> cloned(#[trigger] self@[i], out@[i]),
            decreases walk@.len(),
        {
            match walk.next() {
                Some(value) => {
                    out.push(value);
                    proof {
                        assert(self@.skip(out@.len() - 1).skip(1) =~= self@.skip(
                            out@.len() as int,
                        ));
                    }
                },
                None => {
                    return out;
                },
            }
        }
    }
}

impl<'a, T: Clone> LinkedListIter<'a, T> {
    /// A clone of the next element, if one is left.
    pub fn next(&mut self) -> (r: Option<T>)
        ensures
            old(self)@.len() == 0 ==> r is None && final(self)@ == old(self)@,
            old(self)@.len() > 0 ==> r is Some && cloned(old(self)@[0], r.unwrap())
                && final(self)@ == old(self)@.skip(1),
    {
        match self.current {
            Some(node) => {
                proof {
                    assert((seq![node.value] + elements(node.next)).skip(1) =~= elements(
                        node.next,
                    ));
                }
                self.current = &node.next;
                Some(node.value.clone())
            },
            None => None,
        }
    }
}

impl<T> Drop for LinkedList<T> {
    /// Takes the list apart node by node, so that a long list is not
    /// unwound through one nested call per node.
    fn drop(&mut self)
        opens_invariants none
        no_unwind
    {
        let mut current: Option<Box<Node<T>>> = None;
        std::mem::swap(&mut current, &mut self.head);
        loop
            decreases elements(current).len(),
        {
            match current {
                Some(mut node) => {
                    proof {
                        assert(elements(Some(node)) == seq![node.value] + elements(node.next));
                    }
                    let mut rest: Option<Box<Node<T>>> = None;
                    std::mem::swap(&mut rest, &mut node.next);
                    current = rest;
                },
                None => {
                    return ;
                },
            }
        }
    }
}

/// Two sequences are equal element by element, as `T` compares.
pub open spec fn same_elements<T: PartialEq>(a: Seq<T>, b: Seq<T>) -> bool {
    &&& a.len() == b.len()
    &&& forall|i: int| 0 <= i < a.len() ==> (#[trigger] a[i]).eq_spec(&b[i])
}

/// Whether two chains of cells hold equal elements, pair by pair.
fn links_equal<T: PartialEq>(a: &Option<Box<Node<T>>>, b: &Option<Box<Node<T>>>) -> (r: bool)
    ensures
        T::obeys_eq_spec() ==> r == same_elements(elements(*a), elements(*b)),
    decreases *a,
{
    match (a, b) {
        (None, None) => true,
        (Some(x), Some(y)) => {
            let heads = x.value == y.value;
            let rest = heads && links_equal(&x.next, &y.next);
            proof {
                let left = elements(*a);
                let right = elements(*b);
                assert(left == seq![x.value] + elements(x.next));
                assert(right == seq![y.value] + elements(y.next));
                assert(left[0] == x.value && right[0] == y.value);
                if T::obeys_eq_spec() {
                    if rest {
                        assert forall|i: int| 0 <= i < left.len() implies (#[trigger] left[i]).eq_spec(
                            &right[i],
                        ) by {
                            if i > 0 {
                                assert(left[i] == elements(x.next)[i - 1]);
                                assert(right[i] == elements(y.next)[i - 1]);
                            }
                        }
                    } else if heads {
                        if same_elements(left, right) {
                            assert forall|i: int| 0 <= i < elements(x.next).len() implies (
                            #[trigger] elements(x.next)[i]).eq_spec(&elements(y.next)[i]) by {
                                assert(left[i + 1] == elements(x.next)[i]);
                                assert(right[i + 1] == elements(y.next)[i]);
                            }
                            assert(false);
                        }
                    }
                }
            }
            rest
        },
        _ => false,
    }
}

impl<T: PartialEq> PartialEq for LinkedList<T> {
    /// Two lists are equal where they have the same recorded size and the
    /// same elements, in the same order.
    fn eq(&self, other: &Self) -> (r: bool) {
        self.size == other.size && links_equal(&self.head, &other.head)
    }
}

impl<T: PartialEq> PartialEqSpecImpl for LinkedList<T> {
    open spec fn obeys_eq_spec() -> bool {
        T::obeys_eq_spec()
    }

    open spec fn eq_spec(&self, other: &Self) -> bool {
        self.recorded_size() == other.recorded_size() && same_elements(self@, other@)
    }
}

/// The text of a list whose elements read `texts`: the word `List ->`,
/// then each element after a space, front first.
pub open spec fn list_text(texts: Seq<Seq<char>>) -> Seq<char>
    decreases texts.len(),
{
    if texts.len() == 0 {
        seq!['L', 'i', 's', 't', ' ', '-', '>']
    } else {
        list_text(texts.drop_last()) + seq![' '] + texts.last()
    }
}

impl<T: std::fmt::Display> LinkedList<T> {
    /// The list as text: `List ->` followed by its elements, front first,
    /// each after one space and as its `Display` shows it.
    pub fn render(&self) -> (r: String)
        ensures
            exists|texts: Seq<Seq<char>>|
                {
                    &&& texts.len() == self@.len()
                    &&& forall|i: int|
                        0 <= i < texts.len() ==> exists|text: String|
                            text@ == #[trigger] texts[i] && to_string_from_display_ensures(
                                &self@[i],
                                text,
                            )
                    &&& r@ == list_text(texts)
                },
    {
        let mut result = String::from_str("List ->");
        let ghost mut texts: Seq<Seq<char>> = Seq::empty();
        proof {
            reveal_strlit("List ->");
            reveal_strlit(" ");
            assert(" "@ =~= seq![' ']);
            assert(result@ =~= list_text(texts));
        }
        let mut current: &Option<Box<Node<T>>> = &self.head;
        loop
            invariant
                texts.len() <= self@.len(),
                elements(*current) == self@.skip(texts.len() as int),
                forall|i: int|
                    0 <= i < texts.len() ==> exists|text: String|
                        text@ == #[trigger] texts[i] && to_string_from_display_ensures(
                            &self@[i],
                            text,
                        ),
                result@ == list_text(texts),
                " "@ == seq![' '],
            decreases self@.len() - texts.len(),
        {
            match current {
                Some(node) => {
                    let shown = node.value.to_string();
                    proof {
                        let rest = seq![node.value] + elements(node.next);
                        assert(rest == elements(*current));
                        assert(rest.len() >= 1);
                        assert(self@.skip(texts.len() as int).len() >= 1);
                        assert(rest[0] == node.value);
                        assert(self@.skip(texts.len() as int)[0] == self@[texts.len() as int]);
                        assert(self@.skip(texts.len() as int).skip(1) =~= self@.skip(
                            texts.len() as int + 1,
                        ));
                        assert(rest.skip(1) =~= elements(node.next));
                    }
                    result.append(" ");
                    result.append(shown.as_str());
                    proof {
                        let longer = texts.push(shown@);
                        assert(longer.drop_last() =~= texts);
                        assert(longer.last() == shown@);
                        assert forall|i: int| 0 <= i < longer.len() implies exists|text: String|
                            text@ == #[trigger] longer[i] && to_string_from_display_ensures(
                                &self@[i],
                                text,
                            ) by {
                            if i < texts.len() {
                                let text = choose|text: String|
                                    text@ == texts[i] && to_string_from_display_ensures(
                                        &self@[i],
                                        text,
                                    );
                                assert(text@ == longer[i]);
                            } else {
                                assert(shown@ == longer[i]);
                            }
                        }
                        texts = longer;
                    }
                    current = &node.next;
                },
                None => {
                    proof {
                        if texts.len() < self@.len() {
                            assert(self@.skip(texts.len() as int).len() > 0);
                        }
                    }
                    return result;
                },
            }
        }
    }
}

/// Pushing and then popping gives the element back and leaves the list as
/// it was.
pub proof fn lemma_pop_undoes_push<T>(list: Seq<T>, value: T)
    ensures
        (seq![value] + list)[0] == value,
        (seq![value] + list).skip(1) == list,
{
    assert((seq![value] + list).skip(1) =~= list);
}

} // verus!
