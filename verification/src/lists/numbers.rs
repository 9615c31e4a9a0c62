//! A singly linked list of `u32` used as a stack, and its rendering as text.

use crate::numerals::{decimal, push_decimal};
use vstd::prelude::*;
use vstd::string::StringExecFns;

verus! {

/// One cell of the stack: a number and the cells below it.
struct Node {
    value: u32,
    next: Option<Box<Node>>,
}

/// The numbers reachable from `link`, top first.
spec fn numbers(link: Option<Box<Node>>) -> Seq<u32>
    decreases link,
{
    match link {
        None => Seq::empty(),
        Some(node) => seq![node.value] + numbers(node.next),
    }
}

impl Node {
    /// A cell that holds `value` on top of `next`.
    fn new(value: u32, next: Option<Box<Node>>) -> (r: Node)
        ensures
            r.value == value,
            r.next == next,
    {
        Node { value: value, next: next }
    }
}

/// The text of a list: the word `list ->`, then each number after a space,
/// top first.
pub open spec fn rendering(items: Seq<u32>) -> Seq<char>
    decreases items.len(),
{
    if items.len() == 0 {
        seq!['l', 'i', 's', 't', ' ', '-', '>']
    } else {
        rendering(items.drop_last()) + seq![' '] + decimal(items.last() as nat)
    }
}

/// A stack of numbers; its view is the sequence of its numbers, top first.
pub struct LinkedList {
    head: Option<Box<Node>>,
    size: usize,
}

impl View for LinkedList {
    type V = Seq<u32>;

    closed spec fn view(&self) -> Seq<u32> {
        numbers(self.head)
    }
}

impl LinkedList {
    /// The recorded size is the number of elements.
    pub closed spec fn wf(&self) -> bool {
        self.size == numbers(self.head).len()
    }

    /// The empty stack.
    pub fn new() -> (r: LinkedList)
        ensures
            r.wf(),
            r@ == Seq::<u32>::empty(),
    {
        LinkedList { head: None, size: 0 }
    }

    /// Number of elements.
    pub fn get_size(&self) -> (r: usize)
        requires
            self.wf(),
        ensures
            r == self@.len(),
    {
        self.size
    }

    /// Whether the stack holds nothing.
    pub fn is_empty(&self) -> (r: bool)
        requires
            self.wf(),
        ensures
            r == (self@.len() == 0),
    {
        self.size == 0
    }

    /// Puts `value` on top.
    pub fn push(&mut self, value: u32)
        requires
            old(self).wf(),
            old(self)@.len() < usize::MAX,
        ensures
            final(self).wf(),
            final(self)@ == seq![value] + old(self)@,
    {
        let new_node = Box::new(Node::new(value, self.head.take()));
        self.head = Some(new_node);
        self.size += 1;
    }

    /// Takes the top number off; `None` where the stack is empty.
    pub fn pop(&mut self) -> (r: Option<u32>)
        requires
            old(self).wf(),
        ensures
            final(self).wf(),
            old(self)@.len() == 0 ==> r is None && final(self)@ == old(self)@,
            old(self)@.len() > 0 ==> r == Some(old(self)@[0]) && final(self)@ == old(self)@.skip(1),
    {
        match self.head.take() {
            None => None,
            Some(node) => {
                let node = *node;
                proof {
                    assert((seq![node.value] + numbers(node.next)).skip(1) =~= numbers(node.next));
                }
                self.head = node.next;
                self.size -= 1;
                Some(node.value)
            },
        }
    }

    /// The stack as text: `list ->` followed by its numbers, top first, each
    /// after one space.
    pub fn render(&self) -> (r: String)
        ensures
            r@ == rendering(self@),
    {
        let mut result = String::from_str("list ->");
        proof {
            reveal_strlit("list ->");
            assert(result@ =~= rendering(Seq::<u32>::empty()));
            assert(numbers(self.head).take(0) =~= Seq::<u32>::empty());
        }
        let mut current: &Option<Box<Node>> = &self.head;
        let ghost mut done: int = 0;
        loop
            invariant
                0 <= done <= self@.len(),
                numbers(*current) == self@.skip(done),
                result@ == rendering(self@.take(done)),
            decreases self@.len() - done,
        {
            match current {
                Some(node) => {
                    proof {
                        let rest = seq![node.value] + numbers(node.next);
                        assert(rest == numbers(*current));
                        assert(rest.len() >= 1);
                        assert(self@.skip(done).len() >= 1);
                        assert(rest[0] == node.value);
                        assert(self@.skip(done)[0] == self@[done]);
                        assert(self@.skip(done).skip(1) =~= self@.skip(done + 1));
                        assert(rest.skip(1) =~= numbers(node.next));
                        reveal_strlit(" ");
                    }
                    result.append(" ");
                    push_decimal(&mut result, node.value);
                    proof {
                        let shown = self@.take(done + 1);
                        assert(shown.drop_last() =~= self@.take(done));
                        assert(shown.last() == node.value);
                        assert(" "@ =~= seq![' ']);
                        done = done + 1;
                    }
                    current = &node.next;
                },
                None => {
                    proof {
                        assert(self@.take(done) =~= self@);
                    }
                    return result;
                },
            }
        }
    }
}

impl Drop for LinkedList {
    /// Takes the list apart node by node, so that a long list is not
    /// unwound through one nested call per node.
    fn drop(&mut self)
        opens_invariants none
        no_unwind
    {
        let mut current: Option<Box<Node>> = None;
        std::mem::swap(&mut current, &mut self.head);
        loop
            decreases numbers(current).len(),
        {
            match current {
                Some(mut node) => {
                    proof {
                        assert(numbers(Some(node)) == seq![node.value] + numbers(node.next));
                    }
                    let mut rest: Option<Box<Node>> = None;
                    std::mem::swap(&mut rest, &mut node.next);
                    current = rest;
                },
                None => {
                    return ;
                },
            }
        }
    }
}

} // verus!
