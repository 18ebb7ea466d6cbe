//! A list with a cursor.

use std::slice::Iter;
use vstd::prelude::*;
use vstd::std_specs::convert::FromSpecImpl;
use vstd::std_specs::iter::IteratorSpec;

verus! {

/// The index after `active` among `count` elements, the first after the
/// last.
pub open spec fn index_after(active: Option<usize>, count: nat) -> Option<usize> {
    match active {
        Some(i) => Some(
            if i + 1 >= count {
                0usize
            } else {
                (i + 1) as usize
            },
        ),
        None => None,
    }
}

/// The index before `active` among `count` elements, the last before the
/// first.
pub open spec fn index_before(active: Option<usize>, count: nat) -> Option<usize> {
    match active {
        Some(i) => Some(
            if i == 0 {
                (count - 1) as usize
            } else {
                (i - 1) as usize
            },
        ),
        None => None,
    }
}

/// A growable list that holds the index of one of its elements, the active
/// one. The list has an active element exactly when it is not empty.
pub struct ActiveVec<T> {
    items: Vec<T>,
    active_index: Option<usize>,
}

impl<T> ActiveVec<T> {
    /// The elements, in order.
    pub closed spec fn items(self) -> Seq<T> {
        self.items@
    }

    /// The index of the active element.
    pub closed spec fn active(self) -> Option<usize> {
        self.active_index
    }

    /// The invariant: an empty list has no active element, and in any
    /// other the active index is that of an element.
    pub open spec fn wf(self) -> bool {
        match self.active() {
            Some(i) => i < self.items().len(),
            None => self.items().len() == 0,
        }
    }

    /// The list that holds `items`, with the first of them active.
    pub closed spec fn spec_from_vec(items: Vec<T>) -> Self {
        ActiveVec {
            items,
            active_index: if items@.len() == 0 {
                None
            } else {
                Some(0)
            },
        }
    }

    /// What `spec_from_vec` makes of a list.
    pub proof fn lemma_spec_from_vec(items: Vec<T>)
        ensures
            Self::spec_from_vec(items).wf(),
            Self::spec_from_vec(items).items() == items@,
            Self::spec_from_vec(items).active() == (if items@.len() == 0 {
                None::<usize>
            } else {
                Some(0usize)
            }),
    {
    }

    /// An empty list.
    pub fn new() -> (list: Self)
        ensures
            list.wf(),
            list.items() == Seq::<T>::empty(),
            list.active() == None::<usize>,
    {
        Self { items: Vec::new(), active_index: None }
    }

    /// How many elements the list holds.
    pub fn len(&self) -> (n: usize)
        ensures
            n == self.items().len(),
    {
        self.items.len()
    }

    /// Whether the list holds no element.
    pub fn is_empty(&self) -> (empty: bool)
        ensures
            empty == (self.items().len() == 0),
    {
        self.items.len() == 0
    }

    /// Appends `item`. In a list that was empty it becomes the active
    /// element; in any other the active element stays.
    pub fn push(&mut self, item: T)
        requires
            old(self).wf(),
        ensures
            final(self).wf(),
            final(self).items() == old(self).items().push(item),
            final(self).active() == (if old(self).active() is None {
                Some(0usize)
            } else {
                old(self).active()
            }),
    {
        self.items.push(item);
        if self.active_index.is_none() {
            self.active_index = Some(0);
        }
    }

    /// The index of the active element; `None` in an empty list.
    pub fn get_active_index(&self) -> (index: Option<usize>)
        ensures
            index == self.active(),
    {
        self.active_index
    }

    /// The active element; `None` in an empty list.
    pub fn get_active(&self) -> (item: Option<&T>)
        requires
            self.wf(),
        ensures
            match self.active() {
                Some(i) => item == Some(&self.items()[i as int]),
                None => item is None,
            },
    {
        match self.active_index {
            Some(i) => Some(&self.items[i]),
            None => None,
        }
    }

    /// The element at `index`.
    pub fn get(&self, index: usize) -> (item: &T)
        requires
            index < self.items().len(),
        ensures
            *item == self.items()[index as int],
    {
        &self.items[index]
    }

    /// The active element, to change it; `None` in an empty list. What the
    /// caller writes through the reference is the active element
    /// afterwards; nothing else changes.
    pub fn get_active_mut(&mut self) -> (item: Option<&mut T>)
        requires
            old(self).wf(),
        ensures
            final(self).wf(),
            final(self).active() == old(self).active(),
            match old(self).active() {
                Some(i) => item matches Some(slot) && *slot == old(self).items()[i as int]
                    && final(self).items() == old(self).items().update(i as int, *final(slot)),
                None => item is None && final(self).items() == old(self).items(),
            },
    {
        match self.active_index {
            Some(i) => Some(&mut self.items[i]),
            None => None,
        }
    }

    /// An iterator over the elements, in order.
    pub fn iter(&self) -> (iter: Iter<'_, T>)
        ensures
            iter.remaining().unref() == self.items(),
    {
        broadcast use vstd::std_specs::slice::axiom_spec_slice_iter;

        self.items.iter()
    }

    /// Makes the next element the active one; after the last comes the
    /// first. Does nothing in an empty list.
    pub fn next(&mut self)
        requires
            old(self).wf(),
        ensures
            final(self).wf(),
            final(self).items() == old(self).items(),
            final(self).active() == index_after(old(self).active(), old(self).items().len()),
    {
        if let Some(index) = self.active_index {
            let len = self.items.len();
            if index + 1 >= len {
                self.active_index = Some(0);
            } else {
                self.active_index = Some(index + 1);
            }
        }
    }

    /// Makes the element before the active one the active one; before the
    /// first comes the last. Does nothing in an empty list.
    pub fn prev(&mut self)
        requires
            old(self).wf(),
        ensures
            final(self).wf(),
            final(self).items() == old(self).items(),
            final(self).active() == index_before(old(self).active(), old(self).items().len()),
    {
        if let Some(index) = self.active_index {
            if index == 0 {
                self.active_index = Some(self.items.len() - 1);
            } else {
                self.active_index = Some(index - 1);
            }
        }
    }
}

impl<T> From<Vec<T>> for ActiveVec<T> {
    /// The list that holds the elements of `value`, the first of them
    /// active.
    fn from(value: Vec<T>) -> (list: Self)
    {
        let active_index = if value.len() == 0 {
            None
        } else {
            Some(0)
        };
        ActiveVec { items: value, active_index }
    }
}

impl<T> FromSpecImpl<Vec<T>> for ActiveVec<T> {
    open spec fn obeys_from_spec() -> bool {
        true
    }

    open spec fn from_spec(value: Vec<T>) -> Self {
        ActiveVec::spec_from_vec(value)
    }
}

/// Going forward and then back, or back and then forward, ends at the
/// element where it began.
pub proof fn lemma_next_prev_cancel(active: Option<usize>, count: nat)
    requires
        count <= usize::MAX,
        match active {
            Some(i) => i < count,
            None => count == 0,
        },
    ensures
        index_before(index_after(active, count), count) == active,
        index_after(index_before(active, count), count) == active,
{
}

} // verus!
