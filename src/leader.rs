//! A leaderboard of one: the first candidate whose list is strictly longer
//! than every earlier candidate's list.
use vstd::prelude::*;

use crate::record::{copy_strings, names};

verus! {

/// The current leader: its name, the length of its list and the list itself.
pub struct Leader {
    name: String,
    count: usize,
    items: Vec<String>,
}

/// The mathematical value of a leader.
pub struct LeaderView {
    pub name: Seq<char>,
    pub count: nat,
    pub items: Seq<Seq<char>>,
}

impl View for Leader {
    type V = LeaderView;

    closed spec fn view(&self) -> LeaderView {
        LeaderView { name: self.name@, count: self.count as nat, items: names(self.items@) }
    }
}

/// The leader before any candidate: an empty name with an empty list.
pub open spec fn empty_leader() -> LeaderView {
    LeaderView { name: Seq::empty(), count: 0, items: Seq::empty() }
}

/// The leader after one more candidate: replaced only on a strictly longer list.
pub open spec fn leader_step(l: LeaderView, name: Seq<char>, items: Seq<Seq<char>>) -> LeaderView {
    if items.len() > l.count {
        LeaderView { name, count: items.len(), items }
    } else {
        l
    }
}

impl Leader {
    pub fn new() -> (r: Leader)
        ensures
            r@ == empty_leader(),
    {
        let r = Leader { name: String::new(), count: 0, items: Vec::new() };
        assert(names(r.items@) =~= Seq::<Seq<char>>::empty());
        r
    }

    /// A leader holding `name` with the list `items`.
    pub fn from_list(name: String, items: Vec<String>) -> (r: Leader)
        ensures
            r@ == (LeaderView { name: name@, count: names(items@).len(), items: names(items@) }),
    {
        Leader { name, count: items.len(), items }
    }

    /// Offers a candidate with its list; the list is copied only when the
    /// candidate takes the lead.
    pub fn offer(&mut self, name: &String, items: &Vec<String>)
        ensures
            final(self)@ == leader_step(old(self)@, name@, names(items@)),
    {
        if items.len() > self.count {
            self.count = items.len();
            self.name = name.clone();
            self.items = copy_strings(items);
        }
    }

    /// A copy of this leader.
    pub fn copy(&self) -> (r: Leader)
        ensures
            r@ == self@,
    {
        Leader { name: self.name.clone(), count: self.count, items: copy_strings(&self.items) }
    }

    pub fn name(&self) -> (r: &String)
        ensures
            r@ == self@.name,
    {
        &self.name
    }

    pub fn count(&self) -> (r: usize)
        ensures
            r as nat == self@.count,
    {
        self.count
    }

    pub fn items(&self) -> (r: &Vec<String>)
        ensures
            names(r@) == self@.items,
    {
        &self.items
    }
}

} // verus!
