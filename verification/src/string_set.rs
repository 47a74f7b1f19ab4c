//! A finite set of strings, kept in a vector. It backs the registries of
//! this crate, which need membership and nothing else.

use vstd::prelude::*;

verus! {

/// Some element of `items` reads `text`.
pub open spec fn holds(items: Seq<String>, text: Seq<char>) -> bool {
    exists|i: int| 0 <= i < items.len() && (#[trigger] items[i])@ == text
}

/// Appending an element adds its text to what the sequence holds, and
/// nothing else.
pub proof fn lemma_holds_push(items: Seq<String>, item: String, text: Seq<char>)
    ensures
        holds(items.push(item), text) <==> holds(items, text) || item@ == text,
{
    let longer = items.push(item);
    if holds(items, text) {
        let i = choose|i: int| 0 <= i < items.len() && (#[trigger] items[i])@ == text;
        assert(longer[i]@ == text);
    }
    if item@ == text {
        assert(longer[items.len() as int]@ == text);
    }
    if holds(longer, text) {
        let i = choose|i: int| 0 <= i < longer.len() && (#[trigger] longer[i])@ == text;
        if i < items.len() {
            assert(items[i]@ == text);
        }
    }
}

/// A finite set of strings.
pub struct StringSet {
    items: Vec<String>,
}

impl View for StringSet {
    type V = Set<Seq<char>>;

    closed spec fn view(&self) -> Set<Seq<char>> {
        Set::new(|text: Seq<char>| holds(self.items@, text))
    }
}

impl StringSet {
    /// The empty set.
    pub fn new() -> (set: Self)
        ensures
            set@ == Set::<Seq<char>>::empty(),
    {
        let set = StringSet { items: Vec::new() };
        assert(set@ =~= Set::<Seq<char>>::empty());
        set
    }

    /// Whether `text` is a member.
    pub fn contains(&self, text: &str) -> (found: bool)
        ensures
            found == self@.contains(text@),
    {
        let wanted = String::from_str(text);
        let n: usize = self.items.len();
        let mut i: usize = 0;
        while i < n
            invariant
                i <= n,
                n == self.items.len(),
                wanted@ == text@,
                forall|k: int| 0 <= k < i ==> (#[trigger] self.items[k])@ != text@,
            decreases n - i,
        {
            if self.items[i] == wanted {
                return true;
            }
            i = i + 1;
        }
        false
    }

    /// Makes `text` a member. Tells whether it was new.
    pub fn insert(&mut self, text: String) -> (fresh: bool)
        ensures
            final(self)@ == old(self)@.insert(text@),
            fresh == !old(self)@.contains(text@),
    {
        if self.contains(text.as_str()) {
            assert(self@ =~= old(self)@.insert(text@));
            false
        } else {
            proof {
                assert forall|t: Seq<char>| holds(self.items@.push(text), t) <==> old(self)@.insert(
                    text@,
                ).contains(t) by {
                    lemma_holds_push(self.items@, text, t);
                }
            }
            self.items.push(text);
            assert(self@ =~= old(self)@.insert(text@));
            true
        }
    }

    /// Makes `text` no member. Every other member stays.
    pub fn remove(&mut self, text: &str)
        ensures
            final(self)@ == old(self)@.remove(text@),
    {
        let wanted = String::from_str(text);
        let mut kept: Vec<String> = Vec::new();
        let n: usize = self.items.len();
        let mut i: usize = 0;
        assert(self.items@.take(0) =~= Seq::<String>::empty());
        while i < n
            invariant
                i <= n,
                n == self.items.len(),
                wanted@ == text@,
                forall|t: Seq<char>| #[trigger]
                    holds(kept@, t) <==> t != text@ && holds(self.items@.take(i as int), t),
            decreases n - i,
        {
            let ghost done = self.items@.take(i as int);
            let ghost held = kept@;
            assert(self.items@.take(i + 1) =~= done.push(self.items[i as int]));
            if !(self.items[i] == wanted) {
                let copy = self.items[i].clone();
                kept.push(copy);
                assert forall|t: Seq<char>| #[trigger]
                    holds(kept@, t) <==> t != text@ && holds(self.items@.take(i + 1), t) by {
                    lemma_holds_push(held, copy, t);
                    lemma_holds_push(done, self.items[i as int], t);
                    assert(holds(held, t) <==> t != text@ && holds(done, t));
                }
            } else {
                assert forall|t: Seq<char>| #[trigger]
                    holds(kept@, t) <==> t != text@ && holds(self.items@.take(i + 1), t) by {
                    lemma_holds_push(done, self.items[i as int], t);
                    assert(holds(held, t) <==> t != text@ && holds(done, t));
                }
            }
            i = i + 1;
        }
        assert(self.items@.take(n as int) =~= self.items@);
        self.items = kept;
        assert(self@ =~= old(self)@.remove(text@));
    }
}

} // verus!
