//! Paths as sequences of name components.
//!
//! The walk only ever extends a path by one name, reads its final
//! component, or replaces that component after a rename, so a path is
//! modeled as the list of its components and viewed as a sequence of
//! character sequences.

use vstd::prelude::*;

verus! {

/// The views of a sequence of name components.
pub open spec fn names_view(components: Seq<String>) -> Seq<Seq<char>> {
    Seq::new(components.len(), |i: int| components[i]@)
}

/// A filesystem path, one name component per element.
#[derive(Debug, Clone, PartialEq, Eq)]
pub struct FsPath {
    /// The components, from the outermost directory to the final name.
    pub components: Vec<String>,
}

impl View for FsPath {
    type V = Seq<Seq<char>>;

    open spec fn view(&self) -> Seq<Seq<char>> {
        names_view(self.components@)
    }
}

impl FsPath {
    /// A path from its components.
    pub fn new(components: Vec<String>) -> (p: FsPath)
        ensures
            p@ == names_view(components@),
    {
        FsPath { components }
    }

    /// How many components the path has.
    pub fn len(&self) -> (n: usize)
        ensures
            n == self@.len(),
    {
        self.components.len()
    }

    /// A copy whose view is the same.
    pub fn duplicate(&self) -> (p: FsPath)
        ensures
            p@ == self@,
    {
        let mut components: Vec<String> = Vec::new();
        let mut i: usize = 0;
        while i < self.components.len()
            invariant
                i <= self.components.len(),
                components@.len() == i,
                names_view(components@) =~= self@.subrange(0, i as int),
            decreases self.components.len() - i,
        {
            let ghost pre = components@;
            components.push(self.components[i].clone());
            proof {
                assert forall|j: int| 0 <= j < i + 1 implies names_view(components@)[j]
                    == self@.subrange(0, i as int + 1)[j] by {
                    if j < i {
                        assert(names_view(pre)[j] == self@.subrange(0, i as int)[j]);
                    }
                }
            }
            assert(names_view(components@) =~= self@.subrange(0, i + 1));
            i = i + 1;
        }
        assert(names_view(components@) =~= self@);
        FsPath { components }
    }

    /// The path one name below this one.
    pub fn join(&self, name: &String) -> (p: FsPath)
        ensures
            p@ == self@.push(name@),
    {
        let mut p = self.duplicate();
        p.components.push(name.clone());
        assert(p@ =~= self@.push(name@));
        p
    }

    /// The final name component, if the path has one.
    pub fn file_name(&self) -> (name: Option<&String>)
        ensures
            match name {
                Some(n) => self@.len() > 0 && n@ == self@.last(),
                None => self@.len() == 0,
            },
    {
        if self.components.len() == 0 {
            None
        } else {
            Some(&self.components[self.components.len() - 1])
        }
    }

    /// Replace the final name component. The path must have one; a path
    /// computed by the walk always does.
    pub fn set_file_name(&mut self, name: String)
        requires
            old(self)@.len() > 0,
        ensures
            final(self)@ == old(self)@.update(old(self)@.len() - 1, name@),
    {
        let last: usize = self.components.len() - 1;
        self.components.set(last, name);
        assert(self@ =~= old(self)@.update(old(self)@.len() - 1, name@));
    }

    /// The path with its final name component replaced.
    pub fn with_file_name(&self, name: String) -> (p: FsPath)
        requires
            self@.len() > 0,
        ensures
            p@ == self@.update(self@.len() - 1, name@),
    {
        let mut p = self.duplicate();
        p.set_file_name(name);
        p
    }
}

} // verus!
