//! A cyclic navigator over the images of one directory.

use crate::image_handler::path_order::{lemma_sorted_paths, path_order, sort_paths, sorted_paths};
use vstd::arithmetic::div_mod::{
    lemma_add_mod_noop_right, lemma_mod_add_multiples_vanish, lemma_mod_bound, lemma_mod_self_0,
    lemma_mod_sub_multiples_vanish, lemma_small_mod,
};
use vstd::prelude::*;
use vstd::relations::sorted_by;

verus! {

/// What an [`ImageSet`] stands for: the paths in browsing order, and the
/// position of the one on display.
pub struct ImageSetView {
    pub entries: Seq<Seq<char>>,
    pub cursor: nat,
}

impl ImageSetView {
    /// The set without entries, in which nothing can be browsed.
    pub open spec fn empty() -> Self {
        ImageSetView { entries: Seq::empty(), cursor: 0 }
    }

    /// The entries are in browsing order and the cursor points at one of
    /// them, or at 0 where there is none.
    pub open spec fn wf(self) -> bool {
        &&& sorted_by(self.entries, path_order())
        &&& if self.entries.len() == 0 {
            self.cursor == 0
        } else {
            self.cursor < self.entries.len()
        }
    }

    /// There is nothing to browse.
    pub open spec fn is_empty(self) -> bool {
        self.entries.len() == 0
    }

    /// The path under the cursor.
    pub open spec fn current(self) -> Option<Seq<char>> {
        if self.is_empty() {
            None
        } else {
            Some(self.entries[self.cursor as int])
        }
    }

    /// The set that a session starts with: all of `paths` in browsing order
    /// with the cursor on the first occurrence of `current`, and the empty
    /// set where `current` is not among `paths`.
    pub open spec fn initial(paths: Seq<Seq<char>>, current: Seq<char>) -> Self {
        let entries = sorted_paths(paths);
        match entries.index_of_first(current) {
            Some(index) => ImageSetView { entries, cursor: index as nat },
            None => Self::empty(),
        }
    }

    /// What [`Self::initial`] gives: the empty set exactly where `current` is
    /// not among `paths`, and else the same paths, each as often as given, in
    /// browsing order, with the cursor on the first occurrence of `current`.
    pub proof fn lemma_initial(paths: Seq<Seq<char>>, current: Seq<char>)
        ensures
            Self::initial(paths, current).wf(),
            Self::initial(paths, current).is_empty() <==> !paths.contains(current),
            paths.contains(current) ==> {
                let set = Self::initial(paths, current);
                &&& set.entries == sorted_paths(paths)
                &&& set.entries.to_multiset() == paths.to_multiset()
                &&& set.entries.len() == paths.len()
                &&& set.cursor < set.entries.len()
                &&& set.entries[set.cursor as int] == current
                &&& set.current() == Some(current)
                &&& forall|i: int| 0 <= i < set.cursor ==> set.entries[i] != current
                &&& paths.no_duplicates() ==> set.entries.no_duplicates()
            },
    {
        let sorted = sorted_paths(paths);
        lemma_sorted_paths(paths);
        sorted.index_of_first_ensures(current);
        if paths.contains(current) {
            assert(sorted.contains(current));
            assert(sorted.len() > 0);
        }
    }

    /// The set after one step forward: the cursor moves to the following
    /// entry, and from the last entry to the first.
    pub open spec fn after_next(self) -> Self {
        if self.is_empty() {
            self
        } else {
            ImageSetView {
                entries: self.entries,
                cursor: ((self.cursor as int + 1) % (self.entries.len() as int)) as nat,
            }
        }
    }

    /// The set after one step back: the cursor moves to the preceding entry,
    /// and from the first entry to the last.
    pub open spec fn after_prev(self) -> Self {
        if self.is_empty() {
            self
        } else if self.cursor > 0 {
            ImageSetView { entries: self.entries, cursor: (self.cursor - 1) as nat }
        } else {
            ImageSetView { entries: self.entries, cursor: (self.entries.len() - 1) as nat }
        }
    }

    /// The set after `n` steps forward.
    pub open spec fn after_next_n(self, n: nat) -> Self
        decreases n,
    {
        if n == 0 {
            self
        } else {
            self.after_next_n((n - 1) as nat).after_next()
        }
    }

    /// The set after `n` steps back.
    pub open spec fn after_prev_n(self, n: nat) -> Self
        decreases n,
    {
        if n == 0 {
            self
        } else {
            self.after_prev_n((n - 1) as nat).after_prev()
        }
    }

    /// Stepping keeps a set well formed.
    pub proof fn lemma_step_preserves_wf(self)
        requires
            self.wf(),
        ensures
            self.after_next().wf(),
            self.after_prev().wf(),
    {
        if !self.is_empty() {
            lemma_mod_bound(self.cursor as int + 1, self.entries.len() as int);
        }
    }

    /// A step forward leads to the following entry, and from the last entry
    /// to the first.
    pub proof fn lemma_after_next_wraps(self)
        requires
            self.wf(),
            !self.is_empty(),
        ensures
            self.after_next().cursor == if self.cursor + 1 < self.entries.len() {
                self.cursor + 1
            } else {
                0
            },
    {
        if self.cursor + 1 < self.entries.len() {
            lemma_small_mod(self.cursor + 1, self.entries.len());
        } else {
            lemma_mod_self_0(self.entries.len() as int);
        }
    }

    /// `n` steps forward move the cursor `n` places ahead, counted round the
    /// set, and leave the entries alone.
    pub proof fn lemma_after_next_n(self, n: nat)
        requires
            self.wf(),
            !self.is_empty(),
        ensures
            self.after_next_n(n).entries == self.entries,
            self.after_next_n(n).cursor == (self.cursor + n) % self.entries.len(),
        decreases n,
    {
        let len = self.entries.len() as int;
        let start = self.cursor as int;
        if n == 0 {
            lemma_small_mod(self.cursor, self.entries.len());
        } else {
            self.lemma_after_next_n((n - 1) as nat);
            lemma_add_mod_noop_right(1, start + n - 1, len);
            lemma_mod_bound(start + n, len);
        }
    }

    /// `n` steps back move the cursor `n` places back, counted round the set,
    /// and leave the entries alone.
    pub proof fn lemma_after_prev_n(self, n: nat)
        requires
            self.wf(),
            !self.is_empty(),
        ensures
            self.after_prev_n(n).entries == self.entries,
            self.after_prev_n(n).cursor == (self.cursor - n) % (self.entries.len() as int),
        decreases n,
    {
        let len = self.entries.len() as int;
        let start = self.cursor as int;
        if n == 0 {
            lemma_small_mod(self.cursor, self.entries.len());
        } else {
            self.lemma_after_prev_n((n - 1) as nat);
            let before = (start - (n - 1)) % len;
            lemma_mod_bound(start - (n - 1), len);
            lemma_add_mod_noop_right(-1, start - (n - 1), len);
            assert((start - n) % len == (before - 1) % len);
            if before == 0 {
                lemma_mod_add_multiples_vanish(-1, len);
                lemma_small_mod((len - 1) as nat, len as nat);
            } else {
                lemma_small_mod((before - 1) as nat, len as nat);
            }
        }
    }

    /// As many steps forward as the set has entries lead back to the entry
    /// that they started from.
    pub proof fn lemma_next_cycle(self)
        requires
            self.wf(),
            !self.is_empty(),
        ensures
            self.after_next_n(self.entries.len()) == self,
            self.after_next_n(self.entries.len()).current() == self.current(),
    {
        let len = self.entries.len() as int;
        self.lemma_after_next_n(self.entries.len());
        lemma_mod_add_multiples_vanish(self.cursor as int, len);
        lemma_small_mod(self.cursor, self.entries.len());
    }

    /// As many steps back as the set has entries lead back to the entry that
    /// they started from.
    pub proof fn lemma_prev_cycle(self)
        requires
            self.wf(),
            !self.is_empty(),
        ensures
            self.after_prev_n(self.entries.len()) == self,
            self.after_prev_n(self.entries.len()).current() == self.current(),
    {
        let len = self.entries.len() as int;
        self.lemma_after_prev_n(self.entries.len());
        lemma_mod_sub_multiples_vanish(self.cursor as int, len);
        lemma_small_mod(self.cursor, self.entries.len());
    }

    /// In an empty set no number of steps finds a path or moves the cursor.
    pub proof fn lemma_empty_stays(self, n: nat)
        requires
            self.is_empty(),
        ensures
            self.after_next_n(n) == self,
            self.after_prev_n(n) == self,
            self.after_next_n(n).current() is None,
            self.after_prev_n(n).current() is None,
        decreases n,
    {
        if n > 0 {
            self.lemma_empty_stays((n - 1) as nat);
        }
    }
}

/// The images of one directory in browsing order, with the one on display
/// marked. Only the mark moves once the set is built.
#[derive(Debug)]
pub struct ImageSet {
    images: Vec<String>,
    curr_image_index: usize,
}

impl View for ImageSet {
    type V = ImageSetView;

    closed spec fn view(&self) -> ImageSetView {
        ImageSetView { entries: self.images.deep_view(), cursor: self.curr_image_index as nat }
    }
}

impl ImageSet {
    /// Holds of every set, however it was built and browsed.
    #[verifier::type_invariant]
    pub open spec fn inv(&self) -> bool {
        self@.wf()
    }

    /// Builds the set from the candidate paths of a directory and the path
    /// that the session was started on: all of the paths, sorted, with the
    /// cursor on that path. Where that path is not among them the set is
    /// empty, and nothing can be browsed in the session.
    pub fn new(images: Vec<String>, curr_image_path: &String) -> (set: Self)
        ensures
            set@ == ImageSetView::initial(images.deep_view(), curr_image_path@),
            set@.wf(),
            set@.is_empty() <==> !images.deep_view().contains(curr_image_path@),
            images.deep_view().contains(curr_image_path@) ==> {
                &&& set@.entries == sorted_paths(images.deep_view())
                &&& set@.entries.to_multiset() == images.deep_view().to_multiset()
                &&& set@.current() == Some(curr_image_path@)
            },
    {
        let ghost given = images.deep_view();
        let images = sort_paths(images);
        proof {
            lemma_sorted_paths(given);
            ImageSetView::lemma_initial(given, curr_image_path@);
        }
        match Self::get_image_index(&images, curr_image_path) {
            Some(curr_image_index) => {
                proof {
                    images.deep_view().index_of_first_ensures(curr_image_path@);
                }
                Self { images, curr_image_index }
            },
            None => {
                proof {
                    images.deep_view().index_of_first_ensures(curr_image_path@);
                }
                let set = Self { images: Vec::new(), curr_image_index: 0 };
                assert(set@.entries =~= Seq::empty());
                set
            },
        }
    }

    /// Finds the first position of `curr_image_path` among `images`, or
    /// `None` where it is not among them.
    pub fn get_image_index(
        images: &Vec<String>,
        curr_image_path: &String,
    ) -> (index: Option<usize>)
        ensures
            match index {
                Some(i) => {
                    &&& images.deep_view().index_of_first(curr_image_path@) == Some(i as int)
                    &&& i < images.len()
                    &&& images.deep_view()[i as int] == curr_image_path@
                    &&& forall|j: int| 0 <= j < i ==> images.deep_view()[j] != curr_image_path@
                },
                None => {
                    &&& images.deep_view().index_of_first(curr_image_path@) is None
                    &&& !images.deep_view().contains(curr_image_path@)
                    &&& forall|j: int|
                        0 <= j < images.len() ==> images.deep_view()[j] != curr_image_path@
                },
            },
    {
        let ghost entries = images.deep_view();
        let mut i: usize = 0;
        while i < images.len()
            invariant
                i <= images.len(),
                entries == images.deep_view(),
                forall|j: int| 0 <= j < i ==> entries[j] != curr_image_path@,
            decreases images.len() - i,
        {
            if images[i] == *curr_image_path {
                proof {
                    assert(entries[i as int] == curr_image_path@);
                    assert(entries.contains(curr_image_path@));
                    entries.index_of_first_ensures(curr_image_path@);
                }
                return Some(i);
            }
            i += 1;
        }
        proof {
            entries.index_of_first_ensures(curr_image_path@);
        }
        None
    }

    /// Steps to the following image, from the last one to the first, and
    /// returns its path. An empty set stays as it is and gives `None`.
    pub fn next(&mut self) -> (path: Option<String>)
        ensures
            final(self)@ == old(self)@.after_next(),
            final(self)@.wf(),
            path.deep_view() == final(self)@.current(),
            old(self)@.is_empty() ==> path is None && final(self)@ == old(self)@,
    {
        proof {
            use_type_invariant(&*self);
        }
        if self.images.len() == 0 {
            return None;
        }
        self.curr_image_index = (self.curr_image_index + 1) % self.images.len();
        Some(self.images[self.curr_image_index].clone())
    }

    /// Steps to the preceding image, from the first one to the last, and
    /// returns its path. An empty set stays as it is and gives `None`.
    pub fn prev(&mut self) -> (path: Option<String>)
        ensures
            final(self)@ == old(self)@.after_prev(),
            final(self)@.wf(),
            path.deep_view() == final(self)@.current(),
            old(self)@.is_empty() ==> path is None && final(self)@ == old(self)@,
    {
        proof {
            use_type_invariant(&*self);
        }
        if self.images.len() == 0 {
            return None;
        }
        self.curr_image_index = if self.curr_image_index > 0 {
            self.curr_image_index - 1
        } else {
            self.images.len() - 1
        };
        Some(self.images[self.curr_image_index].clone())
    }
}

} // verus!
