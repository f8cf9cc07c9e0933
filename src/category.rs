//! Creating and updating categories.
use crate::error::ForumError;
use crate::forum::{
    child_nr, error_of, moderated_threads_in, parent_of, subcategories_of, threads_in,
    unmoderated_threads_in, Event, Forum,
};
use crate::numbering::{lemma_numbered_insert, lemma_numbered_same};
use crate::records::{BlockchainTimestamp, Category, ChildPositionInParentCategory};
use crate::{AccountId, CategoryId};
use vstd::prelude::*;

verus! {

broadcast use vstd::std_specs::btree::group_btree_axioms, vstd::laws_cmp::group_laws_cmp;

/// A category as it is created.
pub open spec fn new_category(
    id: CategoryId,
    title: Vec<u8>,
    description: Vec<u8>,
    now: BlockchainTimestamp,
    position: Option<ChildPositionInParentCategory>,
    who: AccountId,
) -> Category {
    Category {
        id,
        title,
        description,
        created_at: now,
        deleted: false,
        archived: false,
        num_direct_subcategories: 0,
        num_direct_unmoderated_threads: 0,
        num_direct_moderated_threads: 0,
        position_in_parent_category: position,
        moderator_id: who,
    }
}

impl Forum {
    /// Why `create_category` refuses, if it does: the caller is not the
    /// sudo, the title or description has a bad length, or the parent is
    /// missing, locked, or already at the greatest depth.
    pub open spec fn create_category_error(
        self,
        who: AccountId,
        parent: Option<CategoryId>,
        title_len: int,
        description_len: int,
    ) -> Option<ForumError> {
        let title_error = error_of(
            self.category_title_constraint.validation(
                title_len,
                ForumError::TitleTooShort,
                ForumError::TitleTooLong,
            ),
        );
        let description_error = error_of(
            self.category_description_constraint.validation(
                description_len,
                ForumError::DescriptionTooShort,
                ForumError::DescriptionTooLong,
            ),
        );
        if self.sudo_error(who) is Some {
            self.sudo_error(who)
        } else if title_error is Some {
            title_error
        } else if description_error is Some {
            description_error
        } else {
            match parent {
                None => None,
                Some(p) => if !self.cats().contains_key(p) {
                    Some(ForumError::CategoryNotFound)
                } else if !self.can_mutate_in(p) {
                    Some(ForumError::AncestorImmutable)
                } else if self.depth(p) + 1 > self.max_category_depth {
                    Some(ForumError::MaxDepthExceeded)
                } else {
                    None
                },
            }
        }
    }

    /// Position of a new category under `parent`: the next number there.
    pub open spec fn child_position(self, parent: Option<CategoryId>) -> Option<
        ChildPositionInParentCategory,
    > {
        match parent {
            None => None,
            Some(p) => Some(
                ChildPositionInParentCategory {
                    parent_id: p,
                    child_nr_in_parent_category: (self.cats()[p].num_direct_subcategories
                        + 1) as u32,
                },
            ),
        }
    }

    /// The categories after `cat` is added under `parent`, whose count of
    /// subcategories goes up by one.
    pub open spec fn cats_after_create(self, parent: Option<CategoryId>, cat: Category) -> Map<
        CategoryId,
        Category,
    > {
        match parent {
            None => self.cats().insert(cat.id, cat),
            Some(p) => self.cats().insert(
                p,
                Category {
                    num_direct_subcategories: (self.cats()[p].num_direct_subcategories + 1) as u32,
                    ..self.cats()[p]
                },
            ).insert(cat.id, cat),
        }
    }

    /// Depth of a new category under `parent`.
    pub open spec fn depth_under(self, parent: Option<CategoryId>) -> nat {
        match parent {
            None => 0,
            Some(p) => self.depth(p) + 1,
        }
    }

    /// The path from category `c` up to its root, if `c` exists.
    pub fn ensure_valid_category_and_build_category_tree_path(&self, c: CategoryId) -> (r: Result<
        Vec<CategoryId>,
        ForumError,
    >)
        requires
            self.wf(),
        ensures
            match r {
                Ok(path) => {
                    &&& self.cats().contains_key(c)
                    &&& path@ == self.tree_path(c)
                    &&& forall|i: int|
                        0 <= i < path@.len() ==> self.cats().contains_key(#[trigger] path@[i])
                },
                Err(e) => !self.cats().contains_key(c) && e == ForumError::CategoryNotFound,
            },
    {
        if !self.category_by_id.contains_key(&c) {
            return Err(ForumError::CategoryNotFound);
        }
        proof {
            self.lemma_tree_path(c);
        }
        Ok(self.build_category_tree_path(c))
    }

    /// Accepts the path of a parent under which a subcategory may be
    /// created: none of it is locked, and the new category, one level below
    /// the first entry, stays within the greatest depth.
    pub fn ensure_can_add_subcategory_path_leaf(&self, path: &Vec<CategoryId>) -> (r: Result<
        (),
        ForumError,
    >)
        requires
            forall|i: int| 0 <= i < path@.len() ==> self.cats().contains_key(#[trigger] path@[i]),
        ensures
            r == (if !self.path_is_mutable(path@) {
                Err(ForumError::AncestorImmutable)
            } else if path@.len() > self.max_category_depth {
                Err(ForumError::MaxDepthExceeded)
            } else {
                Ok::<(), ForumError>(())
            }),
    {
        self.ensure_can_mutate_in_path_leaf(path)?;
        // A path holds one entry per level, so its length is the depth of a
        // new category below its first entry.
        if path.len() > self.max_category_depth as usize {
            return Err(ForumError::MaxDepthExceeded);
        }
        Ok(())
    }

    proof fn lemma_category_added(pre: Forum, post: Forum, parent: Option<CategoryId>, cat: Category)
        requires
            pre.wf(),
            pre.next_category_id < u64::MAX,
            parent matches Some(p) ==> {
                &&& pre.cats().contains_key(p)
                &&& pre.depth(p) + 1 <= pre.max_category_depth
                &&& pre.cats()[p].num_direct_subcategories < u32::MAX
            },
            cat.id == pre.next_category_id,
            cat.num_direct_subcategories == 0,
            cat.num_direct_unmoderated_threads == 0,
            cat.num_direct_moderated_threads == 0,
            cat.position_in_parent_category == pre.child_position(parent),
            post.cats() == pre.cats_after_create(parent, cat),
            post.category_depth@ == pre.category_depth@.insert(cat.id, pre.depth_under(parent)),
            post.next_category_id == pre.next_category_id + 1,
            post.threads() == pre.threads(),
            post.posts() == pre.posts(),
            post.next_thread_id == pre.next_thread_id,
            post.next_post_id == pre.next_post_id,
            post.max_category_depth == pre.max_category_depth,
        ensures
            post.wf(),
            pre.evolves_to(post),
    {
        let n = cat.id;
        assert(!pre.cats().contains_key(n)) by {
            if pre.cats().contains_key(n) {
                assert(pre.category_wf(n));
            }
        }
        assert forall|k: CategoryId| #[trigger]
            pre.cats().contains_key(k) implies parent_of(pre.cats()[k]) != Some(n) by {
            assert(pre.category_wf(k));
        }
        assert forall|c: CategoryId| #[trigger] post.cats().contains_key(c) implies post.category_wf(
            c,
        ) by {
            let old_subs = subcategories_of(pre.cats(), c);
            let new_subs = subcategories_of(post.cats(), c);
            assert forall|k: CategoryId| #[trigger]
                old_subs.contains(k) implies child_nr(post.cats())(k) == child_nr(pre.cats())(k) by {}
            if c == n {
                assert(new_subs =~= Set::<CategoryId>::empty());
                assert(threads_in(post.threads(), c) =~= Set::<u64>::empty()) by {
                    assert forall|t: u64| #[trigger]
                        post.threads().contains_key(t) implies post.threads()[t].category_id
                        != n by {
                        assert(pre.thread_wf(t));
                    }
                }
                assert(unmoderated_threads_in(post.threads(), c) =~= Set::<u64>::empty());
                assert(moderated_threads_in(post.threads(), c) =~= Set::<u64>::empty());
            } else {
                assert(pre.category_wf(c));
                if parent == Some(c) {
                    assert(new_subs =~= old_subs.insert(n));
                    lemma_numbered_insert(
                        old_subs,
                        child_nr(pre.cats()),
                        pre.cats()[c].num_direct_subcategories as int,
                        n,
                        child_nr(post.cats()),
                    );
                } else {
                    assert(new_subs =~= old_subs);
                    lemma_numbered_same(
                        old_subs,
                        child_nr(pre.cats()),
                        pre.cats()[c].num_direct_subcategories as int,
                        new_subs,
                        child_nr(post.cats()),
                    );
                }
            }
        }
        assert forall|t: u64| #[trigger] post.threads().contains_key(t) implies post.thread_wf(t) by {
            assert(pre.thread_wf(t));
        }
        assert forall|p: u64| #[trigger] post.posts().contains_key(p) implies post.post_wf(p) by {
            assert(pre.post_wf(p));
        }
        assert forall|c: CategoryId| #[trigger] pre.cats().contains_key(c) implies post.cats().contains_key(c)
            && Self::category_kept(pre.cats()[c], post.cats()[c]) by {}
    }

    /// Creates a category, as a root or under `parent`. Only the sudo may do
    /// so; on any refusal nothing changes.
    pub fn create_category(
        &mut self,
        who: AccountId,
        parent: Option<CategoryId>,
        title: Vec<u8>,
        description: Vec<u8>,
        now: BlockchainTimestamp,
    ) -> (r: Result<Event, ForumError>)
        requires
            old(self).wf(),
            old(self).next_category_id < u64::MAX,
            parent matches Some(p) ==> (old(self).cats().contains_key(p) ==> old(
                self,
            ).cats()[p].num_direct_subcategories < u32::MAX),
        ensures
            final(self).wf(),
            old(self).evolves_to(*final(self)),
            match old(self).create_category_error(
                who,
                parent,
                title@.len() as int,
                description@.len() as int,
            ) {
                Some(e) => r == Err::<Event, ForumError>(e) && *final(self) == *old(self),
                None => {
                    let id = old(self).next_category_id;
                    let cat = new_category(
                        id,
                        title,
                        description,
                        now,
                        old(self).child_position(parent),
                        who,
                    );
                    &&& r == Ok::<Event, ForumError>(Event::CategoryCreated(id))
                    &&& final(self).cats() == old(self).cats_after_create(parent, cat)
                    &&& final(self).next_category_id == id + 1
                    &&& final(self).thread_by_id == old(self).thread_by_id
                    &&& final(self).post_by_id == old(self).post_by_id
                    &&& final(self).next_thread_id == old(self).next_thread_id
                    &&& final(self).next_post_id == old(self).next_post_id
                    &&& final(self).same_settings(*old(self))
                },
            },
    {
        self.ensure_is_forum_sudo(who)?;
        self.ensure_category_title_is_valid(&title)?;
        self.ensure_category_description_is_valid(&description)?;
        let mut position: Option<ChildPositionInParentCategory> = None;
        if let Some(p) = parent {
            let path = self.ensure_valid_category_and_build_category_tree_path(p)?;
            proof {
                self.lemma_tree_path(p);
            }
            self.ensure_can_add_subcategory_path_leaf(&path)?;
            let mut parent_category = self.category_by_id.remove(&p).unwrap();
            parent_category.num_direct_subcategories = parent_category.num_direct_subcategories + 1;
            position =
            Some(
                ChildPositionInParentCategory {
                    parent_id: p,
                    child_nr_in_parent_category: parent_category.num_direct_subcategories,
                },
            );
            self.category_by_id.insert(p, parent_category);
        }
        let id: CategoryId = self.next_category_id;
        let category = Category {
            id,
            title,
            description,
            created_at: now,
            deleted: false,
            archived: false,
            num_direct_subcategories: 0,
            num_direct_unmoderated_threads: 0,
            num_direct_moderated_threads: 0,
            position_in_parent_category: position,
            moderator_id: who,
        };
        self.category_by_id.insert(id, category);
        self.next_category_id = id + 1;
        self.category_depth = Ghost(
            self.category_depth@.insert(id, old(self).depth_under(parent)),
        );
        proof {
            assert(self.cats() =~= old(self).cats_after_create(parent, category));
            Self::lemma_category_added(*old(self), *self, parent, category);
        }
        Ok(Event::CategoryCreated(id))
    }
}

/// Whether `cat` is deleted after an update with `new_deletion_status`.
pub open spec fn deleted_after(cat: Category, new_deletion_status: Option<bool>) -> bool {
    match new_deletion_status {
        Some(d) => d,
        None => cat.deleted,
    }
}

/// A category after an update that sets the flags given and keeps the others.
pub open spec fn updated_category(
    cat: Category,
    new_archival_status: Option<bool>,
    new_deletion_status: Option<bool>,
) -> Category {
    Category {
        archived: match new_archival_status {
            Some(a) => a,
            None => cat.archived,
        },
        deleted: match new_deletion_status {
            Some(d) => d,
            None => cat.deleted,
        },
        ..cat
    }
}

impl Forum {
    /// Why `update_category` refuses, if it does: the caller is not the
    /// sudo, no flag is given, the category is missing, an ancestor is
    /// locked, or the category stays deleted while it already was or while
    /// the call unarchives it. A deleted category can thus only be changed
    /// by a call that undeletes it.
    pub open spec fn update_category_error(
        self,
        who: AccountId,
        c: CategoryId,
        new_archival_status: Option<bool>,
        new_deletion_status: Option<bool>,
    ) -> Option<ForumError> {
        if self.sudo_error(who) is Some {
            self.sudo_error(who)
        } else if new_archival_status is None && new_deletion_status is None {
            Some(ForumError::NothingToUpdate)
        } else if !self.cats().contains_key(c) {
            Some(ForumError::CategoryNotFound)
        } else if !self.ancestors_mutable(c) {
            Some(ForumError::AncestorImmutable)
        } else if deleted_after(self.cats()[c], new_deletion_status) && (self.cats()[c].deleted
            || new_archival_status == Some(false)) {
            Some(ForumError::CannotUnarchiveWhileDeleted)
        } else {
            None
        }
    }

    proof fn lemma_category_flags_set(pre: Forum, post: Forum, c: CategoryId)
        requires
            pre.wf(),
            pre.cats().contains_key(c),
            post.cats() == pre.cats().insert(
                c,
                Category {
                    archived: post.cats()[c].archived,
                    deleted: post.cats()[c].deleted,
                    ..pre.cats()[c]
                },
            ),
            post.category_depth == pre.category_depth,
            post.next_category_id == pre.next_category_id,
            post.threads() == pre.threads(),
            post.posts() == pre.posts(),
            post.next_thread_id == pre.next_thread_id,
            post.next_post_id == pre.next_post_id,
            post.max_category_depth == pre.max_category_depth,
        ensures
            post.wf(),
            pre.evolves_to(post),
    {
        assert forall|k: CategoryId| #[trigger] post.cats().contains_key(k) implies post.category_wf(
            k,
        ) by {
            assert(pre.category_wf(k));
            let old_subs = subcategories_of(pre.cats(), k);
            assert(subcategories_of(post.cats(), k) =~= old_subs);
            lemma_numbered_same(
                old_subs,
                child_nr(pre.cats()),
                pre.cats()[k].num_direct_subcategories as int,
                subcategories_of(post.cats(), k),
                child_nr(post.cats()),
            );
        }
        assert forall|t: u64| #[trigger] post.threads().contains_key(t) implies post.thread_wf(t) by {
            assert(pre.thread_wf(t));
        }
        assert forall|p: u64| #[trigger] post.posts().contains_key(p) implies post.post_wf(p) by {
            assert(pre.post_wf(p));
        }
    }

    /// Sets the archival and deletion flags given. Only the sudo may do so,
    /// and only while no ancestor is locked; on any refusal nothing changes.
    pub fn update_category(
        &mut self,
        who: AccountId,
        category_id: CategoryId,
        new_archival_status: Option<bool>,
        new_deletion_status: Option<bool>,
    ) -> (r: Result<Event, ForumError>)
        requires
            old(self).wf(),
        ensures
            final(self).wf(),
            old(self).evolves_to(*final(self)),
            match old(self).update_category_error(
                who,
                category_id,
                new_archival_status,
                new_deletion_status,
            ) {
                Some(e) => r == Err::<Event, ForumError>(e) && *final(self) == *old(self),
                None => {
                    &&& r == Ok::<Event, ForumError>(
                        Event::CategoryUpdated(
                            category_id,
                            new_archival_status,
                            new_deletion_status,
                        ),
                    )
                    &&& final(self).cats() == old(self).cats().insert(
                        category_id,
                        updated_category(
                            old(self).cats()[category_id],
                            new_archival_status,
                            new_deletion_status,
                        ),
                    )
                    &&& final(self).next_category_id == old(self).next_category_id
                    &&& final(self).thread_by_id == old(self).thread_by_id
                    &&& final(self).post_by_id == old(self).post_by_id
                    &&& final(self).next_thread_id == old(self).next_thread_id
                    &&& final(self).next_post_id == old(self).next_post_id
                    &&& final(self).same_settings(*old(self))
                },
            },
    {
        self.ensure_is_forum_sudo(who)?;
        if new_archival_status.is_none() && new_deletion_status.is_none() {
            return Err(ForumError::NothingToUpdate);
        }
        if !self.category_by_id.contains_key(&category_id) {
            return Err(ForumError::CategoryNotFound);
        }
        let category = self.category_by_id.get(&category_id).unwrap();
        let position = category.position_in_parent_category;
        let deleted = category.deleted;
        if let Some(pos) = position {
            proof {
                assert(self.category_wf(category_id));
            }
            self.ensure_catgory_is_mutable(pos.parent_id)?;
        }
        // A category that stays deleted can be neither unarchived nor
        // changed otherwise while it is deleted.
        let stays_deleted = match new_deletion_status {
            Some(d) => d,
            None => deleted,
        };
        let unarchives = match new_archival_status {
            Some(a) => !a,
            None => false,
        };
        if stays_deleted && (deleted || unarchives) {
            return Err(ForumError::CannotUnarchiveWhileDeleted);
        }
        let mut category = self.category_by_id.remove(&category_id).unwrap();
        if let Some(archived) = new_archival_status {
            category.archived = archived;
        }
        if let Some(deleted) = new_deletion_status {
            category.deleted = deleted;
        }
        self.category_by_id.insert(category_id, category);
        proof {
            assert(self.cats() =~= old(self).cats().insert(
                category_id,
                updated_category(
                    old(self).cats()[category_id],
                    new_archival_status,
                    new_deletion_status,
                ),
            ));
            Self::lemma_category_flags_set(*old(self), *self, category_id);
        }
        Ok(Event::CategoryUpdated(category_id, new_archival_status, new_deletion_status))
    }
}

} // verus!
