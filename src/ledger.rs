//! Threads and posts: creating them, editing posts, and moderating both.
use crate::error::ForumError;
use crate::forum::{
    child_nr, error_of, moderated_posts_in, moderated_threads_in, post_nr, posts_in,
    subcategories_of, thread_nr, threads_in, unmoderated_posts_in, unmoderated_threads_in, Event,
    Forum,
};
use crate::numbering::{lemma_numbered_insert, lemma_numbered_same};
use crate::records::{
    BlockchainTimestamp, Category, ForumUserRegistry, ModerationAction, Post, PostTextChange, Thread,
};
use crate::{AccountId, CategoryId, PostId, ThreadId};
use vstd::prelude::*;

verus! {

broadcast use vstd::std_specs::btree::group_btree_axioms, vstd::laws_cmp::group_laws_cmp;

/// A thread as it is created, before its first post.
pub open spec fn new_thread(
    id: ThreadId,
    title: Vec<u8>,
    category_id: CategoryId,
    nr_in_category: u32,
    now: BlockchainTimestamp,
    author_id: AccountId,
) -> Thread {
    Thread {
        id,
        title,
        category_id,
        nr_in_category,
        moderation: None,
        num_unmoderated_posts: 0,
        num_moderated_posts: 0,
        created_at: now,
        author_id,
    }
}

/// `post` is a post as it is added: unmoderated and never edited.
pub open spec fn is_new_post(
    post: Post,
    id: PostId,
    thread_id: ThreadId,
    nr_in_thread: u32,
    text: Vec<u8>,
    now: BlockchainTimestamp,
    author_id: AccountId,
) -> bool {
    &&& post.id == id
    &&& post.thread_id == thread_id
    &&& post.nr_in_thread == nr_in_thread
    &&& post.current_text == text
    &&& post.moderation is None
    &&& post.text_change_history@.len() == 0
    &&& post.created_at == now
    &&& post.author_id == author_id
}

impl Forum {
    proof fn lemma_thread_added(pre: Forum, post: Forum, th: Thread)
        requires
            pre.wf(),
            pre.cats().contains_key(th.category_id),
            pre.cats()[th.category_id].threads_ever_created() < u32::MAX,
            th.id == pre.next_thread_id,
            pre.next_thread_id < u64::MAX,
            th.nr_in_category == pre.cats()[th.category_id].threads_ever_created() + 1,
            th.moderation is None,
            th.num_unmoderated_posts == 0,
            th.num_moderated_posts == 0,
            post.threads() == pre.threads().insert(th.id, th),
            post.cats() == pre.cats().insert(
                th.category_id,
                Category {
                    num_direct_unmoderated_threads: (pre.cats()[th.category_id].num_direct_unmoderated_threads
                        + 1) as u32,
                    ..pre.cats()[th.category_id]
                },
            ),
            post.category_depth == pre.category_depth,
            post.next_category_id == pre.next_category_id,
            post.next_thread_id == pre.next_thread_id + 1,
            post.posts() == pre.posts(),
            post.next_post_id == pre.next_post_id,
            post.max_category_depth == pre.max_category_depth,
        ensures
            post.wf(),
            pre.evolves_to(post),
    {
        let n = th.id;
        let c = th.category_id;
        assert(!pre.threads().contains_key(n)) by {
            if pre.threads().contains_key(n) {
                assert(pre.thread_wf(n));
            }
        }
        assert forall|k: CategoryId| #[trigger] post.cats().contains_key(k) implies post.category_wf(
            k,
        ) by {
            assert(pre.category_wf(k));
            let old_subs = subcategories_of(pre.cats(), k);
            assert(subcategories_of(post.cats(), k) =~= old_subs);
            lemma_numbered_same(
                old_subs,
                child_nr(pre.cats()),
                pre.cats()[k].num_direct_subcategories as int,
                subcategories_of(post.cats(), k),
                child_nr(post.cats()),
            );
            let old_ts = threads_in(pre.threads(), k);
            assert forall|t: u64| #[trigger]
                old_ts.contains(t) implies thread_nr(post.threads())(t) == thread_nr(pre.threads())(
                t,
            ) by {}
            if k == c {
                assert(threads_in(post.threads(), k) =~= old_ts.insert(n));
                assert(unmoderated_threads_in(post.threads(), k) =~= unmoderated_threads_in(
                    pre.threads(),
                    k,
                ).insert(n));
                assert(moderated_threads_in(post.threads(), k) =~= moderated_threads_in(
                    pre.threads(),
                    k,
                ));
                lemma_numbered_insert(
                    old_ts,
                    thread_nr(pre.threads()),
                    pre.cats()[k].threads_ever_created(),
                    n,
                    thread_nr(post.threads()),
                );
            } else {
                assert(threads_in(post.threads(), k) =~= old_ts);
                assert(unmoderated_threads_in(post.threads(), k) =~= unmoderated_threads_in(
                    pre.threads(),
                    k,
                ));
                assert(moderated_threads_in(post.threads(), k) =~= moderated_threads_in(
                    pre.threads(),
                    k,
                ));
                lemma_numbered_same(
                    old_ts,
                    thread_nr(pre.threads()),
                    pre.cats()[k].threads_ever_created(),
                    threads_in(post.threads(), k),
                    thread_nr(post.threads()),
                );
            }
        }
        assert forall|t: u64| #[trigger] post.threads().contains_key(t) implies post.thread_wf(t) by {
            if t == n {
                assert(posts_in(post.posts(), n) =~= Set::<u64>::empty()) by {
                    assert forall|p: u64| #[trigger]
                        post.posts().contains_key(p) implies post.posts()[p].thread_id != n by {
                        assert(pre.post_wf(p));
                    }
                }
                assert(unmoderated_posts_in(post.posts(), n) =~= Set::<u64>::empty());
                assert(moderated_posts_in(post.posts(), n) =~= Set::<u64>::empty());
            } else {
                assert(pre.thread_wf(t));
            }
        }
        assert forall|p: u64| #[trigger] post.posts().contains_key(p) implies post.post_wf(p) by {
            assert(pre.post_wf(p));
        }
    }

    /// Stores a new thread in category `category_id` and counts it there.
    fn add_new_thread(
        &mut self,
        category_id: CategoryId,
        title: Vec<u8>,
        author_id: AccountId,
        now: BlockchainTimestamp,
    ) -> (id: ThreadId)
        requires
            old(self).wf(),
            old(self).cats().contains_key(category_id),
            old(self).cats()[category_id].threads_ever_created() < u32::MAX,
            old(self).next_thread_id < u64::MAX,
        ensures
            final(self).wf(),
            old(self).evolves_to(*final(self)),
            id == old(self).next_thread_id,
            final(self).threads() == old(self).threads().insert(
                id,
                new_thread(
                    id,
                    title,
                    category_id,
                    (old(self).cats()[category_id].threads_ever_created() + 1) as u32,
                    now,
                    author_id,
                ),
            ),
            final(self).cats() == old(self).cats().insert(
                category_id,
                Category {
                    num_direct_unmoderated_threads: (old(
                        self,
                    ).cats()[category_id].num_direct_unmoderated_threads + 1) as u32,
                    ..old(self).cats()[category_id]
                },
            ),
            final(self).category_depth == old(self).category_depth,
            final(self).next_category_id == old(self).next_category_id,
            final(self).next_thread_id == id + 1,
            final(self).post_by_id == old(self).post_by_id,
            final(self).next_post_id == old(self).next_post_id,
            final(self).same_settings(*old(self)),
    {
        let mut category = self.category_by_id.remove(&category_id).unwrap();
        proof {
            assert(old(self).category_wf(category_id));
        }
        let nr_in_category: u32 = category.num_threads_created() + 1;
        let id: ThreadId = self.next_thread_id;
        let thread = Thread {
            id,
            title,
            category_id,
            nr_in_category,
            moderation: None,
            num_unmoderated_posts: 0,
            num_moderated_posts: 0,
            created_at: now,
            author_id,
        };
        self.thread_by_id.insert(id, thread);
        self.next_thread_id = id + 1;
        category.num_direct_unmoderated_threads = category.num_direct_unmoderated_threads + 1;
        self.category_by_id.insert(category_id, category);
        proof {
            assert(self.cats() =~= old(self).cats().insert(
                category_id,
                Category {
                    num_direct_unmoderated_threads: (old(
                        self,
                    ).cats()[category_id].num_direct_unmoderated_threads + 1) as u32,
                    ..old(self).cats()[category_id]
                },
            ));
            Self::lemma_thread_added(*old(self), *self, thread);
        }
        id
    }

    proof fn lemma_post_added(pre: Forum, post: Forum, po: Post)
        requires
            pre.wf(),
            pre.threads().contains_key(po.thread_id),
            pre.threads()[po.thread_id].posts_ever_created() < u32::MAX,
            po.id == pre.next_post_id,
            pre.next_post_id < u64::MAX,
            po.nr_in_thread == pre.threads()[po.thread_id].posts_ever_created() + 1,
            po.moderation is None,
            po.text_change_history@.len() == 0,
            post.posts() == pre.posts().insert(po.id, po),
            post.threads() == pre.threads().insert(
                po.thread_id,
                Thread {
                    num_unmoderated_posts: (pre.threads()[po.thread_id].num_unmoderated_posts
                        + 1) as u32,
                    ..pre.threads()[po.thread_id]
                },
            ),
            post.cats() == pre.cats(),
            post.category_depth == pre.category_depth,
            post.next_category_id == pre.next_category_id,
            post.next_thread_id == pre.next_thread_id,
            post.next_post_id == pre.next_post_id + 1,
            post.max_category_depth == pre.max_category_depth,
        ensures
            post.wf(),
            pre.evolves_to(post),
    {
        let n = po.id;
        let t = po.thread_id;
        assert(!pre.posts().contains_key(n)) by {
            if pre.posts().contains_key(n) {
                assert(pre.post_wf(n));
            }
        }
        assert forall|k: CategoryId| #[trigger] post.cats().contains_key(k) implies post.category_wf(
            k,
        ) by {
            assert(pre.category_wf(k));
            let old_ts = threads_in(pre.threads(), k);
            assert(threads_in(post.threads(), k) =~= old_ts);
            assert(unmoderated_threads_in(post.threads(), k) =~= unmoderated_threads_in(
                pre.threads(),
                k,
            ));
            assert(moderated_threads_in(post.threads(), k) =~= moderated_threads_in(
                pre.threads(),
                k,
            ));
            assert forall|x: u64| #[trigger]
                old_ts.contains(x) implies thread_nr(post.threads())(x) == thread_nr(pre.threads())(
                x,
            ) by {}
            lemma_numbered_same(
                old_ts,
                thread_nr(pre.threads()),
                pre.cats()[k].threads_ever_created(),
                threads_in(post.threads(), k),
                thread_nr(post.threads()),
            );
        }
        assert forall|k: u64| #[trigger] post.threads().contains_key(k) implies post.thread_wf(k) by {
            assert(pre.thread_wf(k));
            let old_ps = posts_in(pre.posts(), k);
            assert forall|x: u64| #[trigger]
                old_ps.contains(x) implies post_nr(post.posts())(x) == post_nr(pre.posts())(x) by {}
            if k == t {
                assert(posts_in(post.posts(), k) =~= old_ps.insert(n));
                assert(unmoderated_posts_in(post.posts(), k) =~= unmoderated_posts_in(
                    pre.posts(),
                    k,
                ).insert(n));
                assert(moderated_posts_in(post.posts(), k) =~= moderated_posts_in(pre.posts(), k));
                lemma_numbered_insert(
                    old_ps,
                    post_nr(pre.posts()),
                    pre.threads()[k].posts_ever_created(),
                    n,
                    post_nr(post.posts()),
                );
            } else {
                assert(posts_in(post.posts(), k) =~= old_ps);
                assert(unmoderated_posts_in(post.posts(), k) =~= unmoderated_posts_in(
                    pre.posts(),
                    k,
                ));
                assert(moderated_posts_in(post.posts(), k) =~= moderated_posts_in(pre.posts(), k));
                lemma_numbered_same(
                    old_ps,
                    post_nr(pre.posts()),
                    pre.threads()[k].posts_ever_created(),
                    posts_in(post.posts(), k),
                    post_nr(post.posts()),
                );
            }
        }
        assert forall|p: u64| #[trigger] post.posts().contains_key(p) implies post.post_wf(p) by {
            if p != n {
                assert(pre.post_wf(p));
            }
        }
    }

    /// Stores a new post in thread `thread_id` and counts it there.
    fn add_new_post(
        &mut self,
        thread_id: ThreadId,
        text: Vec<u8>,
        author_id: AccountId,
        now: BlockchainTimestamp,
    ) -> (id: PostId)
        requires
            old(self).wf(),
            old(self).threads().contains_key(thread_id),
            old(self).threads()[thread_id].posts_ever_created() < u32::MAX,
            old(self).next_post_id < u64::MAX,
        ensures
            final(self).wf(),
            old(self).evolves_to(*final(self)),
            id == old(self).next_post_id,
            final(self).posts() == old(self).posts().insert(id, final(self).posts()[id]),
            is_new_post(
                final(self).posts()[id],
                id,
                thread_id,
                (old(self).threads()[thread_id].posts_ever_created() + 1) as u32,
                text,
                now,
                author_id,
            ),
            final(self).threads() == old(self).threads().insert(
                thread_id,
                Thread {
                    num_unmoderated_posts: (old(self).threads()[thread_id].num_unmoderated_posts
                        + 1) as u32,
                    ..old(self).threads()[thread_id]
                },
            ),
            final(self).category_by_id == old(self).category_by_id,
            final(self).category_depth == old(self).category_depth,
            final(self).next_category_id == old(self).next_category_id,
            final(self).next_thread_id == old(self).next_thread_id,
            final(self).next_post_id == id + 1,
            final(self).same_settings(*old(self)),
    {
        let mut thread = self.thread_by_id.remove(&thread_id).unwrap();
        proof {
            assert(old(self).thread_wf(thread_id));
        }
        let nr_in_thread: u32 = thread.num_posts_ever_created() + 1;
        let id: PostId = self.next_post_id;
        let post = Post {
            id,
            thread_id,
            nr_in_thread,
            current_text: text,
            moderation: None,
            text_change_history: Vec::new(),
            created_at: now,
            author_id,
        };
        self.post_by_id.insert(id, post);
        self.next_post_id = id + 1;
        thread.num_unmoderated_posts = thread.num_unmoderated_posts + 1;
        self.thread_by_id.insert(thread_id, thread);
        proof {
            assert(self.threads() =~= old(self).threads().insert(
                thread_id,
                Thread {
                    num_unmoderated_posts: (old(self).threads()[thread_id].num_unmoderated_posts
                        + 1) as u32,
                    ..old(self).threads()[thread_id]
                },
            ));
            Self::lemma_post_added(*old(self), *self, post);
        }
        id
    }
}

impl Forum {
    /// The thread with identifier `thread_id`, if there is one.
    pub fn ensure_thread_exists(&self, thread_id: ThreadId) -> (r: Result<&Thread, ForumError>)
        ensures
            match r {
                Ok(thread) => self.threads().contains_key(thread_id) && *thread == self.threads()[thread_id],
                Err(e) => !self.threads().contains_key(thread_id) && e == ForumError::ThreadNotFound,
            },
    {
        match self.thread_by_id.get(&thread_id) {
            Some(thread) => Ok(thread),
            None => Err(ForumError::ThreadNotFound),
        }
    }

    /// The thread with identifier `thread_id`, if it exists, is not
    /// moderated, and lies in a category that is not locked.
    pub fn ensure_thread_is_mutable(&self, thread_id: ThreadId) -> (r: Result<&Thread, ForumError>)
        requires
            self.wf(),
        ensures
            match self.thread_error(thread_id) {
                Some(e) => r == Err::<&Thread, ForumError>(e),
                None => r matches Ok(thread) && *thread == self.threads()[thread_id],
            },
    {
        let thread = self.ensure_thread_exists(thread_id)?;
        if thread.moderation.is_some() {
            return Err(ForumError::ThreadModerated);
        }
        proof {
            assert(self.thread_wf(thread_id));
        }
        self.ensure_catgory_is_mutable(thread.category_id)?;
        Ok(thread)
    }

    /// The post with identifier `post_id`, if there is one.
    pub fn ensure_post_exists(&self, post_id: PostId) -> (r: Result<&Post, ForumError>)
        ensures
            match r {
                Ok(post) => self.posts().contains_key(post_id) && *post == self.posts()[post_id],
                Err(e) => !self.posts().contains_key(post_id) && e == ForumError::PostNotFound,
            },
    {
        match self.post_by_id.get(&post_id) {
            Some(post) => Ok(post),
            None => Err(ForumError::PostNotFound),
        }
    }

    /// The post with identifier `post_id`, if it exists, is not moderated,
    /// and lies in a thread that can take changes.
    pub fn ensure_post_is_mutable(&self, post_id: PostId) -> (r: Result<&Post, ForumError>)
        requires
            self.wf(),
        ensures
            match self.post_error(post_id, ForumError::PostModerated) {
                Some(e) => r == Err::<&Post, ForumError>(e),
                None => r matches Ok(post) && *post == self.posts()[post_id],
            },
    {
        let post = self.ensure_post_exists(post_id)?;
        if post.moderation.is_some() {
            return Err(ForumError::PostModerated);
        }
        self.ensure_thread_is_mutable(post.thread_id)?;
        Ok(post)
    }

    /// Why `create_thread` refuses, if it does: the caller is not a member,
    /// the category is missing or locked, or the title or the text of the
    /// first post has a bad length.
    pub open spec fn create_thread_error(
        self,
        is_member: bool,
        category_id: CategoryId,
        title_len: int,
        text_len: int,
    ) -> Option<ForumError> {
        let title_error = error_of(
            self.thread_title_constraint.validation(
                title_len,
                ForumError::ThreadTitleTooShort,
                ForumError::ThreadTitleTooLong,
            ),
        );
        let text_error = error_of(
            self.post_text_constraint.validation(
                text_len,
                ForumError::PostTextTooShort,
                ForumError::PostTextTooLong,
            ),
        );
        if !is_member {
            Some(ForumError::NotAMember)
        } else if !self.cats().contains_key(category_id) {
            Some(ForumError::CategoryNotFound)
        } else if !self.can_mutate_in(category_id) {
            Some(ForumError::AncestorImmutable)
        } else if title_error is Some {
            title_error
        } else {
            text_error
        }
    }

    /// Creates a thread in a category together with its first post. Only a
    /// member may do so; on any refusal nothing changes.
    pub fn create_thread<R: ForumUserRegistry>(
        &mut self,
        registry: &R,
        who: AccountId,
        category_id: CategoryId,
        title: Vec<u8>,
        text: Vec<u8>,
        now: BlockchainTimestamp,
    ) -> (r: Result<Event, ForumError>)
        requires
            old(self).wf(),
            old(self).next_thread_id < u64::MAX,
            old(self).next_post_id < u64::MAX,
            old(self).cats().contains_key(category_id) ==> old(
                self,
            ).cats()[category_id].threads_ever_created() < u32::MAX,
        ensures
            final(self).wf(),
            old(self).evolves_to(*final(self)),
            match old(self).create_thread_error(
                registry.is_registered(who),
                category_id,
                title@.len() as int,
                text@.len() as int,
            ) {
                Some(e) => r == Err::<Event, ForumError>(e) && *final(self) == *old(self),
                None => {
                    let thread_id = old(self).next_thread_id;
                    let post_id = old(self).next_post_id;
                    let cat = old(self).cats()[category_id];
                    &&& r == Ok::<Event, ForumError>(Event::ThreadCreated(thread_id))
                    &&& final(self).threads() == old(self).threads().insert(
                        thread_id,
                        Thread {
                            num_unmoderated_posts: 1,
                            ..new_thread(
                                thread_id,
                                title,
                                category_id,
                                (cat.threads_ever_created() + 1) as u32,
                                now,
                                who,
                            )
                        },
                    )
                    &&& final(self).posts() == old(self).posts().insert(
                        post_id,
                        final(self).posts()[post_id],
                    )
                    &&& is_new_post(final(self).posts()[post_id], post_id, thread_id, 1, text, now, who)
                    &&& final(self).cats() == old(self).cats().insert(
                        category_id,
                        Category {
                            num_direct_unmoderated_threads: (cat.num_direct_unmoderated_threads
                                + 1) as u32,
                            ..cat
                        },
                    )
                    &&& final(self).next_category_id == old(self).next_category_id
                    &&& final(self).next_thread_id == thread_id + 1
                    &&& final(self).next_post_id == post_id + 1
                    &&& final(self).same_settings(*old(self))
                },
            },
    {
        Self::ensure_is_forum_member(registry, who)?;
        let path = self.ensure_valid_category_and_build_category_tree_path(category_id)?;
        self.ensure_can_mutate_in_path_leaf(&path)?;
        self.ensure_thread_title_is_valid(&title)?;
        self.ensure_post_text_is_valid(&text)?;
        let thread_id: ThreadId = self.add_new_thread(category_id, title, who, now);
        let ghost with_thread: Forum = *self;
        self.add_new_post(thread_id, text, who, now);
        proof {
            Self::lemma_evolves_to_transitive(*old(self), with_thread, *self);
            assert(self.threads() =~= old(self).threads().insert(
                thread_id,
                Thread {
                    num_unmoderated_posts: 1,
                    ..new_thread(
                        thread_id,
                        title,
                        category_id,
                        (old(self).cats()[category_id].threads_ever_created() + 1) as u32,
                        now,
                        who,
                    )
                },
            ));
        }
        Ok(Event::ThreadCreated(thread_id))
    }

    /// Why `add_post` refuses, if it does: the caller is not a member, the
    /// thread cannot take changes, or the text has a bad length.
    pub open spec fn add_post_error(self, is_member: bool, thread_id: ThreadId, text_len: int) -> Option<
        ForumError,
    > {
        if !is_member {
            Some(ForumError::NotAMember)
        } else if self.thread_error(thread_id) is Some {
            self.thread_error(thread_id)
        } else {
            error_of(
                self.post_text_constraint.validation(
                    text_len,
                    ForumError::PostTextTooShort,
                    ForumError::PostTextTooLong,
                ),
            )
        }
    }

    /// Adds a post to a thread. Only a member may do so; on any refusal
    /// nothing changes.
    pub fn add_post<R: ForumUserRegistry>(
        &mut self,
        registry: &R,
        who: AccountId,
        thread_id: ThreadId,
        text: Vec<u8>,
        now: BlockchainTimestamp,
    ) -> (r: Result<Event, ForumError>)
        requires
            old(self).wf(),
            old(self).next_post_id < u64::MAX,
            old(self).threads().contains_key(thread_id) ==> old(
                self,
            ).threads()[thread_id].posts_ever_created() < u32::MAX,
        ensures
            final(self).wf(),
            old(self).evolves_to(*final(self)),
            match old(self).add_post_error(registry.is_registered(who), thread_id, text@.len() as int) {
                Some(e) => r == Err::<Event, ForumError>(e) && *final(self) == *old(self),
                None => {
                    let post_id = old(self).next_post_id;
                    let thread = old(self).threads()[thread_id];
                    &&& r == Ok::<Event, ForumError>(Event::PostAdded(post_id))
                    &&& final(self).posts() == old(self).posts().insert(
                        post_id,
                        final(self).posts()[post_id],
                    )
                    &&& is_new_post(
                        final(self).posts()[post_id],
                        post_id,
                        thread_id,
                        (thread.posts_ever_created() + 1) as u32,
                        text,
                        now,
                        who,
                    )
                    &&& final(self).threads() == old(self).threads().insert(
                        thread_id,
                        Thread {
                            num_unmoderated_posts: (thread.num_unmoderated_posts + 1) as u32,
                            ..thread
                        },
                    )
                    &&& final(self).category_by_id == old(self).category_by_id
                    &&& final(self).next_category_id == old(self).next_category_id
                    &&& final(self).next_thread_id == old(self).next_thread_id
                    &&& final(self).next_post_id == post_id + 1
                    &&& final(self).same_settings(*old(self))
                },
            },
    {
        Self::ensure_is_forum_member(registry, who)?;
        self.ensure_thread_is_mutable(thread_id)?;
        self.ensure_post_text_is_valid(&text)?;
        let post_id: PostId = self.add_new_post(thread_id, text, who, now);
        Ok(Event::PostAdded(post_id))
    }
}

/// `b` is post `a` after its text was replaced by `new_text` at `now`: the
/// replaced text goes to the end of the history, the rest stays.
pub open spec fn post_edited(a: Post, b: Post, new_text: Vec<u8>, now: BlockchainTimestamp) -> bool {
    &&& b.current_text == new_text
    &&& b.text_change_history@ == a.text_change_history@.push(
        PostTextChange { expired_at: now, text: a.current_text },
    )
    &&& b.id == a.id
    &&& b.thread_id == a.thread_id
    &&& b.nr_in_thread == a.nr_in_thread
    &&& b.moderation == a.moderation
    &&& b.created_at == a.created_at
    &&& b.author_id == a.author_id
}

impl Forum {
    #[verifier::spinoff_prover]
    #[verifier::rlimit(40)]
    proof fn lemma_post_replaced(pre: Forum, post: Forum, p: PostId)
        requires
            pre.wf(),
            pre.posts().contains_key(p),
            post.posts() == pre.posts().insert(p, post.posts()[p]),
            Self::post_kept(pre.posts()[p], post.posts()[p]),
            post.posts()[p].moderation == pre.posts()[p].moderation,
            post.cats() == pre.cats(),
            post.threads() == pre.threads(),
            post.category_depth == pre.category_depth,
            post.next_category_id == pre.next_category_id,
            post.next_thread_id == pre.next_thread_id,
            post.next_post_id == pre.next_post_id,
            post.max_category_depth == pre.max_category_depth,
        ensures
            post.wf(),
            pre.evolves_to(post),
    {
        assert forall|k: CategoryId| #[trigger] post.cats().contains_key(k) implies post.category_wf(
            k,
        ) by {
            assert(pre.category_wf(k));
        }
        assert forall|k: u64| #[trigger] post.threads().contains_key(k) implies post.thread_wf(k) by {
            assert(pre.thread_wf(k));
            let old_ps = posts_in(pre.posts(), k);
            assert(posts_in(post.posts(), k) =~= old_ps);
            assert(unmoderated_posts_in(post.posts(), k) =~= unmoderated_posts_in(pre.posts(), k));
            assert(moderated_posts_in(post.posts(), k) =~= moderated_posts_in(pre.posts(), k));
            assert forall|x: u64| #[trigger]
                old_ps.contains(x) implies post_nr(post.posts())(x) == post_nr(pre.posts())(x) by {}
            lemma_numbered_same(
                old_ps,
                post_nr(pre.posts()),
                pre.threads()[k].posts_ever_created(),
                posts_in(post.posts(), k),
                post_nr(post.posts()),
            );
        }
        assert forall|x: u64| #[trigger] post.posts().contains_key(x) implies post.post_wf(x) by {
            assert(pre.post_wf(x));
        }
    }

    /// Why `edit_post_text` refuses, if it does: the caller is not a member,
    /// the post cannot take changes, or the caller is not its author.
    pub open spec fn edit_post_text_error(self, is_member: bool, who: AccountId, post_id: PostId) -> Option<
        ForumError,
    > {
        if !is_member {
            Some(ForumError::NotAMember)
        } else if self.post_error(post_id, ForumError::PostModerated) is Some {
            self.post_error(post_id, ForumError::PostModerated)
        } else if self.posts()[post_id].author_id != who {
            Some(ForumError::NotPostAuthor)
        } else {
            None
        }
    }

    /// Replaces the text of a post, keeping the replaced text in its
    /// history. Only the author may do so; on any refusal nothing changes.
    pub fn edit_post_text<R: ForumUserRegistry>(
        &mut self,
        registry: &R,
        who: AccountId,
        post_id: PostId,
        new_text: Vec<u8>,
        now: BlockchainTimestamp,
    ) -> (r: Result<Event, ForumError>)
        requires
            old(self).wf(),
        ensures
            final(self).wf(),
            old(self).evolves_to(*final(self)),
            match old(self).edit_post_text_error(registry.is_registered(who), who, post_id) {
                Some(e) => r == Err::<Event, ForumError>(e) && *final(self) == *old(self),
                None => {
                    let edited = final(self).posts()[post_id];
                    &&& r == Ok::<Event, ForumError>(
                        Event::PostTextUpdated(post_id, edited.text_change_history@.len() as u64),
                    )
                    &&& final(self).posts() == old(self).posts().insert(post_id, edited)
                    &&& post_edited(old(self).posts()[post_id], edited, new_text, now)
                    &&& final(self).category_by_id == old(self).category_by_id
                    &&& final(self).thread_by_id == old(self).thread_by_id
                    &&& final(self).next_category_id == old(self).next_category_id
                    &&& final(self).next_thread_id == old(self).next_thread_id
                    &&& final(self).next_post_id == old(self).next_post_id
                    &&& final(self).same_settings(*old(self))
                },
            },
    {
        Self::ensure_is_forum_member(registry, who)?;
        let post = self.ensure_post_is_mutable(post_id)?;
        if post.author_id != who {
            return Err(ForumError::NotPostAuthor);
        }
        let post = self.post_by_id.remove(&post_id).unwrap();
        let Post {
            id,
            thread_id,
            nr_in_thread,
            current_text,
            moderation,
            mut text_change_history,
            created_at,
            author_id,
        } = post;
        text_change_history.push(PostTextChange { expired_at: now, text: current_text });
        let edit_count: u64 = text_change_history.len() as u64;
        let edited = Post {
            id,
            thread_id,
            nr_in_thread,
            current_text: new_text,
            moderation,
            text_change_history,
            created_at,
            author_id,
        };
        self.post_by_id.insert(post_id, edited);
        proof {
            assert(self.posts() =~= old(self).posts().insert(post_id, edited));
            let h = old(self).posts()[post_id].text_change_history@;
            assert(h =~= edited.text_change_history@.subrange(0, h.len() as int));
            Self::lemma_post_replaced(*old(self), *self, post_id);
        }
        Ok(Event::PostTextUpdated(post_id, edit_count))
    }

    proof fn lemma_thread_moderated(pre: Forum, post: Forum, t: ThreadId)
        requires
            pre.wf(),
            pre.threads().contains_key(t),
            pre.threads()[t].moderation is None,
            post.threads()[t].moderation is Some,
            post.threads() == pre.threads().insert(
                t,
                Thread { moderation: post.threads()[t].moderation, ..pre.threads()[t] },
            ),
            ({
                let c = pre.threads()[t].category_id;
                post.cats() == pre.cats().insert(
                    c,
                    Category {
                        num_direct_unmoderated_threads: (pre.cats()[c].num_direct_unmoderated_threads
                            - 1) as u32,
                        num_direct_moderated_threads: (pre.cats()[c].num_direct_moderated_threads
                            + 1) as u32,
                        ..pre.cats()[c]
                    },
                )
            }),
            post.posts() == pre.posts(),
            post.category_depth == pre.category_depth,
            post.next_category_id == pre.next_category_id,
            post.next_thread_id == pre.next_thread_id,
            post.next_post_id == pre.next_post_id,
            post.max_category_depth == pre.max_category_depth,
        ensures
            post.wf(),
            pre.evolves_to(post),
    {
        let c = pre.threads()[t].category_id;
        assert(pre.thread_wf(t));
        assert(pre.category_wf(c));
        let um = unmoderated_threads_in(pre.threads(), c);
        assert(um.contains(t));
        assert(um.remove(t).len() + 1 == um.len());
        assert forall|k: CategoryId| #[trigger] post.cats().contains_key(k) implies post.category_wf(
            k,
        ) by {
            assert(pre.category_wf(k));
            let old_subs = subcategories_of(pre.cats(), k);
            assert(subcategories_of(post.cats(), k) =~= old_subs);
            lemma_numbered_same(
                old_subs,
                child_nr(pre.cats()),
                pre.cats()[k].num_direct_subcategories as int,
                subcategories_of(post.cats(), k),
                child_nr(post.cats()),
            );
            let old_ts = threads_in(pre.threads(), k);
            assert(threads_in(post.threads(), k) =~= old_ts);
            assert forall|x: u64| #[trigger]
                old_ts.contains(x) implies thread_nr(post.threads())(x) == thread_nr(pre.threads())(
                x,
            ) by {}
            lemma_numbered_same(
                old_ts,
                thread_nr(pre.threads()),
                pre.cats()[k].threads_ever_created(),
                threads_in(post.threads(), k),
                thread_nr(post.threads()),
            );
            if k == c {
                assert(unmoderated_threads_in(post.threads(), k) =~= um.remove(t));
                assert(moderated_threads_in(post.threads(), k) =~= moderated_threads_in(
                    pre.threads(),
                    k,
                ).insert(t));
            } else {
                assert(unmoderated_threads_in(post.threads(), k) =~= unmoderated_threads_in(
                    pre.threads(),
                    k,
                ));
                assert(moderated_threads_in(post.threads(), k) =~= moderated_threads_in(
                    pre.threads(),
                    k,
                ));
            }
        }
        assert forall|k: u64| #[trigger] post.threads().contains_key(k) implies post.thread_wf(k) by {
            assert(pre.thread_wf(k));
        }
        assert forall|x: u64| #[trigger] post.posts().contains_key(x) implies post.post_wf(x) by {
            assert(pre.post_wf(x));
        }
    }

    /// Why `moderate_thread` refuses, if it does: the caller is not the
    /// sudo, the thread is missing or already moderated, the rationale has a
    /// bad length, or the category of the thread is locked.
    pub open spec fn moderate_thread_error(
        self,
        who: AccountId,
        thread_id: ThreadId,
        rationale_len: int,
    ) -> Option<ForumError> {
        let rationale_error = error_of(
            self.thread_moderation_rationale_constraint.validation(
                rationale_len,
                ForumError::ThreadRationaleTooShort,
                ForumError::ThreadRationaleTooLong,
            ),
        );
        if self.sudo_error(who) is Some {
            self.sudo_error(who)
        } else if !self.threads().contains_key(thread_id) {
            Some(ForumError::ThreadNotFound)
        } else if self.threads()[thread_id].moderation is Some {
            Some(ForumError::ThreadAlreadyModerated)
        } else if rationale_error is Some {
            rationale_error
        } else if !self.can_mutate_in(self.threads()[thread_id].category_id) {
            Some(ForumError::AncestorImmutable)
        } else {
            None
        }
    }

    /// Moderates a thread, for good. Only the sudo may do so; on any refusal
    /// nothing changes.
    pub fn moderate_thread(
        &mut self,
        who: AccountId,
        thread_id: ThreadId,
        rationale: Vec<u8>,
        now: BlockchainTimestamp,
    ) -> (r: Result<Event, ForumError>)
        requires
            old(self).wf(),
        ensures
            final(self).wf(),
            old(self).evolves_to(*final(self)),
            match old(self).moderate_thread_error(who, thread_id, rationale@.len() as int) {
                Some(e) => r == Err::<Event, ForumError>(e) && *final(self) == *old(self),
                None => {
                    let thread = old(self).threads()[thread_id];
                    let cat = old(self).cats()[thread.category_id];
                    let action = ModerationAction { moderated_at: now, moderator_id: who, rationale };
                    &&& r == Ok::<Event, ForumError>(Event::ThreadModerated(thread_id))
                    &&& final(self).threads() == old(self).threads().insert(
                        thread_id,
                        Thread { moderation: Some(action), ..thread },
                    )
                    &&& final(self).cats() == old(self).cats().insert(
                        thread.category_id,
                        Category {
                            num_direct_unmoderated_threads: (cat.num_direct_unmoderated_threads
                                - 1) as u32,
                            num_direct_moderated_threads: (cat.num_direct_moderated_threads
                                + 1) as u32,
                            ..cat
                        },
                    )
                    &&& final(self).post_by_id == old(self).post_by_id
                    &&& final(self).next_category_id == old(self).next_category_id
                    &&& final(self).next_thread_id == old(self).next_thread_id
                    &&& final(self).next_post_id == old(self).next_post_id
                    &&& final(self).same_settings(*old(self))
                },
            },
    {
        self.ensure_is_forum_sudo(who)?;
        let thread = self.ensure_thread_exists(thread_id)?;
        if thread.moderation.is_some() {
            return Err(ForumError::ThreadAlreadyModerated);
        }
        self.ensure_thread_moderation_rationale_is_valid(&rationale)?;
        let category_id: CategoryId = thread.category_id;
        proof {
            assert(self.thread_wf(thread_id));
        }
        self.ensure_catgory_is_mutable(category_id)?;
        let ghost action = ModerationAction { moderated_at: now, moderator_id: who, rationale };
        let mut thread = self.thread_by_id.remove(&thread_id).unwrap();
        thread.moderation = Some(ModerationAction { moderated_at: now, moderator_id: who, rationale });
        self.thread_by_id.insert(thread_id, thread);
        proof {
            assert(self.threads() =~= old(self).threads().insert(
                thread_id,
                Thread { moderation: Some(action), ..old(self).threads()[thread_id] },
            ));
            assert(old(self).category_wf(category_id));
            let um = unmoderated_threads_in(old(self).threads(), category_id);
            assert(um.contains(thread_id));
            assert(um.remove(thread_id).len() + 1 == um.len());
        }
        let mut category = self.category_by_id.remove(&category_id).unwrap();
        category.num_direct_unmoderated_threads = category.num_direct_unmoderated_threads - 1;
        category.num_direct_moderated_threads = category.num_direct_moderated_threads + 1;
        self.category_by_id.insert(category_id, category);
        proof {
            let cat = old(self).cats()[category_id];
            assert(self.cats() =~= old(self).cats().insert(
                category_id,
                Category {
                    num_direct_unmoderated_threads: (cat.num_direct_unmoderated_threads - 1) as u32,
                    num_direct_moderated_threads: (cat.num_direct_moderated_threads + 1) as u32,
                    ..cat
                },
            ));
            Self::lemma_thread_moderated(*old(self), *self, thread_id);
        }
        Ok(Event::ThreadModerated(thread_id))
    }
}

impl Forum {
    proof fn lemma_post_moderated(pre: Forum, post: Forum, p: PostId)
        requires
            pre.wf(),
            pre.posts().contains_key(p),
            pre.posts()[p].moderation is None,
            post.posts()[p].moderation is Some,
            post.posts() == pre.posts().insert(
                p,
                Post { moderation: post.posts()[p].moderation, ..pre.posts()[p] },
            ),
            ({
                let t = pre.posts()[p].thread_id;
                post.threads() == pre.threads().insert(
                    t,
                    Thread {
                        num_unmoderated_posts: (pre.threads()[t].num_unmoderated_posts - 1) as u32,
                        num_moderated_posts: (pre.threads()[t].num_moderated_posts + 1) as u32,
                        ..pre.threads()[t]
                    },
                )
            }),
            post.cats() == pre.cats(),
            post.category_depth == pre.category_depth,
            post.next_category_id == pre.next_category_id,
            post.next_thread_id == pre.next_thread_id,
            post.next_post_id == pre.next_post_id,
            post.max_category_depth == pre.max_category_depth,
        ensures
            post.wf(),
            pre.evolves_to(post),
    {
        let t = pre.posts()[p].thread_id;
        assert(pre.post_wf(p));
        assert(pre.thread_wf(t));
        let um = unmoderated_posts_in(pre.posts(), t);
        assert(um.contains(p));
        assert(um.remove(p).len() + 1 == um.len());
        assert forall|k: CategoryId| #[trigger] post.cats().contains_key(k) implies post.category_wf(
            k,
        ) by {
            assert(pre.category_wf(k));
            let old_ts = threads_in(pre.threads(), k);
            assert(threads_in(post.threads(), k) =~= old_ts);
            assert(unmoderated_threads_in(post.threads(), k) =~= unmoderated_threads_in(
                pre.threads(),
                k,
            ));
            assert(moderated_threads_in(post.threads(), k) =~= moderated_threads_in(
                pre.threads(),
                k,
            ));
            assert forall|x: u64| #[trigger]
                old_ts.contains(x) implies thread_nr(post.threads())(x) == thread_nr(pre.threads())(
                x,
            ) by {}
            lemma_numbered_same(
                old_ts,
                thread_nr(pre.threads()),
                pre.cats()[k].threads_ever_created(),
                threads_in(post.threads(), k),
                thread_nr(post.threads()),
            );
        }
        assert forall|k: u64| #[trigger] post.threads().contains_key(k) implies post.thread_wf(k) by {
            assert(pre.thread_wf(k));
            let old_ps = posts_in(pre.posts(), k);
            assert(posts_in(post.posts(), k) =~= old_ps);
            assert forall|x: u64| #[trigger]
                old_ps.contains(x) implies post_nr(post.posts())(x) == post_nr(pre.posts())(x) by {}
            lemma_numbered_same(
                old_ps,
                post_nr(pre.posts()),
                pre.threads()[k].posts_ever_created(),
                posts_in(post.posts(), k),
                post_nr(post.posts()),
            );
            if k == t {
                assert(unmoderated_posts_in(post.posts(), k) =~= um.remove(p));
                assert(moderated_posts_in(post.posts(), k) =~= moderated_posts_in(pre.posts(), k).insert(
                    p,
                ));
            } else {
                assert(unmoderated_posts_in(post.posts(), k) =~= unmoderated_posts_in(pre.posts(), k));
                assert(moderated_posts_in(post.posts(), k) =~= moderated_posts_in(pre.posts(), k));
            }
        }
        assert forall|x: u64| #[trigger] post.posts().contains_key(x) implies post.post_wf(x) by {
            assert(pre.post_wf(x));
        }
        let h = pre.posts()[p].text_change_history@;
        assert(h =~= post.posts()[p].text_change_history@.subrange(0, h.len() as int));
    }

    /// Why `moderate_post` refuses, if it does: the caller is not the sudo,
    /// the post is missing or already moderated, its thread cannot take
    /// changes, or the rationale has a bad length.
    pub open spec fn moderate_post_error(self, who: AccountId, post_id: PostId, rationale_len: int) -> Option<
        ForumError,
    > {
        if self.sudo_error(who) is Some {
            self.sudo_error(who)
        } else if self.post_error(post_id, ForumError::PostAlreadyModerated) is Some {
            self.post_error(post_id, ForumError::PostAlreadyModerated)
        } else {
            error_of(
                self.post_moderation_rationale_constraint.validation(
                    rationale_len,
                    ForumError::PostRationaleTooShort,
                    ForumError::PostRationaleTooLong,
                ),
            )
        }
    }

    /// Moderates a post, for good. Only the sudo may do so; on any refusal
    /// nothing changes.
    pub fn moderate_post(
        &mut self,
        who: AccountId,
        post_id: PostId,
        rationale: Vec<u8>,
        now: BlockchainTimestamp,
    ) -> (r: Result<Event, ForumError>)
        requires
            old(self).wf(),
        ensures
            final(self).wf(),
            old(self).evolves_to(*final(self)),
            match old(self).moderate_post_error(who, post_id, rationale@.len() as int) {
                Some(e) => r == Err::<Event, ForumError>(e) && *final(self) == *old(self),
                None => {
                    let post = old(self).posts()[post_id];
                    let thread = old(self).threads()[post.thread_id];
                    let action = ModerationAction { moderated_at: now, moderator_id: who, rationale };
                    &&& r == Ok::<Event, ForumError>(Event::PostModerated(post_id))
                    &&& final(self).posts() == old(self).posts().insert(
                        post_id,
                        Post { moderation: Some(action), ..post },
                    )
                    &&& final(self).threads() == old(self).threads().insert(
                        post.thread_id,
                        Thread {
                            num_unmoderated_posts: (thread.num_unmoderated_posts - 1) as u32,
                            num_moderated_posts: (thread.num_moderated_posts + 1) as u32,
                            ..thread
                        },
                    )
                    &&& final(self).category_by_id == old(self).category_by_id
                    &&& final(self).next_category_id == old(self).next_category_id
                    &&& final(self).next_thread_id == old(self).next_thread_id
                    &&& final(self).next_post_id == old(self).next_post_id
                    &&& final(self).same_settings(*old(self))
                },
            },
    {
        self.ensure_is_forum_sudo(who)?;
        let post = self.ensure_post_exists(post_id)?;
        if post.moderation.is_some() {
            return Err(ForumError::PostAlreadyModerated);
        }
        let thread_id: ThreadId = post.thread_id;
        self.ensure_thread_is_mutable(thread_id)?;
        self.ensure_post_moderation_rationale_is_valid(&rationale)?;
        let ghost action = ModerationAction { moderated_at: now, moderator_id: who, rationale };
        let mut post = self.post_by_id.remove(&post_id).unwrap();
        post.moderation = Some(ModerationAction { moderated_at: now, moderator_id: who, rationale });
        self.post_by_id.insert(post_id, post);
        proof {
            assert(self.posts() =~= old(self).posts().insert(
                post_id,
                Post { moderation: Some(action), ..old(self).posts()[post_id] },
            ));
            assert(old(self).post_wf(post_id));
            assert(old(self).thread_wf(thread_id));
            let um = unmoderated_posts_in(old(self).posts(), thread_id);
            assert(um.contains(post_id));
            assert(um.remove(post_id).len() + 1 == um.len());
        }
        let mut thread = self.thread_by_id.remove(&thread_id).unwrap();
        thread.num_unmoderated_posts = thread.num_unmoderated_posts - 1;
        thread.num_moderated_posts = thread.num_moderated_posts + 1;
        self.thread_by_id.insert(thread_id, thread);
        proof {
            let th = old(self).threads()[thread_id];
            assert(self.threads() =~= old(self).threads().insert(
                thread_id,
                Thread {
                    num_unmoderated_posts: (th.num_unmoderated_posts - 1) as u32,
                    num_moderated_posts: (th.num_moderated_posts + 1) as u32,
                    ..th
                },
            ));
            Self::lemma_post_moderated(*old(self), *self, post_id);
        }
        Ok(Event::PostModerated(post_id))
    }
}

} // verus!
