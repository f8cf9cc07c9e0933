use forum::constraint::InputValidationLengthConstraint;
use forum::error::ForumError;
use forum::forum::{Event, Forum, GenesisConfig};
use forum::records::{BlockchainTimestamp, ForumMembers, ForumUser, ForumUserRegistry};
use forum::samples::{
    default_genesis_config, generate_text, good_category_description, good_category_title,
    good_post_text, good_rationale, good_thread_text, good_thread_title,
};

const SUDO: u64 = 33;
const MEMBER: u64 = 7;
const OTHER_MEMBER: u64 = 8;
const STRANGER: u64 = 111;

fn at(block: u64) -> BlockchainTimestamp {
    BlockchainTimestamp { block, time: block * 6 }
}

fn members() -> ForumMembers {
    let mut m = ForumMembers::new();
    m.register(MEMBER);
    m.register(OTHER_MEMBER);
    m
}

fn new_forum() -> Forum {
    Forum::from_genesis(default_genesis_config())
}

fn root_category(f: &mut Forum) -> u64 {
    let id = f.next_category_id;
    assert_eq!(
        f.create_category(SUDO, None, good_category_title(), good_category_description(), at(1)),
        Ok(Event::CategoryCreated(id))
    );
    id
}

fn subcategory(f: &mut Forum, parent: u64) -> u64 {
    let id = f.next_category_id;
    assert_eq!(
        f.create_category(
            SUDO,
            Some(parent),
            good_category_title(),
            good_category_description(),
            at(2)
        ),
        Ok(Event::CategoryCreated(id))
    );
    id
}

fn thread_in(f: &mut Forum, m: &ForumMembers, category: u64) -> (u64, u64) {
    let thread_id = f.next_thread_id;
    let post_id = f.next_post_id;
    assert_eq!(
        f.create_thread(m, MEMBER, category, good_thread_title(), good_thread_text(), at(3)),
        Ok(Event::ThreadCreated(thread_id))
    );
    (thread_id, post_id)
}

/// Creates a category and checks the outcome; returns the identifier the
/// category gets on success.
fn create_category_mock(
    f: &mut Forum,
    who: u64,
    parent: Option<u64>,
    title: Vec<u8>,
    description: Vec<u8>,
    result: Result<(), ForumError>,
) -> u64 {
    let category_id = f.next_category_id;
    let r = f.create_category(who, parent, title, description, at(1));
    assert_eq!(r.map(|_| ()), result);
    if result.is_ok() {
        assert_eq!(r, Ok(Event::CategoryCreated(category_id)));
    }
    category_id
}

fn create_thread_mock(
    f: &mut Forum,
    m: &ForumMembers,
    who: u64,
    category_id: u64,
    title: Vec<u8>,
    text: Vec<u8>,
    result: Result<(), ForumError>,
) -> u64 {
    let thread_id = f.next_thread_id;
    let r = f.create_thread(m, who, category_id, title, text, at(2));
    assert_eq!(r.map(|_| ()), result);
    if result.is_ok() {
        assert_eq!(r, Ok(Event::ThreadCreated(thread_id)));
    }
    thread_id
}

fn create_post_mock(
    f: &mut Forum,
    m: &ForumMembers,
    who: u64,
    thread_id: u64,
    text: Vec<u8>,
    result: Result<(), ForumError>,
) -> u64 {
    let post_id = f.next_post_id;
    let r = f.add_post(m, who, thread_id, text, at(3));
    assert_eq!(r.map(|_| ()), result);
    if result.is_ok() {
        assert_eq!(r, Ok(Event::PostAdded(post_id)));
    }
    post_id
}

fn set_forum_sudo_mock(
    f: &mut Forum,
    who: u64,
    new_forum_sudo: Option<u64>,
    result: Result<(), ForumError>,
) {
    let old_forum_sudo = f.forum_sudo;
    let r = f.set_forum_sudo(who, new_forum_sudo);
    assert_eq!(r.map(|_| ()), result);
    if result.is_ok() {
        assert_eq!(r, Ok(Event::ForumSudoSet(old_forum_sudo, new_forum_sudo)));
    }
}

fn update_category_mock(
    f: &mut Forum,
    who: u64,
    category_id: u64,
    new_archival_status: Option<bool>,
    new_deletion_status: Option<bool>,
    result: Result<(), ForumError>,
) -> u64 {
    let r = f.update_category(who, category_id, new_archival_status, new_deletion_status);
    assert_eq!(r.map(|_| ()), result);
    if result.is_ok() {
        assert_eq!(
            r,
            Ok(Event::CategoryUpdated(category_id, new_archival_status, new_deletion_status))
        );
    }
    category_id
}

fn moderate_thread_mock(
    f: &mut Forum,
    who: u64,
    thread_id: u64,
    rationale: Vec<u8>,
    result: Result<(), ForumError>,
) -> u64 {
    let r = f.moderate_thread(who, thread_id, rationale, at(4));
    assert_eq!(r.map(|_| ()), result);
    if result.is_ok() {
        assert_eq!(r, Ok(Event::ThreadModerated(thread_id)));
    }
    thread_id
}

fn moderate_post_mock(
    f: &mut Forum,
    who: u64,
    post_id: u64,
    rationale: Vec<u8>,
    result: Result<(), ForumError>,
) -> u64 {
    let r = f.moderate_post(who, post_id, rationale, at(5));
    assert_eq!(r.map(|_| ()), result);
    if result.is_ok() {
        assert_eq!(r, Ok(Event::PostModerated(post_id)));
    }
    post_id
}

fn edit_post_text_mock(
    f: &mut Forum,
    m: &ForumMembers,
    who: u64,
    post_id: u64,
    new_text: Vec<u8>,
    result: Result<(), ForumError>,
) -> u64 {
    let r = f.edit_post_text(m, who, post_id, new_text, at(6));
    assert_eq!(r.map(|_| ()), result);
    if result.is_ok() {
        let edits = f.post_by_id.get(&post_id).unwrap().text_change_history.len() as u64;
        assert_eq!(r, Ok(Event::PostTextUpdated(post_id, edits)));
    }
    post_id
}

#[test]
fn full_lifecycle_through_every_command() {
    let mut f = new_forum();
    let m = members();
    let root = create_category_mock(
        &mut f,
        SUDO,
        None,
        good_category_title(),
        good_category_description(),
        Ok(()),
    );
    let child = create_category_mock(
        &mut f,
        SUDO,
        Some(root),
        good_category_title(),
        good_category_description(),
        Ok(()),
    );
    create_category_mock(
        &mut f,
        STRANGER,
        Some(root),
        good_category_title(),
        good_category_description(),
        Err(ForumError::NotSudo),
    );
    let t = create_thread_mock(
        &mut f,
        &m,
        MEMBER,
        child,
        good_thread_title(),
        good_thread_text(),
        Ok(()),
    );
    let p = create_post_mock(&mut f, &m, OTHER_MEMBER, t, good_post_text(), Ok(()));
    edit_post_text_mock(&mut f, &m, OTHER_MEMBER, p, b"edited".to_vec(), Ok(()));
    edit_post_text_mock(&mut f, &m, MEMBER, p, b"edited".to_vec(), Err(ForumError::NotPostAuthor));
    moderate_post_mock(&mut f, SUDO, p, good_rationale(), Ok(()));
    moderate_post_mock(&mut f, SUDO, p, good_rationale(), Err(ForumError::PostAlreadyModerated));
    moderate_thread_mock(&mut f, SUDO, t, good_rationale(), Ok(()));
    create_post_mock(&mut f, &m, MEMBER, t, good_post_text(), Err(ForumError::ThreadModerated));
    update_category_mock(&mut f, SUDO, root, None, Some(true), Ok(()));
    create_thread_mock(
        &mut f,
        &m,
        MEMBER,
        child,
        good_thread_title(),
        good_thread_text(),
        Err(ForumError::AncestorImmutable),
    );
    update_category_mock(&mut f, SUDO, child, Some(true), None, Err(ForumError::AncestorImmutable));
    set_forum_sudo_mock(&mut f, SUDO, Some(OTHER_MEMBER), Ok(()));
    update_category_mock(&mut f, SUDO, root, None, Some(false), Err(ForumError::NotSudo));
    update_category_mock(&mut f, OTHER_MEMBER, root, None, Some(false), Ok(()));
    create_thread_mock(
        &mut f,
        &m,
        MEMBER,
        child,
        good_thread_title(),
        good_thread_text(),
        Ok(()),
    );
    assert_eq!(f.category_by_id.get(&child).unwrap().num_threads_created(), 2);
    assert_eq!(f.thread_by_id.get(&t).unwrap().num_posts_ever_created(), 2);
}

#[test]
fn root_category_and_first_thread() {
    let mut f = new_forum();
    let m = members();
    assert_eq!(good_category_title(), b"Great new category".to_vec());
    assert_eq!(
        f.create_category(SUDO, None, good_category_title(), good_category_description(), at(1)),
        Ok(Event::CategoryCreated(1))
    );
    let cat = f.category_by_id.get(&1).unwrap();
    assert_eq!(cat.title, b"Great new category".to_vec());
    assert_eq!(cat.position_in_parent_category, None);
    assert_eq!(cat.created_at, at(1));
    assert_eq!(cat.moderator_id, SUDO);
    assert_eq!(
        f.create_thread(&m, MEMBER, 1, b"Great new thread".to_vec(), good_thread_text(), at(4)),
        Ok(Event::ThreadCreated(1))
    );
    let thread = f.thread_by_id.get(&1).unwrap();
    assert_eq!(thread.nr_in_category, 1);
    assert_eq!(thread.num_unmoderated_posts, 1);
    assert_eq!(thread.author_id, MEMBER);
    let post = f.post_by_id.get(&1).unwrap();
    assert_eq!(post.nr_in_thread, 1);
    assert_eq!(post.thread_id, 1);
    assert_eq!(post.current_text, good_thread_text());
    assert!(post.text_change_history.is_empty());
    assert_eq!(f.category_by_id.get(&1).unwrap().num_direct_unmoderated_threads, 1);
    assert_eq!(f.next_thread_id, 2);
    assert_eq!(f.next_post_id, 2);
}

#[test]
fn archived_category_refuses_threads() {
    let mut f = new_forum();
    let m = members();
    let c = root_category(&mut f);
    assert_eq!(
        f.update_category(SUDO, c, Some(true), None),
        Ok(Event::CategoryUpdated(c, Some(true), None))
    );
    assert!(f.category_by_id.get(&c).unwrap().archived);
    assert_eq!(
        f.create_thread(&m, MEMBER, c, good_thread_title(), good_thread_text(), at(5)),
        Err(ForumError::AncestorImmutable)
    );
    assert!(f.thread_by_id.is_empty());
}

#[test]
fn deleted_category_cannot_be_archived() {
    let mut f = new_forum();
    let c = root_category(&mut f);
    assert_eq!(
        f.update_category(SUDO, c, None, Some(true)),
        Ok(Event::CategoryUpdated(c, None, Some(true)))
    );
    assert_eq!(
        f.update_category(SUDO, c, Some(true), None),
        Err(ForumError::CannotUnarchiveWhileDeleted)
    );
    let cat = f.category_by_id.get(&c).unwrap();
    assert!(cat.deleted);
    assert!(!cat.archived);
    // Undeleting and unarchiving together is accepted.
    assert_eq!(
        f.update_category(SUDO, c, Some(false), Some(false)),
        Ok(Event::CategoryUpdated(c, Some(false), Some(false)))
    );
    assert!(!f.category_by_id.get(&c).unwrap().deleted);
}

#[test]
fn deleting_while_unarchiving_is_refused() {
    let mut f = new_forum();
    let c = root_category(&mut f);
    assert_eq!(
        f.update_category(SUDO, c, Some(false), Some(true)),
        Err(ForumError::CannotUnarchiveWhileDeleted)
    );
    assert!(!f.category_by_id.get(&c).unwrap().deleted);
    assert_eq!(
        f.update_category(SUDO, c, Some(true), Some(true)),
        Ok(Event::CategoryUpdated(c, Some(true), Some(true)))
    );
    assert_eq!(
        f.update_category(SUDO, c, None, Some(true)),
        Err(ForumError::CannotUnarchiveWhileDeleted)
    );
    assert_eq!(
        f.update_category(SUDO, c, None, Some(false)),
        Ok(Event::CategoryUpdated(c, None, Some(false)))
    );
    let cat = f.category_by_id.get(&c).unwrap();
    assert!(cat.archived);
    assert!(!cat.deleted);
}

#[test]
fn non_sudo_cannot_moderate_thread() {
    let mut f = new_forum();
    let m = members();
    let c = root_category(&mut f);
    let (t, _) = thread_in(&mut f, &m, c);
    assert_eq!(
        f.moderate_thread(STRANGER, t, good_rationale(), at(6)),
        Err(ForumError::NotSudo)
    );
    let thread = f.thread_by_id.get(&t).unwrap();
    assert!(thread.moderation.is_none());
    assert_eq!(f.category_by_id.get(&c).unwrap().num_direct_moderated_threads, 0);
}

#[test]
fn only_author_edits_post() {
    let mut f = new_forum();
    let m = members();
    let c = root_category(&mut f);
    let (_, p) = thread_in(&mut f, &m, c);
    assert_eq!(
        f.edit_post_text(&m, OTHER_MEMBER, p, good_post_text(), at(7)),
        Err(ForumError::NotPostAuthor)
    );
    let post = f.post_by_id.get(&p).unwrap();
    assert!(post.text_change_history.is_empty());
    assert_eq!(post.current_text, good_thread_text());
}

#[test]
fn depth_is_bounded_by_configured_maximum() {
    let mut f = new_forum();
    assert_eq!(f.max_category_depth, 5);
    let mut parent = root_category(&mut f);
    // Depths 1 to 5 are accepted.
    for _ in 0..5 {
        parent = subcategory(&mut f, parent);
    }
    assert_eq!(f.next_category_id, 7);
    assert_eq!(
        f.create_category(
            SUDO,
            Some(parent),
            good_category_title(),
            good_category_description(),
            at(8)
        ),
        Err(ForumError::MaxDepthExceeded)
    );
    assert_eq!(f.next_category_id, 7);
    assert_eq!(f.category_by_id.get(&parent).unwrap().num_direct_subcategories, 0);
    let path = f.build_category_tree_path(parent);
    assert_eq!(path, vec![6, 5, 4, 3, 2, 1]);
}

#[test]
fn depth_zero_allows_roots_only() {
    let mut config = default_genesis_config();
    config.max_category_depth = 0;
    let mut f = Forum::from_genesis(config);
    let c = root_category(&mut f);
    assert_eq!(
        f.create_category(SUDO, Some(c), good_category_title(), good_category_description(), at(2)),
        Err(ForumError::MaxDepthExceeded)
    );
}

#[test]
fn subcategories_are_numbered_in_order() {
    let mut f = new_forum();
    let c = root_category(&mut f);
    let a = subcategory(&mut f, c);
    let b = subcategory(&mut f, c);
    let pa = f.category_by_id.get(&a).unwrap().position_in_parent_category.unwrap();
    let pb = f.category_by_id.get(&b).unwrap().position_in_parent_category.unwrap();
    assert_eq!((pa.parent_id, pa.child_nr_in_parent_category), (c, 1));
    assert_eq!((pb.parent_id, pb.child_nr_in_parent_category), (c, 2));
    assert_eq!(f.category_by_id.get(&c).unwrap().num_direct_subcategories, 2);
}

#[test]
fn thread_counts_add_up_after_moderation() {
    let mut f = new_forum();
    let m = members();
    let c = root_category(&mut f);
    let (t1, _) = thread_in(&mut f, &m, c);
    let (t2, _) = thread_in(&mut f, &m, c);
    let (t3, _) = thread_in(&mut f, &m, c);
    assert_eq!(
        f.moderate_thread(SUDO, t2, good_rationale(), at(9)),
        Ok(Event::ThreadModerated(t2))
    );
    let cat = f.category_by_id.get(&c).unwrap();
    assert_eq!(cat.num_direct_unmoderated_threads, 2);
    assert_eq!(cat.num_direct_moderated_threads, 1);
    assert_eq!(cat.num_threads_created(), 3);
    let nrs: Vec<u32> = [t1, t2, t3]
        .iter()
        .map(|t| f.thread_by_id.get(t).unwrap().nr_in_category)
        .collect();
    assert_eq!(nrs, vec![1, 2, 3]);
    let (t4, _) = thread_in(&mut f, &m, c);
    assert_eq!(f.thread_by_id.get(&t4).unwrap().nr_in_category, 4);
}

#[test]
fn post_numbers_run_without_gaps() {
    let mut f = new_forum();
    let m = members();
    let c = root_category(&mut f);
    let (t, p1) = thread_in(&mut f, &m, c);
    let p2 = f.next_post_id;
    assert_eq!(
        f.add_post(&m, OTHER_MEMBER, t, good_post_text(), at(10)),
        Ok(Event::PostAdded(p2))
    );
    assert_eq!(
        f.moderate_post(SUDO, p2, good_rationale(), at(11)),
        Ok(Event::PostModerated(p2))
    );
    let p3 = f.next_post_id;
    assert_eq!(f.add_post(&m, MEMBER, t, good_post_text(), at(12)), Ok(Event::PostAdded(p3)));
    let nrs: Vec<u32> = [p1, p2, p3]
        .iter()
        .map(|p| f.post_by_id.get(p).unwrap().nr_in_thread)
        .collect();
    assert_eq!(nrs, vec![1, 2, 3]);
    let thread = f.thread_by_id.get(&t).unwrap();
    assert_eq!(thread.num_unmoderated_posts, 2);
    assert_eq!(thread.num_moderated_posts, 1);
    assert_eq!(thread.num_posts_ever_created(), 3);
}

#[test]
fn moderating_twice_is_refused() {
    let mut f = new_forum();
    let m = members();
    let c = root_category(&mut f);
    let (t, p) = thread_in(&mut f, &m, c);
    let p2 = f.next_post_id;
    f.add_post(&m, MEMBER, t, good_post_text(), at(4)).unwrap();
    assert_eq!(f.moderate_post(SUDO, p2, good_rationale(), at(5)), Ok(Event::PostModerated(p2)));
    assert_eq!(
        f.moderate_post(SUDO, p2, b"another rationale".to_vec(), at(6)),
        Err(ForumError::PostAlreadyModerated)
    );
    let first = f.post_by_id.get(&p2).unwrap().moderation.clone().unwrap();
    assert_eq!(first.rationale, good_rationale());
    assert_eq!(first.moderated_at, at(5));
    assert_eq!(f.thread_by_id.get(&t).unwrap().num_moderated_posts, 1);

    assert_eq!(f.moderate_thread(SUDO, t, good_rationale(), at(7)), Ok(Event::ThreadModerated(t)));
    assert_eq!(
        f.moderate_thread(SUDO, t, b"another rationale".to_vec(), at(8)),
        Err(ForumError::ThreadAlreadyModerated)
    );
    let action = f.thread_by_id.get(&t).unwrap().moderation.clone().unwrap();
    assert_eq!(action.moderated_at, at(7));
    assert_eq!(action.moderator_id, SUDO);
    let cat = f.category_by_id.get(&c).unwrap();
    assert_eq!(cat.num_direct_moderated_threads, 1);
    assert_eq!(cat.num_direct_unmoderated_threads, 0);
    // The other post of the moderated thread can no longer be changed.
    assert_eq!(
        f.edit_post_text(&m, MEMBER, p, good_post_text(), at(9)),
        Err(ForumError::ThreadModerated)
    );
    assert_eq!(
        f.moderate_post(SUDO, p, good_rationale(), at(9)),
        Err(ForumError::ThreadModerated)
    );
    assert_eq!(f.add_post(&m, MEMBER, t, good_post_text(), at(9)), Err(ForumError::ThreadModerated));
}

#[test]
fn locked_ancestor_blocks_descendants_until_restored() {
    let mut f = new_forum();
    let m = members();
    let root = root_category(&mut f);
    let mid = subcategory(&mut f, root);
    let leaf = subcategory(&mut f, mid);
    let (t, p) = thread_in(&mut f, &m, leaf);
    assert_eq!(
        f.update_category(SUDO, mid, Some(true), None),
        Ok(Event::CategoryUpdated(mid, Some(true), None))
    );
    let blocked = Err(ForumError::AncestorImmutable);
    assert_eq!(
        f.create_category(SUDO, Some(leaf), good_category_title(), good_category_description(), at(5)),
        blocked
    );
    assert_eq!(
        f.create_thread(&m, MEMBER, leaf, good_thread_title(), good_thread_text(), at(5)),
        blocked
    );
    assert_eq!(f.add_post(&m, MEMBER, t, good_post_text(), at(5)), blocked);
    assert_eq!(f.edit_post_text(&m, MEMBER, p, good_post_text(), at(5)), blocked);
    assert_eq!(f.moderate_thread(SUDO, t, good_rationale(), at(5)), blocked);
    assert_eq!(f.moderate_post(SUDO, p, good_rationale(), at(5)), blocked);
    // The locked category's own flags stay changeable; its descendants' not.
    assert_eq!(f.update_category(SUDO, leaf, Some(true), None), blocked);
    // The root stays open.
    let (_, _) = thread_in(&mut f, &m, root);
    assert_eq!(
        f.update_category(SUDO, mid, Some(false), None),
        Ok(Event::CategoryUpdated(mid, Some(false), None))
    );
    assert_eq!(
        f.edit_post_text(&m, MEMBER, p, good_post_text(), at(6)),
        Ok(Event::PostTextUpdated(p, 1))
    );
}

#[test]
fn edits_keep_history_in_order() {
    let mut f = new_forum();
    let m = members();
    let c = root_category(&mut f);
    let (_, p) = thread_in(&mut f, &m, c);
    assert_eq!(
        f.edit_post_text(&m, MEMBER, p, b"second".to_vec(), at(20)),
        Ok(Event::PostTextUpdated(p, 1))
    );
    assert_eq!(
        f.edit_post_text(&m, MEMBER, p, b"third".to_vec(), at(21)),
        Ok(Event::PostTextUpdated(p, 2))
    );
    let post = f.post_by_id.get(&p).unwrap();
    assert_eq!(post.current_text, b"third".to_vec());
    assert_eq!(post.text_change_history.len(), 2);
    assert_eq!(post.text_change_history[0].text, good_thread_text());
    assert_eq!(post.text_change_history[0].expired_at, at(20));
    assert_eq!(post.text_change_history[1].text, b"second".to_vec());
    assert_eq!(post.text_change_history[1].expired_at, at(21));
}

#[test]
fn sudo_hands_over_and_clears_role() {
    let mut f = new_forum();
    assert_eq!(f.set_forum_sudo(STRANGER, Some(STRANGER)), Err(ForumError::NotSudo));
    assert_eq!(f.set_forum_sudo(SUDO, Some(44)), Ok(Event::ForumSudoSet(Some(SUDO), Some(44))));
    assert_eq!(f.forum_sudo, Some(44));
    assert_eq!(
        f.create_category(SUDO, None, good_category_title(), good_category_description(), at(1)),
        Err(ForumError::NotSudo)
    );
    assert_eq!(f.set_forum_sudo(44, None), Ok(Event::ForumSudoSet(Some(44), None)));
    assert_eq!(f.forum_sudo, None);
    assert_eq!(f.set_forum_sudo(44, Some(44)), Err(ForumError::SudoNotSet));
    assert_eq!(
        f.create_category(44, None, good_category_title(), good_category_description(), at(1)),
        Err(ForumError::SudoNotSet)
    );
}

#[test]
fn category_input_errors() {
    let mut f = new_forum();
    assert_eq!(
        f.create_category(SUDO, None, generate_text(9), good_category_description(), at(1)),
        Err(ForumError::TitleTooShort)
    );
    assert_eq!(
        f.create_category(SUDO, None, generate_text(151), good_category_description(), at(1)),
        Err(ForumError::TitleTooLong)
    );
    assert_eq!(
        f.create_category(SUDO, None, good_category_title(), generate_text(9), at(1)),
        Err(ForumError::DescriptionTooShort)
    );
    assert_eq!(
        f.create_category(SUDO, None, good_category_title(), generate_text(151), at(1)),
        Err(ForumError::DescriptionTooLong)
    );
    assert_eq!(
        f.create_category(SUDO, Some(333), good_category_title(), good_category_description(), at(1)),
        Err(ForumError::CategoryNotFound)
    );
    assert_eq!(
        f.create_category(SUDO, None, generate_text(10), generate_text(150), at(1)),
        Ok(Event::CategoryCreated(1))
    );
    assert_eq!(f.update_category(SUDO, 1, None, None), Err(ForumError::NothingToUpdate));
    assert_eq!(f.update_category(SUDO, 333, Some(true), None), Err(ForumError::CategoryNotFound));
    assert_eq!(f.update_category(STRANGER, 1, Some(true), None), Err(ForumError::NotSudo));
    assert_eq!(f.next_category_id, 2);
}

#[test]
fn thread_and_post_input_errors() {
    let mut f = new_forum();
    let m = members();
    let c = root_category(&mut f);
    assert_eq!(
        f.create_thread(&m, STRANGER, c, good_thread_title(), good_thread_text(), at(2)),
        Err(ForumError::NotAMember)
    );
    assert_eq!(
        f.create_thread(&m, MEMBER, 333, good_thread_title(), good_thread_text(), at(2)),
        Err(ForumError::CategoryNotFound)
    );
    assert_eq!(
        f.create_thread(&m, MEMBER, c, generate_text(2), good_thread_text(), at(2)),
        Err(ForumError::ThreadTitleTooShort)
    );
    assert_eq!(
        f.create_thread(&m, MEMBER, c, generate_text(47), good_thread_text(), at(2)),
        Err(ForumError::ThreadTitleTooLong)
    );
    assert_eq!(
        f.create_thread(&m, MEMBER, c, good_thread_title(), generate_text(0), at(2)),
        Err(ForumError::PostTextTooShort)
    );
    assert_eq!(
        f.create_thread(&m, MEMBER, c, good_thread_title(), generate_text(1003), at(2)),
        Err(ForumError::PostTextTooLong)
    );
    assert!(f.thread_by_id.is_empty());
    assert!(f.post_by_id.is_empty());
    let (t, p) = thread_in(&mut f, &m, c);
    assert_eq!(f.add_post(&m, STRANGER, t, good_post_text(), at(3)), Err(ForumError::NotAMember));
    assert_eq!(f.add_post(&m, MEMBER, 444, good_post_text(), at(3)), Err(ForumError::ThreadNotFound));
    assert_eq!(f.add_post(&m, MEMBER, t, generate_text(0), at(3)), Err(ForumError::PostTextTooShort));
    assert_eq!(
        f.add_post(&m, MEMBER, t, generate_text(1003), at(3)),
        Err(ForumError::PostTextTooLong)
    );
    assert_eq!(
        f.edit_post_text(&m, STRANGER, p, good_post_text(), at(3)),
        Err(ForumError::NotAMember)
    );
    assert_eq!(
        f.edit_post_text(&m, MEMBER, 555, good_post_text(), at(3)),
        Err(ForumError::PostNotFound)
    );
    assert_eq!(
        f.moderate_thread(SUDO, 444, good_rationale(), at(3)),
        Err(ForumError::ThreadNotFound)
    );
    assert_eq!(
        f.moderate_thread(SUDO, t, generate_text(9), at(3)),
        Err(ForumError::ThreadRationaleTooShort)
    );
    assert_eq!(
        f.moderate_thread(SUDO, t, generate_text(2011), at(3)),
        Err(ForumError::ThreadRationaleTooLong)
    );
    assert_eq!(
        f.moderate_post(SUDO, 555, good_rationale(), at(3)),
        Err(ForumError::PostNotFound)
    );
    assert_eq!(
        f.moderate_post(SUDO, p, generate_text(9), at(3)),
        Err(ForumError::PostRationaleTooShort)
    );
    assert_eq!(
        f.moderate_post(SUDO, p, generate_text(2011), at(3)),
        Err(ForumError::PostRationaleTooLong)
    );
    assert_eq!(
        f.moderate_post(STRANGER, p, good_rationale(), at(3)),
        Err(ForumError::NotSudo)
    );
    assert_eq!(f.moderate_post(SUDO, p, good_rationale(), at(3)), Ok(Event::PostModerated(p)));
    assert_eq!(
        f.edit_post_text(&m, MEMBER, p, good_post_text(), at(4)),
        Err(ForumError::PostModerated)
    );
}

#[test]
fn length_constraint_bounds() {
    let c = InputValidationLengthConstraint { min: 3, max_min_diff: 4 };
    assert_eq!(c.max(), 7);
    let short = ForumError::ThreadTitleTooShort;
    let long = ForumError::ThreadTitleTooLong;
    assert_eq!(c.ensure_valid(2, short, long), Err(short));
    assert_eq!(c.ensure_valid(3, short, long), Ok(()));
    assert_eq!(c.ensure_valid(7, short, long), Ok(()));
    assert_eq!(c.ensure_valid(8, short, long), Err(long));
    // Lengths beyond the range of the bounds are still too long.
    assert_eq!(c.ensure_valid(65536 + 5, short, long), Err(long));
    let wide = InputValidationLengthConstraint { min: 65535, max_min_diff: 65535 };
    assert_eq!(wide.ensure_valid(131070, short, long), Ok(()));
    assert_eq!(wide.ensure_valid(131071, short, long), Err(long));
}

#[test]
fn registry_lookup() {
    let m = members();
    assert_eq!(m.get_forum_user(&MEMBER), Some(ForumUser { id: MEMBER }));
    assert_eq!(m.get_forum_user(&STRANGER), None);
    assert_eq!(Forum::ensure_is_forum_member(&m, OTHER_MEMBER), Ok(ForumUser { id: OTHER_MEMBER }));
    assert_eq!(Forum::ensure_is_forum_member(&m, STRANGER), Err(ForumError::NotAMember));
}

#[test]
fn genesis_without_sudo_refuses_sudo_calls() {
    let config = GenesisConfig { forum_sudo: None, ..default_genesis_config() };
    let mut f = Forum::from_genesis(config);
    assert_eq!(
        f.create_category(SUDO, None, good_category_title(), good_category_description(), at(1)),
        Err(ForumError::SudoNotSet)
    );
    assert_eq!(f.ensure_forum_sudo_set(), Err(ForumError::SudoNotSet));
}
