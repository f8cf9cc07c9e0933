use forum::constraint::InputValidationLengthConstraint;
use forum::samples::{
    default_genesis_config, generate_text, good_category_description, good_category_title,
    good_forum_user_footer, good_labels, good_post_text, good_rationale, good_self_introduction,
    good_thread_text, good_thread_title, good_user_name, require_root_origin,
};

#[test]
fn generated_text_has_requested_length() {
    assert_eq!(generate_text(0), Vec::<u8>::new());
    assert_eq!(generate_text(3), b"xxx".to_vec());
    assert_eq!(generate_text(1000).len(), 1000);
}

#[test]
fn sample_texts() {
    assert_eq!(require_root_origin(), "RequireRootOrigin");
    assert_eq!(good_user_name(), b"good name".to_vec());
    assert_eq!(good_self_introduction(), b"good description".to_vec());
    assert_eq!(good_forum_user_footer(), Some(b"good forum user footer".to_vec()));
    assert_eq!(good_category_title(), b"Great new category".to_vec());
    assert_eq!(
        good_category_description(),
        b"This is a great new category for the forum".to_vec()
    );
    assert_eq!(good_thread_title(), b"Great new thread".to_vec());
    assert_eq!(good_thread_text(), b"The first post in this thread".to_vec());
    assert_eq!(good_post_text(), b"A response in the thread".to_vec());
    assert_eq!(good_rationale(), b"This post violates our community rules".to_vec());
    let labels = good_labels();
    assert_eq!(labels.len(), 8);
    assert_eq!(labels[0], b"label item A".to_vec());
    assert_eq!(labels[7], b"label item H".to_vec());
}

#[test]
fn default_configuration() {
    let c = default_genesis_config();
    assert_eq!(c.next_category_id, 1);
    assert_eq!(c.next_thread_id, 1);
    assert_eq!(c.next_post_id, 1);
    assert_eq!(c.forum_sudo, Some(33));
    assert_eq!(c.max_category_depth, 5);
    assert_eq!(
        c.category_title_constraint,
        InputValidationLengthConstraint { min: 10, max_min_diff: 140 }
    );
    assert_eq!(c.thread_title_constraint.max(), 46);
    assert_eq!(c.post_text_constraint.max(), 1002);
    assert_eq!(c.post_moderation_rationale_constraint.max(), 2010);
}
