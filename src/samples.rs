//! Sample inputs and a sample configuration for setting up and exercising a
//! forum.
use crate::constraint::InputValidationLengthConstraint;
use crate::forum::GenesisConfig;
use vstd::prelude::*;
use vstd::string::{StrSliceExecFns, StringSliceAdditionalSpecFns};

verus! {

/// The bytes of `s`.
fn bytes_of(s: &str) -> (r: Vec<u8>)
    ensures
        r@ == s.spec_bytes(),
{
    s.as_bytes_vec()
}

/// The message of a call that needs the root origin.
pub fn require_root_origin() -> (r: &'static str)
    ensures
        r@ == "RequireRootOrigin"@,
{
    "RequireRootOrigin"
}

/// A text of `len` bytes, all of them `x`.
pub fn generate_text(len: usize) -> (r: Vec<u8>)
    ensures
        r@ == Seq::new(len as nat, |_i: int| 120u8),
{
    let mut text: Vec<u8> = Vec::new();
    let mut i: usize = 0;
    while i < len
        invariant
            i <= len,
            text@ == Seq::new(i as nat, |_i: int| 120u8),
        decreases len - i,
    {
        text.push(120u8);
        i = i + 1;
        proof {
            assert(text@ =~= Seq::new(i as nat, |_i: int| 120u8));
        }
    }
    text
}

pub fn good_user_name() -> (r: Vec<u8>)
    ensures
        r@ == "good name".spec_bytes(),
{
    bytes_of("good name")
}

pub fn good_self_introduction() -> (r: Vec<u8>)
    ensures
        r@ == "good description".spec_bytes(),
{
    bytes_of("good description")
}

pub fn good_forum_user_footer() -> (r: Option<Vec<u8>>)
    ensures
        r matches Some(footer) && footer@ == "good forum user footer".spec_bytes(),
{
    Some(bytes_of("good forum user footer"))
}

pub fn good_category_title() -> (r: Vec<u8>)
    ensures
        r@ == "Great new category".spec_bytes(),
{
    bytes_of("Great new category")
}

pub fn good_category_description() -> (r: Vec<u8>)
    ensures
        r@ == "This is a great new category for the forum".spec_bytes(),
{
    bytes_of("This is a great new category for the forum")
}

pub fn good_thread_title() -> (r: Vec<u8>)
    ensures
        r@ == "Great new thread".spec_bytes(),
{
    bytes_of("Great new thread")
}

pub fn good_thread_text() -> (r: Vec<u8>)
    ensures
        r@ == "The first post in this thread".spec_bytes(),
{
    bytes_of("The first post in this thread")
}

pub fn good_post_text() -> (r: Vec<u8>)
    ensures
        r@ == "A response in the thread".spec_bytes(),
{
    bytes_of("A response in the thread")
}

pub fn good_rationale() -> (r: Vec<u8>)
    ensures
        r@ == "This post violates our community rules".spec_bytes(),
{
    bytes_of("This post violates our community rules")
}

/// Eight label names, `label item A` to `label item H`.
pub fn good_labels() -> (r: Vec<Vec<u8>>)
    ensures
        r@.map_values(|label: Vec<u8>| label@) == seq![
            "label item A".spec_bytes(),
            "label item B".spec_bytes(),
            "label item C".spec_bytes(),
            "label item D".spec_bytes(),
            "label item E".spec_bytes(),
            "label item F".spec_bytes(),
            "label item G".spec_bytes(),
            "label item H".spec_bytes(),
        ],
{
    let labels = vec![
        bytes_of("label item A"),
        bytes_of("label item B"),
        bytes_of("label item C"),
        bytes_of("label item D"),
        bytes_of("label item E"),
        bytes_of("label item F"),
        bytes_of("label item G"),
        bytes_of("label item H"),
    ];
    proof {
        assert(labels@.map_values(|label: Vec<u8>| label@) =~= seq![
            "label item A".spec_bytes(),
            "label item B".spec_bytes(),
            "label item C".spec_bytes(),
            "label item D".spec_bytes(),
            "label item E".spec_bytes(),
            "label item F".spec_bytes(),
            "label item G".spec_bytes(),
            "label item H".spec_bytes(),
        ]);
    }
    labels
}

/// A configuration with identifiers starting at 1, account 33 as sudo,
/// categories up to depth 5, and moderate length bounds.
pub fn default_genesis_config() -> (r: GenesisConfig)
    ensures
        r == (GenesisConfig {
            next_category_id: 1,
            next_thread_id: 1,
            next_post_id: 1,
            forum_sudo: Some(33),
            max_category_depth: 5,
            category_title_constraint: InputValidationLengthConstraint { min: 10, max_min_diff: 140 },
            category_description_constraint: InputValidationLengthConstraint {
                min: 10,
                max_min_diff: 140,
            },
            thread_title_constraint: InputValidationLengthConstraint { min: 3, max_min_diff: 43 },
            post_text_constraint: InputValidationLengthConstraint { min: 1, max_min_diff: 1001 },
            thread_moderation_rationale_constraint: InputValidationLengthConstraint {
                min: 10,
                max_min_diff: 2000,
            },
            post_moderation_rationale_constraint: InputValidationLengthConstraint {
                min: 10,
                max_min_diff: 2000,
            },
        }),
{
    GenesisConfig {
        next_category_id: 1,
        next_thread_id: 1,
        next_post_id: 1,
        forum_sudo: Some(33),
        max_category_depth: 5,
        category_title_constraint: InputValidationLengthConstraint { min: 10, max_min_diff: 140 },
        category_description_constraint: InputValidationLengthConstraint {
            min: 10,
            max_min_diff: 140,
        },
        thread_title_constraint: InputValidationLengthConstraint { min: 3, max_min_diff: 43 },
        post_text_constraint: InputValidationLengthConstraint { min: 1, max_min_diff: 1001 },
        thread_moderation_rationale_constraint: InputValidationLengthConstraint {
            min: 10,
            max_min_diff: 2000,
        },
        post_moderation_rationale_constraint: InputValidationLengthConstraint {
            min: 10,
            max_min_diff: 2000,
        },
    }
}

} // verus!
