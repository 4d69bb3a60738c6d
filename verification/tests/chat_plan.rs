//! The chat reply planner on concrete post lists.

use bbs_search::chat::{plan_replies, ChatAction, ChatPost};

fn text_post(text: &str) -> ChatPost {
    ChatPost { text: text.to_string(), oekaki_id: None }
}

#[test]
fn short_texts_share_one_batch() {
    let posts = vec![text_post("one "), text_post("two ")];
    let plan = plan_replies(&posts);
    assert_eq!(plan.len(), 1);
    match &plan[0] {
        ChatAction::Text(s) => assert_eq!(s, "one two "),
        _ => panic!("expected one text batch"),
    }
}

#[test]
fn long_texts_split_batches() {
    let a = "a".repeat(1000);
    let b = "b".repeat(1000);
    let posts = vec![text_post(&a), text_post(&b)];
    let plan = plan_replies(&posts);
    assert_eq!(plan.len(), 2);
    match (&plan[0], &plan[1]) {
        (ChatAction::Text(x), ChatAction::Text(y)) => {
            assert_eq!(x, &a);
            assert_eq!(y, &b);
        },
        _ => panic!("expected two text batches"),
    }
}

#[test]
fn image_flushes_text_then_sends() {
    let mut with_image = text_post("look: ");
    with_image.oekaki_id = Some(42);
    let posts = vec![with_image, text_post("after")];
    let plan = plan_replies(&posts);
    assert_eq!(plan.len(), 3);
    assert!(matches!(&plan[0], ChatAction::Text(s) if s == "look: "));
    assert!(matches!(&plan[1], ChatAction::Image(42)));
    assert!(matches!(&plan[2], ChatAction::Text(s) if s == "after"));
}

#[test]
fn image_without_text_sends_alone() {
    let posts = vec![ChatPost { text: String::new(), oekaki_id: Some(7) }];
    let plan = plan_replies(&posts);
    assert_eq!(plan.len(), 1);
    assert!(matches!(&plan[0], ChatAction::Image(7)));
}
