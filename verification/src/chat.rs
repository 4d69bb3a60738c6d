//! The chat front-end's reply planner: given the rendered posts of a
//! search result, decide the sequence of chat actions — text batches
//! under the transport's message limit, images flushed out of band.
//! The transport performs the actions; nothing here does I/O.

use vstd::prelude::*;
use vstd::string::{StrSliceExecFns, StringExecFns};

verus! {

/// The transport's practical message budget, in characters.
pub const CHAT_BATCH_LIMIT: usize = 1800;

/// One rendered post, ready to send: its text line and its image, if
/// it carries one.
pub struct ChatPost {
    pub text: String,
    pub oekaki_id: Option<i32>,
}

/// Mathematical image of a [`ChatPost`].
#[verifier::ext_equal]
pub ghost struct ChatPostModel {
    pub text: Seq<char>,
    pub oekaki_id: Option<i32>,
}

impl View for ChatPost {
    type V = ChatPostModel;

    open spec fn view(&self) -> ChatPostModel {
        ChatPostModel { text: self.text@, oekaki_id: self.oekaki_id }
    }
}

/// One action the transport performs: send a text message, or send an
/// image by its artifact number.
pub enum ChatAction {
    Text(String),
    Image(i32),
}

/// Mathematical image of a [`ChatAction`].
#[verifier::ext_equal]
pub ghost enum ActionModel {
    Text(Seq<char>),
    Image(i32),
}

impl View for ChatAction {
    type V = ActionModel;

    open spec fn view(&self) -> ActionModel {
        match self {
            ChatAction::Text(s) => ActionModel::Text(s@),
            ChatAction::Image(i) => ActionModel::Image(*i),
        }
    }
}

/// View of a vector of actions as a sequence of action models.
pub open spec fn actions_view(s: Seq<ChatAction>) -> Seq<ActionModel> {
    s.map_values(|a: ChatAction| a@)
}

/// View of a vector of posts as a sequence of post models.
pub open spec fn chat_posts_view(s: Seq<ChatPost>) -> Seq<ChatPostModel> {
    s.map_values(|p: ChatPost| p@)
}

/// Planner state after one more post: the actions emitted so far and
/// the text still accumulating. A post whose text would push the batch
/// over the limit flushes the batch first; a post with an image
/// flushes its batch and emits the image at once, keeping text and
/// image in order.
pub open spec fn step_plan(st: (Seq<ActionModel>, Seq<char>), p: ChatPostModel) -> (
    Seq<ActionModel>,
    Seq<char>,
) {
    let flushed: (Seq<ActionModel>, Seq<char>) = if st.1.len() > 0 && st.1.len() + p.text.len()
        > CHAT_BATCH_LIMIT {
        (st.0.push(ActionModel::Text(st.1)), Seq::empty())
    } else {
        st
    };
    let gathered = (flushed.0, flushed.1 + p.text);
    match p.oekaki_id {
        Some(oid) => if gathered.1.len() > 0 {
            (gathered.0.push(ActionModel::Text(gathered.1)).push(ActionModel::Image(oid)),
            Seq::empty())
        } else {
            (gathered.0.push(ActionModel::Image(oid)), Seq::empty())
        },
        None => gathered,
    }
}

/// Planner state after the first `n` posts.
pub open spec fn plan_state(posts: Seq<ChatPostModel>, n: int) -> (Seq<ActionModel>, Seq<char>)
    decreases n,
{
    if n <= 0 {
        (Seq::empty(), Seq::empty())
    } else {
        step_plan(plan_state(posts, n - 1), posts[n - 1])
    }
}

/// The whole plan: every batch under way at the end is sent too.
pub open spec fn spec_plan(posts: Seq<ChatPostModel>) -> Seq<ActionModel> {
    let st = plan_state(posts, posts.len() as int);
    if st.1.len() > 0 {
        st.0.push(ActionModel::Text(st.1))
    } else {
        st.0
    }
}

/// Plans the chat replies for a search result: texts batched under the
/// message limit, images interleaved in post order.
#[verifier::loop_isolation(false)]
pub fn plan_replies(posts: &Vec<ChatPost>) -> (r: Vec<ChatAction>)
    ensures
        actions_view(r@) == spec_plan(chat_posts_view(posts@)),
{
    let ghost pm = chat_posts_view(posts@);
    let mut actions: Vec<ChatAction> = Vec::new();
    let mut current = String::new();
    let mut cur_len: usize = 0;
    let mut i: usize = 0;
    while i < posts.len()
        invariant
            i <= posts@.len(),
            cur_len == current@.len(),
            (actions_view(actions@), current@) == plan_state(pm, i as int),
        decreases posts@.len() - i,
    {
        let ghost st_old = (actions_view(actions@), current@);
        let p = &posts[i];
        let t_len = p.text.as_str().unicode_len();
        if cur_len > 0 && (t_len > CHAT_BATCH_LIMIT || cur_len > CHAT_BATCH_LIMIT - t_len) {
            actions.push(ChatAction::Text(current));
            current = String::new();
            cur_len = 0;
            proof {
                assert(actions_view(actions@) =~~= st_old.0.push(ActionModel::Text(st_old.1)));
            }
        }
        let ghost st_flushed = (actions_view(actions@), current@);
        current.append(p.text.as_str());
        cur_len = cur_len + t_len;
        proof {
            assert((actions_view(actions@), current@) == (st_flushed.0, st_flushed.1 + pm[
                i as int
            ].text));
        }
        let ghost st_gathered = (actions_view(actions@), current@);
        if let Some(oid) = p.oekaki_id {
            if cur_len > 0 {
                actions.push(ChatAction::Text(current));
                proof {
                    assert(actions_view(actions@) =~~= st_gathered.0.push(
                        ActionModel::Text(st_gathered.1),
                    ));
                }
                actions.push(ChatAction::Image(oid));
                proof {
                    assert(actions_view(actions@) =~~= st_gathered.0.push(
                        ActionModel::Text(st_gathered.1),
                    ).push(ActionModel::Image(oid)));
                }
            } else {
                actions.push(ChatAction::Image(oid));
                proof {
                    assert(actions_view(actions@) =~~= st_gathered.0.push(
                        ActionModel::Image(oid),
                    ));
                }
            }
            current = String::new();
            cur_len = 0;
        }
        i = i + 1;
        proof {
            assert((actions_view(actions@), current@) =~~= step_plan(st_old, pm[i - 1]));
            assert((actions_view(actions@), current@) == plan_state(pm, i as int));
        }
    }
    if cur_len > 0 {
        let ghost st = (actions_view(actions@), current@);
        actions.push(ChatAction::Text(current));
        proof {
            assert(actions_view(actions@) =~~= st.0.push(ActionModel::Text(st.1)));
            assert(actions_view(actions@) =~~= spec_plan(pm));
        }
        actions
    } else {
        proof {
            assert(actions_view(actions@) =~~= spec_plan(pm));
        }
        actions
    }
}

} // verus!
