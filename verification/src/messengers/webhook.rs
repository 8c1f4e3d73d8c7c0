//! Generic webhook decisions: the JSON posted for a message and the id
//! reported for it.
use vstd::prelude::*;
use crate::json::{i64_value, i64_view, jview, object3, str_value, Json, JsonView};
use crate::number::{decimal_int, i64_to_string};

verus! {

/// The body posted for a message: recipient, content and the Unix time.
pub open spec fn webhook_body_view(recipient: Seq<char>, content: Seq<char>, now_s: i64) -> JsonView {
    JsonView::Object(
        seq![
            ("recipient"@, JsonView::Str(recipient)),
            ("content"@, JsonView::Str(content)),
            ("timestamp"@, i64_view(now_s)),
        ],
    )
}

/// Builds the body posted for a message sent at `now_s`.
pub fn webhook_body(recipient: &str, content: &str, now_s: i64) -> (j: Json)
    ensures
        jview(j) == webhook_body_view(recipient@, content@, now_s),
{
    object3(
        "recipient",
        str_value(recipient),
        "content",
        str_value(content),
        "timestamp",
        i64_value(now_s),
    )
}

/// The id reported for a post sent at `now_ms`.
pub fn sent_id(now_ms: i64) -> (id: String)
    ensures
        id@ == "webhook:"@ + decimal_int(now_ms as int),
{
    let mut id = "webhook:".to_owned();
    id.append(i64_to_string(now_ms).as_str());
    id
}

} // verus!
