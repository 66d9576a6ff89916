//! The size of tool results: large ones are saved by the host and shown as a preview,
//! the others are capped.

use vstd::prelude::*;

use crate::text::{
    byte_len, clip, clipped, contains, decimal, decimal_string, lemma_clipped, occurs_at,
};
use crate::types::{blocks, Content, ContentView, ToolResult, ToolResultView};

verus! {

/// The greatest number of bytes of a preview that is shown.
pub const PREVIEW_CAP: usize = 4_000;

/// Text that the host is asked to save.
#[derive(Debug, PartialEq, Eq)]
pub struct SpillRequest {
    pub key: String,
    pub text: String,
}

/// Where the host saved a text.
#[derive(Debug, PartialEq, Eq)]
pub struct SpillRef {
    pub path: String,
    pub size_bytes: u64,
    pub preview: String,
}

/// The texts of the blocks, with line breaks between them: none stands before the
/// first text that is not empty.
pub open spec fn merged_text(content: Seq<ContentView>) -> Seq<char>
    decreases content.len(),
{
    if content.len() == 0 {
        Seq::empty()
    } else {
        let before = merged_text(content.drop_last());
        match content.last() {
            ContentView::Text(text) => if before.len() == 0 {
                text
            } else {
                before.push('\n') + text
            },
            ContentView::Other(_) => before,
        }
    }
}

/// The texts of the blocks as one text.
pub fn merge_text_blocks(content: &Vec<Content>) -> (r: String)
    ensures
        r@ == merged_text(blocks(content@)),
{
    let mut merged: String = String::new();
    let mut i: usize = 0;
    let ghost all = blocks(content@);
    while i < content.len()
        invariant
            i <= content.len(),
            all == blocks(content@),
            merged@ == merged_text(all.take(i as int)),
        decreases content.len() - i,
    {
        proof {
            assert(all.take(i + 1).drop_last() =~= all.take(i as int));
            assert(all.take(i + 1).last() == content@[i as int]@);
        }
        if let Content::Text { text } = &content[i] {
            if !merged.as_str().is_empty() {
                merged.push('\n');
            }
            merged.append(text.as_str());
            proof {
                assert(merged@ =~= merged_text(all.take(i + 1)));
            }
        }
        i = i + 1;
    }
    proof {
        assert(all.take(i as int) =~= all);
    }
    merged
}

/// The blocks that are not text, in order.
pub open spec fn other_blocks(content: Seq<ContentView>) -> Seq<ContentView>
    decreases content.len(),
{
    if content.len() == 0 {
        Seq::empty()
    } else {
        let before = other_blocks(content.drop_last());
        match content.last() {
            ContentView::Text(_) => before,
            ContentView::Other(_) => before.push(content.last()),
        }
    }
}

/// What stands in a result for text that was saved.
pub open spec fn spill_notice(path: Seq<char>, size_bytes: u64, preview: Seq<char>) -> Seq<char> {
    "Tool output was too large ("@ + decimal(size_bytes as nat)
        + " bytes) and was saved to:\n"@ + path
        + "\n\nOnly a preview is shown below. Use read_file with offset/limit to read the full output.\n\nPreview:\n"@
        + clipped(preview, PREVIEW_CAP as int)
}

/// A result whose text was saved: the notice in place of its texts, then its other blocks.
pub open spec fn spilled_result(
    result: ToolResultView,
    path: Seq<char>,
    size_bytes: u64,
    preview: Seq<char>,
) -> ToolResultView {
    ToolResultView {
        content: seq![ContentView::Text(spill_notice(path, size_bytes, preview))] + other_blocks(
            result.content,
        ),
        details: result.details,
        retention: result.retention,
    }
}

/// The result that refers to the saved text.
pub fn build_spilled_result(result: ToolResult, spill_ref: SpillRef) -> (r: ToolResult)
    ensures
        r@ == spilled_result(
            result@,
            spill_ref.path@,
            spill_ref.size_bytes,
            spill_ref.preview@,
        ),
{
    let preview: &str = clip(spill_ref.preview.as_str(), PREVIEW_CAP);
    let size: String = decimal_string(spill_ref.size_bytes);
    let mut msg: String = "Tool output was too large (".to_string();
    msg.append(size.as_str());
    msg.append(" bytes) and was saved to:\n");
    msg.append(spill_ref.path.as_str());
    msg.append(
        "\n\nOnly a preview is shown below. Use read_file with offset/limit to read the full output.\n\nPreview:\n",
    );
    msg.append(preview);
    let ghost notice = spill_notice(spill_ref.path@, spill_ref.size_bytes, spill_ref.preview@);
    assert(msg@ == notice);

    let mut content: Vec<Content> = Vec::new();
    content.push(Content::Text { text: msg });
    let ghost all = blocks(result.content@);
    let mut i: usize = 0;
    proof {
        assert(blocks(content@) =~= seq![ContentView::Text(notice)] + other_blocks(all.take(0)));
    }
    while i < result.content.len()
        invariant
            i <= result.content.len(),
            all == blocks(result.content@),
            blocks(content@) == seq![ContentView::Text(notice)] + other_blocks(all.take(i as int)),
        decreases result.content.len() - i,
    {
        proof {
            assert(all.take(i + 1).drop_last() =~= all.take(i as int));
            assert(all.take(i + 1).last() == result.content@[i as int]@);
        }
        let is_text: bool = match &result.content[i] {
            Content::Text { .. } => true,
            Content::Other { .. } => false,
        };
        if !is_text {
            let block: Content = result.content[i].copy();
            proof {
                assert(blocks(content@.push(block)) =~= blocks(content@).push(block@));
                assert((seq![ContentView::Text(notice)] + other_blocks(all.take(i as int))).push(
                    block@,
                ) =~= seq![ContentView::Text(notice)] + other_blocks(all.take(i + 1)));
            }
            content.push(block);
        }
        i = i + 1;
    }
    proof {
        assert(all.take(i as int) =~= all);
    }
    ToolResult { content, details: result.details, retention: result.retention }
}

/// The result with its content as the host capped it.
pub fn truncate_result(result: ToolResult, capped: Vec<Content>) -> (r: ToolResult)
    ensures
        r.content == capped,
        r.details == result.details,
        r.retention == result.retention,
{
    ToolResult { content: capped, details: result.details, retention: result.retention }
}

/// What happens next to a result.
#[derive(Debug, PartialEq, Eq)]
pub enum ResultStep {
    /// The host caps the content.
    Truncate(ToolResult),
    /// The result stays as it is.
    Keep(ToolResult),
    /// The host saves the text.
    Spill { request: SpillRequest, result: ToolResult },
}

/// How a fresh result is treated: an error, or any result of a host that saves nothing,
/// is capped; one without text stays; the text of any other is offered for saving.
pub fn process_result(
    can_spill: bool,
    tool_call_id: &str,
    result: ToolResult,
    is_error: bool,
) -> (r: ResultStep)
    ensures
        (is_error || !can_spill) ==> r == ResultStep::Truncate(result),
        !is_error && can_spill && merged_text(result@.content).len() == 0 ==> r
            == ResultStep::Keep(result),
        !is_error && can_spill && merged_text(result@.content).len() > 0 ==> (r matches
            ResultStep::Spill { request, result: kept } && kept == result && request.key@
            == tool_call_id@ && request.text@ == merged_text(result@.content)),
{
    if is_error {
        return ResultStep::Truncate(result);
    }
    if !can_spill {
        return ResultStep::Truncate(result);
    }
    let text: String = merge_text_blocks(&result.content);
    if text.as_str().is_empty() {
        return ResultStep::Keep(result);
    }
    ResultStep::Spill {
        request: SpillRequest { key: tool_call_id.to_string(), text },
        result,
    }
}

/// How a result is treated once its text was offered for saving: where the host saved
/// it, the result refers to the saved text; where it declined or failed, it is capped.
pub fn settle_spill(result: ToolResult, saved: Option<SpillRef>) -> (r: ResultStep)
    ensures
        match saved {
            Some(spill_ref) => r matches ResultStep::Keep(kept) && kept@ == spilled_result(
                result@,
                spill_ref.path@,
                spill_ref.size_bytes,
                spill_ref.preview@,
            ),
            None => r == ResultStep::Truncate(result),
        },
{
    match saved {
        Some(spill_ref) => ResultStep::Keep(build_spilled_result(result, spill_ref)),
        None => ResultStep::Truncate(result),
    }
}

proof fn lemma_contains_within(before: Seq<char>, s: Seq<char>, after: Seq<char>, part: Seq<char>)
    requires
        contains(s, part),
    ensures
        contains(before + s + after, part),
{
    let i = choose|i: int| occurs_at(s, part, i);
    let whole = before + s + after;
    let at = before.len() + i;
    assert(whole.subrange(at, at + part.len()) =~= s.subrange(i, i + part.len()));
    assert(occurs_at(whole, part, at));
}

/// The merged text of a result holds the text of each of its blocks.
pub proof fn law_merged_text_is_complete(content: Seq<ContentView>, i: int)
    requires
        0 <= i < content.len(),
        content[i] is Text,
    ensures
        contains(merged_text(content), content[i]->Text_0),
    decreases content.len(),
{
    let before = merged_text(content.drop_last());
    let part = content[i]->Text_0;
    let none = Seq::<char>::empty();
    if i == content.len() - 1 {
        assert(occurs_at(part, part, 0)) by {
            assert(part.subrange(0, part.len() as int) =~= part);
        }
        lemma_contains_within(before.push('\n'), part, none, part);
        assert(before.push('\n') + part + none =~= before.push('\n') + part);
    } else {
        assert(content.drop_last()[i] == content[i]);
        law_merged_text_is_complete(content.drop_last(), i);
        match content.last() {
            ContentView::Text(text) => {
                lemma_contains_within(none, before, seq!['\n'] + text, part);
                assert(none + before + (seq!['\n'] + text) =~= before.push('\n') + text);
                if before.len() == 0 {
                    assert(part.len() == 0);
                    assert(occurs_at(text, part, 0)) by {
                        assert(text.subrange(0, 0) =~= part);
                    }
                }
            },
            ContentView::Other(_) => {},
        }
    }
}

proof fn lemma_other_blocks(content: Seq<ContentView>)
    ensures
        other_blocks(content).len() <= content.len(),
        forall|i: int|
            0 <= i < other_blocks(content).len() ==> (#[trigger] other_blocks(content)[i]) is Other,
    decreases content.len(),
{
    if content.len() > 0 {
        lemma_other_blocks(content.drop_last());
    }
}

proof fn lemma_other_blocks_of_others(head: Seq<char>, others: Seq<ContentView>)
    requires
        forall|i: int| 0 <= i < others.len() ==> (#[trigger] others[i]) is Other,
    ensures
        other_blocks(seq![ContentView::Text(head)] + others) == others,
    decreases others.len(),
{
    let all = seq![ContentView::Text(head)] + others;
    if others.len() == 0 {
        assert(all.drop_last() =~= Seq::empty());
        assert(other_blocks(all.drop_last()) =~= Seq::empty());
        assert(other_blocks(all) =~= others);
    } else {
        assert(all.drop_last() =~= seq![ContentView::Text(head)] + others.drop_last());
        assert(all.last() == others.last());
        assert(others.last() is Other);
        lemma_other_blocks_of_others(head, others.drop_last());
        assert(other_blocks(all) =~= others);
    }
}

/// A result whose text was saved has one block of text, the notice, and that stands
/// first; it keeps its other blocks in their order, its details and its retention. The
/// notice ends in a prefix of the preview that is within the cap.
pub proof fn law_spilled_result(
    result: ToolResultView,
    path: Seq<char>,
    size_bytes: u64,
    preview: Seq<char>,
)
    ensures
        ({
            let spilled = spilled_result(result, path, size_bytes, preview);
            let shown = clipped(preview, PREVIEW_CAP as int);
            &&& spilled.content.len() >= 1
            &&& spilled.content[0] == ContentView::Text(spill_notice(path, size_bytes, preview))
            &&& forall|i: int|
                1 <= i < spilled.content.len() ==> (#[trigger] spilled.content[i]) is Other
            &&& other_blocks(spilled.content) == other_blocks(result.content)
            &&& spilled.details == result.details
            &&& spilled.retention == result.retention
            &&& shown.is_suffix_of(spill_notice(path, size_bytes, preview))
            &&& shown.is_prefix_of(preview)
            &&& byte_len(shown) <= PREVIEW_CAP
            &&& byte_len(preview) <= PREVIEW_CAP ==> shown == preview
        }),
{
    let spilled = spilled_result(result, path, size_bytes, preview);
    let others = other_blocks(result.content);
    let notice = spill_notice(path, size_bytes, preview);
    let shown = clipped(preview, PREVIEW_CAP as int);
    lemma_other_blocks(result.content);
    lemma_other_blocks_of_others(notice, others);
    lemma_clipped(preview, PREVIEW_CAP as int);
    assert forall|i: int| 1 <= i < spilled.content.len() implies (
    #[trigger] spilled.content[i]) is Other by {
        assert(spilled.content[i] == others[i - 1]);
    }
    assert(notice.subrange(notice.len() - shown.len(), notice.len() as int) =~= shown);
}

} // verus!
