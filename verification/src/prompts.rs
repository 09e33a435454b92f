use vstd::prelude::*;
use crate::domain::Chapter;
use crate::numfmt::{dec_i64_string, dec_int};
use crate::text::{join, join_strings, views_of};

verus! {

/// The instructions that precede the chapter list of a validation prompt.
pub const VALIDATION_PROMPT_HEAD: &'static str = "你是一位小说目录分析专家。请分析以下从TXT小说中识别出的章节目录，判断每个章节标题是否合理。\n\n判断标准：\n- \"第X章\"、\"第X节\"、\"Chapter X\"、\"序章\"、\"楔子\"等格式 → 有效\n- 纯数字如\"12345\" → 无效\n- 正文句子被误识别为标题（如\"第九场赢了\"夹在第25章和第26章之间）→ 无效\n- 作者笔记、更新通知、广告标题 → 无效\n- 标题过长（超过30字）很可能是正文 → 无效\n\n请严格按顺序输出JSON数组，每个元素对应一个章节（序号从1开始）：\n[\n  {\"is_valid\": true或false, \"reason\": \"简要原因\"}\n]\n\n注意：reason尽量简短（10字以内），不要输出多余文字。\n\n章节列表：\n";

/// The instructions that precede the chapters of a review prompt.
pub const REVIEW_PROMPT_HEAD: &'static str = "你是一位专业的小说编辑和校对员。请审查以下章节，修正错别字、删除无关内容（作者笔记、广告等）、修复语法问题。\n\n输出修正后的章节，格式：\n<<<CHAPTER_START index=N>>>\n修正后的章节正文\n<<<CHAPTER_END index=N>>>\n\n待审查章节：\n";

/// The system message of a validation request.
pub const VALIDATION_SYSTEM_PROMPT: &'static str = "你是一位小说目录分析专家。按JSON数组格式输出，每个元素只有is_valid和reason两个字段。只输出JSON，不要其他文字。";

/// The system message of a review request.
pub const REVIEW_SYSTEM_PROMPT: &'static str = "你是一位专业的小说编辑和校对员，专注于修正错别字、删除无关内容和修复语法问题。";

/// How many characters of a chapter a review prompt carries.
pub const REVIEW_CHAPTER_CHARS: usize = 15000;

/// The first `max_chars` characters of `text`, followed by `...` when text was cut off.
pub open spec fn truncated(text: Seq<char>, max_chars: nat) -> Seq<char> {
    if text.len() > max_chars {
        text.take(max_chars as int) + "..."@
    } else {
        text
    }
}

pub fn truncate_text(text: &str, max_chars: usize) -> (r: String)
    ensures
        r@ == truncated(text@, max_chars as nat),
{
    let n = text.unicode_len();
    if n > max_chars {
        let mut out = String::from_str(text.substring_char(0, max_chars));
        out.append("...");
        out
    } else {
        String::from_str(text)
    }
}

/// `<index>. <title>`: one line of the chapter list of a validation prompt.
pub open spec fn validation_line(c: Chapter) -> Seq<char> {
    dec_int(c.index as int) + ". "@ + c.title@
}

/// `=== 章节 <index> : <title> ===`, a new line, then the chapter text cut to the review
/// limit.
pub open spec fn review_block(c: Chapter) -> Seq<char> {
    "=== 章节 "@ + dec_int(c.index as int) + " : "@ + c.title@ + " ===\n"@ + truncated(
        c.original_text@,
        REVIEW_CHAPTER_CHARS as nat,
    )
}

pub open spec fn validation_prompt(chapters: Seq<Chapter>) -> Seq<char> {
    VALIDATION_PROMPT_HEAD@ + join(chapters.map_values(|c: Chapter| validation_line(c)), "\n"@)
}

pub open spec fn review_prompt(chapters: Seq<Chapter>) -> Seq<char> {
    REVIEW_PROMPT_HEAD@ + join(chapters.map_values(|c: Chapter| review_block(c)), "\n\n"@)
}

/// The prompt that asks a model whether each chapter title is a real heading.
pub fn build_batch_validation_prompt(chapters: &[Chapter]) -> (r: String)
    ensures
        r@ == validation_prompt(chapters@),
{
    let mut lines: Vec<String> = Vec::new();
    let mut i: usize = 0;
    while i < chapters.len()
        invariant
            i <= chapters@.len(),
            lines@.len() == i,
            views_of(lines@) == chapters@.take(i as int).map_values(|c: Chapter| validation_line(c)),
        decreases chapters@.len() - i,
    {
        let c = &chapters[i];
        let mut line = dec_i64_string(c.index);
        line.append(". ");
        line.append(c.title.as_str());
        assert(line@ == validation_line(chapters@[i as int]));
        let ghost before = lines@;
        lines.push(line);
        i = i + 1;
        proof {
            let want = chapters@.take(i as int).map_values(|c: Chapter| validation_line(c));
            let prev = chapters@.take(i - 1).map_values(|c: Chapter| validation_line(c));
            assert(views_of(lines@).len() == want.len());
            assert forall|k: int| 0 <= k < i implies #[trigger] views_of(lines@)[k] == want[k] by {
                assert(want[k] == validation_line(chapters@[k]));
                assert(views_of(lines@)[k] == lines@[k]@);
                if k < i - 1 {
                    assert(lines@[k] == before[k]);
                    assert(views_of(before)[k] == before[k]@);
                    assert(views_of(before)[k] == prev[k]);
                    assert(prev[k] == validation_line(chapters@[k]));
                }
            }
            assert(views_of(lines@) =~= want);
        }
    }
    assert(chapters@.take(i as int) =~= chapters@);
    let mut out = String::from_str(VALIDATION_PROMPT_HEAD);
    out.append(join_strings(&lines, "\n").as_str());
    out
}

/// The prompt that asks a model to correct the chapters and return them between markers.
pub fn build_batch_review_prompt(chapters: &[Chapter]) -> (r: String)
    ensures
        r@ == review_prompt(chapters@),
{
    let mut blocks: Vec<String> = Vec::new();
    let mut i: usize = 0;
    while i < chapters.len()
        invariant
            i <= chapters@.len(),
            blocks@.len() == i,
            views_of(blocks@) == chapters@.take(i as int).map_values(|c: Chapter| review_block(c)),
        decreases chapters@.len() - i,
    {
        let c = &chapters[i];
        let mut block = String::from_str("=== 章节 ");
        block.append(dec_i64_string(c.index).as_str());
        block.append(" : ");
        block.append(c.title.as_str());
        block.append(" ===\n");
        block.append(truncate_text(c.original_text.as_str(), REVIEW_CHAPTER_CHARS).as_str());
        assert(block@ == review_block(chapters@[i as int]));
        let ghost before = blocks@;
        blocks.push(block);
        i = i + 1;
        proof {
            let want = chapters@.take(i as int).map_values(|c: Chapter| review_block(c));
            let prev = chapters@.take(i - 1).map_values(|c: Chapter| review_block(c));
            assert(views_of(blocks@).len() == want.len());
            assert forall|k: int| 0 <= k < i implies #[trigger] views_of(blocks@)[k] == want[k] by {
                assert(want[k] == review_block(chapters@[k]));
                assert(views_of(blocks@)[k] == blocks@[k]@);
                if k < i - 1 {
                    assert(blocks@[k] == before[k]);
                    assert(views_of(before)[k] == before[k]@);
                    assert(views_of(before)[k] == prev[k]);
                    assert(prev[k] == review_block(chapters@[k]));
                }
            }
            assert(views_of(blocks@) =~= want);
        }
    }
    assert(chapters@.take(i as int) =~= chapters@);
    let mut out = String::from_str(REVIEW_PROMPT_HEAD);
    out.append(join_strings(&blocks, "\n\n").as_str());
    out
}

} // verus!
