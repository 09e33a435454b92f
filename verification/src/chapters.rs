use vstd::prelude::*;
use crate::domain::Chapter;
use crate::numfmt::{dec_i64_string, dec_int};
use crate::text::{
    chars_of, join, join_strings, replace_first, replace_first_chars, string_of, trim, trim_chars,
    views_of,
};

verus! {

/// The text of an edited chapter: when the title changed and the old title is not blank, the
/// first occurrence of the old title (trimmed) in the text is replaced by the new title
/// (trimmed), keeping heading and title in step.
pub open spec fn synced_text(old_title: Seq<char>, title: Seq<char>, original_text: Seq<char>) -> Seq<char> {
    if old_title != title && trim(old_title).len() > 0 {
        replace_first(original_text, trim(old_title), trim(title))
    } else {
        original_text
    }
}

pub fn sync_chapter_text(old_title: &str, title: &str, original_text: &str) -> (r: String)
    ensures
        r@ == synced_text(old_title@, title@, original_text@),
{
    let old_trimmed = trim_chars(&chars_of(old_title));
    let changed = String::from_str(old_title) != String::from_str(title);
    if changed && old_trimmed.len() > 0 {
        let new_trimmed = trim_chars(&chars_of(title));
        string_of(replace_first_chars(&chars_of(original_text), &old_trimmed, &new_trimmed).as_slice())
    } else {
        String::from_str(original_text)
    }
}

/// One line of an exported chapter list: `<index>. <title>` with the title trimmed, or
/// `第<index>章` for a blank title.
pub open spec fn directory_line(c: Chapter) -> Seq<char> {
    if trim(c.title@).len() == 0 {
        "第"@ + dec_int(c.index as int) + "章"@
    } else {
        dec_int(c.index as int) + ". "@ + trim(c.title@)
    }
}

pub open spec fn directory_text(chapters: Seq<Chapter>) -> Seq<char> {
    join(chapters.map_values(|c: Chapter| directory_line(c)), "\n"@)
}

/// The chapter list of a novel, one line per chapter.
pub fn chapter_directory_text(chapters: &Vec<Chapter>) -> (r: String)
    ensures
        r@ == directory_text(chapters@),
{
    let mut lines: Vec<String> = Vec::new();
    let mut i: usize = 0;
    while i < chapters.len()
        invariant
            i <= chapters@.len(),
            lines@.len() == i,
            forall|k: int| 0 <= k < i ==> #[trigger] lines@[k]@ == directory_line(chapters@[k]),
        decreases chapters@.len() - i,
    {
        let c = &chapters[i];
        let t = trim_chars(&chars_of(c.title.as_str()));
        let line = if t.len() == 0 {
            let mut l = String::from_str("第");
            l.append(dec_i64_string(c.index).as_str());
            l.append("章");
            l
        } else {
            let mut l = dec_i64_string(c.index);
            l.append(". ");
            l.append(string_of(t.as_slice()).as_str());
            l
        };
        lines.push(line);
        i = i + 1;
    }
    assert(views_of(lines@) =~= chapters@.map_values(|c: Chapter| directory_line(c)));
    join_strings(&lines, "\n")
}

/// The text a valid chapter is exported with: the corrected text when there is one, else
/// the original.
pub open spec fn export_body(c: Chapter) -> Seq<char> {
    match c.corrected_text {
        Some(t) => t@,
        None => c.original_text@,
    }
}

/// The exported text of the valid chapters of `chapters`, in order: title, blank line, text,
/// blank line, for each.
pub open spec fn export_text(chapters: Seq<Chapter>) -> Seq<char>
    decreases chapters.len(),
{
    if chapters.len() == 0 {
        Seq::empty()
    } else {
        let c = chapters.last();
        export_text(chapters.drop_last()) + if c.is_valid {
            c.title@ + "\n\n"@ + export_body(c) + "\n\n"@
        } else {
            Seq::empty()
        }
    }
}

pub open spec fn has_valid(chapters: Seq<Chapter>) -> bool {
    exists|i: int| 0 <= i < chapters.len() && (#[trigger] chapters[i]).is_valid
}

pub open spec fn nothing_to_export_message() -> Seq<char> {
    "没有可导出的有效章节"@
}

/// The text of an exported novel; an error when no chapter is valid.
pub fn export_content(chapters: &Vec<Chapter>) -> (r: Result<String, String>)
    ensures
        has_valid(chapters@) ==> (r matches Ok(s) && s@ == export_text(chapters@)),
        !has_valid(chapters@) ==> (r matches Err(e) && e@ == nothing_to_export_message()),
{
    let mut content = String::new();
    let mut any = false;
    let mut i: usize = 0;
    while i < chapters.len()
        invariant
            i <= chapters@.len(),
            content@ == export_text(chapters@.take(i as int)),
            any == has_valid(chapters@.take(i as int)),
        decreases chapters@.len() - i,
    {
        let c = &chapters[i];
        proof {
            assert(chapters@.take(i + 1).drop_last() =~= chapters@.take(i as int));
            assert(chapters@.take(i + 1).last() == chapters@[i as int]);
            let pre = chapters@.take(i as int);
            let post = chapters@.take(i + 1);
            if has_valid(pre) {
                let k = choose|k: int| 0 <= k < pre.len() && (#[trigger] pre[k]).is_valid;
                assert(post[k] == pre[k]);
            }
            if has_valid(post) && !chapters@[i as int].is_valid {
                let k = choose|k: int| 0 <= k < post.len() && (#[trigger] post[k]).is_valid;
                assert(pre[k] == post[k]);
            }
            if chapters@[i as int].is_valid {
                assert(post[i as int].is_valid);
            }
        }
        if c.is_valid {
            any = true;
            content.append(c.title.as_str());
            content.append("\n\n");
            match &c.corrected_text {
                Some(t) => content.append(t.as_str()),
                None => content.append(c.original_text.as_str()),
            }
            content.append("\n\n");
        }
        i = i + 1;
    }
    assert(chapters@.take(i as int) =~= chapters@);
    if !any {
        return Err(String::from_str("没有可导出的有效章节"));
    }
    Ok(content)
}

} // verus!

verus! {

/// Chapters per batch when a novel is imported.
pub const IMPORT_BATCH_SIZE: usize = 30;

/// One batch of an imported novel: its position, label and first and last chapter numbers.
#[derive(Debug)]
pub struct BatchPlan {
    pub batch_index: i64,
    pub label: String,
    pub start_chapter: i64,
    pub end_chapter: i64,
}

/// `第<first>-<last>章`: the label of a batch.
pub open spec fn batch_label(first: int, last: int) -> Seq<char> {
    "第"@ + dec_int(first) + "-"@ + dec_int(last) + "章"@
}

/// The batch over the chapter positions `range`, as batch number `k`.
pub open spec fn batch_of(chapters: Seq<Chapter>, k: int, range: (int, int)) -> (int, Seq<char>, int, int) {
    let first = chapters[range.0].index as int;
    let last = chapters[range.1 - 1].index as int;
    (k, batch_label(first, last), first, last)
}

pub open spec fn plan_view(p: BatchPlan) -> (int, Seq<char>, int, int) {
    (p.batch_index as int, p.label@, p.start_chapter as int, p.end_chapter as int)
}

/// The batches of an imported novel: its chapters in runs of thirty, numbered from zero.
pub fn plan_chapter_batches(chapters: &[Chapter]) -> (r: Vec<BatchPlan>)
    requires
        chapters@.len() <= i64::MAX,
    ensures
        r@.len() == crate::jobs::chunk_ranges(chapters@.len() as int, IMPORT_BATCH_SIZE as int).len(),
        forall|k: int| 0 <= k < r@.len() ==> plan_view(#[trigger] r@[k]) == batch_of(chapters@, k, crate::jobs::chunk_ranges(chapters@.len() as int, IMPORT_BATCH_SIZE as int)[k]),
{
    let ranges = crate::jobs::plan_chunks(chapters.len(), IMPORT_BATCH_SIZE);
    let ghost rv = crate::jobs::range_views(ranges@);
    proof {
        crate::jobs::lemma_chunks_tile(0, chapters@.len() as int, IMPORT_BATCH_SIZE as int);
        crate::jobs::lemma_tiles_ordered(rv, 0, chapters@.len() as int);
        lemma_tiles_within(rv, 0, chapters@.len() as int);
    }
    let mut out: Vec<BatchPlan> = Vec::new();
    let mut k: usize = 0;
    while k < ranges.len()
        invariant
            k <= ranges@.len(),
            rv == crate::jobs::range_views(ranges@),
            rv == crate::jobs::chunk_ranges(chapters@.len() as int, IMPORT_BATCH_SIZE as int),
            chapters@.len() <= i64::MAX,
            rv.len() <= chapters@.len(),
            forall|j: int| 0 <= j < rv.len() ==> 0 <= (#[trigger] rv[j]).0 < rv[j].1 <= chapters@.len(),
            out@.len() == k,
            forall|j: int| 0 <= j < k ==> plan_view(#[trigger] out@[j]) == batch_of(chapters@, j, rv[j]),
        decreases ranges@.len() - k,
    {
        let (s, e) = ranges[k];
        assert(rv[k as int] == (s as int, e as int));
        let first = chapters[s].index;
        let last = chapters[e - 1].index;
        let mut label = String::from_str("第");
        label.append(dec_i64_string(first).as_str());
        label.append("-");
        label.append(dec_i64_string(last).as_str());
        label.append("章");
        assert(k < rv.len() <= chapters@.len());
        out.push(BatchPlan { batch_index: k as i64, label, start_chapter: first, end_chapter: last });
        k = k + 1;
    }
    out
}

proof fn lemma_tiles_within(r: Seq<(int, int)>, from: int, to: int)
    requires
        crate::jobs::tiles(r, from, to),
        0 <= from,
    ensures
        forall|j: int| 0 <= j < r.len() ==> from <= (#[trigger] r[j]).0 && r[j].1 <= to,
        r.len() <= to - from,
    decreases r.len(),
{
    if r.len() > 0 {
        crate::jobs::lemma_tiles_ordered(r, from, to);
        lemma_tiles_within(r.drop_first(), r[0].1, to);
        assert forall|j: int| 0 <= j < r.len() implies from <= (#[trigger] r[j]).0 && r[j].1 <= to by {
            if j > 0 {
                assert(r[j] == r.drop_first()[j - 1]);
            }
        }
    }
}

} // verus!

verus! {

proof fn lemma_export_concat(a: Seq<Chapter>, b: Seq<Chapter>)
    ensures
        export_text(a + b) == export_text(a) + export_text(b),
    decreases b.len(),
{
    if b.len() == 0 {
        assert(a + b =~= a);
        assert(export_text(a) + Seq::<char>::empty() =~= export_text(a));
    } else {
        lemma_export_concat(a, b.drop_last());
        assert((a + b).drop_last() =~= a + b.drop_last());
        assert((a + b).last() == b.last());
        assert(export_text(a + b) =~= export_text(a) + export_text(b));
    }
}

/// The export is built chapter by chapter: a chapter placed anywhere adds its title, a blank
/// line, its corrected (else original) text and a blank line when it is valid, and nothing at
/// all when it is not, whatever correction it carries.
pub proof fn law_export_takes_valid_chapters(before: Seq<Chapter>, c: Chapter, after: Seq<Chapter>)
    ensures
        c.is_valid ==> export_text(before + seq![c] + after) == export_text(before) + (c.title@
            + "\n\n"@ + match c.corrected_text {
            Some(t) => t@,
            None => c.original_text@,
        } + "\n\n"@) + export_text(after),
        !c.is_valid ==> export_text(before + seq![c] + after) == export_text(before + after),
{
    lemma_export_concat(before + seq![c], after);
    lemma_export_concat(before, seq![c]);
    lemma_export_concat(before, after);
    let one = seq![c];
    assert(one.drop_last() =~= Seq::<Chapter>::empty());
    assert(export_text(one) == export_text(one.drop_last()) + if c.is_valid {
        c.title@ + "\n\n"@ + export_body(c) + "\n\n"@
    } else {
        Seq::<char>::empty()
    });
    if !c.is_valid {
        assert(export_text(before) + Seq::<char>::empty() =~= export_text(before));
    } else {
        assert(Seq::<char>::empty() + (c.title@ + "\n\n"@ + export_body(c) + "\n\n"@) =~= c.title@
            + "\n\n"@ + export_body(c) + "\n\n"@);
    }
}

} // verus!
