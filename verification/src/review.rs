use vstd::prelude::*;
use crate::domain::Chapter;
use crate::numfmt::{dec_i64_string, dec_int};
use crate::text::{
    find, lemma_find_from_extend, lemma_find_from_shift,
    chars_of, find_chars_from, find_from, lemma_find_from_facts, slice_chars, string_of, trim,
    trim_chars,
};

verus! {

/// `<<<CHAPTER_START index=<index>>>>`: where the corrected text of a chapter begins.
pub open spec fn start_marker(index: int) -> Seq<char> {
    "<<<CHAPTER_START index="@ + dec_int(index) + ">>>"@
}

/// `<<<CHAPTER_END index=<index>>>>`: where the corrected text of a chapter ends.
pub open spec fn end_marker(index: int) -> Seq<char> {
    "<<<CHAPTER_END index="@ + dec_int(index) + ">>>"@
}

pub open spec fn missing_start_message(index: int) -> Seq<char> {
    "AI输出缺少章节"@ + dec_int(index) + "的开始标记"@
}

pub open spec fn missing_end_message(index: int) -> Seq<char> {
    "AI输出缺少章节"@ + dec_int(index) + "的结束标记"@
}

/// Reads the corrected chapters from a review answer, from position `pos` on: for each
/// chapter in turn, the first start marker, then the first end marker after it; the text
/// between them, trimmed, is the chapter's correction, and the search goes on after the end
/// marker.
pub open spec fn review_parse_from(s: Seq<char>, pos: int, chapters: Seq<Chapter>) -> Result<
    Seq<(Seq<char>, Seq<char>)>,
    Seq<char>,
>
    decreases chapters.len(),
{
    if chapters.len() == 0 {
        Ok(Seq::empty())
    } else {
        let c = chapters[0];
        let sm = start_marker(c.index as int);
        let em = end_marker(c.index as int);
        match find_from(s, sm, pos) {
            None => Err(missing_start_message(c.index as int)),
            Some(a) => match find_from(s, em, a + sm.len()) {
                None => Err(missing_end_message(c.index as int)),
                Some(e) => match review_parse_from(s, e + em.len(), chapters.drop_first()) {
                    Ok(rest) => Ok(seq![(c.id@, trim(s.subrange(a + sm.len(), e)))] + rest),
                    Err(m) => Err(m),
                },
            },
        }
    }
}

/// The corrections a review answer carries: the chapter id and the corrected text of each
/// expected chapter, in order; or the message for the first marker that is missing.
pub open spec fn review_parse(output: Seq<char>, chapters: Seq<Chapter>) -> Result<
    Seq<(Seq<char>, Seq<char>)>,
    Seq<char>,
> {
    review_parse_from(output, 0, chapters)
}

pub open spec fn pair_views(v: Seq<(String, String)>) -> Seq<(Seq<char>, Seq<char>)> {
    v.map_values(|p: (String, String)| (p.0@, p.1@))
}

pub open spec fn prepend_ok(
    done: Seq<(Seq<char>, Seq<char>)>,
    r: Result<Seq<(Seq<char>, Seq<char>)>, Seq<char>>,
) -> Result<Seq<(Seq<char>, Seq<char>)>, Seq<char>> {
    match r {
        Ok(rest) => Ok(done + rest),
        Err(m) => Err(m),
    }
}

fn start_marker_chars(index: i64) -> (r: Vec<char>)
    ensures
        r@ == start_marker(index as int),
{
    let mut s = String::from_str("<<<CHAPTER_START index=");
    s.append(dec_i64_string(index).as_str());
    s.append(">>>");
    chars_of(s.as_str())
}

fn end_marker_chars(index: i64) -> (r: Vec<char>)
    ensures
        r@ == end_marker(index as int),
{
    let mut s = String::from_str("<<<CHAPTER_END index=");
    s.append(dec_i64_string(index).as_str());
    s.append(">>>");
    chars_of(s.as_str())
}

fn missing_marker_message(index: i64, start: bool) -> (r: String)
    ensures
        start ==> r@ == missing_start_message(index as int),
        !start ==> r@ == missing_end_message(index as int),
{
    let mut s = String::from_str("AI输出缺少章节");
    s.append(dec_i64_string(index).as_str());
    if start {
        s.append("的开始标记");
    } else {
        s.append("的结束标记");
    }
    s
}

/// Reads the corrected text of each expected chapter from a review answer.
pub fn parse_review_output(output: &str, expected_chapters: &[Chapter]) -> (r: Result<
    Vec<(String, String)>,
    String,
>)
    ensures
        match review_parse(output@, expected_chapters@) {
            Ok(v) => r matches Ok(res) && pair_views(res@) == v,
            Err(m) => r matches Err(e) && e@ == m,
        },
{
    let s = chars_of(output);
    let mut results: Vec<(String, String)> = Vec::new();
    let mut pos: usize = 0;
    let mut i: usize = 0;
    proof {
        assert(expected_chapters@.skip(0) =~= expected_chapters@);
        assert(pair_views(results@) =~= Seq::<(Seq<char>, Seq<char>)>::empty());
        assert(Seq::<(Seq<char>, Seq<char>)>::empty() + Seq::empty() =~= Seq::<(Seq<char>, Seq<char>)>::empty());
    }
    while i < expected_chapters.len()
        invariant
            i <= expected_chapters@.len(),
            pos <= s@.len(),
            s@ == output@,
            review_parse(output@, expected_chapters@) == prepend_ok(
                pair_views(results@),
                review_parse_from(s@, pos as int, expected_chapters@.skip(i as int)),
            ),
        decreases expected_chapters@.len() - i,
    {
        let c = &expected_chapters[i];
        let ghost rest = expected_chapters@.skip(i as int);
        assert(rest[0] == expected_chapters@[i as int]);
        assert(rest.drop_first() =~= expected_chapters@.skip(i + 1));
        let sm = start_marker_chars(c.index);
        let em = end_marker_chars(c.index);
        let a = match find_chars_from(&s, &sm, pos) {
            None => {
                return Err(missing_marker_message(c.index, true));
            },
            Some(a) => a,
        };
        proof {
            lemma_find_from_facts(s@, sm@, pos as int);
            assert(crate::text::occurs_at(s@, sm@, a as int));
        }
        assert(a + sm@.len() <= s@.len());
        assert(s@.len() == s.len());
        let b = a + sm.len();
        let e = match find_chars_from(&s, &em, b) {
            None => {
                return Err(missing_marker_message(c.index, false));
            },
            Some(e) => e,
        };
        proof {
            lemma_find_from_facts(s@, em@, b as int);
            assert(crate::text::occurs_at(s@, em@, e as int));
        }
        assert(e + em@.len() <= s@.len());
        let corrected = string_of(trim_chars(&slice_chars(&s, b, e)).as_slice());
        let ghost done = pair_views(results@);
        results.push((c.id.clone(), corrected));
        proof {
            assert(pair_views(results@) =~= done + seq![(c.id@, trim(s@.subrange(b as int, e as int)))]);
            match review_parse_from(s@, e + em@.len(), rest.drop_first()) {
                Ok(tail) => {
                    assert(done + (seq![(c.id@, trim(s@.subrange(b as int, e as int)))] + tail)
                        =~= pair_views(results@) + tail);
                },
                Err(m) => {},
            }
        }
        pos = e + em.len();
        i = i + 1;
    }
    proof {
        assert(pair_views(results@) + Seq::empty() =~= pair_views(results@));
    }
    Ok(results)
}

} // verus!

verus! {

/// A review answer in the requested format: for each chapter, its start marker, its
/// corrected text and its end marker.
pub open spec fn review_reply(chapters: Seq<Chapter>, texts: Seq<Seq<char>>) -> Seq<char>
    decreases chapters.len(),
{
    if chapters.len() == 0 || texts.len() == 0 {
        Seq::empty()
    } else {
        start_marker(chapters[0].index as int) + texts[0] + end_marker(chapters[0].index as int)
            + review_reply(chapters.drop_first(), texts.drop_first())
    }
}

/// No text holds its chapter's end marker before the marker that closes it.
pub open spec fn texts_keep_markers(chapters: Seq<Chapter>, texts: Seq<Seq<char>>) -> bool {
    forall|k: int|
        0 <= k < chapters.len() ==> find(
            #[trigger] texts[k] + end_marker(chapters[k].index as int),
            end_marker(chapters[k].index as int),
        ) == Some(texts[k].len() as int)
}

pub open spec fn expected_corrections(chapters: Seq<Chapter>, texts: Seq<Seq<char>>) -> Seq<(Seq<char>, Seq<char>)> {
    Seq::new(chapters.len(), |k: int| (chapters[k].id@, trim(texts[k])))
}

proof fn lemma_reply_parses(p: Seq<char>, chapters: Seq<Chapter>, texts: Seq<Seq<char>>)
    requires
        texts.len() == chapters.len(),
        texts_keep_markers(chapters, texts),
    ensures
        review_parse_from(p + review_reply(chapters, texts), p.len() as int, chapters) == Ok::<
            Seq<(Seq<char>, Seq<char>)>,
            Seq<char>,
        >(expected_corrections(chapters, texts)),
    decreases chapters.len(),
{
    if chapters.len() == 0 {
        assert(expected_corrections(chapters, texts) =~= Seq::<(Seq<char>, Seq<char>)>::empty());
    } else {
        let c = chapters[0];
        let t = texts[0];
        let sm = start_marker(c.index as int);
        let em = end_marker(c.index as int);
        let tail = review_reply(chapters.drop_first(), texts.drop_first());
        let s = p + review_reply(chapters, texts);
        assert(s =~= p + (sm + (t + em + tail)));
        // The start marker opens the remaining answer.
        lemma_find_from_shift(p, sm + (t + em + tail), sm, 0);
        assert((sm + (t + em + tail)).subrange(0, sm.len() as int) =~= sm);
        assert(find_from(sm + (t + em + tail), sm, 0) == Some(0int));
        assert(find_from(s, sm, p.len() as int) == Some(p.len() as int));
        // The end marker follows the text.
        let b: int = (p.len() + sm.len()) as int;
        assert(s =~= (p + sm) + ((t + em) + tail));
        lemma_find_from_shift(p + sm, (t + em) + tail, em, 0);
        lemma_find_from_extend(t + em, tail, em, 0);
        assert(find_from(s, em, b) == Some(b + t.len() as int));
        assert(s.subrange(b, b + t.len() as int) =~= t);
        // The rest of the answer holds the other chapters.
        let p2 = p + sm + t + em;
        assert(s =~= p2 + tail);
        assert forall|k: int| 0 <= k < chapters.drop_first().len() implies find(
            #[trigger] texts.drop_first()[k] + end_marker(chapters.drop_first()[k].index as int),
            end_marker(chapters.drop_first()[k].index as int),
        ) == Some(texts.drop_first()[k].len() as int) by {
            assert(texts.drop_first()[k] == texts[k + 1]);
            assert(chapters.drop_first()[k] == chapters[k + 1]);
        }
        lemma_reply_parses(p2, chapters.drop_first(), texts.drop_first());
        assert(b + t.len() + em.len() == p2.len());
        assert(expected_corrections(chapters, texts) =~= seq![(c.id@, trim(t))] + expected_corrections(chapters.drop_first(), texts.drop_first()));
    }
}

/// An answer in the requested format reads back as the corrected text of each chapter,
/// trimmed, as long as no text holds its own end marker.
pub proof fn law_review_reply_round_trip(chapters: Seq<Chapter>, texts: Seq<Seq<char>>)
    requires
        texts.len() == chapters.len(),
        texts_keep_markers(chapters, texts),
    ensures
        review_parse(review_reply(chapters, texts), chapters) == Ok::<
            Seq<(Seq<char>, Seq<char>)>,
            Seq<char>,
        >(expected_corrections(chapters, texts)),
{
    lemma_reply_parses(Seq::empty(), chapters, texts);
    assert(Seq::<char>::empty() + review_reply(chapters, texts) =~= review_reply(chapters, texts));
}

} // verus!

verus! {

/// A review answer with free text around its blocks: `gaps[k]` stands before the block of
/// chapter `k` (a preamble, or what the model writes between two blocks) and `trailer` after
/// the last block.
pub open spec fn review_reply_with_gaps(
    chapters: Seq<Chapter>,
    gaps: Seq<Seq<char>>,
    texts: Seq<Seq<char>>,
    trailer: Seq<char>,
) -> Seq<char>
    decreases chapters.len(),
{
    if chapters.len() == 0 || gaps.len() == 0 || texts.len() == 0 {
        trailer
    } else {
        gaps[0] + start_marker(chapters[0].index as int) + texts[0] + end_marker(
            chapters[0].index as int,
        ) + review_reply_with_gaps(chapters.drop_first(), gaps.drop_first(), texts.drop_first(), trailer)
    }
}

/// No gap holds the start marker of the chapter whose block follows it.
pub open spec fn gaps_keep_markers(chapters: Seq<Chapter>, gaps: Seq<Seq<char>>) -> bool {
    forall|k: int|
        0 <= k < chapters.len() ==> find(
            #[trigger] gaps[k] + start_marker(chapters[k].index as int),
            start_marker(chapters[k].index as int),
        ) == Some(gaps[k].len() as int)
}

proof fn lemma_gapped_reply_parses(
    p: Seq<char>,
    chapters: Seq<Chapter>,
    gaps: Seq<Seq<char>>,
    texts: Seq<Seq<char>>,
    trailer: Seq<char>,
)
    requires
        texts.len() == chapters.len(),
        gaps.len() == chapters.len(),
        texts_keep_markers(chapters, texts),
        gaps_keep_markers(chapters, gaps),
    ensures
        review_parse_from(p + review_reply_with_gaps(chapters, gaps, texts, trailer), p.len() as int, chapters)
            == Ok::<Seq<(Seq<char>, Seq<char>)>, Seq<char>>(expected_corrections(chapters, texts)),
    decreases chapters.len(),
{
    if chapters.len() == 0 {
        assert(expected_corrections(chapters, texts) =~= Seq::<(Seq<char>, Seq<char>)>::empty());
    } else {
        let c = chapters[0];
        let g = gaps[0];
        let t = texts[0];
        let sm = start_marker(c.index as int);
        let em = end_marker(c.index as int);
        let tail = review_reply_with_gaps(chapters.drop_first(), gaps.drop_first(), texts.drop_first(), trailer);
        let s = p + review_reply_with_gaps(chapters, gaps, texts, trailer);
        // The first start marker after `p` is the one after the gap.
        assert(find(g + sm, sm) == Some(g.len() as int));
        lemma_find_from_extend(g + sm, t + em + tail, sm, 0);
        assert(s =~= p + ((g + sm) + (t + em + tail)));
        lemma_find_from_shift(p, (g + sm) + (t + em + tail), sm, 0);
        let a: int = (p.len() + g.len()) as int;
        assert(find_from(s, sm, p.len() as int) == Some(a));
        // The end marker follows the text.
        let b: int = a + sm.len();
        assert(s =~= (p + g + sm) + ((t + em) + tail));
        assert(find(t + em, em) == Some(t.len() as int));
        lemma_find_from_shift(p + g + sm, (t + em) + tail, em, 0);
        lemma_find_from_extend(t + em, tail, em, 0);
        assert(find_from(s, em, b) == Some(b + t.len() as int));
        assert(s.subrange(b, b + t.len() as int) =~= t);
        // The rest of the answer holds the other chapters.
        let p2 = p + g + sm + t + em;
        assert(s =~= p2 + tail);
        assert forall|k: int| 0 <= k < chapters.drop_first().len() implies find(
            #[trigger] texts.drop_first()[k] + end_marker(chapters.drop_first()[k].index as int),
            end_marker(chapters.drop_first()[k].index as int),
        ) == Some(texts.drop_first()[k].len() as int) by {
            assert(texts.drop_first()[k] == texts[k + 1]);
            assert(chapters.drop_first()[k] == chapters[k + 1]);
        }
        assert forall|k: int| 0 <= k < chapters.drop_first().len() implies find(
            #[trigger] gaps.drop_first()[k] + start_marker(chapters.drop_first()[k].index as int),
            start_marker(chapters.drop_first()[k].index as int),
        ) == Some(gaps.drop_first()[k].len() as int) by {
            assert(gaps.drop_first()[k] == gaps[k + 1]);
            assert(chapters.drop_first()[k] == chapters[k + 1]);
        }
        lemma_gapped_reply_parses(p2, chapters.drop_first(), gaps.drop_first(), texts.drop_first(), trailer);
        assert(b + t.len() + em.len() == p2.len());
        assert(expected_corrections(chapters, texts) =~= seq![(c.id@, trim(t))] + expected_corrections(
            chapters.drop_first(),
            texts.drop_first(),
        ));
    }
}

/// Whatever the model writes before, between or after the blocks, each chapter's correction
/// is exactly the text between its own start and end markers, trimmed: text outside the
/// markers never enters a correction (as long as no gap holds the next start marker and no
/// text its own end marker).
pub proof fn law_review_reads_between_markers(
    chapters: Seq<Chapter>,
    gaps: Seq<Seq<char>>,
    texts: Seq<Seq<char>>,
    trailer: Seq<char>,
)
    requires
        texts.len() == chapters.len(),
        gaps.len() == chapters.len(),
        texts_keep_markers(chapters, texts),
        gaps_keep_markers(chapters, gaps),
    ensures
        review_parse(review_reply_with_gaps(chapters, gaps, texts, trailer), chapters) == Ok::<
            Seq<(Seq<char>, Seq<char>)>,
            Seq<char>,
        >(Seq::new(chapters.len(), |k: int| (chapters[k].id@, trim(texts[k])))),
{
    lemma_gapped_reply_parses(Seq::empty(), chapters, gaps, texts, trailer);
    assert(Seq::<char>::empty() + review_reply_with_gaps(chapters, gaps, texts, trailer)
        =~= review_reply_with_gaps(chapters, gaps, texts, trailer));
    assert(expected_corrections(chapters, texts) =~= Seq::new(
        chapters.len(),
        |k: int| (chapters[k].id@, trim(texts[k])),
    ));
}

} // verus!
