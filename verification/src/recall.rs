//! Recalling memories: which words of a prompt count, and how the memories
//! that match become a block of context.
use crate::chat;
use crate::chat::{last_user_message, ChatMessage, Role};
use crate::encoding;
use crate::encoding::text_of_uuid;
use crate::ids::ReceiptId;
use crate::text;
use crate::text::{blank, decimal};
use vstd::prelude::*;
use vstd::string::StrSliceExecFns;
use vstd::string::StringExecFns;

verus! {

/// Whether a character beyond ASCII is a Unicode letter or number.
pub uninterp spec fn is_unicode_alphanumeric(c: char) -> bool;

/// An ASCII letter or digit.
pub open spec fn is_ascii_word(c: char) -> bool {
    ('0' <= c && c <= '9') || ('A' <= c && c <= 'Z') || ('a' <= c && c <= 'z')
}

/// Whether a character is a letter or a number.
pub open spec fn is_alphanumeric(c: char) -> bool {
    if c as u32 <= 127 {
        is_ascii_word(c)
    } else {
        is_unicode_alphanumeric(c)
    }
}

/// `char::is_alphanumeric` holds of the ASCII letters and digits and of no other
/// ASCII character. Beyond ASCII it depends on the character alone, and its
/// result is named by `is_unicode_alphanumeric`; nothing is claimed of which of
/// those characters it holds for.
pub assume_specification[ char::is_alphanumeric ](c: char) -> (r: bool)
    ensures
        r == (if c as u32 <= 127 {
            is_ascii_word(c)
        } else {
            is_unicode_alphanumeric(c)
        }),
;

/// A character with `A` to `Z` mapped to `a` to `z`.
pub open spec fn lowered(c: char) -> char {
    if 'A' <= c && c <= 'Z' {
        ((c as u32 + 32) as u32) as char
    } else {
        c
    }
}

/// `str::to_ascii_lowercase` maps the letters `A` to `Z` to `a` to `z` and
/// leaves every other character as it is.
pub assume_specification[ str::to_ascii_lowercase ](s: &str) -> (r: String)
    ensures
        r@ == s@.map_values(|c: char| lowered(c)),
;

/// A text holds another one somewhere.
pub open spec fn holds(text: Seq<char>, part: Seq<char>) -> bool {
    exists|i: int|
        0 <= i && i + part.len() <= text.len() && #[trigger] text.subrange(i, i + part.len())
            == part
}

/// Whether a text holds another one somewhere.
fn text_contains(text: &str, part: &str) -> (r: bool)
    ensures
        r == holds(text@, part@),
{
    let n: usize = text.unicode_len();
    let m: usize = part.unicode_len();
    if m > n {
        return false;
    }
    let wanted: String = String::from_str(part);
    let mut left: usize = n - m;
    loop
        invariant
            n == text@.len(),
            m == part@.len(),
            wanted@ == part@,
            m <= n,
            left <= n - m,
            forall|k: int| left < k <= n - m ==> #[trigger] text@.subrange(k, k + m) != part@,
        decreases left,
    {
        if String::from_str(text.substring_char(left, left + m)) == wanted {
            assert(text@.subrange(left as int, left + part@.len()) == part@);
            return true;
        }
        if left == 0 {
            return false;
        }
        left = left - 1;
    }
}

/// Words that say nothing of a prompt's subject.
pub open spec fn is_stopword(term: Seq<char>) -> bool {
    ||| term == "a"@
    ||| term == "an"@
    ||| term == "and"@
    ||| term == "are"@
    ||| term == "about"@
    ||| term == "be"@
    ||| term == "do"@
    ||| term == "does"@
    ||| term == "for"@
    ||| term == "how"@
    ||| term == "in"@
    ||| term == "is"@
    ||| term == "me"@
    ||| term == "of"@
    ||| term == "on"@
    ||| term == "or"@
    ||| term == "please"@
    ||| term == "should"@
    ||| term == "tell"@
    ||| term == "the"@
    ||| term == "to"@
    ||| term == "we"@
    ||| term == "what"@
    ||| term == "when"@
    ||| term == "where"@
    ||| term == "why"@
    ||| term == "with"@
}

fn is(term: &String, word: &str) -> (r: bool)
    ensures
        r == (term@ == word@),
{
    *term == String::from_str(word)
}

/// Whether a word says nothing of a prompt's subject.
pub fn is_recall_stopword(term: &str) -> (r: bool)
    ensures
        r == is_stopword(term@),
{
    let term: String = String::from_str(term);
    is(&term, "a") || is(&term, "an") || is(&term, "and") || is(&term, "are") || is(&term, "about")
        || is(&term, "be") || is(&term, "do") || is(&term, "does") || is(&term, "for") || is(
        &term,
        "how",
    ) || is(&term, "in") || is(&term, "is") || is(&term, "me") || is(&term, "of") || is(
        &term,
        "on",
    ) || is(&term, "or") || is(&term, "please") || is(&term, "should") || is(&term, "tell") || is(
        &term,
        "the",
    ) || is(&term, "to") || is(&term, "we") || is(&term, "what") || is(&term, "when") || is(
        &term,
        "where",
    ) || is(&term, "why") || is(&term, "with")
}

/// The first character at or behind `from` that belongs to a word, or the end.
pub open spec fn word_start(text: Seq<char>, from: int) -> int
    decreases text.len() - from,
{
    if from >= text.len() || is_alphanumeric(text[from]) {
        from
    } else {
        word_start(text, from + 1)
    }
}

/// The first character at or behind `from` that belongs to no word, or the end.
pub open spec fn word_end(text: Seq<char>, from: int) -> int
    decreases text.len() - from,
{
    if from >= text.len() || !is_alphanumeric(text[from]) {
        from
    } else {
        word_end(text, from + 1)
    }
}

proof fn lemma_word_bounds(text: Seq<char>, from: int)
    requires
        0 <= from <= text.len(),
    ensures
        from <= word_start(text, from) <= text.len(),
        from <= word_end(text, from) <= text.len(),
        word_start(text, from) < text.len() ==> word_end(text, word_start(text, from))
            > word_start(text, from),
    decreases text.len() - from,
{
    if from < text.len() {
        lemma_word_bounds(text, from + 1);
    }
}

/// The terms from `from` on: the words, lowered, without the stopwords.
pub open spec fn terms_from(text: Seq<char>, from: int) -> Seq<Seq<char>>
    decreases text.len() - from,
    when 0 <= from <= text.len()
    via terms_from_decreases
{
    let start = word_start(text, from);
    if start >= text.len() {
        Seq::empty()
    } else {
        let end = word_end(text, start);
        let word = text.subrange(start, end).map_values(|c: char| lowered(c));
        let rest = terms_from(text, end);
        if is_stopword(word) {
            rest
        } else {
            seq![word] + rest
        }
    }
}

#[via_fn]
proof fn terms_from_decreases(text: Seq<char>, from: int) {
    lemma_word_bounds(text, from);
    lemma_word_bounds(text, word_start(text, from));
}

/// The terms of a prompt that memories are matched against.
pub fn recall_terms(query: &str) -> (r: Vec<String>)
    ensures
        text::text_views(r@) == terms_of(query@),
{
    let n: usize = query.unicode_len();
    let ghost all = terms_from(query@, 0);
    let mut terms: Vec<String> = Vec::new();
    let mut from: usize = 0;
    assert(text::text_views(terms@) + terms_from(query@, 0) =~= all);
    while from < n
        invariant
            n == query@.len(),
            from <= n,
            all == text::text_views(terms@) + terms_from(query@, from as int),
        decreases n - from,
    {
        proof {
            lemma_word_bounds(query@, from as int);
        }
        let mut start: usize = from;
        while start < n && !query.get_char(start).is_alphanumeric()
            invariant
                n == query@.len(),
                from <= start <= n,
                word_start(query@, from as int) == word_start(query@, start as int),
            decreases n - start,
        {
            start = start + 1;
        }
        if start >= n {
            assert(terms_from(query@, from as int) =~= Seq::empty());
            assert(terms_from(query@, n as int) =~= Seq::empty());
            from = n;
        } else {
            proof {
                lemma_word_bounds(query@, start as int);
            }
            let mut end: usize = start;
            while end < n && query.get_char(end).is_alphanumeric()
                invariant
                    n == query@.len(),
                    start <= end <= n,
                    word_end(query@, start as int) == word_end(query@, end as int),
                decreases n - end,
            {
                end = end + 1;
            }
            assert(word_start(query@, from as int) == start);
            assert(word_end(query@, start as int) == end);
            let word: String = query.substring_char(start, end).to_ascii_lowercase();
            let ghost before = text::text_views(terms@);
            let ghost rest = terms_from(query@, end as int);
            let ghost model = word@;
            if !is_recall_stopword(word.as_str()) {
                terms.push(word);
                assert(text::text_views(terms@) =~= before.push(model));
                assert(before + (seq![model] + rest) =~= before.push(model) + rest);
            }
            from = end;
        }
    }
    assert(terms_from(query@, n as int) =~= Seq::empty());
    assert(text::text_views(terms@) =~= all);
    terms
}

/// How many of the first `n` terms a text holds.
pub open spec fn matches_among(terms: Seq<Seq<char>>, text: Seq<char>, n: int) -> nat
    decreases n,
{
    if n <= 0 {
        0
    } else {
        matches_among(terms, text, n - 1) + (if holds(text, terms[n - 1]) {
            1nat
        } else {
            0
        })
    }
}

/// How many of a prompt's terms a memory's text holds, without regard to the
/// case of ASCII letters.
pub fn matched_terms(terms: &Vec<String>, payload: &str) -> (r: usize)
    ensures
        r == matches_among(
            text::text_views(terms@),
            payload@.map_values(|c: char| lowered(c)),
            terms@.len() as int,
        ),
        r <= terms@.len(),
{
    let lower: String = payload.to_ascii_lowercase();
    let ghost views = text::text_views(terms@);
    let mut count: usize = 0;
    let mut i: usize = 0;
    while i < terms.len()
        invariant
            i <= terms@.len(),
            views == text::text_views(terms@),
            count == matches_among(views, lower@, i as int),
            count <= i,
        decreases terms@.len() - i,
    {
        assert(views[i as int] == terms@[i as int]@);
        if text_contains(lower.as_str(), terms[i].as_str()) {
            count = count + 1;
        }
        i = i + 1;
    }
    count
}

/// Every term counts for itself: a further term adds one match exactly if the
/// text holds it, so that all terms match exactly if the text holds each, and
/// none does exactly if it holds none.
pub proof fn law_each_term_matches_for_itself(
    terms: Seq<Seq<char>>,
    term: Seq<char>,
    text: Seq<char>,
)
    ensures
        matches_among(Seq::<Seq<char>>::empty(), text, 0) == 0,
        matches_among(terms.push(term), text, terms.len() as int + 1) == matches_among(
            terms,
            text,
            terms.len() as int,
        ) + (if exists|i: int|
            0 <= i && i + term.len() <= text.len() && #[trigger] text.subrange(i, i + term.len())
                == term {
            1nat
        } else {
            0nat
        }),
        matches_among(terms, text, terms.len() as int) <= terms.len(),
{
    lemma_same_matches(terms, terms.push(term), text, terms.len() as int);
    lemma_few_matches(terms, text, terms.len() as int);
}

proof fn lemma_same_matches(a: Seq<Seq<char>>, b: Seq<Seq<char>>, text: Seq<char>, n: int)
    requires
        0 <= n <= a.len() <= b.len(),
        forall|k: int| 0 <= k < n ==> a[k] == b[k],
    ensures
        matches_among(a, text, n) == matches_among(b, text, n),
    decreases n,
{
    if n > 0 {
        lemma_same_matches(a, b, text, n - 1);
    }
}

proof fn lemma_few_matches(terms: Seq<Seq<char>>, text: Seq<char>, n: int)
    requires
        0 <= n <= terms.len(),
    ensures
        matches_among(terms, text, n) <= n,
    decreases n,
{
    if n > 0 {
        lemma_few_matches(terms, text, n - 1);
    }
}

/// A memory that a search returned.
#[derive(Debug)]
pub struct RecalledMemory {
    pub record_id: String,
    pub source: Option<String>,
    pub scope: Option<String>,
    pub subject: String,
    /// The record's confidence, rendered.
    pub confidence: Option<String>,
    /// The recall score, rendered.
    pub score: String,
    /// The recall score reaches the threshold.
    pub relevant: bool,
    pub receipt_id: Option<ReceiptId>,
    pub valid_from: u64,
    pub text: String,
}

/// A text, or a stand-in where it is missing.
pub open spec fn or_else(text: Option<String>, fallback: Seq<char>) -> Seq<char> {
    match text {
        Some(text) => text@,
        None => fallback,
    }
}

/// The line of a memory in the block.
pub open spec fn memory_line(m: RecalledMemory) -> Seq<char> {
    "- id="@ + m.record_id@ + " source="@ + or_else(m.source, "unknown"@) + " scope="@ + or_else(
        m.scope,
        m.subject@,
    ) + " confidence="@ + or_else(m.confidence, "unknown"@) + " recall_score="@ + m.score@
        + " receipt="@ + (match m.receipt_id {
        Some(id) => encoding::uuid_text(id.0),
        None => "unreceipted"@,
    }) + " valid_from="@ + text::decimal_text(m.valid_from as nat) + ": "@ + m.text@ + "\n"@
}

/// The lines of the first `limit` relevant memories among the first `n`.
pub open spec fn memory_lines(hits: Seq<RecalledMemory>, n: int, limit: nat) -> Seq<char>
    decreases n,
{
    if n <= 0 {
        Seq::empty()
    } else if hits[n - 1].relevant && relevant_among(hits, n - 1) < limit {
        memory_lines(hits, n - 1, limit) + memory_line(hits[n - 1])
    } else {
        memory_lines(hits, n - 1, limit)
    }
}

/// How many of the first `n` memories are relevant.
pub open spec fn relevant_among(hits: Seq<RecalledMemory>, n: int) -> nat
    decreases n,
{
    if n <= 0 {
        0
    } else {
        relevant_among(hits, n - 1) + (if hits[n - 1].relevant {
            1nat
        } else {
            0
        })
    }
}

/// What a further hit adds to the block: its line where it is relevant and
/// fewer than the limit of relevant ones precede it, and nothing otherwise.
pub proof fn law_a_relevant_memory_adds_its_line(
    hits: Seq<RecalledMemory>,
    hit: RecalledMemory,
    limit: nat,
)
    ensures
        memory_lines(Seq::<RecalledMemory>::empty(), 0, limit) == Seq::<char>::empty(),
        memory_lines(hits.push(hit), hits.len() as int + 1, limit) == (if hit.relevant
            && hits.filter(|m: RecalledMemory| m.relevant).len() < limit {
            memory_lines(hits, hits.len() as int, limit) + memory_line(hit)
        } else {
            memory_lines(hits, hits.len() as int, limit)
        }),
{
    lemma_same_lines(hits, hits.push(hit), hits.len() as int, limit);
    lemma_relevant(hits);
}

proof fn lemma_same_lines(
    a: Seq<RecalledMemory>,
    b: Seq<RecalledMemory>,
    n: int,
    limit: nat,
)
    requires
        0 <= n <= a.len() <= b.len(),
        forall|k: int| 0 <= k < n ==> a[k] == b[k],
    ensures
        memory_lines(a, n, limit) == memory_lines(b, n, limit),
        relevant_among(a, n) == relevant_among(b, n),
    decreases n,
{
    if n > 0 {
        lemma_same_lines(a, b, n - 1, limit);
    }
}

proof fn lemma_relevant(hits: Seq<RecalledMemory>)
    ensures
        relevant_among(hits, hits.len() as int) == hits.filter(
            |m: RecalledMemory| m.relevant,
        ).len(),
    decreases hits.len(),
{
    let relevant = |m: RecalledMemory| m.relevant;
    reveal(Seq::filter);
    if hits.len() > 0 {
        let before = hits.drop_last();
        lemma_relevant(before);
        lemma_same_lines(before, hits, before.len() as int, 0);
    }
}

/// A memory's line opens with its identifier and closes with its text.
pub proof fn law_a_memory_line_holds_its_text(m: RecalledMemory)
    ensures
        ({
            let line = memory_line(m);
            let opening = "- id="@ + m.record_id@ + " source="@;
            let closing = ": "@ + m.text@ + "\n"@;
            &&& opening.len() <= line.len()
            &&& line.take(opening.len() as int) == opening
            &&& closing.len() <= line.len()
            &&& line.skip(line.len() - closing.len()) == closing
        }),
{
    let line = memory_line(m);
    let opening = "- id="@ + m.record_id@ + " source="@;
    let closing = ": "@ + m.text@ + "\n"@;
    assert(line.take(opening.len() as int) =~= opening);
    assert(line.skip(line.len() - closing.len()) =~= closing);
}

/// The block that goes in front of the transcript.
pub open spec fn memory_block(subject: Seq<char>, hits: Seq<RecalledMemory>, limit: nat) -> Seq<
    char,
> {
    "Relevant memories (scoped to verified subject "@ + subject + "):\n"@ + memory_lines(
        hits,
        hits.len() as int,
        limit,
    )
}

/// The prompt that memories are searched for: the last user message, unless
/// it is blank or nothing is to be recalled.
pub fn recall_query(messages: &Vec<ChatMessage>, limit: usize) -> (r: Option<&String>)
    ensures
        ({
            let views = chat::message_views(messages@);
            let last = chat::last_user(views);
            match r {
                Some(query) => limit > 0 && last is Some && query@ == views[last->0].content
                    && !text::is_blank(query@),
                None => limit == 0 || last is None || text::is_blank(views[last->0].content),
            }
        }),
{
    if limit == 0 {
        return None;
    }
    match last_user_message(messages) {
        None => None,
        Some(query) => {
            if blank(query.as_str()) {
                None
            } else {
                Some(query)
            }
        },
    }
}

fn push_option(line: &mut String, text: &Option<String>, fallback: &str)
    ensures
        final(line)@ == old(line)@ + or_else(*text, fallback@),
{
    match text {
        Some(text) => line.append(text.as_str()),
        None => line.append(fallback),
    }
}

fn push_memory(block: &mut String, m: &RecalledMemory)
    ensures
        final(block)@ == old(block)@ + memory_line(*m),
{
    let ghost before = block@;
    let mut line: String = String::from_str("- id=");
    line.append(m.record_id.as_str());
    line.append(" source=");
    push_option(&mut line, &m.source, "unknown");
    line.append(" scope=");
    push_option(&mut line, &m.scope, m.subject.as_str());
    line.append(" confidence=");
    push_option(&mut line, &m.confidence, "unknown");
    line.append(" recall_score=");
    line.append(m.score.as_str());
    line.append(" receipt=");
    match m.receipt_id {
        Some(id) => line.append(text_of_uuid(id.0).as_str()),
        None => line.append("unreceipted"),
    }
    line.append(" valid_from=");
    line.append(decimal(m.valid_from).as_str());
    line.append(": ");
    line.append(m.text.as_str());
    line.append("\n");
    assert(line@ =~= memory_line(*m));
    block.append(line.as_str());
}

/// Puts the relevant memories in front of a transcript, at most `limit` of
/// them and in the order of the search; without any, it stays as it is.
pub fn inject_recalled_memories(
    messages: &mut Vec<ChatMessage>,
    subject: &str,
    hits: &Vec<RecalledMemory>,
    limit: usize,
)
    ensures
        message_block(
            chat::message_views(old(messages)@),
            chat::message_views(final(messages)@),
            subject@,
            hits@,
            limit as nat,
        ),
        ({
            let shown = limit > 0 && exists|i: int|
                0 <= i < hits@.len() && (#[trigger] hits@[i]).relevant;
            &&& final(messages)@.len() == old(messages)@.len() + (if shown {
                1int
            } else {
                0
            })
            &&& shown ==> final(messages)@[0].role == Role::System
            &&& forall|i: int|
                0 <= i < old(messages)@.len() ==> #[trigger] chat::message_views(
                    old(messages)@,
                )[i] == chat::message_views(final(messages)@)[i + (if shown {
                    1int
                } else {
                    0
                })]
        }),
{
    let ghost before = chat::message_views(messages@);
    let ghost first = messages@;
    let mut block: String = String::from_str("Relevant memories (scoped to verified subject ");
    block.append(subject);
    block.append("):\n");
    let ghost head = block@;
    let mut injected: usize = 0;
    let mut i: usize = 0;
    assert(head + memory_lines(hits@, 0, limit as nat) =~= head);
    while i < hits.len()
        invariant
            i <= hits@.len(),
            injected <= limit,
            injected == (if relevant_among(hits@, i as int) < limit {
                relevant_among(hits@, i as int)
            } else {
                limit as nat
            }),
            block@ == head + memory_lines(hits@, i as int, limit as nat),
        decreases hits@.len() - i,
    {
        let ghost so_far = memory_lines(hits@, i as int, limit as nat);
        if hits[i].relevant && injected < limit {
            push_memory(&mut block, &hits[i]);
            assert(block@ =~= head + (so_far + memory_line(hits@[i as int])));
            injected = injected + 1;
        }
        i = i + 1;
    }
    if injected > 0 {
        let message: ChatMessage = ChatMessage::system(block);
        let ghost model = message@;
        messages.insert(0, message);
        assert(chat::message_views(messages@) =~= seq![model] + before);
        assert(messages@[0]@ == model);
    }
    proof {
        lemma_some_relevant(hits@, hits@.len() as int);
        assert(chat::message_views(messages@).len() == messages@.len());
        assert(before.len() == first.len());
    }
}

proof fn lemma_some_relevant(hits: Seq<RecalledMemory>, n: int)
    requires
        0 <= n <= hits.len(),
    ensures
        relevant_among(hits, n) > 0 <==> exists|i: int|
            0 <= i < n && (#[trigger] hits[i]).relevant,
    decreases n,
{
    if n > 0 {
        lemma_some_relevant(hits, n - 1);
        assert(hits[n - 1].relevant || !hits[n - 1].relevant);
    }
}

/// The transcript with the relevant memories in front of it, if there are any.
pub open spec fn message_block(
    before: Seq<chat::MessageModel>,
    after: Seq<chat::MessageModel>,
    subject: Seq<char>,
    hits: Seq<RecalledMemory>,
    limit: nat,
) -> bool {
    if limit == 0 || relevant_among(hits, hits.len() as int) == 0 {
        after == before
    } else {
        after == seq![chat::plain(Role::System, memory_block(subject, hits, limit))] + before
    }
}

/// The terms of a whole text.
pub open spec fn terms_of(text: Seq<char>) -> Seq<Seq<char>> {
    terms_from(text, 0)
}

/// Texts joined by blanks.
pub open spec fn joined(texts: Seq<Seq<char>>) -> Seq<char>
    decreases texts.len(),
{
    if texts.len() == 0 {
        Seq::empty()
    } else if texts.len() == 1 {
        texts[0]
    } else {
        joined(texts.drop_last()) + seq![' '] + texts.last()
    }
}

/// A word of letters and numbers in lower case that is no stopword.
pub open spec fn is_term(word: Seq<char>) -> bool {
    &&& word.len() > 0
    &&& forall|i: int|
        0 <= i < word.len() ==> is_alphanumeric(#[trigger] word[i]) && lowered(word[i]) == word[i]
    &&& !is_stopword(word)
}

proof fn lemma_words_shift(a: Seq<char>, b: Seq<char>, from: int)
    requires
        0 <= from <= b.len(),
    ensures
        word_start(a + b, a.len() + from) == a.len() + word_start(b, from),
        word_end(a + b, a.len() + from) == a.len() + word_end(b, from),
    decreases b.len() - from,
{
    if from < b.len() {
        assert((a + b)[a.len() + from] == b[from]);
        lemma_words_shift(a, b, from + 1);
    }
}

proof fn lemma_terms_shift(a: Seq<char>, b: Seq<char>, from: int)
    requires
        0 <= from <= b.len(),
    ensures
        terms_from(a + b, a.len() + from) == terms_from(b, from),
    decreases b.len() - from,
{
    let start = word_start(b, from);
    lemma_word_bounds(b, from);
    lemma_words_shift(a, b, from);
    if start < b.len() {
        let end = word_end(b, start);
        lemma_word_bounds(b, start);
        lemma_words_shift(a, b, start);
        assert((a + b).subrange(a.len() + start, a.len() + end) =~= b.subrange(start, end));
        lemma_terms_shift(a, b, end);
    }
}

proof fn lemma_words_before(p: Seq<char>, sep: char, q: Seq<char>, from: int)
    requires
        !is_alphanumeric(sep),
        0 <= from <= p.len(),
    ensures
        ({
            let t = p + seq![sep] + q;
            &&& word_end(t, from) == word_end(p, from)
            &&& word_start(t, from) == (if word_start(p, from) < p.len() {
                word_start(p, from)
            } else {
                word_start(t, p.len() as int + 1)
            })
        }),
    decreases p.len() - from,
{
    let t = p + seq![sep] + q;
    if from < p.len() {
        assert(t[from] == p[from]);
        lemma_words_before(p, sep, q, from + 1);
        lemma_word_bounds(p, from + 1);
    } else {
        assert(t[from] == sep);
    }
}

proof fn lemma_terms_before(p: Seq<char>, sep: char, q: Seq<char>, from: int)
    requires
        !is_alphanumeric(sep),
        0 <= from <= p.len(),
    ensures
        terms_from(p + seq![sep] + q, from) == terms_from(p, from) + terms_from(q, 0),
    decreases p.len() - from,
{
    let t = p + seq![sep] + q;
    let start = word_start(p, from);
    lemma_word_bounds(p, from);
    lemma_words_before(p, sep, q, from);
    if start < p.len() {
        let end = word_end(p, start);
        lemma_word_bounds(p, start);
        lemma_words_before(p, sep, q, start);
        assert(t.subrange(start, end) =~= p.subrange(start, end));
        lemma_terms_before(p, sep, q, end);
        let word = p.subrange(start, end).map_values(|c: char| lowered(c));
        if !is_stopword(word) {
            assert(seq![word] + (terms_from(p, end) + terms_from(q, 0)) =~= (seq![word]
                + terms_from(p, end)) + terms_from(q, 0));
        }
    } else {
        lemma_terms_shift(p + seq![sep], q, 0);
        assert(terms_from(p, from) =~= Seq::empty());
        assert(terms_from(t, from) == terms_from(t, p.len() as int + 1));
        assert(terms_from(p, from) + terms_from(q, 0) =~= terms_from(q, 0));
    }
}

/// The terms of two texts joined by a blank are the terms of the one and after
/// them those of the other.
pub proof fn law_terms_of_joined_texts(p: Seq<char>, q: Seq<char>)
    ensures
        terms_of(p + seq![' '] + q) == terms_of(p) + terms_of(q),
{
    lemma_terms_before(p, ' ', q, 0);
}

/// Whatever belongs to no word parts words: the terms of two texts with such a
/// character between them are the terms of the one and after them those of the
/// other, and a text of nothing else has none.
pub proof fn law_words_are_parted_by_what_is_no_word(p: Seq<char>, sep: char, q: Seq<char>)
    requires
        !is_alphanumeric(sep),
    ensures
        terms_of(p + seq![sep] + q) == terms_of(p) + terms_of(q),
        terms_of(Seq::<char>::empty()) == Seq::<Seq<char>>::empty(),
{
    lemma_terms_before(p, sep, q, 0);
    assert(terms_of(Seq::<char>::empty()) =~= Seq::<Seq<char>>::empty());
}

/// A single word, in whatever case, has itself in lower case as its only term,
/// unless it is one that says nothing of the subject.
pub proof fn law_a_word_is_its_own_term(word: Seq<char>)
    requires
        word.len() > 0,
        forall|i: int| 0 <= i < word.len() ==> is_alphanumeric(#[trigger] word[i]),
    ensures
        terms_of(word) == (if is_stopword(word.map_values(|c: char| lowered(c))) {
            Seq::<Seq<char>>::empty()
        } else {
            seq![word.map_values(|c: char| lowered(c))]
        }),
{
    lemma_run_ends(word, 0);
    assert(word_start(word, 0) == 0);
    assert(word.subrange(0, word.len() as int) =~= word);
    let low = word.map_values(|c: char| lowered(c));
    assert(word.subrange(0, word.len() as int).map_values(|c: char| lowered(c)) =~= low);
    assert(terms_from(word, word.len() as int) =~= Seq::empty());
    assert(seq![low] + Seq::<Seq<char>>::empty() =~= seq![low]);
}

proof fn lemma_run_ends(word: Seq<char>, from: int)
    requires
        0 <= from <= word.len(),
        forall|i: int| 0 <= i < word.len() ==> is_alphanumeric(#[trigger] word[i]),
    ensures
        word_end(word, from) == word.len(),
    decreases word.len() - from,
{
    if from < word.len() {
        lemma_run_ends(word, from + 1);
    }
}

proof fn lemma_word_runs(word: Seq<char>, from: int)
    requires
        is_term(word),
        0 <= from <= word.len(),
    ensures
        word_end(word, from) == word.len(),
    decreases word.len() - from,
{
    if from < word.len() {
        lemma_word_runs(word, from + 1);
    }
}

proof fn lemma_one_term(word: Seq<char>)
    requires
        is_term(word),
    ensures
        terms_of(word) == seq![word],
{
    lemma_word_runs(word, 0);
    assert(word_start(word, 0) == 0);
    assert(word.subrange(0, word.len() as int).map_values(|c: char| lowered(c)) =~= word);
    assert(terms_from(word, word.len() as int) =~= Seq::empty());
    assert(terms_of(word) =~= seq![word]);
}

proof fn lemma_run_is_word(text: Seq<char>, from: int, i: int)
    requires
        0 <= from <= i < word_end(text, from),
        from <= text.len(),
    ensures
        i < text.len(),
        is_alphanumeric(text[i]),
    decreases text.len() - from,
{
    lemma_word_bounds(text, from);
    if from < i {
        lemma_run_is_word(text, from + 1, i);
    }
}

proof fn lemma_terms_are_terms(text: Seq<char>, from: int)
    requires
        0 <= from <= text.len(),
    ensures
        forall|i: int|
            0 <= i < terms_from(text, from).len() ==> is_term(#[trigger] terms_from(text, from)[i]),
    decreases text.len() - from,
{
    let start = word_start(text, from);
    lemma_word_bounds(text, from);
    if start < text.len() {
        let end = word_end(text, start);
        lemma_word_bounds(text, start);
        let run = text.subrange(start, end);
        let word = run.map_values(|c: char| lowered(c));
        lemma_terms_are_terms(text, end);
        if !is_stopword(word) {
            assert forall|i: int| 0 <= i < word.len() implies is_alphanumeric(#[trigger] word[i])
                && lowered(word[i]) == word[i] by {
                lemma_run_is_word(text, start, start + i);
                let c = text[start + i];
                assert(word[i] == lowered(c));
                lemma_lowered(c);
            }
            assert(is_term(word));
            let rest = terms_from(text, end);
            assert(terms_from(text, from) == seq![word] + rest);
            assert forall|i: int| 0 <= i < terms_from(text, from).len() implies is_term(
                #[trigger] terms_from(text, from)[i],
            ) by {
                if i > 0 {
                    assert(terms_from(text, from)[i] == rest[i - 1]);
                }
            }
        }
    }
}

proof fn lemma_lowered(c: char)
    requires
        is_alphanumeric(c),
    ensures
        is_alphanumeric(lowered(c)),
        lowered(lowered(c)) == lowered(c),
{
}

proof fn lemma_terms_of_terms(terms: Seq<Seq<char>>)
    requires
        forall|i: int| 0 <= i < terms.len() ==> is_term(#[trigger] terms[i]),
    ensures
        terms_of(joined(terms)) == terms,
    decreases terms.len(),
{
    if terms.len() == 0 {
        assert(terms_of(joined(terms)) =~= terms);
    } else if terms.len() == 1 {
        lemma_one_term(terms[0]);
        assert(seq![terms[0]] =~= terms);
    } else {
        let rest = terms.drop_last();
        assert forall|i: int| 0 <= i < rest.len() implies is_term(#[trigger] rest[i]) by {
            assert(rest[i] == terms[i]);
        }
        lemma_terms_of_terms(rest);
        assert(is_term(terms[terms.len() - 1]));
        lemma_one_term(terms.last());
        law_terms_of_joined_texts(joined(rest), terms.last());
        assert(rest + seq![terms.last()] =~= terms);
    }
}

/// Terms joined by blanks have the same terms again.
pub proof fn law_terms_are_kept(text: Seq<char>)
    ensures
        terms_of(joined(terms_of(text))) == terms_of(text),
{
    lemma_terms_are_terms(text, 0);
    lemma_terms_of_terms(terms_of(text));
}

/// The block of memories names the subject that they are scoped to, and then
/// holds nothing but the lines of the memories.
pub proof fn law_a_memory_block_names_its_subject(
    subject: Seq<char>,
    hits: Seq<RecalledMemory>,
    limit: nat,
)
    ensures
        ({
            let block = memory_block(subject, hits, limit);
            let head = "Relevant memories (scoped to verified subject "@ + subject + "):\n"@;
            &&& block.take(head.len() as int) == head
            &&& block.skip(head.len() as int) == memory_lines(hits, hits.len() as int, limit)
        }),
{
    let block = memory_block(subject, hits, limit);
    let head = "Relevant memories (scoped to verified subject "@ + subject + "):\n"@;
    assert(block.take(head.len() as int) =~= head);
    assert(block.skip(head.len() as int) =~= memory_lines(hits, hits.len() as int, limit));
}

/// A memory whose source or confidence is not known reads as one that says so,
/// one without a scope is scoped to its subject, and one without a receipt says
/// that it has none.
pub proof fn law_what_a_memory_lacks_is_stood_in_for(
    m: RecalledMemory,
    source: String,
    scope: String,
    confidence: String,
)
    requires
        m.source is None,
        m.scope is None,
        m.confidence is None,
        source@ == "unknown"@,
        scope@ == m.subject@,
        confidence@ == "unknown"@,
    ensures
        memory_line(m) == memory_line(RecalledMemory { source: Some(source), ..m }),
        memory_line(m) == memory_line(RecalledMemory { scope: Some(scope), ..m }),
        memory_line(m) == memory_line(RecalledMemory { confidence: Some(confidence), ..m }),
{
}

/// A memory's line shows all that is known of it, each under its name: where it
/// is from, what it is scoped to, how sure it is, how well it matched, the
/// receipt that it rests on and since when it holds.
pub proof fn law_a_memory_line_shows_every_field(
    m: RecalledMemory,
    source: String,
    scope: String,
    confidence: String,
)
    requires
        m.source == Some(source),
        m.scope == Some(scope),
        m.confidence == Some(confidence),
    ensures
        exists|receipt: Seq<char>|
            memory_line(m) == #[trigger] ("- id="@ + m.record_id@ + " source="@ + source@
                + " scope="@ + scope@ + " confidence="@ + confidence@ + " recall_score="@ + m.score@
                + " receipt="@ + receipt + " valid_from="@ + text::decimal_text(
                m.valid_from as nat,
            ) + ": "@ + m.text@ + "\n"@) && receipt == (match m.receipt_id {
                Some(id) => encoding::uuid_text(id.0),
                None => "unreceipted"@,
            }),
{
    let receipt = match m.receipt_id {
        Some(id) => encoding::uuid_text(id.0),
        None => "unreceipted"@,
    };
    assert(memory_line(m) == "- id="@ + m.record_id@ + " source="@ + source@ + " scope="@ + scope@
        + " confidence="@ + confidence@ + " recall_score="@ + m.score@ + " receipt="@ + receipt
        + " valid_from="@ + text::decimal_text(m.valid_from as nat) + ": "@ + m.text@ + "\n"@);
}

} // verus!
