//! Mentions (`@handle`) in Markdown text.
//!
//! A mention is an `@` that is not inside inline code (an odd number of
//! backticks before it on its line), that does not follow a letter, a digit,
//! `_` or `\`, and that is followed by 1 to 39 handle characters (ASCII letters,
//! digits, `-`, `_`) whose first and last are a letter or digit. Lines inside a
//! ```` ``` ```` or `~~~` fence, and the fence lines themselves, hold no
//! mentions. Mentions are lowercased and each is reported once, in order of
//! first appearance.
use vstd::prelude::*;

use crate::topic::{is_handle_char, valid_handle};
use crate::text::{alnum, chars_of, count_lead_space, is_alnum, is_lower, is_digit, is_space, lead_space, lemma_lead_space, lower_char, lower_of, lower_seq, string_of, trim_start};

verus! {

/// Characters that may continue a mention.
pub open spec fn handle_char(c: char) -> bool {
    is_alnum(c) || c == '-' || c == '_'
}

fn is_handle_byte(c: char) -> (b: bool)
    ensures
        b == handle_char(c),
{
    alnum(c) || c == '-' || c == '_'
}

/// Number of backticks on `line` before position `i`.
pub open spec fn backticks(line: Seq<char>, i: int) -> nat
    decreases i,
{
    if i <= 0 {
        0
    } else {
        backticks(line, i - 1) + (if line[i - 1] == '`' { 1nat } else { 0nat })
    }
}

/// End of the run of handle characters that starts at `i`.
pub open spec fn run_end(line: Seq<char>, i: int) -> int
    decreases line.len() - i,
{
    if 0 <= i < line.len() && handle_char(line[i]) {
        run_end(line, i + 1)
    } else {
        i
    }
}

/// The handle characters that follow position `p`.
pub open spec fn handle_after(line: Seq<char>, p: int) -> Seq<char> {
    line.subrange(p + 1, run_end(line, p + 1))
}

/// Whether an `@` at `p` may start a mention: it begins the line, or the
/// character before it is not a letter, digit, `_` or `\`.
pub open spec fn at_boundary(line: Seq<char>, p: int) -> bool {
    p == 0 || !(is_alnum(line[p - 1]) || line[p - 1] == '_' || line[p - 1] == '\\')
}

/// Whether position `p` of `line` holds a mention.
pub open spec fn mention_at(line: Seq<char>, p: int) -> bool {
    let h = lower_seq(handle_after(line, p));
    &&& line[p] == '@'
    &&& backticks(line, p) % 2 == 0
    &&& at_boundary(line, p)
    &&& 1 <= h.len() <= 39
    &&& is_alnum(h[0])
    &&& is_alnum(h.last())
}

/// The mentions of `line` at positions `i` and after, in order, with repeats.
pub open spec fn tokens_from(line: Seq<char>, i: int) -> Seq<Seq<char>>
    decreases line.len() - i,
{
    if i < 0 || i >= line.len() {
        seq![]
    } else if mention_at(line, i) {
        seq![lower_seq(handle_after(line, i))] + tokens_from(line, i + 1)
    } else {
        tokens_from(line, i + 1)
    }
}

/// `acc` with `h` appended unless already present.
pub open spec fn add_new(acc: Seq<Seq<char>>, h: Seq<char>) -> Seq<Seq<char>> {
    if acc.contains(h) {
        acc
    } else {
        acc.push(h)
    }
}

/// `acc` extended by the elements of `s` not seen before, in order.
pub open spec fn dedup_onto(acc: Seq<Seq<char>>, s: Seq<Seq<char>>) -> Seq<Seq<char>>
    decreases s.len(),
{
    if s.len() == 0 {
        acc
    } else {
        dedup_onto(add_new(acc, s[0]), s.drop_first())
    }
}

/// Index of the first line break at or after `i` (or the length).
pub open spec fn line_end(s: Seq<char>, i: int) -> int
    decreases s.len() - i,
{
    if i >= s.len() {
        s.len() as int
    } else if s[i] == '\n' {
        i
    } else {
        line_end(s, i + 1)
    }
}

/// The lines of `s`, split at `\n`. (`str::lines` also drops a `\r` before a
/// line break and a final empty line; neither can hold a mention, a fence or a
/// character that a mention depends on.)
pub open spec fn split_lines(s: Seq<char>) -> Seq<Seq<char>>
    decreases s.len(),
{
    let k = line_end(s, 0);
    if 0 <= k < s.len() {
        seq![s.take(k)] + split_lines(s.skip(k + 1))
    } else {
        seq![s]
    }
}

/// The fence character that a line opens or closes, if any.
pub open spec fn fence_marker(line: Seq<char>) -> Option<char> {
    let t = trim_start(line);
    if t.len() >= 3 && t[0] == '`' && t[1] == '`' && t[2] == '`' {
        Some('`')
    } else if t.len() >= 3 && t[0] == '~' && t[1] == '~' && t[2] == '~' {
        Some('~')
    } else {
        None
    }
}

/// The fence state after a fence line with the given marker.
pub open spec fn next_fence(fence: Option<char>, marker: char) -> Option<char> {
    if fence == Some(marker) {
        None
    } else if fence is None {
        Some(marker)
    } else {
        fence
    }
}

/// The mentions collected after `acc`, from `lines`, starting in `fence`.
pub open spec fn collect(acc: Seq<Seq<char>>, lines: Seq<Seq<char>>, fence: Option<char>) -> Seq<Seq<char>>
    decreases lines.len(),
{
    if lines.len() == 0 {
        acc
    } else {
        let line = lines[0];
        match fence_marker(line) {
            Some(m) => collect(acc, lines.drop_first(), next_fence(fence, m)),
            None => if fence is Some {
                collect(acc, lines.drop_first(), fence)
            } else {
                collect(dedup_onto(acc, tokens_from(line, 0)), lines.drop_first(), fence)
            },
        }
    }
}

/// The mentions of a Markdown text, lowercased, each once, in order of first
/// appearance.
pub open spec fn mentions_of(text: Seq<char>) -> Seq<Seq<char>> {
    collect(seq![], split_lines(text), None)
}

proof fn lemma_run_end(line: Seq<char>, i: int)
    requires
        0 <= i <= line.len(),
    ensures
        i <= run_end(line, i) <= line.len(),
        forall|q: int| i <= q < run_end(line, i) ==> handle_char(#[trigger] line[q]),
        run_end(line, i) < line.len() ==> !handle_char(line[run_end(line, i)]),
    decreases line.len() - i,
{
    if i < line.len() && handle_char(line[i]) {
        lemma_run_end(line, i + 1);
    }
}

proof fn lemma_skip_span(line: Seq<char>, a: int, b: int)
    requires
        0 <= a <= b <= line.len(),
        forall|q: int| a <= q < b ==> #[trigger] line[q] != '@' && line[q] != '`',
    ensures
        tokens_from(line, a) == tokens_from(line, b),
        backticks(line, b) == backticks(line, a),
    decreases b - a,
{
    if a < b {
        lemma_skip_span(line, a + 1, b);
        assert(line[a] != '@');
        assert(!mention_at(line, a));
        assert(backticks(line, b) == backticks(line, a + 1));
    }
}

fn run_end_exec(line: &Vec<char>, from: usize) -> (e: usize)
    requires
        from <= line.len(),
    ensures
        e == run_end(line@, from as int),
{
    let mut e = from;
    while e < line.len() && is_handle_byte(line[e])
        invariant
            from <= e <= line.len(),
            run_end(line@, from as int) == run_end(line@, e as int),
        decreases line.len() - e,
    {
        e += 1;
    }
    e
}

fn lowered(v: &Vec<char>) -> (r: Vec<char>)
    ensures
        r@ == lower_seq(v@),
{
    let mut r: Vec<char> = Vec::new();
    let mut i: usize = 0;
    while i < v.len()
        invariant
            i <= v.len(),
            r@ == lower_seq(v@.take(i as int)),
        decreases v.len() - i,
    {
        r.push(lower_of(v[i]));
        assert(lower_seq(v@.take(i + 1)) =~= lower_seq(v@.take(i as int)).push(lower_char(v@[i as int])));
        i += 1;
    }
    assert(v@.take(v.len() as int) =~= v@);
    r
}

fn contains(found: &Vec<Vec<char>>, h: &Vec<char>) -> (b: bool)
    ensures
        b == found@.map_values(|x: Vec<char>| x@).contains(h@),
{
    let ghost f = found@.map_values(|x: Vec<char>| x@);
    let mut i: usize = 0;
    while i < found.len()
        invariant
            i <= found.len(),
            f == found@.map_values(|x: Vec<char>| x@),
            forall|j: int| 0 <= j < i ==> f[j] != h@,
        decreases found.len() - i,
    {
        if crate::text::chars_eq(&found[i], h) {
            assert(f[i as int] == h@);
            return true;
        }
        i += 1;
    }
    false
}

/// The texts of a sequence of strings.
pub open spec fn string_views(v: Seq<String>) -> Seq<Seq<char>> {
    v.map_values(|s: String| s@)
}

pub open spec fn views(found: Seq<Vec<char>>) -> Seq<Seq<char>> {
    found.map_values(|x: Vec<char>| x@)
}

fn is_mention_boundary(line: &Vec<char>, p: usize) -> (b: bool)
    requires
        p < line.len(),
    ensures
        b == at_boundary(line@, p as int),
{
    if p == 0 {
        true
    } else {
        let c = line[p - 1];
        !(alnum(c) || c == '_' || c == '\\')
    }
}

/// A mentioned handle starts and ends with an ASCII letter or digit.
fn valid_handle_edges(handle: &Vec<char>) -> (b: bool)
    requires
        handle.len() > 0,
    ensures
        b == (is_alnum(handle@[0]) && is_alnum(handle@[handle.len() - 1])),
{
    alnum(handle[0]) && alnum(handle[handle.len() - 1])
}

/// Adds the mentions of one line to `found`.
fn parse_line(line: &Vec<char>, found: &mut Vec<Vec<char>>)
    ensures
        views(final(found)@) == dedup_onto(views(old(found)@), tokens_from(line@, 0)),
{
    let ghost target = dedup_onto(views(found@), tokens_from(line@, 0));
    let mut index: usize = 0;
    let mut in_code = false;
    while index < line.len()
        invariant
            index <= line.len(),
            in_code == (backticks(line@, index as int) % 2 == 1),
            dedup_onto(views(found@), tokens_from(line@, index as int)) == target,
        decreases line.len() - index,
    {
        let c = line[index];
        let ghost l = line@;
        let ghost i = index as int;
        assert(backticks(l, i + 1) == backticks(l, i) + (if l[i] == '`' { 1nat } else { 0nat }));
        if c == '`' {
            in_code = !in_code;
            assert(!mention_at(l, i));
            index += 1;
        } else if c == '@' && !in_code && is_mention_boundary(line, index) {
            let start = index + 1;
            let end = run_end_exec(line, start);
            proof { lemma_run_end(l, i + 1); }
            let ghost h = lower_seq(handle_after(l, i));
            assert(handle_after(l, i) == l.subrange(start as int, end as int));
            if end > start && end - start <= 39 {
                let raw = crate::text::slice_chars(line, start, end);
                let handle = lowered(&raw);
                assert(handle@ == h);
                if valid_handle_edges(&handle) {
                    assert(mention_at(l, i));
                    let ghost before = views(found@);
                    if !contains(found, &handle) {
                        found.push(handle);
                        assert(views(found@) =~= before.push(h));
                    }
                    assert(views(found@) == add_new(before, h));
                    let ghost rest = tokens_from(l, i + 1);
                    assert(tokens_from(l, i) == seq![h] + rest);
                    assert((seq![h] + rest)[0] == h);
                    assert((seq![h] + rest).drop_first() =~= rest);
                } else {
                    assert(!mention_at(l, i));
                }
            } else {
                assert(!mention_at(l, i));
            }
            proof {
                assert forall|q: int| start <= q < end implies #[trigger] l[q] != '@' && l[q] != '`' by {
                    assert(handle_char(l[q]));
                }
                lemma_skip_span(l, start as int, end as int);
            }
            index = if end > index + 1 { end } else { index + 1 };
        } else {
            assert(!mention_at(l, i));
            index += 1;
        }
    }
}

fn fence_marker_exec(line: &Vec<char>) -> (m: Option<char>)
    ensures
        m == fence_marker(line@),
{
    let k = count_lead_space(line);
    proof { lemma_lead_space(line@); }
    let ghost t = trim_start(line@);
    if line.len() - k >= 3 {
        assert(t[0] == line@[k as int] && t[1] == line@[k + 1] && t[2] == line@[k + 2]);
        if line[k] == '`' && line[k + 1] == '`' && line[k + 2] == '`' {
            return Some('`');
        }
        if line[k] == '~' && line[k + 1] == '~' && line[k + 2] == '~' {
            return Some('~');
        }
    }
    None
}

proof fn lemma_line_end(s: Seq<char>, i: int, e: int)
    requires
        0 <= i <= e <= s.len(),
        forall|q: int| i <= q < e ==> #[trigger] s[q] != '\n',
        e == s.len() || s[e] == '\n',
    ensures
        line_end(s, i) == e,
    decreases e - i,
{
    if i < e {
        lemma_line_end(s, i + 1, e);
    }
}


/// A mention as reported: 1 to 39 lowercase letters, digits, `-` or `_`, whose
/// first and last characters are a letter or digit.
pub open spec fn is_mention_word(h: Seq<char>) -> bool {
    &&& 1 <= h.len() <= 39
    &&& forall|i: int| 0 <= i < h.len() ==> (is_lower(#[trigger] h[i]) || is_digit(h[i]) || h[i] == '-' || h[i] == '_')
    &&& is_alnum(h[0])
    &&& is_alnum(h.last())
}

pub open spec fn all_words(s: Seq<Seq<char>>) -> bool {
    forall|i: int| 0 <= i < s.len() ==> is_mention_word(#[trigger] s[i])
}

proof fn lemma_lower_handle_byte(c: char)
    requires
        handle_char(c),
    ensures
        is_lower(lower_char(c)) || is_digit(lower_char(c)) || lower_char(c) == '-' || lower_char(c) == '_',
{
}

proof fn lemma_tokens_are_words(line: Seq<char>, i: int)
    ensures
        all_words(tokens_from(line, i)),
    decreases line.len() - i,
{
    if 0 <= i < line.len() {
        lemma_tokens_are_words(line, i + 1);
        if mention_at(line, i) {
            let raw = handle_after(line, i);
            let h = lower_seq(raw);
            lemma_run_end(line, i + 1);
            assert forall|k: int| 0 <= k < h.len() implies (is_lower(#[trigger] h[k]) || is_digit(h[k]) || h[k] == '-' || h[k] == '_') by {
                assert(raw[k] == line[i + 1 + k]);
                lemma_lower_handle_byte(raw[k]);
            }
            let rest = tokens_from(line, i + 1);
            assert forall|k: int| 0 <= k < (seq![h] + rest).len() implies is_mention_word(#[trigger] (seq![h] + rest)[k]) by {
                if k > 0 {
                    assert((seq![h] + rest)[k] == rest[k - 1]);
                }
            }
        }
    }
}

proof fn lemma_dedup_onto(acc: Seq<Seq<char>>, s: Seq<Seq<char>>)
    requires
        acc.no_duplicates(),
        all_words(acc),
        all_words(s),
    ensures
        dedup_onto(acc, s).no_duplicates(),
        all_words(dedup_onto(acc, s)),
    decreases s.len(),
{
    if s.len() > 0 {
        let next = add_new(acc, s[0]);
        if !acc.contains(s[0]) {
            assert forall|a: int, b: int| 0 <= a < next.len() && 0 <= b < next.len() && a != b implies next[a] != next[b] by {
                if a == acc.len() as int {
                    assert(acc[b] == next[b]);
                } else if b == acc.len() as int {
                    assert(acc[a] == next[a]);
                }
            }
        }
        assert forall|k: int| 0 <= k < s.drop_first().len() implies is_mention_word(#[trigger] s.drop_first()[k]) by {
            assert(s.drop_first()[k] == s[k + 1]);
        }
        assert(is_mention_word(s[0]));
        lemma_dedup_onto(next, s.drop_first());
    }
}

proof fn lemma_collect(acc: Seq<Seq<char>>, lines: Seq<Seq<char>>, fence: Option<char>)
    requires
        acc.no_duplicates(),
        all_words(acc),
    ensures
        collect(acc, lines, fence).no_duplicates(),
        all_words(collect(acc, lines, fence)),
    decreases lines.len(),
{
    if lines.len() > 0 {
        let line = lines[0];
        match fence_marker(line) {
            Some(m) => lemma_collect(acc, lines.drop_first(), next_fence(fence, m)),
            None => if fence is Some {
                lemma_collect(acc, lines.drop_first(), fence);
            } else {
                lemma_tokens_are_words(line, 0);
                lemma_dedup_onto(acc, tokens_from(line, 0));
                lemma_collect(dedup_onto(acc, tokens_from(line, 0)), lines.drop_first(), fence);
            },
        }
    }
}

/// No mention is reported twice, and every reported mention is a lowercase
/// handle of 1 to 39 characters that starts and ends with a letter or digit.
pub proof fn law_mentions_are_distinct_lowercase_handles(text: Seq<char>)
    ensures
        mentions_of(text).no_duplicates(),
        all_words(mentions_of(text)),
{
    lemma_collect(seq![], split_lines(text), None);
}

/// Every reported mention of two or more characters is a valid handle, so a
/// mention names what a principal or Team can be called.
pub proof fn law_mentions_are_valid_handles(text: Seq<char>)
    ensures
        forall|i: int| 0 <= i < mentions_of(text).len() && (#[trigger] mentions_of(text)[i]).len() >= 2
            ==> valid_handle(mentions_of(text)[i]),
{
    law_mentions_are_distinct_lowercase_handles(text);
    assert forall|i: int| 0 <= i < mentions_of(text).len() && (#[trigger] mentions_of(text)[i]).len() >= 2
        implies valid_handle(mentions_of(text)[i]) by {
        let h = mentions_of(text)[i];
        assert(is_mention_word(h));
        assert forall|j: int| 0 <= j < h.len() implies is_handle_char(#[trigger] h[j]) by {
            assert(is_lower(h[j]) || is_digit(h[j]) || h[j] == '-' || h[j] == '_');
        }
    }
}

/// `h` is made of lowercase ASCII letters, digits, `-` and `_`, and begins
/// and ends with a letter or digit.
pub open spec fn lowercase_word(h: Seq<char>) -> bool {
    &&& h.len() >= 1
    &&& forall|i: int| 0 <= i < h.len() ==> {
        ||| ('a' <= #[trigger] h[i] && h[i] <= 'z')
        ||| ('0' <= h[i] && h[i] <= '9')
        ||| h[i] == '-'
        ||| h[i] == '_'
    }
    &&& (('a' <= h[0] && h[0] <= 'z') || ('0' <= h[0] && h[0] <= '9'))
    &&& (('a' <= h.last() && h.last() <= 'z') || ('0' <= h.last() && h.last() <= '9'))
}

proof fn lemma_word_chars(h: Seq<char>)
    requires
        lowercase_word(h),
    ensures
        forall|i: int| 0 <= i < h.len() ==> handle_char(#[trigger] h[i]) && h[i] != '@' && h[i] != '`'
            && h[i] != '\n' && lower_char(h[i]) == h[i],
        lower_seq(h) == h,
        is_alnum(h[0]) && is_alnum(h.last()),
{
    assert forall|i: int| 0 <= i < h.len() implies handle_char(#[trigger] h[i]) && h[i] != '@' && h[i] != '`'
        && h[i] != '\n' && lower_char(h[i]) == h[i] by {
        assert(('a' <= h[i] && h[i] <= 'z') || ('0' <= h[i] && h[i] <= '9') || h[i] == '-' || h[i] == '_');
    }
    assert(lower_seq(h) =~= h);
}

/// The mentions of a text of one line that is no fence line.
proof fn lemma_one_line_mentions(line: Seq<char>)
    requires
        one_line(line),
        fence_marker(line) is None,
    ensures
        mentions_of(line) == dedup_onto(seq![], tokens_from(line, 0)),
{
    lemma_line_end(line, 0, line.len() as int);
    let lines = seq![line];
    assert(split_lines(line) == lines);
    assert(lines[0] == line && lines.len() == 1);
    assert(lines.drop_first() =~= Seq::<Seq<char>>::empty());
    let acc = dedup_onto(seq![], tokens_from(line, 0));
    assert(collect(seq![], lines, None) == collect(acc, lines.drop_first(), None));
    assert(collect(acc, Seq::<Seq<char>>::empty(), None) == acc);
}

/// The handle characters after position `p` run to the end of the line.
proof fn lemma_handle_to_end(line: Seq<char>, p: int)
    requires
        0 <= p < line.len(),
        forall|q: int| p < q < line.len() ==> handle_char(#[trigger] line[q]),
    ensures
        handle_after(line, p) == line.subrange(p + 1, line.len() as int),
{
    lemma_run_end(line, p + 1);
    if run_end(line, p + 1) < line.len() {
        assert(handle_char(line[run_end(line, p + 1)]));
    }
}

/// A line that is `@` and a lowercase word of at most 39 characters mentions
/// exactly that word, and one whose word has 40 or more characters mentions
/// nothing.
pub proof fn law_plain_mention(h: Seq<char>)
    requires
        lowercase_word(h),
    ensures
        h.len() <= 39 ==> mentions_of(seq!['@'] + h) == seq![h],
        h.len() >= 40 ==> mentions_of(seq!['@'] + h) == Seq::<Seq<char>>::empty(),
{
    let line = seq!['@'] + h;
    lemma_word_chars(h);
    assert forall|q: int| 1 <= q < line.len() implies #[trigger] line[q] != '@' && line[q] != '`' && handle_char(line[q]) by {
        assert(line[q] == h[q - 1]);
    }
    assert(one_line(line)) by {
        assert forall|q: int| 0 <= q < line.len() implies #[trigger] line[q] != '\n' by {
            if q > 0 {
                assert(line[q] == h[q - 1]);
            }
        }
    }
    lemma_lead_space(line);
    assert(!is_space(line[0]));
    assert(trim_start(line) =~= line);
    lemma_one_line_mentions(line);
    lemma_handle_to_end(line, 0);
    assert(line.subrange(1, line.len() as int) =~= h);
    lemma_skip_span(line, 1, line.len() as int);
    assert(tokens_from(line, line.len() as int) == Seq::<Seq<char>>::empty());
    if h.len() <= 39 {
        assert(mention_at(line, 0));
        assert(tokens_from(line, 0) == seq![h] + tokens_from(line, 1));
        assert(tokens_from(line, 0) =~= seq![h]);
        assert(seq![h].drop_first() =~= Seq::<Seq<char>>::empty());
        assert(add_new(seq![], h) =~= seq![h]);
        assert(dedup_onto(seq![], seq![h]) == dedup_onto(seq![h], Seq::<Seq<char>>::empty()));
    } else {
        assert(!mention_at(line, 0));
        assert(tokens_from(line, 0) == tokens_from(line, 1));
        assert(tokens_from(line, 0) == Seq::<Seq<char>>::empty());
        assert(dedup_onto(seq![], Seq::<Seq<char>>::empty()) == Seq::<Seq<char>>::empty());
    }
}

/// An `@` right after a letter, a digit, `_` (as in an e-mail address) or `\`
/// (an escaped `@`) starts no mention.
pub proof fn law_embedded_or_escaped_at_is_no_mention(c: char, h: Seq<char>)
    requires
        ('a' <= c && c <= 'z') || ('A' <= c && c <= 'Z') || ('0' <= c && c <= '9') || c == '_' || c == '\\',
        lowercase_word(h),
    ensures
        mentions_of(seq![c, '@'] + h) == Seq::<Seq<char>>::empty(),
{
    let line = seq![c, '@'] + h;
    lemma_word_chars(h);
    assert forall|q: int| 2 <= q < line.len() implies #[trigger] line[q] != '@' && line[q] != '`' by {
        assert(line[q] == h[q - 2]);
    }
    assert(one_line(line)) by {
        assert forall|q: int| 0 <= q < line.len() implies #[trigger] line[q] != '\n' by {
            if q > 1 {
                assert(line[q] == h[q - 2]);
            }
        }
    }
    lemma_lead_space(line);
    assert(!is_space(line[0]));
    assert(trim_start(line) =~= line);
    lemma_one_line_mentions(line);
    lemma_skip_span(line, 2, line.len() as int);
    assert(tokens_from(line, line.len() as int) == Seq::<Seq<char>>::empty());
    assert(!mention_at(line, 1));
    assert(!mention_at(line, 0));
    assert(tokens_from(line, 1) == tokens_from(line, 2));
    assert(tokens_from(line, 0) == tokens_from(line, 1));
    assert(tokens_from(line, 0) == Seq::<Seq<char>>::empty());
    assert(dedup_onto(seq![], Seq::<Seq<char>>::empty()) == Seq::<Seq<char>>::empty());
}

/// A mention written inside inline code (between backticks) is not reported.
pub proof fn law_inline_code_hides_mentions(h: Seq<char>)
    requires
        lowercase_word(h),
    ensures
        mentions_of(seq!['`', '@'] + h + seq!['`']) == Seq::<Seq<char>>::empty(),
{
    let line = seq!['`', '@'] + h + seq!['`'];
    let n = line.len() as int;
    lemma_word_chars(h);
    assert forall|q: int| 2 <= q < n - 1 implies #[trigger] line[q] != '@' && line[q] != '`' by {
        assert(line[q] == h[q - 2]);
    }
    assert(one_line(line)) by {
        assert forall|q: int| 0 <= q < n implies #[trigger] line[q] != '\n' by {
            if 2 <= q < n - 1 {
                assert(line[q] == h[q - 2]);
            }
        }
    }
    lemma_lead_space(line);
    assert(!is_space(line[0]));
    assert(trim_start(line) =~= line);
    assert(line[1] == '@');
    lemma_one_line_mentions(line);
    lemma_skip_span(line, 2, n - 1);
    assert(line[n - 1] == '`');
    assert(!mention_at(line, n - 1));
    assert(tokens_from(line, n) == Seq::<Seq<char>>::empty());
    assert(backticks(line, 0) == 0);
    assert(backticks(line, 1) == 1);
    assert(!mention_at(line, 1));
    assert(!mention_at(line, 0));
    assert(tokens_from(line, n - 1) == tokens_from(line, n));
    assert(tokens_from(line, 1) == tokens_from(line, 2));
    assert(tokens_from(line, 0) == tokens_from(line, 1));
    assert(tokens_from(line, 0) == Seq::<Seq<char>>::empty());
    assert(dedup_onto(seq![], Seq::<Seq<char>>::empty()) == Seq::<Seq<char>>::empty());
}

/// Every character of `w` is white space.
pub open spec fn all_space(w: Seq<char>) -> bool {
    forall|i: int| 0 <= i < w.len() ==> is_space(#[trigger] w[i])
}

proof fn lemma_space_prefix(w: Seq<char>, line: Seq<char>)
    requires
        all_space(w),
    ensures
        lead_space(w + line) == w.len() + lead_space(line),
        trim_start(w + line) == trim_start(line),
    decreases w.len(),
{
    if w.len() == 0 {
        assert(w + line =~= line);
    } else {
        let rest = w.drop_first();
        assert((w + line)[0] == w[0]);
        assert((w + line).drop_first() =~= rest + line);
        assert forall|i: int| 0 <= i < rest.len() implies is_space(#[trigger] rest[i]) by {
            assert(rest[i] == w[i + 1]);
        }
        lemma_space_prefix(rest, line);
        lemma_lead_space(line);
        assert((w + line).skip((w.len() + lead_space(line)) as int) =~= line.skip(lead_space(line) as int));
    }
}

/// A line whose text, after any leading white space, begins with three
/// backticks opens or closes a backtick fence, and one that begins with three
/// tildes a tilde fence: indenting a line never changes whether it is a fence
/// line.
pub proof fn law_indented_fence_lines(w: Seq<char>, line: Seq<char>)
    requires
        all_space(w),
    ensures
        fence_marker(w + line) == fence_marker(line),
        (line.len() >= 3 && line[0] == '`' && line[1] == '`' && line[2] == '`') ==> fence_marker(w + line) == Some('`'),
        (line.len() >= 3 && line[0] == '~' && line[1] == '~' && line[2] == '~') ==> fence_marker(w + line) == Some('~'),
{
    lemma_space_prefix(w, line);
    if line.len() >= 3 && (line[0] == '`' || line[0] == '~') {
        assert(!is_space(line[0]));
        assert(lead_space(line) == 0);
        assert(trim_start(line) =~= line);
    }
}

/// The three characters that open or close a backtick fence.
pub open spec fn backtick_fence() -> Seq<char> {
    seq!['`', '`', '`']
}

/// Inside a backtick fence, lines that do not begin (after white space) with
/// three backticks are skipped.
proof fn lemma_collect_inside(acc: Seq<Seq<char>>, inner: Seq<Seq<char>>, tail: Seq<Seq<char>>)
    requires
        forall|k: int| 0 <= k < inner.len() ==> !has_backtick_fence(#[trigger] inner[k]),
    ensures
        collect(acc, inner + tail, Some('`')) == collect(acc, tail, Some('`')),
    decreases inner.len(),
{
    if inner.len() == 0 {
        assert(inner + tail =~= tail);
    } else {
        let all = inner + tail;
        assert(all[0] == inner[0]);
        assert(all.drop_first() =~= inner.drop_first() + tail);
        assert(!has_backtick_fence(inner[0]));
        assert(fence_marker(inner[0]) != Some('`'));
        let rest = inner.drop_first();
        assert forall|k: int| 0 <= k < rest.len() implies !has_backtick_fence(#[trigger] rest[k]) by {
            assert(rest[k] == inner[k + 1]);
        }
        lemma_collect_inside(acc, rest, tail);
    }
}

/// Whether `line`, after its leading white space, begins with three backticks.
pub open spec fn has_backtick_fence(line: Seq<char>) -> bool {
    let t = trim_start(line);
    t.len() >= 3 && t[0] == '`' && t[1] == '`' && t[2] == '`'
}

/// A fenced code block, its fence lines indented by white space, holds no
/// mentions: the mentions collected from the block followed by more lines are
/// those of the lines after it. The block opens with a line of white space,
/// three backticks and any info text, holds lines that do not begin (after
/// white space) with three backticks, and closes with a line of white space,
/// three backticks and any text.
pub proof fn law_indented_fenced_block_hides_mentions(
    acc: Seq<Seq<char>>,
    w1: Seq<char>,
    info: Seq<char>,
    inner: Seq<Seq<char>>,
    w2: Seq<char>,
    after: Seq<char>,
    rest: Seq<Seq<char>>,
)
    requires
        all_space(w1),
        all_space(w2),
        forall|k: int| 0 <= k < inner.len() ==> !has_backtick_fence(#[trigger] inner[k]),
    ensures
        collect(acc, seq![w1 + backtick_fence() + info] + inner + seq![w2 + backtick_fence() + after] + rest, None)
            == collect(acc, rest, None),
{
    let open = w1 + backtick_fence() + info;
    let close = w2 + backtick_fence() + after;
    assert(open =~= w1 + (backtick_fence() + info));
    assert(close =~= w2 + (backtick_fence() + after));
    law_indented_fence_lines(w1, backtick_fence() + info);
    law_indented_fence_lines(w2, backtick_fence() + after);
    let all = seq![open] + inner + seq![close] + rest;
    assert(all[0] == open);
    assert(all.drop_first() =~= inner + (seq![close] + rest));
    lemma_collect_inside(acc, inner, seq![close] + rest);
    let tail = seq![close] + rest;
    assert(tail[0] == close);
    assert(tail.drop_first() =~= rest);
}

/// `x` holds no line break.
pub open spec fn one_line(x: Seq<char>) -> bool {
    forall|i: int| 0 <= i < x.len() ==> #[trigger] x[i] != '\n'
}

proof fn lemma_line_end_found(s: Seq<char>, i: int)
    requires
        0 <= i <= s.len(),
    ensures
        i <= line_end(s, i) <= s.len(),
        forall|q: int| i <= q < line_end(s, i) ==> #[trigger] s[q] != '\n',
        line_end(s, i) < s.len() ==> s[line_end(s, i)] == '\n',
    decreases s.len() - i,
{
    if i < s.len() && s[i] != '\n' {
        lemma_line_end_found(s, i + 1);
    }
}

/// Splitting at a line break splits the lines.
proof fn lemma_split_lines_join(x: Seq<char>, y: Seq<char>)
    ensures
        split_lines(x + seq!['\n'] + y) == split_lines(x) + split_lines(y),
    decreases x.len(),
{
    let s = x + seq!['\n'] + y;
    lemma_line_end_found(x, 0);
    let k = line_end(x, 0);
    assert forall|q: int| 0 <= q < k implies #[trigger] s[q] != '\n' by {
        assert(s[q] == x[q]);
    }
    if k < x.len() {
        assert(s[k] == x[k]);
        lemma_line_end(s, 0, k);
        assert(s.take(k) =~= x.take(k));
        let x2 = x.skip(k + 1);
        assert(s.skip(k + 1) =~= x2 + seq!['\n'] + y);
        lemma_split_lines_join(x2, y);
        assert(split_lines(s) =~= seq![x.take(k)] + (split_lines(x2) + split_lines(y)));
        assert(split_lines(x) == seq![x.take(k)] + split_lines(x2));
        assert(split_lines(s) =~= split_lines(x) + split_lines(y));
    } else {
        assert(s[x.len() as int] == '\n');
        lemma_line_end(s, 0, x.len() as int);
        assert(s.take(x.len() as int) =~= x);
        assert(s.skip((x.len() + 1) as int) =~= y);
        assert(split_lines(x) == seq![x]);
    }
}

proof fn lemma_split_one_line(x: Seq<char>, y: Seq<char>)
    requires
        one_line(x),
    ensures
        split_lines(x + seq!['\n'] + y) == seq![x] + split_lines(y),
{
    lemma_split_lines_join(x, y);
    lemma_line_end(x, 0, x.len() as int);
    assert(split_lines(x) == seq![x]);
}

/// The fence state after `lines`, starting in `fence`.
pub open spec fn fence_after(lines: Seq<Seq<char>>, fence: Option<char>) -> Option<char>
    decreases lines.len(),
{
    if lines.len() == 0 {
        fence
    } else {
        match fence_marker(lines[0]) {
            Some(m) => fence_after(lines.drop_first(), next_fence(fence, m)),
            None => fence_after(lines.drop_first(), fence),
        }
    }
}

proof fn lemma_collect_split(acc: Seq<Seq<char>>, a: Seq<Seq<char>>, b: Seq<Seq<char>>, fence: Option<char>)
    ensures
        collect(acc, a + b, fence) == collect(collect(acc, a, fence), b, fence_after(a, fence)),
    decreases a.len(),
{
    if a.len() == 0 {
        assert(a + b =~= b);
    } else {
        let ab = a + b;
        assert(ab[0] == a[0]);
        assert(ab.drop_first() =~= a.drop_first() + b);
        let line = a[0];
        match fence_marker(line) {
            Some(m) => lemma_collect_split(acc, a.drop_first(), b, next_fence(fence, m)),
            None => if fence is Some {
                lemma_collect_split(acc, a.drop_first(), b, fence);
            } else {
                lemma_collect_split(dedup_onto(acc, tokens_from(line, 0)), a.drop_first(), b, fence);
            },
        }
    }
}

/// The text `a`, a line break, and `b`.
pub open spec fn joined(a: Seq<char>, b: Seq<char>) -> Seq<char> {
    a + seq!['\n'] + b
}

/// In a Markdown text, a fenced code block whose fence lines are indented by
/// white space holds no mentions: the mentions of the text are those of the
/// text with the block taken out. The block follows text `before` that leaves
/// no fence open; it opens with a line of white space, three backticks and any
/// info text, holds the lines of `body`, none of which begins (after white
/// space) with three backticks, and closes with a line of white space, three
/// backticks and any text.
pub proof fn law_indented_fenced_block_in_text(
    before: Seq<char>,
    w1: Seq<char>,
    info: Seq<char>,
    body: Seq<char>,
    w2: Seq<char>,
    after: Seq<char>,
    rest: Seq<char>,
)
    requires
        fence_after(split_lines(before), None) is None,
        all_space(w1) && one_line(w1),
        all_space(w2) && one_line(w2),
        one_line(info),
        one_line(after),
        forall|k: int| 0 <= k < split_lines(body).len() ==> !has_backtick_fence(#[trigger] split_lines(body)[k]),
    ensures
        mentions_of(joined(before, joined(w1 + backtick_fence() + info, joined(body, joined(w2 + backtick_fence() + after, rest)))))
            == mentions_of(joined(before, rest)),
{
    let open = w1 + backtick_fence() + info;
    let close = w2 + backtick_fence() + after;
    assert(one_line(open)) by {
        assert forall|i: int| 0 <= i < open.len() implies #[trigger] open[i] != '\n' by {
            if i < w1.len() {
                assert(open[i] == w1[i]);
            } else if i < w1.len() + 3 {
                assert(open[i] == backtick_fence()[i - w1.len()]);
            } else {
                assert(open[i] == info[i - w1.len() - 3]);
            }
        }
    }
    assert(one_line(close)) by {
        assert forall|i: int| 0 <= i < close.len() implies #[trigger] close[i] != '\n' by {
            if i < w2.len() {
                assert(close[i] == w2[i]);
            } else if i < w2.len() + 3 {
                assert(close[i] == backtick_fence()[i - w2.len()]);
            } else {
                assert(close[i] == after[i - w2.len() - 3]);
            }
        }
    }
    let lb = split_lines(before);
    let lbody = split_lines(body);
    let lr = split_lines(rest);
    lemma_split_one_line(close, rest);
    lemma_split_lines_join(body, joined(close, rest));
    lemma_split_one_line(open, joined(body, joined(close, rest)));
    lemma_split_lines_join(before, joined(open, joined(body, joined(close, rest))));
    lemma_split_lines_join(before, rest);
    let block = seq![open] + lbody + seq![close] + lr;
    assert(split_lines(joined(open, joined(body, joined(close, rest)))) =~= block);
    let acc = collect(seq![], lb, None);
    lemma_collect_split(seq![], lb, block, None);
    lemma_collect_split(seq![], lb, lr, None);
    law_indented_fenced_block_hides_mentions(acc, w1, info, lbody, w2, after, lr);
}

/// Parses ordered, deduplicated mentions outside fenced and inline Markdown
/// code.
pub fn parse_mentions(markdown: &str) -> (mentions: Vec<String>)
    ensures
        string_views(mentions@) == mentions_of(markdown@),
{
    let text = chars_of(markdown);
    let mut found: Vec<Vec<char>> = Vec::new();
    let mut fence: Option<char> = None;
    let mut start: usize = 0;
    let ghost target = mentions_of(text@);
    assert(text@.skip(0) =~= text@);
    assert(views(found@) =~= Seq::<Seq<char>>::empty());
    loop
        invariant_except_break
            start <= text.len(),
            collect(views(found@), split_lines(text@.skip(start as int)), fence) == target,
        ensures
            views(found@) == target,
        decreases text.len() - start,
    {
        let ghost found0 = views(found@);
        let ghost fence0 = fence;
        let ghost rest = text@.skip(start as int);
        let mut end = start;
        while end < text.len() && text[end] != '\n'
            invariant
                start <= end <= text.len(),
                forall|q: int| start <= q < end ==> #[trigger] text@[q] != '\n',
            decreases text.len() - end,
        {
            end += 1;
        }
        proof {
            assert forall|q: int| 0 <= q < end - start implies #[trigger] rest[q] != '\n' by {
                assert(rest[q] == text@[start + q]);
            }
            if end < text.len() {
                assert(rest[end - start] == text@[end as int]);
            }
            lemma_line_end(rest, 0, end - start);
        }
        let line = crate::text::slice_chars(&text, start, end);
        let ghost lines = split_lines(rest);
        let ghost k = end - start;
        proof {
            if k < rest.len() {
                assert(lines == seq![rest.take(k)] + split_lines(rest.skip(k + 1)));
                assert(line@ =~= rest.take(k));
                assert(rest.skip(k + 1) =~= text@.skip(end + 1));
            } else {
                assert(lines == seq![rest]);
                assert(line@ =~= rest);
            }
            assert(lines[0] == line@);
        }
        let marker = fence_marker_exec(&line);
        match marker {
            Some(m) => {
                if fence == Some(m) {
                    fence = None;
                } else if fence.is_none() {
                    fence = Some(m);
                }
            },
            None => {
                if fence.is_none() {
                    parse_line(&line, &mut found);
                }
            },
        }
        assert(collect(found0, lines, fence0) == collect(views(found@), lines.drop_first(), fence));
        if end >= text.len() {
            assert(lines.drop_first() =~= Seq::<Seq<char>>::empty());
            break;
        }
        assert(lines.drop_first() =~= split_lines(text@.skip(end + 1)));
        start = end + 1;
    }
    let mut result: Vec<String> = Vec::new();
    let mut i: usize = 0;
    while i < found.len()
        invariant
            i <= found.len(),
            views(found@) == target,
            result.len() == i,
            string_views(result@) == views(found@).take(i as int),
        decreases found.len() - i,
    {
        let s = string_of(&found[i]);
        let ghost before = result@;
        result.push(s);
        assert(result@ == before.push(s));
        assert(views(found@)[i as int] == found@[i as int]@);
        assert forall|j: int| 0 <= j < i + 1 implies #[trigger] string_views(result@)[j] == views(found@).take(i + 1)[j] by {
            if j < i {
                assert(string_views(before)[j] == views(found@).take(i as int)[j]);
                assert(result@[j] == before[j]);
            }
        }
        assert(string_views(result@) =~= views(found@).take(i + 1));
        i += 1;
    }
    assert(views(found@).take(found.len() as int) =~= views(found@));
    result
}

} // verus!
