use crate::text::{chars_of, text_of, texts};
use vstd::prelude::*;

verus! {

/// A character with the Unicode property White_Space.
pub open spec fn is_space(c: char) -> bool {
    let n = c as u32;
    (0x09 <= n && n <= 0x0D) || n == 0x20 || n == 0x85 || n == 0xA0 || n == 0x1680 || (0x2000 <= n
        && n <= 0x200A) || n == 0x2028 || n == 0x2029 || n == 0x202F || n == 0x205F || n == 0x3000
}

/// Whether a word begins at `i`: the character there is no white space, and the one before
/// it, if there is one, is.
pub open spec fn is_word_start(s: Seq<char>, i: int) -> bool {
    0 <= i < s.len() && !is_space(s[i]) && (i == 0 || is_space(s[i - 1]))
}

/// Where the run of characters other than white space that holds `i` ends.
pub open spec fn word_end(s: Seq<char>, i: int) -> int
    decreases s.len() - i,
{
    if 0 <= i < s.len() && !is_space(s[i]) {
        word_end(s, i + 1)
    } else {
        i
    }
}

/// The words of `s`: its maximal runs of characters other than white space, in order.
pub open spec fn words(s: Seq<char>) -> Seq<Seq<char>> {
    Seq::new(s.len(), |i: int| i).filter(|i: int| is_word_start(s, i)).map_values(
        |i: int| s.subrange(i, word_end(s, i)),
    )
}

/// The token that an `Authorization` header of the form `Bearer <token>` carries: the header
/// is made of exactly two words and the first is `Bearer`.
pub open spec fn bearer_token(header: Seq<char>) -> Option<Seq<char>> {
    let parts = words(header);
    if parts.len() == 2 && parts[0] == "Bearer"@ {
        Some(parts[1])
    } else {
        None
    }
}

/// Whether `c` has the Unicode property White_Space.
pub fn is_whitespace(c: char) -> (r: bool)
    ensures
        r == is_space(c),
{
    let n: u32 = c as u32;
    (0x09 <= n && n <= 0x0D) || n == 0x20 || n == 0x85 || n == 0xA0 || n == 0x1680 || (0x2000 <= n
        && n <= 0x200A) || n == 0x2028 || n == 0x2029 || n == 0x202F || n == 0x205F || n == 0x3000
}

/// The run that starts at `i` ends at or behind `i`, within `s`, and holds no white space.
proof fn lemma_word_end(s: Seq<char>, i: int)
    requires
        0 <= i <= s.len(),
    ensures
        i <= word_end(s, i) <= s.len(),
        forall|j: int| i <= j < word_end(s, i) ==> !is_space(#[trigger] s[j]),
        word_end(s, i) < s.len() ==> is_space(s[word_end(s, i)]),
    decreases s.len() - i,
{
    if i < s.len() && !is_space(s[i]) {
        lemma_word_end(s, i + 1);
    }
}

/// Every word is a run of one or more characters of which none is white space.
pub proof fn law_words_hold_no_space(s: Seq<char>, k: int)
    requires
        0 <= k < words(s).len(),
    ensures
        words(s)[k].len() > 0,
        forall|j: int| 0 <= j < words(s)[k].len() ==> !is_space(#[trigger] words(s)[k][j]),
{
    let indices = Seq::new(s.len(), |i: int| i);
    let starts = |i: int| is_word_start(s, i);
    indices.lemma_filter_pred(starts, k);
    let i = indices.filter(starts)[k];
    assert(is_word_start(s, i));
    lemma_word_end(s, i);
    lemma_word_end(s, i + 1);
    assert(words(s)[k] == s.subrange(i, word_end(s, i)));
}

/// The token of a bearer header is not empty and holds no white space.
pub proof fn law_bearer_token_is_a_word(header: Seq<char>)
    requires
        bearer_token(header) is Some,
    ensures
        bearer_token(header)->Some_0.len() > 0,
        forall|j: int|
            0 <= j < bearer_token(header)->Some_0.len() ==> !is_space(
                #[trigger] bearer_token(header)->Some_0[j],
            ),
{
    law_words_hold_no_space(header, 1);
}

/// Every character of `s` is white space.
pub open spec fn all_space(s: Seq<char>) -> bool {
    forall|i: int| 0 <= i < s.len() ==> is_space(#[trigger] s[i])
}

/// No character of `s` is white space.
pub open spec fn no_space(s: Seq<char>) -> bool {
    forall|i: int| 0 <= i < s.len() ==> !is_space(#[trigger] s[i])
}

/// The line made of white space, a first word, white space, a second word and white
/// space.
pub open spec fn two_word_line(
    lead: Seq<char>,
    first: Seq<char>,
    gap: Seq<char>,
    second: Seq<char>,
    trail: Seq<char>,
) -> Seq<char> {
    lead + first + gap + second + trail
}

/// `header` reads: white space or none, `Bearer`, white space, `token`, white space or
/// none; and `token` is not empty and holds no white space.
pub open spec fn is_bearer_header(header: Seq<char>, token: Seq<char>) -> bool {
    &&& token.len() > 0
    &&& no_space(token)
    &&& exists|lead: Seq<char>, gap: Seq<char>, trail: Seq<char>|
        all_space(lead) && all_space(gap) && gap.len() > 0 && all_space(trail) && header
            == #[trigger] two_word_line(lead, "Bearer"@, gap, token, trail)
}

/// The indices from `lo` up to `hi`.
spec fn span(lo: int, hi: int) -> Seq<int> {
    Seq::new((hi - lo) as nat, |k: int| lo + k)
}

/// The indices from `lo` up to `hi` at which a word of `s` begins.
spec fn starts_in(s: Seq<char>, lo: int, hi: int) -> Seq<int> {
    span(lo, hi).filter(|i: int| is_word_start(s, i))
}

proof fn lemma_starts_split(s: Seq<char>, lo: int, mid: int, hi: int)
    requires
        lo <= mid <= hi,
    ensures
        starts_in(s, lo, hi) == starts_in(s, lo, mid) + starts_in(s, mid, hi),
{
    assert(span(lo, hi) =~= span(lo, mid) + span(mid, hi));
    Seq::filter_distributes_over_add(span(lo, mid), span(mid, hi), |i: int| is_word_start(s, i));
}

proof fn lemma_starts_none(s: Seq<char>, lo: int, hi: int)
    requires
        lo <= hi,
        forall|i: int| lo <= i < hi ==> !is_word_start(s, i),
    ensures
        starts_in(s, lo, hi) == Seq::<int>::empty(),
    decreases hi - lo,
{
    reveal(Seq::filter);
    if lo < hi {
        lemma_starts_none(s, lo, hi - 1);
        assert(span(lo, hi).drop_last() =~= span(lo, hi - 1));
    }
    assert(starts_in(s, lo, hi) =~= Seq::<int>::empty());
}

proof fn lemma_starts_one(s: Seq<char>, at: int)
    requires
        is_word_start(s, at),
    ensures
        starts_in(s, at, at + 1) == seq![at],
{
    reveal(Seq::filter);
    lemma_starts_none(s, at, at);
    assert(span(at, at + 1).drop_last() =~= span(at, at));
    assert(span(at, at + 1).last() == at);
    assert(starts_in(s, at, at + 1) =~= seq![at]);
}

/// The indices at which the words of `s` begin, in order, make up its words.
proof fn lemma_words_by_starts(s: Seq<char>)
    ensures
        words(s) == starts_in(s, 0, s.len() as int).map_values(
            |i: int| s.subrange(i, word_end(s, i)),
        ),
{
    assert(span(0, s.len() as int) =~= Seq::new(s.len(), |i: int| i));
}

/// A run without white space that is followed by white space, or by nothing, ends where
/// the white space begins.
proof fn lemma_word_end_is(s: Seq<char>, from: int, end: int)
    requires
        0 <= from <= end <= s.len(),
        forall|j: int| from <= j < end ==> !is_space(#[trigger] s[j]),
        end < s.len() ==> is_space(s[end]),
    ensures
        word_end(s, from) == end,
    decreases end - from,
{
    if from < end {
        lemma_word_end_is(s, from + 1, end);
    }
}

/// A line of two words has these two words, whatever white space stands around them.
pub proof fn law_two_words(
    lead: Seq<char>,
    first: Seq<char>,
    gap: Seq<char>,
    second: Seq<char>,
    trail: Seq<char>,
)
    requires
        all_space(lead),
        all_space(gap),
        all_space(trail),
        gap.len() > 0,
        first.len() > 0,
        second.len() > 0,
        no_space(first),
        no_space(second),
    ensures
        words(two_word_line(lead, first, gap, second, trail)) == seq![first, second],
{
    let s = two_word_line(lead, first, gap, second, trail);
    let a = lead.len() as int;
    let ea = a + first.len();
    let b = ea + gap.len();
    let eb = b + second.len();
    let n = s.len() as int;
    assert(n == eb + trail.len());
    assert forall|i: int| 0 <= i < a implies is_space(#[trigger] s[i]) by {
        assert(s[i] == lead[i]);
    }
    assert forall|i: int| a <= i < ea implies !is_space(#[trigger] s[i]) by {
        assert(s[i] == first[i - a]);
    }
    assert forall|i: int| ea <= i < b implies is_space(#[trigger] s[i]) by {
        assert(s[i] == gap[i - ea]);
    }
    assert forall|i: int| b <= i < eb implies !is_space(#[trigger] s[i]) by {
        assert(s[i] == second[i - b]);
    }
    assert forall|i: int| eb <= i < n implies is_space(#[trigger] s[i]) by {
        assert(s[i] == trail[i - eb]);
    }
    assert(is_word_start(s, a)) by {
        if a > 0 {
            assert(is_space(s[a - 1]));
        }
    }
    assert(is_word_start(s, b)) by {
        assert(is_space(s[b - 1]));
    }
    assert forall|i: int| 0 <= i < a implies !is_word_start(s, i) by {
        assert(is_space(s[i]));
    }
    assert forall|i: int| a + 1 <= i < b implies !is_word_start(s, i) by {
        if i < ea {
            assert(!is_space(s[i - 1]));
        } else {
            assert(is_space(s[i]));
        }
    }
    assert forall|i: int| b + 1 <= i < n implies !is_word_start(s, i) by {
        if i < eb {
            assert(!is_space(s[i - 1]));
        } else {
            assert(is_space(s[i]));
        }
    }
    lemma_starts_none(s, 0, a);
    lemma_starts_one(s, a);
    lemma_starts_none(s, a + 1, b);
    lemma_starts_one(s, b);
    lemma_starts_none(s, b + 1, n);
    lemma_starts_split(s, 0, a, n);
    lemma_starts_split(s, a, a + 1, n);
    lemma_starts_split(s, a + 1, b, n);
    lemma_starts_split(s, b, b + 1, n);
    assert(starts_in(s, 0, n) =~= seq![a, b]);
    lemma_words_by_starts(s);
    lemma_word_end_is(s, a, ea);
    lemma_word_end_is(s, b, eb);
    assert(s.subrange(a, ea) =~= first);
    assert(s.subrange(b, eb) =~= second);
    assert(words(s) =~= seq![first, second]);
}

/// The indices at which words begin come in rising order and lie within the span.
proof fn lemma_starts_rise(s: Seq<char>, lo: int, hi: int)
    requires
        lo <= hi,
    ensures
        forall|k: int|
            0 <= k < starts_in(s, lo, hi).len() ==> lo <= #[trigger] starts_in(s, lo, hi)[k] < hi,
        forall|k: int, l: int|
            0 <= k < l < starts_in(s, lo, hi).len() ==> #[trigger] starts_in(s, lo, hi)[k]
                < #[trigger] starts_in(s, lo, hi)[l],
    decreases hi - lo,
{
    reveal(Seq::filter);
    let found = starts_in(s, lo, hi);
    if lo < hi {
        let before = starts_in(s, lo, hi - 1);
        lemma_starts_rise(s, lo, hi - 1);
        assert(span(lo, hi).drop_last() =~= span(lo, hi - 1));
        assert(span(lo, hi).last() == hi - 1);
        assert(found == if is_word_start(s, hi - 1) {
            before.push(hi - 1)
        } else {
            before
        });
        assert forall|k: int| 0 <= k < found.len() implies lo <= #[trigger] found[k] < hi by {
            if k < before.len() {
                assert(found[k] == before[k]);
            }
        }
        assert forall|k: int, l: int| 0 <= k < l < found.len() implies #[trigger] found[k]
            < #[trigger] found[l] by {
            assert(found[k] == before[k]);
            if l < before.len() {
                assert(found[l] == before[l]);
            }
        }
    } else {
        assert(span(lo, hi).len() == 0);
        assert(found.len() == 0);
    }
}

/// Before a character that is no white space a word begins, at the latest where that
/// character stands.
proof fn lemma_start_before(s: Seq<char>, lo: int, at: int) -> (start: int)
    requires
        0 <= lo <= at < s.len(),
        !is_space(s[at]),
        lo == 0 || is_space(s[lo - 1]),
    ensures
        lo <= start <= at,
        is_word_start(s, start),
    decreases at - lo,
{
    if !is_space(s[lo]) {
        lo
    } else {
        lemma_start_before(s, lo + 1, at)
    }
}

/// A line that has two words is made of white space or none, the first word, white
/// space, the second word, and white space or none.
pub proof fn law_two_words_only(s: Seq<char>) -> (around: (Seq<char>, Seq<char>, Seq<char>))
    requires
        words(s).len() == 2,
    ensures
        all_space(around.0),
        all_space(around.1),
        around.1.len() > 0,
        all_space(around.2),
        s == two_word_line(around.0, words(s)[0], around.1, words(s)[1], around.2),
{
    let n = s.len() as int;
    let starts = starts_in(s, 0, n);
    lemma_words_by_starts(s);
    lemma_starts_rise(s, 0, n);
    let a = starts[0];
    let b = starts[1];
    span(0, n).lemma_filter_pred(|i: int| is_word_start(s, i), 0);
    span(0, n).lemma_filter_pred(|i: int| is_word_start(s, i), 1);
    assert(is_word_start(s, a) && is_word_start(s, b) && a < b);
    assert forall|i: int| is_word_start(s, i) implies i == a || i == b by {
        assert(span(0, n)[i] == i);
        span(0, n).lemma_filter_contains(|i: int| is_word_start(s, i), i);
        let k = choose|k: int| 0 <= k < starts.len() && starts[k] == i;
        assert(k == 0 || k == 1);
    }
    let ea = word_end(s, a);
    let eb = word_end(s, b);
    lemma_word_end(s, a);
    lemma_word_end(s, b);
    assert(ea < b) by {
        if b < ea {
            assert(!is_space(s[b - 1]));
        }
    }
    let lead = s.subrange(0, a);
    let gap = s.subrange(ea, b);
    let trail = s.subrange(eb, n);
    assert forall|i: int| 0 <= i < lead.len() implies is_space(#[trigger] lead[i]) by {
        if !is_space(s[i]) {
            let start = lemma_start_before(s, 0, i);
        }
    }
    assert forall|i: int| 0 <= i < gap.len() implies is_space(#[trigger] gap[i]) by {
        if !is_space(s[ea + i]) {
            let start = lemma_start_before(s, ea + 1, ea + i);
        }
    }
    assert forall|i: int| 0 <= i < trail.len() implies is_space(#[trigger] trail[i]) by {
        if !is_space(s[eb + i]) {
            let start = lemma_start_before(s, eb + 1, eb + i);
        }
    }
    assert(s =~= two_word_line(lead, s.subrange(a, ea), gap, s.subrange(b, eb), trail));
    (lead, gap, trail)
}

/// A header carries the bearer token `token` exactly when it reads `Bearer`, white space
/// and `token`, with white space or nothing before and behind.
pub proof fn law_bearer_header_shape(header: Seq<char>, token: Seq<char>)
    ensures
        bearer_token(header) == Some(token) <==> is_bearer_header(header, token),
{
    reveal_strlit("Bearer");
    if bearer_token(header) == Some(token) {
        let around = law_two_words_only(header);
        law_words_hold_no_space(header, 1);
        assert(header == two_word_line(around.0, "Bearer"@, around.1, token, around.2));
    }
    if is_bearer_header(header, token) {
        let (lead, gap, trail) = choose|lead: Seq<char>, gap: Seq<char>, trail: Seq<char>|
            all_space(lead) && all_space(gap) && gap.len() > 0 && all_space(trail) && header
                == #[trigger] two_word_line(lead, "Bearer"@, gap, token, trail);
        law_two_words(lead, "Bearer"@, gap, token, trail);
    }
}

/// Splits `s` at white space, as `str::split_whitespace` does.
pub fn split_words(s: &str) -> (parts: Vec<String>)
    ensures
        texts(parts@) == words(s@),
{
    let chars = chars_of(s);
    let ghost indices = Seq::new(s@.len(), |i: int| i);
    let ghost starts = |i: int| is_word_start(s@, i);
    let ghost cut = |i: int| s@.subrange(i, word_end(s@, i));
    let mut parts: Vec<String> = Vec::new();
    let mut i: usize = 0;
    proof {
        reveal(Seq::filter);
        assert(indices.take(0).filter(starts) =~= Seq::<int>::empty());
        assert(texts(parts@) =~= indices.take(0).filter(starts).map_values(cut));
    }
    while i < chars.len()
        invariant
            i <= chars.len(),
            chars@ == s@,
            indices == Seq::new(s@.len(), |i: int| i),
            starts == |i: int| is_word_start(s@, i),
            cut == |i: int| s@.subrange(i, word_end(s@, i)),
            texts(parts@) == indices.take(i as int).filter(starts).map_values(cut),
        decreases chars.len() - i,
    {
        proof {
            reveal(Seq::filter);
            assert(indices.take(i + 1).drop_last() =~= indices.take(i as int));
            assert(indices.take(i + 1).last() == i);
        }
        let begins = !is_whitespace(chars[i]) && (i == 0 || is_whitespace(chars[i - 1]));
        if begins {
            let mut j: usize = i;
            while j < chars.len() && !is_whitespace(chars[j])
                invariant
                    i <= j <= chars.len(),
                    chars@ == s@,
                    word_end(s@, i as int) == word_end(s@, j as int),
                decreases chars.len() - j,
            {
                j += 1;
            }
            let word = text_of(&chars, i, j);
            let ghost before = parts@;
            parts.push(word);
            proof {
                let found = indices.take(i as int).filter(starts);
                assert(texts(before.push(word)) =~= texts(before).push(word@));
                assert(found.push(i as int).map_values(cut) =~= found.map_values(cut).push(
                    cut(i as int),
                ));
            }
        }
        i += 1;
    }
    proof {
        assert(indices.take(indices.len() as int) =~= indices);
    }
    parts
}

/// Reads the bearer token out of an `Authorization` header.
pub fn parse_bearer(header: &str) -> (token: Option<String>)
    ensures
        match token {
            Some(t) => bearer_token(header@) == Some(t@),
            None => bearer_token(header@) is None,
        },
{
    let mut parts = split_words(header);
    if parts.len() == 2 && parts[0].as_str().eq("Bearer") {
        let ghost all = parts@;
        let token = parts.pop();
        proof {
            assert(texts(all)[1] == all[1]@);
            assert(texts(all)[0] == all[0]@);
        }
        token
    } else {
        proof {
            if parts.len() == 2 {
                assert(texts(parts@)[0] == parts@[0]@);
            }
        }
        None
    }
}

} // verus!
