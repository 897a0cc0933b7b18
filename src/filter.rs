//! Forbidden-term filter: classifies free text as safe or unsafe.
//!
//! Text is lowercased, every punctuation or symbol character is replaced by a
//! space, and the result is padded with one space on each side. A term flags
//! the text when `" <term> "` occurs in it: a cheap approximation of whole-word
//! matching that needs no tokenizer.

use vstd::prelude::*;

verus! {

/// What `str::to_lowercase` returns for a string: Unicode lowercasing.
pub uninterp spec fn lower_of(s: Seq<char>) -> Seq<char>;

/// Relies on `str::to_lowercase`: its result depends on the characters alone,
/// and the empty string stays empty.
#[verifier::external_body]
fn lowercase(s: &str) -> (r: String)
    ensures
        r@ == lower_of(s@),
        s@.len() == 0 ==> r@.len() == 0,
{
    s.to_lowercase()
}

/// The characters that normalization turns into a space.
pub open spec fn is_separator(c: char) -> bool {
    c == '(' || c == ')' || c == ',' || c == '"' || c == '.' || c == ';' || c == ':' || c
        == '\'' || c == '!' || c == '@' || c == '#' || c == '$' || c == '%' || c == '^' || c
        == '&' || c == '*' || c == '-' || c == '_' || c == '+' || c == '=' || c == '`' || c
        == '~' || c == '\n' || c == '\r' || c == '\\' || c == '/' || c == '{' || c == '}' || c
        == '\u{b0}' || c == '\u{2019}' || c == '\u{2018}' || c == '>' || c == '<' || c
        == '\u{bb}' || c == '\u{a2}' || c == '?'
}

/// Replaces every separator by a space.
pub open spec fn normalize(s: Seq<char>) -> Seq<char> {
    s.map_values(|c: char| if is_separator(c) { ' ' } else { c })
}

/// `s` with one space added on each side.
pub open spec fn padded(s: Seq<char>) -> Seq<char> {
    seq![' '] + s + seq![' ']
}

/// The text as the filter searches it: normalized and padded.
pub open spec fn prepared(lowered: Seq<char>) -> Seq<char> {
    padded(normalize(lowered))
}

/// `part` stands in `text` from index `i` on.
pub open spec fn occurs_at(text: Seq<char>, part: Seq<char>, i: int) -> bool {
    0 <= i && i + part.len() <= text.len() && text.subrange(i, i + part.len()) == part
}

/// `part` is a contiguous piece of `text`.
pub open spec fn contains_seq(text: Seq<char>, part: Seq<char>) -> bool {
    exists|i: int| occurs_at(text, part, i)
}

/// Some term of `terms`, padded, occurs in the prepared form of `lowered`.
pub open spec fn flags(terms: Seq<Seq<char>>, lowered: Seq<char>) -> bool {
    exists|k: int|
        0 <= k < terms.len() && #[trigger] contains_seq(prepared(lowered), padded(terms[k]))
}

/// Drops the spaces at the start of `s`.
pub open spec fn trim_start(s: Seq<char>) -> Seq<char>
    decreases s.len(),
{
    if s.len() > 0 && s[0] == ' ' {
        trim_start(s.drop_first())
    } else {
        s
    }
}

/// Drops the spaces at the end of `s`.
pub open spec fn trim_end(s: Seq<char>) -> Seq<char>
    decreases s.len(),
{
    if s.len() > 0 && s.last() == ' ' {
        trim_end(s.drop_last())
    } else {
        s
    }
}

/// Drops the spaces at both ends of `s`.
pub open spec fn trim_spaces(s: Seq<char>) -> Seq<char> {
    trim_end(trim_start(s))
}

/// A usable term: not empty, and no space at either end.
pub open spec fn is_term(t: Seq<char>) -> bool {
    t.len() > 0 && t[0] != ' ' && t.last() != ' '
}

/// The terms that a list of lines yields, in order: each line lowercased and
/// trimmed, blank lines left out.
pub open spec fn term_list(lines: Seq<Seq<char>>) -> Seq<Seq<char>>
    decreases lines.len(),
{
    if lines.len() == 0 {
        Seq::empty()
    } else {
        let rest = term_list(lines.drop_last());
        let t = trim_spaces(lower_of(lines.last()));
        if t.len() == 0 {
            rest
        } else {
            rest.push(t)
        }
    }
}

/// Copies the characters of `s` into a vector.
pub fn chars_of(s: &str) -> (r: Vec<char>)
    ensures
        r@ == s@,
{
    broadcast use vstd::string::group_string_axioms;

    let mut out: Vec<char> = Vec::new();
    for c in it: s.chars()
        invariant
            out@ == it.seq().take(it.index() as int),
            it.seq() == s@,
    {
        out.push(c);
    }
    out
}

/// Tells whether `c` is turned into a space by normalization.
pub fn is_separator_char(c: char) -> (r: bool)
    ensures
        r == is_separator(c),
{
    c == '(' || c == ')' || c == ',' || c == '"' || c == '.' || c == ';' || c == ':' || c
        == '\'' || c == '!' || c == '@' || c == '#' || c == '$' || c == '%' || c == '^' || c
        == '&' || c == '*' || c == '-' || c == '_' || c == '+' || c == '=' || c == '`' || c
        == '~' || c == '\n' || c == '\r' || c == '\\' || c == '/' || c == '{' || c == '}' || c
        == '\u{b0}' || c == '\u{2019}' || c == '\u{2018}' || c == '>' || c == '<' || c
        == '\u{bb}' || c == '\u{a2}' || c == '?'
}

/// The prepared form of already lowercased text.
pub fn prepare(lowered: &Vec<char>) -> (r: Vec<char>)
    ensures
        r@ == prepared(lowered@),
{
    let mut out: Vec<char> = Vec::new();
    out.push(' ');
    let mut i: usize = 0;
    while i < lowered.len()
        invariant
            i <= lowered.len(),
            out@ == seq![' '] + normalize(lowered@).take(i as int),
        decreases lowered.len() - i,
    {
        let c = lowered[i];
        if is_separator_char(c) {
            out.push(' ');
        } else {
            out.push(c);
        }
        assert(normalize(lowered@).take(i + 1) =~= normalize(lowered@).take(i as int).push(
            normalize(lowered@)[i as int],
        ));
        i += 1;
    }
    out.push(' ');
    assert(normalize(lowered@).take(i as int) =~= normalize(lowered@));
    assert(out@ =~= prepared(lowered@));
    out
}

/// `s` with one space added on each side.
fn pad_chars(s: &Vec<char>) -> (r: Vec<char>)
    ensures
        r@ == padded(s@),
{
    let mut out: Vec<char> = Vec::new();
    out.push(' ');
    let mut i: usize = 0;
    while i < s.len()
        invariant
            i <= s.len(),
            out@ == seq![' '] + s@.take(i as int),
        decreases s.len() - i,
    {
        out.push(s[i]);
        assert(s@.take(i + 1) =~= s@.take(i as int).push(s@[i as int]));
        i += 1;
    }
    out.push(' ');
    assert(s@.take(i as int) =~= s@);
    assert(out@ =~= padded(s@));
    out
}

/// Tells whether `part` stands in `text` from index `i` on.
fn matches_at(text: &Vec<char>, part: &Vec<char>, i: usize) -> (r: bool)
    requires
        i + part.len() <= text.len(),
    ensures
        r == occurs_at(text@, part@, i as int),
{
    let mut j: usize = 0;
    while j < part.len()
        invariant
            j <= part.len(),
            i + part.len() <= text.len(),
            forall|k: int| 0 <= k < j ==> text@[i + k] == part@[k],
        decreases part.len() - j,
    {
        if text[i + j] != part[j] {
            assert(text@.subrange(i as int, i + part.len())[j as int] != part@[j as int]);
            return false;
        }
        j += 1;
    }
    assert(text@.subrange(i as int, i + part.len()) =~= part@);
    true
}

/// Tells whether `part` is a contiguous piece of `text`.
pub fn contains_chars(text: &Vec<char>, part: &Vec<char>) -> (r: bool)
    ensures
        r == contains_seq(text@, part@),
{
    if part.len() > text.len() {
        return false;
    }
    let last: usize = text.len() - part.len();
    let mut i: usize = 0;
    loop
        invariant
            last == text.len() - part.len(),
            part.len() <= text.len(),
            i <= last,
            forall|k: int| 0 <= k < i ==> !occurs_at(text@, part@, k),
        decreases last - i,
    {
        if matches_at(text, part, i) {
            return true;
        }
        if i == last {
            return false;
        }
        i += 1;
    }
}

/// `s` without the spaces at either end.
pub fn trim_chars(s: &Vec<char>) -> (r: Vec<char>)
    ensures
        r@ == trim_spaces(s@),
{
    let n = s.len();
    let mut a: usize = 0;
    assert(s@.subrange(0, n as int) =~= s@);
    while a < n && s[a] == ' '
        invariant
            a <= n,
            n == s.len(),
            trim_start(s@) == trim_start(s@.subrange(a as int, n as int)),
        decreases n - a,
    {
        assert(s@.subrange(a as int, n as int).drop_first() =~= s@.subrange(a + 1, n as int));
        a += 1;
    }
    let mut b: usize = n;
    while b > a && s[b - 1] == ' '
        invariant
            a <= b <= n,
            n == s.len(),
            trim_spaces(s@) == trim_end(s@.subrange(a as int, b as int)),
        decreases b - a,
    {
        assert(s@.subrange(a as int, b as int).drop_last() =~= s@.subrange(a as int, b - 1));
        b -= 1;
    }
    let mut out: Vec<char> = Vec::new();
    let mut i: usize = a;
    while i < b
        invariant
            a <= i <= b <= n,
            n == s.len(),
            out@ == s@.subrange(a as int, i as int),
        decreases b - i,
    {
        out.push(s[i]);
        assert(s@.subrange(a as int, i + 1) =~= s@.subrange(a as int, i as int).push(s@[i as int]));
        i += 1;
    }
    out
}

/// The forbidden-term list: lowercased terms, loaded once and then only read.
pub struct Filter {
    words: Vec<Vec<char>>,
}

impl View for Filter {
    type V = Seq<Seq<char>>;

    closed spec fn view(&self) -> Seq<Seq<char>> {
        self.words@.map_values(|w: Vec<char>| w@)
    }
}

impl Filter {
    /// Every term is usable: not empty, and no space at either end.
    pub open spec fn wf(&self) -> bool {
        forall|k: int| 0 <= k < self@.len() ==> #[trigger] is_term(self@[k])
    }

    /// The classification of `input`: some term flags its lowercased form.
    pub open spec fn spec_is_unsafe(&self, input: Seq<char>) -> bool {
        flags(self@, lower_of(input))
    }

    /// Builds the filter from the lines of a term list, one term per line.
    /// Each line is lowercased and trimmed of spaces; blank lines are skipped.
    pub fn new(lines: Vec<String>) -> (r: Filter)
        ensures
            r@ == term_list(lines@.map_values(|l: String| l@)),
            r.wf(),
    {
        let ghost all = lines@.map_values(|l: String| l@);
        let mut words: Vec<Vec<char>> = Vec::new();
        let mut i: usize = 0;
        while i < lines.len()
            invariant
                i <= lines.len(),
                all == lines@.map_values(|l: String| l@),
                words@.map_values(|w: Vec<char>| w@) == term_list(all.take(i as int)),
                forall|k: int| 0 <= k < words@.len() ==> #[trigger] is_term(words@[k]@),
            decreases lines.len() - i,
        {
            let lowered = lowercase(lines[i].as_str());
            let chars = chars_of(lowered.as_str());
            let term = trim_chars(&chars);
            proof {
                assert(all.take(i + 1).drop_last() =~= all.take(i as int));
                assert(all.take(i + 1).last() == lines@[i as int]@);
                lemma_trimmed_is_term(lower_of(lines@[i as int]@));
            }
            if term.len() > 0 {
                words.push(term);
                assert(words@.map_values(|w: Vec<char>| w@) =~= term_list(all.take(i as int)).push(
                    term@,
                ));
            }
            i += 1;
        }
        assert(all.take(i as int) =~= all);
        Filter { words }
    }

    /// Tells whether `input` holds a forbidden term as a whole token, after
    /// lowercasing and normalization. Empty text is always safe.
    pub fn is_unsafe(&self, input: &str) -> (r: bool)
        ensures
            r == self.spec_is_unsafe(input@),
            self.wf() && input@.len() == 0 ==> !r,
    {
        let lowered = lowercase(input);
        let r = self.is_unsafe_lowercased(lowered.as_str());
        proof {
            if self.wf() && input@.len() == 0 {
                lemma_empty_text_is_safe(self, lowered@);
            }
        }
        r
    }

    /// Tells whether already lowercased text holds a forbidden term as a
    /// whole token after normalization.
    pub fn is_unsafe_lowercased(&self, lowered: &str) -> (r: bool)
        ensures
            r == flags(self@, lowered@),
    {
        let text = prepare(&chars_of(lowered));
        let mut k: usize = 0;
        while k < self.words.len()
            invariant
                k <= self.words.len(),
                text@ == prepared(lowered@),
                forall|j: int|
                    0 <= j < k ==> !#[trigger] contains_seq(prepared(lowered@), padded(self@[j])),
            decreases self.words.len() - k,
        {
            let pattern = pad_chars(&self.words[k]);
            assert(self@[k as int] == self.words@[k as int]@);
            if contains_chars(&text, &pattern) {
                return true;
            }
            k += 1;
        }
        false
    }
}

/// A trimmed sequence is either empty or a usable term.
proof fn lemma_trimmed_is_term(s: Seq<char>)
    ensures
        trim_spaces(s).len() > 0 ==> is_term(trim_spaces(s)),
{
    lemma_trim_start_shape(s);
    lemma_trim_end_shape(trim_start(s));
}

proof fn lemma_trim_start_shape(s: Seq<char>)
    ensures
        trim_start(s).len() > 0 ==> trim_start(s)[0] != ' ',
    decreases s.len(),
{
    if s.len() > 0 && s[0] == ' ' {
        lemma_trim_start_shape(s.drop_first());
    }
}

proof fn lemma_trim_end_shape(s: Seq<char>)
    ensures
        trim_end(s).len() > 0 ==> trim_end(s).last() != ' ',
        trim_end(s).len() > 0 && s.len() > 0 && s[0] != ' ' ==> trim_end(s)[0] != ' ',
        trim_end(s).len() <= s.len(),
        trim_end(s).len() > 0 ==> trim_end(s)[0] == s[0],
    decreases s.len(),
{
    if s.len() > 0 && s.last() == ' ' {
        lemma_trim_end_shape(s.drop_last());
    }
}

/// With usable terms, the prepared form of empty text (two spaces) is too
/// short to hold any padded term.
proof fn lemma_empty_text_is_safe(f: &Filter, lowered: Seq<char>)
    requires
        f.wf(),
        lowered.len() == 0,
    ensures
        !flags(f@, lowered),
{
    assert forall|k: int| 0 <= k < f@.len() implies !#[trigger] contains_seq(
        prepared(lowered),
        padded(f@[k]),
    ) by {
        assert(is_term(f@[k]));
        assert(prepared(lowered).len() == 2);
    }
}

/// A listed term that stands in the normalized text as a whole token (at the
/// start or after a space, and at the end or before a space) flags the text.
pub proof fn lemma_whole_token_is_flagged(f: &Filter, text: Seq<char>, k: int, i: int)
    requires
        0 <= k < f@.len(),
        occurs_at(normalize(lower_of(text)), f@[k], i),
        i == 0 || normalize(lower_of(text))[i - 1] == ' ',
        i + f@[k].len() == normalize(lower_of(text)).len() || normalize(lower_of(text))[i
            + f@[k].len()] == ' ',
    ensures
        f.spec_is_unsafe(text),
{
    let n = normalize(lower_of(text));
    let t = f@[k];
    let p = prepared(lower_of(text));
    assert(p.subrange(i, i + t.len() + 2) =~= padded(t)) by {
        assert forall|j: int| 0 <= j < t.len() implies p[i + 1 + j] == t[j] by {
            assert(n.subrange(i, i + t.len())[j] == t[j]);
        }
    }
    assert(occurs_at(p, padded(t), i));
    assert(contains_seq(p, padded(f@[k])));
}

/// A term that occurs in the normalized text only inside larger tokens,
/// glued to a character other than a space on at least one side, does not
/// flag the text.
pub proof fn lemma_embedded_term_is_not_flagged(f: &Filter, text: Seq<char>)
    requires
        forall|k: int, i: int|
            0 <= k < f@.len() && #[trigger] occurs_at(normalize(lower_of(text)), f@[k], i) ==> (i
                > 0 && normalize(lower_of(text))[i - 1] != ' ') || (i + f@[k].len() < normalize(
                lower_of(text),
            ).len() && normalize(lower_of(text))[i + f@[k].len()] != ' '),
    ensures
        !f.spec_is_unsafe(text),
{
    let n = normalize(lower_of(text));
    let p = prepared(lower_of(text));
    assert forall|k: int| 0 <= k < f@.len() implies !#[trigger] contains_seq(p, padded(f@[k])) by {
        let t = f@[k];
        if contains_seq(p, padded(t)) {
            let j = choose|j: int| occurs_at(p, padded(t), j);
            assert(p.subrange(j, j + t.len() + 2)[0] == ' ');
            assert(p.subrange(j, j + t.len() + 2)[t.len() + 1int] == ' ');
            assert(n.subrange(j, j + t.len()) =~= t) by {
                assert forall|m: int| 0 <= m < t.len() implies n[j + m] == t[m] by {
                    assert(p.subrange(j, j + t.len() + 2)[m + 1] == padded(t)[m + 1]);
                }
            }
            assert(occurs_at(n, t, j));
        }
    }
}

/// Case and punctuation do not matter: texts that agree once lowercased,
/// with separators turned into spaces and the spaces at both ends dropped,
/// are classified alike.
pub proof fn lemma_case_and_punctuation_insensitive(f: &Filter, a: Seq<char>, b: Seq<char>)
    requires
        f.wf(),
        trim_spaces(normalize(lower_of(a))) == trim_spaces(normalize(lower_of(b))),
    ensures
        f.spec_is_unsafe(a) == f.spec_is_unsafe(b),
{
    assert forall|k: int| 0 <= k < f@.len() implies #[trigger] contains_seq(
        prepared(lower_of(a)),
        padded(f@[k]),
    ) == contains_seq(prepared(lower_of(b)), padded(f@[k])) by {
        assert(is_term(f@[k]));
        lemma_trim_keeps_match(normalize(lower_of(a)), f@[k]);
        lemma_trim_keeps_match(normalize(lower_of(b)), f@[k]);
    }
    if f.spec_is_unsafe(a) {
        let k = choose|k: int|
            0 <= k < f@.len() && #[trigger] contains_seq(prepared(lower_of(a)), padded(f@[k]));
        assert(contains_seq(prepared(lower_of(b)), padded(f@[k])));
    }
    if f.spec_is_unsafe(b) {
        let k = choose|k: int|
            0 <= k < f@.len() && #[trigger] contains_seq(prepared(lower_of(b)), padded(f@[k]));
        assert(contains_seq(prepared(lower_of(a)), padded(f@[k])));
    }
}

/// Spaces at the ends of a text never take part in a match of a usable term.
proof fn lemma_trim_keeps_match(n: Seq<char>, t: Seq<char>)
    requires
        is_term(t),
    ensures
        contains_seq(padded(n), padded(t)) == contains_seq(padded(trim_spaces(n)), padded(t)),
{
    lemma_trim_start_keeps_match(n, t);
    lemma_trim_end_keeps_match(trim_start(n), t);
}

proof fn lemma_trim_start_keeps_match(n: Seq<char>, t: Seq<char>)
    requires
        is_term(t),
    ensures
        contains_seq(padded(n), padded(t)) == contains_seq(padded(trim_start(n)), padded(t)),
    decreases n.len(),
{
    if n.len() > 0 && n[0] == ' ' {
        lemma_drop_leading_space(n, t);
        lemma_trim_start_keeps_match(n.drop_first(), t);
    }
}

proof fn lemma_trim_end_keeps_match(n: Seq<char>, t: Seq<char>)
    requires
        is_term(t),
    ensures
        contains_seq(padded(n), padded(t)) == contains_seq(padded(trim_end(n)), padded(t)),
    decreases n.len(),
{
    if n.len() > 0 && n.last() == ' ' {
        lemma_drop_trailing_space(n, t);
        lemma_trim_end_keeps_match(n.drop_last(), t);
    }
}

proof fn lemma_drop_leading_space(n: Seq<char>, t: Seq<char>)
    requires
        is_term(t),
        n.len() > 0,
        n[0] == ' ',
    ensures
        contains_seq(padded(n), padded(t)) == contains_seq(padded(n.drop_first()), padded(t)),
{
    let p = padded(n);
    let q = padded(n.drop_first());
    let pt = padded(t);
    assert(q =~= p.drop_first());
    if contains_seq(q, pt) {
        let j = choose|j: int| occurs_at(q, pt, j);
        assert(p.subrange(j + 1, j + 1 + pt.len()) =~= q.subrange(j, j + pt.len()));
        assert(occurs_at(p, pt, j + 1));
    }
    if contains_seq(p, pt) {
        let j = choose|j: int| occurs_at(p, pt, j);
        if j == 0 {
            assert(p.subrange(0, pt.len() as int)[1] == pt[1]);
            assert(false);
        } else {
            assert(q.subrange(j - 1, j - 1 + pt.len()) =~= p.subrange(j, j + pt.len()));
            assert(occurs_at(q, pt, j - 1));
        }
    }
}

proof fn lemma_drop_trailing_space(n: Seq<char>, t: Seq<char>)
    requires
        is_term(t),
        n.len() > 0,
        n.last() == ' ',
    ensures
        contains_seq(padded(n), padded(t)) == contains_seq(padded(n.drop_last()), padded(t)),
{
    let p = padded(n);
    let q = padded(n.drop_last());
    let pt = padded(t);
    assert(q =~= p.take(p.len() - 2).push(' '));
    if contains_seq(q, pt) {
        let j = choose|j: int| occurs_at(q, pt, j);
        assert(p.subrange(j, j + pt.len() - 1) =~= q.subrange(j, j + pt.len() - 1));
        assert(p.subrange(j, j + pt.len()) =~= q.subrange(j, j + pt.len()));
        assert(occurs_at(p, pt, j));
    }
    if contains_seq(p, pt) {
        let j = choose|j: int| occurs_at(p, pt, j);
        if j + pt.len() == p.len() {
            assert(p.subrange(j, j + pt.len())[pt.len() - 2] == pt[pt.len() - 2]);
            assert(false);
        } else {
            assert(q.subrange(j, j + pt.len()) =~= p.subrange(j, j + pt.len()));
            assert(occurs_at(q, pt, j));
        }
    }
}

} // verus!
