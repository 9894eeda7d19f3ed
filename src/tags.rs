//! Tokens, tag candidates and the duplicate check.
use vstd::prelude::*;
use vstd::std_specs::iter::IteratorSpec;

verus! {

/// The Unicode `White_Space` characters, the separators of `str::split_whitespace`.
pub open spec fn is_space(c: char) -> bool {
    let u = c as u32;
    ||| 0x09 <= u <= 0x0d
    ||| u == 0x20
    ||| u == 0x85
    ||| u == 0xa0
    ||| u == 0x1680
    ||| 0x2000 <= u <= 0x200a
    ||| u == 0x2028
    ||| u == 0x2029
    ||| u == 0x202f
    ||| u == 0x205f
    ||| u == 0x3000
}

/// Whether `c` separates tokens.
pub fn is_space_char(c: char) -> (r: bool)
    ensures
        r == is_space(c),
{
    let u = c as u32;
    (0x09 <= u && u <= 0x0d) || u == 0x20 || u == 0x85 || u == 0xa0 || u == 0x1680
        || (0x2000 <= u && u <= 0x200a) || u == 0x2028 || u == 0x2029 || u == 0x202f
        || u == 0x205f || u == 0x3000
}

/// Splitting a text left to right: the tokens already closed, and the token
/// still being read (empty when the text ends in a separator or is empty).
pub open spec fn split_state(s: Seq<char>) -> (Seq<Seq<char>>, Seq<char>)
    decreases s.len(),
{
    if s.len() == 0 {
        (seq![], seq![])
    } else {
        let (done, cur) = split_state(s.drop_last());
        if is_space(s.last()) {
            if cur.len() > 0 {
                (done.push(cur), seq![])
            } else {
                (done, seq![])
            }
        } else {
            (done, cur.push(s.last()))
        }
    }
}

/// The whitespace-delimited tokens of `s`, in order: its maximal runs of
/// non-separator characters.
pub open spec fn tokens(s: Seq<char>) -> Seq<Seq<char>> {
    let (done, cur) = split_state(s);
    if cur.len() > 0 {
        done.push(cur)
    } else {
        done
    }
}

/// The character sequences held by a list of tokens.
pub open spec fn views(v: Seq<Vec<char>>) -> Seq<Seq<char>> {
    v.map_values(|t: Vec<char>| t@)
}

/// The whitespace-delimited tokens of `text`, in order.
pub fn split_tokens(text: &str) -> (r: Vec<Vec<char>>)
    ensures
        views(r@) == tokens(text@),
{
    let mut it = text.chars();
    let mut done: Vec<Vec<char>> = Vec::new();
    let mut cur: Vec<char> = Vec::new();
    let ghost mut read: Seq<char> = seq![];
    loop
        invariant
            it.obeys_prophetic_iter_laws(),
            read + it.remaining() == text@,
            split_state(read) == (views(done@), cur@),
        decreases text@.len() - read.len(),
    {
        let next = it.next();
        match next {
            Some(c) => {
                proof {
                    assert(read.push(c).drop_last() == read);
                    assert(read.push(c) + it.remaining() =~= text@);
                }
                if is_space_char(c) {
                    if cur.len() > 0 {
                        let ghost before = views(done@);
                        let ghost closed_view = cur@;
                        let closed = cur;
                        cur = Vec::new();
                        done.push(closed);
                        proof {
                            assert(views(done@) =~= before.push(closed_view));
                        }
                    }
                } else {
                    cur.push(c);
                }
                proof {
                    read = read.push(c);
                    assert(cur@ =~= split_state(read).1);
                }
            },
            None => {
                proof {
                    assert(read =~= text@);
                }
                if cur.len() > 0 {
                    let ghost before = views(done@);
                    let ghost last_view = cur@;
                    done.push(cur);
                    proof {
                        assert(views(done@) =~= before.push(last_view));
                        assert(views(done@) =~= tokens(text@));
                    }
                }
                return done;
            },
        }
    }
}

/// The characters of `text`, in order.
pub fn chars_of(text: &str) -> (r: Vec<char>)
    ensures
        r@ == text@,
{
    let mut it = text.chars();
    let mut out: Vec<char> = Vec::new();
    loop
        invariant
            it.obeys_prophetic_iter_laws(),
            out@ + it.remaining() == text@,
        decreases text@.len() - out@.len(),
    {
        match it.next() {
            Some(c) => {
                proof {
                    assert(out@.push(c) + it.remaining() =~= text@);
                }
                out.push(c);
            },
            None => {
                proof {
                    assert(out@ =~= text@);
                }
                return out;
            },
        }
    }
}

/// Number of bytes that `c` takes in UTF-8.
pub open spec fn utf8_width(c: char) -> nat {
    let u = c as u32;
    if u < 0x80 {
        1
    } else if u < 0x800 {
        2
    } else if u < 0x10000 {
        3
    } else {
        4
    }
}

/// Number of bytes that `t` takes in UTF-8, as `str::len` counts them.
pub open spec fn utf8_len(t: Seq<char>) -> nat
    decreases t.len(),
{
    if t.len() == 0 {
        0
    } else {
        utf8_len(t.drop_last()) + utf8_width(t.last())
    }
}

proof fn lemma_utf8_len_grows(t: Seq<char>, i: int, j: int)
    requires
        0 <= i <= j <= t.len(),
    ensures
        utf8_len(t.take(i)) <= utf8_len(t.take(j)),
    decreases j - i,
{
    if i < j {
        lemma_utf8_len_grows(t, i, j - 1);
        assert(t.take(j).drop_last() =~= t.take(j - 1));
    }
}

fn char_width(c: char) -> (r: usize)
    ensures
        r == utf8_width(c),
{
    let u = c as u32;
    if u < 0x80 {
        1
    } else if u < 0x800 {
        2
    } else if u < 0x10000 {
        3
    } else {
        4
    }
}

/// Whether `t` takes exactly `want` bytes in UTF-8.
pub fn has_byte_len(t: &Vec<char>, want: usize) -> (r: bool)
    ensures
        r == (utf8_len(t@) == want),
{
    let mut n: usize = 0;
    let mut i: usize = 0;
    while i < t.len()
        invariant
            i <= t.len(),
            n == utf8_len(t@.take(i as int)),
            n <= want,
        decreases t.len() - i,
    {
        let w = char_width(t[i]);
        proof {
            assert(t@.take(i + 1).drop_last() =~= t@.take(i as int));
        }
        if w > want - n {
            proof {
                lemma_utf8_len_grows(t@, i + 1, t.len() as int);
                assert(t@.take(t.len() as int) =~= t@);
            }
            return false;
        }
        n = n + w;
        i = i + 1;
    }
    proof {
        assert(t@.take(i as int) =~= t@);
    }
    n == want
}

/// `m` stands in `t` from position `i` on.
pub open spec fn occurs_at(t: Seq<char>, m: Seq<char>, i: int) -> bool {
    0 <= i && i + m.len() <= t.len() && t.subrange(i, i + m.len()) == m
}

/// `m` stands somewhere in `t`.
pub open spec fn contains_seq(t: Seq<char>, m: Seq<char>) -> bool {
    exists|i: int| occurs_at(t, m, i)
}

fn matches_at(t: &Vec<char>, m: &Vec<char>, i: usize) -> (r: bool)
    requires
        i + m.len() <= t.len(),
    ensures
        r == occurs_at(t@, m@, i as int),
{
    let mut k: usize = 0;
    while k < m.len()
        invariant
            k <= m.len(),
            i + m.len() <= t.len(),
            forall|j: int| 0 <= j < k ==> t@[i + j] == m@[j],
        decreases m.len() - k,
    {
        if t[i + k] != m[k] {
            proof {
                assert(t@.subrange(i as int, i + m.len())[k as int] != m@[k as int]);
            }
            return false;
        }
        k = k + 1;
    }
    proof {
        assert(t@.subrange(i as int, i + m.len()) =~= m@);
    }
    true
}

/// Whether the marker `m` stands anywhere in the token `t`.
pub fn contains_marker(t: &Vec<char>, m: &Vec<char>) -> (r: bool)
    ensures
        r == contains_seq(t@, m@),
{
    if m.len() > t.len() {
        return false;
    }
    let last = t.len() - m.len();
    let mut i: usize = 0;
    loop
        invariant
            m.len() <= t.len(),
            last == t.len() - m.len(),
            i <= last,
            forall|j: int| 0 <= j < i ==> !#[trigger] occurs_at(t@, m@, j),
        decreases last - i,
    {
        if matches_at(t, m, i) {
            return true;
        }
        if i == last {
            return false;
        }
        i = i + 1;
    }
}

/// What makes a token a tag: the marker that it must contain, anywhere, and
/// its exact length in bytes.
#[derive(Clone, Debug)]
pub struct TagRule {
    pub marker: Vec<char>,
    pub length: usize,
}

impl TagRule {
    /// The rule with marker `marker` and length `length`.
    pub fn new(marker: &str, length: usize) -> (r: TagRule)
        ensures
            r.marker@ == marker@,
            r.length == length,
    {
        TagRule { marker: chars_of(marker), length }
    }

    /// The rule for the reader's identifiers: marker "DC", ten bytes.
    pub fn standard() -> (r: TagRule)
        ensures
            r.marker@ == seq!['D', 'C'],
            r.length == 10,
    {
        let marker: Vec<char> = vec!['D', 'C'];
        proof {
            assert(marker@ =~= seq!['D', 'C']);
        }
        TagRule { marker, length: 10 }
    }
}

/// A token qualifies as a tag candidate under the rule (`marker`, `length`)
/// when it contains `marker` and takes exactly `length` bytes.
pub open spec fn qualifies(marker: Seq<char>, length: nat, t: Seq<char>) -> bool {
    contains_seq(t, marker) && utf8_len(t) == length
}

/// The tokens of `ts` that qualify under the rule, in order.
pub open spec fn select(ts: Seq<Seq<char>>, marker: Seq<char>, length: nat) -> Seq<Seq<char>> {
    ts.filter(|t: Seq<char>| qualifies(marker, length, t))
}

/// The tag candidates of the text `s`, in order.
pub open spec fn candidates(s: Seq<char>, marker: Seq<char>, length: nat) -> Seq<Seq<char>> {
    select(tokens(s), marker, length)
}

fn copy_token(t: &Vec<char>) -> (r: Vec<char>)
    ensures
        r@ == t@,
{
    let mut out: Vec<char> = Vec::new();
    let mut i: usize = 0;
    while i < t.len()
        invariant
            i <= t.len(),
            out@ == t@.take(i as int),
        decreases t.len() - i,
    {
        out.push(t[i]);
        i = i + 1;
        proof {
            assert(out@ =~= t@.take(i as int));
        }
    }
    proof {
        assert(t@.take(i as int) =~= t@);
    }
    out
}

/// Whether the token `t` is a tag candidate under `rule`.
pub fn is_candidate(rule: &TagRule, t: &Vec<char>) -> (r: bool)
    ensures
        r == qualifies(rule.marker@, rule.length as nat, t@),
{
    contains_marker(t, &rule.marker) && has_byte_len(t, rule.length)
}

/// The tokens of `ts` that are tag candidates under `rule`, in order.
pub fn filter_candidates(rule: &TagRule, ts: Vec<Vec<char>>) -> (r: Vec<Vec<char>>)
    ensures
        views(r@) == select(views(ts@), rule.marker@, rule.length as nat),
{
    let ghost all = views(ts@);
    let ghost keep = |t: Seq<char>| qualifies(rule.marker@, rule.length as nat, t);
    let mut out: Vec<Vec<char>> = Vec::new();
    let mut i: usize = 0;
    while i < ts.len()
        invariant
            i <= ts.len(),
            all == views(ts@),
            keep == (|t: Seq<char>| qualifies(rule.marker@, rule.length as nat, t)),
            views(out@) == all.take(i as int).filter(keep),
        decreases ts.len() - i,
    {
        proof {
            let prefix = all.take(i + 1);
            assert(prefix.drop_last() =~= all.take(i as int));
            assert(prefix.last() == ts@[i as int]@);
            assert(prefix.filter(keep) == if keep(ts@[i as int]@) {
                all.take(i as int).filter(keep).push(ts@[i as int]@)
            } else {
                all.take(i as int).filter(keep)
            }) by {
                reveal(Seq::filter);
            }
        }
        let take = is_candidate(rule, &ts[i]);
        if take {
            let ghost before = views(out@);
            out.push(copy_token(&ts[i]));
            proof {
                assert(views(out@) =~= before.push(ts@[i as int]@));
            }
        }
        i = i + 1;
    }
    proof {
        assert(all.take(i as int) =~= all);
    }
    out
}

/// Every token of `text` that qualifies is a candidate, and nothing else is:
/// a token of the wrong length, or without the marker, never is.
pub proof fn lemma_candidate_iff_qualifies(
    text: Seq<char>,
    marker: Seq<char>,
    length: nat,
    t: Seq<char>,
)
    ensures
        candidates(text, marker, length).contains(t) <==> (tokens(text).contains(t) && qualifies(
            marker,
            length,
            t,
        )),
{
    let keep = |x: Seq<char>| qualifies(marker, length, x);
    let ts = tokens(text);
    if ts.filter(keep).contains(t) {
        ts.lemma_filter_contains_rev(keep, t);
        let i = choose|i: int| 0 <= i < ts.filter(keep).len() && ts.filter(keep)[i] == t;
        ts.lemma_filter_pred(keep, i);
    }
    if ts.contains(t) && qualifies(marker, length, t) {
        let k = choose|k: int| 0 <= k < ts.len() && ts[k] == t;
        ts.lemma_filter_contains(keep, k);
    }
}

/// The state of a file's tags after one scan.
#[derive(Clone, Copy, Debug, PartialEq, Eq, Structural)]
pub enum ScanResult {
    /// No tag candidate was found.
    Empty,
    /// One or more candidates, no two equal.
    AllUnique,
    /// Some candidate value occurs more than once.
    DuplicatesFound,
}

/// Some value occurs twice in `c`.
pub open spec fn has_repeat(c: Seq<Seq<char>>) -> bool {
    exists|j: int, k: int| 0 <= j < k < c.len() && c[j] == c[k]
}

/// `c[i - 1]` occurs again at or after position `i`.
pub open spec fn copied_later(c: Seq<Seq<char>>, i: int) -> bool {
    exists|k: int| #![trigger c[k]] i <= k < c.len() && c[k] == c[i - 1]
}

/// The test of the candidate scan: for some `i` in `1..n`, `c[i - 1]` occurs in
/// the suffix that starts at `i`.
pub open spec fn scan_finds_repeat(c: Seq<Seq<char>>) -> bool {
    exists|i: int| 1 <= i < c.len() && #[trigger] copied_later(c, i)
}

/// The status that a list of candidates gives.
pub open spec fn classification(c: Seq<Seq<char>>) -> ScanResult {
    if c.len() == 0 {
        ScanResult::Empty
    } else if has_repeat(c) {
        ScanResult::DuplicatesFound
    } else {
        ScanResult::AllUnique
    }
}

/// Comparing each candidate with the suffix after it finds a repeat exactly
/// when some value occurs twice anywhere.
pub proof fn lemma_scan_finds_any_repeat(c: Seq<Seq<char>>)
    ensures
        scan_finds_repeat(c) <==> has_repeat(c),
        has_repeat(c) <==> !c.no_duplicates(),
{
    if scan_finds_repeat(c) {
        let i = choose|i: int| 1 <= i < c.len() && #[trigger] copied_later(c, i);
        let k = choose|k: int| #![trigger c[k]] i <= k < c.len() && c[k] == c[i - 1];
        assert(0 <= i - 1 < k < c.len() && c[i - 1] == c[k]);
    }
    if has_repeat(c) {
        let (j, k) = choose|j: int, k: int| 0 <= j < k < c.len() && c[j] == c[k];
        assert(copied_later(c, j + 1));
        assert(!c.no_duplicates());
    }
    if !c.no_duplicates() {
        let (j, k) = choose|j: int, k: int|
            0 <= j < c.len() && 0 <= k < c.len() && j != k && c[j] == c[k];
        if j < k {
            assert(c[j] == c[k]);
        } else {
            assert(c[k] == c[j]);
        }
    }
}

/// With no candidate, the status is `Empty`.
pub proof fn lemma_no_candidates_is_empty(c: Seq<Seq<char>>)
    requires
        c.len() == 0,
    ensures
        classification(c) == ScanResult::Empty,
{
}

/// Candidates that are pairwise distinct give `AllUnique`.
pub proof fn lemma_distinct_is_all_unique(c: Seq<Seq<char>>)
    requires
        c.len() > 0,
        c.no_duplicates(),
    ensures
        classification(c) == ScanResult::AllUnique,
{
    lemma_scan_finds_any_repeat(c);
}

/// A value that occurs at two positions gives `DuplicatesFound`.
pub proof fn lemma_repeat_is_duplicates(c: Seq<Seq<char>>, j: int, k: int)
    requires
        0 <= j < c.len(),
        0 <= k < c.len(),
        j != k,
        c[j] == c[k],
    ensures
        classification(c) == ScanResult::DuplicatesFound,
{
    if j < k {
        assert(0 <= j < k < c.len() && c[j] == c[k]);
    } else {
        assert(0 <= k < j < c.len() && c[k] == c[j]);
    }
}

/// Whether the tokens `a` and `b` are equal.
pub fn same_token(a: &Vec<char>, b: &Vec<char>) -> (r: bool)
    ensures
        r == (a@ == b@),
{
    if a.len() != b.len() {
        return false;
    }
    let mut i: usize = 0;
    while i < a.len()
        invariant
            a.len() == b.len(),
            i <= a.len(),
            forall|j: int| 0 <= j < i ==> a@[j] == b@[j],
        decreases a.len() - i,
    {
        if a[i] != b[i] {
            return false;
        }
        i = i + 1;
    }
    proof {
        assert(a@ =~= b@);
    }
    true
}

/// Whether no candidate repeats: for each `i` in `1..n`, `cands[i - 1]` is
/// looked for in the candidates from `i` on.
pub fn check_unique(cands: &Vec<Vec<char>>) -> (r: bool)
    ensures
        r == !scan_finds_repeat(views(cands@)),
        r == !has_repeat(views(cands@)),
{
    let ghost c = views(cands@);
    proof {
        lemma_scan_finds_any_repeat(c);
    }
    let n = cands.len();
    if n == 0 {
        return true;
    }
    let mut i: usize = 1;
    while i < n
        invariant
            1 <= i <= n,
            n == cands.len(),
            c == views(cands@),
            forall|i2: int| 1 <= i2 < i ==> !#[trigger] copied_later(c, i2),
        decreases n - i,
    {
        let mut k: usize = i;
        while k < n
            invariant
                1 <= i <= k <= n,
                n == cands.len(),
                c == views(cands@),
                forall|k2: int| #![trigger c[k2]] i <= k2 < k ==> c[k2] != c[i - 1],
            decreases n - k,
        {
            proof {
                assert(c[k as int] == cands@[k as int]@);
                assert(c[i - 1] == cands@[i - 1]@);
            }
            if same_token(&cands[i - 1], &cands[k]) {
                proof {
                    assert(copied_later(c, i as int));
                }
                return false;
            }
            k = k + 1;
        }
        i = i + 1;
    }
    true
}

/// The status that the candidates `cands` give.
pub fn classify(cands: &Vec<Vec<char>>) -> (r: ScanResult)
    ensures
        r == classification(views(cands@)),
{
    if cands.len() == 0 {
        ScanResult::Empty
    } else if check_unique(cands) {
        ScanResult::AllUnique
    } else {
        ScanResult::DuplicatesFound
    }
}

/// The tag candidates of `text` under `rule`, in order.
pub fn extract_candidates(text: &str, rule: &TagRule) -> (r: Vec<Vec<char>>)
    ensures
        views(r@) == candidates(text@, rule.marker@, rule.length as nat),
{
    filter_candidates(rule, split_tokens(text))
}

/// The status of a file whose contents are `text`, under `rule`.
pub fn scan_contents(text: &str, rule: &TagRule) -> (r: ScanResult)
    ensures
        r == classification(candidates(text@, rule.marker@, rule.length as nat)),
{
    classify(&extract_candidates(text, rule))
}

} // verus!
