//! The markdown highlight transform.
//!
//! A pure function from a raw (tab-expanded) line to its decorated form,
//! used only to fill the render cache of a line. An ordered, fixed list of
//! rules is applied, most specific first: heading levels six down to one,
//! then bold, bullet points, italics, image links and plain links. Every
//! rule is specified exactly; the executable code is proved to compute the
//! specified result.
//!
//! The rules scan a line for delimiter tokens. An opening delimiter binds
//! greedily: the matched span reaches to the last closing delimiter of the
//! line, and an optional single whitespace character directly after the
//! opening delimiter is dropped from the captured text when something is
//! left to capture.

use vstd::prelude::*;

use crate::terminal::Line;
use crate::text::is_space;
use crate::text::space_char;

verus! {

// ---------------------------------------------------------------------------
// Finding delimiter tokens
// ---------------------------------------------------------------------------
/// Character `c` stands at `i` in `s`.
pub open spec fn occ1(s: Seq<char>, c: char, i: int) -> bool {
    0 <= i < s.len() && s[i] == c
}

/// The two-character token `ab` starts at `i` in `s`.
pub open spec fn occ2(s: Seq<char>, a: char, b: char, i: int) -> bool {
    0 <= i && i + 2 <= s.len() && s[i] == a && s[i + 1] == b
}

/// First position at or after `from` where `c` stands, if any.
pub open spec fn find1(s: Seq<char>, c: char, from: int) -> Option<int>
    decreases s.len() - from,
{
    if from < 0 || from >= s.len() {
        None
    } else if s[from] == c {
        Some(from)
    } else {
        find1(s, c, from + 1)
    }
}

/// First position at or after `from` where the token `ab` starts, if any.
pub open spec fn find2(s: Seq<char>, a: char, b: char, from: int) -> Option<int>
    decreases s.len() - from,
{
    if from < 0 || from + 2 > s.len() {
        None
    } else if s[from] == a && s[from + 1] == b {
        Some(from)
    } else {
        find2(s, a, b, from + 1)
    }
}

/// First position at or after `from` holding a whitespace character, if any.
pub open spec fn find_ws(s: Seq<char>, from: int) -> Option<int>
    decreases s.len() - from,
{
    if from < 0 || from >= s.len() {
        None
    } else if is_space(s[from]) {
        Some(from)
    } else {
        find_ws(s, from + 1)
    }
}

/// Last position at or before `upto` where `c` stands, if any.
pub open spec fn rfind1(s: Seq<char>, c: char, upto: int) -> Option<int>
    decreases upto + 1,
{
    if upto < 0 {
        None
    } else if upto < s.len() && s[upto] == c {
        Some(upto)
    } else {
        rfind1(s, c, upto - 1)
    }
}

/// Last position at or before `upto` where the token `ab` starts, if any.
pub open spec fn rfind2(s: Seq<char>, a: char, b: char, upto: int) -> Option<int>
    decreases upto + 1,
{
    if upto < 0 {
        None
    } else if upto + 2 <= s.len() && s[upto] == a && s[upto + 1] == b {
        Some(upto)
    } else {
        rfind2(s, a, b, upto - 1)
    }
}

/// Where `find1` succeeds it names a position of `c`, at or after `from`.
pub broadcast proof fn lemma_find1_bounds(s: Seq<char>, c: char, from: int)
    ensures
        (#[trigger] find1(s, c, from)) matches Some(i) ==> from <= i && occ1(s, c, i),
    decreases s.len() - from,
{
    if 0 <= from < s.len() && s[from] != c {
        lemma_find1_bounds(s, c, from + 1);
    }
}

/// Where `find2` succeeds it names a position of the token, at or after `from`.
pub broadcast proof fn lemma_find2_bounds(s: Seq<char>, a: char, b: char, from: int)
    ensures
        (#[trigger] find2(s, a, b, from)) matches Some(i) ==> from <= i && occ2(s, a, b, i),
    decreases s.len() - from,
{
    if from >= 0 && from + 2 <= s.len() && !(s[from] == a && s[from + 1] == b) {
        lemma_find2_bounds(s, a, b, from + 1);
    }
}

/// Where `find_ws` succeeds it names a whitespace position at or after `from`.
pub broadcast proof fn lemma_find_ws_bounds(s: Seq<char>, from: int)
    ensures
        (#[trigger] find_ws(s, from)) matches Some(i) ==> from <= i < s.len() && is_space(s[i]),
    decreases s.len() - from,
{
    if 0 <= from < s.len() && !is_space(s[from]) {
        lemma_find_ws_bounds(s, from + 1);
    }
}

/// Where `rfind1` succeeds it names a position of `c`, at or before `upto`.
pub broadcast proof fn lemma_rfind1_bounds(s: Seq<char>, c: char, upto: int)
    ensures
        (#[trigger] rfind1(s, c, upto)) matches Some(i) ==> i <= upto && occ1(s, c, i),
    decreases upto + 1,
{
    if upto >= 0 && !(upto < s.len() && s[upto] == c) {
        lemma_rfind1_bounds(s, c, upto - 1);
    }
}

/// Where `rfind2` succeeds it names a position of the token, at or before
/// `upto`.
pub broadcast proof fn lemma_rfind2_bounds(s: Seq<char>, a: char, b: char, upto: int)
    ensures
        (#[trigger] rfind2(s, a, b, upto)) matches Some(i) ==> i <= upto && occ2(s, a, b, i),
    decreases upto + 1,
{
    if upto >= 0 && !(upto + 2 <= s.len() && s[upto] == a && s[upto + 1] == b) {
        lemma_rfind2_bounds(s, a, b, upto - 1);
    }
}

/// A known occurrence of `c` at or before `upto` means `rfind1` succeeds,
/// at that occurrence or later.
pub proof fn lemma_rfind1_covers(s: Seq<char>, c: char, upto: int, i: int)
    requires
        occ1(s, c, i),
        i <= upto,
    ensures
        rfind1(s, c, upto) matches Some(j) && i <= j,
    decreases upto + 1,
{
    if !(upto < s.len() && s[upto] == c) {
        lemma_rfind1_covers(s, c, upto - 1, i);
    }
}

/// A known occurrence of the token at or before `upto` means `rfind2`
/// succeeds, at that occurrence or later.
pub proof fn lemma_rfind2_covers(s: Seq<char>, a: char, b: char, upto: int, i: int)
    requires
        occ2(s, a, b, i),
        i <= upto,
    ensures
        rfind2(s, a, b, upto) matches Some(j) && i <= j,
    decreases upto + 1,
{
    if !(upto + 2 <= s.len() && s[upto] == a && s[upto + 1] == b) {
        lemma_rfind2_covers(s, a, b, upto - 1, i);
    }
}

/// A known occurrence of `c` with nothing before it from `from` on is what
/// `find1` names.
pub proof fn lemma_find1_first(s: Seq<char>, c: char, from: int, i: int)
    requires
        0 <= from <= i,
        occ1(s, c, i),
        forall|k: int| from <= k < i ==> s[k] != c,
    ensures
        find1(s, c, from) == Some(i),
    decreases i - from,
{
    if from < i {
        lemma_find1_first(s, c, from + 1, i);
    }
}

/// A known whitespace position with nothing before it from `from` on is
/// what `find_ws` names.
pub proof fn lemma_find_ws_first(s: Seq<char>, from: int, i: int)
    requires
        0 <= from <= i < s.len(),
        is_space(s[i]),
        forall|k: int| from <= k < i ==> !is_space(s[k]),
    ensures
        find_ws(s, from) == Some(i),
    decreases i - from,
{
    if from < i {
        lemma_find_ws_first(s, from + 1, i);
    }
}

/// A line without whitespace has no `find_ws` hit.
pub proof fn lemma_find_ws_absent(s: Seq<char>, from: int)
    requires
        forall|k: int| 0 <= k < s.len() ==> !is_space(s[k]),
    ensures
        find_ws(s, from) is None,
    decreases s.len() - from,
{
    if 0 <= from < s.len() {
        lemma_find_ws_absent(s, from + 1);
    }
}

/// A line without `c` has no `find1` hit.
pub proof fn lemma_find1_absent(s: Seq<char>, c: char, from: int)
    requires
        forall|k: int| 0 <= k < s.len() ==> s[k] != c,
    ensures
        find1(s, c, from) is None,
    decreases s.len() - from,
{
    if 0 <= from < s.len() {
        lemma_find1_absent(s, c, from + 1);
    }
}

/// A line without `a` has no `find2` hit for a token opening with `a`.
pub proof fn lemma_find2_absent(s: Seq<char>, a: char, b: char, from: int)
    requires
        forall|k: int| 0 <= k < s.len() ==> s[k] != a,
    ensures
        find2(s, a, b, from) is None,
    decreases s.len() - from,
{
    if from >= 0 && from + 2 <= s.len() {
        lemma_find2_absent(s, a, b, from + 1);
    }
}

/// Exec twin of [`find1`].
pub fn find_char(s: &Vec<char>, c: char, from: usize) -> (r: Option<usize>)
    ensures
        match r {
            Some(i) => find1(s@, c, from as int) == Some(i as int),
            None => find1(s@, c, from as int) is None,
        },
{
    let n = s.len();
    let mut i = from;
    while i < n
        invariant
            from <= i,
            n == s@.len(),
            find1(s@, c, from as int) == find1(s@, c, i as int),
        decreases n - i,
    {
        if s[i] == c {
            return Some(i);
        }
        i = i + 1;
    }
    None
}

/// Exec twin of [`find2`].
pub fn find_pair(s: &Vec<char>, a: char, b: char, from: usize) -> (r: Option<usize>)
    ensures
        match r {
            Some(i) => find2(s@, a, b, from as int) == Some(i as int),
            None => find2(s@, a, b, from as int) is None,
        },
{
    let n = s.len();
    if n < 2 {
        return None;
    }
    let mut i = from;
    while i < n - 1
        invariant
            from <= i,
            n == s@.len(),
            2 <= n,
            find2(s@, a, b, from as int) == find2(s@, a, b, i as int),
        decreases n - i,
    {
        if s[i] == a && s[i + 1] == b {
            return Some(i);
        }
        i = i + 1;
    }
    None
}

/// Exec twin of [`find_ws`].
pub fn find_space(s: &Vec<char>, from: usize) -> (r: Option<usize>)
    ensures
        match r {
            Some(i) => find_ws(s@, from as int) == Some(i as int),
            None => find_ws(s@, from as int) is None,
        },
{
    let n = s.len();
    let mut i = from;
    while i < n
        invariant
            from <= i,
            n == s@.len(),
            find_ws(s@, from as int) == find_ws(s@, i as int),
        decreases n - i,
    {
        if space_char(s[i]) {
            return Some(i);
        }
        i = i + 1;
    }
    None
}

/// Exec twin of [`rfind1`]; `upto` must lie within the line.
pub fn rfind_char(s: &Vec<char>, c: char, upto: usize) -> (r: Option<usize>)
    requires
        upto < s@.len(),
    ensures
        match r {
            Some(i) => rfind1(s@, c, upto as int) == Some(i as int),
            None => rfind1(s@, c, upto as int) is None,
        },
{
    let n = s.len();
    let mut i = upto;
    loop
        invariant
            n == s@.len(),
            i < n,
            rfind1(s@, c, upto as int) == rfind1(s@, c, i as int),
        decreases i,
    {
        if s[i] == c {
            return Some(i);
        }
        if i == 0 {
            proof {
                assert(rfind1(s@, c, -1) is None);
            }
            return None;
        }
        i = i - 1;
    }
}

/// Exec twin of [`rfind2`]; `upto + 2` must not pass the end of the line.
pub fn rfind_pair(s: &Vec<char>, a: char, b: char, upto: usize) -> (r: Option<usize>)
    requires
        upto + 2 <= s@.len(),
    ensures
        match r {
            Some(i) => rfind2(s@, a, b, upto as int) == Some(i as int),
            None => rfind2(s@, a, b, upto as int) is None,
        },
{
    let n = s.len();
    let mut i = upto;
    loop
        invariant
            n == s@.len(),
            i + 2 <= n,
            rfind2(s@, a, b, upto as int) == rfind2(s@, a, b, i as int),
        decreases i,
    {
        if s[i] == a && s[i + 1] == b {
            return Some(i);
        }
        if i == 0 {
            proof {
                assert(rfind2(s@, a, b, -1) is None);
            }
            return None;
        }
        i = i - 1;
    }
}

// ---------------------------------------------------------------------------
// Tab expansion
// ---------------------------------------------------------------------------
/// Tab expansion of one character: a tab becomes four spaces.
pub open spec fn spec_expand_char(c: char) -> Seq<char> {
    if c == '\t' {
        seq![' ', ' ', ' ', ' ']
    } else {
        seq![c]
    }
}

/// Tab expansion of a whole line.
pub open spec fn spec_expand_tabs(s: Seq<char>) -> Seq<char>
    decreases s.len(),
{
    if s.len() == 0 {
        Seq::empty()
    } else {
        spec_expand_char(s[0]) + spec_expand_tabs(s.drop_first())
    }
}

/// Tab expansion distributes over concatenation.
proof fn lemma_expand_tabs_concat(a: Seq<char>, b: Seq<char>)
    ensures
        spec_expand_tabs(a + b) == spec_expand_tabs(a) + spec_expand_tabs(b),
    decreases a.len(),
{
    if a.len() == 0 {
        assert(a + b =~= b);
        assert(spec_expand_tabs(a) + spec_expand_tabs(b) =~= spec_expand_tabs(b));
    } else {
        assert((a + b).drop_first() =~= a.drop_first() + b);
        lemma_expand_tabs_concat(a.drop_first(), b);
        assert(spec_expand_char(a[0]) + (spec_expand_tabs(a.drop_first()) + spec_expand_tabs(b))
            =~= (spec_expand_char(a[0]) + spec_expand_tabs(a.drop_first())) + spec_expand_tabs(b));
    }
}

/// Replaces every tab in `s` by four spaces.
pub fn expand_tabs(s: &Vec<char>) -> (r: Vec<char>)
    ensures
        r@ == spec_expand_tabs(s@),
{
    let n = s.len();
    let mut out: Vec<char> = Vec::new();
    let mut i: usize = 0;
    assert(s@.subrange(0, 0) =~= Seq::<char>::empty());
    while i < n
        invariant
            i <= n,
            n == s@.len(),
            out@ == spec_expand_tabs(s@.subrange(0, i as int)),
        decreases n - i,
    {
        let c = s[i];
        if c == '\t' {
            out.push(' ');
            out.push(' ');
            out.push(' ');
            out.push(' ');
        } else {
            out.push(c);
        }
        i = i + 1;
        proof {
            let pre = s@.subrange(0, i - 1);
            let one = seq![s@[i - 1]];
            assert(s@.subrange(0, i as int) =~= pre + one);
            lemma_expand_tabs_concat(pre, one);
            assert(one.drop_first() =~= Seq::<char>::empty());
            assert(spec_expand_tabs(one) =~= spec_expand_char(s@[i - 1]) + spec_expand_tabs(
                Seq::<char>::empty(),
            ));
            assert(spec_expand_tabs(one) =~= spec_expand_char(s@[i - 1]));
            assert(out@ =~= spec_expand_tabs(pre) + spec_expand_char(s@[i - 1]));
        }
    }
    assert(s@.subrange(0, n as int) =~= s@);
    out
}

// ---------------------------------------------------------------------------
// Decoration marks
// ---------------------------------------------------------------------------
/// Closes every decoration.
pub open spec fn reset_mark() -> Seq<char> {
    "\x1b[0m"@
}

/// Opens bold text.
pub open spec fn bold_mark() -> Seq<char> {
    "\x1b[1m"@
}

/// Opens italic text.
pub open spec fn italic_mark() -> Seq<char> {
    "\x1b[3m"@
}

/// Replaces the star of a bullet point.
pub open spec fn bullet_mark() -> Seq<char> {
    "\u{2022} "@
}

/// Opens the underlined target of a link.
pub open spec fn link_mark() -> Seq<char> {
    "\x1b[4;34m"@
}

/// Opens a heading of level `k`, one colour per level.
pub open spec fn heading_mark(k: int) -> Seq<char> {
    if k == 6 {
        "\x1b[1;34m"@
    } else if k == 5 {
        "\x1b[1;35m"@
    } else if k == 4 {
        "\x1b[1;36m"@
    } else if k == 3 {
        "\x1b[1;32m"@
    } else if k == 2 {
        "\x1b[1;33m"@
    } else {
        "\x1b[1;31m"@
    }
}

// ---------------------------------------------------------------------------
// Headings
// ---------------------------------------------------------------------------
/// The first `k` characters of `s` exist and are all `#`.
pub open spec fn is_hash_prefix(s: Seq<char>, k: int) -> bool {
    0 <= k <= s.len() && forall|j: int| 0 <= j < k ==> s[j] == '#'
}

/// The heading level of a line: the deepest level whose rule matches, a rule
/// of level `k` asking for `k` leading marker characters with at least one
/// more character after them. Zero when no heading rule matches.
pub open spec fn heading_level(s: Seq<char>) -> int {
    if is_hash_prefix(s, 6) && s.len() >= 7 {
        6
    } else if is_hash_prefix(s, 5) && s.len() >= 6 {
        5
    } else if is_hash_prefix(s, 4) && s.len() >= 5 {
        4
    } else if is_hash_prefix(s, 3) && s.len() >= 4 {
        3
    } else if is_hash_prefix(s, 2) && s.len() >= 3 {
        2
    } else if is_hash_prefix(s, 1) && s.len() >= 2 {
        1
    } else {
        0
    }
}

/// The heading rules. A matching line is replaced by its level's colour mark,
/// the text after the markers — dropping one whitespace character directly
/// after them when more follows — and the closing mark.
pub open spec fn spec_heading(s: Seq<char>) -> Seq<char> {
    let k = heading_level(s);
    if k == 0 {
        s
    } else {
        let sp: int = if s.len() >= k + 2 && is_space(s[k]) {
            1
        } else {
            0
        };
        heading_mark(k) + s.subrange(k + sp, s.len() as int) + reset_mark()
    }
}

/// Exec twin of [`is_hash_prefix`].
fn hash_prefix(s: &Vec<char>, k: usize) -> (r: bool)
    ensures
        r == is_hash_prefix(s@, k as int),
{
    if k > s.len() {
        return false;
    }
    let mut i: usize = 0;
    while i < k
        invariant
            i <= k,
            k <= s@.len(),
            forall|j: int| 0 <= j < i ==> s@[j] == '#',
        decreases k - i,
    {
        if s[i] != '#' {
            return false;
        }
        i = i + 1;
    }
    true
}

/// Applies the heading rules to one line.
pub fn stage_heading(s: &Vec<char>) -> (r: Vec<char>)
    ensures
        r@ == spec_heading(s@),
{
    let n = s.len();
    let k: usize = if hash_prefix(s, 6) && n >= 7 {
        6
    } else if hash_prefix(s, 5) && n >= 6 {
        5
    } else if hash_prefix(s, 4) && n >= 5 {
        4
    } else if hash_prefix(s, 3) && n >= 4 {
        3
    } else if hash_prefix(s, 2) && n >= 3 {
        2
    } else if hash_prefix(s, 1) && n >= 2 {
        1
    } else {
        0
    };
    assert(k as int == heading_level(s@));
    if k == 0 {
        return crate::text::copy_chars(s);
    }
    let sp: usize = if n >= k + 2 && space_char(s[k]) {
        1
    } else {
        0
    };
    let mark: &str = if k == 6 {
        "\x1b[1;34m"
    } else if k == 5 {
        "\x1b[1;35m"
    } else if k == 4 {
        "\x1b[1;36m"
    } else if k == 3 {
        "\x1b[1;32m"
    } else {
        if k == 2 {
            "\x1b[1;33m"
        } else {
            "\x1b[1;31m"
        }
    };
    let mut out: Vec<char> = Vec::new();
    crate::text::push_str_chars(&mut out, mark);
    crate::text::push_range(&mut out, s, k + sp, n);
    crate::text::push_str_chars(&mut out, "\x1b[0m");
    assert(out@ =~= spec_heading(s@));
    out
}

// ---------------------------------------------------------------------------
// Bold
// ---------------------------------------------------------------------------
/// The bold rule for the doubled delimiter `dd`. The span from the first
/// opening token to the last closing token is replaced by the bold mark, the
/// captured text and the closing mark.
pub open spec fn spec_bold(s: Seq<char>, d: char) -> Seq<char> {
    match find2(s, d, d, 0) {
        None => s,
        Some(i) => match rfind2(s, d, d, s.len() - 2) {
            None => s,
            Some(j) => if i + 2 < s.len() && is_space(s[i + 2]) && j >= i + 4 {
                s.subrange(0, i) + bold_mark() + s.subrange(i + 3, j) + reset_mark() + s.subrange(
                    j + 2,
                    s.len() as int,
                )
            } else if j >= i + 3 {
                s.subrange(0, i) + bold_mark() + s.subrange(i + 2, j) + reset_mark() + s.subrange(
                    j + 2,
                    s.len() as int,
                )
            } else {
                s
            },
        },
    }
}

/// Applies the bold rule for delimiter `dd` to one line.
pub fn stage_bold(s: &Vec<char>, d: char) -> (r: Vec<char>)
    ensures
        r@ == spec_bold(s@, d),
{
    let n = s.len();
    let fo = find_pair(s, d, d, 0);
    proof {
        lemma_find2_bounds(s@, d, d, 0);
    }
    let i = match fo {
        Some(i) => i,
        None => {
            return crate::text::copy_chars(s);
        },
    };
    let jo = rfind_pair(s, d, d, n - 2);
    proof {
        lemma_rfind2_covers(s@, d, d, n - 2, i as int);
        lemma_rfind2_bounds(s@, d, d, n - 2);
    }
    let j = match jo {
        Some(j) => j,
        None => {
            return vstd::pervasive::unreached();
        },
    };
    let mut out: Vec<char> = Vec::new();
    if n - i > 2 && space_char(s[i + 2]) && j - i >= 4 {
        crate::text::push_range(&mut out, s, 0, i);
        crate::text::push_str_chars(&mut out, "\x1b[1m");
        crate::text::push_range(&mut out, s, i + 3, j);
        crate::text::push_str_chars(&mut out, "\x1b[0m");
        crate::text::push_range(&mut out, s, j + 2, n);
    } else if j - i >= 3 {
        crate::text::push_range(&mut out, s, 0, i);
        crate::text::push_str_chars(&mut out, "\x1b[1m");
        crate::text::push_range(&mut out, s, i + 2, j);
        crate::text::push_str_chars(&mut out, "\x1b[0m");
        crate::text::push_range(&mut out, s, j + 2, n);
    } else {
        return crate::text::copy_chars(s);
    }
    assert(out@ =~= spec_bold(s@, d));
    out
}

// ---------------------------------------------------------------------------
// Bullet points
// ---------------------------------------------------------------------------
/// The bullet rule. A line opening with a star is replaced by a bullet and
/// the rest of the line — dropping one whitespace character directly after
/// the star when more follows — and the closing mark.
pub open spec fn spec_points(s: Seq<char>) -> Seq<char> {
    if s.len() >= 2 && s[0] == '*' {
        let sp: int = if is_space(s[1]) && s.len() >= 3 {
            1
        } else {
            0
        };
        bullet_mark() + s.subrange(1 + sp, s.len() as int) + reset_mark()
    } else {
        s
    }
}

/// Applies the bullet rule to one line.
pub fn stage_points(s: &Vec<char>) -> (r: Vec<char>)
    ensures
        r@ == spec_points(s@),
{
    let n = s.len();
    if n >= 2 && s[0] == '*' {
        let sp: usize = if space_char(s[1]) && n >= 3 {
            1
        } else {
            0
        };
        let mut out: Vec<char> = Vec::new();
        crate::text::push_str_chars(&mut out, "\u{2022} ");
        crate::text::push_range(&mut out, s, 1 + sp, n);
        crate::text::push_str_chars(&mut out, "\x1b[0m");
        assert(out@ =~= spec_points(s@));
        out
    } else {
        crate::text::copy_chars(s)
    }
}

// ---------------------------------------------------------------------------
// Italics
// ---------------------------------------------------------------------------
/// The italic rule for the single delimiter `d`. The span from the first
/// delimiter to the last is replaced by the italic mark, the captured text
/// and the closing mark.
pub open spec fn spec_italic(s: Seq<char>, d: char) -> Seq<char> {
    match find1(s, d, 0) {
        None => s,
        Some(i) => match rfind1(s, d, s.len() - 1) {
            None => s,
            Some(j) => if i + 1 < s.len() && is_space(s[i + 1]) && j >= i + 3 {
                s.subrange(0, i) + italic_mark() + s.subrange(i + 2, j) + reset_mark() + s.subrange(
                    j + 1,
                    s.len() as int,
                )
            } else if j >= i + 2 {
                s.subrange(0, i) + italic_mark() + s.subrange(i + 1, j) + reset_mark() + s.subrange(
                    j + 1,
                    s.len() as int,
                )
            } else {
                s
            },
        },
    }
}

/// Applies the italic rule for delimiter `d` to one line.
pub fn stage_italic(s: &Vec<char>, d: char) -> (r: Vec<char>)
    ensures
        r@ == spec_italic(s@, d),
{
    let n = s.len();
    let fo = find_char(s, d, 0);
    proof {
        lemma_find1_bounds(s@, d, 0);
    }
    let i = match fo {
        Some(i) => i,
        None => {
            return crate::text::copy_chars(s);
        },
    };
    let jo = rfind_char(s, d, n - 1);
    proof {
        lemma_rfind1_covers(s@, d, n - 1, i as int);
        lemma_rfind1_bounds(s@, d, n - 1);
    }
    let j = match jo {
        Some(j) => j,
        None => {
            return vstd::pervasive::unreached();
        },
    };
    let mut out: Vec<char> = Vec::new();
    if n - i > 1 && space_char(s[i + 1]) && j - i >= 3 {
        crate::text::push_range(&mut out, s, 0, i);
        crate::text::push_str_chars(&mut out, "\x1b[3m");
        crate::text::push_range(&mut out, s, i + 2, j);
        crate::text::push_str_chars(&mut out, "\x1b[0m");
        crate::text::push_range(&mut out, s, j + 1, n);
    } else if j - i >= 2 {
        crate::text::push_range(&mut out, s, 0, i);
        crate::text::push_str_chars(&mut out, "\x1b[3m");
        crate::text::push_range(&mut out, s, i + 1, j);
        crate::text::push_str_chars(&mut out, "\x1b[0m");
        crate::text::push_range(&mut out, s, j + 1, n);
    } else {
        return crate::text::copy_chars(s);
    }
    assert(out@ =~= spec_italic(s@, d));
    out
}

// ---------------------------------------------------------------------------
// Image links
// ---------------------------------------------------------------------------
/// The closing parenthesis of an image link whose target starts at `p`: the
/// last parenthesis inside the unbroken non-whitespace run starting at `p`,
/// with at least one target character before it.
pub open spec fn image_close(s: Seq<char>, p: int) -> Option<int> {
    let m: int = match find_ws(s, p) {
        Some(w) => w,
        None => s.len() as int,
    };
    match rfind1(s, ')', m - 1) {
        Some(f) => if f > p {
            Some(f)
        } else {
            None
        },
        None => None,
    }
}

/// An image link starting exactly at `i`: the opening token, a non-empty
/// alternative text up to the first closing bracket, an opening parenthesis,
/// and a non-empty whitespace-free target up to a closing parenthesis.
/// Yields the bracket and closing-parenthesis positions.
pub open spec fn image_at(s: Seq<char>, i: int) -> Option<(int, int)> {
    if !occ2(s, '!', '[', i) {
        None
    } else {
        match find1(s, ']', i + 2) {
            None => None,
            Some(rb) => if rb == i + 2 || rb + 1 >= s.len() || s[rb + 1] != '(' {
                None
            } else {
                match image_close(s, rb + 2) {
                    None => None,
                    Some(f) => Some((rb, f)),
                }
            },
        }
    }
}

/// The first image link starting at or after `from`, as its opening,
/// bracket and closing positions.
pub open spec fn find_image(s: Seq<char>, from: int) -> Option<(int, int, int)>
    decreases s.len() - from,
{
    if from < 0 || from >= s.len() {
        None
    } else {
        match image_at(s, from) {
            Some((rb, f)) => Some((from, rb, f)),
            None => find_image(s, from + 1),
        }
    }
}

/// Where `find_image` succeeds, the named positions are ordered and within
/// the line, with the link's fixed characters at their places.
pub broadcast proof fn lemma_find_image_bounds(s: Seq<char>, from: int)
    ensures
        (#[trigger] find_image(s, from)) matches Some((i, rb, f)) ==> from <= i && occ2(
            s,
            '!',
            '[',
            i,
        ) && i + 2 < rb && rb + 1 < s.len() && s[rb] == ']' && s[rb + 1] == '(' && rb + 2 < f && f
            < s.len() && s[f] == ')',
    decreases s.len() - from,
{
    if 0 <= from < s.len() {
        if image_at(s, from) is Some {
            lemma_find1_bounds(s, ']', from + 2);
            let rb = find1(s, ']', from + 2)->0;
            let m: int = match find_ws(s, rb + 2) {
                Some(w) => w,
                None => s.len() as int,
            };
            lemma_find_ws_bounds(s, rb + 2);
            lemma_rfind1_bounds(s, ')', m - 1);
        } else {
            lemma_find_image_bounds(s, from + 1);
        }
    }
}

/// The image-link rule, applied to every image link of the line from left to
/// right: the alternative text is kept, and the target inside the
/// parentheses is underlined.
pub open spec fn spec_image_all(s: Seq<char>) -> Seq<char>
    decreases s.len(),
    via spec_image_all_decreases
{
    match find_image(s, 0) {
        None => s,
        Some((i, rb, f)) => s.subrange(0, i) + s.subrange(i + 2, rb) + seq!['('] + link_mark()
            + s.subrange(rb + 2, f) + reset_mark() + seq![')'] + spec_image_all(
            s.subrange(f + 1, s.len() as int),
        ),
    }
}

#[via_fn]
proof fn spec_image_all_decreases(s: Seq<char>) {
    lemma_find_image_bounds(s, 0);
}

/// Exec twin of [`image_close`].
fn image_close_exec(s: &Vec<char>, p: usize) -> (r: Option<usize>)
    requires
        p <= s@.len(),
    ensures
        match r {
            Some(f) => image_close(s@, p as int) == Some(f as int),
            None => image_close(s@, p as int) is None,
        },
{
    let n = s.len();
    let m = match find_space(s, p) {
        Some(w) => w,
        None => n,
    };
    proof {
        lemma_find_ws_bounds(s@, p as int);
    }
    if m == 0 {
        proof {
            assert(rfind1(s@, ')', -1) is None);
        }
        return None;
    }
    let fo = rfind_char(s, ')', m - 1);
    match fo {
        Some(f) => if f > p {
            Some(f)
        } else {
            None
        },
        None => None,
    }
}

/// Exec twin of [`image_at`].
fn image_at_exec(s: &Vec<char>, i: usize) -> (r: Option<(usize, usize)>)
    ensures
        match r {
            Some((rb, f)) => image_at(s@, i as int) == Some((rb as int, f as int)),
            None => image_at(s@, i as int) is None,
        },
{
    let n = s.len();
    if !(i < n && n - i >= 2 && s[i] == '!' && s[i + 1] == '[') {
        return None;
    }
    let rbo = find_char(s, ']', i + 2);
    proof {
        lemma_find1_bounds(s@, ']', i as int + 2);
    }
    match rbo {
        None => None,
        Some(rb) => {
            if rb == i + 2 || rb + 1 >= n || s[rb + 1] != '(' {
                return None;
            }
            match image_close_exec(s, rb + 2) {
                None => None,
                Some(f) => Some((rb, f)),
            }
        },
    }
}

/// Exec twin of [`find_image`].
fn find_image_exec(s: &Vec<char>, from: usize) -> (r: Option<(usize, usize, usize)>)
    ensures
        match r {
            Some((i, rb, f)) => find_image(s@, from as int) == Some((i as int, rb as int, f as int)),
            None => find_image(s@, from as int) is None,
        },
{
    let n = s.len();
    let mut i = from;
    while i < n
        invariant
            from <= i,
            n == s@.len(),
            find_image(s@, from as int) == find_image(s@, i as int),
        decreases n - i,
    {
        match image_at_exec(s, i) {
            Some((rb, f)) => {
                return Some((i, rb, f));
            },
            None => {},
        }
        i = i + 1;
    }
    None
}

/// Applies the image-link rule to every image link of the line.
pub fn stage_image(s: &Vec<char>) -> (r: Vec<char>)
    ensures
        r@ == spec_image_all(s@),
    decreases s@.len(),
{
    match find_image_exec(s, 0) {
        None => crate::text::copy_chars(s),
        Some((i, rb, f)) => {
            proof {
                lemma_find_image_bounds(s@, 0);
            }
            let n = s.len();
            let mut out: Vec<char> = Vec::new();
            crate::text::push_range(&mut out, s, 0, i);
            crate::text::push_range(&mut out, s, i + 2, rb);
            out.push('(');
            crate::text::push_str_chars(&mut out, "\x1b[4;34m");
            crate::text::push_range(&mut out, s, rb + 2, f);
            crate::text::push_str_chars(&mut out, "\x1b[0m");
            out.push(')');
            let mut suffix: Vec<char> = Vec::new();
            crate::text::push_range(&mut suffix, s, f + 1, n);
            let mut rest = stage_image(&suffix);
            out.append(&mut rest);
            assert(out@ =~= spec_image_all(s@));
            out
        },
    }
}

// ---------------------------------------------------------------------------
// Plain links
// ---------------------------------------------------------------------------
/// A link starting exactly at `i`: an opening bracket, a non-empty text up
/// to the last bracket-parenthesis token that leaves room for a target, and
/// a non-empty target up to the last closing parenthesis of the line.
/// Yields the token and closing-parenthesis positions.
pub open spec fn link_at(s: Seq<char>, i: int) -> Option<(int, int)> {
    if !occ1(s, '[', i) {
        None
    } else {
        match rfind1(s, ')', s.len() - 1) {
            None => None,
            Some(f) => match rfind2(s, ']', '(', f - 3) {
                Some(e) => if e >= i + 2 {
                    Some((e, f))
                } else {
                    None
                },
                None => None,
            },
        }
    }
}

/// The first link starting at or after `from`, as its opening, token and
/// closing positions.
pub open spec fn find_link(s: Seq<char>, from: int) -> Option<(int, int, int)>
    decreases s.len() - from,
{
    if from < 0 || from >= s.len() {
        None
    } else {
        match link_at(s, from) {
            Some((e, f)) => Some((from, e, f)),
            None => find_link(s, from + 1),
        }
    }
}

/// Where `find_link` succeeds, the named positions are ordered and within
/// the line, with the link's fixed characters at their places.
pub broadcast proof fn lemma_find_link_bounds(s: Seq<char>, from: int)
    ensures
        (#[trigger] find_link(s, from)) matches Some((i, e, f)) ==> from <= i && occ1(s, '[', i)
            && i + 2 <= e && occ2(s, ']', '(', e) && e + 3 <= f && f < s.len() && s[f] == ')',
    decreases s.len() - from,
{
    if 0 <= from < s.len() {
        if link_at(s, from) is Some {
            lemma_rfind1_bounds(s, ')', s.len() - 1);
            let f = rfind1(s, ')', s.len() - 1)->0;
            lemma_rfind2_bounds(s, ']', '(', f - 3);
        } else {
            lemma_find_link_bounds(s, from + 1);
        }
    }
}

/// The link rule, applied to every link of the line from left to right: the
/// link text is kept, and the target inside the parentheses is underlined.
pub open spec fn spec_link_all(s: Seq<char>) -> Seq<char>
    decreases s.len(),
    via spec_link_all_decreases
{
    match find_link(s, 0) {
        None => s,
        Some((i, e, f)) => s.subrange(0, i) + s.subrange(i + 1, e) + seq!['('] + link_mark()
            + s.subrange(e + 2, f) + reset_mark() + seq![')'] + spec_link_all(
            s.subrange(f + 1, s.len() as int),
        ),
    }
}

#[via_fn]
proof fn spec_link_all_decreases(s: Seq<char>) {
    lemma_find_link_bounds(s, 0);
}

/// Exec twin of [`link_at`].
fn link_at_exec(s: &Vec<char>, i: usize) -> (r: Option<(usize, usize)>)
    ensures
        match r {
            Some((e, f)) => link_at(s@, i as int) == Some((e as int, f as int)),
            None => link_at(s@, i as int) is None,
        },
{
    let n = s.len();
    if !(i < n && s[i] == '[') {
        return None;
    }
    let fo = rfind_char(s, ')', n - 1);
    proof {
        lemma_rfind1_bounds(s@, ')', n as int - 1);
    }
    let f = match fo {
        Some(f) => f,
        None => {
            return None;
        },
    };
    if f < 3 {
        proof {
            assert(rfind2(s@, ']', '(', f as int - 3) is None);
        }
        return None;
    }
    let eo = rfind_pair(s, ']', '(', f - 3);
    proof {
        lemma_rfind2_bounds(s@, ']', '(', f as int - 3);
    }
    match eo {
        Some(e) => if e >= i && e - i >= 2 {
            Some((e, f))
        } else {
            None
        },
        None => None,
    }
}

/// Exec twin of [`find_link`].
fn find_link_exec(s: &Vec<char>, from: usize) -> (r: Option<(usize, usize, usize)>)
    ensures
        match r {
            Some((i, e, f)) => find_link(s@, from as int) == Some((i as int, e as int, f as int)),
            None => find_link(s@, from as int) is None,
        },
{
    let n = s.len();
    let mut i = from;
    while i < n
        invariant
            from <= i,
            n == s@.len(),
            find_link(s@, from as int) == find_link(s@, i as int),
        decreases n - i,
    {
        match link_at_exec(s, i) {
            Some((e, f)) => {
                return Some((i, e, f));
            },
            None => {},
        }
        i = i + 1;
    }
    None
}

/// Applies the link rule to every link of the line.
pub fn stage_link(s: &Vec<char>) -> (r: Vec<char>)
    ensures
        r@ == spec_link_all(s@),
    decreases s@.len(),
{
    match find_link_exec(s, 0) {
        None => crate::text::copy_chars(s),
        Some((i, e, f)) => {
            proof {
                lemma_find_link_bounds(s@, 0);
            }
            let n = s.len();
            let mut out: Vec<char> = Vec::new();
            crate::text::push_range(&mut out, s, 0, i);
            crate::text::push_range(&mut out, s, i + 1, e);
            out.push('(');
            crate::text::push_str_chars(&mut out, "\x1b[4;34m");
            crate::text::push_range(&mut out, s, e + 2, f);
            crate::text::push_str_chars(&mut out, "\x1b[0m");
            out.push(')');
            let mut suffix: Vec<char> = Vec::new();
            crate::text::push_range(&mut suffix, s, f + 1, n);
            let mut rest = stage_link(&suffix);
            out.append(&mut rest);
            assert(out@ =~= spec_link_all(s@));
            out
        },
    }
}

// ---------------------------------------------------------------------------
// The whole transform
// ---------------------------------------------------------------------------
/// The highlight transform: the ordered rule list applied to one line, most
/// specific rules first.
pub open spec fn spec_highlight(s: Seq<char>) -> Seq<char> {
    spec_link_all(
        spec_image_all(
            spec_italic(
                spec_italic(spec_points(spec_bold(spec_bold(spec_heading(s), '*'), '_')), '*'),
                '_',
            ),
        ),
    )
}

/// The render cache of a raw line: the highlight transform applied to its
/// tab-expanded copy.
pub open spec fn spec_render(raw: Seq<char>) -> Seq<char> {
    spec_highlight(spec_expand_tabs(raw))
}

/// Applies the highlight transform to one line.
pub fn highlight_line(s: &Vec<char>) -> (r: Vec<char>)
    ensures
        r@ == spec_highlight(s@),
{
    let a = stage_heading(s);
    let b = stage_bold(&a, '*');
    let c = stage_bold(&b, '_');
    let d = stage_points(&c);
    let e = stage_italic(&d, '*');
    let f = stage_italic(&e, '_');
    let g = stage_image(&f);
    stage_link(&g)
}

/// Computes the render cache of a raw line: tab expansion, then the
/// highlight transform.
pub fn render_line(raw: &Vec<char>) -> (r: Vec<char>)
    ensures
        r@ == spec_render(raw@),
{
    let expanded = expand_tabs(raw);
    highlight_line(&expanded)
}

/// Recomputes every render cache of `text`: the highlight transform of a
/// tab-expanded copy of its line's raw text.
pub fn parse_lines_to_markdown(text: &mut Vec<Line>)
    ensures
        final(text)@.len() == old(text)@.len(),
        forall|i: int|
            0 <= i < old(text)@.len() ==> (#[trigger] final(text)@[i]).raw == old(text)@[i].raw
                && final(text)@[i].render@ == spec_render(old(text)@[i].raw@),
{
    let n = text.len();
    let mut i: usize = 0;
    while i < n
        invariant
            i <= n,
            n == text@.len(),
            text@.len() == old(text)@.len(),
            forall|j: int| i <= j < n ==> text@[j] == old(text)@[j],
            forall|j: int|
                0 <= j < i ==> (#[trigger] text@[j]).raw == old(text)@[j].raw && text@[j].render@
                    == spec_render(old(text)@[j].raw@),
        decreases n - i,
    {
        let rendered = render_line(&text[i].raw);
        text[i].render = rendered;
        i = i + 1;
    }
}

/// The highlight transform on one line held as a `String`.
pub fn parse_line_to_markdown(text: String) -> (r: String)
    ensures
        r@ == spec_highlight(text@),
{
    let v = crate::text::str_to_chars(text.as_str());
    let h = highlight_line(&v);
    crate::text::chars_to_string(&h)
}

// ---------------------------------------------------------------------------
// Identity on plain prose
// ---------------------------------------------------------------------------
/// No character of `s` can open any highlight rule.
pub open spec fn no_trigger_chars(s: Seq<char>) -> bool {
    forall|i: int|
        0 <= i < s.len() ==> (s[i] != '#' && s[i] != '*' && s[i] != '_' && s[i] != '[' && s[i]
            != '!')
}

proof fn lemma_find_image_absent(s: Seq<char>, from: int)
    requires
        forall|k: int| 0 <= k < s.len() ==> s[k] != '!',
    ensures
        find_image(s, from) is None,
    decreases s.len() - from,
{
    if 0 <= from < s.len() {
        lemma_find_image_absent(s, from + 1);
    }
}

proof fn lemma_find_link_absent(s: Seq<char>, from: int)
    requires
        forall|k: int| 0 <= k < s.len() ==> s[k] != '[',
    ensures
        find_link(s, from) is None,
    decreases s.len() - from,
{
    if 0 <= from < s.len() {
        lemma_find_link_absent(s, from + 1);
    }
}

/// The highlight transform is the identity function on a line holding none
/// of the trigger characters `#`, `*`, `_`, `[` and `!`.
pub proof fn lemma_highlight_plain_identity(s: Seq<char>)
    requires
        no_trigger_chars(s),
    ensures
        spec_highlight(s) == s,
{
    assert(heading_level(s) == 0) by {
        assert(is_hash_prefix(s, 1) && s.len() >= 2 ==> s[0] == '#');
        assert(is_hash_prefix(s, 2) && s.len() >= 3 ==> s[0] == '#');
        assert(is_hash_prefix(s, 3) && s.len() >= 4 ==> s[0] == '#');
        assert(is_hash_prefix(s, 4) && s.len() >= 5 ==> s[0] == '#');
        assert(is_hash_prefix(s, 5) && s.len() >= 6 ==> s[0] == '#');
        assert(is_hash_prefix(s, 6) && s.len() >= 7 ==> s[0] == '#');
    }
    assert(spec_heading(s) == s);
    lemma_find2_absent(s, '*', '*', 0);
    lemma_find2_absent(s, '_', '_', 0);
    assert(spec_bold(s, '*') == s);
    assert(spec_bold(s, '_') == s);
    assert(spec_points(s) == s);
    lemma_find1_absent(s, '*', 0);
    lemma_find1_absent(s, '_', 0);
    assert(spec_italic(s, '*') == s);
    assert(spec_italic(s, '_') == s);
    lemma_find_image_absent(s, 0);
    assert(spec_image_all(s) == s);
    lemma_find_link_absent(s, 0);
    assert(spec_link_all(s) == s);
}

} // verus!
