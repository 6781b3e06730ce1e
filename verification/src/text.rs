use vstd::prelude::*;

verus! {

/// Character-by-character equality of two string slices.
pub fn str_eq(a: &str, b: &str) -> (r: bool)
    ensures
        r == (a@ == b@),
{
    let n = a.unicode_len();
    let m = b.unicode_len();
    if n != m {
        return false;
    }
    let mut i: usize = 0;
    while i < n
        invariant
            n == a@.len(),
            m == b@.len(),
            n == m,
            i <= n,
            forall|j: int| 0 <= j < i ==> a@[j] == b@[j],
        decreases n - i,
    {
        if a.get_char(i) != b.get_char(i) {
            return false;
        }
        i = i + 1;
    }
    assert(a@ =~= b@);
    true
}

/// The pieces of `s` between the dashes, in order: `"a-b"` gives `["a", "b"]`,
/// `""` gives `[""]`, and `"a--b"` gives `["a", "", "b"]`.
pub open spec fn dash_split(s: Seq<char>) -> Seq<Seq<char>>
    decreases s.len(),
{
    if s.len() == 0 {
        seq![Seq::<char>::empty()]
    } else {
        let prev = dash_split(s.drop_last());
        if s.last() == '-' {
            prev.push(Seq::<char>::empty())
        } else {
            prev.update(prev.len() - 1, prev.last().push(s.last()))
        }
    }
}

/// A split always has at least one piece.
pub proof fn lemma_dash_split_nonempty(s: Seq<char>)
    ensures
        dash_split(s).len() >= 1,
    decreases s.len(),
{
    if s.len() > 0 {
        lemma_dash_split_nonempty(s.drop_last());
    }
}

/// Splits `s` on every `-`, keeping empty pieces, as `str::split("-")` does.
pub fn split_dashes(s: &str) -> (parts: Vec<String>)
    ensures
        parts.deep_view() == dash_split(s@),
{
    let n = s.unicode_len();
    let mut parts: Vec<String> = Vec::new();
    let mut start: usize = 0;
    let mut i: usize = 0;
    assert(s@.take(0) =~= Seq::<char>::empty());
    assert(parts.deep_view().push(s@.subrange(0, 0)) =~= dash_split(s@.take(0)));
    while i < n
        invariant
            n == s@.len(),
            start <= i <= n,
            dash_split(s@.take(i as int)) == parts.deep_view().push(s@.subrange(start as int, i as int)),
        decreases n - i,
    {
        let ghost old_parts = parts.deep_view();
        let c = s.get_char(i);
        assert(s@.take(i + 1).drop_last() =~= s@.take(i as int));
        assert(s@.take(i + 1).last() == c);
        proof {
            lemma_dash_split_nonempty(s@.take(i as int));
        }
        if c == '-' {
            let ghost old_start = start;
            let piece = String::from_str(s.substring_char(start, i));
            parts.push(piece);
            start = i + 1;
            assert(parts.deep_view() =~= old_parts.push(s@.subrange(old_start as int, i as int)));
            assert(s@.subrange(start as int, i + 1) =~= Seq::<char>::empty());
            assert(dash_split(s@.take(i + 1)) =~= parts.deep_view().push(s@.subrange(start as int, i + 1)));
        } else {
            assert(s@.subrange(start as int, i + 1) =~= s@.subrange(start as int, i as int).push(c));
            assert(dash_split(s@.take(i + 1)) =~= parts.deep_view().push(s@.subrange(start as int, i + 1)));
        }
        i = i + 1;
    }
    let last = String::from_str(s.substring_char(start, n));
    let ghost before = parts.deep_view();
    parts.push(last);
    assert(s@.take(n as int) =~= s@);
    assert(parts.deep_view() =~= before.push(last@));
    parts
}

/// Splitting after appending a dash-free text extends the last piece by it.
pub proof fn lemma_dash_split_append_plain(x: Seq<char>, y: Seq<char>)
    requires
        !y.contains('-'),
    ensures
        dash_split(x + y) == dash_split(x).update(
            dash_split(x).len() - 1,
            dash_split(x).last() + y,
        ),
    decreases y.len(),
{
    lemma_dash_split_nonempty(x);
    let p = dash_split(x);
    if y.len() == 0 {
        assert(x + y =~= x);
        assert(p.last() + y =~= p.last());
        assert(p.update(p.len() - 1, p.last() + y) =~= p);
    } else {
        let y0 = y.drop_last();
        assert(!y0.contains('-')) by {
            if y0.contains('-') {
                let k = choose|k: int| 0 <= k < y0.len() && y0[k] == '-';
                assert(y[k] == '-');
            }
        }
        lemma_dash_split_append_plain(x, y0);
        assert((x + y).drop_last() =~= x + y0);
        assert((x + y).last() == y.last());
        assert(y.last() != '-') by {
            assert(y[y.len() - 1] == y.last());
        }
        assert((p.last() + y0).push(y.last()) =~= p.last() + y);
        assert(dash_split(x + y) =~= p.update(p.len() - 1, p.last() + y));
    }
}

/// Splitting after appending a dash starts a new, empty piece.
pub proof fn lemma_dash_split_push_dash(x: Seq<char>)
    ensures
        dash_split(x.push('-')) == dash_split(x).push(Seq::<char>::empty()),
{
    assert(x.push('-').drop_last() =~= x);
}

/// A dash followed by a dash-free text adds that text as a new piece.
pub proof fn lemma_dash_split_dash_then(x: Seq<char>, y: Seq<char>)
    requires
        !y.contains('-'),
    ensures
        dash_split(x + seq!['-'] + y) == dash_split(x).push(y),
{
    assert(x + seq!['-'] =~= x.push('-'));
    lemma_dash_split_push_dash(x);
    lemma_dash_split_append_plain(x + seq!['-'], y);
    let p = dash_split(x).push(Seq::<char>::empty());
    assert(Seq::<char>::empty() + y =~= y);
    assert(p.update(p.len() - 1, p.last() + y) =~= dash_split(x).push(y));
}

/// A dash-free text is a single piece.
pub proof fn lemma_dash_split_plain(y: Seq<char>)
    requires
        !y.contains('-'),
    ensures
        dash_split(y) == seq![y],
{
    let e = Seq::<char>::empty();
    lemma_dash_split_append_plain(e, y);
    assert(e + y =~= y);
    assert(seq![e].update(0, e + y) =~= seq![y]);
}

/// The pieces joined back with dashes.
pub open spec fn dash_join(parts: Seq<Seq<char>>) -> Seq<char>
    decreases parts.len(),
{
    if parts.len() == 0 {
        Seq::<char>::empty()
    } else if parts.len() == 1 {
        parts[0]
    } else {
        dash_join(parts.drop_last()) + seq!['-'] + parts.last()
    }
}

/// Joining the pieces of a split gives back the text.
pub proof fn lemma_dash_join_split(s: Seq<char>)
    ensures
        dash_join(dash_split(s)) == s,
    decreases s.len(),
{
    if s.len() == 0 {
        assert(dash_join(dash_split(s)) =~= s);
    } else {
        let prev = dash_split(s.drop_last());
        lemma_dash_split_nonempty(s.drop_last());
        lemma_dash_join_split(s.drop_last());
        if s.last() == '-' {
            let q = prev.push(Seq::<char>::empty());
            assert(q.drop_last() =~= prev);
            assert(dash_join(q) =~= s);
        } else {
            let q = prev.update(prev.len() - 1, prev.last().push(s.last()));
            if prev.len() == 1 {
                assert(dash_join(q) =~= s);
            } else {
                assert(q.drop_last() =~= prev.drop_last());
                assert(q.last() == prev.last().push(s.last()));
                assert(dash_join(q) == dash_join(prev.drop_last()) + seq!['-'] + q.last());
                assert(dash_join(prev) == dash_join(prev.drop_last()) + seq!['-'] + prev.last());
                assert(s =~= s.drop_last().push(s.last()));
                assert(dash_join(q) =~= s);
            }
        }
    }
}

/// Whether `c` has the Unicode `White_Space` property, which is what
/// `char::is_whitespace` tests.
pub open spec fn is_white_space(c: char) -> bool {
    ||| ('\u{9}' <= c && c <= '\u{d}')
    ||| c == ' '
    ||| c == '\u{85}'
    ||| c == '\u{a0}'
    ||| c == '\u{1680}'
    ||| ('\u{2000}' <= c && c <= '\u{200a}')
    ||| c == '\u{2028}'
    ||| c == '\u{2029}'
    ||| c == '\u{202f}'
    ||| c == '\u{205f}'
    ||| c == '\u{3000}'
}

/// Executable form of `is_white_space`.
pub fn white_space(c: char) -> (r: bool)
    ensures
        r == is_white_space(c),
{
    ('\u{9}' <= c && c <= '\u{d}') || c == ' ' || c == '\u{85}' || c == '\u{a0}' || c == '\u{1680}'
        || ('\u{2000}' <= c && c <= '\u{200a}') || c == '\u{2028}' || c == '\u{2029}' || c
        == '\u{202f}' || c == '\u{205f}' || c == '\u{3000}'
}

/// A string is blank when trimming its white space leaves nothing.
pub open spec fn is_blank_spec(s: Seq<char>) -> bool {
    forall|i: int| 0 <= i < s.len() ==> is_white_space(#[trigger] s[i])
}

/// Tests `s.trim().is_empty()`.
pub fn is_blank(s: &str) -> (r: bool)
    ensures
        r == is_blank_spec(s@),
{
    let n = s.unicode_len();
    let mut i: usize = 0;
    while i < n
        invariant
            n == s@.len(),
            i <= n,
            forall|j: int| 0 <= j < i ==> is_white_space(#[trigger] s@[j]),
        decreases n - i,
    {
        if !white_space(s.get_char(i)) {
            return false;
        }
        i = i + 1;
    }
    true
}

/// `s` with one leading `"lib"` removed when it starts with it.
pub open spec fn strip_lib_spec(s: Seq<char>) -> Seq<char> {
    if s.len() >= 3 && s.take(3) == "lib"@ {
        s.skip(3)
    } else {
        s
    }
}

/// `s.strip_prefix("lib").unwrap_or(s)`, as an owned string.
pub fn strip_lib_prefix(s: &str) -> (r: String)
    ensures
        r@ == strip_lib_spec(s@),
{
    let n = s.unicode_len();
    if n >= 3 && str_eq(s.substring_char(0, 3), "lib") {
        String::from_str(s.substring_char(3, n))
    } else {
        String::from_str(s)
    }
}

} // verus!
