//! Character-level text operations with their specifications.

use vstd::prelude::*;

verus! {

broadcast use vstd::string::group_string_axioms;

/// The characters that `char::is_whitespace` accepts: those with the
/// Unicode `White_Space` property.
pub open spec fn is_ws(c: char) -> bool {
    ||| ('\u{9}' <= c && c <= '\u{d}')
    ||| c == ' '
    ||| c == '\u{85}'
    ||| c == '\u{a0}'
    ||| c == '\u{1680}'
    ||| ('\u{2000}' <= c && c <= '\u{200a}')
    ||| c == '\u{2028}'
    ||| c == '\u{2029}'
    ||| c == '\u{202f}'
    ||| c == '\u{205f}'
    ||| c == '\u{3000}'
}

/// `s` without its leading whitespace.
pub open spec fn trim_start_spec(s: Seq<char>) -> Seq<char>
    decreases s.len(),
{
    if s.len() > 0 && is_ws(s[0]) {
        trim_start_spec(s.drop_first())
    } else {
        s
    }
}

/// `s` without its trailing whitespace.
pub open spec fn trim_end_spec(s: Seq<char>) -> Seq<char>
    decreases s.len(),
{
    if s.len() > 0 && is_ws(s.last()) {
        trim_end_spec(s.drop_last())
    } else {
        s
    }
}

/// `s` without leading and trailing whitespace, as `str::trim` gives it.
pub open spec fn trim_spec(s: Seq<char>) -> Seq<char> {
    trim_end_spec(trim_start_spec(s))
}

pub fn is_whitespace(c: char) -> (r: bool)
    ensures
        r == is_ws(c),
{
    ('\u{9}' <= c && c <= '\u{d}') || c == ' ' || c == '\u{85}' || c == '\u{a0}' || c
        == '\u{1680}' || ('\u{2000}' <= c && c <= '\u{200a}') || c == '\u{2028}' || c
        == '\u{2029}' || c == '\u{202f}' || c == '\u{205f}' || c == '\u{3000}'
}

/// The characters of `s`, in order.
pub fn chars_of(s: &str) -> (v: Vec<char>)
    ensures
        v@ == s@,
{
    let mut v: Vec<char> = Vec::new();
    for c in it: s.chars()
        invariant
            it.seq() == s@,
            v@ == s@.take(it.index() as int),
    {
        v.push(c);
        assert(s@.take(it.index() + 1) =~= s@.take(it.index() as int).push(c));
    }
    assert(s@.take(s@.len() as int) =~= s@);
    v
}

/// The string made of the characters of `v`.
///
/// Trusted: collects the characters with `FromIterator<&char> for String`,
/// whose documented result holds exactly the characters it was given.
#[verifier::external_body]
pub fn string_from_chars(v: &[char]) -> (s: String)
    ensures
        s@ == v@,
{
    v.iter().collect()
}

/// The characters of `s` from index `lo` up to `hi`.
pub fn copy_range(s: &Vec<char>, lo: usize, hi: usize) -> (r: Vec<char>)
    requires
        lo <= hi <= s.len(),
    ensures
        r@ == s@.subrange(lo as int, hi as int),
{
    let mut r: Vec<char> = Vec::new();
    let mut k = lo;
    while k < hi
        invariant
            lo <= k <= hi <= s.len(),
            r@ == s@.subrange(lo as int, k as int),
        decreases hi - k,
    {
        r.push(s[k]);
        assert(s@.subrange(lo as int, k + 1) =~= s@.subrange(lo as int, k as int).push(s@[k as int]));
        k += 1;
    }
    r
}

/// `s` without leading and trailing whitespace.
pub fn trim_chars(s: &Vec<char>) -> (r: Vec<char>)
    ensures
        r@ == trim_spec(s@),
{
    let n = s.len();
    let mut i: usize = 0;
    assert(s@.skip(0) =~= s@);
    while i < n && is_whitespace(s[i])
        invariant
            i <= n == s.len(),
            trim_start_spec(s@) == trim_start_spec(s@.skip(i as int)),
        decreases n - i,
    {
        assert(s@.skip(i as int).drop_first() =~= s@.skip(i + 1));
        i += 1;
    }
    let ghost t = s@.skip(i as int);
    assert(i < n ==> t[0] == s@[i as int]);
    assert(trim_start_spec(s@) == t);
    assert(t =~= s@.subrange(i as int, n as int));
    let mut j: usize = n;
    while j > i && is_whitespace(s[j - 1])
        invariant
            i <= j <= n == s.len(),
            t == s@.skip(i as int),
            trim_end_spec(t) == trim_end_spec(s@.subrange(i as int, j as int)),
        decreases j,
    {
        assert(s@.subrange(i as int, j as int).drop_last() =~= s@.subrange(i as int, j - 1));
        j -= 1;
    }
    copy_range(s, i, j)
}


/// `s` after removing `p` from its front as many times as it occurs there,
/// as `str::trim_start_matches` does with a string pattern.
pub open spec fn strip_prefixes_spec(s: Seq<char>, p: Seq<char>) -> Seq<char>
    decreases s.len(),
{
    if p.len() > 0 && p.len() <= s.len() && s.take(p.len() as int) == p {
        strip_prefixes_spec(s.skip(p.len() as int), p)
    } else {
        s
    }
}

/// `s` after removing `p` from its end as many times as it occurs there,
/// as `str::trim_end_matches` does with a string pattern.
pub open spec fn strip_suffixes_spec(s: Seq<char>, p: Seq<char>) -> Seq<char>
    decreases s.len(),
{
    if p.len() > 0 && p.len() <= s.len() && s.skip(s.len() - p.len()) == p {
        strip_suffixes_spec(s.take(s.len() - p.len()), p)
    } else {
        s
    }
}

/// Whether `p` occurs in `s` at index `at`.
fn occurs_at(s: &Vec<char>, p: &Vec<char>, at: usize) -> (r: bool)
    requires
        at + p.len() <= s.len(),
    ensures
        r == (s@.subrange(at as int, at + p.len()) == p@),
{
    let mut k: usize = 0;
    while k < p.len()
        invariant
            k <= p.len(),
            at + p.len() <= s.len(),
            s@.subrange(at as int, at + k) == p@.take(k as int),
        decreases p.len() - k,
    {
        if s[at + k] != p[k] {
            assert(s@.subrange(at as int, at + p.len())[k as int] != p@[k as int]);
            return false;
        }
        assert(s@.subrange(at as int, at + k + 1) =~= p@.take(k + 1));
        k += 1;
    }
    assert(p@.take(p.len() as int) =~= p@);
    true
}

/// `s` after removing every leading occurrence of `p`.
pub fn strip_prefixes(s: &Vec<char>, p: &Vec<char>) -> (r: Vec<char>)
    ensures
        r@ == strip_prefixes_spec(s@, p@),
{
    let n = s.len();
    let m = p.len();
    let mut i: usize = 0;
    assert(s@.skip(0) =~= s@);
    while m > 0 && m <= n - i && occurs_at(s, p, i)
        invariant
            i <= n == s.len(),
            m == p.len(),
            strip_prefixes_spec(s@, p@) == strip_prefixes_spec(s@.skip(i as int), p@),
        decreases n - i,
    {
        assert(s@.skip(i as int).take(m as int) =~= s@.subrange(i as int, i + m));
        assert(s@.skip(i as int).skip(m as int) =~= s@.skip(i + m));
        i += m;
    }
    proof {
        let t = s@.skip(i as int);
        if m > 0 && m <= n - i {
            assert(t.take(m as int) =~= s@.subrange(i as int, i + m));
        }
        assert(t =~= s@.subrange(i as int, n as int));
    }
    copy_range(s, i, n)
}

/// `s` after removing every trailing occurrence of `p`.
pub fn strip_suffixes(s: &Vec<char>, p: &Vec<char>) -> (r: Vec<char>)
    ensures
        r@ == strip_suffixes_spec(s@, p@),
{
    let n = s.len();
    let m = p.len();
    let mut j: usize = n;
    assert(s@.take(n as int) =~= s@);
    while m > 0 && m <= j && occurs_at(s, p, j - m)
        invariant
            j <= n == s.len(),
            m == p.len(),
            strip_suffixes_spec(s@, p@) == strip_suffixes_spec(s@.take(j as int), p@),
        decreases j,
    {
        assert(s@.take(j as int).skip(j - m) =~= s@.subrange(j - m, j as int));
        assert(s@.take(j as int).take(j - m) =~= s@.take(j - m));
        j -= m;
    }
    proof {
        let t = s@.take(j as int);
        if m > 0 && m <= j {
            assert(t.skip(j - m) =~= s@.subrange(j - m, j as int));
        }
        assert(t =~= s@.subrange(0, j as int));
    }
    copy_range(s, 0, j)
}


/// The lines of `s` as `str::lines` yields them when each line is afterwards
/// trimmed: `s` is cut at every `'\n'`, and a last, empty piece after a final
/// `'\n'` is not a line. (`str::lines` also drops a `'\r'` before each `'\n'`;
/// every caller here trims the lines, which removes it as well.)
pub open spec fn lines_spec(s: Seq<char>) -> Seq<Seq<char>> {
    lines_from(s, seq![], seq![])
}

/// Splitting the rest `s` of a text, with `cur` the line read so far and `acc`
/// the lines finished so far.
pub open spec fn lines_from(s: Seq<char>, cur: Seq<char>, acc: Seq<Seq<char>>) -> Seq<Seq<char>>
    decreases s.len(),
{
    if s.len() == 0 {
        if cur.len() == 0 {
            acc
        } else {
            acc.push(cur)
        }
    } else if s[0] == '\n' {
        lines_from(s.drop_first(), seq![], acc.push(cur))
    } else {
        lines_from(s.drop_first(), cur.push(s[0]), acc)
    }
}

/// Each line followed by `'\n'`, in order.
pub open spec fn render_lines(ls: Seq<Seq<char>>) -> Seq<char>
    decreases ls.len(),
{
    if ls.len() == 0 {
        seq![]
    } else {
        render_lines(ls.drop_last()) + ls.last() + seq!['\n']
    }
}

/// The views of a vector of character vectors.
pub open spec fn views(v: Seq<Vec<char>>) -> Seq<Seq<char>> {
    v.map_values(|l: Vec<char>| l@)
}

pub open spec fn has_newline(s: Seq<char>) -> bool {
    s.contains('\n')
}

/// The lines of `s`.
pub fn split_lines(s: &Vec<char>) -> (r: Vec<Vec<char>>)
    ensures
        views(r@) == lines_spec(s@),
{
    let n = s.len();
    let mut acc: Vec<Vec<char>> = Vec::new();
    let mut cur: Vec<char> = Vec::new();
    let mut i: usize = 0;
    assert(s@.skip(0) =~= s@);
    assert(views(acc@) =~= Seq::<Seq<char>>::empty());
    while i < n
        invariant
            i <= n == s.len(),
            lines_spec(s@) == lines_from(s@.skip(i as int), cur@, views(acc@)),
        decreases n - i,
    {
        let c = s[i];
        assert(s@.skip(i as int).drop_first() =~= s@.skip(i + 1));
        assert(s@.skip(i as int)[0] == c);
        if c == '\n' {
            let line = cur;
            cur = Vec::new();
            let ghost before = acc@;
            acc.push(line);
            assert(views(acc@) =~= views(before).push(line@));
            assert(cur@ =~= Seq::<char>::empty());
        } else {
            cur.push(c);
        }
        i += 1;
    }
    assert(s@.skip(n as int) =~= Seq::<char>::empty());
    if cur.len() > 0 {
        let ghost before = acc@;
        let ghost last = cur@;
        acc.push(cur);
        assert(views(acc@) =~= views(before).push(last));
    }
    acc
}

/// Each line of `ls` followed by `'\n'`.
pub fn render(ls: &Vec<Vec<char>>) -> (r: Vec<char>)
    ensures
        r@ == render_lines(views(ls@)),
{
    let mut out: Vec<char> = Vec::new();
    let mut i: usize = 0;
    assert(views(ls@).take(0) =~= Seq::<Seq<char>>::empty());
    while i < ls.len()
        invariant
            i <= ls.len(),
            out@ == render_lines(views(ls@).take(i as int)),
        decreases ls.len() - i,
    {
        let line = &ls[i];
        let mut k: usize = 0;
        let ghost start = out@;
        while k < line.len()
            invariant
                k <= line.len(),
                out@ == start + line@.take(k as int),
            decreases line.len() - k,
        {
            out.push(line[k]);
            assert(line@.take(k + 1) =~= line@.take(k as int).push(line@[k as int]));
            k += 1;
        }
        out.push('\n');
        proof {
            let vs = views(ls@);
            assert(vs.take(i + 1).drop_last() =~= vs.take(i as int));
            assert(vs.take(i + 1).last() == line@);
            assert(line@.take(line@.len() as int) =~= line@);
        }
        i += 1;
    }
    assert(views(ls@).take(ls.len() as int) =~= views(ls@));
    out
}

/// Reading one line `w` and its `'\n'` finishes the line under way.
pub proof fn lemma_lines_one(w: Seq<char>, b: Seq<char>, cur: Seq<char>, acc: Seq<Seq<char>>)
    requires
        !has_newline(w),
    ensures
        lines_from(w + seq!['\n'] + b, cur, acc) == lines_from(b, seq![], acc.push(cur + w)),
    decreases w.len(),
{
    let t = w + seq!['\n'] + b;
    if w.len() == 0 {
        assert(t[0] == '\n');
        assert(t.drop_first() =~= b);
        assert(cur + w =~= cur);
    } else {
        assert(t[0] == w[0]);
        assert(t.drop_first() =~= w.drop_first() + seq!['\n'] + b);
        assert(!has_newline(w.drop_first())) by {
            if w.drop_first().contains('\n') {
                let k = choose|k: int| 0 <= k < w.drop_first().len() && w.drop_first()[k] == '\n';
                assert(w[k + 1] == '\n');
            }
        }
        assert(w[0] != '\n') by {
            if w[0] == '\n' {
                assert(w.contains('\n'));
            }
        }
        lemma_lines_one(w.drop_first(), b, cur.push(w[0]), acc);
        assert(cur.push(w[0]) + w.drop_first() =~= cur + w);
    }
}

/// Splitting rendered lines gives the lines back, when none holds a `'\n'`.
pub proof fn lemma_lines_render(ls: Seq<Seq<char>>, b: Seq<char>, acc: Seq<Seq<char>>)
    requires
        forall|i: int| 0 <= i < ls.len() ==> !has_newline(#[trigger] ls[i]),
    ensures
        lines_from(render_lines(ls) + b, seq![], acc) == lines_from(b, seq![], acc + ls),
    decreases ls.len(),
{
    if ls.len() == 0 {
        assert(render_lines(ls) + b =~= b);
        assert(acc + ls =~= acc);
    } else {
        let init = ls.drop_last();
        let last = ls.last();
        let b2 = last + seq!['\n'] + b;
        assert(render_lines(ls) + b =~= render_lines(init) + b2);
        lemma_lines_render(init, b2, acc);
        assert(!has_newline(last)) by {
            assert(ls[ls.len() - 1] == last);
        }
        lemma_lines_one(last, b, seq![], acc + init);
        assert(Seq::<char>::empty() + last =~= last);
        assert((acc + init).push(last) =~= acc + ls);
    }
}

/// Splitting rendered lines gives the lines back, when none holds a `'\n'`.
pub proof fn lemma_lines_of_render(ls: Seq<Seq<char>>)
    requires
        forall|i: int| 0 <= i < ls.len() ==> !has_newline(#[trigger] ls[i]),
    ensures
        lines_spec(render_lines(ls)) == ls,
{
    lemma_lines_render(ls, seq![], seq![]);
    assert(render_lines(ls) + Seq::<char>::empty() =~= render_lines(ls));
    assert(Seq::<Seq<char>>::empty() + ls =~= ls);
}

/// No line holds a `'\n'`.
pub proof fn lemma_lines_no_newline(s: Seq<char>, cur: Seq<char>, acc: Seq<Seq<char>>)
    requires
        !has_newline(cur),
        forall|i: int| 0 <= i < acc.len() ==> !has_newline(#[trigger] acc[i]),
    ensures
        forall|i: int|
            0 <= i < lines_from(s, cur, acc).len() ==> !has_newline(
                #[trigger] lines_from(s, cur, acc)[i],
            ),
    decreases s.len(),
{
    assert forall|i: int| 0 <= i < acc.push(cur).len() implies !has_newline(
        #[trigger] acc.push(cur)[i],
    ) by {
        if i < acc.len() {
            assert(acc.push(cur)[i] == acc[i]);
        }
    }
    if s.len() == 0 {
        if cur.len() == 0 {
            assert(lines_from(s, cur, acc) == acc);
        } else {
            assert(lines_from(s, cur, acc) == acc.push(cur));
        }
    } else if s[0] == '\n' {
        let e: Seq<char> = seq![];
        assert(!has_newline(e)) by {
            if e.contains('\n') {
                let k = choose|k: int| 0 <= k < e.len() && e[k] == '\n';
            }
        }
        assert(lines_from(s, cur, acc) == lines_from(s.drop_first(), e, acc.push(cur)));
        lemma_lines_no_newline(s.drop_first(), e, acc.push(cur));
    } else {
        assert(!has_newline(cur.push(s[0]))) by {
            if cur.push(s[0]).contains('\n') {
                let k = choose|k: int| 0 <= k < cur.push(s[0]).len() && cur.push(s[0])[k] == '\n';
                if k < cur.len() {
                    assert(cur[k] == '\n');
                    assert(cur.contains('\n'));
                }
            }
        }
        assert(lines_from(s, cur, acc) == lines_from(s.drop_first(), cur.push(s[0]), acc));
        lemma_lines_no_newline(s.drop_first(), cur.push(s[0]), acc);
    }
}


/// Trimming takes a contiguous piece of the text.
pub proof fn lemma_trim_is_piece(s: Seq<char>)
    ensures
        exists|a: int, b: int| 0 <= a <= b <= s.len() && trim_spec(s) == s.subrange(a, b),
{
    lemma_trim_start_is_suffix(s);
    let a = choose|a: int| 0 <= a <= s.len() && trim_start_spec(s) == s.skip(a);
    let t = s.skip(a);
    lemma_trim_end_is_prefix(t);
    let b = choose|b: int| 0 <= b <= t.len() && trim_end_spec(t) == t.take(b);
    assert(t.take(b) =~= s.subrange(a, a + b));
}

pub proof fn lemma_trim_start_is_suffix(s: Seq<char>)
    ensures
        exists|a: int| 0 <= a <= s.len() && trim_start_spec(s) == s.skip(a),
    decreases s.len(),
{
    if s.len() > 0 && is_ws(s[0]) {
        lemma_trim_start_is_suffix(s.drop_first());
        let a = choose|a: int|
            0 <= a <= s.drop_first().len() && trim_start_spec(s.drop_first()) == s.drop_first().skip(
                a,
            );
        assert(s.drop_first().skip(a) =~= s.skip(a + 1));
    } else {
        assert(s.skip(0) =~= s);
    }
}

pub proof fn lemma_trim_end_is_prefix(s: Seq<char>)
    ensures
        exists|b: int| 0 <= b <= s.len() && trim_end_spec(s) == s.take(b),
    decreases s.len(),
{
    if s.len() > 0 && is_ws(s.last()) {
        lemma_trim_end_is_prefix(s.drop_last());
        let b = choose|b: int|
            0 <= b <= s.drop_last().len() && trim_end_spec(s.drop_last()) == s.drop_last().take(b);
        assert(s.drop_last().take(b) =~= s.take(b));
    } else {
        assert(s.take(s.len() as int) =~= s);
    }
}

/// A trimmed text of a text without `'\n'` holds no `'\n'`.
pub proof fn lemma_trim_no_newline(s: Seq<char>)
    requires
        !has_newline(s),
    ensures
        !has_newline(trim_spec(s)),
{
    lemma_trim_is_piece(s);
    let (a, b) = choose|a: int, b: int| 0 <= a <= b <= s.len() && trim_spec(s) == s.subrange(a, b);
    if trim_spec(s).contains('\n') {
        let k = choose|k: int| 0 <= k < trim_spec(s).len() && trim_spec(s)[k] == '\n';
        assert(s[a + k] == '\n');
        assert(s.contains('\n'));
    }
}

pub proof fn lemma_trim_start_edge(s: Seq<char>)
    ensures
        trim_start_spec(s).len() == 0 || !is_ws(trim_start_spec(s)[0]),
    decreases s.len(),
{
    if s.len() > 0 && is_ws(s[0]) {
        lemma_trim_start_edge(s.drop_first());
    }
}

pub proof fn lemma_trim_end_edges(s: Seq<char>)
    ensures
        trim_end_spec(s).len() == 0 || !is_ws(trim_end_spec(s).last()),
        trim_end_spec(s).len() > 0 ==> trim_end_spec(s)[0] == s[0],
    decreases s.len(),
{
    if s.len() > 0 && is_ws(s.last()) {
        lemma_trim_end_edges(s.drop_last());
    }
}

/// Trimming a trimmed text changes nothing.
pub proof fn lemma_trim_idempotent(s: Seq<char>)
    ensures
        trim_spec(trim_spec(s)) == trim_spec(s),
{
    let u = trim_spec(s);
    lemma_trim_start_edge(s);
    lemma_trim_end_edges(trim_start_spec(s));
    assert(trim_start_spec(u) == u);
    assert(trim_end_spec(u) == u);
}


/// The view of an optional string.
pub open spec fn opt_view(o: Option<String>) -> Option<Seq<char>> {
    match o {
        Some(s) => Some(s@),
        None => None,
    }
}

/// The view of an optional string slice.
pub open spec fn opt_str_view(o: Option<&str>) -> Option<Seq<char>> {
    match o {
        Some(s) => Some(s@),
        None => None,
    }
}

pub open spec fn digit_char(d: nat) -> char {
    if d == 0 {
        '0'
    } else if d == 1 {
        '1'
    } else if d == 2 {
        '2'
    } else if d == 3 {
        '3'
    } else if d == 4 {
        '4'
    } else if d == 5 {
        '5'
    } else if d == 6 {
        '6'
    } else if d == 7 {
        '7'
    } else if d == 8 {
        '8'
    } else {
        '9'
    }
}

/// The decimal digits of `n`, as `{}` formats an unsigned integer.
pub open spec fn decimal(n: nat) -> Seq<char>
    decreases n,
{
    if n < 10 {
        seq![digit_char(n)]
    } else {
        decimal(n / 10).push(digit_char(n % 10))
    }
}

/// The digit `d` is the character `d` places after `'0'`.
pub proof fn lemma_digit_char_value(d: nat)
    requires
        d < 10,
    ensures
        digit_char(d) as int == '0' as int + d,
{
}

/// The number that decimal digits stand for, read in base 10; each
/// character counts as its distance from `'0'`.
pub open spec fn digits_value(s: Seq<char>) -> int
    decreases s.len(),
{
    if s.len() == 0 {
        0
    } else {
        digits_value(s.drop_last()) * 10 + (s.last() as int - '0' as int)
    }
}

/// The digits written for `n` are its decimal representation: each is a
/// digit from `'0'` to `'9'`, there is at least one, the first is not `'0'`
/// unless `n` is 0, and read back in base 10 they give `n`.
pub proof fn lemma_decimal_reads_back(n: nat)
    ensures
        decimal(n).len() > 0,
        forall|i: int|
            0 <= i < decimal(n).len() ==> '0' as int <= #[trigger] decimal(n)[i] as int <= '9' as int,
        n > 0 ==> decimal(n)[0] != '0',
        digits_value(decimal(n)) == n,
    decreases n,
{
    if n < 10 {
        lemma_digit_char_value(n);
        assert(decimal(n).drop_last() =~= Seq::<char>::empty());
        assert(digits_value(Seq::<char>::empty()) == 0);
        assert(digits_value(decimal(n)) == n);
    } else {
        lemma_decimal_reads_back(n / 10);
        lemma_digit_char_value(n % 10);
        let d = decimal(n);
        assert(d.drop_last() =~= decimal(n / 10));
        assert(d[0] == decimal(n / 10)[0]);
        assert forall|i: int| 0 <= i < d.len() implies '0' as int <= #[trigger] d[i] as int <= '9' as int by {
            if i < d.len() - 1 {
                assert(d[i] == decimal(n / 10)[i]);
            }
        }
        assert(digits_value(d) == (n / 10) * 10 + n % 10);
        assert((n / 10) * 10 + n % 10 == n);
    }
}

fn digit(d: usize) -> (c: char)
    requires
        d < 10,
    ensures
        c == digit_char(d as nat),
{
    if d == 0 {
        '0'
    } else if d == 1 {
        '1'
    } else if d == 2 {
        '2'
    } else if d == 3 {
        '3'
    } else if d == 4 {
        '4'
    } else if d == 5 {
        '5'
    } else if d == 6 {
        '6'
    } else if d == 7 {
        '7'
    } else if d == 8 {
        '8'
    } else {
        '9'
    }
}

/// The decimal digits of `n`.
pub fn decimal_chars(n: usize) -> (r: Vec<char>)
    ensures
        r@ == decimal(n as nat),
    decreases n,
{
    if n < 10 {
        let mut v: Vec<char> = Vec::new();
        v.push(digit(n));
        assert(v@ =~= seq![digit_char(n as nat)]);
        v
    } else {
        let mut v = decimal_chars(n / 10);
        v.push(digit(n % 10));
        v
    }
}

/// Appends the characters of `s` to `v`.
pub fn push_str(v: &mut Vec<char>, s: &str)
    ensures
        final(v)@ == old(v)@ + s@,
{
    let mut w = chars_of(s);
    v.append(&mut w);
}

/// Appends the characters of `s` to `v`.
pub fn push_chars(v: &mut Vec<char>, s: &Vec<char>)
    ensures
        final(v)@ == old(v)@ + s@,
{
    let mut k: usize = 0;
    let ghost start = v@;
    while k < s.len()
        invariant
            k <= s.len(),
            v@ == start + s@.take(k as int),
        decreases s.len() - k,
    {
        v.push(s[k]);
        assert(s@.take(k + 1) =~= s@.take(k as int).push(s@[k as int]));
        k += 1;
    }
    assert(s@.take(s.len() as int) =~= s@);
}

/// `a` comes strictly before `b` in the order of their characters' code
/// points, which is the byte order of their UTF-8 encodings.
pub open spec fn lex_lt(a: Seq<char>, b: Seq<char>) -> bool
    decreases a.len(),
{
    if b.len() == 0 {
        false
    } else if a.len() == 0 {
        true
    } else if a[0] != b[0] {
        (a[0] as int) < (b[0] as int)
    } else {
        lex_lt(a.drop_first(), b.drop_first())
    }
}

pub proof fn lemma_lex_irreflexive(a: Seq<char>)
    ensures
        !lex_lt(a, a),
    decreases a.len(),
{
    if a.len() > 0 {
        lemma_lex_irreflexive(a.drop_first());
    }
}

pub proof fn lemma_lex_transitive(a: Seq<char>, b: Seq<char>, c: Seq<char>)
    requires
        lex_lt(a, b),
        lex_lt(b, c),
    ensures
        lex_lt(a, c),
    decreases a.len(),
{
    if a.len() > 0 && b.len() > 0 && c.len() > 0 && a[0] == b[0] && b[0] == c[0] {
        lemma_lex_transitive(a.drop_first(), b.drop_first(), c.drop_first());
    }
}

pub proof fn lemma_lex_total(a: Seq<char>, b: Seq<char>)
    ensures
        lex_lt(a, b) || lex_lt(b, a) || a == b,
    decreases a.len(),
{
    if a.len() > 0 && b.len() > 0 && a[0] == b[0] {
        lemma_lex_total(a.drop_first(), b.drop_first());
        if a.drop_first() == b.drop_first() {
            assert(a =~= seq![a[0]] + a.drop_first());
            assert(b =~= seq![b[0]] + b.drop_first());
        }
    } else if a.len() == 0 && b.len() == 0 {
        assert(a =~= b);
    } else if a.len() > 0 && b.len() > 0 {
        assert((a[0] as int) != (b[0] as int));
    }
}

/// Whether `a` comes strictly before `b`.
pub fn less_than(a: &Vec<char>, b: &Vec<char>) -> (r: bool)
    ensures
        r == lex_lt(a@, b@),
{
    let mut i: usize = 0;
    assert(a@.skip(0) =~= a@);
    assert(b@.skip(0) =~= b@);
    while i < a.len() && i < b.len() && a[i] == b[i]
        invariant
            i <= a.len(),
            i <= b.len(),
            lex_lt(a@, b@) == lex_lt(a@.skip(i as int), b@.skip(i as int)),
        decreases a.len() - i,
    {
        assert(a@.skip(i as int).drop_first() =~= a@.skip(i + 1));
        assert(b@.skip(i as int).drop_first() =~= b@.skip(i + 1));
        i += 1;
    }
    if i == b.len() {
        false
    } else if i == a.len() {
        true
    } else {
        assert(a@.skip(i as int)[0] == a@[i as int]);
        assert(b@.skip(i as int)[0] == b@[i as int]);
        a[i] < b[i]
    }
}

/// `rel` joined onto `base` as `Path::join` does on Unix: an absolute `rel`
/// replaces `base`; otherwise a `'/'` separates them unless `base` is empty
/// or already ends in one.
pub open spec fn join_path_spec(base: Seq<char>, rel: Seq<char>) -> Seq<char> {
    if rel.len() > 0 && rel[0] == '/' {
        rel
    } else if base.len() == 0 || base.last() == '/' {
        base + rel
    } else {
        base + seq!['/'] + rel
    }
}

/// `rel` joined onto `base`.
pub fn join_path(base: &str, rel: &str) -> (r: String)
    ensures
        r@ == join_path_spec(base@, rel@),
{
    let b = chars_of(base);
    let t = chars_of(rel);
    if t.len() > 0 && t[0] == '/' {
        return string_from_chars(t.as_slice());
    }
    let mut out = b;
    if out.len() > 0 && out[out.len() - 1] != '/' {
        out.push('/');
    }
    push_chars(&mut out, &t);
    string_from_chars(out.as_slice())
}

/// The text after the last `'/'` of `p`, or all of `p` without one.
pub open spec fn after_last_slash(p: Seq<char>) -> Seq<char>
    decreases p.len(),
{
    if p.len() == 0 {
        p
    } else if p.last() == '/' {
        seq![]
    } else {
        after_last_slash(p.drop_last()).push(p.last())
    }
}

/// The file name of a path: its last component, trailing `'/'` ignored.
pub open spec fn file_name_spec(p: Seq<char>) -> Seq<char> {
    after_last_slash(strip_suffixes_spec(p, seq!['/']))
}

/// The file name of `p`.
pub fn file_name(p: &Vec<char>) -> (r: Vec<char>)
    ensures
        r@ == file_name_spec(p@),
{
    let mut slash: Vec<char> = Vec::new();
    slash.push('/');
    assert(slash@ =~= seq!['/']);
    let q = strip_suffixes(p, &slash);
    let n = q.len();
    let mut j = n;
    assert(q@.subrange(n as int, n as int) =~= Seq::<char>::empty());
    assert(q@.take(n as int) =~= q@);
    while j > 0 && q[j - 1] != '/'
        invariant
            j <= n == q.len(),
            after_last_slash(q@) == after_last_slash(q@.take(j as int)) + q@.subrange(
                j as int,
                n as int,
            ),
            forall|k: int| j <= k < n ==> q@[k] != '/',
        decreases j,
    {
        let ghost t = q@.take(j as int);
        assert(t.drop_last() =~= q@.take(j - 1));
        assert(t.last() == q@[j - 1]);
        assert(q@.subrange(j - 1, n as int) =~= seq![q@[j - 1]] + q@.subrange(j as int, n as int));
        assert(after_last_slash(t) == after_last_slash(q@.take(j - 1)).push(q@[j - 1]));
        assert(after_last_slash(q@.take(j - 1)).push(q@[j - 1]) + q@.subrange(j as int, n as int)
            =~= after_last_slash(q@.take(j - 1)) + q@.subrange(j - 1, n as int));
        j -= 1;
    }
    proof {
        let t = q@.take(j as int);
        if j > 0 {
            assert(t.last() == q@[j - 1]);
            assert(after_last_slash(t) =~= Seq::<char>::empty());
        } else {
            assert(after_last_slash(t) =~= Seq::<char>::empty());
        }
        assert(Seq::<char>::empty() + q@.subrange(j as int, n as int) =~= q@.subrange(
            j as int,
            n as int,
        ));
    }
    copy_range(&q, j, n)
}

/// Whether the file name of `p` has the extension `json`: it ends in
/// `".json"` with at least one character before the dot.
pub open spec fn json_file_spec(p: Seq<char>) -> bool {
    let name = file_name_spec(p);
    name.len() > 5 && name.skip(name.len() - 5) == seq!['.', 'j', 's', 'o', 'n']
}

/// The file name of a path made of a directory, a `'/'` and a name without
/// `'/'` is that name.
proof fn lemma_after_last_slash_of(dir: Seq<char>, name: Seq<char>)
    requires
        !name.contains('/'),
    ensures
        after_last_slash(dir.push('/') + name) == name,
    decreases name.len(),
{
    let p = dir.push('/') + name;
    if name.len() == 0 {
        assert(p =~= dir.push('/'));
    } else {
        assert(p.drop_last() =~= dir.push('/') + name.drop_last());
        assert(p.last() == name.last());
        assert(name.contains(name.last()));
        if name.drop_last().contains('/') {
            let k = choose|k: int| 0 <= k < name.drop_last().len() && name.drop_last()[k] == '/';
            assert(name[k] == '/');
        }
        lemma_after_last_slash_of(dir, name.drop_last());
        assert(name.drop_last().push(name.last()) =~= name);
    }
}

/// Every file whose name is a nonempty stem and `.json` is a JSON block
/// file, whatever the stem holds besides `'/'` (dots included) and whatever
/// directory it is in; a nonempty name that does not end in `.json` is not.
pub proof fn lemma_json_file_names(dir: Seq<char>, stem: Seq<char>, name: Seq<char>)
    requires
        !stem.contains('/'),
        !name.contains('/'),
    ensures
        stem.len() > 0 ==> json_file_spec(dir.push('/') + (stem + seq!['.', 'j', 's', 'o', 'n'])),
        name.len() > 0 && (name.len() < 5 || name.skip(name.len() - 5) != seq!['.', 'j', 's', 'o', 'n'])
            ==> !json_file_spec(dir.push('/') + name),
{
    let ext = seq!['.', 'j', 's', 'o', 'n'];
    let full = stem + ext;
    if full.contains('/') {
        let k = choose|k: int| 0 <= k < full.len() && full[k] == '/';
        if k < stem.len() {
            assert(stem[k] == '/');
        }
    }
    let p = dir.push('/') + full;
    assert(p.len() > 0 && p.skip(p.len() - 1) =~= seq![p.last()]);
    assert(p.last() == 'n');
    assert(p.skip(p.len() - 1)[0] != seq!['/'][0]);
    assert(strip_suffixes_spec(p, seq!['/']) == p);
    lemma_after_last_slash_of(dir, full);
    assert(full.skip(full.len() - 5) =~= ext);
    let q = dir.push('/') + name;
    lemma_after_last_slash_of(dir, name);
    if name.len() > 0 {
        assert(q.last() == name.last());
        assert(name.contains(name.last()));
        assert(q.skip(q.len() - 1) =~= seq![q.last()]);
        assert(q.skip(q.len() - 1)[0] != seq!['/'][0]);
        assert(strip_suffixes_spec(q, seq!['/']) == q);
    }
}

/// Whether the file name of `p` has the extension `json`.
pub fn is_json_file(p: &str) -> (r: bool)
    ensures
        r == json_file_spec(p@),
{
    let name = file_name(&chars_of(p));
    let n = name.len();
    if n <= 5 {
        return false;
    }
    let r = name[n - 5] == '.' && name[n - 4] == 'j' && name[n - 3] == 's' && name[n - 2] == 'o'
        && name[n - 1] == 'n';
    proof {
        let tail = name@.skip(n - 5);
        let ext = seq!['.', 'j', 's', 'o', 'n'];
        if r {
            assert(tail =~= ext);
        } else {
            if tail == ext {
                assert(tail[0] == name@[n - 5]);
                assert(tail[1] == name@[n - 4]);
                assert(tail[2] == name@[n - 3]);
                assert(tail[3] == name@[n - 2]);
                assert(tail[4] == name@[n - 1]);
            }
        }
    }
    r
}


/// Whether `a` and `b` hold the same characters.
pub fn chars_eq(a: &Vec<char>, b: &Vec<char>) -> (r: bool)
    ensures
        r == (a@ == b@),
{
    if a.len() != b.len() {
        return false;
    }
    let mut k: usize = 0;
    while k < a.len()
        invariant
            k <= a.len() == b.len(),
            a@.take(k as int) == b@.take(k as int),
        decreases a.len() - k,
    {
        if a[k] != b[k] {
            return false;
        }
        assert(a@.take(k + 1) =~= a@.take(k as int).push(a@[k as int]));
        assert(b@.take(k + 1) =~= b@.take(k as int).push(b@[k as int]));
        k += 1;
    }
    assert(a@.take(a.len() as int) =~= a@);
    assert(b@.take(b.len() as int) =~= b@);
    true
}

/// Whether some line of `ls` holds the same characters as `x`.
pub fn contains_line(ls: &Vec<Vec<char>>, x: &Vec<char>) -> (r: bool)
    ensures
        r == views(ls@).contains(x@),
{
    let mut k: usize = 0;
    while k < ls.len()
        invariant
            k <= ls.len(),
            forall|j: int| 0 <= j < k ==> ls@[j]@ != x@,
        decreases ls.len() - k,
    {
        if chars_eq(&ls[k], x) {
            assert(views(ls@)[k as int] == x@);
            return true;
        }
        k += 1;
    }
    proof {
        let vs = views(ls@);
        if vs.contains(x@) {
            let j = choose|j: int| 0 <= j < vs.len() && vs[j] == x@;
            assert(ls@[j]@ == x@);
        }
    }
    false
}

/// The views of a vector of strings.
pub open spec fn strs(v: Seq<String>) -> Seq<Seq<char>> {
    v.map_values(|s: String| s@)
}


/// `a` followed by `b`.
pub fn concat(a: &str, b: &str) -> (r: String)
    ensures
        r@ == a@ + b@,
{
    let mut v = chars_of(a);
    push_str(&mut v, b);
    string_from_chars(v.as_slice())
}

} // verus!
