use vstd::prelude::*;

verus! {

// ------------------------------------------------------------------
// ASCII case folding
// ------------------------------------------------------------------
/// Lower-cases one character, folding the ASCII range only.
pub open spec fn lower_char(c: char) -> char {
    if c == 'A' {
        'a'
    } else if c == 'B' {
        'b'
    } else if c == 'C' {
        'c'
    } else if c == 'D' {
        'd'
    } else if c == 'E' {
        'e'
    } else if c == 'F' {
        'f'
    } else if c == 'G' {
        'g'
    } else if c == 'H' {
        'h'
    } else if c == 'I' {
        'i'
    } else if c == 'J' {
        'j'
    } else if c == 'K' {
        'k'
    } else if c == 'L' {
        'l'
    } else if c == 'M' {
        'm'
    } else if c == 'N' {
        'n'
    } else if c == 'O' {
        'o'
    } else if c == 'P' {
        'p'
    } else if c == 'Q' {
        'q'
    } else if c == 'R' {
        'r'
    } else if c == 'S' {
        's'
    } else if c == 'T' {
        't'
    } else if c == 'U' {
        'u'
    } else if c == 'V' {
        'v'
    } else if c == 'W' {
        'w'
    } else if c == 'X' {
        'x'
    } else if c == 'Y' {
        'y'
    } else if c == 'Z' {
        'z'
    } else {
        c
    }
}

/// The character-wise ASCII lower-casing of a character sequence.
pub open spec fn lower(s: Seq<char>) -> Seq<char> {
    s.map_values(|c: char| lower_char(c))
}

fn lower_char_exec(c: char) -> (r: char)
    ensures
        r == lower_char(c),
{
    if c == 'A' {
        'a'
    } else if c == 'B' {
        'b'
    } else if c == 'C' {
        'c'
    } else if c == 'D' {
        'd'
    } else if c == 'E' {
        'e'
    } else if c == 'F' {
        'f'
    } else if c == 'G' {
        'g'
    } else if c == 'H' {
        'h'
    } else if c == 'I' {
        'i'
    } else if c == 'J' {
        'j'
    } else if c == 'K' {
        'k'
    } else if c == 'L' {
        'l'
    } else if c == 'M' {
        'm'
    } else if c == 'N' {
        'n'
    } else if c == 'O' {
        'o'
    } else if c == 'P' {
        'p'
    } else if c == 'Q' {
        'q'
    } else if c == 'R' {
        'r'
    } else if c == 'S' {
        's'
    } else if c == 'T' {
        't'
    } else if c == 'U' {
        'u'
    } else if c == 'V' {
        'v'
    } else if c == 'W' {
        'w'
    } else if c == 'X' {
        'x'
    } else if c == 'Y' {
        'y'
    } else if c == 'Z' {
        'z'
    } else {
        c
    }
}

/// Relies on String::push: appends exactly one character at the end.
#[verifier::external_body]
fn push_char(s: &mut String, c: char)
    ensures
        final(s)@ == old(s)@.push(c),
{
    s.push(c);
}

/// Lower-cases a string character by character (ASCII folding).
pub fn to_lower(s: &str) -> (r: String)
    ensures
        r@ == lower(s@),
{
    let n = s.unicode_len();
    let mut r = String::new();
    let mut i: usize = 0;
    while i < n
        invariant
            n == s@.len(),
            i <= n,
            r@ == lower(s@.take(i as int)),
        decreases n - i,
    {
        let c = s.get_char(i);
        let lc = lower_char_exec(c);
        push_char(&mut r, lc);
        proof {
            assert(lower(s@.take(i + 1 as int)) =~= lower(s@.take(i as int)).push(
                lower_char(s@[i as int]),
            ));
        }
        i = i + 1;
    }
    proof {
        assert(s@.take(n as int) =~= s@);
    }
    r
}

// ------------------------------------------------------------------
// Equality and containment
// ------------------------------------------------------------------
/// Compares two string slices by their character sequences.
pub fn str_eq(a: &str, b: &str) -> (r: bool)
    ensures
        r == (a@ == b@),
{
    let sa = String::from_str(a);
    let sb = String::from_str(b);
    sa.eq(&sb)
}

/// True when `n` occurs in `h` starting at offset `i`.
pub open spec fn match_at(h: Seq<char>, n: Seq<char>, i: int) -> bool {
    0 <= i && i + n.len() <= h.len() && h.subrange(i, i + n.len() as int) == n
}

/// True when `n` occurs somewhere in `h` as a contiguous run.
pub open spec fn contains_seq(h: Seq<char>, n: Seq<char>) -> bool {
    exists|i: int| match_at(h, n, i)
}

/// True when `h` begins with `n`.
pub open spec fn starts_with_seq(h: Seq<char>, n: Seq<char>) -> bool {
    match_at(h, n, 0)
}

/// True when `h` ends with `n`.
pub open spec fn ends_with_seq(h: Seq<char>, n: Seq<char>) -> bool {
    match_at(h, n, h.len() - n.len())
}

fn match_at_exec(h: &str, n: &str, i: usize, hl: usize, nl: usize) -> (r: bool)
    requires
        hl == h@.len(),
        nl == n@.len(),
        i + nl <= hl,
    ensures
        r == match_at(h@, n@, i as int),
{
    let mut j: usize = 0;
    while j < nl
        invariant
            hl == h@.len(),
            nl == n@.len(),
            i + nl <= hl,
            j <= nl,
            forall|k: int| 0 <= k < j ==> h@[i + k] == n@[k],
        decreases nl - j,
    {
        let hc = h.get_char(i + j);
        let nc = n.get_char(j);
        if hc != nc {
            proof {
                assert(h@.subrange(i as int, i + n@.len() as int)[j as int] == h@[i + j]);
            }
            return false;
        }
        j = j + 1;
    }
    proof {
        assert(h@.subrange(i as int, i + n@.len() as int) =~= n@);
    }
    true
}

/// Substring search by character sequences.
pub fn str_contains(h: &str, n: &str) -> (r: bool)
    ensures
        r == contains_seq(h@, n@),
{
    let hl = h.unicode_len();
    let nl = n.unicode_len();
    if nl > hl {
        return false;
    }
    let end = hl - nl;
    let mut i: usize = 0;
    while i <= end
        invariant
            hl == h@.len(),
            nl == n@.len(),
            nl <= hl,
            end == hl - nl,
            i <= end,
            forall|k: int| 0 <= k < i ==> !match_at(h@, n@, k),
        decreases end - i,
    {
        if match_at_exec(h, n, i, hl, nl) {
            return true;
        }
        if i == end {
            return false;
        }
        i = i + 1;
    }
    proof {
        assert(false);
    }
    false
}

/// Prefix test by character sequences.
pub fn str_starts_with(h: &str, n: &str) -> (r: bool)
    ensures
        r == starts_with_seq(h@, n@),
{
    let hl = h.unicode_len();
    let nl = n.unicode_len();
    if nl > hl {
        return false;
    }
    match_at_exec(h, n, 0, hl, nl)
}

/// Suffix test by character sequences.
pub fn str_ends_with(h: &str, n: &str) -> (r: bool)
    ensures
        r == ends_with_seq(h@, n@),
{
    let hl = h.unicode_len();
    let nl = n.unicode_len();
    if nl > hl {
        return false;
    }
    match_at_exec(h, n, hl - nl, hl, nl)
}

// ------------------------------------------------------------------
// Concatenation helpers
// ------------------------------------------------------------------
/// Concatenates two string slices.
pub fn concat2(a: &str, b: &str) -> (r: String)
    ensures
        r@ == a@ + b@,
{
    let mut r = String::from_str(a);
    r.append(b);
    r
}

/// Concatenates three string slices.
pub fn concat3(a: &str, b: &str, c: &str) -> (r: String)
    ensures
        r@ == a@ + b@ + c@,
{
    let mut r = String::from_str(a);
    r.append(b);
    r.append(c);
    r
}

/// Concatenates four string slices.
pub fn concat4(a: &str, b: &str, c: &str, d: &str) -> (r: String)
    ensures
        r@ == a@ + b@ + c@ + d@,
{
    let mut r = String::from_str(a);
    r.append(b);
    r.append(c);
    r.append(d);
    r
}

/// Concatenates five string slices.
pub fn concat5(a: &str, b: &str, c: &str, d: &str, e: &str) -> (r: String)
    ensures
        r@ == a@ + b@ + c@ + d@ + e@,
{
    let mut r = String::from_str(a);
    r.append(b);
    r.append(c);
    r.append(d);
    r.append(e);
    r
}

/// Concatenates six string slices.
pub fn concat6(a: &str, b: &str, c: &str, d: &str, e: &str, f: &str) -> (r: String)
    ensures
        r@ == a@ + b@ + c@ + d@ + e@ + f@,
{
    let mut r = String::from_str(a);
    r.append(b);
    r.append(c);
    r.append(d);
    r.append(e);
    r.append(f);
    r
}

/// Concatenates seven string slices.
pub fn concat7(a: &str, b: &str, c: &str, d: &str, e: &str, f: &str, g: &str) -> (r: String)
    ensures
        r@ == a@ + b@ + c@ + d@ + e@ + f@ + g@,
{
    let mut r = String::from_str(a);
    r.append(b);
    r.append(c);
    r.append(d);
    r.append(e);
    r.append(f);
    r.append(g);
    r
}

/// Concatenates eight string slices.
pub fn concat8(a: &str, b: &str, c: &str, d: &str, e: &str, f: &str, g: &str, h: &str) -> (r:
    String)
    ensures
        r@ == a@ + b@ + c@ + d@ + e@ + f@ + g@ + h@,
{
    let mut r = String::from_str(a);
    r.append(b);
    r.append(c);
    r.append(d);
    r.append(e);
    r.append(f);
    r.append(g);
    r.append(h);
    r
}

// ------------------------------------------------------------------
// Line vectors
// ------------------------------------------------------------------
/// Every line of `lines`, indented by four spaces.
pub open spec fn indent4(lines: Seq<Seq<char>>) -> Seq<Seq<char>> {
    lines.map_values(|l: Seq<char>| "    "@ + l)
}

/// Appends one line.
pub fn push_line(out: &mut Vec<String>, s: String)
    ensures
        final(out).deep_view() == old(out).deep_view().push(s@),
{
    let ghost prev = out.deep_view();
    let ghost sv = s@;
    out.push(s);
    proof {
        assert(out.deep_view() =~= prev.push(sv));
    }
}

/// Appends every line of `other`, in order.
pub fn append_lines(out: &mut Vec<String>, other: &Vec<String>)
    ensures
        final(out).deep_view() == old(out).deep_view() + other.deep_view(),
{
    let ghost prev = out.deep_view();
    let mut i: usize = 0;
    while i < other.len()
        invariant
            i <= other.len(),
            out.deep_view() == prev + other.deep_view().take(i as int),
        decreases other.len() - i,
    {
        push_line(out, other[i].clone());
        proof {
            assert(other[i as int]@ == other.deep_view()[i as int]);
            assert(prev + other.deep_view().take(i + 1 as int) =~= (prev + other.deep_view().take(
                i as int,
            )).push(other.deep_view()[i as int]));
        }
        i = i + 1;
    }
    proof {
        assert(other.deep_view().take(other@.len() as int) =~= other.deep_view());
    }
}

/// Appends every line of `other`, each indented by four spaces.
pub fn append_indented(out: &mut Vec<String>, other: &Vec<String>)
    ensures
        final(out).deep_view() == old(out).deep_view() + indent4(other.deep_view()),
{
    let ghost prev = out.deep_view();
    let mut i: usize = 0;
    proof {
        assert(prev + indent4(other.deep_view()).take(0) =~= prev);
    }
    while i < other.len()
        invariant
            i <= other.len(),
            out.deep_view() == prev + indent4(other.deep_view()).take(i as int),
        decreases other.len() - i,
    {
        push_line(out, concat2("    ", other[i].as_str()));
        proof {
            assert(indent4(other.deep_view())[i as int] == "    "@ + other.deep_view()[i as int]);
            assert(prev + indent4(other.deep_view()).take(i + 1 as int) =~= (prev + indent4(
                other.deep_view(),
            ).take(i as int)).push(indent4(other.deep_view())[i as int]));
        }
        i = i + 1;
    }
    proof {
        assert(indent4(other.deep_view()).take(other@.len() as int) =~= indent4(
            other.deep_view(),
        ));
    }
}

// ------------------------------------------------------------------
// Joining a sequence of strings with a separator
// ------------------------------------------------------------------
/// The elements of `items` joined by `sep`.
pub open spec fn join_with(items: Seq<Seq<char>>, sep: Seq<char>) -> Seq<char>
    decreases items.len(),
{
    if items.len() == 0 {
        Seq::<char>::empty()
    } else if items.len() == 1 {
        items[0]
    } else {
        items[0] + sep + join_with(items.drop_first(), sep)
    }
}

proof fn lemma_join_push(items: Seq<Seq<char>>, sep: Seq<char>, x: Seq<char>)
    ensures
        join_with(items.push(x), sep) == if items.len() == 0 {
            x
        } else {
            join_with(items, sep) + sep + x
        },
    decreases items.len(),
{
    if items.len() == 0 {
        assert(items.push(x).len() == 1);
        assert(join_with(items.push(x), sep) == items.push(x)[0]);
    } else if items.len() == 1 {
        assert(items.push(x).drop_first() =~= seq![x]);
        assert(join_with(seq![x], sep) == x);
        assert(items.push(x)[0] == items[0]);
        assert(join_with(items.push(x), sep) == items[0] + sep + x);
    } else {
        assert(items.push(x).drop_first() =~= items.drop_first().push(x));
        lemma_join_push(items.drop_first(), sep, x);
        assert(join_with(items.push(x), sep) == items[0] + sep + join_with(
            items.drop_first().push(x),
            sep,
        ));
        assert(items[0] + sep + (join_with(items.drop_first(), sep) + sep + x) =~= (items[0] + sep
            + join_with(items.drop_first(), sep)) + sep + x);
    }
}

/// Joins the strings of `items` with separator `sep`.
pub fn join_strings(items: &Vec<String>, sep: &str) -> (r: String)
    ensures
        r@ == join_with(items.deep_view(), sep@),
{
    let mut r = String::new();
    let mut i: usize = 0;
    proof {
        assert(items.deep_view().take(0) =~= Seq::<Seq<char>>::empty());
    }
    while i < items.len()
        invariant
            i <= items.len(),
            items.deep_view().len() == items.len(),
            r@ == join_with(items.deep_view().take(i as int), sep@),
        decreases items.len() - i,
    {
        if i > 0 {
            r.append(sep);
        }
        r.append(items[i].as_str());
        proof {
            assert(items.deep_view()[i as int] == items[i as int]@);
            assert(items.deep_view().take(i + 1 as int) =~= items.deep_view().take(i as int).push(
                items[i as int]@,
            ));
            lemma_join_push(items.deep_view().take(i as int), sep@, items[i as int]@);
        }
        i = i + 1;
    }
    proof {
        assert(items.deep_view().take(items@.len() as int) =~= items.deep_view());
    }
    r
}

// ------------------------------------------------------------------
// Lexicographic order on character sequences
// ------------------------------------------------------------------
/// Lexicographic order by code points, the order in which `String`s compare.
pub open spec fn lex_le(a: Seq<char>, b: Seq<char>) -> bool
    decreases a.len(),
{
    if a.len() == 0 {
        true
    } else if b.len() == 0 {
        false
    } else if a[0] == b[0] {
        lex_le(a.drop_first(), b.drop_first())
    } else {
        (a[0] as u32) < (b[0] as u32)
    }
}

/// The order as a binary relation value.
pub open spec fn lex_leq_fn() -> spec_fn(Seq<char>, Seq<char>) -> bool {
    |a: Seq<char>, b: Seq<char>| lex_le(a, b)
}

proof fn lemma_char_cast_distinct(c: char, d: char)
    requires
        c != d,
    ensures
        (c as u32) != (d as u32),
{
}

proof fn lemma_lex_refl(a: Seq<char>)
    ensures
        lex_le(a, a),
    decreases a.len(),
{
    if a.len() > 0 {
        lemma_lex_refl(a.drop_first());
    }
}

proof fn lemma_lex_total(a: Seq<char>, b: Seq<char>)
    ensures
        lex_le(a, b) || lex_le(b, a),
    decreases a.len(),
{
    if a.len() == 0 {
        assert(lex_le(a, b));
    } else if b.len() == 0 {
        assert(lex_le(b, a));
    } else if a[0] == b[0] {
        lemma_lex_total(a.drop_first(), b.drop_first());
    } else {
        lemma_char_cast_distinct(a[0], b[0]);
        if (a[0] as u32) < (b[0] as u32) {
            assert(lex_le(a, b));
        } else {
            assert(lex_le(b, a));
        }
    }
}

proof fn lemma_lex_antisym(a: Seq<char>, b: Seq<char>)
    requires
        lex_le(a, b),
        lex_le(b, a),
    ensures
        a == b,
    decreases a.len(),
{
    if a.len() == 0 {
        assert(b.len() == 0);
        assert(a =~= b);
    } else {
        assert(b.len() > 0);
        assert(a[0] == b[0]);
        lemma_lex_antisym(a.drop_first(), b.drop_first());
        assert forall|i: int| 0 <= i < a.len() implies a[i] == b[i] by {
            if i > 0 {
                assert(a.drop_first()[i - 1] == b.drop_first()[i - 1]);
            }
        }
        assert(a =~= b);
    }
}

proof fn lemma_lex_trans(a: Seq<char>, b: Seq<char>, c: Seq<char>)
    requires
        lex_le(a, b),
        lex_le(b, c),
    ensures
        lex_le(a, c),
    decreases a.len(),
{
    if a.len() > 0 {
        assert(b.len() > 0);
        if c.len() > 0 {
            if a[0] == b[0] && b[0] == c[0] {
                lemma_lex_trans(a.drop_first(), b.drop_first(), c.drop_first());
            }
        }
    }
}

/// The lexicographic order is a total ordering in the sense of vstd.
pub proof fn lemma_lex_total_ordering()
    ensures
        vstd::relations::total_ordering(lex_leq_fn()),
{
    let leq = lex_leq_fn();
    assert forall|a: Seq<char>| #[trigger] leq(a, a) by {
        lemma_lex_refl(a);
    }
    assert forall|a: Seq<char>, b: Seq<char>| #[trigger] leq(a, b) && #[trigger] leq(b, a)
        implies a == b by {
        lemma_lex_antisym(a, b);
    }
    assert forall|a: Seq<char>, b: Seq<char>, c: Seq<char>|
        #[trigger] leq(a, b) && #[trigger] leq(b, c) implies leq(a, c) by {
        lemma_lex_trans(a, b, c);
    }
    assert forall|a: Seq<char>, b: Seq<char>| #[trigger] leq(a, b) || #[trigger] leq(b, a) by {
        lemma_lex_total(a, b);
    }
}

/// Two sequences sorted by the lexicographic order with equal multisets are
/// the same sequence: a sorted order is unique.
pub proof fn lemma_sorted_multiset_unique(a: Seq<Seq<char>>, b: Seq<Seq<char>>)
    requires
        vstd::relations::sorted_by(a, lex_leq_fn()),
        vstd::relations::sorted_by(b, lex_leq_fn()),
        a.to_multiset() == b.to_multiset(),
    ensures
        a == b,
    decreases a.len(),
{
    broadcast use vstd::seq_lib::group_to_multiset_ensures;

    if a.len() == 0 {
        assert(b.to_multiset().len() == 0);
        assert(a =~= b);
    } else {
        assert(a.contains(a[0]));
        assert(a.to_multiset().contains(a[0]));
        assert(b.to_multiset().contains(a[0]));
        assert(b.contains(a[0]));
        let j = choose|j: int| 0 <= j < b.len() && b[j] == a[0];
        assert(b.len() > 0);
        assert(b.contains(b[0]));
        assert(b.to_multiset().contains(b[0]));
        assert(a.to_multiset().contains(b[0]));
        assert(a.contains(b[0]));
        let i = choose|i: int| 0 <= i < a.len() && a[i] == b[0];
        if j > 0 {
            assert(lex_leq_fn()(b[0], b[j]));
        } else {
            lemma_lex_refl(b[0]);
        }
        if i > 0 {
            assert(lex_leq_fn()(a[0], a[i]));
        } else {
            lemma_lex_refl(a[0]);
        }
        assert(lex_le(b[0], a[0]));
        assert(lex_le(a[0], b[0]));
        lemma_lex_antisym(a[0], b[0]);
        assert(a[0] == b[0]);
        assert(a.drop_first() =~= a.remove(0));
        assert(b.drop_first() =~= b.remove(0));
        assert(a.remove(0).to_multiset() == a.to_multiset().remove(a[0]));
        assert(b.remove(0).to_multiset() == b.to_multiset().remove(b[0]));
        assert forall|x: int, y: int|
            0 <= x < y < a.drop_first().len() implies #[trigger] lex_leq_fn()(
            a.drop_first()[x],
            a.drop_first()[y],
        ) by {
            assert(a.drop_first()[x] == a[x + 1]);
            assert(a.drop_first()[y] == a[y + 1]);
        }
        assert forall|x: int, y: int|
            0 <= x < y < b.drop_first().len() implies #[trigger] lex_leq_fn()(
            b.drop_first()[x],
            b.drop_first()[y],
        ) by {
            assert(b.drop_first()[x] == b[x + 1]);
            assert(b.drop_first()[y] == b[y + 1]);
        }
        lemma_sorted_multiset_unique(a.drop_first(), b.drop_first());
        assert forall|x: int| 0 <= x < a.len() implies a[x] == b[x] by {
            if x > 0 {
                assert(a.drop_first()[x - 1] == b.drop_first()[x - 1]);
            }
        }
        assert(a =~= b);
    }
}

// ------------------------------------------------------------------
// Decimal rendering of unsigned integers
// ------------------------------------------------------------------
/// The decimal digit character for `d` in 0 ..= 9.
pub open spec fn digit_char(d: int) -> char {
    if d == 0 {
        '0'
    } else if d == 1 {
        '1'
    } else if d == 2 {
        '2'
    } else if d == 3 {
        '3'
    } else if d == 4 {
        '4'
    } else if d == 5 {
        '5'
    } else if d == 6 {
        '6'
    } else if d == 7 {
        '7'
    } else if d == 8 {
        '8'
    } else {
        '9'
    }
}

/// The decimal digit sequence of a natural number, most significant first.
pub open spec fn dec_digits(n: int) -> Seq<char>
    decreases n,
{
    if n < 10 {
        seq![digit_char(n)]
    } else {
        dec_digits(n / 10).push(digit_char(n % 10))
    }
}

fn digit_char_exec(d: u64) -> (r: char)
    requires
        d < 10,
    ensures
        r == digit_char(d as int),
{
    if d == 0 {
        '0'
    } else if d == 1 {
        '1'
    } else if d == 2 {
        '2'
    } else if d == 3 {
        '3'
    } else if d == 4 {
        '4'
    } else if d == 5 {
        '5'
    } else if d == 6 {
        '6'
    } else if d == 7 {
        '7'
    } else if d == 8 {
        '8'
    } else {
        '9'
    }
}

/// Renders `n` in decimal.
pub fn u64_to_string(n: u64) -> (r: String)
    ensures
        r@ == dec_digits(n as int),
    decreases n,
{
    if n < 10 {
        let mut r = String::new();
        push_char(&mut r, digit_char_exec(n));
        proof {
            assert(r@ =~= seq![digit_char(n as int)]);
        }
        r
    } else {
        let mut r = u64_to_string(n / 10);
        push_char(&mut r, digit_char_exec(n % 10));
        r
    }
}

} // verus!
