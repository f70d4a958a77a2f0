use vstd::prelude::*;

verus! {

/// The views of a sequence of strings.
pub open spec fn views(v: Seq<String>) -> Seq<Seq<char>> {
    v.map_values(|s: String| s@)
}

/// Whether `sep` occurs in `s` starting at index `k`.
pub open spec fn occurs_at(s: Seq<char>, k: int, sep: Seq<char>) -> bool {
    &&& 0 <= k
    &&& k + sep.len() <= s.len()
    &&& s.subrange(k, k + sep.len()) == sep
}

/// The pieces of `s` between non-overlapping occurrences of `sep`, searched
/// from the left, where the current piece began at `start` and the search
/// stands at `k`.
pub open spec fn split_from(s: Seq<char>, sep: Seq<char>, start: int, k: int) -> Seq<Seq<char>>
    decreases s.len() - k,
{
    if sep.len() == 0 || k < 0 || k + sep.len() > s.len() {
        seq![s.subrange(start, s.len() as int)]
    } else if occurs_at(s, k, sep) {
        seq![s.subrange(start, k)] + split_from(s, sep, k + sep.len(), k + sep.len())
    } else {
        split_from(s, sep, start, k + 1)
    }
}

/// `s` cut at every occurrence of `sep` (which is not empty), as `str::split` does.
pub open spec fn split_on(s: Seq<char>, sep: Seq<char>) -> Seq<Seq<char>> {
    split_from(s, sep, 0, 0)
}

/// The pieces of `parts` with `sep` between each two of them.
pub open spec fn join_with(parts: Seq<Seq<char>>, sep: Seq<char>) -> Seq<char>
    decreases parts.len(),
{
    if parts.len() == 0 {
        Seq::empty()
    } else if parts.len() == 1 {
        parts[0]
    } else {
        join_with(parts.drop_last(), sep) + sep + parts.last()
    }
}

/// Whether `c` is one of the ASCII digits.
pub open spec fn is_digit(c: char) -> bool {
    '0' <= c <= '9'
}

pub open spec fn all_digits(s: Seq<char>) -> bool {
    forall|i: int| 0 <= i < s.len() ==> is_digit(#[trigger] s[i])
}

pub open spec fn digit_value(c: char) -> nat {
    (c as u32 - '0' as u32) as nat
}

/// The number that the decimal digits `s` spell.
pub open spec fn decimal_value(s: Seq<char>) -> nat
    decreases s.len(),
{
    if s.len() == 0 {
        0
    } else {
        decimal_value(s.drop_last()) * 10 + digit_value(s.last())
    }
}

pub open spec fn digit_char(d: nat) -> char {
    ((d + 48) as u8) as char
}

/// The decimal digits of `n`, without leading zeros.
pub open spec fn decimal(n: nat) -> Seq<char>
    decreases n,
{
    if n < 10 {
        seq![digit_char(n)]
    } else {
        decimal(n / 10).push(digit_char(n % 10))
    }
}

/// Relies on `String::push`: it appends one character at the end.
#[verifier::external_body]
fn push_char(s: &mut String, c: char)
    ensures
        final(s)@ == old(s)@.push(c),
{
    s.push(c)
}

/// The characters of `s`, one per element.
pub fn chars_of(s: &str) -> (r: Vec<char>)
    ensures
        r@ == s@,
{
    let mut r: Vec<char> = Vec::new();
    for c in it: s.chars()
        invariant
            r@ == it.seq().subrange(0, it.index() as int),
    {
        r.push(c);
    }
    r
}

/// The characters `v[from..to]` as a string.
pub fn string_of(v: &Vec<char>, from: usize, to: usize) -> (r: String)
    requires
        from <= to <= v.len(),
    ensures
        r@ == v@.subrange(from as int, to as int),
{
    let mut r = String::new();
    let mut i: usize = from;
    while i < to
        invariant
            from <= i <= to <= v.len(),
            r@ == v@.subrange(from as int, i as int),
        decreases to - i,
    {
        push_char(&mut r, v[i]);
        assert(v@.subrange(from as int, i + 1) == v@.subrange(from as int, i as int).push(v@[i as int]));
        i = i + 1;
    }
    r
}

/// Whether `sep` occurs in `v` at index `k`.
pub fn occurs_at_exec(v: &Vec<char>, k: usize, sep: &Vec<char>) -> (r: bool)
    ensures
        r == occurs_at(v@, k as int, sep@),
{
    if sep.len() > v.len() || k > v.len() - sep.len() {
        return false;
    }
    let mut j: usize = 0;
    while j < sep.len()
        invariant
            j <= sep.len(),
            k + sep.len() <= v.len(),
            forall|i: int| 0 <= i < j ==> v@[k + i] == sep@[i],
        decreases sep.len() - j,
    {
        if v[k + j] != sep[j] {
            assert(v@.subrange(k as int, k + sep.len())[j as int] != sep@[j as int]);
            return false;
        }
        j = j + 1;
    }
    assert(v@.subrange(k as int, k + sep.len()) =~= sep@);
    true
}

/// `v` cut at every occurrence of `sep`.
pub fn split_chars(v: &Vec<char>, sep: &Vec<char>) -> (r: Vec<String>)
    requires
        sep.len() > 0,
    ensures
        views(r@) == split_on(v@, sep@),
{
    let mut r: Vec<String> = Vec::new();
    let mut start: usize = 0;
    let mut k: usize = 0;
    while k < v.len() && sep.len() <= v.len() - k
        invariant
            start <= k <= v.len(),
            sep.len() > 0,
            views(r@) + split_from(v@, sep@, start as int, k as int) == split_on(v@, sep@),
        decreases v.len() - k,
    {
        if occurs_at_exec(v, k, sep) {
            let piece = string_of(v, start, k);
            proof {
                assert(views(r@.push(piece)) == views(r@).push(piece@));
                assert(views(r@) + split_from(v@, sep@, start as int, k as int) == views(r@.push(piece))
                    + split_from(v@, sep@, (k + sep.len()) as int, (k + sep.len()) as int));
            }
            r.push(piece);
            k = k + sep.len();
            start = k;
        } else {
            k = k + 1;
        }
    }
    let piece = string_of(v, start, v.len());
    proof {
        assert(views(r@.push(piece)) == views(r@).push(piece@));
    }
    r.push(piece);
    r
}

/// The strings of `parts` with `sep` between each two of them.
pub fn join_strings(parts: &Vec<String>, sep: &str) -> (r: String)
    ensures
        r@ == join_with(views(parts@), sep@),
{
    let mut r = String::new();
    let mut i: usize = 0;
    while i < parts.len()
        invariant
            i <= parts.len(),
            r@ == join_with(views(parts@).subrange(0, i as int), sep@),
        decreases parts.len() - i,
    {
        let ghost before = views(parts@).subrange(0, i as int);
        let ghost after = views(parts@).subrange(0, i + 1);
        assert(after.drop_last() == before);
        if i > 0 {
            r.append(sep);
        }
        r.append(parts[i].as_str());
        i = i + 1;
    }
    assert(views(parts@).subrange(0, parts.len() as int) == views(parts@));
    r
}

/// The decimal digits of `n`.
pub fn decimal_string(n: u32) -> (r: String)
    ensures
        r@ == decimal(n as nat),
    decreases n,
{
    let d = (n % 10) as u8;
    let c = (d + 48) as char;
    if n < 10 {
        let mut r = String::new();
        push_char(&mut r, c);
        r
    } else {
        let mut r = decimal_string(n / 10);
        push_char(&mut r, c);
        r
    }
}

proof fn lemma_decimal_value_prefix(s: Seq<char>, i: int)
    requires
        0 <= i <= s.len(),
    ensures
        decimal_value(s.subrange(0, i)) <= decimal_value(s),
    decreases s.len(),
{
    if i < s.len() {
        lemma_decimal_value_prefix(s.drop_last(), i);
        assert(s.drop_last().subrange(0, i) == s.subrange(0, i));
    } else {
        assert(s.subrange(0, i) == s);
    }
}

/// The number that the digits `v[from..to]` spell, where it fits in a `u32`.
pub fn parse_decimal(v: &Vec<char>, from: usize, to: usize) -> (r: Option<u32>)
    requires
        from <= to <= v.len(),
        all_digits(v@.subrange(from as int, to as int)),
    ensures
        r == (if decimal_value(v@.subrange(from as int, to as int)) <= u32::MAX {
            Some(decimal_value(v@.subrange(from as int, to as int)) as u32)
        } else {
            None::<u32>
        }),
{
    let ghost s = v@.subrange(from as int, to as int);
    let mut acc: u64 = 0;
    let mut i: usize = from;
    while i < to
        invariant
            from <= i <= to <= v.len(),
            s == v@.subrange(from as int, to as int),
            all_digits(s),
            acc == decimal_value(s.subrange(0, i - from)),
            acc <= u32::MAX,
        decreases to - i,
    {
        let ghost pre = s.subrange(0, i - from);
        let ghost next = s.subrange(0, i + 1 - from);
        assert(next.drop_last() == pre);
        assert(next.last() == v@[i as int]);
        assert(is_digit(s[i - from]));
        let d = (v[i] as u32 - '0' as u32) as u64;
        acc = acc * 10 + d;
        if acc > u32::MAX as u64 {
            proof {
                lemma_decimal_value_prefix(s, i + 1 - from);
            }
            return None;
        }
        i = i + 1;
    }
    assert(s.subrange(0, to - from) == s);
    Some(acc as u32)
}

pub proof fn lemma_split_from_nonempty(s: Seq<char>, sep: Seq<char>, start: int, k: int)
    ensures
        split_from(s, sep, start, k).len() >= 1,
    decreases s.len() - k,
{
    if sep.len() == 0 || k < 0 || k + sep.len() > s.len() {
    } else if occurs_at(s, k, sep) {
        lemma_split_from_nonempty(s, sep, k + sep.len(), k + sep.len());
    } else {
        lemma_split_from_nonempty(s, sep, start, k + 1);
    }
}

/// `l` without one carriage return at its end.
pub open spec fn strip_cr(l: Seq<char>) -> Seq<char> {
    if l.len() > 0 && l.last() == '\r' {
        l.drop_last()
    } else {
        l
    }
}

/// The lines of `s`, as `str::lines` gives them: cut at each `\n`, a `\r`
/// right before it dropped, and no empty line after a final `\n`.
pub open spec fn lines_of(s: Seq<char>) -> Seq<Seq<char>> {
    let p = split_on(s, seq!['\n']);
    let ended = p.drop_last().map_values(|l: Seq<char>| strip_cr(l));
    if p.last().len() == 0 {
        ended
    } else {
        ended.push(p.last())
    }
}

/// `s` without one carriage return at its end.
fn strip_cr_exec(s: &String) -> (r: String)
    ensures
        r@ == strip_cr(s@),
{
    let v = chars_of(s.as_str());
    if v.len() > 0 && v[v.len() - 1] == '\r' {
        string_of(&v, 0, v.len() - 1)
    } else {
        string_of(&v, 0, v.len())
    }
}

/// The lines of `s`.
pub fn split_lines(s: &str) -> (r: Vec<String>)
    ensures
        views(r@) == lines_of(s@),
{
    let v = chars_of(s);
    let mut nl: Vec<char> = Vec::new();
    nl.push('\n');
    let pieces = split_chars(&v, &nl);
    proof {
        assert(nl@ == seq!['\n']);
        lemma_split_from_nonempty(v@, nl@, 0, 0);
    }
    let ghost p = views(pieces@);
    let last = pieces.len() - 1;
    let mut r: Vec<String> = Vec::new();
    let mut i: usize = 0;
    while i < last
        invariant
            last == pieces.len() - 1,
            i <= last,
            p == views(pieces@),
            views(r@) == p.drop_last().map_values(|l: Seq<char>| strip_cr(l)).subrange(0, i as int),
        decreases last - i,
    {
        let l = strip_cr_exec(&pieces[i]);
        proof {
            assert(views(r@.push(l)) =~= views(r@).push(l@));
        }
        r.push(l);
        assert(views(r@) =~= p.drop_last().map_values(|l: Seq<char>| strip_cr(l)).subrange(0, i + 1));
        i = i + 1;
    }
    assert(p.drop_last().map_values(|l: Seq<char>| strip_cr(l)).subrange(0, last as int) =~= p.drop_last().map_values(
        |l: Seq<char>| strip_cr(l),
    ));
    if !pieces[last].as_str().is_empty() {
        let l = pieces[last].clone();
        proof {
            assert(views(r@.push(l)) =~= views(r@).push(l@));
            assert(p.last() == l@);
            assert(l@.len() > 0);
        }
        r.push(l);
    } else {
        assert(p.last().len() == 0);
    }
    r
}

/// Whether `a` and `b` hold the same characters.
pub fn equal_text(a: &str, b: &str) -> (r: bool)
    ensures
        r == (a@ == b@),
{
    let x = chars_of(a);
    let y = chars_of(b);
    if x.len() != y.len() {
        return false;
    }
    let mut i: usize = 0;
    while i < x.len()
        invariant
            i <= x.len() == y.len(),
            x@ == a@,
            y@ == b@,
            forall|j: int| 0 <= j < i ==> x@[j] == y@[j],
        decreases x.len() - i,
    {
        if x[i] != y[i] {
            assert(x@[i as int] != y@[i as int]);
            return false;
        }
        i = i + 1;
    }
    assert(x@ =~= y@);
    true
}

/// The number that `s` spells in decimal digits, if it is one and fits in a `u32`.
pub open spec fn u32_of(s: Seq<char>) -> Option<u32> {
    if 0 < s.len() && all_digits(s) && decimal_value(s) <= u32::MAX {
        Some(decimal_value(s) as u32)
    } else {
        None
    }
}

/// Reads a decimal `u32`: ASCII digits only, at least one.
pub fn parse_u32(s: &str) -> (r: Option<u32>)
    ensures
        r == u32_of(s@),
{
    let v = chars_of(s);
    if v.len() == 0 {
        return None;
    }
    let mut i: usize = 0;
    while i < v.len()
        invariant
            i <= v.len(),
            v@ == s@,
            forall|j: int| 0 <= j < i ==> is_digit(#[trigger] v@[j]),
        decreases v.len() - i,
    {
        if !('0' <= v[i] && v[i] <= '9') {
            assert(!is_digit(v@[i as int]));
            return None;
        }
        i = i + 1;
    }
    assert(v@.subrange(0, v.len() as int) == v@);
    parse_decimal(&v, 0, v.len())
}

/// A join of two or more parts is the first part, `sep`, and the join of the rest.
pub proof fn lemma_join_first(parts: Seq<Seq<char>>, sep: Seq<char>)
    requires
        parts.len() >= 2,
    ensures
        join_with(parts, sep) == parts[0] + sep + join_with(parts.drop_first(), sep),
    decreases parts.len(),
{
    if parts.len() == 2 {
        assert(parts.drop_last().len() == 1);
        assert(parts.drop_first().len() == 1);
        assert(join_with(parts.drop_first(), sep) == parts.drop_first()[0]);
        assert(join_with(parts.drop_last(), sep) == parts[0]);
    } else {
        lemma_join_first(parts.drop_last(), sep);
        assert(parts.drop_last().drop_first() == parts.drop_first().drop_last());
        assert(parts.drop_first().last() == parts.last());
        assert(join_with(parts.drop_first(), sep) == join_with(parts.drop_first().drop_last(), sep) + sep
            + parts.drop_first().last());
        assert(parts.drop_last()[0] == parts[0]);
        assert(join_with(parts, sep) =~= parts[0] + sep + join_with(parts.drop_first(), sep));
    }
}

/// With no occurrence of `sep` at any index in `[k, m)`, the split goes on
/// from `m` as it would from `k`.
pub proof fn lemma_split_skip(s: Seq<char>, sep: Seq<char>, start: int, k: int, m: int)
    requires
        sep.len() > 0,
        0 <= k <= m,
        m + sep.len() <= s.len() + 1,
        forall|j: int| k <= j < m ==> !#[trigger] occurs_at(s, j, sep),
    ensures
        split_from(s, sep, start, k) == split_from(s, sep, start, m),
    decreases m - k,
{
    if k < m {
        lemma_split_skip(s, sep, start, k + 1, m);
    }
}

/// A text without `sep` is not cut.
pub proof fn lemma_split_absent(s: Seq<char>, sep: Seq<char>)
    requires
        sep.len() > 0,
        forall|j: int| !occurs_at(s, j, sep),
    ensures
        split_on(s, sep) == seq![s],
{
    if s.len() + 1 >= sep.len() {
        lemma_split_skip(s, sep, 0, 0, s.len() - sep.len() + 1);
    }
    assert(s.subrange(0, s.len() as int) == s);
}

} // verus!
