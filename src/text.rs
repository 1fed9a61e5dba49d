use vstd::prelude::*;

verus! {

/// `pat` stands in `s` starting at position `i`.
pub open spec fn occurs_at(s: Seq<char>, pat: Seq<char>, i: int) -> bool {
    0 <= i && i + pat.len() <= s.len() && s.subrange(i, i + pat.len()) == pat
}

/// `pat` stands somewhere in `s`.
pub open spec fn contains_seq(s: Seq<char>, pat: Seq<char>) -> bool {
    exists|i: int| occurs_at(s, pat, i)
}

/// `i` is the first position at which `pat` stands in `s`.
pub open spec fn is_first_occurrence(s: Seq<char>, pat: Seq<char>, i: int) -> bool {
    occurs_at(s, pat, i) && forall|j: int| 0 <= j < i ==> !occurs_at(s, pat, j)
}

/// The first position at which `pat` stands in `s`, if any.
pub open spec fn first_occurrence(s: Seq<char>, pat: Seq<char>) -> Option<int> {
    if contains_seq(s, pat) {
        Some(choose|i: int| is_first_occurrence(s, pat, i))
    } else {
        None
    }
}

/// There is at most one first occurrence, and where `pat` stands anywhere there is one.
pub proof fn lemma_first_occurrence(s: Seq<char>, pat: Seq<char>, i: int)
    requires
        is_first_occurrence(s, pat, i),
    ensures
        first_occurrence(s, pat) == Some(i),
{
    assert(contains_seq(s, pat));
    let k = choose|k: int| is_first_occurrence(s, pat, k);
    assert(is_first_occurrence(s, pat, k));
    if k < i {
        assert(!occurs_at(s, pat, k));
    }
    if i < k {
        assert(!occurs_at(s, pat, i));
    }
}

/// Whether `pat` stands in `s` at `i`, compared character by character.
fn matches_at(s: &str, n: usize, pat: &str, m: usize, i: usize) -> (r: bool)
    requires
        n == s@.len(),
        m == pat@.len(),
        i + m <= n,
    ensures
        r == occurs_at(s@, pat@, i as int),
{
    let mut k: usize = 0;
    while k < m
        invariant
            n == s@.len(),
            m == pat@.len(),
            i + m <= n,
            k <= m,
            forall|j: int| 0 <= j < k ==> s@[i + j] == pat@[j],
        decreases m - k,
    {
        if s.get_char(i + k) != pat.get_char(k) {
            assert(s@.subrange(i as int, i + m)[k as int] != pat@[k as int]);
            return false;
        }
        k = k + 1;
    }
    assert(s@.subrange(i as int, i + m) =~= pat@);
    true
}

/// Position of the first occurrence of `pat` in `s`, counted in characters.
pub fn find_str(s: &str, pat: &str) -> (r: Option<usize>)
    ensures
        match r {
            Some(i) => is_first_occurrence(s@, pat@, i as int) && first_occurrence(s@, pat@) == Some(i as int),
            None => !contains_seq(s@, pat@) && first_occurrence(s@, pat@) is None,
        },
{
    let n = s.unicode_len();
    let m = pat.unicode_len();
    if m > n {
        return None;
    }
    let last = n - m;
    let mut i: usize = 0;
    loop
        invariant
            n == s@.len(),
            m == pat@.len(),
            last == n - m,
            i <= last,
            forall|j: int| 0 <= j < i ==> !occurs_at(s@, pat@, j),
        decreases last - i,
    {
        if matches_at(s, n, pat, m, i) {
            proof {
                lemma_first_occurrence(s@, pat@, i as int);
            }
            return Some(i);
        }
        if i == last {
            return None;
        }
        i = i + 1;
    }
}

/// Whether `pat` stands somewhere in `s`.
pub fn contains_str(s: &str, pat: &str) -> (r: bool)
    ensures
        r == contains_seq(s@, pat@),
{
    match find_str(s, pat) {
        Some(_) => true,
        None => false,
    }
}

/// Whether two strings hold the same characters.
pub fn same_text(a: &str, b: &str) -> (r: bool)
    ensures
        r == (a@ == b@),
{
    let n = a.unicode_len();
    if n != b.unicode_len() {
        return false;
    }
    let r = matches_at(a, n, b, n, 0);
    proof {
        if r {
            assert(a@.subrange(0, n as int) =~= a@);
        } else {
            assert(a@.subrange(0, n as int) =~= a@);
        }
    }
    r
}

/// A character with the Unicode `White_Space` property.
pub open spec fn is_white_space(c: char) -> bool {
    let u = c as u32;
    (0x09 <= u <= 0x0d) || u == 0x20 || u == 0x85 || u == 0xa0 || u == 0x1680 || (0x2000 <= u
        <= 0x200a) || u == 0x2028 || u == 0x2029 || u == 0x202f || u == 0x205f || u == 0x3000
}

fn white_space(c: char) -> (r: bool)
    ensures
        r == is_white_space(c),
{
    let u = c as u32;
    (0x09 <= u && u <= 0x0d) || u == 0x20 || u == 0x85 || u == 0xa0 || u == 0x1680 || (0x2000 <= u
        && u <= 0x200a) || u == 0x2028 || u == 0x2029 || u == 0x202f || u == 0x205f || u == 0x3000
}

/// `s` without its leading white space.
pub open spec fn trim_start_seq(s: Seq<char>) -> Seq<char>
    decreases s.len(),
{
    if s.len() > 0 && is_white_space(s[0]) {
        trim_start_seq(s.drop_first())
    } else {
        s
    }
}

/// `s` without its trailing white space.
pub open spec fn trim_end_seq(s: Seq<char>) -> Seq<char>
    decreases s.len(),
{
    if s.len() > 0 && is_white_space(s.last()) {
        trim_end_seq(s.drop_last())
    } else {
        s
    }
}

/// `s` without leading and trailing white space.
pub open spec fn trim_seq(s: Seq<char>) -> Seq<char> {
    trim_end_seq(trim_start_seq(s))
}

/// `s` without leading and trailing white space.
pub fn trim_str(s: &str) -> (r: String)
    ensures
        r@ == trim_seq(s@),
{
    let n = s.unicode_len();
    let mut lo: usize = 0;
    assert(s@.subrange(0, n as int) =~= s@);
    loop
        invariant
            n == s@.len(),
            lo <= n,
            trim_start_seq(s@) == trim_start_seq(s@.subrange(lo as int, n as int)),
        ensures
            lo <= n,
            trim_start_seq(s@) == trim_start_seq(s@.subrange(lo as int, n as int)),
            lo == n || !is_white_space(s@[lo as int]),
        decreases n - lo,
    {
        if lo == n || !white_space(s.get_char(lo)) {
            break;
        }
        assert(s@.subrange(lo as int, n as int).drop_first() =~= s@.subrange(lo + 1, n as int));
        lo = lo + 1;
    }
    proof {
        let t = s@.subrange(lo as int, n as int);
        if lo < n {
            assert(t[0] == s@[lo as int]);
        }
        assert(trim_start_seq(t) == t);
    }
    let mut hi: usize = n;
    loop
        invariant
            n == s@.len(),
            lo <= hi <= n,
            trim_seq(s@) == trim_end_seq(s@.subrange(lo as int, hi as int)),
        ensures
            lo <= hi <= n,
            trim_seq(s@) == trim_end_seq(s@.subrange(lo as int, hi as int)),
            hi == lo || !is_white_space(s@[hi - 1]),
        decreases hi - lo,
    {
        if hi == lo || !white_space(s.get_char(hi - 1)) {
            break;
        }
        assert(s@.subrange(lo as int, hi as int).drop_last() =~= s@.subrange(lo as int, hi - 1));
        hi = hi - 1;
    }
    proof {
        let t = s@.subrange(lo as int, hi as int);
        if lo < hi {
            assert(t.last() == s@[hi - 1]);
        }
        assert(trim_end_seq(t) == t);
    }
    String::from_str(s.substring_char(lo, hi))
}

/// The trimmed text between the first `key` and the first `stop` after it.
pub open spec fn text_between_seq(s: Seq<char>, key: Seq<char>, stop: Seq<char>) -> Option<Seq<char>> {
    match first_occurrence(s, key) {
        Some(p) => {
            let after = s.subrange(p + key.len(), s.len() as int);
            match first_occurrence(after, stop) {
                Some(q) => Some(trim_seq(after.subrange(0, q))),
                None => None,
            }
        },
        None => None,
    }
}

/// The trimmed text between the first `key` and the first `stop` after it.
pub fn text_between(s: &str, key: &str, stop: &str) -> (r: Option<String>)
    ensures
        r is Some <==> text_between_seq(s@, key@, stop@) is Some,
        r is Some ==> r->Some_0@ == text_between_seq(s@, key@, stop@)->Some_0,
{
    let n = s.unicode_len();
    let k = key.unicode_len();
    match find_str(s, key) {
        None => None,
        Some(p) => {
            let after = s.substring_char(p + k, n);
            match find_str(after, stop) {
                None => None,
                Some(q) => Some(trim_str(after.substring_char(0, q))),
            }
        },
    }
}

/// The pieces of `s` between the occurrences of `sep`; at least one piece.
pub open spec fn split_seq(s: Seq<char>, sep: char) -> Seq<Seq<char>>
    decreases s.len(),
{
    match first_occurrence(s, seq![sep]) {
        Some(i) => if 0 <= i < s.len() {
            seq![s.subrange(0, i)] + split_seq(s.subrange(i + 1, s.len() as int), sep)
        } else {
            seq![s]
        },
        None => seq![s],
    }
}

pub proof fn lemma_split_nonempty(s: Seq<char>, sep: char)
    ensures
        split_seq(s, sep).len() >= 1,
    decreases s.len(),
{
    match first_occurrence(s, seq![sep]) {
        Some(i) => if 0 <= i < s.len() {
            lemma_split_nonempty(s.subrange(i + 1, s.len() as int), sep);
        },
        None => {},
    }
}

/// The escape form of one character: `:` and `\` get a `\` before them.
pub open spec fn escape_char(c: char) -> Seq<char> {
    if c == ':' || c == '\\' {
        seq!['\\', c]
    } else {
        seq![c]
    }
}

/// `s` with each `:` and `\` preceded by a `\`, so that `:` can separate fields.
pub open spec fn escape_seq(s: Seq<char>) -> Seq<char>
    decreases s.len(),
{
    if s.len() == 0 {
        Seq::empty()
    } else {
        escape_seq(s.drop_last()) + escape_char(s.last())
    }
}

/// `s` with each `:` and `\` preceded by a `\`.
pub fn escape_colons(s: &str) -> (r: String)
    ensures
        r@ == escape_seq(s@),
{
    proof {
        reveal_strlit("\\:");
        reveal_strlit("\\\\");
    }
    let n = s.unicode_len();
    let mut out = String::new();
    let mut start: usize = 0;
    let mut i: usize = 0;
    while i < n
        invariant
            n == s@.len(),
            start <= i <= n,
            "\\:"@ == seq!['\\', ':'],
            "\\\\"@ == seq!['\\', '\\'],
            out@ + s@.subrange(start as int, i as int) == escape_seq(s@.subrange(0, i as int)),
            forall|j: int| start <= j < i ==> s@[j] != ':' && s@[j] != '\\',
        decreases n - i,
    {
        let c = s.get_char(i);
        let ghost prev = s@.subrange(0, i as int);
        assert(s@.subrange(0, i + 1).drop_last() =~= prev);
        if c == ':' || c == '\\' {
            out.append(s.substring_char(start, i));
            if c == ':' {
                out.append("\\:");
            } else {
                out.append("\\\\");
            }
            start = i + 1;
            i = i + 1;
            assert(s@.subrange(start as int, i as int) =~= Seq::<char>::empty());
            assert(out@ + s@.subrange(start as int, i as int) =~= escape_seq(s@.subrange(0, i as int)));
        } else {
            assert(s@.subrange(start as int, i + 1) =~= s@.subrange(start as int, i as int).push(c));
            i = i + 1;
            assert(out@ + s@.subrange(start as int, i as int) =~= escape_seq(s@.subrange(0, i as int)));
        }
    }
    out.append(s.substring_char(start, n));
    assert(s@.subrange(0, n as int) =~= s@);
    out
}

pub proof fn lemma_escape_front(s: Seq<char>)
    requires
        s.len() > 0,
    ensures
        escape_seq(s) == escape_char(s[0]) + escape_seq(s.drop_first()),
    decreases s.len(),
{
    if s.len() == 1 {
        assert(s.drop_last() =~= Seq::<char>::empty());
        assert(s.drop_first() =~= Seq::<char>::empty());
        assert(escape_seq(s.drop_first()) =~= Seq::<char>::empty());
        assert(escape_seq(s) =~= escape_char(s[0]));
    } else {
        let init = s.drop_last();
        lemma_escape_front(init);
        assert(init.drop_first() =~= s.drop_first().drop_last());
        assert(s.drop_first().last() == s.last());
        assert(init[0] == s[0]);
        assert(escape_seq(s) =~= escape_char(s[0]) + escape_seq(s.drop_first()));
    }
}

/// A field written in escape form and ended by `:` can be read back: the
/// separator is the first unescaped `:`.
pub proof fn lemma_escape_separated(a: Seq<char>, b: Seq<char>, x: Seq<char>, y: Seq<char>)
    requires
        escape_seq(a) + seq![':'] + x == escape_seq(b) + seq![':'] + y,
    ensures
        a == b,
        x == y,
    decreases a.len() + b.len(),
{
    let l = escape_seq(a) + seq![':'] + x;
    let r = escape_seq(b) + seq![':'] + y;
    if a.len() == 0 && b.len() == 0 {
        assert(escape_seq(a) =~= Seq::<char>::empty());
        assert(escape_seq(b) =~= Seq::<char>::empty());
        assert(x =~= l.subrange(1, l.len() as int));
        assert(y =~= r.subrange(1, r.len() as int));
        assert(a =~= b);
    } else if a.len() == 0 {
        lemma_escape_front(b);
        assert(escape_seq(a) =~= Seq::<char>::empty());
        assert(l[0] == ':');
        assert(r[0] == escape_char(b[0])[0]);
    } else if b.len() == 0 {
        lemma_escape_front(a);
        assert(escape_seq(b) =~= Seq::<char>::empty());
        assert(r[0] == ':');
        assert(l[0] == escape_char(a[0])[0]);
    } else {
        lemma_escape_front(a);
        lemma_escape_front(b);
        let ea = escape_char(a[0]);
        let eb = escape_char(b[0]);
        assert(l[0] == ea[0]);
        assert(r[0] == eb[0]);
        if ea.len() == 2 {
            assert(l[1] == ea[1]);
            assert(r[1] == eb[1]);
        }
        assert(a[0] == b[0]);
        let k = ea.len() as int;
        let a2 = a.drop_first();
        let b2 = b.drop_first();
        assert(l.subrange(k, l.len() as int) =~= escape_seq(a2) + seq![':'] + x);
        assert(r.subrange(k, r.len() as int) =~= escape_seq(b2) + seq![':'] + y);
        lemma_escape_separated(a2, b2, x, y);
        assert(a =~= seq![a[0]] + a2);
        assert(b =~= seq![b[0]] + b2);
    }
}

/// A copy of a list of strings.
pub fn copy_strings(v: &Vec<String>) -> (r: Vec<String>)
    ensures
        r@ == v@,
{
    let mut out: Vec<String> = Vec::new();
    let mut i: usize = 0;
    while i < v.len()
        invariant
            i <= v@.len(),
            out@ =~= v@.take(i as int),
        decreases v.len() - i,
    {
        out.push(v[i].clone());
        i = i + 1;
    }
    assert(v@.take(i as int) =~= v@);
    out
}

/// `s` holds a `:`.
pub open spec fn has_colon(s: Seq<char>) -> bool {
    contains_seq(s, seq![':'])
}

/// The number of `:` in `s`.
pub open spec fn colon_count(s: Seq<char>) -> nat
    decreases s.len(),
{
    if s.len() == 0 {
        0
    } else {
        colon_count(s.drop_last()) + if s.last() == ':' {
            1nat
        } else {
            0nat
        }
    }
}

pub proof fn lemma_colon_count_concat(a: Seq<char>, b: Seq<char>)
    ensures
        colon_count(a + b) == colon_count(a) + colon_count(b),
    decreases b.len(),
{
    if b.len() == 0 {
        assert(a + b =~= a);
    } else {
        lemma_colon_count_concat(a, b.drop_last());
        assert((a + b).drop_last() =~= a + b.drop_last());
        assert((a + b).last() == b.last());
    }
}

pub proof fn lemma_colon_count_escape(s: Seq<char>)
    ensures
        colon_count(escape_seq(s)) == colon_count(s),
    decreases s.len(),
{
    if s.len() > 0 {
        lemma_colon_count_escape(s.drop_last());
        lemma_colon_count_concat(escape_seq(s.drop_last()), escape_char(s.last()));
        let e = escape_char(s.last());
        reveal_with_fuel(colon_count, 3);
        if e.len() == 2 {
            assert(e.drop_last() =~= seq!['\\']);
            assert(seq!['\\'].drop_last() =~= Seq::<char>::empty());
        } else {
            assert(e.drop_last() =~= Seq::<char>::empty());
        }
    }
}

/// Where some character is `:`, the count is positive, and the other way round.
pub proof fn lemma_colon_count_positive(s: Seq<char>)
    ensures
        colon_count(s) > 0 <==> exists|i: int| 0 <= i < s.len() && s[i] == ':',
    decreases s.len(),
{
    if s.len() > 0 {
        let p = s.drop_last();
        lemma_colon_count_positive(p);
        if exists|i: int| 0 <= i < p.len() && p[i] == ':' {
            let i = choose|i: int| 0 <= i < p.len() && p[i] == ':';
            assert(s[i] == ':');
        }
        if exists|i: int| 0 <= i < s.len() && s[i] == ':' {
            let i = choose|i: int| 0 <= i < s.len() && s[i] == ':';
            if i < p.len() {
                assert(p[i] == ':');
            }
        }
    }
}

/// `s` holds a `:` exactly where some character of it is `:`, and then it
/// counts at least one.
pub proof fn lemma_has_colon(s: Seq<char>)
    ensures
        has_colon(s) <==> exists|i: int| 0 <= i < s.len() && s[i] == ':',
        has_colon(s) <==> colon_count(s) > 0,
{
    lemma_colon_count_positive(s);
    if has_colon(s) {
        let i = choose|i: int| occurs_at(s, seq![':'], i);
        assert(s.subrange(i, i + 1)[0] == s[i]);
        assert(s[i] == ':');
    }
    if exists|i: int| 0 <= i < s.len() && s[i] == ':' {
        let i = choose|i: int| 0 <= i < s.len() && s[i] == ':';
        assert(s.subrange(i, i + 1) =~= seq![':']);
        assert(occurs_at(s, seq![':'], i));
    }
}

/// Fields without `:` joined by `:` can be read back.
pub proof fn lemma_plain_separated(a: Seq<char>, b: Seq<char>, x: Seq<char>, y: Seq<char>)
    requires
        !has_colon(a),
        !has_colon(b),
        a + seq![':'] + x == b + seq![':'] + y,
    ensures
        a == b,
        x == y,
{
    lemma_has_colon(a);
    lemma_has_colon(b);
    let l = a + seq![':'] + x;
    if a.len() < b.len() {
        assert(l[a.len() as int] == ':');
        assert((b + seq![':'] + y)[a.len() as int] == b[a.len() as int]);
    } else if b.len() < a.len() {
        assert((b + seq![':'] + y)[b.len() as int] == ':');
        assert(l[b.len() as int] == a[b.len() as int]);
    } else {
        assert(a =~= l.subrange(0, a.len() as int));
        assert(b =~= (b + seq![':'] + y).subrange(0, b.len() as int));
        assert(x =~= l.subrange(a.len() as int + 1, l.len() as int));
        assert(y =~= (b + seq![':'] + y).subrange(b.len() as int + 1, l.len() as int));
    }
}

/// `a:b:c:d`, escaped as a whole where one of the fields holds a `:`.
pub open spec fn join4(a: Seq<char>, b: Seq<char>, c: Seq<char>, d: Seq<char>) -> Seq<char> {
    if has_colon(a) || has_colon(b) || has_colon(c) || has_colon(d) {
        escape_seq(a) + seq![':'] + escape_seq(b) + seq![':'] + escape_seq(c) + seq![':'] + escape_seq(d)
    } else {
        a + seq![':'] + b + seq![':'] + c + seq![':'] + d
    }
}

pub proof fn lemma_separated(esc: bool, a: Seq<char>, b: Seq<char>, x: Seq<char>, y: Seq<char>)
    requires
        esc ==> escape_seq(a) + seq![':'] + x == escape_seq(b) + seq![':'] + y,
        !esc ==> !has_colon(a) && !has_colon(b) && a + seq![':'] + x == b + seq![':'] + y,
    ensures
        a == b,
        x == y,
{
    if esc {
        lemma_escape_separated(a, b, x, y);
    } else {
        lemma_plain_separated(a, b, x, y);
    }
}

/// Two joins are equal only for equal fields.
pub proof fn lemma_join4_injective(
    a1: Seq<char>,
    b1: Seq<char>,
    c1: Seq<char>,
    d1: Seq<char>,
    a2: Seq<char>,
    b2: Seq<char>,
    c2: Seq<char>,
    d2: Seq<char>,
)
    requires
        join4(a1, b1, c1, d1) == join4(a2, b2, c2, d2),
    ensures
        a1 == a2,
        b1 == b2,
        c1 == c2,
        d1 == d2,
{
    let esc1 = has_colon(a1) || has_colon(b1) || has_colon(c1) || has_colon(d1);
    let esc2 = has_colon(a2) || has_colon(b2) || has_colon(c2) || has_colon(d2);
    if esc1 != esc2 {
        lemma_join4_colons(a1, b1, c1, d1);
        lemma_join4_colons(a2, b2, c2, d2);
    } else {
        let f = |s: Seq<char>| if esc1 { escape_seq(s) } else { s };
        let r1 = f(c1) + seq![':'] + f(d1);
        let r2 = f(c2) + seq![':'] + f(d2);
        let q1 = f(b1) + seq![':'] + r1;
        let q2 = f(b2) + seq![':'] + r2;
        assert(join4(a1, b1, c1, d1) =~= f(a1) + seq![':'] + q1);
        assert(join4(a2, b2, c2, d2) =~= f(a2) + seq![':'] + q2);
        lemma_separated(esc1, a1, a2, q1, q2);
        lemma_separated(esc1, b1, b2, r1, r2);
        lemma_separated(esc1, c1, c2, f(d1), f(d2));
        assert(f(d1) + seq![':'] + Seq::<char>::empty() =~= f(d2) + seq![':'] + Seq::<char>::empty());
        lemma_separated(esc1, d1, d2, Seq::<char>::empty(), Seq::<char>::empty());
    }
}

/// A plain join holds three `:`, an escaped one more.
pub proof fn lemma_join4_colons(a: Seq<char>, b: Seq<char>, c: Seq<char>, d: Seq<char>)
    ensures
        (has_colon(a) || has_colon(b) || has_colon(c) || has_colon(d)) ==> colon_count(join4(a, b, c, d)) > 3,
        !(has_colon(a) || has_colon(b) || has_colon(c) || has_colon(d)) ==> colon_count(join4(a, b, c, d)) == 3,
{
    lemma_has_colon(a);
    lemma_has_colon(b);
    lemma_has_colon(c);
    lemma_has_colon(d);
    assert(colon_count(seq![':']) == 1) by {
        reveal_with_fuel(colon_count, 2);
        assert(seq![':'].drop_last() =~= Seq::<char>::empty());
    }
    let esc = has_colon(a) || has_colon(b) || has_colon(c) || has_colon(d);
    let f = |s: Seq<char>| if esc { escape_seq(s) } else { s };
    if esc {
        lemma_colon_count_escape(a);
        lemma_colon_count_escape(b);
        lemma_colon_count_escape(c);
        lemma_colon_count_escape(d);
    }
    let c1 = seq![':'];
    lemma_colon_count_concat(f(a), c1);
    lemma_colon_count_concat(f(a) + c1, f(b));
    lemma_colon_count_concat(f(a) + c1 + f(b), c1);
    lemma_colon_count_concat(f(a) + c1 + f(b) + c1, f(c));
    lemma_colon_count_concat(f(a) + c1 + f(b) + c1 + f(c), c1);
    lemma_colon_count_concat(f(a) + c1 + f(b) + c1 + f(c) + c1, f(d));
    assert(join4(a, b, c, d) == f(a) + c1 + f(b) + c1 + f(c) + c1 + f(d));
}

/// `a:b`, escaped as a whole where one of the fields holds a `:`.
pub open spec fn join2(a: Seq<char>, b: Seq<char>) -> Seq<char> {
    if has_colon(a) || has_colon(b) {
        escape_seq(a) + seq![':'] + escape_seq(b)
    } else {
        a + seq![':'] + b
    }
}

/// Two joins are equal only for equal fields.
pub proof fn lemma_join2_injective(a1: Seq<char>, b1: Seq<char>, a2: Seq<char>, b2: Seq<char>)
    requires
        join2(a1, b1) == join2(a2, b2),
    ensures
        a1 == a2,
        b1 == b2,
{
    let esc1 = has_colon(a1) || has_colon(b1);
    let esc2 = has_colon(a2) || has_colon(b2);
    let c1 = seq![':'];
    assert(colon_count(c1) == 1) by {
        reveal_with_fuel(colon_count, 2);
        assert(c1.drop_last() =~= Seq::<char>::empty());
    }
    if esc1 != esc2 {
        lemma_has_colon(a1);
        lemma_has_colon(b1);
        lemma_has_colon(a2);
        lemma_has_colon(b2);
        lemma_colon_count_escape(a1);
        lemma_colon_count_escape(b1);
        lemma_colon_count_escape(a2);
        lemma_colon_count_escape(b2);
        let f1 = |s: Seq<char>| if esc1 { escape_seq(s) } else { s };
        let f2 = |s: Seq<char>| if esc2 { escape_seq(s) } else { s };
        lemma_colon_count_concat(f1(a1), c1);
        lemma_colon_count_concat(f1(a1) + c1, f1(b1));
        lemma_colon_count_concat(f2(a2), c1);
        lemma_colon_count_concat(f2(a2) + c1, f2(b2));
        assert(join2(a1, b1) == f1(a1) + c1 + f1(b1));
        assert(join2(a2, b2) == f2(a2) + c1 + f2(b2));
    } else {
        let f = |s: Seq<char>| if esc1 { escape_seq(s) } else { s };
        lemma_separated(esc1, a1, a2, f(b1), f(b2));
        assert(f(b1) + seq![':'] + Seq::<char>::empty() =~= f(b2) + seq![':'] + Seq::<char>::empty());
        lemma_separated(esc1, b1, b2, Seq::<char>::empty(), Seq::<char>::empty());
    }
}

/// Whether `s` holds a `:`.
pub fn has_colon_str(s: &str) -> (r: bool)
    ensures
        r == has_colon(s@),
{
    proof {
        reveal_strlit(":");
        assert(":"@ =~= seq![':']);
    }
    contains_str(s, ":")
}

/// `a` comes no later than `b` in the order of character codes, a prefix first.
/// For strings this is the order of their UTF-8 bytes.
pub open spec fn lex_le(a: Seq<char>, b: Seq<char>) -> bool
    decreases a.len(),
{
    if a.len() == 0 {
        true
    } else if b.len() == 0 {
        false
    } else if a[0] as u32 != b[0] as u32 {
        (a[0] as u32) < (b[0] as u32)
    } else {
        lex_le(a.drop_first(), b.drop_first())
    }
}

pub proof fn lemma_lex_total(a: Seq<char>, b: Seq<char>)
    ensures
        lex_le(a, b) || lex_le(b, a),
    decreases a.len(),
{
    if a.len() > 0 && b.len() > 0 && a[0] as u32 == b[0] as u32 {
        lemma_lex_total(a.drop_first(), b.drop_first());
    }
}

pub proof fn lemma_lex_transitive(a: Seq<char>, b: Seq<char>, c: Seq<char>)
    requires
        lex_le(a, b),
        lex_le(b, c),
    ensures
        lex_le(a, c),
    decreases a.len(),
{
    if a.len() > 0 && b.len() > 0 && c.len() > 0 {
        if a[0] as u32 == b[0] as u32 && b[0] as u32 == c[0] as u32 {
            lemma_lex_transitive(a.drop_first(), b.drop_first(), c.drop_first());
        }
    }
}

/// Whether `a` comes no later than `b`.
pub fn lex_le_str(a: &str, b: &str) -> (r: bool)
    ensures
        r == lex_le(a@, b@),
{
    let n = a.unicode_len();
    let m = b.unicode_len();
    let mut i: usize = 0;
    assert(a@.subrange(0, n as int) =~= a@);
    assert(b@.subrange(0, m as int) =~= b@);
    while i < n && i < m
        invariant
            n == a@.len(),
            m == b@.len(),
            i <= n,
            i <= m,
            lex_le(a@, b@) == lex_le(a@.subrange(i as int, n as int), b@.subrange(i as int, m as int)),
        decreases n - i,
    {
        let x = a.get_char(i);
        let y = b.get_char(i);
        let ghost sa = a@.subrange(i as int, n as int);
        let ghost sb = b@.subrange(i as int, m as int);
        assert(sa[0] == x && sb[0] == y);
        if x as u32 != y as u32 {
            return (x as u32) < (y as u32);
        }
        assert(sa.drop_first() =~= a@.subrange(i + 1, n as int));
        assert(sb.drop_first() =~= b@.subrange(i + 1, m as int));
        i = i + 1;
    }
    i == n
}

/// Every string comes no later than the ones after it.
pub open spec fn sorted_strings(v: Seq<String>) -> bool {
    forall|i: int, j: int| 0 <= i < j < v.len() ==> lex_le(#[trigger] v[i]@, #[trigger] v[j]@)
}

/// The strings in order, each kept as often as it stands.
pub fn sort_strings(v: Vec<String>) -> (r: Vec<String>)
    ensures
        sorted_strings(r@),
        r@.to_multiset() == v@.to_multiset(),
{
    broadcast use vstd::seq_lib::group_to_multiset_ensures;

    let mut out: Vec<String> = Vec::new();
    let mut rest = v;
    let ghost orig = rest@;
    while rest.len() > 0
        invariant
            sorted_strings(out@),
            out@.to_multiset().add(rest@.to_multiset()) == orig.to_multiset(),
        decreases rest.len(),
    {
        let ghost before = rest@;
        let x = rest.pop().unwrap();
        proof {
            assert(before =~= rest@.push(x));
            vstd::seq_lib::to_multiset_build(rest@, x);
        }
        let mut p: usize = 0;
        while p < out.len() && lex_le_str(out[p].as_str(), x.as_str())
            invariant
                p <= out@.len(),
                forall|k: int| 0 <= k < p ==> lex_le(#[trigger] out@[k]@, x@),
            decreases out.len() - p,
        {
            p = p + 1;
        }
        let ghost old_out = out@;
        proof {
            if p < out@.len() {
                lemma_lex_total(out@[p as int]@, x@);
            }
            assert forall|k: int| p <= k < old_out.len() implies lex_le(x@, #[trigger] old_out[k]@) by {
                if k > p {
                    lemma_lex_transitive(x@, old_out[p as int]@, old_out[k]@);
                }
            }
        }
        out.insert(p, x);
        proof {
            vstd::seq_lib::to_multiset_insert(old_out, p as int, x);
            assert(out@.to_multiset().add(rest@.to_multiset()) =~= old_out.to_multiset().add(before.to_multiset()));
            assert forall|i: int, j: int| 0 <= i < j < out@.len() implies lex_le(
                #[trigger] out@[i]@,
                #[trigger] out@[j]@,
            ) by {
                if i < p && j == p {
                } else if i < p && j > p {
                    assert(out@[j] == old_out[j - 1]);
                } else if i == p {
                    assert(out@[j] == old_out[j - 1]);
                } else if i > p {
                    assert(out@[i] == old_out[i - 1]);
                    assert(out@[j] == old_out[j - 1]);
                } else {
                    assert(out@[i] == old_out[i]);
                    assert(out@[j] == old_out[j]);
                }
            }
        }
    }
    proof {
        assert(rest@.to_multiset() =~= vstd::multiset::Multiset::empty());
        assert(out@.to_multiset().add(vstd::multiset::Multiset::empty()) =~= out@.to_multiset());
    }
    out
}

} // verus!
