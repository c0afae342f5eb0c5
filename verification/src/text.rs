//! Character-level text handling: whitespace trimming, prefixes, searching,
//! joining and decimal numbers, each stated over the characters of the text.

use vstd::prelude::*;

verus! {

broadcast use vstd::string::group_string_axioms;

/// The characters that carry the Unicode `White_Space` property, which is what
/// `str::trim` strips.
pub open spec fn is_whitespace(c: char) -> bool {
    let n = c as u32;
    ||| 0x09 <= n <= 0x0d
    ||| n == 0x20
    ||| n == 0x85
    ||| n == 0xa0
    ||| n == 0x1680
    ||| 0x2000 <= n <= 0x200a
    ||| n == 0x2028
    ||| n == 0x2029
    ||| n == 0x202f
    ||| n == 0x205f
    ||| n == 0x3000
}

/// Where the text starts once the whitespace in front of position `i` is skipped.
pub open spec fn skip_space_from(s: Seq<char>, i: int) -> int
    decreases s.len() - i,
{
    if 0 <= i < s.len() && is_whitespace(s[i]) {
        skip_space_from(s, i + 1)
    } else {
        i
    }
}

/// Where the text ends once the whitespace before position `j`, down to `lo`, is dropped.
pub open spec fn drop_space_before(s: Seq<char>, lo: int, j: int) -> int
    decreases j - lo,
{
    if lo < j && is_whitespace(s[j - 1]) {
        drop_space_before(s, lo, j - 1)
    } else {
        j
    }
}

/// The text with its leading and trailing whitespace removed.
pub open spec fn trimmed(s: Seq<char>) -> Seq<char> {
    let a = skip_space_from(s, 0);
    s.subrange(a, drop_space_before(s, a, s.len() as int))
}

/// Whether `s` begins with `p`.
pub open spec fn starts_with(s: Seq<char>, p: Seq<char>) -> bool {
    p.len() <= s.len() && s.take(p.len() as int) == p
}

/// Whether `p` occurs in `s` at position `i`.
pub open spec fn occurs_at(s: Seq<char>, p: Seq<char>, i: int) -> bool {
    0 <= i && i + p.len() <= s.len() && s.subrange(i, i + p.len()) == p
}

/// Whether `p` occurs anywhere in `s`.
pub open spec fn contains(s: Seq<char>, p: Seq<char>) -> bool {
    exists|i: int| occurs_at(s, p, i)
}

/// `s` with every leading repetition of `p` removed, as `str::trim_start_matches` does.
pub open spec fn strip_all(s: Seq<char>, p: Seq<char>) -> Seq<char>
    decreases s.len(),
{
    if p.len() > 0 && starts_with(s, p) {
        strip_all(s.skip(p.len() as int), p)
    } else {
        s
    }
}

/// The code of a character with ASCII capitals folded to small letters.
pub open spec fn folded_code(c: char) -> u32 {
    if 65 <= c as u32 <= 90 {
        (c as u32 + 32) as u32
    } else {
        c as u32
    }
}

/// Whether the small-letter text `p` occurs in `s` at position `i` once ASCII
/// capitals are folded.
pub open spec fn folded_occurs_at(s: Seq<char>, p: Seq<char>, i: int) -> bool {
    &&& 0 <= i
    &&& i + p.len() <= s.len()
    &&& forall|k: int| 0 <= k < p.len() ==> #[trigger] folded_code(s[i + k]) == p[k] as u32
}

/// Whether the small-letter text `p` occurs in `s` once ASCII capitals are folded.
pub open spec fn contains_folded(s: Seq<char>, p: Seq<char>) -> bool {
    exists|i: int| folded_occurs_at(s, p, i)
}

/// The parts one after the other with `sep` between two neighbours.
pub open spec fn joined(parts: Seq<Seq<char>>, sep: Seq<char>) -> Seq<char>
    decreases parts.len(),
{
    if parts.len() == 0 {
        seq![]
    } else if parts.len() == 1 {
        parts[0]
    } else {
        joined(parts.drop_last(), sep) + sep + parts.last()
    }
}

/// The decimal digit for a value below ten.
pub open spec fn digit(d: nat) -> char {
    if d == 0 { '0' }
    else if d == 1 { '1' }
    else if d == 2 { '2' }
    else if d == 3 { '3' }
    else if d == 4 { '4' }
    else if d == 5 { '5' }
    else if d == 6 { '6' }
    else if d == 7 { '7' }
    else if d == 8 { '8' }
    else { '9' }
}

/// A number written out in decimal, without leading zeros.
pub open spec fn decimal(n: nat) -> Seq<char>
    decreases n,
{
    if n < 10 {
        seq![digit(n)]
    } else {
        decimal(n / 10).push(digit(n % 10))
    }
}

// ---------------------------------------------------------------- lemmas

pub proof fn lemma_skip_space_bounds(s: Seq<char>, i: int)
    requires
        0 <= i <= s.len(),
    ensures
        i <= skip_space_from(s, i) <= s.len(),
        forall|k: int| i <= k < skip_space_from(s, i) ==> is_whitespace(#[trigger] s[k]),
        skip_space_from(s, i) < s.len() ==> !is_whitespace(s[skip_space_from(s, i)]),
    decreases s.len() - i,
{
    if i < s.len() && is_whitespace(s[i]) {
        lemma_skip_space_bounds(s, i + 1);
    }
}

pub proof fn lemma_drop_space_bounds(s: Seq<char>, lo: int, j: int)
    requires
        0 <= lo <= j <= s.len(),
    ensures
        lo <= drop_space_before(s, lo, j) <= j,
        forall|k: int| drop_space_before(s, lo, j) <= k < j ==> is_whitespace(#[trigger] s[k]),
        lo < drop_space_before(s, lo, j) ==> !is_whitespace(s[drop_space_before(s, lo, j) - 1]),
    decreases j - lo,
{
    if lo < j && is_whitespace(s[j - 1]) {
        lemma_drop_space_bounds(s, lo, j - 1);
    }
}

/// A text that neither starts nor ends with whitespace is its own trim.
pub proof fn lemma_trimmed_of_bare(s: Seq<char>)
    requires
        s.len() > 0 ==> !is_whitespace(s[0]) && !is_whitespace(s[s.len() - 1]),
    ensures
        trimmed(s) == s,
{
    assert(skip_space_from(s, 0) == 0);
    assert(drop_space_before(s, 0, s.len() as int) == s.len());
    assert(s.subrange(0, s.len() as int) =~= s);
}

/// What trimming leaves neither starts nor ends with whitespace.
pub proof fn lemma_trimmed_is_bare(s: Seq<char>)
    ensures
        trimmed(s).len() > 0 ==> !is_whitespace(trimmed(s)[0]) && !is_whitespace(
            trimmed(s)[trimmed(s).len() - 1],
        ),
        trimmed(s).len() <= s.len(),
{
    lemma_skip_space_bounds(s, 0);
    let a = skip_space_from(s, 0);
    lemma_drop_space_bounds(s, a, s.len() as int);
}

/// Trimming twice is trimming once.
pub proof fn lemma_trimmed_idempotent(s: Seq<char>)
    ensures
        trimmed(trimmed(s)) == trimmed(s),
{
    lemma_trimmed_is_bare(s);
    lemma_trimmed_of_bare(trimmed(s));
}

pub proof fn lemma_strip_all_suffix(s: Seq<char>, p: Seq<char>)
    ensures
        strip_all(s, p).len() <= s.len(),
        strip_all(s, p) == s.skip(s.len() - strip_all(s, p).len()),
    decreases s.len(),
{
    if p.len() > 0 && starts_with(s, p) {
        lemma_strip_all_suffix(s.skip(p.len() as int), p);
        assert(s.skip(p.len() as int).skip(s.len() - p.len() - strip_all(s, p).len()) =~= s.skip(
            s.len() - strip_all(s, p).len(),
        ));
    } else {
        assert(s.skip(0) =~= s);
    }
}

// ---------------------------------------------------------------- exec

/// The characters of a text, in order.
pub fn chars_of(s: &str) -> (v: Vec<char>)
    ensures
        v@ == s@,
{
    let mut v: Vec<char> = Vec::new();
    for c in it: s.chars()
        invariant
            v@ == it.seq().take(it.index() as int),
            it.seq() == s@,
    {
        v.push(c);
    }
    v
}

/// Whether the character is Unicode whitespace.
pub fn is_space(c: char) -> (r: bool)
    ensures
        r == is_whitespace(c),
{
    let n = c as u32;
    (0x09 <= n && n <= 0x0d) || n == 0x20 || n == 0x85 || n == 0xa0 || n == 0x1680 || (0x2000 <= n
        && n <= 0x200a) || n == 0x2028 || n == 0x2029 || n == 0x202f || n == 0x205f || n == 0x3000
}

/// The text without its leading and trailing whitespace, as `str::trim` gives it.
pub fn trim(s: &str) -> (r: &str)
    ensures
        r@ == trimmed(s@),
{
    let v = chars_of(s);
    let n = v.len();
    let mut a: usize = 0;
    while a < n && is_space(v[a])
        invariant
            v@ == s@,
            n == v.len(),
            a <= n,
            skip_space_from(s@, a as int) == skip_space_from(s@, 0),
        decreases n - a,
    {
        a = a + 1;
    }
    let mut b: usize = n;
    while a < b && is_space(v[b - 1])
        invariant
            v@ == s@,
            n == v.len(),
            a <= b <= n,
            skip_space_from(s@, 0) == a,
            drop_space_before(s@, a as int, b as int) == drop_space_before(s@, a as int, n as int),
        decreases b,
    {
        b = b - 1;
    }
    s.substring_char(a, b)
}

/// Whether `v` begins with `p`.
pub fn has_prefix(v: &Vec<char>, p: &Vec<char>) -> (r: bool)
    ensures
        r == starts_with(v@, p@),
{
    if p.len() > v.len() {
        return false;
    }
    let mut i: usize = 0;
    while i < p.len()
        invariant
            p.len() <= v.len(),
            i <= p.len(),
            forall|k: int| 0 <= k < i ==> v@[k] == p@[k],
        decreases p.len() - i,
    {
        if v[i] != p[i] {
            assert(v@.take(p.len() as int)[i as int] != p@[i as int]);
            return false;
        }
        i = i + 1;
    }
    assert(v@.take(p.len() as int) =~= p@);
    true
}

/// Whether `p` occurs in `v` at position `i`.
fn occurs_at_exec(v: &Vec<char>, p: &Vec<char>, i: usize) -> (r: bool)
    requires
        i + p.len() <= v.len(),
    ensures
        r == occurs_at(v@, p@, i as int),
{
    let mut k: usize = 0;
    while k < p.len()
        invariant
            i + p.len() <= v.len(),
            k <= p.len(),
            forall|j: int| 0 <= j < k ==> v@[i + j] == p@[j],
        decreases p.len() - k,
    {
        if v[i + k] != p[k] {
            assert(v@.subrange(i as int, i + p.len())[k as int] != p@[k as int]);
            return false;
        }
        k = k + 1;
    }
    assert(v@.subrange(i as int, i + p.len()) =~= p@);
    true
}

/// Whether `p` occurs anywhere in `v`.
pub fn has_infix(v: &Vec<char>, p: &Vec<char>) -> (r: bool)
    ensures
        r == contains(v@, p@),
{
    if p.len() > v.len() {
        return false;
    }
    if p.len() == 0 {
        assert(v@.subrange(0, 0) =~= p@);
        assert(occurs_at(v@, p@, 0));
        return true;
    }
    let last = v.len() - p.len();
    let mut i: usize = 0;
    while i <= last
        invariant
            last == v.len() - p.len(),
            0 < p.len() <= v.len(),
            forall|j: int| 0 <= j < i ==> !occurs_at(v@, p@, j),
        decreases last + 1 - i,
    {
        if occurs_at_exec(v, p, i) {
            return true;
        }
        i = i + 1;
    }
    true == false
}

/// Whether the small-letter text `p` occurs in `v` once ASCII capitals are folded.
pub fn has_infix_folded(v: &Vec<char>, p: &Vec<char>) -> (r: bool)
    ensures
        r == contains_folded(v@, p@),
{
    if p.len() > v.len() {
        return false;
    }
    if p.len() == 0 {
        assert(folded_occurs_at(v@, p@, 0));
        return true;
    }
    let last = v.len() - p.len();
    let mut i: usize = 0;
    while i <= last
        invariant
            last == v.len() - p.len(),
            0 < p.len() <= v.len(),
            forall|j: int| 0 <= j < i ==> !folded_occurs_at(v@, p@, j),
        decreases last + 1 - i,
    {
        let mut k: usize = 0;
        let mut ok = true;
        while k < p.len()
            invariant
                i <= last,
                last == v.len() - p.len(),
                0 < p.len() <= v.len(),
                k <= p.len(),
                ok ==> forall|j: int| 0 <= j < k ==> folded_code(v@[i + j]) == p@[j] as u32,
                !ok ==> !folded_occurs_at(v@, p@, i as int),
            decreases p.len() - k,
        {
            let c = v[i + k] as u32;
            let f = if 65 <= c && c <= 90 { c + 32 } else { c };
            if f != p[k] as u32 {
                assert(folded_code(v@[i + k]) != p@[k as int] as u32);
                ok = false;
            }
            k = k + 1;
        }
        if ok {
            assert(folded_occurs_at(v@, p@, i as int));
            return true;
        }
        i = i + 1;
    }
    false
}

/// `s` with every leading repetition of `p` removed, as `str::trim_start_matches` does.
pub fn strip_prefixes<'a>(s: &'a str, p: &str) -> (r: &'a str)
    ensures
        r@ == strip_all(s@, p@),
{
    let v = chars_of(s);
    let pv = chars_of(p);
    let n = v.len();
    let mut k: usize = 0;
    proof {
        assert(s@.skip(0) =~= s@);
    }
    while pv.len() > 0 && pv.len() <= n - k && prefix_at(&v, &pv, k)
        invariant
            v@ == s@,
            pv@ == p@,
            n == v.len(),
            k <= n,
            strip_all(s@.skip(k as int), p@) == strip_all(s@, p@),
        decreases n - k,
    {
        proof {
            assert(s@.skip(k as int).take(p@.len() as int) =~= v@.subrange(k as int, k + p@.len()));
            assert(s@.skip(k as int).skip(p@.len() as int) =~= s@.skip(k + p@.len()));
        }
        k = k + pv.len();
    }
    proof {
        if pv.len() > 0 && pv.len() <= n - k {
            assert(s@.skip(k as int).take(p@.len() as int) =~= v@.subrange(k as int, k + p@.len()));
        }
    }
    s.substring_char(k, n)
}

/// Whether `p` occurs in `v` at position `k`, for a `p` that fits there.
fn prefix_at(v: &Vec<char>, p: &Vec<char>, k: usize) -> (r: bool)
    requires
        k <= v.len(),
        p.len() <= v.len() - k,
    ensures
        r == (v@.subrange(k as int, k + p.len()) == p@),
{
    let r = occurs_at_exec(v, p, k);
    r
}

/// Whether two texts hold the same characters.
pub fn same_text(a: &str, b: &str) -> (r: bool)
    ensures
        r == (a@ == b@),
{
    let x = chars_of(a);
    let y = chars_of(b);
    if x.len() != y.len() {
        return false;
    }
    let mut i: usize = 0;
    while i < x.len()
        invariant
            x@ == a@,
            y@ == b@,
            x.len() == y.len(),
            i <= x.len(),
            forall|k: int| 0 <= k < i ==> x@[k] == y@[k],
        decreases x.len() - i,
    {
        if x[i] != y[i] {
            assert(x@[i as int] != y@[i as int]);
            return false;
        }
        i = i + 1;
    }
    assert(x@ =~= y@);
    true
}

/// The decimal digit for a value below ten, as a text of one character.
fn digit_text(d: u64) -> (r: &'static str)
    requires
        d < 10,
    ensures
        r@ == seq![digit(d as nat)],
{
    if d == 0 {
        proof { reveal_strlit("0"); }
        "0"
    } else if d == 1 {
        proof { reveal_strlit("1"); }
        "1"
    } else if d == 2 {
        proof { reveal_strlit("2"); }
        "2"
    } else if d == 3 {
        proof { reveal_strlit("3"); }
        "3"
    } else if d == 4 {
        proof { reveal_strlit("4"); }
        "4"
    } else if d == 5 {
        proof { reveal_strlit("5"); }
        "5"
    } else if d == 6 {
        proof { reveal_strlit("6"); }
        "6"
    } else if d == 7 {
        proof { reveal_strlit("7"); }
        "7"
    } else if d == 8 {
        proof { reveal_strlit("8"); }
        "8"
    } else {
        proof { reveal_strlit("9"); }
        "9"
    }
}

/// A number written out in decimal.
pub fn decimal_text(n: u64) -> (r: String)
    ensures
        r@ == decimal(n as nat),
    decreases n,
{
    if n < 10 {
        let mut r = String::new();
        r.append(digit_text(n));
        r
    } else {
        let mut r = decimal_text(n / 10);
        r.append(digit_text(n % 10));
        r
    }
}

/// The parts one after the other with `sep` between two neighbours, as `join` does.
pub fn join(parts: &Vec<String>, sep: &str) -> (r: String)
    ensures
        r@ == joined(parts@.map_values(|p: String| p@), sep@),
{
    let ghost views = parts@.map_values(|p: String| p@);
    let mut r = String::new();
    let mut i: usize = 0;
    while i < parts.len()
        invariant
            views == parts@.map_values(|p: String| p@),
            i <= parts.len(),
            r@ == joined(views.take(i as int), sep@),
        decreases parts.len() - i,
    {
        proof {
            assert(views.take(i + 1).drop_last() =~= views.take(i as int));
        }
        if i > 0 {
            r.append(sep);
        }
        r.append(parts[i].as_str());
        proof {
            if i == 0 {
                assert(r@ =~= views.take(1)[0]);
            }
        }
        i = i + 1;
    }
    assert(views.take(parts.len() as int) =~= views);
    r
}

/// The pieces of a text between the occurrences of `c`, as `str::split` gives them.
pub open spec fn split_on(s: Seq<char>, c: char) -> Seq<Seq<char>>
    decreases s.len(),
{
    if s.len() == 0 {
        seq![seq![]]
    } else {
        let p = split_on(s.drop_last(), c);
        if s.last() == c {
            p.push(seq![])
        } else {
            p.update(p.len() - 1, p.last().push(s.last()))
        }
    }
}

/// A text always splits into at least one piece.
pub proof fn lemma_split_nonempty(s: Seq<char>, c: char)
    ensures
        split_on(s, c).len() >= 1,
    decreases s.len(),
{
    if s.len() > 0 {
        lemma_split_nonempty(s.drop_last(), c);
    }
}

/// The pieces completed in a prefix of a text are the first pieces of the whole text.
pub proof fn lemma_split_prefix(s: Seq<char>, c: char, i: int)
    requires
        0 <= i <= s.len(),
    ensures
        split_on(s, c).len() >= split_on(s.take(i), c).len(),
        split_on(s, c).take(split_on(s.take(i), c).len() - 1) == split_on(s.take(i), c).drop_last(),
    decreases s.len(),
{
    lemma_split_nonempty(s.take(i), c);
    if i < s.len() {
        let t = s.drop_last();
        lemma_split_prefix(t, c, i);
        assert(t.take(i) =~= s.take(i));
        lemma_split_nonempty(t, c);
        let k = split_on(s.take(i), c).len() - 1;
        if s.last() == c {
            assert(split_on(s, c).take(k) =~= split_on(t, c).take(k));
        } else {
            assert(split_on(s, c).take(k) =~= split_on(t, c).take(k));
        }
    } else {
        assert(s.take(i) =~= s);
        assert(split_on(s, c).take(split_on(s, c).len() - 1) =~= split_on(s, c).drop_last());
    }
}

/// Appending text without the separator only lengthens the last piece.
pub proof fn lemma_split_append_plain(s: Seq<char>, t: Seq<char>, c: char)
    requires
        forall|k: int| 0 <= k < t.len() ==> t[k] != c,
    ensures
        split_on(s + t, c) == split_on(s, c).update(
            split_on(s, c).len() - 1,
            split_on(s, c).last() + t,
        ),
    decreases t.len(),
{
    lemma_split_nonempty(s, c);
    if t.len() == 0 {
        assert(s + t =~= s);
        assert(split_on(s, c).last() + t =~= split_on(s, c).last());
        assert(split_on(s, c).update(split_on(s, c).len() - 1, split_on(s, c).last())
            =~= split_on(s, c));
    } else {
        let t0 = t.drop_last();
        lemma_split_append_plain(s, t0, c);
        assert((s + t).drop_last() =~= s + t0);
        assert((s + t).last() == t.last());
        lemma_split_nonempty(s + t0, c);
        let p = split_on(s, c);
        assert(p.last() + t0 + seq![t.last()] =~= p.last() + t);
        assert((p.last() + t0).push(t.last()) =~= p.last() + t);
        assert(split_on(s + t, c) =~= p.update(p.len() - 1, p.last() + t));
    }
}

/// The pieces of a text between the occurrences of `c`, as `str::split` gives them.
pub fn split_text<'a>(s: &'a str, c: char) -> (r: Vec<&'a str>)
    ensures
        r@.map_values(|p: &str| p@) == split_on(s@, c),
{
    let v = chars_of(s);
    let n = v.len();
    let mut pieces: Vec<&'a str> = Vec::new();
    let mut start: usize = 0;
    let mut i: usize = 0;
    proof {
        assert(s@.take(0) =~= Seq::<char>::empty());
        assert(s@.subrange(0, 0) =~= Seq::<char>::empty());
        assert(pieces@.map_values(|p: &str| p@).push(s@.subrange(0, 0)) =~= seq![seq![]]);
    }
    while i < n
        invariant
            v@ == s@,
            n == v.len(),
            start <= i <= n,
            split_on(s@.take(i as int), c) == pieces@.map_values(|p: &str| p@).push(
                s@.subrange(start as int, i as int),
            ),
        decreases n - i,
    {
        let ghost done = pieces@.map_values(|p: &str| p@);
        proof {
            assert(s@.take(i + 1).drop_last() =~= s@.take(i as int));
            assert(s@.take(i + 1).last() == v@[i as int]);
        }
        if v[i] == c {
            let piece = s.substring_char(start, i);
            pieces.push(piece);
            proof {
                assert(pieces@.map_values(|p: &str| p@) =~= done.push(piece@));
                assert(s@.subrange(i + 1, i + 1) =~= Seq::<char>::empty());
            }
            start = i + 1;
        } else {
            proof {
                let p = done.push(s@.subrange(start as int, i as int));
                assert(s@.subrange(start as int, i as int).push(v@[i as int]) =~= s@.subrange(
                    start as int,
                    i + 1,
                ));
                assert(p.update(p.len() - 1, p.last().push(v@[i as int])) =~= done.push(
                    s@.subrange(start as int, i + 1),
                ));
            }
        }
        i = i + 1;
    }
    proof {
        assert(s@.take(n as int) =~= s@);
    }
    let ghost done = pieces@.map_values(|p: &str| p@);
    let last = s.substring_char(start, n);
    pieces.push(last);
    proof {
        assert(pieces@.map_values(|p: &str| p@) =~= done.push(last@));
    }
    pieces
}

/// The first position, from `i` on, at which `p` occurs in `s`, or -1.
pub open spec fn find_from(s: Seq<char>, p: Seq<char>, i: int) -> int
    decreases s.len() + 1 - i,
{
    if i < 0 || i + p.len() > s.len() {
        -1
    } else if occurs_at(s, p, i) {
        i
    } else {
        find_from(s, p, i + 1)
    }
}

/// The first position at which `p` occurs in `v`, as `str::find` gives it in characters.
pub fn find_text(v: &Vec<char>, p: &Vec<char>) -> (r: Option<usize>)
    ensures
        match r {
            Some(i) => i as int == find_from(v@, p@, 0) && occurs_at(v@, p@, i as int),
            None => find_from(v@, p@, 0) == -1,
        },
{
    if p.len() > v.len() {
        return None;
    }
    let last = v.len() - p.len();
    let mut i: usize = 0;
    while i <= last
        invariant
            last == v.len() - p.len(),
            p.len() <= v.len(),
            i <= last + 1,
            find_from(v@, p@, i as int) == find_from(v@, p@, 0),
        decreases last + 1 - i,
    {
        if occurs_at_exec(v, p, i) {
            return Some(i);
        }
        if i == last {
            assert(find_from(v@, p@, i + 1) == -1);
            return None;
        }
        i = i + 1;
    }
    None
}

} // verus!
