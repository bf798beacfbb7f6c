//! Sequences of characters: white space, prefixes, pieces between separators.

use vstd::prelude::*;

verus! {

/// Whether `c` is white space: the code points that Unicode gives the
/// property `White_Space`.
pub open spec fn is_space(c: char) -> bool {
    ||| '\u{9}' <= c <= '\u{d}'
    ||| c == ' '
    ||| c == '\u{85}'
    ||| c == '\u{a0}'
    ||| c == '\u{1680}'
    ||| '\u{2000}' <= c <= '\u{200a}'
    ||| c == '\u{2028}'
    ||| c == '\u{2029}'
    ||| c == '\u{202f}'
    ||| c == '\u{205f}'
    ||| c == '\u{3000}'
}

/// Tells whether `c` is white space.
pub fn is_white_space(c: char) -> (b: bool)
    ensures
        b == is_space(c),
{
    ('\u{9}' <= c && c <= '\u{d}') || c == ' ' || c == '\u{85}' || c == '\u{a0}' || c
        == '\u{1680}' || ('\u{2000}' <= c && c <= '\u{200a}') || c == '\u{2028}' || c
        == '\u{2029}' || c == '\u{202f}' || c == '\u{205f}' || c == '\u{3000}'
}

/// The characters of `s`, one by one.
pub fn chars_of(s: &str) -> (v: Vec<char>)
    ensures
        v@ == s@,
{
    let mut v: Vec<char> = Vec::new();
    for c in it: s.chars()
        invariant
            it.seq() == s@,
            v@ == it.seq().take(it.index()),
    {
        v.push(c);
    }
    v
}

/// What a scan looks for.
#[derive(Clone, Copy, Debug, PartialEq, Eq, Structural)]
pub enum Stop {
    /// This very character.
    At(char),
    /// Any white space.
    Space,
}

impl Stop {
    /// Whether a scan for `self` stops at `c`.
    pub open spec fn holds(self, c: char) -> bool {
        match self {
            Stop::At(wanted) => c == wanted,
            Stop::Space => is_space(c),
        }
    }

    /// Tells whether a scan for `self` stops at `c`.
    pub fn meets(self, c: char) -> (b: bool)
        ensures
            b == self.holds(c),
    {
        match self {
            Stop::At(wanted) => c == wanted,
            Stop::Space => is_white_space(c),
        }
    }
}

/// The number of characters at the start of `s` that a scan for `stop`
/// passes over: the index of the first character at which it stops, or the
/// length of `s` where it stops nowhere.
pub open spec fn run(s: Seq<char>, stop: Stop) -> int
    decreases s.len(),
{
    if s.len() == 0 || stop.holds(s[0]) {
        0
    } else {
        1 + run(s.skip(1), stop)
    }
}

/// `run` lies within `s`, no character before it stops the scan, and the
/// one at it, if there is one, does.
pub proof fn lemma_run(s: Seq<char>, stop: Stop)
    ensures
        0 <= run(s, stop) <= s.len(),
        forall|j: int| 0 <= j < run(s, stop) ==> !stop.holds(#[trigger] s[j]),
        run(s, stop) < s.len() ==> stop.holds(s[run(s, stop)]),
    decreases s.len(),
{
    if s.len() == 0 || stop.holds(s[0]) {
    } else {
        let t = s.skip(1);
        lemma_run(t, stop);
        assert forall|j: int| 0 <= j < run(s, stop) implies !stop.holds(#[trigger] s[j]) by {
            if j > 0 {
                assert(s[j] == t[j - 1]);
            }
        }
        assert(run(s, stop) < s.len() ==> s[run(s, stop)] == t[run(t, stop)]);
    }
}

/// `run` is the only index of which `lemma_run` holds.
pub proof fn lemma_run_is(s: Seq<char>, stop: Stop, k: int)
    requires
        0 <= k <= s.len(),
        forall|j: int| 0 <= j < k ==> !stop.holds(#[trigger] s[j]),
        k < s.len() ==> stop.holds(s[k]),
    ensures
        run(s, stop) == k,
{
    lemma_run(s, stop);
    let r = run(s, stop);
    if r < k {
        assert(!stop.holds(s[r]));
    } else if k < r {
        assert(!stop.holds(s[k]));
    }
}

/// Scans `v` from `from` on and returns the index at which the scan for
/// `stop` ends.
pub fn scan(v: &Vec<char>, from: usize, stop: Stop) -> (end: usize)
    requires
        from <= v.len(),
    ensures
        from <= end <= v.len(),
        end == from + run(v@.skip(from as int), stop),
{
    let mut i: usize = from;
    while i < v.len() && !stop.meets(v[i])
        invariant
            from <= i <= v.len(),
            forall|j: int| from <= j < i ==> !stop.holds(#[trigger] v@[j]),
        decreases v.len() - i,
    {
        i += 1;
    }
    proof {
        let t = v@.skip(from as int);
        assert forall|j: int| 0 <= j < i - from implies !stop.holds(#[trigger] t[j]) by {
            assert(t[j] == v@[from + j]);
        }
        lemma_run_is(t, stop, i - from);
    }
    i
}

/// The `n`th piece of `s`, counted from 0, when `s` is cut at every `sep`;
/// `None` where `s` has fewer pieces.
pub open spec fn piece(s: Seq<char>, sep: char, n: nat) -> Option<Seq<char>>
    decreases n,
{
    let i = run(s, Stop::At(sep));
    if n == 0 {
        Some(s.take(i))
    } else if i >= s.len() {
        None
    } else {
        piece(s.skip(i + 1), sep, (n - 1) as nat)
    }
}

/// The index at which the `n`th piece of `s` begins, where `s` has one.
pub open spec fn piece_start(s: Seq<char>, sep: char, n: nat) -> int
    decreases n,
{
    let i = run(s, Stop::At(sep));
    if n == 0 || i >= s.len() {
        0
    } else {
        i + 1 + piece_start(s.skip(i + 1), sep, (n - 1) as nat)
    }
}

/// Where the `n`th piece of `v` lies, as the index of its first character
/// and the index after its last one.
pub fn piece_bounds(v: &Vec<char>, sep: char, n: usize) -> (bounds: Option<(usize, usize)>)
    ensures
        match bounds {
            Some((from, to)) => {
                &&& from <= to <= v.len()
                &&& from == piece_start(v@, sep, n as nat)
                &&& to == from + run(v@.skip(from as int), Stop::At(sep))
                &&& piece(v@, sep, n as nat) == Some(v@.subrange(from as int, to as int))
            },
            None => piece(v@, sep, n as nat).is_none(),
        },
{
    let mut from: usize = 0;
    let mut k: usize = 0;
    assert(v@.skip(0) =~= v@);
    loop
        invariant
            from <= v.len(),
            k <= n,
            piece(v@, sep, n as nat) == piece(v@.skip(from as int), sep, (n - k) as nat),
            piece(v@, sep, n as nat).is_some() ==> piece_start(v@, sep, n as nat) == from
                + piece_start(v@.skip(from as int), sep, (n - k) as nat),
        decreases n - k,
    {
        let to = scan(v, from, Stop::At(sep));
        if k == n {
            assert(v@.skip(from as int).take(to - from) =~= v@.subrange(from as int, to as int));
            return Some((from, to));
        }
        if to == v.len() {
            return None;
        }
        assert(v@.skip(from as int).skip(to - from + 1) =~= v@.skip(to + 1));
        from = to + 1;
        k += 1;
    }
}

/// The characters of `v` from index `from` up to index `to`.
pub fn part_of(v: &Vec<char>, from: usize, to: usize) -> (part: Vec<char>)
    requires
        from <= to <= v.len(),
    ensures
        part@ == v@.subrange(from as int, to as int),
{
    let mut part: Vec<char> = Vec::new();
    let mut i: usize = from;
    while i < to
        invariant
            from <= i <= to <= v.len(),
            part@ == v@.subrange(from as int, i as int),
        decreases to - i,
    {
        part.push(v[i]);
        assert(part@ =~= v@.subrange(from as int, i + 1));
        i += 1;
    }
    part
}

/// Tells whether `v` begins with `prefix`.
pub fn starts_with(v: &Vec<char>, prefix: &str) -> (b: bool)
    ensures
        b == prefix@.is_prefix_of(v@),
{
    let p = chars_of(prefix);
    if p.len() > v.len() {
        return false;
    }
    let mut i: usize = 0;
    while i < p.len()
        invariant
            i <= p.len() <= v.len(),
            p@ == prefix@,
            forall|j: int| 0 <= j < i ==> p@[j] == v@[j],
        decreases p.len() - i,
    {
        if p[i] != v[i] {
            assert(v@.subrange(0, p@.len() as int)[i as int] != p@[i as int]);
            return false;
        }
        i += 1;
    }
    assert(p@ =~= v@.subrange(0, p@.len() as int));
    true
}


/// Whether `c` occurs nowhere in `s`.
pub open spec fn lacks(s: Seq<char>, c: char) -> bool {
    forall|i: int| 0 <= i < s.len() ==> #[trigger] s[i] != c
}

/// Whether `s` holds no white space.
pub open spec fn is_solid(s: Seq<char>) -> bool {
    forall|i: int| 0 <= i < s.len() ==> !is_space(#[trigger] s[i])
}

/// A scan runs past a text at which it stops nowhere, and goes on in
/// what follows as if it began there.
pub proof fn lemma_run_past(a: Seq<char>, b: Seq<char>, stop: Stop)
    requires
        forall|i: int| 0 <= i < a.len() ==> !stop.holds(#[trigger] a[i]),
    ensures
        run(a + b, stop) == a.len() + run(b, stop),
{
    let s = a + b;
    let k = run(b, stop);
    lemma_run(b, stop);
    let end = a.len() as int + k;
    assert forall|j: int| 0 <= j < end implies !stop.holds(#[trigger] s[j]) by {
        if j < a.len() {
            assert(s[j] == a[j]);
        } else {
            assert(s[j] == b[j - a.len()]);
        }
    }
    if end < s.len() {
        assert(s[end] == b[k]);
    }
    lemma_run_is(s, stop, end);
}

/// After a piece and its separator, the pieces of what follows are
/// counted on.
pub proof fn lemma_piece_after(a: Seq<char>, sep: char, b: Seq<char>, n: nat)
    requires
        lacks(a, sep),
    ensures
        piece(a + seq![sep] + b, sep, n + 1) == piece(b, sep, n),
{
    let s = a + seq![sep] + b;
    assert(s =~= a + (seq![sep] + b));
    lemma_run_past(a, seq![sep] + b, Stop::At(sep));
    assert(s.skip(a.len() as int + 1) =~= b);
}

/// The first piece of a text that begins with `a`, where `a` holds no
/// separator, is `a` and the first piece of the rest.
pub proof fn lemma_first_piece(a: Seq<char>, sep: char, b: Seq<char>)
    requires
        lacks(a, sep),
    ensures
        piece(a + b, sep, 0) == Some(a + b.take(run(b, Stop::At(sep)))),
{
    let k = run(b, Stop::At(sep));
    lemma_run(b, Stop::At(sep));
    lemma_run_past(a, b, Stop::At(sep));
    assert((a + b).take(a.len() as int + k) =~= a + b.take(k));
}

/// A text that differs from `prefix` at some index, or ends before it,
/// does not begin with `prefix`.
pub proof fn lemma_not_prefix(prefix: Seq<char>, s: Seq<char>, i: int)
    requires
        0 <= i < prefix.len(),
        s.len() <= i || s[i] != prefix[i],
    ensures
        !prefix.is_prefix_of(s),
{
    if prefix.is_prefix_of(s) {
        assert(s.subrange(0, prefix.len() as int)[i] == prefix[i]);
    }
}

/// A text begins with what it was put together from first.
pub proof fn lemma_prefix(prefix: Seq<char>, rest: Seq<char>)
    ensures
        prefix.is_prefix_of(prefix + rest),
{
    assert((prefix + rest).subrange(0, prefix.len() as int) =~= prefix);
}

} // verus!
