//! Character-level text operations: Unicode white space, trimming,
//! whitespace normalisation and decimal rendering.

use vstd::prelude::*;

verus! {

/// The Unicode `White_Space` property, which `char::is_whitespace` tests.
pub open spec fn is_white_space(c: char) -> bool {
    let n = c as u32;
    ||| 0x9 <= n <= 0xD
    ||| n == 0x20
    ||| n == 0x85
    ||| n == 0xA0
    ||| n == 0x1680
    ||| 0x2000 <= n <= 0x200A
    ||| n == 0x2028
    ||| n == 0x2029
    ||| n == 0x202F
    ||| n == 0x205F
    ||| n == 0x3000
}

/// `s` without its leading white space.
pub open spec fn trim_start(s: Seq<char>) -> Seq<char>
    decreases s.len(),
{
    if s.len() > 0 && is_white_space(s[0]) {
        trim_start(s.drop_first())
    } else {
        s
    }
}

/// `s` without its trailing white space.
pub open spec fn trim_end(s: Seq<char>) -> Seq<char>
    decreases s.len(),
{
    if s.len() > 0 && is_white_space(s.last()) {
        trim_end(s.drop_last())
    } else {
        s
    }
}

/// `s` without leading and trailing white space, as `str::trim` gives it.
pub open spec fn trim(s: Seq<char>) -> Seq<char> {
    trim_end(trim_start(s))
}

/// The maximal runs of non-white-space characters of `s`, in order, as
/// `str::split_whitespace` yields them.
pub open spec fn words(s: Seq<char>) -> Seq<Seq<char>>
    decreases s.len(),
{
    if s.len() == 0 {
        Seq::empty()
    } else {
        let w = words(s.drop_last());
        let c = s.last();
        if is_white_space(c) {
            w
        } else if s.len() >= 2 && !is_white_space(s[s.len() - 2]) {
            w.update(w.len() - 1, w.last().push(c))
        } else {
            w.push(seq![c])
        }
    }
}

/// The pieces of `w` joined with single spaces.
pub open spec fn join_spaced(w: Seq<Seq<char>>) -> Seq<char>
    decreases w.len(),
{
    if w.len() == 0 {
        Seq::empty()
    } else if w.len() == 1 {
        w[0]
    } else {
        join_spaced(w.drop_last()) + seq![' '] + w.last()
    }
}

/// The words of `s` joined with single spaces.
pub open spec fn normalized(s: Seq<char>) -> Seq<char> {
    join_spaced(words(s))
}

/// The decimal digit for `d`.
pub open spec fn digit_char(d: nat) -> char {
    if d == 0 { '0' }
    else if d == 1 { '1' }
    else if d == 2 { '2' }
    else if d == 3 { '3' }
    else if d == 4 { '4' }
    else if d == 5 { '5' }
    else if d == 6 { '6' }
    else if d == 7 { '7' }
    else if d == 8 { '8' }
    else { '9' }
}

/// The decimal rendering of `n`, without sign or leading zeros.
pub open spec fn decimal(n: nat) -> Seq<char>
    decreases n,
{
    if n < 10 {
        seq![digit_char(n)]
    } else {
        decimal(n / 10).push(digit_char(n % 10))
    }
}

/// A string whose last character is not white space has at least one word.
proof fn lemma_words_nonempty(s: Seq<char>)
    requires
        s.len() > 0,
        !is_white_space(s.last()),
    ensures
        words(s).len() > 0,
    decreases s.len(),
{
    if s.len() >= 2 && !is_white_space(s[s.len() - 2]) {
        lemma_words_nonempty(s.drop_last());
    }
}

/// Words of a prefix grow one character at a time.
proof fn lemma_words_step(s: Seq<char>, i: int)
    requires
        0 <= i < s.len(),
    ensures
        ({
            let w = words(s.take(i));
            let c = s[i];
            words(s.take(i + 1)) == if is_white_space(c) {
                w
            } else if i >= 1 && !is_white_space(s[i - 1]) {
                w.update(w.len() - 1, w.last().push(c))
            } else {
                w.push(seq![c])
            }
        }),
        !is_white_space(s[i]) ==> words(s.take(i + 1)).len() > 0,
        i >= 1 && !is_white_space(s[i - 1]) ==> words(s.take(i)).len() > 0,
{
    let t = s.take(i + 1);
    assert(t.drop_last() =~= s.take(i));
    assert(t.last() == s[i]);
    if i >= 1 {
        assert(t[t.len() - 2] == s[i - 1]);
    }
    if !is_white_space(s[i]) {
        lemma_words_nonempty(t);
    }
    if i >= 1 && !is_white_space(s[i - 1]) {
        assert(s.take(i).last() == s[i - 1]);
        lemma_words_nonempty(s.take(i));
    }
}

/// Joining after extending the last word extends the joined text.
proof fn lemma_join_extend_last(w: Seq<Seq<char>>, c: char)
    requires
        w.len() > 0,
    ensures
        join_spaced(w.update(w.len() - 1, w.last().push(c))) == join_spaced(w).push(c),
{
    let u = w.update(w.len() - 1, w.last().push(c));
    if w.len() == 1 {
    } else {
        assert(u.drop_last() =~= w.drop_last());
        assert(join_spaced(u) == join_spaced(w.drop_last()) + seq![' '] + w.last().push(c));
        assert(join_spaced(w.drop_last()) + seq![' '] + w.last().push(c) =~= (join_spaced(
            w.drop_last(),
        ) + seq![' '] + w.last()).push(c));
    }
}

/// Joining after appending a word appends a space and the word.
proof fn lemma_join_push(w: Seq<Seq<char>>, x: Seq<char>)
    ensures
        join_spaced(w.push(x)) == if w.len() == 0 {
            x
        } else {
            join_spaced(w) + seq![' '] + x
        },
{
    assert(w.push(x).drop_last() =~= w);
}

/// `String::push`: appends the character `c`.
#[verifier::external_body]
pub(crate) fn push_char(s: &mut String, c: char)
    ensures
        final(s)@ == old(s)@.push(c),
{
    s.push(c)
}

/// Whether `c` is Unicode white space.
pub fn white_space(c: char) -> (r: bool)
    ensures
        r == is_white_space(c),
{
    let n = c as u32;
    (0x9 <= n && n <= 0xD) || n == 0x20 || n == 0x85 || n == 0xA0 || n == 0x1680 || (0x2000
        <= n && n <= 0x200A) || n == 0x2028 || n == 0x2029 || n == 0x202F || n == 0x205F || n
        == 0x3000
}

/// The characters of `s`, in order.
pub fn chars_of(s: &str) -> (r: Vec<char>)
    ensures
        r@ == s@,
{
    let mut out: Vec<char> = Vec::new();
    for c in iter: s.chars()
        invariant
            out@ == iter.seq().take(iter.index() as int),
    {
        out.push(c);
    }
    out
}

/// The string made of `v[from..to]`.
pub fn string_of(v: &Vec<char>, from: usize, to: usize) -> (r: String)
    requires
        from <= to <= v.len(),
    ensures
        r@ == v@.subrange(from as int, to as int),
{
    let mut out = String::new();
    let mut i = from;
    while i < to
        invariant
            from <= i <= to <= v.len(),
            out@ == v@.subrange(from as int, i as int),
        decreases to - i,
    {
        push_char(&mut out, v[i]);
        assert(v@.subrange(from as int, i + 1) =~= v@.subrange(from as int, i as int).push(v[i as int]));
        i = i + 1;
    }
    out
}

/// The decimal rendering of `n`.
pub fn decimal_string(n: u64) -> (r: String)
    ensures
        r@ == decimal(n as nat),
    decreases n,
{
    let d = n % 10;
    let c = if d == 0 { '0' }
        else if d == 1 { '1' }
        else if d == 2 { '2' }
        else if d == 3 { '3' }
        else if d == 4 { '4' }
        else if d == 5 { '5' }
        else if d == 6 { '6' }
        else if d == 7 { '7' }
        else if d == 8 { '8' }
        else { '9' };
    if n < 10 {
        let mut s = String::new();
        push_char(&mut s, c);
        assert(s@ =~= seq![c]);
        s
    } else {
        let mut s = decimal_string(n / 10);
        push_char(&mut s, c);
        s
    }
}

/// `s` with leading and trailing white space removed, as `str::trim` does.
pub fn trimmed(s: &str) -> (r: String)
    ensures
        r@ == trim(s@),
{
    let v = chars_of(s);
    let n = v.len();
    let mut i: usize = 0;
    assert(v@.skip(0) =~= v@);
    while i < n && white_space(v[i])
        invariant
            0 <= i <= n == v.len(),
            v@ == s@,
            trim_start(s@) == trim_start(v@.skip(i as int)),
        decreases n - i,
    {
        assert(v@.skip(i as int).drop_first() =~= v@.skip(i + 1));
        i = i + 1;
    }
    let ghost front = v@.skip(i as int);
    assert(trim_start(front) == front);
    let mut j: usize = n;
    while j > i && white_space(v[j - 1])
        invariant
            i <= j <= n == v.len(),
            front == v@.skip(i as int),
            trim_end(front) == trim_end(v@.subrange(i as int, j as int)),
        decreases j,
    {
        assert(v@.subrange(i as int, j as int).drop_last() =~= v@.subrange(i as int, j - 1));
        j = j - 1;
    }
    assert(v@.skip(i as int) =~= v@.subrange(i as int, n as int));
    string_of(&v, i, j)
}

/// The words of `s` joined with single spaces: `split_whitespace` then
/// `join(" ")`.
pub fn normalize(s: &str) -> (r: String)
    ensures
        r@ == normalized(s@),
{
    let v = chars_of(s);
    let n = v.len();
    let mut out = String::new();
    let mut started = false;
    let mut i: usize = 0;
    assert(v@.take(0) =~= Seq::<char>::empty());
    while i < n
        invariant
            0 <= i <= n == v.len(),
            v@ == s@,
            out@ == join_spaced(words(v@.take(i as int))),
            started <==> words(v@.take(i as int)).len() > 0,
        decreases n - i,
    {
        let c = v[i];
        proof {
            lemma_words_step(v@, i as int);
        }
        let ghost w = words(v@.take(i as int));
        if white_space(c) {
        } else if i >= 1 && !white_space(v[i - 1]) {
            proof {
                lemma_join_extend_last(w, c);
            }
            push_char(&mut out, c);
        } else {
            proof {
                lemma_join_push(w, seq![c]);
            }
            if started {
                push_char(&mut out, ' ');
            }
            push_char(&mut out, c);
            started = true;
            proof {
                if w.len() == 0 {
                    assert(out@ =~= seq![c]);
                } else {
                    assert(out@ =~= join_spaced(w) + seq![' '] + seq![c]);
                }
            }
        }
        i = i + 1;
    }
    assert(v@.take(n as int) =~= v@);
    out
}

} // verus!

verus! {

/// Whether `a` and `b` hold the same characters.
pub fn same_text(a: &str, b: &str) -> (r: bool)
    ensures
        r == (a@ == b@),
{
    let x = chars_of(a);
    let y = chars_of(b);
    if x.len() != y.len() {
        return false;
    }
    let mut i: usize = 0;
    while i < x.len()
        invariant
            0 <= i <= x.len() == y.len(),
            x@ == a@,
            y@ == b@,
            forall|j: int| 0 <= j < i ==> x@[j] == y@[j],
        decreases x.len() - i,
    {
        if x[i] != y[i] {
            return false;
        }
        i = i + 1;
    }
    assert(x@ =~= y@);
    true
}

} // verus!

verus! {

/// Whether every character of `w` is visible (not white space) and `w` is
/// not empty.
pub open spec fn is_word(w: Seq<char>) -> bool {
    w.len() > 0 && forall|i: int| 0 <= i < w.len() ==> !is_white_space(#[trigger] w[i])
}

/// The words of any text are non-empty and hold no white space.
proof fn lemma_words_are_words(s: Seq<char>)
    ensures
        forall|k: int| 0 <= k < words(s).len() ==> is_word(#[trigger] words(s)[k]),
    decreases s.len(),
{
    if s.len() > 0 {
        let d = s.drop_last();
        lemma_words_are_words(d);
        let w = words(d);
        let c = s.last();
        if !is_white_space(c) {
            if s.len() >= 2 && !is_white_space(s[s.len() - 2]) {
                assert(d.last() == s[s.len() - 2]);
                lemma_words_nonempty(d);
                let u = w.update(w.len() - 1, w.last().push(c));
                assert forall|k: int| 0 <= k < u.len() implies is_word(#[trigger] u[k]) by {
                    if k == w.len() - 1 {
                        assert(is_word(w[k]));
                        assert forall|i: int| 0 <= i < u[k].len() implies !is_white_space(#[trigger] u[k][i]) by {
                            if i < w[k].len() {
                                assert(u[k][i] == w[k][i]);
                            }
                        }
                    }
                }
            } else {
                let u = w.push(seq![c]);
                assert forall|k: int| 0 <= k < u.len() implies is_word(#[trigger] u[k]) by {
                    if k < w.len() {
                        assert(u[k] == w[k]);
                    }
                }
            }
        }
    }
}

/// Appending a word after white space appends it to the words.
proof fn lemma_words_append_word(t: Seq<char>, y: Seq<char>)
    requires
        t.len() > 0,
        is_white_space(t.last()),
        is_word(y),
    ensures
        words(t + y) == words(t).push(y),
    decreases y.len(),
{
    let c = y.last();
    let yp = y.drop_last();
    assert((t + y).drop_last() =~= t + yp);
    assert((t + y).last() == c);
    if yp.len() == 0 {
        assert(t + yp =~= t);
        assert((t + y)[(t + y).len() - 2] == t.last());
        assert(y =~= seq![c]);
    } else {
        assert forall|i: int| 0 <= i < yp.len() implies !is_white_space(#[trigger] yp[i]) by {
            assert(yp[i] == y[i]);
        }
        lemma_words_append_word(t, yp);
        assert((t + y)[(t + y).len() - 2] == yp.last());
        assert(yp.last() == y[y.len() - 2]);
        let w = words(t + yp);
        assert(w.last() == yp);
        assert(yp.push(c) =~= y);
        assert(w.update(w.len() - 1, w.last().push(c)) =~= words(t).push(y));
    }
}

/// Text made of words joined by single spaces splits back into them.
proof fn lemma_words_of_joined(w: Seq<Seq<char>>)
    requires
        forall|k: int| 0 <= k < w.len() ==> is_word(#[trigger] w[k]),
    ensures
        words(join_spaced(w)) == w,
    decreases w.len(),
{
    if w.len() == 0 {
        assert(words(Seq::<char>::empty()) =~= Seq::<Seq<char>>::empty());
    } else if w.len() == 1 {
        let x = w[0];
        assert(x.len() > 0);
        assert(x =~= Seq::<char>::empty() + x);
        lemma_words_of_word(x);
        assert(w =~= seq![x]);
    } else {
        let d = w.drop_last();
        assert forall|k: int| 0 <= k < d.len() implies is_word(#[trigger] d[k]) by {
            assert(d[k] == w[k]);
        }
        lemma_words_of_joined(d);
        let j = join_spaced(d) + seq![' '];
        assert(j.drop_last() =~= join_spaced(d));
        assert(words(j) == words(join_spaced(d)));
        assert(is_word(w.last()));
        lemma_words_append_word(j, w.last());
        assert(join_spaced(w) == j + w.last());
        assert(w =~= d.push(w.last()));
    }
}

/// A single word is its only word.
proof fn lemma_words_of_word(x: Seq<char>)
    requires
        is_word(x),
    ensures
        words(x) == seq![x],
    decreases x.len(),
{
    let c = x.last();
    assert(!is_white_space(x[x.len() - 1]));
    if x.len() == 1 {
        assert(x.drop_last() =~= Seq::<char>::empty());
        assert(words(x.drop_last()) =~= Seq::<Seq<char>>::empty());
        assert(x =~= seq![c]);
        assert(words(x) =~= seq![x]);
    } else {
        assert(!is_white_space(x[x.len() - 2]));
        let d = x.drop_last();
        assert forall|i: int| 0 <= i < d.len() implies !is_white_space(#[trigger] d[i]) by {
            assert(d[i] == x[i]);
        }
        lemma_words_of_word(d);
        assert(x[x.len() - 2] == d.last());
        assert(d.push(c) =~= x);
        assert(seq![d].update(0, d.push(c)) =~= seq![x]);
        assert(words(x) =~= seq![x]);
    }
}

/// Normalising white space twice gives the same text as once: normalised
/// titles compare equal exactly when their texts do.
pub proof fn lemma_normalized_idempotent(s: Seq<char>)
    ensures
        normalized(normalized(s)) == normalized(s),
{
    lemma_words_are_words(s);
    lemma_words_of_joined(words(s));
}

} // verus!

verus! {

/// Whether `t` is in normal form: every white-space character is a single
/// space that follows a visible character, and `t` does not end in white
/// space.
pub open spec fn is_normal(t: Seq<char>) -> bool {
    &&& spaced_ok(t)
    &&& t.len() > 0 ==> !is_white_space(t.last())
}

/// Every white-space character of `t` is a space right after a visible one.
pub open spec fn spaced_ok(t: Seq<char>) -> bool {
    forall|i: int|
        0 <= i < t.len() && is_white_space(#[trigger] t[i]) ==> t[i] == ' ' && i > 0
            && !is_white_space(t[i - 1])
}

/// Joining the words of a well-spaced text gives it back, up to one
/// trailing space.
proof fn lemma_join_words_spaced(p: Seq<char>)
    requires
        spaced_ok(p),
    ensures
        join_spaced(words(p)) == if p.len() > 0 && is_white_space(p.last()) {
            p.drop_last()
        } else {
            p
        },
    decreases p.len(),
{
    if p.len() > 0 {
        let d = p.drop_last();
        let c = p.last();
        assert forall|i: int| 0 <= i < d.len() && is_white_space(#[trigger] d[i]) implies d[i]
            == ' ' && i > 0 && !is_white_space(d[i - 1]) by {
            assert(d[i] == p[i]);
            assert(p[i] == d[i]);
            if i > 0 {
                assert(d[i - 1] == p[i - 1]);
            }
        }
        lemma_join_words_spaced(d);
        let w = words(d);
        if is_white_space(c) {
            assert(p[p.len() - 1] == c);
            assert(!is_white_space(p[p.len() - 2]));
            assert(d.last() == p[p.len() - 2]);
        } else if p.len() >= 2 && !is_white_space(p[p.len() - 2]) {
            assert(d.last() == p[p.len() - 2]);
            lemma_words_nonempty(d);
            lemma_join_extend_last(w, c);
            assert(d.push(c) =~= p);
        } else {
            lemma_join_push(w, seq![c]);
            if p.len() == 1 {
                assert(d.len() == 0);
                assert(w.len() == 0);
                assert(p =~= seq![c]);
            } else {
                let e = d.drop_last();
                assert(d.last() == p[p.len() - 2]);
                assert(is_white_space(p[p.len() - 2]));
                assert(p[p.len() - 2] == ' ');
                assert(p.len() - 2 > 0);
                assert(!is_white_space(p[p.len() - 3]));
                assert(e.last() == p[p.len() - 3]);
                lemma_words_nonempty(e);
                assert(d.drop_last() == e);
                assert(w == words(e));
                assert(e + seq![' '] + seq![c] =~= p);
            }
        }
    }
}

/// A text in normal form is its own normal form.
pub proof fn lemma_normal_fixed(t: Seq<char>)
    requires
        is_normal(t),
    ensures
        normalized(t) == t,
{
    lemma_join_words_spaced(t);
}

/// Words joined with single spaces are in normal form.
proof fn lemma_join_is_normal(w: Seq<Seq<char>>)
    requires
        forall|k: int| 0 <= k < w.len() ==> is_word(#[trigger] w[k]),
    ensures
        is_normal(join_spaced(w)),
        w.len() > 0 ==> join_spaced(w).len() > 0,
    decreases w.len(),
{
    if w.len() == 1 {
        assert(is_word(w[0]));
    } else if w.len() > 1 {
        let d = w.drop_last();
        assert forall|k: int| 0 <= k < d.len() implies is_word(#[trigger] d[k]) by {
            assert(d[k] == w[k]);
        }
        lemma_join_is_normal(d);
        let x = w.last();
        assert(is_word(w[w.len() - 1]));
        let jd = join_spaced(d);
        let j = join_spaced(w);
        assert(j == jd + seq![' '] + x);
        assert forall|i: int| 0 <= i < j.len() && is_white_space(#[trigger] j[i]) implies j[i]
            == ' ' && i > 0 && !is_white_space(j[i - 1]) by {
            if i < jd.len() {
                assert(j[i] == jd[i]);
                if i > 0 {
                    assert(j[i - 1] == jd[i - 1]);
                }
            } else if i == jd.len() {
                assert(j[i - 1] == jd.last());
            } else {
                assert(j[i] == x[i - jd.len() - 1]);
            }
        }
        assert(j.last() == x.last());
        assert(x.last() == x[x.len() - 1]);
    }
}

/// The normal form of any text is in normal form.
pub proof fn lemma_normalized_is_normal(s: Seq<char>)
    ensures
        is_normal(normalized(s)),
{
    lemma_words_are_words(s);
    lemma_join_is_normal(words(s));
}

/// A prefix of a normal text followed by visible characters is normal.
pub proof fn lemma_prefix_then_word_normal(v: Seq<char>, k: int, x: Seq<char>)
    requires
        is_normal(v),
        0 <= k <= v.len(),
        is_word(x),
    ensures
        is_normal(v.take(k) + x),
{
    let p = v.take(k);
    let r = p + x;
    assert forall|i: int| 0 <= i < r.len() && is_white_space(#[trigger] r[i]) implies r[i]
        == ' ' && i > 0 && !is_white_space(r[i - 1]) by {
        if i < k {
            assert(r[i] == v[i]);
            if i > 0 {
                assert(r[i - 1] == v[i - 1]);
            }
        } else {
            assert(r[i] == x[i - k]);
        }
    }
    assert(r.last() == x[x.len() - 1]);
}

} // verus!
