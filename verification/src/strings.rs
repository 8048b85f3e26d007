//! Text helpers shared by the library: the Unicode white-space rule that
//! `str::trim` uses, conversion between strings and character vectors, and the
//! lexicographic order on character sequences that `String`'s ordering follows.
use vstd::prelude::*;
use vstd::string::StringExecFns;

verus! {

/// The Unicode `White_Space` property, the definition of whitespace used by
/// `char::is_whitespace` and `str::trim`.
pub open spec fn is_white_space(c: char) -> bool {
    let u = c as u32;
    ||| 0x09 <= u <= 0x0D
    ||| u == 0x20
    ||| u == 0x85
    ||| u == 0xA0
    ||| u == 0x1680
    ||| 0x2000 <= u <= 0x200A
    ||| u == 0x2028
    ||| u == 0x2029
    ||| u == 0x202F
    ||| u == 0x205F
    ||| u == 0x3000
}

/// `s` with its leading whitespace removed.
pub open spec fn trim_start(s: Seq<char>) -> Seq<char>
    decreases s.len(),
{
    if s.len() > 0 && is_white_space(s[0]) {
        trim_start(s.drop_first())
    } else {
        s
    }
}

/// `s` with its trailing whitespace removed.
pub open spec fn trim_end(s: Seq<char>) -> Seq<char>
    decreases s.len(),
{
    if s.len() > 0 && is_white_space(s.last()) {
        trim_end(s.drop_last())
    } else {
        s
    }
}

/// `s` with leading and trailing whitespace removed.
pub open spec fn trim(s: Seq<char>) -> Seq<char> {
    trim_end(trim_start(s))
}

/// What `trim_start` leaves does not start with white space.
proof fn lemma_trim_start_clean(s: Seq<char>)
    ensures
        trim_start(s).len() > 0 ==> !is_white_space(trim_start(s)[0]),
    decreases s.len(),
{
    if s.len() > 0 && is_white_space(s[0]) {
        lemma_trim_start_clean(s.drop_first());
    }
}

/// What `trim_end` leaves is a prefix of the text that does not end with
/// white space.
proof fn lemma_trim_end_prefix(s: Seq<char>)
    ensures
        trim_end(s).len() <= s.len(),
        trim_end(s) == s.take(trim_end(s).len() as int),
        trim_end(s).len() > 0 ==> !is_white_space(trim_end(s).last()),
    decreases s.len(),
{
    if s.len() > 0 && is_white_space(s.last()) {
        lemma_trim_end_prefix(s.drop_last());
        assert(s.drop_last().take(trim_end(s).len() as int) =~= s.take(trim_end(s).len() as int));
    } else {
        assert(s.take(s.len() as int) =~= s);
    }
}

/// Trimming twice is trimming once.
pub proof fn lemma_trim_idempotent(s: Seq<char>)
    ensures
        trim(trim(s)) == trim(s),
{
    let a = trim_start(s);
    let t = trim_end(a);
    lemma_trim_start_clean(s);
    lemma_trim_end_prefix(a);
    if t.len() > 0 {
        assert(t[0] == a[0]);
    }
    assert(trim_start(t) == t);
    assert(trim_end(t) == t);
}

/// Whether `c` is white space (see `is_white_space`).
pub fn is_white_space_char(c: char) -> (r: bool)
    ensures
        r == is_white_space(c),
{
    let u = c as u32;
    (0x09 <= u && u <= 0x0D) || u == 0x20 || u == 0x85 || u == 0xA0 || u == 0x1680 || (0x2000 <= u && u <= 0x200A)
        || u == 0x2028 || u == 0x2029 || u == 0x202F || u == 0x205F || u == 0x3000
}

/// `s` with leading and trailing white space removed, as `str::trim` gives it.
pub fn trim_str(s: &str) -> (r: String)
    ensures
        r@ == trim(s@),
{
    string_from_chars(&trim_chars(&chars_of(s)))
}

/// Whether `a` and `b` hold the same characters.
pub fn str_eq(a: &str, b: &str) -> (r: bool)
    ensures
        r == (a@ == b@),
{
    let x = chars_of(a);
    let y = chars_of(b);
    if x.len() != y.len() {
        return false;
    }
    let mut i: usize = 0;
    while i < x.len()
        invariant
            x@ == a@,
            y@ == b@,
            x.len() == y.len(),
            i <= x.len(),
            forall|k: int| 0 <= k < i ==> x@[k] == y@[k],
        decreases x.len() - i,
    {
        if x[i] != y[i] {
            return false;
        }
        i = i + 1;
    }
    assert(x@ =~= y@);
    true
}

/// `String::push`: appends one character.
#[verifier::external_body]
pub(crate) fn push_char(s: &mut String, c: char)
    ensures
        final(s)@ == old(s)@.push(c),
{
    s.push(c)
}

/// The characters of `s`, in order.
pub fn chars_of(s: &str) -> (r: Vec<char>)
    ensures
        r@ == s@,
{
    let mut r: Vec<char> = Vec::new();
    for c in it: s.chars()
        invariant
            r@ == it.seq().take(it.index() as int),
            it.seq() == s@,
    {
        r.push(c);
    }
    r
}


/// Strict lexicographic order on character sequences, comparing characters by
/// code point; this is the order of `String` and `str` in Rust.
pub open spec fn seq_lt(a: Seq<char>, b: Seq<char>) -> bool
    decreases a.len(),
{
    if a.len() == 0 {
        b.len() > 0
    } else if b.len() == 0 {
        false
    } else if a[0] < b[0] {
        true
    } else if a[0] == b[0] {
        seq_lt(a.drop_first(), b.drop_first())
    } else {
        false
    }
}

/// No sequence is below itself.
pub proof fn lemma_seq_lt_irreflexive(a: Seq<char>)
    ensures
        !seq_lt(a, a),
    decreases a.len(),
{
    if a.len() > 0 {
        lemma_seq_lt_irreflexive(a.drop_first());
    }
}

/// Of two distinct sequences exactly one is below the other.
pub proof fn lemma_seq_lt_total(a: Seq<char>, b: Seq<char>)
    ensures
        a != b ==> (seq_lt(a, b) || seq_lt(b, a)),
        !(seq_lt(a, b) && seq_lt(b, a)),
    decreases a.len(),
{
    if a.len() > 0 && b.len() > 0 && a[0] == b[0] {
        lemma_seq_lt_total(a.drop_first(), b.drop_first());
        if a != b {
            assert(a =~= seq![a[0]] + a.drop_first());
            assert(b =~= seq![b[0]] + b.drop_first());
        }
    } else if a.len() == 0 && b.len() == 0 {
        assert(a =~= b);
    } else if a.len() > 0 && b.len() > 0 {
    }
}

/// The order is transitive.
pub proof fn lemma_seq_lt_transitive(a: Seq<char>, b: Seq<char>, c: Seq<char>)
    requires
        seq_lt(a, b),
        seq_lt(b, c),
    ensures
        seq_lt(a, c),
    decreases a.len(),
{
    if a.len() > 0 && b.len() > 0 && c.len() > 0 && a[0] == b[0] && b[0] == c[0] {
        lemma_seq_lt_transitive(a.drop_first(), b.drop_first(), c.drop_first());
    }
}

/// Whether `a` comes strictly before `b` in lexicographic order.
pub fn chars_less(a: &Vec<char>, b: &Vec<char>) -> (r: bool)
    ensures
        r == seq_lt(a@, b@),
{
    let mut i: usize = 0;
    assert(a@.skip(0) =~= a@);
    assert(b@.skip(0) =~= b@);
    while i < a.len() && i < b.len()
        invariant
            i <= a.len(),
            i <= b.len(),
            seq_lt(a@, b@) == seq_lt(a@.skip(i as int), b@.skip(i as int)),
        decreases a.len() - i,
    {
        if a[i] < b[i] {
            return true;
        }
        if a[i] != b[i] {
            return false;
        }
        assert(a@.skip(i as int).drop_first() =~= a@.skip(i + 1));
        assert(b@.skip(i as int).drop_first() =~= b@.skip(i + 1));
        i = i + 1;
    }
    i == a.len() && i < b.len()
}

/// Whether string `a` sorts strictly before string `b`.
pub fn str_less(a: &str, b: &str) -> (r: bool)
    ensures
        r == seq_lt(a@, b@),
{
    let ca = chars_of(a);
    let cb = chars_of(b);
    chars_less(&ca, &cb)
}

/// A list whose entries strictly increase: sorted and free of duplicates.
pub open spec fn strictly_sorted(s: Seq<Seq<char>>) -> bool {
    forall|i: int, j: int| 0 <= i < j < s.len() ==> seq_lt(#[trigger] s[i], #[trigger] s[j])
}

/// Two strictly sorted lists that hold the same entries are the same list.
pub proof fn lemma_strictly_sorted_unique(a: Seq<Seq<char>>, b: Seq<Seq<char>>)
    requires
        strictly_sorted(a),
        strictly_sorted(b),
        a.to_set() == b.to_set(),
    ensures
        a == b,
    decreases a.len(),
{
    if a.len() == 0 {
        if b.len() > 0 {
            assert(b.to_set().contains(b[0]));
            assert(!a.to_set().contains(b[0]));
        }
        assert(a =~= b);
    } else if b.len() == 0 {
        assert(a.to_set().contains(a[0]));
        assert(!b.to_set().contains(a[0]));
    } else {
        // the first entries agree: each is the least entry of the common set
        assert(a.to_set().contains(a[0]));
        assert(b.to_set().contains(b[0]));
        assert(b.contains(a[0]));
        assert(a.contains(b[0]));
        let ia = choose|k: int| 0 <= k < a.len() && a[k] == b[0];
        let ib = choose|k: int| 0 <= k < b.len() && b[k] == a[0];
        if a[0] != b[0] {
            assert(ia > 0);
            assert(ib > 0);
            assert(seq_lt(a[0], a[ia]));
            assert(seq_lt(b[0], b[ib]));
            lemma_seq_lt_total(a[0], b[0]);
        }
        let ta = a.drop_first();
        let tb = b.drop_first();
        assert forall|x: Seq<char>| ta.to_set().contains(x) implies tb.to_set().contains(x) by {
            let k = choose|k: int| 0 <= k < ta.len() && ta[k] == x;
            assert(a[k + 1] == x);
            assert(a.to_set().contains(x));
            assert(b.contains(x));
            let m = choose|m: int| 0 <= m < b.len() && b[m] == x;
            if m == 0 {
                assert(seq_lt(a[0], a[k + 1]));
                lemma_seq_lt_irreflexive(x);
            }
            assert(tb[m - 1] == x);
        }
        assert forall|x: Seq<char>| tb.to_set().contains(x) implies ta.to_set().contains(x) by {
            let k = choose|k: int| 0 <= k < tb.len() && tb[k] == x;
            assert(b[k + 1] == x);
            assert(b.to_set().contains(x));
            assert(a.contains(x));
            let m = choose|m: int| 0 <= m < a.len() && a[m] == x;
            if m == 0 {
                assert(seq_lt(b[0], b[k + 1]));
                lemma_seq_lt_irreflexive(x);
            }
            assert(ta[m - 1] == x);
        }
        assert(ta.to_set() =~= tb.to_set());
        assert(strictly_sorted(ta)) by {
            assert forall|i: int, j: int| 0 <= i < j < ta.len() implies seq_lt(
                #[trigger] ta[i],
                #[trigger] ta[j],
            ) by {
                assert(a[i + 1] == ta[i] && a[j + 1] == ta[j]);
            }
        }
        assert(strictly_sorted(tb)) by {
            assert forall|i: int, j: int| 0 <= i < j < tb.len() implies seq_lt(
                #[trigger] tb[i],
                #[trigger] tb[j],
            ) by {
                assert(b[i + 1] == tb[i] && b[j + 1] == tb[j]);
            }
        }
        lemma_strictly_sorted_unique(ta, tb);
        assert(a =~= seq![a[0]] + ta);
        assert(b =~= seq![b[0]] + tb);
    }
}

/// Inserts `x` into the strictly sorted list `v` unless it is already there;
/// the list stays strictly sorted.
pub fn insert_sorted_unique(v: &mut Vec<String>, x: String)
    requires
        strictly_sorted(old(v).deep_view()),
    ensures
        strictly_sorted(final(v).deep_view()),
        final(v).deep_view().to_set() == old(v).deep_view().to_set().insert(x@),
{
    let ghost old_v = v.deep_view();
    let mut i: usize = 0;
    while i < v.len() && str_less(v[i].as_str(), x.as_str())
        invariant
            i <= v.len(),
            v.deep_view() == old_v,
            strictly_sorted(old_v),
            forall|k: int| 0 <= k < i ==> seq_lt(#[trigger] old_v[k], x@),
        decreases v.len() - i,
    {
        i = i + 1;
    }
    if i < v.len() && v[i] == x {
        assert(v.deep_view()[i as int] == x@);
        assert(v.deep_view().to_set() =~= old_v.to_set().insert(x@));
        return;
    }
    let ghost n = v.len();
    v.insert(i, x);
    let ghost nv = v.deep_view();
    assert(nv =~= old_v.insert(i as int, x@));
    assert(strictly_sorted(nv)) by {
        assert forall|a: int, b: int| 0 <= a < b < nv.len() implies seq_lt(
            #[trigger] nv[a],
            #[trigger] nv[b],
        ) by {
            if i < n {
                // the entry that now follows x is not below it and differs from it
                lemma_seq_lt_total(old_v[i as int], x@);
            }
            if a < i && b == i {
            } else if a < i && b > i {
                if b - 1 > i {
                    lemma_seq_lt_transitive(x@, old_v[i as int], old_v[b - 1]);
                }
                lemma_seq_lt_transitive(old_v[a], x@, old_v[b - 1]);
            } else if a == i && b > i {
                if b - 1 > i {
                    lemma_seq_lt_transitive(x@, old_v[i as int], old_v[b - 1]);
                }
            } else if a > i {
                assert(nv[a] == old_v[a - 1] && nv[b] == old_v[b - 1]);
            }
        }
    }
    assert forall|t: Seq<char>| nv.to_set().contains(t) <==> old_v.to_set().insert(x@).contains(t) by {
        if nv.to_set().contains(t) {
            let k = choose|k: int| 0 <= k < nv.len() && nv[k] == t;
            if k < i {
                assert(old_v[k] == t);
            } else if k > i {
                assert(old_v[k - 1] == t);
            }
        }
        if old_v.to_set().contains(t) {
            let k = choose|k: int| 0 <= k < old_v.len() && old_v[k] == t;
            if k < i {
                assert(nv[k] == t);
            } else {
                assert(nv[k + 1] == t);
            }
        }
        if t == x@ {
            assert(nv[i as int] == t);
        }
    }
    assert(nv.to_set() =~= old_v.to_set().insert(x@));
}


/// The entries that normalizing `values` keeps: each value trimmed, the empty
/// ones dropped.
pub open spec fn trimmed_nonempty(values: Seq<Seq<char>>) -> Set<Seq<char>> {
    Set::new(
        |t: Seq<char>| t.len() > 0 && exists|i: int| 0 <= i < values.len() && trim(#[trigger] values[i]) == t,
    )
}

/// The normalized form of a list of names: the one strictly sorted list that
/// holds exactly the trimmed, non-empty entries.
pub open spec fn normalized_list(values: Seq<Seq<char>>) -> Seq<Seq<char>> {
    choose|s: Seq<Seq<char>>| strictly_sorted(s) && s.to_set() == trimmed_nonempty(values)
}

/// A strictly sorted list holding exactly the trimmed, non-empty entries of
/// `values` is their normalized form.
pub proof fn lemma_normalized_list(values: Seq<Seq<char>>, s: Seq<Seq<char>>)
    requires
        strictly_sorted(s),
        s.to_set() == trimmed_nonempty(values),
    ensures
        normalized_list(values) == s,
{
    let c = normalized_list(values);
    assert(strictly_sorted(c) && c.to_set() == trimmed_nonempty(values));
    lemma_strictly_sorted_unique(c, s);
}

/// A strictly sorted list holding the entries of a strictly sorted list and
/// one more.
proof fn lemma_sorted_insert(s: Seq<Seq<char>>, x: Seq<char>) -> (t: Seq<Seq<char>>)
    requires
        strictly_sorted(s),
    ensures
        strictly_sorted(t),
        t.to_set() == s.to_set().insert(x),
    decreases s.len(),
{
    if s.len() == 0 {
        let t = seq![x];
        assert(t.to_set() =~= s.to_set().insert(x)) by {
            assert(t[0] == x);
        }
        t
    } else if s[0] == x {
        assert(s.to_set().insert(x) =~= s.to_set()) by {
            assert(s.to_set().contains(s[0]));
        }
        s
    } else if seq_lt(x, s[0]) {
        let t = seq![x] + s;
        assert(strictly_sorted(t)) by {
            assert forall|i: int, j: int| 0 <= i < j < t.len() implies seq_lt(#[trigger] t[i], #[trigger] t[j]) by {
                if i == 0 && j > 1 {
                    assert(seq_lt(s[0], s[j - 1]));
                    lemma_seq_lt_transitive(x, s[0], s[j - 1]);
                } else if i > 0 {
                    assert(t[i] == s[i - 1] && t[j] == s[j - 1]);
                }
            }
        }
        assert(t.to_set() =~= s.to_set().insert(x)) by {
            assert forall|y: Seq<char>| t.to_set().contains(y) implies s.to_set().insert(x).contains(y) by {
                let k = choose|k: int| 0 <= k < t.len() && t[k] == y;
                if k > 0 {
                    assert(s[k - 1] == y);
                }
            }
            assert forall|y: Seq<char>| s.to_set().insert(x).contains(y) implies t.to_set().contains(y) by {
                if y == x {
                    assert(t[0] == y);
                } else {
                    let k = choose|k: int| 0 <= k < s.len() && s[k] == y;
                    assert(t[k + 1] == y);
                }
            }
        }
        t
    } else {
        lemma_seq_lt_total(x, s[0]);
        let rest = s.drop_first();
        assert(strictly_sorted(rest)) by {
            assert forall|i: int, j: int| 0 <= i < j < rest.len() implies seq_lt(
                #[trigger] rest[i],
                #[trigger] rest[j],
            ) by {
                assert(rest[i] == s[i + 1] && rest[j] == s[j + 1]);
            }
        }
        let t1 = lemma_sorted_insert(rest, x);
        let t = seq![s[0]] + t1;
        assert forall|y: Seq<char>| #[trigger] t1.to_set().contains(y) implies seq_lt(s[0], y) by {
            if y != x {
                assert(rest.to_set().contains(y));
                let k = choose|k: int| 0 <= k < rest.len() && rest[k] == y;
                assert(s[k + 1] == y);
            }
        }
        assert(strictly_sorted(t)) by {
            assert forall|i: int, j: int| 0 <= i < j < t.len() implies seq_lt(#[trigger] t[i], #[trigger] t[j]) by {
                if i == 0 {
                    assert(t[j] == t1[j - 1]);
                    assert(t1.to_set().contains(t1[j - 1]));
                } else {
                    assert(t[i] == t1[i - 1] && t[j] == t1[j - 1]);
                }
            }
        }
        assert(t.to_set() =~= s.to_set().insert(x)) by {
            assert forall|y: Seq<char>| t.to_set().contains(y) implies s.to_set().insert(x).contains(y) by {
                let k = choose|k: int| 0 <= k < t.len() && t[k] == y;
                if k == 0 {
                    assert(s[0] == y);
                } else {
                    assert(t1.to_set().contains(y));
                    if y != x {
                        assert(rest.to_set().contains(y));
                        let m = choose|m: int| 0 <= m < rest.len() && rest[m] == y;
                        assert(s[m + 1] == y);
                    }
                }
            }
            assert forall|y: Seq<char>| s.to_set().insert(x).contains(y) implies t.to_set().contains(y) by {
                if y == s[0] {
                    assert(t[0] == y);
                } else {
                    if y != x {
                        let k = choose|k: int| 0 <= k < s.len() && s[k] == y;
                        assert(k > 0);
                        assert(rest[k - 1] == y);
                        assert(rest.to_set().contains(y));
                    }
                    assert(t1.to_set().contains(y));
                    let m = choose|m: int| 0 <= m < t1.len() && t1[m] == y;
                    assert(t[m + 1] == y);
                }
            }
        }
        t
    }
}

/// A strictly sorted list of the trimmed, non-empty entries of `values`.
proof fn lemma_normalized_witness(values: Seq<Seq<char>>) -> (w: Seq<Seq<char>>)
    ensures
        strictly_sorted(w),
        w.to_set() == trimmed_nonempty(values),
    decreases values.len(),
{
    if values.len() == 0 {
        let w = Seq::<Seq<char>>::empty();
        assert(trimmed_nonempty(values) =~= w.to_set());
        w
    } else {
        let init = values.drop_last();
        let w0 = lemma_normalized_witness(init);
        let t = trim(values.last());
        assert forall|u: Seq<char>| #[trigger] trimmed_nonempty(init).contains(u) implies trimmed_nonempty(
            values,
        ).contains(u) by {
            let k = choose|k: int| 0 <= k < init.len() && trim(#[trigger] init[k]) == u;
            assert(values[k] == init[k]);
        }
        if t.len() == 0 {
            assert(trimmed_nonempty(values) =~= trimmed_nonempty(init)) by {
                assert forall|u: Seq<char>| #[trigger] trimmed_nonempty(values).contains(u) implies trimmed_nonempty(
                    init,
                ).contains(u) by {
                    let k = choose|k: int| 0 <= k < values.len() && trim(#[trigger] values[k]) == u && u.len() > 0;
                    assert(k < values.len() - 1);
                    assert(init[k] == values[k]);
                }
            }
            w0
        } else {
            let w = lemma_sorted_insert(w0, t);
            assert(trimmed_nonempty(values) =~= trimmed_nonempty(init).insert(t)) by {
                assert(trim(values[values.len() - 1]) == t);
                assert forall|u: Seq<char>| #[trigger] trimmed_nonempty(values).contains(u) implies trimmed_nonempty(
                    init,
                ).insert(t).contains(u) by {
                    let k = choose|k: int| 0 <= k < values.len() && trim(#[trigger] values[k]) == u && u.len() > 0;
                    if k < values.len() - 1 {
                        assert(init[k] == values[k]);
                    }
                }
            }
            w
        }
    }
}

/// The normalized form of `values` is strictly sorted and holds exactly the
/// trimmed, non-empty entries.
pub proof fn lemma_normalized_list_props(values: Seq<Seq<char>>)
    ensures
        strictly_sorted(normalized_list(values)),
        normalized_list(values).to_set() == trimmed_nonempty(values),
{
    let w = lemma_normalized_witness(values);
    lemma_normalized_list(values, w);
}

/// Normalizing a normalized list changes nothing.
pub proof fn lemma_normalized_list_idempotent(values: Seq<Seq<char>>)
    ensures
        normalized_list(normalized_list(values)) == normalized_list(values),
{
    let s = normalized_list(values);
    lemma_normalized_list_props(values);
    assert(trimmed_nonempty(s) =~= s.to_set()) by {
        assert forall|t: Seq<char>| #[trigger] trimmed_nonempty(s).contains(t) implies s.to_set().contains(t) by {
            let i = choose|i: int| 0 <= i < s.len() && trim(#[trigger] s[i]) == t && t.len() > 0;
            assert(s.to_set().contains(s[i]));
            let k = choose|k: int| 0 <= k < values.len() && trim(#[trigger] values[k]) == s[i];
            lemma_trim_idempotent(values[k]);
        }
        assert forall|t: Seq<char>| #[trigger] s.to_set().contains(t) implies trimmed_nonempty(s).contains(t) by {
            let i = choose|i: int| 0 <= i < s.len() && s[i] == t;
            assert(trimmed_nonempty(values).contains(t));
            let k = choose|k: int| 0 <= k < values.len() && trim(#[trigger] values[k]) == t;
            lemma_trim_idempotent(values[k]);
            assert(trim(s[i]) == t);
        }
    }
    lemma_normalized_list(s, s);
}

/// Normalizes a list of names: every entry trimmed, empty entries dropped,
/// duplicates removed, sorted.
pub fn normalize_string_list(values: &mut Vec<String>)
    ensures
        strictly_sorted(final(values).deep_view()),
        final(values).deep_view().to_set() == trimmed_nonempty(old(values).deep_view()),
        final(values).deep_view() == normalized_list(old(values).deep_view()),
{
    let ghost input = values.deep_view();
    let mut out: Vec<String> = Vec::new();
    let mut i: usize = 0;
    while i < values.len()
        invariant
            i <= values.len(),
            values.deep_view() == input,
            strictly_sorted(out.deep_view()),
            out.deep_view().to_set() == Set::new(
                |t: Seq<char>| t.len() > 0 && exists|k: int| 0 <= k < i && trim(#[trigger] input[k]) == t,
            ),
        decreases values.len() - i,
    {
        let t = trim_str(values[i].as_str());
        let ghost before = out.deep_view().to_set();
        if !t.as_str().is_empty() {
            insert_sorted_unique(&mut out, t);
        }
        assert(out.deep_view().to_set() =~= Set::new(
            |u: Seq<char>| u.len() > 0 && exists|k: int| 0 <= k < i + 1 && trim(#[trigger] input[k]) == u,
        )) by {
            assert(input[i as int] == values[i as int]@);
            assert forall|u: Seq<char>| #![auto] out.deep_view().to_set().contains(u) implies (u.len() > 0
                && exists|k: int| 0 <= k < i + 1 && trim(#[trigger] input[k]) == u) by {
                if before.contains(u) {
                    let k = choose|k: int| 0 <= k < i && trim(#[trigger] input[k]) == u;
                    assert(0 <= k < i + 1);
                } else {
                    assert(trim(input[i as int]) == u);
                }
            }
            assert forall|u: Seq<char>| #![auto] (u.len() > 0 && exists|k: int| 0 <= k < i + 1 && trim(
                #[trigger] input[k],
            ) == u) implies out.deep_view().to_set().contains(u) by {
                let k = choose|k: int| 0 <= k < i + 1 && trim(#[trigger] input[k]) == u;
                if k < i {
                    assert(before.contains(u));
                }
            }
        }
        i = i + 1;
    }
    assert(out.deep_view().to_set() =~= trimmed_nonempty(input));
    proof {
        lemma_normalized_list(input, out.deep_view());
    }
    *values = out;
}


/// A vector of characters is its own deep view.
pub proof fn lemma_chars_deep_view(v: Vec<char>)
    ensures
        v.deep_view() == v@,
{
    assert(v.deep_view() =~= v@);
}

/// A string holding the characters of `v`.
pub fn string_from_chars(v: &Vec<char>) -> (r: String)
    ensures
        r@ == v@,
{
    let mut r = String::new();
    let mut i: usize = 0;
    while i < v.len()
        invariant
            i <= v.len(),
            r@ == v@.take(i as int),
        decreases v.len() - i,
    {
        push_char(&mut r, v[i]);
        assert(r@ =~= v@.take(i + 1));
        i = i + 1;
    }
    assert(v@.take(v@.len() as int) =~= v@);
    r
}

/// The characters `v[from..to]`.
pub fn sub_chars(v: &Vec<char>, from: usize, to: usize) -> (r: Vec<char>)
    requires
        from <= to <= v.len(),
    ensures
        r@ == v@.subrange(from as int, to as int),
{
    let mut r: Vec<char> = Vec::new();
    let mut i: usize = from;
    while i < to
        invariant
            from <= i <= to <= v.len(),
            r@ == v@.subrange(from as int, i as int),
        decreases to - i,
    {
        r.push(v[i]);
        assert(r@ =~= v@.subrange(from as int, i + 1));
        i = i + 1;
    }
    r
}

/// `v` with leading and trailing white space removed, as characters.
pub fn trim_chars(v: &Vec<char>) -> (r: Vec<char>)
    ensures
        r@ == trim(v@),
{
    let ghost w = v@;
    let mut i: usize = 0;
    assert(w.skip(0) =~= w);
    while i < v.len() && is_white_space_char(v[i])
        invariant
            i <= v.len(),
            w == v@,
            trim_start(w) == trim_start(w.skip(i as int)),
        decreases v.len() - i,
    {
        assert(w.skip(i as int).drop_first() =~= w.skip(i + 1));
        i = i + 1;
    }
    assert(trim_start(w) == w.subrange(i as int, w.len() as int)) by {
        assert(w.skip(i as int) =~= w.subrange(i as int, w.len() as int));
        if i < v.len() {
            assert(w.skip(i as int)[0] == w[i as int]);
        }
    }
    let mut j: usize = v.len();
    while j > i && is_white_space_char(v[j - 1])
        invariant
            i <= j <= v.len(),
            w == v@,
            trim(w) == trim_end(w.subrange(i as int, j as int)),
        decreases j - i,
    {
        assert(w.subrange(i as int, j as int).drop_last() =~= w.subrange(i as int, j - 1));
        j = j - 1;
    }
    assert(trim_end(w.subrange(i as int, j as int)) == w.subrange(i as int, j as int)) by {
        if j > i {
            assert(w.subrange(i as int, j as int).last() == w[j - 1]);
        }
    }
    sub_chars(v, i, j)
}

/// `suffix` ends `s`.
pub open spec fn ends_with(s: Seq<char>, suffix: Seq<char>) -> bool {
    suffix.len() <= s.len() && s.subrange(s.len() - suffix.len(), s.len() as int) == suffix
}

/// Whether `suffix` ends `s`.
pub fn chars_ends_with(s: &Vec<char>, suffix: &Vec<char>) -> (r: bool)
    ensures
        r == ends_with(s@, suffix@),
{
    if suffix.len() > s.len() {
        return false;
    }
    let off = s.len() - suffix.len();
    let mut i: usize = 0;
    while i < suffix.len()
        invariant
            off + suffix.len() == s.len(),
            i <= suffix.len(),
            forall|k: int| 0 <= k < i ==> s@[off + k] == suffix@[k],
        decreases suffix.len() - i,
    {
        if s[off + i] != suffix[i] {
            assert(s@.subrange(off as int, s@.len() as int)[i as int] != suffix@[i as int]);
            return false;
        }
        i = i + 1;
    }
    assert(s@.subrange(off as int, s@.len() as int) =~= suffix@);
    true
}

/// `prefix` begins `s`.
pub open spec fn starts_with(s: Seq<char>, prefix: Seq<char>) -> bool {
    prefix.len() <= s.len() && s.take(prefix.len() as int) == prefix
}

/// Whether `prefix` begins `s`.
pub fn chars_starts_with(s: &Vec<char>, prefix: &Vec<char>) -> (r: bool)
    ensures
        r == starts_with(s@, prefix@),
{
    if prefix.len() > s.len() {
        return false;
    }
    let mut i: usize = 0;
    while i < prefix.len()
        invariant
            prefix.len() <= s.len(),
            i <= prefix.len(),
            forall|k: int| 0 <= k < i ==> s@[k] == prefix@[k],
        decreases prefix.len() - i,
    {
        if s[i] != prefix[i] {
            assert(s@.take(prefix.len() as int)[i as int] != prefix@[i as int]);
            return false;
        }
        i = i + 1;
    }
    assert(s@.take(prefix.len() as int) =~= prefix@);
    true
}

/// Appends the characters of `t` to `s`.
pub fn append_str(s: &mut String, t: &str)
    ensures
        final(s)@ == old(s)@ + t@,
{
    s.append(t);
}

/// The decimal digits of `n`, most significant first, as `usize::to_string` writes them.
pub open spec fn decimal(n: nat) -> Seq<char>
    decreases n,
{
    let d = ((n % 10) + 48) as u32 as char;
    if n < 10 {
        seq![d]
    } else {
        decimal(n / 10).push(d)
    }
}

/// The decimal digit for `d`, which is below ten.
fn digit_char(d: u128) -> (c: char)
    requires
        d < 10,
    ensures
        c == ((d + 48) as u32 as char),
{
    match d {
        0 => '0',
        1 => '1',
        2 => '2',
        3 => '3',
        4 => '4',
        5 => '5',
        6 => '6',
        7 => '7',
        8 => '8',
        _ => '9',
    }
}

/// The decimal representation of `n`, as `usize::to_string` writes it.
pub fn usize_to_string(n: usize) -> (r: String)
    ensures
        r@ == decimal(n as nat),
{
    u128_to_string(n as u128)
}

/// The decimal representation of `n`, as `u128::to_string` writes it.
pub fn u128_to_string(n: u128) -> (r: String)
    ensures
        r@ == decimal(n as nat),
    decreases n,
{
    if n < 10 {
        let mut s = String::new();
        push_char(&mut s, digit_char(n));
        assert(s@ =~= decimal(n as nat));
        s
    } else {
        let mut s = u128_to_string(n / 10);
        push_char(&mut s, digit_char(n % 10));
        s
    }
}

/// `a` then `b`, as a new string.
pub fn cat2(a: &str, b: &str) -> (r: String)
    ensures
        r@ == a@ + b@,
{
    let mut s = a.to_owned();
    append_str(&mut s, b);
    s
}

/// `a`, `b` then `c`, as a new string.
pub fn cat3(a: &str, b: &str, c: &str) -> (r: String)
    ensures
        r@ == a@ + b@ + c@,
{
    let mut s = a.to_owned();
    append_str(&mut s, b);
    append_str(&mut s, c);
    s
}

/// `a`, `b`, `c` then `d`, as a new string.
pub fn cat4(a: &str, b: &str, c: &str, d: &str) -> (r: String)
    ensures
        r@ == a@ + b@ + c@ + d@,
{
    let mut s = a.to_owned();
    append_str(&mut s, b);
    append_str(&mut s, c);
    append_str(&mut s, d);
    s
}

/// Removes `x` from the strictly sorted list `v`, if it is there; tells
/// whether it was.
pub fn remove_sorted(v: &mut Vec<String>, x: &str) -> (r: bool)
    requires
        strictly_sorted(old(v).deep_view()),
    ensures
        strictly_sorted(final(v).deep_view()),
        r == old(v).deep_view().contains(x@),
        final(v).deep_view().to_set() == old(v).deep_view().to_set().remove(x@),
        !r ==> final(v).deep_view() == old(v).deep_view(),
{
    let ghost old_v = v.deep_view();
    let mut i: usize = 0;
    while i < v.len()
        invariant
            i <= v.len(),
            v.deep_view() == old_v,
            old_v == old(v).deep_view(),
            strictly_sorted(old_v),
            forall|k: int| 0 <= k < i ==> old_v[k] != x@,
        decreases v.len() - i,
    {
        if str_eq(v[i].as_str(), x) {
            let ghost vs = v@;
            v.remove(i);
            let ghost nv = v.deep_view();
            assert(nv =~= old_v.remove(i as int)) by {
                assert forall|k: int| 0 <= k < nv.len() implies nv[k] == old_v.remove(i as int)[k] by {
                    if k < i {
                        assert(v@[k] == vs[k]);
                    } else {
                        assert(v@[k] == vs[k + 1]);
                    }
                }
            }
            assert(strictly_sorted(nv)) by {
                assert forall|a: int, b: int| 0 <= a < b < nv.len() implies seq_lt(#[trigger] nv[a], #[trigger] nv[b]) by {
                    let a0 = if a < i { a } else { a + 1 };
                    let b0 = if b < i { b } else { b + 1 };
                    assert(nv[a] == old_v[a0] && nv[b] == old_v[b0]);
                }
            }
            assert(nv.to_set() =~= old_v.to_set().remove(x@)) by {
                assert forall|t: Seq<char>| nv.to_set().contains(t) <==> old_v.to_set().remove(x@).contains(t) by {
                    if nv.to_set().contains(t) {
                        let k = choose|k: int| 0 <= k < nv.len() && nv[k] == t;
                        let k0 = if k < i { k } else { k + 1 };
                        assert(old_v[k0] == t);
                        if t == x@ {
                            assert(old_v[i as int] == x@);
                            if k0 != i {
                                lemma_seq_lt_irreflexive(x@);
                                if k0 < i {
                                    assert(seq_lt(old_v[k0], old_v[i as int]));
                                } else {
                                    assert(seq_lt(old_v[i as int], old_v[k0]));
                                }
                            }
                        }
                    }
                    if old_v.to_set().remove(x@).contains(t) {
                        let k = choose|k: int| 0 <= k < old_v.len() && old_v[k] == t;
                        assert(k != i);
                        if k < i {
                            assert(nv[k] == t);
                        } else {
                            assert(nv[k - 1] == t);
                        }
                    }
                }
            }
            assert(old_v.contains(x@)) by {
                assert(old_v[i as int] == x@);
            }
            return true;
        }
        i = i + 1;
    }
    assert(old_v.to_set().remove(x@) =~= old_v.to_set());
    false
}

/// The strings of `v`, sorted and without repeats.
pub fn sorted_set_of(v: &Vec<String>) -> (r: Vec<String>)
    ensures
        strictly_sorted(r.deep_view()),
        r.deep_view().to_set() == v.deep_view().to_set(),
{
    let mut out: Vec<String> = Vec::new();
    let mut i: usize = 0;
    assert(out.deep_view().to_set() =~= v.deep_view().take(0).to_set());
    while i < v.len()
        invariant
            i <= v.len(),
            strictly_sorted(out.deep_view()),
            out.deep_view().to_set() == v.deep_view().take(i as int).to_set(),
        decreases v.len() - i,
    {
        insert_sorted_unique(&mut out, v[i].clone());
        assert(v.deep_view().take(i + 1) =~= v.deep_view().take(i as int).push(v[i as int]@));
        assert(v.deep_view().take(i + 1).to_set() =~= v.deep_view().take(i as int).to_set().insert(v[i as int]@)) by {
            let p = v.deep_view().take(i as int);
            let q = v.deep_view().take(i + 1);
            assert forall|t: Seq<char>| q.to_set().contains(t) <==> p.to_set().insert(v[i as int]@).contains(t) by {
                if q.to_set().contains(t) {
                    let k = choose|k: int| 0 <= k < q.len() && q[k] == t;
                    if k < i {
                        assert(p[k] == t);
                    }
                }
                if p.to_set().contains(t) {
                    let k = choose|k: int| 0 <= k < p.len() && p[k] == t;
                    assert(q[k] == t);
                }
                if t == v[i as int]@ {
                    assert(q[i as int] == t);
                }
            }
        }
        i = i + 1;
    }
    assert(v.deep_view().take(i as int) =~= v.deep_view());
    out
}

/// The pieces joined with `sep` between them.
pub open spec fn join_with(parts: Seq<Seq<char>>, sep: Seq<char>) -> Seq<char>
    decreases parts.len(),
{
    if parts.len() == 0 {
        Seq::empty()
    } else if parts.len() == 1 {
        parts[0]
    } else {
        join_with(parts.drop_last(), sep) + sep + parts.last()
    }
}

/// The strings joined with `sep` between them (`[String]::join`).
pub fn join_strings(parts: &Vec<String>, sep: &str) -> (r: String)
    ensures
        r@ == join_with(parts.deep_view(), sep@),
{
    let mut s = String::new();
    let ghost ps = parts.deep_view();
    let mut i: usize = 0;
    assert(ps.take(0) =~= Seq::<Seq<char>>::empty());
    while i < parts.len()
        invariant
            i <= parts.len(),
            ps == parts.deep_view(),
            s@ == join_with(ps.take(i as int), sep@),
        decreases parts.len() - i,
    {
        assert(ps.take(i + 1).drop_last() =~= ps.take(i as int));
        assert(ps[i as int] == parts[i as int]@);
        if i > 0 {
            append_str(&mut s, sep);
        } else {
            assert(ps.take(1) =~= seq![ps[0]]);
            assert(s@ =~= Seq::<char>::empty());
        }
        append_str(&mut s, parts[i].as_str());
        i = i + 1;
    }
    assert(ps.take(i as int) =~= ps);
    s
}

/// How `bool` is written: `true` or `false`.
pub open spec fn bool_text(b: bool) -> Seq<char> {
    if b {
        "true"@
    } else {
        "false"@
    }
}

/// How `bool` is written: `true` or `false`.
pub fn bool_str(b: bool) -> (r: &'static str)
    ensures
        r@ == bool_text(b),
{
    if b {
        "true"
    } else {
        "false"
    }
}

} // verus!
