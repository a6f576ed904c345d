//! Text helpers: characters of a string, lexicographic order, sorting and
//! deduplicating names, decimal rendering and joining.

use vstd::prelude::*;

verus! {

broadcast use vstd::string::group_string_axioms;

/// The characters of `s`.
pub fn chars_of(s: &str) -> (v: Vec<char>)
    ensures
        v@ == s@,
{
    let mut v: Vec<char> = Vec::new();
    for c in it: s.chars()
        invariant
            v@ == it.seq().take(it.index() as int),
            it.seq() == s@,
    {
        v.push(c);
    }
    v
}

/// Code-point lexicographic order from position `i` on: whether `a[i..]`
/// comes strictly before `b[i..]`.
pub open spec fn lex_lt_from(a: Seq<char>, b: Seq<char>, i: nat) -> bool
    decreases a.len() - i,
{
    if i >= a.len() {
        i < b.len()
    } else if i >= b.len() {
        false
    } else if (a[i as int] as int) < (b[i as int] as int) {
        true
    } else if (a[i as int] as int) > (b[i as int] as int) {
        false
    } else {
        lex_lt_from(a, b, i + 1)
    }
}

/// Code-point lexicographic order, the order of Rust's `Ord` on strings
/// and of SQLite's `BINARY` collation on UTF-8 text: `a` comes strictly
/// before `b`.
pub open spec fn lex_lt(a: Seq<char>, b: Seq<char>) -> bool {
    lex_lt_from(a, b, 0)
}

proof fn lemma_lex_irreflexive_from(a: Seq<char>, i: nat)
    ensures
        !lex_lt_from(a, a, i),
    decreases a.len() - i,
{
    if i < a.len() {
        lemma_lex_irreflexive_from(a, i + 1);
    }
}

proof fn lemma_lex_total_from(a: Seq<char>, b: Seq<char>, i: nat)
    requires
        i <= a.len(),
        i <= b.len(),
        a.subrange(0, i as int) == b.subrange(0, i as int),
        a != b,
    ensures
        lex_lt_from(a, b, i) || lex_lt_from(b, a, i),
    decreases a.len() - i,
{
    if i < a.len() && i < b.len() && a[i as int] == b[i as int] {
        assert(a.subrange(0, (i + 1) as int) == a.subrange(0, i as int).push(a[i as int]));
        assert(b.subrange(0, (i + 1) as int) == b.subrange(0, i as int).push(b[i as int]));
        lemma_lex_total_from(a, b, i + 1);
    } else if i == a.len() && i == b.len() {
        assert(a == a.subrange(0, i as int));
        assert(b == b.subrange(0, i as int));
    } else if i < a.len() && i < b.len() {
        let x = a[i as int];
        let y = b[i as int];
        assert(x != y);
        assert((x as int) != (y as int));
    }
}

proof fn lemma_lex_trans_from(a: Seq<char>, b: Seq<char>, c: Seq<char>, i: nat)
    requires
        lex_lt_from(a, b, i),
        lex_lt_from(b, c, i),
    ensures
        lex_lt_from(a, c, i),
    decreases a.len() - i,
{
    if i < a.len() && i < b.len() && i < c.len() {
        if (a[i as int] as int) == (b[i as int] as int) && (b[i as int] as int) == (c[i as int] as int) {
            lemma_lex_trans_from(a, b, c, i + 1);
        }
    }
}

proof fn lemma_lex_asym_from(a: Seq<char>, b: Seq<char>, i: nat)
    requires
        lex_lt_from(a, b, i),
    ensures
        !lex_lt_from(b, a, i),
    decreases a.len() - i,
{
    if i < a.len() && i < b.len() && (a[i as int] as int) == (b[i as int] as int) {
        lemma_lex_asym_from(a, b, i + 1);
    }
}

/// `lex_lt` is a strict total order: irreflexive, asymmetric, transitive,
/// and any two different texts are ordered one way or the other.
pub proof fn lemma_lex_order(a: Seq<char>, b: Seq<char>, c: Seq<char>)
    ensures
        !lex_lt(a, a),
        lex_lt(a, b) ==> !lex_lt(b, a),
        lex_lt(a, b) && lex_lt(b, c) ==> lex_lt(a, c),
        a != b ==> lex_lt(a, b) || lex_lt(b, a),
{
    lemma_lex_irreflexive_from(a, 0);
    if lex_lt(a, b) {
        lemma_lex_asym_from(a, b, 0);
    }
    if lex_lt(a, b) && lex_lt(b, c) {
        lemma_lex_trans_from(a, b, c, 0);
    }
    if a != b {
        assert(a.subrange(0, 0) == b.subrange(0, 0));
        lemma_lex_total_from(a, b, 0);
    }
}

/// Whether `a` comes strictly before `b` in code-point lexicographic order.
pub fn lex_less(a: &Vec<char>, b: &Vec<char>) -> (r: bool)
    ensures
        r == lex_lt(a@, b@),
{
    let mut i: usize = 0;
    while i < a.len() && i < b.len()
        invariant
            i <= a.len(),
            i <= b.len(),
            lex_lt(a@, b@) == lex_lt_from(a@, b@, i as nat),
        decreases a.len() - i,
    {
        let x = a[i];
        let y = b[i];
        if x < y {
            return true;
        }
        if x > y {
            return false;
        }
        i = i + 1;
    }
    i == a.len() && i < b.len()
}


/// Membership after inserting into a sequence.
pub proof fn lemma_contains_insert<A>(s: Seq<A>, j: int, e: A)
    requires
        0 <= j <= s.len(),
    ensures
        forall|y: A| #[trigger] s.insert(j, e).contains(y) <==> (s.contains(y) || y == e),
{
    let t = s.insert(j, e);
    assert forall|y: A| #[trigger] t.contains(y) <==> (s.contains(y) || y == e) by {
        if s.contains(y) {
            let k = choose|k: int| 0 <= k < s.len() && s[k] == y;
            if k < j {
                assert(t[k] == y);
            } else {
                assert(t[k + 1] == y);
            }
        }
        if y == e {
            assert(t[j] == y);
        }
        if t.contains(y) {
            let k = choose|k: int| 0 <= k < t.len() && t[k] == y;
            if k < j {
                assert(s[k] == y);
            } else if k > j {
                assert(s[k - 1] == y);
            }
        }
    }
}

/// Membership after pushing onto a sequence.
pub proof fn lemma_contains_push<A>(s: Seq<A>, e: A)
    ensures
        forall|y: A| #[trigger] s.push(e).contains(y) <==> (s.contains(y) || y == e),
{
    assert(s.push(e) =~= s.insert(s.len() as int, e));
    lemma_contains_insert(s, s.len() as int, e);
}

/// The texts of a sequence of strings.
pub open spec fn views(v: Seq<String>) -> Seq<Seq<char>> {
    v.map_values(|s: String| s@)
}

/// Each text comes strictly before every later one.
pub open spec fn strictly_ascending(s: Seq<Seq<char>>) -> bool {
    forall|i: int, j: int| 0 <= i < j < s.len() ==> lex_lt(#[trigger] s[i], #[trigger] s[j])
}

/// The distinct texts of `v`, in ascending code-point order.
pub fn sorted_distinct(v: &Vec<String>) -> (r: Vec<String>)
    ensures
        strictly_ascending(views(r@)),
        forall|x: Seq<char>| views(r@).contains(x) <==> views(v@).contains(x),
{
    let mut r: Vec<String> = Vec::new();
    let mut rc: Vec<Vec<char>> = Vec::new();
    for i in 0..v.len()
        invariant
            r.len() == rc.len(),
            forall|k: int| 0 <= k < rc.len() ==> (#[trigger] rc@[k])@ == r@[k]@,
            strictly_ascending(views(r@)),
            forall|x: Seq<char>| views(r@).contains(x) <==> views(v@.take(i as int)).contains(x),
    {
        let ghost old_r = r@;
        let x = chars_of(v[i].as_str());
        let mut j: usize = 0;
        while j < rc.len() && lex_less(&rc[j], &x)
            invariant
                j <= rc.len(),
                r.len() == rc.len(),
                forall|k: int| 0 <= k < rc.len() ==> (#[trigger] rc@[k])@ == r@[k]@,
                forall|k: int| 0 <= k < j ==> lex_lt(#[trigger] r@[k]@, x@),
            decreases rc.len() - j,
        {
            j = j + 1;
        }
        assert(views(v@.take(i + 1)) =~= views(v@.take(i as int)).push(v@[i as int]@));
        if j < r.len() && r[j] == v[i] {
            proof {
                assert(views(r@)[j as int] == x@);
                lemma_contains_push(views(v@.take(i as int)), x@);
            }
        } else {
            assert forall|k: int| 0 <= k < j implies lex_lt(#[trigger] views(old_r)[k], x@) by {
                assert(views(old_r)[k] == r@[k]@);
            }
            assert forall|k: int| j <= k < old_r.len() implies lex_lt(x@, #[trigger] views(old_r)[k]) by {
                assert(views(old_r)[k] == r@[k]@);
                assert(views(old_r)[j as int] == r@[j as int]@);
                lemma_lex_order(r@[j as int]@, x@, r@[k]@);
                lemma_lex_order(x@, r@[j as int]@, r@[k]@);
            }
            r.insert(j, v[i].clone());
            rc.insert(j, x);
            assert(views(r@) =~= views(old_r).insert(j as int, v@[i as int]@));
            assert forall|k: int| 0 <= k < rc.len() implies (#[trigger] rc@[k])@ == r@[k]@ by {
                assert(views(r@)[k] == r@[k]@);
                if k < j {
                    assert(views(old_r)[k] == r@[k]@);
                } else if k > j {
                    assert(views(old_r)[k - 1] == r@[k]@);
                }
            }
            assert forall|a: int, b: int| 0 <= a < b < views(r@).len() implies lex_lt(
                #[trigger] views(r@)[a],
                #[trigger] views(r@)[b],
            ) by {
                if a < j && b > j {
                    lemma_lex_order(views(old_r)[a], x@, views(old_r)[b - 1]);
                } else if a < j && b < j {
                } else if a > j {
                    assert(views(old_r)[a - 1] == views(r@)[a]);
                    assert(views(old_r)[b - 1] == views(r@)[b]);
                } else if a == j {
                    assert(views(old_r)[b - 1] == views(r@)[b]);
                }
            }
            proof {
                lemma_contains_insert(views(old_r), j as int, x@);
                lemma_contains_push(views(v@.take(i as int)), x@);
            }
        }
    }
    assert(v@.take(v.len() as int) =~= v@);
    r
}

/// The decimal digit for `d` in `0..10`.
pub open spec fn digit_char(d: int) -> char {
    seq!['0', '1', '2', '3', '4', '5', '6', '7', '8', '9'][d]
}

/// The decimal rendering of `n`, without sign or leading zeros.
pub open spec fn decimal(n: nat) -> Seq<char>
    decreases n,
{
    if n < 10 {
        seq![digit_char(n as int)]
    } else {
        decimal(n / 10).push(digit_char((n % 10) as int))
    }
}

fn digit_str(d: u64) -> (s: &'static str)
    requires
        d < 10,
    ensures
        s@ == seq![digit_char(d as int)],
{
    match d {
        0 => {
            proof {
                reveal_strlit("0");
            }
            "0"
        },
        1 => {
            proof {
                reveal_strlit("1");
            }
            "1"
        },
        2 => {
            proof {
                reveal_strlit("2");
            }
            "2"
        },
        3 => {
            proof {
                reveal_strlit("3");
            }
            "3"
        },
        4 => {
            proof {
                reveal_strlit("4");
            }
            "4"
        },
        5 => {
            proof {
                reveal_strlit("5");
            }
            "5"
        },
        6 => {
            proof {
                reveal_strlit("6");
            }
            "6"
        },
        7 => {
            proof {
                reveal_strlit("7");
            }
            "7"
        },
        8 => {
            proof {
                reveal_strlit("8");
            }
            "8"
        },
        _ => {
            proof {
                reveal_strlit("9");
            }
            "9"
        },
    }
}

/// `n` in decimal, as Rust's `Display` writes it.
pub fn u64_to_decimal(n: u64) -> (s: String)
    ensures
        s@ == decimal(n as nat),
    decreases n,
{
    if n < 10 {
        String::from_str(digit_str(n))
    } else {
        let mut s = u64_to_decimal(n / 10);
        s.append(digit_str(n % 10));
        s
    }
}

/// The texts of `list` joined with `sep` between neighbours.
pub open spec fn seq_join(list: Seq<Seq<char>>, sep: Seq<char>) -> Seq<char>
    decreases list.len(),
{
    if list.len() == 0 {
        Seq::empty()
    } else if list.len() == 1 {
        list[0]
    } else {
        seq_join(list.drop_last(), sep) + sep + list.last()
    }
}

/// Joins `list` with `sep`, like `[String]::join`.
pub fn join(list: &Vec<String>, sep: &str) -> (r: String)
    ensures
        r@ == seq_join(views(list@), sep@),
{
    let mut r = String::new();
    let ghost all = views(list@);
    for i in 0..list.len()
        invariant
            all == views(list@),
            r@ == seq_join(all.take(i as int), sep@),
    {
        assert(all.take(i + 1).drop_last() =~= all.take(i as int));
        assert(all.take(i + 1).last() == list@[i as int]@);
        if i != 0 {
            r.append(sep);
        } else {
            assert(all.take(0) =~= Seq::<Seq<char>>::empty());
        }
        r.append(list[i].as_str());
    }
    assert(all.take(list.len() as int) =~= all);
    r
}

/// The concatenation of two texts.
pub fn cat(a: &str, b: &str) -> (r: String)
    ensures
        r@ == a@ + b@,
{
    String::from_str(a).concat(b)
}

} // verus!
