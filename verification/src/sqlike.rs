//! SQLite's `LIKE` operator: `%` matches any run of characters, `_` any one
//! character, and ASCII letters match without regard to case.

use vstd::prelude::*;
use crate::text::chars_of;

verus! {

/// The code of `c` with ASCII upper-case letters folded to lower case.
pub open spec fn fold_code(c: char) -> int {
    let x = c as int;
    if 65 <= x <= 90 {
        x + 32
    } else {
        x
    }
}

/// Whether pattern character `p` matches text character `t`.
pub open spec fn like_char(p: char, t: char) -> bool {
    p == '_' || fold_code(p) == fold_code(t)
}

/// Whether `pattern[i..]` matches `text[j..]`.
pub open spec fn like_from(pattern: Seq<char>, text: Seq<char>, i: nat, j: nat) -> bool
    decreases (pattern.len() - i) + (text.len() - j),
    when i <= pattern.len() && j <= text.len()
{
    if i == pattern.len() {
        j == text.len()
    } else if pattern[i as int] == '%' {
        like_from(pattern, text, i + 1, j) || (j < text.len() && like_from(pattern, text, i, j + 1))
    } else {
        j < text.len() && like_char(pattern[i as int], text[j as int]) && like_from(
            pattern,
            text,
            i + 1,
            j + 1,
        )
    }
}

/// Whether `text LIKE pattern` holds in SQLite (no `ESCAPE` clause).
pub open spec fn like(pattern: Seq<char>, text: Seq<char>) -> bool {
    like_from(pattern, text, 0, 0)
}

fn fold(c: char) -> (r: u32)
    ensures
        r as int == fold_code(c),
{
    let x = c as u32;
    if 65 <= x && x <= 90 {
        x + 32
    } else {
        x
    }
}

/// Whether `text LIKE pattern` holds, by dynamic programming over the
/// suffixes of pattern and text.
pub fn like_match(pattern: &str, text: &str) -> (r: bool)
    ensures
        r == like(pattern@, text@),
{
    let p = chars_of(pattern);
    let t = chars_of(text);
    let n = t.len();
    // next[j] == like_from(p, t, i + 1, j)
    let mut next: Vec<bool> = Vec::new();
    let mut j: usize = 0;
    while j < n
        invariant
            n == t.len(),
            j <= n,
            next.len() == j,
            forall|k: int| 0 <= k < j ==> next@[k] == (k == n),
        decreases n - j,
    {
        next.push(false);
        j = j + 1;
    }
    next.push(true);
    assert forall|k: int| 0 <= k <= n implies next@[k] == like_from(p@, t@, p.len() as nat, k as nat) by {}
    let mut i: usize = p.len();
    while i > 0
        invariant
            n == t.len(),
            i <= p.len(),
            next.len() == n + 1,
            forall|k: int| 0 <= k <= n ==> #[trigger] next@[k] == like_from(p@, t@, i as nat, k as nat),
        decreases i,
    {
        let ii = i - 1;
        let pc = p[ii];
        let mut cur: Vec<bool> = Vec::new();
        let mut k: usize = 0;
        while k < n
            invariant
                k <= n,
                cur.len() == k,
            decreases n - k,
        {
            cur.push(false);
            k = k + 1;
        }
        cur.push(pc == '%' && next[n]);
        let mut jj: usize = n;
        while jj > 0
            invariant
                n == t.len(),
                ii < p.len(),
                pc == p@[ii as int],
                jj <= n,
                cur.len() == n + 1,
                next.len() == n + 1,
                forall|k: int| 0 <= k <= n ==> #[trigger] next@[k] == like_from(p@, t@, ii as nat + 1, k as nat),
                forall|k: int| jj <= k <= n ==> #[trigger] cur@[k] == like_from(p@, t@, ii as nat, k as nat),
            decreases jj,
        {
            let j = jj - 1;
            let v = if pc == '%' {
                next[j] || (j < n && cur[j + 1])
            } else {
                j < n && (pc == '_' || fold(pc) == fold(t[j])) && next[j + 1]
            };
            cur.set(j, v);
            jj = j;
        }
        next = cur;
        i = ii;
    }
    next[0]
}

} // verus!
