//! Plant names are compared as the database compares `UPPER(a) = UPPER(b)`:
//! ASCII letters without regard to case, every other character exactly.

use vstd::prelude::*;

verus! {

/// The code of a character after ASCII upper-casing: `a`..`z` become
/// `A`..`Z`, every other character keeps its code.
pub open spec fn upper_code(c: char) -> u32 {
    if 97 <= (c as u32) && (c as u32) <= 122 {
        ((c as u32) - 32) as u32
    } else {
        c as u32
    }
}

/// A name with its ASCII letters upper-cased, as a sequence of codes.
pub open spec fn upper(s: Seq<char>) -> Seq<u32> {
    s.map_values(|c: char| upper_code(c))
}

/// Two names denote the same plant when they agree after upper-casing.
pub open spec fn same_name(a: Seq<char>, b: Seq<char>) -> bool {
    upper(a) == upper(b)
}

/// The characters are equal, or are the same ASCII letter, one in lower
/// case (`a`..`z`) and one in upper case (`A`..`Z`, 32 codes lower).
pub open spec fn same_up_to_ascii_case(x: char, y: char) -> bool {
    ||| x == y
    ||| 65 <= (y as u32) && (y as u32) <= 90 && (x as u32) == (y as u32) + 32
    ||| 65 <= (x as u32) && (x as u32) <= 90 && (y as u32) == (x as u32) + 32
}

/// Two characters agree after upper-casing exactly when they are equal or
/// are one ASCII letter in its two cases.
pub proof fn lemma_upper_code_agrees(x: char, y: char)
    ensures
        upper_code(x) == upper_code(y) <==> same_up_to_ascii_case(x, y),
{
    if (x as u32) == (y as u32) {
        assert(x == y);
    }
}

/// Names match exactly when they have the same length and agree character
/// by character, an ASCII letter matching itself in either case and every
/// other character only itself.
pub proof fn lemma_same_name_characterised(a: Seq<char>, b: Seq<char>)
    ensures
        same_name(a, b) <==> {
            &&& a.len() == b.len()
            &&& forall|i: int| 0 <= i < a.len() ==> same_up_to_ascii_case(#[trigger] a[i], b[i])
        },
{
    if same_name(a, b) {
        assert(upper(a).len() == upper(b).len());
        assert forall|i: int| 0 <= i < a.len() implies same_up_to_ascii_case(#[trigger] a[i], b[i]) by {
            assert(upper(a)[i] == upper(b)[i]);
            lemma_upper_code_agrees(a[i], b[i]);
        }
    }
    if a.len() == b.len() && forall|i: int| 0 <= i < a.len() ==> same_up_to_ascii_case(#[trigger] a[i], b[i]) {
        assert forall|i: int| 0 <= i < a.len() implies upper(a)[i] == upper(b)[i] by {
            lemma_upper_code_agrees(a[i], b[i]);
        }
        assert(upper(a) =~= upper(b));
    }
}

fn upper_code_of(c: char) -> (code: u32)
    ensures
        code == upper_code(c),
{
    let n: u32 = c as u32;
    if 97 <= n && n <= 122 {
        n - 32
    } else {
        n
    }
}

/// The characters of a string, in order.
pub fn chars_of(s: &str) -> (v: Vec<char>)
    ensures
        v@ == s@,
{
    let mut v: Vec<char> = Vec::new();
    for c in it: s.chars()
        invariant
            v@ == it.seq().take(it.index() as int),
    {
        v.push(c);
    }
    v
}

/// Whether two names agree when their ASCII letters are upper-cased.
pub fn names_match(a: &str, b: &str) -> (r: bool)
    ensures
        r == same_name(a@, b@),
{
    let va = chars_of(a);
    let vb = chars_of(b);
    if va.len() != vb.len() {
        assert(upper(a@).len() != upper(b@).len());
        return false;
    }
    let n = va.len();
    let mut i: usize = 0;
    while i < n
        invariant
            n == va.len(),
            n == vb.len(),
            va@ == a@,
            vb@ == b@,
            i <= n,
            forall|j: int| 0 <= j < i ==> upper_code(#[trigger] va@[j]) == upper_code(vb@[j]),
        decreases n - i,
    {
        if upper_code_of(va[i]) != upper_code_of(vb[i]) {
            assert(upper(a@)[i as int] != upper(b@)[i as int]);
            return false;
        }
        i = i + 1;
    }
    assert(upper(a@) =~= upper(b@));
    true
}

} // verus!
