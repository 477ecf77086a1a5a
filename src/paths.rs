//! Paths as byte strings: their extension and their order.
use vstd::prelude::*;

verus! {

/// The separator between the components of a path.
pub const SEP: u8 = 0x2f;

/// The dot that starts an extension.
pub const DOT: u8 = 0x2e;

/// Position of the last `b` in `p`, or -1 when `p` holds none.
pub open spec fn last_index(p: Seq<u8>, b: u8) -> int
    decreases p.len(),
{
    if p.len() == 0 {
        -1
    } else if p.last() == b {
        p.len() - 1
    } else {
        last_index(p.drop_last(), b)
    }
}

/// The extension of the last component of `p`: what follows its last dot,
/// unless that dot starts the component or the component is `..`.
pub open spec fn extension_of(p: Seq<u8>) -> Option<Seq<u8>> {
    let start = last_index(p, SEP) + 1;
    let dot = last_index(p, DOT);
    if dot <= start || p.subrange(start, p.len() as int) == seq![DOT, DOT] {
        None
    } else {
        Some(p.subrange(dot + 1, p.len() as int))
    }
}

/// ASCII upper-case letters to lower case; every other byte is kept.
pub open spec fn ascii_lower(b: u8) -> u8 {
    if 0x41 <= b <= 0x5a {
        (b + 0x20) as u8
    } else {
        b
    }
}

/// `a` equals the lower-case `lower` once its ASCII letters are lowered.
pub open spec fn eq_lowered(a: Seq<u8>, lower: Seq<u8>) -> bool {
    a.len() == lower.len() && forall|i: int| 0 <= i < a.len() ==> ascii_lower(a[i]) == lower[i]
}

/// The extension of `p`, compared without regard to ASCII case, is `lower`.
pub open spec fn has_extension(p: Seq<u8>, lower: Seq<u8>) -> bool {
    match extension_of(p) {
        Some(e) => eq_lowered(e, lower),
        None => false,
    }
}

/// Where a byte stands in the order of paths: the separator before all
/// others, so that paths compare component by component.
pub open spec fn order_key(b: u8) -> int {
    if b == SEP {
        0
    } else {
        b + 1
    }
}

/// Three-way comparison of two paths: -1, 0 or 1.
pub open spec fn path_cmp(a: Seq<u8>, b: Seq<u8>) -> int
    decreases a.len(),
{
    if a.len() == 0 {
        if b.len() == 0 {
            0
        } else {
            -1
        }
    } else if b.len() == 0 {
        1
    } else if order_key(a[0]) < order_key(b[0]) {
        -1
    } else if order_key(a[0]) > order_key(b[0]) {
        1
    } else {
        path_cmp(a.drop_first(), b.drop_first())
    }
}

/// Swapping the two paths negates their comparison.
pub proof fn lemma_path_cmp_antisymmetric(a: Seq<u8>, b: Seq<u8>)
    ensures
        path_cmp(a, b) == -path_cmp(b, a),
        -1 <= path_cmp(a, b) <= 1,
    decreases a.len(),
{
    if a.len() > 0 && b.len() > 0 && order_key(a[0]) == order_key(b[0]) {
        lemma_path_cmp_antisymmetric(a.drop_first(), b.drop_first());
    }
}

/// Only equal paths compare equal.
pub proof fn lemma_path_cmp_zero(a: Seq<u8>, b: Seq<u8>)
    requires
        path_cmp(a, b) == 0,
    ensures
        a == b,
    decreases a.len(),
{
    if a.len() > 0 && b.len() > 0 {
        lemma_path_cmp_zero(a.drop_first(), b.drop_first());
        assert(a =~= seq![a[0]] + a.drop_first());
        assert(b =~= seq![b[0]] + b.drop_first());
    }
}

/// The order of paths is transitive.
pub proof fn lemma_path_cmp_transitive(a: Seq<u8>, b: Seq<u8>, c: Seq<u8>)
    requires
        path_cmp(a, b) <= 0,
        path_cmp(b, c) <= 0,
    ensures
        path_cmp(a, c) <= 0,
    decreases a.len(),
{
    if a.len() > 0 && b.len() > 0 && c.len() > 0 && order_key(a[0]) == order_key(b[0])
        && order_key(b[0]) == order_key(c[0]) {
        lemma_path_cmp_transitive(a.drop_first(), b.drop_first(), c.drop_first());
    }
}

/// Position of the last `b` in `p`.
fn last_index_of(p: &[u8], b: u8) -> (r: Option<usize>)
    ensures
        r is None <==> last_index(p@, b) == -1,
        r matches Some(k) ==> last_index(p@, b) == k && k < p@.len(),
{
    let mut i: usize = p.len();
    proof {
        assert(p@.subrange(0, i as int) =~= p@);
    }
    while i > 0
        invariant
            i <= p@.len(),
            last_index(p@.subrange(0, i as int), b) == last_index(p@, b),
        decreases i,
    {
        let ghost pre = p@.subrange(0, i as int);
        if p[i - 1] == b {
            return Some(i - 1);
        }
        proof {
            assert(pre.drop_last() =~= p@.subrange(0, i - 1));
        }
        i = i - 1;
    }
    None
}

/// Where the extension of `p` starts, just after its dot; `None` when `p`
/// has no extension.
pub fn extension_start(p: &[u8]) -> (r: Option<usize>)
    ensures
        r is None <==> extension_of(p@) is None,
        r matches Some(k) ==> k <= p@.len() && extension_of(p@) == Some(
            p@.subrange(k as int, p@.len() as int),
        ),
{
    let n = p.len();
    let start: usize = match last_index_of(p, SEP) {
        Some(s) => s + 1,
        None => 0,
    };
    let dot: usize = match last_index_of(p, DOT) {
        Some(d) => d,
        None => {
            return None;
        },
    };
    if dot <= start {
        return None;
    }
    let ghost name = p@.subrange(start as int, p@.len() as int);
    if p.len() - start == 2 && p[start] == DOT && p[start + 1] == DOT {
        assert(name =~= seq![DOT, DOT]);
        return None;
    }
    assert(name != seq![DOT, DOT]) by {
        assert(seq![DOT, DOT].len() == 2);
        if name.len() == 2 {
            assert(name[0] == p@[start as int]);
            assert(name[1] == p@[start + 1]);
            assert(seq![DOT, DOT][0] == DOT && seq![DOT, DOT][1] == DOT);
        }
    }
    Some(dot + 1)
}

/// Lowers one ASCII letter.
fn lower_byte(b: u8) -> (r: u8)
    ensures
        r == ascii_lower(b),
{
    if 0x41 <= b && b <= 0x5a {
        b + 0x20
    } else {
        b
    }
}

/// Whether the extension of `p` is `lower` without regard to ASCII case.
pub fn extension_is(p: &[u8], lower: &[u8]) -> (r: bool)
    ensures
        r == has_extension(p@, lower@),
{
    let k = match extension_start(p) {
        Some(k) => k,
        None => {
            return false;
        },
    };
    let ghost e = p@.subrange(k as int, p@.len() as int);
    let n = p.len();
    if n - k != lower.len() {
        return false;
    }
    let mut i: usize = 0;
    while i < lower.len()
        invariant
            k <= p@.len(),
            e == p@.subrange(k as int, p@.len() as int),
            e.len() == lower@.len(),
            p@.len() == k + e.len(),
            n == p@.len(),
            extension_of(p@) == Some(e),
            i <= lower@.len(),
            forall|j: int| 0 <= j < i ==> ascii_lower(e[j]) == lower@[j],
        decreases lower@.len() - i,
    {
        if lower_byte(p[k + i]) != lower[i] {
            assert(e[i as int] == p@[k + i]);
            assert(ascii_lower(e[i as int]) != lower@[i as int]);
            return false;
        }
        assert(e[i as int] == p@[k + i]);
        i = i + 1;
    }
    true
}

/// Compares two paths component by component, bytes within a component in
/// ascending order.
pub fn compare_paths(a: &[u8], b: &[u8]) -> (r: i8)
    ensures
        r as int == path_cmp(a@, b@),
{
    let mut i: usize = 0;
    assert(a@.subrange(0, a@.len() as int) =~= a@);
    assert(b@.subrange(0, b@.len() as int) =~= b@);
    while i < a.len() && i < b.len()
        invariant
            i <= a@.len(),
            i <= b@.len(),
            path_cmp(a@.subrange(i as int, a@.len() as int), b@.subrange(i as int, b@.len() as int))
                == path_cmp(a@, b@),
        decreases a@.len() - i,
    {
        let ghost sa = a@.subrange(i as int, a@.len() as int);
        let ghost sb = b@.subrange(i as int, b@.len() as int);
        assert(sa[0] == a@[i as int]);
        assert(sb[0] == b@[i as int]);
        let ka: u16 = if a[i] == SEP {
            0
        } else {
            a[i] as u16 + 1
        };
        let kb: u16 = if b[i] == SEP {
            0
        } else {
            b[i] as u16 + 1
        };
        if ka < kb {
            return -1;
        }
        if ka > kb {
            return 1;
        }
        assert(sa.drop_first() =~= a@.subrange(i + 1, a@.len() as int));
        assert(sb.drop_first() =~= b@.subrange(i + 1, b@.len() as int));
        i = i + 1;
    }
    if i < a.len() {
        1
    } else if i < b.len() {
        -1
    } else {
        0
    }
}

} // verus!
