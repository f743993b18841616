//! The byte-wise order in which `String`s compare, and a stable sort of names by it.
use vstd::prelude::*;
use vstd::string::*;
use vstd::utf8::encode_utf8;

verus! {

/// Lexicographic order on byte strings (a proper prefix comes first).
pub open spec fn bytes_le(a: Seq<u8>, b: Seq<u8>) -> bool
    decreases a.len(),
{
    if a.len() == 0 {
        true
    } else if b.len() == 0 {
        false
    } else if a[0] != b[0] {
        a[0] < b[0]
    } else {
        bytes_le(a.drop_first(), b.drop_first())
    }
}

/// The order of `String`s: byte-wise on their UTF-8 encodings.
pub open spec fn name_le(a: Seq<char>, b: Seq<char>) -> bool {
    bytes_le(encode_utf8(a), encode_utf8(b))
}

pub proof fn lemma_bytes_le_reflexive(a: Seq<u8>)
    ensures
        bytes_le(a, a),
    decreases a.len(),
{
    if a.len() > 0 {
        lemma_bytes_le_reflexive(a.drop_first());
    }
}

pub proof fn lemma_bytes_le_total(a: Seq<u8>, b: Seq<u8>)
    ensures
        bytes_le(a, b) || bytes_le(b, a),
    decreases a.len(),
{
    if a.len() > 0 && b.len() > 0 && a[0] == b[0] {
        lemma_bytes_le_total(a.drop_first(), b.drop_first());
    }
}

pub proof fn lemma_bytes_le_transitive(a: Seq<u8>, b: Seq<u8>, c: Seq<u8>)
    requires
        bytes_le(a, b),
        bytes_le(b, c),
    ensures
        bytes_le(a, c),
    decreases a.len(),
{
    if a.len() > 0 && b.len() > 0 && c.len() > 0 && a[0] == b[0] && b[0] == c[0] {
        lemma_bytes_le_transitive(a.drop_first(), b.drop_first(), c.drop_first());
    }
}

/// `name_le` is a total preorder.
pub proof fn lemma_name_le_laws()
    ensures
        forall|a: Seq<char>| #[trigger] name_le(a, a),
        forall|a: Seq<char>, b: Seq<char>| #![trigger name_le(a, b)] name_le(a, b) || name_le(b, a),
        forall|a: Seq<char>, b: Seq<char>, c: Seq<char>|
            #![trigger name_le(a, b), name_le(b, c)]
            name_le(a, b) && name_le(b, c) ==> name_le(a, c),
{
    assert forall|a: Seq<char>| #[trigger] name_le(a, a) by {
        lemma_bytes_le_reflexive(encode_utf8(a));
    }
    assert forall|a: Seq<char>, b: Seq<char>| #![trigger name_le(a, b)] name_le(a, b) || name_le(b, a) by {
        lemma_bytes_le_total(encode_utf8(a), encode_utf8(b));
    }
    assert forall|a: Seq<char>, b: Seq<char>, c: Seq<char>|
        #![trigger name_le(a, b), name_le(b, c)]
        name_le(a, b) && name_le(b, c) implies name_le(a, c) by {
        lemma_bytes_le_transitive(encode_utf8(a), encode_utf8(b), encode_utf8(c));
    }
}

proof fn lemma_bytes_le_skip(a: Seq<u8>, b: Seq<u8>, i: int)
    requires
        0 <= i <= a.len(),
        i <= b.len(),
        a.take(i) == b.take(i),
    ensures
        bytes_le(a, b) == bytes_le(a.skip(i), b.skip(i)),
    decreases i,
{
    if i > 0 {
        assert(a[0] == a.take(i)[0]);
        assert(b[0] == b.take(i)[0]);
        assert(a.drop_first().take(i - 1) =~= a.take(i).drop_first());
        assert(b.drop_first().take(i - 1) =~= b.take(i).drop_first());
        lemma_bytes_le_skip(a.drop_first(), b.drop_first(), i - 1);
        assert(a.drop_first().skip(i - 1) =~= a.skip(i));
        assert(b.drop_first().skip(i - 1) =~= b.skip(i));
    } else {
        assert(a.skip(0) =~= a);
        assert(b.skip(0) =~= b);
    }
}

/// Whether `a` comes no later than `b` in byte-wise order.
pub fn bytes_le_exec(a: &[u8], b: &[u8]) -> (r: bool)
    ensures
        r == bytes_le(a@, b@),
{
    let mut i: usize = 0;
    while i < a.len() && i < b.len() && a[i] == b[i]
        invariant
            i <= a@.len(),
            i <= b@.len(),
            a@.take(i as int) == b@.take(i as int),
        decreases a.len() - i,
    {
        assert(a@.take(i + 1) =~= a@.take(i as int).push(a@[i as int]));
        assert(b@.take(i + 1) =~= b@.take(i as int).push(b@[i as int]));
        i = i + 1;
    }
    proof {
        lemma_bytes_le_skip(a@, b@, i as int);
    }
    if i == a.len() {
        true
    } else if i == b.len() {
        false
    } else {
        a[i] < b[i]
    }
}

/// Whether `a` sorts no later than `b` as `String`s do.
pub fn name_le_exec(a: &String, b: &String) -> (r: bool)
    ensures
        r == name_le(a@, b@),
{
    bytes_le_exec(a.as_str().as_bytes(), b.as_str().as_bytes())
}

/// `order` lists `0..n` once each, sorting `names` by `name_le`, and keeps equal names in
/// their input order.
pub open spec fn stable_order(names: Seq<Seq<char>>, order: Seq<int>) -> bool {
    &&& order.len() == names.len()
    &&& forall|k: int| 0 <= k < order.len() ==> 0 <= #[trigger] order[k] < names.len()
    &&& forall|k: int, l: int| 0 <= k < l < order.len() ==> order[k] != order[l]
    &&& forall|k: int, l: int|
        0 <= k < l < order.len() ==> name_le(names[#[trigger] order[k]], names[#[trigger] order[l]])
    &&& forall|k: int, l: int|
        0 <= k < l < order.len() && names[#[trigger] order[k]] == names[#[trigger] order[l]]
            ==> order[k] < order[l]
}

pub open spec fn as_ints(v: Seq<usize>) -> Seq<int> {
    v.map_values(|x: usize| x as int)
}

/// The positions of `names` in stable sorted order.
pub fn stable_sort_order(names: &Vec<String>) -> (order: Vec<usize>)
    ensures
        stable_order(names.deep_view(), as_ints(order@)),
{
    let ghost nv = names.deep_view();
    proof {
        lemma_name_le_laws();
    }
    let mut order: Vec<usize> = Vec::new();
    let mut i: usize = 0;
    while i < names.len()
        invariant
            nv == names.deep_view(),
            i <= names@.len(),
            stable_order(nv.take(i as int), as_ints(order@)),
            forall|a: Seq<char>| #[trigger] name_le(a, a),
            forall|a: Seq<char>, b: Seq<char>| #![trigger name_le(a, b)] name_le(a, b) || name_le(b, a),
            forall|a: Seq<char>, b: Seq<char>, c: Seq<char>|
                #![trigger name_le(a, b), name_le(b, c)]
                name_le(a, b) && name_le(b, c) ==> name_le(a, c),
        decreases names.len() - i,
    {
        let ghost pre = as_ints(order@);
        let ghost ni = nv.take(i as int);
        let ghost x = nv[i as int];
        assert forall|k: int| 0 <= k < order@.len() implies (#[trigger] order@[k]) < i by {
            assert(pre[k] == order@[k] as int);
        }
        let mut p: usize = order.len();
        while p > 0 && !name_le_exec(&names[order[p - 1]], &names[i])
            invariant
                nv == names.deep_view(),
                i < names@.len(),
                p <= order@.len(),
                order@.len() == i,
                pre == as_ints(order@),
                stable_order(ni, pre),
                ni == nv.take(i as int),
                x == nv[i as int],
                forall|j: int| p <= j < order@.len() ==> !name_le(nv[pre[j]], x),
                forall|k: int| 0 <= k < order@.len() ==> (#[trigger] order@[k]) < i,
            decreases p,
        {
            p = p - 1;
        }
        proof {
            assert forall|k: int| 0 <= k < pre.len() implies #[trigger] ni[pre[k]] == nv[pre[k]] by {}
            if p > 0 {
                assert(name_le(nv[pre[p - 1]], x));
            }
            assert forall|k: int| 0 <= k < p implies name_le(nv[#[trigger] pre[k]], x) by {
                if k < p - 1 {
                    assert(name_le(ni[pre[k]], ni[pre[p - 1]]));
                }
            }
        }
        order.insert(p, i);
        let ghost post = as_ints(order@);
        proof {
            let n1 = nv.take(i + 1);
            assert(post =~= pre.insert(p as int, i as int));
            assert forall|k: int| 0 <= k < post.len() implies #[trigger] n1[post[k]] == nv[post[k]] by {}
            assert forall|k: int, l: int| 0 <= k < l < post.len() implies post[k] != post[l] by {}
            assert forall|k: int, l: int|
                0 <= k < l < post.len() implies name_le(n1[#[trigger] post[k]], n1[#[trigger] post[l]]) by {
                if k < p && l < p {
                    assert(name_le(ni[pre[k]], ni[pre[l]]));
                } else if k < p && l == p {
                } else if k < p && l > p {
                    assert(name_le(ni[pre[k]], ni[pre[l - 1]]));
                } else if k == p {
                    assert(!name_le(nv[pre[l - 1]], x));
                } else {
                    assert(name_le(ni[pre[k - 1]], ni[pre[l - 1]]));
                }
            }
            assert forall|k: int, l: int|
                0 <= k < l < post.len() && n1[#[trigger] post[k]] == n1[#[trigger] post[l]] implies post[k]
                < post[l] by {
                if k < p && l < p {
                    assert(ni[pre[k]] == ni[pre[l]]);
                } else if k < p && l > p {
                    assert(ni[pre[k]] == ni[pre[l - 1]]);
                } else if k == p {
                    assert(!name_le(nv[pre[l - 1]], x));
                    assert(name_le(x, x));
                } else if k > p {
                    assert(ni[pre[k - 1]] == ni[pre[l - 1]]);
                }
            }
        }
        i = i + 1;
    }
    assert(nv.take(names@.len() as int) =~= nv);
    order
}

} // verus!
