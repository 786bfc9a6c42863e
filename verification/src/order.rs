//! The order of texts, and lists of texts in that order.

use vstd::prelude::*;

use crate::table::texts;

verus! {

/// Whether `a` comes before `b`, byte by byte from the front.
pub open spec fn bytes_before(a: Seq<u8>, b: Seq<u8>) -> bool
    decreases a.len(),
{
    if b.len() == 0 {
        false
    } else if a.len() == 0 {
        true
    } else if a[0] != b[0] {
        a[0] < b[0]
    } else {
        bytes_before(a.skip(1), b.skip(1))
    }
}

/// Whether the text `a` comes before the text `b`, as their UTF-8 bytes do.
pub open spec fn text_before(a: Seq<char>, b: Seq<char>) -> bool {
    bytes_before(vstd::utf8::encode_utf8(a), vstd::utf8::encode_utf8(b))
}

/// Whether each text comes before all that follow it.
pub open spec fn ascending(list: Seq<Seq<char>>) -> bool {
    forall|i: int, j: int| 0 <= i < j < list.len() ==> text_before(list[i], list[j])
}

/// How two texts stand to each other.
#[derive(Clone, Copy, Debug, PartialEq, Eq, Structural)]
pub enum Standing {
    Before,
    Same,
    After,
}

proof fn lemma_bytes_irreflexive(a: Seq<u8>)
    ensures
        !bytes_before(a, a),
    decreases a.len(),
{
    if a.len() > 0 {
        lemma_bytes_irreflexive(a.skip(1));
    }
}

proof fn lemma_bytes_transitive(a: Seq<u8>, b: Seq<u8>, c: Seq<u8>)
    requires
        bytes_before(a, b),
        bytes_before(b, c),
    ensures
        bytes_before(a, c),
    decreases a.len(),
{
    if a.len() > 0 && b.len() > 0 && c.len() > 0 && a[0] == b[0] && b[0] == c[0] {
        lemma_bytes_transitive(a.skip(1), b.skip(1), c.skip(1));
    }
}

proof fn lemma_common_front(a: Seq<u8>, b: Seq<u8>, n: nat)
    requires
        n <= a.len(),
        n <= b.len(),
        forall|k: int| 0 <= k < n ==> a[k] == b[k],
    ensures
        bytes_before(a, b) == bytes_before(a.skip(n as int), b.skip(n as int)),
    decreases n,
{
    if n == 0 {
        assert(a.skip(0) =~= a);
        assert(b.skip(0) =~= b);
    } else {
        lemma_common_front(a.skip(1), b.skip(1), (n - 1) as nat);
        assert(a.skip(1).skip(n - 1) =~= a.skip(n as int));
        assert(b.skip(1).skip(n - 1) =~= b.skip(n as int));
    }
}

proof fn lemma_encoding_injective(a: Seq<char>, b: Seq<char>)
    requires
        vstd::utf8::encode_utf8(a) == vstd::utf8::encode_utf8(b),
    ensures
        a == b,
{
    vstd::utf8::encode_utf8_decode_utf8(a);
    vstd::utf8::encode_utf8_decode_utf8(b);
}

/// How `a` stands to `b`.
pub fn standing(a: &String, b: &String) -> (s: Standing)
    ensures
        s == Standing::Before ==> text_before(a@, b@),
        s == Standing::After ==> text_before(b@, a@),
        s == Standing::Same <==> a@ == b@,
{
    let x = a.as_str().as_bytes();
    let y = b.as_str().as_bytes();
    let mut i: usize = 0;
    proof {
        lemma_bytes_irreflexive(x@);
    }
    while i < x.len() && i < y.len()
        invariant
            i <= x.len(),
            i <= y.len(),
            x@ == vstd::utf8::encode_utf8(a@),
            y@ == vstd::utf8::encode_utf8(b@),
            !bytes_before(x@, x@),
            forall|k: int| 0 <= k < i ==> x@[k] == y@[k],
        decreases x.len() - i,
    {
        if x[i] != y[i] {
            proof {
                lemma_common_front(x@, y@, i as nat);
                lemma_common_front(y@, x@, i as nat);
            }
            return if x[i] < y[i] {
                Standing::Before
            } else {
                Standing::After
            };
        }
        i += 1;
    }
    proof {
        lemma_common_front(x@, y@, i as nat);
        lemma_common_front(y@, x@, i as nat);
    }
    if i < y.len() {
        Standing::Before
    } else if i < x.len() {
        Standing::After
    } else {
        proof {
            assert(x@ =~= y@);
            lemma_encoding_injective(a@, b@);
        }
        Standing::Same
    }
}

proof fn lemma_insert_ascending(list: Seq<Seq<char>>, at: int, text: Seq<char>)
    requires
        ascending(list),
        0 <= at <= list.len(),
        forall|k: int| 0 <= k < at ==> text_before(#[trigger] list[k], text),
        at < list.len() ==> text_before(text, list[at]),
    ensures
        ascending(list.insert(at, text)),
{
    let after = list.insert(at, text);
    assert forall|i: int, j: int| 0 <= i < j < after.len() implies text_before(after[i], after[j]) by {
        if j < at {
            assert(text_before(list[i], list[j]));
        } else if j == at {
            assert(text_before(list[i], text));
        } else if i == at {
            if j - 1 > at {
                assert(text_before(list[at], list[j - 1]));
                lemma_bytes_transitive(
                    vstd::utf8::encode_utf8(text),
                    vstd::utf8::encode_utf8(list[at]),
                    vstd::utf8::encode_utf8(list[j - 1]),
                );
            }
        } else if i < at {
            assert(text_before(list[i], list[j - 1]));
        } else {
            assert(text_before(list[i - 1], list[j - 1]));
        }
    }
}

fn insert_in_order(list: &mut Vec<String>, text: &String)
    requires
        ascending(texts(old(list)@)),
    ensures
        ascending(texts(final(list)@)),
        texts(final(list)@).to_set() == texts(old(list)@).to_set().insert(text@),
{
    let ghost before = texts(list@);
    let mut at: usize = 0;
    while at < list.len()
        invariant
            at <= list.len(),
            before == texts(list@),
            ascending(before),
            *list == *old(list),
            forall|k: int| 0 <= k < at ==> text_before(#[trigger] before[k], text@),
        decreases list.len() - at,
    {
        assert(before[at as int] == list@[at as int]@);
        match standing(&list[at], text) {
            Standing::Before => {},
            Standing::Same => {
                proof {
                    assert(before.contains(text@));
                    assert(before.to_set() =~= before.to_set().insert(text@));
                }
                return ;
            },
            Standing::After => {
                proof {
                    lemma_insert_ascending(before, at as int, text@);
                    lemma_insert_set(before, at as int, text@);
                }
                list.insert(at, text.clone());
                assert(texts(list@) =~= before.insert(at as int, text@));
                return ;
            },
        }
        at += 1;
    }
    proof {
        lemma_insert_ascending(before, at as int, text@);
        lemma_insert_set(before, at as int, text@);
    }
    list.insert(at, text.clone());
    assert(texts(list@) =~= before.insert(at as int, text@));
}

proof fn lemma_insert_set(list: Seq<Seq<char>>, at: int, text: Seq<char>)
    requires
        0 <= at <= list.len(),
    ensures
        list.insert(at, text).to_set() == list.to_set().insert(text),
{
    let after = list.insert(at, text);
    assert forall|t: Seq<char>| after.to_set().contains(t) == list.to_set().insert(text).contains(
        t,
    ) by {
        if after.contains(t) {
            let i = choose|i: int| 0 <= i < after.len() && after[i] == t;
            if i < at {
                assert(list[i] == t);
            } else if i > at {
                assert(list[i - 1] == t);
            }
        }
        if list.contains(t) {
            let i = choose|i: int| 0 <= i < list.len() && list[i] == t;
            if i < at {
                assert(after[i] == t);
            } else {
                assert(after[i + 1] == t);
            }
        }
        if t == text {
            assert(after[at] == t);
        }
    }
    assert(after.to_set() =~= list.to_set().insert(text));
}

/// The texts of `list` in order, each once.
pub fn in_order(list: &Vec<String>) -> (sorted: Vec<String>)
    ensures
        ascending(texts(sorted@)),
        texts(sorted@).to_set() == texts(list@).to_set(),
{
    let mut sorted: Vec<String> = Vec::new();
    let mut i: usize = 0;
    assert(texts(sorted@).to_set() =~= texts(list@).take(0).to_set());
    while i < list.len()
        invariant
            i <= list.len(),
            ascending(texts(sorted@)),
            texts(sorted@).to_set() == texts(list@).take(i as int).to_set(),
        decreases list.len() - i,
    {
        insert_in_order(&mut sorted, &list[i]);
        proof {
            let front = texts(list@).take(i as int);
            assert(texts(list@).take(i + 1) =~= front.insert(i as int, list@[i as int]@));
            lemma_insert_set(front, i as int, list@[i as int]@);
        }
        i += 1;
    }
    assert(texts(list@).take(i as int) =~= texts(list@));
    sorted
}

/// Two lists in order that hold the same texts are the same list.
pub proof fn ascending_is_unique(a: Seq<Seq<char>>, b: Seq<Seq<char>>)
    requires
        ascending(a),
        ascending(b),
        a.to_set() == b.to_set(),
    ensures
        a == b,
    decreases a.len(),
{
    if a.len() == 0 {
        if b.len() > 0 {
            assert(b.contains(b[0]));
            assert(a.to_set().contains(b[0]));
        }
        assert(a =~= b);
    } else {
        assert(a.contains(a.last()));
        assert(b.to_set().contains(a.last()));
        assert(b.len() > 0);
        assert(b.contains(b.last()));
        assert(a.to_set().contains(b.last()));
        if a.last() != b.last() {
            let i = choose|i: int| 0 <= i < a.len() && a[i] == b.last();
            let j = choose|j: int| 0 <= j < b.len() && b[j] == a.last();
            assert(text_before(a[i], a[a.len() - 1]));
            assert(text_before(b[j], b[b.len() - 1]));
            let x = vstd::utf8::encode_utf8(a.last());
            let y = vstd::utf8::encode_utf8(b.last());
            lemma_bytes_transitive(x, y, x);
            lemma_bytes_irreflexive(x);
        }
        let a0 = a.drop_last();
        let b0 = b.drop_last();
        lemma_bytes_irreflexive(vstd::utf8::encode_utf8(a.last()));
        assert forall|t: Seq<char>| a0.to_set().contains(t) == b0.to_set().contains(t) by {
            if a0.contains(t) {
                let i = choose|i: int| 0 <= i < a0.len() && a0[i] == t;
                assert(text_before(a[i], a[a.len() - 1]));
                assert(a[i] == t);
                assert(b.to_set().contains(t));
                let j = choose|j: int| 0 <= j < b.len() && b[j] == t;
                assert(b0[j] == t);
            }
            if b0.contains(t) {
                let j = choose|j: int| 0 <= j < b0.len() && b0[j] == t;
                assert(text_before(b[j], b[b.len() - 1]));
                assert(b[j] == t);
                assert(a.to_set().contains(t));
                let i = choose|i: int| 0 <= i < a.len() && a[i] == t;
                assert(a0[i] == t);
            }
        }
        assert(a0.to_set() =~= b0.to_set());
        ascending_is_unique(a0, b0);
        assert(a =~= a0.push(a.last()));
        assert(b =~= b0.push(b.last()));
    }
}

/// Bytes are ordered by the first place at which they differ; where there is none, the
/// shorter come first.
pub proof fn the_first_difference_decides(a: Seq<u8>, b: Seq<u8>)
    ensures
        bytes_before(a, b) <==> exists|n: int|
            {
                &&& 0 <= n <= a.len()
                &&& n < b.len()
                &&& a.take(n) == #[trigger] b.take(n)
                &&& n == a.len() || a[n] < b[n]
            },
    decreases a.len(),
{
    if b.len() > 0 && a.len() > 0 && a[0] == b[0] {
        let (x, y) = (a.skip(1), b.skip(1));
        the_first_difference_decides(x, y);
        if bytes_before(x, y) {
            let n = choose|n: int|
                {
                    &&& 0 <= n <= x.len()
                    &&& n < y.len()
                    &&& x.take(n) == #[trigger] y.take(n)
                    &&& n == x.len() || x[n] < y[n]
                };
            assert forall|i: int| 0 <= i < n + 1 implies a[i] == b[i] by {
                if i > 0 {
                    assert(x.take(n)[i - 1] == y.take(n)[i - 1]);
                }
            }
            assert(a.take(n + 1) =~= b.take(n + 1));
        }
        if exists|n: int|
            {
                &&& 0 <= n <= a.len()
                &&& n < b.len()
                &&& a.take(n) == #[trigger] b.take(n)
                &&& n == a.len() || a[n] < b[n]
            } {
            let n = choose|n: int|
                {
                    &&& 0 <= n <= a.len()
                    &&& n < b.len()
                    &&& a.take(n) == #[trigger] b.take(n)
                    &&& n == a.len() || a[n] < b[n]
                };
            assert(n > 0);
            assert forall|i: int| 0 <= i < n - 1 implies x[i] == y[i] by {
                assert(a.take(n)[i + 1] == b.take(n)[i + 1]);
            }
            assert(x.take(n - 1) =~= y.take(n - 1));
        }
    } else if b.len() > 0 {
        assert(a.take(0) =~= b.take(0));
        if a.len() > 0 {
            assert forall|n: int| 0 < n <= a.len() && n < b.len() implies a.take(n)
                != #[trigger] b.take(n) by {
                assert(a.take(n)[0] != b.take(n)[0]);
            }
        }
    }
}

/// Of two different texts one comes before the other, and not the other way round.
pub proof fn texts_are_in_order(a: Seq<char>, b: Seq<char>)
    ensures
        !text_before(a, a),
        a != b ==> text_before(a, b) || text_before(b, a),
        !(text_before(a, b) && text_before(b, a)),
{
    let x = vstd::utf8::encode_utf8(a);
    let y = vstd::utf8::encode_utf8(b);
    lemma_bytes_irreflexive(x);
    if text_before(a, b) && text_before(b, a) {
        lemma_bytes_transitive(x, y, x);
    }
    if x == y {
        lemma_encoding_injective(a, b);
    } else {
        lemma_bytes_total(x, y);
    }
}

proof fn lemma_bytes_total(a: Seq<u8>, b: Seq<u8>)
    requires
        a != b,
    ensures
        bytes_before(a, b) || bytes_before(b, a),
    decreases a.len(),
{
    if a.len() == 0 || b.len() == 0 {
        if a.len() == b.len() {
            assert(a =~= b);
        }
    } else if a[0] == b[0] {
        if a.skip(1) == b.skip(1) {
            assert(a =~= seq![a[0]] + a.skip(1));
            assert(b =~= seq![b[0]] + b.skip(1));
        }
        lemma_bytes_total(a.skip(1), b.skip(1));
    }
}

} // verus!
