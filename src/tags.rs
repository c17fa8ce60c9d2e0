//! The tags that identify a benchmark variant, and the canonical name they
//! give its archive.
use vstd::prelude::*;
use vstd::string::StringExecFns;
use vstd::utf8::encode_utf8;

verus! {

/// The UTF-8 bytes of a tag's key.
pub open spec fn key_bytes(pair: (String, String)) -> Seq<u8> {
    encode_utf8(pair.0@)
}

/// Lexicographic order of byte strings, which is the order of `str`.
pub open spec fn bytes_lt(a: Seq<u8>, b: Seq<u8>) -> bool
    decreases a.len(),
{
    if b.len() == 0 {
        false
    } else if a.len() == 0 {
        true
    } else if a[0] != b[0] {
        a[0] < b[0]
    } else {
        bytes_lt(a.drop_first(), b.drop_first())
    }
}

/// Keys in strictly ascending order, hence pairwise distinct.
pub open spec fn keys_ascending(pairs: Seq<(String, String)>) -> bool {
    forall|i: int, j: int|
        0 <= i < j < pairs.len() ==> bytes_lt(key_bytes(#[trigger] pairs[i]), key_bytes(
            #[trigger] pairs[j],
        ))
}

/// Two of the pairs have the same key.
pub open spec fn has_duplicate_key(pairs: Seq<(String, String)>) -> bool {
    exists|i: int, j: int|
        0 <= i < j < pairs.len() && key_bytes(#[trigger] pairs[i]) == key_bytes(#[trigger] pairs[j])
}

/// The two lists hold the same pairs: as many, each of one found in the
/// other.
pub open spec fn same_pairs(a: Seq<(String, String)>, b: Seq<(String, String)>) -> bool {
    &&& a.len() == b.len()
    &&& forall|i: int| 0 <= i < a.len() ==> b.contains(#[trigger] a[i])
    &&& forall|i: int| 0 <= i < b.len() ==> a.contains(#[trigger] b[i])
}

proof fn lemma_insert_keeps_ascending(s: Seq<(String, String)>, j: int, x: (String, String))
    requires
        keys_ascending(s),
        0 <= j <= s.len(),
        forall|a: int| 0 <= a < j ==> bytes_lt(key_bytes(#[trigger] s[a]), key_bytes(x)),
        j < s.len() ==> bytes_lt(key_bytes(x), key_bytes(s[j])),
    ensures
        keys_ascending(s.insert(j, x)),
{
    let t = s.insert(j, x);
    assert forall|a: int, b: int| 0 <= a < b < t.len() implies bytes_lt(
        key_bytes(#[trigger] t[a]),
        key_bytes(#[trigger] t[b]),
    ) by {
        if b < j {
            assert(t[a] == s[a] && t[b] == s[b]);
        } else if b == j {
            assert(t[b] == x && t[a] == s[a]);
        } else if a > j {
            assert(t[a] == s[a - 1] && t[b] == s[b - 1]);
        } else if a == j {
            assert(t[a] == x && t[b] == s[b - 1]);
            if b - 1 > j {
                assert(bytes_lt(key_bytes(s[j]), key_bytes(s[b - 1])));
                lemma_bytes_lt_transitive(key_bytes(x), key_bytes(s[j]), key_bytes(s[b - 1]));
            }
        } else {
            assert(t[a] == s[a] && t[b] == s[b - 1]);
            assert(bytes_lt(key_bytes(s[a]), key_bytes(x)));
            if b - 1 > j {
                assert(bytes_lt(key_bytes(s[j]), key_bytes(s[b - 1])));
                lemma_bytes_lt_transitive(key_bytes(x), key_bytes(s[j]), key_bytes(s[b - 1]));
            }
            lemma_bytes_lt_transitive(key_bytes(s[a]), key_bytes(x), key_bytes(s[b - 1]));
        }
    }
}

/// One tag as it stands in a name: `key=value`.
pub open spec fn tag_entry(pair: (String, String)) -> Seq<char> {
    pair.0@ + seq!['='] + pair.1@
}

/// The name of a tag list: its entries in order, separated by `,`.
pub open spec fn tags_name(pairs: Seq<(String, String)>) -> Seq<char>
    decreases pairs.len(),
{
    if pairs.len() == 0 {
        Seq::empty()
    } else if pairs.len() == 1 {
        tag_entry(pairs[0])
    } else {
        tags_name(pairs.drop_last()) + seq![','] + tag_entry(pairs.last())
    }
}

proof fn lemma_bytes_lt_transitive(a: Seq<u8>, b: Seq<u8>, c: Seq<u8>)
    requires
        bytes_lt(a, b),
        bytes_lt(b, c),
    ensures
        bytes_lt(a, c),
    decreases a.len(),
{
    if a.len() > 0 && b.len() > 0 && c.len() > 0 && a[0] == b[0] && b[0] == c[0] {
        lemma_bytes_lt_transitive(a.drop_first(), b.drop_first(), c.drop_first());
    }
}

proof fn lemma_bytes_lt_irreflexive(a: Seq<u8>)
    ensures
        !bytes_lt(a, a),
    decreases a.len(),
{
    if a.len() > 0 {
        lemma_bytes_lt_irreflexive(a.drop_first());
    }
}

proof fn lemma_bytes_lt_total(a: Seq<u8>, b: Seq<u8>)
    ensures
        a == b || bytes_lt(a, b) || bytes_lt(b, a),
    decreases a.len(),
{
    if a.len() > 0 && b.len() > 0 && a[0] == b[0] {
        lemma_bytes_lt_total(a.drop_first(), b.drop_first());
        if a.drop_first() == b.drop_first() {
            assert(a =~= seq![a[0]] + a.drop_first());
            assert(b =~= seq![b[0]] + b.drop_first());
        }
    } else if a.len() == 0 && b.len() == 0 {
        assert(a =~= b);
    }
}

/// Compares two byte strings: `Less`, `Equal` or `Greater` as 0, 1 or 2.
fn compare_bytes(a: &[u8], b: &[u8]) -> (r: u8)
    ensures
        r == 0 <==> bytes_lt(a@, b@),
        r == 1 <==> a@ == b@,
        r == 2 <==> bytes_lt(b@, a@),
        r <= 2,
{
    proof {
        lemma_bytes_lt_irreflexive(a@);
        lemma_bytes_lt_total(a@, b@);
    }
    let mut i: usize = 0;
    assert(a@.skip(0) =~= a@);
    assert(b@.skip(0) =~= b@);
    assert(a@.take(0) =~= b@.take(0));
    while i < a.len() && i < b.len()
        invariant
            i <= a@.len(),
            i <= b@.len(),
            a@.take(i as int) == b@.take(i as int),
            bytes_lt(a@, b@) == bytes_lt(a@.skip(i as int), b@.skip(i as int)),
            bytes_lt(b@, a@) == bytes_lt(b@.skip(i as int), a@.skip(i as int)),
        decreases a@.len() - i,
    {
        let ghost sa = a@.skip(i as int);
        let ghost sb = b@.skip(i as int);
        assert(sa.drop_first() =~= a@.skip(i + 1));
        assert(sb.drop_first() =~= b@.skip(i + 1));
        if a[i] < b[i] {
            return 0;
        }
        if a[i] > b[i] {
            return 2;
        }
        assert(a@.take(i + 1) =~= a@.take(i as int).push(a@[i as int]));
        assert(b@.take(i + 1) =~= b@.take(i as int).push(b@[i as int]));
        i = i + 1;
    }
    if a.len() == b.len() {
        assert(a@ =~= a@.take(i as int));
        assert(b@ =~= b@.take(i as int));
        1
    } else if a.len() < b.len() {
        assert(a@.skip(i as int).len() == 0);
        assert(a@ != b@);
        0
    } else {
        assert(b@.skip(i as int).len() == 0);
        assert(a@ != b@);
        2
    }
}

/// The tags of one benchmark variant: key/value pairs with distinct keys,
/// kept in ascending order of key.
#[derive(Clone, Debug, PartialEq, Eq)]
pub struct Tags {
    pairs: Vec<(String, String)>,
}

impl View for Tags {
    type V = Seq<(String, String)>;

    closed spec fn view(&self) -> Seq<(String, String)> {
        self.pairs@
    }
}

impl Tags {
    /// The pairs in ascending order of key; `None` when two pairs have the
    /// same key.
    pub fn new(pairs: Vec<(String, String)>) -> (r: Option<Tags>)
        ensures
            match r {
                Some(t) => !has_duplicate_key(pairs@) && same_pairs(t@, pairs@) && keys_ascending(
                    t@,
                ),
                None => has_duplicate_key(pairs@),
            },
    {
        let n = pairs.len();
        let mut sorted: Vec<(String, String)> = Vec::new();
        let mut k: usize = 0;
        while k < n
            invariant
                n == pairs@.len(),
                k <= n,
                keys_ascending(sorted@),
                same_pairs(sorted@, pairs@.take(k as int)),
                !has_duplicate_key(pairs@.take(k as int)),
            decreases n - k,
        {
            let pair = (pairs[k].0.clone(), pairs[k].1.clone());
            assert(pair == pairs@[k as int]);
            let key = pair.0.as_str().as_bytes();
            let mut j: usize = 0;
            let mut done = false;
            let mut equal = false;
            while !done && j < sorted.len()
                invariant
                    j <= sorted@.len(),
                    key@ == key_bytes(pair),
                    forall|a: int| 0 <= a < j ==> bytes_lt(key_bytes(#[trigger] sorted@[a]), key@),
                    done ==> j < sorted@.len(),
                    done && equal ==> key_bytes(sorted@[j as int]) == key@,
                    done && !equal ==> bytes_lt(key@, key_bytes(sorted@[j as int])),
                    !done ==> !equal,
                decreases sorted@.len() - j + (if done {
                    0int
                } else {
                    1int
                }),
            {
                let order = compare_bytes(sorted[j].0.as_str().as_bytes(), key);
                if order == 0 {
                    j = j + 1;
                } else {
                    done = true;
                    equal = order == 1;
                }
            }
            if equal {
                proof {
                    assert(pairs@.take(k as int).contains(sorted@[j as int]));
                    let i = choose|i: int|
                        0 <= i < k && pairs@.take(k as int)[i] == sorted@[j as int];
                    assert(key_bytes(pairs@[i]) == key_bytes(pairs@[k as int]));
                    assert(has_duplicate_key(pairs@));
                }
                return None;
            }
            let ghost old_sorted = sorted@;
            proof {
                assert forall|m: int| 0 <= m < old_sorted.len() implies key_bytes(
                    #[trigger] old_sorted[m],
                ) != key@ by {
                    lemma_bytes_lt_irreflexive(key@);
                    if m >= j {
                        if m > j {
                            assert(bytes_lt(key_bytes(old_sorted[j as int]), key_bytes(old_sorted[m])));
                            lemma_bytes_lt_transitive(
                                key@,
                                key_bytes(old_sorted[j as int]),
                                key_bytes(old_sorted[m]),
                            );
                        }
                    }
                }
                let prefix = pairs@.take(k as int);
                let taken = pairs@.take(k + 1);
                assert forall|a: int, b: int|
                    0 <= a < b < taken.len() implies key_bytes(#[trigger] taken[a]) != key_bytes(
                    #[trigger] taken[b],
                ) by {
                    if b < k {
                        assert(taken[a] == prefix[a] && taken[b] == prefix[b]);
                    } else {
                        assert(old_sorted.contains(prefix[a]));
                        let m = choose|m: int| 0 <= m < old_sorted.len() && old_sorted[m] == prefix[a];
                        assert(taken[b] == pair);
                    }
                }
            }
            sorted.insert(j, pair);
            proof {
                lemma_insert_keeps_ascending(old_sorted, j as int, pair);
                let taken = pairs@.take(k + 1);
                assert(taken =~= pairs@.take(k as int).push(pair));
                assert forall|a: int| 0 <= a < sorted@.len() implies taken.contains(
                    #[trigger] sorted@[a],
                ) by {
                    if a < j {
                        assert(pairs@.take(k as int).contains(old_sorted[a]));
                        let i = choose|i: int|
                            0 <= i < k && pairs@.take(k as int)[i] == old_sorted[a];
                        assert(taken[i] == sorted@[a]);
                    } else if a == j {
                        assert(taken[k as int] == sorted@[a]);
                    } else {
                        assert(pairs@.take(k as int).contains(old_sorted[a - 1]));
                        let i = choose|i: int|
                            0 <= i < k && pairs@.take(k as int)[i] == old_sorted[a - 1];
                        assert(taken[i] == sorted@[a]);
                    }
                }
                assert forall|a: int| 0 <= a < taken.len() implies sorted@.contains(
                    #[trigger] taken[a],
                ) by {
                    if a < k {
                        assert(old_sorted.contains(pairs@.take(k as int)[a]));
                        let m = choose|m: int|
                            0 <= m < old_sorted.len() && old_sorted[m] == pairs@.take(
                                k as int,
                            )[a];
                        if m < j {
                            assert(sorted@[m] == taken[a]);
                        } else {
                            assert(sorted@[m + 1] == taken[a]);
                        }
                    } else {
                        assert(sorted@[j as int] == taken[a]);
                    }
                }
            }
            k = k + 1;
        }
        assert(pairs@.take(n as int) =~= pairs@);
        Some(Tags { pairs: sorted })
    }

    /// The pairs, in ascending order of key.
    pub fn pairs(&self) -> (r: &Vec<(String, String)>)
        ensures
            r@ == self@,
    {
        &self.pairs
    }

    /// The name of the variant: `key=value` pairs in ascending order of key,
    /// joined by `,`. The same tags give the same name, which is the
    /// archive's storage identity.
    pub fn name(&self) -> (r: String)
        ensures
            r@ == tags_name(self@),
    {
        let mut r = String::new();
        let mut i: usize = 0;
        while i < self.pairs.len()
            invariant
                i <= self.pairs@.len(),
                r@ == tags_name(self.pairs@.take(i as int)),
            decreases self.pairs@.len() - i,
        {
            let ghost before = r@;
            proof {
                reveal_strlit(",");
                reveal_strlit("=");
            }
            if i > 0 {
                r = r.concat(",");
            }
            r = r.concat(self.pairs[i].0.as_str()).concat("=").concat(self.pairs[i].1.as_str());
            proof {
                let taken = self.pairs@.take(i + 1);
                assert(taken.drop_last() =~= self.pairs@.take(i as int));
                assert(taken.last() == self.pairs@[i as int]);
                if i == 0 {
                    assert(r@ =~= tag_entry(self.pairs@[0]));
                } else {
                    assert(r@ =~= before + seq![','] + tag_entry(self.pairs@[i as int]));
                }
            }
            i = i + 1;
        }
        assert(self.pairs@.take(i as int) =~= self.pairs@);
        r
    }
}

} // verus!
