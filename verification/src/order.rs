//! The order of account identifiers: byte-wise lexicographic order of their
//! UTF-8 encodings, which is the order in which a key-value store keeps them.

use vstd::prelude::*;
use vstd::utf8::*;

verus! {

/// `a` stands strictly before `b` in byte-wise lexicographic order.
pub open spec fn bytes_lt(a: Seq<u8>, b: Seq<u8>) -> bool
    decreases a.len(),
{
    if b.len() == 0 {
        false
    } else if a.len() == 0 {
        true
    } else if a[0] != b[0] {
        a[0] < b[0]
    } else {
        bytes_lt(a.drop_first(), b.drop_first())
    }
}

/// The identifier `a` stands strictly before the identifier `b`.
pub open spec fn key_lt(a: Seq<char>, b: Seq<char>) -> bool {
    bytes_lt(encode_utf8(a), encode_utf8(b))
}

/// The pair `a` stands strictly before the pair `b`: by the first
/// identifier, then by the second.
pub open spec fn pair_lt(a: (Seq<char>, Seq<char>), b: (Seq<char>, Seq<char>)) -> bool {
    key_lt(a.0, b.0) || (a.0 == b.0 && key_lt(a.1, b.1))
}

pub proof fn lemma_bytes_lt_irreflexive(a: Seq<u8>)
    ensures
        !bytes_lt(a, a),
    decreases a.len(),
{
    if a.len() > 0 {
        lemma_bytes_lt_irreflexive(a.drop_first());
    }
}

pub proof fn lemma_bytes_lt_transitive(a: Seq<u8>, b: Seq<u8>, c: Seq<u8>)
    requires
        bytes_lt(a, b),
        bytes_lt(b, c),
    ensures
        bytes_lt(a, c),
    decreases a.len(),
{
    if a.len() > 0 && a[0] == b[0] && b[0] == c[0] {
        lemma_bytes_lt_transitive(a.drop_first(), b.drop_first(), c.drop_first());
    }
}

pub proof fn lemma_bytes_lt_connected(a: Seq<u8>, b: Seq<u8>)
    requires
        !bytes_lt(a, b),
        !bytes_lt(b, a),
    ensures
        a == b,
    decreases a.len(),
{
    if a.len() > 0 && b.len() > 0 {
        lemma_bytes_lt_connected(a.drop_first(), b.drop_first());
        assert(a =~= seq![a[0]] + a.drop_first());
        assert(b =~= seq![b[0]] + b.drop_first());
    }
    assert(a =~= b);
}

/// Two identifiers with the same encoding are the same identifier.
pub proof fn lemma_encoding_injective(a: Seq<char>, b: Seq<char>)
    requires
        encode_utf8(a) == encode_utf8(b),
    ensures
        a == b,
{
    encode_utf8_decode_utf8(a);
    encode_utf8_decode_utf8(b);
}

/// No identifier stands before itself.
pub proof fn lemma_key_lt_irreflexive(a: Seq<char>)
    ensures
        !key_lt(a, a),
{
    lemma_bytes_lt_irreflexive(encode_utf8(a));
}

pub proof fn lemma_key_lt_transitive(a: Seq<char>, b: Seq<char>, c: Seq<char>)
    requires
        key_lt(a, b),
        key_lt(b, c),
    ensures
        key_lt(a, c),
{
    lemma_bytes_lt_transitive(encode_utf8(a), encode_utf8(b), encode_utf8(c));
}

/// Of two identifiers, one stands before the other or they are the same.
pub proof fn lemma_key_lt_connected(a: Seq<char>, b: Seq<char>)
    ensures
        key_lt(a, b) || key_lt(b, a) || a == b,
{
    if !key_lt(a, b) && !key_lt(b, a) {
        lemma_bytes_lt_connected(encode_utf8(a), encode_utf8(b));
        lemma_encoding_injective(a, b);
    }
}

/// An identifier cannot stand both before and after another.
pub proof fn lemma_key_lt_asymmetric(a: Seq<char>, b: Seq<char>)
    requires
        key_lt(a, b),
    ensures
        !key_lt(b, a),
        a != b,
{
    lemma_key_lt_irreflexive(a);
    if key_lt(b, a) {
        lemma_key_lt_transitive(a, b, a);
    }
}

/// How one identifier stands to another.
#[derive(Clone, Copy, Debug, PartialEq, Eq)]
pub enum Place {
    Before,
    Same,
    After,
}

/// Compares two identifiers byte by byte.
pub fn compare_keys(a: &str, b: &str) -> (r: Place)
    ensures
        r is Before <==> key_lt(a@, b@),
        r is Same <==> a@ == b@,
        r is After <==> key_lt(b@, a@),
{
    let x = a.as_bytes();
    let y = b.as_bytes();
    let mut i: usize = 0;
    proof {
        assert(x@.skip(0) =~= x@);
        assert(y@.skip(0) =~= y@);
    }
    while i < x.len() && i < y.len()
        invariant
            i <= x@.len(),
            i <= y@.len(),
            x@ == encode_utf8(a@),
            y@ == encode_utf8(b@),
            bytes_lt(x@, y@) == bytes_lt(x@.skip(i as int), y@.skip(i as int)),
            bytes_lt(y@, x@) == bytes_lt(y@.skip(i as int), x@.skip(i as int)),
        decreases x@.len() - i,
    {
        proof {
            assert(x@.skip(i as int).drop_first() =~= x@.skip(i + 1));
            assert(y@.skip(i as int).drop_first() =~= y@.skip(i + 1));
        }
        if x[i] < y[i] {
            proof {
                lemma_key_lt_asymmetric(a@, b@);
            }
            return Place::Before;
        }
        if x[i] > y[i] {
            proof {
                lemma_key_lt_asymmetric(b@, a@);
            }
            return Place::After;
        }
        i += 1;
    }
    if i < y.len() {
        proof {
            lemma_key_lt_asymmetric(a@, b@);
        }
        Place::Before
    } else if i < x.len() {
        proof {
            lemma_key_lt_asymmetric(b@, a@);
        }
        Place::After
    } else {
        proof {
            lemma_key_lt_connected(a@, b@);
            lemma_key_lt_irreflexive(a@);
        }
        Place::Same
    }
}

/// A key of an ordered table: a value that stands for a mathematical
/// identifier, with a strict total order on the identifiers that the
/// executable comparison decides.
pub trait Key: Sized {
    type Id;

    /// The identifier that the key stands for.
    spec fn id(&self) -> Self::Id;

    /// `a` stands strictly before `b`.
    spec fn before(a: Self::Id, b: Self::Id) -> bool;

    proof fn lemma_irreflexive(a: Self::Id)
        ensures
            !Self::before(a, a),
    ;

    proof fn lemma_transitive(a: Self::Id, b: Self::Id, c: Self::Id)
        requires
            Self::before(a, b),
            Self::before(b, c),
        ensures
            Self::before(a, c),
    ;

    proof fn lemma_connected(a: Self::Id, b: Self::Id)
        ensures
            Self::before(a, b) || Self::before(b, a) || a == b,
    ;

    fn place(&self, other: &Self) -> (r: Place)
        ensures
            r is Before <==> Self::before(self.id(), other.id()),
            r is Same <==> self.id() == other.id(),
            r is After <==> Self::before(other.id(), self.id()),
    ;

    fn duplicate(&self) -> (r: Self)
        ensures
            r.id() == self.id(),
    ;
}

impl Key for String {
    type Id = Seq<char>;

    open spec fn id(&self) -> Seq<char> {
        self@
    }

    open spec fn before(a: Seq<char>, b: Seq<char>) -> bool {
        key_lt(a, b)
    }

    proof fn lemma_irreflexive(a: Seq<char>) {
        lemma_key_lt_irreflexive(a);
    }

    proof fn lemma_transitive(a: Seq<char>, b: Seq<char>, c: Seq<char>) {
        lemma_key_lt_transitive(a, b, c);
    }

    proof fn lemma_connected(a: Seq<char>, b: Seq<char>) {
        lemma_key_lt_connected(a, b);
    }

    fn place(&self, other: &String) -> (r: Place) {
        compare_keys(self.as_str(), other.as_str())
    }

    fn duplicate(&self) -> (r: String) {
        self.clone()
    }
}

/// A key made of two identifiers, ordered by the first and then by the
/// second.
#[derive(Clone, Debug, PartialEq, Eq)]
pub struct PairKey {
    pub first: String,
    pub second: String,
}

impl Key for PairKey {
    type Id = (Seq<char>, Seq<char>);

    open spec fn id(&self) -> (Seq<char>, Seq<char>) {
        (self.first@, self.second@)
    }

    open spec fn before(a: (Seq<char>, Seq<char>), b: (Seq<char>, Seq<char>)) -> bool {
        pair_lt(a, b)
    }

    proof fn lemma_irreflexive(a: (Seq<char>, Seq<char>)) {
        lemma_key_lt_irreflexive(a.0);
        lemma_key_lt_irreflexive(a.1);
    }

    proof fn lemma_transitive(
        a: (Seq<char>, Seq<char>),
        b: (Seq<char>, Seq<char>),
        c: (Seq<char>, Seq<char>),
    ) {
        if key_lt(a.0, b.0) && key_lt(b.0, c.0) {
            lemma_key_lt_transitive(a.0, b.0, c.0);
        }
        if a.0 == b.0 && b.0 == c.0 && key_lt(a.1, b.1) && key_lt(b.1, c.1) {
            lemma_key_lt_transitive(a.1, b.1, c.1);
        }
    }

    proof fn lemma_connected(a: (Seq<char>, Seq<char>), b: (Seq<char>, Seq<char>)) {
        lemma_key_lt_connected(a.0, b.0);
        lemma_key_lt_connected(a.1, b.1);
    }

    fn place(&self, other: &PairKey) -> (r: Place) {
        let by_first = compare_keys(self.first.as_str(), other.first.as_str());
        proof {
            lemma_key_lt_irreflexive(self.first@);
            if key_lt(self.first@, other.first@) {
                lemma_key_lt_asymmetric(self.first@, other.first@);
            }
            if key_lt(other.first@, self.first@) {
                lemma_key_lt_asymmetric(other.first@, self.first@);
            }
        }
        match by_first {
            Place::Same => compare_keys(self.second.as_str(), other.second.as_str()),
            _ => by_first,
        }
    }

    fn duplicate(&self) -> (r: PairKey) {
        PairKey { first: self.first.clone(), second: self.second.clone() }
    }
}

} // verus!
