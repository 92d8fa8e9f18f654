use vstd::prelude::*;

verus! {

/// A caller or holder identity, held as its raw bytes.
#[derive(Clone, Debug)]
pub struct Principal(pub Vec<u8>);

impl View for Principal {
    type V = Seq<u8>;

    open spec fn view(&self) -> Seq<u8> {
        self.0@
    }
}

/// The bytes of the anonymous identity.
pub open spec fn anonymous_bytes() -> Seq<u8> {
    seq![4u8]
}

/// `a` comes before `b` byte-wise: they agree up to some position where `a`'s
/// byte is smaller.
pub open spec fn bytes_lt(a: Seq<u8>, b: Seq<u8>) -> bool {
    exists|i: int|
        0 <= i < a.len() && i < b.len() && (forall|k: int| 0 <= k < i ==> a[k] == b[k]) && #[trigger] a[i]
            < b[i]
}

/// The order of identities: shorter first, then byte-wise.
pub open spec fn principal_lt(a: Seq<u8>, b: Seq<u8>) -> bool {
    a.len() < b.len() || (a.len() == b.len() && bytes_lt(a, b))
}

/// The order is transitive.
pub proof fn lemma_principal_lt_trans(a: Seq<u8>, b: Seq<u8>, c: Seq<u8>)
    requires
        principal_lt(a, b),
        principal_lt(b, c),
    ensures
        principal_lt(a, c),
{
    if a.len() == b.len() && b.len() == c.len() {
        let i = choose|i: int|
            0 <= i < a.len() && i < b.len() && (forall|k: int| 0 <= k < i ==> a[k] == b[k]) && #[trigger] a[i]
                < b[i];
        let j = choose|j: int|
            0 <= j < b.len() && j < c.len() && (forall|k: int| 0 <= k < j ==> b[k] == c[k]) && #[trigger] b[j]
                < c[j];
        if i <= j {
            assert(a[i] < c[i]);
            assert(forall|k: int| 0 <= k < i ==> a[k] == c[k]);
        } else {
            assert(a[j] < c[j]);
            assert(forall|k: int| 0 <= k < j ==> a[k] == c[k]);
        }
    }
}

/// No identity comes before itself.
pub proof fn lemma_principal_lt_irrefl(a: Seq<u8>)
    ensures
        !principal_lt(a, a),
{
}

impl Principal {
    /// Compares two identities: negative, zero or positive as `self` comes
    /// before, equals or comes after `other`.
    pub fn compare(&self, other: &Principal) -> (r: i8)
        ensures
            r < 0 ==> principal_lt(self@, other@),
            r == 0 ==> self@ == other@,
            r > 0 ==> principal_lt(other@, self@),
    {
        let n = self.0.len();
        if n < other.0.len() {
            return -1;
        }
        if n > other.0.len() {
            return 1;
        }
        let mut i: usize = 0;
        while i < n
            invariant
                n == self.0@.len() == other.0@.len(),
                i <= n,
                forall|k: int| 0 <= k < i ==> self.0@[k] == other.0@[k],
            decreases n - i,
        {
            if self.0[i] < other.0[i] {
                assert(self.0@[i as int] < other.0@[i as int]);
                return -1;
            }
            if self.0[i] > other.0[i] {
                assert(other.0@[i as int] < self.0@[i as int]);
                return 1;
            }
            i = i + 1;
        }
        assert(self.0@ =~= other.0@);
        0
    }

    /// A copy of this identity.
    pub fn dup(&self) -> (r: Principal)
        ensures
            r@ == self@,
    {
        let mut bytes: Vec<u8> = Vec::new();
        let mut i: usize = 0;
        while i < self.0.len()
            invariant
                i <= self.0@.len(),
                bytes@ == self.0@.subrange(0, i as int),
            decreases self.0@.len() - i,
        {
            bytes.push(self.0[i]);
            i = i + 1;
            assert(bytes@ =~= self.0@.subrange(0, i as int));
        }
        assert(bytes@ =~= self.0@);
        Principal(bytes)
    }

    /// Whether two identities are the same.
    pub fn same(&self, other: &Principal) -> (r: bool)
        ensures
            r == (self@ == other@),
    {
        if self.0.len() != other.0.len() {
            return false;
        }
        let mut i: usize = 0;
        while i < self.0.len()
            invariant
                self.0@.len() == other.0@.len(),
                i <= self.0@.len(),
                forall|k: int| 0 <= k < i ==> self.0@[k] == other.0@[k],
            decreases self.0@.len() - i,
        {
            if self.0[i] != other.0[i] {
                return false;
            }
            i = i + 1;
        }
        assert(self.0@ =~= other.0@);
        true
    }

    /// Whether this is the anonymous identity, which may not mutate the ledger.
    pub fn is_anonymous(&self) -> (r: bool)
        ensures
            r == (self@ == anonymous_bytes()),
    {
        let r = self.0.len() == 1 && self.0[0] == 4u8;
        assert(r ==> self.0@ =~= anonymous_bytes());
        r
    }
}

impl PartialEq for Principal {
    fn eq(&self, other: &Principal) -> (r: bool) {
        self.same(other)
    }
}

impl vstd::std_specs::cmp::PartialEqSpecImpl for Principal {
    open spec fn obeys_eq_spec() -> bool {
        true
    }

    open spec fn eq_spec(&self, other: &Principal) -> bool {
        self@ == other@
    }
}

impl Eq for Principal {}

} // verus!
