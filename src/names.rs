use vstd::prelude::*;

verus! {

/// Position of the first NUL byte of `s`, or `s.len()` when there is none.
pub open spec fn nul_index(s: Seq<u8>) -> nat
    decreases s.len(),
{
    if s.len() == 0 {
        0
    } else if s[0] == 0 {
        0
    } else {
        1 + nul_index(s.drop_first())
    }
}

/// The names held by a packed list: each name is the run of bytes before a
/// NUL terminator. A trailing run without terminator counts as a last name.
pub open spec fn unpack(s: Seq<u8>) -> Seq<Seq<u8>>
    decreases s.len(),
{
    if s.len() == 0 {
        Seq::empty()
    } else if nul_index(s) < s.len() {
        seq![s.take(nul_index(s) as int)] + unpack(s.skip(nul_index(s) + 1 as int))
    } else {
        seq![s]
    }
}

/// A packed list as the operating system hands it out: empty, or ending in
/// a NUL terminator.
pub open spec fn terminated(s: Seq<u8>) -> bool {
    s.len() == 0 || s.last() == 0
}

/// The packed list of `names`: each name followed by a NUL terminator.
pub open spec fn pack(names: Seq<Seq<u8>>) -> Seq<u8>
    decreases names.len(),
{
    if names.len() == 0 {
        Seq::empty()
    } else {
        names[0] + seq![0u8] + pack(names.drop_first())
    }
}

/// A name as the operating system stores it: no NUL byte inside.
pub open spec fn nul_free(name: Seq<u8>) -> bool {
    forall|j: int| 0 <= j < name.len() ==> name[j] != 0
}

/// What an iterator whose remaining names are `v` yields in `k` steps, and
/// what it has left after them, one step being one call of `next`.
pub open spec fn drain(v: Seq<Seq<u8>>, k: nat) -> (Seq<Seq<u8>>, Seq<Seq<u8>>)
    decreases k,
{
    if k == 0 || v.len() == 0 {
        (Seq::empty(), v)
    } else {
        let (yielded, left) = drain(v.drop_first(), (k - 1) as nat);
        (seq![v[0]] + yielded, left)
    }
}

/// `nul_index` is the index of the first NUL, all bytes before it are not NUL.
proof fn lemma_nul_index(s: Seq<u8>, k: int)
    requires
        0 <= k <= s.len(),
        forall|j: int| 0 <= j < k ==> s[j] != 0,
        k == s.len() || s[k] == 0,
    ensures
        nul_index(s) == k,
    decreases s.len(),
{
    if s.len() > 0 && s[0] != 0 {
        assert forall|j: int| 0 <= j < k - 1 implies s.drop_first()[j] != 0 by {
            assert(s[j + 1] != 0);
        }
        lemma_nul_index(s.drop_first(), k - 1);
    }
}

/// Packing names that hold no NUL and decoding the result gives back the
/// same names, in the same order, none lost and none added; the packed list
/// is terminated, so an iterator accepts it.
pub proof fn lemma_unpack_pack(names: Seq<Seq<u8>>)
    requires
        forall|i: int| 0 <= i < names.len() ==> nul_free(#[trigger] names[i]),
    ensures
        unpack(pack(names)) == names,
        terminated(pack(names)),
    decreases names.len(),
{
    if names.len() > 0 {
        let n0 = names[0];
        let tail = names.drop_first();
        let s = pack(names);
        assert(nul_free(names[0]));
        assert forall|i: int| 0 <= i < tail.len() implies nul_free(#[trigger] tail[i]) by {
            assert(nul_free(names[i + 1]));
        }
        lemma_unpack_pack(tail);
        assert(s == n0 + seq![0u8] + pack(tail));
        assert forall|j: int| 0 <= j < n0.len() implies s[j] != 0 by {
            assert(s[j] == n0[j]);
        }
        assert(s[n0.len() as int] == 0);
        lemma_nul_index(s, n0.len() as int);
        assert(s.take(n0.len() as int) == n0);
        assert(s.skip(n0.len() + 1 as int) == pack(tail));
        assert(unpack(s) == seq![n0] + tail);
        assert(names == seq![n0] + tail);
        if tail.len() > 0 {
            assert(s.last() == pack(tail).last());
        }
    }
}

/// Every iterator with remaining names `v` (a clone starts with the view of
/// what it was cloned from and owns its own bytes) yields in `k` steps
/// exactly the first `k` names of `v`, and is left with the others, whatever
/// any other iterator does meanwhile.
pub proof fn lemma_drain_suffix(v: Seq<Seq<u8>>, k: nat)
    ensures
        k <= v.len() ==> drain(v, k) == (v.take(k as int), v.skip(k as int)),
        k > v.len() ==> drain(v, k) == (v, Seq::<Seq<u8>>::empty()),
    decreases k,
{
    if k > 0 && v.len() > 0 {
        lemma_drain_suffix(v.drop_first(), (k - 1) as nat);
        if k <= v.len() {
            assert(seq![v[0]] + v.drop_first().take(k - 1) == v.take(k as int));
            assert(v.drop_first().skip(k - 1) == v.skip(k as int));
        } else {
            assert(seq![v[0]] + v.drop_first() == v);
        }
    }
}

/// An iterator over a set of extended attribute names.
///
/// It owns the packed list that the operating system returned and a cursor
/// into it; each step yields the bytes up to the next NUL terminator.
pub struct XAttrs {
    data: Vec<u8>,
    offset: usize,
}

impl View for XAttrs {
    type V = Seq<Seq<u8>>;

    /// The names not yet yielded.
    closed spec fn view(&self) -> Seq<Seq<u8>> {
        unpack(self.data@.skip(self.offset as int))
    }
}

impl XAttrs {
    /// The packed bytes that remain after the cursor.
    pub closed spec fn rest(&self) -> Seq<u8> {
        self.data@.skip(self.offset as int)
    }

    #[verifier::type_invariant]
    closed spec fn inv(&self) -> bool {
        &&& self.offset <= self.data.len()
        &&& terminated(self.data@.skip(self.offset as int))
    }

    /// Wraps a packed name list; `None` when a non-empty list lacks its final
    /// terminator.
    pub fn from_packed(data: Vec<u8>) -> (r: Option<XAttrs>)
        ensures
            r is Some <==> terminated(data@),
            r matches Some(x) ==> x@ == unpack(data@) && x.rest() == data@,
    {
        let n = data.len();
        if n == 0 || data[n - 1] == 0 {
            let x = XAttrs { data, offset: 0 };
            assert(x.data@.skip(0) == x.data@);
            Some(x)
        } else {
            None
        }
    }

    /// Yields the next name, or `None` once every name has been yielded.
    pub fn next(&mut self) -> (r: Option<Vec<u8>>)
        ensures
            old(self)@.len() == 0 ==> r is None && final(self)@ == old(self)@,
            old(self)@.len() > 0 ==> (r matches Some(name) && name@ == old(self)@[0]
                && final(self)@ == old(self)@.drop_first()),
    {
        proof {
            use_type_invariant(&*self);
        }
        let n = self.data.len();
        let start = self.offset;
        if start == n {
            assert(self.data@.skip(start as int).len() == 0);
            return None;
        }
        let ghost rest = self.data@.skip(start as int);
        let mut name: Vec<u8> = Vec::new();
        let mut i: usize = start;
        while self.data[i] != 0
            invariant
                start <= i < n,
                n == self.data.len(),
                rest == self.data@.skip(start as int),
                terminated(rest),
                rest.len() > 0,
                name@ == rest.take(i - start),
                forall|j: int| 0 <= j < i - start ==> rest[j] != 0,
            decreases n - i,
        {
            name.push(self.data[i]);
            assert(rest.take(i + 1 - start) == rest.take(i - start).push(rest[i - start]));
            i = i + 1;
            if i == n {
                assert(rest[rest.len() - 1] == 0);
            }
        }
        proof {
            lemma_nul_index(rest, i - start);
            assert(rest.skip(i - start + 1) == self.data@.skip(i + 1));
        }
        self.offset = i + 1;
        Some(name)
    }

    /// Bounds on the number of names left: none once the list is exhausted,
    /// otherwise at least one and no known upper bound.
    pub fn size_hint(&self) -> (r: (usize, Option<usize>))
        ensures
            self@.len() == 0 ==> r == (0usize, Some(0usize)),
            self@.len() > 0 ==> r == (1usize, None::<usize>),
    {
        proof {
            use_type_invariant(self);
        }
        if self.data.len() == self.offset {
            assert(self.data@.skip(self.offset as int).len() == 0);
            (0, Some(0))
        } else {
            (1, None)
        }
    }
}

impl Clone for XAttrs {
    /// A deep copy: the bytes are copied and the cursor is kept, so the two
    /// iterators advance independently.
    fn clone(&self) -> (r: Self)
        ensures
            r@ == self@,
            r.rest() == self.rest(),
    {
        proof {
            use_type_invariant(self);
        }
        XAttrs { data: self.data.clone(), offset: self.offset }
    }

    fn clone_from(&mut self, other: &Self)
        ensures
            final(self)@ == other@,
            final(self).rest() == other.rest(),
    {
        proof {
            use_type_invariant(other);
        }
        *self = other.clone();
    }
}

} // verus!
