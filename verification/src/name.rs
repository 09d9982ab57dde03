//! Qualified names and namespaces: the universal keys identifying a
//! declaration by its namespace path plus local identifier.

use vstd::prelude::*;
use vstd::string::StrSliceExecFns;
use vstd::string::StringExecFns;

verus! {

/// Compares two string slices by their character sequences.
pub fn str_eq(a: &str, b: &str) -> (r: bool)
    ensures
        r == (a@ == b@),
{
    let alen = a.unicode_len();
    let blen = b.unicode_len();
    if alen != blen {
        return false;
    }
    let mut i: usize = 0;
    while i < alen
        invariant
            alen == a@.len(),
            blen == b@.len(),
            alen == blen,
            i <= alen,
            forall|j: int| 0 <= j < i ==> a@[j] == b@[j],
        decreases alen - i,
    {
        if a.get_char(i) != b.get_char(i) {
            return false;
        }
        i = i + 1;
    }
    proof {
        assert(a@ =~= b@);
    }
    true
}

/// Whether `p` is a prefix of `s`, by characters.
pub open spec fn is_prefix_of(p: Seq<char>, s: Seq<char>) -> bool {
    p.len() <= s.len() && s.subrange(0, p.len() as int) == p
}

/// Tests whether the string `s` starts with the prefix `p`.
pub fn str_starts_with(s: &str, p: &str) -> (r: bool)
    ensures
        r == is_prefix_of(p@, s@),
{
    let slen = s.unicode_len();
    let plen = p.unicode_len();
    if plen > slen {
        assert(!is_prefix_of(p@, s@));
        return false;
    }
    let mut i: usize = 0;
    while i < plen
        invariant
            slen == s@.len(),
            plen == p@.len(),
            plen <= slen,
            i <= plen,
            forall|j: int| 0 <= j < i ==> s@[j] == p@[j],
        decreases plen - i,
    {
        if s.get_char(i) != p.get_char(i) {
            assert(s@.subrange(0, p@.len() as int)[i as int] != p@[i as int]);
            return false;
        }
        i = i + 1;
    }
    proof {
        assert(s@.subrange(0, p@.len() as int) =~= p@);
    }
    true
}

/// Clones a vector of strings, preserving the character sequences.
pub fn clone_string_vec(v: &Vec<String>) -> (r: Vec<String>)
    ensures
        r@ == v@,
        r.deep_view() == v.deep_view(),
{
    let r = v.clone();
    proof {
        assert forall|i: int| 0 <= i < v@.len() implies r@[i] == v@[i] by {
            assert(cloned::<String>(v@[i], r@[i]));
        }
        assert(v@ =~= r@);
        assert(r.deep_view() =~= v.deep_view());
    }
    r
}

/// Renders `segs` joined by `sep`, the string form of a namespace path.
pub open spec fn join_segs(segs: Seq<Seq<char>>, sep: Seq<char>) -> Seq<char>
    decreases segs.len(),
{
    if segs.len() == 0 {
        Seq::empty()
    } else if segs.len() == 1 {
        segs[0]
    } else {
        segs[0] + sep + join_segs(segs.drop_first(), sep)
    }
}

/// Appending one segment extends the rendered form by a separator and
/// the segment (or is the segment itself, at the front).
pub proof fn lemma_join_push(segs: Seq<Seq<char>>, sep: Seq<char>, x: Seq<char>)
    ensures
        join_segs(segs.push(x), sep) == if segs.len() == 0 {
            x
        } else {
            join_segs(segs, sep) + sep + x
        },
    decreases segs.len(),
{
    if segs.len() == 0 {
        assert(segs.push(x)[0] == x);
    } else if segs.len() == 1 {
        assert(segs.push(x).drop_first() =~= seq![x]);
        assert(join_segs(seq![x], sep) == seq![x][0]);
        assert(segs.push(x)[0] == segs[0]);
        assert(join_segs(segs.push(x), sep) == segs[0] + sep + x);
    } else {
        assert(segs.push(x).drop_first() =~= segs.drop_first().push(x));
        lemma_join_push(segs.drop_first(), sep, x);
        assert(join_segs(segs.push(x), sep) == segs[0] + sep + (join_segs(segs.drop_first(), sep)
            + sep + x));
        assert(segs[0] + sep + (join_segs(segs.drop_first(), sep) + sep + x) =~= (segs[0] + sep
            + join_segs(segs.drop_first(), sep)) + sep + x);
    }
}

/// An ordered sequence of namespace segments.  The root namespace is the
/// empty sequence.
pub struct Namespace {
    pub segments: Vec<String>,
}

impl View for Namespace {
    type V = Seq<Seq<char>>;

    open spec fn view(&self) -> Seq<Seq<char>> {
        self.segments.deep_view()
    }
}

impl Clone for Namespace {
    fn clone(&self) -> (r: Self)
        ensures
            r@ == self@,
    {
        Namespace { segments: clone_string_vec(&self.segments) }
    }
}

impl PartialEq for Namespace {
    fn eq(&self, other: &Self) -> (r: bool) {
        if self.segments.len() != other.segments.len() {
            proof {
                assert(self@.len() != other@.len());
            }
            return false;
        }
        let n = self.segments.len();
        let mut i: usize = 0;
        while i < n
            invariant
                n == self.segments.len(),
                n == other.segments.len(),
                i <= n,
                forall|j: int| 0 <= j < i ==> self@[j] == other@[j],
            decreases n - i,
        {
            if !(self.segments[i] == other.segments[i]) {
                assert(self@[i as int] != other@[i as int]);
                return false;
            }
            i = i + 1;
        }
        proof {
            assert(self@ =~= other@);
        }
        true
    }
}

impl vstd::std_specs::cmp::PartialEqSpecImpl for Namespace {
    open spec fn obeys_eq_spec() -> bool {
        true
    }

    open spec fn eq_spec(&self, other: &Self) -> bool {
        self@ == other@
    }
}

impl Namespace {
    /// The root (empty) namespace.
    pub fn new() -> (r: Self)
        ensures
            r@ == Seq::<Seq<char>>::empty(),
    {
        let r = Namespace { segments: Vec::new() };
        proof {
            assert(r@ =~= Seq::<Seq<char>>::empty());
        }
        r
    }

    /// A new namespace extended at the end by one segment.
    pub fn push(&self, seg: String) -> (r: Self)
        ensures
            r@ == self@.push(seg@),
    {
        let mut segs = clone_string_vec(&self.segments);
        segs.push(seg);
        let r = Namespace { segments: segs };
        proof {
            assert(r@ =~= self@.push(seg@));
        }
        r
    }

    pub fn is_empty(&self) -> (r: bool)
        ensures
            r == (self@.len() == 0),
    {
        self.segments.len() == 0
    }

    pub fn len(&self) -> (r: usize)
        ensures
            r == self@.len(),
    {
        self.segments.len()
    }

    /// Renders the path with `sep` between segments.
    pub fn render(&self, sep: &str) -> (r: String)
        ensures
            r@ == join_segs(self@, sep@),
    {
        let mut out = String::new();
        let n = self.segments.len();
        let mut i: usize = 0;
        while i < n
            invariant
                n == self.segments.len(),
                i <= n,
                out@ == join_segs(self@.take(i as int), sep@),
            decreases n - i,
        {
            if i > 0 {
                out.append(sep);
            }
            out.append(self.segments[i].as_str());
            proof {
                assert(self@.take(i + 1 as int).drop_last() =~= self@.take(i as int));
                assert(self@.take(i + 1 as int) =~= self@.take(i as int).push(self@[i as int]));
                lemma_join_push(self@.take(i as int), sep@, self@[i as int]);
            }
            i = i + 1;
        }
        proof {
            assert(self@.take(n as int) =~= self@);
        }
        out
    }
}

/// The view of a [`QualifiedName`]: namespace path plus local identifier.
pub struct QnV {
    pub ns: Seq<Seq<char>>,
    pub id: Seq<char>,
}

/// The native-style rendering of a qualified name, segments joined by `::`.
pub open spec fn cpp_name_of(q: QnV) -> Seq<char> {
    join_segs(q.ns.push(q.id), "::"@)
}

/// A declaration's identity: namespace path plus local identifier.
/// Equality is by the full path.
pub struct QualifiedName {
    pub ns: Namespace,
    pub id: String,
}

impl View for QualifiedName {
    type V = QnV;

    open spec fn view(&self) -> QnV {
        QnV { ns: self.ns@, id: self.id@ }
    }
}

impl Clone for QualifiedName {
    fn clone(&self) -> (r: Self)
        ensures
            r@ == self@,
    {
        QualifiedName { ns: self.ns.clone(), id: self.id.clone() }
    }
}

impl PartialEq for QualifiedName {
    fn eq(&self, other: &Self) -> (r: bool) {
        self.ns == other.ns && self.id == other.id
    }
}

impl vstd::std_specs::cmp::PartialEqSpecImpl for QualifiedName {
    open spec fn obeys_eq_spec() -> bool {
        true
    }

    open spec fn eq_spec(&self, other: &Self) -> bool {
        self@ == other@
    }
}

impl QualifiedName {
    pub fn new(ns: &Namespace, id: String) -> (r: Self)
        ensures
            r@ == (QnV { ns: ns@, id: id@ }),
    {
        QualifiedName { ns: ns.clone(), id }
    }

    /// A name in the root namespace.
    pub fn new_root(id: String) -> (r: Self)
        ensures
            r@ == (QnV { ns: Seq::<Seq<char>>::empty(), id: id@ }),
    {
        QualifiedName { ns: Namespace::new(), id }
    }

    pub fn get_final_ident(&self) -> (r: &String)
        ensures
            r@ == self@.id,
    {
        &self.id
    }

    pub fn get_namespace(&self) -> (r: &Namespace)
        ensures
            r@ == self@.ns,
    {
        &self.ns
    }

    pub fn has_namespace(&self) -> (r: bool)
        ensures
            r == (self@.ns.len() > 0),
    {
        self.ns.segments.len() > 0
    }

    /// The fully qualified native-style name, segments joined by `::`.
    pub fn to_cpp_name(&self) -> (r: String)
        ensures
            r@ == cpp_name_of(self@),
    {
        let mut out = self.ns.render("::");
        if self.ns.segments.len() > 0 {
            out.append("::");
        }
        out.append(self.id.as_str());
        proof {
            lemma_join_push(self@.ns, "::"@, self@.id);
        }
        out
    }
}

} // verus!
