//! Numeric identifiers for names, and the table that keeps them injective.
use vstd::prelude::*;

verus! {

/// Identifiers are engine numbers, which hold 60 bits.
pub const ID_LIMIT: u64 = 0x1000_0000_0000_0000;

/// What FxHash gives for a string with these characters.
pub uninterp spec fn fx_hash_of(s: Seq<char>) -> u64;

/// Relies on fxhash::hash64: FxHash of the string's bytes, a function of its
/// characters alone (the hasher is not seeded).
#[verifier::external_body]
fn fx_hash(s: &str) -> (r: u64)
    ensures
        r == fx_hash_of(s@),
{
    fxhash::hash64(s)
}

/// The structural hash of a name that generated rules carry.
pub fn hash_name(s: &str) -> (r: u64)
    ensures
        r == fx_hash_of(s@),
{
    fx_hash(s)
}

/// The identifier of a name: the high 60 bits of its hash, which fit the
/// engine's numbers.
pub open spec fn id_of(s: Seq<char>) -> u64 {
    (fx_hash_of(s) / 16) as u64
}

/// The numeric identifier of a name.
pub fn name_id(s: &str) -> (r: u64)
    ensures
        r == id_of(s@),
        r < ID_LIMIT,
{
    fx_hash(s) / 16
}

/// A name whose identifier is taken by another name already.
#[derive(Debug, PartialEq, Eq)]
pub struct Collision {
    pub id: u64,
    pub existing: String,
    pub incoming: String,
}

/// The names seen in one run, each with its identifier.
pub struct NameTable {
    entries: Vec<(u64, String)>,
}

/// Some name in `names` other than `n` has the identifier of `n`.
pub open spec fn collides(names: Seq<Seq<char>>, n: Seq<char>) -> bool {
    exists|i: int| 0 <= i < names.len() && names[i] != n && id_of(#[trigger] names[i]) == id_of(n)
}

/// The names after `n` was encoded without a collision.
pub open spec fn with_name(names: Seq<Seq<char>>, n: Seq<char>) -> Seq<Seq<char>> {
    if names.contains(n) { names } else { names.push(n) }
}

/// No two names of the sequence share an identifier.
pub open spec fn ids_distinct(names: Seq<Seq<char>>) -> bool {
    forall|i: int, j: int|
        0 <= i < names.len() && 0 <= j < names.len() && i != j
            ==> id_of(#[trigger] names[i]) != id_of(#[trigger] names[j])
}

impl NameTable {
    /// The names in the table, in the order they were first encoded.
    pub closed spec fn names(&self) -> Seq<Seq<char>> {
        Seq::new(self.entries@.len(), |i: int| self.entries@[i].1@)
    }

    /// Each entry holds the identifier of its name, and no two names share one.
    pub closed spec fn wf(&self) -> bool {
        &&& forall|i: int| 0 <= i < self.entries@.len() ==> (#[trigger] self.entries@[i]).0 == id_of(self.entries@[i].1@)
        &&& ids_distinct(self.names())
    }

    pub fn new() -> (r: NameTable)
        ensures
            r.wf(),
            r.names() == Seq::<Seq<char>>::empty(),
    {
        let r = NameTable { entries: Vec::new() };
        assert(r.names() =~= Seq::<Seq<char>>::empty());
        r
    }

    /// The identifier of `name`, recorded in the table; an error where another
    /// name of the table has the same identifier.
    pub fn encode_identifier(&mut self, name: &str) -> (r: Result<u64, Collision>)
        requires
            old(self).wf(),
        ensures
            final(self).wf(),
            r is Ok <==> !collides(old(self).names(), name@),
            r is Ok ==> r->Ok_0 == id_of(name@) && final(self).names() == with_name(old(self).names(), name@),
            r is Err ==> final(self).names() == old(self).names() && r->Err_0.id == id_of(name@)
                && id_of(r->Err_0.existing@) == id_of(name@)
                && r->Err_0.incoming@ == name@ && old(self).names().contains(r->Err_0.existing@)
                && r->Err_0.existing@ != name@,
    {
        let id = name_id(name);
        let mut i: usize = 0;
        while i < self.entries.len()
            invariant
                self.wf(),
                i <= self.entries@.len(),
                id == id_of(name@),
                forall|j: int| 0 <= j < i ==> (#[trigger] self.entries@[j]).0 != id,
            decreases self.entries@.len() - i,
        {
            if self.entries[i].0 == id {
                let existing = self.entries[i].1.clone();
                assert(self.names()[i as int] == existing@);
                let incoming = String::from_str(name);
                if existing == incoming {
                    assert(self.names()[i as int] == name@);
                    assert(self.names().contains(name@));
                    assert(!collides(self.names(), name@)) by {
                        if collides(self.names(), name@) {
                            let k = choose|k: int| 0 <= k < self.names().len() && self.names()[k] != name@ && id_of(#[trigger] self.names()[k]) == id_of(name@);
                            assert(k != i);
                        }
                    }
                    return Ok(id);
                }
                assert(self.names().contains(existing@));
                assert(collides(self.names(), name@)) by {
                    assert(self.names()[i as int] != name@ && id_of(self.names()[i as int]) == id_of(name@));
                }
                return Err(Collision { id, existing, incoming });
            }
            i = i + 1;
        }
        assert(!self.names().contains(name@)) by {
            if self.names().contains(name@) {
                let k = choose|k: int| 0 <= k < self.names().len() && self.names()[k] == name@;
                assert(self.entries@[k].0 == id);
            }
        }
        assert(!collides(self.names(), name@)) by {
            if collides(self.names(), name@) {
                let k = choose|k: int| 0 <= k < self.names().len() && self.names()[k] != name@ && id_of(#[trigger] self.names()[k]) == id_of(name@);
                assert(self.entries@[k].0 == id);
            }
        }
        let ghost before = self.names();
        self.entries.push((id, String::from_str(name)));
        assert(self.names() =~= before.push(name@));
        Ok(id)
    }

    /// The name with identifier `id`, if the table holds one.
    pub fn decode_identifier(&self, id: u64) -> (r: Option<String>)
        requires
            self.wf(),
        ensures
            r is Some <==> exists|i: int| 0 <= i < self.names().len() && id_of(#[trigger] self.names()[i]) == id,
            r is Some ==> self.names().contains(r->Some_0@) && id_of(r->Some_0@) == id,
    {
        let mut i: usize = 0;
        while i < self.entries.len()
            invariant
                self.wf(),
                i <= self.entries@.len(),
                forall|j: int| 0 <= j < i ==> (#[trigger] self.entries@[j]).0 != id,
            decreases self.entries@.len() - i,
        {
            if self.entries[i].0 == id {
                assert(self.names()[i as int] == self.entries@[i as int].1@);
                return Some(self.entries[i].1.clone());
            }
            i = i + 1;
        }
        assert(forall|k: int| 0 <= k < self.names().len() ==> id_of(#[trigger] self.names()[k]) != id) by {
            assert(forall|k: int| 0 <= k < self.names().len() ==> self.names()[k] == (#[trigger] self.entries@[k]).1@);
        }
        None
    }
}

/// Distinct names of a well-formed table have distinct identifiers.
pub proof fn lemma_table_injective(t: &NameTable, a: Seq<char>, b: Seq<char>)
    requires
        t.wf(),
        t.names().contains(a),
        t.names().contains(b),
        a != b,
    ensures
        id_of(a) != id_of(b),
{
    let i = choose|i: int| 0 <= i < t.names().len() && t.names()[i] == a;
    let j = choose|j: int| 0 <= j < t.names().len() && t.names()[j] == b;
    assert(i != j);
}

/// Encoding a name a second time gives the same identifier and leaves the
/// table as it was; two distinct names encoded one after the other never
/// share an identifier.
pub proof fn lemma_encode_stable_and_injective(names: Seq<Seq<char>>, a: Seq<char>, b: Seq<char>)
    requires
        !collides(names, a),
        !collides(with_name(names, a), b),
    ensures
        !collides(with_name(names, a), a),
        with_name(with_name(names, a), a) == with_name(names, a),
        a != b ==> id_of(a) != id_of(b),
{
    let after = with_name(names, a);
    if !names.contains(a) {
        assert(after[after.len() - 1] == a);
    }
    assert(after.contains(a));
    if collides(after, a) {
        let k = choose|k: int| 0 <= k < after.len() && after[k] != a && id_of(#[trigger] after[k]) == id_of(a);
        if k < names.len() {
            assert(names[k] == after[k]);
        }
    }
    if a != b {
        let k = choose|k: int| 0 <= k < after.len() && after[k] == a;
        assert(after[k] != b && id_of(after[k]) == id_of(a));
    }
}

} // verus!
