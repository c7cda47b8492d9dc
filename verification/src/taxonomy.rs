//! The closed taxonomy of vulnerability classes: identifiers, categories,
//! and the registry that validation resolves marker tags against.

use vstd::prelude::*;
use crate::bytes::bytes_eq;

verus! {

/// The category a vulnerability class belongs to.
#[derive(Clone, Copy, PartialEq, Eq, Structural, Debug)]
pub enum Category {
    Authorization,
    PdaDerivation,
    CpiSafety,
    StateConfusion,
}

#[derive(Clone, Copy, PartialEq, Eq, Structural, Debug)]
pub enum RegistryError {
    DuplicateClass,
    UnknownClass,
}

/// One registered vulnerability class.
#[derive(Debug, PartialEq, Eq)]
pub struct VulnClass {
    pub id: Vec<u8>,
    pub category: Category,
}

/// The registry of recognized classes, populated once in a fixed order and
/// read-only afterwards.
pub struct Registry {
    pub classes: Vec<VulnClass>,
}

/// Membership of a byte string in a sequence of byte strings.
pub open spec fn seq_contains(ids: Seq<Seq<u8>>, c: Seq<u8>) -> bool {
    exists|k: int| 0 <= k < ids.len() && ids[k] == c
}

impl Registry {
    /// The registered identifiers, in registration order.
    pub open spec fn ids(self) -> Seq<Seq<u8>> {
        Seq::new(self.classes@.len(), |k: int| self.classes@[k].id@)
    }

    pub open spec fn contains_id(self, c: Seq<u8>) -> bool {
        seq_contains(self.ids(), c)
    }

    /// Well-formed: no identifier registered twice.
    pub open spec fn wf(self) -> bool {
        forall|k1: int, k2: int|
            0 <= k1 < k2 < self.ids().len() ==> self.ids()[k1] != self.ids()[k2]
    }

    pub fn new() -> (r: Registry)
        ensures
            r.wf(),
            r.ids().len() == 0,
    {
        Registry { classes: Vec::new() }
    }

    pub fn len(&self) -> (n: usize)
        ensures
            n == self.ids().len(),
    {
        self.classes.len()
    }

    /// Whether `id` resolves in the registry.
    pub fn contains(&self, id: &Vec<u8>) -> (r: bool)
        ensures
            r == self.contains_id(id@),
    {
        let mut k: usize = 0;
        while k < self.classes.len()
            invariant
                k <= self.classes@.len(),
                forall|m: int| 0 <= m < k ==> self.ids()[m] != id@,
            decreases self.classes@.len() - k,
        {
            if bytes_eq(&self.classes[k].id, id) {
                proof {
                    assert(self.ids()[k as int] == id@);
                }
                return true;
            }
            k = k + 1;
        }
        false
    }

    /// Adds a class, failing when the identifier is already registered.
    pub fn register(&mut self, id: Vec<u8>, category: Category) -> (r: Result<(), RegistryError>)
        requires
            old(self).wf(),
        ensures
            final(self).wf(),
            old(self).contains_id(id@) ==> r == Result::<(), RegistryError>::Err(
                RegistryError::DuplicateClass,
            ) && final(self).ids() == old(self).ids(),
            !old(self).contains_id(id@) ==> r is Ok && final(self).ids() == old(self).ids().push(
                id@,
            ) && final(self).classes@ == old(self).classes@.push((VulnClass { id, category })),
    {
        if self.contains(&id) {
            return Err(RegistryError::DuplicateClass);
        }
        let ghost before = self.ids();
        self.classes.push(VulnClass { id, category });
        proof {
            assert(self.ids() =~= before.push(self.classes@.last().id@));
        }
        Ok(())
    }

    /// Resolves `id` to its category, failing when it is not registered.
    pub fn lookup(&self, id: &Vec<u8>) -> (r: Result<Category, RegistryError>)
        ensures
            match r {
                Ok(cat) => exists|k: int|
                    0 <= k < self.classes@.len() && self.classes@[k].id@ == id@
                        && self.classes@[k].category == cat,
                Err(e) => e == RegistryError::UnknownClass && !self.contains_id(id@),
            },
    {
        let mut k: usize = 0;
        while k < self.classes.len()
            invariant
                k <= self.classes@.len(),
                forall|m: int| 0 <= m < k ==> self.ids()[m] != id@,
            decreases self.classes@.len() - k,
        {
            if bytes_eq(&self.classes[k].id, id) {
                return Ok(self.classes[k].category);
            }
            k = k + 1;
        }
        proof {
            assert(forall|m: int|
                0 <= m < self.ids().len() ==> self.ids()[m] != id@);
        }
        Err(RegistryError::UnknownClass)
    }
}

/// `missing_signer_check` as bytes.
pub open spec fn id_missing_signer_check() -> Seq<u8> {
    seq![109u8, 105u8, 115u8, 115u8, 105u8, 110u8, 103u8, 95u8, 115u8, 105u8, 103u8, 110u8, 101u8, 114u8, 95u8, 99u8, 104u8, 101u8, 99u8, 107u8]
}

fn id_missing_signer_check_exec() -> (out: Vec<u8>)
    ensures
        out@ == id_missing_signer_check(),
{
    let mut out: Vec<u8> = Vec::new();
    out.push(109);
    out.push(105);
    out.push(115);
    out.push(115);
    out.push(105);
    out.push(110);
    out.push(103);
    out.push(95);
    out.push(115);
    out.push(105);
    out.push(103);
    out.push(110);
    out.push(101);
    out.push(114);
    out.push(95);
    out.push(99);
    out.push(104);
    out.push(101);
    out.push(99);
    out.push(107);
    proof {
        assert(out@ =~= id_missing_signer_check());
    }
    out
}

/// `missing_has_one` as bytes.
pub open spec fn id_missing_has_one() -> Seq<u8> {
    seq![109u8, 105u8, 115u8, 115u8, 105u8, 110u8, 103u8, 95u8, 104u8, 97u8, 115u8, 95u8, 111u8, 110u8, 101u8]
}

fn id_missing_has_one_exec() -> (out: Vec<u8>)
    ensures
        out@ == id_missing_has_one(),
{
    let mut out: Vec<u8> = Vec::new();
    out.push(109);
    out.push(105);
    out.push(115);
    out.push(115);
    out.push(105);
    out.push(110);
    out.push(103);
    out.push(95);
    out.push(104);
    out.push(97);
    out.push(115);
    out.push(95);
    out.push(111);
    out.push(110);
    out.push(101);
    proof {
        assert(out@ =~= id_missing_has_one());
    }
    out
}

/// `non_canonical_bump` as bytes.
pub open spec fn id_non_canonical_bump() -> Seq<u8> {
    seq![110u8, 111u8, 110u8, 95u8, 99u8, 97u8, 110u8, 111u8, 110u8, 105u8, 99u8, 97u8, 108u8, 95u8, 98u8, 117u8, 109u8, 112u8]
}

fn id_non_canonical_bump_exec() -> (out: Vec<u8>)
    ensures
        out@ == id_non_canonical_bump(),
{
    let mut out: Vec<u8> = Vec::new();
    out.push(110);
    out.push(111);
    out.push(110);
    out.push(95);
    out.push(99);
    out.push(97);
    out.push(110);
    out.push(111);
    out.push(110);
    out.push(105);
    out.push(99);
    out.push(97);
    out.push(108);
    out.push(95);
    out.push(98);
    out.push(117);
    out.push(109);
    out.push(112);
    proof {
        assert(out@ =~= id_non_canonical_bump());
    }
    out
}

/// `seed_collision` as bytes.
pub open spec fn id_seed_collision() -> Seq<u8> {
    seq![115u8, 101u8, 101u8, 100u8, 95u8, 99u8, 111u8, 108u8, 108u8, 105u8, 115u8, 105u8, 111u8, 110u8]
}

fn id_seed_collision_exec() -> (out: Vec<u8>)
    ensures
        out@ == id_seed_collision(),
{
    let mut out: Vec<u8> = Vec::new();
    out.push(115);
    out.push(101);
    out.push(101);
    out.push(100);
    out.push(95);
    out.push(99);
    out.push(111);
    out.push(108);
    out.push(108);
    out.push(105);
    out.push(115);
    out.push(105);
    out.push(111);
    out.push(110);
    proof {
        assert(out@ =~= id_seed_collision());
    }
    out
}

/// `attacker_controlled_seed` as bytes.
pub open spec fn id_attacker_controlled_seed() -> Seq<u8> {
    seq![97u8, 116u8, 116u8, 97u8, 99u8, 107u8, 101u8, 114u8, 95u8, 99u8, 111u8, 110u8, 116u8, 114u8, 111u8, 108u8, 108u8, 101u8, 100u8, 95u8, 115u8, 101u8, 101u8, 100u8]
}

fn id_attacker_controlled_seed_exec() -> (out: Vec<u8>)
    ensures
        out@ == id_attacker_controlled_seed(),
{
    let mut out: Vec<u8> = Vec::new();
    out.push(97);
    out.push(116);
    out.push(116);
    out.push(97);
    out.push(99);
    out.push(107);
    out.push(101);
    out.push(114);
    out.push(95);
    out.push(99);
    out.push(111);
    out.push(110);
    out.push(116);
    out.push(114);
    out.push(111);
    out.push(108);
    out.push(108);
    out.push(101);
    out.push(100);
    out.push(95);
    out.push(115);
    out.push(101);
    out.push(101);
    out.push(100);
    proof {
        assert(out@ =~= id_attacker_controlled_seed());
    }
    out
}

/// `arbitrary_cpi` as bytes.
pub open spec fn id_arbitrary_cpi() -> Seq<u8> {
    seq![97u8, 114u8, 98u8, 105u8, 116u8, 114u8, 97u8, 114u8, 121u8, 95u8, 99u8, 112u8, 105u8]
}

fn id_arbitrary_cpi_exec() -> (out: Vec<u8>)
    ensures
        out@ == id_arbitrary_cpi(),
{
    let mut out: Vec<u8> = Vec::new();
    out.push(97);
    out.push(114);
    out.push(98);
    out.push(105);
    out.push(116);
    out.push(114);
    out.push(97);
    out.push(114);
    out.push(121);
    out.push(95);
    out.push(99);
    out.push(112);
    out.push(105);
    proof {
        assert(out@ =~= id_arbitrary_cpi());
    }
    out
}

/// `cpi_reentrancy` as bytes.
pub open spec fn id_cpi_reentrancy() -> Seq<u8> {
    seq![99u8, 112u8, 105u8, 95u8, 114u8, 101u8, 101u8, 110u8, 116u8, 114u8, 97u8, 110u8, 99u8, 121u8]
}

fn id_cpi_reentrancy_exec() -> (out: Vec<u8>)
    ensures
        out@ == id_cpi_reentrancy(),
{
    let mut out: Vec<u8> = Vec::new();
    out.push(99);
    out.push(112);
    out.push(105);
    out.push(95);
    out.push(114);
    out.push(101);
    out.push(101);
    out.push(110);
    out.push(116);
    out.push(114);
    out.push(97);
    out.push(110);
    out.push(99);
    out.push(121);
    proof {
        assert(out@ =~= id_cpi_reentrancy());
    }
    out
}

/// `cpi_signer_seed_bypass` as bytes.
pub open spec fn id_cpi_signer_seed_bypass() -> Seq<u8> {
    seq![99u8, 112u8, 105u8, 95u8, 115u8, 105u8, 103u8, 110u8, 101u8, 114u8, 95u8, 115u8, 101u8, 101u8, 100u8, 95u8, 98u8, 121u8, 112u8, 97u8, 115u8, 115u8]
}

fn id_cpi_signer_seed_bypass_exec() -> (out: Vec<u8>)
    ensures
        out@ == id_cpi_signer_seed_bypass(),
{
    let mut out: Vec<u8> = Vec::new();
    out.push(99);
    out.push(112);
    out.push(105);
    out.push(95);
    out.push(115);
    out.push(105);
    out.push(103);
    out.push(110);
    out.push(101);
    out.push(114);
    out.push(95);
    out.push(115);
    out.push(101);
    out.push(101);
    out.push(100);
    out.push(95);
    out.push(98);
    out.push(121);
    out.push(112);
    out.push(97);
    out.push(115);
    out.push(115);
    proof {
        assert(out@ =~= id_cpi_signer_seed_bypass());
    }
    out
}

/// `account_type_confusion` as bytes.
pub open spec fn id_account_type_confusion() -> Seq<u8> {
    seq![97u8, 99u8, 99u8, 111u8, 117u8, 110u8, 116u8, 95u8, 116u8, 121u8, 112u8, 101u8, 95u8, 99u8, 111u8, 110u8, 102u8, 117u8, 115u8, 105u8, 111u8, 110u8]
}

fn id_account_type_confusion_exec() -> (out: Vec<u8>)
    ensures
        out@ == id_account_type_confusion(),
{
    let mut out: Vec<u8> = Vec::new();
    out.push(97);
    out.push(99);
    out.push(99);
    out.push(111);
    out.push(117);
    out.push(110);
    out.push(116);
    out.push(95);
    out.push(116);
    out.push(121);
    out.push(112);
    out.push(101);
    out.push(95);
    out.push(99);
    out.push(111);
    out.push(110);
    out.push(102);
    out.push(117);
    out.push(115);
    out.push(105);
    out.push(111);
    out.push(110);
    proof {
        assert(out@ =~= id_account_type_confusion());
    }
    out
}

/// The corpus's closed taxonomy, in its fixed registration order.
pub open spec fn corpus_taxonomy() -> Seq<(Seq<u8>, Category)> {
    seq![
        (id_missing_signer_check(), Category::Authorization),
        (id_missing_has_one(), Category::Authorization),
        (id_non_canonical_bump(), Category::PdaDerivation),
        (id_seed_collision(), Category::PdaDerivation),
        (id_attacker_controlled_seed(), Category::PdaDerivation),
        (id_arbitrary_cpi(), Category::CpiSafety),
        (id_cpi_reentrancy(), Category::CpiSafety),
        (id_cpi_signer_seed_bypass(), Category::CpiSafety),
        (id_account_type_confusion(), Category::StateConfusion),
    ]
}

/// Builds the registry of the corpus's closed taxonomy, in its fixed
/// order, so diagnostics are reproducible across runs.
pub fn corpus_registry() -> (r: Registry)
    ensures
        r.wf(),
        r.classes@.len() == corpus_taxonomy().len(),
        forall|k: int|
            0 <= k < r.classes@.len() ==> (#[trigger] r.classes@[k]).id@ == corpus_taxonomy()[k].0
                && r.classes@[k].category == corpus_taxonomy()[k].1,
{
    let mut reg = Registry::new();
    proof {
        assert(id_seed_collision()[0] == 115u8);
        assert(id_cpi_reentrancy()[0] == 99u8);
        assert(id_cpi_signer_seed_bypass()[0] == 99u8);
        assert(id_account_type_confusion()[0] == 97u8);
    }
    proof {
        assert(!reg.contains_id(id_missing_signer_check()));
    }
    let _res_missing_signer_check = reg.register(id_missing_signer_check_exec(), Category::Authorization);
    proof {
        assert(!reg.contains_id(id_missing_has_one()));
    }
    let _res_missing_has_one = reg.register(id_missing_has_one_exec(), Category::Authorization);
    proof {
        assert(!reg.contains_id(id_non_canonical_bump()));
    }
    let _res_non_canonical_bump = reg.register(id_non_canonical_bump_exec(), Category::PdaDerivation);
    proof {
        assert(!reg.contains_id(id_seed_collision()));
    }
    let _res_seed_collision = reg.register(id_seed_collision_exec(), Category::PdaDerivation);
    proof {
        assert(!reg.contains_id(id_attacker_controlled_seed()));
    }
    let _res_attacker_controlled_seed = reg.register(id_attacker_controlled_seed_exec(), Category::PdaDerivation);
    proof {
        assert(!reg.contains_id(id_arbitrary_cpi()));
    }
    let _res_arbitrary_cpi = reg.register(id_arbitrary_cpi_exec(), Category::CpiSafety);
    proof {
        assert(!reg.contains_id(id_cpi_reentrancy()));
    }
    let _res_cpi_reentrancy = reg.register(id_cpi_reentrancy_exec(), Category::CpiSafety);
    proof {
        assert(!reg.contains_id(id_cpi_signer_seed_bypass()));
    }
    let _res_cpi_signer_seed_bypass = reg.register(id_cpi_signer_seed_bypass_exec(), Category::CpiSafety);
    proof {
        assert(!reg.contains_id(id_account_type_confusion()));
    }
    let _res_account_type_confusion = reg.register(id_account_type_confusion_exec(), Category::StateConfusion);
    proof {
        assert forall|k: int|
            0 <= k < reg.classes@.len() implies (#[trigger] reg.classes@[k]).id@
            == corpus_taxonomy()[k].0 && reg.classes@[k].category == corpus_taxonomy()[k].1 by {
        }
    }
    reg
}

} // verus!
