//! A user-space mirror of the kernel's interest registry: which descriptors
//! are registered, and with which requested conditions.
//!
//! The kernel accepts an add only for a descriptor that is not registered,
//! and a modify or delete only for one that is; it also rejects the
//! documented invalid flag combinations around the exclusive-wake bit,
//! which is valid only when an interest is first added. A rejected call
//! leaves the registry unchanged. [`InterestRegistry`] reproduces exactly
//! that discipline, and the lemmas at the end state it for whole call
//! sequences.

use vstd::prelude::*;
use std::collections::HashMap;
use crate::flags::{
    has_bits, EPOLLERR, EPOLLET, EPOLLEXCLUSIVE, EPOLLHUP, EPOLLIN, EPOLLOUT, EPOLLWAKEUP,
};

verus! {

broadcast use vstd::std_specs::hash::group_hash_axioms;

/// Why the registry rejects a call.
#[derive(Clone, Copy, PartialEq, Eq, Structural, Debug)]
pub enum RegistryError {
    /// An add named a descriptor that is already registered.
    AlreadyRegistered,
    /// A modify or delete named a descriptor that is not registered.
    NotRegistered,
    /// The flag combination is invalid for the call: the exclusive-wake
    /// bit beside an incompatible condition in an add, in a modify's
    /// bits, or on the registration a modify names.
    InvalidFlags,
}

/// The only bits that may stand beside the exclusive-wake bit in an add.
pub const EXCLUSIVE_OK_BITS: u32 = EPOLLEXCLUSIVE | EPOLLIN | EPOLLOUT | EPOLLWAKEUP | EPOLLET
    | EPOLLHUP | EPOLLERR;

/// Whether a requested pattern is valid for an add: the exclusive-wake
/// bit, when present, tolerates only the companions of
/// [`EXCLUSIVE_OK_BITS`].
pub open spec fn add_bits_valid(bits: u32) -> bool {
    has_bits(bits, EPOLLEXCLUSIVE) ==> bits & EXCLUSIVE_OK_BITS == bits
}

/// Whether a requested pattern is valid for a modify: the exclusive-wake
/// bit is valid only in an add, never in a modify.
pub open spec fn modify_bits_valid(bits: u32) -> bool {
    !has_bits(bits, EPOLLEXCLUSIVE)
}

/// One call against the interest registry.
#[derive(Clone, Copy, PartialEq, Eq, Structural, Debug)]
pub enum RegOp {
    Add { fd: i32, bits: u32 },
    Modify { fd: i32, bits: u32 },
    Delete { fd: i32 },
}

/// The descriptor a call names.
pub open spec fn op_fd(op: RegOp) -> i32 {
    match op {
        RegOp::Add { fd, .. } => fd,
        RegOp::Modify { fd, .. } => fd,
        RegOp::Delete { fd } => fd,
    }
}

/// The requested bits of a call; a delete requests none.
pub open spec fn op_bits(op: RegOp) -> u32 {
    match op {
        RegOp::Add { bits, .. } => bits,
        RegOp::Modify { bits, .. } => bits,
        RegOp::Delete { .. } => 0,
    }
}

/// Whether the registry `m` accepts the call `op`: an add needs an
/// unregistered descriptor and bits valid for an add; a modify needs a
/// registered descriptor, bits valid for a modify, and a registration
/// made without the exclusive-wake bit; a delete needs a registered
/// descriptor.
pub open spec fn op_allowed(m: Map<i32, u32>, op: RegOp) -> bool {
    match op {
        RegOp::Add { fd, bits } => add_bits_valid(bits) && !m.contains_key(fd),
        RegOp::Modify { fd, bits } => modify_bits_valid(bits) && m.contains_key(fd) && !has_bits(
            m[fd],
            EPOLLEXCLUSIVE,
        ),
        RegOp::Delete { fd } => m.contains_key(fd),
    }
}

/// The exact result of a call against the registry `m`, with the kernel's
/// error precedence: an invalid flag combination in the requested bits is
/// reported before a membership error, and one on the named registration
/// after it.
pub open spec fn op_result(m: Map<i32, u32>, op: RegOp) -> Result<(), RegistryError> {
    match op {
        RegOp::Add { fd, bits } => if !add_bits_valid(bits) {
            Err(RegistryError::InvalidFlags)
        } else if m.contains_key(fd) {
            Err(RegistryError::AlreadyRegistered)
        } else {
            Ok(())
        },
        RegOp::Modify { fd, bits } => if !modify_bits_valid(bits) {
            Err(RegistryError::InvalidFlags)
        } else if !m.contains_key(fd) {
            Err(RegistryError::NotRegistered)
        } else if has_bits(m[fd], EPOLLEXCLUSIVE) {
            Err(RegistryError::InvalidFlags)
        } else {
            Ok(())
        },
        RegOp::Delete { fd } => if m.contains_key(fd) {
            Ok(())
        } else {
            Err(RegistryError::NotRegistered)
        },
    }
}

/// A call returns `Ok` exactly when the registry accepts it.
pub proof fn lemma_op_result_ok_iff_allowed(m: Map<i32, u32>, op: RegOp)
    ensures
        (op_result(m, op) is Ok) == op_allowed(m, op),
{
}

/// The registry after the call `op`: a rejected call changes nothing.
pub open spec fn apply_op(m: Map<i32, u32>, op: RegOp) -> Map<i32, u32> {
    if !op_allowed(m, op) {
        m
    } else {
        match op {
            RegOp::Add { fd, bits } => m.insert(fd, bits),
            RegOp::Modify { fd, bits } => m.insert(fd, bits),
            RegOp::Delete { fd } => m.remove(fd),
        }
    }
}

/// The registry after the calls of `ops`, in order, starting from `m`.
pub open spec fn run_ops(m: Map<i32, u32>, ops: Seq<RegOp>) -> Map<i32, u32>
    decreases ops.len(),
{
    if ops.len() == 0 {
        m
    } else {
        run_ops(apply_op(m, ops[0]), ops.drop_first())
    }
}

/// Whether the call at position `i` of `ops`, run from an empty registry,
/// succeeds.
pub open spec fn op_succeeds(ops: Seq<RegOp>, i: int) -> bool {
    op_allowed(run_ops(Map::empty(), ops.take(i)), ops[i])
}

/// The interest registry itself. Its view is the map from registered
/// descriptor to the requested condition bits.
pub struct InterestRegistry {
    entries: HashMap<i32, u32>,
}

impl View for InterestRegistry {
    type V = Map<i32, u32>;

    closed spec fn view(&self) -> Map<i32, u32> {
        self.entries@
    }
}

impl InterestRegistry {
    /// A fresh registry with nothing registered.
    pub fn new() -> (r: InterestRegistry)
        ensures
            r@ == Map::<i32, u32>::empty(),
    {
        InterestRegistry { entries: HashMap::new() }
    }

    /// Whether `fd` is currently registered.
    pub fn is_registered(&self, fd: i32) -> (r: bool)
        ensures
            r == self@.contains_key(fd),
    {
        self.entries.contains_key(&fd)
    }

    /// The condition bits `fd` is registered for, if it is registered.
    pub fn interest_of(&self, fd: i32) -> (r: Option<u32>)
        ensures
            r == if self@.contains_key(fd) {
                Some(self@[fd])
            } else {
                None::<u32>
            },
    {
        match self.entries.get(&fd) {
            Some(bits) => Some(*bits),
            None => None,
        }
    }

    /// How many descriptors are registered.
    pub fn len(&self) -> (r: usize)
        ensures
            r == self@.len(),
    {
        self.entries.len()
    }

    /// Registers `fd` for the conditions in `bits`. Fails, changing
    /// nothing, exactly when `bits` is invalid for an add or `fd` is
    /// already registered; [`op_result`] says which error comes first.
    pub fn add(&mut self, fd: i32, bits: u32) -> (r: Result<(), RegistryError>)
        ensures
            final(self)@ == apply_op(old(self)@, RegOp::Add { fd, bits }),
            r == op_result(old(self)@, RegOp::Add { fd, bits }),
    {
        if bits & EPOLLEXCLUSIVE == EPOLLEXCLUSIVE && bits & EXCLUSIVE_OK_BITS != bits {
            return Err(RegistryError::InvalidFlags);
        }
        if self.entries.contains_key(&fd) {
            Err(RegistryError::AlreadyRegistered)
        } else {
            self.entries.insert(fd, bits);
            Ok(())
        }
    }

    /// Replaces the interest of an already-registered `fd` by `bits`.
    /// Fails, changing nothing, exactly when `bits` is invalid for a
    /// modify, `fd` is not registered, or `fd`'s registration was made
    /// with the exclusive-wake bit; [`op_result`] says which error comes
    /// first.
    pub fn modify(&mut self, fd: i32, bits: u32) -> (r: Result<(), RegistryError>)
        ensures
            final(self)@ == apply_op(old(self)@, RegOp::Modify { fd, bits }),
            r == op_result(old(self)@, RegOp::Modify { fd, bits }),
    {
        if bits & EPOLLEXCLUSIVE == EPOLLEXCLUSIVE {
            return Err(RegistryError::InvalidFlags);
        }
        let current = match self.entries.get(&fd) {
            Some(existing) => *existing,
            None => {
                return Err(RegistryError::NotRegistered);
            },
        };
        if current & EPOLLEXCLUSIVE == EPOLLEXCLUSIVE {
            return Err(RegistryError::InvalidFlags);
        }
        self.entries.insert(fd, bits);
        Ok(())
    }

    /// Removes the registration of `fd`. Fails, changing nothing, exactly
    /// when `fd` is not registered; a second delete is not idempotent.
    pub fn delete(&mut self, fd: i32) -> (r: Result<(), RegistryError>)
        ensures
            final(self)@ == apply_op(old(self)@, RegOp::Delete { fd }),
            r == op_result(old(self)@, RegOp::Delete { fd }),
    {
        match self.entries.remove(&fd) {
            Some(_) => Ok(()),
            None => Err(RegistryError::NotRegistered),
        }
    }
}

/// Running a sequence and then one more call is the one call applied to the
/// result of the sequence.
proof fn lemma_run_ops_push(m: Map<i32, u32>, ops: Seq<RegOp>, op: RegOp)
    ensures
        run_ops(m, ops.push(op)) == apply_op(run_ops(m, ops), op),
    decreases ops.len(),
{
    reveal_with_fuel(run_ops, 2);
    if ops.len() == 0 {
        assert(ops.push(op)[0] == op);
        assert(ops.push(op).drop_first() =~= Seq::<RegOp>::empty());
        assert(run_ops(m, ops.push(op)) == run_ops(apply_op(m, op), Seq::<RegOp>::empty()));
    } else {
        assert(ops.push(op)[0] == ops[0]);
        assert(ops.push(op).drop_first() =~= ops.drop_first().push(op));
        lemma_run_ops_push(apply_op(m, ops[0]), ops.drop_first(), op);
        assert(run_ops(m, ops.push(op)) == run_ops(
            apply_op(m, ops[0]),
            ops.drop_first().push(op),
        ));
    }
}

/// A descriptor with no successful add among the first `i` calls is not
/// registered after them.
proof fn lemma_not_registered_without_add(ops: Seq<RegOp>, i: int, fd: i32)
    requires
        0 <= i <= ops.len(),
        forall|j: int|
            0 <= j < i ==> !(ops[j] is Add && op_fd(ops[j]) == fd && op_succeeds(ops, j)),
    ensures
        !run_ops(Map::empty(), ops.take(i)).contains_key(fd),
    decreases i,
{
    if i == 0 {
        assert(ops.take(0) =~= Seq::<RegOp>::empty());
    } else {
        lemma_not_registered_without_add(ops, i - 1, fd);
        assert(ops.take(i) =~= ops.take(i - 1).push(ops[i - 1]));
        lemma_run_ops_push(Map::empty(), ops.take(i - 1), ops[i - 1]);
        let m = run_ops(Map::empty(), ops.take(i - 1));
        if ops[i - 1] is Add && op_fd(ops[i - 1]) == fd && op_allowed(m, ops[i - 1]) {
            assert(op_succeeds(ops, i - 1));
        }
    }
}

/// A descriptor registered after the first `j` calls, with no successful
/// delete of it from position `j` up to `i`, is still registered after the
/// first `i` calls.
proof fn lemma_registered_persists(ops: Seq<RegOp>, j: int, i: int, fd: i32)
    requires
        0 <= j <= i <= ops.len(),
        run_ops(Map::empty(), ops.take(j)).contains_key(fd),
        forall|k: int|
            j <= k < i ==> !(ops[k] is Delete && op_fd(ops[k]) == fd && op_succeeds(ops, k)),
    ensures
        run_ops(Map::empty(), ops.take(i)).contains_key(fd),
    decreases i - j,
{
    if i > j {
        lemma_registered_persists(ops, j, i - 1, fd);
        assert(ops.take(i) =~= ops.take(i - 1).push(ops[i - 1]));
        lemma_run_ops_push(Map::empty(), ops.take(i - 1), ops[i - 1]);
        let m = run_ops(Map::empty(), ops.take(i - 1));
        if ops[i - 1] is Delete && op_fd(ops[i - 1]) == fd {
            assert(op_succeeds(ops, i - 1));
        }
    }
}

/// The registration discipline, first half: in any call sequence run from a
/// fresh registry, a modify or delete of a descriptor that no earlier
/// successful add named fails.
pub proof fn lemma_modify_delete_require_prior_add(ops: Seq<RegOp>, i: int)
    requires
        0 <= i < ops.len(),
        !(ops[i] is Add),
        forall|j: int|
            0 <= j < i ==> !(ops[j] is Add && op_fd(ops[j]) == op_fd(ops[i]) && op_succeeds(
                ops,
                j,
            )),
    ensures
        !op_succeeds(ops, i),
{
    lemma_not_registered_without_add(ops, i, op_fd(ops[i]));
}

/// A descriptor registered without the exclusive-wake bit stays
/// registered that way, as long as no successful delete of it intervenes:
/// an add of it is rejected while it is registered, and a modify that
/// succeeds cannot set the bit.
proof fn lemma_nonexclusive_registration_persists(ops: Seq<RegOp>, j: int, i: int, fd: i32)
    requires
        0 <= j <= i <= ops.len(),
        run_ops(Map::empty(), ops.take(j)).contains_key(fd),
        !has_bits(run_ops(Map::empty(), ops.take(j))[fd], EPOLLEXCLUSIVE),
        forall|k: int|
            j <= k < i ==> !(ops[k] is Delete && op_fd(ops[k]) == fd && op_succeeds(ops, k)),
    ensures
        run_ops(Map::empty(), ops.take(i)).contains_key(fd),
        !has_bits(run_ops(Map::empty(), ops.take(i))[fd], EPOLLEXCLUSIVE),
    decreases i - j,
{
    if i > j {
        lemma_nonexclusive_registration_persists(ops, j, i - 1, fd);
        assert(ops.take(i) =~= ops.take(i - 1).push(ops[i - 1]));
        lemma_run_ops_push(Map::empty(), ops.take(i - 1), ops[i - 1]);
        let m = run_ops(Map::empty(), ops.take(i - 1));
        if ops[i - 1] is Delete && op_fd(ops[i - 1]) == fd {
            assert(op_succeeds(ops, i - 1));
        }
    }
}

/// The registration discipline owes success too, for a delete: a delete
/// of a descriptor that an earlier successful add named, with no
/// successful delete of it in between, succeeds.
pub proof fn lemma_prior_add_allows_delete(ops: Seq<RegOp>, j: int, i: int)
    requires
        0 <= j < i < ops.len(),
        ops[j] is Add,
        ops[i] is Delete,
        op_fd(ops[j]) == op_fd(ops[i]),
        op_succeeds(ops, j),
        forall|k: int|
            j < k < i ==> !(ops[k] is Delete && op_fd(ops[k]) == op_fd(ops[i]) && op_succeeds(
                ops,
                k,
            )),
    ensures
        op_succeeds(ops, i),
{
    let fd = op_fd(ops[i]);
    assert(ops.take(j + 1) =~= ops.take(j).push(ops[j]));
    lemma_run_ops_push(Map::empty(), ops.take(j), ops[j]);
    assert(run_ops(Map::empty(), ops.take(j + 1)).contains_key(fd));
    lemma_registered_persists(ops, j + 1, i, fd);
}

/// The same for a modify, with the exclusive-wake caveats the kernel
/// imposes: a modify whose bits are valid for a modify, of a descriptor
/// that an earlier successful add registered without the exclusive-wake
/// bit, with no successful delete of it in between, succeeds.
pub proof fn lemma_prior_add_allows_modify(ops: Seq<RegOp>, j: int, i: int)
    requires
        0 <= j < i < ops.len(),
        ops[j] is Add,
        ops[i] is Modify,
        op_fd(ops[j]) == op_fd(ops[i]),
        op_succeeds(ops, j),
        !has_bits(op_bits(ops[j]), EPOLLEXCLUSIVE),
        modify_bits_valid(op_bits(ops[i])),
        forall|k: int|
            j < k < i ==> !(ops[k] is Delete && op_fd(ops[k]) == op_fd(ops[i]) && op_succeeds(
                ops,
                k,
            )),
    ensures
        op_succeeds(ops, i),
{
    let fd = op_fd(ops[i]);
    assert(ops.take(j + 1) =~= ops.take(j).push(ops[j]));
    lemma_run_ops_push(Map::empty(), ops.take(j), ops[j]);
    assert(run_ops(Map::empty(), ops.take(j + 1)).contains_key(fd));
    assert(run_ops(Map::empty(), ops.take(j + 1))[fd] == op_bits(ops[j]));
    lemma_nonexclusive_registration_persists(ops, j + 1, i, fd);
}

/// The registration discipline, second half: in any call sequence run from
/// a fresh registry, a second add of a descriptor fails when no successful
/// delete of it stands between the two adds.
pub proof fn lemma_second_add_fails(ops: Seq<RegOp>, j: int, i: int)
    requires
        0 <= j < i < ops.len(),
        ops[j] is Add,
        ops[i] is Add,
        op_fd(ops[j]) == op_fd(ops[i]),
        op_succeeds(ops, j),
        forall|k: int|
            j < k < i ==> !(ops[k] is Delete && op_fd(ops[k]) == op_fd(ops[i]) && op_succeeds(
                ops,
                k,
            )),
    ensures
        !op_succeeds(ops, i),
{
    let fd = op_fd(ops[i]);
    assert(ops.take(j + 1) =~= ops.take(j).push(ops[j]));
    lemma_run_ops_push(Map::empty(), ops.take(j), ops[j]);
    assert(run_ops(Map::empty(), ops.take(j + 1)).contains_key(fd));
    lemma_registered_persists(ops, j + 1, i, fd);
}

} // verus!
