use vstd::prelude::*;
use crate::error::{fail, ParseError};
use vstd::string::StringSliceAdditionalSpecFns;

verus! {

broadcast use vstd::utf8::encode_utf8_decode_utf8;

/// The symbol environment as a mathematical value: the offset of the head
/// node, and the bindings after it, the most recent first.
pub struct Env {
    pub base: u64,
    pub binds: Seq<(Seq<char>, u64)>,
}

/// The largest offset among the bindings (0 when there are none).
pub open spec fn binds_max(b: Seq<(Seq<char>, u64)>) -> u64
    decreases b.len(),
{
    if b.len() == 0 {
        0
    } else if b[0].1 >= binds_max(b.drop_first()) {
        b[0].1
    } else {
        binds_max(b.drop_first())
    }
}

/// The largest offset the environment holds, the head's included; a new
/// slot goes 8 bytes past it.
pub open spec fn last_offset(e: Env) -> u64 {
    if e.base >= binds_max(e.binds) {
        e.base
    } else {
        binds_max(e.binds)
    }
}

/// The offset bound to `name`: its most recent binding.
pub open spec fn lookup(b: Seq<(Seq<char>, u64)>, name: Seq<char>) -> Option<u64>
    decreases b.len(),
{
    if b.len() == 0 {
        None
    } else if b[0].0 == name {
        Some(b[0].1)
    } else {
        lookup(b.drop_first(), name)
    }
}

pub open spec fn bind(e: Env, name: Seq<char>, offset: u64) -> Env {
    Env { base: e.base, binds: seq![(name, offset)] + e.binds }
}

/// A symbol environment: a head node and the bindings chained after it,
/// the most recent first. Offsets are bytes below the frame pointer.
#[derive(Debug, PartialEq, Eq)]
pub struct Variable {
    pub name: String,
    pub offset: u64,
    pub next: Option<Box<Variable>>,
}

impl Variable {
    pub open spec fn bindings(&self) -> Seq<(Seq<char>, u64)>
        decreases self,
    {
        match self.next {
            None => Seq::empty(),
            Some(n) => seq![(n.name@, n.offset)] + n.bindings(),
        }
    }

    pub open spec fn env(&self) -> Env {
        Env { base: self.offset, binds: self.bindings() }
    }

    pub fn new(name: String, offset: u64, next: Option<Box<Variable>>) -> (r: Self)
        ensures
            r.name == name,
            r.offset == offset,
            r.next == next,
    {
        Self { name, offset, next }
    }

    /// Binds `name` to `offset`, in front of every earlier binding.
    pub fn push(&mut self, name: String, offset: u64)
        ensures
            final(self).env() == bind(old(self).env(), name@, offset),
            final(self).name == old(self).name,
    {
        let ghost before = self.bindings();
        let old_next = self.next.take();
        let node = Variable::new(name, offset, old_next);
        assert(node.bindings() == before);
        self.next = Some(Box::new(node));
    }

    /// The offset of the most recent binding of `name`.
    pub fn find(&self, name: &str) -> (r: Option<u64>)
        ensures
            r == lookup(self.bindings(), name@),
        decreases self,
    {
        match &self.next {
            None => None,
            Some(n) => {
                if str_eq(n.name.as_str(), name) {
                    Some(n.offset)
                } else {
                    let r = n.find(name);
                    assert((seq![(n.name@, n.offset)] + n.bindings()).drop_first() =~= n.bindings());
                    r
                }
            },
        }
    }

    /// The largest offset among the bindings after this node.
    fn chain_max(&self) -> (r: u64)
        ensures
            r == binds_max(self.bindings()),
        decreases self,
    {
        match &self.next {
            None => 0,
            Some(n) => {
                let m = n.chain_max();
                assert((seq![(n.name@, n.offset)] + n.bindings()).drop_first() =~= n.bindings());
                if n.offset >= m {
                    n.offset
                } else {
                    m
                }
            },
        }
    }

    /// The largest offset held, that a new slot is placed after.
    pub fn last_offset(&self) -> (r: u64)
        ensures
            r == last_offset(self.env()),
    {
        let m = self.chain_max();
        if self.offset >= m {
            self.offset
        } else {
            m
        }
    }
}

/// Whether two strings hold the same characters, compared byte by byte.
pub fn str_eq(a: &str, b: &str) -> (r: bool)
    ensures
        r == (a@ == b@),
{
    let x = a.as_bytes();
    let y = b.as_bytes();
    if x.len() != y.len() {
        return false;
    }
    let mut i: usize = 0;
    while i < x.len()
        invariant
            x.len() == y.len(),
            x@ == a.spec_bytes(),
            y@ == b.spec_bytes(),
            i <= x.len(),
            forall|k: int| 0 <= k < i ==> x@[k] == y@[k],
        decreases x.len() - i,
    {
        if x[i] != y[i] {
            return false;
        }
        i = i + 1;
    }
    assert(x@ =~= y@);
    assert(a@ == vstd::utf8::decode_utf8(a.spec_bytes()));
    true
}

// ---------------------------------------------------------------------
// Slot allocation, as the parser uses it.

/// Result of giving a name a slot: the offset and the environment after.
pub type SlotResult = Result<(u64, Env), (Seq<char>, usize)>;

/// A bare reference to `name`: its bound offset, or a fresh slot 8 bytes
/// past the largest one held, bound to it. `pos` is where an error would point.
pub open spec fn reference(e: Env, name: Seq<char>, pos: usize) -> SlotResult {
    match lookup(e.binds, name) {
        Some(off) => Ok((off, e)),
        None => declare(e, name, pos),
    }
}

/// A fresh slot for `name`, 8 bytes past the largest one held.
pub open spec fn declare(e: Env, name: Seq<char>, pos: usize) -> SlotResult {
    if last_offset(e) + 8 > u64::MAX {
        Err(("stack frame too large"@, pos))
    } else {
        let off = (last_offset(e) + 8) as u64;
        Ok((off, bind(e, name, off)))
    }
}

/// The offset of `name`, given a slot on first reference.
pub fn slot_of(vars: &mut Variable, name: &String, pos: usize) -> (r: Result<u64, ParseError>)
    ensures
        match reference(old(vars).env(), name@, pos) {
            Ok((off, e)) => r == Ok::<u64, ParseError>(off) && final(vars).env() == e,
            Err(err) => r matches Err(x) && x@ == err,
        },
{
    match vars.find(name.as_str()) {
        Some(off) => Ok(off),
        None => new_slot(vars, name, pos),
    }
}

/// Binds `name` to a fresh slot 8 bytes past the largest one held.
pub fn new_slot(vars: &mut Variable, name: &String, pos: usize) -> (r: Result<u64, ParseError>)
    ensures
        match declare(old(vars).env(), name@, pos) {
            Ok((off, e)) => r == Ok::<u64, ParseError>(off) && final(vars).env() == e,
            Err(err) => r matches Err(x) && x@ == err,
        },
{
    let last = vars.last_offset();
    if last > u64::MAX - 8 {
        return Err(fail("stack frame too large", pos));
    }
    let off = last + 8;
    vars.push(name.clone(), off);
    Ok(off)
}

/// A first reference to a name allocates the slot past the largest one, and a
/// second reference to it finds that same slot and changes nothing.
pub proof fn reference_is_idempotent(e: Env, name: Seq<char>, pos: usize)
    requires
        lookup(e.binds, name) is None,
        last_offset(e) + 8 <= u64::MAX,
    ensures
        reference(e, name, pos) matches Ok((off, e1)) && off == last_offset(e) + 8 && reference(
            e1,
            name,
            pos,
        ) == Ok::<(u64, Env), (Seq<char>, usize)>((off, e1)),
{
}

} // verus!
