//! The instruction database: opcode records, lookups, argument decoding, and
//! the named-value translations.

use crate::error::BBScriptError;
use crate::named_values::{nv_get_by_left, nv_get_by_right, nv_map};
use crate::num_text::{dec_rep, hex_rep, u32_decimal, u32_hex_prefixed};
use vstd::prelude::*;
use vstd::string::StringExecFns;

verus! {

/// One typed argument of an instruction, with its encoded width in bytes:
/// `Int` takes 4, `String16` takes 16, `String32` takes 32, and `Unknown(n)`
/// is `n` bytes of untyped trailing operand space.
#[derive(Debug, Clone, Copy, PartialEq, Eq, Structural)]
pub enum Arg {
    String16,
    String32,
    Int,
    Unknown(u32),
}

/// An instruction's role in the script's block structure.
#[derive(Debug, Clone, Copy, PartialEq, Eq, Structural)]
pub enum CodeBlock {
    Begin,
    BeginJumpEntry,
    End,
    NoBlock,
}

/// The typed arguments named by the descriptor bytes, scanned left to right:
/// `i` is an `Int`, `16s` a `String16`, `32s` a `String32`, and any other
/// byte is skipped without emitting anything.
pub open spec fn scan_args(s: Seq<u8>) -> Seq<Arg>
    decreases s.len(),
{
    if s.len() == 0 {
        Seq::empty()
    } else if s[0] == ('i' as u8) {
        seq![Arg::Int] + scan_args(s.skip(1))
    } else if s.len() >= 3 && s[0] == ('1' as u8) && s[1] == ('6' as u8) && s[2] == ('s' as u8) {
        seq![Arg::String16] + scan_args(s.skip(3))
    } else if s.len() >= 3 && s[0] == ('3' as u8) && s[1] == ('2' as u8) && s[2] == ('s' as u8) {
        seq![Arg::String32] + scan_args(s.skip(3))
    } else {
        scan_args(s.skip(1))
    }
}

/// The layout bytes consumed by the descriptor's arguments: 4 per `Int`,
/// 16 per `String16`, 32 per `String32`.
pub open spec fn scan_size(s: Seq<u8>) -> nat
    decreases s.len(),
{
    if s.len() == 0 {
        0
    } else if s[0] == ('i' as u8) {
        4 + scan_size(s.skip(1))
    } else if s.len() >= 3 && s[0] == ('1' as u8) && s[1] == ('6' as u8) && s[2] == ('s' as u8) {
        16 + scan_size(s.skip(3))
    } else if s.len() >= 3 && s[0] == ('3' as u8) && s[1] == ('2' as u8) && s[2] == ('s' as u8) {
        32 + scan_size(s.skip(3))
    } else {
        scan_size(s.skip(1))
    }
}

/// The full decoded argument sequence for a descriptor and a declared total
/// instruction size: the scanned arguments, plus one trailing `Unknown`
/// covering the operand bytes the descriptor leaves untyped. The trailer
/// appears only when the declared size is at least the 4 header bytes and
/// the scanned arguments consume less than the space after the header.
pub open spec fn decoded_args(s: Seq<u8>, size: u32) -> Seq<Arg> {
    if size >= 4 && scan_size(s) < size - 4 {
        scan_args(s).push(Arg::Unknown((size - 4 - scan_size(s)) as u32))
    } else {
        scan_args(s)
    }
}

/// One opcode definition: identifier, total encoded size, argument-layout
/// descriptor, display name, block role, and the named-value bindings.
#[derive(Debug)]
pub struct Function {
    pub id: u32,
    pub size: u32,
    pub args: Vec<u8>,
    pub name: String,
    pub code_block: CodeBlock,
    pub named_values: bimap::BiHashMap<(u32, i32), (u32, String)>,
}

/// The instruction database of one game: its records, in declaration order.
#[derive(Debug)]
pub struct GameDB {
    functions: Vec<Function>,
}

impl View for GameDB {
    type V = Seq<Function>;

    closed spec fn view(&self) -> Seq<Function> {
        self.functions@
    }
}

impl GameDB {
    /// Builds a database from its records, keeping their order.
    pub fn new(functions: Vec<Function>) -> (r: GameDB)
        ensures
            r@ == functions@,
    {
        GameDB { functions }
    }

    /// Linear scan in declaration order for the first record whose `id`
    /// matches; a miss is `UnknownFunction` carrying the id in hex.
    pub fn find_by_id(&self, id_in: u32) -> (r: Result<&Function, BBScriptError>)
        ensures
            match r {
                Ok(f) => f.id == id_in && (exists|i: int|
                    0 <= i < self@.len() && self@[i] == *f && (forall|j: int|
                        0 <= j < i ==> (#[trigger] self@[j]).id != id_in)),
                Err(e) => (forall|i: int|
                    0 <= i < self@.len() ==> (#[trigger] self@[i]).id != id_in) && (e matches
                BBScriptError::UnknownFunction(s) && s@ == seq!['0', 'x'] + hex_rep(id_in as nat)),
            },
    {
        let n: usize = self.functions.len();
        let mut i: usize = 0;
        while i < n
            invariant
                n == self.functions@.len(),
                0 <= i <= n,
                forall|j: int| 0 <= j < i ==> (#[trigger] self.functions@[j]).id != id_in,
            decreases n - i,
        {
            if self.functions[i].id == id_in {
                return Ok(&self.functions[i]);
            }
            i += 1;
        }
        Err(BBScriptError::UnknownFunction(u32_hex_prefixed(id_in)))
    }

    /// Linear scan in declaration order for the first record whose `name`
    /// matches exactly; a miss is `UnknownFunction` carrying the name.
    pub fn find_by_name(&self, name_in: &str) -> (r: Result<&Function, BBScriptError>)
        ensures
            match r {
                Ok(f) => f.name@ == name_in@ && (exists|i: int|
                    0 <= i < self@.len() && self@[i] == *f && (forall|j: int|
                        0 <= j < i ==> (#[trigger] self@[j]).name@ != name_in@)),
                Err(e) => (forall|i: int|
                    0 <= i < self@.len() ==> (#[trigger] self@[i]).name@ != name_in@) && (e matches
                BBScriptError::UnknownFunction(s) && s@ == name_in@),
            },
    {
        let target: String = name_in.to_owned();
        let n: usize = self.functions.len();
        let mut i: usize = 0;
        while i < n
            invariant
                target@ == name_in@,
                n == self.functions@.len(),
                0 <= i <= n,
                forall|j: int| 0 <= j < i ==> (#[trigger] self.functions@[j]).name@ != name_in@,
            decreases n - i,
        {
            if self.functions[i].name == target {
                return Ok(&self.functions[i]);
            }
            i += 1;
        }
        Err(BBScriptError::UnknownFunction(target))
    }
}

impl Function {
    /// Builds one record from its parts.
    pub fn new(
        id: u32,
        size: u32,
        args: Vec<u8>,
        name: String,
        code_block: CodeBlock,
        named_values: bimap::BiHashMap<(u32, i32), (u32, String)>,
    ) -> (r: Function)
        ensures
            r.id == id,
            r.size == size,
            r.args_bytes() == args@,
            r.name@ == name@,
            r.code_block == code_block,
            r.nv() == nv_map(named_values),
    {
        Function { id, size, args, name, code_block, named_values }
    }

    /// The bytes of the argument-layout descriptor.
    pub open spec fn args_bytes(&self) -> Seq<u8> {
        self.args@
    }

    /// The record's named-value bindings: each bound `(slot, raw value)`,
    /// mapped to its `(slot, name)`.
    pub open spec fn nv(&self) -> Map<(u32, i32), (u32, Seq<char>)> {
        nv_map(self.named_values)
    }

    /// The raw value bound to `(slot, name)`. A name with no bound value has
    /// no meaningful fallback, so a miss is the error `NoAssociatedValue`
    /// carrying the slot (in decimal) and the name.
    pub fn get_value(&self, name: (u32, String)) -> (r: Result<i32, BBScriptError>)
        ensures
            match r {
                Ok(v) => (exists|l: (u32, i32)|
                    self.nv().contains_key(l) && self.nv()[l] == (name.0, name.1@) && l.1 == v) && (
                forall|l: (u32, i32)|
                    self.nv().contains_key(l) && #[trigger] self.nv()[l] == (name.0, name.1@) ==> l.1
                        == v),
                Err(e) => (forall|l: (u32, i32)|
                    self.nv().contains_key(l) ==> #[trigger] self.nv()[l] != (name.0, name.1@)) && (
                e matches BBScriptError::NoAssociatedValue(slot, n) && slot@ == dec_rep(
                    name.0 as nat,
                ) && n@ == name.1@),
            },
    {
        match nv_get_by_right(&self.named_values, &name) {
            Some(l) => {
                proof {
                    assert(self.nv().contains_key(l) && self.nv()[l] == (name.0, name.1@));
                }
                Ok(l.1)
            },
            None => Err(BBScriptError::NoAssociatedValue(u32_decimal(name.0), name.1)),
        }
    }

    /// The name bound to the raw `(slot, value)`, or `None` when it has none —
    /// an expected case, not an error: the caller falls back to the raw value.
    pub fn get_name(&self, value: (u32, i32)) -> (r: Option<String>)
        ensures
            match r {
                Some(s) => self.nv().contains_key(value) && s@ == self.nv()[value].1,
                None => !self.nv().contains_key(value),
            },
    {
        nv_get_by_left(&self.named_values, &value)
    }

    /// Decodes the argument-layout descriptor into the ordered argument
    /// sequence, untyped trailing operand space included. Pure and total:
    /// unrecognized descriptor bytes are skipped, never an error.
    pub fn get_args(&self) -> (r: Vec<Arg>)
        ensures
            r@ == decoded_args(self.args_bytes(), self.size),
    {
        let n: usize = self.args.len();
        let mut acc: Vec<Arg> = Vec::new();
        let mut i: usize = 0;
        let mut consumed: u64 = 0;
        let ghost mut scanned: nat = 0;
        proof {
            assert(self.args@.skip(0) =~= self.args@);
            assert(acc@ + scan_args(self.args@) =~= scan_args(self.args@));
        }
        while i < n
            invariant
                n == self.args@.len(),
                0 <= i <= n,
                scan_args(self.args@) == acc@ + scan_args(self.args@.skip(i as int)),
                scan_size(self.args@) == scanned + scan_size(self.args@.skip(i as int)),
                consumed == (if scanned <= 0x1_0000_0000nat {
                    scanned
                } else {
                    0x1_0000_0000nat
                }),
            decreases n - i,
        {
            let ghost rest = self.args@.skip(i as int);
            let ghost prev = acc@;
            let b: u8 = self.args[i];
            if b == ('i' as u8) {
                acc.push(Arg::Int);
                let t: u64 = consumed + 4;
                consumed = if t > 0x1_0000_0000 {
                    0x1_0000_0000
                } else {
                    t
                };
                proof {
                    scanned = scanned + 4;
                    assert(rest.skip(1) =~= self.args@.skip(i as int + 1));
                    assert(acc@ =~= prev + seq![Arg::Int]);
                    assert((prev + seq![Arg::Int]) + scan_args(rest.skip(1)) =~= prev + (
                    seq![Arg::Int] + scan_args(rest.skip(1))));
                }
                i += 1;
            } else if b == ('1' as u8) && n - i > 2 && self.args[i + 1] == ('6' as u8) && self.args[i + 2]
                == ('s' as u8) {
                acc.push(Arg::String16);
                let t: u64 = consumed + 16;
                consumed = if t > 0x1_0000_0000 {
                    0x1_0000_0000
                } else {
                    t
                };
                proof {
                    scanned = scanned + 16;
                    assert(rest.skip(3) =~= self.args@.skip(i as int + 3));
                    assert(acc@ =~= prev + seq![Arg::String16]);
                    assert((prev + seq![Arg::String16]) + scan_args(rest.skip(3)) =~= prev + (
                    seq![Arg::String16] + scan_args(rest.skip(3))));
                }
                i += 3;
            } else if b == ('3' as u8) && n - i > 2 && self.args[i + 1] == ('2' as u8) && self.args[i + 2]
                == ('s' as u8) {
                acc.push(Arg::String32);
                let t: u64 = consumed + 32;
                consumed = if t > 0x1_0000_0000 {
                    0x1_0000_0000
                } else {
                    t
                };
                proof {
                    scanned = scanned + 32;
                    assert(rest.skip(3) =~= self.args@.skip(i as int + 3));
                    assert(acc@ =~= prev + seq![Arg::String32]);
                    assert((prev + seq![Arg::String32]) + scan_args(rest.skip(3)) =~= prev + (
                    seq![Arg::String32] + scan_args(rest.skip(3))));
                }
                i += 3;
            } else {
                proof {
                    assert(rest.skip(1) =~= self.args@.skip(i as int + 1));
                }
                i += 1;
            }
        }
        proof {
            assert(self.args@.skip(n as int) =~= Seq::<u8>::empty());
            assert(acc@ + scan_args(Seq::<u8>::empty()) =~= acc@);
        }
        if self.size >= 4 {
            let limit: u32 = self.size - 4;
            if consumed < limit as u64 {
                let leftover: u32 = limit - (consumed as u32);
                acc.push(Arg::Unknown(leftover));
            }
        }
        acc
    }

    /// The display label: `name` when non-empty, else `Unknown` followed by
    /// the decimal `id`. Never empty.
    pub fn instruction_name(&self) -> (r: String)
        ensures
            self.name@.len() > 0 ==> r@ == self.name@,
            self.name@.len() == 0 ==> r@ == "Unknown"@ + dec_rep(self.id as nat),
            r@.len() > 0,
    {
        if self.name.as_str().is_empty() {
            let num = u32_decimal(self.id);
            let label = String::from_str("Unknown").concat(num.as_str());
            proof {
                reveal_strlit("Unknown");
            }
            label
        } else {
            self.name.clone()
        }
    }

    /// True exactly for the jump-table block entry role.
    pub fn is_jump_entry(&self) -> (r: bool)
        ensures
            r == (self.code_block == CodeBlock::BeginJumpEntry),
    {
        self.code_block == CodeBlock::BeginJumpEntry
    }
}

/// With unique ids, a lookup by a record's own id can only find that record:
/// any index whose `id` equals `fs[i].id` is `i` itself, so the record that
/// `find_by_id` returns for `fs[i].id` carries the name `fs[i].name`.
pub proof fn lemma_find_by_id_inverse(fs: Seq<Function>, i: int, k: int)
    requires
        0 <= i < fs.len(),
        0 <= k < fs.len(),
        fs[k].id == fs[i].id,
        forall|j1: int, j2: int|
            0 <= j1 < fs.len() && 0 <= j2 < fs.len() && (#[trigger] fs[j1].id)
                == (#[trigger] fs[j2].id) ==> j1 == j2,
    ensures
        k == i,
        fs[k].name@ == fs[i].name@,
{
}

/// With unique names, a lookup by a record's own name can only find that
/// record: any index whose `name` equals `fs[i].name` is `i` itself, so the
/// record that `find_by_name` returns for `fs[i].name` carries the id
/// `fs[i].id`.
pub proof fn lemma_find_by_name_inverse(fs: Seq<Function>, i: int, k: int)
    requires
        0 <= i < fs.len(),
        0 <= k < fs.len(),
        fs[k].name@ == fs[i].name@,
        forall|j1: int, j2: int|
            0 <= j1 < fs.len() && 0 <= j2 < fs.len() && (#[trigger] fs[j1].name@)
                == (#[trigger] fs[j2].name@) ==> j1 == j2,
    ensures
        k == i,
        fs[k].id == fs[i].id,
{
}

/// Argument decoding is deterministic and pure: equal descriptor bytes and
/// equal declared sizes always decode to equal argument sequences.
pub proof fn lemma_decode_deterministic(a: Seq<u8>, a_size: u32, b: Seq<u8>, b_size: u32)
    requires
        a == b,
        a_size == b_size,
    ensures
        decoded_args(a, a_size) == decoded_args(b, b_size),
{
}

/// A raw value fetched for a bound `(slot, name)` key maps back to the same
/// name: when every binding pairs one slot with itself on both sides, the `v`
/// that `get_value((slot, name))` returns satisfies
/// `get_name((slot, v)) == Some(name)`.
pub proof fn lemma_value_name_round_trip(
    nv: Map<(u32, i32), (u32, Seq<char>)>,
    slot: u32,
    name: Seq<char>,
    v: i32,
)
    requires
        forall|l: (u32, i32)| nv.contains_key(l) ==> (#[trigger] nv[l]).0 == l.0,
        exists|l: (u32, i32)| #[trigger] nv.contains_key(l) && nv[l] == (slot, name) && l.1 == v,
    ensures
        nv.contains_key((slot, v)),
        nv[(slot, v)].1 == name,
{
    let l = choose|l: (u32, i32)| nv.contains_key(l) && nv[l] == (slot, name) && l.1 == v;
    assert(nv[l].0 == l.0);
    assert(l == (slot, v));
}

} // verus!
