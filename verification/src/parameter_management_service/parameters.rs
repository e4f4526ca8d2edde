//! Declared parameters: their values, the table that holds them under their hashes,
//! and unions of such tables.

use crate::bitbuffer::{BitBuffer, BitWriter, WriteError};
use crate::endian::{be_bytes, be_value, lemma_pow256_values};
use crate::ieee::{narrow_double, single_from_double};
use crate::parameter_management_service::{ParameterError, PusParameters};
use vstd::prelude::*;

verus! {

/// The value of one parameter. The two floating-point kinds hold the IEEE 754 bit
/// pattern of their number.
#[derive(Debug, Clone, Copy, PartialEq, Eq, Structural)]
pub enum ParameterValue {
    U8(u8),
    U16(u16),
    U32(u32),
    U64(u64),
    I8(i8),
    I16(i16),
    I32(i32),
    I64(i64),
    /// A binary32 number, by its bits.
    Single(u32),
    /// A binary64 number, by its bits.
    Double(u64),
}

/// The signed number that the `width` low bytes of a field denote in two's complement.
pub open spec fn signed_of(raw: nat, width: nat) -> int {
    let modulus = crate::endian::pow256(width);
    let low = raw % modulus;
    if 2 * low < modulus {
        low as int
    } else {
        low - modulus
    }
}

impl ParameterValue {
    /// The number of bytes that the value takes in a report.
    pub open spec fn width(self) -> nat {
        match self {
            ParameterValue::U8(_) | ParameterValue::I8(_) => 1,
            ParameterValue::U16(_) | ParameterValue::I16(_) => 2,
            ParameterValue::U32(_) | ParameterValue::I32(_) | ParameterValue::Single(_) => 4,
            ParameterValue::U64(_) | ParameterValue::I64(_) | ParameterValue::Double(_) => 8,
        }
    }

    /// The unsigned number that the value's bytes denote: the value itself, its two's
    /// complement where it is negative, or its bit pattern.
    pub open spec fn raw(self) -> nat {
        match self {
            ParameterValue::U8(x) => x as nat,
            ParameterValue::U16(x) => x as nat,
            ParameterValue::U32(x) => x as nat,
            ParameterValue::U64(x) => x as nat,
            ParameterValue::I8(x) => (if x >= 0 { x as int } else { x + 0x100 }) as nat,
            ParameterValue::I16(x) => (if x >= 0 { x as int } else { x + 0x1_0000 }) as nat,
            ParameterValue::I32(x) => (if x >= 0 { x as int } else { x + 0x1_0000_0000 }) as nat,
            ParameterValue::I64(x) => (if x >= 0 {
                x as int
            } else {
                x + 0x1_0000_0000_0000_0000
            }) as nat,
            ParameterValue::Single(b) => b as nat,
            ParameterValue::Double(b) => b as nat,
        }
    }

    /// The value's bytes in a report: big-endian, as wide as its kind.
    pub open spec fn be_repr(self) -> Seq<u8> {
        be_bytes(self.raw(), self.width())
    }

    /// The value of the same kind that a 64-bit field narrows to: an integer keeps
    /// the field's trailing bytes, a binary32 is the field read as binary64 and
    /// rounded, a binary64 is the field.
    pub open spec fn narrowed(self, field: u64) -> ParameterValue {
        match self {
            ParameterValue::U8(_) => ParameterValue::U8((field % 0x100) as u8),
            ParameterValue::U16(_) => ParameterValue::U16((field % 0x1_0000) as u16),
            ParameterValue::U32(_) => ParameterValue::U32((field % 0x1_0000_0000) as u32),
            ParameterValue::U64(_) => ParameterValue::U64(field),
            ParameterValue::I8(_) => ParameterValue::I8(signed_of(field as nat, 1) as i8),
            ParameterValue::I16(_) => ParameterValue::I16(signed_of(field as nat, 2) as i16),
            ParameterValue::I32(_) => ParameterValue::I32(signed_of(field as nat, 4) as i32),
            ParameterValue::I64(_) => ParameterValue::I64(signed_of(field as nat, 8) as i64),
            ParameterValue::Single(_) => ParameterValue::Single(single_from_double(field)),
            ParameterValue::Double(_) => ParameterValue::Double(field),
        }
    }

    /// The number of bytes that the value takes in a report.
    pub fn size(&self) -> (n: usize)
        ensures
            n == self.width(),
    {
        match self {
            ParameterValue::U8(_) | ParameterValue::I8(_) => 1,
            ParameterValue::U16(_) | ParameterValue::I16(_) => 2,
            ParameterValue::U32(_) | ParameterValue::I32(_) | ParameterValue::Single(_) => 4,
            ParameterValue::U64(_) | ParameterValue::I64(_) | ParameterValue::Double(_) => 8,
        }
    }

    /// The unsigned number that the value's bytes denote.
    pub fn to_raw(&self) -> (r: u64)
        ensures
            r == self.raw(),
    {
        match self {
            ParameterValue::U8(x) => *x as u64,
            ParameterValue::U16(x) => *x as u64,
            ParameterValue::U32(x) => *x as u64,
            ParameterValue::U64(x) => *x,
            ParameterValue::I8(x) => if *x >= 0 {
                *x as u64
            } else {
                (*x as i64 + 0x100) as u64
            },
            ParameterValue::I16(x) => if *x >= 0 {
                *x as u64
            } else {
                (*x as i64 + 0x1_0000) as u64
            },
            ParameterValue::I32(x) => if *x >= 0 {
                *x as u64
            } else {
                (*x as i64 + 0x1_0000_0000) as u64
            },
            ParameterValue::I64(x) => if *x >= 0 {
                *x as u64
            } else {
                (*x + 0x7FFF_FFFF_FFFF_FFFF + 1) as u64 + 0x8000_0000_0000_0000
            },
            ParameterValue::Single(b) => *b as u64,
            ParameterValue::Double(b) => *b,
        }
    }

    /// Writes the value's big-endian bytes.
    pub fn write_to(&self, writer: &mut BitWriter) -> (r: Result<(), WriteError>)
        ensures
            r.is_ok() <==> old(writer).fits(self.width()),
            r.is_ok() ==> final(writer)@ == old(writer)@ + self.be_repr(),
            r.is_err() ==> final(writer)@ == old(writer)@,
            final(writer).room() == old(writer).room() - (final(writer)@.len() - old(writer)@.len()),
    {
        writer.write_bits(self.to_raw(), 8 * self.size())
    }

    /// The value of the same kind that a 64-bit field narrows to.
    pub fn narrow(&self, field: u64) -> (v: ParameterValue)
        ensures
            v == self.narrowed(field),
    {
        proof {
            lemma_pow256_values();
        }
        match self {
            ParameterValue::U8(_) => ParameterValue::U8((field % 0x100) as u8),
            ParameterValue::U16(_) => ParameterValue::U16((field % 0x1_0000) as u16),
            ParameterValue::U32(_) => ParameterValue::U32((field % 0x1_0000_0000) as u32),
            ParameterValue::U64(_) => ParameterValue::U64(field),
            ParameterValue::I8(_) => {
                let low = field % 0x100;
                ParameterValue::I8(
                    if low < 0x80 {
                        low as i8
                    } else {
                        (low as i64 - 0x100) as i8
                    },
                )
            },
            ParameterValue::I16(_) => {
                let low = field % 0x1_0000;
                ParameterValue::I16(
                    if low < 0x8000 {
                        low as i16
                    } else {
                        (low as i64 - 0x1_0000) as i16
                    },
                )
            },
            ParameterValue::I32(_) => {
                let low = field % 0x1_0000_0000;
                ParameterValue::I32(
                    if low < 0x8000_0000 {
                        low as i32
                    } else {
                        (low as i64 - 0x1_0000_0000) as i32
                    },
                )
            },
            ParameterValue::I64(_) => {
                proof {
                    vstd::arithmetic::div_mod::lemma_small_mod(
                        field as nat,
                        0x1_0000_0000_0000_0000,
                    );
                }
                ParameterValue::I64(
                    if field < 0x8000_0000_0000_0000 {
                        field as i64
                    } else {
                        (field - 0x8000_0000_0000_0000) as i64 - 0x7FFF_FFFF_FFFF_FFFF - 1
                    },
                )
            },
            ParameterValue::Single(_) => ParameterValue::Single(narrow_double(field)),
            ParameterValue::Double(_) => ParameterValue::Double(field),
        }
    }
}

/// The bytes that a parameter reports after it was set from a 64-bit field: for an
/// integer the trailing bytes of the field, as many as the parameter is wide; for
/// a binary64 number the field; for a binary32 number the four bytes of the
/// binary32 number nearest to the binary64 number that the field holds.
pub open spec fn narrowed_repr(value: ParameterValue, field: u64) -> Seq<u8> {
    match value {
        ParameterValue::Single(_) => be_bytes(single_from_double(field) as nat, 4),
        _ => be_bytes(field as nat, 8).skip(8 - value.width()),
    }
}

/// A value that was narrowed from a field has the kind it had, and its bytes are
/// those that [`narrowed_repr`] names.
pub proof fn lemma_narrowed_repr(value: ParameterValue, field: u64)
    ensures
        value.narrowed(field).width() == value.width(),
        value.narrowed(field).be_repr() == narrowed_repr(value, field),
{
    lemma_pow256_values();
    let w = value.width();
    match value {
        ParameterValue::Single(_) => {},
        _ => {
            crate::endian::lemma_be_bytes_trailing(field as nat, w, 8);
            crate::endian::lemma_be_bytes_of_remainder(field as nat, w);
            let low = field as nat % crate::endian::pow256(w);
            match value {
                ParameterValue::I8(_) => {
                    assert(signed_of(field as nat, 1) == if 2 * low < 0x100 {
                        low as int
                    } else {
                        low - 0x100
                    });
                },
                ParameterValue::I16(_) => {
                    assert(signed_of(field as nat, 2) == if 2 * low < 0x1_0000 {
                        low as int
                    } else {
                        low - 0x1_0000
                    });
                },
                ParameterValue::I32(_) => {
                    assert(signed_of(field as nat, 4) == if 2 * low < 0x1_0000_0000 {
                        low as int
                    } else {
                        low - 0x1_0000_0000
                    });
                },
                ParameterValue::I64(_) => {
                    assert(signed_of(field as nat, 8) == if 2 * low < 0x1_0000_0000_0000_0000 {
                        low as int
                    } else {
                        low - 0x1_0000_0000_0000_0000
                    });
                },
                ParameterValue::U64(_) | ParameterValue::Double(_) => {
                    vstd::arithmetic::div_mod::lemma_small_mod(
                        field as nat,
                        0x1_0000_0000_0000_0000,
                    );
                },
                _ => {},
            }
            assert(value.narrowed(field).raw() == low);
        },
    }
}

/// A value of eight bytes that is set from its own bytes stays as it is.
pub proof fn lemma_narrowed_from_own_bytes(value: ParameterValue)
    requires
        value.width() == 8,
    ensures
        be_value(value.be_repr()) == value.raw(),
        value.raw() <= u64::MAX,
        value.narrowed(value.raw() as u64) == value,
{
    lemma_pow256_values();
    crate::endian::lemma_be_value_of_bytes(value.raw(), 8);
    vstd::arithmetic::div_mod::lemma_small_mod(value.raw(), 0x1_0000_0000_0000_0000);
}

/// What was set is what is reported: after a parameter was set from a 64-bit
/// field, a report of it holds the field narrowed to the parameter's kind.
///
/// `before` and `after` are the parameters before and after
/// [`PusParameters::set_parameter_from_be_bytes`] returned `true` for `hash` on a
/// buffer that starts with `field`.
pub proof fn lemma_set_then_get<P: PusParameters>(
    before: &P,
    after: &P,
    hash: u32,
    field: u64,
    room: nat,
)
    requires
        before.lookup(hash).is_some(),
        after.lookup(hash) == Some(before.lookup(hash).unwrap().narrowed(field)),
        before.lookup(hash).unwrap().width() <= room,
    ensures
        after.report_outcome(hash, room) == Ok::<ParameterValue, ParameterError>(
            before.lookup(hash).unwrap().narrowed(field),
        ),
        before.lookup(hash).unwrap().narrowed(field).be_repr() == narrowed_repr(
            before.lookup(hash).unwrap(),
            field,
        ),
{
    let value = before.lookup(hash).unwrap();
    lemma_narrowed_repr(value, field);
    after.lemma_declared_is_reported(hash, room);
}

/// A declared parameter: its hash and its value.
#[derive(Debug, Clone, Copy, PartialEq, Eq, Structural)]
pub struct Parameter {
    pub hash: u32,
    pub value: ParameterValue,
}

/// Whether `i` is the first place in `s` that is declared under `hash`.
pub open spec fn first_match(s: Seq<Parameter>, hash: u32, i: int) -> bool {
    &&& 0 <= i < s.len()
    &&& s[i].hash == hash
    &&& forall|j: int| 0 <= j < i ==> (#[trigger] s[j]).hash != hash
}

/// The value of the first parameter in `s` that is declared under `hash`.
pub open spec fn lookup_in(s: Seq<Parameter>, hash: u32) -> Option<ParameterValue> {
    if exists|i: int| first_match(s, hash, i) {
        Some(s[choose|i: int| first_match(s, hash, i)].value)
    } else {
        None
    }
}

/// There is one first place at most.
pub proof fn lemma_first_match_unique(s: Seq<Parameter>, hash: u32, i: int, j: int)
    requires
        first_match(s, hash, i),
        first_match(s, hash, j),
    ensures
        i == j,
{
    if i < j {
        assert(s[i].hash != hash);
    } else if j < i {
        assert(s[j].hash != hash);
    }
}

/// The first place under a hash holds what the hash resolves to.
pub proof fn lemma_lookup_at(s: Seq<Parameter>, hash: u32, i: int)
    requires
        first_match(s, hash, i),
    ensures
        lookup_in(s, hash) == Some(s[i].value),
{
    let k = choose|k: int| first_match(s, hash, k);
    lemma_first_match_unique(s, hash, i, k);
}

/// Storing a value at a parameter's first place changes what its hash resolves to,
/// and nothing else.
pub proof fn lemma_lookup_after_store(s: Seq<Parameter>, i: int, value: ParameterValue, h: u32)
    requires
        first_match(s, s[i].hash, i),
    ensures
        lookup_in(s.update(i, Parameter { hash: s[i].hash, value }), h) == if h == s[i].hash {
            Some(value)
        } else {
            lookup_in(s, h)
        },
{
    let t = s.update(i, Parameter { hash: s[i].hash, value });
    assert forall|k: int| first_match(s, h, k) <==> first_match(t, h, k) by {
        if first_match(s, h, k) {
            assert forall|j: int| 0 <= j < k implies (#[trigger] t[j]).hash != h by {
                assert(s[j].hash != h);
            }
        }
        if first_match(t, h, k) {
            assert forall|j: int| 0 <= j < k implies (#[trigger] s[j]).hash != h by {
                assert(t[j].hash != h);
            }
        }
    }
    if h == s[i].hash {
        lemma_lookup_at(t, h, i);
    } else if exists|k: int| first_match(s, h, k) {
        let k = choose|k: int| first_match(s, h, k);
        assert(first_match(t, h, k));
        lemma_lookup_at(t, h, k);
    } else {
        assert(!exists|k: int| first_match(t, h, k));
    }
}

/// A flat set of parameters, in the order of their declaration. Where a hash is
/// declared twice, the first declaration is the one it stands for.
pub struct ParameterTable {
    pub entries: Vec<Parameter>,
}

impl View for ParameterTable {
    type V = Seq<Parameter>;

    open spec fn view(&self) -> Seq<Parameter> {
        self.entries@
    }
}

impl ParameterTable {
    /// The table of the given declarations.
    pub fn new(entries: Vec<Parameter>) -> (table: Self)
        ensures
            table@ == entries@,
    {
        ParameterTable { entries }
    }

    /// The first place that is declared under `hash`.
    fn position(&self, hash: u32) -> (r: Option<usize>)
        ensures
            r matches Some(i) ==> first_match(self@, hash, i as int),
            r.is_none() ==> forall|i: int| !first_match(self@, hash, i),
    {
        let mut i: usize = 0;
        while i < self.entries.len()
            invariant
                i <= self.entries.len(),
                forall|j: int| 0 <= j < i ==> (#[trigger] self@[j]).hash != hash,
            decreases self.entries.len() - i,
        {
            if self.entries[i].hash == hash {
                return Some(i);
            }
            i = i + 1;
        }
        assert forall|k: int| !first_match(self@, hash, k) by {
            if 0 <= k < self@.len() {
                assert(self@[k].hash != hash);
            }
        }
        None
    }

    /// The value of the parameter under `hash`.
    pub fn value_of(&self, hash: u32) -> (r: Option<ParameterValue>)
        ensures
            r == self.lookup(hash),
    {
        match self.position(hash) {
            Some(i) => {
                proof {
                    lemma_lookup_at(self@, hash, i as int);
                }
                Some(self.entries[i].value)
            },
            None => None,
        }
    }
}

impl PusParameters for ParameterTable {
    open spec fn lookup(&self, hash: u32) -> Option<ParameterValue> {
        lookup_in(self@, hash)
    }

    open spec fn report_outcome(&self, hash: u32, room: nat) -> Result<
        ParameterValue,
        ParameterError,
    > {
        match lookup_in(self@, hash) {
            None => Err(ParameterError::UnknownParameter(hash)),
            Some(v) => if v.width() <= room {
                Ok(v)
            } else {
                Err(ParameterError::WriteError(WriteError {  }))
            },
        }
    }

    proof fn lemma_declared_is_reported(&self, hash: u32, room: nat) {
    }

    proof fn lemma_undeclared_is_unknown(&self, hash: u32, room: nat) {
    }

    fn get_parameter_as_be_bytes(&self, hash: u32, writer: &mut BitWriter) -> (r: Result<
        usize,
        ParameterError,
    >) {
        match self.value_of(hash) {
            None => Err(ParameterError::UnknownParameter(hash)),
            Some(v) => match v.write_to(writer) {
                Ok(()) => Ok(8 * v.size()),
                Err(e) => Err(ParameterError::WriteError(e)),
            },
        }
    }

    /// The first parameter that is declared under the hash is the one that is set.
    /// Every other parameter stays as it is; so does every parameter where nothing
    /// is stored.
    fn set_parameter_from_be_bytes(&mut self, hash: u32, buffer: &mut BitBuffer) -> (ok: bool)
        ensures
            !ok ==> final(self)@ == old(self)@,
            ok ==> exists|i: int|
                first_match(old(self)@, hash, i) && final(self)@ == old(self)@.update(
                    i,
                    Parameter {
                        hash,
                        value: old(self)@[i].value.narrowed(be_value(old(buffer)@.take(8)) as u64),
                    },
                ),
    {
        match self.position(hash) {
            None => false,
            Some(i) => {
                proof {
                    lemma_lookup_at(self@, hash, i as int);
                }
                match buffer.get_bits(64) {
                    None => false,
                    Some(field) => {
                        let value = self.entries[i].value.narrow(field);
                        proof {
                            assert forall|h: u32|
                                lookup_in(
                                    self@.update(i as int, Parameter { hash, value }),
                                    h,
                                ) == if h == hash {
                                    Some(value)
                                } else {
                                    lookup_in(self@, h)
                                } by {
                                lemma_lookup_after_store(self@, i as int, value, h);
                            }
                        }
                        self.entries.set(i, Parameter { hash, value });
                        true
                    },
                }
            },
        }
    }

    fn get_parameter_size(&self, hash: u32) -> (r: Option<usize>) {
        None
    }
}

/// What a hash resolves to in a union of parameter sets: the first set that
/// declares it decides.
pub open spec fn union_lookup<P: PusParameters>(sets: Seq<P>, hash: u32) -> Option<
    ParameterValue,
>
    decreases sets.len(),
{
    if sets.len() == 0 {
        None
    } else {
        match sets[0].lookup(hash) {
            Some(v) => Some(v),
            None => union_lookup(sets.drop_first(), hash),
        }
    }
}

/// What a report of `hash` yields in a union of parameter sets: the first set
/// that reports it without error decides, and the hash is unknown where none does.
pub open spec fn union_report<P: PusParameters>(sets: Seq<P>, hash: u32, room: nat) -> Result<
    ParameterValue,
    ParameterError,
>
    decreases sets.len(),
{
    if sets.len() == 0 {
        Err(ParameterError::UnknownParameter(hash))
    } else {
        match sets[0].report_outcome(hash, room) {
            Ok(v) => Ok(v),
            Err(_) => union_report(sets.drop_first(), hash, room),
        }
    }
}

proof fn lemma_union_declared_is_reported<P: PusParameters>(sets: Seq<P>, hash: u32, room: nat)
    requires
        union_lookup(sets, hash).is_some(),
        union_lookup(sets, hash).unwrap().width() <= room,
    ensures
        union_report(sets, hash, room) == Ok::<ParameterValue, ParameterError>(
            union_lookup(sets, hash).unwrap(),
        ),
    decreases sets.len(),
{
    if sets.len() > 0 {
        if sets[0].lookup(hash).is_some() {
            sets[0].lemma_declared_is_reported(hash, room);
        } else {
            sets[0].lemma_undeclared_is_unknown(hash, room);
            lemma_union_declared_is_reported(sets.drop_first(), hash, room);
        }
    }
}

proof fn lemma_union_undeclared_is_unknown<P: PusParameters>(sets: Seq<P>, hash: u32, room: nat)
    requires
        union_lookup(sets, hash).is_none(),
    ensures
        union_report(sets, hash, room) == Err::<ParameterValue, ParameterError>(
            ParameterError::UnknownParameter(hash),
        ),
    decreases sets.len(),
{
    if sets.len() > 0 {
        sets[0].lemma_undeclared_is_unknown(hash, room);
        lemma_union_undeclared_is_unknown(sets.drop_first(), hash, room);
    }
}

/// Sets that no hash tells apart up to place `n` resolve alike while the hash is
/// undeclared in those places.
proof fn lemma_union_lookup_skip<P: PusParameters>(sets: Seq<P>, hash: u32, n: int)
    requires
        0 <= n <= sets.len(),
        forall|j: int| 0 <= j < n ==> (#[trigger] sets[j]).lookup(hash).is_none(),
    ensures
        union_lookup(sets, hash) == union_lookup(sets.skip(n), hash),
    decreases n,
{
    if n == 0 {
        assert(sets.skip(0) =~= sets);
    } else {
        assert(sets[0].lookup(hash).is_none());
        let rest = sets.drop_first();
        assert forall|j: int| 0 <= j < n - 1 implies (#[trigger] rest[j]).lookup(hash).is_none() by {
            assert(rest[j] == sets[j + 1]);
        }
        lemma_union_lookup_skip(rest, hash, n - 1);
        assert(rest.skip(n - 1) =~= sets.skip(n));
    }
}

proof fn lemma_union_report_skip<P: PusParameters>(sets: Seq<P>, hash: u32, room: nat, n: int)
    requires
        0 <= n <= sets.len(),
        forall|j: int| 0 <= j < n ==> (#[trigger] sets[j]).report_outcome(hash, room).is_err(),
    ensures
        union_report(sets, hash, room) == union_report(sets.skip(n), hash, room),
    decreases n,
{
    if n == 0 {
        assert(sets.skip(0) =~= sets);
    } else {
        assert(sets[0].report_outcome(hash, room).is_err());
        let rest = sets.drop_first();
        assert forall|j: int| 0 <= j < n - 1 implies (#[trigger] rest[j]).report_outcome(
            hash,
            room,
        ).is_err() by {
            assert(rest[j] == sets[j + 1]);
        }
        lemma_union_report_skip(rest, hash, room, n - 1);
        assert(rest.skip(n - 1) =~= sets.skip(n));
    }
}

/// Unions whose sets resolve a hash alike, place by place, resolve it alike.
proof fn lemma_union_lookup_alike<P: PusParameters>(a: Seq<P>, b: Seq<P>, hash: u32)
    requires
        a.len() == b.len(),
        forall|j: int| 0 <= j < a.len() ==> (#[trigger] a[j]).lookup(hash) == b[j].lookup(hash),
    ensures
        union_lookup(a, hash) == union_lookup(b, hash),
    decreases a.len(),
{
    if a.len() > 0 {
        assert(a[0].lookup(hash) == b[0].lookup(hash));
        let ra = a.drop_first();
        let rb = b.drop_first();
        assert forall|j: int| 0 <= j < ra.len() implies (#[trigger] ra[j]).lookup(hash)
            == rb[j].lookup(hash) by {
            assert(ra[j] == a[j + 1]);
        }
        lemma_union_lookup_alike(ra, rb, hash);
    }
}

proof fn lemma_union_report_alike<P: PusParameters>(a: Seq<P>, b: Seq<P>, hash: u32, room: nat)
    requires
        a.len() == b.len(),
        forall|j: int|
            0 <= j < a.len() ==> (#[trigger] a[j]).report_outcome(hash, room)
                == b[j].report_outcome(hash, room),
    ensures
        union_report(a, hash, room) == union_report(b, hash, room),
    decreases a.len(),
{
    if a.len() > 0 {
        assert(a[0].report_outcome(hash, room) == b[0].report_outcome(hash, room));
        let ra = a.drop_first();
        let rb = b.drop_first();
        assert forall|j: int| 0 <= j < ra.len() implies (#[trigger] ra[j]).report_outcome(
            hash,
            room,
        ) == rb[j].report_outcome(hash, room) by {
            assert(ra[j] == a[j + 1]);
        }
        lemma_union_report_alike(ra, rb, hash, room);
    }
}

/// The place of the first set that declares `hash`, or the number of sets where
/// none does.
pub open spec fn first_declaring<P: PusParameters>(sets: Seq<P>, hash: u32) -> int
    decreases sets.len(),
{
    if sets.len() == 0 {
        0
    } else if sets[0].lookup(hash).is_some() {
        0
    } else {
        1 + first_declaring(sets.drop_first(), hash)
    }
}

proof fn lemma_first_declaring<P: PusParameters>(sets: Seq<P>, hash: u32, i: int)
    requires
        0 <= i < sets.len(),
        forall|j: int| 0 <= j < i ==> (#[trigger] sets[j]).lookup(hash).is_none(),
        sets[i].lookup(hash).is_some(),
    ensures
        first_declaring(sets, hash) == i,
    decreases i,
{
    if i > 0 {
        assert(sets[0].lookup(hash).is_none());
        let rest = sets.drop_first();
        assert forall|j: int| 0 <= j < i - 1 implies (#[trigger] rest[j]).lookup(hash).is_none() by {
            assert(rest[j] == sets[j + 1]);
        }
        assert(rest[i - 1] == sets[i]);
        lemma_first_declaring(rest, hash, i - 1);
    }
}

/// A union of parameter sets. A hash is looked for in each set in turn, and the
/// first set that knows it answers.
pub struct AggregateParameters<P: PusParameters> {
    pub sets: Vec<P>,
}

impl<P: PusParameters> View for AggregateParameters<P> {
    type V = Seq<P>;

    open spec fn view(&self) -> Seq<P> {
        self.sets@
    }
}

impl<P: PusParameters> AggregateParameters<P> {
    /// The union of the given sets, in their order.
    pub fn new(sets: Vec<P>) -> (all: Self)
        ensures
            all@ == sets@,
    {
        AggregateParameters { sets }
    }
}

impl<P: PusParameters> PusParameters for AggregateParameters<P> {
    open spec fn lookup(&self, hash: u32) -> Option<ParameterValue> {
        union_lookup(self@, hash)
    }

    open spec fn report_outcome(&self, hash: u32, room: nat) -> Result<
        ParameterValue,
        ParameterError,
    > {
        union_report(self@, hash, room)
    }

    proof fn lemma_declared_is_reported(&self, hash: u32, room: nat) {
        lemma_union_declared_is_reported(self@, hash, room);
    }

    proof fn lemma_undeclared_is_unknown(&self, hash: u32, room: nat) {
        lemma_union_undeclared_is_unknown(self@, hash, room);
    }

    fn get_parameter_as_be_bytes(&self, hash: u32, writer: &mut BitWriter) -> (r: Result<
        usize,
        ParameterError,
    >) {
        let ghost room = writer.room();
        let mut i: usize = 0;
        while i < self.sets.len()
            invariant
                i <= self.sets.len(),
                writer@ == old(writer)@,
                writer.room() == room,
                room == old(writer).room(),
                forall|j: int| 0 <= j < i ==> (#[trigger] self@[j]).report_outcome(hash, room).is_err(),
            decreases self.sets.len() - i,
        {
            if let Ok(size) = self.sets[i].get_parameter_as_be_bytes(hash, writer) {
                proof {
                    lemma_union_report_skip(self@, hash, room, i as int);
                    assert(self@.skip(i as int)[0] == self@[i as int]);
                }
                return Ok(size);
            }
            i = i + 1;
        }
        proof {
            lemma_union_report_skip(self@, hash, room, i as int);
            assert(self@.skip(i as int).len() == 0);
        }
        Err(ParameterError::UnknownParameter(hash))
    }

    /// The first set that declares the hash is the one that is set. Every other
    /// set resolves every hash as before; so does every set where nothing is stored.
    fn set_parameter_from_be_bytes(&mut self, hash: u32, buffer: &mut BitBuffer) -> (ok: bool)
        ensures
            final(self)@.len() == old(self)@.len(),
            forall|j: int, h: u32|
                0 <= j < old(self)@.len() && !(ok && j == first_declaring(old(self)@, hash))
                    ==> #[trigger] final(self)@[j].lookup(h) == old(self)@[j].lookup(h),
            forall|j: int, h: u32, room: nat|
                0 <= j < old(self)@.len() && !(ok && j == first_declaring(old(self)@, hash))
                    ==> #[trigger] final(self)@[j].report_outcome(h, room)
                    == old(self)@[j].report_outcome(h, room),
            ok ==> 0 <= first_declaring(old(self)@, hash) < old(self)@.len() && final(self)@[first_declaring(
                old(self)@,
                hash,
            )].lookup(hash) == Some(
                old(self)@[first_declaring(old(self)@, hash)].lookup(hash).unwrap().narrowed(
                    be_value(old(buffer)@.take(8)) as u64,
                ),
            ),
    {
        let ghost first = self@;
        let mut i: usize = 0;
        while i < self.sets.len()
            invariant
                i <= self.sets.len(),
                first == old(self)@,
                self@.len() == first.len(),
                buffer@ == old(buffer)@,
                forall|j: int, h: u32|
                    0 <= j < first.len() ==> #[trigger] self@[j].lookup(h) == first[j].lookup(h),
                forall|j: int, h: u32, room: nat|
                    0 <= j < first.len() ==> #[trigger] self@[j].report_outcome(h, room)
                        == first[j].report_outcome(h, room),
                forall|j: int|
                    0 <= j < i ==> !((#[trigger] first[j]).lookup(hash).is_some() && buffer@.len()
                        >= 8),
            decreases self.sets.len() - i,
        {
            let ghost before = self@;
            let stored = self.sets[i].set_parameter_from_be_bytes(hash, buffer);
            let ghost after = self@;
            proof {
                assert(after.len() == before.len());
                assert forall|j: int| 0 <= j < before.len() && j != i implies #[trigger] after[j]
                    == before[j] by {
                }
                assert(before[i as int].lookup(hash) == first[i as int].lookup(hash));
            }
            if stored {
                proof {
                    assert forall|j: int| 0 <= j < i implies (#[trigger] first[j]).lookup(
                        hash,
                    ).is_none() by {
                    }
                    lemma_union_lookup_skip(first, hash, i as int);
                    assert(first.skip(i as int)[0] == first[i as int]);
                    lemma_first_declaring(first, hash, i as int);
                    assert forall|j: int, h: u32| 0 <= j < first.len() && j != i implies
                        #[trigger] after[j].lookup(h) == first[j].lookup(h) by {
                        assert(after[j] == before[j]);
                        assert(before[j].lookup(h) == first[j].lookup(h));
                    }
                    assert forall|j: int, h: u32, room: nat| 0 <= j < first.len() && j != i implies
                        #[trigger] after[j].report_outcome(h, room) == first[j].report_outcome(
                        h,
                        room,
                    ) by {
                        assert(after[j] == before[j]);
                        assert(before[j].report_outcome(h, room) == first[j].report_outcome(
                            h,
                            room,
                        ));
                    }
                    assert forall|h: u32|
                        union_lookup(after, h) == if h == hash {
                            Some(
                                union_lookup(first, hash).unwrap().narrowed(
                                    be_value(old(buffer)@.take(8)) as u64,
                                ),
                            )
                        } else {
                            union_lookup(first, h)
                        } by {
                        if h == hash {
                            assert forall|j: int| 0 <= j < i implies (#[trigger] after[j]).lookup(
                                hash,
                            ).is_none() by {
                                assert(after[j] == before[j]);
                                assert(before[j].lookup(hash) == first[j].lookup(hash));
                            }
                            lemma_union_lookup_skip(after, hash, i as int);
                            assert(after.skip(i as int)[0] == after[i as int]);
                        } else {
                            assert forall|j: int| 0 <= j < after.len() implies (
                            #[trigger] after[j]).lookup(h) == first[j].lookup(h) by {
                                if j != i {
                                    assert(after[j] == before[j]);
                                }
                                assert(before[j].lookup(h) == first[j].lookup(h));
                            }
                            lemma_union_lookup_alike(after, first, h);
                        }
                    }
                    assert forall|h: u32, room: nat| h != hash implies union_report(after, h, room)
                        == union_report(first, h, room) by {
                        assert forall|j: int| 0 <= j < after.len() implies (
                        #[trigger] after[j]).report_outcome(h, room) == first[j].report_outcome(
                            h,
                            room,
                        ) by {
                            if j != i {
                                assert(after[j] == before[j]);
                            }
                            assert(before[j].report_outcome(h, room) == first[j].report_outcome(
                                h,
                                room,
                            ));
                        }
                        lemma_union_report_alike(after, first, h, room);
                    }
                }
                return true;
            }
            proof {
                assert forall|j: int, h: u32| 0 <= j < first.len() implies #[trigger] after[j].lookup(
                    h,
                ) == first[j].lookup(h) by {
                    if j != i {
                        assert(after[j] == before[j]);
                    }
                    assert(before[j].lookup(h) == first[j].lookup(h));
                }
                assert forall|j: int, h: u32, room: nat| 0 <= j < first.len() implies
                    #[trigger] after[j].report_outcome(h, room) == first[j].report_outcome(
                    h,
                    room,
                ) by {
                    if j != i {
                        assert(after[j] == before[j]);
                    }
                    assert(before[j].report_outcome(h, room) == first[j].report_outcome(h, room));
                }
            }
            i = i + 1;
        }
        proof {
            if buffer@.len() >= 8 {
                assert forall|j: int| 0 <= j < first.len() implies (#[trigger] first[j]).lookup(
                    hash,
                ).is_none() by {
                }
                lemma_union_lookup_skip(first, hash, first.len() as int);
                assert(first.skip(first.len() as int).len() == 0);
            }
            assert forall|h: u32| union_lookup(self@, h) == union_lookup(first, h) by {
                lemma_union_lookup_alike(self@, first, h);
            }
            assert forall|h: u32, room: nat| union_report(self@, h, room) == union_report(
                first,
                h,
                room,
            ) by {
                lemma_union_report_alike(self@, first, h, room);
            }
        }
        false
    }

    fn get_parameter_size(&self, hash: u32) -> (r: Option<usize>) {
        None
    }
}

} // verus!
