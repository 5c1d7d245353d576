//! The parameter lists of the codecs, as the packed bytes that other processes read.
//!
//! A packed list is a sequence of fields and a zero byte. A field starts with a tag:
//! its upper half names the field's type, its lower half holds how many numbers were
//! left out since the field before, and the value or where it stands. A field whose
//! value is the default is left out.
use vstd::prelude::*;

verus! {

/// The type of truth values.
pub const TYPE_MAP_BOOL: u8 = 2;

/// The type of whole numbers of 32 bits.
pub const TYPE_MAP_I32: u8 = 3;

/// A number in groups of seven bits, the lowest first; all but the last are marked.
pub open spec fn varint(n: nat) -> Seq<u8>
    decreases n,
{
    if n < 128 {
        seq![n as u8]
    } else {
        seq![(n % 128 + 128) as u8] + varint(n / 128)
    }
}

/// A signed number as an unsigned one that is small where the number is near zero.
pub open spec fn zigzag(v: int) -> nat {
    if v >= 0 {
        (2 * v) as nat
    } else {
        (-2 * v - 1) as nat
    }
}

/// What follows a tag of the number of fields left out: nothing where it fits in.
pub open spec fn rest_of(n: nat) -> Seq<u8> {
    if n > 0 {
        varint(n)
    } else {
        Seq::<u8>::empty()
    }
}

/// A field with a number, after `gap` fields that were left out.
pub open spec fn number_field(type_map: u8, gap: nat, value: nat) -> Seq<u8> {
    if value < 2 {
        let more: int = if gap / 2 > 0 {
            2
        } else {
            0
        };
        seq![(type_map * 16 + value * 4 + gap % 2 + more) as u8] + rest_of(gap / 2)
    } else {
        let more: int = if gap / 4 > 0 {
            4
        } else {
            0
        };
        seq![(type_map * 16 + 8 + gap % 4 + more) as u8] + rest_of(gap / 4) + varint(value)
    }
}

/// A field with a single bit, after `gap` fields that were left out.
pub open spec fn bit_field(type_map: u8, gap: nat, bit: bool) -> Seq<u8> {
    let high: int = if bit {
        8
    } else {
        0
    };
    let more: int = if gap / 4 > 0 {
        4
    } else {
        0
    };
    seq![(type_map * 16 + high + gap % 4 + more) as u8] + rest_of(gap / 4)
}

/// The parameters of a compressing filter: the level, unless it is zero, then the
/// raw flag, if it is set.
pub open spec fn compress_list(level: i32, raw: bool) -> Seq<u8> {
    let head = if level == 0 {
        Seq::<u8>::empty()
    } else {
        number_field(TYPE_MAP_I32, 0, zigzag(level as int))
    };
    let gap: nat = if level == 0 {
        1
    } else {
        0
    };
    let tail = if raw {
        bit_field(TYPE_MAP_BOOL, gap, true)
    } else {
        Seq::<u8>::empty()
    };
    head + tail + seq![0u8]
}

/// The parameters of a decompressing filter: the raw flag, if it is set.
pub open spec fn decompress_list(raw: bool) -> Seq<u8> {
    (if raw {
        bit_field(TYPE_MAP_BOOL, 0, true)
    } else {
        Seq::<u8>::empty()
    }) + seq![0u8]
}

/// Writes the fields of a packed list.
struct PackWriter {
    id_last: u32,
    null_total: u32,
    out: Vec<u8>,
}

impl PackWriter {
    spec fn has_room(self) -> bool {
        self.id_last + self.null_total < u32::MAX
    }

    fn new() -> (r: Self)
        ensures
            r.id_last == 0,
            r.null_total == 0,
            r.out@ == Seq::<u8>::empty(),
    {
        PackWriter { id_last: 0, null_total: 0, out: Vec::new() }
    }

    /// Leaves a field out.
    fn skip(&mut self)
        requires
            old(self).has_room(),
        ensures
            final(self).null_total == old(self).null_total + 1,
            final(self).id_last == old(self).id_last,
            final(self).out@ == old(self).out@,
    {
        self.null_total = self.null_total + 1;
    }

    fn push_varint(&mut self, value: u64)
        ensures
            final(self).out@ == old(self).out@ + varint(value as nat),
            final(self).id_last == old(self).id_last,
            final(self).null_total == old(self).null_total,
    {
        let mut rest: u64 = value;
        let ghost start = self.out@;
        assert(start + Seq::<u8>::empty() =~= start);
        while rest >= 128
            invariant
                self.out@ + varint(rest as nat) == start + varint(value as nat),
                self.id_last == old(self).id_last,
                self.null_total == old(self).null_total,
            decreases rest,
        {
            let low: u64 = rest % 128 + 128;
            let ghost before = self.out@;
            self.out.push(low as u8);
            proof {
                assert(varint(rest as nat) == seq![low as u8] + varint((rest / 128) as nat));
                assert(self.out@ + varint((rest / 128) as nat) =~= before + varint(rest as nat));
            }
            rest = rest / 128;
        }
        let ghost before = self.out@;
        self.out.push(rest as u8);
        assert(self.out@ =~= before + varint(rest as nat));
    }

    /// Takes the number of the next field, and tells how many were left out before it.
    fn next_tag_id(&mut self) -> (r: u32)
        requires
            old(self).has_room(),
        ensures
            r == old(self).null_total,
            final(self).id_last == old(self).id_last + old(self).null_total + 1,
            final(self).null_total == 0,
            final(self).out@ == old(self).out@,
    {
        let id: u32 = self.id_last + self.null_total + 1;
        let gap: u32 = id - self.id_last - 1;
        self.null_total = 0;
        self.id_last = id;
        gap
    }

    fn push_rest(&mut self, n: u32)
        ensures
            final(self).out@ == old(self).out@ + rest_of(n as nat),
            final(self).id_last == old(self).id_last,
            final(self).null_total == old(self).null_total,
    {
        if n > 0 {
            self.push_varint(n as u64);
        }
        assert(self.out@ =~= old(self).out@ + rest_of(n as nat));
    }

    fn write_multi_bit_value(&mut self, type_map: u8, value: u64)
        requires
            old(self).has_room(),
            type_map < 16,
        ensures
            final(self).out@ == old(self).out@ + number_field(type_map, old(self).null_total as nat, value as nat),
            final(self).id_last == old(self).id_last + old(self).null_total + 1,
            final(self).null_total == 0,
    {
        let ghost start = self.out@;
        let gap: u32 = self.next_tag_id();
        if value < 2 {
            let more: u8 = if gap / 2 > 0 {
                2
            } else {
                0
            };
            let tag: u8 = type_map * 16 + (value as u8) * 4 + (gap % 2) as u8 + more;
            self.out.push(tag);
            self.push_rest(gap / 2);
        } else {
            let more: u8 = if gap / 4 > 0 {
                4
            } else {
                0
            };
            let tag: u8 = type_map * 16 + 8 + (gap % 4) as u8 + more;
            self.out.push(tag);
            self.push_rest(gap / 4);
            self.push_varint(value);
        }
        assert(self.out@ =~= start + number_field(type_map, gap as nat, value as nat));
    }

    fn write_single_bit_value(&mut self, type_map: u8, value_bit: bool)
        requires
            old(self).has_room(),
            type_map < 16,
        ensures
            final(self).out@ == old(self).out@ + bit_field(type_map, old(self).null_total as nat, value_bit),
            final(self).id_last == old(self).id_last + old(self).null_total + 1,
            final(self).null_total == 0,
    {
        let ghost start = self.out@;
        let gap: u32 = self.next_tag_id();
        let high: u8 = if value_bit {
            8
        } else {
            0
        };
        let more: u8 = if gap / 4 > 0 {
            4
        } else {
            0
        };
        let tag: u8 = type_map * 16 + high + (gap % 4) as u8 + more;
        self.out.push(tag);
        self.push_rest(gap / 4);
        assert(self.out@ =~= start + bit_field(type_map, gap as nat, value_bit));
    }

    fn write_i32(&mut self, value: i32)
        requires
            old(self).has_room(),
        ensures
            if value == 0 {
                &&& final(self).out@ == old(self).out@
                &&& final(self).id_last == old(self).id_last
                &&& final(self).null_total == old(self).null_total + 1
            } else {
                &&& final(self).out@ == old(self).out@ + number_field(
                    TYPE_MAP_I32,
                    old(self).null_total as nat,
                    zigzag(value as int),
                )
                &&& final(self).id_last == old(self).id_last + old(self).null_total + 1
                &&& final(self).null_total == 0
            },
    {
        if value == 0 {
            self.skip();
            return;
        }
        let folded: u64 = if value > 0 {
            value as u64 * 2
        } else {
            (-(value + 1)) as u64 * 2 + 1
        };
        assert(folded == zigzag(value as int));
        self.write_multi_bit_value(TYPE_MAP_I32, folded);
    }

    fn write_bool(&mut self, value: bool)
        requires
            old(self).has_room(),
        ensures
            if value {
                &&& final(self).out@ == old(self).out@ + bit_field(TYPE_MAP_BOOL, old(self).null_total as nat, true)
                &&& final(self).id_last == old(self).id_last + old(self).null_total + 1
                &&& final(self).null_total == 0
            } else {
                &&& final(self).out@ == old(self).out@
                &&& final(self).id_last == old(self).id_last
                &&& final(self).null_total == old(self).null_total + 1
            },
    {
        if !value {
            self.skip();
            return;
        }
        self.write_single_bit_value(TYPE_MAP_BOOL, true);
    }

    fn finish(self) -> (r: Vec<u8>)
        ensures
            r@ == self.out@ + seq![0u8],
    {
        let mut out = self.out;
        out.push(0);
        assert(out@ =~= self.out@ + seq![0u8]);
        out
    }
}

/// The packed parameters of a compressing filter.
pub fn compress_param_list_bytes(level: i32, raw: bool) -> (r: Vec<u8>)
    ensures
        r@ == compress_list(level, raw),
{
    let mut writer = PackWriter::new();
    writer.write_i32(level);
    writer.write_bool(raw);
    let out = writer.finish();
    assert(out@ =~= compress_list(level, raw));
    out
}

/// The packed parameters of a decompressing filter.
pub fn decompress_param_list_bytes(raw: bool) -> (r: Vec<u8>)
    ensures
        r@ == decompress_list(raw),
{
    let mut writer = PackWriter::new();
    writer.write_bool(raw);
    let out = writer.finish();
    assert(out@ =~= decompress_list(raw));
    out
}

/// A field of a packed list.
pub struct Field {
    /// Its number, from one on.
    pub id: nat,
    pub type_map: nat,
    pub value: nat,
}

/// The number that starts at place `i`, and where it ends.
pub open spec fn read_varint(b: Seq<u8>, i: int) -> Option<(nat, int)>
    decreases b.len() - i,
{
    if i < 0 || i >= b.len() {
        None
    } else if b[i] < 128 {
        Some((b[i] as nat, i + 1))
    } else {
        match read_varint(b, i + 1) {
            Some((n, end)) => Some(((b[i] - 128 + 128 * n) as nat, end)),
            None => None,
        }
    }
}

/// The number at place `i` where `follows`, else zero and nothing read.
pub open spec fn read_if(b: Seq<u8>, i: int, follows: bool) -> Option<(nat, int)> {
    if follows {
        read_varint(b, i)
    } else {
        Some((0nat, i))
    }
}

/// The field that starts at place `i`, after the field with the number `id_last`, and
/// where it ends.
pub open spec fn read_field(b: Seq<u8>, i: int, id_last: nat) -> Option<(Field, int)> {
    let tag = b[i] as nat;
    let type_map = tag / 16;
    let low = tag % 16;
    if type_map == TYPE_MAP_I32 && low < 8 {
        match read_if(b, i + 1, low / 2 % 2 == 1) {
            Some((more, end)) => Some(
                (Field { id: id_last + (low % 2 + 2 * more) + 1, type_map, value: low / 4 }, end),
            ),
            None => None,
        }
    } else if type_map == TYPE_MAP_I32 {
        match read_if(b, i + 1, low / 4 % 2 == 1) {
            Some((more, at)) => match read_varint(b, at) {
                Some((value, end)) => Some((Field { id: id_last + (low % 4 + 4 * more) + 1, type_map, value }, end)),
                None => None,
            },
            None => None,
        }
    } else {
        match read_if(b, i + 1, low / 4 % 2 == 1) {
            Some((more, end)) => Some(
                (Field { id: id_last + (low % 4 + 4 * more) + 1, type_map, value: low / 8 }, end),
            ),
            None => None,
        }
    }
}

/// The fields from place `i` on up to the zero byte that ends the list.
pub open spec fn read_fields(b: Seq<u8>, i: int, id_last: nat) -> Option<Seq<Field>>
    decreases b.len() - i,
{
    if i < 0 || i >= b.len() {
        None
    } else if b[i] == 0 {
        Some(Seq::<Field>::empty())
    } else {
        match read_field(b, i, id_last) {
            Some((field, end)) => if i < end <= b.len() {
                match read_fields(b, end, field.id) {
                    Some(rest) => Some(seq![field] + rest),
                    None => None,
                }
            } else {
                None
            },
            None => None,
        }
    }
}

proof fn lemma_varint_reads_back(b: Seq<u8>, i: int, n: nat)
    requires
        0 <= i,
        i + varint(n).len() <= b.len(),
        b.subrange(i, i + varint(n).len()) == varint(n),
    ensures
        read_varint(b, i) == Some((n, i + varint(n).len())),
        varint(n).len() >= 1,
    decreases n,
{
    assert(varint(n).len() >= 1);
    assert(b[i] == b.subrange(i, i + varint(n).len())[0]);
    if n >= 128 {
        let rest = varint(n / 128);
        assert(varint(n) == seq![(n % 128 + 128) as u8] + rest);
        assert(b.subrange(i + 1, i + 1 + rest.len()) =~= rest) by {
            assert forall|k: int| 0 <= k < rest.len() implies b[i + 1 + k] == rest[k] by {
                assert(b[i + 1 + k] == b.subrange(i, i + varint(n).len())[k + 1]);
            }
        }
        lemma_varint_reads_back(b, i + 1, n / 128);
    }
}

/// Who reads the packed parameters of a compressing filter finds the level as the
/// first field, unless it is zero, and the raw flag as the second, if it is set.
pub proof fn law_compress_list_reads_back(level: i32, raw: bool)
    ensures
        read_fields(compress_list(level, raw), 0, 0) == Some(
            (if level == 0 {
                Seq::<Field>::empty()
            } else {
                seq![Field { id: 1, type_map: TYPE_MAP_I32 as nat, value: zigzag(level as int) }]
            }) + (if raw {
                seq![Field { id: 2, type_map: TYPE_MAP_BOOL as nat, value: 1 }]
            } else {
                Seq::<Field>::empty()
            }),
        ),
{
    let b = compress_list(level, raw);
    let flag = if raw {
        seq![Field { id: 2, type_map: TYPE_MAP_BOOL as nat, value: 1 }]
    } else {
        Seq::<Field>::empty()
    };
    if level == 0 {
        if raw {
            assert(b =~= seq![0x29u8, 0u8]);
            lemma_flag(b, 0, 0);
        } else {
            assert(b =~= seq![0u8]);
        }
        assert(Seq::<Field>::empty() + flag =~= flag);
    } else {
        let field = Field { id: 1, type_map: TYPE_MAP_I32 as nat, value: zigzag(level as int) };
        let tail = if raw {
            seq![0x28u8, 0u8]
        } else {
            seq![0u8]
        };
        let at = b.len() - tail.len();
        if zigzag(level as int) < 2 {
            assert(zigzag(level as int) == 1);
            assert(b =~= seq![0x34u8] + tail);
        } else {
            let v = varint(zigzag(level as int));
            assert(b =~= seq![0x38u8] + v + tail);
            assert(b.subrange(1, 1int + v.len()) =~= v);
            lemma_varint_reads_back(b, 1, zigzag(level as int));
        }
        assert(read_field(b, 0, 0) == Some((field, at)));
        assert(b[at] == tail[0]);
        if raw {
            assert(b[at + 1] == tail[1]);
            lemma_flag(b, at, 1);
        }
        assert(read_fields(b, at, 1) == Some(flag));
        lemma_first_field(b, 0, 0, field, at, flag);
    }
}

proof fn lemma_first_field(b: Seq<u8>, i: int, id_last: nat, field: Field, end: int, rest: Seq<Field>)
    requires
        0 <= i < end <= b.len(),
        b[i] != 0,
        read_field(b, i, id_last) == Some((field, end)),
        read_fields(b, end, field.id) == Some(rest),
    ensures
        read_fields(b, i, id_last) == Some(seq![field] + rest),
{
}

proof fn lemma_flag(b: Seq<u8>, i: int, id_last: nat)
    requires
        0 <= i,
        i + 2 == b.len(),
        b[i] == 0x28 || b[i] == 0x29,
        b[i + 1] == 0,
    ensures
        read_fields(b, i, id_last) == Some(
            seq![
                Field {
                    id: id_last + (b[i] as nat) % 4 + 1,
                    type_map: TYPE_MAP_BOOL as nat,
                    value: 1,
                },
            ],
        ),
{
    let field = Field { id: id_last + (b[i] as nat) % 4 + 1, type_map: TYPE_MAP_BOOL as nat, value: 1 };
    assert(read_field(b, i, id_last) == Some((field, i + 1)));
    lemma_first_field(b, i, id_last, field, i + 1, Seq::<Field>::empty());
    assert(seq![field] + Seq::<Field>::empty() =~= seq![field]);
}

/// Who reads the packed parameters of a decompressing filter finds the raw flag as
/// the first field, if it is set.
pub proof fn law_decompress_list_reads_back(raw: bool)
    ensures
        read_fields(decompress_list(raw), 0, 0) == Some(
            if raw {
                seq![Field { id: 1, type_map: TYPE_MAP_BOOL as nat, value: 1 }]
            } else {
                Seq::<Field>::empty()
            },
        ),
{
    let b = decompress_list(raw);
    if raw {
        assert(b =~= seq![0x28u8, 0u8]);
        lemma_flag(b, 0, 0);
    } else {
        assert(b =~= seq![0u8]);
    }
}

/// Different numbers are folded to different ones, so a level can be told from its
/// field.
pub proof fn law_zigzag_is_reversible(a: int, b: int)
    ensures
        zigzag(a) == zigzag(b) ==> a == b,
{
}

/// The packed parameters as they are handed out read back: the level as the first field
/// unless it is zero, the raw flag behind it if it is set. Other parameters give other
/// bytes.
pub proof fn law_packed_parameters_read_back(
    level: i32,
    raw: bool,
    other: (i32, bool),
    packed: Vec<u8>,
    others: Vec<u8>,
    flags: Vec<u8>,
)
    requires
        call_ensures(compress_param_list_bytes, (level, raw), packed),
        call_ensures(compress_param_list_bytes, (other.0, other.1), others),
        call_ensures(decompress_param_list_bytes, (raw,), flags),
    ensures
        ({
            let fields = read_fields(packed@, 0, 0);
            let n = if level == 0 {
                0int
            } else {
                1int
            };
            &&& fields is Some
            &&& fields.unwrap().len() == n + (if raw {
                1int
            } else {
                0int
            })
            &&& level > 0 ==> fields.unwrap()[0].id == 1 && fields.unwrap()[0].type_map == 3 && fields.unwrap()[0].value == 2 * level
            &&& level < 0 ==> fields.unwrap()[0].id == 1 && fields.unwrap()[0].type_map == 3 && fields.unwrap()[0].value == -2 * level
                - 1
            &&& raw ==> fields.unwrap()[n].id == 2 && fields.unwrap()[n].type_map == 2 && fields.unwrap()[n].value == 1
        }),
        packed@ == others@ ==> level == other.0 && raw == other.1,
        raw ==> flags@ == seq![0x28u8, 0u8],
        !raw ==> flags@ == seq![0u8],
{
    law_compress_list_reads_back(level, raw);
    law_compress_list_reads_back(other.0, other.1);
    let a = read_fields(packed@, 0, 0).unwrap();
    let b = read_fields(others@, 0, 0).unwrap();
    if packed@ == others@ {
        assert(a == b);
        if level == 0 && other.0 != 0 {
            assert(b[0].type_map == TYPE_MAP_I32);
        }
        if level != 0 && other.0 == 0 {
            assert(a[0].type_map == TYPE_MAP_I32);
        }
        if level != 0 && other.0 != 0 {
            assert(a[0].value == zigzag(level as int));
            assert(b[0].value == zigzag(other.0 as int));
            law_zigzag_is_reversible(level as int, other.0 as int);
        }
        assert(a.len() == b.len());
    }
    assert(raw ==> decompress_list(raw) =~= seq![0x28u8, 0u8]);
    assert(!raw ==> decompress_list(raw) =~= seq![0u8]);
}

}
