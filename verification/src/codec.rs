//! Variable length integers, length prefixed text, and the frames that packets travel in.
use vstd::prelude::*;
use vstd::utf8::*;

verus! {

/// The greatest number of bytes of a text, counted in UTF-8.
pub const STRING_DEFAULT_CAP: i32 = 131068;

/// The integer that the two's complement form of `v` stands for when read without a sign.
pub open spec fn unsigned(v: i32) -> nat {
    if v >= 0 {
        v as nat
    } else {
        (v + 0x1_0000_0000) as nat
    }
}

/// The `i32` whose two's complement form ends the binary form of `v`.
pub open spec fn signed(v: nat) -> int {
    let low = v % 0x1_0000_0000;
    if low < 0x8000_0000 {
        low as int
    } else {
        low - 0x1_0000_0000
    }
}

/// Groups of seven bits, the lowest first; every byte but the last has its top bit set.
pub open spec fn groups(v: nat) -> Seq<u8>
    decreases v,
{
    if v < 128 {
        seq![v as u8]
    } else {
        seq![(v % 128 + 128) as u8] + groups(v / 128)
    }
}

/// The bytes of a variable length integer.
pub open spec fn var_int(v: i32) -> Seq<u8> {
    groups(unsigned(v))
}

/// The integer that groups of seven bits stand for.
pub open spec fn grouped(bytes: Seq<u8>) -> nat
    decreases bytes.len(),
{
    if bytes.len() == 0 {
        0
    } else {
        (bytes[0] % 128) as nat + 128 * grouped(bytes.drop_first())
    }
}

/// Why bytes are no variable length integer, no text or no frame.
#[derive(Clone, Copy, Debug, PartialEq, Eq, Structural)]
pub enum CodecError {
    /// The bytes end too early.
    EndOfInput,
    /// The integer does not end within five bytes.
    VarNumTooLarge,
    /// The packet is shorter than announced.
    PacketSizeMismatch,
    /// The text is longer than allowed.
    LimitExceeded,
}

/// The integer at the start of the bytes, and the number of bytes that it takes; `i` bytes
/// are known to be continued.
pub open spec fn var_int_from(bytes: Seq<u8>, i: nat) -> Result<(int, nat), CodecError>
    decreases 5 - i,
{
    if i >= 5 {
        Err(CodecError::VarNumTooLarge)
    } else if bytes.len() <= i {
        Err(CodecError::EndOfInput)
    } else if bytes[i as int] < 128 {
        Ok((signed(grouped(bytes.take(i as int + 1))), i + 1))
    } else {
        var_int_from(bytes, i + 1)
    }
}

/// The variable length integer at the start of the bytes.
pub open spec fn read_as_var_int(bytes: Seq<u8>) -> Result<(int, nat), CodecError> {
    var_int_from(bytes, 0)
}

proof fn lemma_groups_len(v: nat)
    ensures
        1 <= groups(v).len(),
        v < 0x1_0000_0000 ==> groups(v).len() <= 5,
        v < 0x1000_0000 ==> groups(v).len() <= 4,
        v < 0x20_0000 ==> groups(v).len() <= 3,
        v < 0x4000 ==> groups(v).len() <= 2,
        v < 128 ==> groups(v).len() == 1,
    decreases v,
{
    if v >= 128 {
        lemma_groups_len(v / 128);
    }
}

proof fn lemma_grouped_groups(v: nat)
    ensures
        grouped(groups(v)) == v,
    decreases v,
{
    let g = groups(v);
    if v < 128 {
        assert(g.drop_first() =~= Seq::<u8>::empty());
        assert(grouped(g.drop_first()) == 0);
    } else {
        assert(g.drop_first() =~= groups(v / 128));
        lemma_grouped_groups(v / 128);
    }
}

/// Every byte but the last is continued, and the last one is not.
proof fn lemma_groups_shape(v: nat)
    ensures
        forall|i: int| 0 <= i < groups(v).len() - 1 ==> groups(v)[i] >= 128,
        groups(v).last() < 128,
    decreases v,
{
    if v >= 128 {
        lemma_groups_shape(v / 128);
        lemma_groups_len(v / 128);
        let g = groups(v);
        let rest = groups(v / 128);
        assert forall|i: int| 0 <= i < g.len() - 1 implies g[i] >= 128 by {
            if i > 0 {
                assert(g[i] == rest[i - 1]);
            }
        }
        assert(g.last() == rest.last());
    }
}

proof fn lemma_read_groups(v: nat, rest: Seq<u8>, i: nat)
    requires
        v < 0x1_0000_0000,
        i < groups(v).len(),
    ensures
        var_int_from(groups(v) + rest, i) == Ok::<(int, nat), CodecError>(
            (signed(v), groups(v).len()),
        ),
    decreases groups(v).len() - i,
{
    lemma_groups_len(v);
    lemma_groups_shape(v);
    let bytes = groups(v) + rest;
    if i + 1 == groups(v).len() {
        assert(bytes.take(i as int + 1) =~= groups(v));
        lemma_grouped_groups(v);
        assert(bytes[i as int] == groups(v).last());
    } else {
        assert(bytes[i as int] == groups(v)[i as int]);
        lemma_read_groups(v, rest, i + 1);
    }
}

/// A variable length integer reads back as it was written, whatever follows it.
pub proof fn var_int_reads_back(v: i32, rest: Seq<u8>)
    ensures
        read_as_var_int(var_int(v) + rest) == Ok::<(int, nat), CodecError>(
            (v as int, var_int(v).len()),
        ),
        1 <= var_int(v).len() <= 5,
{
    lemma_groups_len(unsigned(v));
    lemma_read_groups(unsigned(v), rest, 0);
}

/// The number of bytes of a variable length integer.
pub fn size_var_int(v: i32) -> (size: usize)
    ensures
        size == var_int(v).len(),
        1 <= size <= 5,
{
    let mut buffer: Vec<u8> = Vec::new();
    write_var_int(&mut buffer, v);
    proof {
        lemma_groups_len(unsigned(v));
    }
    buffer.len()
}

/// Appends a variable length integer.
pub fn write_var_int(buffer: &mut Vec<u8>, v: i32)
    ensures
        final(buffer)@ == old(buffer)@ + var_int(v),
{
    let mut value: u32 = v as u32;
    assert(v < 0 ==> value == v + 0x1_0000_0000) by (bit_vector)
        requires
            value == v as u32,
    ;
    assert(v >= 0 ==> value == v) by (bit_vector)
        requires
            value == v as u32,
    ;
    let ghost start = buffer@;
    while value >= 128
        invariant
            buffer@ + groups(value as nat) == start + var_int(v),
        decreases value,
    {
        let ghost before = buffer@;
        buffer.push((value % 128 + 128) as u8);
        assert(buffer@ + groups((value / 128) as nat) =~= before + groups(value as nat));
        value = value / 128;
    }
    let ghost before = buffer@;
    buffer.push(value as u8);
    assert(buffer@ =~= before + groups(value as nat));
}

/// What a variable length integer is after one more byte.
#[derive(Clone, Copy, Debug, PartialEq, Eq, Structural)]
pub enum VarIntStep {
    /// The next byte belongs to it.
    More,
    /// It is complete.
    Done { value: i32 },
    /// It takes more bytes than allowed.
    TooLarge,
}

/// The part of a variable length integer that has been read.
pub struct VarIntReader {
    value: u64,
    weight: u64,
    count: u8,
    bytes: Ghost<Seq<u8>>,
}

impl VarIntReader {
    /// The bytes that have been read.
    pub closed spec fn read(&self) -> Seq<u8> {
        self.bytes@
    }

    /// The fields stand for the bytes that have been read.
    pub closed spec fn valid(&self) -> bool {
        &&& self.count == self.bytes@.len()
        &&& self.count <= 4
        &&& self.value == grouped(self.bytes@)
        &&& self.value < self.weight
        &&& self.weight == weight_of(self.count as nat)
        &&& forall|i: int| 0 <= i < self.bytes@.len() ==> self.bytes@[i] >= 128
    }

    /// Nothing has been read.
    pub fn new() -> (reader: Self)
        ensures
            reader.valid(),
            reader.read() == Seq::<u8>::empty(),
    {
        VarIntReader { value: 0, weight: 1, count: 0, bytes: Ghost(Seq::empty()) }
    }

    /// Reads one more byte.
    pub fn push(&mut self, byte: u8) -> (step: VarIntStep)
        requires
            old(self).valid(),
        ensures
            match step {
                VarIntStep::More => {
                    &&& byte >= 128
                    &&& final(self).valid()
                    &&& final(self).read() == old(self).read().push(byte)
                    &&& old(self).read().len() < 4
                },
                VarIntStep::Done { value } => {
                    &&& read_as_var_int(old(self).read().push(byte)) == Ok::<
                        (int, nat),
                        CodecError,
                    >((value as int, old(self).read().len() + 1))
                    &&& byte < 128
                },
                VarIntStep::TooLarge => forall|rest: Seq<u8>|
                    (#[trigger] read_as_var_int(old(self).read().push(byte) + rest)) == Err::<
                        (int, nat),
                        CodecError,
                    >(CodecError::VarNumTooLarge),
            },
    {
        let ghost before = self.bytes@;
        let ghost after = before.push(byte);
        proof {
            lemma_grouped_push(before, byte);
            lemma_weights();
            lemma_continued(after, 0, before.len());
        }
        let low: u64 = (byte % 128) as u64;
        proof {
            assert(low * self.weight <= 127 * self.weight) by (nonlinear_arith)
                requires
                    low <= 127,
            ;
        }
        let value: u64 = self.value + low * self.weight;
        if byte < 128 {
            let bits: u64 = value % 0x1_0000_0000;
            let result: i32 = if bits < 0x8000_0000 {
                bits as i32
            } else {
                (bits as i64 - 0x1_0000_0000) as i32
            };
            proof {
                assert(after.take(before.len() as int + 1) =~= after);
            }
            return VarIntStep::Done { value: result };
        }
        if self.count == 4 {
            proof {
                assert forall|rest: Seq<u8>| (#[trigger] read_as_var_int(after + rest)) == Err::<
                    (int, nat),
                    CodecError,
                >(CodecError::VarNumTooLarge) by {
                    lemma_continued(after + rest, 0, 5);
                }
            }
            return VarIntStep::TooLarge;
        }
        self.value = value;
        self.weight = self.weight * 128;
        self.count = self.count + 1;
        self.bytes = Ghost(after);
        VarIntStep::More
    }
}

/// `128^n`, for the numbers of groups that occur.
spec fn weight_of(n: nat) -> nat
    decreases n,
{
    if n == 0 {
        1
    } else {
        128 * weight_of((n - 1) as nat)
    }
}

proof fn lemma_weights()
    ensures
        weight_of(0) == 1,
        weight_of(1) == 128,
        weight_of(2) == 0x4000,
        weight_of(3) == 0x20_0000,
        weight_of(4) == 0x1000_0000,
        weight_of(5) == 0x8_0000_0000,
{
    reveal_with_fuel(weight_of, 6);
}

/// A byte more adds a group of the next weight.
proof fn lemma_grouped_push(bytes: Seq<u8>, byte: u8)
    ensures
        grouped(bytes.push(byte)) == grouped(bytes) + (byte % 128) * weight_of(bytes.len()),
    decreases bytes.len(),
{
    if bytes.len() == 0 {
        assert(bytes.push(byte).drop_first() =~= Seq::<u8>::empty());
        assert(grouped(bytes.push(byte).drop_first()) == 0);
        assert(weight_of(0) == 1);
    } else {
        assert(bytes.push(byte).drop_first() =~= bytes.drop_first().push(byte));
        lemma_grouped_push(bytes.drop_first(), byte);
        let w = weight_of((bytes.len() - 1) as nat);
        let b = (byte % 128) as nat;
        assert(128 * (b * w) == b * (128 * w)) by (nonlinear_arith);
    }
}

/// While bytes are continued, reading goes on.
proof fn lemma_continued(bytes: Seq<u8>, i: nat, n: nat)
    requires
        i <= n <= 5,
        n <= bytes.len(),
        forall|j: int| i <= j < n ==> bytes[j] >= 128,
    ensures
        var_int_from(bytes, i) == var_int_from(bytes, n),
    decreases n - i,
{
    if i < n {
        lemma_continued(bytes, i + 1, n);
    }
}

/// Reads the variable length integer at the start of the bytes.
pub fn read_var_int(input: &[u8]) -> (r: Result<(i32, usize), CodecError>)
    ensures
        match r {
            Ok((value, count)) => read_as_var_int(input@) == Ok::<(int, nat), CodecError>(
                (value as int, count as nat),
            ) && count <= input@.len(),
            Err(e) => read_as_var_int(input@) == Err::<(int, nat), CodecError>(e),
        },
{
    let mut reader: VarIntReader = VarIntReader::new();
    let mut i: usize = 0;
    proof {
        assert(input@.take(0) =~= Seq::<u8>::empty());
    }
    while i < input.len()
        invariant
            i <= input@.len(),
            i <= 4,
            reader.valid(),
            reader.read() == input@.take(i as int),
            var_int_from(input@, 0) == var_int_from(input@, i as nat),
        decreases input.len() - i,
    {
        let ghost before = input@.take(i as int);
        proof {
            assert(before.push(input@[i as int]) =~= input@.take(i + 1));
        }
        match reader.push(input[i]) {
            VarIntStep::More => {},
            VarIntStep::Done { value } => {
                proof {
                    lemma_prefix_read(input@, i + 1);
                }
                return Ok((value, i + 1));
            },
            VarIntStep::TooLarge => {
                proof {
                    let rest = input@.skip(i + 1);
                    assert(input@.take(i + 1) + rest =~= input@);
                    assert(read_as_var_int(before.push(input@[i as int]) + rest) == Err::<
                        (int, nat),
                        CodecError,
                    >(CodecError::VarNumTooLarge));
                }
                return Err(CodecError::VarNumTooLarge);
            },
        }
        i = i + 1;
    }
    Err(CodecError::EndOfInput)
}

/// What a prefix reads as, the whole reads as.
proof fn lemma_prefix_read(bytes: Seq<u8>, n: int)
    requires
        0 <= n <= bytes.len(),
        read_as_var_int(bytes.take(n)) is Ok,
    ensures
        read_as_var_int(bytes) == read_as_var_int(bytes.take(n)),
{
    lemma_prefix_read_from(bytes, n, 0);
}

proof fn lemma_prefix_read_from(bytes: Seq<u8>, n: int, i: nat)
    requires
        0 <= n <= bytes.len(),
        var_int_from(bytes.take(n), i) is Ok,
    ensures
        var_int_from(bytes, i) == var_int_from(bytes.take(n), i),
    decreases 5 - i,
{
    if i < 5 {
        assert(i < n);
        assert(bytes.take(n)[i as int] == bytes[i as int]);
        if bytes[i as int] < 128 {
            assert(bytes.take(n).take(i as int + 1) =~= bytes.take(i as int + 1));
        } else {
            lemma_prefix_read_from(bytes, n, i + 1);
        }
    }
}

/// A packet of the given size, with its size before it.
pub open spec fn frame(size: usize, body: Seq<u8>) -> Seq<u8> {
    var_int(size as i32) + body
}

/// The packet at the start of the bytes, and the number of bytes that its frame takes.
pub open spec fn read_as_frame(bytes: Seq<u8>) -> Result<(Seq<u8>, int), CodecError> {
    match read_as_var_int(bytes) {
        Err(e) => Err(e),
        Ok((size, count)) => if bytes.len() - count < size {
            Err(CodecError::PacketSizeMismatch)
        } else {
            Ok((bytes.subrange(count as int, count + size), count + size))
        },
    }
}

/// A frame reads back as the packet in it, whatever follows it.
pub proof fn frame_reads_back(body: Seq<u8>, rest: Seq<u8>)
    requires
        body.len() <= i32::MAX,
    ensures
        read_as_frame(frame(body.len() as usize, body) + rest) == Ok::<
            (Seq<u8>, int),
            CodecError,
        >((body, frame(body.len() as usize, body).len() as int)),
{
    let size = body.len() as usize;
    let v = size as i32;
    assert(v == body.len());
    var_int_reads_back(v, body + rest);
    let bytes = frame(size, body) + rest;
    assert(bytes =~= var_int(v) + (body + rest));
    let count = var_int(v).len() as int;
    assert(bytes.subrange(count, count + v) =~= body);
}

/// A frame that is cut short is refused: where the size is cut, the bytes end too early, and
/// else the packet is shorter than announced.
pub proof fn short_frames_are_refused(body: Seq<u8>, kept: int)
    requires
        body.len() <= i32::MAX,
        0 <= kept < frame(body.len() as usize, body).len(),
    ensures
        read_as_frame(frame(body.len() as usize, body).take(kept)) == Err::<
            (Seq<u8>, int),
            CodecError,
        >(
            if kept < var_int(body.len() as i32).len() {
                CodecError::EndOfInput
            } else {
                CodecError::PacketSizeMismatch
            },
        ),
{
    let v = body.len() as i32;
    assert(body.len() as usize as i32 == v);
    let size = var_int(v);
    let bytes = frame(body.len() as usize, body).take(kept);
    lemma_groups_len(unsigned(v));
    lemma_groups_shape(unsigned(v));
    if kept < size.len() {
        assert forall|j: int| 0 <= j < kept implies bytes[j] >= 128 by {
            assert(bytes[j] == size[j]);
        }
        lemma_continued(bytes, 0, kept as nat);
    } else {
        assert(bytes =~= size + body.take(kept - size.len()));
        var_int_reads_back(v, body.take(kept - size.len()));
    }
}

/// Puts the size of a packet before it.
pub fn write_frame(size: usize, body: &[u8]) -> (framed: Vec<u8>)
    ensures
        framed@ == frame(size, body@),
{
    let mut buffer: Vec<u8> = Vec::new();
    write_var_int(&mut buffer, size as i32);
    append(&mut buffer, body);
    assert(buffer@ =~= frame(size, body@));
    buffer
}

/// Takes a packet out of its frame.
pub fn read_frame(input: &[u8]) -> (r: Result<(Vec<u8>, usize), CodecError>)
    requires
        read_as_var_int(input@) matches Ok((size, _)) ==> size >= 0,
    ensures
        match r {
            Ok((body, count)) => read_as_frame(input@) == Ok::<(Seq<u8>, int), CodecError>(
                (body@, count as int),
            ),
            Err(e) => read_as_frame(input@) == Err::<(Seq<u8>, int), CodecError>(e),
        },
{
    match read_var_int(input) {
        Err(e) => Err(e),
        Ok((size, count)) => {
            let size: usize = size as usize;
            let total: usize = input.len();
            if total - count < size {
                return Err(CodecError::PacketSizeMismatch);
            }
            let mut body: Vec<u8> = Vec::with_capacity(size);
            let mut i: usize = 0;
            while i < size
                invariant
                    i <= size,
                    count + size <= total,
                    total == input@.len(),
                    body@ == input@.subrange(count as int, count + i),
                decreases size - i,
            {
                body.push(input[count + i]);
                assert(body@ =~= input@.subrange(count as int, count + i + 1));
                i = i + 1;
            }
            Ok((body, count + size))
        },
    }
}

/// Takes the bytes that came behind the size of a packet as the packet, where they are as
/// many as it says.
pub fn take_body(size: i32, received: Vec<u8>) -> (r: Result<Vec<u8>, CodecError>)
    requires
        size >= 0,
    ensures
        r == (if received@.len() == size {
            Ok(received)
        } else {
            Err(CodecError::PacketSizeMismatch)
        }),
{
    if received.len() == size as usize {
        Ok(received)
    } else {
        Err(CodecError::PacketSizeMismatch)
    }
}

/// Appends bytes.
pub fn append(buffer: &mut Vec<u8>, bytes: &[u8])
    ensures
        final(buffer)@ == old(buffer)@ + bytes@,
{
    let ghost start = buffer@;
    let mut i: usize = 0;
    while i < bytes.len()
        invariant
            i <= bytes@.len(),
            buffer@ == start + bytes@.take(i as int),
        decreases bytes.len() - i,
    {
        buffer.push(bytes[i]);
        assert(bytes@.take(i + 1) =~= bytes@.take(i as int).push(bytes@[i as int]));
        i = i + 1;
    }
    assert(bytes@.take(bytes@.len() as int) =~= bytes@);
}

/// A text with its length before it, both counted in UTF-8.
pub open spec fn text(chars: Seq<char>) -> Seq<u8> {
    let bytes = encode_utf8(chars);
    var_int(bytes.len() as i32) + bytes
}

/// Whether a text is too long to be sent.
pub open spec fn text_too_long(chars: Seq<char>) -> bool {
    encode_utf8(chars).len() as i32 > STRING_DEFAULT_CAP
}

/// Writes a text with its length before it.
pub fn encode_string(chars: &str) -> (r: Result<Vec<u8>, CodecError>)
    ensures
        match r {
            Ok(bytes) => !text_too_long(chars@) && bytes@ == text(chars@),
            Err(e) => text_too_long(chars@) && e == CodecError::LimitExceeded,
        },
{
    let bytes: &[u8] = chars.as_bytes();
    let len: i32 = bytes.len() as i32;
    if len > STRING_DEFAULT_CAP {
        return Err(CodecError::LimitExceeded);
    }
    let mut buffer: Vec<u8> = Vec::new();
    write_var_int(&mut buffer, len);
    append(&mut buffer, bytes);
    assert(buffer@ =~= text(chars@));
    Ok(buffer)
}

/// The seven bits of the byte at `i`, where that is one of the first `n`.
pub open spec fn seven_bits(bytes: Seq<u8>, i: int, n: nat) -> int {
    if i < n {
        bytes[i] as int % 128
    } else {
        0
    }
}

proof fn lemma_grouped_sum(bytes: Seq<u8>)
    requires
        1 <= bytes.len() <= 5,
    ensures
        ({
            let n = bytes.len();
            grouped(bytes) == seven_bits(bytes, 0, n) + 0x80 * seven_bits(bytes, 1, n) + 0x4000
                * seven_bits(bytes, 2, n) + 0x20_0000 * seven_bits(bytes, 3, n) + 0x1000_0000
                * seven_bits(bytes, 4, n)
        }),
{
    reveal_with_fuel(grouped, 6);
    let a = bytes.drop_first();
    if a.len() > 0 {
        let b = a.drop_first();
        assert(a[0] == bytes[1]);
        if b.len() > 0 {
            let c = b.drop_first();
            assert(b[0] == bytes[2]);
            if c.len() > 0 {
                let d = c.drop_first();
                assert(c[0] == bytes[3]);
                if d.len() > 0 {
                    assert(d[0] == bytes[4]);
                    assert(d.drop_first().len() == 0);
                }
            }
        }
    }
}

/// A variable length integer ends with the first byte below 128, the fifth at the latest. It
/// is what the lower seven bits of its bytes stand for, the first the lowest, as an `i32`.
/// Where all bytes are 128 or above, it is too large from five on, and else cut short.
pub proof fn var_ints_are_groups_of_seven_bits(bytes: Seq<u8>)
    ensures
        match read_as_var_int(bytes) {
            Ok((value, n)) => {
                &&& 1 <= n <= 5
                &&& n <= bytes.len()
                &&& bytes[n - 1] < 128
                &&& forall|i: int| 0 <= i < n - 1 ==> #[trigger] bytes[i] >= 128
                &&& -0x8000_0000 <= value < 0x8000_0000
                &&& (seven_bits(bytes, 0, n) + 0x80 * seven_bits(bytes, 1, n) + 0x4000 * seven_bits(
                    bytes,
                    2,
                    n,
                ) + 0x20_0000 * seven_bits(bytes, 3, n) + 0x1000_0000 * seven_bits(bytes, 4, n)
                    - value) % 0x1_0000_0000 == 0
            },
            Err(CodecError::VarNumTooLarge) => {
                &&& bytes.len() >= 5
                &&& forall|i: int| 0 <= i < 5 ==> #[trigger] bytes[i] >= 128
            },
            Err(CodecError::EndOfInput) => {
                &&& bytes.len() < 5
                &&& forall|i: int| 0 <= i < bytes.len() ==> #[trigger] bytes[i] >= 128
            },
            Err(_) => false,
        },
{
    lemma_var_int_ends(bytes, 0);
    match read_as_var_int(bytes) {
        Ok((value, n)) => {
            let read = bytes.take(n as int);
            lemma_grouped_sum(read);
            assert(seven_bits(read, 0, n) == seven_bits(bytes, 0, n));
            assert(seven_bits(read, 1, n) == seven_bits(bytes, 1, n));
            assert(seven_bits(read, 2, n) == seven_bits(bytes, 2, n));
            assert(seven_bits(read, 3, n) == seven_bits(bytes, 3, n));
            assert(seven_bits(read, 4, n) == seven_bits(bytes, 4, n));
            let total = grouped(read) as int;
            assert((total - signed(total as nat)) % 0x1_0000_0000 == 0);
        },
        Err(_) => {},
    }
}

proof fn lemma_var_int_ends(bytes: Seq<u8>, i: nat)
    requires
        i <= 5,
        i <= bytes.len(),
        forall|j: int| 0 <= j < i ==> #[trigger] bytes[j] >= 128,
    ensures
        match var_int_from(bytes, i) {
            Ok((value, n)) => {
                &&& 1 <= n <= 5
                &&& n <= bytes.len()
                &&& bytes[n - 1] < 128
                &&& forall|j: int| 0 <= j < n - 1 ==> #[trigger] bytes[j] >= 128
                &&& value == signed(grouped(bytes.take(n as int)))
            },
            Err(CodecError::VarNumTooLarge) => {
                &&& bytes.len() >= 5
                &&& forall|j: int| 0 <= j < 5 ==> #[trigger] bytes[j] >= 128
            },
            Err(CodecError::EndOfInput) => {
                &&& bytes.len() < 5
                &&& forall|j: int| 0 <= j < bytes.len() ==> #[trigger] bytes[j] >= 128
            },
            Err(_) => false,
        },
    decreases 5 - i,
{
    if i < 5 && i < bytes.len() && bytes[i as int] >= 128 {
        lemma_var_int_ends(bytes, i + 1);
    }
}

/// Small numbers take one byte, which is the number. Of any other that is not negative the
/// first byte holds the lowest seven bits, with the top bit set, and the others are those of
/// the number shifted down by seven bits. A negative one takes five bytes.
pub proof fn var_ints_are_written_lowest_bits_first(v: i32)
    ensures
        0 <= v < 128 ==> var_int(v).len() == 1 && var_int(v)[0] == v,
        v >= 128 ==> {
            &&& var_int(v)[0] == 128 + v % 128
            &&& var_int(v).drop_first() == var_int((v / 128) as i32)
        },
        v < 0 ==> var_int(v).len() == 5,
{
    if v >= 128 {
        assert(var_int(v).drop_first() =~= var_int((v / 128) as i32));
    }
    if v < 0 {
        reveal_with_fuel(groups, 6);
    }
}

/// A frame is the size as a variable length integer and then the packet, byte for byte.
pub proof fn frames_are_size_and_packet(body: Seq<u8>)
    requires
        body.len() < 0x8000_0000,
    ensures
        ({
            let framed = frame(body.len() as usize, body);
            let size = var_int(body.len() as i32);
            &&& framed.len() == size.len() + body.len()
            &&& framed.take(size.len() as int) == size
            &&& framed.skip(size.len() as int) == body
        }),
{
    let framed = frame(body.len() as usize, body);
    let size = var_int(body.len() as i32);
    assert(body.len() as usize as i32 == body.len() as i32);
    assert(framed.take(size.len() as int) =~= size);
    assert(framed.skip(size.len() as int) =~= body);
}

/// What is taken out of a frame is as long as announced, stands right behind the size, and is
/// all that the frame takes.
pub proof fn packets_stand_behind_their_size(bytes: Seq<u8>)
    requires
        read_as_var_int(bytes) is Ok,
    ensures
        ({
            let (size, count) = read_as_var_int(bytes)->Ok_0;
            match read_as_frame(bytes) {
                Ok((body, used)) => {
                    &&& size >= 0 ==> body.len() == size
                    &&& used == count + size
                    &&& forall|i: int|
                        0 <= i < size ==> #[trigger] body[i] == bytes[count + i]
                    &&& bytes.len() >= count + size
                },
                Err(e) => e is PacketSizeMismatch && bytes.len() < count + size,
            }
        }),
{
    var_ints_are_groups_of_seven_bits(bytes);
}

/// A text reads back, whatever follows it: its UTF-8 form stands behind its length like a
/// packet in its frame. It is too long exactly where that form has more than 131068 bytes.
pub proof fn texts_read_back(chars: Seq<char>, rest: Seq<u8>)
    requires
        encode_utf8(chars).len() < 0x8000_0000,
    ensures
        read_as_frame(text(chars) + rest) == Ok::<(Seq<u8>, int), CodecError>(
            (encode_utf8(chars), text(chars).len() as int),
        ),
        text_too_long(chars) <==> encode_utf8(chars).len() > 131068,
{
    let bytes = encode_utf8(chars);
    assert(bytes.len() as usize as i32 == bytes.len() as i32);
    frame_reads_back(bytes, rest);
    assert(text(chars) =~= frame(bytes.len() as usize, bytes));
}

} // verus!
