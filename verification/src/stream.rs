//! Packets on their way through ciphers that take one byte after the other.
use crate::codec::{frame, frame_reads_back, read_as_frame, short_frames_are_refused};
use vstd::prelude::*;

verus! {

/// A cipher that takes one byte after the other: what it makes of a byte in a state, and the
/// state that it is left in.
pub type ByteCipher<S> = spec_fn(S, u8) -> (S, u8);

/// The state that a cipher is left in by bytes, and what it makes of them.
pub open spec fn passed<S>(cipher: ByteCipher<S>, state: S, bytes: Seq<u8>) -> (S, Seq<u8>)
    decreases bytes.len(),
{
    if bytes.len() == 0 {
        (state, Seq::empty())
    } else {
        let (between, before) = passed(cipher, state, bytes.drop_last());
        let (after, byte) = cipher(between, bytes.last());
        (after, before.push(byte))
    }
}

/// Whether one cipher undoes what the other does, byte by byte, and goes through the same
/// states.
pub open spec fn undoes<S>(decipher: ByteCipher<S>, encipher: ByteCipher<S>) -> bool {
    forall|state: S, byte: u8|
        decipher(state, (#[trigger] encipher(state, byte)).1) == (encipher(state, byte).0, byte)
}

/// How packets are turned into bytes, and back.
#[verifier::reject_recursive_types(P)]
pub struct PacketForm<P> {
    pub encode: spec_fn(P) -> Seq<u8>,
    pub decode: spec_fn(Seq<u8>) -> Option<P>,
}

impl<P> PacketForm<P> {
    /// Whether a packet is turned back, and fits in a frame.
    pub open spec fn keeps(&self, packet: P) -> bool {
        &&& (self.decode)((self.encode)(packet)) == Some(packet)
        &&& (self.encode)(packet).len() <= i32::MAX
    }

    /// The frame of a packet.
    pub open spec fn framed(&self, packet: P) -> Seq<u8> {
        let body = (self.encode)(packet);
        frame(body.len() as usize, body)
    }

    /// What is written of several packets, one after the other, through a cipher.
    pub open spec fn written<S>(
        &self,
        encipher: ByteCipher<S>,
        state: S,
        packets: Seq<P>,
    ) -> Seq<u8>
        decreases packets.len(),
    {
        if packets.len() == 0 {
            Seq::empty()
        } else {
            let (after, bytes) = passed(encipher, state, self.framed(packets.first()));
            bytes + self.written(encipher, after, packets.skip(1))
        }
    }

    /// The packet at the start of a stream that is read through a cipher, the state that the
    /// cipher is left in, and the rest of the stream.
    pub open spec fn read<S>(&self, decipher: ByteCipher<S>, state: S, stream: Seq<u8>) -> Option<
        (P, S, Seq<u8>),
    > {
        match read_as_frame(passed(decipher, state, stream).1) {
            Err(_) => None,
            Ok((body, count)) => match (self.decode)(body) {
                None => None,
                Some(packet) => Some(
                    (packet, passed(decipher, state, stream.take(count)).0, stream.skip(count)),
                ),
            },
        }
    }

    /// The given number of packets at the start of a stream, and the rest of the stream.
    pub open spec fn read_all<S>(
        &self,
        decipher: ByteCipher<S>,
        state: S,
        stream: Seq<u8>,
        count: nat,
    ) -> Option<(Seq<P>, Seq<u8>)>
        decreases count,
    {
        if count == 0 {
            Some((Seq::empty(), stream))
        } else {
            match self.read(decipher, state, stream) {
                None => None,
                Some((packet, after, rest)) => match self.read_all(
                    decipher,
                    after,
                    rest,
                    (count - 1) as nat,
                ) {
                    None => None,
                    Some((packets, rest)) => Some((seq![packet] + packets, rest)),
                },
            }
        }
    }
}

proof fn lemma_passed_len<S>(cipher: ByteCipher<S>, state: S, bytes: Seq<u8>)
    ensures
        passed(cipher, state, bytes).1.len() == bytes.len(),
    decreases bytes.len(),
{
    if bytes.len() > 0 {
        lemma_passed_len(cipher, state, bytes.drop_last());
    }
}

/// Bytes pass through a cipher piece by piece as they do at once.
proof fn lemma_passed_add<S>(cipher: ByteCipher<S>, state: S, first: Seq<u8>, second: Seq<u8>)
    ensures
        ({
            let (between, before) = passed(cipher, state, first);
            let (after, behind) = passed(cipher, between, second);
            passed(cipher, state, first + second) == (after, before + behind)
        }),
    decreases second.len(),
{
    let (between, before) = passed(cipher, state, first);
    if second.len() == 0 {
        assert(first + second =~= first);
        assert(before + Seq::<u8>::empty() =~= before);
    } else {
        let rest = second.drop_last();
        lemma_passed_add(cipher, state, first, rest);
        assert((first + second).drop_last() =~= first + rest);
        let (late, behind) = passed(cipher, between, rest);
        let (after, byte) = cipher(late, second.last());
        assert((before + behind).push(byte) =~= before + behind.push(byte));
    }
}

/// What passes through a cipher, and then through one that undoes it, comes out unchanged.
pub proof fn deciphering_undoes_enciphering<S>(
    encipher: ByteCipher<S>,
    decipher: ByteCipher<S>,
    state: S,
    bytes: Seq<u8>,
)
    requires
        undoes(decipher, encipher),
    ensures
        passed(decipher, state, passed(encipher, state, bytes).1) == (
            passed(encipher, state, bytes).0,
            bytes,
        ),
    decreases bytes.len(),
{
    if bytes.len() > 0 {
        let rest = bytes.drop_last();
        deciphering_undoes_enciphering(encipher, decipher, state, rest);
        let (between, before) = passed(encipher, state, rest);
        let (after, byte) = encipher(between, bytes.last());
        assert(before.push(byte).drop_last() =~= before);
        assert(rest.push(bytes.last()) =~= bytes);
    }
}

/// A packet that was written through a cipher is read back through one that undoes it,
/// whatever follows. What is left of the stream is what follows, and the two ciphers are in
/// the same state.
pub proof fn packets_read_back<P, S>(
    form: PacketForm<P>,
    encipher: ByteCipher<S>,
    decipher: ByteCipher<S>,
    state: S,
    packet: P,
    rest: Seq<u8>,
)
    requires
        undoes(decipher, encipher),
        form.keeps(packet),
    ensures
        ({
            let (after, bytes) = passed(encipher, state, form.framed(packet));
            form.read(decipher, state, bytes + rest) == Some((packet, after, rest))
        }),
{
    let body = (form.encode)(packet);
    let (after, bytes) = passed(encipher, state, form.framed(packet));
    lemma_passed_len(encipher, state, form.framed(packet));
    deciphering_undoes_enciphering(encipher, decipher, state, form.framed(packet));
    lemma_passed_add(decipher, state, bytes, rest);
    frame_reads_back(body, passed(decipher, after, rest).1);
    assert((bytes + rest).take(bytes.len() as int) =~= bytes);
    assert((bytes + rest).skip(bytes.len() as int) =~= rest);
}

/// Packets that were written one after the other are read back in that order, whatever
/// follows.
pub proof fn packets_read_back_in_order<P, S>(
    form: PacketForm<P>,
    encipher: ByteCipher<S>,
    decipher: ByteCipher<S>,
    state: S,
    packets: Seq<P>,
    rest: Seq<u8>,
)
    requires
        undoes(decipher, encipher),
        forall|i: int| 0 <= i < packets.len() ==> form.keeps(#[trigger] packets[i]),
    ensures
        form.read_all(
            decipher,
            state,
            form.written(encipher, state, packets) + rest,
            packets.len(),
        ) == Some((packets, rest)),
    decreases packets.len(),
{
    if packets.len() == 0 {
        assert(form.written(encipher, state, packets) + rest =~= rest);
        assert(packets =~= Seq::empty());
    } else {
        let (first, others) = (packets.first(), packets.skip(1));
        let (after, bytes) = passed(encipher, state, form.framed(first));
        let behind = form.written(encipher, after, others) + rest;
        assert(form.written(encipher, state, packets) + rest =~= bytes + behind);
        assert(form.keeps(packets[0]));
        packets_read_back(form, encipher, decipher, state, first, behind);
        assert forall|i: int| 0 <= i < others.len() implies form.keeps(#[trigger] others[i]) by {
            assert(others[i] == packets[i + 1]);
        }
        packets_read_back_in_order(form, encipher, decipher, after, others, rest);
        assert(seq![first] + others =~= packets);
    }
}

/// A packet of which the stream holds only a part is not read.
pub proof fn short_packets_are_refused<P, S>(
    form: PacketForm<P>,
    encipher: ByteCipher<S>,
    decipher: ByteCipher<S>,
    state: S,
    packet: P,
    kept: int,
)
    requires
        undoes(decipher, encipher),
        form.keeps(packet),
        0 <= kept < form.framed(packet).len(),
    ensures
        form.read(decipher, state, passed(encipher, state, form.framed(packet)).1.take(kept))
            is None,
{
    let whole = form.framed(packet);
    let (first, second) = (whole.take(kept), whole.skip(kept));
    assert(first + second =~= whole);
    lemma_passed_add(encipher, state, first, second);
    lemma_passed_len(encipher, state, first);
    assert(passed(encipher, state, whole).1.take(kept) =~= passed(encipher, state, first).1);
    deciphering_undoes_enciphering(encipher, decipher, state, first);
    short_frames_are_refused((form.encode)(packet), kept);
}

} // verus!
