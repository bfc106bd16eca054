//! Audio sample handling that needs no floating point: decoding the 32-bit little-endian
//! sample stream of `pw-record` (each `f32` sample carried as its bit pattern), the source
//! ranges averaged into each 16 kHz output sample, and the bytes of the WAV file.
use vstd::prelude::*;

verus! {

/// The little-endian `u32` of four bytes.
pub open spec fn le_word(b0: u8, b1: u8, b2: u8, b3: u8) -> u32 {
    (b0 + b1 * 0x100 + b2 * 0x1_0000 + b3 * 0x100_0000) as u32
}

/// The complete 4-byte words of a byte stream, in order; a trailing partial word is left out.
pub open spec fn words(bytes: Seq<u8>) -> Seq<u32> {
    Seq::new(
        bytes.len() / 4,
        |i: int| le_word(bytes[4 * i], bytes[4 * i + 1], bytes[4 * i + 2], bytes[4 * i + 3]),
    )
}

/// The bytes after the last complete word.
pub open spec fn partial_tail(bytes: Seq<u8>) -> Seq<u8> {
    bytes.skip((4 * (bytes.len() / 4)) as int)
}

/// Decoding a chunk: the output extended by the words that the pending bytes and the chunk
/// complete, and the bytes of an incomplete word kept pending.
pub open spec fn decode_step(output: Seq<u32>, pending: Seq<u8>, incoming: Seq<u8>) -> (
    Seq<u32>,
    Seq<u8>,
) {
    (output + words(pending + incoming), partial_tail(pending + incoming))
}

/// Appends the samples that `incoming` completes to `output`, each as the bit pattern of
/// its little-endian `f32`; the bytes of an incomplete sample stay in `pending` for the next
/// read.
pub fn append_f32_samples(output: &mut Vec<u32>, pending: &mut Vec<u8>, incoming: &[u8])
    ensures
        (final(output)@, final(pending)@) == decode_step(old(output)@, old(pending)@, incoming@),
{
    let ghost all = old(pending)@ + incoming@;
    let mut i: usize = 0;
    while i < incoming.len()
        invariant
            i <= incoming@.len(),
            all == old(pending)@ + incoming@,
            pending@ == old(pending)@ + incoming@.take(i as int),
        decreases incoming.len() - i,
    {
        pending.push(incoming[i]);
        assert(incoming@.take(i + 1) =~= incoming@.take(i as int).push(incoming@[i as int]));
        i = i + 1;
    }
    assert(incoming@.take(i as int) =~= incoming@);
    let complete = pending.len() / 4 * 4;
    let mut k: usize = 0;
    let ghost start = output@;
    while k < complete
        invariant
            pending@ == all,
            complete == 4 * (all.len() / 4),
            k <= complete,
            k % 4 == 0,
            output@ == start + words(all).take((k / 4) as int),
        decreases complete - k,
    {
        let w = (pending[k] as u32) + (pending[k + 1] as u32) * 0x100 + (pending[k + 2] as u32)
            * 0x1_0000 + (pending[k + 3] as u32) * 0x100_0000;
        output.push(w);
        proof {
            assert(words(all)[(k / 4) as int] == w);
            assert(words(all).take((k / 4) as int + 1) =~= words(all).take((k / 4) as int).push(w));
            assert((k + 4) / 4 == k / 4 + 1);
        }
        k = k + 4;
    }
    assert(words(all).take((complete / 4) as int) =~= words(all));
    let rest = pending.split_off(complete);
    *pending = rest;
}

proof fn lemma_words_concat(s: Seq<u8>, t: Seq<u8>)
    requires
        s.len() % 4 == 0,
    ensures
        words(s + t) == words(s) + words(t),
{
    let m = s.len() / 4;
    assert((s + t).len() / 4 == m + t.len() / 4) by {
        assert(s.len() == 4 * m);
    }
    assert forall|i: int| 0 <= i < words(s + t).len() implies words(s + t)[i] == (words(s)
        + words(t))[i] by {
        if i < m {
            assert(4 * i + 3 < s.len());
        } else {
            assert(4 * i - s.len() == 4 * (i - m));
        }
    }
    assert(words(s + t) =~= words(s) + words(t));
}

/// Decoding is independent of how the stream is split into reads: two chunks decoded one
/// after the other give what their concatenation gives at once.
pub proof fn decoding_ignores_chunking(output: Seq<u32>, pending: Seq<u8>, a: Seq<u8>, b: Seq<u8>)
    ensures
        ({
            let (o1, p1) = decode_step(output, pending, a);
            decode_step(o1, p1, b)
        }) == decode_step(output, pending, a + b),
{
    let x = pending + a;
    let n = (4 * (x.len() / 4)) as int;
    let head = x.take(n);
    let rem = x.skip(n);
    assert(x =~= head + rem);
    assert(pending + (a + b) =~= head + (rem + b));
    lemma_words_concat(head, rem);
    lemma_words_concat(head, rem + b);
    assert(words(rem) =~= Seq::<u32>::empty());
    assert(words(x) =~= words(head));
    let y = rem + b;
    assert(partial_tail(head + y) =~= partial_tail(y)) by {
        assert((head + y).len() / 4 == head.len() / 4 + y.len() / 4);
        assert(4 * ((head + y).len() / 4) == n + 4 * (y.len() / 4));
    }
    assert(output + words(x) + words(y) =~= output + words(head + y));
}

/// The number of 16 kHz samples made from `count` samples at `rate` Hz.
pub open spec fn resampled_len(count: int, rate: int) -> int {
    if rate == 0 {
        0
    } else {
        count * 16000 / rate
    }
}

/// The range of source samples averaged into output sample `i`: from `i * rate / 16000` to
/// `(i + 1) * rate / 16000`, at least one sample, and not past the end.
pub open spec fn source_range(i: int, count: int, rate: int) -> (int, int) {
    let start = i * rate / 16000;
    let end = (i + 1) * rate / 16000;
    let end = if end < start + 1 {
        start + 1
    } else {
        end
    };
    (start, if end > count {
        count
    } else {
        end
    })
}

/// The source range of each 16 kHz output sample, for `count` mono samples at `rate` Hz; an
/// input sampled below 16 kHz repeats samples, and a rate of 0 gives nothing.
pub fn resample_ranges(count: usize, rate: u32) -> (r: Vec<(usize, usize)>)
    requires
        count * 16000 <= u64::MAX,
    ensures
        r@.len() == resampled_len(count as int, rate as int),
        forall|i: int|
            0 <= i < r@.len() ==> (#[trigger] r@[i]).0 == source_range(i, count as int, rate as int).0
                && r@[i].1 == source_range(i, count as int, rate as int).1,
        forall|i: int| 0 <= i < r@.len() ==> (#[trigger] r@[i]).0 < r@[i].1 <= count,
{
    let mut r: Vec<(usize, usize)> = Vec::new();
    if rate == 0 {
        return r;
    }
    let rate64 = rate as u64;
    let total = count as u64 * 16000 / rate64;
    let mut i: u64 = 0;
    while i < total
        invariant
            rate64 == rate as u64,
            rate > 0,
            count * 16000 <= u64::MAX,
            total == count * 16000 / (rate as int),
            i <= total,
            r@.len() == i,
            forall|j: int|
                0 <= j < r@.len() ==> (#[trigger] r@[j]).0 == source_range(
                    j,
                    count as int,
                    rate as int,
                ).0 && r@[j].1 == source_range(j, count as int, rate as int).1,
            forall|j: int| 0 <= j < r@.len() ==> (#[trigger] r@[j]).0 < r@[j].1 <= count,
        decreases total - i,
    {
        proof {
            assert((i + 1) * rate <= count * 16000) by (nonlinear_arith)
                requires
                    i < total,
                    total == count * 16000 / (rate as int),
                    rate > 0,
            ;
            assert(i * rate <= (i + 1) * rate) by (nonlinear_arith)
                requires
                    rate > 0,
            ;
            assert(i * rate / 16000 < count) by (nonlinear_arith)
                requires
                    (i + 1) * rate <= count * 16000,
                    i * rate <= (i + 1) * rate,
                    rate > 0,
            ;
            assert((i + 1) * rate / 16000 <= count) by (nonlinear_arith)
                requires
                    (i + 1) * rate <= count * 16000,
            ;
        }
        let start = (i * rate64 / 16000) as usize;
        let mut end = ((i + 1) * rate64 / 16000) as usize;
        if end < start + 1 {
            end = start + 1;
        }
        if end > count {
            end = count;
        }
        r.push((start, end));
        i = i + 1;
    }
    r
}

/// The little-endian bytes of a `u16`.
pub open spec fn le16(v: u16) -> Seq<u8> {
    seq![(v % 0x100) as u8, (v / 0x100) as u8]
}

/// The little-endian bytes of a `u32`.
pub open spec fn le32(v: u32) -> Seq<u8> {
    seq![
        (v % 0x100) as u8,
        ((v / 0x100) % 0x100) as u8,
        ((v / 0x1_0000) % 0x100) as u8,
        (v / 0x100_0000) as u8,
    ]
}

/// The 44-byte header of a mono 16-bit 16 kHz PCM WAV file whose data has `data_len` bytes.
pub open spec fn wav_header(data_len: u32) -> Seq<u8> {
    seq![0x52u8, 0x49, 0x46, 0x46]  // RIFF
     + le32((36 + data_len) as u32) + seq![0x57u8, 0x41, 0x56, 0x45, 0x66, 0x6d, 0x74, 0x20]  // WAVEfmt
     + le32(16) + le16(1) + le16(1) + le32(16000) + le32(32000) + le16(2) + le16(16) + seq![
        0x64u8,
        0x61,
        0x74,
        0x61,
    ]  // data
     + le32(data_len)
}

/// The samples as little-endian 16-bit values.
pub open spec fn pcm_bytes(pcm: Seq<i16>) -> Seq<u8>
    decreases pcm.len(),
{
    if pcm.len() == 0 {
        seq![]
    } else {
        pcm_bytes(pcm.drop_last()) + le16(pcm.last() as u16)
    }
}

/// The data length that the header records: twice the sample count, kept to 32 bits.
pub open spec fn data_len_field(count: int) -> u32 {
    ((2 * count) % 0x1_0000_0000) as u32
}

fn push_le16(out: &mut Vec<u8>, v: u16)
    ensures
        final(out)@ == old(out)@ + le16(v),
{
    out.push((v % 0x100) as u8);
    out.push((v / 0x100) as u8);
    assert(final(out)@ =~= old(out)@ + le16(v));
}

fn push_le32(out: &mut Vec<u8>, v: u32)
    ensures
        final(out)@ == old(out)@ + le32(v),
{
    out.push((v % 0x100) as u8);
    out.push(((v / 0x100) % 0x100) as u8);
    out.push(((v / 0x1_0000) % 0x100) as u8);
    out.push((v / 0x100_0000) as u8);
    assert(final(out)@ =~= old(out)@ + le32(v));
}

fn push_bytes4(out: &mut Vec<u8>, a: u8, b: u8, c: u8, d: u8)
    ensures
        final(out)@ == old(out)@ + seq![a, b, c, d],
{
    out.push(a);
    out.push(b);
    out.push(c);
    out.push(d);
    assert(final(out)@ =~= old(out)@ + seq![a, b, c, d]);
}

/// The bytes of a WAV file with these 16 kHz mono samples: the header, then the samples.
pub fn wav_bytes(pcm: &[i16]) -> (r: Vec<u8>)
    requires
        2 * pcm@.len() <= usize::MAX,
        data_len_field(pcm@.len() as int) + 36 <= u32::MAX,
    ensures
        r@ == wav_header(data_len_field(pcm@.len() as int)) + pcm_bytes(pcm@),
{
    let data_len = ((pcm.len() as u64 * 2) % 0x1_0000_0000) as u32;
    let mut out: Vec<u8> = Vec::new();
    push_bytes4(&mut out, 0x52, 0x49, 0x46, 0x46);
    push_le32(&mut out, 36 + data_len);
    push_bytes4(&mut out, 0x57, 0x41, 0x56, 0x45);
    push_bytes4(&mut out, 0x66, 0x6d, 0x74, 0x20);
    push_le32(&mut out, 16);
    push_le16(&mut out, 1);
    push_le16(&mut out, 1);
    push_le32(&mut out, 16000);
    push_le32(&mut out, 32000);
    push_le16(&mut out, 2);
    push_le16(&mut out, 16);
    push_bytes4(&mut out, 0x64, 0x61, 0x74, 0x61);
    push_le32(&mut out, data_len);
    let ghost header = out@;
    assert(header =~= wav_header(data_len_field(pcm@.len() as int)));
    let mut i: usize = 0;
    assert(pcm@.take(0) =~= Seq::<i16>::empty());
    assert(header + pcm_bytes(Seq::<i16>::empty()) =~= header);
    while i < pcm.len()
        invariant
            i <= pcm@.len(),
            out@ == header + pcm_bytes(pcm@.take(i as int)),
        decreases pcm.len() - i,
    {
        push_le16(&mut out, pcm[i] as u16);
        proof {
            let t = pcm@.take(i + 1);
            assert(t.drop_last() =~= pcm@.take(i as int));
            assert(t.last() == pcm@[i as int]);
            assert(header + pcm_bytes(t) =~= header + pcm_bytes(pcm@.take(i as int)) + le16(
                pcm@[i as int] as u16,
            ));
        }
        i = i + 1;
    }
    assert(pcm@.take(i as int) =~= pcm@);
    out
}

/// The little-endian 16-bit number at byte `k`.
pub open spec fn u16_at(b: Seq<u8>, k: int) -> int {
    b[k] as int + 0x100 * b[k + 1] as int
}

/// The little-endian 32-bit number at byte `k`.
pub open spec fn u32_at(b: Seq<u8>, k: int) -> int {
    u16_at(b, k) + 0x1_0000 * u16_at(b, k + 2)
}

proof fn lemma_pcm_bytes(pcm: Seq<i16>)
    ensures
        pcm_bytes(pcm).len() == 2 * pcm.len(),
        forall|i: int|
            0 <= i < pcm.len() ==> u16_at(pcm_bytes(pcm), 2 * i) == (#[trigger] pcm[i]) as u16,
    decreases pcm.len(),
{
    if pcm.len() > 0 {
        let front = pcm.drop_last();
        lemma_pcm_bytes(front);
        let b = pcm_bytes(pcm);
        let v = pcm.last() as u16;
        assert forall|i: int| 0 <= i < pcm.len() implies u16_at(b, 2 * i) == (#[trigger] pcm[i]) as u16 by {
            if i < front.len() {
                assert(front[i] == pcm[i]);
                assert(b[2 * i] == pcm_bytes(front)[2 * i]);
                assert(b[2 * i + 1] == pcm_bytes(front)[2 * i + 1]);
            } else {
                assert(b[2 * i] == le16(v)[0]);
                assert(b[2 * i + 1] == le16(v)[1]);
            }
        }
    }
}

proof fn lemma_le32(v: u32)
    ensures
        u32_at(le32(v), 0) == v,
{
}

/// The WAV bytes describe themselves: `RIFF` with the size of what follows, a `WAVE` whose
/// `fmt ` chunk declares PCM, one channel, 16 000 samples a second and 16 bits a sample, with
/// the block size and byte rate that these give, then a `data` chunk whose length is that of
/// the samples, each sample stored as its 16-bit little-endian value.
pub proof fn wav_describes_its_samples(pcm: Seq<i16>)
    requires
        2 * pcm.len() + 36 <= u32::MAX,
    ensures
        ({
            let b = wav_header(data_len_field(pcm.len() as int)) + pcm_bytes(pcm);
            &&& b.len() == 44 + 2 * pcm.len()
            &&& b.take(4) == seq![0x52u8, 0x49, 0x46, 0x46]
            &&& u32_at(b, 4) == b.len() - 8
            &&& b.subrange(8, 16) == seq![0x57u8, 0x41, 0x56, 0x45, 0x66, 0x6d, 0x74, 0x20]
            &&& u32_at(b, 16) == 16
            &&& u16_at(b, 20) == 1
            &&& u16_at(b, 22) == 1
            &&& u32_at(b, 24) == 16000
            &&& u16_at(b, 34) == 16
            &&& u16_at(b, 32) == u16_at(b, 22) * u16_at(b, 34) / 8
            &&& u32_at(b, 28) == u32_at(b, 24) * u16_at(b, 32)
            &&& b.subrange(36, 40) == seq![0x64u8, 0x61, 0x74, 0x61]
            &&& u32_at(b, 40) == 2 * pcm.len()
            &&& forall|i: int| 0 <= i < pcm.len() ==> u16_at(b, 44 + 2 * i) == (#[trigger] pcm[i]) as u16
        }),
{
    let n = data_len_field(pcm.len() as int);
    assert(n == 2 * pcm.len());
    let h = wav_header(n);
    let p = pcm_bytes(pcm);
    let b = h + p;
    lemma_pcm_bytes(pcm);
    lemma_le32((36 + n) as u32);
    lemma_le32(n);
    assert(h.len() == 44);
    assert(u32_at(b, 4) == u32_at(le32((36 + n) as u32), 0));
    assert(u32_at(b, 40) == u32_at(le32(n), 0));
    assert(b.take(4) =~= seq![0x52u8, 0x49, 0x46, 0x46]);
    assert(b.subrange(8, 16) =~= seq![0x57u8, 0x41, 0x56, 0x45, 0x66, 0x6d, 0x74, 0x20]);
    assert(b.subrange(36, 40) =~= seq![0x64u8, 0x61, 0x74, 0x61]);
    assert forall|i: int| 0 <= i < pcm.len() implies u16_at(b, 44 + 2 * i) == (#[trigger] pcm[i]) as u16 by {
        assert(b[44 + 2 * i] == p[2 * i]);
        assert(b[44 + 2 * i + 1] == p[2 * i + 1]);
    }
}

} // verus!
