use vstd::prelude::*;

verus! {

/// Size in bytes of one share.
pub const SHARE_SIZE: usize = 512;

/// Size in bytes of a namespace (one version byte and a 28-byte identifier).
pub const NS_SIZE: usize = 29;

/// Largest identifier accepted by a version-0 namespace, in bytes.
pub const NS_ID_V0_SIZE: usize = 10;

/// Size of the identifier part of a namespace.
pub const NS_ID_SIZE: usize = 28;

/// Largest share version that fits in an info byte.
pub const MAX_SHARE_VERSION: u8 = 127;

/// Payload bytes carried by the first share of a sequence.
pub const FIRST_SHARE_CAPACITY: usize = 478;

/// Payload bytes carried by every later share of a sequence.
pub const CONTINUATION_SHARE_CAPACITY: usize = 482;

/// The info byte of a share: version in the upper seven bits, sequence-start
/// flag in the lowest bit.
pub open spec fn info_byte_spec(version: u8, is_sequence_start: bool) -> u8 {
    (version * 2 + if is_sequence_start { 1int } else { 0int }) as u8
}

/// Builds an info byte; `None` when the version does not fit in seven bits.
pub fn info_byte(version: u8, is_sequence_start: bool) -> (r: Option<u8>)
    ensures
        version > MAX_SHARE_VERSION ==> r.is_none(),
        version <= MAX_SHARE_VERSION ==> r == Some(info_byte_spec(version, is_sequence_start)),
{
    if version > MAX_SHARE_VERSION {
        None
    } else {
        let start: u8 = if is_sequence_start { 1 } else { 0 };
        Some(version * 2 + start)
    }
}

/// The version-0 namespace built from an identifier: a 10-byte-or-shorter
/// identifier is right-aligned behind zeros; a 28-byte one must start with
/// 18 zero bytes.
pub open spec fn namespace_v0_spec(id: Seq<u8>) -> Option<Seq<u8>> {
    if id.len() == NS_ID_SIZE {
        if forall|i: int| 0 <= i < NS_ID_SIZE - NS_ID_V0_SIZE ==> id[i] == 0 {
            Some(seq![0u8] + id)
        } else {
            None
        }
    } else if id.len() <= NS_ID_V0_SIZE {
        Some(Seq::new((NS_SIZE - id.len()) as nat, |i: int| 0u8) + id)
    } else {
        None
    }
}

/// Builds a version-0 namespace from its identifier bytes.
pub fn namespace_v0(id: &[u8]) -> (r: Option<[u8; 29]>)
    ensures
        match namespace_v0_spec(id@) {
            Some(ns) => r.is_some() && r.unwrap()@ == ns,
            None => r.is_none(),
        },
{
    let n: usize = id.len();
    if n != NS_ID_SIZE && n > NS_ID_V0_SIZE {
        return None;
    }
    let mut bytes: [u8; 29] = [0u8; 29];
    let mut i: usize = 0;
    while i < n
        invariant
            n == id@.len(),
            n == NS_ID_SIZE || n <= NS_ID_V0_SIZE,
            0 <= i <= n,
            forall|k: int| 0 <= k < NS_SIZE - n ==> #[trigger] bytes@[k] == 0u8,
            forall|k: int| 0 <= k < i ==> #[trigger] bytes@[NS_SIZE - n + k] == id@[k],
            forall|k: int| NS_SIZE - n + i <= k < NS_SIZE ==> #[trigger] bytes@[k] == 0u8,
            n == NS_ID_SIZE ==> forall|k: int| 0 <= k < i && k < NS_ID_SIZE - NS_ID_V0_SIZE ==> #[trigger] id@[k] == 0,
        decreases n - i,
    {
        if n == NS_ID_SIZE && i < NS_ID_SIZE - NS_ID_V0_SIZE && id[i] != 0 {
            assert(!(forall|k: int| 0 <= k < NS_ID_SIZE - NS_ID_V0_SIZE ==> id@[k] == 0));
            return None;
        }
        bytes[NS_SIZE - n + i] = id[i];
        i = i + 1;
    }
    proof {
        assert forall|k: int| NS_SIZE - n <= k < NS_SIZE implies #[trigger] bytes@[k] == id@[k - (NS_SIZE - n)] by {
            assert(bytes@[NS_SIZE - n + (k - (NS_SIZE - n))] == id@[k - (NS_SIZE - n)]);
        }
        if n == NS_ID_SIZE {
            assert(bytes@ =~= seq![0u8] + id@);
        } else {
            assert(bytes@ =~= Seq::new((NS_SIZE - n) as nat, |i: int| 0u8) + id@);
        }
    }
    Some(bytes)
}

/// A read position over a byte buffer.
pub struct ByteCursor {
    pub data: Vec<u8>,
    pub position: usize,
}

impl ByteCursor {
    /// The position never passes the end of the buffer.
    pub open spec fn wf(&self) -> bool {
        self.position <= self.data@.len()
    }

    /// A cursor at the start of `data`.
    pub fn new(data: Vec<u8>) -> (r: ByteCursor)
        ensures
            r.wf(),
            r.data@ == data@,
            r.position == 0,
    {
        ByteCursor { data, position: 0 }
    }

    /// Bytes not yet read.
    pub fn remaining(&self) -> (r: usize)
        requires
            self.wf(),
        ensures
            r == self.data@.len() - self.position,
    {
        self.data.len() - self.position
    }

    /// Whether any byte is left to read.
    pub fn has_remaining(&self) -> (r: bool)
        requires
            self.wf(),
        ensures
            r == (self.position < self.data@.len()),
    {
        self.position < self.data.len()
    }
}

/// Length of the whole buffer under a cursor, read or not.
pub fn cursor_inner_length(cursor: &ByteCursor) -> (r: usize)
    ensures
        r == cursor.data@.len(),
{
    cursor.data.len()
}

/// Big-endian encoding of a 32-bit length.
pub open spec fn be32(n: u32) -> Seq<u8> {
    seq![((n >> 24u32) & 0xff) as u8, ((n >> 16u32) & 0xff) as u8, ((n >> 8u32) & 0xff) as u8, (n & 0xff) as u8]
}

/// The value of four big-endian bytes.
pub open spec fn be32_value(b: Seq<u8>) -> u32 {
    ((b[0] as u32) << 24u32) | ((b[1] as u32) << 16u32) | ((b[2] as u32) << 8u32) | (b[3] as u32)
}

/// Namespace, info byte and, on the first share, the sequence length.
pub open spec fn share_header(ns: Seq<u8>, total: u32, first: bool) -> Seq<u8> {
    if first {
        ns + seq![info_byte_spec(0, true)] + be32(total)
    } else {
        ns + seq![info_byte_spec(0, false)]
    }
}

/// The smaller of two naturals.
pub open spec fn min_nat(a: nat, b: nat) -> nat {
    if a <= b { a } else { b }
}

/// The share that starts reading `blob` at `pos`: header, as much payload as
/// fits, zero padding up to the share size.
pub open spec fn share_at(ns: Seq<u8>, blob: Seq<u8>, pos: nat) -> Seq<u8> {
    let h = share_header(ns, blob.len() as u32, pos == 0);
    let take = min_nat((SHARE_SIZE - h.len()) as nat, (blob.len() - pos) as nat);
    h + blob.subrange(pos as int, (pos + take) as int) + Seq::new((SHARE_SIZE - h.len() - take) as nat, |i: int| 0u8)
}

/// Offset in the blob of the first payload byte of share `k`.
pub open spec fn share_start(k: nat) -> nat {
    if k == 0 {
        0
    } else {
        (FIRST_SHARE_CAPACITY + CONTINUATION_SHARE_CAPACITY * (k - 1)) as nat
    }
}

/// Number of shares a blob of `len` bytes takes.
pub open spec fn share_count(len: nat) -> nat {
    if len == 0 {
        0
    } else if len <= FIRST_SHARE_CAPACITY {
        1
    } else {
        (1 + (len - FIRST_SHARE_CAPACITY + CONTINUATION_SHARE_CAPACITY - 1) / CONTINUATION_SHARE_CAPACITY as int) as nat
    }
}

/// The shares of a blob, in order.
pub open spec fn shares_spec(ns: Seq<u8>, blob: Seq<u8>) -> Seq<Seq<u8>> {
    Seq::new(share_count(blob.len()), |k: int| share_at(ns, blob, share_start(k as nat)))
}

/// The byte view of a list of shares.
pub open spec fn shares_view(shares: Seq<[u8; 512]>) -> Seq<Seq<u8>> {
    shares.map_values(|s: [u8; 512]| s@)
}

proof fn lemma_share_count(len: nat, k: nat)
    ensures
        (share_start(k) < len) == (k < share_count(len)),
{
    if k > 0 && len > FIRST_SHARE_CAPACITY {
        let a: int = len - FIRST_SHARE_CAPACITY;
        let j: int = k - 1;
        let c: int = (a + 481) / 482;
        assert((482 * j < a) == (j < c)) by (nonlinear_arith)
            requires a > 0, j >= 0, c == (a + 481) / 482;
    }
}

/// Index of the share that carries byte `i` of a blob.
pub open spec fn payload_share(i: nat) -> nat {
    if i < FIRST_SHARE_CAPACITY {
        0
    } else {
        (1 + (i - FIRST_SHARE_CAPACITY) / CONTINUATION_SHARE_CAPACITY as int) as nat
    }
}

/// Offset, inside its share, of byte `i` of a blob.
pub open spec fn payload_offset(i: nat) -> nat {
    if i < FIRST_SHARE_CAPACITY {
        (NS_SIZE + 5 + i) as nat
    } else {
        (NS_SIZE + 1 + (i - FIRST_SHARE_CAPACITY) % CONTINUATION_SHARE_CAPACITY as int) as nat
    }
}

/// Reassembles a blob from its shares: the length is read from the first
/// share's sequence-length field, each byte from the payload area that holds it.
pub open spec fn reassemble(shares: Seq<Seq<u8>>) -> Seq<u8> {
    if shares.len() == 0 {
        Seq::empty()
    } else {
        Seq::new(
            be32_value(shares[0].subrange(30, 34)) as nat,
            |i: int| shares[payload_share(i as nat) as int][payload_offset(i as nat) as int],
        )
    }
}

/// Splitting a blob into shares and reassembling it from them, with the
/// length taken from the first share's prefix, gives the blob back.
pub proof fn lemma_split_round_trip(ns: Seq<u8>, blob: Seq<u8>)
    requires
        ns.len() == NS_SIZE,
        blob.len() <= u32::MAX,
    ensures
        reassemble(shares_spec(ns, blob)) == blob,
{
    let shares = shares_spec(ns, blob);
    let len = blob.len();
    if len == 0 {
        assert(reassemble(shares) =~= blob);
    } else {
        lemma_share_count(len, 0);
        let n = len as u32;
        let s0 = shares[0];
        assert(s0 == share_at(ns, blob, 0));
        assert(s0.subrange(30, 34) =~= be32(n));
        assert(be32_value(be32(n)) == n) by (bit_vector);
        assert forall|i: int| 0 <= i < len implies
            #[trigger] shares[payload_share(i as nat) as int][payload_offset(i as nat) as int] == blob[i] by {
            let k = payload_share(i as nat);
            if i >= FIRST_SHARE_CAPACITY {
                let d = i - FIRST_SHARE_CAPACITY;
                vstd::arithmetic::div_mod::lemma_fundamental_div_mod(d, 482);
                assert(share_start(k) + d % 482 == i);
            }
            lemma_share_count(len, k);
        }
        assert(reassemble(shares) =~= blob);
    }
}

/// Builds the next share from the cursor's position and advances the cursor
/// past the payload it took.
pub fn build_sparse_share_v0(namespace: &[u8; 29], data: &mut ByteCursor) -> (share: [u8; 512])
    requires
        old(data).wf(),
        old(data).data@.len() <= u32::MAX,
    ensures
        final(data).wf(),
        final(data).data@ == old(data).data@,
        share@ == share_at(namespace@, old(data).data@, old(data).position as nat),
        final(data).position == min_nat(
            (old(data).position + if old(data).position == 0 { FIRST_SHARE_CAPACITY } else { CONTINUATION_SHARE_CAPACITY }) as nat,
            old(data).data@.len(),
        ),
{
    let is_first_share: bool = data.position == 0;
    let data_len: usize = cursor_inner_length(data);
    let mut share: [u8; 512] = [0u8; 512];
    let mut i: usize = 0;
    while i < NS_SIZE
        invariant
            0 <= i <= NS_SIZE,
            forall|k: int| 0 <= k < i ==> #[trigger] share@[k] == namespace@[k],
            forall|k: int| i <= k < SHARE_SIZE ==> #[trigger] share@[k] == 0u8,
        decreases NS_SIZE - i,
    {
        share[i] = namespace[i];
        i = i + 1;
    }
    let info: u8 = match info_byte(0, is_first_share) {
        Some(b) => b,
        None => 0,
    };
    share[NS_SIZE] = info;
    let mut cur: usize = NS_SIZE + 1;
    if is_first_share {
        let n: u32 = data_len as u32;
        share[30] = ((n >> 24u32) & 0xff) as u8;
        share[31] = ((n >> 16u32) & 0xff) as u8;
        share[32] = ((n >> 8u32) & 0xff) as u8;
        share[33] = (n & 0xff) as u8;
        cur = 34;
    }
    let ghost h = share_header(namespace@, data.data@.len() as u32, is_first_share);
    assert(share@.subrange(0, cur as int) =~= h);
    let available: usize = SHARE_SIZE - cur;
    let rem: usize = data.remaining();
    let read_amount: usize = if available < rem { available } else { rem };
    let start: usize = data.position;
    let mut j: usize = 0;
    while j < read_amount
        invariant
            data.wf(),
            data.position == start,
            start + read_amount <= data.data@.len(),
            data.data@.len() <= u32::MAX,
            cur + read_amount <= SHARE_SIZE,
            0 <= j <= read_amount,
            share@.subrange(0, cur as int) == h,
            forall|k: int| 0 <= k < j ==> #[trigger] share@[cur + k] == data.data@[start + k],
            forall|k: int| cur + j <= k < SHARE_SIZE ==> #[trigger] share@[k] == 0u8,
        decreases read_amount - j,
    {
        share[cur + j] = data.data[start + j];
        assert(share@.subrange(0, cur as int) =~= h);
        j = j + 1;
    }
    data.position = start + read_amount;
    proof {
        let blob = data.data@;
        assert(h.len() == cur);
        assert(read_amount == min_nat((SHARE_SIZE - h.len()) as nat, (blob.len() - start) as nat));
        let tail = Seq::new((SHARE_SIZE - h.len() - read_amount) as nat, |i: int| 0u8);
        let mid = blob.subrange(start as int, (start + read_amount) as int);
        assert(share@ =~= h + mid + tail) by {
            assert forall|k: int| 0 <= k < SHARE_SIZE implies #[trigger] share@[k] == (h + mid + tail)[k] by {
                if k < cur {
                    assert(share@[k] == share@.subrange(0, cur as int)[k]);
                } else if k < cur + read_amount {
                    assert(share@[cur + (k - cur)] == blob[start + (k - cur)]);
                }
            }
        }
    }
    share
}

/// Splits a blob into its shares: the first carries the blob's length, each
/// is padded with zeros to the share size. An empty blob has no share.
pub fn split_blob_to_shares(namespace: &[u8; 29], blob_data: &[u8]) -> (shares: Vec<[u8; 512]>)
    requires
        blob_data@.len() <= u32::MAX,
    ensures
        shares_view(shares@) == shares_spec(namespace@, blob_data@),
{
    let mut shares: Vec<[u8; 512]> = Vec::new();
    let mut cursor = ByteCursor::new(vstd::slice::slice_to_vec(blob_data));
    let ghost len = blob_data@.len();
    while cursor.has_remaining()
        invariant
            cursor.wf(),
            cursor.data@ == blob_data@,
            len == blob_data@.len(),
            len <= u32::MAX,
            cursor.position == min_nat(share_start(shares@.len()), len),
            shares@.len() <= share_count(len),
            forall|k: int| 0 <= k < shares@.len() ==> #[trigger] shares@[k]@ == share_at(namespace@, blob_data@, share_start(k as nat)),
        decreases len - cursor.position,
    {
        let ghost k = shares@.len();
        proof {
            lemma_share_count(len, k);
        }
        let share = build_sparse_share_v0(namespace, &mut cursor);
        shares.push(share);
        proof {
            lemma_share_count(len, k + 1);
        }
    }
    proof {
        lemma_share_count(len, shares@.len());
    }
    assert(shares_view(shares@) =~= shares_spec(namespace@, blob_data@));
    shares
}

} // verus!
