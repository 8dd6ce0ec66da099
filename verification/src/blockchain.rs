//! Blockchain-side data: service payments handed to a contract call and
//! aggregate transactions that a contract asks the host to announce.
use vstd::prelude::*;
use vstd::bytes::*;
use vstd::slice::*;

verus! {

/// A payment in some mosaic that accompanies the current contract call.
#[derive(Clone, Copy, Debug)]
pub struct ServicePayment {
    pub mosaic_id: u64,
    pub amount: u64,
}

impl Default for ServicePayment {
    fn default() -> (p: Self)
        ensures
            p.mosaic_id == 0,
            p.amount == 0,
    {
        ServicePayment { mosaic_id: 0, amount: 0 }
    }
}

/// The `k`-th 8-byte little-endian word of `bytes`.
pub open spec fn le_u64_at(bytes: Seq<u8>, k: int) -> u64 {
    spec_u64_from_le_bytes(bytes.subrange(8 * k, 8 * k + 8))
}

/// The payment stored in slot `i` of the host's payment buffer.
pub open spec fn payment_at(bytes: Seq<u8>, i: int) -> ServicePayment {
    ServicePayment { mosaic_id: le_u64_at(bytes, 2 * i), amount: le_u64_at(bytes, 2 * i + 1) }
}

/// How the host lays out a list of service payments: for each, the mosaic id
/// and then the amount, both little-endian.
pub open spec fn payments_encoding(ps: Seq<ServicePayment>) -> Seq<u8>
    decreases ps.len(),
{
    if ps.len() == 0 {
        Seq::empty()
    } else {
        payments_encoding(ps.drop_last()) + spec_u64_to_le_bytes(ps.last().mosaic_id)
            + spec_u64_to_le_bytes(ps.last().amount)
    }
}

proof fn lemma_payments_encoding_len(ps: Seq<ServicePayment>)
    ensures
        payments_encoding(ps).len() == 16 * ps.len(),
    decreases ps.len(),
{
    lemma_auto_spec_u64_to_from_le_bytes();
    if ps.len() > 0 {
        lemma_payments_encoding_len(ps.drop_last());
    }
}

/// Payments laid out by the host read back as the same payments, in the same
/// order, whatever follows them in the buffer.
pub proof fn lemma_payments_round_trip(ps: Seq<ServicePayment>, rest: Seq<u8>)
    ensures
        forall|i: int| 0 <= i < ps.len() ==> #[trigger] payment_at(payments_encoding(ps) + rest, i) == ps[i],
    decreases ps.len(),
{
    if ps.len() > 0 {
        lemma_auto_spec_u64_to_from_le_bytes();
        let init = ps.drop_last();
        let last = ps.last();
        let tail = spec_u64_to_le_bytes(last.mosaic_id) + spec_u64_to_le_bytes(last.amount) + rest;
        lemma_payments_round_trip(init, tail);
        lemma_payments_encoding_len(init);
        let bytes = payments_encoding(ps) + rest;
        assert(bytes =~= payments_encoding(init) + tail);
        assert forall|i: int| 0 <= i < ps.len() implies #[trigger] payment_at(bytes, i) == ps[i] by {
            if i < init.len() {
                assert(payment_at(payments_encoding(init) + tail, i) == init[i]);
            } else {
                let n = init.len() as int;
                assert(i == n);
                assert(bytes.subrange(16 * n, 16 * n + 8) =~= spec_u64_to_le_bytes(last.mosaic_id));
                assert(bytes.subrange(16 * n + 8, 16 * n + 16) =~= spec_u64_to_le_bytes(last.amount));
            }
        }
    }
}

/// Decodes the first `payments_num` service payments from the buffer that the
/// host filled. Slot `i` occupies bytes `16 * i .. 16 * i + 16`: the mosaic id
/// followed by the amount, both little-endian.
pub fn decode_service_payments(buffer: &[u8], payments_num: u64) -> (payments: Vec<ServicePayment>)
    requires
        payments_num * 16 <= buffer@.len(),
    ensures
        payments@.len() == payments_num,
        forall|i: int| 0 <= i < payments_num ==> #[trigger] payments@[i] == payment_at(buffer@, i),
{
    let mut payments: Vec<ServicePayment> = Vec::new();
    let mut tail: &[u8] = buffer;
    let mut k: u64 = 0;
    while k < payments_num
        invariant
            k <= payments_num,
            payments_num * 16 <= buffer@.len(),
            payments@.len() == k,
            tail@ == buffer@.subrange(16 * k, buffer@.len() as int),
            forall|i: int| 0 <= i < k ==> #[trigger] payments@[i] == payment_at(buffer@, i),
        decreases payments_num - k,
    {
        let (id_bytes, rest) = tail.split_at(8);
        let (amount_bytes, rest) = rest.split_at(8);
        let payment = ServicePayment {
            mosaic_id: u64_from_le_bytes(id_bytes),
            amount: u64_from_le_bytes(amount_bytes),
        };
        assert(id_bytes@ =~= buffer@.subrange(16 * k, 16 * k + 8));
        assert(amount_bytes@ =~= buffer@.subrange(16 * k + 8, 16 * k + 16));
        payments.push(payment);
        tail = rest;
        k = k + 1;
        assert(tail@ =~= buffer@.subrange(16 * k, buffer@.len() as int));
    }
    payments
}

/// A transaction embedded in an aggregate transaction: an entity type, a
/// version and an opaque payload.
#[derive(Clone, Debug)]
pub struct EmbeddedTransaction {
    entity_type: u16,
    version: u32,
    payload: Vec<u8>,
}

impl Default for EmbeddedTransaction {
    fn default() -> (t: Self)
        ensures
            t.entity_type() == 0,
            t.version() == 0,
            t.payload() == Seq::<u8>::empty(),
    {
        EmbeddedTransaction { entity_type: 0, version: 0, payload: Vec::new() }
    }
}

impl EmbeddedTransaction {
    pub closed spec fn entity_type(&self) -> u16 {
        self.entity_type
    }

    pub closed spec fn version(&self) -> u32 {
        self.version
    }

    pub closed spec fn payload(&self) -> Seq<u8> {
        self.payload@
    }

    pub fn get_entity_type(&self) -> (r: u16)
        ensures
            r == self.entity_type(),
    {
        self.entity_type
    }

    pub fn set_entity_type(&mut self, entity_type: u16)
        ensures
            final(self).entity_type() == entity_type,
            final(self).version() == old(self).version(),
            final(self).payload() == old(self).payload(),
    {
        self.entity_type = entity_type;
    }

    pub fn get_version(&self) -> (r: u32)
        ensures
            r == self.version(),
    {
        self.version
    }

    pub fn set_version(&mut self, version: u32)
        ensures
            final(self).version() == version,
            final(self).entity_type() == old(self).entity_type(),
            final(self).payload() == old(self).payload(),
    {
        self.version = version;
    }

    pub fn get_payload(&self) -> (r: &Vec<u8>)
        ensures
            r@ == self.payload(),
    {
        &self.payload
    }

    pub fn set_payload(&mut self, payload: Vec<u8>)
        ensures
            final(self).payload() == payload@,
            final(self).entity_type() == old(self).entity_type(),
            final(self).version() == old(self).version(),
    {
        self.payload = payload;
    }
}

/// A transaction that bundles embedded transactions under one maximum fee.
#[derive(Debug)]
pub struct AggregateTransaction {
    max_fee: u64,
    embedded_transactions: Vec<EmbeddedTransaction>,
}

impl Default for AggregateTransaction {
    fn default() -> (t: Self)
        ensures
            t.max_fee() == 0,
            t.embedded() == Seq::<EmbeddedTransaction>::empty(),
    {
        AggregateTransaction { max_fee: 0, embedded_transactions: Vec::new() }
    }
}

impl AggregateTransaction {
    pub closed spec fn max_fee(&self) -> u64 {
        self.max_fee
    }

    pub closed spec fn embedded(&self) -> Seq<EmbeddedTransaction> {
        self.embedded_transactions@
    }

    pub fn get_max_fee(&self) -> (r: u64)
        ensures
            r == self.max_fee(),
    {
        self.max_fee
    }

    pub fn set_max_fee(&mut self, max_fee: u64)
        ensures
            final(self).max_fee() == max_fee,
            final(self).embedded() == old(self).embedded(),
    {
        self.max_fee = max_fee;
    }

    pub fn get_embedded_transactions(&self) -> (r: &Vec<EmbeddedTransaction>)
        ensures
            r@ == self.embedded(),
    {
        &self.embedded_transactions
    }

    pub fn add_embedded_transaction(&mut self, new_embedded_transaction: EmbeddedTransaction)
        ensures
            final(self).embedded() == old(self).embedded().push(new_embedded_transaction),
            final(self).max_fee() == old(self).max_fee(),
    {
        self.embedded_transactions.push(new_embedded_transaction);
    }
}

/// The wire form of one embedded transaction: entity type (2 bytes), version
/// (4 bytes), payload length truncated to 16 bits (2 bytes), then the payload,
/// all integers little-endian.
pub open spec fn embedded_encoding(t: EmbeddedTransaction) -> Seq<u8> {
    spec_u16_to_le_bytes(t.entity_type()) + spec_u32_to_le_bytes(t.version())
        + spec_u16_to_le_bytes(t.payload().len() as u16) + t.payload()
}

/// The wire forms of a list of embedded transactions, one after the other.
pub open spec fn embedded_list_encoding(ts: Seq<EmbeddedTransaction>) -> Seq<u8>
    decreases ts.len(),
{
    if ts.len() == 0 {
        Seq::empty()
    } else {
        embedded_list_encoding(ts.drop_last()) + embedded_encoding(ts.last())
    }
}

/// The wire form of an aggregate transaction as the host expects it: maximum
/// fee (8 bytes), number of embedded transactions truncated to 16 bits
/// (2 bytes), then each embedded transaction in order.
pub open spec fn transaction_encoding(t: AggregateTransaction) -> Seq<u8> {
    spec_u64_to_le_bytes(t.max_fee()) + spec_u16_to_le_bytes(t.embedded().len() as u16)
        + embedded_list_encoding(t.embedded())
}

/// The fields of an embedded transaction as the host reads them back.
pub open spec fn embedded_fields(t: EmbeddedTransaction) -> (u16, u32, Seq<u8>) {
    (t.entity_type(), t.version(), t.payload())
}

/// The host's reading of `count` embedded transactions laid out one after
/// the other in `bytes`; `None` where the bytes are too short, or where bytes
/// are left over after the last one.
pub open spec fn decode_embedded_list(bytes: Seq<u8>, count: nat) -> Option<
    Seq<(u16, u32, Seq<u8>)>,
>
    decreases count,
{
    if count == 0 {
        if bytes.len() == 0 {
            Some(Seq::empty())
        } else {
            None
        }
    } else if bytes.len() < 8 {
        None
    } else {
        let entity_type = spec_u16_from_le_bytes(bytes.subrange(0, 2));
        let version = spec_u32_from_le_bytes(bytes.subrange(2, 6));
        let size = spec_u16_from_le_bytes(bytes.subrange(6, 8)) as int;
        if bytes.len() < 8 + size {
            None
        } else {
            match decode_embedded_list(bytes.subrange(8 + size, bytes.len() as int), (count - 1) as nat) {
                Some(rest) => Some(seq![(entity_type, version, bytes.subrange(8, 8 + size))] + rest),
                None => None,
            }
        }
    }
}

/// The host's reading of an aggregate transaction: the maximum fee and the
/// fields of each embedded transaction.
pub open spec fn decode_transaction(bytes: Seq<u8>) -> Option<(u64, Seq<(u16, u32, Seq<u8>)>)> {
    if bytes.len() < 10 {
        None
    } else {
        let max_fee = spec_u64_from_le_bytes(bytes.subrange(0, 8));
        let count = spec_u16_from_le_bytes(bytes.subrange(8, 10));
        match decode_embedded_list(bytes.subrange(10, bytes.len() as int), count as nat) {
            Some(list) => Some((max_fee, list)),
            None => None,
        }
    }
}

/// Whether every count and length that the wire form truncates to 16 bits
/// fits in 16 bits.
pub open spec fn fits_wire_format(t: AggregateTransaction) -> bool {
    &&& t.embedded().len() < 0x10000
    &&& forall|i: int| 0 <= i < t.embedded().len() ==> #[trigger] t.embedded()[i].payload().len() < 0x10000
}

proof fn lemma_list_encoding_front(ts: Seq<EmbeddedTransaction>)
    requires
        ts.len() > 0,
    ensures
        embedded_list_encoding(ts) == embedded_encoding(ts[0]) + embedded_list_encoding(ts.skip(1)),
    decreases ts.len(),
{
    if ts.len() == 1 {
        assert(ts.drop_last() =~= Seq::<EmbeddedTransaction>::empty());
        assert(ts.skip(1) =~= Seq::<EmbeddedTransaction>::empty());
        assert(embedded_list_encoding(ts.skip(1)) == Seq::<u8>::empty());
        assert(embedded_list_encoding(ts.drop_last()) == Seq::<u8>::empty());
        assert(embedded_list_encoding(ts) =~= embedded_encoding(ts[0]));
    } else {
        lemma_list_encoding_front(ts.drop_last());
        assert(ts.drop_last().skip(1) =~= ts.skip(1).drop_last());
        assert(ts.skip(1).last() == ts.last());
        assert(ts.drop_last()[0] == ts[0]);
        assert(embedded_list_encoding(ts) =~= embedded_encoding(ts[0]) + embedded_list_encoding(
            ts.skip(1),
        ));
    }
}

proof fn lemma_decode_embedded_list(ts: Seq<EmbeddedTransaction>)
    requires
        forall|i: int| 0 <= i < ts.len() ==> #[trigger] ts[i].payload().len() < 0x10000,
    ensures
        decode_embedded_list(embedded_list_encoding(ts), ts.len()) == Some(
            ts.map_values(|t: EmbeddedTransaction| embedded_fields(t)),
        ),
    decreases ts.len(),
{
    let fields = |t: EmbeddedTransaction| embedded_fields(t);
    if ts.len() == 0 {
        assert(ts.map_values(fields) =~= Seq::<(u16, u32, Seq<u8>)>::empty());
    } else {
        let rest = ts.skip(1);
        assert forall|i: int| 0 <= i < rest.len() implies #[trigger] rest[i].payload().len()
            < 0x10000 by {
            assert(rest[i] == ts[i + 1]);
        }
        lemma_decode_embedded_list(rest);
        lemma_list_encoding_front(ts);
        lemma_auto_spec_u16_to_from_le_bytes();
        lemma_auto_spec_u32_to_from_le_bytes();
        let t = ts[0];
        let bytes = embedded_list_encoding(ts);
        let size = t.payload().len() as int;
        assert(0 < ts.len());
        assert(size < 0x10000);
        let e = spec_u16_to_le_bytes(t.entity_type());
        let v = spec_u32_to_le_bytes(t.version());
        let l = spec_u16_to_le_bytes(size as u16);
        assert(bytes =~= e + v + l + t.payload() + embedded_list_encoding(rest));
        assert(bytes.subrange(0, 2) =~= e);
        assert(bytes.subrange(2, 6) =~= v);
        assert(bytes.subrange(6, 8) =~= l);
        assert(spec_u16_from_le_bytes(l) == size as u16);
        assert((size as u16) as int == size);
        assert(bytes.subrange(8, 8 + size) =~= t.payload());
        assert(bytes.subrange(8 + size, bytes.len() as int) =~= embedded_list_encoding(rest));
        assert(ts.map_values(fields) =~= seq![embedded_fields(t)] + rest.map_values(fields));
    }
}

/// What the host reads back from the wire form of a transaction is exactly
/// what was put into it: the maximum fee and, in order, the entity type,
/// version and payload of every embedded transaction, provided the embedded
/// count and every payload length fit in the 16 bits that the format gives
/// them.
pub proof fn lemma_transaction_round_trip(t: AggregateTransaction)
    requires
        fits_wire_format(t),
    ensures
        decode_transaction(transaction_encoding(t)) == Some(
            (t.max_fee(), t.embedded().map_values(|e: EmbeddedTransaction| embedded_fields(e))),
        ),
{
    lemma_auto_spec_u64_to_from_le_bytes();
    lemma_auto_spec_u16_to_from_le_bytes();
    lemma_decode_embedded_list(t.embedded());
    let bytes = transaction_encoding(t);
    let f = spec_u64_to_le_bytes(t.max_fee());
    let c = spec_u16_to_le_bytes(t.embedded().len() as u16);
    assert(bytes.subrange(0, 8) =~= f);
    assert(bytes.subrange(8, 10) =~= c);
    assert(bytes.subrange(10, bytes.len() as int) =~= embedded_list_encoding(t.embedded()));
    assert((t.embedded().len() as u16) as nat == t.embedded().len());
}

fn append_bytes(bytes: &mut Vec<u8>, more: Vec<u8>)
    ensures
        final(bytes)@ == old(bytes)@ + more@,
{
    let mut more = more;
    bytes.append(&mut more);
}

/// Serializes an aggregate transaction into the byte layout that the host's
/// `set_transaction` import reads.
pub fn encode_transaction(transaction: &AggregateTransaction) -> (bytes: Vec<u8>)
    ensures
        bytes@ == transaction_encoding(*transaction),
{
    let mut bytes = u64_to_le_bytes(transaction.max_fee);
    let count = transaction.embedded_transactions.len() as u16;
    append_bytes(&mut bytes, u16_to_le_bytes(count));
    let ghost header = bytes@;
    let ghost list = transaction.embedded_transactions@;
    let n = transaction.embedded_transactions.len();
    let mut i: usize = 0;
    while i < n
        invariant
            n == list.len(),
            list == transaction.embedded_transactions@,
            i <= n,
            header == spec_u64_to_le_bytes(transaction.max_fee())
                + spec_u16_to_le_bytes(list.len() as u16),
            bytes@ == header + embedded_list_encoding(list.take(i as int)),
        decreases n - i,
    {
        let value = &transaction.embedded_transactions[i];
        append_bytes(&mut bytes, u16_to_le_bytes(value.entity_type));
        append_bytes(&mut bytes, u32_to_le_bytes(value.version));
        let payload_size = value.payload.len() as u16;
        append_bytes(&mut bytes, u16_to_le_bytes(payload_size));
        bytes.extend_from_slice(value.payload.as_slice());
        proof {
            assert(list.take(i + 1).drop_last() =~= list.take(i as int));
            assert(list.take(i + 1).last() == list[i as int]);
            assert(bytes@ =~= header + embedded_list_encoding(list.take(i + 1)));
        }
        i = i + 1;
    }
    assert(list.take(n as int) =~= list);
    bytes
}

} // verus!
