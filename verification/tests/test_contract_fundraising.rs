use sdk::blockchain::{decode_service_payments, encode_transaction, AggregateTransaction, EmbeddedTransaction, ServicePayment};

/// The host of a fundraising contract call: two payments of 500 in mosaic 1,
/// block time 2500, and the transaction it expects to be announced.
struct Host {
    entity_type: u16,
    version: u32,
    payload: Vec<u8>,
    max_fee: u64,
    embedded_size: u16,
}

impl Host {
    fn get_service_payments(&self, out: &mut [u8]) -> u64 {
        let mut buffer: Vec<u8> = Vec::new();
        let byte_id = 1u64.to_le_bytes();
        let byte_amount = 500u64.to_le_bytes();
        buffer.extend_from_slice(&byte_id);
        buffer.extend_from_slice(&byte_amount);
        buffer.extend_from_slice(&byte_id);
        buffer.extend_from_slice(&byte_amount);
        out[..buffer.len()].copy_from_slice(&buffer);
        2
    }

    fn buffer_size(&self) -> u64 {
        32
    }

    fn get_block_time(&self) -> u64 {
        2500
    }

    fn get_contract_public_key(&self) -> [u8; 32] {
        [0u8; 32]
    }

    fn set_transaction(&self, buffer: &Vec<u8>) {
        let read16 = |o: usize| u16::from_le_bytes(buffer[o..o + 2].try_into().unwrap());
        let read32 = |o: usize| u32::from_le_bytes(buffer[o..o + 4].try_into().unwrap());
        let read64 = |o: usize| u64::from_le_bytes(buffer[o..o + 8].try_into().unwrap());
        let mut offset = 0;
        assert_eq!(self.max_fee, read64(offset));
        offset += 8;
        let n = read16(offset);
        assert_eq!(self.embedded_size, n);
        offset += 2;
        for _ in 0..n {
            assert_eq!(self.entity_type, read16(offset));
            offset += 2;
            assert_eq!(self.version, read32(offset));
            offset += 4;
            let payload_size = read16(offset) as usize;
            assert_eq!(self.payload.len(), payload_size);
            offset += 2;
            assert_eq!(&self.payload[..], &buffer[offset..offset + payload_size]);
            offset += payload_size;
        }
    }

    fn service_payments(&self) -> Vec<ServicePayment> {
        let mut buffer = vec![0u8; self.buffer_size() as usize];
        let n = self.get_service_payments(&mut buffer);
        decode_service_payments(&buffer, n)
    }
}

/// The mosaic transfer as the contract serializes it: id, then amount.
fn mosaic_bytes(mosaic_id: u64, amount: u64) -> Vec<u8> {
    let mut bytes = mosaic_id.to_le_bytes().to_vec();
    bytes.extend_from_slice(&amount.to_le_bytes());
    bytes
}

fn transfer(receiver: [u8; 32], mosaic_id: u64, amount: u64) -> AggregateTransaction {
    let mut emb = EmbeddedTransaction::default();
    emb.set_entity_type(0x4154);
    emb.set_version(3);
    let mut payload: Vec<u8> = Vec::new();
    payload.extend_from_slice(&receiver);
    payload.extend_from_slice(&1u64.to_le_bytes());
    payload.extend_from_slice(&0u64.to_le_bytes());
    payload.extend_from_slice(&mosaic_bytes(mosaic_id, amount));
    emb.set_payload(payload);
    let mut agg = AggregateTransaction::default();
    agg.set_max_fee(10);
    agg.add_embedded_transaction(emb);
    agg
}

struct Fund {
    due_date: u64,
    goal: u64,
    amount: u64,
}

impl Fund {
    fn pay(&mut self, host: &Host, amount: u64) {
        self.amount = self.amount + amount;
        let agg = transfer(host.get_contract_public_key(), 1, amount);
        host.set_transaction(&encode_transaction(&agg));
    }

    fn check_fund(&self, host: &Host) -> i32 {
        let assets = host.service_payments();
        let mut total_amount = 0;
        for item in assets {
            total_amount += item.amount;
        }
        assert_eq!(total_amount, 1000);
        if total_amount >= self.goal && host.get_block_time() <= self.due_date {
            let agg = transfer([0u8; 32], 1, self.amount);
            assert_eq!(64, agg.get_embedded_transactions()[0].get_payload().len());
            host.set_transaction(&encode_transaction(&agg));
            1
        } else {
            0
        }
    }
}

#[test]
fn test_fund() {
    let mut payload: Vec<u8> = Vec::new();
    payload.extend_from_slice(&[0u8; 32]);
    payload.extend_from_slice(&1u64.to_le_bytes());
    payload.extend_from_slice(&0u64.to_le_bytes());
    payload.extend_from_slice(&mosaic_bytes(1, 1000));
    let host = Host { entity_type: 0x4154, version: 3, payload, max_fee: 10, embedded_size: 1 };
    let mut fund = Fund { due_date: 0, goal: 0, amount: 0 };

    fund.due_date = 2500;
    fund.goal = 1000;
    fund.pay(&host, 1000);

    let result = fund.check_fund(&host);

    assert_eq!(1, result);
}
