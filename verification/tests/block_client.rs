use reconnaissance::block_client::{
    to_low_u64_be, BlockBody, BlockClient, ChainInfo, Cycler, FetcherReq, LookupError,
    ProviderError, RpcBlock, Word256, CHAIN_INFO_READ_CODE,
};

fn client() -> BlockClient<&'static str, ()> {
    BlockClient::new(Cycler::new(vec!["first", "second"]), ())
}

fn word(v: u64) -> Word256 {
    Word256 { limbs: [v, 0, 0, 0] }
}

fn full_block() -> RpcBlock {
    RpcBlock {
        hash: Some([1; 32]),
        parent_hash: [2; 32],
        uncles_hash: [3; 32],
        author: Some([4; 20]),
        state_root: [5; 32],
        transactions_root: [6; 32],
        receipts_root: [7; 32],
        number: Some(17_000_000),
        gas_used: word(21_000),
        gas_limit: word(30_000_000),
        extra_data: vec![0xde, 0xad],
        logs_bloom: Some([8; 256]),
        timestamp: word(1_680_000_000),
        difficulty: Word256 { limbs: [9, 1, 0, 0] },
        mix_hash: Some([10; 32]),
        nonce: Some([0, 0, 0, 0, 0, 0, 0x01, 0x02]),
        base_fee_per_gas: Some(word(7)),
    }
}

const UNAVAILABLE: LookupError = LookupError::Provider(ProviderError::BlockNumber(0));

#[test]
fn next_provider_rotates() {
    let mut c = client();
    assert_eq!(*c.next_provider(), "first");
    assert_eq!(*c.next_provider(), "second");
    assert_eq!(*c.next_provider(), "first");
    assert_eq!(*c.fetcher(), ());
}

#[test]
fn word_fits_and_converts() {
    assert!(word(5).fits_word());
    assert_eq!(word(5).as_u64(), 5);
    assert!(!Word256 { limbs: [0, 0, 1, 0] }.fits_word());
    assert!(!Word256 { limbs: [0, 0, 0, 1] }.fits_word());
    let w = Word256::from_u128((3u128 << 64) + 11);
    assert_eq!(w.limbs, [11, 3, 0, 0]);
}

#[test]
fn nonce_bytes_read_big_endian() {
    assert_eq!(to_low_u64_be(&[0, 0, 0, 0, 0, 0, 1, 2]), 0x0102);
    assert_eq!(to_low_u64_be(&[0xff; 8]), u64::MAX);
    assert_eq!(to_low_u64_be(&[1, 0, 0, 0, 0, 0, 0, 0]), 1u64 << 56);
}

#[test]
fn build_header_copies_every_field() {
    let b = full_block();
    assert!(b.is_header_complete());
    let h = client().build_header(b.clone()).unwrap();
    assert_eq!(h.parent_hash, [2; 32]);
    assert_eq!(h.ommers_hash, [3; 32]);
    assert_eq!(h.beneficiary, [4; 20]);
    assert_eq!(h.state_root, [5; 32]);
    assert_eq!(h.transactions_root, [6; 32]);
    assert_eq!(h.receipts_root, [7; 32]);
    assert_eq!(h.logs_bloom, [8; 256]);
    assert_eq!(h.difficulty, Word256 { limbs: [9, 1, 0, 0] });
    assert_eq!(h.number, 17_000_000);
    assert_eq!(h.gas_limit, 30_000_000);
    assert_eq!(h.gas_used, 21_000);
    assert_eq!(h.timestamp, 1_680_000_000);
    assert_eq!(h.mix_hash, [10; 32]);
    assert_eq!(h.nonce, 0x0102);
    assert_eq!(h.base_fee_per_gas, Some(7));
    assert_eq!(h.extra_data, vec![0xde, 0xad]);
}

#[test]
fn build_header_without_base_fee() {
    let mut b = full_block();
    b.base_fee_per_gas = None;
    assert_eq!(client().build_header(b).unwrap().base_fee_per_gas, None);
}

#[test]
fn incomplete_blocks_are_recognised() {
    let mut b = full_block();
    b.author = None;
    assert!(!b.is_header_complete());
    let mut b = full_block();
    b.gas_limit = Word256 { limbs: [0, 1, 0, 0] };
    assert!(!b.is_header_complete());
    let mut b = full_block();
    b.base_fee_per_gas = Some(Word256 { limbs: [0, 0, 0, 1] });
    assert!(!b.is_header_complete());
}

#[test]
fn get_block_reports_failure_as_unavailable() {
    let c = client();
    assert_eq!(c.get_block(Err(())), Err(UNAVAILABLE));
    assert_eq!(c.get_block(Ok(None)), Ok(None));
    assert_eq!(c.get_block(Ok(Some(full_block()))), Ok(Some(full_block())));
}

#[test]
fn block_hash_outcomes() {
    let c = client();
    assert_eq!(c.block_hash(word(12), Ok(Some(full_block()))), Ok(Some([1; 32])));
    assert_eq!(c.block_hash(word(12), Ok(None)), Ok(None));
    assert_eq!(
        c.block_hash(word(12), Err(())),
        Err(LookupError::Provider(ProviderError::BlockNumber(12)))
    );
}

#[test]
fn chain_info_from_three_blocks() {
    let c = client();
    let mut fin = full_block();
    fin.number = Some(16_999_900);
    let mut safe = full_block();
    safe.number = None;
    assert_eq!(
        c.chain_info(Ok(Some(full_block())), Ok(Some(fin)), Ok(Some(safe))),
        Ok(ChainInfo {
            best_hash: [1; 32],
            best_number: 17_000_000,
            last_finalized: Some(16_999_900),
            safe_finalized: None,
        })
    );
}

#[test]
fn chain_info_needs_all_three_blocks() {
    let c = client();
    let read = Err(LookupError::DatabaseRead(CHAIN_INFO_READ_CODE));
    assert_eq!(CHAIN_INFO_READ_CODE, 69);
    assert_eq!(c.chain_info(Err(()), Ok(Some(full_block())), Ok(Some(full_block()))), read);
    assert_eq!(c.chain_info(Ok(Some(full_block())), Ok(None), Ok(Some(full_block()))), read);
    assert_eq!(c.chain_info(Ok(Some(full_block())), Ok(Some(full_block())), Err(())), read);
}

#[test]
fn block_body_request_names_the_block_hash() {
    let c = client();
    match c.block_body_request(Ok(Some(full_block())), 7u8) {
        Ok((b, FetcherReq::BlockBodyReq((to, hashes)))) => {
            assert_eq!(b, full_block());
            assert_eq!(to, 7);
            assert_eq!(hashes, vec![[1; 32]]);
        }
        Err(e) => panic!("unexpected {:?}", e),
    }
    assert!(matches!(c.block_body_request(Ok(None), 7u8), Err(UNAVAILABLE)));
    assert!(matches!(c.block_body_request(Err(()), 7u8), Err(UNAVAILABLE)));
}

#[test]
fn assemble_block_takes_the_first_body() {
    let c = client();
    let ommer = c.build_header(full_block()).unwrap();
    let bodies = vec![
        BlockBody { transactions: vec![1u32, 2], ommers: vec![ommer.clone()] },
        BlockBody { transactions: vec![3u32], ommers: vec![] },
    ];
    let blk = c.assemble_block(full_block(), Ok(bodies)).unwrap().unwrap();
    assert_eq!(blk.body, vec![1, 2]);
    assert_eq!(blk.ommers, vec![ommer.clone()]);
    assert_eq!(blk.header, ommer);
}

#[test]
fn assemble_block_without_bodies_is_unavailable() {
    let c = client();
    assert_eq!(c.assemble_block::<u32>(full_block(), Ok(vec![])), Err(UNAVAILABLE));
    assert_eq!(c.assemble_block::<u32>(full_block(), Err(())), Err(UNAVAILABLE));
}

#[test]
fn block_number_outcomes() {
    let c = client();
    assert_eq!(c.block_number([9; 32], Ok(Some(full_block()))), Ok(Some(17_000_000)));
    assert_eq!(c.block_number([9; 32], Ok(None)), Ok(None));
    assert_eq!(
        c.block_number([9; 32], Err(())),
        Err(LookupError::Provider(ProviderError::BlockHash([9; 32])))
    );
}

#[test]
fn header_outcomes() {
    let c = client();
    let h = c.header(Ok(Some(full_block()))).unwrap().unwrap();
    assert_eq!(h, c.build_header(full_block()).unwrap());
    assert_eq!(c.header(Ok(None)), Err(UNAVAILABLE));
    assert_eq!(c.header(Err(())), Err(UNAVAILABLE));
}

#[test]
fn header_td_outcomes() {
    let c = client();
    assert_eq!(
        c.header_td([9; 32], Ok(Some(full_block()))),
        Ok(Some(Word256 { limbs: [9, 1, 0, 0] }))
    );
    assert_eq!(
        c.header_td([9; 32], Ok(None)),
        Err(LookupError::Provider(ProviderError::BlockHash([9; 32])))
    );
    assert_eq!(c.header_td([9; 32], Err(())), Err(UNAVAILABLE));
}
