//! The receipt chain: its log, its checks, its cache and its reconciliation.
use std::collections::BTreeMap;

use fused_runtime::cost::CostTuple;
use fused_runtime::encoding::{decode_payload, nonce_of, payload_segment, run_nonce, PayloadFault};
use fused_runtime::ids::{ReceiptId, SessionId, Sha256Digest, TokenId, UnixTsMillis};
use fused_runtime::receipt_cache::{
    FileStamp, LoadedReceiptChain, ReceiptCacheStats, VerifiedReceiptCache,
};
use fused_runtime::receipts::{
    chain_tail, parse_receipt_lines, receipt_lines, receipt_payload, verify_persisted_chain,
    verify_persisted_chain_range, verify_persisted_chain_with_jwks, PersistedReceipt, ReceiptBody,
    ReceiptChainError,
};
use fused_runtime::reconcile::{
    reconcile_receipts, truncate_orphan_suffix, OwnedRecovery, ReconciliationAction,
    ReconciliationError, ReconciliationStrategy, SweepScope, UndecidableReason, CANCELLED_VERB,
};
use fused_runtime::session::SessionEntry;
use fused_runtime::text::{begins_with, blank, decimal, read_lines, torn};

/// Signs bodies under the name of a key, and reads back only what that key
/// signed.
struct Signer {
    key: &'static str,
    signed: BTreeMap<String, ReceiptBody>,
    next: u128,
}

impl Signer {
    fn new(key: &'static str) -> Signer {
        Signer {
            key,
            signed: BTreeMap::new(),
            next: 0,
        }
    }

    fn sign(&mut self, body: ReceiptBody) -> String {
        let nonce = nonce_of(&body.receipt_id.0.to_be_bytes());
        let jws = format!("header.{nonce}.{}", self.key);
        self.signed.insert(jws.clone(), body);
        jws
    }

    fn authenticate(&self, chain: &Vec<PersistedReceipt>) -> Vec<Option<ReceiptBody>> {
        chain
            .iter()
            .map(|receipt| self.signed.get(&receipt.jws_compact).cloned())
            .collect()
    }

    fn sample_body(&mut self, parent_hash: Option<Sha256Digest>) -> ReceiptBody {
        self.next += 1;
        ReceiptBody {
            receipt_id: ReceiptId(self.next),
            parent_hash,
            verb: "cost.admission.allow.v1".to_string(),
            issued_at: UnixTsMillis(1_700_000_000_000),
            subject: "spiffe://ardur/test".to_string(),
            cap_token_id: TokenId(0x355),
            payload_digest: Sha256Digest::of(b"payload"),
            session_id: None,
            cost: CostTuple::zero(),
            tool_calls: Vec::new(),
            provider: Some("test-provider".to_string()),
        }
    }

    fn receipt(&mut self, parent_hash: Option<Sha256Digest>) -> PersistedReceipt {
        let body = self.sample_body(parent_hash);
        let jws_compact = self.sign(body.clone());
        PersistedReceipt { jws_compact, body }
    }

    fn extend(&mut self, chain: &mut Vec<PersistedReceipt>) {
        let parent = chain_tail(chain);
        let receipt = self.receipt(parent);
        chain.push(receipt);
    }

    fn sign_chain(&mut self, n: usize) -> Vec<PersistedReceipt> {
        let mut chain = Vec::new();
        for _ in 0..n {
            self.extend(&mut chain);
        }
        chain
    }
}

fn copy(chain: &Vec<PersistedReceipt>) -> Vec<PersistedReceipt> {
    chain
        .iter()
        .map(|receipt| PersistedReceipt {
            jws_compact: receipt.jws_compact.clone(),
            body: receipt.body.clone(),
        })
        .collect()
}

fn stamp(chain: &Vec<PersistedReceipt>, modified: i128) -> Option<FileStamp> {
    let len: usize = chain.iter().map(|receipt| receipt.jws_compact.len() + 1).sum();
    Some(FileStamp {
        len: len as u64,
        modified: Some(modified),
    })
}

fn load(
    cache: &mut VerifiedReceiptCache,
    signer: &Signer,
    chain: &Vec<PersistedReceipt>,
    stamp: Option<FileStamp>,
) -> LoadedReceiptChain {
    if let Some(hit) = cache.try_hit("chain.jsonl", stamp) {
        return hit;
    }
    let signed = signer.authenticate(chain);
    cache.load("chain.jsonl", stamp, copy(chain), &signed)
}

#[test]
fn unchanged_file_is_a_hit_and_does_not_reverify() {
    let mut key = Signer::new("key");
    let chain = key.sign_chain(3);
    let mut cache = VerifiedReceiptCache::new();
    let first = load(&mut cache, &key, &chain, stamp(&chain, 1));
    assert!(first.verified());
    assert_eq!(first.len(), 3);
    assert_eq!(
        cache.stats(),
        ReceiptCacheStats {
            hits: 0,
            receipts_fully_verified: 3,
            receipts_tail_verified: 0,
        }
    );

    let second = load(&mut cache, &key, &chain, stamp(&chain, 1));
    assert!(second.verified());
    assert_eq!(second.len(), 3);
    assert_eq!(
        cache.stats(),
        ReceiptCacheStats {
            hits: 1,
            receipts_fully_verified: 3,
            receipts_tail_verified: 0,
        },
        "a second load of an unchanged chain must not re-run ES256"
    );
}

#[test]
fn append_verifies_only_the_tail() {
    let mut key = Signer::new("key");
    let mut chain = key.sign_chain(2);
    let mut cache = VerifiedReceiptCache::new();
    load(&mut cache, &key, &chain, stamp(&chain, 1));
    assert_eq!(cache.stats().receipts_fully_verified, 2);

    key.extend(&mut chain);
    let loaded = load(&mut cache, &key, &chain, stamp(&chain, 2));
    assert!(loaded.verified());
    assert_eq!(loaded.len(), 3);
    assert_eq!(
        cache.stats(),
        ReceiptCacheStats {
            hits: 0,
            receipts_fully_verified: 2,
            receipts_tail_verified: 1,
        },
        "growth of an append-only log must authenticate only the new receipt"
    );
}

#[test]
fn rewritten_prefix_forces_a_full_reverify() {
    let mut key = Signer::new("key");
    let chain = key.sign_chain(2);
    let mut cache = VerifiedReceiptCache::new();
    load(&mut cache, &key, &chain, stamp(&chain, 1));

    let rewritten = key.sign_chain(3);
    let loaded = load(&mut cache, &key, &rewritten, stamp(&rewritten, 2));
    assert!(loaded.verified());
    assert_eq!(
        cache.stats(),
        ReceiptCacheStats {
            hits: 0,
            receipts_fully_verified: 5,
            receipts_tail_verified: 0,
        },
        "a rewritten prefix must not be trusted as an incremental tail"
    );
}

#[test]
fn tampered_tail_is_not_verified_and_is_not_a_hit() {
    let mut key = Signer::new("key");
    let mut chain = key.sign_chain(1);
    let mut cache = VerifiedReceiptCache::new();
    assert!(load(&mut cache, &key, &chain, stamp(&chain, 1)).verified());

    let mut other = Signer::new("other");
    other.next = 50;
    other.extend(&mut chain);
    let loaded = load(&mut cache, &key, &chain, stamp(&chain, 2));
    assert!(!loaded.verified(), "a forged tail must fail verification");
    assert_eq!(loaded.len(), 2, "aggregates still see the loaded lines");
    assert!(loaded.verify_error().is_some());
    assert_eq!(cache.stats().hits, 0);
}

#[test]
fn missing_file_is_an_empty_verified_chain() {
    let key = Signer::new("key");
    let mut cache = VerifiedReceiptCache::default();
    let none = Vec::new();
    let first = load(&mut cache, &key, &none, None);
    assert!(first.verified());
    assert!(first.is_empty());

    let second = load(&mut cache, &key, &none, None);
    assert!(second.verified());
    assert_eq!(cache.stats().hits, 1);
}

#[test]
fn persisted_chain_requires_valid_es256_signatures() {
    let mut key = Signer::new("key");
    let mut chain = key.sign_chain(1);
    let signed = key.authenticate(&chain);
    verify_persisted_chain_with_jwks(&chain, &signed).expect("valid persisted receipt verifies");

    let forged = chain[0].jws_compact.replace(".key", ".Key");
    chain[0].jws_compact = forged;
    let signed = key.authenticate(&chain);
    assert!(verify_persisted_chain(&chain).is_ok());
    assert!(
        verify_persisted_chain_with_jwks(&chain, &signed).is_err(),
        "hash-link validity alone must not authenticate a forged signature"
    );
}

#[test]
fn a_broken_link_and_a_changed_body_are_told_apart() {
    let mut key = Signer::new("key");
    let mut chain = key.sign_chain(3);
    let signed = key.authenticate(&chain);
    assert_eq!(verify_persisted_chain_with_jwks(&chain, &signed), Ok(()));

    chain[1].body.verb = "cost.admission.deny.v1".to_string();
    assert_eq!(
        verify_persisted_chain_with_jwks(&chain, &signed),
        Err(ReceiptChainError::BodyMismatch { at: 1 })
    );
    chain[1].body.parent_hash = None;
    assert_eq!(
        verify_persisted_chain(&chain),
        Err(ReceiptChainError::BrokenChain { at: 1 })
    );
    let mut unsigned = key.authenticate(&chain);
    unsigned[0] = None;
    assert_eq!(
        verify_persisted_chain_with_jwks(&chain, &unsigned),
        Err(ReceiptChainError::InvalidSignature { at: 0 })
    );
}

#[test]
fn checking_the_tail_is_enough_behind_a_checked_prefix() {
    let mut key = Signer::new("key");
    let chain = key.sign_chain(3);
    let mut signed = key.authenticate(&chain);
    signed[0] = None;
    assert_eq!(verify_persisted_chain_range(&chain, &signed, 1), Ok(()));
    assert_eq!(
        verify_persisted_chain_range(&chain, &signed, 0),
        Err(ReceiptChainError::InvalidSignature { at: 0 })
    );
}

#[test]
fn a_prefix_of_a_linked_chain_is_linked() {
    let mut key = Signer::new("key");
    let mut chain = key.sign_chain(4);
    while !chain.is_empty() {
        assert_eq!(verify_persisted_chain(&chain), Ok(()));
        chain.pop();
    }
}

fn log_of(chain: &Vec<PersistedReceipt>) -> String {
    chain
        .iter()
        .map(|receipt| format!("{}\n", receipt.jws_compact))
        .collect()
}

#[test]
fn an_appended_receipt_is_read_back() {
    let mut key = Signer::new("key");
    let chain = key.sign_chain(3);
    let log = log_of(&chain);
    let lines = receipt_lines(log.as_bytes()).unwrap();
    assert_eq!(lines.len(), 3);
    let decoded: Vec<Option<ReceiptBody>> = lines
        .iter()
        .map(|line| key.signed.get(&line.text).cloned())
        .collect();
    let read = parse_receipt_lines(&lines, &decoded).unwrap();
    assert!(read.torn_at.is_none());
    assert_eq!(read.receipts.len(), 3);
    for (read, written) in read.receipts.iter().zip(chain.iter()) {
        assert_eq!(read.jws_compact, written.jws_compact);
        assert!(read.body.same(&written.body));
    }
}

#[test]
fn a_torn_last_line_is_left_out_and_an_inner_one_is_malformed() {
    let mut key = Signer::new("key");
    let chain = key.sign_chain(2);
    let mut log = log_of(&chain);
    let end = log.len();
    log.push_str("header.partial");
    let lines = receipt_lines(log.as_bytes()).unwrap();
    let decoded: Vec<Option<ReceiptBody>> = lines
        .iter()
        .map(|line| key.signed.get(&line.text).cloned())
        .collect();
    let read = parse_receipt_lines(&lines, &decoded).unwrap();
    assert_eq!(read.receipts.len(), 2);
    assert_eq!(read.torn_at, Some(end));
    let cut = receipt_lines(&log.as_bytes()[..end]).unwrap();
    let kept: Vec<Option<ReceiptBody>> = cut
        .iter()
        .map(|line| key.signed.get(&line.text).cloned())
        .collect();
    let again = parse_receipt_lines(&cut, &kept).unwrap();
    assert_eq!(again.torn_at, None);
    assert_eq!(again.receipts.len(), 2);
    for (before, after) in read.receipts.iter().zip(again.receipts.iter()) {
        assert_eq!(before.jws_compact, after.jws_compact);
    }

    let lines = receipt_lines(b"garbage\n").unwrap();
    assert!(matches!(
        parse_receipt_lines(&lines, &vec![None]),
        Err(ReceiptChainError::Malformed)
    ));
    assert!(matches!(
        receipt_lines(&[0xff, 0x0a]),
        Err(ReceiptChainError::Io | ReceiptChainError::Malformed)
    ));
}

#[test]
fn the_payload_of_a_receipt_is_its_middle_segment() {
    assert_eq!(payload_segment("a.YWJj"), None);
    assert_eq!(payload_segment("a.YWJj."), Some("YWJj"));
    assert_eq!(payload_segment("a.YWJj.c.d"), None);
    assert_eq!(decode_payload("e30.YWJj"), Err(PayloadFault::NotSegmented));
    assert!(receipt_payload("e30.YWJj").is_err());
    assert_eq!(payload_segment("a.YWJj.c"), Some("YWJj"));
    assert_eq!(decode_payload("a.YWJj.c"), Ok(b"abc".to_vec()));
    assert_eq!(decode_payload("a.-_8.c"), Ok(vec![0xfb, 0xff]));
    assert_eq!(decode_payload("abc"), Err(PayloadFault::NotSegmented));
    assert_eq!(decode_payload("a.!!!.c"), Err(PayloadFault::NotBase64));
    assert_eq!(receipt_payload("a.YWJj.c").unwrap(), b"abc".to_vec());
    assert!(receipt_payload("abc").is_err());
}

#[test]
fn a_nonce_is_base64url_without_padding() {
    assert_eq!(nonce_of(&[0u8; 16]), "AAAAAAAAAAAAAAAAAAAAAA");
    assert_eq!(nonce_of(&[0xff; 16]), "_____________________w");
    let nonce = run_nonce();
    assert_eq!(nonce.len(), 22);
    assert_ne!(nonce, run_nonce());
    let bytes = decode_payload(&format!("x.{nonce}.y")).unwrap();
    assert_eq!(bytes.len(), 16);
    assert_eq!(bytes[6] / 16, 4);
    assert_eq!(bytes[8] / 64, 2);
}

#[test]
fn digests_are_those_of_sha256() {
    let digest = Sha256Digest::of(b"abc");
    assert_eq!(digest.hi, 0xba7816bf8f01cfea414140de5dae2223);
    assert_eq!(digest.lo, 0xb00361a396177a9cb410ff61f20015ad);
    assert_eq!(Sha256Digest::of_text("abc"), digest);
    assert_eq!(
        digest.to_hex(),
        "ba7816bf8f01cfea414140de5dae2223b00361a396177a9cb410ff61f20015ad"
    );
}

#[test]
fn lines_are_read_back_as_they_were_written() {
    assert_eq!(
        read_lines("one\ntwo\r\n\nlast".as_bytes()),
        Some(vec![
            "one".to_string(),
            "two".to_string(),
            "last".to_string()
        ])
    );
    assert_eq!(read_lines(b""), Some(Vec::new()));
    assert_eq!(read_lines(&[b'a', 0xff, b'\n']), None);
    assert!(torn(b"a\nb"));
    assert!(!torn(b"a\nb\n"));
    assert!(!torn(b""));
    assert!(blank(" \t\u{2003}"));
    assert!(!blank(" x "));
    assert!(begins_with("indeterminate: x", "indeterminate:"));
    assert!(!begins_with("ind", "indeterminate:"));
    assert_eq!(decimal(0), "0");
    assert_eq!(decimal(u64::MAX), "18446744073709551615");
}

const SESSION: SessionId = SessionId(7);

fn scope(strategy: ReconciliationStrategy, dry_run: bool) -> SweepScope {
    SweepScope {
        session: SESSION,
        verb: "llm.completion.minted.v1".to_string(),
        strategy,
        dry_run,
        now: UnixTsMillis(99),
    }
}

/// A chain of rounds of this session, each minted under the runtime's verb.
fn rounds(key: &mut Signer, n: usize) -> Vec<PersistedReceipt> {
    let mut chain: Vec<PersistedReceipt> = Vec::new();
    for _ in 0..n {
        let mut body = key.sample_body(chain_tail(&chain));
        body.verb = "llm.completion.minted.v1".to_string();
        body.session_id = Some(SESSION);
        let jws_compact = key.sign(body.clone());
        chain.push(PersistedReceipt { jws_compact, body });
    }
    chain
}

fn vouches(receipt: &PersistedReceipt) -> SessionEntry {
    SessionEntry::AssistantMessage {
        content: "answer".to_string(),
        at: UnixTsMillis(1),
        receipt_id: receipt.body.receipt_id,
    }
}

#[test]
fn an_orphan_is_healed_once() {
    let mut key = Signer::new("key");
    let chain = rounds(&mut key, 2);
    let signed = key.authenticate(&chain);
    let entries = vec![vouches(&chain[0])];
    let scope = scope(ReconciliationStrategy::AppendSyntheticJournal, false);
    let plan =
        reconcile_receipts(&chain, &signed, &entries, &Vec::new(), &Vec::new(), &scope).unwrap();
    assert_eq!(plan.report.receipt_count, 2);
    assert_eq!(plan.report.journaled_receipt_count, 1);
    assert_eq!(
        plan.report.orphan_receipt_ids,
        vec![chain[1].body.receipt_id]
    );
    assert_eq!(plan.report.orphan_receipt_count(), 1);
    assert_eq!(
        plan.report.action,
        ReconciliationAction::AppendedSyntheticJournal { count: 1 }
    );
    let mut healed = entries;
    healed.extend(plan.appends);
    let again =
        reconcile_receipts(&chain, &signed, &healed, &Vec::new(), &Vec::new(), &scope).unwrap();
    assert_eq!(again.report.action, ReconciliationAction::NoOrphans);
    assert!(again.appends.is_empty());
}

#[test]
fn a_report_counts_the_whole_chain_and_the_journaled_answers() {
    let mut key = Signer::new("key");
    let mut chain = rounds(&mut key, 2);
    let mut foreign = key.sample_body(chain_tail(&chain));
    foreign.verb = "llm.completion.minted.v1".to_string();
    foreign.session_id = Some(SessionId(8));
    let jws_compact = key.sign(foreign.clone());
    chain.push(PersistedReceipt {
        jws_compact,
        body: foreign,
    });
    let signed = key.authenticate(&chain);
    let tool = SessionEntry::ToolInvocation {
        receipt_id: chain[1].body.receipt_id,
    };
    let entries = vec![vouches(&chain[0]), tool];
    let scope = scope(ReconciliationStrategy::AppendSyntheticJournal, false);
    let plan =
        reconcile_receipts(&chain, &signed, &entries, &Vec::new(), &Vec::new(), &scope).unwrap();
    assert_eq!(plan.report.receipt_count, 3);
    assert_eq!(plan.report.journaled_receipt_count, 1);
    assert_eq!(plan.report.action, ReconciliationAction::NoOrphans);
}

#[test]
fn a_dry_run_and_an_ignored_orphan_change_nothing() {
    let mut key = Signer::new("key");
    let chain = rounds(&mut key, 2);
    let signed = key.authenticate(&chain);
    let none = Vec::new();
    let dry = scope(ReconciliationStrategy::AppendSyntheticJournal, true);
    let plan =
        reconcile_receipts(&chain, &signed, &none, &Vec::new(), &Vec::new(), &dry).unwrap();
    assert!(plan.appends.is_empty());
    assert!(plan.retained.is_none());
    assert!(plan.report.dry_run);
    assert_eq!(plan.report.orphan_receipt_ids.len(), 2);
    let ignored = scope(ReconciliationStrategy::IgnoreOrphans, false);
    let plan =
        reconcile_receipts(&chain, &signed, &none, &Vec::new(), &Vec::new(), &ignored).unwrap();
    assert_eq!(plan.report.action, ReconciliationAction::ReportedOnly);
    assert!(plan.appends.is_empty());
    assert_eq!(
        ReconciliationStrategy::default(),
        ReconciliationStrategy::AppendSyntheticJournal
    );
}

#[test]
fn truncation_removes_exactly_the_orphan_suffix() {
    let mut key = Signer::new("key");
    let chain = rounds(&mut key, 3);
    let signed = key.authenticate(&chain);
    let entries = vec![vouches(&chain[0])];
    let cut = scope(ReconciliationStrategy::TruncateOrphans, false);
    let plan =
        reconcile_receipts(&chain, &signed, &entries, &Vec::new(), &Vec::new(), &cut).unwrap();
    assert_eq!(
        plan.report.action,
        ReconciliationAction::TruncatedReceipts { count: 2 }
    );
    let kept = plan.retained.unwrap();
    assert_eq!(kept, 1);
    let (log, tail) = truncate_orphan_suffix(&chain, kept);
    assert_eq!(log, format!("{}\n", chain[0].jws_compact));
    assert_eq!(
        tail,
        Some(Sha256Digest::of(chain[0].jws_compact.as_bytes()))
    );

    let middle = vec![vouches(&chain[2])];
    assert!(matches!(
        reconcile_receipts(&chain, &signed, &middle, &Vec::new(), &Vec::new(), &cut),
        Err(ReconciliationError::Undecidable(
            UndecidableReason::NotASuffix
        ))
    ));
}

#[test]
fn a_forged_chain_is_not_reconciled() {
    let mut key = Signer::new("key");
    let chain = rounds(&mut key, 2);
    let signed = vec![None, None];
    let swept = scope(ReconciliationStrategy::AppendSyntheticJournal, false);
    assert!(matches!(
        reconcile_receipts(
            &chain,
            &signed,
            &Vec::new(),
            &Vec::new(),
            &Vec::new(),
            &swept
        ),
        Err(ReconciliationError::ReceiptChain(
            ReceiptChainError::InvalidSignature { at: 0 }
        ))
    ));
}

#[test]
fn a_settled_turn_gives_its_own_entries_back() {
    let mut key = Signer::new("key");
    let chain = rounds(&mut key, 1);
    let signed = key.authenticate(&chain);
    let id = chain[0].body.receipt_id;
    let owed = vec![OwnedRecovery {
        receipt_id: id,
        entries: vec![vouches(&chain[0])],
    }];
    let swept = scope(ReconciliationStrategy::AppendSyntheticJournal, false);
    let plan =
        reconcile_receipts(&chain, &signed, &Vec::new(), &vec![id], &owed, &swept).unwrap();
    assert!(plan
        .appends
        .iter()
        .any(|entry| entry.vouched_receipt() == Some(id)));
    assert_eq!(CANCELLED_VERB, "llm.completion.cancelled.v1");
}
