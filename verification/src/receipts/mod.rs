//! Execution receipts: events, success/failure receipts, and their
//! canonical domain-separated BLAKE3 hashes and roots.

use vstd::prelude::*;
use vstd::utf8::encode_utf8;

use crate::crypto::blake3;
use crate::crypto::blake3_digest;
use crate::text::le_u16;
use crate::text::le_u32;
use crate::text::le_u64;
use crate::text::lemma_le_u16_injective;
use crate::text::lemma_le_u32_injective;
use crate::text::lemma_le_u64_injective;
use crate::text::push_bytes;
use crate::text::push_le_u16;
use crate::text::push_le_u32;
use crate::text::push_le_u64;
use crate::text::push_str_bytes;
use crate::text::str_to_string;

verus! {

/// Hash length in bytes.
pub const HASH_SIZE: usize = 32;

/// Version byte of the receipt hash encoding.
pub const RECEIPT_HASH_VERSION: u8 = 1;

pub const PROTOCOL_RECEIPT_NAMESPACE: &'static str = "AOXC/AOVM/RECEIPTS/HASH";

pub const DOMAIN_EVENT: &'static str = "EVENT";

pub const DOMAIN_RECEIPT: &'static str = "RECEIPT";

pub const DOMAIN_RECEIPT_ROOT: &'static str = "RECEIPT_ROOT";

/// Maximum event payload, in bytes.
pub const MAX_EVENT_DATA_LEN: usize = 65536;

/// Maximum number of events in a receipt.
pub const MAX_EVENTS_PER_RECEIPT: usize = 1024;

/// Receipt errors.
#[derive(Debug, Clone, Copy, PartialEq, Eq, Structural)]
pub enum ReceiptError {
    LengthOverflow,
    ZeroTransactionHash,
    SuccessReceiptMustNotContainErrorCode,
    FailureReceiptMustContainErrorCode,
    EventDataTooLarge,
    TooManyEvents,
}

impl ReceiptError {
    pub open spec fn message_text(&self) -> Seq<char> {
        match self {
            ReceiptError::LengthOverflow => "canonical receipt encoding exceeds supported length bounds"@,
            ReceiptError::ZeroTransactionHash => "transaction_hash must not be zero"@,
            ReceiptError::SuccessReceiptMustNotContainErrorCode => "successful receipt must not contain an error_code"@,
            ReceiptError::FailureReceiptMustContainErrorCode => "failed receipt must contain an error_code"@,
            ReceiptError::EventDataTooLarge => "event data exceeds the maximum canonical size"@,
            ReceiptError::TooManyEvents => "receipt contains more events than the canonical maximum"@,
        }
    }

    /// Human-readable description of the error.
    pub fn message(&self) -> (r: String)
        ensures
            r@ == self.message_text(),
    {
        match self {
            ReceiptError::LengthOverflow => str_to_string("canonical receipt encoding exceeds supported length bounds"),
            ReceiptError::ZeroTransactionHash => str_to_string("transaction_hash must not be zero"),
            ReceiptError::SuccessReceiptMustNotContainErrorCode => str_to_string("successful receipt must not contain an error_code"),
            ReceiptError::FailureReceiptMustContainErrorCode => str_to_string("failed receipt must contain an error_code"),
            ReceiptError::EventDataTooLarge => str_to_string("event data exceeds the maximum canonical size"),
            ReceiptError::TooManyEvents => str_to_string("receipt contains more events than the canonical maximum"),
        }
    }
}

/// An execution event.
#[derive(Debug, Clone, PartialEq, Eq)]
pub struct Event {
    pub event_type: u16,
    pub data: Vec<u8>,
}

/// An execution receipt.
#[derive(Debug, Clone, PartialEq, Eq)]
pub struct Receipt {
    pub transaction_hash: [u8; HASH_SIZE],
    pub success: bool,
    pub energy_used: u64,
    pub error_code: Option<u16>,
    pub events: Vec<Event>,
}

// ---------------------------------------------------------------------------
// Canonical encodings
// ---------------------------------------------------------------------------

/// The prefix of every hashed message: namespace, domain and version.
pub open spec fn tagged(domain: Seq<char>) -> Seq<u8> {
    encode_utf8(PROTOCOL_RECEIPT_NAMESPACE@) + seq![0u8] + encode_utf8(domain) + seq![0u8, RECEIPT_HASH_VERSION]
}

pub open spec fn event_valid(e: Event) -> bool {
    e.data@.len() <= MAX_EVENT_DATA_LEN
}

/// The bytes hashed for an event: its type and its length-prefixed data.
pub open spec fn event_message(e: Event) -> Seq<u8> {
    tagged(DOMAIN_EVENT@) + le_u16(e.event_type) + le_u32(e.data@.len() as u32) + e.data@
}

pub open spec fn event_hash(e: Event) -> Seq<u8> {
    blake3(event_message(e))
}

/// The event hashes, concatenated in order.
pub open spec fn event_hashes(events: Seq<Event>) -> Seq<u8>
    decreases events.len(),
{
    if events.len() == 0 {
        seq![]
    } else {
        event_hashes(events.drop_last()) + event_hash(events.last())
    }
}

/// Why a receipt is not canonical, if it is not.
pub open spec fn receipt_error(r: Receipt) -> Option<ReceiptError> {
    if forall|i: int| 0 <= i < HASH_SIZE ==> r.transaction_hash@[i] == 0 {
        Some(ReceiptError::ZeroTransactionHash)
    } else if r.success && r.error_code is Some {
        Some(ReceiptError::SuccessReceiptMustNotContainErrorCode)
    } else if !r.success && r.error_code is None {
        Some(ReceiptError::FailureReceiptMustContainErrorCode)
    } else if r.events@.len() > MAX_EVENTS_PER_RECEIPT {
        Some(ReceiptError::TooManyEvents)
    } else if exists|i: int| 0 <= i < r.events@.len() && !event_valid(#[trigger] r.events@[i]) {
        Some(ReceiptError::EventDataTooLarge)
    } else {
        None
    }
}

/// The bytes hashed for a receipt.
pub open spec fn receipt_message(r: Receipt) -> Seq<u8> {
    tagged(DOMAIN_RECEIPT@) + r.transaction_hash@ + seq![if r.success { 1u8 } else { 0u8 }] + le_u64(
        r.energy_used,
    ) + match r.error_code {
        Some(c) => seq![1u8] + le_u16(c),
        None => seq![0u8],
    } + le_u32(r.events@.len() as u32) + event_hashes(r.events@)
}

pub open spec fn receipt_hash(r: Receipt) -> Seq<u8> {
    blake3(receipt_message(r))
}

/// The receipt hashes, concatenated in order.
pub open spec fn receipt_hashes(rs: Seq<Receipt>) -> Seq<u8>
    decreases rs.len(),
{
    if rs.len() == 0 {
        seq![]
    } else {
        receipt_hashes(rs.drop_last()) + receipt_hash(rs.last())
    }
}

/// The root of no receipts.
pub open spec fn empty_root() -> Seq<u8> {
    blake3(tagged(DOMAIN_RECEIPT_ROOT@) + le_u32(0))
}

/// The root of a list of receipts.
pub open spec fn receipts_root(rs: Seq<Receipt>) -> Seq<u8> {
    if rs.len() == 0 {
        empty_root()
    } else {
        blake3(tagged(DOMAIN_RECEIPT_ROOT@) + le_u32(rs.len() as u32) + receipt_hashes(rs))
    }
}

/// The first invalid receipt's error, if any.
pub open spec fn receipts_error(rs: Seq<Receipt>) -> Option<ReceiptError>
    decreases rs.len(),
{
    if rs.len() == 0 {
        None
    } else if receipts_error(rs.drop_last()) is Some {
        receipts_error(rs.drop_last())
    } else {
        receipt_error(rs.last())
    }
}

fn push_tagged(out: &mut Vec<u8>, domain: &str)
    ensures
        final(out)@ == old(out)@ + tagged(domain@),
{
    push_str_bytes(out, PROTOCOL_RECEIPT_NAMESPACE);
    out.push(0u8);
    push_str_bytes(out, domain);
    out.push(0u8);
    out.push(RECEIPT_HASH_VERSION);
    assert(final(out)@ =~= old(out)@ + tagged(domain@));
}

/// A length as a `u32`, refused above `u32::MAX`.
pub fn checked_len(value: usize) -> (r: Result<u32, ReceiptError>)
    ensures
        match r {
            Ok(n) => value <= u32::MAX && n == value,
            Err(e) => value > u32::MAX && e == ReceiptError::LengthOverflow,
        },
{
    if value > u32::MAX as usize {
        Err(ReceiptError::LengthOverflow)
    } else {
        Ok(value as u32)
    }
}

impl Event {
    /// An event; a payload over `MAX_EVENT_DATA_LEN` bytes is refused.
    pub fn new(event_type: u16, data: Vec<u8>) -> (r: Result<Self, ReceiptError>)
        ensures
            match r {
                Ok(e) => data@.len() <= MAX_EVENT_DATA_LEN && e == (Event { event_type, data }),
                Err(e) => data@.len() > MAX_EVENT_DATA_LEN && e == ReceiptError::EventDataTooLarge,
            },
    {
        if data.len() > MAX_EVENT_DATA_LEN {
            return Err(ReceiptError::EventDataTooLarge);
        }
        Ok(Event { event_type, data })
    }

    /// Checks the payload bound.
    pub fn validate(&self) -> (r: Result<(), ReceiptError>)
        ensures
            r == if event_valid(*self) {
                Ok::<(), ReceiptError>(())
            } else {
                Err(ReceiptError::EventDataTooLarge)
            },
    {
        if self.data.len() > MAX_EVENT_DATA_LEN {
            return Err(ReceiptError::EventDataTooLarge);
        }
        Ok(())
    }

    /// The canonical hash of a valid event.
    pub fn try_hash(&self) -> (r: Result<[u8; HASH_SIZE], ReceiptError>)
        ensures
            match r {
                Ok(h) => event_valid(*self) && h@ == event_hash(*self),
                Err(e) => !event_valid(*self) && e == ReceiptError::EventDataTooLarge,
            },
    {
        if let Err(e) = self.validate() {
            return Err(e);
        }
        let mut m: Vec<u8> = Vec::new();
        push_tagged(&mut m, DOMAIN_EVENT);
        push_le_u16(&mut m, self.event_type);
        let len = match checked_len(self.data.len()) {
            Ok(n) => n,
            Err(e) => return Err(e),
        };
        push_le_u32(&mut m, len);
        push_bytes(&mut m, self.data.as_slice());
        assert(m@ =~= event_message(*self));
        Ok(blake3_digest(m.as_slice()))
    }

    /// The canonical hash of a valid event.
    pub fn hash(&self) -> (r: [u8; HASH_SIZE])
        requires
            event_valid(*self),
        ensures
            r@ == event_hash(*self),
    {
        match self.try_hash() {
            Ok(h) => h,
            Err(_) => [0u8; HASH_SIZE],
        }
    }
}

/// Whether every byte is zero.
fn is_zero_hash(h: &[u8; HASH_SIZE]) -> (r: bool)
    ensures
        r == (forall|i: int| 0 <= i < HASH_SIZE ==> h@[i] == 0),
{
    let mut i: usize = 0;
    while i < HASH_SIZE
        invariant
            i <= HASH_SIZE,
            forall|j: int| 0 <= j < i ==> h@[j] == 0,
        decreases HASH_SIZE - i,
    {
        if h[i] != 0 {
            return false;
        }
        i += 1;
    }
    true
}

impl Receipt {
    /// A successful receipt without events; an all-zero transaction hash is
    /// refused.
    pub fn success(tx_hash: [u8; HASH_SIZE], energy_used: u64) -> (r: Result<Self, ReceiptError>)
        ensures
            match r {
                Ok(x) => x.transaction_hash == tx_hash && x.success && x.energy_used == energy_used
                    && x.error_code is None && x.events@.len() == 0 && receipt_error(x) is None,
                Err(e) => e == ReceiptError::ZeroTransactionHash && forall|i: int|
                    0 <= i < HASH_SIZE ==> tx_hash@[i] == 0,
            },
    {
        let receipt = Receipt {
            transaction_hash: tx_hash,
            success: true,
            energy_used,
            error_code: None,
            events: Vec::new(),
        };
        assert(receipt.events@.len() == 0);
        assert(receipt.transaction_hash == tx_hash);
        match receipt.validate() {
            Ok(()) => Ok(receipt),
            Err(e) => Err(e),
        }
    }

    /// A failed receipt with an error code and no events; an all-zero
    /// transaction hash is refused.
    pub fn failure(tx_hash: [u8; HASH_SIZE], energy_used: u64, error_code: u16) -> (r: Result<
        Self,
        ReceiptError,
    >)
        ensures
            match r {
                Ok(x) => x.transaction_hash == tx_hash && !x.success && x.energy_used == energy_used
                    && x.error_code == Some(error_code) && x.events@.len() == 0 && receipt_error(x) is None,
                Err(e) => e == ReceiptError::ZeroTransactionHash && forall|i: int|
                    0 <= i < HASH_SIZE ==> tx_hash@[i] == 0,
            },
    {
        let receipt = Receipt {
            transaction_hash: tx_hash,
            success: false,
            energy_used,
            error_code: Some(error_code),
            events: Vec::new(),
        };
        assert(receipt.events@.len() == 0);
        assert(receipt.transaction_hash == tx_hash);
        match receipt.validate() {
            Ok(()) => Ok(receipt),
            Err(e) => Err(e),
        }
    }

    /// Appends an event: a too-large payload or a full receipt is refused
    /// and nothing changes.
    pub fn push_event(&mut self, event: Event) -> (r: Result<(), ReceiptError>)
        ensures
            match r {
                Ok(()) => event_valid(event) && old(self).events@.len() < MAX_EVENTS_PER_RECEIPT && *final(self)
                    == (Receipt { events: final(self).events, ..*old(self) }) && final(self).events@ == old(
                    self,
                ).events@.push(event),
                Err(e) => *final(self) == *old(self) && if !event_valid(event) {
                    e == ReceiptError::EventDataTooLarge
                } else {
                    old(self).events@.len() >= MAX_EVENTS_PER_RECEIPT && e == ReceiptError::TooManyEvents
                },
            },
    {
        if let Err(e) = event.validate() {
            return Err(e);
        }
        if self.events.len() >= MAX_EVENTS_PER_RECEIPT {
            return Err(ReceiptError::TooManyEvents);
        }
        self.events.push(event);
        Ok(())
    }

    /// Checks the receipt: a non-zero transaction hash, an error code exactly
    /// on failure, and bounded, valid events.
    pub fn validate(&self) -> (r: Result<(), ReceiptError>)
        ensures
            r == match receipt_error(*self) {
                Some(e) => Err(e),
                None => Ok(()),
            },
    {
        if is_zero_hash(&self.transaction_hash) {
            return Err(ReceiptError::ZeroTransactionHash);
        }
        if self.success && self.error_code.is_some() {
            return Err(ReceiptError::SuccessReceiptMustNotContainErrorCode);
        }
        if !self.success && self.error_code.is_none() {
            return Err(ReceiptError::FailureReceiptMustContainErrorCode);
        }
        if self.events.len() > MAX_EVENTS_PER_RECEIPT {
            return Err(ReceiptError::TooManyEvents);
        }
        let n = self.events.len();
        let mut i: usize = 0;
        while i < n
            invariant
                n == self.events@.len(),
                i <= n,
                n <= MAX_EVENTS_PER_RECEIPT,
                !(forall|j: int| 0 <= j < HASH_SIZE ==> self.transaction_hash@[j] == 0),
                !(self.success && self.error_code is Some),
                !(!self.success && self.error_code is None),
                forall|j: int| 0 <= j < i ==> event_valid(#[trigger] self.events@[j]),
            decreases n - i,
        {
            if let Err(e) = self.events[i].validate() {
                assert(!event_valid(self.events@[i as int]));
                return Err(e);
            }
            i += 1;
        }
        Ok(())
    }

    /// The encoded fields before the event hashes.
    fn header_bytes(&self) -> (m: Vec<u8>)
        requires
            self.events@.len() <= MAX_EVENTS_PER_RECEIPT,
        ensures
            m@ + event_hashes(self.events@) == receipt_message(*self),
    {
        let mut m: Vec<u8> = Vec::new();
        push_tagged(&mut m, DOMAIN_RECEIPT);
        push_bytes(&mut m, &self.transaction_hash);
        m.push(if self.success { 1u8 } else { 0u8 });
        push_le_u64(&mut m, self.energy_used);
        match self.error_code {
            Some(code) => {
                m.push(1u8);
                push_le_u16(&mut m, code);
            },
            None => {
                m.push(0u8);
            },
        }
        push_le_u32(&mut m, self.events.len() as u32);
        assert(m@ + event_hashes(self.events@) =~= receipt_message(*self));
        m
    }

    /// The canonical hash of a valid receipt.
    pub fn try_hash(&self) -> (r: Result<[u8; HASH_SIZE], ReceiptError>)
        ensures
            match r {
                Ok(h) => receipt_error(*self) is None && h@ == receipt_hash(*self),
                Err(e) => receipt_error(*self) == Some(e),
            },
    {
        if let Err(e) = self.validate() {
            return Err(e);
        }
        let mut m = self.header_bytes();
        let ghost head = m@;
        let n = self.events.len();
        let mut i: usize = 0;
        while i < n
            invariant
                n == self.events@.len(),
                i <= n,
                forall|j: int| 0 <= j < n ==> event_valid(#[trigger] self.events@[j]),
                m@ == head + event_hashes(self.events@.take(i as int)),
            decreases n - i,
        {
            let h = self.events[i].hash();
            push_bytes(&mut m, &h);
            proof {
                assert(self.events@.take(i + 1 as int).drop_last() =~= self.events@.take(i as int));
            }
            i += 1;
        }
        assert(self.events@.take(n as int) =~= self.events@);
        Ok(blake3_digest(m.as_slice()))
    }

    /// The canonical hash of a valid receipt.
    pub fn hash(&self) -> (r: [u8; HASH_SIZE])
        requires
            receipt_error(*self) is None,
        ensures
            r@ == receipt_hash(*self),
    {
        match self.try_hash() {
            Ok(h) => h,
            Err(_) => [0u8; HASH_SIZE],
        }
    }

    /// Whether the receipt records a failure.
    pub fn is_failure(&self) -> (r: bool)
        ensures
            r == !self.success,
    {
        !self.success
    }

    /// Whether the receipt has no events.
    pub fn has_no_events(&self) -> (r: bool)
        ensures
            r == (self.events@.len() == 0),
    {
        self.events.len() == 0
    }
}

/// The root of no receipts.
pub fn empty_receipts_root() -> (r: [u8; HASH_SIZE])
    ensures
        r@ == empty_root(),
{
    let mut m: Vec<u8> = Vec::new();
    push_tagged(&mut m, DOMAIN_RECEIPT_ROOT);
    push_le_u32(&mut m, 0);
    blake3_digest(m.as_slice())
}

/// The root of a list of receipts: refused when a receipt is invalid or
/// there are more than `u32::MAX` of them.
pub fn try_calculate_receipts_root(receipts: &[Receipt]) -> (r: Result<[u8; HASH_SIZE], ReceiptError>)
    ensures
        match r {
            Ok(h) => receipts_error(receipts@) is None && receipts@.len() <= u32::MAX && h@ == receipts_root(
                receipts@,
            ),
            Err(e) => if receipts@.len() == 0 {
                false
            } else if receipts@.len() > u32::MAX {
                e == ReceiptError::LengthOverflow
            } else {
                receipts_error(receipts@) == Some(e)
            },
        },
{
    if receipts.len() == 0 {
        assert(receipts_error(receipts@) is None);
        return Ok(empty_receipts_root());
    }
    let mut m: Vec<u8> = Vec::new();
    push_tagged(&mut m, DOMAIN_RECEIPT_ROOT);
    let count = match checked_len(receipts.len()) {
        Ok(c) => c,
        Err(e) => return Err(e),
    };
    push_le_u32(&mut m, count);
    let ghost head = m@;
    let n = receipts.len();
    let mut i: usize = 0;
    while i < n
        invariant
            n == receipts@.len(),
            0 < n <= u32::MAX,
            i <= n,
            receipts_error(receipts@.take(i as int)) is None,
            m@ == head + receipt_hashes(receipts@.take(i as int)),
            head == tagged(DOMAIN_RECEIPT_ROOT@) + le_u32(n as u32),
        decreases n - i,
    {
        proof {
            assert(receipts@.take(i + 1 as int).drop_last() =~= receipts@.take(i as int));
        }
        let h = match receipts[i].try_hash() {
            Ok(h) => h,
            Err(e) => {
                proof {
                    lemma_receipts_error_prefix(receipts@, i as int + 1);
                }
                return Err(e);
            },
        };
        push_bytes(&mut m, &h);
        i += 1;
    }
    assert(receipts@.take(n as int) =~= receipts@);
    Ok(blake3_digest(m.as_slice()))
}

/// A failure in a prefix is the failure of the whole list.
proof fn lemma_receipts_error_prefix(rs: Seq<Receipt>, k: int)
    requires
        0 <= k <= rs.len(),
        receipts_error(rs.take(k)) is Some,
    ensures
        receipts_error(rs) == receipts_error(rs.take(k)),
    decreases rs.len() - k,
{
    if k < rs.len() {
        assert(rs.take(k + 1).drop_last() =~= rs.take(k));
        lemma_receipts_error_prefix(rs, k + 1);
    } else {
        assert(rs.take(k) =~= rs);
    }
}

/// The root of a list of valid receipts (at most `u32::MAX` of them).
pub fn calculate_receipts_root(receipts: &[Receipt]) -> (r: [u8; HASH_SIZE])
    requires
        receipts_error(receipts@) is None,
        receipts@.len() <= u32::MAX,
    ensures
        r@ == receipts_root(receipts@),
{
    match try_calculate_receipts_root(receipts) {
        Ok(h) => h,
        Err(_) => [0u8; HASH_SIZE],
    }
}

/// The root of an empty list is the empty root.
pub proof fn law_empty_root()
    ensures
        receipts_root(Seq::<Receipt>::empty()) == empty_root(),
{
}

/// The error-code part of a receipt message: a presence flag, then the code.
spec fn code_part(c: Option<u16>) -> Seq<u8> {
    match c {
        Some(v) => seq![1u8] + le_u16(v),
        None => seq![0u8],
    }
}

/// The event part of a receipt message: the count, then the event hashes.
spec fn events_part(r: Receipt) -> Seq<u8> {
    le_u32(r.events@.len() as u32) + event_hashes(r.events@)
}

/// Error-code parts followed by anything are equal only when the codes and
/// what follows are.
proof fn lemma_code_part(c: Option<u16>, d: Option<u16>, x: Seq<u8>, y: Seq<u8>)
    requires
        code_part(c) + x == code_part(d) + y,
    ensures
        c == d,
        x == y,
{
    let m1 = code_part(c) + x;
    let m2 = code_part(d) + y;
    assert(m1[0] == m2[0]);
    assert(m1[0] == code_part(c)[0]);
    assert(m2[0] == code_part(d)[0]);
    assert((c is Some) == (d is Some));
    match c {
        Some(v) => {
            let w = d->0;
            assert(m1.subrange(1, 3) =~= le_u16(v));
            assert(m2.subrange(1, 3) =~= le_u16(w));
            lemma_le_u16_injective(v, w);
            assert(m1.skip(3) =~= x);
            assert(m2.skip(3) =~= y);
        },
        None => {
            assert(m1.skip(1) =~= x);
            assert(m2.skip(1) =~= y);
        },
    }
}

/// A receipt's hash is BLAKE3 of a message that fixes its transaction hash,
/// success flag, energy used, error code (its presence and its value), the
/// number of events and their hashes: the hashes of two receipts come from
/// one message only when all of these agree.
#[verifier::rlimit(40)]
pub proof fn law_receipt_hash_commits_contents(a: Receipt, b: Receipt)
    requires
        a.events@.len() <= u32::MAX,
        b.events@.len() <= u32::MAX,
    ensures
        exists|ma: Seq<u8>, mb: Seq<u8>|
            #![trigger blake3(ma), blake3(mb)]
            receipt_hash(a) == blake3(ma) && receipt_hash(b) == blake3(mb) && (ma == mb ==> (
            a.transaction_hash@ == b.transaction_hash@ && a.success == b.success && a.energy_used
                == b.energy_used && a.error_code == b.error_code && a.events@.len() == b.events@.len()
                && event_hashes(a.events@) == event_hashes(b.events@))),
{
    let t = tagged(DOMAIN_RECEIPT@);
    let ma = receipt_message(a);
    let mb = receipt_message(b);
    let pa = t + a.transaction_hash@ + seq![if a.success { 1u8 } else { 0u8 }] + le_u64(a.energy_used);
    let pb = t + b.transaction_hash@ + seq![if b.success { 1u8 } else { 0u8 }] + le_u64(b.energy_used);
    assert(a.transaction_hash@.len() == 32 && b.transaction_hash@.len() == 32);
    assert(ma =~= pa + (code_part(a.error_code) + events_part(a)));
    assert(mb =~= pb + (code_part(b.error_code) + events_part(b)));
    if ma == mb {
        let n = t.len() as int;
        assert(ma.subrange(n, n + 32) =~= a.transaction_hash@);
        assert(mb.subrange(n, n + 32) =~= b.transaction_hash@);
        assert(ma[n + 32] == mb[n + 32]);
        assert(ma.subrange(n + 33, n + 41) =~= le_u64(a.energy_used));
        assert(mb.subrange(n + 33, n + 41) =~= le_u64(b.energy_used));
        lemma_le_u64_injective(a.energy_used, b.energy_used);
        assert(ma.skip(n + 41) =~= code_part(a.error_code) + events_part(a));
        assert(mb.skip(n + 41) =~= code_part(b.error_code) + events_part(b));
        lemma_code_part(a.error_code, b.error_code, events_part(a), events_part(b));
        let ea = events_part(a);
        let eb = events_part(b);
        assert(ea.subrange(0, 4) =~= le_u32(a.events@.len() as u32));
        assert(eb.subrange(0, 4) =~= le_u32(b.events@.len() as u32));
        lemma_le_u32_injective(a.events@.len() as u32, b.events@.len() as u32);
        assert(ea.skip(4) =~= event_hashes(a.events@));
        assert(eb.skip(4) =~= event_hashes(b.events@));
    }
    assert(receipt_hash(a) == blake3(ma) && receipt_hash(b) == blake3(mb));
}

/// An event's hash is BLAKE3 of a message that fixes its type and data:
/// the hashes of two events come from one message exactly when their types
/// and data agree.
pub proof fn law_event_hash_commits_contents(a: Event, b: Event)
    requires
        a.data@.len() <= u32::MAX,
        b.data@.len() <= u32::MAX,
    ensures
        exists|ma: Seq<u8>, mb: Seq<u8>|
            #![trigger blake3(ma), blake3(mb)]
            event_hash(a) == blake3(ma) && event_hash(b) == blake3(mb) && (ma == mb <==> (a.event_type
                == b.event_type && a.data@ == b.data@)),
{
    let t = tagged(DOMAIN_EVENT@);
    let ma = event_message(a);
    let mb = event_message(b);
    let n = t.len() as int;
    if ma == mb {
        assert(ma.subrange(n, n + 2) =~= le_u16(a.event_type));
        assert(mb.subrange(n, n + 2) =~= le_u16(b.event_type));
        lemma_le_u16_injective(a.event_type, b.event_type);
        assert(ma.subrange(n + 2, n + 6) =~= le_u32(a.data@.len() as u32));
        assert(mb.subrange(n + 2, n + 6) =~= le_u32(b.data@.len() as u32));
        lemma_le_u32_injective(a.data@.len() as u32, b.data@.len() as u32);
        assert(ma.skip(n + 6) =~= a.data@);
        assert(mb.skip(n + 6) =~= b.data@);
    }
    if a.event_type == b.event_type && a.data@ == b.data@ {
        assert(ma =~= mb);
    }
    assert(event_hash(a) == blake3(ma) && event_hash(b) == blake3(mb));
}

/// The root of a non-empty list of receipts is BLAKE3 of a message that
/// fixes the number of receipts and their hashes in order.
pub proof fn law_receipts_root_commits_hashes(a: Seq<Receipt>, b: Seq<Receipt>)
    requires
        0 < a.len() <= u32::MAX,
        0 < b.len() <= u32::MAX,
    ensures
        exists|ma: Seq<u8>, mb: Seq<u8>|
            #![trigger blake3(ma), blake3(mb)]
            receipts_root(a) == blake3(ma) && receipts_root(b) == blake3(mb) && (ma == mb <==> (a.len()
                == b.len() && receipt_hashes(a) == receipt_hashes(b))),
{
    let t = tagged(DOMAIN_RECEIPT_ROOT@);
    let ma = t + le_u32(a.len() as u32) + receipt_hashes(a);
    let mb = t + le_u32(b.len() as u32) + receipt_hashes(b);
    let n = t.len() as int;
    if ma == mb {
        assert(ma.subrange(n, n + 4) =~= le_u32(a.len() as u32));
        assert(mb.subrange(n, n + 4) =~= le_u32(b.len() as u32));
        lemma_le_u32_injective(a.len() as u32, b.len() as u32);
        assert(ma.skip(n + 4) =~= receipt_hashes(a));
        assert(mb.skip(n + 4) =~= receipt_hashes(b));
    }
    assert(receipts_root(a) == blake3(ma) && receipts_root(b) == blake3(mb));
}

} // verus!
