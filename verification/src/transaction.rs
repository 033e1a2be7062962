//! The data model of the transaction log: the five record kinds, the incoming
//! record, the stored history entry that later disputes refer back to, and the
//! semantic validation of a record.

use vstd::prelude::*;
use vstd::string::StringSliceAdditionalSpecFns;

verus! {

/// The five kinds of record the ledger understands.
#[derive(Clone, Copy, Debug, PartialEq, Eq, Structural)]
pub enum TransactionType {
    Deposit,
    Withdrawal,
    Dispute,
    Resolve,
    Chargeback,
}

/// One incoming record. `amount` is in millionths of the currency unit; it is
/// required for deposits and withdrawals and ignored by the dispute kinds.
#[derive(Clone, Copy, Debug)]
pub struct TransactionRecord {
    pub tx_type: TransactionType,
    pub client: u16,
    pub tx: u32,
    pub amount: Option<u64>,
}

/// The history entry stored for a successful deposit or withdrawal, keyed by
/// transaction id. `disputed` is the only field that later records may change.
#[derive(Clone, Copy, Debug, PartialEq, Eq, Structural)]
pub struct StoredTransaction {
    pub client: u16,
    pub amount: u64,
    pub tx_type: TransactionType,
    pub disputed: bool,
}

/// A record that parses but is semantically unusable.
#[derive(Clone, Copy, Debug, PartialEq, Eq, Structural)]
pub enum EngineError {
    /// A deposit or withdrawal arrived without an amount.
    MissingAmount,
}

/// A piece of text that names no transaction kind.
#[derive(Clone, Copy, Debug, PartialEq, Eq, Structural)]
pub enum ParseError {
    UnknownTransactionType,
}

impl EngineError {
    /// A short description, for operator-facing reports.
    pub fn message(&self) -> (text: String)
        ensures
            text@ == "deposit or withdrawal requires an amount"@,
    {
        "deposit or withdrawal requires an amount".to_owned()
    }
}

impl ParseError {
    /// A short description, for operator-facing reports.
    pub fn message(&self) -> (text: String)
        ensures
            text@ == "unknown transaction type"@,
    {
        "unknown transaction type".to_owned()
    }
}

/// ASCII whitespace, the characters stripped from either end of a kind name
/// before matching.
pub open spec fn is_space(b: u8) -> bool {
    b == 32 || (9 <= b && b <= 13)
}

/// ASCII case folding: an upper-case letter becomes its lower-case twin,
/// every other byte is left alone.
pub open spec fn fold_lower(b: u8) -> u8 {
    if 65 <= b && b <= 90 {
        (b + 32) as u8
    } else {
        b
    }
}

pub open spec fn trim_front(s: Seq<u8>) -> Seq<u8>
    decreases s.len(),
{
    if s.len() > 0 && is_space(s[0]) {
        trim_front(s.drop_first())
    } else {
        s
    }
}

pub open spec fn trim_back(s: Seq<u8>) -> Seq<u8>
    decreases s.len(),
{
    if s.len() > 0 && is_space(s.last()) {
        trim_back(s.drop_last())
    } else {
        s
    }
}

/// The text with ASCII whitespace stripped from both ends.
pub open spec fn trimmed(s: Seq<u8>) -> Seq<u8> {
    trim_back(trim_front(s))
}

/// The text folded to lower case, byte for byte.
pub open spec fn folded(s: Seq<u8>) -> Seq<u8> {
    s.map_values(|b: u8| fold_lower(b))
}

/// The lower-case name of each record kind, as bytes.
pub open spec fn keyword_bytes(kind: TransactionType) -> Seq<u8> {
    match kind {
        TransactionType::Deposit => seq![100u8, 101u8, 112u8, 111u8, 115u8, 105u8, 116u8],
        TransactionType::Withdrawal => seq![
            119u8,
            105u8,
            116u8,
            104u8,
            100u8,
            114u8,
            97u8,
            119u8,
            97u8,
            108u8,
        ],
        TransactionType::Dispute => seq![100u8, 105u8, 115u8, 112u8, 117u8, 116u8, 101u8],
        TransactionType::Resolve => seq![114u8, 101u8, 115u8, 111u8, 108u8, 118u8, 101u8],
        TransactionType::Chargeback => seq![
            99u8,
            104u8,
            97u8,
            114u8,
            103u8,
            101u8,
            98u8,
            97u8,
            99u8,
            107u8,
        ],
    }
}

/// The kind named by a piece of text: whitespace at the ends is ignored and
/// the match is case-insensitive.
pub open spec fn spec_kind_of(s: Seq<u8>) -> Option<TransactionType> {
    let name = folded(trimmed(s));
    if name == keyword_bytes(TransactionType::Deposit) {
        Some(TransactionType::Deposit)
    } else if name == keyword_bytes(TransactionType::Withdrawal) {
        Some(TransactionType::Withdrawal)
    } else if name == keyword_bytes(TransactionType::Dispute) {
        Some(TransactionType::Dispute)
    } else if name == keyword_bytes(TransactionType::Resolve) {
        Some(TransactionType::Resolve)
    } else if name == keyword_bytes(TransactionType::Chargeback) {
        Some(TransactionType::Chargeback)
    } else {
        None
    }
}

/// A record is valid when the kinds that move funds carry an amount. The
/// dispute kinds reuse the stored amount, so theirs is ignored.
pub open spec fn record_valid(record: TransactionRecord) -> bool {
    match record.tx_type {
        TransactionType::Deposit | TransactionType::Withdrawal => record.amount is Some,
        _ => true,
    }
}

proof fn lemma_trim_front_skip(s: Seq<u8>, k: int)
    requires
        0 <= k <= s.len(),
        forall|j: int| 0 <= j < k ==> is_space(#[trigger] s[j]),
        k == s.len() || !is_space(s[k]),
    ensures
        trim_front(s) == s.subrange(k, s.len() as int),
    decreases k,
{
    if k == 0 {
        assert(trim_front(s) =~= s.subrange(0, s.len() as int));
    } else {
        lemma_trim_front_skip(s.drop_first(), k - 1);
        assert(s.drop_first().subrange(k - 1, s.drop_first().len() as int) =~= s.subrange(
            k,
            s.len() as int,
        ));
    }
}

proof fn lemma_trim_back_skip(s: Seq<u8>, k: int)
    requires
        0 <= k <= s.len(),
        forall|j: int| k <= j < s.len() ==> is_space(#[trigger] s[j]),
        k == 0 || !is_space(s[k - 1]),
    ensures
        trim_back(s) == s.subrange(0, k),
    decreases s.len(),
{
    if k == s.len() {
        assert(trim_back(s) =~= s.subrange(0, k));
    } else {
        lemma_trim_back_skip(s.drop_last(), k);
        assert(s.drop_last().subrange(0, k) =~= s.subrange(0, k));
    }
}

fn byte_is_space(b: u8) -> (space: bool)
    ensures
        space == is_space(b),
{
    b == 32 || (9 <= b && b <= 13)
}

fn byte_lower(b: u8) -> (lower: u8)
    ensures
        lower == fold_lower(b),
{
    if 65 <= b && b <= 90 {
        b + 32
    } else {
        b
    }
}

fn keyword(kind: TransactionType) -> (name: Vec<u8>)
    ensures
        name@ == keyword_bytes(kind),
{
    let name: Vec<u8> = match kind {
        TransactionType::Deposit => vec![100u8, 101, 112, 111, 115, 105, 116],
        TransactionType::Withdrawal => vec![119u8, 105, 116, 104, 100, 114, 97, 119, 97, 108],
        TransactionType::Dispute => vec![100u8, 105, 115, 112, 117, 116, 101],
        TransactionType::Resolve => vec![114u8, 101, 115, 111, 108, 118, 101],
        TransactionType::Chargeback => vec![99u8, 104, 97, 114, 103, 101, 98, 97, 99, 107],
    };
    proof {
        assert(name@ =~= keyword_bytes(kind));
    }
    name
}

/// Does the case-folded slice `bytes[lo..hi]` spell the name of `kind`?
fn matches_keyword(bytes: &[u8], lo: usize, hi: usize, kind: TransactionType) -> (matched: bool)
    requires
        lo <= hi <= bytes@.len(),
    ensures
        matched == (folded(bytes@.subrange(lo as int, hi as int)) == keyword_bytes(kind)),
{
    let ghost sub = bytes@.subrange(lo as int, hi as int);
    let name = keyword(kind);
    let n = name.len();
    if hi - lo != n {
        assert(folded(sub).len() != keyword_bytes(kind).len());
        return false;
    }
    let mut i: usize = 0;
    while i < n
        invariant
            lo <= hi <= bytes@.len(),
            hi - lo == n,
            i <= n,
            name@ == keyword_bytes(kind),
            n == name@.len(),
            sub == bytes@.subrange(lo as int, hi as int),
            forall|j: int| 0 <= j < i ==> fold_lower(#[trigger] sub[j]) == name@[j],
        decreases n - i,
    {
        if byte_lower(bytes[lo + i]) != name[i] {
            assert(folded(sub)[i as int] != keyword_bytes(kind)[i as int]);
            return false;
        }
        i = i + 1;
    }
    proof {
        assert(folded(sub) =~= keyword_bytes(kind));
    }
    true
}

impl TransactionType {
    /// Parses a record kind from text, ignoring surrounding whitespace and
    /// letter case.
    pub fn from_str(s: &str) -> (result: Result<TransactionType, ParseError>)
        ensures
            result == match spec_kind_of(s.spec_bytes()) {
                Some(kind) => Ok::<TransactionType, ParseError>(kind),
                None => Err::<TransactionType, ParseError>(ParseError::UnknownTransactionType),
            },
    {
        let bytes = s.as_bytes();
        let ghost whole = bytes@;
        let mut lo: usize = 0;
        let mut hi: usize = bytes.len();
        while lo < hi && byte_is_space(bytes[lo])
            invariant
                0 <= lo <= hi <= whole.len(),
                whole == bytes@,
                hi == whole.len(),
                forall|j: int| 0 <= j < lo ==> is_space(#[trigger] whole[j]),
            decreases hi - lo,
        {
            lo = lo + 1;
        }
        while hi > lo && byte_is_space(bytes[hi - 1])
            invariant
                0 <= lo <= hi <= whole.len(),
                whole == bytes@,
                lo == whole.len() || !is_space(whole[lo as int]),
                forall|j: int| 0 <= j < lo ==> is_space(#[trigger] whole[j]),
                forall|j: int| hi <= j < whole.len() ==> is_space(#[trigger] whole[j]),
            decreases hi,
        {
            hi = hi - 1;
        }
        proof {
            lemma_trim_front_skip(whole, lo as int);
            lemma_trim_back_skip(whole.subrange(lo as int, whole.len() as int), hi - lo);
            assert(whole.subrange(lo as int, whole.len() as int).subrange(0, hi - lo)
                =~= whole.subrange(lo as int, hi as int));
            assert(trimmed(whole) == whole.subrange(lo as int, hi as int));
        }
        if matches_keyword(bytes, lo, hi, TransactionType::Deposit) {
            Ok(TransactionType::Deposit)
        } else if matches_keyword(bytes, lo, hi, TransactionType::Withdrawal) {
            Ok(TransactionType::Withdrawal)
        } else if matches_keyword(bytes, lo, hi, TransactionType::Dispute) {
            Ok(TransactionType::Dispute)
        } else if matches_keyword(bytes, lo, hi, TransactionType::Resolve) {
            Ok(TransactionType::Resolve)
        } else if matches_keyword(bytes, lo, hi, TransactionType::Chargeback) {
            Ok(TransactionType::Chargeback)
        } else {
            Err(ParseError::UnknownTransactionType)
        }
    }
}

impl TransactionRecord {
    pub fn validate(&self) -> (result: Result<(), EngineError>)
        ensures
            result is Ok <==> record_valid(*self),
            result is Err ==> result == Err::<(), EngineError>(EngineError::MissingAmount),
    {
        match self.tx_type {
            TransactionType::Deposit | TransactionType::Withdrawal => {
                if self.amount.is_none() {
                    Err(EngineError::MissingAmount)
                } else {
                    Ok(())
                }
            },
            _ => Ok(()),
        }
    }
}

} // verus!
