use vstd::prelude::*;
use vstd::string::*;
use solana_program_pack::Pack;
use crate::Chain;
use crate::config::Config;
use crate::errors::AppError;
use crate::ethereum_client::{
    TokenQueryModel, TokenQueryResult, assemble, spec_assembled_portfolio, view_results,
};
use crate::helpers::{is_valid_solana_address, spec_valid_solana_address};
use crate::portfolio::PortfolioResponse;
use crate::token::{TokenMetadata, TokenMetadataModel, clone_opt_string};
use crate::transaction::{Transaction, TransactionModel};

verus! {

/// The little-endian reading of an 8-byte word.
pub open spec fn spec_le_u64(s: Seq<u8>) -> u64
    recommends
        s.len() == 8,
{
    (s[0] as nat + s[1] as nat * 0x100 + s[2] as nat * 0x1_0000 + s[3] as nat * 0x100_0000
        + s[4] as nat * 0x1_0000_0000 + s[5] as nat * 0x100_0000_0000 + s[6] as nat
        * 0x1_0000_0000_0000 + s[7] as nat * 0x100_0000_0000_0000) as u64
}

/// A valid serialized `COption` tag: four bytes, `[0,0,0,0]` for
/// absent or `[1,0,0,0]` for present.
pub open spec fn spec_coption_tag(s: Seq<u8>) -> bool
    recommends
        s.len() == 4,
{
    (s[0] == 0 || s[0] == 1) && s[1] == 0 && s[2] == 0 && s[3] == 0
}

/// A decodable, initialized token account: exactly 165 bytes; the
/// delegate (72..108), native marker (109..121) and close-authority
/// (129..165) fields carry valid `COption` tags; and the state byte at
/// 108 marks an initialized (1) or frozen (2) account.
pub open spec fn spec_valid_token_account(d: Seq<u8>) -> bool {
    &&& d.len() == 165
    &&& spec_coption_tag(d.subrange(72, 76))
    &&& (d[108] == 1 || d[108] == 2)
    &&& spec_coption_tag(d.subrange(109, 113))
    &&& spec_coption_tag(d.subrange(129, 133))
}

/// The base-58 rendering of a byte string; a function of the bytes
/// alone.
pub uninterp spec fn base58_of(bytes: Seq<u8>) -> Seq<char>;

/// Relies on `bs58::encode` with its default (Bitcoin) alphabet: the
/// encoding is deterministic in the input bytes.
#[verifier::external_body]
fn encode_base58(bytes: &Vec<u8>) -> (r: String)
    ensures
        r@ == base58_of(bytes@),
{
    bs58::encode(bytes.as_slice()).into_string()
}

/// Relies on `spl_token::state::Account::unpack` (the `Pack` impl of
/// the token interface): it rejects any buffer that is not exactly 165
/// bytes, any invalid `COption` tag in the delegate, native-marker or
/// close-authority fields, any state byte other than 1 (initialized)
/// or 2 (frozen), and uninitialized (state 0) accounts; on success the
/// account's mint is bytes 0..32 and its amount is the little-endian
/// word at bytes 64..72.
#[verifier::external_body]
fn unpack_token_account(data: &Vec<u8>) -> (r: Option<(Vec<u8>, u64)>)
    ensures
        r is Some <==> spec_valid_token_account(data@),
        r matches Some(p) ==> p.0@ == data@.subrange(0, 32) && p.1 == spec_le_u64(
            data@.subrange(64, 72),
        ),
{
    match spl_token::state::Account::unpack(data.as_slice()) {
        Ok(a) => Some((a.mint.to_bytes().to_vec(), a.amount)),
        Err(_) => None,
    }
}

/// Decodes one raw token-account buffer into its mint (base-58) and
/// raw amount; `None` exactly on corrupt or uninitialized data.
pub fn decode_account(data: &Vec<u8>) -> (r: Option<(String, u64)>)
    ensures
        r is Some <==> spec_valid_token_account(data@),
        r matches Some(p) ==> p.0@ == base58_of(data@.subrange(0, 32)) && p.1 == spec_le_u64(
            data@.subrange(64, 72),
        ),
{
    match unpack_token_account(data) {
        Some((mint, amount)) => Some((encode_base58(&mint), amount)),
        None => None,
    }
}

pub open spec fn spec_is_space(c: char) -> bool {
    c == ' ' || c == '\t' || c == '\n' || c == '\r'
}

fn is_space(c: char) -> (r: bool)
    ensures
        r == spec_is_space(c),
{
    c == ' ' || c == '\t' || c == '\n' || c == '\r'
}

pub open spec fn spec_skip_spaces(s: Seq<char>) -> Seq<char>
    decreases s.len(),
{
    if s.len() > 0 && spec_is_space(s[0]) {
        spec_skip_spaces(s.drop_first())
    } else {
        s
    }
}

pub open spec fn spec_word_len(s: Seq<char>) -> int
    decreases s.len(),
{
    if s.len() > 0 && !spec_is_space(s[0]) {
        1 + spec_word_len(s.drop_first())
    } else {
        0
    }
}

/// The first whitespace-separated word of a text (whitespace here is
/// the four ASCII blank characters); empty when the text is empty or
/// all whitespace.
pub open spec fn spec_first_word(s: Seq<char>) -> Seq<char> {
    spec_skip_spaces(s).take(spec_word_len(spec_skip_spaces(s)))
}

proof fn lemma_skip_spaces_at(s: Seq<char>, i: int)
    requires
        0 <= i <= s.len(),
        forall|k: int| 0 <= k < i ==> spec_is_space(#[trigger] s[k]),
        i < s.len() ==> !spec_is_space(s[i]),
    ensures
        spec_skip_spaces(s) =~= s.skip(i),
    decreases i,
{
    if i == 0 {
        assert(s.skip(0) =~= s);
    } else {
        assert(spec_is_space(s[0]));
        lemma_skip_spaces_at(s.drop_first(), i - 1);
        assert(s.drop_first().skip(i - 1) =~= s.skip(i));
    }
}

proof fn lemma_word_len_at(s: Seq<char>, j: int)
    requires
        0 <= j <= s.len(),
        forall|k: int| 0 <= k < j ==> !spec_is_space(#[trigger] s[k]),
        j < s.len() ==> spec_is_space(s[j]),
    ensures
        spec_word_len(s) == j,
    decreases j,
{
    if j == 0 {
    } else {
        assert(!spec_is_space(s[0]));
        lemma_word_len_at(s.drop_first(), j - 1);
    }
}

/// The display symbol of a discovered token: the first word of its
/// metadata name when one is present and non-blank, otherwise the
/// first eight characters of its mint identifier.
pub open spec fn spec_symbol(name: Option<Seq<char>>, mint: Seq<char>) -> Seq<char> {
    let fallback = mint.take(
        if mint.len() < 8 {
            mint.len() as int
        } else {
            8
        },
    );
    match name {
        Some(n) => if spec_first_word(n).len() > 0 {
            spec_first_word(n)
        } else {
            fallback
        },
        None => fallback,
    }
}

/// Derives the display symbol; see [`spec_symbol`].
pub fn derive_symbol(name: &Option<String>, mint: &str) -> (r: String)
    ensures
        r@ == spec_symbol(
            match name {
                Some(n) => Some(n@),
                None => None,
            },
            mint@,
        ),
{
    let mint_len = mint.unicode_len();
    let take = if mint_len < 8 {
        mint_len
    } else {
        8
    };
    let fallback = mint.substring_char(0, take);
    match name {
        None => fallback.to_owned(),
        Some(n) => {
            let ns: &str = n.as_str();
            let len = ns.unicode_len();
            let mut i: usize = 0;
            while i < len && is_space(ns.get_char(i))
                invariant
                    ns@ == n@,
                    len == n@.len(),
                    i <= len,
                    forall|k: int| 0 <= k < i ==> spec_is_space(#[trigger] n@[k]),
                decreases len - i,
            {
                i += 1;
            }
            proof {
                lemma_skip_spaces_at(n@, i as int);
            }
            let mut j: usize = i;
            while j < len && !is_space(ns.get_char(j))
                invariant
                    ns@ == n@,
                    len == n@.len(),
                    i <= j <= len,
                    forall|k: int| i <= k < j ==> !spec_is_space(#[trigger] n@[k]),
                decreases len - j,
            {
                j += 1;
            }
            proof {
                let tail = n@.skip(i as int);
                assert forall|k: int| 0 <= k < j - i implies !spec_is_space(#[trigger] tail[k]) by {
                    assert(tail[k] == n@[k + i]);
                }
                if (j - i) < tail.len() {
                    assert(tail[j - i] == n@[j as int]);
                }
                lemma_word_len_at(tail, j - i);
            }
            if j > i {
                let word = ns.substring_char(i, j);
                proof {
                    assert(word@ =~= spec_first_word(n@));
                }
                word.to_owned()
            } else {
                proof {
                    assert(spec_first_word(n@).len() == 0);
                }
                fallback.to_owned()
            }
        },
    }
}

/// The outcome of resolving one discovered token account.
///
/// `Failed` records that the account's contents could not be fetched.
/// In `Fetched`, `data` carries the account's raw bytes (which may
/// still turn out corrupt), and `price` and `metadata` are the
/// provider outcomes for the account's mint, `None` where a provider
/// failed.
pub enum SolanaAccountOutcome {
    Failed,
    Fetched {
        data: Vec<u8>,
        price: Option<(u64, Option<i64>)>,
        metadata: Option<TokenMetadata>,
    },
}

/// Mathematical image of a [`SolanaAccountOutcome`].
pub enum SolanaAccountModel {
    Failed,
    Fetched {
        data: Seq<u8>,
        price: Option<(u64, Option<i64>)>,
        metadata: Option<TokenMetadataModel>,
    },
}

impl View for SolanaAccountOutcome {
    type V = SolanaAccountModel;

    open spec fn view(&self) -> SolanaAccountModel {
        match self {
            SolanaAccountOutcome::Failed => SolanaAccountModel::Failed,
            SolanaAccountOutcome::Fetched { data, price, metadata } => SolanaAccountModel::Fetched {
                data: data@,
                price: *price,
                metadata: match metadata {
                    Some(m) => Some(m@),
                    None => None,
                },
            },
        }
    }
}

/// Decimals applied to discovered accounts: the mint's own decimals
/// live in the mint account, which this fetch does not consult, so a
/// common default is applied (a known precision gap for mints with a
/// different scale).
pub open spec fn spec_default_decimals() -> u8 {
    9
}

/// The (token identifier, outcome) pair one account contributes to the
/// shared assembly: an unfetchable or corrupt account becomes a failed
/// candidate (and is skipped); a decodable one yields its mint, its
/// little-endian amount, the default decimals and a symbol derived
/// from the metadata name or the mint.
pub open spec fn spec_account_result(a: SolanaAccountModel) -> (Seq<char>, TokenQueryModel) {
    match a {
        SolanaAccountModel::Failed => (Seq::empty(), TokenQueryModel::Failed),
        SolanaAccountModel::Fetched { data, price, metadata } => {
            if spec_valid_token_account(data) {
                let mint = base58_of(data.subrange(0, 32));
                let name = match metadata {
                    Some(m) => m.name,
                    None => None,
                };
                (
                    mint,
                    TokenQueryModel::Resolved {
                        amount: spec_le_u64(data.subrange(64, 72)),
                        decimals: spec_default_decimals(),
                        symbol: spec_symbol(name, mint),
                        price,
                        metadata,
                    },
                )
            } else {
                (Seq::empty(), TokenQueryModel::Failed)
            }
        },
    }
}

pub open spec fn spec_account_results(s: Seq<SolanaAccountModel>) -> Seq<
    (Seq<char>, TokenQueryModel),
> {
    Seq::new(s.len(), |i: int| spec_account_result(s[i]))
}

fn clone_opt_metadata(m: &Option<TokenMetadata>) -> (r: Option<TokenMetadata>)
    ensures
        (match r {
            Some(v) => Some(v@),
            None => None,
        }) == (match m {
            Some(v) => Some(v@),
            None => None,
        }),
{
    match m {
        Some(v) => Some(v.clone()),
        None => None,
    }
}

/// The token-account backend: candidates are discovered by enumerating
/// the program-owned token accounts of an address, an open-ended
/// enumeration with no fixed list.
pub struct SolanaClient {
    pub rpc_url: String,
    pub config: Config,
}

impl SolanaClient {
    pub fn new(rpc_url: String, config: Config) -> (client: SolanaClient)
        ensures
            client.rpc_url@ == rpc_url@,
            client.config == config,
    {
        SolanaClient { rpc_url, config }
    }

    /// The pure tail of a portfolio fetch: given the lamport balance,
    /// the native price outcome and every discovered account's
    /// outcome, builds the snapshot.  An account whose fetch failed or
    /// whose data does not decode is skipped without failing the
    /// fetch; zero balances are filtered; provider failures default to
    /// a zero price and absent metadata.
    pub fn assemble_portfolio(
        &self,
        address: &str,
        lamports: u64,
        native_price: Option<(u64, Option<i64>)>,
        accounts: &Vec<SolanaAccountOutcome>,
        now: u64,
    ) -> (p: PortfolioResponse)
        requires
            accounts@.len() < usize::MAX,
        ensures
            p.wf(),
            p@ == spec_assembled_portfolio(
                Chain::Solana,
                address@,
                lamports,
                native_price,
                spec_account_results(accounts@.map(|_i: int, a: SolanaAccountOutcome| a@)),
                now,
            ),
    {
        let ghost ams = accounts@.map(|_i: int, a: SolanaAccountOutcome| a@);
        let mut results: Vec<(String, TokenQueryResult)> = Vec::new();
        let mut i: usize = 0;
        while i < accounts.len()
            invariant
                ams == accounts@.map(|_i: int, a: SolanaAccountOutcome| a@),
                i <= accounts@.len(),
                results@.len() == i,
                view_results(results@) =~= spec_account_results(ams).take(i as int),
            decreases accounts@.len() - i,
        {
            let account = &accounts[i];
            match account {
                SolanaAccountOutcome::Failed => {
                    results.push((String::new(), TokenQueryResult::Failed));
                },
                SolanaAccountOutcome::Fetched { data, price, metadata } => {
                    match decode_account(data) {
                        None => {
                            results.push((String::new(), TokenQueryResult::Failed));
                        },
                        Some((mint, amount)) => {
                            let name: &Option<String> = match metadata {
                                Some(m) => &m.name,
                                None => &None,
                            };
                            let symbol = derive_symbol(name, mint.as_str());
                            let entry = TokenQueryResult::Resolved {
                                amount,
                                decimals: 9,
                                symbol,
                                price: *price,
                                metadata: clone_opt_metadata(metadata),
                            };
                            results.push((mint, entry));
                        },
                    }
                },
            }
            proof {
                assert(ams[i as int] == accounts@[i as int]@);
                assert(view_results(results@) =~= spec_account_results(ams).take(i + 1));
            }
            i += 1;
        }
        proof {
            assert(spec_account_results(ams).take(ams.len() as int) =~= spec_account_results(ams));
        }
        assemble(Chain::Solana, address, lamports, native_price, &results, now)
    }

    /// Shapes at most `limit` of the most recent signature records
    /// (newest first, order kept) into transaction records; a
    /// signature whose transaction could not be retrieved is skipped.
    pub fn fetch_transactions(
        &self,
        address: &str,
        signatures: &Vec<SignatureRecord>,
        limit: usize,
    ) -> (r: Result<Vec<Transaction>, AppError>)
        ensures
            match r {
                Ok(v) => spec_valid_solana_address(address@) && Seq::new(
                    v@.len(),
                    |j: int| v@[j]@,
                ) == spec_transactions(
                    address@,
                    signatures@.map(|_i: int, s: SignatureRecord| s@),
                    limit as int,
                ),
                Err(e) => !spec_valid_solana_address(address@) && e matches AppError::InvalidAddress(
                    _,
                ),
            },
    {
        if !is_valid_solana_address(address) {
            return Err(AppError::InvalidAddress(address.to_owned()));
        }
        let ghost sms = signatures@.map(|_i: int, s: SignatureRecord| s@);
        let mut txs: Vec<Transaction> = Vec::new();
        let mut i: usize = 0;
        proof {
            assert(sms.skip(0) =~= sms);
        }
        while i < signatures.len() && i < limit
            invariant
                sms == signatures@.map(|_i: int, s: SignatureRecord| s@),
                i <= signatures@.len(),
                i <= limit,
                spec_transactions(address@, sms, limit as int) =~= Seq::new(
                    txs@.len(),
                    |j: int| txs@[j]@,
                ) + spec_transactions(address@, sms.skip(i as int), limit - i),
            decreases signatures@.len() - i,
        {
            let s = &signatures[i];
            proof {
                assert(sms.skip(i as int).first() == s@);
                assert(sms.skip(i as int).drop_first() =~= sms.skip(i + 1));
            }
            if s.retrievable {
                let tx = Transaction {
                    hash: s.signature.clone(),
                    timestamp: match s.block_time {
                        Some(t) => t,
                        None => 0,
                    },
                    transaction_type: "transfer".to_owned(),
                    amount: 0,
                    token_symbol: "SOL".to_owned(),
                    chain: Chain::Solana,
                    status: if s.failed {
                        "failed".to_owned()
                    } else {
                        "success".to_owned()
                    },
                    from: address.to_owned(),
                    to: address.to_owned(),
                };
                proof {
                    assert(tx@ == spec_transaction_of(address@, s@));
                }
                txs.push(tx);
            }
            i += 1;
        }
        proof {
            if i < signatures@.len() {
                assert(limit - i == 0);
            } else {
                assert(sms.skip(i as int).len() == 0);
            }
            assert(spec_transactions(address@, sms, limit as int) =~= Seq::new(
                txs@.len(),
                |j: int| txs@[j]@,
            ));
        }
        Ok(txs)
    }
}

/// What the chain reports about one historical signature: the
/// signature itself, the block time if known, whether the transaction
/// failed on chain, and whether its details could be retrieved.
pub struct SignatureRecord {
    pub signature: String,
    pub block_time: Option<i64>,
    pub failed: bool,
    pub retrievable: bool,
}

/// Mathematical image of a [`SignatureRecord`].
pub struct SignatureRecordModel {
    pub signature: Seq<char>,
    pub block_time: Option<i64>,
    pub failed: bool,
    pub retrievable: bool,
}

impl View for SignatureRecord {
    type V = SignatureRecordModel;

    open spec fn view(&self) -> SignatureRecordModel {
        SignatureRecordModel {
            signature: self.signature@,
            block_time: self.block_time,
            failed: self.failed,
            retrievable: self.retrievable,
        }
    }
}

/// The transaction record shaped from one signature: a transfer of the
/// native asset, successful unless the chain marked it failed, with
/// the queried address standing on both ends (the counterparty is not
/// resolved).
pub open spec fn spec_transaction_of(address: Seq<char>, s: SignatureRecordModel) -> TransactionModel {
    TransactionModel {
        hash: s.signature,
        timestamp: match s.block_time {
            Some(t) => t,
            None => 0,
        },
        transaction_type: "transfer"@,
        amount: 0,
        token_symbol: "SOL"@,
        chain: Chain::Solana,
        status: if s.failed {
            "failed"@
        } else {
            "success"@
        },
        from: address,
        to: address,
    }
}

/// The transactions shaped from the first `limit` signature records,
/// in order, keeping those whose details could be retrieved.
pub open spec fn spec_transactions(
    address: Seq<char>,
    rs: Seq<SignatureRecordModel>,
    limit: int,
) -> Seq<TransactionModel>
    decreases rs.len(),
{
    if rs.len() == 0 || limit <= 0 {
        Seq::empty()
    } else {
        let rest = spec_transactions(address, rs.drop_first(), limit - 1);
        if rs.first().retrievable {
            seq![spec_transaction_of(address, rs.first())] + rest
        } else {
            rest
        }
    }
}

} // verus!
