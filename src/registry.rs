use vstd::prelude::*;
use crate::ident::{decimal, decimal_string, lemma_decimal_injective, next_counter, next_token_id};
use crate::metadata::{generate_metadata, opt_str, synthesized, MetadataView, TokenMetadata};
use crate::settlement::{check_payment, refund_deposit, settlement_of, IssueError, Settlement};

verus! {

/// The metadata standard version a registry declares by default.
pub const NFT_METADATA_SPEC: &'static str = "nft-1.0.0";

/// The artwork base URI of the default registry.
pub const DEFAULT_BASE_URI: &'static str =
    "https://gateway.pinata.cloud/ipfs/QmZxPLVrYwbXLiDaqUMo9ewjm8FXQ4ci5SPBCfab3RYcEb/";

/// The view of `DEFAULT_BASE_URI`.
pub open spec fn default_base_uri() -> Seq<char> {
    DEFAULT_BASE_URI@
}

/// The price of one record in a registry made by `new`: 5 units of 10^24.
pub const DEFAULT_PRICE: u128 = 5_000_000_000_000_000_000_000_000;

/// Registry-wide descriptive metadata.
#[derive(Debug, Clone)]
pub struct ContractMetadata {
    pub spec: String,
    pub name: String,
    pub symbol: String,
    pub icon: Option<String>,
    pub base_uri: Option<String>,
    pub reference: Option<String>,
    pub reference_hash: Option<Vec<u8>>,
}

/// Registry metadata a registry can be created with: a base URI to derive
/// artwork URIs from, the supported metadata standard version, and a
/// reference exactly when there is a reference hash, which is 32 bytes.
pub open spec fn config_valid(m: ContractMetadata) -> bool {
    &&& m.base_uri is Some
    &&& m.spec@ == NFT_METADATA_SPEC@
    &&& (m.reference is Some) == (m.reference_hash is Some)
    &&& (m.reference_hash matches Some(h) ==> h@.len() == 32)
}

/// The creation-time check: fails with `ConfigurationError` unless the
/// metadata is valid for a registry.
pub fn check_configuration(metadata: &ContractMetadata) -> (r: Result<(), IssueError>)
    ensures
        r == (if config_valid(*metadata) {
            Ok::<(), IssueError>(())
        } else {
            Err(IssueError::ConfigurationError)
        }),
{
    if metadata.base_uri.is_none() {
        return Err(IssueError::ConfigurationError);
    }
    if metadata.spec != String::from_str(NFT_METADATA_SPEC) {
        return Err(IssueError::ConfigurationError);
    }
    if metadata.reference.is_some() != metadata.reference_hash.is_some() {
        return Err(IssueError::ConfigurationError);
    }
    match &metadata.reference_hash {
        Some(h) => {
            if h.len() != 32 {
                return Err(IssueError::ConfigurationError);
            }
        },
        None => {},
    }
    Ok(())
}

/// One issued record: identifier, owner, metadata and approvals.
#[derive(Debug, Clone)]
pub struct Token {
    pub token_id: String,
    pub owner_id: String,
    pub metadata: Option<TokenMetadata>,
    pub approved_account_ids: Option<Vec<(String, u64)>>,
}

/// The mathematical content of a `Token`.
pub struct TokenView {
    pub token_id: Seq<char>,
    pub owner_id: Seq<char>,
    pub metadata: Option<MetadataView>,
    pub approved_account_ids: Option<Seq<(Seq<char>, u64)>>,
}

impl View for Token {
    type V = TokenView;

    open spec fn view(&self) -> TokenView {
        TokenView {
            token_id: self.token_id@,
            owner_id: self.owner_id@,
            metadata: match self.metadata {
                Some(m) => Some(m@),
                None => None,
            },
            approved_account_ids: match self.approved_account_ids {
                Some(v) => Some(v@.map_values(|p: (String, u64)| (p.0@, p.1))),
                None => None,
            },
        }
    }
}

/// The record issued as number `n` to `receiver` under `base_uri` at time
/// `issued_at`: its identifier is `n` in decimal, and it has no approvals.
pub open spec fn issued_token(
    n: nat,
    receiver: Seq<char>,
    base_uri: Seq<char>,
    issued_at: u64,
) -> TokenView {
    TokenView {
        token_id: decimal(n),
        owner_id: receiver,
        metadata: Some(synthesized(decimal(n), base_uri, issued_at)),
        approved_account_ids: Some(Seq::empty()),
    }
}

/// A completed purchase: the new record and the amounts to move.
#[derive(Debug, Clone)]
pub struct Purchase {
    pub token: Token,
    pub settlement: Settlement,
}

/// The registry: configuration, identifier counter and record store.
/// Record number `i + 1` is stored at position `i`.
pub struct Contract {
    owner_id: String,
    metadata: ContractMetadata,
    current_token_id: u16,
    price: u128,
    tokens: Vec<Token>,
}

impl Contract {
    /// The last identifier issued (0 before the first issuance).
    pub closed spec fn counter(&self) -> nat {
        self.current_token_id as nat
    }

    /// The fixed price per issuance.
    pub closed spec fn price_spec(&self) -> u128 {
        self.price
    }

    /// The base URI used to derive artwork URIs.
    pub closed spec fn base_uri_spec(&self) -> Seq<char> {
        match self.metadata.base_uri {
            Some(s) => s@,
            None => Seq::empty(),
        }
    }

    /// The account that receives the price of every issuance.
    pub closed spec fn beneficiary(&self) -> Seq<char> {
        self.owner_id@
    }

    /// The stored records, in order of issuance.
    pub closed spec fn records(&self) -> Seq<TokenView> {
        self.tokens@.map_values(|t: Token| t@)
    }

    /// The registry-wide metadata.
    pub closed spec fn contract_metadata(&self) -> ContractMetadata {
        self.metadata
    }

    /// The store holds exactly the records numbered 1 to the counter, each
    /// under its own identifier, and a base URI is configured.
    pub closed spec fn well_formed(&self) -> bool {
        &&& self.metadata.base_uri is Some
        &&& self.tokens@.len() == self.current_token_id as nat
        &&& forall|i: int|
            0 <= i < self.tokens@.len() ==> (#[trigger] self.tokens@[i])@.token_id == decimal(
                (i + 1) as nat,
            )
    }

    /// The owner of record number `n`, if it has been issued.
    pub open spec fn owner_of(&self, n: nat) -> Option<Seq<char>> {
        if 1 <= n <= self.records().len() {
            Some(self.records()[n - 1].owner_id)
        } else {
            None
        }
    }

    /// The numbers of the records that `owner` holds.
    pub open spec fn owner_index(&self, owner: Seq<char>) -> Set<nat> {
        Set::new(|n: nat| self.owner_of(n) == Some(owner))
    }

    /// Creates a registry with the given price. Fails with
    /// `ConfigurationError` unless `metadata` is valid for a registry.
    pub fn new_with_price(owner_id: String, metadata: ContractMetadata, price: u128) -> (r: Result<
        Contract,
        IssueError,
    >)
        ensures
            !config_valid(metadata) <==> r == Err::<Contract, IssueError>(
                IssueError::ConfigurationError,
            ),
            config_valid(metadata) ==> r is Ok,
            r matches Ok(c) ==> {
                &&& c.well_formed()
                &&& c.counter() == 0
                &&& c.price_spec() == price
                &&& c.beneficiary() == owner_id@
                &&& Some(c.base_uri_spec()) == opt_str(metadata.base_uri)
                &&& c.contract_metadata() == metadata
                &&& c.records().len() == 0
            },
    {
        check_configuration(&metadata)?;
        let c = Contract { owner_id, metadata, current_token_id: 0, price, tokens: Vec::new() };
        proof {
            assert(c.records() =~= Seq::<TokenView>::empty());
        }
        Ok(c)
    }

    /// Creates a registry priced at `DEFAULT_PRICE`. Fails with
    /// `ConfigurationError` unless `metadata` is valid for a registry.
    pub fn new(owner_id: String, metadata: ContractMetadata) -> (r: Result<Contract, IssueError>)
        ensures
            !config_valid(metadata) <==> r == Err::<Contract, IssueError>(
                IssueError::ConfigurationError,
            ),
            config_valid(metadata) ==> r is Ok,
            r matches Ok(c) ==> {
                &&& c.well_formed()
                &&& c.counter() == 0
                &&& c.price_spec() == DEFAULT_PRICE
                &&& c.beneficiary() == owner_id@
                &&& Some(c.base_uri_spec()) == opt_str(metadata.base_uri)
                &&& c.contract_metadata() == metadata
                &&& c.records().len() == 0
            },
    {
        Self::new_with_price(owner_id, metadata, DEFAULT_PRICE)
    }

    /// Creates the default registry: priced at `DEFAULT_PRICE`, with the
    /// collection's name, symbol and artwork base URI.
    pub fn new_default_meta(owner_id: String) -> (c: Contract)
        ensures
            c.well_formed(),
            c.counter() == 0,
            c.price_spec() == DEFAULT_PRICE,
            c.beneficiary() == owner_id@,
            c.base_uri_spec() == default_base_uri(),
            c.records().len() == 0,
            c.contract_metadata().spec@ == NFT_METADATA_SPEC@,
            c.contract_metadata().name@ == "FEEEEM NFT V1"@,
            c.contract_metadata().symbol@ == "FEEM"@,
            c.contract_metadata().icon is None,
            opt_str(c.contract_metadata().base_uri) == Some(default_base_uri()),
            c.contract_metadata().reference is None,
            c.contract_metadata().reference_hash is None,
    {
        let metadata = ContractMetadata {
            spec: String::from_str(NFT_METADATA_SPEC),
            name: String::from_str("FEEEEM NFT V1"),
            symbol: String::from_str("FEEM"),
            icon: None,
            base_uri: Some(String::from_str(DEFAULT_BASE_URI)),
            reference: None,
            reference_hash: None,
        };
        let c = Contract {
            owner_id,
            metadata,
            current_token_id: 0,
            price: DEFAULT_PRICE,
            tokens: Vec::new(),
        };
        proof {
            assert(c.records() =~= Seq::<TokenView>::empty());
        }
        c
    }

    /// The number of the next record, one past the counter.
    fn get_current_token_id(&self) -> (n: u16)
        requires
            next_counter(self.current_token_id) is Some,
        ensures
            next_counter(self.current_token_id) == Some(n),
    {
        self.current_token_id + 1
    }

    /// Advances the counter by one.
    fn increase_token_id(&mut self)
        requires
            next_counter(old(self).current_token_id) is Some,
        ensures
            next_counter(old(self).current_token_id) == Some(final(self).current_token_id),
            final(self).owner_id == old(self).owner_id,
            final(self).metadata == old(self).metadata,
            final(self).price == old(self).price,
            final(self).tokens == old(self).tokens,
    {
        self.current_token_id = self.current_token_id + 1;
    }

    /// Issues the next record to `receiver_id`: allocates its identifier,
    /// synthesizes its metadata and stores it.
    fn mint_one(&mut self, receiver_id: String, issued_at: u64) -> (t: Token)
        requires
            old(self).well_formed(),
            next_counter(old(self).current_token_id) is Some,
        ensures
            final(self).well_formed(),
            final(self).counter() == old(self).counter() + 1,
            t@ == issued_token(
                old(self).counter() + 1,
                receiver_id@,
                old(self).base_uri_spec(),
                issued_at,
            ),
            final(self).records() == old(self).records().push(t@),
            final(self).price_spec() == old(self).price_spec(),
            final(self).beneficiary() == old(self).beneficiary(),
            final(self).base_uri_spec() == old(self).base_uri_spec(),
            final(self).contract_metadata() == old(self).contract_metadata(),
    {
        let n = self.get_current_token_id();
        let token_id = decimal_string(n as u64);
        let base_uri = match &self.metadata.base_uri {
            Some(b) => b.as_str(),
            None => "",
        };
        let stored_meta = generate_metadata(token_id.as_str(), base_uri, issued_at);
        let meta = generate_metadata(token_id.as_str(), base_uri, issued_at);
        let stored = Token {
            token_id: token_id.clone(),
            owner_id: receiver_id.clone(),
            metadata: Some(stored_meta),
            approved_account_ids: Some(Vec::new()),
        };
        let t = Token {
            token_id,
            owner_id: receiver_id,
            metadata: Some(meta),
            approved_account_ids: Some(Vec::new()),
        };
        proof {
            assert(t@.approved_account_ids.unwrap() =~= Seq::empty());
            assert(stored@.approved_account_ids.unwrap() =~= Seq::empty());
            assert(stored@ == t@);
        }
        let ghost old_tokens = self.tokens@;
        self.tokens.push(stored);
        self.increase_token_id();
        proof {
            assert(self.records() =~= old(self).records().push(t@));
            assert forall|i: int| 0 <= i < self.tokens@.len() implies (
            #[trigger] self.tokens@[i])@.token_id == decimal((i + 1) as nat) by {
                if i < old_tokens.len() {
                    assert(self.tokens@[i] == old_tokens[i]);
                }
            }
        }
        t
    }

    /// Sells one record to `receiver_id`. The price is checked against the
    /// attached funds first, then the counter, then the storage rent of the
    /// `storage_delta` bytes the record occupies at `byte_cost` each. Only
    /// when all pass is the record issued; on any error the registry is
    /// unchanged.
    pub fn buy_nft_one(
        &mut self,
        receiver_id: String,
        attached_deposit: u128,
        storage_delta: u64,
        byte_cost: u128,
        issued_at: u64,
    ) -> (r: Result<Purchase, IssueError>)
        requires
            old(self).well_formed(),
        ensures
            final(self).well_formed(),
            r is Err ==> *final(self) == *old(self),
            r is Err ==> final(self).owner_of(old(self).counter() + 1) is None,
            attached_deposit < old(self).price_spec() ==> r == Err::<Purchase, IssueError>(
                IssueError::InsufficientPayment { price: old(self).price_spec() },
            ),
            attached_deposit >= old(self).price_spec() && old(self).counter() == u16::MAX ==> r
                == Err::<Purchase, IssueError>(IssueError::AllocatorExhausted),
            attached_deposit >= old(self).price_spec() && old(self).counter() != u16::MAX ==> match settlement_of(
                attached_deposit,
                old(self).price_spec(),
                storage_delta,
                byte_cost,
            ) {
                Err(e) => r == Err::<Purchase, IssueError>(e),
                Ok(s) => r matches Ok(p) && {
                    &&& p.settlement == s
                    &&& p.token@ == issued_token(
                        old(self).counter() + 1,
                        receiver_id@,
                        old(self).base_uri_spec(),
                        issued_at,
                    )
                    &&& final(self).counter() == old(self).counter() + 1
                    &&& final(self).records() == old(self).records().push(p.token@)
                    &&& final(self).price_spec() == old(self).price_spec()
                    &&& final(self).beneficiary() == old(self).beneficiary()
                    &&& final(self).base_uri_spec() == old(self).base_uri_spec()
                    &&& final(self).contract_metadata() == old(self).contract_metadata()
                    &&& final(self).owner_of(old(self).counter() + 1) == Some(receiver_id@)
                    &&& final(self).owner_index(receiver_id@) == old(self).owner_index(
                        receiver_id@,
                    ).insert(old(self).counter() + 1)
                    &&& forall|o: Seq<char>|
                        o != receiver_id@ ==> #[trigger] final(self).owner_index(o)
                            == old(self).owner_index(o)
                },
            },
    {
        check_payment(attached_deposit, self.price)?;
        next_token_id(self.current_token_id)?;
        let settlement = refund_deposit(attached_deposit, self.price, storage_delta, byte_cost)?;
        let ghost receiver = receiver_id@;
        let token = self.mint_one(receiver_id, issued_at);
        proof {
            let n = old(self).counter() + 1;
            assert(self.owner_of(n) == Some(receiver));
            assert(self.owner_index(receiver) =~= old(self).owner_index(receiver).insert(n));
            assert forall|o: Seq<char>| o != receiver implies #[trigger] self.owner_index(o)
                == old(self).owner_index(o) by {
                assert(self.owner_index(o) =~= old(self).owner_index(o));
            }
        }
        Ok(Purchase { token, settlement })
    }

    /// The fixed price per issuance.
    pub fn price(&self) -> (r: u128)
        ensures
            r == self.price_spec(),
    {
        self.price
    }

    /// The last identifier issued, as a number (0 before the first).
    pub fn current_token_id(&self) -> (r: u16)
        ensures
            r as nat == self.counter(),
    {
        self.current_token_id
    }

    /// The base URI used to derive artwork URIs.
    pub fn base_uri(&self) -> (r: &str)
        requires
            self.well_formed(),
        ensures
            r@ == self.base_uri_spec(),
    {
        match &self.metadata.base_uri {
            Some(b) => b.as_str(),
            None => "",
        }
    }

    /// The registry-wide metadata.
    pub fn nft_metadata(&self) -> (r: &ContractMetadata)
        ensures
            *r == self.contract_metadata(),
    {
        &self.metadata
    }

    /// The number of records issued.
    pub fn nft_total_supply(&self) -> (r: usize)
        requires
            self.well_formed(),
        ensures
            r == self.records().len(),
            r == self.counter(),
    {
        self.tokens.len()
    }

    /// The numbers of the records that `account` holds, in increasing order.
    pub fn nft_tokens_for_owner(&self, account: &String) -> (r: Vec<u64>)
        ensures
            r@.map_values(|x: u64| x as nat) == owned_upto(
                self.records(),
                account@,
                self.records().len(),
            ),
            forall|n: nat|
                self.owner_index(account@).contains(n) <==> r@.map_values(|x: u64| x as nat).contains(n),
    {
        let mut out: Vec<u64> = Vec::new();
        let mut i: usize = 0;
        while i < self.tokens.len()
            invariant
                i <= self.tokens@.len(),
                out@.map_values(|x: u64| x as nat) == owned_upto(self.records(), account@, i as nat),
            decreases self.tokens@.len() - i,
        {
            let ghost before = out@;
            if self.tokens[i].owner_id == *account {
                out.push((i + 1) as u64);
            }
            proof {
                assert(self.records()[i as int].owner_id == self.tokens@[i as int].owner_id@);
                assert(out@.map_values(|x: u64| x as nat) =~= owned_upto(
                    self.records(),
                    account@,
                    (i + 1) as nat,
                )) by {
                    assert(before.map_values(|x: u64| x as nat) == owned_upto(self.records(), account@, i as nat));
                }
            }
            i = i + 1;
        }
        proof {
            lemma_owned_upto(self.records(), account@, self.records().len());
            assert forall|n: nat|
                self.owner_index(account@).contains(n) <==> out@.map_values(|x: u64| x as nat).contains(n) by {
                assert(self.owner_index(account@).contains(n) <==> self.owner_of(n) == Some(account@));
            }
        }
        out
    }

    /// The record numbered `n`, if it has been issued.
    pub fn nft_token(&self, n: u64) -> (r: Option<&Token>)
        ensures
            r is Some <==> 1 <= n <= self.records().len(),
            r matches Some(t) ==> t@ == self.records()[n - 1],
    {
        if n >= 1 && n <= self.tokens.len() as u64 {
            Some(&self.tokens[(n - 1) as usize])
        } else {
            None
        }
    }

    /// The account that receives the price of every issuance.
    pub fn get_owner(&self) -> (r: String)
        ensures
            r@ == self.beneficiary(),
    {
        self.owner_id.clone()
    }
}

/// The numbers among the first `k` records whose owner is `owner`, in
/// increasing order.
pub open spec fn owned_upto(recs: Seq<TokenView>, owner: Seq<char>, k: nat) -> Seq<nat>
    decreases k,
{
    if k == 0 {
        Seq::empty()
    } else {
        owned_upto(recs, owner, (k - 1) as nat) + if recs[k - 1].owner_id == owner {
            seq![k]
        } else {
            Seq::empty()
        }
    }
}

proof fn lemma_owned_upto(recs: Seq<TokenView>, owner: Seq<char>, k: nat)
    requires
        k <= recs.len(),
    ensures
        forall|n: nat|
            owned_upto(recs, owner, k).contains(n) <==> (1 <= n <= k && recs[n - 1].owner_id
                == owner),
    decreases k,
{
    if k > 0 {
        lemma_owned_upto(recs, owner, (k - 1) as nat);
        let prev = owned_upto(recs, owner, (k - 1) as nat);
        let last: Seq<nat> = if recs[k - 1].owner_id == owner {
            seq![k]
        } else {
            Seq::empty()
        };
        let all = owned_upto(recs, owner, k);
        assert(all == prev + last);
        assert forall|n: nat|
            owned_upto(recs, owner, k).contains(n) <==> (1 <= n <= k && recs[n - 1].owner_id
                == owner) by {
            if all.contains(n) {
                let j = choose|j: int| 0 <= j < all.len() && all[j] == n;
                if j < prev.len() {
                    assert(prev[j] == n);
                    assert(prev.contains(n));
                } else {
                    assert(last[j - prev.len()] == n);
                }
            }
            if 1 <= n <= k && recs[n - 1].owner_id == owner {
                if n < k {
                    assert(prev.contains(n));
                    let j = choose|j: int| 0 <= j < prev.len() && prev[j] == n;
                    assert(all[j] == n);
                } else {
                    assert(all[prev.len() as int] == n);
                }
            }
        }
    }
}

/// In a well-formed registry the records are numbered 1, 2, ... up to the
/// counter, each identifier is its number in decimal, no identifier occurs
/// twice, and the identifier the next issuance takes is not yet in use.
pub proof fn lemma_issued_ids(c: &Contract)
    requires
        c.well_formed(),
    ensures
        c.records().len() == c.counter(),
        c.counter() <= u16::MAX,
        forall|i: int|
            0 <= i < c.records().len() ==> #[trigger] c.records()[i].token_id != decimal(
                c.counter() + 1,
            ),
        forall|i: int|
            0 <= i < c.records().len() ==> #[trigger] c.records()[i].token_id == decimal(
                (i + 1) as nat,
            ),
        forall|i: int, j: int|
            0 <= i < c.records().len() && 0 <= j < c.records().len() && i != j
                ==> c.records()[i].token_id != c.records()[j].token_id,
{
    reveal(Contract::well_formed);
    reveal(Contract::records);
    reveal(Contract::counter);
    assert forall|i: int| 0 <= i < c.records().len() implies #[trigger] c.records()[i].token_id
        == decimal((i + 1) as nat) by {
        assert(c.tokens@[i]@.token_id == decimal((i + 1) as nat));
    }
    assert forall|i: int, j: int|
        0 <= i < c.records().len() && 0 <= j < c.records().len() && i != j implies c.records()[i].token_id
        != c.records()[j].token_id by {
        assert(c.records()[i].token_id == decimal((i + 1) as nat));
        assert(c.records()[j].token_id == decimal((j + 1) as nat));
        if decimal((i + 1) as nat) == decimal((j + 1) as nat) {
            lemma_decimal_injective((i + 1) as nat, (j + 1) as nat);
        }
    }
    assert forall|i: int| 0 <= i < c.records().len() implies #[trigger] c.records()[i].token_id
        != decimal(c.counter() + 1) by {
        assert(c.records()[i].token_id == decimal((i + 1) as nat));
        if decimal((i + 1) as nat) == decimal(c.counter() + 1) {
            lemma_decimal_injective((i + 1) as nat, c.counter() + 1);
        }
    }
}

/// Over any run of successful purchases from a fresh registry, the k-th
/// purchase returns identifier k in decimal: the identifiers start at "1",
/// rise by exactly one each time and never repeat. `regs[i]` is the
/// registry before purchase `i`, and each step is what a successful
/// `buy_nft_one` ensures: the counter rises by one and the returned
/// identifier is the new counter value in decimal.
pub proof fn lemma_purchase_sequence(regs: Seq<Contract>, ids: Seq<Seq<char>>)
    requires
        regs.len() == ids.len() + 1,
        regs[0].counter() == 0,
        forall|i: int|
            0 <= i < ids.len() ==> {
                &&& #[trigger] regs[i + 1].counter() == regs[i].counter() + 1
                &&& ids[i] == decimal(regs[i].counter() + 1)
            },
    ensures
        forall|i: int| 0 <= i < ids.len() ==> #[trigger] ids[i] == decimal((i + 1) as nat),
        forall|i: int, j: int| 0 <= i < j < ids.len() ==> ids[i] != ids[j],
{
    assert forall|k: int| 0 <= k < regs.len() implies #[trigger] regs[k].counter() == k by {
        lemma_counter_at(regs, ids, k);
    }
    assert forall|i: int| 0 <= i < ids.len() implies #[trigger] ids[i] == decimal((i + 1) as nat) by {
        assert(regs[i].counter() == i);
        assert(regs[i + 1].counter() == regs[i].counter() + 1);
    }
    assert forall|i: int, j: int| 0 <= i < j < ids.len() implies ids[i] != ids[j] by {
        assert(ids[i] == decimal((i + 1) as nat));
        assert(ids[j] == decimal((j + 1) as nat));
        if ids[i] == ids[j] {
            lemma_decimal_injective((i + 1) as nat, (j + 1) as nat);
        }
    }
}

proof fn lemma_counter_at(regs: Seq<Contract>, ids: Seq<Seq<char>>, k: int)
    requires
        regs.len() == ids.len() + 1,
        regs[0].counter() == 0,
        forall|i: int|
            0 <= i < ids.len() ==> {
                &&& #[trigger] regs[i + 1].counter() == regs[i].counter() + 1
                &&& ids[i] == decimal(regs[i].counter() + 1)
            },
        0 <= k < regs.len(),
    ensures
        regs[k].counter() == k,
    decreases k,
{
    if k > 0 {
        lemma_counter_at(regs, ids, k - 1);
        assert(regs[(k - 1) + 1].counter() == regs[k - 1].counter() + 1);
    }
}

} // verus!
