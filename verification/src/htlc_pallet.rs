use vstd::prelude::*;

use crate::bytes::bytes_eq;
use crate::runtime::{ensure_signed, signer_of, AccountId, DispatchError, Origin};

verus! {

/// Balances of an asset.
pub type Balance = u128;

/// Asset ids of the generic asset module.
pub type AssetId = u64;

/// Moments in time, in milliseconds.
pub type Moment = u64;

/// The owner of a permission over an asset.
#[derive(Clone, Copy, Debug, PartialEq, Eq, Structural)]
pub enum Owner {
    /// No account.
    Nobody,
    Address(AccountId),
}

/// Who may update, mint and burn an asset.
#[derive(Clone, Copy, Debug, PartialEq, Eq, Structural)]
pub struct PermissionLatest {
    pub update: Owner,
    pub mint: Owner,
    pub burn: Owner,
}

/// The options an asset is created with.
#[derive(Clone, Copy, Debug, PartialEq, Eq, Structural)]
pub struct AssetOptions {
    pub initial_issuance: Balance,
    pub permissions: PermissionLatest,
}

/// A token: its ticker and the asset behind it.
#[derive(Debug)]
pub struct TokenInfo {
    pub ticker: Vec<u8>,
    pub asset_id: AssetId,
}

/// A hash-time-locked contract.
#[derive(Debug)]
pub struct HtlcContractInfo {
    pub buyer: AccountId,
    pub ticker: Vec<u8>,
    pub amount: Balance,
    pub expiration_in_ms: Moment,
    pub secret_hash: [u8; 32],
}

/// Names the SHA-256 digest of `data`.
pub uninterp spec fn sha256_of(data: Seq<u8>) -> Seq<u8>;

/// Calls `sha2::Sha256::digest`, the SHA-256 function that the runtime's
/// `sha2_256` hashing uses: 32 bytes.
#[verifier::external_body]
fn sha2_256(data: &[u8]) -> (r: [u8; 32])
    ensures
        r@ == sha256_of(data@),
{
    <sha2::Sha256 as sha2::Digest>::digest(data).into()
}

/// Whether the entries of `s` have distinct keys.
pub open spec fn unique_keys<V>(s: Seq<(Seq<u8>, V)>) -> bool {
    forall|i: int, j: int| 0 <= i < j < s.len() ==> #[trigger] s[i].0 != #[trigger] s[j].0
}

/// Whether some entry of `s` has key `k`.
pub open spec fn has_key<V>(s: Seq<(Seq<u8>, V)>, k: Seq<u8>) -> bool {
    exists|i: int| 0 <= i < s.len() && #[trigger] s[i].0 == k
}

/// The on-chain module of hash-time-locked token swaps.
pub struct HtlcModule {
    tokens: Vec<TokenInfo>,
    htlcs: Vec<HtlcContractInfo>,
}

/// The module's storage taken by view: each token's ticker with its asset,
/// and each contract's secret hash with its buyer, ticker, amount and
/// expiry.
pub struct HtlcStorage {
    pub tokens: Seq<(Seq<u8>, AssetId)>,
    pub htlcs: Seq<(Seq<u8>, (AccountId, Seq<u8>, Balance, Moment))>,
}

impl View for HtlcModule {
    type V = HtlcStorage;

    closed spec fn view(&self) -> HtlcStorage {
        HtlcStorage {
            tokens: self.tokens@.map_values(|t: TokenInfo| (t.ticker@, t.asset_id)),
            htlcs: self.htlcs@.map_values(
                |h: HtlcContractInfo|
                    (h.secret_hash@, (h.buyer, h.ticker@, h.amount, h.expiration_in_ms)),
            ),
        }
    }
}

/// The options of an asset created by `origin`: no initial issuance, and
/// `origin` may update, mint and burn it.
pub open spec fn spec_default_asset_options(origin: AccountId) -> AssetOptions {
    AssetOptions {
        initial_issuance: 0,
        permissions: PermissionLatest {
            update: Owner::Address(origin),
            mint: Owner::Address(origin),
            burn: Owner::Address(origin),
        },
    }
}

impl HtlcModule {
    pub open spec fn wf(&self) -> bool {
        unique_keys(self@.tokens) && unique_keys(self@.htlcs)
    }

    /// A module with empty storage.
    pub fn new() -> (r: HtlcModule)
        ensures
            r.wf(),
            r@.tokens.len() == 0,
            r@.htlcs.len() == 0,
    {
        HtlcModule { tokens: Vec::new(), htlcs: Vec::new() }
    }

    /// The SHA-256 hash of a secret.
    pub fn hash_of(secret: &[u8]) -> (r: [u8; 32])
        ensures
            r@ == sha256_of(secret@),
    {
        sha2_256(secret)
    }

    /// Whether a token with this ticker exists.
    pub fn token_exists(&self, ticker: &[u8]) -> (r: bool)
        ensures
            r == has_key(self@.tokens, ticker@),
    {
        let n = self.tokens.len();
        let mut i: usize = 0;
        while i < n
            invariant
                n == self.tokens@.len(),
                n == self@.tokens.len(),
                i <= n,
                forall|j: int| 0 <= j < i ==> #[trigger] self@.tokens[j].0 != ticker@,
            decreases n - i,
        {
            assert(self@.tokens[i as int].0 == self.tokens@[i as int].ticker@);
            if bytes_eq(self.tokens[i].ticker.as_slice(), ticker) {
                return true;
            }
            i = i + 1;
        }
        false
    }

    /// The asset of the token with this ticker, if it exists.
    pub fn token_of(&self, ticker: &[u8]) -> (r: Option<AssetId>)
        requires
            self.wf(),
        ensures
            match r {
                Some(a) => exists|i: int|
                    0 <= i < self@.tokens.len() && #[trigger] self@.tokens[i] == (ticker@, a),
                None => !has_key(self@.tokens, ticker@),
            },
    {
        let n = self.tokens.len();
        let mut i: usize = 0;
        while i < n
            invariant
                n == self.tokens@.len(),
                n == self@.tokens.len(),
                i <= n,
                forall|j: int| 0 <= j < i ==> #[trigger] self@.tokens[j].0 != ticker@,
            decreases n - i,
        {
            assert(self@.tokens[i as int].0 == self.tokens@[i as int].ticker@);
            if bytes_eq(self.tokens[i].ticker.as_slice(), ticker) {
                assert(self@.tokens[i as int] == (ticker@, self.tokens@[i as int].asset_id));
                return Some(self.tokens[i].asset_id);
            }
            i = i + 1;
        }
        None
    }

    /// Whether a contract with this secret hash exists.
    pub fn htlc_exists(&self, secret_hash: &[u8; 32]) -> (r: bool)
        ensures
            r == has_key(self@.htlcs, secret_hash@),
    {
        let n = self.htlcs.len();
        let mut i: usize = 0;
        while i < n
            invariant
                n == self.htlcs@.len(),
                n == self@.htlcs.len(),
                i <= n,
                forall|j: int| 0 <= j < i ==> #[trigger] self@.htlcs[j].0 != secret_hash@,
            decreases n - i,
        {
            assert(self@.htlcs[i as int].0 == self.htlcs@[i as int].secret_hash@);
            if bytes_eq(self.htlcs[i].secret_hash.as_slice(), secret_hash.as_slice()) {
                return true;
            }
            i = i + 1;
        }
        false
    }

    /// The options of an asset created by `origin`.
    pub fn get_default_asset_options(origin: AccountId) -> (r: AssetOptions)
        ensures
            r == spec_default_asset_options(origin),
    {
        let default_permission = PermissionLatest {
            update: Owner::Address(origin),
            mint: Owner::Address(origin),
            burn: Owner::Address(origin),
        };
        AssetOptions { initial_issuance: 0, permissions: default_permission }
    }

    /// The checks of a token creation: the call must be signed and the
    /// ticker new; then the asset to create is owned by the signer with the
    /// default options.
    pub fn prepare_create_token(&self, origin: Origin, ticker: &[u8]) -> (r: Result<
        (AccountId, AssetOptions),
        DispatchError,
    >)
        ensures
            match signer_of(origin) {
                None => r == Err::<(AccountId, AssetOptions), DispatchError>(DispatchError::BadOrigin),
                Some(who) => if has_key(self@.tokens, ticker@) {
                    r == Err::<(AccountId, AssetOptions), DispatchError>(DispatchError::TickerExists)
                } else {
                    r == Ok::<(AccountId, AssetOptions), DispatchError>(
                        (who, spec_default_asset_options(who)),
                    )
                },
            },
    {
        let who = ensure_signed(origin)?;
        if self.token_exists(ticker) {
            return Err(DispatchError::TickerExists);
        }
        Ok((who, Self::get_default_asset_options(who)))
    }

    /// Records the token once its asset has been created under `asset_id`.
    pub fn finish_create_token(&mut self, ticker: Vec<u8>, asset_id: AssetId)
        requires
            old(self).wf(),
            !has_key(old(self)@.tokens, ticker@),
        ensures
            final(self).wf(),
            final(self)@.tokens == old(self)@.tokens.push((ticker@, asset_id)),
            final(self)@.htlcs == old(self)@.htlcs,
    {
        let ghost t = ticker@;
        let ghost s0 = self@;
        self.tokens.push(TokenInfo { ticker, asset_id });
        assert(self@.tokens =~= s0.tokens.push((t, asset_id)));
        assert(self@.htlcs =~= s0.htlcs);
        assert forall|a: int, b: int| 0 <= a < b < self@.tokens.len() implies #[trigger] self@.tokens[a].0
            != #[trigger] self@.tokens[b].0 by {
            if b == s0.tokens.len() {
                assert(self@.tokens[a] == s0.tokens[a]);
            } else {
                assert(self@.tokens[a] == s0.tokens[a] && self@.tokens[b] == s0.tokens[b]);
            }
        }
    }

    /// Creates a token: checks the call, and records the token under the
    /// asset id `next_asset_id` once the asset module has created the asset
    /// (`asset_created`); its refusal is the call's.
    pub fn create_token(
        &mut self,
        origin: Origin,
        ticker: Vec<u8>,
        next_asset_id: AssetId,
        asset_created: Result<(), DispatchError>,
    ) -> (r: Result<(), DispatchError>)
        requires
            old(self).wf(),
        ensures
            final(self).wf(),
            final(self)@.htlcs == old(self)@.htlcs,
            signer_of(origin) is None ==> r == Err::<(), DispatchError>(DispatchError::BadOrigin)
                && final(self)@ == old(self)@,
            signer_of(origin) is Some && has_key(old(self)@.tokens, ticker@) ==> r == Err::<
                (),
                DispatchError,
            >(DispatchError::TickerExists) && final(self)@ == old(self)@,
            signer_of(origin) is Some && !has_key(old(self)@.tokens, ticker@) ==> r == asset_created,
            signer_of(origin) is Some && !has_key(old(self)@.tokens, ticker@) && asset_created is Ok
                ==> final(self)@.tokens == old(self)@.tokens.push((ticker@, next_asset_id)),
            signer_of(origin) is Some && !has_key(old(self)@.tokens, ticker@) && asset_created is Err
                ==> final(self)@ == old(self)@,
    {
        match self.prepare_create_token(origin, ticker.as_slice()) {
            Err(e) => Err(e),
            Ok(_) => {
                if asset_created.is_ok() {
                    self.finish_create_token(ticker, next_asset_id);
                }
                asset_created
            },
        }
    }

    /// Mints `amount` of an asset to `who`: nothing happens yet.
    pub fn mint(&self, _asset_id: AssetId, _who: AccountId, _amount: Balance) -> (r: Result<
        (),
        DispatchError,
    >)
        ensures
            r == Ok::<(), DispatchError>(()),
    {
        Ok(())
    }

    /// Opens a contract for `buyer` over a token: the call must be signed
    /// and the token must exist; the token's asset is minted to the buyer.
    /// Returns the asset id.
    pub fn create_htlc(
        &self,
        origin: Origin,
        ticker: &[u8],
        buyer: AccountId,
        amount: Balance,
        _secret_hash: [u8; 32],
        _expiration_in_ms: Moment,
    ) -> (r: Result<AssetId, DispatchError>)
        requires
            self.wf(),
        ensures
            signer_of(origin) is None ==> r == Err::<AssetId, DispatchError>(DispatchError::BadOrigin),
            signer_of(origin) is Some && !has_key(self@.tokens, ticker@) ==> r == Err::<
                AssetId,
                DispatchError,
            >(DispatchError::TickerNotFound),
            signer_of(origin) is Some && has_key(self@.tokens, ticker@) ==> (r matches Ok(a)
                && exists|i: int|
                0 <= i < self@.tokens.len() && #[trigger] self@.tokens[i] == (ticker@, a)),
    {
        let who = ensure_signed(origin)?;
        let token = self.token_of(ticker);
        match token {
            None => Err(DispatchError::TickerNotFound),
            Some(asset_id) => {
                proof {
                    let i = choose|i: int|
                        0 <= i < self@.tokens.len() && #[trigger] self@.tokens[i] == (ticker@, asset_id);
                    assert(self@.tokens[i].0 == ticker@);
                }
                let _ = self.mint(asset_id, buyer, amount);
                Ok(asset_id)
            },
        }
    }

    /// Claims a contract with its secret: accepted, nothing changes yet.
    pub fn claim(&self, _origin: Origin, _ticker: &[u8], _secret: &[u8]) -> (r: Result<
        (),
        DispatchError,
    >)
        ensures
            r == Ok::<(), DispatchError>(()),
    {
        Ok(())
    }

    /// Refunds a contract: accepted, nothing changes yet.
    pub fn refund(&self, _origin: Origin, _secret_hash: [u8; 32]) -> (r: Result<(), DispatchError>)
        ensures
            r == Ok::<(), DispatchError>(()),
    {
        Ok(())
    }

    /// Accepts any signed call.
    pub fn do_something(&self, origin: Origin, _something: u32) -> (r: Result<(), DispatchError>)
        ensures
            signer_of(origin) is None ==> r == Err::<(), DispatchError>(DispatchError::BadOrigin),
            signer_of(origin) is Some ==> r == Ok::<(), DispatchError>(()),
    {
        let _who = ensure_signed(origin)?;
        Ok(())
    }
}

/// A created token is known: its ticker is among the tokens afterwards.
pub proof fn law_created_token_is_known(
    s: HtlcStorage,
    ticker: Seq<u8>,
    asset_id: AssetId,
)
    ensures
        has_key(s.tokens.push((ticker, asset_id)), ticker),
{
    let t = s.tokens.push((ticker, asset_id));
    assert(t[s.tokens.len() as int].0 == ticker);
}

} // verus!
