//! The contract: the ledger together with the fixed owner account and
//! the immutable metadata, and every public operation on them.
//!
//! Each operation is one atomic transition. Host-supplied facts — the
//! signer's identity, the attached payment, the storage bytes measured
//! before and after the call, the price per byte, and the outcome of a
//! receiver hook — enter as plain values. An operation that returns an
//! error leaves the state exactly as it was.

use vstd::prelude::*;

use crate::error::TokenError;
use crate::ledger::{bal, ledger_wf, registered, Ledger, LedgerModel};
use crate::metadata::{TokenMetadata, DEFAULT_DECIMALS, METADATA_SPEC};

verus! {

/// Display name carried by the default metadata.
pub const DEFAULT_NAME: &'static str = "INIT Token";

/// Ticker symbol carried by the default metadata.
pub const DEFAULT_SYMBOL: &'static str = "INIT";

/// The mathematical state of the contract.
pub ghost struct ContractModel {
    pub owner: Seq<char>,
    pub ledger: LedgerModel,
    pub metadata: TokenMetadata,
}

/// The contract state: the owner fixed at initialization, the ledger,
/// and the metadata record.
pub struct Contract {
    owner: String,
    ledger: Ledger,
    metadata: TokenMetadata,
}

impl View for Contract {
    type V = ContractModel;

    closed spec fn view(&self) -> ContractModel {
        ContractModel { owner: self.owner@, ledger: self.ledger@, metadata: self.metadata }
    }
}

/// Well-formedness of the contract: a well-formed ledger and valid
/// metadata. Every operation preserves it.
pub open spec fn contract_wf(c: ContractModel) -> bool {
    &&& ledger_wf(c.ledger)
    &&& c.metadata.valid()
}

/// The exact storage bill of an operation that grows or frees
/// `marginal_bytes` bytes of persistent state.
pub open spec fn storage_cost(marginal_bytes: int, price_per_byte: int) -> int {
    marginal_bytes * price_per_byte
}

/// The error a direct transfer surfaces, or `None` when it is owed
/// success, with this precedence: a zero amount, then a self transfer,
/// then an unregistered receiver, then a missing anti-spam fee, then a
/// sender balance that does not cover the amount.
pub open spec fn transfer_error(
    m: LedgerModel,
    sender: Seq<char>,
    receiver: Seq<char>,
    amount: u128,
    attached: u128,
) -> Option<TokenError> {
    if amount == 0 {
        Some(TokenError::ZeroAmount)
    } else if sender == receiver {
        Some(TokenError::SelfTransfer)
    } else if !registered(m, receiver) {
        Some(TokenError::ReceiverNotRegistered)
    } else if attached == 0 {
        Some(TokenError::InsufficientAttachedPayment)
    } else if bal(m, sender) < amount {
        Some(TokenError::InsufficientBalance)
    } else {
        None
    }
}

/// The error a mint surfaces, or `None` when it is owed success: only
/// the owner may mint, the target must be registered, and the enlarged
/// supply must stay within the 128-bit range.
pub open spec fn mint_error(
    c: ContractModel,
    signer: Seq<char>,
    to: Seq<char>,
    amount: u128,
) -> Option<TokenError> {
    if signer != c.owner {
        Some(TokenError::NotAuthorized)
    } else if !registered(c.ledger, to) {
        Some(TokenError::ReceiverNotRegistered)
    } else if c.ledger.total + amount > u128::MAX {
        Some(TokenError::Overflow)
    } else {
        None
    }
}

/// What the receiver hook reported back for a call-chained transfer.
#[derive(Clone, Copy, Debug, PartialEq, Eq, Structural)]
pub enum HookOutcome {
    /// The hook consumed this many of the transferred tokens.
    Used(u128),
    /// The hook failed or was unreachable; nothing was consumed.
    Failed,
}

/// The tokens the hook consumed, capped at the transferred amount.
pub open spec fn hook_used(outcome: HookOutcome, amount: u128) -> u128 {
    match outcome {
        HookOutcome::Used(u) => if u > amount {
            amount
        } else {
            u
        },
        HookOutcome::Failed => 0,
    }
}

/// The reversal a reconciliation applies: the unconsumed part of the
/// transferred amount, bounded by what the receiver still holds.
pub open spec fn refund_amount(
    m: LedgerModel,
    receiver: Seq<char>,
    amount: u128,
    outcome: HookOutcome,
) -> u128 {
    let unused = (amount - hook_used(outcome, amount)) as u128;
    if unused > bal(m, receiver) {
        bal(m, receiver)
    } else {
        unused
    }
}

/// The optimistically committed half of a call-chained transfer,
/// waiting for the receiver hook's outcome.
pub struct PendingTransfer {
    sender: String,
    receiver: String,
    amount: u128,
    payload: String,
}

/// The mathematical state of a pending call-chained transfer.
pub ghost struct PendingModel {
    pub sender: Seq<char>,
    pub receiver: Seq<char>,
    pub amount: u128,
    pub payload: Seq<char>,
}

impl View for PendingTransfer {
    type V = PendingModel;

    closed spec fn view(&self) -> PendingModel {
        PendingModel {
            sender: self.sender@,
            receiver: self.receiver@,
            amount: self.amount,
            payload: self.payload@,
        }
    }
}

impl PendingTransfer {
    /// The account the tokens were debited from.
    pub fn sender(&self) -> (r: &String)
        ensures
            r@ == self@.sender,
    {
        &self.sender
    }

    /// The account the tokens were credited to.
    pub fn receiver(&self) -> (r: &String)
        ensures
            r@ == self@.receiver,
    {
        &self.receiver
    }

    /// The optimistically transferred amount.
    pub fn amount(&self) -> (r: u128)
        ensures
            r == self@.amount,
    {
        self.amount
    }

    /// The payload to hand to the receiver hook.
    pub fn payload(&self) -> (r: &String)
        ensures
            r@ == self@.payload,
    {
        &self.payload
    }
}

impl Contract {
    /// Initializes the contract with the given total supply credited to
    /// `owner_id`, which is registered as the only account. Refused
    /// when the host reports that contract state exists already.
    pub fn new(
        owner_id: String,
        total_supply: u128,
        metadata: TokenMetadata,
        state_exists: bool,
    ) -> (r: Result<Contract, TokenError>)
        requires
            metadata.valid(),
        ensures
            state_exists ==> r == Result::<Contract, TokenError>::Err(
                TokenError::AlreadyInitialized,
            ),
            !state_exists ==> {
                &&& r is Ok
                &&& contract_wf(r->Ok_0@)
                &&& r->Ok_0@.owner == owner_id@
                &&& r->Ok_0@.metadata == metadata
                &&& r->Ok_0@.ledger.total == total_supply
                &&& bal(r->Ok_0@.ledger, owner_id@) == total_supply
                &&& forall|a: Seq<char>| registered(r->Ok_0@.ledger, a) <==> a == owner_id@
            },
    {
        if state_exists {
            return Err(TokenError::AlreadyInitialized);
        }
        let mut ledger = Ledger::new();
        ledger.register_entry(&owner_id);
        ledger.credit(&owner_id, total_supply);
        Ok(Contract { owner: owner_id, ledger, metadata })
    }

    /// Initializes the contract with the given total supply and the
    /// default metadata record.
    pub fn new_default_meta(owner_id: String, total_supply: u128, state_exists: bool) -> (r:
        Result<Contract, TokenError>)
        ensures
            state_exists ==> r == Result::<Contract, TokenError>::Err(
                TokenError::AlreadyInitialized,
            ),
            !state_exists ==> {
                &&& r is Ok
                &&& contract_wf(r->Ok_0@)
                &&& r->Ok_0@.owner == owner_id@
                &&& r->Ok_0@.metadata.spec_id@ == METADATA_SPEC@
                &&& r->Ok_0@.metadata.name@ == DEFAULT_NAME@
                &&& r->Ok_0@.metadata.symbol@ == DEFAULT_SYMBOL@
                &&& r->Ok_0@.metadata.reference is None
                &&& r->Ok_0@.metadata.reference_hash is None
                &&& r->Ok_0@.metadata.decimals == DEFAULT_DECIMALS
                &&& r->Ok_0@.ledger.total == total_supply
                &&& bal(r->Ok_0@.ledger, owner_id@) == total_supply
                &&& forall|a: Seq<char>| registered(r->Ok_0@.ledger, a) <==> a == owner_id@
            },
    {
        let metadata = TokenMetadata {
            spec_id: METADATA_SPEC.to_owned(),
            name: DEFAULT_NAME.to_owned(),
            symbol: DEFAULT_SYMBOL.to_owned(),
            icon: None,
            reference: None,
            reference_hash: None,
            decimals: DEFAULT_DECIMALS,
        };
        Contract::new(owner_id, total_supply, metadata, state_exists)
    }

    /// The current total supply. No side effects.
    pub fn total_supply(&self) -> (r: u128)
        ensures
            r == self@.ledger.total,
    {
        self.ledger.total_supply()
    }

    /// The balance of `account`, or zero when it is unregistered. No
    /// side effects.
    pub fn balance_of(&self, account: &String) -> (r: u128)
        requires
            contract_wf(self@),
        ensures
            r == bal(self@.ledger, account@),
    {
        self.ledger.balance_of(account)
    }

    /// Whether `account` is registered. No side effects.
    pub fn is_registered(&self, account: &String) -> (r: bool)
        ensures
            r == registered(self@.ledger, account@),
    {
        self.ledger.is_registered(account)
    }

    /// The owner account fixed at initialization. No side effects.
    pub fn owner(&self) -> (r: &String)
        ensures
            r@ == self@.owner,
    {
        &self.owner
    }

    /// The metadata record fixed at initialization. No side effects.
    pub fn ft_metadata(&self) -> (r: &TokenMetadata)
        ensures
            *r == self@.metadata,
    {
        &self.metadata
    }

    /// Registers `account` against the storage bill of the registration
    /// write, and returns the unconsumed remainder of the attached
    /// payment.
    ///
    /// Registering an account that is registered already returns the
    /// whole payment and changes nothing. Otherwise the marginal bytes
    /// times the price per byte are consumed from the payment, exactly;
    /// a payment below that cost is refused whole, as is a cost outside
    /// the 128-bit range.
    pub fn register(
        &mut self,
        account: &String,
        payment: u128,
        bytes_before: u64,
        bytes_after: u64,
        price_per_byte: u128,
    ) -> (r: Result<u128, TokenError>)
        requires
            contract_wf(old(self)@),
            bytes_before <= bytes_after,
        ensures
            contract_wf(final(self)@),
            registered(old(self)@.ledger, account@) ==> {
                &&& r == Result::<u128, TokenError>::Ok(payment)
                &&& *final(self) == *old(self)
            },
            !registered(old(self)@.ledger, account@) ==> {
                let required = storage_cost(
                    bytes_after - bytes_before,
                    price_per_byte as int,
                );
                if required > u128::MAX {
                    &&& r == Result::<u128, TokenError>::Err(TokenError::Overflow)
                    &&& *final(self) == *old(self)
                } else if payment < required {
                    &&& r == Result::<u128, TokenError>::Err(
                        TokenError::InsufficientStorageDeposit,
                    )
                    &&& *final(self) == *old(self)
                } else {
                    &&& r == Result::<u128, TokenError>::Ok((payment - required) as u128)
                    &&& registered(final(self)@.ledger, account@)
                    &&& bal(final(self)@.ledger, account@) == 0
                    &&& final(self)@.ledger.total == old(self)@.ledger.total
                    &&& forall|b: Seq<char>|
                        b != account@ ==> registered(final(self)@.ledger, b) == registered(
                            old(self)@.ledger,
                            b,
                        )
                    &&& forall|b: Seq<char>|
                        b != account@ ==> bal(final(self)@.ledger, b) == bal(
                            old(self)@.ledger,
                            b,
                        )
                    &&& final(self)@.owner == old(self)@.owner
                    &&& final(self)@.metadata == old(self)@.metadata
                }
            },
    {
        if self.ledger.is_registered(account) {
            return Ok(payment);
        }
        let marginal: u128 = (bytes_after - bytes_before) as u128;
        let required = match marginal.checked_mul(price_per_byte) {
            Some(required) => required,
            None => {
                return Err(TokenError::Overflow);
            },
        };
        if payment < required {
            return Err(TokenError::InsufficientStorageDeposit);
        }
        self.ledger.register_entry(account);
        Ok(payment - required)
    }

    /// Unregisters `account` and returns the refund for the storage its
    /// entry freed: the freed bytes times the price per byte, exactly.
    ///
    /// An unregistered account is left alone with a zero refund. A
    /// nonzero balance blocks the removal unless `force` is set; a
    /// forced removal first burns the balance, deliberately reducing
    /// the total supply.
    pub fn unregister(
        &mut self,
        account: &String,
        force: bool,
        bytes_before: u64,
        bytes_after: u64,
        price_per_byte: u128,
    ) -> (r: Result<u128, TokenError>)
        requires
            contract_wf(old(self)@),
            bytes_after <= bytes_before,
        ensures
            contract_wf(final(self)@),
            !registered(old(self)@.ledger, account@) ==> {
                &&& r == Result::<u128, TokenError>::Ok(0)
                &&& *final(self) == *old(self)
            },
            registered(old(self)@.ledger, account@) ==> {
                let refund = storage_cost(bytes_before - bytes_after, price_per_byte as int);
                if bal(old(self)@.ledger, account@) != 0 && !force {
                    &&& r == Result::<u128, TokenError>::Err(TokenError::AccountHasBalance)
                    &&& *final(self) == *old(self)
                } else if refund > u128::MAX {
                    &&& r == Result::<u128, TokenError>::Err(TokenError::Overflow)
                    &&& *final(self) == *old(self)
                } else {
                    &&& r == Result::<u128, TokenError>::Ok(refund as u128)
                    &&& !registered(final(self)@.ledger, account@)
                    &&& final(self)@.ledger.total == old(self)@.ledger.total - bal(
                        old(self)@.ledger,
                        account@,
                    )
                    &&& forall|b: Seq<char>|
                        b != account@ ==> registered(final(self)@.ledger, b) == registered(
                            old(self)@.ledger,
                            b,
                        )
                    &&& forall|b: Seq<char>|
                        b != account@ ==> bal(final(self)@.ledger, b) == bal(
                            old(self)@.ledger,
                            b,
                        )
                    &&& final(self)@.owner == old(self)@.owner
                    &&& final(self)@.metadata == old(self)@.metadata
                }
            },
    {
        if !self.ledger.is_registered(account) {
            return Ok(0);
        }
        let balance = self.ledger.balance_of(account);
        if balance != 0 && !force {
            return Err(TokenError::AccountHasBalance);
        }
        let freed: u128 = (bytes_before - bytes_after) as u128;
        let refund = match freed.checked_mul(price_per_byte) {
            Some(refund) => refund,
            None => {
                return Err(TokenError::Overflow);
            },
        };
        if balance != 0 {
            match self.ledger.debit(account, balance) {
                Ok(()) => {},
                Err(_) => {
                    proof {
                        assert(false);
                    }
                },
            }
        }
        self.ledger.remove_entry(account);
        Ok(refund)
    }

    /// Transfers `amount` tokens from `sender` to `receiver`. The memo
    /// is for host-side bookkeeping and is not interpreted.
    ///
    /// The debit and the credit either both apply or neither does; the
    /// total supply and the set of registered accounts never change.
    /// Success is owed exactly when `transfer_error` is `None`.
    pub fn transfer(
        &mut self,
        sender: &String,
        receiver: &String,
        amount: u128,
        memo: Option<String>,
        attached: u128,
    ) -> (r: Result<(), TokenError>)
        requires
            contract_wf(old(self)@),
        ensures
            contract_wf(final(self)@),
            match transfer_error(old(self)@.ledger, sender@, receiver@, amount, attached) {
                Some(e) => {
                    &&& r == Result::<(), TokenError>::Err(e)
                    &&& *final(self) == *old(self)
                },
                None => {
                    &&& r == Result::<(), TokenError>::Ok(())
                    &&& final(self)@.ledger.total == old(self)@.ledger.total
                    &&& bal(final(self)@.ledger, sender@) == bal(old(self)@.ledger, sender@)
                        - amount
                    &&& bal(final(self)@.ledger, receiver@) == bal(old(self)@.ledger, receiver@)
                        + amount
                    &&& forall|b: Seq<char>|
                        b != sender@ && b != receiver@ ==> bal(final(self)@.ledger, b) == bal(
                            old(self)@.ledger,
                            b,
                        )
                    &&& forall|b: Seq<char>|
                        registered(final(self)@.ledger, b) == registered(old(self)@.ledger, b)
                    &&& final(self)@.owner == old(self)@.owner
                    &&& final(self)@.metadata == old(self)@.metadata
                },
            },
    {
        let _ = memo;
        if amount == 0 {
            return Err(TokenError::ZeroAmount);
        }
        if *sender == *receiver {
            return Err(TokenError::SelfTransfer);
        }
        if !self.ledger.is_registered(receiver) {
            return Err(TokenError::ReceiverNotRegistered);
        }
        if attached == 0 {
            return Err(TokenError::InsufficientAttachedPayment);
        }
        let sender_balance = self.ledger.balance_of(sender);
        if sender_balance < amount {
            return Err(TokenError::InsufficientBalance);
        }
        match self.ledger.debit(sender, amount) {
            Ok(()) => {},
            Err(_) => {
                proof {
                    assert(false);
                }
            },
        }
        self.ledger.credit(receiver, amount);
        Ok(())
    }

    /// The optimistic half of a call-chained transfer: performs the
    /// same checked debit and credit as `transfer` and hands back the
    /// pending record the host needs to invoke the receiver hook and
    /// later reconcile through `resolve_transfer`.
    pub fn transfer_and_notify(
        &mut self,
        sender: &String,
        receiver: &String,
        amount: u128,
        memo: Option<String>,
        notify_payload: String,
        attached: u128,
    ) -> (r: Result<PendingTransfer, TokenError>)
        requires
            contract_wf(old(self)@),
        ensures
            contract_wf(final(self)@),
            match transfer_error(old(self)@.ledger, sender@, receiver@, amount, attached) {
                Some(e) => {
                    &&& r is Err && r->Err_0 == e
                    &&& *final(self) == *old(self)
                },
                None => {
                    &&& r is Ok
                    &&& r->Ok_0@.sender == sender@
                    &&& r->Ok_0@.receiver == receiver@
                    &&& r->Ok_0@.amount == amount
                    &&& r->Ok_0@.payload == notify_payload@
                    &&& final(self)@.ledger.total == old(self)@.ledger.total
                    &&& bal(final(self)@.ledger, sender@) == bal(old(self)@.ledger, sender@)
                        - amount
                    &&& bal(final(self)@.ledger, receiver@) == bal(old(self)@.ledger, receiver@)
                        + amount
                    &&& forall|b: Seq<char>|
                        b != sender@ && b != receiver@ ==> bal(final(self)@.ledger, b) == bal(
                            old(self)@.ledger,
                            b,
                        )
                    &&& forall|b: Seq<char>|
                        registered(final(self)@.ledger, b) == registered(old(self)@.ledger, b)
                    &&& final(self)@.owner == old(self)@.owner
                    &&& final(self)@.metadata == old(self)@.metadata
                },
            },
    {
        match self.transfer(sender, receiver, amount, memo, attached) {
            Ok(()) => Ok(
                PendingTransfer {
                    sender: sender.clone(),
                    receiver: receiver.clone(),
                    amount,
                    payload: notify_payload,
                },
            ),
            Err(e) => Err(e),
        }
    }

    /// Reconciles a call-chained transfer once the receiver hook's
    /// outcome is known, and returns the amount that stays transferred.
    ///
    /// The unconsumed part of the amount is reversed, bounded by what
    /// the receiver still holds — never more, so a receiver that spent
    /// the tokens in the meantime makes the reversal best-effort. A
    /// reversal whose sender has since unregistered is burned instead
    /// of credited, reducing the total supply.
    pub fn resolve_transfer(&mut self, pending: &PendingTransfer, outcome: HookOutcome) -> (r:
        u128)
        requires
            contract_wf(old(self)@),
            pending@.sender != pending@.receiver,
        ensures
            contract_wf(final(self)@),
            ({
                let refund = refund_amount(
                    old(self)@.ledger,
                    pending@.receiver,
                    pending@.amount,
                    outcome,
                );
                &&& r == pending@.amount - refund
                &&& bal(final(self)@.ledger, pending@.receiver) == bal(
                    old(self)@.ledger,
                    pending@.receiver,
                ) - refund
                &&& registered(old(self)@.ledger, pending@.sender) ==> {
                    &&& bal(final(self)@.ledger, pending@.sender) == bal(
                        old(self)@.ledger,
                        pending@.sender,
                    ) + refund
                    &&& final(self)@.ledger.total == old(self)@.ledger.total
                }
                &&& !registered(old(self)@.ledger, pending@.sender)
                    ==> final(self)@.ledger.total == old(self)@.ledger.total - refund
                &&& forall|b: Seq<char>|
                    b != pending@.sender && b != pending@.receiver ==> bal(
                        final(self)@.ledger,
                        b,
                    ) == bal(old(self)@.ledger, b)
                &&& forall|b: Seq<char>|
                    registered(final(self)@.ledger, b) == registered(old(self)@.ledger, b)
                &&& final(self)@.owner == old(self)@.owner
                &&& final(self)@.metadata == old(self)@.metadata
            }),
    {
        let amount = pending.amount;
        let used = match outcome {
            HookOutcome::Used(u) => if u > amount {
                amount
            } else {
                u
            },
            HookOutcome::Failed => 0,
        };
        let unused = amount - used;
        let receiver_balance = self.ledger.balance_of(&pending.receiver);
        let refund = if unused > receiver_balance {
            receiver_balance
        } else {
            unused
        };
        if refund > 0 {
            match self.ledger.debit(&pending.receiver, refund) {
                Ok(()) => {},
                Err(_) => {
                    proof {
                        assert(false);
                    }
                },
            }
            if self.ledger.is_registered(&pending.sender) {
                self.ledger.credit(&pending.sender, refund);
            }
        }
        amount - refund
    }

    /// Mints `amount` new tokens to `to`, increasing the total supply.
    /// Only the owner may mint; the target must be registered, so that
    /// no entry slips past the storage-deposit discipline; success is
    /// owed exactly when `mint_error` is `None`.
    pub fn mint(&mut self, signer: &String, to: &String, amount: u128) -> (r: Result<
        (),
        TokenError,
    >)
        requires
            contract_wf(old(self)@),
        ensures
            contract_wf(final(self)@),
            match mint_error(old(self)@, signer@, to@, amount) {
                Some(e) => {
                    &&& r == Result::<(), TokenError>::Err(e)
                    &&& *final(self) == *old(self)
                },
                None => {
                    &&& r == Result::<(), TokenError>::Ok(())
                    &&& final(self)@.ledger.total == old(self)@.ledger.total + amount
                    &&& bal(final(self)@.ledger, to@) == bal(old(self)@.ledger, to@) + amount
                    &&& forall|b: Seq<char>|
                        b != to@ ==> bal(final(self)@.ledger, b) == bal(old(self)@.ledger, b)
                    &&& forall|b: Seq<char>|
                        registered(final(self)@.ledger, b) == registered(old(self)@.ledger, b)
                    &&& final(self)@.owner == old(self)@.owner
                    &&& final(self)@.metadata == old(self)@.metadata
                },
            },
    {
        if !(*signer == self.owner) {
            return Err(TokenError::NotAuthorized);
        }
        if !self.ledger.is_registered(to) {
            return Err(TokenError::ReceiverNotRegistered);
        }
        let room = u128::MAX - self.ledger.total_supply();
        if amount > room {
            return Err(TokenError::Overflow);
        }
        self.ledger.credit(to, amount);
        Ok(())
    }
}

} // verus!
