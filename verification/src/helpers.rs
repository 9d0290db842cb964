use vstd::prelude::*;
use crate::error::ContractError;
use crate::msg::Manager;
use crate::state::{Config, ManagerInfo};
use crate::order::{ascending_writes, key_at, last_write, lists_key, text_less};
use crate::table::Table;

verus! {

/// Revision number of the height after which a transfer times out.
pub const DEFAULT_TIMEOUT_HEIGHT: u64 = 10000000;

/// Fee paid for the acknowledgement of a transfer.
pub const ACK_FEE: u128 = 1000;

/// Fee paid for the timeout of a transfer.
pub const TIMEOUT_FEE: u128 = 1000;

/// Nanoseconds after the block time at which a transfer times out: ten minutes.
pub const TIMEOUT_GRACE_NANOS: u64 = 600_000_000_000;

/// The human-readable prefix that `bech32::decode` finds in a text, in lower
/// case, or `None` where the text is no bech32 string with a valid checksum.
pub uninterp spec fn bech32_prefix(text: Seq<char>) -> Option<Seq<char>>;

/// What `cosmwasm_std::Binary::from_base64` makes of a text: the bytes, or
/// `None` where the text is not base64.
pub uninterp spec fn base64_decoded(text: Seq<char>) -> Option<Seq<u8>>;

/// What the Ed25519 verifier of `cosmwasm_std` answers for a message, a
/// signature and a public key: `None` where it fails on the shape of its
/// input, else whether the signature holds.
pub uninterp spec fn ed25519_verdict(
    message: Seq<u8>,
    signature: Seq<u8>,
    public_key: Seq<u8>,
) -> Option<bool>;

/// Calls `bech32::decode` and keeps the prefix. Trusted: the prefix returned
/// is the one that the decoder finds in the text, and there is none exactly
/// when the decoder refuses the text.
#[verifier::external_body]
fn decode_prefix(text: &str) -> (r: Option<String>)
    ensures
        match r {
            Some(p) => bech32_prefix(text@) == Some(p@),
            None => bech32_prefix(text@) is None,
        },
{
    match bech32::decode(text) {
        Ok((prefix, _, _)) => Some(prefix),
        Err(_) => None,
    }
}

/// Calls `cosmwasm_std::Binary::from_base64`. Trusted: the bytes returned are
/// the decoder's, and the error, with the decoder's message, comes exactly
/// when the decoder refuses the text.
#[verifier::external_body]
fn decode_base64(text: &str) -> (r: Result<Vec<u8>, String>)
    ensures
        match r {
            Ok(bytes) => base64_decoded(text@) == Some(bytes@),
            Err(_) => base64_decoded(text@) is None,
        },
{
    match cosmwasm_std::Binary::from_base64(text) {
        Ok(binary) => Ok(binary.to_vec()),
        Err(e) => Err(e.to_string()),
    }
}

/// Calls `ed25519_verify` of the `Api` that `cosmwasm_std` implements
/// natively. Trusted: the answer is the verifier's, and the error, with the
/// verifier's message, comes exactly when the verifier fails. A host that
/// brings its own verifier asks it between `admit_proof` and `conclude_auth`.
#[verifier::external_body]
fn ed25519_verify(message: &Vec<u8>, signature: &Vec<u8>, public_key: &Vec<u8>) -> (r: Result<
    bool,
    String,
>)
    ensures
        match r {
            Ok(valid) => ed25519_verdict(message@, signature@, public_key@) == Some(valid),
            Err(_) => ed25519_verdict(message@, signature@, public_key@) is None,
        },
{
    let api = cosmwasm_std::testing::MockApi::default();
    match cosmwasm_std::Api::ed25519_verify(&api, message, signature, public_key) {
        Ok(valid) => Ok(valid),
        Err(e) => Err(e.to_string()),
    }
}

/// The trust root: the configuration, the managers by address and the proof
/// tokens that were spent.
pub struct Registry {
    pub config: Config,
    pub managers: Table<String, ManagerInfo>,
    pub used_proof_tokens: Table<String, bool>,
}

/// Whether `token` was spent.
pub open spec fn token_used(tokens: Map<Seq<char>, bool>, token: Seq<char>) -> bool {
    tokens.contains_key(token) && tokens[token]
}

/// Whether some registered manager is active and holds `public_key`.
pub open spec fn signer_active(
    managers: Map<Seq<char>, ManagerInfo>,
    public_key: Seq<u8>,
) -> bool {
    exists|a: Seq<char>|
        managers.contains_key(a) && (#[trigger] managers[a]).pub_key@ == public_key
            && managers[a].status
}

/// How an authentication ends.
pub enum AuthOutcome {
    /// The key or the signature is not base64.
    Malformed,
    Expired,
    TokenUsed,
    UnknownSigner,
    /// The verifier failed on the shape of its input.
    VerifierFailed,
    /// The verifier answered "no"; the token is spent all the same.
    BadSignature,
    Accepted,
}

/// What is decided once key and signature are decoded and before the verifier is asked.
pub open spec fn precheck_outcome(
    managers: Map<Seq<char>, ManagerInfo>,
    tokens: Map<Seq<char>, bool>,
    now: u64,
    token: Seq<char>,
    public_key: Seq<u8>,
    time_to_expire: u64,
) -> Option<AuthOutcome> {
    if time_to_expire < now {
        Some(AuthOutcome::Expired)
    } else if token_used(tokens, token) {
        Some(AuthOutcome::TokenUsed)
    } else if !signer_active(managers, public_key) {
        Some(AuthOutcome::UnknownSigner)
    } else {
        None
    }
}

/// How the authentication of a proof ends, step by step in the fixed order:
/// decoding, expiry, replay, signer, verifier.
pub open spec fn auth_outcome(
    managers: Map<Seq<char>, ManagerInfo>,
    tokens: Map<Seq<char>, bool>,
    now: u64,
    token: Seq<char>,
    message: Seq<u8>,
    pub_key: Seq<char>,
    time_to_expire: u64,
    signature: Seq<char>,
) -> AuthOutcome {
    if base64_decoded(pub_key) is None || base64_decoded(signature) is None {
        AuthOutcome::Malformed
    } else {
        let key = base64_decoded(pub_key)->0;
        let sig = base64_decoded(signature)->0;
        match precheck_outcome(managers, tokens, now, token, key, time_to_expire) {
            Some(o) => o,
            None => match ed25519_verdict(message, sig, key) {
                None => AuthOutcome::VerifierFailed,
                Some(false) => AuthOutcome::BadSignature,
                Some(true) => AuthOutcome::Accepted,
            },
        }
    }
}

/// Whether an authentication that ends so spends its token.
pub open spec fn spends_token(o: AuthOutcome) -> bool {
    o is BadSignature || o is Accepted
}

/// The result that reports an outcome.
pub open spec fn reports(r: Result<(), ContractError>, o: AuthOutcome) -> bool {
    match o {
        AuthOutcome::Malformed => r matches Err(ContractError::StdError(_)),
        AuthOutcome::Expired => r == Err::<(), ContractError>(ContractError::ProofExpired {  }),
        AuthOutcome::TokenUsed => r == Err::<(), ContractError>(
            ContractError::TokenAlreadyUsed {  },
        ),
        AuthOutcome::UnknownSigner => r == Err::<(), ContractError>(
            ContractError::InvalidSigner {  },
        ),
        AuthOutcome::VerifierFailed => r matches Err(
            ContractError::SignatureVerificationFailed(_),
        ),
        AuthOutcome::BadSignature => r == Err::<(), ContractError>(
            ContractError::InvalidMessageHash {  },
        ),
        AuthOutcome::Accepted => r is Ok,
    }
}

/// Whether two byte strings are equal.
pub fn bytes_eq(a: &Vec<u8>, b: &Vec<u8>) -> (r: bool)
    ensures
        r == (a@ == b@),
{
    if a.len() != b.len() {
        return false;
    }
    let mut i: usize = 0;
    while i < a.len()
        invariant
            i <= a.len(),
            a.len() == b.len(),
            forall|j: int| 0 <= j < i ==> a@[j] == b@[j],
        decreases a.len() - i,
    {
        if a[i] != b[i] {
            return false;
        }
        i = i + 1;
    }
    assert(a@ =~= b@);
    true
}

impl Registry {
    /// A registry with the given configuration, no manager and no spent token.
    pub fn new(config: Config) -> (r: Self)
        ensures
            r.config == config,
            r.managers@ == Map::<Seq<char>, ManagerInfo>::empty(),
            r.used_proof_tokens@ == Map::<Seq<char>, bool>::empty(),
    {
        Registry { config, managers: Table::new(), used_proof_tokens: Table::new() }
    }

    /// The managers with their addresses, in ascending order of the addresses.
    pub fn list_managers(&self) -> (r: Vec<(&String, &ManagerInfo)>)
        ensures
            forall|p: int, q: int|
                0 <= p < q < r@.len() ==> text_less((#[trigger] r@[p]).0@, (#[trigger] r@[q]).0@),
            forall|p: int|
                0 <= p < r@.len() ==> self.managers@.contains_key((#[trigger] r@[p]).0@)
                    && self.managers@[r@[p].0@] == *r@[p].1,
            forall|a: Seq<char>| #[trigger]
                self.managers@.contains_key(a) ==> exists|p: int|
                    0 <= p < r@.len() && (#[trigger] r@[p]).0@ == a,
    {
        let order = self.managers.ascending();
        let mut list: Vec<(&String, &ManagerInfo)> = Vec::new();
        let mut i: usize = 0;
        while i < order.len()
            invariant
                i <= order@.len(),
                list@.len() == i,
                ascending_writes(self.managers.entries@, order@),
                forall|p: int|
                    0 <= p < i ==> *(#[trigger] list@[p]).0
                        == self.managers.entries@[order@[p] as int].key && *list@[p].1
                        == self.managers.entries@[order@[p] as int].value,
            decreases order@.len() - i,
        {
            assert(last_write(self.managers.entries@, order@[i as int] as int));
            let entry = &self.managers.entries[order[i]];
            list.push((&entry.key, &entry.value));
            i = i + 1;
        }
        proof {
            let s = self.managers.entries@;
            assert forall|p: int, q: int| 0 <= p < q < list@.len() implies text_less(
                (#[trigger] list@[p]).0@,
                (#[trigger] list@[q]).0@,
            ) by {
                assert(text_less(key_at(s, order@, p), key_at(s, order@, q)));
            }
            assert forall|p: int| 0 <= p < list@.len() implies self.managers@.contains_key(
                (#[trigger] list@[p]).0@,
            ) && self.managers@[list@[p].0@] == *list@[p].1 by {
                assert(self.managers@.contains_key(key_at(s, order@, p)));
            }
            assert forall|a: Seq<char>| #[trigger] self.managers@.contains_key(a) implies exists|
                p: int,
            |
                0 <= p < list@.len() && (#[trigger] list@[p]).0@ == a by {
                assert(lists_key(s, order@, a));
                let q = choose|q: int| 0 <= q < order@.len() && #[trigger] key_at(s, order@, q) == a;
                assert(list@[q].0@ == a);
            }
        }
        list
    }

    /// Whether some active manager holds `public_key`: a scan of the
    /// managers in ascending order of their addresses.
    pub fn has_active_signer(&self, public_key: &Vec<u8>) -> (r: bool)
        ensures
            r == signer_active(self.managers@, public_key@),
    {
        let list = self.list_managers();
        let mut i: usize = 0;
        while i < list.len()
            invariant
                i <= list@.len(),
                forall|p: int|
                    0 <= p < list@.len() ==> self.managers@.contains_key((#[trigger] list@[p]).0@)
                        && self.managers@[list@[p].0@] == *list@[p].1,
                forall|p: int|
                    0 <= p < i ==> !((#[trigger] list@[p]).1.pub_key@ == public_key@
                        && list@[p].1.status),
            decreases list@.len() - i,
        {
            let m = list[i].1;
            if m.status && bytes_eq(&m.pub_key, public_key) {
                assert(self.managers@.contains_key(list@[i as int].0@));
                assert(self.managers@[list@[i as int].0@].pub_key@ == public_key@);
                return true;
            }
            i = i + 1;
        }
        proof {
            assert forall|a: Seq<char>| self.managers@.contains_key(a) implies !((
            #[trigger] self.managers@[a]).pub_key@ == public_key@ && self.managers@[a].status) by {
                let p = choose|p: int| 0 <= p < list@.len() && (#[trigger] list@[p]).0@ == a;
                assert(list@[p].0@ == a);
            }
        }
        false
    }

    /// Registers or replaces the manager at `address`; only the owner may.
    pub fn set_manager(
        &mut self,
        caller: &String,
        address: String,
        pub_key: Vec<u8>,
        status: bool,
    ) -> (r: Result<(), ContractError>)
        ensures
            final(self).config == old(self).config,
            final(self).used_proof_tokens == old(self).used_proof_tokens,
            caller@ != old(self).config.owner@ ==> r == Err::<(), ContractError>(
                ContractError::Unauthorized {  },
            ) && final(self).managers == old(self).managers,
            caller@ == old(self).config.owner@ ==> r is Ok && final(self).managers@ == old(self).managers@.insert(address@, (ManagerInfo { address, pub_key, status })),
    {
        match check_is_contract_owner(&self.config, caller) {
            Err(e) => Err(e),
            Ok(()) => {
                let key = address.clone();
                self.managers.set(key, ManagerInfo { address, pub_key, status });
                Ok(())
            },
        }
    }
}

/// Succeeds for the owner that the configuration names, and for nobody else.
pub fn check_is_contract_owner(config: &Config, sender: &String) -> (r: Result<
    (),
    ContractError,
>)
    ensures
        sender@ == config.owner@ ==> r is Ok,
        sender@ != config.owner@ ==> r == Err::<(), ContractError>(
            ContractError::Unauthorized {  },
        ),
{
    if config.owner != *sender {
        Err(ContractError::Unauthorized {  })
    } else {
        Ok(())
    }
}

/// Judges a decoded prefix against the prefix that receivers must carry.
pub fn check_prefix(decoded: Option<String>, receiver_prefix: &str, receiver: &str) -> (r: Result<
    (String, String),
    ContractError,
>)
    ensures
        match decoded {
            None => r matches Err(ContractError::InvalidAccount { receiver: a }) && a@
                == receiver@,
            Some(p) => if p@ == receiver_prefix@ {
                r matches Ok(pair) && pair.0@ == p@ && pair.1@ == receiver@
            } else {
                r matches Err(ContractError::ExpectedAgoricAccount { receiver: a }) && a@
                    == receiver@
            },
        },
{
    match decoded {
        None => Err(ContractError::InvalidAccount { receiver: receiver.to_owned() }),
        Some(prefix) => {
            let wanted = receiver_prefix.to_owned();
            if prefix != wanted {
                Err(ContractError::ExpectedAgoricAccount { receiver: receiver.to_owned() })
            } else {
                Ok((prefix, receiver.to_owned()))
            }
        },
    }
}

/// What the validation of `receiver` against `receiver_prefix` answers.
pub open spec fn account_verdict(
    receiver_prefix: Seq<char>,
    receiver: Seq<char>,
    r: Result<(String, String), ContractError>,
) -> bool {
    match bech32_prefix(receiver) {
        None => r matches Err(ContractError::InvalidAccount { receiver: a }) && a@ == receiver,
        Some(p) => if p == receiver_prefix {
            r matches Ok(pair) && pair.0@ == p && pair.1@ == receiver
        } else {
            r matches Err(ContractError::ExpectedAgoricAccount { receiver: a }) && a@ == receiver
        },
    }
}

/// Accepts `receiver` if it is a bech32 address with the prefix
/// `receiver_prefix`, and returns prefix and address.
pub fn validate_account(receiver_prefix: &str, receiver: &str) -> (r: Result<
    (String, String),
    ContractError,
>)
    ensures
        account_verdict(receiver_prefix@, receiver@, r),
{
    check_prefix(decode_prefix(receiver), receiver_prefix, receiver)
}

/// The checks that come before the verifier is asked: expiry, replay and
/// signer, in this order.
pub fn check_proof(
    registry: &Registry,
    now: u64,
    token: &String,
    public_key: &Vec<u8>,
    time_to_expire: u64,
) -> (r: Result<(), ContractError>)
    ensures
        match precheck_outcome(
            registry.managers@,
            registry.used_proof_tokens@,
            now,
            token@,
            public_key@,
            time_to_expire,
        ) {
            Some(o) => reports(r, o),
            None => r is Ok,
        },
{
    if time_to_expire < now {
        return Err(ContractError::ProofExpired {  });
    }
    let spent = match registry.used_proof_tokens.get(token) {
        Some(b) => *b,
        None => false,
    };
    if spent {
        return Err(ContractError::TokenAlreadyUsed {  });
    }
    if !registry.has_active_signer(public_key) {
        return Err(ContractError::InvalidSigner {  });
    }
    Ok(())
}

/// Everything that comes before the verifier is asked: decodes key and
/// signature from base64 and checks expiry, replay and signer, in this
/// order. On success it hands out the decoded key and signature, for which
/// the verifier is to be asked next.
pub fn admit_proof(
    registry: &Registry,
    now: u64,
    token: &String,
    pub_key: &str,
    time_to_expire: u64,
    signature: &str,
) -> (r: Result<(Vec<u8>, Vec<u8>), ContractError>)
    ensures
        if base64_decoded(pub_key@) is None || base64_decoded(signature@) is None {
            r matches Err(ContractError::StdError(_))
        } else {
            match precheck_outcome(
                registry.managers@,
                registry.used_proof_tokens@,
                now,
                token@,
                base64_decoded(pub_key@)->0,
                time_to_expire,
            ) {
                Some(o) => r matches Err(e) && reports(Err::<(), ContractError>(e), o),
                None => r matches Ok(decoded) && base64_decoded(pub_key@) == Some(decoded.0@)
                    && base64_decoded(signature@) == Some(decoded.1@),
            }
        },
{
    let key = match decode_base64(pub_key) {
        Ok(bytes) => bytes,
        Err(m) => {
            return Err(ContractError::StdError(m));
        },
    };
    let sig = match decode_base64(signature) {
        Ok(bytes) => bytes,
        Err(m) => {
            return Err(ContractError::StdError(m));
        },
    };
    match check_proof(registry, now, token, &key, time_to_expire) {
        Err(e) => Err(e),
        Ok(()) => Ok((key, sig)),
    }
}

/// Ends an authentication with the verifier's answer: a failure of the
/// verifier leaves the token unspent; any answer spends it, and only then is
/// a "no" turned into an error.
pub fn conclude_auth(registry: &mut Registry, token: String, verdict: Result<bool, String>) -> (r:
    Result<(), ContractError>)
    ensures
        final(registry).config == old(registry).config,
        final(registry).managers == old(registry).managers,
        match verdict {
            Err(m) => r == Err::<(), ContractError>(ContractError::SignatureVerificationFailed(m))
                && final(registry).used_proof_tokens == old(registry).used_proof_tokens,
            Ok(valid) => final(registry).used_proof_tokens@ == old(registry).used_proof_tokens@.insert(token@, true) && if valid {
                r is Ok
            } else {
                r == Err::<(), ContractError>(ContractError::InvalidMessageHash {  })
            },
        },
{
    match verdict {
        Err(m) => Err(ContractError::SignatureVerificationFailed(m)),
        Ok(valid) => {
            registry.used_proof_tokens.set(token, true);
            if !valid {
                Err(ContractError::InvalidMessageHash {  })
            } else {
                Ok(())
            }
        },
    }
}

/// Authenticates a proof: `signature`, in base64, must be that of an active
/// manager's key `pub_key`, in base64, over `message`; the proof must not
/// have expired at `now` and its token must be fresh. The token is spent as
/// soon as the verifier has answered, whatever it answered.
pub fn auth_validations(
    registry: &mut Registry,
    now: u64,
    token: String,
    message: Vec<u8>,
    pub_key: String,
    time_to_expire: u64,
    signature: String,
) -> (r: Result<(), ContractError>)
    ensures
        final(registry).config == old(registry).config,
        final(registry).managers == old(registry).managers,
        reports(
            r,
            auth_outcome(
                old(registry).managers@,
                old(registry).used_proof_tokens@,
                now,
                token@,
                message@,
                pub_key@,
                time_to_expire,
                signature@,
            ),
        ),
        spends_token(
            auth_outcome(
                old(registry).managers@,
                old(registry).used_proof_tokens@,
                now,
                token@,
                message@,
                pub_key@,
                time_to_expire,
                signature@,
            ),
        ) ==> final(registry).used_proof_tokens@ == old(registry).used_proof_tokens@.insert(
            token@,
            true,
        ),
        !spends_token(
            auth_outcome(
                old(registry).managers@,
                old(registry).used_proof_tokens@,
                now,
                token@,
                message@,
                pub_key@,
                time_to_expire,
                signature@,
            ),
        ) ==> final(registry).used_proof_tokens == old(registry).used_proof_tokens,
{
    match admit_proof(registry, now, &token, pub_key.as_str(), time_to_expire, signature.as_str()) {
        Err(e) => Err(e),
        Ok(decoded) => {
            let verdict = ed25519_verify(&message, &decoded.1, &decoded.0);
            conclude_auth(registry, token, verdict)
        },
    }
}

/// A token is good for one authentication: once an authentication has spent
/// it, every later one that presents it, well-formed and in time, ends with
/// "token already used", whoever signed and whatever was signed.
pub proof fn lemma_token_single_use(
    managers: Map<Seq<char>, ManagerInfo>,
    tokens: Map<Seq<char>, bool>,
    token: Seq<char>,
    now: u64,
    message: Seq<u8>,
    pub_key: Seq<char>,
    time_to_expire: u64,
    signature: Seq<char>,
)
    requires
        base64_decoded(pub_key) is Some,
        base64_decoded(signature) is Some,
        time_to_expire >= now,
    ensures
        auth_outcome(
            managers,
            tokens.insert(token, true),
            now,
            token,
            message,
            pub_key,
            time_to_expire,
            signature,
        ) is TokenUsed,
{
}

/// An expired proof is refused as expired, whatever it is signed with and
/// whatever the state of tokens and managers, provided it is well-formed.
pub proof fn lemma_expired_proof_refused(
    managers: Map<Seq<char>, ManagerInfo>,
    tokens: Map<Seq<char>, bool>,
    token: Seq<char>,
    now: u64,
    message: Seq<u8>,
    pub_key: Seq<char>,
    time_to_expire: u64,
    signature: Seq<char>,
)
    requires
        base64_decoded(pub_key) is Some,
        base64_decoded(signature) is Some,
        time_to_expire < now,
    ensures
        auth_outcome(managers, tokens, now, token, message, pub_key, time_to_expire, signature)
            is Expired,
{
}

/// An amount of one denomination.
#[derive(Clone, Debug, PartialEq, Eq)]
pub struct Coin {
    pub denom: String,
    pub amount: u128,
}

/// The fees that go with a transfer.
#[derive(Clone, Debug, PartialEq, Eq)]
pub struct Fee {
    pub recv_fee: Vec<Coin>,
    pub ack_fee: Vec<Coin>,
    pub timeout_fee: Vec<Coin>,
}

/// A height on the remote chain.
#[derive(Clone, Debug, PartialEq, Eq)]
pub struct Height {
    pub revision_number: u64,
    pub revision_height: u64,
}

/// The instruction for one outbound transfer.
#[derive(Clone, Debug, PartialEq, Eq)]
pub struct MsgTransfer {
    pub source_port: String,
    pub source_channel: String,
    pub token: Option<Coin>,
    pub receiver: String,
    pub timeout_height: Option<Height>,
    /// Nanoseconds since the epoch.
    pub timeout_timestamp: u64,
    pub fee: Option<Fee>,
    pub memo: String,
    pub sender: String,
}

/// `amount` of `denom`.
pub fn create_coin(denom: &str, amount: u128) -> (c: Coin)
    ensures
        c.denom@ == denom@,
        c.amount == amount,
{
    Coin { denom: denom.to_owned(), amount }
}

/// Whether `list` holds exactly one coin, `amount` of `denom`.
pub open spec fn single_coin(list: Seq<Coin>, denom: Seq<char>, amount: u128) -> bool {
    list.len() == 1 && list[0].denom@ == denom && list[0].amount == amount
}

/// Whether `msg` is the transfer of `amount` of `denom`, less the two fees,
/// to `receiver`, sent by `sender` at `block_time_nanos` over the configured channel.
pub open spec fn is_transfer(
    msg: MsgTransfer,
    channel_id: Seq<char>,
    block_time_nanos: u64,
    sender: Seq<char>,
    receiver: Seq<char>,
    denom: Seq<char>,
    amount: u128,
) -> bool {
    &&& msg.source_port@ == "transfer"@
    &&& msg.source_channel@ == channel_id
    &&& msg.token matches Some(coin) && coin.denom@ == denom && coin.amount == amount - ACK_FEE
        - TIMEOUT_FEE
    &&& msg.receiver@ == receiver
    &&& msg.timeout_height == Some(
        (Height { revision_number: DEFAULT_TIMEOUT_HEIGHT, revision_height: 2 }),
    )
    &&& msg.timeout_timestamp == block_time_nanos + TIMEOUT_GRACE_NANOS
    &&& msg.fee matches Some(fee) && fee.recv_fee@.len() == 0 && single_coin(
        fee.ack_fee@,
        denom,
        ACK_FEE,
    ) && single_coin(fee.timeout_fee@, denom, TIMEOUT_FEE)
    &&& msg.memo@ == ""@
    &&& msg.sender@ == sender
}

/// What is transferred of `amount` once the two fees are taken from it, or
/// `None` where the amount does not cover them.
pub open spec fn net_amount(amount: u128) -> Option<u128> {
    if amount < ACK_FEE + TIMEOUT_FEE {
        None
    } else {
        Some((amount - ACK_FEE - TIMEOUT_FEE) as u128)
    }
}

/// Fee deduction: an amount can be transferred exactly if it is at least the
/// two fees together, and what is transferred and the two fees add up to it.
pub proof fn lemma_fee_deduction(amount: u128)
    ensures
        net_amount(amount) is Some <==> amount >= 2000,
        net_amount(amount) matches Some(net) ==> net + ACK_FEE + TIMEOUT_FEE == amount,
        amount == 5000 ==> net_amount(amount) == Some(3000u128),
        amount == 1500 ==> net_amount(amount) is None,
{
}

/// What the building of a transfer answers when the decoder found the
/// prefix `decoded` in the receiver's address.
pub open spec fn transfer_verdict(
    decoded: Option<Seq<char>>,
    config: Config,
    block_time_nanos: u64,
    sender: Seq<char>,
    receiver: Seq<char>,
    denom: Seq<char>,
    amount: u128,
    r: Result<MsgTransfer, ContractError>,
) -> bool {
    match decoded {
        None => r matches Err(ContractError::InvalidAccount { receiver: a }) && a@ == receiver,
        Some(p) => if p != config.receiver_prefix@ {
            r matches Err(ContractError::ExpectedAgoricAccount { receiver: a }) && a@ == receiver
        } else if net_amount(amount) is None {
            r == Err::<MsgTransfer, ContractError>(ContractError::ArithmeticError {  })
        } else {
            r matches Ok(msg) && is_transfer(
                msg,
                config.channel_id@,
                block_time_nanos,
                sender,
                receiver,
                denom,
                amount,
            )
        },
    }
}

/// Builds the transfer of `amount` of `denom` to `receiver`, given the
/// prefix that was decoded from the receiver's address. The prefix must be
/// the configured one, and the amount must cover the acknowledgement fee
/// and the timeout fee, which are taken from it.
pub fn transfer_to_decoded(
    decoded: Option<String>,
    config: &Config,
    block_time_nanos: u64,
    sender: &str,
    receiver: &str,
    denom: &str,
    amount: u128,
) -> (r: Result<MsgTransfer, ContractError>)
    requires
        block_time_nanos + TIMEOUT_GRACE_NANOS <= u64::MAX,
    ensures
        transfer_verdict(
            match decoded {
                Some(p) => Some(p@),
                None => None,
            },
            *config,
            block_time_nanos,
            sender@,
            receiver@,
            denom@,
            amount,
            r,
        ),
{
    match check_prefix(decoded, config.receiver_prefix.as_str(), receiver) {
        Err(e) => {
            return Err(e);
        },
        Ok(_) => {},
    }
    let final_amount: u128 = match amount.checked_sub(ACK_FEE + TIMEOUT_FEE) {
        Some(v) => v,
        None => {
            return Err(ContractError::ArithmeticError {  });
        },
    };
    let coin = create_coin(denom, final_amount);
    let fee = Fee {
        recv_fee: Vec::new(),
        ack_fee: vec![create_coin(denom, ACK_FEE)],
        timeout_fee: vec![create_coin(denom, TIMEOUT_FEE)],
    };
    Ok(
        MsgTransfer {
            source_port: "transfer".to_owned(),
            source_channel: config.channel_id.clone(),
            token: Some(coin),
            receiver: receiver.to_owned(),
            timeout_height: Some(
                Height { revision_number: DEFAULT_TIMEOUT_HEIGHT, revision_height: 2 },
            ),
            timeout_timestamp: block_time_nanos + TIMEOUT_GRACE_NANOS,
            fee: Some(fee),
            memo: "".to_owned(),
            sender: sender.to_owned(),
        },
    )
}

/// Builds the transfer of `amount` of `denom` to `receiver`. The receiver
/// must be an account with the configured prefix, and the amount must cover
/// the acknowledgement fee and the timeout fee, which are taken from it.
pub fn create_ibc_transfer(
    config: &Config,
    block_time_nanos: u64,
    sender: &str,
    receiver: &str,
    denom: &str,
    amount: u128,
) -> (r: Result<MsgTransfer, ContractError>)
    requires
        block_time_nanos + TIMEOUT_GRACE_NANOS <= u64::MAX,
    ensures
        transfer_verdict(
            bech32_prefix(receiver@),
            *config,
            block_time_nanos,
            sender@,
            receiver@,
            denom@,
            amount,
            r,
        ),
{
    transfer_to_decoded(
        decode_prefix(receiver),
        config,
        block_time_nanos,
        sender,
        receiver,
        denom,
        amount,
    )
}

/// Whether a manager named at instantiation can be registered under `prefix`.
pub open spec fn manager_valid(prefix: Seq<char>, m: Manager) -> bool {
    bech32_prefix(m.addr@) == Some(prefix) && base64_decoded(m.pub_key@) is Some
}

/// Whether `info` is what the named manager `m` is registered as.
pub open spec fn registers_as(m: Manager, info: ManagerInfo) -> bool {
    info.address@ == m.addr@ && base64_decoded(m.pub_key@) == Some(info.pub_key@) && info.status
}

/// Whether `e` is the error that refuses the named manager `m`.
pub open spec fn refusal_of(prefix: Seq<char>, m: Manager, e: ContractError) -> bool {
    match bech32_prefix(m.addr@) {
        None => e matches ContractError::InvalidAccount { receiver: a } && a@ == m.addr@,
        Some(p) => if p != prefix {
            e matches ContractError::ExpectedAgoricAccount { receiver: a } && a@ == m.addr@
        } else {
            e is StdError
        },
    }
}

/// Turns the managers named at instantiation into registry entries, all
/// active. The first one with an address of another kind or a key that is
/// not base64 makes the whole list fail with its error.
pub fn map_validate(receiver_prefix: &str, managers: &[Manager]) -> (r: Result<
    Vec<ManagerInfo>,
    ContractError,
>)
    ensures
        match r {
            Ok(infos) => infos@.len() == managers@.len() && (forall|i: int|
                0 <= i < managers@.len() ==> registers_as(managers@[i], #[trigger] infos@[i]))
                && (forall|i: int|
                0 <= i < managers@.len() ==> manager_valid(
                    receiver_prefix@,
                    #[trigger] managers@[i],
                )),
            Err(e) => exists|k: int|
                0 <= k < managers@.len() && !manager_valid(receiver_prefix@, managers@[k])
                    && refusal_of(receiver_prefix@, #[trigger] managers@[k], e) && forall|j: int|
                    0 <= j < k ==> manager_valid(receiver_prefix@, #[trigger] managers@[j]),
        },
{
    let mut infos: Vec<ManagerInfo> = Vec::new();
    let mut i: usize = 0;
    while i < managers.len()
        invariant
            i <= managers@.len(),
            infos@.len() == i,
            forall|j: int|
                0 <= j < i ==> manager_valid(receiver_prefix@, #[trigger] managers@[j]),
            forall|j: int| 0 <= j < i ==> registers_as(managers@[j], #[trigger] infos@[j]),
        decreases managers@.len() - i,
    {
        let m = &managers[i];
        let address = match validate_account(receiver_prefix, m.addr.as_str()) {
            Ok(pair) => pair.1,
            Err(e) => {
                assert(refusal_of(receiver_prefix@, managers@[i as int], e));
                return Err(e);
            },
        };
        let pub_key = match decode_base64(m.pub_key.as_str()) {
            Ok(bytes) => bytes,
            Err(msg) => {
                let e = ContractError::StdError(msg);
                assert(refusal_of(receiver_prefix@, managers@[i as int], e));
                return Err(e);
            },
        };
        infos.push(ManagerInfo { address, pub_key, status: true });
        i = i + 1;
    }
    Ok(infos)
}

} // verus!
