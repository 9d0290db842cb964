use vstd::prelude::*;
use crate::error::ContractError;
use crate::helpers::{
    bech32_prefix, create_ibc_transfer, transfer_verdict, MsgTransfer, TIMEOUT_GRACE_NANOS,
};
use crate::state::{Config, ManagerInfo, SurveyInfo};
use crate::table::Table;

verus! {

/// The surveys by id, and the participants that were rewarded, by survey and address.
pub struct Ledger {
    pub surveys: Table<String, SurveyInfo>,
    pub rewarded_users: Table<(String, String), bool>,
}

/// What the ledger holds, as two maps.
pub ghost struct LedgerState {
    pub surveys: Map<Seq<char>, SurveyInfo>,
    pub rewarded: Map<(Seq<char>, Seq<char>), bool>,
}

/// A reward that is owed to a participant and has to be transferred.
#[derive(Clone, Debug, PartialEq, Eq)]
pub struct Payout {
    pub receiver: String,
    pub denom: String,
    pub amount: u128,
}

impl View for Ledger {
    type V = LedgerState;

    open spec fn view(&self) -> LedgerState {
        LedgerState { surveys: self.surveys@, rewarded: self.rewarded_users@ }
    }
}

/// Whether `who` was rewarded for the survey `id`.
pub open spec fn user_rewarded(
    rewarded: Map<(Seq<char>, Seq<char>), bool>,
    id: Seq<char>,
    who: Seq<char>,
) -> bool {
    rewarded.contains_key((id, who)) && rewarded[(id, who)]
}

/// Whether `caller` is the address of an active manager.
pub open spec fn is_active_manager(
    managers: Map<Seq<char>, ManagerInfo>,
    caller: Seq<char>,
) -> bool {
    managers.contains_key(caller) && managers[caller].status
}

/// The surveys after the creation of `info` under `id`, or why it is refused.
pub open spec fn create_result(
    surveys: Map<Seq<char>, SurveyInfo>,
    id: Seq<char>,
    info: SurveyInfo,
) -> Result<Map<Seq<char>, SurveyInfo>, ContractError> {
    if surveys.contains_key(id) {
        Err(ContractError::SurveyAlreadyExists {  })
    } else {
        Ok(surveys.insert(id, info))
    }
}

/// The surveys after `caller` has cancelled `id`, or why it is refused.
pub open spec fn cancel_result(
    surveys: Map<Seq<char>, SurveyInfo>,
    managers: Map<Seq<char>, ManagerInfo>,
    id: Seq<char>,
    caller: Seq<char>,
) -> Result<Map<Seq<char>, SurveyInfo>, ContractError> {
    if !surveys.contains_key(id) {
        Err(ContractError::SurveyNotFound {  })
    } else if surveys[id].is_cancelled {
        Err(ContractError::SurveyAlreadyCancelled {  })
    } else if surveys[id].survey_creator@ != caller && !is_active_manager(managers, caller) {
        Err(ContractError::OnlyCreatorOrManager {  })
    } else {
        Ok(surveys.insert(id, (SurveyInfo { is_cancelled: true, ..surveys[id] })))
    }
}

/// The ledger after `who` has been rewarded for the survey `id`, or why it is refused.
pub open spec fn pay_one(s: LedgerState, id: Seq<char>, who: Seq<char>) -> Result<
    LedgerState,
    ContractError,
> {
    if !s.surveys.contains_key(id) {
        Err(ContractError::SurveyNotFound {  })
    } else if s.surveys[id].is_cancelled {
        Err(ContractError::SurveyAlreadyCancelled {  })
    } else if s.surveys[id].participants_rewarded >= s.surveys[id].participants_limit {
        Err(ContractError::AllParticipantsRewarded {  })
    } else if user_rewarded(s.rewarded, id, who) {
        Err(ContractError::UserAlreadyRewarded {  })
    } else {
        Ok(
            LedgerState {
                surveys: s.surveys.insert(
                    id,
                    (SurveyInfo {
                        participants_rewarded: (s.surveys[id].participants_rewarded + 1) as u32,
                        ..s.surveys[id]
                    }),
                ),
                rewarded: s.rewarded.insert((id, who), true),
            },
        )
    }
}

/// The survey that the participant at position `i` of a batch is paid for: a
/// batch with a single survey pays all its participants for that one.
pub open spec fn target_id(ids: Seq<String>, i: int) -> Seq<char> {
    if ids.len() == 1 {
        ids[0]@
    } else {
        ids[i]@
    }
}

/// The ledger after the first `n` participants of a batch have been rewarded
/// in turn, or the first refusal among them.
pub open spec fn pay_upto(s: LedgerState, ids: Seq<String>, participants: Seq<String>, n: nat)
    -> Result<LedgerState, ContractError>
    decreases n,
{
    if n == 0 {
        Ok(s)
    } else {
        match pay_upto(s, ids, participants, (n - 1) as nat) {
            Err(e) => Err(e),
            Ok(t) => pay_one(t, target_id(ids, n - 1), participants[n - 1]@),
        }
    }
}

/// Whether a batch for a single survey, which exists and is not cancelled,
/// holds more participants than the survey can still reward.
pub open spec fn batch_exceeds_limit(s: LedgerState, ids: Seq<String>, participants: Seq<String>)
    -> bool {
    &&& ids.len() == 1
    &&& participants.len() > 0
    &&& s.surveys.contains_key(ids[0]@)
    &&& !s.surveys[ids[0]@].is_cancelled
    &&& s.surveys[ids[0]@].participants_rewarded + participants.len()
        > s.surveys[ids[0]@].participants_limit
}

/// The ledger after a whole batch, or why the batch is refused. A batch for
/// a single survey is held against the survey's limit as a whole, before any
/// of its participants is looked at.
pub open spec fn pay_result(s: LedgerState, ids: Seq<String>, participants: Seq<String>)
    -> Result<LedgerState, ContractError> {
    if ids.len() != 1 && ids.len() != participants.len() {
        Err(ContractError::ArrayLengthMismatch {  })
    } else if batch_exceeds_limit(s, ids, participants) {
        Err(ContractError::AllParticipantsRewarded {  })
    } else {
        pay_upto(s, ids, participants, participants.len())
    }
}

/// What remains to be paid out for a survey, or `None` where it does not fit the counters.
pub open spec fn outstanding(info: SurveyInfo) -> Option<u128> {
    if info.participants_rewarded > info.participants_limit || (info.participants_limit
        - info.participants_rewarded) * info.reward_amount > u128::MAX {
        None
    } else {
        Some(((info.participants_limit - info.participants_rewarded) * info.reward_amount) as u128)
    }
}

/// A copy of a survey.
pub fn copy_survey(info: &SurveyInfo) -> (r: SurveyInfo)
    ensures
        r == *info,
{
    SurveyInfo {
        survey_creator: info.survey_creator.clone(),
        participants_limit: info.participants_limit,
        reward_amount: info.reward_amount,
        participants_rewarded: info.participants_rewarded,
        survey_hash: info.survey_hash.clone(),
        is_cancelled: info.is_cancelled,
        reward_denom: info.reward_denom.clone(),
    }
}

/// Whether the tables of `after` hold the writes of `before` and then, perhaps, more.
pub open spec fn extends(before: Ledger, after: Ledger) -> bool {
    &&& before.surveys.entries@.len() <= after.surveys.entries@.len()
    &&& after.surveys.entries@.take(before.surveys.entries@.len() as int)
        == before.surveys.entries@
    &&& before.rewarded_users.entries@.len() <= after.rewarded_users.entries@.len()
    &&& after.rewarded_users.entries@.take(before.rewarded_users.entries@.len() as int)
        == before.rewarded_users.entries@
}

/// Whether `r` is what the building of the transfer of the reward of the
/// survey `id` to the participant `who` answers.
pub open spec fn reward_transfer(
    surveys: Map<Seq<char>, SurveyInfo>,
    config: Config,
    block_time_nanos: u64,
    sender: Seq<char>,
    id: Seq<char>,
    who: Seq<char>,
    r: Result<MsgTransfer, ContractError>,
) -> bool {
    surveys.contains_key(id) && transfer_verdict(
        bech32_prefix(who),
        config,
        block_time_nanos,
        sender,
        who,
        surveys[id].reward_denom@,
        surveys[id].reward_amount,
        r,
    )
}

impl Ledger {
    /// The ledger without surveys.
    pub fn new() -> (l: Self)
        ensures
            l.surveys@ == Map::<Seq<char>, SurveyInfo>::empty(),
            l.rewarded_users@ == Map::<(Seq<char>, Seq<char>), bool>::empty(),
    {
        Ledger { surveys: Table::new(), rewarded_users: Table::new() }
    }

    /// Creates a survey under `id`, with nobody rewarded and not cancelled,
    /// unless a survey with this id exists.
    pub fn create(
        &mut self,
        id: String,
        creator: String,
        participants_limit: u32,
        reward_amount: u128,
        reward_denom: String,
        survey_hash: String,
    ) -> (r: Result<(), ContractError>)
        ensures
            final(self).rewarded_users == old(self).rewarded_users,
            match create_result(
                old(self).surveys@,
                id@,
                (SurveyInfo {
                    survey_creator: creator,
                    participants_limit,
                    reward_amount,
                    participants_rewarded: 0,
                    survey_hash,
                    is_cancelled: false,
                    reward_denom,
                }),
            ) {
                Ok(m) => r is Ok && final(self).surveys@ == m,
                Err(e) => r == Err::<(), ContractError>(e) && final(self).surveys == old(self).surveys,
            },
    {
        if self.surveys.contains(&id) {
            return Err(ContractError::SurveyAlreadyExists {  });
        }
        self.surveys.set(
            id,
            SurveyInfo {
                survey_creator: creator,
                participants_limit,
                reward_amount,
                participants_rewarded: 0,
                survey_hash,
                is_cancelled: false,
                reward_denom,
            },
        );
        Ok(())
    }

    /// Cancels the survey `id` for its creator or an active manager.
    pub fn cancel(&mut self, managers: &Table<String, ManagerInfo>, id: &String, caller: &String)
        -> (r: Result<(), ContractError>)
        ensures
            final(self).rewarded_users == old(self).rewarded_users,
            match cancel_result(old(self).surveys@, managers@, id@, caller@) {
                Ok(m) => r is Ok && final(self).surveys@ == m,
                Err(e) => r == Err::<(), ContractError>(e) && final(self).surveys == old(self).surveys,
            },
    {
        let mut info = match self.surveys.get(id) {
            None => {
                return Err(ContractError::SurveyNotFound {  });
            },
            Some(found) => copy_survey(found),
        };
        if info.is_cancelled {
            return Err(ContractError::SurveyAlreadyCancelled {  });
        }
        if info.survey_creator != *caller {
            let active = match managers.get(caller) {
                Some(m) => m.status,
                None => false,
            };
            if !active {
                return Err(ContractError::OnlyCreatorOrManager {  });
            }
        }
        info.is_cancelled = true;
        self.surveys.set(id.clone(), info);
        Ok(())
    }

    /// Rewards one participant of one survey and says what is owed to them.
    /// A refusal changes nothing; a reward only adds writes to the tables.
    pub fn pay_step(&mut self, id: &String, who: &String) -> (r: Result<Payout, ContractError>)
        ensures
            match pay_one(old(self)@, id@, who@) {
                Err(e) => r == Err::<Payout, ContractError>(e) && *final(self) == *old(self),
                Ok(t) => r matches Ok(p) && final(self).surveys@ == t.surveys && final(self).rewarded_users@ == t.rewarded
                    && old(self).surveys.entries@.len() <= final(self).surveys.entries@.len()
                    && old(self).rewarded_users.entries@.len() <= final(self).rewarded_users.entries@.len()
                    && p.receiver@ == who@ && p.denom@ == old(self).surveys@[id@].reward_denom@ && p.amount == old(self).surveys@[id@].reward_amount
                    && old(self).surveys.entries@ == final(self).surveys.entries@.take(
                    old(self).surveys.entries@.len() as int,
                ) && old(self).rewarded_users.entries@ == final(self).rewarded_users.entries@.take(old(self).rewarded_users.entries@.len() as int),
            },
    {
        let mut info = match self.surveys.get(id) {
            None => {
                return Err(ContractError::SurveyNotFound {  });
            },
            Some(found) => copy_survey(found),
        };
        if info.is_cancelled {
            return Err(ContractError::SurveyAlreadyCancelled {  });
        }
        if info.participants_rewarded >= info.participants_limit {
            return Err(ContractError::AllParticipantsRewarded {  });
        }
        let key = (id.clone(), who.clone());
        let seen = match self.rewarded_users.get(&key) {
            Some(b) => *b,
            None => false,
        };
        if seen {
            return Err(ContractError::UserAlreadyRewarded {  });
        }
        let payout = Payout {
            receiver: who.clone(),
            denom: info.reward_denom.clone(),
            amount: info.reward_amount,
        };
        info.participants_rewarded = info.participants_rewarded + 1;
        self.surveys.set(id.clone(), info);
        self.rewarded_users.set(key, true);
        proof {
            let a = old(self).surveys.entries@;
            assert(self.surveys.entries@.take(a.len() as int) =~= a);
            let b = old(self).rewarded_users.entries@;
            assert(self.rewarded_users.entries@.take(b.len() as int) =~= b);
        }
        Ok(payout)
    }

    /// Pays a batch of rewards: every participant for the single survey of
    /// `ids`, or the participant at each position for the survey at the same
    /// position. A batch for a single survey that holds more participants
    /// than the survey can still reward is refused as a whole; otherwise the
    /// participants are rewarded in turn and the first refusal among them is
    /// the batch's. The batch is all or nothing: on any refusal the ledger is
    /// as it was. On success each participant is recorded as rewarded, each
    /// survey counts its new rewards, and the result names one payout per
    /// participant, in order.
    pub fn pay(&mut self, ids: &Vec<String>, participants: &Vec<String>) -> (r: Result<
        Vec<Payout>,
        ContractError,
    >)
        ensures
            match pay_result(old(self)@, ids@, participants@) {
                Err(e) => r == Err::<Vec<Payout>, ContractError>(e) && final(self)@ == old(self)@,
                Ok(t) => r matches Ok(payouts) && final(self).surveys@ == t.surveys && final(self).rewarded_users@ == t.rewarded && extends(*old(self), *final(self)) && payouts@.len() == participants@.len()
                    && forall|j: int|
                    0 <= j < participants@.len() ==> owed(
                        t.surveys,
                        target_id(ids@, j),
                        participants@[j]@,
                        #[trigger] payouts@[j],
                    ),
            },
    {
        let n = participants.len();
        if ids.len() != 1 && ids.len() != n {
            return Err(ContractError::ArrayLengthMismatch {  });
        }
        if ids.len() == 1 && n > 0 {
            match self.surveys.get(&ids[0]) {
                Some(info) => {
                    let room: u32 = if info.participants_rewarded >= info.participants_limit {
                        0
                    } else {
                        info.participants_limit - info.participants_rewarded
                    };
                    if !info.is_cancelled && n as u128 > room as u128 {
                        return Err(ContractError::AllParticipantsRewarded {  });
                    }
                },
                None => {},
            }
        }
        let mark_surveys = self.surveys.mark();
        let mark_rewarded = self.rewarded_users.mark();
        let mut payouts: Vec<Payout> = Vec::new();
        let mut i: usize = 0;
        while i < n
            invariant
                i <= n,
                n == participants@.len(),
                ids@.len() == 1 || ids@.len() == n,
                !batch_exceeds_limit(old(self)@, ids@, participants@),
                mark_surveys == old(self).surveys.entries@.len(),
                mark_rewarded == old(self).rewarded_users.entries@.len(),
                mark_surveys <= self.surveys.entries@.len(),
                mark_rewarded <= self.rewarded_users.entries@.len(),
                self.surveys.entries@.take(mark_surveys as int) == old(self).surveys.entries@,
                self.rewarded_users.entries@.take(mark_rewarded as int) == old(self).rewarded_users.entries@,
                pay_upto(old(self)@, ids@, participants@, i as nat) == Ok::<
                    LedgerState,
                    ContractError,
                >(self@),
                payouts@.len() == i,
                forall|j: int|
                    0 <= j < i ==> owed(
                        self.surveys@,
                        target_id(ids@, j),
                        participants@[j]@,
                        #[trigger] payouts@[j],
                    ),
            decreases n - i,
        {
            let id = if ids.len() == 1 {
                &ids[0]
            } else {
                &ids[i]
            };
            let ghost before = *self;
            let ghost paid = payouts@;
            match self.pay_step(id, &participants[i]) {
                Err(e) => {
                    self.surveys.rewind(mark_surveys);
                    self.rewarded_users.rewind(mark_rewarded);
                    proof {
                        lemma_refusal_stands(
                            old(self)@,
                            ids@,
                            participants@,
                            (i + 1) as nat,
                            n as nat,
                        );
                    }
                    return Err(e);
                },
                Ok(p) => {
                    payouts.push(p);
                },
            }
            proof {
                let a = before.surveys.entries@.len() as int;
                assert(self.surveys.entries@.take(a).take(mark_surveys as int)
                    =~= self.surveys.entries@.take(mark_surveys as int));
                let b = before.rewarded_users.entries@.len() as int;
                assert(self.rewarded_users.entries@.take(b).take(mark_rewarded as int)
                    =~= self.rewarded_users.entries@.take(mark_rewarded as int));
                assert(self@ == pay_one(before@, id@, participants@[i as int]@)->Ok_0);
                assert forall|j: int| 0 <= j < i + 1 implies owed(
                    self.surveys@,
                    target_id(ids@, j),
                    participants@[j]@,
                    #[trigger] payouts@[j],
                ) by {
                    if j < i {
                        assert(owed(
                            before.surveys@,
                            target_id(ids@, j),
                            participants@[j]@,
                            paid[j],
                        ));
                    }
                }
            }
            i = i + 1;
        }
        Ok(payouts)
    }

    /// Pays a batch of rewards and builds the transfer of each reward to its
    /// participant, in order. All or nothing: where the batch is refused, or
    /// the transfer of one reward cannot be built, the result is that error
    /// and the ledger is as it was.
    pub fn pay_rewards(
        &mut self,
        config: &Config,
        block_time_nanos: u64,
        sender: &str,
        ids: &Vec<String>,
        participants: &Vec<String>,
    ) -> (r: Result<Vec<MsgTransfer>, ContractError>)
        requires
            block_time_nanos + TIMEOUT_GRACE_NANOS <= u64::MAX,
        ensures
            r is Err ==> final(self)@ == old(self)@,
            match pay_result(old(self)@, ids@, participants@) {
                Err(e) => r == Err::<Vec<MsgTransfer>, ContractError>(e),
                Ok(t) => match r {
                    Ok(msgs) => final(self).surveys@ == t.surveys && final(self).rewarded_users@
                        == t.rewarded && msgs@.len() == participants@.len() && forall|j: int|
                        0 <= j < participants@.len() ==> reward_transfer(
                            t.surveys,
                            *config,
                            block_time_nanos,
                            sender@,
                            target_id(ids@, j),
                            participants@[j]@,
                            Ok::<MsgTransfer, ContractError>(#[trigger] msgs@[j]),
                        ),
                    Err(e) => exists|j: int|
                        0 <= j < participants@.len() && reward_transfer(
                            t.surveys,
                            *config,
                            block_time_nanos,
                            sender@,
                            target_id(ids@, j),
                            #[trigger] participants@[j]@,
                            Err::<MsgTransfer, ContractError>(e),
                        ),
                },
            },
    {
        let mark_surveys = self.surveys.mark();
        let mark_rewarded = self.rewarded_users.mark();
        let payouts = match self.pay(ids, participants) {
            Err(e) => {
                return Err(e);
            },
            Ok(p) => p,
        };
        let ghost paid = self@;
        let mut msgs: Vec<MsgTransfer> = Vec::new();
        let mut i: usize = 0;
        while i < payouts.len()
            invariant
                i <= payouts@.len(),
                payouts@.len() == participants@.len(),
                msgs@.len() == i,
                block_time_nanos + TIMEOUT_GRACE_NANOS <= u64::MAX,
                self@ == paid,
                pay_result(old(self)@, ids@, participants@) matches Ok(t) && t.surveys
                    == paid.surveys && t.rewarded == paid.rewarded,
                extends(*old(self), *self),
                mark_surveys == old(self).surveys.entries@.len(),
                mark_rewarded == old(self).rewarded_users.entries@.len(),
                forall|j: int|
                    0 <= j < participants@.len() ==> owed(
                        paid.surveys,
                        target_id(ids@, j),
                        participants@[j]@,
                        #[trigger] payouts@[j],
                    ),
                forall|j: int|
                    0 <= j < i ==> reward_transfer(
                        paid.surveys,
                        *config,
                        block_time_nanos,
                        sender@,
                        target_id(ids@, j),
                        participants@[j]@,
                        Ok::<MsgTransfer, ContractError>(#[trigger] msgs@[j]),
                    ),
            decreases payouts@.len() - i,
        {
            let payout = &payouts[i];
            assert(owed(
                paid.surveys,
                target_id(ids@, i as int),
                participants@[i as int]@,
                payouts@[i as int],
            ));
            match create_ibc_transfer(
                config,
                block_time_nanos,
                sender,
                payout.receiver.as_str(),
                payout.denom.as_str(),
                payout.amount,
            ) {
                Err(e) => {
                    self.surveys.rewind(mark_surveys);
                    self.rewarded_users.rewind(mark_rewarded);
                    assert(reward_transfer(
                        paid.surveys,
                        *config,
                        block_time_nanos,
                        sender@,
                        target_id(ids@, i as int),
                        participants@[i as int]@,
                        Err::<MsgTransfer, ContractError>(e),
                    ));
                    return Err(e);
                },
                Ok(msg) => {
                    msgs.push(msg);
                },
            }
            i = i + 1;
        }
        Ok(msgs)
    }

    /// What remains to be paid out for the survey `id`: the reward times the
    /// number of participants that can still be rewarded.
    pub fn amount_to_fund(&self, id: &String) -> (r: Result<u128, ContractError>)
        ensures
            !self.surveys@.contains_key(id@) ==> r == Err::<u128, ContractError>(
                ContractError::SurveyNotFound {  },
            ),
            self.surveys@.contains_key(id@) ==> match outstanding(self.surveys@[id@]) {
                Some(v) => r == Ok::<u128, ContractError>(v),
                None => r == Err::<u128, ContractError>(ContractError::ArithmeticError {  }),
            },
    {
        let info = match self.surveys.get(id) {
            None => {
                return Err(ContractError::SurveyNotFound {  });
            },
            Some(found) => found,
        };
        let open_places: u32 = match info.participants_limit.checked_sub(
            info.participants_rewarded,
        ) {
            Some(v) => v,
            None => {
                return Err(ContractError::ArithmeticError {  });
            },
        };
        let places: u128 = open_places as u128;
        match places.checked_mul(info.reward_amount) {
            Some(v) => Ok(v),
            None => Err(ContractError::ArithmeticError {  }),
        }
    }
}

/// Whether `p` is what `who` is owed for the survey `id`: the survey's reward, in its denomination.
pub open spec fn owed(
    surveys: Map<Seq<char>, SurveyInfo>,
    id: Seq<char>,
    who: Seq<char>,
    p: Payout,
) -> bool {
    surveys.contains_key(id) && p.receiver@ == who && p.denom@ == surveys[id].reward_denom@
        && p.amount == surveys[id].reward_amount
}

/// A survey is created once: after a creation under `id`, every further
/// creation under `id` is refused as "already exists", and the record of the
/// first stands.
pub proof fn lemma_create_once(
    surveys: Map<Seq<char>, SurveyInfo>,
    id: Seq<char>,
    first: SurveyInfo,
    second: SurveyInfo,
)
    requires
        create_result(surveys, id, first) is Ok,
    ensures
        create_result(create_result(surveys, id, first)->Ok_0, id, second) == Err::<
            Map<Seq<char>, SurveyInfo>,
            ContractError,
        >(ContractError::SurveyAlreadyExists {  }),
        create_result(surveys, id, first)->Ok_0[id] == first,
{
}

/// The first refusal in a batch stands: once a prefix of a batch is refused,
/// so is every longer prefix, with the same error.
pub proof fn lemma_refusal_stands(
    s: LedgerState,
    ids: Seq<String>,
    participants: Seq<String>,
    m: nat,
    n: nat,
)
    requires
        m <= n,
        pay_upto(s, ids, participants, m) is Err,
    ensures
        pay_upto(s, ids, participants, n) == pay_upto(s, ids, participants, m),
    decreases n,
{
    if m < n {
        lemma_refusal_stands(s, ids, participants, m, (n - 1) as nat);
    }
}

/// A cancelled survey pays nothing: once `id` has been cancelled, a batch of
/// one or more participants for it is refused as "already cancelled",
/// however many places are left.
pub proof fn lemma_cancelled_pays_nothing(
    s: LedgerState,
    managers: Map<Seq<char>, ManagerInfo>,
    id: Seq<char>,
    caller: Seq<char>,
    ids: Seq<String>,
    participants: Seq<String>,
)
    requires
        cancel_result(s.surveys, managers, id, caller) is Ok,
        ids.len() == 1,
        ids[0]@ == id,
        participants.len() > 0,
    ensures
        pay_result(
            (LedgerState {
                surveys: cancel_result(s.surveys, managers, id, caller)->Ok_0,
                rewarded: s.rewarded,
            }),
            ids,
            participants,
        ) == Err::<LedgerState, ContractError>(ContractError::SurveyAlreadyCancelled {  }),
{
    let t = LedgerState {
        surveys: cancel_result(s.surveys, managers, id, caller)->Ok_0,
        rewarded: s.rewarded,
    };
    assert(pay_upto(t, ids, participants, 0) == Ok::<LedgerState, ContractError>(t));
    assert(pay_upto(t, ids, participants, 1) == pay_one(t, id, participants[0]@));
    lemma_refusal_stands(t, ids, participants, 1, participants.len());
}

/// Whether no survey counts more rewards than its limit allows.
pub open spec fn within_limits(surveys: Map<Seq<char>, SurveyInfo>) -> bool {
    forall|k: Seq<char>| #[trigger]
        surveys.contains_key(k) ==> surveys[k].participants_rewarded
            <= surveys[k].participants_limit
}

/// Whether `after` is the survey `before` with at least as many rewards and
/// otherwise the same terms: creator, limit, reward, denomination, hash and
/// cancellation.
pub open spec fn same_terms(before: SurveyInfo, after: SurveyInfo) -> bool {
    after == (SurveyInfo { participants_rewarded: after.participants_rewarded, ..before })
        && before.participants_rewarded <= after.participants_rewarded
}

/// Rewarding the first `n` participants of a batch keeps every survey, changes
/// nothing of a survey but its count of rewards, which does not fall, and
/// keeps all counts within their limits if they were.
pub proof fn lemma_pay_keeps_terms(
    s: LedgerState,
    ids: Seq<String>,
    participants: Seq<String>,
    n: nat,
)
    requires
        pay_upto(s, ids, participants, n) is Ok,
    ensures
        forall|k: Seq<char>| #[trigger]
            s.surveys.contains_key(k) ==> pay_upto(
                s,
                ids,
                participants,
                n,
            )->Ok_0.surveys.contains_key(k) && same_terms(
                s.surveys[k],
                pay_upto(s, ids, participants, n)->Ok_0.surveys[k],
            ),
        within_limits(s.surveys) ==> within_limits(
            pay_upto(s, ids, participants, n)->Ok_0.surveys,
        ),
        forall|k: (Seq<char>, Seq<char>)|
            user_rewarded(s.rewarded, k.0, k.1) ==> user_rewarded(
                pay_upto(s, ids, participants, n)->Ok_0.rewarded,
                k.0,
                k.1,
            ),
    decreases n,
{
    if n > 0 {
        lemma_pay_keeps_terms(s, ids, participants, (n - 1) as nat);
        let t = pay_upto(s, ids, participants, (n - 1) as nat)->Ok_0;
        let u = pay_upto(s, ids, participants, n)->Ok_0;
        assert(pay_one(t, target_id(ids, n - 1), participants[n - 1]@) == Ok::<
            LedgerState,
            ContractError,
        >(u));
        assert forall|k: Seq<char>| #[trigger] s.surveys.contains_key(k) implies u.surveys.contains_key(
            k,
        ) && same_terms(s.surveys[k], u.surveys[k]) by {
            assert(t.surveys.contains_key(k));
        }
        if within_limits(s.surveys) {
            assert forall|k: Seq<char>| #[trigger] u.surveys.contains_key(k) implies u.surveys[k].participants_rewarded
                <= u.surveys[k].participants_limit by {
                if k != target_id(ids, n - 1) {
                    assert(t.surveys.contains_key(k));
                }
            }
        }
    }
}

/// A batch for a single survey that is paid counts each of its participants
/// once: the survey's rewards rise by the size of the batch, which the
/// survey's limit had room for. A batch that the limit has no room for is
/// therefore refused.
pub proof fn lemma_batch_counts(
    s: LedgerState,
    ids: Seq<String>,
    participants: Seq<String>,
    n: nat,
)
    requires
        ids.len() == 1,
        pay_upto(s, ids, participants, n) is Ok,
    ensures
        pay_upto(s, ids, participants, n)->Ok_0.surveys.dom() =~= s.surveys.dom(),
        n > 0 ==> s.surveys.contains_key(ids[0]@),
        s.surveys.contains_key(ids[0]@) ==> pay_upto(
            s,
            ids,
            participants,
            n,
        )->Ok_0.surveys[ids[0]@].participants_rewarded == s.surveys[ids[0]@].participants_rewarded
            + n,
        n > 0 ==> s.surveys[ids[0]@].participants_rewarded + n
            <= s.surveys[ids[0]@].participants_limit,
    decreases n,
{
    if n > 0 {
        lemma_batch_counts(s, ids, participants, (n - 1) as nat);
        lemma_pay_keeps_terms(s, ids, participants, n);
        let t = pay_upto(s, ids, participants, (n - 1) as nat)->Ok_0;
        assert(pay_one(t, ids[0]@, participants[n - 1]@) is Ok);
        assert(t.surveys.dom().contains(ids[0]@));
        assert(s.surveys.contains_key(ids[0]@));
    }
}

/// Creation and cancellation keep all counts of rewards within their
/// limits: a new survey counts none, and a cancellation changes no count.
pub proof fn lemma_limits_kept(
    surveys: Map<Seq<char>, SurveyInfo>,
    managers: Map<Seq<char>, ManagerInfo>,
    id: Seq<char>,
    info: SurveyInfo,
    caller: Seq<char>,
)
    requires
        within_limits(surveys),
        info.participants_rewarded == 0,
    ensures
        create_result(surveys, id, info) matches Ok(m) ==> within_limits(m),
        cancel_result(surveys, managers, id, caller) matches Ok(m) ==> within_limits(m)
            && m[id].is_cancelled && same_terms(
            (SurveyInfo { is_cancelled: true, ..surveys[id] }),
            m[id],
        ),
{
    if create_result(surveys, id, info) is Ok {
        let m = create_result(surveys, id, info)->Ok_0;
        assert forall|k: Seq<char>| #[trigger] m.contains_key(k) implies m[k].participants_rewarded
            <= m[k].participants_limit by {
            if k != id {
                assert(surveys.contains_key(k));
            }
        }
    }
    if cancel_result(surveys, managers, id, caller) is Ok {
        let m = cancel_result(surveys, managers, id, caller)->Ok_0;
        assert(surveys.contains_key(id));
        assert forall|k: Seq<char>| #[trigger] m.contains_key(k) implies m[k].participants_rewarded
            <= m[k].participants_limit by {
            assert(surveys.contains_key(k));
        }
    }
}

/// A batch that names a participant who was already rewarded for the survey
/// they are named for is refused, wherever in the batch they stand; a refused
/// batch changes nothing, as the contract of `pay` says.
pub proof fn lemma_rewarded_participant_refuses(
    s: LedgerState,
    ids: Seq<String>,
    participants: Seq<String>,
    j: int,
)
    requires
        0 <= j < participants.len(),
        user_rewarded(s.rewarded, target_id(ids, j), participants[j]@),
    ensures
        pay_result(s, ids, participants) is Err,
{
    if (ids.len() == 1 || ids.len() == participants.len()) && !batch_exceeds_limit(
        s,
        ids,
        participants,
    ) {
        if pay_upto(s, ids, participants, j as nat) is Ok {
            lemma_pay_keeps_terms(s, ids, participants, j as nat);
            let t = pay_upto(s, ids, participants, j as nat)->Ok_0;
            let key = (target_id(ids, j), participants[j]@);
            assert(user_rewarded(t.rewarded, key.0, key.1));
            assert(pay_one(t, target_id(ids, j), participants[j]@) is Err);
            assert(pay_upto(s, ids, participants, (j + 1) as nat) is Err);
            lemma_refusal_stands(s, ids, participants, (j + 1) as nat, participants.len());
        } else {
            lemma_refusal_stands(s, ids, participants, j as nat, participants.len());
        }
    }
}

} // verus!
