//! The oracle: the authority registry, the sliding window of observations,
//! the worker that signs observations, and the rule that admits them.

use vstd::prelude::*;
use crate::codec::{copy_bytes, le_bytes_u32, le_value_u32, same_bytes, scale_decode_u32, scale_encode_u32};
use crate::primitives::{AccountId, Moment};
use crate::signature::{
    is_signed, signature_verifies, sr25519_sign, SECRET_KEY_LENGTH, SEED_LENGTH, SIGNATURE_LENGTH,
};

verus! {

/// Position of an authority in the registry.
pub type AuthIndex = u32;

/// Public key of an authority.
pub type AuthorityId = Vec<u8>;

/// Number of a session.
pub type SessionIndex = u32;

/// The most observations the window holds.
pub const WINDOW_CAPACITY: usize = 100;

/// The slot under which the window is kept.
pub const RESULT_SLOT: u32 = 1;

/// The window after one more observation: appended while there is room,
/// otherwise the oldest one leaves first.
pub open spec fn window_push(window: Seq<u32>, value: u32) -> Seq<u32> {
    if window.len() < WINDOW_CAPACITY {
        window.push(value)
    } else {
        window.skip(1).push(value)
    }
}

/// The window after the observations `values`, in that order.
pub open spec fn window_feed(window: Seq<u32>, values: Seq<u32>) -> Seq<u32>
    decreases values.len(),
{
    if values.len() == 0 {
        window
    } else {
        window_push(window_feed(window, values.drop_last()), values.last())
    }
}

/// The last `WINDOW_CAPACITY` items of `history`, or all of it when shorter.
pub open spec fn latest(history: Seq<u32>) -> Seq<u32> {
    if history.len() <= WINDOW_CAPACITY {
        history
    } else {
        history.skip(history.len() - WINDOW_CAPACITY)
    }
}

/// One push onto the latest items of a history gives the latest items of the
/// longer history.
pub proof fn lemma_push_latest(history: Seq<u32>, value: u32)
    ensures
        window_push(latest(history), value) =~= latest(history.push(value)),
{
}

/// A window fed with any run of observations holds exactly the most recent
/// `WINDOW_CAPACITY` of everything it has seen, in order of arrival; while
/// fewer have arrived it holds them all.
pub proof fn lemma_window_keeps_latest(window: Seq<u32>, values: Seq<u32>)
    requires
        window.len() <= WINDOW_CAPACITY,
    ensures
        window_feed(window, values) == latest(window + values),
        window_feed(window, values).len() <= WINDOW_CAPACITY,
    decreases values.len(),
{
    if values.len() == 0 {
        assert(window + values =~= window);
    } else {
        let front = values.drop_last();
        lemma_window_keeps_latest(window, front);
        lemma_push_latest(window + front, values.last());
        assert((window + front).push(values.last()) =~= window + values);
    }
}

/// The observations kept on the ledger.
#[derive(Debug)]
pub struct OracleResult {
    values: Vec<u32>,
    last_update: Moment,
}

impl OracleResult {
    /// The window never outgrows its capacity.
    pub closed spec fn wf(&self) -> bool {
        self.values@.len() <= WINDOW_CAPACITY
    }

    /// The observations held, oldest first.
    pub closed spec fn window(&self) -> Seq<u32> {
        self.values@
    }

    /// When the window last changed.
    pub closed spec fn updated(&self) -> Moment {
        self.last_update
    }

    /// A well-formed window holds no more than its capacity.
    pub proof fn lemma_wf_bound(&self)
        requires
            self.wf(),
        ensures
            self.window().len() <= WINDOW_CAPACITY,
    {
    }

    /// An empty window.
    pub fn new() -> (r: Self)
        ensures
            r.wf(),
            r.window() == Seq::<u32>::empty(),
            r.updated() == 0,
    {
        OracleResult { values: Vec::new(), last_update: 0 }
    }

    /// The observations held, oldest first.
    pub fn values(&self) -> (r: &Vec<u32>)
        ensures
            r@ == self.window(),
    {
        &self.values
    }

    /// When the window last changed.
    pub fn last_update(&self) -> (r: Moment)
        ensures
            r == self.updated(),
    {
        self.last_update
    }

    /// Takes in one observation at time `now`.
    pub fn record(&mut self, value: u32, now: Moment)
        requires
            old(self).wf(),
        ensures
            final(self).wf(),
            final(self).window() == window_push(old(self).window(), value),
            final(self).updated() == now,
    {
        if self.values.len() >= WINDOW_CAPACITY {
            self.values.remove(0);
            proof {
                assert(self.values@ =~= old(self).values@.skip(1));
            }
        }
        self.values.push(value);
        self.last_update = now;
    }
}

/// An observation together with the position its signer claims.
#[derive(Clone, Copy, Debug, PartialEq, Eq, Structural)]
pub struct OracleMessage {
    pub value: u32,
    pub authority_index: AuthIndex,
}

/// The bytes that are signed for a message: the value, then the index.
pub open spec fn message_encoding(message: OracleMessage) -> Seq<u8> {
    le_bytes_u32(message.value) + le_bytes_u32(message.authority_index)
}

impl OracleMessage {
    /// The bytes that are signed for this message.
    pub fn encode(&self) -> (out: Vec<u8>)
        ensures
            out@ == message_encoding(*self),
    {
        let mut out = scale_encode_u32(self.value);
        let mut tail = scale_encode_u32(self.authority_index);
        out.append(&mut tail);
        out
    }
}

/// What can go wrong in the worker that runs beside the ledger.
#[derive(Clone, Copy, Debug, PartialEq, Eq, Structural)]
pub enum OffchainErr {
    /// The worker's own status could not be read.
    DecodeWorkerStatus,
    /// A local key could not sign.
    FailedSigning,
    /// The request for an observation brought no usable answer.
    NetworkState,
    /// The transaction pool did not take a submission.
    SubmitTransaction,
}

impl OffchainErr {
    /// The line that is logged for this error.
    pub fn message(&self) -> (text: &'static str)
        ensures
            text@ == match *self {
                OffchainErr::DecodeWorkerStatus => "Offchain error: decoding WorkerStatus failed!"@,
                OffchainErr::FailedSigning => "Offchain error: signing failed!"@,
                OffchainErr::NetworkState => "Offchain error: fetching network state failed!"@,
                OffchainErr::SubmitTransaction => "Offchain error: submitting transaction failed!"@,
            },
    {
        match self {
            OffchainErr::DecodeWorkerStatus => "Offchain error: decoding WorkerStatus failed!",
            OffchainErr::FailedSigning => "Offchain error: signing failed!",
            OffchainErr::NetworkState => "Offchain error: fetching network state failed!",
            OffchainErr::SubmitTransaction => "Offchain error: submitting transaction failed!",
        }
    }
}

/// A call that reaches the ledger without an account behind it.
#[derive(Clone, Debug, PartialEq, Eq)]
pub enum Call {
    /// Fold the observation of `message` into the window.
    UpdateFeed { message: OracleMessage, signature: Vec<u8> },
    /// Any other call.
    Other,
}

/// Why a call is turned away before it enters the pool.
#[derive(Clone, Copy, Debug, PartialEq, Eq, Structural)]
pub enum InvalidTransaction {
    /// The call is not one that may arrive unsigned.
    Call,
    /// The claimed authority does not exist or did not sign the message.
    BadProof,
}

/// What the pool is told about an admitted call.
#[derive(Clone, Debug, PartialEq, Eq)]
pub struct ValidTransaction {
    pub priority: u64,
    pub depends_on: Vec<Vec<u8>>,
    pub provides: Vec<Vec<u8>>,
    pub longevity: u64,
    pub propagate: bool,
}

/// The tag under which the pool keeps at most one submission: the session,
/// then the authority's key.
pub open spec fn dedup_tag(session: SessionIndex, authority: Seq<u8>) -> Seq<u8> {
    le_bytes_u32(session) + authority
}

/// The one descriptor with which a submission of `authority` in `session` is
/// admitted: lowest priority, no prerequisite, the tag of that authority,
/// valid without limit, passed on to peers.
pub open spec fn admitted_as(tx: ValidTransaction, session: SessionIndex, authority: Seq<u8>) -> bool {
    &&& tx.priority == 0
    &&& tx.depends_on@.len() == 0
    &&& tx.provides@.len() == 1
    &&& tx.provides@[0]@ == dedup_tag(session, authority)
    &&& tx.longevity == u64::MAX
    &&& tx.propagate
}

/// Two descriptors for the same authority in the same session carry the same
/// tag, whatever the observations were.
pub proof fn lemma_same_authority_same_tag(
    first: ValidTransaction,
    second: ValidTransaction,
    session: SessionIndex,
    authority: Seq<u8>,
)
    requires
        admitted_as(first, session, authority),
        admitted_as(second, session, authority),
    ensures
        first.provides@[0]@ == second.provides@[0]@,
{
}

/// A key of this node: the public half that the registry may list, and the
/// secret seed that signs for it.
#[derive(Clone, Debug, PartialEq, Eq)]
pub struct LocalKey {
    pub public: AuthorityId,
    pub seed: Vec<u8>,
}

/// The keys of a registry as plain byte strings.
pub open spec fn key_seqs(keys: Seq<Vec<u8>>) -> Seq<Seq<u8>> {
    Seq::new(keys.len(), |i: int| keys[i]@)
}

/// The second halves of `validators`, in order.
pub open spec fn validator_keys(validators: Seq<(AccountId, AuthorityId)>) -> Seq<Seq<u8>> {
    Seq::new(validators.len(), |i: int| validators[i].1@)
}

/// Whether this node holds the secret for `key`.
pub open spec fn is_local(locals: Seq<LocalKey>, key: Seq<u8>) -> bool {
    exists|j: int| 0 <= j < locals.len() && #[trigger] locals[j].public@ == key
}

/// The positions in the registry whose key this node holds, ascending.
pub open spec fn local_indices(keys: Seq<Seq<u8>>, locals: Seq<LocalKey>) -> Seq<int>
    decreases keys.len(),
{
    if keys.len() == 0 {
        Seq::empty()
    } else {
        let rest = local_indices(keys.drop_last(), locals);
        if is_local(locals, keys.last()) {
            rest.push(keys.len() - 1)
        } else {
            rest
        }
    }
}

/// The positions listed are exactly those whose key this node holds, each
/// once and in ascending order.
pub proof fn lemma_local_indices(keys: Seq<Seq<u8>>, locals: Seq<LocalKey>)
    ensures
        forall|k: int|
            0 <= k < local_indices(keys, locals).len() ==> {
                &&& 0 <= (#[trigger] local_indices(keys, locals)[k]) < keys.len()
                &&& is_local(locals, keys[local_indices(keys, locals)[k]])
            },
        forall|k: int, m: int|
            0 <= k < m < local_indices(keys, locals).len() ==> (#[trigger] local_indices(keys, locals)[k])
                < (#[trigger] local_indices(keys, locals)[m]),
        forall|i: int|
            0 <= i < keys.len() && is_local(locals, #[trigger] keys[i]) ==> local_indices(
                keys,
                locals,
            ).contains(i),
    decreases keys.len(),
{
    let all = local_indices(keys, locals);
    if keys.len() > 0 {
        let front = keys.drop_last();
        let rest = local_indices(front, locals);
        lemma_local_indices(front, locals);
        assert forall|k: int| 0 <= k < all.len() implies {
            &&& 0 <= (#[trigger] all[k]) < keys.len()
            &&& is_local(locals, keys[all[k]])
        } by {
            if k < rest.len() {
                assert(all[k] == rest[k]);
                assert(front[rest[k]] == keys[rest[k]]);
            }
        }
        assert forall|k: int, m: int| 0 <= k < m < all.len() implies (#[trigger] all[k]) < (#[trigger] all[m]) by {
            assert(all[k] == rest[k]);
            if m < rest.len() {
                assert(all[m] == rest[m]);
            }
        }
        assert forall|i: int| 0 <= i < keys.len() && is_local(locals, #[trigger] keys[i]) implies all.contains(
            i,
        ) by {
            if i < keys.len() - 1 {
                assert(front[i] == keys[i]);
                assert(rest.contains(i));
                let k = choose|k: int| 0 <= k < rest.len() && rest[k] == i;
                assert(all[k] == i);
            } else {
                assert(all[all.len() - 1] == i);
            }
        }
    }
}

/// Whether the local key at `j` is the first whose public half is `key`.
pub open spec fn is_first_local(locals: Seq<LocalKey>, key: Seq<u8>, j: int) -> bool {
    &&& 0 <= j < locals.len()
    &&& locals[j].public@ == key
    &&& forall|k: int| 0 <= k < j ==> (#[trigger] locals[k]).public@ != key
}

/// Where the first local key stands whose public half is `key`.
pub open spec fn first_local(locals: Seq<LocalKey>, key: Seq<u8>) -> int {
    choose|j: int| is_first_local(locals, key, j)
}

/// The seed that signs for `key`: that of the first local key with this
/// public half.
pub open spec fn signing_seed(locals: Seq<LocalKey>, key: Seq<u8>) -> Seq<u8> {
    locals[first_local(locals, key)].seed@
}

/// There is one first local key for `key` at most.
pub proof fn lemma_first_local(locals: Seq<LocalKey>, key: Seq<u8>, j: int)
    requires
        is_first_local(locals, key, j),
    ensures
        first_local(locals, key) == j,
        signing_seed(locals, key) == locals[j].seed@,
{
    let c = first_local(locals, key);
    assert(is_first_local(locals, key, c));
    if c < j {
        assert(locals[c].public@ != key);
    }
    if j < c {
        assert(locals[j].public@ != key);
    }
}

/// What the attempt of the worker is for the authority at `index`, whose
/// signing seed is `seed`. With a seed of `SEED_LENGTH` bytes it is a signed
/// call carrying `value` and that index. With a seed that has neither that
/// length nor the length of a full secret key it is a signing failure. With
/// a full secret key it is the call where the key is well formed and the
/// failure where it is not.
pub open spec fn attempt_for(attempt: Result<Call, OffchainErr>, value: u32, index: int, seed: Seq<u8>) -> bool {
    match attempt {
        Ok(Call::UpdateFeed { message, signature }) => {
            &&& message.value == value
            &&& message.authority_index == index
            &&& signature@.len() == SIGNATURE_LENGTH
            &&& (seed.len() == SEED_LENGTH || seed.len() == SECRET_KEY_LENGTH)
        },
        Ok(Call::Other) => false,
        Err(e) => e == OffchainErr::FailedSigning && seed.len() != SEED_LENGTH,
    }
}

/// One attempt per position in `indices`, in the same order, each made with
/// the seed that signs for the key of `keys` at that position.
pub open spec fn attempts_for(
    attempts: Seq<Result<Call, OffchainErr>>,
    value: u32,
    indices: Seq<int>,
    keys: Seq<Seq<u8>>,
    locals: Seq<LocalKey>,
) -> bool {
    &&& attempts.len() == indices.len()
    &&& forall|k: int|
        0 <= k < attempts.len() ==> attempt_for(
            #[trigger] attempts[k],
            value,
            indices[k],
            signing_seed(locals, keys[indices[k]]),
        )
}

/// The first local key whose public half is `key`.
pub fn find_local(locals: &Vec<LocalKey>, key: &Vec<u8>) -> (found: Option<usize>)
    ensures
        found is Some <==> is_local(locals@, key@),
        found matches Some(j) ==> is_first_local(locals@, key@, j as int),
{
    let mut j: usize = 0;
    while j < locals.len()
        invariant
            j <= locals.len(),
            forall|k: int| 0 <= k < j ==> locals@[k].public@ != key@,
        decreases locals.len() - j,
    {
        if same_bytes(&locals[j].public, key) {
            return Some(j);
        }
        j += 1;
    }
    None
}

/// The call that carries a signed message, or the error when no signature
/// was made.
pub fn signed_call(message: OracleMessage, signature: Option<Vec<u8>>) -> (attempt: Result<Call, OffchainErr>)
    ensures
        attempt == match signature {
            Some(s) => Ok::<Call, OffchainErr>(Call::UpdateFeed { message, signature: s }),
            None => Err::<Call, OffchainErr>(OffchainErr::FailedSigning),
        },
{
    match signature {
        Some(s) => Ok(Call::UpdateFeed { message, signature: s }),
        None => Err(OffchainErr::FailedSigning),
    }
}

/// The observation in the body of an answered request: its first four bytes,
/// least significant first. A body shorter than that is a failed request.
pub fn fetch(body: &[u8]) -> (value: Result<u32, OffchainErr>)
    ensures
        body@.len() >= 4 ==> value == Ok::<u32, OffchainErr>(le_value_u32(body@) as u32),
        body@.len() < 4 ==> value == Err::<u32, OffchainErr>(OffchainErr::NetworkState),
{
    match scale_decode_u32(body) {
        Some(v) => Ok(v),
        None => Err(OffchainErr::NetworkState),
    }
}

/// Decides on a submission once the signature has been checked against the
/// key of the claimed authority.
pub fn verdict_for(session: SessionIndex, authority: &AuthorityId, signature_valid: bool) -> (verdict: Result<
    ValidTransaction,
    InvalidTransaction,
>)
    ensures
        signature_valid ==> verdict is Ok && admitted_as(verdict->Ok_0, session, authority@),
        !signature_valid ==> verdict == Err::<ValidTransaction, InvalidTransaction>(
            InvalidTransaction::BadProof,
        ),
{
    if !signature_valid {
        return Err(InvalidTransaction::BadProof);
    }
    let mut tag = scale_encode_u32(session);
    let mut key = copy_bytes(authority);
    tag.append(&mut key);
    let mut provides: Vec<Vec<u8>> = Vec::new();
    provides.push(tag);
    Ok(
        ValidTransaction {
            priority: 0,
            depends_on: Vec::new(),
            provides,
            longevity: u64::MAX,
            propagate: true,
        },
    )
}

/// The oracle's state on the ledger: who may submit, and what was observed.
#[derive(Debug)]
pub struct Oracle {
    keys: Vec<AuthorityId>,
    result: Option<OracleResult>,
}

impl Oracle {
    /// Positions fit the index type, and the window is within its capacity.
    pub closed spec fn wf(&self) -> bool {
        &&& self.keys@.len() <= u32::MAX
        &&& self.result matches Some(r) ==> r.wf()
    }

    /// The current authorities, by position.
    pub closed spec fn authorities(&self) -> Seq<Seq<u8>> {
        key_seqs(self.keys@)
    }

    /// The observations held, oldest first; `None` before the first one.
    pub closed spec fn window(&self) -> Option<Seq<u32>> {
        match self.result {
            Some(r) => Some(r.window()),
            None => None,
        }
    }

    /// When the window last changed.
    pub closed spec fn updated(&self) -> Option<Moment> {
        match self.result {
            Some(r) => Some(r.updated()),
            None => None,
        }
    }

    /// The verdict that admission owes for `call` in `session`.
    pub open spec fn owed_verdict(&self, call: Call, session: SessionIndex, verdict: Result<
        ValidTransaction,
        InvalidTransaction,
    >) -> bool {
        match call {
            Call::UpdateFeed { message, signature } => {
                let index = message.authority_index as int;
                if index < self.authorities().len() && signature_verifies(
                    signature@,
                    message_encoding(message),
                    self.authorities()[index],
                ) {
                    verdict is Ok && admitted_as(verdict->Ok_0, session, self.authorities()[index])
                } else {
                    verdict == Err::<ValidTransaction, InvalidTransaction>(InvalidTransaction::BadProof)
                }
            },
            Call::Other => verdict == Err::<ValidTransaction, InvalidTransaction>(
                InvalidTransaction::Call,
            ),
        }
    }

    /// The window of a well-formed oracle holds no more than its capacity,
    /// and every position of its registry fits the index of a message.
    pub proof fn lemma_wf_bounds(&self)
        requires
            self.wf(),
        ensures
            self.authorities().len() <= u32::MAX,
            self.window() matches Some(w) ==> w.len() <= WINDOW_CAPACITY,
    {
    }

    /// An oracle with no authority and no observation.
    pub fn new() -> (r: Self)
        ensures
            r.wf(),
            r.authorities().len() == 0,
            r.authorities() == Seq::<Seq<u8>>::empty(),
            r.window() is None,
            r.updated() is None,
    {
        let r = Oracle { keys: Vec::new(), result: None };
        proof {
            assert(r.authorities() =~= Seq::<Seq<u8>>::empty());
        }
        r
    }

    /// The current authorities, by position.
    pub fn keys(&self) -> (r: &Vec<AuthorityId>)
        ensures
            key_seqs(r@) == self.authorities(),
    {
        &self.keys
    }

    /// The window kept under `id`, if there is one.
    pub fn results(&self, id: u32) -> (r: Option<&OracleResult>)
        requires
            self.wf(),
        ensures
            id != RESULT_SLOT ==> r is None,
            id == RESULT_SLOT ==> match r {
                Some(w) => w.wf() && self.window() == Some(w.window()) && self.updated() == Some(
                    w.updated(),
                ),
                None => self.window() is None,
            },
    {
        if id != RESULT_SLOT {
            return None;
        }
        self.result.as_ref()
    }

    /// Sets the authorities at genesis. An empty list changes nothing; a
    /// registry that is already populated must not be set again.
    pub fn initialize_keys(&mut self, keys: Vec<AuthorityId>)
        requires
            old(self).wf(),
            keys@.len() <= u32::MAX,
            keys@.len() > 0 ==> old(self).authorities().len() == 0,
        ensures
            final(self).wf(),
            final(self).authorities() == if keys@.len() > 0 {
                key_seqs(keys@)
            } else {
                old(self).authorities()
            },
            final(self).window() == old(self).window(),
            final(self).updated() == old(self).updated(),
    {
        if keys.len() > 0 {
            self.keys = keys;
        }
    }

    /// Replaces the authorities wholesale, as a new session begins.
    pub fn rotate(&mut self, keys: Vec<AuthorityId>)
        requires
            old(self).wf(),
            keys@.len() <= u32::MAX,
        ensures
            final(self).wf(),
            final(self).authorities() == key_seqs(keys@),
            final(self).window() == old(self).window(),
            final(self).updated() == old(self).updated(),
    {
        self.keys = keys;
    }

    /// The keys of the validators of the first session become the
    /// authorities.
    pub fn on_genesis_session(&mut self, validators: &Vec<(AccountId, AuthorityId)>)
        requires
            old(self).wf(),
            validators@.len() <= u32::MAX,
            validators@.len() > 0 ==> old(self).authorities().len() == 0,
        ensures
            final(self).wf(),
            final(self).authorities() == if validators@.len() > 0 {
                validator_keys(validators@)
            } else {
                old(self).authorities()
            },
            final(self).window() == old(self).window(),
            final(self).updated() == old(self).updated(),
    {
        let keys = authority_ids(validators);
        self.initialize_keys(keys);
    }

    /// The keys of the validators of the new session replace the
    /// authorities; the queued validators are not looked at.
    pub fn on_new_session(
        &mut self,
        _changed: bool,
        validators: &Vec<(AccountId, AuthorityId)>,
        _queued_validators: &Vec<(AccountId, AuthorityId)>,
    )
        requires
            old(self).wf(),
            validators@.len() <= u32::MAX,
        ensures
            final(self).wf(),
            final(self).authorities() == validator_keys(validators@),
            final(self).window() == old(self).window(),
            final(self).updated() == old(self).updated(),
    {
        let keys = authority_ids(validators);
        self.rotate(keys);
    }

    /// Nothing is done before a session ends.
    pub fn on_before_session_ending(&self) {
    }

    /// Nothing is done when a validator is disabled.
    pub fn on_disabled(&self, _i: usize) {
    }

    /// Folds the observation of a message into the window, at time `now`.
    /// The signature is not looked at: whether the message may enter at all
    /// is decided at admission, before this runs.
    pub fn update_feed(&mut self, message: OracleMessage, _signature: &[u8], now: Moment)
        requires
            old(self).wf(),
        ensures
            final(self).wf(),
            final(self).authorities() == old(self).authorities(),
            final(self).window() == Some(
                match old(self).window() {
                    Some(w) => window_push(w, message.value),
                    None => seq![message.value],
                },
            ),
            final(self).updated() == Some(now),
    {
        match self.result.take() {
            Some(mut r) => {
                r.record(message.value, now);
                self.result = Some(r);
            },
            None => {
                let mut r = OracleResult::new();
                r.record(message.value, now);
                proof {
                    assert(r.window() =~= seq![message.value]);
                }
                self.result = Some(r);
            },
        }
    }

    /// For each position of the registry whose key this node holds, first to
    /// last: a message with `value` and that position, signed with the seed
    /// of the first local key for it, ready to be submitted. A seed of
    /// `SEED_LENGTH` bytes always signs. A key that cannot sign yields an
    /// error in its place and does not hold up the others.
    pub fn do_update(&self, value: u32, local_keys: &Vec<LocalKey>) -> (attempts: Vec<Result<Call, OffchainErr>>)
        requires
            self.wf(),
        ensures
            attempts_for(
                attempts@,
                value,
                local_indices(self.authorities(), local_keys@),
                self.authorities(),
                local_keys@,
            ),
    {
        let mut attempts: Vec<Result<Call, OffchainErr>> = Vec::new();
        let mut i: usize = 0;
        proof {
            assert(self.authorities().take(0) =~= Seq::<Seq<u8>>::empty());
        }
        while i < self.keys.len()
            invariant
                self.wf(),
                i <= self.keys@.len(),
                attempts_for(
                    attempts@,
                    value,
                    local_indices(self.authorities().take(i as int), local_keys@),
                    self.authorities(),
                    local_keys@,
                ),
            decreases self.keys.len() - i,
        {
            proof {
                let next = self.authorities().take(i + 1);
                assert(next.drop_last() =~= self.authorities().take(i as int));
                assert(next.last() == self.keys@[i as int]@);
            }
            match find_local(local_keys, &self.keys[i]) {
                Some(j) => {
                    proof {
                        lemma_first_local(local_keys@, self.keys@[i as int]@, j as int);
                    }
                    let message = OracleMessage { value, authority_index: i as u32 };
                    let encoded = message.encode();
                    let signature = sr25519_sign(local_keys[j].seed.as_slice(), encoded.as_slice());
                    let attempt = signed_call(message, signature);
                    attempts.push(attempt);
                },
                None => {},
            }
            i += 1;
        }
        proof {
            assert(self.authorities().take(self.keys@.len() as int) =~= self.authorities());
        }
        attempts
    }

    /// One cycle of the worker, given the body of the answered request: the
    /// observation is read and one submission is prepared per local
    /// authority.
    pub fn offchain_worker(&self, body: &[u8], local_keys: &Vec<LocalKey>) -> (outcome: Result<
        Vec<Result<Call, OffchainErr>>,
        OffchainErr,
    >)
        requires
            self.wf(),
        ensures
            body@.len() < 4 ==> outcome == Err::<Vec<Result<Call, OffchainErr>>, OffchainErr>(
                OffchainErr::NetworkState,
            ),
            body@.len() >= 4 ==> outcome is Ok && attempts_for(
                outcome->Ok_0@,
                le_value_u32(body@) as u32,
                local_indices(self.authorities(), local_keys@),
                self.authorities(),
                local_keys@,
            ),
    {
        match fetch(body) {
            Ok(value) => Ok(self.do_update(value, local_keys)),
            Err(e) => Err(e),
        }
    }

    /// Decides whether an unsigned call may enter the pool in `session`. A
    /// feed update is admitted when its index names an authority of the
    /// registry and that authority's key verifies the signature over the
    /// encoded message; it then gets the tag of that authority and session.
    /// An index outside the registry or a signature that does not verify is a
    /// bad proof, and any other call is not recognised.
    pub fn validate_unsigned(&self, call: &Call, current_session: SessionIndex) -> (verdict: Result<
        ValidTransaction,
        InvalidTransaction,
    >)
        requires
            self.wf(),
        ensures
            self.owed_verdict(*call, current_session, verdict),
            call matches Call::UpdateFeed { message, signature } ==> (message.authority_index
                >= self.authorities().len() ==> verdict == Err::<ValidTransaction, InvalidTransaction>(
                InvalidTransaction::BadProof,
            )),
    {
        match call {
            Call::UpdateFeed { message, signature } => {
                let index = message.authority_index as usize;
                if index >= self.keys.len() {
                    return Err(InvalidTransaction::BadProof);
                }
                let authority = &self.keys[index];
                let encoded = message.encode();
                let signature_valid = is_signed(authority.as_slice(), encoded.as_slice(), signature.as_slice());
                verdict_for(current_session, authority, signature_valid)
            },
            Call::Other => Err(InvalidTransaction::Call),
        }
    }

    /// Runs an unsigned call at time `now`: it is held to admission first,
    /// and only an admitted feed update reaches the window. A call that is
    /// turned away changes nothing.
    pub fn apply_unsigned(&mut self, call: &Call, current_session: SessionIndex, now: Moment) -> (verdict: Result<
        ValidTransaction,
        InvalidTransaction,
    >)
        requires
            old(self).wf(),
        ensures
            final(self).wf(),
            old(self).owed_verdict(*call, current_session, verdict),
            final(self).authorities() == old(self).authorities(),
            verdict is Err ==> final(self).window() == old(self).window() && final(self).updated() == old(
                self,
            ).updated(),
            verdict is Ok ==> (match *call {
                Call::UpdateFeed { message, signature } => {
                    &&& final(self).window() == Some(
                        match old(self).window() {
                            Some(w) => window_push(w, message.value),
                            None => seq![message.value],
                        },
                    )
                    &&& final(self).updated() == Some(now)
                },
                Call::Other => false,
            }),
    {
        let verdict = self.validate_unsigned(call, current_session);
        match (&verdict, call) {
            (Ok(_), Call::UpdateFeed { message, signature }) => {
                self.update_feed(*message, signature.as_slice(), now);
            },
            _ => {},
        }
        verdict
    }
}

/// The keys of `validators`, in order.
pub fn authority_ids(validators: &Vec<(AccountId, AuthorityId)>) -> (keys: Vec<AuthorityId>)
    ensures
        key_seqs(keys@) == validator_keys(validators@),
        keys@.len() == validators@.len(),
{
    let mut keys: Vec<AuthorityId> = Vec::new();
    let mut i: usize = 0;
    while i < validators.len()
        invariant
            i <= validators.len(),
            keys@.len() == i,
            forall|k: int| 0 <= k < i ==> (#[trigger] keys@[k])@ == validators@[k].1@,
        decreases validators.len() - i,
    {
        let key = copy_bytes(&validators[i].1);
        keys.push(key);
        i += 1;
    }
    proof {
        assert(key_seqs(keys@) =~= validator_keys(validators@));
    }
    keys
}

} // verus!
