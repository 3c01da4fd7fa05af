//! Secret storage replies and OAuth outcomes in the main loop.

use vstd::prelude::*;

use crate::admission::{
    admission_staged, distinct_refreshes, expired_request_ends_once, failed_refresh_ends_its_flight,
    first_reader, flight, hydrated, in_flight, prompt_refresh_failed, refresh_at,
    refresh_completed, rejections_after_completion, timed_out, without_flight,
    PendingPromptAdmission, PromptCredentialAdmissionState, PromptOAuthRefreshKey, PromptOAuthRpc,
    RefreshKey, RefreshStart,
};
use crate::credentials::{content_generation, generation_of, CredentialObservation};
use crate::deadline::PromptCredentialDeadlineCommand;
use crate::names::NameTable;
use crate::oauth::{
    merge_chatgpt_refresh, merged_auth, refresh_takes_what_the_reply_holds, JwtClaims, OAuthError,
    OAuthTokenRefresh, OpenAiAuth,
};
use crate::profiles::{
    generations, ProviderCredential, ProviderCredentialReference, SecretReply,
};
use crate::prompts::{credential_deadline, deadline_after, stored_path};
use crate::routes::{Now, Routes};
use crate::runtime::{Effect, ProviderRuntime};

verus! {

/// Answer of secret storage to one correlated request.
pub enum SecretPayload {
    /// File contents, with the records they decode to.
    Contents { contents: Vec<u8>, oauth: Option<OpenAiAuth>, api_key: Option<String> },
    /// A compare-and-swap won.
    Swapped,
    /// A compare-and-swap lost to another writer.
    GenerationMismatch,
    /// Storage positively has no such record.
    NotFound,
    /// Storage answered with something else.
    Unexpected,
    /// The request failed otherwise.
    Failed,
}

/// What an answer means to a credential read.
pub open spec fn read_reply(payload: SecretPayload) -> SecretReply {
    match payload {
        SecretPayload::Contents { contents, oauth, api_key } => SecretReply::Contents {
            contents,
            oauth,
            api_key,
        },
        SecretPayload::Swapped => SecretReply::Unexpected,
        SecretPayload::Unexpected => SecretReply::Unexpected,
        SecretPayload::NotFound => SecretReply::Failed { not_found: true },
        SecretPayload::GenerationMismatch => SecretReply::Failed { not_found: false },
        SecretPayload::Failed => SecretReply::Failed { not_found: false },
    }
}

fn into_read_reply(payload: SecretPayload) -> (res: SecretReply)
    ensures
        res == read_reply(payload),
{
    match payload {
        SecretPayload::Contents { contents, oauth, api_key } => SecretReply::Contents {
            contents,
            oauth,
            api_key,
        },
        SecretPayload::Swapped => SecretReply::Unexpected,
        SecretPayload::Unexpected => SecretReply::Unexpected,
        SecretPayload::NotFound => SecretReply::Failed { not_found: true },
        SecretPayload::GenerationMismatch => SecretReply::Failed { not_found: false },
        SecretPayload::Failed => SecretReply::Failed { not_found: false },
    }
}

/// A compare-and-swap answer after which the authoritative record is read again.
pub open spec fn requires_reload(payload: SecretPayload) -> bool {
    payload is Swapped || payload is GenerationMismatch
}

/// Both a won compare-and-swap and a generation-mismatch loser reload the authoritative record
/// before any prompt adopts refreshed credentials.
pub fn prompt_oauth_cas_requires_reload(payload: &SecretPayload) -> (res: bool)
    ensures
        res == requires_reload(*payload),
{
    match payload {
        SecretPayload::Swapped => true,
        SecretPayload::GenerationMismatch => true,
        _ => false,
    }
}

/// The replies that hydrate `admission` from one answer.
pub open spec fn admission_replies(
    admission: PendingPromptAdmission,
    payload: SecretPayload,
) -> Map<Seq<char>, SecretReply> {
    match stored_path(admission.profiles.credential_map(), admission.kind.provider()) {
        Some(path) => Map::empty().insert(path@, read_reply(payload)),
        None => Map::empty(),
    }
}

/// What one credential reply does to the admission at `i` that waited for it: it is hydrated, its
/// refresh is staged, and its correlation is consumed.
pub open spec fn reply_admitted_at(
    before: &ProviderRuntime,
    after: &ProviderRuntime,
    i: int,
    payload: SecretPayload,
    claims: &JwtClaims,
    now_ms: u64,
    effects_before: Seq<Effect>,
    effects_after: Seq<Effect>,
    fresh: PromptCredentialAdmissionState,
    staged: PromptCredentialAdmissionState,
    start: Option<RefreshStart>,
) -> bool {
    let waiting = before.admission.admissions@[i];
    &&& fresh.oauth_refreshes == before.admission.oauth_refreshes
    &&& fresh.oauth_rpcs == before.admission.oauth_rpcs
    &&& fresh.admissions@ == before.admission.admissions@.update(i, fresh.admissions@[i])
    &&& hydrated(waiting, fresh.admissions@[i], admission_replies(waiting, payload))
    &&& fresh.admissions@[i].request_id == waiting.request_id
    &&& admission_staged(
        &fresh,
        &staged,
        i,
        &before.routes.rejections,
        &after.routes.rejections,
        before.routes.identities@,
        after.routes.identities@,
        &before.routes.codex,
        claims,
        now_ms,
        start,
    )
    &&& after.admission.oauth_refreshes == staged.oauth_refreshes
    &&& after.admission.oauth_rpcs == staged.oauth_rpcs
    &&& after.admission.admissions@ == staged.admissions@.update(
        i,
        (PendingPromptAdmission { request_id: None, ..staged.admissions@[i] }),
    )
    &&& effects_after == match start {
        Some(start) => effects_before.push(Effect::RefreshOAuth(start)),
        None => effects_before,
    }
    &&& *after == (ProviderRuntime {
        admission: after.admission,
        routes: (Routes {
            identities: after.routes.identities,
            rejections: after.routes.rejections,
            ..before.routes
        }),
        ..*before
    })
}

/// What one credential reply does to whoever waited for it. Nobody waiting makes it a late or
/// duplicate reply, which changes nothing.
pub open spec fn reply_admitted(
    before: &ProviderRuntime,
    after: &ProviderRuntime,
    request_id: Seq<char>,
    payload: SecretPayload,
    claims: &JwtClaims,
    now_ms: u64,
    effects_before: Seq<Effect>,
    effects_after: Seq<Effect>,
) -> bool {
    ||| exists|
        i: int,
        fresh: PromptCredentialAdmissionState,
        staged: PromptCredentialAdmissionState,
        start: Option<RefreshStart>,
    |
        first_reader(before.admission.admissions@, request_id, i) && #[trigger] reply_admitted_at(
            before,
            after,
            i,
            payload,
            claims,
            now_ms,
            effects_before,
            effects_after,
            fresh,
            staged,
            start,
        )
    ||| {
        &&& forall|i: int|
            0 <= i < before.admission.admissions@.len() ==> !(
            #[trigger] before.admission.admissions@[i]).reads(request_id)
        &&& *after == *before
        &&& effects_after == effects_before
    }
}

/// What starting one storage operation of a prompt-owned refresh does: it is remembered under its
/// request and its deadline is armed.
pub open spec fn operation_started(
    before: &ProviderRuntime,
    after: &ProviderRuntime,
    request_id: String,
    operation: PromptOAuthRpc,
    request: Effect,
    now: Now,
    effects_before: Seq<Effect>,
    effects_after: Seq<Effect>,
) -> bool {
    &&& after.admission.oauth_rpcs@ == before.admission.oauth_rpcs@.insert(request_id@, operation)
    &&& *after == (ProviderRuntime {
        admission: (PromptCredentialAdmissionState {
            oauth_rpcs: after.admission.oauth_rpcs,
            ..before.admission
        }),
        ..*before
    })
    &&& effects_after == effects_before.push(request).push(
        Effect::Deadline(
            PromptCredentialDeadlineCommand::Schedule {
                request_id,
                due: credential_deadline(now.moment),
            },
        ),
    )
}

/// What a failed prompt-owned refresh does.
pub open spec fn refresh_given_up(
    before: &ProviderRuntime,
    after: &ProviderRuntime,
    key: RefreshKey,
    error: Option<OAuthError>,
    now_ms: u64,
) -> bool {
    &&& prompt_refresh_failed(
        &before.admission,
        &after.admission,
        key,
        error,
        before.routes.rejections.rejections(),
        after.routes.rejections.rejections(),
        now_ms,
    )
    &&& after.routes.rejections.unauthorized_map() == before.routes.rejections.unauthorized_map()
    &&& *after == (ProviderRuntime {
        admission: after.admission,
        routes: (Routes { rejections: after.routes.rejections, ..before.routes }),
        ..*before
    })
}

/// What an authoritative record does to the refresh that waited for it.
pub open spec fn refresh_adopted(
    before: &ProviderRuntime,
    after: &ProviderRuntime,
    key: RefreshKey,
    authoritative: OpenAiAuth,
    claims: &JwtClaims,
) -> bool {
    &&& after.admission.oauth_rpcs == before.admission.oauth_rpcs
    &&& after.admission.oauth_refreshes@ == without_flight(
        before.admission.oauth_refreshes@,
        key,
    )
    &&& after.admission.admissions@.len() == before.admission.admissions@.len()
    &&& forall|i: int|
        0 <= i < before.admission.admissions@.len() ==> refresh_completed(
            before.admission.admissions@[i],
            #[trigger] after.admission.admissions@[i],
            key,
            authoritative.content(),
            claims,
        )
    &&& after.routes.rejections.rejections() == rejections_after_completion(
        before.admission.admissions@,
        key,
        authoritative.content(),
        claims,
        before.routes.rejections.rejections(),
    )
    &&& after.routes.rejections.unauthorized_map() == before.routes.rejections.unauthorized_map()
    &&& *after == (ProviderRuntime {
        admission: after.admission,
        routes: (Routes { rejections: after.routes.rejections, ..before.routes }),
        ..*before
    })
}

/// The generation observed with a reloaded record replaces what its waiters had observed.
pub open spec fn waiter_observed(
    waiter: PendingPromptAdmission,
    settled: PendingPromptAdmission,
    after: PendingPromptAdmission,
    key: RefreshKey,
    contents: Seq<u8>,
) -> bool {
    if waiter.awaits(key) {
        &&& after == (PendingPromptAdmission { observations: after.observations, ..settled })
        &&& match after.observations {
            Some(observations) => generations(observations@) == Map::empty().insert(
                waiter.kind.provider(),
                Some(generation_of(contents)),
            ),
            None => false,
        }
    } else {
        after == settled
    }
}

/// What the answer to a reload does: a decodable record is adopted, anything else gives the
/// refresh up, and the observed generation is remembered whenever there were contents.
pub open spec fn reload_answered(
    before: &ProviderRuntime,
    after: &ProviderRuntime,
    key: RefreshKey,
    payload: SecretPayload,
    claims: &JwtClaims,
    now_ms: u64,
) -> bool {
    match payload {
        SecretPayload::Contents { contents, oauth, .. } => exists|settled: ProviderRuntime|
            {
                &&& match oauth {
                    Some(authoritative) => refresh_adopted(
                        before,
                        &settled,
                        key,
                        authoritative,
                        claims,
                    ),
                    None => refresh_given_up(before, &settled, key, None, now_ms),
                }
                &&& #[trigger] observations_replaced(before, &settled, after, key, contents@)
            },
        _ => refresh_given_up(before, after, key, None, now_ms),
    }
}

/// Every waiter's observation is replaced.
pub open spec fn observations_replaced(
    before: &ProviderRuntime,
    settled: &ProviderRuntime,
    after: &ProviderRuntime,
    key: RefreshKey,
    contents: Seq<u8>,
) -> bool {
    &&& after.admission.admissions@.len() == settled.admission.admissions@.len()
    &&& forall|i: int|
        0 <= i < settled.admission.admissions@.len() ==> waiter_observed(
            before.admission.admissions@[i],
            settled.admission.admissions@[i],
            #[trigger] after.admission.admissions@[i],
            key,
            contents,
        )
    &&& *after == (ProviderRuntime {
        admission: (PromptCredentialAdmissionState {
            admissions: after.admission.admissions,
            ..settled.admission
        }),
        ..*settled
    })
}

/// What the answer to one storage operation of a prompt-owned refresh does. Both a won and a lost
/// swap read the authoritative record before anyone adopts it.
pub open spec fn operation_answered(
    before: &ProviderRuntime,
    after: &ProviderRuntime,
    operation: PromptOAuthRpc,
    payload: SecretPayload,
    next_id: String,
    claims: &JwtClaims,
    now: Now,
    effects_before: Seq<Effect>,
    effects_after: Seq<Effect>,
) -> bool {
    match operation {
        PromptOAuthRpc::CompareAndSwap { key } => if requires_reload(payload) {
            operation_started(
                before,
                after,
                next_id,
                PromptOAuthRpc::Reload { key },
                Effect::ReadCredential { request_id: next_id, path: key.path },
                now,
                effects_before,
                effects_after,
            )
        } else {
            &&& refresh_given_up(before, after, key.content(), None, now.unix_ms)
            &&& effects_after == effects_before
        },
        PromptOAuthRpc::Reload { key } => {
            &&& reload_answered(before, after, key.content(), payload, claims, now.unix_ms)
            &&& effects_after == effects_before
        },
    }
}

/// `after` is `before` without the operation of `request_id`.
pub open spec fn operation_taken(
    before: &ProviderRuntime,
    after: &ProviderRuntime,
    request_id: Seq<char>,
) -> bool {
    &&& after.admission.oauth_rpcs@ == before.admission.oauth_rpcs@.remove(request_id)
    &&& *after == (ProviderRuntime {
        admission: (PromptCredentialAdmissionState {
            oauth_rpcs: after.admission.oauth_rpcs,
            ..before.admission
        }),
        ..*before
    })
}

/// What one answer of secret storage does: its deadline is canceled and the operation or admission
/// that waited for it continues.
pub open spec fn storage_answered(
    before: &ProviderRuntime,
    after: &ProviderRuntime,
    request_id: String,
    payload: SecretPayload,
    next_id: String,
    claims: &JwtClaims,
    now: Now,
    effects_before: Seq<Effect>,
    effects_after: Seq<Effect>,
) -> bool {
    let head = effects_before.push(
        Effect::Deadline(PromptCredentialDeadlineCommand::Cancel(request_id)),
    );
    if before.admission.oauth_rpcs@.contains_key(request_id@) {
        exists|taken: ProviderRuntime|
            {
                &&& #[trigger] operation_taken(before, &taken, request_id@)
                &&& operation_answered(
                    &taken,
                    after,
                    before.admission.oauth_rpcs@[request_id@],
                    payload,
                    next_id,
                    claims,
                    now,
                    head,
                    effects_after,
                )
            }
    } else {
        reply_admitted(
            before,
            after,
            request_id@,
            payload,
            claims,
            now.unix_ms,
            head,
            effects_after,
        )
    }
}

/// What the outcome of a prompt-owned network refresh does: tokens of the same account are
/// published with compare-and-swap, anything else gives the refresh up, and the outcome of a
/// refresh that nobody owns any more changes nothing.
pub open spec fn network_refresh_finished(
    before: &ProviderRuntime,
    after: &ProviderRuntime,
    key: PromptOAuthRefreshKey,
    result: Result<OAuthTokenRefresh, OAuthError>,
    request_id: String,
    claims: &JwtClaims,
    now: Now,
    effects_before: Seq<Effect>,
    effects_after: Seq<Effect>,
) -> bool {
    if !in_flight(before.admission.oauth_refreshes@, key.content()) {
        *after == *before && effects_after == effects_before
    } else {
        let current = flight(before.admission.oauth_refreshes@, key.content()).current;
        match result {
            Ok(tokens) => match merged_auth(current.content(), tokens, claims) {
                Ok(expected) => exists|replacement: OpenAiAuth|
                    {
                        &&& #[trigger] replacement.content() == expected
                        &&& operation_started(
                            before,
                            after,
                            request_id,
                            PromptOAuthRpc::CompareAndSwap { key },
                            Effect::SwapCredential {
                                request_id,
                                path: key.path,
                                expected_generation: key.generation,
                                replacement,
                            },
                            now,
                            effects_before,
                            effects_after,
                        )
                    },
                Err(()) => {
                    &&& refresh_given_up(before, after, key.content(), None, now.unix_ms)
                    &&& effects_after == effects_before
                },
            },
            Err(error) => {
                &&& refresh_given_up(before, after, key.content(), Some(error), now.unix_ms)
                &&& effects_after == effects_before
            },
        }
    }
}

/// What an expired credential request does: an operation's refresh is given up, a read becomes
/// credential-missing and ready, and a late notice changes nothing.
pub open spec fn request_expired(
    before: &ProviderRuntime,
    after: &ProviderRuntime,
    request_id: Seq<char>,
    now_ms: u64,
) -> bool {
    exists|expired: PromptCredentialAdmissionState, key: Option<PromptOAuthRefreshKey>|
        {
            let middle = ProviderRuntime { admission: expired, ..*before };
            &&& #[trigger] timed_out(&before.admission, &expired, request_id, key)
            &&& expired.oauth_refreshes == before.admission.oauth_refreshes
            &&& match key {
                Some(key) => refresh_given_up(&middle, after, key.content(), None, now_ms),
                None => *after == middle,
            }
        }
}

impl ProviderRuntime {
    fn start_operation(
        &mut self,
        request_id: String,
        operation: PromptOAuthRpc,
        request: Effect,
        now: Now,
        out: &mut Vec<Effect>,
    )
        requires
            old(self).wf(),
        ensures
            final(self).wf(),
            operation_started(
                old(self),
                final(self),
                request_id,
                operation,
                request,
                now,
                old(out)@,
                final(out)@,
            ),
    {
        out.push(request);
        out.push(
            Effect::Deadline(
                PromptCredentialDeadlineCommand::Schedule {
                    request_id: request_id.clone(),
                    due: deadline_after(now.moment),
                },
            ),
        );
        self.admission.oauth_rpcs.insert(request_id, operation);
    }

    fn give_up_refresh(
        &mut self,
        key: &PromptOAuthRefreshKey,
        error: Option<&OAuthError>,
        now_ms: u64,
    )
        requires
            old(self).wf(),
        ensures
            final(self).wf(),
            refresh_given_up(
                old(self),
                final(self),
                key.content(),
                match error {
                    Some(error) => Some(*error),
                    None => None,
                },
                now_ms,
            ),
    {
        self.admission.fail_prompt_oauth_refresh(
            key,
            error,
            &mut self.routes.rejections,
            now_ms,
        );
    }

    /// Replaces the observation of every admission at a marked position.
    fn replace_observations(
        &mut self,
        waiting: &Vec<bool>,
        contents: &Vec<u8>,
        Ghost(waiters): Ghost<Seq<PendingPromptAdmission>>,
        Ghost(key): Ghost<RefreshKey>,
    )
        requires
            old(self).wf(),
            waiting@.len() == old(self).admission.admissions@.len(),
            waiters.len() == waiting@.len(),
            forall|i: int|
                0 <= i < waiters.len() ==> #[trigger] waiting@[i] == waiters[i].awaits(key),
            forall|i: int|
                0 <= i < waiters.len() ==> (
                #[trigger] old(self).admission.admissions@[i]).kind == waiters[i].kind,
        ensures
            final(self).wf(),
            final(self).admission.admissions@.len() == old(self).admission.admissions@.len(),
            forall|i: int|
                0 <= i < waiters.len() ==> waiter_observed(
                    waiters[i],
                    old(self).admission.admissions@[i],
                    #[trigger] final(self).admission.admissions@[i],
                    key,
                    contents@,
                ),
            *final(self) == (ProviderRuntime {
                admission: (PromptCredentialAdmissionState {
                    admissions: final(self).admission.admissions,
                    ..old(self).admission
                }),
                ..*old(self)
            }),
    {
        let mut i: usize = 0;
        while i < waiting.len()
            invariant
                i <= waiting@.len(),
                waiting@.len() == old(self).admission.admissions@.len(),
                waiting@.len() == self.admission.admissions@.len(),
                waiters.len() == waiting@.len(),
                self.wf(),
                forall|j: int|
                    0 <= j < waiters.len() ==> #[trigger] waiting@[j] == waiters[j].awaits(key),
                forall|j: int|
                    0 <= j < waiters.len() ==> (
                    #[trigger] old(self).admission.admissions@[j]).kind == waiters[j].kind,
                forall|j: int|
                    0 <= j < i ==> waiter_observed(
                        waiters[j],
                        old(self).admission.admissions@[j],
                        #[trigger] self.admission.admissions@[j],
                        key,
                        contents@,
                    ),
                forall|j: int|
                    i <= j < waiting@.len() ==> #[trigger] self.admission.admissions@[j] == old(
                        self,
                    ).admission.admissions@[j],
                *self == (ProviderRuntime {
                    admission: (PromptCredentialAdmissionState {
                        admissions: self.admission.admissions,
                        ..old(self).admission
                    }),
                    ..*old(self)
                }),
            decreases waiting@.len() - i,
        {
            if waiting[i] {
                let mut observations: NameTable<CredentialObservation> = NameTable::new();
                let provider = self.admission.admissions[i].kind.prompt().model.provider.clone();
                assert(provider@ == old(self).admission.admissions@[i as int].kind.provider());
                let generation = content_generation(contents.as_slice());
                observations.insert(provider, CredentialObservation::Contents(generation));
                assert(generations(observations@) =~= Map::empty().insert(
                    provider@,
                    Some(generation_of(contents@)),
                ));
                let admission = &mut self.admission.admissions[i];
                admission.observations = Some(observations);
            }
            i = i + 1;
        }
    }

    /// Continues a prompt-owned refresh with the answer to its reload.
    fn handle_reload_answer(
        &mut self,
        key: &PromptOAuthRefreshKey,
        payload: SecretPayload,
        claims: &JwtClaims,
        now_ms: u64,
    )
        requires
            old(self).wf(),
        ensures
            final(self).wf(),
            reload_answered(old(self), final(self), key.content(), payload, claims, now_ms),
    {
        let (contents, oauth) = match payload {
            SecretPayload::Contents { contents, oauth, .. } => (contents, oauth),
            _ => {
                self.give_up_refresh(key, None, now_ms);
                return ;
            },
        };
        let waiting = self.admission.waiting_for(key);
        match oauth {
            Some(authoritative) => {
                self.admission.complete_prompt_oauth_refresh(
                    key,
                    &authoritative,
                    &mut self.routes.rejections,
                    claims,
                );
                assert(refresh_adopted(old(self), self, key.content(), authoritative, claims));
            },
            None => {
                self.give_up_refresh(key, None, now_ms);
            },
        }
        let ghost settled = *self;
        proof {
            assert forall|i: int| 0 <= i < old(self).admission.admissions@.len() implies (
            #[trigger] self.admission.admissions@[i]).kind == old(
                self,
            ).admission.admissions@[i].kind by {}
        }
        self.replace_observations(
            &waiting,
            &contents,
            Ghost(old(self).admission.admissions@),
            Ghost(key.content()),
        );
        assert(observations_replaced(old(self), &settled, self, key.content(), contents@));
    }

    /// Records one answer of secret storage. `next_id` names a follow-up request, if one is
    /// needed. Unknown answers belong to another caller or an invalidated deadline and are ignored.
    pub fn handle_extension_data_result(
        &mut self,
        request_id: String,
        payload: SecretPayload,
        next_id: String,
        claims: &JwtClaims,
        now: Now,
        out: &mut Vec<Effect>,
    )
        requires
            old(self).wf(),
        ensures
            final(self).wf(),
            storage_answered(
                old(self),
                final(self),
                request_id,
                payload,
                next_id,
                claims,
                now,
                old(out)@,
                final(out)@,
            ),
    {
        out.push(Effect::Deadline(PromptCredentialDeadlineCommand::Cancel(request_id.clone())));
        if let Some(operation) = self.admission.oauth_rpcs.remove(request_id.as_str()) {
            let ghost taken = *self;
            assert(operation_taken(old(self), &taken, request_id@));
            match operation {
                PromptOAuthRpc::CompareAndSwap { key } => {
                    if prompt_oauth_cas_requires_reload(&payload) {
                        let request = Effect::ReadCredential {
                            request_id: next_id.clone(),
                            path: key.path.clone(),
                        };
                        self.start_operation(
                            next_id,
                            PromptOAuthRpc::Reload { key },
                            request,
                            now,
                            out,
                        );
                    } else {
                        self.give_up_refresh(&key, None, now.unix_ms);
                    }
                },
                PromptOAuthRpc::Reload { key } => {
                    self.handle_reload_answer(&key, payload, claims, now.unix_ms);
                },
            }
            return ;
        }
        let index: usize = match self.admission.find_reader(&request_id) {
            Some(index) => index,
            None => {
                return ;
            },
        };
        let ghost waiting = self.admission.admissions@[index as int];
        let ghost head = out@;
        let provider = self.admission.admissions[index].kind.prompt().model.provider.clone();
        let path = self.admission.admissions[index].profiles.stored_credential_path(
            provider.as_str(),
        );
        let mut replies: NameTable<SecretReply> = NameTable::new();
        if let Some(path) = path {
            replies.insert(path, into_read_reply(payload));
        }
        assert(replies@ == admission_replies(waiting, payload));
        self.admission.hydrate(index, &replies);
        let ghost fresh = self.admission;
        let start = self.admission.stage_prompt_oauth_refresh(
            index,
            &mut self.routes.rejections,
            &mut self.routes.identities,
            &self.routes.codex,
            claims,
            now.unix_ms,
        );
        let ghost staged = self.admission;
        let ghost started = start;
        let admission = &mut self.admission.admissions[index];
        admission.request_id = None;
        if let Some(start) = start {
            out.push(Effect::RefreshOAuth(start));
        }
        assert(reply_admitted_at(
            old(self),
            self,
            index as int,
            payload,
            claims,
            now.unix_ms,
            head,
            out@,
            fresh,
            staged,
            started,
        ));
    }

    /// Continues a prompt-owned refresh with the outcome of the token endpoint. `request_id` names
    /// the publication of the new tokens, if they are published.
    pub fn handle_oauth_refresh_finished(
        &mut self,
        key: PromptOAuthRefreshKey,
        result: Result<OAuthTokenRefresh, OAuthError>,
        request_id: String,
        claims: &JwtClaims,
        now: Now,
        out: &mut Vec<Effect>,
    )
        requires
            old(self).wf(),
        ensures
            final(self).wf(),
            network_refresh_finished(
                old(self),
                final(self),
                key,
                result,
                request_id,
                claims,
                now,
                old(out)@,
                final(out)@,
            ),
    {
        let current = match self.admission.refresh_current(&key) {
            Some(current) => current,
            None => {
                return ;
            },
        };
        match result {
            Ok(tokens) => {
                match merge_chatgpt_refresh(&current, tokens, claims) {
                    Ok(replacement) => {
                        let request = Effect::SwapCredential {
                            request_id: request_id.clone(),
                            path: key.path.clone(),
                            expected_generation: key.generation.clone(),
                            replacement,
                        };
                        self.start_operation(
                            request_id,
                            PromptOAuthRpc::CompareAndSwap { key },
                            request,
                            now,
                            out,
                        );
                    },
                    Err(_) => {
                        self.give_up_refresh(&key, None, now.unix_ms);
                    },
                }
            },
            Err(error) => {
                self.give_up_refresh(&key, Some(&error), now.unix_ms);
            },
        }
    }

    /// Invalidates one credential request whose deadline passed.
    pub fn handle_credential_timeout(&mut self, request_id: &String, now_ms: u64)
        requires
            old(self).wf(),
        ensures
            final(self).wf(),
            request_expired(old(self), final(self), request_id@, now_ms),
    {
        let key = self.admission.apply_prompt_credential_timeout(request_id);
        let ghost expired = self.admission;
        assert(timed_out(&old(self).admission, &expired, request_id@, key));
        if let Some(key) = key {
            self.give_up_refresh(&key, None, now_ms);
        }
    }
}

/// A reply to a read says what storage said: contents with the records they hold, a missing record
/// only where storage positively has none, and a failure for everything that is no answer.
pub proof fn read_reply_says_what_storage_said(payload: SecretPayload)
    ensures
        payload matches SecretPayload::Contents { contents, oauth, api_key } ==> read_reply(payload)
            == (SecretReply::Contents { contents, oauth, api_key }),
        read_reply(payload) is Contents <==> payload is Contents,
        read_reply(payload) == (SecretReply::Failed { not_found: true }) <==> payload is NotFound,
        payload is Failed || payload is GenerationMismatch ==> read_reply(payload)
            == (SecretReply::Failed { not_found: false }),
        payload is Swapped || payload is Unexpected ==> read_reply(payload) is Unexpected,
{
}

/// Whoever won a compare-and-swap, the stored record is read again; any other answer has none.
pub proof fn decided_swap_is_read_again(payload: SecretPayload)
    ensures
        payload is Swapped || payload is GenerationMismatch <==> requires_reload(payload),
{
}

/// A reply belongs to the read that an admission is waiting for, under the path of its provider's
/// stored credential.
pub proof fn reply_belongs_to_its_path(
    admission: PendingPromptAdmission,
    payload: SecretPayload,
    reference: ProviderCredentialReference,
    path: Seq<char>,
)
    requires
        admission.profiles.credential_map().contains_key(admission.kind.provider()),
        admission.profiles.credential_map()[admission.kind.provider()]
            == ProviderCredential::Stored(reference),
    ensures
        admission_replies(admission, payload).contains_key(path) <==> path == reference.path@,
        admission_replies(admission, payload)[reference.path@] == read_reply(payload),
{
}

/// An answered read stops its deadline, and answers the first admission that waits for it and no
/// other; an answer that nobody waits for changes nothing else.
pub proof fn answered_read_reaches_one_admission(
    before: &ProviderRuntime,
    after: &ProviderRuntime,
    request_id: String,
    payload: SecretPayload,
    next_id: String,
    claims: &JwtClaims,
    now: Now,
    effects_before: Seq<Effect>,
    effects_after: Seq<Effect>,
    other: int,
)
    requires
        storage_answered(
            before,
            after,
            request_id,
            payload,
            next_id,
            claims,
            now,
            effects_before,
            effects_after,
        ),
        !before.admission.oauth_rpcs@.contains_key(request_id@),
    ensures
        effects_after.len() > effects_before.len(),
        effects_after[effects_before.len() as int] == Effect::Deadline(
            PromptCredentialDeadlineCommand::Cancel(request_id),
        ),
        after.admission.admissions@.len() == before.admission.admissions@.len(),
        after.admission.oauth_rpcs == before.admission.oauth_rpcs,
        after.prompt_queue == before.prompt_queue,
        0 <= other < before.admission.admissions@.len()
            && before.admission.admissions@[other].request_id is None
            ==> after.admission.admissions@[other] == before.admission.admissions@[other],
        0 <= other < before.admission.admissions@.len() && (
        before.admission.admissions@[other].request_id matches Some(read) && read@ == request_id@)
            && (forall|j: int|
            0 <= j < other ==> !((
            #[trigger] before.admission.admissions@[j]).request_id matches Some(read) && read@
                == request_id@)) ==> {
            &&& after.admission.admissions@[other].request_id is None
            &&& after.admission.admissions@[other].observations is Some
            &&& after.admission.admissions@[other].kind
                == before.admission.admissions@[other].kind
        },
{
    let head = effects_before.push(
        Effect::Deadline(PromptCredentialDeadlineCommand::Cancel(request_id)),
    );
    let line = before.admission.admissions@;
    if exists|
        i: int,
        fresh: PromptCredentialAdmissionState,
        staged: PromptCredentialAdmissionState,
        start: Option<RefreshStart>,
    |
        first_reader(line, request_id@, i) && #[trigger] reply_admitted_at(
            before,
            after,
            i,
            payload,
            claims,
            now.unix_ms,
            head,
            effects_after,
            fresh,
            staged,
            start,
        ) {
        let (i, fresh, staged, start) = choose|
            i: int,
            fresh: PromptCredentialAdmissionState,
            staged: PromptCredentialAdmissionState,
            start: Option<RefreshStart>,
        |
            first_reader(line, request_id@, i) && #[trigger] reply_admitted_at(
                before,
                after,
                i,
                payload,
                claims,
                now.unix_ms,
                head,
                effects_after,
                fresh,
                staged,
                start,
            );
        assert(line[i].reads(request_id@));
        if 0 <= other < line.len() && (line[other].request_id matches Some(read) && read@
            == request_id@) && (forall|j: int|
            0 <= j < other ==> !((#[trigger] line[j]).request_id matches Some(read) && read@
                == request_id@)) {
            assert(line[other].reads(request_id@));
            if i < other {
                assert(!(line[i].request_id matches Some(read) && read@ == request_id@));
            }
            assert(i == other);
        }
    } else {
        if 0 <= other < line.len() && (line[other].request_id matches Some(read) && read@
            == request_id@) {
            assert(line[other].reads(request_id@));
        }
    }
}

/// New tokens are published for the generation that they were asked for: the replacement holds the
/// tokens of the reply, and what the reply lacks from the current credentials, it is written to the
/// path of that generation under the expectation that it still stands, with a deadline.
pub proof fn new_tokens_are_swapped_in(
    before: &ProviderRuntime,
    after: &ProviderRuntime,
    key: PromptOAuthRefreshKey,
    tokens: OAuthTokenRefresh,
    request_id: String,
    claims: &JwtClaims,
    now: Now,
    effects_before: Seq<Effect>,
    effects_after: Seq<Effect>,
    i: int,
)
    requires
        network_refresh_finished(
            before,
            after,
            key,
            Ok(tokens),
            request_id,
            claims,
            now,
            effects_before,
            effects_after,
        ),
        distinct_refreshes(before.admission.oauth_refreshes@),
        0 <= i < before.admission.oauth_refreshes@.len(),
        before.admission.oauth_refreshes@[i].key.content() == key.content(),
        merged_auth(
            before.admission.oauth_refreshes@[i].current.content(),
            tokens,
            claims,
        ) is Ok,
    ensures
        effects_after.len() == effects_before.len() + 2,
        effects_after[effects_before.len() as int] matches Effect::SwapCredential {
            request_id: asked,
            path,
            expected_generation,
            replacement,
        } && {
            let current = before.admission.oauth_refreshes@[i].current;
            &&& asked == request_id
            &&& path == key.path
            &&& expected_generation == key.generation
            &&& match tokens.access_token {
                Some(access) => replacement.access_token@ == access@,
                None => replacement.access_token@ == current.access_token@,
            }
            &&& match tokens.refresh_token {
                Some(refresh) => replacement.refresh_token@ == refresh@,
                None => replacement.refresh_token@ == current.refresh_token@,
            }
            &&& match tokens.expires_at_ms {
                Some(expires) => replacement.expires_at_ms == expires,
                None => replacement.expires_at_ms == current.expires_at_ms,
            }
        },
        effects_after.last() matches Effect::Deadline(
            PromptCredentialDeadlineCommand::Schedule { request_id: timed, .. },
        ) && timed == request_id,
        after.admission.oauth_rpcs@.contains_key(request_id@),
        after.admission.oauth_rpcs@[request_id@] == (PromptOAuthRpc::CompareAndSwap { key }),
        after.admission.admissions == before.admission.admissions,
        after.admission.oauth_refreshes == before.admission.oauth_refreshes,
{
    let refreshes = before.admission.oauth_refreshes@;
    assert(refresh_at(refreshes, key.content(), i));
    let found = choose|k: int| refresh_at(refreshes, key.content(), k);
    assert(refresh_at(refreshes, key.content(), found));
    if found < i {
        assert(refreshes[found].key.content() != refreshes[i].key.content());
    } else if i < found {
        assert(refreshes[i].key.content() != refreshes[found].key.content());
    }
    assert(flight(refreshes, key.content()) == refreshes[i]);
    refresh_takes_what_the_reply_holds(
        refreshes[i].current.content(),
        tokens,
        claims,
        merged_auth(refreshes[i].current.content(), tokens, claims)->Ok_0,
    );
}

/// Tokens that nobody asked for any more, or of a generation that is not under way, are dropped.
pub proof fn late_tokens_are_dropped(
    before: &ProviderRuntime,
    after: &ProviderRuntime,
    key: PromptOAuthRefreshKey,
    result: Result<OAuthTokenRefresh, OAuthError>,
    request_id: String,
    claims: &JwtClaims,
    now: Now,
    effects_before: Seq<Effect>,
    effects_after: Seq<Effect>,
)
    requires
        network_refresh_finished(
            before,
            after,
            key,
            result,
            request_id,
            claims,
            now,
            effects_before,
            effects_after,
        ),
        forall|i: int|
            0 <= i < before.admission.oauth_refreshes@.len() ==> (
            #[trigger] before.admission.oauth_refreshes@[i]).key.content() != key.content(),
    ensures
        *after == *before,
        effects_after == effects_before,
{
    if in_flight(before.admission.oauth_refreshes@, key.content()) {
        let i = choose|i: int| #[trigger]
            refresh_at(before.admission.oauth_refreshes@, key.content(), i);
        assert(before.admission.oauth_refreshes@[i].key.content() == key.content());
    }
}

/// A waiter learns the generation of the contents that were read last; nobody else does.
pub proof fn waiters_learn_the_read_generation(
    waiter: PendingPromptAdmission,
    settled: PendingPromptAdmission,
    after: PendingPromptAdmission,
    key: RefreshKey,
    contents: Seq<u8>,
)
    requires
        waiter_observed(waiter, settled, after, key, contents),
    ensures
        !waiter.awaits(key) ==> after == settled,
        waiter.awaits(key) ==> {
            &&& after.kind == settled.kind
            &&& after.profiles == settled.profiles
            &&& after.oauth_refresh == settled.oauth_refresh
            &&& after.observations matches Some(observations)
            &&& observations@.contains_key(waiter.kind.provider())
            &&& observations@[waiter.kind.provider()] matches CredentialObservation::Contents(
                generation,
            )
            &&& generation@ == generation_of(contents)
        },
{
    if waiter.awaits(key) {
        let provider = waiter.kind.provider();
        let observations = after.observations->0;
        let expected = Map::<Seq<char>, Option<Seq<char>>>::empty().insert(
            provider,
            Some(generation_of(contents)),
        );
        assert(generations(observations@) == expected);
        assert(expected.contains_key(provider));
        assert(generations(observations@).contains_key(provider));
        assert(generations(observations@)[provider] == observations@[provider].generation());
    }
}

/// An operation of a refresh that gets no answer in time gives the refresh up: it is not expected
/// any more, and whoever waited for that refresh waits no longer.
pub proof fn expired_operation_gives_up_its_refresh(
    before: &ProviderRuntime,
    after: &ProviderRuntime,
    request_id: Seq<char>,
    now_ms: u64,
    key: RefreshKey,
    i: int,
    waiter: int,
)
    requires
        request_expired(before, after, request_id, now_ms),
        distinct_refreshes(before.admission.oauth_refreshes@),
        before.admission.oauth_rpcs@.contains_key(request_id),
        match before.admission.oauth_rpcs@[request_id] {
            PromptOAuthRpc::CompareAndSwap { key: operation } => operation.content() == key,
            PromptOAuthRpc::Reload { key: operation } => operation.content() == key,
        },
    ensures
        !after.admission.oauth_rpcs@.contains_key(request_id),
        0 <= i < before.admission.oauth_refreshes@.len()
            && before.admission.oauth_refreshes@[i].key.content() == key ==> {
            &&& after.admission.oauth_refreshes@ == before.admission.oauth_refreshes@.remove(i)
            &&& 0 <= waiter < before.admission.admissions@.len()
                && before.admission.admissions@[waiter].awaits(key)
                ==> after.admission.admissions@[waiter].oauth_refresh is None
        },
        after.admission.admissions@.len() == before.admission.admissions@.len(),
        after.routes.rejections.rejections() == before.routes.rejections.rejections(),
        after.prompt_queue == before.prompt_queue,
{
    let (expired, given_up) = choose|
        expired: PromptCredentialAdmissionState,
        given_up: Option<PromptOAuthRefreshKey>,
    |
        {
            let middle = ProviderRuntime { admission: expired, ..*before };
            &&& #[trigger] timed_out(&before.admission, &expired, request_id, given_up)
            &&& expired.oauth_refreshes == before.admission.oauth_refreshes
            &&& match given_up {
                Some(given_up) => refresh_given_up(
                    &middle,
                    after,
                    given_up.content(),
                    None,
                    now_ms,
                ),
                None => *after == middle,
            }
        };
    expired_request_ends_once(&before.admission, &expired, request_id, given_up);
    failed_refresh_ends_its_flight(
        &expired,
        &after.admission,
        key,
        None,
        before.routes.rejections.rejections(),
        after.routes.rejections.rejections(),
        now_ms,
        i,
        waiter,
    );
    assert(after.admission.oauth_rpcs == expired.oauth_rpcs);
}

} // verus!
