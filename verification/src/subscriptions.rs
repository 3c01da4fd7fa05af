//! Which harness events the provider follows, and how.

use vstd::prelude::*;

use crate::models::ProviderModelInfo;

verus! {

/// A harness event that the provider follows.
#[derive(Clone, Copy, Debug, PartialEq, Eq, Structural)]
pub enum ProviderEvent {
    PromptPrewarmRequested,
    CacheRefreshRequested,
    CacheRefreshCancelRequested,
    SessionDir,
    CancelPrompt,
    SessionShutdown,
    RetryPrompt,
    PromptCreated,
}

/// How an event reaches the provider.
#[derive(Clone, Copy, Debug, PartialEq, Eq, Structural)]
pub enum Delivery {
    /// Published while the provider runs.
    Live,
    /// Addressed to the provider while it runs, without a subscription.
    RoutedLive,
    /// Repeated from the past, to catch up.
    Restore,
}

/// The provider handles this delivery of this event. Provider work starts from fresh live state;
/// session directories are current-state facts, so theirs is the only past that is asked for.
pub open spec fn followed(event: ProviderEvent, delivery: Delivery) -> bool {
    match event {
        ProviderEvent::RetryPrompt => delivery == Delivery::RoutedLive,
        ProviderEvent::PromptCreated => delivery == Delivery::RoutedLive,
        ProviderEvent::SessionDir => delivery == Delivery::Live || delivery == Delivery::Restore,
        _ => delivery == Delivery::Live,
    }
}

/// Reports whether the provider handles this delivery of this event.
pub fn handles_delivery(event: ProviderEvent, delivery: Delivery) -> (res: bool)
    ensures
        res == followed(event, delivery),
{
    match (event, delivery) {
        (ProviderEvent::RetryPrompt, Delivery::RoutedLive) => true,
        (ProviderEvent::RetryPrompt, _) => false,
        (ProviderEvent::PromptCreated, Delivery::RoutedLive) => true,
        (ProviderEvent::PromptCreated, _) => false,
        (ProviderEvent::SessionDir, Delivery::RoutedLive) => false,
        (ProviderEvent::SessionDir, _) => true,
        (_, Delivery::Live) => true,
        (_, _) => false,
    }
}

/// The events that the provider subscribes to, in the order of the subscription.
pub fn live_selectors() -> (res: Vec<ProviderEvent>)
    ensures
        res@ == seq![
            ProviderEvent::PromptPrewarmRequested,
            ProviderEvent::CacheRefreshRequested,
            ProviderEvent::CacheRefreshCancelRequested,
            ProviderEvent::SessionDir,
            ProviderEvent::CancelPrompt,
            ProviderEvent::SessionShutdown,
        ],
        forall|event: ProviderEvent|
            #![trigger followed(event, Delivery::Live)]
            res@.contains(event) <==> followed(event, Delivery::Live),
{
    let events = vec![
        ProviderEvent::PromptPrewarmRequested,
        ProviderEvent::CacheRefreshRequested,
        ProviderEvent::CacheRefreshCancelRequested,
        ProviderEvent::SessionDir,
        ProviderEvent::CancelPrompt,
        ProviderEvent::SessionShutdown,
    ];
    proof {
        assert(events@ =~= seq![
            ProviderEvent::PromptPrewarmRequested,
            ProviderEvent::CacheRefreshRequested,
            ProviderEvent::CacheRefreshCancelRequested,
            ProviderEvent::SessionDir,
            ProviderEvent::CancelPrompt,
            ProviderEvent::SessionShutdown,
        ]);
        assert(events@[0] == ProviderEvent::PromptPrewarmRequested);
        assert(events@[1] == ProviderEvent::CacheRefreshRequested);
        assert(events@[2] == ProviderEvent::CacheRefreshCancelRequested);
        assert(events@[3] == ProviderEvent::SessionDir);
        assert(events@[4] == ProviderEvent::CancelPrompt);
        assert(events@[5] == ProviderEvent::SessionShutdown);
    }
    events
}

/// The events whose past the provider asks for.
pub fn historical_selectors() -> (res: Vec<ProviderEvent>)
    ensures
        res@ == seq![ProviderEvent::SessionDir],
        forall|event: ProviderEvent|
            #![trigger followed(event, Delivery::Restore)]
            res@.contains(event) <==> followed(event, Delivery::Restore),
{
    let events = vec![ProviderEvent::SessionDir];
    assert(events@ =~= seq![ProviderEvent::SessionDir]);
    assert(events@[0] == ProviderEvent::SessionDir);
    events
}

/// A repeated event never starts provider work: only a session directory is taken from the past.
pub proof fn replay_starts_no_work(event: ProviderEvent)
    requires
        followed(event, Delivery::Restore),
    ensures
        event == ProviderEvent::SessionDir,
{
}

/// One frame of the provider's startup.
pub enum StartupFrame {
    /// The provider introduces itself under its name.
    Hello { client_name: String },
    /// The events that the provider follows live, and those whose past it asks for.
    Subscribe { live: Vec<ProviderEvent>, historical: Vec<ProviderEvent> },
    /// The models that the provider serves.
    ModelsDeclared(Vec<ProviderModelInfo>),
    /// Startup is complete.
    Ready { message: String },
}

/// The frames that open a connection: the introduction first, then the one subscription.
pub fn opening_frames() -> (res: Vec<StartupFrame>)
    ensures
        res@.len() == 2,
        res@[0] matches StartupFrame::Hello { client_name } && client_name@
            == "tau-ext-provider-builtin"@,
        res@[1] matches StartupFrame::Subscribe { live, historical } && live@ == seq![
            ProviderEvent::PromptPrewarmRequested,
            ProviderEvent::CacheRefreshRequested,
            ProviderEvent::CacheRefreshCancelRequested,
            ProviderEvent::SessionDir,
            ProviderEvent::CancelPrompt,
            ProviderEvent::SessionShutdown,
        ] && historical@ == seq![ProviderEvent::SessionDir],
{
    vec![
        StartupFrame::Hello { client_name: "tau-ext-provider-builtin".to_owned() },
        StartupFrame::Subscribe { live: live_selectors(), historical: historical_selectors() },
    ]
}

/// The frames that complete startup: models that are known by then are declared before the
/// provider is ready.
pub fn ready_frames(declared: Option<Vec<ProviderModelInfo>>) -> (res: Vec<StartupFrame>)
    ensures
        res@.len() == if declared is Some {
            2int
        } else {
            1int
        },
        declared is Some ==> res@[0] == StartupFrame::ModelsDeclared(declared->0),
        res@.last() matches StartupFrame::Ready { message } && message@
            == "builtin provider ready"@,
{
    let mut frames: Vec<StartupFrame> = Vec::new();
    if let Some(models) = declared {
        frames.push(StartupFrame::ModelsDeclared(models));
    }
    frames.push(StartupFrame::Ready { message: "builtin provider ready".to_owned() });
    frames
}

/// Prompts and their retries are followed only when they are addressed to this provider; what
/// every provider may hear is followed live; and of the past only session directories are.
pub proof fn work_must_be_addressed(event: ProviderEvent)
    ensures
        event == ProviderEvent::PromptCreated || event == ProviderEvent::RetryPrompt
            <==> followed(event, Delivery::RoutedLive),
        event == ProviderEvent::PromptCreated || event == ProviderEvent::RetryPrompt
            <==> !followed(event, Delivery::Live),
        event == ProviderEvent::SessionDir <==> followed(event, Delivery::Restore),
{
}

} // verus!
