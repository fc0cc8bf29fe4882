use vstd::prelude::*;

use crate::config::{Config, ConfigView};
use crate::defaults::default_policy;
use crate::engine::{
    decide, decision, entitles, Decision, Identity, IdentityView, Request, RequestView,
};
use crate::errors::DauError;
use crate::loader::{load_or_defaults, policy_in_force};
use crate::text::split;
use crate::trust::{privilege_of, trust_of, validate_privilege, verify_trust, FileStat, Trust};

verus! {

/// How far an invocation has come.
#[derive(Debug)]
pub enum Phase {
    /// Nothing is known yet.
    Start,
    /// The process runs as the super-user.
    Privileged,
    /// The configuration file exists and may be believed.
    Trusted,
    /// There is no configuration file: the default policy applies.
    Unconfigured,
    /// The policy is known.
    Loaded(Config),
    /// The policy allows the request.
    Granted,
    /// The caller's credential was accepted: the command may run.
    Finished,
    /// The invocation is refused.
    Failed(DauError),
}

/// The mathematical content of a [`Phase`].
pub enum PhaseView {
    Start,
    Privileged,
    Trusted,
    Unconfigured,
    Loaded(ConfigView),
    Granted,
    Finished,
    Failed(DauError),
}

impl View for Phase {
    type V = PhaseView;

    open spec fn view(&self) -> PhaseView {
        match self {
            Phase::Start => PhaseView::Start,
            Phase::Privileged => PhaseView::Privileged,
            Phase::Trusted => PhaseView::Trusted,
            Phase::Unconfigured => PhaseView::Unconfigured,
            Phase::Loaded(config) => PhaseView::Loaded(config@),
            Phase::Granted => PhaseView::Granted,
            Phase::Finished => PhaseView::Finished,
            Phase::Failed(e) => PhaseView::Failed(*e),
        }
    }
}

/// What the surroundings report back.
#[derive(Debug)]
pub enum Event {
    /// The effective user of the process.
    EffectiveUser(u32),
    /// The state of the configuration file, `None` where there is no file.
    ConfigStat(Option<FileStat>),
    /// The content of the configuration file.
    ConfigText(String),
    /// The list of administrative groups for the default policy, with `:`
    /// between the names, or `None` where there is no default policy.
    DefaultGroups(Option<String>),
    /// Who calls, and for what.
    Caller(Identity, Request),
    /// Whether the caller's credential was accepted.
    Credential(bool),
}

/// The mathematical content of an [`Event`].
pub enum EventView {
    EffectiveUser(u32),
    ConfigStat(Option<FileStat>),
    ConfigText(Seq<char>),
    DefaultGroups(Option<Seq<char>>),
    Caller(IdentityView, RequestView),
    Credential(bool),
}

impl View for Event {
    type V = EventView;

    open spec fn view(&self) -> EventView {
        match self {
            Event::EffectiveUser(euid) => EventView::EffectiveUser(*euid),
            Event::ConfigStat(stat) => EventView::ConfigStat(*stat),
            Event::ConfigText(text) => EventView::ConfigText(text@),
            Event::DefaultGroups(groups) => EventView::DefaultGroups(
                match groups {
                    Some(list) => Some(list@),
                    None => None,
                },
            ),
            Event::Caller(caller, request) => EventView::Caller(caller@, request@),
            Event::Credential(accepted) => EventView::Credential(*accepted),
        }
    }
}

/// What the surroundings are to do next.
#[derive(Clone, Copy, Debug, PartialEq, Eq, Structural)]
pub enum Action {
    /// Report the effective user of the process.
    QueryEffectiveUser,
    /// Report the owner and mode of the configuration file.
    StatConfig,
    /// Report the content of the configuration file.
    ReadConfig,
    /// Report the list of administrative groups for the default policy.
    ResolveDefaults,
    /// Report who calls and for what.
    ResolveCaller,
    /// Ask the caller for the credential and report whether it holds.
    AskCredential,
    /// Run the command as the target user.
    RunCommand,
    /// Give up with this error.
    Abort(DauError),
}

/// What each phase waits for.
pub open spec fn awaited(phase: PhaseView) -> Action {
    match phase {
        PhaseView::Start => Action::QueryEffectiveUser,
        PhaseView::Privileged => Action::StatConfig,
        PhaseView::Trusted => Action::ReadConfig,
        PhaseView::Unconfigured => Action::ResolveDefaults,
        PhaseView::Loaded(_) => Action::ResolveCaller,
        PhaseView::Granted => Action::AskCredential,
        PhaseView::Finished => Action::RunCommand,
        PhaseView::Failed(e) => Action::Abort(e),
    }
}

/// The phase that holds a policy, or the failure to get one.
pub open spec fn with_policy(policy: Result<ConfigView, DauError>) -> PhaseView {
    match policy {
        Ok(config) => PhaseView::Loaded(config),
        Err(e) => PhaseView::Failed(e),
    }
}

/// The phase after an event. An event that the phase does not wait for
/// changes nothing; a failure is final.
pub open spec fn next(phase: PhaseView, event: EventView) -> PhaseView {
    match (phase, event) {
        (PhaseView::Start, EventView::EffectiveUser(euid)) => match privilege_of(euid) {
            Ok(_) => PhaseView::Privileged,
            Err(e) => PhaseView::Failed(e),
        },
        (PhaseView::Privileged, EventView::ConfigStat(stat)) => match trust_of(stat) {
            Ok(Trust::Trusted) => PhaseView::Trusted,
            Ok(Trust::Absent) => PhaseView::Unconfigured,
            Err(e) => PhaseView::Failed(e),
        },
        (PhaseView::Trusted, EventView::ConfigText(text)) => with_policy(
            policy_in_force(Some(text), None),
        ),
        (PhaseView::Unconfigured, EventView::DefaultGroups(groups)) => with_policy(
            policy_in_force(None, groups),
        ),
        (PhaseView::Loaded(policy), EventView::Caller(caller, request)) => match decision(
            policy,
            caller,
            request,
        ) {
            Decision::Allow => PhaseView::Granted,
            Decision::Deny => PhaseView::Failed(DauError::CommandNotPermitted),
        },
        (PhaseView::Granted, EventView::Credential(accepted)) => if accepted {
            PhaseView::Finished
        } else {
            PhaseView::Failed(DauError::AuthenticationFailed)
        },
        _ => phase,
    }
}

/// The phase after a run of events, the first of them first.
pub open spec fn after(phase: PhaseView, events: Seq<EventView>) -> PhaseView
    decreases events.len(),
{
    if events.len() == 0 {
        phase
    } else {
        after(next(phase, events.first()), events.drop_first())
    }
}

impl Phase {
    /// What the surroundings are to do in this phase.
    pub fn pending(&self) -> (r: Action)
        ensures
            r == awaited(self@),
    {
        match self {
            Phase::Start => Action::QueryEffectiveUser,
            Phase::Privileged => Action::StatConfig,
            Phase::Trusted => Action::ReadConfig,
            Phase::Unconfigured => Action::ResolveDefaults,
            Phase::Loaded(_) => Action::ResolveCaller,
            Phase::Granted => Action::AskCredential,
            Phase::Finished => Action::RunCommand,
            Phase::Failed(e) => Action::Abort(*e),
        }
    }

    fn holding(policy: Result<Config, DauError>) -> (r: Phase)
        ensures
            r@ == with_policy(
                match policy {
                    Ok(config) => Ok(config@),
                    Err(e) => Err(e),
                },
            ),
    {
        match policy {
            Ok(config) => Phase::Loaded(config),
            Err(e) => Phase::Failed(e),
        }
    }

    /// The phase after an event.
    pub fn advance(self, event: Event) -> (r: Phase)
        ensures
            r@ == next(self@, event@),
    {
        match (self, event) {
            (Phase::Start, Event::EffectiveUser(euid)) => match validate_privilege(euid) {
                Ok(_) => Phase::Privileged,
                Err(e) => Phase::Failed(e),
            },
            (Phase::Privileged, Event::ConfigStat(stat)) => match verify_trust(stat) {
                Ok(Trust::Trusted) => Phase::Trusted,
                Ok(Trust::Absent) => Phase::Unconfigured,
                Err(e) => Phase::Failed(e),
            },
            (Phase::Trusted, Event::ConfigText(text)) => Phase::holding(
                load_or_defaults(Some(text.as_str()), None),
            ),
            (Phase::Unconfigured, Event::DefaultGroups(groups)) => match groups {
                Some(list) => Phase::holding(load_or_defaults(None, Some(list.as_str()))),
                None => Phase::holding(load_or_defaults(None, None)),
            },
            (Phase::Loaded(policy), Event::Caller(caller, request)) => match decide(
                &policy,
                &caller,
                &request,
            ) {
                Decision::Allow => Phase::Granted,
                Decision::Deny => Phase::Failed(DauError::CommandNotPermitted),
            },
            (Phase::Granted, Event::Credential(accepted)) => if accepted {
                Phase::Finished
            } else {
                Phase::Failed(DauError::AuthenticationFailed)
            },
            (phase, _) => phase,
        }
    }
}

/// A failure is final: whatever is reported afterwards, the invocation
/// stays refused with the same error.
pub proof fn law_failure_is_final(e: DauError, events: Seq<EventView>)
    ensures
        after(PhaseView::Failed(e), events) == PhaseView::Failed(e),
    decreases events.len(),
{
    if events.len() > 0 {
        law_failure_is_final(e, events.drop_first());
    }
}

/// A configuration file that does not belong to the super-user, or that
/// others may read or write, or that the group may write, is refused by
/// the trust check, and the invocation fails on it for good: no content
/// of the file, no caller and no request reported later is looked at.
pub proof fn law_untrusted_config_is_fatal(stat: FileStat, events: Seq<EventView>)
    requires
        stat.uid != 0 || stat.mode & 0o004 != 0 || stat.mode & 0o002 != 0 || stat.mode & 0o020
            != 0,
    ensures
        trust_of(Some(stat)) == Err::<Trust, DauError>(DauError::InvalidConfigfilePermissions),
        after(PhaseView::Privileged, seq![EventView::ConfigStat(Some(stat))] + events)
            == PhaseView::Failed(DauError::InvalidConfigfilePermissions),
        forall|euid: u32|
            after(
                PhaseView::Start,
                seq![EventView::EffectiveUser(euid), EventView::ConfigStat(Some(stat))] + events,
            ) is Failed,
{
    let refused = PhaseView::Failed(DauError::InvalidConfigfilePermissions);
    let stated = EventView::ConfigStat(Some(stat));
    let tail = seq![stated] + events;
    assert(tail.first() == stated);
    assert(tail.drop_first() =~= events);
    law_failure_is_final(DauError::InvalidConfigfilePermissions, events);
    assert(after(PhaseView::Privileged, tail) == after(refused, events));
    assert forall|euid: u32|
        after(PhaseView::Start, seq![EventView::EffectiveUser(euid), stated] + events) is Failed by {
        let all = seq![EventView::EffectiveUser(euid), stated] + events;
        assert(all.first() == EventView::EffectiveUser(euid));
        assert(all.drop_first() =~= tail);
        if euid != 0 {
            law_failure_is_final(DauError::NotSetUIDRoot, tail);
        }
    }
}

/// Nothing of the configuration or of the default policy is asked for
/// before the process is known to run as the super-user, and nothing at
/// all once it is known not to.
pub proof fn law_privilege_comes_first(euid: u32, events: Seq<EventView>)
    ensures
        awaited(PhaseView::Start) == Action::QueryEffectiveUser,
        euid != 0 ==> after(PhaseView::Start, seq![EventView::EffectiveUser(euid)] + events)
            == PhaseView::Failed(DauError::NotSetUIDRoot),
        forall|event: EventView|
            !(event is EffectiveUser) ==> #[trigger] next(PhaseView::Start, event)
                == PhaseView::Start,
{
    let all = seq![EventView::EffectiveUser(euid)] + events;
    assert(all.first() == EventView::EffectiveUser(euid));
    assert(all.drop_first() =~= events);
    law_failure_is_final(DauError::NotSetUIDRoot, events);
}

/// Without a configuration file the default policy is in force: a caller
/// in one of the administrative groups of the list is granted any command.
pub proof fn law_default_policy_admits_administrators(
    list: Seq<char>,
    group: Seq<char>,
    caller: IdentityView,
    request: RequestView,
)
    requires
        split(list, ':').contains(group),
        caller.groups.contains(group),
    ensures
        policy_in_force(None, Some(list)) == Ok::<ConfigView, DauError>(
            default_policy(split(list, ':')),
        ),
        decision(default_policy(split(list, ':')), caller, request) == Decision::Allow,
        after(
            PhaseView::Privileged,
            seq![
                EventView::ConfigStat(None),
                EventView::DefaultGroups(Some(list)),
                EventView::Caller(caller, request),
            ],
        ) == PhaseView::Granted,
{
    let policy = default_policy(split(list, ':'));
    assert(entitles(policy, caller, request.executable, group));
    let events = seq![
        EventView::ConfigStat(None),
        EventView::DefaultGroups(Some(list)),
        EventView::Caller(caller, request),
    ];
    assert(events.first() == EventView::ConfigStat(None));
    let second = events.drop_first();
    assert(second.first() == EventView::DefaultGroups(Some(list)));
    let third = second.drop_first();
    assert(third.first() == EventView::Caller(caller, request));
    assert(third.drop_first().len() == 0);
    assert(next(PhaseView::Privileged, events.first()) == PhaseView::Unconfigured);
    assert(next(PhaseView::Unconfigured, second.first()) == PhaseView::Loaded(policy));
    assert(after(PhaseView::Loaded(policy), third) == after(
        next(PhaseView::Loaded(policy), third.first()),
        third.drop_first(),
    ));
    assert(after(PhaseView::Unconfigured, second) == after(
        next(PhaseView::Unconfigured, second.first()),
        third,
    ));
}

} // verus!
