use vstd::prelude::*;

use crate::config::{Config, ConfigView, Perm, PermView, Type};
use crate::text::views;

verus! {

/// Who asks: the invoking user and the groups that user belongs to.
#[derive(Clone, Debug)]
pub struct Identity {
    pub user: String,
    pub groups: Vec<String>,
}

/// The mathematical content of an [`Identity`].
pub struct IdentityView {
    pub user: Seq<char>,
    pub groups: Set<Seq<char>>,
}

impl View for Identity {
    type V = IdentityView;

    open spec fn view(&self) -> IdentityView {
        IdentityView { user: self.user@, groups: views(self.groups@).to_set() }
    }
}

/// What is asked for: the user to run as, the executable and its arguments.
#[derive(Clone, Debug)]
pub struct Request {
    pub target: String,
    pub executable: String,
    pub arguments: Vec<String>,
}

/// The mathematical content of a [`Request`].
pub struct RequestView {
    pub target: Seq<char>,
    pub executable: Seq<char>,
    pub arguments: Seq<Seq<char>>,
}

impl View for Request {
    type V = RequestView;

    open spec fn view(&self) -> RequestView {
        RequestView {
            target: self.target@,
            executable: self.executable@,
            arguments: views(self.arguments@),
        }
    }
}

/// The answer of the policy.
#[derive(Clone, Copy, Debug, PartialEq, Eq, Structural)]
pub enum Decision {
    Allow,
    Deny,
}

/// The entry lets its principal run the executable: it is unrestricted, or
/// it lists exactly that string.
pub open spec fn grants(perm: PermView, executable: Seq<char>) -> bool {
    perm.all || perm.commands.contains(executable)
}

/// The entry under that name is one of the caller's: a user entry under
/// the caller's own name, or a group entry under the name of one of the
/// caller's groups.
pub open spec fn speaks_for(name: Seq<char>, perm: PermView, caller: IdentityView) -> bool {
    match perm.kind {
        Type::User => name == caller.user,
        Type::Group => caller.groups.contains(name),
    }
}

/// The table has an entry under that name which is the caller's and lets
/// the executable run.
pub open spec fn entitles(
    policy: ConfigView,
    caller: IdentityView,
    executable: Seq<char>,
    name: Seq<char>,
) -> bool {
    &&& policy.perms.contains_key(name)
    &&& speaks_for(name, policy.perms[name], caller)
    &&& grants(policy.perms[name], executable)
}

/// Some entry of the table entitles the caller to run the executable.
pub open spec fn permitted(policy: ConfigView, caller: IdentityView, executable: Seq<char>) -> bool {
    exists|name: Seq<char>| entitles(policy, caller, executable, name)
}

/// The answer of the policy to a request: `Allow` where some entry
/// entitles the caller, `Deny` in every other case.
pub open spec fn decision(policy: ConfigView, caller: IdentityView, request: RequestView) -> Decision {
    if permitted(policy, caller, request.executable) {
        Decision::Allow
    } else {
        Decision::Deny
    }
}

impl Request {
    /// The request for a command line: its first word is the executable.
    /// An empty command line asks for nothing.
    pub fn from_command(target: &str, command: &Vec<String>) -> (r: Option<Request>)
        ensures
            match r {
                Some(request) => command.len() > 0 && request@ == (RequestView {
                    target: target@,
                    executable: command[0]@,
                    arguments: views(command@).subrange(1, command.len() as int),
                }),
                None => command.len() == 0,
            },
    {
        if command.len() == 0 {
            return None;
        }
        let mut arguments: Vec<String> = Vec::new();
        let mut i: usize = 1;
        while i < command.len()
            invariant
                1 <= i <= command.len(),
                views(arguments@) == views(command@).subrange(1, i as int),
            decreases command.len() - i,
        {
            let ghost before = views(arguments@);
            arguments.push(command[i].clone());
            assert(views(arguments@) =~= before.push(command[i as int]@));
            assert(views(command@).subrange(1, i + 1) =~= views(command@).subrange(1, i as int).push(
                command[i as int]@,
            ));
            i += 1;
        }
        Some(Request { target: target.to_owned(), executable: command[0].clone(), arguments })
    }
}

impl Perm {
    /// Whether this entry lets its principal run the executable.
    pub fn permits(&self, executable: &String) -> (r: bool)
        ensures
            r == grants(self@, executable@),
    {
        if self.all {
            return true;
        }
        let mut i: usize = 0;
        while i < self.commands.len()
            invariant
                i <= self.commands.len(),
                forall|j: int| 0 <= j < i ==> (#[trigger] self.commands[j])@ != executable@,
            decreases self.commands.len() - i,
        {
            if self.commands[i] == *executable {
                assert(self@.commands[i as int] == executable@);
                return true;
            }
            i += 1;
        }
        assert(!self@.commands.contains(executable@)) by {
            if self@.commands.contains(executable@) {
                let j = choose|j: int| 0 <= j < self@.commands.len() && self@.commands[j] == executable@;
                assert(self.commands[j]@ == executable@);
            }
        }
        false
    }
}

/// Answers a request: `Allow` where the table has an entry for the caller's
/// user name, of kind user, or for one of the caller's groups, of kind
/// group, that is unrestricted or lists the executable; `Deny` otherwise.
pub fn decide(policy: &Config, caller: &Identity, request: &Request) -> (d: Decision)
    ensures
        d == decision(policy@, caller@, request@),
{
    let ghost exe = request@.executable;
    let own = match policy.get(caller.user.as_str()) {
        Some(perm) => perm.ptype == Type::User && perm.permits(&request.executable),
        None => false,
    };
    if own {
        assert(entitles(policy@, caller@, exe, caller@.user));
        return Decision::Allow;
    }
    let mut i: usize = 0;
    while i < caller.groups.len()
        invariant
            i <= caller.groups.len(),
            exe == request@.executable,
            !entitles(policy@, caller@, exe, caller@.user) || policy@.perms[caller@.user].kind
                == Type::Group,
            forall|j: int|
                0 <= j < i ==> !(policy@.perms.contains_key((#[trigger] caller.groups[j])@)
                    && policy@.perms[caller.groups[j]@].kind == Type::Group && grants(
                    policy@.perms[caller.groups[j]@],
                    exe,
                )),
        decreases caller.groups.len() - i,
    {
        let ghost name = caller.groups[i as int]@;
        let through = match policy.get(caller.groups[i].as_str()) {
            Some(perm) => perm.ptype == Type::Group && perm.permits(&request.executable),
            None => false,
        };
        if through {
            assert(views(caller.groups@)[i as int] == name);
            assert(caller@.groups.contains(name));
            assert(entitles(policy@, caller@, exe, name));
            return Decision::Allow;
        }
        i += 1;
    }
    assert(!permitted(policy@, caller@, exe)) by {
        if permitted(policy@, caller@, exe) {
            let name = choose|name: Seq<char>| entitles(policy@, caller@, exe, name);
            if policy@.perms[name].kind == Type::Group {
                let j = choose|j: int|
                    0 <= j < views(caller.groups@).len() && views(caller.groups@)[j] == name;
                assert(caller.groups[j]@ == name);
            }
        }
    }
    Decision::Deny
}

/// An unrestricted group entry allows every request of every member of
/// the group.
pub proof fn law_unrestricted_group_allows(
    policy: ConfigView,
    caller: IdentityView,
    request: RequestView,
    group: Seq<char>,
)
    requires
        policy.perms.contains_key(group),
        policy.perms[group].all,
        policy.perms[group].kind == Type::Group,
        caller.groups.contains(group),
    ensures
        decision(policy, caller, request) == Decision::Allow,
{
    assert(entitles(policy, caller, request.executable, group));
}

/// An unrestricted user entry allows every request of that user.
pub proof fn law_unrestricted_user_allows(
    policy: ConfigView,
    caller: IdentityView,
    request: RequestView,
)
    requires
        policy.perms.contains_key(caller.user),
        policy.perms[caller.user].all,
        policy.perms[caller.user].kind == Type::User,
    ensures
        decision(policy, caller, request) == Decision::Allow,
{
    assert(entitles(policy, caller, request.executable, caller.user));
}

/// Where a restricted entry is the only one that speaks for the caller,
/// a request is allowed if and only if the entry lists its executable,
/// letter for letter.
pub proof fn law_restricted_entry_allows_what_it_lists(
    policy: ConfigView,
    caller: IdentityView,
    request: RequestView,
    name: Seq<char>,
)
    requires
        policy.perms.contains_key(name),
        speaks_for(name, policy.perms[name], caller),
        !policy.perms[name].all,
        forall|other: Seq<char>|
            other != name && #[trigger] policy.perms.contains_key(other) ==> !speaks_for(
                other,
                policy.perms[other],
                caller,
            ),
    ensures
        decision(policy, caller, request) == Decision::Allow <==> policy.perms[name].commands.contains(
            request.executable,
        ),
{
    if policy.perms[name].commands.contains(request.executable) {
        assert(entitles(policy, caller, request.executable, name));
    }
}

/// A caller for whom no entry speaks is denied, whatever the command.
pub proof fn law_no_entry_no_grant(policy: ConfigView, caller: IdentityView, request: RequestView)
    requires
        forall|name: Seq<char>| #[trigger]
            policy.perms.contains_key(name) ==> !speaks_for(name, policy.perms[name], caller),
    ensures
        decision(policy, caller, request) == Decision::Deny,
{
}

/// A caller whose user name and group names are all missing from the table
/// is denied, whatever the command.
pub proof fn law_stranger_is_denied(policy: ConfigView, caller: IdentityView, request: RequestView)
    requires
        !policy.perms.contains_key(caller.user),
        forall|group: Seq<char>|
            caller.groups.contains(group) ==> !#[trigger] policy.perms.contains_key(group),
    ensures
        decision(policy, caller, request) == Decision::Deny,
{
    law_no_entry_no_grant(policy, caller, request);
}

/// Grants only add up: a further entry in the table takes nothing away
/// from what was allowed without it.
pub proof fn law_further_entry_keeps_grants(
    policy: ConfigView,
    caller: IdentityView,
    request: RequestView,
    name: Seq<char>,
    perm: PermView,
)
    requires
        !policy.perms.contains_key(name),
        decision(policy, caller, request) == Decision::Allow,
    ensures
        decision(
            ConfigView { timeout: policy.timeout, perms: policy.perms.insert(name, perm) },
            caller,
            request,
        ) == Decision::Allow,
{
    let granted = choose|granted: Seq<char>| entitles(policy, caller, request.executable, granted);
    let wider = ConfigView { timeout: policy.timeout, perms: policy.perms.insert(name, perm) };
    assert(entitles(wider, caller, request.executable, granted));
}

} // verus!
